use vstd::prelude::*;

verus! {

/// How the print head reads a raster bit.
#[derive(Clone, Copy, Debug, PartialEq, Eq, Structural)]
pub enum Polarity {
    /// A set bit prints a black dot.
    Normal,
    /// A cleared bit prints a black dot: every packed byte is flipped.
    Inverted,
}

/// How the driver feeds the label.
#[derive(Clone, Copy, Debug, PartialEq, Eq, Structural)]
pub enum Orientation {
    /// Blocks are sent as they were drawn.
    Portrait,
    /// The driver is locked to landscape: every block is turned a quarter
    /// clockwise before it is packed.
    Landscape,
}

/// The calibration of one printer and the rendering choices that go with it.
/// One value is handed to layout and emission, so that jobs for differently
/// calibrated printers do not interfere.
#[derive(Clone, Copy, Debug, PartialEq, Eq, Structural)]
pub struct RenderConfig {
    /// Print head heat, `D0` to `D15`.
    pub darkness: u8,
    /// Feed rate, `S1` to `S6`.
    pub speed: u8,
    /// Gap between two labels on the roll, in dots.
    pub label_gap: u32,
    /// Width of the narrow barcode module, in dots.
    pub narrow: u32,
    /// Width of the wide barcode module, in dots.
    pub wide: u32,
    /// Height of the barcode bars, in dots.
    pub barcode_height: u32,
    /// Whether the digits are printed under the bars.
    pub hri_visible: bool,
    /// Raster polarity of the print head.
    pub polarity: Polarity,
    /// Orientation the driver is locked to.
    pub orientation: Orientation,
    /// A pixel is black where its coverage, on a scale of 0 to 255, is
    /// strictly above this value.
    pub coverage_threshold: u8,
    /// Extra draw passes, each one dot further right, for bold product text.
    pub bold_passes: u8,
    /// Extra draw passes for the title.
    pub title_bold_passes: u8,
    /// Smallest height of a rendered line, in dots.
    pub min_line_height: u32,
}

impl RenderConfig {
    /// Darkness and speed lie in the ranges the printer accepts, and a line
    /// is at least one dot high.
    pub open spec fn wf(self) -> bool {
        &&& self.darkness <= 15
        &&& 1 <= self.speed <= 6
        &&& self.min_line_height >= 1
    }

    /// The documented default: the calibration of a 203 dpi desktop printer.
    pub open spec fn spec_standard() -> RenderConfig {
        RenderConfig {
            darkness: 8,
            speed: 2,
            label_gap: 24,
            narrow: 2,
            wide: 3,
            barcode_height: 35,
            hri_visible: true,
            polarity: Polarity::Inverted,
            orientation: Orientation::Portrait,
            coverage_threshold: 165,
            bold_passes: 1,
            title_bold_passes: 2,
            min_line_height: 30,
        }
    }

    /// The documented default configuration.
    pub fn standard() -> (cfg: RenderConfig)
        ensures
            cfg == Self::spec_standard(),
            cfg.wf(),
    {
        RenderConfig {
            darkness: 8,
            speed: 2,
            label_gap: 24,
            narrow: 2,
            wide: 3,
            barcode_height: 35,
            hri_visible: true,
            polarity: Polarity::Inverted,
            orientation: Orientation::Portrait,
            coverage_threshold: 165,
            bold_passes: 1,
            title_bold_passes: 2,
            min_line_height: 30,
        }
    }

    /// The configuration of a line that is set against the right edge: a
    /// pixel is black from six tenths of full coverage on, and the line is
    /// `min_line_height` dots high at least.
    pub open spec fn spec_right_aligned(min_line_height: u32) -> RenderConfig {
        RenderConfig { coverage_threshold: 153, min_line_height, ..Self::spec_standard() }
    }

    /// The configuration of the plain right-aligned line.
    pub fn line_1bit() -> (cfg: RenderConfig)
        ensures
            cfg == Self::spec_right_aligned(24),
            cfg.wf(),
    {
        let mut cfg: RenderConfig = Self::standard();
        cfg.coverage_threshold = 153;
        cfg.min_line_height = 24;
        cfg
    }

    /// The configuration of the larger right-aligned line.
    pub fn line_1bit_right() -> (cfg: RenderConfig)
        ensures
            cfg == Self::spec_right_aligned(28),
            cfg.wf(),
    {
        let mut cfg: RenderConfig = Self::standard();
        cfg.coverage_threshold = 153;
        cfg.min_line_height = 28;
        cfg
    }

    /// The configuration of the bold right-aligned line.
    pub fn line_bold_right() -> (cfg: RenderConfig)
        ensures
            cfg == Self::spec_right_aligned(30),
            cfg.wf(),
    {
        let mut cfg: RenderConfig = Self::standard();
        cfg.coverage_threshold = 153;
        cfg.min_line_height = 30;
        cfg
    }

    /// Whether darkness and speed lie in the ranges the printer accepts and
    /// a line is at least one dot high.
    pub fn is_valid(&self) -> (ok: bool)
        ensures
            ok == self.wf(),
    {
        self.darkness <= 15 && 1 <= self.speed && self.speed <= 6 && self.min_line_height >= 1
    }
}

} // verus!
