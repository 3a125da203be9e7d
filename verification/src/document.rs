use crate::barcode::Ean13Code;
use crate::config::RenderConfig;
use crate::epl::{barcode_bytes, image_bytes, rule_bytes};
use crate::error::LabelError;
use crate::raster::{PackedGrid, PackedRaster};
use crate::text::ascii_bytes;
use vstd::prelude::*;

verus! {

/// The number of modules across an EAN-13 symbol.
pub const EAN13_MODULES: u64 = 95;

/// One element of a label at its place on the canvas.
pub enum LabelElement {
    /// A packed bitmap with its top left corner at `(x, y)`.
    TextBlock { raster: PackedRaster, x: u32, y: u32 },
    /// An EAN-13 barcode that the printer draws from the digits.
    Barcode {
        x: u32,
        y: u32,
        rotation: u8,
        narrow: u32,
        wide: u32,
        height: u32,
        hri_visible: bool,
        digits: Ean13Code,
    },
    /// A horizontal rule.
    Rule { x: u32, y: u32, thickness: u32, length: u32 },
}

/// The mathematical model of a placed element.
pub enum ElementView {
    TextBlock { raster: PackedGrid, x: nat, y: nat },
    Barcode {
        x: nat,
        y: nat,
        rotation: nat,
        narrow: nat,
        wide: nat,
        height: nat,
        hri_visible: bool,
        digits: Seq<char>,
    },
    Rule { x: nat, y: nat, thickness: nat, length: nat },
}

impl ElementView {
    /// The column of the left edge.
    pub open spec fn left(self) -> nat {
        match self {
            ElementView::TextBlock { x, .. } => x,
            ElementView::Barcode { x, .. } => x,
            ElementView::Rule { x, .. } => x,
        }
    }

    /// The row of the top edge.
    pub open spec fn top(self) -> nat {
        match self {
            ElementView::TextBlock { y, .. } => y,
            ElementView::Barcode { y, .. } => y,
            ElementView::Rule { y, .. } => y,
        }
    }

    /// The width of the bounding box: of a barcode, its 95 modules (its bar
    /// height where it is turned by a quarter).
    pub open spec fn width(self) -> nat {
        match self {
            ElementView::TextBlock { raster, .. } => raster.width,
            ElementView::Barcode { rotation, narrow, height, .. } => if rotation % 2 == 0 {
                95 * narrow
            } else {
                height
            },
            ElementView::Rule { length, .. } => length,
        }
    }

    /// The height of the bounding box.
    pub open spec fn height(self) -> nat {
        match self {
            ElementView::TextBlock { raster, .. } => raster.height,
            ElementView::Barcode { rotation, narrow, height, .. } => if rotation % 2 == 0 {
                height
            } else {
                95 * narrow
            },
            ElementView::Rule { thickness, .. } => thickness,
        }
    }

    /// The first column to the right of the bounding box.
    pub open spec fn right(self) -> nat {
        self.left() + self.width()
    }

    /// The first row below the bounding box.
    pub open spec fn bottom(self) -> nat {
        self.top() + self.height()
    }

    /// Whether the bounding box lies on a canvas of the given size.
    pub open spec fn fits(self, canvas_width: nat, canvas_height: nat) -> bool {
        self.right() <= canvas_width && self.bottom() <= canvas_height
    }

    /// Whether the bounding boxes of two elements share no pixel.
    pub open spec fn apart_from(self, other: ElementView) -> bool {
        ||| self.right() <= other.left()
        ||| other.right() <= self.left()
        ||| self.bottom() <= other.top()
        ||| other.bottom() <= self.top()
    }

    /// The directive that draws the element.
    pub open spec fn bytes(self) -> Seq<u8> {
        match self {
            ElementView::TextBlock { raster, x, y } => image_bytes(x, y, raster),
            ElementView::Barcode { x, y, rotation, narrow, wide, height, hri_visible, digits } =>
                barcode_bytes(
                x,
                y,
                rotation,
                narrow,
                wide,
                height,
                hri_visible,
                ascii_bytes(digits),
            ),
            ElementView::Rule { x, y, thickness, length } => rule_bytes(x, y, thickness, length),
        }
    }

}

impl View for LabelElement {
    type V = ElementView;

    open spec fn view(&self) -> ElementView {
        match *self {
            LabelElement::TextBlock { raster, x, y } => ElementView::TextBlock {
                raster: raster@,
                x: x as nat,
                y: y as nat,
            },
            LabelElement::Barcode {
                x,
                y,
                rotation,
                narrow,
                wide,
                height,
                hri_visible,
                digits,
            } => ElementView::Barcode {
                x: x as nat,
                y: y as nat,
                rotation: rotation as nat,
                narrow: narrow as nat,
                wide: wide as nat,
                height: height as nat,
                hri_visible,
                digits: digits@,
            },
            LabelElement::Rule { x, y, thickness, length } => ElementView::Rule {
                x: x as nat,
                y: y as nat,
                thickness: thickness as nat,
                length: length as nat,
            },
        }
    }
}

impl LabelElement {
    /// The width of the bounding box.
    pub fn extent_width(&self) -> (w: u64)
        ensures
            w == self@.width(),
            w <= 95 * 0xFFFF_FFFF,
    {
        match self {
            LabelElement::TextBlock { raster, .. } => raster.width() as u64,
            LabelElement::Barcode { rotation, narrow, height, .. } => if *rotation % 2 == 0 {
                EAN13_MODULES * (*narrow as u64)
            } else {
                *height as u64
            },
            LabelElement::Rule { length, .. } => *length as u64,
        }
    }

    /// The height of the bounding box.
    pub fn extent_height(&self) -> (h: u64)
        ensures
            h == self@.height(),
            h <= 95 * 0xFFFF_FFFF,
    {
        match self {
            LabelElement::TextBlock { raster, .. } => raster.height() as u64,
            LabelElement::Barcode { rotation, narrow, height, .. } => if *rotation % 2 == 0 {
                *height as u64
            } else {
                EAN13_MODULES * (*narrow as u64)
            },
            LabelElement::Rule { thickness, .. } => *thickness as u64,
        }
    }

    /// The column of the left edge.
    pub fn left(&self) -> (x: u32)
        ensures
            x == self@.left(),
    {
        match self {
            LabelElement::TextBlock { x, .. } => *x,
            LabelElement::Barcode { x, .. } => *x,
            LabelElement::Rule { x, .. } => *x,
        }
    }

    /// The row of the top edge.
    pub fn top(&self) -> (y: u32)
        ensures
            y == self@.top(),
    {
        match self {
            LabelElement::TextBlock { y, .. } => *y,
            LabelElement::Barcode { y, .. } => *y,
            LabelElement::Rule { y, .. } => *y,
        }
    }

    /// Whether the bounding box lies on a canvas of the given size.
    pub fn fits(&self, canvas_width: u32, canvas_height: u32) -> (ok: bool)
        ensures
            ok == self@.fits(canvas_width as nat, canvas_height as nat),
    {
        self.left() as u64 + self.extent_width() <= canvas_width as u64 && self.top() as u64
            + self.extent_height() <= canvas_height as u64
    }
}

/// The mathematical model of a label: the canvas, the calibration and the
/// placed elements in the order in which they are emitted.
pub struct DocumentView {
    pub canvas_width: nat,
    pub canvas_height: nat,
    pub gap: nat,
    pub darkness: nat,
    pub speed: nat,
    pub elements: Seq<ElementView>,
}

impl DocumentView {
    /// The calibration is in range and every element lies on the canvas.
    pub open spec fn wf(self) -> bool {
        &&& self.darkness <= 15
        &&& 1 <= self.speed <= 6
        &&& forall|i: int|
            0 <= i < self.elements.len() ==> (#[trigger] self.elements[i]).fits(
                self.canvas_width,
                self.canvas_height,
            )
    }
}

/// The views of a sequence of elements.
pub open spec fn element_views(elements: Seq<LabelElement>) -> Seq<ElementView> {
    Seq::new(elements.len(), |i: int| elements[i]@)
}

/// A planned label: every element has its place, and every place is on the
/// canvas.
pub struct LabelDocument {
    canvas_width: u32,
    canvas_height: u32,
    gap: u32,
    darkness: u8,
    speed: u8,
    elements: Vec<LabelElement>,
}

impl View for LabelDocument {
    type V = DocumentView;

    closed spec fn view(&self) -> DocumentView {
        DocumentView {
            canvas_width: self.canvas_width as nat,
            canvas_height: self.canvas_height as nat,
            gap: self.gap as nat,
            darkness: self.darkness as nat,
            speed: self.speed as nat,
            elements: element_views(self.elements@),
        }
    }
}

impl LabelDocument {
    /// Every document is well formed.
    #[verifier::type_invariant]
    pub open spec fn inv(&self) -> bool {
        self@.wf()
    }

    /// A label without elements.
    pub fn new(canvas_width: u32, canvas_height: u32, config: &RenderConfig) -> (doc:
        LabelDocument)
        requires
            config.wf(),
        ensures
            doc@ == (DocumentView {
                canvas_width: canvas_width as nat,
                canvas_height: canvas_height as nat,
                gap: config.label_gap as nat,
                darkness: config.darkness as nat,
                speed: config.speed as nat,
                elements: Seq::empty(),
            }),
    {
        let doc = LabelDocument {
            canvas_width,
            canvas_height,
            gap: config.label_gap,
            darkness: config.darkness,
            speed: config.speed,
            elements: Vec::new(),
        };
        proof {
            assert(doc@.elements =~= Seq::empty());
        }
        doc
    }

    /// A label from elements that are known to lie on the canvas.
    pub(crate) fn assemble(
        canvas_width: u32,
        canvas_height: u32,
        config: &RenderConfig,
        elements: Vec<LabelElement>,
    ) -> (doc: LabelDocument)
        requires
            config.wf(),
            forall|i: int|
                0 <= i < elements@.len() ==> (#[trigger] elements@[i])@.fits(
                    canvas_width as nat,
                    canvas_height as nat,
                ),
        ensures
            doc@ == (DocumentView {
                canvas_width: canvas_width as nat,
                canvas_height: canvas_height as nat,
                gap: config.label_gap as nat,
                darkness: config.darkness as nat,
                speed: config.speed as nat,
                elements: element_views(elements@),
            }),
    {
        LabelDocument {
            canvas_width,
            canvas_height,
            gap: config.label_gap,
            darkness: config.darkness,
            speed: config.speed,
            elements,
        }
    }

    /// Adds an element behind the others. One whose bounding box does not
    /// lie on the canvas is refused and the label stays as it was.
    pub fn push(&mut self, element: LabelElement) -> (out: Result<(), LabelError>)
        ensures
            out is Ok <==> element@.fits(old(self)@.canvas_width, old(self)@.canvas_height),
            out is Ok ==> final(self)@ == (DocumentView {
                elements: old(self)@.elements.push(element@),
                ..old(self)@
            }),
            out matches Err(e) ==> e == LabelError::CanvasTooSmall && final(self)@ == old(self)@,
    {
        proof {
            use_type_invariant(&*self);
        }
        if !element.fits(self.canvas_width, self.canvas_height) {
            return Err(LabelError::CanvasTooSmall);
        }
        let mut elements: Vec<LabelElement> = Vec::new();
        proof {
            assert(element_views(elements@) =~= Seq::empty());
        }
        let ghost before = self.elements@;
        core::mem::swap(&mut self.elements, &mut elements);
        elements.push(element);
        proof {
            assert(element_views(elements@) =~= element_views(before).push(element@));
        }
        core::mem::swap(&mut self.elements, &mut elements);
        Ok(())
    }

    /// The width of the canvas in dots.
    pub fn canvas_width(&self) -> (w: u32)
        ensures
            w == self@.canvas_width,
    {
        self.canvas_width
    }

    /// The height of the canvas in dots.
    pub fn canvas_height(&self) -> (h: u32)
        ensures
            h == self@.canvas_height,
    {
        self.canvas_height
    }

    /// The gap between two labels in dots.
    pub fn gap(&self) -> (g: u32)
        ensures
            g == self@.gap,
    {
        self.gap
    }

    /// The darkness setting.
    pub fn darkness(&self) -> (d: u8)
        ensures
            d == self@.darkness,
            d <= 15,
    {
        proof {
            use_type_invariant(self);
        }
        self.darkness
    }

    /// The speed setting.
    pub fn speed(&self) -> (s: u8)
        ensures
            s == self@.speed,
            1 <= s <= 6,
    {
        proof {
            use_type_invariant(self);
        }
        self.speed
    }

    /// The placed elements in the order in which they are emitted.
    pub fn elements(&self) -> (elements: &Vec<LabelElement>)
        ensures
            element_views(elements@) == self@.elements,
            forall|i: int|
                0 <= i < elements@.len() ==> (#[trigger] elements@[i])@.fits(
                    self@.canvas_width,
                    self@.canvas_height,
                ),
    {
        proof {
            use_type_invariant(self);
            assert forall|i: int| 0 <= i < self.elements@.len() implies (
            #[trigger] self.elements@[i])@.fits(self@.canvas_width, self@.canvas_height) by {
                assert(self@.elements[i] == self.elements@[i]@);
            }
        }
        &self.elements
    }
}

} // verus!
