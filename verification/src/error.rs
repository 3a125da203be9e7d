use vstd::prelude::*;

verus! {

/// Why a label could not be composed. Every error is raised before the
/// first byte of the job is written.
#[derive(Clone, Copy, Debug, PartialEq, Eq, Structural)]
pub enum LabelError {
    /// The request holds a number of products other than two or four.
    InvalidProductCount,
    /// A barcode string holds no decimal digit at all.
    InvalidBarcodeDigits,
    /// The font bytes could not be parsed as a font.
    FontDecodeError,
    /// An element of the chosen arrangement does not fit on the canvas.
    CanvasTooSmall,
}

impl LabelError {
    /// A short English description of the error.
    pub fn message(&self) -> (text: &'static str)
        ensures
            text@ == match *self {
                LabelError::InvalidProductCount => "invalid number of products: expected 2 or 4"@,
                LabelError::InvalidBarcodeDigits => "barcode holds no digits"@,
                LabelError::FontDecodeError => "font data could not be parsed"@,
                LabelError::CanvasTooSmall => "canvas too small for the arrangement"@,
            },
    {
        match self {
            LabelError::InvalidProductCount => "invalid number of products: expected 2 or 4",
            LabelError::InvalidBarcodeDigits => "barcode holds no digits",
            LabelError::FontDecodeError => "font data could not be parsed",
            LabelError::CanvasTooSmall => "canvas too small for the arrangement",
        }
    }
}

} // verus!
