use crate::error::LabelError;
use vstd::prelude::*;

verus! {

/// A parsed font of rusttype. The library hands it on to the glyph layout
/// and does not look into it.
#[verifier::external_type_specification]
#[verifier::external_body]
pub struct ExFont<'a>(rusttype::Font<'a>);

/// Whether `bytes` are the data of a font that rusttype can parse.
pub uninterp spec fn font_decodes(bytes: Seq<u8>) -> bool;

/// `Font::try_from_bytes` of rusttype: there is a font for valid data and
/// none for invalid data.
#[verifier::external_body]
fn try_font<'a>(bytes: &'a [u8]) -> (out: Option<rusttype::Font<'a>>)
    ensures
        out is Some <==> font_decodes(bytes@),
{
    rusttype::Font::try_from_bytes(bytes)
}

/// Parses the bytes of a font file once, for all the lines of a batch of
/// labels. Bytes that are no font are refused.
pub fn decode_font<'a>(bytes: &'a [u8]) -> (out: Result<rusttype::Font<'a>, LabelError>)
    ensures
        out is Ok <==> font_decodes(bytes@),
        out matches Err(e) ==> e == LabelError::FontDecodeError,
{
    match try_font(bytes) {
        Some(font) => Ok(font),
        None => Err(LabelError::FontDecodeError),
    }
}

} // verus!
