//! Label composition for thermal printers that speak EPL2.
//!
//! A label is composed in five steps: product text is brought into display
//! order ([`shaper`]), glyph coverage is drawn into a one-bit bitmap
//! ([`glyph`], [`bitmap`]), the bitmap is packed into printer raster rows
//! ([`raster`]), the blocks and barcodes ([`barcode`]) are placed on the
//! canvas ([`layout`], [`document`]) and the placed elements are written
//! out as EPL2 directives ([`epl`]). [`request`] checks what is asked for
//! and [`builder`] chains the steps for labels of two and of four products.
//!
//! Composition is a plain computation on values in memory: it reads no
//! file and keeps no state, so that labels can be composed side by side.
//! Laying out glyphs with a font and handing the job to a printer are left
//! to the caller; [`font`] parses the font for it and [`gray`] converts
//! bitmaps from and to gray images.

pub mod barcode;
pub mod bitmap;
pub mod builder;
pub mod config;
pub mod decimal;
pub mod document;
pub mod epl;
pub mod error;
pub mod font;
pub mod glyph;
pub mod gray;
pub mod layout;
pub mod printer;
pub mod raster;
pub mod request;
pub mod shaper;
pub mod text;
