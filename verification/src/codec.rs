//! Rectangle decoders and the pixel translation they share.

pub mod cursor;
pub mod pixel;
pub mod raw;
pub mod tight;
pub mod zrle;
