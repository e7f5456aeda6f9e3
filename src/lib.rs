//! Display-width measurement of terminal text that may carry ANSI escape
//! sequences, and alignment of such text into fixed-width fields.
pub mod width;
pub mod align;
pub mod writer;
pub mod html;
