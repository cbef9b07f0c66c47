pub mod braille;
pub mod extent;
pub mod laws;
pub mod rows;

pub use braille::{braille, write_frame};
pub use extent::{Span, line_extent, merge};
pub use rows::{frames, row_spans};
