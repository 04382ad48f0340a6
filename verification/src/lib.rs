//! Splits text into alternating runs of whitespace and non-whitespace
//! characters, and pairs the items of a sequence with values derived from
//! them by a caller-supplied function.

pub mod annotate;
pub mod segment;
pub mod tweet;

pub use annotate::annotate;
pub use segment::Part;
pub use segment::is_whitespace;
pub use segment::to_parts;
pub use tweet::Tweet;
