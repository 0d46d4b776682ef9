//! The AMF0 value encoding.

pub mod number;
pub mod read;
pub mod sequence;
pub mod string;
pub mod types;
pub mod value;
