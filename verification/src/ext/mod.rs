//! Operations built on the two stream traits.

pub mod read;
pub mod write;
