//! Shape definitions and implementations.

pub mod arc;

pub use self::arc::{Arc, ArcIter};
