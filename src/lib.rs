//! A build-once, read-many sorted index over byte-string keys, backed by a
//! finite-state transducer.

pub mod keyorder;
pub mod fstcalls;
pub mod errors;
pub mod cursor;
pub mod map;
pub mod set;
pub mod laws;
