//! Lossless concatenation of MOV/MP4 containers: resolving the inputs into
//! an ordered list of files, checking that the containers can be joined, and
//! driving an external stream-copy muxer through a small state machine.

pub mod error;
pub mod resolve;
pub mod inspect;
pub mod validate;
pub mod concat;
