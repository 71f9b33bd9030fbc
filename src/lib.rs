//! Chunked file transfer: a producer that splits a file into ordered,
//! self-describing chunks, and a reassembler that rebuilds the file and
//! reports progress, both as verified state machines.
use vstd::prelude::*;

pub mod chunk;
pub mod error;
pub mod identity;
pub mod reassembly;
pub mod service;

verus! {

/// The directory under which received files are stored.
pub const UPLOAD_ROOT: &'static str = "uploads";

} // verus!
