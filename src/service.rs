//! The two ends of a transfer as configured objects: the sender's arguments
//! and the receiving service.
use vstd::prelude::*;
use crate::reassembly::{Phase, ProgressView, Reassembler};

verus! {

/// What the sender is asked to do: the receiver's address, and the files to
/// send to it, in order.
pub struct InjectArgs {
    pub server: String,
    pub files: Vec<String>,
}

/// The receiving service: every transfer it takes is stored under its
/// upload root.
#[derive(Debug)]
pub struct FileInjectServiceImpl {
    pub upload_root: String,
}

impl Default for FileInjectServiceImpl {
    fn default() -> (r: FileInjectServiceImpl)
        ensures
            r.upload_root@ == crate::UPLOAD_ROOT@,
    {
        FileInjectServiceImpl { upload_root: String::from_str(crate::UPLOAD_ROOT) }
    }
}

impl FileInjectServiceImpl {
    /// Starts the reassembly of one incoming transfer.
    pub fn start_transfer(&self) -> (r: Reassembler)
        ensures
            r.wf(),
            r.phase() == Phase::NotStarted,
            r.root() == self.upload_root@,
            r.identity() is None,
            r.bytes_received() == 0,
            r.written() == Seq::<u8>::empty(),
            r.payloads() == Seq::<Seq<u8>>::empty(),
            r.events() == Seq::<ProgressView>::empty(),
    {
        Reassembler::new(self.upload_root.as_str())
    }
}

} // verus!
