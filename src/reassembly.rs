//! The receiving side: a state machine that takes chunks in arrival order,
//! says what to write to the destination, and says which progress events to
//! send back.
use vstd::prelude::*;
use crate::chunk::FileChunk;
use crate::error::TransferError;
use crate::identity::{FileInfo, base_name_of, is_storable_name};

verus! {

/// A progress report sent back to the sender.
#[derive(Debug)]
pub struct UploadProgress {
    /// The identity of the transfer.
    pub file_info: Option<FileInfo>,
    /// The bytes written to the destination so far.
    pub bytes_received: u64,
    /// The size that the sender declared.
    pub total_size: u64,
    /// Set on the one event that ends a finished transfer.
    pub complete: bool,
}

/// The numbers that a progress event carries.
#[derive(Debug, Clone, Copy, PartialEq, Eq, Structural)]
pub struct ProgressView {
    pub bytes_received: u64,
    pub total_size: u64,
    pub complete: bool,
}

impl UploadProgress {
    /// The numbers that the event carries.
    pub open spec fn summary(self) -> ProgressView {
        ProgressView {
            bytes_received: self.bytes_received,
            total_size: self.total_size,
            complete: self.complete,
        }
    }
}

/// How a chunk's payload goes to the destination file.
#[derive(Debug, Clone, Copy, PartialEq, Eq, Structural)]
pub enum WriteOp {
    /// Create the file, or truncate it, and write the payload from offset 0.
    Create,
    /// Append the payload to the file.
    Append,
}

/// What the destination holds after `op` writes `data` to a file that held
/// `file`.
pub open spec fn apply_write(file: Seq<u8>, op: WriteOp, data: Seq<u8>) -> Seq<u8> {
    match op {
        WriteOp::Create => data,
        WriteOp::Append => file + data,
    }
}

/// The progress events sent while payloads of total size `total` were
/// written one after the other, before the stream ended: after the first
/// write unless the declared size is 0, after a later one while fewer bytes
/// than declared have arrived.
pub open spec fn events_for(total: u64, payloads: Seq<Seq<u8>>) -> Seq<ProgressView>
    decreases payloads.len(),
{
    if payloads.len() == 0 {
        Seq::empty()
    } else {
        let before = events_for(total, payloads.drop_last());
        let bytes = payloads.flatten().len();
        if (payloads.len() == 1 && total > 0) || (payloads.len() > 1 && bytes < total) {
            before.push(ProgressView { bytes_received: bytes as u64, total_size: total, complete: false })
        } else {
            before
        }
    }
}

/// All the progress events of a transfer whose stream ended after the given
/// payloads were written: the completion event follows where every
/// declared byte arrived.
pub open spec fn final_events(total: u64, payloads: Seq<Seq<u8>>) -> Seq<ProgressView> {
    if payloads.flatten().len() >= total {
        events_for(total, payloads).push(
            ProgressView {
                bytes_received: payloads.flatten().len() as u64,
                total_size: total,
                complete: true,
            },
        )
    } else {
        events_for(total, payloads)
    }
}

/// What a destination that held `previous` holds after a transfer wrote the
/// given payloads: the first creates the file anew, the others append.
pub open spec fn destination_after(previous: Seq<u8>, payloads: Seq<Seq<u8>>) -> Seq<u8>
    decreases payloads.len(),
{
    if payloads.len() == 0 {
        previous
    } else {
        let op = if payloads.len() == 1 {
            WriteOp::Create
        } else {
            WriteOp::Append
        };
        apply_write(destination_after(previous, payloads.drop_last()), op, payloads.last())
    }
}

/// Where a transfer stands.
#[derive(Debug, Clone, Copy, PartialEq, Eq, Structural)]
pub enum Phase {
    /// No chunk has come yet.
    NotStarted,
    /// Waiting for the next chunk, or for the end of the stream.
    Receiving,
    /// A chunk's payload is being written.
    Writing,
    /// Every declared byte arrived, and the completion event went out.
    Complete,
    /// The stream ended short, or a write failed.
    Aborted,
}

/// Reassembles one transfer.
pub struct Reassembler {
    root: String,
    phase: Phase,
    identity: Option<FileInfo>,
    total_size: u64,
    bytes_received: u64,
    pending_op: WriteOp,
    pending_len: u64,
    /// The bytes that the destination holds, by the writes reported done.
    written: Ghost<Seq<u8>>,
    /// The payloads of the writes reported done, in order.
    payloads: Ghost<Seq<Seq<u8>>>,
    /// The payload of the write in progress.
    pending: Ghost<Seq<u8>>,
    /// The progress events emitted so far, in order.
    events: Ghost<Seq<ProgressView>>,
}

impl Reassembler {
    /// The directory under which the transfer is stored.
    pub closed spec fn root(self) -> Seq<char> {
        self.root@
    }

    /// Where the transfer stands.
    pub closed spec fn phase(self) -> Phase {
        self.phase
    }

    /// The identity established from the first chunk.
    pub closed spec fn identity(self) -> Option<FileInfo> {
        self.identity
    }

    /// The size that the first chunk declared.
    pub closed spec fn total_size(self) -> u64 {
        self.total_size
    }

    /// The bytes written to the destination so far.
    pub closed spec fn bytes_received(self) -> u64 {
        self.bytes_received
    }

    /// How the write in progress goes to the destination.
    pub closed spec fn pending_op(self) -> WriteOp {
        self.pending_op
    }

    /// What the destination holds, by the writes reported done.
    pub closed spec fn written(self) -> Seq<u8> {
        self.written@
    }

    /// The payloads of the writes reported done, in order.
    pub closed spec fn payloads(self) -> Seq<Seq<u8>> {
        self.payloads@
    }

    /// The payload of the write in progress.
    pub closed spec fn pending(self) -> Seq<u8> {
        self.pending@
    }

    /// The progress events emitted so far, in order.
    pub closed spec fn events(self) -> Seq<ProgressView> {
        self.events@
    }

    /// Whether a progress event of `bytes` out of `total` that does not
    /// complete the transfer may stand at position `i` of the event stream.
    pub open spec fn open_event_allowed(i: int, bytes: u64, total: u64) -> bool {
        bytes < total || (i == 0 && total > 0)
    }

    /// The reassembler's invariant.
    pub closed spec fn wf(self) -> bool {
        &&& self.bytes_received == self.written@.len()
        &&& self.written@ == self.payloads@.flatten()
        &&& (self.phase == Phase::NotStarted ==> {
            &&& self.identity is None
            &&& self.payloads@.len() == 0
            &&& self.events@.len() == 0
        })
        &&& (self.phase == Phase::Receiving || self.phase == Phase::Writing
            || self.phase == Phase::Complete) ==> self.identity is Some
        &&& self.identity is Some ==> self.identity->Some_0.size == self.total_size
        &&& (self.phase == Phase::Writing ==> {
            &&& self.pending@.len() == self.pending_len
            &&& self.bytes_received + self.pending_len <= u64::MAX
            &&& (self.pending_op == WriteOp::Create ==> self.events@.len() == 0
                && self.payloads@.len() == 0)
            &&& (self.pending_op == WriteOp::Append ==> self.events@.len() > 0
                || self.total_size == 0)
        })
        &&& (self.phase == Phase::Receiving ==> self.events@.len() > 0 || self.total_size == 0)
        &&& (self.phase == Phase::Receiving ==> self.payloads@.len() > 0)
        &&& (self.phase == Phase::Writing ==> (self.pending_op == WriteOp::Create
            <==> self.payloads@.len() == 0))
        &&& (self.phase != Phase::Complete ==> self.events@ == events_for(
            self.total_size,
            self.payloads@,
        ))
        &&& (self.phase == Phase::Complete ==> self.events@ == final_events(
            self.total_size,
            self.payloads@,
        ))
        &&& forall|i: int, j: int|
            0 <= i < j < self.events@.len() ==> #[trigger] self.events@[i].bytes_received
                <= #[trigger] self.events@[j].bytes_received
        &&& forall|i: int|
            0 <= i < self.events@.len() ==> {
                &&& #[trigger] self.events@[i].bytes_received <= self.bytes_received
                &&& self.events@[i].total_size == self.total_size
                &&& (self.events@[i].complete ==> i == self.events@.len() - 1 && self.phase
                    == Phase::Complete)
                &&& (!self.events@[i].complete ==> Self::open_event_allowed(
                    i,
                    self.events@[i].bytes_received,
                    self.total_size,
                ))
            }
        &&& (self.phase == Phase::Complete ==> {
            &&& self.events@.len() > 0
            &&& self.events@.last().complete
            &&& self.events@.last().bytes_received == self.bytes_received
            &&& self.bytes_received >= self.total_size
        })
    }
}

impl Reassembler {
    /// A reassembler for one transfer, storing under `root`.
    pub fn new(root: &str) -> (r: Reassembler)
        ensures
            r.wf(),
            r.phase() == Phase::NotStarted,
            r.root() == root@,
            r.identity() is None,
            r.bytes_received() == 0,
            r.written() == Seq::<u8>::empty(),
            r.payloads() == Seq::<Seq<u8>>::empty(),
            r.events() == Seq::<ProgressView>::empty(),
    {
        Reassembler {
            root: String::from_str(root),
            phase: Phase::NotStarted,
            identity: None,
            total_size: 0,
            bytes_received: 0,
            pending_op: WriteOp::Create,
            pending_len: 0,
            written: Ghost(Seq::empty()),
            payloads: Ghost(Seq::empty()),
            pending: Ghost(Seq::empty()),
            events: Ghost(Seq::empty()),
        }
    }

    /// Where the transfer stands.
    pub fn current_phase(&self) -> (r: Phase)
        ensures
            r == self.phase(),
    {
        self.phase
    }

    /// The bytes written to the destination so far.
    pub fn received(&self) -> (r: u64)
        ensures
            r == self.bytes_received(),
    {
        self.bytes_received
    }

    /// The identity established from the first chunk, once there is one.
    pub fn file_info(&self) -> (r: Option<&FileInfo>)
        ensures
            r == match self.identity() {
                Some(info) => Some(&info),
                None => None::<&FileInfo>,
            },
    {
        match &self.identity {
            Some(info) => Some(info),
            None => None,
        }
    }

    /// Takes the next chunk of the stream and says how to write its payload:
    /// the first chunk establishes the transfer's identity and creates (or
    /// truncates) the destination, each later one appends to it. The write
    /// is to be reported with `finish_chunk`.
    pub fn begin_chunk(&mut self, chunk: &FileChunk) -> (r: Result<WriteOp, TransferError>)
        requires
            old(self).wf(),
            old(self).phase() == Phase::NotStarted || old(self).phase() == Phase::Receiving,
        ensures
            final(self).wf(),
            final(self).root() == old(self).root(),
            final(self).written() == old(self).written(),
            final(self).payloads() == old(self).payloads(),
            final(self).events() == old(self).events(),
            old(self).phase() == Phase::NotStarted ==> {
                if is_storable_name(base_name_of(chunk.file_path@)) {
                    &&& r == Ok::<WriteOp, TransferError>(WriteOp::Create)
                    &&& final(self).identity() is Some
                    &&& final(self).identity()->Some_0.derived_from(
                        chunk.file_path@,
                        chunk.total_size,
                        old(self).root(),
                    )
                    &&& final(self).total_size() == chunk.total_size
                } else {
                    &&& r == Err::<WriteOp, TransferError>(TransferError::InvalidFileName)
                    &&& final(self).phase() == Phase::Aborted
                }
            },
            old(self).phase() == Phase::Receiving ==> {
                &&& final(self).identity() == old(self).identity()
                &&& final(self).total_size() == old(self).total_size()
                &&& if old(self).bytes_received() + chunk.chunk_data@.len() <= u64::MAX {
                    r == Ok::<WriteOp, TransferError>(WriteOp::Append)
                } else {
                    &&& r == Err::<WriteOp, TransferError>(TransferError::StorageWriteError)
                    &&& final(self).phase() == Phase::Aborted
                }
            },
            r is Ok ==> {
                &&& final(self).phase() == Phase::Writing
                &&& final(self).pending_op() == r->Ok_0
                &&& final(self).pending() == chunk.chunk_data@
                &&& final(self).bytes_received() == old(self).bytes_received()
            },
    {
        let len = chunk.chunk_data.len();
        if self.phase == Phase::NotStarted {
            match FileInfo::from_path(chunk.file_path.as_str(), chunk.total_size, self.root.as_str()) {
                Ok(info) => {
                    self.identity = Some(info);
                    self.total_size = chunk.total_size;
                    self.pending_op = WriteOp::Create;
                },
                Err(e) => {
                    self.phase = Phase::Aborted;
                    return Err(e);
                },
            }
        } else {
            if len as u64 > u64::MAX - self.bytes_received {
                self.phase = Phase::Aborted;
                return Err(TransferError::StorageWriteError);
            }
            self.pending_op = WriteOp::Append;
        }
        self.phase = Phase::Writing;
        self.pending_len = len as u64;
        self.pending = Ghost(chunk.chunk_data@);
        Ok(self.pending_op)
    }

    /// Takes the outcome of the write that `begin_chunk` asked for. A failed
    /// write aborts the transfer. After a successful one the progress event
    /// to send, if any, is returned: after the first chunk an event that does
    /// not complete the transfer, unless the declared size is 0; after a
    /// later chunk such an event while fewer bytes than declared have arrived.
    pub fn finish_chunk(&mut self, write_ok: bool) -> (r: Result<
        Option<UploadProgress>,
        TransferError,
    >)
        requires
            old(self).wf(),
            old(self).phase() == Phase::Writing,
        ensures
            final(self).wf(),
            final(self).root() == old(self).root(),
            final(self).identity() == old(self).identity(),
            final(self).total_size() == old(self).total_size(),
            !write_ok ==> {
                &&& r == Err::<Option<UploadProgress>, TransferError>(
                    TransferError::StorageWriteError,
                )
                &&& final(self).phase() == Phase::Aborted
                &&& final(self).written() == old(self).written()
                &&& final(self).payloads() == old(self).payloads()
                &&& final(self).events() == old(self).events()
            },
            write_ok ==> {
                &&& final(self).payloads() == old(self).payloads().push(old(self).pending())
                &&& final(self).phase() == Phase::Receiving
                &&& final(self).written() == apply_write(
                    old(self).written(),
                    old(self).pending_op(),
                    old(self).pending(),
                )
                &&& final(self).bytes_received() == old(self).bytes_received()
                    + old(self).pending().len()
                &&& r is Ok
                &&& if (old(self).pending_op() == WriteOp::Create && old(self).total_size() > 0)
                    || (old(self).pending_op() == WriteOp::Append
                    && final(self).bytes_received() < old(self).total_size()) {
                    &&& r->Ok_0 is Some
                    &&& r->Ok_0->Some_0.summary() == (ProgressView {
                        bytes_received: final(self).bytes_received(),
                        total_size: old(self).total_size(),
                        complete: false,
                    })
                    &&& r->Ok_0->Some_0.file_info == old(self).identity()
                    &&& final(self).events() == old(self).events().push(
                        r->Ok_0->Some_0.summary(),
                    )
                } else {
                    &&& r->Ok_0 is None
                    &&& final(self).events() == old(self).events()
                }
            },
    {
        if !write_ok {
            self.phase = Phase::Aborted;
            return Err(TransferError::StorageWriteError);
        }
        self.bytes_received = self.bytes_received + self.pending_len;
        self.written = Ghost(apply_write(self.written@, self.pending_op, self.pending@));
        proof {
            assert(self.payloads@.push(self.pending@).drop_last() =~= self.payloads@);
            self.payloads@.lemma_flatten_push(self.pending@);
            if self.pending_op == WriteOp::Create {
                assert(self.payloads@.push(self.pending@).flatten() =~= self.pending@);
            }
        }
        let ghost before = self.payloads@;
        self.payloads = Ghost(self.payloads@.push(self.pending@));
        self.phase = Phase::Receiving;
        proof {
            let ps = self.payloads@;
            assert(ps.drop_last() == before);
            assert(ps.flatten().len() == self.bytes_received);
            assert(ps.len() == 1 <==> self.pending_op == WriteOp::Create);
            if (ps.len() == 1 && self.total_size > 0) || (ps.len() > 1 && self.bytes_received
                < self.total_size) {
                assert(events_for(self.total_size, ps) == events_for(self.total_size, before).push(
                    ProgressView {
                        bytes_received: self.bytes_received,
                        total_size: self.total_size,
                        complete: false,
                    },
                ));
            } else {
                assert(events_for(self.total_size, ps) == events_for(self.total_size, before));
            }
        }
        let emit = match self.pending_op {
            WriteOp::Create => self.total_size > 0,
            WriteOp::Append => self.bytes_received < self.total_size,
        };
        if emit {
            let event = UploadProgress {
                file_info: self.identity.clone(),
                bytes_received: self.bytes_received,
                total_size: self.total_size,
                complete: false,
            };
            self.events = Ghost(self.events@.push(event.summary()));
            assert(self.wf());
            Ok(Some(event))
        } else {
            assert(self.wf());
            Ok(None)
        }
    }

    /// Takes the end of the chunk stream. A stream without a chunk is an
    /// empty transfer. Where every declared byte has arrived, the one event
    /// that completes the transfer is returned; otherwise the transfer ends
    /// without it.
    pub fn finish_stream(&mut self) -> (r: Result<Option<UploadProgress>, TransferError>)
        requires
            old(self).wf(),
            old(self).phase() == Phase::NotStarted || old(self).phase() == Phase::Receiving,
        ensures
            final(self).wf(),
            final(self).root() == old(self).root(),
            final(self).identity() == old(self).identity(),
            final(self).total_size() == old(self).total_size(),
            final(self).written() == old(self).written(),
            final(self).payloads() == old(self).payloads(),
            old(self).phase() == Phase::NotStarted ==> {
                &&& r == Err::<Option<UploadProgress>, TransferError>(TransferError::EmptyTransfer)
                &&& final(self).phase() == Phase::Aborted
                &&& final(self).events() == old(self).events()
            },
            old(self).phase() == Phase::Receiving ==> if old(self).bytes_received()
                >= old(self).total_size() {
                &&& final(self).phase() == Phase::Complete
                &&& r is Ok
                &&& r->Ok_0 is Some
                &&& r->Ok_0->Some_0.summary() == (ProgressView {
                    bytes_received: old(self).bytes_received(),
                    total_size: old(self).total_size(),
                    complete: true,
                })
                &&& r->Ok_0->Some_0.file_info == old(self).identity()
                &&& final(self).events() == old(self).events().push(r->Ok_0->Some_0.summary())
            } else {
                &&& final(self).phase() == Phase::Aborted
                &&& r == Ok::<Option<UploadProgress>, TransferError>(None)
                &&& final(self).events() == old(self).events()
            },
    {
        if self.phase == Phase::NotStarted {
            self.phase = Phase::Aborted;
            return Err(TransferError::EmptyTransfer);
        }
        if self.bytes_received >= self.total_size {
            let event = UploadProgress {
                file_info: self.identity.clone(),
                bytes_received: self.bytes_received,
                total_size: self.total_size,
                complete: true,
            };
            self.events = Ghost(self.events@.push(event.summary()));
            self.phase = Phase::Complete;
            Ok(Some(event))
        } else {
            self.phase = Phase::Aborted;
            Ok(None)
        }
    }
}

/// What a reassembler has done so far, stated over the run of payloads it
/// wrote: the destination holds them one after the other, and the events
/// sent are those of that run (with the completion event once complete).
pub proof fn lemma_transfer_history(r: Reassembler)
    requires
        r.wf(),
    ensures
        r.written() == r.payloads().flatten(),
        r.bytes_received() == r.written().len(),
        r.phase() != Phase::Complete ==> r.events() == events_for(r.total_size(), r.payloads()),
        r.phase() == Phase::Complete ==> r.events() == final_events(
            r.total_size(),
            r.payloads(),
        ),
        r.phase() == Phase::Receiving ==> r.payloads().len() > 0,
{
}

/// The events sent while chunks are written never complete the transfer,
/// and report the bytes written so far at most.
proof fn lemma_open_events(total: u64, payloads: Seq<Seq<u8>>)
    ensures
        forall|i: int|
            0 <= i < events_for(total, payloads).len() ==> {
                &&& !(#[trigger] events_for(total, payloads)[i]).complete
                &&& events_for(total, payloads)[i].total_size == total
            },
    decreases payloads.len(),
{
    if payloads.len() > 0 {
        let before = events_for(total, payloads.drop_last());
        lemma_open_events(total, payloads.drop_last());
        let ev = events_for(total, payloads);
        assert forall|i: int| 0 <= i < ev.len() implies !(#[trigger] ev[i]).complete
            && ev[i].total_size == total by {
            if i < before.len() {
                assert(ev[i] == before[i]);
            }
        }
    }
}

/// A transfer whose payloads add up to the declared size sends exactly one
/// completion event, as its last event, and that event reports the
/// declared size.
pub proof fn lemma_full_delivery(total: u64, payloads: Seq<Seq<u8>>)
    requires
        payloads.len() > 0,
        payloads.flatten().len() == total,
    ensures
        final_events(total, payloads).len() > 0,
        final_events(total, payloads).last() == (ProgressView {
            bytes_received: total,
            total_size: total,
            complete: true,
        }),
        forall|i: int|
            0 <= i < final_events(total, payloads).len() - 1 ==> !(#[trigger] final_events(
                total,
                payloads,
            )[i]).complete,
{
    lemma_open_events(total, payloads);
    let ev = final_events(total, payloads);
    assert forall|i: int| 0 <= i < ev.len() - 1 implies !(#[trigger] ev[i]).complete by {
        assert(ev[i] == events_for(total, payloads)[i]);
    }
}

/// A transfer whose stream ends before the declared size arrived sends no
/// completion event; so does one stopped by a failed write, whose events are
/// those sent before it.
pub proof fn lemma_short_delivery(total: u64, payloads: Seq<Seq<u8>>)
    requires
        payloads.flatten().len() < total,
    ensures
        final_events(total, payloads) == events_for(total, payloads),
        forall|i: int|
            0 <= i < events_for(total, payloads).len() ==> !(#[trigger] events_for(
                total,
                payloads,
            )[i]).complete,
{
    lemma_open_events(total, payloads);
}

/// Progress never goes back: the bytes that the events report do not
/// decrease from one event to the next.
pub proof fn lemma_progress_monotonic(r: Reassembler, i: int, j: int)
    requires
        r.wf(),
        0 <= i <= j < r.events().len(),
    ensures
        r.events()[i].bytes_received <= r.events()[j].bytes_received,
{
    if i < j {
        assert(r.events()[i].bytes_received <= r.events()[j].bytes_received);
    }
}

/// A new transfer to a destination that already holds a file replaces its
/// content from offset 0, also where the new content is shorter: afterwards
/// the destination holds exactly the payloads written, whatever it held.
pub proof fn lemma_upload_overwrites(previous: Seq<u8>, payloads: Seq<Seq<u8>>)
    requires
        payloads.len() > 0,
    ensures
        destination_after(previous, payloads) == payloads.flatten(),
    decreases payloads.len(),
{
    let init = payloads.drop_last();
    assert(payloads =~= init.push(payloads.last()));
    init.lemma_flatten_push(payloads.last());
    if payloads.len() == 1 {
        assert(init.flatten() =~= Seq::<u8>::empty());
        assert(payloads.flatten() =~= payloads.last());
    } else {
        lemma_upload_overwrites(previous, init);
    }
}

} // verus!
