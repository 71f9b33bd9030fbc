//! Chunks, and the producer that cuts a file into them.
use vstd::prelude::*;

verus! {

/// The largest payload of a chunk in the reference setup: 1 MiB.
pub const CHUNK_SIZE: usize = 1048576;

/// One block of a file in transfer, with where it stands in the file.
#[derive(Debug)]
pub struct FileChunk {
    /// The path of the file as the sender names it.
    pub file_path: String,
    /// The size of the whole file, in bytes.
    pub total_size: u64,
    /// This block's bytes.
    pub chunk_data: Vec<u8>,
    /// Where this block starts in the file.
    pub offset: u64,
    /// The bytes sent so far, this block included.
    pub bytes_sent: u64,
}

/// The payloads of a run of chunks, in order.
pub open spec fn payloads_of(chunks: Seq<FileChunk>) -> Seq<Seq<u8>> {
    chunks.map_values(|c: FileChunk| c.chunk_data@)
}

/// The bytes that the chunks before position `i` carry.
pub open spec fn bytes_before(chunks: Seq<FileChunk>, i: int) -> int {
    payloads_of(chunks.take(i)).flatten().len() as int
}

/// Cuts a file into chunks, one block at a time, in read order. The first
/// chunk carries the file's identity even where the file is empty.
pub struct ChunkProducer {
    file_path: String,
    total_size: u64,
    chunk_size: usize,
    bytes_sent: u64,
    started: bool,
    finished: bool,
    /// The payloads produced so far.
    sent: Ghost<Seq<Seq<u8>>>,
}

impl ChunkProducer {
    /// The path that every chunk names.
    pub closed spec fn file_path(self) -> Seq<char> {
        self.file_path@
    }

    /// The size that every chunk declares.
    pub closed spec fn total_size(self) -> u64 {
        self.total_size
    }

    /// The largest payload of a chunk.
    pub closed spec fn chunk_size(self) -> usize {
        self.chunk_size
    }

    /// The payload bytes produced so far.
    pub closed spec fn bytes_sent(self) -> u64 {
        self.bytes_sent
    }

    /// Whether the sequence has ended.
    pub closed spec fn is_finished(self) -> bool {
        self.finished
    }

    /// The payloads produced so far, in order.
    pub closed spec fn sent(self) -> Seq<Seq<u8>> {
        self.sent@
    }

    /// The producer's invariant.
    pub closed spec fn wf(self) -> bool {
        &&& self.chunk_size > 0
        &&& self.bytes_sent == self.sent@.flatten().len()
        &&& self.started <==> self.sent@.len() > 0
    }

    /// A producer for the file at `file_path`, of `total_size` bytes, read
    /// in blocks of at most `chunk_size` bytes.
    pub fn new(file_path: &str, total_size: u64, chunk_size: usize) -> (r: ChunkProducer)
        requires
            chunk_size > 0,
        ensures
            r.wf(),
            r.file_path() == file_path@,
            r.total_size() == total_size,
            r.chunk_size() == chunk_size,
            r.bytes_sent() == 0,
            !r.is_finished(),
            r.sent().len() == 0,
    {
        ChunkProducer {
            file_path: String::from_str(file_path),
            total_size,
            chunk_size,
            bytes_sent: 0,
            started: false,
            finished: false,
            sent: Ghost(Seq::empty()),
        }
    }

    /// Whether the sequence has ended.
    pub fn finished(&self) -> (r: bool)
        ensures
            r == self.is_finished(),
    {
        self.finished
    }

    /// The largest block to read next.
    pub fn block_size(&self) -> (r: usize)
        ensures
            r == self.chunk_size(),
    {
        self.chunk_size
    }

    /// Takes the bytes of the next read of the source and returns the chunk
    /// that carries them. An empty read ends the sequence; where it is the
    /// first read, an empty chunk still goes out, to convey the file's
    /// identity and size. A read that would take the count of bytes sent
    /// past `u64::MAX` ends the sequence too.
    pub fn next_chunk(&mut self, data: Vec<u8>) -> (r: Option<FileChunk>)
        requires
            old(self).wf(),
            !old(self).is_finished(),
            data@.len() <= old(self).chunk_size(),
        ensures
            final(self).wf(),
            final(self).file_path() == old(self).file_path(),
            final(self).total_size() == old(self).total_size(),
            final(self).chunk_size() == old(self).chunk_size(),
            final(self).is_finished() == (data@.len() == 0 || old(self).bytes_sent()
                + data@.len() > u64::MAX),
            match r {
                Some(c) => {
                    &&& c.file_path@ == old(self).file_path()
                    &&& c.total_size == old(self).total_size()
                    &&& c.chunk_data@ == data@
                    &&& c.offset == old(self).bytes_sent()
                    &&& c.bytes_sent == old(self).bytes_sent() + data@.len()
                    &&& final(self).bytes_sent() == c.bytes_sent
                    &&& final(self).sent() == old(self).sent().push(data@)
                },
                None => {
                    &&& final(self).bytes_sent() == old(self).bytes_sent()
                    &&& final(self).sent() == old(self).sent()
                },
            },
            r is Some <==> ((data@.len() > 0 && old(self).bytes_sent() + data@.len() <= u64::MAX)
                || (data@.len() == 0 && old(self).sent().len() == 0)),
    {
        let n = data.len();
        if n == 0 {
            self.finished = true;
            if self.started {
                return None;
            }
        } else if n as u64 > u64::MAX - self.bytes_sent {
            self.finished = true;
            return None;
        }
        let offset = self.bytes_sent;
        proof {
            self.sent@.lemma_flatten_push(data@);
        }
        self.bytes_sent = offset + n as u64;
        self.started = true;
        self.sent = Ghost(self.sent@.push(data@));
        Some(
            FileChunk {
                file_path: self.file_path.clone(),
                total_size: self.total_size,
                chunk_data: data,
                offset,
                bytes_sent: self.bytes_sent,
            },
        )
    }
}

/// Copies `data[from..to]` into a new vector.
fn copy_range(data: &Vec<u8>, from: usize, to: usize) -> (r: Vec<u8>)
    requires
        from <= to <= data@.len(),
    ensures
        r@ == data@.subrange(from as int, to as int),
{
    let mut r: Vec<u8> = Vec::new();
    let mut k: usize = from;
    while k < to
        invariant
            from <= k <= to <= data@.len(),
            r@ == data@.subrange(from as int, k as int),
        decreases to - k,
    {
        r.push(data[k]);
        k = k + 1;
    }
    r
}

/// What the chunks of a file of contents `data`, declared at `path` and cut
/// in blocks of `chunk_size` bytes, are: their payloads put together are the
/// file; every block but the last is full and the last one is not empty
/// (an empty file gives a single empty chunk); each chunk starts where the
/// ones before it end, and counts the bytes sent through its own.
pub open spec fn chunks_of_file(
    chunks: Seq<FileChunk>,
    path: Seq<char>,
    data: Seq<u8>,
    chunk_size: int,
) -> bool {
    &&& chunks.len() > 0
    &&& payloads_of(chunks).flatten() == data
    &&& forall|i: int|
        0 <= i < chunks.len() ==> {
            &&& (#[trigger] chunks[i]).file_path@ == path
            &&& chunks[i].total_size == data.len()
            &&& chunks[i].offset == bytes_before(chunks, i)
            &&& chunks[i].bytes_sent == chunks[i].offset + chunks[i].chunk_data@.len()
            &&& chunks[i].chunk_data@.len() <= chunk_size
            &&& (i < chunks.len() - 1 ==> chunks[i].chunk_data@.len() == chunk_size)
            &&& (data.len() > 0 ==> chunks[i].chunk_data@.len() > 0)
        }
}

/// Cuts file contents already in memory into the chunks that a producer
/// gives for them.
pub fn chunk_file(path: &str, data: &Vec<u8>, chunk_size: usize) -> (r: Vec<FileChunk>)
    requires
        chunk_size > 0,
    ensures
        chunks_of_file(r@, path@, data@, chunk_size as int),
{
    let n = data.len();
    let mut producer = ChunkProducer::new(path, n as u64, chunk_size);
    let mut result: Vec<FileChunk> = Vec::new();
    if n == 0 {
        let first = producer.next_chunk(Vec::new());
        match first {
            Some(c) => {
                result.push(c);
            },
            None => {},
        }
        proof {
            assert(result@.take(0) =~= Seq::<FileChunk>::empty());
            assert(payloads_of(result@.take(0)) =~= Seq::<Seq<u8>>::empty());
            assert(payloads_of(result@) =~= seq![Seq::<u8>::empty()]);
            payloads_of(result@).lemma_flatten_one_element();
            assert(payloads_of(result@).flatten() =~= data@);
        }
        return result;
    }
    let mut pos: usize = 0;
    while pos < n
        invariant
            0 < n == data@.len(),
            chunk_size > 0,
            pos <= n,
            producer.wf(),
            !producer.is_finished(),
            producer.file_path() == path@,
            producer.total_size() == n,
            producer.chunk_size() == chunk_size,
            producer.bytes_sent() == pos,
            producer.sent() == payloads_of(result@),
            payloads_of(result@).flatten() == data@.subrange(0, pos as int),
            pos == 0 <==> result@.len() == 0,
            forall|i: int|
                0 <= i < result@.len() ==> {
                    &&& (#[trigger] result@[i]).file_path@ == path@
                    &&& result@[i].total_size == n
                    &&& result@[i].offset == bytes_before(result@, i)
                    &&& result@[i].bytes_sent == result@[i].offset
                        + result@[i].chunk_data@.len()
                    &&& result@[i].chunk_data@.len() <= chunk_size
                    &&& (i < result@.len() - 1 || pos < n ==> result@[i].chunk_data@.len()
                        == chunk_size)
                    &&& result@[i].chunk_data@.len() > 0
                },
        decreases n - pos,
    {
        let end = if n - pos > chunk_size {
            pos + chunk_size
        } else {
            n
        };
        let block = copy_range(data, pos, end);
        let ghost before = result@;
        let next = producer.next_chunk(block);
        match next {
            Some(c) => {
                proof {
                    assert(before.push(c).take(before.len() as int) =~= before);
                    assert forall|i: int| 0 <= i < before.len() implies before.push(c).take(i)
                        =~= before.take(i) by {}
                    assert(payloads_of(before.push(c)) =~= payloads_of(before).push(c.chunk_data@));
                    payloads_of(before).lemma_flatten_push(c.chunk_data@);
                    assert(data@.subrange(0, end as int) =~= data@.subrange(0, pos as int)
                        + data@.subrange(pos as int, end as int));
                }
                result.push(c);
            },
            None => {},
        }
        pos = end;
    }
    proof {
        assert(data@.subrange(0, n as int) =~= data@);
    }
    result
}

/// The chunks of a file carry `N` bytes in all for a file of `N` bytes, and
/// their offsets run 0, then each offset is the one before plus the length
/// of the payload before.
pub proof fn lemma_chunks_cover_file(
    chunks: Seq<FileChunk>,
    path: Seq<char>,
    data: Seq<u8>,
    chunk_size: int,
)
    requires
        chunks_of_file(chunks, path, data, chunk_size),
    ensures
        payloads_of(chunks).flatten().len() == data.len(),
        chunks[0].offset == 0,
        forall|i: int|
            0 < i < chunks.len() ==> (#[trigger] chunks[i]).offset == chunks[i - 1].offset
                + chunks[i - 1].chunk_data@.len(),
        chunks.last().bytes_sent == data.len(),
{
    assert(payloads_of(chunks.take(0)) =~= Seq::<Seq<u8>>::empty());
    assert forall|i: int| 0 < i < chunks.len() implies (#[trigger] chunks[i]).offset
        == chunks[i - 1].offset + chunks[i - 1].chunk_data@.len() by {
        assert(chunks.take(i) =~= chunks.take(i - 1).push(chunks[i - 1]));
        assert(payloads_of(chunks.take(i)) =~= payloads_of(chunks.take(i - 1)).push(
            chunks[i - 1].chunk_data@,
        ));
        payloads_of(chunks.take(i - 1)).lemma_flatten_push(chunks[i - 1].chunk_data@);
    }
    let last = chunks.len() - 1;
    assert(chunks =~= chunks.take(last).push(chunks[last]));
    assert(payloads_of(chunks) =~= payloads_of(chunks.take(last)).push(chunks[last].chunk_data@));
    payloads_of(chunks.take(last)).lemma_flatten_push(chunks[last].chunk_data@);
}

} // verus!
