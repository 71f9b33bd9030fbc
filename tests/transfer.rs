use cursed_archive::chunk::{chunk_file, ChunkProducer, FileChunk, CHUNK_SIZE};
use cursed_archive::error::TransferError;
use cursed_archive::identity::FileInfo;
use cursed_archive::reassembly::{Phase, Reassembler, UploadProgress, WriteOp};
use cursed_archive::service::{FileInjectServiceImpl, InjectArgs};

/// Applies a write as the receiving side does to a file held in memory.
fn apply(file: &mut Vec<u8>, op: WriteOp, data: &[u8]) {
    match op {
        WriteOp::Create => {
            file.clear();
            file.extend_from_slice(data);
        }
        WriteOp::Append => file.extend_from_slice(data),
    }
}

/// Runs chunks through a reassembler. Writes fail from the chunk numbered
/// `fail_from` on. Returns the events, the destination, and the error if any.
fn run(
    chunks: &[FileChunk],
    destination: &mut Vec<u8>,
    fail_from: Option<usize>,
) -> (Vec<UploadProgress>, Option<TransferError>, Reassembler) {
    let mut r = Reassembler::new("uploads");
    let mut events = Vec::new();
    for (k, c) in chunks.iter().enumerate() {
        let op = match r.begin_chunk(c) {
            Ok(op) => op,
            Err(e) => return (events, Some(e), r),
        };
        let ok = fail_from.map_or(true, |f| k < f);
        if ok {
            apply(destination, op, &c.chunk_data);
        }
        match r.finish_chunk(ok) {
            Ok(Some(e)) => events.push(e),
            Ok(None) => {}
            Err(e) => return (events, Some(e), r),
        }
    }
    match r.finish_stream() {
        Ok(Some(e)) => events.push(e),
        Ok(None) => {}
        Err(e) => return (events, Some(e), r),
    }
    (events, None, r)
}

fn bytes(n: usize) -> Vec<u8> {
    (0..n).map(|i| (i % 251) as u8).collect()
}

#[test]
fn chunks_of_two_and_a_half_mib() {
    let data = bytes(2621440);
    let chunks = chunk_file("src/big.bin", &data, CHUNK_SIZE);
    assert_eq!(chunks.len(), 3);
    let lens: Vec<usize> = chunks.iter().map(|c| c.chunk_data.len()).collect();
    assert_eq!(lens, vec![1048576, 1048576, 524288]);
    let offsets: Vec<u64> = chunks.iter().map(|c| c.offset).collect();
    assert_eq!(offsets, vec![0, 1048576, 2097152]);
    assert_eq!(chunks[2].bytes_sent, 2621440);
    assert!(chunks.iter().all(|c| c.total_size == 2621440 && c.file_path == "src/big.bin"));
}

#[test]
fn chunk_payloads_cover_file_with_prefix_offsets() {
    let data = bytes(10);
    let chunks = chunk_file("f.dat", &data, 3);
    let lens: Vec<usize> = chunks.iter().map(|c| c.chunk_data.len()).collect();
    assert_eq!(lens, vec![3, 3, 3, 1]);
    let offsets: Vec<u64> = chunks.iter().map(|c| c.offset).collect();
    assert_eq!(offsets, vec![0, 3, 6, 9]);
    let sent: Vec<u64> = chunks.iter().map(|c| c.bytes_sent).collect();
    assert_eq!(sent, vec![3, 6, 9, 10]);
    let joined: Vec<u8> = chunks.iter().flat_map(|c| c.chunk_data.clone()).collect();
    assert_eq!(joined, data);
}

#[test]
fn chunk_size_dividing_file_gives_full_blocks() {
    let data = bytes(8);
    let chunks = chunk_file("f.dat", &data, 4);
    let lens: Vec<usize> = chunks.iter().map(|c| c.chunk_data.len()).collect();
    assert_eq!(lens, vec![4, 4]);
}

#[test]
fn empty_file_gives_one_empty_chunk() {
    let chunks = chunk_file("dir/empty.txt", &Vec::new(), CHUNK_SIZE);
    assert_eq!(chunks.len(), 1);
    assert!(chunks[0].chunk_data.is_empty());
    assert_eq!(chunks[0].offset, 0);
    assert_eq!(chunks[0].bytes_sent, 0);
    assert_eq!(chunks[0].total_size, 0);
    assert_eq!(chunks[0].file_path, "dir/empty.txt");
}

#[test]
fn producer_follows_reads() {
    let mut p = ChunkProducer::new("a/b.txt", 5, 4);
    assert_eq!(p.block_size(), 4);
    let c1 = p.next_chunk(vec![1, 2, 3, 4]).unwrap();
    assert_eq!((c1.offset, c1.bytes_sent), (0, 4));
    let c2 = p.next_chunk(vec![5]).unwrap();
    assert_eq!((c2.offset, c2.bytes_sent), (4, 5));
    assert_eq!(c2.chunk_data, vec![5]);
    assert!(!p.finished());
    assert!(p.next_chunk(Vec::new()).is_none());
    assert!(p.finished());
}

#[test]
fn producer_sends_identity_for_empty_source() {
    let mut p = ChunkProducer::new("x/empty", 0, 4);
    let c = p.next_chunk(Vec::new()).unwrap();
    assert!(c.chunk_data.is_empty());
    assert_eq!((c.offset, c.bytes_sent, c.total_size), (0, 0, 0));
    assert_eq!(c.file_path, "x/empty");
    assert!(p.finished());
}

#[test]
fn empty_file_gives_one_complete_event() {
    let chunks = chunk_file("dir/empty.txt", &Vec::new(), CHUNK_SIZE);
    let mut dest = vec![9, 9, 9];
    let (events, err, r) = run(&chunks, &mut dest, None);
    assert!(err.is_none());
    assert_eq!(events.len(), 1);
    assert_eq!(events[0].bytes_received, 0);
    assert_eq!(events[0].total_size, 0);
    assert!(events[0].complete);
    assert!(dest.is_empty());
    assert_eq!(r.current_phase(), Phase::Complete);
}

#[test]
fn two_and_a_half_mib_gives_three_events() {
    let data = bytes(2621440);
    let chunks = chunk_file("src/big.bin", &data, CHUNK_SIZE);
    let mut dest = Vec::new();
    let (events, err, r) = run(&chunks, &mut dest, None);
    assert!(err.is_none());
    assert_eq!(events.len(), 3);
    assert_eq!(events[0].bytes_received, 1048576);
    assert!(!events[0].complete);
    assert_eq!(events[1].bytes_received, 2097152);
    assert!(!events[1].complete);
    assert!(events[2].complete);
    assert_eq!(events[2].bytes_received, 2621440);
    assert_eq!(events.iter().filter(|e| e.complete).count(), 1);
    assert_eq!(dest, data);
    assert_eq!(r.received(), 2621440);
}

#[test]
fn single_chunk_file_reports_then_completes() {
    let data = bytes(100);
    let chunks = chunk_file("one.bin", &data, CHUNK_SIZE);
    let mut dest = Vec::new();
    let (events, err, _) = run(&chunks, &mut dest, None);
    assert!(err.is_none());
    let got: Vec<(u64, bool)> = events.iter().map(|e| (e.bytes_received, e.complete)).collect();
    assert_eq!(got, vec![(100, false), (100, true)]);
}

#[test]
fn disconnect_after_first_chunk_gives_one_event() {
    let data = bytes(2621440);
    let chunks = chunk_file("src/big.bin", &data, CHUNK_SIZE);
    let mut dest = Vec::new();
    let (events, err, r) = run(&chunks[..1], &mut dest, None);
    assert!(err.is_none());
    assert_eq!(events.len(), 1);
    assert!(!events[0].complete);
    assert_eq!(events[0].bytes_received, 1048576);
    assert_eq!(dest.len(), 1048576);
    assert_eq!(r.current_phase(), Phase::Aborted);
}

#[test]
fn unwritable_destination_fails_before_any_event() {
    let chunks = chunk_file("a.txt", &bytes(10), 4);
    let mut dest = Vec::new();
    let (events, err, r) = run(&chunks, &mut dest, Some(0));
    assert_eq!(err, Some(TransferError::StorageWriteError));
    assert!(events.is_empty());
    assert_eq!(r.current_phase(), Phase::Aborted);
}

#[test]
fn failed_append_keeps_earlier_events() {
    let chunks = chunk_file("a.txt", &bytes(10), 4);
    let mut dest = Vec::new();
    let (events, err, _) = run(&chunks, &mut dest, Some(2));
    assert_eq!(err, Some(TransferError::StorageWriteError));
    let got: Vec<u64> = events.iter().map(|e| e.bytes_received).collect();
    assert_eq!(got, vec![4, 8]);
    assert!(events.iter().all(|e| !e.complete));
    assert_eq!(dest.len(), 8);
}

#[test]
fn stream_without_chunks_is_empty_transfer() {
    let (events, err, _) = run(&[], &mut Vec::new(), None);
    assert_eq!(err, Some(TransferError::EmptyTransfer));
    assert!(events.is_empty());
}

#[test]
fn dot_dot_name_is_refused() {
    let chunks = chunk_file("a/..", &bytes(3), 4);
    let (events, err, r) = run(&chunks, &mut Vec::new(), None);
    assert_eq!(err, Some(TransferError::InvalidFileName));
    assert!(events.is_empty());
    assert!(r.file_info().is_none());
}

#[test]
fn reupload_of_shorter_content_replaces_old() {
    let mut dest = Vec::new();
    let long = bytes(10);
    run(&chunk_file("d/f.txt", &long, 4), &mut dest, None);
    assert_eq!(dest, long);
    let short = vec![7u8, 7, 7];
    let (events, err, _) = run(&chunk_file("other/f.txt", &short, 4), &mut dest, None);
    assert!(err.is_none());
    assert_eq!(dest, short);
    assert!(events.last().unwrap().complete);
}

#[test]
fn progress_is_monotonic() {
    let chunks = chunk_file("m.bin", &bytes(25), 4);
    let (events, _, _) = run(&chunks, &mut Vec::new(), None);
    assert_eq!(events.len(), 7);
    assert!(events.windows(2).all(|w| w[0].bytes_received <= w[1].bytes_received));
    assert!(events.last().unwrap().complete);
    assert_eq!(events.last().unwrap().bytes_received, 25);
}

#[test]
fn over_delivery_completes_with_all_bytes() {
    let mut chunks = chunk_file("o.bin", &bytes(4), 4);
    chunks.push(FileChunk {
        file_path: "o.bin".to_string(),
        total_size: 4,
        chunk_data: vec![1, 2],
        offset: 4,
        bytes_sent: 6,
    });
    let (events, err, _) = run(&chunks, &mut Vec::new(), None);
    assert!(err.is_none());
    let got: Vec<(u64, bool)> = events.iter().map(|e| (e.bytes_received, e.complete)).collect();
    assert_eq!(got, vec![(4, false), (6, true)]);
}

#[test]
fn events_carry_identity() {
    let chunks = chunk_file("home/u/report.tar.gz", &bytes(5), 4);
    let (events, _, r) = run(&chunks, &mut Vec::new(), None);
    let info = events[0].file_info.as_ref().unwrap();
    assert_eq!(info.name, "report.tar.gz");
    assert_eq!(info.size, 5);
    assert_eq!(info.stored_path, "uploads/report.tar.gz");
    assert_eq!(r.file_info().unwrap().base_name, "report.tar.gz");
}

#[test]
fn identity_from_nested_path() {
    let info = FileInfo::from_path("dir/sub/report.tar.gz", 42, "uploads").unwrap();
    assert_eq!(info.name, "report.tar.gz");
    assert_eq!(info.base_name, "report.tar.gz");
    assert_eq!(info.extension, "gz");
    assert_eq!(info.parent_directory, "dir/sub");
    assert_eq!(info.original_path, "dir/sub/report.tar.gz");
    assert_eq!(info.stored_path, "uploads/report.tar.gz");
    assert_eq!(info.id, "uploads/report.tar.gz");
    assert_eq!(info.size, 42);
}

#[test]
fn identity_without_extension_or_parent() {
    let info = FileInfo::from_path("notes", 1, "store").unwrap();
    assert_eq!(info.extension, "");
    assert_eq!(info.parent_directory, "");
    assert_eq!(info.stored_path, "store/notes");
    let hidden = FileInfo::from_path("/home/u/.bashrc", 1, "store").unwrap();
    assert_eq!(hidden.extension, "");
    assert_eq!(hidden.name, ".bashrc");
    assert_eq!(hidden.parent_directory, "/home/u");
}

#[test]
fn identity_refuses_unstorable_names() {
    for p in ["", ".", "./", "..", "x/..", "x/../", "/", "/.", "//"] {
        assert_eq!(
            FileInfo::from_path(p, 0, "uploads").unwrap_err(),
            TransferError::InvalidFileName
        );
    }
    assert!(FileInfo::from_path("a/...", 0, "uploads").is_ok());
}

#[test]
fn identity_drops_trailing_separators() {
    let info = FileInfo::from_path("d/x/", 3, "uploads").unwrap();
    assert_eq!(info.name, "x");
    assert_eq!(info.parent_directory, "d");
    assert_eq!(info.stored_path, "uploads/x");
    let dotted = FileInfo::from_path("a/.", 3, "uploads").unwrap();
    assert_eq!(dotted.name, "a");
    assert_eq!(dotted.parent_directory, "");
    let both = FileInfo::from_path("d/x/./", 3, "uploads").unwrap();
    assert_eq!(both.name, "x");
    assert_eq!(both.parent_directory, "d");
}

#[test]
fn identity_parent_like_path_parent() {
    assert_eq!(FileInfo::from_path("/a", 1, "u").unwrap().parent_directory, "/");
    assert_eq!(FileInfo::from_path("a//b", 1, "u").unwrap().parent_directory, "a");
    assert_eq!(FileInfo::from_path("a/./b", 1, "u").unwrap().parent_directory, "a");
    assert_eq!(FileInfo::from_path("./b", 1, "u").unwrap().parent_directory, ".");
}

#[test]
fn trailing_separator_path_transfers() {
    let chunks = chunk_file("d/x/", &bytes(6), 4);
    let mut dest = Vec::new();
    let (events, err, r) = run(&chunks, &mut dest, None);
    assert!(err.is_none());
    let got: Vec<(u64, bool)> = events.iter().map(|e| (e.bytes_received, e.complete)).collect();
    assert_eq!(got, vec![(4, false), (6, true)]);
    assert_eq!(r.file_info().unwrap().stored_path, "uploads/x");
    assert_eq!(dest, bytes(6));
}

#[test]
fn service_stores_under_uploads() {
    let svc = FileInjectServiceImpl::default();
    assert_eq!(svc.upload_root, "uploads");
    let mut r = svc.start_transfer();
    assert_eq!(r.current_phase(), Phase::NotStarted);
    let chunks = chunk_file("x/y.txt", &bytes(2), 4);
    assert_eq!(r.begin_chunk(&chunks[0]), Ok(WriteOp::Create));
    assert_eq!(r.file_info().unwrap().stored_path, "uploads/y.txt");
}

#[test]
fn error_messages() {
    assert_eq!(TransferError::SourceUnavailable.message(), "source file unavailable");
    assert_eq!(TransferError::EmptyTransfer.message(), "empty transfer");
    assert_eq!(TransferError::StorageWriteError.message(), "storage write error");
    assert_eq!(TransferError::InvalidFileName.message(), "invalid file name");
}

#[test]
fn inject_args_hold_files() {
    let args = InjectArgs { server: "127.0.0.1:50051".to_string(), files: vec!["a".to_string()] };
    assert_eq!(args.files.len(), 1);
    assert_eq!(args.server, "127.0.0.1:50051");
}
