use tide_static_files::sizing::MAX_BUFFER_SIZE;
use tide_static_files::stream::{new_file_stream, ByteRange, Phase, ReadAction, ReadEvent};

/// Drive a worker over `file`, giving it at most `at_most` bytes per read.
fn drain(file: &[u8], range: ByteRange, at_most: usize) -> Vec<Vec<u8>> {
    let mut worker = new_file_stream(range);
    let mut cursor: usize = 0;
    let mut chunks = Vec::new();
    let mut action = worker.step(ReadEvent::Started);
    loop {
        let event = match action {
            ReadAction::Seek(offset) => {
                cursor = offset as usize;
                ReadEvent::SeekDone
            }
            ReadAction::Read(size) => {
                let mut buffer = vec![0u8; size];
                let left = file.len().saturating_sub(cursor);
                let length = size.min(at_most).min(left);
                buffer[..length].copy_from_slice(&file[cursor..cursor + length]);
                cursor += length;
                ReadEvent::ReadDone { buffer, length }
            }
            ReadAction::SendChunk(chunk) => {
                chunks.push(chunk);
                ReadEvent::Sent
            }
            ReadAction::SendError => panic!("no error was reported"),
            ReadAction::Finish => break,
        };
        action = worker.step(event);
    }
    assert!(worker.is_done());
    chunks
}

fn sample(length: usize) -> Vec<u8> {
    (0..length).map(|i| (i * 7 + 3) as u8).collect()
}

#[test]
fn whole_range_spans_the_file() {
    assert_eq!(ByteRange::whole(12), ByteRange { start: 0, end: 12 });
    assert_eq!(ByteRange::whole(0), ByteRange { start: 0, end: 0 });
}

#[test]
fn new_worker_is_idle_at_the_start_of_the_range() {
    let worker = new_file_stream(ByteRange { start: 3, end: 9 });
    assert_eq!(worker.phase(), Phase::Idle);
    assert_eq!(worker.position(), 3);
    assert_eq!(worker.end(), 9);
    assert!(!worker.is_done());
}

#[test]
fn worker_seeks_to_the_start_first() {
    let mut worker = new_file_stream(ByteRange { start: 3, end: 9 });
    assert_eq!(worker.step(ReadEvent::Started), ReadAction::Seek(3));
    assert_eq!(worker.phase(), Phase::Seeking);
}

#[test]
fn worker_reads_the_remainder_when_it_is_small() {
    let mut worker = new_file_stream(ByteRange { start: 3, end: 9 });
    worker.step(ReadEvent::Started);
    assert_eq!(worker.step(ReadEvent::SeekDone), ReadAction::Read(6));
    assert_eq!(worker.phase(), Phase::Reading);
}

#[test]
fn worker_reads_at_most_the_maximum() {
    let mut worker = new_file_stream(ByteRange { start: 0, end: 50_000_000 });
    worker.step(ReadEvent::Started);
    assert_eq!(worker.step(ReadEvent::SeekDone), ReadAction::Read(10 * 1024 * 1024));
}

#[test]
fn worker_sends_what_was_read_and_advances() {
    let mut worker = new_file_stream(ByteRange { start: 0, end: 12 });
    worker.step(ReadEvent::Started);
    worker.step(ReadEvent::SeekDone);
    let mut buffer = vec![0u8; 12];
    buffer[..5].copy_from_slice(b"says ");
    let action = worker.step(ReadEvent::ReadDone { buffer, length: 5 });
    assert_eq!(action, ReadAction::SendChunk(b"says ".to_vec()));
    assert_eq!(worker.position(), 5);
    assert_eq!(worker.phase(), Phase::Sending);
    assert_eq!(worker.step(ReadEvent::Sent), ReadAction::Read(7));
}

#[test]
fn worker_finishes_when_the_range_is_exhausted() {
    let mut worker = new_file_stream(ByteRange { start: 0, end: 4 });
    worker.step(ReadEvent::Started);
    worker.step(ReadEvent::SeekDone);
    let action = worker.step(ReadEvent::ReadDone { buffer: b"meow".to_vec(), length: 4 });
    assert_eq!(action, ReadAction::SendChunk(b"meow".to_vec()));
    assert_eq!(worker.position(), 4);
    assert_eq!(worker.step(ReadEvent::Sent), ReadAction::Finish);
    assert!(worker.is_done());
}

#[test]
fn worker_with_an_empty_range_finishes_after_the_seek() {
    let mut worker = new_file_stream(ByteRange { start: 7, end: 7 });
    assert_eq!(worker.step(ReadEvent::Started), ReadAction::Seek(7));
    assert_eq!(worker.step(ReadEvent::SeekDone), ReadAction::Finish);
    assert!(worker.is_done());
}

#[test]
fn worker_with_a_reversed_range_finishes_after_the_seek() {
    let mut worker = new_file_stream(ByteRange { start: 9, end: 3 });
    assert_eq!(worker.step(ReadEvent::Started), ReadAction::Seek(9));
    assert_eq!(worker.step(ReadEvent::SeekDone), ReadAction::Finish);
    assert!(worker.is_done());
}

#[test]
fn seek_failure_is_sent_as_the_only_item() {
    let mut worker = new_file_stream(ByteRange { start: 0, end: 12 });
    worker.step(ReadEvent::Started);
    assert_eq!(worker.step(ReadEvent::SeekFailed), ReadAction::SendError);
    assert_eq!(worker.phase(), Phase::Failing);
    assert_eq!(worker.step(ReadEvent::Sent), ReadAction::Finish);
    assert!(worker.is_done());
}

#[test]
fn read_failure_is_sent_as_the_last_item() {
    let mut worker = new_file_stream(ByteRange { start: 0, end: 12 });
    worker.step(ReadEvent::Started);
    worker.step(ReadEvent::SeekDone);
    worker.step(ReadEvent::ReadDone { buffer: vec![1u8; 12], length: 4 });
    assert_eq!(worker.step(ReadEvent::Sent), ReadAction::Read(8));
    assert_eq!(worker.step(ReadEvent::ReadFailed), ReadAction::SendError);
    assert_eq!(worker.position(), 4);
    assert_eq!(worker.step(ReadEvent::ReceiverGone), ReadAction::Finish);
    assert!(worker.is_done());
}

#[test]
fn end_of_file_before_the_end_of_the_range_ends_the_stream() {
    let mut worker = new_file_stream(ByteRange { start: 0, end: 12 });
    worker.step(ReadEvent::Started);
    worker.step(ReadEvent::SeekDone);
    let action = worker.step(ReadEvent::ReadDone { buffer: vec![0u8; 12], length: 0 });
    assert_eq!(action, ReadAction::Finish);
    assert!(worker.is_done());
    assert_eq!(worker.position(), 0);
}

#[test]
fn a_consumer_that_is_gone_stops_the_worker() {
    let mut worker = new_file_stream(ByteRange { start: 0, end: 12 });
    worker.step(ReadEvent::Started);
    worker.step(ReadEvent::SeekDone);
    worker.step(ReadEvent::ReadDone { buffer: vec![1u8; 12], length: 4 });
    assert_eq!(worker.step(ReadEvent::ReceiverGone), ReadAction::Finish);
    assert!(worker.is_done());
}

#[test]
fn a_read_longer_than_its_buffer_stops_the_worker() {
    let mut worker = new_file_stream(ByteRange { start: 0, end: 12 });
    worker.step(ReadEvent::Started);
    worker.step(ReadEvent::SeekDone);
    let action = worker.step(ReadEvent::ReadDone { buffer: vec![1u8; 4], length: 5 });
    assert_eq!(action, ReadAction::Finish);
    assert_eq!(worker.position(), 0);
}

#[test]
fn a_read_longer_than_asked_for_stops_the_worker() {
    let mut worker = new_file_stream(ByteRange { start: 0, end: 4 });
    worker.step(ReadEvent::Started);
    assert_eq!(worker.step(ReadEvent::SeekDone), ReadAction::Read(4));
    let action = worker.step(ReadEvent::ReadDone { buffer: vec![1u8; 8], length: 5 });
    assert_eq!(action, ReadAction::Finish);
    assert_eq!(worker.position(), 0);
}

#[test]
fn an_event_out_of_turn_stops_the_worker() {
    let mut worker = new_file_stream(ByteRange { start: 0, end: 12 });
    assert_eq!(worker.step(ReadEvent::Sent), ReadAction::Finish);
    assert!(worker.is_done());

    let mut worker = new_file_stream(ByteRange { start: 0, end: 12 });
    worker.step(ReadEvent::Started);
    let action = worker.step(ReadEvent::ReadDone { buffer: vec![1u8; 12], length: 4 });
    assert_eq!(action, ReadAction::Finish);
    assert_eq!(worker.position(), 0);

    let mut worker = new_file_stream(ByteRange { start: 0, end: 12 });
    worker.step(ReadEvent::Started);
    worker.step(ReadEvent::SeekDone);
    assert_eq!(worker.step(ReadEvent::SeekDone), ReadAction::Finish);
}

#[test]
fn a_finished_worker_stays_finished() {
    let mut worker = new_file_stream(ByteRange { start: 0, end: 0 });
    worker.step(ReadEvent::Started);
    worker.step(ReadEvent::SeekDone);
    for event in [
        ReadEvent::Started,
        ReadEvent::SeekDone,
        ReadEvent::Sent,
        ReadEvent::ReadDone { buffer: vec![1u8; 2], length: 1 },
    ] {
        assert_eq!(worker.step(event), ReadAction::Finish);
        assert!(worker.is_done());
    }
}

#[test]
fn draining_yields_the_bytes_of_the_range() {
    let file = sample(1000);
    for (start, end) in [(0u64, 1000u64), (0, 0), (10, 20), (999, 1000), (500, 500), (1, 999)] {
        for at_most in [1usize, 3, 7, 64, 4096] {
            let chunks = drain(&file, ByteRange { start, end }, at_most);
            let total: usize = chunks.iter().map(|chunk| chunk.len()).sum();
            assert_eq!(total as u64, end - start);
            assert_eq!(chunks.concat(), file[start as usize..end as usize].to_vec());
            assert!(chunks.iter().all(|chunk| !chunk.is_empty() && chunk.len() <= at_most));
        }
    }
}

#[test]
fn draining_a_small_file_yields_one_chunk() {
    let chunks = drain(b"says the cat", ByteRange::whole(12), usize::MAX);
    assert_eq!(chunks, vec![b"says the cat".to_vec()]);
    assert_eq!(chunks[0].len(), 12);
}

#[test]
fn draining_a_large_range_yields_chunks_of_at_most_the_maximum() {
    let length = 2 * MAX_BUFFER_SIZE + 17;
    let file = sample(length);
    let chunks = drain(&file, ByteRange::whole(length as u64), usize::MAX);
    let lengths: Vec<usize> = chunks.iter().map(|chunk| chunk.len()).collect();
    assert_eq!(lengths, vec![MAX_BUFFER_SIZE, MAX_BUFFER_SIZE, 17]);
    assert!(chunks.concat() == file);
}

#[test]
fn draining_a_truncated_file_ends_early_without_error() {
    let file = sample(30);
    let chunks = drain(&file, ByteRange { start: 10, end: 100 }, 8);
    assert_eq!(chunks.concat(), file[10..30].to_vec());
}
