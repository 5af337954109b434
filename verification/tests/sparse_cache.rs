#![allow(clippy::single_range_in_vec_init)]
use mtp_mount::sparse_cache::fill::{
    fill_from_stream, FillAction, FillEvent, FillOutcome, FillRun,
};
use mtp_mount::sparse_cache::shared::{FillFailure, SharedSparseCache};
use mtp_mount::sparse_cache::{CacheError, SparseCache};
use std::collections::VecDeque;
use std::ops::Range;

/// A cache with its backing file in memory.
struct Backed {
    cache: SparseCache,
    file: Vec<u8>,
}

impl Backed {
    fn new(total_size: u64) -> Self {
        Backed {
            cache: SparseCache::new(total_size),
            file: vec![0; total_size as usize],
        }
    }

    fn missing_ranges(&self, offset: u64, size: u64) -> Vec<Range<u64>> {
        self.cache.missing_ranges(offset, size)
    }

    fn populated_ranges(&self) -> &[Range<u64>] {
        self.cache.populated_ranges()
    }

    fn write_at(&mut self, offset: u64, data: &[u8]) -> Result<(), CacheError> {
        self.cache.check_write(offset, data.len())?;
        let start = offset as usize;
        self.file[start..start + data.len()].copy_from_slice(data);
        self.cache.write_at(offset, data)
    }

    fn read_at(&mut self, offset: u64, size: u64) -> Result<Vec<u8>, CacheError> {
        let window = self.cache.read_at(offset, size);
        if window.is_empty() {
            return Ok(Vec::new());
        }
        Ok(self.file[window.start as usize..window.end as usize].to_vec())
    }
}

/// A shared cache with its backing file in memory.
struct Shared {
    cache: SharedSparseCache,
    file: Vec<u8>,
}

impl Shared {
    fn new(total_size: u64) -> Self {
        Shared {
            cache: SharedSparseCache::new(total_size),
            file: vec![0; total_size as usize],
        }
    }

    fn write_sequential(&mut self, offset: u64, data: &[u8]) -> Result<(), CacheError> {
        self.cache.check_sequential(offset, data.len())?;
        let start = offset as usize;
        self.file[start..start + data.len()].copy_from_slice(data);
        self.cache.write_sequential(offset, data)
    }

    /// What a reader finds; `None` while it has to keep waiting.
    fn poll_read(&self, offset: u64, size: u64) -> Option<Result<Vec<u8>, FillFailure>> {
        match self.cache.wait_and_read(offset, size)? {
            Ok(window) if window.is_empty() => Some(Ok(Vec::new())),
            Ok(window) => Some(Ok(
                self.file[window.start as usize..window.end as usize].to_vec()
            )),
            Err(failure) => Some(Err(failure)),
        }
    }

    fn wait_and_read(&self, offset: u64, size: u64) -> Result<Vec<u8>, FillFailure> {
        self.poll_read(offset, size).expect("a reader would still wait")
    }
}

/// A scripted stream that records what was pulled and whether it was cancelled.
struct FakeStream {
    chunks: VecDeque<Result<Vec<u8>, &'static str>>,
    chunks_pulled: usize,
    cancelled: usize,
}

impl FakeStream {
    fn new(chunks: Vec<Result<Vec<u8>, &'static str>>) -> Self {
        FakeStream {
            chunks: chunks.into(),
            chunks_pulled: 0,
            cancelled: 0,
        }
    }
}

/// Runs a stream into a cache, as the owner of a download does.
fn fill(
    shared: &mut Shared,
    stream: &mut FakeStream,
    is_link_lost: fn(&str) -> bool,
) -> FillOutcome {
    let mut run = FillRun::new(&shared.cache);
    let mut event = FillEvent::Started;
    loop {
        match fill_from_stream(&mut run, &mut shared.cache, event) {
            FillAction::Pull => {
                let chunk = stream.chunks.pop_front();
                if chunk.is_some() {
                    stream.chunks_pulled += 1;
                }
                event = match chunk {
                    None => FillEvent::Ended,
                    Some(Err(message)) => FillEvent::Broke {
                        message: message.to_string(),
                        link_lost: is_link_lost(message),
                    },
                    Some(Ok(bytes)) => {
                        if let Some((offset, n)) = run.due(&shared.cache, bytes.len()) {
                            let start = offset as usize;
                            if n > 0 {
                                shared.file[start..start + n].copy_from_slice(&bytes[..n]);
                            }
                        }
                        FillEvent::Chunk { bytes, io: None }
                    }
                };
            }
            FillAction::Cancel => {
                stream.cancelled += 1;
                event = FillEvent::Cancelled;
            }
            FillAction::Done(outcome) => return outcome,
        }
    }
}

#[test]
fn missing_ranges_empty_cache() {
    let cache = Backed::new(1000);
    assert_eq!(cache.missing_ranges(0, 100), vec![0..100]);
    assert_eq!(cache.missing_ranges(500, 100), vec![500..600]);
}

#[test]
fn missing_ranges_full_hit() {
    let mut cache = Backed::new(1000);
    cache.write_at(0, &[0u8; 500]).unwrap();
    assert_eq!(cache.missing_ranges(100, 200), Vec::<Range<u64>>::new());
    assert_eq!(cache.missing_ranges(0, 500), Vec::<Range<u64>>::new());
}

#[test]
fn missing_ranges_partial_hit_at_start() {
    let mut cache = Backed::new(1000);
    // Populate [0, 100).
    cache.write_at(0, &[0u8; 100]).unwrap();
    // Request [0, 200) — first 100 cached, 100..200 missing.
    assert_eq!(cache.missing_ranges(0, 200), vec![100..200]);
}

#[test]
fn missing_ranges_partial_hit_at_end() {
    let mut cache = Backed::new(1000);
    // Populate [100, 200).
    cache.write_at(100, &[0u8; 100]).unwrap();
    // Request [0, 200) — first 100 missing, last 100 cached.
    assert_eq!(cache.missing_ranges(0, 200), vec![0..100]);
}

#[test]
fn missing_ranges_gap_in_middle() {
    let mut cache = Backed::new(1000);
    cache.write_at(0, &[0u8; 100]).unwrap();
    cache.write_at(200, &[0u8; 100]).unwrap();
    // Request [0, 300) — gap at [100, 200).
    assert_eq!(cache.missing_ranges(0, 300), vec![100..200]);
}

#[test]
fn missing_ranges_multiple_gaps() {
    let mut cache = Backed::new(1000);
    cache.write_at(100, &[0u8; 50]).unwrap();
    cache.write_at(300, &[0u8; 50]).unwrap();
    // Request [0, 400) — gaps at [0,100), [150,300), [350,400).
    assert_eq!(
        cache.missing_ranges(0, 400),
        vec![0..100, 150..300, 350..400]
    );
}

#[test]
fn missing_ranges_clips_to_total_size() {
    let mut cache = Backed::new(500);
    // Request extends beyond total_size; should clip.
    assert_eq!(cache.missing_ranges(400, 1000), vec![400..500]);
    cache.write_at(400, &[0u8; 100]).unwrap();
    assert_eq!(cache.missing_ranges(400, 1000), Vec::<Range<u64>>::new());
}

#[test]
fn missing_ranges_offset_past_end() {
    let cache = Backed::new(100);
    assert_eq!(cache.missing_ranges(200, 100), Vec::<Range<u64>>::new());
}

#[test]
fn adjacent_ranges_merge() {
    let mut cache = Backed::new(1000);
    cache.write_at(0, &[0u8; 100]).unwrap();
    cache.write_at(100, &[0u8; 100]).unwrap();
    assert_eq!(cache.populated_ranges(), &[0..200]);
}

#[test]
fn overlapping_ranges_merge() {
    let mut cache = Backed::new(1000);
    cache.write_at(0, &[0u8; 100]).unwrap();
    cache.write_at(50, &[0u8; 100]).unwrap();
    assert_eq!(cache.populated_ranges(), &[0..150]);
}

#[test]
fn disjoint_ranges_preserved() {
    let mut cache = Backed::new(1000);
    cache.write_at(0, &[0u8; 100]).unwrap();
    cache.write_at(500, &[0u8; 100]).unwrap();
    assert_eq!(cache.populated_ranges(), &[0..100, 500..600]);
}

#[test]
fn insertion_sorted() {
    let mut cache = Backed::new(1000);
    cache.write_at(500, &[0u8; 100]).unwrap();
    cache.write_at(0, &[0u8; 100]).unwrap();
    cache.write_at(300, &[0u8; 50]).unwrap();
    assert_eq!(cache.populated_ranges(), &[0..100, 300..350, 500..600]);
}

#[test]
fn write_read_roundtrip() {
    let mut cache = Backed::new(1000);
    let data: Vec<u8> = (0..200).map(|i| (i % 256) as u8).collect();
    cache.write_at(100, &data).unwrap();
    let read = cache.read_at(100, 200).unwrap();
    assert_eq!(read, data);
}

#[test]
fn read_at_clips_to_total_size() {
    let mut cache = Backed::new(150);
    cache.write_at(100, &[0u8; 50]).unwrap();
    // Request extends past total_size; should return only the available bytes.
    let read = cache.read_at(100, 200).unwrap();
    assert_eq!(read.len(), 50);
}

#[test]
fn read_at_past_end_returns_empty() {
    let mut cache = Backed::new(100);
    let read = cache.read_at(200, 50).unwrap();
    assert_eq!(read, Vec::<u8>::new());
}

#[test]
fn three_way_merge() {
    // Writing a range that bridges two existing ranges should merge all three.
    let mut cache = Backed::new(1000);
    cache.write_at(0, &[0u8; 100]).unwrap();
    cache.write_at(200, &[0u8; 100]).unwrap();
    cache.write_at(100, &[0u8; 100]).unwrap();
    assert_eq!(cache.populated_ranges(), &[0..300]);
}

#[test]
fn write_past_advertised_size_is_rejected_without_marking_bytes() {
    let mut cache = Backed::new(4);
    let error = cache.write_at(2, b"abc").unwrap_err();
    assert_eq!(
        error,
        CacheError::PastEnd {
            offset: 2,
            end: 5,
            total_size: 4
        }
    );
    assert_eq!(
        error.message(),
        "cache write [2, 5) exceeds the object size 4"
    );
    assert_eq!(cache.missing_ranges(0, 4), vec![0..4]);
}

#[test]
fn normal_stream_populates_and_completes_the_cache() {
    let mut cache = Shared::new(6);
    assert!(cache.cache.start_fill());
    let mut stream = FakeStream::new(vec![Ok(b"abc".to_vec()), Ok(b"def".to_vec())]);
    fill(&mut cache, &mut stream, |_| false);

    assert_eq!(cache.wait_and_read(0, 6).unwrap(), b"abcdef");
    assert!(!cache.cache.start_fill(), "a completed cache gets no second fill");
}

#[test]
fn truncated_stream_keeps_its_prefix_but_rejects_the_missing_tail() {
    let mut cache = Shared::new(6);
    assert!(cache.cache.start_fill());
    let mut stream = FakeStream::new(vec![Ok(b"abc".to_vec())]);
    fill(&mut cache, &mut stream, |_| false);

    assert_eq!(cache.wait_and_read(0, 3).unwrap(), b"abc");
    let failure = cache.wait_and_read(3, 3).unwrap_err();
    assert!(failure.message().contains("ended after 3 bytes"));
    assert_eq!(
        failure.message(),
        "full-object stream ended after 3 bytes; expected 6"
    );
}

#[test]
fn stream_failure_after_a_range_lands_does_not_hide_that_range() {
    let mut cache = Shared::new(6);
    assert!(cache.cache.start_fill());
    let mut stream = FakeStream::new(vec![Ok(b"abc".to_vec()), Err("device left")]);
    fill(&mut cache, &mut stream, |error| error == "device left");

    assert_eq!(cache.wait_and_read(0, 3).unwrap(), b"abc");
    let failure = cache.wait_and_read(3, 3).unwrap_err();
    assert!(failure.is_link_lost());
    assert_eq!(failure.message(), "device left");
}

#[test]
fn stream_failure_before_a_range_arrives_returns_no_hole_bytes() {
    let mut cache = Shared::new(6);
    assert!(cache.cache.start_fill());
    let mut stream = FakeStream::new(vec![Err("stream failed")]);
    fill(&mut cache, &mut stream, |_| false);

    assert_eq!(cache.cache.missing_ranges(0, 3), vec![0..3]);
    assert_eq!(
        cache.wait_and_read(0, 3).unwrap_err().message(),
        "stream failed"
    );
}

#[test]
fn local_write_failure_still_drains_the_stream_to_eof() {
    let mut cache = Shared::new(3);
    assert!(cache.cache.start_fill());
    let mut stream = FakeStream::new(vec![
        Ok(b"abc".to_vec()),
        Ok(b"de".to_vec()),
        Ok(b"fg".to_vec()),
    ]);
    fill(&mut cache, &mut stream, |_| false);

    assert_eq!(stream.chunks_pulled, 3);
    assert_eq!(
        stream.cancelled, 0,
        "a local write failure drains the transfer rather than cancelling it"
    );
    assert_eq!(cache.wait_and_read(0, 3).unwrap(), b"abc");
    assert!(!cache.cache.start_fill(), "a failed fill cannot silently restart");
}

#[test]
fn a_reader_waits_until_its_entire_range_is_valid() {
    let mut cache = Shared::new(4);
    assert!(cache.cache.start_fill());
    cache.write_sequential(0, b"ab").unwrap();
    assert!(cache.poll_read(0, 4).is_none());
    cache.write_sequential(2, b"cd").unwrap();
    assert_eq!(cache.poll_read(0, 4).unwrap().unwrap(), b"abcd");
    cache.cache.finish(4);
}

#[test]
fn overlapping_and_far_forward_readers_wake_as_their_ranges_land() {
    let mut cache = Shared::new(16);
    assert!(cache.cache.start_fill());
    assert!(cache.poll_read(4, 4).is_none());
    cache.write_sequential(0, b"abcdefgh").unwrap();
    assert_eq!(cache.poll_read(4, 4).unwrap().unwrap(), b"efgh");
    assert!(cache.poll_read(10, 4).is_none());
    cache.write_sequential(8, b"ijklmnop").unwrap();
    assert_eq!(cache.poll_read(10, 4).unwrap().unwrap(), b"klmn");
    cache.cache.finish(16);
}

#[test]
fn repeated_reads_reuse_bytes_and_eof_never_starts_a_fill() {
    let mut cache = Shared::new(4);
    assert!(cache.cache.start_fill());
    cache.write_sequential(0, b"data").unwrap();
    cache.cache.finish(4);
    assert_eq!(cache.wait_and_read(1, 2).unwrap(), b"at");
    assert_eq!(cache.wait_and_read(1, 2).unwrap(), b"at");

    let eof = Shared::new(4);
    assert_eq!(eof.wait_and_read(4, 100).unwrap(), Vec::<u8>::new());
}

#[test]
fn a_stop_request_cancels_the_transfer_instead_of_dropping_it() {
    let mut cache = Shared::new(6);
    assert!(cache.cache.start_fill());
    let mut stream = FakeStream::new(vec![Ok(b"abc".to_vec()), Ok(b"def".to_vec())]);
    cache.cache.request_stop();

    let outcome = fill(&mut cache, &mut stream, |_| false);

    assert_eq!(outcome, FillOutcome::Stopped);
    assert_eq!(stream.cancelled, 1);
    assert_eq!(
        stream.chunks_pulled, 0,
        "the stop lands before the next chunk, not after the rest of the file"
    );
    // A reader blocked on the stopped fill is released with a reason, never with bytes the device
    // did not send.
    assert!(cache
        .wait_and_read(0, 6)
        .unwrap_err()
        .message()
        .contains("going away"));
}

#[test]
fn a_stop_mid_transfer_keeps_the_bytes_that_already_landed() {
    let mut cache = Shared::new(6);
    assert!(cache.cache.start_fill());
    cache.write_sequential(0, b"abc").unwrap();
    cache.cache.request_stop();

    let mut stream = FakeStream::new(vec![Ok(b"def".to_vec())]);
    fill(&mut cache, &mut stream, |_| false);

    assert_eq!(stream.cancelled, 1);
    assert_eq!(cache.wait_and_read(0, 3).unwrap(), b"abc");
    assert!(cache.wait_and_read(3, 3).is_err());
}

#[test]
fn a_running_fill_reports_itself_so_its_cache_outlives_the_last_close() {
    let mut cache = SharedSparseCache::new(4);
    assert!(!cache.is_filling());
    assert!(cache.start_fill());
    assert!(cache.is_filling());
    cache.finish(4);
    assert!(!cache.is_filling());
}

#[test]
fn only_link_loss_can_reset_a_failed_fill() {
    let mut cache = SharedSparseCache::new(4);
    assert!(cache.start_fill());
    cache.fail(FillFailure::new("protocol error", false));
    assert!(!cache.reset_after_link_loss());

    let mut cache = SharedSparseCache::new(4);
    assert!(cache.start_fill());
    cache.fail(FillFailure::new("device left", true));
    assert!(cache.reset_after_link_loss());
    assert!(cache.start_fill());
    assert!(!cache.start_fill(), "the retry still owns exactly one slot");
}

#[test]
fn a_write_whose_end_does_not_fit_is_an_overflow() {
    let mut cache = SparseCache::new(u64::MAX);
    let error = cache.write_at(u64::MAX, b"ab").unwrap_err();
    assert_eq!(error, CacheError::RangeOverflow);
    assert_eq!(error.message(), "cache range overflow");
    assert!(cache.write_at(u64::MAX, b"").is_ok());
    assert!(cache.populated_ranges().is_empty());
    assert_eq!(cache.total_size(), u64::MAX);
}

#[test]
fn sequential_writes_need_a_running_fill() {
    let mut cache = SharedSparseCache::new(4);
    let error = cache.write_sequential(0, b"ab").unwrap_err();
    assert_eq!(error, CacheError::NotRunning);
    assert_eq!(error.message(), "sequential fill is not running");
    assert_eq!(
        cache.wait_and_read(0, 2).unwrap().unwrap_err().message(),
        "sequential fill was not started"
    );
    assert!(cache.write_at(0, b"ab").is_ok());
    assert_eq!(cache.read_at(0, 9), 0..4);
    assert_eq!(cache.total_size(), 4);
}

#[test]
fn a_stream_longer_than_promised_is_reported_as_such() {
    let mut cache = Shared::new(3);
    assert!(cache.cache.start_fill());
    let mut stream = FakeStream::new(vec![Ok(b"abcde".to_vec())]);
    assert_eq!(fill(&mut cache, &mut stream, |_| false), FillOutcome::Finished);
    assert_eq!(cache.wait_and_read(0, 3).unwrap(), b"abc");
    // Past the end nothing is missing, so the failure shows in the fill alone.
    assert!(!cache.cache.reset_after_link_loss());
    assert!(!cache.cache.start_fill());
}

#[test]
fn a_backing_file_that_fails_is_the_reason_readers_get() {
    let mut cache = SharedSparseCache::new(4);
    assert!(cache.start_fill());
    let mut run = FillRun::new(&cache);
    assert_eq!(run.due(&cache, 9), Some((0, 4)));
    let chunk = FillEvent::Chunk {
        bytes: b"ab".to_vec(),
        io: Some("no space left".into()),
    };
    assert_eq!(fill_from_stream(&mut run, &mut cache, chunk), FillAction::Pull);
    assert_eq!(run.due(&cache, 1), None);
    let done = fill_from_stream(&mut run, &mut cache, FillEvent::Ended);
    assert_eq!(done, FillAction::Done(FillOutcome::Finished));
    let failure = cache.wait_and_read(0, 1).unwrap().unwrap_err();
    assert_eq!(failure.message(), "no space left");
    assert!(!failure.is_link_lost());
}

#[test]
fn a_complete_stream_without_the_range_says_so() {
    let mut cache = SharedSparseCache::new(0);
    assert!(cache.start_fill());
    cache.finish(0);
    assert!(cache.wait_and_read(0, 5).unwrap().is_ok());

    let mut cache = SharedSparseCache::new(4);
    assert!(cache.start_fill());
    cache.finish(4);
    assert_eq!(
        cache.wait_and_read(0, 1).unwrap().unwrap_err().message(),
        "full-object stream completed without the requested range"
    );
}
