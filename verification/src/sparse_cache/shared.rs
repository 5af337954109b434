//! One sparse cache plus the state of its optional sequential filler.
use crate::sparse_cache::{window_end, CacheError, CacheView, SparseCache};
use crate::text::{decimal, push_decimal};
use std::ops::Range;
use vstd::prelude::*;

verus! {

/// Why a sequential full-object fill stopped before every byte arrived.
#[derive(Debug)]
pub struct FillFailure {
    message: String,
    link_lost: bool,
}

/// A fill failure, with its message as a sequence of characters.
#[verifier::ext_equal]
pub struct FailureView {
    pub message: Seq<char>,
    pub link_lost: bool,
}

impl View for FillFailure {
    type V = FailureView;

    closed spec fn view(&self) -> FailureView {
        FailureView { message: self.message@, link_lost: self.link_lost }
    }
}

impl Clone for FillFailure {
    fn clone(&self) -> (copy: Self)
        ensures
            copy@ == self@,
    {
        FillFailure { message: self.message.clone(), link_lost: self.link_lost }
    }
}

/// A failure that has nothing to do with the link.
pub open spec fn local_failure(message: Seq<char>) -> FailureView {
    FailureView { message, link_lost: false }
}

impl FillFailure {
    pub fn new(message: &str, link_lost: bool) -> (failure: Self)
        ensures
            failure@ == (FailureView { message: message@, link_lost }),
    {
        FillFailure { message: message.to_string(), link_lost }
    }

    pub fn message(&self) -> (message: &str)
        ensures
            message@ == self@.message,
    {
        self.message.as_str()
    }

    pub fn is_link_lost(&self) -> (lost: bool)
        ensures
            lost == self@.link_lost,
    {
        self.link_lost
    }
}

#[derive(Debug)]
enum FillState {
    Idle,
    Running,
    Complete,
    Failed(FillFailure),
}

/// Whether more bytes can still arrive, and if not, why.
#[verifier::ext_equal]
pub enum FillView {
    Idle,
    Running,
    Complete,
    Failed(FailureView),
}

spec fn fill_view(fill: FillState) -> FillView {
    match fill {
        FillState::Idle => FillView::Idle,
        FillState::Running => FillView::Running,
        FillState::Complete => FillView::Complete,
        FillState::Failed(failure) => FillView::Failed(failure@),
    }
}

/// What a shared cache knows.
#[verifier::ext_equal]
pub struct SharedView {
    pub cache: CacheView,
    pub fill: FillView,
    pub stop_requested: bool,
}

/// What a reader waiting for a range finds.
#[verifier::ext_equal]
pub enum WaitView {
    /// The whole range is there.
    Ready,
    /// Not yet, but it can still arrive.
    Wait,
    /// It can no longer arrive.
    Failed(FailureView),
}

impl SharedView {
    /// Whether nothing of the window is missing.
    pub open spec fn ready(self, offset: int, size: int) -> bool {
        forall|p: int| !#[trigger] self.cache.missing(offset, size, p)
    }

    /// What a reader of the window finds. Bytes that are there are served whatever became of the
    /// fill.
    pub open spec fn wait(self, offset: int, size: int) -> WaitView {
        if self.ready(offset, size) {
            WaitView::Ready
        } else {
            match self.fill {
                FillView::Idle => WaitView::Failed(
                    local_failure("sequential fill was not started"@),
                ),
                FillView::Running => WaitView::Wait,
                FillView::Complete => WaitView::Failed(
                    local_failure("full-object stream completed without the requested range"@),
                ),
                FillView::Failed(failure) => WaitView::Failed(failure),
            }
        }
    }

    /// The state of a fill whose stream ended after `received` bytes.
    pub open spec fn finished(self, received: int) -> SharedView {
        SharedView {
            fill: if received == self.cache.total_size {
                FillView::Complete
            } else {
                FillView::Failed(local_failure(short_stream(received, self.cache.total_size)))
            },
            ..self
        }
    }

    pub open spec fn failed(self, failure: FailureView) -> SharedView {
        SharedView { fill: FillView::Failed(failure), ..self }
    }

    /// What a sequential write of `len` bytes at `offset` answers.
    pub open spec fn sequential_error(self, offset: u64, len: nat) -> Option<CacheError> {
        if self.fill is Running {
            self.cache.write_error(offset, len)
        } else {
            Some(CacheError::NotRunning)
        }
    }
}

/// How a stream that ended early is reported.
pub open spec fn short_stream(received: int, expected: int) -> Seq<char> {
    "full-object stream ended after "@ + decimal(received as nat) + " bytes; expected "@ + decimal(
        expected as nat,
    )
}

/// One sparse cache plus the state of its optional sequential filler.
///
/// [`SparseCache`] remains the authority for whether bytes are real. The fill state only tells
/// waiters whether more bytes can still arrive. Readers always check the requested range first,
/// so a late stream failure cannot hide bytes that were already written successfully.
pub struct SharedSparseCache {
    cache: SparseCache,
    fill: FillState,
    /// Set when the mount is going away and a running fill should stop early.
    stop_requested: bool,
}

impl View for SharedSparseCache {
    type V = SharedView;

    closed spec fn view(&self) -> SharedView {
        SharedView {
            cache: self.cache@,
            fill: fill_view(self.fill),
            stop_requested: self.stop_requested,
        }
    }
}

impl SharedSparseCache {
    pub fn new(total_size: u64) -> (shared: Self)
        ensures
            shared@ == (SharedView {
                cache: CacheView { total_size: total_size as int, bytes: Map::empty() },
                fill: FillView::Idle,
                stop_requested: false,
            }),
    {
        SharedSparseCache {
            cache: SparseCache::new(total_size),
            fill: FillState::Idle,
            stop_requested: false,
        }
    }

    pub fn total_size(&self) -> (size: u64)
        ensures
            size == self@.cache.total_size,
    {
        self.cache.total_size()
    }

    /// Claim the single sequential fill slot for this cache generation.
    pub fn start_fill(&mut self) -> (claimed: bool)
        ensures
            claimed == (old(self)@.fill is Idle),
            final(self)@ == if claimed {
                SharedView { fill: FillView::Running, ..old(self)@ }
            } else {
                old(self)@
            },
    {
        match self.fill {
            FillState::Idle => {
                self.fill = FillState::Running;
                true
            },
            _ => false,
        }
    }

    /// Whether a sequential fill is in flight right now.
    pub fn is_filling(&self) -> (filling: bool)
        ensures
            filling == (self@.fill is Running),
    {
        match self.fill {
            FillState::Running => true,
            _ => false,
        }
    }

    /// Ask a running fill to stop at its next chunk boundary.
    ///
    /// This is for the mount going away, not for readers: a seek or a `close()` must never reach
    /// it, or a healthy transfer would restart from byte zero.
    pub fn request_stop(&mut self)
        ensures
            final(self)@ == (SharedView { stop_requested: true, ..old(self)@ }),
    {
        self.stop_requested = true;
    }

    /// Whether [`request_stop`](Self::request_stop) has been called.
    pub fn stop_requested(&self) -> (requested: bool)
        ensures
            requested == self@.stop_requested,
    {
        self.stop_requested
    }

    /// Make a failed link-loss fill eligible for one new-session retry.
    ///
    /// The caller performs session recovery first. Seeks and reader lifecycle never call this, so
    /// they cannot restart a healthy in-flight stream.
    pub fn reset_after_link_loss(&mut self) -> (reset: bool)
        ensures
            reset == (old(self)@.fill matches FillView::Failed(failure) && failure.link_lost),
            final(self)@ == if reset {
                SharedView { fill: FillView::Idle, ..old(self)@ }
            } else {
                old(self)@
            },
    {
        let lost = match &self.fill {
            FillState::Failed(failure) => failure.is_link_lost(),
            _ => false,
        };
        if lost {
            self.fill = FillState::Idle;
        }
        lost
    }

    /// What [`write_sequential`](Self::write_sequential) would answer; nothing is recorded.
    pub fn check_sequential(&self, offset: u64, len: usize) -> (checked: Result<(), CacheError>)
        ensures
            match self@.sequential_error(offset, len as nat) {
                Some(error) => checked == Err::<(), _>(error),
                None => checked is Ok,
            },
    {
        if !self.is_filling() {
            return Err(CacheError::NotRunning);
        }
        self.cache.check_write(offset, len)
    }

    /// Record the next sequential chunk, once it is in the backing file.
    pub fn write_sequential(&mut self, offset: u64, data: &[u8]) -> (written: Result<
        (),
        CacheError,
    >)
        ensures
            match old(self)@.sequential_error(offset, data@.len()) {
                Some(error) => written == Err::<(), _>(error) && final(self)@ == old(self)@,
                None => written is Ok && final(self)@ == (SharedView {
                    cache: old(self)@.cache.with_bytes(offset as int, data@),
                    ..old(self)@
                }),
            },
    {
        if !self.is_filling() {
            return Err(CacheError::NotRunning);
        }
        self.cache.write_at(offset, data)
    }

    /// Finish the fill, rejecting a stream that ended before the advertised size.
    pub fn finish(&mut self, received: u64)
        ensures
            final(self)@ == old(self)@.finished(received as int),
    {
        let expected: u64 = self.cache.total_size();
        if received == expected {
            self.fill = FillState::Complete;
        } else {
            let mut message = "full-object stream ended after ".to_string();
            push_decimal(&mut message, received);
            message.append(" bytes; expected ");
            push_decimal(&mut message, expected);
            self.fill = FillState::Failed(FillFailure { message, link_lost: false });
        }
    }

    pub fn fail(&mut self, failure: FillFailure)
        ensures
            final(self)@ == old(self)@.failed(failure@),
    {
        self.fill = FillState::Failed(failure);
    }

    /// What a reader finds who waits for the exact requested range: the part of the backing file
    /// to read once all of it is there, the reason once it can no longer arrive, and `None` while
    /// it has to keep waiting.
    pub fn wait_and_read(&self, offset: u64, size: u64) -> (found: Option<
        Result<Range<u64>, FillFailure>,
    >)
        ensures
            match self@.wait(offset as int, size as int) {
                WaitView::Ready => {
                    &&& found matches Some(Ok(window))
                    &&& window.start == offset
                    &&& window.end == if offset >= self@.cache.total_size {
                        offset as int
                    } else {
                        window_end(offset as int, size as int, self@.cache.total_size)
                    }
                },
                WaitView::Wait => found is None,
                WaitView::Failed(failure) => found matches Some(Err(f)) && f@ == failure,
            },
    {
        let missing = self.cache.missing_ranges(offset, size);
        if missing.len() == 0 {
            assert forall|p: int| !#[trigger] self@.cache.missing(
                offset as int,
                size as int,
                p,
            ) by {
                assert(!crate::sparse_cache::covers(missing@, p));
            }
            return Some(Ok(self.cache.read_at(offset, size)));
        }
        proof {
            let p = missing@[0].start as int;
            assert(crate::sparse_cache::covers(missing@, p));
            assert(self@.cache.missing(offset as int, size as int, p));
        }
        match &self.fill {
            FillState::Idle => Some(
                Err(FillFailure::new("sequential fill was not started", false)),
            ),
            FillState::Running => None,
            FillState::Complete => Some(
                Err(
                    FillFailure::new(
                        "full-object stream completed without the requested range",
                        false,
                    ),
                ),
            ),
            FillState::Failed(failure) => Some(Err(failure.clone())),
        }
    }

    /// The byte ranges within `[offset, offset+size)` that are not yet populated.
    pub fn missing_ranges(&self, offset: u64, size: u64) -> (missing: Vec<Range<u64>>)
        ensures
            crate::sparse_cache::normal(missing@),
            forall|p: int| #[trigger]
                crate::sparse_cache::covers(missing@, p) <==> self@.cache.missing(
                    offset as int,
                    size as int,
                    p,
                ),
    {
        self.cache.missing_ranges(offset, size)
    }

    /// What [`write_at`](Self::write_at) would answer; nothing is recorded.
    pub fn check_write(&self, offset: u64, len: usize) -> (checked: Result<(), CacheError>)
        ensures
            match self@.cache.write_error(offset, len as nat) {
                Some(error) => checked == Err::<(), _>(error),
                None => checked is Ok,
            },
    {
        self.cache.check_write(offset, len)
    }

    /// Record that `data` is in the backing file at `offset`.
    pub fn write_at(&mut self, offset: u64, data: &[u8]) -> (written: Result<(), CacheError>)
        ensures
            match old(self)@.cache.write_error(offset, data@.len()) {
                Some(error) => written == Err::<(), _>(error) && final(self)@ == old(self)@,
                None => written is Ok && final(self)@ == (SharedView {
                    cache: old(self)@.cache.with_bytes(offset as int, data@),
                    ..old(self)@
                }),
            },
    {
        self.cache.write_at(offset, data)
    }

    /// The part of the backing file that a read at `offset` returns.
    pub fn read_at(&self, offset: u64, size: u64) -> (window: Range<u64>)
        ensures
            window.start == offset,
            window.end == if offset >= self@.cache.total_size {
                offset as int
            } else {
                window_end(offset as int, size as int, self@.cache.total_size)
            },
    {
        self.cache.read_at(offset, size)
    }
}

/// What a reader of a window finds: the window, once every byte of it has arrived, whatever became of
/// the download; until then it waits for one that runs, and gets the reason of one that cannot bring
/// the bytes any more.
pub proof fn readers_get_what_has_arrived(shared: SharedView, offset: int, size: int)
    ensures
        (forall|p: int|
            offset <= p < offset + size && p < shared.cache.total_size
                ==> #[trigger] shared.cache.bytes.contains_key(p)) <==> shared.wait(
            offset,
            size,
        ) is Ready,
        !(shared.wait(offset, size) is Ready) ==> {
            &&& shared.wait(offset, size) is Wait <==> shared.fill is Running
            &&& shared.fill matches FillView::Failed(failure) ==> shared.wait(offset, size)
                == WaitView::Failed(failure)
            &&& shared.fill is Idle || shared.fill is Complete ==> (shared.wait(offset, size)
                matches WaitView::Failed(failure) && !failure.link_lost)
        },
{
    if shared.ready(offset, size) {
        assert forall|p: int|
            offset <= p < offset + size && p
                < shared.cache.total_size implies #[trigger] shared.cache.bytes.contains_key(p) by {
            assert(!shared.cache.missing(offset, size, p));
        }
    } else {
        let p = choose|p: int| #[trigger] shared.cache.missing(offset, size, p);
        assert(!shared.cache.bytes.contains_key(p));
    }
}

/// How a download ends: complete exactly where as many bytes came as the object has, otherwise
/// failed, for a reason of its own. Neither touches what has arrived. A chunk is taken only while it
/// runs, and only within the object.
pub proof fn downloads_end_by_their_length(
    shared: SharedView,
    received: int,
    failure: FailureView,
    offset: u64,
    len: nat,
)
    ensures
        shared.finished(received).fill is Complete <==> received == shared.cache.total_size,
        received != shared.cache.total_size ==> (shared.finished(received).fill matches
            FillView::Failed(f) && !f.link_lost),
        shared.finished(received).cache == shared.cache,
        shared.finished(received).stop_requested == shared.stop_requested,
        shared.failed(failure).fill == FillView::Failed(failure),
        shared.failed(failure).cache == shared.cache,
        shared.failed(failure).stop_requested == shared.stop_requested,
        !(shared.fill is Running) ==> shared.sequential_error(offset, len) == Some(
            CacheError::NotRunning,
        ),
        shared.fill is Running ==> (shared.sequential_error(offset, len) is None <==> len == 0 || (
        offset + len <= shared.cache.total_size && offset + len <= u64::MAX)),
{
}

} // verus!
