//! A read from the device, from the strategy to the answer.
use crate::device_error::DeviceError;
use crate::fs::errno::Errno;
use crate::fs::operation::model::RequestView;
use crate::fs::operation::Request;
use crate::fs::protocol::{result_view, Reply, ReplyView};
use crate::fs::read::{finish_ranged, FullRead, FullReadStep, RangedRead, RangedView};
use crate::fs::ReadStrategy;
use crate::sparse_cache::shared::{FailureView, FillFailure, FillView, SharedSparseCache, SharedView};
use crate::sparse_cache::{covers, normal, window_end};
use std::ops::Range;
use vstd::prelude::*;

verus! {

/// What happened to a read.
#[derive(Debug)]
pub enum ReadEvent {
    /// It is to start.
    Begin,
    /// The whole-object download served the window, or failed its readers.
    Served(Result<Vec<u8>, FillFailure>),
    /// Its request was answered. `stored` says whether the bytes that were
    /// [due](ReadRun::due) are in the backing file.
    Replied { result: Result<Reply, DeviceError>, stored: bool },
}

/// What the owner of a read does next.
#[derive(Debug)]
pub enum ReadAction {
    /// See to it that the whole-object download runs, and wait for the window.
    Wait,
    /// Ask this of the device.
    Ask(Request),
    /// Answer with these bytes.
    Data(Vec<u8>),
    /// Answer with this part of the backing file.
    Window(Range<u64>),
    /// Answer with this error.
    Fail(Errno),
}

#[derive(Debug)]
enum ReadPhase {
    Fresh,
    Waiting(FullRead),
    Recovering(FullRead),
    Asking(RangedRead),
    Over,
}

/// Where a read stands.
#[verifier::ext_equal]
pub enum ReadPhaseView {
    /// It has not started.
    Fresh,
    /// It waits for the whole-object download, which may start over this often.
    Waiting(u8),
    /// The session is being brought back for it.
    Recovering(u8),
    /// It asks for ranges.
    Asking(RangedView),
    /// It was answered.
    Over,
}

spec fn read_phase_view(phase: ReadPhase) -> ReadPhaseView {
    match phase {
        ReadPhase::Fresh => ReadPhaseView::Fresh,
        ReadPhase::Waiting(read) => ReadPhaseView::Waiting(read.link_retries),
        ReadPhase::Recovering(read) => ReadPhaseView::Recovering(read.link_retries),
        ReadPhase::Asking(read) => ReadPhaseView::Asking(read@),
        ReadPhase::Over => ReadPhaseView::Over,
    }
}

/// A read of a window of a file, in progress.
#[derive(Debug)]
pub struct ReadRun {
    inode: u64,
    offset: u64,
    size: u64,
    object_size: u64,
    strategy: ReadStrategy,
    phase: ReadPhase,
}

/// A [`ReadRun`], with its parts as mathematical values.
#[verifier::ext_equal]
pub struct ReadRunView {
    pub inode: u64,
    pub offset: u64,
    pub size: u64,
    pub object_size: u64,
    pub strategy: ReadStrategy,
    pub phase: ReadPhaseView,
}

impl View for ReadRun {
    type V = ReadRunView;

    closed spec fn view(&self) -> ReadRunView {
        ReadRunView {
            inode: self.inode,
            offset: self.offset,
            size: self.size,
            object_size: self.object_size,
            strategy: self.strategy,
            phase: read_phase_view(self.phase),
        }
    }
}

/// A read's next step: how it goes on, what becomes of the cache, and what its owner does.
#[verifier::ext_equal]
pub struct ReadStepView {
    pub run: ReadRunView,
    pub cache: SharedView,
    pub action: ReadActionView,
}

/// A [`ReadAction`], with its parts as mathematical values.
#[verifier::ext_equal]
pub enum ReadActionView {
    Wait,
    Ask(RequestView),
    Data(Seq<u8>),
    Window(int, int),
    Fail(Errno),
}

impl View for ReadAction {
    type V = ReadActionView;

    open spec fn view(&self) -> ReadActionView {
        match self {
            ReadAction::Wait => ReadActionView::Wait,
            ReadAction::Ask(request) => ReadActionView::Ask(request@),
            ReadAction::Data(data) => ReadActionView::Data(data@),
            ReadAction::Window(window) => ReadActionView::Window(
                window.start as int,
                window.end as int,
            ),
            ReadAction::Fail(e) => ReadActionView::Fail(*e),
        }
    }
}

/// A [`ReadEvent`], with its parts as mathematical values.
#[verifier::ext_equal]
pub enum ReadEventView {
    Begin,
    Served(Result<Seq<u8>, FailureView>),
    Replied { result: Result<ReplyView, DeviceError>, stored: bool },
}

impl View for ReadEvent {
    type V = ReadEventView;

    open spec fn view(&self) -> ReadEventView {
        match self {
            ReadEvent::Begin => ReadEventView::Begin,
            ReadEvent::Served(Ok(data)) => ReadEventView::Served(Ok(data@)),
            ReadEvent::Served(Err(failure)) => ReadEventView::Served(Err(failure@)),
            ReadEvent::Replied { result, stored } => ReadEventView::Replied {
                result: result_view(*result),
                stored: *stored,
            },
        }
    }
}

/// The gaps of a window, sorted and merged: the positions of it that a cache does not hold.
pub open spec fn are_gaps(gaps: Seq<Range<u64>>, cache: SharedView, offset: u64, size: u64) -> bool {
    &&& normal(gaps)
    &&& forall|p: int| #[trigger]
        covers(gaps, p) <==> cache.cache.missing(offset as int, size as int, p)
}

impl ReadRunView {
    pub open spec fn in_phase(self, phase: ReadPhaseView) -> ReadRunView {
        ReadRunView { phase, ..self }
    }

    /// The read is over, with this answer.
    pub open spec fn answers(self, cache: SharedView, action: ReadActionView) -> ReadStepView {
        ReadStepView { run: self.in_phase(ReadPhaseView::Over), cache, action }
    }

    /// The next range is asked for. Once there is none, the window is answered if nothing of it is
    /// missing: a hole in the backing file is never answered as data.
    pub open spec fn asks_on(self, cache: SharedView, read: RangedView) -> ReadStepView {
        match read.next() {
            Some((offset, len)) => ReadStepView {
                run: self.in_phase(ReadPhaseView::Asking(read.settled())),
                cache,
                action: ReadActionView::Ask(
                    RequestView::ReadRange {
                        inode: self.inode,
                        offset: offset as u64,
                        len: len as u32,
                    },
                ),
            },
            None => if cache.ready(self.offset as int, self.size as int) {
                self.answers(
                    cache,
                    ReadActionView::Window(
                        self.offset as int,
                        if self.offset >= cache.cache.total_size {
                            self.offset as int
                        } else {
                            window_end(
                                self.offset as int,
                                self.size as int,
                                cache.cache.total_size,
                            )
                        },
                    ),
                )
            } else {
                self.answers(cache, ReadActionView::Fail(Errno::EIO))
            },
        }
    }

    /// A read starts by its strategy: one that asks for ranges starts at the first gap of `gaps`.
    pub open spec fn begins(self, cache: SharedView, gaps: Seq<Range<u64>>) -> ReadStepView {
        match self.strategy {
            ReadStrategy::TooLargeForSequentialFull => self.answers(
                cache,
                ReadActionView::Fail(Errno::EFBIG),
            ),
            ReadStrategy::SequentialFull => ReadStepView {
                run: self.in_phase(ReadPhaseView::Waiting(1)),
                cache,
                action: ReadActionView::Wait,
            },
            ReadStrategy::Ranged => self.asks_on(
                cache,
                (RangedView {
                    gaps,
                    at: 0,
                    cursor: 0,
                    object_size: self.object_size as int,
                }).at_gap(0),
            ),
        }
    }

    /// The download failed its readers: only a lost link is worth another session.
    pub open spec fn loses(self, cache: SharedView, retries: u8, failure: FailureView) -> ReadStepView {
        if failure.link_lost && retries > 0 {
            ReadStepView {
                run: self.in_phase(ReadPhaseView::Recovering(retries)),
                cache,
                action: ReadActionView::Ask(RequestView::Probe { inode: self.inode }),
            }
        } else {
            self.answers(cache, ReadActionView::Fail(Errno::EIO))
        }
    }

    /// The session is back, or is not: the download starts over where it was the link that failed
    /// it.
    pub open spec fn recovers(self, cache: SharedView, retries: u8, back: bool) -> ReadStepView {
        if back && retries > 0 && (cache.fill matches FillView::Failed(failure) && failure.link_lost) {
            ReadStepView {
                run: self.in_phase(ReadPhaseView::Waiting((retries - 1) as u8)),
                cache: SharedView { fill: FillView::Idle, ..cache },
                action: ReadActionView::Wait,
            }
        } else {
            self.answers(cache, ReadActionView::Fail(Errno::EIO))
        }
    }

    /// Bytes arrived: those that belong to the object go into the cache.
    pub open spec fn takes(
        self,
        cache: SharedView,
        read: RangedView,
        bytes: Seq<u8>,
        stored: bool,
    ) -> ReadStepView {
        let n = read.kept(bytes.len() as int);
        if stored && cache.cache.write_error(read.cursor as u64, n as nat) is None {
            self.asks_on(
                SharedView { cache: cache.cache.with_bytes(read.cursor, bytes.take(n)), ..cache },
                read.received(bytes.len() as int),
            )
        } else {
            self.answers(cache, ReadActionView::Fail(Errno::EIO))
        }
    }

    /// Whether `gaps` are those of the window, for a read that is about to ask for them.
    pub open spec fn starts_at(
        self,
        gaps: Seq<Range<u64>>,
        cache: SharedView,
        event: ReadEventView,
    ) -> bool {
        self.phase is Fresh && event is Begin && self.strategy == ReadStrategy::Ranged ==> are_gaps(
            gaps,
            cache,
            self.offset,
            self.size,
        )
    }

    /// The step that follows an event. A read that asks for ranges starts at the first of `gaps`.
    pub open spec fn step(
        self,
        cache: SharedView,
        event: ReadEventView,
        gaps: Seq<Range<u64>>,
    ) -> ReadStepView {
        match (self.phase, event) {
            (ReadPhaseView::Fresh, ReadEventView::Begin) => self.begins(cache, gaps),
            (ReadPhaseView::Waiting(_), ReadEventView::Served(Ok(data))) => self.answers(
                cache,
                ReadActionView::Data(data),
            ),
            (ReadPhaseView::Waiting(retries), ReadEventView::Served(Err(failure))) => self.loses(
                cache,
                retries,
                failure,
            ),
            (ReadPhaseView::Recovering(retries), ReadEventView::Replied { result, stored }) => {
                self.recovers(cache, retries, result is Ok)
            },
            (
                ReadPhaseView::Asking(read),
                ReadEventView::Replied { result: Ok(ReplyView::Bytes(bytes)), stored },
            ) => self.takes(cache, read, bytes, stored),
            _ => self.answers(cache, ReadActionView::Fail(Errno::EIO)),
        }
    }
}

impl ReadRun {
    /// A read of the window of `size` bytes at `offset`, of an object of `object_size` bytes.
    pub fn new(
        inode: u64,
        offset: u64,
        size: u64,
        object_size: u64,
        strategy: ReadStrategy,
    ) -> (run: Self)
        ensures
            run@ == (ReadRunView {
                inode,
                offset,
                size,
                object_size,
                strategy,
                phase: ReadPhaseView::Fresh,
            }),
    {
        ReadRun { inode, offset, size, object_size, strategy, phase: ReadPhase::Fresh }
    }

    /// Where in the backing file the first bytes of an answer of `len` go, and how many of them,
    /// where the cache takes them.
    pub fn due(&self, cache: &SharedSparseCache, len: usize) -> (due: Option<(u64, usize)>)
        ensures
            match self@.phase {
                ReadPhaseView::Asking(read) => {
                    let n = read.kept(len as int);
                    due == if cache@.cache.write_error(read.cursor as u64, n as nat) is None {
                        Some((read.cursor as u64, n as usize))
                    } else {
                        None
                    }
                },
                _ => due is None,
            },
    {
        match &self.phase {
            ReadPhase::Asking(read) => {
                let (offset, n) = read.due(len);
                if cache.check_write(offset, n).is_ok() {
                    Some((offset, n))
                } else {
                    None
                }
            },
            _ => None,
        }
    }

    /// Takes what happened, and says what is next.
    pub fn step(&mut self, cache: &mut SharedSparseCache, event: ReadEvent) -> (action: ReadAction)
        ensures
            exists|gaps: Seq<Range<u64>>| #[trigger]
                old(self)@.starts_at(gaps, old(cache)@, event@) && old(self)@.step(
                    old(cache)@,
                    event@,
                    gaps,
                ) == (ReadStepView { run: final(self)@, cache: final(cache)@, action: action@ }),
    {
        let mut phase = ReadPhase::Over;
        std::mem::swap(&mut self.phase, &mut phase);
        let ghost started = old(self)@;
        assert(!(started.phase is Fresh && event is Begin && started.strategy
            == ReadStrategy::Ranged) ==> started.starts_at(Seq::empty(), old(cache)@, event@));
        match (phase, event) {
            (ReadPhase::Fresh, ReadEvent::Begin) => match self.strategy {
                ReadStrategy::TooLargeForSequentialFull => ReadAction::Fail(Errno::EFBIG),
                ReadStrategy::SequentialFull => {
                    self.phase = ReadPhase::Waiting(FullRead::new());
                    ReadAction::Wait
                },
                ReadStrategy::Ranged => {
                    let first = RangedRead::new(cache, self.offset, self.size, self.object_size);
                    assert(started.starts_at(first@.gaps, old(cache)@, event@));
                    self.ask_on(cache, first)
                },
            },
            (ReadPhase::Waiting(_), ReadEvent::Served(Ok(data))) => ReadAction::Data(data),
            (ReadPhase::Waiting(read), ReadEvent::Served(Err(failure))) => {
                if read.failed(&failure) == FullReadStep::Recover {
                    self.phase = ReadPhase::Recovering(read);
                    ReadAction::Ask(Request::Probe { inode: self.inode })
                } else {
                    ReadAction::Fail(Errno::EIO)
                }
            },
            (ReadPhase::Recovering(read), ReadEvent::Replied { result, stored: _ }) => {
                let mut read = read;
                if read.link_retries > 0 && read.recovered(result.is_ok(), cache) {
                    self.phase = ReadPhase::Waiting(read);
                    ReadAction::Wait
                } else {
                    ReadAction::Fail(Errno::EIO)
                }
            },
            (
                ReadPhase::Asking(read),
                ReadEvent::Replied { result: Ok(Reply::Bytes(bytes)), stored },
            ) => {
                let mut read = read;
                if stored && read.receive(cache, bytes.as_slice()).is_ok() {
                    self.ask_on(cache, read)
                } else {
                    ReadAction::Fail(Errno::EIO)
                }
            },
            _ => ReadAction::Fail(Errno::EIO),
        }
    }

    /// Asks for the next range, or answers.
    fn ask_on(&mut self, cache: &SharedSparseCache, read: RangedRead) -> (action: ReadAction)
        requires
            old(self)@.phase is Over,
        ensures
            old(self)@.asks_on(cache@, read@) == (ReadStepView {
                run: final(self)@,
                cache: cache@,
                action: action@,
            }),
    {
        let mut read = read;
        match read.next(self.inode) {
            Some(request) => {
                self.phase = ReadPhase::Asking(read);
                ReadAction::Ask(request)
            },
            None => match finish_ranged(cache, self.offset, self.size) {
                Ok(window) => ReadAction::Window(window),
                Err(e) => ReadAction::Fail(e),
            },
        }
    }
}

/// A read that is answered with part of the backing file is answered with bytes that have all
/// arrived.
pub proof fn holes_are_never_answered(
    run: ReadRunView,
    cache: SharedView,
    event: ReadEventView,
    gaps: Seq<Range<u64>>,
)
    requires
        run.step(cache, event, gaps).action is Window,
    ensures
        ({
            let step = run.step(cache, event, gaps);
            &&& step.run.phase is Over
            &&& step.action->Window_0 == run.offset
            &&& forall|p: int|
                run.offset <= p < step.action->Window_1 ==> #[trigger] step.cache.cache.populated(p)
        }),
{
    let step = run.step(cache, event, gaps);
    assert forall|p: int| run.offset <= p < step.action->Window_1 implies #[trigger] step.cache.cache.populated(
        p,
    ) by {
        assert(!step.cache.cache.missing(run.offset as int, run.size as int, p));
    }
}

/// How often a read may still have the download start over.
pub open spec fn retries_left(phase: ReadPhaseView) -> int {
    match phase {
        ReadPhaseView::Waiting(retries) => retries as int,
        ReadPhaseView::Recovering(retries) => retries as int,
        _ => 0,
    }
}

/// A read that has started waits for at most one more download after its first: what it may still
/// retry never grows, and each time it goes back to waiting it has one retry less.
pub proof fn downloads_start_over_once(
    run: ReadRunView,
    cache: SharedView,
    event: ReadEventView,
    gaps: Seq<Range<u64>>,
)
    ensures
        ({
            let step = run.step(cache, event, gaps);
            &&& step.action is Wait ==> step.run.phase is Waiting
            &&& run.phase is Fresh ==> retries_left(step.run.phase) <= 1
            &&& !(run.phase is Fresh) ==> retries_left(step.run.phase) <= retries_left(run.phase)
            &&& !(run.phase is Fresh) && step.action is Wait ==> retries_left(step.run.phase)
                < retries_left(run.phase)
        }),
{
}

/// How a read starts: a file that is too large is refused as such; a whole-object download is waited
/// for, with one retry in hand; and a device that can send ranges is asked for the first missing byte
/// of the window, or answers at once where nothing is missing.
pub proof fn reads_start_by_their_strategy(
    run: ReadRunView,
    cache: SharedView,
    gaps: Seq<Range<u64>>,
)
    requires
        run.phase is Fresh,
        are_gaps(gaps, cache, run.offset, run.size),
        0 <= cache.cache.total_size <= u64::MAX,
    ensures
        ({
            let step = run.step(cache, ReadEventView::Begin, gaps);
            &&& step.cache == cache
            &&& match run.strategy {
                ReadStrategy::TooLargeForSequentialFull => step.action == ReadActionView::Fail(
                    Errno::EFBIG,
                ) && step.run.phase is Over,
                ReadStrategy::SequentialFull => step.action is Wait && step.run.phase
                    == ReadPhaseView::Waiting(1),
                ReadStrategy::Ranged => match step.action {
                    ReadActionView::Ask(RequestView::ReadRange { inode, offset, len }) => {
                        &&& inode == run.inode
                        &&& 0 < len <= 1048576
                        &&& run.offset <= offset
                        &&& offset + len <= run.offset + run.size
                        &&& offset + len <= cache.cache.total_size
                        &&& forall|p: int|
                            offset <= p < offset + len
                                ==> !#[trigger] cache.cache.bytes.contains_key(p)
                        &&& forall|p: int|
                            run.offset <= p < offset ==> #[trigger] cache.cache.bytes.contains_key(
                                p,
                            )
                        &&& step.run.phase is Asking
                    },
                    ReadActionView::Window(start, end) => {
                        &&& start == run.offset
                        &&& forall|p: int|
                            run.offset <= p < run.offset + run.size && p < cache.cache.total_size
                                ==> #[trigger] cache.cache.bytes.contains_key(p)
                        &&& run.offset < cache.cache.total_size ==> end == if run.offset + run.size
                            < cache.cache.total_size {
                            run.offset + run.size
                        } else {
                            cache.cache.total_size
                        }
                        &&& run.offset >= cache.cache.total_size ==> end == start
                    },
                    _ => false,
                },
            }
        }),
{
    if run.strategy == ReadStrategy::Ranged {
        let read = (RangedView {
            gaps,
            at: 0,
            cursor: 0,
            object_size: run.object_size as int,
        }).at_gap(0);
        if gaps.len() > 0 {
            let gap = gaps[0];
            assert(gap.start < gap.end);
            assert(read.settled() == read);
            let (offset, len) = read.next()->0;
            assert forall|p: int| offset <= p < offset + len implies !#[trigger] cache.cache.bytes.contains_key(
                p,
            ) && run.offset <= p < run.offset + run.size && p < cache.cache.total_size by {
                assert(gaps[0].start <= p < gaps[0].end);
                assert(covers(gaps, p));
                assert(cache.cache.missing(run.offset as int, run.size as int, p));
            }
            assert(!cache.cache.bytes.contains_key(offset));
            assert(!cache.cache.bytes.contains_key(offset + len - 1));
            assert forall|p: int| run.offset <= p < offset implies #[trigger] cache.cache.bytes.contains_key(
                p,
            ) by {
                if !cache.cache.bytes.contains_key(p) {
                    assert(cache.cache.missing(run.offset as int, run.size as int, p));
                    assert(covers(gaps, p));
                    let i = choose|i: int|
                        0 <= i < gaps.len() && (#[trigger] gaps[i]).start <= p < gaps[i].end;
                    assert(i == 0 || gaps[0].end < gaps[i].start);
                }
            }
        } else {
            assert forall|p: int| !#[trigger] cache.cache.missing(
                run.offset as int,
                run.size as int,
                p,
            ) by {
                assert(!covers(gaps, p));
            }
            assert forall|p: int|
                run.offset <= p < run.offset + run.size && p
                    < cache.cache.total_size implies #[trigger] cache.cache.bytes.contains_key(p) by {
                assert(!cache.cache.missing(run.offset as int, run.size as int, p));
            }
        }
    }
}

/// How a read that waits for a download goes on: with the bytes it was served; with a try to bring the
/// session back where the link failed the download and a retry is left; and with an error otherwise.
/// A session that is back has the download start over, with one retry less, where it was the link
/// that failed it.
pub proof fn lost_downloads_are_retried(
    run: ReadRunView,
    cache: SharedView,
    gaps: Seq<Range<u64>>,
    data: Seq<u8>,
    failure: FailureView,
    result: Result<ReplyView, DeviceError>,
    stored: bool,
    retries: u8,
)
    ensures
        run.phase is Waiting ==> run.step(cache, ReadEventView::Served(Ok(data)), gaps).action
            == ReadActionView::Data(data),
        run.phase == ReadPhaseView::Waiting(retries) ==> {
            let step = run.step(cache, ReadEventView::Served(Err(failure)), gaps);
            &&& step.cache == cache
            &&& failure.link_lost && retries > 0 ==> step.action == ReadActionView::Ask(
                RequestView::Probe { inode: run.inode },
            ) && step.run.phase == ReadPhaseView::Recovering(retries)
            &&& !failure.link_lost || retries == 0 ==> step.action == ReadActionView::Fail(
                Errno::EIO,
            )
        },
        run.phase == ReadPhaseView::Recovering(retries) && retries > 0 ==> {
            let step = run.step(cache, ReadEventView::Replied { result, stored }, gaps);
            let by_link = cache.fill matches FillView::Failed(f) && f.link_lost;
            &&& result is Ok && by_link ==> step.action is Wait && step.run.phase
                == ReadPhaseView::Waiting((retries - 1) as u8) && step.cache.fill is Idle
                && step.cache.cache == cache.cache
            &&& result is Err || !by_link ==> step.action == ReadActionView::Fail(Errno::EIO)
                && step.cache == cache
        },
{
}

/// How a read that asks for ranges goes on: what belongs to the object of the bytes that came is in the
/// cache, where it was asked for, and the rest of the cache is as it was; then the next range is asked
/// for, or the window is answered, or the read fails. A failure of the device or of the file fails it.
pub proof fn ranges_are_taken_in(
    run: ReadRunView,
    cache: SharedView,
    gaps: Seq<Range<u64>>,
    read: RangedView,
    result: Result<ReplyView, DeviceError>,
    stored: bool,
)
    requires
        run.phase == ReadPhaseView::Asking(read),
        0 <= read.cursor <= u64::MAX,
        0 <= read.object_size <= cache.cache.total_size <= u64::MAX,
    ensures
        ({
            let step = run.step(cache, ReadEventView::Replied { result, stored }, gaps);
            match result {
                Ok(ReplyView::Bytes(bytes)) if stored => {
                    &&& forall|p: int|
                        read.cursor <= p < read.cursor + bytes.len() && p < read.object_size
                            ==> #[trigger] step.cache.cache.bytes.contains_key(p)
                            && step.cache.cache.bytes[p] == bytes[p - read.cursor]
                    &&& forall|p: int|
                        !(read.cursor <= p < read.cursor + bytes.len() && p < read.object_size) ==> (
                        #[trigger] step.cache.cache.bytes.contains_key(p)
                            <==> cache.cache.bytes.contains_key(p)) && (
                        cache.cache.bytes.contains_key(p) ==> step.cache.cache.bytes[p]
                            == cache.cache.bytes[p])
                    &&& step.cache.fill == cache.fill
                    &&& step.action is Ask <==> read.received(bytes.len() as int).next() is Some
                },
                _ => step.action == ReadActionView::Fail(Errno::EIO) && step.cache == cache,
            }
        }),
{
    if let Ok(ReplyView::Bytes(bytes)) = result {
        let n = read.kept(bytes.len() as int);
        assert forall|i: int| 0 <= i < n implies #[trigger] bytes.take(n)[i] == bytes[i] by {}
    }
}

/// A read that asks for ranges asks for what its window has in the object and the cache does not hold:
/// every such byte, and no other. What is asked for is in order, with room between each two ranges.
pub proof fn reads_ask_for_what_is_missing(
    run: ReadRunView,
    cache: SharedView,
    gaps: Seq<Range<u64>>,
    p: int,
    i: int,
)
    requires
        run.strategy == ReadStrategy::Ranged,
        run.phase is Fresh,
        run.starts_at(gaps, cache, ReadEventView::Begin),
    ensures
        (exists|k: int| 0 <= k < gaps.len() && (#[trigger] gaps[k]).start <= p && p < gaps[k].end)
            <==> run.offset <= p && p < run.offset + run.size && p < cache.cache.total_size
            && !cache.cache.bytes.contains_key(p),
        0 <= i < gaps.len() ==> gaps[i].start < gaps[i].end,
        0 <= i < gaps.len() - 1 ==> gaps[i].end < gaps[i + 1].start,
{
    assert(covers(gaps, p) <==> cache.cache.missing(run.offset as int, run.size as int, p));
}

} // verus!
