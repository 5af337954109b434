//! The sequential fill: one whole-object stream into one cache.
use crate::sparse_cache::shared::{
    local_failure, short_stream, FailureView, FillFailure, FillView, SharedSparseCache, SharedView,
};
use crate::sparse_cache::CacheError;
use crate::text::{decimal, push_decimal};
use vstd::prelude::*;

verus! {

/// Why a sequential fill ended.
#[derive(Debug, Clone, Copy, PartialEq, Eq, Structural)]
pub enum FillOutcome {
    /// The stream reached end of transfer (whether or not every byte landed).
    Finished,
    /// A stop was requested and the transfer was cancelled.
    Stopped,
}

/// What the owner of the stream does next.
#[derive(Debug, Clone, Copy, PartialEq, Eq, Structural)]
pub enum FillAction {
    /// Ask the stream for its next chunk.
    Pull,
    /// Stop the transfer cleanly. Dropping the stream instead would leave the device in the
    /// middle of a transaction.
    Cancel,
    /// Nothing: the fill is over.
    Done(FillOutcome),
}

/// What the stream did.
#[derive(Debug)]
pub enum FillEvent {
    /// The stream has been opened.
    Started,
    /// A chunk arrived. `io` is what went wrong writing to the backing file the part of it that
    /// [`FillRun::due`] names.
    Chunk { bytes: Vec<u8>, io: Option<String> },
    /// The stream reported a failure.
    Broke { message: String, link_lost: bool },
    /// The stream reached end of transfer.
    Ended,
    /// The stream was cancelled.
    Cancelled,
}

/// A [`FillEvent`], with texts and bytes as sequences.
#[verifier::ext_equal]
pub enum FillEventView {
    Started,
    Chunk { bytes: Seq<u8>, io: Option<Seq<char>> },
    Broke { message: Seq<char>, link_lost: bool },
    Ended,
    Cancelled,
}

impl View for FillEvent {
    type V = FillEventView;

    open spec fn view(&self) -> FillEventView {
        match self {
            FillEvent::Started => FillEventView::Started,
            FillEvent::Chunk { bytes, io } => FillEventView::Chunk {
                bytes: bytes@,
                io: match io {
                    Some(message) => Some(message@),
                    None => None,
                },
            },
            FillEvent::Broke { message, link_lost } => FillEventView::Broke {
                message: message@,
                link_lost: *link_lost,
            },
            FillEvent::Ended => FillEventView::Ended,
            FillEvent::Cancelled => FillEventView::Cancelled,
        }
    }
}

/// How far a fill has come.
#[derive(Debug)]
pub struct FillRun {
    offset: u64,
    expected: u64,
    write_failure: Option<FillFailure>,
}

/// How far a fill has come: the bytes received, the bytes promised, and what kept bytes from
/// being stored.
#[verifier::ext_equal]
pub struct RunView {
    pub offset: int,
    pub expected: int,
    pub failure: Option<FailureView>,
}

impl View for FillRun {
    type V = RunView;

    closed spec fn view(&self) -> RunView {
        RunView {
            offset: self.offset as int,
            expected: self.expected as int,
            failure: match self.write_failure {
                Some(failure) => Some(failure@),
                None => None,
            },
        }
    }
}

/// How a stream that holds more than was promised is reported.
pub open spec fn long_stream(expected: int) -> Seq<char> {
    "full-object stream exceeded the advertised size of "@ + decimal(expected as nat) + " bytes"@
}

/// The reason readers get when a fill was stopped.
pub open spec fn stopped_text() -> Seq<char> {
    "the whole-object download was stopped because the mount is going away"@
}

impl RunView {
    pub open spec fn initial(shared: SharedView) -> RunView {
        RunView { offset: 0, expected: shared.cache.total_size, failure: None }
    }

    /// How many of the next `len` bytes belong to the object.
    pub open spec fn writable(self, len: int) -> int {
        let left = if self.offset < self.expected {
            self.expected - self.offset
        } else {
            0
        };
        if len < left {
            len
        } else {
            left
        }
    }

    /// What keeps the next chunk from being stored.
    pub open spec fn store_failure(
        self,
        shared: SharedView,
        len: int,
        io: Option<Seq<char>>,
    ) -> Option<FailureView> {
        if !(shared.fill is Running) {
            Some(local_failure(CacheError::NotRunning.text()))
        } else if io is Some {
            Some(local_failure(io->0))
        } else if self.writable(len) != len {
            Some(local_failure(long_stream(self.expected)))
        } else {
            None
        }
    }

    /// The run after a chunk: received bytes are counted whether or not they could be stored.
    pub open spec fn after_chunk(
        self,
        shared: SharedView,
        bytes: Seq<u8>,
        io: Option<Seq<char>>,
    ) -> RunView {
        let failure = if self.failure is Some {
            self.failure
        } else {
            self.store_failure(shared, bytes.len() as int, io)
        };
        if self.offset + bytes.len() > u64::MAX {
            RunView {
                offset: u64::MAX as int,
                failure: if failure is Some {
                    failure
                } else {
                    Some(local_failure("full-object stream byte count overflowed u64"@))
                },
                ..self
            }
        } else {
            RunView { offset: self.offset + bytes.len(), failure, ..self }
        }
    }

    /// The cache after a chunk: the part that belongs to the object is published, unless
    /// something kept it or an earlier chunk from being stored.
    pub open spec fn publish(
        self,
        shared: SharedView,
        bytes: Seq<u8>,
        io: Option<Seq<char>>,
    ) -> SharedView {
        if self.failure is None && shared.fill is Running && io is None {
            SharedView {
                cache: shared.cache.with_bytes(
                    self.offset,
                    bytes.take(self.writable(bytes.len() as int)),
                ),
                ..shared
            }
        } else {
            shared
        }
    }

    /// The cache after the stream ended.
    pub open spec fn ended(self, shared: SharedView) -> SharedView {
        match self.failure {
            Some(failure) => shared.failed(failure),
            None => shared.finished(self.offset),
        }
    }

    /// The run after `event`.
    pub open spec fn step(self, shared: SharedView, event: FillEventView) -> RunView {
        match event {
            FillEventView::Chunk { bytes, io } => self.after_chunk(shared, bytes, io),
            _ => self,
        }
    }

    /// The cache after `event`.
    pub open spec fn effect(self, shared: SharedView, event: FillEventView) -> SharedView {
        match event {
            FillEventView::Started => shared,
            FillEventView::Chunk { bytes, io } => self.publish(shared, bytes, io),
            FillEventView::Broke { message, link_lost } => shared.failed(
                FailureView { message, link_lost },
            ),
            FillEventView::Ended => self.ended(shared),
            FillEventView::Cancelled => shared.failed(local_failure(stopped_text())),
        }
    }
}

/// What follows `event`: a requested stop is honoured before the next chunk.
pub open spec fn next_action(shared: SharedView, event: FillEventView) -> FillAction {
    match event {
        FillEventView::Started | FillEventView::Chunk { .. } => if shared.stop_requested {
            FillAction::Cancel
        } else {
            FillAction::Pull
        },
        FillEventView::Broke { .. } | FillEventView::Ended => FillAction::Done(
            FillOutcome::Finished,
        ),
        FillEventView::Cancelled => FillAction::Done(FillOutcome::Stopped),
    }
}

impl FillRun {
    pub fn new(cache: &SharedSparseCache) -> (run: Self)
        ensures
            run@ == RunView::initial(cache@),
    {
        FillRun { offset: 0, expected: cache.total_size(), write_failure: None }
    }

    /// How many of the next `len` bytes belong to the object.
    fn writable(&self, len: usize) -> (n: usize)
        ensures
            n == self@.writable(len as int),
    {
        let left: u64 = self.expected.saturating_sub(self.offset);
        if (len as u64) < left {
            len
        } else {
            left as usize
        }
    }

    /// Where the first bytes of a chunk of `len` go in the backing file, and how many of them;
    /// `None` once bytes are no longer stored.
    pub fn due(&self, cache: &SharedSparseCache, len: usize) -> (due: Option<(u64, usize)>)
        ensures
            due == if self@.failure is None && cache@.fill is Running {
                Some((self@.offset as u64, self@.writable(len as int) as usize))
            } else {
                None
            },
    {
        if self.write_failure.is_none() && cache.is_filling() {
            Some((self.offset, self.writable(len)))
        } else {
            None
        }
    }

    fn take_chunk(&mut self, cache: &mut SharedSparseCache, bytes: &Vec<u8>, io: Option<String>)
        requires
            old(self)@.expected == old(cache)@.cache.total_size,
        ensures
            final(self)@ == old(self)@.after_chunk(
                old(cache)@,
                bytes@,
                match io {
                    Some(message) => Some(message@),
                    None => None,
                },
            ),
            final(cache)@ == old(self)@.publish(
                old(cache)@,
                bytes@,
                match io {
                    Some(message) => Some(message@),
                    None => None,
                },
            ),
    {
        let mut failure: Option<FillFailure> = None;
        if self.write_failure.is_none() {
            let n: usize = self.writable(bytes.len());
            if !cache.is_filling() {
                failure = Some(
                    FillFailure::new(CacheError::NotRunning.message().as_str(), false),
                );
            } else {
                match io {
                    Some(message) => {
                        failure = Some(FillFailure::new(message.as_str(), false));
                    },
                    None => {
                        let part = vstd::slice::slice_subrange(bytes.as_slice(), 0, n);
                        assert(part@ =~= bytes@.take(n as int));
                        let written = cache.write_sequential(self.offset, part);
                        assert(written is Ok);
                        if n != bytes.len() {
                            let mut message =
                                "full-object stream exceeded the advertised size of ".to_string();
                            push_decimal(&mut message, self.expected);
                            message.append(" bytes");
                            failure = Some(FillFailure::new(message.as_str(), false));
                        }
                    },
                }
            }
            self.write_failure = failure;
        }
        match self.offset.checked_add(bytes.len() as u64) {
            Some(offset) => {
                self.offset = offset;
            },
            None => {
                if self.write_failure.is_none() {
                    self.write_failure = Some(
                        FillFailure::new("full-object stream byte count overflowed u64", false),
                    );
                }
                self.offset = u64::MAX;
            },
        }
    }
}

/// Consume a whole-object stream, one event at a time, publishing each chunk only after it has
/// been written into the backing file.
///
/// The fill owns the stream from here to the end of the transfer. Reader seeks, an interrupted
/// `read()`, and `close()` cannot reach it; only a requested stop can, and that cancels rather
/// than drops. A local write failure drains the transfer rather than cancelling it.
pub fn fill_from_stream(run: &mut FillRun, cache: &mut SharedSparseCache, event: FillEvent) -> (next:
    FillAction)
    requires
        old(run)@.expected == old(cache)@.cache.total_size,
    ensures
        final(run)@ == old(run)@.step(old(cache)@, event@),
        final(cache)@ == old(run)@.effect(old(cache)@, event@),
        final(run)@.expected == final(cache)@.cache.total_size,
        next == next_action(old(cache)@, event@),
{
    match event {
        FillEvent::Started => {},
        FillEvent::Chunk { bytes, io } => {
            run.take_chunk(cache, &bytes, io);
        },
        FillEvent::Broke { message, link_lost } => {
            cache.fail(FillFailure::new(message.as_str(), link_lost));
            return FillAction::Done(FillOutcome::Finished);
        },
        FillEvent::Ended => {
            match &run.write_failure {
                Some(failure) => {
                    cache.fail(failure.clone());
                },
                None => {
                    cache.finish(run.offset);
                },
            }
            return FillAction::Done(FillOutcome::Finished);
        },
        FillEvent::Cancelled => {
            cache.fail(
                FillFailure::new(
                    "the whole-object download was stopped because the mount is going away",
                    false,
                ),
            );
            return FillAction::Done(FillOutcome::Stopped);
        },
    }
    if cache.stop_requested() {
        FillAction::Cancel
    } else {
        FillAction::Pull
    }
}

/// The bytes of all chunks, in order.
pub open spec fn concat(chunks: Seq<Seq<u8>>) -> Seq<u8>
    decreases chunks.len(),
{
    if chunks.len() == 0 {
        Seq::empty()
    } else {
        concat(chunks.drop_last()) + chunks.last()
    }
}

/// A fill that has received `chunks`, each stored without an I/O failure.
pub open spec fn received(shared: SharedView, chunks: Seq<Seq<u8>>) -> (RunView, SharedView)
    decreases chunks.len(),
{
    if chunks.len() == 0 {
        (RunView::initial(shared), shared)
    } else {
        let (run, mid) = received(shared, chunks.drop_last());
        let event = FillEventView::Chunk { bytes: chunks.last(), io: None };
        (run.step(mid, event), run.effect(mid, event))
    }
}

/// While a fill runs, the cache holds the prefix of the object that has arrived, byte for byte,
/// whatever the chunk boundaries were.
pub proof fn fill_holds_what_arrived(shared: SharedView, chunks: Seq<Seq<u8>>)
    requires
        shared.fill is Running,
        shared.cache.total_size >= 0,
        concat(chunks).len() <= u64::MAX,
    ensures
        ({
            let (run, after) = received(shared, chunks);
            let all = concat(chunks);
            &&& run.offset == all.len()
            &&& run.expected == shared.cache.total_size
            &&& run.failure is None <==> all.len() <= run.expected
            &&& run.failure is Some ==> run.failure == Some(
                local_failure(long_stream(run.expected)),
            )
            &&& after.fill is Running
            &&& after.stop_requested == shared.stop_requested
            &&& after.cache.total_size == shared.cache.total_size
            &&& forall|p: int|
                0 <= p < all.len() && p < run.expected ==> #[trigger] after.cache.holds(p, all[p])
            &&& forall|p: int|
                !(0 <= p < all.len() && p < run.expected) ==> (#[trigger] after.cache.populated(p)
                    <==> shared.cache.populated(p))
        }),
    decreases chunks.len(),
{
    if chunks.len() > 0 {
        let init = chunks.drop_last();
        assert(concat(chunks).len() == concat(init).len() + chunks.last().len());
        fill_holds_what_arrived(shared, init);
        let (run, mid) = received(shared, init);
        let (run2, after) = received(shared, chunks);
        let all = concat(chunks);
        let before = concat(init);
        let last = chunks.last();
        let n = run.writable(last.len() as int);
        if run.failure is None {
            assert(after.cache == mid.cache.with_bytes(run.offset, last.take(n)));
            assert forall|p: int| 0 <= p < all.len() && p < run.expected implies
                #[trigger] after.cache.holds(p, all[p]) by {
                if p < before.len() {
                    assert(mid.cache.holds(p, before[p]));
                    assert(all[p] == before[p]);
                } else {
                    assert(all[p] == last[p - before.len()]);
                    assert(last.take(n)[p - run.offset] == last[p - before.len()]);
                }
            }
            assert forall|p: int| !(0 <= p < all.len() && p < run.expected) implies (
            #[trigger] after.cache.populated(p) <==> shared.cache.populated(p)) by {
                assert(mid.cache.populated(p) <==> shared.cache.populated(p));
            }
        } else {
            assert(after.cache == mid.cache);
            assert forall|p: int| 0 <= p < all.len() && p < run.expected implies
                #[trigger] after.cache.holds(p, all[p]) by {
                assert(p < before.len());
                assert(mid.cache.holds(p, before[p]));
                assert(all[p] == before[p]);
            }
            assert forall|p: int| !(0 <= p < all.len() && p < run.expected) implies (
            #[trigger] after.cache.populated(p) <==> shared.cache.populated(p)) by {
                assert(mid.cache.populated(p) <==> shared.cache.populated(p));
            }
        }
    }
}

/// A stream ends well exactly where it held the promised number of bytes; a shorter or longer one
/// is reported, and what arrived of the object stays readable.
pub proof fn stream_end_is_judged_by_length(shared: SharedView, chunks: Seq<Seq<u8>>)
    requires
        shared.fill is Running,
        shared.cache.total_size >= 0,
        concat(chunks).len() <= u64::MAX,
    ensures
        ({
            let (run, after) = received(shared, chunks);
            let done = run.effect(after, FillEventView::Ended);
            let n = concat(chunks).len();
            &&& n == shared.cache.total_size ==> done.fill is Complete
            &&& n < shared.cache.total_size ==> done.fill == FillView::Failed(
                local_failure(short_stream(n as int, shared.cache.total_size)),
            )
            &&& n > shared.cache.total_size ==> done.fill == FillView::Failed(
                local_failure(long_stream(shared.cache.total_size)),
            )
            &&& done.cache == after.cache
        }),
{
    fill_holds_what_arrived(shared, chunks);
}

/// A failure, a stop or an early end never hides bytes that are already there.
pub proof fn late_failure_hides_nothing(
    shared: SharedView,
    run: RunView,
    event: FillEventView,
    offset: int,
    size: int,
)
    requires
        shared.ready(offset, size),
        run.expected == shared.cache.total_size,
    ensures
        run.effect(shared, event).ready(offset, size),
{
    let after = run.effect(shared, event);
    assert forall|p: int| !#[trigger] after.cache.missing(offset, size, p) by {
        assert(!shared.cache.missing(offset, size, p));
    }
}

/// What a chunk leaves: as many of its bytes as the object still has go behind what came before, where
/// the download runs and nothing has failed it; none at all where the file could not take them or an
/// earlier chunk failed. Every byte is counted either way, and the first failure stays.
pub proof fn chunks_go_behind_one_another(
    run: RunView,
    shared: SharedView,
    bytes: Seq<u8>,
    io: Option<Seq<char>>,
)
    requires
        0 <= run.offset <= u64::MAX,
        0 <= run.expected,
        run.offset + bytes.len() <= u64::MAX,
    ensures
        ({
            let event = FillEventView::Chunk { bytes, io };
            let after = run.step(shared, event);
            let cache = run.effect(shared, event);
            let room = if run.offset < run.expected {
                run.expected - run.offset
            } else {
                0
            };
            let n = if bytes.len() < room {
                bytes.len() as int
            } else {
                room
            };
            &&& after.offset == run.offset + bytes.len()
            &&& after.expected == run.expected
            &&& run.failure is Some ==> after.failure == run.failure && cache == shared
            &&& run.failure is None && shared.fill is Running && io is None ==> {
                &&& forall|i: int|
                    0 <= i < n ==> #[trigger] cache.cache.bytes.contains_key(run.offset + i)
                        && cache.cache.bytes[run.offset + i] == bytes[i]
                &&& forall|p: int|
                    !(run.offset <= p < run.offset + n) ==> (
                    #[trigger] cache.cache.bytes.contains_key(p)
                        <==> shared.cache.bytes.contains_key(p)) && (
                    shared.cache.bytes.contains_key(p) ==> cache.cache.bytes[p]
                        == shared.cache.bytes[p])
                &&& after.failure is None <==> n == bytes.len()
            }
            &&& run.failure is None && (io is Some || !(shared.fill is Running)) ==> cache == shared
                && after.failure is Some
            &&& run.failure is None && after.failure is Some ==> !after.failure->0.link_lost
            &&& run.failure is None && shared.fill is Running && io is Some
                ==> after.failure->0.message == io->0
            &&& cache.fill == shared.fill
            &&& cache.stop_requested == shared.stop_requested
        }),
{
    let cache = run.effect(shared, FillEventView::Chunk { bytes, io });
    let n = run.writable(bytes.len() as int);
    if run.failure is None && shared.fill is Running && io is None {
        assert forall|i: int| 0 <= i < n implies #[trigger] cache.cache.bytes.contains_key(
            run.offset + i,
        ) && cache.cache.bytes[run.offset + i] == bytes[i] by {
            assert(bytes.take(n)[i] == bytes[i]);
        }
    }
}

/// What the end of a stream comes to: one that broke fails its readers for that reason, and says
/// whether it was the link; one that ended is judged by what failed on the way, or by its length; one
/// that was cancelled fails its readers without blaming the link. What has arrived stays.
pub proof fn streams_end_for_a_reason(
    run: RunView,
    shared: SharedView,
    message: Seq<char>,
    link_lost: bool,
)
    ensures
        run.effect(shared, FillEventView::Broke { message, link_lost }).fill == FillView::Failed(
            FailureView { message, link_lost },
        ),
        run.failure matches Some(failure) ==> run.effect(shared, FillEventView::Ended).fill
            == FillView::Failed(failure),
        run.failure is None ==> (run.effect(shared, FillEventView::Ended).fill is Complete
            <==> run.offset == shared.cache.total_size),
        run.effect(shared, FillEventView::Cancelled).fill matches FillView::Failed(f)
            && !f.link_lost,
        run.effect(shared, FillEventView::Started) == shared,
        run.effect(shared, FillEventView::Broke { message, link_lost }).cache == shared.cache,
        run.effect(shared, FillEventView::Ended).cache == shared.cache,
        run.effect(shared, FillEventView::Cancelled).cache == shared.cache,
{
}

/// What the owner of a stream does: it asks for the next chunk, until the stream ends or breaks; a
/// stop that was requested cancels it before the next chunk, and nothing else does.
pub proof fn streams_are_pulled_until_they_end(shared: SharedView, event: FillEventView)
    ensures
        next_action(shared, event) == FillAction::Pull <==> !shared.stop_requested
            && (event is Started || event is Chunk),
        next_action(shared, event) == FillAction::Cancel <==> shared.stop_requested
            && (event is Started || event is Chunk),
        event is Ended || event is Broke ==> next_action(shared, event) == FillAction::Done(
            FillOutcome::Finished,
        ),
        event is Cancelled ==> next_action(shared, event) == FillAction::Done(FillOutcome::Stopped),
{
}

/// The first thing that goes wrong is what a stream fails with, whatever comes after it: that its cache
/// no longer takes bytes, that the backing file did not, or that it holds more than was promised. A
/// stream that holds more than can be counted fails in any case.
pub proof fn the_first_failure_stays(
    run: RunView,
    shared: SharedView,
    bytes: Seq<u8>,
    io: Option<Seq<char>>,
)
    ensures
        ({
            let after = run.after_chunk(shared, bytes, io);
            &&& run.failure is Some ==> after.failure == run.failure
            &&& run.failure is None && shared.fill is Running && io is Some ==> after.failure == Some(
                FailureView { message: io->0, link_lost: false },
            )
            &&& run.failure is None && shared.fill is Running && io is None && bytes.len() > 0
                && run.offset + bytes.len() > run.expected ==> after.failure is Some
                && !after.failure->0.link_lost
            &&& run.offset + bytes.len() > u64::MAX ==> after.failure is Some && after.offset
                == u64::MAX
            &&& run.offset + bytes.len() <= u64::MAX ==> after.offset == run.offset + bytes.len()
            &&& after.expected == run.expected
        }),
{
}

} // verus!
