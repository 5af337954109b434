//! Keeps track of the whole-object downloads a mount currently has in flight, so the mount can be
//! taken down without abandoning one.
//!
//! A sequential fill (see [`crate::sparse_cache`]) holds the device's single session for the whole
//! transfer, which for a multi-gigabyte object is minutes. Nothing a reader does may interrupt
//! that. But the *mount* going away is a different matter: dropping a live download leaves the
//! device in the middle of a transaction. The device has to be told. So teardown goes through here:
//! it asks every live fill to cancel its transfer and then waits for them to actually finish, which
//! costs about as long as one cancel round-trip rather than the rest of the download.
use crate::device::link_lost;
use crate::device_error::DeviceError;
use crate::fs::state::MountState;
use crate::inode::drop_value;
use crate::inode::laws::lemma_without;
use crate::inode::model::without;
use crate::maps::value_mut;
use crate::sparse_cache::shared::{
    local_failure, FailureView, FillFailure, FillView, SharedSparseCache, SharedView,
};
use crate::sparse_cache::CacheView;
use std::collections::HashMap;
use vstd::prelude::*;

verus! {

broadcast use vstd::std_specs::hash::group_hash_axioms;

/// How long teardown waits for in-flight fills to cancel before giving up on them, in seconds. One
/// cancel is a bounded round-trip to the device; a device that doesn't answer at all is already
/// gone, and blocking an unmount on it would be worse than the untidy exit.
pub const DEFAULT_STOP_TIMEOUT_SECS: u64 = 5;

/// The mount's read caches, each known by the number of its fill, and which of them have a live
/// whole-object download.
pub struct FillTracker {
    caches: HashMap<u64, SharedSparseCache>,
    live: Vec<u64>,
    stopping: bool,
}

/// The caches, the live downloads, oldest first, and whether teardown has begun.
#[verifier::ext_equal]
pub struct TrackerView {
    pub caches: Map<u64, SharedView>,
    pub live: Seq<u64>,
    pub stopping: bool,
}

spec fn cache_views(caches: Map<u64, SharedSparseCache>) -> Map<u64, SharedView> {
    caches.map_values(|c: SharedSparseCache| c@)
}

impl View for FillTracker {
    type V = TrackerView;

    closed spec fn view(&self) -> TrackerView {
        TrackerView {
            caches: cache_views(self.caches@),
            live: self.live@,
            stopping: self.stopping,
        }
    }
}

/// A cache whose fill has been asked to stop.
pub open spec fn asked_to_stop(cache: SharedView) -> SharedView {
    SharedView { stop_requested: true, ..cache }
}

/// The reason readers get when no download was started for them any more.
pub open spec fn going_away_text() -> Seq<char> {
    "the mount is going away, so no new whole-object download was started"@
}

impl TrackerView {
    /// Every live download is into one of the caches.
    pub open spec fn tied(self) -> bool {
        forall|fill: u64| #[trigger] self.live.contains(fill) ==> self.caches.contains_key(fill)
    }

    /// The tracker with `cache` as that of a fill.
    pub open spec fn with_cache(self, fill: u64, cache: SharedView) -> TrackerView {
        TrackerView { caches: self.caches.insert(fill, cache), ..self }
    }

    /// The tracker after a download that is about to start was announced.
    pub open spec fn registered(self, fill: u64) -> TrackerView {
        if self.stopping || !self.caches.contains_key(fill) {
            self
        } else {
            TrackerView { live: self.live.push(fill), ..self }
        }
    }

    /// The tracker after a download ended.
    pub open spec fn finished(self, fill: u64) -> TrackerView {
        TrackerView { live: without(self.live, fill), ..self }
    }

    /// Whether the one download into a cache can start.
    pub open spec fn can_begin(self, fill: u64) -> bool {
        self.caches.contains_key(fill) && self.caches[fill].fill is Idle && !self.stopping
    }

    /// The tracker after the one download into a cache was claimed. During teardown its readers
    /// are released instead.
    pub open spec fn begun(self, fill: u64) -> TrackerView {
        if !self.caches.contains_key(fill) || !(self.caches[fill].fill is Idle) {
            self
        } else if self.stopping {
            self.with_cache(fill, self.caches[fill].failed(local_failure(going_away_text())))
        } else {
            self.with_cache(
                fill,
                SharedView { fill: FillView::Running, ..self.caches[fill] },
            ).registered(fill)
        }
    }

    /// The tracker after the download of a claimed fill could not be opened.
    pub open spec fn not_opened(self, fill: u64, failure: FailureView) -> TrackerView {
        if self.caches.contains_key(fill) {
            self.with_cache(fill, self.caches[fill].failed(failure)).finished(fill)
        } else {
            self.finished(fill)
        }
    }

    /// The tracker during teardown: every live download has been asked to stop.
    pub open spec fn stopped(self) -> TrackerView {
        TrackerView {
            caches: Map::new(
                |fill: u64| self.caches.contains_key(fill),
                |fill: u64|
                    if self.live.contains(fill) {
                        asked_to_stop(self.caches[fill])
                    } else {
                        self.caches[fill]
                    },
            ),
            stopping: true,
            ..self
        }
    }
}

impl Default for FillTracker {
    fn default() -> (tracker: Self)
        ensures
            tracker@ == (TrackerView {
                caches: Map::empty(),
                live: Seq::empty(),
                stopping: false,
            }),
    {
        let tracker = FillTracker { caches: HashMap::new(), live: Vec::new(), stopping: false };
        assert(tracker@.caches =~= Map::empty());
        tracker
    }
}

impl FillTracker {
    #[verifier::type_invariant]
    spec fn live_have_caches(&self) -> bool {
        forall|fill: u64| #[trigger] self.live@.contains(fill) ==> self.caches@.contains_key(fill)
    }

    /// Takes in an empty cache for an object of `total_size` bytes, unless there is one under that
    /// number.
    pub fn open(&mut self, fill: u64, total_size: u64)
        ensures
            final(self)@ == if old(self)@.caches.contains_key(fill) {
                old(self)@
            } else {
                old(self)@.with_cache(
                    fill,
                    SharedView {
                        cache: CacheView { total_size: total_size as int, bytes: Map::empty() },
                        fill: FillView::Idle,
                        stop_requested: false,
                    },
                )
            },
    {
        if self.caches.contains_key(&fill) {
            return;
        }
        proof {
            use_type_invariant(&*self);
        }
        let mut live: Vec<u64> = Vec::new();
        std::mem::swap(&mut self.live, &mut live);
        let mut caches: HashMap<u64, SharedSparseCache> = HashMap::new();
        std::mem::swap(&mut self.caches, &mut caches);
        caches.insert(fill, SharedSparseCache::new(total_size));
        self.caches = caches;
        self.live = live;
        assert(self@.caches =~= old(self)@.caches.insert(fill, self@.caches[fill]));
    }

    /// Lets go of a cache, unless its download is live.
    pub fn close(&mut self, fill: u64)
        ensures
            final(self)@ == if old(self)@.live.contains(fill) {
                old(self)@
            } else {
                TrackerView { caches: old(self)@.caches.remove(fill), ..old(self)@ }
            },
    {
        proof {
            use_type_invariant(&*self);
        }
        let mut i: usize = 0;
        while i < self.live.len()
            invariant
                i <= self.live.len(),
                *self == *old(self),
                forall|k: int| 0 <= k < i ==> #[trigger] self.live@[k] != fill,
            decreases self.live.len() - i,
        {
            if self.live[i] == fill {
                assert(self@.live[i as int] == fill);
                return;
            }
            i += 1;
        }
        let mut live: Vec<u64> = Vec::new();
        std::mem::swap(&mut self.live, &mut live);
        let mut caches: HashMap<u64, SharedSparseCache> = HashMap::new();
        std::mem::swap(&mut self.caches, &mut caches);
        caches.remove(&fill);
        self.caches = caches;
        self.live = live;
        assert(self@.caches =~= old(self)@.caches.remove(fill));
    }

    /// The cache of a fill.
    pub fn cache(&self, fill: u64) -> (cache: Option<&SharedSparseCache>)
        ensures
            match cache {
                Some(c) => self@.caches.contains_key(fill) && c@ == self@.caches[fill],
                None => !self@.caches.contains_key(fill),
            },
            self@.tied(),
    {
        proof {
            use_type_invariant(self);
        }
        self.caches.get(&fill)
    }

    /// The cache of a fill, to be changed.
    pub fn cache_mut(&mut self, fill: u64) -> (cache: Option<&mut SharedSparseCache>)
        ensures
            match cache {
                Some(c) => {
                    &&& old(self)@.caches.contains_key(fill)
                    &&& c@ == old(self)@.caches[fill]
                    &&& final(self)@ == old(self)@.with_cache(fill, final(c)@)
                },
                None => !old(self)@.caches.contains_key(fill) && final(self)@ == old(self)@,
            },
    {
        proof {
            use_type_invariant(&*self);
        }
        let ghost before = self.caches@;
        proof {
            assert forall|c: SharedSparseCache| before.contains_key(fill) implies #[trigger] cache_views(
                before.insert(fill, c),
            ) == cache_views(before).insert(fill, c@) by {
                assert(cache_views(before.insert(fill, c)) =~= cache_views(before).insert(
                    fill,
                    c@,
                ));
            }
        }
        value_mut(&mut self.caches, fill)
    }

    /// Record a fill that is about to start.
    ///
    /// Returns `false` once teardown has begun, which means the caller must not open the transfer
    /// at all: a download started now would be one nothing is waiting for. So it does where there
    /// is no cache for the fill.
    pub fn register(&mut self, fill: u64) -> (registered: bool)
        ensures
            registered == (!old(self)@.stopping && old(self)@.caches.contains_key(fill)),
            final(self)@ == old(self)@.registered(fill),
    {
        if self.stopping || !self.caches.contains_key(&fill) {
            return false;
        }
        proof {
            use_type_invariant(&*self);
        }
        let ghost before = self.live@;
        let mut live: Vec<u64> = Vec::new();
        std::mem::swap(&mut self.live, &mut live);
        live.push(fill);
        assert forall|other: u64| #[trigger] live@.contains(other) implies self.caches@.contains_key(
            other,
        ) by {
            if other != fill {
                assert(before[live@.index_of(other)] == other);
                assert(before.contains(other));
            }
        }
        self.live = live;
        true
    }

    /// Record that a fill has ended, however it ended.
    pub fn finished(&mut self, fill: u64)
        ensures
            final(self)@ == old(self)@.finished(fill),
    {
        proof {
            use_type_invariant(&*self);
        }
        let ghost before = self.live@;
        let mut live: Vec<u64> = Vec::new();
        std::mem::swap(&mut self.live, &mut live);
        drop_value(&mut live, fill);
        proof {
            lemma_without(before, fill);
        }
        self.live = live;
    }

    /// How many fills are in flight.
    pub fn live_count(&self) -> (count: usize)
        ensures
            count == self@.live.len(),
    {
        self.live.len()
    }

    /// Claims the one whole-object download into a cache. `true` means that the caller opens it.
    pub fn begin_fill(&mut self, fill: u64) -> (open: bool)
        ensures
            open == old(self)@.can_begin(fill),
            final(self)@ == old(self)@.begun(fill),
    {
        let stopping = self.stopping;
        match self.cache_mut(fill) {
            None => {
                return false;
            },
            Some(cache) => {
                if !cache.start_fill() {
                    return false;
                }
                if stopping {
                    cache.fail(
                        FillFailure::new(
                            "the mount is going away, so no new whole-object download was started",
                            false,
                        ),
                    );
                    return false;
                }
            },
        }
        self.register(fill)
    }

    /// Records that the download of a claimed fill could not be opened.
    pub fn fill_not_opened(&mut self, fill: u64, error: &DeviceError)
        ensures
            final(self)@ == old(self)@.not_opened(
                fill,
                FailureView { message: error.text(), link_lost: link_lost(*error) },
            ),
    {
        if let Some(cache) = self.cache_mut(fill) {
            cache.fail(FillFailure::new(error.message().as_str(), error.is_link_lost()));
        }
        self.finished(fill);
    }

    /// Ask every live fill to cancel, and say what whoever waits for them finds: `true` once all
    /// have finished, `false` once the time `is_over`, and nothing while it has to keep waiting.
    ///
    /// Once this has been called, no new fill starts, so it is safe to drop what the fills run on.
    pub fn stop_and_wait(&mut self, is_over: bool) -> (found: Option<bool>)
        ensures
            final(self)@ == old(self)@.stopped(),
            forall|fill: u64| #[trigger]
                old(self)@.live.contains(fill) ==> final(self)@.caches.contains_key(fill)
                    && final(self)@.caches[fill].stop_requested,
            found == if old(self)@.live.len() == 0 {
                Some(true)
            } else if is_over {
                Some(false)
            } else {
                None
            },
    {
        proof {
            use_type_invariant(&*self);
        }
        self.stopping = true;
        let ghost start = old(self)@;
        let ghost live = self.live@;
        let mut i: usize = 0;
        while i < self.live.len()
            invariant
                i <= self.live.len(),
                live == self.live@,
                live == start.live,
                self.stopping,
                self@.caches.dom() == start.caches.dom(),
                forall|fill: u64| #[trigger]
                    start.caches.contains_key(fill) ==> self@.caches[fill] == if live.take(
                        i as int,
                    ).contains(fill) {
                        asked_to_stop(start.caches[fill])
                    } else {
                        start.caches[fill]
                    },
            decreases self.live.len() - i,
        {
            let fill: u64 = self.live[i];
            let ghost before = self@;
            if let Some(cache) = self.cache_mut(fill) {
                cache.request_stop();
            }
            assert(self@.caches.dom() =~= start.caches.dom());
            i += 1;
            assert forall|other: u64| #[trigger] start.caches.contains_key(other) implies self@.caches[other]
                == if live.take(i as int).contains(other) {
                asked_to_stop(start.caches[other])
            } else {
                start.caches[other]
            } by {
                let now = live.take(i as int);
                let then = live.take(i - 1);
                assert(now =~= then.push(fill));
                assert(before.caches.contains_key(other));
                if then.contains(other) {
                    assert(now[then.index_of(other)] == other);
                }
                if other == fill {
                    assert(now[i - 1] == other);
                } else if now.contains(other) {
                    assert(then[now.index_of(other)] == other);
                }
            }
        }
        assert(live.take(i as int) =~= live);
        assert(self@.caches =~= start.stopped().caches);
        if self.live.len() == 0 {
            Some(true)
        } else if is_over {
            Some(false)
        } else {
            None
        }
    }
}

impl<C> MountState<C> {
    /// Records that the fill of `inode` is over. Its cache outlives the last close while the fill
    /// is running, so this is where it goes once nothing holds the file open any more.
    pub fn fill_over(&mut self, fills: &mut FillTracker, fill: u64, inode: u64)
        ensures
            final(fills)@ == old(fills)@.finished(fill),
            final(self)@ == old(self)@.cache_dropped(inode, false),
    {
        fills.finished(fill);
        self.drop_read_cache_if_unused(inode, false);
    }
}

/// A tracker after downloads ended, one after the other.
pub open spec fn drained(tracker: TrackerView, ended: Seq<u64>) -> TrackerView
    decreases ended.len(),
{
    if ended.len() == 0 {
        tracker
    } else {
        drained(tracker, ended.drop_last()).finished(ended.last())
    }
}

/// Every step keeps each live download tied to its cache.
pub proof fn live_downloads_keep_their_caches(
    tracker: TrackerView,
    fill: u64,
    cache: SharedView,
    failure: FailureView,
)
    requires
        tracker.tied(),
    ensures
        tracker.with_cache(fill, cache).tied(),
        tracker.registered(fill).tied(),
        tracker.finished(fill).tied(),
        tracker.begun(fill).tied(),
        tracker.not_opened(fill, failure).tied(),
        tracker.stopped().tied(),
        !tracker.live.contains(fill) ==> (TrackerView {
            caches: tracker.caches.remove(fill),
            ..tracker
        }).tied(),
{
    lemma_without(tracker.live, fill);
    assert forall|other: u64| #[trigger]
        tracker.live.push(fill).contains(other) implies tracker.live.contains(other) || other
        == fill by {
        let i = tracker.live.push(fill).index_of(other);
        if i < tracker.live.len() {
            assert(tracker.live[i] == other);
        }
    }
}

/// Once teardown has begun it is for good: whatever downloads end, no further one starts, and what
/// is live are those that have not ended. Once each of them has, nothing is live.
pub proof fn teardown_drains(tracker: TrackerView, ended: Seq<u64>, fill: u64)
    requires
        tracker.stopping,
    ensures
        drained(tracker, ended).stopping,
        drained(tracker, ended).registered(fill) == drained(tracker, ended),
        !drained(tracker, ended).can_begin(fill),
        drained(tracker, ended).begun(fill).live == drained(tracker, ended).live,
        drained(tracker, ended).live.contains(fill) <==> tracker.live.contains(fill)
            && !ended.contains(fill),
        (forall|live: u64| #[trigger] tracker.live.contains(live) ==> ended.contains(live))
            ==> drained(tracker, ended).live.len() == 0,
{
    lemma_drained(tracker, ended);
    assert(drained(tracker, ended).live.contains(fill) <==> tracker.live.contains(fill)
        && !ended.contains(fill));
    let left = drained(tracker, ended).live;
    if left.len() > 0 {
        assert(left.contains(left[0]));
        assert(tracker.live.contains(left[0]) && !ended.contains(left[0]));
    }
}

proof fn lemma_drained(tracker: TrackerView, ended: Seq<u64>)
    requires
        tracker.stopping,
    ensures
        drained(tracker, ended).stopping,
        forall|fill: u64| #[trigger]
            drained(tracker, ended).live.contains(fill) <==> tracker.live.contains(fill)
                && !ended.contains(fill),
    decreases ended.len(),
{
    if ended.len() > 0 {
        let rest = ended.drop_last();
        lemma_drained(tracker, rest);
        let before = drained(tracker, rest).live;
        lemma_without(before, ended.last());
        assert forall|fill: u64| #[trigger]
            drained(tracker, ended).live.contains(fill) <==> tracker.live.contains(fill)
                && !ended.contains(fill) by {
            assert(before.contains(fill) <==> tracker.live.contains(fill) && !rest.contains(fill));
            if rest.contains(fill) {
                assert(ended[rest.index_of(fill)] == fill);
            }
            if ended.contains(fill) && fill != ended.last() {
                assert(rest[ended.index_of(fill)] == fill);
            }
            if fill == ended.last() {
                assert(ended[ended.len() - 1] == fill);
            }
        }
    }
}

/// One cache gets one download: it can begin exactly where none has begun and no teardown either, and
/// then it runs and is live, so that no second one can begin.
pub proof fn each_cache_gets_one_download(tracker: TrackerView, fill: u64, other: u64)
    ensures
        tracker.can_begin(fill) <==> tracker.caches.contains_key(fill)
            && tracker.caches[fill].fill is Idle && !tracker.stopping,
        tracker.can_begin(fill) ==> {
            let after = tracker.begun(fill);
            &&& after.caches[fill].fill is Running
            &&& after.caches[fill].cache == tracker.caches[fill].cache
            &&& after.live == tracker.live.push(fill)
            &&& !after.can_begin(fill)
        },
        tracker.stopping && tracker.caches.contains_key(fill) && tracker.caches[fill].fill is Idle
            ==> tracker.begun(fill).caches[fill].fill is Failed,
        tracker.caches.contains_key(fill) && !(tracker.caches[fill].fill is Idle) ==> tracker.begun(
            fill,
        ) == tracker,
        other != fill && tracker.caches.contains_key(other) ==> tracker.begun(fill).caches[other]
            == tracker.caches[other],
        tracker.begun(fill).stopping == tracker.stopping,
{
}

/// A download that ended, or could not be opened, is live no more; no other is touched. One that could
/// not be opened fails its readers.
pub proof fn ended_downloads_are_not_live(
    tracker: TrackerView,
    fill: u64,
    failure: FailureView,
    other: u64,
)
    ensures
        !tracker.finished(fill).live.contains(fill),
        other != fill ==> (tracker.finished(fill).live.contains(other)
            <==> tracker.live.contains(other)),
        tracker.finished(fill).caches == tracker.caches,
        tracker.finished(fill).stopping == tracker.stopping,
        !tracker.not_opened(fill, failure).live.contains(fill),
        tracker.caches.contains_key(fill) ==> tracker.not_opened(fill, failure).caches[fill].fill
            == FillView::Failed(failure),
        other != fill && tracker.caches.contains_key(other) ==> tracker.not_opened(
            fill,
            failure,
        ).caches[other] == tracker.caches[other],
{
    lemma_without(tracker.live, fill);
}

/// A teardown asks every live download to stop, and no other, and starts none from then on.
pub proof fn teardown_asks_the_live_ones(tracker: TrackerView, fill: u64)
    requires
        tracker.caches.contains_key(fill),
    ensures
        ({
            let after = tracker.stopped();
            &&& after.stopping
            &&& after.live == tracker.live
            &&& after.caches.contains_key(fill)
            &&& after.caches[fill].stop_requested <==> tracker.live.contains(fill)
                || tracker.caches[fill].stop_requested
            &&& after.caches[fill].cache == tracker.caches[fill].cache
            &&& after.caches[fill].fill == tracker.caches[fill].fill
            &&& !after.can_begin(fill)
        }),
{
}

} // verus!
