//! The rules by which the daemon's mounts come and go.
//!
//! The supervisor never touches USB. Its whole input is [`Command`]s: a device arrived, a device
//! left, a mount gave up on its device, stop.
use crate::daemon::facts::{DeviceIdent, IdentView};
use crate::daemon::keys::{
    drop_key, insert_key, slot, sorted, sorted_keys_are_found, sorted_keys_stay_sorted,
};
use crate::device::UnplugSwitch;
use crate::device_error::DeviceError;
use crate::fill::DEFAULT_STOP_TIMEOUT_SECS;
use crate::fs::{MtpFsConfig, DEFAULT_FULL_DOWNLOAD_LIMIT};
use crate::hints::{hint_of, open_hint};
use crate::reconnect::ReconnectPolicy;
use crate::spool::{join_path, path_join};
use crate::text::{comes_before, decimal, push_decimal, same_text, texts};
use vstd::prelude::*;

verus! {

/// How long a mount gets to leave the filesystem before the daemon complains, in seconds.
pub const DEFAULT_UNMOUNT_TIMEOUT_SECS: u64 = 10;

/// A device showed up or went away.
#[derive(Debug, Clone)]
pub enum DeviceChange {
    Arrived(DeviceIdent),
    Left(DeviceIdent),
}

/// Everything the supervisor reacts to.
#[derive(Debug, Clone)]
pub enum Command {
    /// The device set changed.
    Device(DeviceChange),
    /// A mount decided its device is gone for good and asked to be taken down.
    ///
    /// The filesystem can't unmount itself (see [`crate::shutdown`]), and this can beat the hotplug
    /// departure: a mount notices a dead session on its next operation, while the USB watch only
    /// notices on its next poll.
    GiveUp { key: String, reason: String },
    /// Unmount everything and end.
    Stop(String),
}

/// How the daemon mounts things.
#[derive(Debug)]
pub struct SupervisorConfig {
    /// Directory that holds one subdirectory per mounted device.
    pub mount_root: String,
    /// Disk-backed directory for write spools and read caches (see [`crate::spool`]).
    pub spool_dir: String,
    /// Mount every device read-only.
    pub read_only: bool,
    /// How long to wait for a mount to actually leave the filesystem, in seconds.
    pub unmount_timeout_secs: u64,
    /// Ceiling on the whole-object read fallback, in bytes. `0` lifts it.
    pub full_download_limit: u64,
}

impl SupervisorConfig {
    /// Config with the default unmount timeout and download limit.
    pub fn new(mount_root: String, spool_dir: String, read_only: bool) -> (config: Self)
        ensures
            config.mount_root == mount_root,
            config.spool_dir == spool_dir,
            config.read_only == read_only,
            config.unmount_timeout_secs == DEFAULT_UNMOUNT_TIMEOUT_SECS,
            config.full_download_limit == DEFAULT_FULL_DOWNLOAD_LIMIT,
    {
        SupervisorConfig {
            mount_root,
            spool_dir,
            read_only,
            unmount_timeout_secs: DEFAULT_UNMOUNT_TIMEOUT_SECS,
            full_download_limit: DEFAULT_FULL_DOWNLOAD_LIMIT,
        }
    }

    /// How each device is mounted.
    ///
    /// Reconnecting stays off: waiting blocks every process touching the mount, and the daemon has
    /// a better answer than waiting. A device that comes back arrives as a fresh hotplug event and
    /// gets mounted again at the same path, with nothing frozen in between.
    pub fn mount_config(&self) -> (config: MtpFsConfig)
        ensures
            config.read_only == self.read_only,
            config.spool_dir@ == self.spool_dir@,
            config.reconnect@ == 0,
            config.full_download_limit == self.full_download_limit,
    {
        MtpFsConfig {
            read_only: self.read_only,
            spool_dir: self.spool_dir.clone(),
            reconnect: ReconnectPolicy::from_secs(0),
            full_download_limit: self.full_download_limit,
            unplug: UnplugSwitch::default(),
        }
    }
}

/// One device's mount.
#[derive(Debug)]
pub struct ActiveMount {
    pub key: String,
    pub label: String,
    pub path: String,
}

/// An [`ActiveMount`], with texts as sequences of characters.
#[verifier::ext_equal]
pub struct MountView {
    pub key: Seq<char>,
    pub label: Seq<char>,
    pub path: Seq<char>,
}

impl View for ActiveMount {
    type V = MountView;

    open spec fn view(&self) -> MountView {
        MountView { key: self.key@, label: self.label@, path: self.path@ }
    }
}

/// What is mounted, sorted by key.
#[verifier::ext_equal]
pub struct SupervisorView {
    pub config: SupervisorConfig,
    pub mounts: Seq<MountView>,
}

/// The rules by which the daemon's mounts come and go.
#[derive(Debug)]
pub struct Supervisor {
    config: SupervisorConfig,
    /// What is mounted, sorted by key.
    mounts: Vec<ActiveMount>,
}

spec fn mount_keys(mounts: Seq<ActiveMount>) -> Seq<Seq<char>> {
    Seq::new(mounts.len(), |i: int| mounts[i].key@)
}

spec fn mount_views(mounts: Seq<ActiveMount>) -> Seq<MountView> {
    Seq::new(mounts.len(), |i: int| mounts[i]@)
}

impl View for Supervisor {
    type V = SupervisorView;

    closed spec fn view(&self) -> SupervisorView {
        SupervisorView { config: self.config, mounts: mount_views(self.mounts@) }
    }
}

/// What a command comes to.
#[derive(Debug)]
pub enum SupervisorStep {
    /// Mount this device at this path, by [`Supervisor::mount_step`].
    Mount { ident: DeviceIdent, path: String },
    /// A device of that key is already mounted there; the arrival is ignored.
    AlreadyMounted { label: String, path: String },
    /// This is no longer counted as mounted: take it down.
    Unmount { mount: ActiveMount, reason: String },
    /// Nothing of that key is mounted.
    NothingMounted,
    /// Take everything down and end.
    Stop(String),
}

/// What is left to be done in mounting a device.
#[derive(Debug)]
pub enum MountAction {
    /// Open the device.
    Open,
    /// Mount the opened device at its path.
    Mount,
    /// Nothing: it is mounted.
    Done,
    /// Give up, saying why, and take the mount point away again where it was made.
    Abandon { remove_point: bool, complaint: String, hint: Option<&'static str> },
}

/// What happened in mounting a device.
#[derive(Debug)]
pub enum MountEvent {
    /// The mount point was made, or could not be.
    PointCreated(Result<(), String>),
    /// The device was opened, or could not be.
    Opened(Result<(), DeviceError>),
    /// The device was mounted, or could not be.
    Mounted(Result<(), String>),
}

/// What is left to be done in taking a mount down.
#[derive(Debug)]
pub enum TakedownAction {
    /// Detach the mount from its path, whether or not anything still uses it.
    Detach,
    /// Say this, if anything. Then ask the mount's whole-object downloads to stop and wait for
    /// them, this many seconds at most.
    StopFills { complaint: Option<String>, secs: u64 },
    /// Say this, if anything. Then wait for the path to be no mount point, this many seconds at
    /// most.
    Wait { complaint: Option<String>, secs: u64 },
    /// Remove the directory that was the mount point.
    Remove,
    /// Nothing, but to say this, if anything.
    Done { complaint: Option<String> },
}

/// What happened in taking a mount down.
#[derive(Debug)]
pub enum TakedownEvent {
    /// It is to start.
    Begin,
    /// The mount was detached, or could not be.
    Detached(Result<(), String>),
    /// Every download has ended, or the time for them was over.
    FillsStopped(bool),
    /// The path is no mount point any more, or still is one.
    Waited { gone: bool },
    /// The directory was removed, or could not be.
    Removed(Result<(), String>),
}

impl SupervisorView {
    /// The keys of what is mounted.
    pub open spec fn keys(self) -> Seq<Seq<char>> {
        Seq::new(self.mounts.len(), |i: int| self.mounts[i].key)
    }

    /// Whether something is mounted under `key`.
    pub open spec fn is_mounted(self, key: Seq<char>) -> bool {
        self.keys().contains(key)
    }

    /// What is mounted under `key`.
    pub open spec fn mount_of(self, key: Seq<char>) -> MountView {
        self.mounts[self.keys().index_of(key)]
    }

    /// The mount that a device gets.
    pub open spec fn mount_for(self, ident: IdentView) -> MountView {
        MountView {
            key: ident.key,
            label: ident.label,
            path: path_join(self.config.mount_root@, ident.key),
        }
    }

    /// The state with `ident` mounted under its key, in place of what may be mounted there.
    pub open spec fn with_mount(self, ident: IdentView) -> SupervisorView {
        SupervisorView {
            mounts: if self.is_mounted(ident.key) {
                self.mounts.update(self.keys().index_of(ident.key), self.mount_for(ident))
            } else {
                self.mounts.insert(slot(self.keys(), ident.key), self.mount_for(ident))
            },
            ..self
        }
    }

    /// The state with nothing mounted under `key`.
    pub open spec fn without_mount(self, key: Seq<char>) -> SupervisorView {
        SupervisorView { mounts: self.mounts.remove(self.keys().index_of(key)), ..self }
    }

    /// Whether `step` takes down what is mounted under `key`, and `after` is the state then.
    pub open spec fn takes_down(
        self,
        after: SupervisorView,
        key: Seq<char>,
        reason: Seq<char>,
        step: SupervisorStep,
    ) -> bool {
        if self.is_mounted(key) {
            &&& step matches SupervisorStep::Unmount { mount, reason: r } && mount@ == self.mount_of(
                key,
            ) && r@ == reason
            &&& after == self.without_mount(key)
        } else {
            step is NothingMounted && after == self
        }
    }
}

/// What is said where a device could not be mounted.
pub open spec fn complaint(what: Seq<char>, subject: Seq<char>, why: Seq<char>) -> Seq<char> {
    what + subject + ": "@ + why
}

fn complain(what: &str, subject: &str, why: &str) -> (s: String)
    ensures
        s@ == complaint(what@, subject@, why@),
{
    let mut s = what.to_string();
    s.append(subject);
    s.append(": ");
    s.append(why);
    s
}

impl Supervisor {
    #[verifier::type_invariant]
    spec fn in_order(&self) -> bool {
        sorted(mount_keys(self.mounts@))
    }

    pub fn new(config: SupervisorConfig) -> (supervisor: Self)
        ensures
            supervisor@ == (SupervisorView { config, mounts: Seq::empty() }),
    {
        let supervisor = Supervisor { config, mounts: Vec::new() };
        assert(supervisor@.mounts =~= Seq::empty());
        supervisor
    }

    /// How the daemon mounts things.
    pub fn config(&self) -> (config: &SupervisorConfig)
        ensures
            *config == self@.config,
    {
        &self.config
    }

    /// Devices currently mounted, by key, sorted.
    pub fn mounted_keys(&self) -> (keys: Vec<String>)
        ensures
            texts(keys@) == self@.keys(),
            sorted(self@.keys()),
    {
        proof {
            use_type_invariant(self);
            assert(mount_keys(self.mounts@) =~= self@.keys());
        }
        let mut keys: Vec<String> = Vec::new();
        let mut i: usize = 0;
        while i < self.mounts.len()
            invariant
                i <= self.mounts.len(),
                keys.len() == i,
                forall|k: int| 0 <= k < i ==> (#[trigger] keys@[k])@ == self@.keys()[k],
            decreases self.mounts.len() - i,
        {
            keys.push(self.mounts[i].key.clone());
            i += 1;
        }
        assert(texts(keys@) =~= self@.keys());
        keys
    }

    /// The place of `key`, and whether it is there.
    fn find(&self, key: &str) -> (found: (usize, bool))
        ensures
            found.0 == slot(self@.keys(), key@),
            found.0 <= self@.mounts.len(),
            found.1 == self@.is_mounted(key@),
            found.1 ==> found.0 == self@.keys().index_of(key@),
            sorted(self@.keys()),
    {
        let ghost all = self@.keys();
        proof {
            use_type_invariant(self);
            assert(mount_keys(self.mounts@) =~= all);
            sorted_keys_are_found(all, key@);
        }
        let mut i: usize = 0;
        assert(all.skip(0) =~= all);
        while i < self.mounts.len() && comes_before(self.mounts[i].key.as_str(), key)
            invariant
                i <= self.mounts.len(),
                all == self@.keys(),
                slot(all, key@) == i + slot(all.skip(i as int), key@),
            decreases self.mounts.len() - i,
        {
            assert(all.skip(i as int).drop_first() =~= all.skip(i + 1));
            i += 1;
        }
        let there = i < self.mounts.len() && same_text(self.mounts[i].key.as_str(), key);
        (i, there)
    }

    /// What a command comes to.
    pub fn handle(&mut self, command: Command) -> (step: SupervisorStep)
        ensures
            match command {
                Command::Device(DeviceChange::Arrived(ident)) => {
                    &&& final(self)@ == old(self)@
                    &&& if old(self)@.is_mounted(ident.key@) {
                        step matches SupervisorStep::AlreadyMounted { label, path } && label@
                            == ident.label@ && path@ == old(self)@.mount_of(ident.key@).path
                    } else {
                        step matches SupervisorStep::Mount { ident: i, path } && i@ == ident@
                            && path@ == old(self)@.mount_for(ident@).path
                    }
                },
                Command::Device(DeviceChange::Left(ident)) => old(self)@.takes_down(
                    final(self)@,
                    ident.key@,
                    "the device was unplugged"@,
                    step,
                ),
                Command::GiveUp { key, reason } => old(self)@.takes_down(
                    final(self)@,
                    key@,
                    reason@,
                    step,
                ),
                Command::Stop(reason) => final(self)@ == old(self)@ && (step matches
                    SupervisorStep::Stop(r) && r@ == reason@),
            },
    {
        match command {
            Command::Device(DeviceChange::Arrived(ident)) => {
                let (place, there) = self.find(ident.key.as_str());
                if there {
                    SupervisorStep::AlreadyMounted {
                        label: ident.label,
                        path: self.mounts[place].path.clone(),
                    }
                } else {
                    let path = join_path(self.config.mount_root.as_str(), ident.key.as_str());
                    SupervisorStep::Mount { ident, path }
                }
            },
            Command::Device(DeviceChange::Left(ident)) => {
                self.unmount(ident.key.as_str(), "the device was unplugged")
            },
            Command::GiveUp { key, reason } => self.unmount(key.as_str(), reason.as_str()),
            Command::Stop(reason) => SupervisorStep::Stop(reason),
        }
    }

    /// Takes `key` out of what is mounted.
    pub fn unmount(&mut self, key: &str, reason: &str) -> (step: SupervisorStep)
        ensures
            old(self)@.takes_down(final(self)@, key@, reason@, step),
    {
        let (place, there) = self.find(key);
        if !there {
            return SupervisorStep::NothingMounted;
        }
        let ghost before = self@;
        let mut mounts: Vec<ActiveMount> = Vec::new();
        std::mem::swap(&mut self.mounts, &mut mounts);
        let mount = mounts.remove(place);
        proof {
            assert(mount_keys(mounts@) =~= drop_key(before.keys(), key@));
            sorted_keys_stay_sorted(before.keys(), key@);
        }
        self.mounts = mounts;
        assert(self@.mounts =~= before.without_mount(key@).mounts);
        SupervisorStep::Unmount { mount, reason: reason.to_string() }
    }

    /// Notes a mount under its key, in place of what may be mounted there.
    fn record(&mut self, mount: ActiveMount)
        ensures
            final(self)@ == (SupervisorView {
                mounts: if old(self)@.is_mounted(mount.key@) {
                    old(self)@.mounts.update(old(self)@.keys().index_of(mount.key@), mount@)
                } else {
                    old(self)@.mounts.insert(slot(old(self)@.keys(), mount.key@), mount@)
                },
                ..old(self)@
            }),
    {
        let ghost view = mount@;
        let (place, there) = self.find(mount.key.as_str());
        let ghost before = self@;
        let mut mounts: Vec<ActiveMount> = Vec::new();
        std::mem::swap(&mut self.mounts, &mut mounts);
        if there {
            mounts[place] = mount;
            assert(mount_keys(mounts@) =~= before.keys());
        } else {
            mounts.insert(place, mount);
            assert(mount_keys(mounts@) =~= insert_key(before.keys(), view.key));
        }
        proof {
            sorted_keys_stay_sorted(before.keys(), view.key);
        }
        self.mounts = mounts;
        assert(self@.mounts =~= if there {
            before.mounts.update(place as int, view)
        } else {
            before.mounts.insert(place as int, view)
        });
    }

    /// Takes one step further in mounting a device that [`handle`](Self::handle) said to mount:
    /// its mount point, then the device, then the mount itself. Whatever fails, no mount point is
    /// left behind for a file manager to show as a device that isn't there.
    pub fn mount_step(&mut self, ident: &DeviceIdent, event: MountEvent) -> (action: MountAction)
        ensures
            ({
                let path = old(self)@.mount_for(ident@).path;
                match event {
                    MountEvent::PointCreated(Ok(())) => action is Open,
                    MountEvent::PointCreated(Err(why)) => action matches MountAction::Abandon {
                        remove_point,
                        complaint: c,
                        hint,
                    } && !remove_point && hint is None && c@ == complaint(
                        "Can't create the mount point "@,
                        path,
                        why@,
                    ),
                    MountEvent::Opened(Ok(())) => action is Mount,
                    MountEvent::Opened(Err(error)) => action matches MountAction::Abandon {
                        remove_point,
                        complaint: c,
                        hint,
                    } && remove_point && hint == hint_of(error) && c@ == complaint(
                        "Can't open "@,
                        ident.label@,
                        error.text(),
                    ),
                    MountEvent::Mounted(Ok(())) => action is Done,
                    MountEvent::Mounted(Err(why)) => action matches MountAction::Abandon {
                        remove_point,
                        complaint: c,
                        hint,
                    } && remove_point && hint is None && c@ == complaint(
                        "Can't mount "@,
                        ident.label@ + " at "@ + path,
                        why@,
                    ),
                }
            }),
            final(self)@ == if event is Mounted && event->Mounted_0 is Ok {
                old(self)@.with_mount(ident@)
            } else {
                old(self)@
            },
    {
        let path = join_path(self.config.mount_root.as_str(), ident.key.as_str());
        match event {
            MountEvent::PointCreated(Ok(())) => MountAction::Open,
            MountEvent::PointCreated(Err(why)) => MountAction::Abandon {
                remove_point: false,
                complaint: complain("Can't create the mount point ", path.as_str(), why.as_str()),
                hint: None,
            },
            MountEvent::Opened(Ok(())) => MountAction::Mount,
            MountEvent::Opened(Err(error)) => MountAction::Abandon {
                remove_point: true,
                complaint: complain(
                    "Can't open ",
                    ident.label.as_str(),
                    error.message().as_str(),
                ),
                hint: open_hint(&error),
            },
            MountEvent::Mounted(Ok(())) => {
                self.record(
                    ActiveMount { key: ident.key.clone(), label: ident.label.clone(), path },
                );
                assert(self@.mounts =~= old(self)@.with_mount(ident@).mounts);
                MountAction::Done
            },
            MountEvent::Mounted(Err(why)) => {
                let mut subject = ident.label.clone();
                subject.append(" at ");
                subject.append(path.as_str());
                MountAction::Abandon {
                    remove_point: true,
                    complaint: complain("Can't mount ", subject.as_str(), why.as_str()),
                    hint: None,
                }
            },
        }
    }

    /// Takes everything out of what is mounted, for the daemon's end.
    pub fn unmount_all(&mut self) -> (mounts: Vec<ActiveMount>)
        ensures
            mounts@.len() == old(self)@.mounts.len(),
            forall|i: int|
                0 <= i < mounts@.len() ==> (#[trigger] mounts@[i])@ == old(self)@.mounts[i],
            final(self)@ == (SupervisorView { mounts: Seq::empty(), ..old(self)@ }),
    {
        let mut mounts: Vec<ActiveMount> = Vec::new();
        std::mem::swap(&mut self.mounts, &mut mounts);
        assert(self@.mounts =~= Seq::empty());
        mounts
    }
}

/// What is said of a mount that would not go away.
pub open spec fn still_mounted_text(path: Seq<char>, secs: u64) -> Seq<char> {
    path + " is STILL mounted "@ + decimal(secs as nat)
        + "s after unmounting it. Anything touching that path may hang; unmount it by hand with `fusermount3 -u -z "@
        + path + "`."@
}

fn still_mounted(path: &str, secs: u64) -> (text: String)
    ensures
        text@ == still_mounted_text(path@, secs),
{
    let mut text = path.to_string();
    text.append(" is STILL mounted ");
    push_decimal(&mut text, secs);
    text.append(
        "s after unmounting it. Anything touching that path may hang; unmount it by hand with `fusermount3 -u -z ",
    );
    text.append(path);
    text.append("`.");
    text
}

/// What is said of a mount whose directory would not go away.
pub open spec fn left_over_text(mount: MountView, why: Seq<char>) -> Seq<char> {
    "Unmounted "@ + mount.label + ", but "@ + mount.path + " is still there: "@ + why
}

/// What is said of downloads that would not end.
pub open spec fn still_finishing_text() -> Seq<char> {
    "A download was still finishing when we stopped waiting; the device may need a moment before it answers again."@
}

/// Whether `said` is exactly this text, or nothing.
pub open spec fn says(said: Option<String>, text: Option<Seq<char>>) -> bool {
    match (said, text) {
        (Some(s), Some(t)) => s@ == t,
        (None, None) => true,
        _ => false,
    }
}

impl TakedownAction {
    /// Whether this is what follows an event in taking `mount` down.
    pub open spec fn follows(self, mount: MountView, event: TakedownEvent, secs: u64) -> bool {
        match event {
            TakedownEvent::Begin => self is Detach,
            TakedownEvent::Detached(detached) => self matches TakedownAction::StopFills {
                complaint: said,
                secs: s,
            } && s == DEFAULT_STOP_TIMEOUT_SECS && says(
                said,
                match detached {
                    Ok(()) => None,
                    Err(why) => Some(complaint("Can't unmount "@, mount.path, why@)),
                },
            ),
            TakedownEvent::FillsStopped(stopped) => self matches TakedownAction::Wait {
                complaint: said,
                secs: s,
            } && s == secs && says(
                said,
                if stopped {
                    None
                } else {
                    Some(still_finishing_text())
                },
            ),
            TakedownEvent::Waited { gone } => if gone {
                self is Remove
            } else {
                self matches TakedownAction::Done { complaint: said } && says(
                    said,
                    Some(still_mounted_text(mount.path, secs)),
                )
            },
            TakedownEvent::Removed(removed) => self matches TakedownAction::Done {
                complaint: said,
            } && says(
                said,
                match removed {
                    Ok(()) => None,
                    Err(why) => Some(left_over_text(mount, why@)),
                },
            ),
        }
    }
}

/// Takes one step further in taking down a mount that [`Supervisor::unmount`] handed out.
///
/// The mount is detached first: a busy mount is the normal case here, because the reason the device
/// left is usually that someone yanked the cable mid-copy. Then its downloads are asked to stop, so
/// that none is abandoned mid-transfer, and only once the path is no mount point any more does its
/// directory go. Nothing that fails on the way keeps the rest from being done.
pub fn unmount_step(mount: &ActiveMount, event: TakedownEvent, timeout_secs: u64) -> (action:
    TakedownAction)
    ensures
        action.follows(mount@, event, timeout_secs),
{
    match event {
        TakedownEvent::Begin => TakedownAction::Detach,
        TakedownEvent::Detached(Ok(())) => TakedownAction::StopFills {
            complaint: None,
            secs: DEFAULT_STOP_TIMEOUT_SECS,
        },
        TakedownEvent::Detached(Err(why)) => TakedownAction::StopFills {
            complaint: Some(complain("Can't unmount ", mount.path.as_str(), why.as_str())),
            secs: DEFAULT_STOP_TIMEOUT_SECS,
        },
        TakedownEvent::FillsStopped(true) => TakedownAction::Wait {
            complaint: None,
            secs: timeout_secs,
        },
        TakedownEvent::FillsStopped(false) => TakedownAction::Wait {
            complaint: Some(
                "A download was still finishing when we stopped waiting; the device may need a moment before it answers again.".to_string(),
            ),
            secs: timeout_secs,
        },
        TakedownEvent::Waited { gone: true } => TakedownAction::Remove,
        TakedownEvent::Waited { gone: false } => TakedownAction::Done {
            complaint: Some(still_mounted(mount.path.as_str(), timeout_secs)),
        },
        TakedownEvent::Removed(Ok(())) => TakedownAction::Done { complaint: None },
        TakedownEvent::Removed(Err(why)) => {
            let mut text = "Unmounted ".to_string();
            text.append(mount.label.as_str());
            text.append(", but ");
            text.append(mount.path.as_str());
            text.append(" is still there: ");
            text.append(why.as_str());
            TakedownAction::Done { complaint: Some(text) }
        },
    }
}

/// Whether an event reports the outcome of an action.
pub open spec fn reports(event: TakedownEvent, action: TakedownAction) -> bool {
    match action {
        TakedownAction::Detach => event is Detached,
        TakedownAction::StopFills { .. } => event is FillsStopped,
        TakedownAction::Wait { .. } => event is Waited,
        TakedownAction::Remove => event is Removed,
        TakedownAction::Done { .. } => false,
    }
}

/// Whether `actions` is how `mount` is taken down when `events` happen.
pub open spec fn is_takedown(
    mount: MountView,
    secs: u64,
    events: Seq<TakedownEvent>,
    actions: Seq<TakedownAction>,
) -> bool {
    &&& events.len() == actions.len()
    &&& events.len() > 0
    &&& events[0] is Begin
    &&& forall|i: int|
        0 <= i < events.len() ==> (#[trigger] actions[i]).follows(mount, events[i], secs)
    &&& forall|i: int| 0 < i < events.len() ==> reports(#[trigger] events[i], actions[i - 1])
}

/// However a takedown goes, its mount is detached first, then its downloads are asked to stop, then
/// the path is checked, and the directory is removed only where the path was found to be no mount
/// point any more. It never takes more than five steps.
pub proof fn takedowns_go_in_order(
    mount: MountView,
    secs: u64,
    events: Seq<TakedownEvent>,
    actions: Seq<TakedownAction>,
)
    requires
        is_takedown(mount, secs, events, actions),
    ensures
        actions.len() <= 5,
        actions[0] is Detach,
        actions.len() > 1 ==> actions[1] is StopFills,
        actions.len() > 2 ==> actions[2] is Wait,
        forall|i: int|
            0 <= i < actions.len() && #[trigger] actions[i] is Remove ==> i == 3 && events[3]
                == (TakedownEvent::Waited { gone: true }),
        forall|i: int| 0 <= i < actions.len() && #[trigger] actions[i] is Done ==> i == actions.len() - 1,
{
    assert(actions[0].follows(mount, events[0], secs));
    if actions.len() > 1 {
        assert(reports(events[1], actions[0]));
        assert(actions[1].follows(mount, events[1], secs));
    }
    if actions.len() > 2 {
        assert(reports(events[2], actions[1]));
        assert(actions[2].follows(mount, events[2], secs));
    }
    if actions.len() > 3 {
        assert(reports(events[3], actions[2]));
        assert(actions[3].follows(mount, events[3], secs));
    }
    if actions.len() > 4 {
        assert(reports(events[4], actions[3]));
        assert(actions[4].follows(mount, events[4], secs));
    }
    if actions.len() > 5 {
        assert(reports(events[5], actions[4]));
    }
}

/// A device that is mounted is taken down by a departure of the same key, at the path where it was
/// mounted, and by nothing else.
pub proof fn departures_find_their_mount(state: SupervisorView, ident: IdentView)
    requires
        sorted(state.keys()),
        !state.is_mounted(ident.key),
    ensures
        state.with_mount(ident).is_mounted(ident.key),
        state.with_mount(ident).mount_of(ident.key) == state.mount_for(ident),
        state.with_mount(ident).without_mount(ident.key) == state,
        forall|other: Seq<char>|
            other != ident.key ==> (#[trigger] state.with_mount(ident).is_mounted(other)
                <==> state.is_mounted(other)),
{
    let keys = state.keys();
    let after = state.with_mount(ident);
    sorted_keys_are_found(keys, ident.key);
    sorted_keys_stay_sorted(keys, ident.key);
    assert(after.keys() =~= insert_key(keys, ident.key));
    assert(after.keys()[slot(keys, ident.key)] == ident.key);
    lemma_unique_place(after.keys(), slot(keys, ident.key));
    assert(after.without_mount(ident.key).mounts =~= state.mounts);
    assert forall|other: Seq<char>| other != ident.key implies (#[trigger] after.is_mounted(other)
        <==> state.is_mounted(other)) by {
        assert(after.keys().to_set().contains(other) <==> keys.to_set().insert(
            ident.key,
        ).contains(other));
    }
}

/// Taking down what is mounted under a key leaves nothing mounted there, and every other mount as
/// it was.
pub proof fn other_mounts_stay(state: SupervisorView, key: Seq<char>, other: Seq<char>)
    requires
        sorted(state.keys()),
        state.is_mounted(key),
    ensures
        !state.without_mount(key).is_mounted(key),
        other != key ==> (state.without_mount(key).is_mounted(other) <==> state.is_mounted(other)),
        other != key && state.is_mounted(other) ==> state.without_mount(key).mount_of(other)
            == state.mount_of(other),
{
    let keys = state.keys();
    let after = state.without_mount(key);
    sorted_keys_stay_sorted(keys, key);
    assert(after.keys() =~= drop_key(keys, key));
    assert(after.keys().to_set().contains(key) <==> keys.to_set().remove(key).contains(key));
    assert(after.keys().to_set().contains(other) <==> keys.to_set().remove(key).contains(other));
    if other != key && state.is_mounted(other) {
        let k = keys.index_of(key);
        let i = keys.index_of(other);
        let place = if i < k {
            i
        } else {
            i - 1
        };
        assert(after.keys()[place] == other);
        lemma_unique_place(after.keys(), place);
    }
}

proof fn lemma_unique_place(keys: Seq<Seq<char>>, i: int)
    requires
        sorted(keys),
        0 <= i < keys.len(),
    ensures
        keys.index_of(keys[i]) == i,
{
    let j = keys.index_of(keys[i]);
    assert(keys.contains(keys[i]));
    crate::daemon::keys::lemma_irreflexive(keys[i]);
}

/// Mounting and unmounting keep the mounts sorted, one per key.
pub proof fn mounts_stay_sorted(state: SupervisorView, ident: IdentView)
    requires
        sorted(state.keys()),
    ensures
        sorted(state.with_mount(ident).keys()),
        state.is_mounted(ident.key) ==> sorted(state.without_mount(ident.key).keys()),
{
    let keys = state.keys();
    sorted_keys_stay_sorted(keys, ident.key);
    if state.is_mounted(ident.key) {
        assert(state.with_mount(ident).keys() =~= keys);
        assert(state.without_mount(ident.key).keys() =~= drop_key(keys, ident.key));
    } else {
        sorted_keys_are_found(keys, ident.key);
        assert(state.with_mount(ident).keys() =~= insert_key(keys, ident.key));
    }
}

/// Where a device is mounted: in the directory of its key below the mount root, under its own label.
pub proof fn devices_are_mounted_by_their_key(state: SupervisorView, ident: IdentView)
    ensures
        state.mount_for(ident).key == ident.key,
        state.mount_for(ident).label == ident.label,
        state.mount_for(ident).path == path_join(state.config.mount_root@, ident.key),
{
}

/// What taking down a key comes to: the mount that has that key is handed out, with the reason, and is
/// mounted no more; where there is none, nothing changes.
pub proof fn takedowns_hand_out_the_mount(
    state: SupervisorView,
    after: SupervisorView,
    key: Seq<char>,
    reason: Seq<char>,
    step: SupervisorStep,
)
    requires
        sorted(state.keys()),
        state.takes_down(after, key, reason, step),
    ensures
        (exists|i: int| 0 <= i < state.mounts.len() && (#[trigger] state.mounts[i]).key == key) ==> {
            &&& step matches SupervisorStep::Unmount { mount, reason: r } && mount@.key == key && r@
                == reason && state.mounts.contains(mount@)
            &&& forall|i: int|
                0 <= i < after.mounts.len() ==> (#[trigger] after.mounts[i]).key != key
            &&& after.mounts.len() == state.mounts.len() - 1
        },
        (forall|i: int| 0 <= i < state.mounts.len() ==> (#[trigger] state.mounts[i]).key != key)
            ==> step is NothingMounted && after == state,
        after.config == state.config,
{
    let keys = state.keys();
    if exists|i: int| 0 <= i < state.mounts.len() && (#[trigger] state.mounts[i]).key == key {
        let i = choose|i: int| 0 <= i < state.mounts.len() && (#[trigger] state.mounts[i]).key == key;
        assert(keys[i] == key);
        assert(state.is_mounted(key));
        other_mounts_stay(state, key, key);
        let k = keys.index_of(key);
        assert(state.mounts[k].key == keys[k]);
        assert(state.mounts.contains(state.mounts[k]));
        assert forall|j: int| 0 <= j < after.mounts.len() implies (#[trigger] after.mounts[j]).key
            != key by {
            assert(after.keys()[j] == after.mounts[j].key);
            if after.mounts[j].key == key {
                assert(after.keys().contains(key));
            }
        }
    } else {
        assert(!keys.contains(key)) by {
            if keys.contains(key) {
                let k = keys.index_of(key);
                assert(state.mounts[k].key == key);
            }
        }
    }
}

/// What is said while a mount is taken down: nothing where a step went well; otherwise which mount it
/// was, and why. The downloads get five seconds to end, and the path as long as was asked for.
pub proof fn takedowns_tell_what_failed(
    action: TakedownAction,
    mount: MountView,
    event: TakedownEvent,
    secs: u64,
)
    requires
        action.follows(mount, event, secs),
    ensures
        match event {
            TakedownEvent::Begin => true,
            TakedownEvent::Detached(detached) => action matches TakedownAction::StopFills {
                complaint: said,
                secs: s,
            } && s == 5 && (said is Some <==> detached is Err) && (detached matches Err(why)
                ==> said.unwrap()@ == "Can't unmount "@ + mount.path + ": "@ + why@),
            TakedownEvent::FillsStopped(stopped) => action matches TakedownAction::Wait {
                complaint: said,
                secs: s,
            } && s == secs && (said is Some <==> !stopped),
            TakedownEvent::Waited { gone } => !gone ==> (action matches TakedownAction::Done {
                complaint: said,
            } && said is Some && mount.path.len() <= said.unwrap()@.len() && said.unwrap()@.take(
                mount.path.len() as int,
            ) == mount.path),
            TakedownEvent::Removed(removed) => action matches TakedownAction::Done {
                complaint: said,
            } && (said is Some <==> removed is Err) && (removed matches Err(why)
                ==> said.unwrap()@ == "Unmounted "@ + mount.label + ", but "@ + mount.path
                + " is still there: "@ + why@),
        },
{
    if event == (TakedownEvent::Waited { gone: false }) {
        let text = still_mounted_text(mount.path, secs);
        assert(text.take(mount.path.len() as int) =~= mount.path);
    }
}

} // verus!
