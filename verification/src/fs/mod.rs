//! The filesystem's rules.
use crate::device::UnplugSwitch;
use crate::fs::state::StorageFacts;
use crate::reconnect::ReconnectPolicy;
use crate::text::{decimal, push_decimal};
use vstd::prelude::*;

pub mod attr;
pub mod datetime;
pub mod errno;
pub mod events;
pub mod laws;
pub mod operation;
pub mod ops;
pub mod protocol;
pub mod read;
pub mod read_run;
pub mod readdir;
pub mod recovery;
pub mod rename;
pub mod session;
pub mod spooled;
pub mod state;
pub mod upload;
pub mod walk;

verus! {

/// How much of a spool file an upload holds in memory at a time.
pub const UPLOAD_CHUNK: usize = 65536;

/// Default ceiling on the whole-object fallback: the largest object a responder with no
/// partial-read operation will be read for without being asked twice.
///
/// The bound is not about what the device can do, it's about what a background process can do to
/// you. A fill holds the device's one session for the entire transfer, and every other process on
/// the mount waits behind it. No value avoids that, so this caps the damage rather than preventing
/// it, and `--full-download-limit` is how someone who *means* to copy a big file lifts it.
pub const DEFAULT_FULL_DOWNLOAD_LIMIT: u64 = 4 * 1024 * 1024 * 1024;

/// Everything the mount needs beyond the device itself.
#[derive(Debug)]
pub struct MtpFsConfig {
    pub read_only: bool,
    /// Disk-backed directory for write spools and read caches (see [`crate::spool`]).
    pub spool_dir: String,
    /// How long to wait for a device that went away.
    pub reconnect: ReconnectPolicy,
    /// Ceiling on the whole-object read fallback, in bytes. `0` lifts it. See
    /// [`DEFAULT_FULL_DOWNLOAD_LIMIT`].
    pub full_download_limit: u64,
    /// The pretend cable (tests only).
    pub unplug: UnplugSwitch,
}

/// How a read gets its bytes, decided per object.
#[derive(Debug, Clone, Copy, PartialEq, Eq, Structural)]
pub enum ReadStrategy {
    /// The responder has a partial-read op: fetch just the missing ranges.
    Ranged,
    /// No partial-read op: one whole-object stream fills the cache as it lands.
    SequentialFull,
    /// No partial-read op and the object is over the limit, so reading it would mean an unbounded
    /// hold on the session that nobody asked for.
    TooLargeForSequentialFull,
}

/// The read path for an object. `limit` of `0` means no ceiling.
pub open spec fn strategy_for(
    supports_partial_download: bool,
    object_size: u64,
    limit: u64,
) -> ReadStrategy {
    if supports_partial_download {
        ReadStrategy::Ranged
    } else if limit == 0 || object_size <= limit {
        ReadStrategy::SequentialFull
    } else {
        ReadStrategy::TooLargeForSequentialFull
    }
}

/// Pick the read path. `limit` of `0` means no ceiling.
pub fn read_strategy(supports_partial_download: bool, object_size: u64, limit: u64) -> (strategy:
    ReadStrategy)
    ensures
        strategy == strategy_for(supports_partial_download, object_size, limit),
{
    if supports_partial_download {
        ReadStrategy::Ranged
    } else if limit == 0 || object_size <= limit {
        ReadStrategy::SequentialFull
    } else {
        ReadStrategy::TooLargeForSequentialFull
    }
}

/// The name a storage shows up under in the mount: its description, or its number where it has
/// none.
pub open spec fn shown_name(storage: crate::fs::state::StorageView) -> Seq<char> {
    if storage.description.len() == 0 {
        "Storage_"@ + decimal(storage.id.0 as nat)
    } else {
        storage.description
    }
}

/// The name a storage shows up under in the mount.
pub fn storage_name(storage: &StorageFacts) -> (name: String)
    ensures
        name@ == shown_name(storage@),
{
    if storage.description.as_str().unicode_len() == 0 {
        let mut name = "Storage_".to_string();
        push_decimal(&mut name, storage.id.0);
        name
    } else {
        storage.description.clone()
    }
}

/// The temporary name a safe flush uploads under before renaming into place.
pub open spec fn temp_name(name: Seq<char>) -> Seq<char> {
    ".~tmp~"@ + name
}

/// The temporary name a safe flush uploads under before renaming into place.
pub fn temp_upload_name(name: &str) -> (temp: String)
    ensures
        temp@ == temp_name(name@),
{
    let mut temp = ".~tmp~".to_string();
    temp.append(name);
    temp
}

/// An option that the filesystem is mounted with.
#[derive(Debug)]
pub enum MountOption {
    FSName(String),
    Subtype(String),
    DefaultPermissions,
    NoDev,
    NoSuid,
    RO,
    RW,
}

/// A [`MountOption`], with names as sequences of characters.
#[verifier::ext_equal]
pub enum OptionView {
    FSName(Seq<char>),
    Subtype(Seq<char>),
    DefaultPermissions,
    NoDev,
    NoSuid,
    RO,
    RW,
}

impl View for MountOption {
    type V = OptionView;

    open spec fn view(&self) -> OptionView {
        match self {
            MountOption::FSName(name) => OptionView::FSName(name@),
            MountOption::Subtype(name) => OptionView::Subtype(name@),
            MountOption::DefaultPermissions => OptionView::DefaultPermissions,
            MountOption::NoDev => OptionView::NoDev,
            MountOption::NoSuid => OptionView::NoSuid,
            MountOption::RO => OptionView::RO,
            MountOption::RW => OptionView::RW,
        }
    }
}

/// The options that the filesystem is mounted with.
pub fn mount_options(read_only: bool) -> (options: Vec<MountOption>)
    ensures
        Seq::new(options@.len(), |i: int| options@[i]@) == seq![
            OptionView::FSName("mtp-mount"@),
            OptionView::Subtype("mtp"@),
            OptionView::DefaultPermissions,
            OptionView::NoDev,
            OptionView::NoSuid,
            if read_only {
                OptionView::RO
            } else {
                OptionView::RW
            },
        ],
{
    let mut options: Vec<MountOption> = Vec::new();
    options.push(MountOption::FSName("mtp-mount".to_string()));
    options.push(MountOption::Subtype("mtp".to_string()));
    options.push(MountOption::DefaultPermissions);
    options.push(MountOption::NoDev);
    options.push(MountOption::NoSuid);
    options.push(
        if read_only {
            MountOption::RO
        } else {
            MountOption::RW
        },
    );
    options
}

/// A storage is shown under its description, or under its number where it has none; so storages of
/// different numbers without a description are told apart.
pub proof fn storages_are_shown_by_description_or_number(storage: crate::fs::state::StorageView)
    ensures
        storage.description.len() > 0 ==> shown_name(storage) == storage.description,
        storage.description.len() == 0 ==> shown_name(storage).len() > 8 && shown_name(
            storage,
        ).take(8) == "Storage_"@ && crate::size::decimal_value(shown_name(storage).skip(8))
            == storage.id.0,
{
    reveal_strlit("Storage_");
    let number = decimal(storage.id.0 as nat);
    crate::size::lemma_numeral(storage.id.0 as nat);
    if storage.description.len() == 0 {
        assert(shown_name(storage).take(8) =~= "Storage_"@);
        assert(shown_name(storage).skip(8) =~= number);
    }
}

/// A temporary name is never the name itself, it starts with a dot, and it tells which name it
/// stands for.
pub proof fn temporary_names_tell_their_file(a: Seq<char>, b: Seq<char>)
    ensures
        temp_name(a) != a,
        temp_name(a).len() == a.len() + 6,
        temp_name(a).skip(6) == a,
        temp_name(a)[0] == '.',
        temp_name(a) == temp_name(b) ==> a == b,
{
    reveal_strlit(".~tmp~");
    assert(temp_name(a).skip(6) =~= a);
    assert(temp_name(b).skip(6) =~= b);
}

} // verus!
