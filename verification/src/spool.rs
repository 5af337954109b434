//! Where writes and read caches are spooled.
//!
//! Temp files are backed with real disk, never `$TMPDIR`: on most current Linux distros `/tmp` is a
//! tmpfs, so spooling a multi-gigabyte upload there fills RAM and gets the process stopped by the
//! OOM killer. The spool lives under the user's cache directory instead.
use crate::error::MountError;
use crate::text::same_text;
use vstd::prelude::*;

verus! {

/// Cache-directory convention to follow when no explicit spool dir is given.
#[derive(Debug, Clone, Copy, PartialEq, Eq, Structural)]
pub enum CacheConvention {
    /// XDG base directories: `$XDG_CACHE_HOME`, else `$HOME/.cache`.
    Xdg,
    /// macOS: `$HOME/Library/Caches`.
    MacOs,
}

impl CacheConvention {
    /// The convention for a platform, by the name of its operating system.
    pub fn current(os: &str) -> (convention: Self)
        ensures
            convention == if os@ == "macos"@ {
                CacheConvention::MacOs
            } else {
                CacheConvention::Xdg
            },
    {
        if same_text(os, "macos") {
            CacheConvention::MacOs
        } else {
            CacheConvention::Xdg
        }
    }
}

/// The path `name`, seen from the directory `base`. One that starts at the root stays what it is.
pub open spec fn path_join(base: Seq<char>, name: Seq<char>) -> Seq<char> {
    if name.len() > 0 && name[0] == '/' {
        name
    } else if base.len() == 0 || base.last() == '/' {
        base + name
    } else {
        base + "/"@ + name
    }
}

/// The path `name`, seen from the directory `base`. One that starts at the root stays what it is.
pub fn join_path(base: &str, name: &str) -> (path: String)
    ensures
        path@ == path_join(base@, name@),
{
    if name.unicode_len() > 0 && name.get_char(0) == '/' {
        return name.to_string();
    }
    let mut path = base.to_string();
    let len: usize = base.unicode_len();
    if len > 0 && base.get_char(len - 1) != '/' {
        path.append("/");
    }
    path.append(name);
    path
}

/// A value of the environment; an empty one counts as unset.
pub open spec fn set_value(v: Option<&str>) -> Option<Seq<char>> {
    match v {
        Some(s) => if s@.len() == 0 {
            None
        } else {
            Some(s@)
        },
        None => None,
    }
}

/// A value of the environment; an empty one counts as unset.
pub(crate) fn non_empty<'a>(v: Option<&'a str>) -> (set: Option<&'a str>)
    ensures
        match set {
            Some(s) => set_value(v) == Some(s@),
            None => set_value(v) is None,
        },
{
    match v {
        Some(s) => if s.unicode_len() == 0 {
            None
        } else {
            Some(s)
        },
        None => None,
    }
}

/// The user's cache directory, where the environment says enough to tell.
pub open spec fn cache_base(
    xdg_cache_home: Option<Seq<char>>,
    home: Option<Seq<char>>,
    convention: CacheConvention,
) -> Option<Seq<char>> {
    match convention {
        CacheConvention::MacOs => match home {
            Some(h) => Some(path_join(path_join(h, "Library"@), "Caches"@)),
            None => None,
        },
        CacheConvention::Xdg => match (xdg_cache_home, home) {
            (Some(xdg), _) => Some(xdg),
            (None, Some(h)) => Some(path_join(h, ".cache"@)),
            (None, None) => None,
        },
    }
}

/// The user's cache directory, where the environment says enough to tell.
pub(crate) fn cache_dir(
    xdg_cache_home: Option<&str>,
    home: Option<&str>,
    convention: CacheConvention,
) -> (dir: Option<String>)
    ensures
        match (dir, cache_base(set_value(xdg_cache_home), set_value(home), convention)) {
            (Some(d), Some(base)) => d@ == base,
            (None, None) => true,
            _ => false,
        },
{
    match convention {
        CacheConvention::MacOs => match non_empty(home) {
            Some(h) => Some(join_path(join_path(h, "Library").as_str(), "Caches")),
            None => None,
        },
        CacheConvention::Xdg => match non_empty(xdg_cache_home) {
            Some(xdg) => Some(xdg.to_string()),
            None => match non_empty(home) {
                Some(h) => Some(join_path(h, ".cache")),
                None => None,
            },
        },
    }
}

/// What is said where there is no cache directory to spool in.
pub open spec fn no_spool_text(convention: CacheConvention) -> Seq<char> {
    match convention {
        CacheConvention::MacOs => "can't find a cache directory: $HOME is not set. Pass --spool-dir to say where writes should be spooled."@,
        CacheConvention::Xdg => "can't find a cache directory: neither $XDG_CACHE_HOME nor $HOME is set. Pass --spool-dir to say where writes should be spooled."@,
    }
}

/// Resolve the spool directory from an optional override and the environment. Empty env values
/// count as unset.
///
/// - `override_dir`: the `--spool-dir` flag, wins over everything.
/// - `xdg_cache_home`: `$XDG_CACHE_HOME` (ignored under [`CacheConvention::MacOs`]).
/// - `home`: `$HOME`.
pub fn resolve_spool_dir(
    override_dir: Option<&str>,
    xdg_cache_home: Option<&str>,
    home: Option<&str>,
    convention: CacheConvention,
) -> (dir: Result<String, MountError>)
    ensures
        match override_dir {
            Some(chosen) => dir matches Ok(d) && d@ == chosen@,
            None => match cache_base(set_value(xdg_cache_home), set_value(home), convention) {
                Some(base) => dir matches Ok(d) && d@ == path_join(
                    path_join(base, "mtp-mount"@),
                    "spool"@,
                ),
                None => dir matches Err(MountError::Other(message)) && message@ == no_spool_text(
                    convention,
                ),
            },
        },
{
    if let Some(chosen) = override_dir {
        return Ok(chosen.to_string());
    }
    match cache_dir(xdg_cache_home, home, convention) {
        Some(base) => Ok(join_path(join_path(base.as_str(), "mtp-mount").as_str(), "spool")),
        None => Err(
            MountError::Other(
                match convention {
                    CacheConvention::MacOs => "can't find a cache directory: $HOME is not set. Pass --spool-dir to say where writes should be spooled.".to_string(),
                    CacheConvention::Xdg => "can't find a cache directory: neither $XDG_CACHE_HOME nor $HOME is set. Pass --spool-dir to say where writes should be spooled.".to_string(),
                },
            ),
        ),
    }
}

/// What is said of a spool directory that cannot be used.
pub open spec fn spool_error_text(dir: Seq<char>, source: Seq<char>) -> Seq<char> {
    "can't use the spool directory "@ + dir + ": "@ + source
        + ". Pass --spool-dir to point it at a writable directory on disk."@
}

/// The error for a spool directory that cannot be used, naming the path: silently falling back to
/// `$TMPDIR` would put the spool back in RAM where nobody would notice.
pub fn spool_error(dir: &str, source: &str) -> (error: MountError)
    ensures
        error matches MountError::Other(message) && message@ == spool_error_text(dir@, source@),
{
    let mut message = "can't use the spool directory ".to_string();
    message.append(dir);
    message.append(": ");
    message.append(source);
    message.append(". Pass --spool-dir to point it at a writable directory on disk.");
    MountError::Other(message)
}

/// A path that starts at the root is itself wherever it is seen from. Any other is below the
/// directory, with exactly one slash between the two.
pub proof fn paths_are_joined_by_one_slash(base: Seq<char>, name: Seq<char>)
    ensures
        ({
            let path = path_join(base, name);
            &&& name.len() > 0 && name[0] == '/' ==> path == name
            &&& !(name.len() > 0 && name[0] == '/') ==> {
                &&& path.take(base.len() as int) == base
                &&& path.skip(path.len() - name.len()) == name
                &&& base.len() == 0 || base.last() == '/' ==> path.len() == base.len() + name.len()
                &&& base.len() > 0 && base.last() != '/' ==> path.len() == base.len() + 1
                    + name.len() && path[base.len() as int] == '/'
            }
        }),
{
    reveal_strlit("/");
    let path = path_join(base, name);
    if !(name.len() > 0 && name[0] == '/') {
        assert(path.take(base.len() as int) =~= base);
        assert(path.skip(path.len() - name.len()) =~= name);
    }
}

/// Where the user's cache is: on macOS below the home directory; elsewhere where the environment says,
/// or else below the home directory. Without either there is none.
pub proof fn caches_are_where_the_platform_has_them(
    xdg: Option<Seq<char>>,
    home: Option<Seq<char>>,
)
    ensures
        cache_base(xdg, None, CacheConvention::MacOs) is None,
        cache_base(xdg, home, CacheConvention::MacOs) == cache_base(
            None,
            home,
            CacheConvention::MacOs,
        ),
        home matches Some(h) ==> cache_base(xdg, home, CacheConvention::MacOs) == Some(
            path_join(path_join(h, "Library"@), "Caches"@),
        ),
        xdg matches Some(x) ==> cache_base(xdg, home, CacheConvention::Xdg) == Some(x),
        xdg is None && home is None ==> cache_base(xdg, home, CacheConvention::Xdg) is None,
        home matches Some(h) ==> cache_base(None, home, CacheConvention::Xdg) == Some(
            path_join(h, ".cache"@),
        ),
{
}

/// A value of the environment counts as set where it is there and not empty.
pub proof fn empty_values_count_as_unset(value: Option<&str>)
    ensures
        set_value(value) is Some <==> value is Some && value->0@.len() > 0,
        set_value(value) matches Some(s) ==> s == value->0@,
{
}

} // verus!
