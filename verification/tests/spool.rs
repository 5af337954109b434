use mtp_mount::spool::{join_path, resolve_spool_dir, spool_error, CacheConvention};

#[test]
fn xdg_cache_home_wins_when_set() {
    let dir = resolve_spool_dir(
        None,
        Some("/cache"),
        Some("/home/dave"),
        CacheConvention::Xdg,
    )
    .unwrap();
    assert_eq!(dir, "/cache/mtp-mount/spool");
}

#[test]
fn xdg_unset_falls_back_to_home_cache() {
    let dir = resolve_spool_dir(None, None, Some("/home/dave"), CacheConvention::Xdg).unwrap();
    assert_eq!(dir, "/home/dave/.cache/mtp-mount/spool");
}

#[test]
fn empty_xdg_counts_as_unset() {
    let dir =
        resolve_spool_dir(None, Some(""), Some("/home/dave"), CacheConvention::Xdg).unwrap();
    assert_eq!(dir, "/home/dave/.cache/mtp-mount/spool");
}

#[test]
fn override_wins_over_env() {
    let dir = resolve_spool_dir(
        Some("/mnt/scratch"),
        Some("/cache"),
        Some("/home/dave"),
        CacheConvention::Xdg,
    )
    .unwrap();
    assert_eq!(dir, "/mnt/scratch");
}

#[test]
fn macos_uses_library_caches_and_ignores_xdg() {
    let dir = resolve_spool_dir(
        None,
        Some("/cache"),
        Some("/Users/dave"),
        CacheConvention::MacOs,
    )
    .unwrap();
    assert_eq!(dir, "/Users/dave/Library/Caches/mtp-mount/spool");
}

#[test]
fn no_home_and_no_xdg_errors() {
    let err = resolve_spool_dir(None, None, None, CacheConvention::Xdg).unwrap_err();
    assert!(err.message().contains("--spool-dir"));

    let err = resolve_spool_dir(None, Some("/cache"), None, CacheConvention::MacOs).unwrap_err();
    assert!(err.message().contains("--spool-dir"));
}

#[test]
fn the_missing_variables_are_named() {
    let err = resolve_spool_dir(None, None, None, CacheConvention::Xdg).unwrap_err();
    assert_eq!(
        err.message(),
        "can't find a cache directory: neither $XDG_CACHE_HOME nor $HOME is set. \
         Pass --spool-dir to say where writes should be spooled."
    );
    let err = resolve_spool_dir(None, None, Some(""), CacheConvention::MacOs).unwrap_err();
    assert_eq!(
        err.message(),
        "can't find a cache directory: $HOME is not set. \
         Pass --spool-dir to say where writes should be spooled."
    );
}

#[test]
fn a_trailing_slash_is_not_doubled() {
    let dir = resolve_spool_dir(None, Some("/cache/"), None, CacheConvention::Xdg).unwrap();
    assert_eq!(dir, "/cache/mtp-mount/spool");
}

#[test]
fn the_convention_follows_the_platform() {
    assert_eq!(CacheConvention::current("macos"), CacheConvention::MacOs);
    assert_eq!(CacheConvention::current("linux"), CacheConvention::Xdg);
}

#[test]
fn a_spool_failure_names_the_path() {
    assert_eq!(
        spool_error("/mnt/x", "Not a directory").message(),
        "can't use the spool directory /mnt/x: Not a directory. \
         Pass --spool-dir to point it at a writable directory on disk."
    );
}

#[test]
fn a_path_from_the_root_is_joined_to_nothing() {
    for (base, name) in [
        ("/run", "/abc"),
        ("/run", "abc"),
        ("/run/", "abc"),
        ("", "abc"),
        ("/run", ""),
        ("/run", "/"),
        ("/run", "a/b"),
    ] {
        let joined = std::path::Path::new(base).join(name);
        assert_eq!(join_path(base, name), joined.to_str().unwrap(), "{base} {name}");
    }
}
