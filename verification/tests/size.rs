use mtp_mount::size::{format_size, parse_size};

#[test]
fn plain_numbers_are_bytes() {
    assert_eq!(parse_size("0"), Ok(0));
    assert_eq!(parse_size("1048576"), Ok(1024 * 1024));
    assert_eq!(parse_size("  4096  "), Ok(4096));
}

#[test]
fn suffixes_are_binary_and_case_insensitive() {
    assert_eq!(parse_size("1K"), Ok(1024));
    assert_eq!(parse_size("1kib"), Ok(1024));
    assert_eq!(parse_size("2M"), Ok(2 * 1024 * 1024));
    assert_eq!(parse_size("4G"), Ok(4 * 1024 * 1024 * 1024));
    assert_eq!(parse_size("4 gb"), Ok(4 * 1024 * 1024 * 1024));
    assert_eq!(parse_size("1T"), Ok(1024u64 * 1024 * 1024 * 1024));
}

#[test]
fn nonsense_says_what_to_type_instead() {
    assert!(parse_size("").unwrap_err().contains("4G"));
    assert!(parse_size("big")
        .unwrap_err()
        .contains("doesn't start with"));
    assert!(parse_size("4X").unwrap_err().contains("suffix"));
}

#[test]
fn a_size_that_cannot_fit_is_rejected_rather_than_wrapped() {
    assert!(parse_size("99999999999999999999")
        .unwrap_err()
        .contains("too big"));
    assert!(parse_size("18446744073709551615T")
        .unwrap_err()
        .contains("64-bit"));
}

#[test]
fn formatting_round_trips_through_the_parser() {
    for bytes in [0, 512, 4096, 4 * 1024 * 1024 * 1024] {
        let rendered = format_size(bytes);
        assert_eq!(parse_size(&rendered), Ok(bytes), "{rendered}");
    }
    assert_eq!(format_size(4 * 1024 * 1024 * 1024), "4 GiB");
    assert_eq!(format_size(1500), "1500 bytes");
}

#[test]
fn every_complaint_is_worded_for_its_mistake() {
    assert_eq!(
        parse_size(" ").unwrap_err(),
        "expected a size like 4G, 512M, or a number of bytes"
    );
    assert_eq!(
        parse_size(" big ").unwrap_err(),
        "'big' doesn't start with a number; try something like 4G or 512M"
    );
    assert_eq!(
        parse_size("4 XB").unwrap_err(),
        "'xb' isn't a size suffix I know; use K, M, G, or T (or leave it off for bytes)"
    );
    assert_eq!(
        parse_size("99999999999999999999").unwrap_err(),
        "'99999999999999999999' is too big to be a size in bytes"
    );
    assert_eq!(
        parse_size("18446744073709551615T").unwrap_err(),
        "'18446744073709551615T' is larger than a 64-bit byte count can hold"
    );
}

#[test]
fn the_largest_size_still_fits() {
    assert_eq!(parse_size("18446744073709551615"), Ok(u64::MAX));
    assert_eq!(parse_size("000012 bytes"), Ok(12));
    assert_eq!(parse_size("16777215 tib"), Ok(16777215 * 1024 * 1024 * 1024 * 1024));
    assert!(parse_size("16777216 tib").is_err());
    assert_eq!(format_size(u64::MAX), "18446744073709551615 bytes");
    assert_eq!(format_size(1 << 50), "1024 TiB");
    assert_eq!(format_size(0), "0 bytes");
}
