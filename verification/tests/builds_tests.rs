use chromium_fetch::builds::{
    builds_from_listing, format_prefix, get_download_uri, listing_uri, BuildSpecification,
};
use chromium_fetch::text::{join_with, parse_u64, str_eq, u64_to_decimal};

fn asan_linux_spec() -> BuildSpecification {
    BuildSpecification {
        build_type: String::from("asan"),
        platform: String::from("linux"),
        debugness: String::from("release"),
        bitness_suffix: None,
    }
}

fn asan_win_spec() -> BuildSpecification {
    BuildSpecification {
        build_type: String::from("asan"),
        platform: String::from("win32"),
        debugness: String::from("release"),
        bitness_suffix: Some(String::from("_x64")),
    }
}

#[test]
fn prefix_without_bitness() {
    assert_eq!(format_prefix(&asan_linux_spec(), "123"), "linux-release/asan-linux-release-123");
    assert_eq!(format_prefix(&asan_linux_spec(), ""), "linux-release/asan-linux-release-");
}

#[test]
fn prefix_with_bitness_suffix() {
    assert_eq!(
        format_prefix(&asan_win_spec(), "123"),
        "win32-release_x64/asan-win32-release_x64-123"
    );
}

#[test]
fn listing_uri_names_bucket_and_prefix() {
    assert_eq!(
        listing_uri(&asan_linux_spec(), "48"),
        "https://commondatastorage.googleapis.com/chromium-browser-asan/?prefix=linux-release/asan-linux-release-48"
    );
}

#[test]
fn download_uri_is_escaped_and_zipped() {
    assert_eq!(
        get_download_uri(&asan_linux_spec(), 100),
        "https://chromium-browser-asan.storage.googleapis.com/linux-release%2Fasan-linux-release-100.zip"
    );
}

#[test]
fn listing_keys_parse_to_versions() {
    let keys = vec![
        String::from("linux-release/asan-linux-release-4700.zip"),
        String::from("linux-release/asan-linux-release-4825.zip"),
    ];
    assert_eq!(builds_from_listing(&asan_linux_spec(), &keys), vec![4700, 4825]);
}

#[test]
fn malformed_listing_keys_are_discarded() {
    let keys = vec![
        String::from("linux-release/asan-linux-release-4700.zip"),
        String::from("linux-release/asan-linux-release-notes.zip"),
        String::from("unrelated-object"),
        String::from(""),
        String::from("linux-release/asan-linux-release-.zip"),
        String::from("linux-release/asan-linux-release-99999999999999999999999.zip"),
        String::from("linux-release/asan-linux-release-4825.zip"),
    ];
    assert_eq!(builds_from_listing(&asan_linux_spec(), &keys), vec![4700, 4825]);
}

#[test]
fn duplicate_versions_are_listed_once() {
    let keys = vec![
        String::from("linux-release/asan-linux-release-4700.zip"),
        String::from("linux-release/asan-linux-release-4700.zip"),
    ];
    assert_eq!(builds_from_listing(&asan_linux_spec(), &keys), vec![4700]);
}

#[test]
fn decimal_rendering_is_exact() {
    assert_eq!(u64_to_decimal(0), "0");
    assert_eq!(u64_to_decimal(7), "7");
    assert_eq!(u64_to_decimal(4821), "4821");
    assert_eq!(u64_to_decimal(u64::MAX), "18446744073709551615");
}

#[test]
fn decimal_parsing_is_exact() {
    assert_eq!(parse_u64("0"), Some(0));
    assert_eq!(parse_u64("4821"), Some(4821));
    assert_eq!(parse_u64("00123"), Some(123));
    assert_eq!(parse_u64(""), None);
    assert_eq!(parse_u64("12a"), None);
    assert_eq!(parse_u64("-5"), None);
    assert_eq!(parse_u64("18446744073709551615"), Some(u64::MAX));
    assert_eq!(parse_u64("18446744073709551616"), None);
}

#[test]
fn string_equality_is_by_contents() {
    assert!(str_eq("abc", "abc"));
    assert!(!str_eq("abc", "abd"));
    assert!(!str_eq("abc", "ab"));
    assert!(str_eq("", ""));
}

#[test]
fn joining_labels() {
    assert_eq!(join_with(&vec![String::from("a"), String::from("b")], "_"), "a_b");
    assert_eq!(join_with(&vec![String::from("solo")], "_"), "solo");
    assert_eq!(join_with(&Vec::new(), "_"), "");
}
