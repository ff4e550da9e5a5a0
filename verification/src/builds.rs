//! The build artifact naming scheme: object-store name prefixes, listing
//! queries, and parsing listed object keys back into numeric build versions.

use indexmap::IndexSet;
use vstd::prelude::*;

use crate::collections::{build_set_insert, build_set_items, build_set_new, build_set_to_vec};
use crate::text::{all_digits, decimal_rep, decimal_value, parse_u64, u64_to_decimal};

verus! {

/// Immutable descriptor of the artifact family to fetch: build variant
/// (e.g. a sanitizer flavor), target platform, debug/release mode, and an
/// optional platform-specific bitness suffix. It fully determines the name
/// prefix used for every listing and download operation of a run.
pub struct BuildSpecification {
    pub build_type: String,
    pub platform: String,
    pub debugness: String,
    pub bitness_suffix: Option<String>,
}

/// The bitness suffix as a character sequence; empty when absent.
pub open spec fn bitness_seq(s: BuildSpecification) -> Seq<char> {
    match s.bitness_suffix {
        Some(b) => b@,
        None => Seq::empty(),
    }
}

/// The object-name prefix for a given version string:
/// `{platform}-{debugness}{bitness}/{build_type}-{platform}-{debugness}{bitness}-{version}`.
pub open spec fn spec_prefix(s: BuildSpecification, version: Seq<char>) -> Seq<char> {
    s.platform@ + "-"@ + s.debugness@ + bitness_seq(s) + "/"@ + s.build_type@ + "-"@ + s.platform@
        + "-"@ + s.debugness@ + bitness_seq(s) + "-"@ + version
}

/// Renders the object-name prefix that selects all artifacts of this
/// specification whose version starts with `version`.
pub fn format_prefix(specification: &BuildSpecification, version: &str) -> (r: String)
    ensures
        r@ == spec_prefix(*specification, version@),
{
    let mut r = String::new();
    r.append(specification.platform.as_str());
    r.append("-");
    r.append(specification.debugness.as_str());
    match &specification.bitness_suffix {
        Some(b) => r.append(b.as_str()),
        None => (),
    }
    r.append("/");
    r.append(specification.build_type.as_str());
    r.append("-");
    r.append(specification.platform.as_str());
    r.append("-");
    r.append(specification.debugness.as_str());
    match &specification.bitness_suffix {
        Some(b) => r.append(b.as_str()),
        None => (),
    }
    r.append("-");
    r.append(version);
    proof {
        assert(r@ =~= spec_prefix(*specification, version@));
    }
    r
}

/// The address of the object-store bucket that is listed and downloaded from.
pub open spec fn spec_bucket_uri() -> Seq<char> {
    "https://commondatastorage.googleapis.com/chromium-browser-asan/"@
}

/// The listing query for all artifacts of this specification whose version
/// starts with `version_prefix`: the bucket address with a prefix parameter.
pub fn listing_uri(specification: &BuildSpecification, version_prefix: &str) -> (r: String)
    ensures
        r@ == spec_bucket_uri() + "?prefix="@ + spec_prefix(*specification, version_prefix@),
{
    let mut r = String::from_str(
        "https://commondatastorage.googleapis.com/chromium-browser-asan/",
    );
    r.append("?prefix=");
    let prefix = format_prefix(specification, version_prefix);
    r.append(prefix.as_str());
    proof {
        assert(r@ =~= spec_bucket_uri() + "?prefix="@ + spec_prefix(
            *specification,
            version_prefix@,
        ));
    }
    r
}

/// The version number named by one listed object key: what remains after
/// stripping the fixed name prefix and the four-character archive suffix,
/// when that remainder is a parseable decimal number. Keys too short, or
/// whose remainder is not a number in range, name no version.
pub open spec fn key_version(key: Seq<char>, strip: nat) -> Option<u64> {
    if key.len() >= strip + 4 {
        let v = key.subrange(strip as int, key.len() - 4);
        if v.len() > 0 && all_digits(v) && decimal_value(v) <= u64::MAX {
            Some(decimal_value(v) as u64)
        } else {
            None
        }
    } else {
        None
    }
}

/// The versions named by a sequence of listed keys, in listing order,
/// unparseable keys discarded.
pub open spec fn versions_of_keys(keys: Seq<Seq<char>>, strip: nat) -> Seq<u64>
    decreases keys.len(),
{
    if keys.len() == 0 {
        Seq::empty()
    } else {
        let prev = versions_of_keys(keys.drop_last(), strip);
        match key_version(keys.last(), strip) {
            Some(v) => prev.push(v),
            None => prev,
        }
    }
}

/// A sequence with later repetitions of a value removed: each value keeps
/// only its first occurrence.
pub open spec fn dedup_first(s: Seq<u64>) -> Seq<u64>
    decreases s.len(),
{
    if s.len() == 0 {
        Seq::empty()
    } else {
        let prev = dedup_first(s.drop_last());
        if prev.contains(s.last()) {
            prev
        } else {
            prev.push(s.last())
        }
    }
}

/// The distinct versions named by the listed object keys of one listing
/// response, in listing order: each key is stripped of the specification's
/// fixed name prefix and the four-character archive suffix, and what remains
/// must parse as a number; keys too short or unparseable are discarded.
pub fn builds_from_listing(specification: &BuildSpecification, keys: &Vec<String>) -> (r: Vec<u64>)
    ensures
        r@ == dedup_first(
            versions_of_keys(
                keys@.map_values(|k: String| k@),
                spec_prefix(*specification, Seq::<char>::empty()).len() as nat,
            ),
        ),
{
    let ghost key_views = keys@.map_values(|k: String| k@);
    let empty_prefix = format_prefix(specification, "");
    proof {
        reveal_strlit("");
        assert(""@ =~= Seq::<char>::empty());
    }
    let strip = empty_prefix.unicode_len();
    let ghost strip_n = spec_prefix(*specification, Seq::<char>::empty()).len() as nat;
    let mut set: IndexSet<u64> = build_set_new();
    let mut i: usize = 0;
    while i < keys.len()
        invariant
            0 <= i <= keys@.len(),
            key_views == keys@.map_values(|k: String| k@),
            key_views.len() == keys@.len(),
            strip == strip_n,
            strip_n == spec_prefix(*specification, Seq::<char>::empty()).len(),
            build_set_items(set) == dedup_first(versions_of_keys(key_views.take(i as int), strip_n)),
        decreases keys.len() - i,
    {
        let key = &keys[i];
        let len = key.unicode_len();
        proof {
            assert(key_views.take(i + 1).drop_last() =~= key_views.take(i as int));
            assert(key_views.take(i + 1).last() == key_views[i as int]);
        }
        if strip <= usize::MAX - 4 && len >= strip + 4 {
            let digits = key.as_str().substring_char(strip, len - 4);
            match parse_u64(digits) {
                Some(v) => {
                    proof {
                        assert(key_version(key_views[i as int], strip_n) == Some(v));
                        let vs = versions_of_keys(key_views.take(i as int), strip_n);
                        assert(vs.push(v).drop_last() =~= vs);
                        assert(vs.push(v).last() == v);
                    }
                    build_set_insert(&mut set, v);
                },
                None => {
                    assert(key_version(key_views[i as int], strip_n) is None);
                },
            }
        } else {
            assert(key_version(key_views[i as int], strip_n) is None);
        }
        i = i + 1;
    }
    proof {
        assert(key_views.take(key_views.len() as int) =~= key_views);
    }
    build_set_to_vec(&set)
}

/// What `url_escape::encode_component` makes of a string: its percent-encoded
/// form, a function of the characters alone.
pub uninterp spec fn component_encoded(s: Seq<char>) -> Seq<char>;

/// Relies on url_escape::encode_component: percent-encodes everything but the
/// component-safe characters; the result depends on the input alone.
#[verifier::external_body]
fn encode_component(s: &str) -> (r: String)
    ensures
        r@ == component_encoded(s@),
{
    url_escape::encode_component(s).into_owned()
}

/// The address an artifact is downloaded from.
pub open spec fn spec_download_host() -> Seq<char> {
    "https://chromium-browser-asan.storage.googleapis.com/"@
}

/// The deterministic download address of a resolved build: the download host,
/// the percent-encoded object name of that version, and the archive suffix.
pub fn get_download_uri(specification: &BuildSpecification, version: u64) -> (r: String)
    ensures
        r@ == spec_download_host() + component_encoded(
            spec_prefix(*specification, decimal_rep(version as nat)),
        ) + ".zip"@,
{
    let digits = u64_to_decimal(version);
    let prefix = format_prefix(specification, digits.as_str());
    let encoded = encode_component(prefix.as_str());
    let mut r = String::from_str("https://chromium-browser-asan.storage.googleapis.com/");
    r.append(encoded.as_str());
    r.append(".zip");
    proof {
        assert(r@ =~= spec_download_host() + component_encoded(
            spec_prefix(*specification, decimal_rep(version as nat)),
        ) + ".zip"@);
    }
    r
}

} // verus!
