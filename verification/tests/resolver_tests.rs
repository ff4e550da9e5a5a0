use chromium_fetch::builds::BuildSpecification;
use chromium_fetch::orchestrate::FetchError;
use chromium_fetch::resolver::{
    best_version_at_or_below, find_a_build_just_before, ListingOutcome, ResolverSearch, SearchStep,
};

fn asan_linux_spec() -> BuildSpecification {
    BuildSpecification {
        build_type: String::from("asan"),
        platform: String::from("linux"),
        debugness: String::from("release"),
        bitness_suffix: None,
    }
}

#[test]
fn returns_nearest_version_at_or_below_target() {
    // The stub holds 4700 (<= target) and 4900 (> target): nothing between
    // 4700 and the target, so resolution must return exactly 4700.
    let outcomes = vec![
        ListingOutcome::Listed(vec![]),
        ListingOutcome::Listed(vec![]),
        ListingOutcome::Listed(vec![4700, 4900]),
    ];
    let r = find_a_build_just_before(&asan_linux_spec(), 4821, &outcomes);
    assert_eq!(r.unwrap(), 4700);
}

#[test]
fn first_usable_prefix_wins() {
    let outcomes = vec![
        ListingOutcome::Failed,
        ListingOutcome::Listed(vec![4810, 4825]),
        ListingOutcome::Listed(vec![4700]),
    ];
    let r = find_a_build_just_before(&asan_linux_spec(), 4821, &outcomes);
    assert_eq!(r.unwrap(), 4810);
}

#[test]
fn empty_listings_give_not_found() {
    let outcomes = vec![
        ListingOutcome::Listed(vec![]),
        ListingOutcome::Listed(vec![]),
        ListingOutcome::Listed(vec![]),
        ListingOutcome::Listed(vec![]),
    ];
    let r = find_a_build_just_before(&asan_linux_spec(), 4821, &outcomes);
    match r {
        Err(FetchError::NoMatchingBuild { prefix, branch_point }) => {
            assert_eq!(prefix, "linux-release/asan-linux-release-");
            assert_eq!(branch_point, 4821);
        }
        other => panic!("expected a not-found error, got {:?}", other.is_ok()),
    }
}

#[test]
fn transport_failures_give_not_found_not_a_masked_error() {
    let outcomes = vec![
        ListingOutcome::Failed,
        ListingOutcome::Failed,
        ListingOutcome::Failed,
        ListingOutcome::Failed,
    ];
    let r = find_a_build_just_before(&asan_linux_spec(), 4821, &outcomes);
    match r {
        Err(FetchError::NoMatchingBuild { branch_point, .. }) => {
            assert_eq!(branch_point, 4821);
        }
        _ => panic!("expected a not-found error"),
    }
}

#[test]
fn versions_above_target_are_never_returned() {
    let outcomes = vec![ListingOutcome::Listed(vec![4830, 4900])];
    let r = find_a_build_just_before(&asan_linux_spec(), 4821, &outcomes);
    assert!(r.is_err());
}

#[test]
fn search_tries_strictly_decreasing_prefixes_and_at_most_one_call_per_digit() {
    let mut search = ResolverSearch::new(12345);
    let mut prefixes: Vec<String> = Vec::new();
    let mut calls = 0;
    loop {
        match search.next_prefix() {
            None => break,
            Some(p) => {
                prefixes.push(p);
                calls += 1;
                let step = search.step(&ListingOutcome::Listed(vec![]));
                match step {
                    SearchStep::Found(_) => panic!("nothing should be found"),
                    SearchStep::Widen => (),
                    SearchStep::Exhausted => (),
                }
            }
        }
    }
    // An L-digit target gets at most L+1 listing calls; here exactly L.
    assert_eq!(calls, 5);
    assert_eq!(prefixes, vec!["1234", "123", "12", "1", ""]);
    for w in prefixes.windows(2) {
        assert!(w[1].len() < w[0].len());
    }
}

#[test]
fn step_reports_the_found_version() {
    let mut search = ResolverSearch::new(980);
    assert_eq!(search.next_prefix().unwrap(), "98");
    match search.step(&ListingOutcome::Listed(vec![975, 990, 960])) {
        SearchStep::Found(v) => assert_eq!(v, 975),
        _ => panic!("expected a find"),
    }
}

#[test]
fn one_digit_target_searches_only_the_empty_prefix() {
    let mut search = ResolverSearch::new(7);
    assert_eq!(search.next_prefix().unwrap(), "");
    match search.step(&ListingOutcome::Listed(vec![7, 8])) {
        SearchStep::Found(v) => assert_eq!(v, 7),
        _ => panic!("expected a find"),
    }
    assert!(search.next_prefix().is_none());
}

#[test]
fn best_version_picks_the_maximum_at_or_below() {
    assert_eq!(best_version_at_or_below(&vec![100, 900, 400], 500), Some(400));
    assert_eq!(best_version_at_or_below(&vec![600, 900], 500), None);
    assert_eq!(best_version_at_or_below(&vec![], 500), None);
    assert_eq!(best_version_at_or_below(&vec![500], 500), Some(500));
}
