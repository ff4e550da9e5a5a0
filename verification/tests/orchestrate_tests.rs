use chromium_fetch::builds::{get_download_uri, BuildSpecification};
use chromium_fetch::config::{platform_for_os, Mode};
use chromium_fetch::orchestrate::{labels_dirname, overall_result, revision_label, FetchError};
use chromium_fetch::resolver::{find_a_build_just_before, ListingOutcome};

fn asan_linux_spec() -> BuildSpecification {
    BuildSpecification {
        build_type: String::from("asan"),
        platform: String::from("linux"),
        debugness: String::from("release"),
        bitness_suffix: None,
    }
}

#[test]
fn one_failing_pipeline_is_reported_and_the_other_still_completes() {
    // Target X finds nothing anywhere; target Y resolves. X's error is
    // collected, Y's work still produces its download address, and the run
    // as a whole fails with X's error.
    let mut errors: Vec<FetchError> = Vec::new();
    let mut uris: Vec<String> = Vec::new();

    let x_outcomes = vec![ListingOutcome::Failed, ListingOutcome::Failed];
    match find_a_build_just_before(&asan_linux_spec(), 77, &x_outcomes) {
        Ok(v) => uris.push(get_download_uri(&asan_linux_spec(), v)),
        Err(e) => errors.push(e),
    }

    let y_outcomes = vec![ListingOutcome::Listed(vec![4700])];
    match find_a_build_just_before(&asan_linux_spec(), 4821, &y_outcomes) {
        Ok(v) => uris.push(get_download_uri(&asan_linux_spec(), v)),
        Err(e) => errors.push(e),
    }

    assert_eq!(uris, vec![
        "https://chromium-browser-asan.storage.googleapis.com/linux-release%2Fasan-linux-release-4700.zip",
    ]);
    assert_eq!(errors.len(), 1);
    let overall = overall_result(errors);
    match overall {
        Err(FetchError::NoMatchingBuild { branch_point, .. }) => assert_eq!(branch_point, 77),
        _ => panic!("the run must fail with the failing pipeline's error"),
    }
}

#[test]
fn a_run_without_errors_succeeds() {
    assert!(overall_result(Vec::new()).is_ok());
}

#[test]
fn the_first_error_decides_the_exit() {
    let errors = vec![
        FetchError::Extraction {
            label: String::from("stable-100"),
            message: String::from("truncated archive"),
        },
        FetchError::NoMatchingBuild { prefix: String::from("p"), branch_point: 5 },
    ];
    match overall_result(errors) {
        Err(FetchError::Extraction { label, message }) => {
            assert_eq!(label, "stable-100");
            assert_eq!(message, "truncated archive");
        }
        _ => panic!("the first collected error must come out"),
    }
}

#[test]
fn error_descriptions_name_what_failed() {
    let e = FetchError::NoMatchingBuild {
        prefix: String::from("linux-release/asan-linux-release-"),
        branch_point: 4821,
    };
    assert_eq!(
        e.describe(),
        "No matching builds found for linux-release/asan-linux-release- at branch point 4821"
    );
    let x = FetchError::Extraction {
        label: String::from("stable-100"),
        message: String::from("bad archive"),
    };
    assert_eq!(x.describe(), "Extraction of stable-100 failed: bad archive");
}

#[test]
fn output_directories_are_named_by_joined_labels() {
    let labels = vec![String::from("A-2"), String::from("B-3")];
    assert_eq!(labels_dirname(&labels), "A-2_B-3");
    assert_eq!(labels_dirname(&vec![String::from("stable-100")]), "stable-100");
}

#[test]
fn explicit_revisions_get_a_generated_label() {
    assert_eq!(revision_label(1000), "revision-1000");
}

#[test]
fn platforms_map_to_their_artifact_names() {
    let (mac, mac_suffix) = platform_for_os("macos");
    assert_eq!(mac, "mac");
    assert_eq!(mac_suffix, None);
    let (win, win_suffix) = platform_for_os("windows");
    assert_eq!(win, "win32");
    assert_eq!(win_suffix, Some(String::from("_x64")));
    let (linux, linux_suffix) = platform_for_os("linux");
    assert_eq!(linux, "linux");
    assert_eq!(linux_suffix, None);
}

#[test]
fn modes_render_lowercase() {
    assert_eq!(Mode::Release.as_str(), "release");
    assert_eq!(Mode::Debug.as_str(), "debug");
}
