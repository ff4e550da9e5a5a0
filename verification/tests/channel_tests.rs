use chromium_fetch::channels::{
    aggregate_downloads, channel_label, filter_channels, filter_oldest_newest,
};
use chromium_fetch::releases::{get_channel_branch_positions, ChannelInfo, Release};

fn release(channel: &str, milestone: u16, branch_position: u64) -> Release {
    Release {
        channel: String::from(channel),
        milestone,
        chromium_main_branch_position: branch_position,
    }
}

fn info(milestone: u16, branch_position: u64) -> ChannelInfo {
    ChannelInfo { milestone, chromium_main_branch_position: branch_position }
}

#[test]
fn higher_milestone_wins_and_shared_branch_points_merge() {
    let releases = vec![release("A", 1, 5), release("A", 2, 7), release("B", 3, 7)];
    let channels = get_channel_branch_positions(&releases);
    assert_eq!(channels.len(), 2);
    assert_eq!(channels[0].0, "A");
    assert_eq!(channels[0].1, info(2, 7));
    assert_eq!(channels[1].0, "B");
    assert_eq!(channels[1].1, info(3, 7));

    let targets = aggregate_downloads(&channels);
    assert_eq!(targets.len(), 1);
    assert_eq!(targets[0].branch_point, 7);
    assert_eq!(targets[0].labels, vec!["A-2", "B-3"]);
}

#[test]
fn lower_milestone_never_replaces_a_record() {
    let releases = vec![release("stable", 120, 900), release("stable", 119, 850)];
    let channels = get_channel_branch_positions(&releases);
    assert_eq!(channels.len(), 1);
    assert_eq!(channels[0].1, info(120, 900));
}

#[test]
fn milestone_tie_keeps_the_first_record() {
    let releases = vec![release("dev", 10, 111), release("dev", 10, 222)];
    let channels = get_channel_branch_positions(&releases);
    assert_eq!(channels.len(), 1);
    assert_eq!(channels[0].1, info(10, 111));
}

#[test]
fn default_filter_keeps_only_extreme_branch_points() {
    let channels = vec![
        (String::from("a"), info(1, 5)),
        (String::from("b"), info(2, 7)),
        (String::from("c"), info(3, 7)),
        (String::from("d"), info(4, 12)),
    ];
    let kept = filter_oldest_newest(&channels);
    assert_eq!(kept.len(), 2);
    assert_eq!(kept[0].0, "a");
    assert_eq!(kept[0].1, info(1, 5));
    assert_eq!(kept[1].0, "d");
    assert_eq!(kept[1].1, info(4, 12));

    let targets = aggregate_downloads(&kept);
    assert_eq!(targets.len(), 2);
    assert_eq!(targets[0].branch_point, 5);
    assert_eq!(targets[0].labels, vec!["a-1"]);
    assert_eq!(targets[1].branch_point, 12);
    assert_eq!(targets[1].labels, vec!["d-4"]);
}

#[test]
fn default_filter_keeps_every_channel_at_a_shared_extreme() {
    let channels = vec![
        (String::from("stable"), info(1, 5)),
        (String::from("extended"), info(2, 5)),
        (String::from("canary"), info(3, 12)),
    ];
    let kept = filter_oldest_newest(&channels);
    assert_eq!(kept.len(), 3);
}

#[test]
fn default_filter_on_one_channel_keeps_it() {
    let channels = vec![(String::from("stable"), info(1, 5))];
    let kept = filter_oldest_newest(&channels);
    assert_eq!(kept.len(), 1);
}

#[test]
fn default_filter_on_nothing_keeps_nothing() {
    let channels: Vec<(String, ChannelInfo)> = Vec::new();
    assert_eq!(filter_oldest_newest(&channels).len(), 0);
}

#[test]
fn explicit_filter_is_case_insensitive() {
    let channels = vec![
        (String::from("Stable"), info(1, 5)),
        (String::from("beta"), info(2, 7)),
        (String::from("canary"), info(3, 9)),
    ];
    let wanted = vec![String::from("STABLE"), String::from("Canary")];
    let kept = filter_channels(&channels, &wanted);
    assert_eq!(kept.len(), 2);
    assert_eq!(kept[0].0, "Stable");
    assert_eq!(kept[1].0, "canary");
}

#[test]
fn explicit_filter_with_no_match_keeps_nothing() {
    let channels = vec![(String::from("stable"), info(1, 5))];
    let wanted = vec![String::from("dev")];
    assert_eq!(filter_channels(&channels, &wanted).len(), 0);
}

#[test]
fn labels_keep_channel_insertion_order() {
    let channels = vec![
        (String::from("extended"), info(99, 700)),
        (String::from("stable"), info(100, 700)),
    ];
    let targets = aggregate_downloads(&channels);
    assert_eq!(targets.len(), 1);
    assert_eq!(targets[0].labels, vec!["extended-99", "stable-100"]);
}

#[test]
fn channel_label_renders_name_and_milestone() {
    assert_eq!(channel_label("beta", 112), "beta-112");
    assert_eq!(channel_label("stable", 0), "stable-0");
}
