//! Release-channel records: reducing the metadata feed's release records to
//! one record per channel, the one with the highest milestone.

use indexmap::IndexMap;
use vstd::prelude::*;

use crate::collections::{
    channel_entries, channel_map_entries_vec, channel_map_get, channel_map_insert,
    channel_map_new, index_of_key,
};

verus! {

/// One record of the release metadata feed: a channel name, a milestone
/// number, and the branch position the channel was cut at.
pub struct Release {
    pub channel: String,
    pub milestone: u16,
    pub chromium_main_branch_position: u64,
}

/// The record retained for one channel: its milestone and branch position.
#[derive(Clone, Copy, PartialEq, Eq, Structural, Debug)]
pub struct ChannelInfo {
    pub milestone: u16,
    pub chromium_main_branch_position: u64,
}

/// One release record folded into the per-channel entries: a new channel is
/// appended; a known channel is replaced only by a strictly higher milestone,
/// keeping its place in the order.
pub open spec fn upsert_channel(
    s: Seq<(Seq<char>, (u16, u64))>,
    name: Seq<char>,
    milestone: u16,
    branch_position: u64,
) -> Seq<(Seq<char>, (u16, u64))> {
    let i = index_of_key(s, name);
    if i < 0 {
        s.push((name, (milestone, branch_position)))
    } else if milestone > s[i].1.0 {
        s.update(i, (name, (milestone, branch_position)))
    } else {
        s
    }
}

/// The per-channel entries after folding in every release record, in order of
/// each channel's first appearance: for every channel, the record with the
/// highest milestone (the earliest such record, on a milestone tie).
pub open spec fn spec_channel_positions(rs: Seq<Release>) -> Seq<(Seq<char>, (u16, u64))>
    decreases rs.len(),
{
    if rs.len() == 0 {
        Seq::empty()
    } else {
        upsert_channel(
            spec_channel_positions(rs.drop_last()),
            rs.last().channel@,
            rs.last().milestone,
            rs.last().chromium_main_branch_position,
        )
    }
}

/// The entry a channel list holds for position `i`, as name and record.
pub open spec fn channel_entry(e: (String, ChannelInfo)) -> (Seq<char>, (u16, u64)) {
    (e.0@, (e.1.milestone, e.1.chromium_main_branch_position))
}

/// The view of a whole channel list.
pub open spec fn channels_view(s: Seq<(String, ChannelInfo)>) -> Seq<(Seq<char>, (u16, u64))> {
    s.map_values(|e: (String, ChannelInfo)| channel_entry(e))
}

/// Reduces the feed's release records to one record per channel — the one
/// with the highest milestone — in order of each channel's first appearance.
pub fn get_channel_branch_positions(releases: &Vec<Release>) -> (r: Vec<(String, ChannelInfo)>)
    ensures
        channels_view(r@) == spec_channel_positions(releases@),
{
    let mut m: IndexMap<String, (u16, u64)> = channel_map_new();
    let mut i: usize = 0;
    while i < releases.len()
        invariant
            0 <= i <= releases.len(),
            channel_entries(m) == spec_channel_positions(releases@.take(i as int)),
        decreases releases.len() - i,
    {
        let rel = &releases[i];
        let keep = match channel_map_get(&m, &rel.channel) {
            None => true,
            Some((milestone, _)) => rel.milestone > milestone,
        };
        if keep {
            channel_map_insert(
                &mut m,
                rel.channel.clone(),
                (rel.milestone, rel.chromium_main_branch_position),
            );
        }
        proof {
            assert(releases@.take(i + 1).drop_last() =~= releases@.take(i as int));
            assert(releases@.take(i + 1).last() == releases@[i as int]);
        }
        i = i + 1;
    }
    proof {
        assert(releases@.take(releases@.len() as int) =~= releases@);
    }
    let entries = channel_map_entries_vec(&m);
    let mut r: Vec<(String, ChannelInfo)> = Vec::new();
    let mut j: usize = 0;
    while j < entries.len()
        invariant
            0 <= j <= entries.len(),
            entries@.len() == channel_entries(m).len(),
            forall|t: int|
                0 <= t < entries@.len() ==> ((#[trigger] entries@[t]).0@, entries@[t].1)
                    == channel_entries(m)[t],
            r@.len() == j,
            forall|t: int| 0 <= t < j ==> channel_entry(#[trigger] r@[t]) == channel_entries(m)[t],
        decreases entries.len() - j,
    {
        let e = &entries[j];
        let info = ChannelInfo { milestone: e.1.0, chromium_main_branch_position: e.1.1 };
        r.push((e.0.clone(), info));
        j = j + 1;
    }
    proof {
        assert(channels_view(r@) =~= channel_entries(m));
    }
    r
}

} // verus!
