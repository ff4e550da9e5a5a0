//! The channel aggregator: filtering the per-channel records down to the
//! channels wanted, and merging the survivors into the minimal set of
//! distinct branch points to fetch, each with its display labels.

use indexmap::IndexMap;
use vstd::prelude::*;

use crate::collections::{
    download_entries, download_map_entries_vec, download_map_get, download_map_insert,
    download_map_new, index_of_key,
};
use crate::releases::{channel_entry, channels_view, ChannelInfo};
use crate::text::decimal_rep;
use crate::text::u64_to_decimal;

verus! {

/// The lowercase form of a string, as `str::to_lowercase` computes it: a
/// function of the characters alone.
pub uninterp spec fn lower_of(s: Seq<char>) -> Seq<char>;

/// Relies on str::to_lowercase: the result depends on the characters alone.
#[verifier::external_body]
fn lowercase(s: &str) -> (r: String)
    ensures
        r@ == lower_of(s@),
{
    s.to_lowercase()
}

/// Whether a channel name is on the wanted list, compared case-insensitively.
pub open spec fn name_wanted(name: Seq<char>, wanted: Seq<Seq<char>>) -> bool {
    exists|j: int| 0 <= j < wanted.len() && lower_of(name) == lower_of(#[trigger] wanted[j])
}

/// The channel entries whose names are on the wanted list, in order.
pub open spec fn keep_wanted(
    s: Seq<(Seq<char>, (u16, u64))>,
    wanted: Seq<Seq<char>>,
) -> Seq<(Seq<char>, (u16, u64))>
    decreases s.len(),
{
    if s.len() == 0 {
        Seq::empty()
    } else {
        let prev = keep_wanted(s.drop_last(), wanted);
        if name_wanted(s.last().0, wanted) {
            prev.push(s.last())
        } else {
            prev
        }
    }
}

/// Keeps only the channels whose names are on the explicit wanted list,
/// compared case-insensitively; order is preserved.
pub fn filter_channels(
    channels: &Vec<(String, ChannelInfo)>,
    wanted: &Vec<String>,
) -> (r: Vec<(String, ChannelInfo)>)
    ensures
        channels_view(r@) == keep_wanted(
            channels_view(channels@),
            wanted@.map_values(|w: String| w@),
        ),
{
    let ghost wanted_views = wanted@.map_values(|w: String| w@);
    let mut lowered: Vec<String> = Vec::new();
    let mut j: usize = 0;
    while j < wanted.len()
        invariant
            0 <= j <= wanted.len(),
            lowered@.len() == j,
            wanted_views == wanted@.map_values(|w: String| w@),
            forall|t: int| 0 <= t < j ==> (#[trigger] lowered@[t])@ == lower_of(wanted_views[t]),
        decreases wanted.len() - j,
    {
        lowered.push(lowercase(wanted[j].as_str()));
        j = j + 1;
    }
    let ghost cv = channels_view(channels@);
    let mut r: Vec<(String, ChannelInfo)> = Vec::new();
    let mut i: usize = 0;
    while i < channels.len()
        invariant
            0 <= i <= channels.len(),
            cv == channels_view(channels@),
            cv.len() == channels@.len(),
            wanted_views == wanted@.map_values(|w: String| w@),
            lowered@.len() == wanted@.len(),
            forall|t: int|
                0 <= t < lowered@.len() ==> (#[trigger] lowered@[t])@ == lower_of(wanted_views[t]),
            channels_view(r@) == keep_wanted(cv.take(i as int), wanted_views),
        decreases channels.len() - i,
    {
        let name_lower = lowercase(channels[i].0.as_str());
        let mut found = false;
        let mut t: usize = 0;
        while t < lowered.len()
            invariant
                0 <= t <= lowered@.len(),
                0 <= i < channels@.len(),
                cv == channels_view(channels@),
                cv.len() == channels@.len(),
                wanted_views == wanted@.map_values(|w: String| w@),
                lowered@.len() == wanted@.len(),
                forall|u: int|
                    0 <= u < lowered@.len() ==> (#[trigger] lowered@[u])@ == lower_of(
                        wanted_views[u],
                    ),
                name_lower@ == lower_of(cv[i as int].0),
                found <==> exists|u: int|
                    0 <= u < t && lower_of(cv[i as int].0) == lower_of(#[trigger] wanted_views[u]),
            decreases lowered.len() - t,
        {
            if name_lower == lowered[t] {
                found = true;
            }
            t = t + 1;
        }
        assert(found == name_wanted(cv[i as int].0, wanted_views));
        if found {
            let e = &channels[i];
            r.push((e.0.clone(), e.1));
        }
        proof {
            assert(cv.take(i + 1).drop_last() =~= cv.take(i as int));
            assert(cv.take(i + 1).last() == cv[i as int]);
            if found {
                assert(channels_view(r@) =~= keep_wanted(cv.take(i as int), wanted_views).push(
                    cv[i as int],
                ));
            }
        }
        i = i + 1;
    }
    proof {
        assert(cv.take(cv.len() as int) =~= cv);
    }
    r
}

/// The smallest branch position among the entries.
pub open spec fn min_branch_position(s: Seq<(Seq<char>, (u16, u64))>) -> u64
    recommends
        s.len() > 0,
    decreases s.len(),
{
    if s.len() <= 1 {
        s[0].1.1
    } else {
        let p = min_branch_position(s.drop_last());
        if s.last().1.1 < p {
            s.last().1.1
        } else {
            p
        }
    }
}

/// The greatest branch position among the entries.
pub open spec fn max_branch_position(s: Seq<(Seq<char>, (u16, u64))>) -> u64
    recommends
        s.len() > 0,
    decreases s.len(),
{
    if s.len() <= 1 {
        s[0].1.1
    } else {
        let p = max_branch_position(s.drop_last());
        if s.last().1.1 > p {
            s.last().1.1
        } else {
            p
        }
    }
}

/// The entries whose branch position is one of the two extremes, in order.
pub open spec fn keep_extremes(
    s: Seq<(Seq<char>, (u16, u64))>,
    lo: u64,
    hi: u64,
) -> Seq<(Seq<char>, (u16, u64))>
    decreases s.len(),
{
    if s.len() == 0 {
        Seq::empty()
    } else {
        let prev = keep_extremes(s.drop_last(), lo, hi);
        if s.last().1.1 == lo || s.last().1.1 == hi {
            prev.push(s.last())
        } else {
            prev
        }
    }
}

/// The default filter, when no channel list was given and all channels were
/// not requested: keeps exactly the channels at the oldest and the newest
/// branch position — all of them, when several share an extreme.
pub fn filter_oldest_newest(channels: &Vec<(String, ChannelInfo)>) -> (r: Vec<
    (String, ChannelInfo),
>)
    ensures
        channels@.len() == 0 ==> r@.len() == 0,
        channels@.len() > 0 ==> channels_view(r@) == keep_extremes(
            channels_view(channels@),
            min_branch_position(channels_view(channels@)),
            max_branch_position(channels_view(channels@)),
        ),
{
    let ghost cv = channels_view(channels@);
    let mut r: Vec<(String, ChannelInfo)> = Vec::new();
    if channels.len() == 0 {
        return r;
    }
    let mut lo: u64 = channels[0].1.chromium_main_branch_position;
    let mut hi: u64 = channels[0].1.chromium_main_branch_position;
    let mut i: usize = 1;
    while i < channels.len()
        invariant
            1 <= i <= channels@.len(),
            cv == channels_view(channels@),
            cv.len() == channels@.len(),
            lo == min_branch_position(cv.take(i as int)),
            hi == max_branch_position(cv.take(i as int)),
        decreases channels.len() - i,
    {
        let bp = channels[i].1.chromium_main_branch_position;
        proof {
            assert(cv.take(i + 1).drop_last() =~= cv.take(i as int));
            assert(cv.take(i + 1).last() == cv[i as int]);
        }
        if bp < lo {
            lo = bp;
        }
        if bp > hi {
            hi = bp;
        }
        i = i + 1;
    }
    proof {
        assert(cv.take(cv.len() as int) =~= cv);
    }
    let mut j: usize = 0;
    while j < channels.len()
        invariant
            0 <= j <= channels@.len(),
            cv == channels_view(channels@),
            cv.len() == channels@.len(),
            lo == min_branch_position(cv),
            hi == max_branch_position(cv),
            channels_view(r@) == keep_extremes(cv.take(j as int), lo, hi),
        decreases channels.len() - j,
    {
        let bp = channels[j].1.chromium_main_branch_position;
        proof {
            assert(cv.take(j + 1).drop_last() =~= cv.take(j as int));
            assert(cv.take(j + 1).last() == cv[j as int]);
        }
        if bp == lo || bp == hi {
            let e = &channels[j];
            r.push((e.0.clone(), e.1));
            proof {
                assert(channels_view(r@) =~= keep_extremes(cv.take(j as int), lo, hi).push(
                    cv[j as int],
                ));
            }
        }
        j = j + 1;
    }
    proof {
        assert(cv.take(cv.len() as int) =~= cv);
    }
    r
}

/// The display label of a channel record: `{channel}-{milestone}`.
pub open spec fn label_seq(name: Seq<char>, milestone: u16) -> Seq<char> {
    name + "-"@ + decimal_rep(milestone as nat)
}

/// Renders the display label of a channel record.
pub fn channel_label(name: &str, milestone: u16) -> (r: String)
    ensures
        r@ == label_seq(name@, milestone),
{
    let mut r = String::from_str(name);
    r.append("-");
    let m = u64_to_decimal(milestone as u64);
    r.append(m.as_str());
    proof {
        assert(r@ =~= label_seq(name@, milestone));
    }
    r
}

/// A resolved unit of work: a branch point and the labels of every channel
/// that maps to it.
pub struct DownloadTarget {
    pub branch_point: u64,
    pub labels: Vec<String>,
}

/// One channel record folded into the download entries: its label joins the
/// entry of its branch point, or starts a new entry appended last.
pub open spec fn add_label(
    s: Seq<(u64, Seq<Seq<char>>)>,
    branch_point: u64,
    label: Seq<char>,
) -> Seq<(u64, Seq<Seq<char>>)> {
    let i = index_of_key(s, branch_point);
    if i < 0 {
        s.push((branch_point, seq![label]))
    } else {
        s.update(i, (branch_point, s[i].1.push(label)))
    }
}

/// The downloads to perform for the given channel entries: one per distinct
/// branch point, in order of first appearance, each carrying the labels of
/// its channels in order.
pub open spec fn spec_downloads(cs: Seq<(Seq<char>, (u16, u64))>) -> Seq<(u64, Seq<Seq<char>>)>
    decreases cs.len(),
{
    if cs.len() == 0 {
        Seq::empty()
    } else {
        add_label(
            spec_downloads(cs.drop_last()),
            cs.last().1.1,
            label_seq(cs.last().0, cs.last().1.0),
        )
    }
}

/// The view of a download target list.
pub open spec fn targets_view(s: Seq<DownloadTarget>) -> Seq<(u64, Seq<Seq<char>>)> {
    s.map_values(
        |t: DownloadTarget| (t.branch_point, t.labels@.map_values(|l: String| l@)),
    )
}

/// Merges the channel entries into one download target per distinct branch
/// point, so exactly one fetch pipeline runs per branch point; each target
/// carries the `{channel}-{milestone}` labels of all its channels.
pub fn aggregate_downloads(channels: &Vec<(String, ChannelInfo)>) -> (r: Vec<DownloadTarget>)
    ensures
        targets_view(r@) == spec_downloads(channels_view(channels@)),
{
    let ghost cv = channels_view(channels@);
    let mut m: IndexMap<u64, Vec<String>> = download_map_new();
    let mut i: usize = 0;
    while i < channels.len()
        invariant
            0 <= i <= channels@.len(),
            cv == channels_view(channels@),
            cv.len() == channels@.len(),
            download_entries(m) == spec_downloads(cv.take(i as int)),
        decreases channels.len() - i,
    {
        let e = &channels[i];
        let label = channel_label(e.0.as_str(), e.1.milestone);
        let bp = e.1.chromium_main_branch_position;
        proof {
            assert(cv.take(i + 1).drop_last() =~= cv.take(i as int));
            assert(cv.take(i + 1).last() == cv[i as int]);
        }
        match download_map_get(&m, bp) {
            None => {
                let mut labels: Vec<String> = Vec::new();
                labels.push(label);
                proof {
                    assert(labels@.map_values(|l: String| l@) =~= seq![
                        label_seq(cv[i as int].0, cv[i as int].1.0),
                    ]);
                }
                download_map_insert(&mut m, bp, labels);
            },
            Some(mut labels) => {
                let ghost before = labels@.map_values(|l: String| l@);
                labels.push(label);
                proof {
                    assert(labels@.map_values(|l: String| l@) =~= before.push(
                        label_seq(cv[i as int].0, cv[i as int].1.0),
                    ));
                }
                download_map_insert(&mut m, bp, labels);
            },
        }
        i = i + 1;
    }
    proof {
        assert(cv.take(cv.len() as int) =~= cv);
    }
    let entries = download_map_entries_vec(&m);
    let mut r: Vec<DownloadTarget> = Vec::new();
    let mut j: usize = 0;
    while j < entries.len()
        invariant
            0 <= j <= entries@.len(),
            entries@.len() == download_entries(m).len(),
            forall|t: int|
                0 <= t < entries@.len() ==> ((#[trigger] entries@[t]).0, entries@[t].1@.map_values(
                    |l: String| l@,
                )) == download_entries(m)[t],
            r@.len() == j,
            forall|t: int|
                0 <= t < j ==> ((#[trigger] r@[t]).branch_point, r@[t].labels@.map_values(
                    |l: String| l@,
                )) == download_entries(m)[t],
        decreases entries.len() - j,
    {
        let e = &entries[j];
        let mut labels: Vec<String> = Vec::new();
        let mut t: usize = 0;
        while t < e.1.len()
            invariant
                0 <= t <= e.1@.len(),
                labels@.len() == t,
                forall|u: int| 0 <= u < t ==> (#[trigger] labels@[u])@ == e.1@[u]@,
            decreases e.1.len() - t,
        {
            labels.push(e.1[t].clone());
            t = t + 1;
        }
        proof {
            assert(labels@.map_values(|l: String| l@) =~= e.1@.map_values(|l: String| l@));
        }
        r.push(DownloadTarget { branch_point: e.0, labels });
        j = j + 1;
    }
    proof {
        assert(targets_view(r@) =~= download_entries(m));
    }
    r
}

} // verus!
