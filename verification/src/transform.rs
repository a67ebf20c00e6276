//! From the ranking service's record to the record handed out: the table
//! events are picked from the rating history, and the partner average, the
//! last rating change and the rank icon are derived.

use crate::average::{mean, mean_of};
use crate::record::{
    changes_of, Hundredths, MmrChange, MmrChangeView, PlayerRecord, PlayerRecordView,
    UpstreamRecord, UpstreamRecordView,
};
use crate::text::{lowercase, lowercased, same_text};
use vstd::prelude::*;

verus! {

/// Whether a rating change records a table event.
pub open spec fn is_table(change: MmrChangeView) -> bool {
    change.reason == Some("Table"@)
}

/// The table events among `changes`, in the order of the history.
pub open spec fn table_changes(changes: Seq<MmrChangeView>) -> Seq<MmrChangeView> {
    changes.filter(|c: MmrChangeView| is_table(c))
}

/// The partner scores of all table events among `changes`, as one sequence.
pub open spec fn table_scores(changes: Seq<MmrChangeView>) -> Seq<i64> {
    table_changes(changes).map_values(|c: MmrChangeView| c.partner_scores).flatten()
}

/// The rating change of the first table event among `changes`.
pub open spec fn last_diff_of(changes: Seq<MmrChangeView>) -> Option<i64> {
    if table_changes(changes).len() > 0 {
        table_changes(changes).first().delta
    } else {
        None
    }
}

/// Whether `change` records a table event.
pub fn table_event(change: &MmrChange) -> (r: bool)
    ensures
        r == is_table(change@),
{
    match &change.reason {
        Some(reason) => same_text(reason.as_str(), "Table"),
        None => false,
    }
}

/// Taking one more change into account: the table events and their scores
/// grow by that change if it is a table event, and stay as they are if not.
proof fn lemma_table_step(changes: Seq<MmrChangeView>, next: MmrChangeView)
    ensures
        table_changes(changes.push(next)) == if is_table(next) {
            table_changes(changes).push(next)
        } else {
            table_changes(changes)
        },
        table_scores(changes.push(next)) == if is_table(next) {
            table_scores(changes) + next.partner_scores
        } else {
            table_scores(changes)
        },
{
    let pred = |c: MmrChangeView| is_table(c);
    changes.lemma_filter_push(next, pred);
    if is_table(next) {
        let picked = table_changes(changes);
        let scores = picked.map_values(|c: MmrChangeView| c.partner_scores);
        assert(picked.push(next).map_values(|c: MmrChangeView| c.partner_scores) =~= scores.push(
            next.partner_scores,
        ));
        scores.lemma_flatten_push(next.partner_scores);
    }
}

/// The partner scores of all table events among `changes`, as one vector.
pub fn collect_table_scores(changes: &Vec<MmrChange>) -> (flat: Vec<i64>)
    ensures
        flat@ == table_scores(changes_of(changes@)),
{
    let ghost all = changes_of(changes@);
    let mut flat: Vec<i64> = Vec::new();
    let mut i: usize = 0;
    proof {
        reveal(Seq::filter);
        assert(all.take(0) =~= Seq::<MmrChangeView>::empty());
        assert(table_scores(all.take(0)) =~= Seq::<i64>::empty());
    }
    while i < changes.len()
        invariant
            i <= changes.len(),
            all == changes_of(changes@),
            flat@ == table_scores(all.take(i as int)),
        decreases changes.len() - i,
    {
        let change = &changes[i];
        proof {
            assert(all.take(i + 1) =~= all.take(i as int).push(change@));
            lemma_table_step(all.take(i as int), change@);
        }
        if table_event(change) {
            let mut j: usize = 0;
            let ghost before = flat@;
            while j < change.partner_scores.len()
                invariant
                    j <= change.partner_scores.len(),
                    flat@ == before + change.partner_scores@.take(j as int),
                decreases change.partner_scores.len() - j,
            {
                flat.push(change.partner_scores[j]);
                proof {
                    assert(change.partner_scores@.take(j + 1) =~= change.partner_scores@.take(
                        j as int,
                    ).push(change.partner_scores@[j as int]));
                }
                j += 1;
            }
            proof {
                assert(change.partner_scores@.take(j as int) =~= change.partner_scores@);
            }
        }
        i += 1;
    }
    proof {
        assert(all.take(i as int) =~= all);
    }
    flat
}

/// The first table event in a history decides the last rating change: if no
/// change before position `i` is a table event and the one at `i` is, the
/// table events begin with it.
proof fn lemma_first_table(changes: Seq<MmrChangeView>, i: int)
    requires
        0 <= i < changes.len(),
        is_table(changes[i]),
        forall|j: int| 0 <= j < i ==> !is_table(#[trigger] changes[j]),
    ensures
        table_changes(changes).len() > 0,
        table_changes(changes).first() == changes[i],
{
    let pred = |c: MmrChangeView| is_table(c);
    let head = changes.take(i);
    let tail = changes.skip(i + 1);
    lemma_no_table(head);
    assert(changes =~= head.push(changes[i]) + tail);
    Seq::filter_distributes_over_add(head.push(changes[i]), tail, pred);
    head.lemma_filter_push(changes[i], pred);
}

/// A history without table events has no table events picked from it, no
/// partner scores, no partner average and no last rating change.
pub proof fn lemma_no_table(changes: Seq<MmrChangeView>)
    requires
        forall|j: int| 0 <= j < changes.len() ==> !is_table(#[trigger] changes[j]),
    ensures
        table_changes(changes).len() == 0,
        table_scores(changes).len() == 0,
        partner_avg_of(changes) is None,
        last_diff_of(changes) is None,
    decreases changes.len(),
{
    reveal(Seq::filter);
    if changes.len() > 0 {
        lemma_no_table(changes.drop_last());
    }
}

/// The rating change of the most recent table event in `changes`, which are
/// ordered most recent first.
pub fn last_diff(changes: &Vec<MmrChange>) -> (r: Option<i64>)
    ensures
        r == last_diff_of(changes_of(changes@)),
{
    let ghost all = changes_of(changes@);
    let mut i: usize = 0;
    while i < changes.len()
        invariant
            i <= changes.len(),
            all == changes_of(changes@),
            forall|j: int| 0 <= j < i ==> !is_table(#[trigger] all[j]),
        decreases changes.len() - i,
    {
        if table_event(&changes[i]) {
            proof {
                lemma_first_table(all, i as int);
            }
            return changes[i].delta;
        }
        i += 1;
    }
    proof {
        lemma_no_table(all);
    }
    None
}

/// The mean partner score over all table events among `changes`, if they
/// hold any score.
pub open spec fn partner_avg_of(changes: Seq<MmrChangeView>) -> Option<Hundredths> {
    mean_of(table_scores(changes))
}

/// The mean partner score over all table events in `changes`, rounded to
/// hundredths; `None` if those events hold no score.
pub fn partner_avg(changes: &Vec<MmrChange>) -> (r: Option<Hundredths>)
    ensures
        r == partner_avg_of(changes_of(changes@)),
{
    let scores = collect_table_scores(changes);
    mean(&scores)
}

/// The icon of a rank tier spelled in lowercase.
pub open spec fn tier_icon(tier: Seq<char>) -> Option<Seq<char>> {
    if tier == "iron"@ {
        Some("/static/ranks/iron.png"@)
    } else if tier == "bronze"@ {
        Some("/static/ranks/bronze.png"@)
    } else if tier == "silver"@ {
        Some("/static/ranks/silver.png"@)
    } else if tier == "gold"@ {
        Some("/static/ranks/gold.png"@)
    } else if tier == "platinum"@ {
        Some("/static/ranks/platinum.png"@)
    } else if tier == "sapphire"@ {
        Some("/static/ranks/sapphire.png"@)
    } else if tier == "ruby"@ {
        Some("/static/ranks/ruby.png"@)
    } else if tier == "diamond"@ {
        Some("/static/ranks/diamond.png"@)
    } else if tier == "master"@ {
        Some("/static/ranks/master.png"@)
    } else if tier == "grand master"@ || tier == "grandmaster"@ {
        Some("/static/ranks/grandmaster.png"@)
    } else {
        None
    }
}

/// The icon of a rank, whatever the case of its letters.
pub open spec fn rank_icon_of(rank: Seq<char>) -> Option<Seq<char>> {
    tier_icon(lowercased(rank))
}

/// The characters of an optional path.
pub open spec fn path_text(path: Option<&str>) -> Option<Seq<char>> {
    match path {
        Some(p) => Some(p@),
        None => None,
    }
}

/// Where the icon of a rank tier spelled in lowercase is served; `None` for
/// a tier that is not known.
pub fn tier_icon_path(tier: &str) -> (r: Option<&'static str>)
    ensures
        path_text(r) == tier_icon(tier@),
{
    if same_text(tier, "iron") {
        Some("/static/ranks/iron.png")
    } else if same_text(tier, "bronze") {
        Some("/static/ranks/bronze.png")
    } else if same_text(tier, "silver") {
        Some("/static/ranks/silver.png")
    } else if same_text(tier, "gold") {
        Some("/static/ranks/gold.png")
    } else if same_text(tier, "platinum") {
        Some("/static/ranks/platinum.png")
    } else if same_text(tier, "sapphire") {
        Some("/static/ranks/sapphire.png")
    } else if same_text(tier, "ruby") {
        Some("/static/ranks/ruby.png")
    } else if same_text(tier, "diamond") {
        Some("/static/ranks/diamond.png")
    } else if same_text(tier, "master") {
        Some("/static/ranks/master.png")
    } else if same_text(tier, "grand master") || same_text(tier, "grandmaster") {
        Some("/static/ranks/grandmaster.png")
    } else {
        None
    }
}

/// Where the icon of `rank` is served, whatever the case of its letters;
/// `None` for a rank that is not known.
pub fn rank_icon(rank: &str) -> (r: Option<&'static str>)
    ensures
        path_text(r) == rank_icon_of(rank@),
{
    let lowered = lowercase(rank);
    tier_icon_path(lowered.as_str())
}

/// The icon of a rank that may be missing.
pub open spec fn icon_for(rank: Option<Seq<char>>) -> Option<Seq<char>> {
    match rank {
        Some(r) => rank_icon_of(r),
        None => None,
    }
}

/// The record handed out for what the ranking service reported.
pub open spec fn transformed<R>(up: UpstreamRecordView<R>) -> PlayerRecordView<R> {
    PlayerRecordView {
        source: up,
        rank_icon_url: icon_for(up.rank),
        partner_avg: partner_avg_of(up.mmr_changes),
        last_diff: last_diff_of(up.mmr_changes),
    }
}

/// Shapes the ranking service's record into the record handed out. The
/// reported fields are kept as they are; the icon, the partner average and
/// the last rating change are derived. No input makes this fail.
pub fn transform<R>(up: UpstreamRecord<R>) -> (r: PlayerRecord<R>)
    ensures
        r.source == up,
        r@ == transformed(up@),
        (forall|j: int| 0 <= j < up@.mmr_changes.len() ==> !is_table(#[trigger] up@.mmr_changes[j]))
            ==> r.partner_avg is None && r.last_diff is None,
{
    let partner_avg = partner_avg(&up.mmr_changes);
    let last_diff = last_diff(&up.mmr_changes);
    let rank_icon_url = match &up.rank {
        Some(rank) => match rank_icon(rank.as_str()) {
            Some(path) => Some(path.to_owned()),
            None => None,
        },
        None => None,
    };
    proof {
        if forall|j: int|
            0 <= j < up@.mmr_changes.len() ==> !is_table(#[trigger] up@.mmr_changes[j]) {
            lemma_no_table(up@.mmr_changes);
        }
    }
    PlayerRecord { source: up, rank_icon_url, partner_avg, last_diff }
}

} // verus!
