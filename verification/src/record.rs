//! The records that pass through the service, and their mathematical views.
//!
//! Real-valued statistics are never inspected here. They are carried in a
//! type parameter `R`, which callers instantiate with their number type.

use vstd::prelude::*;

verus! {

/// The characters of an optional string.
pub open spec fn text_of(s: Option<String>) -> Option<Seq<char>> {
    match s {
        Some(t) => Some(t@),
        None => None,
    }
}

/// A number of hundredths: `value` stands for `value / 100`.
#[derive(Debug, Clone, Copy, PartialEq, Eq, Structural)]
pub struct Hundredths {
    pub value: i128,
}

/// One rating change in a player's history.
#[derive(Debug, PartialEq)]
pub struct MmrChange {
    /// By how much the rating changed.
    pub delta: Option<i64>,
    /// What caused the change.
    pub reason: Option<String>,
    /// The scores of the player's partners in the event.
    pub partner_scores: Vec<i64>,
}

/// The view of an [`MmrChange`].
pub struct MmrChangeView {
    pub delta: Option<i64>,
    pub reason: Option<Seq<char>>,
    pub partner_scores: Seq<i64>,
}

impl View for MmrChange {
    type V = MmrChangeView;

    open spec fn view(&self) -> MmrChangeView {
        MmrChangeView {
            delta: self.delta,
            reason: text_of(self.reason),
            partner_scores: self.partner_scores@,
        }
    }
}

/// The views of a sequence of rating changes.
pub open spec fn changes_of(changes: Seq<MmrChange>) -> Seq<MmrChangeView> {
    changes.map_values(|c: MmrChange| c@)
}

impl Clone for MmrChange {
    fn clone(&self) -> (r: Self)
        ensures
            r@ == self@,
    {
        MmrChange {
            delta: self.delta,
            reason: self.reason.clone(),
            partner_scores: self.partner_scores.clone(),
        }
    }
}

/// A player's record as the ranking service reports it.
#[derive(Debug, PartialEq)]
pub struct UpstreamRecord<R> {
    pub name: String,
    pub country_code: Option<String>,
    pub country_name: Option<String>,
    pub mmr: Option<R>,
    pub max_mmr: Option<R>,
    pub overall_rank: Option<i64>,
    pub events_played: Option<i64>,
    pub win_rate: Option<R>,
    pub win_loss_last_ten: Option<String>,
    pub gain_loss_last_ten: Option<i64>,
    pub largest_gain: Option<i64>,
    pub average_score: Option<R>,
    pub average_last_ten: Option<R>,
    /// The rank tier, as the service spells it.
    pub rank: Option<String>,
    /// The rating changes, most recent first.
    pub mmr_changes: Vec<MmrChange>,
}

/// The view of an [`UpstreamRecord`].
pub struct UpstreamRecordView<R> {
    pub name: Seq<char>,
    pub country_code: Option<Seq<char>>,
    pub country_name: Option<Seq<char>>,
    pub mmr: Option<R>,
    pub max_mmr: Option<R>,
    pub overall_rank: Option<i64>,
    pub events_played: Option<i64>,
    pub win_rate: Option<R>,
    pub win_loss_last_ten: Option<Seq<char>>,
    pub gain_loss_last_ten: Option<i64>,
    pub largest_gain: Option<i64>,
    pub average_score: Option<R>,
    pub average_last_ten: Option<R>,
    pub rank: Option<Seq<char>>,
    pub mmr_changes: Seq<MmrChangeView>,
}

impl<R> View for UpstreamRecord<R> {
    type V = UpstreamRecordView<R>;

    open spec fn view(&self) -> UpstreamRecordView<R> {
        UpstreamRecordView {
            name: self.name@,
            country_code: text_of(self.country_code),
            country_name: text_of(self.country_name),
            mmr: self.mmr,
            max_mmr: self.max_mmr,
            overall_rank: self.overall_rank,
            events_played: self.events_played,
            win_rate: self.win_rate,
            win_loss_last_ten: text_of(self.win_loss_last_ten),
            gain_loss_last_ten: self.gain_loss_last_ten,
            largest_gain: self.largest_gain,
            average_score: self.average_score,
            average_last_ten: self.average_last_ten,
            rank: text_of(self.rank),
            mmr_changes: changes_of(self.mmr_changes@),
        }
    }
}

/// A copy of `changes`, element by element.
pub fn clone_changes(changes: &Vec<MmrChange>) -> (r: Vec<MmrChange>)
    ensures
        changes_of(r@) == changes_of(changes@),
{
    let mut out: Vec<MmrChange> = Vec::new();
    let mut i: usize = 0;
    while i < changes.len()
        invariant
            i <= changes.len(),
            out.len() == i,
            forall|j: int| 0 <= j < i ==> out@[j]@ == changes@[j]@,
        decreases changes.len() - i,
    {
        out.push(changes[i].clone());
        i += 1;
    }
    assert(changes_of(out@) =~= changes_of(changes@));
    out
}

impl<R: Copy> Clone for UpstreamRecord<R> {
    fn clone(&self) -> (r: Self)
        ensures
            r@ == self@,
    {
        UpstreamRecord {
            name: self.name.clone(),
            country_code: self.country_code.clone(),
            country_name: self.country_name.clone(),
            mmr: self.mmr,
            max_mmr: self.max_mmr,
            overall_rank: self.overall_rank,
            events_played: self.events_played,
            win_rate: self.win_rate,
            win_loss_last_ten: self.win_loss_last_ten.clone(),
            gain_loss_last_ten: self.gain_loss_last_ten,
            largest_gain: self.largest_gain,
            average_score: self.average_score,
            average_last_ten: self.average_last_ten,
            rank: self.rank.clone(),
            mmr_changes: clone_changes(&self.mmr_changes),
        }
    }
}

/// A player's record as the service hands it out: what the ranking service
/// reported, and three values derived from it.
#[derive(Debug, PartialEq)]
pub struct PlayerRecord<R> {
    /// What the ranking service reported, unchanged.
    pub source: UpstreamRecord<R>,
    /// Where the icon of the player's rank tier is served, if the tier is known.
    pub rank_icon_url: Option<String>,
    /// The mean score of the player's partners over all table events.
    pub partner_avg: Option<Hundredths>,
    /// The rating change of the most recent table event.
    pub last_diff: Option<i64>,
}

/// The view of a [`PlayerRecord`].
pub struct PlayerRecordView<R> {
    pub source: UpstreamRecordView<R>,
    pub rank_icon_url: Option<Seq<char>>,
    pub partner_avg: Option<Hundredths>,
    pub last_diff: Option<i64>,
}

impl<R> View for PlayerRecord<R> {
    type V = PlayerRecordView<R>;

    open spec fn view(&self) -> PlayerRecordView<R> {
        PlayerRecordView {
            source: self.source@,
            rank_icon_url: text_of(self.rank_icon_url),
            partner_avg: self.partner_avg,
            last_diff: self.last_diff,
        }
    }
}

impl<R: Copy> Clone for PlayerRecord<R> {
    fn clone(&self) -> (r: Self)
        ensures
            r@ == self@,
    {
        PlayerRecord {
            source: self.source.clone(),
            rank_icon_url: self.rank_icon_url.clone(),
            partner_avg: self.partner_avg,
            last_diff: self.last_diff,
        }
    }
}

} // verus!
