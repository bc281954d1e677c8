//! Putting reports back in order.
//!
//! The root moves can be scored side by side, each by a task of its own, and
//! the tasks finish in any order. A task reports its candidate together with
//! the place of its move among the legal moves, and the reports are arranged
//! by place before one is picked. The choice then does not depend on which
//! task finished first.

use crate::dispatch::{
    candidate_of, candidates_of, chosen, root_moves_of, selected_move, Candidate,
};
use crate::outcomes::Settings;
use crate::rules::{mover_of, Side};
use vstd::prelude::*;

verus! {

/// A candidate and the place of its move among the legal moves.
#[derive(Clone, Copy, Debug, PartialEq, Eq)]
pub struct Report {
    pub place: usize,
    pub candidate: Candidate,
}

/// Whether the reports are those of `count` tasks, one for every place: as
/// many reports as places, each for a place that exists, no two for the same.
pub open spec fn is_complete(reports: Seq<Report>, count: nat) -> bool {
    &&& reports.len() == count
    &&& forall|i: int| 0 <= i < reports.len() ==> (#[trigger] reports[i]).place < count
    &&& forall|i: int, j: int|
        0 <= i < j < reports.len() ==> (#[trigger] reports[i]).place
            != (#[trigger] reports[j]).place
}

/// Whether `arranged` holds the candidate of every report at the report's
/// place, and nothing else.
pub open spec fn is_arranged(reports: Seq<Report>, arranged: Seq<Candidate>) -> bool {
    &&& arranged.len() == reports.len()
    &&& forall|i: int|
        0 <= i < reports.len() ==> (#[trigger] reports[i]).place < arranged.len()
            && arranged[reports[i].place as int] == reports[i].candidate
}

/// The places of the reports, in the order of the reports.
pub open spec fn places_of(reports: Seq<Report>) -> Seq<int> {
    reports.map_values(|r: Report| r.place as int)
}

/// Complete reports leave no place out.
pub proof fn lemma_every_place_reported(reports: Seq<Report>, count: nat, place: int)
    requires
        is_complete(reports, count),
        0 <= place < count,
    ensures
        exists|i: int| 0 <= i < reports.len() && (#[trigger] reports[i]).place == place,
{
    // The places are all different, so there are as many of them as reports,
    // which is as many as there are places at all: none can be missing.
    let places = places_of(reports);
    assert(places.no_duplicates());
    places.unique_seq_to_set();
    let all = vstd::set_lib::set_int_range(0, count as int);
    vstd::set_lib::lemma_int_range(0, count as int);
    assert(places.to_set().subset_of(all));
    vstd::set_lib::lemma_subset_equality(places.to_set(), all);
    assert(places.to_set().contains(place));
    let i = choose|i: int| 0 <= i < places.len() && places[i] == place;
    assert(reports[i].place == place);
}

/// Complete reports can be arranged in one way only.
pub proof fn lemma_arranged_once(
    reports: Seq<Report>,
    first: Seq<Candidate>,
    second: Seq<Candidate>,
)
    requires
        is_complete(reports, reports.len()),
        is_arranged(reports, first),
        is_arranged(reports, second),
    ensures
        first == second,
{
    assert forall|p: int| 0 <= p < first.len() implies first[p] == second[p] by {
        lemma_every_place_reported(reports, reports.len(), p);
    }
}

/// The order in which the tasks report does not matter: where every
/// candidate is reported once, with its place, arranging the reports gives the
/// candidates back in their own order.
pub proof fn lemma_arrival_order_is_immaterial(
    candidates: Seq<Candidate>,
    reports: Seq<Report>,
    arranged: Seq<Candidate>,
)
    requires
        is_complete(reports, candidates.len()),
        forall|i: int|
            0 <= i < reports.len() ==> (#[trigger] reports[i]).candidate
                == candidates[reports[i].place as int],
        is_arranged(reports, arranged),
    ensures
        arranged == candidates,
{
    lemma_arranged_once(reports, arranged, candidates);
}

/// Scoring the moves side by side changes nothing: where the reports are
/// those of the moves to score, one for every such move in whatever order,
/// the choice among the arranged reports is the move the engine plays. Out of
/// turn there is no move to score, no report, and no move played.
pub proof fn lemma_reports_give_the_selected_move(
    settings: Settings,
    fen: Seq<char>,
    side: Side,
    reports: Seq<Report>,
    arranged: Seq<Candidate>,
)
    requires
        is_complete(reports, root_moves_of(fen, side).len()),
        forall|i: int|
            0 <= i < reports.len() ==> (#[trigger] reports[i]).candidate == candidate_of(
                settings,
                fen,
                root_moves_of(fen, side)[reports[i].place as int],
            ),
        is_arranged(reports, arranged),
    ensures
        chosen(arranged) == selected_move(settings, fen, side),
{
    if mover_of(fen) == side {
        lemma_arrival_order_is_immaterial(candidates_of(settings, fen), reports, arranged);
    } else {
        assert(arranged.len() == 0);
    }
}

/// Arranges the reports by place. Reports that are not complete are not
/// arranged at all.
pub fn arrange(reports: &Vec<Report>, count: usize) -> (arranged: Option<Vec<Candidate>>)
    ensures
        arranged.is_some() <==> is_complete(reports@, count as nat),
        arranged matches Some(v) ==> is_arranged(reports@, v@),
{
    if reports.len() != count {
        return None;
    }
    let mut slots: Vec<Option<Candidate>> = Vec::new();
    let mut n: usize = 0;
    while n < count
        invariant
            n <= count,
            slots.len() == n,
            forall|p: int| 0 <= p < n ==> slots@[p].is_none(),
        decreases count - n,
    {
        slots.push(None);
        n += 1;
    }
    let mut i: usize = 0;
    while i < reports.len()
        invariant
            i <= reports.len(),
            reports.len() == count,
            slots.len() == count,
            forall|j: int| 0 <= j < i ==> (#[trigger] reports@[j]).place < count,
            forall|j: int, k: int|
                0 <= j < k < i ==> (#[trigger] reports@[j]).place
                    != (#[trigger] reports@[k]).place,
            forall|j: int|
                0 <= j < i ==> slots@[(#[trigger] reports@[j]).place as int] == Some(
                    reports@[j].candidate,
                ),
            forall|p: int|
                0 <= p < count && (#[trigger] slots@[p]).is_some() ==> exists|j: int|
                    0 <= j < i && (#[trigger] reports@[j]).place == p,
        decreases reports.len() - i,
    {
        let report = reports[i];
        if report.place >= count {
            return None;
        }
        if slots[report.place].is_some() {
            return None;
        }
        slots.set(report.place, Some(report.candidate));
        i += 1;
    }
    let mut arranged: Vec<Candidate> = Vec::new();
    let mut p: usize = 0;
    while p < count
        invariant
            p <= count,
            reports.len() == count,
            slots.len() == count,
            arranged.len() == p,
            is_complete(reports@, count as nat),
            forall|j: int|
                0 <= j < reports.len() ==> slots@[(#[trigger] reports@[j]).place as int] == Some(
                    reports@[j].candidate,
                ),
            forall|q: int| 0 <= q < p ==> slots@[q] == Some(#[trigger] arranged@[q]),
        decreases count - p,
    {
        proof {
            lemma_every_place_reported(reports@, count as nat, p as int);
        }
        let candidate = slots[p].unwrap();
        arranged.push(candidate);
        p += 1;
    }
    Some(arranged)
}

} // verus!
