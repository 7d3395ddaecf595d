use vstd::prelude::*;

use crate::models::{AnalysisError, RaceResultDTO, Season};

verus! {

/// Full races still to be run.
pub open spec fn races_left(season: Season) -> int {
    season.races - season.completed_races
}

/// Sprints still to be run.
pub open spec fn sprints_left(season: Season) -> int {
    season.sprints - season.completed_sprints
}

/// Neither count of events still to be run is negative.
pub open spec fn season_consistent(season: Season) -> bool {
    races_left(season) >= 0 && sprints_left(season) >= 0
}

/// Most points one full race can award a single driver.
pub open spec fn race_haul(season: Season) -> int {
    25 + if season.fl_extra_point { 1int } else { 0int }
}

/// Most points a driver can still collect over the rest of the season.
pub open spec fn available_points(season: Season) -> int {
    races_left(season) * race_haul(season) + sprints_left(season) * 8
}

/// A non-leader entry is live when its points plus every point still to be
/// awarded strictly exceed the leader's points.
pub open spec fn is_live(leader_points: int, available: int, entry: RaceResultDTO) -> bool {
    entry.season_points + available > leader_points
}

/// The entries after the leader, in standings order, that are live.
pub open spec fn live_among(leader_points: int, available: int, others: Seq<RaceResultDTO>) -> Seq<
    RaceResultDTO,
> {
    others.filter(|e: RaceResultDTO| is_live(leader_points, available, e))
}

/// Most points a driver can still collect this season; fails on a season whose
/// completed counts exceed its scheduled ones.
pub fn calculate_available_points(season: &Season) -> (r: Result<u64, AnalysisError>)
    ensures
        season_consistent(*season) <==> r is Ok,
        !season_consistent(*season) ==> r == Err::<u64, AnalysisError>(AnalysisError::Configuration),
        r matches Ok(v) ==> v as int == available_points(*season),
{
    let races_remaining = season.races as i64 - season.completed_races as i64;
    let sprints_remaining = season.sprints as i64 - season.completed_sprints as i64;
    if races_remaining < 0 || sprints_remaining < 0 {
        return Err(AnalysisError::Configuration);
    }
    let fastest_point: u64 = if season.fl_extra_point { 1 } else { 0 };
    let races_remaining = races_remaining as u64;
    let sprints_remaining = sprints_remaining as u64;
    let haul: u64 = 25 + fastest_point;
    assert(races_remaining <= 255 && sprints_remaining <= 255 && haul <= 26);
    assert(races_remaining * haul <= 255 * 26) by (nonlinear_arith)
        requires
            races_remaining <= 255,
            haul <= 26,
    ;
    let total = races_remaining * haul + sprints_remaining * 8;
    Ok(total)
}

/// The entries of `others` that are live against a leader on `leader_points`
/// with `available` points still to be awarded, in the order they have there.
pub fn relevant_drivers(leader_points: u32, others: &Vec<RaceResultDTO>, available: u64) -> (r: Vec<
    RaceResultDTO,
>)
    ensures
        r@ == live_among(leader_points as int, available as int, others@),
{
    let ghost pred = |e: RaceResultDTO| is_live(leader_points as int, available as int, e);
    let mut live: Vec<RaceResultDTO> = Vec::new();
    let mut i: usize = 0;
    while i < others.len()
        invariant
            i <= others.len(),
            pred == (|e: RaceResultDTO| is_live(leader_points as int, available as int, e)),
            live@ == others@.subrange(0, i as int).filter(pred),
        decreases others.len() - i,
    {
        let entry = &others[i];
        proof {
            let next = others@.subrange(0, i as int + 1);
            assert(next.drop_last() =~= others@.subrange(0, i as int));
            assert(next.last() == others@[i as int]);
            reveal(Seq::filter);
        }
        if entry.season_points as u128 + available as u128 > leader_points as u128 {
            live.push(entry.duplicate());
        }
        i = i + 1;
    }
    assert(others@.subrange(0, others@.len() as int) =~= others@);
    live
}

/// An entry after the leader is among the live ones exactly when its points
/// plus every point still to be awarded strictly exceed the leader's.
pub proof fn lemma_live_membership(
    leader_points: int,
    available: int,
    others: Seq<RaceResultDTO>,
    i: int,
)
    requires
        0 <= i < others.len(),
    ensures
        live_among(leader_points, available, others).contains(others[i]) <==> others[i].season_points
            + available > leader_points,
{
    let pred = |e: RaceResultDTO| is_live(leader_points, available, e);
    let live = others.filter(pred);
    if pred(others[i]) {
        others.lemma_filter_contains(pred, i);
    }
    if live.contains(others[i]) {
        let j = choose|j: int| 0 <= j < live.len() && live[j] == others[i];
        others.lemma_filter_pred(pred, j);
    }
}

} // verus!
