use vstd::prelude::*;

use crate::clinch::{
    available_points,
    calculate_available_points,
    live_among,
    races_left,
    relevant_drivers,
    season_consistent,
    sprints_left,
};
use crate::engine::{batch_for, check_win_conditions, Scenario};
use crate::models::{AnalysisError, Race, RaceResultDTO, Season};

verus! {

/// What one analysis run of a season concluded.
pub enum Analysis {
    /// A champion is already recorded: nothing was analysed.
    Decided,
    /// The standings are empty.
    NoStandings,
    /// No rival can still overtake the leader.
    Clinched,
    /// The season is over and the leader shares the top score.
    UnresolvedTie,
    /// Rivals are still live: the scenarios for the next race.
    Scenarios(Vec<Scenario>),
}

/// The season is over and some entry after the first has at least the
/// first entry's points.
pub open spec fn tied_at_top(standings: Seq<RaceResultDTO>) -> bool {
    exists|i: int| 1 <= i < standings.len() && #[trigger] standings[i].season_points >= standings[0].season_points
}

/// The live contenders of a season: none when the standings are empty or no
/// full race is left, else the entries after the leader that are live.
pub open spec fn live_contenders(season: Season, standings: Seq<RaceResultDTO>) -> Seq<RaceResultDTO> {
    if standings.len() == 0 || races_left(season) <= 0 {
        Seq::empty()
    } else {
        live_among(standings[0].season_points as int, available_points(season), standings.drop_first())
    }
}

/// The run's result for a season with no recorded champion, consistent counts
/// and non-empty standings.
pub open spec fn analysis_for(
    r: Result<Analysis, AnalysisError>,
    season: Season,
    standings: Seq<RaceResultDTO>,
    next_race: Option<Race>,
) -> bool {
    let live = live_contenders(season, standings);
    if races_left(season) == 0 {
        if tied_at_top(standings) {
            r == Ok::<Analysis, AnalysisError>(Analysis::UnresolvedTie)
        } else {
            r == Ok::<Analysis, AnalysisError>(Analysis::Clinched)
        }
    } else if live.len() == 0 {
        r == Ok::<Analysis, AnalysisError>(Analysis::Clinched)
    } else {
        match next_race {
            None => r == Err::<Analysis, AnalysisError>(AnalysisError::NotFound),
            Some(race) => r matches Ok(Analysis::Scenarios(b)) && batch_for(b@, season, standings[0], live, race),
        }
    }
}

fn entries_after_leader(standings: &Vec<RaceResultDTO>) -> (r: Vec<RaceResultDTO>)
    requires
        standings@.len() > 0,
    ensures
        r@ == standings@.drop_first(),
{
    let mut rest: Vec<RaceResultDTO> = Vec::new();
    let mut i: usize = 1;
    while i < standings.len()
        invariant
            1 <= i <= standings.len(),
            rest@ == standings@.subrange(1, i as int),
        decreases standings.len() - i,
    {
        rest.push(standings[i].duplicate());
        proof {
            assert(rest@ =~= standings@.subrange(1, i as int + 1));
        }
        i = i + 1;
    }
    assert(rest@ =~= standings@.drop_first());
    rest
}

/// Analyses a season from its standings (leader first) and its next unresolved
/// race, if any: stops at once when a champion is recorded, rejects
/// inconsistent counts, and otherwise finds the live rivals and, if there are
/// any, every scenario for the next race.
pub fn calculate_possible_win(season: &Season, standings: &Vec<RaceResultDTO>, next_race: &Option<Race>) -> (r: Result<
    Analysis,
    AnalysisError,
>)
    ensures
        season.champion is Some ==> r == Ok::<Analysis, AnalysisError>(Analysis::Decided),
        season.champion is None && !season_consistent(*season) ==> r == Err::<Analysis, AnalysisError>(
            AnalysisError::Configuration,
        ),
        season.champion is None && season_consistent(*season) && standings@.len() == 0 ==> r == Ok::<
            Analysis,
            AnalysisError,
        >(Analysis::NoStandings),
        season.champion is None && season_consistent(*season) && standings@.len() > 0 ==> analysis_for(
            r,
            *season,
            standings@,
            *next_race,
        ),
{
    if season.champion.is_some() {
        return Ok(Analysis::Decided);
    }
    let available = match calculate_available_points(season) {
        Ok(v) => v,
        Err(e) => {
            return Err(e);
        },
    };
    if standings.len() == 0 {
        return Ok(Analysis::NoStandings);
    }
    let leader = &standings[0];
    if season.races == season.completed_races {
        let mut i: usize = 1;
        while i < standings.len()
            invariant
                1 <= i <= standings.len(),
                leader == standings@[0],
                season.champion is None,
                season_consistent(*season),
                races_left(*season) == 0,
                forall|m: int| 1 <= m < i ==> #[trigger] standings@[m].season_points < leader.season_points,
            decreases standings.len() - i,
        {
            if standings[i].season_points >= leader.season_points {
                return Ok(Analysis::UnresolvedTie);
            }
            i = i + 1;
        }
        return Ok(Analysis::Clinched);
    }
    let others = entries_after_leader(standings);
    let live = relevant_drivers(leader.season_points, &others, available);
    if live.len() == 0 {
        return Ok(Analysis::Clinched);
    }
    match next_race {
        None => Err(AnalysisError::NotFound),
        Some(race) => match check_win_conditions(season, leader, &live, race) {
            Ok(b) => Ok(Analysis::Scenarios(b)),
            Err(e) => Err(e),
        },
    }
}

/// With no full race and no sprint left, nobody is a live contender.
pub proof fn lemma_season_over_no_contenders(season: Season, standings: Seq<RaceResultDTO>)
    requires
        races_left(season) == 0,
        sprints_left(season) == 0,
    ensures
        live_contenders(season, standings).len() == 0,
{
}

/// While a full race is left, an entry after the leader is a live contender
/// exactly when its points plus every point still to be awarded strictly
/// exceed the leader's.
pub proof fn lemma_live_contender_iff(season: Season, standings: Seq<RaceResultDTO>, i: int)
    requires
        races_left(season) > 0,
        1 <= i < standings.len(),
    ensures
        live_contenders(season, standings).contains(standings[i]) <==> standings[i].season_points
            + available_points(season) > standings[0].season_points,
{
    let rest = standings.drop_first();
    assert(rest[i - 1] == standings[i]);
    crate::clinch::lemma_live_membership(standings[0].season_points as int, available_points(season), rest, i - 1);
}

} // verus!
