use vstd::prelude::*;

use crate::clinch::{available_points, calculate_available_points, race_haul, season_consistent};
use crate::models::{AnalysisError, Permutation, PermutationComparison, Race, RaceResultDTO, Season};
use crate::points::{best_event_points, max_position, max_position_for_format, points_at, points_for_position};
use crate::resolver::{check_highest_position_to_dropout, threshold};

verus! {

/// One hypothesised leader finishing position together with the threshold of
/// every live rival for it. Identifiers are left empty for the store to assign.
pub struct Scenario {
    pub permutation: Permutation,
    pub comparisons: Vec<PermutationComparison>,
}

/// Bonus point the leader is credited for the fastest lap.
pub open spec fn fastest_lap_bonus(season: Season) -> int {
    if season.fl_extra_point { 1 } else { 0 }
}

/// Most points the event under analysis can award a single driver.
pub open spec fn event_haul(season: Season, is_sprint: bool) -> int {
    if is_sprint { 8 } else { race_haul(season) }
}

/// Points still to be awarded once the event under analysis is over.
pub open spec fn points_left_after(season: Season, is_sprint: bool) -> int {
    let left = available_points(season) - event_haul(season, is_sprint);
    if left < 0 { 0 } else { left }
}

/// The leader's total after finishing at `position`.
pub open spec fn leader_total(season: Season, leader_points: int, is_sprint: bool, position: int) -> int {
    leader_points + points_at(is_sprint, position) + fastest_lap_bonus(season)
}

/// This event cannot decide anything: there is no live rival, or even the
/// leader winning while the nearest rival scores nothing leaves the gap below
/// what is still to be awarded afterwards.
pub open spec fn deferred(leader_points: int, contenders: Seq<RaceResultDTO>, is_sprint: bool, points_left: int) -> bool {
    contenders.len() == 0 || leader_points + best_event_points(is_sprint) < contenders[0].season_points + points_left
}

/// `c` records, for the leader finishing at `position`, the elimination
/// threshold of `contender`.
pub open spec fn comparison_for(
    c: PermutationComparison,
    season: Season,
    leader: RaceResultDTO,
    is_sprint: bool,
    position: int,
    contender: RaceResultDTO,
    points_left: int,
) -> bool {
    &&& c.id is None
    &&& c.leader_position == position
    &&& c.leader_fl == season.fl_extra_point
    &&& c.without_fl
    &&& c.contender_id == contender.driver.id
    &&& c.prediction_id@ == Seq::<char>::empty()
    &&& c.highest_position == threshold(
        is_sprint,
        leader_total(season, leader.season_points as int, is_sprint, position),
        position,
        contender.season_points as int,
        points_left,
    )
}

/// `s` is the scenario of the leader finishing at `position`: one comparison per
/// contender, in the contenders' order.
pub open spec fn scenario_for(
    s: Scenario,
    season: Season,
    leader: RaceResultDTO,
    contenders: Seq<RaceResultDTO>,
    race: Race,
    position: int,
    points_left: int,
) -> bool {
    &&& s.permutation.id@ == Seq::<char>::empty()
    &&& s.permutation.driver_id == leader.driver.id
    &&& s.permutation.race_id == race.id
    &&& s.permutation.leader_position == position
    &&& s.permutation.created_at is None
    &&& s.comparisons@.len() == contenders.len()
    &&& forall|j: int|
        0 <= j < contenders.len() ==> #[trigger] comparison_for(
            s.comparisons@[j],
            season,
            leader,
            race.sprint_race,
            position,
            contenders[j],
            points_left,
        )
}

/// `b` is the full scenario set for `race`: empty when the event is deferred,
/// else one scenario per leader finishing position, in ascending order.
pub open spec fn batch_for(
    b: Seq<Scenario>,
    season: Season,
    leader: RaceResultDTO,
    contenders: Seq<RaceResultDTO>,
    race: Race,
) -> bool {
    let left = points_left_after(season, race.sprint_race);
    if deferred(leader.season_points as int, contenders, race.sprint_race, left) {
        b.len() == 0
    } else {
        &&& b.len() == max_position(race.sprint_race)
        &&& forall|i: int|
            0 <= i < b.len() ==> #[trigger] scenario_for(b[i], season, leader, contenders, race, i + 1, left)
    }
}

/// Unless the event is deferred, a scenario set holds one scenario per scoring
/// position of the event's format, and each scenario one comparison per live
/// contender.
pub proof fn lemma_batch_complete(
    b: Seq<Scenario>,
    season: Season,
    leader: RaceResultDTO,
    contenders: Seq<RaceResultDTO>,
    race: Race,
)
    requires
        batch_for(b, season, leader, contenders, race),
        !deferred(leader.season_points as int, contenders, race.sprint_race, points_left_after(season, race.sprint_race)),
    ensures
        b.len() == max_position(race.sprint_race),
        forall|i: int| 0 <= i < b.len() ==> (#[trigger] b[i]).comparisons@.len() == contenders.len(),
{
    assert forall|i: int| 0 <= i < b.len() implies (#[trigger] b[i]).comparisons@.len() == contenders.len() by {
        assert(scenario_for(b[i], season, leader, contenders, race, i + 1, points_left_after(season, race.sprint_race)));
    }
}

/// The scenario of the leader finishing at `position` in `race`, with
/// `points_left` points still to be awarded after it.
pub fn check_win_condition_for_position(
    season: &Season,
    leader: &RaceResultDTO,
    contenders: &Vec<RaceResultDTO>,
    race: &Race,
    position: i8,
    points_left: u64,
) -> (r: Scenario)
    requires
        1 <= position <= max_position(race.sprint_race),
    ensures
        scenario_for(r, *season, *leader, contenders@, *race, position as int, points_left as int),
{
    let is_sprint = race.sprint_race;
    let bonus: u64 = if season.fl_extra_point { 1 } else { 0 };
    let leader_points = leader.season_points as u64 + points_for_position(is_sprint, position) as u64 + bonus;
    let mut comparisons: Vec<PermutationComparison> = Vec::new();
    let mut j: usize = 0;
    while j < contenders.len()
        invariant
            j <= contenders.len(),
            1 <= position <= max_position(is_sprint),
            is_sprint == race.sprint_race,
            leader_points as int == leader_total(*season, leader.season_points as int, is_sprint, position as int),
            comparisons@.len() == j,
            forall|m: int|
                0 <= m < j ==> #[trigger] comparison_for(
                    comparisons@[m],
                    *season,
                    *leader,
                    is_sprint,
                    position as int,
                    contenders@[m],
                    points_left as int,
                ),
        decreases contenders.len() - j,
    {
        let contender = &contenders[j];
        let dropout_position = check_highest_position_to_dropout(
            is_sprint,
            leader_points,
            position,
            contender,
            points_left,
        );
        comparisons.push(
            PermutationComparison {
                id: None,
                leader_position: position,
                leader_fl: season.fl_extra_point,
                highest_position: dropout_position,
                without_fl: true,
                contender_id: contender.driver.id.clone(),
                prediction_id: String::new(),
            },
        );
        j = j + 1;
    }
    Scenario {
        permutation: Permutation {
            id: String::new(),
            driver_id: leader.driver.id.clone(),
            race_id: race.id.clone(),
            leader_position: position,
            created_at: None,
        },
        comparisons,
    }
}

/// Every scenario for `next_race`: for each leader finishing position in
/// ascending order, the elimination threshold of each live rival. Empty when
/// the event is deferred; fails on an inconsistent season.
pub fn check_win_conditions(
    season: &Season,
    lead_driver: &RaceResultDTO,
    relevant_drivers: &Vec<RaceResultDTO>,
    next_race: &Race,
) -> (r: Result<Vec<Scenario>, AnalysisError>)
    ensures
        season_consistent(*season) <==> r is Ok,
        !season_consistent(*season) ==> r == Err::<Vec<Scenario>, AnalysisError>(AnalysisError::Configuration),
        r matches Ok(b) ==> batch_for(b@, *season, *lead_driver, relevant_drivers@, *next_race),
{
    let available = match calculate_available_points(season) {
        Ok(v) => v,
        Err(e) => {
            return Err(e);
        },
    };
    let is_sprint = next_race.sprint_race;
    let haul: u64 = if is_sprint { 8 } else if season.fl_extra_point { 26 } else { 25 };
    let points_left: u64 = if available >= haul { available - haul } else { 0 };
    let mut scenarios: Vec<Scenario> = Vec::new();
    if relevant_drivers.len() == 0 {
        return Ok(scenarios);
    }
    let best = points_for_position(is_sprint, 1);
    if (lead_driver.season_points as u128) + (best as u128) < (relevant_drivers[0].season_points as u128)
        + (points_left as u128) {
        return Ok(scenarios);
    }
    let max = max_position_for_format(is_sprint);
    let mut position: i8 = 1;
    while position <= max
        invariant
            1 <= position <= max + 1,
            max == max_position(is_sprint),
            is_sprint == next_race.sprint_race,
            points_left as int == points_left_after(*season, is_sprint),
            scenarios@.len() == position - 1,
            forall|i: int|
                0 <= i < scenarios@.len() ==> #[trigger] scenario_for(
                    scenarios@[i],
                    *season,
                    *lead_driver,
                    relevant_drivers@,
                    *next_race,
                    i + 1,
                    points_left as int,
                ),
        decreases max + 1 - position,
    {
        let scenario = check_win_condition_for_position(
            season,
            lead_driver,
            relevant_drivers,
            next_race,
            position,
            points_left,
        );
        scenarios.push(scenario);
        position = position + 1;
    }
    Ok(scenarios)
}

} // verus!
