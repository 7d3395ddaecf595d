use f1_permutations::analysis::{calculate_possible_win, Analysis};
use f1_permutations::clinch::{calculate_available_points, relevant_drivers};
use f1_permutations::engine::{check_win_conditions, Scenario};
use f1_permutations::models::{AnalysisError, Driver, Race, RaceDate, RaceResultDTO, Season};
use f1_permutations::points::{max_position_for_format, points_for_position};
use f1_permutations::resolver::check_highest_position_to_dropout;

fn driver(id: &str) -> Driver {
    Driver {
        id: id.to_string(),
        number: "1".to_string(),
        full_name: format!("Driver {}", id),
        team_id: None,
    }
}

fn entry(id: &str, points: u32) -> RaceResultDTO {
    RaceResultDTO { driver: driver(id), season_points: points, diff_to_leader: 0 }
}

fn season(races: i8, done: i8, sprints: i8, sprints_done: i8, fl: bool) -> Season {
    Season {
        id: "2024".to_string(),
        champion: None,
        races,
        completed_races: done,
        sprints,
        completed_sprints: sprints_done,
        fl_extra_point: fl,
    }
}

fn race(sprint: bool) -> Race {
    Race {
        id: "monza".to_string(),
        date: RaceDate { year: 2024, month: 9, day: 1 },
        completed: false,
        canceled: false,
        full_distance: true,
        sprint_race: sprint,
        season_id: Some("2024".to_string()),
        grand_prix: "Italian Grand Prix".to_string(),
        circuit_id: None,
    }
}

fn scenarios(r: Result<Analysis, AnalysisError>) -> Vec<Scenario> {
    match r {
        Ok(Analysis::Scenarios(b)) => b,
        _ => panic!("expected scenarios"),
    }
}

#[test]
fn race_points_table() {
    assert_eq!(points_for_position(false, 1), 25);
    assert_eq!(points_for_position(false, 2), 18);
    assert_eq!(points_for_position(false, 3), 15);
    assert_eq!(points_for_position(false, 10), 1);
    assert_eq!(points_for_position(false, 11), 0);
    assert_eq!(points_for_position(false, 0), 0);
    assert_eq!(points_for_position(false, -1), 0);
    assert_eq!(max_position_for_format(false), 10);
}

#[test]
fn sprint_points_table() {
    assert_eq!(points_for_position(true, 1), 8);
    assert_eq!(points_for_position(true, 2), 7);
    assert_eq!(points_for_position(true, 8), 1);
    assert_eq!(points_for_position(true, 9), 0);
    assert_eq!(max_position_for_format(true), 8);
}

#[test]
fn available_points_without_fastest_lap() {
    assert_eq!(calculate_available_points(&season(24, 22, 6, 5, false)), Ok(58));
}

#[test]
fn available_points_with_fastest_lap() {
    assert_eq!(calculate_available_points(&season(24, 22, 6, 5, true)), Ok(60));
}

#[test]
fn available_points_rejects_negative_remaining() {
    assert_eq!(calculate_available_points(&season(20, 21, 6, 5, false)), Err(AnalysisError::Configuration));
    assert_eq!(calculate_available_points(&season(24, 22, 4, 5, false)), Err(AnalysisError::Configuration));
}

#[test]
fn equality_is_not_live() {
    let others = vec![entry("a", 176), entry("b", 175), entry("c", 190)];
    let live = relevant_drivers(200, &others, 25);
    let ids: Vec<String> = live.iter().map(|e| e.driver.id.clone()).collect();
    assert_eq!(ids, vec!["a".to_string(), "c".to_string()]);
}

#[test]
fn resolver_eliminated_at_best_position() {
    // Leader wins a full race: 225; rival on 180 can take at best 18 in second place.
    assert_eq!(check_highest_position_to_dropout(false, 225, 1, &entry("a", 180), 0), -1);
}

#[test]
fn resolver_strictly_out_at_later_position() {
    // Leader on 201; rival on 180: winning gives 205 (ahead), second place gives 198 (3 behind, 0 left).
    assert_eq!(check_highest_position_to_dropout(false, 201, 10, &entry("a", 180), 0), 2);
}

#[test]
fn resolver_exact_boundary() {
    // Rival on 80 taking second place (18) reaches 98: exactly 2 behind with 2 left.
    assert_eq!(check_highest_position_to_dropout(false, 100, 1, &entry("a", 80), 2), 2);
}

#[test]
fn resolver_exact_boundary_at_best_position() {
    // Rival on 75 winning reaches 100: gap 0 equals the 0 left.
    assert_eq!(check_highest_position_to_dropout(false, 100, 3, &entry("a", 75), 0), 1);
}

#[test]
fn resolver_never_eliminated() {
    assert_eq!(check_highest_position_to_dropout(false, 100, 1, &entry("a", 100), 50), 11);
    assert_eq!(check_highest_position_to_dropout(true, 100, 1, &entry("a", 100), 50), 9);
}

#[test]
fn resolver_is_deterministic() {
    let rival = entry("a", 180);
    let first = check_highest_position_to_dropout(false, 204, 8, &rival, 0);
    for _ in 0..5 {
        assert_eq!(check_highest_position_to_dropout(false, 204, 8, &rival, 0), first);
    }
    assert_eq!(first, 2);
}

#[test]
fn resolver_monotone_in_leader_points() {
    let rival = entry("a", 150);
    let mut previous = check_highest_position_to_dropout(false, 150, 4, &rival, 10);
    for leader in 151..230u64 {
        let t = check_highest_position_to_dropout(false, leader, 4, &rival, 10);
        assert!(t <= previous);
        previous = t;
    }
    assert_eq!(previous, -1);
}

#[test]
fn sentinel_only_when_best_position_fails() {
    // Leader wins, so the rival can at best be second (18): 190 + 18 + 5 = 213.
    assert_eq!(check_highest_position_to_dropout(false, 214, 1, &entry("a", 190), 5), -1);
    assert_eq!(check_highest_position_to_dropout(false, 213, 1, &entry("a", 190), 5), 2);
}

#[test]
fn last_race_scenario() {
    let s = season(24, 23, 6, 6, false);
    let standings = vec![entry("leader", 200), entry("a", 180), entry("b", 140)];
    let batch = scenarios(calculate_possible_win(&s, &standings, &Some(race(false))));
    assert_eq!(batch.len(), 10);
    let expected: [i8; 10] = [-1, -1, -1, -1, -1, -1, -1, 2, 2, 2];
    for (i, sc) in batch.iter().enumerate() {
        assert_eq!(sc.permutation.leader_position, (i + 1) as i8);
        assert_eq!(sc.permutation.driver_id, "leader");
        assert_eq!(sc.permutation.race_id, "monza");
        assert_eq!(sc.comparisons.len(), 1);
        assert_eq!(sc.comparisons[0].contender_id, "a");
        assert_eq!(sc.comparisons[0].leader_position, (i + 1) as i8);
        assert_eq!(sc.comparisons[0].highest_position, expected[i]);
        assert!(!sc.comparisons[0].leader_fl);
        assert!(sc.comparisons[0].without_fl);
    }
}

#[test]
fn completeness_of_scenarios() {
    // One race and one sprint left, the sprint next: 33 available, 25 after it.
    let s = season(24, 23, 6, 5, false);
    let standings = vec![entry("leader", 200), entry("a", 183), entry("b", 180), entry("c", 100)];
    let batch = scenarios(calculate_possible_win(&s, &standings, &Some(race(true))));
    assert_eq!(batch.len(), 8);
    for sc in &batch {
        assert_eq!(sc.comparisons.len(), 2);
        assert_eq!(sc.comparisons[0].contender_id, "a");
        assert_eq!(sc.comparisons[1].contender_id, "b");
    }
}

#[test]
fn fastest_lap_credited_to_leader() {
    // One race left worth 26; after it nothing is left. Leader tenth: 200 + 1 + 1 = 202.
    let s = season(24, 23, 6, 6, true);
    let standings = vec![entry("leader", 200), entry("a", 180)];
    let batch = scenarios(calculate_possible_win(&s, &standings, &Some(race(false))));
    assert_eq!(batch.len(), 10);
    assert!(batch[9].comparisons[0].leader_fl);
    // Rival winning: 205 leads by 3; second: 198 trails by 4.
    assert_eq!(batch[9].comparisons[0].highest_position, 2);
}

#[test]
fn champion_recorded_emits_nothing() {
    let mut s = season(24, 20, 6, 2, false);
    s.champion = Some(driver("leader"));
    let standings = vec![entry("leader", 200), entry("a", 195)];
    assert!(matches!(calculate_possible_win(&s, &standings, &Some(race(false))), Ok(Analysis::Decided)));
}

#[test]
fn season_over_has_no_contenders() {
    let s = season(24, 24, 6, 6, false);
    let standings = vec![entry("leader", 200), entry("a", 195)];
    assert!(matches!(calculate_possible_win(&s, &standings, &None), Ok(Analysis::Clinched)));
}

#[test]
fn season_over_with_tie() {
    let s = season(24, 24, 6, 6, false);
    let standings = vec![entry("leader", 200), entry("a", 200)];
    assert!(matches!(calculate_possible_win(&s, &standings, &None), Ok(Analysis::UnresolvedTie)));
}

#[test]
fn inconsistent_season_is_rejected() {
    let s = season(24, 25, 6, 6, false);
    let standings = vec![entry("leader", 200)];
    assert!(matches!(calculate_possible_win(&s, &standings, &None), Err(AnalysisError::Configuration)));
}

#[test]
fn missing_next_race_is_not_found() {
    let s = season(24, 22, 6, 6, false);
    let standings = vec![entry("leader", 200), entry("a", 190)];
    assert!(matches!(calculate_possible_win(&s, &standings, &None), Err(AnalysisError::NotFound)));
}

#[test]
fn no_live_rival_is_clinched() {
    let s = season(24, 23, 6, 6, false);
    let standings = vec![entry("leader", 200), entry("a", 175)];
    assert!(matches!(calculate_possible_win(&s, &standings, &Some(race(false))), Ok(Analysis::Clinched)));
}

#[test]
fn empty_standings() {
    let s = season(24, 23, 6, 6, false);
    assert!(matches!(calculate_possible_win(&s, &vec![], &Some(race(false))), Ok(Analysis::NoStandings)));
}

#[test]
fn undecisive_event_is_deferred() {
    // Five races left: 125 available, 100 after this one. 100 + 25 < 90 + 100.
    let s = season(24, 19, 6, 6, false);
    let standings = vec![entry("leader", 100), entry("a", 90)];
    let batch = scenarios(calculate_possible_win(&s, &standings, &Some(race(false))));
    assert!(batch.is_empty());
}

#[test]
fn engine_rejects_inconsistent_season() {
    let s = season(24, 25, 6, 6, false);
    let r = check_win_conditions(&s, &entry("leader", 200), &vec![entry("a", 190)], &race(false));
    assert!(matches!(r, Err(AnalysisError::Configuration)));
}

#[test]
fn completeness_for_full_race() {
    let s = season(24, 23, 6, 6, false);
    let standings = vec![entry("leader", 200), entry("a", 190), entry("b", 185), entry("c", 100)];
    let batch = scenarios(calculate_possible_win(&s, &standings, &Some(race(false))));
    assert_eq!(batch.len(), 10);
    for sc in &batch {
        assert_eq!(sc.comparisons.len(), 2);
    }
}

#[test]
fn standings_row_gap_to_leader() {
    let row = RaceResultDTO::new(driver("a"), 180, 200);
    assert_eq!(row.season_points, 180);
    assert_eq!(row.diff_to_leader, 20);
    assert_eq!(row.driver.id, "a");
    assert_eq!(RaceResultDTO::new(driver("b"), 200, 200).diff_to_leader, 0);
}

#[test]
fn duplicate_keeps_fields() {
    let mut d = driver("a");
    d.team_id = Some("ferrari".to_string());
    let row = RaceResultDTO::new(d, 77, 90);
    let copy = row.duplicate();
    assert_eq!(copy.driver.id, "a");
    assert_eq!(copy.driver.team_id, Some("ferrari".to_string()));
    assert_eq!(copy.driver.full_name, "Driver a");
    assert_eq!(copy.season_points, 77);
    assert_eq!(copy.diff_to_leader, 13);
}
