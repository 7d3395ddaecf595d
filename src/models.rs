use vstd::prelude::*;

verus! {

/// Body of the request that asks for a season to be analysed.
pub struct PermutationWebhookPayload {
    pub season: String,
}

pub struct Driver {
    pub id: String,
    pub number: String,
    pub full_name: String,
    pub team_id: Option<String>,
}

impl Driver {
    /// A field-for-field copy.
    pub fn duplicate(&self) -> (r: Driver)
        ensures
            r == *self,
    {
        let team_id = match &self.team_id {
            Some(t) => Some(t.clone()),
            None => None,
        };
        Driver {
            id: self.id.clone(),
            number: self.number.clone(),
            full_name: self.full_name.clone(),
            team_id,
        }
    }
}

/// A championship season. The counts are signed so that malformed data
/// (more completed events than scheduled) can be represented and rejected.
pub struct Season {
    pub id: String,
    pub champion: Option<Driver>,
    pub races: i8,
    pub completed_races: i8,
    pub sprints: i8,
    pub completed_sprints: i8,
    pub fl_extra_point: bool,
}

/// A calendar date, held as its parts.
#[derive(Clone, Copy, Debug, PartialEq, Eq, Structural)]
pub struct RaceDate {
    pub year: i32,
    pub month: u8,
    pub day: u8,
}

pub struct Race {
    pub id: String,
    pub date: RaceDate,
    pub completed: bool,
    pub canceled: bool,
    pub full_distance: bool,
    pub sprint_race: bool,
    pub season_id: Option<String>,
    pub grand_prix: String,
    pub circuit_id: Option<String>,
}

pub struct Circuit {
    pub id: String,
    pub country: String,
    pub circuit: String,
    pub description: String,
}

/// One hypothesised finishing position of the leader in the next event.
pub struct Permutation {
    pub id: String,
    pub driver_id: String,
    pub race_id: String,
    pub leader_position: i8,
    /// Seconds since the Unix epoch; set by the store.
    pub created_at: Option<i64>,
}

/// For one hypothesised leader position, the finishing position of one rival
/// at which that rival drops out of the title fight.
pub struct PermutationComparison {
    pub id: Option<String>,
    pub leader_position: i8,
    /// The leader's assumed total includes the fastest-lap point.
    pub leader_fl: bool,
    pub highest_position: i8,
    /// The rival's totals leave the fastest-lap point out.
    pub without_fl: bool,
    pub contender_id: String,
    pub prediction_id: String,
}

/// One row of the championship standings.
pub struct RaceResultDTO {
    pub driver: Driver,
    pub season_points: u32,
    pub diff_to_leader: u32,
}

impl RaceResultDTO {
    /// A standings row for `driver` on `season_points`, behind a leader on
    /// `leader_points` (a row level with or ahead of the leader is 0 behind).
    pub fn new(driver: Driver, season_points: u32, leader_points: u32) -> (r: RaceResultDTO)
        ensures
            r.driver == driver,
            r.season_points == season_points,
            r.diff_to_leader as int == if leader_points >= season_points {
                leader_points - season_points
            } else {
                0
            },
    {
        let diff_to_leader = if leader_points >= season_points { leader_points - season_points } else { 0 };
        RaceResultDTO { driver, season_points, diff_to_leader }
    }

    /// A field-for-field copy.
    pub fn duplicate(&self) -> (r: RaceResultDTO)
        ensures
            r == *self,
    {
        RaceResultDTO {
            driver: self.driver.duplicate(),
            season_points: self.season_points,
            diff_to_leader: self.diff_to_leader,
        }
    }
}

/// Why an analysis run stopped.
#[derive(Clone, Copy, Debug, PartialEq, Eq, Structural)]
pub enum AnalysisError {
    /// The season's counts are inconsistent (a negative number of events left).
    Configuration,
    /// Rivals are still in contention but no upcoming race exists.
    NotFound,
}

} // verus!
