use vstd::prelude::*;

verus! {

/// Number of classified finishing positions that score in a full race.
pub const RACE_SCORING_POSITIONS: i8 = 10;

/// Number of classified finishing positions that score in a sprint.
pub const SPRINT_SCORING_POSITIONS: i8 = 8;

/// Last scoring position for the event format.
pub open spec fn max_position(is_sprint: bool) -> int {
    if is_sprint { SPRINT_SCORING_POSITIONS as int } else { RACE_SCORING_POSITIONS as int }
}

/// Points awarded in a full race, by finishing position; zero outside the scoring range.
pub open spec fn race_points(position: int) -> int {
    if position == 1 { 25 }
    else if position == 2 { 18 }
    else if position == 3 { 15 }
    else if position == 4 { 12 }
    else if position == 5 { 10 }
    else if position == 6 { 8 }
    else if position == 7 { 6 }
    else if position == 8 { 4 }
    else if position == 9 { 2 }
    else if position == 10 { 1 }
    else { 0 }
}

/// Points awarded in a sprint, by finishing position; zero outside the scoring range.
pub open spec fn sprint_points(position: int) -> int {
    if 1 <= position <= 8 { 9 - position } else { 0 }
}

/// Points for a finishing position in the given format.
pub open spec fn points_at(is_sprint: bool, position: int) -> int {
    if is_sprint { sprint_points(position) } else { race_points(position) }
}

/// Largest haul from one event: the winner's points.
pub open spec fn best_event_points(is_sprint: bool) -> int {
    points_at(is_sprint, 1)
}

/// Points scored by finishing at `position` in an event of the given format.
pub fn points_for_position(is_sprint: bool, position: i8) -> (r: u32)
    ensures
        r as int == points_at(is_sprint, position as int),
        r <= 25,
{
    if is_sprint {
        if 1 <= position && position <= SPRINT_SCORING_POSITIONS {
            (9 - position) as u32
        } else {
            0
        }
    } else {
        match position {
            1 => 25,
            2 => 18,
            3 => 15,
            4 => 12,
            5 => 10,
            6 => 8,
            7 => 6,
            8 => 4,
            9 => 2,
            10 => 1,
            _ => 0,
        }
    }
}

/// Last scoring position for the event format.
pub fn max_position_for_format(is_sprint: bool) -> (r: i8)
    ensures
        r as int == max_position(is_sprint),
{
    if is_sprint { SPRINT_SCORING_POSITIONS } else { RACE_SCORING_POSITIONS }
}

} // verus!
