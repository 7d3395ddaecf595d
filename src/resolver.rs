use vstd::prelude::*;

use crate::models::RaceResultDTO;
use crate::points::{max_position, max_position_for_format, points_at, points_for_position};

verus! {

/// The rival, finishing at `position`, cannot even catch the leader with every
/// point that is left after this event.
pub open spec fn out_of_reach_at(
    is_sprint: bool,
    leader_points: int,
    rival_points: int,
    points_left: int,
    position: int,
) -> bool {
    leader_points - (rival_points + points_at(is_sprint, position)) > points_left
}

/// The rival, finishing at `position`, can exactly draw level with the leader
/// by taking every point that is left after this event.
pub open spec fn exact_boundary_at(
    is_sprint: bool,
    leader_points: int,
    rival_points: int,
    points_left: int,
    position: int,
) -> bool {
    leader_points - (rival_points + points_at(is_sprint, position)) == points_left
}

/// The scan of the rival's finishing positions from `position` on, in ascending
/// order, skipping the leader's own position. `scanned` records whether an
/// earlier candidate position was already looked at.
pub open spec fn threshold_from(
    is_sprint: bool,
    leader_points: int,
    leader_position: int,
    rival_points: int,
    points_left: int,
    position: int,
    scanned: bool,
) -> int
    decreases max_position(is_sprint) + 1 - position,
{
    if position > max_position(is_sprint) {
        max_position(is_sprint) + 1
    } else if position == leader_position {
        threshold_from(is_sprint, leader_points, leader_position, rival_points, points_left, position + 1, scanned)
    } else if out_of_reach_at(is_sprint, leader_points, rival_points, points_left, position) {
        if scanned { position } else { -1 }
    } else if exact_boundary_at(is_sprint, leader_points, rival_points, points_left, position) {
        position
    } else {
        threshold_from(is_sprint, leader_points, leader_position, rival_points, points_left, position + 1, true)
    }
}

/// The elimination threshold of a rival: -1 when no finishing position keeps the
/// rival in contention, `max_position + 1` when none eliminates the rival, and
/// otherwise the first position (best to worst) at which the rival can at most
/// draw level with the leader's total.
pub open spec fn threshold(
    is_sprint: bool,
    leader_points: int,
    leader_position: int,
    rival_points: int,
    points_left: int,
) -> int {
    threshold_from(is_sprint, leader_points, leader_position, rival_points, points_left, 1, false)
}

/// The best finishing position open to the rival, the leader's being taken.
pub open spec fn first_candidate(leader_position: int) -> int {
    if leader_position == 1 { 2 } else { 1 }
}

proof fn lemma_scanned_in_range(
    is_sprint: bool,
    leader_points: int,
    leader_position: int,
    rival_points: int,
    points_left: int,
    position: int,
)
    requires
        1 <= position <= max_position(is_sprint) + 1,
    ensures
        position <= threshold_from(is_sprint, leader_points, leader_position, rival_points, points_left, position, true)
            <= max_position(is_sprint) + 1,
        leader_position <= max_position(is_sprint) ==> threshold_from(
            is_sprint,
            leader_points,
            leader_position,
            rival_points,
            points_left,
            position,
            true,
        ) != leader_position,
    decreases max_position(is_sprint) + 1 - position,
{
    if position <= max_position(is_sprint) {
        lemma_scanned_in_range(is_sprint, leader_points, leader_position, rival_points, points_left, position + 1);
    }
}

/// The threshold is -1 exactly when the rival is already out of reach at the
/// best position open to the rival; otherwise it is a finishing position other
/// than the leader's, or one past the last scoring position.
pub proof fn lemma_threshold_range(
    is_sprint: bool,
    leader_points: int,
    leader_position: int,
    rival_points: int,
    points_left: int,
)
    requires
        1 <= leader_position <= max_position(is_sprint),
    ensures
        ({
            let t = threshold(is_sprint, leader_points, leader_position, rival_points, points_left);
            &&& (t == -1 <==> out_of_reach_at(
                is_sprint,
                leader_points,
                rival_points,
                points_left,
                first_candidate(leader_position),
            ))
            &&& (t != -1 ==> 1 <= t <= max_position(is_sprint) + 1 && t != leader_position)
        }),
{
    let l = leader_points;
    let lp = leader_position;
    let r = rival_points;
    let k = points_left;
    lemma_scanned_in_range(is_sprint, l, lp, r, k, 2);
    lemma_scanned_in_range(is_sprint, l, lp, r, k, 3);
    assert(threshold_from(is_sprint, l, lp, r, k, 1, false) == threshold_from(is_sprint, l, lp, r, k, 2, false)
        || lp != 1);
    if lp == 1 {
        assert(threshold_from(is_sprint, l, lp, r, k, 2, false) == threshold_from(is_sprint, l, lp, r, k, 3, true)
            || out_of_reach_at(is_sprint, l, r, k, 2) || exact_boundary_at(is_sprint, l, r, k, 2));
    }
}

proof fn lemma_from_monotone(
    is_sprint: bool,
    lower: int,
    higher: int,
    leader_position: int,
    rival_points: int,
    points_left: int,
    position: int,
    scanned: bool,
)
    requires
        lower <= higher,
        1 <= position <= max_position(is_sprint) + 1,
    ensures
        threshold_from(is_sprint, higher, leader_position, rival_points, points_left, position, scanned)
            <= threshold_from(is_sprint, lower, leader_position, rival_points, points_left, position, scanned),
    decreases max_position(is_sprint) + 1 - position,
{
    if position <= max_position(is_sprint) {
        lemma_from_monotone(is_sprint, lower, higher, leader_position, rival_points, points_left, position + 1, scanned);
        lemma_from_monotone(is_sprint, lower, higher, leader_position, rival_points, points_left, position + 1, true);
        lemma_scanned_in_range(is_sprint, lower, leader_position, rival_points, points_left, position + 1);
    }
}

/// Raising the leader's assumed total, all else fixed, never moves the
/// threshold in the rival's favour. Thresholds order by favour to the rival as
/// numbers do: -1 (out whatever happens) is worst, a position `p` keeps the
/// rival alive only at the finishes better than (or at) `p`, and
/// `max_position + 1` (never eliminated this event) is best.
pub proof fn lemma_threshold_monotone(
    is_sprint: bool,
    lower: int,
    higher: int,
    leader_position: int,
    rival_points: int,
    points_left: int,
)
    requires
        lower <= higher,
    ensures
        threshold(is_sprint, higher, leader_position, rival_points, points_left)
            <= threshold(is_sprint, lower, leader_position, rival_points, points_left),
{
    lemma_from_monotone(is_sprint, lower, higher, leader_position, rival_points, points_left, 1, false);
}

/// The elimination threshold of `contender` when the leader finishes at
/// `leader_position` and so reaches `leader_points_permutation`, with
/// `maximum_points_left` points still to be awarded after this event. The
/// rival's finishing positions are scanned in ascending order; the result
/// depends on the arguments alone.
pub fn check_highest_position_to_dropout(
    is_sprint: bool,
    leader_points_permutation: u64,
    leader_position: i8,
    contender: &RaceResultDTO,
    maximum_points_left: u64,
) -> (r: i8)
    requires
        1 <= leader_position <= max_position(is_sprint),
    ensures
        r as int == threshold(
            is_sprint,
            leader_points_permutation as int,
            leader_position as int,
            contender.season_points as int,
            maximum_points_left as int,
        ),
        r == -1 <==> out_of_reach_at(
            is_sprint,
            leader_points_permutation as int,
            contender.season_points as int,
            maximum_points_left as int,
            first_candidate(leader_position as int),
        ),
        r != -1 ==> 1 <= r <= max_position(is_sprint) + 1 && r != leader_position,
{
    let ghost l = leader_points_permutation as int;
    let ghost lp = leader_position as int;
    let ghost rv = contender.season_points as int;
    let ghost k = maximum_points_left as int;
    let max = max_position_for_format(is_sprint);
    let mut position: i8 = 1;
    let mut scanned = false;
    while position <= max
        invariant
            1 <= position <= max + 1,
            max == max_position(is_sprint),
            l == leader_points_permutation as int,
            lp == leader_position as int,
            1 <= leader_position <= max_position(is_sprint),
            rv == contender.season_points as int,
            k == maximum_points_left as int,
            threshold(is_sprint, l, lp, rv, k) == threshold_from(is_sprint, l, lp, rv, k, position as int, scanned),
        decreases max + 1 - position,
    {
        proof {
            lemma_threshold_range(is_sprint, l, lp, rv, k);
        }
        if position != leader_position {
            let needed = contender.season_points as u128 + points_for_position(is_sprint, position) as u128
                + maximum_points_left as u128;
            if leader_points_permutation as u128 > needed {
                if scanned {
                    return position;
                } else {
                    return -1;
                }
            }
            if leader_points_permutation as u128 == needed {
                return position;
            }
            scanned = true;
        }
        position = position + 1;
    }
    proof {
        lemma_threshold_range(is_sprint, l, lp, rv, k);
    }
    max + 1
}

} // verus!
