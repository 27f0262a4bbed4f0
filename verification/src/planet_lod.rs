//! Level of detail of the whole-planet mesh: the subdivision level moves
//! one step at a time between 2 and 5 as the camera crosses altitude rings,
//! with a margin around each ring so that it does not flicker.
use vstd::prelude::*;

verus! {

/// The finest whole-planet level.
pub const FINEST_PLANET_LEVEL: u32 = 5;

/// Where the camera is relative to the three rings, innermost first; the
/// caller compares altitudes.  `inside[k]` means below ring `k` minus its
/// margin, `outside[k]` above ring `k` plus its margin.
#[derive(Clone, Copy, Debug)]
pub struct RingReadings {
    pub inside: [bool; 3],
    pub outside: [bool; 3],
}

/// The level after one frame: from 5 out past ring 0 to 4; from 4 in past
/// ring 0 to 5 or out past ring 1 to 3; from 3 in past ring 1 to 4 or out past
/// ring 2 to 2; from 2 in past ring 2 to 3.  Levels above 5 count as 5, and
/// levels below 2 stay.
pub open spec fn next_planet_level_spec(level: u32, r: RingReadings) -> u32 {
    let l = if level > 5 {
        5
    } else {
        level
    };
    if l == 5 {
        if r.outside[0] {
            4
        } else {
            5
        }
    } else if l == 4 {
        if r.inside[0] {
            5
        } else if r.outside[1] {
            3
        } else {
            4
        }
    } else if l == 3 {
        if r.inside[1] {
            4
        } else if r.outside[2] {
            2
        } else {
            3
        }
    } else if l == 2 {
        if r.inside[2] {
            3
        } else {
            2
        }
    } else {
        l
    }
}

/// The whole-planet subdivision level after one frame.
pub fn next_planet_level(level: u32, readings: &RingReadings) -> (r: u32)
    ensures
        r == next_planet_level_spec(level, *readings),
{
    let l = if level > FINEST_PLANET_LEVEL {
        FINEST_PLANET_LEVEL
    } else {
        level
    };
    match l {
        5 => if readings.outside[0] {
            4
        } else {
            5
        },
        4 => if readings.inside[0] {
            5
        } else if readings.outside[1] {
            3
        } else {
            4
        },
        3 => if readings.inside[1] {
            4
        } else if readings.outside[2] {
            2
        } else {
            3
        },
        2 => if readings.inside[2] {
            3
        } else {
            2
        },
        _ => l,
    }
}

/// The level never exceeds 5 and moves by at most one step per frame.
pub proof fn lemma_level_moves_one_step(level: u32, r: RingReadings)
    ensures
        next_planet_level_spec(level, r) <= 5,
        level <= 5 ==> -1 <= next_planet_level_spec(level, r) - level <= 1,
        level >= 2 ==> next_planet_level_spec(level, r) >= 2,
{
}

/// Inside every ring the planet settles at the finest level, and outside
/// every ring at level 2, one step per frame.
pub proof fn lemma_level_converges(level: u32, r: RingReadings)
    requires
        2 <= level <= 5,
    ensures
        r.inside[0] && r.inside[1] && r.inside[2] && !r.outside[0] && !r.outside[1] && !r.outside[2]
            ==> next_planet_level_spec(level, r) == if level < 5 {
            level + 1
        } else {
            5
        },
        r.outside[0] && r.outside[1] && r.outside[2] && !r.inside[0] && !r.inside[1] && !r.inside[2]
            ==> next_planet_level_spec(level, r) == if level > 2 {
            level - 1
        } else {
            2
        },
{
}

/// Each level answers only to the rings on either side of it: the finest
/// level 5 (and anything above) drops to 4 exactly when the camera is
/// outside ring 0; level 4 rises to 5 when inside ring 0, and otherwise
/// drops to 3 exactly when outside ring 1; level 3 rises to 4 when inside
/// ring 1, and otherwise drops to 2 exactly when outside ring 2; level 2
/// rises to 3 exactly when inside ring 2; levels below 2 stay.
pub proof fn lemma_level_ring_table(level: u32, r: RingReadings)
    ensures
        level >= 5 ==> (next_planet_level_spec(level, r) == 4 <==> r.outside[0]),
        level >= 5 && !r.outside[0] ==> next_planet_level_spec(level, r) == 5,
        level == 4 && r.inside[0] ==> next_planet_level_spec(level, r) == 5,
        level == 4 && !r.inside[0] ==> (next_planet_level_spec(level, r) == 3 <==> r.outside[1]),
        level == 4 && !r.inside[0] && !r.outside[1] ==> next_planet_level_spec(level, r) == 4,
        level == 3 && r.inside[1] ==> next_planet_level_spec(level, r) == 4,
        level == 3 && !r.inside[1] ==> (next_planet_level_spec(level, r) == 2 <==> r.outside[2]),
        level == 3 && !r.inside[1] && !r.outside[2] ==> next_planet_level_spec(level, r) == 3,
        level == 2 ==> (next_planet_level_spec(level, r) == 3 <==> r.inside[2]),
        level == 2 && !r.inside[2] ==> next_planet_level_spec(level, r) == 2,
        level < 2 ==> next_planet_level_spec(level, r) == level,
{
}

/// Readings of rings not next to the current level do not matter: two
/// readings that agree on the rings around the level give the same level.
pub proof fn lemma_level_ignores_far_rings(level: u32, r1: RingReadings, r2: RingReadings)
    requires
        level >= 5 ==> r1.outside[0] == r2.outside[0],
        level == 4 ==> r1.inside[0] == r2.inside[0] && r1.outside[1] == r2.outside[1],
        level == 3 ==> r1.inside[1] == r2.inside[1] && r1.outside[2] == r2.outside[2],
        level == 2 ==> r1.inside[2] == r2.inside[2],
    ensures
        next_planet_level_spec(level, r1) == next_planet_level_spec(level, r2),
{
}

} // verus!
