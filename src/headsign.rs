//! Destination labels shown to riders at each stop.

use vstd::prelude::*;

verus! {

/// Stop id of Yale/Irvine, where short-turn trips end.
pub const SHORT_TURN_STATION: u32 = 157625;

/// Number of stops in one traversal of the loop on the dense path.
pub const LOOP_LENGTH: usize = 86;

/// Position within a loop traversal where the second direction begins.
pub const DIRECTION_SPLIT: usize = 45;

/// A destination label.
#[derive(Clone, Copy, Debug, PartialEq, Eq, Structural)]
pub enum Headsign {
    /// Toward Northwood High School: the first part of each loop traversal.
    NorthwoodHighSchool,
    /// Toward Irvine Station: the rest of each loop traversal.
    IrvineStation,
    /// Toward Yale Ave @ Irvine Blvd: every stop of a short-turn trip.
    YaleAtIrvine,
}

/// The text shown for a headsign.
pub open spec fn headsign_text(h: Headsign) -> Seq<char> {
    match h {
        Headsign::NorthwoodHighSchool => "Northwood High School"@,
        Headsign::IrvineStation => "Irvine Station"@,
        Headsign::YaleAtIrvine => "Yale Ave @ Irvine Blvd"@,
    }
}

impl Headsign {
    /// The text shown for this headsign.
    pub fn text(&self) -> (r: &'static str)
        ensures
            r@ == headsign_text(*self),
    {
        match self {
            Headsign::NorthwoodHighSchool => "Northwood High School",
            Headsign::IrvineStation => "Irvine Station",
            Headsign::YaleAtIrvine => "Yale Ave @ Irvine Blvd",
        }
    }
}

/// A trip whose last timepoint is the short-turn station.
pub open spec fn ends_at_short_turn(stations: Seq<u32>) -> bool {
    stations.len() > 0 && stations.last() == SHORT_TURN_STATION
}

/// Headsign of path position `p`: the short-turn label throughout a short-turn
/// trip, else by the position within its loop traversal.
pub open spec fn headsign_at(short_turn: bool, p: int) -> Headsign {
    if short_turn {
        Headsign::YaleAtIrvine
    } else if p % (LOOP_LENGTH as int) < DIRECTION_SPLIT as int {
        Headsign::NorthwoodHighSchool
    } else {
        Headsign::IrvineStation
    }
}

/// Headsign of path position `index` in a trip that ends at the short-turn
/// station (`short_turn`) or not.
pub fn assign_headsign(short_turn: bool, index: usize) -> (r: Headsign)
    ensures
        r == headsign_at(short_turn, index as int),
{
    if short_turn {
        Headsign::YaleAtIrvine
    } else if index % LOOP_LENGTH < DIRECTION_SPLIT {
        Headsign::NorthwoodHighSchool
    } else {
        Headsign::IrvineStation
    }
}

} // verus!
