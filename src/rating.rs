//! The six rating bands of a composite score.

use vstd::prelude::*;
use crate::scoring::COMPOSITE_PER_POINT;

verus! {

/// Lowest composite, in points, of the basic band.
pub const BASIC_THRESHOLD_POINTS: u128 = 300;

/// Lowest composite, in points, of the moderate band.
pub const MODERATE_THRESHOLD_POINTS: u128 = 600;

/// Lowest composite, in points, of the good band.
pub const GOOD_THRESHOLD_POINTS: u128 = 1000;

/// Lowest composite, in points, of the high band.
pub const HIGH_THRESHOLD_POINTS: u128 = 1500;

/// Lowest composite, in points, of the exceptional band.
pub const EXCEPTIONAL_THRESHOLD_POINTS: u128 = 1800;

/// A rating band, from lowest to highest.
#[derive(Clone, Copy, Debug, PartialEq, Eq, Structural)]
pub enum Rating {
    Low,
    Basic,
    Moderate,
    Good,
    High,
    Exceptional,
}

/// The band of a composite score (in composite units): the highest band
/// whose threshold the score reaches.
pub open spec fn rating_of(composite: int) -> Rating {
    if composite >= EXCEPTIONAL_THRESHOLD_POINTS * COMPOSITE_PER_POINT {
        Rating::Exceptional
    } else if composite >= HIGH_THRESHOLD_POINTS * COMPOSITE_PER_POINT {
        Rating::High
    } else if composite >= GOOD_THRESHOLD_POINTS * COMPOSITE_PER_POINT {
        Rating::Good
    } else if composite >= MODERATE_THRESHOLD_POINTS * COMPOSITE_PER_POINT {
        Rating::Moderate
    } else if composite >= BASIC_THRESHOLD_POINTS * COMPOSITE_PER_POINT {
        Rating::Basic
    } else {
        Rating::Low
    }
}

impl Rating {
    /// Position of the band, 0 for the lowest.
    pub open spec fn rank(self) -> nat {
        match self {
            Rating::Low => 0,
            Rating::Basic => 1,
            Rating::Moderate => 2,
            Rating::Good => 3,
            Rating::High => 4,
            Rating::Exceptional => 5,
        }
    }

    pub open spec fn spec_label(self) -> Seq<char> {
        match self {
            Rating::Low => "☆☆☆ (Low Performance)"@,
            Rating::Basic => "★☆☆☆ (Basic Performance)"@,
            Rating::Moderate => "★★☆☆☆ (Moderate Performance)"@,
            Rating::Good => "★★★☆☆ (Good Performance)"@,
            Rating::High => "★★★★☆ (High Performance)"@,
            Rating::Exceptional => "★★★ (Exceptional Performance)"@,
        }
    }

    /// The fixed text shown for the band.
    pub fn label(&self) -> (r: &'static str)
        ensures
            r@ == self.spec_label(),
    {
        match self {
            Rating::Low => "☆☆☆ (Low Performance)",
            Rating::Basic => "★☆☆☆ (Basic Performance)",
            Rating::Moderate => "★★☆☆☆ (Moderate Performance)",
            Rating::Good => "★★★☆☆ (Good Performance)",
            Rating::High => "★★★★☆ (High Performance)",
            Rating::Exceptional => "★★★ (Exceptional Performance)",
        }
    }
}

/// The band of a composite score, given in composite units.
pub fn rate(composite: u128) -> (r: Rating)
    ensures
        r == rating_of(composite as int),
{
    if composite >= EXCEPTIONAL_THRESHOLD_POINTS * COMPOSITE_PER_POINT {
        Rating::Exceptional
    } else if composite >= HIGH_THRESHOLD_POINTS * COMPOSITE_PER_POINT {
        Rating::High
    } else if composite >= GOOD_THRESHOLD_POINTS * COMPOSITE_PER_POINT {
        Rating::Good
    } else if composite >= MODERATE_THRESHOLD_POINTS * COMPOSITE_PER_POINT {
        Rating::Moderate
    } else if composite >= BASIC_THRESHOLD_POINTS * COMPOSITE_PER_POINT {
        Rating::Basic
    } else {
        Rating::Low
    }
}

/// A higher composite never gets a lower band.
pub proof fn lemma_rating_monotonic(a: int, b: int)
    requires
        a < b,
    ensures
        rating_of(a).rank() <= rating_of(b).rank(),
{
}

} // verus!
