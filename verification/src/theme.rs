//! Host status levels and their badges.
use vstd::prelude::*;

verus! {

/// How a host card is flagged.
#[derive(Clone, Copy, Debug, PartialEq, Eq, Structural)]
pub enum Status {
    Healthy,
    Warn,
    Critical,
    Stale,
    Unavailable,
}

pub open spec fn badge_text(s: Status) -> Seq<char> {
    match s {
        Status::Healthy => "OK"@,
        Status::Warn => "WARN"@,
        Status::Critical => "CRIT"@,
        Status::Stale => "STALE"@,
        Status::Unavailable => "UNAVAILABLE"@,
    }
}

impl Status {
    /// The badge shown on a card with this status.
    pub fn badge(self) -> (r: &'static str)
        ensures
            r@ == badge_text(self),
    {
        match self {
            Status::Healthy => "OK",
            Status::Warn => "WARN",
            Status::Critical => "CRIT",
            Status::Stale => "STALE",
            Status::Unavailable => "UNAVAILABLE",
        }
    }
}

} // verus!
