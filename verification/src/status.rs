use vstd::prelude::*;

verus! {

/// What is known about a letter after some guesses: nothing (`UNKNOWN`),
/// the letter's occurrence budget is exhausted (`RED`), the letter occurs
/// somewhere else in the answer (`YELLOW`), or the letter is placed exactly
/// right (`GREEN`).  The order `UNKNOWN < RED < YELLOW < GREEN` reflects how
/// much information the status carries; recorded knowledge only ever moves
/// upward in this order.
#[allow(non_camel_case_types)]
#[derive(Clone, Copy, Debug, PartialEq, Eq, Structural)]
pub enum Status {
    UNKNOWN,
    RED,
    YELLOW,
    GREEN,
}

impl Status {
    /// Numeric position of the status in the information order.
    pub open spec fn rank(self) -> int {
        match self {
            Status::UNKNOWN => 0,
            Status::RED => 1,
            Status::YELLOW => 2,
            Status::GREEN => 3,
        }
    }

    /// The more informative of two statuses.
    pub open spec fn spec_join(self, other: Status) -> Status {
        if self.rank() >= other.rank() {
            self
        } else {
            other
        }
    }

    /// Executable form of `spec_join`: keeps whichever status carries
    /// more information.
    pub fn join(self, other: Status) -> (r: Status)
        ensures
            r == self.spec_join(other),
    {
        if self.rank_exec() >= other.rank_exec() {
            self
        } else {
            other
        }
    }

    /// Executable form of `rank`.
    pub fn rank_exec(self) -> (r: u8)
        ensures
            r as int == self.rank(),
    {
        match self {
            Status::UNKNOWN => 0,
            Status::RED => 1,
            Status::YELLOW => 2,
            Status::GREEN => 3,
        }
    }
}

impl PartialOrd for Status {
    fn partial_cmp(&self, other: &Self) -> (r: Option<core::cmp::Ordering>) {
        let a = self.rank_exec();
        let b = other.rank_exec();
        if a == b {
            Some(core::cmp::Ordering::Equal)
        } else if a > b {
            Some(core::cmp::Ordering::Greater)
        } else {
            Some(core::cmp::Ordering::Less)
        }
    }
}

impl vstd::std_specs::cmp::PartialOrdSpecImpl for Status {
    open spec fn obeys_partial_cmp_spec() -> bool {
        true
    }

    open spec fn partial_cmp_spec(&self, other: &Self) -> Option<core::cmp::Ordering> {
        if self.rank() == other.rank() {
            Some(core::cmp::Ordering::Equal)
        } else if self.rank() > other.rank() {
            Some(core::cmp::Ordering::Greater)
        } else {
            Some(core::cmp::Ordering::Less)
        }
    }
}

} // verus!
