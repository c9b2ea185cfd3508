use vstd::prelude::*;

verus! {

/// packet direction
#[derive(Clone, Copy, Debug, PartialEq, Eq, Structural)]
pub enum Direction {
    /// forward direction: client -> server, assuming client is whoever sent the
    /// first SYN
    Forward,
    /// reverse direction: server -> client, assuming client is whoever sent the
    /// first SYN
    Reverse,
}

impl Direction {
    /// The other direction.
    pub open spec fn opposite(self) -> Direction {
        match self {
            Direction::Forward => Direction::Reverse,
            Direction::Reverse => Direction::Forward,
        }
    }

    /// The name of the direction.
    pub open spec fn name(self) -> Seq<char> {
        match self {
            Direction::Forward => "forward"@,
            Direction::Reverse => "reverse"@,
        }
    }

    /// The direction in which answers to this direction travel.
    pub fn swap(self) -> (other: Direction)
        ensures
            other == self.opposite(),
    {
        match self {
            Direction::Forward => Direction::Reverse,
            Direction::Reverse => Direction::Forward,
        }
    }

    /// The name of the direction, for messages.
    pub fn to_string(&self) -> (name: String)
        ensures
            name@ == self.name(),
    {
        match self {
            Direction::Forward => "forward".to_string(),
            Direction::Reverse => "reverse".to_string(),
        }
    }
}

} // verus!
