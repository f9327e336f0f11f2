//! The kinds of joke, and the numbers that stand for them on the wire.

use vstd::prelude::*;

verus! {

/// The kind of a joke. A joke is a limerick or a knock-knock joke; a request
/// may also ask for `Any`, which names no joke's own kind.
#[derive(Clone, Copy, Debug, PartialEq, Eq, Structural)]
pub enum JokeType {
    Limerick,
    KnockKnock,
    Any,
}

/// The wire number of `JokeType::Limerick`.
pub const LIMERICK: i32 = 0;

/// The wire number of `JokeType::KnockKnock`.
pub const KNOCK_KNOCK: i32 = 1;

/// The wire number of `JokeType::Any`.
pub const ANY: i32 = 2;

impl JokeType {
    /// The wire number of this kind.
    pub open spec fn code(self) -> i32 {
        match self {
            JokeType::Limerick => LIMERICK,
            JokeType::KnockKnock => KNOCK_KNOCK,
            JokeType::Any => ANY,
        }
    }

    /// The kind that a wire number stands for, if it stands for one.
    pub open spec fn of_code(code: i32) -> Option<JokeType> {
        if code == LIMERICK {
            Some(JokeType::Limerick)
        } else if code == KNOCK_KNOCK {
            Some(JokeType::KnockKnock)
        } else if code == ANY {
            Some(JokeType::Any)
        } else {
            None
        }
    }

    /// Whether this is the kind of a joke, rather than the wildcard.
    pub open spec fn is_concrete(self) -> bool {
        self != JokeType::Any
    }

    /// The wire number of this kind.
    pub fn as_i32(self) -> (code: i32)
        ensures
            code == self.code(),
    {
        match self {
            JokeType::Limerick => LIMERICK,
            JokeType::KnockKnock => KNOCK_KNOCK,
            JokeType::Any => ANY,
        }
    }

    /// Reads a wire number. `None` is returned exactly for the numbers that
    /// stand for no kind.
    pub fn from_i32(code: i32) -> (kind: Option<JokeType>)
        ensures
            kind == Self::of_code(code),
    {
        if code == LIMERICK {
            Some(JokeType::Limerick)
        } else if code == KNOCK_KNOCK {
            Some(JokeType::KnockKnock)
        } else if code == ANY {
            Some(JokeType::Any)
        } else {
            None
        }
    }
}

/// Every kind is read back from its own wire number, and a number that is
/// read as a kind is that kind's number.
pub proof fn lemma_code_round_trip(kind: JokeType, code: i32)
    ensures
        JokeType::of_code(kind.code()) == Some(kind),
        JokeType::of_code(code) == Some(kind) ==> kind.code() == code,
{
}

} // verus!
