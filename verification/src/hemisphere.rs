//! Hemisphere markers: the polarity of a latitude and of a longitude.

use crate::errors::ParseErrorInternal;
use vstd::prelude::*;
use vstd::string::StrSliceExecFns;

verus! {

/// The latitude hemisphere that a letter names: `N` or `S`, nothing else.
pub open spec fn ns_of(s: Seq<char>) -> Option<NS> {
    if s == seq!['N'] {
        Some(NS::North)
    } else if s == seq!['S'] {
        Some(NS::South)
    } else {
        None
    }
}

/// The longitude hemisphere that a letter names: `E` or `W`, nothing else.
pub open spec fn ew_of(s: Seq<char>) -> Option<EW> {
    if s == seq!['E'] {
        Some(EW::East)
    } else if s == seq!['W'] {
        Some(EW::West)
    } else {
        None
    }
}

/// What a parsed latitude hemisphere is, as a model: `None` for a failure.
pub open spec fn ns_view(r: Result<NS, ParseErrorInternal>) -> Option<NS> {
    match r {
        Ok(ns) => Some(ns),
        Err(_) => None,
    }
}

/// What a parsed longitude hemisphere is, as a model: `None` for a failure.
pub open spec fn ew_view(r: Result<EW, ParseErrorInternal>) -> Option<EW> {
    match r {
        Ok(ew) => Some(ew),
        Err(_) => None,
    }
}

/// Polarity of a latitude.
#[derive(Debug, Clone, Copy, PartialEq, Eq, Structural)]
pub enum NS {
    North,
    South,
}

/// Polarity of a longitude.
#[derive(Debug, Clone, Copy, PartialEq, Eq, Structural)]
pub enum EW {
    East,
    West,
}

impl NS {
    /// The opposite hemisphere.
    pub open spec fn inverted(self) -> NS {
        match self {
            NS::North => NS::South,
            NS::South => NS::North,
        }
    }

    /// Whether angles in this hemisphere are counted below zero.
    pub open spec fn is_negative(self) -> bool {
        self == NS::South
    }

    /// Get the opposite.
    pub fn invert(self) -> (r: NS)
        ensures
            r == self.inverted(),
    {
        match self {
            NS::North => NS::South,
            NS::South => NS::North,
        }
    }

    /// The letter that names the hemisphere.
    pub fn letter(self) -> (r: &'static str)
        ensures
            ns_of(r@) == Some(self),
    {
        proof {
            reveal_strlit("N");
            reveal_strlit("S");
        }
        match self {
            NS::North => {
                assert("N"@ =~= seq!['N']);
                "N"
            },
            NS::South => {
                assert("S"@ =~= seq!['S']);
                assert(seq!['S'][0] != seq!['N'][0]);
                "S"
            },
        }
    }

    /// Reads a hemisphere letter.
    pub fn try_from(value: &str) -> (r: Result<NS, ParseErrorInternal>)
        ensures
            ns_view(r) == ns_of(value@),
    {
        if value.unicode_len() != 1 {
            return Err(ParseErrorInternal);
        }
        let c = value.get_char(0);
        if c == 'N' {
            assert(value@ =~= seq!['N']);
            Ok(NS::North)
        } else if c == 'S' {
            assert(value@ =~= seq!['S']);
            Ok(NS::South)
        } else {
            Err(ParseErrorInternal)
        }
    }
}

impl EW {
    /// The opposite hemisphere.
    pub open spec fn inverted(self) -> EW {
        match self {
            EW::East => EW::West,
            EW::West => EW::East,
        }
    }

    /// Whether angles in this hemisphere are counted below zero.
    pub open spec fn is_negative(self) -> bool {
        self == EW::West
    }

    /// Get the opposite.
    pub fn invert(self) -> (r: EW)
        ensures
            r == self.inverted(),
    {
        match self {
            EW::East => EW::West,
            EW::West => EW::East,
        }
    }

    /// The letter that names the hemisphere.
    pub fn letter(self) -> (r: &'static str)
        ensures
            ew_of(r@) == Some(self),
    {
        proof {
            reveal_strlit("E");
            reveal_strlit("W");
        }
        match self {
            EW::East => {
                assert("E"@ =~= seq!['E']);
                "E"
            },
            EW::West => {
                assert("W"@ =~= seq!['W']);
                assert(seq!['W'][0] != seq!['E'][0]);
                "W"
            },
        }
    }

    /// Reads a hemisphere letter.
    pub fn try_from(value: &str) -> (r: Result<EW, ParseErrorInternal>)
        ensures
            ew_view(r) == ew_of(value@),
    {
        if value.unicode_len() != 1 {
            return Err(ParseErrorInternal);
        }
        let c = value.get_char(0);
        if c == 'E' {
            assert(value@ =~= seq!['E']);
            Ok(EW::East)
        } else if c == 'W' {
            assert(value@ =~= seq!['W']);
            Ok(EW::West)
        } else {
            Err(ParseErrorInternal)
        }
    }
}

} // verus!
