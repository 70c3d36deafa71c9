//! The rulebooks a session can be played under, and the names by which
//! requests select them.

use vstd::prelude::*;

verus! {

/// Selects the rules engine and the wire encoding of a session.
#[derive(Clone, Copy, Debug, PartialEq, Eq, Structural, Hash)]
pub enum Rulebook {
    Standard,
    Free,
}

/// The name of a rulebook in requests and listings.
pub open spec fn rulebook_name(rulebook: Rulebook) -> Seq<char> {
    match rulebook {
        Rulebook::Standard => "standard"@,
        Rulebook::Free => "free"@,
    }
}

/// The rulebook that a name selects, if any.
pub open spec fn rulebook_named(name: Seq<char>) -> Option<Rulebook> {
    if name == "standard"@ {
        Some(Rulebook::Standard)
    } else if name == "free"@ {
        Some(Rulebook::Free)
    } else {
        None
    }
}

/// The number of players that a rulebook seats: two, under either
/// rulebook.
pub open spec fn rulebook_seats(rulebook: Rulebook) -> nat {
    2
}

/// The byte that stands for a rulebook on the wire.
pub open spec fn rulebook_tag(rulebook: Rulebook) -> u8 {
    match rulebook {
        Rulebook::Standard => 0,
        Rulebook::Free => 1,
    }
}

impl Rulebook {
    /// The name of the rulebook in requests and listings.
    pub fn name(self) -> (name: &'static str)
        ensures
            name@ == rulebook_name(self),
    {
        match self {
            Rulebook::Standard => "standard",
            Rulebook::Free => "free",
        }
    }

    /// The rulebook that `name` selects; `None` for any other text.
    pub fn from_name(name: &str) -> (found: Option<Rulebook>)
        ensures
            found == rulebook_named(name@),
    {
        let wanted = name.to_owned();
        if wanted == "standard".to_owned() {
            Some(Rulebook::Standard)
        } else if wanted == "free".to_owned() {
            Some(Rulebook::Free)
        } else {
            None
        }
    }

    /// The number of players that the rulebook seats.
    pub fn seats(self) -> (n: u8)
        ensures
            n == rulebook_seats(self),
    {
        2
    }

    /// The byte that stands for the rulebook on the wire.
    pub fn tag(self) -> (t: u8)
        ensures
            t == rulebook_tag(self),
    {
        match self {
            Rulebook::Standard => 0,
            Rulebook::Free => 1,
        }
    }
}

/// Every rulebook is found again under its own name.
pub proof fn law_name_selects_rulebook(rulebook: Rulebook)
    ensures
        rulebook_named(rulebook_name(rulebook)) == Some(rulebook),
{
    reveal_strlit("standard");
    reveal_strlit("free");
    assert("free"@.len() != "standard"@.len());
}

} // verus!
