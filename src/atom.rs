use vstd::prelude::*;

verus! {

/// An atom that a quantifier may wrap: one literal byte, or any byte.
#[derive(Clone, Copy, PartialEq, Eq, Structural, Hash, Debug)]
pub enum CardinalChar {
    Literal(u8),
    Wildcard,
}

/// One unit of a compiled pattern.
#[derive(Clone, Copy, PartialEq, Eq, Structural, Hash, Debug)]
pub enum RegexChar {
    StartAnchor,
    EndAnchor,
    MoreOrZero(CardinalChar),
    OneOrZero(CardinalChar),
    Wildcard,
    Literal(u8),
}

impl CardinalChar {
    /// Whether this atom accepts the byte `chr`.
    pub open spec fn accepts(self, chr: u8) -> bool {
        match self {
            CardinalChar::Literal(c) => c == chr,
            CardinalChar::Wildcard => true,
        }
    }

    /// The cardinal form of an atom, where it has one.
    pub open spec fn cardinal_of(regex_char: RegexChar) -> Option<CardinalChar> {
        match regex_char {
            RegexChar::Wildcard => Some(CardinalChar::Wildcard),
            RegexChar::Literal(c) => Some(CardinalChar::Literal(c)),
            _ => None,
        }
    }

    /// Literal and wildcard atoms have a cardinal form; anchors and
    /// quantified atoms have none.
    pub fn get(regex_char: RegexChar) -> (r: Option<Self>)
        ensures
            r == Self::cardinal_of(regex_char),
    {
        match regex_char {
            RegexChar::Wildcard => Some(CardinalChar::Wildcard),
            RegexChar::Literal(chr) => Some(CardinalChar::Literal(chr)),
            _ => None,
        }
    }

    /// Whether this atom accepts the byte `chr`.
    pub fn is_match(&self, chr: u8) -> (r: bool)
        ensures
            r == self.accepts(chr),
    {
        match self {
            CardinalChar::Wildcard => true,
            CardinalChar::Literal(literal) => *literal == chr,
        }
    }
}

} // verus!
