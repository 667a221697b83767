use vstd::prelude::*;

use crate::atom::{CardinalChar, RegexChar};

verus! {

/// `\`: the next byte is a literal.
pub const ESCAPE: u8 = 0x5c;
/// `^`: start anchor.
pub const START_ANCHOR: u8 = 0x5e;
/// `$`: end anchor.
pub const END_ANCHOR: u8 = 0x24;
/// `*`: zero or more of the atom before.
pub const ZERO_OR_MORE: u8 = 0x2a;
/// `?`: zero or one of the atom before.
pub const ZERO_OR_ONE: u8 = 0x3f;
/// `.`: any byte.
pub const WILDCARD: u8 = 0x2e;

/// The two quantifiers of the grammar.
#[derive(Clone, Copy, PartialEq, Eq, Structural, Hash, Debug)]
pub enum Quantifier {
    /// `*`
    ZeroOrMore,
    /// `?`
    ZeroOrOne,
}

/// Why a pattern does not compile.
#[derive(Clone, Copy, PartialEq, Eq, Structural, Hash, Debug)]
pub enum CompileError {
    /// A `\` is the last byte of the pattern.
    DanglingEscape,
    /// A `^` stands anywhere but at the first byte.
    MisplacedStartAnchor,
    /// A `$` stands anywhere but at the last byte.
    MisplacedEndAnchor,
    /// A quantifier has no atom before it.
    MissingQuantifierOperand(Quantifier),
    /// A quantifier follows an anchor or a quantified atom.
    InvalidQuantifierOperand(Quantifier),
}

/// The atom that quantifier `q` makes of the cardinal atom `c`.
pub open spec fn quantified(q: Quantifier, c: CardinalChar) -> RegexChar {
    match q {
        Quantifier::ZeroOrMore => RegexChar::MoreOrZero(c),
        Quantifier::ZeroOrOne => RegexChar::OneOrZero(c),
    }
}

/// Applies quantifier `q` to the last atom emitted so far.
pub open spec fn bind_quantifier(q: Quantifier, acc: Seq<RegexChar>) -> Result<Seq<RegexChar>, CompileError> {
    if acc.len() == 0 {
        Err(CompileError::MissingQuantifierOperand(q))
    } else {
        match CardinalChar::cardinal_of(acc.last()) {
            Some(c) => Ok(acc.drop_last().push(quantified(q, c))),
            None => Err(CompileError::InvalidQuantifierOperand(q)),
        }
    }
}

/// The result of compiling `p` from byte `i` on, with `acc` the atoms
/// emitted for the bytes before `i`: one left-to-right pass in which each
/// construct appends one atom and a quantifier rewrites the last one.
pub open spec fn parse_from(p: Seq<u8>, i: nat, acc: Seq<RegexChar>) -> Result<Seq<RegexChar>, CompileError>
    decreases p.len() - i,
{
    if i >= p.len() {
        Ok(acc)
    } else if p[i as int] == ESCAPE {
        if i + 1 >= p.len() {
            Err(CompileError::DanglingEscape)
        } else {
            parse_from(p, i + 2, acc.push(RegexChar::Literal(p[(i + 1) as int])))
        }
    } else if p[i as int] == START_ANCHOR {
        if i != 0 {
            Err(CompileError::MisplacedStartAnchor)
        } else {
            parse_from(p, i + 1, acc.push(RegexChar::StartAnchor))
        }
    } else if p[i as int] == END_ANCHOR {
        if i != p.len() - 1 {
            Err(CompileError::MisplacedEndAnchor)
        } else {
            parse_from(p, i + 1, acc.push(RegexChar::EndAnchor))
        }
    } else if p[i as int] == ZERO_OR_MORE || p[i as int] == ZERO_OR_ONE {
        let q = if p[i as int] == ZERO_OR_MORE {
            Quantifier::ZeroOrMore
        } else {
            Quantifier::ZeroOrOne
        };
        match bind_quantifier(q, acc) {
            Ok(next) => parse_from(p, i + 1, next),
            Err(e) => Err(e),
        }
    } else if p[i as int] == WILDCARD {
        parse_from(p, i + 1, acc.push(RegexChar::Wildcard))
    } else {
        parse_from(p, i + 1, acc.push(RegexChar::Literal(p[i as int])))
    }
}

/// The compiled form of pattern `p`, or the first error met in it.
pub open spec fn parse(p: Seq<u8>) -> Result<Seq<RegexChar>, CompileError> {
    parse_from(p, 0, Seq::empty())
}

/// A start anchor stands only first, an end anchor only last.
pub open spec fn anchors_well_placed(atoms: Seq<RegexChar>) -> bool {
    &&& forall|k: int| 0 <= k < atoms.len() && (#[trigger] atoms[k]) is StartAnchor ==> k == 0
    &&& forall|k: int| 0 <= k < atoms.len() && (#[trigger] atoms[k]) is EndAnchor ==> k == atoms.len() - 1
}

/// Compiles pattern `string` into its atoms.
pub(crate) fn get_parsed_pattern(string: &[u8]) -> (r: Result<Vec<RegexChar>, CompileError>)
    ensures
        r is Ok <==> parse(string@) is Ok,
        r is Ok ==> r->Ok_0@ == parse(string@)->Ok_0 && anchors_well_placed(r->Ok_0@),
        r is Err ==> parse(string@) == Err::<Seq<RegexChar>, CompileError>(r->Err_0),
{
    let mut result: Vec<RegexChar> = Vec::new();
    let mut index: usize = 0;
    while index < string.len()
        invariant
            index <= string.len(),
            parse_from(string@, index as nat, result@) == parse(string@),
            index == 0 ==> result@.len() == 0,
            forall|k: int| 0 <= k < result@.len() && (#[trigger] result@[k]) is StartAnchor ==> k == 0,
            forall|k: int| 0 <= k < result@.len() && (#[trigger] result@[k]) is EndAnchor
                ==> index == string.len() && k == result@.len() - 1,
        decreases string.len() - index,
    {
        let chr = string[index];
        let regex_char = if chr == ESCAPE {
            if index + 1 >= string.len() {
                return Err(CompileError::DanglingEscape);
            }
            let escaped = RegexChar::Literal(string[index + 1]);
            index += 2;
            escaped
        } else if chr == START_ANCHOR {
            if index != 0 {
                return Err(CompileError::MisplacedStartAnchor);
            }
            index += 1;
            RegexChar::StartAnchor
        } else if chr == END_ANCHOR {
            if index != string.len() - 1 {
                return Err(CompileError::MisplacedEndAnchor);
            }
            index += 1;
            RegexChar::EndAnchor
        } else if chr == ZERO_OR_MORE {
            let cardinal_char = match take_operand(&mut result, Quantifier::ZeroOrMore) {
                Ok(c) => c,
                Err(e) => return Err(e),
            };
            index += 1;
            RegexChar::MoreOrZero(cardinal_char)
        } else if chr == ZERO_OR_ONE {
            let cardinal_char = match take_operand(&mut result, Quantifier::ZeroOrOne) {
                Ok(c) => c,
                Err(e) => return Err(e),
            };
            index += 1;
            RegexChar::OneOrZero(cardinal_char)
        } else if chr == WILDCARD {
            index += 1;
            RegexChar::Wildcard
        } else {
            index += 1;
            RegexChar::Literal(chr)
        };
        result.push(regex_char);
    }
    Ok(result)
}

/// Removes the last atom emitted, which quantifier `q` binds, and returns
/// its cardinal form.
fn take_operand(result: &mut Vec<RegexChar>, q: Quantifier) -> (r: Result<CardinalChar, CompileError>)
    ensures
        r is Ok <==> bind_quantifier(q, old(result)@) is Ok,
        r is Ok ==> final(result)@ == old(result)@.drop_last()
            && bind_quantifier(q, old(result)@)->Ok_0 == final(result)@.push(quantified(q, r->Ok_0)),
        r is Err ==> bind_quantifier(q, old(result)@) == Err::<Seq<RegexChar>, CompileError>(r->Err_0),
{
    let last_regex_char = match result.pop() {
        Some(c) => c,
        None => return Err(CompileError::MissingQuantifierOperand(q)),
    };
    match CardinalChar::get(last_regex_char) {
        Some(c) => Ok(c),
        None => Err(CompileError::InvalidQuantifierOperand(q)),
    }
}


impl CompileError {
    /// The text that describes this error.
    pub open spec fn message_spec(self) -> Seq<char> {
        match self {
            CompileError::DanglingEscape => "no escaped character"@,
            CompileError::MisplacedStartAnchor => "invalid start anchor"@,
            CompileError::MisplacedEndAnchor => "invalid end anchor"@,
            CompileError::MissingQuantifierOperand(Quantifier::ZeroOrMore) => "more or zero expected character"@,
            CompileError::MissingQuantifierOperand(Quantifier::ZeroOrOne) => "one or zero expected character"@,
            CompileError::InvalidQuantifierOperand(Quantifier::ZeroOrMore) => "invalid for more or zero"@,
            CompileError::InvalidQuantifierOperand(Quantifier::ZeroOrOne) => "invalid for one or zero"@,
        }
    }

    /// The text that describes this error.
    pub fn message(&self) -> (r: &'static str)
        ensures
            r@ == self.message_spec(),
    {
        match self {
            CompileError::DanglingEscape => "no escaped character",
            CompileError::MisplacedStartAnchor => "invalid start anchor",
            CompileError::MisplacedEndAnchor => "invalid end anchor",
            CompileError::MissingQuantifierOperand(Quantifier::ZeroOrMore) => "more or zero expected character",
            CompileError::MissingQuantifierOperand(Quantifier::ZeroOrOne) => "one or zero expected character",
            CompileError::InvalidQuantifierOperand(Quantifier::ZeroOrMore) => "invalid for more or zero",
            CompileError::InvalidQuantifierOperand(Quantifier::ZeroOrOne) => "invalid for one or zero",
        }
    }
}

} // verus!
