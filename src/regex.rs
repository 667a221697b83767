use vstd::prelude::*;
use vstd::string::StringSliceAdditionalSpecFns;

use crate::atom::RegexChar;
use crate::compile::{anchors_well_placed, get_parsed_pattern, parse, parse_from, CompileError};
use crate::matcher::{is_match, match_here, search};

verus! {

/// A compiled pattern: the atoms of a pattern string, in order.
#[derive(Clone, PartialEq, Eq, Hash, Debug)]
pub struct Regex {
    pattern: Vec<RegexChar>,
}

impl View for Regex {
    type V = Seq<RegexChar>;

    closed spec fn view(&self) -> Seq<RegexChar> {
        self.pattern@
    }
}

impl Regex {
    /// Compiles the bytes of `string`.
    pub fn new(string: &str) -> (r: Result<Self, CompileError>)
        ensures
            r is Ok <==> parse(string.spec_bytes()) is Ok,
            r is Ok ==> r->Ok_0@ == parse(string.spec_bytes())->Ok_0 && anchors_well_placed(r->Ok_0@),
            r is Err ==> parse(string.spec_bytes()) == Err::<Seq<RegexChar>, CompileError>(r->Err_0),
    {
        match get_parsed_pattern(string.as_bytes()) {
            Ok(pattern) => Ok(Self { pattern }),
            Err(e) => Err(e),
        }
    }

    /// Whether this pattern matches somewhere in the bytes of `string`.
    pub fn is_match(&self, string: &str) -> (r: bool)
        ensures
            r == search(self@, string.spec_bytes()),
    {
        is_match(&self.pattern, string.as_bytes())
    }
}


/// Compiling one pattern twice gives the same atoms, and so the same
/// answer on every text.
pub proof fn lemma_compile_is_deterministic(pattern: Seq<u8>, a: Regex, b: Regex, text: Seq<u8>)
    requires
        parse(pattern) == Ok::<Seq<RegexChar>, CompileError>(a@),
        parse(pattern) == Ok::<Seq<RegexChar>, CompileError>(b@),
    ensures
        a@ == b@,
        search(a@, text) == search(b@, text),
{
}

/// The empty pattern compiles to no atoms, and no atoms match every text,
/// the empty one included.
pub proof fn lemma_empty_pattern_matches_every_text(text: Seq<u8>)
    ensures
        parse(Seq::empty()) == Ok::<Seq<RegexChar>, CompileError>(Seq::empty()),
        search(Seq::empty(), text),
{
    assert(match_here(Seq::empty(), text.skip(0)));
}

/// An escaped `*` is a literal byte, not a quantifier: the pattern `a\*b`
/// matches `a`, one byte `x`, `b` exactly when `x` is `*`.
pub proof fn lemma_escaped_star_is_literal(x: u8)
    ensures
        parse(seq![0x61u8, 0x5cu8, 0x2au8, 0x62u8]) == Ok::<Seq<RegexChar>, CompileError>(
            seq![RegexChar::Literal(0x61u8), RegexChar::Literal(0x2au8), RegexChar::Literal(0x62u8)],
        ),
        search(
            seq![RegexChar::Literal(0x61u8), RegexChar::Literal(0x2au8), RegexChar::Literal(0x62u8)],
            seq![0x61u8, x, 0x62u8],
        ) <==> x == 0x2au8,
{
    let p = seq![0x61u8, 0x5cu8, 0x2au8, 0x62u8];
    let atoms = seq![RegexChar::Literal(0x61u8), RegexChar::Literal(0x2au8), RegexChar::Literal(0x62u8)];
    let text = seq![0x61u8, x, 0x62u8];
    let a1 = seq![RegexChar::Literal(0x61u8)];
    let a2 = a1.push(RegexChar::Literal(0x2au8));
    assert(parse_from(p, 4, a2.push(RegexChar::Literal(0x62u8))) == Ok::<Seq<RegexChar>, CompileError>(atoms)) by {
        assert(a2.push(RegexChar::Literal(0x62u8)) =~= atoms);
    }
    assert(parse_from(p, 3, a2) == parse_from(p, 4, a2.push(RegexChar::Literal(0x62u8))));
    assert(parse_from(p, 1, a1) == parse_from(p, 3, a2));
    assert(parse_from(p, 0, Seq::empty()) == parse_from(p, 1, a1)) by {
        assert(Seq::<RegexChar>::empty().push(RegexChar::Literal(0x61u8)) =~= a1);
    }
    let rest1 = atoms.drop_first();
    let rest2 = rest1.drop_first();
    let rest3 = rest2.drop_first();
    assert(rest1 =~= seq![RegexChar::Literal(0x2au8), RegexChar::Literal(0x62u8)]);
    assert(rest2 =~= seq![RegexChar::Literal(0x62u8)]);
    assert(rest3.len() == 0);
    assert forall|i: int| 1 <= i <= 3 implies !#[trigger] match_here(atoms, text.skip(i)) by {
        let t = text.skip(i);
        if t.len() > 0 {
            let t1 = t.drop_first();
            if t1.len() > 0 {
                assert(t1.drop_first().len() == 0);
                assert(!match_here(rest2, t1.drop_first()));
            }
            assert(!match_here(rest1, t1));
        }
    }
    let t1 = text.drop_first();
    let t2 = t1.drop_first();
    assert(text.skip(0) =~= text);
    assert(t1 =~= seq![x, 0x62u8]);
    assert(t2 =~= seq![0x62u8]);
    assert(match_here(rest3, t2.drop_first()));
    assert(match_here(rest2, t2));
    assert(match_here(rest1, t1) <==> x == 0x2au8);
    assert(match_here(atoms, text) <==> x == 0x2au8);
}

} // verus!
