use vstd::prelude::*;

use crate::atom::{CardinalChar, RegexChar};

verus! {

/// Every one of the first `k` bytes of `text` is accepted by `c`.
pub open spec fn run_of(c: CardinalChar, text: Seq<u8>, k: int) -> bool {
    forall|m: int| 0 <= m < k ==> c.accepts(#[trigger] text[m])
}

/// Whether `atoms` match at the front of `text`; bytes after the match
/// are free.
pub open spec fn match_here(atoms: Seq<RegexChar>, text: Seq<u8>) -> bool
    decreases atoms.len(),
{
    if atoms.len() == 0 {
        true
    } else if atoms.len() == 1 && atoms[0] is EndAnchor {
        text.len() == 0
    } else {
        let rest = atoms.drop_first();
        match atoms[0] {
            RegexChar::MoreOrZero(c) => exists|k: int|
                0 <= k <= text.len() && #[trigger] run_of(c, text, k) && match_here(rest, text.skip(k)),
            RegexChar::Literal(c) => text.len() > 0 && text[0] == c && match_here(rest, text.drop_first()),
            RegexChar::Wildcard => text.len() > 0 && match_here(rest, text.drop_first()),
            RegexChar::OneOrZero(c) => (text.len() > 0 && c.accepts(text[0]) && match_here(rest, text.drop_first()))
                || match_here(rest, text),
            _ => false,
        }
    }
}

/// Whether `atoms` match somewhere in `text`: from offset 0 only after a
/// start anchor, else from any offset up to and including the end.
pub open spec fn search(atoms: Seq<RegexChar>, text: Seq<u8>) -> bool {
    if atoms.len() > 0 && atoms[0] is StartAnchor {
        match_here(atoms.drop_first(), text)
    } else {
        exists|i: int| 0 <= i <= text.len() && #[trigger] match_here(atoms, text.skip(i))
    }
}

/// Whether `regex` matches somewhere in `text`.
pub(crate) fn is_match(regex: &Vec<RegexChar>, text: &[u8]) -> (r: bool)
    ensures
        r == search(regex@, text@),
{
    if regex.len() > 0 && matches!(regex[0], RegexChar::StartAnchor) {
        proof {
            assert(regex@.skip(1) =~= regex@.drop_first());
            assert(text@.skip(0) =~= text@);
        }
        is_match_here(regex, 1, text, 0)
    } else {
        proof {
            assert(regex@.skip(0) =~= regex@);
        }
        let mut index: usize = 0;
        while index < text.len()
            invariant
                index <= text.len(),
                regex@.skip(0) == regex@,
                forall|i: int| 0 <= i < index ==> !#[trigger] match_here(regex@, text@.skip(i)),
            decreases text.len() - index,
        {
            if is_match_here(regex, 0, text, index) {
                return true;
            }
            index += 1;
        }
        is_match_here(regex, 0, text, index)
    }
}

/// Whether the atoms of `regex` from `ri` on match at the front of the
/// bytes of `text` from `ti` on.
fn is_match_here(regex: &Vec<RegexChar>, ri: usize, text: &[u8], ti: usize) -> (r: bool)
    requires
        ri <= regex@.len(),
        ti <= text@.len(),
    ensures
        r == match_here(regex@.skip(ri as int), text@.skip(ti as int)),
    decreases regex@.len() - ri, 1int,
{
    let ghost atoms = regex@.skip(ri as int);
    let ghost t = text@.skip(ti as int);
    if ri == regex.len() {
        return true;
    }
    proof {
        assert(atoms.drop_first() =~= regex@.skip(ri + 1));
        assert(t.len() == text@.len() - ti);
        if ti < text.len() {
            assert(t[0] == text@[ti as int]);
            assert(t.drop_first() =~= text@.skip(ti + 1));
        }
        assert(atoms[0] == regex@[ri as int]);
        assert(atoms.len() == regex@.len() - ri);
    }
    if matches!(regex[ri], RegexChar::EndAnchor) && ri + 1 == regex.len() {
        return ti == text.len();
    }
    match regex[ri] {
        RegexChar::MoreOrZero(chr) => is_match_star(chr, regex, ri + 1, text, ti),
        RegexChar::Literal(chr) => {
            if ti == text.len() {
                false
            } else if chr == text[ti] {
                is_match_here(regex, ri + 1, text, ti + 1)
            } else {
                false
            }
        },
        RegexChar::Wildcard => {
            if ti == text.len() {
                false
            } else {
                is_match_here(regex, ri + 1, text, ti + 1)
            }
        },
        RegexChar::OneOrZero(chr) => {
            if ti == text.len() {
                is_match_here(regex, ri + 1, text, ti)
            } else {
                (chr.is_match(text[ti]) && is_match_here(regex, ri + 1, text, ti + 1))
                    || is_match_here(regex, ri + 1, text, ti)
            }
        },
        _ => false,
    }
}

/// Whether zero or more bytes accepted by `cardinal_char`, then the atoms
/// of `regex` from `ri` on, match at the front of the bytes of `text` from
/// `ti` on; the shortest run is tried first.
fn is_match_star(cardinal_char: CardinalChar, regex: &Vec<RegexChar>, ri: usize, text: &[u8], ti: usize) -> (r: bool)
    requires
        ri <= regex@.len(),
        ti <= text@.len(),
    ensures
        r == exists|k: int|
            0 <= k <= text@.len() - ti && #[trigger] run_of(cardinal_char, text@.skip(ti as int), k)
                && match_here(regex@.skip(ri as int), text@.skip(ti as int).skip(k)),
    decreases regex@.len() - ri + 1, 0int,
{
    let ghost rest = regex@.skip(ri as int);
    let ghost t = text@.skip(ti as int);
    let mut index: usize = 0;
    proof {
        assert(t.skip(0) =~= text@.skip(ti as int));
    }
    let mut is_matched = is_match_here(regex, ri, text, ti);
    while index < text.len() - ti && !is_matched && cardinal_char.is_match(text[ti + index])
        invariant
            ri <= regex@.len(),
            ti <= text@.len(),
            index <= text@.len() - ti,
            rest == regex@.skip(ri as int),
            t == text@.skip(ti as int),
            run_of(cardinal_char, t, index as int),
            forall|k: int| 0 <= k < index ==> !#[trigger] match_here(rest, t.skip(k)),
            is_matched == match_here(rest, t.skip(index as int)),
        decreases text@.len() - ti - index,
    {
        assert(t[index as int] == text@[ti + index]);
        index += 1;
        proof {
            assert(t.skip(index as int) =~= text@.skip(ti + index));
        }
        is_matched = is_match_here(regex, ri, text, ti + index);
    }
    proof {
        if !is_matched {
            assert forall|k: int|
                0 <= k <= text@.len() - ti && #[trigger] run_of(cardinal_char, t, k)
                    implies !match_here(rest, t.skip(k)) by {
                if k > index {
                    assert(!cardinal_char.accepts(t[index as int]));
                }
            }
        }
    }
    is_matched
}


/// Neither anchor occurs among `atoms`.
pub open spec fn anchor_free(atoms: Seq<RegexChar>) -> bool {
    forall|k: int| 0 <= k < atoms.len() ==> !((#[trigger] atoms[k]) is StartAnchor) && !(atoms[k] is EndAnchor)
}

/// Whether `atoms` match all of `s`, no byte before or after.
pub open spec fn full_match(atoms: Seq<RegexChar>, s: Seq<u8>) -> bool
    decreases atoms.len(),
{
    if atoms.len() == 0 {
        s.len() == 0
    } else {
        let rest = atoms.drop_first();
        match atoms[0] {
            RegexChar::MoreOrZero(c) => exists|k: int|
                0 <= k <= s.len() && #[trigger] run_of(c, s, k) && full_match(rest, s.skip(k)),
            RegexChar::Literal(c) => s.len() > 0 && s[0] == c && full_match(rest, s.drop_first()),
            RegexChar::Wildcard => s.len() > 0 && full_match(rest, s.drop_first()),
            RegexChar::OneOrZero(c) => (s.len() > 0 && c.accepts(s[0]) && full_match(rest, s.drop_first()))
                || full_match(rest, s),
            _ => false,
        }
    }
}

/// Without anchors, `atoms` match at the front of `t` exactly when they
/// match all of some prefix of `t`.
pub proof fn lemma_match_here_is_prefix_match(atoms: Seq<RegexChar>, t: Seq<u8>)
    requires
        anchor_free(atoms),
    ensures
        match_here(atoms, t) <==> exists|j: int| 0 <= j <= t.len() && #[trigger] full_match(atoms, t.take(j)),
    decreases atoms.len(),
{
    if atoms.len() == 0 {
        if match_here(atoms, t) {
            assert(full_match(atoms, t.take(0)));
        }
        return;
    }
    let rest = atoms.drop_first();
    assert(anchor_free(rest)) by {
        assert forall|k: int| 0 <= k < rest.len() implies !((#[trigger] rest[k]) is StartAnchor) && !(
        rest[k] is EndAnchor) by {
            assert(rest[k] == atoms[k + 1]);
        }
    }
    assert(!(atoms[0] is StartAnchor) && !(atoms[0] is EndAnchor));
    match atoms[0] {
        RegexChar::MoreOrZero(c) => {
            if match_here(atoms, t) {
                let k = choose|k: int| 0 <= k <= t.len() && #[trigger] run_of(c, t, k) && match_here(rest, t.skip(k));
                lemma_match_here_is_prefix_match(rest, t.skip(k));
                let j2 = choose|j: int| 0 <= j <= t.skip(k).len() && #[trigger] full_match(rest, t.skip(k).take(j));
                let j = k + j2;
                assert(t.take(j).skip(k) =~= t.skip(k).take(j2));
                assert(run_of(c, t.take(j), k));
                assert(full_match(atoms, t.take(j)));
            }
            if exists|j: int| 0 <= j <= t.len() && #[trigger] full_match(atoms, t.take(j)) {
                let j = choose|j: int| 0 <= j <= t.len() && #[trigger] full_match(atoms, t.take(j));
                let s = t.take(j);
                let k = choose|k: int| 0 <= k <= s.len() && #[trigger] run_of(c, s, k) && full_match(rest, s.skip(k));
                assert(s.skip(k) =~= t.skip(k).take(j - k));
                lemma_match_here_is_prefix_match(rest, t.skip(k));
                assert forall|m: int| 0 <= m < k implies c.accepts(#[trigger] t[m]) by {
                    assert(s[m] == t[m]);
                }
                assert(run_of(c, t, k));
                assert(full_match(rest, t.skip(k).take(j - k)));
                assert(match_here(rest, t.skip(k)));
                assert(match_here(atoms, t));
            }
        },
        RegexChar::OneOrZero(c) => {
            lemma_match_here_is_prefix_match(rest, t);
            if t.len() > 0 {
                lemma_match_here_is_prefix_match(rest, t.drop_first());
            }
            if match_here(atoms, t) {
                if t.len() > 0 && c.accepts(t[0]) && match_here(rest, t.drop_first()) {
                    let j2 = choose|j: int| 0 <= j <= t.drop_first().len() && #[trigger] full_match(rest, t.drop_first().take(j));
                    assert(t.take(j2 + 1).drop_first() =~= t.drop_first().take(j2));
                    assert(full_match(atoms, t.take(j2 + 1)));
                } else {
                    let j = choose|j: int| 0 <= j <= t.len() && #[trigger] full_match(rest, t.take(j));
                    assert(full_match(atoms, t.take(j)));
                }
            }
            if exists|j: int| 0 <= j <= t.len() && #[trigger] full_match(atoms, t.take(j)) {
                let j = choose|j: int| 0 <= j <= t.len() && #[trigger] full_match(atoms, t.take(j));
                let s = t.take(j);
                if s.len() > 0 && c.accepts(s[0]) && full_match(rest, s.drop_first()) {
                    assert(s.drop_first() =~= t.drop_first().take(j - 1));
                } else {
                    assert(full_match(rest, t.take(j)));
                }
                assert(match_here(atoms, t));
            }
        },
        RegexChar::Literal(_) | RegexChar::Wildcard => {
            if t.len() > 0 {
                lemma_match_here_is_prefix_match(rest, t.drop_first());
            }
            if match_here(atoms, t) {
                let j2 = choose|j: int| 0 <= j <= t.drop_first().len() && #[trigger] full_match(rest, t.drop_first().take(j));
                assert(t.take(j2 + 1).drop_first() =~= t.drop_first().take(j2));
                assert(full_match(atoms, t.take(j2 + 1)));
            }
            if exists|j: int| 0 <= j <= t.len() && #[trigger] full_match(atoms, t.take(j)) {
                let j = choose|j: int| 0 <= j <= t.len() && #[trigger] full_match(atoms, t.take(j));
                assert(t.take(j)[0] == t[0]);
                assert(t.take(j).drop_first() =~= t.drop_first().take(j - 1));
                assert(full_match(rest, t.drop_first().take(j - 1)));
                assert(match_here(atoms, t));
            }
        },
        _ => {},
    }
}

/// For a pattern without anchors, the scan over every offset answers true
/// exactly when the atoms match all of some contiguous piece of the text.
pub proof fn lemma_search_is_substring_match(atoms: Seq<RegexChar>, text: Seq<u8>)
    requires
        anchor_free(atoms),
    ensures
        search(atoms, text) <==> exists|i: int, j: int|
            0 <= i <= j <= text.len() && #[trigger] full_match(atoms, text.subrange(i, j)),
{
    if atoms.len() > 0 {
        assert(!(atoms[0] is StartAnchor));
    }
    if search(atoms, text) {
        let i = choose|i: int| 0 <= i <= text.len() && #[trigger] match_here(atoms, text.skip(i));
        lemma_match_here_is_prefix_match(atoms, text.skip(i));
        let j2 = choose|j: int| 0 <= j <= text.skip(i).len() && #[trigger] full_match(atoms, text.skip(i).take(j));
        assert(text.skip(i).take(j2) =~= text.subrange(i, i + j2));
        assert(full_match(atoms, text.subrange(i, i + j2)));
    }
    if exists|i: int, j: int| 0 <= i <= j <= text.len() && #[trigger] full_match(atoms, text.subrange(i, j)) {
        let (i, j) = choose|i: int, j: int| 0 <= i <= j <= text.len() && #[trigger] full_match(atoms, text.subrange(i, j));
        assert(text.skip(i).take(j - i) =~= text.subrange(i, j));
        lemma_match_here_is_prefix_match(atoms, text.skip(i));
        assert(match_here(atoms, text.skip(i)));
    }
}

} // verus!
