//! Strings as sequences of characters: conversion, search and splitting.

use vstd::prelude::*;
use vstd::slice::slice_subrange;

verus! {

/// `String::push` of the standard library: the character is appended at the
/// end and nothing else changes.
pub assume_specification[ std::string::String::push ](s: &mut std::string::String, c: char)
    ensures
        final(s)@ == old(s)@.push(c),
;

/// The position of the first `x` in `s`, or the length of `s` if there is none.
pub open spec fn find<A>(s: Seq<A>, x: A) -> int
    decreases s.len(),
{
    if s.len() == 0 || s[0] == x {
        0
    } else {
        1 + find(s.skip(1), x)
    }
}

/// The pieces of `s` between occurrences of `sep`. There is always at least one
/// piece: the empty text has one empty piece, and a separator at the end is
/// followed by an empty piece.
pub open spec fn split(s: Seq<char>, sep: char) -> Seq<Seq<char>>
    decreases s.len(),
{
    let i = find(s, sep);
    if 0 <= i < s.len() {
        seq![s.take(i)] + split(s.skip(i + 1), sep)
    } else {
        seq![s]
    }
}

/// `find` stops at the first occurrence and nowhere before it.
pub proof fn lemma_find<A>(s: Seq<A>, x: A)
    ensures
        0 <= find(s, x) <= s.len(),
        find(s, x) < s.len() ==> s[find(s, x)] == x,
        forall|j: int| 0 <= j < find(s, x) ==> s[j] != x,
        find(s, x) == s.len() <==> !s.contains(x),
    decreases s.len(),
{
    if s.len() == 0 || s[0] == x {
    } else {
        let rest = s.skip(1);
        lemma_find(rest, x);
        assert forall|j: int| 0 <= j < find(s, x) implies s[j] != x by {
            if j > 0 {
                assert(s[j] == rest[j - 1]);
            }
        }
        if rest.contains(x) {
            let k = choose|k: int| 0 <= k < rest.len() && rest[k] == x;
            assert(s[k + 1] == x);
        }
        if s.contains(x) {
            let k = choose|k: int| 0 <= k < s.len() && s[k] == x;
            assert(rest[k - 1] == x);
        }
    }
}

/// A position that holds `x`, or the end, with no `x` before it, is what `find`
/// gives.
pub proof fn lemma_find_is<A>(s: Seq<A>, x: A, i: int)
    requires
        0 <= i <= s.len(),
        i < s.len() ==> s[i] == x,
        forall|j: int| 0 <= j < i ==> s[j] != x,
    ensures
        find(s, x) == i,
{
    lemma_find(s, x);
    let f = find(s, x);
    if f < i {
        assert(s[f] != x);
    }
}

/// The pieces `parts` with `sep` between each two of them.
pub open spec fn join(parts: Seq<Seq<char>>, sep: char) -> Seq<char>
    decreases parts.len(),
{
    if parts.len() == 0 {
        Seq::empty()
    } else if parts.len() == 1 {
        parts[0]
    } else {
        join(parts.drop_last(), sep).push(sep) + parts.last()
    }
}

/// A text without the separator is its own single piece.
pub proof fn lemma_split_one(s: Seq<char>, sep: char)
    requires
        !s.contains(sep),
    ensures
        split(s, sep) == seq![s],
{
    lemma_find(s, sep);
}

/// A separator and a piece without separators, put behind a text, add that
/// piece to the pieces of the text.
pub proof fn lemma_split_append(s: Seq<char>, t: Seq<char>, sep: char)
    requires
        !t.contains(sep),
    ensures
        split(s.push(sep) + t, sep) == split(s, sep).push(t),
    decreases s.len(),
{
    let whole = s.push(sep) + t;
    let at = find(s, sep);
    lemma_find(s, sep);
    lemma_find_is(whole, sep, at);
    if at < s.len() {
        let rest = s.skip(at + 1);
        lemma_split_append(rest, t, sep);
        assert(whole.skip(at + 1) =~= rest.push(sep) + t);
        assert(whole.take(at) =~= s.take(at));
        assert(split(whole, sep) =~= split(s, sep).push(t));
    } else {
        lemma_split_one(t, sep);
        assert(whole.skip(at + 1) =~= t);
        assert(whole.take(at) =~= s);
        assert(split(whole, sep) =~= split(s, sep).push(t));
    }
}

/// Cutting a joined text at the separator gives the pieces back, where there
/// is at least one piece and none of them holds the separator.
pub proof fn lemma_split_join(parts: Seq<Seq<char>>, sep: char)
    requires
        parts.len() > 0,
        forall|i: int| 0 <= i < parts.len() ==> !(#[trigger] parts[i]).contains(sep),
    ensures
        split(join(parts, sep), sep) == parts,
    decreases parts.len(),
{
    if parts.len() == 1 {
        lemma_split_one(parts[0], sep);
        assert(parts =~= seq![parts[0]]);
    } else {
        let front = parts.drop_last();
        lemma_split_join(front, sep);
        lemma_split_append(join(front, sep), parts.last(), sep);
        assert(front.push(parts.last()) =~= parts);
    }
}

/// The characters of `s`, in order.
pub fn chars_of(s: &str) -> (out: Vec<char>)
    ensures
        out@ == s@,
{
    let mut out: Vec<char> = Vec::new();
    for c in it: s.chars()
        invariant
            it.seq() == s@,
            out@ == it.seq().take(it.index()),
    {
        out.push(c);
    }
    out
}

/// The string made of the characters `cs`, in order.
pub fn string_of(cs: &[char]) -> (out: String)
    ensures
        out@ == cs@,
{
    let mut out = String::new();
    let mut i: usize = 0;
    while i < cs.len()
        invariant
            i <= cs.len(),
            out@ == cs@.take(i as int),
        decreases cs.len() - i,
    {
        out.push(cs[i]);
        i += 1;
    }
    out
}

/// The string made of the characters of `cs` from `from` up to `to`.
pub fn string_of_range(cs: &[char], from: usize, to: usize) -> (out: String)
    requires
        from <= to <= cs.len(),
    ensures
        out@ == cs@.subrange(from as int, to as int),
{
    string_of(slice_subrange(cs, from, to))
}

/// The position of the first `c` in `cs` at or after `start`, or the length of
/// `cs` if there is none.
pub fn find_from(cs: &[char], start: usize, c: char) -> (at: usize)
    requires
        start <= cs.len(),
    ensures
        start <= at <= cs.len(),
        at == start + find(cs@.skip(start as int), c),
{
    let mut at: usize = start;
    while at < cs.len() && cs[at] != c
        invariant
            start <= at <= cs.len(),
            forall|j: int| start <= j < at ==> cs@[j] != c,
        decreases cs.len() - at,
    {
        at += 1;
    }
    proof {
        lemma_find_is(cs@.skip(start as int), c, at - start);
    }
    at
}

/// Whether `cs` begins with the characters of `prefix`.
pub fn starts_with(cs: &[char], prefix: &str) -> (yes: bool)
    ensures
        yes == prefix@.is_prefix_of(cs@),
{
    let want = chars_of(prefix);
    if want.len() > cs.len() {
        return false;
    }
    let mut i: usize = 0;
    while i < want.len()
        invariant
            i <= want.len() <= cs.len(),
            want@ == prefix@,
            forall|j: int| 0 <= j < i ==> want@[j] == cs@[j],
        decreases want.len() - i,
    {
        if want[i] != cs[i] {
            return false;
        }
        i += 1;
    }
    assert(want@ =~= cs@.subrange(0, want@.len() as int));
    true
}

/// Whether `cs` is exactly the characters of `text`.
pub fn same_text(cs: &[char], text: &str) -> (yes: bool)
    ensures
        yes == (cs@ == text@),
{
    let want = chars_of(text);
    if want.len() != cs.len() {
        return false;
    }
    let mut i: usize = 0;
    while i < want.len()
        invariant
            i <= want.len() == cs.len(),
            want@ == text@,
            forall|j: int| 0 <= j < i ==> want@[j] == cs@[j],
        decreases want.len() - i,
    {
        if want[i] != cs[i] {
            return false;
        }
        i += 1;
    }
    assert(want@ =~= cs@);
    true
}

} // verus!
