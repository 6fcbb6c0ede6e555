//! Character-sequence helpers: conversion between strings and character
//! vectors, substring search and lexicographic ordering.

use vstd::prelude::*;

verus! {

/// The characters of `s`, in order.
pub fn chars_of(s: &str) -> (r: Vec<char>)
    ensures
        r@ == s@,
{
    broadcast use vstd::string::group_string_axioms;
    let mut r: Vec<char> = Vec::new();
    for c in it: s.chars()
        invariant
            it.seq() == s@,
            r@ == it.seq().take(it.index() as int),
    {
        r.push(c);
    }
    r
}

/// Appends `c` to `s` with `String::push`.
///
/// Trusted: the string afterwards is the string before with `c` at its end.
#[verifier::external_body]
pub(crate) fn push_char(s: &mut String, c: char)
    ensures
        final(s)@ == old(s)@.push(c),
{
    s.push(c);
}

/// A string holding the characters of `v`, in order.
pub fn string_from_chars(v: &[char]) -> (r: String)
    ensures
        r@ == v@,
{
    let mut r = String::new();
    for i in 0..v.len()
        invariant
            r@ == v@.take(i as int),
    {
        push_char(&mut r, v[i]);
        assert(v@.take(i + 1) == v@.take(i as int).push(v@[i as int]));
    }
    assert(v@.take(v@.len() as int) == v@);
    r
}


/// `needle` occurs in `hay` starting at index `i`.
pub open spec fn occurs_at(hay: Seq<char>, needle: Seq<char>, i: int) -> bool {
    0 <= i && i + needle.len() <= hay.len() && hay.subrange(i, i + needle.len()) == needle
}

/// `needle` occurs somewhere in `hay` (the empty sequence occurs in every sequence).
pub open spec fn contains_seq(hay: Seq<char>, needle: Seq<char>) -> bool {
    exists|i: int| occurs_at(hay, needle, i)
}

/// Whether `needle` occurs as a contiguous run in `hay`.
pub fn contains(hay: &[char], needle: &[char]) -> (r: bool)
    ensures
        r == contains_seq(hay@, needle@),
{
    if needle.len() == 0 {
        assert(hay@.subrange(0, 0) =~= needle@);
        assert(occurs_at(hay@, needle@, 0));
        return true;
    }
    if needle.len() > hay.len() {
        return false;
    }
    let hlen = hay.len();
    let last = hlen - needle.len();
    let mut i: usize = 0;
    while i <= last
        invariant
            last == hay@.len() - needle@.len(),
            hlen == hay@.len(),
            1 <= needle@.len() <= hay@.len(),
            i <= last + 1,
            forall|k: int| 0 <= k < i ==> !occurs_at(hay@, needle@, k),
        decreases last + 1 - i,
    {
        let mut j: usize = 0;
        let mut same = true;
        while j < needle.len()
            invariant
                i <= last,
                last == hay@.len() - needle@.len(),
                hlen == hay@.len(),
                1 <= needle@.len() <= hay@.len(),
                j <= needle@.len(),
                same ==> forall|m: int| 0 <= m < j ==> hay@[i + m] == needle@[m],
                !same ==> !occurs_at(hay@, needle@, i as int),
            decreases needle@.len() - j,
        {
            assert(i + j < hlen);
            if hay[i + j] != needle[j] {
                same = false;
                assert(hay@.subrange(i as int, i + needle@.len())[j as int] != needle@[j as int]);
            }
            j += 1;
        }
        if same {
            assert(hay@.subrange(i as int, i + needle@.len()) =~= needle@);
            assert(occurs_at(hay@, needle@, i as int));
            return true;
        }
        i += 1;
    }
    assert forall|k: int| !occurs_at(hay@, needle@, k) by {
        if 0 <= k < i {
        } else if k >= i {
        }
    }
    false
}


/// Lexicographic order on character sequences, comparing code points: the
/// order of `String`'s `Ord` (a proper prefix comes first).
pub open spec fn lex_le(a: Seq<char>, b: Seq<char>) -> bool
    decreases a.len(),
{
    if a.len() == 0 {
        true
    } else if b.len() == 0 {
        false
    } else if a[0] != b[0] {
        a[0] < b[0]
    } else {
        lex_le(a.drop_first(), b.drop_first())
    }
}

/// Every element is ordered no later than every element after it.
pub open spec fn sorted_lex(s: Seq<Seq<char>>) -> bool {
    forall|i: int, j: int| 0 <= i < j < s.len() ==> lex_le(s[i], s[j])
}

/// The character sequences held by a sequence of character vectors.
pub open spec fn views(v: Seq<Vec<char>>) -> Seq<Seq<char>> {
    v.map_values(|x: Vec<char>| x@)
}

/// Any two sequences are ordered one way or the other.
proof fn lemma_lex_le_total(a: Seq<char>, b: Seq<char>)
    ensures
        lex_le(a, b) || lex_le(b, a),
    decreases a.len(),
{
    if a.len() > 0 && b.len() > 0 && a[0] == b[0] {
        lemma_lex_le_total(a.drop_first(), b.drop_first());
    }
}

/// The order is transitive.
proof fn lemma_lex_le_transitive(a: Seq<char>, b: Seq<char>, c: Seq<char>)
    requires
        lex_le(a, b),
        lex_le(b, c),
    ensures
        lex_le(a, c),
    decreases a.len(),
{
    if a.len() > 0 && b.len() > 0 && c.len() > 0 && a[0] == b[0] && b[0] == c[0] {
        lemma_lex_le_transitive(a.drop_first(), b.drop_first(), c.drop_first());
    }
}

/// The lexicographic order: a prefix comes first, two sequences that
/// first differ at one position are ordered by the characters there, and
/// any two sequences are ordered one way or the other.
pub proof fn lexicographic_order(p: Seq<char>, a: Seq<char>, b: Seq<char>, x: char, y: char)
    ensures
        lex_le(p, p + a),
        x < y ==> lex_le(p.push(x) + a, p.push(y) + b) && !lex_le(p.push(y) + b, p.push(x) + a),
        lex_le(a, b) || lex_le(b, a),
    decreases p.len(),
{
    lemma_lex_le_total(a, b);
    if p.len() == 0 {
        assert(p + a =~= a);
        assert(p.push(x) + a =~= seq![x] + a);
        assert(p.push(y) + b =~= seq![y] + b);
        assert((seq![x] + a)[0] == x);
        assert((seq![y] + b)[0] == y);
    } else {
        lexicographic_order(p.drop_first(), a, b, x, y);
        assert((p + a).drop_first() =~= p.drop_first() + a);
        assert((p.push(x) + a).drop_first() =~= p.drop_first().push(x) + a);
        assert((p.push(y) + b).drop_first() =~= p.drop_first().push(y) + b);
        assert((p + a)[0] == p[0]);
        assert((p.push(x) + a)[0] == p[0]);
        assert((p.push(y) + b)[0] == p[0]);
    }
}

/// A sequence occurs in any sequence that holds it between two others, and
/// no sequence occurs in a shorter one.
pub proof fn substring_occurrence(a: Seq<char>, needle: Seq<char>, b: Seq<char>, hay: Seq<char>)
    ensures
        contains_seq(a + needle + b, needle),
        needle.len() > hay.len() ==> !contains_seq(hay, needle),
{
    let h = a + needle + b;
    assert(h.subrange(a.len() as int, (a.len() + needle.len()) as int) =~= needle);
    assert(occurs_at(h, needle, a.len() as int));
}

/// Whether `a` is ordered no later than `b` lexicographically.
pub fn lex_le_chars(a: &[char], b: &[char]) -> (r: bool)
    ensures
        r == lex_le(a@, b@),
{
    let mut i: usize = 0;
    assert(a@.skip(0) =~= a@);
    assert(b@.skip(0) =~= b@);
    while i < a.len() && i < b.len()
        invariant
            i <= a@.len(),
            i <= b@.len(),
            lex_le(a@, b@) == lex_le(a@.skip(i as int), b@.skip(i as int)),
        decreases a@.len() - i,
    {
        assert(a@.skip(i as int)[0] == a@[i as int]);
        assert(b@.skip(i as int)[0] == b@[i as int]);
        if a[i] != b[i] {
            return a[i] < b[i];
        }
        assert(a@.skip(i as int).drop_first() =~= a@.skip(i + 1));
        assert(b@.skip(i as int).drop_first() =~= b@.skip(i + 1));
        i += 1;
    }
    i == a.len()
}

/// The first position in `sorted` whose element is ordered strictly after `x`.
fn insertion_point(sorted: &Vec<Vec<char>>, x: &Vec<char>) -> (p: usize)
    requires
        sorted_lex(views(sorted@)),
    ensures
        p <= sorted@.len(),
        forall|k: int| 0 <= k < p ==> lex_le(#[trigger] sorted@[k]@, x@),
        forall|k: int| p <= k < sorted@.len() ==> !lex_le(#[trigger] sorted@[k]@, x@),
{
    let mut p: usize = 0;
    while p < sorted.len()
        invariant
            sorted_lex(views(sorted@)),
            p <= sorted@.len(),
            forall|k: int| 0 <= k < p ==> lex_le(#[trigger] sorted@[k]@, x@),
        decreases sorted@.len() - p,
    {
        if !lex_le_chars(sorted[p].as_slice(), x.as_slice()) {
            assert forall|k: int| p <= k < sorted@.len() implies !lex_le(#[trigger] sorted@[k]@, x@) by {
                if k > p && lex_le(sorted@[k]@, x@) {
                    assert(views(sorted@)[p as int] == sorted@[p as int]@);
                    assert(views(sorted@)[k] == sorted@[k]@);
                    lemma_lex_le_transitive(sorted@[p as int]@, sorted@[k]@, x@);
                }
            }
            return p;
        }
        p += 1;
    }
    p
}

/// The same character sequences in lexicographic order.
pub fn sort_lex(items: &Vec<Vec<char>>) -> (r: Vec<Vec<char>>)
    ensures
        views(r@).to_multiset() == views(items@).to_multiset(),
        sorted_lex(views(r@)),
{
    broadcast use vstd::seq_lib::group_to_multiset_ensures;
    let mut r: Vec<Vec<char>> = Vec::new();
    for i in 0..items.len()
        invariant
            views(r@).to_multiset() == views(items@.take(i as int)).to_multiset(),
            sorted_lex(views(r@)),
    {
        let x = items[i].clone();
        assert(x@ =~= items@[i as int]@);
        let p = insertion_point(&r, &x);
        let ghost old_r = r@;
        r.insert(p, x);
        proof {
            vstd::seq_lib::to_multiset_insert(views(old_r), p as int, x@);
            vstd::seq_lib::to_multiset_build(views(items@.take(i as int)), x@);
        }
        assert(views(r@) =~= views(old_r).insert(p as int, x@));
        assert(views(items@.take(i + 1)) =~= views(items@.take(i as int)).push(items@[i as int]@));
        assert(views(old_r).insert(p as int, x@).to_multiset() == views(old_r).to_multiset().insert(x@));
        assert(views(items@.take(i as int)).push(x@).to_multiset()
            == views(items@.take(i as int)).to_multiset().insert(x@));
        assert forall|a: int, b: int| 0 <= a < b < r@.len() implies lex_le(
            #[trigger] views(r@)[a],
            #[trigger] views(r@)[b],
        ) by {
            let s = views(old_r);
            if a < p && b == p {
            } else if a == p && b > p {
                lemma_lex_le_total(s[b - 1], x@);
            } else if a < p && b > p {
                lemma_lex_le_total(s[b - 1], x@);
                lemma_lex_le_transitive(s[a], x@, s[b - 1]);
            } else if a > p {
                assert(views(r@)[a] == s[a - 1]);
                assert(views(r@)[b] == s[b - 1]);
            } else {
                assert(views(r@)[a] == s[a]);
                assert(views(r@)[b] == s[b]);
            }
        }
    }
    assert(items@.take(items@.len() as int) =~= items@);
    r
}

} // verus!
