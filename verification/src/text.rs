//! Byte-level text utilities: trimming, equality, splitting and joining.
//!
//! The engine treats all protocol text (lookup response bodies, stored
//! history rows, request parameters) as ASCII byte strings; these helpers
//! carry exact contracts over the corresponding `Seq<u8>` views.

use vstd::prelude::*;
use vstd::slice::{slice_subrange, slice_to_vec};

verus! {

/// ASCII whitespace: space, tab, line feed, vertical tab, form feed,
/// carriage return.
pub open spec fn is_ascii_space(b: u8) -> bool {
    b == 32 || b == 9 || b == 10 || b == 11 || b == 12 || b == 13
}

/// The input without its leading ASCII whitespace.
pub open spec fn spec_trim_start(s: Seq<u8>) -> Seq<u8>
    decreases s.len(),
{
    if s.len() > 0 && is_ascii_space(s[0]) {
        spec_trim_start(s.drop_first())
    } else {
        s
    }
}

/// The input without its trailing ASCII whitespace.
pub open spec fn spec_trim_end(s: Seq<u8>) -> Seq<u8>
    decreases s.len(),
{
    if s.len() > 0 && is_ascii_space(s.last()) {
        spec_trim_end(s.drop_last())
    } else {
        s
    }
}

/// The input without leading and trailing ASCII whitespace.
pub open spec fn spec_trim(s: Seq<u8>) -> Seq<u8> {
    spec_trim_end(spec_trim_start(s))
}

proof fn lemma_trim_start_at(s: Seq<u8>, i: int)
    requires
        0 <= i <= s.len(),
        forall|j: int| 0 <= j < i ==> is_ascii_space(s[j]),
        i == s.len() || !is_ascii_space(s[i]),
    ensures
        spec_trim_start(s) == s.subrange(i, s.len() as int),
    decreases i,
{
    if i == 0 {
        assert(s.subrange(0, s.len() as int) =~= s);
    } else {
        assert(is_ascii_space(s[0]));
        lemma_trim_start_at(s.drop_first(), i - 1);
        assert(s.drop_first().subrange(i - 1, s.drop_first().len() as int) =~= s.subrange(
            i,
            s.len() as int,
        ));
    }
}

proof fn lemma_trim_end_at(s: Seq<u8>, m: int)
    requires
        0 <= m <= s.len(),
        forall|j: int| m <= j < s.len() ==> is_ascii_space(s[j]),
        m == 0 || !is_ascii_space(s[m - 1]),
    ensures
        spec_trim_end(s) == s.subrange(0, m),
    decreases s.len() - m,
{
    if m == s.len() {
        if s.len() > 0 && is_ascii_space(s.last()) {
            assert(!is_ascii_space(s[m - 1]));
            assert(false);
        }
        assert(s.subrange(0, m) =~= s);
    } else {
        assert(is_ascii_space(s.last()));
        lemma_trim_end_at(s.drop_last(), m);
        assert(s.drop_last().subrange(0, m) =~= s.subrange(0, m));
    }
}

/// Trimming a byte string that holds no whitespace leaves it unchanged.
pub proof fn lemma_trim_clean(s: Seq<u8>)
    requires
        forall|j: int| 0 <= j < s.len() ==> !is_ascii_space(s[j]),
    ensures
        spec_trim(s) == s,
{
    lemma_trim_start_at(s, 0);
    assert(s.subrange(0, s.len() as int) =~= s);
    lemma_trim_end_at(s, s.len() as int);
}

/// Whether a byte is ASCII whitespace.
pub fn is_space(b: u8) -> (r: bool)
    ensures
        r == is_ascii_space(b),
{
    b == 32 || b == 9 || b == 10 || b == 11 || b == 12 || b == 13
}

/// Strips ASCII whitespace from both ends of a byte string.
pub fn trim_bytes(s: &[u8]) -> (r: &[u8])
    ensures
        r@ == spec_trim(s@),
{
    let mut lo: usize = 0;
    while lo < s.len() && is_space(s[lo])
        invariant
            lo <= s@.len(),
            forall|j: int| 0 <= j < lo ==> is_ascii_space(s@[j]),
        decreases s@.len() - lo,
    {
        lo = lo + 1;
    }
    let mut hi: usize = s.len();
    while hi > lo && is_space(s[hi - 1])
        invariant
            lo <= hi <= s@.len(),
            forall|j: int| 0 <= j < lo ==> is_ascii_space(s@[j]),
            forall|j: int| hi <= j < s@.len() ==> is_ascii_space(s@[j]),
        decreases hi,
    {
        hi = hi - 1;
    }
    proof {
        lemma_trim_start_at(s@, lo as int);
        let t = s@.subrange(lo as int, s@.len() as int);
        lemma_trim_end_at(t, hi - lo);
        assert(t.subrange(0, hi - lo) =~= s@.subrange(lo as int, hi as int));
    }
    slice_subrange(s, lo, hi)
}

/// Whether two byte strings hold the same bytes.
pub fn bytes_eq(a: &[u8], b: &[u8]) -> (r: bool)
    ensures
        r == (a@ == b@),
{
    if a.len() != b.len() {
        return false;
    }
    let mut i: usize = 0;
    while i < a.len()
        invariant
            a@.len() == b@.len(),
            i <= a@.len(),
            forall|j: int| 0 <= j < i ==> a@[j] == b@[j],
        decreases a@.len() - i,
    {
        if a[i] != b[i] {
            return false;
        }
        i = i + 1;
    }
    proof {
        assert(a@ =~= b@);
    }
    true
}

/// The pieces of a byte string split on a separator.  Splitting never yields
/// an empty result: a string without the separator is one piece, and every
/// separator starts a new piece, so `"a::b"` split on `:` has an empty
/// middle piece.
pub open spec fn spec_split(s: Seq<u8>, sep: u8) -> Seq<Seq<u8>>
    decreases s.len(),
{
    if s.len() == 0 {
        seq![Seq::<u8>::empty()]
    } else if s[0] == sep {
        seq![Seq::<u8>::empty()] + spec_split(s.drop_first(), sep)
    } else {
        let rest = spec_split(s.drop_first(), sep);
        seq![seq![s[0]] + rest[0]] + rest.drop_first()
    }
}

/// Splitting always yields at least one piece.
pub proof fn lemma_split_len(s: Seq<u8>, sep: u8)
    ensures
        spec_split(s, sep).len() >= 1,
    decreases s.len(),
{
    if s.len() > 0 {
        lemma_split_len(s.drop_first(), sep);
    }
}

/// A string without the separator is a single piece.
pub proof fn lemma_split_nosep(s: Seq<u8>, sep: u8)
    requires
        forall|j: int| 0 <= j < s.len() ==> s[j] != sep,
    ensures
        spec_split(s, sep) =~~= seq![s],
    decreases s.len(),
{
    if s.len() == 0 {
        assert(Seq::<u8>::empty() =~= s);
    } else {
        lemma_split_nosep(s.drop_first(), sep);
        lemma_split_len(s.drop_first(), sep);
        assert(seq![s[0]] + s.drop_first() =~= s);
    }
}

/// Splitting at the first separator occurrence peels off the first piece.
pub proof fn lemma_split_step(s: Seq<u8>, sep: u8, i: int)
    requires
        0 <= i < s.len(),
        s[i] == sep,
        forall|j: int| 0 <= j < i ==> s[j] != sep,
    ensures
        spec_split(s, sep) =~~= seq![s.subrange(0, i)] + spec_split(
            s.subrange(i + 1, s.len() as int),
            sep,
        ),
    decreases i,
{
    if i == 0 {
        assert(s.subrange(0, 0) =~= Seq::<u8>::empty());
        assert(s.subrange(1, s.len() as int) =~= s.drop_first());
    } else {
        lemma_split_step(s.drop_first(), sep, i - 1);
        lemma_split_len(s.drop_first().subrange(i, s.len() - 1), sep);
        assert(s.drop_first().subrange(0, i - 1) =~= s.subrange(1, i));
        assert(s.drop_first().subrange(i, s.len() - 1) =~= s.subrange(i + 1, s.len() as int));
        assert(seq![s[0]] + s.subrange(1, i) =~= s.subrange(0, i));
    }
}

/// Splits a byte string on a separator byte.
pub fn split_bytes(s: &[u8], sep: u8) -> (r: Vec<Vec<u8>>)
    ensures
        r.deep_view() =~~= spec_split(s@, sep),
{
    let mut pieces: Vec<Vec<u8>> = Vec::new();
    let mut start: usize = 0;
    let mut i: usize = 0;
    proof {
        assert(s@.subrange(0, s@.len() as int) =~= s@);
        assert(pieces.deep_view() =~~= Seq::<Seq<u8>>::empty());
    }
    while i < s.len()
        invariant
            start <= i <= s@.len(),
            spec_split(s@, sep) =~~= pieces.deep_view() + spec_split(
                s@.subrange(start as int, s@.len() as int),
                sep,
            ),
            forall|j: int| start <= j < i ==> s@[j] != sep,
        decreases s@.len() - i,
    {
        if s[i] == sep {
            let piece = slice_to_vec(slice_subrange(s, start, i));
            proof {
                let t = s@.subrange(start as int, s@.len() as int);
                lemma_split_step(t, sep, i - start);
                assert(t.subrange(0, i - start) =~= s@.subrange(start as int, i as int));
                assert(t.subrange(i - start + 1, t.len() as int) =~= s@.subrange(
                    i + 1,
                    s@.len() as int,
                ));
            }
            pieces.push(piece);
            start = i + 1;
        }
        i = i + 1;
    }
    let piece = slice_to_vec(slice_subrange(s, start, s.len()));
    proof {
        let t = s@.subrange(start as int, s@.len() as int);
        lemma_split_nosep(t, sep);
    }
    pieces.push(piece);
    pieces
}

/// The pieces joined with a separator byte between consecutive pieces.
pub open spec fn spec_join(ps: Seq<Seq<u8>>, sep: u8) -> Seq<u8>
    decreases ps.len(),
{
    if ps.len() == 0 {
        Seq::<u8>::empty()
    } else if ps.len() == 1 {
        ps[0]
    } else {
        ps[0] + seq![sep] + spec_join(ps.drop_first(), sep)
    }
}

/// Joins byte strings with a separator byte.
pub fn join_bytes(ps: &Vec<Vec<u8>>, sep: u8) -> (r: Vec<u8>)
    requires
        ps@.len() >= 1,
    ensures
        r@ =~= spec_join(ps.deep_view(), sep),
{
    let mut out: Vec<u8> = Vec::new();
    let mut i: usize = 0;
    proof {
        assert(ps.deep_view().skip(0) =~~= ps.deep_view());
    }
    while i < ps.len()
        invariant
            i <= ps@.len(),
            ps@.len() >= 1,
            spec_join(ps.deep_view(), sep) =~= out@ + spec_join(
                ps.deep_view().skip(i as int),
                sep,
            ),
        decreases ps@.len() - i,
    {
        proof {
            let d = ps.deep_view();
            assert(d.skip(i as int)[0] == d[i as int]);
            if i + 1 < ps@.len() {
                assert(d.skip(i as int).drop_first() =~~= d.skip(i + 1));
            } else {
                assert(d.skip(i as int).len() == 1);
                assert(d.skip(i + 1) =~~= Seq::<Seq<u8>>::empty());
            }
        }
        let piece = &ps[i];
        let mut j: usize = 0;
        let ghost out_before = out@;
        while j < piece.len()
            invariant
                j <= piece@.len(),
                out@ =~= out_before + piece@.subrange(0, j as int),
            decreases piece@.len() - j,
        {
            out.push(piece[j]);
            j = j + 1;
        }
        proof {
            assert(piece@.subrange(0, piece@.len() as int) =~= piece@);
        }
        if i + 1 < ps.len() {
            out.push(sep);
        }
        i = i + 1;
    }
    proof {
        assert(spec_join(ps.deep_view().skip(ps@.len() as int), sep) =~= Seq::<u8>::empty());
    }
    out
}

/// Joining pieces that are free of the separator and then splitting on it
/// gives the pieces back.
pub proof fn lemma_split_join(ps: Seq<Seq<u8>>, sep: u8)
    requires
        ps.len() >= 1,
        forall|k: int, j: int| 0 <= k < ps.len() && 0 <= j < ps[k].len() ==> ps[k][j] != sep,
    ensures
        spec_split(spec_join(ps, sep), sep) =~~= ps,
    decreases ps.len(),
{
    if ps.len() == 1 {
        lemma_split_nosep(ps[0], sep);
    } else {
        let joined = spec_join(ps, sep);
        let head = ps[0];
        assert(joined =~= head + seq![sep] + spec_join(ps.drop_first(), sep));
        assert(forall|j: int| 0 <= j < head.len() ==> joined[j] == head[j] && joined[j] != sep);
        assert(joined[head.len() as int] == sep);
        lemma_split_step(joined, sep, head.len() as int);
        assert(joined.subrange(0, head.len() as int) =~= head);
        assert(joined.subrange(head.len() as int + 1, joined.len() as int) =~= spec_join(
            ps.drop_first(),
            sep,
        ));
        assert(forall|k: int, j: int|
            0 <= k < ps.drop_first().len() && 0 <= j < ps.drop_first()[k].len() ==> ps.drop_first(
            )[k][j] != sep);
        lemma_split_join(ps.drop_first(), sep);
    }
}

} // verus!
