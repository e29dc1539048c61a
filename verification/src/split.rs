//! Splitting a sequence at a separator.

use vstd::prelude::*;

verus! {

/// The index of the first `sep` in `s`; the length of `s` if it holds none.
pub open spec fn first_index_of<T>(s: Seq<T>, sep: T) -> int
    decreases s.len(),
{
    if s.len() == 0 || s[0] == sep {
        0
    } else {
        1 + first_index_of(s.drop_first(), sep)
    }
}

/// The pieces of `s` between its separators. A sequence with `n` separators
/// has `n + 1` pieces; the last one is empty if `s` ends in a separator, and
/// the empty sequence is one empty piece.
pub open spec fn split_on<T>(s: Seq<T>, sep: T) -> Seq<Seq<T>>
    decreases s.len(),
{
    let k = first_index_of(s, sep);
    if 0 <= k < s.len() {
        seq![s.take(k)] + split_on(s.skip(k + 1), sep)
    } else {
        seq![s]
    }
}

/// `first_index_of(s, sep)` is the one index before which `s` holds no
/// separator and at which it holds one or ends.
pub proof fn lemma_first_index_of<T>(s: Seq<T>, sep: T, k: int)
    requires
        0 <= k <= s.len(),
        forall|j: int| 0 <= j < k ==> #[trigger] s[j] != sep,
        k < s.len() ==> s[k] == sep,
    ensures
        first_index_of(s, sep) == k,
    decreases s.len(),
{
    if s.len() == 0 || s[0] == sep {
        if k > 0 {
            assert(s[0] != sep);
        }
    } else {
        let t = s.drop_first();
        assert forall|j: int| 0 <= j < k - 1 implies #[trigger] t[j] != sep by {
            assert(t[j] == s[j + 1]);
        }
        lemma_first_index_of(t, sep, k - 1);
    }
}

/// Before `first_index_of(s, sep)` there is no separator in `s`, and at it
/// `s` holds one or ends.
pub proof fn lemma_first_index_of_bounds<T>(s: Seq<T>, sep: T)
    ensures
        0 <= first_index_of(s, sep) <= s.len(),
        forall|j: int| 0 <= j < first_index_of(s, sep) ==> #[trigger] s[j] != sep,
        first_index_of(s, sep) < s.len() ==> s[first_index_of(s, sep)] == sep,
    decreases s.len(),
{
    if s.len() == 0 || s[0] == sep {
    } else {
        let t = s.drop_first();
        lemma_first_index_of_bounds(t, sep);
        assert forall|j: int| 0 <= j < first_index_of(s, sep) implies #[trigger] s[j] != sep by {
            if j > 0 {
                assert(s[j] == t[j - 1]);
            }
        }
        if first_index_of(s, sep) < s.len() {
            assert(s[first_index_of(s, sep)] == t[first_index_of(t, sep)]);
        }
    }
}

/// Where the first separator of `s` is at `k`, the first piece is what
/// stands before it, and the other pieces are those of what follows it.
pub proof fn lemma_split_step<T>(s: Seq<T>, sep: T, k: int)
    requires
        0 <= k < s.len(),
        forall|j: int| 0 <= j < k ==> #[trigger] s[j] != sep,
        s[k] == sep,
    ensures
        split_on(s, sep) == seq![s.take(k)] + split_on(s.skip(k + 1), sep),
{
    lemma_first_index_of(s, sep, k);
}

/// A sequence without a separator is one piece.
pub proof fn lemma_split_last<T>(s: Seq<T>, sep: T)
    requires
        forall|j: int| 0 <= j < s.len() ==> #[trigger] s[j] != sep,
    ensures
        split_on(s, sep) == seq![s],
{
    lemma_first_index_of(s, sep, s.len() as int);
}

/// There is always a piece, and no piece holds a separator.
pub proof fn lemma_split_pieces<T>(s: Seq<T>, sep: T)
    ensures
        split_on(s, sep).len() >= 1,
        forall|i: int, j: int|
            0 <= i < split_on(s, sep).len() && 0 <= j < split_on(s, sep)[i].len()
                ==> #[trigger] split_on(s, sep)[i][j] != sep,
    decreases s.len(),
{
    lemma_first_index_of_bounds(s, sep);
    let k = first_index_of(s, sep);
    if k < s.len() {
        let rest = s.skip(k + 1);
        lemma_split_pieces(rest, sep);
        let pieces = split_on(s, sep);
        assert forall|i: int, j: int|
            0 <= i < pieces.len() && 0 <= j < pieces[i].len() implies #[trigger] pieces[i][j]
            != sep by {
            if i == 0 {
                assert(pieces[0][j] == s[j]);
            } else {
                assert(pieces[i] == split_on(rest, sep)[i - 1]);
            }
        }
    }
}

/// The pieces of two sequences with a separator between them are the pieces
/// of the first followed by the pieces of the second.
pub proof fn lemma_split_concat<T>(a: Seq<T>, sep: T, b: Seq<T>)
    ensures
        split_on(a + seq![sep] + b, sep) == split_on(a, sep) + split_on(b, sep),
    decreases a.len(),
{
    let whole = a + seq![sep] + b;
    lemma_first_index_of_bounds(a, sep);
    let k = first_index_of(a, sep);
    assert forall|j: int| 0 <= j < k implies #[trigger] whole[j] != sep by {
        assert(whole[j] == a[j]);
    }
    if k < a.len() {
        assert(whole[k] == a[k]);
        lemma_split_step(whole, sep, k);
        let rest = a.skip(k + 1);
        assert(whole.skip(k + 1) =~= rest + seq![sep] + b);
        assert(whole.take(k) =~= a.take(k));
        lemma_split_concat(rest, sep, b);
        assert(seq![a.take(k)] + (split_on(rest, sep) + split_on(b, sep)) =~= (seq![a.take(k)]
            + split_on(rest, sep)) + split_on(b, sep));
    } else {
        assert(whole[k] == sep);
        lemma_split_step(whole, sep, k);
        assert(whole.skip(k + 1) =~= b);
        assert(whole.take(k) =~= a);
    }
}

/// What is put after a sequence and holds no separator goes to the end of
/// the last piece.
pub proof fn lemma_split_append<T>(a: Seq<T>, sep: T, w: Seq<T>)
    requires
        forall|j: int| 0 <= j < w.len() ==> #[trigger] w[j] != sep,
    ensures
        split_on(a, sep).len() >= 1,
        split_on(a + w, sep) == split_on(a, sep).drop_last().push(split_on(a, sep).last() + w),
    decreases a.len(),
{
    let whole = a + w;
    lemma_first_index_of_bounds(a, sep);
    let k = first_index_of(a, sep);
    if k < a.len() {
        assert forall|j: int| 0 <= j < k implies #[trigger] whole[j] != sep by {
            assert(whole[j] == a[j]);
        }
        assert(whole[k] == a[k]);
        lemma_split_step(whole, sep, k);
        let rest = a.skip(k + 1);
        assert(whole.skip(k + 1) =~= rest + w);
        assert(whole.take(k) =~= a.take(k));
        lemma_split_append(rest, sep, w);
        let tail = split_on(rest, sep);
        assert((seq![a.take(k)] + tail).drop_last().push(tail.last() + w) =~= seq![a.take(k)] + (
        tail.drop_last().push(tail.last() + w)));
    } else {
        assert forall|j: int| 0 <= j < whole.len() implies #[trigger] whole[j] != sep by {
            if j < a.len() {
                assert(whole[j] == a[j]);
            } else {
                assert(whole[j] == w[j - a.len()]);
            }
        }
        lemma_split_last(whole, sep);
        assert(seq![a].drop_last().push(a + w) =~= seq![whole]);
    }
}

/// The pieces put together again, with a separator between each two.
pub open spec fn join_with<T>(pieces: Seq<Seq<T>>, sep: T) -> Seq<T>
    decreases pieces.len(),
{
    if pieces.len() == 0 {
        Seq::empty()
    } else if pieces.len() == 1 {
        pieces[0]
    } else {
        pieces[0] + seq![sep] + join_with(pieces.skip(1), sep)
    }
}

/// Splitting loses nothing: the pieces, put together again with the
/// separator between them, are the sequence that was split.
pub proof fn lemma_join_split<T>(s: Seq<T>, sep: T)
    ensures
        join_with(split_on(s, sep), sep) == s,
    decreases s.len(),
{
    lemma_first_index_of_bounds(s, sep);
    let k = first_index_of(s, sep);
    if k < s.len() {
        let rest = s.skip(k + 1);
        lemma_join_split(rest, sep);
        lemma_split_pieces(rest, sep);
        let pieces = split_on(s, sep);
        assert(pieces.skip(1) =~= split_on(rest, sep));
        assert(s =~= s.take(k) + seq![sep] + rest);
    }
}

} // verus!
