//! Joining pieces.
//!
//! The result of a conversion is a sequence of pieces, one for each
//! character of the input, joined in order. These are the facts about such
//! joins that the proofs of the library share.

use vstd::prelude::*;

verus! {

/// Joining the first `k + 1` pieces is joining the first `k` and appending
/// the piece at `k`.
pub proof fn lemma_flatten_take_next<A>(pieces: Seq<Seq<A>>, k: int)
    requires
        0 <= k < pieces.len(),
    ensures
        pieces.take(k + 1).flatten() == pieces.take(k).flatten() + pieces[k],
{
    assert(pieces.take(k + 1) == pieces.take(k).push(pieces[k]));
    pieces.take(k).lemma_flatten_push(pieces[k]);
}

/// Joining the pieces from `k` on is the piece at `k` followed by the join
/// of the pieces after it.
pub proof fn lemma_flatten_skip_next<A>(pieces: Seq<Seq<A>>, k: int)
    requires
        0 <= k < pieces.len(),
    ensures
        pieces.skip(k).flatten() == pieces[k] + pieces.skip(k + 1).flatten(),
{
    assert(pieces.skip(k).drop_first() == pieces.skip(k + 1));
}

/// Pieces of one character each join to the sequence of those characters.
pub proof fn lemma_flatten_units<A>(pieces: Seq<Seq<A>>, s: Seq<A>)
    requires
        pieces.len() == s.len(),
        forall|i: int| 0 <= i < s.len() ==> #[trigger] pieces[i] == seq![s[i]],
    ensures
        pieces.flatten() == s,
    decreases s.len(),
{
    if s.len() > 0 {
        lemma_flatten_units(pieces.drop_last(), s.drop_last());
        assert(pieces == pieces.drop_last().push(pieces.last()));
        pieces.drop_last().lemma_flatten_push(pieces.last());
    }
}

/// What holds of every character of every piece holds of every character
/// of the join.
pub proof fn lemma_flatten_all<A>(pieces: Seq<Seq<A>>, p: spec_fn(A) -> bool)
    requires
        forall|i: int, k: int|
            0 <= i < pieces.len() && 0 <= k < pieces[i].len() ==> p(#[trigger] pieces[i][k]),
    ensures
        forall|j: int| 0 <= j < pieces.flatten().len() ==> p(#[trigger] pieces.flatten()[j]),
    decreases pieces.len(),
{
    if pieces.len() > 0 {
        let front = pieces.drop_last();
        let last = pieces.last();
        lemma_flatten_all(front, p);
        assert(pieces == front.push(last));
        front.lemma_flatten_push(last);
    }
}

/// Pieces of one element or more join to at least as many elements as
/// there are pieces, and to exactly as many only where every piece has one.
pub proof fn lemma_flatten_of_nonempty<A>(pieces: Seq<Seq<A>>)
    requires
        forall|i: int| 0 <= i < pieces.len() ==> (#[trigger] pieces[i]).len() >= 1,
    ensures
        pieces.flatten().len() >= pieces.len(),
        pieces.flatten().len() == pieces.len() ==> forall|i: int|
            0 <= i < pieces.len() ==> (#[trigger] pieces[i]).len() == 1,
    decreases pieces.len(),
{
    if pieces.len() > 0 {
        let front = pieces.drop_last();
        lemma_flatten_of_nonempty(front);
        assert(pieces == front.push(pieces.last()));
        front.lemma_flatten_push(pieces.last());
    }
}

/// Pieces of one element at most join to at most as many elements as there
/// are pieces, and to exactly as many only where every piece has one.
pub proof fn lemma_flatten_of_short<A>(pieces: Seq<Seq<A>>)
    requires
        forall|i: int| 0 <= i < pieces.len() ==> (#[trigger] pieces[i]).len() <= 1,
    ensures
        pieces.flatten().len() <= pieces.len(),
        pieces.flatten().len() == pieces.len() ==> forall|i: int|
            0 <= i < pieces.len() ==> (#[trigger] pieces[i]).len() == 1,
    decreases pieces.len(),
{
    if pieces.len() > 0 {
        let front = pieces.drop_last();
        lemma_flatten_of_short(front);
        assert(pieces == front.push(pieces.last()));
        front.lemma_flatten_push(pieces.last());
    }
}

/// Pieces of one element each join to the sequence of their elements.
pub proof fn lemma_flatten_firsts<A>(pieces: Seq<Seq<A>>)
    requires
        forall|i: int| 0 <= i < pieces.len() ==> (#[trigger] pieces[i]).len() == 1,
    ensures
        pieces.flatten() == Seq::new(pieces.len(), |i: int| pieces[i][0]),
{
    let firsts = Seq::new(pieces.len(), |i: int| pieces[i][0]);
    assert forall|i: int| 0 <= i < pieces.len() implies #[trigger] pieces[i] == seq![
        firsts[i],
    ] by {}
    lemma_flatten_units(pieces, firsts);
}

} // verus!
