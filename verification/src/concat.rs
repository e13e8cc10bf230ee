//! How the stages of a conversion act on a sequence made of two parts.

use vstd::prelude::*;
use vstd::seq_lib::lemma_flatten_concat;
use crate::model::{
    break_pieces, camel_broken, camel_pending, camel_pieces, camel_scanned, capital_pieces,
    capitalized, lower_pieces, lowercased, scan_piece, separator, separators_swapped,
    upper_pieces, uppercased,
};
use crate::unicode::{is_lower, is_upper};

verus! {

/// Swapping separators goes part by part.
pub proof fn lemma_separators_swapped_concat(a: Seq<char>, b: Seq<char>, sep: char)
    ensures
        separators_swapped(a + b, sep) == separators_swapped(a, sep) + separators_swapped(b, sep),
{
}

/// Lowercasing goes part by part.
pub proof fn lemma_lowercased_concat(a: Seq<char>, b: Seq<char>)
    ensures
        lowercased(a + b) == lowercased(a) + lowercased(b),
{
    assert(lower_pieces(a + b) == lower_pieces(a) + lower_pieces(b));
    lemma_flatten_concat(lower_pieces(a), lower_pieces(b));
}

/// Uppercasing goes part by part.
pub proof fn lemma_uppercased_concat(a: Seq<char>, b: Seq<char>)
    ensures
        uppercased(a + b) == uppercased(a) + uppercased(b),
{
    assert(upper_pieces(a + b) == upper_pieces(a) + upper_pieces(b));
    lemma_flatten_concat(upper_pieces(a), upper_pieces(b));
}

/// What is inserted where the two parts meet: `sep` where the first part
/// ends in a lowercase character and the second starts with an uppercase one.
pub open spec fn bridge(a: Seq<char>, b: Seq<char>, sep: char) -> Seq<char> {
    if a.len() > 0 && b.len() > 0 && is_lower(a.last()) && is_upper(b[0]) {
        seq![sep]
    } else {
        Seq::empty()
    }
}

/// Breaking camel case goes part by part, with the bridge between the parts.
pub proof fn lemma_camel_broken_concat(a: Seq<char>, b: Seq<char>, sep: char)
    ensures
        camel_broken(a + b, sep) == camel_broken(a, sep) + bridge(a, b, sep) + camel_broken(
            b,
            sep,
        ),
{
    let whole = break_pieces(a + b, sep);
    let left = break_pieces(a, sep);
    let right = break_pieces(b, sep);
    if a.len() == 0 {
        assert(a + b == b);
    } else {
        // Only the piece of the last character of the first part changes: it
        // gains the bridge.
        let bridged = left.drop_last().push(left.last() + bridge(a, b, sep));
        assert forall|i: int| 0 <= i < whole.len() implies whole[i] == (bridged + right)[i] by {
            if i >= a.len() {
                assert((a + b)[i] == b[i - a.len()]);
            }
        }
        assert(whole == bridged + right);
        lemma_flatten_concat(bridged, right);
        left.drop_last().lemma_flatten_push(left.last() + bridge(a, b, sep));
        assert(left == left.drop_last().push(left.last()));
        left.drop_last().lemma_flatten_push(left.last());
    }
}

/// Capitalizing goes part by part where no word runs across the joint.
pub proof fn lemma_capitalized_concat(a: Seq<char>, b: Seq<char>)
    requires
        a.len() == 0 || b.len() == 0 || separator(a.last()) || separator(b[0]),
    ensures
        capitalized(a + b) == capitalized(a) + capitalized(b),
{
    assert(capital_pieces(a + b) == capital_pieces(a) + capital_pieces(b));
    lemma_flatten_concat(capital_pieces(a), capital_pieces(b));
}

/// The pieces that the camel scan makes of the characters, started with a
/// capital due or not and with a given character before the first.
pub open spec fn scan_pieces_from(s: Seq<char>, pending: bool, last: Option<char>) -> Seq<
    Seq<char>,
> {
    Seq::new(
        s.len(),
        |i: int|
            scan_piece(
                camel_pending(s, i, pending),
                if i == 0 {
                    last
                } else {
                    Some(s[i - 1])
                },
                s[i],
            ),
    )
}

/// What the camel scan makes of the characters, started with a capital due
/// or not and with a given character before the first.
pub open spec fn scanned_from(s: Seq<char>, pending: bool, last: Option<char>) -> Seq<char> {
    scan_pieces_from(s, pending, last).flatten()
}

/// The camel scan is the scan started with nothing before the first character.
pub proof fn lemma_camel_scanned_from_start(s: Seq<char>, first: bool)
    ensures
        camel_scanned(s, first) == scanned_from(s, first, None),
{
    assert(camel_pieces(s, first) == scan_pieces_from(s, first, None));
}

/// Whether a capital is due depends only on the characters before.
pub proof fn lemma_camel_pending_prefix(a: Seq<char>, b: Seq<char>, i: int, first: bool)
    requires
        0 <= i <= a.len(),
    ensures
        camel_pending(a + b, i, first) == camel_pending(a, i, first),
    decreases i,
{
    if i > 0 {
        lemma_camel_pending_prefix(a, b, i - 1, first);
    }
}

/// Whether a capital is due in the second part is what is due when the
/// scan starts there with what was due at the end of the first part.
pub proof fn lemma_camel_pending_suffix(a: Seq<char>, b: Seq<char>, j: int, first: bool)
    requires
        0 <= j <= b.len(),
    ensures
        camel_pending(a + b, a.len() + j, first) == camel_pending(
            b,
            j,
            camel_pending(a, a.len() as int, first),
        ),
    decreases j,
{
    if j > 0 {
        lemma_camel_pending_suffix(a, b, j - 1, first);
    } else {
        lemma_camel_pending_prefix(a, b, a.len() as int, first);
    }
}

/// The last character of the sequence, or `last` where it is empty.
pub open spec fn last_after(s: Seq<char>, last: Option<char>) -> Option<char> {
    if s.len() > 0 {
        Some(s.last())
    } else {
        last
    }
}

/// The camel scan goes part by part: the second part is scanned from the
/// state that the first part leaves.
pub proof fn lemma_scanned_from_concat(
    a: Seq<char>,
    b: Seq<char>,
    pending: bool,
    last: Option<char>,
)
    ensures
        scanned_from(a + b, pending, last) == scanned_from(a, pending, last) + scanned_from(
            b,
            camel_pending(a, a.len() as int, pending),
            last_after(a, last),
        ),
{
    let mid = camel_pending(a, a.len() as int, pending);
    let whole = scan_pieces_from(a + b, pending, last);
    let left = scan_pieces_from(a, pending, last);
    let right = scan_pieces_from(b, mid, last_after(a, last));
    assert forall|i: int| 0 <= i < whole.len() implies whole[i] == (left + right)[i] by {
        if i < a.len() {
            lemma_camel_pending_prefix(a, b, i, pending);
        } else {
            lemma_camel_pending_suffix(a, b, i - a.len(), pending);
        }
    }
    assert(whole == left + right);
    lemma_flatten_concat(left, right);
}

} // verus!
