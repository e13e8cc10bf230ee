//! Laws of the conversions.
//!
//! Converting twice is converting once: for the conversions that fold case
//! or part words by a separator, on every string whose characters have case
//! mappings that settle, which all ASCII characters do; for the camel scan,
//! where its result has the shape of the convention. Separators stand for
//! one another, and on ASCII strings the conventions that part words by a
//! separator differ in nothing but separator and case. Normalizing changes
//! nothing but separators, and a lowercase run directly followed by an
//! uppercase letter is parted from it by exactly one separator.

use vstd::prelude::*;
use crate::concat::{bridge, lemma_camel_broken_concat, lemma_separators_swapped_concat};
use crate::model::{
    before, break_pieces, camel_broken, camel_case, camel_pieces, camel_scanned,
    capital_pieces, capitalized, constant_case, kebab_case, lower_case, lower_pieces,
    lowercased, normalized, pascal_case, sentence_case, separator, separators_swapped,
    snake_case, swapped, title_case, train_case, upper_case, upper_pieces, uppercased,
    word_start,
};
use crate::pieces::{lemma_flatten_all, lemma_flatten_units};
use crate::shapes::{
    all_ascii, ascii_capitalized, ascii_lowercased, ascii_uppercased, camel_shaped, capital,
    capital_delimited, lemma_ascii_fixed_is_shaped, lemma_ascii_folded,
    lemma_camel_broken_fixed, lemma_camel_shaped_fixed, lemma_capital_delimited_fixed,
    lemma_lower_delimited_fixed, lemma_lowercased_fixed, lemma_normalized_ascii,
    lemma_pascal_shaped_fixed, lemma_upper_delimited_fixed, lemma_uppercased_fixed,
    lower_delimited, lower_fixed, pascal_shaped, upper_delimited, upper_fixed,
};
use crate::unicode::{
    ascii_lower, ascii_upper, is_ascii, is_lower, is_upper, lowercase_of, uppercase_of,
};

verus! {

/// The lowercase mapping of the character is made of characters that are
/// their own lowercase mappings.
pub open spec fn lowercase_settles(c: char) -> bool {
    forall|k: int| 0 <= k < lowercase_of(c).len() ==> lower_fixed(#[trigger] lowercase_of(c)[k])
}

/// The uppercase mapping of the character is made of characters that are
/// their own uppercase mappings.
pub open spec fn uppercase_settles(c: char) -> bool {
    forall|k: int| 0 <= k < uppercase_of(c).len() ==> upper_fixed(#[trigger] uppercase_of(c)[k])
}

/// The lowercase mapping of the character is made of characters that are
/// their own lowercase mappings and not uppercase, and it holds a separator
/// only where the character is one.
pub open spec fn lowers_cleanly(c: char) -> bool {
    forall|k: int|
        0 <= k < lowercase_of(c).len() ==> {
            let d = #[trigger] lowercase_of(c)[k];
            lower_fixed(d) && !is_upper(d) && (separator(d) ==> separator(c))
        }
}

/// The uppercase mapping of the character is made of characters that are
/// their own uppercase mappings and not lowercase, and it holds a separator
/// only where the character is one.
pub open spec fn uppers_cleanly(c: char) -> bool {
    forall|k: int|
        0 <= k < uppercase_of(c).len() ==> {
            let e = #[trigger] uppercase_of(c)[k];
            upper_fixed(e) && !is_lower(e) && (separator(e) ==> separator(c))
        }
}

/// The uppercase mapping of the character is a single character, no
/// separator, whose lowercase mapping is the character again.
pub open spec fn raisable(d: char) -> bool {
    &&& uppercase_of(d).len() == 1
    &&& !separator(uppercase_of(d)[0])
    &&& lowercase_of(uppercase_of(d)[0]) == seq![d]
}

/// The character lowers cleanly, and what its lowercase mapping holds
/// besides separators is raisable.
pub open spec fn capitalizes_cleanly(c: char) -> bool {
    &&& lowers_cleanly(c)
    &&& forall|k: int|
        0 <= k < lowercase_of(c).len() && !separator(#[trigger] lowercase_of(c)[k]) ==> raisable(
            lowercase_of(c)[k],
        )
}

/// The case mappings of an ASCII character settle in every sense above.
pub proof fn lemma_ascii_settles(c: char)
    requires
        is_ascii(c),
    ensures
        lowercase_settles(c),
        uppercase_settles(c),
        lowers_cleanly(c),
        uppers_cleanly(c),
        capitalizes_cleanly(c),
{
    // The one character of either mapping is an ASCII character again, and
    // of the case mapped to.
    assert(!ascii_upper(lowercase_of(c)[0]) && !ascii_lower(uppercase_of(c)[0]));
}

/// Lowercasing twice is lowercasing once, where the lowercase mapping of
/// every character settles.
pub proof fn lemma_lower_case_idempotent_if_settled(s: Seq<char>)
    requires
        forall|i: int| 0 <= i < s.len() ==> lowercase_settles(#[trigger] s[i]),
    ensures
        lower_case(lower_case(s)) == lower_case(s),
{
    let fixed = |d: char| lower_fixed(d);
    lemma_flatten_all(lower_pieces(s), fixed);
    lemma_lowercased_fixed(lowercased(s));
}

/// Uppercasing twice is uppercasing once, where the uppercase mapping of
/// every character settles.
pub proof fn lemma_upper_case_idempotent_if_settled(s: Seq<char>)
    requires
        forall|i: int| 0 <= i < s.len() ==> uppercase_settles(#[trigger] s[i]),
    ensures
        upper_case(upper_case(s)) == upper_case(s),
{
    let fixed = |e: char| upper_fixed(e);
    lemma_flatten_all(upper_pieces(s), fixed);
    lemma_uppercased_fixed(uppercased(s));
}

/// What holds of `sep` and of every character of the sequence that is no
/// separator holds of every character of the normalized sequence.
pub proof fn lemma_normalized_all(s: Seq<char>, sep: char, p: spec_fn(char) -> bool)
    requires
        p(sep),
        forall|i: int| 0 <= i < s.len() && !separator(#[trigger] s[i]) ==> p(s[i]),
    ensures
        forall|j: int| 0 <= j < normalized(s, sep).len() ==> p(#[trigger] normalized(s, sep)[j]),
{
    let w = separators_swapped(s, sep);
    let pieces = break_pieces(w, sep);
    lemma_flatten_all(pieces, p);
}

/// Normalizing with a separator and lowercasing yields lowercase words with
/// that separator between them, where every character lowers cleanly.
pub proof fn lemma_lowered_is_delimited(s: Seq<char>, sep: char)
    requires
        separator(sep),
        forall|i: int| 0 <= i < s.len() ==> lowers_cleanly(#[trigger] s[i]),
    ensures
        lower_delimited(lowercased(normalized(s, sep)), sep),
{
    // What holds of the characters carries over to the normalized sequence,
    // and from there to the lowercase mappings of its characters.
    let n = normalized(s, sep);
    let clean = |x: char| (separator(x) ==> x == sep) && lowers_cleanly(x);
    lemma_ascii_settles(sep);
    lemma_normalized_all(s, sep, clean);
    let lowered = |d: char| (separator(d) ==> d == sep) && lower_fixed(d) && !is_upper(d);
    lemma_flatten_all(lower_pieces(n), lowered);
}

/// Normalizing with a separator and uppercasing yields uppercase words with
/// that separator between them, where every character uppers cleanly.
pub proof fn lemma_uppered_is_delimited(s: Seq<char>, sep: char)
    requires
        separator(sep),
        forall|i: int| 0 <= i < s.len() ==> uppers_cleanly(#[trigger] s[i]),
    ensures
        upper_delimited(uppercased(normalized(s, sep)), sep),
{
    // What holds of the characters carries over to the normalized sequence,
    // and from there to the uppercase mappings of its characters.
    let n = normalized(s, sep);
    let clean = |x: char| (separator(x) ==> x == sep) && uppers_cleanly(x);
    lemma_ascii_settles(sep);
    lemma_normalized_all(s, sep, clean);
    let uppered = |e: char| (separator(e) ==> e == sep) && upper_fixed(e) && !is_lower(e);
    lemma_flatten_all(upper_pieces(n), uppered);
}

/// The sequence with the first character of every word replaced by the
/// first character of its uppercase mapping.
spec fn first_raised(s: Seq<char>) -> Seq<char> {
    Seq::new(
        s.len(),
        |i: int|
            if word_start(s, i) {
                uppercase_of(s[i])[0]
            } else {
                s[i]
            },
    )
}

/// Normalizing with a separator, lowercasing and capitalizing yields
/// capitalized words with that separator between them, where every
/// character capitalizes cleanly.
pub proof fn lemma_capitalized_is_delimited(s: Seq<char>, sep: char)
    requires
        separator(sep),
        forall|i: int| 0 <= i < s.len() ==> capitalizes_cleanly(#[trigger] s[i]),
    ensures
        capital_delimited(capitalized(lowercased(normalized(s, sep))), sep),
{
    let n = normalized(s, sep);
    let clean = |x: char| (separator(x) ==> x == sep) && capitalizes_cleanly(x);
    lemma_ascii_settles(sep);
    lemma_normalized_all(s, sep, clean);
    let lowered = |d: char|
        (separator(d) ==> d == sep) && lower_fixed(d) && !is_upper(d) && (!separator(d)
            ==> raisable(d));
    lemma_flatten_all(lower_pieces(n), lowered);
    // Capitalizing puts one character in place of the first of every word.
    let w = lowercased(n);
    let t = first_raised(w);
    assert forall|i: int| 0 <= i < w.len() implies #[trigger] capital_pieces(w)[i] == seq![
        t[i],
    ] by {}
    lemma_flatten_units(capital_pieces(w), t);
    assert forall|i: int| 0 <= i < t.len() implies if separator(#[trigger] t[i]) {
        t[i] == sep
    } else if word_start(t, i) {
        capital(t[i])
    } else {
        lower_fixed(t[i]) && !is_upper(t[i])
    } by {
        if word_start(w, i) {
            assert(uppercase_of(w[i]) == seq![t[i]]);
        }
    }
}

/// Converting to sentence case twice is converting once, where every
/// character lowers cleanly.
pub proof fn lemma_sentence_case_idempotent_if_clean(s: Seq<char>)
    requires
        forall|i: int| 0 <= i < s.len() ==> lowers_cleanly(#[trigger] s[i]),
    ensures
        sentence_case(sentence_case(s)) == sentence_case(s),
{
    lemma_lowered_is_delimited(s, ' ');
    lemma_lower_delimited_fixed(sentence_case(s), ' ');
}

/// Converting to kebab case twice is converting once, where every character
/// lowers cleanly.
pub proof fn lemma_kebab_case_idempotent_if_clean(s: Seq<char>)
    requires
        forall|i: int| 0 <= i < s.len() ==> lowers_cleanly(#[trigger] s[i]),
    ensures
        kebab_case(kebab_case(s)) == kebab_case(s),
{
    lemma_lowered_is_delimited(s, '-');
    lemma_lower_delimited_fixed(kebab_case(s), '-');
}

/// Converting to snake case twice is converting once, where every character
/// lowers cleanly.
pub proof fn lemma_snake_case_idempotent_if_clean(s: Seq<char>)
    requires
        forall|i: int| 0 <= i < s.len() ==> lowers_cleanly(#[trigger] s[i]),
    ensures
        snake_case(snake_case(s)) == snake_case(s),
{
    lemma_lowered_is_delimited(s, '_');
    lemma_lower_delimited_fixed(snake_case(s), '_');
}

/// Converting to constant case twice is converting once, where every
/// character uppers cleanly.
pub proof fn lemma_constant_case_idempotent_if_clean(s: Seq<char>)
    requires
        forall|i: int| 0 <= i < s.len() ==> uppers_cleanly(#[trigger] s[i]),
    ensures
        constant_case(constant_case(s)) == constant_case(s),
{
    lemma_uppered_is_delimited(s, '_');
    lemma_upper_delimited_fixed(constant_case(s), '_');
}

/// Converting to title case twice is converting once, where every character
/// capitalizes cleanly.
pub proof fn lemma_title_case_idempotent_if_clean(s: Seq<char>)
    requires
        forall|i: int| 0 <= i < s.len() ==> capitalizes_cleanly(#[trigger] s[i]),
    ensures
        title_case(title_case(s)) == title_case(s),
{
    lemma_capitalized_is_delimited(s, ' ');
    lemma_capital_delimited_fixed(title_case(s), ' ');
}

/// Converting to train case twice is converting once, where every character
/// capitalizes cleanly.
pub proof fn lemma_train_case_idempotent_if_clean(s: Seq<char>)
    requires
        forall|i: int| 0 <= i < s.len() ==> capitalizes_cleanly(#[trigger] s[i]),
    ensures
        train_case(train_case(s)) == train_case(s),
{
    lemma_capitalized_is_delimited(s, '-');
    lemma_capital_delimited_fixed(train_case(s), '-');
}

/// On an ASCII string, converting twice is converting once, in each
/// convention that folds case or parts words by a separator.
pub proof fn lemma_idempotent_on_ascii(s: Seq<char>)
    requires
        all_ascii(s),
    ensures
        lower_case(lower_case(s)) == lower_case(s),
        upper_case(upper_case(s)) == upper_case(s),
        sentence_case(sentence_case(s)) == sentence_case(s),
        title_case(title_case(s)) == title_case(s),
        kebab_case(kebab_case(s)) == kebab_case(s),
        train_case(train_case(s)) == train_case(s),
        snake_case(snake_case(s)) == snake_case(s),
        constant_case(constant_case(s)) == constant_case(s),
{
    assert forall|i: int| 0 <= i < s.len() implies {
        &&& lowercase_settles(#[trigger] s[i])
        &&& uppercase_settles(s[i])
        &&& lowers_cleanly(s[i])
        &&& uppers_cleanly(s[i])
        &&& capitalizes_cleanly(s[i])
    } by {
        lemma_ascii_settles(s[i]);
    }
    lemma_lower_case_idempotent_if_settled(s);
    lemma_upper_case_idempotent_if_settled(s);
    lemma_sentence_case_idempotent_if_clean(s);
    lemma_title_case_idempotent_if_clean(s);
    lemma_kebab_case_idempotent_if_clean(s);
    lemma_train_case_idempotent_if_clean(s);
    lemma_snake_case_idempotent_if_clean(s);
    lemma_constant_case_idempotent_if_clean(s);
}

/// Converting to camel case twice is converting once, where the first
/// conversion yields a string in camel shape.
pub proof fn lemma_camel_case_idempotent_if_shaped(s: Seq<char>)
    requires
        camel_shaped(camel_case(s)),
    ensures
        camel_case(camel_case(s)) == camel_case(s),
{
    lemma_camel_shaped_fixed(camel_case(s));
}

/// Converting to Pascal case twice is converting once, where the first
/// conversion yields a string in Pascal shape.
pub proof fn lemma_pascal_case_idempotent_if_shaped(s: Seq<char>)
    requires
        pascal_shaped(pascal_case(s)),
    ensures
        pascal_case(pascal_case(s)) == pascal_case(s),
{
    lemma_pascal_shaped_fixed(pascal_case(s));
}

/// The camel scan of an ASCII string is an ASCII string.
pub proof fn lemma_camel_scanned_ascii(s: Seq<char>, first: bool)
    requires
        all_ascii(s),
    ensures
        all_ascii(camel_scanned(s, first)),
{
    let pieces = camel_pieces(s, first);
    let ascii = |c: char| is_ascii(c);
    lemma_flatten_all(pieces, ascii);
}

/// On an ASCII string, converting to camel case twice is converting once
/// exactly where the first conversion yields a string in camel shape, and
/// likewise for Pascal case.
pub proof fn lemma_camel_case_idempotent_on_ascii(s: Seq<char>)
    requires
        all_ascii(s),
    ensures
        (camel_case(camel_case(s)) == camel_case(s)) == camel_shaped(camel_case(s)),
        (pascal_case(pascal_case(s)) == pascal_case(s)) == pascal_shaped(pascal_case(s)),
{
    lemma_camel_scanned_ascii(s, false);
    lemma_camel_scanned_ascii(s, true);
    lemma_ascii_fixed_is_shaped(camel_case(s));
    lemma_ascii_fixed_is_shaped(pascal_case(s));
}

/// The two sequences are alike but for which separator stands where.
pub open spec fn alike_but_for_separators(a: Seq<char>, b: Seq<char>) -> bool {
    &&& a.len() == b.len()
    &&& forall|i: int|
        0 <= i < a.len() ==> #[trigger] a[i] == #[trigger] b[i] || (separator(a[i]) && separator(
            b[i],
        ))
}

/// Separators stand for one another: two strings that are alike but for
/// which separator stands where convert to the same string, in each of the
/// conventions that part words by a separator.
pub proof fn lemma_separators_fungible(a: Seq<char>, b: Seq<char>)
    requires
        alike_but_for_separators(a, b),
    ensures
        snake_case(a) == snake_case(b),
        constant_case(a) == constant_case(b),
        kebab_case(a) == kebab_case(b),
        train_case(a) == train_case(b),
        sentence_case(a) == sentence_case(b),
        title_case(a) == title_case(b),
{
    assert(separators_swapped(a, '_') == separators_swapped(b, '_'));
    assert(separators_swapped(a, '-') == separators_swapped(b, '-'));
    assert(separators_swapped(a, ' ') == separators_swapped(b, ' '));
}

/// Swapping separators and breaking camel case may change places: the
/// breaks fall where they fell, since a separator has no case.
pub proof fn lemma_swapped_then_broken(s: Seq<char>, from: char, to: char)
    requires
        separator(from),
        separator(to),
    ensures
        separators_swapped(camel_broken(s, from), to) == camel_broken(
            separators_swapped(s, to),
            to,
        ),
    decreases s.len(),
{
    if s.len() > 0 {
        let front = s.drop_last();
        let last = seq![s.last()];
        assert(s == front + last);
        lemma_swapped_then_broken(front, from, to);
        lemma_camel_broken_concat(front, last, from);
        lemma_camel_broken_fixed(last, from);
        let gap = bridge(front, last, from);
        lemma_separators_swapped_concat(camel_broken(front, from) + gap, last, to);
        lemma_separators_swapped_concat(camel_broken(front, from), gap, to);
        let swapped_front = separators_swapped(front, to);
        let swapped_last = separators_swapped(last, to);
        lemma_separators_swapped_concat(front, last, to);
        lemma_camel_broken_concat(swapped_front, swapped_last, to);
        lemma_camel_broken_fixed(swapped_last, to);
        assert(separators_swapped(gap, to) == bridge(swapped_front, swapped_last, to));
    } else {
        assert(separators_swapped(s, to) == Seq::<char>::empty());
    }
}

/// Normalizing with one separator is normalizing with another and swapping
/// the separators.
pub proof fn lemma_normalized_swapped(s: Seq<char>, from: char, to: char)
    requires
        separator(from),
        separator(to),
    ensures
        normalized(s, to) == separators_swapped(normalized(s, from), to),
{
    lemma_swapped_then_broken(separators_swapped(s, from), from, to);
    assert(separators_swapped(separators_swapped(s, from), to) == separators_swapped(s, to));
}

/// On an ASCII string, lowercasing and swapping separators may change
/// places, and so may capitalizing lowercase words and swapping separators;
/// and uppercasing undoes lowercasing.
pub proof fn lemma_ascii_folding_and_swapping(s: Seq<char>, sep: char)
    requires
        all_ascii(s),
        separator(sep),
    ensures
        lowercased(separators_swapped(s, sep)) == separators_swapped(lowercased(s), sep),
        capitalized(lowercased(separators_swapped(s, sep))) == separators_swapped(
            capitalized(lowercased(s)),
            sep,
        ),
        uppercased(lowercased(s)) == uppercased(s),
{
    let lowered = ascii_lowercased(s);
    let swapped_lowered = separators_swapped(lowered, sep);
    lemma_ascii_folded(s);
    lemma_ascii_folded(separators_swapped(s, sep));
    assert(ascii_lowercased(separators_swapped(s, sep)) == swapped_lowered);
    lemma_ascii_folded(lowered);
    lemma_ascii_folded(swapped_lowered);
    assert(ascii_uppercased(lowered) == ascii_uppercased(s));
    assert forall|i: int| 0 <= i < s.len() implies #[trigger] ascii_capitalized(
        swapped_lowered,
    )[i] == separators_swapped(ascii_capitalized(lowered), sep)[i] by {
        assert(word_start(swapped_lowered, i) == word_start(lowered, i));
    }
    assert(ascii_capitalized(swapped_lowered) == separators_swapped(
        ascii_capitalized(lowered),
        sep,
    ));
}

/// On an ASCII string, the conventions that part words by a separator
/// differ in nothing but the separator and the case: kebab case and
/// sentence case are snake case with other separators, Train-Case is Title
/// Case with hyphens, and constant case is snake case in uppercase.
pub proof fn lemma_conventions_differ_in_separator_and_case(s: Seq<char>)
    requires
        all_ascii(s),
    ensures
        kebab_case(s) == separators_swapped(snake_case(s), '-'),
        sentence_case(s) == separators_swapped(snake_case(s), ' '),
        train_case(s) == separators_swapped(title_case(s), '-'),
        constant_case(s) == uppercased(snake_case(s)),
{
    let scored = normalized(s, '_');
    let spaced = normalized(s, ' ');
    lemma_normalized_swapped(s, '_', '-');
    lemma_normalized_swapped(s, '_', ' ');
    lemma_normalized_swapped(s, ' ', '-');
    lemma_normalized_ascii(s, '_');
    lemma_normalized_ascii(s, ' ');
    lemma_ascii_folding_and_swapping(scored, '-');
    lemma_ascii_folding_and_swapping(scored, ' ');
    lemma_ascii_folding_and_swapping(spaced, '-');
}

/// The characters of the sequence that are no separators, in order.
pub open spec fn without_separators(s: Seq<char>) -> Seq<char> {
    s.filter(|c: char| !separator(c))
}

/// Normalizing with a separator changes nothing but separators: the
/// characters that are no separators stay as they are and in their order,
/// and every separator of the result is the one chosen.
pub proof fn lemma_normalized_keeps_characters(s: Seq<char>, sep: char)
    requires
        separator(sep),
    ensures
        without_separators(normalized(s, sep)) == without_separators(s),
        forall|j: int|
            0 <= j < normalized(s, sep).len() && separator(#[trigger] normalized(s, sep)[j])
                ==> normalized(s, sep)[j] == sep,
    decreases s.len(),
{
    let keep = |c: char| !separator(c);
    reveal_with_fuel(Seq::filter, 2);
    if s.len() > 0 {
        let before = separators_swapped(s.drop_last(), sep);
        let last = seq![swapped(s.last(), sep)];
        let gap = bridge(before, last, sep);
        lemma_normalized_keeps_characters(s.drop_last(), sep);
        assert(separators_swapped(s, sep) == before + last);
        lemma_camel_broken_concat(before, last, sep);
        lemma_camel_broken_fixed(last, sep);
        Seq::filter_distributes_over_add(camel_broken(before, sep) + gap, last, keep);
        Seq::filter_distributes_over_add(camel_broken(before, sep), gap, keep);
        assert(gap.filter(keep) == Seq::<char>::empty());
        Seq::filter_distributes_over_add(s.drop_last(), seq![s.last()], keep);
    }
}

/// Breaking camel case puts nothing before the first character and nothing
/// after the last.
pub proof fn lemma_camel_broken_ends(s: Seq<char>, sep: char)
    requires
        s.len() > 0,
    ensures
        camel_broken(s, sep).len() > 0,
        camel_broken(s, sep).first() == s.first(),
        camel_broken(s, sep).last() == s.last(),
{
    let pieces = break_pieces(s, sep);
    assert(pieces == pieces.drop_last().push(pieces.last()));
    pieces.drop_last().lemma_flatten_push(pieces.last());
}

/// Every character is one of `a` to `z`.
pub open spec fn lowercase_run(s: Seq<char>) -> bool {
    forall|i: int| 0 <= i < s.len() ==> ascii_lower(#[trigger] s[i])
}

/// A run of letters `a` to `z` that ends in `a`, directly followed by the
/// letter `b` of `A` to `Z` and another run of letters `a` to `z`, is parted
/// from it by exactly one separator, and nothing else is inserted.
pub proof fn lemma_one_break_between_runs(p: Seq<char>, a: char, b: char, q: Seq<char>, sep: char)
    requires
        lowercase_run(p),
        ascii_lower(a),
        ascii_upper(b),
        lowercase_run(q),
    ensures
        camel_broken(p + seq![a] + seq![b] + q, sep) == p + seq![a] + seq![sep] + seq![b] + q,
        normalized(p + seq![a] + seq![b] + q, sep) == p + seq![a] + seq![sep] + seq![b] + q,
{
    let x = p + seq![a];
    let y = seq![b] + q;
    let s = p + seq![a] + seq![b] + q;
    assert(s == x + y);
    assert(separators_swapped(s, sep) == s);
    lemma_camel_broken_concat(x, y, sep);
    lemma_camel_broken_fixed(x, sep);
    lemma_camel_broken_fixed(y, sep);
}

} // verus!
