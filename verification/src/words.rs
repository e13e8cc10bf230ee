//! One sequence of words, spelled in any convention, converts to the same
//! string.
//!
//! A word is a run of letters `a` to `z`. A spelling writes each word in
//! lowercase, in uppercase or capitalized, and puts a separator between
//! words or runs them together. Where the spelling keeps the words apart,
//! every conversion recovers them and spells them in its own convention.

use vstd::prelude::*;
use crate::concat::{
    last_after, lemma_camel_broken_concat, lemma_camel_pending_suffix,
    lemma_camel_scanned_from_start, lemma_capitalized_concat, lemma_lowercased_concat,
    lemma_scanned_from_concat, lemma_separators_swapped_concat, lemma_uppercased_concat,
    scan_pieces_from, scanned_from,
};
use crate::model::{
    camel_broken, camel_case, camel_pending, capital_pieces, capitalized, constant_case,
    kebab_case, lower_case, lower_pieces, lowercased, normalized, pascal_case, sentence_case,
    separator, separators_swapped, snake_case, title_case, train_case, upper_case,
    upper_pieces, uppercased,
};
use crate::pieces::lemma_flatten_units;
use crate::shapes::{lemma_camel_broken_fixed, lemma_camel_pending_without_separators};
use crate::unicode::{ascii_lower, ascii_uppercase, is_lower, is_upper, lowercase_of, uppercase_of};

verus! {

/// How the letters of one word are written.
pub enum Casing {
    /// All in lowercase.
    Lower,
    /// All in uppercase.
    Upper,
    /// The first in uppercase, the others in lowercase.
    Capitalized,
}

/// How a sequence of words is written.
pub struct Spelling {
    /// What stands between two words, if anything.
    pub sep: Option<char>,
    /// How the first word is written.
    pub first: Casing,
    /// How every other word is written.
    pub rest: Casing,
}

/// A word: one or more letters `a` to `z`.
pub open spec fn is_word(w: Seq<char>) -> bool {
    w.len() > 0 && forall|i: int| 0 <= i < w.len() ==> ascii_lower(#[trigger] w[i])
}

/// The word written in the given casing.
pub open spec fn cased(w: Seq<char>, casing: Casing) -> Seq<char> {
    Seq::new(
        w.len(),
        |i: int|
            match casing {
                Casing::Lower => w[i],
                Casing::Upper => ascii_uppercase(w[i]),
                Casing::Capitalized => if i == 0 {
                    ascii_uppercase(w[i])
                } else {
                    w[i]
                },
            },
    )
}

/// How the word at position `k` is written.
pub open spec fn casing_at(spelling: Spelling, k: int) -> Casing {
    if k == 0 {
        spelling.first
    } else {
        spelling.rest
    }
}

/// What stands before the word at position `k`.
pub open spec fn joint(spelling: Spelling, k: int) -> Seq<char> {
    match spelling.sep {
        Some(c) if k > 0 => seq![c],
        _ => Seq::empty(),
    }
}

/// The words written out in the given spelling.
pub open spec fn spelled(words: Seq<Seq<char>>, spelling: Spelling) -> Seq<char>
    decreases words.len(),
{
    if words.len() == 0 {
        Seq::empty()
    } else {
        let k = words.len() - 1;
        spelled(words.drop_last(), spelling) + joint(spelling, k) + cased(
            words[k],
            casing_at(spelling, k),
        )
    }
}

/// The word ends in a lowercase letter when written in the given casing.
pub open spec fn ends_lower(w: Seq<char>, casing: Casing) -> bool {
    casing == Casing::Lower || (casing == Casing::Capitalized && w.len() >= 2)
}

/// The spelling keeps the words apart: it puts a separator between them,
/// or it capitalizes every word after the first and every word that another
/// follows ends in a lowercase letter.
pub open spec fn keeps_apart(spelling: Spelling, words: Seq<Seq<char>>) -> bool {
    match spelling.sep {
        Some(c) => separator(c),
        None => words.len() >= 2 ==> {
            &&& spelling.rest == Casing::Capitalized
            &&& forall|k: int|
                0 <= k < words.len() - 1 ==> ends_lower(#[trigger] words[k], casing_at(spelling, k))
        },
    }
}

pub open spec fn sentence() -> Spelling {
    Spelling { sep: Some(' '), first: Casing::Lower, rest: Casing::Lower }
}

pub open spec fn title() -> Spelling {
    Spelling { sep: Some(' '), first: Casing::Capitalized, rest: Casing::Capitalized }
}

pub open spec fn camel() -> Spelling {
    Spelling { sep: None, first: Casing::Lower, rest: Casing::Capitalized }
}

pub open spec fn pascal() -> Spelling {
    Spelling { sep: None, first: Casing::Capitalized, rest: Casing::Capitalized }
}

pub open spec fn kebab() -> Spelling {
    Spelling { sep: Some('-'), first: Casing::Lower, rest: Casing::Lower }
}

pub open spec fn train() -> Spelling {
    Spelling { sep: Some('-'), first: Casing::Capitalized, rest: Casing::Capitalized }
}

pub open spec fn snake() -> Spelling {
    Spelling { sep: Some('_'), first: Casing::Lower, rest: Casing::Lower }
}

pub open spec fn constant() -> Spelling {
    Spelling { sep: Some('_'), first: Casing::Upper, rest: Casing::Upper }
}

/// The spelling with another separator, or none, between the words.
pub open spec fn with_sep(spelling: Spelling, sep: Option<char>) -> Spelling {
    Spelling { sep, first: spelling.first, rest: spelling.rest }
}

/// The spelling with every word in the given casing.
pub open spec fn with_casing(spelling: Spelling, casing: Casing) -> Spelling {
    Spelling { sep: spelling.sep, first: casing, rest: casing }
}

/// A word in any casing is made of letters: it holds no separator, its
/// lowercase letters are those written in lowercase and the others are
/// uppercase.
proof fn lemma_cased_letters(w: Seq<char>, casing: Casing)
    requires
        is_word(w),
    ensures
        cased(w, casing).len() == w.len(),
        forall|i: int|
            0 <= i < w.len() ==> {
                let c = #[trigger] cased(w, casing)[i];
                &&& !separator(c)
                &&& is_lower(c) != is_upper(c)
                &&& is_lower(c) == (c == w[i])
                &&& lowercase_of(c) == seq![w[i]]
                &&& uppercase_of(c) == seq![ascii_uppercase(w[i])]
            },
{
}

/// Swapping separators leaves a word as it is.
proof fn lemma_cased_swapped(w: Seq<char>, casing: Casing, sep: char)
    requires
        is_word(w),
    ensures
        separators_swapped(cased(w, casing), sep) == cased(w, casing),
{
}

/// Nothing is inserted into a word.
proof fn lemma_cased_unbroken(w: Seq<char>, casing: Casing, sep: char)
    requires
        is_word(w),
    ensures
        camel_broken(cased(w, casing), sep) == cased(w, casing),
{
    lemma_cased_letters(w, casing);
    lemma_camel_broken_fixed(cased(w, casing), sep);
}

/// Lowercasing a word in any casing yields the word in lowercase.
proof fn lemma_cased_lowercased(w: Seq<char>, casing: Casing)
    requires
        is_word(w),
    ensures
        lowercased(cased(w, casing)) == cased(w, Casing::Lower),
{
    lemma_flatten_units(lower_pieces(cased(w, casing)), cased(w, Casing::Lower));
}

/// Uppercasing a word in any casing yields the word in uppercase.
proof fn lemma_cased_uppercased(w: Seq<char>, casing: Casing)
    requires
        is_word(w),
    ensures
        uppercased(cased(w, casing)) == cased(w, Casing::Upper),
{
    lemma_flatten_units(upper_pieces(cased(w, casing)), cased(w, Casing::Upper));
}

/// Capitalizing a word in lowercase yields the capitalized word.
proof fn lemma_cased_capitalized(w: Seq<char>)
    requires
        is_word(w),
    ensures
        capitalized(cased(w, Casing::Lower)) == cased(w, Casing::Capitalized),
{
    lemma_flatten_units(capital_pieces(cased(w, Casing::Lower)), cased(w, Casing::Capitalized));
}

/// The character, if any, is lowercase.
spec fn lower_before(last: Option<char>) -> bool {
    last matches Some(l) && is_lower(l)
}

/// The camel scan of a word: capitalized where a capital is due, or where
/// the word follows a lowercase character and starts with a capital itself;
/// in lowercase where it follows no lowercase character. No capital is due
/// after it.
proof fn lemma_cased_scanned(w: Seq<char>, casing: Casing, pending: bool, last: Option<char>)
    requires
        is_word(w),
    ensures
        pending ==> scanned_from(cased(w, casing), pending, last) == cased(
            w,
            Casing::Capitalized,
        ),
        !pending && lower_before(last) && casing != Casing::Lower ==> scanned_from(
            cased(w, casing),
            pending,
            last,
        ) == cased(w, Casing::Capitalized),
        !pending && !lower_before(last) ==> scanned_from(cased(w, casing), pending, last) == cased(
            w,
            Casing::Lower,
        ),
        !camel_pending(cased(w, casing), w.len() as int, pending),
{
    let c = cased(w, casing);
    let pieces = scan_pieces_from(c, pending, last);
    lemma_cased_letters(w, casing);
    assert forall|i: int| 0 <= i <= c.len() implies camel_pending(c, i, pending) == (pending && i
        == 0) by {
        lemma_camel_pending_without_separators(c, i, pending);
    }
    if pending || (lower_before(last) && casing != Casing::Lower) {
        lemma_flatten_units(pieces, cased(w, Casing::Capitalized));
    } else if !lower_before(last) {
        lemma_flatten_units(pieces, cased(w, Casing::Lower));
    }
}

/// The spelling of one or more words ends with the last letter of the last
/// word.
proof fn lemma_spelled_last(words: Seq<Seq<char>>, spelling: Spelling)
    requires
        words.len() > 0,
        forall|k: int| 0 <= k < words.len() ==> is_word(#[trigger] words[k]),
    ensures
        spelled(words, spelling).len() > 0,
        spelled(words, spelling).last() == cased(
            words.last(),
            casing_at(spelling, words.len() - 1),
        ).last(),
{
}

/// Swapping separators in a spelling yields the spelling with the other
/// separator.
proof fn lemma_spelled_swapped(words: Seq<Seq<char>>, spelling: Spelling, sep: char)
    requires
        forall|k: int| 0 <= k < words.len() ==> is_word(#[trigger] words[k]),
        spelling.sep matches Some(c) ==> separator(c),
    ensures
        separators_swapped(spelled(words, spelling), sep) == spelled(
            words,
            with_sep(
                spelling,
                if spelling.sep is Some {
                    Some(sep)
                } else {
                    None
                },
            ),
        ),
    decreases words.len(),
{
    if words.len() > 0 {
        let k = words.len() - 1;
        let front = spelled(words.drop_last(), spelling);
        lemma_spelled_swapped(words.drop_last(), spelling, sep);
        lemma_separators_swapped_concat(front, joint(spelling, k), sep);
        lemma_cased_swapped(words[k], casing_at(spelling, k), sep);
    }
}

/// Nothing is inserted into a spelling with separators.
proof fn lemma_spelled_unbroken(words: Seq<Seq<char>>, spelling: Spelling, sep: char)
    requires
        forall|k: int| 0 <= k < words.len() ==> is_word(#[trigger] words[k]),
        separator(sep),
        spelling.sep == Some(sep),
    ensures
        camel_broken(spelled(words, spelling), sep) == spelled(words, spelling),
    decreases words.len(),
{
    if words.len() > 0 {
        let k = words.len() - 1;
        let front = spelled(words.drop_last(), spelling);
        let j = joint(spelling, k);
        let w = cased(words[k], casing_at(spelling, k));
        lemma_spelled_unbroken(words.drop_last(), spelling, sep);
        lemma_camel_broken_concat(front + j, w, sep);
        lemma_camel_broken_concat(front, j, sep);
        lemma_cased_unbroken(words[k], casing_at(spelling, k), sep);
        lemma_camel_broken_fixed(j, sep);
    }
}

/// Breaking camel case in a spelling without separators that keeps the
/// words apart yields the spelling with the separator.
proof fn lemma_spelled_broken(words: Seq<Seq<char>>, spelling: Spelling, sep: char)
    requires
        forall|k: int| 0 <= k < words.len() ==> is_word(#[trigger] words[k]),
        spelling.sep is None,
        keeps_apart(spelling, words),
    ensures
        camel_broken(spelled(words, spelling), sep) == spelled(
            words,
            with_sep(spelling, Some(sep)),
        ),
    decreases words.len(),
{
    if words.len() > 0 {
        let k = words.len() - 1;
        let front = spelled(words.drop_last(), spelling);
        let w = cased(words[k], casing_at(spelling, k));
        lemma_spelled_broken(words.drop_last(), spelling, sep);
        lemma_camel_broken_concat(front, w, sep);
        lemma_cased_unbroken(words[k], casing_at(spelling, k), sep);
        if k > 0 {
            // The word before ends in a lowercase letter, and this one
            // starts with a capital.
            let v = words[k - 1];
            lemma_spelled_last(words.drop_last(), spelling);
            lemma_cased_letters(v, casing_at(spelling, k - 1));
            assert(is_lower(cased(v, casing_at(spelling, k - 1))[v.len() - 1]));
        }
    }
}

/// Lowercasing a spelling yields the spelling with every word in lowercase.
proof fn lemma_spelled_lowercased(words: Seq<Seq<char>>, spelling: Spelling)
    requires
        forall|k: int| 0 <= k < words.len() ==> is_word(#[trigger] words[k]),
        spelling.sep matches Some(c) ==> separator(c),
    ensures
        lowercased(spelled(words, spelling)) == spelled(
            words,
            with_casing(spelling, Casing::Lower),
        ),
    decreases words.len(),
{
    if words.len() > 0 {
        let k = words.len() - 1;
        let front = spelled(words.drop_last(), spelling);
        let j = joint(spelling, k);
        let w = cased(words[k], casing_at(spelling, k));
        lemma_spelled_lowercased(words.drop_last(), spelling);
        lemma_lowercased_concat(front + j, w);
        lemma_lowercased_concat(front, j);
        lemma_cased_lowercased(words[k], casing_at(spelling, k));
        lemma_flatten_units(lower_pieces(j), j);
    }
}

/// Uppercasing a spelling yields the spelling with every word in uppercase.
proof fn lemma_spelled_uppercased(words: Seq<Seq<char>>, spelling: Spelling)
    requires
        forall|k: int| 0 <= k < words.len() ==> is_word(#[trigger] words[k]),
        spelling.sep matches Some(c) ==> separator(c),
    ensures
        uppercased(spelled(words, spelling)) == spelled(
            words,
            with_casing(spelling, Casing::Upper),
        ),
    decreases words.len(),
{
    if words.len() > 0 {
        let k = words.len() - 1;
        let front = spelled(words.drop_last(), spelling);
        let j = joint(spelling, k);
        let w = cased(words[k], casing_at(spelling, k));
        lemma_spelled_uppercased(words.drop_last(), spelling);
        lemma_uppercased_concat(front + j, w);
        lemma_uppercased_concat(front, j);
        lemma_cased_uppercased(words[k], casing_at(spelling, k));
        lemma_flatten_units(upper_pieces(j), j);
    }
}

/// Capitalizing a spelling in lowercase with separators yields the
/// spelling with every word capitalized.
proof fn lemma_spelled_capitalized(words: Seq<Seq<char>>, spelling: Spelling)
    requires
        forall|k: int| 0 <= k < words.len() ==> is_word(#[trigger] words[k]),
        spelling.sep matches Some(c) && separator(c),
        spelling.first == Casing::Lower,
        spelling.rest == Casing::Lower,
    ensures
        capitalized(spelled(words, spelling)) == spelled(
            words,
            with_casing(spelling, Casing::Capitalized),
        ),
    decreases words.len(),
{
    if words.len() > 0 {
        let k = words.len() - 1;
        let front = spelled(words.drop_last(), spelling);
        let j = joint(spelling, k);
        let w = cased(words[k], Casing::Lower);
        lemma_spelled_capitalized(words.drop_last(), spelling);
        lemma_capitalized_concat(front + j, w);
        lemma_capitalized_concat(front, j);
        lemma_cased_capitalized(words[k]);
        lemma_flatten_units(capital_pieces(j), j);
    }
}

/// The spelling in which the camel scan writes words: run together, every
/// word capitalized but the first, and the first too where a capital is due
/// at the start.
spec fn scan_spelling(first: bool) -> Spelling {
    Spelling {
        sep: None,
        first: if first {
            Casing::Capitalized
        } else {
            Casing::Lower
        },
        rest: Casing::Capitalized,
    }
}

/// The camel scan of a spelling that keeps the words apart yields the words
/// run together and capitalized, and leaves no capital due.
proof fn lemma_spelled_scanned(words: Seq<Seq<char>>, spelling: Spelling, first: bool)
    requires
        forall|k: int| 0 <= k < words.len() ==> is_word(#[trigger] words[k]),
        keeps_apart(spelling, words),
    ensures
        scanned_from(spelled(words, spelling), first, None) == spelled(
            words,
            scan_spelling(first),
        ),
        words.len() > 0 ==> !camel_pending(
            spelled(words, spelling),
            spelled(words, spelling).len() as int,
            first,
        ),
    decreases words.len(),
{
    if words.len() > 0 {
        let k = words.len() - 1;
        let earlier = words.drop_last();
        let front = spelled(earlier, spelling);
        let j = joint(spelling, k);
        let w = cased(words[k], casing_at(spelling, k));
        lemma_spelled_scanned(earlier, spelling, first);
        let due = camel_pending(front + j, (front + j).len() as int, first);
        let last = last_after(front + j, None);
        lemma_scanned_from_concat(front + j, w, first, None);
        lemma_cased_scanned(words[k], casing_at(spelling, k), due, last);
        lemma_camel_pending_suffix(front + j, w, w.len() as int, first);
        if k == 0 {
            assert(scanned_from(Seq::<char>::empty(), first, None) == Seq::<char>::empty());
        } else {
            let mid = camel_pending(front, front.len() as int, first);
            lemma_scanned_from_concat(front, j, first, None);
            lemma_camel_pending_suffix(front, j, j.len() as int, first);
            match spelling.sep {
                Some(c) => {
                    // The separator vanishes and leaves a capital due.
                    let piece = scan_pieces_from(j, mid, last_after(front, None));
                    assert(piece[0] == Seq::<char>::empty());
                    piece.lemma_flatten_one_element();
                },
                None => {
                    // The word before ends in a lowercase letter, and this
                    // one starts with a capital.
                    assert(front + j == front);
                    let v = words[k - 1];
                    lemma_spelled_last(earlier, spelling);
                    lemma_cased_letters(v, casing_at(spelling, k - 1));
                    assert(is_lower(cased(v, casing_at(spelling, k - 1))[v.len() - 1]));
                },
            }
        }
    }
}

/// Normalizing a spelling that keeps the words apart yields the spelling
/// with the separator between the words.
pub proof fn lemma_spelled_normalized(words: Seq<Seq<char>>, spelling: Spelling, sep: char)
    requires
        forall|k: int| 0 <= k < words.len() ==> is_word(#[trigger] words[k]),
        keeps_apart(spelling, words),
        separator(sep),
    ensures
        normalized(spelled(words, spelling), sep) == spelled(words, with_sep(spelling, Some(sep))),
{
    lemma_spelled_swapped(words, spelling, sep);
    match spelling.sep {
        Some(c) => {
            lemma_spelled_unbroken(words, with_sep(spelling, Some(sep)), sep);
        },
        None => {
            lemma_spelled_broken(words, spelling, sep);
        },
    }
}

/// Cross-convention equivalence: words written in any spelling that keeps
/// them apart convert, in each convention that recovers words, to the words
/// written in the spelling of that convention.
pub proof fn lemma_words_convert(words: Seq<Seq<char>>, spelling: Spelling)
    requires
        forall|k: int| 0 <= k < words.len() ==> is_word(#[trigger] words[k]),
        keeps_apart(spelling, words),
    ensures
        sentence_case(spelled(words, spelling)) == spelled(words, sentence()),
        title_case(spelled(words, spelling)) == spelled(words, title()),
        camel_case(spelled(words, spelling)) == spelled(words, camel()),
        pascal_case(spelled(words, spelling)) == spelled(words, pascal()),
        kebab_case(spelled(words, spelling)) == spelled(words, kebab()),
        train_case(spelled(words, spelling)) == spelled(words, train()),
        snake_case(spelled(words, spelling)) == spelled(words, snake()),
        constant_case(spelled(words, spelling)) == spelled(words, constant()),
{
    let s = spelled(words, spelling);
    let spaced = with_sep(spelling, Some(' '));
    let dashed = with_sep(spelling, Some('-'));
    let scored = with_sep(spelling, Some('_'));
    lemma_spelled_normalized(words, spelling, ' ');
    lemma_spelled_normalized(words, spelling, '-');
    lemma_spelled_normalized(words, spelling, '_');
    lemma_spelled_lowercased(words, spaced);
    lemma_spelled_lowercased(words, dashed);
    lemma_spelled_lowercased(words, scored);
    lemma_spelled_uppercased(words, scored);
    assert(with_casing(spaced, Casing::Lower) == sentence());
    assert(with_casing(dashed, Casing::Lower) == kebab());
    assert(with_casing(scored, Casing::Lower) == snake());
    assert(with_casing(scored, Casing::Upper) == constant());
    lemma_spelled_capitalized(words, sentence());
    lemma_spelled_capitalized(words, kebab());
    assert(with_casing(sentence(), Casing::Capitalized) == title());
    assert(with_casing(kebab(), Casing::Capitalized) == train());
    lemma_camel_scanned_from_start(s, false);
    lemma_camel_scanned_from_start(s, true);
    lemma_spelled_scanned(words, spelling, false);
    lemma_spelled_scanned(words, spelling, true);
    assert(scan_spelling(false) == camel());
    assert(scan_spelling(true) == pascal());
}

/// Two spellings of the same words that both keep them apart convert to the
/// same string, in each convention that recovers words.
pub proof fn lemma_spellings_agree(words: Seq<Seq<char>>, a: Spelling, b: Spelling)
    requires
        forall|k: int| 0 <= k < words.len() ==> is_word(#[trigger] words[k]),
        keeps_apart(a, words),
        keeps_apart(b, words),
    ensures
        sentence_case(spelled(words, a)) == sentence_case(spelled(words, b)),
        title_case(spelled(words, a)) == title_case(spelled(words, b)),
        camel_case(spelled(words, a)) == camel_case(spelled(words, b)),
        pascal_case(spelled(words, a)) == pascal_case(spelled(words, b)),
        kebab_case(spelled(words, a)) == kebab_case(spelled(words, b)),
        train_case(spelled(words, a)) == train_case(spelled(words, b)),
        snake_case(spelled(words, a)) == snake_case(spelled(words, b)),
        constant_case(spelled(words, a)) == constant_case(spelled(words, b)),
{
    lemma_words_convert(words, a);
    lemma_words_convert(words, b);
}

/// The two conversions that only fold case keep the separator of the
/// spelling, or the lack of one, and write every word in their case.
pub proof fn lemma_words_fold(words: Seq<Seq<char>>, spelling: Spelling)
    requires
        forall|k: int| 0 <= k < words.len() ==> is_word(#[trigger] words[k]),
        spelling.sep matches Some(c) ==> separator(c),
    ensures
        lower_case(spelled(words, spelling)) == spelled(
            words,
            with_casing(spelling, Casing::Lower),
        ),
        upper_case(spelled(words, spelling)) == spelled(
            words,
            with_casing(spelling, Casing::Upper),
        ),
{
    lemma_spelled_lowercased(words, spelling);
    lemma_spelled_uppercased(words, spelling);
}

/// Converting words in a spelling that keeps them apart twice is converting
/// them once. For camel case and Pascal case the words must stay apart when
/// run together: every word that another follows has two letters or more,
/// but for a first word in lowercase.
pub proof fn lemma_words_convert_idempotent(words: Seq<Seq<char>>, spelling: Spelling)
    requires
        forall|k: int| 0 <= k < words.len() ==> is_word(#[trigger] words[k]),
        keeps_apart(spelling, words),
    ensures
        sentence_case(sentence_case(spelled(words, spelling))) == sentence_case(
            spelled(words, spelling),
        ),
        title_case(title_case(spelled(words, spelling))) == title_case(spelled(words, spelling)),
        kebab_case(kebab_case(spelled(words, spelling))) == kebab_case(spelled(words, spelling)),
        train_case(train_case(spelled(words, spelling))) == train_case(spelled(words, spelling)),
        snake_case(snake_case(spelled(words, spelling))) == snake_case(spelled(words, spelling)),
        constant_case(constant_case(spelled(words, spelling))) == constant_case(
            spelled(words, spelling),
        ),
        keeps_apart(camel(), words) ==> camel_case(camel_case(spelled(words, spelling)))
            == camel_case(spelled(words, spelling)),
        keeps_apart(pascal(), words) ==> pascal_case(pascal_case(spelled(words, spelling)))
            == pascal_case(spelled(words, spelling)),
{
    lemma_words_convert(words, spelling);
    lemma_words_convert(words, sentence());
    lemma_words_convert(words, title());
    lemma_words_convert(words, kebab());
    lemma_words_convert(words, train());
    lemma_words_convert(words, snake());
    lemma_words_convert(words, constant());
    if keeps_apart(camel(), words) {
        lemma_words_convert(words, camel());
    }
    if keeps_apart(pascal(), words) {
        lemma_words_convert(words, pascal());
    }
}

} // verus!
