//! What a string in each convention looks like.
//!
//! For every convention a shape is given, character by character. A string
//! of that shape is left unchanged by the conversion, so the predicate of
//! the convention holds of it; and an ASCII string that the conversion
//! leaves unchanged has that shape, so for ASCII strings the shape says
//! exactly what the predicate means.

use vstd::prelude::*;
use crate::model::{
    break_pieces, camel_broken, camel_case, camel_pending, camel_pieces, camel_scanned,
    capital_pieces, capitalized, constant_case, kebab_case, lower_case, lower_pieces,
    lowercased, normalized, pascal_case, sentence_case, separator, separators_swapped,
    snake_case, swapped, title_case, train_case, upper_case, upper_pieces, uppercased,
    word_start,
};
use crate::pieces::{
    lemma_flatten_all, lemma_flatten_firsts, lemma_flatten_of_nonempty, lemma_flatten_of_short,
    lemma_flatten_units,
};
use crate::unicode::{
    ascii_lowercase, ascii_uppercase, is_ascii, is_lower, is_upper, lowercase_of, uppercase_of,
};

verus! {

/// The character is its own lowercase mapping.
pub open spec fn lower_fixed(c: char) -> bool {
    lowercase_of(c) == seq![c]
}

/// The character is its own uppercase mapping.
pub open spec fn upper_fixed(c: char) -> bool {
    uppercase_of(c) == seq![c]
}

/// The character is the uppercase mapping of its own lowercase mapping,
/// which is a single character and no separator.
pub open spec fn capital(c: char) -> bool {
    &&& lowercase_of(c).len() == 1
    &&& !separator(lowercase_of(c)[0])
    &&& uppercase_of(lowercase_of(c)[0]) == seq![c]
}

/// Every character is its own lowercase mapping.
pub open spec fn lower_shaped(s: Seq<char>) -> bool {
    forall|i: int| 0 <= i < s.len() ==> lower_fixed(#[trigger] s[i])
}

/// Every character is its own uppercase mapping.
pub open spec fn upper_shaped(s: Seq<char>) -> bool {
    forall|i: int| 0 <= i < s.len() ==> upper_fixed(#[trigger] s[i])
}

/// Words in lowercase with `sep` between them: every separator is `sep`,
/// and every character is its own lowercase mapping and not uppercase.
pub open spec fn lower_delimited(s: Seq<char>, sep: char) -> bool {
    forall|i: int|
        0 <= i < s.len() ==> {
            &&& separator(#[trigger] s[i]) ==> s[i] == sep
            &&& lower_fixed(s[i])
            &&& !is_upper(s[i])
        }
}

/// Words in uppercase with `sep` between them: every separator is `sep`,
/// and every character is its own uppercase mapping and not lowercase.
pub open spec fn upper_delimited(s: Seq<char>, sep: char) -> bool {
    forall|i: int|
        0 <= i < s.len() ==> {
            &&& separator(#[trigger] s[i]) ==> s[i] == sep
            &&& upper_fixed(s[i])
            &&& !is_lower(s[i])
        }
}

/// Capitalized words with `sep` between them: every separator is `sep`,
/// the first character of a word is a capital, and every other character
/// is its own lowercase mapping and not uppercase.
pub open spec fn capital_delimited(s: Seq<char>, sep: char) -> bool {
    forall|i: int|
        0 <= i < s.len() ==> if separator(#[trigger] s[i]) {
            s[i] == sep
        } else if word_start(s, i) {
            capital(s[i])
        } else {
            lower_fixed(s[i]) && !is_upper(s[i])
        }
}

/// No separators, and every character that does not follow a lowercase
/// character is its own lowercase mapping.
pub open spec fn camel_shaped(s: Seq<char>) -> bool {
    forall|i: int|
        0 <= i < s.len() ==> {
            &&& !separator(#[trigger] s[i])
            &&& (i > 0 && is_lower(s[i - 1])) || lower_fixed(s[i])
        }
}

/// The first character is its own uppercase mapping; after it come no
/// separators, and every character that does not follow a lowercase
/// character is its own lowercase mapping.
pub open spec fn pascal_shaped(s: Seq<char>) -> bool {
    forall|i: int|
        0 <= i < s.len() ==> if i == 0 {
            upper_fixed(#[trigger] s[i])
        } else {
            !separator(s[i]) && (is_lower(s[i - 1]) || lower_fixed(s[i]))
        }
}

/// Lowercasing leaves a sequence of characters that are their own
/// lowercase mappings as it is.
pub proof fn lemma_lowercased_fixed(s: Seq<char>)
    requires
        lower_shaped(s),
    ensures
        lowercased(s) == s,
{
    lemma_flatten_units(lower_pieces(s), s);
}

/// Uppercasing leaves a sequence of characters that are their own
/// uppercase mappings as it is.
pub proof fn lemma_uppercased_fixed(s: Seq<char>)
    requires
        upper_shaped(s),
    ensures
        uppercased(s) == s,
{
    lemma_flatten_units(upper_pieces(s), s);
}

/// Where no lowercase character is directly followed by an uppercase one,
/// nothing is inserted.
pub proof fn lemma_camel_broken_fixed(s: Seq<char>, sep: char)
    requires
        forall|i: int| 0 <= i < s.len() - 1 ==> !(is_lower(s[i]) && is_upper(#[trigger] s[i + 1])),
    ensures
        camel_broken(s, sep) == s,
{
    lemma_flatten_units(break_pieces(s, sep), s);
}

/// Normalizing leaves a sequence as it is where all its separators are
/// `sep` and no lowercase character is directly followed by an uppercase one.
pub proof fn lemma_normalized_fixed(s: Seq<char>, sep: char)
    requires
        forall|i: int| 0 <= i < s.len() && separator(#[trigger] s[i]) ==> s[i] == sep,
        forall|i: int| 0 <= i < s.len() - 1 ==> !(is_lower(s[i]) && is_upper(#[trigger] s[i + 1])),
    ensures
        normalized(s, sep) == s,
{
    assert(separators_swapped(s, sep) == s);
    lemma_camel_broken_fixed(s, sep);
}

/// A string of lowercase words with `sep` between them is left unchanged by:
/// normalizing with `sep`, then lowercasing.
pub proof fn lemma_lower_delimited_fixed(s: Seq<char>, sep: char)
    requires
        lower_delimited(s, sep),
    ensures
        lowercased(normalized(s, sep)) == s,
{
    lemma_normalized_fixed(s, sep);
    lemma_lowercased_fixed(s);
}

/// A string of uppercase words with `sep` between them is left unchanged by:
/// normalizing with `sep`, then uppercasing.
pub proof fn lemma_upper_delimited_fixed(s: Seq<char>, sep: char)
    requires
        upper_delimited(s, sep),
    ensures
        uppercased(normalized(s, sep)) == s,
{
    lemma_normalized_fixed(s, sep);
    lemma_uppercased_fixed(s);
}

/// The sequence with the first character of every word replaced by the
/// single character that its lowercase mapping is.
spec fn decapitalized(s: Seq<char>) -> Seq<char> {
    Seq::new(
        s.len(),
        |i: int|
            if word_start(s, i) {
                lowercase_of(s[i])[0]
            } else {
                s[i]
            },
    )
}

/// A string of capitalized words with `sep` between them is left unchanged
/// by: normalizing with `sep`, lowercasing, then capitalizing.
pub proof fn lemma_capital_delimited_fixed(s: Seq<char>, sep: char)
    requires
        separator(sep),
        capital_delimited(s, sep),
    ensures
        capitalized(lowercased(normalized(s, sep))) == s,
{
    // Normalizing changes nothing, lowercasing lowers the capitals, and
    // capitalizing raises them again.
    lemma_normalized_fixed(s, sep);
    let w = decapitalized(s);
    assert forall|i: int| 0 <= i < s.len() implies #[trigger] lower_pieces(s)[i] == seq![w[i]] by {
        if word_start(s, i) {
            assert(capital(s[i]));
        }
    }
    lemma_flatten_units(lower_pieces(s), w);
    lemma_flatten_units(capital_pieces(w), s);
}

/// In a string without separators no capital is ever due in the camel scan
/// after the first character.
pub proof fn lemma_camel_pending_without_separators(s: Seq<char>, i: int, first: bool)
    requires
        0 <= i <= s.len(),
        forall|j: int| 0 < j < s.len() ==> !separator(#[trigger] s[j]),
        !first ==> (s.len() > 0 ==> !separator(s[0])),
    ensures
        camel_pending(s, i, first) == (first && i == 0),
    decreases i,
{
    if i > 0 {
        lemma_camel_pending_without_separators(s, i - 1, first);
    }
}

/// A string in camel shape is left unchanged by the camel scan.
pub proof fn lemma_camel_shaped_fixed(s: Seq<char>)
    requires
        camel_shaped(s),
    ensures
        camel_case(s) == s,
{
    assert forall|i: int| 0 <= i < s.len() implies #[trigger] camel_pieces(s, false)[i] == seq![
        s[i],
    ] by {
        lemma_camel_pending_without_separators(s, i, false);
    }
    lemma_flatten_units(camel_pieces(s, false), s);
}

/// A string in Pascal shape is left unchanged by the camel scan that
/// capitalizes the first character.
pub proof fn lemma_pascal_shaped_fixed(s: Seq<char>)
    requires
        pascal_shaped(s),
    ensures
        pascal_case(s) == s,
{
    assert forall|i: int| 0 <= i < s.len() implies #[trigger] camel_pieces(s, true)[i] == seq![
        s[i],
    ] by {
        lemma_camel_pending_without_separators(s, i, true);
    }
    lemma_flatten_units(camel_pieces(s, true), s);
}

/// Every character is an ASCII character.
pub open spec fn all_ascii(s: Seq<char>) -> bool {
    forall|i: int| 0 <= i < s.len() ==> is_ascii(#[trigger] s[i])
}

/// The ASCII string with every letter in lowercase.
pub open spec fn ascii_lowercased(s: Seq<char>) -> Seq<char> {
    Seq::new(s.len(), |i: int| ascii_lowercase(s[i]))
}

/// The ASCII string with every letter in uppercase.
pub open spec fn ascii_uppercased(s: Seq<char>) -> Seq<char> {
    Seq::new(s.len(), |i: int| ascii_uppercase(s[i]))
}

/// The ASCII string with the first character of every word in uppercase.
pub open spec fn ascii_capitalized(s: Seq<char>) -> Seq<char> {
    Seq::new(
        s.len(),
        |i: int|
            if word_start(s, i) {
                ascii_uppercase(s[i])
            } else {
                s[i]
            },
    )
}

/// On an ASCII string, folding case and capitalizing go character by
/// character: the result has the length of the string, and each character
/// of it is the ASCII counterpart of the one in its place.
pub proof fn lemma_ascii_folded(s: Seq<char>)
    requires
        all_ascii(s),
    ensures
        lowercased(s) == ascii_lowercased(s),
        uppercased(s) == ascii_uppercased(s),
        capitalized(s) == ascii_capitalized(s),
{
    lemma_flatten_units(lower_pieces(s), ascii_lowercased(s));
    lemma_flatten_units(upper_pieces(s), ascii_uppercased(s));
    lemma_flatten_units(capital_pieces(s), ascii_capitalized(s));
}

/// An ASCII string that lowercasing leaves unchanged is made of characters
/// that are their own lowercase mappings.
pub proof fn lemma_lowercased_fixed_is_shaped(s: Seq<char>)
    requires
        all_ascii(s),
        lowercased(s) == s,
    ensures
        lower_shaped(s),
{
    lemma_ascii_folded(s);
    assert forall|i: int| 0 <= i < s.len() implies lower_fixed(#[trigger] s[i]) by {
        assert(ascii_lowercased(s)[i] == s[i]);
    }
}

/// An ASCII string that uppercasing leaves unchanged is made of characters
/// that are their own uppercase mappings.
pub proof fn lemma_uppercased_fixed_is_shaped(s: Seq<char>)
    requires
        all_ascii(s),
        uppercased(s) == s,
    ensures
        upper_shaped(s),
{
    lemma_ascii_folded(s);
    assert forall|i: int| 0 <= i < s.len() implies upper_fixed(#[trigger] s[i]) by {
        assert(ascii_uppercased(s)[i] == s[i]);
    }
}

/// Breaking camel case never shortens a sequence, and keeps its length only
/// where it inserts nothing.
pub proof fn lemma_camel_broken_len(s: Seq<char>, sep: char)
    ensures
        camel_broken(s, sep).len() >= s.len(),
        camel_broken(s, sep).len() == s.len() ==> camel_broken(s, sep) == s && forall|i: int|
            0 <= i < s.len() - 1 ==> !(is_lower(s[i]) && is_upper(#[trigger] s[i + 1])),
{
    let pieces = break_pieces(s, sep);
    lemma_flatten_of_nonempty(pieces);
    if camel_broken(s, sep).len() == s.len() {
        assert forall|i: int| 0 <= i < s.len() - 1 implies !(is_lower(s[i]) && is_upper(
            #[trigger] s[i + 1],
        )) by {
            assert(pieces[i].len() == 1);
        }
        lemma_camel_broken_fixed(s, sep);
    }
}

/// Normalizing an ASCII string with a separator yields an ASCII string.
pub proof fn lemma_normalized_ascii(s: Seq<char>, sep: char)
    requires
        all_ascii(s),
        separator(sep),
    ensures
        all_ascii(normalized(s, sep)),
{
    let w = separators_swapped(s, sep);
    let pieces = break_pieces(w, sep);
    let ascii = |c: char| is_ascii(c);
    lemma_flatten_all(pieces, ascii);
}

/// An ASCII string that is left unchanged by normalizing with a separator
/// and folding case is left unchanged by the normalizing alone.
proof fn lemma_fixed_is_normalized(s: Seq<char>, sep: char, folded: Seq<char>)
    requires
        folded.len() == normalized(s, sep).len(),
        folded.len() == s.len(),
    ensures
        normalized(s, sep) == separators_swapped(s, sep),
        forall|i: int|
            0 <= i < s.len() - 1 ==> !(is_lower(swapped(s[i], sep)) && is_upper(
                swapped(#[trigger] s[i + 1], sep),
            )),
{
    let w = separators_swapped(s, sep);
    lemma_camel_broken_len(w, sep);
    assert forall|i: int| 0 <= i < s.len() - 1 implies !(is_lower(swapped(s[i], sep))
        && is_upper(swapped(#[trigger] s[i + 1], sep))) by {
        assert(!(is_lower(w[i]) && is_upper(w[i + 1])));
    }
}

/// An ASCII string that is left unchanged by normalizing with a separator
/// and lowercasing is made of lowercase words with that separator between
/// them.
pub proof fn lemma_lower_fixed_is_delimited(s: Seq<char>, sep: char)
    requires
        all_ascii(s),
        separator(sep),
        lowercased(normalized(s, sep)) == s,
    ensures
        lower_delimited(s, sep),
{
    // Lowercasing keeps the length, so normalizing has inserted nothing, and
    // the string is its own image character by character.
    let n = normalized(s, sep);
    lemma_normalized_ascii(s, sep);
    lemma_ascii_folded(n);
    lemma_fixed_is_normalized(s, sep, ascii_lowercased(n));
    assert forall|i: int| 0 <= i < s.len() implies {
        &&& separator(#[trigger] s[i]) ==> s[i] == sep
        &&& lower_fixed(s[i])
        &&& !is_upper(s[i])
    } by {
        assert(ascii_lowercased(n)[i] == s[i]);
    }
}

/// An ASCII string that is left unchanged by normalizing with a separator
/// and uppercasing is made of uppercase words with that separator between
/// them.
pub proof fn lemma_upper_fixed_is_delimited(s: Seq<char>, sep: char)
    requires
        all_ascii(s),
        separator(sep),
        uppercased(normalized(s, sep)) == s,
    ensures
        upper_delimited(s, sep),
{
    // Uppercasing keeps the length, so normalizing has inserted nothing, and
    // the string is its own image character by character.
    let n = normalized(s, sep);
    lemma_normalized_ascii(s, sep);
    lemma_ascii_folded(n);
    lemma_fixed_is_normalized(s, sep, ascii_uppercased(n));
    assert forall|i: int| 0 <= i < s.len() implies {
        &&& separator(#[trigger] s[i]) ==> s[i] == sep
        &&& upper_fixed(s[i])
        &&& !is_lower(s[i])
    } by {
        assert(ascii_uppercased(n)[i] == s[i]);
    }
}

/// An ASCII string that is left unchanged by normalizing with a separator,
/// lowercasing and capitalizing is made of capitalized words with that
/// separator between them.
pub proof fn lemma_capital_fixed_is_delimited(s: Seq<char>, sep: char)
    requires
        all_ascii(s),
        separator(sep),
        capitalized(lowercased(normalized(s, sep))) == s,
    ensures
        capital_delimited(s, sep),
{
    // Lowercasing and capitalizing keep the length, so normalizing has
    // inserted nothing, and the string is its own image character by
    // character.
    let n = normalized(s, sep);
    lemma_normalized_ascii(s, sep);
    let w = ascii_lowercased(n);
    let t = ascii_capitalized(w);
    lemma_ascii_folded(n);
    lemma_ascii_folded(w);
    lemma_fixed_is_normalized(s, sep, t);
    assert forall|i: int| 0 <= i < s.len() implies if separator(#[trigger] s[i]) {
        s[i] == sep
    } else if word_start(s, i) {
        capital(s[i])
    } else {
        lower_fixed(s[i]) && !is_upper(s[i])
    } by {
        assert(t[i] == s[i]);
        assert(separator(w[i]) == separator(s[i]));
        if i > 0 {
            assert(separator(w[i - 1]) == separator(s[i - 1]));
        }
    }
}

/// Where every character of an ASCII string comes out of the camel scan as
/// one character, no capital is due after the start and no character after
/// the start is a separator; nor is the first one, unless a capital is due
/// at the start.
proof fn lemma_camel_scan_without_gaps(s: Seq<char>, i: int, first: bool)
    requires
        all_ascii(s),
        0 <= i < s.len(),
        forall|j: int| 0 <= j < s.len() ==> (#[trigger] camel_pieces(s, first)[j]).len() == 1,
    ensures
        camel_pending(s, i, first) == (first && i == 0),
        !(first && i == 0) ==> !separator(s[i]),
    decreases i,
{
    assert(camel_pieces(s, first)[i].len() == 1);
    if i > 0 {
        lemma_camel_scan_without_gaps(s, i - 1, first);
    }
}

/// An ASCII string that the camel scan leaves unchanged comes out of it
/// character by character.
proof fn lemma_camel_fixed_pieces(s: Seq<char>, first: bool)
    requires
        all_ascii(s),
        camel_scanned(s, first) == s,
    ensures
        forall|i: int| 0 <= i < s.len() ==> #[trigger] camel_pieces(s, first)[i] == seq![s[i]],
{
    // No piece has more than one character, and together they have as many
    // as the string, so each has exactly one.
    let pieces = camel_pieces(s, first);
    lemma_flatten_of_short(pieces);
    lemma_flatten_firsts(pieces);
}

/// An ASCII string that the camel scan leaves unchanged is in camel shape.
pub proof fn lemma_camel_fixed_is_shaped(s: Seq<char>)
    requires
        all_ascii(s),
        camel_case(s) == s,
    ensures
        camel_shaped(s),
{
    lemma_camel_fixed_pieces(s, false);
    assert forall|i: int| 0 <= i < s.len() implies {
        &&& !separator(#[trigger] s[i])
        &&& (i > 0 && is_lower(s[i - 1])) || lower_fixed(s[i])
    } by {
        lemma_camel_scan_without_gaps(s, i, false);
        assert(camel_pieces(s, false)[i] == seq![s[i]]);
    }
}

/// An ASCII string that the camel scan with a capital due at the start
/// leaves unchanged is in Pascal shape.
pub proof fn lemma_pascal_fixed_is_shaped(s: Seq<char>)
    requires
        all_ascii(s),
        pascal_case(s) == s,
    ensures
        pascal_shaped(s),
{
    lemma_camel_fixed_pieces(s, true);
    assert forall|i: int| 0 <= i < s.len() implies if i == 0 {
        upper_fixed(#[trigger] s[i])
    } else {
        !separator(s[i]) && (is_lower(s[i - 1]) || lower_fixed(s[i]))
    } by {
        lemma_camel_scan_without_gaps(s, i, true);
        assert(camel_pieces(s, true)[i] == seq![s[i]]);
    }
}

/// A string of the shape of a convention is a fixed point of its conversion.
pub proof fn lemma_shaped_is_fixed(s: Seq<char>)
    ensures
        lower_shaped(s) ==> lower_case(s) == s,
        upper_shaped(s) ==> upper_case(s) == s,
        lower_delimited(s, ' ') ==> sentence_case(s) == s,
        capital_delimited(s, ' ') ==> title_case(s) == s,
        camel_shaped(s) ==> camel_case(s) == s,
        pascal_shaped(s) ==> pascal_case(s) == s,
        lower_delimited(s, '-') ==> kebab_case(s) == s,
        capital_delimited(s, '-') ==> train_case(s) == s,
        lower_delimited(s, '_') ==> snake_case(s) == s,
        upper_delimited(s, '_') ==> constant_case(s) == s,
{
    if lower_shaped(s) {
        lemma_lowercased_fixed(s);
    }
    if upper_shaped(s) {
        lemma_uppercased_fixed(s);
    }
    if lower_delimited(s, ' ') {
        lemma_lower_delimited_fixed(s, ' ');
    }
    if capital_delimited(s, ' ') {
        lemma_capital_delimited_fixed(s, ' ');
    }
    if camel_shaped(s) {
        lemma_camel_shaped_fixed(s);
    }
    if pascal_shaped(s) {
        lemma_pascal_shaped_fixed(s);
    }
    if lower_delimited(s, '-') {
        lemma_lower_delimited_fixed(s, '-');
    }
    if capital_delimited(s, '-') {
        lemma_capital_delimited_fixed(s, '-');
    }
    if lower_delimited(s, '_') {
        lemma_lower_delimited_fixed(s, '_');
    }
    if upper_delimited(s, '_') {
        lemma_upper_delimited_fixed(s, '_');
    }
}

/// What the predicate of each convention says of an ASCII string: the
/// string is a fixed point of the conversion exactly if it has the shape of
/// the convention.
pub proof fn lemma_ascii_fixed_is_shaped(s: Seq<char>)
    requires
        all_ascii(s),
    ensures
        (lower_case(s) == s) == lower_shaped(s),
        (upper_case(s) == s) == upper_shaped(s),
        (sentence_case(s) == s) == lower_delimited(s, ' '),
        (title_case(s) == s) == capital_delimited(s, ' '),
        (camel_case(s) == s) == camel_shaped(s),
        (pascal_case(s) == s) == pascal_shaped(s),
        (kebab_case(s) == s) == lower_delimited(s, '-'),
        (train_case(s) == s) == capital_delimited(s, '-'),
        (snake_case(s) == s) == lower_delimited(s, '_'),
        (constant_case(s) == s) == upper_delimited(s, '_'),
{
    lemma_shaped_is_fixed(s);
    if lower_case(s) == s {
        lemma_lowercased_fixed_is_shaped(s);
    }
    if upper_case(s) == s {
        lemma_uppercased_fixed_is_shaped(s);
    }
    if sentence_case(s) == s {
        lemma_lower_fixed_is_delimited(s, ' ');
    }
    if title_case(s) == s {
        lemma_capital_fixed_is_delimited(s, ' ');
    }
    if camel_case(s) == s {
        lemma_camel_fixed_is_shaped(s);
    }
    if pascal_case(s) == s {
        lemma_pascal_fixed_is_shaped(s);
    }
    if kebab_case(s) == s {
        lemma_lower_fixed_is_delimited(s, '-');
    }
    if train_case(s) == s {
        lemma_capital_fixed_is_delimited(s, '-');
    }
    if snake_case(s) == s {
        lemma_lower_fixed_is_delimited(s, '_');
    }
    if constant_case(s) == s {
        lemma_upper_fixed_is_delimited(s, '_');
    }
}

} // verus!
