//! What each conversion yields, as functions on sequences of characters.
//!
//! A conversion is described position by position: each character of the
//! input contributes a piece (none, one or several characters) that depends
//! on the character and its neighbours, and the result is the pieces joined
//! in order.
//!
//! The join is `Seq::flatten`, which is recursive: a proof that computes the
//! conversion of a given string unfolds it with `reveal_with_fuel`, one unit
//! of fuel more than the string is long, and is best taken stage by stage.

use vstd::prelude::*;
use crate::unicode::{is_lower, is_upper, lowercase_of, uppercase_of};

verus! {

/// One of the three characters that separate words: space, hyphen, underscore.
pub open spec fn separator(c: char) -> bool {
    c == ' ' || c == '-' || c == '_'
}

/// The character, or `sep` in its place where it is a separator.
pub open spec fn swapped(c: char, sep: char) -> char {
    if separator(c) {
        sep
    } else {
        c
    }
}

/// The sequence with every separator replaced by `sep`.
pub open spec fn separators_swapped(s: Seq<char>, sep: char) -> Seq<char> {
    Seq::new(s.len(), |i: int| swapped(s[i], sep))
}

/// A word ends at position `i` without a separator: the character there is
/// lowercase and the one after it is uppercase.
pub open spec fn camel_boundary(s: Seq<char>, i: int) -> bool {
    0 <= i && i + 1 < s.len() && is_lower(s[i]) && is_upper(s[i + 1])
}

/// The character at `i`, followed by `sep` where a word ends there.
pub open spec fn break_piece(s: Seq<char>, i: int, sep: char) -> Seq<char> {
    if camel_boundary(s, i) {
        seq![s[i], sep]
    } else {
        seq![s[i]]
    }
}

/// The pieces that breaking camel case makes of the characters.
pub open spec fn break_pieces(s: Seq<char>, sep: char) -> Seq<Seq<char>> {
    Seq::new(s.len(), |i: int| break_piece(s, i, sep))
}

/// The sequence with `sep` inserted between every lowercase character and
/// an uppercase character that follows it directly.
pub open spec fn camel_broken(s: Seq<char>, sep: char) -> Seq<char> {
    break_pieces(s, sep).flatten()
}

/// The lowercase mappings of the characters.
pub open spec fn lower_pieces(s: Seq<char>) -> Seq<Seq<char>> {
    Seq::new(s.len(), |i: int| lowercase_of(s[i]))
}

/// Every character replaced by its lowercase mapping.
pub open spec fn lowercased(s: Seq<char>) -> Seq<char> {
    lower_pieces(s).flatten()
}

/// The uppercase mappings of the characters.
pub open spec fn upper_pieces(s: Seq<char>) -> Seq<Seq<char>> {
    Seq::new(s.len(), |i: int| uppercase_of(s[i]))
}

/// Every character replaced by its uppercase mapping.
pub open spec fn uppercased(s: Seq<char>) -> Seq<char> {
    upper_pieces(s).flatten()
}

/// A word, that is a maximal run of characters that are not separators,
/// starts at position `i`.
pub open spec fn word_start(s: Seq<char>, i: int) -> bool {
    0 <= i < s.len() && !separator(s[i]) && (i == 0 || separator(s[i - 1]))
}

/// The uppercase mapping of the character at `i` where a word starts there,
/// the character itself elsewhere.
pub open spec fn capital_piece(s: Seq<char>, i: int) -> Seq<char> {
    if word_start(s, i) {
        uppercase_of(s[i])
    } else {
        seq![s[i]]
    }
}

/// The pieces that capitalizing words makes of the characters.
pub open spec fn capital_pieces(s: Seq<char>) -> Seq<Seq<char>> {
    Seq::new(s.len(), |i: int| capital_piece(s, i))
}

/// The sequence with the first character of every word replaced by its
/// uppercase mapping.
pub open spec fn capitalized(s: Seq<char>) -> Seq<char> {
    capital_pieces(s).flatten()
}

/// What the camel scan makes of one character: `pending` says that a
/// capital is due, `last` is the character before this one, if any.
pub open spec fn scan_piece(pending: bool, last: Option<char>, curr: char) -> Seq<char> {
    if pending {
        uppercase_of(curr)
    } else if separator(curr) {
        Seq::empty()
    } else if !(last matches Some(l) && is_lower(l)) {
        lowercase_of(curr)
    } else {
        seq![curr]
    }
}

/// A capital is due at position `i` of the camel scan: at the start that is
/// `first`; later it is due after a separator that was not itself due one.
pub open spec fn camel_pending(s: Seq<char>, i: int, first: bool) -> bool
    decreases i,
{
    if i <= 0 {
        first
    } else {
        !camel_pending(s, i - 1, first) && separator(s[i - 1])
    }
}

/// The character before position `i`, if there is one.
pub open spec fn before(s: Seq<char>, i: int) -> Option<char> {
    if 0 < i <= s.len() {
        Some(s[i - 1])
    } else {
        None
    }
}

/// What the camel scan makes of the character at `i`.
pub open spec fn camel_piece(s: Seq<char>, i: int, first: bool) -> Seq<char> {
    scan_piece(camel_pending(s, i, first), before(s, i), s[i])
}

/// The pieces that the camel scan makes of the characters.
pub open spec fn camel_pieces(s: Seq<char>, first: bool) -> Seq<Seq<char>> {
    Seq::new(s.len(), |i: int| camel_piece(s, i, first))
}

/// The camel scan of the sequence. A character at which a capital is due is
/// replaced by its uppercase mapping, be it a separator. Any other separator
/// vanishes. A character that directly follows a lowercase character stays
/// as it is, and every other character is replaced by its lowercase mapping.
/// A capital is due after a separator that vanished and, with `first`, at
/// the first character.
pub open spec fn camel_scanned(s: Seq<char>, first: bool) -> Seq<char> {
    camel_pieces(s, first).flatten()
}

/// The sequence with separators swapped for `sep` and words that camel case
/// runs together parted by `sep`.
pub open spec fn normalized(s: Seq<char>, sep: char) -> Seq<char> {
    camel_broken(separators_swapped(s, sep), sep)
}

/// lower case: every character in lowercase, separators as they are.
pub open spec fn lower_case(s: Seq<char>) -> Seq<char> {
    lowercased(s)
}

/// UPPER CASE: every character in uppercase, separators as they are.
pub open spec fn upper_case(s: Seq<char>) -> Seq<char> {
    uppercased(s)
}

/// sentence case: words in lowercase, parted by spaces.
pub open spec fn sentence_case(s: Seq<char>) -> Seq<char> {
    lowercased(normalized(s, ' '))
}

/// Title Case: words capitalized, parted by spaces.
pub open spec fn title_case(s: Seq<char>) -> Seq<char> {
    capitalized(lowercased(normalized(s, ' ')))
}

/// camelCase: the camel scan, with no capital due at the start.
pub open spec fn camel_case(s: Seq<char>) -> Seq<char> {
    camel_scanned(s, false)
}

/// PascalCase: the camel scan, with a capital due at the start.
pub open spec fn pascal_case(s: Seq<char>) -> Seq<char> {
    camel_scanned(s, true)
}

/// kebab-case: words in lowercase, parted by hyphens.
pub open spec fn kebab_case(s: Seq<char>) -> Seq<char> {
    lowercased(normalized(s, '-'))
}

/// Train-Case: words capitalized, parted by hyphens.
pub open spec fn train_case(s: Seq<char>) -> Seq<char> {
    capitalized(lowercased(normalized(s, '-')))
}

/// snake_case: words in lowercase, parted by underscores.
pub open spec fn snake_case(s: Seq<char>) -> Seq<char> {
    lowercased(normalized(s, '_'))
}

/// CONSTANT_CASE: words in uppercase, parted by underscores.
pub open spec fn constant_case(s: Seq<char>) -> Seq<char> {
    uppercased(normalized(s, '_'))
}

} // verus!
