//! Case of single characters.
//!
//! The standard library decides the case of a character and its case
//! mappings from its Unicode tables, without regard to a locale. Inside
//! ASCII these are a few lines and are written out here; outside ASCII they
//! are named, not described.

use vstd::prelude::*;

verus! {

/// What `char::to_lowercase` yields for a character outside ASCII.
pub uninterp spec fn unicode_lowercase(c: char) -> Seq<char>;

/// What `char::to_uppercase` yields for a character outside ASCII.
pub uninterp spec fn unicode_uppercase(c: char) -> Seq<char>;

/// Whether `char::is_lowercase` holds of a character outside ASCII.
pub uninterp spec fn unicode_is_lowercase(c: char) -> bool;

/// Whether `char::is_uppercase` holds of a character outside ASCII.
pub uninterp spec fn unicode_is_uppercase(c: char) -> bool;

/// The character is one of the 128 ASCII characters.
pub open spec fn is_ascii(c: char) -> bool {
    c <= '\x7f'
}

/// The character is one of `a` to `z`.
pub open spec fn ascii_lower(c: char) -> bool {
    'a' <= c <= 'z'
}

/// The character is one of `A` to `Z`.
pub open spec fn ascii_upper(c: char) -> bool {
    'A' <= c <= 'Z'
}

/// The letter `a` to `z` for a letter `A` to `Z`, any other character as it is.
pub open spec fn ascii_lowercase(c: char) -> char {
    if ascii_upper(c) {
        ((c as u32) + 32) as char
    } else {
        c
    }
}

/// The letter `A` to `Z` for a letter `a` to `z`, any other character as it is.
pub open spec fn ascii_uppercase(c: char) -> char {
    if ascii_lower(c) {
        ((c as u32) - 32) as char
    } else {
        c
    }
}

/// Whether the character is lowercase.
pub open spec fn is_lower(c: char) -> bool {
    if is_ascii(c) {
        ascii_lower(c)
    } else {
        unicode_is_lowercase(c)
    }
}

/// Whether the character is uppercase.
pub open spec fn is_upper(c: char) -> bool {
    if is_ascii(c) {
        ascii_upper(c)
    } else {
        unicode_is_uppercase(c)
    }
}

/// The lowercase mapping of a character, which may be several characters.
pub open spec fn lowercase_of(c: char) -> Seq<char> {
    if is_ascii(c) {
        seq![ascii_lowercase(c)]
    } else {
        unicode_lowercase(c)
    }
}

/// The uppercase mapping of a character, which may be several characters.
pub open spec fn uppercase_of(c: char) -> Seq<char> {
    if is_ascii(c) {
        seq![ascii_uppercase(c)]
    } else {
        unicode_uppercase(c)
    }
}

/// `char::is_lowercase`: inside ASCII the letters `a` to `z` and no others
/// are lowercase; outside ASCII the answer is the one named above. The
/// result is `is_lower(c)`.
pub assume_specification[ char::is_lowercase ](c: char) -> (r: bool)
    ensures
        r == if is_ascii(c) {
            ascii_lower(c)
        } else {
            unicode_is_lowercase(c)
        },
;

/// `char::is_uppercase`: inside ASCII the letters `A` to `Z` and no others
/// are uppercase; outside ASCII the answer is the one named above. The
/// result is `is_upper(c)`.
pub assume_specification[ char::is_uppercase ](c: char) -> (r: bool)
    ensures
        r == if is_ascii(c) {
            ascii_upper(c)
        } else {
            unicode_is_uppercase(c)
        },
;

/// `char::to_lowercase`, with the characters it yields gathered in order.
/// Inside ASCII it yields one character: `a` to `z` for `A` to `Z`, and any
/// other character itself. Outside ASCII it yields the named mapping. The
/// result is `lowercase_of(c)`.
#[verifier::external_body]
pub(crate) fn to_lowercase(c: char) -> (r: Vec<char>)
    ensures
        r@ == if is_ascii(c) {
            seq![ascii_lowercase(c)]
        } else {
            unicode_lowercase(c)
        },
{
    c.to_lowercase().collect()
}

/// `char::to_uppercase`, with the characters it yields gathered in order.
/// Inside ASCII it yields one character: `A` to `Z` for `a` to `z`, and any
/// other character itself. Outside ASCII it yields the named mapping. The
/// result is `uppercase_of(c)`.
#[verifier::external_body]
pub(crate) fn to_uppercase(c: char) -> (r: Vec<char>)
    ensures
        r@ == if is_ascii(c) {
            seq![ascii_uppercase(c)]
        } else {
            unicode_uppercase(c)
        },
{
    c.to_uppercase().collect()
}

} // verus!
