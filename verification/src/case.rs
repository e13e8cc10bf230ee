//! Utilities to change the case of a string to another case. Supports “lower
//! case,” “UPPER CASE,” “sentence case,” “Title Case,” “camelCase,”
//! “PascalCase,” “kebab-case,” “Train-Case,” “snake_case,” and
//! “CONSTANT_CASE.”
//!
//! Space, hyphen and underscore separate words and stand for one another. A
//! lowercase character directly followed by an uppercase one also ends a
//! word, as in `helloWorld`. Every conversion is total, and every predicate
//! `is_*` holds exactly of the strings that its conversion leaves unchanged.

use vstd::prelude::*;
use vstd::string::StringExecFns;
use crate::model::{
    before, break_pieces, camel_broken, camel_case, camel_pending, camel_pieces, camel_scanned,
    capital_pieces, capitalized, constant_case, kebab_case, lower_case, lower_pieces,
    lowercased, normalized, pascal_case, scan_piece, sentence_case, separator,
    separators_swapped, snake_case, swapped, title_case, train_case, upper_case, upper_pieces,
    uppercased,
};
use crate::pieces::{lemma_flatten_skip_next, lemma_flatten_take_next};
use crate::text::{chars_of, string_of};
use crate::unicode::{is_lower, to_lowercase, to_uppercase, uppercase_of};

verus! {

/// Converts any case into lower case ignoring separators.
pub fn to_lower_case(string: &str) -> (r: String)
    ensures
        r@ == lower_case(string@),
{
    string_of(&fold_lowercase(&chars_of(string)))
}

/// Check to see if a string is completely lower case.
pub fn is_lower_case(string: &str) -> (r: bool)
    ensures
        r == (lower_case(string@) == string@),
{
    same(string, to_lower_case(string))
}

/// Converts any case into UPPER CASE ignoring separators.
pub fn to_upper_case(string: &str) -> (r: String)
    ensures
        r@ == upper_case(string@),
{
    string_of(&fold_uppercase(&chars_of(string)))
}

/// Check to see if a string is completely UPPER CASE.
pub fn is_upper_case(string: &str) -> (r: bool)
    ensures
        r == (upper_case(string@) == string@),
{
    same(string, to_upper_case(string))
}

/// Converts any case into traditional sentence case without capitalizing the
/// first letter.
pub fn to_sentence_case(string: &str) -> (r: String)
    ensures
        r@ == sentence_case(string@),
{
    string_of(&fold_lowercase(&normalize(string, ' ')))
}

/// Check to see if a string is sentence case.
pub fn is_sentence_case(string: &str) -> (r: bool)
    ensures
        r == (sentence_case(string@) == string@),
{
    same(string, to_sentence_case(string))
}

/// Converts any case into title case where *every* word is capitalized.
pub fn to_title_case(string: &str) -> (r: String)
    ensures
        r@ == title_case(string@),
{
    let lowered = fold_lowercase(&normalize(string, ' '));
    string_of(&capitalize_words(lowered).collect())
}

/// Check to see if a string is Title Case.
pub fn is_title_case(string: &str) -> (r: bool)
    ensures
        r == (title_case(string@) == string@),
{
    same(string, to_title_case(string))
}

/// Converts any case into camelCase.
pub fn to_camel_case(string: &str) -> (r: String)
    ensures
        r@ == camel_case(string@),
{
    scan_camel(string, false)
}

/// Check to see if a string is camelCase.
pub fn is_camel_case(string: &str) -> (r: bool)
    ensures
        r == (camel_case(string@) == string@),
{
    same(string, to_camel_case(string))
}

/// Converts any case into PascalCase.
pub fn to_pascal_case(string: &str) -> (r: String)
    ensures
        r@ == pascal_case(string@),
{
    scan_camel(string, true)
}

/// Check to see if a string is PascalCase.
pub fn is_pascal_case(string: &str) -> (r: bool)
    ensures
        r == (pascal_case(string@) == string@),
{
    same(string, to_pascal_case(string))
}

/// Converts any case into kebab-case.
pub fn to_kebab_case(string: &str) -> (r: String)
    ensures
        r@ == kebab_case(string@),
{
    string_of(&fold_lowercase(&normalize(string, '-')))
}

/// Check to see if a string is kebab-case.
pub fn is_kebab_case(string: &str) -> (r: bool)
    ensures
        r == (kebab_case(string@) == string@),
{
    same(string, to_kebab_case(string))
}

/// Converts any case into Train-Case.
pub fn to_train_case(string: &str) -> (r: String)
    ensures
        r@ == train_case(string@),
{
    let lowered = fold_lowercase(&normalize(string, '-'));
    string_of(&capitalize_words(lowered).collect())
}

/// Check to see if a string is Train-Case.
pub fn is_train_case(string: &str) -> (r: bool)
    ensures
        r == (train_case(string@) == string@),
{
    same(string, to_train_case(string))
}

/// Converts any case into snake_case.
pub fn to_snake_case(string: &str) -> (r: String)
    ensures
        r@ == snake_case(string@),
{
    string_of(&fold_lowercase(&normalize(string, '_')))
}

/// Check to see if a string is snake_case.
pub fn is_snake_case(string: &str) -> (r: bool)
    ensures
        r == (snake_case(string@) == string@),
{
    same(string, to_snake_case(string))
}

/// Converts any case into CONSTANT_CASE.
pub fn to_constant_case(string: &str) -> (r: String)
    ensures
        r@ == constant_case(string@),
{
    string_of(&fold_uppercase(&normalize(string, '_')))
}

/// Check to see if a string is CONSTANT_CASE.
pub fn is_constant_case(string: &str) -> (r: bool)
    ensures
        r == (constant_case(string@) == string@),
{
    same(string, to_constant_case(string))
}

/// Whether the conversion left the string as it was.
fn same(string: &str, converted: String) -> (r: bool)
    ensures
        r == (converted@ == string@),
{
    string.to_owned() == converted
}

/// The characters of the string with every separator swapped for `sep` and
/// camel case broken apart by `sep`.
pub fn normalize(string: &str, sep: char) -> (r: Vec<char>)
    ensures
        r@ == normalized(string@, sep),
{
    break_camel(swap_separators(&chars_of(string), sep), sep).collect()
}

/// Replaces every character by its lowercase mapping.
pub fn fold_lowercase(chars: &Vec<char>) -> (r: Vec<char>)
    ensures
        r@ == lowercased(chars@),
{
    let ghost pieces = lower_pieces(chars@);
    let mut out: Vec<char> = Vec::new();
    let mut i: usize = 0;
    while i < chars.len()
        invariant
            i <= chars.len(),
            pieces == lower_pieces(chars@),
            out@ == pieces.take(i as int).flatten(),
        decreases chars.len() - i,
    {
        let mut mapped = to_lowercase(chars[i]);
        proof {
            lemma_flatten_take_next(pieces, i as int);
        }
        out.append(&mut mapped);
        i += 1;
    }
    assert(pieces.take(chars.len() as int) == pieces);
    out
}

/// Replaces every character by its uppercase mapping.
pub fn fold_uppercase(chars: &Vec<char>) -> (r: Vec<char>)
    ensures
        r@ == uppercased(chars@),
{
    let ghost pieces = upper_pieces(chars@);
    let mut out: Vec<char> = Vec::new();
    let mut i: usize = 0;
    while i < chars.len()
        invariant
            i <= chars.len(),
            pieces == upper_pieces(chars@),
            out@ == pieces.take(i as int).flatten(),
        decreases chars.len() - i,
    {
        let mut mapped = to_uppercase(chars[i]);
        proof {
            lemma_flatten_take_next(pieces, i as int);
        }
        out.append(&mut mapped);
        i += 1;
    }
    assert(pieces.take(chars.len() as int) == pieces);
    out
}

/// One step of the camel scan. The state holds whether the next character
/// must be capitalized and the character seen last; the step hands back
/// what the current character turns into, which may be nothing.
pub fn scan_to_camel(state: &mut (bool, Option<char>), curr: char) -> (r: Option<String>)
    ensures
        r matches Some(piece) && piece@ == scan_piece(old(state).0, old(state).1, curr),
        final(state).0 == (!old(state).0 && separator(curr)),
        final(state).1 == Some(curr),
{
    // Store the last character in the scope and update the state to use the
    // current character.
    let last = state.1;
    state.1 = Some(curr);

    if state.0 {
        // If the state has signaled the next character must be capitalized,
        // capitalize it and mark the state as finished.
        state.0 = false;
        Some(string_of(&to_uppercase(curr)))
    } else if is_separator(curr) {
        // If the current character is a separator, mark the state to
        // capitalize the next character and remove the separator.
        state.0 = true;
        Some(String::new())
    } else if !was_lowercase(last) {
        // If the last character was not lowercase, this character should be
        // lower cased. This preserves camelCase strings while lowercasing
        // cases like CONSTANT_CASE.
        Some(string_of(&to_lowercase(curr)))
    } else {
        // Otherwise, just return the character.
        let mut string = String::new();
        string.push(curr);
        Some(string)
    }
}

/// Whether there was a last character and it was lowercase.
fn was_lowercase(last: Option<char>) -> (r: bool)
    ensures
        r == (last matches Some(l) && is_lower(l)),
{
    match last {
        Some(l) => l.is_lowercase(),
        None => false,
    }
}

/// Runs the camel scan over the string, capitalizing the first character
/// too if `first` is set.
fn scan_camel(string: &str, first: bool) -> (r: String)
    ensures
        r@ == camel_scanned(string@, first),
{
    let chars = chars_of(string);
    let ghost pieces = camel_pieces(chars@, first);
    let mut state: (bool, Option<char>) = (first, None);
    let mut out = String::new();
    let mut i: usize = 0;
    while i < chars.len()
        invariant
            i <= chars.len(),
            pieces == camel_pieces(chars@, first),
            state.0 == camel_pending(chars@, i as int, first),
            state.1 == before(chars@, i as int),
            out@ == pieces.take(i as int).flatten(),
        decreases chars.len() - i,
    {
        proof {
            lemma_flatten_take_next(pieces, i as int);
        }
        match scan_to_camel(&mut state, chars[i]) {
            Some(piece) => {
                out.append(piece.as_str());
            },
            // The scan ends where a step hands back nothing.
            None => {
                return out;
            },
        }
        i += 1;
    }
    assert(pieces.take(chars.len() as int) == pieces);
    out
}

/// Checks if a character is a separator.
pub fn is_separator(c: char) -> (r: bool)
    ensures
        r == separator(c),
{
    c == ' ' || c == '-' || c == '_'
}

/// Swaps the current character (which may be a separator) with the separator
/// of choice. ' ', '-', and '_' are the separators which will be swapped.
pub fn swap_separator(c: char, sep: char) -> (r: char)
    ensures
        r == swapped(c, sep),
{
    if is_separator(c) {
        sep
    } else {
        c
    }
}

/// Swaps every separator among the characters with the separator of choice.
pub fn swap_separators(chars: &Vec<char>, sep: char) -> (r: Vec<char>)
    ensures
        r@ == separators_swapped(chars@, sep),
{
    let mut out: Vec<char> = Vec::new();
    let mut i: usize = 0;
    while i < chars.len()
        invariant
            i <= chars.len(),
            out.len() == i,
            forall|j: int| 0 <= j < i ==> out@[j] == swapped(chars@[j], sep),
        decreases chars.len() - i,
    {
        out.push(swap_separator(chars[i], sep));
        i += 1;
    }
    out
}

/// The first character of the sequence, if it has one.
pub open spec fn head(s: Seq<char>) -> Option<char> {
    if s.len() > 0 {
        Some(s[0])
    } else {
        None
    }
}

/// The sequence without its first character; an empty sequence stays empty.
pub open spec fn tail(s: Seq<char>) -> Seq<char> {
    if s.len() > 0 {
        s.drop_first()
    } else {
        s
    }
}

/// Scanner that breaks apart camelCased strings: it hands out the characters
/// it was made with one by one, and the separator after every lowercase
/// character that an uppercase one follows.
pub struct BreakCamel {
    /// The source characters.
    chars: Vec<char>,
    /// How many source characters have been handed out.
    pos: usize,
    /// Character to use when breaking apart camelCase strings.
    sep: char,
    /// Whether the next character to hand out is a break.
    br: bool,
}

impl BreakCamel {
    /// The position lies within the source.
    #[verifier::type_invariant]
    spec fn well_formed(self) -> bool {
        self.pos <= self.chars.len()
    }

    /// The characters that the scanner has yet to hand out.
    pub closed spec fn remaining(self) -> Seq<char> {
        let pending = if self.br {
            seq![self.sep]
        } else {
            Seq::empty()
        };
        pending + break_pieces(self.chars@, self.sep).skip(self.pos as int).flatten()
    }

    /// Hands out the next character, or `None` once all are out.
    pub fn next(&mut self) -> (r: Option<char>)
        ensures
            r == head(old(self).remaining()),
            final(self).remaining() == tail(old(self).remaining()),
    {
        proof {
            use_type_invariant(&*self);
        }
        let ghost pieces = break_pieces(self.chars@, self.sep);
        // If we have been signaled to break, the next item is a separator and
        // we should disable break mode.
        if self.br {
            self.br = false;
            return Some(self.sep);
        }
        if self.pos < self.chars.len() {
            let curr = self.chars[self.pos];
            proof {
                lemma_flatten_skip_next(pieces, self.pos as int);
            }
            self.pos = self.pos + 1;
            // If the current character is lowercase and the next one is
            // uppercase, the string is broken apart on the next call.
            if self.pos < self.chars.len() && curr.is_lowercase()
                && self.chars[self.pos].is_uppercase() {
                self.br = true;
            }
            Some(curr)
        } else {
            None
        }
    }

    /// Hands out all the characters that are left.
    pub fn collect(self) -> (r: Vec<char>)
        ensures
            r@ == self.remaining(),
    {
        let mut scanner = self;
        let mut out: Vec<char> = Vec::new();
        loop
            invariant
                out@ + scanner.remaining() == self.remaining(),
            ensures
                out@ == self.remaining(),
            decreases scanner.remaining().len(),
        {
            match scanner.next() {
                Some(c) => {
                    out.push(c);
                },
                None => {
                    break ;
                },
            }
        }
        out
    }
}

/// Breaks apart camel case strings, i.e. strings like `helloWorld` to
/// `hello world`, using the `sep` argument to separate the new words.
pub fn break_camel(chars: Vec<char>, sep: char) -> (r: BreakCamel)
    ensures
        r.remaining() == camel_broken(chars@, sep),
{
    let r = BreakCamel { chars, pos: 0, sep, br: false };
    assert(break_pieces(chars@, sep).skip(0) == break_pieces(chars@, sep));
    r
}

/// Scanner that capitalizes words: it hands out the characters it was made
/// with one by one, with the uppercase mapping in place of the first
/// character of every word.
pub struct CapitalizeWords {
    /// The source characters.
    chars: Vec<char>,
    /// How many source characters have been taken up.
    pos: usize,
    /// Whether the next source character is to be capitalized.
    cap: bool,
    /// The uppercase mapping of the character being capitalized.
    upper: Vec<char>,
    /// How many characters of `upper` have been handed out.
    drained: usize,
}

impl CapitalizeWords {
    /// The positions lie within the source and the mapping, and a character
    /// that is to be capitalized is no separator.
    #[verifier::type_invariant]
    spec fn well_formed(self) -> bool {
        &&& self.pos <= self.chars.len()
        &&& self.drained <= self.upper.len()
        &&& self.cap && self.pos < self.chars.len() ==> !separator(self.chars@[self.pos as int])
    }

    /// What the source characters that are left will come out as.
    spec fn ahead(self) -> Seq<char> {
        if self.pos >= self.chars.len() {
            Seq::empty()
        } else {
            let front = if self.cap {
                uppercase_of(self.chars@[self.pos as int])
            } else {
                seq![self.chars@[self.pos as int]]
            };
            front + capital_pieces(self.chars@).skip(self.pos + 1).flatten()
        }
    }

    /// The characters that the scanner has yet to hand out.
    pub closed spec fn remaining(self) -> Seq<char> {
        self.upper@.skip(self.drained as int) + self.ahead()
    }

    /// Hands out the next character, or `None` once all are out.
    pub fn next(&mut self) -> (r: Option<char>)
        ensures
            r == head(old(self).remaining()),
            final(self).remaining() == tail(old(self).remaining()),
    {
        let ghost pieces = capital_pieces(self.chars@);
        // Only one control path lets this loop go round again.
        loop
            invariant
                self.remaining() == old(self).remaining(),
                self.chars == old(self).chars,
                pieces == capital_pieces(self.chars@),
            decreases self.chars.len() - self.pos, self.upper.len() - self.drained,
        {
            proof {
                use_type_invariant(&*self);
            }
            // If there is an upper casing still in progress, hand out its
            // next character.
            if self.drained < self.upper.len() {
                let next = self.upper[self.drained];
                self.drained = self.drained + 1;
                return Some(next);
            }
            if self.pos < self.chars.len() {
                let c = self.chars[self.pos];
                proof {
                    if self.pos + 1 < self.chars.len() {
                        lemma_flatten_skip_next(pieces, self.pos + 1);
                    }
                }
                if self.cap {
                    // We have been signaled to capitalize this character:
                    // disable the signal and start on its uppercase mapping.
                    self.cap = false;
                    self.drained = 0;
                    self.upper = to_uppercase(c);
                    self.pos = self.pos + 1;
                } else {
                    // Otherwise hand out the character, but if it is a
                    // separator, and the next character is not one, signal
                    // that the next character should be capitalized.
                    self.pos = self.pos + 1;
                    if is_separator(c) && !(self.pos < self.chars.len() && is_separator(
                        self.chars[self.pos],
                    )) {
                        self.cap = true;
                    }
                    return Some(c);
                }
            } else {
                return None;
            }
        }
    }

    /// Hands out all the characters that are left.
    pub fn collect(self) -> (r: Vec<char>)
        ensures
            r@ == self.remaining(),
    {
        let mut scanner = self;
        let mut out: Vec<char> = Vec::new();
        loop
            invariant
                out@ + scanner.remaining() == self.remaining(),
            ensures
                out@ == self.remaining(),
            decreases scanner.remaining().len(),
        {
            match scanner.next() {
                Some(c) => {
                    out.push(c);
                },
                None => {
                    break ;
                },
            }
        }
        out
    }
}

/// Capitalizes the individual words among the characters, a word being a
/// run of characters between separators.
pub fn capitalize_words(chars: Vec<char>) -> (r: CapitalizeWords)
    ensures
        r.remaining() == capitalized(chars@),
{
    // If the first character is not a separator, we want to capitalize it.
    let cap = !(chars.len() > 0 && is_separator(chars[0]));
    let r = CapitalizeWords { chars, pos: 0, cap, upper: Vec::new(), drained: 0 };
    proof {
        let pieces = capital_pieces(chars@);
        if chars.len() > 0 {
            lemma_flatten_skip_next(pieces, 0);
        }
    }
    r
}

} // verus!
