//! Conversions between the usual naming conventions of identifiers and
//! phrases: lower case, UPPER CASE, sentence case, Title Case, camelCase,
//! PascalCase, kebab-case, Train-Case, snake_case and CONSTANT_CASE.
//!
//! The functions live in [`case`]; [`Inflect`] offers them as methods on
//! `str`. What each of them yields is defined in [`model`], on sequences of
//! characters, and [`unicode`] holds what is taken from the standard library
//! about the case of a single character.
//!
//! The other modules hold what is proved of the conversions:
//! [`shapes`] says what a string in each convention looks like, [`laws`]
//! that converting twice is converting once, that separators stand for one
//! another and where words are parted, and [`words`] that one sequence of
//! words converts to the same string however it was spelled. [`pieces`] and
//! [`concat`] hold the lemmas that these proofs share.

use vstd::prelude::*;
use crate::model::{
    camel_case, constant_case, kebab_case, lower_case, pascal_case, sentence_case, snake_case,
    title_case, train_case, upper_case,
};

pub mod case;
pub mod concat;
pub mod laws;
pub mod model;
pub mod pieces;
pub mod shapes;
pub mod text;
pub mod unicode;
pub mod words;

verus! {

/// An extension trait to make the functions in the `case` module available as
/// methods on the `str` type.
pub trait Inflect {
    /// The characters of the value.
    spec fn text(&self) -> Seq<char>;

    /// The value converted into UPPER CASE.
    fn to_upper_case(&self) -> (r: String)
        ensures
            r@ == upper_case(self.text()),
    ;

    /// Whether the value is in UPPER CASE.
    fn is_upper_case(&self) -> (r: bool)
        ensures
            r == (upper_case(self.text()) == self.text()),
    ;

    /// The value converted into lower case.
    fn to_lower_case(&self) -> (r: String)
        ensures
            r@ == lower_case(self.text()),
    ;

    /// Whether the value is in lower case.
    fn is_lower_case(&self) -> (r: bool)
        ensures
            r == (lower_case(self.text()) == self.text()),
    ;

    /// The value converted into sentence case.
    fn to_sentence_case(&self) -> (r: String)
        ensures
            r@ == sentence_case(self.text()),
    ;

    /// Whether the value is in sentence case.
    fn is_sentence_case(&self) -> (r: bool)
        ensures
            r == (sentence_case(self.text()) == self.text()),
    ;

    /// The value converted into Title Case.
    fn to_title_case(&self) -> (r: String)
        ensures
            r@ == title_case(self.text()),
    ;

    /// Whether the value is in Title Case.
    fn is_title_case(&self) -> (r: bool)
        ensures
            r == (title_case(self.text()) == self.text()),
    ;

    /// The value converted into camelCase.
    fn to_camel_case(&self) -> (r: String)
        ensures
            r@ == camel_case(self.text()),
    ;

    /// Whether the value is in camelCase.
    fn is_camel_case(&self) -> (r: bool)
        ensures
            r == (camel_case(self.text()) == self.text()),
    ;

    /// The value converted into PascalCase.
    fn to_pascal_case(&self) -> (r: String)
        ensures
            r@ == pascal_case(self.text()),
    ;

    /// Whether the value is in PascalCase.
    fn is_pascal_case(&self) -> (r: bool)
        ensures
            r == (pascal_case(self.text()) == self.text()),
    ;

    /// The value converted into kebab-case.
    fn to_kebab_case(&self) -> (r: String)
        ensures
            r@ == kebab_case(self.text()),
    ;

    /// Whether the value is in kebab-case.
    fn is_kebab_case(&self) -> (r: bool)
        ensures
            r == (kebab_case(self.text()) == self.text()),
    ;

    /// The value converted into Train-Case.
    fn to_train_case(&self) -> (r: String)
        ensures
            r@ == train_case(self.text()),
    ;

    /// Whether the value is in Train-Case.
    fn is_train_case(&self) -> (r: bool)
        ensures
            r == (train_case(self.text()) == self.text()),
    ;

    /// The value converted into snake_case.
    fn to_snake_case(&self) -> (r: String)
        ensures
            r@ == snake_case(self.text()),
    ;

    /// Whether the value is in snake_case.
    fn is_snake_case(&self) -> (r: bool)
        ensures
            r == (snake_case(self.text()) == self.text()),
    ;

    /// The value converted into CONSTANT_CASE.
    fn to_constant_case(&self) -> (r: String)
        ensures
            r@ == constant_case(self.text()),
    ;

    /// Whether the value is in CONSTANT_CASE.
    fn is_constant_case(&self) -> (r: bool)
        ensures
            r == (constant_case(self.text()) == self.text()),
    ;
}

impl Inflect for str {
    open spec fn text(&self) -> Seq<char> {
        self@
    }

    #[inline]
    fn to_upper_case(&self) -> (r: String) {
        case::to_upper_case(self)
    }

    #[inline]
    fn is_upper_case(&self) -> (r: bool) {
        case::is_upper_case(self)
    }

    #[inline]
    fn to_lower_case(&self) -> (r: String) {
        case::to_lower_case(self)
    }

    #[inline]
    fn is_lower_case(&self) -> (r: bool) {
        case::is_lower_case(self)
    }

    #[inline]
    fn to_sentence_case(&self) -> (r: String) {
        case::to_sentence_case(self)
    }

    #[inline]
    fn is_sentence_case(&self) -> (r: bool) {
        case::is_sentence_case(self)
    }

    #[inline]
    fn to_title_case(&self) -> (r: String) {
        case::to_title_case(self)
    }

    #[inline]
    fn is_title_case(&self) -> (r: bool) {
        case::is_title_case(self)
    }

    #[inline]
    fn to_camel_case(&self) -> (r: String) {
        case::to_camel_case(self)
    }

    #[inline]
    fn is_camel_case(&self) -> (r: bool) {
        case::is_camel_case(self)
    }

    #[inline]
    fn to_pascal_case(&self) -> (r: String) {
        case::to_pascal_case(self)
    }

    #[inline]
    fn is_pascal_case(&self) -> (r: bool) {
        case::is_pascal_case(self)
    }

    #[inline]
    fn to_kebab_case(&self) -> (r: String) {
        case::to_kebab_case(self)
    }

    #[inline]
    fn is_kebab_case(&self) -> (r: bool) {
        case::is_kebab_case(self)
    }

    #[inline]
    fn to_train_case(&self) -> (r: String) {
        case::to_train_case(self)
    }

    #[inline]
    fn is_train_case(&self) -> (r: bool) {
        case::is_train_case(self)
    }

    #[inline]
    fn to_snake_case(&self) -> (r: String) {
        case::to_snake_case(self)
    }

    #[inline]
    fn is_snake_case(&self) -> (r: bool) {
        case::is_snake_case(self)
    }

    #[inline]
    fn to_constant_case(&self) -> (r: String) {
        case::to_constant_case(self)
    }

    #[inline]
    fn is_constant_case(&self) -> (r: bool) {
        case::is_constant_case(self)
    }
}

} // verus!
