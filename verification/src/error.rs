//! Validation errors, all detected at construction time.

use vstd::prelude::*;

verus! {

/// One of the four fixed character categories.
#[derive(Clone, Copy, Debug, PartialEq, Eq, Structural)]
pub enum Category {
    Upper,
    Lower,
    Digit,
    Special,
}

/// The category's lower-case name.
pub open spec fn category_name(c: Category) -> Seq<char> {
    match c {
        Category::Upper => "upper"@,
        Category::Lower => "lower"@,
        Category::Digit => "digit"@,
        Category::Special => "special"@,
    }
}

impl Category {
    /// The category's lower-case name.
    pub fn name(&self) -> (r: &'static str)
        ensures
            r@ == category_name(*self),
    {
        match self {
            Category::Upper => "upper",
            Category::Lower => "lower",
            Category::Digit => "digit",
            Category::Special => "special",
        }
    }
}

/// Why a generator could not be constructed.
#[derive(Clone, Copy, Debug, PartialEq, Eq, Structural)]
pub enum Error {
    /// The requested length is below the minimum password length.
    Length,
    /// The sum of the minimum character requirements exceeds the length
    /// (or does not fit in the count type at all).
    MinLimitExceeded,
    /// A category's pool, after exclusions, holds fewer characters than
    /// that category's required minimum.
    InsufficientCharacters(Category),
    /// Every category's pool is empty after exclusions, so no character
    /// is left to draw from.
    EmptyAlphabet,
}

/// The human-readable description of each error.
pub open spec fn message_of(e: Error) -> Seq<char> {
    match e {
        Error::Length => "Password length must be at least 8 characters. [Error::Length]"@,
        Error::MinLimitExceeded => "Sum of minimum character requirements exceeds password length. [Error::MinLimitExceeded]"@,
        Error::InsufficientCharacters(c) => "Insufficient characters available for "@
            + category_name(c) + ". [Error::InsufficientCharacters]"@,
        Error::EmptyAlphabet => "No characters remain to draw a password from. [Error::EmptyAlphabet]"@,
    }
}

impl Error {
    /// A human-readable description of the error.
    pub fn message(&self) -> (r: String)
        ensures
            r@ == message_of(*self),
    {
        match self {
            Error::Length => String::from_str(
                "Password length must be at least 8 characters. [Error::Length]",
            ),
            Error::MinLimitExceeded => String::from_str(
                "Sum of minimum character requirements exceeds password length. [Error::MinLimitExceeded]",
            ),
            Error::InsufficientCharacters(c) => {
                let mut s = String::from_str("Insufficient characters available for ");
                s.append(c.name());
                s.append(". [Error::InsufficientCharacters]");
                proof {
                    assert(s@ =~= message_of(*self));
                }
                s
            },
            Error::EmptyAlphabet => String::from_str(
                "No characters remain to draw a password from. [Error::EmptyAlphabet]",
            ),
        }
    }
}

} // verus!
