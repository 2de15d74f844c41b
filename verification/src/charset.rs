//! The four fixed character categories: uppercase letters, lowercase
//! letters, digits, and a fixed 32-character special set.

use vstd::prelude::*;

verus! {

/// The uppercase category domain, `A` through `Z`.
pub open spec fn upper_chars() -> Seq<char> {
    seq![
        'A', 'B', 'C', 'D', 'E', 'F', 'G', 'H', 'I', 'J', 'K', 'L', 'M',
        'N', 'O', 'P', 'Q', 'R', 'S', 'T', 'U', 'V', 'W', 'X', 'Y', 'Z',
    ]
}

/// The lowercase category domain, `a` through `z`.
pub open spec fn lower_chars() -> Seq<char> {
    seq![
        'a', 'b', 'c', 'd', 'e', 'f', 'g', 'h', 'i', 'j', 'k', 'l', 'm',
        'n', 'o', 'p', 'q', 'r', 's', 't', 'u', 'v', 'w', 'x', 'y', 'z',
    ]
}

/// The digit category domain, `0` through `9`.
pub open spec fn digit_chars() -> Seq<char> {
    seq!['0', '1', '2', '3', '4', '5', '6', '7', '8', '9']
}

/// The special category domain: a fixed set of 32 punctuation and symbol
/// characters.
pub open spec fn special_chars() -> Seq<char> {
    seq![
        '!', '@', '#', '$', '%', '^', '&', '*', '(', ')', '_', '+', '-',
        '=', '{', '}', '[', ']', '|', ':', ';', '"', '\'', '<', '>', ',',
        '.', '?', '/', '~', '\\', '`',
    ]
}

/// The uppercase domain as an owned vector.
pub fn upper_domain() -> (r: Vec<char>)
    ensures
        r@ == upper_chars(),
{
    let r: Vec<char> = vec![
        'A', 'B', 'C', 'D', 'E', 'F', 'G', 'H', 'I', 'J', 'K', 'L', 'M',
        'N', 'O', 'P', 'Q', 'R', 'S', 'T', 'U', 'V', 'W', 'X', 'Y', 'Z',
    ];
    proof {
        assert(r@ =~= upper_chars());
    }
    r
}

/// The lowercase domain as an owned vector.
pub fn lower_domain() -> (r: Vec<char>)
    ensures
        r@ == lower_chars(),
{
    let r: Vec<char> = vec![
        'a', 'b', 'c', 'd', 'e', 'f', 'g', 'h', 'i', 'j', 'k', 'l', 'm',
        'n', 'o', 'p', 'q', 'r', 's', 't', 'u', 'v', 'w', 'x', 'y', 'z',
    ];
    proof {
        assert(r@ =~= lower_chars());
    }
    r
}

/// The digit domain as an owned vector.
pub fn digit_domain() -> (r: Vec<char>)
    ensures
        r@ == digit_chars(),
{
    let r: Vec<char> = vec!['0', '1', '2', '3', '4', '5', '6', '7', '8', '9'];
    proof {
        assert(r@ =~= digit_chars());
    }
    r
}

/// The special domain as an owned vector.
pub fn special_domain() -> (r: Vec<char>)
    ensures
        r@ == special_chars(),
{
    let r: Vec<char> = vec![
        '!', '@', '#', '$', '%', '^', '&', '*', '(', ')', '_', '+', '-',
        '=', '{', '}', '[', ']', '|', ':', ';', '"', '\'', '<', '>', ',',
        '.', '?', '/', '~', '\\', '`',
    ];
    proof {
        assert(r@ =~= special_chars());
    }
    r
}

} // verus!
