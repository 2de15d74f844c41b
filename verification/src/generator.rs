//! Validated construction of a password generator, and generation itself.

use vstd::prelude::*;
use vstd::seq_lib::group_to_multiset_ensures;
use vstd::std_specs::iter::IteratorSpec;

use crate::charset::{
    digit_chars, digit_domain, lower_chars, lower_domain, special_chars, special_domain,
    upper_chars, upper_domain,
};
use crate::counting::{
    count_matching, lemma_count_matching_extend, lemma_count_matching_extend_within,
    lemma_count_matching_permutation,
};
use crate::error::{Category, Error};
use crate::random::{choose_char, shuffle_chars};
use crate::util::filter::{excl_seq, filtered, filtered_range, lemma_filtered_subset};
use crate::util::uint::{checked_sum, sum_values};

verus! {

/// The smallest password length that construction accepts.
pub const MIN_LENGTH: usize = 8;

/// Configuration options for a password generator: a minimum count for
/// each character category, and an optional set of characters to exclude
/// from every pool.
#[derive(Debug, PartialEq, Eq, Clone)]
pub struct PwdGenOptions {
    pub min_upper: usize,
    pub min_lower: usize,
    pub min_digit: usize,
    pub min_special: usize,
    pub exclude: Option<String>,
}

impl Default for PwdGenOptions {
    /// No minimums and no exclusions.
    fn default() -> (r: Self)
        ensures
            r == (PwdGenOptions {
                min_upper: 0,
                min_lower: 0,
                min_digit: 0,
                min_special: 0,
                exclude: None,
            }),
    {
        PwdGenOptions { min_upper: 0, min_lower: 0, min_digit: 0, min_special: 0, exclude: None }
    }
}

/// The options used when the caller supplies none.
pub open spec fn opts_or_default(options: Option<PwdGenOptions>) -> PwdGenOptions {
    match options {
        Some(o) => o,
        None => PwdGenOptions {
            min_upper: 0,
            min_lower: 0,
            min_digit: 0,
            min_special: 0,
            exclude: None,
        },
    }
}

/// The set of excluded characters, as the sequence of characters of the
/// exclusion string; an absent string excludes nothing.
pub open spec fn spec_exclusions(options: PwdGenOptions) -> Seq<char> {
    match options.exclude {
        Some(s) => s@,
        None => Seq::empty(),
    }
}

/// The sum of the four category minimums, as an unbounded integer.
pub open spec fn min_total(options: PwdGenOptions) -> int {
    options.min_upper + options.min_lower + options.min_digit + options.min_special
}

/// The combined alphabet: the four filtered pools, concatenated in the
/// fixed category order.
pub open spec fn combined_pool(options: PwdGenOptions) -> Seq<char> {
    let e = spec_exclusions(options);
    filtered(upper_chars(), e) + filtered(lower_chars(), e) + filtered(digit_chars(), e)
        + filtered(special_chars(), e)
}

/// The error that validation reports for the given inputs, or `None` when
/// construction succeeds. Checks run in a fixed order and the first
/// failure wins.
pub open spec fn validation_error(length: usize, options: PwdGenOptions) -> Option<Error> {
    let e = spec_exclusions(options);
    if length < MIN_LENGTH {
        Some(Error::Length)
    } else if min_total(options) > length {
        Some(Error::MinLimitExceeded)
    } else if filtered(upper_chars(), e).len() < options.min_upper {
        Some(Error::InsufficientCharacters(Category::Upper))
    } else if filtered(lower_chars(), e).len() < options.min_lower {
        Some(Error::InsufficientCharacters(Category::Lower))
    } else if filtered(digit_chars(), e).len() < options.min_digit {
        Some(Error::InsufficientCharacters(Category::Digit))
    } else if filtered(special_chars(), e).len() < options.min_special {
        Some(Error::InsufficientCharacters(Category::Special))
    } else if combined_pool(options).len() == 0 {
        Some(Error::EmptyAlphabet)
    } else {
        None
    }
}

/// The characters of `s`, in order, as an owned vector.
fn chars_of(s: &str) -> (r: Vec<char>)
    ensures
        r@ == s@,
{
    broadcast use vstd::string::axiom_spec_iter, vstd::string::next_postcondition;

    let mut it = s.chars();
    let mut r: Vec<char> = Vec::new();
    proof {
        assert(s@ =~= r@ + it.remaining());
    }
    loop
        invariant
            s@ == r@ + it.remaining(),
            it.decrease() is Some,
        decreases it.decrease()->0,
    {
        let next = it.next();
        match next {
            Some(c) => {
                r.push(c);
                proof {
                    assert(s@ =~= r@ + it.remaining());
                }
            },
            None => {
                proof {
                    assert(r@ =~= s@);
                }
                return r;
            },
        }
    }
}

/// Relies on `String`'s `FromIterator<char>` implementation: collecting
/// an iterator of characters yields a string of exactly those characters,
/// in order.
#[verifier::external_body]
fn string_from_chars(chars: &Vec<char>) -> (r: String)
    ensures
        r@ == chars@,
{
    chars.iter().collect()
}

proof fn lemma_concat_contains(a: Seq<char>, b: Seq<char>, x: char)
    requires
        a.contains(x) || b.contains(x),
    ensures
        (a + b).contains(x),
{
    if a.contains(x) {
        let i = choose|i: int| 0 <= i < a.len() && a[i] == x;
        assert((a + b)[i] == x);
    } else {
        let i = choose|i: int| 0 <= i < b.len() && b[i] == x;
        assert((a + b)[a.len() + i] == x);
    }
}

proof fn lemma_pool_in_charset(u: Seq<char>, l: Seq<char>, d: Seq<char>, s: Seq<char>, x: char)
    requires
        u.contains(x) || l.contains(x) || d.contains(x) || s.contains(x),
    ensures
        (u + l + d + s).contains(x),
{
    if u.contains(x) || l.contains(x) {
        lemma_concat_contains(u, l, x);
    }
    if (u + l).contains(x) || d.contains(x) {
        lemma_concat_contains(u + l, d, x);
    }
    lemma_concat_contains(u + l + d, s, x);
}

proof fn lemma_concat_split(a: Seq<char>, b: Seq<char>, x: char)
    requires
        (a + b).contains(x),
    ensures
        a.contains(x) || b.contains(x),
{
    let i = choose|i: int| 0 <= i < (a + b).len() && (a + b)[i] == x;
    if i < a.len() {
        assert(a[i] == x);
    } else {
        assert(b[i - a.len()] == x);
    }
}

/// Every character of the combined alphabet belongs to one of the four
/// filtered pools, so none of them is excluded.
pub proof fn lemma_combined_pool_not_excluded(options: PwdGenOptions)
    ensures
        forall|c: char|
            #[trigger] combined_pool(options).contains(c) ==> !spec_exclusions(options).contains(c),
{
    let e = spec_exclusions(options);
    let u = filtered(upper_chars(), e);
    let l = filtered(lower_chars(), e);
    let d = filtered(digit_chars(), e);
    let s = filtered(special_chars(), e);
    lemma_filtered_subset(upper_chars(), e);
    lemma_filtered_subset(lower_chars(), e);
    lemma_filtered_subset(digit_chars(), e);
    lemma_filtered_subset(special_chars(), e);
    assert forall|c: char| #[trigger] combined_pool(options).contains(c) implies !e.contains(c) by {
        lemma_concat_split(u + l + d, s, c);
        if (u + l + d).contains(c) {
            lemma_concat_split(u + l, d, c);
            if (u + l).contains(c) {
                lemma_concat_split(u, l, c);
            }
        }
    }
}

/// The four filtered pools produced by a successful validation.
pub struct CharacterSet {
    pub upper: Vec<char>,
    pub lower: Vec<char>,
    pub digit: Vec<char>,
    pub special: Vec<char>,
}

/// A password generator: a validated length, the options it was built
/// from, the four filtered pools, and their concatenation.
pub struct PwdGen {
    length: usize,
    options: PwdGenOptions,
    charset: Vec<char>,
    upper: Vec<char>,
    lower: Vec<char>,
    digit: Vec<char>,
    special: Vec<char>,
}

impl PwdGen {
    /// The validated target length.
    pub closed spec fn spec_length(&self) -> usize {
        self.length
    }

    /// The options the generator was constructed with.
    pub closed spec fn spec_options(&self) -> PwdGenOptions {
        self.options
    }

    #[verifier::type_invariant]
    spec fn wf(self) -> bool {
        let e = spec_exclusions(self.options);
        &&& self.length >= MIN_LENGTH
        &&& min_total(self.options) <= self.length
        &&& self.upper@ == filtered(upper_chars(), e)
        &&& self.lower@ == filtered(lower_chars(), e)
        &&& self.digit@ == filtered(digit_chars(), e)
        &&& self.special@ == filtered(special_chars(), e)
        &&& self.charset@ == self.upper@ + self.lower@ + self.digit@ + self.special@
        &&& self.upper@.len() >= self.options.min_upper
        &&& self.lower@.len() >= self.options.min_lower
        &&& self.digit@.len() >= self.options.min_digit
        &&& self.special@.len() >= self.options.min_special
        &&& self.charset@.len() > 0
    }

    /// Checks the requested length and options for feasibility, in the
    /// fixed order that `validation_error` describes, and produces the
    /// four filtered pools on success.
    pub fn validate_input(length: usize, options: &PwdGenOptions) -> (r: Result<
        CharacterSet,
        Error,
    >)
        ensures
            match r {
                Ok(cs) => {
                    &&& validation_error(length, *options) is None
                    &&& cs.upper@ == filtered(upper_chars(), spec_exclusions(*options))
                    &&& cs.lower@ == filtered(lower_chars(), spec_exclusions(*options))
                    &&& cs.digit@ == filtered(digit_chars(), spec_exclusions(*options))
                    &&& cs.special@ == filtered(special_chars(), spec_exclusions(*options))
                },
                Err(e) => validation_error(length, *options) == Some(e),
            },
    {
        if length < MIN_LENGTH {
            return Err(Error::Length);
        }
        let mut mins: Vec<usize> = Vec::new();
        mins.push(options.min_upper);
        mins.push(options.min_lower);
        mins.push(options.min_digit);
        mins.push(options.min_special);
        proof {
            let m = mins@;
            let s1 = seq![options.min_upper];
            let s2 = seq![options.min_upper, options.min_lower];
            let s3 = seq![options.min_upper, options.min_lower, options.min_digit];
            assert(s1.drop_last() =~= Seq::<usize>::empty());
            assert(sum_values(Seq::<usize>::empty()) == 0);
            assert(sum_values(s1) == options.min_upper);
            assert(s2.drop_last() =~= s1);
            assert(sum_values(s2) == options.min_upper + options.min_lower);
            assert(s3.drop_last() =~= s2);
            assert(sum_values(s3) == options.min_upper + options.min_lower + options.min_digit);
            assert(m.drop_last() =~= s3);
            assert(sum_values(m) == min_total(*options));
        }
        let min_sum = checked_sum(&mins);
        match min_sum {
            None => {
                return Err(Error::MinLimitExceeded);
            },
            Some(total) => {
                if total > length {
                    return Err(Error::MinLimitExceeded);
                }
            },
        }
        let exclude: Option<Vec<char>> = match &options.exclude {
            Some(s) => Some(chars_of(s.as_str())),
            None => None,
        };
        proof {
            assert(excl_seq(exclude) == spec_exclusions(*options));
        }
        let upper = filtered_range(&upper_domain(), &exclude);
        if upper.len() < options.min_upper {
            return Err(Error::InsufficientCharacters(Category::Upper));
        }
        let lower = filtered_range(&lower_domain(), &exclude);
        if lower.len() < options.min_lower {
            return Err(Error::InsufficientCharacters(Category::Lower));
        }
        let digit = filtered_range(&digit_domain(), &exclude);
        if digit.len() < options.min_digit {
            return Err(Error::InsufficientCharacters(Category::Digit));
        }
        let special = filtered_range(&special_domain(), &exclude);
        if special.len() < options.min_special {
            return Err(Error::InsufficientCharacters(Category::Special));
        }
        if upper.len() == 0 && lower.len() == 0 && digit.len() == 0 && special.len() == 0 {
            return Err(Error::EmptyAlphabet);
        }
        Ok(CharacterSet { upper, lower, digit, special })
    }

    /// Builds a generator for the requested length under the given
    /// options (the default options when `None`), or reports the first
    /// validation failure.
    pub fn new(length: usize, options: Option<PwdGenOptions>) -> (r: Result<PwdGen, Error>)
        ensures
            ({
                let o = opts_or_default(options);
                match r {
                    Ok(g) => {
                        &&& validation_error(length, o) is None
                        &&& g.spec_length() == length
                        &&& g.spec_options() == o
                    },
                    Err(e) => validation_error(length, o) == Some(e),
                }
            }),
    {
        let options = match options {
            Some(o) => o,
            None => PwdGenOptions::default(),
        };
        let cset = match Self::validate_input(length, &options) {
            Ok(c) => c,
            Err(e) => {
                return Err(e);
            },
        };
        let mut charset: Vec<char> = Vec::new();
        extend_chars(&mut charset, &cset.upper);
        extend_chars(&mut charset, &cset.lower);
        extend_chars(&mut charset, &cset.digit);
        extend_chars(&mut charset, &cset.special);
        proof {
            assert(charset@ =~= cset.upper@ + cset.lower@ + cset.digit@ + cset.special@);
        }
        Ok(
            PwdGen {
                length,
                options,
                charset,
                upper: cset.upper,
                lower: cset.lower,
                digit: cset.digit,
                special: cset.special,
            },
        )
    }

    /// Generates one password: a string of exactly the validated length,
    /// holding at least the required number of characters of each
    /// category, every character drawn from the combined alphabet (and so
    /// none of them excluded).
    pub fn gen(&self) -> (r: String)
        ensures
            r@.len() == self.spec_length(),
            count_matching(r@, upper_chars()) >= self.spec_options().min_upper,
            count_matching(r@, lower_chars()) >= self.spec_options().min_lower,
            count_matching(r@, digit_chars()) >= self.spec_options().min_digit,
            count_matching(r@, special_chars()) >= self.spec_options().min_special,
            forall|i: int|
                0 <= i < r@.len() ==> combined_pool(self.spec_options()).contains(
                    #[trigger] r@[i],
                ),
            forall|i: int|
                0 <= i < r@.len() ==> !spec_exclusions(self.spec_options()).contains(
                    #[trigger] r@[i],
                ),
    {
        proof {
            use_type_invariant(&*self);
        }
        let ghost e = spec_exclusions(self.options);
        let ghost cs = self.charset@;
        proof {
            assert forall|x: char| self.upper@.contains(x) implies cs.contains(x) by {
                lemma_pool_in_charset(self.upper@, self.lower@, self.digit@, self.special@, x);
            }
            assert forall|x: char| self.lower@.contains(x) implies cs.contains(x) by {
                lemma_pool_in_charset(self.upper@, self.lower@, self.digit@, self.special@, x);
            }
            assert forall|x: char| self.digit@.contains(x) implies cs.contains(x) by {
                lemma_pool_in_charset(self.upper@, self.lower@, self.digit@, self.special@, x);
            }
            assert forall|x: char| self.special@.contains(x) implies cs.contains(x) by {
                lemma_pool_in_charset(self.upper@, self.lower@, self.digit@, self.special@, x);
            }
        }
        let mut chars: Vec<char> = Vec::new();

        let ghost c0 = chars@;
        Self::add_random_chars(&mut chars, &self.upper, self.options.min_upper, Ghost(cs));
        let ghost c1 = chars@;
        proof {
            lemma_filtered_subset(upper_chars(), e);
            assert forall|i: int| c0.len() <= i < c1.len() implies upper_chars().contains(
                #[trigger] c1[i],
            ) by {
                assert(self.upper@.contains(c1[i]));
            }
            lemma_count_matching_extend_within(c0, c1, upper_chars());
        }
        Self::add_random_chars(&mut chars, &self.lower, self.options.min_lower, Ghost(cs));
        let ghost c2 = chars@;
        proof {
            lemma_filtered_subset(lower_chars(), e);
            assert forall|i: int| c1.len() <= i < c2.len() implies lower_chars().contains(
                #[trigger] c2[i],
            ) by {
                assert(self.lower@.contains(c2[i]));
            }
            lemma_count_matching_extend(c1, c2, upper_chars());
            lemma_count_matching_extend_within(c1, c2, lower_chars());
        }
        Self::add_random_chars(&mut chars, &self.digit, self.options.min_digit, Ghost(cs));
        let ghost c3 = chars@;
        proof {
            lemma_filtered_subset(digit_chars(), e);
            assert forall|i: int| c2.len() <= i < c3.len() implies digit_chars().contains(
                #[trigger] c3[i],
            ) by {
                assert(self.digit@.contains(c3[i]));
            }
            lemma_count_matching_extend(c2, c3, upper_chars());
            lemma_count_matching_extend(c2, c3, lower_chars());
            lemma_count_matching_extend_within(c2, c3, digit_chars());
        }
        Self::add_random_chars(&mut chars, &self.special, self.options.min_special, Ghost(cs));
        let ghost c4 = chars@;
        proof {
            lemma_filtered_subset(special_chars(), e);
            assert forall|i: int| c3.len() <= i < c4.len() implies special_chars().contains(
                #[trigger] c4[i],
            ) by {
                assert(self.special@.contains(c4[i]));
            }
            lemma_count_matching_extend(c3, c4, upper_chars());
            lemma_count_matching_extend(c3, c4, lower_chars());
            lemma_count_matching_extend(c3, c4, digit_chars());
            lemma_count_matching_extend_within(c3, c4, special_chars());
        }

        while chars.len() < self.length
            invariant
                self.wf(),
                cs == self.charset@,
                chars@.len() <= self.length,
                count_matching(chars@, upper_chars()) >= self.options.min_upper,
                count_matching(chars@, lower_chars()) >= self.options.min_lower,
                count_matching(chars@, digit_chars()) >= self.options.min_digit,
                count_matching(chars@, special_chars()) >= self.options.min_special,
                forall|i: int| 0 <= i < chars@.len() ==> cs.contains(#[trigger] chars@[i]),
            decreases self.length - chars@.len(),
        {
            let ghost prev = chars@;
            let c = choose_char(&self.charset);
            chars.push(c);
            proof {
                assert(chars@.subrange(0, prev.len() as int) =~= prev);
                lemma_count_matching_extend(prev, chars@, upper_chars());
                lemma_count_matching_extend(prev, chars@, lower_chars());
                lemma_count_matching_extend(prev, chars@, digit_chars());
                lemma_count_matching_extend(prev, chars@, special_chars());
            }
        }

        let ghost before = chars@;
        shuffle_chars(&mut chars);
        proof {
            broadcast use group_to_multiset_ensures;

            assert(chars@.to_multiset().len() == before.to_multiset().len());
            assert(chars@.len() == before.len());
            lemma_count_matching_permutation(before, chars@, upper_chars());
            lemma_count_matching_permutation(before, chars@, lower_chars());
            lemma_count_matching_permutation(before, chars@, digit_chars());
            lemma_count_matching_permutation(before, chars@, special_chars());
            assert(self.charset@ =~= combined_pool(self.options));
            assert forall|i: int| 0 <= i < chars@.len() implies combined_pool(
                self.spec_options(),
            ).contains(#[trigger] chars@[i]) by {
                assert(chars@.contains(chars@[i]));
                assert(chars@.to_multiset().count(chars@[i]) > 0);
                assert(before.contains(chars@[i]));
                let j = choose|j: int| 0 <= j < before.len() && before[j] == chars@[i];
                assert(cs.contains(before[j]));
            }
            lemma_combined_pool_not_excluded(self.options);
        }

        string_from_chars(&chars)
    }

    /// Appends `count` characters to `chars`, each drawn independently
    /// and uniformly at random from `range`.
    fn add_random_chars(
        chars: &mut Vec<char>,
        range: &Vec<char>,
        count: usize,
        Ghost(cs): Ghost<Seq<char>>,
    )
        requires
            count > 0 ==> range@.len() > 0,
            forall|x: char| range@.contains(x) ==> cs.contains(x),
            forall|i: int| 0 <= i < old(chars)@.len() ==> cs.contains(#[trigger] old(chars)@[i]),
        ensures
            final(chars)@.len() == old(chars)@.len() + count,
            final(chars)@.subrange(0, old(chars)@.len() as int) == old(chars)@,
            forall|i: int|
                old(chars)@.len() <= i < final(chars)@.len() ==> range@.contains(
                    #[trigger] final(chars)@[i],
                ),
            forall|i: int|
                0 <= i < final(chars)@.len() ==> cs.contains(#[trigger] final(chars)@[i]),
    {
        let mut n: usize = 0;
        while n < count
            invariant
                n <= count,
                count > 0 ==> range@.len() > 0,
                chars@.len() == old(chars)@.len() + n,
                chars@.subrange(0, old(chars)@.len() as int) == old(chars)@,
                forall|x: char| range@.contains(x) ==> cs.contains(x),
                forall|i: int|
                    old(chars)@.len() <= i < chars@.len() ==> range@.contains(
                        #[trigger] chars@[i],
                    ),
                forall|i: int| 0 <= i < chars@.len() ==> cs.contains(#[trigger] chars@[i]),
            decreases count - n,
        {
            let ghost prev = chars@;
            let c = choose_char(range);
            chars.push(c);
            proof {
                assert(chars@.subrange(0, old(chars)@.len() as int) =~= prev.subrange(
                    0,
                    old(chars)@.len() as int,
                ));
            }
            n += 1;
        }
    }

    /// The validated target length.
    pub fn length(&self) -> (r: usize)
        ensures
            r == self.spec_length(),
    {
        self.length
    }

    /// The options the generator was constructed with.
    pub fn options(&self) -> (r: &PwdGenOptions)
        ensures
            *r == self.spec_options(),
    {
        &self.options
    }
}

/// Builds a generator for `length` under `options` (the default options
/// when `None`) and produces a single password from it.
pub fn gen(length: usize, options: Option<PwdGenOptions>) -> (r: Result<String, Error>)
    ensures
        ({
            let o = opts_or_default(options);
            match r {
                Ok(p) => {
                    &&& validation_error(length, o) is None
                    &&& p@.len() == length
                    &&& count_matching(p@, upper_chars()) >= o.min_upper
                    &&& count_matching(p@, lower_chars()) >= o.min_lower
                    &&& count_matching(p@, digit_chars()) >= o.min_digit
                    &&& count_matching(p@, special_chars()) >= o.min_special
                    &&& forall|i: int|
                        0 <= i < p@.len() ==> !spec_exclusions(o).contains(#[trigger] p@[i])
                },
                Err(e) => validation_error(length, o) == Some(e),
            }
        }),
{
    let pwdgen = match PwdGen::new(length, options) {
        Ok(g) => g,
        Err(e) => {
            return Err(e);
        },
    };
    Ok(pwdgen.gen())
}

/// A requested length below the minimum is always rejected as too short,
/// whatever the options say.
pub proof fn lemma_short_length_rejected(length: usize, options: PwdGenOptions)
    requires
        length < MIN_LENGTH,
    ensures
        validation_error(length, options) == Some(Error::Length),
{
}

/// Minimums whose sum exceeds the requested length are always rejected,
/// however large the sum — `min_total` is unbounded, so a sum too large
/// for the count type is rejected exactly like any other excessive sum.
pub proof fn lemma_minimums_exceed_length_rejected(length: usize, options: PwdGenOptions)
    requires
        length >= MIN_LENGTH,
        min_total(options) > length,
    ensures
        validation_error(length, options) == Some(Error::MinLimitExceeded),
{
}

/// When the length and the minimum sum are acceptable but some category's
/// filtered pool is smaller than that category's minimum, validation
/// fails with `InsufficientCharacters` naming the first such category in
/// the fixed order: upper, lower, digit, special.
pub proof fn lemma_insufficient_category_rejected(length: usize, options: PwdGenOptions)
    requires
        length >= MIN_LENGTH,
        min_total(options) <= length,
        ({
            let e = spec_exclusions(options);
            ||| filtered(upper_chars(), e).len() < options.min_upper
            ||| filtered(lower_chars(), e).len() < options.min_lower
            ||| filtered(digit_chars(), e).len() < options.min_digit
            ||| filtered(special_chars(), e).len() < options.min_special
        }),
    ensures
        ({
            let e = spec_exclusions(options);
            if filtered(upper_chars(), e).len() < options.min_upper {
                validation_error(length, options) == Some(
                    Error::InsufficientCharacters(Category::Upper),
                )
            } else if filtered(lower_chars(), e).len() < options.min_lower {
                validation_error(length, options) == Some(
                    Error::InsufficientCharacters(Category::Lower),
                )
            } else if filtered(digit_chars(), e).len() < options.min_digit {
                validation_error(length, options) == Some(
                    Error::InsufficientCharacters(Category::Digit),
                )
            } else {
                validation_error(length, options) == Some(
                    Error::InsufficientCharacters(Category::Special),
                )
            }
        }),
{
}

/// Validation is a pure function of its inputs: of two construction
/// results obtained from identical inputs, either both succeeded or both
/// failed.
pub proof fn lemma_validation_idempotent(
    length: usize,
    options: Option<PwdGenOptions>,
    r1: Result<PwdGen, Error>,
    r2: Result<PwdGen, Error>,
)
    requires
        r1 is Err <==> validation_error(length, opts_or_default(options)) is Some,
        r2 is Err <==> validation_error(length, opts_or_default(options)) is Some,
    ensures
        r1 is Ok <==> r2 is Ok,
{
}

/// Appends every character of `src` to `dst`, in order.
fn extend_chars(dst: &mut Vec<char>, src: &Vec<char>)
    ensures
        final(dst)@ == old(dst)@ + src@,
{
    let mut i: usize = 0;
    while i < src.len()
        invariant
            i <= src@.len(),
            dst@ == old(dst)@ + src@.subrange(0, i as int),
        decreases src@.len() - i,
    {
        dst.push(src[i]);
        proof {
            assert(old(dst)@ + src@.subrange(0, i as int + 1) =~= (old(dst)@ + src@.subrange(
                0,
                i as int,
            )).push(src@[i as int]));
        }
        i += 1;
    }
    proof {
        assert(src@.subrange(0, i as int) =~= src@);
    }
}

} // verus!
