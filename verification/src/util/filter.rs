//! Filtering a character domain against an exclusion set.

use vstd::prelude::*;

verus! {

/// The characters of `domain`, in their original order, with every
/// character that occurs in `excl` removed.
pub open spec fn filtered(domain: Seq<char>, excl: Seq<char>) -> Seq<char>
    decreases domain.len(),
{
    if domain.len() == 0 {
        Seq::empty()
    } else {
        let rest = filtered(domain.drop_last(), excl);
        if excl.contains(domain.last()) {
            rest
        } else {
            rest.push(domain.last())
        }
    }
}

/// The exclusion sequence denoted by an optional exclusion vector:
/// `None` excludes nothing.
pub open spec fn excl_seq(exclude: Option<Vec<char>>) -> Seq<char> {
    match exclude {
        Some(v) => v@,
        None => Seq::empty(),
    }
}

/// A filtered domain is no longer than the domain, and each of its
/// characters comes from the domain and is not excluded.
pub proof fn lemma_filtered_props(domain: Seq<char>, excl: Seq<char>)
    ensures
        filtered(domain, excl).len() <= domain.len(),
        forall|i: int|
            0 <= i < filtered(domain, excl).len() ==> domain.contains(
                #[trigger] filtered(domain, excl)[i],
            ) && !excl.contains(filtered(domain, excl)[i]),
        forall|c: char|
            domain.contains(c) && !excl.contains(c) ==> filtered(domain, excl).contains(c),
    decreases domain.len(),
{
    if domain.len() == 0 {
        assert forall|c: char| domain.contains(c) && !excl.contains(c) implies filtered(
            domain,
            excl,
        ).contains(c) by {
            let i = choose|i: int| 0 <= i < domain.len() && domain[i] == c;
        }
    } else {
        let prefix = domain.drop_last();
        lemma_filtered_props(prefix, excl);
        assert forall|i: int|
            0 <= i < filtered(domain, excl).len() implies domain.contains(
            #[trigger] filtered(domain, excl)[i],
        ) && !excl.contains(filtered(domain, excl)[i]) by {
            let x = filtered(domain, excl)[i];
            if i < filtered(prefix, excl).len() {
                assert(prefix.contains(x));
                let j = choose|j: int| 0 <= j < prefix.len() && prefix[j] == x;
                assert(domain[j] == x);
            } else {
                assert(x == domain.last());
                assert(domain[domain.len() - 1] == x);
            }
        }
        assert forall|c: char| domain.contains(c) && !excl.contains(c) implies filtered(
            domain,
            excl,
        ).contains(c) by {
            let i = choose|i: int| 0 <= i < domain.len() && domain[i] == c;
            if i < domain.len() - 1 {
                assert(prefix[i] == c);
                assert(prefix.contains(c));
                assert(filtered(prefix, excl).contains(c));
                let j = choose|j: int| 0 <= j < filtered(prefix, excl).len() && filtered(
                    prefix,
                    excl,
                )[j] == c;
                assert(filtered(domain, excl)[j] == c);
            } else {
                assert(c == domain.last());
                assert(filtered(domain, excl).last() == c);
            }
        }
    }
}

/// Every character of a filtered domain comes from the domain and is not
/// excluded.
pub proof fn lemma_filtered_subset(domain: Seq<char>, excl: Seq<char>)
    ensures
        forall|c: char|
            #[trigger] filtered(domain, excl).contains(c) ==> domain.contains(c) && !excl.contains(
                c,
            ),
{
    lemma_filtered_props(domain, excl);
    assert forall|c: char| #[trigger] filtered(domain, excl).contains(c) implies domain.contains(c)
        && !excl.contains(c) by {
        let i = choose|i: int|
            0 <= i < filtered(domain, excl).len() && filtered(domain, excl)[i] == c;
    }
}

/// Whether `c` occurs in `v`.
pub fn contains_char(v: &Vec<char>, c: char) -> (r: bool)
    ensures
        r == v@.contains(c),
{
    let mut i: usize = 0;
    while i < v.len()
        invariant
            i <= v@.len(),
            forall|j: int| 0 <= j < i ==> v@[j] != c,
        decreases v@.len() - i,
    {
        if v[i] == c {
            return true;
        }
        i += 1;
    }
    false
}

/// The characters of `range`, in order, with every character of the
/// exclusion set removed; `None` excludes nothing.
pub fn filtered_range(range: &Vec<char>, exclude: &Option<Vec<char>>) -> (r: Vec<char>)
    ensures
        r@ == filtered(range@, excl_seq(*exclude)),
{
    let ghost ex: Seq<char> = excl_seq(*exclude);
    let mut out: Vec<char> = Vec::new();
    let mut i: usize = 0;
    while i < range.len()
        invariant
            i <= range@.len(),
            ex == excl_seq(*exclude),
            out@ == filtered(range@.subrange(0, i as int), ex),
        decreases range@.len() - i,
    {
        let c = range[i];
        let keep = match exclude {
            Some(ev) => !contains_char(ev, c),
            None => true,
        };
        if keep {
            out.push(c);
        }
        proof {
            let next = range@.subrange(0, i as int + 1);
            assert(next.drop_last() =~= range@.subrange(0, i as int));
            assert(next.last() == range@[i as int]);
        }
        i += 1;
    }
    proof {
        assert(range@.subrange(0, i as int) =~= range@);
    }
    out
}

} // verus!
