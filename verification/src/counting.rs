//! Counting the characters of a sequence that belong to a category, and
//! how that count behaves under concatenation and permutation.

use vstd::prelude::*;
use vstd::seq_lib::group_to_multiset_ensures;

verus! {

/// The number of positions of `s` that hold a character occurring in
/// `domain`.
pub open spec fn count_matching(s: Seq<char>, domain: Seq<char>) -> nat
    decreases s.len(),
{
    if s.len() == 0 {
        0
    } else {
        count_matching(s.drop_last(), domain) + if domain.contains(s.last()) {
            1nat
        } else {
            0nat
        }
    }
}

/// Counting distributes over concatenation.
pub proof fn lemma_count_matching_append(a: Seq<char>, b: Seq<char>, domain: Seq<char>)
    ensures
        count_matching(a + b, domain) == count_matching(a, domain) + count_matching(b, domain),
    decreases b.len(),
{
    if b.len() == 0 {
        assert(a + b =~= a);
    } else {
        assert((a + b).drop_last() =~= a + b.drop_last());
        assert((a + b).last() == b.last());
        lemma_count_matching_append(a, b.drop_last(), domain);
    }
}

/// A sequence drawn entirely from `domain` counts its full length.
pub proof fn lemma_count_matching_all_in(s: Seq<char>, domain: Seq<char>)
    requires
        forall|i: int| 0 <= i < s.len() ==> domain.contains(#[trigger] s[i]),
    ensures
        count_matching(s, domain) == s.len(),
    decreases s.len(),
{
    if s.len() > 0 {
        assert(domain.contains(s[s.len() - 1]));
        lemma_count_matching_all_in(s.drop_last(), domain);
    }
}

/// Removing one position lowers the count by exactly that position's
/// contribution.
proof fn lemma_count_matching_remove(s: Seq<char>, domain: Seq<char>, j: int)
    requires
        0 <= j < s.len(),
    ensures
        count_matching(s, domain) == count_matching(s.remove(j), domain) + if domain.contains(
            s[j],
        ) {
            1nat
        } else {
            0nat
        },
{
    let left = s.subrange(0, j);
    let mid = s.subrange(j, j + 1);
    let right = s.subrange(j + 1, s.len() as int);
    assert(s =~= left + mid + right);
    assert(s.remove(j) =~= left + right);
    lemma_count_matching_append(left + mid, right, domain);
    lemma_count_matching_append(left, mid, domain);
    lemma_count_matching_append(left, right, domain);
    assert(mid.drop_last() =~= Seq::<char>::empty());
    assert(count_matching(Seq::<char>::empty(), domain) == 0);
    assert(mid.last() == s[j]);
    assert(count_matching(mid, domain) == if domain.contains(s[j]) {
        1nat
    } else {
        0nat
    });
}

/// Extending a sequence never lowers a count.
pub proof fn lemma_count_matching_extend(prev: Seq<char>, cur: Seq<char>, domain: Seq<char>)
    requires
        prev.len() <= cur.len(),
        cur.subrange(0, prev.len() as int) == prev,
    ensures
        count_matching(cur, domain) >= count_matching(prev, domain),
{
    let seg = cur.subrange(prev.len() as int, cur.len() as int);
    assert(cur =~= prev + seg);
    lemma_count_matching_append(prev, seg, domain);
}

/// Extending a sequence with characters drawn from `domain` raises the
/// domain's count by at least the number of characters added.
pub proof fn lemma_count_matching_extend_within(prev: Seq<char>, cur: Seq<char>, domain: Seq<char>)
    requires
        prev.len() <= cur.len(),
        cur.subrange(0, prev.len() as int) == prev,
        forall|i: int| prev.len() <= i < cur.len() ==> domain.contains(#[trigger] cur[i]),
    ensures
        count_matching(cur, domain) >= count_matching(prev, domain) + (cur.len() - prev.len()),
{
    let seg = cur.subrange(prev.len() as int, cur.len() as int);
    assert(cur =~= prev + seg);
    assert forall|i: int| 0 <= i < seg.len() implies domain.contains(#[trigger] seg[i]) by {
        assert(seg[i] == cur[i + prev.len()]);
    }
    lemma_count_matching_all_in(seg, domain);
    lemma_count_matching_append(prev, seg, domain);
}

/// Sequences with the same multiset of characters have the same count for
/// every domain: shuffling never changes a category's count.
pub proof fn lemma_count_matching_permutation(s1: Seq<char>, s2: Seq<char>, domain: Seq<char>)
    requires
        s1.to_multiset() == s2.to_multiset(),
    ensures
        count_matching(s1, domain) == count_matching(s2, domain),
    decreases s1.len(),
{
    broadcast use group_to_multiset_ensures;

    if s1.len() == 0 {
        assert(s2.to_multiset().len() == 0);
        assert(s2.len() == 0);
    } else {
        let x = s1.last();
        assert(s1.contains(x));
        assert(s1.to_multiset().count(x) > 0);
        assert(s2.contains(x));
        let j = choose|j: int| 0 <= j < s2.len() && s2[j] == x;
        assert(s1.drop_last() =~= s1.remove(s1.len() - 1));
        assert(s1.remove(s1.len() - 1).to_multiset() =~= s1.to_multiset().remove(x));
        assert(s2.remove(j).to_multiset() =~= s2.to_multiset().remove(x));
        assert(s1.drop_last().to_multiset() == s2.remove(j).to_multiset());
        lemma_count_matching_permutation(s1.drop_last(), s2.remove(j), domain);
        lemma_count_matching_remove(s2, domain, j);
    }
}

} // verus!
