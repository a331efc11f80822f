//! Comparison of thirty-two byte values.
use vstd::prelude::*;

verus! {

/// Whether `a` comes before `b` in lexicographic order.
pub open spec fn comes_before(a: [u8; 32], b: [u8; 32]) -> bool {
    exists|k: int| #[trigger]
        differs_first_at(a, b, k) && a[k] < b[k]
}

/// Whether `a` and `b` are the same before position `k`.
pub open spec fn differs_first_at(a: [u8; 32], b: [u8; 32], k: int) -> bool {
    0 <= k < 32 && forall|j: int| 0 <= j < k ==> #[trigger] a[j] == b[j]
}

/// Whether each of `ids` comes before all that follow it.
pub open spec fn ascending(ids: Seq<[u8; 32]>) -> bool {
    forall|i: int, j: int|
        0 <= i < j < ids.len() ==> comes_before(#[trigger] ids[i], #[trigger] ids[j])
}

/// The members of `ids` in ascending order.
pub open spec fn listing(ids: Set<[u8; 32]>) -> Seq<[u8; 32]> {
    choose|list: Seq<[u8; 32]>| ascending(list) && list.to_set() == ids
}

/// Of two values one at most comes before the other.
pub proof fn lemma_comes_before_asymmetric(a: [u8; 32], b: [u8; 32])
    requires
        comes_before(a, b),
    ensures
        !comes_before(b, a),
{
    if comes_before(b, a) {
        let i = choose|i: int| #[trigger]
            differs_first_at(a, b, i) && a[i] < b[i];
        let j = choose|j: int| #[trigger]
            differs_first_at(b, a, j) && b[j] < a[j];
        if i > j {
            assert(a[j] == b[j]);
        } else if j > i {
            assert(b[i] == a[i]);
        }
    }
}

/// There is one way only to list a set in ascending order.
pub proof fn lemma_ascending_unique(a: Seq<[u8; 32]>, b: Seq<[u8; 32]>)
    requires
        ascending(a),
        ascending(b),
        a.to_set() == b.to_set(),
    ensures
        a == b,
    decreases a.len(),
{
    if a.len() == 0 {
        if b.len() > 0 {
            assert(a.to_set().contains(b[0]));
        }
        assert(a =~= b);
    } else if b.len() == 0 {
        assert(b.to_set().contains(a[0]));
    } else {
        assert(b.to_set().contains(a.last()));
        assert(a.to_set().contains(b.last()));
        let i = choose|i: int| 0 <= i < a.len() && a[i] == b.last();
        let j = choose|j: int| 0 <= j < b.len() && b[j] == a.last();
        if i < a.len() - 1 && j < b.len() - 1 {
            assert(comes_before(a[i], a[a.len() - 1]));
            assert(comes_before(b[j], b[b.len() - 1]));
            lemma_comes_before_asymmetric(a[i], a.last());
        }
        assert(a.last() == b.last());
        let last = a.last();
        lemma_ascending_no_duplicates(a);
        lemma_ascending_no_duplicates(b);
        assert forall|id: [u8; 32]| a.drop_last().to_set().contains(id)
            == b.drop_last().to_set().contains(id) by {
            assert(a.to_set().contains(id) == b.to_set().contains(id));
            if a.drop_last().contains(id) {
                let k = choose|k: int| 0 <= k < a.drop_last().len() && a.drop_last()[k] == id;
                assert(a[k] == id && a[a.len() - 1] == last);
                assert(a.contains(id) && b.to_set().contains(id));
                let m = choose|m: int| 0 <= m < b.len() && b[m] == id;
                assert(b.drop_last()[m] == id);
            }
            if b.drop_last().contains(id) {
                let k = choose|k: int| 0 <= k < b.drop_last().len() && b.drop_last()[k] == id;
                assert(b[k] == id && b[b.len() - 1] == last);
                assert(b.contains(id) && a.to_set().contains(id));
                let m = choose|m: int| 0 <= m < a.len() && a[m] == id;
                assert(a.drop_last()[m] == id);
            }
        }
        assert(a.drop_last().to_set() =~= b.drop_last().to_set());
        lemma_ascending_unique(a.drop_last(), b.drop_last());
        assert(a =~= a.drop_last().push(last));
        assert(b =~= b.drop_last().push(last));
    }
}

/// What lists a set in ascending order is the listing of the set.
pub proof fn lemma_listing(list: Seq<[u8; 32]>)
    requires
        ascending(list),
    ensures
        listing(list.to_set()) == list,
{
    let other = listing(list.to_set());
    assert(ascending(other) && other.to_set() == list.to_set());
    lemma_ascending_unique(other, list);
}

/// Whether `a` is less than `b` as a number in little-endian order.
pub open spec fn less(a: [u8; 32], b: [u8; 32]) -> bool {
    exists|k: int| #[trigger]
        differs_last_at(a, b, k) && a[k] < b[k]
}

/// Whether `a` and `b` are the same after position `k`.
pub open spec fn differs_last_at(a: [u8; 32], b: [u8; 32], k: int) -> bool {
    0 <= k < 32 && forall|j: int| k < j < 32 ==> #[trigger] a[j] == b[j]
}

/// Whether `a` is less than `b` as a number in little-endian order.
pub fn is_less(a: &[u8; 32], b: &[u8; 32]) -> (r: bool)
    ensures
        r == less(*a, *b),
{
    let mut i: usize = 32;
    while i > 0
        invariant
            0 <= i <= 32,
            forall|j: int| i <= j < 32 ==> #[trigger] a[j] == b[j],
        decreases i,
    {
        i -= 1;
        if a[i] != b[i] {
            proof {
                assert(differs_last_at(*a, *b, i as int));
                if less(*a, *b) {
                    let k = choose|k: int| #[trigger]
                        differs_last_at(*a, *b, k) && a[k] < b[k];
                    if k < i {
                        assert(a[i as int] == b[i as int]);
                    } else if k > i {
                        assert(a[k] == b[k]);
                    }
                }
            }
            return a[i] < b[i];
        }
    }
    proof {
        if less(*a, *b) {
            let k = choose|k: int| #[trigger]
                differs_last_at(*a, *b, k) && a[k] < b[k];
            assert(a[k] == b[k]);
        }
    }
    false
}

/// A number that is less than one that is not greater than a third is less than the third.
pub proof fn lemma_less_transitive(a: [u8; 32], b: [u8; 32], c: [u8; 32])
    requires
        !less(b, a),
        !less(c, b),
    ensures
        !less(c, a),
{
    if less(c, a) {
        let k = choose|k: int| #[trigger]
            differs_last_at(c, a, k) && c[k] < a[k];
        lemma_less_total(a, b);
        lemma_less_total(b, c);
        if a == b || b == c {
            assert(false);
        } else {
            let i = choose|i: int| #[trigger]
                differs_last_at(a, b, i) && a[i] < b[i];
            let j = choose|j: int| #[trigger]
                differs_last_at(b, c, j) && b[j] < c[j];
            if i >= j {
                assert(b[i] <= c[i]) by {
                    if i > j {
                        assert(b[i] == c[i]);
                    }
                }
                if k > i {
                    assert(a[k] == b[k] && b[k] == c[k]);
                } else if k < i {
                    assert(c[i] == a[i]);
                }
            } else {
                assert(a[j] == b[j]);
                if k > j {
                    assert(a[k] == b[k] && b[k] == c[k]);
                } else if k < j {
                    assert(c[j] == a[j]);
                }
            }
        }
    }
}

/// Of two numbers one at most is less than the other.
pub proof fn lemma_less_asymmetric(a: [u8; 32], b: [u8; 32])
    requires
        less(a, b),
    ensures
        !less(b, a),
{
    if less(b, a) {
        let i = choose|i: int| #[trigger]
            differs_last_at(a, b, i) && a[i] < b[i];
        let j = choose|j: int| #[trigger]
            differs_last_at(b, a, j) && b[j] < a[j];
        if i < j {
            assert(a[j] == b[j]);
        } else if j < i {
            assert(b[i] == a[i]);
        }
    }
}

/// Two numbers that are not the same are ordered.
pub proof fn lemma_less_total(a: [u8; 32], b: [u8; 32])
    ensures
        a == b || less(a, b) || less(b, a),
{
    if a != b {
        lemma_differ(a, b, 32);
    }
}

/// Two values that are not the same differ somewhere last.
proof fn lemma_differ(a: [u8; 32], b: [u8; 32], bound: int)
    requires
        a != b,
        0 <= bound <= 32,
        forall|j: int| bound <= j < 32 ==> #[trigger] a[j] == b[j],
    ensures
        less(a, b) || less(b, a),
    decreases bound,
{
    if bound == 0 {
        assert(a =~= b);
    } else if a[bound - 1] == b[bound - 1] {
        lemma_differ(a, b, bound - 1);
    } else {
        assert(differs_last_at(a, b, bound - 1));
        assert(differs_last_at(b, a, bound - 1));
    }
}

/// Nothing occurs twice among values in ascending order.
pub proof fn lemma_ascending_no_duplicates(ids: Seq<[u8; 32]>)
    requires
        ascending(ids),
    ensures
        ids.no_duplicates(),
{
    assert forall|i: int, j: int| 0 <= i < ids.len() && 0 <= j < ids.len() && i != j implies ids[i]
        != ids[j] by {
        if i < j {
            assert(comes_before(ids[i], ids[j]));
        } else {
            assert(comes_before(ids[j], ids[i]));
        }
    }
}

/// Whether two thirty-two byte values are the same.
pub fn same_bytes(a: &[u8; 32], b: &[u8; 32]) -> (r: bool)
    ensures
        r == (*a == *b),
{
    let mut i: usize = 0;
    while i < 32
        invariant
            i <= 32,
            forall|j: int| 0 <= j < i ==> a[j] == b[j],
        decreases 32 - i,
    {
        if a[i] != b[i] {
            return false;
        }
        i += 1;
    }
    assert(*a =~= *b);
    true
}

} // verus!
