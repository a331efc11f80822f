//! Laws of the order of thirty-two byte values.
use vstd::prelude::*;

use crate::bytes;

verus! {

/// The number that the bytes of `a` from position `i` on stand for, the lowest first.
pub open spec fn number_from(a: [u8; 32], i: int) -> int
    decreases 32 - i,
{
    if 0 <= i < 32 {
        a[i] + 256 * number_from(a, i + 1)
    } else {
        0
    }
}

/// The number that the first `n` bytes of `a` stand for, the highest first.
pub open spec fn number_to(a: [u8; 32], n: int) -> int
    decreases n,
{
    if 0 < n <= 32 {
        256 * number_to(a, n - 1) + a[n - 1]
    } else {
        0
    }
}

proof fn lemma_number_from(a: [u8; 32], b: [u8; 32], i: int)
    requires
        0 <= i <= 32,
    ensures
        number_from(a, i) < number_from(b, i) <==> exists|k: int|
            i <= k < 32 && #[trigger] bytes::differs_last_at(a, b, k) && a[k] < b[k],
        number_from(a, i) == number_from(b, i) ==> forall|j: int|
            i <= j < 32 ==> #[trigger] a[j] == b[j],
        (forall|j: int| i <= j < 32 ==> #[trigger] a[j] == b[j]) ==> number_from(a, i)
            == number_from(b, i),
    decreases 32 - i,
{
    if i < 32 {
        lemma_number_from(a, b, i + 1);
        if number_from(a, i) < number_from(b, i) && number_from(a, i + 1) >= number_from(b, i + 1) {
            assert(number_from(a, i + 1) == number_from(b, i + 1));
            assert(bytes::differs_last_at(a, b, i));
        }
        if exists|k: int|
            i <= k < 32 && #[trigger] bytes::differs_last_at(a, b, k) && a[k] < b[k] {
            let k = choose|k: int|
                i <= k < 32 && #[trigger] bytes::differs_last_at(a, b, k) && a[k] < b[k];
            if k > i {
                assert(number_from(a, i + 1) < number_from(b, i + 1));
            }
        }
        if number_from(a, i) == number_from(b, i) {
            assert(number_from(a, i + 1) == number_from(b, i + 1));
        }
    }
}

/// One value is less than another if and only if it is as a number whose lowest byte comes first.
pub proof fn less_is_less_as_a_number(a: [u8; 32], b: [u8; 32])
    ensures
        bytes::less(a, b) <==> number_from(a, 0) < number_from(b, 0),
        number_from(a, 0) == number_from(b, 0) <==> a@ == b@,
{
    lemma_number_from(a, b, 0);
    if bytes::less(a, b) {
        let k = choose|k: int| #[trigger] bytes::differs_last_at(a, b, k) && a[k] < b[k];
        assert(0 <= k < 32 && bytes::differs_last_at(a, b, k) && a[k] < b[k]);
    }
    if number_from(a, 0) == number_from(b, 0) {
        assert forall|j: int| 0 <= j < 32 implies a@[j] == b@[j] by {
            assert(a[j] == b[j]);
        }
        assert(a@ =~= b@);
    }
    if a@ == b@ {
        assert forall|j: int| 0 <= j < 32 implies #[trigger] a[j] == b[j] by {
            assert(a@[j] == b@[j]);
        }
    }
}

proof fn lemma_number_to(a: [u8; 32], b: [u8; 32], n: int)
    requires
        0 <= n <= 32,
    ensures
        number_to(a, n) < number_to(b, n) <==> exists|k: int|
            0 <= k < n && #[trigger] bytes::differs_first_at(a, b, k) && a[k] < b[k],
        number_to(a, n) == number_to(b, n) ==> forall|j: int|
            0 <= j < n ==> #[trigger] a[j] == b[j],
        (forall|j: int| 0 <= j < n ==> #[trigger] a[j] == b[j]) ==> number_to(a, n) == number_to(
            b,
            n,
        ),
    decreases n,
{
    if n > 0 {
        lemma_number_to(a, b, n - 1);
        if number_to(a, n) < number_to(b, n) && number_to(a, n - 1) >= number_to(b, n - 1) {
            assert(number_to(a, n - 1) == number_to(b, n - 1));
            assert(bytes::differs_first_at(a, b, n - 1));
        }
        if exists|k: int|
            0 <= k < n && #[trigger] bytes::differs_first_at(a, b, k) && a[k] < b[k] {
            let k = choose|k: int|
                0 <= k < n && #[trigger] bytes::differs_first_at(a, b, k) && a[k] < b[k];
            if k < n - 1 {
                assert(number_to(a, n - 1) < number_to(b, n - 1));
            }
        }
        if number_to(a, n) == number_to(b, n) {
            assert(number_to(a, n - 1) == number_to(b, n - 1));
        }
    }
}

/// One value comes before another if and only if it is less as a number whose highest byte comes
/// first.
pub proof fn before_is_less_from_the_highest_byte(a: [u8; 32], b: [u8; 32])
    ensures
        bytes::comes_before(a, b) <==> number_to(a, 32) < number_to(b, 32),
{
    lemma_number_to(a, b, 32);
    if bytes::comes_before(a, b) {
        let k = choose|k: int| #[trigger] bytes::differs_first_at(a, b, k) && a[k] < b[k];
        assert(0 <= k < 32 && bytes::differs_first_at(a, b, k) && a[k] < b[k]);
    }
}

} // verus!
