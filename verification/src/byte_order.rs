//! The order in which the store keeps its keys: byte strings compared byte
//! by byte, a proper prefix before what it is a prefix of.

use vstd::prelude::*;

verus! {

/// The first position from `from` on at which `a` and `b` differ, or at
/// which one of them ends.
pub open spec fn mismatch_from(a: Seq<u8>, b: Seq<u8>, from: int) -> int
    decreases a.len() - from,
{
    if 0 <= from < a.len() && from < b.len() && a[from] == b[from] {
        mismatch_from(a, b, from + 1)
    } else {
        from
    }
}

/// Whether `k` is the first position at which `a` and `b` differ or one of
/// them ends.
pub open spec fn parts_at(a: Seq<u8>, b: Seq<u8>, k: int) -> bool {
    &&& 0 <= k <= a.len()
    &&& k <= b.len()
    &&& forall|j: int| 0 <= j < k ==> a[j] == b[j]
    &&& k < a.len() && k < b.len() ==> a[k] != b[k]
}

/// Whether `a` comes before `b`: at the first position where they part, `a`
/// has ended and `b` has not, or `a` has the smaller byte.
pub open spec fn bytes_less(a: Seq<u8>, b: Seq<u8>) -> bool {
    let k = mismatch_from(a, b, 0);
    k < b.len() && (k == a.len() || a[k] < b[k])
}

/// Whether each of `keys` comes before the next.
pub open spec fn ascending(keys: Seq<Seq<u8>>) -> bool {
    forall|i: int, j: int| 0 <= i < j < keys.len() ==> bytes_less(#[trigger] keys[i], #[trigger] keys[j])
}

/// `mismatch_from` finds the first position at which the two part.
pub proof fn lemma_mismatch_from(a: Seq<u8>, b: Seq<u8>, from: int)
    requires
        0 <= from <= a.len(),
        from <= b.len(),
        forall|j: int| 0 <= j < from ==> a[j] == b[j],
    ensures
        parts_at(a, b, mismatch_from(a, b, from)),
        from <= mismatch_from(a, b, from),
    decreases a.len() - from,
{
    if from < a.len() && from < b.len() && a[from] == b[from] {
        lemma_mismatch_from(a, b, from + 1);
    }
}

/// Two byte strings part at one position only.
pub proof fn lemma_parts_once(a: Seq<u8>, b: Seq<u8>, k: int)
    requires
        parts_at(a, b, k),
    ensures
        mismatch_from(a, b, 0) == k,
        mismatch_from(b, a, 0) == k,
{
    lemma_mismatch_from(a, b, 0);
    lemma_mismatch_from(b, a, 0);
    let ab = mismatch_from(a, b, 0);
    let ba = mismatch_from(b, a, 0);
    if ab < k {
        assert(a[ab] == b[ab]);
    }
    if k < ab {
        assert(a[k] == b[k]);
    }
    if ba < k {
        assert(a[ba] == b[ba]);
    }
    if k < ba {
        assert(b[k] == a[k]);
    }
}

/// Of two byte strings, one comes before the other, or they are equal; and
/// no two of these hold together.
pub proof fn lemma_bytes_trichotomy(a: Seq<u8>, b: Seq<u8>)
    ensures
        bytes_less(a, b) || bytes_less(b, a) || a == b,
        !(bytes_less(a, b) && bytes_less(b, a)),
        !(bytes_less(a, b) && a == b),
{
    lemma_mismatch_from(a, b, 0);
    let k = mismatch_from(a, b, 0);
    lemma_parts_once(a, b, k);
    if !bytes_less(a, b) && !bytes_less(b, a) {
        assert(a =~= b);
    }
}

/// What comes before something that comes before a third comes before the
/// third.
pub proof fn lemma_bytes_less_transitive(a: Seq<u8>, b: Seq<u8>, c: Seq<u8>)
    requires
        bytes_less(a, b),
        bytes_less(b, c),
    ensures
        bytes_less(a, c),
{
    lemma_mismatch_from(a, b, 0);
    lemma_mismatch_from(b, c, 0);
    let ab = mismatch_from(a, b, 0);
    let bc = mismatch_from(b, c, 0);
    let k = if ab <= bc {
        ab
    } else {
        bc
    };
    assert(parts_at(a, c, k)) by {
        assert forall|j: int| 0 <= j < k implies a[j] == c[j] by {
            assert(a[j] == b[j]);
            assert(b[j] == c[j]);
        }
        if k < a.len() && k < c.len() {
            if ab < bc {
                assert(b[k] == c[k]);
            } else if bc < ab {
                assert(a[k] == b[k]);
            }
        }
    }
    lemma_parts_once(a, c, k);
    if bc < ab {
        assert(a[k] == b[k]);
    }
}

/// Tells whether `a` comes before `b`.
pub fn less_bytes(a: &[u8], b: &[u8]) -> (less: bool)
    ensures
        less == bytes_less(a@, b@),
{
    let mut k: usize = 0;
    while k < a.len() && k < b.len() && a[k] == b[k]
        invariant
            k <= a@.len(),
            k <= b@.len(),
            forall|j: int| 0 <= j < k ==> a@[j] == b@[j],
        decreases a@.len() - k,
    {
        k = k + 1;
    }
    proof {
        lemma_parts_once(a@, b@, k as int);
    }
    k < b.len() && (k == a.len() || a[k] < b[k])
}

} // verus!
