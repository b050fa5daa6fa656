//! Stable ordering of items by an integer key.
use vstd::prelude::*;

verus! {

/// Item `a` comes before item `b`: its key is smaller, or the keys are
/// equal and it came first.
pub open spec fn before(keys: Seq<i128>, a: int, b: int) -> bool {
    keys[a] < keys[b] || (keys[a] == keys[b] && a < b)
}

/// `r` lists the positions `0..n` of `keys`, each once, ordered by key and,
/// among equal keys, by position: the order a stable sort gives.
pub open spec fn is_stable_order(keys: Seq<i128>, r: Seq<usize>) -> bool {
    &&& r.len() == keys.len()
    &&& forall|k: int| 0 <= k < r.len() ==> (#[trigger] r[k]) < keys.len()
    &&& forall|a: int, b: int| 0 <= a < b < r.len() ==> before(keys, #[trigger] r[a] as int, #[trigger] r[b] as int)
    &&& forall|x: usize| x < keys.len() ==> #[trigger] r.contains(x)
}

/// The positions of `keys` in the order of a stable sort by key.
pub fn stable_order(keys: &[i128]) -> (r: Vec<usize>)
    ensures
        is_stable_order(keys@, r@),
{
    let n = keys.len();
    let mut r: Vec<usize> = Vec::new();
    let mut i: usize = 0;
    while i < n
        invariant
            n == keys@.len(),
            i <= n,
            r@.len() == i,
            forall|k: int| 0 <= k < r@.len() ==> (#[trigger] r@[k]) < i,
            forall|a: int, b: int| 0 <= a < b < r@.len() ==> before(keys@, #[trigger] r@[a] as int, #[trigger] r@[b] as int),
            forall|x: usize| x < i ==> #[trigger] r@.contains(x),
        decreases n - i,
    {
        let key = keys[i];
        let mut p: usize = 0;
        while p < r.len() && keys[r[p]] <= key
            invariant
                n == keys@.len(),
                i < n,
                key == keys@[i as int],
                r@.len() == i,
                p <= r@.len(),
                forall|k: int| 0 <= k < r@.len() ==> (#[trigger] r@[k]) < i,
                forall|k: int| 0 <= k < p ==> keys@[#[trigger] r@[k] as int] <= key,
            decreases r@.len() - p,
        {
            p = p + 1;
        }
        let ghost old_r = r@;
        proof {
            assert forall|k: int| p <= k < old_r.len() implies key < keys@[#[trigger] old_r[k] as int] by {
                if k > p {
                    assert(before(keys@, old_r[p as int] as int, old_r[k] as int));
                }
            }
        }
        r.insert(p, i);
        assert(r@ == old_r.insert(p as int, i));
        assert forall|a: int, b: int| 0 <= a < b < r@.len() implies before(keys@, #[trigger] r@[a] as int, #[trigger] r@[b] as int) by {
            if b < p {
                assert(r@[a] == old_r[a] && r@[b] == old_r[b]);
            } else if b == p {
                assert(r@[a] == old_r[a]);
            } else if a < p {
                assert(r@[a] == old_r[a] && r@[b] == old_r[b - 1]);
            } else if a == p {
                assert(r@[b] == old_r[b - 1]);
            } else {
                assert(r@[a] == old_r[a - 1] && r@[b] == old_r[b - 1]);
            }
        }
        assert forall|x: usize| x < i + 1 implies #[trigger] r@.contains(x) by {
            if x == i {
                assert(r@[p as int] == i);
            } else {
                assert(old_r.contains(x));
                let k = choose|k: int| 0 <= k < old_r.len() && old_r[k] == x;
                if k < p {
                    assert(r@[k] == old_r[k]);
                } else {
                    assert(r@[k + 1] == old_r[k]);
                }
            }
        }
        i = i + 1;
    }
    r
}

} // verus!
