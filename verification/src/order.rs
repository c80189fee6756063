//! Putting items in the order of their keys.

use vstd::prelude::*;

verus! {

/// Item `a` comes before item `b`: its key is smaller, or the keys are equal
/// and it stood first.
pub open spec fn precedes(keys: Seq<u64>, a: usize, b: usize) -> bool {
    keys[a as int] < keys[b as int] || (keys[a as int] == keys[b as int] && a < b)
}

/// Every item of `r` comes before those behind it.
pub open spec fn in_order(keys: Seq<u64>, r: Seq<usize>) -> bool {
    forall|i: int, j: int| 0 <= i < j < r.len() ==> precedes(keys, #[trigger] r[i], #[trigger] r[j])
}

/// `r` holds exactly the indices from `lo` up to `hi`.
pub open spec fn holds_range(r: Seq<usize>, lo: int, hi: int) -> bool {
    &&& r.len() == hi - lo
    &&& forall|i: int| 0 <= i < r.len() ==> lo <= #[trigger] r[i] < hi
    &&& forall|x: usize| lo <= x < hi ==> #[trigger] r.contains(x)
}

/// The order of `keys`: the indices of all items, each once, by rising key;
/// items with equal keys stay in the order in which they stood.
pub open spec fn is_order(keys: Seq<u64>, r: Seq<usize>) -> bool {
    holds_range(r, 0, keys.len() as int) && in_order(keys, r)
}

/// There is one order of given keys.
pub proof fn law_order_is_unique(keys: Seq<u64>, a: Seq<usize>, b: Seq<usize>)
    requires
        is_order(keys, a),
        is_order(keys, b),
    ensures
        a == b,
{
    lemma_same_prefix(keys, a, b, a.len() as int);
    assert(a =~= b);
}

proof fn lemma_same_prefix(keys: Seq<u64>, a: Seq<usize>, b: Seq<usize>, n: int)
    requires
        is_order(keys, a),
        is_order(keys, b),
        0 <= n <= a.len(),
    ensures
        forall|i: int| 0 <= i < n ==> #[trigger] a[i] == b[i],
    decreases n,
{
    if n > 0 {
        lemma_same_prefix(keys, a, b, n - 1);
        let x = a[n - 1];
        let y = b[n - 1];
        if x != y {
            // Neither item can stand earlier in the other order, where the two
            // agree, so each comes before the other.
            assert(b.contains(x));
            let k = choose|k: int| 0 <= k < b.len() && b[k] == x;
            if k < n - 1 {
                assert(a[k] == x);
                assert(precedes(keys, a[k], a[n - 1]));
            }
            assert(precedes(keys, b[n - 1], b[k]));
            assert(a.contains(y));
            let m = choose|m: int| 0 <= m < a.len() && a[m] == y;
            if m < n - 1 {
                assert(b[m] == y);
                assert(precedes(keys, b[m], b[n - 1]));
            }
            assert(precedes(keys, a[n - 1], a[m]));
        }
    }
}

/// Merges two runs of neighbouring ranges.
fn merge(
    keys: &Vec<u64>,
    a: &Vec<usize>,
    b: &Vec<usize>,
    lo: usize,
    mid: usize,
    hi: usize,
) -> (r: Vec<usize>)
    requires
        lo <= mid <= hi <= keys.len(),
        holds_range(a@, lo as int, mid as int),
        in_order(keys@, a@),
        holds_range(b@, mid as int, hi as int),
        in_order(keys@, b@),
    ensures
        holds_range(r@, lo as int, hi as int),
        in_order(keys@, r@),
{
    let mut r: Vec<usize> = Vec::new();
    let mut i: usize = 0;
    let mut j: usize = 0;
    let ghost mut from_a: Seq<int> = Seq::empty();
    let ghost mut from_b: Seq<int> = Seq::empty();
    while i < a.len() || j < b.len()
        invariant
            lo <= mid <= hi <= keys.len(),
            holds_range(a@, lo as int, mid as int),
            in_order(keys@, a@),
            holds_range(b@, mid as int, hi as int),
            in_order(keys@, b@),
            i <= a.len(),
            j <= b.len(),
            r.len() == i + j,
            from_a.len() == i,
            from_b.len() == j,
            forall|k: int| 0 <= k < i ==> 0 <= #[trigger] from_a[k] < r.len() && r@[from_a[k]] == a@[k],
            forall|k: int| 0 <= k < j ==> 0 <= #[trigger] from_b[k] < r.len() && r@[from_b[k]] == b@[k],
            forall|k: int| 0 <= k < r.len() ==> lo <= #[trigger] r@[k] < hi,
            in_order(keys@, r@),
            forall|k: int, m: int|
                0 <= k < r.len() && i <= m < a.len() ==> precedes(keys@, #[trigger] r@[k], #[trigger] a@[m]),
            forall|k: int, m: int|
                0 <= k < r.len() && j <= m < b.len() ==> precedes(keys@, #[trigger] r@[k], #[trigger] b@[m]),
        decreases a.len() - i + b.len() - j,
    {
        let left = if i >= a.len() {
            false
        } else if j >= b.len() {
            true
        } else {
            keys[a[i]] <= keys[b[j]]
        };
        let ghost old_r = r@;
        if left {
            proof {
                if j < b.len() {
                    assert forall|m: int| j <= m < b.len() implies precedes(
                        keys@,
                        a@[i as int],
                        #[trigger] b@[m],
                    ) by {
                        assert(m == j || precedes(keys@, b@[j as int], b@[m]));
                    }
                }
                from_a = from_a.push(r.len() as int);
            }
            r.push(a[i]);
            i = i + 1;
        } else {
            proof {
                if i < a.len() {
                    assert forall|m: int| i <= m < a.len() implies precedes(
                        keys@,
                        b@[j as int],
                        #[trigger] a@[m],
                    ) by {
                        assert(m == i || precedes(keys@, a@[i as int], a@[m]));
                    }
                }
                from_b = from_b.push(r.len() as int);
            }
            r.push(b[j]);
            j = j + 1;
        }
        assert forall|k: int| 0 <= k < i implies 0 <= #[trigger] from_a[k] < r.len()
            && r@[from_a[k]] == a@[k] by {
            if from_a[k] < old_r.len() {
                assert(r@[from_a[k]] == old_r[from_a[k]]);
            }
        }
        assert forall|k: int| 0 <= k < j implies 0 <= #[trigger] from_b[k] < r.len()
            && r@[from_b[k]] == b@[k] by {
            if from_b[k] < old_r.len() {
                assert(r@[from_b[k]] == old_r[from_b[k]]);
            }
        }
    }
    assert forall|x: usize| lo <= x < hi implies #[trigger] r@.contains(x) by {
        if x < mid {
            assert(a@.contains(x));
            let k = choose|k: int| 0 <= k < a.len() && a@[k] == x;
            assert(r@[from_a[k]] == x);
        } else {
            assert(b@.contains(x));
            let k = choose|k: int| 0 <= k < b.len() && b@[k] == x;
            assert(r@[from_b[k]] == x);
        }
    }
    r
}

/// The order of the items from `lo` up to `hi`.
fn order_range(keys: &Vec<u64>, lo: usize, hi: usize) -> (r: Vec<usize>)
    requires
        lo <= hi <= keys.len(),
    ensures
        holds_range(r@, lo as int, hi as int),
        in_order(keys@, r@),
    decreases hi - lo,
{
    if hi - lo <= 1 {
        let mut r: Vec<usize> = Vec::new();
        if lo < hi {
            r.push(lo);
            assert(r@[0] == lo);
        }
        r
    } else {
        let mid: usize = lo + (hi - lo) / 2;
        let a = order_range(keys, lo, mid);
        let b = order_range(keys, mid, hi);
        merge(keys, &a, &b, lo, mid, hi)
    }
}

/// The order of `keys`.
pub fn order(keys: &Vec<u64>) -> (r: Vec<usize>)
    ensures
        is_order(keys@, r@),
{
    order_range(keys, 0, keys.len())
}

} // verus!
