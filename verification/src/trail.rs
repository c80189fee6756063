//! Following the links that a search leaves behind it.

use std::collections::HashMap;
use vstd::prelude::*;

verus! {

broadcast use vstd::std_specs::hash::group_hash_axioms;

/// The node that `k` links lead to from `x`; `None` if the links end before.
pub open spec fn back<T>(links: Map<T, T>, x: T, k: nat) -> Option<T>
    decreases k,
{
    if k == 0 {
        Some(x)
    } else {
        match back(links, x, (k - 1) as nat) {
            Some(y) if links.contains_key(y) => Some(links[y]),
            _ => None,
        }
    }
}

/// The links lead from `start` to `stop`.
pub open spec fn leads<T>(links: Map<T, T>, start: T, stop: T) -> bool {
    exists|k: nat| back(links, start, k) == Some(stop)
}

/// `p` holds the nodes from `start` up to the first `stop` along the links.
pub open spec fn is_trail<T>(links: Map<T, T>, start: T, stop: T, p: Seq<T>) -> bool {
    &&& p.len() > 0
    &&& forall|i: nat| i < p.len() ==> #[trigger] back(links, start, i) == Some(p[i as int])
    &&& p.last() == stop
    &&& forall|i: int| 0 <= i < p.len() - 1 ==> p[i] != stop
}

/// Each node of a trail is linked to the next.
pub proof fn lemma_trail_links<T>(links: Map<T, T>, start: T, stop: T, p: Seq<T>, i: int)
    requires
        is_trail(links, start, stop, p),
        0 <= i < p.len() - 1,
    ensures
        links.contains_key(p[i]),
        links[p[i]] == p[i + 1],
        p[0] == start,
{
    let j = i as nat;
    assert(back(links, start, j) == Some(p[i]));
    assert(back(links, start, (j + 1) as nat) == Some(p[i + 1]));
    assert(back(links, start, 0) == Some(p[0]));
}

/// Where the links have ended, they stay ended.
proof fn lemma_back_ended<T>(links: Map<T, T>, x: T, j: nat, k: nat)
    requires
        back(links, x, j) is None,
        j <= k,
    ensures
        back(links, x, k) is None,
    decreases k,
{
    if j < k {
        lemma_back_ended(links, x, j, (k - 1) as nat);
    }
}

/// What follows a node along the links depends on the node alone.
proof fn lemma_back_from<T>(links: Map<T, T>, x: T, i: nat, y: T, k: nat)
    requires
        back(links, x, i) == Some(y),
    ensures
        back(links, x, i + k) == back(links, y, k),
    decreases k,
{
    if k > 0 {
        lemma_back_from(links, x, i, y, (k - 1) as nat);
    }
}

/// Once a node comes back, nothing new comes: the nodes before its second
/// visit are all that the links lead to.
proof fn lemma_back_cycle<T>(links: Map<T, T>, x: T, i: nat, j: nat, stop: T, k: nat)
    requires
        i < j,
        back(links, x, i) is Some,
        back(links, x, i) == back(links, x, j),
        forall|m: nat| m < j ==> #[trigger] back(links, x, m) != Some(stop),
    ensures
        back(links, x, k) != Some(stop),
    decreases k,
{
    if k >= j {
        let y = back(links, x, i)->0;
        let rest = (k - j) as nat;
        lemma_back_from(links, x, j, y, rest);
        lemma_back_from(links, x, i, y, rest);
        assert(j + rest == k);
        lemma_back_cycle(links, x, i, j, stop, (i + rest) as nat);
    }
}

/// A trail passes no node twice.
pub proof fn lemma_trail_simple<T>(links: Map<T, T>, start: T, stop: T, p: Seq<T>)
    requires
        is_trail(links, start, stop, p),
    ensures
        p.no_duplicates(),
{
    assert forall|i: int, j: int| 0 <= i < j < p.len() implies p[i] != p[j] by {
        if p[i] == p[j] {
            assert(back(links, start, i as nat) == Some(p[i]));
            assert(back(links, start, j as nat) == Some(p[j]));
            assert forall|m: nat| m < j implies #[trigger] back(links, start, m) != Some(stop) by {
                assert(p[m as int] != stop);
            }
            let last = (p.len() - 1) as nat;
            lemma_back_cycle(links, start, i as nat, j as nat, stop, last);
            assert(back(links, start, last) == Some(p[last as int]));
        }
    }
}

/// More nodes in a row than there are links: some node comes twice, so the
/// links run in a circle.
proof fn lemma_back_crowded<T>(links: Map<T, T>, x: T, stop: T, p: Seq<T>)
    requires
        links.dom().finite(),
        p.len() > links.dom().len(),
        forall|i: nat| i < p.len() ==> #[trigger] back(links, x, i) == Some(p[i as int]),
        forall|i: int| 0 <= i < p.len() ==> links.contains_key(#[trigger] p[i]),
        forall|i: int| 0 <= i < p.len() ==> p[i] != stop,
    ensures
        !leads(links, x, stop),
{
    if p.no_duplicates() {
        p.unique_seq_to_set();
        assert(p.to_set().subset_of(links.dom()));
        vstd::set_lib::lemma_len_subset(p.to_set(), links.dom());
        assert(false);
    }
    let (i, j) = choose|i: int, j: int|
        0 <= i < p.len() && 0 <= j < p.len() && i != j && p[i] == p[j];
    let (lo, hi) = if i < j {
        (i as nat, j as nat)
    } else {
        (j as nat, i as nat)
    };
    assert(back(links, x, lo) == Some(p[lo as int]));
    assert(back(links, x, hi) == Some(p[hi as int]));
    assert forall|k: nat| #[trigger] back(links, x, k) != Some(stop) by {
        lemma_back_cycle(links, x, lo, hi, stop, k);
    }
}

/// The nodes from `start` along the links up to the first `stop`, or `None`
/// where the links do not lead there: they end before it or run in a circle.
pub fn trail(links: &HashMap<i64, i64>, start: i64, stop: i64) -> (r: Option<Vec<i64>>)
    ensures
        r is Some <==> leads(links@, start, stop),
        r matches Some(p) ==> is_trail(links@, start, stop, p@),
{
    let mut p: Vec<i64> = Vec::new();
    p.push(start);
    let mut cur = start;
    let ghost m = links@;
    while cur != stop
        invariant
            m == links@,
            p.len() > 0,
            p@.last() == cur,
            forall|i: nat| i < p@.len() ==> #[trigger] back(m, start, i) == Some(p@[i as int]),
            forall|i: int| 0 <= i < p@.len() - 1 ==> links@.contains_key(#[trigger] p@[i]),
            forall|i: int| 0 <= i < p@.len() - 1 ==> p@[i] != stop,
            p.len() <= links@.dom().len() + 1,
        decreases links@.dom().len() + 1 - p.len(),
    {
        let ghost n = p@.len();
        match links.get(&cur) {
            Some(next) => {
                if p.len() > links.len() {
                    proof {
                        lemma_back_crowded(m, start, stop, p@);
                    }
                    return None;
                }
                cur = *next;
                p.push(cur);
                assert(back(m, start, n) == Some(cur)) by {
                    assert(back(m, start, (n - 1) as nat) == Some(p@[n - 1]));
                }
            },
            None => {
                proof {
                    assert(back(m, start, (n - 1) as nat) == Some(p@[n - 1]));
                    assert(back(m, start, n) is None);
                    assert forall|k: nat| #[trigger] back(m, start, k) != Some(stop) by {
                        if k >= n {
                            lemma_back_ended(m, start, n, k);
                        } else {
                            assert(back(m, start, k) == Some(p@[k as int]));
                        }
                    }
                }
                return None;
            },
        }
    }
    assert(back(m, start, (p@.len() - 1) as nat) == Some(stop));
    Some(p)
}

/// Stands for "no value" in the flat arrays of labels and links.
pub const SENTINEL: u32 = 0xffff_ffff;

/// The links that a flat array holds: slot `i` names the node before node
/// `i`, `SENTINEL` says that there is none.
pub open spec fn flat_links(links: Seq<u32>) -> Map<u32, u32> {
    Map::new(|i: u32| i < links.len() && links[i as int] != SENTINEL, |i: u32| links[i as int])
}

/// The nodes of a flat array are at most as many as its slots.
proof fn lemma_flat_links_finite(links: Seq<u32>)
    ensures
        flat_links(links).dom().finite(),
        flat_links(links).dom().len() <= links.len(),
    decreases links.len(),
{
    if links.len() == 0 {
        assert(flat_links(links).dom() =~= Set::<u32>::empty());
    } else {
        let shorter = links.drop_last();
        let last = (links.len() - 1) as u32;
        lemma_flat_links_finite(shorter);
        let all = flat_links(links).dom();
        let some = flat_links(shorter).dom();
        if links.len() <= 0x1_0000_0000 {
            assert(all =~= some || all =~= some.insert(last)) by {
                if links.last() != SENTINEL {
                    assert(all =~= some.insert(last));
                } else {
                    assert(all =~= some);
                }
            }
        } else {
            assert(all =~= some);
        }
    }
}

/// The links do not lead to `stop` in fewer than `k` steps.
pub open spec fn is_before<T>(links: Map<T, T>, start: T, stop: T, k: nat) -> bool {
    forall|j: nat| j < k ==> #[trigger] back(links, start, j) != Some(stop)
}

/// Every index that the links of a flat array lead to from `start` is below
/// `bound`, up to the first `stop`.
pub open spec fn stays_below(links: Seq<u32>, start: u32, stop: u32, bound: int) -> bool {
    forall|k: nat| is_before(flat_links(links), start, stop, k) ==> ((#[trigger] back(
        flat_links(links),
        start,
        k,
    )) matches Some(y) ==> y < bound)
}

/// The indices from `start` along the links up to the first `stop`, or `None`
/// where the links do not lead there.
pub fn trail_flat(links: &Vec<u32>, start: u32, stop: u32) -> (r: Option<Vec<u32>>)
    requires
        stays_below(links@, start, stop, links.len() as int),
    ensures
        r is Some <==> leads(flat_links(links@), start, stop),
        r matches Some(p) ==> is_trail(flat_links(links@), start, stop, p@),
{
    let mut p: Vec<u32> = Vec::new();
    p.push(start);
    let mut cur = start;
    let ghost m = flat_links(links@);
    proof {
        lemma_flat_links_finite(links@);
        assert(back(m, start, 0) == Some(start));
        assert(is_before(m, start, stop, 0));
    }
    while cur != stop
        invariant
            m == flat_links(links@),
            m.dom().finite(),
            m.dom().len() <= links.len(),
            cur < links.len(),
            stays_below(links@, start, stop, links.len() as int),
            p.len() > 0,
            p@.last() == cur,
            forall|i: nat| i < p@.len() ==> #[trigger] back(m, start, i) == Some(p@[i as int]),
            forall|i: int| 0 <= i < p@.len() - 1 ==> m.contains_key(#[trigger] p@[i]),
            forall|i: int| 0 <= i < p@.len() - 1 ==> p@[i] != stop,
            p.len() <= links.len() + 1,
        decreases links.len() + 1 - p.len(),
    {
        let ghost n = p@.len();
        let next = links[cur as usize];
        if next == SENTINEL {
            proof {
                assert(back(m, start, (n - 1) as nat) == Some(p@[n - 1]));
                assert(back(m, start, n) is None);
                assert forall|k: nat| #[trigger] back(m, start, k) != Some(stop) by {
                    if k >= n {
                        lemma_back_ended(m, start, n, k);
                    } else {
                        assert(back(m, start, k) == Some(p@[k as int]));
                    }
                }
            }
            return None;
        }
        if p.len() > links.len() {
            proof {
                lemma_back_crowded(m, start, stop, p@);
            }
            return None;
        }
        cur = next;
        p.push(cur);
        assert(back(m, start, n) == Some(cur)) by {
            assert(back(m, start, (n - 1) as nat) == Some(p@[n - 1]));
        }
        assert(is_before(m, start, stop, n)) by {
            assert forall|j: nat| j < n implies #[trigger] back(m, start, j) != Some(stop) by {
                assert(back(m, start, j) == Some(p@[j as int]));
            }
        }
    }
    assert(back(m, start, (p@.len() - 1) as nat) == Some(stop));
    Some(p)
}

/// The ids of the nodes `p`, last node first.
fn ids_reversed(p: &Vec<u32>, idx_to_id: &Vec<i64>) -> (r: Vec<i64>)
    requires
        forall|i: int| 0 <= i < p.len() ==> #[trigger] p@[i] < idx_to_id.len(),
    ensures
        r@ == p@.reverse().map_values(|i: u32| idx_to_id@[i as int]),
{
    let mut r: Vec<i64> = Vec::new();
    let mut k: usize = p.len();
    while k > 0
        invariant
            k <= p.len(),
            forall|i: int| 0 <= i < p.len() ==> #[trigger] p@[i] < idx_to_id.len(),
            r.len() == p.len() - k,
            forall|j: int|
                0 <= j < r.len() ==> #[trigger] r@[j] == idx_to_id@[p@[p.len() - 1 - j] as int],
        decreases k,
    {
        k = k - 1;
        r.push(idx_to_id[p[k] as usize]);
    }
    assert(r@ =~= p@.reverse().map_values(|i: u32| idx_to_id@[i as int]));
    r
}

/// The ids along the links `came_from` from `src_idx` to `dst_idx`; `None`
/// where following the links back from `dst_idx` does not lead to `src_idx`.
pub fn reconstruct_path_flat(
    came_from: &Vec<u32>,
    src_idx: u32,
    dst_idx: u32,
    idx_to_id: &Vec<i64>,
) -> (r: Option<Vec<i64>>)
    requires
        stays_below(came_from@, dst_idx, src_idx, came_from.len() as int),
        stays_below(came_from@, dst_idx, src_idx, idx_to_id.len() as int),
    ensures
        r is Some <==> leads(flat_links(came_from@), dst_idx, src_idx),
        r matches Some(path) ==> exists|p: Seq<u32>| #[trigger]
            is_trail(flat_links(came_from@), dst_idx, src_idx, p) && path@
                == p.reverse().map_values(|i: u32| idx_to_id@[i as int]),
{
    match trail_flat(came_from, dst_idx, src_idx) {
        Some(p) => {
            proof {
                assert forall|i: int| 0 <= i < p.len() implies #[trigger] p@[i]
                    < idx_to_id.len() by {
                    let m = flat_links(came_from@);
                    assert forall|j: nat| j < i implies #[trigger] back(m, dst_idx, j) != Some(
                        src_idx,
                    ) by {
                        assert(back(m, dst_idx, j) == Some(p@[j as int]));
                    }
                    assert(is_before(m, dst_idx, src_idx, i as nat));
                    assert(back(m, dst_idx, i as nat) == Some(p@[i]));
                }
            }
            Some(ids_reversed(&p, idx_to_id))
        },
        None => None,
    }
}

} // verus!
