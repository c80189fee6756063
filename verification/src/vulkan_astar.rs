//! The side of the GPU search that runs on the CPU: batches of frontier nodes
//! go out, relaxations come back, and the labels are kept in flat arrays.

use crate::heap;
use crate::heap::{Entry, OpenSet};
use crate::order;
use crate::order::order;
use crate::trail;
use crate::trail::{reconstruct_path_flat, trail_flat, SENTINEL};
use crate::voxel;
use crate::voxel::{Cell, CellIndex, VoxelTable};
use std::collections::HashMap;
use vstd::multiset::Multiset;
use vstd::prelude::*;

verus! {

broadcast use vstd::std_specs::hash::group_hash_axioms;

/// Frontier nodes that go out in one batch.
pub const BATCH_SIZE: usize = 512;

/// One relaxation candidate: a jump from `from_idx` to `to_idx`, which is then
/// `new_g` jumps away.
#[derive(Clone, Copy)]
pub struct GpuRelaxation {
    pub from_idx: u32,
    pub to_idx: u32,
    pub new_g: u32,
}

/// The labels, links, closed flags and waiting entries of one direction, as
/// mathematics. `SENTINEL` stands for a label or link that is missing.
#[verifier::ext_equal]
pub struct FlatView {
    pub g: Seq<u32>,
    pub from: Seq<u32>,
    pub closed: Seq<bool>,
    pub open: Multiset<Entry<u32>>,
}

/// The node `id` is `g` jumps away, reached from `from`; it waits unless it is
/// done.
pub open spec fn flat_set(s: FlatView, id: u32, g: u32, from: u32, h: u32) -> FlatView {
    FlatView {
        g: s.g.update(id as int, g),
        from: s.from.update(id as int, from),
        closed: s.closed,
        open: if s.closed[id as int] {
            s.open
        } else {
            s.open.insert(Entry { f: (g + h) as u64, g, id })
        },
    }
}

/// The state in which one direction starts from `seed`, `seed_g` jumps away.
pub open spec fn flat_seeded(n: nat, seed: u32, seed_g: u32, h: u32) -> FlatView {
    FlatView {
        g: Seq::new(n, |i: int| SENTINEL).update(seed as int, seed_g),
        from: Seq::new(n, |i: int| SENTINEL),
        closed: Seq::new(n, |i: int| false),
        open: Multiset::empty().insert(
            Entry { f: (seed_g + h) as u64, g: seed_g, id: seed },
        ),
    }
}

/// The entry `e` is taken out of the open set.
pub open spec fn without(s: FlatView, e: Entry<u32>) -> FlatView {
    FlatView { open: s.open.remove(e), ..s }
}

/// The entry `e` is of no use: it has as many jumps as the bound `mu`, its
/// node is done, or a better way to its node has been found since.
pub open spec fn is_stale(s: FlatView, mu: u32, e: Entry<u32>) -> bool {
    e.g >= mu || s.closed[e.id as int] || e.g > s.g[e.id as int]
}

/// The node `id` is done.
pub open spec fn flat_closed(s: FlatView, id: u32) -> FlatView {
    FlatView { closed: s.closed.update(id as int, true), ..s }
}

/// The flat arrays of one direction.
struct Flat {
    g: Vec<u32>,
    from: Vec<u32>,
    closed: Vec<bool>,
    open: OpenSet<u32>,
}

impl Flat {
    spec fn view(&self) -> FlatView {
        FlatView { g: self.g@, from: self.from@, closed: self.closed@, open: self.open@ }
    }

    /// The arrays have a slot for each of `n` nodes.
    spec fn wf(&self, n: int) -> bool {
        self.open.wf() && self.g.len() == n && self.from.len() == n && self.closed.len() == n
    }

    fn seed(n: usize, seed: u32, seed_g: u32, h: u32) -> (s: Flat)
        requires
            seed < n,
        ensures
            s.wf(n as int),
            s@ == flat_seeded(n as nat, seed, seed_g, h),
    {
        let mut g: Vec<u32> = vec![SENTINEL;n];
        let from: Vec<u32> = vec![SENTINEL;n];
        let closed: Vec<bool> = vec![false;n];
        let mut open = OpenSet::new();
        g[seed as usize] = seed_g;
        open.push(Entry { f: seed_g as u64 + h as u64, g: seed_g, id: seed });
        let s = Flat { g, from, closed, open };
        assert(s@ =~= flat_seeded(n as nat, seed, seed_g, h));
        s
    }

    fn set(&mut self, id: u32, g: u32, from: u32, h: u32)
        requires
            exists|n: int| #[trigger] old(self).wf(n) && id < n,
        ensures
            forall|n: int| #[trigger] old(self).wf(n) ==> final(self).wf(n),
            final(self)@ == flat_set(old(self)@, id, g, from, h),
    {
        self.g[id as usize] = g;
        self.from[id as usize] = from;
        if !self.closed[id as usize] {
            self.open.push(Entry { f: g as u64 + h as u64, g, id });
        }
    }
}

/// The nodes of a graph by index, and the index of each id.
pub struct GraphIndex {
    pub id_to_idx: HashMap<i64, u32>,
    pub idx_to_id: Vec<i64>,
}

impl GraphIndex {
    /// Every index that an id has is the index of a node with that id.
    pub open spec fn wf(&self) -> bool {
        &&& self.idx_to_id.len() <= SENTINEL
        &&& forall|id: i64| #[trigger]
            self.id_to_idx@.contains_key(id) ==> self.id_to_idx@[id] < self.idx_to_id.len()
                && self.idx_to_id@[self.id_to_idx@[id] as int] == id
    }
}

/// The state of the search in one direction: its arrays, and the best number
/// of jumps to the destination.
#[verifier::ext_equal]
pub struct UniView {
    pub s: FlatView,
    pub best: u32,
}

/// The state while a batch is filled; `hit` says that the destination was
/// among the entries that were taken.
#[verifier::ext_equal]
pub struct DrainView {
    pub u: UniView,
    pub batch: Seq<(u32, u32)>,
    pub hit: bool,
}

/// The entry `e` is taken while a batch is filled.
pub open spec fn drained_one(x: DrainView, e: Entry<u32>, dst: u32) -> DrainView {
    let rest = without(x.u.s, e);
    if is_stale(x.u.s, x.u.best, e) {
        DrainView { u: UniView { s: rest, ..x.u }, ..x }
    } else if e.id == dst {
        DrainView { u: UniView { s: flat_closed(rest, e.id), best: e.g }, hit: true, ..x }
    } else {
        DrainView {
            u: UniView { s: flat_closed(rest, e.id), ..x.u },
            batch: x.batch.push((e.id, e.g)),
            ..x
        }
    }
}

/// The batch can still take entries.
pub open spec fn has_room(x: DrainView) -> bool {
    !x.hit && x.batch.len() < BATCH_SIZE && x.u.s.open.len() > 0
}

/// One more entry is taken while a batch is filled.
pub open spec fn drain_step(x: DrainView, y: DrainView, dst: u32) -> bool {
    has_room(x) && exists|e: Entry<u32>| #[trigger]
        heap::is_least(x.u.s.open, e) && y == drained_one(x, e, dst)
}

/// `xs` holds the states while a batch is filled, entry by entry.
pub open spec fn drain_run(u: UniView, dst: u32, xs: Seq<DrainView>) -> bool {
    &&& xs.len() > 0
    &&& xs[0] == (DrainView { u, batch: Seq::empty(), hit: false })
    &&& forall|i: int|
        0 <= i < xs.len() - 1 ==> drain_step(#[trigger] xs[i], xs[i + 1], dst)
}

/// `x` is the state after a batch has been filled.
pub open spec fn is_drained(u: UniView, dst: u32, x: DrainView) -> bool {
    !has_room(x) && exists|xs: Seq<DrainView>| #[trigger] drain_run(u, dst, xs) && xs.last() == x
}

/// The relaxation `r` is taken in.
pub open spec fn uni_relaxed(u: UniView, r: GpuRelaxation, dst: u32, est: Seq<u32>) -> UniView {
    let to = r.to_idx as int;
    if r.to_idx == dst {
        if r.new_g < u.best {
            UniView {
                s: FlatView {
                    g: u.s.g.update(to, r.new_g),
                    from: u.s.from.update(to, r.from_idx),
                    ..u.s
                },
                best: r.new_g,
            }
        } else {
            u
        }
    } else if r.new_g < u.s.g[to] {
        UniView { s: flat_set(u.s, r.to_idx, r.new_g, r.from_idx, est[to]), ..u }
    } else {
        u
    }
}

/// The first `n` relaxations are taken in.
pub open spec fn uni_relaxed_all(
    u: UniView,
    rel: Seq<GpuRelaxation>,
    dst: u32,
    est: Seq<u32>,
    n: int,
) -> UniView
    decreases n,
{
    if n <= 0 {
        u
    } else {
        uni_relaxed(uni_relaxed_all(u, rel, dst, est, n - 1), rel[n - 1], dst, est)
    }
}

/// One turn of the search: a batch is filled and sent out, and the
/// relaxations that come back are taken in.
pub open spec fn uni_turn<D: Fn(&Vec<(u32, u32)>, u32) -> Option<Vec<GpuRelaxation>>>(
    dispatch: D,
    dst: u32,
    est: Seq<u32>,
    u: UniView,
    v: UniView,
) -> bool {
    u.s.open.len() > 0 && exists|x: DrainView, batch: Vec<(u32, u32)>, rel: Vec<GpuRelaxation>|
        is_drained(u, dst, x) && x.batch.len() > 0 && batch@ == x.batch && #[trigger]
            call_ensures(dispatch, (&batch, x.u.best), Some(rel)) && v == #[trigger]
            uni_relaxed_all(x.u, rel@, dst, est, rel@.len() as int)
}

/// `run` holds the states of the search, turn by turn.
pub open spec fn uni_run<D: Fn(&Vec<(u32, u32)>, u32) -> Option<Vec<GpuRelaxation>>>(
    dispatch: D,
    dst: u32,
    est: Seq<u32>,
    start: UniView,
    run: Seq<UniView>,
) -> bool {
    &&& run.len() > 0
    &&& run[0] == start
    &&& forall|i: int|
        0 <= i < run.len() - 1 ==> uni_turn(dispatch, dst, est, #[trigger] run[i], run[i + 1])
}

/// The relaxation `r` starts at a node of the batch and counts one jump more.
pub open spec fn from_frontier(batch: Seq<(u32, u32)>, r: GpuRelaxation) -> bool {
    exists|i: int|
        0 <= i < batch.len() && (#[trigger] batch[i]).0 == r.from_idx && batch[i].1 + 1 == r.new_g
}

/// What comes back for a batch are relaxations of its nodes, to nodes of the
/// graph.
pub open spec fn is_faithful<D: Fn(&Vec<(u32, u32)>, u32) -> Option<Vec<GpuRelaxation>>>(
    dispatch: D,
    n: int,
) -> bool {
    &&& forall|batch: Vec<(u32, u32)>, mu: u32| #[trigger] call_requires(dispatch, (&batch, mu))
    &&& forall|batch: Vec<(u32, u32)>, mu: u32, rel: Vec<GpuRelaxation>, k: int| #[trigger]
        call_ensures(dispatch, (&batch, mu), Some(rel)) && 0 <= k < rel.len() ==> (
        #[trigger] rel@[k]).to_idx < n && from_frontier(batch@, rel@[k])
}

/// A relaxation from `a` to `b` can come back.
pub open spec fn emits<D: Fn(&Vec<(u32, u32)>, u32) -> Option<Vec<GpuRelaxation>>>(
    dispatch: D,
    a: u32,
    b: u32,
) -> bool {
    exists|batch: Vec<(u32, u32)>, mu: u32, rel: Vec<GpuRelaxation>, k: int| #[trigger]
        call_ensures(dispatch, (&batch, mu), Some(rel)) && 0 <= k < rel.len() && (
        #[trigger] rel@[k]).from_idx == a && rel@[k].to_idx == b
}

/// The number of nodes that are not done.
spec fn unclosed(closed: Seq<bool>) -> nat
    decreases closed.len(),
{
    if closed.len() == 0 {
        0
    } else {
        unclosed(closed.drop_last()) + if closed.last() {
            0nat
        } else {
            1nat
        }
    }
}

proof fn lemma_unclosed(closed: Seq<bool>, i: int)
    requires
        0 <= i < closed.len(),
        !closed[i],
    ensures
        unclosed(closed.update(i, true)) + 1 == unclosed(closed),
    decreases closed.len(),
{
    let c = closed.update(i, true);
    if i == closed.len() - 1 {
        assert(c.drop_last() =~= closed.drop_last());
    } else {
        lemma_unclosed(closed.drop_last(), i);
        assert(c.drop_last() =~= closed.drop_last().update(i, true));
    }
}

/// What holds of the arrays of one direction at all times: links lead from
/// labelled nodes to nodes with fewer jumps, by relaxations that came back.
spec fn flat_ok<D: Fn(&Vec<(u32, u32)>, u32) -> Option<Vec<GpuRelaxation>>>(
    dispatch: D,
    n: int,
    seed: u32,
    seed_g: u32,
    s: FlatView,
) -> bool {
    &&& s.g.len() == n && s.from.len() == n && s.closed.len() == n
    &&& seed < n && s.g[seed as int] == seed_g && s.from[seed as int] == SENTINEL
    &&& forall|i: u32|
        i < n && #[trigger] s.from[i as int] != SENTINEL ==> s.from[i as int] < n && s.g[i as int]
            != SENTINEL && s.g[s.from[i as int] as int] < s.g[i as int] && emits(
            dispatch,
            s.from[i as int],
            i,
        )
    &&& forall|i: int|
        0 <= i < n && #[trigger] s.g[i] != SENTINEL ==> i == seed || s.from[i] != SENTINEL
    &&& forall|e: Entry<u32>| #[trigger]
        s.open.contains(e) ==> e.id < n && s.g[e.id as int] <= e.g && seed_g <= e.g && e.f
            < u64::MAX
}

/// The nodes of a batch have labels of at most the jumps that they were sent
/// out with.
spec fn batch_ok(n: int, seed_g: u32, s: FlatView, batch: Seq<(u32, u32)>) -> bool {
    forall|i: int|
        0 <= i < batch.len() ==> (#[trigger] batch[i]).0 < n && s.g[batch[i].0 as int]
            <= batch[i].1 && seed_g <= batch[i].1
}

/// Taking in a relaxation that is an improvement keeps what holds of the
/// arrays.
proof fn lemma_flat_set_ok<D: Fn(&Vec<(u32, u32)>, u32) -> Option<Vec<GpuRelaxation>>>(
    dispatch: D,
    n: int,
    seed: u32,
    seed_g: u32,
    s: FlatView,
    batch: Seq<(u32, u32)>,
    r: GpuRelaxation,
    h: u32,
    waits: bool,
)
    requires
        n <= SENTINEL,
        flat_ok(dispatch, n, seed, seed_g, s),
        batch_ok(n, seed_g, s, batch),
        from_frontier(batch, r),
        r.to_idx < n,
        r.new_g < s.g[r.to_idx as int],
        emits(dispatch, r.from_idx, r.to_idx),
    ensures
        ({
            let t = FlatView {
                g: s.g.update(r.to_idx as int, r.new_g),
                from: s.from.update(r.to_idx as int, r.from_idx),
                closed: s.closed,
                open: if waits {
                    s.open.insert(
                        Entry { f: (r.new_g + h) as u64, g: r.new_g, id: r.to_idx },
                    )
                } else {
                    s.open
                },
            };
            flat_ok(dispatch, n, seed, seed_g, t) && batch_ok(n, seed_g, t, batch)
        }),
{
    let new = Entry { f: (r.new_g + h) as u64, g: r.new_g, id: r.to_idx };
    let t = FlatView {
        g: s.g.update(r.to_idx as int, r.new_g),
        from: s.from.update(r.to_idx as int, r.from_idx),
        closed: s.closed,
        open: if waits {
            s.open.insert(new)
        } else {
            s.open
        },
    };
    let b = choose|i: int|
        0 <= i < batch.len() && (#[trigger] batch[i]).0 == r.from_idx && batch[i].1 + 1 == r.new_g;
    assert(s.g[r.from_idx as int] <= batch[b].1);
    assert(r.to_idx != seed);
    assert forall|e: Entry<u32>| #[trigger] t.open.contains(e) implies e.id < n && t.g[e.id as int]
        <= e.g && seed_g <= e.g && e.f < u64::MAX by {
        crate::astar::lemma_insert_contains(s.open, new, e);
        if e != new {
            assert(s.open.contains(e));
        }
    }
    assert forall|i: u32| i < n && #[trigger] t.from[i as int] != SENTINEL implies t.from[i as int]
        < n && t.g[i as int] != SENTINEL && t.g[t.from[i as int] as int] < t.g[i as int] && emits(
        dispatch,
        t.from[i as int],
        i,
    ) by {
        if i != r.to_idx {
            assert(s.from[i as int] != SENTINEL);
        }
    }
    assert forall|i: int| 0 <= i < n && #[trigger] t.g[i] != SENTINEL implies i == seed || t.from[i]
        != SENTINEL by {
        if i != r.to_idx {
            assert(s.g[i] != SENTINEL);
        }
    }
}

/// Taking an entry out of the open set, and closing its node or not, keeps
/// what holds of the arrays.
proof fn lemma_flat_taken_ok<D: Fn(&Vec<(u32, u32)>, u32) -> Option<Vec<GpuRelaxation>>>(
    dispatch: D,
    n: int,
    seed: u32,
    seed_g: u32,
    s: FlatView,
    e: Entry<u32>,
)
    requires
        flat_ok(dispatch, n, seed, seed_g, s),
        s.open.contains(e),
    ensures
        flat_ok(dispatch, n, seed, seed_g, without(s, e)),
        flat_ok(dispatch, n, seed, seed_g, flat_closed(without(s, e), e.id)),
        without(s, e).open.len() < s.open.len(),
        e.id < n,
{
    broadcast use vstd::multiset::group_multiset_axioms;

    assert forall|o: Entry<u32>| #[trigger] s.open.remove(e).contains(o) implies s.open.contains(
        o,
    ) by {
        crate::astar::lemma_remove_contains(s.open, e, o);
    }
}

/// Links lead from every labelled node to the seed, and a trail there has at
/// most as many links as the labels differ by.
proof fn lemma_flat_leads<D: Fn(&Vec<(u32, u32)>, u32) -> Option<Vec<GpuRelaxation>>>(
    dispatch: D,
    n: int,
    seed: u32,
    seed_g: u32,
    s: FlatView,
    x: u32,
) -> (k: nat)
    requires
        n <= SENTINEL,
        flat_ok(dispatch, n, seed, seed_g, s),
        x < n,
        s.g[x as int] != SENTINEL,
    ensures
        trail::back(trail::flat_links(s.from), x, k) == Some(seed),
        seed_g + k <= s.g[x as int],
        forall|j: nat|
            j <= k ==> ((#[trigger] trail::back(trail::flat_links(s.from), x, j)) matches Some(y)
                && y < n),
    decreases s.g[x as int],
{
    let links = trail::flat_links(s.from);
    if x == seed {
        assert(trail::back(links, x, 0) == Some(seed));
        0
    } else {
        assert(s.from[x as int] != SENTINEL);
        let y = s.from[x as int];
        assert(links.contains_key(x));
        let k = lemma_flat_leads(dispatch, n, seed, seed_g, s, y);
        crate::astar::lemma_back_step(links, x, k);
        assert forall|j: nat| j <= k + 1 implies ((#[trigger] trail::back(links, x, j)) matches Some(
            z,
        ) && z < n) by {
            if j > 0 {
                crate::astar::lemma_back_step(links, x, (j - 1) as nat);
                assert(trail::back(links, y, (j - 1) as nat) matches Some(z) && z < n);
            } else {
                assert(trail::back(links, x, 0) == Some(x));
            }
        }
        (k + 1) as nat
    }
}

/// From a labelled node, links never lead out of the graph.
proof fn lemma_flat_stays<D: Fn(&Vec<(u32, u32)>, u32) -> Option<Vec<GpuRelaxation>>>(
    dispatch: D,
    n: int,
    seed: u32,
    seed_g: u32,
    s: FlatView,
    x: u32,
    k: nat,
)
    requires
        n <= SENTINEL,
        flat_ok(dispatch, n, seed, seed_g, s),
        x < n,
    ensures
        trail::back(trail::flat_links(s.from), x, k) matches Some(y) ==> y < n,
    decreases k,
{
    if k > 0 {
        lemma_flat_stays(dispatch, n, seed, seed_g, s, x, (k - 1) as nat);
    }
}

/// The search stops in the state `v` after the turns that led to `u`: nothing
/// waits, or a batch stays empty.
pub open spec fn uni_stops(u: UniView, dst: u32, v: UniView) -> bool {
    ||| u.s.open.len() == 0 && v == u
    ||| u.s.open.len() > 0 && exists|x: DrainView| #[trigger]
        is_drained(u, dst, x) && x.batch.len() == 0 && v == x.u
}

/// A batch that is sent out after the turns that led to `u` fails.
pub open spec fn uni_fails<D: Fn(&Vec<(u32, u32)>, u32) -> Option<Vec<GpuRelaxation>>>(
    dispatch: D,
    u: UniView,
    dst: u32,
) -> bool {
    exists|x: DrainView, batch: Vec<(u32, u32)>|
        is_drained(u, dst, x) && batch@ == x.batch && #[trigger] call_ensures(
            dispatch,
            (&batch, x.u.best),
            None::<Vec<GpuRelaxation>>,
        )
}

/// The answer that the search owes in the state `v`: the ids along the links
/// back from `dst` to `src`, where `dst` was reached with fewer jumps than
/// the limit.
pub open spec fn uni_answer(
    v: UniView,
    src: u32,
    dst: u32,
    limit: u32,
    idx_to_id: Seq<i64>,
    r: Option<Vec<i64>>,
) -> bool {
    let links = trail::flat_links(v.s.from);
    let reached = v.best < limit && (v.s.from[dst as int] != SENTINEL || v.s.closed[dst as int]);
    &&& r is Some <==> reached && trail::leads(links, dst, src)
    &&& r matches Some(p) ==> exists|q: Seq<u32>| #[trigger]
        trail::is_trail(links, dst, src, q) && p@ == q.reverse().map_values(
            |i: u32| idx_to_id[i as int],
        )
}

/// `p` holds the ids of nodes that follow each other by relaxations.
pub open spec fn is_emitted_route<
    D: Fn(&Vec<(u32, u32)>, u32) -> Option<Vec<GpuRelaxation>>,
>(dispatch: D, idx_to_id: Seq<i64>, p: Seq<i64>, q: Seq<u32>) -> bool {
    &&& p == q.map_values(|i: u32| idx_to_id[i as int])
    &&& forall|i: int| 0 <= i < q.len() ==> (#[trigger] q[i]) < idx_to_id.len()
    &&& forall|i: int| 0 <= i < q.len() - 1 ==> emits(dispatch, #[trigger] q[i], q[i + 1])
}

/// What holds of the search in one direction at all times.
spec fn uni_ok<D: Fn(&Vec<(u32, u32)>, u32) -> Option<Vec<GpuRelaxation>>>(
    dispatch: D,
    n: int,
    src: u32,
    dst: u32,
    limit: u32,
    u: UniView,
) -> bool {
    &&& flat_ok(dispatch, n, src, 0, u.s)
    &&& dst < n
    &&& u.best <= limit
    &&& src != dst ==> (u.s.g[dst as int] != SENTINEL ==> u.s.g[dst as int] == u.best)
    &&& u.best < limit ==> u.s.g[dst as int] != SENTINEL && u.s.g[dst as int] <= u.best
    &&& src == dst ==> forall|i: int|
        0 <= i < n && #[trigger] u.s.g[i] != SENTINEL ==> i == src
}

/// Fills a batch with the entries that rank first.
fn drain(
    s: &mut Flat,
    best: &mut u32,
    dst: u32,
    Ghost(n): Ghost<int>,
) -> (batch: Vec<(u32, u32)>)
    requires
        old(s).wf(n),
        forall|e: Entry<u32>| #[trigger] old(s)@.open.contains(e) ==> e.id < n,
    ensures
        final(s).wf(n),
        exists|x: DrainView| #[trigger]
            is_drained(uni(old(s)@, *old(best)), dst, x) && x.u == uni(final(s)@, *final(best))
                && x.batch == batch@,
{
    let mut batch: Vec<(u32, u32)> = Vec::new();
    let mut hit = false;
    let ghost u = uni(s@, *best);
    let ghost mut xs: Seq<DrainView> = seq![DrainView { u, batch: Seq::empty(), hit: false }];
    while !hit && batch.len() < BATCH_SIZE
        invariant
            s.wf(n),
            forall|e: Entry<u32>| #[trigger] s@.open.contains(e) ==> e.id < n,
            drain_run(u, dst, xs),
            xs.last() == (DrainView { u: uni(s@, *best), batch: batch@, hit }),
        ensures
            !has_room(xs.last()),
        decreases s@.open.len(),
    {
        let ghost x = xs.last();
        let e = match s.open.pop() {
            Some(e) => e,
            None => {
                break;
            },
        };
        proof {
            broadcast use vstd::multiset::group_multiset_axioms;

            assert(has_room(x));
            assert forall|o: Entry<u32>| #[trigger] s@.open.contains(o) implies x.u.s.open.contains(
                o,
            ) by {
                crate::astar::lemma_remove_contains(x.u.s.open, e, o);
            }
        }
        let i: usize = e.id as usize;
        if !(e.g >= *best || s.closed[i] || e.g > s.g[i]) {
            s.closed[i] = true;
            if e.id == dst {
                *best = e.g;
                hit = true;
            } else {
                batch.push((e.id, e.g));
            }
        }
        proof {
            let y = DrainView { u: uni(s@, *best), batch: batch@, hit };
            assert(y =~= drained_one(x, e, dst));
            assert(heap::is_least(x.u.s.open, e));
            assert(drain_step(x, y, dst));
            xs = xs.push(y);
        }
    }
    assert(is_drained(u, dst, xs.last()));
    batch
}

/// The arrays with the best number of jumps.
pub open spec fn uni(s: FlatView, best: u32) -> UniView {
    UniView { s, best }
}

/// Filling a batch keeps what holds of the search; its nodes carry their
/// labels.
proof fn lemma_drain_ok<D: Fn(&Vec<(u32, u32)>, u32) -> Option<Vec<GpuRelaxation>>>(
    dispatch: D,
    n: int,
    src: u32,
    dst: u32,
    limit: u32,
    u: UniView,
    xs: Seq<DrainView>,
    k: int,
)
    requires
        n <= SENTINEL,
        uni_ok(dispatch, n, src, dst, limit, u),
        drain_run(u, dst, xs),
        0 <= k < xs.len(),
    ensures
        uni_ok(dispatch, n, src, dst, limit, xs[k].u),
        batch_ok(n, 0, xs[k].u.s, xs[k].batch),
        src == dst ==> xs[k].batch.len() == 0,
        unclosed(xs[k].u.s.closed) + xs[k].batch.len() <= unclosed(u.s.closed),
        xs[k].u.s.open.len() <= u.s.open.len(),
    decreases k,
{
    if k > 0 {
        lemma_drain_ok(dispatch, n, src, dst, limit, u, xs, k - 1);
        let x = xs[k - 1];
        assert(drain_step(xs[k - 1], xs[k - 1 + 1], dst));
        let e = choose|e: Entry<u32>| #[trigger]
            heap::is_least(x.u.s.open, e) && xs[k] == drained_one(x, e, dst);
        lemma_flat_taken_ok(dispatch, n, src, 0, x.u.s, e);
        if !is_stale(x.u.s, x.u.best, e) {
            lemma_unclosed(x.u.s.closed, e.id as int);
        }
    }
}

/// Taking in relaxations of a batch keeps what holds of the search.
proof fn lemma_uni_relaxed_ok<D: Fn(&Vec<(u32, u32)>, u32) -> Option<Vec<GpuRelaxation>>>(
    dispatch: D,
    n: int,
    src: u32,
    dst: u32,
    limit: u32,
    est: Seq<u32>,
    u: UniView,
    batch: Vec<(u32, u32)>,
    mu: u32,
    rel: Vec<GpuRelaxation>,
    k: int,
)
    requires
        n <= SENTINEL,
        is_faithful(dispatch, n),
        uni_ok(dispatch, n, src, dst, limit, u),
        batch_ok(n, 0, u.s, batch@),
        src == dst ==> batch.len() == 0,
        call_ensures(dispatch, (&batch, mu), Some(rel)),
        0 <= k <= rel.len(),
    ensures
        uni_ok(dispatch, n, src, dst, limit, uni_relaxed_all(u, rel@, dst, est, k)),
        batch_ok(n, 0, uni_relaxed_all(u, rel@, dst, est, k).s, batch@),
        uni_relaxed_all(u, rel@, dst, est, k).s.closed == u.s.closed,
    decreases k,
{
    if k > 0 {
        lemma_uni_relaxed_ok(dispatch, n, src, dst, limit, est, u, batch, mu, rel, k - 1);
        let v = uni_relaxed_all(u, rel@, dst, est, k - 1);
        let r = rel@[k - 1];
        assert(r.to_idx < n && from_frontier(batch@, r));
        assert(emits(dispatch, r.from_idx, r.to_idx));
        assert(src != dst);
        if r.to_idx == dst {
            if r.new_g < v.best {
                lemma_flat_set_ok(dispatch, n, src, 0, v.s, batch@, r, 0, false);
            }
        } else if r.new_g < v.s.g[r.to_idx as int] {
            lemma_flat_set_ok(
                dispatch,
                n,
                src,
                0,
                v.s,
                batch@,
                r,
                est[r.to_idx as int],
                !v.s.closed[r.to_idx as int],
            );
        }
    }
}

/// Whenever the node `a` is sent out, a relaxation from it to `b` comes back,
/// as long as that has fewer jumps than the bound.
pub open spec fn shows<D: Fn(&Vec<(u32, u32)>, u32) -> Option<Vec<GpuRelaxation>>>(
    dispatch: D,
    a: u32,
    b: u32,
) -> bool {
    forall|batch: Vec<(u32, u32)>, mu: u32, rel: Vec<GpuRelaxation>, i: int| #[trigger]
        call_ensures(dispatch, (&batch, mu), Some(rel)) && 0 <= i < batch.len() && (
        #[trigger] batch@[i]).0 == a && batch@[i].1 + 1 < mu ==> exists|k: int|
            0 <= k < rel.len() && (#[trigger] rel@[k]).from_idx == a && rel@[k].to_idx == b
                && rel@[k].new_g == batch@[i].1 + 1
}

/// `w` leads from `src` to `dst` over nodes of the graph, each jump by a
/// relaxation that always comes back.
pub open spec fn is_shown_walk<D: Fn(&Vec<(u32, u32)>, u32) -> Option<Vec<GpuRelaxation>>>(
    dispatch: D,
    n: int,
    src: u32,
    dst: u32,
    w: Seq<u32>,
) -> bool {
    &&& w.len() > 0 && w[0] == src && w.last() == dst
    &&& forall|i: int| 0 <= i < w.len() ==> (#[trigger] w[i]) < n
    &&& forall|i: int| 0 <= i < w.len() - 1 ==> shows(dispatch, #[trigger] w[i], w[i + 1])
}

/// A batch that is sent out can fail.
pub open spec fn can_fail<D: Fn(&Vec<(u32, u32)>, u32) -> Option<Vec<GpuRelaxation>>>(
    dispatch: D,
) -> bool {
    exists|batch: Vec<(u32, u32)>, mu: u32| #[trigger]
        call_ensures(dispatch, (&batch, mu), None::<Vec<GpuRelaxation>>)
}

/// A node of a batch.
spec fn is_sent(batch: Seq<(u32, u32)>, a: u32) -> bool {
    exists|i: int| 0 <= i < batch.len() && (#[trigger] batch[i]).0 == a
}

/// The entry that waits for a node with its label.
spec fn waits_for(open: Multiset<Entry<u32>>, id: u32, g: u32) -> bool {
    exists|e: Entry<u32>| #[trigger] open.contains(e) && e.id == id && e.g == g
}

/// What holds while the destination has not been reached: a node with a label
/// waits or is done, and what a node shows that is done, and no longer in a
/// batch, has a label; no label is larger than the number of nodes that are
/// done.
spec fn is_live<D: Fn(&Vec<(u32, u32)>, u32) -> Option<Vec<GpuRelaxation>>>(
    dispatch: D,
    n: int,
    dst: u32,
    s: FlatView,
    batch: Seq<(u32, u32)>,
) -> bool {
    &&& s.g.len() == n && s.closed.len() == n && dst < n && !s.closed[dst as int]
    &&& forall|i: u32|
        i < n && i != dst && #[trigger] s.g[i as int] != SENTINEL && !s.closed[i as int]
            ==> waits_for(s.open, i, s.g[i as int])
    &&& forall|e: Entry<u32>| #[trigger]
        s.open.contains(e) ==> e.id < n && e.id != dst && e.g + unclosed(s.closed) <= n
    &&& forall|a: u32, b: u32|
        a < n && b < n && s.closed[a as int] && !is_sent(batch, a) && #[trigger] shows(dispatch, a,
            b)
            ==> b != dst && s.g[b as int] != SENTINEL
    &&& forall|i: int|
        0 <= i < batch.len() ==> (#[trigger] batch[i]).0 < n && batch[i].1 + 1 + unclosed(s.closed)
            <= n
}

proof fn lemma_some_unclosed(closed: Seq<bool>, i: int)
    requires
        0 <= i < closed.len(),
        !closed[i],
    ensures
        unclosed(closed) >= 1,
    decreases closed.len(),
{
    if i < closed.len() - 1 {
        lemma_some_unclosed(closed.drop_last(), i);
    }
}

proof fn lemma_all_unclosed(n: nat)
    ensures
        unclosed(Seq::new(n, |i: int| false)) == n,
    decreases n,
{
    if n > 0 {
        lemma_all_unclosed((n - 1) as nat);
        assert(Seq::new(n, |i: int| false).drop_last() =~= Seq::new(
            (n - 1) as nat,
            |i: int| false,
        ));
    }
}

/// Taking an entry while a batch is filled keeps the search alive.
proof fn lemma_drained_live<D: Fn(&Vec<(u32, u32)>, u32) -> Option<Vec<GpuRelaxation>>>(
    dispatch: D,
    n: int,
    dst: u32,
    x: DrainView,
    e: Entry<u32>,
)
    requires
        is_live(dispatch, n, dst, x.u.s, x.batch),
        n <= x.u.best,
        !x.hit,
        x.u.s.open.contains(e),
    ensures
        ({
            let y = drained_one(x, e, dst);
            is_live(dispatch, n, dst, y.u.s, y.batch) && y.u.best == x.u.best && !y.hit
        }),
{
    broadcast use vstd::multiset::group_multiset_axioms;

    let s = x.u.s;
    let y = drained_one(x, e, dst);
    let t = y.u.s;
    lemma_some_unclosed(s.closed, dst as int);
    assert(e.g < x.u.best);
    assert forall|o: Entry<u32>| #[trigger] t.open.contains(o) implies s.open.contains(o) by {
        crate::astar::lemma_remove_contains(s.open, e, o);
    }
    if !is_stale(s, x.u.best, e) {
        lemma_unclosed(s.closed, e.id as int);
        assert(y.batch == x.batch.push((e.id, e.g)));
        assert forall|a: u32, b: u32|
            a < n && b < n && t.closed[a as int] && !is_sent(y.batch, a) && #[trigger] shows(
                dispatch,
                a,
                b,
            ) implies b != dst && t.g[b as int] != SENTINEL by {
            assert(y.batch[x.batch.len() as int].0 == e.id);
            assert(a != e.id);
            if is_sent(x.batch, a) {
                let i = choose|i: int| 0 <= i < x.batch.len() && (#[trigger] x.batch[i]).0 == a;
                assert(y.batch[i].0 == a);
            }
        }
        assert forall|i: int| 0 <= i < y.batch.len() implies (#[trigger] y.batch[i]).0 < n
            && y.batch[i].1 + 1 + unclosed(t.closed) <= n by {
            if i < x.batch.len() {
                assert(y.batch[i] == x.batch[i]);
            }
        }
    }
    assert forall|i: u32|
        i < n && i != dst && #[trigger] t.g[i as int] != SENTINEL
            && !t.closed[i as int] implies waits_for(
        t.open,
        i,
        t.g[i as int],
    ) by {
        assert(s.g[i as int] != SENTINEL && !s.closed[i as int]);
        let o = choose|o: Entry<u32>| #[trigger]
            s.open.contains(o) && o.id == i && o.g == s.g[i as int];
        assert(o != e);
        assert(t.open.contains(o));
    }
}

/// Filling a batch keeps the search alive.
proof fn lemma_drain_live<D: Fn(&Vec<(u32, u32)>, u32) -> Option<Vec<GpuRelaxation>>>(
    dispatch: D,
    n: int,
    dst: u32,
    u: UniView,
    xs: Seq<DrainView>,
    k: int,
)
    requires
        is_live(dispatch, n, dst, u.s, Seq::empty()),
        n <= u.best,
        drain_run(u, dst, xs),
        0 <= k < xs.len(),
    ensures
        is_live(dispatch, n, dst, xs[k].u.s, xs[k].batch),
        xs[k].u.best == u.best,
        !xs[k].hit,
    decreases k,
{
    if k > 0 {
        lemma_drain_live(dispatch, n, dst, u, xs, k - 1);
        let x = xs[k - 1];
        assert(drain_step(xs[k - 1], xs[k - 1 + 1], dst));
        let e = choose|e: Entry<u32>| #[trigger]
            heap::is_least(x.u.s.open, e) && xs[k] == drained_one(x, e, dst);
        lemma_drained_live(dispatch, n, dst, x, e);
    }
}

/// Taking in relaxations keeps the search alive until the destination is
/// reached; every node that they lead to has a label then.
proof fn lemma_relaxed_live<D: Fn(&Vec<(u32, u32)>, u32) -> Option<Vec<GpuRelaxation>>>(
    dispatch: D,
    n: int,
    dst: u32,
    est: Seq<u32>,
    u: UniView,
    batch: Vec<(u32, u32)>,
    rel: Vec<GpuRelaxation>,
    k: int,
)
    requires
        n <= SENTINEL,
        n <= u.best,
        is_faithful(dispatch, n),
        is_live(dispatch, n, dst, u.s, batch@),
        call_ensures(dispatch, (&batch, u.best), Some(rel)),
        0 <= k <= rel.len(),
    ensures
        ({
            let v = uni_relaxed_all(u, rel@, dst, est, k);
            &&& v.best <= u.best
            &&& v.best == u.best ==> is_live(dispatch, n, dst, v.s, batch@) && v.s.closed
                == u.s.closed
            &&& v.best == u.best ==> forall|j: int|
                0 <= j < k ==> (#[trigger] rel@[j]).to_idx != dst && v.s.g[rel@[j].to_idx as int]
                    != SENTINEL
        }),
    decreases k,
{
    broadcast use vstd::multiset::group_multiset_axioms;

    if k > 0 {
        lemma_relaxed_live(dispatch, n, dst, est, u, batch, rel, k - 1);
        let v = uni_relaxed_all(u, rel@, dst, est, k - 1);
        let r = rel@[k - 1];
        let t = uni_relaxed(v, r, dst, est);
        assert(r.to_idx < n && from_frontier(batch@, r));
        if v.best == u.best {
            let i = choose|i: int|
                0 <= i < batch@.len() && (#[trigger] batch@[i]).0 == r.from_idx && batch@[i].1 + 1
                    == r.new_g;
            lemma_some_unclosed(v.s.closed, dst as int);
            assert(r.new_g + unclosed(v.s.closed) <= n);
            if r.to_idx != dst && r.new_g < v.s.g[r.to_idx as int] {
                let new = Entry {
                    f: (r.new_g + est[r.to_idx as int]) as u64,
                    g: r.new_g,
                    id: r.to_idx,
                };
                assert forall|o: Entry<u32>| #[trigger]
                    t.s.open.contains(o) implies v.s.open.contains(o) || o == new by {
                    crate::astar::lemma_insert_contains(v.s.open, new, o);
                }
                assert forall|j: u32|
                    j < n && j != dst && #[trigger] t.s.g[j as int] != SENTINEL
                        && !t.s.closed[j as int] implies waits_for(
                    t.s.open,
                    j,
                    t.s.g[j as int],
                ) by {
                    if j == r.to_idx {
                        assert(t.s.open.contains(new));
                    } else {
                        assert(v.s.g[j as int] != SENTINEL);
                        let o = choose|o: Entry<u32>| #[trigger]
                            v.s.open.contains(o) && o.id == j && o.g == v.s.g[j as int];
                        assert(t.s.open.contains(o));
                    }
                }
            }
        }
    }
}

/// A turn keeps the search alive until the destination is reached.
proof fn lemma_turn_live<D: Fn(&Vec<(u32, u32)>, u32) -> Option<Vec<GpuRelaxation>>>(
    dispatch: D,
    n: int,
    dst: u32,
    est: Seq<u32>,
    u: UniView,
    v: UniView,
)
    requires
        n <= SENTINEL,
        n <= u.best,
        is_faithful(dispatch, n),
        is_live(dispatch, n, dst, u.s, Seq::empty()),
        uni_turn(dispatch, dst, est, u, v),
    ensures
        v.best <= u.best,
        v.best == u.best ==> is_live(dispatch, n, dst, v.s, Seq::empty()),
{
    let (x, batch, rel) = choose|x: DrainView, batch: Vec<(u32, u32)>, rel: Vec<GpuRelaxation>|
        is_drained(u, dst, x) && x.batch.len() > 0 && batch@ == x.batch && #[trigger] call_ensures(
            dispatch,
            (&batch, x.u.best),
            Some(rel),
        ) && v == #[trigger] uni_relaxed_all(x.u, rel@, dst, est, rel@.len() as int);
    let xs = choose|xs: Seq<DrainView>| #[trigger] drain_run(u, dst, xs) && xs.last() == x;
    lemma_drain_live(dispatch, n, dst, u, xs, xs.len() - 1);
    lemma_relaxed_live(dispatch, n, dst, est, x.u, batch, rel, rel@.len() as int);
    if v.best == u.best {
        lemma_some_unclosed(v.s.closed, dst as int);
        assert forall|a: u32, b: u32|
            a < n && b < n && v.s.closed[a as int] && !is_sent(Seq::empty(), a) && #[trigger] shows(
                dispatch,
                a,
                b,
            ) implies b != dst && v.s.g[b as int] != SENTINEL by {
            if is_sent(batch@, a) {
                let i = choose|i: int| 0 <= i < batch@.len() && (#[trigger] batch@[i]).0 == a;
                assert(batch@[i].1 + 1 < x.u.best);
                let k = choose|k: int|
                    0 <= k < rel.len() && (#[trigger] rel@[k]).from_idx == a && rel@[k].to_idx == b
                        && rel@[k].new_g == batch@[i].1 + 1;
                assert(rel@[k].to_idx == b);
            }
        }
    }
}

proof fn lemma_drain_best(u: UniView, dst: u32, xs: Seq<DrainView>, k: int)
    requires
        drain_run(u, dst, xs),
        0 <= k < xs.len(),
    ensures
        xs[k].u.best <= u.best,
    decreases k,
{
    if k > 0 {
        lemma_drain_best(u, dst, xs, k - 1);
        assert(drain_step(xs[k - 1], xs[k - 1 + 1], dst));
    }
}

proof fn lemma_relaxed_best(
    u: UniView,
    rel: Seq<GpuRelaxation>,
    dst: u32,
    est: Seq<u32>,
    k: int,
)
    ensures
        uni_relaxed_all(u, rel, dst, est, k).best <= u.best,
    decreases k,
{
    if k > 0 {
        lemma_relaxed_best(u, rel, dst, est, k - 1);
    }
}

/// The best number of jumps never grows.
proof fn lemma_turn_best<D: Fn(&Vec<(u32, u32)>, u32) -> Option<Vec<GpuRelaxation>>>(
    dispatch: D,
    dst: u32,
    est: Seq<u32>,
    u: UniView,
    v: UniView,
)
    requires
        uni_turn(dispatch, dst, est, u, v),
    ensures
        v.best <= u.best,
{
    let (x, batch, rel) = choose|x: DrainView, batch: Vec<(u32, u32)>, rel: Vec<GpuRelaxation>|
        is_drained(u, dst, x) && x.batch.len() > 0 && batch@ == x.batch && #[trigger] call_ensures(
            dispatch,
            (&batch, x.u.best),
            Some(rel),
        ) && v == #[trigger] uni_relaxed_all(x.u, rel@, dst, est, rel@.len() as int);
    let xs = choose|xs: Seq<DrainView>| #[trigger] drain_run(u, dst, xs) && xs.last() == x;
    lemma_drain_best(u, dst, xs, xs.len() - 1);
    lemma_relaxed_best(x.u, rel@, dst, est, rel@.len() as int);
}

/// The search stays alive until the destination is reached.
proof fn lemma_run_live<D: Fn(&Vec<(u32, u32)>, u32) -> Option<Vec<GpuRelaxation>>>(
    dispatch: D,
    n: int,
    dst: u32,
    est: Seq<u32>,
    start: UniView,
    run: Seq<UniView>,
    k: int,
)
    requires
        n <= SENTINEL,
        n <= start.best,
        is_faithful(dispatch, n),
        is_live(dispatch, n, dst, start.s, Seq::empty()),
        uni_run(dispatch, dst, est, start, run),
        0 <= k < run.len(),
    ensures
        run[k].best <= start.best,
        run[k].best == start.best ==> is_live(dispatch, n, dst, run[k].s, Seq::empty()),
    decreases k,
{
    if k > 0 {
        lemma_run_live(dispatch, n, dst, est, start, run, k - 1);
        assert(uni_turn(dispatch, dst, est, run[k - 1], run[k - 1 + 1]));
        lemma_turn_best(dispatch, dst, est, run[k - 1], run[k]);
        if run[k - 1].best == start.best {
            lemma_turn_live(dispatch, n, dst, est, run[k - 1], run[k]);
        }
    }
}

/// The search starts alive.
proof fn lemma_start_live<D: Fn(&Vec<(u32, u32)>, u32) -> Option<Vec<GpuRelaxation>>>(
    dispatch: D,
    n: nat,
    src: u32,
    dst: u32,
    h: u32,
)
    requires
        src < n,
        dst < n,
        src != dst,
    ensures
        is_live(dispatch, n as int, dst, flat_seeded(n, src, 0, h), Seq::empty()),
{
    broadcast use vstd::multiset::group_multiset_axioms;

    let s = flat_seeded(n, src, 0, h);
    let new = Entry { f: (0 + h) as u64, g: 0u32, id: src };
    lemma_all_unclosed(n);
    assert forall|e: Entry<u32>| #[trigger] s.open.contains(e) implies e == new by {
        crate::astar::lemma_insert_contains(Multiset::empty(), new, e);
    }
    assert(s.open.contains(new));
    assert forall|i: u32|
        i < n && i != dst && #[trigger] s.g[i as int] != SENTINEL
            && !s.closed[i as int] implies waits_for(
        s.open,
        i,
        s.g[i as int],
    ) by {
        assert(i == src);
    }
}

/// Where nothing waits and the destination has not been reached, nothing leads
/// to it.
proof fn lemma_over<D: Fn(&Vec<(u32, u32)>, u32) -> Option<Vec<GpuRelaxation>>>(
    dispatch: D,
    n: int,
    src: u32,
    dst: u32,
    s: FlatView,
    w: Seq<u32>,
    i: int,
)
    requires
        is_live(dispatch, n, dst, s, Seq::empty()),
        s.open.len() == 0,
        s.g[src as int] != SENTINEL,
        src != dst,
        is_shown_walk(dispatch, n, src, dst, w),
        0 <= i < w.len(),
    ensures
        w[i] != dst && s.g[w[i] as int] != SENTINEL,
    decreases i,
{
    broadcast use vstd::multiset::group_multiset_axioms;

    if i > 0 {
        lemma_over(dispatch, n, src, dst, s, w, i - 1);
        let a = w[i - 1];
        assert(shows(dispatch, w[i - 1], w[i - 1 + 1]));
        if !s.closed[a as int] {
            assert(waits_for(s.open, a, s.g[a as int]));
            let e = choose|e: Entry<u32>| #[trigger]
                s.open.contains(e) && e.id == a && e.g == s.g[a as int];
            assert(s.open.count(e) > 0);
            assert(s.open.count(e) <= s.open.len());
        }
        assert(!is_sent(Seq::empty(), a));
    }
}

/// A search that is not cut short reaches a destination to which a walk leads.
proof fn lemma_reaches<D: Fn(&Vec<(u32, u32)>, u32) -> Option<Vec<GpuRelaxation>>>(
    dispatch: D,
    n: nat,
    src: u32,
    dst: u32,
    limit: u32,
    est: Seq<u32>,
    run: Seq<UniView>,
    v: UniView,
    w: Seq<u32>,
)
    requires
        n <= SENTINEL,
        n <= limit,
        src < n,
        dst < n,
        src != dst,
        is_faithful(dispatch, n as int),
        uni_run(
            dispatch,
            dst,
            est,
            uni(flat_seeded(n, src, 0, est[src as int]), limit),
            run,
        ),
        uni_stops(run.last(), dst, v),
        v.s.g[src as int] != SENTINEL,
        is_shown_walk(dispatch, n as int, src, dst, w),
    ensures
        v.best < limit,
{
    let start = uni(flat_seeded(n, src, 0, est[src as int]), limit);
    lemma_start_live(dispatch, n, src, dst, est[src as int]);
    lemma_run_live(dispatch, n as int, dst, est, start, run, run.len() - 1);
    let u = run.last();
    if u.s.open.len() > 0 {
        let x = choose|x: DrainView| #[trigger]
            is_drained(u, dst, x) && x.batch.len() == 0 && v == x.u;
        let xs = choose|xs: Seq<DrainView>| #[trigger] drain_run(u, dst, xs) && xs.last() == x;
        lemma_drain_best(u, dst, xs, xs.len() - 1);
        if v.best == limit {
            lemma_drain_live(dispatch, n as int, dst, u, xs, xs.len() - 1);
            assert(x.batch =~= Seq::empty());
        }
    }
    if v.best >= limit {
        lemma_over(dispatch, n as int, src, dst, v.s, w, w.len() - 1);
    }
}

/// Searches for a way from `src_id` to `dst_id` with fewer than `greedy_jumps`
/// jumps; `dispatch` expands a batch of nodes, `est` estimates the jumps that
/// are left from each node.
///
/// The answer is that of the state in which the search stops, or in which the
/// time runs out; there is none where an id is not in the graph or a batch
/// fails. A route that is found has fewer jumps than `greedy_jumps`, each by a
/// relaxation that came back, and passes no system twice.
pub fn run_unidirectional<
    D: Fn(&Vec<(u32, u32)>, u32) -> Option<Vec<GpuRelaxation>>,
    T: Fn() -> bool,
>(
    graph: &GraphIndex,
    est: &Vec<u32>,
    src_id: i64,
    dst_id: i64,
    greedy_jumps: u32,
    dispatch: D,
    late: T,
) -> (r: Option<Vec<i64>>)
    requires
        graph.wf(),
        est.len() == graph.idx_to_id.len(),
        is_faithful(dispatch, graph.idx_to_id.len() as int),
        call_requires(late, ()),
    ensures
        !graph.id_to_idx@.contains_key(src_id) || !graph.id_to_idx@.contains_key(dst_id) ==> r is None,
        graph.id_to_idx@.contains_key(src_id) && graph.id_to_idx@.contains_key(dst_id)
            ==> uni_result(graph, est@, src_id, dst_id, greedy_jumps, dispatch, late, r),
        r matches Some(p) ==> p.len() > 0 && p@[0] == src_id && p@.last() == dst_id && p.len() - 1
            < greedy_jumps && exists|q: Seq<u32>| #[trigger]
            is_emitted_route(dispatch, graph.idx_to_id@, p@, q),
        r matches Some(p) ==> graph.idx_to_id@.no_duplicates() ==> p@.no_duplicates(),
        graph.id_to_idx@.contains_key(src_id) && graph.id_to_idx@.contains_key(dst_id) && src_id
            != dst_id && graph.idx_to_id.len() <= greedy_jumps && (exists|w: Seq<u32>| #[trigger]
            is_shown_walk(
                dispatch,
                graph.idx_to_id.len() as int,
                graph.id_to_idx@[src_id],
                graph.id_to_idx@[dst_id],
                w,
            )) ==> r is Some || call_ensures(late, (), true) || can_fail(dispatch),
{
    let src = match graph.id_to_idx.get(&src_id) {
        Some(i) => *i,
        None => {
            return None;
        },
    };
    let dst = match graph.id_to_idx.get(&dst_id) {
        Some(i) => *i,
        None => {
            return None;
        },
    };
    let n: usize = graph.idx_to_id.len();
    let mut s = Flat::seed(n, src, 0, est[src as usize]);
    let mut best: u32 = greedy_jumps;
    let ghost start = uni(s@, best);
    let ghost mut run: Seq<UniView> = seq![start];
    proof {
        broadcast use vstd::multiset::group_multiset_axioms;

        let new = Entry { f: (0 + est[src as int]) as u64, g: 0u32, id: src };
        assert forall|e: Entry<u32>| #[trigger] s@.open.contains(e) implies e == new by {
            crate::astar::lemma_insert_contains(Multiset::empty(), new, e);
        }
        assert(uni_ok(dispatch, n as int, src, dst, greedy_jumps, start));
    }
    while !s.open.is_empty()
        invariant_except_break
            uni_run(dispatch, dst, est@, start, run),
            run.last() == uni(s@, best),
            uni_ok(dispatch, n as int, src, dst, greedy_jumps, uni(s@, best)),
        invariant
            graph.wf(),
            n == graph.idx_to_id.len(),
            est.len() == n,
            is_faithful(dispatch, n as int),
            call_requires(late, ()),
            graph.id_to_idx@.contains_key(src_id),
            graph.id_to_idx@.contains_key(dst_id),
            src == graph.id_to_idx@[src_id],
            dst == graph.id_to_idx@[dst_id],
            start == uni(flat_seeded(n as nat, src, 0, est@[src as int]), greedy_jumps),
            s.wf(n as int),
        ensures
            uni_run(dispatch, dst, est@, start, run),
            uni_ok(dispatch, n as int, src, dst, greedy_jumps, uni(s@, best)),
            (call_ensures(late, (), true) && uni(s@, best) == run.last()) || uni_stops(
                run.last(),
                dst,
                uni(s@, best),
            ),
        decreases unclosed(s@.closed),
    {
        if late() {
            break;
        }
        let ghost u = run.last();
        let batch = drain(&mut s, &mut best, dst, Ghost(n as int));
        let ghost x = choose|x: DrainView| #[trigger]
            is_drained(u, dst, x) && x.u == uni(s@, best) && x.batch == batch@;
        proof {
            assert(is_drained(u, dst, x));
            let xs = choose|xs: Seq<DrainView>| #[trigger] drain_run(u, dst, xs) && xs.last() == x;
            lemma_drain_ok(dispatch, n as int, src, dst, greedy_jumps, u, xs, xs.len() - 1);
        }
        if batch.len() == 0 {
            break;
        }
        let rel = match dispatch(&batch, best) {
            Some(rel) => rel,
            None => {
                assert(uni_fails(dispatch, u, dst));
                return None;
            },
        };
        for k in 0..rel.len()
            invariant
                n == graph.idx_to_id.len(),
                n <= SENTINEL,
                est.len() == n,
                s.wf(n as int),
                is_faithful(dispatch, n as int),
                call_ensures(dispatch, (&batch, x.u.best), Some(rel)),
                uni(s@, best) == uni_relaxed_all(x.u, rel@, dst, est@, k as int),
        {
            let r = rel[k];
            let to: usize = r.to_idx as usize;
            assert(rel@[k as int].to_idx < n);
            if r.to_idx == dst {
                if r.new_g < best {
                    best = r.new_g;
                    s.from[to] = r.from_idx;
                    s.g[to] = r.new_g;
                }
            } else if r.new_g < s.g[to] {
                s.set(r.to_idx, r.new_g, r.from_idx, est[to]);
            }
            assert(uni(s@, best) =~= uni_relaxed(
                uni_relaxed_all(x.u, rel@, dst, est@, k as int),
                r,
                dst,
                est@,
            ));
        }
        proof {
            lemma_uni_relaxed_ok(
                dispatch,
                n as int,
                src,
                dst,
                greedy_jumps,
                est@,
                x.u,
                batch,
                x.u.best,
                rel,
                rel.len() as int,
            );
            let v = uni(s@, best);
            assert(uni_turn(dispatch, dst, est@, u, v));
            run = run.push(v);
        }
    }
    let ghost v = uni(s@, best);
    proof {
        if src_id != dst_id && n <= greedy_jumps && !call_ensures(late, (), true) && (exists|
            w: Seq<u32>,
        | #[trigger]
            is_shown_walk(dispatch, n as int, src, dst, w)) {
            let w = choose|w: Seq<u32>| #[trigger]
                is_shown_walk(dispatch, n as int, src, dst, w);
            lemma_reaches(dispatch, n as nat, src, dst, greedy_jumps, est@, run, v, w);
            assert(s@.from[dst as int] != SENTINEL);
        }
    }
    if best >= greedy_jumps || (s.from[dst as usize] == SENTINEL && !s.closed[dst as usize]) {
        assert(uni_answer(v, src, dst, greedy_jumps, graph.idx_to_id@, None));
        return None;
    }
    proof {
        assert forall|k: nat|
            (#[trigger] trail::back(trail::flat_links(s.from@), dst, k)) matches Some(y) ==> y
            < n by {
            lemma_flat_stays(dispatch, n as int, src, 0, s@, dst, k);
        }
    }
    let r = reconstruct_path_flat(&s.from, src, dst, &graph.idx_to_id);
    proof {
        let links = trail::flat_links(s.from@);
        let k = lemma_flat_leads(dispatch, n as int, src, 0, s@, dst);
        let q = choose|q: Seq<u32>| #[trigger]
            trail::is_trail(links, dst, src, q) && r->0@ == q.reverse().map_values(
                |i: u32| graph.idx_to_id@[i as int],
            );
        lemma_trail_emitted(dispatch, n as int, src, 0, s@, dst, q, k);
        assert(is_emitted_route(dispatch, graph.idx_to_id@, r->0@, q.reverse()));
        assert(uni_answer(v, src, dst, greedy_jumps, graph.idx_to_id@, r));
        if graph.idx_to_id@.no_duplicates() {
            trail::lemma_trail_simple(links, dst, src, q);
            assert(q.reverse().no_duplicates()) by {
                assert forall|i: int, j: int|
                    0 <= i < q.len() && 0 <= j < q.len() && i != j implies q.reverse()[i]
                    != q.reverse()[j] by {
                    assert(q[q.len() - 1 - i] != q[q.len() - 1 - j]);
                }
            }
            lemma_named_once(graph.idx_to_id@, q.reverse());
        }
    }
    r
}

/// Nodes that differ have ids that differ.
proof fn lemma_named_once(ids: Seq<i64>, q: Seq<u32>)
    requires
        ids.no_duplicates(),
        q.no_duplicates(),
        forall|i: int| 0 <= i < q.len() ==> (#[trigger] q[i]) < ids.len(),
    ensures
        q.map_values(|i: u32| ids[i as int]).no_duplicates(),
{
    let p = q.map_values(|i: u32| ids[i as int]);
    assert forall|i: int, j: int|
        0 <= i < p.len() && 0 <= j < p.len() && i != j implies p[i] != p[j] by {
        assert(q[i] != q[j]);
        assert(ids[q[i] as int] != ids[q[j] as int]);
    }
}

/// The labels along a trail fall by at least one with each link.
proof fn lemma_trail_falls<D: Fn(&Vec<(u32, u32)>, u32) -> Option<Vec<GpuRelaxation>>>(
    dispatch: D,
    n: int,
    seed: u32,
    seed_g: u32,
    s: FlatView,
    x: u32,
    q: Seq<u32>,
    b: int,
)
    requires
        n <= SENTINEL,
        flat_ok(dispatch, n, seed, seed_g, s),
        trail::is_trail(trail::flat_links(s.from), x, seed, q),
        x < n,
        s.g[x as int] != SENTINEL,
        0 <= b < q.len(),
    ensures
        q[b] < n,
        s.g[q[b] as int] != SENTINEL,
        s.g[q[b] as int] + b <= s.g[x as int],
    decreases b,
{
    let links = trail::flat_links(s.from);
    if b == 0 {
        assert(trail::back(links, x, 0) == Some(q[0]));
    } else {
        lemma_trail_falls(dispatch, n, seed, seed_g, s, x, q, b - 1);
        trail::lemma_trail_links(links, x, seed, q, b - 1);
        assert(s.from[q[b - 1] as int] != SENTINEL);
    }
}

/// A trail to the seed is the one that is known to be short, and each of its
/// links is a relaxation that came back.
proof fn lemma_trail_emitted<D: Fn(&Vec<(u32, u32)>, u32) -> Option<Vec<GpuRelaxation>>>(
    dispatch: D,
    n: int,
    seed: u32,
    seed_g: u32,
    s: FlatView,
    x: u32,
    q: Seq<u32>,
    k: nat,
)
    requires
        n <= SENTINEL,
        flat_ok(dispatch, n, seed, seed_g, s),
        trail::is_trail(trail::flat_links(s.from), x, seed, q),
        trail::back(trail::flat_links(s.from), x, k) == Some(seed),
        x < n,
    ensures
        q.len() - 1 <= k,
        q[0] == x,
        q.last() == seed,
        forall|i: int| 0 <= i < q.len() ==> (#[trigger] q[i]) < n,
        forall|i: int| 0 <= i < q.len() - 1 ==> emits(dispatch, q[i + 1], #[trigger] q[i]),
        forall|i: int|
            0 <= i < q.len() - 1 ==> emits(
                dispatch,
                #[trigger] q.reverse()[i],
                q.reverse()[i + 1],
            ),
{
    let links = trail::flat_links(s.from);
    assert(trail::back(links, x, 0) == Some(q[0]));
    assert forall|i: int| 0 <= i < q.len() implies (#[trigger] q[i]) < n by {
        assert(trail::back(links, x, i as nat) == Some(q[i]));
        lemma_flat_stays(dispatch, n, seed, seed_g, s, x, i as nat);
    }
    assert forall|i: int| 0 <= i < q.len() - 1 implies emits(dispatch, q[i + 1], #[trigger] q[i]) by {
        trail::lemma_trail_links(links, x, seed, q, i);
        assert(s.from[q[i] as int] != SENTINEL);
    }
    assert forall|i: int| 0 <= i < q.len() - 1 implies emits(
        dispatch,
        #[trigger] q.reverse()[i],
        q.reverse()[i + 1],
    ) by {
        let j = q.len() - 2 - i;
        assert(q.reverse()[i] == q[j + 1]);
        assert(q.reverse()[i + 1] == q[j]);
        assert(emits(dispatch, q[j + 1], q[j]));
    }
    if k < q.len() - 1 {
        assert(trail::back(links, x, k) == Some(q[k as int]));
    }
}

/// What `run_unidirectional` owes where both ids are in the graph.
pub open spec fn uni_result<
    D: Fn(&Vec<(u32, u32)>, u32) -> Option<Vec<GpuRelaxation>>,
    T: Fn() -> bool,
>(
    graph: &GraphIndex,
    est: Seq<u32>,
    src_id: i64,
    dst_id: i64,
    limit: u32,
    dispatch: D,
    late: T,
    r: Option<Vec<i64>>,
) -> bool {
    let n = graph.idx_to_id@.len();
    let src = graph.id_to_idx@[src_id];
    let dst = graph.id_to_idx@[dst_id];
    let start = uni(flat_seeded(n, src, 0, est[src as int]), limit);
    ||| r is None && exists|run: Seq<UniView>| #[trigger]
        uni_run(dispatch, dst, est, start, run) && uni_fails(dispatch, run.last(), dst)
    ||| exists|run: Seq<UniView>, v: UniView| #[trigger]
        uni_run(dispatch, dst, est, start, run) && ((call_ensures(late, (), true) && v
            == run.last()) || uni_stops(run.last(), dst, v)) && #[trigger] uni_answer(
            v,
            src,
            dst,
            limit,
            graph.idx_to_id@,
            r,
        )
}

/// One direction of the search from both ends, with the best meeting of the
/// two so far.
#[verifier::ext_equal]
pub struct EndView {
    pub s: FlatView,
    pub mu: u32,
    pub at: Option<u32>,
}

/// One direction with the best meeting.
pub open spec fn end_of(s: FlatView, mu: u32, at: Option<u32>) -> EndView {
    EndView { s, mu, at }
}

/// A meeting at `id`, `g` jumps away, where the other direction has been there
/// and the two make an improvement.
pub open spec fn met(x: EndView, other: Seq<u32>, g: u32, id: u32) -> EndView {
    if other[id as int] != SENTINEL && g + other[id as int] < x.mu {
        EndView { s: x.s, mu: (g + other[id as int]) as u32, at: Some(id) }
    } else {
        x
    }
}

/// The state of one direction while a batch is filled.
#[verifier::ext_equal]
pub struct FillView {
    pub x: EndView,
    pub batch: Seq<(u32, u32)>,
}

/// The entry `e` is taken while a batch is filled.
pub open spec fn filled_one(y: FillView, e: Entry<u32>, other: Seq<u32>) -> FillView {
    let rest = EndView { s: without(y.x.s, e), ..y.x };
    if is_stale(y.x.s, y.x.mu, e) {
        FillView { x: rest, ..y }
    } else {
        let done = EndView { s: flat_closed(rest.s, e.id), ..rest };
        FillView { x: met(done, other, e.g, e.id), batch: y.batch.push((e.id, e.g)) }
    }
}

/// The batch can still take entries.
pub open spec fn can_fill(y: FillView) -> bool {
    y.batch.len() < BATCH_SIZE && y.x.s.open.len() > 0
}

/// One more entry is taken while a batch is filled.
pub open spec fn fill_step(y: FillView, z: FillView, other: Seq<u32>) -> bool {
    can_fill(y) && exists|e: Entry<u32>| #[trigger]
        heap::is_least(y.x.s.open, e) && z == filled_one(y, e, other)
}

/// `ys` holds the states while a batch is filled, entry by entry.
pub open spec fn fill_run(x: EndView, other: Seq<u32>, ys: Seq<FillView>) -> bool {
    &&& ys.len() > 0
    &&& ys[0] == (FillView { x, batch: Seq::empty() })
    &&& forall|i: int| 0 <= i < ys.len() - 1 ==> fill_step(#[trigger] ys[i], ys[i + 1], other)
}

/// `y` is the state after a batch has been filled.
pub open spec fn is_filled(x: EndView, other: Seq<u32>, y: FillView) -> bool {
    !can_fill(y) && exists|ys: Seq<FillView>| #[trigger] fill_run(x, other, ys) && ys.last() == y
}

/// The relaxation `r` is taken in.
pub open spec fn end_relaxed(
    x: EndView,
    r: GpuRelaxation,
    other: Seq<u32>,
    est: Seq<u32>,
) -> EndView {
    let to = r.to_idx as int;
    if r.new_g < x.s.g[to] {
        met(
            EndView { s: flat_set(x.s, r.to_idx, r.new_g, r.from_idx, est[to]), ..x },
            other,
            r.new_g,
            r.to_idx,
        )
    } else {
        x
    }
}

/// The first `n` relaxations are taken in.
pub open spec fn end_relaxed_all(
    x: EndView,
    rel: Seq<GpuRelaxation>,
    other: Seq<u32>,
    est: Seq<u32>,
    n: int,
) -> EndView
    decreases n,
{
    if n <= 0 {
        x
    } else {
        end_relaxed(end_relaxed_all(x, rel, other, est, n - 1), rel[n - 1], other, est)
    }
}

/// One direction fills a batch, sends it out unless it is empty, and takes in
/// the relaxations that come back.
pub open spec fn end_turn<D: Fn(&Vec<(u32, u32)>, u32) -> Option<Vec<GpuRelaxation>>>(
    dispatch: D,
    other: Seq<u32>,
    est: Seq<u32>,
    x: EndView,
    y: EndView,
) -> bool {
    ||| exists|f: FillView| #[trigger]
        is_filled(x, other, f) && f.batch.len() == 0 && y == f.x
    ||| exists|f: FillView, batch: Vec<(u32, u32)>, rel: Vec<GpuRelaxation>|
        is_filled(x, other, f) && f.batch.len() > 0 && batch@ == f.batch && #[trigger]
            call_ensures(dispatch, (&batch, f.x.mu), Some(rel)) && y == #[trigger]
            end_relaxed_all(f.x, rel@, other, est, rel@.len() as int)
}

/// A batch of one direction fails.
pub open spec fn end_fails<D: Fn(&Vec<(u32, u32)>, u32) -> Option<Vec<GpuRelaxation>>>(
    dispatch: D,
    other: Seq<u32>,
    x: EndView,
) -> bool {
    exists|f: FillView, batch: Vec<(u32, u32)>|
        is_filled(x, other, f) && f.batch.len() > 0 && batch@ == f.batch && #[trigger]
            call_ensures(dispatch, (&batch, f.x.mu), None::<Vec<GpuRelaxation>>)
}

/// The state of the search from both ends.
#[verifier::ext_equal]
pub struct BiView {
    pub fwd: FlatView,
    pub bwd: FlatView,
    pub mu: u32,
    pub at: Option<u32>,
}

/// `top` is an entry that none ranks before, or `None` where no entry waits.
pub open spec fn is_top(s: FlatView, top: Option<Entry<u32>>) -> bool {
    match top {
        Some(e) => heap::is_least(s.open, e),
        None => s.open.len() == 0,
    }
}

/// The jumps of an entry; the largest number where there is none.
pub open spec fn jumps(top: Option<Entry<u32>>) -> u32 {
    match top {
        Some(e) => e.g,
        None => u32::MAX,
    }
}

/// The rank of an entry; the largest number where there is none.
pub open spec fn rank(top: Option<Entry<u32>>) -> u64 {
    match top {
        Some(e) => e.f,
        None => u64::MAX,
    }
}

/// The search is over: nothing waits, or the entries that are next have
/// together as many jumps as the best meeting.
pub open spec fn is_over(s: BiView, ef: Option<Entry<u32>>, eb: Option<Entry<u32>>) -> bool {
    (ef is None && eb is None) || jumps(ef) + jumps(eb) >= s.mu
}

/// The search has come to its end.
pub open spec fn has_ended(s: BiView) -> bool {
    exists|ef: Option<Entry<u32>>, eb: Option<Entry<u32>>| #[trigger]
        is_top(s.fwd, ef) && #[trigger] is_top(s.bwd, eb) && is_over(s, ef, eb)
}

/// One turn of the search: the direction whose next entry ranks first has it,
/// the forward one where both rank alike.
pub open spec fn bi_turn<
    F: Fn(&Vec<(u32, u32)>, u32) -> Option<Vec<GpuRelaxation>>,
    B: Fn(&Vec<(u32, u32)>, u32) -> Option<Vec<GpuRelaxation>>,
>(fwd: F, bwd: B, est_fwd: Seq<u32>, est_bwd: Seq<u32>, s: BiView, t: BiView) -> bool {
    exists|ef: Option<Entry<u32>>, eb: Option<Entry<u32>>| #[trigger]
        is_top(s.fwd, ef) && #[trigger] is_top(s.bwd, eb) && !is_over(s, ef, eb) && if rank(ef)
            <= rank(eb) {
            t.bwd == s.bwd && end_turn(
                fwd,
                s.bwd.g,
                est_fwd,
                end_of(s.fwd, s.mu, s.at),
                end_of(t.fwd, t.mu, t.at),
            )
        } else {
            t.fwd == s.fwd && end_turn(
                bwd,
                s.fwd.g,
                est_bwd,
                end_of(s.bwd, s.mu, s.at),
                end_of(t.bwd, t.mu, t.at),
            )
        }
}

/// `run` holds the states of the search, turn by turn.
pub open spec fn bi_run<
    F: Fn(&Vec<(u32, u32)>, u32) -> Option<Vec<GpuRelaxation>>,
    B: Fn(&Vec<(u32, u32)>, u32) -> Option<Vec<GpuRelaxation>>,
>(fwd: F, bwd: B, est_fwd: Seq<u32>, est_bwd: Seq<u32>, start: BiView, run: Seq<BiView>) -> bool {
    &&& run.len() > 0
    &&& run[0] == start
    &&& forall|i: int|
        0 <= i < run.len() - 1 ==> bi_turn(
            fwd,
            bwd,
            est_fwd,
            est_bwd,
            #[trigger] run[i],
            run[i + 1],
        )
}

/// A batch that is sent out in the state `s` fails.
pub open spec fn bi_fails<
    F: Fn(&Vec<(u32, u32)>, u32) -> Option<Vec<GpuRelaxation>>,
    B: Fn(&Vec<(u32, u32)>, u32) -> Option<Vec<GpuRelaxation>>,
>(fwd: F, bwd: B, s: BiView) -> bool {
    end_fails(fwd, s.bwd.g, end_of(s.fwd, s.mu, s.at)) || end_fails(
        bwd,
        s.fwd.g,
        end_of(s.bwd, s.mu, s.at),
    )
}

/// The answer that the search owes in the state `s`: the ids along the trails
/// from the meeting back to the forward seed and on to the backward seed.
pub open spec fn bi_answer(
    s: BiView,
    seed_fwd: u32,
    seed_bwd: u32,
    idx_to_id: Seq<i64>,
    r: Option<Vec<i64>>,
) -> bool {
    &&& r is Some <==> s.at is Some
    &&& r matches Some(p) ==> exists|pf: Seq<u32>, pb: Seq<u32>| #[trigger]
        trail::is_trail(trail::flat_links(s.fwd.from), s.at->0, seed_fwd, pf) && #[trigger]
        trail::is_trail(trail::flat_links(s.bwd.from), s.at->0, seed_bwd, pb) && p@ == (
        pf.reverse() + pb.skip(1)).map_values(|i: u32| idx_to_id[i as int])
}

/// What holds of one direction and the best meeting while the other rests.
spec fn end_ok<D: Fn(&Vec<(u32, u32)>, u32) -> Option<Vec<GpuRelaxation>>>(
    dispatch: D,
    n: int,
    seed: u32,
    seed_g: u32,
    other: Seq<u32>,
    apart: bool,
    limit: u32,
    x: EndView,
) -> bool {
    &&& flat_ok(dispatch, n, seed, seed_g, x.s)
    &&& other.len() == n
    &&& meeting_ok(x.s.g, other, apart, limit, x.mu, x.at)
}

/// The best meeting is one of the two directions, and better than the limit.
/// Where the seeds keep apart, no node is labelled by both directions with
/// fewer jumps than it.
spec fn meeting_ok(
    g: Seq<u32>,
    other: Seq<u32>,
    apart: bool,
    limit: u32,
    mu: u32,
    at: Option<u32>,
) -> bool {
    &&& at is None ==> mu == limit
    &&& at matches Some(m) ==> mu < limit && m < g.len() && g[m as int] != SENTINEL
        && other[m as int] != SENTINEL && g[m as int] + other[m as int] <= mu
    &&& apart ==> forall|i: int|
        0 <= i < g.len() && #[trigger] g[i] != SENTINEL && #[trigger] other[i] != SENTINEL ==> g[i]
            + other[i] >= mu
}

proof fn lemma_fill_ok<D: Fn(&Vec<(u32, u32)>, u32) -> Option<Vec<GpuRelaxation>>>(
    dispatch: D,
    n: int,
    seed: u32,
    seed_g: u32,
    other: Seq<u32>,
    apart: bool,
    limit: u32,
    x: EndView,
    ys: Seq<FillView>,
    k: int,
)
    requires
        n <= SENTINEL,
        end_ok(dispatch, n, seed, seed_g, other, apart, limit, x),
        fill_run(x, other, ys),
        0 <= k < ys.len(),
    ensures
        end_ok(dispatch, n, seed, seed_g, other, apart, limit, ys[k].x),
        batch_ok(n, seed_g, ys[k].x.s, ys[k].batch),
        unclosed(ys[k].x.s.closed) + ys[k].batch.len() == unclosed(x.s.closed),
    decreases k,
{
    if k > 0 {
        lemma_fill_ok(dispatch, n, seed, seed_g, other, apart, limit, x, ys, k - 1);
        let y = ys[k - 1];
        assert(fill_step(ys[k - 1], ys[k - 1 + 1], other));
        let e = choose|e: Entry<u32>| #[trigger]
            heap::is_least(y.x.s.open, e) && ys[k] == filled_one(y, e, other);
        lemma_flat_taken_ok(dispatch, n, seed, seed_g, y.x.s, e);
        if !is_stale(y.x.s, y.x.mu, e) {
            lemma_unclosed(y.x.s.closed, e.id as int);
        }
    }
}

proof fn lemma_end_relaxed_ok<D: Fn(&Vec<(u32, u32)>, u32) -> Option<Vec<GpuRelaxation>>>(
    dispatch: D,
    n: int,
    seed: u32,
    seed_g: u32,
    other: Seq<u32>,
    apart: bool,
    limit: u32,
    est: Seq<u32>,
    x: EndView,
    batch: Vec<(u32, u32)>,
    mu: u32,
    rel: Vec<GpuRelaxation>,
    k: int,
)
    requires
        n <= SENTINEL,
        is_faithful(dispatch, n),
        end_ok(dispatch, n, seed, seed_g, other, apart, limit, x),
        batch_ok(n, seed_g, x.s, batch@),
        call_ensures(dispatch, (&batch, mu), Some(rel)),
        0 <= k <= rel.len(),
    ensures
        end_ok(dispatch, n, seed, seed_g, other, apart, limit, end_relaxed_all(x, rel@, other, est, k)),
        batch_ok(n, seed_g, end_relaxed_all(x, rel@, other, est, k).s, batch@),
        end_relaxed_all(x, rel@, other, est, k).s.closed == x.s.closed,
    decreases k,
{
    if k > 0 {
        lemma_end_relaxed_ok(
            dispatch,
            n,
            seed,
            seed_g,
            other,
            apart,
            limit,
            est,
            x,
            batch,
            mu,
            rel,
            k - 1,
        );
        let y = end_relaxed_all(x, rel@, other, est, k - 1);
        let r = rel@[k - 1];
        assert(r.to_idx < n && from_frontier(batch@, r));
        assert(emits(dispatch, r.from_idx, r.to_idx));
        if r.new_g < y.s.g[r.to_idx as int] {
            lemma_flat_set_ok(
                dispatch,
                n,
                seed,
                seed_g,
                y.s,
                batch@,
                r,
                est[r.to_idx as int],
                !y.s.closed[r.to_idx as int],
            );
        }
    }
}

/// A better meeting is recorded.
fn meet(other: &Vec<u32>, mu: &mut u32, at: &mut Option<u32>, g: u32, id: u32)
    requires
        id < other.len(),
    ensures
        forall|s: FlatView| #[trigger]
            end_of(s, *final(mu), *final(at)) == met(
                end_of(s, *old(mu), *old(at)),
                other@,
                g,
                id,
            ),
{
    let o: u32 = other[id as usize];
    if o != SENTINEL && g as u64 + (o as u64) < *mu as u64 {
        *mu = (g as u64 + o as u64) as u32;
        *at = Some(id);
    }
}

/// Fills a batch of one direction with the entries that rank first.
fn fill(
    s: &mut Flat,
    other: &Vec<u32>,
    mu: &mut u32,
    at: &mut Option<u32>,
    Ghost(n): Ghost<int>,
) -> (batch: Vec<(u32, u32)>)
    requires
        old(s).wf(n),
        other.len() == n,
        forall|e: Entry<u32>| #[trigger] old(s)@.open.contains(e) ==> e.id < n,
    ensures
        final(s).wf(n),
        exists|y: FillView| #[trigger]
            is_filled(end_of(old(s)@, *old(mu), *old(at)), other@, y) && y.x == end_of(
                final(s)@,
                *final(mu),
                *final(at),
            ) && y.batch == batch@,
{
    let mut batch: Vec<(u32, u32)> = Vec::new();
    let ghost x = end_of(s@, *mu, *at);
    let ghost mut ys: Seq<FillView> = seq![FillView { x, batch: Seq::empty() }];
    while batch.len() < BATCH_SIZE
        invariant
            s.wf(n),
            other.len() == n,
            forall|e: Entry<u32>| #[trigger] s@.open.contains(e) ==> e.id < n,
            fill_run(x, other@, ys),
            ys.last() == (FillView { x: end_of(s@, *mu, *at), batch: batch@ }),
        ensures
            !can_fill(ys.last()),
        decreases s@.open.len(),
    {
        let ghost y = ys.last();
        let e = match s.open.pop() {
            Some(e) => e,
            None => {
                break;
            },
        };
        proof {
            broadcast use vstd::multiset::group_multiset_axioms;

            assert(can_fill(y));
            assert forall|o: Entry<u32>| #[trigger] s@.open.contains(o) implies y.x.s.open.contains(
                o,
            ) by {
                crate::astar::lemma_remove_contains(y.x.s.open, e, o);
            }
        }
        let i: usize = e.id as usize;
        if !(e.g >= *mu || s.closed[i] || e.g > s.g[i]) {
            s.closed[i] = true;
            meet(other, mu, at, e.g, e.id);
            batch.push((e.id, e.g));
        }
        proof {
            let z = FillView { x: end_of(s@, *mu, *at), batch: batch@ };
            assert(z =~= filled_one(y, e, other@));
            assert(heap::is_least(y.x.s.open, e));
            assert(fill_step(y, z, other@));
            ys = ys.push(z);
        }
    }
    assert(is_filled(x, other@, ys.last()));
    batch
}

/// Takes in the relaxations that came back for one direction.
fn take_in(
    s: &mut Flat,
    other: &Vec<u32>,
    mu: &mut u32,
    at: &mut Option<u32>,
    rel: &Vec<GpuRelaxation>,
    est: &Vec<u32>,
    Ghost(n): Ghost<int>,
)
    requires
        old(s).wf(n),
        other.len() == n,
        est.len() == n,
        forall|k: int| 0 <= k < rel.len() ==> (#[trigger] rel@[k]).to_idx < n,
    ensures
        final(s).wf(n),
        end_of(final(s)@, *final(mu), *final(at)) == end_relaxed_all(
            end_of(old(s)@, *old(mu), *old(at)),
            rel@,
            other@,
            est@,
            rel@.len() as int,
        ),
{
    let ghost x = end_of(s@, *mu, *at);
    for k in 0..rel.len()
        invariant
            s.wf(n),
            other.len() == n,
            est.len() == n,
            forall|k: int| 0 <= k < rel.len() ==> (#[trigger] rel@[k]).to_idx < n,
            end_of(s@, *mu, *at) == end_relaxed_all(x, rel@, other@, est@, k as int),
    {
        let r = rel[k];
        let to: usize = r.to_idx as usize;
        assert(rel@[k as int].to_idx < n);
        let ghost y = end_of(s@, *mu, *at);
        if r.new_g < s.g[to] {
            s.set(r.to_idx, r.new_g, r.from_idx, est[to]);
            let ghost z = end_of(s@, *mu, *at);
            meet(other, mu, at, r.new_g, r.to_idx);
        }
        assert(end_of(s@, *mu, *at) == end_relaxed(y, r, other@, est@));
    }
}

/// `p` holds the ids of nodes that follow each other by relaxations of the
/// forward direction, or in reverse by those of the backward direction.
pub open spec fn is_joined_route<
    F: Fn(&Vec<(u32, u32)>, u32) -> Option<Vec<GpuRelaxation>>,
    B: Fn(&Vec<(u32, u32)>, u32) -> Option<Vec<GpuRelaxation>>,
>(fwd: F, bwd: B, idx_to_id: Seq<i64>, p: Seq<i64>, q: Seq<u32>) -> bool {
    &&& p == q.map_values(|i: u32| idx_to_id[i as int])
    &&& forall|i: int| 0 <= i < q.len() ==> (#[trigger] q[i]) < idx_to_id.len()
    &&& forall|i: int|
        0 <= i < q.len() - 1 ==> emits(fwd, #[trigger] q[i], q[i + 1]) || emits(
            bwd,
            q[i + 1],
            q[i],
        )
}

/// The ids that a search from both ends needs are in the graph.
pub open spec fn knows(graph: &GraphIndex, ids: Seq<i64>) -> bool {
    forall|i: int| 0 <= i < ids.len() ==> graph.id_to_idx@.contains_key(#[trigger] ids[i])
}

/// What `run_bidirectional` owes where all ids are in the graph.
pub open spec fn bi_result<
    F: Fn(&Vec<(u32, u32)>, u32) -> Option<Vec<GpuRelaxation>>,
    B: Fn(&Vec<(u32, u32)>, u32) -> Option<Vec<GpuRelaxation>>,
    T: Fn() -> bool,
>(
    graph: &GraphIndex,
    est_fwd: Seq<u32>,
    est_bwd: Seq<u32>,
    seed_fwd: u32,
    seed_bwd: u32,
    start: BiView,
    fwd: F,
    bwd: B,
    late: T,
    r: Option<Vec<i64>>,
) -> bool {
    exists|run: Seq<BiView>| #[trigger]
        bi_run(fwd, bwd, est_fwd, est_bwd, start, run) && ((r is None && bi_fails(
            fwd,
            bwd,
            run.last(),
        )) || ((has_ended(run.last()) || call_ensures(late, (), true)) && bi_answer(
            run.last(),
            seed_fwd,
            seed_bwd,
            graph.idx_to_id@,
            r,
        )))
}

/// The state in which the search from both ends starts.
pub open spec fn bi_start(
    n: nat,
    seed_fwd: u32,
    fwd_g: u32,
    fwd_h: u32,
    seed_bwd: u32,
    bwd_g: u32,
    bwd_h: u32,
    limit: u32,
) -> BiView {
    BiView {
        fwd: flat_seeded(n, seed_fwd, fwd_g, fwd_h),
        bwd: flat_seeded(n, seed_bwd, bwd_g, bwd_h),
        mu: limit,
        at: None,
    }
}

proof fn lemma_seeded_flat_ok<D: Fn(&Vec<(u32, u32)>, u32) -> Option<Vec<GpuRelaxation>>>(
    dispatch: D,
    n: nat,
    seed: u32,
    seed_g: u32,
    h: u32,
)
    requires
        seed < n,
    ensures
        flat_ok(dispatch, n as int, seed, seed_g, flat_seeded(n, seed, seed_g, h)),
{
    broadcast use vstd::multiset::group_multiset_axioms;

    let s = flat_seeded(n, seed, seed_g, h);
    let new = Entry { f: (seed_g + h) as u64, g: seed_g, id: seed };
    assert forall|e: Entry<u32>| #[trigger] s.open.contains(e) implies e == new by {
        crate::astar::lemma_insert_contains(Multiset::empty(), new, e);
    }
}

/// The trail from a labelled node to the seed of its direction.
fn trail_to_seed<D: Fn(&Vec<(u32, u32)>, u32) -> Option<Vec<GpuRelaxation>>>(
    s: &Flat,
    m: u32,
    seed: u32,
    Ghost(n): Ghost<int>,
    Ghost(seed_g): Ghost<u32>,
    Ghost(dispatch): Ghost<D>,
) -> (p: Vec<u32>)
    requires
        n <= SENTINEL,
        s.wf(n),
        flat_ok(dispatch, n, seed, seed_g, s@),
        m < n,
        s@.g[m as int] != SENTINEL,
    ensures
        trail::is_trail(trail::flat_links(s@.from), m, seed, p@),
        seed_g + p.len() - 1 <= s@.g[m as int],
        p@[0] == m,
        p@.last() == seed,
        forall|i: int| 0 <= i < p.len() ==> (#[trigger] p@[i]) < n,
        forall|i: int| 0 <= i < p.len() - 1 ==> emits(dispatch, p@[i + 1], #[trigger] p@[i]),
        forall|i: int|
            0 <= i < p.len() - 1 ==> emits(
                dispatch,
                #[trigger] p@.reverse()[i],
                p@.reverse()[i + 1],
            ),
{
    proof {
        assert forall|k: nat|
            (#[trigger] trail::back(trail::flat_links(s.from@), m, k)) matches Some(y) ==> y
            < n by {
            lemma_flat_stays(dispatch, n, seed, seed_g, s@, m, k);
        }
    }
    let ghost k = lemma_flat_leads(dispatch, n, seed, seed_g, s@, m);
    match trail_flat(&s.from, m, seed) {
        Some(p) => {
            proof {
                lemma_trail_emitted(dispatch, n, seed, seed_g, s@, m, p@, k);
            }
            p
        },
        None => {
            assert(trail::leads(trail::flat_links(s.from@), m, seed));
            Vec::new()
        },
    }
}

/// Searches from both ends: forward from `fwd_seed_id`, which is `fwd_seed_g`
/// jumps from the source, and backward from `bwd_seed_id`, which is
/// `bwd_seed_g` jumps from the destination.
///
/// The answer is that of the state in which the search ends, or in which the
/// time runs out; there is none where an id is not in the graph or a batch
/// fails. A route that is found goes from one seed to the other, and makes
/// together with the jumps beyond the seeds fewer than `greedy_jumps`. It
/// passes no system twice, unless the seeds meet from the start.
pub fn run_bidirectional<
    F: Fn(&Vec<(u32, u32)>, u32) -> Option<Vec<GpuRelaxation>>,
    B: Fn(&Vec<(u32, u32)>, u32) -> Option<Vec<GpuRelaxation>>,
    T: Fn() -> bool,
>(
    graph: &GraphIndex,
    est_fwd: &Vec<u32>,
    est_bwd: &Vec<u32>,
    src_id: i64,
    dst_id: i64,
    fwd_seed_id: i64,
    bwd_seed_id: i64,
    fwd_seed_g: u32,
    bwd_seed_g: u32,
    greedy_jumps: u32,
    dispatch_fwd: F,
    dispatch_bwd: B,
    late: T,
) -> (r: Option<Vec<i64>>)
    requires
        graph.wf(),
        est_fwd.len() == graph.idx_to_id.len(),
        est_bwd.len() == graph.idx_to_id.len(),
        is_faithful(dispatch_fwd, graph.idx_to_id.len() as int),
        is_faithful(dispatch_bwd, graph.idx_to_id.len() as int),
        call_requires(late, ()),
    ensures
        !knows(graph, seq![src_id, dst_id, fwd_seed_id, bwd_seed_id]) ==> r is None,
        knows(graph, seq![src_id, dst_id, fwd_seed_id, bwd_seed_id]) ==> bi_result(
            graph,
            est_fwd@,
            est_bwd@,
            graph.id_to_idx@[fwd_seed_id],
            graph.id_to_idx@[bwd_seed_id],
            bi_start(
                graph.idx_to_id@.len(),
                graph.id_to_idx@[fwd_seed_id],
                fwd_seed_g,
                est_fwd@[graph.id_to_idx@[fwd_seed_id] as int],
                graph.id_to_idx@[bwd_seed_id],
                bwd_seed_g,
                est_bwd@[graph.id_to_idx@[bwd_seed_id] as int],
                greedy_jumps,
            ),
            dispatch_fwd,
            dispatch_bwd,
            late,
            r,
        ),
        r matches Some(p) ==> p.len() > 0 && p@[0] == fwd_seed_id && p@.last() == bwd_seed_id
            && fwd_seed_g + p.len() - 1 + bwd_seed_g < greedy_jumps,
        r matches Some(p) ==> exists|q: Seq<u32>| #[trigger]
            is_joined_route(dispatch_fwd, dispatch_bwd, graph.idx_to_id@, p@, q),
        r matches Some(p) ==> graph.idx_to_id@.no_duplicates() && (fwd_seed_id == bwd_seed_id
            ==> fwd_seed_g + bwd_seed_g >= greedy_jumps) ==> p@.no_duplicates(),
{
    let ghost ids = seq![src_id, dst_id, fwd_seed_id, bwd_seed_id];
    assert(ids[0] == src_id && ids[1] == dst_id && ids[2] == fwd_seed_id && ids[3] == bwd_seed_id);
    if !graph.id_to_idx.contains_key(&src_id) || !graph.id_to_idx.contains_key(&dst_id) {
        return None;
    }
    let seed_fwd = match graph.id_to_idx.get(&fwd_seed_id) {
        Some(i) => *i,
        None => {
            return None;
        },
    };
    let seed_bwd = match graph.id_to_idx.get(&bwd_seed_id) {
        Some(i) => *i,
        None => {
            return None;
        },
    };
    let n: usize = graph.idx_to_id.len();
    let mut fwd = Flat::seed(n, seed_fwd, fwd_seed_g, est_fwd[seed_fwd as usize]);
    let mut bwd = Flat::seed(n, seed_bwd, bwd_seed_g, est_bwd[seed_bwd as usize]);
    let mut mu: u32 = greedy_jumps;
    let mut at: Option<u32> = None;
    let ghost start = bi_start(
        n as nat,
        seed_fwd,
        fwd_seed_g,
        est_fwd@[seed_fwd as int],
        seed_bwd,
        bwd_seed_g,
        est_bwd@[seed_bwd as int],
        greedy_jumps,
    );
    let ghost mut run: Seq<BiView> = seq![start];
    let ghost apart = fwd_seed_id == bwd_seed_id ==> fwd_seed_g + bwd_seed_g >= greedy_jumps;
    proof {
        if seed_fwd == seed_bwd {
            assert(graph.idx_to_id@[seed_fwd as int] == graph.idx_to_id@[seed_bwd as int]);
        }
        lemma_seeded_flat_ok(
            dispatch_fwd,
            n as nat,
            seed_fwd,
            fwd_seed_g,
            est_fwd@[seed_fwd as int],
        );
        lemma_seeded_flat_ok(
            dispatch_bwd,
            n as nat,
            seed_bwd,
            bwd_seed_g,
            est_bwd@[seed_bwd as int],
        );
    }
    loop
        invariant
            graph.wf(),
            n == graph.idx_to_id.len(),
            est_fwd.len() == n,
            est_bwd.len() == n,
            is_faithful(dispatch_fwd, n as int),
            is_faithful(dispatch_bwd, n as int),
            call_requires(late, ()),
            knows(graph, seq![src_id, dst_id, fwd_seed_id, bwd_seed_id]),
            seed_fwd == graph.id_to_idx@[fwd_seed_id],
            seed_bwd == graph.id_to_idx@[bwd_seed_id],
            start == bi_start(
                n as nat,
                seed_fwd,
                fwd_seed_g,
                est_fwd@[seed_fwd as int],
                seed_bwd,
                bwd_seed_g,
                est_bwd@[seed_bwd as int],
                greedy_jumps,
            ),
            apart == (fwd_seed_id == bwd_seed_id ==> fwd_seed_g + bwd_seed_g >= greedy_jumps),
            bi_run(dispatch_fwd, dispatch_bwd, est_fwd@, est_bwd@, start, run),
            run.last() == (BiView { fwd: fwd@, bwd: bwd@, mu, at }),
            fwd.wf(n as int),
            bwd.wf(n as int),
            flat_ok(dispatch_fwd, n as int, seed_fwd, fwd_seed_g, fwd@),
            flat_ok(dispatch_bwd, n as int, seed_bwd, bwd_seed_g, bwd@),
            meeting_ok(fwd@.g, bwd@.g, apart, greedy_jumps, mu, at),
        ensures
            has_ended(run.last()) || call_ensures(late, (), true),
        decreases
                unclosed(fwd@.closed) + unclosed(bwd@.closed),
                fwd@.open.len() + bwd@.open.len(),
    {
        if late() {
            break;
        }
        let ef = fwd.open.peek();
        let eb = bwd.open.peek();
        let g_fwd: u64 = match ef {
            Some(e) => e.g as u64,
            None => u32::MAX as u64,
        };
        let g_bwd: u64 = match eb {
            Some(e) => e.g as u64,
            None => u32::MAX as u64,
        };
        let ghost s = run.last();
        assert(is_top(s.fwd, ef) && is_top(s.bwd, eb));
        if (ef.is_none() && eb.is_none()) || g_fwd + g_bwd >= mu as u64 {
            assert(is_over(s, ef, eb));
            break;
        }
        let f_fwd: u64 = match ef {
            Some(e) => e.f,
            None => u64::MAX,
        };
        let f_bwd: u64 = match eb {
            Some(e) => e.f,
            None => u64::MAX,
        };
        if f_fwd <= f_bwd {
            assert(ef is Some);
            let ghost x = end_of(fwd@, mu, at);
            let batch = fill(&mut fwd, &bwd.g, &mut mu, &mut at, Ghost(n as int));
            let ghost y = choose|y: FillView| #[trigger]
                is_filled(x, bwd@.g, y) && y.x == end_of(fwd@, mu, at) && y.batch == batch@;
            proof {
                assert(is_filled(x, bwd@.g, y));
                let ys = choose|ys: Seq<FillView>| #[trigger]
                    fill_run(x, bwd@.g, ys) && ys.last() == y;
                lemma_fill_ok(
                    dispatch_fwd,
                    n as int,
                    seed_fwd,
                    fwd_seed_g,
                    bwd@.g,
                    apart,
                    greedy_jumps,
                    x,
                    ys,
                    ys.len() - 1,
                );
            }
            if batch.len() > 0 {
                let rel = match dispatch_fwd(&batch, mu) {
                    Some(rel) => rel,
                    None => {
                        assert(end_fails(dispatch_fwd, s.bwd.g, x));
                        return None;
                    },
                };
                proof {
                    lemma_end_relaxed_ok(
                        dispatch_fwd,
                        n as int,
                        seed_fwd,
                        fwd_seed_g,
                        bwd@.g,
                        apart,
                        greedy_jumps,
                        est_fwd@,
                        y.x,
                        batch,
                        y.x.mu,
                        rel,
                        rel.len() as int,
                    );
                    assert forall|k: int| 0 <= k < rel.len() implies (#[trigger] rel@[k]).to_idx
                        < n by {}
                }
                take_in(&mut fwd, &bwd.g, &mut mu, &mut at, &rel, est_fwd, Ghost(n as int));
            }
            assert(end_turn(dispatch_fwd, s.bwd.g, est_fwd@, x, end_of(fwd@, mu, at)));
        } else {
            assert(eb is Some);
            let ghost x = end_of(bwd@, mu, at);
            let batch = fill(&mut bwd, &fwd.g, &mut mu, &mut at, Ghost(n as int));
            let ghost y = choose|y: FillView| #[trigger]
                is_filled(x, fwd@.g, y) && y.x == end_of(bwd@, mu, at) && y.batch == batch@;
            proof {
                assert(is_filled(x, fwd@.g, y));
                let ys = choose|ys: Seq<FillView>| #[trigger]
                    fill_run(x, fwd@.g, ys) && ys.last() == y;
                lemma_fill_ok(
                    dispatch_bwd,
                    n as int,
                    seed_bwd,
                    bwd_seed_g,
                    fwd@.g,
                    apart,
                    greedy_jumps,
                    x,
                    ys,
                    ys.len() - 1,
                );
            }
            if batch.len() > 0 {
                let rel = match dispatch_bwd(&batch, mu) {
                    Some(rel) => rel,
                    None => {
                        assert(end_fails(dispatch_bwd, s.fwd.g, x));
                        return None;
                    },
                };
                proof {
                    lemma_end_relaxed_ok(
                        dispatch_bwd,
                        n as int,
                        seed_bwd,
                        bwd_seed_g,
                        fwd@.g,
                        apart,
                        greedy_jumps,
                        est_bwd@,
                        y.x,
                        batch,
                        y.x.mu,
                        rel,
                        rel.len() as int,
                    );
                    assert forall|k: int| 0 <= k < rel.len() implies (#[trigger] rel@[k]).to_idx
                        < n by {}
                }
                take_in(&mut bwd, &fwd.g, &mut mu, &mut at, &rel, est_bwd, Ghost(n as int));
            }
            assert(end_turn(dispatch_bwd, s.fwd.g, est_bwd@, x, end_of(bwd@, mu, at)));
        }
        proof {
            let t = BiView { fwd: fwd@, bwd: bwd@, mu, at };
            assert(bi_turn(dispatch_fwd, dispatch_bwd, est_fwd@, est_bwd@, s, t));
            run = run.push(t);
        }
    }
    let m = match at {
        Some(m) => m,
        None => {
            return None;
        },
    };
    let pf = trail_to_seed::<F>(
        &fwd,
        m,
        seed_fwd,
        Ghost(n as int),
        Ghost(fwd_seed_g),
        Ghost(dispatch_fwd),
    );
    let pb = trail_to_seed::<B>(
        &bwd,
        m,
        seed_bwd,
        Ghost(n as int),
        Ghost(bwd_seed_g),
        Ghost(dispatch_bwd),
    );
    let ghost q = pf@.reverse() + pb@.skip(1);
    let mut p: Vec<i64> = Vec::new();
    let mut k: usize = pf.len();
    while k > 0
        invariant
            k <= pf.len(),
            n == graph.idx_to_id.len(),
            forall|i: int| 0 <= i < pf.len() ==> (#[trigger] pf@[i]) < n,
            p.len() == pf.len() - k,
            forall|j: int|
                0 <= j < p.len() ==> #[trigger] p@[j] == graph.idx_to_id@[pf@[pf.len() - 1
                    - j] as int],
        decreases k,
    {
        k = k - 1;
        p.push(graph.idx_to_id[pf[k] as usize]);
    }
    for i in 1..pb.len()
        invariant
            pb.len() > 0,
            n == graph.idx_to_id.len(),
            forall|i: int| 0 <= i < pb.len() ==> (#[trigger] pb@[i]) < n,
            p.len() == pf.len() + i - 1,
            forall|j: int|
                0 <= j < pf.len() ==> #[trigger] p@[j] == graph.idx_to_id@[pf@[pf.len() - 1
                    - j] as int],
            forall|j: int|
                pf.len() <= j < p.len() ==> #[trigger] p@[j] == graph.idx_to_id@[pb@[j - pf.len()
                    + 1] as int],
    {
        p.push(graph.idx_to_id[pb[i] as usize]);
    }
    proof {
        assert(p@ =~= q.map_values(|i: u32| graph.idx_to_id@[i as int]));
        assert forall|i: int| 0 <= i < q.len() - 1 implies emits(
            dispatch_fwd,
            #[trigger] q[i],
            q[i + 1],
        ) || emits(dispatch_bwd, q[i + 1], q[i]) by {
            if i + 1 < pf.len() {
                assert(emits(dispatch_fwd, pf@.reverse()[i], pf@.reverse()[i + 1]));
            } else {
                let j = i - pf.len() + 1;
                assert(q[i] == pb@[j]);
                assert(emits(dispatch_bwd, pb@[j + 1], pb@[j]));
            }
        }
        assert(is_joined_route(dispatch_fwd, dispatch_bwd, graph.idx_to_id@, p@, q));
        assert(bi_answer(run.last(), seed_fwd, seed_bwd, graph.idx_to_id@, Some(p)));
        if apart && graph.idx_to_id@.no_duplicates() {
            lemma_joined_flat(
                dispatch_fwd,
                dispatch_bwd,
                n as int,
                seed_fwd,
                fwd_seed_g,
                seed_bwd,
                bwd_seed_g,
                run.last(),
                m,
                pf@,
                pb@,
            );
            lemma_named_once(graph.idx_to_id@, q);
        }
    }
    Some(p)
}

/// The trails from a best meeting, put together, pass no node twice: one that
/// they passed twice would be a better meeting.
proof fn lemma_joined_flat<
    F: Fn(&Vec<(u32, u32)>, u32) -> Option<Vec<GpuRelaxation>>,
    B: Fn(&Vec<(u32, u32)>, u32) -> Option<Vec<GpuRelaxation>>,
>(
    fwd: F,
    bwd: B,
    n: int,
    seed_fwd: u32,
    fwd_g: u32,
    seed_bwd: u32,
    bwd_g: u32,
    s: BiView,
    m: u32,
    pf: Seq<u32>,
    pb: Seq<u32>,
)
    requires
        n <= SENTINEL,
        flat_ok(fwd, n, seed_fwd, fwd_g, s.fwd),
        flat_ok(bwd, n, seed_bwd, bwd_g, s.bwd),
        m < n,
        s.fwd.g[m as int] != SENTINEL,
        s.bwd.g[m as int] != SENTINEL,
        s.fwd.g[m as int] + s.bwd.g[m as int] <= s.mu,
        forall|i: int|
            0 <= i < n && #[trigger] s.fwd.g[i] != SENTINEL && #[trigger] s.bwd.g[i] != SENTINEL
                ==> s.fwd.g[i] + s.bwd.g[i] >= s.mu,
        trail::is_trail(trail::flat_links(s.fwd.from), m, seed_fwd, pf),
        trail::is_trail(trail::flat_links(s.bwd.from), m, seed_bwd, pb),
    ensures
        (pf.reverse() + pb.skip(1)).no_duplicates(),
{
    let q = pf.reverse() + pb.skip(1);
    let nf = pf.len() as int;
    trail::lemma_trail_simple(trail::flat_links(s.fwd.from), m, seed_fwd, pf);
    trail::lemma_trail_simple(trail::flat_links(s.bwd.from), m, seed_bwd, pb);
    assert forall|i: int, j: int| 0 <= i < j < q.len() implies q[i] != q[j] by {
        if j < nf {
            assert(q[i] == pf[nf - 1 - i]);
            assert(q[j] == pf[nf - 1 - j]);
        } else {
            let b = j - nf + 1;
            assert(q[j] == pb[b]);
            lemma_trail_falls(bwd, n, seed_bwd, bwd_g, s.bwd, m, pb, b);
            if i < nf {
                let a = nf - 1 - i;
                assert(q[i] == pf[a]);
                lemma_trail_falls(fwd, n, seed_fwd, fwd_g, s.fwd, m, pf, a);
            } else {
                assert(q[i] == pb[i - nf + 1]);
            }
        }
    }
}

/// The nodes of a corridor, and the voxel table of their cells.
pub struct GpuGraph {
    pub nodes: GraphIndex,
    pub voxels: VoxelTable,
}

/// The index of the last node with the id `id` among the first `n`.
pub open spec fn last_index(ids: Seq<i64>, id: i64, n: int) -> Option<u32>
    decreases n,
{
    if n <= 0 {
        None
    } else if ids[n - 1] == id {
        Some((n - 1) as u32)
    } else {
        last_index(ids, id, n - 1)
    }
}

proof fn lemma_last_index(ids: Seq<i64>, id: i64, n: int)
    requires
        0 <= n <= ids.len() <= SENTINEL,
    ensures
        last_index(ids, id, n) matches Some(i) ==> i < n && ids[i as int] == id,
    decreases n,
{
    if n > 0 {
        lemma_last_index(ids, id, n - 1);
    }
}

/// Builds the graph of the nodes with the given ids, which lie in the given
/// cells. Of nodes with one id, the last is the one that the id names. The
/// voxel table gives for every cell the nodes that lie in it.
pub fn build_graph(ids: &Vec<i64>, cells: &Vec<Cell>) -> (r: GpuGraph)
    requires
        ids.len() == cells.len(),
        ids.len() < SENTINEL,
        cells@.to_set().len() <= 0x2000_0000,
    ensures
        r.nodes.wf(),
        r.nodes.idx_to_id@ == ids@,
        forall|id: i64| #[trigger]
            r.nodes.id_to_idx@.contains_key(id) <==> last_index(ids@, id, ids.len() as int) is Some,
        forall|id: i64| #[trigger]
            r.nodes.id_to_idx@.contains_key(id) ==> last_index(ids@, id, ids.len() as int) == Some(
                r.nodes.id_to_idx@[id],
            ),
        forall|c: Cell| #[trigger]
            voxel::found(&r.voxels, c) == voxel::members(cells@, c, cells.len() as int),
        voxel::is_power_of_two(r.voxels.table.len() as int),
        r.voxels.table.len() >= 16,
        4 * voxel::filled(r.voxels.table@) <= r.voxels.table.len(),
        r.voxels.table_mask + 1 == r.voxels.table.len(),
        r.voxels.flat.len() > 0,
{
    let mut id_to_idx: HashMap<i64, u32> = HashMap::new();
    let mut idx_to_id: Vec<i64> = Vec::new();
    for i in 0..ids.len()
        invariant
            ids.len() < SENTINEL,
            idx_to_id@ == ids@.take(i as int),
            forall|id: i64| #[trigger]
                id_to_idx@.contains_key(id) <==> last_index(ids@, id, i as int) is Some,
            forall|id: i64| #[trigger]
                id_to_idx@.contains_key(id) ==> last_index(ids@, id, i as int) == Some(
                    id_to_idx@[id],
                ),
    {
        id_to_idx.insert(ids[i], i as u32);
        idx_to_id.push(ids[i]);
        assert(ids@.take(i + 1) =~= ids@.take(i as int).push(ids@[i as int]));
    }
    assert(ids@.take(ids.len() as int) =~= ids@);
    let index = CellIndex::build(cells);
    proof {
        voxel::lemma_groups_are_cells(&index, cells@);
    }
    let voxels = VoxelTable::build(&index, Ghost(cells@));
    let nodes = GraphIndex { id_to_idx, idx_to_id };
    assert(nodes.wf()) by {
        assert forall|id: i64| #[trigger]
            nodes.id_to_idx@.contains_key(id) implies nodes.id_to_idx@[id] < nodes.idx_to_id.len()
            && nodes.idx_to_id@[nodes.id_to_idx@[id] as int] == id by {
            lemma_last_index(ids@, id, ids.len() as int);
        }
    }
    GpuGraph { nodes, voxels }
}

/// The nodes that relaxations lead to.
pub open spec fn targets(rel: Seq<GpuRelaxation>) -> Seq<u64> {
    rel.map_values(|x: GpuRelaxation| x.to_idx as u64)
}

/// Puts relaxations in the order of the nodes that they lead to; those that
/// lead to one node stay in the order in which they came.
pub fn order_relaxations(rel: &Vec<GpuRelaxation>) -> (r: Vec<GpuRelaxation>)
    ensures
        exists|p: Seq<usize>| #[trigger]
            order::is_order(targets(rel@), p) && r@
                == p.map_values(|i: usize| rel@[i as int]),
{
    let mut keys: Vec<u64> = Vec::new();
    for i in 0..rel.len()
        invariant
            keys@ == targets(rel@).take(i as int),
    {
        keys.push(rel[i].to_idx as u64);
        assert(targets(rel@).take(i + 1) =~= targets(rel@).take(i as int).push(
            rel@[i as int].to_idx as u64,
        ));
    }
    assert(keys@ =~= targets(rel@));
    let p = order(&keys);
    let mut r: Vec<GpuRelaxation> = Vec::new();
    for i in 0..p.len()
        invariant
            order::is_order(keys@, p@),
            keys.len() == rel.len(),
            r.len() == i,
            forall|j: int| 0 <= j < i ==> #[trigger] r@[j] == rel@[p@[j] as int],
    {
        assert(0 <= p@[i as int] < keys.len());
        r.push(rel[p[i]]);
    }
    assert(r@ =~= p@.map_values(|i: usize| rel@[i as int]));
    r
}

/// What holds of one direction of the search from both ends while the two have
/// not met: a node with a label waits or is done, and what a node shows that is
/// done, and no longer in a batch, has a label; the seed of the other direction
/// has none.
spec fn end_live<D: Fn(&Vec<(u32, u32)>, u32) -> Option<Vec<GpuRelaxation>>>(
    dispatch: D,
    n: int,
    seed: u32,
    seed_g: u32,
    target: u32,
    s: FlatView,
    batch: Seq<(u32, u32)>,
) -> bool {
    &&& s.g.len() == n && s.closed.len() == n && seed < n && target < n
    &&& s.g[seed as int] <= seed_g && s.g[target as int] == SENTINEL
    &&& forall|i: u32| i < n && #[trigger] s.closed[i as int] ==> s.g[i as int] != SENTINEL
    &&& forall|i: u32|
        i < n && #[trigger] s.g[i as int] != SENTINEL && !s.closed[i as int] ==> waits_for(
            s.open,
            i,
            s.g[i as int],
        )
    &&& forall|e: Entry<u32>| #[trigger]
        s.open.contains(e) ==> e.id < n && s.g[e.id as int] != SENTINEL && e.g + unclosed(s.closed)
            <= n + seed_g
    &&& forall|a: u32, b: u32|
        a < n && b < n && s.closed[a as int] && !is_sent(batch, a) && #[trigger] shows(dispatch, a,
            b)
            ==> s.g[b as int] != SENTINEL
    &&& forall|i: int|
        0 <= i < batch.len() ==> (#[trigger] batch[i]).0 < n && batch[i].1 + 1 + unclosed(s.closed)
            <= n + seed_g
}

/// Taking an entry while a batch is filled keeps a direction alive, or the two
/// meet.
proof fn lemma_filled_live<D: Fn(&Vec<(u32, u32)>, u32) -> Option<Vec<GpuRelaxation>>>(
    dispatch: D,
    n: int,
    seed: u32,
    seed_g: u32,
    target: u32,
    other: Seq<u32>,
    y: FillView,
    e: Entry<u32>,
)
    requires
        end_live(dispatch, n, seed, seed_g, target, y.x.s, y.batch),
        n + seed_g <= y.x.mu,
        y.x.s.open.contains(e),
    ensures
        ({
            let z = filled_one(y, e, other);
            ||| z.x.at is Some
            ||| end_live(dispatch, n, seed, seed_g, target, z.x.s, z.batch) && z.x.mu == y.x.mu
                && z.x.at == y.x.at
        }),
{
    broadcast use vstd::multiset::group_multiset_axioms;

    let s = y.x.s;
    let z = filled_one(y, e, other);
    let t = z.x.s;
    if z.x.at is None {
        assert(!s.closed[target as int]);
        lemma_some_unclosed(s.closed, target as int);
        assert(e.g < y.x.mu);
        assert forall|o: Entry<u32>| #[trigger] t.open.contains(o) implies s.open.contains(o) by {
            crate::astar::lemma_remove_contains(s.open, e, o);
        }
        if !is_stale(s, y.x.mu, e) {
            lemma_unclosed(s.closed, e.id as int);
            assert(z.batch == y.batch.push((e.id, e.g)));
            assert forall|a: u32, b: u32|
                a < n && b < n && t.closed[a as int] && !is_sent(z.batch, a) && #[trigger] shows(
                    dispatch,
                    a,
                    b,
                ) implies t.g[b as int] != SENTINEL by {
                assert(z.batch[y.batch.len() as int].0 == e.id);
                assert(a != e.id);
                if is_sent(y.batch, a) {
                    let i = choose|i: int| 0 <= i < y.batch.len() && (#[trigger] y.batch[i]).0 == a;
                    assert(z.batch[i].0 == a);
                }
            }
            assert forall|i: int| 0 <= i < z.batch.len() implies (#[trigger] z.batch[i]).0 < n
                && z.batch[i].1 + 1 + unclosed(t.closed) <= n + seed_g by {
                if i < y.batch.len() {
                    assert(z.batch[i] == y.batch[i]);
                }
            }
        }
        assert forall|i: u32|
            i < n && #[trigger] t.g[i as int] != SENTINEL && !t.closed[i as int] implies waits_for(
            t.open,
            i,
            t.g[i as int],
        ) by {
            assert(s.g[i as int] != SENTINEL && !s.closed[i as int]);
            let o = choose|o: Entry<u32>| #[trigger]
                s.open.contains(o) && o.id == i && o.g == s.g[i as int];
            assert(o != e);
            assert(t.open.contains(o));
        }
    }
}

/// Filling a batch keeps a direction alive, or the two meet.
proof fn lemma_fill_live<D: Fn(&Vec<(u32, u32)>, u32) -> Option<Vec<GpuRelaxation>>>(
    dispatch: D,
    n: int,
    seed: u32,
    seed_g: u32,
    target: u32,
    other: Seq<u32>,
    x: EndView,
    ys: Seq<FillView>,
    k: int,
)
    requires
        end_live(dispatch, n, seed, seed_g, target, x.s, Seq::empty()),
        n + seed_g <= x.mu,
        x.at is None,
        fill_run(x, other, ys),
        0 <= k < ys.len(),
    ensures
        ys[k].x.at is Some || end_live(
            dispatch,
            n,
            seed,
            seed_g,
            target,
            ys[k].x.s,
            ys[k].batch,
        ) && ys[k].x.mu == x.mu,
    decreases k,
{
    if k > 0 {
        lemma_fill_live(dispatch, n, seed, seed_g, target, other, x, ys, k - 1);
        let y = ys[k - 1];
        assert(fill_step(ys[k - 1], ys[k - 1 + 1], other));
        let e = choose|e: Entry<u32>| #[trigger]
            heap::is_least(y.x.s.open, e) && ys[k] == filled_one(y, e, other);
        if y.x.at is None {
            lemma_filled_live(dispatch, n, seed, seed_g, target, other, y, e);
        }
    }
}

/// Taking in relaxations keeps a direction alive, or the two meet.
proof fn lemma_end_relaxed_live<D: Fn(&Vec<(u32, u32)>, u32) -> Option<Vec<GpuRelaxation>>>(
    dispatch: D,
    n: int,
    seed: u32,
    seed_g: u32,
    target: u32,
    other: Seq<u32>,
    est: Seq<u32>,
    x: EndView,
    batch: Vec<(u32, u32)>,
    rel: Vec<GpuRelaxation>,
    k: int,
)
    requires
        n <= SENTINEL,
        n + seed_g + other[target as int] <= x.mu,
        other[target as int] != SENTINEL,
        is_faithful(dispatch, n),
        x.at is None ==> end_live(dispatch, n, seed, seed_g, target, x.s, batch@),
        call_ensures(dispatch, (&batch, x.mu), Some(rel)),
        0 <= k <= rel.len(),
    ensures
        ({
            let v = end_relaxed_all(x, rel@, other, est, k);
            ||| v.at is Some
            ||| end_live(dispatch, n, seed, seed_g, target, v.s, batch@) && v.mu == x.mu && forall|
                j: int,
            |
                0 <= j < k ==> v.s.g[(#[trigger] rel@[j]).to_idx as int] != SENTINEL
        }),
    decreases k,
{
    broadcast use vstd::multiset::group_multiset_axioms;

    if k > 0 {
        lemma_end_relaxed_live(
            dispatch,
            n,
            seed,
            seed_g,
            target,
            other,
            est,
            x,
            batch,
            rel,
            k - 1,
        );
        let v = end_relaxed_all(x, rel@, other, est, k - 1);
        let r = rel@[k - 1];
        let t = end_relaxed(v, r, other, est);
        assert(r.to_idx < n && from_frontier(batch@, r));
        if t.at is None {
            assert(v.at is None);
            let i = choose|i: int|
                0 <= i < batch@.len() && (#[trigger] batch@[i]).0 == r.from_idx && batch@[i].1 + 1
                    == r.new_g;
            lemma_some_unclosed(v.s.closed, target as int);
            assert(r.new_g + unclosed(v.s.closed) <= n + seed_g);
            if r.new_g < v.s.g[r.to_idx as int] {
                assert(r.to_idx != target);
                let new = Entry {
                    f: (r.new_g + est[r.to_idx as int]) as u64,
                    g: r.new_g,
                    id: r.to_idx,
                };
                assert forall|o: Entry<u32>| #[trigger]
                    t.s.open.contains(o) implies v.s.open.contains(o) || o == new by {
                    crate::astar::lemma_insert_contains(v.s.open, new, o);
                }
                assert forall|j: u32|
                    j < n && #[trigger] t.s.g[j as int] != SENTINEL
                        && !t.s.closed[j as int] implies waits_for(
                    t.s.open,
                    j,
                    t.s.g[j as int],
                ) by {
                    if j == r.to_idx {
                        assert(t.s.open.contains(new));
                    } else {
                        assert(v.s.g[j as int] != SENTINEL);
                        let o = choose|o: Entry<u32>| #[trigger]
                            v.s.open.contains(o) && o.id == j && o.g == v.s.g[j as int];
                        assert(t.s.open.contains(o));
                    }
                }
            }
        }
    }
}

proof fn lemma_met_stays(x: EndView, rel: Seq<GpuRelaxation>, other: Seq<u32>, est: Seq<u32>,
    k: int)
    ensures
        x.at is Some ==> end_relaxed_all(x, rel, other, est, k).at is Some,
    decreases k,
{
    if k > 0 {
        lemma_met_stays(x, rel, other, est, k - 1);
    }
}

proof fn lemma_fill_met_stays(x: EndView, other: Seq<u32>, ys: Seq<FillView>, k: int)
    requires
        fill_run(x, other, ys),
        0 <= k < ys.len(),
    ensures
        x.at is Some ==> ys[k].x.at is Some,
    decreases k,
{
    if k > 0 {
        lemma_fill_met_stays(x, other, ys, k - 1);
        assert(fill_step(ys[k - 1], ys[k - 1 + 1], other));
    }
}

/// A turn of one direction keeps it alive, or the two meet.
proof fn lemma_end_turn_live<D: Fn(&Vec<(u32, u32)>, u32) -> Option<Vec<GpuRelaxation>>>(
    dispatch: D,
    n: int,
    seed: u32,
    seed_g: u32,
    target: u32,
    other: Seq<u32>,
    est: Seq<u32>,
    x: EndView,
    y: EndView,
)
    requires
        n <= SENTINEL,
        is_faithful(dispatch, n),
        end_turn(dispatch, other, est, x, y),
        x.at is None ==> end_live(dispatch, n, seed, seed_g, target, x.s, Seq::empty()) && n
            + seed_g + other[target as int] <= x.mu && other[target as int] != SENTINEL,
    ensures
        y.at is Some || x.at is None && y.mu == x.mu && end_live(
            dispatch,
            n,
            seed,
            seed_g,
            target,
            y.s,
            Seq::empty(),
        ),
{
    if exists|f: FillView| #[trigger] is_filled(x, other, f) && f.batch.len() == 0 && y == f.x {
        let f = choose|f: FillView| #[trigger]
            is_filled(x, other, f) && f.batch.len() == 0 && y == f.x;
        let ys = choose|ys: Seq<FillView>| #[trigger] fill_run(x, other, ys) && ys.last() == f;
        lemma_fill_met_stays(x, other, ys, ys.len() - 1);
        if x.at is None {
            lemma_fill_live(dispatch, n, seed, seed_g, target, other, x, ys, ys.len() - 1);
            assert(f.batch =~= Seq::empty());
        }
    } else {
        let (f, batch, rel) = choose|f: FillView, batch: Vec<(u32, u32)>, rel: Vec<GpuRelaxation>|
            is_filled(x, other, f) && f.batch.len() > 0 && batch@ == f.batch && #[trigger]
                call_ensures(dispatch, (&batch, f.x.mu), Some(rel)) && y == #[trigger]
                end_relaxed_all(f.x, rel@, other, est, rel@.len() as int);
        let ys = choose|ys: Seq<FillView>| #[trigger] fill_run(x, other, ys) && ys.last() == f;
        lemma_fill_met_stays(x, other, ys, ys.len() - 1);
        lemma_met_stays(f.x, rel@, other, est, rel@.len() as int);
        if x.at is None {
            lemma_fill_live(dispatch, n, seed, seed_g, target, other, x, ys, ys.len() - 1);
        }
        if y.at is None {
            lemma_end_relaxed_live(
                dispatch,
                n,
                seed,
                seed_g,
                target,
                other,
                est,
                f.x,
                batch,
                rel,
                rel@.len() as int,
            );
            lemma_some_unclosed(y.s.closed, target as int);
            assert forall|a: u32, b: u32|
                a < n && b < n && y.s.closed[a as int] && !is_sent(Seq::empty(), a)
                    && #[trigger] shows(dispatch, a, b) implies y.s.g[b as int] != SENTINEL by {
                if is_sent(batch@, a) {
                    let i = choose|i: int| 0 <= i < batch@.len() && (#[trigger] batch@[i]).0 == a;
                    assert(batch@[i].1 + 1 < f.x.mu);
                    let k = choose|k: int|
                        0 <= k < rel.len() && (#[trigger] rel@[k]).from_idx == a && rel@[k].to_idx
                            == b && rel@[k].new_g == batch@[i].1 + 1;
                    assert(rel@[k].to_idx == b);
                }
            }
        }
    }
}

/// A direction starts alive.
proof fn lemma_end_start_live<D: Fn(&Vec<(u32, u32)>, u32) -> Option<Vec<GpuRelaxation>>>(
    dispatch: D,
    n: nat,
    seed: u32,
    seed_g: u32,
    target: u32,
    h: u32,
)
    requires
        seed < n,
        target < n,
        seed != target,
        seed_g < SENTINEL,
    ensures
        end_live(
            dispatch,
            n as int,
            seed,
            seed_g,
            target,
            flat_seeded(n, seed, seed_g, h),
            Seq::empty(),
        ),
{
    broadcast use vstd::multiset::group_multiset_axioms;

    let s = flat_seeded(n, seed, seed_g, h);
    let new = Entry { f: (seed_g + h) as u64, g: seed_g, id: seed };
    lemma_all_unclosed(n);
    assert forall|e: Entry<u32>| #[trigger] s.open.contains(e) implies e == new by {
        crate::astar::lemma_insert_contains(Multiset::empty(), new, e);
    }
    assert(s.open.contains(new));
    assert forall|i: u32|
        i < n && #[trigger] s.g[i as int] != SENTINEL && !s.closed[i as int] implies waits_for(
        s.open,
        i,
        s.g[i as int],
    ) by {
        assert(i == seed);
    }
}

/// Where nothing waits in a direction and the two have not met, nothing leads
/// from its seed to that of the other.
proof fn lemma_end_over<D: Fn(&Vec<(u32, u32)>, u32) -> Option<Vec<GpuRelaxation>>>(
    dispatch: D,
    n: int,
    seed: u32,
    seed_g: u32,
    target: u32,
    s: FlatView,
    w: Seq<u32>,
    i: int,
)
    requires
        end_live(dispatch, n, seed, seed_g, target, s, Seq::empty()),
        seed_g < SENTINEL,
        s.open.len() == 0,
        is_shown_walk(dispatch, n, seed, target, w),
        0 <= i < w.len(),
    ensures
        s.g[w[i] as int] != SENTINEL,
    decreases i,
{
    broadcast use vstd::multiset::group_multiset_axioms;

    if i > 0 {
        lemma_end_over(dispatch, n, seed, seed_g, target, s, w, i - 1);
        let a = w[i - 1];
        assert(shows(dispatch, w[i - 1], w[i - 1 + 1]));
        if !s.closed[a as int] {
            assert(waits_for(s.open, a, s.g[a as int]));
            let e = choose|e: Entry<u32>| #[trigger]
                s.open.contains(e) && e.id == a && e.g == s.g[a as int];
            assert(s.open.count(e) > 0);
            assert(s.open.count(e) <= s.open.len());
        }
        assert(!is_sent(Seq::empty(), a));
    }
}

/// The two directions stay alive until they meet.
proof fn lemma_bi_live<
    F: Fn(&Vec<(u32, u32)>, u32) -> Option<Vec<GpuRelaxation>>,
    B: Fn(&Vec<(u32, u32)>, u32) -> Option<Vec<GpuRelaxation>>,
>(
    fwd: F,
    bwd: B,
    n: int,
    a: u32,
    a_g: u32,
    b: u32,
    b_g: u32,
    est_fwd: Seq<u32>,
    est_bwd: Seq<u32>,
    start: BiView,
    run: Seq<BiView>,
    k: int,
)
    requires
        n <= SENTINEL,
        n + a_g + b_g <= start.mu,
        a_g < SENTINEL,
        b_g < SENTINEL,
        is_faithful(fwd, n),
        is_faithful(bwd, n),
        start.at is None,
        end_live(fwd, n, a, a_g, b, start.fwd, Seq::empty()),
        end_live(bwd, n, b, b_g, a, start.bwd, Seq::empty()),
        bi_run(fwd, bwd, est_fwd, est_bwd, start, run),
        0 <= k < run.len(),
    ensures
        run[k].at is Some || {
            &&& run[k].mu == start.mu
            &&& end_live(fwd, n, a, a_g, b, run[k].fwd, Seq::empty())
            &&& end_live(bwd, n, b, b_g, a, run[k].bwd, Seq::empty())
        },
    decreases k,
{
    if k > 0 {
        lemma_bi_live(fwd, bwd, n, a, a_g, b, b_g, est_fwd, est_bwd, start, run, k - 1);
        let s = run[k - 1];
        let t = run[k];
        assert(bi_turn(fwd, bwd, est_fwd, est_bwd, run[k - 1], run[k - 1 + 1]));
        let (ef, eb) = choose|ef: Option<Entry<u32>>, eb: Option<Entry<u32>>| #[trigger]
            is_top(s.fwd, ef) && #[trigger] is_top(s.bwd, eb) && !is_over(s, ef, eb) && if rank(ef)
                <= rank(eb) {
                t.bwd == s.bwd && end_turn(
                    fwd,
                    s.bwd.g,
                    est_fwd,
                    end_of(s.fwd, s.mu, s.at),
                    end_of(t.fwd, t.mu, t.at),
                )
            } else {
                t.fwd == s.fwd && end_turn(
                    bwd,
                    s.fwd.g,
                    est_bwd,
                    end_of(s.bwd, s.mu, s.at),
                    end_of(t.bwd, t.mu, t.at),
                )
            };
        if rank(ef) <= rank(eb) {
            lemma_end_turn_live(
                fwd,
                n,
                a,
                a_g,
                b,
                s.bwd.g,
                est_fwd,
                end_of(s.fwd, s.mu, s.at),
                end_of(t.fwd, t.mu, t.at),
            );
        } else {
            lemma_end_turn_live(
                bwd,
                n,
                b,
                b_g,
                a,
                s.fwd.g,
                est_bwd,
                end_of(s.bwd, s.mu, s.at),
                end_of(t.bwd, t.mu, t.at),
            );
        }
    }
}

/// A search from both ends that is not cut short finds a route where walks lead
/// from either seed to the other.
pub proof fn law_both_ends_meet<
    F: Fn(&Vec<(u32, u32)>, u32) -> Option<Vec<GpuRelaxation>>,
    B: Fn(&Vec<(u32, u32)>, u32) -> Option<Vec<GpuRelaxation>>,
    T: Fn() -> bool,
>(
    graph: &GraphIndex,
    est_fwd: Seq<u32>,
    est_bwd: Seq<u32>,
    a: u32,
    a_g: u32,
    b: u32,
    b_g: u32,
    limit: u32,
    fwd: F,
    bwd: B,
    late: T,
    r: Option<Vec<i64>>,
    w: Seq<u32>,
    v: Seq<u32>,
)
    requires
        graph.wf(),
        a < graph.idx_to_id.len(),
        b < graph.idx_to_id.len(),
        a != b,
        2 * graph.idx_to_id.len() + a_g + b_g <= limit,
        is_faithful(fwd, graph.idx_to_id.len() as int),
        is_faithful(bwd, graph.idx_to_id.len() as int),
        bi_result(
            graph,
            est_fwd,
            est_bwd,
            a,
            b,
            bi_start(
                graph.idx_to_id@.len(),
                a,
                a_g,
                est_fwd[a as int],
                b,
                b_g,
                est_bwd[b as int],
                limit,
            ),
            fwd,
            bwd,
            late,
            r,
        ),
        !call_ensures(late, (), true),
        !can_fail(fwd),
        !can_fail(bwd),
        is_shown_walk(fwd, graph.idx_to_id.len() as int, a, b, w),
        is_shown_walk(bwd, graph.idx_to_id.len() as int, b, a, v),
    ensures
        r is Some,
{
    let n = graph.idx_to_id@.len();
    let start = bi_start(n, a, a_g, est_fwd[a as int], b, b_g, est_bwd[b as int], limit);
    let run = choose|run: Seq<BiView>| #[trigger]
        bi_run(fwd, bwd, est_fwd, est_bwd, start, run) && ((r is None && bi_fails(
            fwd,
            bwd,
            run.last(),
        )) || ((has_ended(run.last()) || call_ensures(late, (), true)) && bi_answer(
            run.last(),
            a,
            b,
            graph.idx_to_id@,
            r,
        )));
    let s = run.last();
    assert(!bi_fails(fwd, bwd, s));
    lemma_end_start_live(fwd, n, a, a_g, b, est_fwd[a as int]);
    lemma_end_start_live(bwd, n, b, b_g, a, est_bwd[b as int]);
    lemma_bi_live(fwd, bwd, n as int, a, a_g, b, b_g, est_fwd, est_bwd, start, run, run.len() - 1);
    if s.at is None {
        let (ef, eb) = choose|ef: Option<Entry<u32>>, eb: Option<Entry<u32>>| #[trigger]
            is_top(s.fwd, ef) && #[trigger] is_top(s.bwd, eb) && is_over(s, ef, eb);
        lemma_some_unclosed(s.fwd.closed, b as int);
        lemma_some_unclosed(s.bwd.closed, a as int);
        if ef is None {
            lemma_end_over(fwd, n as int, a, a_g, b, s.fwd, w, w.len() - 1);
        } else if eb is None {
            lemma_end_over(bwd, n as int, b, b_g, a, s.bwd, v, v.len() - 1);
        } else {
            assert(s.fwd.open.contains(ef->0));
            assert(s.bwd.open.contains(eb->0));
        }
    }
}

/// The index of an id is the last at which it stands; an id that stands nowhere
/// has none.
pub proof fn law_the_last_index_counts(ids: Seq<i64>, id: i64, n: int)
    requires
        0 <= n <= ids.len(),
        n <= SENTINEL,
    ensures
        last_index(ids, id, n) matches Some(i) ==> i < n && ids[i as int] == id && forall|j: int|
            i < j < n ==> #[trigger] ids[j] != id,
        last_index(ids, id, n) is None ==> forall|j: int| 0 <= j < n ==> #[trigger] ids[j] != id,
    decreases n,
{
    if n > 0 {
        law_the_last_index_counts(ids, id, n - 1);
    }
}

} // verus!
