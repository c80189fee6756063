//! The route of a ship, jump by jump.

use crate::astar;
use crate::astar::{reversed, SideView};
use crate::heap;
use crate::heap::{Entry, OpenSet};
use crate::json;
use crate::json::{count, point_json, string, Json, JsonView, Num, Object};
use crate::models::{RouteNode, RouteQuery};
use crate::route;
use crate::system::{api_error, ApiError};
use crate::text;
use crate::text::{contains, decimal_i64};
use crate::trail;
use crate::trail::trail;
use std::collections::HashMap;
use vstd::multiset::Multiset;
use vstd::prelude::*;

verus! {

broadcast use vstd::std_specs::hash::group_hash_axioms;

/// Finds the systems in a box round a system.
pub const SQL_NEIGHBOURS: &'static str = "
            SELECT id, minX, minY, minZ
            FROM systems_index
            WHERE minX >= ? AND maxX <= ?
              AND minY >= ? AND maxY <= ?
              AND minZ >= ? AND maxZ <= ?
        ";

/// Finds the name and the place of a system.
pub const SQL_STOP: &'static str = "SELECT s.name, i.minX, i.minY, i.minZ FROM systems s JOIN systems_index i ON s.id64=i.id WHERE s.id64=?";

/// How far a ship jumps, 14.99 light years, by the bits of the double.
pub const SHIP_JUMP: u64 = 0x402d_fae1_47ae_147b;

/// How many systems a search takes up before it gives up.
pub const SHIP_TURNS: u32 = 2000000;

/// A system that was seen from another: how far away it is, and the rank that
/// it would have on the route.
#[derive(Clone, Copy)]
pub struct Step {
    pub node: RouteNode,
    pub away: u64,
    pub rank: u64,
}

/// The state of the search, as mathematics: the jumps made to each system that
/// was found, the system that each was found from, and the entries that wait.
#[verifier::ext_equal]
pub struct ShipView {
    pub g: Map<i64, u32>,
    pub from: Map<i64, i64>,
    pub open: Multiset<Entry<RouteNode>>,
}

/// The jumps made to `id`, or the largest number where it was not found.
pub open spec fn label(s: ShipView, id: i64) -> u32 {
    if s.g.contains_key(id) {
        s.g[id]
    } else {
        u32::MAX
    }
}

/// The entry for a step.
pub open spec fn entry(step: Step, g: u32) -> Entry<RouteNode> {
    Entry { f: step.rank, g: (g + 1) as u32, id: step.node }
}

/// The state after a step from `cur`, `g` jumps away: nothing changes unless
/// the system is in reach and the jump is an improvement.
pub open spec fn stepped(s: ShipView, cur: i64, g: u32, step: Step) -> ShipView {
    if step.away <= SHIP_JUMP && g + 1 < label(s, step.node.id64) {
        ShipView {
            g: s.g.insert(step.node.id64, (g + 1) as u32),
            from: s.from.insert(step.node.id64, cur),
            open: s.open.insert(entry(step, g)),
        }
    } else {
        s
    }
}

/// The state after the first `n` steps from `cur`.
pub open spec fn stepped_all(s: ShipView, cur: i64, g: u32, steps: Seq<Step>, n: int) -> ShipView
    decreases n,
{
    if n <= 0 {
        s
    } else {
        stepped(stepped_all(s, cur, g, steps, n - 1), cur, g, steps[n - 1])
    }
}

/// The state without the entry `top`.
pub open spec fn without(s: ShipView, top: Entry<RouteNode>) -> ShipView {
    ShipView { open: s.open.remove(top), ..s }
}

/// `top` was overtaken by a route with fewer jumps to its system.
pub open spec fn overtaken(s: ShipView, top: Entry<RouteNode>) -> bool {
    top.g > label(s, top.id.id64)
}

/// The state `t` follows on `s` when `top` is taken.
pub open spec fn took<L: Fn(RouteNode, u32) -> Result<Vec<Step>, String>>(
    look: L,
    s: ShipView,
    top: Entry<RouteNode>,
    t: ShipView,
) -> bool {
    if overtaken(s, top) {
        t == without(s, top)
    } else {
        exists|v: Vec<Step>| #[trigger]
            call_ensures(look, (top.id, top.g), Ok::<Vec<Step>, String>(v)) && t == stepped_all(
                without(s, top),
                top.id.id64,
                top.g,
                v@,
                v.len() as int,
            )
    }
}

/// One turn of the search: an entry that none ranks before is taken, which is
/// not yet the destination.
pub open spec fn turn<L: Fn(RouteNode, u32) -> Result<Vec<Step>, String>>(
    look: L,
    dst: i64,
    s: ShipView,
    t: ShipView,
) -> bool {
    exists|top: Entry<RouteNode>| #[trigger]
        heap::is_least(s.open, top) && top.id.id64 != dst && took(look, s, top, t)
}

/// The state in which the search starts.
pub open spec fn start(src: RouteNode, rank: u64) -> ShipView {
    ShipView {
        g: Map::empty().insert(src.id64, 0),
        from: Map::empty(),
        open: Multiset::empty().insert(Entry { f: rank, g: 0, id: src }),
    }
}

/// `run` holds the states of the search, turn by turn.
pub open spec fn is_run<L: Fn(RouteNode, u32) -> Result<Vec<Step>, String>>(
    look: L,
    dst: i64,
    first: ShipView,
    run: Seq<ShipView>,
) -> bool {
    &&& 0 < run.len() <= SHIP_TURNS
    &&& run[0] == first
    &&& forall|i: int|
        0 <= i < run.len() - 1 ==> turn(look, dst, #[trigger] run[i], run[i + 1])
}

/// How the search ends.
pub enum ShipOutcome {
    /// A route was found.
    Found(Vec<i64>),
    /// The time ran out, or too many systems were taken up.
    OverBudget,
    /// No route leads to the destination.
    NoRoute,
    /// The systems round a system could not be read.
    Failed(String),
}

/// The answer that the search owes after `run`: a route as soon as the
/// destination is next; nothing where nothing waits; and in between the end
/// of the budget or a failure to look around.
pub open spec fn is_answer<
    L: Fn(RouteNode, u32) -> Result<Vec<Step>, String>,
    T: Fn() -> bool,
>(look: L, late: T, src: i64, dst: i64, run: Seq<ShipView>, r: ShipOutcome) -> bool {
    let s = run.last();
    match r {
        ShipOutcome::Found(p) => {
            &&& exists|top: Entry<RouteNode>| #[trigger]
                heap::is_least(s.open, top) && top.id.id64 == dst
            &&& trail::is_trail(s.from, dst, src, p@.reverse())
        },
        ShipOutcome::OverBudget => {
            &&& exists|top: Entry<RouteNode>| #[trigger]
                heap::is_least(s.open, top) && top.id.id64 != dst
            &&& run.len() == SHIP_TURNS || call_ensures(late, (), true)
        },
        ShipOutcome::NoRoute => s.open.len() == 0,
        ShipOutcome::Failed(m) => exists|top: Entry<RouteNode>| #[trigger]
            heap::is_least(s.open, top) && top.id.id64 != dst && !overtaken(s, top) && call_ensures(
                look,
                (top.id, top.g),
                Err::<Vec<Step>, String>(m),
            ),
    }
}

/// `steps` show the system `b` in reach.
pub open spec fn shows(steps: Seq<Step>, b: i64) -> bool {
    exists|k: int|
        0 <= k < steps.len() && (#[trigger] steps[k]).node.id64 == b && steps[k].away <= SHIP_JUMP
}

/// Looking around `a` can show `b` in reach.
pub open spec fn offers<L: Fn(RouteNode, u32) -> Result<Vec<Step>, String>>(
    look: L,
    a: i64,
    b: i64,
) -> bool {
    exists|n: RouteNode, g: u32, v: Vec<Step>| #[trigger]
        call_ensures(look, (n, g), Ok::<Vec<Step>, String>(v)) && n.id64 == a && shows(v@, b)
}

/// `w` goes from `src` to `dst` by jumps that are offered.
pub open spec fn is_walk<L: Fn(RouteNode, u32) -> Result<Vec<Step>, String>>(
    look: L,
    src: i64,
    dst: i64,
    w: Seq<i64>,
) -> bool {
    &&& w.len() > 0
    &&& w[0] == src
    &&& w.last() == dst
    &&& forall|i: int| 0 <= i < w.len() - 1 ==> offers(look, #[trigger] w[i], w[i + 1])
}

/// Looking around one system always shows the same systems in reach.
pub open spec fn is_settled_sky<L: Fn(RouteNode, u32) -> Result<Vec<Step>, String>>(
    look: L,
) -> bool {
    forall|m: RouteNode, n: RouteNode, g: u32, h: u32, v: Vec<Step>, w: Vec<Step>, b: i64|
        #![trigger call_ensures(look, (m, g), Ok::<Vec<Step>, String>(v)), call_ensures(look, (n, h), Ok::<Vec<Step>, String>(w)), shows(v@, b)]
        m.id64 == n.id64 && call_ensures(look, (m, g), Ok::<Vec<Step>, String>(v)) && call_ensures(
            look,
            (n, h),
            Ok::<Vec<Step>, String>(w),
        ) && shows(v@, b) ==> shows(w@, b)
}

/// The ranks are those of `rank`, which at the destination grows with the
/// jumps and elsewhere never exceeds the rank of the destination after the
/// jumps that are left.
pub open spec fn is_guide<L: Fn(RouteNode, u32) -> Result<Vec<Step>, String>>(
    look: L,
    src: i64,
    src_rank: u64,
    dst: i64,
    rank: spec_fn(i64, int) -> int,
) -> bool {
    &&& rank(src, 0) == src_rank
    &&& forall|n: RouteNode, g: u32, v: Vec<Step>, k: int|
        #![trigger call_ensures(look, (n, g), Ok::<Vec<Step>, String>(v)), v@[k]]
        call_ensures(look, (n, g), Ok::<Vec<Step>, String>(v)) && 0 <= k < v.len() ==> v@[k].rank
            == rank(v@[k].node.id64, g + 1)
    &&& forall|g: int, h: int|
        #![trigger rank(dst, g), rank(dst, h)]
        0 <= g < h ==> rank(dst, g) < rank(dst, h)
    &&& forall|a: i64, w: Seq<i64>, g: int|
        #![trigger is_walk(look, a, dst, w), rank(a, g)]
        is_walk(look, a, dst, w) && g >= 0 ==> rank(a, g) <= rank(dst, g + w.len() - 1)
}

/// The search is guided by ranks that never overestimate.
pub open spec fn is_guided<L: Fn(RouteNode, u32) -> Result<Vec<Step>, String>>(
    look: L,
    src: i64,
    src_rank: u64,
    dst: i64,
) -> bool {
    exists|rank: spec_fn(i64, int) -> int| is_guide(look, src, src_rank, dst, rank)
}

/// Every system that was found was found by a jump from one with fewer jumps,
/// or is the source; and every entry that waits is for a system that was
/// found, with as many jumps or more.
spec fn sound<L: Fn(RouteNode, u32) -> Result<Vec<Step>, String>>(
    look: L,
    src: i64,
    s: ShipView,
) -> bool {
    &&& s.g.contains_key(src) && s.g[src] == 0
    &&& !s.from.contains_key(src)
    &&& forall|n: i64| #[trigger] s.g.contains_key(n) ==> n == src || s.from.contains_key(n)
    &&& forall|n: i64| #[trigger]
        s.from.contains_key(n) ==> s.g.contains_key(n) && s.g.contains_key(s.from[n])
            && s.g[s.from[n]] < s.g[n] && offers(look, s.from[n], n)
    &&& forall|e: Entry<RouteNode>| #[trigger]
        s.open.contains(e) ==> s.g.contains_key(e.id.id64) && s.g[e.id.id64] <= e.g
}

/// An entry for `n` waits that has as many jumps as the label says.
spec fn waits(s: ShipView, n: i64) -> bool {
    exists|e: Entry<RouteNode>| #[trigger]
        s.open.contains(e) && e.id.id64 == n && e.g == s.g[n]
}

/// Every system that `n` offers was found, one jump behind `n` or earlier.
spec fn done<L: Fn(RouteNode, u32) -> Result<Vec<Step>, String>>(
    look: L,
    s: ShipView,
    n: i64,
) -> bool {
    forall|b: i64| #[trigger]
        offers(look, n, b) ==> s.g.contains_key(b) && s.g[b] <= s.g[n] + 1
}

/// Every system that was found waits, or is done.
spec fn swept<L: Fn(RouteNode, u32) -> Result<Vec<Step>, String>>(look: L, s: ShipView) -> bool {
    forall|n: i64| #[trigger] s.g.contains_key(n) ==> waits(s, n) || done(look, s, n)
}

/// The entries that wait have the ranks of `rank`.
spec fn ranked(rank: spec_fn(i64, int) -> int, s: ShipView) -> bool {
    forall|e: Entry<RouteNode>| #[trigger]
        s.open.contains(e) ==> e.f == rank(e.id.id64, e.g as int)
}

/// No entry that waits has more than `most` jumps.
spec fn within(s: ShipView, most: int) -> bool {
    forall|e: Entry<RouteNode>| #[trigger] s.open.contains(e) ==> e.g <= most
}

/// What the first `n` steps from `top` do.
proof fn lemma_stepped_all<L: Fn(RouteNode, u32) -> Result<Vec<Step>, String>>(
    look: L,
    src: i64,
    s: ShipView,
    top: Entry<RouteNode>,
    v: Vec<Step>,
    n: int,
    most: int,
)
    requires
        sound(look, src, s),
        s.g.contains_key(top.id.id64),
        s.g[top.id.id64] == top.g,
        top.g < most < u32::MAX,
        within(s, most),
        call_ensures(look, (top.id, top.g), Ok::<Vec<Step>, String>(v)),
        0 <= n <= v.len(),
    ensures
        ({
            let t = stepped_all(s, top.id.id64, top.g, v@, n);
            &&& sound(look, src, t)
            &&& t.g.contains_key(top.id.id64) && t.g[top.id.id64] == top.g
            &&& within(t, most)
            &&& forall|m: i64| #[trigger]
                s.g.contains_key(m) ==> t.g.contains_key(m) && t.g[m] <= s.g[m] && (t.g[m]
                    == s.g[m] || waits(t, m))
            &&& forall|m: i64| #[trigger] t.g.contains_key(m) ==> s.g.contains_key(m) || waits(t, m)
            &&& forall|e: Entry<RouteNode>| #[trigger] s.open.contains(e) ==> t.open.contains(e)
            &&& forall|k: int|
                0 <= k < n && (#[trigger] v@[k]).away <= SHIP_JUMP ==> t.g.contains_key(
                    v@[k].node.id64,
                ) && t.g[v@[k].node.id64] <= top.g + 1
            &&& forall|e: Entry<RouteNode>| #[trigger]
                t.open.contains(e) ==> s.open.contains(e) || exists|k: int|
                    0 <= k < n && e == entry(#[trigger] v@[k], top.g)
        }),
    decreases n,
{
    if n > 0 {
        lemma_stepped_all(look, src, s, top, v, n - 1, most);
        let cur = top.id.id64;
        let p = stepped_all(s, cur, top.g, v@, n - 1);
        let t = stepped_all(s, cur, top.g, v@, n);
        let step = v@[n - 1];
        let b = step.node.id64;
        if step.away <= SHIP_JUMP && top.g + 1 < label(p, b) {
            assert(shows(v@, b));
            assert(offers(look, cur, b));
            let new = entry(step, top.g);
            assert forall|e: Entry<RouteNode>| #[trigger] t.open.contains(e) <==> e == new
                || p.open.contains(e) by {
                astar::lemma_insert_contains(p.open, new, e);
            }
            assert(t.open.contains(new));
            assert(waits(t, b));
            assert forall|m: i64| m != b && #[trigger] waits(p, m) implies waits(t, m) by {
                let e = choose|e: Entry<RouteNode>| #[trigger]
                    p.open.contains(e) && e.id.id64 == m && e.g == p.g[m];
                assert(t.open.contains(e));
            }
            assert forall|m: i64| #[trigger] s.g.contains_key(m) implies t.g.contains_key(m)
                && t.g[m] <= s.g[m] && (t.g[m] == s.g[m] || waits(t, m)) by {
                assert(p.g.contains_key(m));
                if m != b && t.g[m] != s.g[m] {
                    assert(waits(p, m));
                }
            }
            assert forall|m: i64| #[trigger] t.g.contains_key(m) implies s.g.contains_key(m)
                || waits(t, m) by {
                if m != b {
                    assert(p.g.contains_key(m));
                }
            }
            assert forall|e: Entry<RouteNode>| #[trigger] t.open.contains(e) implies s.open.contains(
                e,
            ) || exists|k: int| 0 <= k < n && e == entry(#[trigger] v@[k], top.g) by {
                if e == new {
                    assert(e == entry(v@[n - 1], top.g));
                } else {
                    assert(p.open.contains(e));
                }
            }
        }
    }
}

/// One turn keeps what holds of the state.
proof fn lemma_turn<L: Fn(RouteNode, u32) -> Result<Vec<Step>, String>>(
    look: L,
    src: i64,
    s: ShipView,
    top: Entry<RouteNode>,
    t: ShipView,
    most: int,
)
    requires
        sound(look, src, s),
        within(s, most),
        0 <= most < u32::MAX - 1,
        s.open.contains(top),
        took(look, s, top, t),
    ensures
        sound(look, src, t),
        within(t, most + 1),
        forall|n: i64|
            n != top.id.id64 && #[trigger] t.g.contains_key(n) && (s.g.contains_key(n) ==> waits(
                s,
                n,
            )) ==> waits(t, n),
        is_settled_sky(look) && swept(look, s) ==> swept(look, t),
        forall|src_rank: u64, dst: i64, rank: spec_fn(i64, int) -> int| #[trigger]
            is_guide(look, src, src_rank, dst, rank) && ranked(rank, s) ==> ranked(rank, t),
{
    let r = without(s, top);
    let cur = top.id.id64;
    assert forall|e: Entry<RouteNode>| #[trigger] r.open.contains(e) implies s.open.contains(e) by {
        astar::lemma_remove_contains(s.open, top, e);
    }
    assert(sound(look, src, r));
    assert forall|n: i64| n != cur && #[trigger] waits(s, n) implies waits(r, n) by {
        let e = choose|e: Entry<RouteNode>| #[trigger]
            s.open.contains(e) && e.id.id64 == n && e.g == s.g[n];
        astar::lemma_remove_contains(s.open, top, e);
        assert(r.open.contains(e));
    }
    if overtaken(s, top) {
        if waits(s, cur) {
            let e = choose|e: Entry<RouteNode>| #[trigger]
                s.open.contains(e) && e.id.id64 == cur && e.g == s.g[cur];
            astar::lemma_remove_contains(s.open, top, e);
            assert(r.open.contains(e));
            assert(waits(r, cur));
        }
        assert forall|n: i64| #[trigger]
            r.g.contains_key(n) && swept(look, s) implies waits(r, n) || done(look, r, n) by {
            assert(s.g.contains_key(n));
            if done(look, s, n) {
                assert(done(look, r, n));
            }
        }
    } else {
        let v = choose|v: Vec<Step>| #[trigger]
            call_ensures(look, (top.id, top.g), Ok::<Vec<Step>, String>(v)) && t == stepped_all(
                r,
                cur,
                top.g,
                v@,
                v.len() as int,
            );
        lemma_stepped_all(look, src, r, top, v, v.len() as int, most + 1);
        assert forall|n: i64| n != cur && #[trigger] t.g.contains_key(n) && (s.g.contains_key(n)
            ==> waits(s, n)) implies waits(t, n) by {
            if s.g.contains_key(n) && t.g[n] == s.g[n] {
                assert(waits(r, n));
                let e = choose|e: Entry<RouteNode>| #[trigger]
                    r.open.contains(e) && e.id.id64 == n && e.g == r.g[n];
                assert(t.open.contains(e));
            } else if s.g.contains_key(n) {
                assert(r.g.contains_key(n));
            }
        }
        if is_settled_sky(look) && swept(look, s) {
            assert(done(look, t, cur)) by {
                assert forall|b: i64| #[trigger] offers(look, cur, b) implies t.g.contains_key(b)
                    && t.g[b] <= t.g[cur] + 1 by {
                    let (n, g, w) = choose|n: RouteNode, g: u32, w: Vec<Step>| #[trigger]
                        call_ensures(look, (n, g), Ok::<Vec<Step>, String>(w)) && n.id64 == cur
                            && shows(w@, b);
                    assert(shows(v@, b));
                    let k = choose|k: int|
                        0 <= k < v@.len() && (#[trigger] v@[k]).node.id64 == b && v@[k].away
                            <= SHIP_JUMP;
                    assert(t.g.contains_key(v@[k].node.id64));
                }
            }
            assert forall|n: i64| #[trigger] t.g.contains_key(n) implies waits(t, n) || done(
                look,
                t,
                n,
            ) by {
                if n != cur && !waits(t, n) {
                    assert(r.g.contains_key(n));
                    assert(s.g.contains_key(n));
                    if waits(s, n) {
                        assert(waits(r, n));
                        let e = choose|e: Entry<RouteNode>| #[trigger]
                            r.open.contains(e) && e.id.id64 == n && e.g == r.g[n];
                        assert(t.open.contains(e));
                        assert(t.g[n] == r.g[n]);
                    } else {
                        assert(done(look, s, n));
                        assert forall|b: i64| #[trigger] offers(look, n, b) implies t.g.contains_key(
                            b,
                        ) && t.g[b] <= t.g[n] + 1 by {
                            assert(r.g.contains_key(b));
                        }
                    }
                }
            }
        }
        assert forall|src_rank: u64, dst: i64, rank: spec_fn(i64, int) -> int| #[trigger]
            is_guide(look, src, src_rank, dst, rank) && ranked(rank, s) implies ranked(rank, t) by {
            assert forall|e: Entry<RouteNode>| #[trigger] t.open.contains(e) implies e.f == rank(
                e.id.id64,
                e.g as int,
            ) by {
                if !r.open.contains(e) {
                    let k = choose|k: int|
                        0 <= k < v@.len() && e == entry(#[trigger] v@[k], top.g);
                    assert(v@[k].rank == rank(v@[k].node.id64, top.g + 1));
                }
            }
        }
    }
}

/// Along a walk, a system waits that has no more jumps than the walk to it,
/// or the first `j` systems behind the start have all been found so.
proof fn lemma_front<L: Fn(RouteNode, u32) -> Result<Vec<Step>, String>>(
    look: L,
    src: i64,
    dst: i64,
    s: ShipView,
    w: Seq<i64>,
    j: int,
)
    requires
        sound(look, src, s),
        swept(look, s),
        is_walk(look, src, dst, w),
        0 <= j < w.len(),
    ensures
        (exists|i: int|
            0 <= i <= j && s.g.contains_key(#[trigger] w[i]) && s.g[w[i]] <= i && waits(s, w[i]))
            || (s.g.contains_key(w[j]) && s.g[w[j]] <= j),
    decreases j,
{
    if j > 0 {
        lemma_front(look, src, dst, s, w, j - 1);
        if !(exists|i: int|
            0 <= i <= j - 1 && s.g.contains_key(#[trigger] w[i]) && s.g[w[i]] <= i && waits(
                s,
                w[i],
            )) {
            let a = w[j - 1];
            assert(s.g.contains_key(a) && s.g[a] <= j - 1);
            assert(!waits(s, a));
            assert(offers(look, w[j - 1], w[j - 1 + 1]));
        } else {
            let i = choose|i: int|
                0 <= i <= j - 1 && s.g.contains_key(#[trigger] w[i]) && s.g[w[i]] <= i && waits(
                    s,
                    w[i],
                );
            assert(0 <= i <= j && s.g.contains_key(w[i]));
        }
    }
}

/// Where nothing waits, no walk leads to a system that was not found.
proof fn lemma_no_walk<L: Fn(RouteNode, u32) -> Result<Vec<Step>, String>>(
    look: L,
    src: i64,
    dst: i64,
    s: ShipView,
    w: Seq<i64>,
)
    requires
        sound(look, src, s),
        swept(look, s),
        s.open.len() == 0,
        is_walk(look, src, dst, w),
    ensures
        s.g.contains_key(dst),
{
    astar::lemma_empty_open(s.open);
    lemma_front(look, src, dst, s, w, w.len() - 1);
}

/// Where the destination is next, no walk to it has fewer jumps.
proof fn lemma_best<L: Fn(RouteNode, u32) -> Result<Vec<Step>, String>>(
    look: L,
    src: i64,
    src_rank: u64,
    dst: i64,
    rank: spec_fn(i64, int) -> int,
    s: ShipView,
    top: Entry<RouteNode>,
    w: Seq<i64>,
)
    requires
        sound(look, src, s),
        swept(look, s),
        ranked(rank, s),
        is_guide(look, src, src_rank, dst, rank),
        heap::is_least(s.open, top),
        top.id.id64 == dst,
        is_walk(look, src, dst, w),
    ensures
        s.g[dst] <= w.len() - 1,
{
    lemma_front(look, src, dst, s, w, w.len() - 1);
    if !(s.g.contains_key(dst) && s.g[dst] <= w.len() - 1) {
        let i = choose|i: int|
            0 <= i <= w.len() - 1 && s.g.contains_key(#[trigger] w[i]) && s.g[w[i]] <= i && waits(
                s,
                w[i],
            );
        let e = choose|e: Entry<RouteNode>| #[trigger]
            s.open.contains(e) && e.id.id64 == w[i] && e.g == s.g[w[i]];
        assert(top.f <= e.f);
        let rest = w.skip(i);
        assert(is_walk(look, w[i], dst, rest)) by {
            assert forall|k: int| 0 <= k < rest.len() - 1 implies offers(
                look,
                #[trigger] rest[k],
                rest[k + 1],
            ) by {
                assert(offers(look, w[i + k], w[i + k + 1]));
            }
        }
        let l = e.g + rest.len() - 1;
        assert(rank(w[i], e.g as int) <= rank(dst, l));
        assert(top.f == rank(dst, top.g as int));
        assert(s.g[dst] <= top.g);
        if l < top.g {
            assert(rank(dst, l) < rank(dst, top.g as int));
        }
    }
}

/// The links lead from every system that was found back to the source.
proof fn lemma_leads<L: Fn(RouteNode, u32) -> Result<Vec<Step>, String>>(
    look: L,
    src: i64,
    s: ShipView,
    x: i64,
)
    requires
        sound(look, src, s),
        s.g.contains_key(x),
    ensures
        trail::leads(s.from, x, src),
    decreases s.g[x],
{
    if x == src {
        assert(trail::back(s.from, x, 0) == Some(src));
    } else {
        let y = s.from[x];
        assert(s.from.contains_key(x));
        lemma_leads(look, src, s, y);
        let k = choose|k: nat| trail::back(s.from, y, k) == Some(src);
        astar::lemma_back_step(s.from, x, k);
        assert(trail::back(s.from, x, (k + 1) as nat) == Some(src));
    }
}

/// A trail from the destination to the source, turned round, is a walk, with
/// no more jumps than the label of the destination says.
proof fn lemma_trail_is_walk<L: Fn(RouteNode, u32) -> Result<Vec<Step>, String>>(
    look: L,
    src: i64,
    dst: i64,
    s: ShipView,
    p: Seq<i64>,
)
    requires
        sound(look, src, s),
        s.g.contains_key(dst),
        trail::is_trail(s.from, dst, src, p),
    ensures
        is_walk(look, src, dst, p.reverse()),
        p.len() - 1 <= s.g[dst],
{
    let r = p.reverse();
    assert(trail::back(s.from, dst, 0) == Some(p[0]));
    assert forall|i: int| 0 <= i < r.len() - 1 implies offers(look, #[trigger] r[i], r[i + 1]) by {
        let k = p.len() - 2 - i;
        trail::lemma_trail_links(s.from, dst, src, p, k);
        assert(s.from.contains_key(p[k]));
        assert(r[i] == p[k + 1] && r[i + 1] == p[k]);
    }
    let side = SideView { g: s.g, from: s.from, closed: Set::empty(), open: Multiset::empty() };
    assert(trail::back(s.from, dst, (p.len() - 1) as nat) == Some(p[p.len() - 1]));
    astar::lemma_descent(side, src, dst, (p.len() - 1) as nat);
}

/// Searches for a route from `src` to the system `dst`. `look` shows the
/// systems round a system, each with the rank that it would have one jump
/// later.
///
/// A route that is found is a walk by jumps that were offered. Where looking
/// twice shows the same, no route is missed; and where the ranks never
/// overestimate, none with fewer jumps.
pub fn search_ship<
    L: Fn(RouteNode, u32) -> Result<Vec<Step>, String>,
    T: Fn() -> bool,
>(src: RouteNode, src_rank: u64, dst: i64, look: L, late: T) -> (r: ShipOutcome)
    requires
        forall|n: RouteNode, g: u32| #[trigger] call_requires(look, (n, g)),
        call_requires(late, ()),
    ensures
        exists|run: Seq<ShipView>| #[trigger]
            is_run(look, dst, start(src, src_rank), run) && is_answer(
                look,
                late,
                src.id64,
                dst,
                run,
                r,
            ),
        r matches ShipOutcome::Found(p) ==> is_walk(look, src.id64, dst, p@),
        r is NoRoute && is_settled_sky(look) ==> forall|w: Seq<i64>|
            !(#[trigger] is_walk(look, src.id64, dst, w)),
        r matches ShipOutcome::Found(p) ==> is_settled_sky(look) && is_guided(
            look,
            src.id64,
            src_rank,
            dst,
        ) ==> forall|w: Seq<i64>| #[trigger] is_walk(look, src.id64, dst, w) ==> p.len() <= w.len(),
{
    let mut g: HashMap<i64, u32> = HashMap::new();
    let mut from: HashMap<i64, i64> = HashMap::new();
    let mut open: OpenSet<RouteNode> = OpenSet::new();
    g.insert(src.id64, 0);
    open.push(Entry { f: src_rank, g: 0, id: src });
    let ghost first = start(src, src_rank);
    let ghost mut s = first;
    let ghost mut run: Seq<ShipView> = seq![first];
    let ghost sky = is_settled_sky(look);
    let ghost guided = is_guided(look, src.id64, src_rank, dst);
    let ghost rank = choose|rank: spec_fn(i64, int) -> int|
        is_guide(look, src.id64, src_rank, dst, rank);
    let mut turns: u32 = 0;
    proof {
        let only = Entry { f: src_rank, g: 0u32, id: src };
        assert forall|e: Entry<RouteNode>| #[trigger] first.open.contains(e) <==> e == only by {
            broadcast use vstd::multiset::group_multiset_axioms;

            astar::lemma_insert_contains(Multiset::empty(), only, e);
        }
        assert(first.open.contains(only));
        assert(waits(first, src.id64));
        assert(first.g =~= g@);
    }
    loop
        invariant
            forall|n: RouteNode, g: u32| #[trigger] call_requires(look, (n, g)),
            call_requires(late, ()),
            open.wf(),
            s == (ShipView { g: g@, from: from@, open: open@ }),
            first == start(src, src_rank),
            is_run(look, dst, first, run),
            run.last() == s,
            run.len() == turns + 1,
            turns < SHIP_TURNS,
            sound(look, src.id64, s),
            within(s, turns as int),
            sky == is_settled_sky(look),
            sky ==> swept(look, s),
            guided == is_guided(look, src.id64, src_rank, dst),
            guided ==> is_guide(look, src.id64, src_rank, dst, rank),
            guided ==> ranked(rank, s),
            s.g.contains_key(dst) ==> waits(s, dst),
        decreases SHIP_TURNS - turns,
    {
        let top = match open.pop() {
            Some(e) => e,
            None => {
                proof {
                    assert(s.open.len() == 0);
                    if s.g.contains_key(dst) {
                        assert(waits(s, dst));
                        astar::lemma_empty_open(s.open);
                    }
                    if sky {
                        assert forall|w: Seq<i64>| !(#[trigger] is_walk(look, src.id64, dst, w)) by {
                            if is_walk(look, src.id64, dst, w) {
                                lemma_no_walk(look, src.id64, dst, s, w);
                            }
                        }
                    }
                }
                return ShipOutcome::NoRoute;
            },
        };
        let ghost rest = ShipView { g: g@, from: from@, open: open@ };
        assert(rest == without(s, top));
        assert(heap::is_least(s.open, top));
        assert(s.open.contains(top));
        if top.id.id64 == dst {
            proof {
                lemma_leads(look, src.id64, s, dst);
            }
            let p = match trail(&from, dst, src.id64) {
                Some(p) => p,
                None => {
                    return ShipOutcome::NoRoute;
                },
            };
            let r = reversed(&p);
            proof {
                assert(r@.reverse() =~= p@);
                lemma_trail_is_walk(look, src.id64, dst, s, p@);
                if sky && guided {
                    assert forall|w: Seq<i64>| #[trigger] is_walk(look, src.id64, dst, w) implies r.len()
                        <= w.len() by {
                        lemma_best(look, src.id64, src_rank, dst, rank, s, top, w);
                    }
                }
            }
            return ShipOutcome::Found(r);
        }
        if turns + 1 == SHIP_TURNS || late() {
            return ShipOutcome::OverBudget;
        }
        let known: u32 = match g.get(&top.id.id64) {
            Some(l) => *l,
            None => u32::MAX,
        };
        if top.g <= known {
            let steps = match look(top.id, top.g) {
                Ok(v) => v,
                Err(m) => {
                    return ShipOutcome::Failed(m);
                },
            };
            for i in 0..steps.len()
                invariant
                    open.wf(),
                    top.g < SHIP_TURNS,
                    (ShipView { g: g@, from: from@, open: open@ }) == stepped_all(
                        rest,
                        top.id.id64,
                        top.g,
                        steps@,
                        i as int,
                    ),
            {
                let step = steps[i];
                let next: u32 = top.g + 1;
                let best: u32 = match g.get(&step.node.id64) {
                    Some(l) => *l,
                    None => u32::MAX,
                };
                if step.away <= SHIP_JUMP && next < best {
                    from.insert(step.node.id64, top.id.id64);
                    g.insert(step.node.id64, next);
                    open.push(Entry { f: step.rank, g: next, id: step.node });
                }
            }
            assert(took(look, s, top, ShipView { g: g@, from: from@, open: open@ }));
        }
        proof {
            let t = ShipView { g: g@, from: from@, open: open@ };
            assert(took(look, s, top, t));
            lemma_turn(look, src.id64, s, top, t, turns as int);
            assert(turn(look, dst, s, t));
            run = run.push(t);
            s = t;
        }
        turns = turns + 1;
    }
}

/// A system on the way, with its name.
pub struct Stop {
    pub node: RouteNode,
    pub name: String,
}

/// A system on the way, as mathematics.
pub struct StopView {
    pub node: RouteNode,
    pub name: Seq<char>,
}

impl Stop {
    pub open spec fn view(&self) -> StopView {
        StopView { node: self.node, name: self.name@ }
    }

    /// Another copy.
    pub fn copy(&self) -> (r: Stop)
        ensures
            r@ == self@,
    {
        Stop { node: self.node, name: self.name.clone() }
    }
}

/// The stops as mathematics.
pub open spec fn stop_views(v: Seq<Stop>) -> Seq<StopView> {
    v.map_values(|s: Stop| s@)
}

/// The stop for the system `id` of a route: source and destination are known,
/// the others are looked up.
pub open spec fn is_stop<F: Fn(i64) -> Stop>(
    find: F,
    src: StopView,
    dst: StopView,
    id: i64,
    s: StopView,
) -> bool {
    if id == src.node.id64 {
        s == src
    } else if id == dst.node.id64 {
        s == dst
    } else {
        exists|t: Stop| #[trigger] call_ensures(find, (id,), t) && s == t@
    }
}

/// The stops of a route.
pub fn stops_of<F: Fn(i64) -> Stop>(path: &Vec<i64>, src: &Stop, dst: &Stop, find: F) -> (r: Vec<
    Stop,
>)
    requires
        forall|id: i64| #[trigger] call_requires(find, (id,)),
    ensures
        r.len() == path.len(),
        forall|i: int|
            0 <= i < r.len() ==> is_stop(find, src@, dst@, path@[i], (#[trigger] r@[i])@),
{
    let mut r: Vec<Stop> = Vec::new();
    for i in 0..path.len()
        invariant
            forall|id: i64| #[trigger] call_requires(find, (id,)),
            r.len() == i,
            forall|j: int|
                0 <= j < i ==> is_stop(find, src@, dst@, path@[j], (#[trigger] r@[j])@),
    {
        let id = path[i];
        if id == src.node.id64 {
            r.push(src.copy());
        } else if id == dst.node.id64 {
            r.push(dst.copy());
        } else {
            r.push(find(id));
        }
    }
    r
}

/// A stop of a ship's route as JSON.
pub open spec fn stop_answer(s: StopView, away: u64, i: int) -> JsonView {
    JsonView::Obj(
        Map::empty().insert("system"@, JsonView::Str(s.name)).insert(
            "id64"@,
            JsonView::Str(text::signed_numeral(s.node.id64 as int)),
        ).insert(
            "coords"@,
            json::point(Num::Real(s.node.x), Num::Real(s.node.y), Num::Real(s.node.z)),
        ).insert("distance_from_prev"@, JsonView::Num(Num::Hundredths(away))).insert(
            "jumps"@,
            JsonView::Num(json::count_num(i)),
        ),
    )
}

fn stop_json(s: &Stop, away: u64, i: usize) -> (r: Json)
    ensures
        r@ == stop_answer(s@, away, i as int),
{
    let mut o = Object::new();
    o.put("system", string(s.name.as_str()));
    o.put("id64", Json::Str(decimal_i64(s.node.id64)));
    o.put("coords", point_json(Num::Real(s.node.x), Num::Real(s.node.y), Num::Real(s.node.z)));
    o.put("distance_from_prev", Json::Num(Num::Hundredths(away)));
    o.put("jumps", count(i));
    o.done()
}

/// How far the `i`-th stop is from the one before it; nothing for the first.
pub open spec fn from_previous<M: Fn(RouteNode, RouteNode) -> u64>(
    m: M,
    stops: Seq<StopView>,
    i: int,
) -> u64 {
    if i == 0 {
        0
    } else {
        route::dist(m, stops[i].node, stops[i - 1].node)
    }
}

/// The answer to a question for a ship's route.
pub open spec fn route_answer<M: Fn(RouteNode, RouteNode) -> u64>(
    m: M,
    q: RouteQuery,
    stops: Seq<StopView>,
) -> JsonView {
    JsonView::Obj(
        Map::empty().insert("source"@, JsonView::Str(q.source@)).insert(
            "destination"@,
            JsonView::Str(q.destination@),
        ).insert("totalJumps"@, JsonView::Num(json::count_num(stops.len() - 1))).insert(
            "route"@,
            JsonView::Arr(
                Seq::new(
                    stops.len(),
                    |i: int| stop_answer(stops[i], from_previous(m, stops, i), i),
                ),
            ),
        ),
    )
}

/// The answer to a question for a ship's route.
pub fn ship_route_json<M: Fn(RouteNode, RouteNode) -> u64>(
    q: &RouteQuery,
    stops: &Vec<Stop>,
    m: M,
) -> (r: Json)
    requires
        stops.len() > 0,
        route::measures(m),
    ensures
        r@ == route_answer(m, *q, stop_views(stops@)),
{
    let mut v: Vec<Json> = Vec::new();
    let ghost views = stop_views(stops@);
    for i in 0..stops.len()
        invariant
            route::measures(m),
            views == stop_views(stops@),
            v.len() == i,
            forall|j: int|
                0 <= j < i ==> (#[trigger] v@[j])@ == stop_answer(
                    views[j],
                    from_previous(m, views, j),
                    j,
                ),
    {
        let away: u64 = if i == 0 {
            0
        } else {
            m(stops[i].node, stops[i - 1].node)
        };
        assert(away == from_previous(m, views, i as int));
        v.push(stop_json(&stops[i], away, i));
    }
    proof {
        json::lemma_views(v@);
        assert(json::views(v@) =~= Seq::new(
            views.len(),
            |i: int| stop_answer(views[i], from_previous(m, views, i), i),
        ));
    }
    let mut o = Object::new();
    o.put("source", string(q.source.as_str()));
    o.put("destination", string(q.destination.as_str()));
    o.put("totalJumps", count(stops.len() - 1));
    o.put("route", Json::Arr(v));
    o.done()
}

/// The text for the end of a search without a route.
pub open spec fn failure_text(r: ShipOutcome) -> Seq<char> {
    match r {
        ShipOutcome::OverBudget =>
            "Route calculation exceeded time/iteration budget. Try breaking up your journey into smaller segments."@,
        ShipOutcome::Failed(m) => m@,
        _ =>
            "No valid route found connecting these systems within the maximum jump limit of 14.99 ly."@,
    }
}

/// The text for the end of a search without a route.
pub fn ship_failure(r: &ShipOutcome) -> (t: String)
    requires
        !(r is Found),
    ensures
        t@ == failure_text(*r),
{
    match r {
        ShipOutcome::OverBudget =>
            "Route calculation exceeded time/iteration budget. Try breaking up your journey into smaller segments.".to_owned(),
        ShipOutcome::Failed(m) => m.clone(),
        _ =>
            "No valid route found connecting these systems within the maximum jump limit of 14.99 ly.".to_owned(),
    }
}

/// The error for a route that was not found: 404 where its text says that
/// something was not found, else a bad request.
pub fn ship_error(message: &str) -> (r: ApiError)
    ensures
        r.status == if text::occurs(message@, "not found"@) {
            404int
        } else {
            400
        },
        r.message@ == message@,
{
    if contains(message, "not found") {
        api_error(404, message)
    } else {
        api_error(400, message)
    }
}

/// Each member of a stop of a ship holds its own part of it.
pub proof fn law_ship_stops_tell_their_place(s: StopView, away: u64, i: int)
    ensures
        ({
            let a = stop_answer(s, away, i);
            &&& json::field(a, "system"@) == Some(JsonView::Str(s.name))
            &&& json::field(a, "id64"@)
                == Some(JsonView::Str(text::signed_numeral(s.node.id64 as int)))
            &&& json::field(a, "coords"@) == Some(json::point(Num::Real(s.node.x),
                Num::Real(s.node.y), Num::Real(s.node.z)))
            &&& json::field(a, "distance_from_prev"@) == Some(JsonView::Num(Num::Hundredths(away)))
            &&& json::field(a, "jumps"@) == Some(JsonView::Num(json::count_num(i)))
        }),
{
    broadcast use {json::lemma_found_set, json::lemma_found_none};

    reveal_strlit("system");
    reveal_strlit("id64");
    reveal_strlit("coords");
    reveal_strlit("distance_from_prev");
    reveal_strlit("jumps");
    assert(json::mark_of("system"@) == (6int, 's', 't', 'm'));
    assert(json::mark_of("id64"@) == (4int, 'i', '6', '4'));
    assert(json::mark_of("coords"@) == (6int, 'c', 'r', 's'));
    assert(json::mark_of("distance_from_prev"@) == (18int, 'd', 'f', 'v'));
    assert(json::mark_of("jumps"@) == (5int, 'j', 'm', 's'));
    json::lemma_found(stop_answer(s, away, i));
}

/// The answer for a ship names the ends as the question does, counts the jumps,
/// and lists the stops in order; each but the first is as far from the one
/// before it as their places are, and the first is no way off.
pub proof fn law_ship_answers_tell_the_way<M: Fn(RouteNode, RouteNode) -> u64>(
    m: M,
    q: RouteQuery,
    stops: Seq<StopView>,
)
    requires
        stops.len() > 0,
    ensures
        ({
            let a = route_answer(m, q, stops);
            &&& json::field(a, "source"@) == Some(JsonView::Str(q.source@))
            &&& json::field(a, "destination"@) == Some(JsonView::Str(q.destination@))
            &&& json::field(a, "totalJumps"@)
                == Some(JsonView::Num(json::count_num(stops.len() - 1)))
            &&& json::field(a, "route"@) matches Some(JsonView::Arr(v)) && v.len() == stops.len()
                && v[0] == stop_answer(stops[0], 0, 0) && forall|i: int|
                0 < i < stops.len() ==> #[trigger] v[i] == stop_answer(
                    stops[i],
                    route::dist(m, stops[i].node, stops[i - 1].node),
                    i,
                )
        }),
{
    broadcast use {json::lemma_found_set, json::lemma_found_none};

    reveal_strlit("source");
    reveal_strlit("destination");
    reveal_strlit("totalJumps");
    reveal_strlit("route");
    assert(json::mark_of("source"@) == (6int, 's', 'r', 'e'));
    assert(json::mark_of("destination"@) == (11int, 'd', 'n', 'n'));
    assert(json::mark_of("totalJumps"@) == (10int, 't', 'J', 's'));
    assert(json::mark_of("route"@) == (5int, 'r', 'u', 'e'));
    json::lemma_found(route_answer(m, q, stops));
}

} // verus!
