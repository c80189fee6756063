//! What the searches for routes have in common.
//!
//! Distances are doubles that are not negative, by their bits: these are
//! ordered as the doubles are. What is not a number ranks behind every
//! distance.

use crate::astar::Hop;
use crate::models::RouteNode;
use crate::system;
use crate::system::SystemKey;
use crate::text;
use crate::text::{decimal_i64, parse_i64, same, to_lowercase};
use std::collections::HashSet;
use vstd::prelude::*;

verus! {

broadcast use vstd::std_specs::hash::group_hash_axioms;

/// Finds a system by its id.
pub const SQL_BY_ID: &'static str = "SELECT s.id64, s.name, i.minX, i.minY, i.minZ FROM systems s JOIN systems_index i ON s.id64 = i.id WHERE s.id64 = ? LIMIT 1";

/// Finds a system by its name.
pub const SQL_BY_NAME: &'static str = "SELECT s.id64, s.name, i.minX, i.minY, i.minZ FROM systems s JOIN systems_index i ON s.id64 = i.id WHERE s.name = ? COLLATE NOCASE LIMIT 1";

/// Finds the systems in a box.
pub const SQL_BOX: &'static str = "SELECT s.id64, s.name, i.minX, i.minY, i.minZ FROM systems_index i JOIN systems s ON i.id = s.id64 WHERE i.minX BETWEEN ? AND ? AND i.minY BETWEEN ? AND ? AND i.minZ BETWEEN ? AND ?";

/// Finds the systems with a neutron star in a box.
pub const SQL_NEUTRON_BOX: &'static str = "SELECT s.id64, s.name, i.minX, i.minY, i.minZ FROM neutron_systems ns JOIN systems_index i ON ns.systemId64 = i.id JOIN systems s ON ns.systemId64 = s.id64 WHERE i.minX BETWEEN ? AND ? AND i.minY BETWEEN ? AND ? AND i.minZ BETWEEN ? AND ?";

/// Finds the system with a neutron star in a box that lies nearest to a point.
pub const SQL_NEAREST_NEUTRON: &'static str = "SELECT s.id64, s.name, i.minX, i.minY, i.minZ FROM neutron_systems ns JOIN systems_index i ON ns.systemId64 = i.id JOIN systems s ON ns.systemId64 = s.id64 WHERE i.minX BETWEEN ? AND ? AND i.minY BETWEEN ? AND ? AND i.minZ BETWEEN ? AND ? ORDER BY (i.minX-?)*(i.minX-?) + (i.minY-?)*(i.minY-?) + (i.minZ-?)*(i.minZ-?) LIMIT 1";

/// How a system is looked up: by id where the input is a number, else by name.
pub open spec fn key_of(input: Seq<char>) -> system::KeyView {
    match text::i64_in(input) {
        Some(id) => system::KeyView::Id(id),
        None => system::KeyView::Name(input),
    }
}

/// How a system is looked up.
pub fn route_key(input: &str) -> (r: SystemKey)
    ensures
        r@ == key_of(input@),
{
    match parse_i64(input) {
        Some(id) => SystemKey::Id(id),
        None => SystemKey::Name(input.to_owned()),
    }
}

/// The text for a system that is not known.
pub open spec fn unknown(kind: Seq<char>, shown: Seq<char>) -> Seq<char> {
    kind + shown + "' not found"@
}

fn unknown_text(kind: &str, shown: &str) -> (r: String)
    ensures
        r@ == unknown(kind@, shown@),
{
    let mut r = String::new();
    r.append(kind);
    r.append(shown);
    r.append("' not found");
    assert(r@ =~= unknown(kind@, shown@));
    r
}

/// The text for a system that is not known, by the number that was read or by
/// its name.
pub open spec fn unknown_system(input: Seq<char>) -> Seq<char> {
    match text::i64_in(input) {
        Some(id) => unknown("System ID '"@, text::signed_numeral(id as int)),
        None => unknown("System '"@, input),
    }
}

/// The text for a system that the carrier's route cannot find.
pub fn carrier_unknown(input: &str) -> (r: String)
    ensures
        r@ == unknown_system(input@),
{
    match parse_i64(input) {
        Some(id) => unknown_text("System ID '", decimal_i64(id).as_str()),
        None => unknown_text("System '", input),
    }
}

/// The text for a system that the ship's route cannot find.
pub fn ship_unknown(input: &str) -> (r: String)
    ensures
        r@ == unknown_system(input@) + " in database"@,
{
    let mut r = carrier_unknown(input);
    r.append(" in database");
    r
}

/// The text for a system that the route along neutron stars cannot find: it
/// shows the input as it was given.
pub fn neutron_unknown(input: &str) -> (r: String)
    ensures
        r@ == match text::i64_in(input@) {
            Some(id) => unknown("System ID '"@, input@),
            None => unknown("System '"@, input@),
        },
{
    match parse_i64(input) {
        Some(id) => unknown_text("System ID '", input),
        None => unknown_text("System '", input),
    }
}

/// Whether a route is refined, where `engine` is the engine in lower case:
/// unless it is the greedy one.
pub fn refines(engine: &str) -> (r: bool)
    ensures
        r == (engine@ != "greedy"@),
{
    !same(engine, "greedy")
}

/// Whether a route is refined; `default` is the engine where none is given.
pub fn uses_astar(engine: &Option<String>, default: &str) -> (r: bool)
    ensures
        r == (text::lowercase(
            match engine {
                Some(e) => e@,
                None => default@,
            },
        ) != "greedy"@),
{
    match engine {
        Some(e) => refines(to_lowercase(e.as_str()).as_str()),
        None => refines(to_lowercase(default).as_str()),
    }
}

/// The route that is answered, and whether it has fewer jumps than the greedy
/// one.
pub struct Chosen {
    pub path: Vec<i64>,
    pub optimised: bool,
}

/// A route passes `id` at its end and nowhere else.
pub open spec fn passes_at_end(p: Seq<i64>, id: i64) -> bool {
    &&& p.len() > 0
    &&& p.last() == id
    &&& forall|i: int| 0 <= i < p.len() - 1 ==> #[trigger] p[i] != id
}

/// The refined route where there is one, else the greedy one.
pub open spec fn found_or(refined: Option<Seq<i64>>, greedy: Seq<i64>) -> Seq<i64> {
    match refined {
        Some(p) => p,
        None => greedy,
    }
}

/// The route that is answered: the refined one where there is one with fewer
/// jumps, else the greedy one.
pub open spec fn chosen(refined: Option<Seq<i64>>, greedy: Seq<i64>) -> Seq<i64> {
    match refined {
        Some(p) if p.len() < greedy.len() => p,
        _ => greedy,
    }
}

/// The ids of a route, where there is one.
pub open spec fn ids_view(p: Option<Vec<i64>>) -> Option<Seq<i64>> {
    match p {
        Some(v) => Some(v@),
        None => None,
    }
}

/// Chooses the route that is answered.
pub fn choose_path(refined: Option<Vec<i64>>, greedy: Vec<i64>) -> (r: Chosen)
    ensures
        r.path@ == chosen(ids_view(refined), greedy@),
        r.optimised == (r.path.len() < greedy.len()),
        r.optimised || r.path@ == greedy@,
{
    let n: usize = greedy.len();
    let path = match refined {
        Some(p) => {
            if p.len() < n {
                p
            } else {
                greedy
            }
        },
        None => greedy,
    };
    let optimised = path.len() < n;
    Chosen { path, optimised }
}

/// Measuring twice gives the same.
pub open spec fn measures<M: Fn(RouteNode, RouteNode) -> u64>(m: M) -> bool {
    &&& forall|a: RouteNode, b: RouteNode| #[trigger] call_requires(m, (a, b))
    &&& forall|a: RouteNode, b: RouteNode, r: u64, s: u64| #[trigger]
        call_ensures(m, (a, b), r) && #[trigger] call_ensures(m, (a, b), s) ==> r == s
}

/// What is measured between `a` and `b`.
pub open spec fn dist<M: Fn(RouteNode, RouteNode) -> u64>(m: M, a: RouteNode, b: RouteNode) -> u64 {
    choose|r: u64| call_ensures(m, (a, b), r)
}

/// A system that could be the next: how far it is from here, and how far the
/// target is from it.
#[derive(Clone, Copy)]
pub struct Candidate {
    pub node: RouteNode,
    pub away: u64,
    pub left: u64,
}

/// The first `n` systems of `rows` that are not done, measured.
pub open spec fn measured<M: Fn(RouteNode, RouteNode) -> u64>(
    m: M,
    rows: Seq<RouteNode>,
    here: RouteNode,
    target: RouteNode,
    done: Set<i64>,
    n: int,
) -> Seq<Candidate>
    decreases n,
{
    if n <= 0 {
        Seq::empty()
    } else {
        let before = measured(m, rows, here, target, done, n - 1);
        let row = rows[n - 1];
        if done.contains(row.id64) {
            before
        } else {
            before.push(
                Candidate { node: row, away: dist(m, row, here), left: dist(m, row, target) },
            )
        }
    }
}

/// Measures the systems of `rows` that are not done.
pub(crate) fn measure_all<M: Fn(RouteNode, RouteNode) -> u64>(
    m: &M,
    rows: &Vec<RouteNode>,
    here: RouteNode,
    target: RouteNode,
    done: &HashSet<i64>,
) -> (r: Vec<Candidate>)
    requires
        measures(*m),
    ensures
        r@ == measured(*m, rows@, here, target, done@, rows.len() as int),
{
    let mut r: Vec<Candidate> = Vec::new();
    for i in 0..rows.len()
        invariant
            measures(*m),
            r@ == measured(*m, rows@, here, target, done@, i as int),
    {
        let row = rows[i];
        if !done.contains(&row.id64) {
            let away: u64 = m(row, here);
            let left: u64 = m(row, target);
            assert(away == dist(*m, row, here));
            assert(left == dist(*m, row, target));
            r.push(Candidate { node: row, away, left });
        }
    }
    r
}

/// Each candidate is one of the systems that are not done, measured.
pub proof fn lemma_measured<M: Fn(RouteNode, RouteNode) -> u64>(
    m: M,
    rows: Seq<RouteNode>,
    here: RouteNode,
    target: RouteNode,
    done: Set<i64>,
    n: int,
    i: int,
)
    requires
        0 <= n <= rows.len(),
        0 <= i < measured(m, rows, here, target, done, n).len(),
    ensures
        ({
            let c = measured(m, rows, here, target, done, n)[i];
            &&& rows.contains(c.node)
            &&& !done.contains(c.node.id64)
            &&& c.away == dist(m, c.node, here)
            &&& c.left == dist(m, c.node, target)
        }),
    decreases n,
{
    let before = measured(m, rows, here, target, done, n - 1);
    if n > 0 && i < before.len() {
        lemma_measured(m, rows, here, target, done, n - 1, i);
    }
}

/// A candidate is somewhere else, and in reach.
pub open spec fn in_reach(c: Candidate, reach: u64) -> bool {
    0 < c.away <= reach
}

/// The `i`-th candidate is in reach and nearer to the target than `below`;
/// none in reach is nearer, and none as near comes before it.
pub open spec fn is_pick(cs: Seq<Candidate>, reach: u64, below: u64, i: int) -> bool {
    &&& 0 <= i < cs.len()
    &&& in_reach(cs[i], reach)
    &&& cs[i].left < below
    &&& forall|j: int|
        0 <= j < cs.len() && in_reach(#[trigger] cs[j], reach) ==> cs[i].left <= cs[j].left && (j < i
            ==> cs[i].left < cs[j].left)
}

/// No candidate in reach is nearer to the target than `below`.
pub open spec fn no_pick(cs: Seq<Candidate>, reach: u64, below: u64) -> bool {
    forall|j: int|
        0 <= j < cs.len() && in_reach(#[trigger] cs[j], reach) ==> cs[j].left >= below
}

/// The candidate in reach that is nearest to the target, the first of several,
/// where it is nearer than `below`.
pub fn pick(cs: &Vec<Candidate>, reach: u64, below: u64) -> (r: Option<usize>)
    ensures
        match r {
            Some(i) => is_pick(cs@, reach, below, i as int),
            None => no_pick(cs@, reach, below),
        },
{
    let mut best: Option<usize> = None;
    let mut least: u64 = below;
    for i in 0..cs.len()
        invariant
            match best {
                Some(b) => b < i && is_pick(cs@.take(i as int), reach, below, b as int) && least
                    == cs@[b as int].left,
                None => no_pick(cs@.take(i as int), reach, below) && least == below,
            },
    {
        let c = cs[i];
        let ghost before = cs@.take(i as int);
        let ghost now = cs@.take(i + 1);
        assert(now =~= before.push(c));
        if c.away <= reach && c.away > 0 && c.left < least {
            least = c.left;
            best = Some(i);
            assert forall|j: int| 0 <= j < now.len() && in_reach(#[trigger] now[j], reach) implies c.left
                <= now[j].left && (j < i ==> c.left < now[j].left) by {
                if j < i {
                    assert(now[j] == before[j]);
                }
            }
        } else {
            assert forall|j: int| 0 <= j < i implies #[trigger] now[j] == before[j] by {}
        }
    }
    assert(cs@.take(cs.len() as int) =~= cs@);
    best
}

/// The hops to the first `n` systems of `near` that are somewhere else and in
/// reach; `away` and `left` give for each how far it is, squared, and the
/// estimate of the jumps that are left from it.
pub open spec fn hops_first(
    near: Seq<u32>,
    ids: Seq<i64>,
    reach: u64,
    away: Seq<u64>,
    left: Seq<u32>,
    n: int,
) -> Seq<Hop>
    decreases n,
{
    if n <= 0 {
        Seq::empty()
    } else {
        let before = hops_first(near, ids, reach, away, left, n - 1);
        if 0 < away[n - 1] <= reach {
            before.push(Hop { id: ids[near[n - 1] as int], h: left[n - 1] })
        } else {
            before
        }
    }
}

/// `vs` are the values of `f` at the systems of `near`.
pub open spec fn values_at<V, F: Fn(u32) -> V>(f: F, near: Seq<u32>, vs: Seq<V>) -> bool {
    &&& vs.len() == near.len()
    &&& forall|i: int|
        0 <= i < near.len() ==> call_ensures(f, (near[i],), #[trigger] vs[i])
}

/// The hops to the systems of `near` that are somewhere else and in reach.
pub fn hops_near<A: Fn(u32) -> u64, E: Fn(u32) -> u32>(
    near: &Vec<u32>,
    ids: &Vec<i64>,
    reach: u64,
    away: A,
    left: E,
) -> (r: Vec<Hop>)
    requires
        forall|i: int| 0 <= i < near.len() ==> #[trigger] near@[i] < ids.len(),
        forall|k: u32| k < ids.len() ==> #[trigger] call_requires(away, (k,)),
        forall|k: u32| k < ids.len() ==> #[trigger] call_requires(left, (k,)),
    ensures
        exists|a: Seq<u64>, l: Seq<u32>| #[trigger]
            values_at(away, near@, a) && #[trigger] values_at(left, near@, l) && r@ == hops_first(
                near@,
                ids@,
                reach,
                a,
                l,
                near.len() as int,
            ),
{
    let mut r: Vec<Hop> = Vec::new();
    let ghost mut a: Seq<u64> = Seq::empty();
    let ghost mut l: Seq<u32> = Seq::empty();
    for i in 0..near.len()
        invariant
            forall|i: int| 0 <= i < near.len() ==> #[trigger] near@[i] < ids.len(),
            forall|k: u32| k < ids.len() ==> #[trigger] call_requires(away, (k,)),
            forall|k: u32| k < ids.len() ==> #[trigger] call_requires(left, (k,)),
            values_at(away, near@.take(i as int), a),
            values_at(left, near@.take(i as int), l),
            r@ == hops_first(near@, ids@, reach, a, l, i as int),
    {
        let k: u32 = near[i];
        let d: u64 = away(k);
        let h: u32 = left(k);
        let ghost (a0, l0) = (a, l);
        proof {
            a = a.push(d);
            l = l.push(h);
            assert(near@.take(i + 1) =~= near@.take(i as int).push(k));
            assert forall|j: int| 0 <= j < i + 1 implies call_ensures(
                away,
                (near@.take(i + 1)[j],),
                #[trigger] a[j],
            ) by {
                if j < i {
                    assert(a[j] == a0[j]);
                }
            }
            assert forall|j: int| 0 <= j < i + 1 implies call_ensures(
                left,
                (near@.take(i + 1)[j],),
                #[trigger] l[j],
            ) by {
                if j < i {
                    assert(l[j] == l0[j]);
                }
            }
            lemma_hops_prefix(near@, ids@, reach, a0, l0, a, l, i as int);
        }
        if d > 0 && d <= reach {
            r.push(Hop { id: ids[k as usize], h });
        }
    }
    assert(near@.take(near.len() as int) =~= near@);
    r
}

proof fn lemma_hops_prefix(
    near: Seq<u32>,
    ids: Seq<i64>,
    reach: u64,
    a: Seq<u64>,
    l: Seq<u32>,
    b: Seq<u64>,
    m: Seq<u32>,
    n: int,
)
    requires
        n <= a.len() <= b.len(),
        n <= l.len() <= m.len(),
        forall|i: int| 0 <= i < n ==> a[i] == #[trigger] b[i],
        forall|i: int| 0 <= i < n ==> l[i] == #[trigger] m[i],
    ensures
        hops_first(near, ids, reach, a, l, n) == hops_first(near, ids, reach, b, m, n),
    decreases n,
{
    if n > 0 {
        lemma_hops_prefix(near, ids, reach, a, l, b, m, n - 1);
        assert(a[n - 1] == b[n - 1]);
        assert(l[n - 1] == m[n - 1]);
    }
}

/// The route that is answered is one of those that were found, and none of them
/// has fewer jumps; between equals it is the greedy one.
pub proof fn law_the_shorter_is_chosen(refined: Seq<i64>, greedy: Seq<i64>)
    ensures
        chosen(Some(refined), greedy) == refined || chosen(Some(refined), greedy) == greedy,
        chosen(Some(refined), greedy).len() <= refined.len(),
        chosen(Some(refined), greedy).len() <= greedy.len(),
        refined.len() == greedy.len() ==> chosen(Some(refined), greedy) == greedy,
        chosen(None, greedy) == greedy,
{
}

/// Each system that is not done is measured.
pub proof fn lemma_all_measured<M: Fn(RouteNode, RouteNode) -> u64>(
    m: M,
    rows: Seq<RouteNode>,
    here: RouteNode,
    target: RouteNode,
    done: Set<i64>,
    n: int,
    k: int,
) -> (i: int)
    requires
        0 <= k < n <= rows.len(),
        !done.contains(rows[k].id64),
    ensures
        0 <= i < measured(m, rows, here, target, done, n).len(),
        measured(m, rows, here, target, done, n)[i] == (Candidate {
            node: rows[k],
            away: dist(m, rows[k], here),
            left: dist(m, rows[k], target),
        }),
    decreases n,
{
    let before = measured(m, rows, here, target, done, n - 1);
    if k == n - 1 {
        before.len() as int
    } else {
        lemma_all_measured(m, rows, here, target, done, n - 1, k)
    }
}

/// The system that is picked is in reach and not done, and no other that is has
/// less left to the target; where none is picked, none has less left than what
/// was to be undercut.
pub proof fn law_the_nearest_in_reach_is_picked<M: Fn(RouteNode, RouteNode) -> u64>(
    m: M,
    rows: Seq<RouteNode>,
    here: RouteNode,
    target: RouteNode,
    done: Set<i64>,
    reach: u64,
    below: u64,
    i: int,
    k: int,
)
    requires
        0 <= k < rows.len(),
        !done.contains(rows[k].id64),
        0 < dist(m, rows[k], here) <= reach,
    ensures
        is_pick(measured(m, rows, here, target, done, rows.len() as int), reach, below, i) ==> {
            let n = measured(m, rows, here, target, done, rows.len() as int)[i].node;
            &&& rows.contains(n) && !done.contains(n.id64)
            &&& 0 < dist(m, n, here) <= reach
            &&& dist(m, n, target) < below
            &&& dist(m, n, target) <= dist(m, rows[k], target)
        },
        no_pick(measured(m, rows, here, target, done, rows.len() as int), reach, below)
            ==> below <= dist(m, rows[k], target),
{
    let cs = measured(m, rows, here, target, done, rows.len() as int);
    let j = lemma_all_measured(m, rows, here, target, done, rows.len() as int, k);
    assert(in_reach(cs[j], reach));
    if is_pick(cs, reach, below, i) {
        lemma_measured(m, rows, here, target, done, rows.len() as int, i);
    }
}

} // verus!
