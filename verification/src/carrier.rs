//! The route of a fleet carrier.

use crate::astar;
use crate::astar::{search_one_way, Expansion, Outcome};
use crate::both_ways;
use crate::both_ways::search_both_ways;
use crate::json;
use crate::json::{count, string, Json, JsonView, Num, Object};
use crate::models::{CarrierRouteQuery, RouteNode};
use crate::route;
use crate::route::{choose_path, measure_all, pick, Chosen};
use crate::ship::{Stop, StopView};
use crate::text;
use crate::text::{decimal_i64, decimal_u64};
use std::collections::HashSet;
use vstd::prelude::*;

verus! {

broadcast use vstd::std_specs::hash::group_hash_axioms;

/// How far a carrier jumps, 500 light years, by the bits of the double.
pub const CARRIER_JUMP_RANGE: u64 = 0x407f_4000_0000_0000;

/// Beyond this distance, 5000 light years by the bits of the double, a route
/// is refined from both ends.
pub const CARRIER_FAR: u64 = 0x40b3_8800_0000_0000;

/// How many jumps the greedy route makes at most before the last.
pub const CARRIER_HOPS: usize = 500;

/// How many boxes are searched for the next system; each is larger than the
/// one before.
pub const CARRIER_BOXES: u32 = 5;

/// The candidates among `rows`, seen from `cur`.
pub open spec fn seen<M: Fn(RouteNode, RouteNode) -> u64>(
    m: M,
    rows: Seq<RouteNode>,
    cur: RouteNode,
    dst: RouteNode,
) -> Seq<route::Candidate> {
    route::measured(m, rows, cur, dst, Set::empty(), rows.len() as int)
}

/// The box `k` round the aim from `cur` holds no system in reach that is
/// nearer to the destination.
pub open spec fn is_barren<
    L: Fn(RouteNode, u32) -> Vec<RouteNode>,
    M: Fn(RouteNode, RouteNode) -> u64,
>(look: L, m: M, cur: RouteNode, dst: RouteNode, k: u32) -> bool {
    exists|v: Vec<RouteNode>| #[trigger]
        call_ensures(look, (cur, k), v) && route::no_pick(
            seen(m, v@, cur, dst),
            CARRIER_JUMP_RANGE,
            route::dist(m, cur, dst),
        )
}

/// `next` is the system in reach of the box `k` that is nearest to the
/// destination.
pub open spec fn is_best_of_box<
    L: Fn(RouteNode, u32) -> Vec<RouteNode>,
    M: Fn(RouteNode, RouteNode) -> u64,
>(look: L, m: M, cur: RouteNode, dst: RouteNode, k: u32, next: RouteNode) -> bool {
    exists|v: Vec<RouteNode>, i: int| #[trigger]
        call_ensures(look, (cur, k), v) && #[trigger] route::is_pick(
            seen(m, v@, cur, dst),
            CARRIER_JUMP_RANGE,
            route::dist(m, cur, dst),
            i,
        ) && seen(m, v@, cur, dst)[i].node == next
}

/// The greedy route goes from `cur` to `next`: `next` is the best of the first
/// box that is not barren.
pub open spec fn is_hop<
    L: Fn(RouteNode, u32) -> Vec<RouteNode>,
    M: Fn(RouteNode, RouteNode) -> u64,
>(look: L, m: M, cur: RouteNode, dst: RouteNode, next: RouteNode) -> bool {
    exists|k: u32|
        k < CARRIER_BOXES && #[trigger] is_best_of_box(look, m, cur, dst, k, next) && forall|j: u32|
            j < k ==> #[trigger] is_barren(look, m, cur, dst, j)
}

/// All boxes are barren: the greedy route ends at `cur`.
pub open spec fn is_stuck<
    L: Fn(RouteNode, u32) -> Vec<RouteNode>,
    M: Fn(RouteNode, RouteNode) -> u64,
>(look: L, m: M, cur: RouteNode, dst: RouteNode) -> bool {
    forall|j: u32| j < CARRIER_BOXES ==> #[trigger] is_barren(look, m, cur, dst, j)
}

/// `p` starts at `src` and goes on greedily, as long as the destination is out
/// of reach.
pub open spec fn is_greedy<
    L: Fn(RouteNode, u32) -> Vec<RouteNode>,
    M: Fn(RouteNode, RouteNode) -> u64,
>(look: L, m: M, src: RouteNode, dst: RouteNode, p: Seq<RouteNode>) -> bool {
    &&& 0 < p.len() <= CARRIER_HOPS + 1
    &&& p[0] == src
    &&& forall|i: int|
        0 <= i < p.len() - 1 ==> route::dist(m, #[trigger] p[i], dst) > CARRIER_JUMP_RANGE
            && is_hop(look, m, p[i], dst, p[i + 1])
}

/// The greedy route to `dst`, or, where it gets stuck or the destination is
/// still out of reach when all jumps are made, the systems up to there.
/// `look` gives the systems of a box that lies ahead of a system.
pub fn greedy_carrier<
    L: Fn(RouteNode, u32) -> Vec<RouteNode>,
    M: Fn(RouteNode, RouteNode) -> u64,
>(src: RouteNode, dst: RouteNode, look: L, m: M) -> (r: Result<Vec<RouteNode>, Vec<RouteNode>>)
    requires
        forall|n: RouteNode, k: u32| #[trigger] call_requires(look, (n, k)),
        route::measures(m),
    ensures
        match r {
            Ok(p) => {
                &&& p.len() > 1
                &&& p@.last() == dst
                &&& is_greedy(look, m, src, dst, p@.drop_last())
                &&& route::dist(m, p@[p.len() - 2], dst) <= CARRIER_JUMP_RANGE
            },
            Err(p) => {
                &&& is_greedy(look, m, src, dst, p@)
                &&& route::dist(m, p@.last(), dst) > CARRIER_JUMP_RANGE
                &&& p.len() == CARRIER_HOPS + 1 || is_stuck(look, m, p@.last(), dst)
            },
        },
{
    let none: HashSet<i64> = HashSet::new();
    let mut p: Vec<RouteNode> = Vec::new();
    p.push(src);
    let mut cur = src;
    let mut left: u64 = m(src, dst);
    assert(left == route::dist(m, src, dst));
    while p.len() <= CARRIER_HOPS && left > CARRIER_JUMP_RANGE
        invariant
            forall|n: RouteNode, k: u32| #[trigger] call_requires(look, (n, k)),
            route::measures(m),
            none@ == Set::<i64>::empty(),
            is_greedy(look, m, src, dst, p@),
            cur == p@.last(),
            left == route::dist(m, cur, dst),
        decreases CARRIER_HOPS + 1 - p.len(),
    {
        let mut best: Option<RouteNode> = None;
        let mut k: u32 = 0;
        while k < CARRIER_BOXES && best.is_none()
            invariant
                forall|n: RouteNode, k: u32| #[trigger] call_requires(look, (n, k)),
                route::measures(m),
                none@ == Set::<i64>::empty(),
                left == route::dist(m, cur, dst),
                k <= CARRIER_BOXES,
                best is None ==> forall|j: u32| j < k ==> #[trigger] is_barren(look, m, cur, dst, j),
                best matches Some(n) ==> is_hop(look, m, cur, dst, n),
            decreases CARRIER_BOXES - k,
        {
            let rows = look(cur, k);
            let cs = measure_all(&m, &rows, cur, dst, &none);
            assert(cs@ == seen(m, rows@, cur, dst));
            match pick(&cs, CARRIER_JUMP_RANGE, left) {
                Some(i) => {
                    best = Some(cs[i].node);
                    assert(is_best_of_box(look, m, cur, dst, k, cs@[i as int].node));
                },
                None => {
                    assert(is_barren(look, m, cur, dst, k));
                },
            }
            k = k + 1;
        }
        match best {
            Some(n) => {
                let ghost before = p@;
                p.push(n);
                left = m(n, dst);
                assert(left == route::dist(m, n, dst));
                assert forall|i: int| 0 <= i < p@.len() - 1 implies route::dist(
                    m,
                    #[trigger] p@[i],
                    dst,
                ) > CARRIER_JUMP_RANGE && is_hop(look, m, p@[i], dst, p@[i + 1]) by {
                    if i < before.len() - 1 {
                        assert(p@[i] == before[i]);
                        assert(p@[i + 1] == before[i + 1]);
                    }
                }
                cur = n;
            },
            None => {
                return Err(p);
            },
        }
    }
    if left > CARRIER_JUMP_RANGE {
        return Err(p);
    }
    let ghost before = p@;
    p.push(dst);
    assert(p@.drop_last() =~= before);
    Ok(p)
}

/// Every hop of a greedy route is in reach and brings the carrier nearer to
/// the destination.
pub proof fn law_greedy_approaches<
    L: Fn(RouteNode, u32) -> Vec<RouteNode>,
    M: Fn(RouteNode, RouteNode) -> u64,
>(look: L, m: M, src: RouteNode, dst: RouteNode, p: Seq<RouteNode>, i: int)
    requires
        is_greedy(look, m, src, dst, p),
        0 <= i < p.len() - 1,
    ensures
        0 < route::dist(m, p[i + 1], p[i]) <= CARRIER_JUMP_RANGE,
        route::dist(m, p[i + 1], dst) < route::dist(m, p[i], dst),
{
    let (cur, next) = (p[i], p[i + 1]);
    assert(is_hop(look, m, cur, dst, next));
    let k = choose|k: u32|
        k < CARRIER_BOXES && #[trigger] is_best_of_box(look, m, cur, dst, k, next) && forall|j: u32|
            j < k ==> #[trigger] is_barren(look, m, cur, dst, j);
    let (v, n) = choose|v: Vec<RouteNode>, n: int| #[trigger]
        call_ensures(look, (cur, k), v) && #[trigger] route::is_pick(
            seen(m, v@, cur, dst),
            CARRIER_JUMP_RANGE,
            route::dist(m, cur, dst),
            n,
        ) && seen(m, v@, cur, dst)[n].node == next;
    route::lemma_measured(m, v@, cur, dst, Set::empty(), v@.len() as int, n);
}

/// A greedy route passes no system twice, and its hops to the destination
/// shrink all the way.
pub proof fn law_greedy_never_returns<
    L: Fn(RouteNode, u32) -> Vec<RouteNode>,
    M: Fn(RouteNode, RouteNode) -> u64,
>(look: L, m: M, src: RouteNode, dst: RouteNode, p: Seq<RouteNode>, i: int, j: int)
    requires
        is_greedy(look, m, src, dst, p),
        0 <= i < j < p.len(),
    ensures
        route::dist(m, p[j], dst) < route::dist(m, p[i], dst),
        p[i] != p[j],
    decreases j - i,
{
    law_greedy_approaches(look, m, src, dst, p, i);
    if i + 1 < j {
        law_greedy_never_returns(look, m, src, dst, p, i + 1, j);
    }
}

/// The text for a greedy route that gets stuck: it names the system by the
/// input where that is still the first.
pub fn carrier_stuck(current_system: &str, passed: usize, name: &str) -> (r: String)
    ensures
        r@ == "Route failed: Could not find a star within range after system '"@ + (if passed <= 1 {
            current_system@
        } else {
            name@
        }) + "'."@,
{
    let shown = if passed <= 1 {
        current_system
    } else {
        name
    };
    let mut r = String::new();
    r.append("Route failed: Could not find a star within range after system '");
    r.append(shown);
    r.append("'.");
    assert(r@ =~= "Route failed: Could not find a star within range after system '"@ + shown@
        + "'."@);
    r
}

/// The text for a greedy route that makes all its jumps and does not come
/// within reach of the destination; `name` is the system that it ends at.
pub fn carrier_too_far(name: &str) -> (r: String)
    ensures
        r@ == "Route failed: The destination is out of range after "@ + text::numeral(
            CARRIER_HOPS as nat,
        ) + " jumps, at system '"@ + name@ + "'."@,
{
    let mut r = String::new();
    r.append("Route failed: The destination is out of range after ");
    r.append(decimal_u64(CARRIER_HOPS as u64).as_str());
    r.append(" jumps, at system '");
    r.append(name);
    r.append("'.");
    assert(r@ =~= "Route failed: The destination is out of range after "@ + text::numeral(
        CARRIER_HOPS as nat,
    ) + " jumps, at system '"@ + name@ + "'."@);
    r
}

/// What a search for a shorter route gives: from both ends where the way is
/// long, else from the source.
pub open spec fn is_refined<
    F: Fn(i64) -> Expansion,
    B: Fn(i64) -> Expansion,
    T: Fn() -> bool,
>(
    src: i64,
    src_h: u32,
    dst: i64,
    dst_h: u32,
    limit: u32,
    far: bool,
    look_fwd: F,
    look_bwd: B,
    late: T,
    r: Option<Vec<i64>>,
) -> bool {
    if far {
        both_ways::duo_result(
            look_fwd,
            look_bwd,
            seq![src],
            src_h,
            seq![dst],
            dst_h,
            limit,
            late,
            r,
        )
    } else {
        exists|o: Outcome| #[trigger]
            astar::one_way_result(look_fwd, seq![src], src_h, dst, limit, o) && (o is OutOfTime
                ==> call_ensures(late, (), true)) && r == found_in(o)
    }
}

/// The route that a search in one direction found.
pub open spec fn found_in(o: Outcome) -> Option<Vec<i64>> {
    match o {
        Outcome::Found(p) => Some(p),
        _ => None,
    }
}

/// The jump from `a` to `b` was offered by one of the two directions.
pub open spec fn is_offered<F: Fn(i64) -> Expansion, B: Fn(i64) -> Expansion>(
    look_fwd: F,
    look_bwd: B,
    src: i64,
    dst: i64,
    a: i64,
    b: i64,
) -> bool {
    astar::offers(look_fwd, dst, a, b) || astar::offers(look_bwd, src, b, a)
}

/// Searches for a route with fewer than `limit` jumps. Between two systems it
/// passes none twice.
pub fn refine_carrier<
    F: Fn(i64) -> Expansion,
    B: Fn(i64) -> Expansion,
    T: Fn() -> bool,
>(
    src: i64,
    src_h: u32,
    dst: i64,
    dst_h: u32,
    limit: u32,
    distance: u64,
    look_fwd: F,
    look_bwd: B,
    late: T,
) -> (r: Option<Vec<i64>>)
    requires
        forall|id: i64| #[trigger] call_requires(look_fwd, (id,)),
        forall|id: i64| #[trigger] call_requires(look_bwd, (id,)),
        call_requires(late, ()),
    ensures
        is_refined(
            src,
            src_h,
            dst,
            dst_h,
            limit,
            distance > CARRIER_FAR,
            look_fwd,
            look_bwd,
            late,
            r,
        ),
        r matches Some(p) ==> 0 < p.len() <= limit && p@[0] == src && p@.last() == dst,
        r matches Some(p) ==> src != dst ==> p@.no_duplicates(),
        r matches Some(p) ==> forall|i: int|
            0 <= i < p.len() - 1 ==> is_offered(
                look_fwd,
                look_bwd,
                src,
                dst,
                #[trigger] p@[i],
                p@[i + 1],
            ),
        distance <= CARRIER_FAR && limit < u32::MAX && astar::consistent(look_fwd, dst, src, src_h)
            ==> match r {
            Some(p) => forall|w: Seq<i64>| #[trigger]
                astar::is_walk(look_fwd, dst, seq![src], w) ==> p.len() <= w.len(),
            None => call_ensures(late, (), true) || forall|w: Seq<i64>| #[trigger]
                astar::is_walk(look_fwd, dst, seq![src], w) ==> limit <= w.len() - 1,
        },
        distance > CARRIER_FAR && src != dst && limit < u32::MAX && astar::consistent(
            look_fwd,
            dst,
            src,
            src_h,
        ) ==> call_ensures(late, (), true) || forall|w: Seq<i64>| #[trigger]
            astar::is_walk(look_fwd, dst, seq![src], w) && w.len() - 1 <= dst_h
                ==> both_ways::answered(limit, r) <= w.len() - 1,
        distance > CARRIER_FAR && src != dst && limit < u32::MAX && astar::consistent(
            look_fwd,
            dst,
            src,
            src_h,
        ) && astar::consistent(look_bwd, src, dst, dst_h) ==> call_ensures(late, (), true)
            || forall|w: Seq<i64>, v: Seq<i64>| #[trigger]
            astar::is_walk(look_fwd, dst, seq![src], w) && #[trigger] astar::is_walk(
                look_bwd,
                src,
                seq![dst],
                v,
            ) ==> both_ways::answered(limit, r) <= w.len() - 1 + v.len() - 1,
{
    let mut lead: Vec<i64> = Vec::new();
    lead.push(src);
    let mut tail: Vec<i64> = Vec::new();
    tail.push(dst);
    assert(lead@ =~= seq![src]);
    assert(tail@ =~= seq![dst]);
    assert(lead@.no_duplicates() && tail@.no_duplicates());
    assert forall|a: i64, b: i64| !astar::on_lead(lead@, a, b) by {}
    assert forall|a: i64, b: i64| !astar::on_lead(tail@, a, b) by {}
    if distance > CARRIER_FAR {
        let r = search_both_ways(&lead, src_h, &tail, dst_h, limit, look_fwd, look_bwd, late);
        proof {
            if let Some(p) = &r {
                    assert(lead@.drop_last() + p@ =~= p@);
                    assert forall|i: int| 0 <= i < p.len() - 1 implies is_offered(
                        look_fwd,
                        look_bwd,
                        src,
                        dst,
                        #[trigger] p@[i],
                        p@[i + 1],
                    ) by {
                        assert(both_ways::joined(
                            look_fwd,
                            look_bwd,
                            lead@,
                            tail@,
                            p@[i],
                            p@[i + 1],
                        ));
                    }
            }
        }
        r
    } else {
        let o = search_one_way(&lead, src_h, dst, limit, look_fwd, late);
        proof {
            if let Outcome::Found(p) = &o {
                    assert forall|i: int| 0 <= i < p.len() - 1 implies is_offered(
                        look_fwd,
                        look_bwd,
                        src,
                        dst,
                        #[trigger] p@[i],
                        p@[i + 1],
                    ) by {
                        assert(astar::linked(look_fwd, dst, lead@, p@[i], p@[i + 1]));
                    }
            }
        }
        match o {
            Outcome::Found(p) => Some(p),
            Outcome::NoBetter => None,
            Outcome::OutOfTime => None,
        }
    }
}

/// What a search for a route with fewer jumps than the greedy one gives.
pub open spec fn is_shorter<
    F: Fn(i64) -> Expansion,
    B: Fn(i64) -> Expansion,
    T: Fn() -> bool,
>(
    greedy: Seq<i64>,
    src_h: u32,
    dst_h: u32,
    distance: u64,
    look_fwd: F,
    look_bwd: B,
    late: T,
    r: Option<Vec<i64>>,
) -> bool {
    is_refined(
        greedy[0],
        src_h,
        greedy.last(),
        dst_h,
        (greedy.len() - 1) as u32,
        distance > CARRIER_FAR,
        look_fwd,
        look_bwd,
        late,
        r,
    )
}

/// Settles on a route: the greedy one where it is not to be refined, else the
/// one that is at hand, else the one that a search finds. A route that is
/// settled on instead of the greedy one has fewer jumps. Where the greedy
/// route passes no system twice, neither does one that a search finds. Over a
/// distance that is searched in one direction no walk of the jumps on offer is
/// shorter than the route, unless the time ran out. Over one that is searched
/// from both ends no walk with as few jumps as are estimated is shorter, and
/// the route has no more jumps than a walk there and one back together.
pub fn settle_carrier<
    F: Fn(i64) -> Expansion,
    B: Fn(i64) -> Expansion,
    T: Fn() -> bool,
>(
    greedy: Vec<i64>,
    refine: bool,
    at_hand: Option<Vec<i64>>,
    src_h: u32,
    dst_h: u32,
    distance: u64,
    look_fwd: F,
    look_bwd: B,
    late: T,
) -> (r: Chosen)
    requires
        1 < greedy.len() <= u32::MAX,
        forall|id: i64| #[trigger] call_requires(look_fwd, (id,)),
        forall|id: i64| #[trigger] call_requires(look_bwd, (id,)),
        call_requires(late, ()),
    ensures
        !refine ==> r.path@ == greedy@,
        refine ==> (at_hand matches Some(p) ==> r.path@ == route::chosen(Some(p@), greedy@)),
        refine && at_hand is None ==> exists|o: Option<Vec<i64>>| #[trigger]
            is_shorter(greedy@, src_h, dst_h, distance, look_fwd, look_bwd, late, o) && r.path@
                == route::found_or(route::ids_view(o), greedy@),
        r.optimised == (r.path.len() < greedy.len()),
        r.optimised || r.path@ == greedy@,
        r.path@ == greedy@ || (refine && at_hand is Some) || (r.path@[0] == greedy@[0]
            && r.path@.last() == greedy@.last()),
        at_hand is None && greedy@.no_duplicates() ==> r.path@.no_duplicates(),
        refine && at_hand is None && distance <= CARRIER_FAR && astar::consistent(
            look_fwd,
            greedy@.last(),
            greedy@[0],
            src_h,
        ) ==> call_ensures(late, (), true) || forall|w: Seq<i64>| #[trigger]
            astar::is_walk(look_fwd, greedy@.last(), seq![greedy@[0]], w) ==> r.path.len()
                <= w.len(),
        refine && at_hand is None && distance > CARRIER_FAR && greedy@[0] != greedy@.last()
            && astar::consistent(look_fwd, greedy@.last(), greedy@[0], src_h) ==> call_ensures(
            late,
            (),
            true,
        ) || forall|w: Seq<i64>| #[trigger]
            astar::is_walk(look_fwd, greedy@.last(), seq![greedy@[0]], w) && w.len() - 1 <= dst_h
                ==> r.path.len() <= w.len(),
        refine && at_hand is None && distance > CARRIER_FAR && greedy@[0] != greedy@.last()
            && astar::consistent(look_fwd, greedy@.last(), greedy@[0], src_h) && astar::consistent(
            look_bwd,
            greedy@[0],
            greedy@.last(),
            dst_h,
        ) ==> call_ensures(late, (), true) || forall|w: Seq<i64>, v: Seq<i64>| #[trigger]
            astar::is_walk(look_fwd, greedy@.last(), seq![greedy@[0]], w)
                && #[trigger] astar::is_walk(
                look_bwd,
                greedy@[0],
                seq![greedy@.last()],
                v,
            ) ==> r.path.len() - 1 <= w.len() - 1 + v.len() - 1,
{
    let ghost plain = greedy@;
    let refined = if !refine {
        None
    } else {
        match at_hand {
            Some(p) => Some(p),
            None => refine_carrier(
                greedy[0],
                src_h,
                greedy[greedy.len() - 1],
                dst_h,
                (greedy.len() - 1) as u32,
                distance,
                look_fwd,
                look_bwd,
                late,
            ),
        }
    };
    assert(refine && at_hand is None ==> is_shorter(
        plain,
        src_h,
        dst_h,
        distance,
        look_fwd,
        look_bwd,
        late,
        refined,
    ));
    choose_path(refined, greedy)
}

/// A stop of a carrier's route: how far it is from the source, from the
/// destination and from the stop before; and the fuel that the jump to it
/// took, with what is left in the tank and in the market.
pub struct CarrierLeg {
    pub stop: Stop,
    pub from_start: u64,
    pub to_destination: u64,
    pub jump: u64,
    pub fuel: u64,
    pub tank: u64,
    pub market: u64,
    pub has_enough_fuel: bool,
}

/// A stop of a carrier's route, as mathematics.
pub struct LegView {
    pub stop: StopView,
    pub from_start: u64,
    pub to_destination: u64,
    pub jump: u64,
    pub fuel: u64,
    pub tank: u64,
    pub market: u64,
    pub has_enough_fuel: bool,
}

impl CarrierLeg {
    pub open spec fn view(&self) -> LegView {
        LegView {
            stop: self.stop@,
            from_start: self.from_start,
            to_destination: self.to_destination,
            jump: self.jump,
            fuel: self.fuel,
            tank: self.tank,
            market: self.market,
            has_enough_fuel: self.has_enough_fuel,
        }
    }
}

/// A stop of a carrier's route as JSON. At the first stop nothing has been
/// travelled or burnt, and the fuel is enough.
pub open spec fn leg_answer(l: LegView, first: bool) -> JsonView {
    JsonView::Obj(
        Map::empty().insert("system"@, JsonView::Str(l.stop.name)).insert(
            "id64"@,
            JsonView::Str(text::signed_numeral(l.stop.node.id64 as int)),
        ).insert(
            "distance_from_start"@,
            JsonView::Num(
                if first {
                    Num::Real(0)
                } else {
                    Num::Hundredths(l.from_start)
                },
            ),
        ).insert("distance_to_destination"@, JsonView::Num(Num::Hundredths(l.to_destination))).insert(
            "jump_distance"@,
            JsonView::Num(
                if first {
                    Num::Real(0)
                } else {
                    Num::Hundredths(l.jump)
                },
            ),
        ).insert(
            "fuel_used"@,
            JsonView::Num(
                Num::Real(
                    if first {
                        0
                    } else {
                        l.fuel
                    },
                ),
            ),
        ).insert("fuel_left_tank"@, JsonView::Num(Num::Real(l.tank))).insert(
            "tritium_in_market"@,
            JsonView::Num(Num::Real(l.market)),
        ).insert("has_enough_fuel"@, JsonView::Bool(first || l.has_enough_fuel)),
    )
}

fn leg_json(l: &CarrierLeg, first: bool) -> (r: Json)
    ensures
        r@ == leg_answer(l@, first),
{
    let (from_start, jump, fuel) = if first {
        (Num::Real(0), Num::Real(0), Num::Real(0))
    } else {
        (Num::Hundredths(l.from_start), Num::Hundredths(l.jump), Num::Real(l.fuel))
    };
    let mut o = Object::new();
    o.put("system", string(l.stop.name.as_str()));
    o.put("id64", Json::Str(decimal_i64(l.stop.node.id64)));
    o.put("distance_from_start", Json::Num(from_start));
    o.put("distance_to_destination", Json::Num(Num::Hundredths(l.to_destination)));
    o.put("jump_distance", Json::Num(jump));
    o.put("fuel_used", Json::Num(fuel));
    o.put("fuel_left_tank", Json::Num(Num::Real(l.tank)));
    o.put("tritium_in_market", Json::Num(Num::Real(l.market)));
    o.put("has_enough_fuel", Json::Bool(first || l.has_enough_fuel));
    o.done()
}

/// What is left when a carrier arrives, and what it burnt, by the bits of the
/// doubles.
pub struct CarrierTotals {
    pub distance: u64,
    pub fuel_used: u64,
    pub tank: u64,
    pub market: u64,
}

/// Whether the carrier belongs to a squadron: not where the question does not
/// say.
pub open spec fn squadron(q: CarrierRouteQuery) -> bool {
    q.is_squadron == Some(true)
}

/// The members of the answer that the question gives.
pub open spec fn asked_part(q: CarrierRouteQuery, optimised: bool, distance: u64) -> Map<
    Seq<char>,
    JsonView,
> {
    Map::empty().insert("source"@, JsonView::Str(q.current_system@)).insert(
        "destination"@,
        JsonView::Str(q.destination@),
    ).insert("is_squadron"@, JsonView::Bool(squadron(q))).insert(
        "optimised"@,
        JsonView::Bool(optimised),
    ).insert("total_distance_ly"@, JsonView::Num(Num::Hundredths(distance))).insert(
        "base_cargo_capacity_used"@,
        JsonView::Num(q.used_cargo),
    ).insert("initial_fuel_tank"@, JsonView::Num(q.tank_fuel)).insert(
        "initial_market_tritium"@,
        JsonView::Num(q.stored_tritium),
    )
}

/// The stops as JSON.
pub open spec fn legs_answer(legs: Seq<LegView>) -> Seq<JsonView> {
    Seq::new(legs.len(), |i: int| leg_answer(legs[i], i == 0))
}

/// The answer to a question for a carrier's route.
pub open spec fn carrier_answer(
    q: CarrierRouteQuery,
    optimised: bool,
    t: CarrierTotals,
    legs: Seq<LegView>,
) -> JsonView {
    JsonView::Obj(
        asked_part(q, optimised, t.distance).insert(
            "total_fuel_used"@,
            JsonView::Num(Num::Real(t.fuel_used)),
        ).insert("final_fuel_tank"@, JsonView::Num(Num::Real(t.tank))).insert(
            "final_market_tritium"@,
            JsonView::Num(Num::Real(t.market)),
        ).insert(
            "totalJumps"@,
            JsonView::Num(
                json::count_num(
                    if legs.len() == 0 {
                        0
                    } else {
                        legs.len() - 1
                    },
                ),
            ),
        ).insert("route"@, JsonView::Arr(legs_answer(legs))),
    )
}

/// The answer to a question for a carrier's route.
pub fn carrier_route_json(
    q: &CarrierRouteQuery,
    optimised: bool,
    t: &CarrierTotals,
    legs: &Vec<CarrierLeg>,
) -> (r: Json)
    ensures
        r@ == carrier_answer(*q, optimised, *t, legs@.map_values(|l: CarrierLeg| l@)),
{
    let ghost views = legs@.map_values(|l: CarrierLeg| l@);
    let mut v: Vec<Json> = Vec::new();
    for i in 0..legs.len()
        invariant
            views == legs@.map_values(|l: CarrierLeg| l@),
            v.len() == i,
            forall|j: int| 0 <= j < i ==> (#[trigger] v@[j])@ == leg_answer(views[j], j == 0),
    {
        v.push(leg_json(&legs[i], i == 0));
    }
    proof {
        json::lemma_views(v@);
        assert(json::views(v@) =~= legs_answer(views));
    }
    let jumps: usize = if legs.len() == 0 {
        0
    } else {
        legs.len() - 1
    };
    let mut o = Object::new();
    put_asked(&mut o, q, optimised, t.distance);
    o.put("total_fuel_used", Json::Num(Num::Real(t.fuel_used)));
    o.put("final_fuel_tank", Json::Num(Num::Real(t.tank)));
    o.put("final_market_tritium", Json::Num(Num::Real(t.market)));
    o.put("totalJumps", count(jumps));
    o.put("route", Json::Arr(v));
    o.done()
}

fn put_asked(o: &mut Object, q: &CarrierRouteQuery, optimised: bool, distance: u64)
    requires
        old(o)@ == Map::<Seq<char>, JsonView>::empty(),
    ensures
        final(o)@ == asked_part(*q, optimised, distance),
{
    let squadron = match q.is_squadron {
        Some(b) => b,
        None => false,
    };
    o.put("source", string(q.current_system.as_str()));
    o.put("destination", string(q.destination.as_str()));
    o.put("is_squadron", Json::Bool(squadron));
    o.put("optimised", Json::Bool(optimised));
    o.put("total_distance_ly", Json::Num(Num::Hundredths(distance)));
    o.put("base_cargo_capacity_used", Json::Num(q.used_cargo.copy()));
    o.put("initial_fuel_tank", Json::Num(q.tank_fuel.copy()));
    o.put("initial_market_tritium", Json::Num(q.stored_tritium.copy()));
}

/// Each member of a stop of a carrier holds its own part of the leg; at the
/// first stop nothing has been travelled or burnt, and the fuel is enough.
pub proof fn law_carrier_stops_tell_their_leg(l: LegView, first: bool)
    ensures
        ({
            let a = leg_answer(l, first);
            &&& json::field(a, "system"@) == Some(JsonView::Str(l.stop.name))
            &&& json::field(a, "id64"@)
                == Some(JsonView::Str(text::signed_numeral(l.stop.node.id64 as int)))
            &&& json::field(a, "distance_from_start"@)
                == Some(JsonView::Num( if first { Num::Real(0) } else { Num::Hundredths(l.from_start) },
                ))
            &&& json::field(a, "distance_to_destination"@)
                == Some(JsonView::Num(Num::Hundredths(l.to_destination)))
            &&& json::field(a, "jump_distance"@)
                == Some(JsonView::Num( if first { Num::Real(0) } else { Num::Hundredths(l.jump) },
                ))
            &&& json::field(a, "fuel_used"@)
                == Some(JsonView::Num( Num::Real( if first { 0 } else { l.fuel }, ), ))
            &&& json::field(a, "fuel_left_tank"@) == Some(JsonView::Num(Num::Real(l.tank)))
            &&& json::field(a, "tritium_in_market"@) == Some(JsonView::Num(Num::Real(l.market)))
            &&& json::field(a, "has_enough_fuel"@) == Some(JsonView::Bool(first
                || l.has_enough_fuel))
        }),
{
    broadcast use {json::lemma_found_set, json::lemma_found_none};

    reveal_strlit("system");
    reveal_strlit("id64");
    reveal_strlit("distance_from_start");
    reveal_strlit("distance_to_destination");
    reveal_strlit("jump_distance");
    reveal_strlit("fuel_used");
    reveal_strlit("fuel_left_tank");
    reveal_strlit("tritium_in_market");
    reveal_strlit("has_enough_fuel");
    assert(json::mark_of("system"@) == (6int, 's', 't', 'm'));
    assert(json::mark_of("id64"@) == (4int, 'i', '6', '4'));
    assert(json::mark_of("distance_from_start"@) == (19int, 'd', 'f', 't'));
    assert(json::mark_of("distance_to_destination"@) == (23int, 'd', '_', 'n'));
    assert(json::mark_of("jump_distance"@) == (13int, 'j', 'i', 'e'));
    assert(json::mark_of("fuel_used"@) == (9int, 'f', '_', 'd'));
    assert(json::mark_of("fuel_left_tank"@) == (14int, 'f', 'f', 'k'));
    assert(json::mark_of("tritium_in_market"@) == (17int, 't', 'i', 't'));
    assert(json::mark_of("has_enough_fuel"@) == (15int, 'h', 'u', 'l'));
    json::lemma_found(leg_answer(l, first));
}

/// Each member of the answer for a carrier holds its own part of the question
/// or of the totals, and the stops come in order, the first as the first.
pub proof fn law_carrier_answers_tell_all(
    q: CarrierRouteQuery,
    optimised: bool,
    t: CarrierTotals,
    legs: Seq<LegView>,
)
    ensures
        ({
            let a = carrier_answer(q, optimised, t, legs);
            &&& json::field(a, "source"@) == Some(JsonView::Str(q.current_system@))
            &&& json::field(a, "destination"@) == Some(JsonView::Str(q.destination@))
            &&& json::field(a, "is_squadron"@) == Some(JsonView::Bool(squadron(q)))
            &&& json::field(a, "optimised"@) == Some(JsonView::Bool(optimised))
            &&& json::field(a, "total_distance_ly"@)
                == Some(JsonView::Num(Num::Hundredths(t.distance)))
            &&& json::field(a, "base_cargo_capacity_used"@) == Some(JsonView::Num(q.used_cargo))
            &&& json::field(a, "initial_fuel_tank"@) == Some(JsonView::Num(q.tank_fuel))
            &&& json::field(a, "initial_market_tritium"@) == Some(JsonView::Num(q.stored_tritium))
            &&& json::field(a, "total_fuel_used"@) == Some(JsonView::Num(Num::Real(t.fuel_used)))
            &&& json::field(a, "final_fuel_tank"@) == Some(JsonView::Num(Num::Real(t.tank)))
            &&& json::field(a, "final_market_tritium"@) == Some(JsonView::Num(Num::Real(t.market)))
            &&& json::field(a, "totalJumps"@) == Some(JsonView::Num( json::count_num( if legs.len()
                == 0 { 0 } else { legs.len() - 1 }, ), ))
            &&& json::field(a, "route"@) matches Some(JsonView::Arr(v)) && v.len() == legs.len()
                && forall|i: int|
                0 <= i < legs.len() ==> #[trigger] v[i] == leg_answer(legs[i], i == 0)
        }),
{
    broadcast use {json::lemma_found_set, json::lemma_found_none};

    reveal_strlit("source");
    reveal_strlit("destination");
    reveal_strlit("is_squadron");
    reveal_strlit("optimised");
    reveal_strlit("total_distance_ly");
    reveal_strlit("base_cargo_capacity_used");
    reveal_strlit("initial_fuel_tank");
    reveal_strlit("initial_market_tritium");
    reveal_strlit("total_fuel_used");
    reveal_strlit("final_fuel_tank");
    reveal_strlit("final_market_tritium");
    reveal_strlit("totalJumps");
    reveal_strlit("route");
    assert(json::mark_of("source"@) == (6int, 's', 'r', 'e'));
    assert(json::mark_of("destination"@) == (11int, 'd', 'n', 'n'));
    assert(json::mark_of("is_squadron"@) == (11int, 'i', 'u', 'n'));
    assert(json::mark_of("optimised"@) == (9int, 'o', 'm', 'd'));
    assert(json::mark_of("total_distance_ly"@) == (17int, 't', 's', 'y'));
    assert(json::mark_of("base_cargo_capacity_used"@) == (24int, 'b', 'a', 'd'));
    assert(json::mark_of("initial_fuel_tank"@) == (17int, 'i', 'f', 'k'));
    assert(json::mark_of("initial_market_tritium"@) == (22int, 'i', 'k', 'm'));
    assert(json::mark_of("total_fuel_used"@) == (15int, 't', 'u', 'd'));
    assert(json::mark_of("final_fuel_tank"@) == (15int, 'f', 'u', 'k'));
    assert(json::mark_of("final_market_tritium"@) == (20int, 'f', 'e', 'm'));
    assert(json::mark_of("totalJumps"@) == (10int, 't', 'J', 's'));
    assert(json::mark_of("route"@) == (5int, 'r', 'u', 'e'));
    json::lemma_found(carrier_answer(q, optimised, t, legs));
}

/// Looking into the box `k` shows no system in reach of `cur` that is nearer to
/// the destination than `cur` is.
pub open spec fn shows_none_nearer<
    L: Fn(RouteNode, u32) -> Vec<RouteNode>,
    M: Fn(RouteNode, RouteNode) -> u64,
>(look: L, m: M, cur: RouteNode, dst: RouteNode, k: u32) -> bool {
    exists|v: Vec<RouteNode>| #[trigger]
        call_ensures(look, (cur, k), v) && forall|x: RouteNode| #[trigger]
            v@.contains(x) && 0 < route::dist(m, x, cur) <= CARRIER_JUMP_RANGE ==> route::dist(
                m,
                cur,
                dst,
            ) <= route::dist(m, x, dst)
}

/// Each hop of a greedy route goes to a system that looking ahead shows: of the
/// systems in reach that are shown there, none is nearer to the destination,
/// and the boxes before that one show none that is nearer than where the
/// carrier is.
pub proof fn law_greedy_takes_the_nearest<
    L: Fn(RouteNode, u32) -> Vec<RouteNode>,
    M: Fn(RouteNode, RouteNode) -> u64,
>(look: L, m: M, src: RouteNode, dst: RouteNode, p: Seq<RouteNode>, i: int) -> (r: (
    u32,
    Vec<RouteNode>,
))
    requires
        is_greedy(look, m, src, dst, p),
        0 <= i < p.len() - 1,
    ensures
        r.0 < CARRIER_BOXES,
        call_ensures(look, (p[i], r.0), r.1),
        r.1@.contains(p[i + 1]),
        forall|x: RouteNode| #[trigger]
            r.1@.contains(x) && 0 < route::dist(m, x, p[i]) <= CARRIER_JUMP_RANGE ==> route::dist(
                m,
                p[i + 1],
                dst,
            ) <= route::dist(m, x, dst),
        forall|j: u32| j < r.0 ==> #[trigger] shows_none_nearer(look, m, p[i], dst, j),
{
    let (cur, next) = (p[i], p[i + 1]);
    assert(is_hop(look, m, cur, dst, next));
    let k = choose|k: u32|
        k < CARRIER_BOXES && #[trigger] is_best_of_box(look, m, cur, dst, k, next) && forall|j: u32|
            j < k ==> #[trigger] is_barren(look, m, cur, dst, j);
    let below = route::dist(m, cur, dst);
    let (v, n) = choose|v: Vec<RouteNode>, n: int| #[trigger]
        call_ensures(look, (cur, k), v) && #[trigger] route::is_pick(
            seen(m, v@, cur, dst),
            CARRIER_JUMP_RANGE,
            below,
            n,
        ) && seen(m, v@, cur, dst)[n].node == next;
    route::lemma_measured(m, v@, cur, dst, Set::empty(), v@.len() as int, n);
    assert forall|x: RouteNode| #[trigger]
        v@.contains(x) && 0 < route::dist(m, x, cur)
            <= CARRIER_JUMP_RANGE implies route::dist(m, next, dst) <= route::dist(m, x, dst) by {
        let q = choose|q: int| 0 <= q < v@.len() && v@[q] == x;
        route::law_the_nearest_in_reach_is_picked(
            m,
            v@,
            cur,
            dst,
            Set::empty(),
            CARRIER_JUMP_RANGE,
            below,
            n,
            q,
        );
    }
    assert forall|j: u32| j < k implies #[trigger] shows_none_nearer(look, m, cur, dst, j) by {
        assert(is_barren(look, m, cur, dst, j));
        let u = choose|v: Vec<RouteNode>| #[trigger]
            call_ensures(look, (cur, j), v) && route::no_pick(
                seen(m, v@, cur, dst),
                CARRIER_JUMP_RANGE,
                below,
            );
        assert forall|x: RouteNode| #[trigger]
            u@.contains(x) && 0 < route::dist(m, x, cur) <= CARRIER_JUMP_RANGE implies below
            <= route::dist(m, x, dst) by {
            let q = choose|q: int| 0 <= q < u@.len() && u@[q] == x;
            route::law_the_nearest_in_reach_is_picked(
                m,
                u@,
                cur,
                dst,
                Set::empty(),
                CARRIER_JUMP_RANGE,
                below,
                0,
                q,
            );
        }
        assert(call_ensures(look, (cur, j), u));
    }
    (k, v)
}

/// Where a greedy route gets stuck, no box ahead shows a system in reach that
/// is nearer to the destination.
pub proof fn law_stuck_carriers_see_nothing_nearer<
    L: Fn(RouteNode, u32) -> Vec<RouteNode>,
    M: Fn(RouteNode, RouteNode) -> u64,
>(look: L, m: M, cur: RouteNode, dst: RouteNode, k: u32)
    requires
        is_stuck(look, m, cur, dst),
        k < CARRIER_BOXES,
    ensures
        shows_none_nearer(look, m, cur, dst, k),
{
    let below = route::dist(m, cur, dst);
    assert(is_barren(look, m, cur, dst, k));
    let u = choose|v: Vec<RouteNode>| #[trigger]
        call_ensures(look, (cur, k), v) && route::no_pick(
            seen(m, v@, cur, dst),
            CARRIER_JUMP_RANGE,
            below,
        );
    assert forall|x: RouteNode| #[trigger]
        u@.contains(x) && 0 < route::dist(m, x, cur) <= CARRIER_JUMP_RANGE implies below
        <= route::dist(m, x, dst) by {
        let q = choose|q: int| 0 <= q < u@.len() && u@[q] == x;
        route::law_the_nearest_in_reach_is_picked(
            m,
            u@,
            cur,
            dst,
            Set::empty(),
            CARRIER_JUMP_RANGE,
            below,
            0,
            q,
        );
    }
    assert(call_ensures(look, (cur, k), u));
}

} // verus!
