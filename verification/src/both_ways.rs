//! Best-first search from both ends of a route at once.

use crate::astar;
use crate::astar::{reversed, Expansion, Hop, Side, SideView};
use crate::heap;
use crate::heap::Entry;
use crate::route;
use crate::trail;
use crate::trail::trail;
use std::collections::HashMap;
use vstd::prelude::*;

verus! {

broadcast use vstd::std_specs::hash::group_hash_axioms;

/// One direction of the search, with the best meeting of the two so far: the
/// jumps `mu` of the whole route and the system where they meet.
#[verifier::ext_equal]
pub struct HalfView {
    pub side: SideView,
    pub mu: u32,
    pub at: Option<i64>,
}

/// The state of the search, as mathematics.
#[verifier::ext_equal]
pub struct DuoView {
    pub fwd: SideView,
    pub bwd: SideView,
    pub mu: u32,
    pub at: Option<i64>,
}

/// One direction with the best meeting.
pub open spec fn half(side: SideView, mu: u32, at: Option<i64>) -> HalfView {
    HalfView { side, mu, at }
}

/// A meeting at `id` with `total` jumps, where that is an improvement.
pub open spec fn met(x: HalfView, total: int, id: i64) -> HalfView {
    if total < x.mu {
        HalfView { side: x.side, mu: total as u32, at: Some(id) }
    } else {
        x
    }
}

/// A meeting at `id`, `g` jumps away, where the other direction has been there.
pub open spec fn met_other(x: HalfView, other: Map<i64, u32>, g: int, id: i64) -> HalfView {
    if other.contains_key(id) {
        met(x, g + other[id], id)
    } else {
        x
    }
}

/// One of the hops from `id`.
pub open spec fn half_hopped(
    x: HalfView,
    other: Map<i64, u32>,
    id: i64,
    g: u32,
    hop: Hop,
) -> HalfView {
    if hop.id == id || x.side.closed.contains(hop.id) || g + 1 >= astar::label(x.side, hop.id) {
        x
    } else {
        let y = HalfView { side: astar::relaxed(x.side, id, g, hop.id, hop.h), ..x };
        met_other(y, other, g + 1, hop.id)
    }
}

/// The first `n` hops from `id`.
pub open spec fn half_hopped_all(
    x: HalfView,
    other: Map<i64, u32>,
    id: i64,
    g: u32,
    hops: Seq<Hop>,
    n: int,
) -> HalfView
    decreases n,
{
    if n <= 0 {
        x
    } else {
        half_hopped(half_hopped_all(x, other, id, g, hops, n - 1), other, id, g, hops[n - 1])
    }
}

/// The system `id` is done; the two directions may meet there.
pub open spec fn half_closed(x: HalfView, other: Map<i64, u32>, id: i64, g: u32) -> HalfView {
    let done = HalfView { side: SideView { closed: x.side.closed.insert(id), ..x.side }, ..x };
    met_other(done, other, g as int, id)
}

/// The end of the route is in reach of `id`: the route is complete there.
pub open spec fn half_arrived(x: HalfView, id: i64, g: u32, arrives: bool, end: i64) -> HalfView {
    if arrives && g + 1 < astar::label(x.side, end) {
        met(HalfView { side: astar::relaxed(x.side, id, g, end, 0), ..x }, g + 1, end)
    } else {
        x
    }
}

/// The system `id`, `g` jumps away, has been expanded towards `end`.
pub open spec fn half_expanded(
    x: HalfView,
    other: Map<i64, u32>,
    id: i64,
    g: u32,
    arrives: bool,
    hops: Seq<Hop>,
    end: i64,
) -> HalfView {
    half_hopped_all(
        half_arrived(half_closed(x, other, id, g), id, g, arrives, end),
        other,
        id,
        g,
        hops,
        hops.len() as int,
    )
}

/// One direction takes `top`: it counts for nothing where it has as many
/// jumps as the best meeting or its system is done, and else its system is
/// expanded.
pub open spec fn half_took<L: Fn(i64) -> Expansion>(
    look: L,
    x: HalfView,
    other: Map<i64, u32>,
    top: Entry<i64>,
    end: i64,
    y: HalfView,
) -> bool {
    let rest = HalfView { side: SideView { open: x.side.open.remove(top), ..x.side }, ..x };
    if top.g >= x.mu || x.side.closed.contains(top.id) {
        y == rest
    } else {
        exists|e: Expansion| #[trigger]
            call_ensures(look, (top.id,), e) && y == half_expanded(
                rest,
                other,
                top.id,
                top.g,
                e.arrives,
                e.hops@,
                end,
            )
    }
}

/// `top` is an entry that none ranks before, or `None` where no entry waits.
pub open spec fn is_top(s: SideView, top: Option<Entry<i64>>) -> bool {
    match top {
        Some(e) => heap::is_least(s.open, e),
        None => s.open.len() == 0,
    }
}

/// The jumps of an entry; the largest number where there is none.
pub open spec fn jumps(top: Option<Entry<i64>>) -> u32 {
    match top {
        Some(e) => e.g,
        None => u32::MAX,
    }
}

/// The rank of an entry; the largest number where there is none.
pub open spec fn rank(top: Option<Entry<i64>>) -> u64 {
    match top {
        Some(e) => e.f,
        None => u64::MAX,
    }
}

/// The search is over: nothing waits, or the entries that are next have
/// together as many jumps as the best meeting.
pub open spec fn is_over(s: DuoView, ef: Option<Entry<i64>>, eb: Option<Entry<i64>>) -> bool {
    (ef is None && eb is None) || jumps(ef) + jumps(eb) >= s.mu
}

/// One turn of the search: the direction whose next entry ranks first takes
/// it, the forward one where both rank alike.
pub open spec fn duo_took<F: Fn(i64) -> Expansion, B: Fn(i64) -> Expansion>(
    look_fwd: F,
    look_bwd: B,
    src: i64,
    dst: i64,
    s: DuoView,
    ef: Option<Entry<i64>>,
    eb: Option<Entry<i64>>,
    t: DuoView,
) -> bool {
    if rank(ef) <= rank(eb) {
        &&& t.bwd == s.bwd
        &&& ef is Some
        &&& half_took(
            look_fwd,
            half(s.fwd, s.mu, s.at),
            s.bwd.g,
            ef->0,
            dst,
            half(t.fwd, t.mu, t.at),
        )
    } else {
        &&& t.fwd == s.fwd
        &&& eb is Some
        &&& half_took(
            look_bwd,
            half(s.bwd, s.mu, s.at),
            s.fwd.g,
            eb->0,
            src,
            half(t.bwd, t.mu, t.at),
        )
    }
}

/// The state `t` follows on `s`.
pub open spec fn duo_turn<F: Fn(i64) -> Expansion, B: Fn(i64) -> Expansion>(
    look_fwd: F,
    look_bwd: B,
    src: i64,
    dst: i64,
    s: DuoView,
    t: DuoView,
) -> bool {
    exists|ef: Option<Entry<i64>>, eb: Option<Entry<i64>>| #[trigger]
        is_top(s.fwd, ef) && #[trigger] is_top(s.bwd, eb) && !is_over(s, ef, eb) && duo_took(
            look_fwd,
            look_bwd,
            src,
            dst,
            s,
            ef,
            eb,
            t,
        )
}

/// `run` holds the states of the search, turn by turn.
pub open spec fn duo_run<F: Fn(i64) -> Expansion, B: Fn(i64) -> Expansion>(
    look_fwd: F,
    look_bwd: B,
    src: i64,
    dst: i64,
    start: DuoView,
    run: Seq<DuoView>,
) -> bool {
    &&& run.len() > 0
    &&& run[0] == start
    &&& forall|i: int|
        0 <= i < run.len() - 1 ==> duo_turn(
            look_fwd,
            look_bwd,
            src,
            dst,
            #[trigger] run[i],
            run[i + 1],
        )
}

/// The search has come to its end.
pub open spec fn has_ended(s: DuoView) -> bool {
    exists|ef: Option<Entry<i64>>, eb: Option<Entry<i64>>| #[trigger]
        is_top(s.fwd, ef) && #[trigger] is_top(s.bwd, eb) && is_over(s, ef, eb)
}

/// The state in which the search starts.
pub open spec fn duo_start(
    lead: Seq<i64>,
    seed_h: u32,
    tail: Seq<i64>,
    tail_h: u32,
    limit: u32,
) -> DuoView {
    DuoView {
        fwd: astar::seeded(lead, seed_h),
        bwd: astar::seeded(tail, tail_h),
        mu: limit,
        at: None,
    }
}

/// The answer that the search owes in the state `s`: the trails from the
/// meeting back to the end of `lead` and on to the start of `tail`, where
/// there is a meeting and both trails lead there.
pub open spec fn duo_answer(
    lead: Seq<i64>,
    tail: Seq<i64>,
    s: DuoView,
    r: Option<Vec<i64>>,
) -> bool {
    &&& r is Some <==> (s.at matches Some(m) && trail::leads(s.fwd.from, m, lead.last())
        && trail::leads(s.bwd.from, m, tail[0]))
    &&& r matches Some(p) ==> exists|pf: Seq<i64>, pb: Seq<i64>| #[trigger]
        trail::is_trail(s.fwd.from, s.at->0, lead.last(), pf) && #[trigger] trail::is_trail(
            s.bwd.from,
            s.at->0,
            tail[0],
            pb,
        ) && p@ == pf.reverse() + pb.skip(1)
}

/// The answer `r` is that of a run of the search that came to its end, or for
/// which the time ran out.
pub open spec fn duo_result<
    F: Fn(i64) -> Expansion,
    B: Fn(i64) -> Expansion,
    T: Fn() -> bool,
>(
    look_fwd: F,
    look_bwd: B,
    lead: Seq<i64>,
    seed_h: u32,
    tail: Seq<i64>,
    tail_h: u32,
    limit: u32,
    late: T,
    r: Option<Vec<i64>>,
) -> bool {
    exists|run: Seq<DuoView>| #[trigger]
        duo_run(
            look_fwd,
            look_bwd,
            lead[0],
            tail[0],
            duo_start(lead, seed_h, tail, tail_h, limit),
            run,
        ) && (has_ended(run.last()) || call_ensures(late, (), true)) && duo_answer(
            lead,
            tail,
            run.last(),
            r,
        )
}

/// A jump of the whole route: one that the forward direction made, or the
/// reverse of one that the backward direction made.
pub open spec fn joined<F: Fn(i64) -> Expansion, B: Fn(i64) -> Expansion>(
    look_fwd: F,
    look_bwd: B,
    lead: Seq<i64>,
    tail: Seq<i64>,
    a: i64,
    b: i64,
) -> bool {
    astar::linked(look_fwd, tail[0], lead, a, b) || astar::linked(look_bwd, lead[0], tail, b, a)
}

/// A better meeting is recorded.
fn meet(mu: &mut u32, at: &mut Option<i64>, total: u64, id: i64)
    ensures
        total < *old(mu) ==> *final(mu) == total && *final(at) == Some(id),
        total >= *old(mu) ==> *final(mu) == *old(mu) && *final(at) == *old(at),
{
    if total < *mu as u64 {
        *mu = total as u32;
        *at = Some(id);
    }
}

/// Expands `id`, which is `g` jumps away, towards `end`.
fn half_expand(
    side: &mut Side,
    other: &HashMap<i64, u32>,
    mu: &mut u32,
    at: &mut Option<i64>,
    id: i64,
    g: u32,
    e: &Expansion,
    end: i64,
)
    requires
        old(side).wf(),
        g < u32::MAX,
    ensures
        final(side).wf(),
        half(final(side)@, *final(mu), *final(at)) == half_expanded(
            half(old(side)@, *old(mu), *old(at)),
            other@,
            id,
            g,
            e.arrives,
            e.hops@,
            end,
        ),
{
    let ghost x0 = half(side@, *mu, *at);
    side.closed.insert(id);
    let ghost x1 = half(side@, *mu, *at);
    match other.get(&id) {
        Some(o) => {
            meet(mu, at, g as u64 + *o as u64, id);
        },
        None => {},
    }
    let ghost x2 = half(side@, *mu, *at);
    assert(x2 == half_closed(x0, other@, id, g));
    if e.arrives {
        if side.relax(id, g, end, 0) {
            let ghost x3 = half(side@, *mu, *at);
            meet(mu, at, g as u64 + 1, end);
        }
    }
    let ghost x4 = half(side@, *mu, *at);
    assert(x4 == half_arrived(x2, id, g, e.arrives, end));
    assert(x4 == half_hopped_all(x4, other@, id, g, e.hops@, 0));
    for i in 0..e.hops.len()
        invariant
            side.wf(),
            g < u32::MAX,
            half(side@, *mu, *at) == half_hopped_all(
                x4,
                other@,
                id,
                g,
                e.hops@,
                i as int,
            ),
    {
        let hop = e.hops[i];
        let ghost y0 = half(side@, *mu, *at);
        if hop.id != id && !side.closed.contains(&hop.id) {
            if side.relax(id, g, hop.id, hop.h) {
                let ghost y1 = half(side@, *mu, *at);
                match other.get(&hop.id) {
                    Some(o) => {
                        meet(mu, at, g as u64 + 1 + *o as u64, hop.id);
                    },
                    None => {},
                }
                assert(half(side@, *mu, *at) == met_other(
                    y1,
                    other@,
                    g + 1,
                    hop.id,
                ));
            }
        }
        assert(half(side@, *mu, *at) == half_hopped(
            y0,
            other@,
            id,
            g,
            hop,
        ));
    }
}

/// What holds of one direction at all times.
spec fn side_ok<L: Fn(i64) -> Expansion>(look: L, end: i64, lead: Seq<i64>, s: SideView) -> bool {
    &&& astar::sound(look, end, lead, s)
    &&& forall|e: Entry<i64>| #[trigger]
        s.open.contains(e) ==> lead.len() - 1 <= e.g <= e.f && e.f < u64::MAX
    &&& s.g.contains_key(lead[0])
    &&& s.g.contains_key(lead.last())
    &&& lead.no_duplicates() ==> astar::descending(s, lead[0]) && s.g[lead[0]] == 0
        && s.g[lead.last()] == lead.len() - 1
    &&& lead.no_duplicates() ==> forall|i: int|
        0 <= i < lead.len() ==> s.g.contains_key(#[trigger] lead[i]) && s.g[lead[i]] <= i
}

/// Where the two given routes touch, they make no route shorter than the
/// limit.
pub open spec fn keep_apart(lead: Seq<i64>, tail: Seq<i64>, limit: u32) -> bool {
    forall|a: int, b: int|
        0 <= a < lead.len() && 0 <= b < tail.len() && #[trigger] lead[a] == #[trigger] tail[b] ==> a
            + b >= limit
}

/// The given routes pass the destination only at the end of the whole: `tail`
/// starts there and does not return, and `lead` does not come there within the
/// limit.
pub open spec fn aims_at_end(lead: Seq<i64>, tail: Seq<i64>, limit: u32) -> bool {
    &&& !lead.drop_last().contains(tail[0])
    &&& lead.last() == tail[0] ==> lead.len() - 1 >= limit
    &&& forall|i: int| 1 <= i < tail.len() ==> #[trigger] tail[i] != tail[0]
}

/// The forward direction has not gone on from `goal`, and will not: a way there
/// has as many jumps as the best meeting.
spec fn goal_ok(fwd: SideView, other: Map<i64, u32>, goal: i64, mu: u32) -> bool {
    &&& other.contains_key(goal) && other[goal] == 0
    &&& fwd.g.contains_key(goal) ==> mu <= fwd.g[goal]
    &&& forall|x: i64| #[trigger] fwd.from.contains_key(x) ==> fwd.from[x] != goal
}

proof fn lemma_goal_hopped(
    x: HalfView,
    other: Map<i64, u32>,
    id: i64,
    g: u32,
    hops: Seq<Hop>,
    n: int,
    goal: i64,
)
    requires
        goal_ok(x.side, other, goal, x.mu),
        id != goal,
        g < u32::MAX,
        0 <= n <= hops.len(),
    ensures
        ({
            let y = half_hopped_all(x, other, id, g, hops, n);
            goal_ok(y.side, other, goal, y.mu)
        }),
    decreases n,
{
    if n > 0 {
        lemma_goal_hopped(x, other, id, g, hops, n - 1, goal);
    }
}

/// A forward expansion of another system than `goal` does not go on from it.
proof fn lemma_goal_forward(
    x: HalfView,
    other: Map<i64, u32>,
    id: i64,
    g: u32,
    e: Expansion,
    goal: i64,
)
    requires
        goal_ok(x.side, other, goal, x.mu),
        id != goal,
        g < u32::MAX,
    ensures
        ({
            let y = half_expanded(x, other, id, g, e.arrives, e.hops@, goal);
            goal_ok(y.side, other, goal, y.mu)
        }),
{
    let a = half_closed(x, other, id, g);
    let b = half_arrived(a, id, g, e.arrives, goal);
    assert(goal_ok(b.side, other, goal, b.mu));
    lemma_goal_hopped(b, other, id, g, e.hops@, e.hops.len() as int, goal);
}

proof fn lemma_goal_hopped_back(
    x: HalfView,
    other: Map<i64, u32>,
    id: i64,
    g: u32,
    hops: Seq<Hop>,
    n: int,
    goal: i64,
)
    requires
        x.side.g.contains_key(goal),
        x.side.g[goal] == 0,
        0 <= n <= hops.len(),
    ensures
        ({
            let y = half_hopped_all(x, other, id, g, hops, n);
            y.side.g.contains_key(goal) && y.side.g[goal] == 0 && y.mu <= x.mu
        }),
    decreases n,
{
    if n > 0 {
        lemma_goal_hopped_back(x, other, id, g, hops, n - 1, goal);
    }
}

/// A backward expansion leaves `goal` where the backward direction starts.
proof fn lemma_goal_backward(
    x: HalfView,
    other: Map<i64, u32>,
    id: i64,
    g: u32,
    e: Expansion,
    end: i64,
    goal: i64,
)
    requires
        x.side.g.contains_key(goal),
        x.side.g[goal] == 0,
    ensures
        ({
            let y = half_expanded(x, other, id, g, e.arrives, e.hops@, end);
            y.side.g.contains_key(goal) && y.side.g[goal] == 0 && y.mu <= x.mu
        }),
{
    let a = half_closed(x, other, id, g);
    let b = half_arrived(a, id, g, e.arrives, end);
    lemma_goal_hopped_back(b, other, id, g, e.hops@, e.hops.len() as int, goal);
}

/// The start of a given route that does not return there has no jumps behind
/// it.
proof fn lemma_led_start(lead: Seq<i64>, n: int)
    requires
        0 < n < lead.len() <= u32::MAX,
        forall|i: int| 1 <= i < lead.len() ==> #[trigger] lead[i] != lead[0],
    ensures
        astar::led(lead, n).g.contains_key(lead[0]),
        astar::led(lead, n).g[lead[0]] == 0,
    decreases n,
{
    reveal_with_fuel(astar::led, 2);
    if n > 1 {
        lemma_led_start(lead, n - 1);
        assert(lead[n - 1] != lead[0]);
    }
}

proof fn lemma_seeded_goal(lead: Seq<i64>, seed_h: u32, tail: Seq<i64>, tail_h: u32, limit: u32)
    requires
        0 < lead.len() <= u32::MAX,
        0 < tail.len() <= u32::MAX,
        aims_at_end(lead, tail, limit),
    ensures
        goal_ok(
            astar::seeded(lead, seed_h),
            astar::seeded(tail, tail_h).g,
            tail[0],
            limit,
        ),
{
    let n = lead.len() - 1;
    astar::lemma_led(lead, n);
    assert(lead.take(n) =~= lead.drop_last());
    let k = tail.len() - 1;
    if k > 0 {
        lemma_led_start(tail, k);
        assert(tail[k] != tail[0]);
    }
}

/// The trails from a meeting, put together, pass `goal` only at their end.
proof fn lemma_goal_joined(
    fwd: SideView,
    bwd: SideView,
    m: i64,
    start: i64,
    goal: i64,
    mu: u32,
    pf: Seq<i64>,
    pb: Seq<i64>,
)
    requires
        goal_ok(fwd, bwd.g, goal, mu),
        trail::is_trail(fwd.from, m, start, pf),
        trail::is_trail(bwd.from, m, goal, pb),
    ensures
        route::passes_at_end(pf.reverse() + pb.skip(1), goal),
{
    let p = pf.reverse() + pb.skip(1);
    assert(trail::back(fwd.from, m, 0) == Some(pf[0]));
    assert(trail::back(bwd.from, m, 0) == Some(pb[0]));
    assert forall|i: int| 1 <= i < pf.len() implies #[trigger] pf[i] != goal by {
        trail::lemma_trail_links(fwd.from, m, start, pf, i - 1);
        assert(fwd.from.contains_key(pf[i - 1]));
    }
    assert forall|i: int| 0 <= i < p.len() - 1 implies #[trigger] p[i] != goal by {
        if i < pf.len() {
            assert(p[i] == pf[pf.len() - 1 - i]);
            if i == pf.len() - 1 {
                assert(pb[0] != goal);
            }
        } else {
            assert(p[i] == pb[i - pf.len() + 1]);
        }
    }
    if pb.len() > 1 {
        assert(p.last() == pb.last());
    } else {
        assert(p.last() == pf[0]);
    }
}

/// The best meeting is one of the two directions, and better than the limit.
/// Where the given routes keep apart, no system is labelled by both directions
/// with fewer jumps than it.
spec fn meeting_ok(
    g: Map<i64, u32>,
    other: Map<i64, u32>,
    simple: bool,
    apart: bool,
    limit: u32,
    mu: u32,
    at: Option<i64>,
) -> bool {
    &&& at is None ==> mu == limit
    &&& at matches Some(m) ==> mu < limit && g.contains_key(m) && other.contains_key(m) && (simple
        ==> g[m] + other[m] <= mu)
    &&& apart ==> forall|m: i64| #[trigger]
        g.contains_key(m) && #[trigger] other.contains_key(m) ==> g[m] + other[m] >= mu
}

/// What holds of one direction and the best meeting while the other rests.
spec fn half_ok<L: Fn(i64) -> Expansion>(
    look: L,
    end: i64,
    lead: Seq<i64>,
    other: Map<i64, u32>,
    simple: bool,
    apart: bool,
    limit: u32,
    x: HalfView,
) -> bool {
    &&& side_ok(look, end, lead, x.side)
    &&& other.contains_key(end)
    &&& simple ==> other[end] == 0 && lead.no_duplicates()
    &&& apart ==> simple
    &&& meeting_ok(x.side.g, other, simple, apart, limit, x.mu, x.at)
}

proof fn lemma_relaxed_ok<L: Fn(i64) -> Expansion>(
    look: L,
    end: i64,
    lead: Seq<i64>,
    s: SideView,
    id: i64,
    g: u32,
    to: i64,
    h: u32,
)
    requires
        0 < lead.len() <= u32::MAX,
        side_ok(look, end, lead, s),
        s.g.contains_key(id),
        s.g[id] <= g,
        lead.len() - 1 <= g < u32::MAX,
        astar::linked(look, end, lead, id, to),
    ensures
        side_ok(look, end, lead, astar::relaxed(s, id, g, to, h)),
        astar::relaxed(s, id, g, to, h).g.contains_key(id),
        astar::relaxed(s, id, g, to, h).g[id] <= g,
        forall|m: i64| #[trigger]
            s.g.contains_key(m) ==> astar::relaxed(s, id, g, to, h).g.contains_key(m)
                && astar::relaxed(s, id, g, to, h).g[m] <= s.g[m],
{
    astar::lemma_relaxed_sound(look, end, lead, s, id, g, to, h);
    if lead.no_duplicates() {
        astar::lemma_relaxed_descending(s, lead[0], id, g, to, h);
    }
    let new = Entry { f: (g + 1 + h) as u64, g: (g + 1) as u32, id: to };
    let t = astar::relaxed(s, id, g, to, h);
    assert forall|e: Entry<i64>| #[trigger] t.open.contains(e) implies lead.len() - 1 <= e.g <= e.f
        && e.f < u64::MAX by {
        astar::lemma_insert_contains(s.open, new, e);
        if e != new {
            assert(s.open.contains(e));
        }
    }
}

proof fn lemma_half_hopped_ok<L: Fn(i64) -> Expansion>(
    look: L,
    end: i64,
    lead: Seq<i64>,
    other: Map<i64, u32>,
    simple: bool,
    apart: bool,
    limit: u32,
    x: HalfView,
    id: i64,
    g: u32,
    e: Expansion,
    n: int,
)
    requires
        0 < lead.len() <= u32::MAX,
        half_ok(look, end, lead, other, simple, apart, limit, x),
        x.side.g.contains_key(id),
        x.side.g[id] <= g,
        lead.len() - 1 <= g < u32::MAX,
        call_ensures(look, (id,), e),
        0 <= n <= e.hops.len(),
    ensures
        ({
            let y = half_hopped_all(x, other, id, g, e.hops@, n);
            &&& half_ok(look, end, lead, other, simple, apart, limit, y)
            &&& y.side.g.contains_key(id)
            &&& y.side.g[id] <= g
            &&& y.side.closed == x.side.closed
        }),
    decreases n,
{
    if n > 0 {
        lemma_half_hopped_ok(look, end, lead, other, simple, apart, limit, x, id, g, e, n - 1);
        let r = half_hopped_all(x, other, id, g, e.hops@, n - 1);
        let hop = e.hops@[n - 1];
        assert(astar::gives(e, end, hop.id));
        assert(astar::offers(look, end, id, hop.id));
        lemma_relaxed_ok(look, end, lead, r.side, id, g, hop.id, hop.h);
    }
}

/// An expansion keeps what holds of one direction and the best meeting, and
/// closes the system that is expanded and no other.
proof fn lemma_half_expanded_ok<L: Fn(i64) -> Expansion>(
    look: L,
    end: i64,
    lead: Seq<i64>,
    other: Map<i64, u32>,
    simple: bool,
    apart: bool,
    limit: u32,
    x: HalfView,
    id: i64,
    g: u32,
    e: Expansion,
)
    requires
        0 < lead.len() <= u32::MAX,
        half_ok(look, end, lead, other, simple, apart, limit, x),
        x.side.g.contains_key(id),
        x.side.g[id] <= g,
        lead.len() - 1 <= g < u32::MAX,
        call_ensures(look, (id,), e),
    ensures
        ({
            let y = half_expanded(x, other, id, g, e.arrives, e.hops@, end);
            &&& half_ok(look, end, lead, other, simple, apart, limit, y)
            &&& y.side.closed == x.side.closed.insert(id)
        }),
{
    let a = half_closed(x, other, id, g);
    assert(half_ok(look, end, lead, other, simple, apart, limit, a));
    let b = half_arrived(a, id, g, e.arrives, end);
    if e.arrives {
        assert(astar::gives(e, end, end));
        assert(astar::offers(look, end, id, end));
        lemma_relaxed_ok(look, end, lead, a.side, id, g, end, 0);
    }
    lemma_half_hopped_ok(look, end, lead, other, simple, apart, limit, b, id, g, e, e.hops.len() as int);
}

proof fn lemma_seeded_ok<L: Fn(i64) -> Expansion>(look: L, end: i64, lead: Seq<i64>, seed_h: u32)
    requires
        0 < lead.len() <= u32::MAX,
    ensures
        side_ok(look, end, lead, astar::seeded(lead, seed_h)),
{
    broadcast use vstd::multiset::group_multiset_axioms;

    astar::lemma_seeded_sound(look, end, lead, seed_h);
    let n = lead.len() - 1;
    astar::lemma_led(lead, n);
    let s = astar::seeded(lead, seed_h);
    let new = Entry { f: (n + seed_h) as u64, g: n as u32, id: lead[n] };
    assert forall|e: Entry<i64>| #[trigger] s.open.contains(e) implies e == new by {
        astar::lemma_insert_contains(astar::led(lead, n).open, new, e);
    }
    if n > 0 {
        assert(lead.take(n)[0] == lead[0]);
        assert(lead.take(n).contains(lead[0]));
    }
}

/// Dropping an entry keeps what holds of one direction.
proof fn lemma_dropped_ok<L: Fn(i64) -> Expansion>(
    look: L,
    end: i64,
    lead: Seq<i64>,
    s: SideView,
    top: Entry<i64>,
)
    requires
        side_ok(look, end, lead, s),
        s.open.contains(top),
    ensures
        side_ok(look, end, lead, (SideView { open: s.open.remove(top), ..s })),
        s.open.remove(top).len() < s.open.len(),
{
    broadcast use vstd::multiset::group_multiset_axioms;

    assert forall|o: Entry<i64>| #[trigger] s.open.remove(top).contains(o) implies s.open.contains(
        o,
    ) by {
        astar::lemma_remove_contains(s.open, top, o);
    }
}

/// The trails from a meeting, put together, are a route; where the links
/// descend it has no more jumps than the labels of the meeting say.
proof fn lemma_joined<F: Fn(i64) -> Expansion, B: Fn(i64) -> Expansion>(
    look_fwd: F,
    look_bwd: B,
    lead: Seq<i64>,
    tail: Seq<i64>,
    s: DuoView,
    m: i64,
    pf: Seq<i64>,
    pb: Seq<i64>,
)
    requires
        lead.len() > 0,
        tail.len() > 0,
        side_ok(look_fwd, tail[0], lead, s.fwd),
        side_ok(look_bwd, lead[0], tail, s.bwd),
        s.fwd.g.contains_key(m),
        s.bwd.g.contains_key(m),
        trail::is_trail(s.fwd.from, m, lead.last(), pf),
        trail::is_trail(s.bwd.from, m, tail[0], pb),
    ensures
        ({
            let p = pf.reverse() + pb.skip(1);
            &&& p.len() == pf.len() + pb.len() - 1
            &&& p[0] == lead.last()
            &&& p.last() == tail[0]
            &&& forall|i: int|
                0 <= i < p.len() - 1 ==> joined(
                    look_fwd,
                    look_bwd,
                    lead,
                    tail,
                    #[trigger] p[i],
                    p[i + 1],
                )
            &&& lead.no_duplicates() && tail.no_duplicates() ==> lead.len() - 1 + p.len() - 1
                <= s.fwd.g[m] + s.bwd.g[m]
        }),
{
    let p = pf.reverse() + pb.skip(1);
    assert(trail::back(s.fwd.from, m, 0) == Some(pf[0]));
    assert(trail::back(s.bwd.from, m, 0) == Some(pb[0]));
    assert forall|i: int| 0 <= i < p.len() - 1 implies joined(
        look_fwd,
        look_bwd,
        lead,
        tail,
        #[trigger] p[i],
        p[i + 1],
    ) by {
        if i + 1 < pf.len() {
            let k = pf.len() - 2 - i;
            trail::lemma_trail_links(s.fwd.from, m, lead.last(), pf, k);
            assert(p[i] == pf[k + 1]);
            assert(p[i + 1] == pf[k]);
            assert(s.fwd.from.contains_key(pf[k]));
        } else {
            let k = i - pf.len() + 1;
            trail::lemma_trail_links(s.bwd.from, m, tail[0], pb, k);
            assert(p[i] == pb[k]);
            assert(p[i + 1] == pb[k + 1]);
            assert(s.bwd.from.contains_key(pb[k]));
        }
    }
    if lead.no_duplicates() && tail.no_duplicates() {
        let kf = (pf.len() - 1) as nat;
        let kb = (pb.len() - 1) as nat;
        assert(trail::back(s.fwd.from, m, kf) == Some(pf[kf as int]));
        assert(trail::back(s.bwd.from, m, kb) == Some(pb[kb as int]));
        astar::lemma_descent(s.fwd, lead[0], m, kf);
        astar::lemma_descent(s.bwd, tail[0], m, kb);
    }
}

/// The labels that the given routes leave behind them keep apart as they do.
proof fn lemma_seeded_apart(lead: Seq<i64>, seed_h: u32, tail: Seq<i64>, tail_h: u32, limit: u32)
    requires
        0 < lead.len() <= u32::MAX,
        0 < tail.len() <= u32::MAX,
        lead.no_duplicates(),
        tail.no_duplicates(),
        keep_apart(lead, tail, limit),
    ensures
        ({
            let g = astar::seeded(lead, seed_h).g;
            let other = astar::seeded(tail, tail_h).g;
            forall|m: i64| #[trigger]
                g.contains_key(m) && #[trigger] other.contains_key(m) ==> g[m] + other[m] >= limit
        }),
{
    let g = astar::seeded(lead, seed_h).g;
    let other = astar::seeded(tail, tail_h).g;
    assert forall|m: i64| #[trigger]
        g.contains_key(m) && #[trigger] other.contains_key(m) implies g[m] + other[m] >= limit by {
        let a = lemma_seeded_label(lead, seed_h, m);
        let b = lemma_seeded_label(tail, tail_h, m);
        assert(lead[a] == tail[b]);
    }
}

/// A label that a given route leaves behind it is the place of its system.
proof fn lemma_seeded_label(lead: Seq<i64>, seed_h: u32, m: i64) -> (a: int)
    requires
        0 < lead.len() <= u32::MAX,
        lead.no_duplicates(),
        astar::seeded(lead, seed_h).g.contains_key(m),
    ensures
        0 <= a < lead.len(),
        lead[a] == m,
        astar::seeded(lead, seed_h).g[m] == a,
{
    let n = lead.len() - 1;
    astar::lemma_led(lead, n);
    if m == lead[n] {
        n
    } else {
        let part = lead.take(n);
        assert(part.contains(m));
        let a = choose|a: int| 0 <= a < part.len() && part[a] == m;
        assert(lead[a] == m);
        a
    }
}

/// The labels along a trail fall by at least one with each link.
proof fn lemma_trail_labels(s: SideView, start: i64, m: i64, stop: i64, p: Seq<i64>, i: int, j: int)
    requires
        astar::descending(s, start),
        s.g.contains_key(m),
        trail::is_trail(s.from, m, stop, p),
        0 <= i <= j < p.len(),
    ensures
        s.g.contains_key(p[i]),
        s.g.contains_key(p[j]),
        s.g[p[j]] + (j - i) <= s.g[p[i]],
    decreases j - i,
{
    assert(trail::back(s.from, m, i as nat) == Some(p[i]));
    astar::lemma_descent(s, start, m, i as nat);
    if i < j {
        lemma_trail_labels(s, start, m, stop, p, i, j - 1);
        trail::lemma_trail_links(s.from, m, stop, p, j - 1);
        assert(s.from.contains_key(p[j - 1]));
    }
}

/// The route from a best meeting, behind the given route that it goes on
/// from, passes no system twice: one that it passed twice would be a better
/// meeting.
proof fn lemma_joined_simple<F: Fn(i64) -> Expansion, B: Fn(i64) -> Expansion>(
    look_fwd: F,
    look_bwd: B,
    lead: Seq<i64>,
    tail: Seq<i64>,
    s: DuoView,
    m: i64,
    pf: Seq<i64>,
    pb: Seq<i64>,
)
    requires
        lead.len() > 0,
        tail.len() > 0,
        lead.no_duplicates(),
        tail.no_duplicates(),
        side_ok(look_fwd, tail[0], lead, s.fwd),
        side_ok(look_bwd, lead[0], tail, s.bwd),
        s.fwd.g.contains_key(m),
        s.bwd.g.contains_key(m),
        s.fwd.g[m] + s.bwd.g[m] <= s.mu,
        forall|x: i64| #[trigger]
            s.fwd.g.contains_key(x) && #[trigger] s.bwd.g.contains_key(x) ==> s.fwd.g[x]
                + s.bwd.g[x] >= s.mu,
        trail::is_trail(s.fwd.from, m, lead.last(), pf),
        trail::is_trail(s.bwd.from, m, tail[0], pb),
    ensures
        (lead.drop_last() + (pf.reverse() + pb.skip(1))).no_duplicates(),
{
    let n = lead.len() - 1;
    let nf = pf.len() as int;
    let part = lead.drop_last();
    let p = pf.reverse() + pb.skip(1);
    let q = part + p;
    trail::lemma_trail_simple(s.fwd.from, m, lead.last(), pf);
    trail::lemma_trail_simple(s.bwd.from, m, tail[0], pb);
    assert(trail::back(s.fwd.from, m, 0) == Some(pf[0]));
    assert(trail::back(s.bwd.from, m, 0) == Some(pb[0]));
    lemma_trail_labels(s.fwd, lead[0], m, lead.last(), pf, 0, nf - 1);
    assert forall|i: int, j: int| 0 <= i < j < q.len() implies q[i] != q[j] by {
        if q[i] == q[j] {
            if j < n {
                assert(q[i] == lead[i]);
                assert(q[j] == lead[j]);
            } else if j < n + nf {
                let b = n + nf - 1 - j;
                assert(q[j] == pf[b]);
                lemma_trail_labels(s.fwd, lead[0], m, lead.last(), pf, b, nf - 1);
                if i < n {
                    assert(q[i] == lead[i]);
                } else {
                    assert(q[i] == pf[n + nf - 1 - i]);
                }
            } else {
                let b = j - n - nf + 1;
                assert(q[j] == pb[b]);
                lemma_trail_labels(s.bwd, tail[0], m, tail[0], pb, 0, b);
                if i < n {
                    assert(q[i] == lead[i]);
                } else if i < n + nf {
                    let a = n + nf - 1 - i;
                    assert(q[i] == pf[a]);
                    lemma_trail_labels(s.fwd, lead[0], m, lead.last(), pf, 0, a);
                } else {
                    assert(q[i] == pb[i - n - nf + 1]);
                }
            }
        }
    }
}

/// The jumps of a walk behind `lead`, those of `lead` counted.
pub open spec fn cost(lead: Seq<i64>, w: Seq<i64>) -> int {
    lead.len() - 1 + w.len() - 1
}

/// As long as the best meeting has more jumps than a walk, one direction
/// follows the walk.
spec fn front_ok<L: Fn(i64) -> Expansion>(
    look: L,
    end: i64,
    lead: Seq<i64>,
    h: spec_fn(i64) -> int,
    s: SideView,
    mu: u32,
) -> bool {
    forall|w: Seq<i64>| #[trigger]
        astar::is_walk(look, end, lead, w) && cost(lead, w) < mu ==> astar::best_first(
            look,
            end,
            lead,
            (cost(lead, w) + 1) as u32,
            h,
            s,
        )
}

/// The entry that is next ranks no later than a walk that is followed.
proof fn lemma_front_top<L: Fn(i64) -> Expansion>(
    look: L,
    end: i64,
    lead: Seq<i64>,
    h: spec_fn(i64) -> int,
    s: SideView,
    mu: u32,
    w: Seq<i64>,
)
    requires
        lead.len() == 1,
        astar::steady(look, end, lead.last(), h(lead.last()) as u32, h),
        front_ok(look, end, lead, h, s, mu),
        astar::is_walk(look, end, lead, w),
        cost(lead, w) < mu,
    ensures
        s.open.len() > 0,
        forall|top: Entry<i64>| #[trigger] heap::is_least(s.open, top) ==> top.f <= cost(lead, w),
{
    let limit = (cost(lead, w) + 1) as u32;
    assert(astar::best_first(look, end, lead, limit, h, s));
    let j = astar::lemma_walk_front(look, end, lead, limit, h, s, w, w.len() - 1);
    assert(!s.closed.contains(w[j]));
    assert(s.g[w[j]] < limit);
    assert(astar::waits(s, w[j]));
    let e = choose|e: Entry<i64>| #[trigger]
        s.open.contains(e) && e.id == w[j] && e.g == s.g[w[j]];
    astar::lemma_walk_estimate(look, end, lead, h, w, j);
    assert(e.f <= cost(lead, w));
    broadcast use vstd::multiset::group_multiset_axioms;

    assert(s.open.count(e) > 0);
    if s.open.len() == 0 {
        astar::lemma_empty_open(s.open);
    }
}

/// An expansion changes one direction as one of a search in that direction
/// alone would.
proof fn lemma_half_hopped_side(
    x: HalfView,
    other: Map<i64, u32>,
    id: i64,
    g: u32,
    hops: Seq<Hop>,
    n: int,
)
    requires
        0 <= n <= hops.len(),
    ensures
        half_hopped_all(x, other, id, g, hops, n).side == astar::hopped_all(x.side, id, g, hops, n),
        half_hopped_all(x, other, id, g, hops, n).mu <= x.mu,
    decreases n,
{
    if n > 0 {
        lemma_half_hopped_side(x, other, id, g, hops, n - 1);
    }
}

/// An expansion goes on following the walks that have fewer jumps than the
/// best meeting.
proof fn lemma_front_expanded<L: Fn(i64) -> Expansion>(
    look: L,
    end: i64,
    lead: Seq<i64>,
    h: spec_fn(i64) -> int,
    s: SideView,
    mu: u32,
    at: Option<i64>,
    other: Map<i64, u32>,
    top: Entry<i64>,
    e: Expansion,
)
    requires
        lead.len() == 1,
        mu < u32::MAX,
        astar::steady(look, end, lead.last(), h(lead.last()) as u32, h),
        front_ok(look, end, lead, h, s, mu),
        heap::is_least(s.open, top),
        top.g <= top.f,
        top.g < mu,
        top.id != end,
        !s.closed.contains(top.id),
        call_ensures(look, (top.id,), e),
    ensures
        ({
            let rest = SideView { open: s.open.remove(top), ..s };
            let y = half_expanded(
                half(rest, mu, at),
                other,
                top.id,
                top.g,
                e.arrives,
                e.hops@,
                end,
            );
            front_ok(look, end, lead, h, y.side, y.mu) && y.mu <= mu
        }),
{
    let rest = SideView { open: s.open.remove(top), ..s };
    let x = half(rest, mu, at);
    let a = half_closed(x, other, top.id, top.g);
    let b = half_arrived(a, top.id, top.g, e.arrives, end);
    lemma_half_hopped_side(b, other, top.id, top.g, e.hops@, e.hops.len() as int);
    let y = half_expanded(x, other, top.id, top.g, e.arrives, e.hops@, end);
    assert(y.mu <= mu);
    assert forall|w: Seq<i64>| #[trigger]
        astar::is_walk(look, end, lead, w) && cost(lead, w) < y.mu implies astar::best_first(
        look,
        end,
        lead,
        (cost(lead, w) + 1) as u32,
        h,
        y.side,
    ) by {
        let limit = (cost(lead, w) + 1) as u32;
        assert(astar::best_first(look, end, lead, limit, h, s));
        lemma_front_top(look, end, lead, h, s, mu, w);
        assert(top.g < limit);
        assert(lead.drop_last().len() == 0);
        astar::lemma_expanded_best_first(look, end, lead, limit, h, s, top, e);
        assert(y.side == astar::expanded(rest, top.id, top.g, e.arrives, e.hops@, end));
    }
}

/// Dropping an entry goes on following the walks that have fewer jumps than
/// the best meeting.
proof fn lemma_front_dropped<L: Fn(i64) -> Expansion>(
    look: L,
    end: i64,
    lead: Seq<i64>,
    h: spec_fn(i64) -> int,
    s: SideView,
    mu: u32,
    top: Entry<i64>,
)
    requires
        lead.len() == 1,
        mu < u32::MAX,
        front_ok(look, end, lead, h, s, mu),
        top.g >= mu || s.closed.contains(top.id),
    ensures
        front_ok(look, end, lead, h, SideView { open: s.open.remove(top), ..s }, mu),
{
    assert forall|w: Seq<i64>| #[trigger]
        astar::is_walk(look, end, lead, w) && cost(lead, w) < mu implies astar::best_first(
        look,
        end,
        lead,
        (cost(lead, w) + 1) as u32,
        h,
        SideView { open: s.open.remove(top), ..s },
    ) by {
        let limit = (cost(lead, w) + 1) as u32;
        assert(astar::best_first(look, end, lead, limit, h, s));
        astar::lemma_dropped_best_first(look, end, lead, limit, h, s, top);
    }
}

/// The backward direction has not moved while the forward one follows a walk
/// that ranks no later than where the backward one starts.
spec fn rests<L: Fn(i64) -> Expansion>(
    look: L,
    lead: Seq<i64>,
    tail: Seq<i64>,
    tail_h: u32,
    bwd: SideView,
    mu: u32,
) -> bool {
    forall|w: Seq<i64>| #[trigger]
        astar::is_walk(look, tail[0], lead, w) && cost(lead, w) < mu && cost(lead, w) <= tail.len()
            - 1 + tail_h ==> bwd == astar::seeded(tail, tail_h)
}

/// Where the backward direction has not moved, its only entry is the one that
/// it starts with.
proof fn lemma_rests_top(tail: Seq<i64>, tail_h: u32, top: Option<Entry<i64>>)
    requires
        0 < tail.len() <= u32::MAX,
        is_top(astar::seeded(tail, tail_h), top),
    ensures
        top matches Some(e) && e.g == tail.len() - 1 && e.f == tail.len() - 1 + tail_h,
{
    broadcast use vstd::multiset::group_multiset_axioms;

    let n = tail.len() - 1;
    astar::lemma_led(tail, n);
    let s = astar::seeded(tail, tail_h);
    let new = Entry { f: (n + tail_h) as u64, g: n as u32, id: tail[n] };
    assert forall|e: Entry<i64>| #[trigger] s.open.contains(e) <==> e == new by {
        astar::lemma_insert_contains(astar::led(tail, n).open, new, e);
    }
    assert(s.open.contains(new));
    assert(s.open.count(new) > 0);
    if s.open.len() == 0 {
        astar::lemma_empty_open(s.open);
    }
}

/// A search that has come to its end has a best meeting with no more jumps
/// than a walk, where the backward direction has not moved.
proof fn lemma_ended_rests<L: Fn(i64) -> Expansion>(
    look: L,
    lead: Seq<i64>,
    tail: Seq<i64>,
    tail_h: u32,
    h: spec_fn(i64) -> int,
    s: DuoView,
    w: Seq<i64>,
)
    requires
        lead.len() == 1,
        0 < tail.len() <= u32::MAX,
        s.mu < u32::MAX,
        astar::steady(look, tail[0], lead.last(), h(lead.last()) as u32, h),
        front_ok(look, tail[0], lead, h, s.fwd, s.mu),
        rests(look, lead, tail, tail_h, s.bwd, s.mu),
        forall|e: Entry<i64>| #[trigger] s.fwd.open.contains(e) ==> e.g <= e.f,
        has_ended(s),
        astar::is_walk(look, tail[0], lead, w),
        cost(lead, w) <= tail.len() - 1 + tail_h,
    ensures
        s.mu <= cost(lead, w) + tail.len() - 1,
{
    if s.mu > cost(lead, w) {
        let (ef, eb) = choose|ef: Option<Entry<i64>>, eb: Option<Entry<i64>>| #[trigger]
            is_top(s.fwd, ef) && #[trigger] is_top(s.bwd, eb) && is_over(s, ef, eb);
        lemma_front_top(look, tail[0], lead, h, s.fwd, s.mu, w);
        lemma_rests_top(tail, tail_h, eb);
    }
}

/// A search that has come to its end has a best meeting with no more jumps
/// than a walk there and one back together.
proof fn lemma_ended_twice<F: Fn(i64) -> Expansion, B: Fn(i64) -> Expansion>(
    look_fwd: F,
    look_bwd: B,
    lead: Seq<i64>,
    tail: Seq<i64>,
    hf: spec_fn(i64) -> int,
    hb: spec_fn(i64) -> int,
    s: DuoView,
    w: Seq<i64>,
    v: Seq<i64>,
)
    requires
        lead.len() == 1,
        tail.len() == 1,
        s.mu < u32::MAX,
        astar::steady(look_fwd, tail[0], lead.last(), hf(lead.last()) as u32, hf),
        astar::steady(look_bwd, lead[0], tail.last(), hb(tail.last()) as u32, hb),
        front_ok(look_fwd, tail[0], lead, hf, s.fwd, s.mu),
        front_ok(look_bwd, lead[0], tail, hb, s.bwd, s.mu),
        forall|e: Entry<i64>| #[trigger] s.fwd.open.contains(e) ==> e.g <= e.f,
        forall|e: Entry<i64>| #[trigger] s.bwd.open.contains(e) ==> e.g <= e.f,
        has_ended(s),
        astar::is_walk(look_fwd, tail[0], lead, w),
        astar::is_walk(look_bwd, lead[0], tail, v),
    ensures
        s.mu <= cost(lead, w) + cost(tail, v),
{
    if s.mu > cost(lead, w) && s.mu > cost(tail, v) {
        let (ef, eb) = choose|ef: Option<Entry<i64>>, eb: Option<Entry<i64>>| #[trigger]
            is_top(s.fwd, ef) && #[trigger] is_top(s.bwd, eb) && is_over(s, ef, eb);
        lemma_front_top(look_fwd, tail[0], lead, hf, s.fwd, s.mu, w);
        lemma_front_top(look_bwd, lead[0], tail, hb, s.bwd, s.mu, v);
    }
}

/// The jumps of the answer: those of the route, or the limit where there is
/// none.
pub open spec fn answered(limit: u32, r: Option<Vec<i64>>) -> int {
    match r {
        Some(p) => p.len() - 1,
        None => limit as int,
    }
}

/// Searches from both ends at once: forward from the end of `lead`, backward
/// from the end of `tail`. `tail` runs backwards: it starts at the
/// destination, as `lead` starts at the source.
///
/// The answer is that of the state in which the search ends, or in which the
/// time runs out. A route that is found goes from the end of `lead` to the
/// start of `tail` by jumps that were offered, forward or in reverse, or that
/// `lead` and `tail` make. Where these pass no system twice, the jumps of
/// `lead` and of the route are together fewer than the limit. Where they also
/// keep apart, `lead` and the route together pass no system twice. Where
/// `lead` and `tail` pass the destination only at the end, so does the route.
pub fn search_both_ways<
    F: Fn(i64) -> Expansion,
    B: Fn(i64) -> Expansion,
    T: Fn() -> bool,
>(
    lead: &Vec<i64>,
    seed_h: u32,
    tail: &Vec<i64>,
    tail_h: u32,
    limit: u32,
    look_fwd: F,
    look_bwd: B,
    late: T,
) -> (r: Option<Vec<i64>>)
    requires
        0 < lead.len() <= u32::MAX,
        0 < tail.len() <= u32::MAX,
        forall|id: i64| #[trigger] call_requires(look_fwd, (id,)),
        forall|id: i64| #[trigger] call_requires(look_bwd, (id,)),
        call_requires(late, ()),
    ensures
        duo_result(look_fwd, look_bwd, lead@, seed_h, tail@, tail_h, limit, late, r),
        r matches Some(p) ==> p.len() > 0 && p@[0] == lead@.last() && p@.last() == tail@[0],
        r matches Some(p) ==> forall|i: int|
            0 <= i < p.len() - 1 ==> joined(
                look_fwd,
                look_bwd,
                lead@,
                tail@,
                #[trigger] p@[i],
                p@[i + 1],
            ),
        r matches Some(p) ==> lead@.no_duplicates() && tail@.no_duplicates() ==> lead.len() - 1
            + p.len() - 1 < limit,
        r matches Some(p) ==> lead@.no_duplicates() && tail@.no_duplicates() && keep_apart(
            lead@,
            tail@,
            limit,
        ) ==> (lead@.drop_last() + p@).no_duplicates(),
        r matches Some(p) ==> aims_at_end(lead@, tail@, limit) ==> route::passes_at_end(p@, tail@[0]),
        lead.len() == 1 && tail@.no_duplicates() && limit < u32::MAX && aims_at_end(
            lead@,
            tail@,
            limit,
        ) && astar::consistent(look_fwd, tail@[0], lead@[0], seed_h) ==> call_ensures(late, (),
            true)
            || forall|w: Seq<i64>| #[trigger]
            astar::is_walk(look_fwd, tail@[0], lead@, w) && w.len() - 1 <= tail.len() - 1 + tail_h
                ==> answered(limit, r) <= w.len() - 1 + tail.len() - 1,
        lead.len() == 1 && tail.len() == 1 && lead@[0] != tail@[0] && limit < u32::MAX
            && astar::consistent(look_fwd, tail@[0], lead@[0], seed_h) && astar::consistent(
            look_bwd,
            lead@[0],
            tail@[0],
            tail_h,
        ) ==> call_ensures(late, (), true) || forall|w: Seq<i64>, v: Seq<i64>| #[trigger]
            astar::is_walk(look_fwd, tail@[0], lead@, w) && #[trigger] astar::is_walk(
                look_bwd,
                lead@[0],
                tail@,
                v,
            ) ==> answered(limit, r) <= w.len() - 1 + v.len() - 1,
{
    let mut fwd = Side::seed(lead, seed_h);
    let mut bwd = Side::seed(tail, tail_h);
    let mut mu: u32 = limit;
    let mut at: Option<i64> = None;
    let src = lead[0];
    let dst = tail[0];
    let ghost simple = lead@.no_duplicates() && tail@.no_duplicates();
    let ghost apart = simple && keep_apart(lead@, tail@, limit);
    let ghost aims = aims_at_end(lead@, tail@, limit);
    let ghost hf = choose|h: spec_fn(i64) -> int|
        astar::steady(look_fwd, dst, lead@.last(), seed_h, h);
    let ghost hb = choose|h: spec_fn(i64) -> int|
        astar::steady(look_bwd, src, tail@.last(), tail_h, h);
    let ghost exact = lead.len() == 1 && limit < u32::MAX && aims && simple && astar::consistent(
        look_fwd,
        dst,
        lead@.last(),
        seed_h,
    );
    let ghost both = exact && tail.len() == 1 && src != dst && astar::consistent(
        look_bwd,
        src,
        tail@.last(),
        tail_h,
    );
    let ghost start = duo_start(lead@, seed_h, tail@, tail_h, limit);
    let ghost mut run: Seq<DuoView> = seq![start];
    proof {
        lemma_seeded_ok(look_fwd, dst, lead@, seed_h);
        lemma_seeded_ok(look_bwd, src, tail@, tail_h);
        if apart {
            lemma_seeded_apart(lead@, seed_h, tail@, tail_h, limit);
        }
        if aims {
            lemma_seeded_goal(lead@, seed_h, tail@, tail_h, limit);
        }
        if exact {
            assert forall|w: Seq<i64>| #[trigger]
                astar::is_walk(look_fwd, dst, lead@, w) && cost(lead@, w)
                    < limit implies astar::best_first(
                look_fwd,
                dst,
                lead@,
                (cost(lead@, w) + 1) as u32,
                hf,
                fwd@,
            ) by {
                astar::lemma_seeded_best_first(
                    look_fwd,
                    dst,
                    lead@,
                    (cost(lead@, w) + 1) as u32,
                    seed_h,
                    hf,
                );
            }
        }
        if both {
            assert(tail@.drop_last().len() == 0);
            lemma_seeded_goal(tail@, tail_h, lead@, seed_h, limit);
            assert forall|w: Seq<i64>| #[trigger]
                astar::is_walk(look_bwd, src, tail@, w) && cost(tail@, w)
                    < limit implies astar::best_first(
                look_bwd,
                src,
                tail@,
                (cost(tail@, w) + 1) as u32,
                hb,
                bwd@,
            ) by {
                astar::lemma_seeded_best_first(
                    look_bwd,
                    src,
                    tail@,
                    (cost(tail@, w) + 1) as u32,
                    tail_h,
                    hb,
                );
            }
        }
    }
    loop
        invariant
            0 < lead.len() <= u32::MAX,
            0 < tail.len() <= u32::MAX,
            src == lead@[0],
            dst == tail@[0],
            simple == (lead@.no_duplicates() && tail@.no_duplicates()),
            apart == (simple && keep_apart(lead@, tail@, limit)),
            forall|id: i64| #[trigger] call_requires(look_fwd, (id,)),
            forall|id: i64| #[trigger] call_requires(look_bwd, (id,)),
            call_requires(late, ()),
            fwd.wf(),
            bwd.wf(),
            start == duo_start(lead@, seed_h, tail@, tail_h, limit),
            duo_run(look_fwd, look_bwd, src, dst, start, run),
            run.last() == (DuoView { fwd: fwd@, bwd: bwd@, mu, at }),
            side_ok(look_fwd, dst, lead@, fwd@),
            side_ok(look_bwd, src, tail@, bwd@),
            meeting_ok(fwd@.g, bwd@.g, simple, apart, limit, mu, at),
            aims == aims_at_end(lead@, tail@, limit),
            aims ==> goal_ok(fwd@, bwd@.g, dst, mu),
            mu <= limit,
            exact ==> lead.len() == 1 && limit < u32::MAX && aims && simple && astar::steady(
                look_fwd,
                dst,
                lead@.last(),
                hf(lead@.last()) as u32,
                hf,
            ) && front_ok(look_fwd, dst, lead@, hf, fwd@, mu) && rests(
                look_fwd,
                lead@,
                tail@,
                tail_h,
                bwd@,
                mu,
            ),
            both ==> exact && tail.len() == 1 && astar::steady(
                look_bwd,
                src,
                tail@.last(),
                hb(tail@.last()) as u32,
                hb,
            ) && front_ok(look_bwd, src, tail@, hb, bwd@, mu) && goal_ok(bwd@, fwd@.g, src, mu),
        ensures
            has_ended(run.last()) || call_ensures(late, (), true),
        decreases
                astar::undone(fwd@.closed) + astar::undone(bwd@.closed),
                fwd@.open.len() + bwd@.open.len(),
    {
        if late() {
            break;
        }
        let ef = fwd.open.peek();
        let eb = bwd.open.peek();
        let g_fwd: u64 = match ef {
            Some(e) => e.g as u64,
            None => u32::MAX as u64,
        };
        let g_bwd: u64 = match eb {
            Some(e) => e.g as u64,
            None => u32::MAX as u64,
        };
        let ghost s = run.last();
        assert(is_top(s.fwd, ef) && is_top(s.bwd, eb));
        if (ef.is_none() && eb.is_none()) || g_fwd + g_bwd >= mu as u64 {
            assert(is_over(s, ef, eb));
            break;
        }
        let f_fwd: u64 = match ef {
            Some(e) => e.f,
            None => u64::MAX,
        };
        let f_bwd: u64 = match eb {
            Some(e) => e.f,
            None => u64::MAX,
        };
        if f_fwd <= f_bwd {
            let top = match fwd.open.pop() {
                Some(e) => e,
                None => {
                    break;
                },
            };
            proof {
                lemma_dropped_ok(look_fwd, dst, lead@, s.fwd, top);
                assert(s.fwd.g.contains_key(top.id));
                if exact && (top.g >= mu || s.fwd.closed.contains(top.id)) {
                    lemma_front_dropped(look_fwd, dst, lead@, hf, s.fwd, mu, top);
                }
            }
            if top.g < mu && !fwd.closed.contains(&top.id) {
                let e = look_fwd(top.id);
                proof {
                    lemma_half_expanded_ok(
                        look_fwd,
                        dst,
                        lead@,
                        bwd@.g,
                        simple,
                        apart,
                        limit,
                        half(fwd@, mu, at),
                        top.id,
                        top.g,
                        e,
                    );
                    astar::lemma_undone(s.fwd.closed, top.id);
                    if aims {
                        assert(s.fwd.g[top.id] <= top.g);
                        lemma_goal_forward(half(fwd@, mu, at), bwd@.g, top.id, top.g, e, dst);
                    }
                    if exact {
                        lemma_front_expanded(
                            look_fwd,
                            dst,
                            lead@,
                            hf,
                            s.fwd,
                            mu,
                            at,
                            bwd@.g,
                            top,
                            e,
                        );
                    }
                    if both {
                        lemma_goal_backward(
                            half(fwd@, mu, at),
                            bwd@.g,
                            top.id,
                            top.g,
                            e,
                            dst,
                            src,
                        );
                    }
                }
                half_expand(&mut fwd, &bwd.g, &mut mu, &mut at, top.id, top.g, &e, dst);
            }
        } else {
            let top = match bwd.open.pop() {
                Some(e) => e,
                None => {
                    break;
                },
            };
            proof {
                lemma_dropped_ok(look_bwd, src, tail@, s.bwd, top);
                assert(s.bwd.g.contains_key(top.id));
                if both && (top.g >= mu || s.bwd.closed.contains(top.id)) {
                    lemma_front_dropped(look_bwd, src, tail@, hb, s.bwd, mu, top);
                }
                if exact {
                    assert forall|w: Seq<i64>| #[trigger]
                        astar::is_walk(look_fwd, dst, lead@, w) && cost(lead@, w) < mu implies cost(
                        lead@,
                        w,
                    ) > tail.len() - 1 + tail_h by {
                        lemma_front_top(look_fwd, dst, lead@, hf, s.fwd, mu, w);
                        if cost(lead@, w) <= tail.len() - 1 + tail_h {
                            lemma_rests_top(tail@, tail_h, eb);
                        }
                    }
                }
            }
            if top.g < mu && !bwd.closed.contains(&top.id) {
                let e = look_bwd(top.id);
                proof {
                    lemma_half_expanded_ok(
                        look_bwd,
                        src,
                        tail@,
                        fwd@.g,
                        simple,
                        apart,
                        limit,
                        half(bwd@, mu, at),
                        top.id,
                        top.g,
                        e,
                    );
                    astar::lemma_undone(s.bwd.closed, top.id);
                    if aims {
                        lemma_goal_backward(
                            half(bwd@, mu, at),
                            fwd@.g,
                            top.id,
                            top.g,
                            e,
                            src,
                            dst,
                        );
                    }
                    if both {
                        assert(s.bwd.g[top.id] <= top.g);
                        lemma_goal_forward(half(bwd@, mu, at), fwd@.g, top.id, top.g, e, src);
                        lemma_front_expanded(
                            look_bwd,
                            src,
                            tail@,
                            hb,
                            s.bwd,
                            mu,
                            at,
                            fwd@.g,
                            top,
                            e,
                        );
                    }
                }
                half_expand(&mut bwd, &fwd.g, &mut mu, &mut at, top.id, top.g, &e, src);
            }
        }
        proof {
            let t = DuoView { fwd: fwd@, bwd: bwd@, mu, at };
            assert(duo_took(look_fwd, look_bwd, src, dst, s, ef, eb, t));
            assert(duo_turn(look_fwd, look_bwd, src, dst, s, t));
            run = run.push(t);
        }
    }
    proof {
        let s = run.last();
        if exact && has_ended(s) {
            assert forall|w: Seq<i64>| #[trigger]
                astar::is_walk(look_fwd, dst, lead@, w) && w.len() - 1 <= tail.len() - 1
                    + tail_h implies mu <= w.len() - 1 + tail.len() - 1 by {
                lemma_ended_rests(look_fwd, lead@, tail@, tail_h, hf, s, w);
            }
        }
        if both && has_ended(s) {
            assert forall|w: Seq<i64>, v: Seq<i64>| #[trigger]
                astar::is_walk(look_fwd, dst, lead@, w) && #[trigger] astar::is_walk(
                    look_bwd,
                    src,
                    tail@,
                    v,
                ) implies mu <= w.len() - 1 + v.len() - 1 by {
                lemma_ended_twice(look_fwd, look_bwd, lead@, tail@, hf, hb, s, w, v);
            }
        }
    }
    let m = match at {
        Some(m) => m,
        None => {
            return None;
        },
    };
    proof {
        if exact {
            astar::lemma_descent_leads(look_fwd, dst, lead@, fwd@, m);
            astar::lemma_descent_leads(look_bwd, src, tail@, bwd@, m);
        }
    }
    let pf = match trail(&fwd.from, m, lead[lead.len() - 1]) {
        Some(p) => p,
        None => {
            return None;
        },
    };
    let pb = match trail(&bwd.from, m, dst) {
        Some(p) => p,
        None => {
            return None;
        },
    };
    proof {
        lemma_joined(look_fwd, look_bwd, lead@, tail@, run.last(), m, pf@, pb@);
        if apart {
            lemma_joined_simple(look_fwd, look_bwd, lead@, tail@, run.last(), m, pf@, pb@);
        }
        if aims {
            lemma_goal_joined(fwd@, bwd@, m, lead@.last(), dst, mu, pf@, pb@);
        }
    }
    let mut p = reversed(&pf);
    for i in 1..pb.len()
        invariant
            pb.len() > 0,
            p@ == pf@.reverse() + pb@.subrange(1, i as int),
    {
        p.push(pb[i]);
        assert(pb@.subrange(1, i + 1) =~= pb@.subrange(1, i as int).push(pb@[i as int]));
    }
    let r = Some(p);
    proof {
        let s = run.last();
        assert(p@ =~= pf@.reverse() + pb@.skip(1));
        assert(trail::is_trail(s.fwd.from, s.at->0, lead@.last(), pf@));
        assert(trail::is_trail(s.bwd.from, s.at->0, tail@[0], pb@));
        assert(duo_answer(lead@, tail@, s, r));
        assert(duo_run(look_fwd, look_bwd, lead@[0], tail@[0], start, run));
    }
    r
}

} // verus!
