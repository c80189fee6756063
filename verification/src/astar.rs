//! Best-first search for the route with the fewest jumps.
//!
//! Where a jump can lead from a system is not known here: a search is handed
//! a function that looks around a system and reports the systems in reach,
//! each with an estimate of the jumps that are left from it.

use crate::heap;
use crate::heap::{Entry, OpenSet};
use crate::trail;
use crate::trail::trail;
use std::collections::HashMap;
use std::collections::HashSet;
use vstd::multiset::Multiset;
use vstd::prelude::*;

verus! {

broadcast use vstd::std_specs::hash::group_hash_axioms;

/// A system in reach, and an estimate of the jumps that are left from it.
#[derive(Clone, Copy)]
pub struct Hop {
    pub id: i64,
    pub h: u32,
}

/// What can be reached from a system: whether the destination can, and which
/// other systems.
pub struct Expansion {
    pub arrives: bool,
    pub hops: Vec<Hop>,
}

/// The state of a search in one direction, as mathematics: the jumps made to
/// each system that was found, the system that each was found from, the
/// systems that are done and the entries that wait.
#[verifier::ext_equal]
pub struct SideView {
    pub g: Map<i64, u32>,
    pub from: Map<i64, i64>,
    pub closed: Set<i64>,
    pub open: Multiset<Entry<i64>>,
}

/// The jumps made to `id`, or the largest number where it was not found.
pub open spec fn label(s: SideView, id: i64) -> u32 {
    if s.g.contains_key(id) {
        s.g[id]
    } else {
        u32::MAX
    }
}

/// The state after a jump from `id`, `g` jumps away, to `to`: nothing changes
/// unless the jump is an improvement.
pub open spec fn relaxed(s: SideView, id: i64, g: u32, to: i64, h: u32) -> SideView {
    if g + 1 < label(s, to) {
        SideView {
            g: s.g.insert(to, (g + 1) as u32),
            from: s.from.insert(to, id),
            closed: s.closed,
            open: s.open.insert(
                Entry { f: (g + 1 + h) as u64, g: (g + 1) as u32, id: to },
            ),
        }
    } else {
        s
    }
}

/// The state after one of the hops from `id`: a hop back to `id` itself or to
/// a system that is done counts for nothing.
pub open spec fn hopped(s: SideView, id: i64, g: u32, hop: Hop) -> SideView {
    if hop.id == id || s.closed.contains(hop.id) {
        s
    } else {
        relaxed(s, id, g, hop.id, hop.h)
    }
}

/// The state after the first `n` hops from `id`.
pub open spec fn hopped_all(s: SideView, id: i64, g: u32, hops: Seq<Hop>, n: int) -> SideView
    decreases n,
{
    if n <= 0 {
        s
    } else {
        hopped(hopped_all(s, id, g, hops, n - 1), id, g, hops[n - 1])
    }
}

/// The state after `id`, `g` jumps away, has been expanded towards `dst`.
pub open spec fn expanded(
    s: SideView,
    id: i64,
    g: u32,
    arrives: bool,
    hops: Seq<Hop>,
    dst: i64,
) -> SideView {
    let done = SideView { closed: s.closed.insert(id), ..s };
    let arrived = if arrives && !done.closed.contains(dst) {
        relaxed(done, id, g, dst, 0)
    } else {
        done
    };
    hopped_all(arrived, id, g, hops, hops.len() as int)
}

/// The labels, links and closed systems of the first `n` jumps of a route
/// that is taken as given.
pub open spec fn led(lead: Seq<i64>, n: int) -> SideView
    decreases n,
{
    if n <= 0 {
        SideView {
            g: Map::empty(),
            from: Map::empty(),
            closed: Set::empty(),
            open: Multiset::empty(),
        }
    } else {
        let s = led(lead, n - 1);
        SideView {
            g: s.g.insert(lead[n - 1], (n - 1) as u32),
            from: s.from.insert(lead[n], lead[n - 1]),
            closed: s.closed.insert(lead[n - 1]),
            open: s.open,
        }
    }
}

/// The state in which a search starts from the end of `lead`.
pub open spec fn seeded(lead: Seq<i64>, seed_h: u32) -> SideView {
    let n = lead.len() - 1;
    let s = led(lead, n);
    SideView {
        g: s.g.insert(lead[n], n as u32),
        open: s.open.insert(Entry { f: (n + seed_h) as u64, g: n as u32, id: lead[n] }),
        ..s
    }
}

/// The state of a search in one direction.
pub(crate) struct Side {
    pub(crate) g: HashMap<i64, u32>,
    pub(crate) from: HashMap<i64, i64>,
    pub(crate) closed: HashSet<i64>,
    pub(crate) open: OpenSet<i64>,
}

impl Side {
    pub(crate) open spec fn view(&self) -> SideView {
        SideView {
            g: self.g@,
            from: self.from@,
            closed: self.closed@,
            open: self.open@,
        }
    }

    pub(crate) open spec fn wf(&self) -> bool {
        self.open.wf()
    }

    /// The state in which a search starts from the end of `lead`.
    pub(crate) fn seed(lead: &Vec<i64>, seed_h: u32) -> (s: Side)
        requires
            0 < lead.len() <= u32::MAX,
        ensures
            s.wf(),
            s@ == seeded(lead@, seed_h),
    {
        let mut s = Side {
            g: HashMap::new(),
            from: HashMap::new(),
            closed: HashSet::new(),
            open: OpenSet::new(),
        };
        let n: usize = lead.len() - 1;
        for i in 0..n
            invariant
                n + 1 == lead.len(),
                lead.len() <= u32::MAX,
                s.wf(),
                s@ =~= led(lead@, i as int),
        {
            s.from.insert(lead[i + 1], lead[i]);
            s.g.insert(lead[i], i as u32);
            s.closed.insert(lead[i]);
        }
        s.g.insert(lead[n], n as u32);
        s.open.push(Entry { f: n as u64 + seed_h as u64, g: n as u32, id: lead[n] });
        s
    }

    /// Records a jump where it is an improvement.
    pub(crate) fn relax(&mut self, id: i64, g: u32, to: i64, h: u32) -> (better: bool)
        requires
            old(self).wf(),
            g < u32::MAX,
        ensures
            final(self).wf(),
            final(self)@ == relaxed(old(self)@, id, g, to, h),
            better == (g + 1 < label(old(self)@, to)),
    {
        let known: u32 = match self.g.get(&to) {
            Some(l) => *l,
            None => u32::MAX,
        };
        let tg: u32 = g + 1;
        if tg < known {
            self.g.insert(to, tg);
            self.from.insert(to, id);
            self.open.push(Entry { f: tg as u64 + h as u64, g: tg, id: to });
            true
        } else {
            false
        }
    }

    /// Expands `id`, which is `g` jumps away, towards `dst`.
    fn expand(&mut self, id: i64, g: u32, e: &Expansion, dst: i64)
        requires
            old(self).wf(),
            g < u32::MAX,
        ensures
            final(self).wf(),
            final(self)@ == expanded(old(self)@, id, g, e.arrives, e.hops@, dst),
    {
        self.closed.insert(id);
        if e.arrives && !self.closed.contains(&dst) {
            self.relax(id, g, dst, 0);
        }
        let ghost s = self@;
        assert(s == hopped_all(s, id, g, e.hops@, 0));
        for i in 0..e.hops.len()
            invariant
                self.wf(),
                g < u32::MAX,
                self@ == hopped_all(s, id, g, e.hops@, i as int),
        {
            let hop = e.hops[i];
            if hop.id != id && !self.closed.contains(&hop.id) {
                self.relax(id, g, hop.id, hop.h);
            }
        }
    }
}

/// `e` leads to `b`, where `dst` is the destination.
pub open spec fn gives(e: Expansion, dst: i64, b: i64) -> bool {
    (e.arrives && b == dst) || exists|k: int| 0 <= k < e.hops.len() && (#[trigger] e.hops@[k]).id == b
}

/// Looking around `a` can show that `b` is in reach.
pub open spec fn offers<L: Fn(i64) -> Expansion>(look: L, dst: i64, a: i64, b: i64) -> bool {
    exists|e: Expansion| #[trigger] call_ensures(look, (a,), e) && gives(e, dst, b)
}

/// `b` follows `a` on the route `lead`.
pub open spec fn on_lead(lead: Seq<i64>, a: i64, b: i64) -> bool {
    exists|i: int| 0 <= i < lead.len() - 1 && #[trigger] lead[i] == a && lead[i + 1] == b
}

/// A jump from `a` to `b` is one that was offered, or one of the given route.
pub open spec fn linked<L: Fn(i64) -> Expansion>(
    look: L,
    dst: i64,
    lead: Seq<i64>,
    a: i64,
    b: i64,
) -> bool {
    offers(look, dst, a, b) || on_lead(lead, a, b)
}

/// `p` is a route from the start of `lead` to `dst`.
pub open spec fn is_route<L: Fn(i64) -> Expansion>(
    look: L,
    dst: i64,
    lead: Seq<i64>,
    p: Seq<i64>,
) -> bool {
    &&& p.len() > 0
    &&& p[0] == lead[0]
    &&& p.last() == dst
    &&& forall|i: int| 0 <= i < p.len() - 1 ==> linked(look, dst, lead, #[trigger] p[i], p[i + 1])
}

/// `w` goes from the end of `lead` to `dst` by jumps that are offered, and
/// passes none of the systems before the end of `lead`.
pub open spec fn is_walk<L: Fn(i64) -> Expansion>(
    look: L,
    dst: i64,
    lead: Seq<i64>,
    w: Seq<i64>,
) -> bool {
    &&& w.len() > 0
    &&& w[0] == lead.last()
    &&& w.last() == dst
    &&& forall|i: int| 0 <= i < w.len() - 1 ==> offers(look, dst, #[trigger] w[i], w[i + 1])
    &&& forall|i: int| 0 <= i < w.len() ==> !lead.drop_last().contains(#[trigger] w[i])
}

/// The estimates are those of `h`, which is nothing at `dst` and sinks by at
/// most one with a jump; and looking twice around one system shows the same.
pub open spec fn steady<L: Fn(i64) -> Expansion>(
    look: L,
    dst: i64,
    seed: i64,
    seed_h: u32,
    h: spec_fn(i64) -> int,
) -> bool {
    &&& h(dst) == 0
    &&& h(seed) == seed_h
    &&& forall|a: i64, e: Expansion, k: int| #[trigger]
        call_ensures(look, (a,), e) && 0 <= k < e.hops.len() ==> (#[trigger] e.hops@[k]).h == h(
            e.hops@[k].id,
        ) && h(a) <= h(e.hops@[k].id) + 1
    &&& forall|a: i64, e: Expansion| #[trigger]
        call_ensures(look, (a,), e) && e.arrives ==> h(a) <= 1
    &&& forall|a: i64, d: Expansion, e: Expansion| #[trigger]
        call_ensures(look, (a,), d) && #[trigger] call_ensures(look, (a,), e) ==> d.arrives
            == e.arrives && d.hops@ == e.hops@
}

/// The estimates never promise too little progress per jump.
pub open spec fn consistent<L: Fn(i64) -> Expansion>(
    look: L,
    dst: i64,
    seed: i64,
    seed_h: u32,
) -> bool {
    exists|h: spec_fn(i64) -> int| steady(look, dst, seed, seed_h, h)
}

/// Every system that was found was found by a jump from one found before, or
/// is the start of `lead`.
pub(crate) open spec fn sound<L: Fn(i64) -> Expansion>(look: L, dst: i64, lead: Seq<i64>, s: SideView) -> bool {
    &&& forall|n: i64| #[trigger]
        s.from.contains_key(n) ==> s.g.contains_key(n) && s.g.contains_key(s.from[n]) && linked(
            look,
            dst,
            lead,
            s.from[n],
            n,
        )
    &&& forall|n: i64| #[trigger] s.g.contains_key(n) ==> n == lead[0] || s.from.contains_key(n)
    &&& forall|e: Entry<i64>| #[trigger]
        s.open.contains(e) ==> s.g.contains_key(e.id) && s.g[e.id] <= e.g
}

/// Each link leads to a system with fewer jumps, and none leads away from
/// the start.
pub(crate) open spec fn descending(s: SideView, start: i64) -> bool {
    &&& !s.from.contains_key(start)
    &&& forall|n: i64| #[trigger]
        s.from.contains_key(n) ==> s.g.contains_key(n) && s.g.contains_key(s.from[n])
            && s.g[s.from[n]] < s.g[n]
}

pub(crate) proof fn lemma_relaxed_sound<L: Fn(i64) -> Expansion>(
    look: L,
    dst: i64,
    lead: Seq<i64>,
    s: SideView,
    id: i64,
    g: u32,
    to: i64,
    h: u32,
)
    requires
        sound(look, dst, lead, s),
        s.g.contains_key(id),
        linked(look, dst, lead, id, to),
        g < u32::MAX,
    ensures
        sound(look, dst, lead, relaxed(s, id, g, to, h)),
        relaxed(s, id, g, to, h).g.contains_key(id),
{
    let t = relaxed(s, id, g, to, h);
    if g + 1 < label(s, to) {
        let new = Entry { f: (g + 1 + h) as u64, g: (g + 1) as u32, id: to };
        assert forall|e: Entry<i64>| #[trigger] t.open.contains(e) implies t.g.contains_key(e.id)
            && t.g[e.id] <= e.g by {
            lemma_insert_contains(s.open, new, e);
            if e != new {
                assert(s.open.contains(e));
            }
        }
    }
}

/// What an open set holds after one more entry.
pub(crate) proof fn lemma_insert_contains<T>(
    open: Multiset<Entry<T>>,
    new: Entry<T>,
    e: Entry<T>,
)
    ensures
        open.insert(new).contains(e) <==> e == new || open.contains(e),
{
    broadcast use vstd::multiset::group_multiset_axioms;

}

/// What an open set holds after one entry less.
pub(crate) proof fn lemma_remove_contains<T>(
    open: Multiset<Entry<T>>,
    gone: Entry<T>,
    e: Entry<T>,
)
    ensures
        open.remove(gone).contains(e) ==> open.contains(e),
        e != gone ==> open.remove(gone).contains(e) == open.contains(e),
{
    broadcast use vstd::multiset::group_multiset_axioms;

}

pub(crate) proof fn lemma_relaxed_descending(s: SideView, start: i64, id: i64, g: u32, to: i64, h: u32)
    requires
        descending(s, start),
        s.g.contains_key(id),
        s.g[id] <= g,
        g < u32::MAX,
        s.g.contains_key(start),
        s.g[start] == 0,
    ensures
        descending(relaxed(s, id, g, to, h), start),
        relaxed(s, id, g, to, h).g.contains_key(id),
        relaxed(s, id, g, to, h).g[id] <= g,
        relaxed(s, id, g, to, h).g.contains_key(start),
        relaxed(s, id, g, to, h).g[start] == 0,
{
}

proof fn lemma_expanded_sound<L: Fn(i64) -> Expansion>(
    look: L,
    dst: i64,
    lead: Seq<i64>,
    s: SideView,
    id: i64,
    g: u32,
    e: Expansion,
)
    requires
        sound(look, dst, lead, s),
        s.g.contains_key(id),
        s.g[id] <= g,
        g < u32::MAX,
        call_ensures(look, (id,), e),
    ensures
        sound(look, dst, lead, expanded(s, id, g, e.arrives, e.hops@, dst)),
        descending(s, lead[0]) && s.g.contains_key(lead[0]) && s.g[lead[0]] == 0 ==> {
            let t = expanded(s, id, g, e.arrives, e.hops@, dst);
            descending(t, lead[0]) && t.g.contains_key(lead[0]) && t.g[lead[0]] == 0
        },
{
    let done = SideView { closed: s.closed.insert(id), ..s };
    let arrived = if e.arrives && !done.closed.contains(dst) {
        relaxed(done, id, g, dst, 0)
    } else {
        done
    };
    let falls = descending(s, lead[0]) && s.g.contains_key(lead[0]) && s.g[lead[0]] == 0;
    if e.arrives {
        assert(gives(e, dst, dst));
        assert(offers(look, dst, id, dst));
        lemma_relaxed_sound(look, dst, lead, done, id, g, dst, 0);
        if falls {
            lemma_relaxed_descending(done, lead[0], id, g, dst, 0);
        }
    }
    lemma_hops_sound(look, dst, lead, arrived, id, g, e, e.hops.len() as int);
}

proof fn lemma_hops_sound<L: Fn(i64) -> Expansion>(
    look: L,
    dst: i64,
    lead: Seq<i64>,
    s: SideView,
    id: i64,
    g: u32,
    e: Expansion,
    n: int,
)
    requires
        sound(look, dst, lead, s),
        s.g.contains_key(id),
        s.g[id] <= g,
        g < u32::MAX,
        call_ensures(look, (id,), e),
        0 <= n <= e.hops.len(),
    ensures
        ({
            let t = hopped_all(s, id, g, e.hops@, n);
            &&& sound(look, dst, lead, t)
            &&& t.g.contains_key(id)
            &&& t.g[id] <= g
            &&& descending(s, lead[0]) && s.g.contains_key(lead[0]) && s.g[lead[0]] == 0 ==> (
            descending(t, lead[0]) && t.g.contains_key(lead[0]) && t.g[lead[0]] == 0)
        }),
    decreases n,
{
    if n > 0 {
        lemma_hops_sound(look, dst, lead, s, id, g, e, n - 1);
        let r = hopped_all(s, id, g, e.hops@, n - 1);
        let hop = e.hops@[n - 1];
        assert(gives(e, dst, hop.id));
        assert(offers(look, dst, id, hop.id));
        lemma_relaxed_sound(look, dst, lead, r, id, g, hop.id, hop.h);
        if descending(s, lead[0]) && s.g.contains_key(lead[0]) && s.g[lead[0]] == 0 {
            lemma_relaxed_descending(r, lead[0], id, g, hop.id, hop.h);
        }
    }
}

/// What the given route leaves behind it.
pub(crate) proof fn lemma_led(lead: Seq<i64>, n: int)
    requires
        0 <= n < lead.len() <= u32::MAX,
    ensures
        ({
            let s = led(lead, n);
            &&& forall|x: i64| #[trigger] s.g.contains_key(x) <==> lead.take(n).contains(x)
            &&& forall|x: i64| #[trigger] s.closed.contains(x) <==> lead.take(n).contains(x)
            &&& forall|x: i64| #[trigger]
                s.from.contains_key(x) ==> on_lead(lead, s.from[x], x) && lead.take(n).contains(
                    s.from[x],
                ) && lead.take(n + 1).contains(x)
            &&& forall|i: int| 1 <= i <= n ==> s.from.contains_key(#[trigger] lead[i])
            &&& s.open == Multiset::<Entry<i64>>::empty()
            &&& lead.no_duplicates() ==> {
                &&& forall|i: int| 0 <= i < n ==> s.g[#[trigger] lead[i]] == i
                &&& forall|i: int| 1 <= i <= n ==> s.from[#[trigger] lead[i]] == lead[i - 1]
                &&& !s.from.contains_key(lead[0])
            }
        }),
    decreases n,
{
    if n > 0 {
        lemma_led(lead, n - 1);
        let r = led(lead, n - 1);
        let s = led(lead, n);
        let x = lead[n - 1];
        assert(lead.take(n) =~= lead.take(n - 1).push(x));
        assert(lead.take(n + 1) =~= lead.take(n).push(lead[n]));
        assert(lead.take(n)[n - 1] == x);
        assert(lead.take(n + 1)[n] == lead[n]);
        assert forall|y: i64| lead.take(n - 1).contains(y) implies lead.take(n).contains(y) by {
            let part = lead.take(n - 1);
            let k = choose|k: int| 0 <= k < part.len() && part[k] == y;
            assert(lead.take(n)[k] == y);
        }
        assert forall|y: i64| lead.take(n).contains(y) && y != x implies lead.take(n - 1).contains(
            y,
        ) by {
            let part = lead.take(n);
            let k = choose|k: int| 0 <= k < part.len() && part[k] == y;
            assert(lead.take(n - 1)[k] == y);
        }
        assert forall|y: i64| lead.take(n).contains(y) implies lead.take(n + 1).contains(y) by {
            let part = lead.take(n);
            let k = choose|k: int| 0 <= k < part.len() && part[k] == y;
            assert(lead.take(n + 1)[k] == y);
        }
        assert(on_lead(lead, lead[n - 1], lead[n])) by {
            assert(lead[n - 1] == x);
        }
    } else {
        assert(lead.take(0) =~= Seq::<i64>::empty());
    }
}

pub(crate) proof fn lemma_seeded_sound<L: Fn(i64) -> Expansion>(
    look: L,
    dst: i64,
    lead: Seq<i64>,
    seed_h: u32,
)
    requires
        0 < lead.len() <= u32::MAX,
    ensures
        sound(look, dst, lead, seeded(lead, seed_h)),
        seeded(lead, seed_h).g.contains_key(lead.last()),
        lead.no_duplicates() ==> descending(seeded(lead, seed_h), lead[0]) && seeded(
            lead,
            seed_h,
        ).g.contains_key(lead[0]) && seeded(lead, seed_h).g[lead[0]] == 0,
{
    broadcast use vstd::multiset::group_multiset_axioms;

    let n = lead.len() - 1;
    let r = led(lead, n);
    let s = seeded(lead, seed_h);
    lemma_led(lead, n);
    assert forall|x: i64| #[trigger] s.from.contains_key(x) implies s.g.contains_key(x)
        && s.g.contains_key(s.from[x]) by {
        let part = lead.take(n + 1);
            let k = choose|k: int| 0 <= k < part.len() && part[k] == x;
        if k < n {
            assert(lead.take(n)[k] == x);
        }
    }
    assert forall|x: i64| #[trigger] s.g.contains_key(x) implies x == lead[0]
        || s.from.contains_key(x) by {
        if x != lead[n] {
            let part = lead.take(n);
            let k = choose|k: int| 0 <= k < part.len() && part[k] == x;
            assert(lead[k] == x);
        }
    }
    if lead.no_duplicates() {
        if n > 0 {
            assert(lead.take(n)[0] == lead[0]);
            assert(lead.take(n).contains(lead[0]));
        }
        assert forall|x: i64| #[trigger] s.from.contains_key(x) implies s.g[s.from[x]] < s.g[x] by {
            let part = lead.take(n + 1);
            let k = choose|k: int| 0 <= k < part.len() && part[k] == x;
            assert(lead[k] == x);
            assert(k != 0);
            assert(s.from[lead[k]] == lead[k - 1]);
            assert(lead[k - 1] != lead[n]);
            assert(s.g[lead[k - 1]] == k - 1);
        }
    }
}

/// Along descending links the jumps run out: a trail has no more links than
/// its first system has jumps.
pub(crate) proof fn lemma_descent(s: SideView, start: i64, x: i64, k: nat)
    requires
        descending(s, start),
        s.g.contains_key(x),
        trail::back(s.from, x, k) is Some,
    ensures
        s.g.contains_key(trail::back(s.from, x, k)->0),
        s.g[trail::back(s.from, x, k)->0] + k <= s.g[x],
    decreases k,
{
    if k > 0 {
        lemma_descent(s, start, x, (k - 1) as nat);
    }
}

/// The systems that are not done yet; there are finitely many ids.
pub(crate) open spec fn undone(closed: Set<i64>) -> nat {
    Set::<i64>::full().difference(closed).len()
}

pub(crate) proof fn lemma_undone(closed: Set<i64>, id: i64)
    requires
        !closed.contains(id),
    ensures
        undone(closed.insert(id)) < undone(closed),
{
    broadcast use vstd::set_lib::full_set_properties;

    let rest = Set::<i64>::full().difference(closed);
    assert(Set::<i64>::full().difference(closed.insert(id)) =~= rest.remove(id));
    assert(rest.contains(id));
}

/// A system that was found but is not done waits to be expanded.
pub(crate) open spec fn waits(s: SideView, n: i64) -> bool {
    exists|e: Entry<i64>| #[trigger] s.open.contains(e) && e.id == n && e.g == s.g[n]
}

/// What holds of the labels and the open set of a search whose estimates are
/// those of `h`.
pub(crate) open spec fn ordered(lead: Seq<i64>, limit: u32, h: spec_fn(i64) -> int,
    s: SideView) -> bool {
    let before = lead.drop_last();
    &&& forall|e: Entry<i64>| #[trigger]
        s.open.contains(e) ==> s.g.contains_key(e.id) && s.g[e.id] <= e.g && e.f == e.g + h(e.id)
    &&& forall|n: i64| #[trigger]
        s.g.contains_key(n) && !s.closed.contains(n) ==> s.g[n] >= limit || waits(s, n)
    &&& forall|c: i64| #[trigger]
        s.closed.contains(c) && !before.contains(c) ==> s.g.contains_key(c)
    &&& s.g.contains_key(lead.last()) && s.g[lead.last()] <= lead.len() - 1
}

/// No system that is done ranks behind `f`, and no entry that waits ranks
/// before it.
pub(crate) open spec fn split_at_rank(lead: Seq<i64>, h: spec_fn(i64) -> int, f: int,
    s: SideView) -> bool {
    &&& forall|c: i64| #[trigger]
        s.closed.contains(c) && !lead.drop_last().contains(c) ==> s.g[c] + h(c) <= f
    &&& forall|e: Entry<i64>| #[trigger] s.open.contains(e) ==> f <= e.f
}

/// The systems in reach of `c` have at most one jump more.
pub(crate) open spec fn settled<L: Fn(i64) -> Expansion>(
    look: L,
    dst: i64,
    lead: Seq<i64>,
    s: SideView,
    c: i64,
) -> bool {
    forall|m: i64| #[trigger]
        offers(look, dst, c, m) && !lead.drop_last().contains(m) ==> s.g.contains_key(m) && s.g[m]
            <= s.g[c] + 1
}

/// What holds between two expansions of a search with steady estimates.
pub(crate) open spec fn best_first<L: Fn(i64) -> Expansion>(
    look: L,
    dst: i64,
    lead: Seq<i64>,
    limit: u32,
    h: spec_fn(i64) -> int,
    s: SideView,
) -> bool {
    &&& ordered(lead, limit, h, s)
    &&& exists|f: int| split_at_rank(lead, h, f, s)
    &&& forall|c: i64| #[trigger]
        s.closed.contains(c) && !lead.drop_last().contains(c) ==> settled(look, dst, lead, s, c)
    &&& !s.closed.contains(dst) || lead.drop_last().contains(dst)
}

/// What one relaxation keeps while `id` is expanded.
proof fn lemma_relaxed_ordered(
    lead: Seq<i64>,
    limit: u32,
    h: spec_fn(i64) -> int,
    s: SideView,
    id: i64,
    g: u32,
    to: i64,
    est: u32,
)
    requires
        ordered(lead, limit, h, s),
        split_at_rank(lead, h, g + h(id), s),
        !s.closed.contains(to),
        s.closed.contains(id),
        g + 1 < u32::MAX,
        est == h(to),
        h(id) <= h(to) + 1,
    ensures
        ordered(lead, limit, h, relaxed(s, id, g, to, est)),
        split_at_rank(lead, h, g + h(id), relaxed(s, id, g, to, est)),
        relaxed(s, id, g, to, est).closed == s.closed,
        relaxed(s, id, g, to, est).g.contains_key(to),
        relaxed(s, id, g, to, est).g[to] <= g + 1,
        forall|m: i64| #[trigger]
            s.g.contains_key(m) ==> relaxed(s, id, g, to, est).g.contains_key(m) && relaxed(
                s,
                id,
                g,
                to,
                est,
            ).g[m] <= s.g[m],
        forall|m: i64| #[trigger]
            s.closed.contains(m) && s.g.contains_key(m) ==> relaxed(s, id, g, to, est).g[m]
                == s.g[m],
{
    let t = relaxed(s, id, g, to, est);
    if g + 1 < label(s, to) {
        let new = Entry { f: (g + 1 + est) as u64, g: (g + 1) as u32, id: to };
        assert forall|e: Entry<i64>| #[trigger] t.open.contains(e) implies e == new
            || s.open.contains(e) by {
            lemma_insert_contains(s.open, new, e);
        }
        assert(t.open.contains(new)) by {
            lemma_insert_contains(s.open, new, new);
        }
        assert forall|n: i64| #[trigger]
            t.g.contains_key(n) && !t.closed.contains(n) implies t.g[n] >= limit || waits(t, n) by {
            if n != to {
                assert(s.g.contains_key(n));
                if s.g[n] < limit {
                    let e = choose|e: Entry<i64>| #[trigger]
                        s.open.contains(e) && e.id == n && e.g == s.g[n];
                    lemma_insert_contains(s.open, new, e);
                    assert(t.open.contains(e));
                }
            }
        }
    }
}

/// What the first `n` hops of an expansion keep, and what they reach.
proof fn lemma_hops_ordered<L: Fn(i64) -> Expansion>(
    look: L,
    dst: i64,
    lead: Seq<i64>,
    limit: u32,
    h: spec_fn(i64) -> int,
    s: SideView,
    id: i64,
    g: u32,
    e: Expansion,
    n: int,
)
    requires
        steady(look, dst, lead.last(), h(lead.last()) as u32, h),
        call_ensures(look, (id,), e),
        ordered(lead, limit, h, s),
        split_at_rank(lead, h, g + h(id), s),
        s.closed.contains(id),
        s.g.contains_key(id),
        s.g[id] == g,
        g + 1 < u32::MAX,
        0 <= n <= e.hops.len(),
    ensures
        ({
            let t = hopped_all(s, id, g, e.hops@, n);
            &&& ordered(lead, limit, h, t)
            &&& split_at_rank(lead, h, g + h(id), t)
            &&& t.closed == s.closed
            &&& forall|m: i64| #[trigger]
                s.g.contains_key(m) ==> t.g.contains_key(m) && t.g[m] <= s.g[m]
            &&& forall|m: i64| #[trigger]
                s.closed.contains(m) && s.g.contains_key(m) ==> t.g[m] == s.g[m]
            &&& forall|k: int|
                0 <= k < n && !lead.drop_last().contains((#[trigger] e.hops@[k]).id)
                    ==> t.g.contains_key(e.hops@[k].id) && t.g[e.hops@[k].id] <= g + 1
        }),
    decreases n,
{
    if n > 0 {
        lemma_hops_ordered(look, dst, lead, limit, h, s, id, g, e, n - 1);
        let r = hopped_all(s, id, g, e.hops@, n - 1);
        let hop = e.hops@[n - 1];
        if hop.id != id && !r.closed.contains(hop.id) {
            lemma_relaxed_ordered(lead, limit, h, r, id, g, hop.id, hop.h);
        }
    }
}

/// One expansion of a search with steady estimates keeps what holds between
/// the expansions.
pub(crate) proof fn lemma_expanded_best_first<L: Fn(i64) -> Expansion>(
    look: L,
    dst: i64,
    lead: Seq<i64>,
    limit: u32,
    h: spec_fn(i64) -> int,
    s: SideView,
    top: Entry<i64>,
    e: Expansion,
)
    requires
        steady(look, dst, lead.last(), h(lead.last()) as u32, h),
        best_first(look, dst, lead, limit, h, s),
        heap::is_least(s.open, top),
        top.g < limit < u32::MAX,
        !s.closed.contains(top.id),
        !lead.drop_last().contains(top.id),
        top.id != dst,
        call_ensures(look, (top.id,), e),
    ensures
        ({
            let rest = SideView { open: s.open.remove(top), ..s };
            best_first(
                look,
                dst,
                lead,
                limit,
                h,
                expanded(rest, top.id, top.g, e.arrives, e.hops@, dst),
            )
        }),
{
    let id = top.id;
    let g = top.g;
    let rest = SideView { open: s.open.remove(top), ..s };
    let done = SideView { closed: rest.closed.insert(id), ..rest };
    // The entry with the true label of `id` ranks no later than any other of
    // its entries, so `top` carries the true label.
    assert(waits(s, id));
    assert(g == s.g[id]);
    assert forall|o: Entry<i64>| #[trigger] rest.open.contains(o) implies s.open.contains(o) by {
        lemma_remove_contains(s.open, top, o);
    }
    assert forall|n: i64| #[trigger] done.g.contains_key(n) && !done.closed.contains(n) implies done.g[n]
        >= limit || waits(done, n) by {
        assert(s.g.contains_key(n));
        if s.g[n] < limit {
            let o = choose|o: Entry<i64>| #[trigger]
                s.open.contains(o) && o.id == n && o.g == s.g[n];
            lemma_remove_contains(s.open, top, o);
            assert(done.open.contains(o));
        }
    }
    assert(ordered(lead, limit, h, done));
    assert(split_at_rank(lead, h, g + h(id), done)) by {
        let f = choose|f: int| split_at_rank(lead, h, f, s);
        assert(f <= top.f);
        assert(top.f == g + h(id));
    }
    let arrived = if e.arrives && !done.closed.contains(dst) {
        relaxed(done, id, g, dst, 0)
    } else {
        done
    };
    if e.arrives && !done.closed.contains(dst) {
        lemma_relaxed_ordered(lead, limit, h, done, id, g, dst, 0);
    }
    lemma_hops_ordered(look, dst, lead, limit, h, arrived, id, g, e, e.hops.len() as int);
    let t = hopped_all(arrived, id, g, e.hops@, e.hops.len() as int);
    assert forall|c: i64| #[trigger]
        t.closed.contains(c) && !lead.drop_last().contains(c) implies settled(
        look,
        dst,
        lead,
        t,
        c,
    ) by {
        if c != id {
            assert(s.closed.contains(c));
            assert(settled(look, dst, lead, s, c));
            assert forall|m: i64| #[trigger]
                offers(look, dst, c, m) && !lead.drop_last().contains(m) implies t.g.contains_key(m)
                && t.g[m] <= t.g[c] + 1 by {
                assert(s.g.contains_key(m));
                assert(arrived.g.contains_key(m));
            }
        } else {
            assert forall|m: i64| #[trigger]
                offers(look, dst, c, m) && !lead.drop_last().contains(m) implies t.g.contains_key(m)
                && t.g[m] <= t.g[c] + 1 by {
                let d = choose|d: Expansion| #[trigger]
                    call_ensures(look, (id,), d) && gives(d, dst, m);
                assert(gives(e, dst, m));
                if e.arrives && m == dst {
                    assert(arrived.g.contains_key(dst));
                }
            }
        }
    }
}

/// As far as a walk has been followed, its systems are done and their labels
/// count no more jumps than the walk; the first that is not done was found
/// with no more jumps than the walk makes to it.
pub(crate) proof fn lemma_walk_front<L: Fn(i64) -> Expansion>(
    look: L,
    dst: i64,
    lead: Seq<i64>,
    limit: u32,
    h: spec_fn(i64) -> int,
    s: SideView,
    w: Seq<i64>,
    i: int,
) -> (j: int)
    requires
        best_first(look, dst, lead, limit, h, s),
        is_walk(look, dst, lead, w),
        0 <= i < w.len(),
    ensures
        0 <= j <= i,
        s.g.contains_key(w[j]),
        s.g[w[j]] <= lead.len() - 1 + j,
        j < i ==> !s.closed.contains(w[j]),
    decreases i,
{
    if i == 0 {
        0
    } else {
        let j = lemma_walk_front(look, dst, lead, limit, h, s, w, i - 1);
        if !s.closed.contains(w[j]) {
            j
        } else {
            assert(j == i - 1);
            assert(settled(look, dst, lead, s, w[j]));
            assert(offers(look, dst, w[i - 1], w[i - 1 + 1]));
            i
        }
    }
}

/// Steady estimates never exceed the jumps that a walk still makes.
pub(crate) proof fn lemma_walk_estimate<L: Fn(i64) -> Expansion>(
    look: L,
    dst: i64,
    lead: Seq<i64>,
    h: spec_fn(i64) -> int,
    w: Seq<i64>,
    j: int,
)
    requires
        steady(look, dst, lead.last(), h(lead.last()) as u32, h),
        is_walk(look, dst, lead, w),
        0 <= j < w.len(),
    ensures
        h(w[j]) <= w.len() - 1 - j,
    decreases w.len() - j,
{
    if j < w.len() - 1 {
        lemma_walk_estimate(look, dst, lead, h, w, j + 1);
        assert(offers(look, dst, w[j], w[j + 1]));
        let e = choose|e: Expansion| #[trigger]
            call_ensures(look, (w[j],), e) && gives(e, dst, w[j + 1]);
        if !(e.arrives && w[j + 1] == dst) {
            let k = choose|k: int| 0 <= k < e.hops.len() && (#[trigger] e.hops@[k]).id == w[j + 1];
            assert(e.hops@[k].h == h(e.hops@[k].id));
        }
    }
}

/// How a search in one direction ends.
pub enum Outcome {
    /// A route was found.
    Found(Vec<i64>),
    /// There is none with fewer jumps than the limit.
    NoBetter,
    /// The time ran out.
    OutOfTime,
}

/// The nodes of `p` in reverse order.
pub(crate) fn reversed(p: &Vec<i64>) -> (r: Vec<i64>)
    ensures
        r@ == p@.reverse(),
{
    let mut r: Vec<i64> = Vec::new();
    let mut k: usize = p.len();
    while k > 0
        invariant
            k <= p.len(),
            r.len() == p.len() - k,
            forall|j: int| 0 <= j < r.len() ==> #[trigger] r@[j] == p@[p.len() - 1 - j],
        decreases k,
    {
        k = k - 1;
        r.push(p[k]);
    }
    assert(r@ =~= p@.reverse());
    r
}

/// A trail from `dst` back to the start of `lead`, turned round, is a route;
/// where the links descend it has no more jumps than `dst` has.
proof fn lemma_trail_is_route<L: Fn(i64) -> Expansion>(
    look: L,
    dst: i64,
    lead: Seq<i64>,
    s: SideView,
    p: Seq<i64>,
)
    requires
        sound(look, dst, lead, s),
        lead.len() > 0,
        trail::is_trail(s.from, dst, lead[0], p),
        s.g.contains_key(dst),
    ensures
        is_route(look, dst, lead, p.reverse()),
        descending(s, lead[0]) ==> p.len() - 1 <= s.g[dst],
{
    let r = p.reverse();
    assert(trail::back(s.from, dst, 0) == Some(p[0]));
    assert forall|i: int| 0 <= i < r.len() - 1 implies linked(
        look,
        dst,
        lead,
        #[trigger] r[i],
        r[i + 1],
    ) by {
        let k = p.len() - 2 - i;
        trail::lemma_trail_links(s.from, dst, lead[0], p, k);
        assert(r[i] == p[k + 1]);
        assert(r[i + 1] == p[k]);
        assert(s.from.contains_key(p[k]));
    }
    if descending(s, lead[0]) {
        assert(trail::back(s.from, dst, (p.len() - 1) as nat) == Some(p[p.len() - 1]));
        lemma_descent(s, lead[0], dst, (p.len() - 1) as nat);
    }
}

/// Where the links descend, they lead from every system back to the start.
pub(crate) proof fn lemma_descent_leads<L: Fn(i64) -> Expansion>(
    look: L,
    dst: i64,
    lead: Seq<i64>,
    s: SideView,
    x: i64,
)
    requires
        sound(look, dst, lead, s),
        lead.len() > 0,
        descending(s, lead[0]),
        s.g.contains_key(x),
    ensures
        trail::leads(s.from, x, lead[0]),
    decreases s.g[x],
{
    if x == lead[0] {
        assert(trail::back(s.from, x, 0) == Some(lead[0]));
    } else {
        let y = s.from[x];
        assert(s.from.contains_key(x));
        lemma_descent_leads(look, dst, lead, s, y);
        let k = choose|k: nat| trail::back(s.from, y, k) == Some(lead[0]);
        lemma_back_step(s.from, x, k);
        assert(trail::back(s.from, x, (k + 1) as nat) == Some(lead[0]));
    }
}

/// One link and then `k` are `k + 1` links.
pub(crate) proof fn lemma_back_step<T>(links: Map<T, T>, x: T, k: nat)
    requires
        links.contains_key(x),
    ensures
        trail::back(links, x, k + 1) == trail::back(links, links[x], k),
    decreases k,
{
    if k > 0 {
        lemma_back_step(links, x, (k - 1) as nat);
    } else {
        assert(trail::back(links, x, 0) == Some(x));
        assert(trail::back(links, x, 1) == Some(links[x])) by {
            assert(trail::back(links, x, (1 - 1) as nat) == Some(x));
        }
    }
}

/// One turn of a search in one direction: an entry that none ranks before is
/// taken; it counts for nothing where it is at the limit or its system is
/// done, and else its system is expanded.
pub open spec fn one_way_turn<L: Fn(i64) -> Expansion>(
    look: L,
    dst: i64,
    limit: u32,
    s: SideView,
    t: SideView,
) -> bool {
    exists|top: Entry<i64>| #[trigger] heap::is_least(s.open, top) && one_way_took(look, dst, limit, s, top, t)
}

/// The state `t` follows on `s` when `top` is taken.
pub open spec fn one_way_took<L: Fn(i64) -> Expansion>(
    look: L,
    dst: i64,
    limit: u32,
    s: SideView,
    top: Entry<i64>,
    t: SideView,
) -> bool {
    let rest = SideView { open: s.open.remove(top), ..s };
    if top.g >= limit {
        t == rest
    } else if top.id == dst {
        false
    } else if s.closed.contains(top.id) {
        t == rest
    } else {
        exists|e: Expansion| #[trigger]
            call_ensures(look, (top.id,), e) && t == expanded(
                rest,
                top.id,
                top.g,
                e.arrives,
                e.hops@,
                dst,
            )
    }
}

/// `run` holds the states of a search in one direction, turn by turn.
pub open spec fn one_way_run<L: Fn(i64) -> Expansion>(
    look: L,
    dst: i64,
    limit: u32,
    start: SideView,
    run: Seq<SideView>,
) -> bool {
    &&& run.len() > 0
    &&& run[0] == start
    &&& forall|i: int|
        0 <= i < run.len() - 1 ==> one_way_turn(look, dst, limit, #[trigger] run[i], run[i + 1])
}

/// The answer that a search in one direction owes in the state `s`.
pub open spec fn one_way_answer(
    lead: Seq<i64>,
    dst: i64,
    limit: u32,
    s: SideView,
    r: Outcome,
) -> bool {
    let arrived = exists|top: Entry<i64>| #[trigger]
        heap::is_least(s.open, top) && top.g < limit && top.id == dst;
    match r {
        Outcome::Found(p) => arrived && trail::is_trail(s.from, dst, lead[0], p@.reverse()),
        Outcome::NoBetter => s.open.len() == 0 || (arrived && !trail::leads(s.from, dst, lead[0])),
        Outcome::OutOfTime => s.open.len() > 0,
    }
}

/// The answer `r` is that of a run of the search.
pub open spec fn one_way_result<L: Fn(i64) -> Expansion>(
    look: L,
    lead: Seq<i64>,
    seed_h: u32,
    dst: i64,
    limit: u32,
    r: Outcome,
) -> bool {
    exists|run: Seq<SideView>| #[trigger]
        one_way_run(look, dst, limit, seeded(lead, seed_h), run) && one_way_answer(
            lead,
            dst,
            limit,
            run.last(),
            r,
        )
}

/// Searches from the end of `lead` for a way to `dst` with fewer jumps than
/// `limit`, the jumps of `lead` counted.
///
/// A route that is found starts where `lead` starts, ends at `dst`, makes
/// only jumps that `look` offered or that `lead` makes, and passes no system
/// twice. Where the estimates
/// are consistent and `lead` passes no system twice, the answer is exact: no
/// walk from the end of `lead` needs fewer jumps than the route that is
/// found, and where no route is found no walk stays below the limit.
pub fn search_one_way<L: Fn(i64) -> Expansion, T: Fn() -> bool>(
    lead: &Vec<i64>,
    seed_h: u32,
    dst: i64,
    limit: u32,
    look: L,
    late: T,
) -> (r: Outcome)
    requires
        0 < lead.len() <= u32::MAX,
        forall|id: i64| #[trigger] call_requires(look, (id,)),
        call_requires(late, ()),
    ensures
        r matches Outcome::Found(p) ==> is_route(look, dst, lead@, p@),
        r matches Outcome::Found(p) ==> lead@.no_duplicates() ==> p.len() - 1 < limit,
        r matches Outcome::Found(p) ==> p@.no_duplicates(),
        r is OutOfTime ==> call_ensures(late, (), true),
        one_way_result(look, lead@, seed_h, dst, limit, r),
        limit < u32::MAX && lead@.no_duplicates() && consistent(
            look,
            dst,
            lead@.last(),
            seed_h,
        ) ==> {
            &&& r matches Outcome::Found(p) ==> forall|w: Seq<i64>| #[trigger]
                is_walk(look, dst, lead@, w) ==> p.len() <= lead.len() - 1 + w.len()
            &&& r is NoBetter ==> forall|w: Seq<i64>| #[trigger]
                is_walk(look, dst, lead@, w) ==> limit <= lead.len() - 1 + w.len() - 1
        },
{
    let mut s = Side::seed(lead, seed_h);
    let ghost mut run: Seq<SideView> = seq![s@];
    let ghost simple = lead@.no_duplicates();
    let ghost exact = limit < u32::MAX && simple && consistent(look, dst, lead@.last(), seed_h);
    let ghost h = choose|h: spec_fn(i64) -> int| steady(look, dst, lead@.last(), seed_h, h);
    proof {
        lemma_seeded_sound(look, dst, lead@, seed_h);
        lemma_led(lead@, lead@.len() - 1);
        assert(lead@.drop_last() =~= lead@.take(lead@.len() - 1));
        if exact {
            lemma_seeded_best_first(look, dst, lead@, limit, seed_h, h);
        }
    }
    loop
        invariant
            0 < lead.len() <= u32::MAX,
            forall|id: i64| #[trigger] call_requires(look, (id,)),
            call_requires(late, ()),
            simple == lead@.no_duplicates(),
            exact == (limit < u32::MAX && simple && consistent(look, dst, lead@.last(), seed_h)),
            exact ==> steady(look, dst, lead@.last(), seed_h, h),
            s.wf(),
            one_way_run(look, dst, limit, seeded(lead@, seed_h), run),
            run.last() == s@,
            sound(look, dst, lead@, s@),
            simple ==> descending(s@, lead@[0]) && s@.g.contains_key(lead@[0]) && s@.g[lead@[0]]
                == 0,
            forall|x: i64| #[trigger] lead@.drop_last().contains(x) ==> s@.closed.contains(x),
            exact ==> best_first(look, dst, lead@, limit, h, s@),
        decreases undone(s@.closed), s@.open.len(),
    {
        let ghost old = s@;
        let top = match s.open.pop() {
            Some(e) => e,
            None => {
                proof {
                    if exact {
                        assert forall|w: Seq<i64>| #[trigger]
                            is_walk(look, dst, lead@, w) implies limit <= lead.len() - 1 + w.len()
                            - 1 by {
                            let j = lemma_walk_front(
                                look,
                                dst,
                                lead@,
                                limit,
                                h,
                                old,
                                w,
                                w.len() - 1,
                            );
                            assert(!old.closed.contains(w[j]));
                            if old.g[w[j]] < limit {
                                assert(waits(old, w[j]));
                                lemma_empty_open(old.open);
                            }
                        }
                    }
                }
                return Outcome::NoBetter;
            },
        };
        proof {
            broadcast use vstd::multiset::group_multiset_axioms;

            assert(s@ == SideView { open: old.open.remove(top), ..old });
            assert(s@.open.len() < old.open.len());
            assert forall|o: Entry<i64>| #[trigger] s@.open.contains(o) implies old.open.contains(
                o,
            ) by {
                lemma_remove_contains(old.open, top, o);
            }
            assert(old.g.contains_key(top.id));
        }
        if late() {
            return Outcome::OutOfTime;
        }
        if top.g >= limit {
            proof {
                if exact {
                    lemma_dropped_best_first(look, dst, lead@, limit, h, old, top);
                }
                assert(one_way_took(look, dst, limit, old, top, s@));
                run = run.push(s@);
            }
            continue;
        }
        if top.id == dst {
            let ghost g_dst = s@.g[dst];
            let p = match trail(&s.from, dst, lead[0]) {
                Some(p) => p,
                None => {
                    proof {
                        if simple {
                            lemma_descent_leads(look, dst, lead@, s@, dst);
                        }
                        assert(heap::is_least(old.open, top));
                        assert(one_way_answer(lead@, dst, limit, run.last(), Outcome::NoBetter));
                    }
                    return Outcome::NoBetter;
                },
            };
            proof {
                lemma_trail_is_route(look, dst, lead@, s@, p@);
                trail::lemma_trail_simple(s@.from, dst, lead@[0], p@);
                if exact {
                    assert forall|w: Seq<i64>| #[trigger] is_walk(look, dst, lead@, w) implies p.len()
                        <= lead.len() - 1 + w.len() by {
                        let j = lemma_walk_front(look, dst, lead@, limit, h, old, w, w.len() - 1);
                        assert(!old.closed.contains(w[j]));
                        if old.g[w[j]] < limit {
                            assert(waits(old, w[j]));
                            lemma_walk_estimate(look, dst, lead@, h, w, j);
                        }
                    }
                }
            }
            let r = Outcome::Found(reversed(&p));
            proof {
                assert(p@.reverse().reverse() =~= p@);
                assert(heap::is_least(old.open, top));
                assert(one_way_answer(lead@, dst, limit, run.last(), r));
            }
            return r;
        }
        if s.closed.contains(&top.id) {
            proof {
                if exact {
                    lemma_dropped_best_first(look, dst, lead@, limit, h, old, top);
                }
                assert(one_way_took(look, dst, limit, old, top, s@));
                run = run.push(s@);
            }
            continue;
        }
        let e = look(top.id);
        proof {
            lemma_expanded_sound(look, dst, lead@, s@, top.id, top.g, e);
            if exact {
                lemma_expanded_best_first(look, dst, lead@, limit, h, old, top, e);
            }
            lemma_undone(old.closed, top.id);
            lemma_expanded_closed(s@, top.id, top.g, e.arrives, e.hops@, dst);
        }
        s.expand(top.id, top.g, &e, dst);
        proof {
            assert(one_way_took(look, dst, limit, old, top, s@));
            run = run.push(s@);
        }
    }
}

/// An expansion closes the system that is expanded and no other.
proof fn lemma_expanded_closed(
    s: SideView,
    id: i64,
    g: u32,
    arrives: bool,
    hops: Seq<Hop>,
    dst: i64,
)
    ensures
        expanded(s, id, g, arrives, hops, dst).closed == s.closed.insert(id),
{
    let done = SideView { closed: s.closed.insert(id), ..s };
    let arrived = if arrives && !done.closed.contains(dst) {
        relaxed(done, id, g, dst, 0)
    } else {
        done
    };
    lemma_hopped_closed(arrived, id, g, hops, hops.len() as int);
}

pub(crate) proof fn lemma_hopped_closed(s: SideView, id: i64, g: u32, hops: Seq<Hop>, n: int)
    ensures
        hopped_all(s, id, g, hops, n).closed == s.closed,
    decreases n,
{
    if n > 0 {
        lemma_hopped_closed(s, id, g, hops, n - 1);
    }
}

pub(crate) proof fn lemma_empty_open<T>(open: Multiset<Entry<T>>)
    requires
        open.len() == 0,
    ensures
        forall|e: Entry<T>| !(#[trigger] open.contains(e)),
{
    broadcast use vstd::multiset::group_multiset_axioms;
    broadcast use vstd::multiset::group_multiset_properties;

    assert(open =~= Multiset::<Entry<T>>::empty());
}

/// Dropping an entry that is of no use keeps what holds between expansions.
pub(crate) proof fn lemma_dropped_best_first<L: Fn(i64) -> Expansion>(
    look: L,
    dst: i64,
    lead: Seq<i64>,
    limit: u32,
    h: spec_fn(i64) -> int,
    s: SideView,
    top: Entry<i64>,
)
    requires
        best_first(look, dst, lead, limit, h, s),
        top.g >= limit || s.closed.contains(top.id),
    ensures
        best_first(look, dst, lead, limit, h, SideView { open: s.open.remove(top), ..s }),
{
    let t = SideView { open: s.open.remove(top), ..s };
    assert forall|o: Entry<i64>| #[trigger] t.open.contains(o) implies s.open.contains(o) by {
        lemma_remove_contains(s.open, top, o);
    }
    assert forall|n: i64| #[trigger] t.g.contains_key(n) && !t.closed.contains(n) implies t.g[n]
        >= limit || waits(t, n) by {
        assert(s.g.contains_key(n));
        if s.g[n] < limit {
            let o = choose|o: Entry<i64>| #[trigger]
                s.open.contains(o) && o.id == n && o.g == s.g[n];
            lemma_remove_contains(s.open, top, o);
            assert(t.open.contains(o));
        }
    }
    let f = choose|f: int| split_at_rank(lead, h, f, s);
    assert(split_at_rank(lead, h, f, t));
    assert forall|c: i64| #[trigger]
        t.closed.contains(c) && !lead.drop_last().contains(c) implies settled(
        look,
        dst,
        lead,
        t,
        c,
    ) by {
        assert(settled(look, dst, lead, s, c));
    }
}

/// What holds between expansions holds at the start.
pub(crate) proof fn lemma_seeded_best_first<L: Fn(i64) -> Expansion>(
    look: L,
    dst: i64,
    lead: Seq<i64>,
    limit: u32,
    seed_h: u32,
    h: spec_fn(i64) -> int,
)
    requires
        0 < lead.len() <= u32::MAX,
        lead.no_duplicates(),
        steady(look, dst, lead.last(), seed_h, h),
    ensures
        best_first(look, dst, lead, limit, h, seeded(lead, seed_h)),
{
    let n = lead.len() - 1;
    let r = led(lead, n);
    let s = seeded(lead, seed_h);
    lemma_led(lead, n);
    assert(lead.drop_last() =~= lead.take(n));
    let new = Entry { f: (n + seed_h) as u64, g: n as u32, id: lead[n] };
    assert forall|e: Entry<i64>| #[trigger] s.open.contains(e) <==> e == new by {
        broadcast use vstd::multiset::group_multiset_axioms;

        lemma_insert_contains(r.open, new, e);
    }
    assert(s.open.contains(new));
    assert(split_at_rank(lead, h, n + seed_h, s));
}

} // verus!
