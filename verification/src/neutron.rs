//! The route along neutron stars, whose jets boost the next jump.

use crate::astar;
use crate::astar::{search_one_way, Expansion, Outcome};
use crate::both_ways;
use crate::both_ways::search_both_ways;
use crate::carrier;
use crate::models::{NeutronRouteQuery, RouteNode};
use crate::route;
use crate::route::{choose_path, Chosen};
use crate::text;
use crate::text::{same, to_lowercase};
use std::collections::HashMap;
use vstd::prelude::*;

verus! {

broadcast use vstd::std_specs::hash::group_hash_axioms;

/// The radii in which the neutron star nearest to a waypoint is looked for, in
/// light years.
pub open spec fn waypoint_radii() -> Seq<u32> {
    seq![300, 800, 1500, 3000]
}

/// `found` is the star for the waypoint `i`: the first that a radius shows.
pub open spec fn is_star_for<N: Fn(usize, u32) -> Option<RouteNode>>(
    nearest: N,
    i: usize,
    found: Option<RouteNode>,
) -> bool {
    match found {
        Some(n) => exists|k: int|
            0 <= k < 4 && call_ensures(nearest, (i, #[trigger] waypoint_radii()[k]), Some(n))
                && forall|j: int|
                0 <= j < k ==> call_ensures(
                    nearest,
                    (i, #[trigger] waypoint_radii()[j]),
                    None::<RouteNode>,
                ),
        None => forall|j: int|
            0 <= j < 4 ==> call_ensures(
                nearest,
                (i, #[trigger] waypoint_radii()[j]),
                None::<RouteNode>,
            ),
    }
}

/// The neutron star for the waypoint `i`.
fn star_for<N: Fn(usize, u32) -> Option<RouteNode>>(nearest: &N, i: usize) -> (r: Option<RouteNode>)
    requires
        forall|i: usize, radius: u32| #[trigger] call_requires(*nearest, (i, radius)),
    ensures
        is_star_for(*nearest, i, r),
{
    let radii: [u32; 4] = [300, 800, 1500, 3000];
    assert(radii@ =~= waypoint_radii());
    for k in 0..4
        invariant
            forall|i: usize, radius: u32| #[trigger] call_requires(*nearest, (i, radius)),
            radii@ == waypoint_radii(),
            forall|j: int|
                0 <= j < k ==> call_ensures(
                    *nearest,
                    (i, #[trigger] waypoint_radii()[j]),
                    None::<RouteNode>,
                ),
    {
        let radius: u32 = radii[k];
        assert(radius == waypoint_radii()[k as int]);
        match nearest(i, radius) {
            Some(n) => {
                return Some(n);
            },
            None => {},
        }
    }
    None
}

/// The waypoints for the stars that were found: one that would follow on
/// itself counts once.
pub open spec fn joined_up(found: Seq<Option<RouteNode>>) -> Seq<RouteNode>
    decreases found.len(),
{
    if found.len() == 0 {
        Seq::empty()
    } else {
        let before = joined_up(found.drop_last());
        match found.last() {
            Some(n) => if before.len() > 0 && before.last().id64 == n.id64 {
                before
            } else {
                before.push(n)
            },
            None => before,
        }
    }
}

/// The waypoints of a route of `segments` segments: a neutron star near the
/// end of each but the last, and the destination.
pub fn waypoints<N: Fn(usize, u32) -> Option<RouteNode>>(
    segments: usize,
    dst: RouteNode,
    nearest: N,
) -> (r: Vec<RouteNode>)
    requires
        forall|i: usize, radius: u32| #[trigger] call_requires(nearest, (i, radius)),
    ensures
        exists|found: Seq<Option<RouteNode>>|
            found.len() == (if segments > 1 {
                segments - 1
            } else {
                0
            }) && (forall|i: int|
                0 <= i < found.len() ==> is_star_for(
                    nearest,
                    (i + 1) as usize,
                    #[trigger] found[i],
                )) && r@ == #[trigger] joined_up(found).push(dst),
{
    let mut r: Vec<RouteNode> = Vec::new();
    let ghost mut found: Seq<Option<RouteNode>> = Seq::empty();
    let mut i: usize = 1;
    while i < segments
        invariant
            forall|i: usize, radius: u32| #[trigger] call_requires(nearest, (i, radius)),
            1 <= i,
            segments > 1 ==> i <= segments,
            segments <= 1 ==> i == 1,
            found.len() == i - 1,
            forall|k: int|
                0 <= k < found.len() ==> is_star_for(
                    nearest,
                    (k + 1) as usize,
                    #[trigger] found[k],
                ),
            r@ == joined_up(found),
        decreases segments - i,
    {
        let star = star_for(&nearest, i);
        let ghost before = found;
        proof {
            found = found.push(star);
            assert(found.drop_last() =~= before);
        }
        match star {
            Some(n) => {
                if r.len() == 0 || r[r.len() - 1].id64 != n.id64 {
                    r.push(n);
                }
            },
            None => {},
        }
        i = i + 1;
    }
    r.push(dst);
    r
}

/// No two waypoints for stars that follow on each other are the same.
pub proof fn law_waypoints_differ(found: Seq<Option<RouteNode>>, i: int)
    requires
        0 <= i < joined_up(found).len() - 1,
    ensures
        joined_up(found)[i].id64 != joined_up(found)[i + 1].id64,
    decreases found.len(),
{
    if found.len() > 0 && i < joined_up(found.drop_last()).len() - 1 {
        law_waypoints_differ(found.drop_last(), i);
    }
}

/// What is known of the systems on the way: where they lie, and which have a
/// neutron star.
pub struct Atlas {
    ids: Vec<i64>,
    places: HashMap<i64, RouteNode>,
    neutron: HashMap<i64, bool>,
}

/// What is known of the systems on the way, as mathematics.
#[verifier::ext_equal]
pub struct AtlasView {
    pub places: Map<i64, RouteNode>,
    pub neutron: Map<i64, bool>,
}

/// The atlas with a system more.
pub open spec fn placed(a: AtlasView, n: RouteNode) -> AtlasView {
    AtlasView { places: a.places.insert(n.id64, n), neutron: a.neutron }
}

/// The atlas with a mark on a system.
pub open spec fn marked(a: AtlasView, id: i64, star: bool) -> AtlasView {
    AtlasView { places: a.places, neutron: a.neutron.insert(id, star) }
}

/// The atlas with the first `n` neutron stars more.
pub open spec fn starred(a: AtlasView, stars: Seq<RouteNode>, n: int) -> AtlasView
    decreases n,
{
    if n <= 0 {
        a
    } else {
        marked(placed(starred(a, stars, n - 1), stars[n - 1]), stars[n - 1].id64, true)
    }
}

/// The atlas with the first `n` neutron stars more, where they are not known.
pub open spec fn filled_up(a: AtlasView, stars: Seq<RouteNode>, n: int) -> AtlasView
    decreases n,
{
    if n <= 0 {
        a
    } else {
        let b = filled_up(a, stars, n - 1);
        let star = stars[n - 1];
        let c = if b.places.contains_key(star.id64) {
            b
        } else {
            placed(b, star)
        };
        if c.neutron.contains_key(star.id64) {
            c
        } else {
            marked(c, star.id64, true)
        }
    }
}

/// The order of the systems once `id` is known: it comes last where it was not
/// known before.
pub open spec fn met(a: AtlasView, order: Seq<i64>, id: i64) -> Seq<i64> {
    if a.places.contains_key(id) {
        order
    } else {
        order.push(id)
    }
}

/// The order of the systems with the first `n` neutron stars more.
pub open spec fn met_starred(
    a: AtlasView,
    order: Seq<i64>,
    stars: Seq<RouteNode>,
    n: int,
) -> Seq<i64>
    decreases n,
{
    if n <= 0 {
        order
    } else {
        met(
            starred(a, stars, n - 1),
            met_starred(a, order, stars, n - 1),
            stars[n - 1].id64,
        )
    }
}

/// The order of the systems with the first `n` neutron stars more, where they
/// are not known.
pub open spec fn met_filled(
    a: AtlasView,
    order: Seq<i64>,
    stars: Seq<RouteNode>,
    n: int,
) -> Seq<i64>
    decreases n,
{
    if n <= 0 {
        order
    } else {
        met(
            filled_up(a, stars, n - 1),
            met_filled(a, order, stars, n - 1),
            stars[n - 1].id64,
        )
    }
}

/// A system has a neutron star.
pub open spec fn is_star(a: AtlasView, id: i64) -> bool {
    a.neutron.contains_key(id) && a.neutron[id]
}

impl Atlas {
    pub closed spec fn view(&self) -> AtlasView {
        AtlasView { places: self.places@, neutron: self.neutron@ }
    }

    /// The systems, in the order in which they became known.
    pub closed spec fn order(&self) -> Seq<i64> {
        self.ids@
    }

    /// Each system that is known stands in the order once.
    pub closed spec fn wf(&self) -> bool {
        &&& self.ids@.no_duplicates()
        &&& forall|id: i64| #[trigger] self.places@.contains_key(id) <==> self.ids@.contains(id)
    }

    /// The atlas without systems.
    pub fn new() -> (r: Atlas)
        ensures
            r.wf(),
            r@ == (AtlasView { places: Map::empty(), neutron: Map::empty() }),
            r.order() == Seq::<i64>::empty(),
    {
        let r = Atlas { ids: Vec::new(), places: HashMap::new(), neutron: HashMap::new() };
        assert(r@ =~= AtlasView { places: Map::empty(), neutron: Map::empty() });
        r
    }

    /// Adds a system, or says where it lies.
    pub fn place(&mut self, n: RouteNode)
        requires
            old(self).wf(),
        ensures
            final(self).wf(),
            final(self)@ == placed(old(self)@, n),
            final(self).order() == met(old(self)@, old(self).order(), n.id64),
    {
        let ghost before = self.ids@;
        let known = self.places.contains_key(&n.id64);
        if !known {
            self.ids.push(n.id64);
        }
        self.places.insert(n.id64, n);
        proof {
            assert(self@ =~= placed(old(self)@, n));
            assert forall|id: i64| #[trigger]
                self.places@.contains_key(id) <==> self.ids@.contains(id) by {
                if !known {
                    assert(self.ids@[before.len() as int] == n.id64);
                    if before.contains(id) {
                        let k = choose|k: int| 0 <= k < before.len() && before[k] == id;
                        assert(self.ids@[k] == id);
                    }
                    if self.ids@.contains(id) && id != n.id64 {
                        let k = choose|k: int| 0 <= k < self.ids@.len() && self.ids@[k] == id;
                        assert(before[k] == id);
                    }
                    assert(old(self).places@.contains_key(id) <==> before.contains(id));
                }
            }
            assert(old(self).places@.contains_key(n.id64) <==> before.contains(n.id64));
        }
    }

    /// Says whether a system has a neutron star.
    pub fn mark(&mut self, id: i64, star: bool)
        requires
            old(self).wf(),
        ensures
            final(self).wf(),
            final(self)@ == marked(old(self)@, id, star),
            final(self).order() == old(self).order(),
    {
        self.neutron.insert(id, star);
        assert(self@ =~= marked(old(self)@, id, star));
    }

    /// Whether a system has a neutron star.
    pub fn has_star(&self, id: i64) -> (r: bool)
        ensures
            r == is_star(self@, id),
    {
        match self.neutron.get(&id) {
            Some(b) => *b,
            None => false,
        }
    }

    /// Where a system lies.
    pub fn find(&self, id: i64) -> (r: Option<RouteNode>)
        ensures
            r == if self@.places.contains_key(id) {
                Some(self@.places[id])
            } else {
                None
            },
    {
        match self.places.get(&id) {
            Some(n) => Some(*n),
            None => None,
        }
    }

    /// Adds neutron stars.
    pub fn add_stars(&mut self, stars: &Vec<RouteNode>)
        requires
            old(self).wf(),
        ensures
            final(self).wf(),
            final(self)@ == starred(old(self)@, stars@, stars.len() as int),
            final(self).order() == met_starred(
                old(self)@,
                old(self).order(),
                stars@,
                stars.len() as int,
            ),
    {
        for i in 0..stars.len()
            invariant
                self.wf(),
                self.order() == met_starred(old(self)@, old(self).order(), stars@, i as int),
                self@ == starred(old(self)@, stars@, i as int),
        {
            self.place(stars[i]);
            self.mark(stars[i].id64, true);
        }
    }

    /// Adds neutron stars where they are not known.
    pub fn fill_up(&mut self, stars: &Vec<RouteNode>)
        requires
            old(self).wf(),
        ensures
            final(self).wf(),
            final(self)@ == filled_up(old(self)@, stars@, stars.len() as int),
            final(self).order() == met_filled(
                old(self)@,
                old(self).order(),
                stars@,
                stars.len() as int,
            ),
    {
        for i in 0..stars.len()
            invariant
                self.wf(),
                self.order() == met_filled(old(self)@, old(self).order(), stars@, i as int),
                self@ == filled_up(old(self)@, stars@, i as int),
        {
            let star = stars[i];
            if !self.places.contains_key(&star.id64) {
                self.place(star);
            }
            if !self.neutron.contains_key(&star.id64) {
                self.mark(star.id64, true);
            }
        }
    }

    /// Each system that is known stands in the order once.
    pub proof fn law_order_is_complete(&self)
        requires
            self.wf(),
        ensures
            self.order().no_duplicates(),
            forall|id: i64| #[trigger]
                self.order().contains(id) <==> self@.places.contains_key(id),
    {
        assert forall|id: i64| #[trigger] self.order().contains(id) <==> self@.places.contains_key(
            id,
        ) by {
            assert(self.places@.contains_key(id) <==> self.ids@.contains(id));
        }
    }

    /// The systems with a neutron star, and `also` where they are known, in the
    /// order in which they became known.
    pub fn stars_and(&self, also: &Vec<i64>) -> (r: Vec<RouteNode>)
        requires
            self.wf(),
        ensures
            r@ == listed(self@, self.order(), also@, self.order().len() as int),
    {
        let mut r: Vec<RouteNode> = Vec::new();
        for i in 0..self.ids.len()
            invariant
                self.wf(),
                r@ == listed(self@, self.ids@, also@, i as int),
        {
            let id = self.ids[i];
            assert(self.ids@.contains(id));
            assert(self.places@.contains_key(id));
            if self.has_star(id) || has_id(also, id) {
                match self.places.get(&id) {
                    Some(n) => {
                        r.push(*n);
                    },
                    None => {},
                }
            }
        }
        r
    }
}

/// Those of the first `n` systems of `order` that have a neutron star or are
/// in `also`.
pub open spec fn listed(a: AtlasView, order: Seq<i64>, also: Seq<i64>, n: int) -> Seq<RouteNode>
    decreases n,
{
    if n <= 0 {
        Seq::empty()
    } else {
        let before = listed(a, order, also, n - 1);
        let id = order[n - 1];
        if is_star(a, id) || also.contains(id) {
            before.push(a.places[id])
        } else {
            before
        }
    }
}

/// Whether `id` is one of `ids`.
fn has_id(ids: &Vec<i64>, id: i64) -> (r: bool)
    ensures
        r == ids@.contains(id),
{
    for i in 0..ids.len()
        invariant
            forall|k: int| 0 <= k < i ==> ids@[k] != id,
    {
        if ids[i] == id {
            assert(ids@[i as int] == id);
            return true;
        }
    }
    false
}

/// Beyond this distance, 10000 light years by the bits of the double, a route
/// is refined from both ends.
pub const NEUTRON_FAR: u64 = 0x40c3_8800_0000_0000;

/// By how much a jet boosts a jump, where `kind` is the kind of the drive in
/// lower case.
pub fn boost_for(kind: &str) -> (r: u32)
    ensures
        r == if kind@ == "caspian"@ {
            6int
        } else {
            4
        },
{
    if same(kind, "caspian") {
        6
    } else {
        4
    }
}

/// By how much a jet boosts a jump.
pub fn boost_factor(q: &NeutronRouteQuery) -> (r: u32)
    ensures
        r == if text::lowercase(q.supercharge_type@) == "caspian"@ {
            6int
        } else {
            4
        },
{
    boost_for(to_lowercase(q.supercharge_type.as_str()).as_str())
}

/// `i` is the first system of the route with a neutron star; the source where
/// there is none.
pub open spec fn is_first_star(a: AtlasView, path: Seq<i64>, i: int) -> bool {
    &&& 0 <= i < path.len()
    &&& forall|j: int| 0 <= j < i ==> !is_star(a, #[trigger] path[j])
    &&& is_star(a, path[i]) || (i == 0 && forall|j: int|
        0 <= j < path.len() ==> !is_star(a, #[trigger] path[j]))
}

/// `i` is the last system of the route with a neutron star; the destination
/// where there is none.
pub open spec fn is_last_star(a: AtlasView, path: Seq<i64>, i: int) -> bool {
    &&& 0 <= i < path.len()
    &&& forall|j: int| i < j < path.len() ==> !is_star(a, #[trigger] path[j])
    &&& is_star(a, path[i]) || (i == path.len() - 1 && forall|j: int|
        0 <= j < path.len() ==> !is_star(a, #[trigger] path[j]))
}

/// The first system of a route with a neutron star.
pub fn first_star(atlas: &Atlas, path: &Vec<i64>) -> (r: usize)
    requires
        path.len() > 0,
    ensures
        is_first_star(atlas@, path@, r as int),
{
    for i in 0..path.len()
        invariant
            forall|j: int| 0 <= j < i ==> !is_star(atlas@, #[trigger] path@[j]),
    {
        if atlas.has_star(path[i]) {
            return i;
        }
    }
    0
}

/// The last system of a route with a neutron star.
pub fn last_star(atlas: &Atlas, path: &Vec<i64>) -> (r: usize)
    requires
        path.len() > 0,
    ensures
        is_last_star(atlas@, path@, r as int),
{
    let mut i: usize = path.len();
    while i > 0
        invariant
            i <= path.len(),
            forall|j: int| i <= j < path.len() ==> !is_star(atlas@, #[trigger] path@[j]),
        decreases i,
    {
        i = i - 1;
        if atlas.has_star(path[i]) {
            return i;
        }
    }
    path.len() - 1
}

/// The route up to the system `i`, `i` not counted, then `middle`, then the
/// route from the system `j` on.
pub open spec fn stitched(path: Seq<i64>, i: int, middle: Seq<i64>, j: int) -> Seq<i64> {
    path.take(i) + middle + path.skip(j)
}

/// Puts `middle` between two parts of the route.
fn stitch(path: &Vec<i64>, i: usize, middle: &Vec<i64>, j: usize) -> (r: Vec<i64>)
    requires
        i <= path.len(),
        j <= path.len(),
    ensures
        r@ == stitched(path@, i as int, middle@, j as int),
{
    let mut r: Vec<i64> = Vec::new();
    for k in 0..i
        invariant
            i <= path.len(),
            r@ == path@.take(k as int),
    {
        r.push(path[k]);
        assert(path@.take(k + 1) =~= path@.take(k as int).push(path@[k as int]));
    }
    for k in 0..middle.len()
        invariant
            i <= path.len(),
            r@ == path@.take(i as int) + middle@.take(k as int),
    {
        r.push(middle[k]);
        assert(middle@.take(k + 1) =~= middle@.take(k as int).push(middle@[k as int]));
    }
    assert(middle@.take(middle.len() as int) =~= middle@);
    for k in j..path.len()
        invariant
            i <= path.len(),
            j <= path.len(),
            r@ == path@.take(i as int) + middle@ + path@.subrange(j as int, k as int),
    {
        r.push(path[k]);
        assert(path@.subrange(j as int, k + 1) =~= path@.subrange(j as int, k as int).push(
            path@[k as int],
        ));
    }
    assert(r@ =~= stitched(path@, i as int, middle@, j as int));
    r
}

/// The route up to and with the system `i`.
pub open spec fn lead_of(path: Seq<i64>, i: int) -> Seq<i64> {
    path.take(i + 1)
}

/// The route from the destination back to the system `j`.
pub open spec fn tail_of(path: Seq<i64>, j: int) -> Seq<i64> {
    path.skip(j).reverse()
}

/// What a search for a route with fewer jumps gives. A long way is searched
/// from both ends, from the first and the last neutron star of the route: what
/// is found leads from the first neutron star to the destination. A short way
/// is searched from the first neutron star.
pub open spec fn is_refined<
    F: Fn(i64) -> Expansion,
    B: Fn(i64) -> Expansion,
    T: Fn() -> bool,
>(
    path: Seq<i64>,
    i: int,
    j: int,
    far: bool,
    fwd_h: u32,
    bwd_h: u32,
    look_fwd: F,
    look_bwd: B,
    late: T,
    r: Option<Seq<i64>>,
) -> bool {
    let limit = (path.len() - 1) as u32;
    if far {
        exists|o: Option<Vec<i64>>| #[trigger]
            both_ways::duo_result(
                look_fwd,
                look_bwd,
                lead_of(path, i),
                fwd_h,
                tail_of(path, j),
                bwd_h,
                limit,
                late,
                o,
            ) && r == match o {
                Some(p) => Some(stitched(path, i, p@, path.len() as int)),
                None => None,
            }
    } else {
        exists|o: Outcome| #[trigger]
            astar::one_way_result(look_fwd, lead_of(path, i), fwd_h, path.last(), limit, o) && (
            o is OutOfTime ==> call_ensures(late, (), true)) && r == route::ids_view(
                carrier::found_in(o),
            )
    }
}

/// A jump of the given route, or one that a direction of the search offered.
pub open spec fn is_hop<F: Fn(i64) -> Expansion, B: Fn(i64) -> Expansion>(
    look_fwd: F,
    look_bwd: B,
    path: Seq<i64>,
    a: i64,
    b: i64,
) -> bool {
    astar::on_lead(path, a, b) || carrier::is_offered(
        look_fwd,
        look_bwd,
        path[0],
        path.last(),
        a,
        b,
    )
}

/// `p` makes only jumps of the given route or such that were offered.
pub open spec fn makes_hops<F: Fn(i64) -> Expansion, B: Fn(i64) -> Expansion>(
    look_fwd: F,
    look_bwd: B,
    path: Seq<i64>,
    p: Seq<i64>,
) -> bool {
    forall|k: int|
        0 <= k < p.len() - 1 ==> is_hop(look_fwd, look_bwd, path, #[trigger] p[k], p[k + 1])
}

/// Jumps along a part of the route, in either direction, are jumps of the
/// route.
proof fn lemma_on_path(path: Seq<i64>, i: int, j: int, a: i64, b: i64)
    requires
        0 <= i < path.len(),
        0 <= j < path.len(),
    ensures
        astar::on_lead(lead_of(path, i), a, b) ==> astar::on_lead(path, a, b),
        astar::on_lead(tail_of(path, j), b, a) ==> astar::on_lead(path, a, b),
{
    let lead = lead_of(path, i);
    let tail = tail_of(path, j);
    if astar::on_lead(lead, a, b) {
        let k = choose|k: int|
            0 <= k < lead.len() - 1 && #[trigger] lead[k] == a && lead[k + 1] == b;
        assert(path[k] == a && path[k + 1] == b);
    }
    if astar::on_lead(tail, b, a) {
        let k = choose|k: int|
            0 <= k < tail.len() - 1 && #[trigger] tail[k] == b && tail[k + 1] == a;
        let n = path.len() - 2 - k;
        assert(path.skip(j)[n - j] == a && path.skip(j)[n + 1 - j] == b);
        assert(path[n] == a && path[n + 1] == b);
    }
}

/// What a search from both ends found makes only good jumps together with the
/// route before it.
proof fn lemma_stitched_hops<F: Fn(i64) -> Expansion, B: Fn(i64) -> Expansion>(
    look_fwd: F,
    look_bwd: B,
    path: Seq<i64>,
    i: int,
    j: int,
    p: Seq<i64>,
)
    requires
        0 <= i < path.len(),
        0 <= j < path.len(),
        p.len() > 0,
        p[0] == path[i],
        forall|k: int|
            0 <= k < p.len() - 1 ==> both_ways::joined(
                look_fwd,
                look_bwd,
                lead_of(path, i),
                tail_of(path, j),
                #[trigger] p[k],
                p[k + 1],
            ),
    ensures
        makes_hops(look_fwd, look_bwd, path, stitched(path, i, p, path.len() as int)),
{
    let q = stitched(path, i, p, path.len() as int);
    assert(q =~= path.take(i) + p);
    assert(lead_of(path, i)[0] == path[0]);
    assert(tail_of(path, j)[0] == path.last());
    assert forall|k: int| 0 <= k < q.len() - 1 implies is_hop(
        look_fwd,
        look_bwd,
        path,
        #[trigger] q[k],
        q[k + 1],
    ) by {
        if k < i {
            assert(q[k] == path[k] && q[k + 1] == path[k + 1]);
        } else {
            let n = k - i;
            assert(q[k] == p[n] && q[k + 1] == p[n + 1]);
            assert(both_ways::joined(
                look_fwd,
                look_bwd,
                lead_of(path, i),
                tail_of(path, j),
                p[n],
                p[n + 1],
            ));
            lemma_on_path(path, i, j, p[n], p[n + 1]);
        }
    }
}

/// Where a route passes no system twice, its two ends pass none twice and
/// touch only where they make the whole route.
proof fn lemma_parts_simple(path: Seq<i64>, i: int, j: int, limit: u32)
    requires
        path.no_duplicates(),
        0 <= i < path.len(),
        0 <= j < path.len(),
        limit == path.len() - 1,
    ensures
        lead_of(path, i).no_duplicates(),
        tail_of(path, j).no_duplicates(),
        both_ways::keep_apart(lead_of(path, i), tail_of(path, j), limit),
{
    let lead = lead_of(path, i);
    let tail = tail_of(path, j);
    assert forall|b: int| 0 <= b < tail.len() implies #[trigger] tail[b] == path[path.len() - 1
        - b] by {}
    assert forall|a: int, b: int| 0 <= a < tail.len() && 0 <= b < tail.len() && a
        != b implies tail[a] != tail[b] by {
        assert(path[path.len() - 1 - a] != path[path.len() - 1 - b]);
    }
    assert forall|a: int, b: int|
        0 <= a < lead.len() && 0 <= b < tail.len() && #[trigger] lead[a]
            == #[trigger] tail[b] implies a + b >= limit by {
        assert(path[a] == path[path.len() - 1 - b]);
    }
}

/// Where a route passes its destination only at its end, its two ends aim at
/// it.
proof fn lemma_parts_aim(path: Seq<i64>, i: int, j: int, limit: u32)
    requires
        route::passes_at_end(path, path.last()),
        0 <= i < path.len(),
        0 <= j < path.len(),
        limit == path.len() - 1,
    ensures
        both_ways::aims_at_end(lead_of(path, i), tail_of(path, j), limit),
{
    let lead = lead_of(path, i);
    let tail = tail_of(path, j);
    assert(tail[0] == path.last());
    assert forall|b: int| 1 <= b < tail.len() implies #[trigger] tail[b] != tail[0] by {
        assert(tail[b] == path[path.len() - 1 - b]);
    }
    if lead.drop_last().contains(tail[0]) {
        let a = choose|a: int| 0 <= a < lead.drop_last().len() && lead.drop_last()[a] == tail[0];
        assert(path[a] == tail[0]);
    }
    assert(lead.last() == path[i]);
}

/// A route behind the first part of another that does not pass the destination.
proof fn lemma_stitched_end(path: Seq<i64>, i: int, p: Seq<i64>)
    requires
        route::passes_at_end(path, path.last()),
        route::passes_at_end(p, path.last()),
        0 <= i < path.len(),
    ensures
        route::passes_at_end(stitched(path, i, p, path.len() as int), path.last()),
{
    let q = stitched(path, i, p, path.len() as int);
    assert(q =~= path.take(i) + p);
    assert forall|k: int| 0 <= k < q.len() - 1 implies #[trigger] q[k] != path.last() by {
        if k < i {
            assert(q[k] == path[k]);
        } else {
            assert(q[k] == p[k - i]);
        }
    }
}

/// Searches for a route with fewer jumps than the given one; `i` and `j` are
/// its first and its last neutron star.
fn refine_neutron<
    F: Fn(i64) -> Expansion,
    B: Fn(i64) -> Expansion,
    T: Fn() -> bool,
>(
    path: &Vec<i64>,
    i: usize,
    j: usize,
    far: bool,
    fwd_h: u32,
    bwd_h: u32,
    look_fwd: F,
    look_bwd: B,
    late: T,
) -> (r: Option<Vec<i64>>)
    requires
        0 < path.len() <= u32::MAX,
        i < path.len(),
        j < path.len(),
        forall|id: i64| #[trigger] call_requires(look_fwd, (id,)),
        forall|id: i64| #[trigger] call_requires(look_bwd, (id,)),
        call_requires(late, ()),
    ensures
        is_refined(
            path@,
            i as int,
            j as int,
            far,
            fwd_h,
            bwd_h,
            look_fwd,
            look_bwd,
            late,
            route::ids_view(r),
        ),
        r matches Some(p) ==> p.len() > 0 && p@[0] == path@[0] && p@.last() == path@.last(),
        r matches Some(p) ==> makes_hops(look_fwd, look_bwd, path@, p@),
        r matches Some(p) ==> lead_of(path@, i as int).no_duplicates() && tail_of(
            path@,
            j as int,
        ).no_duplicates() ==> p.len() < path.len(),
        r matches Some(p) ==> path@.no_duplicates() ==> p@.no_duplicates(),
        r matches Some(p) ==> route::passes_at_end(path@, path@.last()) ==> route::passes_at_end(
            p@,
            path@.last(),
        ),
        r matches Some(p) ==> !far ==> p@.no_duplicates(),
        !far && lead_of(path@, i as int).no_duplicates() && astar::consistent(
            look_fwd,
            path@.last(),
            path@[i as int],
            fwd_h,
        ) ==> match r {
            Some(p) => forall|w: Seq<i64>| #[trigger]
                astar::is_walk(look_fwd, path@.last(), lead_of(path@, i as int), w) ==> p.len() <= i
                    + w.len(),
            None => call_ensures(late, (), true) || forall|w: Seq<i64>| #[trigger]
                astar::is_walk(look_fwd, path@.last(), lead_of(path@, i as int), w) ==> path.len()
                    <= i + w.len(),
        },
        far && i == 0 && tail_of(path@, j as int).no_duplicates() && route::passes_at_end(
            path@,
            path@.last(),
        ) && astar::consistent(look_fwd, path@.last(), path@[0], fwd_h) ==> call_ensures(
            late,
            (),
            true,
        ) || forall|w: Seq<i64>| #[trigger]
            astar::is_walk(look_fwd, path@.last(), seq![path@[0]], w) && w.len() - 1 <= path.len()
                - 1 - j + bwd_h ==> both_ways::answered((path.len() - 1) as u32, r) <= w.len() - 1
                + path.len() - 1 - j,
{
    let none: Vec<i64> = Vec::new();
    let lead = stitch(path, i + 1, &none, path.len());
    assert(lead@ =~= lead_of(path@, i as int));
    let limit: u32 = (path.len() - 1) as u32;
    if far {
        let back = stitch(path, 0, &none, j);
        assert(back@ =~= path@.skip(j as int));
        let tail = astar::reversed(&back);
        assert(tail@ == tail_of(path@, j as int));
        assert(tail@[0] == path@.last());
        let o = search_both_ways(&lead, fwd_h, &tail, bwd_h, limit, look_fwd, look_bwd, late);
        proof {
            if i == 0 {
                assert(lead@ =~= seq![path@[0]]);
                if route::passes_at_end(path@, path@.last()) {
                    lemma_parts_aim(path@, i as int, j as int, limit);
                }
            }
        }
        assert(both_ways::duo_result(
            look_fwd,
            look_bwd,
            lead_of(path@, i as int),
            fwd_h,
            tail_of(path@, j as int),
            bwd_h,
            limit,
            late,
            o,
        ));
        match o {
            Some(p) => {
                let r = stitch(path, i, &p, path.len());
                proof {
                    assert(route::ids_view(Some(r)) == Some(
                        stitched(path@, i as int, p@, path.len() as int),
                    ));
                    assert(path@.skip(path.len() as int).len() == 0);
                    lemma_stitched_hops(look_fwd, look_bwd, path@, i as int, j as int, p@);
                    if route::passes_at_end(path@, path@.last()) {
                        lemma_parts_aim(path@, i as int, j as int, limit);
                        lemma_stitched_end(path@, i as int, p@);
                    }
                    if path@.no_duplicates() {
                        lemma_parts_simple(path@, i as int, j as int, limit);
                        assert(r@ =~= lead@.drop_last() + p@);
                    }
                    if i == 0 {
                        assert(r@[0] == p@[0]);
                        assert(r@ =~= p@);
                    } else {
                        assert(r@[0] == path@.take(i as int)[0]);
                    }
                }
                Some(r)
            },
            None => None,
        }
    } else {
        let o = search_one_way(&lead, fwd_h, path[path.len() - 1], limit, look_fwd, late);
        assert(astar::one_way_result(
            look_fwd,
            lead_of(path@, i as int),
            fwd_h,
            path@.last(),
            limit,
            o,
        ));
        match o {
            Outcome::Found(p) => {
                proof {
                    assert forall|k: int| 0 <= k < p.len() - 1 implies is_hop(
                        look_fwd,
                        look_bwd,
                        path@,
                        #[trigger] p@[k],
                        p@[k + 1],
                    ) by {
                        assert(astar::linked(look_fwd, path@.last(), lead@, p@[k], p@[k + 1]));
                        lemma_on_path(path@, i as int, j as int, p@[k], p@[k + 1]);
                    }
                    assert(carrier::found_in(Outcome::Found(p)) == Some(p));
                }
                Some(p)
            },
            Outcome::NoBetter => {
                assert(carrier::found_in(Outcome::NoBetter) is None);
                None
            },
            Outcome::OutOfTime => {
                assert(carrier::found_in(Outcome::OutOfTime) is None);
                None
            },
        }
    }
}

/// A route that is at hand from the first neutron star on, up to the last
/// where the way is long, put into the whole route.
pub open spec fn put_in(path: Seq<i64>, i: int, j: int, far: bool, p: Seq<i64>) -> Seq<i64> {
    if far {
        stitched(path, i, p, j + 1)
    } else {
        stitched(path, i, p, path.len() as int)
    }
}

/// A route that is at hand goes on from the first neutron star of the route, to
/// the last where the way is long and else to the destination.
pub open spec fn fits_in(path: Seq<i64>, i: int, j: int, far: bool, p: Seq<i64>) -> bool {
    &&& p.len() > 0
    &&& p[0] == path[i]
    &&& p.last() == if far {
        path[j]
    } else {
        path.last()
    }
}

/// A route that is put in keeps the ends of the whole route; where neither
/// passes the destination before its end, the whole does not.
pub proof fn law_put_in_keeps_the_ends(path: Seq<i64>, i: int, j: int, far: bool, p: Seq<i64>)
    requires
        0 <= i < path.len(),
        0 <= j < path.len(),
        fits_in(path, i, j, far, p),
    ensures
        put_in(path, i, j, far, p).len() > 0,
        put_in(path, i, j, far, p)[0] == path[0],
        put_in(path, i, j, far, p).last() == path.last(),
        route::passes_at_end(path, path.last()) && !p.drop_last().contains(path.last())
            ==> route::passes_at_end(put_in(path, i, j, far, p), path.last()),
{
    let q = put_in(path, i, j, far, p);
    let end = if far {
        j + 1
    } else {
        path.len() as int
    };
    let rest = path.skip(end);
    assert(q == path.take(i) + p + rest);
    if i == 0 {
        assert(q[0] == p[0]);
    } else {
        assert(q[0] == path[0]);
    }
    if rest.len() > 0 {
        assert(q.last() == rest.last());
    } else {
        assert(q.last() == p.last());
    }
    if route::passes_at_end(path, path.last()) && !p.drop_last().contains(path.last()) {
        assert forall|k: int| 0 <= k < q.len() - 1 implies #[trigger] q[k] != path.last() by {
            if k < i {
                assert(q[k] == path[k]);
            } else if k < i + p.len() {
                let a = k - i;
                assert(q[k] == p[a]);
                if a < p.len() - 1 {
                    assert(p.drop_last()[a] == p[a]);
                } else {
                    assert(rest.len() > 0);
                    assert(p[a] == path[j]);
                }
            } else {
                assert(q[k] == path[k - i - p.len() + end]);
            }
        }
    }
}

/// Settles on a route: the greedy one where it is not to be refined, else the
/// one that is at hand, else the one that a search finds. `i` and `j` are the
/// first and the last neutron star of the greedy route. The greedy route is the
/// worst case: a route that is settled on instead has fewer jumps. Where the
/// greedy route passes no system twice, neither does one that a search finds.
/// Where it passes the destination only at its end, so does one that a search
/// finds, and one at hand that does not pass the destination before its end.
/// Over a distance that is searched in one direction a route that a search
/// finds passes no system twice, and no walk of the jumps on offer from the
/// first star on makes a shorter route, unless the time ran out. Over one that
/// is searched from both ends, from a source with a star, a walk with as few
/// jumps as are estimated bounds the route.
pub fn settle_neutron<
    F: Fn(i64) -> Expansion,
    B: Fn(i64) -> Expansion,
    T: Fn() -> bool,
>(
    greedy: Vec<i64>,
    i: usize,
    j: usize,
    refine: bool,
    at_hand: Option<Vec<i64>>,
    distance: u64,
    fwd_h: u32,
    bwd_h: u32,
    look_fwd: F,
    look_bwd: B,
    late: T,
) -> (r: Chosen)
    requires
        0 < greedy.len() <= u32::MAX,
        i < greedy.len(),
        j < greedy.len(),
        forall|id: i64| #[trigger] call_requires(look_fwd, (id,)),
        forall|id: i64| #[trigger] call_requires(look_bwd, (id,)),
        call_requires(late, ()),
    ensures
        !refine ==> r.path@ == greedy@,
        refine ==> (at_hand matches Some(p) ==> r.path@ == route::chosen(
            Some(put_in(greedy@, i as int, j as int, distance > NEUTRON_FAR, p@)),
            greedy@,
        )),
        refine && at_hand is None ==> exists|o: Option<Seq<i64>>|
            is_searched(
                greedy@,
                i as int,
                j as int,
                distance,
                fwd_h,
                bwd_h,
                look_fwd,
                look_bwd,
                late,
                o,
            ) && r.path@ == #[trigger] route::chosen(o, greedy@),
        r.optimised == (r.path.len() < greedy.len()),
        r.optimised || r.path@ == greedy@,
        at_hand is None ==> makes_hops(look_fwd, look_bwd, greedy@, r.path@),
        at_hand is None ==> r.path.len() > 0 && r.path@[0] == greedy@[0] && r.path@.last()
            == greedy@.last(),
        at_hand is None && greedy@.no_duplicates() ==> r.path@.no_duplicates(),
        at_hand is None && route::passes_at_end(greedy@, greedy@.last()) ==> route::passes_at_end(
            r.path@,
            greedy@.last(),
        ),
        at_hand is None && distance <= NEUTRON_FAR && r.optimised ==> r.path@.no_duplicates(),
        refine && at_hand is None && distance <= NEUTRON_FAR && lead_of(
            greedy@,
            i as int,
        ).no_duplicates() && astar::consistent(
            look_fwd,
            greedy@.last(),
            greedy@[i as int],
            fwd_h,
        ) ==> call_ensures(late, (), true) || forall|w: Seq<i64>| #[trigger]
            astar::is_walk(look_fwd, greedy@.last(), lead_of(greedy@, i as int), w) ==> r.path.len()
                <= i + w.len(),
        refine && at_hand is None && distance > NEUTRON_FAR && i == 0 && tail_of(
            greedy@,
            j as int,
        ).no_duplicates() && route::passes_at_end(greedy@, greedy@.last()) && astar::consistent(
            look_fwd,
            greedy@.last(),
            greedy@[0],
            fwd_h,
        ) ==> call_ensures(late, (), true) || forall|w: Seq<i64>| #[trigger]
            astar::is_walk(look_fwd, greedy@.last(), seq![greedy@[0]], w) && w.len() - 1
                <= greedy.len() - 1 - j + bwd_h ==> r.path.len() - 1 <= w.len() - 1
                    + greedy.len() - 1
                - j,
        at_hand matches Some(p) ==> fits_in(
            greedy@,
            i as int,
            j as int,
            distance > NEUTRON_FAR,
            p@,
        ) ==> r.path.len() > 0 && r.path@[0] == greedy@[0] && r.path@.last() == greedy@.last() && (
        route::passes_at_end(greedy@, greedy@.last()) && !p@.drop_last().contains(greedy@.last())
            ==> route::passes_at_end(r.path@, greedy@.last())),
        refine && at_hand is None && lead_of(greedy@, i as int).no_duplicates() && tail_of(
            greedy@,
            j as int,
        ).no_duplicates() ==> exists|o: Option<Seq<i64>>| #[trigger]
            is_searched(
                greedy@,
                i as int,
                j as int,
                distance,
                fwd_h,
                bwd_h,
                look_fwd,
                look_bwd,
                late,
                o,
            ) && r.path@ == route::found_or(o, greedy@),
        refine && distance > NEUTRON_FAR ==> (at_hand matches Some(p) ==> p.len() > 0 && i + (p.len()
            - 1) + (greedy.len() - 1 - j) < greedy.len() - 1 ==> r.optimised),
        refine && distance <= NEUTRON_FAR ==> (at_hand matches Some(p) ==> p.len() > 0 && p.len() - 1
            < greedy.len() - 1 - i ==> r.optimised),
{
    let far = distance > NEUTRON_FAR;
    let ghost plain = greedy@;
    let refined = if !refine {
        None
    } else {
        match at_hand {
            Some(p) => {
                proof {
                    if fits_in(plain, i as int, j as int, far, p@) {
                        law_put_in_keeps_the_ends(plain, i as int, j as int, far, p@);
                    }
                }
                if far {
                    Some(stitch(&greedy, i, &p, j + 1))
                } else {
                    Some(stitch(&greedy, i, &p, greedy.len()))
                }
            },
            None => refine_neutron(
                &greedy,
                i,
                j,
                far,
                fwd_h,
                bwd_h,
                look_fwd,
                look_bwd,
                late,
            ),
        }
    };
    assert(refine && at_hand is None ==> is_searched(
        plain,
        i as int,
        j as int,
        distance,
        fwd_h,
        bwd_h,
        look_fwd,
        look_bwd,
        late,
        route::ids_view(refined),
    ));
    choose_path(refined, greedy)
}

/// What a search for a route with fewer jumps gives, over the distance.
pub open spec fn is_searched<
    F: Fn(i64) -> Expansion,
    B: Fn(i64) -> Expansion,
    T: Fn() -> bool,
>(
    path: Seq<i64>,
    i: int,
    j: int,
    distance: u64,
    fwd_h: u32,
    bwd_h: u32,
    look_fwd: F,
    look_bwd: B,
    late: T,
    r: Option<Seq<i64>>,
) -> bool {
    is_refined(
        path,
        i,
        j,
        distance > NEUTRON_FAR,
        fwd_h,
        bwd_h,
        look_fwd,
        look_bwd,
        late,
        r,
    )
}

/// One of the first `n` systems has an id.
pub open spec fn is_among(stars: Seq<RouteNode>, n: int, id: i64) -> bool {
    exists|i: int| 0 <= i < n && (#[trigger] stars[i]).id64 == id
}

/// Stars that are added are known as neutron stars afterwards, and nothing else
/// changes.
pub proof fn law_added_stars_are_stars(a: AtlasView, stars: Seq<RouteNode>, n: int, id: i64)
    requires
        0 <= n <= stars.len(),
    ensures
        is_among(stars, n, id) ==> is_star(starred(a, stars, n), id) && starred(
            a,
            stars,
            n,
        ).places.contains_key(id) && starred(a, stars, n).places[id].id64 == id,
        !is_among(stars, n, id) ==> {
            let b = starred(a, stars, n);
            &&& b.places.contains_key(id) <==> a.places.contains_key(id)
            &&& a.places.contains_key(id) ==> b.places[id] == a.places[id]
            &&& is_star(b, id) <==> is_star(a, id)
        },
    decreases n,
{
    if n > 0 {
        law_added_stars_are_stars(a, stars, n - 1, id);
        assert(is_among(stars, n, id) <==> is_among(stars, n - 1, id) || stars[n - 1].id64
            == id) by {
            if is_among(stars, n - 1, id) {
                let i = choose|i: int| 0 <= i < n - 1 && (#[trigger] stars[i]).id64 == id;
                assert(stars[i].id64 == id);
            }
        }
    }
}

/// Stars that fill up the atlas are known afterwards; what was known stays as
/// it was.
pub proof fn law_filling_up_keeps_what_is_known(
    a: AtlasView,
    stars: Seq<RouteNode>,
    n: int,
    id: i64,
)
    requires
        0 <= n <= stars.len(),
    ensures
        ({
            let b = filled_up(a, stars, n);
            &&& a.places.contains_key(id) ==> b.places.contains_key(id) && b.places[id]
                == a.places[id]
            &&& a.neutron.contains_key(id) ==> b.neutron.contains_key(id) && b.neutron[id]
                == a.neutron[id]
            &&& b.places.contains_key(id) <==> a.places.contains_key(id) || is_among(stars, n, id)
            &&& b.neutron.contains_key(id) <==> a.neutron.contains_key(id) || is_among(
                stars,
                n,
                id,
            )
            &&& !a.neutron.contains_key(id) && is_among(stars, n, id) ==> is_star(b, id)
        }),
    decreases n,
{
    if n > 0 {
        law_filling_up_keeps_what_is_known(a, stars, n - 1, id);
        law_filling_up_keeps_what_is_known(a, stars, n - 1, stars[n - 1].id64);
        assert(is_among(stars, n, id) <==> is_among(stars, n - 1, id) || stars[n - 1].id64
            == id) by {
            if is_among(stars, n - 1, id) {
                let i = choose|i: int| 0 <= i < n - 1 && (#[trigger] stars[i]).id64 == id;
                assert(stars[i].id64 == id);
            }
        }
    }
}

/// The systems that are listed are those with a neutron star and those that are
/// asked for, each at its place.
pub proof fn law_stars_are_listed(
    a: AtlasView,
    order: Seq<i64>,
    also: Seq<i64>,
    n: int,
    node: RouteNode,
)
    requires
        0 <= n <= order.len(),
    ensures
        listed(a, order, also, n).contains(node) <==> exists|k: int|
            0 <= k < n && (is_star(a, #[trigger] order[k]) || also.contains(order[k]))
                && a.places[order[k]] == node,
    decreases n,
{
    if n > 0 {
        law_stars_are_listed(a, order, also, n - 1, node);
        let before = listed(a, order, also, n - 1);
        let now = listed(a, order, also, n);
        let x = a.places[order[n - 1]];
        if before.contains(node) {
            let i = choose|i: int| 0 <= i < before.len() && before[i] == node;
            assert(now[i] == node);
            let k = choose|k: int|
                0 <= k < n - 1 && (is_star(a, #[trigger] order[k]) || also.contains(order[k]))
                    && a.places[order[k]] == node;
            assert(0 <= k < n && a.places[order[k]] == node);
        }
        if now.contains(node) && !before.contains(node) {
            let i = choose|i: int| 0 <= i < now.len() && now[i] == node;
            if i < before.len() {
                assert(before[i] == node);
            }
            assert(now.last() == x);
            assert(is_star(a, order[n - 1]) || also.contains(order[n - 1]));
        }
        if (is_star(a, order[n - 1]) || also.contains(order[n - 1])) && x == node {
            assert(now.last() == node);
        }
    } else {
        assert(!listed(a, order, also, n).contains(node));
    }
}

/// Every star that was found is a waypoint, every waypoint is a star that was
/// found, and the boxes in which stars are sought grow.
pub proof fn law_waypoints_are_the_stars(found: Seq<Option<RouteNode>>, id: i64)
    ensures
        (exists|i: int| 0 <= i < joined_up(found).len() && (#[trigger] joined_up(found)[i]).id64
            == id) <==> exists|j: int|
            0 <= j < found.len() && (#[trigger] found[j] matches Some(n) && n.id64 == id),
        forall|i: int, j: int|
            0 <= i < j < waypoint_radii().len() ==> waypoint_radii()[i] < waypoint_radii()[j],
    decreases found.len(),
{
    if found.len() > 0 {
        let f = found.drop_last();
        law_waypoints_are_the_stars(f, id);
        let before = joined_up(f);
        let now = joined_up(found);
        if exists|i: int| 0 <= i < before.len() && (#[trigger] before[i]).id64 == id {
            let i = choose|i: int| 0 <= i < before.len() && (#[trigger] before[i]).id64 == id;
            assert(now[i].id64 == id);
            let j = choose|j: int|
                0 <= j < f.len() && (#[trigger] f[j] matches Some(n) && n.id64 == id);
            assert(found[j] == f[j]);
        }
        if found.last() is Some && found.last()->0.id64 == id {
            assert(now.last().id64 == id);
            assert(found[found.len() - 1] is Some);
        }
        if exists|i: int| 0 <= i < now.len() && (#[trigger] now[i]).id64 == id {
            let i = choose|i: int| 0 <= i < now.len() && (#[trigger] now[i]).id64 == id;
            if i < before.len() {
                assert(before[i].id64 == id);
            } else {
                assert(found[found.len() - 1] is Some);
            }
        }
        if exists|j: int| 0 <= j < found.len() && (#[trigger] found[j] matches Some(n) && n.id64
            == id) {
            let j = choose|j: int|
                0 <= j < found.len() && (#[trigger] found[j] matches Some(n) && n.id64 == id);
            if j < f.len() {
                assert(f[j] == found[j]);
            }
        }
    }
}

} // verus!
