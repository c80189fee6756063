//! The greedy plot of a route along neutron stars, from waypoint to waypoint.

use crate::models::RouteNode;
use crate::neutron;
use crate::neutron::{Atlas, AtlasView};
use crate::route;
use crate::route::{measure_all, pick};
use crate::trail::SENTINEL;
use crate::voxel;
use crate::voxel::{Cell, CellIndex};
use std::collections::HashSet;
use vstd::prelude::*;

verus! {

broadcast use vstd::std_specs::hash::group_hash_axioms;

/// How many jumps a segment takes at most before it is given up.
pub const SEGMENT_JUMPS: usize = 1000;

/// How far a jump goes: from an ordinary system or boosted by a neutron star,
/// and a little further for want of anything nearer. Each is the square of a
/// distance.
#[derive(Clone, Copy)]
pub struct Reach {
    pub plain: u64,
    pub plain_wide: u64,
    pub boosted: u64,
    pub boosted_wide: u64,
}

/// How far a jump goes.
pub open spec fn reach_of(r: Reach, boost: bool, wide: bool) -> u64 {
    if boost {
        if wide {
            r.boosted_wide
        } else {
            r.boosted
        }
    } else if wide {
        r.plain_wide
    } else {
        r.plain
    }
}

fn reach_for(r: &Reach, boost: bool, wide: bool) -> (d: u64)
    ensures
        d == reach_of(*r, boost, wide),
{
    if boost {
        if wide {
            r.boosted_wide
        } else {
            r.boosted
        }
    } else if wide {
        r.plain_wide
    } else {
        r.plain
    }
}

/// A plot: the route so far, what is known of the systems, and those that the
/// segment has passed.
pub struct Plot {
    pub path: Vec<RouteNode>,
    pub atlas: Atlas,
    pub visited: HashSet<i64>,
}

/// A plot as mathematics.
#[verifier::ext_equal]
pub struct PlotView {
    pub path: Seq<RouteNode>,
    pub atlas: AtlasView,
    pub visited: Set<i64>,
}

/// The system that the plot has come to.
pub open spec fn here(s: PlotView) -> RouteNode {
    s.path.last()
}

/// `id` is the id of one of `stars`.
pub open spec fn has(stars: Seq<RouteNode>, id: i64) -> bool {
    exists|i: int| 0 <= i < stars.len() && (#[trigger] stars[i]).id64 == id
}

/// The next jump is boosted.
pub open spec fn is_boosted(s: PlotView, stars: Seq<RouteNode>) -> bool {
    has(stars, here(s).id64) || neutron::is_star(s.atlas, here(s).id64)
}

/// Every system lies in one cell, whose neighbours have coordinates of 32 bits.
pub open spec fn is_grid<C: Fn(RouteNode) -> Cell>(c: C) -> bool {
    &&& forall|a: RouteNode| #[trigger] call_requires(c, (a,))
    &&& forall|a: RouteNode, r: Cell, s: Cell| #[trigger]
        call_ensures(c, (a,), r) && #[trigger] call_ensures(c, (a,), s) ==> r == s
    &&& forall|a: RouteNode, r: Cell| #[trigger] call_ensures(c, (a,), r) ==> voxel::inside(r)
}

/// The cell that a system lies in.
pub open spec fn cell<C: Fn(RouteNode) -> Cell>(c: C, a: RouteNode) -> Cell {
    choose|r: Cell| call_ensures(c, (a,), r)
}

/// The cells that systems lie in.
pub open spec fn cells<C: Fn(RouteNode) -> Cell>(c: C, stars: Seq<RouteNode>) -> Seq<Cell> {
    stars.map_values(|n: RouteNode| cell(c, n))
}

/// The stars in the cells round a system, cell by cell.
pub open spec fn near_stars<C: Fn(RouteNode) -> Cell>(
    c: C,
    stars: Seq<RouteNode>,
    n: RouteNode,
) -> Seq<RouteNode> {
    voxel::near_first(cells(c, stars), cell(c, n), 125).map_values(|i: u32| stars[i as int])
}

/// The systems of `rows` that the segment has not passed, measured.
pub open spec fn candidates<M: Fn(RouteNode, RouteNode) -> u64>(
    m: M,
    rows: Seq<RouteNode>,
    s: PlotView,
    wp: RouteNode,
) -> Seq<route::Candidate> {
    route::measured(m, rows, here(s), wp, s.visited, rows.len() as int)
}

/// The plot after a jump to the star `n`.
pub open spec fn went(s: PlotView, n: RouteNode) -> PlotView {
    PlotView { path: s.path.push(n), atlas: s.atlas, visited: s.visited.insert(n.id64) }
}

/// The plot after a jump to the system `n` that no jet boosts from.
pub open spec fn went_plain(s: PlotView, n: RouteNode) -> PlotView {
    PlotView {
        atlas: neutron::marked(neutron::placed(s.atlas, n), n.id64, false),
        ..went(s, n)
    }
}

/// The plot after the jump to the waypoint.
pub open spec fn arrived(s: PlotView, wp: RouteNode) -> PlotView {
    PlotView { path: s.path.push(wp), ..s }
}

/// The waypoint is in reach.
pub open spec fn arrives<M: Fn(RouteNode, RouteNode) -> u64>(
    m: M,
    reach: Reach,
    s: PlotView,
    stars: Seq<RouteNode>,
    wp: RouteNode,
) -> bool {
    route::dist(m, here(s), wp) <= reach_of(reach, is_boosted(s, stars), false)
}

/// No star in reach brings the plot nearer to the waypoint.
pub open spec fn no_star<M: Fn(RouteNode, RouteNode) -> u64, C: Fn(RouteNode) -> Cell>(
    m: M,
    c: C,
    reach: Reach,
    s: PlotView,
    stars: Seq<RouteNode>,
    wp: RouteNode,
) -> bool {
    route::no_pick(
        candidates(m, near_stars(c, stars, here(s)), s, wp),
        reach_of(reach, is_boosted(s, stars), false),
        route::dist(m, here(s), wp),
    )
}

/// The plot goes on to the star in reach that is nearest to the waypoint.
pub open spec fn takes_star<M: Fn(RouteNode, RouteNode) -> u64, C: Fn(RouteNode) -> Cell>(
    m: M,
    c: C,
    reach: Reach,
    s: PlotView,
    stars: Seq<RouteNode>,
    wp: RouteNode,
    t: PlotView,
) -> bool {
    let cs = candidates(m, near_stars(c, stars, here(s)), s, wp);
    exists|i: int| #[trigger]
        route::is_pick(
            cs,
            reach_of(reach, is_boosted(s, stars), false),
            route::dist(m, here(s), wp),
            i,
        ) && t == went(s, cs[i].node)
}

/// Looking around shows no system in reach that is nearer to the waypoint.
pub open spec fn no_system<
    A: Fn(RouteNode, bool, bool) -> Result<Vec<RouteNode>, String>,
    M: Fn(RouteNode, RouteNode) -> u64,
>(
    around: A,
    m: M,
    reach: Reach,
    s: PlotView,
    stars: Seq<RouteNode>,
    wp: RouteNode,
    wide: bool,
) -> bool {
    exists|v: Vec<RouteNode>| #[trigger]
        call_ensures(
            around,
            (here(s), is_boosted(s, stars), wide),
            Ok::<Vec<RouteNode>, String>(v),
        ) && route::no_pick(
            candidates(m, v@, s, wp),
            reach_of(reach, is_boosted(s, stars), wide),
            route::dist(m, here(s), wp),
        )
}

/// The plot goes on to the system in reach that is nearest to the waypoint.
pub open spec fn takes_system<
    A: Fn(RouteNode, bool, bool) -> Result<Vec<RouteNode>, String>,
    M: Fn(RouteNode, RouteNode) -> u64,
>(
    around: A,
    m: M,
    reach: Reach,
    s: PlotView,
    stars: Seq<RouteNode>,
    wp: RouteNode,
    wide: bool,
    t: PlotView,
) -> bool {
    exists|v: Vec<RouteNode>, i: int| #[trigger]
        call_ensures(
            around,
            (here(s), is_boosted(s, stars), wide),
            Ok::<Vec<RouteNode>, String>(v),
        ) && #[trigger] route::is_pick(
            candidates(m, v@, s, wp),
            reach_of(reach, is_boosted(s, stars), wide),
            route::dist(m, here(s), wp),
            i,
        ) && t == went_plain(s, candidates(m, v@, s, wp)[i].node)
}

/// One jump towards the waypoint, which is not in reach yet: to a star if one
/// helps, else to another system in reach, else to one a little beyond it.
pub open spec fn is_move<
    A: Fn(RouteNode, bool, bool) -> Result<Vec<RouteNode>, String>,
    M: Fn(RouteNode, RouteNode) -> u64,
    C: Fn(RouteNode) -> Cell,
>(
    around: A,
    m: M,
    c: C,
    reach: Reach,
    stars: Seq<RouteNode>,
    wp: RouteNode,
    s: PlotView,
    t: PlotView,
) -> bool {
    &&& !arrives(m, reach, s, stars, wp)
    &&& {
        ||| takes_star(m, c, reach, s, stars, wp, t)
        ||| no_star(m, c, reach, s, stars, wp) && takes_system(
            around,
            m,
            reach,
            s,
            stars,
            wp,
            false,
            t,
        )
        ||| no_star(m, c, reach, s, stars, wp) && no_system(
            around,
            m,
            reach,
            s,
            stars,
            wp,
            false,
        ) && takes_system(around, m, reach, s, stars, wp, true, t)
    }
}

/// No jump leads nearer to the waypoint.
pub open spec fn is_stuck<
    A: Fn(RouteNode, bool, bool) -> Result<Vec<RouteNode>, String>,
    M: Fn(RouteNode, RouteNode) -> u64,
    C: Fn(RouteNode) -> Cell,
>(
    around: A,
    m: M,
    c: C,
    reach: Reach,
    stars: Seq<RouteNode>,
    wp: RouteNode,
    s: PlotView,
) -> bool {
    &&& !arrives(m, reach, s, stars, wp)
    &&& no_star(m, c, reach, s, stars, wp)
    &&& no_system(around, m, reach, s, stars, wp, false)
    &&& no_system(around, m, reach, s, stars, wp, true)
}

/// Looking around fails with the text `e`.
pub open spec fn cannot_look<A: Fn(RouteNode, bool, bool) -> Result<Vec<RouteNode>, String>>(
    around: A,
    s: PlotView,
    stars: Seq<RouteNode>,
    wide: bool,
    e: String,
) -> bool {
    call_ensures(
        around,
        (here(s), is_boosted(s, stars), wide),
        Err::<Vec<RouteNode>, String>(e),
    )
}

/// The next jump cannot be found because looking around fails.
pub open spec fn is_failure<
    A: Fn(RouteNode, bool, bool) -> Result<Vec<RouteNode>, String>,
    M: Fn(RouteNode, RouteNode) -> u64,
    C: Fn(RouteNode) -> Cell,
>(
    around: A,
    m: M,
    c: C,
    reach: Reach,
    stars: Seq<RouteNode>,
    wp: RouteNode,
    s: PlotView,
    e: String,
) -> bool {
    &&& !arrives(m, reach, s, stars, wp)
    &&& no_star(m, c, reach, s, stars, wp)
    &&& cannot_look(around, s, stars, false, e) || (no_system(
        around,
        m,
        reach,
        s,
        stars,
        wp,
        false,
    ) && cannot_look(around, s, stars, true, e))
}

/// How a turn of a segment ends.
enum Turn {
    Arrived,
    Moved,
    Stuck,
}

/// The stars of a segment, grouped by cell.
struct Segment {
    stars: Vec<RouteNode>,
    ids: HashSet<i64>,
    index: CellIndex,
}

impl Segment {
    spec fn wf<C: Fn(RouteNode) -> Cell>(&self, c: C) -> bool {
        &&& self.stars.len() <= SENTINEL
        &&& forall|id: i64| #[trigger] self.ids@.contains(id) <==> has(self.stars@, id)
        &&& self.index.groups_all(cells(c, self.stars@))
    }

    fn new<C: Fn(RouteNode) -> Cell>(stars: Vec<RouteNode>, c: &C) -> (r: Segment)
        requires
            stars.len() <= SENTINEL,
            is_grid(*c),
        ensures
            r.wf(*c),
            r.stars@ == stars@,
    {
        let mut ids: HashSet<i64> = HashSet::new();
        let mut at: Vec<Cell> = Vec::new();
        for i in 0..stars.len()
            invariant
                is_grid(*c),
                forall|id: i64| #[trigger]
                    ids@.contains(id) <==> has(stars@.take(i as int), id),
                at.len() == i,
                forall|k: int| 0 <= k < i ==> #[trigger] at@[k] == cell(*c, stars@[k]),
        {
            let n = stars[i];
            let ghost before = stars@.take(i as int);
            let ghost now = stars@.take(i + 1);
            assert(now =~= before.push(n));
            ids.insert(n.id64);
            at.push(c(n));
            assert forall|id: i64| #[trigger] ids@.contains(id) <==> has(now, id) by {
                if has(before, id) {
                    let k = choose|k: int| 0 <= k < before.len() && (#[trigger] before[k]).id64 == id;
                    assert(now[k].id64 == id);
                }
                if has(now, id) && id != n.id64 {
                    let k = choose|k: int| 0 <= k < now.len() && (#[trigger] now[k]).id64 == id;
                    assert(before[k].id64 == id);
                }
                assert(now[i as int].id64 == n.id64);
            }
        }
        assert(stars@.take(stars.len() as int) =~= stars@);
        assert(at@ =~= cells(*c, stars@));
        let index = CellIndex::build(&at);
        Segment { stars, ids, index }
    }

    /// The stars in the cells round a system.
    fn near<C: Fn(RouteNode) -> Cell>(&self, n: RouteNode, c: &C) -> (r: Vec<RouteNode>)
        requires
            self.wf(*c),
            is_grid(*c),
        ensures
            r@ == near_stars(*c, self.stars@, n),
    {
        let base = c(n);
        assert(base == cell(*c, n));
        let near = self.index.near(base);
        let ghost at = cells(*c, self.stars@);
        assert(near@ == voxel::near_first(at, base, 125));
        let mut r: Vec<RouteNode> = Vec::new();
        for i in 0..near.len()
            invariant
                self.wf(*c),
                at == cells(*c, self.stars@),
                voxel::inside(base),
                near@ == voxel::near_first(at, base, 125),
                r.len() == i,
                forall|k: int| 0 <= k < i ==> #[trigger] r@[k] == self.stars@[near@[k] as int],
        {
            proof {
                assert(near@.contains(near@[i as int]));
                voxel::law_near_is_the_cube(at, base, near@[i as int]);
            }
            r.push(self.stars[near[i] as usize]);
        }
        assert(r@ =~= near_stars(*c, self.stars@, n));
        r
    }
}

impl Plot {
    pub open spec fn view(&self) -> PlotView {
        PlotView { path: self.path@, atlas: self.atlas@, visited: self.visited@ }
    }

    /// The route has a start, and the atlas is in order.
    pub open spec fn wf(&self) -> bool {
        self.path.len() > 0 && self.atlas.wf()
    }

    /// Looks around for a system that is nearer to the waypoint, and goes there.
    fn go_plain<
        A: Fn(RouteNode, bool, bool) -> Result<Vec<RouteNode>, String>,
        M: Fn(RouteNode, RouteNode) -> u64,
    >(
        &mut self,
        around: &A,
        m: &M,
        reach: &Reach,
        boost: bool,
        wide: bool,
        wp: RouteNode,
        Ghost(stars): Ghost<Seq<RouteNode>>,
    ) -> (r: Result<bool, String>)
        requires
            old(self).wf(),
            route::measures(*m),
            forall|n: RouteNode, b: bool, w: bool| #[trigger] call_requires(*around, (n, b, w)),
            boost == is_boosted(old(self)@, stars),
        ensures
            final(self).wf(),
            match r {
                Ok(true) => takes_system(
                    *around,
                    *m,
                    *reach,
                    old(self)@,
                    stars,
                    wp,
                    wide,
                    final(self)@,
                ),
                Ok(false) => final(self)@ == old(self)@ && no_system(
                    *around,
                    *m,
                    *reach,
                    old(self)@,
                    stars,
                    wp,
                    wide,
                ),
                Err(e) => final(self)@ == old(self)@ && cannot_look(
                    *around,
                    old(self)@,
                    stars,
                    wide,
                    e,
                ),
            },
    {
        let ghost s = self@;
        let cur = self.path[self.path.len() - 1];
        let rows = match around(cur, boost, wide) {
            Ok(v) => v,
            Err(e) => {
                return Err(e);
            },
        };
        let left: u64 = m(cur, wp);
        assert(left == route::dist(*m, cur, wp));
        let cs = measure_all(m, &rows, cur, wp, &self.visited);
        assert(cs@ == candidates(*m, rows@, s, wp));
        match pick(&cs, reach_for(reach, boost, wide), left) {
            Some(i) => {
                let n = cs[i].node;
                self.atlas.place(n);
                self.atlas.mark(n.id64, false);
                self.visited.insert(n.id64);
                self.path.push(n);
                assert(self@ =~= went_plain(s, n));
                Ok(true)
            },
            None => Ok(false),
        }
    }

    /// One turn of a segment.
    fn turn<
        A: Fn(RouteNode, bool, bool) -> Result<Vec<RouteNode>, String>,
        M: Fn(RouteNode, RouteNode) -> u64,
        C: Fn(RouteNode) -> Cell,
    >(
        &mut self,
        around: &A,
        m: &M,
        c: &C,
        reach: &Reach,
        seg: &Segment,
        wp: RouteNode,
    ) -> (r: Result<Turn, String>)
        requires
            old(self).wf(),
            seg.wf(*c),
            route::measures(*m),
            is_grid(*c),
            forall|n: RouteNode, b: bool, w: bool| #[trigger] call_requires(*around, (n, b, w)),
        ensures
            final(self).wf(),
            match r {
                Ok(Turn::Arrived) => arrives(*m, *reach, old(self)@, seg.stars@, wp) && final(self)@
                    == arrived(old(self)@, wp),
                Ok(Turn::Moved) => is_move(
                    *around,
                    *m,
                    *c,
                    *reach,
                    seg.stars@,
                    wp,
                    old(self)@,
                    final(self)@,
                ),
                Ok(Turn::Stuck) => final(self)@ == old(self)@ && is_stuck(
                    *around,
                    *m,
                    *c,
                    *reach,
                    seg.stars@,
                    wp,
                    old(self)@,
                ),
                Err(e) => final(self)@ == old(self)@ && is_failure(
                    *around,
                    *m,
                    *c,
                    *reach,
                    seg.stars@,
                    wp,
                    old(self)@,
                    e,
                ),
            },
    {
        let ghost s = self@;
        let ghost stars = seg.stars@;
        let cur = self.path[self.path.len() - 1];
        let boost = seg.ids.contains(&cur.id64) || self.atlas.has_star(cur.id64);
        assert(boost == is_boosted(s, stars));
        let left: u64 = m(cur, wp);
        assert(left == route::dist(*m, cur, wp));
        let far: u64 = reach_for(reach, boost, false);
        if left <= far {
            self.path.push(wp);
            assert(self@ =~= arrived(s, wp));
            return Ok(Turn::Arrived);
        }
        let near = seg.near(cur, c);
        let cs = measure_all(m, &near, cur, wp, &self.visited);
        assert(cs@ == candidates(*m, near_stars(*c, stars, here(s)), s, wp));
        match pick(&cs, far, left) {
            Some(i) => {
                let n = cs[i].node;
                self.visited.insert(n.id64);
                self.path.push(n);
                assert(self@ =~= went(s, n));
                return Ok(Turn::Moved);
            },
            None => {},
        }
        match self.go_plain(around, m, reach, boost, false, wp, Ghost(stars)) {
            Ok(true) => {
                return Ok(Turn::Moved);
            },
            Ok(false) => {},
            Err(e) => {
                return Err(e);
            },
        }
        match self.go_plain(around, m, reach, boost, true, wp, Ghost(stars)) {
            Ok(true) => Ok(Turn::Moved),
            Ok(false) => Ok(Turn::Stuck),
            Err(e) => Err(e),
        }
    }
}

/// The plot at the start of a segment: its stars and its waypoint are known,
/// and it has passed the system that the plot has come to.
pub open spec fn begun(s: PlotView, stars: Seq<RouteNode>, wp: RouteNode) -> PlotView {
    PlotView {
        path: s.path,
        atlas: neutron::placed(neutron::starred(s.atlas, stars, stars.len() as int), wp),
        visited: Set::empty().insert(here(s).id64),
    }
}

/// `run` holds the plots of a segment, jump by jump.
pub open spec fn is_segment_run<
    A: Fn(RouteNode, bool, bool) -> Result<Vec<RouteNode>, String>,
    M: Fn(RouteNode, RouteNode) -> u64,
    C: Fn(RouteNode) -> Cell,
>(
    around: A,
    m: M,
    c: C,
    reach: Reach,
    stars: Seq<RouteNode>,
    wp: RouteNode,
    s: PlotView,
    run: Seq<PlotView>,
) -> bool {
    &&& 0 < run.len() <= SEGMENT_JUMPS + 1
    &&& run[0] == begun(s, stars, wp)
    &&& forall|i: int|
        0 <= i < run.len() - 1 ==> is_move(
            around,
            m,
            c,
            reach,
            stars,
            wp,
            #[trigger] run[i],
            run[i + 1],
        )
}

/// The segment ends with the plot `t`: at the waypoint, where it is stuck, or
/// after too many jumps.
pub open spec fn ends_segment<
    A: Fn(RouteNode, bool, bool) -> Result<Vec<RouteNode>, String>,
    M: Fn(RouteNode, RouteNode) -> u64,
    C: Fn(RouteNode) -> Cell,
>(
    around: A,
    m: M,
    c: C,
    reach: Reach,
    stars: Seq<RouteNode>,
    wp: RouteNode,
    run: Seq<PlotView>,
    t: PlotView,
) -> bool {
    let s = run.last();
    if run.len() > SEGMENT_JUMPS {
        t == s
    } else if arrives(m, reach, s, stars, wp) {
        t == arrived(s, wp)
    } else {
        t == s && is_stuck(around, m, c, reach, stars, wp, s)
    }
}

/// The segment from the plot `s` to the waypoint gives the plot `t`.
#[verifier::opaque]
pub open spec fn is_segment<
    S: Fn(RouteNode, RouteNode) -> Result<Vec<RouteNode>, String>,
    A: Fn(RouteNode, bool, bool) -> Result<Vec<RouteNode>, String>,
    M: Fn(RouteNode, RouteNode) -> u64,
    C: Fn(RouteNode) -> Cell,
>(
    segment: S,
    around: A,
    m: M,
    c: C,
    reach: Reach,
    wp: RouteNode,
    s: PlotView,
    t: PlotView,
) -> bool {
    exists|stars: Vec<RouteNode>, run: Seq<PlotView>| #[trigger]
        call_ensures(segment, (here(s), wp), Ok::<Vec<RouteNode>, String>(stars)) && #[trigger]
        is_segment_run(around, m, c, reach, stars@, wp, s, run) && ends_segment(
            around,
            m,
            c,
            reach,
            stars@,
            wp,
            run,
            t,
        )
}

/// The segment from the plot `s` to the waypoint fails with the text `e`.
pub open spec fn is_failed_segment<
    S: Fn(RouteNode, RouteNode) -> Result<Vec<RouteNode>, String>,
    A: Fn(RouteNode, bool, bool) -> Result<Vec<RouteNode>, String>,
    M: Fn(RouteNode, RouteNode) -> u64,
    C: Fn(RouteNode) -> Cell,
>(
    segment: S,
    around: A,
    m: M,
    c: C,
    reach: Reach,
    wp: RouteNode,
    s: PlotView,
    e: String,
) -> bool {
    ||| call_ensures(segment, (here(s), wp), Err::<Vec<RouteNode>, String>(e))
    ||| exists|stars: Vec<RouteNode>, run: Seq<PlotView>| #[trigger]
        call_ensures(segment, (here(s), wp), Ok::<Vec<RouteNode>, String>(stars)) && #[trigger]
        is_segment_run(around, m, c, reach, stars@, wp, s, run) && run.len() <= SEGMENT_JUMPS
            && is_failure(around, m, c, reach, stars@, wp, run.last(), e)
}

impl Plot {
    /// Plots one segment.
    fn segment<
        S: Fn(RouteNode, RouteNode) -> Result<Vec<RouteNode>, String>,
        A: Fn(RouteNode, bool, bool) -> Result<Vec<RouteNode>, String>,
        M: Fn(RouteNode, RouteNode) -> u64,
        C: Fn(RouteNode) -> Cell,
    >(
        &mut self,
        segment: &S,
        around: &A,
        m: &M,
        c: &C,
        reach: &Reach,
        wp: RouteNode,
    ) -> (r: Result<(), String>)
        requires
            old(self).wf(),
            route::measures(*m),
            is_grid(*c),
            forall|a: RouteNode, b: RouteNode| #[trigger] call_requires(*segment, (a, b)),
            forall|a: RouteNode, b: RouteNode, v: Vec<RouteNode>| #[trigger]
                call_ensures(*segment, (a, b), Ok::<Vec<RouteNode>, String>(v)) ==> v.len()
                    <= SENTINEL,
            forall|n: RouteNode, b: bool, w: bool| #[trigger] call_requires(*around, (n, b, w)),
        ensures
            final(self).wf(),
            match r {
                Ok(_) => is_segment(
                    *segment,
                    *around,
                    *m,
                    *c,
                    *reach,
                    wp,
                    old(self)@,
                    final(self)@,
                ),
                Err(e) => is_failed_segment(
                    *segment,
                    *around,
                    *m,
                    *c,
                    *reach,
                    wp,
                    old(self)@,
                    e,
                ),
            },
    {
        let ghost s = self@;
        let cur = self.path[self.path.len() - 1];
        let stars = match segment(cur, wp) {
            Ok(v) => v,
            Err(e) => {
                return Err(e);
            },
        };
        self.atlas.add_stars(&stars);
        self.atlas.place(wp);
        self.visited = HashSet::new();
        self.visited.insert(cur.id64);
        assert(self@ =~= begun(s, stars@, wp));
        let ghost all = stars;
        let seg = Segment::new(stars, c);
        let ghost mut run: Seq<PlotView> = seq![self@];
        for k in 0..SEGMENT_JUMPS
            invariant
                self.wf(),
                seg.wf(*c),
                seg.stars@ == all@,
                route::measures(*m),
                is_grid(*c),
                forall|n: RouteNode, b: bool, w: bool| #[trigger] call_requires(*around, (n, b, w)),
                s == old(self)@,
                call_ensures(*segment, (here(s), wp), Ok::<Vec<RouteNode>, String>(all)),
                is_segment_run(*around, *m, *c, *reach, all@, wp, s, run),
                run.len() == k + 1,
                run.last() == self@,
        {
            let ghost before = self@;
            let turn = self.turn(around, m, c, reach, &seg, wp);
            match turn {
                Ok(Turn::Moved) => {
                    proof {
                        let next = run.push(self@);
                        assert forall|i: int| 0 <= i < next.len() - 1 implies is_move(
                            *around,
                            *m,
                            *c,
                            *reach,
                            all@,
                            wp,
                            #[trigger] next[i],
                            next[i + 1],
                        ) by {
                            if i < run.len() - 1 {
                                assert(next[i] == run[i]);
                            }
                        }
                        run = next;
                    }
                },
                Ok(_) => {
                    proof {
                        reveal(is_segment);
                        assert(ends_segment(*around, *m, *c, *reach, all@, wp, run, self@));
                    }
                    return Ok(());
                },
                Err(e) => {
                    return Err(e);
                },
            }
        }
        proof {
            reveal(is_segment);
            assert(ends_segment(*around, *m, *c, *reach, all@, wp, run, self@));
        }
        Ok(())
    }
}

/// The plot before the first segment.
pub open spec fn first_plot(src: RouteNode, dst: RouteNode) -> PlotView {
    PlotView {
        path: seq![src],
        atlas: neutron::placed(
            neutron::placed(
                (AtlasView { places: Map::empty(), neutron: Map::empty() }),
                src,
            ),
            dst,
        ),
        visited: Set::empty(),
    }
}

/// `run` holds the plots from segment to segment.
pub open spec fn is_plot_run<
    S: Fn(RouteNode, RouteNode) -> Result<Vec<RouteNode>, String>,
    A: Fn(RouteNode, bool, bool) -> Result<Vec<RouteNode>, String>,
    M: Fn(RouteNode, RouteNode) -> u64,
    C: Fn(RouteNode) -> Cell,
>(
    segment: S,
    around: A,
    m: M,
    c: C,
    reach: Reach,
    src: RouteNode,
    dst: RouteNode,
    waypoints: Seq<RouteNode>,
    run: Seq<PlotView>,
) -> bool {
    &&& 0 < run.len() <= waypoints.len() + 1
    &&& run[0] == first_plot(src, dst)
    &&& forall|i: int|
        0 <= i < run.len() - 1 ==> is_segment(
            segment,
            around,
            m,
            c,
            reach,
            waypoints[i],
            #[trigger] run[i],
            run[i + 1],
        )
}

proof fn lemma_one_more<
    S: Fn(RouteNode, RouteNode) -> Result<Vec<RouteNode>, String>,
    A: Fn(RouteNode, bool, bool) -> Result<Vec<RouteNode>, String>,
    M: Fn(RouteNode, RouteNode) -> u64,
    C: Fn(RouteNode) -> Cell,
>(
    segment: S,
    around: A,
    m: M,
    c: C,
    reach: Reach,
    src: RouteNode,
    dst: RouteNode,
    waypoints: Seq<RouteNode>,
    run: Seq<PlotView>,
    t: PlotView,
)
    requires
        is_plot_run(segment, around, m, c, reach, src, dst, waypoints, run),
        run.len() <= waypoints.len(),
        is_segment(segment, around, m, c, reach, waypoints[run.len() - 1], run.last(), t),
    ensures
        is_plot_run(segment, around, m, c, reach, src, dst, waypoints, run.push(t)),
{
    let next = run.push(t);
    assert forall|i: int| 0 <= i < next.len() - 1 implies is_segment(
        segment,
        around,
        m,
        c,
        reach,
        waypoints[i],
        #[trigger] next[i],
        next[i + 1],
    ) by {
        if i < run.len() - 1 {
            assert(next[i] == run[i]);
        }
    }
}

/// Plots the route from `src` along the waypoints. `segment` gives the neutron
/// stars along a segment, `around` the systems round a system.
pub fn plot_route<
    S: Fn(RouteNode, RouteNode) -> Result<Vec<RouteNode>, String>,
    A: Fn(RouteNode, bool, bool) -> Result<Vec<RouteNode>, String>,
    M: Fn(RouteNode, RouteNode) -> u64,
    C: Fn(RouteNode) -> Cell,
>(
    src: RouteNode,
    dst: RouteNode,
    waypoints: &Vec<RouteNode>,
    reach: &Reach,
    segment: S,
    around: A,
    m: M,
    c: C,
) -> (r: Result<Plot, String>)
    requires
        route::measures(m),
        is_grid(c),
        forall|a: RouteNode, b: RouteNode| #[trigger] call_requires(segment, (a, b)),
        forall|a: RouteNode, b: RouteNode, v: Vec<RouteNode>| #[trigger]
            call_ensures(segment, (a, b), Ok::<Vec<RouteNode>, String>(v)) ==> v.len() <= SENTINEL,
        forall|n: RouteNode, b: bool, w: bool| #[trigger] call_requires(around, (n, b, w)),
    ensures
        match r {
            Ok(p) => p.wf() && exists|run: Seq<PlotView>| #[trigger]
                is_plot_run(segment, around, m, c, *reach, src, dst, waypoints@, run) && run.len()
                    == waypoints.len() + 1 && p@ == run.last(),
            Err(e) => exists|run: Seq<PlotView>| #[trigger]
                is_plot_run(segment, around, m, c, *reach, src, dst, waypoints@, run) && run.len()
                    <= waypoints.len() && is_failed_segment(
                    segment,
                    around,
                    m,
                    c,
                    *reach,
                    waypoints@[run.len() - 1],
                    run.last(),
                    e,
                ),
        },
{
    let mut atlas = Atlas::new();
    atlas.place(src);
    atlas.place(dst);
    let mut path: Vec<RouteNode> = Vec::new();
    path.push(src);
    let mut p = Plot { path, atlas, visited: HashSet::new() };
    assert(p@ =~= first_plot(src, dst));
    let ghost mut run: Seq<PlotView> = seq![p@];
    for k in 0..waypoints.len()
        invariant
            route::measures(m),
            is_grid(c),
            forall|a: RouteNode, b: RouteNode| #[trigger] call_requires(segment, (a, b)),
            forall|a: RouteNode, b: RouteNode, v: Vec<RouteNode>| #[trigger]
                call_ensures(segment, (a, b), Ok::<Vec<RouteNode>, String>(v)) ==> v.len()
                    <= SENTINEL,
            forall|n: RouteNode, b: bool, w: bool| #[trigger] call_requires(around, (n, b, w)),
            p.wf(),
            is_plot_run(segment, around, m, c, *reach, src, dst, waypoints@, run),
            run.len() == k + 1,
            run.last() == p@,
    {
        match p.segment(&segment, &around, &m, &c, reach, waypoints[k]) {
            Ok(_) => {},
            Err(e) => {
                return Err(e);
            },
        }
        proof {
            lemma_one_more(segment, around, m, c, *reach, src, dst, waypoints@, run, p@);
            run = run.push(p@);
        }
    }
    Ok(p)
}

/// Every jump of a segment goes to a system that the segment has not passed;
/// it is in reach and brings the plot nearer to the waypoint.
pub proof fn law_moves_approach<
    A: Fn(RouteNode, bool, bool) -> Result<Vec<RouteNode>, String>,
    M: Fn(RouteNode, RouteNode) -> u64,
    C: Fn(RouteNode) -> Cell,
>(
    around: A,
    m: M,
    c: C,
    reach: Reach,
    stars: Seq<RouteNode>,
    wp: RouteNode,
    s: PlotView,
    t: PlotView,
)
    requires
        is_move(around, m, c, reach, stars, wp, s, t),
    ensures
        t.path == s.path.push(here(t)),
        t.visited == s.visited.insert(here(t).id64),
        !s.visited.contains(here(t).id64),
        0 < route::dist(m, here(t), here(s)),
        route::dist(m, here(t), here(s)) <= reach_of(reach, is_boosted(s, stars), false)
            || route::dist(m, here(t), here(s)) <= reach_of(reach, is_boosted(s, stars), true),
        route::dist(m, here(t), wp) < route::dist(m, here(s), wp),
{
    let boost = is_boosted(s, stars);
    let left = route::dist(m, here(s), wp);
    if takes_star(m, c, reach, s, stars, wp, t) {
        let rows = near_stars(c, stars, here(s));
        let cs = candidates(m, rows, s, wp);
        let i = choose|i: int| #[trigger]
            route::is_pick(cs, reach_of(reach, boost, false), left, i) && t == went(s, cs[i].node);
        route::lemma_measured(m, rows, here(s), wp, s.visited, rows.len() as int, i);
        assert(here(t) == cs[i].node);
    } else {
        let wide = !takes_system(around, m, reach, s, stars, wp, false, t);
        assert(takes_system(around, m, reach, s, stars, wp, wide, t));
        let (v, i) = choose|v: Vec<RouteNode>, i: int| #[trigger]
            call_ensures(around, (here(s), boost, wide), Ok::<Vec<RouteNode>, String>(v))
                && #[trigger] route::is_pick(
                candidates(m, v@, s, wp),
                reach_of(reach, boost, wide),
                left,
                i,
            ) && t == went_plain(s, candidates(m, v@, s, wp)[i].node);
        route::lemma_measured(m, v@, here(s), wp, s.visited, v@.len() as int, i);
        assert(here(t) == candidates(m, v@, s, wp)[i].node);
    }
}

/// A segment passes no system twice before it comes to its waypoint.
pub proof fn law_segments_never_return<
    A: Fn(RouteNode, bool, bool) -> Result<Vec<RouteNode>, String>,
    M: Fn(RouteNode, RouteNode) -> u64,
    C: Fn(RouteNode) -> Cell,
>(
    around: A,
    m: M,
    c: C,
    reach: Reach,
    stars: Seq<RouteNode>,
    wp: RouteNode,
    s: PlotView,
    run: Seq<PlotView>,
    i: int,
    j: int,
)
    requires
        is_segment_run(around, m, c, reach, stars, wp, s, run),
        s.path.len() > 0,
        0 <= i < j < run.len(),
    ensures
        here(run[i]).id64 != here(run[j]).id64,
{
    lemma_visited(around, m, c, reach, stars, wp, s, run, i, j - 1);
    assert(is_move(around, m, c, reach, stars, wp, run[j - 1], run[j - 1 + 1]));
    law_moves_approach(around, m, c, reach, stars, wp, run[j - 1], run[j]);
}

proof fn lemma_visited<
    A: Fn(RouteNode, bool, bool) -> Result<Vec<RouteNode>, String>,
    M: Fn(RouteNode, RouteNode) -> u64,
    C: Fn(RouteNode) -> Cell,
>(
    around: A,
    m: M,
    c: C,
    reach: Reach,
    stars: Seq<RouteNode>,
    wp: RouteNode,
    s: PlotView,
    run: Seq<PlotView>,
    i: int,
    j: int,
)
    requires
        is_segment_run(around, m, c, reach, stars, wp, s, run),
        s.path.len() > 0,
        0 <= i <= j < run.len(),
    ensures
        run[j].visited.contains(here(run[i]).id64),
    decreases j,
{
    if j > 0 {
        assert(is_move(around, m, c, reach, stars, wp, run[j - 1], run[j - 1 + 1]));
        law_moves_approach(around, m, c, reach, stars, wp, run[j - 1], run[j]);
        if i < j {
            lemma_visited(around, m, c, reach, stars, wp, s, run, i, j - 1);
        }
    }
}

/// The ids of the systems of a route.
pub open spec fn ids(path: Seq<RouteNode>) -> Seq<i64> {
    path.map_values(|n: RouteNode| n.id64)
}

/// Every system of `rows` with the id of `n` lies where `n` does.
pub open spec fn agrees(rows: Seq<RouteNode>, n: RouteNode) -> bool {
    forall|i: int| 0 <= i < rows.len() && (#[trigger] rows[i]).id64 == n.id64 ==> rows[i] == n
}

/// Looking around shows `n` nowhere but in its place.
pub open spec fn has_one_place<A: Fn(RouteNode, bool, bool) -> Result<Vec<RouteNode>, String>>(
    around: A,
    n: RouteNode,
) -> bool {
    forall|a: RouteNode, b: bool, w: bool, v: Vec<RouteNode>| #[trigger]
        call_ensures(around, (a, b, w), Ok::<Vec<RouteNode>, String>(v)) ==> agrees(v@, n)
}

/// The stars along a segment, of which there are not too many, show `n` nowhere
/// but in its place.
pub open spec fn shows_one_place<S: Fn(RouteNode, RouteNode) -> Result<Vec<RouteNode>, String>>(
    segment: S,
    n: RouteNode,
) -> bool {
    forall|a: RouteNode, b: RouteNode, v: Vec<RouteNode>| #[trigger]
        call_ensures(segment, (a, b), Ok::<Vec<RouteNode>, String>(v)) ==> v.len() <= SENTINEL
            && agrees(v@, n)
}

/// `n` is nowhere but where it is, and as far from a system as that from it.
pub open spec fn is_fixed<M: Fn(RouteNode, RouteNode) -> u64>(m: M, n: RouteNode) -> bool {
    &&& route::dist(m, n, n) == 0
    &&& forall|a: RouteNode| #[trigger] route::dist(m, n, a) == route::dist(m, a, n)
}

/// A jump that goes to the waypoint itself is one a little beyond the reach:
/// a waypoint in reach has been come to before.
proof fn lemma_move_to_waypoint<
    A: Fn(RouteNode, bool, bool) -> Result<Vec<RouteNode>, String>,
    M: Fn(RouteNode, RouteNode) -> u64,
    C: Fn(RouteNode) -> Cell,
>(
    around: A,
    m: M,
    c: C,
    reach: Reach,
    stars: Seq<RouteNode>,
    wp: RouteNode,
    s: PlotView,
    t: PlotView,
)
    requires
        is_move(around, m, c, reach, stars, wp, s, t),
        stars.len() <= SENTINEL,
        agrees(stars, wp),
        has_one_place(around, wp),
        is_fixed(m, wp),
        here(t).id64 == wp.id64,
    ensures
        here(t) == wp,
        takes_system(around, m, reach, s, stars, wp, true, t),
{
    let boost = is_boosted(s, stars);
    let left = route::dist(m, here(s), wp);
    if takes_star(m, c, reach, s, stars, wp, t) {
        let rows = near_stars(c, stars, here(s));
        let cs = candidates(m, rows, s, wp);
        let i = choose|i: int| #[trigger]
            route::is_pick(cs, reach_of(reach, boost, false), left, i) && t == went(s, cs[i].node);
        route::lemma_measured(m, rows, here(s), wp, s.visited, rows.len() as int, i);
        assert(here(t) == cs[i].node);
        let k = choose|k: int| 0 <= k < rows.len() && rows[k] == cs[i].node;
        let near = voxel::near_first(cells(c, stars), cell(c, here(s)), 125);
        assert(near.contains(near[k]));
        voxel::lemma_near_first(cells(c, stars), cell(c, here(s)), 125, near[k]);
        assert(rows[k] == stars[near[k] as int]);
        assert(route::dist(m, wp, here(s)) == left);
    } else {
        let wide = !takes_system(around, m, reach, s, stars, wp, false, t);
        assert(takes_system(around, m, reach, s, stars, wp, wide, t));
        let (v, i) = choose|v: Vec<RouteNode>, i: int| #[trigger]
            call_ensures(around, (here(s), boost, wide), Ok::<Vec<RouteNode>, String>(v))
                && #[trigger] route::is_pick(
                candidates(m, v@, s, wp),
                reach_of(reach, boost, wide),
                left,
                i,
            ) && t == went_plain(s, candidates(m, v@, s, wp)[i].node);
        route::lemma_measured(m, v@, here(s), wp, s.visited, v@.len() as int, i);
        assert(here(t) == candidates(m, v@, s, wp)[i].node);
        assert(agrees(v@, wp));
        let k = choose|k: int| 0 <= k < v@.len() && v@[k] == here(t);
        assert(v@[k] == wp);
        assert(route::dist(m, wp, here(s)) == left);
    }
}

/// The segment came to its waypoint by a jump a little beyond the reach, and
/// then once more.
pub open spec fn overreached<
    A: Fn(RouteNode, bool, bool) -> Result<Vec<RouteNode>, String>,
    M: Fn(RouteNode, RouteNode) -> u64,
>(
    around: A,
    m: M,
    reach: Reach,
    stars: Seq<RouteNode>,
    wp: RouteNode,
    run: Seq<PlotView>,
    t: PlotView,
) -> bool {
    &&& run.len() > 1
    &&& takes_system(around, m, reach, run[run.len() - 2], stars, wp, true, run.last())
    &&& here(run.last()) == wp
    &&& t == arrived(run.last(), wp)
}

/// A segment from a route that has not passed the waypoint comes to it once
/// and ends there, or does not come to it; it comes to it once more only where
/// a jump a little beyond the reach led there.
pub proof fn law_segments_come_once<
    A: Fn(RouteNode, bool, bool) -> Result<Vec<RouteNode>, String>,
    M: Fn(RouteNode, RouteNode) -> u64,
    C: Fn(RouteNode) -> Cell,
>(
    around: A,
    m: M,
    c: C,
    reach: Reach,
    stars: Seq<RouteNode>,
    wp: RouteNode,
    s: PlotView,
    run: Seq<PlotView>,
    t: PlotView,
)
    requires
        is_segment_run(around, m, c, reach, stars, wp, s, run),
        ends_segment(around, m, c, reach, stars, wp, run, t),
        stars.len() <= SENTINEL,
        agrees(stars, wp),
        has_one_place(around, wp),
        is_fixed(m, wp),
        !ids(s.path).contains(wp.id64),
    ensures
        !ids(t.path).contains(wp.id64) || route::passes_at_end(ids(t.path), wp.id64)
            || overreached(around, m, reach, stars, wp, run, t),
{
    let n = run.len() - 1;
    lemma_comes_once(around, m, c, reach, stars, wp, s, run, n);
    let u = run.last();
    if t == arrived(u, wp) && !ids(u.path).contains(wp.id64) {
        lemma_pushed(u.path, wp);
    }
}

/// A route that has not passed a system passes it at its end after a jump to
/// it.
proof fn lemma_pushed(path: Seq<RouteNode>, n: RouteNode)
    requires
        !ids(path).contains(n.id64),
    ensures
        route::passes_at_end(ids(path.push(n)), n.id64),
{
    let p = ids(path.push(n));
    assert forall|i: int| 0 <= i < p.len() - 1 implies #[trigger] p[i] != n.id64 by {
        assert(p[i] == ids(path)[i]);
    }
}

proof fn lemma_comes_once<
    A: Fn(RouteNode, bool, bool) -> Result<Vec<RouteNode>, String>,
    M: Fn(RouteNode, RouteNode) -> u64,
    C: Fn(RouteNode) -> Cell,
>(
    around: A,
    m: M,
    c: C,
    reach: Reach,
    stars: Seq<RouteNode>,
    wp: RouteNode,
    s: PlotView,
    run: Seq<PlotView>,
    k: int,
)
    requires
        is_segment_run(around, m, c, reach, stars, wp, s, run),
        stars.len() <= SENTINEL,
        agrees(stars, wp),
        has_one_place(around, wp),
        is_fixed(m, wp),
        !ids(s.path).contains(wp.id64),
        0 <= k < run.len(),
    ensures
        !ids(run[k].path).contains(wp.id64) || (k == run.len() - 1 && k > 0 && here(run[k]) == wp
            && route::passes_at_end(ids(run[k].path), wp.id64) && takes_system(
            around,
            m,
            reach,
            run[k - 1],
            stars,
            wp,
            true,
            run[k],
        )),
    decreases k,
{
    if k > 0 {
        let a = run[k - 1];
        let b = run[k];
        lemma_comes_once(around, m, c, reach, stars, wp, s, run, k - 1);
        assert(is_move(around, m, c, reach, stars, wp, run[k - 1], run[k - 1 + 1]));
        law_moves_approach(around, m, c, reach, stars, wp, a, b);
        let to = here(b);
        if to.id64 == wp.id64 {
            lemma_move_to_waypoint(around, m, c, reach, stars, wp, a, b);
            lemma_pushed(a.path, wp);
            if k < run.len() - 1 {
                assert(is_move(around, m, c, reach, stars, wp, run[k], run[k + 1]));
            }
        } else if ids(b.path).contains(wp.id64) {
            let i = choose|i: int| 0 <= i < ids(b.path).len() && ids(b.path)[i] == wp.id64;
            assert(ids(a.path)[i] == wp.id64);
        }
    }
}

/// The last segment of a plot came to the destination by a jump a little
/// beyond the reach, and then once more.
pub open spec fn ends_overreached<
    S: Fn(RouteNode, RouteNode) -> Result<Vec<RouteNode>, String>,
    A: Fn(RouteNode, bool, bool) -> Result<Vec<RouteNode>, String>,
    M: Fn(RouteNode, RouteNode) -> u64,
    C: Fn(RouteNode) -> Cell,
>(
    segment: S,
    around: A,
    m: M,
    c: C,
    reach: Reach,
    dst: RouteNode,
    s: PlotView,
    t: PlotView,
) -> bool {
    exists|stars: Vec<RouteNode>, run: Seq<PlotView>| #[trigger]
        call_ensures(segment, (here(s), dst), Ok::<Vec<RouteNode>, String>(stars)) && #[trigger]
        is_segment_run(around, m, c, reach, stars@, dst, s, run) && overreached(
            around,
            m,
            reach,
            stars@,
            dst,
            run,
            t,
        )
}

proof fn lemma_last_segment<
    S: Fn(RouteNode, RouteNode) -> Result<Vec<RouteNode>, String>,
    A: Fn(RouteNode, bool, bool) -> Result<Vec<RouteNode>, String>,
    M: Fn(RouteNode, RouteNode) -> u64,
    C: Fn(RouteNode) -> Cell,
>(
    segment: S,
    around: A,
    m: M,
    c: C,
    reach: Reach,
    dst: RouteNode,
    s: PlotView,
    t: PlotView,
)
    requires
        is_segment(segment, around, m, c, reach, dst, s, t),
        shows_one_place(segment, dst),
        has_one_place(around, dst),
        is_fixed(m, dst),
        !ids(s.path).contains(dst.id64),
    ensures
        !ids(t.path).contains(dst.id64) || route::passes_at_end(ids(t.path), dst.id64)
            || ends_overreached(segment, around, m, c, reach, dst, s, t),
{
    reveal(is_segment);
    let (stars, run) = choose|stars: Vec<RouteNode>, run: Seq<PlotView>| #[trigger]
        call_ensures(segment, (here(s), dst), Ok::<Vec<RouteNode>, String>(stars)) && #[trigger]
        is_segment_run(around, m, c, reach, stars@, dst, s, run) && ends_segment(
            around,
            m,
            c,
            reach,
            stars@,
            dst,
            run,
            t,
        );
    law_segments_come_once(around, m, c, reach, stars@, dst, s, run, t);
}

/// A plot over all its segments passes the destination once, at its end, or has
/// not come to it, where it has not passed it before the last segment; it
/// passes it once more only where a jump a little beyond the reach led there.
pub proof fn law_plots_pass_the_destination_once<
    S: Fn(RouteNode, RouteNode) -> Result<Vec<RouteNode>, String>,
    A: Fn(RouteNode, bool, bool) -> Result<Vec<RouteNode>, String>,
    M: Fn(RouteNode, RouteNode) -> u64,
    C: Fn(RouteNode) -> Cell,
>(
    segment: S,
    around: A,
    m: M,
    c: C,
    reach: Reach,
    src: RouteNode,
    dst: RouteNode,
    waypoints: Seq<RouteNode>,
    run: Seq<PlotView>,
)
    requires
        is_plot_run(segment, around, m, c, reach, src, dst, waypoints, run),
        waypoints.len() > 0,
        waypoints.last() == dst,
        run.len() == waypoints.len() + 1,
        shows_one_place(segment, dst),
        has_one_place(around, dst),
        is_fixed(m, dst),
        !ids(run[run.len() - 2].path).contains(dst.id64),
    ensures
        ({
            let t = run.last();
            ||| !ids(t.path).contains(dst.id64)
            ||| route::passes_at_end(ids(t.path), dst.id64)
            ||| ends_overreached(segment, around, m, c, reach, dst, run[run.len() - 2], t)
        }),
{
    let n = run.len() - 2;
    assert(waypoints[n] == dst);
    assert(is_segment(segment, around, m, c, reach, waypoints[n], run[n], run[n + 1]));
    lemma_last_segment(segment, around, m, c, reach, dst, run[n], run.last());
}

impl Plot {
    /// The last hop: a route that does not end at the destination is led there
    /// where the gap is small enough for the system that it ends at. Whether the
    /// route then ends at the destination; it passes it only there if it did not
    /// pass it before.
    pub fn close(&mut self, dst: RouteNode, gap: u64, plain_gap: u64, boosted_gap: u64) -> (r: bool)
        requires
            old(self).wf(),
        ensures
            final(self).wf(),
            final(self).atlas@ == old(self).atlas@,
            final(self).visited@ == old(self).visited@,
            r == (here(final(self)@).id64 == dst.id64),
            final(self).path@ == {
                let last = here(old(self)@).id64;
                let limit = if neutron::is_star(old(self).atlas@, last) {
                    boosted_gap
                } else {
                    plain_gap
                };
                if last != dst.id64 && gap <= limit {
                    old(self).path@.push(dst)
                } else {
                    old(self).path@
                }
            },
            r && (!ids(old(self).path@).contains(dst.id64) || route::passes_at_end(
                ids(old(self).path@),
                dst.id64,
            )) ==> route::passes_at_end(ids(final(self).path@), dst.id64),
    {
        proof {
            let was = ids(self.path@);
            assert(was.last() == here(self@).id64);
            if !was.contains(dst.id64) {
                assert(was[was.len() - 1] == was.last());
                lemma_pushed(self.path@, dst);
            }
        }
        let last: i64 = self.path[self.path.len() - 1].id64;
        if last == dst.id64 {
            return true;
        }
        let limit: u64 = if self.atlas.has_star(last) {
            boosted_gap
        } else {
            plain_gap
        };
        if gap <= limit {
            self.path.push(dst);
            true
        } else {
            false
        }
    }
}

/// The text for a route that ends before the destination; the distance that is
/// left and the two ranges are given as texts.
pub fn partial_route(left: &str, base: &str, boosted: &str) -> (r: String)
    ensures
        r@ == "Partial route only: reached "@ + left@
            + " LY from destination but could not bridge the final gap. Base "@ + base@
            + " LY / boosted "@ + boosted@ + " LY. Try a ship with longer jump range."@,
{
    let mut r = String::new();
    r.append("Partial route only: reached ");
    r.append(left);
    r.append(" LY from destination but could not bridge the final gap. Base ");
    r.append(base);
    r.append(" LY / boosted ");
    r.append(boosted);
    r.append(" LY. Try a ship with longer jump range.");
    assert(r@ =~= "Partial route only: reached "@ + left@
        + " LY from destination but could not bridge the final gap. Base "@ + base@
        + " LY / boosted "@ + boosted@ + " LY. Try a ship with longer jump range."@);
    r
}

/// A jump from a neutron star goes as far as a jet boosts it, and any other as
/// far as the drive goes; a little further only where nothing nearer helps.
pub proof fn law_jumps_are_in_reach<
    A: Fn(RouteNode, bool, bool) -> Result<Vec<RouteNode>, String>,
    M: Fn(RouteNode, RouteNode) -> u64,
    C: Fn(RouteNode) -> Cell,
>(
    around: A,
    m: M,
    c: C,
    reach: Reach,
    stars: Seq<RouteNode>,
    wp: RouteNode,
    s: PlotView,
    t: PlotView,
)
    requires
        is_move(around, m, c, reach, stars, wp, s, t),
    ensures
        ({
            let at_star = (exists|i: int|
                0 <= i < stars.len() && (#[trigger] stars[i]).id64 == s.path.last().id64) || (
            s.atlas.neutron.contains_key(s.path.last().id64)
                && s.atlas.neutron[s.path.last().id64]);
            let d = route::dist(m, t.path.last(), s.path.last());
            &&& at_star ==> d <= reach.boosted || d <= reach.boosted_wide
            &&& !at_star ==> d <= reach.plain || d <= reach.plain_wide
            &&& at_star ==> route::dist(m, s.path.last(), wp) > reach.boosted
            &&& !at_star ==> route::dist(m, s.path.last(), wp) > reach.plain
        }),
{
    law_moves_approach(around, m, c, reach, stars, wp, s, t);
}

/// A plot goes on to a neutron star near it that helps, before any other system,
/// and to none that leaves more of the way to the waypoint than another such
/// star.
pub proof fn law_stars_go_first<
    A: Fn(RouteNode, bool, bool) -> Result<Vec<RouteNode>, String>,
    M: Fn(RouteNode, RouteNode) -> u64,
    C: Fn(RouteNode) -> Cell,
>(
    around: A,
    m: M,
    c: C,
    reach: Reach,
    stars: Seq<RouteNode>,
    wp: RouteNode,
    s: PlotView,
    t: PlotView,
    k: int,
)
    requires
        is_move(around, m, c, reach, stars, wp, s, t),
        0 <= k < near_stars(c, stars, s.path.last()).len(),
        ({
            let x = near_stars(c, stars, s.path.last())[k];
            &&& !s.visited.contains(x.id64)
            &&& 0 < route::dist(m, x, s.path.last()) <= reach_of(
                reach,
                is_boosted(s, stars),
                false,
            )
            &&& route::dist(m, x, wp) < route::dist(m, s.path.last(), wp)
        }),
    ensures
        near_stars(c, stars, s.path.last()).contains(t.path.last()),
        route::dist(m, t.path.last(), wp) <= route::dist(
            m,
            near_stars(c, stars, s.path.last())[k],
            wp,
        ),
{
    let rows = near_stars(c, stars, here(s));
    let boost = is_boosted(s, stars);
    let left = route::dist(m, here(s), wp);
    let cs = candidates(m, rows, s, wp);
    if takes_star(m, c, reach, s, stars, wp, t) {
        let i = choose|i: int| #[trigger]
            route::is_pick(cs, reach_of(reach, boost, false), left, i) && t == went(s, cs[i].node);
        route::law_the_nearest_in_reach_is_picked(
            m,
            rows,
            here(s),
            wp,
            s.visited,
            reach_of(reach, boost, false),
            left,
            i,
            k,
        );
        assert(t.path.last() == cs[i].node);
    } else {
        route::law_the_nearest_in_reach_is_picked(
            m,
            rows,
            here(s),
            wp,
            s.visited,
            reach_of(reach, boost, false),
            left,
            0,
            k,
        );
    }
}

/// Looking around shows no system in reach, and not passed yet, that is nearer
/// to the waypoint.
pub open spec fn sees_none_nearer<
    A: Fn(RouteNode, bool, bool) -> Result<Vec<RouteNode>, String>,
    M: Fn(RouteNode, RouteNode) -> u64,
>(
    around: A,
    m: M,
    far: u64,
    s: PlotView,
    boost: bool,
    wp: RouteNode,
    wide: bool,
) -> bool {
    exists|v: Vec<RouteNode>| #[trigger]
        call_ensures(around, (s.path.last(), boost, wide), Ok::<Vec<RouteNode>, String>(v))
            && forall|x: RouteNode| #[trigger]
            v@.contains(x) && !s.visited.contains(x.id64) && 0 < route::dist(
                m,
                x,
                s.path.last(),
            ) <= far ==> route::dist(m, s.path.last(), wp) <= route::dist(m, x, wp)
}

/// Where a plot gets stuck, the waypoint is out of reach, and neither the stars
/// near it nor the systems around it, near or a little further, bring it
/// nearer.
pub proof fn law_stuck_plots_see_nothing_nearer<
    A: Fn(RouteNode, bool, bool) -> Result<Vec<RouteNode>, String>,
    M: Fn(RouteNode, RouteNode) -> u64,
    C: Fn(RouteNode) -> Cell,
>(
    around: A,
    m: M,
    c: C,
    reach: Reach,
    stars: Seq<RouteNode>,
    wp: RouteNode,
    s: PlotView,
)
    requires
        is_stuck(around, m, c, reach, stars, wp, s),
    ensures
        ({
            let boost = has(stars, s.path.last().id64) || neutron::is_star(
                s.atlas,
                s.path.last().id64,
            );
            let near = if boost {
                reach.boosted
            } else {
                reach.plain
            };
            let far = if boost {
                reach.boosted_wide
            } else {
                reach.plain_wide
            };
            &&& route::dist(m, s.path.last(), wp) > near
            &&& forall|x: RouteNode| #[trigger]
                near_stars(c, stars, s.path.last()).contains(x) && !s.visited.contains(x.id64) && 0
                    < route::dist(m, x, s.path.last()) <= near ==> route::dist(
                    m,
                    s.path.last(),
                    wp,
                ) <= route::dist(m, x, wp)
            &&& sees_none_nearer(around, m, near, s, boost, wp, false)
            &&& sees_none_nearer(around, m, far, s, boost, wp, true)
        }),
{
    let boost = is_boosted(s, stars);
    let rows = near_stars(c, stars, here(s));
    let below = route::dist(m, here(s), wp);
    let near = reach_of(reach, boost, false);
    assert forall|x: RouteNode| #[trigger]
        rows.contains(x) && !s.visited.contains(x.id64) && 0 < route::dist(m, x, here(s))
            <= near implies below <= route::dist(m, x, wp) by {
        let q = choose|q: int| 0 <= q < rows.len() && rows[q] == x;
        route::law_the_nearest_in_reach_is_picked(
            m,
            rows,
            here(s),
            wp,
            s.visited,
            near,
            below,
            0,
            q,
        );
    }
    lemma_sees_none(around, m, reach, stars, wp, s, false);
    lemma_sees_none(around, m, reach, stars, wp, s, true);
}

proof fn lemma_sees_none<
    A: Fn(RouteNode, bool, bool) -> Result<Vec<RouteNode>, String>,
    M: Fn(RouteNode, RouteNode) -> u64,
>(
    around: A,
    m: M,
    reach: Reach,
    stars: Seq<RouteNode>,
    wp: RouteNode,
    s: PlotView,
    wide: bool,
)
    requires
        no_system(around, m, reach, s, stars, wp, wide),
    ensures
        sees_none_nearer(
            around,
            m,
            reach_of(reach, is_boosted(s, stars), wide),
            s,
            is_boosted(s, stars),
            wp,
            wide,
        ),
{
    let boost = is_boosted(s, stars);
    let far = reach_of(reach, boost, wide);
    let below = route::dist(m, here(s), wp);
    let v = choose|v: Vec<RouteNode>| #[trigger]
        call_ensures(around, (here(s), boost, wide), Ok::<Vec<RouteNode>, String>(v))
            && route::no_pick(candidates(m, v@, s, wp), far, below);
    assert forall|x: RouteNode| #[trigger]
        v@.contains(x) && !s.visited.contains(x.id64) && 0 < route::dist(m, x, here(s))
            <= far implies below <= route::dist(m, x, wp) by {
        let q = choose|q: int| 0 <= q < v@.len() && v@[q] == x;
        route::law_the_nearest_in_reach_is_picked(
            m,
            v@,
            here(s),
            wp,
            s.visited,
            far,
            below,
            0,
            q,
        );
    }
    assert(call_ensures(around, (here(s), boost, wide), Ok::<Vec<RouteNode>, String>(v)));
}

} // verus!
