//! The answer to a question for a route along neutron stars.

use crate::json;
use crate::json::{count, string, Json, JsonView, Num, Object};
use crate::models::{NeutronRouteQuery, RouteNode};
use crate::neutron;
use crate::neutron::{Atlas, AtlasView};
use crate::route;
use crate::text;
use crate::text::decimal_i64;
use vstd::prelude::*;

verus! {

/// Adding twice gives the same.
pub open spec fn adds<P: Fn(u64, u64) -> u64>(p: P) -> bool {
    &&& forall|a: u64, b: u64| #[trigger] call_requires(p, (a, b))
    &&& forall|a: u64, b: u64, r: u64, s: u64| #[trigger]
        call_ensures(p, (a, b), r) && #[trigger] call_ensures(p, (a, b), s) ==> r == s
}

/// The sum of two distances.
pub open spec fn sum<P: Fn(u64, u64) -> u64>(p: P, a: u64, b: u64) -> u64 {
    choose|r: u64| call_ensures(p, (a, b), r)
}

/// A stop of the route: how far it is from the source along the route, how far
/// the destination and the next stop are from it, and whether a jet boosts the
/// jump there.
#[derive(Clone, Copy)]
pub struct NeutronLeg {
    pub id64: i64,
    pub from_start: u64,
    pub to_destination: u64,
    pub jump: u64,
    pub used_boost: bool,
    pub is_neutron: bool,
}

/// Where a system of the route lies: source and destination are given, the
/// others stand in the atlas, if at all.
pub open spec fn place_of(a: AtlasView, src: RouteNode, dst: RouteNode, id: i64) -> Option<
    RouteNode,
> {
    if id == src.id64 {
        Some(src)
    } else if id == dst.id64 {
        Some(dst)
    } else if a.places.contains_key(id) {
        Some(a.places[id])
    } else {
        None
    }
}

/// Where the system lies that follows on the stop at `n`: where it is not
/// known, there is no way to go.
pub open spec fn next_place(a: AtlasView, dst: RouteNode, id: i64, n: RouteNode) -> RouteNode {
    if id == dst.id64 {
        dst
    } else if a.places.contains_key(id) {
        a.places[id]
    } else {
        n
    }
}

/// How far the jump from the stop `i`, which lies at `n`, goes; nothing from
/// the last.
pub open spec fn jump_from<M: Fn(RouteNode, RouteNode) -> u64>(
    m: M,
    a: AtlasView,
    dst: RouteNode,
    path: Seq<i64>,
    i: int,
    n: RouteNode,
) -> u64 {
    if i + 1 < path.len() {
        route::dist(m, next_place(a, dst, path[i + 1], n), n)
    } else {
        0
    }
}

/// The way along the route to the stop `i`; systems that are not known are
/// left out.
pub open spec fn way_to<M: Fn(RouteNode, RouteNode) -> u64, P: Fn(u64, u64) -> u64>(
    m: M,
    p: P,
    a: AtlasView,
    src: RouteNode,
    dst: RouteNode,
    path: Seq<i64>,
    i: int,
) -> u64
    decreases i,
{
    if i <= 0 {
        0
    } else {
        let before = way_to(m, p, a, src, dst, path, i - 1);
        match place_of(a, src, dst, path[i - 1]) {
            Some(n) => sum(p, before, jump_from(m, a, dst, path, i - 1, n)),
            None => before,
        }
    }
}

/// The leg at the stop `i`, which lies at `n`.
pub open spec fn leg_at<M: Fn(RouteNode, RouteNode) -> u64, P: Fn(u64, u64) -> u64>(
    m: M,
    p: P,
    a: AtlasView,
    src: RouteNode,
    dst: RouteNode,
    path: Seq<i64>,
    i: int,
    n: RouteNode,
) -> NeutronLeg {
    NeutronLeg {
        id64: path[i],
        from_start: way_to(m, p, a, src, dst, path, i),
        to_destination: route::dist(m, n, dst),
        jump: jump_from(m, a, dst, path, i, n),
        used_boost: i + 1 < path.len() && neutron::is_star(a, path[i]),
        is_neutron: neutron::is_star(a, path[i]),
    }
}

/// The legs of the first `k` stops.
pub open spec fn legs_first<M: Fn(RouteNode, RouteNode) -> u64, P: Fn(u64, u64) -> u64>(
    m: M,
    p: P,
    a: AtlasView,
    src: RouteNode,
    dst: RouteNode,
    path: Seq<i64>,
    k: int,
) -> Seq<NeutronLeg>
    decreases k,
{
    if k <= 0 {
        Seq::empty()
    } else {
        let before = legs_first(m, p, a, src, dst, path, k - 1);
        match place_of(a, src, dst, path[k - 1]) {
            Some(n) => before.push(leg_at(m, p, a, src, dst, path, k - 1, n)),
            None => before,
        }
    }
}

/// The legs of a route.
pub fn neutron_legs<M: Fn(RouteNode, RouteNode) -> u64, P: Fn(u64, u64) -> u64>(
    path: &Vec<i64>,
    atlas: &Atlas,
    src: RouteNode,
    dst: RouteNode,
    m: M,
    p: P,
) -> (r: Vec<NeutronLeg>)
    requires
        route::measures(m),
        adds(p),
    ensures
        r@ == legs_first(m, p, atlas@, src, dst, path@, path.len() as int),
{
    let mut r: Vec<NeutronLeg> = Vec::new();
    let mut way: u64 = 0;
    for i in 0..path.len()
        invariant
            route::measures(m),
            adds(p),
            way == way_to(m, p, atlas@, src, dst, path@, i as int),
            r@ == legs_first(m, p, atlas@, src, dst, path@, i as int),
    {
        let id = path[i];
        let found = if id == src.id64 {
            Some(src)
        } else if id == dst.id64 {
            Some(dst)
        } else {
            atlas.find(id)
        };
        match found {
            Some(n) => {
                let star = atlas.has_star(id);
                let left: u64 = m(n, dst);
                assert(left == route::dist(m, n, dst));
                let jump: u64 = if i + 1 < path.len() {
                    let next = if path[i + 1] == dst.id64 {
                        dst
                    } else {
                        match atlas.find(path[i + 1]) {
                            Some(x) => x,
                            None => n,
                        }
                    };
                    m(next, n)
                } else {
                    0
                };
                assert(jump == jump_from(m, atlas@, dst, path@, i as int, n));
                r.push(
                    NeutronLeg {
                        id64: id,
                        from_start: way,
                        to_destination: left,
                        jump,
                        used_boost: i + 1 < path.len() && star,
                        is_neutron: star,
                    },
                );
                let before: u64 = way;
                way = p(before, jump);
                assert(way == sum(p, before, jump));
            },
            None => {},
        }
    }
    r
}

/// A stop as JSON.
pub open spec fn leg_answer(l: NeutronLeg, name: Seq<char>) -> JsonView {
    JsonView::Obj(
        Map::empty().insert("system"@, JsonView::Str(name)).insert(
            "id64"@,
            JsonView::Str(text::signed_numeral(l.id64 as int)),
        ).insert("distance_from_start"@, JsonView::Num(Num::Hundredths(l.from_start))).insert(
            "distance_to_destination"@,
            JsonView::Num(Num::Hundredths(l.to_destination)),
        ).insert("jump_distance"@, JsonView::Num(Num::Hundredths(l.jump))).insert(
            "used_neutron_boost"@,
            JsonView::Bool(l.used_boost),
        ).insert("is_neutron"@, JsonView::Bool(l.is_neutron)),
    )
}

fn leg_json(l: &NeutronLeg, name: &str) -> (r: Json)
    ensures
        r@ == leg_answer(*l, name@),
{
    let mut o = Object::new();
    o.put("system", string(name));
    o.put("id64", Json::Str(decimal_i64(l.id64)));
    o.put("distance_from_start", Json::Num(Num::Hundredths(l.from_start)));
    o.put("distance_to_destination", Json::Num(Num::Hundredths(l.to_destination)));
    o.put("jump_distance", Json::Num(Num::Hundredths(l.jump)));
    o.put("used_neutron_boost", Json::Bool(l.used_boost));
    o.put("is_neutron", Json::Bool(l.is_neutron));
    o.done()
}

/// The answer to a question for a route along neutron stars.
pub open spec fn neutron_answer(
    q: NeutronRouteQuery,
    distance: u64,
    optimised: bool,
    legs: Seq<NeutronLeg>,
    names: Seq<String>,
) -> JsonView {
    JsonView::Obj(
        Map::empty().insert("source"@, JsonView::Str(q.source@)).insert(
            "destination"@,
            JsonView::Str(q.destination@),
        ).insert("total_distance_ly"@, JsonView::Num(Num::Hundredths(distance))).insert(
            "totalJumps"@,
            JsonView::Num(
                json::count_num(
                    if legs.len() == 0 {
                        0
                    } else {
                        legs.len() - 1
                    },
                ),
            ),
        ).insert("optimised"@, JsonView::Bool(optimised)).insert(
            "route"@,
            JsonView::Arr(Seq::new(legs.len(), |i: int| leg_answer(legs[i], names[i]@))),
        ),
    )
}

/// The answer to a question for a route along neutron stars; `names` are the
/// names of the stops.
pub fn neutron_route_json(
    q: &NeutronRouteQuery,
    distance: u64,
    optimised: bool,
    legs: &Vec<NeutronLeg>,
    names: &Vec<String>,
) -> (r: Json)
    requires
        legs.len() == names.len(),
    ensures
        r@ == neutron_answer(*q, distance, optimised, legs@, names@),
{
    let mut v: Vec<Json> = Vec::new();
    for i in 0..legs.len()
        invariant
            legs.len() == names.len(),
            v.len() == i,
            forall|j: int| 0 <= j < i ==> (#[trigger] v@[j])@ == leg_answer(legs@[j], names@[j]@),
    {
        v.push(leg_json(&legs[i], names[i].as_str()));
    }
    proof {
        json::lemma_views(v@);
        assert(json::views(v@) =~= Seq::new(
            legs@.len(),
            |i: int| leg_answer(legs@[i], names@[i]@),
        ));
    }
    let jumps: usize = if legs.len() == 0 {
        0
    } else {
        legs.len() - 1
    };
    let mut o = Object::new();
    o.put("source", string(q.source.as_str()));
    o.put("destination", string(q.destination.as_str()));
    o.put("total_distance_ly", Json::Num(Num::Hundredths(distance)));
    o.put("totalJumps", count(jumps));
    o.put("optimised", Json::Bool(optimised));
    o.put("route", Json::Arr(v));
    o.done()
}

/// The stops of an answer.
pub open spec fn stops(answer: JsonView) -> Seq<JsonView> {
    match json::field(answer, "route"@) {
        Some(JsonView::Arr(v)) => v,
        _ => Seq::empty(),
    }
}

/// A member of a stop that is a number of light years, before it is rounded.
pub open spec fn light_years(stop: JsonView, name: Seq<char>) -> Option<u64> {
    match json::field(stop, name) {
        Some(JsonView::Num(Num::Hundredths(d))) => Some(d),
        _ => None,
    }
}

/// Every system of the route is an end of it or stands in the atlas.
pub open spec fn all_known(a: AtlasView, src: RouteNode, dst: RouteNode, path: Seq<i64>) -> bool {
    forall|i: int|
        0 <= i < path.len() ==> #[trigger] path[i] == src.id64 || path[i] == dst.id64
            || a.places.contains_key(path[i])
}

proof fn lemma_all_legs<M: Fn(RouteNode, RouteNode) -> u64, P: Fn(u64, u64) -> u64>(
    m: M,
    p: P,
    a: AtlasView,
    src: RouteNode,
    dst: RouteNode,
    path: Seq<i64>,
    k: int,
)
    requires
        all_known(a, src, dst, path),
        0 <= k <= path.len(),
    ensures
        legs_first(m, p, a, src, dst, path, k).len() == k,
        forall|i: int|
            0 <= i < k ==> #[trigger] legs_first(m, p, a, src, dst, path, k)[i] == leg_at(
                m,
                p,
                a,
                src,
                dst,
                path,
                i,
                place_of(a, src, dst, path[i])->0,
            ),
    decreases k,
{
    if k > 0 {
        lemma_all_legs(m, p, a, src, dst, path, k - 1);
        assert(path[k - 1] == src.id64 || path[k - 1] == dst.id64 || a.places.contains_key(
            path[k - 1],
        ));
    }
}

proof fn lemma_stop_members(l: NeutronLeg, name: Seq<char>)
    ensures
        ({
            let s = leg_answer(l, name);
            &&& json::field(s, "system"@) == Some(JsonView::Str(name))
            &&& json::field(s, "id64"@) == Some(JsonView::Str(text::signed_numeral(l.id64 as int)))
            &&& light_years(s, "distance_from_start"@) == Some(l.from_start)
            &&& light_years(s, "distance_to_destination"@) == Some(l.to_destination)
            &&& light_years(s, "jump_distance"@) == Some(l.jump)
            &&& json::field(s, "used_neutron_boost"@) == Some(JsonView::Bool(l.used_boost))
            &&& json::field(s, "is_neutron"@) == Some(JsonView::Bool(l.is_neutron))
        }),
{
    reveal_strlit("system");
    reveal_strlit("id64");
    reveal_strlit("distance_from_start");
    reveal_strlit("distance_to_destination");
    reveal_strlit("jump_distance");
    reveal_strlit("used_neutron_boost");
    reveal_strlit("is_neutron");
    assert("system"@.len() == 6);
    assert("id64"@.len() == 4);
    assert("distance_from_start"@.len() == 19);
    assert("distance_to_destination"@.len() == 23);
    assert("jump_distance"@.len() == 13);
    assert("used_neutron_boost"@.len() == 18);
    assert("is_neutron"@.len() == 10);
}

/// A route of known systems is answered with the way along it: it starts at no
/// distance from the source, the distance from the start grows at each stop by
/// the jump that led there, and it ends at the destination, each stop as far
/// from it as its place is. A jump is as long as its ends are apart, and is
/// boosted where it leaves a neutron star.
pub proof fn law_stops_tell_the_way<M: Fn(RouteNode, RouteNode) -> u64, P: Fn(u64, u64) -> u64>(
    m: M,
    p: P,
    a: AtlasView,
    src: RouteNode,
    dst: RouteNode,
    path: Seq<i64>,
    q: NeutronRouteQuery,
    distance: u64,
    optimised: bool,
    names: Seq<String>,
)
    requires
        all_known(a, src, dst, path),
        path.len() > 1,
        path[0] == src.id64,
        path.last() == dst.id64,
        src.id64 != dst.id64,
        names.len() == path.len(),
    ensures
        ({
            let legs = legs_first(m, p, a, src, dst, path, path.len() as int);
            let v = stops(neutron_answer(q, distance, optimised, legs, names));
            &&& v.len() == path.len()
            &&& light_years(v[0], "distance_from_start"@) == Some(0u64)
            &&& light_years(v[0], "distance_to_destination"@) == Some(route::dist(m, src, dst))
            &&& light_years(v.last(), "distance_to_destination"@) == Some(route::dist(m, dst, dst))
            &&& light_years(v.last(), "jump_distance"@) == Some(0u64)
            &&& json::field(v.last(), "used_neutron_boost"@) == Some(JsonView::Bool(false))
            &&& forall|i: int|
                0 <= i < path.len() - 1 ==> light_years(
                    #[trigger] v[i + 1],
                    "distance_from_start"@,
                ) == Some(
                    sum(
                        p,
                        light_years(v[i], "distance_from_start"@)->0,
                        light_years(v[i], "jump_distance"@)->0,
                    ),
                )
            &&& forall|i: int|
                0 <= i < path.len() ==> {
                    &&& json::field(#[trigger] v[i], "id64"@) == Some(
                        JsonView::Str(text::signed_numeral(path[i] as int)),
                    )
                    &&& json::field(v[i], "system"@) == Some(JsonView::Str(names[i]@))
                    &&& json::field(v[i], "is_neutron"@) == Some(
                        JsonView::Bool(a.neutron.contains_key(path[i]) && a.neutron[path[i]]),
                    )
                    &&& i < path.len() - 1 ==> json::field(v[i], "used_neutron_boost"@)
                        == json::field(v[i], "is_neutron"@)
                    &&& path[i] != src.id64 && path[i] != dst.id64 ==> light_years(
                        v[i],
                        "distance_to_destination"@,
                    ) == Some(route::dist(m, a.places[path[i]], dst))
                }
            &&& forall|i: int, from: RouteNode, to: RouteNode|
                0 <= i < path.len() - 1 && (#[trigger] path[i] == src.id64 && from == src
                    || path[i] != src.id64
                    && path[i] != dst.id64 && from == a.places[path[i]]) && (path[i + 1] == dst.id64
                    && to == dst || path[i + 1] != dst.id64 && a.places.contains_key(path[i + 1])
                    && to == a.places[path[i + 1]]) ==> light_years(
                    v[i],
                    "jump_distance"@,
                ) == Some(#[trigger] route::dist(m, to, from))
        }),
{
    let n = path.len() as int;
    let legs = legs_first(m, p, a, src, dst, path, n);
    let answer = neutron_answer(q, distance, optimised, legs, names);
    lemma_all_legs(m, p, a, src, dst, path, n);
    lemma_answer_members(q, distance, optimised, legs, names);
    let v = stops(answer);
    assert forall|i: int| 0 <= i < n implies #[trigger] v[i] == leg_answer(legs[i], names[i]@) by {}
    assert forall|i: int| 0 <= i < n implies {
        let s = #[trigger] v[i];
        &&& json::field(s, "system"@) == Some(JsonView::Str(names[i]@))
        &&& json::field(s, "id64"@)
            == Some(JsonView::Str(text::signed_numeral(legs[i].id64 as int)))
        &&& light_years(s, "distance_from_start"@) == Some(legs[i].from_start)
        &&& light_years(s, "distance_to_destination"@) == Some(legs[i].to_destination)
        &&& light_years(s, "jump_distance"@) == Some(legs[i].jump)
        &&& json::field(s, "used_neutron_boost"@) == Some(JsonView::Bool(legs[i].used_boost))
        &&& json::field(s, "is_neutron"@) == Some(JsonView::Bool(legs[i].is_neutron))
    } by {
        lemma_stop_members(legs[i], names[i]@);
    }
    assert forall|i: int| 0 <= i < n - 1 implies legs[i + 1].from_start == sum(
        p,
        (#[trigger] legs[i]).from_start,
        legs[i].jump,
    ) by {
        assert(legs[i + 1] == leg_at(
            m,
            p,
            a,
            src,
            dst,
            path,
            i + 1,
            place_of(a, src, dst, path[i + 1])->0,
        ));
    }
    assert forall|i: int| 0 <= i < n - 1 implies light_years(
        #[trigger] v[i + 1],
        "distance_from_start"@,
    ) == Some(
        sum(
            p,
            light_years(v[i], "distance_from_start"@)->0,
            light_years(v[i], "jump_distance"@)->0,
        ),
    ) by {
        assert(v[i] == leg_answer(legs[i], names[i]@));
        assert(legs[i + 1].from_start == sum(p, legs[i].from_start, legs[i].jump));
    }
}

proof fn lemma_answer_members(
    q: NeutronRouteQuery,
    distance: u64,
    optimised: bool,
    legs: Seq<NeutronLeg>,
    names: Seq<String>,
)
    ensures
        ({
            let r = neutron_answer(q, distance, optimised, legs, names);
            &&& json::field(r, "source"@) == Some(JsonView::Str(q.source@))
            &&& json::field(r, "destination"@) == Some(JsonView::Str(q.destination@))
            &&& light_years(r, "total_distance_ly"@) == Some(distance)
            &&& json::field(r, "optimised"@) == Some(JsonView::Bool(optimised))
            &&& json::field(r, "totalJumps"@) == Some(
                JsonView::Num(
                    json::count_num(
                        if legs.len() == 0 {
                            0
                        } else {
                            legs.len() - 1
                        },
                    ),
                ),
            )
            &&& stops(r).len() == legs.len()
            &&& forall|i: int|
                0 <= i < legs.len() ==> #[trigger] stops(r)[i] == leg_answer(legs[i], names[i]@)
        }),
{
    reveal_strlit("source");
    reveal_strlit("destination");
    reveal_strlit("total_distance_ly");
    reveal_strlit("totalJumps");
    reveal_strlit("optimised");
    reveal_strlit("route");
    assert("source"@.len() == 6);
    assert("destination"@.len() == 11);
    assert("total_distance_ly"@.len() == 17);
    assert("totalJumps"@.len() == 10);
    assert("optimised"@.len() == 9);
    assert("route"@.len() == 5);
}

/// An answer repeats the ends that were asked for and the distance between
/// them, has one jump less than it has stops, and says whether the route was
/// refined.
pub proof fn law_answers_tell_the_whole(
    q: NeutronRouteQuery,
    distance: u64,
    optimised: bool,
    legs: Seq<NeutronLeg>,
    names: Seq<String>,
)
    requires
        0 < legs.len() <= i64::MAX,
    ensures
        ({
            let r = neutron_answer(q, distance, optimised, legs, names);
            &&& json::field(r, "source"@) == Some(JsonView::Str(q.source@))
            &&& json::field(r, "destination"@) == Some(JsonView::Str(q.destination@))
            &&& light_years(r, "total_distance_ly"@) == Some(distance)
            &&& json::field(r, "optimised"@) == Some(JsonView::Bool(optimised))
            &&& json::field(r, "totalJumps"@) == Some(
                JsonView::Num(Num::Int((stops(r).len() - 1) as i64)),
            )
        }),
{
    lemma_answer_members(q, distance, optimised, legs, names);
}

} // verus!
