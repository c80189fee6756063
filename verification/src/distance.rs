//! The distance between two systems.

use crate::json;
use crate::json::{integer, point_json, string, Json, JsonView, Num, Object};
use crate::ship::{Stop, StopView};
use crate::system::ApiError;
use vstd::prelude::*;

verus! {

/// A system as JSON.
pub open spec fn end_answer(s: StopView) -> JsonView {
    JsonView::Obj(
        Map::empty().insert("id64"@, JsonView::Num(Num::Int(s.node.id64))).insert(
            "name"@,
            JsonView::Str(s.name),
        ).insert(
            "coords"@,
            json::point(Num::Real(s.node.x), Num::Real(s.node.y), Num::Real(s.node.z)),
        ),
    )
}

fn end_json(s: &Stop) -> (r: Json)
    ensures
        r@ == end_answer(s@),
{
    let mut o = Object::new();
    o.put("id64", integer(s.node.id64));
    o.put("name", string(s.name.as_str()));
    o.put("coords", point_json(Num::Real(s.node.x), Num::Real(s.node.y), Num::Real(s.node.z)));
    o.done()
}

/// The answer: the two systems, and how far they are apart.
pub fn distance_json(a: &Stop, b: &Stop, distance: u64) -> (r: Json)
    ensures
        r@ == JsonView::Obj(
            Map::empty().insert("systemA"@, end_answer(a@)).insert("systemB"@, end_answer(b@)).insert(
                "distanceLy"@,
                JsonView::Num(Num::Hundredths(distance)),
            ),
        ),
{
    let mut o = Object::new();
    o.put("systemA", end_json(a));
    o.put("systemB", end_json(b));
    o.put("distanceLy", Json::Num(Num::Hundredths(distance)));
    o.done()
}

/// The error for a system that is not known.
pub fn distance_unknown(name: &str) -> (r: ApiError)
    ensures
        r.status == 404,
        r.message@ == "System not found: "@ + name@,
{
    let mut m = String::new();
    m.append("System not found: ");
    m.append(name);
    assert(m@ =~= "System not found: "@ + name@);
    ApiError { status: 404, message: m }
}

/// Each member of an end holds its own part of the system.
pub proof fn law_ends_tell_their_system(s: StopView)
    ensures
        ({
            let a = end_answer(s);
            &&& json::field(a, "id64"@) == Some(JsonView::Num(Num::Int(s.node.id64)))
            &&& json::field(a, "name"@) == Some(JsonView::Str(s.name))
            &&& json::field(a, "coords"@) == Some(json::point(Num::Real(s.node.x),
                Num::Real(s.node.y), Num::Real(s.node.z)))
        }),
{
    broadcast use {json::lemma_found_set, json::lemma_found_none};

    reveal_strlit("id64");
    reveal_strlit("name");
    reveal_strlit("coords");
    assert(json::mark_of("id64"@) == (4int, 'i', '6', '4'));
    assert(json::mark_of("name"@) == (4int, 'n', 'm', 'e'));
    assert(json::mark_of("coords"@) == (6int, 'c', 'r', 's'));
    json::lemma_found(end_answer(s));
}

} // verus!
