//! How far the carrier of the expedition has come.

use crate::json;
use crate::json::{Json, JsonView, Num, Object};
use vstd::prelude::*;

verus! {

/// The system that the expedition started from.
pub const START_SYSTEM: i64 = 10477373803;

/// The system that the expedition is bound for.
pub const TARGET_SYSTEM: i64 = 10938300568211;

/// A coordinate as the scoreboard gives it: a number, or a text that has to be
/// read as one.
pub enum Coord {
    Number(Num),
    Written(String),
}

/// A coordinate, as mathematics.
pub enum CoordView {
    Number(Num),
    Written(Seq<char>),
}

impl Coord {
    pub open spec fn view(&self) -> CoordView {
        match self {
            Coord::Number(n) => CoordView::Number(*n),
            Coord::Written(s) => CoordView::Written(s@),
        }
    }
}

/// The member of the record of the carrier with the name `axis`.
pub open spec fn record_field(data: JsonView, axis: Seq<char>) -> Option<JsonView> {
    match json::field(data, "record"@) {
        Some(r) => json::field(r, axis),
        None => None,
    }
}

/// The coordinate that a value gives: zero for everything that is neither a
/// number that a double or an integer of 64 bits with sign holds nor a text.
pub open spec fn coord_in(v: Option<JsonView>) -> CoordView {
    match v {
        Some(JsonView::Num(Num::Int(i))) => CoordView::Number(Num::Int(i)),
        Some(JsonView::Num(Num::Real(b))) => CoordView::Number(Num::Real(b)),
        Some(JsonView::Str(s)) => CoordView::Written(s),
        _ => CoordView::Number(Num::Real(0)),
    }
}

/// A coordinate of the carrier, by what the scoreboard says of it.
pub fn carrier_coord(data: &Json, axis: &str) -> (r: Coord)
    ensures
        r@ == coord_in(record_field(data@, axis@)),
{
    let found = match data.get("record") {
        Some(record) => record.get(axis),
        None => None,
    };
    match found {
        Some(Json::Num(Num::Int(i))) => Coord::Number(Num::Int(*i)),
        Some(Json::Num(Num::Real(b))) => Coord::Number(Num::Real(*b)),
        Some(Json::Str(s)) => Coord::Written(s.clone()),
        _ => Coord::Number(Num::Real(0)),
    }
}

/// The answer: the part of the way that the carrier has made, in per cent.
pub fn progression_json(percentage: u64) -> (r: Json)
    ensures
        r@ == JsonView::Obj(
            Map::empty().insert(
                "route_progression_percentage"@,
                JsonView::Num(Num::Real(percentage)),
            ),
        ),
{
    let mut o = Object::new();
    o.put("route_progression_percentage", Json::Num(Num::Real(percentage)));
    o.done()
}

/// A coordinate is what the record says under the name of its axis: a number
/// and a text as they stand, and zero for anything else.
pub proof fn law_coordinates_are_read_from_the_record(
    data: JsonView,
    r: JsonView,
    axis: Seq<char>,
    i: i64,
    b: u64,
    s: Seq<char>,
)
    requires
        json::field(data, "record"@) == Some(r),
    ensures
        json::field(r, axis) == Some(JsonView::Num(Num::Int(i))) ==> coord_in(
            record_field(data, axis),
        ) == CoordView::Number(Num::Int(i)),
        json::field(r, axis) == Some(JsonView::Num(Num::Real(b))) ==> coord_in(
            record_field(data, axis),
        ) == CoordView::Number(Num::Real(b)),
        json::field(r, axis) == Some(JsonView::Str(s)) ==> coord_in(record_field(data, axis))
            == CoordView::Written(s),
        json::field(r, axis) is None ==> coord_in(record_field(data, axis)) == CoordView::Number(
            Num::Real(0),
        ),
{
}

} // verus!
