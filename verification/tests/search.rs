//! Searches in a cube.

use ananke::db::Param;
use ananke::json::{Json, Num, Unit};
use ananke::models::{CubeSearchQuery, SpanshCoords};
use ananke::search::{
    bodies_found, body_label, cube_centre, cube_params, cube_reference, cube_size, cube_sql,
    effective_filter, parse_filter, systems_found, BodyHit, SystemHit,
};

fn number(n: &Num) -> f64 {
    match n {
        Num::Int(i) => *i as f64,
        Num::Big(u) => *u as f64,
        Num::Real(b) => f64::from_bits(*b),
        Num::Float(i) => *i as f64,
        Num::Per(n, Unit::Atmosphere) => number(n) / 101325.0,
        Num::Per(n, Unit::Day) => number(n) / 86400.0,
        Num::Per(n, Unit::AstronomicalUnit) => number(n) / 149_597_870_700.0,
        Num::Per(n, Unit::SolarRadius) => number(n) / 695700000.0,
        Num::Per(n, Unit::Gravity) => number(n) / 9.80665,
        Num::Per(n, Unit::Kilometre) => number(n) / 1000.0,
        Num::Hundredths(b) => (f64::from_bits(*b) * 100.0).round() / 100.0,
    }
}

fn value_out(j: &Json) -> serde_json::Value {
    match j {
        Json::Null => serde_json::Value::Null,
        Json::Bool(b) => serde_json::Value::from(*b),
        Json::Num(Num::Int(i)) => serde_json::Value::from(*i),
        Json::Num(Num::Big(u)) => serde_json::Value::from(*u),
        Json::Num(n) => serde_json::Value::from(number(n)),
        Json::Str(s) => serde_json::Value::from(s.as_str()),
        Json::Arr(v) => serde_json::Value::Array(v.iter().map(value_out).collect()),
        Json::Obj(m) => serde_json::Value::Object(
            m.iter().map(|(k, v)| (k.clone(), value_out(v))).collect(),
        ),
        Json::Embedded(s) => serde_json::from_str(s).unwrap_or(serde_json::Value::Null),
    }
}

fn shown(j: &Json) -> serde_json::Value {
    value_out(j)
}

fn expected(text: &str) -> serde_json::Value {
    serde_json::from_str(text).unwrap()
}

fn query() -> CubeSearchQuery {
    CubeSearchQuery {
        ref_system: None,
        center: None,
        x: None,
        y: None,
        z: None,
        size: None,
        body_type: None,
        custom_filter: None,
    }
}

fn bounds() -> Vec<Param> {
    (0..6).map(|i| Param::Int(i)).collect()
}

fn marks(sql: &str) -> usize {
    sql.chars().filter(|&c| c == '?').count()
}

fn some(s: &str) -> Option<String> {
    Some(s.to_string())
}

#[test]
fn custom_filters_take_precedence() {
    assert_eq!(effective_filter(&some("Water World"), &some("Icy")), "water world");
    assert_eq!(effective_filter(&some(""), &some("ICY Body")), "icy body");
    assert_eq!(effective_filter(&None, &some("ÄÖ")), "äö");
    assert_eq!(effective_filter(&None, &None), "");
}

#[test]
fn filters_name_kinds_of_bodies() {
    let f = parse_filter("earth-like, water world");
    assert_eq!(f.subtypes, vec!["Earth-like world".to_string(), "Water world".to_string()]);
    assert_eq!(f.reqs.len(), 2);
    assert!(f.bodies());
    let none = parse_filter("");
    assert!(none.subtypes.is_empty() && none.reqs.is_empty() && !none.bodies());
}

#[test]
fn queries_have_a_value_for_each_mark() {
    for text in [
        "",
        "earth-like",
        "water world, ammonia world",
        "terraformable",
        "biological",
        "geological",
        "landable",
        "white dwarf",
        "wolf-rayet",
        "neutron",
        "black hole",
        "ringed",
        "icy body landable terraformable ringed",
        "class g, class k",
    ] {
        let f = parse_filter(text);
        assert_eq!(marks(&cube_sql(&f)), cube_params(&f, bounds()).len(), "{}", text);
    }
}

#[test]
fn queries_are_sql() {
    let conn = rusqlite::Connection::open_in_memory().unwrap();
    conn.execute_batch(ananke::db::SQL_SCHEMA).unwrap();
    for m in ananke::db::migrations() {
        let _ = conn.execute(&m, []);
    }
    for text in ["", "earth-like", "terraformable landable", "white dwarf", "wolf-rayet", "neutron star", "ringed metallic"] {
        let f = parse_filter(text);
        let sql = cube_sql(&f);
        assert_eq!(
            conn.prepare(&sql).unwrap().parameter_count(),
            cube_params(&f, bounds()).len()
        );
    }
}

#[test]
fn cubes_are_centred() {
    let mut q = query();
    assert_eq!(cube_reference(&q), None);
    let c = cube_centre(&q, None);
    assert_eq!((number(&c.x), number(&c.y), number(&c.z)), (0.0, 0.0, 0.0));
    assert_eq!(number(&cube_size(&q)), 20.0);
    q.x = Some(Num::Int(5));
    q.size = Some(Num::Real(8.5f64.to_bits()));
    q.center = some("Sol");
    assert_eq!(cube_reference(&q), some("Sol"));
    q.ref_system = some("Achenar");
    assert_eq!(cube_reference(&q), some("Achenar"));
    let c = cube_centre(&q, None);
    assert_eq!((number(&c.x), number(&c.y)), (5.0, 0.0));
    let c = cube_centre(
        &q,
        Some(SpanshCoords { x: Num::Int(1), y: Num::Int(2), z: Num::Int(3) }),
    );
    assert_eq!((number(&c.x), number(&c.y), number(&c.z)), (1.0, 2.0, 3.0));
    assert_eq!(number(&cube_size(&q)), 8.5);
}

fn system_hit(id64: i64, distance: f64) -> SystemHit {
    SystemHit {
        id64,
        system: format!("S{}", id64),
        population: id64 - 1,
        x: 1.0f64.to_bits(),
        y: 2.0f64.to_bits(),
        z: 3.0f64.to_bits(),
        distance: distance.to_bits(),
    }
}

#[test]
fn systems_come_by_distance() {
    let j = systems_found(
        10.0f64.to_bits(),
        &vec![system_hit(1, 9.13), system_hit(2, 3.0), system_hit(3, 9.13)],
    );
    assert_eq!(
        shown(&j),
        expected(
            r#"{"cubeSize": 10.0, "count": 3, "results": [
                {"systemId64": "2", "uniqueId": "2", "system": "S2", "body": "-", "systemDistLy": 3.0,
                 "arrivalDistLs": 0, "inhabited": "Yes", "coords": {"x": 1.0, "y": 2.0, "z": 3.0}},
                {"systemId64": "1", "uniqueId": "1", "system": "S1", "body": "-", "systemDistLy": 9.13,
                 "arrivalDistLs": 0, "inhabited": "No", "coords": {"x": 1.0, "y": 2.0, "z": 3.0}},
                {"systemId64": "3", "uniqueId": "3", "system": "S3", "body": "-", "systemDistLy": 9.13,
                 "arrivalDistLs": 0, "inhabited": "Yes", "coords": {"x": 1.0, "y": 2.0, "z": 3.0}}]}"#
        )
    );
}

fn body_hit(id: i64, body: &str, d: f64) -> BodyHit {
    BodyHit {
        id64: 10,
        system: "Sol".to_string(),
        population: 0,
        x: 0,
        y: 0,
        z: 0,
        body_id: id,
        body: body.to_string(),
        sub_type: "Icy body".to_string(),
        arrival: 100.0f64.to_bits(),
        distance: d.to_bits(),
    }
}

#[test]
fn bodies_come_by_distance_with_short_names() {
    let j = bodies_found(
        20.0f64.to_bits(),
        &vec![body_hit(1, "Sol B 1", 5.0), body_hit(0, "Sol", 4.0)],
    );
    assert_eq!(
        shown(&j),
        expected(
            r#"{"cubeSize": 20.0, "count": 2, "results": [
                {"systemId64": "10", "bodyId": 0, "uniqueId": "10-0", "system": "Sol", "body": "A",
                 "fullBodyName": "Sol", "type": "Icy body", "systemDistLy": 4.0, "arrivalDistLs": 100.0,
                 "inhabited": "No", "coords": {"x": 0.0, "y": 0.0, "z": 0.0}},
                {"systemId64": "10", "bodyId": 1, "uniqueId": "10-1", "system": "Sol", "body": "B 1",
                 "fullBodyName": "Sol B 1", "type": "Icy body", "systemDistLy": 5.0, "arrivalDistLs": 100.0,
                 "inhabited": "No", "coords": {"x": 0.0, "y": 0.0, "z": 0.0}}]}"#
        )
    );
}

#[test]
fn white_space_round_names_is_taken_off() {
    let name = "\u{3000}Sol\u{a0}\u{2003}B 1\u{85}\t";
    let v = shown(&bodies_found(20.0f64.to_bits(), &vec![body_hit(1, name, 5.0)]));
    assert_eq!(v["results"][0]["body"], expected("\"B 1\""));
    let v = shown(&bodies_found(20.0f64.to_bits(), &vec![body_hit(1, "Sol\u{200b}", 5.0)]));
    assert_eq!(v["results"][0]["body"], expected("\"\u{200b}\""));
}

#[test]
fn main_stars_are_called_a() {
    assert_eq!(body_label(String::new()), "A");
    assert_eq!(body_label("B 1".to_string()), "B 1");
}

#[test]
fn special_kinds_come_before_general_ones() {
    let f = parse_filter("white dwarf dab");
    assert_eq!(f.dwarfs, vec!["White Dwarf (DAB) Star".to_string()]);
    assert!(!f.any_dwarf);
    let f = parse_filter("white dwarf");
    assert!(f.dwarfs.is_empty() && f.any_dwarf);
    // All white dwarfs, and no other stars.
    let f = parse_filter("white dwarf star");
    assert!(f.dwarfs.is_empty() && f.any_dwarf && f.classes.is_empty());
    assert_eq!(f.reqs.len(), 1);
    let f = parse_filter("white dwarf star, f star");
    assert_eq!(f.classes.len(), 2);
    let f = parse_filter("wolf-rayet nc");
    assert_eq!(f.rayets, vec!["Wolf-Rayet NC Star".to_string()]);
    let f = parse_filter("wolf-rayet o star");
    assert_eq!(f.rayets, vec!["Wolf-Rayet O Star".to_string()]);
    assert_eq!(f.classes, vec!["O (Blue-White) Star".to_string()]);
    let f = parse_filter("white dwarf da star");
    assert_eq!(f.dwarfs, vec!["White Dwarf (DA) Star".to_string()]);
    assert_eq!(f.classes[0], "A (Blue-White) Star");
    let f = parse_filter("brown dwarf star");
    assert_eq!(f.classes[0], "F (White) Star");
    let f = parse_filter("ms star type");
    assert_eq!(f.classes, vec!["MS-type Star".to_string(), "S-type Star".to_string()]);
    let f = parse_filter("supermassive black hole");
    assert_eq!(f.subtypes, vec!["Supermassive Black Hole".to_string()]);
    let f = parse_filter("icy ring");
    assert_eq!(f.ring.as_deref(), Some("Icy"));
    let f = parse_filter("rings");
    assert_eq!(f.ring.as_deref(), Some("%"));
}
