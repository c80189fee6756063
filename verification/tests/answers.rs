//! Answers about systems and stations.

use ananke::distance::{distance_json, distance_unknown};
use ananke::json::{Json, Num, Unit};
use ananke::models::{NearestStationQuery, RouteNode, RouteQuery, SystemQuery};
use ananke::progression::{carrier_coord, progression_json, Coord};
use ananke::carrier::{carrier_route_json, CarrierLeg, CarrierTotals};
use ananke::models::CarrierRouteQuery;
use ananke::ship::{ship_route_json, stops_of, Stop};
use ananke::sql::{DbRow, SqlValue};
use ananke::state::CarrierCache;
use ananke::station::{
    next_step, readable, reference_not_found, result_limit, search_plan, station_filter,
    station_params, station_sql, stations_found, step_limit, step_radius, sure_hits, SearchPlan,
    StationHit,
};
use ananke::system::{
    bodies_answer, station_key, stations_answer, system_found, system_key, SystemKey,
};

fn value_in(v: &serde_json::Value) -> Json {
    match v {
        serde_json::Value::Null => Json::Null,
        serde_json::Value::Bool(b) => Json::Bool(*b),
        serde_json::Value::Number(n) => Json::Num(if let Some(i) = n.as_i64() {
            Num::Int(i)
        } else if let Some(u) = n.as_u64() {
            Num::Big(u)
        } else {
            Num::Real(n.as_f64().unwrap().to_bits())
        }),
        serde_json::Value::String(s) => Json::Str(s.clone()),
        serde_json::Value::Array(a) => Json::Arr(a.iter().map(value_in).collect()),
        serde_json::Value::Object(o) => {
            Json::Obj(o.iter().map(|(k, v)| (k.clone(), value_in(v))).collect())
        }
    }
}

fn parsed(text: &str) -> Json {
    value_in(&serde_json::from_str(text).unwrap())
}

fn number(n: &Num) -> f64 {
    match n {
        Num::Int(i) => *i as f64,
        Num::Big(u) => *u as f64,
        Num::Real(b) => f64::from_bits(*b),
        Num::Float(i) => *i as f64,
        Num::Per(n, Unit::Atmosphere) => number(n) / 101325.0,
        Num::Per(n, Unit::Day) => number(n) / 86400.0,
        Num::Per(n, Unit::AstronomicalUnit) => number(n) / 149_597_870_700.0,
        Num::Per(n, Unit::SolarRadius) => number(n) / 695700000.0,
        Num::Per(n, Unit::Gravity) => number(n) / 9.80665,
        Num::Per(n, Unit::Kilometre) => number(n) / 1000.0,
        Num::Hundredths(b) => (f64::from_bits(*b) * 100.0).round() / 100.0,
    }
}

fn value_out(j: &Json) -> serde_json::Value {
    match j {
        Json::Null => serde_json::Value::Null,
        Json::Bool(b) => serde_json::Value::from(*b),
        Json::Num(Num::Int(i)) => serde_json::Value::from(*i),
        Json::Num(Num::Big(u)) => serde_json::Value::from(*u),
        Json::Num(n) => serde_json::Value::from(number(n)),
        Json::Str(s) => serde_json::Value::from(s.as_str()),
        Json::Arr(v) => serde_json::Value::Array(v.iter().map(value_out).collect()),
        Json::Obj(m) => serde_json::Value::Object(
            m.iter().map(|(k, v)| (k.clone(), value_out(v))).collect(),
        ),
        Json::Embedded(s) => serde_json::from_str(s).unwrap_or(serde_json::Value::Null),
    }
}

fn shown(j: &Json) -> serde_json::Value {
    value_out(j)
}

fn expected(text: &str) -> serde_json::Value {
    serde_json::from_str(text).unwrap()
}

fn row(cells: Vec<(&str, SqlValue)>) -> DbRow {
    let mut r = DbRow { names: Vec::new(), cells: Vec::new() };
    for (n, v) in cells {
        r.names.push(n.to_string());
        r.cells.push(v);
    }
    r
}

fn text(s: &str) -> SqlValue {
    SqlValue::Text(s.to_string())
}

fn double(x: f64) -> SqlValue {
    SqlValue::Real(x.to_bits())
}

#[test]
fn systems_are_asked_for_by_id_or_name() {
    let q = |id64: Option<i64>, name: Option<&str>| SystemQuery {
        id64,
        system_name: name.map(|s| s.to_string()),
    };
    assert!(matches!(system_key(&q(Some(5), Some("Sol"))), Ok(SystemKey::Id(5))));
    assert!(matches!(system_key(&q(None, Some("Sol"))), Ok(SystemKey::Name(n)) if n == "Sol"));
    let e = system_key(&q(None, None)).err().unwrap();
    assert_eq!((e.status, e.message.as_str()), (400, "Missing systemName or id64"));
    assert!(matches!(station_key(&q(Some(5), Some("Sol"))), Ok(SystemKey::Id(5))));
    assert!(matches!(station_key(&q(Some(5), None)), Ok(SystemKey::Id(5))));
    assert!(matches!(station_key(&q(None, Some("Sol"))), Ok(SystemKey::Name(n)) if n == "Sol"));
    let e = station_key(&q(None, None)).err().unwrap();
    assert_eq!((e.status, e.message.as_str()), (400, "Missing systemName"));
}

#[test]
fn missing_systems_are_not_found() {
    let e = system_found(&None).err().unwrap();
    assert_eq!(e.status, 404);
}

#[test]
fn systems_without_rows_have_empty_lists() {
    let v = shown(&bodies_answer(&Some((7, "Sol".to_string())), &vec![]));
    assert_eq!(v["bodies"], expected("[]"));
    let v = shown(&stations_answer(&Some((7, "Sol".to_string())), &vec![]));
    assert_eq!(v["stations"], expected("[]"));
}

#[test]
fn every_row_is_answered() {
    // Signals without the name of a body leave a row without a name.
    let nameless = row(vec![
        ("bodyId", SqlValue::Integer(4)),
        ("name", SqlValue::Null),
        ("signals", text("[1]")),
        ("isLandable", SqlValue::Null),
    ]);
    let named = row(vec![("bodyId", SqlValue::Integer(5)), ("name", text("Sol 5"))]);
    let v = shown(&bodies_answer(&Some((7, "Sol".to_string())), &vec![nameless, named]));
    assert_eq!(v["bodies"][0]["bodyId"], expected("4"));
    assert_eq!(v["bodies"][0]["name"], expected("null"));
    assert_eq!(v["bodies"][0]["isLandable"], expected("false"));
    assert_eq!(v["bodies"][0]["signals"], expected("[1]"));
    assert_eq!(v["bodies"][1]["name"], expected("\"Sol 5\""));
    let v = shown(&stations_answer(&Some((7, "Sol".to_string())), &vec![row(vec![])]));
    assert_eq!(v["stations"][0]["id"], expected("null"));
}

fn station_row(id: i64, services: SqlValue) -> DbRow {
    row(vec![
        ("systemId64", SqlValue::Integer(10477373803)),
        ("systemName", text("Sol")),
        ("x", double(0.0)),
        ("y", SqlValue::Integer(1)),
        ("z", double(2.5)),
        ("stationId", SqlValue::Integer(id)),
        ("stationName", text("Daedalus")),
        ("stationType", SqlValue::Null),
        ("distanceToArrival", double(219.0)),
        ("stAllegiance", text("Federation")),
        ("stGovernment", SqlValue::Null),
        ("stEconomy", SqlValue::Null),
        ("secondEconomy", SqlValue::Null),
        ("haveMarket", SqlValue::Integer(1)),
        ("haveShipyard", SqlValue::Integer(0)),
        ("haveOutfitting", SqlValue::Null),
        ("otherServices", services),
        ("updateTime", SqlValue::Null),
        ("landingPads", text("{\"large\": 4}")),
        ("latitude", SqlValue::Null),
        ("longitude", SqlValue::Null),
        ("controllingFaction", SqlValue::Null),
        ("state", SqlValue::Null),
        ("carrierDockingAccess", SqlValue::Null),
        ("realName", SqlValue::Null),
        ("carrierName", SqlValue::Null),
    ])
}

#[test]
fn station_rows_are_checked() {
    assert!(readable(&station_row(1, text("[]"))));
    let mut bad = station_row(1, text("[]"));
    bad.cells[0] = text("x");
    assert!(!readable(&bad));
    let mut bad = station_row(1, text("[]"));
    bad.cells[2] = SqlValue::Null;
    assert!(!readable(&bad));
}

#[test]
fn stations_are_answered_nearest_first() {
    let hits = vec![
        StationHit { row: station_row(1, text("[\"Refuel\"]")), distance: 8.25f64.to_bits() },
        StationHit { row: station_row(2, text("no list")), distance: 1.5f64.to_bits() },
        StationHit { row: station_row(3, SqlValue::Null), distance: f64::NAN.to_bits() },
    ];
    let place = parsed(r#"{"x": 0, "y": 0, "z": 0}"#);
    let j = stations_found("Sol", place, Some(Num::Real(100.0f64.to_bits())), &hits, 2);
    let v = shown(&j);
    assert_eq!(v["count"], expected("2"));
    assert_eq!(v["searchedRadiusLy"], expected("100.0"));
    assert_eq!(v["refSystem"], expected("\"Sol\""));
    assert_eq!(v["results"][0]["stationId"], expected("2"));
    assert_eq!(v["results"][1]["stationId"], expected("1"));
    assert_eq!(v["results"][1]["services"], expected("[\"Refuel\"]"));
    assert_eq!(v["results"][0]["services"], expected("[]"));
    assert_eq!(v["results"][1]["systemDistanceLy"], expected("8.25"));
    assert_eq!(v["results"][1]["systemId64"], expected("\"10477373803\""));
    assert_eq!(v["results"][1]["haveMarket"], expected("true"));
    assert_eq!(v["results"][1]["haveShipyard"], expected("false"));
    assert_eq!(v["results"][1]["isSurface"], expected("false"));
    assert_eq!(v["results"][1]["landingPads"], expected("{\"large\": 4}"));
    let last = stations_found("Sol", Json::Null, None, &hits, 9);
    let v = shown(&last);
    assert_eq!(v["results"][2]["systemDistanceLy"], expected("null"));
    assert_eq!(v["searchedRadiusLy"], expected("70000.0"));
    let none = stations_found("Sol", Json::Null, None, &vec![], 2);
    let v = shown(&none);
    assert_eq!((&v["count"], &v["searchedRadiusLy"]), (&expected("0"), &expected("70000.0")));
}

fn station_query() -> NearestStationQuery {
    NearestStationQuery {
        ref_system: "Sol".to_string(),
        radius: None,
        limit: None,
        allegiance: None,
        government: None,
        economy: None,
        station_type: None,
        min_landing_pad: None,
        max_station_distance: None,
        use_surface_stations: false,
        ignore_fleet_carriers: None,
    }
}

fn marks(sql: &str) -> usize {
    sql.chars().filter(|&c| c == '?').count()
}

#[test]
fn station_filters_are_normalised() {
    let mut q = station_query();
    q.allegiance = Some("ANY".to_string());
    q.economy = Some(String::new());
    q.station_type = Some("Orbis".to_string());
    q.min_landing_pad = Some("Large".to_string());
    let f = station_filter(&q);
    assert!(f.ignore_carriers && !f.use_surface);
    assert!(f.allegiance.is_none() && f.economy.is_none());
    assert_eq!(f.station_type.as_deref(), Some("Orbis"));
    assert!(f.large_pad && f.medium_pad);
    q.min_landing_pad = Some("medium".to_string());
    let f = station_filter(&q);
    assert!(!f.large_pad && f.medium_pad);
}

#[test]
fn station_queries_have_a_value_for_each_mark() {
    let conn = rusqlite::Connection::open_in_memory().unwrap();
    conn.execute_batch(ananke::db::SQL_SCHEMA).unwrap();
    for m in ananke::db::migrations() {
        let _ = conn.execute(&m, []);
    }
    for in_cube in [false, true] {
        for rest in 0..64u32 {
            let mut q = station_query();
            if rest & 32 != 0 {
                q.government = Some("Democracy".to_string());
            }
            if rest & 1 != 0 {
                q.allegiance = Some("Empire".to_string());
            }
            if rest & 2 != 0 {
                q.economy = Some("Refinery".to_string());
            }
            if rest & 4 != 0 {
                q.station_type = Some("Orbis".to_string());
            }
            if rest & 8 != 0 {
                q.max_station_distance = Some(Num::Int(100));
            }
            if rest & 16 != 0 {
                q.min_landing_pad = Some("large".to_string());
            }
            let f = station_filter(&q);
            let bounds = if in_cube {
                (0..6).map(|i| ananke::db::Param::Int(i)).collect()
            } else {
                Vec::new()
            };
            let sql = station_sql(&f, in_cube);
            let n = station_params(&f, bounds, &(Num::Int(1), Num::Int(2), Num::Int(3))).len();
            assert_eq!(marks(&sql), n);
            assert_eq!(conn.prepare(&sql).unwrap().parameter_count(), n);
        }
    }
}

#[test]
fn limits_are_clamped() {
    assert_eq!(result_limit(None), 25);
    assert_eq!(result_limit(Some(0)), 1);
    assert_eq!(result_limit(Some(7)), 7);
    assert_eq!(result_limit(Some(1000)), 100);
}

#[test]
fn searches_widen_until_something_is_found() {
    assert!(matches!(search_plan(&None), SearchPlan::Widening));
    assert!(matches!(search_plan(&Some(Num::Int(50))), SearchPlan::Within(Num::Int(50))));
    let mut radii = Vec::new();
    let mut step = Some(0);
    while let Some(k) = step {
        radii.push(step_radius(k));
        assert_eq!(step_limit(k), step_radius(k).map(|r| f64::from(r).to_bits()));
        step = next_step(k, &vec![]);
    }
    let mut all: Vec<Option<u32>> =
        [100, 500, 1500, 4000, 8000, 15000, 30000, 70000].iter().map(|r| Some(*r)).collect();
    all.push(None);
    assert_eq!(radii, all);
}

fn hit(id: i64, distance: f64) -> StationHit {
    StationHit { row: station_row(id, SqlValue::Null), distance: distance.to_bits() }
}

#[test]
fn a_corner_of_the_cube_is_not_near() {
    // A station in a corner is farther than one may be outside the cube.
    assert_eq!(next_step(0, &vec![hit(1, 171.0)]), Some(1));
    assert_eq!(next_step(1, &vec![hit(1, 171.0), hit(2, 101.0)]), None);
    assert_eq!(next_step(0, &vec![hit(1, 171.0), hit(2, 100.0)]), None);
    assert_eq!(next_step(8, &vec![]), None);
    let kept = sure_hits(1, vec![hit(1, 700.0), hit(2, 101.0), hit(3, 500.0)]);
    assert_eq!(kept.iter().map(|h| f64::from_bits(h.distance)).collect::<Vec<_>>(), vec![101.0, 500.0]);
    assert_eq!(sure_hits(8, vec![hit(1, 90000.0)]).len(), 1);
}

#[test]
fn filters_ask_for_columns_of_the_station() {
    let conn = rusqlite::Connection::open_in_memory().unwrap();
    conn.execute_batch(ananke::db::SQL_SCHEMA).unwrap();
    for m in ananke::db::migrations() {
        let _ = conn.execute(&m, []);
    }
    conn.execute_batch(
        "INSERT INTO systems (id64, name, government, primaryEconomy) VALUES (1, 'Sol', 'Prison', 'Tourism');
         INSERT INTO systems_index (id, minX, maxX, minY, maxY, minZ, maxZ) VALUES (1, 0, 0, 0, 0, 0, 0);
         INSERT INTO stations (id, systemId64, name, type, government, economy) VALUES
            (1, 1, 'Galileo', 'Orbis', 'Democracy', 'Refinery'),
            (2, 1, 'Daedalus', 'Orbis', 'Anarchy', 'Tourism');",
    )
    .unwrap();
    let names = |q: &NearestStationQuery| -> Vec<String> {
        let f = station_filter(q);
        let place = (Num::Int(0), Num::Int(0), Num::Int(0));
        let values: Vec<String> = station_params(&f, Vec::new(), &place)
            .iter()
            .map(|p| match p {
                ananke::db::Param::Text(s) => s.clone(),
                _ => "0".to_string(),
            })
            .collect();
        let mut stmt = conn.prepare(&station_sql(&f, false)).unwrap();
        let rows = stmt
            .query_map(rusqlite::params_from_iter(values), |r| r.get::<_, String>("stationName"))
            .unwrap();
        rows.map(|r| r.unwrap()).collect()
    };
    let mut q = station_query();
    assert_eq!(names(&q).len(), 2);
    q.government = Some("DEMOCRACY".to_string());
    assert_eq!(names(&q), vec!["Galileo".to_string()]);
    q.government = Some("Prison".to_string());
    assert!(names(&q).is_empty());
    q.government = None;
    q.economy = Some("tourism".to_string());
    assert_eq!(names(&q), vec!["Daedalus".to_string()]);
}

#[test]
fn unknown_references_are_named() {
    assert_eq!(reference_not_found("Nowhere"), "Reference system 'Nowhere' not found");
}

fn stop(id64: i64, name: &str, x: f64) -> Stop {
    Stop { node: RouteNode { id64, x: x.to_bits(), y: 0, z: 0 }, name: name.to_string() }
}

fn apart(a: RouteNode, b: RouteNode) -> u64 {
    (f64::from_bits(a.x) - f64::from_bits(b.x)).abs().to_bits()
}

#[test]
fn ship_routes_are_told_stop_by_stop() {
    let stops = stops_of(&vec![1, 5, 2], &stop(1, "Sol", 0.0), &stop(2, "Wolf 359", 20.0), |id: i64| {
        stop(id, "Middle", 7.5)
    });
    let q = RouteQuery { source: "sol".to_string(), destination: "2".to_string() };
    assert_eq!(
        shown(&ship_route_json(&q, &stops, apart)),
        expected(
            r#"{"source": "sol", "destination": "2", "totalJumps": 2, "route": [
                {"system": "Sol", "id64": "1", "coords": {"x": 0.0, "y": 0.0, "z": 0.0},
                 "distance_from_prev": 0.0, "jumps": 0},
                {"system": "Middle", "id64": "5", "coords": {"x": 7.5, "y": 0.0, "z": 0.0},
                 "distance_from_prev": 7.5, "jumps": 1},
                {"system": "Wolf 359", "id64": "2", "coords": {"x": 20.0, "y": 0.0, "z": 0.0},
                 "distance_from_prev": 12.5, "jumps": 2}]}"#
        )
    );
}

#[test]
fn carrier_routes_are_told_leg_by_leg() {
    let q = CarrierRouteQuery {
        current_system: "Sol".to_string(),
        destination: "Colonia".to_string(),
        used_cargo: Num::Real(500.0f64.to_bits()),
        tank_fuel: Num::Real(1000.0f64.to_bits()),
        stored_tritium: Num::Real(250.0f64.to_bits()),
        is_squadron: None,
        engine: None,
    };
    let leg = |s: Stop, from: f64, jump: f64| CarrierLeg {
        stop: s,
        from_start: from.to_bits(),
        to_destination: (400.0 - from).to_bits(),
        jump: jump.to_bits(),
        fuel: 57.0f64.to_bits(),
        tank: 943.0f64.to_bits(),
        market: 250.0f64.to_bits(),
        has_enough_fuel: false,
    };
    let t = CarrierTotals {
        distance: 400.0f64.to_bits(),
        fuel_used: 57.0f64.to_bits(),
        tank: 943.0f64.to_bits(),
        market: 250.0f64.to_bits(),
    };
    let legs = vec![leg(stop(1, "Sol", 0.0), 0.0, 0.0), leg(stop(2, "X", 400.0), 400.0, 400.0)];
    assert_eq!(
        shown(&carrier_route_json(&q, true, &t, &legs)),
        expected(
            r#"{"source": "Sol", "destination": "Colonia", "is_squadron": false, "optimised": true,
                "total_distance_ly": 400.0, "base_cargo_capacity_used": 500.0,
                "initial_fuel_tank": 1000.0, "initial_market_tritium": 250.0,
                "total_fuel_used": 57.0, "final_fuel_tank": 943.0, "final_market_tritium": 250.0,
                "totalJumps": 1, "route": [
                {"system": "Sol", "id64": "1", "distance_from_start": 0.0,
                 "distance_to_destination": 400.0, "jump_distance": 0.0, "fuel_used": 0.0,
                 "fuel_left_tank": 943.0, "tritium_in_market": 250.0, "has_enough_fuel": true},
                {"system": "X", "id64": "2", "distance_from_start": 400.0,
                 "distance_to_destination": 0.0, "jump_distance": 400.0, "fuel_used": 57.0,
                 "fuel_left_tank": 943.0, "tritium_in_market": 250.0, "has_enough_fuel": false}]}"#
        )
    );
}

#[test]
fn distances_are_told() {
    assert_eq!(
        shown(&distance_json(&stop(1, "Sol", 0.0), &stop(2, "Wolf 359", 7.5), 7.876f64.to_bits())),
        expected(
            r#"{"systemA": {"id64": 1, "name": "Sol", "coords": {"x": 0.0, "y": 0.0, "z": 0.0}},
                "systemB": {"id64": 2, "name": "Wolf 359", "coords": {"x": 7.5, "y": 0.0, "z": 0.0}},
                "distanceLy": 7.88}"#
        )
    );
    let e = distance_unknown("Nowhere");
    assert_eq!((e.status, e.message.as_str()), (404, "System not found: Nowhere"));
}

#[test]
fn scoreboard_coordinates_are_read() {
    let d = parsed(
        r#"{"record": {"system_x": 1.5, "system_y": -3, "system_z": "7.25", "a": true, "b": 18446744073709551615}}"#,
    );
    assert!(matches!(carrier_coord(&d, "system_x"), Coord::Number(n) if number(&n) == 1.5));
    assert!(matches!(carrier_coord(&d, "system_y"), Coord::Number(n) if number(&n) == -3.0));
    assert!(matches!(carrier_coord(&d, "system_z"), Coord::Written(s) if s == "7.25"));
    for key in ["a", "b", "missing"] {
        assert!(matches!(carrier_coord(&d, key), Coord::Number(n) if number(&n) == 0.0));
    }
    assert_eq!(
        shown(&progression_json(12.5f64.to_bits())),
        expected(r#"{"route_progression_percentage": 12.5}"#)
    );
}

#[test]
fn answers_are_kept_for_a_day() {
    let mut c = CarrierCache::new();
    assert!(c.get(0).is_none());
    c.store(Json::Bool(true), 1000);
    assert!(matches!(c.get(1000 + 86399), Some(Json::Bool(true))));
    assert!(c.get(1000 + 86400).is_none());
}
