//! What goes into the database.

use ananke::db::{
    body_params, classify_services, current_time_secs, get_bool, get_bool_opt, get_f64, get_i64,
    get_str, migrations, retry_after, station_params, system_params, time_shown, writes_for, Param,
    Write, SQL_BODY, SQL_INDEX, SQL_SCHEMA, SQL_STATION, SQL_SYSTEM,
};
use ananke::eddn::eddn_carrier_system;
use ananke::json::{Json, Num, Unit};
use ananke::models::{SpanshCoords, SpanshSystem};

fn value_in(v: &serde_json::Value) -> Json {
    match v {
        serde_json::Value::Null => Json::Null,
        serde_json::Value::Bool(b) => Json::Bool(*b),
        serde_json::Value::Number(n) => Json::Num(if let Some(i) = n.as_i64() {
            Num::Int(i)
        } else if let Some(u) = n.as_u64() {
            Num::Big(u)
        } else {
            Num::Real(n.as_f64().unwrap().to_bits())
        }),
        serde_json::Value::String(s) => Json::Str(s.clone()),
        serde_json::Value::Array(a) => Json::Arr(a.iter().map(value_in).collect()),
        serde_json::Value::Object(o) => {
            Json::Obj(o.iter().map(|(k, v)| (k.clone(), value_in(v))).collect())
        }
    }
}

fn parsed(text: &str) -> Json {
    value_in(&serde_json::from_str(text).unwrap())
}

fn number(n: &Num) -> f64 {
    match n {
        Num::Int(i) => *i as f64,
        Num::Big(u) => *u as f64,
        Num::Real(b) => f64::from_bits(*b),
        Num::Float(i) => *i as f64,
        Num::Per(n, Unit::Atmosphere) => number(n) / 101325.0,
        Num::Per(n, Unit::Day) => number(n) / 86400.0,
        Num::Per(n, Unit::AstronomicalUnit) => number(n) / 149_597_870_700.0,
        Num::Per(n, Unit::SolarRadius) => number(n) / 695700000.0,
        Num::Per(n, Unit::Gravity) => number(n) / 9.80665,
        Num::Per(n, Unit::Kilometre) => number(n) / 1000.0,
        Num::Hundredths(b) => (f64::from_bits(*b) * 100.0).round() / 100.0,
    }
}

fn marks(sql: &str) -> usize {
    sql.chars().filter(|&c| c == '?').count()
}

fn system(id64: i64) -> SpanshSystem {
    eddn_carrier_system(id64, "Sol".to_string())
}

#[test]
fn members_are_read_by_kind() {
    let v = parsed(r#"{"i": 5, "f": 2.5, "s": "x", "t": true, "o": false, "n": null}"#);
    assert_eq!(get_i64(&v, "i"), Some(5));
    assert_eq!(get_i64(&v, "f"), None);
    assert_eq!(number(&get_f64(&v, "f").unwrap()), 2.5);
    assert_eq!(number(&get_f64(&v, "i").unwrap()), 5.0);
    assert!(get_f64(&v, "s").is_none());
    assert_eq!(get_str(&v, "s"), Some("x"));
    assert_eq!(get_str(&v, "i"), None);
    assert_eq!(get_bool(&v, "t"), 1);
    assert_eq!(get_bool(&v, "o"), 0);
    assert_eq!(get_bool(&v, "x"), 0);
    assert_eq!(get_bool_opt(&v, "t"), Some(1));
    assert_eq!(get_bool_opt(&v, "o"), Some(0));
    assert_eq!(get_bool_opt(&v, "n"), None);
}

#[test]
fn rows_fit_their_statements() {
    assert_eq!(system_params(&system(1), 9).len(), marks(SQL_SYSTEM));
    assert_eq!(body_params(1, &parsed("{}")).len(), marks(SQL_BODY));
    assert_eq!(station_params(1, &parsed("{}")).len(), marks(SQL_STATION));
    assert_eq!(marks(SQL_INDEX), 7);
}

#[test]
fn systems_carry_the_time() {
    let p = system_params(&system(42), 1234);
    assert!(matches!(p[0], Param::Int(42)));
    assert!(matches!(&p[1], Param::Text(s) if s == "Sol"));
    assert!(p.iter().any(|x| matches!(x, Param::Int(1234))));
}

#[test]
fn services_are_sorted_out() {
    let s = classify_services(&parsed(
        r#"{"services": ["Market", "Dock", "Shipyard", "Refuel", "Autodock", 7, "Outfitting", "Repair"]}"#,
    ));
    assert!(s.market && s.shipyard && s.outfitting);
    assert_eq!(s.other, vec!["Refuel".to_string(), "Repair".to_string()]);
    let none = classify_services(&parsed("{}"));
    assert!(!none.market && !none.shipyard && !none.outfitting);
    assert!(none.other.is_empty());
}

#[test]
fn other_services_are_written_as_json() {
    let p = station_params(1, &parsed(r#"{"services": ["Refuel", "Black \"Market\""]}"#));
    assert!(p
        .iter()
        .any(|x| matches!(x, Param::Text(s) if s == "[\"Refuel\",\"Black \\\"Market\\\"\"]")));
    let q = station_params(1, &parsed("{}"));
    assert!(q.iter().any(|x| matches!(x, Param::Text(s) if s == "[]")));
}

#[test]
fn partial_bodies_keep_what_is_known() {
    let conn = rusqlite::Connection::open_in_memory().unwrap();
    conn.execute_batch(SQL_SCHEMA).unwrap();
    for m in migrations() {
        let _ = conn.execute(&m, []);
    }
    let write = |text: &str| {
        let values: Vec<rusqlite::types::Value> = body_params(1, &parsed(text))
            .iter()
            .map(|p| match p {
                Param::Int(i) => rusqlite::types::Value::Integer(*i),
                Param::Text(s) => rusqlite::types::Value::Text(s.clone()),
                Param::JsonText(_) => rusqlite::types::Value::Text("[7]".to_string()),
                Param::Double(n) => rusqlite::types::Value::Real(number(n)),
                _ => rusqlite::types::Value::Null,
            })
            .collect();
        conn.execute(SQL_BODY, rusqlite::params_from_iter(values)).unwrap();
    };
    write(r#"{"bodyId": 2, "name": "Sol 2", "isLandable": true, "rotationalPeriodTidallyLocked": true}"#);
    write(r#"{"bodyId": 2, "signals": [7]}"#);
    let got: (String, i64, i64, String) = conn
        .query_row("SELECT name, isLandable, isTidallyLocked, signals FROM bodies", [], |r| {
            Ok((r.get(0)?, r.get(1)?, r.get(2)?, r.get(3)?))
        })
        .unwrap();
    assert_eq!(got, ("Sol 2".to_string(), 1, 1, "[7]".to_string()));
    write(r#"{"bodyId": 2, "isLandable": false}"#);
    let landable: i64 = conn.query_row("SELECT isLandable FROM bodies", [], |r| r.get(0)).unwrap();
    assert_eq!(landable, 0);
}

fn kinds(w: &Vec<Write>) -> Vec<&'static str> {
    w.iter()
        .map(|x| match x {
            Write::System(_) => "system",
            Write::Index(_) => "index",
            Write::Body(_) => "body",
            Write::Neutron(_) => "neutron",
            Write::Station(_) => "station",
            Write::Prison(_) => "prison",
        })
        .collect()
}

#[test]
fn systems_become_statements() {
    let mut s = system(7);
    assert_eq!(kinds(&writes_for(&s, 1)), vec!["system"]);
    s.coords = Some(SpanshCoords { x: Num::Int(1), y: Num::Int(2), z: Num::Int(3) });
    s.bodies = Some(vec![
        parsed(r#"{"bodyId": 1, "subType": "Neutron Star"}"#),
        parsed(r#"{"bodyId": 2, "subType": "Icy body"}"#),
    ]);
    s.stations = Some(vec![parsed(r#"{"id": 5, "government": "Prison Colony"}"#)]);
    let w = writes_for(&s, 1);
    let k = kinds(&w);
    assert_eq!(k[..2], ["system", "index"]);
    assert_eq!(k.iter().filter(|x| **x == "body").count(), 2);
    assert_eq!(k.iter().filter(|x| **x == "neutron").count(), 1);
    assert_eq!(k.iter().filter(|x| **x == "station").count(), 1);
    assert!(k.contains(&"prison"));
    for x in &w {
        assert_eq!(x.is_required(), matches!(x, Write::System(_) | Write::Index(_)));
    }
}

#[test]
fn failed_batches_are_tried_again() {
    assert_eq!(retry_after(1), Some(500));
    assert_eq!(retry_after(2), Some(1000));
    assert_eq!(retry_after(3), None);
    assert_eq!(retry_after(9), None);
}

#[test]
fn schema_and_migrations_name_the_tables() {
    for table in ["systems", "bodies", "stations", "meta", "neutron_systems", "prison_systems"] {
        assert!(SQL_SCHEMA.contains(table));
    }
    let m = migrations();
    assert!(m.iter().all(|s| s.starts_with("ALTER TABLE ")));
    assert!(m.iter().any(|s| s.contains("outfitting")));
}

#[test]
fn schema_takes_every_statement() {
    let conn = rusqlite::Connection::open_in_memory().unwrap();
    conn.execute_batch(SQL_SCHEMA).unwrap();
    for m in migrations() {
        let _ = conn.execute(&m, []);
    }
    for sql in [SQL_SYSTEM, SQL_INDEX, SQL_BODY, SQL_STATION] {
        assert_eq!(conn.prepare(sql).unwrap().parameter_count(), marks(sql));
    }
    conn.prepare(ananke::db::SQL_NEUTRON).unwrap();
    conn.prepare(ananke::db::SQL_PRISON).unwrap();
}

#[test]
fn clock_runs_after_the_epoch() {
    assert!(current_time_secs() > 1_700_000_000);
    assert_eq!(time_shown(Some(5)), 5);
    assert_eq!(time_shown(None), 0);
}
