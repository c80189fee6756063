//! Messages of the EDDN relay.

use std::io::Write;

use ananke::eddn::{
    eddn_docked_to_station, eddn_handle_envelope, eddn_handle_journal, eddn_scan_to_body,
    eddn_signals_to_body, extract_starpos, loc_str, star_type_to_subtype, strip_dollar_token,
    Listener,
};
use ananke::json::{Json, Num, Unit};
use ananke::state::EddnStats;

fn value_in(v: &serde_json::Value) -> Json {
    match v {
        serde_json::Value::Null => Json::Null,
        serde_json::Value::Bool(b) => Json::Bool(*b),
        serde_json::Value::Number(n) => Json::Num(if let Some(i) = n.as_i64() {
            Num::Int(i)
        } else if let Some(u) = n.as_u64() {
            Num::Big(u)
        } else {
            Num::Real(n.as_f64().unwrap().to_bits())
        }),
        serde_json::Value::String(s) => Json::Str(s.clone()),
        serde_json::Value::Array(a) => Json::Arr(a.iter().map(value_in).collect()),
        serde_json::Value::Object(o) => {
            Json::Obj(o.iter().map(|(k, v)| (k.clone(), value_in(v))).collect())
        }
    }
}

fn parsed(text: &str) -> Json {
    value_in(&serde_json::from_str(text).unwrap())
}

fn number(n: &Num) -> f64 {
    match n {
        Num::Int(i) => *i as f64,
        Num::Big(u) => *u as f64,
        Num::Real(b) => f64::from_bits(*b),
        Num::Float(i) => *i as f64,
        Num::Per(n, Unit::Atmosphere) => number(n) / 101325.0,
        Num::Per(n, Unit::Day) => number(n) / 86400.0,
        Num::Per(n, Unit::AstronomicalUnit) => number(n) / 149_597_870_700.0,
        Num::Per(n, Unit::SolarRadius) => number(n) / 695700000.0,
        Num::Per(n, Unit::Gravity) => number(n) / 9.80665,
        Num::Per(n, Unit::Kilometre) => number(n) / 1000.0,
        Num::Hundredths(b) => (f64::from_bits(*b) * 100.0).round() / 100.0,
    }
}

fn value_out(j: &Json) -> serde_json::Value {
    match j {
        Json::Null => serde_json::Value::Null,
        Json::Bool(b) => serde_json::Value::from(*b),
        Json::Num(Num::Int(i)) => serde_json::Value::from(*i),
        Json::Num(Num::Big(u)) => serde_json::Value::from(*u),
        Json::Num(n) => serde_json::Value::from(number(n)),
        Json::Str(s) => serde_json::Value::from(s.as_str()),
        Json::Arr(v) => serde_json::Value::Array(v.iter().map(value_out).collect()),
        Json::Obj(m) => serde_json::Value::Object(
            m.iter().map(|(k, v)| (k.clone(), value_out(v))).collect(),
        ),
        Json::Embedded(s) => serde_json::from_str(s).unwrap_or(serde_json::Value::Null),
    }
}

fn shown(j: &Json) -> serde_json::Value {
    value_out(j)
}

fn expected(text: &str) -> serde_json::Value {
    serde_json::from_str(text).unwrap()
}

#[test]
fn tokens_lose_their_wrapping() {
    assert_eq!(strip_dollar_token("$government_Democracy;"), "Democracy");
    assert_eq!(strip_dollar_token("$economy_High_Tech;"), "High_Tech");
    assert_eq!(strip_dollar_token("$$plain;;"), "plain");
    assert_eq!(strip_dollar_token("Democracy"), "Democracy");
    assert_eq!(strip_dollar_token(""), "");
    assert_eq!(strip_dollar_token("$_;"), "");
}

#[test]
fn localised_texts_come_first() {
    let m = parsed(r#"{"A": "$a_raw;", "A_Localised": "Local", "B": "$b_token;", "C": 5}"#);
    assert_eq!(loc_str(&m, "A", "A_Localised"), Some("Local".to_string()));
    assert_eq!(loc_str(&m, "B", "B_Localised"), Some("token".to_string()));
    assert_eq!(loc_str(&m, "C", "C_Localised"), None);
    assert_eq!(loc_str(&m, "D", "D_Localised"), None);
}

#[test]
fn star_types_have_names() {
    assert_eq!(star_type_to_subtype("G"), "G (White-Yellow) Star");
    assert_eq!(star_type_to_subtype("N"), "Neutron Star");
    assert_eq!(star_type_to_subtype("H"), "Black Hole");
    assert_eq!(star_type_to_subtype("WNC"), "Wolf-Rayet Star");
    assert_eq!(star_type_to_subtype("CHd"), "Carbon Star");
    assert_eq!(star_type_to_subtype("DCV"), "White Dwarf");
    assert_eq!(star_type_to_subtype("TTS"), "T Tauri Star");
    assert_eq!(star_type_to_subtype("SupermassiveBlackHole"), "Supermassive Black Hole");
    assert_eq!(star_type_to_subtype("RoguePlanet"), "RoguePlanet");
}

#[test]
fn star_positions_have_three_parts() {
    let c = extract_starpos(&parsed(r#"{"StarPos": [1.5, -2, 3.25]}"#)).unwrap();
    assert_eq!(number(&c.x), 1.5);
    assert_eq!(number(&c.y), -2.0);
    assert_eq!(number(&c.z), 3.25);
    assert!(extract_starpos(&parsed(r#"{"StarPos": [1.5, -2]}"#)).is_none());
    assert!(extract_starpos(&parsed(r#"{"StarPos": [1.5, "x", 3]}"#)).is_none());
    assert!(extract_starpos(&parsed(r#"{}"#)).is_none());
}

#[test]
fn scans_become_bodies() {
    let b = eddn_scan_to_body(&parsed(
        r#"{"BodyID": 3, "BodyName": "Sol 3", "SurfaceGravity": 9.80665, "Radius": 6371000.0,
            "SurfacePressure": 101325.0, "OrbitalPeriod": 86400.0, "RotationPeriod": -43200.0,
            "SemiMajorAxis": 149597870700.0, "PlanetClass": "Earthlike body", "Landable": false,
            "AtmosphereType": "", "Atmosphere": "thick", "MassEM": 1.0, "Volcanism": null,
            "timestamp": "2025-01-15T00:00:00Z"}"#,
    ))
    .unwrap();
    assert_eq!(
        shown(&b),
        expected(
            r#"{"bodyId": 3, "name": "Sol 3", "earthMasses": 1.0, "isLandable": false,
                "surfacePressure": 1.0, "orbitalPeriod": 1.0, "semiMajorAxis": 1.0,
                "rotationalPeriod": -0.5, "atmosphereType": "thick", "type": "Planet",
                "subType": "Earthlike body", "gravity": 1.0, "radius": 6371.0,
                "updateTime": "2025-01-15T00:00:00Z"}"#
        )
    );
}

#[test]
fn scans_of_stars_know_the_main_star() {
    let b = eddn_scan_to_body(&parsed(
        r#"{"BodyID": 0, "BodyName": "Sol", "StarType": "G", "Radius": 695700000.0}"#,
    ))
    .unwrap();
    assert_eq!(
        shown(&b),
        expected(
            r#"{"bodyId": 0, "name": "Sol", "type": "Star", "subType": "G (White-Yellow) Star",
                "spectralClass": "G", "mainStar": true, "solarRadius": 1.0, "radius": 695700.0}"#
        )
    );
    let c = eddn_scan_to_body(&parsed(r#"{"BodyID": 1, "BodyName": "B", "StarType": "N"}"#)).unwrap();
    assert!(c.get("mainStar").is_none());
}

#[test]
fn scans_need_an_id_and_a_name() {
    assert!(eddn_scan_to_body(&parsed(r#"{"BodyName": "Sol"}"#)).is_none());
    assert!(eddn_scan_to_body(&parsed(r#"{"BodyID": 1}"#)).is_none());
}

#[test]
fn dockings_become_stations() {
    let s = eddn_docked_to_station(&parsed(
        r#"{"MarketID": 128016640, "StationName": "Jameson", "StationType": "Orbis",
            "DistFromStarLS": 324.0, "StationAllegiance": "", "StationGovernment": "$government_Democracy;",
            "StationEconomy": "$economy_HighTech;", "StationServices": ["Market", "Dock"],
            "StationFaction": {"Name": "The Pilots", "FactionState": "Boom"}, "LandingPads": {"Large": 8},
            "timestamp": "t"}"#,
    ))
    .unwrap();
    assert_eq!(
        shown(&s),
        expected(
            r#"{"id": 128016640, "marketId": 128016640, "name": "Jameson", "type": "Orbis",
                "distanceToArrival": 324.0, "government": "Democracy", "primaryEconomy": "HighTech",
                "services": ["Market", "Dock"], "controllingFaction": "The Pilots",
                "controllingFactionState": "Boom", "landingPads": {"Large": 8}, "updateTime": "t"}"#
        )
    );
    assert!(eddn_docked_to_station(&parsed(r#"{"StationName": "X"}"#)).is_none());
    assert!(eddn_docked_to_station(&parsed(r#"{"MarketID": 1}"#)).is_none());
}

#[test]
fn signals_belong_to_bodies() {
    let b = eddn_signals_to_body(&parsed(r#"{"BodyID": 4, "BodyName": "A 4", "Signals": [1]}"#)).unwrap();
    assert_eq!(shown(&b), expected(r#"{"bodyId": 4, "name": "A 4", "signals": [1]}"#));
    assert!(eddn_signals_to_body(&parsed(r#"{"BodyID": 4, "Signals": null}"#)).is_none());
    assert!(eddn_signals_to_body(&parsed(r#"{"Signals": [1]}"#)).is_none());
}

#[test]
fn jumps_become_systems() {
    let s = eddn_handle_journal(&parsed(
        r#"{"event": "FSDJump", "SystemAddress": 10477373803, "StarSystem": "Sol",
            "StarPos": [0, 0, 0], "SystemAllegiance": "Federation", "Population": 22780919531,
            "SystemGovernment": "$government_Democracy;", "SystemSecurity_Localised": "High",
            "Factions": [], "Powers": null, "PowerplayStateReinforcement": 7, "timestamp": "t"}"#,
    ))
    .unwrap();
    assert_eq!(s.id64, 10477373803);
    assert_eq!(s.name, "Sol");
    assert_eq!(s.population, Some(22780919531));
    assert_eq!(s.allegiance.as_deref(), Some("Federation"));
    assert_eq!(s.government.as_deref(), Some("Democracy"));
    assert_eq!(s.security.as_deref(), Some("High"));
    assert!(s.factions.is_some());
    assert!(s.powers.is_none());
    assert_eq!(number(s.power_state_reinforcement.as_ref().unwrap()), 7.0);
    assert_eq!(s.date.as_deref(), Some("t"));
    assert!(s.bodies.is_none() && s.stations.is_none());
}

#[test]
fn scans_and_dockings_are_partial_systems() {
    let scan = eddn_handle_journal(&parsed(
        r#"{"event": "Scan", "SystemAddress": 1, "StarSystem": "A", "BodyID": 2, "BodyName": "A 2",
            "StarPos": [1, 2, 3], "Population": 5, "SystemAllegiance": "Empire"}"#,
    ))
    .unwrap();
    assert_eq!(scan.bodies.as_ref().unwrap().len(), 1);
    assert!(scan.coords.is_some());
    assert!(scan.population.is_none() && scan.allegiance.is_none());
    let docked = eddn_handle_journal(&parsed(
        r#"{"event": "Docked", "SystemAddress": 1, "StarSystem": "A", "MarketID": 2, "StationName": "S"}"#,
    ))
    .unwrap();
    assert_eq!(docked.stations.as_ref().unwrap().len(), 1);
    let signals = eddn_handle_journal(&parsed(
        r#"{"event": "SAASignalsFound", "SystemAddress": 1, "StarSystem": "A", "BodyID": 2, "Signals": [1]}"#,
    ))
    .unwrap();
    assert_eq!(signals.bodies.as_ref().unwrap().len(), 1);
}

#[test]
fn other_events_count_for_nothing() {
    for text in [
        r#"{"event": "Music", "SystemAddress": 1, "StarSystem": "A"}"#,
        r#"{"event": "FSDJump", "StarSystem": "A"}"#,
        r#"{"event": "FSDJump", "SystemAddress": 1, "StarSystem": ""}"#,
        r#"{"event": "FSDJump", "SystemAddress": 1}"#,
        r#"{"SystemAddress": 1, "StarSystem": "A"}"#,
        r#"{"event": "Scan", "SystemAddress": 1, "StarSystem": "A"}"#,
    ] {
        assert!(eddn_handle_journal(&parsed(text)).is_none());
    }
}

fn jump(schema: &str) -> String {
    format!(
        "{{\"$schemaRef\": \"{}\", \"message\": {{\"event\": \"Location\", \"SystemAddress\": 9, \"StarSystem\": \"B\", \"StarPos\": [4, 5, 6]}}}}",
        schema
    )
}

#[test]
fn only_journals_are_read() {
    assert!(eddn_handle_envelope(&parsed(&jump("https://eddn.edcd.io/schemas/journal/1"))).is_some());
    assert!(eddn_handle_envelope(&parsed(&jump("https://eddn.edcd.io/schemas/commodity/3"))).is_none());
    assert!(eddn_handle_envelope(&parsed(r#"{"message": {}}"#)).is_none());
}

fn zipped(bytes: &[u8]) -> Vec<u8> {
    let mut e = flate2::write::ZlibEncoder::new(Vec::new(), flate2::Compression::default());
    e.write_all(bytes).unwrap();
    e.finish().unwrap()
}

#[test]
fn frames_are_unpacked() {
    let mut stats = EddnStats::new();
    let got = Listener::frame(&mut stats, &zipped(b"{\"a\": 1}"));
    assert_eq!(got.as_deref(), Some(&b"{\"a\": 1}"[..]));
    assert_eq!((stats.messages_received, stats.messages_dropped), (1, 0));
    assert!(Listener::frame(&mut stats, &b"no zlib".to_vec()).is_none());
    assert_eq!((stats.messages_received, stats.messages_dropped), (2, 1));
    Listener::unreadable(&mut stats);
    assert_eq!(stats.messages_dropped, 2);
    assert!(Listener::unpacked(&mut stats, None).is_none());
    assert_eq!((stats.messages_received, stats.messages_dropped), (3, 3));
}

#[test]
fn envelopes_are_counted_and_wait() {
    let mut l = Listener::new();
    let mut stats = EddnStats::new();
    let coords =
        l.envelope(&mut stats, &parsed(&jump("https://eddn.edcd.io/schemas/journal/1")), 77).unwrap();
    assert_eq!(number(&coords.x), 4.0);
    assert_eq!(number(&coords.z), 6.0);
    assert_eq!((stats.messages_processed, stats.systems_emitted, stats.last_message_time), (1, 1, 77));
    assert_eq!(l.buffer.len(), 1);
    assert!(l.envelope(&mut stats, &parsed(r#"{"$schemaRef": "x", "message": {}}"#), 78).is_none());
    assert_eq!((stats.messages_processed, stats.messages_dropped), (1, 1));
    // An event of the journal that is not taken in is not dropped.
    let other = r#"{"$schemaRef": "https://eddn.edcd.io/schemas/journal/1", "message": {}}"#;
    assert!(l.envelope(&mut stats, &parsed(other), 78).is_none());
    assert_eq!((stats.messages_processed, stats.messages_dropped), (1, 1));
    assert!(!l.should_flush(999));
    assert!(l.should_flush(1000));
    assert_eq!((l.wait_ms(0), l.wait_ms(400), l.wait_ms(999)), (1000, 600, 1));
    assert_eq!((l.wait_ms(1000), l.wait_ms(100000)), (0, 0));
    assert_eq!(l.take_batch().len(), 1);
    assert!(!l.should_flush(100000));
    assert_eq!((l.wait_ms(0), l.wait_ms(100000)), (60000, 60000));
}

#[test]
fn only_arrivals_are_mapped() {
    let mut l = Listener::new();
    let mut stats = EddnStats::new();
    let event = |name: &str| {
        parsed(
            &r#"{"$schemaRef": "https://eddn.edcd.io/schemas/journal/1", "message": {
                "event": "NAME", "SystemAddress": 10, "StarSystem": "Sol", "StarPos": [0.0, 0.0, 0.0],
                "BodyID": 3, "BodyName": "Sol 3", "PlanetClass": "Earthlike body", "MarketID": 5,
                "StationName": "Galileo", "StationType": "Orbis", "Signals": []}}"#
                .replace("NAME", name),
        )
    };
    for name in ["Scan", "Docked", "SAASignalsFound"] {
        assert!(l.envelope(&mut stats, &event(name), 1).is_none());
    }
    assert_eq!((l.buffer.len(), stats.messages_processed), (3, 3));
    for name in ["FSDJump", "Location", "CarrierJump"] {
        assert!(l.envelope(&mut stats, &event(name), 1).is_some());
    }
    assert_eq!(stats.messages_dropped, 0);
}

#[test]
fn full_buffers_are_flushed() {
    let mut l = Listener::new();
    let mut stats = EddnStats::new();
    let e = parsed(&jump("https://eddn.edcd.io/schemas/journal/1"));
    for _ in 0..199 {
        l.envelope(&mut stats, &e, 1);
    }
    assert!(!l.should_flush(0));
    l.envelope(&mut stats, &e, 1);
    assert!(l.should_flush(0));
}

#[test]
fn attempts_wait_ever_longer() {
    let mut l = Listener::new();
    let mut stats = EddnStats::new();
    let waits: Vec<u64> = (0..9).map(|_| l.connect_failed()).collect();
    assert_eq!(waits, vec![1000, 2000, 4000, 8000, 16000, 32000, 60000, 60000, 60000]);
    l.connected(&mut stats);
    assert_eq!(stats.connected, 1);
    assert_eq!(l.connect_failed(), 1000);
    l.envelope(&mut stats, &parsed(&jump("https://eddn.edcd.io/schemas/journal/1")), 1);
    let (batch, wait) = l.lost(&mut stats);
    assert_eq!((batch.len(), wait), (1, 2000));
    assert_eq!((stats.connected, stats.reconnects), (0, 1));
    stats.connected = 1;
    Listener::writer_gone(&mut stats);
    assert_eq!(stats.connected, 0);
}
