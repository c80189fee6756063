//! The live map, the feeds and the sync.

use ananke::eddn::eddn_carrier_system;
use ananke::edmc::{
    batch_accepted, batch_totals, check_batch, check_edmc_auth, chunks, journal_accepted,
    stats_json, unreadable, writer_dead,
};
use ananke::heatmap::{build_heatmap_html, Heatmap, Marker, HEATMAP_CELLS};
use ananke::json::{Json, Num, Unit};
use ananke::models::SpanshSystem;
use ananke::state::{EddnStats, EdmcStats};
use ananke::sync::{dump_time_in, is_stale, last_sync_time, needs_backfill, sync_decision, Importer};

fn number(n: &Num) -> f64 {
    match n {
        Num::Int(i) => *i as f64,
        Num::Big(u) => *u as f64,
        Num::Real(b) => f64::from_bits(*b),
        Num::Float(i) => *i as f64,
        Num::Per(n, Unit::Atmosphere) => number(n) / 101325.0,
        Num::Per(n, Unit::Day) => number(n) / 86400.0,
        Num::Per(n, Unit::AstronomicalUnit) => number(n) / 149_597_870_700.0,
        Num::Per(n, Unit::SolarRadius) => number(n) / 695700000.0,
        Num::Per(n, Unit::Gravity) => number(n) / 9.80665,
        Num::Per(n, Unit::Kilometre) => number(n) / 1000.0,
        Num::Hundredths(b) => (f64::from_bits(*b) * 100.0).round() / 100.0,
    }
}

fn value_out(j: &Json) -> serde_json::Value {
    match j {
        Json::Null => serde_json::Value::Null,
        Json::Bool(b) => serde_json::Value::from(*b),
        Json::Num(Num::Int(i)) => serde_json::Value::from(*i),
        Json::Num(Num::Big(u)) => serde_json::Value::from(*u),
        Json::Num(n) => serde_json::Value::from(number(n)),
        Json::Str(s) => serde_json::Value::from(s.as_str()),
        Json::Arr(v) => serde_json::Value::Array(v.iter().map(value_out).collect()),
        Json::Obj(m) => serde_json::Value::Object(
            m.iter().map(|(k, v)| (k.clone(), value_out(v))).collect(),
        ),
        Json::Embedded(s) => serde_json::from_str(s).unwrap_or(serde_json::Value::Null),
    }
}

fn shown(j: &Json) -> serde_json::Value {
    value_out(j)
}

fn expected(text: &str) -> serde_json::Value {
    serde_json::from_str(text).unwrap()
}

fn shade(n: u64, max: u64) -> (u8, u8, u8, u8) {
    (n as u8, max as u8, 7, 255)
}

#[test]
fn visits_are_counted() {
    let mut m = Heatmap::new();
    assert_eq!(m.cells.len(), HEATMAP_CELLS);
    m.bump(Some((3, 2)));
    m.bump(Some((3, 2)));
    m.bump(Some((5000, 5000)));
    m.bump(None);
    assert_eq!(m.cells[2 * 1024 + 3], 2);
    assert_eq!(m.cells[1023 * 1024 + 1023], 1);
    assert_eq!(m.total_bumps, 3);
    assert_eq!(m.cells.iter().sum::<u64>(), 3);
}

#[test]
fn counts_fade() {
    let mut m = Heatmap::new();
    m.cells[0] = 100;
    m.cells[1] = 1;
    m.decay(|n: u64| (n as f64 * 0.9928057) as u64);
    assert_eq!(m.cells[0], 99);
    assert_eq!(m.cells[1], 0);
    assert_eq!(m.cells[2], 0);
}

fn decoded(file: &[u8]) -> Vec<u8> {
    let mut reader = png::Decoder::new(file).read_info().unwrap();
    let mut buf = vec![0; reader.output_buffer_size()];
    let info = reader.next_frame(&mut buf).unwrap();
    assert_eq!((info.width, info.height), (1024, 1024));
    buf
}

#[test]
fn pictures_show_north_at_the_top() {
    let mut m = Heatmap::new();
    m.bump(Some((10, 0)));
    m.bump(Some((20, 1023)));
    m.bump(Some((20, 1023)));
    let rgba = m.paint(&shade);
    let at = |x: usize, y: usize| rgba[(y * 1024 + x) * 4..(y * 1024 + x) * 4 + 4].to_vec();
    assert_eq!(at(10, 1023), vec![1, 2, 7, 255]);
    assert_eq!(at(20, 0), vec![2, 2, 7, 255]);
    assert_eq!(at(20, 1), vec![0, 0, 0, 0]);
    let file = m.get_or_render(shade, || 5);
    assert_eq!(decoded(&file), rgba);
}

#[test]
fn pictures_are_kept_for_half_a_minute() {
    let mut m = Heatmap::new();
    let first = m.get_or_render(shade, || 1_000);
    m.bump(Some((1, 1)));
    assert!(m.cached(30_000_000_999).is_some());
    let again = m.get_or_render(shade, || 30_000_000_999);
    assert_eq!(first, again);
    assert!(m.cached(30_000_001_000).is_none());
    let fresh = m.get_or_render(shade, || 30_000_001_000);
    assert_ne!(first, fresh);
    m.store(5, &vec![1, 2, 3]);
    assert_eq!(m.cached(6), Some(vec![1, 2, 3]));
    assert_eq!(m.cached(0), Some(vec![1, 2, 3]));
}

#[test]
fn pages_hold_their_landmarks() {
    let marker = |name: &str| Marker {
        name: name.to_string(),
        left: "50.00".to_string(),
        top: "75.00".to_string(),
    };
    let page = build_heatmap_html(&vec![marker("Sol"), marker("Colonia")]);
    assert!(page.starts_with("<!DOCTYPE html>"));
    assert!(page.ends_with("</html>"));
    assert!(page.contains(
        "  <div class=\"marker\" style=\"left:50.00%;top:75.00%\">Sol</div>\n  <div class=\"marker\" style=\"left:50.00%;top:75.00%\">Colonia</div>\n</div>"
    ));
    assert!(page.contains("html,body{margin:0;"));
    assert!(page.contains("`/api/heatmap.png?t=${Date.now()}`"));
}

fn some(s: &str) -> Option<String> {
    Some(s.to_string())
}

#[test]
fn keys_are_checked() {
    assert!(check_edmc_auth(&None, &None).is_ok());
    assert!(check_edmc_auth(&None, &some("x")).is_ok());
    assert!(check_edmc_auth(&some("k"), &some("k")).is_ok());
    for provided in [None, some("K"), some("")] {
        let e = check_edmc_auth(&some("k"), &provided).err().unwrap();
        assert_eq!((e.status, e.message.as_str()), (401, "Invalid or missing X-Api-Key"));
    }
}

fn system(id64: i64, bodies: usize, stations: usize) -> SpanshSystem {
    let mut s = eddn_carrier_system(id64, format!("S{}", id64));
    if bodies > 0 {
        s.bodies = Some((0..bodies).map(|_| Json::Null).collect());
    }
    if stations > 0 {
        s.stations = Some((0..stations).map(|_| Json::Null).collect());
    }
    s
}

#[test]
fn batches_have_a_size() {
    let e = check_batch(&vec![]).err().unwrap();
    assert_eq!((e.status, e.message.as_str()), (400, "Empty batch"));
    let many: Vec<SpanshSystem> = (0..10001).map(|i| system(i, 0, 0)).collect();
    let e = check_batch(&many).err().unwrap();
    assert_eq!((e.status, e.message.as_str()), (400, "Batch too large (max 10000)"));
    let most: Vec<SpanshSystem> = (0..10000).map(|i| system(i, 0, 0)).collect();
    assert!(check_batch(&most).is_ok());
}

#[test]
fn batches_are_cut_and_counted() {
    let v = vec![system(1, 2, 0), system(2, 3, 1), system(3, 0, 4)];
    assert_eq!(batch_totals(&v), (5, 5));
    let all: Vec<SpanshSystem> = (0..10001).map(|i| system(i, 0, 0)).collect();
    let cut = chunks(all);
    let sizes: Vec<usize> = cut.iter().map(|c| c.len()).collect();
    assert_eq!(sizes, vec![5000, 5000, 1]);
    let ids: Vec<i64> = cut.iter().flatten().map(|s| s.id64).collect();
    assert_eq!(ids, (0..10001).collect::<Vec<i64>>());
    assert_eq!(chunks((0..5000).map(|i| system(i, 0, 0)).collect()).len(), 1);
    assert!(chunks(Vec::new()).is_empty());
}

#[test]
fn ingests_are_answered() {
    assert_eq!(
        shown(&journal_accepted(&system(4, 2, 1))),
        expected(r#"{"status": "accepted", "system": "S4", "bodies": 2, "stations": 1}"#)
    );
    assert_eq!(
        shown(&batch_accepted(3, 5, 6)),
        expected(r#"{"status": "accepted", "systems": 3, "bodies": 5, "stations": 6}"#)
    );
    let e = unreadable("eof", "{");
    assert_eq!((e.status, e.message.as_str()), (400, "JSON parse error: eof — body starts with: {"));
    let e = writer_dead();
    assert_eq!((e.status, e.message.as_str()), (500, "Ingest queue full or writer dead"));
}

#[test]
fn stats_tell_of_everything() {
    let mut edmc = EdmcStats::new();
    edmc.ingested(1, 2, 3, 99);
    let mut eddn = EddnStats::new();
    eddn.connected = 1;
    eddn.reconnects = 4;
    let v = shown(&stats_json(&edmc, &eddn, 12, &some("1700000000"), &None));
    assert_eq!(
        v,
        expected(
            r#"{"edmc_ingest": {"systems_ingested": 1, "bodies_ingested": 2, "stations_ingested": 3,
                  "last_ingest_time": 99},
                "eddn_ingest": {"connected": true, "messages_received": 0, "messages_processed": 0,
                  "messages_dropped": 0, "systems_emitted": 0, "bodies_emitted": 0,
                  "stations_emitted": 0, "last_message_time": 0, "reconnects": 4},
                "heatmap": {"total_bumps": 12, "grid": "1024x1024", "bounds_x": [-50000.0, 50000.0],
                  "bounds_z": [-25000.0, 75000.0], "decay_factor_per_5min": 0.9928057},
                "database": {"last_spansh_sync": 1700000000, "import_complete": "false"}}"#
        )
    );
}

#[test]
fn syncs_fall_due() {
    assert_eq!(last_sync_time(&None), 0);
    assert_eq!(last_sync_time(&some("x")), 0);
    assert_eq!(last_sync_time(&some("123")), 123);
    assert!(!is_stale(21600, 0));
    assert!(is_stale(21601, 0));
    assert!(!is_stale(5, 10));
}

#[test]
fn tables_are_filled_once() {
    assert!(needs_backfill(Some(0), Some(3)));
    assert!(needs_backfill(None, Some(3)));
    assert!(!needs_backfill(Some(1), Some(3)));
    assert!(!needs_backfill(Some(0), Some(0)));
    assert!(!needs_backfill(Some(0), None));
}

#[test]
fn dumps_are_fetched_when_they_change() {
    assert_eq!(sync_decision(true, some("t"), &None, true), (false, None));
    assert_eq!(sync_decision(false, some("t"), &some("t"), true), (false, None));
    assert_eq!(sync_decision(false, some("t"), &some("s"), false), (true, some("t")));
    assert_eq!(sync_decision(false, some("t"), &None, false), (true, some("t")));
    assert_eq!(sync_decision(false, None, &some("t"), true), (true, None));
    assert_eq!(sync_decision(false, None, &some("t"), false), (false, None));
}

#[test]
fn dump_pages_show_the_time() {
    let page = "<tr>galaxy.json.gz Generated: 2024-12-31 00:00:00</tr><tr>galaxy_1day.json.gz size 5 Generated: 2025-01-15 12:34:56";
    assert_eq!(dump_time_in(page, "galaxy_1day.json.gz"), some("2025-01-15 12:34:56"));
    assert_eq!(dump_time_in(page, "galaxy.json.gz"), some("2024-12-31 00:00:00"));
    assert_eq!(dump_time_in(page, "systems.json.gz"), None);
    assert_eq!(dump_time_in("a 2025-01-15 12:34", "a"), None);
    assert_eq!(dump_time_in("a 2025-01-1512:34:567", "a"), None);
    let far = format!("a{}2025-01-15 12:34:56", " ".repeat(800));
    assert_eq!(dump_time_in(&far, "a"), None);
    let near = format!("a{}2025-01-15 12:34:56", " ".repeat(780));
    assert_eq!(dump_time_in(&near, "a"), some("2025-01-15 12:34:56"));
    assert_eq!(dump_time_in("2025-01-15 12:34:56 a", "a"), None);
}

#[test]
fn imports_go_in_batches() {
    let mut i = Importer::new();
    let mut sizes = Vec::new();
    for k in 0..10003 {
        if let Some(b) = i.take(system(k, 0, 0)) {
            sizes.push(b.len());
        }
    }
    assert_eq!(sizes, vec![5000, 5000]);
    assert_eq!(i.count, 10003);
    assert_eq!(i.finish().unwrap().len(), 3);
    assert!(Importer::new().finish().is_none());
}
