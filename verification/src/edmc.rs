//! The live feed of journal events, and the counters that tell of it.

use crate::config::{
    HEATMAP_DECAY_FACTOR, HEATMAP_H, HEATMAP_W, HEATMAP_X_MAX, HEATMAP_X_MIN, HEATMAP_Z_MAX,
    HEATMAP_Z_MIN,
};
use crate::eddn;
use crate::eddn::count_values;
use crate::json;
use crate::json::{counter, string, Json, JsonView, Num, Object};
use crate::models::SpanshSystem;
use crate::state::{EddnStats, EdmcStats};
use crate::sync;
use crate::sync::{last_sync_time, BATCH};
use crate::system::{api_error, ApiError};
use crate::text;
use crate::text::{decimal_u64, same};
use vstd::prelude::*;

verus! {

/// How many systems a batch holds at most.
pub const BATCH_MAX: usize = 10000;

/// Checks the key that came with a request: where a key is expected, it has to
/// be that one.
pub fn check_edmc_auth(expected: &Option<String>, provided: &Option<String>) -> (r: Result<
    (),
    ApiError,
>)
    ensures
        r is Ok <==> (expected matches Some(key) ==> key@ == provided_key(*provided)),
        r matches Err(e) ==> e.status == 401 && e.message@ == "Invalid or missing X-Api-Key"@,
{
    match expected {
        Some(key) => {
            let fits = match provided {
                Some(p) => same(p.as_str(), key.as_str()),
                None => same("", key.as_str()),
            };
            if fits {
                Ok(())
            } else {
                Err(api_error(401, "Invalid or missing X-Api-Key"))
            }
        },
        None => Ok(()),
    }
}

/// The key that came with a request; no key is the empty one.
pub open spec fn provided_key(p: Option<String>) -> Seq<char> {
    match p {
        Some(s) => s@,
        None => ""@,
    }
}

/// The error for a body that is not JSON of the right shape; `start` is how the
/// body starts.
pub fn unreadable(e: &str, start: &str) -> (r: ApiError)
    ensures
        r.status == 400,
        r.message@ == "JSON parse error: "@ + e@ + " — body starts with: "@ + start@,
{
    let mut m = String::new();
    m.append("JSON parse error: ");
    m.append(e);
    m.append(" — body starts with: ");
    m.append(start);
    assert(m@ =~= "JSON parse error: "@ + e@ + " — body starts with: "@ + start@);
    ApiError { status: 400, message: m }
}

/// The error where the writer does not take what was sent to it.
pub fn writer_dead() -> (r: ApiError)
    ensures
        r.status == 500,
        r.message@ == "Ingest queue full or writer dead"@,
{
    api_error(500, "Ingest queue full or writer dead")
}

/// The number of bodies of a system.
pub open spec fn bodies_of(s: SpanshSystem) -> int {
    eddn::count_of(s@.bodies) as int
}

/// The number of stations of a system.
pub open spec fn stations_of(s: SpanshSystem) -> int {
    eddn::count_of(s@.stations) as int
}

/// The answer to one system.
pub open spec fn journal_answer(name: Seq<char>, bodies: int, stations: int) -> JsonView {
    JsonView::Obj(
        Map::empty().insert("status"@, JsonView::Str("accepted"@)).insert(
            "system"@,
            JsonView::Str(name),
        ).insert("bodies"@, JsonView::Num(json::count_num(bodies))).insert(
            "stations"@,
            JsonView::Num(json::count_num(stations)),
        ),
    )
}

/// The answer to one system.
pub fn journal_accepted(s: &SpanshSystem) -> (r: Json)
    ensures
        r@ == journal_answer(s.name@, bodies_of(*s), stations_of(*s)),
{
    let mut o = Object::new();
    o.put("status", string("accepted"));
    o.put("system", string(s.name.as_str()));
    o.put("bodies", counter(count_values(&s.bodies)));
    o.put("stations", counter(count_values(&s.stations)));
    o.done()
}

/// Checks the size of a batch.
pub fn check_batch(systems: &Vec<SpanshSystem>) -> (r: Result<(), ApiError>)
    ensures
        r is Ok <==> 0 < systems.len() <= BATCH_MAX,
        r matches Err(e) ==> e.status == 400 && e.message@ == if systems.len() == 0 {
            "Empty batch"@
        } else {
            "Batch too large (max 10000)"@
        },
{
    if systems.len() == 0 {
        Err(api_error(400, "Empty batch"))
    } else if systems.len() > BATCH_MAX {
        Err(api_error(400, "Batch too large (max 10000)"))
    } else {
        Ok(())
    }
}

/// The bodies of the first `n` systems.
pub open spec fn all_bodies(v: Seq<SpanshSystem>, n: int) -> int
    decreases n,
{
    if n <= 0 {
        0
    } else {
        all_bodies(v, n - 1) + bodies_of(v[n - 1])
    }
}

/// The stations of the first `n` systems.
pub open spec fn all_stations(v: Seq<SpanshSystem>, n: int) -> int
    decreases n,
{
    if n <= 0 {
        0
    } else {
        all_stations(v, n - 1) + stations_of(v[n - 1])
    }
}

proof fn lemma_totals_grow(v: Seq<SpanshSystem>, n: int, m: int)
    requires
        0 <= n <= m,
    ensures
        all_bodies(v, n) <= all_bodies(v, m),
        all_stations(v, n) <= all_stations(v, m),
    decreases m - n,
{
    if n < m {
        lemma_totals_grow(v, n, m - 1);
    }
}

/// How many bodies and stations the systems of a batch have.
pub fn batch_totals(v: &Vec<SpanshSystem>) -> (r: (u64, u64))
    requires
        all_bodies(v@, v.len() as int) <= u64::MAX,
        all_stations(v@, v.len() as int) <= u64::MAX,
    ensures
        r.0 == all_bodies(v@, v.len() as int),
        r.1 == all_stations(v@, v.len() as int),
{
    let mut bodies: u64 = 0;
    let mut stations: u64 = 0;
    for i in 0..v.len()
        invariant
            all_bodies(v@, v.len() as int) <= u64::MAX,
            all_stations(v@, v.len() as int) <= u64::MAX,
            bodies == all_bodies(v@, i as int),
            stations == all_stations(v@, i as int),
    {
        proof {
            lemma_totals_grow(v@, i + 1, v.len() as int);
        }
        bodies = bodies + count_values(&v[i].bodies);
        stations = stations + count_values(&v[i].stations);
    }
    (bodies, stations)
}

/// The answer to a batch.
pub open spec fn batch_answer(systems: int, bodies: int, stations: int) -> JsonView {
    JsonView::Obj(
        Map::empty().insert("status"@, JsonView::Str("accepted"@)).insert(
            "systems"@,
            JsonView::Num(json::count_num(systems)),
        ).insert("bodies"@, JsonView::Num(json::count_num(bodies))).insert(
            "stations"@,
            JsonView::Num(json::count_num(stations)),
        ),
    )
}

/// The answer to a batch.
pub fn batch_accepted(systems: u64, bodies: u64, stations: u64) -> (r: Json)
    ensures
        r@ == batch_answer(systems as int, bodies as int, stations as int),
{
    let mut o = Object::new();
    o.put("status", string("accepted"));
    o.put("systems", counter(systems));
    o.put("bodies", counter(bodies));
    o.put("stations", counter(stations));
    o.done()
}

/// The systems of the first `n` chunks, one after another.
pub open spec fn chained(chunks: Seq<Vec<SpanshSystem>>, n: int) -> Seq<SpanshSystem>
    decreases n,
{
    if n <= 0 {
        Seq::empty()
    } else {
        chained(chunks, n - 1) + chunks[n - 1]@
    }
}

proof fn lemma_chained_push(chunks: Seq<Vec<SpanshSystem>>, c: Vec<SpanshSystem>, n: int)
    requires
        0 <= n <= chunks.len(),
    ensures
        chained(chunks.push(c), n) == chained(chunks, n),
    decreases n,
{
    if n > 0 {
        lemma_chained_push(chunks, c, n - 1);
    }
}

/// Cuts a batch into the chunks in which it is written: each full but the last,
/// which is not empty, and all systems in their order.
pub fn chunks(systems: Vec<SpanshSystem>) -> (r: Vec<Vec<SpanshSystem>>)
    ensures
        chained(r@, r.len() as int) == systems@,
        forall|i: int| 0 <= i < r.len() ==> 0 < (#[trigger] r@[i]).len() <= BATCH,
        forall|i: int| 0 <= i < r.len() - 1 ==> (#[trigger] r@[i]).len() == BATCH,
{
    let ghost all = systems@;
    let mut rest = systems;
    let mut r: Vec<Vec<SpanshSystem>> = Vec::new();
    while rest.len() > BATCH
        invariant
            chained(r@, r.len() as int) + rest@ == all,
            forall|i: int| 0 <= i < r.len() ==> (#[trigger] r@[i]).len() == BATCH,
            r.len() > 0 ==> rest.len() > 0,
        decreases rest.len(),
    {
        let ghost before = rest@;
        let ghost chunked = r@;
        let tail = rest.split_off(BATCH);
        let ghost head = rest;
        r.push(rest);
        rest = tail;
        proof {
            assert(before =~= head@ + rest@);
            lemma_chained_push(chunked, head, chunked.len() as int);
            assert(chained(r@, r.len() as int) =~= chained(chunked, chunked.len() as int) + head@);
            assert(chained(r@, r.len() as int) + rest@ =~= all);
        }
    }
    if rest.len() > 0 {
        let ghost chunked = r@;
        let ghost last = rest;
        r.push(rest);
        proof {
            lemma_chained_push(chunked, last, chunked.len() as int);
            assert(chained(r@, r.len() as int) =~= all);
        }
    } else {
        assert(chained(r@, r.len() as int) =~= all);
    }
    r
}

/// The counters of the EDMC feed as JSON.
pub open spec fn edmc_part(s: EdmcStats) -> JsonView {
    JsonView::Obj(
        Map::empty().insert(
            "systems_ingested"@,
            JsonView::Num(json::count_num(s.systems_ingested as int)),
        ).insert(
            "bodies_ingested"@,
            JsonView::Num(json::count_num(s.bodies_ingested as int)),
        ).insert(
            "stations_ingested"@,
            JsonView::Num(json::count_num(s.stations_ingested as int)),
        ).insert(
            "last_ingest_time"@,
            JsonView::Num(json::count_num(s.last_ingest_time as int)),
        ),
    )
}

fn edmc_json(s: &EdmcStats) -> (r: Json)
    ensures
        r@ == edmc_part(*s),
{
    let mut o = Object::new();
    o.put("systems_ingested", counter(s.systems_ingested));
    o.put("bodies_ingested", counter(s.bodies_ingested));
    o.put("stations_ingested", counter(s.stations_ingested));
    o.put("last_ingest_time", counter(s.last_ingest_time));
    o.done()
}

/// The counters of the EDDN feed as JSON.
pub open spec fn eddn_part(s: EddnStats) -> JsonView {
    JsonView::Obj(
        Map::empty().insert("connected"@, JsonView::Bool(s.connected == 1)).insert(
            "messages_received"@,
            JsonView::Num(json::count_num(s.messages_received as int)),
        ).insert(
            "messages_processed"@,
            JsonView::Num(json::count_num(s.messages_processed as int)),
        ).insert(
            "messages_dropped"@,
            JsonView::Num(json::count_num(s.messages_dropped as int)),
        ).insert(
            "systems_emitted"@,
            JsonView::Num(json::count_num(s.systems_emitted as int)),
        ).insert(
            "bodies_emitted"@,
            JsonView::Num(json::count_num(s.bodies_emitted as int)),
        ).insert(
            "stations_emitted"@,
            JsonView::Num(json::count_num(s.stations_emitted as int)),
        ).insert(
            "last_message_time"@,
            JsonView::Num(json::count_num(s.last_message_time as int)),
        ).insert("reconnects"@, JsonView::Num(json::count_num(s.reconnects as int))),
    )
}

fn eddn_json(s: &EddnStats) -> (r: Json)
    ensures
        r@ == eddn_part(*s),
{
    let mut o = Object::new();
    o.put("connected", Json::Bool(s.connected == 1));
    o.put("messages_received", counter(s.messages_received));
    o.put("messages_processed", counter(s.messages_processed));
    o.put("messages_dropped", counter(s.messages_dropped));
    o.put("systems_emitted", counter(s.systems_emitted));
    o.put("bodies_emitted", counter(s.bodies_emitted));
    o.put("stations_emitted", counter(s.stations_emitted));
    o.put("last_message_time", counter(s.last_message_time));
    o.put("reconnects", counter(s.reconnects));
    o.done()
}

/// Two numbers as JSON.
pub open spec fn pair(a: u64, b: u64) -> JsonView {
    JsonView::Arr(seq![JsonView::Num(Num::Real(a)), JsonView::Num(Num::Real(b))])
}

fn pair_json(a: u64, b: u64) -> (r: Json)
    ensures
        r@ == pair(a, b),
{
    let mut v: Vec<Json> = Vec::new();
    v.push(Json::Num(Num::Real(a)));
    v.push(Json::Num(Num::Real(b)));
    proof {
        json::lemma_views(v@);
        assert(json::views(v@) =~= seq![
            JsonView::Num(Num::Real(a)),
            JsonView::Num(Num::Real(b)),
        ]);
    }
    Json::Arr(v)
}

/// What there is to tell of the live map.
pub open spec fn heatmap_part(total_bumps: u64) -> JsonView {
    JsonView::Obj(
        Map::empty().insert("total_bumps"@, JsonView::Num(json::count_num(total_bumps as int))).insert(
            "grid"@,
            JsonView::Str(
                text::numeral(HEATMAP_W as nat) + "x"@ + text::numeral(HEATMAP_H as nat),
            ),
        ).insert("bounds_x"@, pair(HEATMAP_X_MIN, HEATMAP_X_MAX)).insert(
            "bounds_z"@,
            pair(HEATMAP_Z_MIN, HEATMAP_Z_MAX),
        ).insert("decay_factor_per_5min"@, JsonView::Num(Num::Real(HEATMAP_DECAY_FACTOR))),
    )
}

fn heatmap_json(total_bumps: u64) -> (r: Json)
    ensures
        r@ == heatmap_part(total_bumps),
{
    let mut grid = decimal_u64(HEATMAP_W as u64);
    grid.append("x");
    let height = decimal_u64(HEATMAP_H as u64);
    grid.append(height.as_str());
    let mut o = Object::new();
    o.put("total_bumps", counter(total_bumps));
    o.put("grid", Json::Str(grid));
    o.put("bounds_x", pair_json(HEATMAP_X_MIN, HEATMAP_X_MAX));
    o.put("bounds_z", pair_json(HEATMAP_Z_MIN, HEATMAP_Z_MAX));
    o.put("decay_factor_per_5min", Json::Num(Num::Real(HEATMAP_DECAY_FACTOR)));
    o.done()
}

/// What there is to tell of the database: when the last sync was, and whether
/// an import was ever complete.
pub open spec fn database_part(last: Option<Seq<char>>, complete: Option<Seq<char>>) -> JsonView {
    JsonView::Obj(
        Map::empty().insert(
            "last_spansh_sync"@,
            JsonView::Num(json::count_num(sync::last_sync(last) as int)),
        ).insert(
            "import_complete"@,
            JsonView::Str(
                match complete {
                    Some(s) => s,
                    None => "false"@,
                },
            ),
        ),
    )
}

fn database_json(last: &Option<String>, complete: &Option<String>) -> (r: Json)
    ensures
        r@ == database_part(sync::text_in(*last), sync::text_in(*complete)),
{
    let mut o = Object::new();
    o.put("last_spansh_sync", counter(last_sync_time(last)));
    match complete {
        Some(s) => {
            o.put("import_complete", string(s.as_str()));
        },
        None => {
            o.put("import_complete", string("false"));
        },
    }
    o.done()
}

/// All there is to tell: the two feeds, the live map and the database.
pub fn stats_json(
    edmc: &EdmcStats,
    eddn: &EddnStats,
    total_bumps: u64,
    last_sync: &Option<String>,
    import_complete: &Option<String>,
) -> (r: Json)
    ensures
        r@ == JsonView::Obj(
            Map::empty().insert("edmc_ingest"@, edmc_part(*edmc)).insert(
                "eddn_ingest"@,
                eddn_part(*eddn),
            ).insert("heatmap"@, heatmap_part(total_bumps)).insert(
                "database"@,
                database_part(sync::text_in(*last_sync), sync::text_in(*import_complete)),
            ),
        ),
{
    let mut o = Object::new();
    o.put("edmc_ingest", edmc_json(edmc));
    o.put("eddn_ingest", eddn_json(eddn));
    o.put("heatmap", heatmap_json(total_bumps));
    o.put("database", database_json(last_sync, import_complete));
    o.done()
}

/// The answer to one system names it and counts its bodies and its stations.
pub proof fn law_one_system_is_told(name: Seq<char>, bodies: int, stations: int)
    ensures
        ({
            let a = journal_answer(name, bodies, stations);
            &&& json::field(a, "status"@) == Some(JsonView::Str("accepted"@))
            &&& json::field(a, "system"@) == Some(JsonView::Str(name))
            &&& json::field(a, "bodies"@) == Some(JsonView::Num(json::count_num(bodies)))
            &&& json::field(a, "stations"@) == Some(JsonView::Num(json::count_num(stations)))
        }),
{
    broadcast use {json::lemma_found_set, json::lemma_found_none};

    reveal_strlit("status");
    reveal_strlit("system");
    reveal_strlit("bodies");
    reveal_strlit("stations");
    assert(json::mark_of("status"@) == (6int, 's', 't', 's'));
    assert(json::mark_of("system"@) == (6int, 's', 't', 'm'));
    assert(json::mark_of("bodies"@) == (6int, 'b', 'i', 's'));
    assert(json::mark_of("stations"@) == (8int, 's', 'i', 's'));
    json::lemma_found(journal_answer(name, bodies, stations));
}

/// The answer to a batch counts the systems, the bodies and the stations.
pub proof fn law_a_batch_is_told(systems: int, bodies: int, stations: int)
    ensures
        ({
            let a = batch_answer(systems, bodies, stations);
            &&& json::field(a, "status"@) == Some(JsonView::Str("accepted"@))
            &&& json::field(a, "systems"@) == Some(JsonView::Num(json::count_num(systems)))
            &&& json::field(a, "bodies"@) == Some(JsonView::Num(json::count_num(bodies)))
            &&& json::field(a, "stations"@) == Some(JsonView::Num(json::count_num(stations)))
        }),
{
    broadcast use {json::lemma_found_set, json::lemma_found_none};

    reveal_strlit("status");
    reveal_strlit("systems");
    reveal_strlit("bodies");
    reveal_strlit("stations");
    assert(json::mark_of("status"@) == (6int, 's', 't', 's'));
    assert(json::mark_of("systems"@) == (7int, 's', 't', 's'));
    assert(json::mark_of("bodies"@) == (6int, 'b', 'i', 's'));
    assert(json::mark_of("stations"@) == (8int, 's', 'i', 's'));
    json::lemma_found(batch_answer(systems, bodies, stations));
}

/// Each counter of the EDMC feed is told under its own name.
pub proof fn law_counters_of_edmc_are_told(s: EdmcStats)
    ensures
        ({
            let a = edmc_part(s);
            &&& json::field(a, "systems_ingested"@)
                == Some(JsonView::Num(json::count_num(s.systems_ingested as int)))
            &&& json::field(a, "bodies_ingested"@)
                == Some(JsonView::Num(json::count_num(s.bodies_ingested as int)))
            &&& json::field(a, "stations_ingested"@)
                == Some(JsonView::Num(json::count_num(s.stations_ingested as int)))
            &&& json::field(a, "last_ingest_time"@)
                == Some(JsonView::Num(json::count_num(s.last_ingest_time as int)))
        }),
{
    broadcast use {json::lemma_found_set, json::lemma_found_none};

    reveal_strlit("systems_ingested");
    reveal_strlit("bodies_ingested");
    reveal_strlit("stations_ingested");
    reveal_strlit("last_ingest_time");
    assert(json::mark_of("systems_ingested"@) == (16int, 's', 'i', 'd'));
    assert(json::mark_of("bodies_ingested"@) == (15int, 'b', 'i', 'd'));
    assert(json::mark_of("stations_ingested"@) == (17int, 's', '_', 'd'));
    assert(json::mark_of("last_ingest_time"@) == (16int, 'l', 'e', 'e'));
    json::lemma_found(edmc_part(s));
}

/// Each counter of the EDDN feed is told under its own name.
pub proof fn law_counters_of_eddn_are_told(s: EddnStats)
    ensures
        ({
            let a = eddn_part(s);
            &&& json::field(a, "connected"@) == Some(JsonView::Bool(s.connected == 1))
            &&& json::field(a, "messages_received"@)
                == Some(JsonView::Num(json::count_num(s.messages_received as int)))
            &&& json::field(a, "messages_processed"@)
                == Some(JsonView::Num(json::count_num(s.messages_processed as int)))
            &&& json::field(a, "messages_dropped"@)
                == Some(JsonView::Num(json::count_num(s.messages_dropped as int)))
            &&& json::field(a, "systems_emitted"@)
                == Some(JsonView::Num(json::count_num(s.systems_emitted as int)))
            &&& json::field(a, "bodies_emitted"@)
                == Some(JsonView::Num(json::count_num(s.bodies_emitted as int)))
            &&& json::field(a, "stations_emitted"@)
                == Some(JsonView::Num(json::count_num(s.stations_emitted as int)))
            &&& json::field(a, "last_message_time"@)
                == Some(JsonView::Num(json::count_num(s.last_message_time as int)))
            &&& json::field(a, "reconnects"@)
                == Some(JsonView::Num(json::count_num(s.reconnects as int)))
        }),
{
    broadcast use {json::lemma_found_set, json::lemma_found_none};

    reveal_strlit("connected");
    reveal_strlit("messages_received");
    reveal_strlit("messages_processed");
    reveal_strlit("messages_dropped");
    reveal_strlit("systems_emitted");
    reveal_strlit("bodies_emitted");
    reveal_strlit("stations_emitted");
    reveal_strlit("last_message_time");
    reveal_strlit("reconnects");
    assert(json::mark_of("connected"@) == (9int, 'c', 'e', 'd'));
    assert(json::mark_of("messages_received"@) == (17int, 'm', '_', 'd'));
    assert(json::mark_of("messages_processed"@) == (18int, 'm', 'p', 'd'));
    assert(json::mark_of("messages_dropped"@) == (16int, 'm', '_', 'd'));
    assert(json::mark_of("systems_emitted"@) == (15int, 's', '_', 'd'));
    assert(json::mark_of("bodies_emitted"@) == (14int, 'b', 'e', 'd'));
    assert(json::mark_of("stations_emitted"@) == (16int, 's', '_', 'd'));
    assert(json::mark_of("last_message_time"@) == (17int, 'l', 's', 'e'));
    assert(json::mark_of("reconnects"@) == (10int, 'r', 'n', 's'));
    json::lemma_found(eddn_part(s));
}

/// What there is to tell of the live map is told under its own names.
pub proof fn law_the_map_is_told(total_bumps: u64)
    ensures
        ({
            let a = heatmap_part(total_bumps);
            &&& json::field(a, "total_bumps"@)
                == Some(JsonView::Num(json::count_num(total_bumps as int)))
            &&& json::field(a, "grid"@) == Some(JsonView::Str( text::numeral(HEATMAP_W as nat)
                + "x"@ + text::numeral(HEATMAP_H as nat), ))
            &&& json::field(a, "bounds_x"@) == Some(pair(HEATMAP_X_MIN, HEATMAP_X_MAX))
            &&& json::field(a, "bounds_z"@) == Some(pair(HEATMAP_Z_MIN, HEATMAP_Z_MAX))
            &&& json::field(a, "decay_factor_per_5min"@)
                == Some(JsonView::Num(Num::Real(HEATMAP_DECAY_FACTOR)))
        }),
{
    broadcast use {json::lemma_found_set, json::lemma_found_none};

    reveal_strlit("total_bumps");
    reveal_strlit("grid");
    reveal_strlit("bounds_x");
    reveal_strlit("bounds_z");
    reveal_strlit("decay_factor_per_5min");
    assert(json::mark_of("total_bumps"@) == (11int, 't', '_', 's'));
    assert(json::mark_of("grid"@) == (4int, 'g', 'i', 'd'));
    assert(json::mark_of("bounds_x"@) == (8int, 'b', 'd', 'x'));
    assert(json::mark_of("bounds_z"@) == (8int, 'b', 'd', 'z'));
    assert(json::mark_of("decay_factor_per_5min"@) == (21int, 'd', 'o', 'n'));
    json::lemma_found(heatmap_part(total_bumps));
}

/// What there is to tell of the database is told under its own names.
pub proof fn law_the_database_is_told(last: Option<Seq<char>>, complete: Option<Seq<char>>)
    ensures
        ({
            let a = database_part(last, complete);
            &&& json::field(a, "last_spansh_sync"@)
                == Some(JsonView::Num(json::count_num(sync::last_sync(last) as int)))
            &&& json::field(a, "import_complete"@)
                == Some(JsonView::Str( match complete { Some(s) => s, None => "false"@, }, ))
        }),
{
    broadcast use {json::lemma_found_set, json::lemma_found_none};

    reveal_strlit("last_spansh_sync");
    reveal_strlit("import_complete");
    assert(json::mark_of("last_spansh_sync"@) == (16int, 'l', 'n', 'c'));
    assert(json::mark_of("import_complete"@) == (15int, 'i', 'c', 'e'));
    json::lemma_found(database_part(last, complete));
}

/// A system counts with as many bodies and stations as it has, and two batches
/// count together what they count apart.
pub proof fn law_totals_add_up(v: Seq<SpanshSystem>, w: Seq<SpanshSystem>, n: int)
    requires
        0 <= n <= w.len(),
    ensures
        forall|s: SpanshSystem| #[trigger]
            bodies_of(s) == (if s@.bodies is Some {
                s@.bodies->0.len() as int
            } else {
                0
            }),
        forall|s: SpanshSystem| #[trigger]
            stations_of(s) == (if s@.stations is Some {
                s@.stations->0.len() as int
            } else {
                0
            }),
        all_bodies(v + w, v.len() + n) == all_bodies(v, v.len() as int) + all_bodies(w, n),
        all_stations(v + w, v.len() + n) == all_stations(v, v.len() as int) + all_stations(w, n),
    decreases n,
{
    if n > 0 {
        law_totals_add_up(v, w, n - 1);
        assert((v + w)[v.len() + n - 1] == w[n - 1]);
    } else {
        lemma_totals_of_first(v, w, v.len() as int);
    }
}

proof fn lemma_totals_of_first(v: Seq<SpanshSystem>, w: Seq<SpanshSystem>, n: int)
    requires
        0 <= n <= v.len(),
    ensures
        all_bodies(v + w, n) == all_bodies(v, n),
        all_stations(v + w, n) == all_stations(v, n),
    decreases n,
{
    if n > 0 {
        lemma_totals_of_first(v, w, n - 1);
        assert((v + w)[n - 1] == v[n - 1]);
    }
}

} // verus!
