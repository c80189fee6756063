//! Answers about one system, its bodies and its stations.

use crate::db;
use crate::db::read_strings;
use crate::json;
use crate::json::{integer, string, Json, JsonView, Num, Object};
use crate::models::SystemQuery;
use crate::sql;
use crate::sql::{DbRow, SqlView};
use crate::text;
use vstd::prelude::*;

verus! {

/// An answer other than success: the HTTP status and the text that goes with
/// it.
pub struct ApiError {
    pub status: u16,
    pub message: String,
}

/// The error with the given status and text.
pub(crate) fn api_error(status: u16, message: &str) -> (r: ApiError)
    ensures
        r.status == status,
        r.message@ == message@,
{
    ApiError { status, message: message.to_owned() }
}

/// How a system is looked up.
pub enum SystemKey {
    Id(i64),
    Name(String),
}

/// How a system is looked up, as mathematics.
pub enum KeyView {
    Id(i64),
    Name(Seq<char>),
}

impl SystemKey {
    pub open spec fn view(&self) -> KeyView {
        match self {
            SystemKey::Id(i) => KeyView::Id(*i),
            SystemKey::Name(s) => KeyView::Name(s@),
        }
    }
}

/// How the system of a question is looked up: by id where one is given, else
/// by name; a question that gives neither is a bad request.
pub fn system_key(q: &SystemQuery) -> (r: Result<SystemKey, ApiError>)
    ensures
        match (q.id64, q.system_name) {
            (Some(id), _) => r matches Ok(k) && k@ == KeyView::Id(id),
            (None, Some(name)) => r matches Ok(k) && k@ == KeyView::Name(name@),
            (None, None) => r matches Err(e) && e.status == 400 && e.message@
                == "Missing systemName or id64"@,
        },
{
    match q.id64 {
        Some(id) => Ok(SystemKey::Id(id)),
        None => match &q.system_name {
            Some(name) => Ok(SystemKey::Name(name.clone())),
            None => Err(api_error(400, "Missing systemName or id64")),
        },
    }
}

/// The system of a question about stations: by its id where that is given, else
/// by its name. A question without either is a bad request.
pub fn station_key(q: &SystemQuery) -> (r: Result<SystemKey, ApiError>)
    ensures
        match (q.id64, q.system_name) {
            (Some(id), _) => r matches Ok(k) && k@ == KeyView::Id(id),
            (None, Some(name)) => r matches Ok(k) && k@ == KeyView::Name(name@),
            (None, None) => r matches Err(e) && e.status == 400 && e.message@
                == "Missing systemName"@,
        },
{
    match system_key(q) {
        Ok(k) => Ok(k),
        Err(_) => Err(api_error(400, "Missing systemName")),
    }
}

/// Where a system lies.
pub open spec fn place(row: &DbRow) -> JsonView {
    match (
        sql::num_in(row.value("minX"@)),
        sql::num_in(row.value("minY"@)),
        sql::num_in(row.value("minZ"@)),
    ) {
        (Some(x), Some(y), Some(z)) => json::point(x, y, z),
        _ => JsonView::Null,
    }
}

fn place_json(row: &DbRow) -> (r: Json)
    requires
        row.wf(),
    ensures
        r@ == place(row),
{
    match (row.num_of("minX"), row.num_of("minY"), row.num_of("minZ")) {
        (Some(x), Some(y), Some(z)) => json::point_json(x, y, z),
        _ => Json::Null,
    }
}

/// Whether a body can be terraformed; where nothing is said, it cannot.
pub open spec fn terraforming(v: Option<SqlView>) -> JsonView {
    JsonView::Str(
        match sql::text_of(v) {
            Some(s) => s,
            None => "Not terraformable"@,
        },
    )
}

fn terraforming_json(row: &DbRow) -> (r: Json)
    requires
        row.wf(),
    ensures
        r@ == terraforming(row.value("terraformingState"@)),
{
    match row.text_in("terraformingState") {
        Some(s) => Json::Str(s),
        None => string("Not terraformable"),
    }
}

/// A list of texts as JSON.
pub open spec fn strings_json(v: Seq<Seq<char>>) -> JsonView {
    JsonView::Arr(v.map_values(|s: Seq<char>| JsonView::Str(s)))
}

/// The services that a text lists; none where it lists none.
pub open spec fn services_listed(list: Option<Seq<Seq<char>>>) -> JsonView {
    match list {
        Some(l) => strings_json(l),
        None => strings_json(Seq::empty()),
    }
}

/// The other services of a station.
pub open spec fn services(v: Option<SqlView>) -> JsonView {
    match sql::text_of(v) {
        Some(s) => services_listed(db::strings_read(s)),
        None => services_listed(None),
    }
}

/// A list of services as JSON.
pub fn list_json(list: &Option<Vec<String>>) -> (r: Json)
    ensures
        r@ == services_listed(db::texts_view(*list)),
{
    let mut out: Vec<Json> = Vec::new();
    match list {
        Some(l) => {
            for i in 0..l.len()
                invariant
                    out.len() == i,
                    forall|j: int| 0 <= j < i ==> (#[trigger] out@[j])@ == JsonView::Str(l@[j]@),
            {
                out.push(Json::Str(l[i].clone()));
            }
        },
        None => {},
    }
    proof {
        json::lemma_views(out@);
        let expected = services_listed(db::texts_view(*list));
        assert(expected matches JsonView::Arr(a) && json::views(out@) =~= a);
    }
    Json::Arr(out)
}

/// The other services of a station.
pub(crate) fn services_json(row: &DbRow) -> (r: Json)
    requires
        row.wf(),
    ensures
        r@ == services(row.value("otherServices"@)),
{
    match row.text_in("otherServices") {
        Some(s) => list_json(&read_strings(s.as_str())),
        None => list_json(&None),
    }
}

/// A system can be read: its columns hold values of their kinds.
pub open spec fn system_is_readable(row: &DbRow) -> bool {
    &&& sql::int_in(row.value("id64"@)) is Some
    &&& sql::text_of(row.value("name"@)) is Some
    &&& sql::int_in(row.value("population"@)) is Some
    &&& sql::num_in(row.value("minX"@)) is Some
    &&& sql::num_in(row.value("minY"@)) is Some
    &&& sql::num_in(row.value("minZ"@)) is Some
}

fn system_readable(row: &DbRow) -> (r: bool)
    requires
        row.wf(),
    ensures
        r == system_is_readable(row),
{
    row.int_of("id64").is_some()
        && row.text_in("name").is_some()
        && row.int_of("population").is_some()
        && row.num_of("minX").is_some()
        && row.num_of("minY").is_some()
        && row.num_of("minZ").is_some()
}

/// Some members of the answer.
pub open spec fn system_part_a(m: Map<Seq<char>, JsonView>, row: &DbRow) -> Map<Seq<char>, JsonView> {
    m.insert("id64"@, sql::int_json(row.value("id64"@))).insert("name"@, sql::text_json(row.value("name"@))).insert("population"@, sql::int_json(row.value("population"@))).insert("coords"@, place(row)).insert("allegiance"@, sql::text_json(row.value("allegiance"@))).insert("government"@, sql::text_json(row.value("government"@))).insert("primaryEconomy"@, sql::text_json(row.value("primaryEconomy"@))).insert("secondaryEconomy"@, sql::text_json(row.value("secondaryEconomy"@))).insert("security"@, sql::text_json(row.value("security"@))).insert("bodyCount"@, sql::int_json(row.value("bodyCount"@)))
}

fn put_system_part_a(o: &mut Object, row: &DbRow)
    requires
        row.wf(),
    ensures
        final(o)@ == system_part_a(old(o)@, row),
{
    o.put("id64", row.int_json("id64"));
    o.put("name", row.text_json("name"));
    o.put("population", row.int_json("population"));
    o.put("coords", place_json(row));
    o.put("allegiance", row.text_json("allegiance"));
    o.put("government", row.text_json("government"));
    o.put("primaryEconomy", row.text_json("primaryEconomy"));
    o.put("secondaryEconomy", row.text_json("secondaryEconomy"));
    o.put("security", row.text_json("security"));
    o.put("bodyCount", row.int_json("bodyCount"));
}

/// Some members of the answer.
pub open spec fn system_part_b(m: Map<Seq<char>, JsonView>, row: &DbRow) -> Map<Seq<char>, JsonView> {
    m.insert("date"@, sql::text_json(row.value("date"@))).insert("controllingFaction"@, sql::held_json(row.value("controllingFaction"@))).insert("factions"@, sql::held_json(row.value("factions"@))).insert("powerState"@, sql::text_json(row.value("powerState"@))).insert("powers"@, sql::held_json(row.value("powers"@))).insert("controllingPower"@, sql::text_json(row.value("controllingPower"@))).insert("powerStateControlProgress"@, sql::num_json(row.value("powerStateControlProgress"@))).insert("powerStateReinforcement"@, sql::num_json(row.value("powerStateReinforcement"@))).insert("powerStateUndermining"@, sql::num_json(row.value("powerStateUndermining"@))).insert("powerConflictProgress"@, sql::held_json(row.value("powerConflictProgress"@)))
}

fn put_system_part_b(o: &mut Object, row: &DbRow)
    requires
        row.wf(),
    ensures
        final(o)@ == system_part_b(old(o)@, row),
{
    o.put("date", row.text_json("date"));
    o.put("controllingFaction", row.held_json("controllingFaction"));
    o.put("factions", row.held_json("factions"));
    o.put("powerState", row.text_json("powerState"));
    o.put("powers", row.held_json("powers"));
    o.put("controllingPower", row.text_json("controllingPower"));
    o.put("powerStateControlProgress", row.num_json("powerStateControlProgress"));
    o.put("powerStateReinforcement", row.num_json("powerStateReinforcement"));
    o.put("powerStateUndermining", row.num_json("powerStateUndermining"));
    o.put("powerConflictProgress", row.held_json("powerConflictProgress"));
}

/// Some members of the answer.
pub open spec fn system_part_c(m: Map<Seq<char>, JsonView>, row: &DbRow) -> Map<Seq<char>, JsonView> {
    m.insert("thargoidWar"@, sql::held_json(row.value("thargoidWar"@)))
}

fn put_system_part_c(o: &mut Object, row: &DbRow)
    requires
        row.wf(),
    ensures
        final(o)@ == system_part_c(old(o)@, row),
{
    o.put("thargoidWar", row.held_json("thargoidWar"));
}

/// A system as JSON.
pub open spec fn system_answer(row: &DbRow) -> JsonView {
    let m = Map::empty();
    let m = system_part_a(m, row);
    let m = system_part_b(m, row);
    let m = system_part_c(m, row);
    JsonView::Obj(m)
}

/// A system as JSON; `None` where it cannot be read.
pub fn system_json(row: &DbRow) -> (r: Option<Json>)
    requires
        row.wf(),
    ensures
        json::json_view(r) == if system_is_readable(row) {
            Some(system_answer(row))
        } else {
            None
        },
{
    if !system_readable(row) {
        return None;
    }
    let mut o = Object::new();
    put_system_part_a(&mut o, row);
    put_system_part_b(&mut o, row);
    put_system_part_c(&mut o, row);
    Some(o.done())
}

/// Some members of the answer.
pub open spec fn body_part_a(m: Map<Seq<char>, JsonView>, row: &DbRow) -> Map<Seq<char>, JsonView> {
    m.insert("name"@, sql::text_json(row.value("name"@))).insert("type"@, sql::text_json(row.value("type"@))).insert("subType"@, sql::text_json(row.value("subType"@))).insert("distanceToArrival"@, sql::num_json(row.value("distanceToArrival"@))).insert("isLandable"@, JsonView::Bool(sql::is_one(row.value("isLandable"@)))).insert("gravity"@, sql::num_json(row.value("gravity"@))).insert("earthMasses"@, sql::num_json(row.value("earthMasses"@))).insert("radius"@, sql::num_json(row.value("radius"@))).insert("surfaceTemperature"@, sql::int_json(row.value("surfaceTemperature"@))).insert("volcanismType"@, sql::text_json(row.value("volcanismType"@)))
}

fn put_body_part_a(o: &mut Object, row: &DbRow)
    requires
        row.wf(),
    ensures
        final(o)@ == body_part_a(old(o)@, row),
{
    o.put("name", row.text_json("name"));
    o.put("type", row.text_json("type"));
    o.put("subType", row.text_json("subType"));
    o.put("distanceToArrival", row.num_json("distanceToArrival"));
    o.put("isLandable", Json::Bool(row.is_one("isLandable")));
    o.put("gravity", row.num_json("gravity"));
    o.put("earthMasses", row.num_json("earthMasses"));
    o.put("radius", row.num_json("radius"));
    o.put("surfaceTemperature", row.int_json("surfaceTemperature"));
    o.put("volcanismType", row.text_json("volcanismType"));
}

/// Some members of the answer.
pub open spec fn body_part_b(m: Map<Seq<char>, JsonView>, row: &DbRow) -> Map<Seq<char>, JsonView> {
    m.insert("atmosphereType"@, sql::text_json(row.value("atmosphereType"@))).insert("terraformingState"@, terraforming(row.value("terraformingState"@))).insert("orbitalPeriod"@, sql::num_json(row.value("orbitalPeriod"@))).insert("semiMajorAxis"@, sql::num_json(row.value("semiMajorAxis"@))).insert("orbitalEccentricity"@, sql::num_json(row.value("orbitalEccentricity"@))).insert("orbitalInclination"@, sql::num_json(row.value("orbitalInclination"@))).insert("argOfPeriapsis"@, sql::num_json(row.value("argOfPeriapsis"@))).insert("rotationalPeriod"@, sql::num_json(row.value("rotationalPeriod"@))).insert("rotationalPeriodTidallyLocked"@, JsonView::Bool(sql::is_one(row.value("isTidallyLocked"@)))).insert("axialTilt"@, sql::num_json(row.value("axisTilt"@)))
}

fn put_body_part_b(o: &mut Object, row: &DbRow)
    requires
        row.wf(),
    ensures
        final(o)@ == body_part_b(old(o)@, row),
{
    o.put("atmosphereType", row.text_json("atmosphereType"));
    o.put("terraformingState", terraforming_json(row));
    o.put("orbitalPeriod", row.num_json("orbitalPeriod"));
    o.put("semiMajorAxis", row.num_json("semiMajorAxis"));
    o.put("orbitalEccentricity", row.num_json("orbitalEccentricity"));
    o.put("orbitalInclination", row.num_json("orbitalInclination"));
    o.put("argOfPeriapsis", row.num_json("argOfPeriapsis"));
    o.put("rotationalPeriod", row.num_json("rotationalPeriod"));
    o.put("rotationalPeriodTidallyLocked", Json::Bool(row.is_one("isTidallyLocked")));
    o.put("axialTilt", row.num_json("axisTilt"));
}

/// Some members of the answer.
pub open spec fn body_part_c(m: Map<Seq<char>, JsonView>, row: &DbRow) -> Map<Seq<char>, JsonView> {
    m.insert("solarMasses"@, sql::num_json(row.value("stellarMass"@))).insert("absoluteMagnitude"@, sql::num_json(row.value("absoluteMagnitude"@))).insert("age"@, sql::int_json(row.value("age"@))).insert("luminosity"@, sql::text_json(row.value("luminosity"@))).insert("subclass"@, sql::int_json(row.value("subclass"@))).insert("surfacePressure"@, sql::num_json(row.value("surfacePressure"@))).insert("atmosphereComposition"@, sql::held_json(row.value("atmosphereComposition"@))).insert("solidComposition"@, sql::held_json(row.value("composition"@))).insert("rings"@, sql::held_json(row.value("rings"@))).insert("parents"@, sql::held_json(row.value("parents"@)))
}

fn put_body_part_c(o: &mut Object, row: &DbRow)
    requires
        row.wf(),
    ensures
        final(o)@ == body_part_c(old(o)@, row),
{
    o.put("solarMasses", row.num_json("stellarMass"));
    o.put("absoluteMagnitude", row.num_json("absoluteMagnitude"));
    o.put("age", row.int_json("age"));
    o.put("luminosity", row.text_json("luminosity"));
    o.put("subclass", row.int_json("subclass"));
    o.put("surfacePressure", row.num_json("surfacePressure"));
    o.put("atmosphereComposition", row.held_json("atmosphereComposition"));
    o.put("solidComposition", row.held_json("composition"));
    o.put("rings", row.held_json("rings"));
    o.put("parents", row.held_json("parents"));
}

/// Some members of the answer.
pub open spec fn body_part_d(m: Map<Seq<char>, JsonView>, row: &DbRow) -> Map<Seq<char>, JsonView> {
    m.insert("wasDiscovered"@, sql::truth_json(row.value("wasDiscovered"@))).insert("wasMapped"@, sql::truth_json(row.value("wasMapped"@))).insert("ascendingNode"@, sql::num_json(row.value("ascendingNode"@))).insert("meanAnomaly"@, sql::num_json(row.value("meanAnomaly"@))).insert("signals"@, sql::held_json(row.value("signals"@))).insert("id64"@, sql::int_json(row.value("bodyId64"@))).insert("bodyId"@, sql::int_json(row.value("bodyId"@))).insert("mainStar"@, sql::truth_json(row.value("mainStar"@))).insert("spectralClass"@, sql::text_json(row.value("spectralClass"@))).insert("solarRadius"@, sql::num_json(row.value("solarRadius"@)))
}

fn put_body_part_d(o: &mut Object, row: &DbRow)
    requires
        row.wf(),
    ensures
        final(o)@ == body_part_d(old(o)@, row),
{
    o.put("wasDiscovered", row.truth_json("wasDiscovered"));
    o.put("wasMapped", row.truth_json("wasMapped"));
    o.put("ascendingNode", row.num_json("ascendingNode"));
    o.put("meanAnomaly", row.num_json("meanAnomaly"));
    o.put("signals", row.held_json("signals"));
    o.put("id64", row.int_json("bodyId64"));
    o.put("bodyId", row.int_json("bodyId"));
    o.put("mainStar", row.truth_json("mainStar"));
    o.put("spectralClass", row.text_json("spectralClass"));
    o.put("solarRadius", row.num_json("solarRadius"));
}

/// Some members of the answer.
pub open spec fn body_part_e(m: Map<Seq<char>, JsonView>, row: &DbRow) -> Map<Seq<char>, JsonView> {
    m.insert("materials"@, sql::held_json(row.value("materials"@))).insert("reserveLevel"@, sql::text_json(row.value("reserveLevel"@))).insert("belts"@, sql::held_json(row.value("belts"@))).insert("updateTime"@, sql::text_json(row.value("updateTime"@)))
}

fn put_body_part_e(o: &mut Object, row: &DbRow)
    requires
        row.wf(),
    ensures
        final(o)@ == body_part_e(old(o)@, row),
{
    o.put("materials", row.held_json("materials"));
    o.put("reserveLevel", row.text_json("reserveLevel"));
    o.put("belts", row.held_json("belts"));
    o.put("updateTime", row.text_json("updateTime"));
}

/// A body as JSON.
pub open spec fn body_answer(row: &DbRow) -> JsonView {
    let m = Map::empty();
    let m = body_part_a(m, row);
    let m = body_part_b(m, row);
    let m = body_part_c(m, row);
    let m = body_part_d(m, row);
    let m = body_part_e(m, row);
    JsonView::Obj(m)
}

/// A body as JSON.
pub fn body_json(row: &DbRow) -> (r: Json)
    requires
        row.wf(),
    ensures
        r@ == body_answer(row),
{
    let mut o = Object::new();
    put_body_part_a(&mut o, row);
    put_body_part_b(&mut o, row);
    put_body_part_c(&mut o, row);
    put_body_part_d(&mut o, row);
    put_body_part_e(&mut o, row);
    o.done()
}

/// Some members of the answer.
pub open spec fn station_part_a(m: Map<Seq<char>, JsonView>, row: &DbRow) -> Map<Seq<char>, JsonView> {
    m.insert("id"@, sql::int_json(row.value("id"@))).insert("marketId"@, sql::int_json(row.value("marketId"@))).insert("type"@, sql::text_json(row.value("type"@))).insert("name"@, sql::text_json(row.value("name"@))).insert("distanceToArrival"@, sql::num_json(row.value("distanceToArrival"@))).insert("allegiance"@, sql::text_json(row.value("allegiance"@))).insert("government"@, sql::text_json(row.value("government"@))).insert("primaryEconomy"@, sql::text_json(row.value("economy"@))).insert("secondaryEconomy"@, sql::text_json(row.value("secondEconomy"@))).insert("haveMarket"@, JsonView::Bool(sql::is_one(row.value("haveMarket"@))))
}

fn put_station_part_a(o: &mut Object, row: &DbRow)
    requires
        row.wf(),
    ensures
        final(o)@ == station_part_a(old(o)@, row),
{
    o.put("id", row.int_json("id"));
    o.put("marketId", row.int_json("marketId"));
    o.put("type", row.text_json("type"));
    o.put("name", row.text_json("name"));
    o.put("distanceToArrival", row.num_json("distanceToArrival"));
    o.put("allegiance", row.text_json("allegiance"));
    o.put("government", row.text_json("government"));
    o.put("primaryEconomy", row.text_json("economy"));
    o.put("secondaryEconomy", row.text_json("secondEconomy"));
    o.put("haveMarket", Json::Bool(row.is_one("haveMarket")));
}

/// Some members of the answer.
pub open spec fn station_part_b(m: Map<Seq<char>, JsonView>, row: &DbRow) -> Map<Seq<char>, JsonView> {
    m.insert("haveShipyard"@, JsonView::Bool(sql::is_one(row.value("haveShipyard"@)))).insert("haveOutfitting"@, JsonView::Bool(sql::is_one(row.value("haveOutfitting"@)))).insert("services"@, services(row.value("otherServices"@))).insert("updateTime"@, sql::text_json(row.value("updateTime"@))).insert("realName"@, sql::text_json(row.value("realName"@))).insert("carrierName"@, sql::text_json(row.value("carrierName"@))).insert("controllingFaction"@, sql::text_json(row.value("controllingFaction"@))).insert("controllingFactionState"@, sql::text_json(row.value("controllingFactionState"@))).insert("state"@, sql::text_json(row.value("state"@))).insert("latitude"@, sql::num_json(row.value("latitude"@)))
}

fn put_station_part_b(o: &mut Object, row: &DbRow)
    requires
        row.wf(),
    ensures
        final(o)@ == station_part_b(old(o)@, row),
{
    o.put("haveShipyard", Json::Bool(row.is_one("haveShipyard")));
    o.put("haveOutfitting", Json::Bool(row.is_one("haveOutfitting")));
    o.put("services", services_json(row));
    o.put("updateTime", row.text_json("updateTime"));
    o.put("realName", row.text_json("realName"));
    o.put("carrierName", row.text_json("carrierName"));
    o.put("controllingFaction", row.text_json("controllingFaction"));
    o.put("controllingFactionState", row.text_json("controllingFactionState"));
    o.put("state", row.text_json("state"));
    o.put("latitude", row.num_json("latitude"));
}

/// Some members of the answer.
pub open spec fn station_part_c(m: Map<Seq<char>, JsonView>, row: &DbRow) -> Map<Seq<char>, JsonView> {
    m.insert("longitude"@, sql::num_json(row.value("longitude"@))).insert("landingPads"@, sql::held_json(row.value("landingPads"@))).insert("carrierDockingAccess"@, sql::text_json(row.value("carrierDockingAccess"@))).insert("economies"@, sql::held_json(row.value("economies"@))).insert("market"@, sql::held_json(row.value("market"@))).insert("shipyard"@, sql::held_json(row.value("shipyard"@))).insert("outfitting"@, sql::held_json(row.value("outfitting"@)))
}

fn put_station_part_c(o: &mut Object, row: &DbRow)
    requires
        row.wf(),
    ensures
        final(o)@ == station_part_c(old(o)@, row),
{
    o.put("longitude", row.num_json("longitude"));
    o.put("landingPads", row.held_json("landingPads"));
    o.put("carrierDockingAccess", row.text_json("carrierDockingAccess"));
    o.put("economies", row.held_json("economies"));
    o.put("market", row.held_json("market"));
    o.put("shipyard", row.held_json("shipyard"));
    o.put("outfitting", row.held_json("outfitting"));
}

/// A station as JSON.
pub open spec fn station_answer(row: &DbRow) -> JsonView {
    let m = Map::empty();
    let m = station_part_a(m, row);
    let m = station_part_b(m, row);
    let m = station_part_c(m, row);
    JsonView::Obj(m)
}

/// A station as JSON.
pub fn station_json(row: &DbRow) -> (r: Json)
    requires
        row.wf(),
    ensures
        r@ == station_answer(row),
{
    let mut o = Object::new();
    put_station_part_a(&mut o, row);
    put_station_part_b(&mut o, row);
    put_station_part_c(&mut o, row);
    o.done()
}

/// The answer to a question about a system: it, or that it was not found.
pub fn system_found(row: &Option<DbRow>) -> (r: Result<Json, ApiError>)
    requires
        row matches Some(d) ==> d.wf(),
    ensures
        match row {
            Some(d) => if system_is_readable(d) {
                r matches Ok(j) && j@ == system_answer(d)
            } else {
                r matches Err(e) && e.status == 404 && e.message@ == "System not found"@
            },
            None => r matches Err(e) && e.status == 404 && e.message@ == "System not found"@,
        },
{
    match row {
        Some(d) => match system_json(d) {
            Some(j) => Ok(j),
            None => Err(api_error(404, "System not found")),
        },
        None => Err(api_error(404, "System not found")),
    }
}

/// The bodies of the rows, one for each.
pub open spec fn body_list(rows: Seq<DbRow>) -> Seq<JsonView> {
    rows.map_values(|row: DbRow| body_answer(&row))
}

/// The stations of the rows, one for each.
pub open spec fn station_list(rows: Seq<DbRow>) -> Seq<JsonView> {
    rows.map_values(|row: DbRow| station_answer(&row))
}

/// A list of parts of a system, under the id and the name of the system.
pub open spec fn parts_answer(id64: i64, name: Seq<char>, key: Seq<char>, parts: Seq<JsonView>) -> JsonView {
    JsonView::Obj(
        Map::empty().insert("id64"@, JsonView::Num(Num::Int(id64))).insert(
            "name"@,
            JsonView::Str(name),
        ).insert(key, JsonView::Arr(parts)),
    )
}

/// An empty list under a name.
pub open spec fn no_parts(key: Seq<char>) -> JsonView {
    JsonView::Obj(Map::empty().insert(key, JsonView::Arr(Seq::empty())))
}

fn parts_json(id64: i64, name: &str, key: &str, parts: Vec<Json>) -> (r: Json)
    ensures
        r@ == parts_answer(id64, name@, key@, json::views(parts@)),
{
    let mut o = Object::new();
    o.put("id64", integer(id64));
    o.put("name", string(name));
    o.put(key, Json::Arr(parts));
    o.done()
}

fn no_parts_json(key: &str) -> (r: Json)
    ensures
        r@ == no_parts(key@),
{
    let empty: Vec<Json> = Vec::new();
    proof {
        json::lemma_views(empty@);
        assert(json::views(empty@) =~= Seq::<JsonView>::empty());
    }
    let mut o = Object::new();
    o.put(key, Json::Arr(empty));
    o.done()
}

/// The answer to a question about the bodies of a system: all of them. A system
/// that is not known has none.
pub fn bodies_answer(system: &Option<(i64, String)>, rows: &Vec<DbRow>) -> (r: Json)
    requires
        forall|i: int| 0 <= i < rows.len() ==> (#[trigger] rows@[i]).wf(),
    ensures
        r@ == match system {
            Some(s) => parts_answer(
                s.0,
                s.1@,
                "bodies"@,
                body_list(rows@),
            ),
            None => no_parts("bodies"@),
        },
{
    let sys = match system {
        Some(s) => s,
        None => {
            return no_parts_json("bodies");
        },
    };
    let mut parts: Vec<Json> = Vec::new();
    for i in 0..rows.len()
        invariant
            forall|i: int| 0 <= i < rows.len() ==> (#[trigger] rows@[i]).wf(),
            parts.len() == i,
            forall|j: int| 0 <= j < i ==> (#[trigger] parts@[j])@ == body_answer(&rows@[j]),
    {
        parts.push(body_json(&rows[i]));
    }
    proof {
        json::lemma_views(parts@);
        assert(json::views(parts@) =~= body_list(rows@));
    }
    parts_json(sys.0, sys.1.as_str(), "bodies", parts)
}

/// The answer to a question about the stations of a system: all of them. A
/// system that is not known has none.
pub fn stations_answer(system: &Option<(i64, String)>, rows: &Vec<DbRow>) -> (r: Json)
    requires
        forall|i: int| 0 <= i < rows.len() ==> (#[trigger] rows@[i]).wf(),
    ensures
        r@ == match system {
            Some(s) => parts_answer(
                s.0,
                s.1@,
                "stations"@,
                station_list(rows@),
            ),
            None => no_parts("stations"@),
        },
{
    let sys = match system {
        Some(s) => s,
        None => {
            return no_parts_json("stations");
        },
    };
    let mut parts: Vec<Json> = Vec::new();
    for i in 0..rows.len()
        invariant
            forall|i: int| 0 <= i < rows.len() ==> (#[trigger] rows@[i]).wf(),
            parts.len() == i,
            forall|j: int| 0 <= j < i ==> (#[trigger] parts@[j])@ == station_answer(&rows@[j]),
    {
        parts.push(station_json(&rows[i]));
    }
    proof {
        json::lemma_views(parts@);
        assert(json::views(parts@) =~= station_list(rows@));
    }
    parts_json(sys.0, sys.1.as_str(), "stations", parts)
}

proof fn lemma_system_answer_names()
    ensures
        json::mark_of("id64"@) == (4int, 'i', '6', '4'),
        json::mark_of("name"@) == (4int, 'n', 'm', 'e'),
        json::mark_of("population"@) == (10int, 'p', 'a', 'n'),
        json::mark_of("coords"@) == (6int, 'c', 'r', 's'),
        json::mark_of("allegiance"@) == (10int, 'a', 'i', 'e'),
        json::mark_of("government"@) == (10int, 'g', 'n', 't'),
        json::mark_of("primaryEconomy"@) == (14int, 'p', 'E', 'y'),
        json::mark_of("secondaryEconomy"@) == (16int, 's', 'y', 'y'),
        json::mark_of("security"@) == (8int, 's', 'r', 'y'),
        json::mark_of("bodyCount"@) == (9int, 'b', 'C', 't'),
        json::mark_of("date"@) == (4int, 'd', 't', 'e'),
        json::mark_of("controllingFaction"@) == (18int, 'c', 'n', 'n'),
        json::mark_of("factions"@) == (8int, 'f', 'i', 's'),
        json::mark_of("powerState"@) == (10int, 'p', 'S', 'e'),
        json::mark_of("powers"@) == (6int, 'p', 'e', 's'),
        json::mark_of("controllingPower"@) == (16int, 'c', 'i', 'r'),
        json::mark_of("powerStateControlProgress"@) == (25int, 'p', 'n', 's'),
        json::mark_of("powerStateReinforcement"@) == (23int, 'p', 'e', 't'),
        json::mark_of("powerStateUndermining"@) == (21int, 'p', 'U', 'g'),
        json::mark_of("powerConflictProgress"@) == (21int, 'p', 'i', 's'),
        json::mark_of("thargoidWar"@) == (11int, 't', 'o', 'r'),
{
    reveal_strlit("id64");
    reveal_strlit("name");
    reveal_strlit("population");
    reveal_strlit("coords");
    reveal_strlit("allegiance");
    reveal_strlit("government");
    reveal_strlit("primaryEconomy");
    reveal_strlit("secondaryEconomy");
    reveal_strlit("security");
    reveal_strlit("bodyCount");
    reveal_strlit("date");
    reveal_strlit("controllingFaction");
    reveal_strlit("factions");
    reveal_strlit("powerState");
    reveal_strlit("powers");
    reveal_strlit("controllingPower");
    reveal_strlit("powerStateControlProgress");
    reveal_strlit("powerStateReinforcement");
    reveal_strlit("powerStateUndermining");
    reveal_strlit("powerConflictProgress");
    reveal_strlit("thargoidWar");
}

proof fn lemma_system_part_a(m: Map<Seq<char>, JsonView>, row: &DbRow)
    ensures
        json::found(system_part_a(m, row), "id64"@) == Some(sql::int_json(row.value("id64"@))),
        json::found(system_part_a(m, row), "name"@) == Some(sql::text_json(row.value("name"@))),
        json::found(system_part_a(m, row), "population"@)
            == Some(sql::int_json(row.value("population"@))),
        json::found(system_part_a(m, row), "coords"@) == Some(place(row)),
        json::found(system_part_a(m, row), "allegiance"@)
            == Some(sql::text_json(row.value("allegiance"@))),
        json::found(system_part_a(m, row), "government"@)
            == Some(sql::text_json(row.value("government"@))),
        json::found(system_part_a(m, row), "primaryEconomy"@)
            == Some(sql::text_json(row.value("primaryEconomy"@))),
        json::found(system_part_a(m, row), "secondaryEconomy"@)
            == Some(sql::text_json(row.value("secondaryEconomy"@))),
        json::found(system_part_a(m, row), "security"@)
            == Some(sql::text_json(row.value("security"@))),
        json::found(system_part_a(m, row), "bodyCount"@)
            == Some(sql::int_json(row.value("bodyCount"@))),
        forall|other: Seq<char>|
            other != "id64"@ && other != "name"@ && other != "population"@ && other != "coords"@
                && other != "allegiance"@ && other != "government"@ && other != "primaryEconomy"@
                && other != "secondaryEconomy"@ && other != "security"@ && other != "bodyCount"@
                ==> #[trigger] json::found(system_part_a(m, row), other) == json::found(m, other),
{
    broadcast use {json::lemma_found_set, json::lemma_found_none};

    lemma_system_answer_names();
}

proof fn lemma_system_part_b(m: Map<Seq<char>, JsonView>, row: &DbRow)
    ensures
        json::found(system_part_b(m, row), "date"@) == Some(sql::text_json(row.value("date"@))),
        json::found(system_part_b(m, row), "controllingFaction"@)
            == Some(sql::held_json(row.value("controllingFaction"@))),
        json::found(system_part_b(m, row), "factions"@)
            == Some(sql::held_json(row.value("factions"@))),
        json::found(system_part_b(m, row), "powerState"@)
            == Some(sql::text_json(row.value("powerState"@))),
        json::found(system_part_b(m, row), "powers"@) == Some(sql::held_json(row.value("powers"@))),
        json::found(system_part_b(m, row), "controllingPower"@)
            == Some(sql::text_json(row.value("controllingPower"@))),
        json::found(system_part_b(m, row), "powerStateControlProgress"@)
            == Some(sql::num_json(row.value("powerStateControlProgress"@))),
        json::found(system_part_b(m, row), "powerStateReinforcement"@)
            == Some(sql::num_json(row.value("powerStateReinforcement"@))),
        json::found(system_part_b(m, row), "powerStateUndermining"@)
            == Some(sql::num_json(row.value("powerStateUndermining"@))),
        json::found(system_part_b(m, row), "powerConflictProgress"@)
            == Some(sql::held_json(row.value("powerConflictProgress"@))),
        forall|other: Seq<char>|
            other != "date"@ && other != "controllingFaction"@ && other != "factions"@
                && other != "powerState"@ && other != "powers"@ && other != "controllingPower"@
                && other != "powerStateControlProgress"@ && other != "powerStateReinforcement"@
                && other != "powerStateUndermining"@ && other != "powerConflictProgress"@
                ==> #[trigger] json::found(system_part_b(m, row), other) == json::found(m, other),
{
    broadcast use {json::lemma_found_set, json::lemma_found_none};

    lemma_system_answer_names();
}

proof fn lemma_system_part_c(m: Map<Seq<char>, JsonView>, row: &DbRow)
    ensures
        json::found(system_part_c(m, row), "thargoidWar"@)
            == Some(sql::held_json(row.value("thargoidWar"@))),
        forall|other: Seq<char>|
            other != "thargoidWar"@ ==> #[trigger] json::found(system_part_c(m, row), other)
                == json::found(m, other),
{
    broadcast use {json::lemma_found_set, json::lemma_found_none};

    lemma_system_answer_names();
}

/// A system is told under the names of its columns: each member holds what its
/// own column holds.
pub proof fn law_systems_are_told_by_column(row: &DbRow)
    ensures
        ({
            let a = system_answer(row);
            &&& json::field(a, "id64"@) == Some(sql::int_json(row.value("id64"@)))
            &&& json::field(a, "name"@) == Some(sql::text_json(row.value("name"@)))
            &&& json::field(a, "population"@) == Some(sql::int_json(row.value("population"@)))
            &&& json::field(a, "coords"@) == Some(place(row))
            &&& json::field(a, "allegiance"@) == Some(sql::text_json(row.value("allegiance"@)))
            &&& json::field(a, "government"@) == Some(sql::text_json(row.value("government"@)))
            &&& json::field(a, "primaryEconomy"@)
                == Some(sql::text_json(row.value("primaryEconomy"@)))
            &&& json::field(a, "secondaryEconomy"@)
                == Some(sql::text_json(row.value("secondaryEconomy"@)))
            &&& json::field(a, "security"@) == Some(sql::text_json(row.value("security"@)))
            &&& json::field(a, "bodyCount"@) == Some(sql::int_json(row.value("bodyCount"@)))
            &&& json::field(a, "date"@) == Some(sql::text_json(row.value("date"@)))
            &&& json::field(a, "controllingFaction"@)
                == Some(sql::held_json(row.value("controllingFaction"@)))
            &&& json::field(a, "factions"@) == Some(sql::held_json(row.value("factions"@)))
            &&& json::field(a, "powerState"@) == Some(sql::text_json(row.value("powerState"@)))
            &&& json::field(a, "powers"@) == Some(sql::held_json(row.value("powers"@)))
            &&& json::field(a, "controllingPower"@)
                == Some(sql::text_json(row.value("controllingPower"@)))
            &&& json::field(a, "powerStateControlProgress"@)
                == Some(sql::num_json(row.value("powerStateControlProgress"@)))
            &&& json::field(a, "powerStateReinforcement"@)
                == Some(sql::num_json(row.value("powerStateReinforcement"@)))
            &&& json::field(a, "powerStateUndermining"@)
                == Some(sql::num_json(row.value("powerStateUndermining"@)))
            &&& json::field(a, "powerConflictProgress"@)
                == Some(sql::held_json(row.value("powerConflictProgress"@)))
            &&& json::field(a, "thargoidWar"@) == Some(sql::held_json(row.value("thargoidWar"@)))
        }),
{
    lemma_system_answer_names();
    json::lemma_found(system_answer(row));
    let m0 = Map::<Seq<char>, JsonView>::empty();
    lemma_system_part_a(m0, row);
    let m1 = system_part_a(m0, row);
    lemma_system_part_b(m1, row);
    let m2 = system_part_b(m1, row);
    lemma_system_part_c(m2, row);
}

proof fn lemma_body_answer_names()
    ensures
        json::mark_of("name"@) == (4int, 'n', 'm', 'e'),
        json::mark_of("type"@) == (4int, 't', 'p', 'e'),
        json::mark_of("subType"@) == (7int, 's', 'T', 'e'),
        json::mark_of("distanceToArrival"@) == (17int, 'd', 'T', 'l'),
        json::mark_of("isLandable"@) == (10int, 'i', 'd', 'e'),
        json::mark_of("gravity"@) == (7int, 'g', 'v', 'y'),
        json::mark_of("earthMasses"@) == (11int, 'e', 'M', 's'),
        json::mark_of("radius"@) == (6int, 'r', 'i', 's'),
        json::mark_of("surfaceTemperature"@) == (18int, 's', 'm', 'e'),
        json::mark_of("volcanismType"@) == (13int, 'v', 'i', 'e'),
        json::mark_of("atmosphereType"@) == (14int, 'a', 'e', 'e'),
        json::mark_of("terraformingState"@) == (17int, 't', 'm', 'e'),
        json::mark_of("orbitalPeriod"@) == (13int, 'o', 'l', 'd'),
        json::mark_of("semiMajorAxis"@) == (13int, 's', 'j', 's'),
        json::mark_of("orbitalEccentricity"@) == (19int, 'o', 'c', 'y'),
        json::mark_of("orbitalInclination"@) == (18int, 'o', 'c', 'n'),
        json::mark_of("argOfPeriapsis"@) == (14int, 'a', 'r', 's'),
        json::mark_of("rotationalPeriod"@) == (16int, 'r', 'a', 'd'),
        json::mark_of("rotationalPeriodTidallyLocked"@) == (29int, 'r', 'o', 'd'),
        json::mark_of("axialTilt"@) == (9int, 'a', 'l', 't'),
        json::mark_of("solarMasses"@) == (11int, 's', 'M', 's'),
        json::mark_of("absoluteMagnitude"@) == (17int, 'a', 'M', 'e'),
        json::mark_of("age"@) == (3int, 'a', 'g', 'e'),
        json::mark_of("luminosity"@) == (10int, 'l', 'o', 'y'),
        json::mark_of("subclass"@) == (8int, 's', 'l', 's'),
        json::mark_of("surfacePressure"@) == (15int, 's', 'P', 'e'),
        json::mark_of("atmosphereComposition"@) == (21int, 'a', 'C', 'n'),
        json::mark_of("solidComposition"@) == (16int, 's', 'p', 'n'),
        json::mark_of("rings"@) == (5int, 'r', 'n', 's'),
        json::mark_of("parents"@) == (7int, 'p', 'e', 's'),
        json::mark_of("wasDiscovered"@) == (13int, 'w', 'c', 'd'),
        json::mark_of("wasMapped"@) == (9int, 'w', 'a', 'd'),
        json::mark_of("ascendingNode"@) == (13int, 'a', 'i', 'e'),
        json::mark_of("meanAnomaly"@) == (11int, 'm', 'n', 'y'),
        json::mark_of("signals"@) == (7int, 's', 'n', 's'),
        json::mark_of("id64"@) == (4int, 'i', '6', '4'),
        json::mark_of("bodyId"@) == (6int, 'b', 'y', 'd'),
        json::mark_of("mainStar"@) == (8int, 'm', 'S', 'r'),
        json::mark_of("spectralClass"@) == (13int, 's', 'a', 's'),
        json::mark_of("solarRadius"@) == (11int, 's', 'R', 's'),
        json::mark_of("materials"@) == (9int, 'm', 'r', 's'),
        json::mark_of("reserveLevel"@) == (12int, 'r', 'e', 'l'),
        json::mark_of("belts"@) == (5int, 'b', 'l', 's'),
        json::mark_of("updateTime"@) == (10int, 'u', 'e', 'e'),
{
    reveal_strlit("name");
    reveal_strlit("type");
    reveal_strlit("subType");
    reveal_strlit("distanceToArrival");
    reveal_strlit("isLandable");
    reveal_strlit("gravity");
    reveal_strlit("earthMasses");
    reveal_strlit("radius");
    reveal_strlit("surfaceTemperature");
    reveal_strlit("volcanismType");
    reveal_strlit("atmosphereType");
    reveal_strlit("terraformingState");
    reveal_strlit("orbitalPeriod");
    reveal_strlit("semiMajorAxis");
    reveal_strlit("orbitalEccentricity");
    reveal_strlit("orbitalInclination");
    reveal_strlit("argOfPeriapsis");
    reveal_strlit("rotationalPeriod");
    reveal_strlit("rotationalPeriodTidallyLocked");
    reveal_strlit("axialTilt");
    reveal_strlit("solarMasses");
    reveal_strlit("absoluteMagnitude");
    reveal_strlit("age");
    reveal_strlit("luminosity");
    reveal_strlit("subclass");
    reveal_strlit("surfacePressure");
    reveal_strlit("atmosphereComposition");
    reveal_strlit("solidComposition");
    reveal_strlit("rings");
    reveal_strlit("parents");
    reveal_strlit("wasDiscovered");
    reveal_strlit("wasMapped");
    reveal_strlit("ascendingNode");
    reveal_strlit("meanAnomaly");
    reveal_strlit("signals");
    reveal_strlit("id64");
    reveal_strlit("bodyId");
    reveal_strlit("mainStar");
    reveal_strlit("spectralClass");
    reveal_strlit("solarRadius");
    reveal_strlit("materials");
    reveal_strlit("reserveLevel");
    reveal_strlit("belts");
    reveal_strlit("updateTime");
}

proof fn lemma_body_part_a(m: Map<Seq<char>, JsonView>, row: &DbRow)
    ensures
        json::found(body_part_a(m, row), "name"@) == Some(sql::text_json(row.value("name"@))),
        json::found(body_part_a(m, row), "type"@) == Some(sql::text_json(row.value("type"@))),
        json::found(body_part_a(m, row), "subType"@) == Some(sql::text_json(row.value("subType"@))),
        json::found(body_part_a(m, row), "distanceToArrival"@)
            == Some(sql::num_json(row.value("distanceToArrival"@))),
        json::found(body_part_a(m, row), "isLandable"@)
            == Some(JsonView::Bool(sql::is_one(row.value("isLandable"@)))),
        json::found(body_part_a(m, row), "gravity"@) == Some(sql::num_json(row.value("gravity"@))),
        json::found(body_part_a(m, row), "earthMasses"@)
            == Some(sql::num_json(row.value("earthMasses"@))),
        json::found(body_part_a(m, row), "radius"@) == Some(sql::num_json(row.value("radius"@))),
        json::found(body_part_a(m, row), "surfaceTemperature"@)
            == Some(sql::int_json(row.value("surfaceTemperature"@))),
        json::found(body_part_a(m, row), "volcanismType"@)
            == Some(sql::text_json(row.value("volcanismType"@))),
        forall|other: Seq<char>|
            other != "name"@ && other != "type"@ && other != "subType"@
                && other != "distanceToArrival"@ && other != "isLandable"@ && other != "gravity"@
                && other != "earthMasses"@ && other != "radius"@ && other != "surfaceTemperature"@
                && other != "volcanismType"@ ==> #[trigger] json::found(body_part_a(m, row), other)
                == json::found(m, other),
{
    broadcast use {json::lemma_found_set, json::lemma_found_none};

    lemma_body_answer_names();
}

proof fn lemma_body_part_b(m: Map<Seq<char>, JsonView>, row: &DbRow)
    ensures
        json::found(body_part_b(m, row), "atmosphereType"@)
            == Some(sql::text_json(row.value("atmosphereType"@))),
        json::found(body_part_b(m, row), "terraformingState"@)
            == Some(terraforming(row.value("terraformingState"@))),
        json::found(body_part_b(m, row), "orbitalPeriod"@)
            == Some(sql::num_json(row.value("orbitalPeriod"@))),
        json::found(body_part_b(m, row), "semiMajorAxis"@)
            == Some(sql::num_json(row.value("semiMajorAxis"@))),
        json::found(body_part_b(m, row), "orbitalEccentricity"@)
            == Some(sql::num_json(row.value("orbitalEccentricity"@))),
        json::found(body_part_b(m, row), "orbitalInclination"@)
            == Some(sql::num_json(row.value("orbitalInclination"@))),
        json::found(body_part_b(m, row), "argOfPeriapsis"@)
            == Some(sql::num_json(row.value("argOfPeriapsis"@))),
        json::found(body_part_b(m, row), "rotationalPeriod"@)
            == Some(sql::num_json(row.value("rotationalPeriod"@))),
        json::found(body_part_b(m, row), "rotationalPeriodTidallyLocked"@)
            == Some(JsonView::Bool(sql::is_one(row.value("isTidallyLocked"@)))),
        json::found(body_part_b(m, row), "axialTilt"@)
            == Some(sql::num_json(row.value("axisTilt"@))),
        forall|other: Seq<char>|
            other != "atmosphereType"@ && other != "terraformingState"@ && other != "orbitalPeriod"@
                && other != "semiMajorAxis"@ && other != "orbitalEccentricity"@
                && other != "orbitalInclination"@ && other != "argOfPeriapsis"@
                && other != "rotationalPeriod"@ && other != "rotationalPeriodTidallyLocked"@
                && other != "axialTilt"@ ==> #[trigger] json::found(body_part_b(m, row), other)
                == json::found(m, other),
{
    broadcast use {json::lemma_found_set, json::lemma_found_none};

    lemma_body_answer_names();
}

proof fn lemma_body_part_c(m: Map<Seq<char>, JsonView>, row: &DbRow)
    ensures
        json::found(body_part_c(m, row), "solarMasses"@)
            == Some(sql::num_json(row.value("stellarMass"@))),
        json::found(body_part_c(m, row), "absoluteMagnitude"@)
            == Some(sql::num_json(row.value("absoluteMagnitude"@))),
        json::found(body_part_c(m, row), "age"@) == Some(sql::int_json(row.value("age"@))),
        json::found(body_part_c(m, row), "luminosity"@)
            == Some(sql::text_json(row.value("luminosity"@))),
        json::found(body_part_c(m, row), "subclass"@)
            == Some(sql::int_json(row.value("subclass"@))),
        json::found(body_part_c(m, row), "surfacePressure"@)
            == Some(sql::num_json(row.value("surfacePressure"@))),
        json::found(body_part_c(m, row), "atmosphereComposition"@)
            == Some(sql::held_json(row.value("atmosphereComposition"@))),
        json::found(body_part_c(m, row), "solidComposition"@)
            == Some(sql::held_json(row.value("composition"@))),
        json::found(body_part_c(m, row), "rings"@) == Some(sql::held_json(row.value("rings"@))),
        json::found(body_part_c(m, row), "parents"@) == Some(sql::held_json(row.value("parents"@))),
        forall|other: Seq<char>|
            other != "solarMasses"@ && other != "absoluteMagnitude"@ && other != "age"@
                && other != "luminosity"@ && other != "subclass"@ && other != "surfacePressure"@
                && other != "atmosphereComposition"@ && other != "solidComposition"@
                && other != "rings"@ && other != "parents"@
                ==> #[trigger] json::found(body_part_c(m, row), other) == json::found(m, other),
{
    broadcast use {json::lemma_found_set, json::lemma_found_none};

    lemma_body_answer_names();
}

proof fn lemma_body_part_d(m: Map<Seq<char>, JsonView>, row: &DbRow)
    ensures
        json::found(body_part_d(m, row), "wasDiscovered"@)
            == Some(sql::truth_json(row.value("wasDiscovered"@))),
        json::found(body_part_d(m, row), "wasMapped"@)
            == Some(sql::truth_json(row.value("wasMapped"@))),
        json::found(body_part_d(m, row), "ascendingNode"@)
            == Some(sql::num_json(row.value("ascendingNode"@))),
        json::found(body_part_d(m, row), "meanAnomaly"@)
            == Some(sql::num_json(row.value("meanAnomaly"@))),
        json::found(body_part_d(m, row), "signals"@) == Some(sql::held_json(row.value("signals"@))),
        json::found(body_part_d(m, row), "id64"@) == Some(sql::int_json(row.value("bodyId64"@))),
        json::found(body_part_d(m, row), "bodyId"@) == Some(sql::int_json(row.value("bodyId"@))),
        json::found(body_part_d(m, row), "mainStar"@)
            == Some(sql::truth_json(row.value("mainStar"@))),
        json::found(body_part_d(m, row), "spectralClass"@)
            == Some(sql::text_json(row.value("spectralClass"@))),
        json::found(body_part_d(m, row), "solarRadius"@)
            == Some(sql::num_json(row.value("solarRadius"@))),
        forall|other: Seq<char>|
            other != "wasDiscovered"@ && other != "wasMapped"@ && other != "ascendingNode"@
                && other != "meanAnomaly"@ && other != "signals"@ && other != "id64"@
                && other != "bodyId"@ && other != "mainStar"@ && other != "spectralClass"@
                && other != "solarRadius"@ ==> #[trigger] json::found(body_part_d(m, row), other)
                == json::found(m, other),
{
    broadcast use {json::lemma_found_set, json::lemma_found_none};

    lemma_body_answer_names();
}

proof fn lemma_body_part_e(m: Map<Seq<char>, JsonView>, row: &DbRow)
    ensures
        json::found(body_part_e(m, row), "materials"@)
            == Some(sql::held_json(row.value("materials"@))),
        json::found(body_part_e(m, row), "reserveLevel"@)
            == Some(sql::text_json(row.value("reserveLevel"@))),
        json::found(body_part_e(m, row), "belts"@) == Some(sql::held_json(row.value("belts"@))),
        json::found(body_part_e(m, row), "updateTime"@)
            == Some(sql::text_json(row.value("updateTime"@))),
        forall|other: Seq<char>|
            other != "materials"@ && other != "reserveLevel"@ && other != "belts"@
                && other != "updateTime"@ ==> #[trigger] json::found(body_part_e(m, row), other)
                == json::found(m, other),
{
    broadcast use {json::lemma_found_set, json::lemma_found_none};

    lemma_body_answer_names();
}

/// A body is told under the names of its columns: each member holds what its
/// own column holds.
pub proof fn law_bodies_are_told_by_column(row: &DbRow)
    ensures
        ({
            let a = body_answer(row);
            &&& json::field(a, "name"@) == Some(sql::text_json(row.value("name"@)))
            &&& json::field(a, "type"@) == Some(sql::text_json(row.value("type"@)))
            &&& json::field(a, "subType"@) == Some(sql::text_json(row.value("subType"@)))
            &&& json::field(a, "distanceToArrival"@)
                == Some(sql::num_json(row.value("distanceToArrival"@)))
            &&& json::field(a, "isLandable"@)
                == Some(JsonView::Bool(sql::is_one(row.value("isLandable"@))))
            &&& json::field(a, "gravity"@) == Some(sql::num_json(row.value("gravity"@)))
            &&& json::field(a, "earthMasses"@) == Some(sql::num_json(row.value("earthMasses"@)))
            &&& json::field(a, "radius"@) == Some(sql::num_json(row.value("radius"@)))
            &&& json::field(a, "surfaceTemperature"@)
                == Some(sql::int_json(row.value("surfaceTemperature"@)))
            &&& json::field(a, "volcanismType"@)
                == Some(sql::text_json(row.value("volcanismType"@)))
            &&& json::field(a, "atmosphereType"@)
                == Some(sql::text_json(row.value("atmosphereType"@)))
            &&& json::field(a, "terraformingState"@)
                == Some(terraforming(row.value("terraformingState"@)))
            &&& json::field(a, "orbitalPeriod"@) == Some(sql::num_json(row.value("orbitalPeriod"@)))
            &&& json::field(a, "semiMajorAxis"@) == Some(sql::num_json(row.value("semiMajorAxis"@)))
            &&& json::field(a, "orbitalEccentricity"@)
                == Some(sql::num_json(row.value("orbitalEccentricity"@)))
            &&& json::field(a, "orbitalInclination"@)
                == Some(sql::num_json(row.value("orbitalInclination"@)))
            &&& json::field(a, "argOfPeriapsis"@)
                == Some(sql::num_json(row.value("argOfPeriapsis"@)))
            &&& json::field(a, "rotationalPeriod"@)
                == Some(sql::num_json(row.value("rotationalPeriod"@)))
            &&& json::field(a, "rotationalPeriodTidallyLocked"@)
                == Some(JsonView::Bool(sql::is_one(row.value("isTidallyLocked"@))))
            &&& json::field(a, "axialTilt"@) == Some(sql::num_json(row.value("axisTilt"@)))
            &&& json::field(a, "solarMasses"@) == Some(sql::num_json(row.value("stellarMass"@)))
            &&& json::field(a, "absoluteMagnitude"@)
                == Some(sql::num_json(row.value("absoluteMagnitude"@)))
            &&& json::field(a, "age"@) == Some(sql::int_json(row.value("age"@)))
            &&& json::field(a, "luminosity"@) == Some(sql::text_json(row.value("luminosity"@)))
            &&& json::field(a, "subclass"@) == Some(sql::int_json(row.value("subclass"@)))
            &&& json::field(a, "surfacePressure"@)
                == Some(sql::num_json(row.value("surfacePressure"@)))
            &&& json::field(a, "atmosphereComposition"@)
                == Some(sql::held_json(row.value("atmosphereComposition"@)))
            &&& json::field(a, "solidComposition"@)
                == Some(sql::held_json(row.value("composition"@)))
            &&& json::field(a, "rings"@) == Some(sql::held_json(row.value("rings"@)))
            &&& json::field(a, "parents"@) == Some(sql::held_json(row.value("parents"@)))
            &&& json::field(a, "wasDiscovered"@)
                == Some(sql::truth_json(row.value("wasDiscovered"@)))
            &&& json::field(a, "wasMapped"@) == Some(sql::truth_json(row.value("wasMapped"@)))
            &&& json::field(a, "ascendingNode"@) == Some(sql::num_json(row.value("ascendingNode"@)))
            &&& json::field(a, "meanAnomaly"@) == Some(sql::num_json(row.value("meanAnomaly"@)))
            &&& json::field(a, "signals"@) == Some(sql::held_json(row.value("signals"@)))
            &&& json::field(a, "id64"@) == Some(sql::int_json(row.value("bodyId64"@)))
            &&& json::field(a, "bodyId"@) == Some(sql::int_json(row.value("bodyId"@)))
            &&& json::field(a, "mainStar"@) == Some(sql::truth_json(row.value("mainStar"@)))
            &&& json::field(a, "spectralClass"@)
                == Some(sql::text_json(row.value("spectralClass"@)))
            &&& json::field(a, "solarRadius"@) == Some(sql::num_json(row.value("solarRadius"@)))
            &&& json::field(a, "materials"@) == Some(sql::held_json(row.value("materials"@)))
            &&& json::field(a, "reserveLevel"@) == Some(sql::text_json(row.value("reserveLevel"@)))
            &&& json::field(a, "belts"@) == Some(sql::held_json(row.value("belts"@)))
            &&& json::field(a, "updateTime"@) == Some(sql::text_json(row.value("updateTime"@)))
        }),
{
    lemma_body_answer_names();
    json::lemma_found(body_answer(row));
    let m0 = Map::<Seq<char>, JsonView>::empty();
    lemma_body_part_a(m0, row);
    let m1 = body_part_a(m0, row);
    lemma_body_part_b(m1, row);
    let m2 = body_part_b(m1, row);
    lemma_body_part_c(m2, row);
    let m3 = body_part_c(m2, row);
    lemma_body_part_d(m3, row);
    let m4 = body_part_d(m3, row);
    lemma_body_part_e(m4, row);
}

proof fn lemma_station_answer_names()
    ensures
        json::mark_of("id"@) == (2int, 'i', 'd', 'd'),
        json::mark_of("marketId"@) == (8int, 'm', 'e', 'd'),
        json::mark_of("type"@) == (4int, 't', 'p', 'e'),
        json::mark_of("name"@) == (4int, 'n', 'm', 'e'),
        json::mark_of("distanceToArrival"@) == (17int, 'd', 'T', 'l'),
        json::mark_of("allegiance"@) == (10int, 'a', 'i', 'e'),
        json::mark_of("government"@) == (10int, 'g', 'n', 't'),
        json::mark_of("primaryEconomy"@) == (14int, 'p', 'E', 'y'),
        json::mark_of("secondaryEconomy"@) == (16int, 's', 'y', 'y'),
        json::mark_of("haveMarket"@) == (10int, 'h', 'a', 't'),
        json::mark_of("haveShipyard"@) == (12int, 'h', 'i', 'd'),
        json::mark_of("haveOutfitting"@) == (14int, 'h', 'f', 'g'),
        json::mark_of("services"@) == (8int, 's', 'i', 's'),
        json::mark_of("updateTime"@) == (10int, 'u', 'e', 'e'),
        json::mark_of("realName"@) == (8int, 'r', 'N', 'e'),
        json::mark_of("carrierName"@) == (11int, 'c', 'e', 'e'),
        json::mark_of("controllingFaction"@) == (18int, 'c', 'n', 'n'),
        json::mark_of("controllingFactionState"@) == (23int, 'c', 'F', 'e'),
        json::mark_of("state"@) == (5int, 's', 'a', 'e'),
        json::mark_of("latitude"@) == (8int, 'l', 't', 'e'),
        json::mark_of("longitude"@) == (9int, 'l', 'i', 'e'),
        json::mark_of("landingPads"@) == (11int, 'l', 'n', 's'),
        json::mark_of("carrierDockingAccess"@) == (20int, 'c', 'k', 's'),
        json::mark_of("economies"@) == (9int, 'e', 'o', 's'),
        json::mark_of("market"@) == (6int, 'm', 'k', 't'),
        json::mark_of("shipyard"@) == (8int, 's', 'y', 'd'),
        json::mark_of("outfitting"@) == (10int, 'o', 't', 'g'),
{
    reveal_strlit("id");
    reveal_strlit("marketId");
    reveal_strlit("type");
    reveal_strlit("name");
    reveal_strlit("distanceToArrival");
    reveal_strlit("allegiance");
    reveal_strlit("government");
    reveal_strlit("primaryEconomy");
    reveal_strlit("secondaryEconomy");
    reveal_strlit("haveMarket");
    reveal_strlit("haveShipyard");
    reveal_strlit("haveOutfitting");
    reveal_strlit("services");
    reveal_strlit("updateTime");
    reveal_strlit("realName");
    reveal_strlit("carrierName");
    reveal_strlit("controllingFaction");
    reveal_strlit("controllingFactionState");
    reveal_strlit("state");
    reveal_strlit("latitude");
    reveal_strlit("longitude");
    reveal_strlit("landingPads");
    reveal_strlit("carrierDockingAccess");
    reveal_strlit("economies");
    reveal_strlit("market");
    reveal_strlit("shipyard");
    reveal_strlit("outfitting");
}

proof fn lemma_station_part_a(m: Map<Seq<char>, JsonView>, row: &DbRow)
    ensures
        json::found(station_part_a(m, row), "id"@) == Some(sql::int_json(row.value("id"@))),
        json::found(station_part_a(m, row), "marketId"@)
            == Some(sql::int_json(row.value("marketId"@))),
        json::found(station_part_a(m, row), "type"@) == Some(sql::text_json(row.value("type"@))),
        json::found(station_part_a(m, row), "name"@) == Some(sql::text_json(row.value("name"@))),
        json::found(station_part_a(m, row), "distanceToArrival"@)
            == Some(sql::num_json(row.value("distanceToArrival"@))),
        json::found(station_part_a(m, row), "allegiance"@)
            == Some(sql::text_json(row.value("allegiance"@))),
        json::found(station_part_a(m, row), "government"@)
            == Some(sql::text_json(row.value("government"@))),
        json::found(station_part_a(m, row), "primaryEconomy"@)
            == Some(sql::text_json(row.value("economy"@))),
        json::found(station_part_a(m, row), "secondaryEconomy"@)
            == Some(sql::text_json(row.value("secondEconomy"@))),
        json::found(station_part_a(m, row), "haveMarket"@)
            == Some(JsonView::Bool(sql::is_one(row.value("haveMarket"@)))),
        forall|other: Seq<char>|
            other != "id"@ && other != "marketId"@ && other != "type"@ && other != "name"@
                && other != "distanceToArrival"@ && other != "allegiance"@ && other != "government"@
                && other != "primaryEconomy"@ && other != "secondaryEconomy"@
                && other != "haveMarket"@ ==> #[trigger] json::found(station_part_a(m, row), other)
                == json::found(m, other),
{
    broadcast use {json::lemma_found_set, json::lemma_found_none};

    lemma_station_answer_names();
}

proof fn lemma_station_part_b(m: Map<Seq<char>, JsonView>, row: &DbRow)
    ensures
        json::found(station_part_b(m, row), "haveShipyard"@)
            == Some(JsonView::Bool(sql::is_one(row.value("haveShipyard"@)))),
        json::found(station_part_b(m, row), "haveOutfitting"@)
            == Some(JsonView::Bool(sql::is_one(row.value("haveOutfitting"@)))),
        json::found(station_part_b(m, row), "services"@)
            == Some(services(row.value("otherServices"@))),
        json::found(station_part_b(m, row), "updateTime"@)
            == Some(sql::text_json(row.value("updateTime"@))),
        json::found(station_part_b(m, row), "realName"@)
            == Some(sql::text_json(row.value("realName"@))),
        json::found(station_part_b(m, row), "carrierName"@)
            == Some(sql::text_json(row.value("carrierName"@))),
        json::found(station_part_b(m, row), "controllingFaction"@)
            == Some(sql::text_json(row.value("controllingFaction"@))),
        json::found(station_part_b(m, row), "controllingFactionState"@)
            == Some(sql::text_json(row.value("controllingFactionState"@))),
        json::found(station_part_b(m, row), "state"@) == Some(sql::text_json(row.value("state"@))),
        json::found(station_part_b(m, row), "latitude"@)
            == Some(sql::num_json(row.value("latitude"@))),
        forall|other: Seq<char>|
            other != "haveShipyard"@ && other != "haveOutfitting"@ && other != "services"@
                && other != "updateTime"@ && other != "realName"@ && other != "carrierName"@
                && other != "controllingFaction"@ && other != "controllingFactionState"@
                && other != "state"@ && other != "latitude"@
                ==> #[trigger] json::found(station_part_b(m, row), other) == json::found(m, other),
{
    broadcast use {json::lemma_found_set, json::lemma_found_none};

    lemma_station_answer_names();
}

proof fn lemma_station_part_c(m: Map<Seq<char>, JsonView>, row: &DbRow)
    ensures
        json::found(station_part_c(m, row), "longitude"@)
            == Some(sql::num_json(row.value("longitude"@))),
        json::found(station_part_c(m, row), "landingPads"@)
            == Some(sql::held_json(row.value("landingPads"@))),
        json::found(station_part_c(m, row), "carrierDockingAccess"@)
            == Some(sql::text_json(row.value("carrierDockingAccess"@))),
        json::found(station_part_c(m, row), "economies"@)
            == Some(sql::held_json(row.value("economies"@))),
        json::found(station_part_c(m, row), "market"@)
            == Some(sql::held_json(row.value("market"@))),
        json::found(station_part_c(m, row), "shipyard"@)
            == Some(sql::held_json(row.value("shipyard"@))),
        json::found(station_part_c(m, row), "outfitting"@)
            == Some(sql::held_json(row.value("outfitting"@))),
        forall|other: Seq<char>|
            other != "longitude"@ && other != "landingPads"@ && other != "carrierDockingAccess"@
                && other != "economies"@ && other != "market"@ && other != "shipyard"@
                && other != "outfitting"@ ==> #[trigger] json::found(station_part_c(m, row), other)
                == json::found(m, other),
{
    broadcast use {json::lemma_found_set, json::lemma_found_none};

    lemma_station_answer_names();
}

/// A station is told under the names of its columns: each member holds what its
/// own column holds.
pub proof fn law_stations_are_told_by_column(row: &DbRow)
    ensures
        ({
            let a = station_answer(row);
            &&& json::field(a, "id"@) == Some(sql::int_json(row.value("id"@)))
            &&& json::field(a, "marketId"@) == Some(sql::int_json(row.value("marketId"@)))
            &&& json::field(a, "type"@) == Some(sql::text_json(row.value("type"@)))
            &&& json::field(a, "name"@) == Some(sql::text_json(row.value("name"@)))
            &&& json::field(a, "distanceToArrival"@)
                == Some(sql::num_json(row.value("distanceToArrival"@)))
            &&& json::field(a, "allegiance"@) == Some(sql::text_json(row.value("allegiance"@)))
            &&& json::field(a, "government"@) == Some(sql::text_json(row.value("government"@)))
            &&& json::field(a, "primaryEconomy"@) == Some(sql::text_json(row.value("economy"@)))
            &&& json::field(a, "secondaryEconomy"@)
                == Some(sql::text_json(row.value("secondEconomy"@)))
            &&& json::field(a, "haveMarket"@)
                == Some(JsonView::Bool(sql::is_one(row.value("haveMarket"@))))
            &&& json::field(a, "haveShipyard"@)
                == Some(JsonView::Bool(sql::is_one(row.value("haveShipyard"@))))
            &&& json::field(a, "haveOutfitting"@)
                == Some(JsonView::Bool(sql::is_one(row.value("haveOutfitting"@))))
            &&& json::field(a, "services"@) == Some(services(row.value("otherServices"@)))
            &&& json::field(a, "updateTime"@) == Some(sql::text_json(row.value("updateTime"@)))
            &&& json::field(a, "realName"@) == Some(sql::text_json(row.value("realName"@)))
            &&& json::field(a, "carrierName"@) == Some(sql::text_json(row.value("carrierName"@)))
            &&& json::field(a, "controllingFaction"@)
                == Some(sql::text_json(row.value("controllingFaction"@)))
            &&& json::field(a, "controllingFactionState"@)
                == Some(sql::text_json(row.value("controllingFactionState"@)))
            &&& json::field(a, "state"@) == Some(sql::text_json(row.value("state"@)))
            &&& json::field(a, "latitude"@) == Some(sql::num_json(row.value("latitude"@)))
            &&& json::field(a, "longitude"@) == Some(sql::num_json(row.value("longitude"@)))
            &&& json::field(a, "landingPads"@) == Some(sql::held_json(row.value("landingPads"@)))
            &&& json::field(a, "carrierDockingAccess"@)
                == Some(sql::text_json(row.value("carrierDockingAccess"@)))
            &&& json::field(a, "economies"@) == Some(sql::held_json(row.value("economies"@)))
            &&& json::field(a, "market"@) == Some(sql::held_json(row.value("market"@)))
            &&& json::field(a, "shipyard"@) == Some(sql::held_json(row.value("shipyard"@)))
            &&& json::field(a, "outfitting"@) == Some(sql::held_json(row.value("outfitting"@)))
        }),
{
    lemma_station_answer_names();
    json::lemma_found(station_answer(row));
    let m0 = Map::<Seq<char>, JsonView>::empty();
    lemma_station_part_a(m0, row);
    let m1 = station_part_a(m0, row);
    lemma_station_part_b(m1, row);
    let m2 = station_part_b(m1, row);
    lemma_station_part_c(m2, row);
}

/// A list of parts stands under its own name, beside the id and the name of the
/// system.
pub proof fn law_parts_stand_under_their_name(
    id64: i64,
    name: Seq<char>,
    key: Seq<char>,
    parts: Seq<JsonView>,
)
    requires
        key != "id64"@,
        key != "name"@,
    ensures
        json::field(parts_answer(id64, name, key, parts), "id64"@) == Some(
            JsonView::Num(Num::Int(id64)),
        ),
        json::field(parts_answer(id64, name, key, parts), "name"@) == Some(JsonView::Str(name)),
        json::field(parts_answer(id64, name, key, parts), key) == Some(JsonView::Arr(parts)),
        json::field(no_parts(key), key) == Some(JsonView::Arr(Seq::empty())),
{
    reveal_strlit("id64");
    reveal_strlit("name");
    assert("id64"@[0] != "name"@[0]);
}

/// The place of a system is that of its index, axis by axis; services are told
/// in the order of the list.
pub proof fn law_places_and_lists_are_kept(row: &DbRow, l: Seq<Seq<char>>)
    ensures
        place(row) is Obj <==> sql::num_in(row.value("minX"@)) is Some && sql::num_in(
            row.value("minY"@),
        ) is Some && sql::num_in(row.value("minZ"@)) is Some,
        place(row) is Obj ==> json::field(place(row), "x"@) == Some(
            JsonView::Num(sql::num_in(row.value("minX"@))->0),
        ) && json::field(place(row), "y"@) == Some(
            JsonView::Num(sql::num_in(row.value("minY"@))->0),
        ) && json::field(place(row), "z"@) == Some(
            JsonView::Num(sql::num_in(row.value("minZ"@))->0),
        ),
        services_listed(Some(l)) matches JsonView::Arr(a) && a.len() == l.len() && forall|i: int|
            0 <= i < l.len() ==> #[trigger] a[i] == JsonView::Str(l[i]),
        services_listed(None) matches JsonView::Arr(a) && a.len() == 0,
{
    reveal_strlit("x");
    reveal_strlit("y");
    reveal_strlit("z");
    assert("x"@[0] == 'x' && "y"@[0] == 'y' && "z"@[0] == 'z');
}

/// The state of a body is told as it is known; where nothing is, it cannot be
/// terraformed.
pub proof fn law_terraforming_is_told(s: Seq<char>)
    ensures
        terraforming(Some(SqlView::Text(s))) == JsonView::Str(s),
        terraforming(None) == JsonView::Str("Not terraformable"@),
        terraforming(Some(SqlView::Null)) == JsonView::Str("Not terraformable"@),
{
}

} // verus!
