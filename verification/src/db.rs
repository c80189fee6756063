//! What a system becomes in the database.

use crate::clause::World;
use crate::json;
use crate::json::{Json, JsonView, Num};
use crate::models::{SpanshSystem, SystemView};
use crate::text;
use crate::text::{contains, same, to_ascii_lower};
use vstd::prelude::*;

verus! {

/// The clock of the machine, by `std::time::SystemTime::now`: the full seconds
/// since the beginning of 1970, or `None` where the clock stands before it.
/// Nothing is claimed of what it shows.
#[verifier::external_body]
fn clock() -> (r: Option<u64>) {
    match std::time::SystemTime::now().duration_since(std::time::UNIX_EPOCH) {
        Ok(d) => Some(d.as_secs()),
        Err(_) => None,
    }
}

/// A reading that the clock of the machine gave.
pub closed spec fn is_reading(c: Option<u64>) -> bool {
    call_ensures(clock, (), c)
}

/// The time of a reading: zero where the clock stands before 1970.
pub open spec fn shown(c: Option<u64>) -> u64 {
    match c {
        Some(s) => s,
        None => 0,
    }
}

/// The time that a clock shows: zero where it stands before 1970.
pub fn time_shown(clock: Option<u64>) -> (r: u64)
    ensures
        r == shown(clock),
{
    match clock {
        Some(s) => s,
        None => 0,
    }
}

/// The Unix time in seconds: the time of a reading of the machine's clock.
/// Which reading that is, is left open.
pub fn current_time_secs() -> (r: u64)
    ensures
        exists|c: Option<u64>| #[trigger] is_reading(c) && r == shown(c),
{
    let c = clock();
    assert(is_reading(c));
    time_shown(c)
}

/// Inserts a system; of a system that is there, only what is said anew changes.
pub const SQL_SYSTEM: &'static str = "INSERT INTO systems (id64, name, population, last_update, allegiance, government, primaryEconomy, secondaryEconomy, security, bodyCount, date, controllingFaction, factions, powerState, powers, controllingPower, powerStateControlProgress, powerStateReinforcement, powerStateUndermining, powerConflictProgress, thargoidWar) VALUES (?, ?, ?, ?, ?, ?, ?, ?, ?, ?, ?, ?, ?, ?, ?, ?, ?, ?, ?, ?, ?) ON CONFLICT(id64) DO UPDATE SET name = COALESCE(excluded.name, systems.name), population = CASE WHEN excluded.population > 0 THEN excluded.population ELSE systems.population END, last_update = excluded.last_update, allegiance = COALESCE(excluded.allegiance, systems.allegiance), government = COALESCE(excluded.government, systems.government), primaryEconomy = COALESCE(excluded.primaryEconomy, systems.primaryEconomy), secondaryEconomy = COALESCE(excluded.secondaryEconomy, systems.secondaryEconomy), security = COALESCE(excluded.security, systems.security), bodyCount = COALESCE(excluded.bodyCount, systems.bodyCount), date = COALESCE(excluded.date, systems.date), controllingFaction = COALESCE(excluded.controllingFaction, systems.controllingFaction), factions = COALESCE(excluded.factions, systems.factions), powerState = COALESCE(excluded.powerState, systems.powerState), powers = COALESCE(excluded.powers, systems.powers), controllingPower = COALESCE(excluded.controllingPower, systems.controllingPower), powerStateControlProgress = COALESCE(excluded.powerStateControlProgress, systems.powerStateControlProgress), powerStateReinforcement = COALESCE(excluded.powerStateReinforcement, systems.powerStateReinforcement), powerStateUndermining = COALESCE(excluded.powerStateUndermining, systems.powerStateUndermining), powerConflictProgress = COALESCE(excluded.powerConflictProgress, systems.powerConflictProgress), thargoidWar = COALESCE(excluded.thargoidWar, systems.thargoidWar)";

/// Places a system in space.
pub const SQL_INDEX: &'static str = "INSERT OR REPLACE INTO systems_index (id, minX, maxX, minY, maxY, minZ, maxZ) VALUES (?, ?, ?, ?, ?, ?, ?)";

/// Inserts a body; of a body that is there, only what is said anew changes.
pub const SQL_BODY: &'static str = "INSERT INTO bodies (systemId64, bodyId, name, type, subType, distanceToArrival, isLandable, gravity, earthMasses, radius, surfaceTemperature, orbitalPeriod, semiMajorAxis, orbitalEccentricity, orbitalInclination, argOfPeriapsis, rotationalPeriod, isTidallyLocked, axisTilt, volcanismType, atmosphereType, terraformingState, stellarMass, absoluteMagnitude, age, luminosity, subclass, surfacePressure, atmosphereComposition, composition, rings, parents, wasDiscovered, wasMapped, ascendingNode, meanAnomaly, signals, bodyId64, mainStar, spectralClass, solarRadius, materials, reserveLevel, belts, updateTime) VALUES (?,?,?,?,?,?,?,?,?,?,?,?,?,?,?,?,?,?,?,?,?,?,?,?,?,?,?,?,?,?,?,?,?,?,?,?,?,?,?,?,?,?,?,?,?) ON CONFLICT(systemId64, bodyId) DO UPDATE SET name = COALESCE(excluded.name, bodies.name), type = COALESCE(excluded.type, bodies.type), subType = COALESCE(excluded.subType, bodies.subType), distanceToArrival = COALESCE(excluded.distanceToArrival, bodies.distanceToArrival), isLandable = COALESCE(excluded.isLandable, bodies.isLandable), gravity = COALESCE(excluded.gravity, bodies.gravity), earthMasses = COALESCE(excluded.earthMasses, bodies.earthMasses), radius = COALESCE(excluded.radius, bodies.radius), surfaceTemperature = COALESCE(excluded.surfaceTemperature, bodies.surfaceTemperature), orbitalPeriod = COALESCE(excluded.orbitalPeriod, bodies.orbitalPeriod), semiMajorAxis = COALESCE(excluded.semiMajorAxis, bodies.semiMajorAxis), orbitalEccentricity = COALESCE(excluded.orbitalEccentricity, bodies.orbitalEccentricity), orbitalInclination = COALESCE(excluded.orbitalInclination, bodies.orbitalInclination), argOfPeriapsis = COALESCE(excluded.argOfPeriapsis, bodies.argOfPeriapsis), rotationalPeriod = COALESCE(excluded.rotationalPeriod, bodies.rotationalPeriod), isTidallyLocked = COALESCE(excluded.isTidallyLocked, bodies.isTidallyLocked), axisTilt = COALESCE(excluded.axisTilt, bodies.axisTilt), volcanismType = COALESCE(excluded.volcanismType, bodies.volcanismType), atmosphereType = COALESCE(excluded.atmosphereType, bodies.atmosphereType), terraformingState = COALESCE(excluded.terraformingState, bodies.terraformingState), stellarMass = COALESCE(excluded.stellarMass, bodies.stellarMass), absoluteMagnitude = COALESCE(excluded.absoluteMagnitude, bodies.absoluteMagnitude), age = COALESCE(excluded.age, bodies.age), luminosity = COALESCE(excluded.luminosity, bodies.luminosity), subclass = COALESCE(excluded.subclass, bodies.subclass), surfacePressure = COALESCE(excluded.surfacePressure, bodies.surfacePressure), atmosphereComposition = COALESCE(excluded.atmosphereComposition, bodies.atmosphereComposition), composition = COALESCE(excluded.composition, bodies.composition), rings = COALESCE(excluded.rings, bodies.rings), parents = COALESCE(excluded.parents, bodies.parents), wasDiscovered = COALESCE(excluded.wasDiscovered, bodies.wasDiscovered), wasMapped = COALESCE(excluded.wasMapped, bodies.wasMapped), ascendingNode = COALESCE(excluded.ascendingNode, bodies.ascendingNode), meanAnomaly = COALESCE(excluded.meanAnomaly, bodies.meanAnomaly), signals = COALESCE(excluded.signals, bodies.signals), bodyId64 = COALESCE(excluded.bodyId64, bodies.bodyId64), mainStar = COALESCE(excluded.mainStar, bodies.mainStar), spectralClass = COALESCE(excluded.spectralClass, bodies.spectralClass), solarRadius = COALESCE(excluded.solarRadius, bodies.solarRadius), materials = COALESCE(excluded.materials, bodies.materials), reserveLevel = COALESCE(excluded.reserveLevel, bodies.reserveLevel), belts = COALESCE(excluded.belts, bodies.belts), updateTime = COALESCE(excluded.updateTime, bodies.updateTime)";

/// Inserts a station; of a station that is there, only what is said anew changes.
pub const SQL_STATION: &'static str = "INSERT INTO stations (id, marketId, systemId64, name, type, distanceToArrival, allegiance, government, economy, secondEconomy, haveMarket, haveShipyard, haveOutfitting, otherServices, updateTime, realName, carrierName, controllingFaction, controllingFactionState, state, latitude, longitude, landingPads, carrierDockingAccess, economies, market, shipyard, outfitting) VALUES (?,?,?,?,?,?,?,?,?,?,?,?,?,?,?,?,?,?,?,?,?,?,?,?,?,?,?,?) ON CONFLICT(systemId64, id) DO UPDATE SET marketId = COALESCE(excluded.marketId, stations.marketId), name = COALESCE(excluded.name, stations.name), type = COALESCE(excluded.type, stations.type), distanceToArrival = COALESCE(excluded.distanceToArrival, stations.distanceToArrival), allegiance = COALESCE(excluded.allegiance, stations.allegiance), government = COALESCE(excluded.government, stations.government), economy = COALESCE(excluded.economy, stations.economy), secondEconomy = COALESCE(excluded.secondEconomy, stations.secondEconomy), haveMarket = MAX(excluded.haveMarket, stations.haveMarket), haveShipyard = MAX(excluded.haveShipyard, stations.haveShipyard), haveOutfitting = MAX(excluded.haveOutfitting, stations.haveOutfitting), otherServices = COALESCE(NULLIF(excluded.otherServices, '[]'), stations.otherServices), updateTime = COALESCE(excluded.updateTime, stations.updateTime), realName = COALESCE(excluded.realName, stations.realName), carrierName = COALESCE(excluded.carrierName, stations.carrierName), controllingFaction = COALESCE(excluded.controllingFaction, stations.controllingFaction), controllingFactionState = COALESCE(excluded.controllingFactionState, stations.controllingFactionState), state = COALESCE(excluded.state, stations.state), latitude = COALESCE(excluded.latitude, stations.latitude), longitude = COALESCE(excluded.longitude, stations.longitude), landingPads = COALESCE(excluded.landingPads, stations.landingPads), carrierDockingAccess = COALESCE(excluded.carrierDockingAccess, stations.carrierDockingAccess), economies = COALESCE(excluded.economies, stations.economies), market = COALESCE(excluded.market, stations.market), shipyard = COALESCE(excluded.shipyard, stations.shipyard), outfitting = COALESCE(excluded.outfitting, stations.outfitting)";

/// Marks a system with a neutron star.
pub const SQL_NEUTRON: &'static str = "INSERT OR IGNORE INTO neutron_systems (systemId64) VALUES (?)";

/// Marks a system with a prison.
pub const SQL_PRISON: &'static str = "INSERT OR IGNORE INTO prison_systems (systemId64) VALUES (?)";

/// The tables and their indices.
pub const SQL_SCHEMA: &'static str = "
        CREATE TABLE IF NOT EXISTS systems (id64 INTEGER PRIMARY KEY, name TEXT, population INTEGER, last_update INTEGER, allegiance TEXT, government TEXT, primaryEconomy TEXT, secondaryEconomy TEXT, security TEXT, bodyCount INTEGER, date TEXT, controllingFaction TEXT, factions TEXT, powerState TEXT, powers TEXT, controllingPower TEXT, powerStateControlProgress REAL, powerStateReinforcement REAL, powerStateUndermining REAL, powerConflictProgress TEXT, thargoidWar TEXT);
        CREATE INDEX IF NOT EXISTS idx_systems_name_nocase ON systems(name COLLATE NOCASE);
        CREATE VIRTUAL TABLE IF NOT EXISTS systems_index USING rtree(id, minX, maxX, minY, maxY, minZ, maxZ);
        CREATE TABLE IF NOT EXISTS bodies (systemId64 INTEGER, bodyId INTEGER, name TEXT, type TEXT, subType TEXT, distanceToArrival REAL, isLandable INTEGER, gravity REAL, earthMasses REAL, radius REAL, surfaceTemperature INTEGER, orbitalPeriod REAL, semiMajorAxis REAL, orbitalEccentricity REAL, orbitalInclination REAL, argOfPeriapsis REAL, rotationalPeriod REAL, isTidallyLocked INTEGER, axisTilt REAL, volcanismType TEXT, atmosphereType TEXT, terraformingState TEXT, stellarMass REAL, absoluteMagnitude REAL, age INTEGER, luminosity TEXT, subclass INTEGER, surfacePressure REAL, atmosphereComposition TEXT, composition TEXT, rings TEXT, parents TEXT, wasDiscovered INTEGER, wasMapped INTEGER, ascendingNode REAL, meanAnomaly REAL, signals TEXT, bodyId64 INTEGER, mainStar INTEGER, spectralClass TEXT, solarRadius REAL, materials TEXT, reserveLevel TEXT, belts TEXT, updateTime TEXT, PRIMARY KEY (systemId64, bodyId)) WITHOUT ROWID;

        CREATE TABLE IF NOT EXISTS stations (id INTEGER, marketId INTEGER, systemId64 INTEGER, name TEXT, type TEXT, distanceToArrival REAL, allegiance TEXT, government TEXT, economy TEXT, secondEconomy TEXT, haveMarket INTEGER, haveShipyard INTEGER, haveOutfitting INTEGER, otherServices TEXT, updateTime TEXT, realName TEXT, carrierName TEXT, controllingFaction TEXT, controllingFactionState TEXT, state TEXT, latitude REAL, longitude REAL, landingPads TEXT, carrierDockingAccess TEXT, economies TEXT, market TEXT, shipyard TEXT, outfitting TEXT, PRIMARY KEY (systemId64, id)) WITHOUT ROWID;
        CREATE TABLE IF NOT EXISTS meta (key TEXT PRIMARY KEY, value TEXT);
        CREATE TABLE IF NOT EXISTS neutron_systems (systemId64 INTEGER PRIMARY KEY);
        CREATE TABLE IF NOT EXISTS prison_systems  (systemId64 INTEGER PRIMARY KEY);
    ";

/// A text that the database is asked to run for each new column.
pub open spec fn altered(table: Seq<char>, column: Seq<char>, kind: Seq<char>) -> Seq<char> {
    "ALTER TABLE "@ + table + " ADD COLUMN "@ + column + " "@ + kind
}

/// The statement that adds a column to a table.
fn alter(table: &str, column: &str, kind: &str) -> (r: String)
    ensures
        r@ == altered(table@, column@, kind@),
{
    let mut r = String::new();
    r.append("ALTER TABLE ");
    r.append(table);
    r.append(" ADD COLUMN ");
    r.append(column);
    r.append(" ");
    r.append(kind);
    assert(r@ =~= altered(table@, column@, kind@));
    r
}

/// Statements that are being collected.
struct Statements {
    list: Vec<String>,
}

impl Statements {
    spec fn view(&self) -> Seq<Seq<char>> {
        text::texts(self.list@)
    }

    fn column(&mut self, table: &str, column: &str, kind: &str)
        ensures
            final(self)@ == old(self)@.push(altered(table@, column@, kind@)),
    {
        let ghost before = self@;
        self.list.push(alter(table, column, kind));
        assert(self@ =~= before.push(altered(table@, column@, kind@)));
    }
}

/// Statements that add columns to the table of systems.
pub open spec fn system_columns_a() -> Seq<Seq<char>> {
    seq![
        altered("systems"@, "allegiance"@, "TEXT"@),
        altered("systems"@, "government"@, "TEXT"@),
        altered("systems"@, "primaryEconomy"@, "TEXT"@),
        altered("systems"@, "secondaryEconomy"@, "TEXT"@),
        altered("systems"@, "security"@, "TEXT"@),
        altered("systems"@, "bodyCount"@, "INTEGER"@),
        altered("systems"@, "date"@, "TEXT"@),
        altered("systems"@, "controllingFaction"@, "TEXT"@),
        altered("systems"@, "factions"@, "TEXT"@),
        altered("systems"@, "powerState"@, "TEXT"@),
        altered("systems"@, "powers"@, "TEXT"@),
        altered("systems"@, "controllingPower"@, "TEXT"@),
    ]
}

fn put_system_columns_a(s: &mut Statements)
    ensures
        final(s)@ == old(s)@ + system_columns_a(),
{
    let ghost before = s@;
    s.column("systems", "allegiance", "TEXT");
    s.column("systems", "government", "TEXT");
    s.column("systems", "primaryEconomy", "TEXT");
    s.column("systems", "secondaryEconomy", "TEXT");
    s.column("systems", "security", "TEXT");
    s.column("systems", "bodyCount", "INTEGER");
    s.column("systems", "date", "TEXT");
    s.column("systems", "controllingFaction", "TEXT");
    s.column("systems", "factions", "TEXT");
    s.column("systems", "powerState", "TEXT");
    s.column("systems", "powers", "TEXT");
    s.column("systems", "controllingPower", "TEXT");
    assert(s@ =~= before + system_columns_a());
}

/// Statements that add columns to the table of systems.
pub open spec fn system_columns_b() -> Seq<Seq<char>> {
    seq![
        altered("systems"@, "powerStateControlProgress"@, "REAL"@),
        altered("systems"@, "powerStateReinforcement"@, "REAL"@),
        altered("systems"@, "powerStateUndermining"@, "REAL"@),
        altered("systems"@, "powerConflictProgress"@, "TEXT"@),
        altered("systems"@, "thargoidWar"@, "TEXT"@),
    ]
}

fn put_system_columns_b(s: &mut Statements)
    ensures
        final(s)@ == old(s)@ + system_columns_b(),
{
    let ghost before = s@;
    s.column("systems", "powerStateControlProgress", "REAL");
    s.column("systems", "powerStateReinforcement", "REAL");
    s.column("systems", "powerStateUndermining", "REAL");
    s.column("systems", "powerConflictProgress", "TEXT");
    s.column("systems", "thargoidWar", "TEXT");
    assert(s@ =~= before + system_columns_b());
}

/// Statements that add columns to the table of bodies.
pub open spec fn body_columns_a() -> Seq<Seq<char>> {
    seq![
        altered("bodies"@, "stellarMass"@, "REAL"@),
        altered("bodies"@, "absoluteMagnitude"@, "REAL"@),
        altered("bodies"@, "age"@, "INTEGER"@),
        altered("bodies"@, "luminosity"@, "TEXT"@),
        altered("bodies"@, "subclass"@, "INTEGER"@),
        altered("bodies"@, "surfacePressure"@, "REAL"@),
        altered("bodies"@, "atmosphereComposition"@, "TEXT"@),
        altered("bodies"@, "composition"@, "TEXT"@),
        altered("bodies"@, "rings"@, "TEXT"@),
        altered("bodies"@, "parents"@, "TEXT"@),
        altered("bodies"@, "wasDiscovered"@, "INTEGER"@),
        altered("bodies"@, "wasMapped"@, "INTEGER"@),
    ]
}

fn put_body_columns_a(s: &mut Statements)
    ensures
        final(s)@ == old(s)@ + body_columns_a(),
{
    let ghost before = s@;
    s.column("bodies", "stellarMass", "REAL");
    s.column("bodies", "absoluteMagnitude", "REAL");
    s.column("bodies", "age", "INTEGER");
    s.column("bodies", "luminosity", "TEXT");
    s.column("bodies", "subclass", "INTEGER");
    s.column("bodies", "surfacePressure", "REAL");
    s.column("bodies", "atmosphereComposition", "TEXT");
    s.column("bodies", "composition", "TEXT");
    s.column("bodies", "rings", "TEXT");
    s.column("bodies", "parents", "TEXT");
    s.column("bodies", "wasDiscovered", "INTEGER");
    s.column("bodies", "wasMapped", "INTEGER");
    assert(s@ =~= before + body_columns_a());
}

/// Statements that add columns to the table of bodies.
pub open spec fn body_columns_b() -> Seq<Seq<char>> {
    seq![
        altered("bodies"@, "ascendingNode"@, "REAL"@),
        altered("bodies"@, "meanAnomaly"@, "REAL"@),
        altered("bodies"@, "signals"@, "TEXT"@),
        altered("bodies"@, "bodyId64"@, "INTEGER"@),
        altered("bodies"@, "mainStar"@, "INTEGER"@),
        altered("bodies"@, "spectralClass"@, "TEXT"@),
        altered("bodies"@, "solarRadius"@, "REAL"@),
        altered("bodies"@, "materials"@, "TEXT"@),
        altered("bodies"@, "reserveLevel"@, "TEXT"@),
        altered("bodies"@, "belts"@, "TEXT"@),
        altered("bodies"@, "updateTime"@, "TEXT"@),
    ]
}

fn put_body_columns_b(s: &mut Statements)
    ensures
        final(s)@ == old(s)@ + body_columns_b(),
{
    let ghost before = s@;
    s.column("bodies", "ascendingNode", "REAL");
    s.column("bodies", "meanAnomaly", "REAL");
    s.column("bodies", "signals", "TEXT");
    s.column("bodies", "bodyId64", "INTEGER");
    s.column("bodies", "mainStar", "INTEGER");
    s.column("bodies", "spectralClass", "TEXT");
    s.column("bodies", "solarRadius", "REAL");
    s.column("bodies", "materials", "TEXT");
    s.column("bodies", "reserveLevel", "TEXT");
    s.column("bodies", "belts", "TEXT");
    s.column("bodies", "updateTime", "TEXT");
    assert(s@ =~= before + body_columns_b());
}

/// Statements that add columns to the table of stations.
pub open spec fn station_columns_a() -> Seq<Seq<char>> {
    seq![
        altered("stations"@, "realName"@, "TEXT"@),
        altered("stations"@, "carrierName"@, "TEXT"@),
        altered("stations"@, "controllingFaction"@, "TEXT"@),
        altered("stations"@, "controllingFactionState"@, "TEXT"@),
        altered("stations"@, "state"@, "TEXT"@),
        altered("stations"@, "latitude"@, "REAL"@),
        altered("stations"@, "longitude"@, "REAL"@),
        altered("stations"@, "landingPads"@, "TEXT"@),
        altered("stations"@, "carrierDockingAccess"@, "TEXT"@),
        altered("stations"@, "economies"@, "TEXT"@),
        altered("stations"@, "market"@, "TEXT"@),
        altered("stations"@, "shipyard"@, "TEXT"@),
    ]
}

fn put_station_columns_a(s: &mut Statements)
    ensures
        final(s)@ == old(s)@ + station_columns_a(),
{
    let ghost before = s@;
    s.column("stations", "realName", "TEXT");
    s.column("stations", "carrierName", "TEXT");
    s.column("stations", "controllingFaction", "TEXT");
    s.column("stations", "controllingFactionState", "TEXT");
    s.column("stations", "state", "TEXT");
    s.column("stations", "latitude", "REAL");
    s.column("stations", "longitude", "REAL");
    s.column("stations", "landingPads", "TEXT");
    s.column("stations", "carrierDockingAccess", "TEXT");
    s.column("stations", "economies", "TEXT");
    s.column("stations", "market", "TEXT");
    s.column("stations", "shipyard", "TEXT");
    assert(s@ =~= before + station_columns_a());
}

/// Statements that add columns to the table of stations.
pub open spec fn station_columns_b() -> Seq<Seq<char>> {
    seq![
        altered("stations"@, "outfitting"@, "TEXT"@),
    ]
}

fn put_station_columns_b(s: &mut Statements)
    ensures
        final(s)@ == old(s)@ + station_columns_b(),
{
    let ghost before = s@;
    s.column("stations", "outfitting", "TEXT");
    assert(s@ =~= before + station_columns_b());
}

/// The statements that bring the tables of an older database up to date.
pub open spec fn migration_texts() -> Seq<Seq<char>> {
    system_columns_a() + system_columns_b() + body_columns_a() + body_columns_b() + station_columns_a() + station_columns_b()
}

/// The statements that bring the tables of an older database up to date. Each
/// may fail where the column is there already.
pub fn migrations() -> (r: Vec<String>)
    ensures
        text::texts(r@) == migration_texts(),
{
    let mut s = Statements { list: Vec::new() };
    assert(s@ =~= Seq::<Seq<char>>::empty());
    put_system_columns_a(&mut s);
    put_system_columns_b(&mut s);
    put_body_columns_a(&mut s);
    put_body_columns_b(&mut s);
    put_station_columns_a(&mut s);
    put_station_columns_b(&mut s);
    assert(s@ =~= migration_texts());
    s.list
}

/// A value that goes into the database.
pub enum Param {
    Null,
    Int(i64),
    /// A number as a double.
    Double(Num),
    /// A number as a double, rounded to an integer.
    Rounded(Num),
    Text(String),
    /// A JSON value as text.
    JsonText(Json),
}

/// A value that goes into the database, as mathematics.
pub enum ParamView {
    Null,
    Int(i64),
    Double(Num),
    Rounded(Num),
    Text(Seq<char>),
    JsonText(JsonView),
}

impl Param {
    pub open spec fn view(&self) -> ParamView {
        match self {
            Param::Null => ParamView::Null,
            Param::Int(i) => ParamView::Int(*i),
            Param::Double(n) => ParamView::Double(*n),
            Param::Rounded(n) => ParamView::Rounded(*n),
            Param::Text(s) => ParamView::Text(s@),
            Param::JsonText(j) => ParamView::JsonText(j@),
        }
    }
}

/// The views of values that go into the database.
pub open spec fn param_views(v: Seq<Param>) -> Seq<ParamView> {
    v.map_values(|p: Param| p@)
}

pub open spec fn int_param(i: Option<i64>) -> ParamView {
    match i {
        Some(i) => ParamView::Int(i),
        None => ParamView::Null,
    }
}

pub open spec fn double_param(n: Option<Num>) -> ParamView {
    match n {
        Some(n) => ParamView::Double(n),
        None => ParamView::Null,
    }
}

pub open spec fn text_param(s: Option<Seq<char>>) -> ParamView {
    match s {
        Some(t) => ParamView::Text(t),
        None => ParamView::Null,
    }
}

pub open spec fn json_param(v: Option<JsonView>) -> ParamView {
    match v {
        Some(j) => ParamView::JsonText(j),
        None => ParamView::Null,
    }
}

/// A row that is being built.
struct Row {
    params: Vec<Param>,
}

impl Row {
    spec fn view(&self) -> Seq<ParamView> {
        param_views(self.params@)
    }

    fn new() -> (r: Row)
        ensures
            r@ == Seq::<ParamView>::empty(),
    {
        let r = Row { params: Vec::new() };
        assert(r@ =~= Seq::<ParamView>::empty());
        r
    }

    fn push(&mut self, p: Param)
        ensures
            final(self)@ == old(self)@.push(p@),
    {
        let ghost before = self@;
        self.params.push(p);
        assert(self@ =~= before.push(p@));
    }

    fn integer(&mut self, i: Option<i64>)
        ensures
            final(self)@ == old(self)@.push(int_param(i)),
    {
        match i {
            Some(i) => self.push(Param::Int(i)),
            None => self.push(Param::Null),
        }
    }

    fn double(&mut self, n: Option<Num>)
        ensures
            final(self)@ == old(self)@.push(double_param(n)),
    {
        match n {
            Some(n) => self.push(Param::Double(n)),
            None => self.push(Param::Null),
        }
    }

    fn text(&mut self, s: Option<&str>)
        ensures
            final(self)@ == old(self)@.push(text_param(json::slice_view(s))),
    {
        match s {
            Some(t) => self.push(Param::Text(t.to_owned())),
            None => self.push(Param::Null),
        }
    }

    fn string(&mut self, s: &Option<String>)
        ensures
            final(self)@ == old(self)@.push(text_param(json::text_view(*s))),
    {
        match s {
            Some(t) => self.push(Param::Text(t.clone())),
            None => self.push(Param::Null),
        }
    }

    fn json(&mut self, v: Option<&Json>)
        ensures
            final(self)@ == old(self)@.push(json_param(json::unless_null(json::ref_view(v)))),
    {
        match v {
            Some(j) => {
                if j.is_null() {
                    self.push(Param::Null);
                } else {
                    self.push(Param::JsonText(j.copy()));
                }
            },
            None => self.push(Param::Null),
        }
    }

    fn json_part(&mut self, v: &Option<Json>)
        ensures
            final(self)@ == old(self)@.push(json_param(json::unless_null(json::json_view(*v)))),
    {
        match v {
            Some(j) => self.json(Some(j)),
            None => self.push(Param::Null),
        }
    }
}

/// The integer of a member.
pub fn get_i64(v: &Json, k: &str) -> (r: Option<i64>)
    ensures
        r == json::i64_in(json::field(v@, k@)),
{
    match v.get(k) {
        Some(x) => x.as_i64(),
        None => None,
    }
}

/// The number of a member, to be taken as a double.
pub fn get_f64(v: &Json, k: &str) -> (r: Option<Num>)
    ensures
        r == json::num_in(json::field(v@, k@)),
{
    match v.get(k) {
        Some(x) => x.as_num(),
        None => None,
    }
}

/// The text of a member.
pub fn get_str<'a>(v: &'a Json, k: &str) -> (r: Option<&'a str>)
    ensures
        json::slice_view(r) == json::str_in(json::field(v@, k@)),
{
    match v.get(k) {
        Some(x) => x.as_str(),
        None => None,
    }
}

/// The truth value of a member as 1 or 0; 0 where there is none.
pub fn get_bool(v: &Json, k: &str) -> (r: i32)
    ensures
        r == (if json::bool_in(json::field(v@, k@)) == Some(true) {
            1int
        } else {
            0int
        }),
{
    match v.get(k) {
        Some(x) => match x.as_bool() {
            Some(b) => if b {
                1
            } else {
                0
            },
            None => 0,
        },
        None => 0,
    }
}

/// A truth value as 1 or 0, or an integer cut to 32 bits.
pub open spec fn flag(v: Option<JsonView>) -> Option<i32> {
    match json::bool_in(v) {
        Some(b) => Some(
            if b {
                1i32
            } else {
                0i32
            },
        ),
        None => match json::i64_in(v) {
            Some(i) => Some(i as i32),
            None => None,
        },
    }
}

/// The truth value of a member as 1 or 0, or its integer cut to 32 bits.
pub fn get_bool_opt(v: &Json, k: &str) -> (r: Option<i32>)
    ensures
        r == flag(json::field(v@, k@)),
{
    match v.get(k) {
        Some(x) => match x.as_bool() {
            Some(b) => Some(
                if b {
                    1
                } else {
                    0
                },
            ),
            None => match x.as_i64() {
                Some(i) => Some(#[verifier::truncate] (i as i32)),
                None => None,
            },
        },
        None => None,
    }
}

/// A government that keeps a prison has `rison` in its name, whatever the case.
pub open spec fn is_prison(government: Option<Seq<char>>) -> bool {
    match government {
        Some(g) => text::occurs(text::ascii_lower_all(g), "rison"@),
        None => false,
    }
}

fn names_prison(government: Option<&str>) -> (r: bool)
    ensures
        r == is_prison(json::slice_view(government)),
{
    match government {
        Some(g) => contains(&to_ascii_lower(g), "rison"),
        None => false,
    }
}

/// The row of a system.
pub open spec fn system_row(sys: SystemView, now: i64) -> Seq<ParamView> {
    seq![
        ParamView::Int(sys.id64),
        ParamView::Text(sys.name),
        ParamView::Int(
            match sys.population {
                Some(p) => p,
                None => 0,
            },
        ),
        ParamView::Int(now),
        text_param(sys.allegiance),
        text_param(sys.government),
        text_param(sys.primary_economy),
        text_param(sys.secondary_economy),
        text_param(sys.security),
        int_param(sys.body_count),
        text_param(sys.date),
        json_param(json::unless_null(sys.controlling_faction)),
        json_param(json::unless_null(sys.factions)),
        text_param(sys.power_state),
        json_param(json::unless_null(sys.powers)),
        text_param(sys.controlling_power),
        double_param(sys.power_state_control_progress),
        double_param(sys.power_state_reinforcement),
        double_param(sys.power_state_undermining),
        json_param(json::unless_null(sys.power_conflict_progress)),
        json_param(json::unless_null(sys.thargoid_war)),
    ]
}

/// A copy of an optional number.
fn copy_num(n: &Option<Num>) -> (r: Option<Num>)
    ensures
        r == *n,
{
    match n {
        Some(x) => Some(x.copy()),
        None => None,
    }
}

/// The row of a system.
pub fn system_params(sys: &SpanshSystem, now: i64) -> (r: Vec<Param>)
    ensures
        param_views(r@) == system_row(sys@, now),
{
    let mut row = Row::new();
    row.push(Param::Int(sys.id64));
    row.push(Param::Text(sys.name.clone()));
    row.push(
        Param::Int(
            match sys.population {
                Some(p) => p,
                None => 0,
            },
        ),
    );
    row.push(Param::Int(now));
    row.string(&sys.allegiance);
    row.string(&sys.government);
    row.string(&sys.primary_economy);
    row.string(&sys.secondary_economy);
    row.string(&sys.security);
    row.integer(sys.body_count);
    row.string(&sys.date);
    row.json_part(&sys.controlling_faction);
    row.json_part(&sys.factions);
    row.string(&sys.power_state);
    row.json_part(&sys.powers);
    row.string(&sys.controlling_power);
    row.double(copy_num(&sys.power_state_control_progress));
    row.double(copy_num(&sys.power_state_reinforcement));
    row.double(copy_num(&sys.power_state_undermining));
    row.json_part(&sys.power_conflict_progress);
    row.json_part(&sys.thargoid_war);
    row.params
}

/// The temperature of a body's surface: an integer as it stands, another
/// number rounded.
pub open spec fn temperature(b: JsonView) -> ParamView {
    let v = json::field(b, "surfaceTemperature"@);
    match json::i64_in(v) {
        Some(i) => ParamView::Int(i),
        None => match json::num_in(v) {
            Some(n) => ParamView::Rounded(n),
            None => ParamView::Null,
        },
    }
}

/// The first of two members that is there.
pub open spec fn either_field(b: JsonView, first: Seq<char>, second: Seq<char>) -> Option<JsonView> {
    match json::field(b, first) {
        Some(v) => Some(v),
        None => json::field(b, second),
    }
}

/// The first of two numbers that is there.
pub open spec fn either_num(b: JsonView, first: Seq<char>, second: Seq<char>) -> Option<Num> {
    match json::num_in(json::field(b, first)) {
        Some(n) => Some(n),
        None => json::num_in(json::field(b, second)),
    }
}

/// An integer as it stands, a truth value as 1 or 0.
pub open spec fn known_flag(v: Option<JsonView>) -> Option<i64> {
    match json::i64_in(v) {
        Some(i) => Some(i),
        None => match flag(v) {
            Some(f) => Some(f as i64),
            None => None,
        },
    }
}

/// A truth value as 1 or 0; null where there is none, so that what is known
/// stays.
pub open spec fn yes_no(v: Option<JsonView>) -> ParamView {
    match json::bool_in(v) {
        Some(b) => one_if(b),
        None => ParamView::Null,
    }
}

/// The row of a body.
pub open spec fn body_row(id64: i64, b: JsonView) -> Seq<ParamView> {
    body_row_a(id64, b) + body_row_b(id64, b) + body_row_c(id64, b) + body_row_d(id64, b) + body_row_e(id64, b)
}

/// Some columns of that row.
pub open spec fn body_row_a(id64: i64, b: JsonView) -> Seq<ParamView> {
    seq![
        ParamView::Int(id64),
        int_param(json::i64_in(json::field(b, "bodyId"@))),
        text_param(json::str_in(json::field(b, "name"@))),
        text_param(json::str_in(json::field(b, "type"@))),
        text_param(json::str_in(json::field(b, "subType"@))),
        double_param(json::num_in(json::field(b, "distanceToArrival"@))),
        yes_no(json::field(b, "isLandable"@)),
        double_param(json::num_in(json::field(b, "gravity"@))),
        double_param(json::num_in(json::field(b, "earthMasses"@))),
        double_param(json::num_in(json::field(b, "radius"@))),
    ]
}

/// Some columns of that row.
pub open spec fn body_row_b(id64: i64, b: JsonView) -> Seq<ParamView> {
    seq![
        temperature(b),
        double_param(json::num_in(json::field(b, "orbitalPeriod"@))),
        double_param(json::num_in(json::field(b, "semiMajorAxis"@))),
        double_param(json::num_in(json::field(b, "orbitalEccentricity"@))),
        double_param(json::num_in(json::field(b, "orbitalInclination"@))),
        double_param(json::num_in(json::field(b, "argOfPeriapsis"@))),
        double_param(json::num_in(json::field(b, "rotationalPeriod"@))),
        yes_no(json::field(b, "rotationalPeriodTidallyLocked"@)),
        double_param(json::num_in(json::field(b, "axialTilt"@))),
        text_param(json::str_in(json::field(b, "volcanismType"@))),
    ]
}

/// Some columns of that row.
pub open spec fn body_row_c(id64: i64, b: JsonView) -> Seq<ParamView> {
    seq![
        text_param(json::str_in(json::field(b, "atmosphereType"@))),
        text_param(json::str_in(json::field(b, "terraformingState"@))),
        double_param(either_num(b, "solarMasses"@, "stellarMass"@)),
        double_param(json::num_in(json::field(b, "absoluteMagnitude"@))),
        int_param(json::i64_in(json::field(b, "age"@))),
        text_param(json::str_in(json::field(b, "luminosity"@))),
        int_param(json::i64_in(json::field(b, "subclass"@))),
        double_param(json::num_in(json::field(b, "surfacePressure"@))),
        json_param(json::unless_null(json::field(b, "atmosphereComposition"@))),
        json_param(json::unless_null(either_field(b, "solidComposition"@, "composition"@))),
    ]
}

/// Some columns of that row.
pub open spec fn body_row_d(id64: i64, b: JsonView) -> Seq<ParamView> {
    seq![
        json_param(json::unless_null(json::field(b, "rings"@))),
        json_param(json::unless_null(json::field(b, "parents"@))),
        int_param(known_flag(json::field(b, "wasDiscovered"@))),
        int_param(known_flag(json::field(b, "wasMapped"@))),
        double_param(json::num_in(json::field(b, "ascendingNode"@))),
        double_param(json::num_in(json::field(b, "meanAnomaly"@))),
        json_param(json::unless_null(json::field(b, "signals"@))),
        int_param(json::i64_in(json::field(b, "id64"@))),
        int_param(
            match flag(json::field(b, "mainStar"@)) {
                Some(f) => Some(f as i64),
                None => None,
            },
        ),
        text_param(json::str_in(json::field(b, "spectralClass"@))),
    ]
}

/// Some columns of that row.
pub open spec fn body_row_e(id64: i64, b: JsonView) -> Seq<ParamView> {
    seq![
        double_param(json::num_in(json::field(b, "solarRadius"@))),
        json_param(json::unless_null(json::field(b, "materials"@))),
        text_param(json::str_in(json::field(b, "reserveLevel"@))),
        json_param(json::unless_null(json::field(b, "belts"@))),
        text_param(json::str_in(json::field(b, "updateTime"@))),
    ]
}

fn put_temperature(row: &mut Row, b: &Json)
    ensures
        final(row)@ == old(row)@.push(temperature(b@)),
{
    match get_i64(b, "surfaceTemperature") {
        Some(i) => row.push(Param::Int(i)),
        None => match get_f64(b, "surfaceTemperature") {
            Some(n) => row.push(Param::Rounded(n)),
            None => row.push(Param::Null),
        },
    }
}

fn put_yes_no(row: &mut Row, b: &Json, key: &str)
    ensures
        final(row)@ == old(row)@.push(yes_no(json::field(b@, key@))),
{
    let said = match b.get(key) {
        Some(v) => v.as_bool(),
        None => None,
    };
    match said {
        Some(_) => row.push(Param::Int(get_bool(b, key) as i64)),
        None => row.push(Param::Null),
    }
}

fn put_known_flag(row: &mut Row, b: &Json, key: &str)
    ensures
        final(row)@ == old(row)@.push(int_param(known_flag(json::field(b@, key@)))),
{
    match get_i64(b, key) {
        Some(i) => row.integer(Some(i)),
        None => match get_bool_opt(b, key) {
            Some(f) => row.integer(Some(f as i64)),
            None => row.integer(None),
        },
    }
}

fn put_body_row_a(row: &mut Row, id64: i64, b: &Json)
    ensures
        final(row)@ == old(row)@ + body_row_a(id64, b@),
{
    let ghost before = row@;
    row.push(Param::Int(id64));
    row.integer(get_i64(b, "bodyId"));
    row.text(get_str(b, "name"));
    row.text(get_str(b, "type"));
    row.text(get_str(b, "subType"));
    row.double(get_f64(b, "distanceToArrival"));
    put_yes_no(row, b, "isLandable");
    row.double(get_f64(b, "gravity"));
    row.double(get_f64(b, "earthMasses"));
    row.double(get_f64(b, "radius"));
    assert(row@ =~= before + body_row_a(id64, b@));
}

fn put_body_row_b(row: &mut Row, id64: i64, b: &Json)
    ensures
        final(row)@ == old(row)@ + body_row_b(id64, b@),
{
    let ghost before = row@;
    put_temperature(row, b);
    row.double(get_f64(b, "orbitalPeriod"));
    row.double(get_f64(b, "semiMajorAxis"));
    row.double(get_f64(b, "orbitalEccentricity"));
    row.double(get_f64(b, "orbitalInclination"));
    row.double(get_f64(b, "argOfPeriapsis"));
    row.double(get_f64(b, "rotationalPeriod"));
    put_yes_no(row, b, "rotationalPeriodTidallyLocked");
    row.double(get_f64(b, "axialTilt"));
    row.text(get_str(b, "volcanismType"));
    assert(row@ =~= before + body_row_b(id64, b@));
}

fn put_body_row_c(row: &mut Row, id64: i64, b: &Json)
    ensures
        final(row)@ == old(row)@ + body_row_c(id64, b@),
{
    let ghost before = row@;
    let mass = match get_f64(b, "solarMasses") {
        Some(n) => Some(n),
        None => get_f64(b, "stellarMass"),
    };
    let solid = match b.get("solidComposition") {
        Some(c) => Some(c),
        None => b.get("composition"),
    };
    row.text(get_str(b, "atmosphereType"));
    row.text(get_str(b, "terraformingState"));
    row.double(mass);
    row.double(get_f64(b, "absoluteMagnitude"));
    row.integer(get_i64(b, "age"));
    row.text(get_str(b, "luminosity"));
    row.integer(get_i64(b, "subclass"));
    row.double(get_f64(b, "surfacePressure"));
    row.json(b.get("atmosphereComposition"));
    row.json(solid);
    assert(row@ =~= before + body_row_c(id64, b@));
}

fn put_body_row_d(row: &mut Row, id64: i64, b: &Json)
    ensures
        final(row)@ == old(row)@ + body_row_d(id64, b@),
{
    let ghost before = row@;
    row.json(b.get("rings"));
    row.json(b.get("parents"));
    put_known_flag(row, b, "wasDiscovered");
    put_known_flag(row, b, "wasMapped");
    row.double(get_f64(b, "ascendingNode"));
    row.double(get_f64(b, "meanAnomaly"));
    row.json(b.get("signals"));
    row.integer(get_i64(b, "id64"));
    row.integer(
        match get_bool_opt(b, "mainStar") {
            Some(f) => Some(f as i64),
            None => None,
        },
    );
    row.text(get_str(b, "spectralClass"));
    assert(row@ =~= before + body_row_d(id64, b@));
}

fn put_body_row_e(row: &mut Row, id64: i64, b: &Json)
    ensures
        final(row)@ == old(row)@ + body_row_e(id64, b@),
{
    let ghost before = row@;
    row.double(get_f64(b, "solarRadius"));
    row.json(b.get("materials"));
    row.text(get_str(b, "reserveLevel"));
    row.json(b.get("belts"));
    row.text(get_str(b, "updateTime"));
    assert(row@ =~= before + body_row_e(id64, b@));
}

/// The row of a body.
pub fn body_params(id64: i64, b: &Json) -> (r: Vec<Param>)
    ensures
        param_views(r@) == body_row(id64, b@),
{
    let mut row = Row::new();
    put_body_row_a(&mut row, id64, b);
    put_body_row_b(&mut row, id64, b);
    put_body_row_c(&mut row, id64, b);
    put_body_row_d(&mut row, id64, b);
    put_body_row_e(&mut row, id64, b);
    assert(row@ =~= body_row(id64, b@));
    row.params
}

/// What the services of a station say: whether it has a market, a shipyard and
/// outfitting, and the other services. Docks are not counted among them.
pub struct Services {
    pub market: bool,
    pub shipyard: bool,
    pub outfitting: bool,
    pub other: Vec<String>,
}

/// What the services of a station say, as mathematics.
#[verifier::ext_equal]
pub struct ServicesView {
    pub market: bool,
    pub shipyard: bool,
    pub outfitting: bool,
    pub other: Seq<Seq<char>>,
}

impl Services {
    pub open spec fn view(&self) -> ServicesView {
        ServicesView {
            market: self.market,
            shipyard: self.shipyard,
            outfitting: self.outfitting,
            other: text::texts(self.other@),
        }
    }
}

/// What the first `n` services say.
pub open spec fn services_of(list: Seq<JsonView>, n: int) -> ServicesView
    decreases n,
{
    if n <= 0 {
        ServicesView { market: false, shipyard: false, outfitting: false, other: Seq::empty() }
    } else {
        let s = services_of(list, n - 1);
        match json::str_in(Some(list[n - 1])) {
            Some(t) => if t == "Market"@ {
                ServicesView { market: true, ..s }
            } else if t == "Shipyard"@ {
                ServicesView { shipyard: true, ..s }
            } else if t == "Outfitting"@ {
                ServicesView { outfitting: true, ..s }
            } else if t == "Dock"@ || t == "Autodock"@ {
                s
            } else {
                ServicesView { other: s.other.push(t), ..s }
            },
            None => s,
        }
    }
}

/// What the services of a station say.
pub open spec fn station_services(st: JsonView) -> ServicesView {
    match json::field(st, "services"@) {
        Some(JsonView::Arr(a)) => services_of(a, a.len() as int),
        _ => services_of(Seq::empty(), 0),
    }
}

/// What the services of a station say.
pub fn classify_services(st: &Json) -> (r: Services)
    ensures
        r@ == station_services(st@),
{
    let mut r = Services {
        market: false,
        shipyard: false,
        outfitting: false,
        other: Vec::new(),
    };
    assert(r@ =~= services_of(Seq::empty(), 0));
    match st.get("services") {
        Some(Json::Arr(a)) => {
            proof {
                json::lemma_views(a@);
            }
            assert(r@ =~= services_of(json::views(a@), 0));
            for i in 0..a.len()
                invariant
                    json::views(a@).len() == a.len(),
                    forall|i: int| 0 <= i < a.len() ==> #[trigger] json::views(a@)[i] == a@[i]@,
                    r@ == services_of(json::views(a@), i as int),
            {
                let ghost before = r@;
                assert(json::views(a@)[i as int] == a@[i as int]@);
                match a[i].as_str() {
                    Some(t) => {
                        if same(t, "Market") {
                            r.market = true;
                        } else if same(t, "Shipyard") {
                            r.shipyard = true;
                        } else if same(t, "Outfitting") {
                            r.outfitting = true;
                        } else if !same(t, "Dock") && !same(t, "Autodock") {
                            r.other.push(t.to_owned());
                            assert(r@.other =~= before.other.push(t@));
                        }
                    },
                    None => {},
                }
                assert(r@ =~= services_of(json::views(a@), i + 1));
            }
        },
        _ => {},
    }
    r
}

/// The JSON text of a list of strings.
pub uninterp spec fn strings_text(v: Seq<Seq<char>>) -> Seq<char>;

/// The list of strings that a JSON text holds; `None` where it holds no such
/// list.
pub uninterp spec fn strings_read(s: Seq<char>) -> Option<Seq<Seq<char>>>;

/// The texts of an optional list of strings.
pub open spec fn texts_view(v: Option<Vec<String>>) -> Option<Seq<Seq<char>>> {
    match v {
        Some(l) => Some(text::texts(l@)),
        None => None,
    }
}

/// `serde_json::to_string` of a list of strings. It never fails on one; its
/// text is named, and reads back as the list.
#[verifier::external_body]
pub(crate) fn write_strings(v: &Vec<String>) -> (r: Option<String>)
    ensures
        json::text_view(r) == Some(strings_text(text::texts(v@))),
        r matches Some(s) ==> strings_read(s@) == Some(text::texts(v@)),
{
    serde_json::to_string(v).ok()
}

/// `serde_json::from_str` of a list of strings; its result is named.
#[verifier::external_body]
pub(crate) fn read_strings(s: &str) -> (r: Option<Vec<String>>)
    ensures
        texts_view(r) == strings_read(s@),
{
    serde_json::from_str::<Vec<String>>(s).ok()
}

/// A truth value as 1 or 0.
pub open spec fn one_if(b: bool) -> ParamView {
    ParamView::Int(
        if b {
            1
        } else {
            0
        },
    )
}

/// The row of a station.
pub open spec fn station_row(id64: i64, st: JsonView) -> Seq<ParamView> {
    station_row_a(id64, st) + station_row_b(id64, st) + station_row_c(id64, st)
}

/// Some columns of that row.
pub open spec fn station_row_a(id64: i64, st: JsonView) -> Seq<ParamView> {
    seq![
        int_param(json::i64_in(json::field(st, "id"@))),
        int_param(json::i64_in(json::field(st, "marketId"@))),
        ParamView::Int(id64),
        text_param(json::str_in(json::field(st, "name"@))),
        text_param(json::str_in(json::field(st, "type"@))),
        double_param(json::num_in(json::field(st, "distanceToArrival"@))),
        text_param(json::str_in(json::field(st, "allegiance"@))),
        text_param(json::str_in(json::field(st, "government"@))),
        text_param(json::str_in(json::field(st, "primaryEconomy"@))),
        text_param(json::str_in(json::field(st, "secondaryEconomy"@))),
    ]
}

/// Some columns of that row.
pub open spec fn station_row_b(id64: i64, st: JsonView) -> Seq<ParamView> {
    let services = station_services(st);
    seq![
        one_if(services.market),
        one_if(services.shipyard),
        one_if(services.outfitting),
        ParamView::Text(strings_text(services.other)),
        text_param(json::str_in(json::field(st, "updateTime"@))),
        text_param(json::str_in(json::field(st, "realName"@))),
        text_param(json::str_in(json::field(st, "carrierName"@))),
        text_param(json::str_in(json::field(st, "controllingFaction"@))),
        text_param(json::str_in(json::field(st, "controllingFactionState"@))),
        text_param(json::str_in(json::field(st, "state"@))),
    ]
}

/// Some columns of that row.
pub open spec fn station_row_c(id64: i64, st: JsonView) -> Seq<ParamView> {
    seq![
        double_param(json::num_in(json::field(st, "latitude"@))),
        double_param(json::num_in(json::field(st, "longitude"@))),
        json_param(json::unless_null(json::field(st, "landingPads"@))),
        text_param(json::str_in(json::field(st, "carrierDockingAccess"@))),
        json_param(json::unless_null(json::field(st, "economies"@))),
        json_param(json::unless_null(json::field(st, "market"@))),
        json_param(json::unless_null(json::field(st, "shipyard"@))),
        json_param(json::unless_null(json::field(st, "outfitting"@))),
    ]
}

fn flag_param(b: bool) -> (r: Param)
    ensures
        r@ == one_if(b),
{
    Param::Int(
        if b {
            1
        } else {
            0
        },
    )
}

fn put_station_row_a(row: &mut Row, id64: i64, st: &Json)
    ensures
        final(row)@ == old(row)@ + station_row_a(id64, st@),
{
    let ghost before = row@;
    row.integer(get_i64(st, "id"));
    row.integer(get_i64(st, "marketId"));
    row.push(Param::Int(id64));
    row.text(get_str(st, "name"));
    row.text(get_str(st, "type"));
    row.double(get_f64(st, "distanceToArrival"));
    row.text(get_str(st, "allegiance"));
    row.text(get_str(st, "government"));
    row.text(get_str(st, "primaryEconomy"));
    row.text(get_str(st, "secondaryEconomy"));
    assert(row@ =~= before + station_row_a(id64, st@));
}

fn put_station_row_b(row: &mut Row, id64: i64, st: &Json, services: &Services, other: String)
    requires
        services@ == station_services(st@),
        other@ == strings_text(station_services(st@).other),
    ensures
        final(row)@ == old(row)@ + station_row_b(id64, st@),
{
    let ghost before = row@;
    row.push(flag_param(services.market));
    row.push(flag_param(services.shipyard));
    row.push(flag_param(services.outfitting));
    row.push(Param::Text(other));
    row.text(get_str(st, "updateTime"));
    row.text(get_str(st, "realName"));
    row.text(get_str(st, "carrierName"));
    row.text(get_str(st, "controllingFaction"));
    row.text(get_str(st, "controllingFactionState"));
    row.text(get_str(st, "state"));
    assert(row@ =~= before + station_row_b(id64, st@));
}

fn put_station_row_c(row: &mut Row, id64: i64, st: &Json)
    ensures
        final(row)@ == old(row)@ + station_row_c(id64, st@),
{
    let ghost before = row@;
    row.double(get_f64(st, "latitude"));
    row.double(get_f64(st, "longitude"));
    row.json(st.get("landingPads"));
    row.text(get_str(st, "carrierDockingAccess"));
    row.json(st.get("economies"));
    row.json(st.get("market"));
    row.json(st.get("shipyard"));
    row.json(st.get("outfitting"));
    assert(row@ =~= before + station_row_c(id64, st@));
}

/// The row of a station. The text of its other services reads back as these
/// services.
pub fn station_params(id64: i64, st: &Json) -> (r: Vec<Param>)
    ensures
        param_views(r@) == station_row(id64, st@),
        param_views(r@)[13] == ParamView::Text(strings_text(station_services(st@).other)),
        strings_read(strings_text(station_services(st@).other)) == Some(
            station_services(st@).other,
        ),
{
    let services = classify_services(st);
    let other = match write_strings(&services.other) {
        Some(t) => t,
        None => "[]".to_owned(),
    };
    let mut row = Row::new();
    put_station_row_a(&mut row, id64, st);
    put_station_row_b(&mut row, id64, st, &services, other);
    put_station_row_c(&mut row, id64, st);
    assert(row@ =~= station_row(id64, st@));
    row.params
}

/// One statement of the writer.
pub enum Write {
    System(Vec<Param>),
    Index(Vec<Param>),
    Body(Vec<Param>),
    Neutron(i64),
    Station(Vec<Param>),
    Prison(i64),
}

/// One statement of the writer, as mathematics.
pub enum WriteView {
    System(Seq<ParamView>),
    Index(Seq<ParamView>),
    Body(Seq<ParamView>),
    Neutron(i64),
    Station(Seq<ParamView>),
    Prison(i64),
}

impl Write {
    pub open spec fn view(&self) -> WriteView {
        match self {
            Write::System(p) => WriteView::System(param_views(p@)),
            Write::Index(p) => WriteView::Index(param_views(p@)),
            Write::Body(p) => WriteView::Body(param_views(p@)),
            Write::Neutron(i) => WriteView::Neutron(*i),
            Write::Station(p) => WriteView::Station(param_views(p@)),
            Write::Prison(i) => WriteView::Prison(*i),
        }
    }

    /// Whether the batch fails where this statement fails; other statements
    /// are passed over.
    pub fn is_required(&self) -> (r: bool)
        ensures
            r == (self@ is System || self@ is Index),
    {
        match self {
            Write::System(_) => true,
            Write::Index(_) => true,
            _ => false,
        }
    }
}

/// The views of the statements of the writer.
pub open spec fn write_views(v: Seq<Write>) -> Seq<WriteView> {
    v.map_values(|w: Write| w@)
}

/// The place of a system in space.
pub open spec fn index_row(sys: SystemView) -> Seq<ParamView> {
    let c = sys.coords->0;
    seq![
        ParamView::Int(sys.id64),
        ParamView::Double(c.x),
        ParamView::Double(c.x),
        ParamView::Double(c.y),
        ParamView::Double(c.y),
        ParamView::Double(c.z),
        ParamView::Double(c.z),
    ]
}

/// The statements for the first `n` bodies of a system: its row, and a mark
/// where it is a neutron star.
pub open spec fn body_writes(id64: i64, bodies: Seq<JsonView>, n: int) -> Seq<WriteView>
    decreases n,
{
    if n <= 0 {
        Seq::empty()
    } else {
        let b = bodies[n - 1];
        let w = body_writes(id64, bodies, n - 1).push(WriteView::Body(body_row(id64, b)));
        if json::str_in(json::field(b, "subType"@)) == Some("Neutron Star"@) {
            w.push(WriteView::Neutron(id64))
        } else {
            w
        }
    }
}

/// The statements for the first `n` stations of a system: its row, and a mark
/// where its government keeps a prison.
pub open spec fn station_writes(id64: i64, stations: Seq<JsonView>, n: int) -> Seq<WriteView>
    decreases n,
{
    if n <= 0 {
        Seq::empty()
    } else {
        let st = stations[n - 1];
        let w = station_writes(id64, stations, n - 1).push(
            WriteView::Station(station_row(id64, st)),
        );
        if is_prison(json::str_in(json::field(st, "government"@))) {
            w.push(WriteView::Prison(id64))
        } else {
            w
        }
    }
}

/// The statements for the values of an optional array.
pub open spec fn all_bodies(id64: i64, bodies: Option<Seq<JsonView>>) -> Seq<WriteView> {
    match bodies {
        Some(b) => body_writes(id64, b, b.len() as int),
        None => Seq::empty(),
    }
}

/// The statements for the values of an optional array.
pub open spec fn all_stations(id64: i64, stations: Option<Seq<JsonView>>) -> Seq<WriteView> {
    match stations {
        Some(s) => station_writes(id64, s, s.len() as int),
        None => Seq::empty(),
    }
}

/// The statements that a system becomes, in order: its row, a mark where its
/// government keeps a prison, its place, its bodies and its stations.
pub open spec fn system_writes(sys: SystemView, now: i64) -> Seq<WriteView> {
    let w = seq![WriteView::System(system_row(sys, now))];
    let w = if is_prison(sys.government) {
        w.push(WriteView::Prison(sys.id64))
    } else {
        w
    };
    let w = if sys.coords is Some {
        w.push(WriteView::Index(index_row(sys)))
    } else {
        w
    };
    w + all_bodies(sys.id64, sys.bodies) + all_stations(sys.id64, sys.stations)
}

/// Statements of the writer that are being collected.
struct Writes {
    list: Vec<Write>,
}

impl Writes {
    spec fn view(&self) -> Seq<WriteView> {
        write_views(self.list@)
    }

    fn push(&mut self, w: Write)
        ensures
            final(self)@ == old(self)@.push(w@),
    {
        let ghost before = self@;
        self.list.push(w);
        assert(self@ =~= before.push(w@));
    }

    fn bodies(&mut self, id64: i64, bodies: &Vec<Json>)
        ensures
            final(self)@ == old(self)@ + body_writes(
                id64,
                json::views(bodies@),
                bodies@.len() as int,
            ),
    {
        let ghost before = self@;
        let ghost views = json::views(bodies@);
        proof {
            json::lemma_views(bodies@);
            assert(self@ =~= before + body_writes(id64, views, 0));
        }
        for i in 0..bodies.len()
            invariant
                views == json::views(bodies@),
                forall|i: int| 0 <= i < bodies.len() ==> #[trigger] views[i] == bodies@[i]@,
                self@ == before + body_writes(id64, views, i as int),
        {
            let b = &bodies[i];
            assert(views[i as int] == bodies@[i as int]@);
            self.push(Write::Body(body_params(id64, b)));
            match get_str(b, "subType") {
                Some(t) => {
                    if same(t, "Neutron Star") {
                        self.push(Write::Neutron(id64));
                    }
                },
                None => {},
            }
            assert(self@ =~= before + body_writes(id64, views, i + 1));
        }
    }

    fn stations(&mut self, id64: i64, stations: &Vec<Json>)
        ensures
            final(self)@ == old(self)@ + station_writes(
                id64,
                json::views(stations@),
                stations@.len() as int,
            ),
    {
        let ghost before = self@;
        let ghost views = json::views(stations@);
        proof {
            json::lemma_views(stations@);
            assert(self@ =~= before + station_writes(id64, views, 0));
        }
        for i in 0..stations.len()
            invariant
                views == json::views(stations@),
                forall|i: int| 0 <= i < stations.len() ==> #[trigger] views[i] == stations@[i]@,
                self@ == before + station_writes(id64, views, i as int),
        {
            let st = &stations[i];
            assert(views[i as int] == stations@[i as int]@);
            self.push(Write::Station(station_params(id64, st)));
            if names_prison(get_str(st, "government")) {
                self.push(Write::Prison(id64));
            }
            assert(self@ =~= before + station_writes(id64, views, i + 1));
        }
    }
}

/// The place of a system in space.
fn index_params(sys: &SpanshSystem) -> (r: Vec<Param>)
    requires
        sys.coords is Some,
    ensures
        param_views(r@) == index_row(sys@),
{
    let mut row = Row::new();
    match &sys.coords {
        Some(c) => {
            row.push(Param::Int(sys.id64));
            row.push(Param::Double(c.x.copy()));
            row.push(Param::Double(c.x.copy()));
            row.push(Param::Double(c.y.copy()));
            row.push(Param::Double(c.y.copy()));
            row.push(Param::Double(c.z.copy()));
            row.push(Param::Double(c.z.copy()));
        },
        None => {},
    }
    row.params
}

/// The statements that a system becomes, in the order in which they run.
pub fn writes_for(sys: &SpanshSystem, now: i64) -> (r: Vec<Write>)
    ensures
        write_views(r@) == system_writes(sys@, now),
{
    let mut w = Writes { list: Vec::new() };
    w.push(Write::System(system_params(sys, now)));
    assert(w@ =~= seq![WriteView::System(system_row(sys@, now))]);
    let government = match &sys.government {
        Some(g) => Some(g.as_str()),
        None => None,
    };
    if names_prison(government) {
        w.push(Write::Prison(sys.id64));
    }
    if sys.coords.is_some() {
        w.push(Write::Index(index_params(sys)));
    }
    let ghost first = w@;
    match &sys.bodies {
        Some(b) => {
            proof {
                json::lemma_views(b@);
            }
            w.bodies(sys.id64, b);
        },
        None => {},
    }
    assert(w@ =~= first + all_bodies(sys.id64, sys@.bodies));
    let ghost second = w@;
    match &sys.stations {
        Some(st) => {
            proof {
                json::lemma_views(st@);
            }
            w.stations(sys.id64, st);
        },
        None => {},
    }
    assert(w@ =~= second + all_stations(sys.id64, sys@.stations));
    w.list
}

/// What follows on a batch that failed for the `attempts`-th time: the
/// milliseconds to wait before it is tried again, or `None` after three times.
pub fn retry_after(attempts: u64) -> (r: Option<u64>)
    ensures
        r == if attempts >= 3 {
            None
        } else {
            Some((500 * attempts) as u64)
        },
{
    if attempts >= 3 {
        None
    } else {
        Some(500 * attempts)
    }
}

/// Every statement that a system becomes has a value for each column of its
/// table, and the id of the system in it.
pub proof fn law_rows_are_complete(sys: SystemView, now: i64, i: int)
    requires
        0 <= i < system_writes(sys, now).len(),
    ensures
        match system_writes(sys, now)[i] {
            WriteView::System(p) => p.len() == 21 && p[0] == ParamView::Int(sys.id64),
            WriteView::Index(p) => p.len() == 7 && p[0] == ParamView::Int(sys.id64),
            WriteView::Body(p) => p.len() == 45 && p[0] == ParamView::Int(sys.id64),
            WriteView::Neutron(id) => id == sys.id64,
            WriteView::Station(p) => p.len() == 28 && p[2] == ParamView::Int(sys.id64),
            WriteView::Prison(id) => id == sys.id64,
        },
{
    if sys.bodies is Some {
        let b = sys.bodies->0;
        lemma_body_rows(sys.id64, b, b.len() as int);
    }
    if sys.stations is Some {
        let s = sys.stations->0;
        lemma_station_rows(sys.id64, s, s.len() as int);
    }
}

/// A body of which only the signals are told leaves all else that is known of
/// it: every other column is null, behind the ids of the system and the body.
pub proof fn law_partial_bodies_are_partial(id64: i64, b: JsonView, column: int)
    requires
        forall|key: Seq<char>|
            key != "bodyId"@ && key != "signals"@ ==> #[trigger] json::field(b, key) is None,
        2 <= column < 45,
        column != 36,
    ensures
        body_row(id64, b)[column] == ParamView::Null,
        body_row(id64, b)[36] == json_param(json::unless_null(json::field(b, "signals"@))),
{
    reveal_strlit("bodyId");
    reveal_strlit("signals");
    assert("bodyId"@.len() == 6 && "signals"@.len() == 7);
    assert(json::field(b, "name"@) is None) by {
        reveal_strlit("name");
        assert("name"@.len() == 4);
    }
    assert(json::field(b, "type"@) is None) by {
        reveal_strlit("type");
        assert("type"@.len() == 4);
    }
    assert(json::field(b, "subType"@) is None) by {
        reveal_strlit("subType");
        assert("subType"@.len() == 7);
        assert("subType"@[1] != "signals"@[1]);
    }
    assert(json::field(b, "distanceToArrival"@) is None) by {
        reveal_strlit("distanceToArrival");
        assert("distanceToArrival"@.len() == 17);
    }
    assert(json::field(b, "isLandable"@) is None) by {
        reveal_strlit("isLandable");
        assert("isLandable"@.len() == 10);
    }
    assert(json::field(b, "gravity"@) is None) by {
        reveal_strlit("gravity");
        assert("gravity"@.len() == 7);
        assert("gravity"@[0] != "signals"@[0]);
    }
    assert(json::field(b, "earthMasses"@) is None) by {
        reveal_strlit("earthMasses");
        assert("earthMasses"@.len() == 11);
    }
    assert(json::field(b, "radius"@) is None) by {
        reveal_strlit("radius");
        assert("radius"@.len() == 6);
        assert("radius"@[0] != "bodyId"@[0]);
    }
    assert(json::field(b, "orbitalPeriod"@) is None) by {
        reveal_strlit("orbitalPeriod");
        assert("orbitalPeriod"@.len() == 13);
    }
    assert(json::field(b, "semiMajorAxis"@) is None) by {
        reveal_strlit("semiMajorAxis");
        assert("semiMajorAxis"@.len() == 13);
    }
    assert(json::field(b, "orbitalEccentricity"@) is None) by {
        reveal_strlit("orbitalEccentricity");
        assert("orbitalEccentricity"@.len() == 19);
    }
    assert(json::field(b, "orbitalInclination"@) is None) by {
        reveal_strlit("orbitalInclination");
        assert("orbitalInclination"@.len() == 18);
    }
    assert(json::field(b, "argOfPeriapsis"@) is None) by {
        reveal_strlit("argOfPeriapsis");
        assert("argOfPeriapsis"@.len() == 14);
    }
    assert(json::field(b, "rotationalPeriod"@) is None) by {
        reveal_strlit("rotationalPeriod");
        assert("rotationalPeriod"@.len() == 16);
    }
    assert(json::field(b, "rotationalPeriodTidallyLocked"@) is None) by {
        reveal_strlit("rotationalPeriodTidallyLocked");
        assert("rotationalPeriodTidallyLocked"@.len() == 29);
    }
    assert(json::field(b, "axialTilt"@) is None) by {
        reveal_strlit("axialTilt");
        assert("axialTilt"@.len() == 9);
    }
    assert(json::field(b, "volcanismType"@) is None) by {
        reveal_strlit("volcanismType");
        assert("volcanismType"@.len() == 13);
    }
    assert(json::field(b, "atmosphereType"@) is None) by {
        reveal_strlit("atmosphereType");
        assert("atmosphereType"@.len() == 14);
    }
    assert(json::field(b, "terraformingState"@) is None) by {
        reveal_strlit("terraformingState");
        assert("terraformingState"@.len() == 17);
    }
    assert(json::field(b, "solarMasses"@) is None) by {
        reveal_strlit("solarMasses");
        assert("solarMasses"@.len() == 11);
    }
    assert(json::field(b, "stellarMass"@) is None) by {
        reveal_strlit("stellarMass");
        assert("stellarMass"@.len() == 11);
    }
    assert(json::field(b, "absoluteMagnitude"@) is None) by {
        reveal_strlit("absoluteMagnitude");
        assert("absoluteMagnitude"@.len() == 17);
    }
    assert(json::field(b, "age"@) is None) by {
        reveal_strlit("age");
        assert("age"@.len() == 3);
    }
    assert(json::field(b, "luminosity"@) is None) by {
        reveal_strlit("luminosity");
        assert("luminosity"@.len() == 10);
    }
    assert(json::field(b, "subclass"@) is None) by {
        reveal_strlit("subclass");
        assert("subclass"@.len() == 8);
    }
    assert(json::field(b, "surfacePressure"@) is None) by {
        reveal_strlit("surfacePressure");
        assert("surfacePressure"@.len() == 15);
    }
    assert(json::field(b, "atmosphereComposition"@) is None) by {
        reveal_strlit("atmosphereComposition");
        assert("atmosphereComposition"@.len() == 21);
    }
    assert(json::field(b, "solidComposition"@) is None) by {
        reveal_strlit("solidComposition");
        assert("solidComposition"@.len() == 16);
    }
    assert(json::field(b, "composition"@) is None) by {
        reveal_strlit("composition");
        assert("composition"@.len() == 11);
    }
    assert(json::field(b, "rings"@) is None) by {
        reveal_strlit("rings");
        assert("rings"@.len() == 5);
    }
    assert(json::field(b, "parents"@) is None) by {
        reveal_strlit("parents");
        assert("parents"@.len() == 7);
        assert("parents"@[0] != "signals"@[0]);
    }
    assert(json::field(b, "wasDiscovered"@) is None) by {
        reveal_strlit("wasDiscovered");
        assert("wasDiscovered"@.len() == 13);
    }
    assert(json::field(b, "wasMapped"@) is None) by {
        reveal_strlit("wasMapped");
        assert("wasMapped"@.len() == 9);
    }
    assert(json::field(b, "ascendingNode"@) is None) by {
        reveal_strlit("ascendingNode");
        assert("ascendingNode"@.len() == 13);
    }
    assert(json::field(b, "meanAnomaly"@) is None) by {
        reveal_strlit("meanAnomaly");
        assert("meanAnomaly"@.len() == 11);
    }
    assert(json::field(b, "id64"@) is None) by {
        reveal_strlit("id64");
        assert("id64"@.len() == 4);
    }
    assert(json::field(b, "mainStar"@) is None) by {
        reveal_strlit("mainStar");
        assert("mainStar"@.len() == 8);
    }
    assert(json::field(b, "spectralClass"@) is None) by {
        reveal_strlit("spectralClass");
        assert("spectralClass"@.len() == 13);
    }
    assert(json::field(b, "solarRadius"@) is None) by {
        reveal_strlit("solarRadius");
        assert("solarRadius"@.len() == 11);
    }
    assert(json::field(b, "materials"@) is None) by {
        reveal_strlit("materials");
        assert("materials"@.len() == 9);
    }
    assert(json::field(b, "reserveLevel"@) is None) by {
        reveal_strlit("reserveLevel");
        assert("reserveLevel"@.len() == 12);
    }
    assert(json::field(b, "belts"@) is None) by {
        reveal_strlit("belts");
        assert("belts"@.len() == 5);
    }
    assert(json::field(b, "updateTime"@) is None) by {
        reveal_strlit("updateTime");
        assert("updateTime"@.len() == 10);
    }
    assert(json::field(b, "surfaceTemperature"@) is None) by {
        reveal_strlit("surfaceTemperature");
        assert("surfaceTemperature"@.len() == 18);
    }
    let a = body_row_a(id64, b);
    let row_b = body_row_b(id64, b);
    let c = body_row_c(id64, b);
    let d = body_row_d(id64, b);
    let e = body_row_e(id64, b);
    assert(a.len() == 10 && row_b.len() == 10 && c.len() == 10 && d.len() == 10 && e.len() == 5);
    if column < 10 {
        assert(body_row(id64, b)[column] == a[column]);
    } else if column < 20 {
        assert(body_row(id64, b)[column] == row_b[column - 10]);
    } else if column < 30 {
        assert(body_row(id64, b)[column] == c[column - 20]);
    } else if column < 40 {
        assert(body_row(id64, b)[column] == d[column - 30]);
    } else {
        assert(body_row(id64, b)[column] == e[column - 40]);
    }
    assert(body_row(id64, b)[36] == d[6]);
}

proof fn lemma_body_rows(id64: i64, bodies: Seq<JsonView>, n: int)
    ensures
        forall|i: int|
            0 <= i < body_writes(id64, bodies, n).len() ==> match #[trigger] body_writes(
                id64,
                bodies,
                n,
            )[i] {
                WriteView::Body(p) => p.len() == 45 && p[0] == ParamView::Int(id64),
                WriteView::Neutron(id) => id == id64,
                _ => false,
            },
    decreases n,
{
    if n > 0 {
        lemma_body_rows(id64, bodies, n - 1);
    }
}

proof fn lemma_station_rows(id64: i64, stations: Seq<JsonView>, n: int)
    ensures
        forall|i: int|
            0 <= i < station_writes(id64, stations, n).len() ==> match #[trigger] station_writes(
                id64,
                stations,
                n,
            )[i] {
                WriteView::Station(p) => p.len() == 28 && p[2] == ParamView::Int(id64),
                WriteView::Prison(id) => id == id64,
                _ => false,
            },
    decreases n,
{
    if n > 0 {
        lemma_station_rows(id64, stations, n - 1);
    }
}

/// The first `n` names, with commas between them.
pub open spec fn listed(names: Seq<Seq<char>>, n: nat) -> Seq<char>
    decreases n,
{
    if n == 0 {
        Seq::empty()
    } else if n == 1 {
        names[0]
    } else {
        listed(names, (n - 1) as nat) + ", "@ + names[n - 1]
    }
}

/// A statement puts values into the columns `names` of a table, in order.
pub open spec fn puts_into(sql: Seq<char>, table: Seq<char>, names: Seq<Seq<char>>) -> bool {
    let start = table + " ("@ + listed(names, names.len()) + ") VALUES ("@;
    start.len() <= sql.len() && sql.take(start.len() as int) == start
}

proof fn lemma_three(x: Seq<char>, y: Seq<char>, z: Seq<char>)
    ensures
        x + y + z == x + (y + z),
{
    assert(x + y + z =~= x + (y + z));
}

proof fn lemma_four(x: Seq<char>, y: Seq<char>, z: Seq<char>, u: Seq<char>)
    ensures
        x + y + z + u == x + (y + z + u),
{
    assert(x + y + z + u =~= x + (y + z + u));
}

/// Values that are there are kept as what they are.
pub proof fn law_values_are_kept_as_they_are(i: i64, n: Num, s: Seq<char>, v: JsonView)
    ensures
        int_param(Some(i)) == ParamView::Int(i),
        int_param(None) == ParamView::Null,
        double_param(Some(n)) == ParamView::Double(n),
        double_param(None) == ParamView::Null,
        text_param(Some(s)) == ParamView::Text(s),
        text_param(None) == ParamView::Null,
        json_param(Some(v)) == ParamView::JsonText(v),
        json_param(None) == ParamView::Null,
        one_if(true) == ParamView::Int(1),
        one_if(false) == ParamView::Int(0),
{
}

/// The columns of place.
pub open spec fn place_names() -> Seq<Seq<char>> {
    seq![
        "id"@,
        "minX"@,
        "maxX"@,
        "minY"@,
        "maxY"@,
        "minZ"@,
        "maxZ"@,
    ]
}

proof fn lemma_place_start()
    ensures
        SQL_INDEX@.len() >= 86,
        SQL_INDEX@.subrange(0, 38) == "INSERT OR REPLACE INTO systems_index ("@,
        SQL_INDEX@.subrange(38, 64) == "id, minX, maxX, minY, maxY"@,
        SQL_INDEX@.subrange(64, 76) == ", minZ, maxZ"@,
        SQL_INDEX@.subrange(76, 86) == ") VALUES ("@,
{
    reveal_strlit("INSERT OR REPLACE INTO systems_index (id, minX, maxX, minY, maxY, minZ, maxZ) VALUES (?, ?, ?, ?, ?, ?, ?)");
    assert(SQL_INDEX@.subrange(0, 38) =~= "INSERT OR REPLACE INTO systems_index ("@) by {
        reveal_strlit("INSERT OR REPLACE INTO systems_index (");
    }
    assert(SQL_INDEX@.subrange(38, 64) =~= "id, minX, maxX, minY, maxY"@) by {
        reveal_strlit("id, minX, maxX, minY, maxY");
    }
    assert(SQL_INDEX@.subrange(64, 76) =~= ", minZ, maxZ"@) by {
        reveal_strlit(", minZ, maxZ");
    }
    assert(SQL_INDEX@.subrange(76, 86) =~= ") VALUES ("@) by {
        reveal_strlit(") VALUES (");
    }
}

proof fn lemma_place_listed_0()
    ensures
        listed(place_names(), 5) == "id, minX, maxX, minY, maxY"@,
{
    let c = place_names();
    assert(c[0] == "id"@);
    assert(c[1] == "minX"@);
    assert(c[2] == "maxX"@);
    assert(c[3] == "minY"@);
    assert(c[4] == "maxY"@);
    let y0 = "id"@;
    assert(listed(c, 1) == y0);
    let y1 = y0 + ", "@ + "minX"@;
    assert(listed(c, 2) == y1);
    let y2 = y1 + ", "@ + "maxX"@;
    assert(listed(c, 3) == y2);
    let y3 = y2 + ", "@ + "minY"@;
    assert(listed(c, 4) == y3);
    let y4 = y3 + ", "@ + "maxY"@;
    assert(listed(c, 5) == y4);
    assert(y4 =~= "id, minX, maxX, minY, maxY"@) by {
        reveal_strlit("id");
        reveal_strlit("minX");
        reveal_strlit("maxX");
        reveal_strlit("minY");
        reveal_strlit("maxY");
        reveal_strlit(", ");
        reveal_strlit("id, minX, maxX, minY, maxY");
    }
}

proof fn lemma_place_listed_1()
    ensures
        listed(place_names(), 7) == listed(place_names(), 5) + ", minZ, maxZ"@,
{
    let c = place_names();
    let x = listed(c, 5);
    assert(c[5] == "minZ"@);
    assert(c[6] == "maxZ"@);
    let y0 = ", "@ + "minZ"@;
    lemma_three(x, ", "@, "minZ"@);
    assert(listed(c, 6) == x + y0);
    let y1 = y0 + ", "@ + "maxZ"@;
    lemma_four(x, y0, ", "@, "maxZ"@);
    assert(listed(c, 7) == x + y1);
    assert(y1 =~= ", minZ, maxZ"@) by {
        reveal_strlit("minZ");
        reveal_strlit("maxZ");
        reveal_strlit(", ");
        reveal_strlit(", minZ, maxZ");
    }
}

proof fn lemma_place_listed()
    ensures
        listed(place_names(), 7) == "id, minX, maxX, minY, maxY"@ + ", minZ, maxZ"@,
{
    lemma_place_listed_0();
    lemma_place_listed_1();
}

/// The place of a system is put into the columns of its axes.
pub proof fn law_places_are_kept_by_column(sys: SystemView)
    ensures
        puts_into(SQL_INDEX@, "INSERT OR REPLACE INTO systems_index"@, place_names()),
        place_names().len() == 7,
        index_row(sys).len() == 7,
        place_names()[0] == "id"@ && index_row(sys)[0] == ParamView::Int(sys.id64),
        place_names()[1] == "minX"@ && index_row(sys)[1] == ParamView::Double((sys.coords->0).x),
        place_names()[2] == "maxX"@ && index_row(sys)[2] == ParamView::Double((sys.coords->0).x),
        place_names()[3] == "minY"@ && index_row(sys)[3] == ParamView::Double((sys.coords->0).y),
        place_names()[4] == "maxY"@ && index_row(sys)[4] == ParamView::Double((sys.coords->0).y),
        place_names()[5] == "minZ"@ && index_row(sys)[5] == ParamView::Double((sys.coords->0).z),
        place_names()[6] == "maxZ"@ && index_row(sys)[6] == ParamView::Double((sys.coords->0).z),
{
    lemma_place_start();
    lemma_place_listed();
    let s = SQL_INDEX@;
    text::lemma_cuts_join(s, 0, 38, 64);
    text::lemma_cuts_join(s, 0, 64, 76);
    text::lemma_cuts_join(s, 0, 76, 86);
    let l = "id, minX, maxX, minY, maxY"@ + ", minZ, maxZ"@;
    assert("INSERT OR REPLACE INTO systems_index"@
        + " ("@ =~= "INSERT OR REPLACE INTO systems_index ("@) by {
        reveal_strlit("INSERT OR REPLACE INTO systems_index");
        reveal_strlit(" (");
        reveal_strlit("INSERT OR REPLACE INTO systems_index (");
    }
    assert(s.take(86) =~= s.subrange(0, 86));
    let start = "INSERT OR REPLACE INTO systems_index ("@ + l + ") VALUES ("@;
    assert(start =~= s.subrange(0, 86));
    assert(start.len() == 86);
}

/// The columns of system.
pub open spec fn system_names() -> Seq<Seq<char>> {
    seq![
        "id64"@,
        "name"@,
        "population"@,
        "last_update"@,
        "allegiance"@,
        "government"@,
        "primaryEconomy"@,
        "secondaryEconomy"@,
        "security"@,
        "bodyCount"@,
        "date"@,
        "controllingFaction"@,
        "factions"@,
        "powerState"@,
        "powers"@,
        "controllingPower"@,
        "powerStateControlProgress"@,
        "powerStateReinforcement"@,
        "powerStateUndermining"@,
        "powerConflictProgress"@,
        "thargoidWar"@,
    ]
}

proof fn lemma_system_start()
    ensures
        SQL_SYSTEM@.len() >= 330,
        SQL_SYSTEM@.subrange(0, 21) == "INSERT INTO systems ("@,
        SQL_SYSTEM@.subrange(21, 68) == "id64, name, population, last_update, allegiance"@,
        SQL_SYSTEM@.subrange(68, 135)
            == ", government, primaryEconomy, secondaryEconomy, security, bodyCount"@,
        SQL_SYSTEM@.subrange(135, 191)
            == ", date, controllingFaction, factions, powerState, powers"@,
        SQL_SYSTEM@.subrange(191, 307)
            == ", controllingPower, powerStateControlProgress, powerStateReinforcement, powerStateUndermining, powerConflictProgress"@,
        SQL_SYSTEM@.subrange(307, 320) == ", thargoidWar"@,
        SQL_SYSTEM@.subrange(320, 330) == ") VALUES ("@,
{
    reveal_strlit("INSERT INTO systems (id64, name, population, last_update, allegiance, government, primaryEconomy, secondaryEconomy, security, bodyCount, date, controllingFaction, factions, powerState, powers, controllingPower, powerStateControlProgress, powerStateReinforcement, powerStateUndermining, powerConflictProgress, thargoidWar) VALUES (?, ?, ?, ?, ?, ?, ?, ?, ?, ?, ?, ?, ?, ?, ?, ?, ?, ?, ?, ?, ?) ON CONFLICT(id64) DO UPDATE SET name = COALESCE(excluded.name, systems.name), population = CASE WHEN excluded.population > 0 THEN excluded.population ELSE systems.population END, last_update = excluded.last_update, allegiance = COALESCE(excluded.allegiance, systems.allegiance), government = COALESCE(excluded.government, systems.government), primaryEconomy = COALESCE(excluded.primaryEconomy, systems.primaryEconomy), secondaryEconomy = COALESCE(excluded.secondaryEconomy, systems.secondaryEconomy), security = COALESCE(excluded.security, systems.security), bodyCount = COALESCE(excluded.bodyCount, systems.bodyCount), date = COALESCE(excluded.date, systems.date), controllingFaction = COALESCE(excluded.controllingFaction, systems.controllingFaction), factions = COALESCE(excluded.factions, systems.factions), powerState = COALESCE(excluded.powerState, systems.powerState), powers = COALESCE(excluded.powers, systems.powers), controllingPower = COALESCE(excluded.controllingPower, systems.controllingPower), powerStateControlProgress = COALESCE(excluded.powerStateControlProgress, systems.powerStateControlProgress), powerStateReinforcement = COALESCE(excluded.powerStateReinforcement, systems.powerStateReinforcement), powerStateUndermining = COALESCE(excluded.powerStateUndermining, systems.powerStateUndermining), powerConflictProgress = COALESCE(excluded.powerConflictProgress, systems.powerConflictProgress), thargoidWar = COALESCE(excluded.thargoidWar, systems.thargoidWar)");
    assert(SQL_SYSTEM@.subrange(0, 21) =~= "INSERT INTO systems ("@) by {
        reveal_strlit("INSERT INTO systems (");
    }
    assert(SQL_SYSTEM@.subrange(21, 68) =~= "id64, name, population, last_update, allegiance"@) by {
        reveal_strlit("id64, name, population, last_update, allegiance");
    }
    assert(SQL_SYSTEM@.subrange(68,
        135) =~= ", government, primaryEconomy, secondaryEconomy, security, bodyCount"@) by {
        reveal_strlit(", government, primaryEconomy, secondaryEconomy, security, bodyCount");
    }
    assert(SQL_SYSTEM@.subrange(135,
        191) =~= ", date, controllingFaction, factions, powerState, powers"@) by {
        reveal_strlit(", date, controllingFaction, factions, powerState, powers");
    }
    assert(SQL_SYSTEM@.subrange(191,
        307) =~= ", controllingPower, powerStateControlProgress, powerStateReinforcement, powerStateUndermining, powerConflictProgress"@) by {
        reveal_strlit(", controllingPower, powerStateControlProgress, powerStateReinforcement, powerStateUndermining, powerConflictProgress");
    }
    assert(SQL_SYSTEM@.subrange(307, 320) =~= ", thargoidWar"@) by {
        reveal_strlit(", thargoidWar");
    }
    assert(SQL_SYSTEM@.subrange(320, 330) =~= ") VALUES ("@) by {
        reveal_strlit(") VALUES (");
    }
}

proof fn lemma_system_listed_0()
    ensures
        listed(system_names(), 5) == "id64, name, population, last_update, allegiance"@,
{
    let c = system_names();
    assert(c[0] == "id64"@);
    assert(c[1] == "name"@);
    assert(c[2] == "population"@);
    assert(c[3] == "last_update"@);
    assert(c[4] == "allegiance"@);
    let y0 = "id64"@;
    assert(listed(c, 1) == y0);
    let y1 = y0 + ", "@ + "name"@;
    assert(listed(c, 2) == y1);
    let y2 = y1 + ", "@ + "population"@;
    assert(listed(c, 3) == y2);
    let y3 = y2 + ", "@ + "last_update"@;
    assert(listed(c, 4) == y3);
    let y4 = y3 + ", "@ + "allegiance"@;
    assert(listed(c, 5) == y4);
    assert(y4 =~= "id64, name, population, last_update, allegiance"@) by {
        reveal_strlit("id64");
        reveal_strlit("name");
        reveal_strlit("population");
        reveal_strlit("last_update");
        reveal_strlit("allegiance");
        reveal_strlit(", ");
        reveal_strlit("id64, name, population, last_update, allegiance");
    }
}

proof fn lemma_system_listed_1()
    ensures
        listed(system_names(), 10) == listed(system_names(), 5)
            + ", government, primaryEconomy, secondaryEconomy, security, bodyCount"@,
{
    let c = system_names();
    let x = listed(c, 5);
    assert(c[5] == "government"@);
    assert(c[6] == "primaryEconomy"@);
    assert(c[7] == "secondaryEconomy"@);
    assert(c[8] == "security"@);
    assert(c[9] == "bodyCount"@);
    let y0 = ", "@ + "government"@;
    lemma_three(x, ", "@, "government"@);
    assert(listed(c, 6) == x + y0);
    let y1 = y0 + ", "@ + "primaryEconomy"@;
    lemma_four(x, y0, ", "@, "primaryEconomy"@);
    assert(listed(c, 7) == x + y1);
    let y2 = y1 + ", "@ + "secondaryEconomy"@;
    lemma_four(x, y1, ", "@, "secondaryEconomy"@);
    assert(listed(c, 8) == x + y2);
    let y3 = y2 + ", "@ + "security"@;
    lemma_four(x, y2, ", "@, "security"@);
    assert(listed(c, 9) == x + y3);
    let y4 = y3 + ", "@ + "bodyCount"@;
    lemma_four(x, y3, ", "@, "bodyCount"@);
    assert(listed(c, 10) == x + y4);
    assert(y4 =~= ", government, primaryEconomy, secondaryEconomy, security, bodyCount"@) by {
        reveal_strlit("government");
        reveal_strlit("primaryEconomy");
        reveal_strlit("secondaryEconomy");
        reveal_strlit("security");
        reveal_strlit("bodyCount");
        reveal_strlit(", ");
        reveal_strlit(", government, primaryEconomy, secondaryEconomy, security, bodyCount");
    }
}

proof fn lemma_system_listed_2()
    ensures
        listed(system_names(), 15) == listed(system_names(), 10)
            + ", date, controllingFaction, factions, powerState, powers"@,
{
    let c = system_names();
    let x = listed(c, 10);
    assert(c[10] == "date"@);
    assert(c[11] == "controllingFaction"@);
    assert(c[12] == "factions"@);
    assert(c[13] == "powerState"@);
    assert(c[14] == "powers"@);
    let y0 = ", "@ + "date"@;
    lemma_three(x, ", "@, "date"@);
    assert(listed(c, 11) == x + y0);
    let y1 = y0 + ", "@ + "controllingFaction"@;
    lemma_four(x, y0, ", "@, "controllingFaction"@);
    assert(listed(c, 12) == x + y1);
    let y2 = y1 + ", "@ + "factions"@;
    lemma_four(x, y1, ", "@, "factions"@);
    assert(listed(c, 13) == x + y2);
    let y3 = y2 + ", "@ + "powerState"@;
    lemma_four(x, y2, ", "@, "powerState"@);
    assert(listed(c, 14) == x + y3);
    let y4 = y3 + ", "@ + "powers"@;
    lemma_four(x, y3, ", "@, "powers"@);
    assert(listed(c, 15) == x + y4);
    assert(y4 =~= ", date, controllingFaction, factions, powerState, powers"@) by {
        reveal_strlit("date");
        reveal_strlit("controllingFaction");
        reveal_strlit("factions");
        reveal_strlit("powerState");
        reveal_strlit("powers");
        reveal_strlit(", ");
        reveal_strlit(", date, controllingFaction, factions, powerState, powers");
    }
}

proof fn lemma_system_listed_3()
    ensures
        listed(system_names(), 20) == listed(system_names(), 15)
            + ", controllingPower, powerStateControlProgress, powerStateReinforcement, powerStateUndermining, powerConflictProgress"@,
{
    let c = system_names();
    let x = listed(c, 15);
    assert(c[15] == "controllingPower"@);
    assert(c[16] == "powerStateControlProgress"@);
    assert(c[17] == "powerStateReinforcement"@);
    assert(c[18] == "powerStateUndermining"@);
    assert(c[19] == "powerConflictProgress"@);
    let y0 = ", "@ + "controllingPower"@;
    lemma_three(x, ", "@, "controllingPower"@);
    assert(listed(c, 16) == x + y0);
    let y1 = y0 + ", "@ + "powerStateControlProgress"@;
    lemma_four(x, y0, ", "@, "powerStateControlProgress"@);
    assert(listed(c, 17) == x + y1);
    let y2 = y1 + ", "@ + "powerStateReinforcement"@;
    lemma_four(x, y1, ", "@, "powerStateReinforcement"@);
    assert(listed(c, 18) == x + y2);
    let y3 = y2 + ", "@ + "powerStateUndermining"@;
    lemma_four(x, y2, ", "@, "powerStateUndermining"@);
    assert(listed(c, 19) == x + y3);
    let y4 = y3 + ", "@ + "powerConflictProgress"@;
    lemma_four(x, y3, ", "@, "powerConflictProgress"@);
    assert(listed(c, 20) == x + y4);
    assert(y4 =~= ", controllingPower, powerStateControlProgress, powerStateReinforcement, powerStateUndermining, powerConflictProgress"@) by {
        reveal_strlit("controllingPower");
        reveal_strlit("powerStateControlProgress");
        reveal_strlit("powerStateReinforcement");
        reveal_strlit("powerStateUndermining");
        reveal_strlit("powerConflictProgress");
        reveal_strlit(", ");
        reveal_strlit(", controllingPower, powerStateControlProgress, powerStateReinforcement, powerStateUndermining, powerConflictProgress");
    }
}

proof fn lemma_system_listed_4()
    ensures
        listed(system_names(), 21) == listed(system_names(), 20) + ", thargoidWar"@,
{
    let c = system_names();
    let x = listed(c, 20);
    assert(c[20] == "thargoidWar"@);
    let y0 = ", "@ + "thargoidWar"@;
    lemma_three(x, ", "@, "thargoidWar"@);
    assert(listed(c, 21) == x + y0);
    assert(y0 =~= ", thargoidWar"@) by {
        reveal_strlit("thargoidWar");
        reveal_strlit(", ");
        reveal_strlit(", thargoidWar");
    }
}

proof fn lemma_system_listed()
    ensures
        listed(system_names(), 21) == "id64, name, population, last_update, allegiance"@
            + ", government, primaryEconomy, secondaryEconomy, security, bodyCount"@
            + ", date, controllingFaction, factions, powerState, powers"@
            + ", controllingPower, powerStateControlProgress, powerStateReinforcement, powerStateUndermining, powerConflictProgress"@
            + ", thargoidWar"@,
{
    lemma_system_listed_0();
    lemma_system_listed_1();
    lemma_system_listed_2();
    lemma_system_listed_3();
    lemma_system_listed_4();
}

/// What is known of a system is put into the columns that are named for it.
pub proof fn law_systems_are_kept_by_column(sys: SystemView, now: i64)
    ensures
        puts_into(SQL_SYSTEM@, "INSERT INTO systems"@, system_names()),
        system_names().len() == 21,
        system_row(sys, now).len() == 21,
        system_names()[0] == "id64"@ && system_row(sys, now)[0] == ParamView::Int(sys.id64),
        system_names()[1] == "name"@ && system_row(sys, now)[1] == ParamView::Text(sys.name),
        system_names()[2] == "population"@ && system_row(sys, now)[2]
            == ParamView::Int( match sys.population { Some(p) => p, None => 0, }, ),
        system_names()[3] == "last_update"@ && system_row(sys, now)[3] == ParamView::Int(now),
        system_names()[4] == "allegiance"@ && system_row(sys, now)[4] == text_param(sys.allegiance),
        system_names()[5] == "government"@ && system_row(sys, now)[5] == text_param(sys.government),
        system_names()[6] == "primaryEconomy"@ && system_row(sys, now)[6]
            == text_param(sys.primary_economy),
        system_names()[7] == "secondaryEconomy"@ && system_row(sys, now)[7]
            == text_param(sys.secondary_economy),
        system_names()[8] == "security"@ && system_row(sys, now)[8] == text_param(sys.security),
        system_names()[9] == "bodyCount"@ && system_row(sys, now)[9] == int_param(sys.body_count),
        system_names()[10] == "date"@ && system_row(sys, now)[10] == text_param(sys.date),
        system_names()[11] == "controllingFaction"@ && system_row(sys, now)[11]
            == json_param(json::unless_null(sys.controlling_faction)),
        system_names()[12] == "factions"@ && system_row(sys, now)[12]
            == json_param(json::unless_null(sys.factions)),
        system_names()[13] == "powerState"@ && system_row(sys, now)[13]
            == text_param(sys.power_state),
        system_names()[14] == "powers"@ && system_row(sys, now)[14]
            == json_param(json::unless_null(sys.powers)),
        system_names()[15] == "controllingPower"@ && system_row(sys, now)[15]
            == text_param(sys.controlling_power),
        system_names()[16] == "powerStateControlProgress"@ && system_row(sys, now)[16]
            == double_param(sys.power_state_control_progress),
        system_names()[17] == "powerStateReinforcement"@ && system_row(sys, now)[17]
            == double_param(sys.power_state_reinforcement),
        system_names()[18] == "powerStateUndermining"@ && system_row(sys, now)[18]
            == double_param(sys.power_state_undermining),
        system_names()[19] == "powerConflictProgress"@ && system_row(sys, now)[19]
            == json_param(json::unless_null(sys.power_conflict_progress)),
        system_names()[20] == "thargoidWar"@ && system_row(sys, now)[20]
            == json_param(json::unless_null(sys.thargoid_war)),
{
    lemma_system_start();
    lemma_system_listed();
    let s = SQL_SYSTEM@;
    text::lemma_cuts_join(s, 0, 21, 68);
    text::lemma_cuts_join(s, 0, 68, 135);
    text::lemma_cuts_join(s, 0, 135, 191);
    text::lemma_cuts_join(s, 0, 191, 307);
    text::lemma_cuts_join(s, 0, 307, 320);
    text::lemma_cuts_join(s, 0, 320, 330);
    let l = "id64, name, population, last_update, allegiance"@
        + ", government, primaryEconomy, secondaryEconomy, security, bodyCount"@
        + ", date, controllingFaction, factions, powerState, powers"@
        + ", controllingPower, powerStateControlProgress, powerStateReinforcement, powerStateUndermining, powerConflictProgress"@
        + ", thargoidWar"@;
    assert("INSERT INTO systems"@ + " ("@ =~= "INSERT INTO systems ("@) by {
        reveal_strlit("INSERT INTO systems");
        reveal_strlit(" (");
        reveal_strlit("INSERT INTO systems (");
    }
    assert(s.take(330) =~= s.subrange(0, 330));
    let start = "INSERT INTO systems ("@ + l + ") VALUES ("@;
    assert(start =~= s.subrange(0, 330));
    assert(start.len() == 330);
}

/// The columns of station.
pub open spec fn station_names() -> Seq<Seq<char>> {
    seq![
        "id"@,
        "marketId"@,
        "systemId64"@,
        "name"@,
        "type"@,
        "distanceToArrival"@,
        "allegiance"@,
        "government"@,
        "economy"@,
        "secondEconomy"@,
        "haveMarket"@,
        "haveShipyard"@,
        "haveOutfitting"@,
        "otherServices"@,
        "updateTime"@,
        "realName"@,
        "carrierName"@,
        "controllingFaction"@,
        "controllingFactionState"@,
        "state"@,
        "latitude"@,
        "longitude"@,
        "landingPads"@,
        "carrierDockingAccess"@,
        "economies"@,
        "market"@,
        "shipyard"@,
        "outfitting"@,
    ]
}

proof fn lemma_station_start()
    ensures
        SQL_STATION@.len() >= 376,
        SQL_STATION@.subrange(0, 22) == "INSERT INTO stations ("@,
        SQL_STATION@.subrange(22, 58) == "id, marketId, systemId64, name, type"@,
        SQL_STATION@.subrange(58, 125)
            == ", distanceToArrival, allegiance, government, economy, secondEconomy"@,
        SQL_STATION@.subrange(125, 194)
            == ", haveMarket, haveShipyard, haveOutfitting, otherServices, updateTime"@,
        SQL_STATION@.subrange(194, 269)
            == ", realName, carrierName, controllingFaction, controllingFactionState, state"@,
        SQL_STATION@.subrange(269, 336)
            == ", latitude, longitude, landingPads, carrierDockingAccess, economies"@,
        SQL_STATION@.subrange(336, 366) == ", market, shipyard, outfitting"@,
        SQL_STATION@.subrange(366, 376) == ") VALUES ("@,
{
    reveal_strlit("INSERT INTO stations (id, marketId, systemId64, name, type, distanceToArrival, allegiance, government, economy, secondEconomy, haveMarket, haveShipyard, haveOutfitting, otherServices, updateTime, realName, carrierName, controllingFaction, controllingFactionState, state, latitude, longitude, landingPads, carrierDockingAccess, economies, market, shipyard, outfitting) VALUES (?,?,?,?,?,?,?,?,?,?,?,?,?,?,?,?,?,?,?,?,?,?,?,?,?,?,?,?) ON CONFLICT(systemId64, id) DO UPDATE SET marketId = COALESCE(excluded.marketId, stations.marketId), name = COALESCE(excluded.name, stations.name), type = COALESCE(excluded.type, stations.type), distanceToArrival = COALESCE(excluded.distanceToArrival, stations.distanceToArrival), allegiance = COALESCE(excluded.allegiance, stations.allegiance), government = COALESCE(excluded.government, stations.government), economy = COALESCE(excluded.economy, stations.economy), secondEconomy = COALESCE(excluded.secondEconomy, stations.secondEconomy), haveMarket = MAX(excluded.haveMarket, stations.haveMarket), haveShipyard = MAX(excluded.haveShipyard, stations.haveShipyard), haveOutfitting = MAX(excluded.haveOutfitting, stations.haveOutfitting), otherServices = COALESCE(NULLIF(excluded.otherServices, '[]'), stations.otherServices), updateTime = COALESCE(excluded.updateTime, stations.updateTime), realName = COALESCE(excluded.realName, stations.realName), carrierName = COALESCE(excluded.carrierName, stations.carrierName), controllingFaction = COALESCE(excluded.controllingFaction, stations.controllingFaction), controllingFactionState = COALESCE(excluded.controllingFactionState, stations.controllingFactionState), state = COALESCE(excluded.state, stations.state), latitude = COALESCE(excluded.latitude, stations.latitude), longitude = COALESCE(excluded.longitude, stations.longitude), landingPads = COALESCE(excluded.landingPads, stations.landingPads), carrierDockingAccess = COALESCE(excluded.carrierDockingAccess, stations.carrierDockingAccess), economies = COALESCE(excluded.economies, stations.economies), market = COALESCE(excluded.market, stations.market), shipyard = COALESCE(excluded.shipyard, stations.shipyard), outfitting = COALESCE(excluded.outfitting, stations.outfitting)");
    assert(SQL_STATION@.subrange(0, 22) =~= "INSERT INTO stations ("@) by {
        reveal_strlit("INSERT INTO stations (");
    }
    assert(SQL_STATION@.subrange(22, 58) =~= "id, marketId, systemId64, name, type"@) by {
        reveal_strlit("id, marketId, systemId64, name, type");
    }
    assert(SQL_STATION@.subrange(58,
        125) =~= ", distanceToArrival, allegiance, government, economy, secondEconomy"@) by {
        reveal_strlit(", distanceToArrival, allegiance, government, economy, secondEconomy");
    }
    assert(SQL_STATION@.subrange(125,
        194) =~= ", haveMarket, haveShipyard, haveOutfitting, otherServices, updateTime"@) by {
        reveal_strlit(", haveMarket, haveShipyard, haveOutfitting, otherServices, updateTime");
    }
    assert(SQL_STATION@.subrange(194,
        269) =~= ", realName, carrierName, controllingFaction, controllingFactionState, state"@) by {
        reveal_strlit(", realName, carrierName, controllingFaction, controllingFactionState, state");
    }
    assert(SQL_STATION@.subrange(269,
        336) =~= ", latitude, longitude, landingPads, carrierDockingAccess, economies"@) by {
        reveal_strlit(", latitude, longitude, landingPads, carrierDockingAccess, economies");
    }
    assert(SQL_STATION@.subrange(336, 366) =~= ", market, shipyard, outfitting"@) by {
        reveal_strlit(", market, shipyard, outfitting");
    }
    assert(SQL_STATION@.subrange(366, 376) =~= ") VALUES ("@) by {
        reveal_strlit(") VALUES (");
    }
}

proof fn lemma_station_listed_0()
    ensures
        listed(station_names(), 5) == "id, marketId, systemId64, name, type"@,
{
    let c = station_names();
    assert(c[0] == "id"@);
    assert(c[1] == "marketId"@);
    assert(c[2] == "systemId64"@);
    assert(c[3] == "name"@);
    assert(c[4] == "type"@);
    let y0 = "id"@;
    assert(listed(c, 1) == y0);
    let y1 = y0 + ", "@ + "marketId"@;
    assert(listed(c, 2) == y1);
    let y2 = y1 + ", "@ + "systemId64"@;
    assert(listed(c, 3) == y2);
    let y3 = y2 + ", "@ + "name"@;
    assert(listed(c, 4) == y3);
    let y4 = y3 + ", "@ + "type"@;
    assert(listed(c, 5) == y4);
    assert(y4 =~= "id, marketId, systemId64, name, type"@) by {
        reveal_strlit("id");
        reveal_strlit("marketId");
        reveal_strlit("systemId64");
        reveal_strlit("name");
        reveal_strlit("type");
        reveal_strlit(", ");
        reveal_strlit("id, marketId, systemId64, name, type");
    }
}

proof fn lemma_station_listed_1()
    ensures
        listed(station_names(), 10) == listed(station_names(), 5)
            + ", distanceToArrival, allegiance, government, economy, secondEconomy"@,
{
    let c = station_names();
    let x = listed(c, 5);
    assert(c[5] == "distanceToArrival"@);
    assert(c[6] == "allegiance"@);
    assert(c[7] == "government"@);
    assert(c[8] == "economy"@);
    assert(c[9] == "secondEconomy"@);
    let y0 = ", "@ + "distanceToArrival"@;
    lemma_three(x, ", "@, "distanceToArrival"@);
    assert(listed(c, 6) == x + y0);
    let y1 = y0 + ", "@ + "allegiance"@;
    lemma_four(x, y0, ", "@, "allegiance"@);
    assert(listed(c, 7) == x + y1);
    let y2 = y1 + ", "@ + "government"@;
    lemma_four(x, y1, ", "@, "government"@);
    assert(listed(c, 8) == x + y2);
    let y3 = y2 + ", "@ + "economy"@;
    lemma_four(x, y2, ", "@, "economy"@);
    assert(listed(c, 9) == x + y3);
    let y4 = y3 + ", "@ + "secondEconomy"@;
    lemma_four(x, y3, ", "@, "secondEconomy"@);
    assert(listed(c, 10) == x + y4);
    assert(y4 =~= ", distanceToArrival, allegiance, government, economy, secondEconomy"@) by {
        reveal_strlit("distanceToArrival");
        reveal_strlit("allegiance");
        reveal_strlit("government");
        reveal_strlit("economy");
        reveal_strlit("secondEconomy");
        reveal_strlit(", ");
        reveal_strlit(", distanceToArrival, allegiance, government, economy, secondEconomy");
    }
}

proof fn lemma_station_listed_2()
    ensures
        listed(station_names(), 15) == listed(station_names(), 10)
            + ", haveMarket, haveShipyard, haveOutfitting, otherServices, updateTime"@,
{
    let c = station_names();
    let x = listed(c, 10);
    assert(c[10] == "haveMarket"@);
    assert(c[11] == "haveShipyard"@);
    assert(c[12] == "haveOutfitting"@);
    assert(c[13] == "otherServices"@);
    assert(c[14] == "updateTime"@);
    let y0 = ", "@ + "haveMarket"@;
    lemma_three(x, ", "@, "haveMarket"@);
    assert(listed(c, 11) == x + y0);
    let y1 = y0 + ", "@ + "haveShipyard"@;
    lemma_four(x, y0, ", "@, "haveShipyard"@);
    assert(listed(c, 12) == x + y1);
    let y2 = y1 + ", "@ + "haveOutfitting"@;
    lemma_four(x, y1, ", "@, "haveOutfitting"@);
    assert(listed(c, 13) == x + y2);
    let y3 = y2 + ", "@ + "otherServices"@;
    lemma_four(x, y2, ", "@, "otherServices"@);
    assert(listed(c, 14) == x + y3);
    let y4 = y3 + ", "@ + "updateTime"@;
    lemma_four(x, y3, ", "@, "updateTime"@);
    assert(listed(c, 15) == x + y4);
    assert(y4 =~= ", haveMarket, haveShipyard, haveOutfitting, otherServices, updateTime"@) by {
        reveal_strlit("haveMarket");
        reveal_strlit("haveShipyard");
        reveal_strlit("haveOutfitting");
        reveal_strlit("otherServices");
        reveal_strlit("updateTime");
        reveal_strlit(", ");
        reveal_strlit(", haveMarket, haveShipyard, haveOutfitting, otherServices, updateTime");
    }
}

proof fn lemma_station_listed_3()
    ensures
        listed(station_names(), 20) == listed(station_names(), 15)
            + ", realName, carrierName, controllingFaction, controllingFactionState, state"@,
{
    let c = station_names();
    let x = listed(c, 15);
    assert(c[15] == "realName"@);
    assert(c[16] == "carrierName"@);
    assert(c[17] == "controllingFaction"@);
    assert(c[18] == "controllingFactionState"@);
    assert(c[19] == "state"@);
    let y0 = ", "@ + "realName"@;
    lemma_three(x, ", "@, "realName"@);
    assert(listed(c, 16) == x + y0);
    let y1 = y0 + ", "@ + "carrierName"@;
    lemma_four(x, y0, ", "@, "carrierName"@);
    assert(listed(c, 17) == x + y1);
    let y2 = y1 + ", "@ + "controllingFaction"@;
    lemma_four(x, y1, ", "@, "controllingFaction"@);
    assert(listed(c, 18) == x + y2);
    let y3 = y2 + ", "@ + "controllingFactionState"@;
    lemma_four(x, y2, ", "@, "controllingFactionState"@);
    assert(listed(c, 19) == x + y3);
    let y4 = y3 + ", "@ + "state"@;
    lemma_four(x, y3, ", "@, "state"@);
    assert(listed(c, 20) == x + y4);
    assert(y4 =~= ", realName, carrierName, controllingFaction, controllingFactionState, state"@) by {
        reveal_strlit("realName");
        reveal_strlit("carrierName");
        reveal_strlit("controllingFaction");
        reveal_strlit("controllingFactionState");
        reveal_strlit("state");
        reveal_strlit(", ");
        reveal_strlit(", realName, carrierName, controllingFaction, controllingFactionState, state");
    }
}

proof fn lemma_station_listed_4()
    ensures
        listed(station_names(), 25) == listed(station_names(), 20)
            + ", latitude, longitude, landingPads, carrierDockingAccess, economies"@,
{
    let c = station_names();
    let x = listed(c, 20);
    assert(c[20] == "latitude"@);
    assert(c[21] == "longitude"@);
    assert(c[22] == "landingPads"@);
    assert(c[23] == "carrierDockingAccess"@);
    assert(c[24] == "economies"@);
    let y0 = ", "@ + "latitude"@;
    lemma_three(x, ", "@, "latitude"@);
    assert(listed(c, 21) == x + y0);
    let y1 = y0 + ", "@ + "longitude"@;
    lemma_four(x, y0, ", "@, "longitude"@);
    assert(listed(c, 22) == x + y1);
    let y2 = y1 + ", "@ + "landingPads"@;
    lemma_four(x, y1, ", "@, "landingPads"@);
    assert(listed(c, 23) == x + y2);
    let y3 = y2 + ", "@ + "carrierDockingAccess"@;
    lemma_four(x, y2, ", "@, "carrierDockingAccess"@);
    assert(listed(c, 24) == x + y3);
    let y4 = y3 + ", "@ + "economies"@;
    lemma_four(x, y3, ", "@, "economies"@);
    assert(listed(c, 25) == x + y4);
    assert(y4 =~= ", latitude, longitude, landingPads, carrierDockingAccess, economies"@) by {
        reveal_strlit("latitude");
        reveal_strlit("longitude");
        reveal_strlit("landingPads");
        reveal_strlit("carrierDockingAccess");
        reveal_strlit("economies");
        reveal_strlit(", ");
        reveal_strlit(", latitude, longitude, landingPads, carrierDockingAccess, economies");
    }
}

proof fn lemma_station_listed_5()
    ensures
        listed(station_names(), 28) == listed(station_names(), 25)
            + ", market, shipyard, outfitting"@,
{
    let c = station_names();
    let x = listed(c, 25);
    assert(c[25] == "market"@);
    assert(c[26] == "shipyard"@);
    assert(c[27] == "outfitting"@);
    let y0 = ", "@ + "market"@;
    lemma_three(x, ", "@, "market"@);
    assert(listed(c, 26) == x + y0);
    let y1 = y0 + ", "@ + "shipyard"@;
    lemma_four(x, y0, ", "@, "shipyard"@);
    assert(listed(c, 27) == x + y1);
    let y2 = y1 + ", "@ + "outfitting"@;
    lemma_four(x, y1, ", "@, "outfitting"@);
    assert(listed(c, 28) == x + y2);
    assert(y2 =~= ", market, shipyard, outfitting"@) by {
        reveal_strlit("market");
        reveal_strlit("shipyard");
        reveal_strlit("outfitting");
        reveal_strlit(", ");
        reveal_strlit(", market, shipyard, outfitting");
    }
}

proof fn lemma_station_listed()
    ensures
        listed(station_names(), 28) == "id, marketId, systemId64, name, type"@
            + ", distanceToArrival, allegiance, government, economy, secondEconomy"@
            + ", haveMarket, haveShipyard, haveOutfitting, otherServices, updateTime"@
            + ", realName, carrierName, controllingFaction, controllingFactionState, state"@
            + ", latitude, longitude, landingPads, carrierDockingAccess, economies"@
            + ", market, shipyard, outfitting"@,
{
    lemma_station_listed_0();
    lemma_station_listed_1();
    lemma_station_listed_2();
    lemma_station_listed_3();
    lemma_station_listed_4();
    lemma_station_listed_5();
}

/// What is known of a station is put into the columns that are named for it.
pub proof fn law_stations_are_kept_by_column(id64: i64, st: JsonView)
    ensures
        puts_into(SQL_STATION@, "INSERT INTO stations"@, station_names()),
        station_names().len() == 28,
        station_row(id64, st).len() == 28,
        station_names()[0] == "id"@ && station_row(id64, st)[0]
            == int_param(json::i64_in(json::field(st, "id"@))),
        station_names()[1] == "marketId"@ && station_row(id64, st)[1]
            == int_param(json::i64_in(json::field(st, "marketId"@))),
        station_names()[2] == "systemId64"@ && station_row(id64, st)[2] == ParamView::Int(id64),
        station_names()[3] == "name"@ && station_row(id64, st)[3]
            == text_param(json::str_in(json::field(st, "name"@))),
        station_names()[4] == "type"@ && station_row(id64, st)[4]
            == text_param(json::str_in(json::field(st, "type"@))),
        station_names()[5] == "distanceToArrival"@ && station_row(id64, st)[5]
            == double_param(json::num_in(json::field(st, "distanceToArrival"@))),
        station_names()[6] == "allegiance"@ && station_row(id64, st)[6]
            == text_param(json::str_in(json::field(st, "allegiance"@))),
        station_names()[7] == "government"@ && station_row(id64, st)[7]
            == text_param(json::str_in(json::field(st, "government"@))),
        station_names()[8] == "economy"@ && station_row(id64, st)[8]
            == text_param(json::str_in(json::field(st, "primaryEconomy"@))),
        station_names()[9] == "secondEconomy"@ && station_row(id64, st)[9]
            == text_param(json::str_in(json::field(st, "secondaryEconomy"@))),
        station_names()[10] == "haveMarket"@ && station_row(id64, st)[10]
            == one_if(station_services(st).market),
        station_names()[11] == "haveShipyard"@ && station_row(id64, st)[11]
            == one_if(station_services(st).shipyard),
        station_names()[12] == "haveOutfitting"@ && station_row(id64, st)[12]
            == one_if(station_services(st).outfitting),
        station_names()[13] == "otherServices"@ && station_row(id64, st)[13]
            == ParamView::Text(strings_text(station_services(st).other)),
        station_names()[14] == "updateTime"@ && station_row(id64, st)[14]
            == text_param(json::str_in(json::field(st, "updateTime"@))),
        station_names()[15] == "realName"@ && station_row(id64, st)[15]
            == text_param(json::str_in(json::field(st, "realName"@))),
        station_names()[16] == "carrierName"@ && station_row(id64, st)[16]
            == text_param(json::str_in(json::field(st, "carrierName"@))),
        station_names()[17] == "controllingFaction"@ && station_row(id64, st)[17]
            == text_param(json::str_in(json::field(st, "controllingFaction"@))),
        station_names()[18] == "controllingFactionState"@ && station_row(id64, st)[18]
            == text_param(json::str_in(json::field(st, "controllingFactionState"@))),
        station_names()[19] == "state"@ && station_row(id64, st)[19]
            == text_param(json::str_in(json::field(st, "state"@))),
        station_names()[20] == "latitude"@ && station_row(id64, st)[20]
            == double_param(json::num_in(json::field(st, "latitude"@))),
        station_names()[21] == "longitude"@ && station_row(id64, st)[21]
            == double_param(json::num_in(json::field(st, "longitude"@))),
        station_names()[22] == "landingPads"@ && station_row(id64, st)[22]
            == json_param(json::unless_null(json::field(st, "landingPads"@))),
        station_names()[23] == "carrierDockingAccess"@ && station_row(id64, st)[23]
            == text_param(json::str_in(json::field(st, "carrierDockingAccess"@))),
        station_names()[24] == "economies"@ && station_row(id64, st)[24]
            == json_param(json::unless_null(json::field(st, "economies"@))),
        station_names()[25] == "market"@ && station_row(id64, st)[25]
            == json_param(json::unless_null(json::field(st, "market"@))),
        station_names()[26] == "shipyard"@ && station_row(id64, st)[26]
            == json_param(json::unless_null(json::field(st, "shipyard"@))),
        station_names()[27] == "outfitting"@ && station_row(id64, st)[27]
            == json_param(json::unless_null(json::field(st, "outfitting"@))),
{
    lemma_station_start();
    lemma_station_listed();
    let s = SQL_STATION@;
    text::lemma_cuts_join(s, 0, 22, 58);
    text::lemma_cuts_join(s, 0, 58, 125);
    text::lemma_cuts_join(s, 0, 125, 194);
    text::lemma_cuts_join(s, 0, 194, 269);
    text::lemma_cuts_join(s, 0, 269, 336);
    text::lemma_cuts_join(s, 0, 336, 366);
    text::lemma_cuts_join(s, 0, 366, 376);
    let l = "id, marketId, systemId64, name, type"@
        + ", distanceToArrival, allegiance, government, economy, secondEconomy"@
        + ", haveMarket, haveShipyard, haveOutfitting, otherServices, updateTime"@
        + ", realName, carrierName, controllingFaction, controllingFactionState, state"@
        + ", latitude, longitude, landingPads, carrierDockingAccess, economies"@
        + ", market, shipyard, outfitting"@;
    assert("INSERT INTO stations"@ + " ("@ =~= "INSERT INTO stations ("@) by {
        reveal_strlit("INSERT INTO stations");
        reveal_strlit(" (");
        reveal_strlit("INSERT INTO stations (");
    }
    assert(s.take(376) =~= s.subrange(0, 376));
    let start = "INSERT INTO stations ("@ + l + ") VALUES ("@;
    assert(start =~= s.subrange(0, 376));
    assert(start.len() == 376);
}

/// The columns of body.
pub open spec fn body_names() -> Seq<Seq<char>> {
    seq![
        "systemId64"@,
        "bodyId"@,
        "name"@,
        "type"@,
        "subType"@,
        "distanceToArrival"@,
        "isLandable"@,
        "gravity"@,
        "earthMasses"@,
        "radius"@,
        "surfaceTemperature"@,
        "orbitalPeriod"@,
        "semiMajorAxis"@,
        "orbitalEccentricity"@,
        "orbitalInclination"@,
        "argOfPeriapsis"@,
        "rotationalPeriod"@,
        "isTidallyLocked"@,
        "axisTilt"@,
        "volcanismType"@,
        "atmosphereType"@,
        "terraformingState"@,
        "stellarMass"@,
        "absoluteMagnitude"@,
        "age"@,
        "luminosity"@,
        "subclass"@,
        "surfacePressure"@,
        "atmosphereComposition"@,
        "composition"@,
        "rings"@,
        "parents"@,
        "wasDiscovered"@,
        "wasMapped"@,
        "ascendingNode"@,
        "meanAnomaly"@,
        "signals"@,
        "bodyId64"@,
        "mainStar"@,
        "spectralClass"@,
        "solarRadius"@,
        "materials"@,
        "reserveLevel"@,
        "belts"@,
        "updateTime"@,
    ]
}

proof fn lemma_body_start()
    ensures
        SQL_BODY@.len() >= 615,
        SQL_BODY@.subrange(0, 20) == "INSERT INTO bodies ("@,
        SQL_BODY@.subrange(20, 59) == "systemId64, bodyId, name, type, subType"@,
        SQL_BODY@.subrange(59, 120)
            == ", distanceToArrival, isLandable, gravity, earthMasses, radius"@,
        SQL_BODY@.subrange(120, 211)
            == ", surfaceTemperature, orbitalPeriod, semiMajorAxis, orbitalEccentricity, orbitalInclination"@,
        SQL_BODY@.subrange(211, 287)
            == ", argOfPeriapsis, rotationalPeriod, isTidallyLocked, axisTilt, volcanismType"@,
        SQL_BODY@.subrange(287, 359)
            == ", atmosphereType, terraformingState, stellarMass, absoluteMagnitude, age"@,
        SQL_BODY@.subrange(359, 434)
            == ", luminosity, subclass, surfacePressure, atmosphereComposition, composition"@,
        SQL_BODY@.subrange(434, 491)
            == ", rings, parents, wasDiscovered, wasMapped, ascendingNode"@,
        SQL_BODY@.subrange(491, 548)
            == ", meanAnomaly, signals, bodyId64, mainStar, spectralClass"@,
        SQL_BODY@.subrange(548, 605)
            == ", solarRadius, materials, reserveLevel, belts, updateTime"@,
        SQL_BODY@.subrange(605, 615) == ") VALUES ("@,
{
    reveal_strlit("INSERT INTO bodies (systemId64, bodyId, name, type, subType, distanceToArrival, isLandable, gravity, earthMasses, radius, surfaceTemperature, orbitalPeriod, semiMajorAxis, orbitalEccentricity, orbitalInclination, argOfPeriapsis, rotationalPeriod, isTidallyLocked, axisTilt, volcanismType, atmosphereType, terraformingState, stellarMass, absoluteMagnitude, age, luminosity, subclass, surfacePressure, atmosphereComposition, composition, rings, parents, wasDiscovered, wasMapped, ascendingNode, meanAnomaly, signals, bodyId64, mainStar, spectralClass, solarRadius, materials, reserveLevel, belts, updateTime) VALUES (?,?,?,?,?,?,?,?,?,?,?,?,?,?,?,?,?,?,?,?,?,?,?,?,?,?,?,?,?,?,?,?,?,?,?,?,?,?,?,?,?,?,?,?,?) ON CONFLICT(systemId64, bodyId) DO UPDATE SET name = COALESCE(excluded.name, bodies.name), type = COALESCE(excluded.type, bodies.type), subType = COALESCE(excluded.subType, bodies.subType), distanceToArrival = COALESCE(excluded.distanceToArrival, bodies.distanceToArrival), isLandable = COALESCE(excluded.isLandable, bodies.isLandable), gravity = COALESCE(excluded.gravity, bodies.gravity), earthMasses = COALESCE(excluded.earthMasses, bodies.earthMasses), radius = COALESCE(excluded.radius, bodies.radius), surfaceTemperature = COALESCE(excluded.surfaceTemperature, bodies.surfaceTemperature), orbitalPeriod = COALESCE(excluded.orbitalPeriod, bodies.orbitalPeriod), semiMajorAxis = COALESCE(excluded.semiMajorAxis, bodies.semiMajorAxis), orbitalEccentricity = COALESCE(excluded.orbitalEccentricity, bodies.orbitalEccentricity), orbitalInclination = COALESCE(excluded.orbitalInclination, bodies.orbitalInclination), argOfPeriapsis = COALESCE(excluded.argOfPeriapsis, bodies.argOfPeriapsis), rotationalPeriod = COALESCE(excluded.rotationalPeriod, bodies.rotationalPeriod), isTidallyLocked = COALESCE(excluded.isTidallyLocked, bodies.isTidallyLocked), axisTilt = COALESCE(excluded.axisTilt, bodies.axisTilt), volcanismType = COALESCE(excluded.volcanismType, bodies.volcanismType), atmosphereType = COALESCE(excluded.atmosphereType, bodies.atmosphereType), terraformingState = COALESCE(excluded.terraformingState, bodies.terraformingState), stellarMass = COALESCE(excluded.stellarMass, bodies.stellarMass), absoluteMagnitude = COALESCE(excluded.absoluteMagnitude, bodies.absoluteMagnitude), age = COALESCE(excluded.age, bodies.age), luminosity = COALESCE(excluded.luminosity, bodies.luminosity), subclass = COALESCE(excluded.subclass, bodies.subclass), surfacePressure = COALESCE(excluded.surfacePressure, bodies.surfacePressure), atmosphereComposition = COALESCE(excluded.atmosphereComposition, bodies.atmosphereComposition), composition = COALESCE(excluded.composition, bodies.composition), rings = COALESCE(excluded.rings, bodies.rings), parents = COALESCE(excluded.parents, bodies.parents), wasDiscovered = COALESCE(excluded.wasDiscovered, bodies.wasDiscovered), wasMapped = COALESCE(excluded.wasMapped, bodies.wasMapped), ascendingNode = COALESCE(excluded.ascendingNode, bodies.ascendingNode), meanAnomaly = COALESCE(excluded.meanAnomaly, bodies.meanAnomaly), signals = COALESCE(excluded.signals, bodies.signals), bodyId64 = COALESCE(excluded.bodyId64, bodies.bodyId64), mainStar = COALESCE(excluded.mainStar, bodies.mainStar), spectralClass = COALESCE(excluded.spectralClass, bodies.spectralClass), solarRadius = COALESCE(excluded.solarRadius, bodies.solarRadius), materials = COALESCE(excluded.materials, bodies.materials), reserveLevel = COALESCE(excluded.reserveLevel, bodies.reserveLevel), belts = COALESCE(excluded.belts, bodies.belts), updateTime = COALESCE(excluded.updateTime, bodies.updateTime)");
    assert(SQL_BODY@.subrange(0, 20) =~= "INSERT INTO bodies ("@) by {
        reveal_strlit("INSERT INTO bodies (");
    }
    assert(SQL_BODY@.subrange(20, 59) =~= "systemId64, bodyId, name, type, subType"@) by {
        reveal_strlit("systemId64, bodyId, name, type, subType");
    }
    assert(SQL_BODY@.subrange(59,
        120) =~= ", distanceToArrival, isLandable, gravity, earthMasses, radius"@) by {
        reveal_strlit(", distanceToArrival, isLandable, gravity, earthMasses, radius");
    }
    assert(SQL_BODY@.subrange(120,
        211) =~= ", surfaceTemperature, orbitalPeriod, semiMajorAxis, orbitalEccentricity, orbitalInclination"@) by {
        reveal_strlit(", surfaceTemperature, orbitalPeriod, semiMajorAxis, orbitalEccentricity, orbitalInclination");
    }
    assert(SQL_BODY@.subrange(211,
        287) =~= ", argOfPeriapsis, rotationalPeriod, isTidallyLocked, axisTilt, volcanismType"@) by {
        reveal_strlit(", argOfPeriapsis, rotationalPeriod, isTidallyLocked, axisTilt, volcanismType");
    }
    assert(SQL_BODY@.subrange(287,
        359) =~= ", atmosphereType, terraformingState, stellarMass, absoluteMagnitude, age"@) by {
        reveal_strlit(", atmosphereType, terraformingState, stellarMass, absoluteMagnitude, age");
    }
    assert(SQL_BODY@.subrange(359,
        434) =~= ", luminosity, subclass, surfacePressure, atmosphereComposition, composition"@) by {
        reveal_strlit(", luminosity, subclass, surfacePressure, atmosphereComposition, composition");
    }
    assert(SQL_BODY@.subrange(434,
        491) =~= ", rings, parents, wasDiscovered, wasMapped, ascendingNode"@) by {
        reveal_strlit(", rings, parents, wasDiscovered, wasMapped, ascendingNode");
    }
    assert(SQL_BODY@.subrange(491,
        548) =~= ", meanAnomaly, signals, bodyId64, mainStar, spectralClass"@) by {
        reveal_strlit(", meanAnomaly, signals, bodyId64, mainStar, spectralClass");
    }
    assert(SQL_BODY@.subrange(548,
        605) =~= ", solarRadius, materials, reserveLevel, belts, updateTime"@) by {
        reveal_strlit(", solarRadius, materials, reserveLevel, belts, updateTime");
    }
    assert(SQL_BODY@.subrange(605, 615) =~= ") VALUES ("@) by {
        reveal_strlit(") VALUES (");
    }
}

proof fn lemma_body_listed_0()
    ensures
        listed(body_names(), 5) == "systemId64, bodyId, name, type, subType"@,
{
    let c = body_names();
    assert(c[0] == "systemId64"@);
    assert(c[1] == "bodyId"@);
    assert(c[2] == "name"@);
    assert(c[3] == "type"@);
    assert(c[4] == "subType"@);
    let y0 = "systemId64"@;
    assert(listed(c, 1) == y0);
    let y1 = y0 + ", "@ + "bodyId"@;
    assert(listed(c, 2) == y1);
    let y2 = y1 + ", "@ + "name"@;
    assert(listed(c, 3) == y2);
    let y3 = y2 + ", "@ + "type"@;
    assert(listed(c, 4) == y3);
    let y4 = y3 + ", "@ + "subType"@;
    assert(listed(c, 5) == y4);
    assert(y4 =~= "systemId64, bodyId, name, type, subType"@) by {
        reveal_strlit("systemId64");
        reveal_strlit("bodyId");
        reveal_strlit("name");
        reveal_strlit("type");
        reveal_strlit("subType");
        reveal_strlit(", ");
        reveal_strlit("systemId64, bodyId, name, type, subType");
    }
}

proof fn lemma_body_listed_1()
    ensures
        listed(body_names(), 10) == listed(body_names(), 5)
            + ", distanceToArrival, isLandable, gravity, earthMasses, radius"@,
{
    let c = body_names();
    let x = listed(c, 5);
    assert(c[5] == "distanceToArrival"@);
    assert(c[6] == "isLandable"@);
    assert(c[7] == "gravity"@);
    assert(c[8] == "earthMasses"@);
    assert(c[9] == "radius"@);
    let y0 = ", "@ + "distanceToArrival"@;
    lemma_three(x, ", "@, "distanceToArrival"@);
    assert(listed(c, 6) == x + y0);
    let y1 = y0 + ", "@ + "isLandable"@;
    lemma_four(x, y0, ", "@, "isLandable"@);
    assert(listed(c, 7) == x + y1);
    let y2 = y1 + ", "@ + "gravity"@;
    lemma_four(x, y1, ", "@, "gravity"@);
    assert(listed(c, 8) == x + y2);
    let y3 = y2 + ", "@ + "earthMasses"@;
    lemma_four(x, y2, ", "@, "earthMasses"@);
    assert(listed(c, 9) == x + y3);
    let y4 = y3 + ", "@ + "radius"@;
    lemma_four(x, y3, ", "@, "radius"@);
    assert(listed(c, 10) == x + y4);
    assert(y4 =~= ", distanceToArrival, isLandable, gravity, earthMasses, radius"@) by {
        reveal_strlit("distanceToArrival");
        reveal_strlit("isLandable");
        reveal_strlit("gravity");
        reveal_strlit("earthMasses");
        reveal_strlit("radius");
        reveal_strlit(", ");
        reveal_strlit(", distanceToArrival, isLandable, gravity, earthMasses, radius");
    }
}

proof fn lemma_body_listed_2()
    ensures
        listed(body_names(), 15) == listed(body_names(), 10)
            + ", surfaceTemperature, orbitalPeriod, semiMajorAxis, orbitalEccentricity, orbitalInclination"@,
{
    let c = body_names();
    let x = listed(c, 10);
    assert(c[10] == "surfaceTemperature"@);
    assert(c[11] == "orbitalPeriod"@);
    assert(c[12] == "semiMajorAxis"@);
    assert(c[13] == "orbitalEccentricity"@);
    assert(c[14] == "orbitalInclination"@);
    let y0 = ", "@ + "surfaceTemperature"@;
    lemma_three(x, ", "@, "surfaceTemperature"@);
    assert(listed(c, 11) == x + y0);
    let y1 = y0 + ", "@ + "orbitalPeriod"@;
    lemma_four(x, y0, ", "@, "orbitalPeriod"@);
    assert(listed(c, 12) == x + y1);
    let y2 = y1 + ", "@ + "semiMajorAxis"@;
    lemma_four(x, y1, ", "@, "semiMajorAxis"@);
    assert(listed(c, 13) == x + y2);
    let y3 = y2 + ", "@ + "orbitalEccentricity"@;
    lemma_four(x, y2, ", "@, "orbitalEccentricity"@);
    assert(listed(c, 14) == x + y3);
    let y4 = y3 + ", "@ + "orbitalInclination"@;
    lemma_four(x, y3, ", "@, "orbitalInclination"@);
    assert(listed(c, 15) == x + y4);
    assert(y4 =~= ", surfaceTemperature, orbitalPeriod, semiMajorAxis, orbitalEccentricity, orbitalInclination"@) by {
        reveal_strlit("surfaceTemperature");
        reveal_strlit("orbitalPeriod");
        reveal_strlit("semiMajorAxis");
        reveal_strlit("orbitalEccentricity");
        reveal_strlit("orbitalInclination");
        reveal_strlit(", ");
        reveal_strlit(", surfaceTemperature, orbitalPeriod, semiMajorAxis, orbitalEccentricity, orbitalInclination");
    }
}

proof fn lemma_body_listed_3()
    ensures
        listed(body_names(), 20) == listed(body_names(), 15)
            + ", argOfPeriapsis, rotationalPeriod, isTidallyLocked, axisTilt, volcanismType"@,
{
    let c = body_names();
    let x = listed(c, 15);
    assert(c[15] == "argOfPeriapsis"@);
    assert(c[16] == "rotationalPeriod"@);
    assert(c[17] == "isTidallyLocked"@);
    assert(c[18] == "axisTilt"@);
    assert(c[19] == "volcanismType"@);
    let y0 = ", "@ + "argOfPeriapsis"@;
    lemma_three(x, ", "@, "argOfPeriapsis"@);
    assert(listed(c, 16) == x + y0);
    let y1 = y0 + ", "@ + "rotationalPeriod"@;
    lemma_four(x, y0, ", "@, "rotationalPeriod"@);
    assert(listed(c, 17) == x + y1);
    let y2 = y1 + ", "@ + "isTidallyLocked"@;
    lemma_four(x, y1, ", "@, "isTidallyLocked"@);
    assert(listed(c, 18) == x + y2);
    let y3 = y2 + ", "@ + "axisTilt"@;
    lemma_four(x, y2, ", "@, "axisTilt"@);
    assert(listed(c, 19) == x + y3);
    let y4 = y3 + ", "@ + "volcanismType"@;
    lemma_four(x, y3, ", "@, "volcanismType"@);
    assert(listed(c, 20) == x + y4);
    assert(y4 =~= ", argOfPeriapsis, rotationalPeriod, isTidallyLocked, axisTilt, volcanismType"@) by {
        reveal_strlit("argOfPeriapsis");
        reveal_strlit("rotationalPeriod");
        reveal_strlit("isTidallyLocked");
        reveal_strlit("axisTilt");
        reveal_strlit("volcanismType");
        reveal_strlit(", ");
        reveal_strlit(", argOfPeriapsis, rotationalPeriod, isTidallyLocked, axisTilt, volcanismType");
    }
}

proof fn lemma_body_listed_4()
    ensures
        listed(body_names(), 25) == listed(body_names(), 20)
            + ", atmosphereType, terraformingState, stellarMass, absoluteMagnitude, age"@,
{
    let c = body_names();
    let x = listed(c, 20);
    assert(c[20] == "atmosphereType"@);
    assert(c[21] == "terraformingState"@);
    assert(c[22] == "stellarMass"@);
    assert(c[23] == "absoluteMagnitude"@);
    assert(c[24] == "age"@);
    let y0 = ", "@ + "atmosphereType"@;
    lemma_three(x, ", "@, "atmosphereType"@);
    assert(listed(c, 21) == x + y0);
    let y1 = y0 + ", "@ + "terraformingState"@;
    lemma_four(x, y0, ", "@, "terraformingState"@);
    assert(listed(c, 22) == x + y1);
    let y2 = y1 + ", "@ + "stellarMass"@;
    lemma_four(x, y1, ", "@, "stellarMass"@);
    assert(listed(c, 23) == x + y2);
    let y3 = y2 + ", "@ + "absoluteMagnitude"@;
    lemma_four(x, y2, ", "@, "absoluteMagnitude"@);
    assert(listed(c, 24) == x + y3);
    let y4 = y3 + ", "@ + "age"@;
    lemma_four(x, y3, ", "@, "age"@);
    assert(listed(c, 25) == x + y4);
    assert(y4 =~= ", atmosphereType, terraformingState, stellarMass, absoluteMagnitude, age"@) by {
        reveal_strlit("atmosphereType");
        reveal_strlit("terraformingState");
        reveal_strlit("stellarMass");
        reveal_strlit("absoluteMagnitude");
        reveal_strlit("age");
        reveal_strlit(", ");
        reveal_strlit(", atmosphereType, terraformingState, stellarMass, absoluteMagnitude, age");
    }
}

proof fn lemma_body_listed_5()
    ensures
        listed(body_names(), 30) == listed(body_names(), 25)
            + ", luminosity, subclass, surfacePressure, atmosphereComposition, composition"@,
{
    let c = body_names();
    let x = listed(c, 25);
    assert(c[25] == "luminosity"@);
    assert(c[26] == "subclass"@);
    assert(c[27] == "surfacePressure"@);
    assert(c[28] == "atmosphereComposition"@);
    assert(c[29] == "composition"@);
    let y0 = ", "@ + "luminosity"@;
    lemma_three(x, ", "@, "luminosity"@);
    assert(listed(c, 26) == x + y0);
    let y1 = y0 + ", "@ + "subclass"@;
    lemma_four(x, y0, ", "@, "subclass"@);
    assert(listed(c, 27) == x + y1);
    let y2 = y1 + ", "@ + "surfacePressure"@;
    lemma_four(x, y1, ", "@, "surfacePressure"@);
    assert(listed(c, 28) == x + y2);
    let y3 = y2 + ", "@ + "atmosphereComposition"@;
    lemma_four(x, y2, ", "@, "atmosphereComposition"@);
    assert(listed(c, 29) == x + y3);
    let y4 = y3 + ", "@ + "composition"@;
    lemma_four(x, y3, ", "@, "composition"@);
    assert(listed(c, 30) == x + y4);
    assert(y4 =~= ", luminosity, subclass, surfacePressure, atmosphereComposition, composition"@) by {
        reveal_strlit("luminosity");
        reveal_strlit("subclass");
        reveal_strlit("surfacePressure");
        reveal_strlit("atmosphereComposition");
        reveal_strlit("composition");
        reveal_strlit(", ");
        reveal_strlit(", luminosity, subclass, surfacePressure, atmosphereComposition, composition");
    }
}

proof fn lemma_body_listed_6()
    ensures
        listed(body_names(), 35) == listed(body_names(), 30)
            + ", rings, parents, wasDiscovered, wasMapped, ascendingNode"@,
{
    let c = body_names();
    let x = listed(c, 30);
    assert(c[30] == "rings"@);
    assert(c[31] == "parents"@);
    assert(c[32] == "wasDiscovered"@);
    assert(c[33] == "wasMapped"@);
    assert(c[34] == "ascendingNode"@);
    let y0 = ", "@ + "rings"@;
    lemma_three(x, ", "@, "rings"@);
    assert(listed(c, 31) == x + y0);
    let y1 = y0 + ", "@ + "parents"@;
    lemma_four(x, y0, ", "@, "parents"@);
    assert(listed(c, 32) == x + y1);
    let y2 = y1 + ", "@ + "wasDiscovered"@;
    lemma_four(x, y1, ", "@, "wasDiscovered"@);
    assert(listed(c, 33) == x + y2);
    let y3 = y2 + ", "@ + "wasMapped"@;
    lemma_four(x, y2, ", "@, "wasMapped"@);
    assert(listed(c, 34) == x + y3);
    let y4 = y3 + ", "@ + "ascendingNode"@;
    lemma_four(x, y3, ", "@, "ascendingNode"@);
    assert(listed(c, 35) == x + y4);
    assert(y4 =~= ", rings, parents, wasDiscovered, wasMapped, ascendingNode"@) by {
        reveal_strlit("rings");
        reveal_strlit("parents");
        reveal_strlit("wasDiscovered");
        reveal_strlit("wasMapped");
        reveal_strlit("ascendingNode");
        reveal_strlit(", ");
        reveal_strlit(", rings, parents, wasDiscovered, wasMapped, ascendingNode");
    }
}

proof fn lemma_body_listed_7()
    ensures
        listed(body_names(), 40) == listed(body_names(), 35)
            + ", meanAnomaly, signals, bodyId64, mainStar, spectralClass"@,
{
    let c = body_names();
    let x = listed(c, 35);
    assert(c[35] == "meanAnomaly"@);
    assert(c[36] == "signals"@);
    assert(c[37] == "bodyId64"@);
    assert(c[38] == "mainStar"@);
    assert(c[39] == "spectralClass"@);
    let y0 = ", "@ + "meanAnomaly"@;
    lemma_three(x, ", "@, "meanAnomaly"@);
    assert(listed(c, 36) == x + y0);
    let y1 = y0 + ", "@ + "signals"@;
    lemma_four(x, y0, ", "@, "signals"@);
    assert(listed(c, 37) == x + y1);
    let y2 = y1 + ", "@ + "bodyId64"@;
    lemma_four(x, y1, ", "@, "bodyId64"@);
    assert(listed(c, 38) == x + y2);
    let y3 = y2 + ", "@ + "mainStar"@;
    lemma_four(x, y2, ", "@, "mainStar"@);
    assert(listed(c, 39) == x + y3);
    let y4 = y3 + ", "@ + "spectralClass"@;
    lemma_four(x, y3, ", "@, "spectralClass"@);
    assert(listed(c, 40) == x + y4);
    assert(y4 =~= ", meanAnomaly, signals, bodyId64, mainStar, spectralClass"@) by {
        reveal_strlit("meanAnomaly");
        reveal_strlit("signals");
        reveal_strlit("bodyId64");
        reveal_strlit("mainStar");
        reveal_strlit("spectralClass");
        reveal_strlit(", ");
        reveal_strlit(", meanAnomaly, signals, bodyId64, mainStar, spectralClass");
    }
}

proof fn lemma_body_listed_8()
    ensures
        listed(body_names(), 45) == listed(body_names(), 40)
            + ", solarRadius, materials, reserveLevel, belts, updateTime"@,
{
    let c = body_names();
    let x = listed(c, 40);
    assert(c[40] == "solarRadius"@);
    assert(c[41] == "materials"@);
    assert(c[42] == "reserveLevel"@);
    assert(c[43] == "belts"@);
    assert(c[44] == "updateTime"@);
    let y0 = ", "@ + "solarRadius"@;
    lemma_three(x, ", "@, "solarRadius"@);
    assert(listed(c, 41) == x + y0);
    let y1 = y0 + ", "@ + "materials"@;
    lemma_four(x, y0, ", "@, "materials"@);
    assert(listed(c, 42) == x + y1);
    let y2 = y1 + ", "@ + "reserveLevel"@;
    lemma_four(x, y1, ", "@, "reserveLevel"@);
    assert(listed(c, 43) == x + y2);
    let y3 = y2 + ", "@ + "belts"@;
    lemma_four(x, y2, ", "@, "belts"@);
    assert(listed(c, 44) == x + y3);
    let y4 = y3 + ", "@ + "updateTime"@;
    lemma_four(x, y3, ", "@, "updateTime"@);
    assert(listed(c, 45) == x + y4);
    assert(y4 =~= ", solarRadius, materials, reserveLevel, belts, updateTime"@) by {
        reveal_strlit("solarRadius");
        reveal_strlit("materials");
        reveal_strlit("reserveLevel");
        reveal_strlit("belts");
        reveal_strlit("updateTime");
        reveal_strlit(", ");
        reveal_strlit(", solarRadius, materials, reserveLevel, belts, updateTime");
    }
}

proof fn lemma_body_listed()
    ensures
        listed(body_names(), 45) == "systemId64, bodyId, name, type, subType"@
            + ", distanceToArrival, isLandable, gravity, earthMasses, radius"@
            + ", surfaceTemperature, orbitalPeriod, semiMajorAxis, orbitalEccentricity, orbitalInclination"@
            + ", argOfPeriapsis, rotationalPeriod, isTidallyLocked, axisTilt, volcanismType"@
            + ", atmosphereType, terraformingState, stellarMass, absoluteMagnitude, age"@
            + ", luminosity, subclass, surfacePressure, atmosphereComposition, composition"@
            + ", rings, parents, wasDiscovered, wasMapped, ascendingNode"@
            + ", meanAnomaly, signals, bodyId64, mainStar, spectralClass"@
            + ", solarRadius, materials, reserveLevel, belts, updateTime"@,
{
    lemma_body_listed_0();
    lemma_body_listed_1();
    lemma_body_listed_2();
    lemma_body_listed_3();
    lemma_body_listed_4();
    lemma_body_listed_5();
    lemma_body_listed_6();
    lemma_body_listed_7();
    lemma_body_listed_8();
}

/// What is known of a body is put into the columns that are named for it.
pub proof fn law_bodies_are_kept_by_column(id64: i64, b: JsonView)
    ensures
        puts_into(SQL_BODY@, "INSERT INTO bodies"@, body_names()),
        body_names().len() == 45,
        body_row(id64, b).len() == 45,
        body_names()[0] == "systemId64"@ && body_row(id64, b)[0] == ParamView::Int(id64),
        body_names()[1] == "bodyId"@ && body_row(id64, b)[1]
            == int_param(json::i64_in(json::field(b, "bodyId"@))),
        body_names()[2] == "name"@ && body_row(id64, b)[2] == text_param(json::str_in(json::field(b,
            "name"@))),
        body_names()[3] == "type"@ && body_row(id64, b)[3] == text_param(json::str_in(json::field(b,
            "type"@))),
        body_names()[4] == "subType"@ && body_row(id64, b)[4]
            == text_param(json::str_in(json::field(b, "subType"@))),
        body_names()[5] == "distanceToArrival"@ && body_row(id64, b)[5]
            == double_param(json::num_in(json::field(b, "distanceToArrival"@))),
        body_names()[6] == "isLandable"@ && body_row(id64, b)[6] == yes_no(json::field(b,
            "isLandable"@)),
        body_names()[7] == "gravity"@ && body_row(id64, b)[7]
            == double_param(json::num_in(json::field(b, "gravity"@))),
        body_names()[8] == "earthMasses"@ && body_row(id64, b)[8]
            == double_param(json::num_in(json::field(b, "earthMasses"@))),
        body_names()[9] == "radius"@ && body_row(id64, b)[9]
            == double_param(json::num_in(json::field(b, "radius"@))),
        body_names()[10] == "surfaceTemperature"@ && body_row(id64, b)[10] == temperature(b),
        body_names()[11] == "orbitalPeriod"@ && body_row(id64, b)[11]
            == double_param(json::num_in(json::field(b, "orbitalPeriod"@))),
        body_names()[12] == "semiMajorAxis"@ && body_row(id64, b)[12]
            == double_param(json::num_in(json::field(b, "semiMajorAxis"@))),
        body_names()[13] == "orbitalEccentricity"@ && body_row(id64, b)[13]
            == double_param(json::num_in(json::field(b, "orbitalEccentricity"@))),
        body_names()[14] == "orbitalInclination"@ && body_row(id64, b)[14]
            == double_param(json::num_in(json::field(b, "orbitalInclination"@))),
        body_names()[15] == "argOfPeriapsis"@ && body_row(id64, b)[15]
            == double_param(json::num_in(json::field(b, "argOfPeriapsis"@))),
        body_names()[16] == "rotationalPeriod"@ && body_row(id64, b)[16]
            == double_param(json::num_in(json::field(b, "rotationalPeriod"@))),
        body_names()[17] == "isTidallyLocked"@ && body_row(id64, b)[17] == yes_no(json::field(b,
            "rotationalPeriodTidallyLocked"@)),
        body_names()[18] == "axisTilt"@ && body_row(id64, b)[18]
            == double_param(json::num_in(json::field(b, "axialTilt"@))),
        body_names()[19] == "volcanismType"@ && body_row(id64, b)[19]
            == text_param(json::str_in(json::field(b, "volcanismType"@))),
        body_names()[20] == "atmosphereType"@ && body_row(id64, b)[20]
            == text_param(json::str_in(json::field(b, "atmosphereType"@))),
        body_names()[21] == "terraformingState"@ && body_row(id64, b)[21]
            == text_param(json::str_in(json::field(b, "terraformingState"@))),
        body_names()[22] == "stellarMass"@ && body_row(id64, b)[22] == double_param(either_num(b,
            "solarMasses"@, "stellarMass"@)),
        body_names()[23] == "absoluteMagnitude"@ && body_row(id64, b)[23]
            == double_param(json::num_in(json::field(b, "absoluteMagnitude"@))),
        body_names()[24] == "age"@ && body_row(id64, b)[24] == int_param(json::i64_in(json::field(b,
            "age"@))),
        body_names()[25] == "luminosity"@ && body_row(id64, b)[25]
            == text_param(json::str_in(json::field(b, "luminosity"@))),
        body_names()[26] == "subclass"@ && body_row(id64, b)[26]
            == int_param(json::i64_in(json::field(b, "subclass"@))),
        body_names()[27] == "surfacePressure"@ && body_row(id64, b)[27]
            == double_param(json::num_in(json::field(b, "surfacePressure"@))),
        body_names()[28] == "atmosphereComposition"@ && body_row(id64, b)[28]
            == json_param(json::unless_null(json::field(b, "atmosphereComposition"@))),
        body_names()[29] == "composition"@ && body_row(id64, b)[29]
            == json_param(json::unless_null(either_field(b, "solidComposition"@, "composition"@))),
        body_names()[30] == "rings"@ && body_row(id64, b)[30]
            == json_param(json::unless_null(json::field(b, "rings"@))),
        body_names()[31] == "parents"@ && body_row(id64, b)[31]
            == json_param(json::unless_null(json::field(b, "parents"@))),
        body_names()[32] == "wasDiscovered"@ && body_row(id64, b)[32]
            == int_param(known_flag(json::field(b, "wasDiscovered"@))),
        body_names()[33] == "wasMapped"@ && body_row(id64, b)[33]
            == int_param(known_flag(json::field(b, "wasMapped"@))),
        body_names()[34] == "ascendingNode"@ && body_row(id64, b)[34]
            == double_param(json::num_in(json::field(b, "ascendingNode"@))),
        body_names()[35] == "meanAnomaly"@ && body_row(id64, b)[35]
            == double_param(json::num_in(json::field(b, "meanAnomaly"@))),
        body_names()[36] == "signals"@ && body_row(id64, b)[36]
            == json_param(json::unless_null(json::field(b, "signals"@))),
        body_names()[37] == "bodyId64"@ && body_row(id64, b)[37]
            == int_param(json::i64_in(json::field(b, "id64"@))),
        body_names()[38] == "mainStar"@ && body_row(id64, b)[38]
            == int_param( match flag(json::field(b, "mainStar"@)) { Some(f) => Some(f as i64),
            None => None, }, ),
        body_names()[39] == "spectralClass"@ && body_row(id64, b)[39]
            == text_param(json::str_in(json::field(b, "spectralClass"@))),
        body_names()[40] == "solarRadius"@ && body_row(id64, b)[40]
            == double_param(json::num_in(json::field(b, "solarRadius"@))),
        body_names()[41] == "materials"@ && body_row(id64, b)[41]
            == json_param(json::unless_null(json::field(b, "materials"@))),
        body_names()[42] == "reserveLevel"@ && body_row(id64, b)[42]
            == text_param(json::str_in(json::field(b, "reserveLevel"@))),
        body_names()[43] == "belts"@ && body_row(id64, b)[43]
            == json_param(json::unless_null(json::field(b, "belts"@))),
        body_names()[44] == "updateTime"@ && body_row(id64, b)[44]
            == text_param(json::str_in(json::field(b, "updateTime"@))),
{
    lemma_body_start();
    lemma_body_listed();
    let s = SQL_BODY@;
    text::lemma_cuts_join(s, 0, 20, 59);
    text::lemma_cuts_join(s, 0, 59, 120);
    text::lemma_cuts_join(s, 0, 120, 211);
    text::lemma_cuts_join(s, 0, 211, 287);
    text::lemma_cuts_join(s, 0, 287, 359);
    text::lemma_cuts_join(s, 0, 359, 434);
    text::lemma_cuts_join(s, 0, 434, 491);
    text::lemma_cuts_join(s, 0, 491, 548);
    text::lemma_cuts_join(s, 0, 548, 605);
    text::lemma_cuts_join(s, 0, 605, 615);
    let l = "systemId64, bodyId, name, type, subType"@
        + ", distanceToArrival, isLandable, gravity, earthMasses, radius"@
        + ", surfaceTemperature, orbitalPeriod, semiMajorAxis, orbitalEccentricity, orbitalInclination"@
        + ", argOfPeriapsis, rotationalPeriod, isTidallyLocked, axisTilt, volcanismType"@
        + ", atmosphereType, terraformingState, stellarMass, absoluteMagnitude, age"@
        + ", luminosity, subclass, surfacePressure, atmosphereComposition, composition"@
        + ", rings, parents, wasDiscovered, wasMapped, ascendingNode"@
        + ", meanAnomaly, signals, bodyId64, mainStar, spectralClass"@
        + ", solarRadius, materials, reserveLevel, belts, updateTime"@;
    assert("INSERT INTO bodies"@ + " ("@ =~= "INSERT INTO bodies ("@) by {
        reveal_strlit("INSERT INTO bodies");
        reveal_strlit(" (");
        reveal_strlit("INSERT INTO bodies (");
    }
    assert(s.take(615) =~= s.subrange(0, 615));
    let start = "INSERT INTO bodies ("@ + l + ") VALUES ("@;
    assert(start =~= s.subrange(0, 615));
    assert(start.len() == 615);
}

/// One of the first `n` values of a list is a text.
pub open spec fn says(list: Seq<JsonView>, n: int, t: Seq<char>) -> bool {
    exists|i: int| 0 <= i < n && #[trigger] list[i] == JsonView::Str(t)
}

/// A market, a shipyard and outfitting are there where the services name them;
/// what else they name is kept, but for the docks that every station has.
pub proof fn law_services_are_what_is_named(list: Seq<JsonView>, n: int)
    requires
        0 <= n <= list.len(),
    ensures
        services_of(list, n).market <==> says(list, n, "Market"@),
        services_of(list, n).shipyard <==> says(list, n, "Shipyard"@),
        services_of(list, n).outfitting <==> says(list, n, "Outfitting"@),
        forall|t: Seq<char>| #[trigger]
            services_of(list, n).other.contains(t) <==> says(list, n, t) && t != "Market"@ && t
                != "Shipyard"@ && t != "Outfitting"@ && t != "Dock"@ && t != "Autodock"@,
    decreases n,
{
    reveal_strlit("Market");
    reveal_strlit("Shipyard");
    reveal_strlit("Outfitting");
    reveal_strlit("Dock");
    reveal_strlit("Autodock");
    assert("Market"@.len() == 6 && "Outfitting"@.len() == 10 && "Dock"@.len() == 4);
    assert("Shipyard"@.len() == 8 && "Autodock"@.len() == 8 && "Shipyard"@[0] != "Autodock"@[0]);
    if n > 0 {
        law_services_are_what_is_named(list, n - 1);
        let v = list[n - 1];
        assert forall|t: Seq<char>| #[trigger] says(list, n, t) <==> says(list, n - 1, t) || v
            == JsonView::Str(t) by {
            if says(list, n - 1, t) {
                let i = choose|i: int| 0 <= i < n - 1 && #[trigger] list[i] == JsonView::Str(t);
                assert(list[i] == JsonView::Str(t));
            }
        }
        let s = services_of(list, n - 1);
        let r = services_of(list, n);
        assert forall|t: Seq<char>| #[trigger]
            r.other.contains(t) <==> says(list, n, t) && t != "Market"@ && t != "Shipyard"@ && t
                != "Outfitting"@ && t != "Dock"@ && t != "Autodock"@ by {
            assert(s.other.contains(t) <==> says(list, n - 1, t) && t != "Market"@ && t
                != "Shipyard"@ && t != "Outfitting"@ && t != "Dock"@ && t != "Autodock"@);
            if v is Str {
                lemma_push_contains(s.other, v->Str_0, t);
            }
        }
    } else {
        assert forall|t: Seq<char>| !(#[trigger] services_of(list, n).other.contains(t)) by {}
    }
}

proof fn lemma_push_contains<A>(s: Seq<A>, x: A, y: A)
    ensures
        s.push(x).contains(y) <==> s.contains(y) || x == y,
{
    assert(s.push(x)[s.len() as int] == x);
    if s.contains(y) {
        let i = choose|i: int| 0 <= i < s.len() && s[i] == y;
        assert(s.push(x)[i] == y);
    }
    if s.push(x).contains(y) {
        let i = choose|i: int| 0 <= i < s.push(x).len() && s.push(x)[i] == y;
        if i < s.len() {
            assert(s[i] == y);
        }
    }
}

proof fn lemma_sum_contains<A>(s: Seq<A>, t: Seq<A>, y: A)
    ensures
        (s + t).contains(y) <==> s.contains(y) || t.contains(y),
{
    if s.contains(y) {
        let i = choose|i: int| 0 <= i < s.len() && s[i] == y;
        assert((s + t)[i] == y);
    }
    if t.contains(y) {
        let i = choose|i: int| 0 <= i < t.len() && t[i] == y;
        assert((s + t)[s.len() + i] == y);
    }
    if (s + t).contains(y) {
        let i = choose|i: int| 0 <= i < (s + t).len() && (s + t)[i] == y;
        if i < s.len() {
            assert(s[i] == y);
        } else {
            assert(t[i - s.len()] == y);
        }
    }
}

/// One of the first `n` bodies is a neutron star.
pub open spec fn has_neutron(bodies: Seq<JsonView>, n: int) -> bool {
    exists|i: int|
        0 <= i < n && json::field(#[trigger] bodies[i], "subType"@) == Some(
            JsonView::Str("Neutron Star"@),
        )
}

/// The government of one of the first `n` stations keeps a prison.
pub open spec fn has_prison(stations: Seq<JsonView>, n: int) -> bool {
    exists|i: int|
        0 <= i < n && is_prison(json::str_in(json::field(#[trigger] stations[i], "government"@)))
}

proof fn lemma_body_marks(id64: i64, bodies: Seq<JsonView>, n: int, id: i64)
    requires
        0 <= n <= bodies.len(),
    ensures
        body_writes(id64, bodies, n).contains(WriteView::Neutron(id)) <==> id == id64
            && has_neutron(bodies, n),
        !body_writes(id64, bodies, n).contains(WriteView::Prison(id)),
    decreases n,
{
    if n > 0 {
        lemma_body_marks(id64, bodies, n - 1, id);
        let b = bodies[n - 1];
        let before = body_writes(id64, bodies, n - 1);
        let w = before.push(WriteView::Body(body_row(id64, b)));
        lemma_push_contains(before, WriteView::Body(body_row(id64, b)), WriteView::Neutron(id));
        lemma_push_contains(before, WriteView::Body(body_row(id64, b)), WriteView::Prison(id));
        lemma_push_contains(w, WriteView::Neutron(id64), WriteView::Neutron(id));
        lemma_push_contains(w, WriteView::Neutron(id64), WriteView::Prison(id));
        assert(has_neutron(bodies, n) <==> has_neutron(bodies, n - 1) || json::field(
            b,
            "subType"@,
        ) == Some(JsonView::Str("Neutron Star"@))) by {
            if has_neutron(bodies, n - 1) {
                let i = choose|i: int|
                    0 <= i < n - 1 && json::field(#[trigger] bodies[i], "subType"@) == Some(
                        JsonView::Str("Neutron Star"@),
                    );
                assert(json::field(bodies[i], "subType"@) == Some(JsonView::Str("Neutron Star"@)));
            }
        }
    }
}

proof fn lemma_station_marks(id64: i64, stations: Seq<JsonView>, n: int, id: i64)
    requires
        0 <= n <= stations.len(),
    ensures
        station_writes(id64, stations, n).contains(WriteView::Prison(id)) <==> id == id64
            && has_prison(stations, n),
        !station_writes(id64, stations, n).contains(WriteView::Neutron(id)),
    decreases n,
{
    if n > 0 {
        lemma_station_marks(id64, stations, n - 1, id);
        let st = stations[n - 1];
        let before = station_writes(id64, stations, n - 1);
        let x = WriteView::Station(station_row(id64, st));
        let w = before.push(x);
        lemma_push_contains(before, x, WriteView::Neutron(id));
        lemma_push_contains(before, x, WriteView::Prison(id));
        lemma_push_contains(w, WriteView::Prison(id64), WriteView::Neutron(id));
        lemma_push_contains(w, WriteView::Prison(id64), WriteView::Prison(id));
        assert(has_prison(stations, n) <==> has_prison(stations, n - 1) || is_prison(
            json::str_in(json::field(st, "government"@)),
        )) by {
            if has_prison(stations, n - 1) {
                let i = choose|i: int|
                    0 <= i < n - 1 && is_prison(
                        json::str_in(json::field(#[trigger] stations[i], "government"@)),
                    );
                assert(is_prison(json::str_in(json::field(stations[i], "government"@))));
            }
        }
    }
}

/// A system is marked as one with a neutron star where one of its bodies is
/// one, and as one with a prison where its own government or that of one of
/// its stations keeps one; no other system is marked.
pub proof fn law_marks_are_deserved(sys: SystemView, now: i64, id: i64)
    ensures
        system_writes(sys, now).contains(WriteView::Neutron(id)) <==> id == sys.id64 && (
        sys.bodies matches Some(b) && has_neutron(b, b.len() as int)),
        system_writes(sys, now).contains(WriteView::Prison(id)) <==> id == sys.id64 && (is_prison(
            sys.government,
        ) || (sys.stations matches Some(s) && has_prison(s, s.len() as int))),
{
    let x = WriteView::System(system_row(sys, now));
    let w0 = seq![x];
    assert(w0[0] == x);
    let p = WriteView::Prison(sys.id64);
    let w1 = if is_prison(sys.government) {
        w0.push(p)
    } else {
        w0
    };
    let q = WriteView::Index(index_row(sys));
    let w2 = if sys.coords is Some {
        w1.push(q)
    } else {
        w1
    };
    let b = all_bodies(sys.id64, sys.bodies);
    let s = all_stations(sys.id64, sys.stations);
    let n = WriteView::Neutron(id);
    let m = WriteView::Prison(id);
    assert(!w0.contains(n) && !w0.contains(m));
    lemma_push_contains(w0, p, n);
    lemma_push_contains(w0, p, m);
    lemma_push_contains(w1, q, n);
    lemma_push_contains(w1, q, m);
    lemma_sum_contains(w2, b, n);
    lemma_sum_contains(w2, b, m);
    lemma_sum_contains(w2 + b, s, n);
    lemma_sum_contains(w2 + b, s, m);
    if sys.bodies is Some {
        lemma_body_marks(sys.id64, sys.bodies->0, sys.bodies->0.len() as int, id);
    }
    if sys.stations is Some {
        lemma_station_marks(sys.id64, sys.stations->0, sys.stations->0.len() as int, id);
    }
}

/// What becomes of a column of a row that is there already.
pub enum Update {
    /// What is told now, where something is, else what is known.
    Known(Seq<char>),
    /// What is told now.
    Given(Seq<char>),
    /// The number that is told now, where it is more than none.
    Counted(Seq<char>),
    /// The larger of what is told now and what is known.
    Larger(Seq<char>),
    /// The list that is told now, where it is not empty.
    Listed(Seq<char>),
}

pub open spec fn update_text(table: Seq<char>, u: Update) -> Seq<char> {
    match u {
        Update::Known(c) => c + " = COALESCE(excluded."@ + c + ", "@ + table + "."@ + c + ")"@,
        Update::Given(c) => c + " = excluded."@ + c,
        Update::Counted(c) => c + " = CASE WHEN excluded."@ + c + " > 0 THEN excluded."@ + c
            + " ELSE "@ + table + "."@ + c + " END"@,
        Update::Larger(c) => c + " = MAX(excluded."@ + c + ", "@ + table + "."@ + c + ")"@,
        Update::Listed(c) => c + " = COALESCE(NULLIF(excluded."@ + c + ", '[]'), "@ + table + "."@
            + c + ")"@,
    }
}

/// What a column holds afterwards, where `new` is told now and `old` is known.
pub open spec fn updated(u: Update, new: ParamView, old: ParamView, w: World) -> ParamView {
    match u {
        Update::Known(_) => if new !is Null {
            new
        } else {
            old
        },
        Update::Given(_) => new,
        Update::Counted(_) => if new !is Null && !(w.at_most)(new, ParamView::Int(0)) {
            new
        } else {
            old
        },
        Update::Larger(_) => if (w.at_most)(new, old) {
            old
        } else {
            new
        },
        Update::Listed(_) => if new !is Null && new != ParamView::Text("[]"@) {
            new
        } else {
            old
        },
    }
}

/// The texts of updates.
pub open spec fn update_texts(table: Seq<char>, us: Seq<Update>) -> Seq<Seq<char>> {
    us.map_values(|u: Update| update_text(table, u))
}

/// What is not told now stays as it is known; a place in time is always taken
/// over.
pub proof fn law_updates_keep_what_is_known(c: Seq<char>, new: ParamView, old: ParamView, w: World)
    ensures
        updated(Update::Known(c), ParamView::Null, old, w) == old,
        updated(Update::Counted(c), ParamView::Null, old, w) == old,
        updated(Update::Listed(c), ParamView::Null, old, w) == old,
        updated(Update::Listed(c), ParamView::Text("[]"@), old, w) == old,
        new !is Null ==> updated(Update::Known(c), new, old, w) == new,
        updated(Update::Given(c), new, old, w) == new,
{
}

/// What becomes of the columns of a system that is there already.
pub open spec fn system_updates() -> Seq<Update> {
    seq![
        Update::Known("name"@),
        Update::Counted("population"@),
        Update::Given("last_update"@),
        Update::Known("allegiance"@),
        Update::Known("government"@),
        Update::Known("primaryEconomy"@),
        Update::Known("secondaryEconomy"@),
        Update::Known("security"@),
        Update::Known("bodyCount"@),
        Update::Known("date"@),
        Update::Known("controllingFaction"@),
        Update::Known("factions"@),
        Update::Known("powerState"@),
        Update::Known("powers"@),
        Update::Known("controllingPower"@),
        Update::Known("powerStateControlProgress"@),
        Update::Known("powerStateReinforcement"@),
        Update::Known("powerStateUndermining"@),
        Update::Known("powerConflictProgress"@),
        Update::Known("thargoidWar"@),
    ]
}

proof fn lemma_system_update_texts_0()
    ensures
        update_text("systems"@, Update::Known("name"@))
            == "name = COALESCE(excluded.name, systems.name)"@,
        update_text("systems"@, Update::Counted("population"@))
            == "population = CASE WHEN excluded.population > 0 THEN excluded.population ELSE systems.population END"@,
        update_text("systems"@, Update::Given("last_update"@))
            == "last_update = excluded.last_update"@,
        update_text("systems"@, Update::Known("allegiance"@))
            == "allegiance = COALESCE(excluded.allegiance, systems.allegiance)"@,
        update_text("systems"@, Update::Known("government"@))
            == "government = COALESCE(excluded.government, systems.government)"@,
        update_text("systems"@, Update::Known("primaryEconomy"@))
            == "primaryEconomy = COALESCE(excluded.primaryEconomy, systems.primaryEconomy)"@,
        update_text("systems"@, Update::Known("secondaryEconomy"@))
            == "secondaryEconomy = COALESCE(excluded.secondaryEconomy, systems.secondaryEconomy)"@,
        update_text("systems"@, Update::Known("security"@))
            == "security = COALESCE(excluded.security, systems.security)"@,
{
    assert(update_text("systems"@,
        Update::Known("name"@)) =~= "name = COALESCE(excluded.name, systems.name)"@) by {
        reveal_strlit("name = COALESCE(excluded.name, systems.name)");
        reveal_strlit("name");
        reveal_strlit("systems");
        reveal_strlit(" = COALESCE(excluded.");
        reveal_strlit(", ");
        reveal_strlit(".");
        reveal_strlit(")");
    }
    assert(update_text("systems"@,
        Update::Counted("population"@)) =~= "population = CASE WHEN excluded.population > 0 THEN excluded.population ELSE systems.population END"@) by {
        reveal_strlit("population = CASE WHEN excluded.population > 0 THEN excluded.population ELSE systems.population END");
        reveal_strlit("population");
        reveal_strlit("systems");
        reveal_strlit(" = CASE WHEN excluded.");
        reveal_strlit(" > 0 THEN excluded.");
        reveal_strlit(" ELSE ");
        reveal_strlit(".");
        reveal_strlit(" END");
    }
    assert(update_text("systems"@,
        Update::Given("last_update"@)) =~= "last_update = excluded.last_update"@) by {
        reveal_strlit("last_update = excluded.last_update");
        reveal_strlit("last_update");
        reveal_strlit("systems");
        reveal_strlit(" = excluded.");
    }
    assert(update_text("systems"@,
        Update::Known("allegiance"@)) =~= "allegiance = COALESCE(excluded.allegiance, systems.allegiance)"@) by {
        reveal_strlit("allegiance = COALESCE(excluded.allegiance, systems.allegiance)");
        reveal_strlit("allegiance");
        reveal_strlit("systems");
        reveal_strlit(" = COALESCE(excluded.");
        reveal_strlit(", ");
        reveal_strlit(".");
        reveal_strlit(")");
    }
    assert(update_text("systems"@,
        Update::Known("government"@)) =~= "government = COALESCE(excluded.government, systems.government)"@) by {
        reveal_strlit("government = COALESCE(excluded.government, systems.government)");
        reveal_strlit("government");
        reveal_strlit("systems");
        reveal_strlit(" = COALESCE(excluded.");
        reveal_strlit(", ");
        reveal_strlit(".");
        reveal_strlit(")");
    }
    assert(update_text("systems"@,
        Update::Known("primaryEconomy"@)) =~= "primaryEconomy = COALESCE(excluded.primaryEconomy, systems.primaryEconomy)"@) by {
        reveal_strlit("primaryEconomy = COALESCE(excluded.primaryEconomy, systems.primaryEconomy)");
        reveal_strlit("primaryEconomy");
        reveal_strlit("systems");
        reveal_strlit(" = COALESCE(excluded.");
        reveal_strlit(", ");
        reveal_strlit(".");
        reveal_strlit(")");
    }
    assert(update_text("systems"@,
        Update::Known("secondaryEconomy"@)) =~= "secondaryEconomy = COALESCE(excluded.secondaryEconomy, systems.secondaryEconomy)"@) by {
        reveal_strlit("secondaryEconomy = COALESCE(excluded.secondaryEconomy, systems.secondaryEconomy)");
        reveal_strlit("secondaryEconomy");
        reveal_strlit("systems");
        reveal_strlit(" = COALESCE(excluded.");
        reveal_strlit(", ");
        reveal_strlit(".");
        reveal_strlit(")");
    }
    assert(update_text("systems"@,
        Update::Known("security"@)) =~= "security = COALESCE(excluded.security, systems.security)"@) by {
        reveal_strlit("security = COALESCE(excluded.security, systems.security)");
        reveal_strlit("security");
        reveal_strlit("systems");
        reveal_strlit(" = COALESCE(excluded.");
        reveal_strlit(", ");
        reveal_strlit(".");
        reveal_strlit(")");
    }
}

proof fn lemma_system_update_texts_1()
    ensures
        update_text("systems"@, Update::Known("bodyCount"@))
            == "bodyCount = COALESCE(excluded.bodyCount, systems.bodyCount)"@,
        update_text("systems"@, Update::Known("date"@))
            == "date = COALESCE(excluded.date, systems.date)"@,
        update_text("systems"@, Update::Known("controllingFaction"@))
            == "controllingFaction = COALESCE(excluded.controllingFaction, systems.controllingFaction)"@,
        update_text("systems"@, Update::Known("factions"@))
            == "factions = COALESCE(excluded.factions, systems.factions)"@,
        update_text("systems"@, Update::Known("powerState"@))
            == "powerState = COALESCE(excluded.powerState, systems.powerState)"@,
        update_text("systems"@, Update::Known("powers"@))
            == "powers = COALESCE(excluded.powers, systems.powers)"@,
        update_text("systems"@, Update::Known("controllingPower"@))
            == "controllingPower = COALESCE(excluded.controllingPower, systems.controllingPower)"@,
        update_text("systems"@, Update::Known("powerStateControlProgress"@))
            == "powerStateControlProgress = COALESCE(excluded.powerStateControlProgress, systems.powerStateControlProgress)"@,
{
    assert(update_text("systems"@,
        Update::Known("bodyCount"@)) =~= "bodyCount = COALESCE(excluded.bodyCount, systems.bodyCount)"@) by {
        reveal_strlit("bodyCount = COALESCE(excluded.bodyCount, systems.bodyCount)");
        reveal_strlit("bodyCount");
        reveal_strlit("systems");
        reveal_strlit(" = COALESCE(excluded.");
        reveal_strlit(", ");
        reveal_strlit(".");
        reveal_strlit(")");
    }
    assert(update_text("systems"@,
        Update::Known("date"@)) =~= "date = COALESCE(excluded.date, systems.date)"@) by {
        reveal_strlit("date = COALESCE(excluded.date, systems.date)");
        reveal_strlit("date");
        reveal_strlit("systems");
        reveal_strlit(" = COALESCE(excluded.");
        reveal_strlit(", ");
        reveal_strlit(".");
        reveal_strlit(")");
    }
    assert(update_text("systems"@,
        Update::Known("controllingFaction"@)) =~= "controllingFaction = COALESCE(excluded.controllingFaction, systems.controllingFaction)"@) by {
        reveal_strlit("controllingFaction = COALESCE(excluded.controllingFaction, systems.controllingFaction)");
        reveal_strlit("controllingFaction");
        reveal_strlit("systems");
        reveal_strlit(" = COALESCE(excluded.");
        reveal_strlit(", ");
        reveal_strlit(".");
        reveal_strlit(")");
    }
    assert(update_text("systems"@,
        Update::Known("factions"@)) =~= "factions = COALESCE(excluded.factions, systems.factions)"@) by {
        reveal_strlit("factions = COALESCE(excluded.factions, systems.factions)");
        reveal_strlit("factions");
        reveal_strlit("systems");
        reveal_strlit(" = COALESCE(excluded.");
        reveal_strlit(", ");
        reveal_strlit(".");
        reveal_strlit(")");
    }
    assert(update_text("systems"@,
        Update::Known("powerState"@)) =~= "powerState = COALESCE(excluded.powerState, systems.powerState)"@) by {
        reveal_strlit("powerState = COALESCE(excluded.powerState, systems.powerState)");
        reveal_strlit("powerState");
        reveal_strlit("systems");
        reveal_strlit(" = COALESCE(excluded.");
        reveal_strlit(", ");
        reveal_strlit(".");
        reveal_strlit(")");
    }
    assert(update_text("systems"@,
        Update::Known("powers"@)) =~= "powers = COALESCE(excluded.powers, systems.powers)"@) by {
        reveal_strlit("powers = COALESCE(excluded.powers, systems.powers)");
        reveal_strlit("powers");
        reveal_strlit("systems");
        reveal_strlit(" = COALESCE(excluded.");
        reveal_strlit(", ");
        reveal_strlit(".");
        reveal_strlit(")");
    }
    assert(update_text("systems"@,
        Update::Known("controllingPower"@)) =~= "controllingPower = COALESCE(excluded.controllingPower, systems.controllingPower)"@) by {
        reveal_strlit("controllingPower = COALESCE(excluded.controllingPower, systems.controllingPower)");
        reveal_strlit("controllingPower");
        reveal_strlit("systems");
        reveal_strlit(" = COALESCE(excluded.");
        reveal_strlit(", ");
        reveal_strlit(".");
        reveal_strlit(")");
    }
    assert(update_text("systems"@,
        Update::Known("powerStateControlProgress"@)) =~= "powerStateControlProgress = COALESCE(excluded.powerStateControlProgress, systems.powerStateControlProgress)"@) by {
        reveal_strlit("powerStateControlProgress = COALESCE(excluded.powerStateControlProgress, systems.powerStateControlProgress)");
        reveal_strlit("powerStateControlProgress");
        reveal_strlit("systems");
        reveal_strlit(" = COALESCE(excluded.");
        reveal_strlit(", ");
        reveal_strlit(".");
        reveal_strlit(")");
    }
}

proof fn lemma_system_update_texts_2()
    ensures
        update_text("systems"@, Update::Known("powerStateReinforcement"@))
            == "powerStateReinforcement = COALESCE(excluded.powerStateReinforcement, systems.powerStateReinforcement)"@,
        update_text("systems"@, Update::Known("powerStateUndermining"@))
            == "powerStateUndermining = COALESCE(excluded.powerStateUndermining, systems.powerStateUndermining)"@,
        update_text("systems"@, Update::Known("powerConflictProgress"@))
            == "powerConflictProgress = COALESCE(excluded.powerConflictProgress, systems.powerConflictProgress)"@,
        update_text("systems"@, Update::Known("thargoidWar"@))
            == "thargoidWar = COALESCE(excluded.thargoidWar, systems.thargoidWar)"@,
{
    assert(update_text("systems"@,
        Update::Known("powerStateReinforcement"@)) =~= "powerStateReinforcement = COALESCE(excluded.powerStateReinforcement, systems.powerStateReinforcement)"@) by {
        reveal_strlit("powerStateReinforcement = COALESCE(excluded.powerStateReinforcement, systems.powerStateReinforcement)");
        reveal_strlit("powerStateReinforcement");
        reveal_strlit("systems");
        reveal_strlit(" = COALESCE(excluded.");
        reveal_strlit(", ");
        reveal_strlit(".");
        reveal_strlit(")");
    }
    assert(update_text("systems"@,
        Update::Known("powerStateUndermining"@)) =~= "powerStateUndermining = COALESCE(excluded.powerStateUndermining, systems.powerStateUndermining)"@) by {
        reveal_strlit("powerStateUndermining = COALESCE(excluded.powerStateUndermining, systems.powerStateUndermining)");
        reveal_strlit("powerStateUndermining");
        reveal_strlit("systems");
        reveal_strlit(" = COALESCE(excluded.");
        reveal_strlit(", ");
        reveal_strlit(".");
        reveal_strlit(")");
    }
    assert(update_text("systems"@,
        Update::Known("powerConflictProgress"@)) =~= "powerConflictProgress = COALESCE(excluded.powerConflictProgress, systems.powerConflictProgress)"@) by {
        reveal_strlit("powerConflictProgress = COALESCE(excluded.powerConflictProgress, systems.powerConflictProgress)");
        reveal_strlit("powerConflictProgress");
        reveal_strlit("systems");
        reveal_strlit(" = COALESCE(excluded.");
        reveal_strlit(", ");
        reveal_strlit(".");
        reveal_strlit(")");
    }
    assert(update_text("systems"@,
        Update::Known("thargoidWar"@)) =~= "thargoidWar = COALESCE(excluded.thargoidWar, systems.thargoidWar)"@) by {
        reveal_strlit("thargoidWar = COALESCE(excluded.thargoidWar, systems.thargoidWar)");
        reveal_strlit("thargoidWar");
        reveal_strlit("systems");
        reveal_strlit(" = COALESCE(excluded.");
        reveal_strlit(", ");
        reveal_strlit(".");
        reveal_strlit(")");
    }
}

proof fn lemma_system_update_head()
    ensures
        SQL_SYSTEM@.len() == 1874,
        SQL_SYSTEM@.subrange(330, 425)
            == "?, ?, ?, ?, ?, ?, ?, ?, ?, ?, ?, ?, ?, ?, ?, ?, ?, ?, ?, ?, ?) ON CONFLICT(id64) DO UPDATE SET "@,
{
    reveal_strlit("INSERT INTO systems (id64, name, population, last_update, allegiance, government, primaryEconomy, secondaryEconomy, security, bodyCount, date, controllingFaction, factions, powerState, powers, controllingPower, powerStateControlProgress, powerStateReinforcement, powerStateUndermining, powerConflictProgress, thargoidWar) VALUES (?, ?, ?, ?, ?, ?, ?, ?, ?, ?, ?, ?, ?, ?, ?, ?, ?, ?, ?, ?, ?) ON CONFLICT(id64) DO UPDATE SET name = COALESCE(excluded.name, systems.name), population = CASE WHEN excluded.population > 0 THEN excluded.population ELSE systems.population END, last_update = excluded.last_update, allegiance = COALESCE(excluded.allegiance, systems.allegiance), government = COALESCE(excluded.government, systems.government), primaryEconomy = COALESCE(excluded.primaryEconomy, systems.primaryEconomy), secondaryEconomy = COALESCE(excluded.secondaryEconomy, systems.secondaryEconomy), security = COALESCE(excluded.security, systems.security), bodyCount = COALESCE(excluded.bodyCount, systems.bodyCount), date = COALESCE(excluded.date, systems.date), controllingFaction = COALESCE(excluded.controllingFaction, systems.controllingFaction), factions = COALESCE(excluded.factions, systems.factions), powerState = COALESCE(excluded.powerState, systems.powerState), powers = COALESCE(excluded.powers, systems.powers), controllingPower = COALESCE(excluded.controllingPower, systems.controllingPower), powerStateControlProgress = COALESCE(excluded.powerStateControlProgress, systems.powerStateControlProgress), powerStateReinforcement = COALESCE(excluded.powerStateReinforcement, systems.powerStateReinforcement), powerStateUndermining = COALESCE(excluded.powerStateUndermining, systems.powerStateUndermining), powerConflictProgress = COALESCE(excluded.powerConflictProgress, systems.powerConflictProgress), thargoidWar = COALESCE(excluded.thargoidWar, systems.thargoidWar)");
    reveal_strlit("?, ?, ?, ?, ?, ?, ?, ?, ?, ?, ?, ?, ?, ?, ?, ?, ?, ?, ?, ?, ?) ON CONFLICT(id64) DO UPDATE SET ");
    assert(SQL_SYSTEM@.subrange(330,
        425) =~= "?, ?, ?, ?, ?, ?, ?, ?, ?, ?, ?, ?, ?, ?, ?, ?, ?, ?, ?, ?, ?) ON CONFLICT(id64) DO UPDATE SET "@);
}

proof fn lemma_system_update_cuts_0()
    ensures
        SQL_SYSTEM@.subrange(425, 469) == "name = COALESCE(excluded.name, systems.name)"@,
        SQL_SYSTEM@.subrange(469, 471) == ", "@,
        SQL_SYSTEM@.subrange(471, 570)
            == "population = CASE WHEN excluded.population > 0 THEN excluded.population ELSE systems.population END"@,
        SQL_SYSTEM@.subrange(570, 572) == ", "@,
        SQL_SYSTEM@.subrange(572, 606) == "last_update = excluded.last_update"@,
        SQL_SYSTEM@.subrange(606, 608) == ", "@,
        SQL_SYSTEM@.subrange(608, 670)
            == "allegiance = COALESCE(excluded.allegiance, systems.allegiance)"@,
        SQL_SYSTEM@.subrange(670, 672) == ", "@,
        SQL_SYSTEM@.subrange(672, 734)
            == "government = COALESCE(excluded.government, systems.government)"@,
        SQL_SYSTEM@.subrange(734, 736) == ", "@,
        SQL_SYSTEM@.subrange(736, 810)
            == "primaryEconomy = COALESCE(excluded.primaryEconomy, systems.primaryEconomy)"@,
        SQL_SYSTEM@.subrange(810, 812) == ", "@,
        SQL_SYSTEM@.subrange(812, 892)
            == "secondaryEconomy = COALESCE(excluded.secondaryEconomy, systems.secondaryEconomy)"@,
        SQL_SYSTEM@.subrange(892, 894) == ", "@,
        SQL_SYSTEM@.subrange(894, 950)
            == "security = COALESCE(excluded.security, systems.security)"@,
        SQL_SYSTEM@.subrange(950, 952) == ", "@,
{
    reveal_strlit("INSERT INTO systems (id64, name, population, last_update, allegiance, government, primaryEconomy, secondaryEconomy, security, bodyCount, date, controllingFaction, factions, powerState, powers, controllingPower, powerStateControlProgress, powerStateReinforcement, powerStateUndermining, powerConflictProgress, thargoidWar) VALUES (?, ?, ?, ?, ?, ?, ?, ?, ?, ?, ?, ?, ?, ?, ?, ?, ?, ?, ?, ?, ?) ON CONFLICT(id64) DO UPDATE SET name = COALESCE(excluded.name, systems.name), population = CASE WHEN excluded.population > 0 THEN excluded.population ELSE systems.population END, last_update = excluded.last_update, allegiance = COALESCE(excluded.allegiance, systems.allegiance), government = COALESCE(excluded.government, systems.government), primaryEconomy = COALESCE(excluded.primaryEconomy, systems.primaryEconomy), secondaryEconomy = COALESCE(excluded.secondaryEconomy, systems.secondaryEconomy), security = COALESCE(excluded.security, systems.security), bodyCount = COALESCE(excluded.bodyCount, systems.bodyCount), date = COALESCE(excluded.date, systems.date), controllingFaction = COALESCE(excluded.controllingFaction, systems.controllingFaction), factions = COALESCE(excluded.factions, systems.factions), powerState = COALESCE(excluded.powerState, systems.powerState), powers = COALESCE(excluded.powers, systems.powers), controllingPower = COALESCE(excluded.controllingPower, systems.controllingPower), powerStateControlProgress = COALESCE(excluded.powerStateControlProgress, systems.powerStateControlProgress), powerStateReinforcement = COALESCE(excluded.powerStateReinforcement, systems.powerStateReinforcement), powerStateUndermining = COALESCE(excluded.powerStateUndermining, systems.powerStateUndermining), powerConflictProgress = COALESCE(excluded.powerConflictProgress, systems.powerConflictProgress), thargoidWar = COALESCE(excluded.thargoidWar, systems.thargoidWar)");
    reveal_strlit(", ");
    assert(SQL_SYSTEM@.subrange(425, 469) =~= "name = COALESCE(excluded.name, systems.name)"@) by {
        reveal_strlit("name = COALESCE(excluded.name, systems.name)");
    }
    assert(SQL_SYSTEM@.subrange(469, 471) =~= ", "@);
    assert(SQL_SYSTEM@.subrange(471,
        570) =~= "population = CASE WHEN excluded.population > 0 THEN excluded.population ELSE systems.population END"@) by {
        reveal_strlit("population = CASE WHEN excluded.population > 0 THEN excluded.population ELSE systems.population END");
    }
    assert(SQL_SYSTEM@.subrange(570, 572) =~= ", "@);
    assert(SQL_SYSTEM@.subrange(572, 606) =~= "last_update = excluded.last_update"@) by {
        reveal_strlit("last_update = excluded.last_update");
    }
    assert(SQL_SYSTEM@.subrange(606, 608) =~= ", "@);
    assert(SQL_SYSTEM@.subrange(608,
        670) =~= "allegiance = COALESCE(excluded.allegiance, systems.allegiance)"@) by {
        reveal_strlit("allegiance = COALESCE(excluded.allegiance, systems.allegiance)");
    }
    assert(SQL_SYSTEM@.subrange(670, 672) =~= ", "@);
    assert(SQL_SYSTEM@.subrange(672,
        734) =~= "government = COALESCE(excluded.government, systems.government)"@) by {
        reveal_strlit("government = COALESCE(excluded.government, systems.government)");
    }
    assert(SQL_SYSTEM@.subrange(734, 736) =~= ", "@);
    assert(SQL_SYSTEM@.subrange(736,
        810) =~= "primaryEconomy = COALESCE(excluded.primaryEconomy, systems.primaryEconomy)"@) by {
        reveal_strlit("primaryEconomy = COALESCE(excluded.primaryEconomy, systems.primaryEconomy)");
    }
    assert(SQL_SYSTEM@.subrange(810, 812) =~= ", "@);
    assert(SQL_SYSTEM@.subrange(812,
        892) =~= "secondaryEconomy = COALESCE(excluded.secondaryEconomy, systems.secondaryEconomy)"@) by {
        reveal_strlit("secondaryEconomy = COALESCE(excluded.secondaryEconomy, systems.secondaryEconomy)");
    }
    assert(SQL_SYSTEM@.subrange(892, 894) =~= ", "@);
    assert(SQL_SYSTEM@.subrange(894,
        950) =~= "security = COALESCE(excluded.security, systems.security)"@) by {
        reveal_strlit("security = COALESCE(excluded.security, systems.security)");
    }
    assert(SQL_SYSTEM@.subrange(950, 952) =~= ", "@);
}

proof fn lemma_system_update_cuts_1()
    ensures
        SQL_SYSTEM@.subrange(952, 1011)
            == "bodyCount = COALESCE(excluded.bodyCount, systems.bodyCount)"@,
        SQL_SYSTEM@.subrange(1011, 1013) == ", "@,
        SQL_SYSTEM@.subrange(1013, 1057) == "date = COALESCE(excluded.date, systems.date)"@,
        SQL_SYSTEM@.subrange(1057, 1059) == ", "@,
        SQL_SYSTEM@.subrange(1059, 1145)
            == "controllingFaction = COALESCE(excluded.controllingFaction, systems.controllingFaction)"@,
        SQL_SYSTEM@.subrange(1145, 1147) == ", "@,
        SQL_SYSTEM@.subrange(1147, 1203)
            == "factions = COALESCE(excluded.factions, systems.factions)"@,
        SQL_SYSTEM@.subrange(1203, 1205) == ", "@,
        SQL_SYSTEM@.subrange(1205, 1267)
            == "powerState = COALESCE(excluded.powerState, systems.powerState)"@,
        SQL_SYSTEM@.subrange(1267, 1269) == ", "@,
        SQL_SYSTEM@.subrange(1269, 1319) == "powers = COALESCE(excluded.powers, systems.powers)"@,
        SQL_SYSTEM@.subrange(1319, 1321) == ", "@,
        SQL_SYSTEM@.subrange(1321, 1401)
            == "controllingPower = COALESCE(excluded.controllingPower, systems.controllingPower)"@,
        SQL_SYSTEM@.subrange(1401, 1403) == ", "@,
        SQL_SYSTEM@.subrange(1403, 1510)
            == "powerStateControlProgress = COALESCE(excluded.powerStateControlProgress, systems.powerStateControlProgress)"@,
        SQL_SYSTEM@.subrange(1510, 1512) == ", "@,
{
    reveal_strlit("INSERT INTO systems (id64, name, population, last_update, allegiance, government, primaryEconomy, secondaryEconomy, security, bodyCount, date, controllingFaction, factions, powerState, powers, controllingPower, powerStateControlProgress, powerStateReinforcement, powerStateUndermining, powerConflictProgress, thargoidWar) VALUES (?, ?, ?, ?, ?, ?, ?, ?, ?, ?, ?, ?, ?, ?, ?, ?, ?, ?, ?, ?, ?) ON CONFLICT(id64) DO UPDATE SET name = COALESCE(excluded.name, systems.name), population = CASE WHEN excluded.population > 0 THEN excluded.population ELSE systems.population END, last_update = excluded.last_update, allegiance = COALESCE(excluded.allegiance, systems.allegiance), government = COALESCE(excluded.government, systems.government), primaryEconomy = COALESCE(excluded.primaryEconomy, systems.primaryEconomy), secondaryEconomy = COALESCE(excluded.secondaryEconomy, systems.secondaryEconomy), security = COALESCE(excluded.security, systems.security), bodyCount = COALESCE(excluded.bodyCount, systems.bodyCount), date = COALESCE(excluded.date, systems.date), controllingFaction = COALESCE(excluded.controllingFaction, systems.controllingFaction), factions = COALESCE(excluded.factions, systems.factions), powerState = COALESCE(excluded.powerState, systems.powerState), powers = COALESCE(excluded.powers, systems.powers), controllingPower = COALESCE(excluded.controllingPower, systems.controllingPower), powerStateControlProgress = COALESCE(excluded.powerStateControlProgress, systems.powerStateControlProgress), powerStateReinforcement = COALESCE(excluded.powerStateReinforcement, systems.powerStateReinforcement), powerStateUndermining = COALESCE(excluded.powerStateUndermining, systems.powerStateUndermining), powerConflictProgress = COALESCE(excluded.powerConflictProgress, systems.powerConflictProgress), thargoidWar = COALESCE(excluded.thargoidWar, systems.thargoidWar)");
    reveal_strlit(", ");
    assert(SQL_SYSTEM@.subrange(952,
        1011) =~= "bodyCount = COALESCE(excluded.bodyCount, systems.bodyCount)"@) by {
        reveal_strlit("bodyCount = COALESCE(excluded.bodyCount, systems.bodyCount)");
    }
    assert(SQL_SYSTEM@.subrange(1011, 1013) =~= ", "@);
    assert(SQL_SYSTEM@.subrange(1013,
        1057) =~= "date = COALESCE(excluded.date, systems.date)"@) by {
        reveal_strlit("date = COALESCE(excluded.date, systems.date)");
    }
    assert(SQL_SYSTEM@.subrange(1057, 1059) =~= ", "@);
    assert(SQL_SYSTEM@.subrange(1059,
        1145) =~= "controllingFaction = COALESCE(excluded.controllingFaction, systems.controllingFaction)"@) by {
        reveal_strlit("controllingFaction = COALESCE(excluded.controllingFaction, systems.controllingFaction)");
    }
    assert(SQL_SYSTEM@.subrange(1145, 1147) =~= ", "@);
    assert(SQL_SYSTEM@.subrange(1147,
        1203) =~= "factions = COALESCE(excluded.factions, systems.factions)"@) by {
        reveal_strlit("factions = COALESCE(excluded.factions, systems.factions)");
    }
    assert(SQL_SYSTEM@.subrange(1203, 1205) =~= ", "@);
    assert(SQL_SYSTEM@.subrange(1205,
        1267) =~= "powerState = COALESCE(excluded.powerState, systems.powerState)"@) by {
        reveal_strlit("powerState = COALESCE(excluded.powerState, systems.powerState)");
    }
    assert(SQL_SYSTEM@.subrange(1267, 1269) =~= ", "@);
    assert(SQL_SYSTEM@.subrange(1269,
        1319) =~= "powers = COALESCE(excluded.powers, systems.powers)"@) by {
        reveal_strlit("powers = COALESCE(excluded.powers, systems.powers)");
    }
    assert(SQL_SYSTEM@.subrange(1319, 1321) =~= ", "@);
    assert(SQL_SYSTEM@.subrange(1321,
        1401) =~= "controllingPower = COALESCE(excluded.controllingPower, systems.controllingPower)"@) by {
        reveal_strlit("controllingPower = COALESCE(excluded.controllingPower, systems.controllingPower)");
    }
    assert(SQL_SYSTEM@.subrange(1401, 1403) =~= ", "@);
    assert(SQL_SYSTEM@.subrange(1403,
        1510) =~= "powerStateControlProgress = COALESCE(excluded.powerStateControlProgress, systems.powerStateControlProgress)"@) by {
        reveal_strlit("powerStateControlProgress = COALESCE(excluded.powerStateControlProgress, systems.powerStateControlProgress)");
    }
    assert(SQL_SYSTEM@.subrange(1510, 1512) =~= ", "@);
}

proof fn lemma_system_update_cuts_2()
    ensures
        SQL_SYSTEM@.subrange(1512, 1613)
            == "powerStateReinforcement = COALESCE(excluded.powerStateReinforcement, systems.powerStateReinforcement)"@,
        SQL_SYSTEM@.subrange(1613, 1615) == ", "@,
        SQL_SYSTEM@.subrange(1615, 1710)
            == "powerStateUndermining = COALESCE(excluded.powerStateUndermining, systems.powerStateUndermining)"@,
        SQL_SYSTEM@.subrange(1710, 1712) == ", "@,
        SQL_SYSTEM@.subrange(1712, 1807)
            == "powerConflictProgress = COALESCE(excluded.powerConflictProgress, systems.powerConflictProgress)"@,
        SQL_SYSTEM@.subrange(1807, 1809) == ", "@,
        SQL_SYSTEM@.subrange(1809, 1874)
            == "thargoidWar = COALESCE(excluded.thargoidWar, systems.thargoidWar)"@,
{
    reveal_strlit("INSERT INTO systems (id64, name, population, last_update, allegiance, government, primaryEconomy, secondaryEconomy, security, bodyCount, date, controllingFaction, factions, powerState, powers, controllingPower, powerStateControlProgress, powerStateReinforcement, powerStateUndermining, powerConflictProgress, thargoidWar) VALUES (?, ?, ?, ?, ?, ?, ?, ?, ?, ?, ?, ?, ?, ?, ?, ?, ?, ?, ?, ?, ?) ON CONFLICT(id64) DO UPDATE SET name = COALESCE(excluded.name, systems.name), population = CASE WHEN excluded.population > 0 THEN excluded.population ELSE systems.population END, last_update = excluded.last_update, allegiance = COALESCE(excluded.allegiance, systems.allegiance), government = COALESCE(excluded.government, systems.government), primaryEconomy = COALESCE(excluded.primaryEconomy, systems.primaryEconomy), secondaryEconomy = COALESCE(excluded.secondaryEconomy, systems.secondaryEconomy), security = COALESCE(excluded.security, systems.security), bodyCount = COALESCE(excluded.bodyCount, systems.bodyCount), date = COALESCE(excluded.date, systems.date), controllingFaction = COALESCE(excluded.controllingFaction, systems.controllingFaction), factions = COALESCE(excluded.factions, systems.factions), powerState = COALESCE(excluded.powerState, systems.powerState), powers = COALESCE(excluded.powers, systems.powers), controllingPower = COALESCE(excluded.controllingPower, systems.controllingPower), powerStateControlProgress = COALESCE(excluded.powerStateControlProgress, systems.powerStateControlProgress), powerStateReinforcement = COALESCE(excluded.powerStateReinforcement, systems.powerStateReinforcement), powerStateUndermining = COALESCE(excluded.powerStateUndermining, systems.powerStateUndermining), powerConflictProgress = COALESCE(excluded.powerConflictProgress, systems.powerConflictProgress), thargoidWar = COALESCE(excluded.thargoidWar, systems.thargoidWar)");
    reveal_strlit(", ");
    assert(SQL_SYSTEM@.subrange(1512,
        1613) =~= "powerStateReinforcement = COALESCE(excluded.powerStateReinforcement, systems.powerStateReinforcement)"@) by {
        reveal_strlit("powerStateReinforcement = COALESCE(excluded.powerStateReinforcement, systems.powerStateReinforcement)");
    }
    assert(SQL_SYSTEM@.subrange(1613, 1615) =~= ", "@);
    assert(SQL_SYSTEM@.subrange(1615,
        1710) =~= "powerStateUndermining = COALESCE(excluded.powerStateUndermining, systems.powerStateUndermining)"@) by {
        reveal_strlit("powerStateUndermining = COALESCE(excluded.powerStateUndermining, systems.powerStateUndermining)");
    }
    assert(SQL_SYSTEM@.subrange(1710, 1712) =~= ", "@);
    assert(SQL_SYSTEM@.subrange(1712,
        1807) =~= "powerConflictProgress = COALESCE(excluded.powerConflictProgress, systems.powerConflictProgress)"@) by {
        reveal_strlit("powerConflictProgress = COALESCE(excluded.powerConflictProgress, systems.powerConflictProgress)");
    }
    assert(SQL_SYSTEM@.subrange(1807, 1809) =~= ", "@);
    assert(SQL_SYSTEM@.subrange(1809,
        1874) =~= "thargoidWar = COALESCE(excluded.thargoidWar, systems.thargoidWar)"@) by {
        reveal_strlit("thargoidWar = COALESCE(excluded.thargoidWar, systems.thargoidWar)");
    }
}

proof fn lemma_system_update_list_0()
    requires
        SQL_SYSTEM@.len() == 1874,
    ensures
        listed(update_texts("systems"@, system_updates()), 8) == SQL_SYSTEM@.subrange(425, 950),
{
    let us = system_updates();
    let t = update_texts("systems"@, us);
    let s = SQL_SYSTEM@;
    lemma_system_update_texts_0();
    lemma_system_update_cuts_0();
    assert(t[0] == update_text("systems"@, us[0]));
    assert(t[0] == "name = COALESCE(excluded.name, systems.name)"@);
    assert(listed(t, 1) == s.subrange(425, 469));
    assert(t[1] == update_text("systems"@, us[1]));
    assert(t[1]
        == "population = CASE WHEN excluded.population > 0 THEN excluded.population ELSE systems.population END"@);
    text::lemma_cuts_join(s, 425, 469, 471);
    text::lemma_cuts_join(s, 425, 471, 570);
    assert(listed(t, 2) == s.subrange(425, 570));
    assert(t[2] == update_text("systems"@, us[2]));
    assert(t[2] == "last_update = excluded.last_update"@);
    text::lemma_cuts_join(s, 425, 570, 572);
    text::lemma_cuts_join(s, 425, 572, 606);
    assert(listed(t, 3) == s.subrange(425, 606));
    assert(t[3] == update_text("systems"@, us[3]));
    assert(t[3] == "allegiance = COALESCE(excluded.allegiance, systems.allegiance)"@);
    text::lemma_cuts_join(s, 425, 606, 608);
    text::lemma_cuts_join(s, 425, 608, 670);
    assert(listed(t, 4) == s.subrange(425, 670));
    assert(t[4] == update_text("systems"@, us[4]));
    assert(t[4] == "government = COALESCE(excluded.government, systems.government)"@);
    text::lemma_cuts_join(s, 425, 670, 672);
    text::lemma_cuts_join(s, 425, 672, 734);
    assert(listed(t, 5) == s.subrange(425, 734));
    assert(t[5] == update_text("systems"@, us[5]));
    assert(t[5] == "primaryEconomy = COALESCE(excluded.primaryEconomy, systems.primaryEconomy)"@);
    text::lemma_cuts_join(s, 425, 734, 736);
    text::lemma_cuts_join(s, 425, 736, 810);
    assert(listed(t, 6) == s.subrange(425, 810));
    assert(t[6] == update_text("systems"@, us[6]));
    assert(t[6]
        == "secondaryEconomy = COALESCE(excluded.secondaryEconomy, systems.secondaryEconomy)"@);
    text::lemma_cuts_join(s, 425, 810, 812);
    text::lemma_cuts_join(s, 425, 812, 892);
    assert(listed(t, 7) == s.subrange(425, 892));
    assert(t[7] == update_text("systems"@, us[7]));
    assert(t[7] == "security = COALESCE(excluded.security, systems.security)"@);
    text::lemma_cuts_join(s, 425, 892, 894);
    text::lemma_cuts_join(s, 425, 894, 950);
    assert(listed(t, 8) == s.subrange(425, 950));
}

proof fn lemma_system_update_list_1()
    requires
        SQL_SYSTEM@.len() == 1874,
        listed(update_texts("systems"@, system_updates()), 8) == SQL_SYSTEM@.subrange(425, 950),
    ensures
        listed(update_texts("systems"@, system_updates()), 16) == SQL_SYSTEM@.subrange(425, 1510),
{
    let us = system_updates();
    let t = update_texts("systems"@, us);
    let s = SQL_SYSTEM@;
    lemma_system_update_texts_1();
    lemma_system_update_cuts_1();
    lemma_system_update_cuts_0();
    assert(t[8] == update_text("systems"@, us[8]));
    assert(t[8] == "bodyCount = COALESCE(excluded.bodyCount, systems.bodyCount)"@);
    text::lemma_cuts_join(s, 425, 950, 952);
    text::lemma_cuts_join(s, 425, 952, 1011);
    assert(listed(t, 9) == s.subrange(425, 1011));
    assert(t[9] == update_text("systems"@, us[9]));
    assert(t[9] == "date = COALESCE(excluded.date, systems.date)"@);
    text::lemma_cuts_join(s, 425, 1011, 1013);
    text::lemma_cuts_join(s, 425, 1013, 1057);
    assert(listed(t, 10) == s.subrange(425, 1057));
    assert(t[10] == update_text("systems"@, us[10]));
    assert(t[10]
        == "controllingFaction = COALESCE(excluded.controllingFaction, systems.controllingFaction)"@);
    text::lemma_cuts_join(s, 425, 1057, 1059);
    text::lemma_cuts_join(s, 425, 1059, 1145);
    assert(listed(t, 11) == s.subrange(425, 1145));
    assert(t[11] == update_text("systems"@, us[11]));
    assert(t[11] == "factions = COALESCE(excluded.factions, systems.factions)"@);
    text::lemma_cuts_join(s, 425, 1145, 1147);
    text::lemma_cuts_join(s, 425, 1147, 1203);
    assert(listed(t, 12) == s.subrange(425, 1203));
    assert(t[12] == update_text("systems"@, us[12]));
    assert(t[12] == "powerState = COALESCE(excluded.powerState, systems.powerState)"@);
    text::lemma_cuts_join(s, 425, 1203, 1205);
    text::lemma_cuts_join(s, 425, 1205, 1267);
    assert(listed(t, 13) == s.subrange(425, 1267));
    assert(t[13] == update_text("systems"@, us[13]));
    assert(t[13] == "powers = COALESCE(excluded.powers, systems.powers)"@);
    text::lemma_cuts_join(s, 425, 1267, 1269);
    text::lemma_cuts_join(s, 425, 1269, 1319);
    assert(listed(t, 14) == s.subrange(425, 1319));
    assert(t[14] == update_text("systems"@, us[14]));
    assert(t[14]
        == "controllingPower = COALESCE(excluded.controllingPower, systems.controllingPower)"@);
    text::lemma_cuts_join(s, 425, 1319, 1321);
    text::lemma_cuts_join(s, 425, 1321, 1401);
    assert(listed(t, 15) == s.subrange(425, 1401));
    assert(t[15] == update_text("systems"@, us[15]));
    assert(t[15]
        == "powerStateControlProgress = COALESCE(excluded.powerStateControlProgress, systems.powerStateControlProgress)"@);
    text::lemma_cuts_join(s, 425, 1401, 1403);
    text::lemma_cuts_join(s, 425, 1403, 1510);
    assert(listed(t, 16) == s.subrange(425, 1510));
}

proof fn lemma_system_update_list_2()
    requires
        SQL_SYSTEM@.len() == 1874,
        listed(update_texts("systems"@, system_updates()), 16) == SQL_SYSTEM@.subrange(425, 1510),
    ensures
        listed(update_texts("systems"@, system_updates()), 20) == SQL_SYSTEM@.subrange(425, 1874),
{
    let us = system_updates();
    let t = update_texts("systems"@, us);
    let s = SQL_SYSTEM@;
    lemma_system_update_texts_2();
    lemma_system_update_cuts_2();
    lemma_system_update_cuts_1();
    assert(t[16] == update_text("systems"@, us[16]));
    assert(t[16]
        == "powerStateReinforcement = COALESCE(excluded.powerStateReinforcement, systems.powerStateReinforcement)"@);
    text::lemma_cuts_join(s, 425, 1510, 1512);
    text::lemma_cuts_join(s, 425, 1512, 1613);
    assert(listed(t, 17) == s.subrange(425, 1613));
    assert(t[17] == update_text("systems"@, us[17]));
    assert(t[17]
        == "powerStateUndermining = COALESCE(excluded.powerStateUndermining, systems.powerStateUndermining)"@);
    text::lemma_cuts_join(s, 425, 1613, 1615);
    text::lemma_cuts_join(s, 425, 1615, 1710);
    assert(listed(t, 18) == s.subrange(425, 1710));
    assert(t[18] == update_text("systems"@, us[18]));
    assert(t[18]
        == "powerConflictProgress = COALESCE(excluded.powerConflictProgress, systems.powerConflictProgress)"@);
    text::lemma_cuts_join(s, 425, 1710, 1712);
    text::lemma_cuts_join(s, 425, 1712, 1807);
    assert(listed(t, 19) == s.subrange(425, 1807));
    assert(t[19] == update_text("systems"@, us[19]));
    assert(t[19] == "thargoidWar = COALESCE(excluded.thargoidWar, systems.thargoidWar)"@);
    text::lemma_cuts_join(s, 425, 1807, 1809);
    text::lemma_cuts_join(s, 425, 1809, 1874);
    assert(listed(t, 20) == s.subrange(425, 1874));
}

/// A system that is known is brought up to date column by column.
pub proof fn law_systems_are_brought_up_to_date()
    ensures
        SQL_SYSTEM@.skip(330)
            == "?, ?, ?, ?, ?, ?, ?, ?, ?, ?, ?, ?, ?, ?, ?, ?, ?, ?, ?, ?, ?) ON CONFLICT(id64) DO UPDATE SET "@
            + listed(
            update_texts("systems"@, system_updates()),
            20,
        ),
{
    lemma_system_update_head();
    lemma_system_update_list_0();
    lemma_system_update_list_1();
    lemma_system_update_list_2();
    let s = SQL_SYSTEM@;
    text::lemma_cuts_join(s, 330, 425, 1874);
    assert(s.skip(330) =~= s.subrange(330, 1874));
}

/// What becomes of the columns of a station that is there already.
pub open spec fn station_updates() -> Seq<Update> {
    seq![
        Update::Known("marketId"@),
        Update::Known("name"@),
        Update::Known("type"@),
        Update::Known("distanceToArrival"@),
        Update::Known("allegiance"@),
        Update::Known("government"@),
        Update::Known("economy"@),
        Update::Known("secondEconomy"@),
        Update::Larger("haveMarket"@),
        Update::Larger("haveShipyard"@),
        Update::Larger("haveOutfitting"@),
        Update::Listed("otherServices"@),
        Update::Known("updateTime"@),
        Update::Known("realName"@),
        Update::Known("carrierName"@),
        Update::Known("controllingFaction"@),
        Update::Known("controllingFactionState"@),
        Update::Known("state"@),
        Update::Known("latitude"@),
        Update::Known("longitude"@),
        Update::Known("landingPads"@),
        Update::Known("carrierDockingAccess"@),
        Update::Known("economies"@),
        Update::Known("market"@),
        Update::Known("shipyard"@),
        Update::Known("outfitting"@),
    ]
}

proof fn lemma_station_update_texts_0()
    ensures
        update_text("stations"@, Update::Known("marketId"@))
            == "marketId = COALESCE(excluded.marketId, stations.marketId)"@,
        update_text("stations"@, Update::Known("name"@))
            == "name = COALESCE(excluded.name, stations.name)"@,
        update_text("stations"@, Update::Known("type"@))
            == "type = COALESCE(excluded.type, stations.type)"@,
        update_text("stations"@, Update::Known("distanceToArrival"@))
            == "distanceToArrival = COALESCE(excluded.distanceToArrival, stations.distanceToArrival)"@,
        update_text("stations"@, Update::Known("allegiance"@))
            == "allegiance = COALESCE(excluded.allegiance, stations.allegiance)"@,
        update_text("stations"@, Update::Known("government"@))
            == "government = COALESCE(excluded.government, stations.government)"@,
        update_text("stations"@, Update::Known("economy"@))
            == "economy = COALESCE(excluded.economy, stations.economy)"@,
        update_text("stations"@, Update::Known("secondEconomy"@))
            == "secondEconomy = COALESCE(excluded.secondEconomy, stations.secondEconomy)"@,
{
    assert(update_text("stations"@,
        Update::Known("marketId"@)) =~= "marketId = COALESCE(excluded.marketId, stations.marketId)"@) by {
        reveal_strlit("marketId = COALESCE(excluded.marketId, stations.marketId)");
        reveal_strlit("marketId");
        reveal_strlit("stations");
        reveal_strlit(" = COALESCE(excluded.");
        reveal_strlit(", ");
        reveal_strlit(".");
        reveal_strlit(")");
    }
    assert(update_text("stations"@,
        Update::Known("name"@)) =~= "name = COALESCE(excluded.name, stations.name)"@) by {
        reveal_strlit("name = COALESCE(excluded.name, stations.name)");
        reveal_strlit("name");
        reveal_strlit("stations");
        reveal_strlit(" = COALESCE(excluded.");
        reveal_strlit(", ");
        reveal_strlit(".");
        reveal_strlit(")");
    }
    assert(update_text("stations"@,
        Update::Known("type"@)) =~= "type = COALESCE(excluded.type, stations.type)"@) by {
        reveal_strlit("type = COALESCE(excluded.type, stations.type)");
        reveal_strlit("type");
        reveal_strlit("stations");
        reveal_strlit(" = COALESCE(excluded.");
        reveal_strlit(", ");
        reveal_strlit(".");
        reveal_strlit(")");
    }
    assert(update_text("stations"@,
        Update::Known("distanceToArrival"@)) =~= "distanceToArrival = COALESCE(excluded.distanceToArrival, stations.distanceToArrival)"@) by {
        reveal_strlit("distanceToArrival = COALESCE(excluded.distanceToArrival, stations.distanceToArrival)");
        reveal_strlit("distanceToArrival");
        reveal_strlit("stations");
        reveal_strlit(" = COALESCE(excluded.");
        reveal_strlit(", ");
        reveal_strlit(".");
        reveal_strlit(")");
    }
    assert(update_text("stations"@,
        Update::Known("allegiance"@)) =~= "allegiance = COALESCE(excluded.allegiance, stations.allegiance)"@) by {
        reveal_strlit("allegiance = COALESCE(excluded.allegiance, stations.allegiance)");
        reveal_strlit("allegiance");
        reveal_strlit("stations");
        reveal_strlit(" = COALESCE(excluded.");
        reveal_strlit(", ");
        reveal_strlit(".");
        reveal_strlit(")");
    }
    assert(update_text("stations"@,
        Update::Known("government"@)) =~= "government = COALESCE(excluded.government, stations.government)"@) by {
        reveal_strlit("government = COALESCE(excluded.government, stations.government)");
        reveal_strlit("government");
        reveal_strlit("stations");
        reveal_strlit(" = COALESCE(excluded.");
        reveal_strlit(", ");
        reveal_strlit(".");
        reveal_strlit(")");
    }
    assert(update_text("stations"@,
        Update::Known("economy"@)) =~= "economy = COALESCE(excluded.economy, stations.economy)"@) by {
        reveal_strlit("economy = COALESCE(excluded.economy, stations.economy)");
        reveal_strlit("economy");
        reveal_strlit("stations");
        reveal_strlit(" = COALESCE(excluded.");
        reveal_strlit(", ");
        reveal_strlit(".");
        reveal_strlit(")");
    }
    assert(update_text("stations"@,
        Update::Known("secondEconomy"@)) =~= "secondEconomy = COALESCE(excluded.secondEconomy, stations.secondEconomy)"@) by {
        reveal_strlit("secondEconomy = COALESCE(excluded.secondEconomy, stations.secondEconomy)");
        reveal_strlit("secondEconomy");
        reveal_strlit("stations");
        reveal_strlit(" = COALESCE(excluded.");
        reveal_strlit(", ");
        reveal_strlit(".");
        reveal_strlit(")");
    }
}

proof fn lemma_station_update_texts_1()
    ensures
        update_text("stations"@, Update::Larger("haveMarket"@))
            == "haveMarket = MAX(excluded.haveMarket, stations.haveMarket)"@,
        update_text("stations"@, Update::Larger("haveShipyard"@))
            == "haveShipyard = MAX(excluded.haveShipyard, stations.haveShipyard)"@,
        update_text("stations"@, Update::Larger("haveOutfitting"@))
            == "haveOutfitting = MAX(excluded.haveOutfitting, stations.haveOutfitting)"@,
        update_text("stations"@, Update::Listed("otherServices"@))
            == "otherServices = COALESCE(NULLIF(excluded.otherServices, '[]'), stations.otherServices)"@,
        update_text("stations"@, Update::Known("updateTime"@))
            == "updateTime = COALESCE(excluded.updateTime, stations.updateTime)"@,
        update_text("stations"@, Update::Known("realName"@))
            == "realName = COALESCE(excluded.realName, stations.realName)"@,
        update_text("stations"@, Update::Known("carrierName"@))
            == "carrierName = COALESCE(excluded.carrierName, stations.carrierName)"@,
        update_text("stations"@, Update::Known("controllingFaction"@))
            == "controllingFaction = COALESCE(excluded.controllingFaction, stations.controllingFaction)"@,
{
    assert(update_text("stations"@,
        Update::Larger("haveMarket"@)) =~= "haveMarket = MAX(excluded.haveMarket, stations.haveMarket)"@) by {
        reveal_strlit("haveMarket = MAX(excluded.haveMarket, stations.haveMarket)");
        reveal_strlit("haveMarket");
        reveal_strlit("stations");
        reveal_strlit(" = MAX(excluded.");
        reveal_strlit(", ");
        reveal_strlit(".");
        reveal_strlit(")");
    }
    assert(update_text("stations"@,
        Update::Larger("haveShipyard"@)) =~= "haveShipyard = MAX(excluded.haveShipyard, stations.haveShipyard)"@) by {
        reveal_strlit("haveShipyard = MAX(excluded.haveShipyard, stations.haveShipyard)");
        reveal_strlit("haveShipyard");
        reveal_strlit("stations");
        reveal_strlit(" = MAX(excluded.");
        reveal_strlit(", ");
        reveal_strlit(".");
        reveal_strlit(")");
    }
    assert(update_text("stations"@,
        Update::Larger("haveOutfitting"@)) =~= "haveOutfitting = MAX(excluded.haveOutfitting, stations.haveOutfitting)"@) by {
        reveal_strlit("haveOutfitting = MAX(excluded.haveOutfitting, stations.haveOutfitting)");
        reveal_strlit("haveOutfitting");
        reveal_strlit("stations");
        reveal_strlit(" = MAX(excluded.");
        reveal_strlit(", ");
        reveal_strlit(".");
        reveal_strlit(")");
    }
    assert(update_text("stations"@,
        Update::Listed("otherServices"@)) =~= "otherServices = COALESCE(NULLIF(excluded.otherServices, '[]'), stations.otherServices)"@) by {
        reveal_strlit("otherServices = COALESCE(NULLIF(excluded.otherServices, '[]'), stations.otherServices)");
        reveal_strlit("otherServices");
        reveal_strlit("stations");
        reveal_strlit(" = COALESCE(NULLIF(excluded.");
        reveal_strlit(", '[]'), ");
        reveal_strlit(".");
        reveal_strlit(")");
    }
    assert(update_text("stations"@,
        Update::Known("updateTime"@)) =~= "updateTime = COALESCE(excluded.updateTime, stations.updateTime)"@) by {
        reveal_strlit("updateTime = COALESCE(excluded.updateTime, stations.updateTime)");
        reveal_strlit("updateTime");
        reveal_strlit("stations");
        reveal_strlit(" = COALESCE(excluded.");
        reveal_strlit(", ");
        reveal_strlit(".");
        reveal_strlit(")");
    }
    assert(update_text("stations"@,
        Update::Known("realName"@)) =~= "realName = COALESCE(excluded.realName, stations.realName)"@) by {
        reveal_strlit("realName = COALESCE(excluded.realName, stations.realName)");
        reveal_strlit("realName");
        reveal_strlit("stations");
        reveal_strlit(" = COALESCE(excluded.");
        reveal_strlit(", ");
        reveal_strlit(".");
        reveal_strlit(")");
    }
    assert(update_text("stations"@,
        Update::Known("carrierName"@)) =~= "carrierName = COALESCE(excluded.carrierName, stations.carrierName)"@) by {
        reveal_strlit("carrierName = COALESCE(excluded.carrierName, stations.carrierName)");
        reveal_strlit("carrierName");
        reveal_strlit("stations");
        reveal_strlit(" = COALESCE(excluded.");
        reveal_strlit(", ");
        reveal_strlit(".");
        reveal_strlit(")");
    }
    assert(update_text("stations"@,
        Update::Known("controllingFaction"@)) =~= "controllingFaction = COALESCE(excluded.controllingFaction, stations.controllingFaction)"@) by {
        reveal_strlit("controllingFaction = COALESCE(excluded.controllingFaction, stations.controllingFaction)");
        reveal_strlit("controllingFaction");
        reveal_strlit("stations");
        reveal_strlit(" = COALESCE(excluded.");
        reveal_strlit(", ");
        reveal_strlit(".");
        reveal_strlit(")");
    }
}

proof fn lemma_station_update_texts_2()
    ensures
        update_text("stations"@, Update::Known("controllingFactionState"@))
            == "controllingFactionState = COALESCE(excluded.controllingFactionState, stations.controllingFactionState)"@,
        update_text("stations"@, Update::Known("state"@))
            == "state = COALESCE(excluded.state, stations.state)"@,
        update_text("stations"@, Update::Known("latitude"@))
            == "latitude = COALESCE(excluded.latitude, stations.latitude)"@,
        update_text("stations"@, Update::Known("longitude"@))
            == "longitude = COALESCE(excluded.longitude, stations.longitude)"@,
        update_text("stations"@, Update::Known("landingPads"@))
            == "landingPads = COALESCE(excluded.landingPads, stations.landingPads)"@,
        update_text("stations"@, Update::Known("carrierDockingAccess"@))
            == "carrierDockingAccess = COALESCE(excluded.carrierDockingAccess, stations.carrierDockingAccess)"@,
        update_text("stations"@, Update::Known("economies"@))
            == "economies = COALESCE(excluded.economies, stations.economies)"@,
        update_text("stations"@, Update::Known("market"@))
            == "market = COALESCE(excluded.market, stations.market)"@,
{
    assert(update_text("stations"@,
        Update::Known("controllingFactionState"@)) =~= "controllingFactionState = COALESCE(excluded.controllingFactionState, stations.controllingFactionState)"@) by {
        reveal_strlit("controllingFactionState = COALESCE(excluded.controllingFactionState, stations.controllingFactionState)");
        reveal_strlit("controllingFactionState");
        reveal_strlit("stations");
        reveal_strlit(" = COALESCE(excluded.");
        reveal_strlit(", ");
        reveal_strlit(".");
        reveal_strlit(")");
    }
    assert(update_text("stations"@,
        Update::Known("state"@)) =~= "state = COALESCE(excluded.state, stations.state)"@) by {
        reveal_strlit("state = COALESCE(excluded.state, stations.state)");
        reveal_strlit("state");
        reveal_strlit("stations");
        reveal_strlit(" = COALESCE(excluded.");
        reveal_strlit(", ");
        reveal_strlit(".");
        reveal_strlit(")");
    }
    assert(update_text("stations"@,
        Update::Known("latitude"@)) =~= "latitude = COALESCE(excluded.latitude, stations.latitude)"@) by {
        reveal_strlit("latitude = COALESCE(excluded.latitude, stations.latitude)");
        reveal_strlit("latitude");
        reveal_strlit("stations");
        reveal_strlit(" = COALESCE(excluded.");
        reveal_strlit(", ");
        reveal_strlit(".");
        reveal_strlit(")");
    }
    assert(update_text("stations"@,
        Update::Known("longitude"@)) =~= "longitude = COALESCE(excluded.longitude, stations.longitude)"@) by {
        reveal_strlit("longitude = COALESCE(excluded.longitude, stations.longitude)");
        reveal_strlit("longitude");
        reveal_strlit("stations");
        reveal_strlit(" = COALESCE(excluded.");
        reveal_strlit(", ");
        reveal_strlit(".");
        reveal_strlit(")");
    }
    assert(update_text("stations"@,
        Update::Known("landingPads"@)) =~= "landingPads = COALESCE(excluded.landingPads, stations.landingPads)"@) by {
        reveal_strlit("landingPads = COALESCE(excluded.landingPads, stations.landingPads)");
        reveal_strlit("landingPads");
        reveal_strlit("stations");
        reveal_strlit(" = COALESCE(excluded.");
        reveal_strlit(", ");
        reveal_strlit(".");
        reveal_strlit(")");
    }
    assert(update_text("stations"@,
        Update::Known("carrierDockingAccess"@)) =~= "carrierDockingAccess = COALESCE(excluded.carrierDockingAccess, stations.carrierDockingAccess)"@) by {
        reveal_strlit("carrierDockingAccess = COALESCE(excluded.carrierDockingAccess, stations.carrierDockingAccess)");
        reveal_strlit("carrierDockingAccess");
        reveal_strlit("stations");
        reveal_strlit(" = COALESCE(excluded.");
        reveal_strlit(", ");
        reveal_strlit(".");
        reveal_strlit(")");
    }
    assert(update_text("stations"@,
        Update::Known("economies"@)) =~= "economies = COALESCE(excluded.economies, stations.economies)"@) by {
        reveal_strlit("economies = COALESCE(excluded.economies, stations.economies)");
        reveal_strlit("economies");
        reveal_strlit("stations");
        reveal_strlit(" = COALESCE(excluded.");
        reveal_strlit(", ");
        reveal_strlit(".");
        reveal_strlit(")");
    }
    assert(update_text("stations"@,
        Update::Known("market"@)) =~= "market = COALESCE(excluded.market, stations.market)"@) by {
        reveal_strlit("market = COALESCE(excluded.market, stations.market)");
        reveal_strlit("market");
        reveal_strlit("stations");
        reveal_strlit(" = COALESCE(excluded.");
        reveal_strlit(", ");
        reveal_strlit(".");
        reveal_strlit(")");
    }
}

proof fn lemma_station_update_texts_3()
    ensures
        update_text("stations"@, Update::Known("shipyard"@))
            == "shipyard = COALESCE(excluded.shipyard, stations.shipyard)"@,
        update_text("stations"@, Update::Known("outfitting"@))
            == "outfitting = COALESCE(excluded.outfitting, stations.outfitting)"@,
{
    assert(update_text("stations"@,
        Update::Known("shipyard"@)) =~= "shipyard = COALESCE(excluded.shipyard, stations.shipyard)"@) by {
        reveal_strlit("shipyard = COALESCE(excluded.shipyard, stations.shipyard)");
        reveal_strlit("shipyard");
        reveal_strlit("stations");
        reveal_strlit(" = COALESCE(excluded.");
        reveal_strlit(", ");
        reveal_strlit(".");
        reveal_strlit(")");
    }
    assert(update_text("stations"@,
        Update::Known("outfitting"@)) =~= "outfitting = COALESCE(excluded.outfitting, stations.outfitting)"@) by {
        reveal_strlit("outfitting = COALESCE(excluded.outfitting, stations.outfitting)");
        reveal_strlit("outfitting");
        reveal_strlit("stations");
        reveal_strlit(" = COALESCE(excluded.");
        reveal_strlit(", ");
        reveal_strlit(".");
        reveal_strlit(")");
    }
}

proof fn lemma_station_update_head()
    ensures
        SQL_STATION@.len() == 2216,
        SQL_STATION@.subrange(376, 475)
            == "?,?,?,?,?,?,?,?,?,?,?,?,?,?,?,?,?,?,?,?,?,?,?,?,?,?,?,?) ON CONFLICT(systemId64, id) DO UPDATE SET "@,
{
    reveal_strlit("INSERT INTO stations (id, marketId, systemId64, name, type, distanceToArrival, allegiance, government, economy, secondEconomy, haveMarket, haveShipyard, haveOutfitting, otherServices, updateTime, realName, carrierName, controllingFaction, controllingFactionState, state, latitude, longitude, landingPads, carrierDockingAccess, economies, market, shipyard, outfitting) VALUES (?,?,?,?,?,?,?,?,?,?,?,?,?,?,?,?,?,?,?,?,?,?,?,?,?,?,?,?) ON CONFLICT(systemId64, id) DO UPDATE SET marketId = COALESCE(excluded.marketId, stations.marketId), name = COALESCE(excluded.name, stations.name), type = COALESCE(excluded.type, stations.type), distanceToArrival = COALESCE(excluded.distanceToArrival, stations.distanceToArrival), allegiance = COALESCE(excluded.allegiance, stations.allegiance), government = COALESCE(excluded.government, stations.government), economy = COALESCE(excluded.economy, stations.economy), secondEconomy = COALESCE(excluded.secondEconomy, stations.secondEconomy), haveMarket = MAX(excluded.haveMarket, stations.haveMarket), haveShipyard = MAX(excluded.haveShipyard, stations.haveShipyard), haveOutfitting = MAX(excluded.haveOutfitting, stations.haveOutfitting), otherServices = COALESCE(NULLIF(excluded.otherServices, '[]'), stations.otherServices), updateTime = COALESCE(excluded.updateTime, stations.updateTime), realName = COALESCE(excluded.realName, stations.realName), carrierName = COALESCE(excluded.carrierName, stations.carrierName), controllingFaction = COALESCE(excluded.controllingFaction, stations.controllingFaction), controllingFactionState = COALESCE(excluded.controllingFactionState, stations.controllingFactionState), state = COALESCE(excluded.state, stations.state), latitude = COALESCE(excluded.latitude, stations.latitude), longitude = COALESCE(excluded.longitude, stations.longitude), landingPads = COALESCE(excluded.landingPads, stations.landingPads), carrierDockingAccess = COALESCE(excluded.carrierDockingAccess, stations.carrierDockingAccess), economies = COALESCE(excluded.economies, stations.economies), market = COALESCE(excluded.market, stations.market), shipyard = COALESCE(excluded.shipyard, stations.shipyard), outfitting = COALESCE(excluded.outfitting, stations.outfitting)");
    reveal_strlit("?,?,?,?,?,?,?,?,?,?,?,?,?,?,?,?,?,?,?,?,?,?,?,?,?,?,?,?) ON CONFLICT(systemId64, id) DO UPDATE SET ");
    assert(SQL_STATION@.subrange(376,
        475) =~= "?,?,?,?,?,?,?,?,?,?,?,?,?,?,?,?,?,?,?,?,?,?,?,?,?,?,?,?) ON CONFLICT(systemId64, id) DO UPDATE SET "@);
}

proof fn lemma_station_update_cuts_0()
    ensures
        SQL_STATION@.subrange(475, 532)
            == "marketId = COALESCE(excluded.marketId, stations.marketId)"@,
        SQL_STATION@.subrange(532, 534) == ", "@,
        SQL_STATION@.subrange(534, 579) == "name = COALESCE(excluded.name, stations.name)"@,
        SQL_STATION@.subrange(579, 581) == ", "@,
        SQL_STATION@.subrange(581, 626) == "type = COALESCE(excluded.type, stations.type)"@,
        SQL_STATION@.subrange(626, 628) == ", "@,
        SQL_STATION@.subrange(628, 712)
            == "distanceToArrival = COALESCE(excluded.distanceToArrival, stations.distanceToArrival)"@,
        SQL_STATION@.subrange(712, 714) == ", "@,
        SQL_STATION@.subrange(714, 777)
            == "allegiance = COALESCE(excluded.allegiance, stations.allegiance)"@,
        SQL_STATION@.subrange(777, 779) == ", "@,
        SQL_STATION@.subrange(779, 842)
            == "government = COALESCE(excluded.government, stations.government)"@,
        SQL_STATION@.subrange(842, 844) == ", "@,
        SQL_STATION@.subrange(844, 898)
            == "economy = COALESCE(excluded.economy, stations.economy)"@,
        SQL_STATION@.subrange(898, 900) == ", "@,
        SQL_STATION@.subrange(900, 972)
            == "secondEconomy = COALESCE(excluded.secondEconomy, stations.secondEconomy)"@,
        SQL_STATION@.subrange(972, 974) == ", "@,
{
    reveal_strlit("INSERT INTO stations (id, marketId, systemId64, name, type, distanceToArrival, allegiance, government, economy, secondEconomy, haveMarket, haveShipyard, haveOutfitting, otherServices, updateTime, realName, carrierName, controllingFaction, controllingFactionState, state, latitude, longitude, landingPads, carrierDockingAccess, economies, market, shipyard, outfitting) VALUES (?,?,?,?,?,?,?,?,?,?,?,?,?,?,?,?,?,?,?,?,?,?,?,?,?,?,?,?) ON CONFLICT(systemId64, id) DO UPDATE SET marketId = COALESCE(excluded.marketId, stations.marketId), name = COALESCE(excluded.name, stations.name), type = COALESCE(excluded.type, stations.type), distanceToArrival = COALESCE(excluded.distanceToArrival, stations.distanceToArrival), allegiance = COALESCE(excluded.allegiance, stations.allegiance), government = COALESCE(excluded.government, stations.government), economy = COALESCE(excluded.economy, stations.economy), secondEconomy = COALESCE(excluded.secondEconomy, stations.secondEconomy), haveMarket = MAX(excluded.haveMarket, stations.haveMarket), haveShipyard = MAX(excluded.haveShipyard, stations.haveShipyard), haveOutfitting = MAX(excluded.haveOutfitting, stations.haveOutfitting), otherServices = COALESCE(NULLIF(excluded.otherServices, '[]'), stations.otherServices), updateTime = COALESCE(excluded.updateTime, stations.updateTime), realName = COALESCE(excluded.realName, stations.realName), carrierName = COALESCE(excluded.carrierName, stations.carrierName), controllingFaction = COALESCE(excluded.controllingFaction, stations.controllingFaction), controllingFactionState = COALESCE(excluded.controllingFactionState, stations.controllingFactionState), state = COALESCE(excluded.state, stations.state), latitude = COALESCE(excluded.latitude, stations.latitude), longitude = COALESCE(excluded.longitude, stations.longitude), landingPads = COALESCE(excluded.landingPads, stations.landingPads), carrierDockingAccess = COALESCE(excluded.carrierDockingAccess, stations.carrierDockingAccess), economies = COALESCE(excluded.economies, stations.economies), market = COALESCE(excluded.market, stations.market), shipyard = COALESCE(excluded.shipyard, stations.shipyard), outfitting = COALESCE(excluded.outfitting, stations.outfitting)");
    reveal_strlit(", ");
    assert(SQL_STATION@.subrange(475,
        532) =~= "marketId = COALESCE(excluded.marketId, stations.marketId)"@) by {
        reveal_strlit("marketId = COALESCE(excluded.marketId, stations.marketId)");
    }
    assert(SQL_STATION@.subrange(532, 534) =~= ", "@);
    assert(SQL_STATION@.subrange(534,
        579) =~= "name = COALESCE(excluded.name, stations.name)"@) by {
        reveal_strlit("name = COALESCE(excluded.name, stations.name)");
    }
    assert(SQL_STATION@.subrange(579, 581) =~= ", "@);
    assert(SQL_STATION@.subrange(581,
        626) =~= "type = COALESCE(excluded.type, stations.type)"@) by {
        reveal_strlit("type = COALESCE(excluded.type, stations.type)");
    }
    assert(SQL_STATION@.subrange(626, 628) =~= ", "@);
    assert(SQL_STATION@.subrange(628,
        712) =~= "distanceToArrival = COALESCE(excluded.distanceToArrival, stations.distanceToArrival)"@) by {
        reveal_strlit("distanceToArrival = COALESCE(excluded.distanceToArrival, stations.distanceToArrival)");
    }
    assert(SQL_STATION@.subrange(712, 714) =~= ", "@);
    assert(SQL_STATION@.subrange(714,
        777) =~= "allegiance = COALESCE(excluded.allegiance, stations.allegiance)"@) by {
        reveal_strlit("allegiance = COALESCE(excluded.allegiance, stations.allegiance)");
    }
    assert(SQL_STATION@.subrange(777, 779) =~= ", "@);
    assert(SQL_STATION@.subrange(779,
        842) =~= "government = COALESCE(excluded.government, stations.government)"@) by {
        reveal_strlit("government = COALESCE(excluded.government, stations.government)");
    }
    assert(SQL_STATION@.subrange(842, 844) =~= ", "@);
    assert(SQL_STATION@.subrange(844,
        898) =~= "economy = COALESCE(excluded.economy, stations.economy)"@) by {
        reveal_strlit("economy = COALESCE(excluded.economy, stations.economy)");
    }
    assert(SQL_STATION@.subrange(898, 900) =~= ", "@);
    assert(SQL_STATION@.subrange(900,
        972) =~= "secondEconomy = COALESCE(excluded.secondEconomy, stations.secondEconomy)"@) by {
        reveal_strlit("secondEconomy = COALESCE(excluded.secondEconomy, stations.secondEconomy)");
    }
    assert(SQL_STATION@.subrange(972, 974) =~= ", "@);
}

proof fn lemma_station_update_cuts_1()
    ensures
        SQL_STATION@.subrange(974, 1032)
            == "haveMarket = MAX(excluded.haveMarket, stations.haveMarket)"@,
        SQL_STATION@.subrange(1032, 1034) == ", "@,
        SQL_STATION@.subrange(1034, 1098)
            == "haveShipyard = MAX(excluded.haveShipyard, stations.haveShipyard)"@,
        SQL_STATION@.subrange(1098, 1100) == ", "@,
        SQL_STATION@.subrange(1100, 1170)
            == "haveOutfitting = MAX(excluded.haveOutfitting, stations.haveOutfitting)"@,
        SQL_STATION@.subrange(1170, 1172) == ", "@,
        SQL_STATION@.subrange(1172, 1258)
            == "otherServices = COALESCE(NULLIF(excluded.otherServices, '[]'), stations.otherServices)"@,
        SQL_STATION@.subrange(1258, 1260) == ", "@,
        SQL_STATION@.subrange(1260, 1323)
            == "updateTime = COALESCE(excluded.updateTime, stations.updateTime)"@,
        SQL_STATION@.subrange(1323, 1325) == ", "@,
        SQL_STATION@.subrange(1325, 1382)
            == "realName = COALESCE(excluded.realName, stations.realName)"@,
        SQL_STATION@.subrange(1382, 1384) == ", "@,
        SQL_STATION@.subrange(1384, 1450)
            == "carrierName = COALESCE(excluded.carrierName, stations.carrierName)"@,
        SQL_STATION@.subrange(1450, 1452) == ", "@,
        SQL_STATION@.subrange(1452, 1539)
            == "controllingFaction = COALESCE(excluded.controllingFaction, stations.controllingFaction)"@,
        SQL_STATION@.subrange(1539, 1541) == ", "@,
{
    reveal_strlit("INSERT INTO stations (id, marketId, systemId64, name, type, distanceToArrival, allegiance, government, economy, secondEconomy, haveMarket, haveShipyard, haveOutfitting, otherServices, updateTime, realName, carrierName, controllingFaction, controllingFactionState, state, latitude, longitude, landingPads, carrierDockingAccess, economies, market, shipyard, outfitting) VALUES (?,?,?,?,?,?,?,?,?,?,?,?,?,?,?,?,?,?,?,?,?,?,?,?,?,?,?,?) ON CONFLICT(systemId64, id) DO UPDATE SET marketId = COALESCE(excluded.marketId, stations.marketId), name = COALESCE(excluded.name, stations.name), type = COALESCE(excluded.type, stations.type), distanceToArrival = COALESCE(excluded.distanceToArrival, stations.distanceToArrival), allegiance = COALESCE(excluded.allegiance, stations.allegiance), government = COALESCE(excluded.government, stations.government), economy = COALESCE(excluded.economy, stations.economy), secondEconomy = COALESCE(excluded.secondEconomy, stations.secondEconomy), haveMarket = MAX(excluded.haveMarket, stations.haveMarket), haveShipyard = MAX(excluded.haveShipyard, stations.haveShipyard), haveOutfitting = MAX(excluded.haveOutfitting, stations.haveOutfitting), otherServices = COALESCE(NULLIF(excluded.otherServices, '[]'), stations.otherServices), updateTime = COALESCE(excluded.updateTime, stations.updateTime), realName = COALESCE(excluded.realName, stations.realName), carrierName = COALESCE(excluded.carrierName, stations.carrierName), controllingFaction = COALESCE(excluded.controllingFaction, stations.controllingFaction), controllingFactionState = COALESCE(excluded.controllingFactionState, stations.controllingFactionState), state = COALESCE(excluded.state, stations.state), latitude = COALESCE(excluded.latitude, stations.latitude), longitude = COALESCE(excluded.longitude, stations.longitude), landingPads = COALESCE(excluded.landingPads, stations.landingPads), carrierDockingAccess = COALESCE(excluded.carrierDockingAccess, stations.carrierDockingAccess), economies = COALESCE(excluded.economies, stations.economies), market = COALESCE(excluded.market, stations.market), shipyard = COALESCE(excluded.shipyard, stations.shipyard), outfitting = COALESCE(excluded.outfitting, stations.outfitting)");
    reveal_strlit(", ");
    assert(SQL_STATION@.subrange(974,
        1032) =~= "haveMarket = MAX(excluded.haveMarket, stations.haveMarket)"@) by {
        reveal_strlit("haveMarket = MAX(excluded.haveMarket, stations.haveMarket)");
    }
    assert(SQL_STATION@.subrange(1032, 1034) =~= ", "@);
    assert(SQL_STATION@.subrange(1034,
        1098) =~= "haveShipyard = MAX(excluded.haveShipyard, stations.haveShipyard)"@) by {
        reveal_strlit("haveShipyard = MAX(excluded.haveShipyard, stations.haveShipyard)");
    }
    assert(SQL_STATION@.subrange(1098, 1100) =~= ", "@);
    assert(SQL_STATION@.subrange(1100,
        1170) =~= "haveOutfitting = MAX(excluded.haveOutfitting, stations.haveOutfitting)"@) by {
        reveal_strlit("haveOutfitting = MAX(excluded.haveOutfitting, stations.haveOutfitting)");
    }
    assert(SQL_STATION@.subrange(1170, 1172) =~= ", "@);
    assert(SQL_STATION@.subrange(1172,
        1258) =~= "otherServices = COALESCE(NULLIF(excluded.otherServices, '[]'), stations.otherServices)"@) by {
        reveal_strlit("otherServices = COALESCE(NULLIF(excluded.otherServices, '[]'), stations.otherServices)");
    }
    assert(SQL_STATION@.subrange(1258, 1260) =~= ", "@);
    assert(SQL_STATION@.subrange(1260,
        1323) =~= "updateTime = COALESCE(excluded.updateTime, stations.updateTime)"@) by {
        reveal_strlit("updateTime = COALESCE(excluded.updateTime, stations.updateTime)");
    }
    assert(SQL_STATION@.subrange(1323, 1325) =~= ", "@);
    assert(SQL_STATION@.subrange(1325,
        1382) =~= "realName = COALESCE(excluded.realName, stations.realName)"@) by {
        reveal_strlit("realName = COALESCE(excluded.realName, stations.realName)");
    }
    assert(SQL_STATION@.subrange(1382, 1384) =~= ", "@);
    assert(SQL_STATION@.subrange(1384,
        1450) =~= "carrierName = COALESCE(excluded.carrierName, stations.carrierName)"@) by {
        reveal_strlit("carrierName = COALESCE(excluded.carrierName, stations.carrierName)");
    }
    assert(SQL_STATION@.subrange(1450, 1452) =~= ", "@);
    assert(SQL_STATION@.subrange(1452,
        1539) =~= "controllingFaction = COALESCE(excluded.controllingFaction, stations.controllingFaction)"@) by {
        reveal_strlit("controllingFaction = COALESCE(excluded.controllingFaction, stations.controllingFaction)");
    }
    assert(SQL_STATION@.subrange(1539, 1541) =~= ", "@);
}

proof fn lemma_station_update_cuts_2()
    ensures
        SQL_STATION@.subrange(1541, 1643)
            == "controllingFactionState = COALESCE(excluded.controllingFactionState, stations.controllingFactionState)"@,
        SQL_STATION@.subrange(1643, 1645) == ", "@,
        SQL_STATION@.subrange(1645, 1693) == "state = COALESCE(excluded.state, stations.state)"@,
        SQL_STATION@.subrange(1693, 1695) == ", "@,
        SQL_STATION@.subrange(1695, 1752)
            == "latitude = COALESCE(excluded.latitude, stations.latitude)"@,
        SQL_STATION@.subrange(1752, 1754) == ", "@,
        SQL_STATION@.subrange(1754, 1814)
            == "longitude = COALESCE(excluded.longitude, stations.longitude)"@,
        SQL_STATION@.subrange(1814, 1816) == ", "@,
        SQL_STATION@.subrange(1816, 1882)
            == "landingPads = COALESCE(excluded.landingPads, stations.landingPads)"@,
        SQL_STATION@.subrange(1882, 1884) == ", "@,
        SQL_STATION@.subrange(1884, 1977)
            == "carrierDockingAccess = COALESCE(excluded.carrierDockingAccess, stations.carrierDockingAccess)"@,
        SQL_STATION@.subrange(1977, 1979) == ", "@,
        SQL_STATION@.subrange(1979, 2039)
            == "economies = COALESCE(excluded.economies, stations.economies)"@,
        SQL_STATION@.subrange(2039, 2041) == ", "@,
        SQL_STATION@.subrange(2041, 2092) == "market = COALESCE(excluded.market, stations.market)"@,
        SQL_STATION@.subrange(2092, 2094) == ", "@,
{
    reveal_strlit("INSERT INTO stations (id, marketId, systemId64, name, type, distanceToArrival, allegiance, government, economy, secondEconomy, haveMarket, haveShipyard, haveOutfitting, otherServices, updateTime, realName, carrierName, controllingFaction, controllingFactionState, state, latitude, longitude, landingPads, carrierDockingAccess, economies, market, shipyard, outfitting) VALUES (?,?,?,?,?,?,?,?,?,?,?,?,?,?,?,?,?,?,?,?,?,?,?,?,?,?,?,?) ON CONFLICT(systemId64, id) DO UPDATE SET marketId = COALESCE(excluded.marketId, stations.marketId), name = COALESCE(excluded.name, stations.name), type = COALESCE(excluded.type, stations.type), distanceToArrival = COALESCE(excluded.distanceToArrival, stations.distanceToArrival), allegiance = COALESCE(excluded.allegiance, stations.allegiance), government = COALESCE(excluded.government, stations.government), economy = COALESCE(excluded.economy, stations.economy), secondEconomy = COALESCE(excluded.secondEconomy, stations.secondEconomy), haveMarket = MAX(excluded.haveMarket, stations.haveMarket), haveShipyard = MAX(excluded.haveShipyard, stations.haveShipyard), haveOutfitting = MAX(excluded.haveOutfitting, stations.haveOutfitting), otherServices = COALESCE(NULLIF(excluded.otherServices, '[]'), stations.otherServices), updateTime = COALESCE(excluded.updateTime, stations.updateTime), realName = COALESCE(excluded.realName, stations.realName), carrierName = COALESCE(excluded.carrierName, stations.carrierName), controllingFaction = COALESCE(excluded.controllingFaction, stations.controllingFaction), controllingFactionState = COALESCE(excluded.controllingFactionState, stations.controllingFactionState), state = COALESCE(excluded.state, stations.state), latitude = COALESCE(excluded.latitude, stations.latitude), longitude = COALESCE(excluded.longitude, stations.longitude), landingPads = COALESCE(excluded.landingPads, stations.landingPads), carrierDockingAccess = COALESCE(excluded.carrierDockingAccess, stations.carrierDockingAccess), economies = COALESCE(excluded.economies, stations.economies), market = COALESCE(excluded.market, stations.market), shipyard = COALESCE(excluded.shipyard, stations.shipyard), outfitting = COALESCE(excluded.outfitting, stations.outfitting)");
    reveal_strlit(", ");
    assert(SQL_STATION@.subrange(1541,
        1643) =~= "controllingFactionState = COALESCE(excluded.controllingFactionState, stations.controllingFactionState)"@) by {
        reveal_strlit("controllingFactionState = COALESCE(excluded.controllingFactionState, stations.controllingFactionState)");
    }
    assert(SQL_STATION@.subrange(1643, 1645) =~= ", "@);
    assert(SQL_STATION@.subrange(1645,
        1693) =~= "state = COALESCE(excluded.state, stations.state)"@) by {
        reveal_strlit("state = COALESCE(excluded.state, stations.state)");
    }
    assert(SQL_STATION@.subrange(1693, 1695) =~= ", "@);
    assert(SQL_STATION@.subrange(1695,
        1752) =~= "latitude = COALESCE(excluded.latitude, stations.latitude)"@) by {
        reveal_strlit("latitude = COALESCE(excluded.latitude, stations.latitude)");
    }
    assert(SQL_STATION@.subrange(1752, 1754) =~= ", "@);
    assert(SQL_STATION@.subrange(1754,
        1814) =~= "longitude = COALESCE(excluded.longitude, stations.longitude)"@) by {
        reveal_strlit("longitude = COALESCE(excluded.longitude, stations.longitude)");
    }
    assert(SQL_STATION@.subrange(1814, 1816) =~= ", "@);
    assert(SQL_STATION@.subrange(1816,
        1882) =~= "landingPads = COALESCE(excluded.landingPads, stations.landingPads)"@) by {
        reveal_strlit("landingPads = COALESCE(excluded.landingPads, stations.landingPads)");
    }
    assert(SQL_STATION@.subrange(1882, 1884) =~= ", "@);
    assert(SQL_STATION@.subrange(1884,
        1977) =~= "carrierDockingAccess = COALESCE(excluded.carrierDockingAccess, stations.carrierDockingAccess)"@) by {
        reveal_strlit("carrierDockingAccess = COALESCE(excluded.carrierDockingAccess, stations.carrierDockingAccess)");
    }
    assert(SQL_STATION@.subrange(1977, 1979) =~= ", "@);
    assert(SQL_STATION@.subrange(1979,
        2039) =~= "economies = COALESCE(excluded.economies, stations.economies)"@) by {
        reveal_strlit("economies = COALESCE(excluded.economies, stations.economies)");
    }
    assert(SQL_STATION@.subrange(2039, 2041) =~= ", "@);
    assert(SQL_STATION@.subrange(2041,
        2092) =~= "market = COALESCE(excluded.market, stations.market)"@) by {
        reveal_strlit("market = COALESCE(excluded.market, stations.market)");
    }
    assert(SQL_STATION@.subrange(2092, 2094) =~= ", "@);
}

proof fn lemma_station_update_cuts_3()
    ensures
        SQL_STATION@.subrange(2094, 2151)
            == "shipyard = COALESCE(excluded.shipyard, stations.shipyard)"@,
        SQL_STATION@.subrange(2151, 2153) == ", "@,
        SQL_STATION@.subrange(2153, 2216)
            == "outfitting = COALESCE(excluded.outfitting, stations.outfitting)"@,
{
    reveal_strlit("INSERT INTO stations (id, marketId, systemId64, name, type, distanceToArrival, allegiance, government, economy, secondEconomy, haveMarket, haveShipyard, haveOutfitting, otherServices, updateTime, realName, carrierName, controllingFaction, controllingFactionState, state, latitude, longitude, landingPads, carrierDockingAccess, economies, market, shipyard, outfitting) VALUES (?,?,?,?,?,?,?,?,?,?,?,?,?,?,?,?,?,?,?,?,?,?,?,?,?,?,?,?) ON CONFLICT(systemId64, id) DO UPDATE SET marketId = COALESCE(excluded.marketId, stations.marketId), name = COALESCE(excluded.name, stations.name), type = COALESCE(excluded.type, stations.type), distanceToArrival = COALESCE(excluded.distanceToArrival, stations.distanceToArrival), allegiance = COALESCE(excluded.allegiance, stations.allegiance), government = COALESCE(excluded.government, stations.government), economy = COALESCE(excluded.economy, stations.economy), secondEconomy = COALESCE(excluded.secondEconomy, stations.secondEconomy), haveMarket = MAX(excluded.haveMarket, stations.haveMarket), haveShipyard = MAX(excluded.haveShipyard, stations.haveShipyard), haveOutfitting = MAX(excluded.haveOutfitting, stations.haveOutfitting), otherServices = COALESCE(NULLIF(excluded.otherServices, '[]'), stations.otherServices), updateTime = COALESCE(excluded.updateTime, stations.updateTime), realName = COALESCE(excluded.realName, stations.realName), carrierName = COALESCE(excluded.carrierName, stations.carrierName), controllingFaction = COALESCE(excluded.controllingFaction, stations.controllingFaction), controllingFactionState = COALESCE(excluded.controllingFactionState, stations.controllingFactionState), state = COALESCE(excluded.state, stations.state), latitude = COALESCE(excluded.latitude, stations.latitude), longitude = COALESCE(excluded.longitude, stations.longitude), landingPads = COALESCE(excluded.landingPads, stations.landingPads), carrierDockingAccess = COALESCE(excluded.carrierDockingAccess, stations.carrierDockingAccess), economies = COALESCE(excluded.economies, stations.economies), market = COALESCE(excluded.market, stations.market), shipyard = COALESCE(excluded.shipyard, stations.shipyard), outfitting = COALESCE(excluded.outfitting, stations.outfitting)");
    reveal_strlit(", ");
    assert(SQL_STATION@.subrange(2094,
        2151) =~= "shipyard = COALESCE(excluded.shipyard, stations.shipyard)"@) by {
        reveal_strlit("shipyard = COALESCE(excluded.shipyard, stations.shipyard)");
    }
    assert(SQL_STATION@.subrange(2151, 2153) =~= ", "@);
    assert(SQL_STATION@.subrange(2153,
        2216) =~= "outfitting = COALESCE(excluded.outfitting, stations.outfitting)"@) by {
        reveal_strlit("outfitting = COALESCE(excluded.outfitting, stations.outfitting)");
    }
}

proof fn lemma_station_update_list_0()
    requires
        SQL_STATION@.len() == 2216,
    ensures
        listed(update_texts("stations"@, station_updates()), 8) == SQL_STATION@.subrange(475, 972),
{
    let us = station_updates();
    let t = update_texts("stations"@, us);
    let s = SQL_STATION@;
    lemma_station_update_texts_0();
    lemma_station_update_cuts_0();
    assert(t[0] == update_text("stations"@, us[0]));
    assert(t[0] == "marketId = COALESCE(excluded.marketId, stations.marketId)"@);
    assert(listed(t, 1) == s.subrange(475, 532));
    assert(t[1] == update_text("stations"@, us[1]));
    assert(t[1] == "name = COALESCE(excluded.name, stations.name)"@);
    text::lemma_cuts_join(s, 475, 532, 534);
    text::lemma_cuts_join(s, 475, 534, 579);
    assert(listed(t, 2) == s.subrange(475, 579));
    assert(t[2] == update_text("stations"@, us[2]));
    assert(t[2] == "type = COALESCE(excluded.type, stations.type)"@);
    text::lemma_cuts_join(s, 475, 579, 581);
    text::lemma_cuts_join(s, 475, 581, 626);
    assert(listed(t, 3) == s.subrange(475, 626));
    assert(t[3] == update_text("stations"@, us[3]));
    assert(t[3]
        == "distanceToArrival = COALESCE(excluded.distanceToArrival, stations.distanceToArrival)"@);
    text::lemma_cuts_join(s, 475, 626, 628);
    text::lemma_cuts_join(s, 475, 628, 712);
    assert(listed(t, 4) == s.subrange(475, 712));
    assert(t[4] == update_text("stations"@, us[4]));
    assert(t[4] == "allegiance = COALESCE(excluded.allegiance, stations.allegiance)"@);
    text::lemma_cuts_join(s, 475, 712, 714);
    text::lemma_cuts_join(s, 475, 714, 777);
    assert(listed(t, 5) == s.subrange(475, 777));
    assert(t[5] == update_text("stations"@, us[5]));
    assert(t[5] == "government = COALESCE(excluded.government, stations.government)"@);
    text::lemma_cuts_join(s, 475, 777, 779);
    text::lemma_cuts_join(s, 475, 779, 842);
    assert(listed(t, 6) == s.subrange(475, 842));
    assert(t[6] == update_text("stations"@, us[6]));
    assert(t[6] == "economy = COALESCE(excluded.economy, stations.economy)"@);
    text::lemma_cuts_join(s, 475, 842, 844);
    text::lemma_cuts_join(s, 475, 844, 898);
    assert(listed(t, 7) == s.subrange(475, 898));
    assert(t[7] == update_text("stations"@, us[7]));
    assert(t[7] == "secondEconomy = COALESCE(excluded.secondEconomy, stations.secondEconomy)"@);
    text::lemma_cuts_join(s, 475, 898, 900);
    text::lemma_cuts_join(s, 475, 900, 972);
    assert(listed(t, 8) == s.subrange(475, 972));
}

proof fn lemma_station_update_list_1()
    requires
        SQL_STATION@.len() == 2216,
        listed(update_texts("stations"@, station_updates()), 8) == SQL_STATION@.subrange(475, 972),
    ensures
        listed(update_texts("stations"@, station_updates()), 16) == SQL_STATION@.subrange(475,
            1539),
{
    let us = station_updates();
    let t = update_texts("stations"@, us);
    let s = SQL_STATION@;
    lemma_station_update_texts_1();
    lemma_station_update_cuts_1();
    lemma_station_update_cuts_0();
    assert(t[8] == update_text("stations"@, us[8]));
    assert(t[8] == "haveMarket = MAX(excluded.haveMarket, stations.haveMarket)"@);
    text::lemma_cuts_join(s, 475, 972, 974);
    text::lemma_cuts_join(s, 475, 974, 1032);
    assert(listed(t, 9) == s.subrange(475, 1032));
    assert(t[9] == update_text("stations"@, us[9]));
    assert(t[9] == "haveShipyard = MAX(excluded.haveShipyard, stations.haveShipyard)"@);
    text::lemma_cuts_join(s, 475, 1032, 1034);
    text::lemma_cuts_join(s, 475, 1034, 1098);
    assert(listed(t, 10) == s.subrange(475, 1098));
    assert(t[10] == update_text("stations"@, us[10]));
    assert(t[10] == "haveOutfitting = MAX(excluded.haveOutfitting, stations.haveOutfitting)"@);
    text::lemma_cuts_join(s, 475, 1098, 1100);
    text::lemma_cuts_join(s, 475, 1100, 1170);
    assert(listed(t, 11) == s.subrange(475, 1170));
    assert(t[11] == update_text("stations"@, us[11]));
    assert(t[11]
        == "otherServices = COALESCE(NULLIF(excluded.otherServices, '[]'), stations.otherServices)"@);
    text::lemma_cuts_join(s, 475, 1170, 1172);
    text::lemma_cuts_join(s, 475, 1172, 1258);
    assert(listed(t, 12) == s.subrange(475, 1258));
    assert(t[12] == update_text("stations"@, us[12]));
    assert(t[12] == "updateTime = COALESCE(excluded.updateTime, stations.updateTime)"@);
    text::lemma_cuts_join(s, 475, 1258, 1260);
    text::lemma_cuts_join(s, 475, 1260, 1323);
    assert(listed(t, 13) == s.subrange(475, 1323));
    assert(t[13] == update_text("stations"@, us[13]));
    assert(t[13] == "realName = COALESCE(excluded.realName, stations.realName)"@);
    text::lemma_cuts_join(s, 475, 1323, 1325);
    text::lemma_cuts_join(s, 475, 1325, 1382);
    assert(listed(t, 14) == s.subrange(475, 1382));
    assert(t[14] == update_text("stations"@, us[14]));
    assert(t[14] == "carrierName = COALESCE(excluded.carrierName, stations.carrierName)"@);
    text::lemma_cuts_join(s, 475, 1382, 1384);
    text::lemma_cuts_join(s, 475, 1384, 1450);
    assert(listed(t, 15) == s.subrange(475, 1450));
    assert(t[15] == update_text("stations"@, us[15]));
    assert(t[15]
        == "controllingFaction = COALESCE(excluded.controllingFaction, stations.controllingFaction)"@);
    text::lemma_cuts_join(s, 475, 1450, 1452);
    text::lemma_cuts_join(s, 475, 1452, 1539);
    assert(listed(t, 16) == s.subrange(475, 1539));
}

proof fn lemma_station_update_list_2()
    requires
        SQL_STATION@.len() == 2216,
        listed(update_texts("stations"@, station_updates()), 16) == SQL_STATION@.subrange(475,
            1539),
    ensures
        listed(update_texts("stations"@, station_updates()), 24) == SQL_STATION@.subrange(475,
            2092),
{
    let us = station_updates();
    let t = update_texts("stations"@, us);
    let s = SQL_STATION@;
    lemma_station_update_texts_2();
    lemma_station_update_cuts_2();
    lemma_station_update_cuts_1();
    assert(t[16] == update_text("stations"@, us[16]));
    assert(t[16]
        == "controllingFactionState = COALESCE(excluded.controllingFactionState, stations.controllingFactionState)"@);
    text::lemma_cuts_join(s, 475, 1539, 1541);
    text::lemma_cuts_join(s, 475, 1541, 1643);
    assert(listed(t, 17) == s.subrange(475, 1643));
    assert(t[17] == update_text("stations"@, us[17]));
    assert(t[17] == "state = COALESCE(excluded.state, stations.state)"@);
    text::lemma_cuts_join(s, 475, 1643, 1645);
    text::lemma_cuts_join(s, 475, 1645, 1693);
    assert(listed(t, 18) == s.subrange(475, 1693));
    assert(t[18] == update_text("stations"@, us[18]));
    assert(t[18] == "latitude = COALESCE(excluded.latitude, stations.latitude)"@);
    text::lemma_cuts_join(s, 475, 1693, 1695);
    text::lemma_cuts_join(s, 475, 1695, 1752);
    assert(listed(t, 19) == s.subrange(475, 1752));
    assert(t[19] == update_text("stations"@, us[19]));
    assert(t[19] == "longitude = COALESCE(excluded.longitude, stations.longitude)"@);
    text::lemma_cuts_join(s, 475, 1752, 1754);
    text::lemma_cuts_join(s, 475, 1754, 1814);
    assert(listed(t, 20) == s.subrange(475, 1814));
    assert(t[20] == update_text("stations"@, us[20]));
    assert(t[20] == "landingPads = COALESCE(excluded.landingPads, stations.landingPads)"@);
    text::lemma_cuts_join(s, 475, 1814, 1816);
    text::lemma_cuts_join(s, 475, 1816, 1882);
    assert(listed(t, 21) == s.subrange(475, 1882));
    assert(t[21] == update_text("stations"@, us[21]));
    assert(t[21]
        == "carrierDockingAccess = COALESCE(excluded.carrierDockingAccess, stations.carrierDockingAccess)"@);
    text::lemma_cuts_join(s, 475, 1882, 1884);
    text::lemma_cuts_join(s, 475, 1884, 1977);
    assert(listed(t, 22) == s.subrange(475, 1977));
    assert(t[22] == update_text("stations"@, us[22]));
    assert(t[22] == "economies = COALESCE(excluded.economies, stations.economies)"@);
    text::lemma_cuts_join(s, 475, 1977, 1979);
    text::lemma_cuts_join(s, 475, 1979, 2039);
    assert(listed(t, 23) == s.subrange(475, 2039));
    assert(t[23] == update_text("stations"@, us[23]));
    assert(t[23] == "market = COALESCE(excluded.market, stations.market)"@);
    text::lemma_cuts_join(s, 475, 2039, 2041);
    text::lemma_cuts_join(s, 475, 2041, 2092);
    assert(listed(t, 24) == s.subrange(475, 2092));
}

proof fn lemma_station_update_list_3()
    requires
        SQL_STATION@.len() == 2216,
        listed(update_texts("stations"@, station_updates()), 24) == SQL_STATION@.subrange(475,
            2092),
    ensures
        listed(update_texts("stations"@, station_updates()), 26) == SQL_STATION@.subrange(475,
            2216),
{
    let us = station_updates();
    let t = update_texts("stations"@, us);
    let s = SQL_STATION@;
    lemma_station_update_texts_3();
    lemma_station_update_cuts_3();
    lemma_station_update_cuts_2();
    assert(t[24] == update_text("stations"@, us[24]));
    assert(t[24] == "shipyard = COALESCE(excluded.shipyard, stations.shipyard)"@);
    text::lemma_cuts_join(s, 475, 2092, 2094);
    text::lemma_cuts_join(s, 475, 2094, 2151);
    assert(listed(t, 25) == s.subrange(475, 2151));
    assert(t[25] == update_text("stations"@, us[25]));
    assert(t[25] == "outfitting = COALESCE(excluded.outfitting, stations.outfitting)"@);
    text::lemma_cuts_join(s, 475, 2151, 2153);
    text::lemma_cuts_join(s, 475, 2153, 2216);
    assert(listed(t, 26) == s.subrange(475, 2216));
}

/// A station that is known is brought up to date column by column.
pub proof fn law_stations_are_brought_up_to_date()
    ensures
        SQL_STATION@.skip(376)
            == "?,?,?,?,?,?,?,?,?,?,?,?,?,?,?,?,?,?,?,?,?,?,?,?,?,?,?,?) ON CONFLICT(systemId64, id) DO UPDATE SET "@
            + listed(
            update_texts("stations"@, station_updates()),
            26,
        ),
{
    lemma_station_update_head();
    lemma_station_update_list_0();
    lemma_station_update_list_1();
    lemma_station_update_list_2();
    lemma_station_update_list_3();
    let s = SQL_STATION@;
    text::lemma_cuts_join(s, 376, 475, 2216);
    assert(s.skip(376) =~= s.subrange(376, 2216));
}

/// What becomes of the columns of a body that is there already.
pub open spec fn body_updates() -> Seq<Update> {
    seq![
        Update::Known("name"@),
        Update::Known("type"@),
        Update::Known("subType"@),
        Update::Known("distanceToArrival"@),
        Update::Known("isLandable"@),
        Update::Known("gravity"@),
        Update::Known("earthMasses"@),
        Update::Known("radius"@),
        Update::Known("surfaceTemperature"@),
        Update::Known("orbitalPeriod"@),
        Update::Known("semiMajorAxis"@),
        Update::Known("orbitalEccentricity"@),
        Update::Known("orbitalInclination"@),
        Update::Known("argOfPeriapsis"@),
        Update::Known("rotationalPeriod"@),
        Update::Known("isTidallyLocked"@),
        Update::Known("axisTilt"@),
        Update::Known("volcanismType"@),
        Update::Known("atmosphereType"@),
        Update::Known("terraformingState"@),
        Update::Known("stellarMass"@),
        Update::Known("absoluteMagnitude"@),
        Update::Known("age"@),
        Update::Known("luminosity"@),
        Update::Known("subclass"@),
        Update::Known("surfacePressure"@),
        Update::Known("atmosphereComposition"@),
        Update::Known("composition"@),
        Update::Known("rings"@),
        Update::Known("parents"@),
        Update::Known("wasDiscovered"@),
        Update::Known("wasMapped"@),
        Update::Known("ascendingNode"@),
        Update::Known("meanAnomaly"@),
        Update::Known("signals"@),
        Update::Known("bodyId64"@),
        Update::Known("mainStar"@),
        Update::Known("spectralClass"@),
        Update::Known("solarRadius"@),
        Update::Known("materials"@),
        Update::Known("reserveLevel"@),
        Update::Known("belts"@),
        Update::Known("updateTime"@),
    ]
}

proof fn lemma_body_update_texts_0()
    ensures
        update_text("bodies"@, Update::Known("name"@))
            == "name = COALESCE(excluded.name, bodies.name)"@,
        update_text("bodies"@, Update::Known("type"@))
            == "type = COALESCE(excluded.type, bodies.type)"@,
        update_text("bodies"@, Update::Known("subType"@))
            == "subType = COALESCE(excluded.subType, bodies.subType)"@,
        update_text("bodies"@, Update::Known("distanceToArrival"@))
            == "distanceToArrival = COALESCE(excluded.distanceToArrival, bodies.distanceToArrival)"@,
        update_text("bodies"@, Update::Known("isLandable"@))
            == "isLandable = COALESCE(excluded.isLandable, bodies.isLandable)"@,
        update_text("bodies"@, Update::Known("gravity"@))
            == "gravity = COALESCE(excluded.gravity, bodies.gravity)"@,
        update_text("bodies"@, Update::Known("earthMasses"@))
            == "earthMasses = COALESCE(excluded.earthMasses, bodies.earthMasses)"@,
        update_text("bodies"@, Update::Known("radius"@))
            == "radius = COALESCE(excluded.radius, bodies.radius)"@,
{
    assert(update_text("bodies"@,
        Update::Known("name"@)) =~= "name = COALESCE(excluded.name, bodies.name)"@) by {
        reveal_strlit("name = COALESCE(excluded.name, bodies.name)");
        reveal_strlit("name");
        reveal_strlit("bodies");
        reveal_strlit(" = COALESCE(excluded.");
        reveal_strlit(", ");
        reveal_strlit(".");
        reveal_strlit(")");
    }
    assert(update_text("bodies"@,
        Update::Known("type"@)) =~= "type = COALESCE(excluded.type, bodies.type)"@) by {
        reveal_strlit("type = COALESCE(excluded.type, bodies.type)");
        reveal_strlit("type");
        reveal_strlit("bodies");
        reveal_strlit(" = COALESCE(excluded.");
        reveal_strlit(", ");
        reveal_strlit(".");
        reveal_strlit(")");
    }
    assert(update_text("bodies"@,
        Update::Known("subType"@)) =~= "subType = COALESCE(excluded.subType, bodies.subType)"@) by {
        reveal_strlit("subType = COALESCE(excluded.subType, bodies.subType)");
        reveal_strlit("subType");
        reveal_strlit("bodies");
        reveal_strlit(" = COALESCE(excluded.");
        reveal_strlit(", ");
        reveal_strlit(".");
        reveal_strlit(")");
    }
    assert(update_text("bodies"@,
        Update::Known("distanceToArrival"@)) =~= "distanceToArrival = COALESCE(excluded.distanceToArrival, bodies.distanceToArrival)"@) by {
        reveal_strlit("distanceToArrival = COALESCE(excluded.distanceToArrival, bodies.distanceToArrival)");
        reveal_strlit("distanceToArrival");
        reveal_strlit("bodies");
        reveal_strlit(" = COALESCE(excluded.");
        reveal_strlit(", ");
        reveal_strlit(".");
        reveal_strlit(")");
    }
    assert(update_text("bodies"@,
        Update::Known("isLandable"@)) =~= "isLandable = COALESCE(excluded.isLandable, bodies.isLandable)"@) by {
        reveal_strlit("isLandable = COALESCE(excluded.isLandable, bodies.isLandable)");
        reveal_strlit("isLandable");
        reveal_strlit("bodies");
        reveal_strlit(" = COALESCE(excluded.");
        reveal_strlit(", ");
        reveal_strlit(".");
        reveal_strlit(")");
    }
    assert(update_text("bodies"@,
        Update::Known("gravity"@)) =~= "gravity = COALESCE(excluded.gravity, bodies.gravity)"@) by {
        reveal_strlit("gravity = COALESCE(excluded.gravity, bodies.gravity)");
        reveal_strlit("gravity");
        reveal_strlit("bodies");
        reveal_strlit(" = COALESCE(excluded.");
        reveal_strlit(", ");
        reveal_strlit(".");
        reveal_strlit(")");
    }
    assert(update_text("bodies"@,
        Update::Known("earthMasses"@)) =~= "earthMasses = COALESCE(excluded.earthMasses, bodies.earthMasses)"@) by {
        reveal_strlit("earthMasses = COALESCE(excluded.earthMasses, bodies.earthMasses)");
        reveal_strlit("earthMasses");
        reveal_strlit("bodies");
        reveal_strlit(" = COALESCE(excluded.");
        reveal_strlit(", ");
        reveal_strlit(".");
        reveal_strlit(")");
    }
    assert(update_text("bodies"@,
        Update::Known("radius"@)) =~= "radius = COALESCE(excluded.radius, bodies.radius)"@) by {
        reveal_strlit("radius = COALESCE(excluded.radius, bodies.radius)");
        reveal_strlit("radius");
        reveal_strlit("bodies");
        reveal_strlit(" = COALESCE(excluded.");
        reveal_strlit(", ");
        reveal_strlit(".");
        reveal_strlit(")");
    }
}

proof fn lemma_body_update_texts_1()
    ensures
        update_text("bodies"@, Update::Known("surfaceTemperature"@))
            == "surfaceTemperature = COALESCE(excluded.surfaceTemperature, bodies.surfaceTemperature)"@,
        update_text("bodies"@, Update::Known("orbitalPeriod"@))
            == "orbitalPeriod = COALESCE(excluded.orbitalPeriod, bodies.orbitalPeriod)"@,
        update_text("bodies"@, Update::Known("semiMajorAxis"@))
            == "semiMajorAxis = COALESCE(excluded.semiMajorAxis, bodies.semiMajorAxis)"@,
        update_text("bodies"@, Update::Known("orbitalEccentricity"@))
            == "orbitalEccentricity = COALESCE(excluded.orbitalEccentricity, bodies.orbitalEccentricity)"@,
        update_text("bodies"@, Update::Known("orbitalInclination"@))
            == "orbitalInclination = COALESCE(excluded.orbitalInclination, bodies.orbitalInclination)"@,
        update_text("bodies"@, Update::Known("argOfPeriapsis"@))
            == "argOfPeriapsis = COALESCE(excluded.argOfPeriapsis, bodies.argOfPeriapsis)"@,
        update_text("bodies"@, Update::Known("rotationalPeriod"@))
            == "rotationalPeriod = COALESCE(excluded.rotationalPeriod, bodies.rotationalPeriod)"@,
        update_text("bodies"@, Update::Known("isTidallyLocked"@))
            == "isTidallyLocked = COALESCE(excluded.isTidallyLocked, bodies.isTidallyLocked)"@,
{
    assert(update_text("bodies"@,
        Update::Known("surfaceTemperature"@)) =~= "surfaceTemperature = COALESCE(excluded.surfaceTemperature, bodies.surfaceTemperature)"@) by {
        reveal_strlit("surfaceTemperature = COALESCE(excluded.surfaceTemperature, bodies.surfaceTemperature)");
        reveal_strlit("surfaceTemperature");
        reveal_strlit("bodies");
        reveal_strlit(" = COALESCE(excluded.");
        reveal_strlit(", ");
        reveal_strlit(".");
        reveal_strlit(")");
    }
    assert(update_text("bodies"@,
        Update::Known("orbitalPeriod"@)) =~= "orbitalPeriod = COALESCE(excluded.orbitalPeriod, bodies.orbitalPeriod)"@) by {
        reveal_strlit("orbitalPeriod = COALESCE(excluded.orbitalPeriod, bodies.orbitalPeriod)");
        reveal_strlit("orbitalPeriod");
        reveal_strlit("bodies");
        reveal_strlit(" = COALESCE(excluded.");
        reveal_strlit(", ");
        reveal_strlit(".");
        reveal_strlit(")");
    }
    assert(update_text("bodies"@,
        Update::Known("semiMajorAxis"@)) =~= "semiMajorAxis = COALESCE(excluded.semiMajorAxis, bodies.semiMajorAxis)"@) by {
        reveal_strlit("semiMajorAxis = COALESCE(excluded.semiMajorAxis, bodies.semiMajorAxis)");
        reveal_strlit("semiMajorAxis");
        reveal_strlit("bodies");
        reveal_strlit(" = COALESCE(excluded.");
        reveal_strlit(", ");
        reveal_strlit(".");
        reveal_strlit(")");
    }
    assert(update_text("bodies"@,
        Update::Known("orbitalEccentricity"@)) =~= "orbitalEccentricity = COALESCE(excluded.orbitalEccentricity, bodies.orbitalEccentricity)"@) by {
        reveal_strlit("orbitalEccentricity = COALESCE(excluded.orbitalEccentricity, bodies.orbitalEccentricity)");
        reveal_strlit("orbitalEccentricity");
        reveal_strlit("bodies");
        reveal_strlit(" = COALESCE(excluded.");
        reveal_strlit(", ");
        reveal_strlit(".");
        reveal_strlit(")");
    }
    assert(update_text("bodies"@,
        Update::Known("orbitalInclination"@)) =~= "orbitalInclination = COALESCE(excluded.orbitalInclination, bodies.orbitalInclination)"@) by {
        reveal_strlit("orbitalInclination = COALESCE(excluded.orbitalInclination, bodies.orbitalInclination)");
        reveal_strlit("orbitalInclination");
        reveal_strlit("bodies");
        reveal_strlit(" = COALESCE(excluded.");
        reveal_strlit(", ");
        reveal_strlit(".");
        reveal_strlit(")");
    }
    assert(update_text("bodies"@,
        Update::Known("argOfPeriapsis"@)) =~= "argOfPeriapsis = COALESCE(excluded.argOfPeriapsis, bodies.argOfPeriapsis)"@) by {
        reveal_strlit("argOfPeriapsis = COALESCE(excluded.argOfPeriapsis, bodies.argOfPeriapsis)");
        reveal_strlit("argOfPeriapsis");
        reveal_strlit("bodies");
        reveal_strlit(" = COALESCE(excluded.");
        reveal_strlit(", ");
        reveal_strlit(".");
        reveal_strlit(")");
    }
    assert(update_text("bodies"@,
        Update::Known("rotationalPeriod"@)) =~= "rotationalPeriod = COALESCE(excluded.rotationalPeriod, bodies.rotationalPeriod)"@) by {
        reveal_strlit("rotationalPeriod = COALESCE(excluded.rotationalPeriod, bodies.rotationalPeriod)");
        reveal_strlit("rotationalPeriod");
        reveal_strlit("bodies");
        reveal_strlit(" = COALESCE(excluded.");
        reveal_strlit(", ");
        reveal_strlit(".");
        reveal_strlit(")");
    }
    assert(update_text("bodies"@,
        Update::Known("isTidallyLocked"@)) =~= "isTidallyLocked = COALESCE(excluded.isTidallyLocked, bodies.isTidallyLocked)"@) by {
        reveal_strlit("isTidallyLocked = COALESCE(excluded.isTidallyLocked, bodies.isTidallyLocked)");
        reveal_strlit("isTidallyLocked");
        reveal_strlit("bodies");
        reveal_strlit(" = COALESCE(excluded.");
        reveal_strlit(", ");
        reveal_strlit(".");
        reveal_strlit(")");
    }
}

proof fn lemma_body_update_texts_2()
    ensures
        update_text("bodies"@, Update::Known("axisTilt"@))
            == "axisTilt = COALESCE(excluded.axisTilt, bodies.axisTilt)"@,
        update_text("bodies"@, Update::Known("volcanismType"@))
            == "volcanismType = COALESCE(excluded.volcanismType, bodies.volcanismType)"@,
        update_text("bodies"@, Update::Known("atmosphereType"@))
            == "atmosphereType = COALESCE(excluded.atmosphereType, bodies.atmosphereType)"@,
        update_text("bodies"@, Update::Known("terraformingState"@))
            == "terraformingState = COALESCE(excluded.terraformingState, bodies.terraformingState)"@,
        update_text("bodies"@, Update::Known("stellarMass"@))
            == "stellarMass = COALESCE(excluded.stellarMass, bodies.stellarMass)"@,
        update_text("bodies"@, Update::Known("absoluteMagnitude"@))
            == "absoluteMagnitude = COALESCE(excluded.absoluteMagnitude, bodies.absoluteMagnitude)"@,
        update_text("bodies"@, Update::Known("age"@))
            == "age = COALESCE(excluded.age, bodies.age)"@,
        update_text("bodies"@, Update::Known("luminosity"@))
            == "luminosity = COALESCE(excluded.luminosity, bodies.luminosity)"@,
{
    assert(update_text("bodies"@,
        Update::Known("axisTilt"@)) =~= "axisTilt = COALESCE(excluded.axisTilt, bodies.axisTilt)"@) by {
        reveal_strlit("axisTilt = COALESCE(excluded.axisTilt, bodies.axisTilt)");
        reveal_strlit("axisTilt");
        reveal_strlit("bodies");
        reveal_strlit(" = COALESCE(excluded.");
        reveal_strlit(", ");
        reveal_strlit(".");
        reveal_strlit(")");
    }
    assert(update_text("bodies"@,
        Update::Known("volcanismType"@)) =~= "volcanismType = COALESCE(excluded.volcanismType, bodies.volcanismType)"@) by {
        reveal_strlit("volcanismType = COALESCE(excluded.volcanismType, bodies.volcanismType)");
        reveal_strlit("volcanismType");
        reveal_strlit("bodies");
        reveal_strlit(" = COALESCE(excluded.");
        reveal_strlit(", ");
        reveal_strlit(".");
        reveal_strlit(")");
    }
    assert(update_text("bodies"@,
        Update::Known("atmosphereType"@)) =~= "atmosphereType = COALESCE(excluded.atmosphereType, bodies.atmosphereType)"@) by {
        reveal_strlit("atmosphereType = COALESCE(excluded.atmosphereType, bodies.atmosphereType)");
        reveal_strlit("atmosphereType");
        reveal_strlit("bodies");
        reveal_strlit(" = COALESCE(excluded.");
        reveal_strlit(", ");
        reveal_strlit(".");
        reveal_strlit(")");
    }
    assert(update_text("bodies"@,
        Update::Known("terraformingState"@)) =~= "terraformingState = COALESCE(excluded.terraformingState, bodies.terraformingState)"@) by {
        reveal_strlit("terraformingState = COALESCE(excluded.terraformingState, bodies.terraformingState)");
        reveal_strlit("terraformingState");
        reveal_strlit("bodies");
        reveal_strlit(" = COALESCE(excluded.");
        reveal_strlit(", ");
        reveal_strlit(".");
        reveal_strlit(")");
    }
    assert(update_text("bodies"@,
        Update::Known("stellarMass"@)) =~= "stellarMass = COALESCE(excluded.stellarMass, bodies.stellarMass)"@) by {
        reveal_strlit("stellarMass = COALESCE(excluded.stellarMass, bodies.stellarMass)");
        reveal_strlit("stellarMass");
        reveal_strlit("bodies");
        reveal_strlit(" = COALESCE(excluded.");
        reveal_strlit(", ");
        reveal_strlit(".");
        reveal_strlit(")");
    }
    assert(update_text("bodies"@,
        Update::Known("absoluteMagnitude"@)) =~= "absoluteMagnitude = COALESCE(excluded.absoluteMagnitude, bodies.absoluteMagnitude)"@) by {
        reveal_strlit("absoluteMagnitude = COALESCE(excluded.absoluteMagnitude, bodies.absoluteMagnitude)");
        reveal_strlit("absoluteMagnitude");
        reveal_strlit("bodies");
        reveal_strlit(" = COALESCE(excluded.");
        reveal_strlit(", ");
        reveal_strlit(".");
        reveal_strlit(")");
    }
    assert(update_text("bodies"@,
        Update::Known("age"@)) =~= "age = COALESCE(excluded.age, bodies.age)"@) by {
        reveal_strlit("age = COALESCE(excluded.age, bodies.age)");
        reveal_strlit("age");
        reveal_strlit("bodies");
        reveal_strlit(" = COALESCE(excluded.");
        reveal_strlit(", ");
        reveal_strlit(".");
        reveal_strlit(")");
    }
    assert(update_text("bodies"@,
        Update::Known("luminosity"@)) =~= "luminosity = COALESCE(excluded.luminosity, bodies.luminosity)"@) by {
        reveal_strlit("luminosity = COALESCE(excluded.luminosity, bodies.luminosity)");
        reveal_strlit("luminosity");
        reveal_strlit("bodies");
        reveal_strlit(" = COALESCE(excluded.");
        reveal_strlit(", ");
        reveal_strlit(".");
        reveal_strlit(")");
    }
}

proof fn lemma_body_update_texts_3()
    ensures
        update_text("bodies"@, Update::Known("subclass"@))
            == "subclass = COALESCE(excluded.subclass, bodies.subclass)"@,
        update_text("bodies"@, Update::Known("surfacePressure"@))
            == "surfacePressure = COALESCE(excluded.surfacePressure, bodies.surfacePressure)"@,
        update_text("bodies"@, Update::Known("atmosphereComposition"@))
            == "atmosphereComposition = COALESCE(excluded.atmosphereComposition, bodies.atmosphereComposition)"@,
        update_text("bodies"@, Update::Known("composition"@))
            == "composition = COALESCE(excluded.composition, bodies.composition)"@,
        update_text("bodies"@, Update::Known("rings"@))
            == "rings = COALESCE(excluded.rings, bodies.rings)"@,
        update_text("bodies"@, Update::Known("parents"@))
            == "parents = COALESCE(excluded.parents, bodies.parents)"@,
        update_text("bodies"@, Update::Known("wasDiscovered"@))
            == "wasDiscovered = COALESCE(excluded.wasDiscovered, bodies.wasDiscovered)"@,
        update_text("bodies"@, Update::Known("wasMapped"@))
            == "wasMapped = COALESCE(excluded.wasMapped, bodies.wasMapped)"@,
{
    assert(update_text("bodies"@,
        Update::Known("subclass"@)) =~= "subclass = COALESCE(excluded.subclass, bodies.subclass)"@) by {
        reveal_strlit("subclass = COALESCE(excluded.subclass, bodies.subclass)");
        reveal_strlit("subclass");
        reveal_strlit("bodies");
        reveal_strlit(" = COALESCE(excluded.");
        reveal_strlit(", ");
        reveal_strlit(".");
        reveal_strlit(")");
    }
    assert(update_text("bodies"@,
        Update::Known("surfacePressure"@)) =~= "surfacePressure = COALESCE(excluded.surfacePressure, bodies.surfacePressure)"@) by {
        reveal_strlit("surfacePressure = COALESCE(excluded.surfacePressure, bodies.surfacePressure)");
        reveal_strlit("surfacePressure");
        reveal_strlit("bodies");
        reveal_strlit(" = COALESCE(excluded.");
        reveal_strlit(", ");
        reveal_strlit(".");
        reveal_strlit(")");
    }
    assert(update_text("bodies"@,
        Update::Known("atmosphereComposition"@)) =~= "atmosphereComposition = COALESCE(excluded.atmosphereComposition, bodies.atmosphereComposition)"@) by {
        reveal_strlit("atmosphereComposition = COALESCE(excluded.atmosphereComposition, bodies.atmosphereComposition)");
        reveal_strlit("atmosphereComposition");
        reveal_strlit("bodies");
        reveal_strlit(" = COALESCE(excluded.");
        reveal_strlit(", ");
        reveal_strlit(".");
        reveal_strlit(")");
    }
    assert(update_text("bodies"@,
        Update::Known("composition"@)) =~= "composition = COALESCE(excluded.composition, bodies.composition)"@) by {
        reveal_strlit("composition = COALESCE(excluded.composition, bodies.composition)");
        reveal_strlit("composition");
        reveal_strlit("bodies");
        reveal_strlit(" = COALESCE(excluded.");
        reveal_strlit(", ");
        reveal_strlit(".");
        reveal_strlit(")");
    }
    assert(update_text("bodies"@,
        Update::Known("rings"@)) =~= "rings = COALESCE(excluded.rings, bodies.rings)"@) by {
        reveal_strlit("rings = COALESCE(excluded.rings, bodies.rings)");
        reveal_strlit("rings");
        reveal_strlit("bodies");
        reveal_strlit(" = COALESCE(excluded.");
        reveal_strlit(", ");
        reveal_strlit(".");
        reveal_strlit(")");
    }
    assert(update_text("bodies"@,
        Update::Known("parents"@)) =~= "parents = COALESCE(excluded.parents, bodies.parents)"@) by {
        reveal_strlit("parents = COALESCE(excluded.parents, bodies.parents)");
        reveal_strlit("parents");
        reveal_strlit("bodies");
        reveal_strlit(" = COALESCE(excluded.");
        reveal_strlit(", ");
        reveal_strlit(".");
        reveal_strlit(")");
    }
    assert(update_text("bodies"@,
        Update::Known("wasDiscovered"@)) =~= "wasDiscovered = COALESCE(excluded.wasDiscovered, bodies.wasDiscovered)"@) by {
        reveal_strlit("wasDiscovered = COALESCE(excluded.wasDiscovered, bodies.wasDiscovered)");
        reveal_strlit("wasDiscovered");
        reveal_strlit("bodies");
        reveal_strlit(" = COALESCE(excluded.");
        reveal_strlit(", ");
        reveal_strlit(".");
        reveal_strlit(")");
    }
    assert(update_text("bodies"@,
        Update::Known("wasMapped"@)) =~= "wasMapped = COALESCE(excluded.wasMapped, bodies.wasMapped)"@) by {
        reveal_strlit("wasMapped = COALESCE(excluded.wasMapped, bodies.wasMapped)");
        reveal_strlit("wasMapped");
        reveal_strlit("bodies");
        reveal_strlit(" = COALESCE(excluded.");
        reveal_strlit(", ");
        reveal_strlit(".");
        reveal_strlit(")");
    }
}

proof fn lemma_body_update_texts_4()
    ensures
        update_text("bodies"@, Update::Known("ascendingNode"@))
            == "ascendingNode = COALESCE(excluded.ascendingNode, bodies.ascendingNode)"@,
        update_text("bodies"@, Update::Known("meanAnomaly"@))
            == "meanAnomaly = COALESCE(excluded.meanAnomaly, bodies.meanAnomaly)"@,
        update_text("bodies"@, Update::Known("signals"@))
            == "signals = COALESCE(excluded.signals, bodies.signals)"@,
        update_text("bodies"@, Update::Known("bodyId64"@))
            == "bodyId64 = COALESCE(excluded.bodyId64, bodies.bodyId64)"@,
        update_text("bodies"@, Update::Known("mainStar"@))
            == "mainStar = COALESCE(excluded.mainStar, bodies.mainStar)"@,
        update_text("bodies"@, Update::Known("spectralClass"@))
            == "spectralClass = COALESCE(excluded.spectralClass, bodies.spectralClass)"@,
        update_text("bodies"@, Update::Known("solarRadius"@))
            == "solarRadius = COALESCE(excluded.solarRadius, bodies.solarRadius)"@,
        update_text("bodies"@, Update::Known("materials"@))
            == "materials = COALESCE(excluded.materials, bodies.materials)"@,
{
    assert(update_text("bodies"@,
        Update::Known("ascendingNode"@)) =~= "ascendingNode = COALESCE(excluded.ascendingNode, bodies.ascendingNode)"@) by {
        reveal_strlit("ascendingNode = COALESCE(excluded.ascendingNode, bodies.ascendingNode)");
        reveal_strlit("ascendingNode");
        reveal_strlit("bodies");
        reveal_strlit(" = COALESCE(excluded.");
        reveal_strlit(", ");
        reveal_strlit(".");
        reveal_strlit(")");
    }
    assert(update_text("bodies"@,
        Update::Known("meanAnomaly"@)) =~= "meanAnomaly = COALESCE(excluded.meanAnomaly, bodies.meanAnomaly)"@) by {
        reveal_strlit("meanAnomaly = COALESCE(excluded.meanAnomaly, bodies.meanAnomaly)");
        reveal_strlit("meanAnomaly");
        reveal_strlit("bodies");
        reveal_strlit(" = COALESCE(excluded.");
        reveal_strlit(", ");
        reveal_strlit(".");
        reveal_strlit(")");
    }
    assert(update_text("bodies"@,
        Update::Known("signals"@)) =~= "signals = COALESCE(excluded.signals, bodies.signals)"@) by {
        reveal_strlit("signals = COALESCE(excluded.signals, bodies.signals)");
        reveal_strlit("signals");
        reveal_strlit("bodies");
        reveal_strlit(" = COALESCE(excluded.");
        reveal_strlit(", ");
        reveal_strlit(".");
        reveal_strlit(")");
    }
    assert(update_text("bodies"@,
        Update::Known("bodyId64"@)) =~= "bodyId64 = COALESCE(excluded.bodyId64, bodies.bodyId64)"@) by {
        reveal_strlit("bodyId64 = COALESCE(excluded.bodyId64, bodies.bodyId64)");
        reveal_strlit("bodyId64");
        reveal_strlit("bodies");
        reveal_strlit(" = COALESCE(excluded.");
        reveal_strlit(", ");
        reveal_strlit(".");
        reveal_strlit(")");
    }
    assert(update_text("bodies"@,
        Update::Known("mainStar"@)) =~= "mainStar = COALESCE(excluded.mainStar, bodies.mainStar)"@) by {
        reveal_strlit("mainStar = COALESCE(excluded.mainStar, bodies.mainStar)");
        reveal_strlit("mainStar");
        reveal_strlit("bodies");
        reveal_strlit(" = COALESCE(excluded.");
        reveal_strlit(", ");
        reveal_strlit(".");
        reveal_strlit(")");
    }
    assert(update_text("bodies"@,
        Update::Known("spectralClass"@)) =~= "spectralClass = COALESCE(excluded.spectralClass, bodies.spectralClass)"@) by {
        reveal_strlit("spectralClass = COALESCE(excluded.spectralClass, bodies.spectralClass)");
        reveal_strlit("spectralClass");
        reveal_strlit("bodies");
        reveal_strlit(" = COALESCE(excluded.");
        reveal_strlit(", ");
        reveal_strlit(".");
        reveal_strlit(")");
    }
    assert(update_text("bodies"@,
        Update::Known("solarRadius"@)) =~= "solarRadius = COALESCE(excluded.solarRadius, bodies.solarRadius)"@) by {
        reveal_strlit("solarRadius = COALESCE(excluded.solarRadius, bodies.solarRadius)");
        reveal_strlit("solarRadius");
        reveal_strlit("bodies");
        reveal_strlit(" = COALESCE(excluded.");
        reveal_strlit(", ");
        reveal_strlit(".");
        reveal_strlit(")");
    }
    assert(update_text("bodies"@,
        Update::Known("materials"@)) =~= "materials = COALESCE(excluded.materials, bodies.materials)"@) by {
        reveal_strlit("materials = COALESCE(excluded.materials, bodies.materials)");
        reveal_strlit("materials");
        reveal_strlit("bodies");
        reveal_strlit(" = COALESCE(excluded.");
        reveal_strlit(", ");
        reveal_strlit(".");
        reveal_strlit(")");
    }
}

proof fn lemma_body_update_texts_5()
    ensures
        update_text("bodies"@, Update::Known("reserveLevel"@))
            == "reserveLevel = COALESCE(excluded.reserveLevel, bodies.reserveLevel)"@,
        update_text("bodies"@, Update::Known("belts"@))
            == "belts = COALESCE(excluded.belts, bodies.belts)"@,
        update_text("bodies"@, Update::Known("updateTime"@))
            == "updateTime = COALESCE(excluded.updateTime, bodies.updateTime)"@,
{
    assert(update_text("bodies"@,
        Update::Known("reserveLevel"@)) =~= "reserveLevel = COALESCE(excluded.reserveLevel, bodies.reserveLevel)"@) by {
        reveal_strlit("reserveLevel = COALESCE(excluded.reserveLevel, bodies.reserveLevel)");
        reveal_strlit("reserveLevel");
        reveal_strlit("bodies");
        reveal_strlit(" = COALESCE(excluded.");
        reveal_strlit(", ");
        reveal_strlit(".");
        reveal_strlit(")");
    }
    assert(update_text("bodies"@,
        Update::Known("belts"@)) =~= "belts = COALESCE(excluded.belts, bodies.belts)"@) by {
        reveal_strlit("belts = COALESCE(excluded.belts, bodies.belts)");
        reveal_strlit("belts");
        reveal_strlit("bodies");
        reveal_strlit(" = COALESCE(excluded.");
        reveal_strlit(", ");
        reveal_strlit(".");
        reveal_strlit(")");
    }
    assert(update_text("bodies"@,
        Update::Known("updateTime"@)) =~= "updateTime = COALESCE(excluded.updateTime, bodies.updateTime)"@) by {
        reveal_strlit("updateTime = COALESCE(excluded.updateTime, bodies.updateTime)");
        reveal_strlit("updateTime");
        reveal_strlit("bodies");
        reveal_strlit(" = COALESCE(excluded.");
        reveal_strlit(", ");
        reveal_strlit(".");
        reveal_strlit(")");
    }
}

proof fn lemma_body_update_head()
    ensures
        SQL_BODY@.len() == 3612,
        SQL_BODY@.subrange(615, 752)
            == "?,?,?,?,?,?,?,?,?,?,?,?,?,?,?,?,?,?,?,?,?,?,?,?,?,?,?,?,?,?,?,?,?,?,?,?,?,?,?,?,?,?,?,?,?) ON CONFLICT(systemId64, bodyId) DO UPDATE SET "@,
{
    reveal_strlit("INSERT INTO bodies (systemId64, bodyId, name, type, subType, distanceToArrival, isLandable, gravity, earthMasses, radius, surfaceTemperature, orbitalPeriod, semiMajorAxis, orbitalEccentricity, orbitalInclination, argOfPeriapsis, rotationalPeriod, isTidallyLocked, axisTilt, volcanismType, atmosphereType, terraformingState, stellarMass, absoluteMagnitude, age, luminosity, subclass, surfacePressure, atmosphereComposition, composition, rings, parents, wasDiscovered, wasMapped, ascendingNode, meanAnomaly, signals, bodyId64, mainStar, spectralClass, solarRadius, materials, reserveLevel, belts, updateTime) VALUES (?,?,?,?,?,?,?,?,?,?,?,?,?,?,?,?,?,?,?,?,?,?,?,?,?,?,?,?,?,?,?,?,?,?,?,?,?,?,?,?,?,?,?,?,?) ON CONFLICT(systemId64, bodyId) DO UPDATE SET name = COALESCE(excluded.name, bodies.name), type = COALESCE(excluded.type, bodies.type), subType = COALESCE(excluded.subType, bodies.subType), distanceToArrival = COALESCE(excluded.distanceToArrival, bodies.distanceToArrival), isLandable = COALESCE(excluded.isLandable, bodies.isLandable), gravity = COALESCE(excluded.gravity, bodies.gravity), earthMasses = COALESCE(excluded.earthMasses, bodies.earthMasses), radius = COALESCE(excluded.radius, bodies.radius), surfaceTemperature = COALESCE(excluded.surfaceTemperature, bodies.surfaceTemperature), orbitalPeriod = COALESCE(excluded.orbitalPeriod, bodies.orbitalPeriod), semiMajorAxis = COALESCE(excluded.semiMajorAxis, bodies.semiMajorAxis), orbitalEccentricity = COALESCE(excluded.orbitalEccentricity, bodies.orbitalEccentricity), orbitalInclination = COALESCE(excluded.orbitalInclination, bodies.orbitalInclination), argOfPeriapsis = COALESCE(excluded.argOfPeriapsis, bodies.argOfPeriapsis), rotationalPeriod = COALESCE(excluded.rotationalPeriod, bodies.rotationalPeriod), isTidallyLocked = COALESCE(excluded.isTidallyLocked, bodies.isTidallyLocked), axisTilt = COALESCE(excluded.axisTilt, bodies.axisTilt), volcanismType = COALESCE(excluded.volcanismType, bodies.volcanismType), atmosphereType = COALESCE(excluded.atmosphereType, bodies.atmosphereType), terraformingState = COALESCE(excluded.terraformingState, bodies.terraformingState), stellarMass = COALESCE(excluded.stellarMass, bodies.stellarMass), absoluteMagnitude = COALESCE(excluded.absoluteMagnitude, bodies.absoluteMagnitude), age = COALESCE(excluded.age, bodies.age), luminosity = COALESCE(excluded.luminosity, bodies.luminosity), subclass = COALESCE(excluded.subclass, bodies.subclass), surfacePressure = COALESCE(excluded.surfacePressure, bodies.surfacePressure), atmosphereComposition = COALESCE(excluded.atmosphereComposition, bodies.atmosphereComposition), composition = COALESCE(excluded.composition, bodies.composition), rings = COALESCE(excluded.rings, bodies.rings), parents = COALESCE(excluded.parents, bodies.parents), wasDiscovered = COALESCE(excluded.wasDiscovered, bodies.wasDiscovered), wasMapped = COALESCE(excluded.wasMapped, bodies.wasMapped), ascendingNode = COALESCE(excluded.ascendingNode, bodies.ascendingNode), meanAnomaly = COALESCE(excluded.meanAnomaly, bodies.meanAnomaly), signals = COALESCE(excluded.signals, bodies.signals), bodyId64 = COALESCE(excluded.bodyId64, bodies.bodyId64), mainStar = COALESCE(excluded.mainStar, bodies.mainStar), spectralClass = COALESCE(excluded.spectralClass, bodies.spectralClass), solarRadius = COALESCE(excluded.solarRadius, bodies.solarRadius), materials = COALESCE(excluded.materials, bodies.materials), reserveLevel = COALESCE(excluded.reserveLevel, bodies.reserveLevel), belts = COALESCE(excluded.belts, bodies.belts), updateTime = COALESCE(excluded.updateTime, bodies.updateTime)");
    reveal_strlit("?,?,?,?,?,?,?,?,?,?,?,?,?,?,?,?,?,?,?,?,?,?,?,?,?,?,?,?,?,?,?,?,?,?,?,?,?,?,?,?,?,?,?,?,?) ON CONFLICT(systemId64, bodyId) DO UPDATE SET ");
    assert(SQL_BODY@.subrange(615,
        752) =~= "?,?,?,?,?,?,?,?,?,?,?,?,?,?,?,?,?,?,?,?,?,?,?,?,?,?,?,?,?,?,?,?,?,?,?,?,?,?,?,?,?,?,?,?,?) ON CONFLICT(systemId64, bodyId) DO UPDATE SET "@);
}

proof fn lemma_body_update_cuts_0()
    ensures
        SQL_BODY@.subrange(752, 795) == "name = COALESCE(excluded.name, bodies.name)"@,
        SQL_BODY@.subrange(795, 797) == ", "@,
        SQL_BODY@.subrange(797, 840) == "type = COALESCE(excluded.type, bodies.type)"@,
        SQL_BODY@.subrange(840, 842) == ", "@,
        SQL_BODY@.subrange(842, 894) == "subType = COALESCE(excluded.subType, bodies.subType)"@,
        SQL_BODY@.subrange(894, 896) == ", "@,
        SQL_BODY@.subrange(896, 978)
            == "distanceToArrival = COALESCE(excluded.distanceToArrival, bodies.distanceToArrival)"@,
        SQL_BODY@.subrange(978, 980) == ", "@,
        SQL_BODY@.subrange(980, 1041)
            == "isLandable = COALESCE(excluded.isLandable, bodies.isLandable)"@,
        SQL_BODY@.subrange(1041, 1043) == ", "@,
        SQL_BODY@.subrange(1043, 1095) == "gravity = COALESCE(excluded.gravity, bodies.gravity)"@,
        SQL_BODY@.subrange(1095, 1097) == ", "@,
        SQL_BODY@.subrange(1097, 1161)
            == "earthMasses = COALESCE(excluded.earthMasses, bodies.earthMasses)"@,
        SQL_BODY@.subrange(1161, 1163) == ", "@,
        SQL_BODY@.subrange(1163, 1212) == "radius = COALESCE(excluded.radius, bodies.radius)"@,
        SQL_BODY@.subrange(1212, 1214) == ", "@,
{
    reveal_strlit("INSERT INTO bodies (systemId64, bodyId, name, type, subType, distanceToArrival, isLandable, gravity, earthMasses, radius, surfaceTemperature, orbitalPeriod, semiMajorAxis, orbitalEccentricity, orbitalInclination, argOfPeriapsis, rotationalPeriod, isTidallyLocked, axisTilt, volcanismType, atmosphereType, terraformingState, stellarMass, absoluteMagnitude, age, luminosity, subclass, surfacePressure, atmosphereComposition, composition, rings, parents, wasDiscovered, wasMapped, ascendingNode, meanAnomaly, signals, bodyId64, mainStar, spectralClass, solarRadius, materials, reserveLevel, belts, updateTime) VALUES (?,?,?,?,?,?,?,?,?,?,?,?,?,?,?,?,?,?,?,?,?,?,?,?,?,?,?,?,?,?,?,?,?,?,?,?,?,?,?,?,?,?,?,?,?) ON CONFLICT(systemId64, bodyId) DO UPDATE SET name = COALESCE(excluded.name, bodies.name), type = COALESCE(excluded.type, bodies.type), subType = COALESCE(excluded.subType, bodies.subType), distanceToArrival = COALESCE(excluded.distanceToArrival, bodies.distanceToArrival), isLandable = COALESCE(excluded.isLandable, bodies.isLandable), gravity = COALESCE(excluded.gravity, bodies.gravity), earthMasses = COALESCE(excluded.earthMasses, bodies.earthMasses), radius = COALESCE(excluded.radius, bodies.radius), surfaceTemperature = COALESCE(excluded.surfaceTemperature, bodies.surfaceTemperature), orbitalPeriod = COALESCE(excluded.orbitalPeriod, bodies.orbitalPeriod), semiMajorAxis = COALESCE(excluded.semiMajorAxis, bodies.semiMajorAxis), orbitalEccentricity = COALESCE(excluded.orbitalEccentricity, bodies.orbitalEccentricity), orbitalInclination = COALESCE(excluded.orbitalInclination, bodies.orbitalInclination), argOfPeriapsis = COALESCE(excluded.argOfPeriapsis, bodies.argOfPeriapsis), rotationalPeriod = COALESCE(excluded.rotationalPeriod, bodies.rotationalPeriod), isTidallyLocked = COALESCE(excluded.isTidallyLocked, bodies.isTidallyLocked), axisTilt = COALESCE(excluded.axisTilt, bodies.axisTilt), volcanismType = COALESCE(excluded.volcanismType, bodies.volcanismType), atmosphereType = COALESCE(excluded.atmosphereType, bodies.atmosphereType), terraformingState = COALESCE(excluded.terraformingState, bodies.terraformingState), stellarMass = COALESCE(excluded.stellarMass, bodies.stellarMass), absoluteMagnitude = COALESCE(excluded.absoluteMagnitude, bodies.absoluteMagnitude), age = COALESCE(excluded.age, bodies.age), luminosity = COALESCE(excluded.luminosity, bodies.luminosity), subclass = COALESCE(excluded.subclass, bodies.subclass), surfacePressure = COALESCE(excluded.surfacePressure, bodies.surfacePressure), atmosphereComposition = COALESCE(excluded.atmosphereComposition, bodies.atmosphereComposition), composition = COALESCE(excluded.composition, bodies.composition), rings = COALESCE(excluded.rings, bodies.rings), parents = COALESCE(excluded.parents, bodies.parents), wasDiscovered = COALESCE(excluded.wasDiscovered, bodies.wasDiscovered), wasMapped = COALESCE(excluded.wasMapped, bodies.wasMapped), ascendingNode = COALESCE(excluded.ascendingNode, bodies.ascendingNode), meanAnomaly = COALESCE(excluded.meanAnomaly, bodies.meanAnomaly), signals = COALESCE(excluded.signals, bodies.signals), bodyId64 = COALESCE(excluded.bodyId64, bodies.bodyId64), mainStar = COALESCE(excluded.mainStar, bodies.mainStar), spectralClass = COALESCE(excluded.spectralClass, bodies.spectralClass), solarRadius = COALESCE(excluded.solarRadius, bodies.solarRadius), materials = COALESCE(excluded.materials, bodies.materials), reserveLevel = COALESCE(excluded.reserveLevel, bodies.reserveLevel), belts = COALESCE(excluded.belts, bodies.belts), updateTime = COALESCE(excluded.updateTime, bodies.updateTime)");
    reveal_strlit(", ");
    assert(SQL_BODY@.subrange(752, 795) =~= "name = COALESCE(excluded.name, bodies.name)"@) by {
        reveal_strlit("name = COALESCE(excluded.name, bodies.name)");
    }
    assert(SQL_BODY@.subrange(795, 797) =~= ", "@);
    assert(SQL_BODY@.subrange(797, 840) =~= "type = COALESCE(excluded.type, bodies.type)"@) by {
        reveal_strlit("type = COALESCE(excluded.type, bodies.type)");
    }
    assert(SQL_BODY@.subrange(840, 842) =~= ", "@);
    assert(SQL_BODY@.subrange(842,
        894) =~= "subType = COALESCE(excluded.subType, bodies.subType)"@) by {
        reveal_strlit("subType = COALESCE(excluded.subType, bodies.subType)");
    }
    assert(SQL_BODY@.subrange(894, 896) =~= ", "@);
    assert(SQL_BODY@.subrange(896,
        978) =~= "distanceToArrival = COALESCE(excluded.distanceToArrival, bodies.distanceToArrival)"@) by {
        reveal_strlit("distanceToArrival = COALESCE(excluded.distanceToArrival, bodies.distanceToArrival)");
    }
    assert(SQL_BODY@.subrange(978, 980) =~= ", "@);
    assert(SQL_BODY@.subrange(980,
        1041) =~= "isLandable = COALESCE(excluded.isLandable, bodies.isLandable)"@) by {
        reveal_strlit("isLandable = COALESCE(excluded.isLandable, bodies.isLandable)");
    }
    assert(SQL_BODY@.subrange(1041, 1043) =~= ", "@);
    assert(SQL_BODY@.subrange(1043,
        1095) =~= "gravity = COALESCE(excluded.gravity, bodies.gravity)"@) by {
        reveal_strlit("gravity = COALESCE(excluded.gravity, bodies.gravity)");
    }
    assert(SQL_BODY@.subrange(1095, 1097) =~= ", "@);
    assert(SQL_BODY@.subrange(1097,
        1161) =~= "earthMasses = COALESCE(excluded.earthMasses, bodies.earthMasses)"@) by {
        reveal_strlit("earthMasses = COALESCE(excluded.earthMasses, bodies.earthMasses)");
    }
    assert(SQL_BODY@.subrange(1161, 1163) =~= ", "@);
    assert(SQL_BODY@.subrange(1163,
        1212) =~= "radius = COALESCE(excluded.radius, bodies.radius)"@) by {
        reveal_strlit("radius = COALESCE(excluded.radius, bodies.radius)");
    }
    assert(SQL_BODY@.subrange(1212, 1214) =~= ", "@);
}

proof fn lemma_body_update_cuts_1()
    ensures
        SQL_BODY@.subrange(1214, 1299)
            == "surfaceTemperature = COALESCE(excluded.surfaceTemperature, bodies.surfaceTemperature)"@,
        SQL_BODY@.subrange(1299, 1301) == ", "@,
        SQL_BODY@.subrange(1301, 1371)
            == "orbitalPeriod = COALESCE(excluded.orbitalPeriod, bodies.orbitalPeriod)"@,
        SQL_BODY@.subrange(1371, 1373) == ", "@,
        SQL_BODY@.subrange(1373, 1443)
            == "semiMajorAxis = COALESCE(excluded.semiMajorAxis, bodies.semiMajorAxis)"@,
        SQL_BODY@.subrange(1443, 1445) == ", "@,
        SQL_BODY@.subrange(1445, 1533)
            == "orbitalEccentricity = COALESCE(excluded.orbitalEccentricity, bodies.orbitalEccentricity)"@,
        SQL_BODY@.subrange(1533, 1535) == ", "@,
        SQL_BODY@.subrange(1535, 1620)
            == "orbitalInclination = COALESCE(excluded.orbitalInclination, bodies.orbitalInclination)"@,
        SQL_BODY@.subrange(1620, 1622) == ", "@,
        SQL_BODY@.subrange(1622, 1695)
            == "argOfPeriapsis = COALESCE(excluded.argOfPeriapsis, bodies.argOfPeriapsis)"@,
        SQL_BODY@.subrange(1695, 1697) == ", "@,
        SQL_BODY@.subrange(1697, 1776)
            == "rotationalPeriod = COALESCE(excluded.rotationalPeriod, bodies.rotationalPeriod)"@,
        SQL_BODY@.subrange(1776, 1778) == ", "@,
        SQL_BODY@.subrange(1778, 1854)
            == "isTidallyLocked = COALESCE(excluded.isTidallyLocked, bodies.isTidallyLocked)"@,
        SQL_BODY@.subrange(1854, 1856) == ", "@,
{
    reveal_strlit("INSERT INTO bodies (systemId64, bodyId, name, type, subType, distanceToArrival, isLandable, gravity, earthMasses, radius, surfaceTemperature, orbitalPeriod, semiMajorAxis, orbitalEccentricity, orbitalInclination, argOfPeriapsis, rotationalPeriod, isTidallyLocked, axisTilt, volcanismType, atmosphereType, terraformingState, stellarMass, absoluteMagnitude, age, luminosity, subclass, surfacePressure, atmosphereComposition, composition, rings, parents, wasDiscovered, wasMapped, ascendingNode, meanAnomaly, signals, bodyId64, mainStar, spectralClass, solarRadius, materials, reserveLevel, belts, updateTime) VALUES (?,?,?,?,?,?,?,?,?,?,?,?,?,?,?,?,?,?,?,?,?,?,?,?,?,?,?,?,?,?,?,?,?,?,?,?,?,?,?,?,?,?,?,?,?) ON CONFLICT(systemId64, bodyId) DO UPDATE SET name = COALESCE(excluded.name, bodies.name), type = COALESCE(excluded.type, bodies.type), subType = COALESCE(excluded.subType, bodies.subType), distanceToArrival = COALESCE(excluded.distanceToArrival, bodies.distanceToArrival), isLandable = COALESCE(excluded.isLandable, bodies.isLandable), gravity = COALESCE(excluded.gravity, bodies.gravity), earthMasses = COALESCE(excluded.earthMasses, bodies.earthMasses), radius = COALESCE(excluded.radius, bodies.radius), surfaceTemperature = COALESCE(excluded.surfaceTemperature, bodies.surfaceTemperature), orbitalPeriod = COALESCE(excluded.orbitalPeriod, bodies.orbitalPeriod), semiMajorAxis = COALESCE(excluded.semiMajorAxis, bodies.semiMajorAxis), orbitalEccentricity = COALESCE(excluded.orbitalEccentricity, bodies.orbitalEccentricity), orbitalInclination = COALESCE(excluded.orbitalInclination, bodies.orbitalInclination), argOfPeriapsis = COALESCE(excluded.argOfPeriapsis, bodies.argOfPeriapsis), rotationalPeriod = COALESCE(excluded.rotationalPeriod, bodies.rotationalPeriod), isTidallyLocked = COALESCE(excluded.isTidallyLocked, bodies.isTidallyLocked), axisTilt = COALESCE(excluded.axisTilt, bodies.axisTilt), volcanismType = COALESCE(excluded.volcanismType, bodies.volcanismType), atmosphereType = COALESCE(excluded.atmosphereType, bodies.atmosphereType), terraformingState = COALESCE(excluded.terraformingState, bodies.terraformingState), stellarMass = COALESCE(excluded.stellarMass, bodies.stellarMass), absoluteMagnitude = COALESCE(excluded.absoluteMagnitude, bodies.absoluteMagnitude), age = COALESCE(excluded.age, bodies.age), luminosity = COALESCE(excluded.luminosity, bodies.luminosity), subclass = COALESCE(excluded.subclass, bodies.subclass), surfacePressure = COALESCE(excluded.surfacePressure, bodies.surfacePressure), atmosphereComposition = COALESCE(excluded.atmosphereComposition, bodies.atmosphereComposition), composition = COALESCE(excluded.composition, bodies.composition), rings = COALESCE(excluded.rings, bodies.rings), parents = COALESCE(excluded.parents, bodies.parents), wasDiscovered = COALESCE(excluded.wasDiscovered, bodies.wasDiscovered), wasMapped = COALESCE(excluded.wasMapped, bodies.wasMapped), ascendingNode = COALESCE(excluded.ascendingNode, bodies.ascendingNode), meanAnomaly = COALESCE(excluded.meanAnomaly, bodies.meanAnomaly), signals = COALESCE(excluded.signals, bodies.signals), bodyId64 = COALESCE(excluded.bodyId64, bodies.bodyId64), mainStar = COALESCE(excluded.mainStar, bodies.mainStar), spectralClass = COALESCE(excluded.spectralClass, bodies.spectralClass), solarRadius = COALESCE(excluded.solarRadius, bodies.solarRadius), materials = COALESCE(excluded.materials, bodies.materials), reserveLevel = COALESCE(excluded.reserveLevel, bodies.reserveLevel), belts = COALESCE(excluded.belts, bodies.belts), updateTime = COALESCE(excluded.updateTime, bodies.updateTime)");
    reveal_strlit(", ");
    assert(SQL_BODY@.subrange(1214,
        1299) =~= "surfaceTemperature = COALESCE(excluded.surfaceTemperature, bodies.surfaceTemperature)"@) by {
        reveal_strlit("surfaceTemperature = COALESCE(excluded.surfaceTemperature, bodies.surfaceTemperature)");
    }
    assert(SQL_BODY@.subrange(1299, 1301) =~= ", "@);
    assert(SQL_BODY@.subrange(1301,
        1371) =~= "orbitalPeriod = COALESCE(excluded.orbitalPeriod, bodies.orbitalPeriod)"@) by {
        reveal_strlit("orbitalPeriod = COALESCE(excluded.orbitalPeriod, bodies.orbitalPeriod)");
    }
    assert(SQL_BODY@.subrange(1371, 1373) =~= ", "@);
    assert(SQL_BODY@.subrange(1373,
        1443) =~= "semiMajorAxis = COALESCE(excluded.semiMajorAxis, bodies.semiMajorAxis)"@) by {
        reveal_strlit("semiMajorAxis = COALESCE(excluded.semiMajorAxis, bodies.semiMajorAxis)");
    }
    assert(SQL_BODY@.subrange(1443, 1445) =~= ", "@);
    assert(SQL_BODY@.subrange(1445,
        1533) =~= "orbitalEccentricity = COALESCE(excluded.orbitalEccentricity, bodies.orbitalEccentricity)"@) by {
        reveal_strlit("orbitalEccentricity = COALESCE(excluded.orbitalEccentricity, bodies.orbitalEccentricity)");
    }
    assert(SQL_BODY@.subrange(1533, 1535) =~= ", "@);
    assert(SQL_BODY@.subrange(1535,
        1620) =~= "orbitalInclination = COALESCE(excluded.orbitalInclination, bodies.orbitalInclination)"@) by {
        reveal_strlit("orbitalInclination = COALESCE(excluded.orbitalInclination, bodies.orbitalInclination)");
    }
    assert(SQL_BODY@.subrange(1620, 1622) =~= ", "@);
    assert(SQL_BODY@.subrange(1622,
        1695) =~= "argOfPeriapsis = COALESCE(excluded.argOfPeriapsis, bodies.argOfPeriapsis)"@) by {
        reveal_strlit("argOfPeriapsis = COALESCE(excluded.argOfPeriapsis, bodies.argOfPeriapsis)");
    }
    assert(SQL_BODY@.subrange(1695, 1697) =~= ", "@);
    assert(SQL_BODY@.subrange(1697,
        1776) =~= "rotationalPeriod = COALESCE(excluded.rotationalPeriod, bodies.rotationalPeriod)"@) by {
        reveal_strlit("rotationalPeriod = COALESCE(excluded.rotationalPeriod, bodies.rotationalPeriod)");
    }
    assert(SQL_BODY@.subrange(1776, 1778) =~= ", "@);
    assert(SQL_BODY@.subrange(1778,
        1854) =~= "isTidallyLocked = COALESCE(excluded.isTidallyLocked, bodies.isTidallyLocked)"@) by {
        reveal_strlit("isTidallyLocked = COALESCE(excluded.isTidallyLocked, bodies.isTidallyLocked)");
    }
    assert(SQL_BODY@.subrange(1854, 1856) =~= ", "@);
}

proof fn lemma_body_update_cuts_2()
    ensures
        SQL_BODY@.subrange(1856, 1911)
            == "axisTilt = COALESCE(excluded.axisTilt, bodies.axisTilt)"@,
        SQL_BODY@.subrange(1911, 1913) == ", "@,
        SQL_BODY@.subrange(1913, 1983)
            == "volcanismType = COALESCE(excluded.volcanismType, bodies.volcanismType)"@,
        SQL_BODY@.subrange(1983, 1985) == ", "@,
        SQL_BODY@.subrange(1985, 2058)
            == "atmosphereType = COALESCE(excluded.atmosphereType, bodies.atmosphereType)"@,
        SQL_BODY@.subrange(2058, 2060) == ", "@,
        SQL_BODY@.subrange(2060, 2142)
            == "terraformingState = COALESCE(excluded.terraformingState, bodies.terraformingState)"@,
        SQL_BODY@.subrange(2142, 2144) == ", "@,
        SQL_BODY@.subrange(2144, 2208)
            == "stellarMass = COALESCE(excluded.stellarMass, bodies.stellarMass)"@,
        SQL_BODY@.subrange(2208, 2210) == ", "@,
        SQL_BODY@.subrange(2210, 2292)
            == "absoluteMagnitude = COALESCE(excluded.absoluteMagnitude, bodies.absoluteMagnitude)"@,
        SQL_BODY@.subrange(2292, 2294) == ", "@,
        SQL_BODY@.subrange(2294, 2334) == "age = COALESCE(excluded.age, bodies.age)"@,
        SQL_BODY@.subrange(2334, 2336) == ", "@,
        SQL_BODY@.subrange(2336, 2397)
            == "luminosity = COALESCE(excluded.luminosity, bodies.luminosity)"@,
        SQL_BODY@.subrange(2397, 2399) == ", "@,
{
    reveal_strlit("INSERT INTO bodies (systemId64, bodyId, name, type, subType, distanceToArrival, isLandable, gravity, earthMasses, radius, surfaceTemperature, orbitalPeriod, semiMajorAxis, orbitalEccentricity, orbitalInclination, argOfPeriapsis, rotationalPeriod, isTidallyLocked, axisTilt, volcanismType, atmosphereType, terraformingState, stellarMass, absoluteMagnitude, age, luminosity, subclass, surfacePressure, atmosphereComposition, composition, rings, parents, wasDiscovered, wasMapped, ascendingNode, meanAnomaly, signals, bodyId64, mainStar, spectralClass, solarRadius, materials, reserveLevel, belts, updateTime) VALUES (?,?,?,?,?,?,?,?,?,?,?,?,?,?,?,?,?,?,?,?,?,?,?,?,?,?,?,?,?,?,?,?,?,?,?,?,?,?,?,?,?,?,?,?,?) ON CONFLICT(systemId64, bodyId) DO UPDATE SET name = COALESCE(excluded.name, bodies.name), type = COALESCE(excluded.type, bodies.type), subType = COALESCE(excluded.subType, bodies.subType), distanceToArrival = COALESCE(excluded.distanceToArrival, bodies.distanceToArrival), isLandable = COALESCE(excluded.isLandable, bodies.isLandable), gravity = COALESCE(excluded.gravity, bodies.gravity), earthMasses = COALESCE(excluded.earthMasses, bodies.earthMasses), radius = COALESCE(excluded.radius, bodies.radius), surfaceTemperature = COALESCE(excluded.surfaceTemperature, bodies.surfaceTemperature), orbitalPeriod = COALESCE(excluded.orbitalPeriod, bodies.orbitalPeriod), semiMajorAxis = COALESCE(excluded.semiMajorAxis, bodies.semiMajorAxis), orbitalEccentricity = COALESCE(excluded.orbitalEccentricity, bodies.orbitalEccentricity), orbitalInclination = COALESCE(excluded.orbitalInclination, bodies.orbitalInclination), argOfPeriapsis = COALESCE(excluded.argOfPeriapsis, bodies.argOfPeriapsis), rotationalPeriod = COALESCE(excluded.rotationalPeriod, bodies.rotationalPeriod), isTidallyLocked = COALESCE(excluded.isTidallyLocked, bodies.isTidallyLocked), axisTilt = COALESCE(excluded.axisTilt, bodies.axisTilt), volcanismType = COALESCE(excluded.volcanismType, bodies.volcanismType), atmosphereType = COALESCE(excluded.atmosphereType, bodies.atmosphereType), terraformingState = COALESCE(excluded.terraformingState, bodies.terraformingState), stellarMass = COALESCE(excluded.stellarMass, bodies.stellarMass), absoluteMagnitude = COALESCE(excluded.absoluteMagnitude, bodies.absoluteMagnitude), age = COALESCE(excluded.age, bodies.age), luminosity = COALESCE(excluded.luminosity, bodies.luminosity), subclass = COALESCE(excluded.subclass, bodies.subclass), surfacePressure = COALESCE(excluded.surfacePressure, bodies.surfacePressure), atmosphereComposition = COALESCE(excluded.atmosphereComposition, bodies.atmosphereComposition), composition = COALESCE(excluded.composition, bodies.composition), rings = COALESCE(excluded.rings, bodies.rings), parents = COALESCE(excluded.parents, bodies.parents), wasDiscovered = COALESCE(excluded.wasDiscovered, bodies.wasDiscovered), wasMapped = COALESCE(excluded.wasMapped, bodies.wasMapped), ascendingNode = COALESCE(excluded.ascendingNode, bodies.ascendingNode), meanAnomaly = COALESCE(excluded.meanAnomaly, bodies.meanAnomaly), signals = COALESCE(excluded.signals, bodies.signals), bodyId64 = COALESCE(excluded.bodyId64, bodies.bodyId64), mainStar = COALESCE(excluded.mainStar, bodies.mainStar), spectralClass = COALESCE(excluded.spectralClass, bodies.spectralClass), solarRadius = COALESCE(excluded.solarRadius, bodies.solarRadius), materials = COALESCE(excluded.materials, bodies.materials), reserveLevel = COALESCE(excluded.reserveLevel, bodies.reserveLevel), belts = COALESCE(excluded.belts, bodies.belts), updateTime = COALESCE(excluded.updateTime, bodies.updateTime)");
    reveal_strlit(", ");
    assert(SQL_BODY@.subrange(1856,
        1911) =~= "axisTilt = COALESCE(excluded.axisTilt, bodies.axisTilt)"@) by {
        reveal_strlit("axisTilt = COALESCE(excluded.axisTilt, bodies.axisTilt)");
    }
    assert(SQL_BODY@.subrange(1911, 1913) =~= ", "@);
    assert(SQL_BODY@.subrange(1913,
        1983) =~= "volcanismType = COALESCE(excluded.volcanismType, bodies.volcanismType)"@) by {
        reveal_strlit("volcanismType = COALESCE(excluded.volcanismType, bodies.volcanismType)");
    }
    assert(SQL_BODY@.subrange(1983, 1985) =~= ", "@);
    assert(SQL_BODY@.subrange(1985,
        2058) =~= "atmosphereType = COALESCE(excluded.atmosphereType, bodies.atmosphereType)"@) by {
        reveal_strlit("atmosphereType = COALESCE(excluded.atmosphereType, bodies.atmosphereType)");
    }
    assert(SQL_BODY@.subrange(2058, 2060) =~= ", "@);
    assert(SQL_BODY@.subrange(2060,
        2142) =~= "terraformingState = COALESCE(excluded.terraformingState, bodies.terraformingState)"@) by {
        reveal_strlit("terraformingState = COALESCE(excluded.terraformingState, bodies.terraformingState)");
    }
    assert(SQL_BODY@.subrange(2142, 2144) =~= ", "@);
    assert(SQL_BODY@.subrange(2144,
        2208) =~= "stellarMass = COALESCE(excluded.stellarMass, bodies.stellarMass)"@) by {
        reveal_strlit("stellarMass = COALESCE(excluded.stellarMass, bodies.stellarMass)");
    }
    assert(SQL_BODY@.subrange(2208, 2210) =~= ", "@);
    assert(SQL_BODY@.subrange(2210,
        2292) =~= "absoluteMagnitude = COALESCE(excluded.absoluteMagnitude, bodies.absoluteMagnitude)"@) by {
        reveal_strlit("absoluteMagnitude = COALESCE(excluded.absoluteMagnitude, bodies.absoluteMagnitude)");
    }
    assert(SQL_BODY@.subrange(2292, 2294) =~= ", "@);
    assert(SQL_BODY@.subrange(2294, 2334) =~= "age = COALESCE(excluded.age, bodies.age)"@) by {
        reveal_strlit("age = COALESCE(excluded.age, bodies.age)");
    }
    assert(SQL_BODY@.subrange(2334, 2336) =~= ", "@);
    assert(SQL_BODY@.subrange(2336,
        2397) =~= "luminosity = COALESCE(excluded.luminosity, bodies.luminosity)"@) by {
        reveal_strlit("luminosity = COALESCE(excluded.luminosity, bodies.luminosity)");
    }
    assert(SQL_BODY@.subrange(2397, 2399) =~= ", "@);
}

proof fn lemma_body_update_cuts_3()
    ensures
        SQL_BODY@.subrange(2399, 2454)
            == "subclass = COALESCE(excluded.subclass, bodies.subclass)"@,
        SQL_BODY@.subrange(2454, 2456) == ", "@,
        SQL_BODY@.subrange(2456, 2532)
            == "surfacePressure = COALESCE(excluded.surfacePressure, bodies.surfacePressure)"@,
        SQL_BODY@.subrange(2532, 2534) == ", "@,
        SQL_BODY@.subrange(2534, 2628)
            == "atmosphereComposition = COALESCE(excluded.atmosphereComposition, bodies.atmosphereComposition)"@,
        SQL_BODY@.subrange(2628, 2630) == ", "@,
        SQL_BODY@.subrange(2630, 2694)
            == "composition = COALESCE(excluded.composition, bodies.composition)"@,
        SQL_BODY@.subrange(2694, 2696) == ", "@,
        SQL_BODY@.subrange(2696, 2742) == "rings = COALESCE(excluded.rings, bodies.rings)"@,
        SQL_BODY@.subrange(2742, 2744) == ", "@,
        SQL_BODY@.subrange(2744, 2796) == "parents = COALESCE(excluded.parents, bodies.parents)"@,
        SQL_BODY@.subrange(2796, 2798) == ", "@,
        SQL_BODY@.subrange(2798, 2868)
            == "wasDiscovered = COALESCE(excluded.wasDiscovered, bodies.wasDiscovered)"@,
        SQL_BODY@.subrange(2868, 2870) == ", "@,
        SQL_BODY@.subrange(2870, 2928)
            == "wasMapped = COALESCE(excluded.wasMapped, bodies.wasMapped)"@,
        SQL_BODY@.subrange(2928, 2930) == ", "@,
{
    reveal_strlit("INSERT INTO bodies (systemId64, bodyId, name, type, subType, distanceToArrival, isLandable, gravity, earthMasses, radius, surfaceTemperature, orbitalPeriod, semiMajorAxis, orbitalEccentricity, orbitalInclination, argOfPeriapsis, rotationalPeriod, isTidallyLocked, axisTilt, volcanismType, atmosphereType, terraformingState, stellarMass, absoluteMagnitude, age, luminosity, subclass, surfacePressure, atmosphereComposition, composition, rings, parents, wasDiscovered, wasMapped, ascendingNode, meanAnomaly, signals, bodyId64, mainStar, spectralClass, solarRadius, materials, reserveLevel, belts, updateTime) VALUES (?,?,?,?,?,?,?,?,?,?,?,?,?,?,?,?,?,?,?,?,?,?,?,?,?,?,?,?,?,?,?,?,?,?,?,?,?,?,?,?,?,?,?,?,?) ON CONFLICT(systemId64, bodyId) DO UPDATE SET name = COALESCE(excluded.name, bodies.name), type = COALESCE(excluded.type, bodies.type), subType = COALESCE(excluded.subType, bodies.subType), distanceToArrival = COALESCE(excluded.distanceToArrival, bodies.distanceToArrival), isLandable = COALESCE(excluded.isLandable, bodies.isLandable), gravity = COALESCE(excluded.gravity, bodies.gravity), earthMasses = COALESCE(excluded.earthMasses, bodies.earthMasses), radius = COALESCE(excluded.radius, bodies.radius), surfaceTemperature = COALESCE(excluded.surfaceTemperature, bodies.surfaceTemperature), orbitalPeriod = COALESCE(excluded.orbitalPeriod, bodies.orbitalPeriod), semiMajorAxis = COALESCE(excluded.semiMajorAxis, bodies.semiMajorAxis), orbitalEccentricity = COALESCE(excluded.orbitalEccentricity, bodies.orbitalEccentricity), orbitalInclination = COALESCE(excluded.orbitalInclination, bodies.orbitalInclination), argOfPeriapsis = COALESCE(excluded.argOfPeriapsis, bodies.argOfPeriapsis), rotationalPeriod = COALESCE(excluded.rotationalPeriod, bodies.rotationalPeriod), isTidallyLocked = COALESCE(excluded.isTidallyLocked, bodies.isTidallyLocked), axisTilt = COALESCE(excluded.axisTilt, bodies.axisTilt), volcanismType = COALESCE(excluded.volcanismType, bodies.volcanismType), atmosphereType = COALESCE(excluded.atmosphereType, bodies.atmosphereType), terraformingState = COALESCE(excluded.terraformingState, bodies.terraformingState), stellarMass = COALESCE(excluded.stellarMass, bodies.stellarMass), absoluteMagnitude = COALESCE(excluded.absoluteMagnitude, bodies.absoluteMagnitude), age = COALESCE(excluded.age, bodies.age), luminosity = COALESCE(excluded.luminosity, bodies.luminosity), subclass = COALESCE(excluded.subclass, bodies.subclass), surfacePressure = COALESCE(excluded.surfacePressure, bodies.surfacePressure), atmosphereComposition = COALESCE(excluded.atmosphereComposition, bodies.atmosphereComposition), composition = COALESCE(excluded.composition, bodies.composition), rings = COALESCE(excluded.rings, bodies.rings), parents = COALESCE(excluded.parents, bodies.parents), wasDiscovered = COALESCE(excluded.wasDiscovered, bodies.wasDiscovered), wasMapped = COALESCE(excluded.wasMapped, bodies.wasMapped), ascendingNode = COALESCE(excluded.ascendingNode, bodies.ascendingNode), meanAnomaly = COALESCE(excluded.meanAnomaly, bodies.meanAnomaly), signals = COALESCE(excluded.signals, bodies.signals), bodyId64 = COALESCE(excluded.bodyId64, bodies.bodyId64), mainStar = COALESCE(excluded.mainStar, bodies.mainStar), spectralClass = COALESCE(excluded.spectralClass, bodies.spectralClass), solarRadius = COALESCE(excluded.solarRadius, bodies.solarRadius), materials = COALESCE(excluded.materials, bodies.materials), reserveLevel = COALESCE(excluded.reserveLevel, bodies.reserveLevel), belts = COALESCE(excluded.belts, bodies.belts), updateTime = COALESCE(excluded.updateTime, bodies.updateTime)");
    reveal_strlit(", ");
    assert(SQL_BODY@.subrange(2399,
        2454) =~= "subclass = COALESCE(excluded.subclass, bodies.subclass)"@) by {
        reveal_strlit("subclass = COALESCE(excluded.subclass, bodies.subclass)");
    }
    assert(SQL_BODY@.subrange(2454, 2456) =~= ", "@);
    assert(SQL_BODY@.subrange(2456,
        2532) =~= "surfacePressure = COALESCE(excluded.surfacePressure, bodies.surfacePressure)"@) by {
        reveal_strlit("surfacePressure = COALESCE(excluded.surfacePressure, bodies.surfacePressure)");
    }
    assert(SQL_BODY@.subrange(2532, 2534) =~= ", "@);
    assert(SQL_BODY@.subrange(2534,
        2628) =~= "atmosphereComposition = COALESCE(excluded.atmosphereComposition, bodies.atmosphereComposition)"@) by {
        reveal_strlit("atmosphereComposition = COALESCE(excluded.atmosphereComposition, bodies.atmosphereComposition)");
    }
    assert(SQL_BODY@.subrange(2628, 2630) =~= ", "@);
    assert(SQL_BODY@.subrange(2630,
        2694) =~= "composition = COALESCE(excluded.composition, bodies.composition)"@) by {
        reveal_strlit("composition = COALESCE(excluded.composition, bodies.composition)");
    }
    assert(SQL_BODY@.subrange(2694, 2696) =~= ", "@);
    assert(SQL_BODY@.subrange(2696,
        2742) =~= "rings = COALESCE(excluded.rings, bodies.rings)"@) by {
        reveal_strlit("rings = COALESCE(excluded.rings, bodies.rings)");
    }
    assert(SQL_BODY@.subrange(2742, 2744) =~= ", "@);
    assert(SQL_BODY@.subrange(2744,
        2796) =~= "parents = COALESCE(excluded.parents, bodies.parents)"@) by {
        reveal_strlit("parents = COALESCE(excluded.parents, bodies.parents)");
    }
    assert(SQL_BODY@.subrange(2796, 2798) =~= ", "@);
    assert(SQL_BODY@.subrange(2798,
        2868) =~= "wasDiscovered = COALESCE(excluded.wasDiscovered, bodies.wasDiscovered)"@) by {
        reveal_strlit("wasDiscovered = COALESCE(excluded.wasDiscovered, bodies.wasDiscovered)");
    }
    assert(SQL_BODY@.subrange(2868, 2870) =~= ", "@);
    assert(SQL_BODY@.subrange(2870,
        2928) =~= "wasMapped = COALESCE(excluded.wasMapped, bodies.wasMapped)"@) by {
        reveal_strlit("wasMapped = COALESCE(excluded.wasMapped, bodies.wasMapped)");
    }
    assert(SQL_BODY@.subrange(2928, 2930) =~= ", "@);
}

proof fn lemma_body_update_cuts_4()
    ensures
        SQL_BODY@.subrange(2930, 3000)
            == "ascendingNode = COALESCE(excluded.ascendingNode, bodies.ascendingNode)"@,
        SQL_BODY@.subrange(3000, 3002) == ", "@,
        SQL_BODY@.subrange(3002, 3066)
            == "meanAnomaly = COALESCE(excluded.meanAnomaly, bodies.meanAnomaly)"@,
        SQL_BODY@.subrange(3066, 3068) == ", "@,
        SQL_BODY@.subrange(3068, 3120) == "signals = COALESCE(excluded.signals, bodies.signals)"@,
        SQL_BODY@.subrange(3120, 3122) == ", "@,
        SQL_BODY@.subrange(3122, 3177)
            == "bodyId64 = COALESCE(excluded.bodyId64, bodies.bodyId64)"@,
        SQL_BODY@.subrange(3177, 3179) == ", "@,
        SQL_BODY@.subrange(3179, 3234)
            == "mainStar = COALESCE(excluded.mainStar, bodies.mainStar)"@,
        SQL_BODY@.subrange(3234, 3236) == ", "@,
        SQL_BODY@.subrange(3236, 3306)
            == "spectralClass = COALESCE(excluded.spectralClass, bodies.spectralClass)"@,
        SQL_BODY@.subrange(3306, 3308) == ", "@,
        SQL_BODY@.subrange(3308, 3372)
            == "solarRadius = COALESCE(excluded.solarRadius, bodies.solarRadius)"@,
        SQL_BODY@.subrange(3372, 3374) == ", "@,
        SQL_BODY@.subrange(3374, 3432)
            == "materials = COALESCE(excluded.materials, bodies.materials)"@,
        SQL_BODY@.subrange(3432, 3434) == ", "@,
{
    reveal_strlit("INSERT INTO bodies (systemId64, bodyId, name, type, subType, distanceToArrival, isLandable, gravity, earthMasses, radius, surfaceTemperature, orbitalPeriod, semiMajorAxis, orbitalEccentricity, orbitalInclination, argOfPeriapsis, rotationalPeriod, isTidallyLocked, axisTilt, volcanismType, atmosphereType, terraformingState, stellarMass, absoluteMagnitude, age, luminosity, subclass, surfacePressure, atmosphereComposition, composition, rings, parents, wasDiscovered, wasMapped, ascendingNode, meanAnomaly, signals, bodyId64, mainStar, spectralClass, solarRadius, materials, reserveLevel, belts, updateTime) VALUES (?,?,?,?,?,?,?,?,?,?,?,?,?,?,?,?,?,?,?,?,?,?,?,?,?,?,?,?,?,?,?,?,?,?,?,?,?,?,?,?,?,?,?,?,?) ON CONFLICT(systemId64, bodyId) DO UPDATE SET name = COALESCE(excluded.name, bodies.name), type = COALESCE(excluded.type, bodies.type), subType = COALESCE(excluded.subType, bodies.subType), distanceToArrival = COALESCE(excluded.distanceToArrival, bodies.distanceToArrival), isLandable = COALESCE(excluded.isLandable, bodies.isLandable), gravity = COALESCE(excluded.gravity, bodies.gravity), earthMasses = COALESCE(excluded.earthMasses, bodies.earthMasses), radius = COALESCE(excluded.radius, bodies.radius), surfaceTemperature = COALESCE(excluded.surfaceTemperature, bodies.surfaceTemperature), orbitalPeriod = COALESCE(excluded.orbitalPeriod, bodies.orbitalPeriod), semiMajorAxis = COALESCE(excluded.semiMajorAxis, bodies.semiMajorAxis), orbitalEccentricity = COALESCE(excluded.orbitalEccentricity, bodies.orbitalEccentricity), orbitalInclination = COALESCE(excluded.orbitalInclination, bodies.orbitalInclination), argOfPeriapsis = COALESCE(excluded.argOfPeriapsis, bodies.argOfPeriapsis), rotationalPeriod = COALESCE(excluded.rotationalPeriod, bodies.rotationalPeriod), isTidallyLocked = COALESCE(excluded.isTidallyLocked, bodies.isTidallyLocked), axisTilt = COALESCE(excluded.axisTilt, bodies.axisTilt), volcanismType = COALESCE(excluded.volcanismType, bodies.volcanismType), atmosphereType = COALESCE(excluded.atmosphereType, bodies.atmosphereType), terraformingState = COALESCE(excluded.terraformingState, bodies.terraformingState), stellarMass = COALESCE(excluded.stellarMass, bodies.stellarMass), absoluteMagnitude = COALESCE(excluded.absoluteMagnitude, bodies.absoluteMagnitude), age = COALESCE(excluded.age, bodies.age), luminosity = COALESCE(excluded.luminosity, bodies.luminosity), subclass = COALESCE(excluded.subclass, bodies.subclass), surfacePressure = COALESCE(excluded.surfacePressure, bodies.surfacePressure), atmosphereComposition = COALESCE(excluded.atmosphereComposition, bodies.atmosphereComposition), composition = COALESCE(excluded.composition, bodies.composition), rings = COALESCE(excluded.rings, bodies.rings), parents = COALESCE(excluded.parents, bodies.parents), wasDiscovered = COALESCE(excluded.wasDiscovered, bodies.wasDiscovered), wasMapped = COALESCE(excluded.wasMapped, bodies.wasMapped), ascendingNode = COALESCE(excluded.ascendingNode, bodies.ascendingNode), meanAnomaly = COALESCE(excluded.meanAnomaly, bodies.meanAnomaly), signals = COALESCE(excluded.signals, bodies.signals), bodyId64 = COALESCE(excluded.bodyId64, bodies.bodyId64), mainStar = COALESCE(excluded.mainStar, bodies.mainStar), spectralClass = COALESCE(excluded.spectralClass, bodies.spectralClass), solarRadius = COALESCE(excluded.solarRadius, bodies.solarRadius), materials = COALESCE(excluded.materials, bodies.materials), reserveLevel = COALESCE(excluded.reserveLevel, bodies.reserveLevel), belts = COALESCE(excluded.belts, bodies.belts), updateTime = COALESCE(excluded.updateTime, bodies.updateTime)");
    reveal_strlit(", ");
    assert(SQL_BODY@.subrange(2930,
        3000) =~= "ascendingNode = COALESCE(excluded.ascendingNode, bodies.ascendingNode)"@) by {
        reveal_strlit("ascendingNode = COALESCE(excluded.ascendingNode, bodies.ascendingNode)");
    }
    assert(SQL_BODY@.subrange(3000, 3002) =~= ", "@);
    assert(SQL_BODY@.subrange(3002,
        3066) =~= "meanAnomaly = COALESCE(excluded.meanAnomaly, bodies.meanAnomaly)"@) by {
        reveal_strlit("meanAnomaly = COALESCE(excluded.meanAnomaly, bodies.meanAnomaly)");
    }
    assert(SQL_BODY@.subrange(3066, 3068) =~= ", "@);
    assert(SQL_BODY@.subrange(3068,
        3120) =~= "signals = COALESCE(excluded.signals, bodies.signals)"@) by {
        reveal_strlit("signals = COALESCE(excluded.signals, bodies.signals)");
    }
    assert(SQL_BODY@.subrange(3120, 3122) =~= ", "@);
    assert(SQL_BODY@.subrange(3122,
        3177) =~= "bodyId64 = COALESCE(excluded.bodyId64, bodies.bodyId64)"@) by {
        reveal_strlit("bodyId64 = COALESCE(excluded.bodyId64, bodies.bodyId64)");
    }
    assert(SQL_BODY@.subrange(3177, 3179) =~= ", "@);
    assert(SQL_BODY@.subrange(3179,
        3234) =~= "mainStar = COALESCE(excluded.mainStar, bodies.mainStar)"@) by {
        reveal_strlit("mainStar = COALESCE(excluded.mainStar, bodies.mainStar)");
    }
    assert(SQL_BODY@.subrange(3234, 3236) =~= ", "@);
    assert(SQL_BODY@.subrange(3236,
        3306) =~= "spectralClass = COALESCE(excluded.spectralClass, bodies.spectralClass)"@) by {
        reveal_strlit("spectralClass = COALESCE(excluded.spectralClass, bodies.spectralClass)");
    }
    assert(SQL_BODY@.subrange(3306, 3308) =~= ", "@);
    assert(SQL_BODY@.subrange(3308,
        3372) =~= "solarRadius = COALESCE(excluded.solarRadius, bodies.solarRadius)"@) by {
        reveal_strlit("solarRadius = COALESCE(excluded.solarRadius, bodies.solarRadius)");
    }
    assert(SQL_BODY@.subrange(3372, 3374) =~= ", "@);
    assert(SQL_BODY@.subrange(3374,
        3432) =~= "materials = COALESCE(excluded.materials, bodies.materials)"@) by {
        reveal_strlit("materials = COALESCE(excluded.materials, bodies.materials)");
    }
    assert(SQL_BODY@.subrange(3432, 3434) =~= ", "@);
}

proof fn lemma_body_update_cuts_5()
    ensures
        SQL_BODY@.subrange(3434, 3501)
            == "reserveLevel = COALESCE(excluded.reserveLevel, bodies.reserveLevel)"@,
        SQL_BODY@.subrange(3501, 3503) == ", "@,
        SQL_BODY@.subrange(3503, 3549) == "belts = COALESCE(excluded.belts, bodies.belts)"@,
        SQL_BODY@.subrange(3549, 3551) == ", "@,
        SQL_BODY@.subrange(3551, 3612)
            == "updateTime = COALESCE(excluded.updateTime, bodies.updateTime)"@,
{
    reveal_strlit("INSERT INTO bodies (systemId64, bodyId, name, type, subType, distanceToArrival, isLandable, gravity, earthMasses, radius, surfaceTemperature, orbitalPeriod, semiMajorAxis, orbitalEccentricity, orbitalInclination, argOfPeriapsis, rotationalPeriod, isTidallyLocked, axisTilt, volcanismType, atmosphereType, terraformingState, stellarMass, absoluteMagnitude, age, luminosity, subclass, surfacePressure, atmosphereComposition, composition, rings, parents, wasDiscovered, wasMapped, ascendingNode, meanAnomaly, signals, bodyId64, mainStar, spectralClass, solarRadius, materials, reserveLevel, belts, updateTime) VALUES (?,?,?,?,?,?,?,?,?,?,?,?,?,?,?,?,?,?,?,?,?,?,?,?,?,?,?,?,?,?,?,?,?,?,?,?,?,?,?,?,?,?,?,?,?) ON CONFLICT(systemId64, bodyId) DO UPDATE SET name = COALESCE(excluded.name, bodies.name), type = COALESCE(excluded.type, bodies.type), subType = COALESCE(excluded.subType, bodies.subType), distanceToArrival = COALESCE(excluded.distanceToArrival, bodies.distanceToArrival), isLandable = COALESCE(excluded.isLandable, bodies.isLandable), gravity = COALESCE(excluded.gravity, bodies.gravity), earthMasses = COALESCE(excluded.earthMasses, bodies.earthMasses), radius = COALESCE(excluded.radius, bodies.radius), surfaceTemperature = COALESCE(excluded.surfaceTemperature, bodies.surfaceTemperature), orbitalPeriod = COALESCE(excluded.orbitalPeriod, bodies.orbitalPeriod), semiMajorAxis = COALESCE(excluded.semiMajorAxis, bodies.semiMajorAxis), orbitalEccentricity = COALESCE(excluded.orbitalEccentricity, bodies.orbitalEccentricity), orbitalInclination = COALESCE(excluded.orbitalInclination, bodies.orbitalInclination), argOfPeriapsis = COALESCE(excluded.argOfPeriapsis, bodies.argOfPeriapsis), rotationalPeriod = COALESCE(excluded.rotationalPeriod, bodies.rotationalPeriod), isTidallyLocked = COALESCE(excluded.isTidallyLocked, bodies.isTidallyLocked), axisTilt = COALESCE(excluded.axisTilt, bodies.axisTilt), volcanismType = COALESCE(excluded.volcanismType, bodies.volcanismType), atmosphereType = COALESCE(excluded.atmosphereType, bodies.atmosphereType), terraformingState = COALESCE(excluded.terraformingState, bodies.terraformingState), stellarMass = COALESCE(excluded.stellarMass, bodies.stellarMass), absoluteMagnitude = COALESCE(excluded.absoluteMagnitude, bodies.absoluteMagnitude), age = COALESCE(excluded.age, bodies.age), luminosity = COALESCE(excluded.luminosity, bodies.luminosity), subclass = COALESCE(excluded.subclass, bodies.subclass), surfacePressure = COALESCE(excluded.surfacePressure, bodies.surfacePressure), atmosphereComposition = COALESCE(excluded.atmosphereComposition, bodies.atmosphereComposition), composition = COALESCE(excluded.composition, bodies.composition), rings = COALESCE(excluded.rings, bodies.rings), parents = COALESCE(excluded.parents, bodies.parents), wasDiscovered = COALESCE(excluded.wasDiscovered, bodies.wasDiscovered), wasMapped = COALESCE(excluded.wasMapped, bodies.wasMapped), ascendingNode = COALESCE(excluded.ascendingNode, bodies.ascendingNode), meanAnomaly = COALESCE(excluded.meanAnomaly, bodies.meanAnomaly), signals = COALESCE(excluded.signals, bodies.signals), bodyId64 = COALESCE(excluded.bodyId64, bodies.bodyId64), mainStar = COALESCE(excluded.mainStar, bodies.mainStar), spectralClass = COALESCE(excluded.spectralClass, bodies.spectralClass), solarRadius = COALESCE(excluded.solarRadius, bodies.solarRadius), materials = COALESCE(excluded.materials, bodies.materials), reserveLevel = COALESCE(excluded.reserveLevel, bodies.reserveLevel), belts = COALESCE(excluded.belts, bodies.belts), updateTime = COALESCE(excluded.updateTime, bodies.updateTime)");
    reveal_strlit(", ");
    assert(SQL_BODY@.subrange(3434,
        3501) =~= "reserveLevel = COALESCE(excluded.reserveLevel, bodies.reserveLevel)"@) by {
        reveal_strlit("reserveLevel = COALESCE(excluded.reserveLevel, bodies.reserveLevel)");
    }
    assert(SQL_BODY@.subrange(3501, 3503) =~= ", "@);
    assert(SQL_BODY@.subrange(3503,
        3549) =~= "belts = COALESCE(excluded.belts, bodies.belts)"@) by {
        reveal_strlit("belts = COALESCE(excluded.belts, bodies.belts)");
    }
    assert(SQL_BODY@.subrange(3549, 3551) =~= ", "@);
    assert(SQL_BODY@.subrange(3551,
        3612) =~= "updateTime = COALESCE(excluded.updateTime, bodies.updateTime)"@) by {
        reveal_strlit("updateTime = COALESCE(excluded.updateTime, bodies.updateTime)");
    }
}

proof fn lemma_body_update_list_0()
    requires
        SQL_BODY@.len() == 3612,
    ensures
        listed(update_texts("bodies"@, body_updates()), 8) == SQL_BODY@.subrange(752, 1212),
{
    let us = body_updates();
    let t = update_texts("bodies"@, us);
    let s = SQL_BODY@;
    lemma_body_update_texts_0();
    lemma_body_update_cuts_0();
    assert(t[0] == update_text("bodies"@, us[0]));
    assert(t[0] == "name = COALESCE(excluded.name, bodies.name)"@);
    assert(listed(t, 1) == s.subrange(752, 795));
    assert(t[1] == update_text("bodies"@, us[1]));
    assert(t[1] == "type = COALESCE(excluded.type, bodies.type)"@);
    text::lemma_cuts_join(s, 752, 795, 797);
    text::lemma_cuts_join(s, 752, 797, 840);
    assert(listed(t, 2) == s.subrange(752, 840));
    assert(t[2] == update_text("bodies"@, us[2]));
    assert(t[2] == "subType = COALESCE(excluded.subType, bodies.subType)"@);
    text::lemma_cuts_join(s, 752, 840, 842);
    text::lemma_cuts_join(s, 752, 842, 894);
    assert(listed(t, 3) == s.subrange(752, 894));
    assert(t[3] == update_text("bodies"@, us[3]));
    assert(t[3]
        == "distanceToArrival = COALESCE(excluded.distanceToArrival, bodies.distanceToArrival)"@);
    text::lemma_cuts_join(s, 752, 894, 896);
    text::lemma_cuts_join(s, 752, 896, 978);
    assert(listed(t, 4) == s.subrange(752, 978));
    assert(t[4] == update_text("bodies"@, us[4]));
    assert(t[4] == "isLandable = COALESCE(excluded.isLandable, bodies.isLandable)"@);
    text::lemma_cuts_join(s, 752, 978, 980);
    text::lemma_cuts_join(s, 752, 980, 1041);
    assert(listed(t, 5) == s.subrange(752, 1041));
    assert(t[5] == update_text("bodies"@, us[5]));
    assert(t[5] == "gravity = COALESCE(excluded.gravity, bodies.gravity)"@);
    text::lemma_cuts_join(s, 752, 1041, 1043);
    text::lemma_cuts_join(s, 752, 1043, 1095);
    assert(listed(t, 6) == s.subrange(752, 1095));
    assert(t[6] == update_text("bodies"@, us[6]));
    assert(t[6] == "earthMasses = COALESCE(excluded.earthMasses, bodies.earthMasses)"@);
    text::lemma_cuts_join(s, 752, 1095, 1097);
    text::lemma_cuts_join(s, 752, 1097, 1161);
    assert(listed(t, 7) == s.subrange(752, 1161));
    assert(t[7] == update_text("bodies"@, us[7]));
    assert(t[7] == "radius = COALESCE(excluded.radius, bodies.radius)"@);
    text::lemma_cuts_join(s, 752, 1161, 1163);
    text::lemma_cuts_join(s, 752, 1163, 1212);
    assert(listed(t, 8) == s.subrange(752, 1212));
}

proof fn lemma_body_update_list_1()
    requires
        SQL_BODY@.len() == 3612,
        listed(update_texts("bodies"@, body_updates()), 8) == SQL_BODY@.subrange(752, 1212),
    ensures
        listed(update_texts("bodies"@, body_updates()), 16) == SQL_BODY@.subrange(752, 1854),
{
    let us = body_updates();
    let t = update_texts("bodies"@, us);
    let s = SQL_BODY@;
    lemma_body_update_texts_1();
    lemma_body_update_cuts_1();
    lemma_body_update_cuts_0();
    assert(t[8] == update_text("bodies"@, us[8]));
    assert(t[8]
        == "surfaceTemperature = COALESCE(excluded.surfaceTemperature, bodies.surfaceTemperature)"@);
    text::lemma_cuts_join(s, 752, 1212, 1214);
    text::lemma_cuts_join(s, 752, 1214, 1299);
    assert(listed(t, 9) == s.subrange(752, 1299));
    assert(t[9] == update_text("bodies"@, us[9]));
    assert(t[9] == "orbitalPeriod = COALESCE(excluded.orbitalPeriod, bodies.orbitalPeriod)"@);
    text::lemma_cuts_join(s, 752, 1299, 1301);
    text::lemma_cuts_join(s, 752, 1301, 1371);
    assert(listed(t, 10) == s.subrange(752, 1371));
    assert(t[10] == update_text("bodies"@, us[10]));
    assert(t[10] == "semiMajorAxis = COALESCE(excluded.semiMajorAxis, bodies.semiMajorAxis)"@);
    text::lemma_cuts_join(s, 752, 1371, 1373);
    text::lemma_cuts_join(s, 752, 1373, 1443);
    assert(listed(t, 11) == s.subrange(752, 1443));
    assert(t[11] == update_text("bodies"@, us[11]));
    assert(t[11]
        == "orbitalEccentricity = COALESCE(excluded.orbitalEccentricity, bodies.orbitalEccentricity)"@);
    text::lemma_cuts_join(s, 752, 1443, 1445);
    text::lemma_cuts_join(s, 752, 1445, 1533);
    assert(listed(t, 12) == s.subrange(752, 1533));
    assert(t[12] == update_text("bodies"@, us[12]));
    assert(t[12]
        == "orbitalInclination = COALESCE(excluded.orbitalInclination, bodies.orbitalInclination)"@);
    text::lemma_cuts_join(s, 752, 1533, 1535);
    text::lemma_cuts_join(s, 752, 1535, 1620);
    assert(listed(t, 13) == s.subrange(752, 1620));
    assert(t[13] == update_text("bodies"@, us[13]));
    assert(t[13] == "argOfPeriapsis = COALESCE(excluded.argOfPeriapsis, bodies.argOfPeriapsis)"@);
    text::lemma_cuts_join(s, 752, 1620, 1622);
    text::lemma_cuts_join(s, 752, 1622, 1695);
    assert(listed(t, 14) == s.subrange(752, 1695));
    assert(t[14] == update_text("bodies"@, us[14]));
    assert(t[14]
        == "rotationalPeriod = COALESCE(excluded.rotationalPeriod, bodies.rotationalPeriod)"@);
    text::lemma_cuts_join(s, 752, 1695, 1697);
    text::lemma_cuts_join(s, 752, 1697, 1776);
    assert(listed(t, 15) == s.subrange(752, 1776));
    assert(t[15] == update_text("bodies"@, us[15]));
    assert(t[15]
        == "isTidallyLocked = COALESCE(excluded.isTidallyLocked, bodies.isTidallyLocked)"@);
    text::lemma_cuts_join(s, 752, 1776, 1778);
    text::lemma_cuts_join(s, 752, 1778, 1854);
    assert(listed(t, 16) == s.subrange(752, 1854));
}

proof fn lemma_body_update_list_2()
    requires
        SQL_BODY@.len() == 3612,
        listed(update_texts("bodies"@, body_updates()), 16) == SQL_BODY@.subrange(752, 1854),
    ensures
        listed(update_texts("bodies"@, body_updates()), 24) == SQL_BODY@.subrange(752, 2397),
{
    let us = body_updates();
    let t = update_texts("bodies"@, us);
    let s = SQL_BODY@;
    lemma_body_update_texts_2();
    lemma_body_update_cuts_2();
    lemma_body_update_cuts_1();
    assert(t[16] == update_text("bodies"@, us[16]));
    assert(t[16] == "axisTilt = COALESCE(excluded.axisTilt, bodies.axisTilt)"@);
    text::lemma_cuts_join(s, 752, 1854, 1856);
    text::lemma_cuts_join(s, 752, 1856, 1911);
    assert(listed(t, 17) == s.subrange(752, 1911));
    assert(t[17] == update_text("bodies"@, us[17]));
    assert(t[17] == "volcanismType = COALESCE(excluded.volcanismType, bodies.volcanismType)"@);
    text::lemma_cuts_join(s, 752, 1911, 1913);
    text::lemma_cuts_join(s, 752, 1913, 1983);
    assert(listed(t, 18) == s.subrange(752, 1983));
    assert(t[18] == update_text("bodies"@, us[18]));
    assert(t[18] == "atmosphereType = COALESCE(excluded.atmosphereType, bodies.atmosphereType)"@);
    text::lemma_cuts_join(s, 752, 1983, 1985);
    text::lemma_cuts_join(s, 752, 1985, 2058);
    assert(listed(t, 19) == s.subrange(752, 2058));
    assert(t[19] == update_text("bodies"@, us[19]));
    assert(t[19]
        == "terraformingState = COALESCE(excluded.terraformingState, bodies.terraformingState)"@);
    text::lemma_cuts_join(s, 752, 2058, 2060);
    text::lemma_cuts_join(s, 752, 2060, 2142);
    assert(listed(t, 20) == s.subrange(752, 2142));
    assert(t[20] == update_text("bodies"@, us[20]));
    assert(t[20] == "stellarMass = COALESCE(excluded.stellarMass, bodies.stellarMass)"@);
    text::lemma_cuts_join(s, 752, 2142, 2144);
    text::lemma_cuts_join(s, 752, 2144, 2208);
    assert(listed(t, 21) == s.subrange(752, 2208));
    assert(t[21] == update_text("bodies"@, us[21]));
    assert(t[21]
        == "absoluteMagnitude = COALESCE(excluded.absoluteMagnitude, bodies.absoluteMagnitude)"@);
    text::lemma_cuts_join(s, 752, 2208, 2210);
    text::lemma_cuts_join(s, 752, 2210, 2292);
    assert(listed(t, 22) == s.subrange(752, 2292));
    assert(t[22] == update_text("bodies"@, us[22]));
    assert(t[22] == "age = COALESCE(excluded.age, bodies.age)"@);
    text::lemma_cuts_join(s, 752, 2292, 2294);
    text::lemma_cuts_join(s, 752, 2294, 2334);
    assert(listed(t, 23) == s.subrange(752, 2334));
    assert(t[23] == update_text("bodies"@, us[23]));
    assert(t[23] == "luminosity = COALESCE(excluded.luminosity, bodies.luminosity)"@);
    text::lemma_cuts_join(s, 752, 2334, 2336);
    text::lemma_cuts_join(s, 752, 2336, 2397);
    assert(listed(t, 24) == s.subrange(752, 2397));
}

proof fn lemma_body_update_list_3()
    requires
        SQL_BODY@.len() == 3612,
        listed(update_texts("bodies"@, body_updates()), 24) == SQL_BODY@.subrange(752, 2397),
    ensures
        listed(update_texts("bodies"@, body_updates()), 32) == SQL_BODY@.subrange(752, 2928),
{
    let us = body_updates();
    let t = update_texts("bodies"@, us);
    let s = SQL_BODY@;
    lemma_body_update_texts_3();
    lemma_body_update_cuts_3();
    lemma_body_update_cuts_2();
    assert(t[24] == update_text("bodies"@, us[24]));
    assert(t[24] == "subclass = COALESCE(excluded.subclass, bodies.subclass)"@);
    text::lemma_cuts_join(s, 752, 2397, 2399);
    text::lemma_cuts_join(s, 752, 2399, 2454);
    assert(listed(t, 25) == s.subrange(752, 2454));
    assert(t[25] == update_text("bodies"@, us[25]));
    assert(t[25]
        == "surfacePressure = COALESCE(excluded.surfacePressure, bodies.surfacePressure)"@);
    text::lemma_cuts_join(s, 752, 2454, 2456);
    text::lemma_cuts_join(s, 752, 2456, 2532);
    assert(listed(t, 26) == s.subrange(752, 2532));
    assert(t[26] == update_text("bodies"@, us[26]));
    assert(t[26]
        == "atmosphereComposition = COALESCE(excluded.atmosphereComposition, bodies.atmosphereComposition)"@);
    text::lemma_cuts_join(s, 752, 2532, 2534);
    text::lemma_cuts_join(s, 752, 2534, 2628);
    assert(listed(t, 27) == s.subrange(752, 2628));
    assert(t[27] == update_text("bodies"@, us[27]));
    assert(t[27] == "composition = COALESCE(excluded.composition, bodies.composition)"@);
    text::lemma_cuts_join(s, 752, 2628, 2630);
    text::lemma_cuts_join(s, 752, 2630, 2694);
    assert(listed(t, 28) == s.subrange(752, 2694));
    assert(t[28] == update_text("bodies"@, us[28]));
    assert(t[28] == "rings = COALESCE(excluded.rings, bodies.rings)"@);
    text::lemma_cuts_join(s, 752, 2694, 2696);
    text::lemma_cuts_join(s, 752, 2696, 2742);
    assert(listed(t, 29) == s.subrange(752, 2742));
    assert(t[29] == update_text("bodies"@, us[29]));
    assert(t[29] == "parents = COALESCE(excluded.parents, bodies.parents)"@);
    text::lemma_cuts_join(s, 752, 2742, 2744);
    text::lemma_cuts_join(s, 752, 2744, 2796);
    assert(listed(t, 30) == s.subrange(752, 2796));
    assert(t[30] == update_text("bodies"@, us[30]));
    assert(t[30] == "wasDiscovered = COALESCE(excluded.wasDiscovered, bodies.wasDiscovered)"@);
    text::lemma_cuts_join(s, 752, 2796, 2798);
    text::lemma_cuts_join(s, 752, 2798, 2868);
    assert(listed(t, 31) == s.subrange(752, 2868));
    assert(t[31] == update_text("bodies"@, us[31]));
    assert(t[31] == "wasMapped = COALESCE(excluded.wasMapped, bodies.wasMapped)"@);
    text::lemma_cuts_join(s, 752, 2868, 2870);
    text::lemma_cuts_join(s, 752, 2870, 2928);
    assert(listed(t, 32) == s.subrange(752, 2928));
}

proof fn lemma_body_update_list_4()
    requires
        SQL_BODY@.len() == 3612,
        listed(update_texts("bodies"@, body_updates()), 32) == SQL_BODY@.subrange(752, 2928),
    ensures
        listed(update_texts("bodies"@, body_updates()), 40) == SQL_BODY@.subrange(752, 3432),
{
    let us = body_updates();
    let t = update_texts("bodies"@, us);
    let s = SQL_BODY@;
    lemma_body_update_texts_4();
    lemma_body_update_cuts_4();
    lemma_body_update_cuts_3();
    assert(t[32] == update_text("bodies"@, us[32]));
    assert(t[32] == "ascendingNode = COALESCE(excluded.ascendingNode, bodies.ascendingNode)"@);
    text::lemma_cuts_join(s, 752, 2928, 2930);
    text::lemma_cuts_join(s, 752, 2930, 3000);
    assert(listed(t, 33) == s.subrange(752, 3000));
    assert(t[33] == update_text("bodies"@, us[33]));
    assert(t[33] == "meanAnomaly = COALESCE(excluded.meanAnomaly, bodies.meanAnomaly)"@);
    text::lemma_cuts_join(s, 752, 3000, 3002);
    text::lemma_cuts_join(s, 752, 3002, 3066);
    assert(listed(t, 34) == s.subrange(752, 3066));
    assert(t[34] == update_text("bodies"@, us[34]));
    assert(t[34] == "signals = COALESCE(excluded.signals, bodies.signals)"@);
    text::lemma_cuts_join(s, 752, 3066, 3068);
    text::lemma_cuts_join(s, 752, 3068, 3120);
    assert(listed(t, 35) == s.subrange(752, 3120));
    assert(t[35] == update_text("bodies"@, us[35]));
    assert(t[35] == "bodyId64 = COALESCE(excluded.bodyId64, bodies.bodyId64)"@);
    text::lemma_cuts_join(s, 752, 3120, 3122);
    text::lemma_cuts_join(s, 752, 3122, 3177);
    assert(listed(t, 36) == s.subrange(752, 3177));
    assert(t[36] == update_text("bodies"@, us[36]));
    assert(t[36] == "mainStar = COALESCE(excluded.mainStar, bodies.mainStar)"@);
    text::lemma_cuts_join(s, 752, 3177, 3179);
    text::lemma_cuts_join(s, 752, 3179, 3234);
    assert(listed(t, 37) == s.subrange(752, 3234));
    assert(t[37] == update_text("bodies"@, us[37]));
    assert(t[37] == "spectralClass = COALESCE(excluded.spectralClass, bodies.spectralClass)"@);
    text::lemma_cuts_join(s, 752, 3234, 3236);
    text::lemma_cuts_join(s, 752, 3236, 3306);
    assert(listed(t, 38) == s.subrange(752, 3306));
    assert(t[38] == update_text("bodies"@, us[38]));
    assert(t[38] == "solarRadius = COALESCE(excluded.solarRadius, bodies.solarRadius)"@);
    text::lemma_cuts_join(s, 752, 3306, 3308);
    text::lemma_cuts_join(s, 752, 3308, 3372);
    assert(listed(t, 39) == s.subrange(752, 3372));
    assert(t[39] == update_text("bodies"@, us[39]));
    assert(t[39] == "materials = COALESCE(excluded.materials, bodies.materials)"@);
    text::lemma_cuts_join(s, 752, 3372, 3374);
    text::lemma_cuts_join(s, 752, 3374, 3432);
    assert(listed(t, 40) == s.subrange(752, 3432));
}

proof fn lemma_body_update_list_5()
    requires
        SQL_BODY@.len() == 3612,
        listed(update_texts("bodies"@, body_updates()), 40) == SQL_BODY@.subrange(752, 3432),
    ensures
        listed(update_texts("bodies"@, body_updates()), 43) == SQL_BODY@.subrange(752, 3612),
{
    let us = body_updates();
    let t = update_texts("bodies"@, us);
    let s = SQL_BODY@;
    lemma_body_update_texts_5();
    lemma_body_update_cuts_5();
    lemma_body_update_cuts_4();
    assert(t[40] == update_text("bodies"@, us[40]));
    assert(t[40] == "reserveLevel = COALESCE(excluded.reserveLevel, bodies.reserveLevel)"@);
    text::lemma_cuts_join(s, 752, 3432, 3434);
    text::lemma_cuts_join(s, 752, 3434, 3501);
    assert(listed(t, 41) == s.subrange(752, 3501));
    assert(t[41] == update_text("bodies"@, us[41]));
    assert(t[41] == "belts = COALESCE(excluded.belts, bodies.belts)"@);
    text::lemma_cuts_join(s, 752, 3501, 3503);
    text::lemma_cuts_join(s, 752, 3503, 3549);
    assert(listed(t, 42) == s.subrange(752, 3549));
    assert(t[42] == update_text("bodies"@, us[42]));
    assert(t[42] == "updateTime = COALESCE(excluded.updateTime, bodies.updateTime)"@);
    text::lemma_cuts_join(s, 752, 3549, 3551);
    text::lemma_cuts_join(s, 752, 3551, 3612);
    assert(listed(t, 43) == s.subrange(752, 3612));
}

/// A body that is known is brought up to date column by column.
pub proof fn law_bodies_are_brought_up_to_date()
    ensures
        SQL_BODY@.skip(615)
            == "?,?,?,?,?,?,?,?,?,?,?,?,?,?,?,?,?,?,?,?,?,?,?,?,?,?,?,?,?,?,?,?,?,?,?,?,?,?,?,?,?,?,?,?,?) ON CONFLICT(systemId64, bodyId) DO UPDATE SET "@
            + listed(
            update_texts("bodies"@, body_updates()),
            43,
        ),
{
    lemma_body_update_head();
    lemma_body_update_list_0();
    lemma_body_update_list_1();
    lemma_body_update_list_2();
    lemma_body_update_list_3();
    lemma_body_update_list_4();
    lemma_body_update_list_5();
    let s = SQL_BODY@;
    text::lemma_cuts_join(s, 615, 752, 3612);
    assert(s.skip(615) =~= s.subrange(615, 3612));
}

/// A temperature that is an integer is kept as it is, and another is rounded;
/// a truth value is kept as 1 or 0, and as null where there is none; of two
/// names under which a value may stand the first goes before the second.
pub proof fn law_body_values_are_read(b: JsonView, i: i64, n: Num, t: bool, f: Seq<char>,
    g: Seq<char>)
    ensures
        json::field(b, "surfaceTemperature"@) == Some(JsonView::Num(Num::Int(i))) ==> temperature(b)
            == ParamView::Int(i),
        json::field(b, "surfaceTemperature"@) == Some(JsonView::Num(n)) && !(n is Int)
            ==> temperature(b) == ParamView::Rounded(n),
        json::field(b, "surfaceTemperature"@) is None ==> temperature(b) == ParamView::Null,
        yes_no(Some(JsonView::Bool(true))) == ParamView::Int(1),
        yes_no(Some(JsonView::Bool(false))) == ParamView::Int(0),
        yes_no(None) == ParamView::Null,
        known_flag(Some(JsonView::Num(Num::Int(i)))) == Some(i),
        known_flag(Some(JsonView::Bool(t))) == Some(
            if t {
                1i64
            } else {
                0
            },
        ),
        known_flag(None) is None,
        flag(Some(JsonView::Bool(true))) == Some(1i32),
        flag(Some(JsonView::Bool(false))) == Some(0i32),
        flag(None) is None,
        json::field(b, f) is Some ==> either_field(b, f, g) == json::field(b, f),
        json::field(b, f) is None ==> either_field(b, f, g) == json::field(b, g),
        json::field(b, f) == Some(JsonView::Num(n)) ==> either_num(b, f, g) == Some(n),
        json::field(b, f) is None && json::field(b, g) == Some(JsonView::Num(n)) ==> either_num(
            b,
            f,
            g,
        ) == Some(n),
{
}

} // verus!
