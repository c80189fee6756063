//! The stream of journal messages of other commanders: frames are unpacked,
//! events become systems, and systems go out in batches.

use crate::config::{
    EDDN_FLUSH_BATCH_SIZE, EDDN_FLUSH_INTERVAL_MS, EDDN_RECONNECT_BASE_MS, EDDN_RECONNECT_MAX_MS,
    EDDN_RECV_TIMEOUT_MS,
};
use crate::json;
use crate::json::{integer, string, Json, JsonView, Num, Object, Unit};
use crate::models::{SpanshCoords, SpanshSystem, SystemView};
use crate::state::EddnStats;
use crate::text;
use crate::text::{chars_of, same, starts_with, text_of};
use vstd::prelude::*;

verus! {

/// `s` without the characters `c` at its start.
pub open spec fn trim_start(s: Seq<char>, c: char) -> Seq<char>
    decreases s.len(),
{
    if s.len() > 0 && s[0] == c {
        trim_start(s.skip(1), c)
    } else {
        s
    }
}

/// `s` without the characters `c` at its end.
pub open spec fn trim_end(s: Seq<char>, c: char) -> Seq<char>
    decreases s.len(),
{
    if s.len() > 0 && s.last() == c {
        trim_end(s.drop_last(), c)
    } else {
        s
    }
}

/// What follows the first `c` in `s`; `s` itself where there is none.
pub open spec fn after_first(s: Seq<char>, c: char) -> Seq<char> {
    if s.contains(c) {
        s.skip(s.index_of_first(c)->0 + 1)
    } else {
        s
    }
}

/// The readable part of a token such as `$government_Democracy;`.
pub open spec fn stripped(s: Seq<char>) -> Seq<char> {
    after_first(trim_end(trim_start(s, '$'), ';'), '_')
}

/// The readable part of a token: no `$` at its start, no `;` at its end, and
/// nothing up to the first underscore.
pub fn strip_dollar_token(s: &str) -> (r: String)
    ensures
        r@ == stripped(s@),
{
    let v = chars_of(s);
    let mut from: usize = 0;
    assert(s@.skip(0) =~= s@);
    while from < v.len() && v[from] == '$'
        invariant
            v@ == s@,
            from <= v.len(),
            trim_start(s@.skip(from as int), '$') == trim_start(s@, '$'),
        decreases v.len() - from,
    {
        assert(s@.skip(from as int).skip(1) =~= s@.skip(from + 1));
        from = from + 1;
    }
    let ghost a = trim_start(s@, '$');
    assert(a == s@.skip(from as int));
    let mut to: usize = v.len();
    assert(s@.subrange(from as int, to as int) =~= a);
    while to > from && v[to - 1] == ';'
        invariant
            v@ == s@,
            from <= to <= v.len(),
            trim_end(s@.subrange(from as int, to as int), ';') == trim_end(a, ';'),
        decreases to,
    {
        assert(s@.subrange(from as int, to as int).drop_last() =~= s@.subrange(
            from as int,
            to - 1,
        ));
        to = to - 1;
    }
    let ghost b = trim_end(a, ';');
    assert(b == s@.subrange(from as int, to as int));
    let mut at: usize = from;
    while at < to
        invariant
            v@ == s@,
            from <= at <= to <= v.len(),
            b == s@.subrange(from as int, to as int),
            b == trim_end(trim_start(s@, '$'), ';'),
            forall|k: int| from <= k < at ==> v@[k] != '_',
        decreases to - at,
    {
        if v[at] == '_' {
            proof {
                let k = at - from;
                assert(b[k] == '_');
                assert forall|j: int| 0 <= j < k implies b[j] != '_' by {
                    assert(b[j] == v@[from + j]);
                }
                b.index_of_first_ensures('_');
                assert(b.index_of_first('_') == Some(k));
                assert(b.skip(k + 1) =~= v@.subrange(at + 1, to as int));
            }
            return text_of(&v, at + 1, to);
        }
        at = at + 1;
    }
    proof {
        if b.contains('_') {
            let j = choose|j: int| 0 <= j < b.len() && b[j] == '_';
            assert(v@[from + j] == '_');
        }
    }
    text_of(&v, from, to)
}

/// The localised text of a message, or else the readable part of the raw one.
pub open spec fn localised(msg: JsonView, raw: Seq<char>, loc: Seq<char>) -> Option<Seq<char>> {
    match json::str_in(json::field(msg, loc)) {
        Some(t) => Some(t),
        None => match json::str_in(json::field(msg, raw)) {
            Some(t) => Some(stripped(t)),
            None => None,
        },
    }
}

/// The localised text of a message, or else the readable part of the raw one.
pub fn loc_str(msg: &Json, raw_key: &str, loc_key: &str) -> (r: Option<String>)
    ensures
        json::text_view(r) == localised(msg@, raw_key@, loc_key@),
{
    match member_str(msg, loc_key) {
        Some(t) => Some(t.to_owned()),
        None => match member_str(msg, raw_key) {
            Some(t) => Some(strip_dollar_token(t)),
            None => None,
        },
    }
}

/// The text of a member.
fn member_str<'a>(v: &'a Json, key: &str) -> (r: Option<&'a str>)
    ensures
        json::slice_view(r) == json::str_in(json::field(v@, key@)),
{
    match v.get(key) {
        Some(x) => x.as_str(),
        None => None,
    }
}

/// The text of a member.
fn member_string(v: &Json, key: &str) -> (r: Option<String>)
    ensures
        json::text_view(r) == json::str_in(json::field(v@, key@)),
{
    match member_str(v, key) {
        Some(s) => Some(s.to_owned()),
        None => None,
    }
}

/// The integer of a member.
fn member_i64(v: &Json, key: &str) -> (r: Option<i64>)
    ensures
        r == json::i64_in(json::field(v@, key@)),
{
    match v.get(key) {
        Some(x) => x.as_i64(),
        None => None,
    }
}

/// The number of a member.
fn member_num(v: &Json, key: &str) -> (r: Option<Num>)
    ensures
        r == json::num_in(json::field(v@, key@)),
{
    match v.get(key) {
        Some(x) => x.as_num(),
        None => None,
    }
}

/// A member, unless it is null.
fn member_json(v: &Json, key: &str) -> (r: Option<Json>)
    ensures
        json::json_view(r) == json::unless_null(json::field(v@, key@)),
{
    match v.get(key) {
        Some(x) => {
            if x.is_null() {
                None
            } else {
                Some(x.copy())
            }
        },
        None => None,
    }
}

/// Where a message says that its system lies.
pub open spec fn star_pos(msg: JsonView) -> Option<SpanshCoords> {
    match json::field(msg, "StarPos"@) {
        Some(JsonView::Arr(a)) if a.len() == 3 => match (
            json::num_in(Some(a[0])),
            json::num_in(Some(a[1])),
            json::num_in(Some(a[2])),
        ) {
            (Some(x), Some(y), Some(z)) => Some(SpanshCoords { x, y, z }),
            _ => None,
        },
        _ => None,
    }
}

/// Where a message says that its system lies: an array of three numbers.
pub fn extract_starpos(msg: &Json) -> (r: Option<SpanshCoords>)
    ensures
        r == star_pos(msg@),
{
    match msg.get("StarPos") {
        Some(Json::Arr(a)) => {
            proof {
                json::lemma_views(a@);
            }
            if a.len() != 3 {
                return None;
            }
            match (a[0].as_num(), a[1].as_num(), a[2].as_num()) {
                (Some(x), Some(y), Some(z)) => Some(SpanshCoords { x, y, z }),
                _ => None,
            }
        },
        _ => None,
    }
}

/// The system of a jump, with all that the message says of it.
pub open spec fn jumped_to(id64: i64, name: Seq<char>, msg: JsonView) -> SystemView {
    SystemView {
        id64,
        name,
        population: json::i64_in(json::field(msg, "Population"@)),
        coords: star_pos(msg),
        bodies: None,
        stations: None,
        allegiance: json::unless_empty(json::str_in(json::field(msg, "SystemAllegiance"@))),
        government: localised(msg, "SystemGovernment"@, "SystemGovernment_Localised"@),
        primary_economy: localised(msg, "SystemEconomy"@, "SystemEconomy_Localised"@),
        secondary_economy: localised(
            msg,
            "SystemSecondEconomy"@,
            "SystemSecondEconomy_Localised"@,
        ),
        security: localised(msg, "SystemSecurity"@, "SystemSecurity_Localised"@),
        body_count: None,
        date: json::str_in(json::field(msg, "timestamp"@)),
        controlling_faction: json::unless_null(json::field(msg, "SystemFaction"@)),
        factions: json::unless_null(json::field(msg, "Factions"@)),
        power_state: json::str_in(json::field(msg, "PowerplayState"@)),
        powers: json::unless_null(json::field(msg, "Powers"@)),
        controlling_power: json::str_in(json::field(msg, "ControllingPower"@)),
        power_state_control_progress: json::num_in(
            json::field(msg, "PowerplayStateControlProgress"@),
        ),
        power_state_reinforcement: json::num_in(json::field(msg, "PowerplayStateReinforcement"@)),
        power_state_undermining: json::num_in(json::field(msg, "PowerplayStateUndermining"@)),
        power_conflict_progress: json::unless_null(
            json::field(msg, "PowerplayConflictProgress"@),
        ),
        thargoid_war: json::unless_null(json::field(msg, "ThargoidWar"@)),
    }
}

/// The system of a jump, with all that the message says of it.
pub fn eddn_jump_to_system(id64: i64, name: String, msg: &Json) -> (r: SpanshSystem)
    ensures
        r@ == jumped_to(id64, name@, msg@),
{
    let allegiance = match member_string(msg, "SystemAllegiance") {
        Some(s) => if s.as_str().is_empty() {
            None
        } else {
            Some(s)
        },
        None => None,
    };
    SpanshSystem {
        id64,
        name,
        population: member_i64(msg, "Population"),
        coords: extract_starpos(msg),
        bodies: None,
        stations: None,
        allegiance,
        government: loc_str(msg, "SystemGovernment", "SystemGovernment_Localised"),
        primary_economy: loc_str(msg, "SystemEconomy", "SystemEconomy_Localised"),
        secondary_economy: loc_str(msg, "SystemSecondEconomy", "SystemSecondEconomy_Localised"),
        security: loc_str(msg, "SystemSecurity", "SystemSecurity_Localised"),
        body_count: None,
        date: member_string(msg, "timestamp"),
        controlling_faction: member_json(msg, "SystemFaction"),
        factions: member_json(msg, "Factions"),
        power_state: member_string(msg, "PowerplayState"),
        powers: member_json(msg, "Powers"),
        controlling_power: member_string(msg, "ControllingPower"),
        power_state_control_progress: member_num(msg, "PowerplayStateControlProgress"),
        power_state_reinforcement: member_num(msg, "PowerplayStateReinforcement"),
        power_state_undermining: member_num(msg, "PowerplayStateUndermining"),
        power_conflict_progress: member_json(msg, "PowerplayConflictProgress"),
        thargoid_war: member_json(msg, "ThargoidWar"),
    }
}

/// A system of which only the name is said.
pub open spec fn named_only(id64: i64, name: Seq<char>) -> SystemView {
    SystemView {
        id64,
        name,
        population: None,
        coords: None,
        bodies: None,
        stations: None,
        allegiance: None,
        government: None,
        primary_economy: None,
        secondary_economy: None,
        security: None,
        body_count: None,
        date: None,
        controlling_faction: None,
        factions: None,
        power_state: None,
        powers: None,
        controlling_power: None,
        power_state_control_progress: None,
        power_state_reinforcement: None,
        power_state_undermining: None,
        power_conflict_progress: None,
        thargoid_war: None,
    }
}

/// A system of which only the name is said, to carry a body or a station.
pub fn eddn_carrier_system(id64: i64, name: String) -> (r: SpanshSystem)
    ensures
        r@ == named_only(id64, name@),
{
    SpanshSystem {
        id64,
        name,
        population: None,
        coords: None,
        bodies: None,
        stations: None,
        allegiance: None,
        government: None,
        primary_economy: None,
        secondary_economy: None,
        security: None,
        body_count: None,
        date: None,
        controlling_faction: None,
        factions: None,
        power_state: None,
        powers: None,
        controlling_power: None,
        power_state_control_progress: None,
        power_state_reinforcement: None,
        power_state_undermining: None,
        power_conflict_progress: None,
        thargoid_war: None,
    }
}

/// The name of a star's kind by its type code; a code that is not known is its
/// own name.
pub open spec fn star_subtype(t: Seq<char>) -> Seq<char> {
    if t == "O"@ {
        "O (Blue-White) Star"@
    } else if t == "B"@ {
        "B (Blue-White) Star"@
    } else if t == "A"@ {
        "A (Blue-White) Star"@
    } else if t == "F"@ {
        "F (White) Star"@
    } else if t == "G"@ {
        "G (White-Yellow) Star"@
    } else if t == "K"@ {
        "K (Yellow-Orange) Star"@
    } else if t == "M"@ {
        "M (Red dwarf) Star"@
    } else if t == "L"@ {
        "L (Brown dwarf) Star"@
    } else if t == "T"@ {
        "T (Brown dwarf) Star"@
    } else if t == "Y"@ {
        "Y (Brown dwarf) Star"@
    } else if t == "TTS"@ {
        "T Tauri Star"@
    } else if t == "AeBe"@ {
        "Herbig Ae/Be Star"@
    } else if t == "W"@ || t == "WN"@ || t == "WNC"@ || t == "WC"@ || t == "WO"@ {
        "Wolf-Rayet Star"@
    } else if t == "CS"@ || t == "C"@ || t == "CN"@ || t == "CJ"@ || t == "CH"@ || t == "CHd"@ {
        "Carbon Star"@
    } else if t == "MS"@ {
        "MS-type Star"@
    } else if t == "S"@ {
        "S-type Star"@
    } else if t == "N"@ {
        "Neutron Star"@
    } else if t == "H"@ {
        "Black Hole"@
    } else if t == "X"@ {
        "Exotic"@
    } else if t == "SupermassiveBlackHole"@ {
        "Supermassive Black Hole"@
    } else if t == "D"@ || t == "DA"@ || t == "DAB"@ || t == "DAO"@ || t == "DAZ"@ || t == "DAV"@ || t == "DB"@ || t == "DBZ"@ || t == "DBV"@ || t == "DO"@ || t == "DOV"@ || t == "DQ"@ || t == "DC"@ || t == "DCV"@ || t == "DX"@ {
        "White Dwarf"@
    } else {
        t
    }
}

/// The name of a star's kind by its type code; a code that is not known is its
/// own name.
pub fn star_type_to_subtype(t: &str) -> (r: String)
    ensures
        r@ == star_subtype(t@),
{
    let mapped = if same(t, "O") {
        "O (Blue-White) Star"
    } else if same(t, "B") {
        "B (Blue-White) Star"
    } else if same(t, "A") {
        "A (Blue-White) Star"
    } else if same(t, "F") {
        "F (White) Star"
    } else if same(t, "G") {
        "G (White-Yellow) Star"
    } else if same(t, "K") {
        "K (Yellow-Orange) Star"
    } else if same(t, "M") {
        "M (Red dwarf) Star"
    } else if same(t, "L") {
        "L (Brown dwarf) Star"
    } else if same(t, "T") {
        "T (Brown dwarf) Star"
    } else if same(t, "Y") {
        "Y (Brown dwarf) Star"
    } else if same(t, "TTS") {
        "T Tauri Star"
    } else if same(t, "AeBe") {
        "Herbig Ae/Be Star"
    } else if same(t, "W") || same(t, "WN") || same(t, "WNC") || same(t, "WC") || same(t, "WO") {
        "Wolf-Rayet Star"
    } else if same(t, "CS") || same(t, "C") || same(t, "CN") || same(t, "CJ") || same(t, "CH") || same(t, "CHd") {
        "Carbon Star"
    } else if same(t, "MS") {
        "MS-type Star"
    } else if same(t, "S") {
        "S-type Star"
    } else if same(t, "N") {
        "Neutron Star"
    } else if same(t, "H") {
        "Black Hole"
    } else if same(t, "X") {
        "Exotic"
    } else if same(t, "SupermassiveBlackHole") {
        "Supermassive Black Hole"
    } else if same(t, "D") || same(t, "DA") || same(t, "DAB") || same(t, "DAO") || same(t, "DAZ") || same(t, "DAV") || same(t, "DB") || same(t, "DBZ") || same(t, "DBV") || same(t, "DO") || same(t, "DOV") || same(t, "DQ") || same(t, "DC") || same(t, "DCV") || same(t, "DX") {
        "White Dwarf"
    } else {
        t
    };
    mapped.to_owned()
}

/// The members `m` with the member `key`, where there is a value for it.
#[verifier::opaque]
pub open spec fn with_member(
    m: Map<Seq<char>, JsonView>,
    key: Seq<char>,
    value: Option<JsonView>,
) -> Map<Seq<char>, JsonView> {
    match value {
        Some(v) => m.insert(key, v),
        None => m,
    }
}

/// A text as JSON, where there is one.
pub open spec fn str_value(s: Option<Seq<char>>) -> Option<JsonView> {
    match s {
        Some(t) => Some(JsonView::Str(t)),
        None => None,
    }
}

/// A number in another unit as JSON, where there is one.
pub open spec fn in_unit(n: Option<Num>, unit: Unit) -> Option<JsonView> {
    match n {
        Some(x) => Some(JsonView::Num(Num::Per(Box::new(x), unit))),
        None => None,
    }
}

/// Takes the member `src` of `from` over as `dst`, unless it is null.
fn carry(o: &mut Object, from: &Json, src: &str, dst: &str)
    ensures
        final(o)@ == with_member(old(o)@, dst@, json::unless_null(json::field(from@, src@))),
{
    proof {
        reveal(with_member);
    }
    match member_json(from, src) {
        Some(v) => o.put(dst, v),
        None => {},
    }
}

/// Takes the number `src` of `from` over as `dst`, in another unit.
fn carry_per(o: &mut Object, from: &Json, src: &str, dst: &str, unit: Unit)
    ensures
        final(o)@ == with_member(
            old(o)@,
            dst@,
            in_unit(json::num_in(json::field(from@, src@)), unit),
        ),
{
    proof {
        reveal(with_member);
    }
    match member_num(from, src) {
        Some(n) => o.put(dst, Json::Num(Num::Per(Box::new(n), unit))),
        None => {},
    }
}

/// Sets a member to a text, where there is one.
fn put_str(o: &mut Object, key: &str, s: Option<&str>)
    ensures
        final(o)@ == with_member(old(o)@, key@, str_value(json::slice_view(s))),
{
    proof {
        reveal(with_member);
    }
    match s {
        Some(t) => o.put(key, string(t)),
        None => {},
    }
}

/// Takes over the time of a message, as it stands.
fn carry_time(o: &mut Object, msg: &Json)
    ensures
        final(o)@ == with_member(old(o)@, "updateTime"@, json::field(msg@, "timestamp"@)),
{
    proof {
        reveal(with_member);
    }
    match msg.get("timestamp") {
        Some(v) => o.put("updateTime", v.copy()),
        None => {},
    }
}

/// The first of the members of a scan that a body has under another name.
#[verifier::opaque]
pub open spec fn scanned_first(m: Map<Seq<char>, JsonView>, scan: JsonView) -> Map<
    Seq<char>,
    JsonView,
> {
    let m = with_member(m, "distanceToArrival"@, json::unless_null(json::field(scan, "DistanceFromArrivalLS"@)));
    let m = with_member(m, "surfaceTemperature"@, json::unless_null(json::field(scan, "SurfaceTemperature"@)));
    let m = with_member(m, "orbitalEccentricity"@, json::unless_null(json::field(scan, "Eccentricity"@)));
    let m = with_member(m, "orbitalInclination"@, json::unless_null(json::field(scan, "OrbitalInclination"@)));
    let m = with_member(m, "argOfPeriapsis"@, json::unless_null(json::field(scan, "Periapsis"@)));
    let m = with_member(m, "rotationalPeriodTidallyLocked"@, json::unless_null(json::field(scan, "TidalLock"@)));
    let m = with_member(m, "axialTilt"@, json::unless_null(json::field(scan, "AxialTilt"@)));
    let m = with_member(m, "ascendingNode"@, json::unless_null(json::field(scan, "AscendingNode"@)));
    m
}

/// The second of the members of a scan that a body has under another name.
#[verifier::opaque]
pub open spec fn scanned_second(m: Map<Seq<char>, JsonView>, scan: JsonView) -> Map<
    Seq<char>,
    JsonView,
> {
    let m = with_member(m, "meanAnomaly"@, json::unless_null(json::field(scan, "MeanAnomaly"@)));
    let m = with_member(m, "wasDiscovered"@, json::unless_null(json::field(scan, "WasDiscovered"@)));
    let m = with_member(m, "wasMapped"@, json::unless_null(json::field(scan, "WasMapped"@)));
    let m = with_member(m, "volcanismType"@, json::unless_null(json::field(scan, "Volcanism"@)));
    let m = with_member(m, "terraformingState"@, json::unless_null(json::field(scan, "TerraformState"@)));
    let m = with_member(m, "atmosphereComposition"@, json::unless_null(json::field(scan, "AtmosphereComposition"@)));
    let m = with_member(m, "solidComposition"@, json::unless_null(json::field(scan, "Composition"@)));
    m
}

/// The third of the members of a scan that a body has under another name.
#[verifier::opaque]
pub open spec fn scanned_third(m: Map<Seq<char>, JsonView>, scan: JsonView) -> Map<
    Seq<char>,
    JsonView,
> {
    let m = with_member(m, "materials"@, json::unless_null(json::field(scan, "Materials"@)));
    let m = with_member(m, "rings"@, json::unless_null(json::field(scan, "Rings"@)));
    let m = with_member(m, "parents"@, json::unless_null(json::field(scan, "Parents"@)));
    let m = with_member(m, "solarMasses"@, json::unless_null(json::field(scan, "StellarMass"@)));
    let m = with_member(m, "absoluteMagnitude"@, json::unless_null(json::field(scan, "AbsoluteMagnitude"@)));
    let m = with_member(m, "age"@, json::unless_null(json::field(scan, "Age_MY"@)));
    let m = with_member(m, "luminosity"@, json::unless_null(json::field(scan, "Luminosity"@)));
    m
}

/// The fourth of the members of a scan that a body has under another name.
#[verifier::opaque]
pub open spec fn scanned_fourth(m: Map<Seq<char>, JsonView>, scan: JsonView) -> Map<
    Seq<char>,
    JsonView,
> {
    let m = with_member(m, "subclass"@, json::unless_null(json::field(scan, "Subclass"@)));
    let m = with_member(m, "reserveLevel"@, json::unless_null(json::field(scan, "ReserveLevel"@)));
    let m = with_member(m, "earthMasses"@, json::unless_null(json::field(scan, "MassEM"@)));
    let m = with_member(m, "isLandable"@, json::unless_null(json::field(scan, "Landable"@)));
    let m = with_member(
        m,
        "surfacePressure"@,
        in_unit(json::num_in(json::field(scan, "SurfacePressure"@)), Unit::Atmosphere),
    );
    let m = with_member(
        m,
        "orbitalPeriod"@,
        in_unit(json::num_in(json::field(scan, "OrbitalPeriod"@)), Unit::Day),
    );
    let m = with_member(
        m,
        "semiMajorAxis"@,
        in_unit(json::num_in(json::field(scan, "SemiMajorAxis"@)), Unit::AstronomicalUnit),
    );
    let m = with_member(
        m,
        "rotationalPeriod"@,
        in_unit(json::num_in(json::field(scan, "RotationPeriod"@)), Unit::Day),
    );
    m
}

/// The members of a scan that a body has under another name.
pub open spec fn scanned_members(
    scan: JsonView,
    body_id: i64,
    name: Seq<char>,
) -> Map<Seq<char>, JsonView> {
    let m = Map::empty().insert("bodyId"@, JsonView::Num(Num::Int(body_id))).insert(
        "name"@,
        JsonView::Str(name),
    );
    let m = scanned_first(m, scan);
    let m = scanned_second(m, scan);
    let m = scanned_third(m, scan);
    let m = scanned_fourth(m, scan);
    m
}

/// The kind of atmosphere that a scan gives.
pub open spec fn atmosphere(scan: JsonView) -> Option<Seq<char>> {
    match json::unless_empty(json::str_in(json::field(scan, "AtmosphereType"@))) {
        Some(t) => Some(t),
        None => json::unless_empty(json::str_in(json::field(scan, "Atmosphere"@))),
    }
}

/// What a scan says of the kind of its body: a planet has a class, a star a
/// type.
pub open spec fn with_kind(
    m: Map<Seq<char>, JsonView>,
    scan: JsonView,
    body_id: i64,
) -> Map<Seq<char>, JsonView> {
    match json::str_in(json::field(scan, "PlanetClass"@)) {
        Some(class) => m.insert("type"@, JsonView::Str("Planet"@)).insert(
            "subType"@,
            JsonView::Str(class),
        ),
        None => match json::str_in(json::field(scan, "StarType"@)) {
            Some(t) => {
                let m = m.insert("type"@, JsonView::Str("Star"@)).insert(
                    "subType"@,
                    JsonView::Str(star_subtype(t)),
                ).insert("spectralClass"@, JsonView::Str(t));
                let m = if body_id == 0 {
                    m.insert("mainStar"@, JsonView::Bool(true))
                } else {
                    m
                };
                with_member(
                    m,
                    "solarRadius"@,
                    in_unit(json::num_in(json::field(scan, "Radius"@)), Unit::SolarRadius),
                )
            },
            None => m,
        },
    }
}

/// The body of a scan; `None` where the scan gives no body id or no name.
pub open spec fn scanned_body(scan: JsonView) -> Option<JsonView> {
    match (
        json::i64_in(json::field(scan, "BodyID"@)),
        json::str_in(json::field(scan, "BodyName"@)),
    ) {
        (Some(body_id), Some(name)) => {
            let m = scanned_members(scan, body_id, name);
            let m = with_member(m, "atmosphereType"@, str_value(atmosphere(scan)));
            let m = with_kind(m, scan, body_id);
            let m = with_member(
                m,
                "gravity"@,
                in_unit(json::num_in(json::field(scan, "SurfaceGravity"@)), Unit::Gravity),
            );
            let m = with_member(
                m,
                "radius"@,
                in_unit(json::num_in(json::field(scan, "Radius"@)), Unit::Kilometre),
            );
            let m = with_member(m, "updateTime"@, json::field(scan, "timestamp"@));
            Some(JsonView::Obj(m))
        },
        _ => None,
    }
}

/// The text of a member, unless it is empty.
fn member_filled<'a>(v: &'a Json, key: &str) -> (r: Option<&'a str>)
    ensures
        json::slice_view(r) == json::unless_empty(json::str_in(json::field(v@, key@))),
{
    match member_str(v, key) {
        Some(t) => if t.is_empty() {
            None
        } else {
            Some(t)
        },
        None => None,
    }
}

/// The members of a scan that a body has under another name.
fn scan_members(scan: &Json, body_id: i64, name: &str) -> (o: Object)
    ensures
        o@ == scanned_members(scan@, body_id, name@),
{
    proof {
        reveal(scanned_first);
        reveal(scanned_second);
        reveal(scanned_third);
        reveal(scanned_fourth);
    }
    let mut o = Object::new();
    o.put("bodyId", integer(body_id));
    o.put("name", string(name));
    carry(&mut o, scan, "DistanceFromArrivalLS", "distanceToArrival");
    carry(&mut o, scan, "SurfaceTemperature", "surfaceTemperature");
    carry(&mut o, scan, "Eccentricity", "orbitalEccentricity");
    carry(&mut o, scan, "OrbitalInclination", "orbitalInclination");
    carry(&mut o, scan, "Periapsis", "argOfPeriapsis");
    carry(&mut o, scan, "TidalLock", "rotationalPeriodTidallyLocked");
    carry(&mut o, scan, "AxialTilt", "axialTilt");
    carry(&mut o, scan, "AscendingNode", "ascendingNode");
    carry(&mut o, scan, "MeanAnomaly", "meanAnomaly");
    carry(&mut o, scan, "WasDiscovered", "wasDiscovered");
    carry(&mut o, scan, "WasMapped", "wasMapped");
    carry(&mut o, scan, "Volcanism", "volcanismType");
    carry(&mut o, scan, "TerraformState", "terraformingState");
    carry(&mut o, scan, "AtmosphereComposition", "atmosphereComposition");
    carry(&mut o, scan, "Composition", "solidComposition");
    carry(&mut o, scan, "Materials", "materials");
    carry(&mut o, scan, "Rings", "rings");
    carry(&mut o, scan, "Parents", "parents");
    carry(&mut o, scan, "StellarMass", "solarMasses");
    carry(&mut o, scan, "AbsoluteMagnitude", "absoluteMagnitude");
    carry(&mut o, scan, "Age_MY", "age");
    carry(&mut o, scan, "Luminosity", "luminosity");
    carry(&mut o, scan, "Subclass", "subclass");
    carry(&mut o, scan, "ReserveLevel", "reserveLevel");
    carry(&mut o, scan, "MassEM", "earthMasses");
    carry(&mut o, scan, "Landable", "isLandable");
    carry_per(&mut o, scan, "SurfacePressure", "surfacePressure", Unit::Atmosphere);
    carry_per(&mut o, scan, "OrbitalPeriod", "orbitalPeriod", Unit::Day);
    carry_per(&mut o, scan, "SemiMajorAxis", "semiMajorAxis", Unit::AstronomicalUnit);
    carry_per(&mut o, scan, "RotationPeriod", "rotationalPeriod", Unit::Day);
    o
}

/// What a scan says of the kind of its body.
fn put_kind(o: &mut Object, scan: &Json, body_id: i64)
    ensures
        final(o)@ == with_kind(old(o)@, scan@, body_id),
{
    match member_str(scan, "PlanetClass") {
        Some(class) => {
            o.put("type", string("Planet"));
            o.put("subType", string(class));
        },
        None => match member_str(scan, "StarType") {
            Some(t) => {
                o.put("type", string("Star"));
                o.put("subType", Json::Str(star_type_to_subtype(t)));
                o.put("spectralClass", string(t));
                if body_id == 0 {
                    o.put("mainStar", Json::Bool(true));
                }
                carry_per(o, scan, "Radius", "solarRadius", Unit::SolarRadius);
            },
            None => {},
        },
    }
}

/// The body of a scan: names and units are those of the dumps.
pub fn eddn_scan_to_body(scan: &Json) -> (r: Option<Json>)
    ensures
        json::json_view(r) == scanned_body(scan@),
{
    let body_id = match member_i64(scan, "BodyID") {
        Some(i) => i,
        None => {
            return None;
        },
    };
    let name = match member_str(scan, "BodyName") {
        Some(t) => t,
        None => {
            return None;
        },
    };
    let mut o = scan_members(scan, body_id, name);
    match member_filled(scan, "AtmosphereType") {
        Some(t) => put_str(&mut o, "atmosphereType", Some(t)),
        None => put_str(&mut o, "atmosphereType", member_filled(scan, "Atmosphere")),
    }
    put_kind(&mut o, scan, body_id);
    carry_per(&mut o, scan, "SurfaceGravity", "gravity", Unit::Gravity);
    carry_per(&mut o, scan, "Radius", "radius", Unit::Kilometre);
    carry_time(&mut o, scan);
    Some(o.done())
}

/// The station of a docking; `None` where the message gives no market id or
/// no name.
pub open spec fn docked_station(d: JsonView) -> Option<JsonView> {
    let faction = json::field(d, "StationFaction"@);
    match (
        json::i64_in(json::field(d, "MarketID"@)),
        json::str_in(json::field(d, "StationName"@)),
    ) {
        (Some(id), Some(name)) => {
            let m = Map::empty().insert("id"@, JsonView::Num(Num::Int(id))).insert(
                "marketId"@,
                JsonView::Num(Num::Int(id)),
            ).insert("name"@, JsonView::Str(name));
            let m = with_member(
                m,
                "type"@,
                str_value(json::str_in(json::field(d, "StationType"@))),
            );
            let m = with_member(
                m,
                "distanceToArrival"@,
                json::unless_null(json::field(d, "DistFromStarLS"@)),
            );
            let m = with_member(
                m,
                "allegiance"@,
                str_value(json::unless_empty(json::str_in(json::field(d, "StationAllegiance"@)))),
            );
            let m = with_member(
                m,
                "government"@,
                str_value(localised(d, "StationGovernment"@, "StationGovernment_Localised"@)),
            );
            let m = with_member(
                m,
                "primaryEconomy"@,
                str_value(localised(d, "StationEconomy"@, "StationEconomy_Localised"@)),
            );
            let m = with_member(
                m,
                "services"@,
                json::unless_null(json::field(d, "StationServices"@)),
            );
            let m = with_member(m, "controllingFaction"@, str_value(in_member(faction, "Name"@)));
            let m = with_member(
                m,
                "controllingFactionState"@,
                str_value(in_member(faction, "FactionState"@)),
            );
            let m = with_member(
                m,
                "landingPads"@,
                json::unless_null(json::field(d, "LandingPads"@)),
            );
            let m = with_member(
                m,
                "economies"@,
                json::unless_null(json::field(d, "StationEconomies"@)),
            );
            let m = with_member(m, "updateTime"@, json::field(d, "timestamp"@));
            Some(JsonView::Obj(m))
        },
        _ => None,
    }
}

/// The text of a member of a value, where there is one.
pub open spec fn in_member(v: Option<JsonView>, key: Seq<char>) -> Option<Seq<char>> {
    match v {
        Some(x) => json::str_in(json::field(x, key)),
        None => None,
    }
}

/// Sets a member to a text, where there is one.
fn put_string(o: &mut Object, key: &str, s: Option<String>)
    ensures
        final(o)@ == with_member(old(o)@, key@, str_value(json::text_view(s))),
{
    proof {
        reveal(with_member);
    }
    match s {
        Some(t) => o.put(key, Json::Str(t)),
        None => {},
    }
}

/// The station of a docking.
pub fn eddn_docked_to_station(d: &Json) -> (r: Option<Json>)
    ensures
        json::json_view(r) == docked_station(d@),
{
    let id = match member_i64(d, "MarketID") {
        Some(i) => i,
        None => {
            return None;
        },
    };
    let name = match member_str(d, "StationName") {
        Some(t) => t,
        None => {
            return None;
        },
    };
    let mut o = Object::new();
    o.put("id", integer(id));
    o.put("marketId", integer(id));
    o.put("name", string(name));
    put_str(&mut o, "type", member_str(d, "StationType"));
    carry(&mut o, d, "DistFromStarLS", "distanceToArrival");
    put_str(&mut o, "allegiance", member_filled(d, "StationAllegiance"));
    put_string(
        &mut o,
        "government",
        loc_str(d, "StationGovernment", "StationGovernment_Localised"),
    );
    put_string(&mut o, "primaryEconomy", loc_str(d, "StationEconomy", "StationEconomy_Localised"));
    carry(&mut o, d, "StationServices", "services");
    match d.get("StationFaction") {
        Some(f) => {
            put_str(&mut o, "controllingFaction", member_str(f, "Name"));
            put_str(&mut o, "controllingFactionState", member_str(f, "FactionState"));
        },
        None => {
            proof {
                reveal(with_member);
            }
        },
    }
    carry(&mut o, d, "LandingPads", "landingPads");
    carry(&mut o, d, "StationEconomies", "economies");
    carry_time(&mut o, d);
    Some(o.done())
}

/// The body on which signals were found; `None` where the message gives no
/// body id or no signals.
pub open spec fn signalled_body(s: JsonView) -> Option<JsonView> {
    match (
        json::i64_in(json::field(s, "BodyID"@)),
        json::unless_null(json::field(s, "Signals"@)),
    ) {
        (Some(id), Some(signals)) => {
            let m = Map::empty().insert("bodyId"@, JsonView::Num(Num::Int(id)));
            let m = with_member(
                m,
                "name"@,
                str_value(json::str_in(json::field(s, "BodyName"@))),
            );
            let m = m.insert("signals"@, signals);
            let m = with_member(m, "updateTime"@, json::field(s, "timestamp"@));
            Some(JsonView::Obj(m))
        },
        _ => None,
    }
}

/// The body on which signals were found.
pub fn eddn_signals_to_body(s: &Json) -> (r: Option<Json>)
    ensures
        json::json_view(r) == signalled_body(s@),
{
    let id = match member_i64(s, "BodyID") {
        Some(i) => i,
        None => {
            return None;
        },
    };
    let signals = match member_json(s, "Signals") {
        Some(v) => v,
        None => {
            return None;
        },
    };
    let mut o = Object::new();
    o.put("bodyId", integer(id));
    put_str(&mut o, "name", member_str(s, "BodyName"));
    o.put("signals", signals);
    carry_time(&mut o, s);
    Some(o.done())
}

/// A named system that carries one body.
pub open spec fn with_body(id64: i64, name: Seq<char>, msg: JsonView, body: JsonView) -> SystemView {
    SystemView { coords: star_pos(msg), bodies: Some(seq![body]), ..named_only(id64, name) }
}

/// A named system that carries one station.
pub open spec fn with_station(
    id64: i64,
    name: Seq<char>,
    msg: JsonView,
    station: JsonView,
) -> SystemView {
    SystemView { coords: star_pos(msg), stations: Some(seq![station]), ..named_only(id64, name) }
}

/// The system that an event tells of.
pub open spec fn event_system(
    event: Seq<char>,
    id64: i64,
    name: Seq<char>,
    msg: JsonView,
) -> Option<SystemView> {
    if is_arrival(event) {
        Some(jumped_to(id64, name, msg))
    } else if event == "Scan"@ {
        match scanned_body(msg) {
            Some(b) => Some(with_body(id64, name, msg, b)),
            None => None,
        }
    } else if event == "Docked"@ {
        match docked_station(msg) {
            Some(st) => Some(with_station(id64, name, msg, st)),
            None => None,
        }
    } else if event == "SAASignalsFound"@ {
        match signalled_body(msg) {
            Some(b) => Some(with_body(id64, name, msg, b)),
            None => None,
        }
    } else {
        None
    }
}

/// The system that a journal message tells of: it needs an event that is
/// known, and the id and the name of a system.
pub open spec fn journal_system(msg: JsonView) -> Option<SystemView> {
    match (
        json::str_in(json::field(msg, "event"@)),
        json::i64_in(json::field(msg, "SystemAddress"@)),
        json::str_in(json::field(msg, "StarSystem"@)),
    ) {
        (Some(event), Some(id64), Some(name)) if name.len() > 0 => event_system(
            event,
            id64,
            name,
            msg,
        ),
        _ => None,
    }
}

/// The view of an optional system.
pub open spec fn system_view(s: Option<SpanshSystem>) -> Option<SystemView> {
    match s {
        Some(x) => Some(x@),
        None => None,
    }
}

/// A named system with one body.
fn carrying_body(id64: i64, name: String, msg: &Json, body: Json) -> (r: SpanshSystem)
    ensures
        r@ == with_body(id64, name@, msg@, body@),
{
    let mut sys = eddn_carrier_system(id64, name);
    sys.coords = extract_starpos(msg);
    let mut bodies: Vec<Json> = Vec::new();
    bodies.push(body);
    proof {
        json::lemma_views(bodies@);
        assert(json::views(bodies@) =~= seq![body@]);
    }
    sys.bodies = Some(bodies);
    sys
}

/// The system that a journal message tells of.
pub fn eddn_handle_journal(msg: &Json) -> (r: Option<SpanshSystem>)
    ensures
        system_view(r) == journal_system(msg@),
{
    let event = match member_str(msg, "event") {
        Some(e) => e,
        None => {
            return None;
        },
    };
    let id64 = match member_i64(msg, "SystemAddress") {
        Some(i) => i,
        None => {
            return None;
        },
    };
    let name = match member_string(msg, "StarSystem") {
        Some(n) => n,
        None => {
            return None;
        },
    };
    if name.as_str().is_empty() {
        return None;
    }
    if same(event, "FSDJump") || same(event, "Location") || same(event, "CarrierJump") {
        Some(eddn_jump_to_system(id64, name, msg))
    } else if same(event, "Scan") {
        match eddn_scan_to_body(msg) {
            Some(b) => Some(carrying_body(id64, name, msg, b)),
            None => None,
        }
    } else if same(event, "Docked") {
        match eddn_docked_to_station(msg) {
            Some(st) => {
                let mut sys = eddn_carrier_system(id64, name);
                sys.coords = extract_starpos(msg);
                let mut stations: Vec<Json> = Vec::new();
                stations.push(st);
                proof {
                    json::lemma_views(stations@);
                    assert(json::views(stations@) =~= seq![st@]);
                }
                sys.stations = Some(stations);
                Some(sys)
            },
            None => None,
        }
    } else if same(event, "SAASignalsFound") {
        match eddn_signals_to_body(msg) {
            Some(b) => Some(carrying_body(id64, name, msg, b)),
            None => None,
        }
    } else {
        None
    }
}

/// The schema of an envelope is one of those of the journal, which are read.
pub open spec fn schema_is_read(envelope: JsonView) -> bool {
    json::str_in(json::field(envelope, "$schemaRef"@)) matches Some(schema) && text::stands_at(
        schema,
        "https://eddn.edcd.io/schemas/journal/"@,
        0,
    )
}

/// The system that an envelope tells of: its schema has to be one of those that
/// are read.
pub open spec fn envelope_system(envelope: JsonView) -> Option<SystemView> {
    match json::field(envelope, "message"@) {
        Some(message) if schema_is_read(envelope) => journal_system(message),
        _ => None,
    }
}

/// An event by which a commander arrives in a system.
pub open spec fn is_arrival(event: Seq<char>) -> bool {
    event == "FSDJump"@ || event == "Location"@ || event == "CarrierJump"@
}

/// The message of an envelope tells of an arrival.
pub open spec fn tells_of_arrival(envelope: JsonView) -> bool {
    json::field(envelope, "message"@) matches Some(message) && json::str_in(
        json::field(message, "event"@),
    ) matches Some(event) && is_arrival(event)
}

/// Whether the schema of an envelope is one of those that are read.
fn reads_schema(envelope: &Json) -> (r: bool)
    ensures
        r == schema_is_read(envelope@),
{
    match member_str(envelope, "$schemaRef") {
        Some(s) => starts_with(s, "https://eddn.edcd.io/schemas/journal/"),
        None => false,
    }
}

/// Whether the message of an envelope tells of an arrival.
fn arrives(envelope: &Json) -> (r: bool)
    ensures
        r == tells_of_arrival(envelope@),
{
    match envelope.get("message") {
        Some(m) => match member_str(m, "event") {
            Some(e) => same(e, "FSDJump") || same(e, "Location") || same(e, "CarrierJump"),
            None => false,
        },
        None => false,
    }
}

/// The system that an envelope tells of.
pub fn eddn_handle_envelope(envelope: &Json) -> (r: Option<SpanshSystem>)
    ensures
        system_view(r) == envelope_system(envelope@),
{
    let message = match envelope.get("message") {
        Some(m) => m,
        None => {
            return None;
        },
    };
    if reads_schema(envelope) {
        eddn_handle_journal(message)
    } else {
        None
    }
}

/// What a zlib stream unpacks to; `None` where it is damaged or incomplete.
pub uninterp spec fn inflated(input: Seq<u8>) -> Option<Seq<u8>>;

/// The bytes of an optional buffer.
pub open spec fn bytes_view(b: Option<Vec<u8>>) -> Option<Seq<u8>> {
    match b {
        Some(v) => Some(v@),
        None => None,
    }
}

/// `flate2::read::ZlibDecoder`, read to its end: what it makes of the bytes is
/// named, not described; an error of the stream is `None`.
#[verifier::external_body]
pub(crate) fn eddn_decompress(input: &Vec<u8>) -> (r: Option<Vec<u8>>)
    ensures
        bytes_view(r) == inflated(input@),
{
    let mut out: Vec<u8> = Vec::new();
    let mut decoder = flate2::read::ZlibDecoder::new(input.as_slice());
    match std::io::Read::read_to_end(&mut decoder, &mut out) {
        Ok(_) => Some(out),
        Err(_) => None,
    }
}

/// The listener between two events: how long to wait before the next attempt
/// to connect, and the systems that wait to be sent.
pub struct Listener {
    pub delay_ms: u64,
    pub buffer: Vec<SpanshSystem>,
}

/// The views of systems.
pub open spec fn system_views(s: Seq<SpanshSystem>) -> Seq<SystemView> {
    s.map_values(|x: SpanshSystem| x@)
}

/// The delay that follows on a delay: twice as long, up to a minute.
pub open spec fn next_delay(ms: int) -> int {
    if 2 * ms < EDDN_RECONNECT_MAX_MS {
        2 * ms
    } else {
        EDDN_RECONNECT_MAX_MS as int
    }
}

/// `n` systems that wait are to be sent: there are enough of them, or some are
/// there and a second has passed since the last were sent.
pub open spec fn is_flush_due(n: nat, since_flush_ms: int) -> bool {
    n >= EDDN_FLUSH_BATCH_SIZE || (n > 0 && since_flush_ms >= EDDN_FLUSH_INTERVAL_MS)
}

/// How long to wait for the next frame while `n` systems wait to be sent.
pub open spec fn wait_of(n: nat, since_flush_ms: u64) -> int {
    if n == 0 {
        EDDN_RECV_TIMEOUT_MS as int
    } else if since_flush_ms < EDDN_FLUSH_INTERVAL_MS {
        EDDN_FLUSH_INTERVAL_MS - since_flush_ms
    } else {
        0
    }
}

/// Systems that wait are sent within a second though no further frame comes:
/// the wait for a frame ends by then, and where it ends they are to be sent.
pub proof fn law_systems_wait_a_second_at_most(n: nat, since_flush_ms: u64)
    requires
        n > 0,
    ensures
        is_flush_due(n, since_flush_ms + wait_of(n, since_flush_ms)),
        wait_of(n, since_flush_ms) <= EDDN_FLUSH_INTERVAL_MS,
        wait_of(n, since_flush_ms) == 0 || since_flush_ms + wait_of(n, since_flush_ms)
            <= EDDN_FLUSH_INTERVAL_MS,
{
}

/// The number of values in an optional array.
pub open spec fn count_of(v: Option<Seq<JsonView>>) -> nat {
    match v {
        Some(a) => a.len(),
        None => 0,
    }
}

/// The counters after a system has been taken in.
pub open spec fn counted(stats: EddnStats, sys: SystemView, now: u64) -> EddnStats {
    EddnStats {
        messages_processed: stats.messages_processed.wrapping_add(1),
        systems_emitted: stats.systems_emitted.wrapping_add(1),
        bodies_emitted: stats.bodies_emitted.wrapping_add(count_of(sys.bodies) as u64),
        stations_emitted: stats.stations_emitted.wrapping_add(count_of(sys.stations) as u64),
        last_message_time: now,
        ..stats
    }
}

/// How many values an optional array holds.
pub(crate) fn count_values(v: &Option<Vec<Json>>) -> (n: u64)
    ensures
        n == count_of(json::array_view(*v)),
{
    match v {
        Some(a) => {
            proof {
                json::lemma_views(a@);
            }
            a.len() as u64
        },
        None => 0,
    }
}

impl Listener {
    /// The delay stays between a second and a minute.
    pub open spec fn wf(&self) -> bool {
        EDDN_RECONNECT_BASE_MS <= self.delay_ms <= EDDN_RECONNECT_MAX_MS
    }

    /// The listener before its first attempt to connect.
    pub fn new() -> (r: Listener)
        ensures
            r.wf(),
            r.delay_ms == EDDN_RECONNECT_BASE_MS,
            r.buffer@.len() == 0,
    {
        Listener { delay_ms: EDDN_RECONNECT_BASE_MS, buffer: Vec::new() }
    }

    /// An attempt to connect failed: the time to wait before the next.
    pub fn connect_failed(&mut self) -> (wait_ms: u64)
        requires
            old(self).wf(),
        ensures
            final(self).wf(),
            wait_ms == old(self).delay_ms,
            final(self).delay_ms == next_delay(old(self).delay_ms as int),
            final(self).buffer == old(self).buffer,
    {
        let wait_ms: u64 = self.delay_ms;
        self.delay_ms = if 2 * wait_ms < EDDN_RECONNECT_MAX_MS {
            2 * wait_ms
        } else {
            EDDN_RECONNECT_MAX_MS
        };
        wait_ms
    }

    /// The relay is connected: the delay is short again, and no system waits.
    pub fn connected(&mut self, stats: &mut EddnStats)
        ensures
            final(self).wf(),
            final(self).delay_ms == EDDN_RECONNECT_BASE_MS,
            final(self).buffer@.len() == 0,
            *final(stats) == (EddnStats { connected: 1, ..*old(stats) }),
    {
        stats.connected = 1;
        self.delay_ms = EDDN_RECONNECT_BASE_MS;
        self.buffer = Vec::new();
    }

    /// A frame came in and was unpacked or not: what is to be read, if it was.
    pub fn unpacked(stats: &mut EddnStats, content: Option<Vec<u8>>) -> (r: Option<Vec<u8>>)
        ensures
            bytes_view(r) == bytes_view(content),
            content is Some ==> *final(stats) == (EddnStats {
                messages_received: old(stats).messages_received.wrapping_add(1),
                ..*old(stats)
            }),
            content is None ==> *final(stats) == (EddnStats {
                messages_received: old(stats).messages_received.wrapping_add(1),
                messages_dropped: old(stats).messages_dropped.wrapping_add(1),
                ..*old(stats)
            }),
    {
        stats.messages_received = stats.messages_received.wrapping_add(1);
        match content {
            Some(b) => Some(b),
            None => {
                stats.messages_dropped = stats.messages_dropped.wrapping_add(1);
                None
            },
        }
    }

    /// A frame came in: it is unpacked. A frame that cannot be unpacked is
    /// dropped.
    pub fn frame(stats: &mut EddnStats, raw: &Vec<u8>) -> (r: Option<Vec<u8>>)
        ensures
            bytes_view(r) == inflated(raw@),
            r is Some ==> *final(stats) == (EddnStats {
                messages_received: old(stats).messages_received.wrapping_add(1),
                ..*old(stats)
            }),
            r is None ==> *final(stats) == (EddnStats {
                messages_received: old(stats).messages_received.wrapping_add(1),
                messages_dropped: old(stats).messages_dropped.wrapping_add(1),
                ..*old(stats)
            }),
    {
        let content = eddn_decompress(raw);
        Listener::unpacked(stats, content)
    }

    /// The content of a frame could not be read: it is dropped.
    pub fn unreadable(stats: &mut EddnStats)
        ensures
            *final(stats) == (EddnStats {
                messages_dropped: old(stats).messages_dropped.wrapping_add(1),
                ..*old(stats)
            }),
    {
        stats.messages_dropped = stats.messages_dropped.wrapping_add(1);
    }

    /// The content of a frame was read: the system that it tells of is counted
    /// and waits to be sent. Where a commander arrived is handed out, for the
    /// map of activity. A frame of a schema that is not read is dropped; what
    /// else tells of no system counts for nothing.
    pub fn envelope(
        &mut self,
        stats: &mut EddnStats,
        envelope: &Json,
        now: u64,
    ) -> (r: Option<SpanshCoords>)
        ensures
            final(self).delay_ms == old(self).delay_ms,
            match envelope_system(envelope@) {
                Some(sys) => {
                    &&& system_views(final(self).buffer@) == system_views(old(self).buffer@).push(
                        sys,
                    )
                    &&& *final(stats) == counted(*old(stats), sys, now)
                    &&& r == if tells_of_arrival(envelope@) {
                        sys.coords
                    } else {
                        None
                    }
                },
                None => {
                    &&& final(self).buffer == old(self).buffer
                    &&& *final(stats) == if schema_is_read(envelope@) {
                        *old(stats)
                    } else {
                        EddnStats {
                            messages_dropped: old(stats).messages_dropped.wrapping_add(1),
                            ..*old(stats)
                        }
                    }
                    &&& r is None
                },
            },
    {
        match eddn_handle_envelope(envelope) {
            Some(sys) => {
                let coords = match &sys.coords {
                    Some(c) if arrives(envelope) => Some(
                        SpanshCoords { x: c.x.copy(), y: c.y.copy(), z: c.z.copy() },
                    ),
                    _ => None,
                };
                stats.messages_processed = stats.messages_processed.wrapping_add(1);
                stats.systems_emitted = stats.systems_emitted.wrapping_add(1);
                stats.bodies_emitted = stats.bodies_emitted.wrapping_add(count_values(&sys.bodies));
                stats.stations_emitted =
                stats.stations_emitted.wrapping_add(count_values(&sys.stations));
                stats.last_message_time = now;
                let ghost before = self.buffer@;
                self.buffer.push(sys);
                assert(system_views(self.buffer@) =~= system_views(before).push(sys@));
                coords
            },
            None => {
                if !reads_schema(envelope) {
                    Listener::unreadable(stats);
                }
                None
            },
        }
    }

    /// Whether the systems that wait are to be sent: there are enough of them,
    /// or some have waited for a second.
    pub fn should_flush(&self, since_flush_ms: u64) -> (r: bool)
        ensures
            r == is_flush_due(self.buffer@.len(), since_flush_ms as int),
    {
        self.buffer.len() >= EDDN_FLUSH_BATCH_SIZE || (self.buffer.len() > 0 && since_flush_ms
            >= EDDN_FLUSH_INTERVAL_MS)
    }

    /// How long to wait for the next frame: while systems wait to be sent, for
    /// what is left of the second, so that they are sent in time though no
    /// frame comes.
    pub fn wait_ms(&self, since_flush_ms: u64) -> (r: u64)
        ensures
            r == wait_of(self.buffer@.len(), since_flush_ms),
            self.buffer@.len() > 0 ==> since_flush_ms + r <= EDDN_FLUSH_INTERVAL_MS || r == 0,
    {
        if self.buffer.len() == 0 {
            EDDN_RECV_TIMEOUT_MS as u64
        } else if since_flush_ms < EDDN_FLUSH_INTERVAL_MS {
            EDDN_FLUSH_INTERVAL_MS - since_flush_ms
        } else {
            0
        }
    }

    /// Hands out the systems that wait.
    pub fn take_batch(&mut self) -> (batch: Vec<SpanshSystem>)
        ensures
            batch@ == old(self).buffer@,
            final(self).buffer@.len() == 0,
            final(self).delay_ms == old(self).delay_ms,
    {
        let mut batch: Vec<SpanshSystem> = Vec::new();
        batch.append(&mut self.buffer);
        assert(batch@ =~= old(self).buffer@);
        batch
    }

    /// The connection broke: the counters after it, what is left to send, and
    /// the time to wait before the next attempt.
    pub fn lost(&mut self, stats: &mut EddnStats) -> (r: (Vec<SpanshSystem>, u64))
        requires
            old(self).wf(),
        ensures
            final(self).wf(),
            r.0@ == old(self).buffer@,
            r.1 == old(self).delay_ms,
            final(self).buffer@.len() == 0,
            final(self).delay_ms == next_delay(old(self).delay_ms as int),
            *final(stats) == (EddnStats {
                connected: 0,
                reconnects: old(stats).reconnects.wrapping_add(1),
                ..*old(stats)
            }),
    {
        stats.connected = 0;
        stats.reconnects = stats.reconnects.wrapping_add(1);
        let batch = self.take_batch();
        let wait_ms: u64 = self.connect_failed();
        (batch, wait_ms)
    }

    /// The writer is gone: the listener is no longer connected.
    pub fn writer_gone(stats: &mut EddnStats)
        ensures
            *final(stats) == (EddnStats { connected: 0, ..*old(stats) }),
    {
        stats.connected = 0;
    }
}

/// The delay after `n` attempts in a row that failed.
pub open spec fn delay_after(n: nat) -> int
    decreases n,
{
    if n == 0 {
        EDDN_RECONNECT_BASE_MS as int
    } else {
        next_delay(delay_after((n - 1) as nat))
    }
}

/// Attempts that fail in a row are waited for ever longer, up to a minute:
/// the delay never shrinks, and from the seventh attempt on it is a minute.
pub proof fn law_delay_grows_to_a_minute(n: nat)
    ensures
        EDDN_RECONNECT_BASE_MS <= delay_after(n) <= delay_after(n + 1) <= EDDN_RECONNECT_MAX_MS,
        n >= 6 ==> delay_after(n) == EDDN_RECONNECT_MAX_MS,
    decreases n,
{
    if n > 0 {
        law_delay_grows_to_a_minute((n - 1) as nat);
    }
    reveal_with_fuel(delay_after, 8);
}

/// An event that is no jump tells nothing of its system but its name and where
/// it lies: what is known of the system is not replaced.
pub proof fn law_partial_events_are_partial(
    event: Seq<char>,
    id64: i64,
    name: Seq<char>,
    msg: JsonView,
)
    requires
        !is_arrival(event),
        event_system(event, id64, name, msg) is Some,
    ensures
        ({
            let sys = event_system(event, id64, name, msg)->0;
            sys == (SystemView {
                coords: star_pos(msg),
                bodies: sys.bodies,
                stations: sys.stations,
                ..named_only(id64, name)
            }) && count_of(sys.bodies) + count_of(sys.stations) == 1
        }),
{
}

/// The members of a body differ.
proof fn lemma_scan_names()
    ensures
        json::mark_of("bodyId"@) == (6int, 'b', 'y', 'd'),
        json::mark_of("name"@) == (4int, 'n', 'm', 'e'),
        json::mark_of("distanceToArrival"@) == (17int, 'd', 'T', 'l'),
        json::mark_of("surfaceTemperature"@) == (18int, 's', 'm', 'e'),
        json::mark_of("orbitalEccentricity"@) == (19int, 'o', 'c', 'y'),
        json::mark_of("orbitalInclination"@) == (18int, 'o', 'c', 'n'),
        json::mark_of("argOfPeriapsis"@) == (14int, 'a', 'r', 's'),
        json::mark_of("rotationalPeriodTidallyLocked"@) == (29int, 'r', 'o', 'd'),
        json::mark_of("axialTilt"@) == (9int, 'a', 'l', 't'),
        json::mark_of("ascendingNode"@) == (13int, 'a', 'i', 'e'),
        json::mark_of("meanAnomaly"@) == (11int, 'm', 'n', 'y'),
        json::mark_of("wasDiscovered"@) == (13int, 'w', 'c', 'd'),
        json::mark_of("wasMapped"@) == (9int, 'w', 'a', 'd'),
        json::mark_of("volcanismType"@) == (13int, 'v', 'i', 'e'),
        json::mark_of("terraformingState"@) == (17int, 't', 'm', 'e'),
        json::mark_of("atmosphereComposition"@) == (21int, 'a', 'C', 'n'),
        json::mark_of("solidComposition"@) == (16int, 's', 'p', 'n'),
        json::mark_of("materials"@) == (9int, 'm', 'r', 's'),
        json::mark_of("rings"@) == (5int, 'r', 'n', 's'),
        json::mark_of("parents"@) == (7int, 'p', 'e', 's'),
        json::mark_of("solarMasses"@) == (11int, 's', 'M', 's'),
        json::mark_of("absoluteMagnitude"@) == (17int, 'a', 'M', 'e'),
        json::mark_of("age"@) == (3int, 'a', 'g', 'e'),
        json::mark_of("luminosity"@) == (10int, 'l', 'o', 'y'),
        json::mark_of("subclass"@) == (8int, 's', 'l', 's'),
        json::mark_of("reserveLevel"@) == (12int, 'r', 'e', 'l'),
        json::mark_of("earthMasses"@) == (11int, 'e', 'M', 's'),
        json::mark_of("isLandable"@) == (10int, 'i', 'd', 'e'),
        json::mark_of("surfacePressure"@) == (15int, 's', 'P', 'e'),
        json::mark_of("orbitalPeriod"@) == (13int, 'o', 'l', 'd'),
        json::mark_of("semiMajorAxis"@) == (13int, 's', 'j', 's'),
        json::mark_of("rotationalPeriod"@) == (16int, 'r', 'a', 'd'),
        json::mark_of("gravity"@) == (7int, 'g', 'v', 'y'),
        json::mark_of("radius"@) == (6int, 'r', 'i', 's'),
        json::mark_of("atmosphereType"@) == (14int, 'a', 'e', 'e'),
        json::mark_of("type"@) == (4int, 't', 'p', 'e'),
        json::mark_of("subType"@) == (7int, 's', 'T', 'e'),
        json::mark_of("spectralClass"@) == (13int, 's', 'a', 's'),
        json::mark_of("mainStar"@) == (8int, 'm', 'S', 'r'),
        json::mark_of("solarRadius"@) == (11int, 's', 'R', 's'),
        json::mark_of("updateTime"@) == (10int, 'u', 'e', 'e'),
        json::mark_of("signals"@) == (7int, 's', 'n', 's'),
{
    reveal_strlit("bodyId");
    reveal_strlit("name");
    reveal_strlit("distanceToArrival");
    reveal_strlit("surfaceTemperature");
    reveal_strlit("orbitalEccentricity");
    reveal_strlit("orbitalInclination");
    reveal_strlit("argOfPeriapsis");
    reveal_strlit("rotationalPeriodTidallyLocked");
    reveal_strlit("axialTilt");
    reveal_strlit("ascendingNode");
    reveal_strlit("meanAnomaly");
    reveal_strlit("wasDiscovered");
    reveal_strlit("wasMapped");
    reveal_strlit("volcanismType");
    reveal_strlit("terraformingState");
    reveal_strlit("atmosphereComposition");
    reveal_strlit("solidComposition");
    reveal_strlit("materials");
    reveal_strlit("rings");
    reveal_strlit("parents");
    reveal_strlit("solarMasses");
    reveal_strlit("absoluteMagnitude");
    reveal_strlit("age");
    reveal_strlit("luminosity");
    reveal_strlit("subclass");
    reveal_strlit("reserveLevel");
    reveal_strlit("earthMasses");
    reveal_strlit("isLandable");
    reveal_strlit("surfacePressure");
    reveal_strlit("orbitalPeriod");
    reveal_strlit("semiMajorAxis");
    reveal_strlit("rotationalPeriod");
    reveal_strlit("gravity");
    reveal_strlit("radius");
    reveal_strlit("atmosphereType");
    reveal_strlit("type");
    reveal_strlit("subType");
    reveal_strlit("spectralClass");
    reveal_strlit("mainStar");
    reveal_strlit("solarRadius");
    reveal_strlit("updateTime");
    reveal_strlit("signals");
}

/// The members of a station differ.
proof fn lemma_docking_names()
    ensures
        json::mark_of("id"@) == (2int, 'i', 'd', 'd'),
        json::mark_of("marketId"@) == (8int, 'm', 'e', 'd'),
        json::mark_of("name"@) == (4int, 'n', 'm', 'e'),
        json::mark_of("type"@) == (4int, 't', 'p', 'e'),
        json::mark_of("distanceToArrival"@) == (17int, 'd', 'T', 'l'),
        json::mark_of("allegiance"@) == (10int, 'a', 'i', 'e'),
        json::mark_of("government"@) == (10int, 'g', 'n', 't'),
        json::mark_of("primaryEconomy"@) == (14int, 'p', 'E', 'y'),
        json::mark_of("services"@) == (8int, 's', 'i', 's'),
        json::mark_of("controllingFaction"@) == (18int, 'c', 'n', 'n'),
        json::mark_of("controllingFactionState"@) == (23int, 'c', 'F', 'e'),
        json::mark_of("landingPads"@) == (11int, 'l', 'n', 's'),
        json::mark_of("economies"@) == (9int, 'e', 'o', 's'),
        json::mark_of("updateTime"@) == (10int, 'u', 'e', 'e'),
{
    reveal_strlit("id");
    reveal_strlit("marketId");
    reveal_strlit("name");
    reveal_strlit("type");
    reveal_strlit("distanceToArrival");
    reveal_strlit("allegiance");
    reveal_strlit("government");
    reveal_strlit("primaryEconomy");
    reveal_strlit("services");
    reveal_strlit("controllingFaction");
    reveal_strlit("controllingFactionState");
    reveal_strlit("landingPads");
    reveal_strlit("economies");
    reveal_strlit("updateTime");
}

/// The events differ.
proof fn lemma_event_names()
    ensures
        json::mark_of("Scan"@) == (4int, 'S', 'a', 'n'),
        json::mark_of("SAASignalsFound"@) == (15int, 'S', 'a', 'd'),
        json::mark_of("Docked"@) == (6int, 'D', 'k', 'd'),
        json::mark_of("FSDJump"@) == (7int, 'F', 'J', 'p'),
        json::mark_of("Location"@) == (8int, 'L', 't', 'n'),
        json::mark_of("CarrierJump"@) == (11int, 'C', 'e', 'p'),
{
    reveal_strlit("Scan");
    reveal_strlit("SAASignalsFound");
    reveal_strlit("Docked");
    reveal_strlit("FSDJump");
    reveal_strlit("Location");
    reveal_strlit("CarrierJump");
}

/// A member that is carried over is found, and the others stay.
broadcast proof fn lemma_found_carried(
    m: Map<Seq<char>, JsonView>,
    key: Seq<char>,
    value: Option<JsonView>,
    other: Seq<char>,
)
    ensures
        #[trigger] json::found(with_member(m, key, value), other) == (if other == key
            && value is Some {
            value
        } else {
            json::found(m, other)
        }),
{
    reveal(with_member);
    reveal(json::found);
}

/// A member that is carried over is found, and the others stay.
broadcast proof fn lemma_field_carried(
    m: Map<Seq<char>, JsonView>,
    key: Seq<char>,
    value: Option<JsonView>,
    other: Seq<char>,
)
    ensures
        #[trigger] json::field(JsonView::Obj(with_member(m, key, value)), other) == (if other == key
            && value is Some {
            value
        } else {
            json::field(JsonView::Obj(m), other)
        }),
{
    reveal(with_member);
}

proof fn lemma_scanned_first(m: Map<Seq<char>, JsonView>, scan: JsonView)
    ensures
        json::found(scanned_first(m, scan), "distanceToArrival"@)
            == or_before(json::unless_null(json::field(scan, "DistanceFromArrivalLS"@)),
            json::found(m, "distanceToArrival"@)),
        json::found(scanned_first(m, scan), "surfaceTemperature"@)
            == or_before(json::unless_null(json::field(scan, "SurfaceTemperature"@)), json::found(m,
            "surfaceTemperature"@)),
        json::found(scanned_first(m, scan), "orbitalEccentricity"@)
            == or_before(json::unless_null(json::field(scan, "Eccentricity"@)), json::found(m,
            "orbitalEccentricity"@)),
        json::found(scanned_first(m, scan), "orbitalInclination"@)
            == or_before(json::unless_null(json::field(scan, "OrbitalInclination"@)), json::found(m,
            "orbitalInclination"@)),
        json::found(scanned_first(m, scan), "argOfPeriapsis"@)
            == or_before(json::unless_null(json::field(scan, "Periapsis"@)), json::found(m,
            "argOfPeriapsis"@)),
        json::found(scanned_first(m, scan), "rotationalPeriodTidallyLocked"@)
            == or_before(json::unless_null(json::field(scan, "TidalLock"@)), json::found(m,
            "rotationalPeriodTidallyLocked"@)),
        json::found(scanned_first(m, scan), "axialTilt"@)
            == or_before(json::unless_null(json::field(scan, "AxialTilt"@)), json::found(m,
            "axialTilt"@)),
        json::found(scanned_first(m, scan), "ascendingNode"@)
            == or_before(json::unless_null(json::field(scan, "AscendingNode"@)), json::found(m,
            "ascendingNode"@)),
        forall|other: Seq<char>|
            other != "distanceToArrival"@ && other != "surfaceTemperature"@
                && other != "orbitalEccentricity"@ && other != "orbitalInclination"@
                && other != "argOfPeriapsis"@ && other != "rotationalPeriodTidallyLocked"@
                && other != "axialTilt"@ && other != "ascendingNode"@
                ==> #[trigger] json::found(scanned_first(m, scan), other) == json::found(m, other),
{
    broadcast use {lemma_found_carried, json::lemma_found_set, json::lemma_found_none};

    lemma_scan_names();
    reveal(scanned_first);
}

proof fn lemma_scanned_second(m: Map<Seq<char>, JsonView>, scan: JsonView)
    ensures
        json::found(scanned_second(m, scan), "meanAnomaly"@)
            == or_before(json::unless_null(json::field(scan, "MeanAnomaly"@)), json::found(m,
            "meanAnomaly"@)),
        json::found(scanned_second(m, scan), "wasDiscovered"@)
            == or_before(json::unless_null(json::field(scan, "WasDiscovered"@)), json::found(m,
            "wasDiscovered"@)),
        json::found(scanned_second(m, scan), "wasMapped"@)
            == or_before(json::unless_null(json::field(scan, "WasMapped"@)), json::found(m,
            "wasMapped"@)),
        json::found(scanned_second(m, scan), "volcanismType"@)
            == or_before(json::unless_null(json::field(scan, "Volcanism"@)), json::found(m,
            "volcanismType"@)),
        json::found(scanned_second(m, scan), "terraformingState"@)
            == or_before(json::unless_null(json::field(scan, "TerraformState"@)), json::found(m,
            "terraformingState"@)),
        json::found(scanned_second(m, scan), "atmosphereComposition"@)
            == or_before(json::unless_null(json::field(scan, "AtmosphereComposition"@)),
            json::found(m, "atmosphereComposition"@)),
        json::found(scanned_second(m, scan), "solidComposition"@)
            == or_before(json::unless_null(json::field(scan, "Composition"@)), json::found(m,
            "solidComposition"@)),
        forall|other: Seq<char>|
            other != "meanAnomaly"@ && other != "wasDiscovered"@ && other != "wasMapped"@
                && other != "volcanismType"@ && other != "terraformingState"@
                && other != "atmosphereComposition"@ && other != "solidComposition"@
                ==> #[trigger] json::found(scanned_second(m, scan), other) == json::found(m, other),
{
    broadcast use {lemma_found_carried, json::lemma_found_set, json::lemma_found_none};

    lemma_scan_names();
    reveal(scanned_second);
}

proof fn lemma_scanned_third(m: Map<Seq<char>, JsonView>, scan: JsonView)
    ensures
        json::found(scanned_third(m, scan), "materials"@)
            == or_before(json::unless_null(json::field(scan, "Materials"@)), json::found(m,
            "materials"@)),
        json::found(scanned_third(m, scan), "rings"@)
            == or_before(json::unless_null(json::field(scan, "Rings"@)), json::found(m, "rings"@)),
        json::found(scanned_third(m, scan), "parents"@)
            == or_before(json::unless_null(json::field(scan, "Parents"@)), json::found(m,
            "parents"@)),
        json::found(scanned_third(m, scan), "solarMasses"@)
            == or_before(json::unless_null(json::field(scan, "StellarMass"@)), json::found(m,
            "solarMasses"@)),
        json::found(scanned_third(m, scan), "absoluteMagnitude"@)
            == or_before(json::unless_null(json::field(scan, "AbsoluteMagnitude"@)), json::found(m,
            "absoluteMagnitude"@)),
        json::found(scanned_third(m, scan), "age"@) == or_before(json::unless_null(json::field(scan,
            "Age_MY"@)), json::found(m, "age"@)),
        json::found(scanned_third(m, scan), "luminosity"@)
            == or_before(json::unless_null(json::field(scan, "Luminosity"@)), json::found(m,
            "luminosity"@)),
        forall|other: Seq<char>|
            other != "materials"@ && other != "rings"@ && other != "parents"@
                && other != "solarMasses"@ && other != "absoluteMagnitude"@ && other != "age"@
                && other != "luminosity"@ ==> #[trigger] json::found(scanned_third(m, scan), other)
                == json::found(m, other),
{
    broadcast use {lemma_found_carried, json::lemma_found_set, json::lemma_found_none};

    lemma_scan_names();
    reveal(scanned_third);
}

proof fn lemma_scanned_fourth(m: Map<Seq<char>, JsonView>, scan: JsonView)
    ensures
        json::found(scanned_fourth(m, scan), "subclass"@)
            == or_before(json::unless_null(json::field(scan, "Subclass"@)), json::found(m,
            "subclass"@)),
        json::found(scanned_fourth(m, scan), "reserveLevel"@)
            == or_before(json::unless_null(json::field(scan, "ReserveLevel"@)), json::found(m,
            "reserveLevel"@)),
        json::found(scanned_fourth(m, scan), "earthMasses"@)
            == or_before(json::unless_null(json::field(scan, "MassEM"@)), json::found(m,
            "earthMasses"@)),
        json::found(scanned_fourth(m, scan), "isLandable"@)
            == or_before(json::unless_null(json::field(scan, "Landable"@)), json::found(m,
            "isLandable"@)),
        json::found(scanned_fourth(m, scan), "surfacePressure"@)
            == or_before(in_unit(json::num_in(json::field(scan, "SurfacePressure"@)),
            Unit::Atmosphere), json::found(m, "surfacePressure"@)),
        json::found(scanned_fourth(m, scan), "orbitalPeriod"@)
            == or_before(in_unit(json::num_in(json::field(scan, "OrbitalPeriod"@)), Unit::Day),
            json::found(m, "orbitalPeriod"@)),
        json::found(scanned_fourth(m, scan), "semiMajorAxis"@)
            == or_before(in_unit(json::num_in(json::field(scan, "SemiMajorAxis"@)),
            Unit::AstronomicalUnit), json::found(m, "semiMajorAxis"@)),
        json::found(scanned_fourth(m, scan), "rotationalPeriod"@)
            == or_before(in_unit(json::num_in(json::field(scan, "RotationPeriod"@)), Unit::Day),
            json::found(m, "rotationalPeriod"@)),
        forall|other: Seq<char>|
            other != "subclass"@ && other != "reserveLevel"@ && other != "earthMasses"@
                && other != "isLandable"@ && other != "surfacePressure"@
                && other != "orbitalPeriod"@ && other != "semiMajorAxis"@
                && other != "rotationalPeriod"@ ==> #[trigger] json::found(scanned_fourth(m, scan),
                other) == json::found(m, other),
{
    broadcast use {lemma_found_carried, json::lemma_found_set, json::lemma_found_none};

    lemma_scan_names();
    reveal(scanned_fourth);
}

/// A value where there is one, else what was there before.
pub open spec fn or_before(v: Option<JsonView>, before: Option<JsonView>) -> Option<JsonView> {
    if v is Some {
        v
    } else {
        before
    }
}

/// What a scan measured stands in the table of its body.
proof fn lemma_measured(scan: JsonView)
    requires
        scanned_body(scan) is Some,
    ensures
        ({
            let m = scanned_body(scan)->0->Obj_0;
            &&& json::found(m, "distanceToArrival"@) == json::unless_null(json::field(scan,
                "DistanceFromArrivalLS"@))
            &&& json::found(m, "surfaceTemperature"@) == json::unless_null(json::field(scan,
                "SurfaceTemperature"@))
            &&& json::found(m, "orbitalEccentricity"@) == json::unless_null(json::field(scan,
                "Eccentricity"@))
            &&& json::found(m, "orbitalInclination"@) == json::unless_null(json::field(scan,
                "OrbitalInclination"@))
            &&& json::found(m, "argOfPeriapsis"@) == json::unless_null(json::field(scan,
                "Periapsis"@))
            &&& json::found(m, "rotationalPeriodTidallyLocked"@)
                == json::unless_null(json::field(scan, "TidalLock"@))
            &&& json::found(m, "axialTilt"@) == json::unless_null(json::field(scan, "AxialTilt"@))
            &&& json::found(m, "ascendingNode"@) == json::unless_null(json::field(scan,
                "AscendingNode"@))
            &&& json::found(m, "meanAnomaly"@) == json::unless_null(json::field(scan,
                "MeanAnomaly"@))
            &&& json::found(m, "wasDiscovered"@) == json::unless_null(json::field(scan,
                "WasDiscovered"@))
            &&& json::found(m, "wasMapped"@) == json::unless_null(json::field(scan, "WasMapped"@))
            &&& json::found(m, "volcanismType"@) == json::unless_null(json::field(scan,
                "Volcanism"@))
            &&& json::found(m, "terraformingState"@) == json::unless_null(json::field(scan,
                "TerraformState"@))
            &&& json::found(m, "atmosphereComposition"@) == json::unless_null(json::field(scan,
                "AtmosphereComposition"@))
            &&& json::found(m, "solidComposition"@) == json::unless_null(json::field(scan,
                "Composition"@))
            &&& json::found(m, "materials"@) == json::unless_null(json::field(scan, "Materials"@))
            &&& json::found(m, "rings"@) == json::unless_null(json::field(scan, "Rings"@))
            &&& json::found(m, "parents"@) == json::unless_null(json::field(scan, "Parents"@))
            &&& json::found(m, "solarMasses"@) == json::unless_null(json::field(scan,
                "StellarMass"@))
            &&& json::found(m, "absoluteMagnitude"@) == json::unless_null(json::field(scan,
                "AbsoluteMagnitude"@))
            &&& json::found(m, "age"@) == json::unless_null(json::field(scan, "Age_MY"@))
            &&& json::found(m, "luminosity"@) == json::unless_null(json::field(scan, "Luminosity"@))
            &&& json::found(m, "subclass"@) == json::unless_null(json::field(scan, "Subclass"@))
            &&& json::found(m, "reserveLevel"@) == json::unless_null(json::field(scan,
                "ReserveLevel"@))
            &&& json::found(m, "earthMasses"@) == json::unless_null(json::field(scan, "MassEM"@))
            &&& json::found(m, "isLandable"@) == json::unless_null(json::field(scan, "Landable"@))
            &&& json::found(m, "surfacePressure"@) == in_unit(json::num_in(json::field(scan,
                "SurfacePressure"@)), Unit::Atmosphere)
            &&& json::found(m, "orbitalPeriod"@) == in_unit(json::num_in(json::field(scan,
                "OrbitalPeriod"@)), Unit::Day)
            &&& json::found(m, "semiMajorAxis"@) == in_unit(json::num_in(json::field(scan,
                "SemiMajorAxis"@)), Unit::AstronomicalUnit)
            &&& json::found(m, "rotationalPeriod"@) == in_unit(json::num_in(json::field(scan,
                "RotationPeriod"@)), Unit::Day)
            &&& json::found(m, "gravity"@) == in_unit(json::num_in(json::field(scan,
                "SurfaceGravity"@)), Unit::Gravity)
            &&& json::found(m, "radius"@) == in_unit(json::num_in(json::field(scan, "Radius"@)),
                Unit::Kilometre)
        }),
{
    broadcast use {lemma_found_carried, json::lemma_found_set, json::lemma_found_none};

    lemma_scan_names();
    let id = json::i64_in(json::field(scan, "BodyID"@))->0;
    let name = json::str_in(json::field(scan, "BodyName"@))->0;
    lemma_scan_tables(scan, id, name);
}

proof fn lemma_scan_tables(scan: JsonView, id: i64, name: Seq<char>)
    ensures
        ({
            let m = scanned_members(scan, id, name);
            &&& json::found(m, "distanceToArrival"@) == json::unless_null(json::field(scan,
                "DistanceFromArrivalLS"@))
            &&& json::found(m, "surfaceTemperature"@) == json::unless_null(json::field(scan,
                "SurfaceTemperature"@))
            &&& json::found(m, "orbitalEccentricity"@) == json::unless_null(json::field(scan,
                "Eccentricity"@))
            &&& json::found(m, "orbitalInclination"@) == json::unless_null(json::field(scan,
                "OrbitalInclination"@))
            &&& json::found(m, "argOfPeriapsis"@) == json::unless_null(json::field(scan,
                "Periapsis"@))
            &&& json::found(m, "rotationalPeriodTidallyLocked"@)
                == json::unless_null(json::field(scan, "TidalLock"@))
            &&& json::found(m, "axialTilt"@) == json::unless_null(json::field(scan, "AxialTilt"@))
            &&& json::found(m, "ascendingNode"@) == json::unless_null(json::field(scan,
                "AscendingNode"@))
            &&& json::found(m, "meanAnomaly"@) == json::unless_null(json::field(scan,
                "MeanAnomaly"@))
            &&& json::found(m, "wasDiscovered"@) == json::unless_null(json::field(scan,
                "WasDiscovered"@))
            &&& json::found(m, "wasMapped"@) == json::unless_null(json::field(scan, "WasMapped"@))
            &&& json::found(m, "volcanismType"@) == json::unless_null(json::field(scan,
                "Volcanism"@))
            &&& json::found(m, "terraformingState"@) == json::unless_null(json::field(scan,
                "TerraformState"@))
            &&& json::found(m, "atmosphereComposition"@) == json::unless_null(json::field(scan,
                "AtmosphereComposition"@))
            &&& json::found(m, "solidComposition"@) == json::unless_null(json::field(scan,
                "Composition"@))
            &&& json::found(m, "materials"@) == json::unless_null(json::field(scan, "Materials"@))
            &&& json::found(m, "rings"@) == json::unless_null(json::field(scan, "Rings"@))
            &&& json::found(m, "parents"@) == json::unless_null(json::field(scan, "Parents"@))
            &&& json::found(m, "solarMasses"@) == json::unless_null(json::field(scan,
                "StellarMass"@))
            &&& json::found(m, "absoluteMagnitude"@) == json::unless_null(json::field(scan,
                "AbsoluteMagnitude"@))
            &&& json::found(m, "age"@) == json::unless_null(json::field(scan, "Age_MY"@))
            &&& json::found(m, "luminosity"@) == json::unless_null(json::field(scan, "Luminosity"@))
            &&& json::found(m, "subclass"@) == json::unless_null(json::field(scan, "Subclass"@))
            &&& json::found(m, "reserveLevel"@) == json::unless_null(json::field(scan,
                "ReserveLevel"@))
            &&& json::found(m, "earthMasses"@) == json::unless_null(json::field(scan, "MassEM"@))
            &&& json::found(m, "isLandable"@) == json::unless_null(json::field(scan, "Landable"@))
            &&& json::found(m, "surfacePressure"@) == in_unit(json::num_in(json::field(scan,
                "SurfacePressure"@)), Unit::Atmosphere)
            &&& json::found(m, "orbitalPeriod"@) == in_unit(json::num_in(json::field(scan,
                "OrbitalPeriod"@)), Unit::Day)
            &&& json::found(m, "semiMajorAxis"@) == in_unit(json::num_in(json::field(scan,
                "SemiMajorAxis"@)), Unit::AstronomicalUnit)
            &&& json::found(m, "rotationalPeriod"@) == in_unit(json::num_in(json::field(scan,
                "RotationPeriod"@)), Unit::Day)
            &&& json::found(m, "bodyId"@) == Some(JsonView::Num(Num::Int(id)))
            &&& json::found(m, "name"@) == Some(JsonView::Str(name))
            &&& json::found(m, "gravity"@) is None
            &&& json::found(m, "radius"@) is None
            &&& json::found(m, "atmosphereType"@) is None
            &&& json::found(m, "type"@) is None
            &&& json::found(m, "subType"@) is None
            &&& json::found(m, "spectralClass"@) is None
            &&& json::found(m, "mainStar"@) is None
            &&& json::found(m, "solarRadius"@) is None
            &&& json::found(m, "updateTime"@) is None
        }),
{
    broadcast use {json::lemma_found_set, json::lemma_found_none};

    lemma_scan_names();
    let m0 = Map::empty().insert("bodyId"@, JsonView::Num(Num::Int(id))).insert(
        "name"@,
        JsonView::Str(name),
    );
    let m1 = scanned_first(m0, scan);
    let m2 = scanned_second(m1, scan);
    let m3 = scanned_third(m2, scan);
    lemma_scanned_first(m0, scan);
    lemma_scanned_second(m1, scan);
    lemma_scanned_third(m2, scan);
    lemma_scanned_fourth(m3, scan);
}

/// What a scan measured stands under the name that the dumps have for it, and
/// in the unit of the dumps: the names of the two are set against each other
/// here, member by member.
pub proof fn law_scans_keep_what_was_measured(scan: JsonView)
    requires
        scanned_body(scan) is Some,
    ensures
        ({
            let b = scanned_body(scan)->0;
            &&& json::field(b, "distanceToArrival"@) == json::unless_null(json::field(scan,
                "DistanceFromArrivalLS"@))
            &&& json::field(b, "surfaceTemperature"@) == json::unless_null(json::field(scan,
                "SurfaceTemperature"@))
            &&& json::field(b, "orbitalEccentricity"@) == json::unless_null(json::field(scan,
                "Eccentricity"@))
            &&& json::field(b, "orbitalInclination"@) == json::unless_null(json::field(scan,
                "OrbitalInclination"@))
            &&& json::field(b, "argOfPeriapsis"@) == json::unless_null(json::field(scan,
                "Periapsis"@))
            &&& json::field(b, "rotationalPeriodTidallyLocked"@)
                == json::unless_null(json::field(scan, "TidalLock"@))
            &&& json::field(b, "axialTilt"@) == json::unless_null(json::field(scan, "AxialTilt"@))
            &&& json::field(b, "ascendingNode"@) == json::unless_null(json::field(scan,
                "AscendingNode"@))
            &&& json::field(b, "meanAnomaly"@) == json::unless_null(json::field(scan,
                "MeanAnomaly"@))
            &&& json::field(b, "wasDiscovered"@) == json::unless_null(json::field(scan,
                "WasDiscovered"@))
            &&& json::field(b, "wasMapped"@) == json::unless_null(json::field(scan, "WasMapped"@))
            &&& json::field(b, "volcanismType"@) == json::unless_null(json::field(scan,
                "Volcanism"@))
            &&& json::field(b, "terraformingState"@) == json::unless_null(json::field(scan,
                "TerraformState"@))
            &&& json::field(b, "atmosphereComposition"@) == json::unless_null(json::field(scan,
                "AtmosphereComposition"@))
            &&& json::field(b, "solidComposition"@) == json::unless_null(json::field(scan,
                "Composition"@))
            &&& json::field(b, "materials"@) == json::unless_null(json::field(scan, "Materials"@))
            &&& json::field(b, "rings"@) == json::unless_null(json::field(scan, "Rings"@))
            &&& json::field(b, "parents"@) == json::unless_null(json::field(scan, "Parents"@))
            &&& json::field(b, "solarMasses"@) == json::unless_null(json::field(scan,
                "StellarMass"@))
            &&& json::field(b, "absoluteMagnitude"@) == json::unless_null(json::field(scan,
                "AbsoluteMagnitude"@))
            &&& json::field(b, "age"@) == json::unless_null(json::field(scan, "Age_MY"@))
            &&& json::field(b, "luminosity"@) == json::unless_null(json::field(scan, "Luminosity"@))
            &&& json::field(b, "subclass"@) == json::unless_null(json::field(scan, "Subclass"@))
            &&& json::field(b, "reserveLevel"@) == json::unless_null(json::field(scan,
                "ReserveLevel"@))
            &&& json::field(b, "earthMasses"@) == json::unless_null(json::field(scan, "MassEM"@))
            &&& json::field(b, "isLandable"@) == json::unless_null(json::field(scan, "Landable"@))
            &&& json::field(b, "surfacePressure"@) == in_unit(json::num_in(json::field(scan,
                "SurfacePressure"@)), Unit::Atmosphere)
            &&& json::field(b, "orbitalPeriod"@) == in_unit(json::num_in(json::field(scan,
                "OrbitalPeriod"@)), Unit::Day)
            &&& json::field(b, "semiMajorAxis"@) == in_unit(json::num_in(json::field(scan,
                "SemiMajorAxis"@)), Unit::AstronomicalUnit)
            &&& json::field(b, "rotationalPeriod"@) == in_unit(json::num_in(json::field(scan,
                "RotationPeriod"@)), Unit::Day)
            &&& json::field(b, "gravity"@) == in_unit(json::num_in(json::field(scan,
                "SurfaceGravity"@)), Unit::Gravity)
            &&& json::field(b, "radius"@) == in_unit(json::num_in(json::field(scan, "Radius"@)),
                Unit::Kilometre)
        }),
{
    lemma_measured(scan);
    json::lemma_found(scanned_body(scan)->0);
}

/// A scan names its body, and tells when it was made.
pub proof fn law_scans_name_their_body(scan: JsonView)
    requires
        scanned_body(scan) is Some,
    ensures
        ({
            let b = scanned_body(scan)->0;
            &&& json::field(b, "updateTime"@) == json::field(scan, "timestamp"@)
            &&& json::field(b, "bodyId"@) == Some(
                JsonView::Num(Num::Int(json::i64_in(json::field(scan, "BodyID"@))->0)),
            )
            &&& json::str_in(json::field(b, "name"@)) == json::str_in(
                json::field(scan, "BodyName"@),
            )
        }),
{
    broadcast use {lemma_found_carried, json::lemma_found_set, json::lemma_found_none};

    lemma_scan_names();
    lemma_scan_tables(
        scan,
        json::i64_in(json::field(scan, "BodyID"@))->0,
        json::str_in(json::field(scan, "BodyName"@))->0,
    );
    let b = scanned_body(scan)->0;
    json::lemma_found(b);
    assert(json::found(b->Obj_0, "updateTime"@) == json::field(scan, "timestamp"@));
    assert(json::found(b->Obj_0, "name"@) == Some(
        JsonView::Str(json::str_in(json::field(scan, "BodyName"@))->0),
    ));
}

proof fn lemma_scanned_kind(scan: JsonView)
    requires
        scanned_body(scan) is Some,
    ensures
        ({
            let m = scanned_body(scan)->0->Obj_0;
            let class = json::str_in(json::field(scan, "PlanetClass"@));
            let star = json::str_in(json::field(scan, "StarType"@));
            &&& class is Some ==> json::found(m, "type"@) == Some(JsonView::Str("Planet"@))
                && json::found(m, "subType"@) == Some(JsonView::Str(class->0)) && json::found(
                m,
                "spectralClass"@,
            ) is None && json::found(m, "mainStar"@) is None && json::found(m,
                "solarRadius"@) is None
            &&& class is None && star is Some ==> json::found(m, "type"@) == Some(
                JsonView::Str("Star"@),
            ) && json::found(m, "spectralClass"@) == Some(JsonView::Str(star->0)) && json::found(
                m,
                "subType"@,
            ) == Some(JsonView::Str(star_subtype(star->0))) && json::found(m, "solarRadius"@)
                == in_unit(json::num_in(json::field(scan, "Radius"@)), Unit::SolarRadius)
            &&& class is None && star is Some && json::i64_in(json::field(scan, "BodyID"@)) == Some(
                0i64,
            ) ==> json::found(m, "mainStar"@) == Some(JsonView::Bool(true))
            &&& class is None && star is Some && json::i64_in(json::field(scan, "BodyID"@)) != Some(
                0i64,
            ) ==> json::found(m, "mainStar"@) is None
            &&& class is None && star is None ==> json::found(m, "type"@) is None
            &&& json::found(m, "atmosphereType"@) == str_value(atmosphere(scan))
        }),
{
    broadcast use {lemma_found_carried, json::lemma_found_set, json::lemma_found_none};

    lemma_scan_names();
    lemma_scan_tables(
        scan,
        json::i64_in(json::field(scan, "BodyID"@))->0,
        json::str_in(json::field(scan, "BodyName"@))->0,
    );
}

/// A scan of a planet gives a planet of its class, one of a star a star of its
/// type with its radius in solar radii; the star with the first id is the main
/// one. The atmosphere is that of the type, or else the one that is described.
pub proof fn law_scans_keep_the_kind(scan: JsonView)
    requires
        scanned_body(scan) is Some,
    ensures
        ({
            let b = scanned_body(scan)->0;
            let class = json::str_in(json::field(scan, "PlanetClass"@));
            let star = json::str_in(json::field(scan, "StarType"@));
            let kind = json::str_in(json::field(scan, "AtmosphereType"@));
            let described = json::str_in(json::field(scan, "Atmosphere"@));
            &&& class is Some ==> json::str_in(json::field(b, "type"@)) == Some("Planet"@)
                && json::str_in(json::field(b, "subType"@)) == class && json::field(
                b,
                "spectralClass"@,
            ) is None && json::field(b, "mainStar"@) is None && json::field(b,
                "solarRadius"@) is None
            &&& class is None && star is Some ==> json::str_in(json::field(b, "type"@)) == Some(
                "Star"@,
            ) && json::str_in(json::field(b, "spectralClass"@)) == star && json::str_in(
                json::field(b, "subType"@),
            ) == Some(star_subtype(star->0)) && json::field(b, "solarRadius"@) == in_unit(
                json::num_in(json::field(scan, "Radius"@)),
                Unit::SolarRadius,
            ) && (json::field(b, "mainStar"@) == Some(JsonView::Bool(true)) <==> json::i64_in(
                json::field(scan, "BodyID"@),
            ) == Some(0i64))
            &&& class is None && star is None ==> json::field(b, "type"@) is None
            &&& kind is Some && kind->0.len() > 0 ==> json::str_in(json::field(b,
                "atmosphereType"@))
                == kind
            &&& (kind is None || kind->0.len() == 0) && described is Some && described->0.len() > 0
                ==> json::str_in(json::field(b, "atmosphereType"@)) == described
            &&& (kind is None || kind->0.len() == 0) && (described is None || described->0.len()
                == 0) ==> json::field(b, "atmosphereType"@) is None
        }),
{
    lemma_scanned_kind(scan);
    json::lemma_found(scanned_body(scan)->0);
}

/// What a docking tells of a station stands under the name that the dumps have
/// for it.
pub proof fn law_dockings_keep_what_is_told(d: JsonView)
    requires
        docked_station(d) is Some,
    ensures
        ({
            let s = docked_station(d)->0;
            let id = JsonView::Num(Num::Int(json::i64_in(json::field(d, "MarketID"@))->0));
            let faction = json::field(d, "StationFaction"@);
            &&& json::field(s, "id"@) == Some(id)
            &&& json::field(s, "marketId"@) == Some(id)
            &&& json::str_in(json::field(s, "name"@)) == json::str_in(
                json::field(d, "StationName"@),
            )
            &&& json::str_in(json::field(s, "type"@)) == json::str_in(
                json::field(d, "StationType"@),
            )
            &&& json::field(s, "distanceToArrival"@) == json::unless_null(
                json::field(d, "DistFromStarLS"@),
            )
            &&& json::str_in(json::field(d, "StationAllegiance"@)) matches Some(t) ==> t.len() > 0
                ==> json::str_in(json::field(s, "allegiance"@)) == Some(t)
            &&& json::str_in(json::field(d, "StationGovernment_Localised"@)) matches Some(t)
                ==> json::str_in(json::field(s, "government"@)) == Some(t)
            &&& json::str_in(json::field(d, "StationEconomy_Localised"@)) matches Some(t)
                ==> json::str_in(json::field(s, "primaryEconomy"@)) == Some(t)
            &&& json::str_in(json::field(d, "StationGovernment_Localised"@)) is None
                ==> json::str_in(json::field(s, "government"@)) == readable(
                json::str_in(json::field(d, "StationGovernment"@)),
            )
            &&& json::str_in(json::field(d, "StationEconomy_Localised"@)) is None
                ==> json::str_in(json::field(s, "primaryEconomy"@)) == readable(
                json::str_in(json::field(d, "StationEconomy"@)),
            )
            &&& json::field(s, "services"@) == json::unless_null(
                json::field(d, "StationServices"@),
            )
            &&& json::field(s, "landingPads"@) == json::unless_null(json::field(d, "LandingPads"@))
            &&& json::field(s, "economies"@) == json::unless_null(
                json::field(d, "StationEconomies"@),
            )
            &&& json::field(s, "updateTime"@) == json::field(d, "timestamp"@)
            &&& faction is Some ==> json::str_in(json::field(s, "controllingFaction"@))
                == json::str_in(json::field(faction->0, "Name"@)) && json::str_in(
                json::field(s, "controllingFactionState"@),
            ) == json::str_in(json::field(faction->0, "FactionState"@))
            &&& faction is None ==> json::field(s, "controllingFaction"@) is None
        }),
{
    broadcast use {lemma_field_carried, json::lemma_field_set};

    lemma_docking_names();
}

/// What is told of the signals of a body stands under the name that the dumps
/// have for it.
pub proof fn law_signals_keep_what_is_told(s: JsonView)
    requires
        signalled_body(s) is Some,
    ensures
        ({
            let b = signalled_body(s)->0;
            &&& json::field(b, "bodyId"@) == Some(
                JsonView::Num(Num::Int(json::i64_in(json::field(s, "BodyID"@))->0)),
            )
            &&& json::str_in(json::field(b, "name"@)) == json::str_in(json::field(s, "BodyName"@))
            &&& json::field(b, "signals"@) == json::field(s, "Signals"@)
            &&& json::field(b, "updateTime"@) == json::field(s, "timestamp"@)
        }),
{
    broadcast use {lemma_field_carried, json::lemma_field_set};

    lemma_scan_names();
}

/// The readable part of a token, where there is one.
pub open spec fn readable(raw: Option<Seq<char>>) -> Option<Seq<char>> {
    match raw {
        Some(t) => Some(stripped(t)),
        None => None,
    }
}

/// A token of a kind and a word is read as the word.
pub proof fn law_tokens_are_read_as_their_word(kind: Seq<char>, word: Seq<char>)
    requires
        kind.len() > 0,
        kind[0] != '$',
        !kind.contains('_'),
        word.len() > 0,
        word.last() != ';',
    ensures
        stripped(seq!['$'] + kind + seq!['_'] + word + seq![';']) == word,
{
    let inner = kind + seq!['_'] + word;
    let t = seq!['$'] + kind + seq!['_'] + word + seq![';'];
    let a = inner.push(';');
    assert(t.skip(1) =~= a);
    assert(a[0] == kind[0]);
    assert(trim_start(t, '$') == trim_start(a, '$'));
    assert(trim_start(a, '$') == a);
    assert(a.drop_last() =~= inner);
    assert(inner.last() == word.last());
    assert(trim_end(a, ';') == trim_end(inner, ';'));
    assert(trim_end(inner, ';') == inner);
    let k = kind.len() as int;
    assert(inner[k] == '_');
    assert(inner.contains('_'));
    assert forall|j: int| 0 <= j < k implies inner[j] != '_' by {
        assert(inner[j] == kind[j]);
    }
    inner.index_of_first_ensures('_');
    assert(inner.index_of_first('_') == Some(k));
    assert(inner.skip(k + 1) =~= word);
}

/// A message that tells of an arrival gives a system with what the message says
/// of it, each part in its own place: localised texts go before the raw ones.
pub proof fn law_jumps_keep_what_is_told(msg: JsonView)
    requires
        json::str_in(json::field(msg, "event"@)) == Some("FSDJump"@) || json::str_in(
            json::field(msg, "event"@),
        ) == Some("Location"@) || json::str_in(json::field(msg, "event"@)) == Some("CarrierJump"@),
        json::i64_in(json::field(msg, "SystemAddress"@)) is Some,
        json::str_in(json::field(msg, "StarSystem"@)) is Some,
        json::str_in(json::field(msg, "StarSystem"@))->0.len() > 0,
    ensures
        journal_system(msg) is Some,
        ({
            let s = journal_system(msg)->0;
            &&& json::i64_in(json::field(msg, "SystemAddress"@)) == Some(s.id64)
            &&& json::str_in(json::field(msg, "StarSystem"@)) == Some(s.name)
            &&& json::i64_in(json::field(msg, "Population"@)) == s.population
            &&& json::str_in(json::field(msg, "SystemAllegiance"@)) matches Some(t) ==> t.len() > 0
                ==> s.allegiance == Some(t)
            &&& json::str_in(json::field(msg, "SystemAllegiance"@)) is None ==> s.allegiance is None
            &&& json::str_in(json::field(msg, "SystemGovernment_Localised"@)) matches Some(t)
                ==> s.government == Some(t)
            &&& json::str_in(json::field(msg, "SystemGovernment_Localised"@)) is None
                ==> s.government == readable(json::str_in(json::field(msg, "SystemGovernment"@)))
            &&& json::str_in(json::field(msg, "SystemEconomy_Localised"@)) matches Some(t)
                ==> s.primary_economy == Some(t)
            &&& json::str_in(json::field(msg, "SystemEconomy_Localised"@)) is None
                ==> s.primary_economy == readable(json::str_in(json::field(msg, "SystemEconomy"@)))
            &&& json::str_in(json::field(msg, "SystemSecondEconomy_Localised"@)) matches Some(t)
                ==> s.secondary_economy == Some(t)
            &&& json::str_in(json::field(msg, "SystemSecondEconomy_Localised"@)) is None
                ==> s.secondary_economy == readable(
                json::str_in(json::field(msg, "SystemSecondEconomy"@)),
            )
            &&& json::str_in(json::field(msg, "SystemSecurity_Localised"@)) matches Some(t)
                ==> s.security == Some(t)
            &&& json::str_in(json::field(msg, "SystemSecurity_Localised"@)) is None ==> s.security
                == readable(json::str_in(json::field(msg, "SystemSecurity"@)))
            &&& json::str_in(json::field(msg, "timestamp"@)) == s.date
            &&& json::unless_null(json::field(msg, "SystemFaction"@)) == s.controlling_faction
            &&& json::unless_null(json::field(msg, "Factions"@)) == s.factions
            &&& json::str_in(json::field(msg, "PowerplayState"@)) == s.power_state
            &&& json::unless_null(json::field(msg, "Powers"@)) == s.powers
            &&& json::str_in(json::field(msg, "ControllingPower"@)) == s.controlling_power
            &&& json::num_in(json::field(msg, "PowerplayStateControlProgress"@))
                == s.power_state_control_progress
            &&& json::num_in(json::field(msg, "PowerplayStateReinforcement"@))
                == s.power_state_reinforcement
            &&& json::num_in(json::field(msg, "PowerplayStateUndermining"@))
                == s.power_state_undermining
            &&& json::unless_null(json::field(msg, "PowerplayConflictProgress"@))
                == s.power_conflict_progress
            &&& json::unless_null(json::field(msg, "ThargoidWar"@)) == s.thargoid_war
            &&& s.bodies is None && s.stations is None && s.body_count is None
        }),
        json::field(msg, "StarPos"@) matches Some(JsonView::Arr(a)) ==> a.len() == 3 && a[0] is Num
            && a[1] is Num && a[2] is Num ==> (journal_system(msg)->0.coords matches Some(c)
            && JsonView::Num(c.x) == a[0] && JsonView::Num(c.y) == a[1] && JsonView::Num(c.z)
            == a[2]),
{
}

/// A message of a scan, of signals or of a docking gives a system that is named
/// and placed, and has the one body or station of the message.
pub proof fn law_events_bring_what_they_found(msg: JsonView, id64: i64, name: Seq<char>)
    requires
        json::i64_in(json::field(msg, "SystemAddress"@)) == Some(id64),
        json::str_in(json::field(msg, "StarSystem"@)) == Some(name),
        name.len() > 0,
    ensures
        json::str_in(json::field(msg, "event"@)) == Some("Scan"@)
            ==> (scanned_body(msg) matches Some(
            b,
        ) ==> (journal_system(msg) matches Some(s) && s.id64 == id64 && s.name == name && s.bodies
            == Some(seq![b]) && s.stations is None && s.coords == star_pos(msg))),
        json::str_in(json::field(msg, "event"@)) == Some("SAASignalsFound"@) ==> (signalled_body(
            msg,
        ) matches Some(b) ==> (journal_system(msg) matches Some(s) && s.id64 == id64 && s.name
            == name
            && s.bodies == Some(seq![b]) && s.stations is None && s.coords == star_pos(msg))),
        json::str_in(json::field(msg, "event"@)) == Some("Docked"@) ==> (docked_station(
            msg,
        ) matches Some(b) ==> (journal_system(msg) matches Some(s) && s.id64 == id64 && s.name
            == name
            && s.stations == Some(seq![b]) && s.bodies is None && s.coords == star_pos(msg))),
{
    lemma_event_names();
}

/// The code of a star that is known.
pub open spec fn is_star_code(t: Seq<char>) -> bool {
    is_class_code(t) || is_wolf_rayet_code(t) || is_carbon_code(t) || is_dwarf_code(t)
        || is_other_code(t)
}

/// The letter of a class of the main sequence or of brown dwarfs.
pub open spec fn is_class_code(t: Seq<char>) -> bool {
    ||| t == "O"@
    ||| t == "B"@
    ||| t == "A"@
    ||| t == "F"@
    ||| t == "G"@
    ||| t == "K"@
    ||| t == "M"@
    ||| t == "L"@
    ||| t == "T"@
    ||| t == "Y"@
}

/// The code of a Wolf-Rayet star.
pub open spec fn is_wolf_rayet_code(t: Seq<char>) -> bool {
    ||| t == "W"@
    ||| t == "WN"@
    ||| t == "WNC"@
    ||| t == "WC"@
    ||| t == "WO"@
}

/// The code of a carbon star.
pub open spec fn is_carbon_code(t: Seq<char>) -> bool {
    ||| t == "CS"@
    ||| t == "C"@
    ||| t == "CN"@
    ||| t == "CJ"@
    ||| t == "CH"@
    ||| t == "CHd"@
}

/// The code of a white dwarf.
pub open spec fn is_dwarf_code(t: Seq<char>) -> bool {
    ||| t == "D"@
    ||| t == "DA"@
    ||| t == "DAB"@
    ||| t == "DAO"@
    ||| t == "DAZ"@
    ||| t == "DAV"@
    ||| t == "DB"@
    ||| t == "DBZ"@
    ||| t == "DBV"@
    ||| t == "DO"@
    ||| t == "DOV"@
    ||| t == "DQ"@
    ||| t == "DC"@
    ||| t == "DCV"@
    ||| t == "DX"@
}

/// The code of another star.
pub open spec fn is_other_code(t: Seq<char>) -> bool {
    ||| t == "TTS"@
    ||| t == "AeBe"@
    ||| t == "MS"@
    ||| t == "S"@
    ||| t == "N"@
    ||| t == "H"@
    ||| t == "X"@
    ||| t == "SupermassiveBlackHole"@
}

/// A star of a class is named by the letter of its class and a colour; all
/// Wolf-Rayet stars, all carbon stars and all white dwarfs are of one kind
/// each; a code that is not known is its own name.
pub proof fn law_star_codes_name_their_kind(t: Seq<char>)
    ensures
        is_class_code(t) ==> star_subtype(t).len() > 8 && star_subtype(t).take(3) == t + " ("@
            && star_subtype(t).skip(star_subtype(t).len() - 6) == ") Star"@,
        is_wolf_rayet_code(t) ==> star_subtype(t) == "Wolf-Rayet Star"@,
        is_carbon_code(t) ==> star_subtype(t) == "Carbon Star"@,
        is_dwarf_code(t) ==> star_subtype(t) == "White Dwarf"@,
        t == "TTS"@ ==> star_subtype(t) == "T Tauri Star"@,
        t == "AeBe"@ ==> star_subtype(t) == "Herbig Ae/Be Star"@,
        t == "MS"@ ==> star_subtype(t) == "MS-type Star"@,
        t == "S"@ ==> star_subtype(t) == "S-type Star"@,
        t == "N"@ ==> star_subtype(t) == "Neutron Star"@,
        t == "H"@ ==> star_subtype(t) == "Black Hole"@,
        t == "X"@ ==> star_subtype(t) == "Exotic"@,
        t == "SupermassiveBlackHole"@ ==> star_subtype(t) == "Supermassive Black Hole"@,
        (t == "O"@ || t == "B"@ || t == "A"@) ==> star_subtype(t) == t + " (Blue-White) Star"@,
        (t == "F"@) ==> star_subtype(t) == t + " (White) Star"@,
        (t == "G"@) ==> star_subtype(t) == t + " (White-Yellow) Star"@,
        (t == "K"@) ==> star_subtype(t) == t + " (Yellow-Orange) Star"@,
        (t == "M"@) ==> star_subtype(t) == t + " (Red dwarf) Star"@,
        (t == "L"@ || t == "T"@ || t == "Y"@) ==> star_subtype(t) == t + " (Brown dwarf) Star"@,
        !is_star_code(t) ==> star_subtype(t) == t,
{
    lemma_star_codes();
    if t == "O"@ {
        reveal_strlit("O (Blue-White) Star");
        reveal_strlit("O");
        reveal_strlit(" (Blue-White) Star");
        reveal_strlit(" (");
        reveal_strlit(") Star");
        assert("O (Blue-White) Star"@ =~= "O"@ + " (Blue-White) Star"@);
        assert("O (Blue-White) Star"@.take(3) =~= "O"@ + " ("@);
        assert("O (Blue-White) Star"@.skip(13) =~= ") Star"@);
    }
    if t == "B"@ {
        reveal_strlit("B (Blue-White) Star");
        reveal_strlit("B");
        reveal_strlit(" (Blue-White) Star");
        reveal_strlit(" (");
        reveal_strlit(") Star");
        assert("B (Blue-White) Star"@ =~= "B"@ + " (Blue-White) Star"@);
        assert("B (Blue-White) Star"@.take(3) =~= "B"@ + " ("@);
        assert("B (Blue-White) Star"@.skip(13) =~= ") Star"@);
    }
    if t == "A"@ {
        reveal_strlit("A (Blue-White) Star");
        reveal_strlit("A");
        reveal_strlit(" (Blue-White) Star");
        reveal_strlit(" (");
        reveal_strlit(") Star");
        assert("A (Blue-White) Star"@ =~= "A"@ + " (Blue-White) Star"@);
        assert("A (Blue-White) Star"@.take(3) =~= "A"@ + " ("@);
        assert("A (Blue-White) Star"@.skip(13) =~= ") Star"@);
    }
    if t == "F"@ {
        reveal_strlit("F (White) Star");
        reveal_strlit("F");
        reveal_strlit(" (White) Star");
        reveal_strlit(" (");
        reveal_strlit(") Star");
        assert("F (White) Star"@ =~= "F"@ + " (White) Star"@);
        assert("F (White) Star"@.take(3) =~= "F"@ + " ("@);
        assert("F (White) Star"@.skip(8) =~= ") Star"@);
    }
    if t == "G"@ {
        reveal_strlit("G (White-Yellow) Star");
        reveal_strlit("G");
        reveal_strlit(" (White-Yellow) Star");
        reveal_strlit(" (");
        reveal_strlit(") Star");
        assert("G (White-Yellow) Star"@ =~= "G"@ + " (White-Yellow) Star"@);
        assert("G (White-Yellow) Star"@.take(3) =~= "G"@ + " ("@);
        assert("G (White-Yellow) Star"@.skip(15) =~= ") Star"@);
    }
    if t == "K"@ {
        reveal_strlit("K (Yellow-Orange) Star");
        reveal_strlit("K");
        reveal_strlit(" (Yellow-Orange) Star");
        reveal_strlit(" (");
        reveal_strlit(") Star");
        assert("K (Yellow-Orange) Star"@ =~= "K"@ + " (Yellow-Orange) Star"@);
        assert("K (Yellow-Orange) Star"@.take(3) =~= "K"@ + " ("@);
        assert("K (Yellow-Orange) Star"@.skip(16) =~= ") Star"@);
    }
    if t == "M"@ {
        reveal_strlit("M (Red dwarf) Star");
        reveal_strlit("M");
        reveal_strlit(" (Red dwarf) Star");
        reveal_strlit(" (");
        reveal_strlit(") Star");
        assert("M (Red dwarf) Star"@ =~= "M"@ + " (Red dwarf) Star"@);
        assert("M (Red dwarf) Star"@.take(3) =~= "M"@ + " ("@);
        assert("M (Red dwarf) Star"@.skip(12) =~= ") Star"@);
    }
    if t == "L"@ {
        reveal_strlit("L (Brown dwarf) Star");
        reveal_strlit("L");
        reveal_strlit(" (Brown dwarf) Star");
        reveal_strlit(" (");
        reveal_strlit(") Star");
        assert("L (Brown dwarf) Star"@ =~= "L"@ + " (Brown dwarf) Star"@);
        assert("L (Brown dwarf) Star"@.take(3) =~= "L"@ + " ("@);
        assert("L (Brown dwarf) Star"@.skip(14) =~= ") Star"@);
    }
    if t == "T"@ {
        reveal_strlit("T (Brown dwarf) Star");
        reveal_strlit("T");
        reveal_strlit(" (Brown dwarf) Star");
        reveal_strlit(" (");
        reveal_strlit(") Star");
        assert("T (Brown dwarf) Star"@ =~= "T"@ + " (Brown dwarf) Star"@);
        assert("T (Brown dwarf) Star"@.take(3) =~= "T"@ + " ("@);
        assert("T (Brown dwarf) Star"@.skip(14) =~= ") Star"@);
    }
    if t == "Y"@ {
        reveal_strlit("Y (Brown dwarf) Star");
        reveal_strlit("Y");
        reveal_strlit(" (Brown dwarf) Star");
        reveal_strlit(" (");
        reveal_strlit(") Star");
        assert("Y (Brown dwarf) Star"@ =~= "Y"@ + " (Brown dwarf) Star"@);
        assert("Y (Brown dwarf) Star"@.take(3) =~= "Y"@ + " ("@);
        assert("Y (Brown dwarf) Star"@.skip(14) =~= ") Star"@);
    }
}

proof fn lemma_star_codes()
    ensures
        json::mark_of("O"@) == (1int, 'O', 'O', 'O'),
        json::mark_of("B"@) == (1int, 'B', 'B', 'B'),
        json::mark_of("A"@) == (1int, 'A', 'A', 'A'),
        json::mark_of("F"@) == (1int, 'F', 'F', 'F'),
        json::mark_of("G"@) == (1int, 'G', 'G', 'G'),
        json::mark_of("K"@) == (1int, 'K', 'K', 'K'),
        json::mark_of("M"@) == (1int, 'M', 'M', 'M'),
        json::mark_of("L"@) == (1int, 'L', 'L', 'L'),
        json::mark_of("T"@) == (1int, 'T', 'T', 'T'),
        json::mark_of("Y"@) == (1int, 'Y', 'Y', 'Y'),
        json::mark_of("TTS"@) == (3int, 'T', 'T', 'S'),
        json::mark_of("AeBe"@) == (4int, 'A', 'B', 'e'),
        json::mark_of("MS"@) == (2int, 'M', 'S', 'S'),
        json::mark_of("S"@) == (1int, 'S', 'S', 'S'),
        json::mark_of("N"@) == (1int, 'N', 'N', 'N'),
        json::mark_of("H"@) == (1int, 'H', 'H', 'H'),
        json::mark_of("X"@) == (1int, 'X', 'X', 'X'),
        json::mark_of("SupermassiveBlackHole"@) == (21int, 'S', 'v', 'e'),
        json::mark_of("W"@) == (1int, 'W', 'W', 'W'),
        json::mark_of("WN"@) == (2int, 'W', 'N', 'N'),
        json::mark_of("WNC"@) == (3int, 'W', 'N', 'C'),
        json::mark_of("WC"@) == (2int, 'W', 'C', 'C'),
        json::mark_of("WO"@) == (2int, 'W', 'O', 'O'),
        json::mark_of("CS"@) == (2int, 'C', 'S', 'S'),
        json::mark_of("C"@) == (1int, 'C', 'C', 'C'),
        json::mark_of("CN"@) == (2int, 'C', 'N', 'N'),
        json::mark_of("CJ"@) == (2int, 'C', 'J', 'J'),
        json::mark_of("CH"@) == (2int, 'C', 'H', 'H'),
        json::mark_of("CHd"@) == (3int, 'C', 'H', 'd'),
        json::mark_of("D"@) == (1int, 'D', 'D', 'D'),
        json::mark_of("DA"@) == (2int, 'D', 'A', 'A'),
        json::mark_of("DAB"@) == (3int, 'D', 'A', 'B'),
        json::mark_of("DAO"@) == (3int, 'D', 'A', 'O'),
        json::mark_of("DAZ"@) == (3int, 'D', 'A', 'Z'),
        json::mark_of("DAV"@) == (3int, 'D', 'A', 'V'),
        json::mark_of("DB"@) == (2int, 'D', 'B', 'B'),
        json::mark_of("DBZ"@) == (3int, 'D', 'B', 'Z'),
        json::mark_of("DBV"@) == (3int, 'D', 'B', 'V'),
        json::mark_of("DO"@) == (2int, 'D', 'O', 'O'),
        json::mark_of("DOV"@) == (3int, 'D', 'O', 'V'),
        json::mark_of("DQ"@) == (2int, 'D', 'Q', 'Q'),
        json::mark_of("DC"@) == (2int, 'D', 'C', 'C'),
        json::mark_of("DCV"@) == (3int, 'D', 'C', 'V'),
        json::mark_of("DX"@) == (2int, 'D', 'X', 'X'),
{
    reveal_strlit("O");
    reveal_strlit("B");
    reveal_strlit("A");
    reveal_strlit("F");
    reveal_strlit("G");
    reveal_strlit("K");
    reveal_strlit("M");
    reveal_strlit("L");
    reveal_strlit("T");
    reveal_strlit("Y");
    reveal_strlit("TTS");
    reveal_strlit("AeBe");
    reveal_strlit("MS");
    reveal_strlit("S");
    reveal_strlit("N");
    reveal_strlit("H");
    reveal_strlit("X");
    reveal_strlit("SupermassiveBlackHole");
    reveal_strlit("W");
    reveal_strlit("WN");
    reveal_strlit("WNC");
    reveal_strlit("WC");
    reveal_strlit("WO");
    reveal_strlit("CS");
    reveal_strlit("C");
    reveal_strlit("CN");
    reveal_strlit("CJ");
    reveal_strlit("CH");
    reveal_strlit("CHd");
    reveal_strlit("D");
    reveal_strlit("DA");
    reveal_strlit("DAB");
    reveal_strlit("DAO");
    reveal_strlit("DAZ");
    reveal_strlit("DAV");
    reveal_strlit("DB");
    reveal_strlit("DBZ");
    reveal_strlit("DBV");
    reveal_strlit("DO");
    reveal_strlit("DOV");
    reveal_strlit("DQ");
    reveal_strlit("DC");
    reveal_strlit("DCV");
    reveal_strlit("DX");
}

/// A system that came in counts as one message and one system, with as many
/// bodies and stations as it has; nothing else is counted.
pub proof fn law_systems_are_counted(stats: EddnStats, sys: SystemView, now: u64)
    requires
        stats.messages_processed < u64::MAX,
        stats.systems_emitted < u64::MAX,
        stats.bodies_emitted + count_of(sys.bodies) <= u64::MAX,
        stats.stations_emitted + count_of(sys.stations) <= u64::MAX,
    ensures
        ({
            let r = counted(stats, sys, now);
            &&& r.messages_processed == stats.messages_processed + 1
            &&& r.systems_emitted == stats.systems_emitted + 1
            &&& r.bodies_emitted == stats.bodies_emitted + (if sys.bodies is Some {
                sys.bodies->0.len()
            } else {
                0
            })
            &&& r.stations_emitted == stats.stations_emitted + (if sys.stations is Some {
                sys.stations->0.len()
            } else {
                0
            })
            &&& r.last_message_time == now
            &&& r.messages_received == stats.messages_received
            &&& r.messages_dropped == stats.messages_dropped
            &&& r.reconnects == stats.reconnects
            &&& r.connected == stats.connected
        }),
{
}

/// A message of a journal brings what it tells; an envelope of another schema,
/// or without a message, brings nothing.
pub proof fn law_only_journals_are_read(envelope: JsonView, message: JsonView, schema: Seq<char>)
    ensures
        json::field(envelope, "$schemaRef"@) == Some(JsonView::Str(schema)) && json::field(
            envelope,
            "message"@,
        ) == Some(message) && text::stands_at(schema, "https://eddn.edcd.io/schemas/journal/"@, 0)
            ==> envelope_system(envelope) == journal_system(message),
        json::field(envelope, "$schemaRef"@) == Some(JsonView::Str(schema)) && !text::stands_at(
            schema,
            "https://eddn.edcd.io/schemas/journal/"@,
            0,
        ) ==> envelope_system(envelope) is None,
        json::field(envelope, "$schemaRef"@) is None ==> envelope_system(envelope) is None,
        json::field(envelope, "message"@) is None ==> envelope_system(envelope) is None,
{
}

} // verus!
