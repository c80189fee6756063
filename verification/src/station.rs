//! The search for the stations nearest to a system.

use crate::clause;
use crate::clause::{Clause, Part, Term, Test, World};
use crate::db;
use crate::db::{Param, ParamView};
use crate::json;
use crate::json::{string, Json, JsonView, Num, Object};
use crate::models::NearestStationQuery;
use crate::order;
use crate::order::order;
use crate::sql;
use crate::sql::DbRow;
use crate::system;
use crate::system::services_json;
use crate::text;
use crate::text::{decimal_i64, same, same_ignoring_case, to_lowercase};
use vstd::prelude::*;

verus! {

/// What a search for stations asks for.
pub struct StationFilter {
    pub ignore_carriers: bool,
    pub use_surface: bool,
    pub allegiance: Option<String>,
    pub government: Option<String>,
    pub economy: Option<String>,
    pub station_type: Option<String>,
    pub max_distance: Option<Num>,
    pub large_pad: bool,
    pub medium_pad: bool,
}

/// What a search for stations asks for, as mathematics.
pub struct StationFilterView {
    pub ignore_carriers: bool,
    pub use_surface: bool,
    pub allegiance: Option<Seq<char>>,
    pub government: Option<Seq<char>>,
    pub economy: Option<Seq<char>>,
    pub station_type: Option<Seq<char>>,
    pub max_distance: Option<Num>,
    pub large_pad: bool,
    pub medium_pad: bool,
}

impl StationFilter {
    pub open spec fn view(&self) -> StationFilterView {
        StationFilterView {
            ignore_carriers: self.ignore_carriers,
            use_surface: self.use_surface,
            allegiance: json::text_view(self.allegiance),
            government: json::text_view(self.government),
            economy: json::text_view(self.economy),
            station_type: json::text_view(self.station_type),
            max_distance: self.max_distance,
            large_pad: self.large_pad,
            medium_pad: self.medium_pad,
        }
    }
}

/// A choice that narrows the search: neither empty nor `any`, in whatever case.
pub open spec fn narrowing(s: Option<Seq<char>>) -> Option<Seq<char>> {
    match s {
        Some(t) => if text::ascii_lower_all(t) == text::ascii_lower_all("any"@) || t.len() == 0 {
            None
        } else {
            Some(t)
        },
        None => None,
    }
}

fn narrow(s: &Option<String>) -> (r: Option<String>)
    ensures
        json::text_view(r) == narrowing(json::text_view(*s)),
{
    match s {
        Some(t) => {
            if same_ignoring_case(t.as_str(), "any") || t.as_str().is_empty() {
                None
            } else {
                Some(t.clone())
            }
        },
        None => None,
    }
}

/// What a query asks for; `pad` is the smallest landing pad, in lower case.
pub open spec fn filter_of(q: &NearestStationQuery, pad: Seq<char>) -> StationFilterView {
    StationFilterView {
        ignore_carriers: match q.ignore_fleet_carriers {
            Some(b) => b,
            None => true,
        },
        use_surface: q.use_surface_stations,
        allegiance: narrowing(json::text_view(q.allegiance)),
        government: narrowing(json::text_view(q.government)),
        economy: narrowing(json::text_view(q.economy)),
        station_type: narrowing(json::text_view(q.station_type)),
        max_distance: q.max_station_distance,
        large_pad: pad == "large"@,
        medium_pad: pad == "medium"@ || pad == "large"@,
    }
}

/// The smallest landing pad that a query names, in lower case.
pub open spec fn pad_of(q: &NearestStationQuery) -> Seq<char> {
    match json::text_view(q.min_landing_pad) {
        Some(p) => text::lowercase(p),
        None => Seq::empty(),
    }
}

/// What a query asks for, where `pad` is the smallest landing pad in lower
/// case.
pub fn station_filter_for(q: &NearestStationQuery, pad: &str) -> (r: StationFilter)
    ensures
        r@ == filter_of(q, pad@),
{
    StationFilter {
        ignore_carriers: match q.ignore_fleet_carriers {
            Some(b) => b,
            None => true,
        },
        use_surface: q.use_surface_stations,
        allegiance: narrow(&q.allegiance),
        government: narrow(&q.government),
        economy: narrow(&q.economy),
        station_type: narrow(&q.station_type),
        max_distance: match &q.max_station_distance {
            Some(n) => Some(n.copy()),
            None => None,
        },
        large_pad: same(pad, "large"),
        medium_pad: same(pad, "medium") || same(pad, "large"),
    }
}

/// What a query asks for.
pub fn station_filter(q: &NearestStationQuery) -> (r: StationFilter)
    ensures
        r@ == filter_of(q, pad_of(q)),
{
    let pad = match &q.min_landing_pad {
        Some(p) => to_lowercase(p.as_str()),
        None => String::new(),
    };
    station_filter_for(q, pad.as_str())
}

/// How many stations a query wants: between 1 and 100, and 25 where it does
/// not say.
pub open spec fn wanted(limit: Option<usize>) -> int {
    match limit {
        Some(n) => if n < 1 {
            1
        } else if n > 100 {
            100
        } else {
            n as int
        },
        None => 25,
    }
}

/// How many stations a query wants.
pub fn result_limit(limit: Option<usize>) -> (r: usize)
    ensures
        r == wanted(limit),
{
    match limit {
        Some(n) => if n < 1 {
            1
        } else if n > 100 {
            100
        } else {
            n
        },
        None => 25,
    }
}

/// What is read of a station.
pub const SQL_COLUMNS: &'static str = "SELECT s.id64 AS systemId64, s.name AS systemName,
                    i.minX AS x, i.minY AS y, i.minZ AS z,
                    st.id AS stationId, st.name AS stationName,
                    st.type AS stationType, st.distanceToArrival,
                    st.allegiance AS stAllegiance, st.government AS stGovernment,
                    st.economy AS stEconomy, st.secondEconomy,
                    st.haveMarket, st.haveShipyard, st.haveOutfitting,
                    st.otherServices, st.updateTime, st.landingPads,
                    st.latitude, st.longitude, st.controllingFaction,
                    st.state, st.carrierDockingAccess, st.realName, st.carrierName ";

/// The stations of all systems.
pub const SQL_FROM_ALL: &'static str = "FROM systems_index i
                 JOIN systems s  ON i.id = s.id64
                 JOIN stations st ON st.systemId64 = s.id64
                 WHERE 1=1";

/// The stations of the systems in a cube.
pub const SQL_FROM_CUBE: &'static str = "FROM systems_index i
                 JOIN systems s  ON i.id = s.id64
                 JOIN stations st ON st.systemId64 = s.id64
                 WHERE i.minX >= ? AND i.maxX <= ?
                   AND i.minY >= ? AND i.maxY <= ?
                   AND i.minZ >= ? AND i.maxZ <= ?";

/// The text `s` with the text `t` behind it, where `asked`.
pub open spec fn append_if(s: Seq<char>, asked: bool, t: Seq<char>) -> Seq<char> {
    if asked {
        s + t
    } else {
        s
    }
}

/// The condition on the landing pads.
pub open spec fn pad_condition(f: StationFilterView) -> Seq<char> {
    if f.large_pad {
        " AND COALESCE(json_extract(st.landingPads,'$.large'),json_extract(st.landingPads,'$.Large'),0) > 0"@
    } else if f.medium_pad {
        " AND (COALESCE(json_extract(st.landingPads,'$.large'),json_extract(st.landingPads,'$.Large'),0) > 0 OR COALESCE(json_extract(st.landingPads,'$.medium'),json_extract(st.landingPads,'$.Medium'),0) > 0)"@
    } else {
        Seq::empty()
    }
}

/// The order by distance from a place, and the cut behind the nearest.
pub const SQL_NEAREST_FIRST: &'static str = " ORDER BY (i.minX-?)*(i.minX-?) + (i.minY-?)*(i.minY-?) + (i.minZ-?)*(i.minZ-?) LIMIT 2000";

/// The query that finds stations, in a cube or in all systems: each filter is
/// a condition on the station's own columns, and the nearest come first.
pub open spec fn station_query(f: StationFilterView, in_cube: bool) -> Seq<char> {
    let s = SQL_COLUMNS@ + if in_cube {
        SQL_FROM_CUBE@
    } else {
        SQL_FROM_ALL@
    };
    let s = append_if(s, f.ignore_carriers, " AND st.type != 'Drake-Class Carrier'"@);
    let s = append_if(s, !f.use_surface, " AND st.latitude IS NULL"@);
    let s = append_if(s, f.allegiance is Some, " AND st.allegiance = ? COLLATE NOCASE"@);
    let s = append_if(s, f.government is Some, " AND st.government = ? COLLATE NOCASE"@);
    let s = append_if(s, f.economy is Some, " AND st.economy = ? COLLATE NOCASE"@);
    let s = append_if(s, f.station_type is Some, " AND st.type = ? COLLATE NOCASE"@);
    let s = append_if(
        s,
        f.max_distance is Some,
        " AND (st.distanceToArrival IS NULL OR st.distanceToArrival <= ?)"@,
    );
    s + pad_condition(f) + SQL_NEAREST_FIRST@
}

/// The query that finds stations, in a cube or in all systems.
pub fn station_sql(f: &StationFilter, in_cube: bool) -> (r: String)
    ensures
        r@ == station_query(f@, in_cube),
{
    let mut sql = SQL_COLUMNS.to_owned();
    if in_cube {
        sql.append(SQL_FROM_CUBE);
    } else {
        sql.append(SQL_FROM_ALL);
    }
    if f.ignore_carriers {
        sql.append(" AND st.type != 'Drake-Class Carrier'");
    }
    if !f.use_surface {
        sql.append(" AND st.latitude IS NULL");
    }
    if f.allegiance.is_some() {
        sql.append(" AND st.allegiance = ? COLLATE NOCASE");
    }
    if f.government.is_some() {
        sql.append(" AND st.government = ? COLLATE NOCASE");
    }
    if f.economy.is_some() {
        sql.append(" AND st.economy = ? COLLATE NOCASE");
    }
    if f.station_type.is_some() {
        sql.append(" AND st.type = ? COLLATE NOCASE");
    }
    if f.max_distance.is_some() {
        sql.append(" AND (st.distanceToArrival IS NULL OR st.distanceToArrival <= ?)");
    }
    let ghost before = sql@;
    if f.large_pad {
        sql.append(
            " AND COALESCE(json_extract(st.landingPads,'$.large'),json_extract(st.landingPads,'$.Large'),0) > 0",
        );
    } else if f.medium_pad {
        sql.append(
            " AND (COALESCE(json_extract(st.landingPads,'$.large'),json_extract(st.landingPads,'$.Large'),0) > 0 OR COALESCE(json_extract(st.landingPads,'$.medium'),json_extract(st.landingPads,'$.Medium'),0) > 0)",
        );
    }
    assert(sql@ =~= before + pad_condition(f@));
    sql.append(SQL_NEAREST_FIRST);
    sql
}

/// `v` with the text `s` behind it, where there is one.
pub open spec fn push_text(v: Seq<ParamView>, s: Option<Seq<char>>) -> Seq<ParamView> {
    match s {
        Some(t) => v.push(ParamView::Text(t)),
        None => v,
    }
}

/// The values of the query, in the order of its marks: the bounds of the cube
/// that is searched, if one is, then what is asked for, then the place by the
/// distance from which the stations are ordered.
pub open spec fn station_values(
    f: StationFilterView,
    bounds: Seq<ParamView>,
    place: (Num, Num, Num),
) -> Seq<ParamView> {
    let v = push_text(bounds, f.allegiance);
    let v = push_text(v, f.government);
    let v = push_text(v, f.economy);
    let v = push_text(v, f.station_type);
    let v = match f.max_distance {
        Some(n) => v.push(ParamView::Double(n)),
        None => v,
    };
    push_twice(push_twice(push_twice(v, place.0), place.1), place.2)
}

/// `v` with a number behind it, twice.
pub open spec fn push_twice(v: Seq<ParamView>, n: Num) -> Seq<ParamView> {
    v.push(ParamView::Double(n)).push(ParamView::Double(n))
}

fn add_twice(v: &mut Vec<Param>, n: &Num)
    ensures
        db::param_views(final(v)@) == push_twice(db::param_views(old(v)@), *n),
{
    let ghost before = db::param_views(v@);
    v.push(Param::Double(n.copy()));
    v.push(Param::Double(n.copy()));
    assert(db::param_views(v@) =~= push_twice(before, *n));
}

fn add_text(v: &mut Vec<Param>, s: &Option<String>)
    ensures
        db::param_views(final(v)@) == push_text(db::param_views(old(v)@), json::text_view(*s)),
{
    let ghost before = db::param_views(v@);
    match s {
        Some(t) => {
            v.push(Param::Text(t.clone()));
            assert(db::param_views(v@) =~= before.push(ParamView::Text(t@)));
        },
        None => {},
    }
}

/// The values of the query, in the order of its marks.
pub fn station_params(f: &StationFilter, bounds: Vec<Param>, place: &(Num, Num, Num)) -> (r: Vec<
    Param,
>)
    ensures
        db::param_views(r@) == station_values(f@, db::param_views(bounds@), *place),
{
    let mut v = bounds;
    add_text(&mut v, &f.allegiance);
    add_text(&mut v, &f.government);
    add_text(&mut v, &f.economy);
    add_text(&mut v, &f.station_type);
    match &f.max_distance {
        Some(n) => {
            let ghost before = db::param_views(v@);
            v.push(Param::Double(n.copy()));
            assert(db::param_views(v@) =~= before.push(ParamView::Double(*n)));
        },
        None => {},
    }
    add_twice(&mut v, &place.0);
    add_twice(&mut v, &place.1);
    add_twice(&mut v, &place.2);
    v
}

/// A condition on a column that equals a text, whatever its case.
pub open spec fn equals_no_case(column: Seq<char>, t: Option<Seq<char>>) -> Part {
    Part::One(
        Clause::Compare(
            Term::Column(column),
            Test::EqualNoCase,
            Term::Mark(ParamView::Text(t->0)),
        ),
    )
}

/// A station has landing pads of a kind: more than none.
pub open spec fn has_pad(small: Seq<char>, large: Seq<char>) -> Clause {
    Clause::Compare(
        Term::First(
            Box::new(Term::Member("st.landingPads"@, small)),
            Box::new(Term::Member("st.landingPads"@, large)),
            Box::new(Term::Number(0)),
        ),
        Test::More,
        Term::Number(0),
    )
}

proof fn lemma_text_carriers()
    ensures
        " AND st.type != 'Drake-Class Carrier'"@ == " AND "@ + clause::part_text(no_carrier()),
{
    reveal_strlit(" AND st.type != 'Drake-Class Carrier'");
    reveal_strlit(" AND ");
    reveal_strlit("st.type");
    reveal_strlit(" != ");
    reveal_strlit("'");
    reveal_strlit("Drake-Class Carrier");
    assert(" AND st.type != 'Drake-Class Carrier'"@ =~= " AND "@ + clause::part_text(no_carrier()));
}

proof fn lemma_text_surface()
    ensures
        " AND st.latitude IS NULL"@ == " AND "@ + clause::part_text(no_surface()),
{
    reveal_strlit(" AND st.latitude IS NULL");
    reveal_strlit(" AND ");
    reveal_strlit("st.latitude");
    reveal_strlit(" IS NULL");
    assert(" AND st.latitude IS NULL"@ =~= " AND "@ + clause::part_text(no_surface()));
}

proof fn lemma_text_allegiance(t: Option<Seq<char>>)
    ensures
        " AND st.allegiance = ? COLLATE NOCASE"@ == " AND "@
            + clause::part_text(equals_no_case("st.allegiance"@, t)),
{
    reveal_strlit(" AND st.allegiance = ? COLLATE NOCASE");
    reveal_strlit(" AND ");
    reveal_strlit("st.allegiance");
    reveal_strlit(" = ");
    reveal_strlit("?");
    reveal_strlit(" COLLATE NOCASE");
    assert(" AND st.allegiance = ? COLLATE NOCASE"@ =~= " AND "@
        + clause::part_text(equals_no_case("st.allegiance"@, t)));
}

proof fn lemma_text_government(t: Option<Seq<char>>)
    ensures
        " AND st.government = ? COLLATE NOCASE"@ == " AND "@
            + clause::part_text(equals_no_case("st.government"@, t)),
{
    reveal_strlit(" AND st.government = ? COLLATE NOCASE");
    reveal_strlit(" AND ");
    reveal_strlit("st.government");
    reveal_strlit(" = ");
    reveal_strlit("?");
    reveal_strlit(" COLLATE NOCASE");
    assert(" AND st.government = ? COLLATE NOCASE"@ =~= " AND "@
        + clause::part_text(equals_no_case("st.government"@, t)));
}

proof fn lemma_text_economy(t: Option<Seq<char>>)
    ensures
        " AND st.economy = ? COLLATE NOCASE"@ == " AND "@
            + clause::part_text(equals_no_case("st.economy"@, t)),
{
    reveal_strlit(" AND st.economy = ? COLLATE NOCASE");
    reveal_strlit(" AND ");
    reveal_strlit("st.economy");
    reveal_strlit(" = ");
    reveal_strlit("?");
    reveal_strlit(" COLLATE NOCASE");
    assert(" AND st.economy = ? COLLATE NOCASE"@ =~= " AND "@
        + clause::part_text(equals_no_case("st.economy"@, t)));
}

proof fn lemma_text_type(t: Option<Seq<char>>)
    ensures
        " AND st.type = ? COLLATE NOCASE"@ == " AND "@
            + clause::part_text(equals_no_case("st.type"@, t)),
{
    reveal_strlit(" AND st.type = ? COLLATE NOCASE");
    reveal_strlit(" AND ");
    reveal_strlit("st.type");
    reveal_strlit(" = ");
    reveal_strlit("?");
    reveal_strlit(" COLLATE NOCASE");
    assert(" AND st.type = ? COLLATE NOCASE"@ =~= " AND "@
        + clause::part_text(equals_no_case("st.type"@, t)));
}

proof fn lemma_text_distance(v: ParamView)
    ensures
        " AND (st.distanceToArrival IS NULL OR st.distanceToArrival <= ?)"@ == " AND "@
            + clause::part_text(near_arrival(v)),
{
    clause::lemma_either(is_unknown(), is_near(v));
    reveal_strlit(" AND (st.distanceToArrival IS NULL OR st.distanceToArrival <= ?)");
    reveal_strlit(" AND ");
    reveal_strlit("st.distanceToArrival");
    reveal_strlit(" IS NULL");
    reveal_strlit(" <= ");
    reveal_strlit("?");
    reveal_strlit("(");
    reveal_strlit(" OR ");
    reveal_strlit(")");
    assert(" AND (st.distanceToArrival IS NULL OR st.distanceToArrival <= ?)"@ =~= " AND "@ + ("("@
        + (clause::clause_text(is_unknown()) + " OR "@ + clause::clause_text(is_near(v))) + ")"@));
}

/// It is not known how far a station is from the arrival.
pub open spec fn is_unknown() -> Clause {
    Clause::IsNull("st.distanceToArrival"@)
}

/// A station is no farther from the arrival than a value.
pub open spec fn is_near(v: ParamView) -> Clause {
    Clause::Compare(Term::Column("st.distanceToArrival"@), Test::AtMost, Term::Mark(v))
}

proof fn lemma_text_pads()
    ensures
        clause::clause_text(has_pad("large"@, "Large"@))
            == "COALESCE(json_extract(st.landingPads,'$.large'),json_extract(st.landingPads,'$.Large'),0) > 0"@,
        clause::clause_text(has_pad("medium"@, "Medium"@))
            == "COALESCE(json_extract(st.landingPads,'$.medium'),json_extract(st.landingPads,'$.Medium'),0) > 0"@,
{
    assert(clause::clause_text(has_pad("large"@,
        "Large"@)) =~= "COALESCE(json_extract(st.landingPads,'$.large'),json_extract(st.landingPads,'$.Large'),0) > 0"@) by {
        reveal_with_fuel(clause::term_text, 3);
        reveal_with_fuel(text::numeral, 2);
    reveal_strlit("COALESCE(json_extract(st.landingPads,'$.large'),json_extract(st.landingPads,'$.Large'),0) > 0");
    reveal_strlit("json_extract(");
    reveal_strlit("st.landingPads");
    reveal_strlit(",'$.");
    reveal_strlit("')");
    reveal_strlit("COALESCE(");
    reveal_strlit(",");
    reveal_strlit(")");
    reveal_strlit(" > ");
    reveal_strlit("large");
    reveal_strlit("Large");
    }
    assert(clause::clause_text(has_pad("medium"@,
        "Medium"@)) =~= "COALESCE(json_extract(st.landingPads,'$.medium'),json_extract(st.landingPads,'$.Medium'),0) > 0"@) by {
        reveal_with_fuel(clause::term_text, 3);
        reveal_with_fuel(text::numeral, 2);
    reveal_strlit("COALESCE(json_extract(st.landingPads,'$.medium'),json_extract(st.landingPads,'$.Medium'),0) > 0");
    reveal_strlit("json_extract(");
    reveal_strlit("st.landingPads");
    reveal_strlit(",'$.");
    reveal_strlit("')");
    reveal_strlit("COALESCE(");
    reveal_strlit(",");
    reveal_strlit(")");
    reveal_strlit(" > ");
    reveal_strlit("medium");
    reveal_strlit("Medium");
    }
}

proof fn lemma_text_large()
    ensures
        " AND COALESCE(json_extract(st.landingPads,'$.large'),json_extract(st.landingPads,'$.Large'),0) > 0"@
            == " AND "@ + clause::part_text(has_large()),
{
    lemma_text_pads();
    reveal_strlit(" AND COALESCE(json_extract(st.landingPads,'$.large'),json_extract(st.landingPads,'$.Large'),0) > 0");
    reveal_strlit(" AND ");
    reveal_strlit("COALESCE(json_extract(st.landingPads,'$.large'),json_extract(st.landingPads,'$.Large'),0) > 0");
    assert(" AND COALESCE(json_extract(st.landingPads,'$.large'),json_extract(st.landingPads,'$.Large'),0) > 0"@ =~= " AND "@
        + "COALESCE(json_extract(st.landingPads,'$.large'),json_extract(st.landingPads,'$.Large'),0) > 0"@);
}

proof fn lemma_text_medium()
    ensures
        " AND (COALESCE(json_extract(st.landingPads,'$.large'),json_extract(st.landingPads,'$.Large'),0) > 0 OR COALESCE(json_extract(st.landingPads,'$.medium'),json_extract(st.landingPads,'$.Medium'),0) > 0)"@
            == " AND "@ + clause::part_text(has_medium()),
{
    lemma_text_pads();
    clause::lemma_either(has_pad("large"@, "Large"@), has_pad("medium"@, "Medium"@));
    reveal_strlit(" AND (COALESCE(json_extract(st.landingPads,'$.large'),json_extract(st.landingPads,'$.Large'),0) > 0 OR COALESCE(json_extract(st.landingPads,'$.medium'),json_extract(st.landingPads,'$.Medium'),0) > 0)");
    reveal_strlit(" AND ");
    reveal_strlit("COALESCE(json_extract(st.landingPads,'$.large'),json_extract(st.landingPads,'$.Large'),0) > 0");
    reveal_strlit("COALESCE(json_extract(st.landingPads,'$.medium'),json_extract(st.landingPads,'$.Medium'),0) > 0");
    reveal_strlit("(");
    reveal_strlit(")");
    reveal_strlit(" OR ");
    assert(" AND (COALESCE(json_extract(st.landingPads,'$.large'),json_extract(st.landingPads,'$.Large'),0) > 0 OR COALESCE(json_extract(st.landingPads,'$.medium'),json_extract(st.landingPads,'$.Medium'),0) > 0)"@ =~= " AND "@
        + ("("@
        + ("COALESCE(json_extract(st.landingPads,'$.large'),json_extract(st.landingPads,'$.Large'),0) > 0"@
        + " OR "@
        + "COALESCE(json_extract(st.landingPads,'$.medium'),json_extract(st.landingPads,'$.Medium'),0) > 0"@)
        + ")"@));
}

/// A station is what a filter asks for: of the station's own columns, its kind,
/// allegiance, government and economy are those asked for, it is no carrier
/// and not on a surface where those are left out, it is not known to be farther
/// from the arrival than is wanted, and it has the pads that are wanted.
pub open spec fn is_wanted(f: StationFilterView, w: World) -> bool {
    &&& f.ignore_carriers ==> (w.row)("st.type"@) !is Null && (w.row)("st.type"@)
        != ParamView::Text("Drake-Class Carrier"@)
    &&& !f.use_surface ==> (w.row)("st.latitude"@) is Null
    &&& f.allegiance matches Some(t) ==> clause::same_text(
        (w.row)("st.allegiance"@),
        ParamView::Text(t),
    )
    &&& f.government matches Some(t) ==> clause::same_text(
        (w.row)("st.government"@),
        ParamView::Text(t),
    )
    &&& f.economy matches Some(t) ==> clause::same_text((w.row)("st.economy"@), ParamView::Text(t))
    &&& f.station_type matches Some(t) ==> clause::same_text((w.row)("st.type"@),
        ParamView::Text(t))
    &&& f.max_distance matches Some(n) ==> (w.row)("st.distanceToArrival"@) is Null || (w.at_most)(
        (w.row)("st.distanceToArrival"@),
        ParamView::Double(n),
    )
    &&& f.large_pad ==> pads_of(w, "large"@, "Large"@)
    &&& f.medium_pad && !f.large_pad ==> pads_of(w, "large"@, "Large"@) || pads_of(
        w,
        "medium"@,
        "Medium"@,
    )
}

/// A station has pads of a kind: the number under either name is more than
/// none.
pub open spec fn pads_of(w: World, small: Seq<char>, large: Seq<char>) -> bool {
    let a = (w.member)((w.row)("st.landingPads"@), small);
    let b = (w.member)((w.row)("st.landingPads"@), large);
    let n = if a !is Null {
        a
    } else if b !is Null {
        b
    } else {
        ParamView::Int(0)
    };
    !(w.at_most)(n, ParamView::Int(0))
}


/// A station is no carrier.
pub open spec fn no_carrier() -> Part {
    Part::One(
        Clause::Compare(
            Term::Column("st.type"@),
            Test::Differs,
            Term::Text("Drake-Class Carrier"@),
        ),
    )
}

/// A station is not on a surface.
pub open spec fn no_surface() -> Part {
    Part::One(Clause::IsNull("st.latitude"@))
}

/// A station is not known to be farther from the arrival than a value.
pub open spec fn near_arrival(v: ParamView) -> Part {
    clause::either(is_unknown(), is_near(v))
}

/// A station has large pads.
pub open spec fn has_large() -> Part {
    Part::One(has_pad("large"@, "Large"@))
}

/// A station has large or medium pads.
pub open spec fn has_medium() -> Part {
    clause::either(has_pad("large"@, "Large"@), has_pad("medium"@, "Medium"@))
}

proof fn lemma_part_values(f: StationFilterView, v: ParamView)
    ensures
        clause::part_values(no_carrier()) == Seq::<ParamView>::empty(),
        clause::part_values(no_surface()) == Seq::<ParamView>::empty(),
        forall|c: Seq<char>, t: Option<Seq<char>>| #[trigger]
            clause::part_values(equals_no_case(c, t)) == seq![ParamView::Text(t->0)],
        clause::part_values(near_arrival(v)) == seq![v],
        clause::part_values(has_large()) == Seq::<ParamView>::empty(),
        clause::part_values(has_medium()) == Seq::<ParamView>::empty(),
{
    clause::lemma_either(is_unknown(), is_near(v));
    clause::lemma_either(has_pad("large"@, "Large"@), has_pad("medium"@, "Medium"@));
    reveal_with_fuel(clause::term_values, 3);
    assert(clause::part_values(no_carrier()) =~= Seq::<ParamView>::empty());
    assert forall|c: Seq<char>, t: Option<Seq<char>>| #[trigger]
        clause::part_values(equals_no_case(c, t)) == seq![ParamView::Text(t->0)] by {
        assert(clause::part_values(equals_no_case(c, t)) =~= seq![ParamView::Text(t->0)]);
    }
    assert(clause::part_values(near_arrival(v)) =~= seq![v]);
    assert(clause::part_values(has_large()) =~= Seq::<ParamView>::empty());
    assert(clause::part_values(has_medium()) =~= Seq::<ParamView>::empty());
}

proof fn lemma_parts_mean(f: StationFilterView, v: ParamView, w: World)
    requires
        v !is Null,
    ensures
        clause::part_holds(no_carrier(), w) <==> (w.row)("st.type"@) !is Null && (w.row)(
            "st.type"@,
        ) != ParamView::Text("Drake-Class Carrier"@),
        clause::part_holds(no_surface(), w) <==> (w.row)("st.latitude"@) is Null,
        forall|c: Seq<char>, t: Option<Seq<char>>| #[trigger]
            clause::part_holds(equals_no_case(c, t), w) <==> clause::same_text(
                (w.row)(c),
                ParamView::Text(t->0),
            ),
        clause::part_holds(near_arrival(v), w) <==> (w.row)("st.distanceToArrival"@) is Null || (
        w.at_most)((w.row)("st.distanceToArrival"@), v),
        clause::part_holds(has_large(), w) <==> pads_of(w, "large"@, "Large"@),
        clause::part_holds(has_medium(), w) <==> pads_of(w, "large"@, "Large"@) || pads_of(
            w,
            "medium"@,
            "Medium"@,
        ),
{
    clause::lemma_either(is_unknown(), is_near(v));
    clause::lemma_either(has_pad("large"@, "Large"@), has_pad("medium"@, "Medium"@));
    reveal_with_fuel(clause::value, 3);
}

/// The query for stations lets through exactly the stations that the filter
/// asks for: it is made of conditions that, with the values that go with them,
/// hold of those and of no others.
pub proof fn law_queries_let_through_what_is_wanted(
    f: StationFilterView,
    in_cube: bool,
    bounds: Seq<ParamView>,
    place: (Num, Num, Num),
)
    ensures
        exists|ps: Seq<Part>|
            {
                &&& station_query(f, in_cube) == SQL_COLUMNS@ + (if in_cube {
                    SQL_FROM_CUBE@
                } else {
                    SQL_FROM_ALL@
                }) + #[trigger] clause::parts_text(ps) + SQL_NEAREST_FIRST@
                &&& station_values(f, bounds, place) == bounds + clause::parts_values(ps)
                    + place_values(place)
                &&& forall|w: World| #[trigger] clause::parts_hold(ps, w) <==> is_wanted(f, w)
            },
{
    let head = SQL_COLUMNS@ + if in_cube {
        SQL_FROM_CUBE@
    } else {
        SQL_FROM_ALL@
    };
    let v = ParamView::Double(f.max_distance->0);
    let asked = filters_asked(f);
    let parts = filter_parts(f, v);
    lemma_filter_texts(f, v);
    lemma_part_values(f, v);
    clause::lemma_chosen(head, bounds, asked, parts, filter_texts(), filter_values(f, v), 9);
    let ps = clause::chosen(asked, parts, 9);
    lemma_query_filters(f, head);
    assert(station_query(f, in_cube) == head + clause::parts_text(ps) + SQL_NEAREST_FIRST@);
    lemma_values_filters(f, v, bounds, place);
    assert forall|w: World| #[trigger] clause::parts_hold(ps, w) <==> is_wanted(f, w) by {
        lemma_filters_mean(f, v, w);
    }
}

/// Which conditions a filter asks for.
spec fn filters_asked(f: StationFilterView) -> Seq<bool> {
    seq![
        f.ignore_carriers,
        !f.use_surface,
        f.allegiance is Some,
        f.government is Some,
        f.economy is Some,
        f.station_type is Some,
        f.max_distance is Some,
        f.large_pad,
        f.medium_pad && !f.large_pad,
    ]
}

/// The conditions of a filter.
spec fn filter_parts(f: StationFilterView, v: ParamView) -> Seq<Part> {
    seq![
        no_carrier(),
        no_surface(),
        equals_no_case("st.allegiance"@, f.allegiance),
        equals_no_case("st.government"@, f.government),
        equals_no_case("st.economy"@, f.economy),
        equals_no_case("st.type"@, f.station_type),
        near_arrival(v),
        has_large(),
        has_medium(),
    ]
}

/// The texts of the conditions of a filter.
spec fn filter_texts() -> Seq<Seq<char>> {
    seq![
        " AND st.type != 'Drake-Class Carrier'"@,
        " AND st.latitude IS NULL"@,
        " AND st.allegiance = ? COLLATE NOCASE"@,
        " AND st.government = ? COLLATE NOCASE"@,
        " AND st.economy = ? COLLATE NOCASE"@,
        " AND st.type = ? COLLATE NOCASE"@,
        " AND (st.distanceToArrival IS NULL OR st.distanceToArrival <= ?)"@,
        " AND COALESCE(json_extract(st.landingPads,'$.large'),json_extract(st.landingPads,'$.Large'),0) > 0"@,
        " AND (COALESCE(json_extract(st.landingPads,'$.large'),json_extract(st.landingPads,'$.Large'),0) > 0 OR COALESCE(json_extract(st.landingPads,'$.medium'),json_extract(st.landingPads,'$.Medium'),0) > 0)"@,
    ]
}

/// The values of the conditions of a filter.
spec fn filter_values(f: StationFilterView, v: ParamView) -> Seq<Seq<ParamView>> {
    seq![
        Seq::empty(),
        Seq::empty(),
        seq![ParamView::Text(f.allegiance->0)],
        seq![ParamView::Text(f.government->0)],
        seq![ParamView::Text(f.economy->0)],
        seq![ParamView::Text(f.station_type->0)],
        seq![v],
        Seq::empty(),
        Seq::empty(),
    ]
}

proof fn lemma_filter_texts(f: StationFilterView, v: ParamView)
    ensures
        forall|i: int|
            0 <= i < 9 ==> #[trigger] filter_texts()[i] == " AND "@ + clause::part_text(
                filter_parts(f, v)[i],
            ),
{
    lemma_text_carriers();
    lemma_text_surface();
    lemma_text_allegiance(f.allegiance);
    lemma_text_government(f.government);
    lemma_text_economy(f.economy);
    lemma_text_type(f.station_type);
    lemma_text_distance(v);
    lemma_text_large();
    lemma_text_medium();
}

proof fn lemma_query_filters(f: StationFilterView, head: Seq<char>)
    requires
        head == SQL_COLUMNS@ + SQL_FROM_CUBE@ || head == SQL_COLUMNS@ + SQL_FROM_ALL@,
    ensures
        head == SQL_COLUMNS@ + SQL_FROM_CUBE@ ==> station_query(f, true) == clause::text_behind(
            head,
            filters_asked(f),
            filter_texts(),
            9,
        ) + SQL_NEAREST_FIRST@,
        head == SQL_COLUMNS@ + SQL_FROM_ALL@ ==> station_query(f, false) == clause::text_behind(
            head,
            filters_asked(f),
            filter_texts(),
            9,
        ) + SQL_NEAREST_FIRST@,
{
    reveal_with_fuel(clause::text_behind, 10);
    let s = clause::text_behind(head, filters_asked(f), filter_texts(), 7);
    assert(s + Seq::<char>::empty() =~= s);
}

proof fn lemma_values_filters(
    f: StationFilterView,
    v: ParamView,
    bounds: Seq<ParamView>,
    place: (Num, Num, Num),
)
    requires
        v == ParamView::Double(f.max_distance->0),
    ensures
        station_values(f, bounds, place) == clause::values_behind(
            bounds,
            filters_asked(f),
            filter_values(f, v),
            9,
        ) + place_values(place),
{
    let a = filters_asked(f);
    let vs = filter_values(f, v);
    let b = bounds;
    assert(a[0] == f.ignore_carriers && a[1] == !f.use_surface && a[2] == (f.allegiance is Some)
        && a[3] == (f.government is Some) && a[4] == (f.economy is Some) && a[5] == (
    f.station_type is Some) && a[6] == (f.max_distance is Some));
    assert(vs[0] == Seq::<ParamView>::empty() && vs[1] == Seq::<ParamView>::empty() && vs[7]
        == Seq::<ParamView>::empty() && vs[8] == Seq::<ParamView>::empty());
    assert(vs[2] == seq![ParamView::Text(f.allegiance->0)]);
    assert(vs[3] == seq![ParamView::Text(f.government->0)]);
    assert(vs[4] == seq![ParamView::Text(f.economy->0)]);
    assert(vs[5] == seq![ParamView::Text(f.station_type->0)]);
    assert(vs[6] == seq![v]);
    lemma_values_steps(f, v, bounds, a, vs);
    lemma_place_values(clause::values_behind(bounds, a, vs, 9), place);
}

proof fn lemma_place_values(s: Seq<ParamView>, place: (Num, Num, Num))
    ensures
        push_twice(push_twice(push_twice(s, place.0), place.1), place.2) == s + place_values(place),
{
    assert(push_twice(push_twice(push_twice(s, place.0), place.1), place.2) =~= s + place_values(
        place,
    ));
}

proof fn lemma_put(b: Seq<ParamView>, p: ParamView)
    ensures
        b.push(p) == b + seq![p],
        b + Seq::<ParamView>::empty() == b,
{
    assert(b.push(p) =~= b + seq![p]);
    assert(b + Seq::<ParamView>::empty() =~= b);
}

proof fn lemma_values_steps(
    f: StationFilterView,
    v: ParamView,
    b: Seq<ParamView>,
    a: Seq<bool>,
    vs: Seq<Seq<ParamView>>,
)
    requires
        v == ParamView::Double(f.max_distance->0),
        a[2] == (f.allegiance is Some),
        a[3] == (f.government is Some),
        a[4] == (f.economy is Some),
        a[5] == (f.station_type is Some),
        a[6] == (f.max_distance is Some),
        vs[0] == Seq::<ParamView>::empty(),
        vs[1] == Seq::<ParamView>::empty(),
        vs[2] == seq![ParamView::Text(f.allegiance->0)],
        vs[3] == seq![ParamView::Text(f.government->0)],
        vs[4] == seq![ParamView::Text(f.economy->0)],
        vs[5] == seq![ParamView::Text(f.station_type->0)],
        vs[6] == seq![v],
        vs[7] == Seq::<ParamView>::empty(),
        vs[8] == Seq::<ParamView>::empty(),
    ensures
        clause::values_behind(b, a, vs, 9) == ({
            let s = push_text(b, f.allegiance);
            let s = push_text(s, f.government);
            let s = push_text(s, f.economy);
            let s = push_text(s, f.station_type);
            match f.max_distance {
                Some(n) => s.push(ParamView::Double(n)),
                None => s,
            }
        }),
{
    let v2 = b;
    let v3 = push_text(v2, f.allegiance);
    let v4 = push_text(v3, f.government);
    let v5 = push_text(v4, f.economy);
    let v6 = push_text(v5, f.station_type);
    let v7 = match f.max_distance {
        Some(n) => v6.push(ParamView::Double(n)),
        None => v6,
    };
    lemma_put(b, v);
    lemma_put(v2, ParamView::Text(f.allegiance->0));
    lemma_put(v3, ParamView::Text(f.government->0));
    lemma_put(v4, ParamView::Text(f.economy->0));
    lemma_put(v5, ParamView::Text(f.station_type->0));
    lemma_put(v6, v);
    lemma_put(v7, v);
    reveal_with_fuel(clause::values_behind, 10);
}

proof fn lemma_filters_mean(f: StationFilterView, v: ParamView, w: World)
    requires
        v == ParamView::Double(f.max_distance->0),
    ensures
        clause::all_hold(filters_asked(f), filter_parts(f, v), 9, w) <==> is_wanted(f, w),
{
    lemma_parts_mean(f, v, w);
    reveal_with_fuel(clause::all_hold, 10);
}

/// The values by which the stations are ordered.
pub open spec fn place_values(place: (Num, Num, Num)) -> Seq<ParamView> {
    seq![
        ParamView::Double(place.0),
        ParamView::Double(place.0),
        ParamView::Double(place.1),
        ParamView::Double(place.1),
        ParamView::Double(place.2),
        ParamView::Double(place.2),
    ]
}

/// The stations in a cube are those of the systems whose place is in it.
pub proof fn law_the_cube_is_a_box(v: Seq<ParamView>)
    ensures
        SQL_FROM_CUBE@
            == "FROM systems_index i\n                 JOIN systems s  ON i.id = s.id64\n                 JOIN stations st ON st.systemId64 = s.id64\n                 WHERE "@
            + clause::clause_text(clause::box_clauses(v)[0]) + " AND "@
            + clause::clause_text(clause::box_clauses(v)[1]) + "\n                   AND "@
            + clause::clause_text(clause::box_clauses(v)[2]) + " AND "@
            + clause::clause_text(clause::box_clauses(v)[3]) + "\n                   AND "@
            + clause::clause_text(clause::box_clauses(v)[4]) + " AND "@
            + clause::clause_text(clause::box_clauses(v)[5]),
{
    assert(clause::clause_text(clause::box_clauses(v)[0]) =~= "i.minX >= ?"@) by {
    reveal_strlit("i.minX >= ?");
        reveal_strlit("i.minX");
        reveal_strlit(" >= ");
        reveal_strlit("?");
    }
    assert(clause::clause_text(clause::box_clauses(v)[1]) =~= "i.maxX <= ?"@) by {
    reveal_strlit("i.maxX <= ?");
        reveal_strlit("i.maxX");
        reveal_strlit(" <= ");
        reveal_strlit("?");
    }
    assert(clause::clause_text(clause::box_clauses(v)[2]) =~= "i.minY >= ?"@) by {
    reveal_strlit("i.minY >= ?");
        reveal_strlit("i.minY");
        reveal_strlit(" >= ");
        reveal_strlit("?");
    }
    assert(clause::clause_text(clause::box_clauses(v)[3]) =~= "i.maxY <= ?"@) by {
    reveal_strlit("i.maxY <= ?");
        reveal_strlit("i.maxY");
        reveal_strlit(" <= ");
        reveal_strlit("?");
    }
    assert(clause::clause_text(clause::box_clauses(v)[4]) =~= "i.minZ >= ?"@) by {
    reveal_strlit("i.minZ >= ?");
        reveal_strlit("i.minZ");
        reveal_strlit(" >= ");
        reveal_strlit("?");
    }
    assert(clause::clause_text(clause::box_clauses(v)[5]) =~= "i.maxZ <= ?"@) by {
    reveal_strlit("i.maxZ <= ?");
        reveal_strlit("i.maxZ");
        reveal_strlit(" <= ");
        reveal_strlit("?");
    }
    lemma_the_cube_is_a_box_cuts();
    let s = SQL_FROM_CUBE@;
    text::lemma_cuts_join(s, 0, 154, 165);
    text::lemma_cuts_join(s, 0, 165, 170);
    text::lemma_cuts_join(s, 0, 170, 181);
    text::lemma_cuts_join(s, 0, 181, 205);
    text::lemma_cuts_join(s, 0, 205, 216);
    text::lemma_cuts_join(s, 0, 216, 221);
    text::lemma_cuts_join(s, 0, 221, 232);
    text::lemma_cuts_join(s, 0, 232, 256);
    text::lemma_cuts_join(s, 0, 256, 267);
    text::lemma_cuts_join(s, 0, 267, 272);
    text::lemma_cuts_join(s, 0, 272, 283);
    assert(s.subrange(0, 283) =~= s);
}

proof fn lemma_the_cube_is_a_box_cuts()
    ensures
        SQL_FROM_CUBE@.len() == 283,
        SQL_FROM_CUBE@.subrange(0, 154)
            == "FROM systems_index i\n                 JOIN systems s  ON i.id = s.id64\n                 JOIN stations st ON st.systemId64 = s.id64\n                 WHERE "@,
        SQL_FROM_CUBE@.subrange(154, 165) == "i.minX >= ?"@,
        SQL_FROM_CUBE@.subrange(165, 170) == " AND "@,
        SQL_FROM_CUBE@.subrange(170, 181) == "i.maxX <= ?"@,
        SQL_FROM_CUBE@.subrange(181, 205) == "\n                   AND "@,
        SQL_FROM_CUBE@.subrange(205, 216) == "i.minY >= ?"@,
        SQL_FROM_CUBE@.subrange(216, 221) == " AND "@,
        SQL_FROM_CUBE@.subrange(221, 232) == "i.maxY <= ?"@,
        SQL_FROM_CUBE@.subrange(232, 256) == "\n                   AND "@,
        SQL_FROM_CUBE@.subrange(256, 267) == "i.minZ >= ?"@,
        SQL_FROM_CUBE@.subrange(267, 272) == " AND "@,
        SQL_FROM_CUBE@.subrange(272, 283) == "i.maxZ <= ?"@,
{
    reveal_strlit("FROM systems_index i\n                 JOIN systems s  ON i.id = s.id64\n                 JOIN stations st ON st.systemId64 = s.id64\n                 WHERE i.minX >= ? AND i.maxX <= ?\n                   AND i.minY >= ? AND i.maxY <= ?\n                   AND i.minZ >= ? AND i.maxZ <= ?");
    assert(SQL_FROM_CUBE@.subrange(0,
        154) =~= "FROM systems_index i\n                 JOIN systems s  ON i.id = s.id64\n                 JOIN stations st ON st.systemId64 = s.id64\n                 WHERE "@) by {
        reveal_strlit("FROM systems_index i\n                 JOIN systems s  ON i.id = s.id64\n                 JOIN stations st ON st.systemId64 = s.id64\n                 WHERE ");
    }
    assert(SQL_FROM_CUBE@.subrange(154, 165) =~= "i.minX >= ?"@) by {
        reveal_strlit("i.minX >= ?");
    }
    assert(SQL_FROM_CUBE@.subrange(165, 170) =~= " AND "@) by {
        reveal_strlit(" AND ");
    }
    assert(SQL_FROM_CUBE@.subrange(170, 181) =~= "i.maxX <= ?"@) by {
        reveal_strlit("i.maxX <= ?");
    }
    assert(SQL_FROM_CUBE@.subrange(181, 205) =~= "\n                   AND "@) by {
        reveal_strlit("\n                   AND ");
    }
    assert(SQL_FROM_CUBE@.subrange(205, 216) =~= "i.minY >= ?"@) by {
        reveal_strlit("i.minY >= ?");
    }
    assert(SQL_FROM_CUBE@.subrange(216, 221) =~= " AND "@) by {
        reveal_strlit(" AND ");
    }
    assert(SQL_FROM_CUBE@.subrange(221, 232) =~= "i.maxY <= ?"@) by {
        reveal_strlit("i.maxY <= ?");
    }
    assert(SQL_FROM_CUBE@.subrange(232, 256) =~= "\n                   AND "@) by {
        reveal_strlit("\n                   AND ");
    }
    assert(SQL_FROM_CUBE@.subrange(256, 267) =~= "i.minZ >= ?"@) by {
        reveal_strlit("i.minZ >= ?");
    }
    assert(SQL_FROM_CUBE@.subrange(267, 272) =~= " AND "@) by {
        reveal_strlit(" AND ");
    }
    assert(SQL_FROM_CUBE@.subrange(272, 283) =~= "i.maxZ <= ?"@) by {
        reveal_strlit("i.maxZ <= ?");
    }
}

/// The stations come by the square of their distance from the place, with the
/// values of the place where the marks are.
pub proof fn law_the_nearest_come_first(place: (Num, Num, Num))
    ensures
        SQL_NEAREST_FIRST@ == " ORDER BY "@ + clause::term_text(
            clause::squares(
                ParamView::Double(place.0),
                ParamView::Double(place.1),
                ParamView::Double(place.2),
            ),
        ) + " LIMIT 2000"@,
        clause::term_values(
            clause::squares(
                ParamView::Double(place.0),
                ParamView::Double(place.1),
                ParamView::Double(place.2),
            ),
        ) == place_values(place),
{
    let x = ParamView::Double(place.0);
    let y = ParamView::Double(place.1);
    let z = ParamView::Double(place.2);
    reveal_with_fuel(clause::term_text, 4);
    reveal_with_fuel(clause::term_values, 4);
    assert(clause::term_text(clause::square("i.minX"@, x)) =~= "(i.minX-?)*(i.minX-?)"@) by {
    reveal_strlit("(i.minX-?)*(i.minX-?)");
        reveal_strlit("i.minX");
        reveal_strlit("(");
        reveal_strlit("-");
        reveal_strlit("?");
        reveal_strlit(")*(");
        reveal_strlit(")");
    }
    assert(clause::term_text(clause::square("i.minY"@, y)) =~= "(i.minY-?)*(i.minY-?)"@) by {
    reveal_strlit("(i.minY-?)*(i.minY-?)");
        reveal_strlit("i.minY");
        reveal_strlit("(");
        reveal_strlit("-");
        reveal_strlit("?");
        reveal_strlit(")*(");
        reveal_strlit(")");
    }
    assert(clause::term_text(clause::square("i.minZ"@, z)) =~= "(i.minZ-?)*(i.minZ-?)"@) by {
    reveal_strlit("(i.minZ-?)*(i.minZ-?)");
        reveal_strlit("i.minZ");
        reveal_strlit("(");
        reveal_strlit("-");
        reveal_strlit("?");
        reveal_strlit(")*(");
        reveal_strlit(")");
    }
    reveal_strlit(" ORDER BY (i.minX-?)*(i.minX-?) + (i.minY-?)*(i.minY-?) + (i.minZ-?)*(i.minZ-?) LIMIT 2000");
    reveal_strlit(" ORDER BY ");
    reveal_strlit(" LIMIT 2000");
    reveal_strlit(" + ");
    reveal_strlit("(i.minX-?)*(i.minX-?)");
    reveal_strlit("(i.minY-?)*(i.minY-?)");
    reveal_strlit("(i.minZ-?)*(i.minZ-?)");
    assert(SQL_NEAREST_FIRST@ =~= " ORDER BY "@ + ("(i.minX-?)*(i.minX-?)"@ + " + "@
        + "(i.minY-?)*(i.minY-?)"@ + " + "@ + "(i.minZ-?)*(i.minZ-?)"@) + " LIMIT 2000"@);
    assert(clause::term_values(clause::squares(x, y, z)) =~= place_values(place));
}

/// Where a search looks.
pub enum SearchPlan {
    /// In the cube of the given radius, which is between 1 and 70000 light
    /// years.
    Within(Num),
    /// In ever larger cubes and at last everywhere, until no station that is
    /// nearer can be left.
    Widening,
}

/// Where a search looks.
pub fn search_plan(radius: &Option<Num>) -> (r: SearchPlan)
    ensures
        r == match radius {
            Some(n) => SearchPlan::Within(*n),
            None => SearchPlan::Widening,
        },
{
    match radius {
        Some(n) => SearchPlan::Within(n.copy()),
        None => SearchPlan::Widening,
    }
}

/// The radii of the cubes that a widening search looks in, in light years.
pub open spec fn radii() -> Seq<u32> {
    seq![100, 500, 1500, 4000, 8000, 15000, 30000, 70000]
}

/// The radius of the `step`-th cube of a widening search; `None` behind the
/// last, where all systems are searched.
pub fn step_radius(step: usize) -> (r: Option<u32>)
    ensures
        r == if step < radii().len() {
            Some(radii()[step as int])
        } else {
            None
        },
{
    if step == 0 {
        Some(100)
    } else if step == 1 {
        Some(500)
    } else if step == 2 {
        Some(1500)
    } else if step == 3 {
        Some(4000)
    } else if step == 4 {
        Some(8000)
    } else if step == 5 {
        Some(15000)
    } else if step == 6 {
        Some(30000)
    } else if step == 7 {
        Some(70000)
    } else {
        None
    }
}

/// The radii of the cubes, by the bits of the doubles.
pub open spec fn radius_bits() -> Seq<u64> {
    seq![
        0x4059_0000_0000_0000,
        0x407f_4000_0000_0000,
        0x4097_7000_0000_0000,
        0x40af_4000_0000_0000,
        0x40bf_4000_0000_0000,
        0x40cd_4c00_0000_0000,
        0x40dd_4c00_0000_0000,
        0x40f1_1700_0000_0000,
    ]
}

/// How far a station may be for the cube to hold all that are as near: the
/// radius of the `step`-th cube. There is no such limit behind the last cube.
pub open spec fn sure_limit(step: int) -> Option<u64> {
    if 0 <= step < radius_bits().len() {
        Some(radius_bits()[step])
    } else {
        None
    }
}

/// How far a station may be for the `step`-th cube to hold all that are as
/// near, by the bits of the double.
pub fn step_limit(step: usize) -> (r: Option<u64>)
    ensures
        r == sure_limit(step as int),
{
    if step == 0 {
        Some(0x4059_0000_0000_0000)
    } else if step == 1 {
        Some(0x407f_4000_0000_0000)
    } else if step == 2 {
        Some(0x4097_7000_0000_0000)
    } else if step == 3 {
        Some(0x40af_4000_0000_0000)
    } else if step == 4 {
        Some(0x40bf_4000_0000_0000)
    } else if step == 5 {
        Some(0x40cd_4c00_0000_0000)
    } else if step == 6 {
        Some(0x40dd_4c00_0000_0000)
    } else if step == 7 {
        Some(0x40f1_1700_0000_0000)
    } else {
        None
    }
}

/// A hit is no farther than the limit, where there is one.
pub open spec fn is_sure(h: StationHit, limit: Option<u64>) -> bool {
    limit matches Some(b) ==> h.distance <= b
}

/// Some hit is no farther than the limit.
pub open spec fn any_sure(hits: Seq<StationHit>, limit: Option<u64>) -> bool {
    exists|i: int| 0 <= i < hits.len() && is_sure(#[trigger] hits[i], limit)
}

/// The step that follows on `step`: none where a station was found that is no
/// farther than the radius of the cube, or where all systems were searched.
pub fn next_step(step: usize, hits: &Vec<StationHit>) -> (r: Option<usize>)
    ensures
        r == if step >= radii().len() || any_sure(hits@, sure_limit(step as int)) {
            None
        } else {
            Some((step + 1) as usize)
        },
{
    let limit = match step_limit(step) {
        Some(b) => b,
        None => {
            return None;
        },
    };
    for i in 0..hits.len()
        invariant
            sure_limit(step as int) == Some(limit),
            forall|j: int| 0 <= j < i ==> !is_sure(#[trigger] hits@[j], Some(limit)),
    {
        if hits[i].distance <= limit {
            assert(is_sure(hits@[i as int], Some(limit)));
            return None;
        }
    }
    Some(step + 1)
}

/// The hits of the `step`-th cube that are no farther than its radius; all of
/// them where all systems were searched.
pub fn sure_hits(step: usize, hits: Vec<StationHit>) -> (r: Vec<StationHit>)
    ensures
        r@ == hits@.filter(|h: StationHit| is_sure(h, sure_limit(step as int))),
{
    let ghost limit = sure_limit(step as int);
    let ghost pred = |h: StationHit| is_sure(h, limit);
    match step_limit(step) {
        Some(b) => {
            let mut kept: Vec<StationHit> = Vec::new();
            let mut left = hits;
            let ghost all = hits@;
            let ghost mut n: int = 0;
            assert(all.take(0).filter(pred) =~= Seq::<StationHit>::empty()) by {
                reveal(Seq::filter);
            }
            while left.len() > 0
                invariant
                    limit == Some(b),
                    pred == |h: StationHit| is_sure(h, limit),
                    0 <= n <= all.len(),
                    left@ == all.skip(n),
                    kept@ == all.take(n).filter(pred),
                decreases left.len(),
            {
                let h = left.remove(0);
                proof {
                    assert(h == all[n]);
                    assert(left@ =~= all.skip(n + 1));
                    assert(all.take(n + 1).drop_last() =~= all.take(n));
                    assert(all.take(n + 1).last() == h);
                    reveal(Seq::filter);
                    n = n + 1;
                }
                if h.distance <= b {
                    kept.push(h);
                }
            }
            assert(all.take(n) =~= all);
            kept
        },
        None => {
            proof {
                lemma_all_kept(hits@, pred);
            }
            hits
        },
    }
}

/// Where every item is kept, nothing changes.
proof fn lemma_all_kept(s: Seq<StationHit>, pred: spec_fn(StationHit) -> bool)
    requires
        forall|h: StationHit| #[trigger] pred(h),
    ensures
        s.filter(pred) == s,
    decreases s.len(),
{
    reveal(Seq::filter);
    if s.len() > 0 {
        lemma_all_kept(s.drop_last(), pred);
        assert(pred(s.last()));
        assert(s.drop_last().push(s.last()) =~= s);
    }
}

/// No station that is nearer is left out: where the hits are those within a
/// radius, a station that is shown is no farther than a hit that is not shown,
/// nor than anything beyond the radius.
pub proof fn law_none_nearer_is_left_out(
    hits: Seq<StationHit>,
    p: Seq<usize>,
    limit: int,
    radius: u64,
    k: int,
    i: usize,
    beyond: u64,
)
    requires
        order::is_order(distance_keys(hits), p),
        forall|j: int| 0 <= j < hits.len() ==> (#[trigger] hits[j]).distance <= radius,
        radius <= MAX_DOUBLE,
        limit >= 0,
        0 <= k < nearest(hits, p, limit).len(),
        i < hits.len(),
        !nearest(hits, p, limit).contains(i),
        beyond > radius,
    ensures
        hits[nearest(hits, p, limit)[k] as int].distance <= hits[i as int].distance,
        hits[nearest(hits, p, limit)[k] as int].distance < beyond,
{
    let shown = nearest(hits, p, limit);
    let keys = distance_keys(hits);
    assert(p.contains(i));
    let m = choose|m: int| 0 <= m < p.len() && p[m] == i;
    if m < shown.len() {
        assert(shown[m] == i);
    }
    assert(shown[k] == p[k]);
    assert(order::precedes(keys, p[k], p[m]));
    assert(keys[p[k] as int] == hits[p[k] as int].distance);
    assert(keys[i as int] == hits[i as int].distance);
}

/// Each cube is larger than the one before it.
pub proof fn law_radii_grow(i: int, j: int)
    requires
        0 <= i < j < radii().len(),
    ensures
        radii()[i] < radii()[j],
{
}

/// A row can be read: it says which system it is about, and where that lies.
pub open spec fn is_readable(row: &DbRow) -> bool {
    &&& sql::num_in(row.value("x"@)) is Some
    &&& sql::num_in(row.value("y"@)) is Some
    &&& sql::num_in(row.value("z"@)) is Some
    &&& sql::int_in(row.value("systemId64"@)) is Some
    &&& sql::text_of(row.value("systemName"@)) is Some
}

/// Whether a row can be read.
pub fn readable(row: &DbRow) -> (r: bool)
    requires
        row.wf(),
    ensures
        r == is_readable(row),
{
    row.num_of("x").is_some()
        && row.num_of("y").is_some()
        && row.num_of("z").is_some()
        && row.int_of("systemId64").is_some()
        && row.text_in("systemName").is_some()
}

/// Some members of the answer.
pub open spec fn hit_part_a(m: Map<Seq<char>, JsonView>, row: &DbRow) -> Map<Seq<char>, JsonView> {
    m.insert("stationId"@, sql::int_json(row.value("stationId"@))).insert("stationName"@, sql::text_json(row.value("stationName"@))).insert("stationType"@, sql::text_json(row.value("stationType"@))).insert("distanceToArrival"@, sql::num_json(row.value("distanceToArrival"@))).insert("allegiance"@, sql::text_json(row.value("stAllegiance"@))).insert("government"@, sql::text_json(row.value("stGovernment"@))).insert("primaryEconomy"@, sql::text_json(row.value("stEconomy"@))).insert("secondaryEconomy"@, sql::text_json(row.value("secondEconomy"@)))
}

fn put_hit_part_a(o: &mut Object, row: &DbRow)
    requires
        row.wf(),
    ensures
        final(o)@ == hit_part_a(old(o)@, row),
{
    o.put("stationId", row.int_json("stationId"));
    o.put("stationName", row.text_json("stationName"));
    o.put("stationType", row.text_json("stationType"));
    o.put("distanceToArrival", row.num_json("distanceToArrival"));
    o.put("allegiance", row.text_json("stAllegiance"));
    o.put("government", row.text_json("stGovernment"));
    o.put("primaryEconomy", row.text_json("stEconomy"));
    o.put("secondaryEconomy", row.text_json("secondEconomy"));
}

/// Some members of the answer.
pub open spec fn hit_part_b(m: Map<Seq<char>, JsonView>, row: &DbRow) -> Map<Seq<char>, JsonView> {
    m.insert("haveMarket"@, JsonView::Bool(sql::is_one(row.value("haveMarket"@)))).insert("haveShipyard"@, JsonView::Bool(sql::is_one(row.value("haveShipyard"@)))).insert("haveOutfitting"@, JsonView::Bool(sql::is_one(row.value("haveOutfitting"@)))).insert("services"@, system::services(row.value("otherServices"@))).insert("updateTime"@, sql::text_json(row.value("updateTime"@))).insert("landingPads"@, sql::held_json(row.value("landingPads"@))).insert("latitude"@, sql::num_json(row.value("latitude"@))).insert("longitude"@, sql::num_json(row.value("longitude"@)))
}

fn put_hit_part_b(o: &mut Object, row: &DbRow)
    requires
        row.wf(),
    ensures
        final(o)@ == hit_part_b(old(o)@, row),
{
    o.put("haveMarket", Json::Bool(row.is_one("haveMarket")));
    o.put("haveShipyard", Json::Bool(row.is_one("haveShipyard")));
    o.put("haveOutfitting", Json::Bool(row.is_one("haveOutfitting")));
    o.put("services", services_json(row));
    o.put("updateTime", row.text_json("updateTime"));
    o.put("landingPads", row.held_json("landingPads"));
    o.put("latitude", row.num_json("latitude"));
    o.put("longitude", row.num_json("longitude"));
}

/// Some members of the answer.
pub open spec fn hit_part_c(m: Map<Seq<char>, JsonView>, row: &DbRow) -> Map<Seq<char>, JsonView> {
    m.insert("isSurface"@, JsonView::Bool(sql::num_in(row.value("latitude"@)) is Some)).insert("controllingFaction"@, sql::text_json(row.value("controllingFaction"@))).insert("state"@, sql::text_json(row.value("state"@))).insert("carrierDockingAccess"@, sql::text_json(row.value("carrierDockingAccess"@))).insert("realName"@, sql::text_json(row.value("realName"@))).insert("carrierName"@, sql::text_json(row.value("carrierName"@)))
}

fn put_hit_part_c(o: &mut Object, row: &DbRow)
    requires
        row.wf(),
    ensures
        final(o)@ == hit_part_c(old(o)@, row),
{
    o.put("isSurface", Json::Bool(row.num_of("latitude").is_some()));
    o.put("controllingFaction", row.text_json("controllingFaction"));
    o.put("state", row.text_json("state"));
    o.put("carrierDockingAccess", row.text_json("carrierDockingAccess"));
    o.put("realName", row.text_json("realName"));
    o.put("carrierName", row.text_json("carrierName"));
}

/// The largest finite double, by its bits.
pub const MAX_DOUBLE: u64 = 0x7fef_ffff_ffff_ffff;

/// A station that a search found, with the distance of its system, rounded to
/// hundredths of a light year, by its bits.
pub struct StationHit {
    pub row: DbRow,
    pub distance: u64,
}

/// A distance as JSON: null where it is not finite.
pub open spec fn distance_json(bits: u64) -> JsonView {
    if bits <= MAX_DOUBLE {
        JsonView::Num(Num::Real(bits))
    } else {
        JsonView::Null
    }
}

/// The distance by which a hit is ordered: one that is not finite comes last.
pub open spec fn distance_key(bits: u64) -> u64 {
    if bits <= MAX_DOUBLE {
        bits
    } else {
        MAX_DOUBLE
    }
}

/// The number of a column that holds one.
pub open spec fn num_at(row: &DbRow, name: Seq<char>) -> Num {
    sql::num_in(row.value(name))->0
}

/// A station that a search found, as JSON.
pub open spec fn hit_answer(h: &StationHit) -> JsonView {
    let row = &h.row;
    let m = Map::empty().insert(
        "systemId64"@,
        JsonView::Str(
            text::signed_numeral(sql::int_in(row.value("systemId64"@))->0 as int),
        ),
    ).insert("systemName"@, JsonView::Str(sql::text_of(row.value("systemName"@))->0)).insert(
        "systemDistanceLy"@,
        distance_json(h.distance),
    ).insert(
        "coords"@,
        json::point(num_at(row, "x"@), num_at(row, "y"@), num_at(row, "z"@)),
    );
    JsonView::Obj(hit_part_c(hit_part_b(hit_part_a(m, row), row), row))
}

/// A station that a search found, as JSON.
fn hit_json(h: &StationHit) -> (r: Json)
    requires
        h.row.wf(),
        is_readable(&h.row),
    ensures
        r@ == hit_answer(h),
{
    let row = &h.row;
    let mut o = Object::new();
    match (row.int_of("systemId64"), row.text_in("systemName")) {
        (Some(id), Some(name)) => {
            o.put("systemId64", Json::Str(decimal_i64(id)));
            o.put("systemName", Json::Str(name));
        },
        _ => {},
    }
    if h.distance <= MAX_DOUBLE {
        o.put("systemDistanceLy", Json::Num(Num::Real(h.distance)));
    } else {
        o.put("systemDistanceLy", Json::Null);
    }
    match (row.num_of("x"), row.num_of("y"), row.num_of("z")) {
        (Some(x), Some(y), Some(z)) => {
            o.put("coords", json::point_json(x, y, z));
        },
        _ => {},
    }
    put_hit_part_a(&mut o, row);
    put_hit_part_b(&mut o, row);
    put_hit_part_c(&mut o, row);
    o.done()
}

/// The distances by which hits are ordered.
pub open spec fn distance_keys(hits: Seq<StationHit>) -> Seq<u64> {
    hits.map_values(|h: StationHit| distance_key(h.distance))
}

/// The hits in the order of their distance, as many as are wanted.
pub open spec fn nearest(hits: Seq<StationHit>, p: Seq<usize>, limit: int) -> Seq<usize> {
    if p.len() <= limit {
        p
    } else {
        p.take(limit)
    }
}

/// The radius of the last cube of a widening search, by its bits.
pub const LAST_RADIUS: u64 = 0x40f1_1700_0000_0000;

/// The radius that is reported: that of the last cube that was searched.
pub open spec fn reported_radius(radius: Option<Num>) -> Num {
    match radius {
        Some(r) => r,
        None => Num::Real(LAST_RADIUS),
    }
}

/// The answer to a search for stations.
pub open spec fn nearest_answer(
    name: Seq<char>,
    place: JsonView,
    radius: Num,
    results: Seq<JsonView>,
) -> JsonView {
    JsonView::Obj(
        Map::empty().insert("refSystem"@, JsonView::Str(name)).insert("refCoords"@, place).insert(
            "searchedRadiusLy"@,
            JsonView::Num(radius),
        ).insert("count"@, JsonView::Num(json::count_num(results.len() as int))).insert(
            "results"@,
            JsonView::Arr(results),
        ),
    )
}

/// The answer to a search for stations: those that were found by rising
/// distance, no more than are wanted. `radius` is that of the last cube, and
/// missing where all systems were searched behind the largest one.
pub fn stations_found(
    name: &str,
    place: Json,
    radius: Option<Num>,
    hits: &Vec<StationHit>,
    limit: usize,
) -> (r: Json)
    requires
        forall|i: int|
            0 <= i < hits.len() ==> (#[trigger] hits@[i]).row.wf() && is_readable(&hits@[i].row),
    ensures
        exists|p: Seq<usize>| #[trigger]
            order::is_order(distance_keys(hits@), p) && r@ == nearest_answer(
                name@,
                place@,
                reported_radius(radius),
                nearest(hits@, p, limit as int).map_values(
                    |i: usize| hit_answer(&hits@[i as int]),
                ),
            ),
{
    let mut keys: Vec<u64> = Vec::new();
    for i in 0..hits.len()
        invariant
            keys.len() == i,
            forall|j: int| 0 <= j < i ==> #[trigger] keys@[j] == distance_key(hits@[j].distance),
    {
        let d: u64 = hits[i].distance;
        keys.push(
            if d <= MAX_DOUBLE {
                d
            } else {
                MAX_DOUBLE
            },
        );
    }
    assert(keys@ =~= distance_keys(hits@));
    let p = order(&keys);
    let n: usize = if p.len() <= limit {
        p.len()
    } else {
        limit
    };
    let ghost shown = nearest(hits@, p@, limit as int);
    assert(shown =~= p@.take(n as int));
    let mut results: Vec<Json> = Vec::new();
    for i in 0..n
        invariant
            n <= p.len(),
            order::is_order(keys@, p@),
            keys.len() == hits.len(),
            forall|i: int|
                0 <= i < hits.len() ==> (#[trigger] hits@[i]).row.wf() && is_readable(&hits@[i].row),
            results.len() == i,
            forall|j: int| 0 <= j < i ==> (#[trigger] results@[j])@ == hit_answer(
                &hits@[p@[j] as int],
            ),
    {
        assert(0 <= p@[i as int] < keys.len());
        results.push(hit_json(&hits[p[i]]));
    }
    let reported = match radius {
        Some(r) => r,
        None => Num::Real(LAST_RADIUS),
    };
    proof {
        json::lemma_views(results@);
        assert(json::views(results@) =~= shown.map_values(
            |i: usize| hit_answer(&hits@[i as int]),
        ));
    }
    let mut o = Object::new();
    o.put("refSystem", string(name));
    o.put("refCoords", place);
    o.put("searchedRadiusLy", Json::Num(reported));
    o.put("count", json::count(n));
    o.put("results", Json::Arr(results));
    o.done()
}

/// The answer where the system of the search is not known.
pub fn reference_not_found(name: &str) -> (r: String)
    ensures
        r@ == "Reference system '"@ + name@ + "' not found"@,
{
    let mut r = String::new();
    r.append("Reference system '");
    r.append(name);
    r.append("' not found");
    assert(r@ =~= "Reference system '"@ + name@ + "' not found"@);
    r
}

proof fn lemma_hit_answer_names()
    ensures
        json::mark_of("systemId64"@) == (10int, 's', 'm', '4'),
        json::mark_of("systemName"@) == (10int, 's', 'm', 'e'),
        json::mark_of("systemDistanceLy"@) == (16int, 's', 's', 'y'),
        json::mark_of("coords"@) == (6int, 'c', 'r', 's'),
        json::mark_of("stationId"@) == (9int, 's', 'i', 'd'),
        json::mark_of("stationName"@) == (11int, 's', 'o', 'e'),
        json::mark_of("stationType"@) == (11int, 's', 'o', 'e'),
        json::mark_of("distanceToArrival"@) == (17int, 'd', 'T', 'l'),
        json::mark_of("allegiance"@) == (10int, 'a', 'i', 'e'),
        json::mark_of("government"@) == (10int, 'g', 'n', 't'),
        json::mark_of("primaryEconomy"@) == (14int, 'p', 'E', 'y'),
        json::mark_of("secondaryEconomy"@) == (16int, 's', 'y', 'y'),
        json::mark_of("haveMarket"@) == (10int, 'h', 'a', 't'),
        json::mark_of("haveShipyard"@) == (12int, 'h', 'i', 'd'),
        json::mark_of("haveOutfitting"@) == (14int, 'h', 'f', 'g'),
        json::mark_of("services"@) == (8int, 's', 'i', 's'),
        json::mark_of("updateTime"@) == (10int, 'u', 'e', 'e'),
        json::mark_of("landingPads"@) == (11int, 'l', 'n', 's'),
        json::mark_of("latitude"@) == (8int, 'l', 't', 'e'),
        json::mark_of("longitude"@) == (9int, 'l', 'i', 'e'),
        json::mark_of("isSurface"@) == (9int, 'i', 'r', 'e'),
        json::mark_of("controllingFaction"@) == (18int, 'c', 'n', 'n'),
        json::mark_of("state"@) == (5int, 's', 'a', 'e'),
        json::mark_of("carrierDockingAccess"@) == (20int, 'c', 'k', 's'),
        json::mark_of("realName"@) == (8int, 'r', 'N', 'e'),
        json::mark_of("carrierName"@) == (11int, 'c', 'e', 'e'),
        "stationType"@ != "stationName"@,
{
    reveal_strlit("systemId64");
    reveal_strlit("systemName");
    reveal_strlit("systemDistanceLy");
    reveal_strlit("coords");
    reveal_strlit("stationId");
    reveal_strlit("stationName");
    reveal_strlit("stationType");
    reveal_strlit("distanceToArrival");
    reveal_strlit("allegiance");
    reveal_strlit("government");
    reveal_strlit("primaryEconomy");
    reveal_strlit("secondaryEconomy");
    reveal_strlit("haveMarket");
    reveal_strlit("haveShipyard");
    reveal_strlit("haveOutfitting");
    reveal_strlit("services");
    reveal_strlit("updateTime");
    reveal_strlit("landingPads");
    reveal_strlit("latitude");
    reveal_strlit("longitude");
    reveal_strlit("isSurface");
    reveal_strlit("controllingFaction");
    reveal_strlit("state");
    reveal_strlit("carrierDockingAccess");
    reveal_strlit("realName");
    reveal_strlit("carrierName");
    assert("stationType"@[7] != "stationName"@[7]);
}

proof fn lemma_hit_part_a(m: Map<Seq<char>, JsonView>, row: &DbRow)
    ensures
        json::found(hit_part_a(m, row), "stationId"@)
            == Some(sql::int_json(row.value("stationId"@))),
        json::found(hit_part_a(m, row), "stationName"@)
            == Some(sql::text_json(row.value("stationName"@))),
        json::found(hit_part_a(m, row), "stationType"@)
            == Some(sql::text_json(row.value("stationType"@))),
        json::found(hit_part_a(m, row), "distanceToArrival"@)
            == Some(sql::num_json(row.value("distanceToArrival"@))),
        json::found(hit_part_a(m, row), "allegiance"@)
            == Some(sql::text_json(row.value("stAllegiance"@))),
        json::found(hit_part_a(m, row), "government"@)
            == Some(sql::text_json(row.value("stGovernment"@))),
        json::found(hit_part_a(m, row), "primaryEconomy"@)
            == Some(sql::text_json(row.value("stEconomy"@))),
        json::found(hit_part_a(m, row), "secondaryEconomy"@)
            == Some(sql::text_json(row.value("secondEconomy"@))),
        forall|other: Seq<char>|
            other != "stationId"@ && other != "stationName"@ && other != "stationType"@
                && other != "distanceToArrival"@ && other != "allegiance"@ && other != "government"@
                && other != "primaryEconomy"@ && other != "secondaryEconomy"@
                ==> #[trigger] json::found(hit_part_a(m, row), other) == json::found(m, other),
{
    broadcast use {json::lemma_found_set, json::lemma_found_none};

    lemma_hit_answer_names();
}

proof fn lemma_hit_part_b(m: Map<Seq<char>, JsonView>, row: &DbRow)
    ensures
        json::found(hit_part_b(m, row), "haveMarket"@)
            == Some(JsonView::Bool(sql::is_one(row.value("haveMarket"@)))),
        json::found(hit_part_b(m, row), "haveShipyard"@)
            == Some(JsonView::Bool(sql::is_one(row.value("haveShipyard"@)))),
        json::found(hit_part_b(m, row), "haveOutfitting"@)
            == Some(JsonView::Bool(sql::is_one(row.value("haveOutfitting"@)))),
        json::found(hit_part_b(m, row), "services"@)
            == Some(system::services(row.value("otherServices"@))),
        json::found(hit_part_b(m, row), "updateTime"@)
            == Some(sql::text_json(row.value("updateTime"@))),
        json::found(hit_part_b(m, row), "landingPads"@)
            == Some(sql::held_json(row.value("landingPads"@))),
        json::found(hit_part_b(m, row), "latitude"@) == Some(sql::num_json(row.value("latitude"@))),
        json::found(hit_part_b(m, row), "longitude"@)
            == Some(sql::num_json(row.value("longitude"@))),
        forall|other: Seq<char>|
            other != "haveMarket"@ && other != "haveShipyard"@ && other != "haveOutfitting"@
                && other != "services"@ && other != "updateTime"@ && other != "landingPads"@
                && other != "latitude"@ && other != "longitude"@
                ==> #[trigger] json::found(hit_part_b(m, row), other) == json::found(m, other),
{
    broadcast use {json::lemma_found_set, json::lemma_found_none};

    lemma_hit_answer_names();
}

proof fn lemma_hit_part_c(m: Map<Seq<char>, JsonView>, row: &DbRow)
    ensures
        json::found(hit_part_c(m, row), "isSurface"@)
            == Some(JsonView::Bool(sql::num_in(row.value("latitude"@)) is Some)),
        json::found(hit_part_c(m, row), "controllingFaction"@)
            == Some(sql::text_json(row.value("controllingFaction"@))),
        json::found(hit_part_c(m, row), "state"@) == Some(sql::text_json(row.value("state"@))),
        json::found(hit_part_c(m, row), "carrierDockingAccess"@)
            == Some(sql::text_json(row.value("carrierDockingAccess"@))),
        json::found(hit_part_c(m, row), "realName"@)
            == Some(sql::text_json(row.value("realName"@))),
        json::found(hit_part_c(m, row), "carrierName"@)
            == Some(sql::text_json(row.value("carrierName"@))),
        forall|other: Seq<char>|
            other != "isSurface"@ && other != "controllingFaction"@ && other != "state"@
                && other != "carrierDockingAccess"@ && other != "realName"@
                && other != "carrierName"@ ==> #[trigger] json::found(hit_part_c(m, row), other)
                == json::found(m, other),
{
    broadcast use {json::lemma_found_set, json::lemma_found_none};

    lemma_hit_answer_names();
}

/// Each member of a station that is found holds its own column; the distance
/// is that of its system.
pub proof fn law_stations_found_are_told(h: &StationHit)
    ensures
        ({
            let row = &h.row;
            let a = hit_answer(h);
            &&& json::field(a, "systemId64"@)
                == Some(JsonView::Str( text::signed_numeral(sql::int_in(row.value("systemId64"@))->0 as int),
                ))
            &&& json::field(a, "systemName"@)
                == Some(JsonView::Str(sql::text_of(row.value("systemName"@))->0))
            &&& json::field(a, "systemDistanceLy"@) == Some(distance_json(h.distance))
            &&& json::field(a, "coords"@) == Some(json::point(num_at(row, "x"@), num_at(row, "y"@),
                num_at(row, "z"@)))
            &&& json::field(a, "stationId"@) == Some(sql::int_json(row.value("stationId"@)))
            &&& json::field(a, "stationName"@) == Some(sql::text_json(row.value("stationName"@)))
            &&& json::field(a, "stationType"@) == Some(sql::text_json(row.value("stationType"@)))
            &&& json::field(a, "distanceToArrival"@)
                == Some(sql::num_json(row.value("distanceToArrival"@)))
            &&& json::field(a, "allegiance"@) == Some(sql::text_json(row.value("stAllegiance"@)))
            &&& json::field(a, "government"@) == Some(sql::text_json(row.value("stGovernment"@)))
            &&& json::field(a, "primaryEconomy"@) == Some(sql::text_json(row.value("stEconomy"@)))
            &&& json::field(a, "secondaryEconomy"@)
                == Some(sql::text_json(row.value("secondEconomy"@)))
            &&& json::field(a, "haveMarket"@)
                == Some(JsonView::Bool(sql::is_one(row.value("haveMarket"@))))
            &&& json::field(a, "haveShipyard"@)
                == Some(JsonView::Bool(sql::is_one(row.value("haveShipyard"@))))
            &&& json::field(a, "haveOutfitting"@)
                == Some(JsonView::Bool(sql::is_one(row.value("haveOutfitting"@))))
            &&& json::field(a, "services"@) == Some(system::services(row.value("otherServices"@)))
            &&& json::field(a, "updateTime"@) == Some(sql::text_json(row.value("updateTime"@)))
            &&& json::field(a, "landingPads"@) == Some(sql::held_json(row.value("landingPads"@)))
            &&& json::field(a, "latitude"@) == Some(sql::num_json(row.value("latitude"@)))
            &&& json::field(a, "longitude"@) == Some(sql::num_json(row.value("longitude"@)))
            &&& json::field(a, "isSurface"@)
                == Some(JsonView::Bool(sql::num_in(row.value("latitude"@)) is Some))
            &&& json::field(a, "controllingFaction"@)
                == Some(sql::text_json(row.value("controllingFaction"@)))
            &&& json::field(a, "state"@) == Some(sql::text_json(row.value("state"@)))
            &&& json::field(a, "carrierDockingAccess"@)
                == Some(sql::text_json(row.value("carrierDockingAccess"@)))
            &&& json::field(a, "realName"@) == Some(sql::text_json(row.value("realName"@)))
            &&& json::field(a, "carrierName"@) == Some(sql::text_json(row.value("carrierName"@)))
        }),
{
    lemma_hit_answer_names();
    json::lemma_found(hit_answer(h));
    let row = &h.row;
    let m0 = first_members(h);
    lemma_first_members(h);
    lemma_hit_part_a(m0, row);
    let m1 = hit_part_a(m0, row);
    lemma_hit_part_b(m1, row);
    let m2 = hit_part_b(m1, row);
    lemma_hit_part_c(m2, row);
}

/// The members that stand first.
spec fn first_members(h: &StationHit) -> Map<Seq<char>, JsonView> {
    let row = &h.row;
    Map::empty().insert("systemId64"@,
        JsonView::Str( text::signed_numeral(sql::int_in(row.value("systemId64"@))->0 as int),
        )).insert("systemName"@,
        JsonView::Str(sql::text_of(row.value("systemName"@))->0)).insert("systemDistanceLy"@,
        distance_json(h.distance)).insert("coords"@, json::point(num_at(row, "x"@), num_at(row,
        "y"@), num_at(row, "z"@)))
}

proof fn lemma_first_members(h: &StationHit)
    ensures
        ({
            let row = &h.row;
            let m = first_members(h);
            &&& json::found(m, "systemId64"@)
                == Some(JsonView::Str( text::signed_numeral(sql::int_in(row.value("systemId64"@))->0 as int),
                ))
            &&& json::found(m, "systemName"@)
                == Some(JsonView::Str(sql::text_of(row.value("systemName"@))->0))
            &&& json::found(m, "systemDistanceLy"@) == Some(distance_json(h.distance))
            &&& json::found(m, "coords"@) == Some(json::point(num_at(row, "x"@), num_at(row, "y"@),
                num_at(row, "z"@)))
        }),
{
    broadcast use {json::lemma_found_set, json::lemma_found_none};

    lemma_hit_answer_names();
}

/// The answer to a search for stations names where it looked from and how far,
/// and counts what it lists.
pub proof fn law_answers_tell_the_search(name: Seq<char>, place: JsonView, radius: Num,
    results: Seq<JsonView>)
    ensures
        ({
            let a = nearest_answer(name, place, radius, results);
            &&& json::field(a, "refSystem"@) == Some(JsonView::Str(name))
            &&& json::field(a, "refCoords"@) == Some(place)
            &&& json::field(a, "searchedRadiusLy"@) == Some(JsonView::Num(radius))
            &&& json::field(a, "count"@)
                == Some(JsonView::Num(json::count_num(results.len() as int)))
            &&& json::field(a, "results"@) == Some(JsonView::Arr(results))
        }),
{
    broadcast use {json::lemma_found_set, json::lemma_found_none};

    reveal_strlit("refSystem");
    reveal_strlit("refCoords");
    reveal_strlit("searchedRadiusLy");
    reveal_strlit("count");
    reveal_strlit("results");
    assert(json::mark_of("refSystem"@) == (9int, 'r', 'y', 'm'));
    assert(json::mark_of("refCoords"@) == (9int, 'r', 'o', 's'));
    assert(json::mark_of("searchedRadiusLy"@) == (16int, 's', 'R', 'y'));
    assert(json::mark_of("count"@) == (5int, 'c', 'u', 't'));
    assert(json::mark_of("results"@) == (7int, 'r', 'u', 's'));
    json::lemma_found(nearest_answer(name, place, radius, results));
}

/// What a query asks for is asked for: each choice narrows its own column, and
/// none where it is empty or `any`, in whatever case; carriers are left out
/// where nothing is said of them; a large pad is wanted where the smallest is
/// large, and a medium or a large one where it is medium.
pub proof fn law_queries_are_taken_at_their_word(q: &NearestStationQuery, pad: Seq<char>)
    ensures
        ({
            let f = filter_of(q, pad);
            &&& f.ignore_carriers == (q.ignore_fleet_carriers != Some(false))
            &&& f.use_surface == q.use_surface_stations
            &&& f.max_distance == q.max_station_distance
            &&& f.large_pad <==> pad == "large"@
            &&& (f.medium_pad && !f.large_pad) <==> pad == "medium"@
            &&& keeps_choice(json::text_view(q.allegiance), f.allegiance)
            &&& keeps_choice(json::text_view(q.government), f.government)
            &&& keeps_choice(json::text_view(q.economy), f.economy)
            &&& keeps_choice(json::text_view(q.station_type), f.station_type)
        }),
{
    reveal_strlit("large");
    reveal_strlit("medium");
    assert("large"@.len() == 5);
    assert("medium"@.len() == 6);
}

/// A choice is kept where it is one; an empty one and `any` are none.
pub open spec fn keeps_choice(given: Option<Seq<char>>, kept: Option<Seq<char>>) -> bool {
    &&& kept is Some ==> kept == given
    &&& kept is None <==> (given matches Some(t) ==> t.len() == 0 || text::ascii_lower_all(t)
        == text::ascii_lower_all("any"@))
}

/// As many stations are wanted as a query says, but at least one and at most a
/// hundred; twenty-five where it does not say.
pub proof fn law_a_fair_number_is_wanted(n: usize)
    ensures
        1 <= wanted(Some(n)) <= 100,
        1 <= n <= 100 ==> wanted(Some(n)) == n,
        n == 0 ==> wanted(Some(n)) == 1,
        n > 100 ==> wanted(Some(n)) == 100,
        wanted(None) == 25,
{
}

/// A column is read under a name.
pub open spec fn read_as(column: Seq<char>, name: Seq<char>) -> Seq<char> {
    column + " AS "@ + name
}

proof fn lemma_columns_cuts()
    ensures
        SQL_COLUMNS@.len() == 678,
        SQL_COLUMNS@.subrange(0, 7) == "SELECT "@,
        SQL_COLUMNS@.subrange(7, 27) == read_as("s.id64"@, "systemId64"@),
        SQL_COLUMNS@.subrange(27, 29) == ", "@,
        SQL_COLUMNS@.subrange(29, 49) == read_as("s.name"@, "systemName"@),
        SQL_COLUMNS@.subrange(49, 71) == ",\n                    "@,
        SQL_COLUMNS@.subrange(71, 82) == read_as("i.minX"@, "x"@),
        SQL_COLUMNS@.subrange(82, 84) == ", "@,
        SQL_COLUMNS@.subrange(84, 95) == read_as("i.minY"@, "y"@),
        SQL_COLUMNS@.subrange(95, 97) == ", "@,
        SQL_COLUMNS@.subrange(97, 108) == read_as("i.minZ"@, "z"@),
        SQL_COLUMNS@.subrange(108, 130) == ",\n                    "@,
        SQL_COLUMNS@.subrange(130, 148) == read_as("st.id"@, "stationId"@),
        SQL_COLUMNS@.subrange(148, 150) == ", "@,
        SQL_COLUMNS@.subrange(150, 172) == read_as("st.name"@, "stationName"@),
        SQL_COLUMNS@.subrange(172, 194) == ",\n                    "@,
        SQL_COLUMNS@.subrange(194, 216) == read_as("st.type"@, "stationType"@),
        SQL_COLUMNS@.subrange(216, 218) == ", "@,
        SQL_COLUMNS@.subrange(218, 238) == "st.distanceToArrival"@,
        SQL_COLUMNS@.subrange(238, 260) == ",\n                    "@,
        SQL_COLUMNS@.subrange(260, 289) == read_as("st.allegiance"@, "stAllegiance"@),
        SQL_COLUMNS@.subrange(289, 291) == ", "@,
        SQL_COLUMNS@.subrange(291, 320) == read_as("st.government"@, "stGovernment"@),
        SQL_COLUMNS@.subrange(320, 342) == ",\n                    "@,
        SQL_COLUMNS@.subrange(342, 365) == read_as("st.economy"@, "stEconomy"@),
        SQL_COLUMNS@.subrange(365, 367) == ", "@,
        SQL_COLUMNS@.subrange(367, 383) == "st.secondEconomy"@,
        SQL_COLUMNS@.subrange(383, 405) == ",\n                    "@,
        SQL_COLUMNS@.subrange(405, 418) == "st.haveMarket"@,
        SQL_COLUMNS@.subrange(418, 420) == ", "@,
        SQL_COLUMNS@.subrange(420, 435) == "st.haveShipyard"@,
        SQL_COLUMNS@.subrange(435, 437) == ", "@,
        SQL_COLUMNS@.subrange(437, 454) == "st.haveOutfitting"@,
        SQL_COLUMNS@.subrange(454, 476) == ",\n                    "@,
        SQL_COLUMNS@.subrange(476, 492) == "st.otherServices"@,
        SQL_COLUMNS@.subrange(492, 494) == ", "@,
        SQL_COLUMNS@.subrange(494, 507) == "st.updateTime"@,
        SQL_COLUMNS@.subrange(507, 509) == ", "@,
        SQL_COLUMNS@.subrange(509, 523) == "st.landingPads"@,
        SQL_COLUMNS@.subrange(523, 545) == ",\n                    "@,
        SQL_COLUMNS@.subrange(545, 556) == "st.latitude"@,
        SQL_COLUMNS@.subrange(556, 558) == ", "@,
        SQL_COLUMNS@.subrange(558, 570) == "st.longitude"@,
        SQL_COLUMNS@.subrange(570, 572) == ", "@,
        SQL_COLUMNS@.subrange(572, 593) == "st.controllingFaction"@,
        SQL_COLUMNS@.subrange(593, 615) == ",\n                    "@,
        SQL_COLUMNS@.subrange(615, 623) == "st.state"@,
        SQL_COLUMNS@.subrange(623, 625) == ", "@,
        SQL_COLUMNS@.subrange(625, 648) == "st.carrierDockingAccess"@,
        SQL_COLUMNS@.subrange(648, 650) == ", "@,
        SQL_COLUMNS@.subrange(650, 661) == "st.realName"@,
        SQL_COLUMNS@.subrange(661, 663) == ", "@,
        SQL_COLUMNS@.subrange(663, 677) == "st.carrierName"@,
        SQL_COLUMNS@.subrange(677, 678) == " "@,
{
    reveal_strlit("SELECT s.id64 AS systemId64, s.name AS systemName,\n                    i.minX AS x, i.minY AS y, i.minZ AS z,\n                    st.id AS stationId, st.name AS stationName,\n                    st.type AS stationType, st.distanceToArrival,\n                    st.allegiance AS stAllegiance, st.government AS stGovernment,\n                    st.economy AS stEconomy, st.secondEconomy,\n                    st.haveMarket, st.haveShipyard, st.haveOutfitting,\n                    st.otherServices, st.updateTime, st.landingPads,\n                    st.latitude, st.longitude, st.controllingFaction,\n                    st.state, st.carrierDockingAccess, st.realName, st.carrierName ");
    reveal_strlit(" AS ");
    assert(SQL_COLUMNS@.subrange(0, 7) =~= "SELECT "@) by {
        reveal_strlit("SELECT ");
    }
    assert(SQL_COLUMNS@.subrange(7, 27) =~= read_as("s.id64"@, "systemId64"@)) by {
        reveal_strlit("s.id64 AS systemId64");
        reveal_strlit("s.id64");
        reveal_strlit("systemId64");
    }
    assert(SQL_COLUMNS@.subrange(27, 29) =~= ", "@) by {
        reveal_strlit(", ");
    }
    assert(SQL_COLUMNS@.subrange(29, 49) =~= read_as("s.name"@, "systemName"@)) by {
        reveal_strlit("s.name AS systemName");
        reveal_strlit("s.name");
        reveal_strlit("systemName");
    }
    assert(SQL_COLUMNS@.subrange(49, 71) =~= ",\n                    "@) by {
        reveal_strlit(",\n                    ");
    }
    assert(SQL_COLUMNS@.subrange(71, 82) =~= read_as("i.minX"@, "x"@)) by {
        reveal_strlit("i.minX AS x");
        reveal_strlit("i.minX");
        reveal_strlit("x");
    }
    assert(SQL_COLUMNS@.subrange(82, 84) =~= ", "@) by {
        reveal_strlit(", ");
    }
    assert(SQL_COLUMNS@.subrange(84, 95) =~= read_as("i.minY"@, "y"@)) by {
        reveal_strlit("i.minY AS y");
        reveal_strlit("i.minY");
        reveal_strlit("y");
    }
    assert(SQL_COLUMNS@.subrange(95, 97) =~= ", "@) by {
        reveal_strlit(", ");
    }
    assert(SQL_COLUMNS@.subrange(97, 108) =~= read_as("i.minZ"@, "z"@)) by {
        reveal_strlit("i.minZ AS z");
        reveal_strlit("i.minZ");
        reveal_strlit("z");
    }
    assert(SQL_COLUMNS@.subrange(108, 130) =~= ",\n                    "@) by {
        reveal_strlit(",\n                    ");
    }
    assert(SQL_COLUMNS@.subrange(130, 148) =~= read_as("st.id"@, "stationId"@)) by {
        reveal_strlit("st.id AS stationId");
        reveal_strlit("st.id");
        reveal_strlit("stationId");
    }
    assert(SQL_COLUMNS@.subrange(148, 150) =~= ", "@) by {
        reveal_strlit(", ");
    }
    assert(SQL_COLUMNS@.subrange(150, 172) =~= read_as("st.name"@, "stationName"@)) by {
        reveal_strlit("st.name AS stationName");
        reveal_strlit("st.name");
        reveal_strlit("stationName");
    }
    assert(SQL_COLUMNS@.subrange(172, 194) =~= ",\n                    "@) by {
        reveal_strlit(",\n                    ");
    }
    assert(SQL_COLUMNS@.subrange(194, 216) =~= read_as("st.type"@, "stationType"@)) by {
        reveal_strlit("st.type AS stationType");
        reveal_strlit("st.type");
        reveal_strlit("stationType");
    }
    assert(SQL_COLUMNS@.subrange(216, 218) =~= ", "@) by {
        reveal_strlit(", ");
    }
    assert(SQL_COLUMNS@.subrange(218, 238) =~= "st.distanceToArrival"@) by {
        reveal_strlit("st.distanceToArrival");
    }
    assert(SQL_COLUMNS@.subrange(238, 260) =~= ",\n                    "@) by {
        reveal_strlit(",\n                    ");
    }
    assert(SQL_COLUMNS@.subrange(260, 289) =~= read_as("st.allegiance"@, "stAllegiance"@)) by {
        reveal_strlit("st.allegiance AS stAllegiance");
        reveal_strlit("st.allegiance");
        reveal_strlit("stAllegiance");
    }
    assert(SQL_COLUMNS@.subrange(289, 291) =~= ", "@) by {
        reveal_strlit(", ");
    }
    assert(SQL_COLUMNS@.subrange(291, 320) =~= read_as("st.government"@, "stGovernment"@)) by {
        reveal_strlit("st.government AS stGovernment");
        reveal_strlit("st.government");
        reveal_strlit("stGovernment");
    }
    assert(SQL_COLUMNS@.subrange(320, 342) =~= ",\n                    "@) by {
        reveal_strlit(",\n                    ");
    }
    assert(SQL_COLUMNS@.subrange(342, 365) =~= read_as("st.economy"@, "stEconomy"@)) by {
        reveal_strlit("st.economy AS stEconomy");
        reveal_strlit("st.economy");
        reveal_strlit("stEconomy");
    }
    assert(SQL_COLUMNS@.subrange(365, 367) =~= ", "@) by {
        reveal_strlit(", ");
    }
    assert(SQL_COLUMNS@.subrange(367, 383) =~= "st.secondEconomy"@) by {
        reveal_strlit("st.secondEconomy");
    }
    assert(SQL_COLUMNS@.subrange(383, 405) =~= ",\n                    "@) by {
        reveal_strlit(",\n                    ");
    }
    assert(SQL_COLUMNS@.subrange(405, 418) =~= "st.haveMarket"@) by {
        reveal_strlit("st.haveMarket");
    }
    assert(SQL_COLUMNS@.subrange(418, 420) =~= ", "@) by {
        reveal_strlit(", ");
    }
    assert(SQL_COLUMNS@.subrange(420, 435) =~= "st.haveShipyard"@) by {
        reveal_strlit("st.haveShipyard");
    }
    assert(SQL_COLUMNS@.subrange(435, 437) =~= ", "@) by {
        reveal_strlit(", ");
    }
    assert(SQL_COLUMNS@.subrange(437, 454) =~= "st.haveOutfitting"@) by {
        reveal_strlit("st.haveOutfitting");
    }
    assert(SQL_COLUMNS@.subrange(454, 476) =~= ",\n                    "@) by {
        reveal_strlit(",\n                    ");
    }
    assert(SQL_COLUMNS@.subrange(476, 492) =~= "st.otherServices"@) by {
        reveal_strlit("st.otherServices");
    }
    assert(SQL_COLUMNS@.subrange(492, 494) =~= ", "@) by {
        reveal_strlit(", ");
    }
    assert(SQL_COLUMNS@.subrange(494, 507) =~= "st.updateTime"@) by {
        reveal_strlit("st.updateTime");
    }
    assert(SQL_COLUMNS@.subrange(507, 509) =~= ", "@) by {
        reveal_strlit(", ");
    }
    assert(SQL_COLUMNS@.subrange(509, 523) =~= "st.landingPads"@) by {
        reveal_strlit("st.landingPads");
    }
    assert(SQL_COLUMNS@.subrange(523, 545) =~= ",\n                    "@) by {
        reveal_strlit(",\n                    ");
    }
    assert(SQL_COLUMNS@.subrange(545, 556) =~= "st.latitude"@) by {
        reveal_strlit("st.latitude");
    }
    assert(SQL_COLUMNS@.subrange(556, 558) =~= ", "@) by {
        reveal_strlit(", ");
    }
    assert(SQL_COLUMNS@.subrange(558, 570) =~= "st.longitude"@) by {
        reveal_strlit("st.longitude");
    }
    assert(SQL_COLUMNS@.subrange(570, 572) =~= ", "@) by {
        reveal_strlit(", ");
    }
    assert(SQL_COLUMNS@.subrange(572, 593) =~= "st.controllingFaction"@) by {
        reveal_strlit("st.controllingFaction");
    }
    assert(SQL_COLUMNS@.subrange(593, 615) =~= ",\n                    "@) by {
        reveal_strlit(",\n                    ");
    }
    assert(SQL_COLUMNS@.subrange(615, 623) =~= "st.state"@) by {
        reveal_strlit("st.state");
    }
    assert(SQL_COLUMNS@.subrange(623, 625) =~= ", "@) by {
        reveal_strlit(", ");
    }
    assert(SQL_COLUMNS@.subrange(625, 648) =~= "st.carrierDockingAccess"@) by {
        reveal_strlit("st.carrierDockingAccess");
    }
    assert(SQL_COLUMNS@.subrange(648, 650) =~= ", "@) by {
        reveal_strlit(", ");
    }
    assert(SQL_COLUMNS@.subrange(650, 661) =~= "st.realName"@) by {
        reveal_strlit("st.realName");
    }
    assert(SQL_COLUMNS@.subrange(661, 663) =~= ", "@) by {
        reveal_strlit(", ");
    }
    assert(SQL_COLUMNS@.subrange(663, 677) =~= "st.carrierName"@) by {
        reveal_strlit("st.carrierName");
    }
    assert(SQL_COLUMNS@.subrange(677, 678) =~= " "@) by {
        reveal_strlit(" ");
    }
}

/// Each column of a station and of its system is read under the name by which
/// it is told.
pub proof fn law_columns_are_read_by_name()
    ensures
        SQL_COLUMNS@ == "SELECT "@ + read_as("s.id64"@, "systemId64"@) + ", "@ + read_as("s.name"@,
            "systemName"@) + ",\n                    "@ + read_as("i.minX"@, "x"@) + ", "@
            + read_as("i.minY"@, "y"@) + ", "@ + read_as("i.minZ"@, "z"@)
            + ",\n                    "@ + read_as("st.id"@, "stationId"@) + ", "@
            + read_as("st.name"@, "stationName"@) + ",\n                    "@ + read_as("st.type"@,
            "stationType"@) + ", "@ + "st.distanceToArrival"@ + ",\n                    "@
            + read_as("st.allegiance"@, "stAllegiance"@) + ", "@ + read_as("st.government"@,
            "stGovernment"@) + ",\n                    "@ + read_as("st.economy"@, "stEconomy"@)
            + ", "@ + "st.secondEconomy"@ + ",\n                    "@ + "st.haveMarket"@ + ", "@
            + "st.haveShipyard"@ + ", "@ + "st.haveOutfitting"@ + ",\n                    "@
            + "st.otherServices"@ + ", "@ + "st.updateTime"@ + ", "@ + "st.landingPads"@
            + ",\n                    "@ + "st.latitude"@ + ", "@ + "st.longitude"@ + ", "@
            + "st.controllingFaction"@ + ",\n                    "@ + "st.state"@ + ", "@
            + "st.carrierDockingAccess"@ + ", "@ + "st.realName"@ + ", "@ + "st.carrierName"@
            + " "@,
{
    lemma_columns_cuts();
    let s = SQL_COLUMNS@;
    text::lemma_cuts_join(s, 0, 7, 27);
    text::lemma_cuts_join(s, 0, 27, 29);
    text::lemma_cuts_join(s, 0, 29, 49);
    text::lemma_cuts_join(s, 0, 49, 71);
    text::lemma_cuts_join(s, 0, 71, 82);
    text::lemma_cuts_join(s, 0, 82, 84);
    text::lemma_cuts_join(s, 0, 84, 95);
    text::lemma_cuts_join(s, 0, 95, 97);
    text::lemma_cuts_join(s, 0, 97, 108);
    text::lemma_cuts_join(s, 0, 108, 130);
    text::lemma_cuts_join(s, 0, 130, 148);
    text::lemma_cuts_join(s, 0, 148, 150);
    text::lemma_cuts_join(s, 0, 150, 172);
    text::lemma_cuts_join(s, 0, 172, 194);
    text::lemma_cuts_join(s, 0, 194, 216);
    text::lemma_cuts_join(s, 0, 216, 218);
    text::lemma_cuts_join(s, 0, 218, 238);
    text::lemma_cuts_join(s, 0, 238, 260);
    text::lemma_cuts_join(s, 0, 260, 289);
    text::lemma_cuts_join(s, 0, 289, 291);
    text::lemma_cuts_join(s, 0, 291, 320);
    text::lemma_cuts_join(s, 0, 320, 342);
    text::lemma_cuts_join(s, 0, 342, 365);
    text::lemma_cuts_join(s, 0, 365, 367);
    text::lemma_cuts_join(s, 0, 367, 383);
    text::lemma_cuts_join(s, 0, 383, 405);
    text::lemma_cuts_join(s, 0, 405, 418);
    text::lemma_cuts_join(s, 0, 418, 420);
    text::lemma_cuts_join(s, 0, 420, 435);
    text::lemma_cuts_join(s, 0, 435, 437);
    text::lemma_cuts_join(s, 0, 437, 454);
    text::lemma_cuts_join(s, 0, 454, 476);
    text::lemma_cuts_join(s, 0, 476, 492);
    text::lemma_cuts_join(s, 0, 492, 494);
    text::lemma_cuts_join(s, 0, 494, 507);
    text::lemma_cuts_join(s, 0, 507, 509);
    text::lemma_cuts_join(s, 0, 509, 523);
    text::lemma_cuts_join(s, 0, 523, 545);
    text::lemma_cuts_join(s, 0, 545, 556);
    text::lemma_cuts_join(s, 0, 556, 558);
    text::lemma_cuts_join(s, 0, 558, 570);
    text::lemma_cuts_join(s, 0, 570, 572);
    text::lemma_cuts_join(s, 0, 572, 593);
    text::lemma_cuts_join(s, 0, 593, 615);
    text::lemma_cuts_join(s, 0, 615, 623);
    text::lemma_cuts_join(s, 0, 623, 625);
    text::lemma_cuts_join(s, 0, 625, 648);
    text::lemma_cuts_join(s, 0, 648, 650);
    text::lemma_cuts_join(s, 0, 650, 661);
    text::lemma_cuts_join(s, 0, 661, 663);
    text::lemma_cuts_join(s, 0, 663, 677);
    text::lemma_cuts_join(s, 0, 677, 678);
    assert(s.subrange(0, 678) =~= s);
}

} // verus!
