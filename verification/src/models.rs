//! The records that the mirror takes in, and the queries that it answers.

use crate::json;
use crate::json::{Json, JsonView, Num};
use vstd::prelude::*;

verus! {

/// Where a system lies, in light years.
pub struct SpanshCoords {
    pub x: Num,
    pub y: Num,
    pub z: Num,
}

/// A system with what is known of it; parts that are not known are absent.
pub struct SpanshSystem {
    pub id64: i64,
    pub name: String,
    pub population: Option<i64>,
    pub coords: Option<SpanshCoords>,
    pub bodies: Option<Vec<Json>>,
    pub stations: Option<Vec<Json>>,
    pub allegiance: Option<String>,
    pub government: Option<String>,
    pub primary_economy: Option<String>,
    pub secondary_economy: Option<String>,
    pub security: Option<String>,
    pub body_count: Option<i64>,
    pub date: Option<String>,
    pub controlling_faction: Option<Json>,
    pub factions: Option<Json>,
    pub power_state: Option<String>,
    pub powers: Option<Json>,
    pub controlling_power: Option<String>,
    pub power_state_control_progress: Option<Num>,
    pub power_state_reinforcement: Option<Num>,
    pub power_state_undermining: Option<Num>,
    pub power_conflict_progress: Option<Json>,
    pub thargoid_war: Option<Json>,
}

/// A system with what is known of it, as mathematics.
pub struct SystemView {
    pub id64: i64,
    pub name: Seq<char>,
    pub population: Option<i64>,
    pub coords: Option<SpanshCoords>,
    pub bodies: Option<Seq<JsonView>>,
    pub stations: Option<Seq<JsonView>>,
    pub allegiance: Option<Seq<char>>,
    pub government: Option<Seq<char>>,
    pub primary_economy: Option<Seq<char>>,
    pub secondary_economy: Option<Seq<char>>,
    pub security: Option<Seq<char>>,
    pub body_count: Option<i64>,
    pub date: Option<Seq<char>>,
    pub controlling_faction: Option<JsonView>,
    pub factions: Option<JsonView>,
    pub power_state: Option<Seq<char>>,
    pub powers: Option<JsonView>,
    pub controlling_power: Option<Seq<char>>,
    pub power_state_control_progress: Option<Num>,
    pub power_state_reinforcement: Option<Num>,
    pub power_state_undermining: Option<Num>,
    pub power_conflict_progress: Option<JsonView>,
    pub thargoid_war: Option<JsonView>,
}

impl SpanshSystem {
    pub open spec fn view(&self) -> SystemView {
        SystemView {
            id64: self.id64,
            name: self.name@,
            population: self.population,
            coords: self.coords,
            bodies: json::array_view(self.bodies),
            stations: json::array_view(self.stations),
            allegiance: json::text_view(self.allegiance),
            government: json::text_view(self.government),
            primary_economy: json::text_view(self.primary_economy),
            secondary_economy: json::text_view(self.secondary_economy),
            security: json::text_view(self.security),
            body_count: self.body_count,
            date: json::text_view(self.date),
            controlling_faction: json::json_view(self.controlling_faction),
            factions: json::json_view(self.factions),
            power_state: json::text_view(self.power_state),
            powers: json::json_view(self.powers),
            controlling_power: json::text_view(self.controlling_power),
            power_state_control_progress: self.power_state_control_progress,
            power_state_reinforcement: self.power_state_reinforcement,
            power_state_undermining: self.power_state_undermining,
            power_conflict_progress: json::json_view(self.power_conflict_progress),
            thargoid_war: json::json_view(self.thargoid_war),
        }
    }
}

/// A system on a route: its id, and where it lies, by the bits of the doubles.
#[derive(Clone, Copy, Debug)]
pub struct RouteNode {
    pub id64: i64,
    pub x: u64,
    pub y: u64,
    pub z: u64,
}

/// A search for systems or bodies in a cube.
pub struct CubeSearchQuery {
    pub ref_system: Option<String>,
    pub center: Option<String>,
    pub x: Option<Num>,
    pub y: Option<Num>,
    pub z: Option<Num>,
    pub size: Option<Num>,
    pub body_type: Option<String>,
    pub custom_filter: Option<String>,
}

/// A question about one system, by name or by id.
pub struct SystemQuery {
    pub system_name: Option<String>,
    pub id64: Option<i64>,
}

/// A route for a ship.
pub struct RouteQuery {
    pub source: String,
    pub destination: String,
}

/// A search for the stations nearest to a system.
pub struct NearestStationQuery {
    pub ref_system: String,
    pub radius: Option<Num>,
    pub limit: Option<usize>,
    pub allegiance: Option<String>,
    pub government: Option<String>,
    pub economy: Option<String>,
    pub station_type: Option<String>,
    pub min_landing_pad: Option<String>,
    pub max_station_distance: Option<Num>,
    pub use_surface_stations: bool,
    pub ignore_fleet_carriers: Option<bool>,
}

/// A route for a fleet carrier.
pub struct CarrierRouteQuery {
    pub current_system: String,
    pub destination: String,
    pub used_cargo: Num,
    pub tank_fuel: Num,
    pub stored_tritium: Num,
    pub is_squadron: Option<bool>,
    pub engine: Option<String>,
}

/// A route along neutron stars.
pub struct NeutronRouteQuery {
    pub source: String,
    pub destination: String,
    pub range: Num,
    pub supercharge_type: String,
    pub engine: Option<String>,
}

} // verus!
