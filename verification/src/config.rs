//! Settings of the mirror.

use vstd::prelude::*;

verus! {

pub const DB_FILE: &'static str = "edsm_cube.db";

pub const PORT: u16 = 8000;

pub const URL_SYSTEMS_1DAY: &'static str = "https://downloads.spansh.co.uk/galaxy_1day.json.gz";

pub const FILE_SYSTEMS_1DAY: &'static str = "galaxy_1day.json.gz";

pub const FILE_SYSTEMS_DOWNLOADING: &'static str = "galaxy_1day.json.gz.downloading";

/// Six hours.
pub const SYNC_INTERVAL_SECONDS: u64 = 21600;

pub const MAX_CONCURRENT_QUERIES: usize = 6;

pub const MAX_CONCURRENT_ASTAR: usize = 2;

/// Two minutes.
pub const SHIP_ROUTE_BUDGET_MS: u128 = 120000;

pub const EDMC_KEY_ENV: &'static str = "ANANKE_EDMC_KEY";

pub const EDDN_RELAY_URL: &'static str = "tcp://eddn.edcd.io:9500";

pub const EDDN_RELAY_ENV: &'static str = "ANANKE_EDDN_RELAY";

pub const EDDN_DISABLE_ENV: &'static str = "ANANKE_EDDN_DISABLE";

pub const EDDN_RECV_TIMEOUT_MS: i32 = 60000;

pub const EDDN_RECONNECT_BASE_MS: u64 = 1000;

pub const EDDN_RECONNECT_MAX_MS: u64 = 60000;

pub const EDDN_FLUSH_INTERVAL_MS: u64 = 1000;

pub const EDDN_FLUSH_BATCH_SIZE: usize = 200;

/// The western edge of the map, -50000 light years, by the bits of the double.
pub const HEATMAP_X_MIN: u64 = 0xc0e8_6a00_0000_0000;

/// The eastern edge of the map, 50000 light years, by the bits of the double.
pub const HEATMAP_X_MAX: u64 = 0x40e8_6a00_0000_0000;

/// The southern edge of the map, -25000 light years, by the bits of the double.
pub const HEATMAP_Z_MIN: u64 = 0xc0d8_6a00_0000_0000;

/// The northern edge of the map, 75000 light years, by the bits of the double.
pub const HEATMAP_Z_MAX: u64 = 0x40f2_4f80_0000_0000;

/// What is left of a count after five minutes, 0.9928057 by the bits of the
/// double: about one half after eight hours.
pub const HEATMAP_DECAY_FACTOR: u64 = 0x3fef_c510_7599_0951;

pub const HEATMAP_W: usize = 1024;

pub const HEATMAP_H: usize = 1024;

pub const HEATMAP_DECAY_INTERVAL_SECS: u64 = 300;

pub const HEATMAP_RENDER_CACHE_SECS: u64 = 30;

/// Thirty minutes.
pub const CARRIER_REFINE_BUDGET_MS: u128 = 1800000;

/// Thirty minutes.
pub const NEUTRON_REFINE_BUDGET_MS: u128 = 1800000;

/// The length of a segment of a neutron route, 2000 light years, by the bits of
/// the double.
pub const NEUTRON_SEG_LY: u64 = 0x409f_4000_0000_0000;

} // verus!
