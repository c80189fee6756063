//! Counters and caches that the parts of the mirror share.

use crate::json;
use crate::json::{Json, JsonView};
use vstd::prelude::*;

verus! {

/// Live ingest counters for EDMC.
#[derive(Clone, Copy)]
pub struct EdmcStats {
    pub systems_ingested: u64,
    pub bodies_ingested: u64,
    pub stations_ingested: u64,
    /// Unix seconds of the latest ingest.
    pub last_ingest_time: u64,
}

impl EdmcStats {
    /// The counters at the start.
    pub fn new() -> (r: EdmcStats)
        ensures
            r == (EdmcStats {
                systems_ingested: 0,
                bodies_ingested: 0,
                stations_ingested: 0,
                last_ingest_time: 0,
            }),
    {
        EdmcStats {
            systems_ingested: 0,
            bodies_ingested: 0,
            stations_ingested: 0,
            last_ingest_time: 0,
        }
    }

    /// Counts an ingest; the counters wrap round.
    pub fn ingested(&mut self, systems: u64, bodies: u64, stations: u64, now: u64)
        ensures
            *final(self) == (EdmcStats {
                systems_ingested: old(self).systems_ingested.wrapping_add(systems),
                bodies_ingested: old(self).bodies_ingested.wrapping_add(bodies),
                stations_ingested: old(self).stations_ingested.wrapping_add(stations),
                last_ingest_time: now,
            }),
    {
        self.systems_ingested = self.systems_ingested.wrapping_add(systems);
        self.bodies_ingested = self.bodies_ingested.wrapping_add(bodies);
        self.stations_ingested = self.stations_ingested.wrapping_add(stations);
        self.last_ingest_time = now;
    }
}

/// Live ingest counters for EDDN.
#[derive(Clone, Copy)]
pub struct EddnStats {
    /// Raw frames received from the relay.
    pub messages_received: u64,
    /// Frames that survived unpacking, reading and dispatch.
    pub messages_processed: u64,
    /// Frames that could not be unpacked or read, or of a schema that is not
    /// read.
    pub messages_dropped: u64,
    pub systems_emitted: u64,
    pub bodies_emitted: u64,
    pub stations_emitted: u64,
    /// Unix seconds of the latest message that was processed.
    pub last_message_time: u64,
    pub reconnects: u64,
    /// 1 while the listener is connected, else 0.
    pub connected: u64,
}

impl EddnStats {
    /// The counters at the start.
    pub fn new() -> (r: EddnStats)
        ensures
            r == (EddnStats {
                messages_received: 0,
                messages_processed: 0,
                messages_dropped: 0,
                systems_emitted: 0,
                bodies_emitted: 0,
                stations_emitted: 0,
                last_message_time: 0,
                reconnects: 0,
                connected: 0,
            }),
    {
        EddnStats {
            messages_received: 0,
            messages_processed: 0,
            messages_dropped: 0,
            systems_emitted: 0,
            bodies_emitted: 0,
            stations_emitted: 0,
            last_message_time: 0,
            reconnects: 0,
            connected: 0,
        }
    }
}

/// An answer that is kept for a day.
pub struct CarrierCache {
    pub data: Option<Json>,
    pub expires_at: u64,
}

impl CarrierCache {
    /// The answer that is kept, unless it has expired.
    pub open spec fn kept(&self, now: u64) -> Option<JsonView> {
        if now < self.expires_at {
            json::json_view(self.data)
        } else {
            None
        }
    }

    /// The cache that holds nothing.
    pub fn new() -> (r: CarrierCache)
        ensures
            r.data is None,
            r.expires_at == 0,
    {
        CarrierCache { data: None, expires_at: 0 }
    }

    /// The answer that is kept at the time `now`.
    pub fn get(&self, now: u64) -> (r: Option<Json>)
        ensures
            json::json_view(r) == self.kept(now),
    {
        if now < self.expires_at {
            match &self.data {
                Some(d) => Some(d.copy()),
                None => None,
            }
        } else {
            None
        }
    }

    /// Keeps an answer for a day from the time `now`.
    pub fn store(&mut self, data: Json, now: u64)
        requires
            now <= u64::MAX - 86400,
        ensures
            json::json_view(final(self).data) == Some(data@),
            final(self).expires_at == now + 86400,
    {
        self.data = Some(data);
        self.expires_at = now + 86400;
    }
}

/// An answer that was stored is handed out for a day, and no longer.
pub proof fn law_cache_keeps_a_day(c: CarrierCache, data: JsonView, stored: u64, now: u64)
    requires
        stored <= u64::MAX - 86400,
        json::json_view(c.data) == Some(data),
        c.expires_at == stored + 86400,
    ensures
        c.kept(now) == if now < stored + 86400 {
            Some(data)
        } else {
            None::<JsonView>
        },
{
}

} // verus!
