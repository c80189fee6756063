# Ananke

Ananke answers questions about the galaxy of Elite Dangerous: what a system
holds, what lies in a cube round it, where the nearest station is, and how a
ship, a carrier or a ship with a neutron boost gets from one system to another.
It takes in live data from EDDN and from EDMC plugins, keeps them in a SQLite
database (`edsm_cube.db`), and draws a map of where commanders are.

`src/` is a library whose functions are verified by Verus: the searches for
routes, the reading of events, the rows that are written, the queries and the
answers. `app/` is the server round it: HTTP, the database, the relay, the
graphics device, and all that is floating point. Distances reach the library as
the bits of doubles, which are ordered as the doubles are where these are not
negative; what is measured is handed in as closures.

## Running

- `ANANKE_EDMC_KEY`: the key that EDMC plugins have to send. Without it the
  ingest endpoints are open.
- `ANANKE_EDDN_DISABLE`: any text switches the EDDN listener off.
- `ANANKE_EDDN_RELAY`: the address of another relay.
- `--skip-download`: skips the first sync with the daily dump.

Routes are refined on a Vulkan device where there is one and the working
directory holds `relax.spv`, the compiled `extras/relax.comp`
(`glslc extras/relax.comp -o relax.spv`), and on the CPU otherwise.
