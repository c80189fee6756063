//! Keeping the mirror in step with the nightly dump of the galaxy.

use crate::clause;
use crate::config::SYNC_INTERVAL_SECONDS;
use crate::db;
use crate::models::SpanshSystem;
use crate::text;
use crate::text::{chars_of, matches_at, parse_u64, same, text_of};
use vstd::prelude::*;

verus! {

/// How many systems are written at a time.
pub const BATCH: usize = 5000;

/// Fills the table of systems with a neutron star from the bodies.
pub const SQL_BACKFILL_NEUTRONS: &'static str = "INSERT OR IGNORE INTO neutron_systems (systemId64)
                         SELECT DISTINCT systemId64 FROM bodies WHERE subType='Neutron Star'";

/// Fills the table of systems with a prison from the systems and the stations.
pub const SQL_BACKFILL_PRISONS: &'static str = "INSERT OR IGNORE INTO prison_systems (systemId64)
                            SELECT id64 FROM systems
                            WHERE government LIKE '%rison%' COLLATE NOCASE;
                         INSERT OR IGNORE INTO prison_systems (systemId64)
                            SELECT DISTINCT systemId64 FROM stations
                            WHERE government LIKE '%rison%' COLLATE NOCASE;";

/// Whether a table is filled once from the rest of the database: it is empty,
/// and there is something to fill it from. A count that could not be read is
/// zero.
pub fn needs_backfill(rows: Option<i64>, sources: Option<i64>) -> (r: bool)
    ensures
        r == ((rows is None || rows == Some(0i64)) && (sources matches Some(n) && n > 0)),
{
    let rows: i64 = match rows {
        Some(n) => n,
        None => 0,
    };
    let sources: i64 = match sources {
        Some(n) => n,
        None => 0,
    };
    rows == 0 && sources > 0
}

/// When the last sync was, by what the database says; the beginning of time
/// where it says nothing that can be read.
pub open spec fn last_sync(value: Option<Seq<char>>) -> u64 {
    match value {
        Some(s) => match text::u64_in(s) {
            Some(n) => n,
            None => 0,
        },
        None => 0,
    }
}

/// The text of an optional string.
pub open spec fn text_in(s: Option<String>) -> Option<Seq<char>> {
    match s {
        Some(s) => Some(s@),
        None => None,
    }
}

/// When the last sync was, by what the database says.
pub fn last_sync_time(value: &Option<String>) -> (r: u64)
    ensures
        r == last_sync(text_in(*value)),
{
    match value {
        Some(s) => match parse_u64(s.as_str()) {
            Some(n) => n,
            None => 0,
        },
        None => 0,
    }
}

/// Whether a sync is due at `now`: the last is longer ago than the interval.
/// None is due where the clock stands before the last.
pub fn is_stale(now: u64, last: u64) -> (r: bool)
    ensures
        r == (now - last > SYNC_INTERVAL_SECONDS),
{
    last <= now && now - last > SYNC_INTERVAL_SECONDS
}

/// What to do about a dump: whether to fetch it, and the time that is then
/// kept. A dump of a time other than the one that was kept is fetched; where
/// its time is not known, it is fetched when a sync is due by the clock.
pub fn sync_decision(
    skip: bool,
    remote: Option<String>,
    stored: &Option<String>,
    stale: bool,
) -> (r: (bool, Option<String>))
    ensures
        match remote {
            _ if skip => r.0 == false && r.1 is None,
            Some(t) => {
                let known = text_in(*stored) == Some(t@);
                r.0 == !known && text_in(r.1) == if known {
                    None
                } else {
                    Some(t@)
                }
            },
            None => r.0 == stale && r.1 is None,
        },
{
    if skip {
        return (false, None);
    }
    match remote {
        Some(t) => {
            let known = match stored {
                Some(s) => same(s.as_str(), t.as_str()),
                None => false,
            };
            if known {
                (false, None)
            } else {
                (true, Some(t))
            }
        },
        None => (stale, None),
    }
}

/// A digit.
pub open spec fn is_digit(c: char) -> bool {
    '0' <= c <= '9'
}

/// The place `i` of `YYYY-MM-DD HH:MM:SS` admits `c`.
pub open spec fn fits(i: int, c: char) -> bool {
    if i == 4 || i == 7 {
        c == '-'
    } else if i == 10 {
        c == ' '
    } else if i == 13 || i == 16 {
        c == ':'
    } else {
        is_digit(c)
    }
}

/// A date and a time, as in `2025-01-15 12:34:56`, stands in `w` at `at`.
pub open spec fn is_stamp(w: Seq<char>, at: int) -> bool {
    &&& 0 <= at
    &&& at + 19 <= w.len()
    &&& forall|i: int| 0 <= i < 19 ==> #[trigger] fits(i, w[at + i])
}

fn stamp_at(w: &Vec<char>, at: usize) -> (r: bool)
    requires
        at + 19 <= w.len(),
    ensures
        r == is_stamp(w@, at as int),
{
    for i in 0..19usize
        invariant
            at + 19 <= w.len(),
            forall|k: int| 0 <= k < i ==> #[trigger] fits(k, w@[at + k]),
    {
        let c = w[at + i];
        let good = if i == 4 || i == 7 {
            c == '-'
        } else if i == 10 {
            c == ' '
        } else if i == 13 || i == 16 {
            c == ':'
        } else {
            '0' <= c && c <= '9'
        };
        if !good {
            assert(!fits(i as int, w@[at + i]));
            return false;
        }
    }
    true
}

/// The part of the page that is searched: up to 800 characters from the name
/// of the file on.
pub open spec fn window(page: Seq<char>, at: int) -> Seq<char> {
    if at + 800 <= page.len() {
        page.subrange(at, at + 800)
    } else {
        page.subrange(at, page.len() as int)
    }
}

/// `at` is the first place of `needle` in `hay`.
pub open spec fn is_first(hay: Seq<char>, needle: Seq<char>, at: int) -> bool {
    text::stands_at(hay, needle, at) && forall|k: int|
        k < at ==> !(#[trigger] text::stands_at(hay, needle, k))
}

/// `i` is the first place of a date and a time in `w`.
pub open spec fn is_first_stamp(w: Seq<char>, i: int) -> bool {
    is_stamp(w, i) && forall|k: int| k < i ==> !(#[trigger] is_stamp(w, k))
}

/// The time at which a dump was made, as the page of the dumps shows it: the
/// first date and time behind the name of the file.
pub fn dump_time_in(page: &str, filename: &str) -> (r: Option<String>)
    ensures
        match r {
            Some(t) => exists|at: int, i: int| #[trigger]
                is_first(page@, filename@, at) && #[trigger] is_first_stamp(window(page@, at), i)
                    && t@ == window(page@, at).subrange(i, i + 19),
            None => !text::occurs(page@, filename@) || exists|at: int| #[trigger]
                is_first(page@, filename@, at) && forall|i: int|
                    !(#[trigger] is_stamp(window(page@, at), i)),
        },
{
    let hay = chars_of(page);
    let needle = chars_of(filename);
    let mut at: usize = 0;
    while at < hay.len() && !matches_at(&hay, &needle, at)
        invariant
            hay@ == page@,
            needle@ == filename@,
            at <= hay.len(),
            forall|k: int| k < at ==> !(#[trigger] text::stands_at(page@, filename@, k)),
        decreases hay.len() - at,
    {
        at = at + 1;
    }
    if !matches_at(&hay, &needle, at) {
        assert forall|k: int| !(#[trigger] text::stands_at(page@, filename@, k)) by {}
        return None;
    }
    assert(is_first(page@, filename@, at as int));
    let end: usize = if hay.len() - at >= 800 {
        at + 800
    } else {
        hay.len()
    };
    let ghost w = window(page@, at as int);
    let mut rest: Vec<char> = Vec::new();
    for i in at..end
        invariant
            end <= hay.len(),
            rest@ == hay@.subrange(at as int, i as int),
    {
        rest.push(hay[i]);
        assert(hay@.subrange(at as int, i + 1) =~= hay@.subrange(at as int, i as int).push(
            hay@[i as int],
        ));
    }
    assert(rest@ == w);
    let mut i: usize = 0;
    while i + 19 <= rest.len()
        invariant
            rest@ == w,
            i <= rest.len() <= 800,
            w == window(page@, at as int),
            is_first(page@, filename@, at as int),
            forall|k: int| k < i ==> !(#[trigger] is_stamp(w, k)),
        decreases rest.len() - i,
    {
        if stamp_at(&rest, i) {
            assert(is_first_stamp(w, i as int));
            return Some(text_of(&rest, i, i + 19));
        }
        i = i + 1;
    }
    None
}

/// The systems of a dump on their way into the database: those that wait for
/// their batch to be full, and the number of all so far.
pub struct Importer {
    pub batch: Vec<SpanshSystem>,
    pub count: u64,
}

impl Importer {
    /// A batch that waits is not full.
    pub open spec fn wf(&self) -> bool {
        self.batch.len() < BATCH
    }

    /// No systems yet.
    pub fn new() -> (r: Importer)
        ensures
            r.wf(),
            r.batch.len() == 0,
            r.count == 0,
    {
        Importer { batch: Vec::new(), count: 0 }
    }

    /// Takes a system; hands out the batch where it is full now.
    pub fn take(&mut self, sys: SpanshSystem) -> (r: Option<Vec<SpanshSystem>>)
        requires
            old(self).wf(),
            old(self).count < u64::MAX,
        ensures
            final(self).wf(),
            final(self).count == old(self).count + 1,
            match r {
                Some(b) => {
                    &&& b@ == old(self).batch@.push(sys)
                    &&& b.len() == BATCH
                    &&& final(self).batch.len() == 0
                },
                None => final(self).batch@ == old(self).batch@.push(sys),
            },
    {
        self.batch.push(sys);
        self.count = self.count + 1;
        if self.batch.len() >= BATCH {
            let mut full: Vec<SpanshSystem> = Vec::new();
            full.append(&mut self.batch);
            assert(full@ =~= old(self).batch@.push(sys));
            Some(full)
        } else {
            None
        }
    }

    /// Hands out what still waits at the end.
    pub fn finish(self) -> (r: Option<Vec<SpanshSystem>>)
        ensures
            match r {
                Some(b) => b@ == self.batch@ && b.len() > 0,
                None => self.batch.len() == 0,
            },
    {
        if self.batch.len() == 0 {
            None
        } else {
            Some(self.batch)
        }
    }
}

/// The time of a sync is read back as it was written; what cannot be read is
/// the beginning of time.
pub proof fn law_sync_times_are_read_back(n: u64, s: Seq<char>)
    ensures
        last_sync(Some(text::numeral(n as nat))) == n,
        text::u64_in(s) is None ==> last_sync(Some(s)) == 0,
        last_sync(None) == 0,
{
    text::lemma_numeral_value(n as nat);
    let t = text::numeral(n as nat);
    assert(t[0] != '+');
    assert(t.skip(0) =~= t);
}

proof fn lemma_neutron_stars_are_filled_in_cuts()
    ensures
        SQL_BACKFILL_NEUTRONS@.len() == 143,
        SQL_BACKFILL_NEUTRONS@.subrange(0, 130)
            == "INSERT OR IGNORE INTO neutron_systems (systemId64)\n                         SELECT DISTINCT systemId64 FROM bodies WHERE subType='"@,
        SQL_BACKFILL_NEUTRONS@.subrange(130, 142) == "Neutron Star"@,
        SQL_BACKFILL_NEUTRONS@.subrange(142, 143) == "'"@,
{
    reveal_strlit("INSERT OR IGNORE INTO neutron_systems (systemId64)\n                         SELECT DISTINCT systemId64 FROM bodies WHERE subType='Neutron Star'");
    assert(SQL_BACKFILL_NEUTRONS@.subrange(0,
        130) =~= "INSERT OR IGNORE INTO neutron_systems (systemId64)\n                         SELECT DISTINCT systemId64 FROM bodies WHERE subType='"@) by {
        reveal_strlit("INSERT OR IGNORE INTO neutron_systems (systemId64)\n                         SELECT DISTINCT systemId64 FROM bodies WHERE subType='");
    }
    assert(SQL_BACKFILL_NEUTRONS@.subrange(130, 142) =~= "Neutron Star"@) by {
        reveal_strlit("Neutron Star");
    }
    assert(SQL_BACKFILL_NEUTRONS@.subrange(142, 143) =~= "'"@) by {
        reveal_strlit("'");
    }
}

/// The systems with a neutron star are filled in from the bodies of the kind
/// that marks a system when it is written.
pub proof fn law_neutron_stars_are_filled_in()
    ensures
        SQL_BACKFILL_NEUTRONS@
            == "INSERT OR IGNORE INTO neutron_systems (systemId64)\n                         SELECT DISTINCT systemId64 FROM bodies WHERE subType='"@
            + "Neutron Star"@ + "'"@,
{
    lemma_neutron_stars_are_filled_in_cuts();
    let s = SQL_BACKFILL_NEUTRONS@;
    text::lemma_cuts_join(s, 0, 130, 142);
    text::lemma_cuts_join(s, 0, 142, 143);
    assert(s.subrange(0, 143) =~= s);
}

proof fn lemma_prisons_are_filled_in_cuts()
    ensures
        SQL_BACKFILL_PRISONS@.len() == 398,
        SQL_BACKFILL_PRISONS@.subrange(0, 154)
            == "INSERT OR IGNORE INTO prison_systems (systemId64)\n                            SELECT id64 FROM systems\n                            WHERE government LIKE '"@,
        SQL_BACKFILL_PRISONS@.subrange(154, 161) == "%rison%"@,
        SQL_BACKFILL_PRISONS@.subrange(161, 374)
            == "' COLLATE NOCASE;\n                         INSERT OR IGNORE INTO prison_systems (systemId64)\n                            SELECT DISTINCT systemId64 FROM stations\n                            WHERE government LIKE '"@,
        SQL_BACKFILL_PRISONS@.subrange(374, 381) == "%rison%"@,
        SQL_BACKFILL_PRISONS@.subrange(381, 398) == "' COLLATE NOCASE;"@,
{
    reveal_strlit("INSERT OR IGNORE INTO prison_systems (systemId64)\n                            SELECT id64 FROM systems\n                            WHERE government LIKE '%rison%' COLLATE NOCASE;\n                         INSERT OR IGNORE INTO prison_systems (systemId64)\n                            SELECT DISTINCT systemId64 FROM stations\n                            WHERE government LIKE '%rison%' COLLATE NOCASE;");
    assert(SQL_BACKFILL_PRISONS@.subrange(0,
        154) =~= "INSERT OR IGNORE INTO prison_systems (systemId64)\n                            SELECT id64 FROM systems\n                            WHERE government LIKE '"@) by {
        reveal_strlit("INSERT OR IGNORE INTO prison_systems (systemId64)\n                            SELECT id64 FROM systems\n                            WHERE government LIKE '");
    }
    assert(SQL_BACKFILL_PRISONS@.subrange(154, 161) =~= "%rison%"@) by {
        reveal_strlit("%rison%");
    }
    assert(SQL_BACKFILL_PRISONS@.subrange(161,
        374) =~= "' COLLATE NOCASE;\n                         INSERT OR IGNORE INTO prison_systems (systemId64)\n                            SELECT DISTINCT systemId64 FROM stations\n                            WHERE government LIKE '"@) by {
        reveal_strlit("' COLLATE NOCASE;\n                         INSERT OR IGNORE INTO prison_systems (systemId64)\n                            SELECT DISTINCT systemId64 FROM stations\n                            WHERE government LIKE '");
    }
    assert(SQL_BACKFILL_PRISONS@.subrange(374, 381) =~= "%rison%"@) by {
        reveal_strlit("%rison%");
    }
    assert(SQL_BACKFILL_PRISONS@.subrange(381, 398) =~= "' COLLATE NOCASE;"@) by {
        reveal_strlit("' COLLATE NOCASE;");
    }
}

/// The systems with a prison are filled in from the governments that mark a
/// system when it is written: a government is like the pattern exactly where it
/// keeps a prison.
pub proof fn law_prisons_are_filled_in(g: Seq<char>)
    ensures
        SQL_BACKFILL_PRISONS@
            == "INSERT OR IGNORE INTO prison_systems (systemId64)\n                            SELECT id64 FROM systems\n                            WHERE government LIKE '"@
            + "%rison%"@
            + "' COLLATE NOCASE;\n                         INSERT OR IGNORE INTO prison_systems (systemId64)\n                            SELECT DISTINCT systemId64 FROM stations\n                            WHERE government LIKE '"@
            + "%rison%"@ + "' COLLATE NOCASE;"@,
        clause::is_like(g, "%rison%"@) <==> db::is_prison(Some(g)),
{
    lemma_prisons_are_filled_in_cuts();
    let s = SQL_BACKFILL_PRISONS@;
    text::lemma_cuts_join(s, 0, 154, 161);
    text::lemma_cuts_join(s, 0, 161, 374);
    text::lemma_cuts_join(s, 0, 374, 381);
    text::lemma_cuts_join(s, 0, 381, 398);
    assert(s.subrange(0, 398) =~= s);
    reveal_strlit("%rison%");
    reveal_strlit("rison");
    reveal_strlit("%");
    assert("%rison%"@ =~= "%"@ + "rison"@ + "%"@);
    clause::law_patterns_find_their_text(g, "rison"@);
    assert(text::ascii_lower_all("rison"@) =~= "rison"@);
}

} // verus!
