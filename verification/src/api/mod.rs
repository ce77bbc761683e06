//! The answers of the public API, and what it keeps between requests.

pub mod admin;
pub mod leaderboard;
pub mod pools;
pub mod preview;
pub mod stats;
pub mod users;

use vstd::prelude::*;

use crate::sui::types::{OracleSvi, OracleView, PoolConfigData};
use crate::text::{same, view_opt};

verus! {

/// Nanoseconds for which a fetched oracle is used.
pub const ORACLE_TTL: u64 = 10_000_000_000;

/// Nanoseconds for which the fetched pool configuration is used.
pub const CONFIG_TTL: u64 = 60_000_000_000;

/// Whether something fetched at `at` is still good at `now`. Both are nanoseconds
/// on one clock; a clock that stands or goes back ages nothing.
pub open spec fn fresh(at: u64, now: u64, ttl: u64) -> bool {
    now - at < ttl
}

fn is_fresh(at: u64, now: u64, ttl: u64) -> (r: bool)
    requires
        ttl > 0,
    ensures
        r == fresh(at, now, ttl),
{
    now <= at || now - at < ttl
}

/// Oracles by their id, each with the time at which it was fetched.
pub struct OracleCache {
    entries: Vec<(String, u64, OracleSvi)>,
}

/// The place of an id among the entries; their number if it is not there.
spec fn place_of(entries: Seq<(String, u64, OracleSvi)>, id: Seq<char>) -> int
    decreases entries.len(),
{
    if entries.len() == 0 {
        0
    } else if entries[0].0@ == id {
        0
    } else {
        1 + place_of(entries.skip(1), id)
    }
}

proof fn lemma_place(entries: Seq<(String, u64, OracleSvi)>, id: Seq<char>)
    ensures
        0 <= place_of(entries, id) <= entries.len(),
        place_of(entries, id) < entries.len() ==> entries[place_of(entries, id)].0@ == id,
        forall|i: int|
            0 <= i < place_of(entries, id) && i < entries.len() ==> (#[trigger] entries[i]).0@
                != id,
    decreases entries.len(),
{
    if entries.len() > 0 && entries[0].0@ != id {
        let rest = entries.skip(1);
        lemma_place(rest, id);
        assert forall|i: int|
            0 <= i < place_of(entries, id) && i < entries.len() implies (#[trigger] entries[i]).0@
            != id by {
            if i > 0 {
                assert(entries[i] == rest[i - 1]);
            }
        }
    }
}

/// A place is known by what is there and what is before it.
proof fn lemma_place_is(entries: Seq<(String, u64, OracleSvi)>, id: Seq<char>, at: int)
    requires
        0 <= at <= entries.len(),
        at < entries.len() ==> entries[at].0@ == id,
        forall|i: int| 0 <= i < at ==> (#[trigger] entries[i]).0@ != id,
    ensures
        place_of(entries, id) == at,
{
    lemma_place(entries, id);
    let p = place_of(entries, id);
    if p < at {
        assert(entries[p].0@ != id);
    } else if at < p {
        assert(entries[at].0@ != id);
    }
}

impl View for OracleCache {
    type V = Map<Seq<char>, (u64, OracleView)>;

    closed spec fn view(&self) -> Map<Seq<char>, (u64, OracleView)> {
        Map::new(
            |id: Seq<char>| place_of(self.entries@, id) < self.entries@.len(),
            |id: Seq<char>|
                (
                    self.entries@[place_of(self.entries@, id)].1,
                    self.entries@[place_of(self.entries@, id)].2@,
                ),
        )
    }
}

/// The oracle that a cache has for an id, if it is still good.
pub open spec fn cached(
    c: Map<Seq<char>, (u64, OracleView)>,
    id: Seq<char>,
    now: u64,
) -> Option<OracleView> {
    if c.contains_key(id) && fresh(c[id].0, now, ORACLE_TTL) {
        Some(c[id].1)
    } else {
        None
    }
}

impl OracleCache {
    pub fn new() -> (r: OracleCache)
        ensures
            r@ == Map::<Seq<char>, (u64, OracleView)>::empty(),
    {
        let r = OracleCache { entries: Vec::new() };
        assert(r@ =~= Map::<Seq<char>, (u64, OracleView)>::empty());
        r
    }

    fn find(&self, id: &str) -> (r: usize)
        ensures
            r == place_of(self.entries@, id@),
            r <= self.entries@.len(),
    {
        let mut i: usize = 0;
        while i < self.entries.len() && !same(self.entries[i].0.as_str(), id)
            invariant
                i <= self.entries@.len(),
                forall|k: int| 0 <= k < i ==> (#[trigger] self.entries@[k]).0@ != id@,
            ensures
                i <= self.entries@.len(),
                i < self.entries@.len() ==> self.entries@[i as int].0@ == id@,
                forall|k: int| 0 <= k < i ==> (#[trigger] self.entries@[k]).0@ != id@,
            decreases self.entries@.len() - i,
        {
            i = i + 1;
        }
        proof {
            lemma_place_is(self.entries@, id@, i as int);
        }
        i
    }

    /// The oracle for an id, unless it is unknown or too old.
    pub fn lookup(&self, id: &str, now: u64) -> (r: Option<OracleSvi>)
        ensures
            view_opt(r) == cached(self@, id@, now),
    {
        let i = self.find(id);
        if i < self.entries.len() && is_fresh(self.entries[i].1, now, ORACLE_TTL) {
            Some(self.entries[i].2.copy())
        } else {
            None
        }
    }

    /// Keeps an oracle that was fetched now.
    pub fn store(&mut self, id: &str, now: u64, svi: OracleSvi)
        ensures
            final(self)@ == old(self)@.insert(id@, (now, svi@)),
    {
        let ghost before = self@;
        let ghost was = self.entries@;
        let i = self.find(id);
        let entry = (id.to_owned(), now, svi);
        if i < self.entries.len() {
            self.entries.set(i, entry);
        } else {
            self.entries.push(entry);
        }
        proof {
            lemma_place(was, id@);
            lemma_place_is(self.entries@, id@, i as int);
            assert(self@.contains_key(id@));
            assert(self@[id@] == (now, svi@));
            assert forall|other: Seq<char>| other != id@ implies (#[trigger] self@.contains_key(
                other,
            )) == before.contains_key(other) && (before.contains_key(other) ==> self@[other]
                == before[other]) by {
                lemma_place(was, other);
                let p = place_of(was, other);
                if p < was.len() {
                    lemma_place_is(self.entries@, other, p);
                } else {
                    lemma_place_is(self.entries@, other, self.entries@.len() as int);
                }
            }
            assert(self@ =~= before.insert(id@, (now, svi@)));
        }
    }
}

/// What was stored is found until it is too old, and no longer.
pub proof fn law_cache_returns_what_was_stored(
    c: Map<Seq<char>, (u64, OracleView)>,
    id: Seq<char>,
    at: u64,
    svi: OracleView,
    now: u64,
)
    ensures
        cached(c.insert(id, (at, svi)), id, now) == if now - at < ORACLE_TTL {
            Some(svi)
        } else {
            None
        },
{
}

/// Storing one oracle leaves the others alone.
pub proof fn law_cache_keeps_oracles_apart(
    c: Map<Seq<char>, (u64, OracleView)>,
    id: Seq<char>,
    other: Seq<char>,
    at: u64,
    svi: OracleView,
    now: u64,
)
    requires
        id != other,
    ensures
        cached(c.insert(id, (at, svi)), other, now) == cached(c, other, now),
{
}

/// The pool configuration, with the time at which it was fetched.
pub struct ConfigCache {
    pub slot: Option<(u64, PoolConfigData)>,
}

/// The configuration, if it is still good.
pub open spec fn cached_config(slot: Option<(u64, PoolConfigData)>, now: u64) -> Option<
    PoolConfigData,
> {
    match slot {
        Some((at, cfg)) => if fresh(at, now, CONFIG_TTL) {
            Some(cfg)
        } else {
            None
        },
        None => None,
    }
}

impl ConfigCache {
    pub fn new() -> (r: ConfigCache)
        ensures
            r.slot is None,
    {
        ConfigCache { slot: None }
    }

    pub fn lookup(&self, now: u64) -> (r: Option<PoolConfigData>)
        ensures
            r == cached_config(self.slot, now),
    {
        match self.slot {
            Some((at, cfg)) => if is_fresh(at, now, CONFIG_TTL) {
                Some(cfg)
            } else {
                None
            },
            None => None,
        }
    }

    /// Keeps a configuration that was fetched now.
    pub fn store(&mut self, now: u64, cfg: PoolConfigData)
        ensures
            final(self).slot == Some((now, cfg)),
    {
        self.slot = Some((now, cfg));
    }
}

/// The pool configuration that was stored is used for a minute after it was fetched, and
/// no longer.
pub proof fn law_config_cache_lasts_a_minute(at: u64, now: u64, cfg: PoolConfigData)
    ensures
        now < at + 60_000_000_000 ==> cached_config(Some((at, cfg)), now) == Some(cfg),
        now >= at + 60_000_000_000 ==> cached_config(Some((at, cfg)), now) is None,
        cached_config(None, now) is None,
{
}

/// An oracle that was stored is used for ten seconds after it was fetched, and no longer;
/// one that was not stored is not there.
pub proof fn law_oracle_cache_lasts_ten_seconds(
    c: Map<Seq<char>, (u64, OracleView)>,
    id: Seq<char>,
    at: u64,
    svi: OracleView,
    now: u64,
)
    ensures
        now < at + 10_000_000_000 ==> cached(c.insert(id, (at, svi)), id, now) == Some(svi),
        now >= at + 10_000_000_000 ==> cached(c.insert(id, (at, svi)), id, now) is None,
        cached(c.remove(id), id, now) is None,
{
}

} // verus!
