//! The fetch context: configuration, the request cache, and the session that
//! lets a computation stop for a remote response and run again once it is in.
//!
//! Reading the store never blocks here. A lookup whose URL is not cached stops
//! the computation with [`Stop::Need`]; the caller fetches that URL, hands the
//! outcome to [`FetchCtx::supply`] and runs the same computation again. Every
//! response it had already used is served from the cache, so the run gets one
//! step further each time; the session makes sure that each lookup is counted
//! as a hit or a miss only once across those runs.

use vstd::prelude::*;
use vstd::string::StringExecFns;
use crate::cache::{bump, CacheView, RequestCache, Stats};
use crate::error::{error_of_failure, failure_error, Error, FetchFailure, Halt, Stop};
use crate::json::{Json, JsonValue};
use crate::record::{decode_many, decode_one, Many, One, OneView};
use crate::schema::TableSchema;

verus! {

/// `url::ParseError`, only handed on as the failure of a parse.
#[verifier::external_type_specification]
#[verifier::external_body]
pub struct ExParseError(url::ParseError);

/// The canonical text of `s` read as an absolute URL, or `None` where `s` is
/// not one.
pub uninterp spec fn parsed_url(s: Seq<char>) -> Option<Seq<char>>;

/// The canonical text of the URL `base` with the pair `key=value` added to
/// its query, form-encoded; `None` where `base` is not a URL.
pub uninterp spec fn url_with_pair(base: Seq<char>, key: Seq<char>, value: Seq<char>) -> Option<Seq<char>>;

/// Relies on `url::Url::parse` and `Url::as_str`: parsing gives the URL in
/// its canonical serialization, or an error.
#[verifier::external_body]
fn parse_url(s: &str) -> (r: Result<String, url::ParseError>)
    ensures
        match r {
            Ok(u) => parsed_url(s@) == Some(u@),
            Err(_) => parsed_url(s@) is None,
        },
{
    match url::Url::parse(s) {
        Ok(u) => Ok(u.as_str().to_string()),
        Err(e) => Err(e),
    }
}

/// Relies on `url::Url::parse_with_params` and `Url::as_str`: `base` parsed,
/// with `key=value` appended to its query, in canonical serialization.
#[verifier::external_body]
fn parse_with_pair(base: &str, key: &str, value: &str) -> (r: Result<String, url::ParseError>)
    ensures
        match r {
            Ok(u) => url_with_pair(base@, key@, value@) == Some(u@),
            Err(_) => url_with_pair(base@, key@, value@) is None,
        },
{
    match url::Url::parse_with_params(base, &[(key, value)]) {
        Ok(u) => Ok(u.as_str().to_string()),
        Err(e) => Err(e),
    }
}

pub open spec fn api_root() -> Seq<char> {
    "https://api.airtable.com/v0/"@
}

/// The REST address of a table of a base.
pub open spec fn table_url_of(base: Seq<char>, table: Seq<char>) -> Seq<char> {
    api_root() + base + "/"@ + table
}

/// The canonical URL that fetches record `id` of `table`.
pub open spec fn id_url(base: Seq<char>, table: Seq<char>, id: Seq<char>) -> Result<Seq<char>, Error> {
    match parsed_url(table_url_of(base, table) + "/"@ + id) {
        Some(u) => Ok(u),
        None => Err(Error::UrlConstruction),
    }
}

/// The filter formula that selects the records whose `field` equals `value`.
pub open spec fn formula(field: Seq<char>, value: Seq<char>) -> Seq<char> {
    "{"@ + field + "} = '"@ + value + "'"@
}

/// The canonical URL that lists the records of `table` whose `field` equals
/// `value`.
pub open spec fn query_url(base: Seq<char>, table: Seq<char>, field: Seq<char>, value: Seq<char>) -> Result<Seq<char>, Error> {
    match url_with_pair(table_url_of(base, table), "filterByFormula"@, formula(field, value)) {
        Some(u) => Ok(u),
        None => Err(Error::UrlConstruction),
    }
}

/// The names of the environment variables that hold the bearer token and
/// the base id.
#[derive(Debug)]
pub struct EnvKeys(pub [&'static str; 2]);

impl EnvKeys {
    pub fn names() -> (r: EnvKeys)
        ensures
            r.0@[0]@ == "AIRTABLE_KEY"@,
            r.0@[1]@ == "AIRTABLE_APP"@,
    {
        EnvKeys(["AIRTABLE_KEY", "AIRTABLE_APP"])
    }

    /// The names as a list: `["AIRTABLE_KEY", "AIRTABLE_APP"]`.
    pub fn to_text(&self) -> (r: String)
        ensures
            r@ == "[\""@ + self.0@[0]@ + "\", \""@ + self.0@[1]@ + "\"]"@,
    {
        let mut s = "[\"".to_owned();
        s.append(self.0[0]);
        s.append("\", \"");
        s.append(self.0[1]);
        s.append("\"]");
        s
    }
}

/// Credentials and base id of the record store.
#[derive(Debug)]
pub struct Config {
    /// The bearer token sent with each request.
    pub key: String,
    /// The id of the base whose tables are read.
    pub base: String,
}

impl Config {
    /// The REST address of `table`.
    pub fn table_url(&self, table: &str) -> (r: String)
        ensures
            r@ == table_url_of(self.base@, table@),
    {
        let mut s = "https://api.airtable.com/v0/".to_owned();
        s.append(self.base.as_str());
        s.append("/");
        s.append(table);
        s
    }
}

/// What a computation over the store reads: the base, the cached responses,
/// and the failure that the transport reported in this session, if any.
pub struct Env {
    pub base: Seq<char>,
    pub store: Map<Seq<char>, Json>,
    pub failed: Option<(Seq<char>, Error)>,
}

/// The outcome of reading `url` in `env`: the cached response; the reported
/// failure of that URL; or a stop that asks for it.
pub open spec fn lookup(env: Env, url: Seq<char>) -> Result<Json, Halt> {
    if env.store.contains_key(url) {
        Ok(env.store[url])
    } else {
        match env.failed {
            Some((u, e)) => if u == url {
                Err(Halt::Fail(e))
            } else {
                Err(Halt::Need(url))
            },
            None => Err(Halt::Need(url)),
        }
    }
}

/// The counters of a session: the cache's hits and misses, how many lookups
/// the current run has made, and how many of those an earlier run of the same
/// session already counted.
pub struct Tally {
    pub stats: Stats,
    pub seen: u64,
    pub replay: u64,
}

/// The counters after one more lookup with outcome `outcome`. A lookup that
/// an earlier run of the session already counted changes only the position;
/// otherwise a served response is a hit, a stop for a fetch is a miss, and a
/// failure already reported counts nothing new.
pub open spec fn tally_lookup(t: Tally, outcome: Result<Json, Halt>) -> Tally {
    let stats = if t.seen < t.replay {
        t.stats
    } else {
        match outcome {
            Ok(_) => Stats { hits: bump(t.stats.hits), misses: t.stats.misses },
            Err(Halt::Need(_)) => Stats { hits: t.stats.hits, misses: bump(t.stats.misses) },
            Err(Halt::Fail(_)) => t.stats,
        }
    };
    Tally { stats, seen: bump(t.seen), replay: t.replay }
}

/// The counters after reading record `id` of `schema`'s table.
pub open spec fn tally_fetch_id(env: Env, schema: TableSchema, id: Seq<char>, t: Tally) -> Tally {
    match id_url(env.base, schema.name@, id) {
        Err(_) => t,
        Ok(u) => tally_lookup(t, lookup(env, u)),
    }
}

/// The counters after a filter query on `schema`'s table.
pub open spec fn tally_fetch_query(env: Env, schema: TableSchema, field: Seq<char>, value: Seq<char>, t: Tally) -> Tally {
    match query_url(env.base, schema.name@, field, value) {
        Err(_) => t,
        Ok(u) => tally_lookup(t, lookup(env, u)),
    }
}

pub open spec fn json_result(r: Result<JsonValue, Stop>) -> Result<Json, Halt> {
    match r {
        Ok(v) => Ok(v@),
        Err(s) => Err(s@),
    }
}

pub open spec fn one_result(r: Result<One, Stop>) -> Result<OneView, Halt> {
    match r {
        Ok(v) => Ok(v@),
        Err(s) => Err(s@),
    }
}

pub open spec fn many_result(r: Result<Many, Stop>) -> Result<Seq<OneView>, Halt> {
    match r {
        Ok(v) => Ok(v@),
        Err(s) => Err(s@),
    }
}

/// Record `id` of `schema`'s table, read through the cache.
pub open spec fn fetch_id_spec(env: Env, schema: TableSchema, id: Seq<char>) -> Result<OneView, Halt> {
    match id_url(env.base, schema.name@, id) {
        Err(e) => Err(Halt::Fail(e)),
        Ok(u) => match lookup(env, u) {
            Err(h) => Err(h),
            Ok(j) => match decode_one(schema, j) {
                Ok(o) => Ok(o),
                Err(e) => Err(Halt::Fail(e)),
            },
        },
    }
}

/// The records of `schema`'s table whose `field` equals `value`, read
/// through the cache.
pub open spec fn fetch_query_spec(env: Env, schema: TableSchema, field: Seq<char>, value: Seq<char>) -> Result<Seq<OneView>, Halt> {
    match query_url(env.base, schema.name@, field, value) {
        Err(e) => Err(Halt::Fail(e)),
        Ok(u) => match lookup(env, u) {
            Err(h) => Err(h),
            Ok(j) => match decode_many(schema, j) {
                Ok(m) => Ok(m),
                Err(e) => Err(Halt::Fail(e)),
            },
        },
    }
}

/// The owner of the store's configuration and of the request cache: the one
/// way to the record store.
#[derive(Debug)]
pub struct FetchCtx {
    config: Config,
    cache: RequestCache,
    /// Lookups of this session that an earlier run already counted.
    replay: u64,
    /// Lookups made so far by the current run.
    seen: u64,
    /// The failure that the transport reported in this session, by URL.
    failed: Option<(String, Error)>,
}

impl FetchCtx {
    pub closed spec fn wf(&self) -> bool {
        self.cache.wf()
    }

    pub closed spec fn env(&self) -> Env {
        Env {
            base: self.config.base@,
            store: self.cache@.store,
            failed: match self.failed {
                Some((u, e)) => Some((u@, e)),
                None => None,
            },
        }
    }

    pub closed spec fn cache_view(&self) -> CacheView {
        self.cache@
    }

    pub closed spec fn key(&self) -> Seq<char> {
        self.config.key@
    }

    pub closed spec fn tally(&self) -> Tally {
        Tally { stats: self.cache@.stats, seen: self.seen, replay: self.replay }
    }

    /// The counters of the session are the cache's counters.
    pub proof fn lemma_tally_is_cache_stats(&self)
        ensures
            self.tally().stats == self.cache_view().stats,
    {
    }

    pub fn new(key: String, base: String) -> (r: FetchCtx)
        ensures
            r.wf(),
            r.env().base == base@,
            r.key() == key@,
            r.env().failed is None,
            r.cache_view() == crate::cache::cleared(),
            r.tally() == (Tally { stats: Stats { hits: 0, misses: 0 }, seen: 0, replay: 0 }),
    {
        FetchCtx {
            config: Config { key, base },
            cache: RequestCache::new(),
            replay: 0,
            seen: 0,
            failed: None,
        }
    }

    /// The configuration the context was made with.
    pub fn config(&self) -> (r: &Config)
        ensures
            r.base@ == self.env().base,
            r.key@ == self.key(),
    {
        &self.config
    }

    /// The cache's hit and miss counters.
    pub fn stats(&self) -> (r: Stats)
        ensures
            r == self.cache_view().stats,
            r == self.tally().stats,
    {
        self.cache.stats()
    }

    /// Empties the cache and resets its counters.
    pub fn clear(&mut self)
        ensures
            final(self).wf(),
            final(self).cache_view() == crate::cache::cleared(),
            final(self).tally().stats == (Stats { hits: 0, misses: 0 }),
            final(self).tally().seen == old(self).tally().seen,
            final(self).tally().replay == old(self).tally().replay,
            final(self).env().base == old(self).env().base,
            final(self).env().failed == old(self).env().failed,
            final(self).key() == old(self).key(),
    {
        self.cache.clear();
    }

    /// Starts a session: no lookup is counted yet and no failure is known.
    pub fn begin(&mut self)
        requires
            old(self).wf(),
        ensures
            final(self).wf(),
            final(self).env() == (Env { failed: None, ..old(self).env() }),
            final(self).cache_view() == old(self).cache_view(),
            final(self).tally() == (Tally { stats: old(self).tally().stats, seen: 0, replay: 0 }),
            final(self).key() == old(self).key(),
    {
        self.replay = 0;
        self.seen = 0;
        self.failed = None;
    }

    /// Hands in what the transport got for `url` after a [`Stop::Need`]: a
    /// response goes into the cache, a failure is kept for the session. The
    /// caller then runs the stopped computation again.
    pub fn supply(&mut self, url: String, response: Result<JsonValue, FetchFailure>)
        requires
            old(self).wf(),
        ensures
            final(self).wf(),
            final(self).env().base == old(self).env().base,
            final(self).key() == old(self).key(),
            final(self).tally() == (Tally { stats: old(self).tally().stats, seen: 0, replay: old(self).tally().seen }),
            match response {
                Ok(v) => {
                    &&& final(self).env().failed == old(self).env().failed
                    &&& final(self).env().store == (if old(self).env().store.contains_key(url@) {
                        old(self).env().store
                    } else {
                        old(self).env().store.insert(url@, v@)
                    })
                },
                Err(f) => {
                    &&& final(self).env().store == old(self).env().store
                    &&& final(self).env().failed == Some((url@, failure_error(url, f)))
                },
            },
    {
        self.replay = self.seen;
        self.seen = 0;
        match response {
            Ok(v) => {
                self.cache.insert(url, v);
            },
            Err(f) => {
                let u = url.clone();
                let e = error_of_failure(url, f);
                self.failed = Some((u, e));
            },
        }
    }

    /// Reads `url` through the cache. A cached response is a hit; an uncached
    /// URL is a miss and stops the run with [`Stop::Need`], unless the
    /// transport already failed on it in this session.
    pub fn fetch_json(&mut self, url: String) -> (r: Result<JsonValue, Stop>)
        requires
            old(self).wf(),
        ensures
            final(self).wf(),
            final(self).env() == old(self).env(),
            final(self).key() == old(self).key(),
            json_result(r) == lookup(old(self).env(), url@),
            final(self).tally() == tally_lookup(old(self).tally(), lookup(old(self).env(), url@)),
    {
        let found = self.cache.get(&url);
        let counted = self.seen >= self.replay;
        self.seen = self.seen.saturating_add(1);
        match found {
            Some(v) => {
                if counted {
                    self.cache.count(true);
                }
                Ok(v)
            },
            None => {
                let failed_here = match &self.failed {
                    Some((u, _)) => *u == url,
                    None => false,
                };
                if failed_here {
                    match &self.failed {
                        Some((_, e)) => Err(Stop::Fail(e.duplicate())),
                        None => Err(Stop::Need(url)),
                    }
                } else {
                    if counted {
                        self.cache.count(false);
                    }
                    Err(Stop::Need(url))
                }
            },
        }
    }

    /// The canonical URL of record `id` of `table`.
    pub fn id_request(&self, table: &str, id: &str) -> (r: Result<String, Error>)
        ensures
            match r {
                Ok(u) => id_url(self.env().base, table@, id@) == Ok::<_, Error>(u@),
                Err(e) => id_url(self.env().base, table@, id@) == Err::<Seq<char>, _>(e),
            },
    {
        let mut s = self.config.table_url(table);
        s.append("/");
        s.append(id);
        match parse_url(s.as_str()) {
            Ok(u) => Ok(u),
            Err(_) => Err(Error::UrlConstruction),
        }
    }

    /// The canonical URL that filters `table` on `field` equal to `value`.
    pub fn query_request(&self, table: &str, field: &str, value: &str) -> (r: Result<String, Error>)
        ensures
            match r {
                Ok(u) => query_url(self.env().base, table@, field@, value@) == Ok::<_, Error>(u@),
                Err(e) => query_url(self.env().base, table@, field@, value@) == Err::<Seq<char>, _>(e),
            },
    {
        let base = self.config.table_url(table);
        let mut f = "{".to_owned();
        f.append(field);
        f.append("} = '");
        f.append(value);
        f.append("'");
        match parse_with_pair(base.as_str(), "filterByFormula", f.as_str()) {
            Ok(u) => Ok(u),
            Err(_) => Err(Error::UrlConstruction),
        }
    }

    /// Record `id` of `schema`'s table.
    pub fn fetch_id(&mut self, schema: &TableSchema, id: &str) -> (r: Result<One, Stop>)
        requires
            old(self).wf(),
        ensures
            final(self).wf(),
            final(self).env() == old(self).env(),
            final(self).key() == old(self).key(),
            one_result(r) == fetch_id_spec(old(self).env(), *schema, id@),
            final(self).tally() == tally_fetch_id(old(self).env(), *schema, id@, old(self).tally()),
    {
        let url = match self.id_request(schema.name.as_str(), id) {
            Ok(u) => u,
            Err(e) => {
                return Err(Stop::Fail(e));
            },
        };
        let j = match self.fetch_json(url) {
            Ok(j) => j,
            Err(s) => {
                return Err(s);
            },
        };
        match One::decode(schema, &j) {
            Ok(o) => Ok(o),
            Err(e) => Err(Stop::Fail(e)),
        }
    }

    /// The records of `schema`'s table whose `field` equals `value`.
    pub fn fetch_query(&mut self, schema: &TableSchema, field: &str, value: &str) -> (r: Result<Many, Stop>)
        requires
            old(self).wf(),
        ensures
            final(self).wf(),
            final(self).env() == old(self).env(),
            final(self).key() == old(self).key(),
            many_result(r) == fetch_query_spec(old(self).env(), *schema, field@, value@),
            final(self).tally() == tally_fetch_query(old(self).env(), *schema, field@, value@, old(self).tally()),
    {
        let url = match self.query_request(schema.name.as_str(), field, value) {
            Ok(u) => u,
            Err(e) => {
                return Err(Stop::Fail(e));
            },
        };
        let j = match self.fetch_json(url) {
            Ok(j) => j,
            Err(s) => {
                return Err(s);
            },
        };
        match Many::decode(schema, &j) {
            Ok(m) => Ok(m),
            Err(e) => Err(Stop::Fail(e)),
        }
    }
}

} // verus!

verus! {

/// Supplying what a run stopped for lets the next run get past that lookup:
/// a response is then served, and a reported failure is then the lookup's
/// error, so no run of the session stops twice for the same URL.
pub proof fn lemma_supplied_url_is_answered(env: Env, url: Seq<char>, v: Json, e: Error)
    requires
        lookup(env, url) == Err::<Json, Halt>(Halt::Need(url)),
    ensures
        lookup(Env { store: env.store.insert(url, v), ..env }, url) == Ok::<Json, Halt>(v),
        lookup(Env { failed: Some((url, e)), ..env }, url) == Err::<Json, Halt>(Halt::Fail(e)),
{
}

} // verus!
