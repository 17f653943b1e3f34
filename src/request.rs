//! Lookup requests and how they resolve to raw records.

use vstd::prelude::*;
use crate::error::{Error, Halt, MappingReason, Stop};
use crate::fetch::{fetch_id_spec, fetch_query_spec, tally_fetch_id, tally_fetch_query, Env, FetchCtx, Tally};
use crate::record::{ones_view, One, OneView};
use crate::schema::TableSchema;
use crate::transform::{first, strings_view};

verus! {

/// A lookup request: an equality filter on one field, or a list of record ids.
#[derive(Debug)]
pub enum Param {
    Query { key: String, value: String },
    IDs { ids: Vec<String> },
}

/// The model of a [`Param`].
pub enum ParamView {
    Query { key: Seq<char>, value: Seq<char> },
    IDs { ids: Seq<Seq<char>> },
}

impl Param {
    pub open spec fn view(&self) -> ParamView {
        match self {
            Param::Query { key, value } => ParamView::Query { key: key@, value: value@ },
            Param::IDs { ids } => ParamView::IDs { ids: strings_view(ids@) },
        }
    }

    /// A filter on `key` equal to `value`.
    pub fn new_query(key: String, value: String) -> (r: Param)
        ensures
            r == (Param::Query { key, value }),
    {
        Param::Query { key, value }
    }

    /// A lookup of these ids; an empty list is accepted here and refused when
    /// the request is resolved.
    pub fn new_id(ids: Vec<String>) -> (r: Param)
        ensures
            r == (Param::IDs { ids }),
    {
        Param::IDs { ids }
    }
}

pub open spec fn ones_result(r: Result<Vec<One>, Stop>) -> Result<Seq<OneView>, Halt> {
    match r {
        Ok(v) => Ok(ones_view(v@)),
        Err(s) => Err(s@),
    }
}

/// The one record a request resolves to: the first match of a filter, or the
/// record of the first id (the other ids are not read).
pub open spec fn one_spec(env: Env, schema: TableSchema, p: ParamView) -> Result<OneView, Halt> {
    match p {
        ParamView::Query { key, value } => match fetch_query_spec(env, schema, key, value) {
            Err(h) => Err(h),
            Ok(records) => if records.len() > 0 {
                Ok(records[0])
            } else {
                Err(Halt::Fail(Error::Mapping(MappingReason::EmptyList)))
            },
        },
        ParamView::IDs { ids } => if ids.len() > 0 {
            fetch_id_spec(env, schema, ids[0])
        } else {
            Err(Halt::Fail(Error::Mapping(MappingReason::MissingIds)))
        },
    }
}

/// The records of `ids` from index `i` on, fetched one after the other; the
/// first failure ends the batch.
pub open spec fn fetch_ids_from(env: Env, schema: TableSchema, ids: Seq<Seq<char>>, i: int) -> Result<Seq<OneView>, Halt>
    decreases ids.len() - i,
{
    if i < 0 || i >= ids.len() {
        Ok(Seq::empty())
    } else {
        match fetch_id_spec(env, schema, ids[i]) {
            Err(h) => Err(h),
            Ok(o) => match fetch_ids_from(env, schema, ids, i + 1) {
                Ok(rest) => Ok(seq![o] + rest),
                Err(h) => Err(h),
            },
        }
    }
}

/// Every record a request resolves to: all matches of a filter, or the
/// record of each id in input order.
pub open spec fn many_spec(env: Env, schema: TableSchema, p: ParamView) -> Result<Seq<OneView>, Halt> {
    match p {
        ParamView::Query { key, value } => fetch_query_spec(env, schema, key, value),
        ParamView::IDs { ids } => if ids.len() > 0 {
            fetch_ids_from(env, schema, ids, 0)
        } else {
            Err(Halt::Fail(Error::Mapping(MappingReason::MissingIds)))
        },
    }
}

/// The counters after resolving a request to one record.
pub open spec fn tally_one(env: Env, schema: TableSchema, p: ParamView, t: Tally) -> Tally {
    match p {
        ParamView::Query { key, value } => tally_fetch_query(env, schema, key, value, t),
        ParamView::IDs { ids } => if ids.len() > 0 {
            tally_fetch_id(env, schema, ids[0], t)
        } else {
            t
        },
    }
}

/// The counters after fetching the records of `ids` from index `i` on.
pub open spec fn tally_ids_from(env: Env, schema: TableSchema, ids: Seq<Seq<char>>, i: int, t: Tally) -> Tally
    decreases ids.len() - i,
{
    if i < 0 || i >= ids.len() {
        t
    } else {
        let t1 = tally_fetch_id(env, schema, ids[i], t);
        match fetch_id_spec(env, schema, ids[i]) {
            Err(_) => t1,
            Ok(_) => tally_ids_from(env, schema, ids, i + 1, t1),
        }
    }
}

/// The counters after resolving a request to all its records.
pub open spec fn tally_many(env: Env, schema: TableSchema, p: ParamView, t: Tally) -> Tally {
    match p {
        ParamView::Query { key, value } => tally_fetch_query(env, schema, key, value, t),
        ParamView::IDs { ids } => if ids.len() > 0 {
            tally_ids_from(env, schema, ids, 0, t)
        } else {
            t
        },
    }
}

/// Resolves a request to one raw record.
pub fn one(ctx: &mut FetchCtx, schema: &TableSchema, param: Param) -> (r: Result<One, Stop>)
    requires
        old(ctx).wf(),
    ensures
        final(ctx).wf(),
        final(ctx).env() == old(ctx).env(),
        final(ctx).key() == old(ctx).key(),
        crate::fetch::one_result(r) == one_spec(old(ctx).env(), *schema, param@),
        final(ctx).tally() == tally_one(old(ctx).env(), *schema, param@, old(ctx).tally()),
{
    match param {
        Param::Query { key, value } => {
            let m = match ctx.fetch_query(schema, key.as_str(), value.as_str()) {
                Ok(m) => m,
                Err(s) => {
                    return Err(s);
                },
            };
            let ghost records = m.records@;
            match first(ctx, m.records) {
                Ok(o) => {
                    assert(ones_view(records)[0] == o@);
                    Ok(o)
                },
                Err(e) => Err(Stop::Fail(e)),
            }
        },
        Param::IDs { ids } => {
            if ids.len() == 0 {
                Err(Stop::Fail(Error::Mapping(MappingReason::MissingIds)))
            } else {
                ctx.fetch_id(schema, ids[0].as_str())
            }
        },
    }
}

/// Resolves a request to every raw record it names.
pub fn many(ctx: &mut FetchCtx, schema: &TableSchema, param: Param) -> (r: Result<Vec<One>, Stop>)
    requires
        old(ctx).wf(),
    ensures
        final(ctx).wf(),
        final(ctx).env() == old(ctx).env(),
        final(ctx).key() == old(ctx).key(),
        ones_result(r) == many_spec(old(ctx).env(), *schema, param@),
        final(ctx).tally() == tally_many(old(ctx).env(), *schema, param@, old(ctx).tally()),
{
    let ghost pv = param@;
    match param {
        Param::Query { key, value } => match ctx.fetch_query(schema, key.as_str(), value.as_str()) {
            Ok(m) => Ok(m.records),
            Err(s) => Err(s),
        },
        Param::IDs { ids } => {
            if ids.len() == 0 {
                return Err(Stop::Fail(Error::Mapping(MappingReason::MissingIds)));
            }
            let ghost env = ctx.env();
            let ghost iv = strings_view(ids@);
            let mut out: Vec<One> = Vec::new();
            let mut i: usize = 0;
            while i < ids.len()
                invariant
                    i <= ids.len(),
                    ctx.wf(),
                    ctx.env() == env,
                    ctx.key() == old(ctx).key(),
                    env == old(ctx).env(),
                    iv == strings_view(ids@),
                    pv == param@,
                    many_spec(env, *schema, pv) == fetch_ids_from(env, *schema, iv, 0),
                    tally_many(env, *schema, pv, old(ctx).tally()) == tally_ids_from(env, *schema, iv, i as int, ctx.tally()),
                    fetch_ids_from(env, *schema, iv, 0) == (match fetch_ids_from(env, *schema, iv, i as int) {
                        Ok(rest) => Ok(ones_view(out@) + rest),
                        Err(h) => Err(h),
                    }),
                decreases ids.len() - i,
            {
                assert(iv[i as int] == ids@[i as int]@);
                match ctx.fetch_id(schema, ids[i].as_str()) {
                    Err(s) => {
                        return Err(s);
                    },
                    Ok(o) => {
                        proof {
                            let ghost tail = fetch_ids_from(env, *schema, iv, i + 1);
                            assert(ones_view(out@.push(o)) =~= ones_view(out@).push(o@));
                            if tail is Ok {
                                assert(ones_view(out@) + (seq![o@] + tail->Ok_0)
                                    =~= ones_view(out@).push(o@) + tail->Ok_0);
                            }
                        }
                        out.push(o);
                    },
                }
                i = i + 1;
            }
            assert(ones_view(out@) + Seq::<OneView>::empty() =~= ones_view(out@));
            Ok(out)
        },
    }
}

} // verus!
