//! Hydration: raw records become mapped records by running each field's
//! transform chain, and linked ids become nested records of other tables.

use vstd::prelude::*;
use crate::error::{Error, Halt, MappingReason, Stop};
use crate::fetch::{json_result, Env, FetchCtx, Tally};
use crate::json::{entries_view, entry_of, lemma_entries_view_push, lemma_list_view_push, list_view, object_get, Json, JsonValue};
use crate::record::{ones_view, present_or_null, One, OneView};
use crate::request::{many, many_spec, one, one_spec, tally_many, tally_one, ParamView, Param};
use crate::schema::{step_in_range, Registry, Transform};
use crate::transform::{apply_local, id_list, ids_of, run_local, strings_view};

verus! {

/// How deep linked records are hydrated before [`Error::DepthLimit`] stops a
/// schema whose links run in a cycle.
pub const MAX_DEPTH: u32 = 32;

/// A failure of the chain of field `f` of table `t`, with that context added.
pub open spec fn field_failure(reg: Registry, t: int, f: int, h: Halt) -> Halt {
    match h {
        Halt::Fail(e) => Halt::Fail(Error::FieldTransform {
            table: reg.tables@[t].name,
            field: reg.tables@[t].fields@[f].target,
            cause: Box::new(e),
        }),
        Halt::Need(u) => Halt::Need(u),
    }
}

/// A failure to build a record of table `t`, with that context added.
pub open spec fn record_failure(reg: Registry, t: int, h: Halt) -> Halt {
    match h {
        Halt::Fail(e) => Halt::Fail(Error::RecordCreation { table: reg.tables@[t].name, cause: Box::new(e) }),
        Halt::Need(u) => Halt::Need(u),
    }
}

/// The mapped record of table `t` built from a raw record: each field in
/// schema order, under its target name. The first field whose chain fails
/// ends the record; no later field is run.
pub open spec fn create_one_spec(env: Env, reg: Registry, d: nat, t: int, one: OneView) -> Result<Json, Halt>
    decreases d, 5int, 0int,
{
    match create_fields_from(env, reg, d, t, one, 0) {
        Ok(es) => Ok(Json::Object(es)),
        Err(h) => Err(record_failure(reg, t, h)),
    }
}

/// The mapped fields of table `t` from index `i` on.
pub open spec fn create_fields_from(env: Env, reg: Registry, d: nat, t: int, one: OneView, i: int) -> Result<Seq<(Seq<char>, Json)>, Halt>
    decreases d, 4int, reg.tables@[t].fields@.len() - i,
{
    let fields = reg.tables@[t].fields@;
    if i < 0 || i >= fields.len() {
        Ok(Seq::empty())
    } else {
        let raw = present_or_null(entry_of(one.fields, fields[i].source@));
        match chain_from(env, reg, d, fields[i].chain@, raw, 0) {
            Err(h) => Err(field_failure(reg, t, i, h)),
            Ok(v) => match create_fields_from(env, reg, d, t, one, i + 1) {
                Ok(rest) => Ok(seq![(fields[i].target@, v)] + rest),
                Err(h) => Err(h),
            },
        }
    }
}

/// The steps of a chain from index `i` on, run in order on `v`: each step
/// takes the value the one before it made, and the first failure is the
/// chain's result, with no later step run.
pub open spec fn chain_from(env: Env, reg: Registry, d: nat, chain: Seq<Transform>, v: Json, i: int) -> Result<Json, Halt>
    decreases d, 3int, chain.len() - i,
{
    if i < 0 || i >= chain.len() {
        Ok(v)
    } else {
        match apply_step(env, reg, d, chain[i], v) {
            Err(h) => Err(h),
            Ok(w) => chain_from(env, reg, d, chain, w, i + 1),
        }
    }
}

/// One step on a value; the fetching steps hydrate linked records one level
/// deeper, and fail at depth zero.
pub open spec fn apply_step(env: Env, reg: Registry, d: nat, step: Transform, v: Json) -> Result<Json, Halt>
    decreases d, 2int, 0int,
{
    match step {
        Transform::FetchFirst(t) => match ids_of(v) {
            None => Err(Halt::Fail(Error::Mapping(MappingReason::UnexpectedValue))),
            Some(ids) => if d == 0 {
                Err(Halt::Fail(Error::DepthLimit { table: reg.tables@[t as int].name }))
            } else {
                fetch_first_spec(env, reg, (d - 1) as nat, t as int, ids)
            },
        },
        Transform::FetchMany(t) => match ids_of(v) {
            None => Err(Halt::Fail(Error::Mapping(MappingReason::UnexpectedValue))),
            Some(ids) => if d == 0 {
                Err(Halt::Fail(Error::DepthLimit { table: reg.tables@[t as int].name }))
            } else {
                match fetch_many_spec(env, reg, (d - 1) as nat, t as int, ids) {
                    Ok(items) => Ok(Json::List(items)),
                    Err(h) => Err(h),
                }
            },
        },
        _ => match apply_local(step, v) {
            Ok(w) => Ok(w),
            Err(e) => Err(Halt::Fail(e)),
        },
    }
}

/// The record of the first of `ids` in table `t`, fetched and hydrated.
pub open spec fn fetch_first_spec(env: Env, reg: Registry, d: nat, t: int, ids: Seq<Seq<char>>) -> Result<Json, Halt>
    decreases d, 6int, 0int,
{
    match one_spec(env, reg.tables@[t], ParamView::IDs { ids }) {
        Err(h) => Err(record_failure(reg, t, h)),
        Ok(o) => create_one_spec(env, reg, d, t, o),
    }
}

/// Raw records of table `t` from index `i` on, hydrated one after the other
/// in input order; the first failure ends the batch.
pub open spec fn create_many_from(env: Env, reg: Registry, d: nat, t: int, ones: Seq<OneView>, i: int) -> Result<Seq<Json>, Halt>
    decreases d, 6int, ones.len() - i,
{
    if i < 0 || i >= ones.len() {
        Ok(Seq::empty())
    } else {
        match create_one_spec(env, reg, d, t, ones[i]) {
            Err(h) => Err(h),
            Ok(v) => match create_many_from(env, reg, d, t, ones, i + 1) {
                Ok(rest) => Ok(seq![v] + rest),
                Err(h) => Err(h),
            },
        }
    }
}

/// The records of every one of `ids` in table `t`, fetched and hydrated in
/// input order.
pub open spec fn fetch_many_spec(env: Env, reg: Registry, d: nat, t: int, ids: Seq<Seq<char>>) -> Result<Seq<Json>, Halt>
    decreases d, 7int, 0int,
{
    match many_spec(env, reg.tables@[t], ParamView::IDs { ids }) {
        Err(h) => Err(record_failure(reg, t, h)),
        Ok(ones) => create_many_from(env, reg, d, t, ones, 0),
    }
}

/// The counters after building a record of table `t` from a raw record.
pub open spec fn tally_create_one(env: Env, reg: Registry, d: nat, t: int, one: OneView, tl: Tally) -> Tally
    decreases d, 5int, 0int,
{
    tally_fields_from(env, reg, d, t, one, 0, tl)
}

/// The counters after the fields of table `t` from index `i` on.
pub open spec fn tally_fields_from(env: Env, reg: Registry, d: nat, t: int, one: OneView, i: int, tl: Tally) -> Tally
    decreases d, 4int, reg.tables@[t].fields@.len() - i,
{
    let fields = reg.tables@[t].fields@;
    if i < 0 || i >= fields.len() {
        tl
    } else {
        let raw = present_or_null(entry_of(one.fields, fields[i].source@));
        let tl1 = tally_chain_from(env, reg, d, fields[i].chain@, raw, 0, tl);
        match chain_from(env, reg, d, fields[i].chain@, raw, 0) {
            Err(_) => tl1,
            Ok(_) => tally_fields_from(env, reg, d, t, one, i + 1, tl1),
        }
    }
}

/// The counters after the steps of a chain from index `i` on.
pub open spec fn tally_chain_from(env: Env, reg: Registry, d: nat, chain: Seq<Transform>, v: Json, i: int, tl: Tally) -> Tally
    decreases d, 3int, chain.len() - i,
{
    if i < 0 || i >= chain.len() {
        tl
    } else {
        let tl1 = tally_step(env, reg, d, chain[i], v, tl);
        match apply_step(env, reg, d, chain[i], v) {
            Err(_) => tl1,
            Ok(w) => tally_chain_from(env, reg, d, chain, w, i + 1, tl1),
        }
    }
}

/// The counters after one step; only the fetching steps read the store.
pub open spec fn tally_step(env: Env, reg: Registry, d: nat, step: Transform, v: Json, tl: Tally) -> Tally
    decreases d, 2int, 0int,
{
    match step {
        Transform::FetchFirst(t) => match ids_of(v) {
            Some(ids) => if d == 0 {
                tl
            } else {
                tally_fetch_first(env, reg, (d - 1) as nat, t as int, ids, tl)
            },
            None => tl,
        },
        Transform::FetchMany(t) => match ids_of(v) {
            Some(ids) => if d == 0 {
                tl
            } else {
                tally_fetch_many(env, reg, (d - 1) as nat, t as int, ids, tl)
            },
            None => tl,
        },
        _ => tl,
    }
}

/// The counters after fetching and hydrating the first of `ids`.
pub open spec fn tally_fetch_first(env: Env, reg: Registry, d: nat, t: int, ids: Seq<Seq<char>>, tl: Tally) -> Tally
    decreases d, 6int, 0int,
{
    let tl1 = tally_one(env, reg.tables@[t], ParamView::IDs { ids }, tl);
    match one_spec(env, reg.tables@[t], ParamView::IDs { ids }) {
        Err(_) => tl1,
        Ok(o) => tally_create_one(env, reg, d, t, o, tl1),
    }
}

/// The counters after hydrating raw records from index `i` on.
pub open spec fn tally_create_many_from(env: Env, reg: Registry, d: nat, t: int, ones: Seq<OneView>, i: int, tl: Tally) -> Tally
    decreases d, 6int, ones.len() - i,
{
    if i < 0 || i >= ones.len() {
        tl
    } else {
        let tl1 = tally_create_one(env, reg, d, t, ones[i], tl);
        match create_one_spec(env, reg, d, t, ones[i]) {
            Err(_) => tl1,
            Ok(_) => tally_create_many_from(env, reg, d, t, ones, i + 1, tl1),
        }
    }
}

/// The counters after fetching and hydrating every one of `ids`.
pub open spec fn tally_fetch_many(env: Env, reg: Registry, d: nat, t: int, ids: Seq<Seq<char>>, tl: Tally) -> Tally
    decreases d, 7int, 0int,
{
    let tl1 = tally_many(env, reg.tables@[t], ParamView::IDs { ids }, tl);
    match many_spec(env, reg.tables@[t], ParamView::IDs { ids }) {
        Err(_) => tl1,
        Ok(ones) => tally_create_many_from(env, reg, d, t, ones, 0, tl1),
    }
}

pub open spec fn list_result(r: Result<Vec<JsonValue>, Stop>) -> Result<Seq<Json>, Halt> {
    match r {
        Ok(v) => Ok(list_view(v@)),
        Err(s) => Err(s@),
    }
}

fn wrap_field(reg: &Registry, t: usize, f: usize, s: Stop) -> (r: Stop)
    requires
        t < reg.tables@.len(),
        f < reg.tables@[t as int].fields@.len(),
    ensures
        r@ == field_failure(*reg, t as int, f as int, s@),
{
    match s {
        Stop::Fail(e) => Stop::Fail(Error::FieldTransform {
            table: reg.tables[t].name.clone(),
            field: reg.tables[t].fields[f].target.clone(),
            cause: Box::new(e),
        }),
        Stop::Need(u) => Stop::Need(u),
    }
}

fn wrap_record(reg: &Registry, t: usize, s: Stop) -> (r: Stop)
    requires
        t < reg.tables@.len(),
    ensures
        r@ == record_failure(*reg, t as int, s@),
{
    match s {
        Stop::Fail(e) => Stop::Fail(Error::RecordCreation { table: reg.tables[t].name.clone(), cause: Box::new(e) }),
        Stop::Need(u) => Stop::Need(u),
    }
}

fn create_one_within(ctx: &mut FetchCtx, reg: &Registry, d: u32, t: usize, one: &One) -> (r: Result<JsonValue, Stop>)
    requires
        old(ctx).wf(),
        reg.wf(),
        t < reg.tables@.len(),
    ensures
        final(ctx).wf(),
        final(ctx).env() == old(ctx).env(),
        final(ctx).key() == old(ctx).key(),
        json_result(r) == create_one_spec(old(ctx).env(), *reg, d as nat, t as int, one@),
        final(ctx).tally() == tally_create_one(old(ctx).env(), *reg, d as nat, t as int, one@, old(ctx).tally()),
    decreases d, 5int,
{
    let ghost env = ctx.env();
    let fields = &reg.tables[t].fields;
    let mut out: Vec<(String, JsonValue)> = Vec::new();
    let mut i: usize = 0;
    while i < fields.len()
        invariant
            i <= fields.len(),
            fields == &reg.tables@[t as int].fields,
            reg.wf(),
            t < reg.tables@.len(),
            ctx.wf(),
            ctx.env() == env,
            ctx.key() == old(ctx).key(),
            env == old(ctx).env(),
            tally_fields_from(env, *reg, d as nat, t as int, one@, 0, old(ctx).tally())
                == tally_fields_from(env, *reg, d as nat, t as int, one@, i as int, ctx.tally()),
            create_fields_from(env, *reg, d as nat, t as int, one@, 0) == (match create_fields_from(env, *reg, d as nat, t as int, one@, i as int) {
                Ok(rest) => Ok(entries_view(out@) + rest),
                Err(h) => Err(h),
            }),
        decreases fields.len() - i,
    {
        let raw = object_get(&one.fields, &fields[i].source);
        let start = match raw {
            Some(v) => v,
            None => JsonValue::Null,
        };
        assert(start@ == present_or_null(entry_of(one@.fields, fields@[i as int].source@)));
        match run_chain(ctx, reg, d, &fields[i].chain, start) {
            Err(s) => {
                let w = wrap_field(reg, t, i, s);
                return Err(wrap_record(reg, t, w));
            },
            Ok(v) => {
                let key = fields[i].target.clone();
                proof {
                    let ghost tail = create_fields_from(env, *reg, d as nat, t as int, one@, i + 1);
                    lemma_entries_view_push(out@, (key, v));
                    if tail is Ok {
                        assert(entries_view(out@) + (seq![(key@, v@)] + tail->Ok_0)
                            =~= entries_view(out@).push((key@, v@)) + tail->Ok_0);
                    }
                }
                out.push((key, v));
            },
        }
        i = i + 1;
    }
    assert(entries_view(out@) + Seq::<(Seq<char>, Json)>::empty() =~= entries_view(out@));
    Ok(JsonValue::Object(out))
}

fn run_chain(ctx: &mut FetchCtx, reg: &Registry, d: u32, chain: &Vec<Transform>, v: JsonValue) -> (r: Result<JsonValue, Stop>)
    requires
        old(ctx).wf(),
        reg.wf(),
        forall|s: int| 0 <= s < chain@.len() ==> step_in_range(#[trigger] chain@[s], reg.tables@.len()),
    ensures
        final(ctx).wf(),
        final(ctx).env() == old(ctx).env(),
        final(ctx).key() == old(ctx).key(),
        json_result(r) == chain_from(old(ctx).env(), *reg, d as nat, chain@, v@, 0),
        final(ctx).tally() == tally_chain_from(old(ctx).env(), *reg, d as nat, chain@, v@, 0, old(ctx).tally()),
        chain@.len() == 0 ==> *final(ctx) == *old(ctx),
    decreases d, 3int,
{
    let ghost env = ctx.env();
    let ghost v0 = v@;
    let mut cur = v;
    let mut i: usize = 0;
    while i < chain.len()
        invariant
            i <= chain.len(),
            reg.wf(),
            forall|s: int| 0 <= s < chain@.len() ==> step_in_range(#[trigger] chain@[s], reg.tables@.len()),
            ctx.wf(),
            ctx.env() == env,
            ctx.key() == old(ctx).key(),
            env == old(ctx).env(),
            v0 == v@,
            i == 0 ==> *ctx == *old(ctx),
            chain_from(env, *reg, d as nat, chain@, v0, 0) == chain_from(env, *reg, d as nat, chain@, cur@, i as int),
            tally_chain_from(env, *reg, d as nat, chain@, v0, 0, old(ctx).tally())
                == tally_chain_from(env, *reg, d as nat, chain@, cur@, i as int, ctx.tally()),
        decreases chain.len() - i,
    {
        match run_step(ctx, reg, d, &chain[i], cur) {
            Err(s) => {
                return Err(s);
            },
            Ok(w) => {
                cur = w;
            },
        }
        i = i + 1;
    }
    Ok(cur)
}

fn run_step(ctx: &mut FetchCtx, reg: &Registry, d: u32, step: &Transform, v: JsonValue) -> (r: Result<JsonValue, Stop>)
    requires
        old(ctx).wf(),
        reg.wf(),
        step_in_range(*step, reg.tables@.len()),
    ensures
        final(ctx).wf(),
        final(ctx).env() == old(ctx).env(),
        final(ctx).key() == old(ctx).key(),
        json_result(r) == apply_step(old(ctx).env(), *reg, d as nat, *step, v@),
        final(ctx).tally() == tally_step(old(ctx).env(), *reg, d as nat, *step, v@, old(ctx).tally()),
    decreases d, 2int,
{
    match step {
        Transform::FetchFirst(t) => match id_list(&v) {
            None => Err(Stop::Fail(Error::Mapping(MappingReason::UnexpectedValue))),
            Some(ids) => if d == 0 {
                Err(Stop::Fail(Error::DepthLimit { table: reg.tables[*t].name.clone() }))
            } else {
                fetch_first_within(ctx, reg, d - 1, *t, ids)
            },
        },
        Transform::FetchMany(t) => match id_list(&v) {
            None => Err(Stop::Fail(Error::Mapping(MappingReason::UnexpectedValue))),
            Some(ids) => if d == 0 {
                Err(Stop::Fail(Error::DepthLimit { table: reg.tables[*t].name.clone() }))
            } else {
                match fetch_many_within(ctx, reg, d - 1, *t, ids) {
                    Ok(items) => Ok(JsonValue::List(items)),
                    Err(s) => Err(s),
                }
            },
        },
        _ => match run_local(ctx, step, v) {
            Ok(w) => Ok(w),
            Err(e) => Err(Stop::Fail(e)),
        },
    }
}

fn fetch_first_within(ctx: &mut FetchCtx, reg: &Registry, d: u32, t: usize, ids: Vec<String>) -> (r: Result<JsonValue, Stop>)
    requires
        old(ctx).wf(),
        reg.wf(),
        t < reg.tables@.len(),
    ensures
        final(ctx).wf(),
        final(ctx).env() == old(ctx).env(),
        final(ctx).key() == old(ctx).key(),
        json_result(r) == fetch_first_spec(old(ctx).env(), *reg, d as nat, t as int, strings_view(ids@)),
        final(ctx).tally() == tally_fetch_first(old(ctx).env(), *reg, d as nat, t as int, strings_view(ids@), old(ctx).tally()),
    decreases d, 6int,
{
    match one(ctx, &reg.tables[t], Param::new_id(ids)) {
        Err(s) => Err(wrap_record(reg, t, s)),
        Ok(o) => create_one_within(ctx, reg, d, t, &o),
    }
}

fn create_many_within(ctx: &mut FetchCtx, reg: &Registry, d: u32, t: usize, ones: &Vec<One>) -> (r: Result<Vec<JsonValue>, Stop>)
    requires
        old(ctx).wf(),
        reg.wf(),
        t < reg.tables@.len(),
    ensures
        final(ctx).wf(),
        final(ctx).env() == old(ctx).env(),
        final(ctx).key() == old(ctx).key(),
        list_result(r) == create_many_from(old(ctx).env(), *reg, d as nat, t as int, ones_view(ones@), 0),
        final(ctx).tally() == tally_create_many_from(old(ctx).env(), *reg, d as nat, t as int, ones_view(ones@), 0, old(ctx).tally()),
    decreases d, 6int,
{
    let ghost env = ctx.env();
    let ghost ov = ones_view(ones@);
    let mut out: Vec<JsonValue> = Vec::new();
    let mut i: usize = 0;
    while i < ones.len()
        invariant
            i <= ones.len(),
            reg.wf(),
            t < reg.tables@.len(),
            ctx.wf(),
            ctx.env() == env,
            ctx.key() == old(ctx).key(),
            env == old(ctx).env(),
            ov == ones_view(ones@),
            tally_create_many_from(env, *reg, d as nat, t as int, ov, 0, old(ctx).tally())
                == tally_create_many_from(env, *reg, d as nat, t as int, ov, i as int, ctx.tally()),
            create_many_from(env, *reg, d as nat, t as int, ov, 0) == (match create_many_from(env, *reg, d as nat, t as int, ov, i as int) {
                Ok(rest) => Ok(list_view(out@) + rest),
                Err(h) => Err(h),
            }),
        decreases ones.len() - i,
    {
        assert(ov[i as int] == ones@[i as int]@);
        match create_one_within(ctx, reg, d, t, &ones[i]) {
            Err(s) => {
                return Err(s);
            },
            Ok(v) => {
                proof {
                    let ghost tail = create_many_from(env, *reg, d as nat, t as int, ov, i + 1);
                    lemma_list_view_push(out@, v);
                    if tail is Ok {
                        assert(list_view(out@) + (seq![v@] + tail->Ok_0)
                            =~= list_view(out@).push(v@) + tail->Ok_0);
                    }
                }
                out.push(v);
            },
        }
        i = i + 1;
    }
    assert(list_view(out@) + Seq::<Json>::empty() =~= list_view(out@));
    Ok(out)
}

fn fetch_many_within(ctx: &mut FetchCtx, reg: &Registry, d: u32, t: usize, ids: Vec<String>) -> (r: Result<Vec<JsonValue>, Stop>)
    requires
        old(ctx).wf(),
        reg.wf(),
        t < reg.tables@.len(),
    ensures
        final(ctx).wf(),
        final(ctx).env() == old(ctx).env(),
        final(ctx).key() == old(ctx).key(),
        list_result(r) == fetch_many_spec(old(ctx).env(), *reg, d as nat, t as int, strings_view(ids@)),
        final(ctx).tally() == tally_fetch_many(old(ctx).env(), *reg, d as nat, t as int, strings_view(ids@), old(ctx).tally()),
    decreases d, 7int,
{
    match many(ctx, &reg.tables[t], Param::new_id(ids)) {
        Err(s) => Err(wrap_record(reg, t, s)),
        Ok(ones) => create_many_within(ctx, reg, d, t, &ones),
    }
}

} // verus!

verus! {

/// Runs a chain of steps on `v`, in order, stopping at the first failure.
/// The empty chain hands `v` back and leaves the context untouched.
pub fn compose(ctx: &mut FetchCtx, reg: &Registry, chain: &Vec<Transform>, v: JsonValue) -> (r: Result<JsonValue, Stop>)
    requires
        old(ctx).wf(),
        reg.wf(),
        forall|s: int| 0 <= s < chain@.len() ==> step_in_range(#[trigger] chain@[s], reg.tables@.len()),
    ensures
        final(ctx).wf(),
        final(ctx).env() == old(ctx).env(),
        final(ctx).key() == old(ctx).key(),
        json_result(r) == chain_from(old(ctx).env(), *reg, MAX_DEPTH as nat, chain@, v@, 0),
        final(ctx).tally() == tally_chain_from(old(ctx).env(), *reg, MAX_DEPTH as nat, chain@, v@, 0, old(ctx).tally()),
        chain@.len() == 0 ==> *final(ctx) == *old(ctx),
{
    run_chain(ctx, reg, MAX_DEPTH, chain, v)
}

/// The mapped record of table `t` built from one raw record.
pub fn create_one(ctx: &mut FetchCtx, reg: &Registry, t: usize, one: One) -> (r: Result<JsonValue, Stop>)
    requires
        old(ctx).wf(),
        reg.wf(),
        t < reg.tables@.len(),
    ensures
        final(ctx).wf(),
        final(ctx).env() == old(ctx).env(),
        final(ctx).key() == old(ctx).key(),
        json_result(r) == create_one_spec(old(ctx).env(), *reg, MAX_DEPTH as nat, t as int, one@),
        final(ctx).tally() == tally_create_one(old(ctx).env(), *reg, MAX_DEPTH as nat, t as int, one@, old(ctx).tally()),
{
    create_one_within(ctx, reg, MAX_DEPTH, t, &one)
}

/// The mapped records of table `t`, one per raw record, in input order.
pub fn create_many(ctx: &mut FetchCtx, reg: &Registry, t: usize, many: Vec<One>) -> (r: Result<Vec<JsonValue>, Stop>)
    requires
        old(ctx).wf(),
        reg.wf(),
        t < reg.tables@.len(),
    ensures
        final(ctx).wf(),
        final(ctx).env() == old(ctx).env(),
        final(ctx).key() == old(ctx).key(),
        list_result(r) == create_many_from(old(ctx).env(), *reg, MAX_DEPTH as nat, t as int, ones_view(many@), 0),
        final(ctx).tally() == tally_create_many_from(old(ctx).env(), *reg, MAX_DEPTH as nat, t as int, ones_view(many@), 0, old(ctx).tally()),
{
    create_many_within(ctx, reg, MAX_DEPTH, t, &many)
}

/// The record of the first of `ids` in table `t`, fetched and hydrated.
pub fn fetch_and_create_first(ctx: &mut FetchCtx, reg: &Registry, t: usize, ids: Vec<String>) -> (r: Result<JsonValue, Stop>)
    requires
        old(ctx).wf(),
        reg.wf(),
        t < reg.tables@.len(),
    ensures
        final(ctx).wf(),
        final(ctx).env() == old(ctx).env(),
        final(ctx).key() == old(ctx).key(),
        json_result(r) == fetch_first_spec(old(ctx).env(), *reg, MAX_DEPTH as nat, t as int, strings_view(ids@)),
        final(ctx).tally() == tally_fetch_first(old(ctx).env(), *reg, MAX_DEPTH as nat, t as int, strings_view(ids@), old(ctx).tally()),
{
    fetch_first_within(ctx, reg, MAX_DEPTH, t, ids)
}

/// The records of all `ids` in table `t`, fetched and hydrated in order.
pub fn fetch_and_create_many(ctx: &mut FetchCtx, reg: &Registry, t: usize, ids: Vec<String>) -> (r: Result<Vec<JsonValue>, Stop>)
    requires
        old(ctx).wf(),
        reg.wf(),
        t < reg.tables@.len(),
    ensures
        final(ctx).wf(),
        final(ctx).env() == old(ctx).env(),
        final(ctx).key() == old(ctx).key(),
        list_result(r) == fetch_many_spec(old(ctx).env(), *reg, MAX_DEPTH as nat, t as int, strings_view(ids@)),
        final(ctx).tally() == tally_fetch_many(old(ctx).env(), *reg, MAX_DEPTH as nat, t as int, strings_view(ids@), old(ctx).tally()),
{
    fetch_many_within(ctx, reg, MAX_DEPTH, t, ids)
}

/// The empty chain is the identity: it gives back the value it was handed.
pub proof fn lemma_empty_chain_is_identity(env: Env, reg: Registry, d: nat, v: Json)
    ensures
        chain_from(env, reg, d, Seq::empty(), v, 0) == Ok::<Json, Halt>(v),
{
}

/// A chain whose first step fails fails with that step's error, and the
/// steps after it play no part: the chain gives what its first step alone gives.
pub proof fn lemma_chain_stops_at_failure(env: Env, reg: Registry, d: nat, chain: Seq<Transform>, v: Json, h: Halt)
    requires
        chain.len() >= 1,
        apply_step(env, reg, d, chain[0], v) == Err::<Json, Halt>(h),
    ensures
        chain_from(env, reg, d, chain, v, 0) == Err::<Json, Halt>(h),
        chain_from(env, reg, d, chain, v, 0) == chain_from(env, reg, d, chain.take(1), v, 0),
{
    assert(chain.take(1)[0] == chain[0]);
}

proof fn lemma_fields_fail_from(env: Env, reg: Registry, d: nat, t: int, one: OneView, i: int, j: int, e: Error)
    requires
        0 <= t < reg.tables@.len(),
        0 <= j <= i < reg.tables@[t].fields@.len(),
        forall|k: int| j <= k < i ==> #[trigger] chain_from(env, reg, d, reg.tables@[t].fields@[k].chain@,
            present_or_null(entry_of(one.fields, reg.tables@[t].fields@[k].source@)), 0) is Ok,
        chain_from(env, reg, d, reg.tables@[t].fields@[i].chain@,
            present_or_null(entry_of(one.fields, reg.tables@[t].fields@[i].source@)), 0) == Err::<Json, Halt>(Halt::Fail(e)),
    ensures
        create_fields_from(env, reg, d, t, one, j) == Err::<Seq<(Seq<char>, Json)>, Halt>(field_failure(reg, t, i, Halt::Fail(e))),
    decreases i - j,
{
    let fields = reg.tables@[t].fields@;
    if j < i {
        lemma_fields_fail_from(env, reg, d, t, one, i, j + 1, e);
        assert(chain_from(env, reg, d, fields[j].chain@, present_or_null(entry_of(one.fields, fields[j].source@)), 0) is Ok);
    }
}

/// A record is built all or nothing: when the chain of field `i` fails and
/// the fields before it succeed, the record fails with that field's error,
/// wrapped with the field and the table, and no later field is run.
pub proof fn lemma_failed_field_ends_record(env: Env, reg: Registry, d: nat, t: int, one: OneView, i: int, e: Error)
    requires
        0 <= t < reg.tables@.len(),
        0 <= i < reg.tables@[t].fields@.len(),
        forall|k: int| 0 <= k < i ==> #[trigger] chain_from(env, reg, d, reg.tables@[t].fields@[k].chain@,
            present_or_null(entry_of(one.fields, reg.tables@[t].fields@[k].source@)), 0) is Ok,
        chain_from(env, reg, d, reg.tables@[t].fields@[i].chain@,
            present_or_null(entry_of(one.fields, reg.tables@[t].fields@[i].source@)), 0) == Err::<Json, Halt>(Halt::Fail(e)),
    ensures
        create_one_spec(env, reg, d, t, one) == Err::<Json, Halt>(Halt::Fail(Error::RecordCreation {
            table: reg.tables@[t].name,
            cause: Box::new(Error::FieldTransform {
                table: reg.tables@[t].name,
                field: reg.tables@[t].fields@[i].target,
                cause: Box::new(e),
            }),
        })),
{
    lemma_fields_fail_from(env, reg, d, t, one, i, 0, e);
}

} // verus!
