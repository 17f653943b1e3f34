use airtable_proxy::cache::Stats;
use airtable_proxy::error::{DecodeReason, Error, FetchFailure, MappingReason, Stop};
use airtable_proxy::fetch::FetchCtx;
use airtable_proxy::hydrate::{compose, create_many, create_one, fetch_and_create_first, fetch_and_create_many};
use airtable_proxy::json::JsonValue;
use airtable_proxy::record::One;
use airtable_proxy::schema::{FieldKind, FieldSpec, Registry, TableSchema, Transform};

fn s(x: &str) -> String {
    x.to_string()
}

fn text(x: &str) -> JsonValue {
    JsonValue::Text(s(x))
}

fn obj(entries: Vec<(&str, JsonValue)>) -> JsonValue {
    JsonValue::Object(entries.into_iter().map(|(k, v)| (s(k), v)).collect())
}

fn ids(xs: &[&str]) -> JsonValue {
    JsonValue::List(xs.iter().map(|x| text(x)).collect())
}

fn record(id: &str, fields: Vec<(&str, JsonValue)>) -> JsonValue {
    obj(vec![("id", text(id)), ("fields", obj(fields)), ("createdTime", text("2020-01-01T00:00:00.000Z"))])
}

fn field(target: &str, source: &str, kind: FieldKind, chain: Vec<Transform>) -> FieldSpec {
    FieldSpec { target: s(target), source: s(source), kind, chain }
}

fn ctx() -> FetchCtx {
    FetchCtx::new(s("key"), s("app1"))
}

fn get<'a>(v: &'a JsonValue, key: &str) -> &'a JsonValue {
    match v {
        JsonValue::Object(es) => &es.iter().find(|(k, _)| k == key).expect("field").1,
        _ => panic!("not an object"),
    }
}

fn as_text(v: &JsonValue) -> &str {
    match v {
        JsonValue::Text(t) => t,
        _ => panic!("not text: {:?}", v),
    }
}

/// Tables: 0 = units, 1 = rates (unit linked), 2 = items (rate linked, amount as money).
fn invoice_registry() -> Registry {
    Registry {
        tables: vec![
            TableSchema { name: s("Invoice Units"), fields: vec![field("name", "Name", FieldKind::Text, vec![])] },
            TableSchema {
                name: s("Invoice Rates"),
                fields: vec![
                    field("name", "Name", FieldKind::Text, vec![]),
                    field("notes", "Notes", FieldKind::OptionalText, vec![]),
                    field("unit", "Unit", FieldKind::Ids, vec![Transform::FetchFirst(0), Transform::Field(s("name"))]),
                ],
            },
            TableSchema {
                name: s("Invoice Item"),
                fields: vec![
                    field("description", "Description", FieldKind::Text, vec![]),
                    field("amount", "Amount", FieldKind::Number, vec![Transform::Money]),
                    field("rate", "Invoice Rate", FieldKind::Ids, vec![Transform::FetchFirst(1)]),
                ],
            },
        ],
    }
}

fn store(url: &str) -> Result<JsonValue, FetchFailure> {
    let base = "https://api.airtable.com/v0/app1/";
    let path = url.strip_prefix(base).expect("base");
    match path {
        "Invoice%20Units/recU" => Ok(record("recU", vec![("Name", text("hour"))])),
        "Invoice%20Rates/recR" => Ok(record("recR", vec![("Name", text("standard")), ("Unit", ids(&["recU"]))])),
        "Invoice%20Item/recA" => Ok(record("recA", vec![("Description", text("design")), ("Amount", JsonValue::Int(1234)), ("Invoice Rate", ids(&["recR"]))])),
        "Invoice%20Item/recB" => Ok(record("recB", vec![("Description", text("build")), ("Amount", JsonValue::Int(50)), ("Invoice Rate", ids(&["recR"]))])),
        "Invoice%20Item/recBad" => Ok(obj(vec![("error", text("nope"))])),
        _ => Err(FetchFailure::Status { status: 404 }),
    }
}

fn drive<T>(c: &mut FetchCtx, mut run: impl FnMut(&mut FetchCtx) -> Result<T, Stop>) -> (Result<T, Stop>, Vec<String>) {
    c.begin();
    let mut asked = Vec::new();
    loop {
        match run(c) {
            Err(Stop::Need(url)) => {
                assert!(!asked.contains(&url), "asked twice for {}", url);
                asked.push(url.clone());
                let response = store(&url);
                c.supply(url, response);
            },
            other => return (other, asked),
        }
    }
}

#[test]
fn raw_record_maps_to_target_names() {
    let reg = Registry { tables: vec![TableSchema { name: s("Clients"), fields: vec![field("name", "Name", FieldKind::Text, vec![])] }] };
    let mut c = ctx();
    let raw = One { id: s("rec1"), fields: vec![(s("Name"), text("Acme"))], created_time: s("t") };
    let r = create_one(&mut c, &reg, 0, raw).unwrap();
    match &r {
        JsonValue::Object(es) => {
            assert_eq!(es.len(), 1);
            assert_eq!(es[0].0, "name");
            assert_eq!(as_text(&es[0].1), "Acme");
        },
        other => panic!("unexpected {:?}", other),
    }
}

#[test]
fn empty_chain_hands_value_back_untouched() {
    let reg = invoice_registry();
    let mut c = ctx();
    let r = compose(&mut c, &reg, &vec![], text("same")).unwrap();
    assert_eq!(as_text(&r), "same");
    assert_eq!(c.stats(), Stats { hits: 0, misses: 0 });
}

#[test]
fn chain_stops_at_first_failing_step() {
    let reg = invoice_registry();
    let mut c = ctx();
    let chain = vec![Transform::ForceBool, Transform::FetchFirst(0)];
    let r = compose(&mut c, &reg, &chain, ids(&["recU"]));
    assert!(matches!(r, Err(Stop::Fail(Error::Mapping(MappingReason::UnexpectedValue)))));
    assert_eq!(c.stats(), Stats { hits: 0, misses: 0 });
}

#[test]
fn chain_runs_steps_in_order() {
    let reg = invoice_registry();
    let mut c = ctx();
    let chain = vec![Transform::SplitLines, Transform::First];
    let r = compose(&mut c, &reg, &chain, text("top\nbottom")).unwrap();
    assert_eq!(as_text(&r), "top");
}

#[test]
fn failed_field_ends_record_before_later_fields() {
    let reg = Registry {
        tables: vec![TableSchema {
            name: s("Invoice"),
            fields: vec![
                field("number", "Invoice Number", FieldKind::Text, vec![]),
                field("sent", "Sent?", FieldKind::OptionalBool, vec![Transform::Money]),
                field("client", "Client", FieldKind::Ids, vec![Transform::FetchFirst(0)]),
            ],
        }],
    };
    let mut c = ctx();
    let raw = One {
        id: s("rec1"),
        fields: vec![(s("Invoice Number"), text("7")), (s("Sent?"), JsonValue::Bool(true)), (s("Client"), ids(&["recC"]))],
        created_time: s("t"),
    };
    let r = create_one(&mut c, &reg, 0, raw);
    match r {
        Err(Stop::Fail(Error::RecordCreation { table, cause })) => {
            assert_eq!(table, "Invoice");
            match *cause {
                Error::FieldTransform { table, field, cause } => {
                    assert_eq!(table, "Invoice");
                    assert_eq!(field, "sent");
                    assert!(matches!(*cause, Error::Mapping(MappingReason::UnexpectedValue)));
                },
                other => panic!("unexpected {:?}", other),
            }
        },
        other => panic!("unexpected {:?}", other),
    }
    assert_eq!(c.stats(), Stats { hits: 0, misses: 0 });
}

#[test]
fn linked_records_are_fetched_and_hydrated() {
    let reg = invoice_registry();
    let mut c = ctx();
    let (r, asked) = drive(&mut c, |c| fetch_and_create_first(c, &reg, 2, vec![s("recA")]));
    let item = r.unwrap();
    assert_eq!(as_text(get(&item, "description")), "design");
    assert_eq!(as_text(get(&item, "amount")), "$1,234.00");
    let rate = get(&item, "rate");
    assert_eq!(as_text(get(rate, "name")), "standard");
    assert!(matches!(get(rate, "notes"), JsonValue::Null));
    assert_eq!(as_text(get(rate, "unit")), "hour");
    assert_eq!(asked.len(), 3);
    assert_eq!(c.stats(), Stats { hits: 0, misses: 3 });
}

#[test]
fn repeated_links_are_served_from_cache() {
    let reg = invoice_registry();
    let mut c = ctx();
    let (r, asked) = drive(&mut c, |c| fetch_and_create_many(c, &reg, 2, vec![s("recA"), s("recB")]));
    let items = r.unwrap();
    assert_eq!(items.len(), 2);
    assert_eq!(as_text(get(&items[0], "description")), "design");
    assert_eq!(as_text(get(&items[1], "description")), "build");
    assert_eq!(as_text(get(&items[1], "amount")), "$50.00");
    assert_eq!(asked.len(), 4);
    assert_eq!(c.stats(), Stats { hits: 2, misses: 4 });
    let (again, asked_again) = drive(&mut c, |c| fetch_and_create_first(c, &reg, 2, vec![s("recB")]));
    assert!(again.is_ok());
    assert!(asked_again.is_empty());
    assert_eq!(c.stats(), Stats { hits: 5, misses: 4 });
}

#[test]
fn clear_makes_cached_records_miss_again() {
    let reg = invoice_registry();
    let mut c = ctx();
    let (_, asked) = drive(&mut c, |c| fetch_and_create_first(c, &reg, 0, vec![s("recU")]));
    assert_eq!(asked.len(), 1);
    c.clear();
    assert_eq!(c.stats(), Stats { hits: 0, misses: 0 });
    let (r, asked) = drive(&mut c, |c| fetch_and_create_first(c, &reg, 0, vec![s("recU")]));
    assert!(r.is_ok());
    assert_eq!(asked.len(), 1);
    assert_eq!(c.stats(), Stats { hits: 0, misses: 1 });
}

#[test]
fn transport_failure_is_wrapped_with_context() {
    let reg = invoice_registry();
    let mut c = ctx();
    let (r, _) = drive(&mut c, |c| fetch_and_create_first(c, &reg, 0, vec![s("recMissing")]));
    match r {
        Err(Stop::Fail(Error::RecordCreation { table, cause })) => {
            assert_eq!(table, "Invoice Units");
            match *cause {
                Error::RemoteResponse { status, url } => {
                    assert_eq!(status, 404);
                    assert_eq!(url, "https://api.airtable.com/v0/app1/Invoice%20Units/recMissing");
                },
                other => panic!("unexpected {:?}", other),
            }
        },
        other => panic!("unexpected {:?}", other),
    }
    assert_eq!(c.stats(), Stats { hits: 0, misses: 1 });
}

#[test]
fn malformed_response_is_deserialization_error() {
    let reg = invoice_registry();
    let mut c = ctx();
    let (r, _) = drive(&mut c, |c| fetch_and_create_first(c, &reg, 2, vec![s("recBad")]));
    match r {
        Err(Stop::Fail(Error::RecordCreation { cause, .. })) => {
            assert!(matches!(*cause, Error::Deserialization(DecodeReason::NotARecord)));
        },
        other => panic!("unexpected {:?}", other),
    }
}

#[test]
fn missing_required_field_is_deserialization_error() {
    let reg = invoice_registry();
    let mut c = ctx();
    c.begin();
    c.supply(s("https://api.airtable.com/v0/app1/Invoice%20Units/recX"), Ok(record("recX", vec![("Other", text("x"))])));
    let r = fetch_and_create_first(&mut c, &reg, 0, vec![s("recX")]);
    match r {
        Err(Stop::Fail(Error::RecordCreation { cause, .. })) => {
            assert!(matches!(*cause, Error::Deserialization(DecodeReason::FieldType)));
        },
        other => panic!("unexpected {:?}", other),
    }
}

#[test]
fn cyclic_links_stop_at_depth_guard() {
    let reg = Registry {
        tables: vec![TableSchema {
            name: s("Loop"),
            fields: vec![field("next", "Next", FieldKind::Ids, vec![Transform::FetchFirst(0)])],
        }],
    };
    let mut c = ctx();
    c.begin();
    c.supply(s("https://api.airtable.com/v0/app1/Loop/recL"), Ok(record("recL", vec![("Next", ids(&["recL"]))])));
    let mut e = match fetch_and_create_first(&mut c, &reg, 0, vec![s("recL")]) {
        Err(Stop::Fail(e)) => e,
        other => panic!("unexpected {:?}", other),
    };
    let mut depth = 0;
    loop {
        e = match e {
            Error::RecordCreation { cause, .. } => *cause,
            Error::FieldTransform { cause, .. } => {
                depth += 1;
                *cause
            },
            Error::DepthLimit { table } => {
                assert_eq!(table, "Loop");
                break;
            },
            other => panic!("unexpected {:?}", other),
        };
    }
    assert_eq!(depth, 33);
}

#[test]
fn create_many_keeps_input_order() {
    let reg = invoice_registry();
    let mut c = ctx();
    let raws = vec![
        One { id: s("u1"), fields: vec![(s("Name"), text("day"))], created_time: s("t") },
        One { id: s("u2"), fields: vec![(s("Name"), text("hour"))], created_time: s("t") },
    ];
    let r = create_many(&mut c, &reg, 0, raws).unwrap();
    assert_eq!(as_text(get(&r[0], "name")), "day");
    assert_eq!(as_text(get(&r[1], "name")), "hour");
}

#[test]
fn registry_check_finds_dangling_links() {
    assert!(invoice_registry().is_well_formed());
    let bad = Registry {
        tables: vec![TableSchema { name: s("T"), fields: vec![field("x", "X", FieldKind::Ids, vec![Transform::FetchMany(5)])] }],
    };
    assert!(!bad.is_well_formed());
}
