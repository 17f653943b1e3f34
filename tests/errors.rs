use airtable_proxy::error::{DecodeReason, Error, FetchFailure, MappingReason, Stop};
use airtable_proxy::fetch::{EnvKeys, FetchCtx};
use airtable_proxy::hydrate::compose;
use airtable_proxy::json::{object_get, JsonValue};
use airtable_proxy::request::{many, one, Param};
use airtable_proxy::schema::{FieldKind, FieldSpec, Registry, TableSchema, Transform};

fn s(x: &str) -> String {
    x.to_string()
}

fn units() -> TableSchema {
    TableSchema {
        name: s("Units"),
        fields: vec![FieldSpec { target: s("name"), source: s("Name"), kind: FieldKind::Text, chain: vec![] }],
    }
}

const QUERY_URL: &str = "https://api.airtable.com/v0/app1/Units?filterByFormula=%7BName%7D+%3D+%27hour%27";

fn ctx() -> FetchCtx {
    FetchCtx::new(s("key"), s("app1"))
}

#[test]
fn transport_failure_becomes_remote_request_error() {
    let mut c = ctx();
    c.begin();
    let url = s("https://api.airtable.com/v0/app1/Units/rec1");
    c.supply(url.clone(), Err(FetchFailure::Transport { message: s("connection refused") }));
    let r = one(&mut c, &units(), Param::new_id(vec![s("rec1")]));
    match r {
        Err(Stop::Fail(Error::RemoteRequest { url: u, message })) => {
            assert_eq!(u, url);
            assert_eq!(message, "connection refused");
        },
        other => panic!("unexpected {:?}", other),
    }
}

#[test]
fn query_with_no_match_is_mapping_error() {
    let mut c = ctx();
    c.begin();
    c.supply(s(QUERY_URL), Ok(JsonValue::Object(vec![(s("records"), JsonValue::List(vec![]))])));
    let r = one(&mut c, &units(), Param::new_query(s("Name"), s("hour")));
    assert!(matches!(r, Err(Stop::Fail(Error::Mapping(MappingReason::EmptyList)))));
    let all = many(&mut c, &units(), Param::new_query(s("Name"), s("hour")));
    assert_eq!(all.unwrap().len(), 0);
}

#[test]
fn query_answer_without_records_is_deserialization_error() {
    let mut c = ctx();
    c.begin();
    c.supply(s(QUERY_URL), Ok(JsonValue::Object(vec![(s("rows"), JsonValue::List(vec![]))])));
    let r = many(&mut c, &units(), Param::new_query(s("Name"), s("hour")));
    assert!(matches!(r, Err(Stop::Fail(Error::Deserialization(DecodeReason::NotARecordList)))));
}

#[test]
fn query_returns_every_match_in_order() {
    let mut c = ctx();
    c.begin();
    let rec = |id: &str, name: &str| {
        JsonValue::Object(vec![
            (s("id"), JsonValue::Text(s(id))),
            (s("fields"), JsonValue::Object(vec![(s("Name"), JsonValue::Text(s(name))), (s("Extra"), JsonValue::Int(1))])),
            (s("createdTime"), JsonValue::Text(s("t"))),
        ])
    };
    c.supply(s(QUERY_URL), Ok(JsonValue::Object(vec![(s("records"), JsonValue::List(vec![rec("r1", "hour"), rec("r2", "hour")]))])));
    let all = many(&mut c, &units(), Param::new_query(s("Name"), s("hour"))).unwrap();
    assert_eq!(all.len(), 2);
    assert_eq!(all[0].id, "r1");
    assert_eq!(all[1].id, "r2");
    assert_eq!(all[0].fields.len(), 1);
    assert_eq!(all[0].fields[0].0, "Name");
    let first = one(&mut c, &units(), Param::new_query(s("Name"), s("hour"))).unwrap();
    assert_eq!(first.id, "r1");
    assert_eq!(c.stats().hits, 2);
    assert_eq!(c.stats().misses, 0);
}

#[test]
fn picking_a_missing_field_is_mapping_error() {
    let reg = Registry { tables: vec![units()] };
    let mut c = ctx();
    let record = JsonValue::Object(vec![(s("name"), JsonValue::Text(s("hour")))]);
    let r = compose(&mut c, &reg, &vec![Transform::Field(s("label"))], record);
    assert!(matches!(r, Err(Stop::Fail(Error::Mapping(MappingReason::MissingField)))));
}

#[test]
fn money_on_text_is_mapping_error() {
    let reg = Registry { tables: vec![units()] };
    let mut c = ctx();
    let r = compose(&mut c, &reg, &vec![Transform::Money], JsonValue::Text(s("12")));
    assert!(matches!(r, Err(Stop::Fail(Error::Mapping(MappingReason::UnexpectedValue)))));
    let ok = compose(&mut c, &reg, &vec![Transform::Money], JsonValue::Int(12)).unwrap();
    assert!(matches!(ok, JsonValue::Text(ref t) if t == "$12.00"));
}

#[test]
fn fetch_step_needs_a_list_of_ids() {
    let reg = Registry { tables: vec![units()] };
    let mut c = ctx();
    let r = compose(&mut c, &reg, &vec![Transform::FetchFirst(0)], JsonValue::Text(s("rec1")));
    assert!(matches!(r, Err(Stop::Fail(Error::Mapping(MappingReason::UnexpectedValue)))));
}

#[test]
fn env_keys_name_both_variables() {
    let keys = EnvKeys::names();
    assert_eq!(keys.0, ["AIRTABLE_KEY", "AIRTABLE_APP"]);
    assert_eq!(keys.to_text(), "[\"AIRTABLE_KEY\", \"AIRTABLE_APP\"]");
}

#[test]
fn object_get_takes_the_first_entry_and_copies_it() {
    let entries = vec![
        (s("a"), JsonValue::List(vec![JsonValue::Int(1), JsonValue::Null])),
        (s("a"), JsonValue::Bool(true)),
    ];
    match object_get(&entries, &s("a")) {
        Some(JsonValue::List(items)) => {
            assert_eq!(items.len(), 2);
            assert!(matches!(items[0], JsonValue::Int(1)));
        },
        other => panic!("unexpected {:?}", other),
    }
    assert!(object_get(&entries, &s("b")).is_none());
}

#[test]
fn duplicate_copies_nested_errors() {
    let e = Error::RecordCreation {
        table: s("T"),
        cause: Box::new(Error::RemoteResponse { status: 500, url: s("u") }),
    };
    match e.duplicate() {
        Error::RecordCreation { table, cause } => {
            assert_eq!(table, "T");
            assert!(matches!(*cause, Error::RemoteResponse { status: 500, ref url } if url == "u"));
        },
        other => panic!("unexpected {:?}", other),
    }
}
