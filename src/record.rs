//! Raw records as the store sends them, and reading them against a table.

use vstd::prelude::*;
use crate::error::{DecodeReason, Error};
use crate::json::{entries_view, entry_of, lemma_entries_view_push, object_get, Json, JsonValue};
use crate::schema::{FieldKind, FieldSpec, TableSchema};

verus! {

/// One raw record: its id, the raw values of the table's fields by source
/// name, and the time the store created it.
#[derive(Debug)]
pub struct One {
    pub id: String,
    pub fields: Vec<(String, JsonValue)>,
    pub created_time: String,
}

/// A record list, as a filter query returns it.
#[derive(Debug)]
pub struct Many {
    pub records: Vec<One>,
}

/// The model of a [`One`].
pub struct OneView {
    pub id: Seq<char>,
    pub fields: Seq<(Seq<char>, Json)>,
    pub created_time: Seq<char>,
}

impl One {
    pub open spec fn view(&self) -> OneView {
        OneView { id: self.id@, fields: entries_view(self.fields@), created_time: self.created_time@ }
    }
}

pub open spec fn ones_view(s: Seq<One>) -> Seq<OneView> {
    s.map_values(|o: One| o@)
}

impl Many {
    pub open spec fn view(&self) -> Seq<OneView> {
        ones_view(self.records@)
    }
}

pub open spec fn opt_view(o: Option<JsonValue>) -> Option<Json> {
    match o {
        Some(v) => Some(v@),
        None => None,
    }
}

/// Whether a raw value (or its absence) is of a field kind.
pub open spec fn accepts(kind: FieldKind, raw: Option<Json>) -> bool {
    match kind {
        FieldKind::Text => raw matches Some(Json::Text(_)),
        FieldKind::OptionalText => raw matches None || raw matches Some(Json::Null) || raw matches Some(Json::Text(_)),
        FieldKind::Number => raw matches Some(Json::Int(n)) && 0 <= n <= u32::MAX,
        FieldKind::OptionalBool => raw matches None || raw matches Some(Json::Null) || raw matches Some(Json::Bool(_)),
        FieldKind::Ids => raw matches Some(Json::List(items)) && forall|i: int| 0 <= i < items.len() ==> #[trigger] items[i] is Text,
    }
}

/// An absent field reads as `null`.
pub open spec fn present_or_null(raw: Option<Json>) -> Json {
    match raw {
        Some(v) => v,
        None => Json::Null,
    }
}

/// The table's fields from index `i` on, read from a raw `fields` object:
/// each under its source name, in schema order; the first that does not fit
/// its kind fails the whole record.
pub open spec fn decode_fields_from(fields: Seq<FieldSpec>, raw: Seq<(Seq<char>, Json)>, i: int) -> Result<Seq<(Seq<char>, Json)>, Error>
    decreases fields.len() - i,
{
    if i < 0 || i >= fields.len() {
        Ok(Seq::empty())
    } else {
        let value = entry_of(raw, fields[i].source@);
        if !accepts(fields[i].kind, value) {
            Err(Error::Deserialization(DecodeReason::FieldType))
        } else {
            match decode_fields_from(fields, raw, i + 1) {
                Ok(rest) => Ok(seq![(fields[i].source@, present_or_null(value))] + rest),
                Err(e) => Err(e),
            }
        }
    }
}

/// A response read as one record of a table.
pub open spec fn decode_one(schema: TableSchema, j: Json) -> Result<OneView, Error> {
    match j {
        Json::Object(es) => match (entry_of(es, "id"@), entry_of(es, "fields"@), entry_of(es, "createdTime"@)) {
            (Some(Json::Text(id)), Some(Json::Object(fs)), Some(Json::Text(ct))) => match decode_fields_from(schema.fields@, fs, 0) {
                Ok(d) => Ok(OneView { id, fields: d, created_time: ct }),
                Err(e) => Err(e),
            },
            _ => Err(Error::Deserialization(DecodeReason::NotARecord)),
        },
        _ => Err(Error::Deserialization(DecodeReason::NotARecord)),
    }
}

/// Items of a record list from index `i` on, each read as a record.
pub open spec fn decode_list_from(schema: TableSchema, items: Seq<Json>, i: int) -> Result<Seq<OneView>, Error>
    decreases items.len() - i,
{
    if i < 0 || i >= items.len() {
        Ok(Seq::empty())
    } else {
        match decode_one(schema, items[i]) {
            Err(e) => Err(e),
            Ok(o) => match decode_list_from(schema, items, i + 1) {
                Ok(rest) => Ok(seq![o] + rest),
                Err(e) => Err(e),
            },
        }
    }
}

/// A response read as a record list of a table.
pub open spec fn decode_many(schema: TableSchema, j: Json) -> Result<Seq<OneView>, Error> {
    match j {
        Json::Object(es) => match entry_of(es, "records"@) {
            Some(Json::List(items)) => decode_list_from(schema, items, 0),
            _ => Err(Error::Deserialization(DecodeReason::NotARecordList)),
        },
        _ => Err(Error::Deserialization(DecodeReason::NotARecordList)),
    }
}

#[verifier::loop_isolation(false)]
pub fn kind_accepts(kind: FieldKind, raw: &Option<JsonValue>) -> (r: bool)
    ensures
        r == accepts(kind, opt_view(*raw)),
{
    match kind {
        FieldKind::Text => matches!(raw, Some(JsonValue::Text(_))),
        FieldKind::OptionalText => matches!(raw, None | Some(JsonValue::Null) | Some(JsonValue::Text(_))),
        FieldKind::Number => match raw {
            Some(JsonValue::Int(n)) => 0 <= *n && *n <= u32::MAX as i64,
            _ => false,
        },
        FieldKind::OptionalBool => matches!(raw, None | Some(JsonValue::Null) | Some(JsonValue::Bool(_))),
        FieldKind::Ids => match raw {
            Some(JsonValue::List(items)) => {
                proof {
                    crate::json::lemma_list_view_index(items@);
                }
                let mut i: usize = 0;
                while i < items.len()
                    invariant
                        i <= items.len(),
                        crate::json::list_view(items@).len() == items.len(),
                        forall|j: int| 0 <= j < items.len() ==> #[trigger] crate::json::list_view(items@)[j] == items@[j]@,
                        forall|j: int| 0 <= j < i ==> #[trigger] crate::json::list_view(items@)[j] is Text,
                    decreases items.len() - i,
                {
                    if !matches!(items[i], JsonValue::Text(_)) {
                        let ghost lv = crate::json::list_view(items@);
                        assert(!(lv[i as int] is Text));
                        assert(!(forall|j: int| 0 <= j < lv.len() ==> #[trigger] lv[j] is Text));
                        return false;
                    }
                    i = i + 1;
                }
                true
            },
            _ => false,
        },
    }
}

fn present_or_null_copy(raw: Option<JsonValue>) -> (r: JsonValue)
    ensures
        r@ == present_or_null(opt_view(raw)),
{
    match raw {
        Some(v) => v,
        None => JsonValue::Null,
    }
}

/// Reads the table's fields out of a raw `fields` object.
pub fn decode_fields(fields: &Vec<FieldSpec>, raw: &Vec<(String, JsonValue)>) -> (r: Result<Vec<(String, JsonValue)>, Error>)
    ensures
        match r {
            Ok(v) => decode_fields_from(fields@, entries_view(raw@), 0) == Ok::<_, Error>(entries_view(v@)),
            Err(e) => decode_fields_from(fields@, entries_view(raw@), 0) == Err::<Seq<(Seq<char>, Json)>, _>(e),
        },
{
    let ghost rv = entries_view(raw@);
    let mut out: Vec<(String, JsonValue)> = Vec::new();
    let mut i: usize = 0;
    while i < fields.len()
        invariant
            i <= fields.len(),
            rv == entries_view(raw@),
            decode_fields_from(fields@, rv, 0) == (match decode_fields_from(fields@, rv, i as int) {
                Ok(rest) => Ok(entries_view(out@) + rest),
                Err(e) => Err(e),
            }),
        decreases fields.len() - i,
    {
        let value = object_get(raw, &fields[i].source);
        if !kind_accepts(fields[i].kind, &value) {
            return Err(Error::Deserialization(DecodeReason::FieldType));
        }
        let key = fields[i].source.clone();
        let v = present_or_null_copy(value);
        proof {
            lemma_entries_view_push(out@, (key, v));
            let ghost tail = decode_fields_from(fields@, rv, i + 1);
            if tail is Ok {
                assert(entries_view(out@) + (seq![(key@, v@)] + tail->Ok_0)
                    =~= entries_view(out@).push((key@, v@)) + tail->Ok_0);
            }
        }
        out.push((key, v));
        i = i + 1;
    }
    assert(entries_view(out@) + Seq::<(Seq<char>, Json)>::empty() =~= entries_view(out@));
    Ok(out)
}

} // verus!

verus! {

impl One {
    /// Reads a response as one record of `schema`'s table.
    pub fn decode(schema: &TableSchema, j: &JsonValue) -> (r: Result<One, Error>)
        ensures
            match r {
                Ok(o) => decode_one(*schema, j@) == Ok::<_, Error>(o@),
                Err(e) => decode_one(*schema, j@) == Err::<OneView, _>(e),
            },
    {
        match j {
            JsonValue::Object(es) => {
                let id = object_get(es, &"id".to_owned());
                let fields = object_get(es, &"fields".to_owned());
                let created = object_get(es, &"createdTime".to_owned());
                match (id, fields, created) {
                    (Some(JsonValue::Text(id)), Some(JsonValue::Object(fs)), Some(JsonValue::Text(ct))) => {
                        match decode_fields(&schema.fields, &fs) {
                            Ok(d) => Ok(One { id, fields: d, created_time: ct }),
                            Err(e) => Err(e),
                        }
                    },
                    _ => Err(Error::Deserialization(DecodeReason::NotARecord)),
                }
            },
            _ => Err(Error::Deserialization(DecodeReason::NotARecord)),
        }
    }
}

impl Many {
    /// Reads a response as a record list of `schema`'s table.
    pub fn decode(schema: &TableSchema, j: &JsonValue) -> (r: Result<Many, Error>)
        ensures
            match r {
                Ok(m) => decode_many(*schema, j@) == Ok::<_, Error>(m@),
                Err(e) => decode_many(*schema, j@) == Err::<Seq<OneView>, _>(e),
            },
    {
        let items = match j {
            JsonValue::Object(es) => match object_get(es, &"records".to_owned()) {
                Some(JsonValue::List(items)) => items,
                _ => {
                    return Err(Error::Deserialization(DecodeReason::NotARecordList));
                },
            },
            _ => {
                return Err(Error::Deserialization(DecodeReason::NotARecordList));
            },
        };
        let ghost iv = crate::json::list_view(items@);
        proof {
            crate::json::lemma_list_view_index(items@);
        }
        let mut out: Vec<One> = Vec::new();
        let mut i: usize = 0;
        while i < items.len()
            invariant
                i <= items.len(),
                iv == crate::json::list_view(items@),
                decode_many(*schema, j@) == decode_list_from(*schema, iv, 0),
                iv.len() == items.len(),
                forall|j: int| 0 <= j < items.len() ==> #[trigger] iv[j] == items@[j]@,
                decode_list_from(*schema, iv, 0) == (match decode_list_from(*schema, iv, i as int) {
                    Ok(rest) => Ok(ones_view(out@) + rest),
                    Err(e) => Err(e),
                }),
            decreases items.len() - i,
        {
            match One::decode(schema, &items[i]) {
                Err(e) => {
                    return Err(e);
                },
                Ok(o) => {
                    proof {
                        let ghost tail = decode_list_from(*schema, iv, i + 1);
                        assert(ones_view(out@.push(o)) =~= ones_view(out@).push(o@));
                        if tail is Ok {
                            assert(ones_view(out@) + (seq![o@] + tail->Ok_0)
                                =~= ones_view(out@).push(o@) + tail->Ok_0);
                        }
                    }
                    out.push(o);
                },
            }
            i = i + 1;
        }
        assert(ones_view(out@) + Seq::<OneView>::empty() =~= ones_view(out@));
        Ok(Many { records: out })
    }
}

} // verus!
