//! Field transforms: the steps that a field's chain is made of.

use vstd::prelude::*;
use vstd::string::{StrSliceExecFns, StringExecFns};
use crate::error::{Error, MappingReason};
use crate::fetch::FetchCtx;
use crate::json::{entry_of, lemma_list_view_push, list_view, object_get, Json, JsonValue};
use crate::record::{Many, One};
use crate::schema::Transform;

verus! {

pub open spec fn digit(d: nat) -> char {
    seq!['0', '1', '2', '3', '4', '5', '6', '7', '8', '9'][d as int]
}

/// The decimal digits of `n`.
pub open spec fn decimal(n: nat) -> Seq<char>
    decreases n,
{
    if n < 10 {
        seq![digit(n)]
    } else {
        decimal(n / 10).push(digit(n % 10))
    }
}

/// `n` below a thousand as exactly three digits.
pub open spec fn three_digits(n: nat) -> Seq<char> {
    seq![digit(n / 100), digit((n / 10) % 10), digit(n % 10)]
}

/// The decimal digits of `n` with a comma between groups of three, counted
/// from the right: `1234567` reads `1,234,567`.
pub open spec fn grouped(n: nat) -> Seq<char>
    decreases n,
{
    if n < 1000 {
        decimal(n)
    } else {
        grouped(n / 1000) + seq![','] + three_digits(n % 1000)
    }
}

/// A whole number of dollars as text; cents always read `.00`.
pub open spec fn money_text(n: nat) -> Seq<char> {
    "$"@ + grouped(n) + ".00"@
}

/// Relies on num_format's `WriteFormatted::write_formatted` into a `String`
/// with `Locale::en` (separator ",", groups of three): the digits of `n`
/// grouped as `grouped` states. Writing into a `String` does not fail.
#[verifier::external_body]
fn en_grouped(n: u32) -> (r: String)
    ensures
        r@ == grouped(n as nat),
{
    let mut buf = String::new();
    let _ = num_format::WriteFormatted::write_formatted(&mut buf, &n, &num_format::Locale::en);
    buf
}

/// The pieces of `s` between line feeds, in order; a text with `k` line
/// feeds has `k + 1` pieces, some of them maybe empty.
pub open spec fn split_lines_of(s: Seq<char>) -> Seq<Seq<char>>
    decreases s.len(),
{
    if s.len() == 0 {
        seq![Seq::empty()]
    } else {
        let init = split_lines_of(s.drop_last());
        if s.last() == '\n' {
            init.push(Seq::empty())
        } else {
            init.update(init.len() - 1, init.last().push(s.last()))
        }
    }
}

pub proof fn lemma_split_lines_nonempty(s: Seq<char>)
    ensures
        split_lines_of(s).len() >= 1,
    decreases s.len(),
{
    if s.len() > 0 {
        lemma_split_lines_nonempty(s.drop_last());
    }
}

pub open spec fn strings_view(v: Seq<String>) -> Seq<Seq<char>> {
    v.map_values(|s: String| s@)
}

/// Hands a value on unchanged (for values that are `Copy`).
pub fn copy<T: Copy>(_ctx: &FetchCtx, t: T) -> (r: Result<T, Error>)
    ensures
        r == Ok::<T, Error>(t),
{
    Ok(t)
}

/// Hands a value on unchanged.
pub fn id<T>(_ctx: &FetchCtx, t: T) -> (r: Result<T, Error>)
    ensures
        r == Ok::<T, Error>(t),
{
    Ok(t)
}

/// The first item of a list; an empty list is a mapping error.
pub fn first<T>(_ctx: &FetchCtx, vec: Vec<T>) -> (r: Result<T, Error>)
    ensures
        vec@.len() == 0 ==> r == Err::<T, Error>(Error::Mapping(MappingReason::EmptyList)),
        vec@.len() > 0 ==> r == Ok::<T, Error>(vec@[0]),
{
    let mut vec = vec;
    if vec.len() == 0 {
        Err(Error::Mapping(MappingReason::EmptyList))
    } else {
        Ok(vec.swap_remove(0))
    }
}

/// A missing boolean reads as `false`.
pub fn force_bool(_ctx: &FetchCtx, val: Option<bool>) -> (r: Result<bool, Error>)
    ensures
        r == Ok::<bool, Error>(
            match val {
                Some(b) => b,
                None => false,
            },
        ),
{
    match val {
        Some(b) => Ok(b),
        None => Ok(false),
    }
}

/// A whole number of dollars as text, `1234` reading `"$1,234.00"`.
pub fn money(_ctx: &FetchCtx, val: u32) -> (r: Result<String, Error>)
    ensures
        r matches Ok(s) && s@ == money_text(val as nat),
{
    let mut buf = "$".to_owned();
    let digits = en_grouped(val);
    buf.append(digits.as_str());
    buf.append(".00");
    Ok(buf)
}

/// A text split at each line feed.
pub fn split_lines(_ctx: &FetchCtx, val: String) -> (r: Result<Vec<String>, Error>)
    ensures
        r matches Ok(v) && strings_view(v@) == split_lines_of(val@),
{
    Ok(split_text(&val))
}

fn split_text(val: &String) -> (r: Vec<String>)
    ensures
        strings_view(r@) == split_lines_of(val@),
{
    let s = val.as_str();
    let n = s.unicode_len();
    let mut pieces: Vec<String> = Vec::new();
    let mut start: usize = 0;
    let mut i: usize = 0;
    assert(s@.subrange(0, 0) =~= Seq::<char>::empty());
    assert(strings_view(pieces@).push(s@.subrange(0, 0)) =~= split_lines_of(s@.subrange(0, 0)));
    while i < n
        invariant
            n == s@.len(),
            s@ == val@,
            start <= i <= n,
            strings_view(pieces@).push(s@.subrange(start as int, i as int)) == split_lines_of(
                s@.subrange(0, i as int),
            ),
        decreases n - i,
    {
        let c = s.get_char(i);
        let ghost prefix = s@.subrange(0, i as int + 1);
        assert(prefix.drop_last() =~= s@.subrange(0, i as int));
        assert(prefix.last() == c);
        if c == '\n' {
            let piece = s.substring_char(start, i).to_owned();
            proof {
                assert(strings_view(pieces@.push(piece)) =~= strings_view(pieces@).push(piece@));
                assert(s@.subrange(i as int + 1, i as int + 1) =~= Seq::<char>::empty());
            }
            pieces.push(piece);
            start = i + 1;
        } else {
            proof {
                lemma_split_lines_nonempty(s@.subrange(0, i as int));
                assert(s@.subrange(start as int, i as int).push(c) =~= s@.subrange(start as int, i as int + 1));
                assert(strings_view(pieces@).push(s@.subrange(start as int, i as int)).update(
                    strings_view(pieces@).len() as int, s@.subrange(start as int, i as int + 1))
                    =~= strings_view(pieces@).push(s@.subrange(start as int, i as int + 1)));
            }
        }
        i = i + 1;
    }
    let last = s.substring_char(start, n).to_owned();
    proof {
        assert(strings_view(pieces@.push(last)) =~= strings_view(pieces@).push(last@));
        assert(s@.subrange(0, n as int) =~= s@);
    }
    pieces.push(last);
    pieces
}

/// The records of a record list.
pub fn into_records(_ctx: &FetchCtx, many: Many) -> (r: Result<Vec<One>, Error>)
    ensures
        r == Ok::<Vec<One>, Error>(many.records),
{
    Ok(many.records)
}

} // verus!

verus! {

/// Texts as JSON strings.
pub open spec fn texts(ss: Seq<Seq<char>>) -> Seq<Json> {
    ss.map_values(|x: Seq<char>| Json::Text(x))
}

/// A step that reads no record from the store.
pub open spec fn is_local(step: Transform) -> bool {
    !(step is FetchFirst) && !(step is FetchMany)
}

/// What a local step makes of a value. A value of a type the step does not
/// take is a mapping error.
pub open spec fn apply_local(step: Transform, v: Json) -> Result<Json, Error> {
    let unexpected = Err(Error::Mapping(MappingReason::UnexpectedValue));
    match step {
        Transform::First => match v {
            Json::List(xs) => if xs.len() > 0 {
                Ok(xs[0])
            } else {
                Err(Error::Mapping(MappingReason::EmptyList))
            },
            _ => unexpected,
        },
        Transform::ForceBool => match v {
            Json::Null => Ok(Json::Bool(false)),
            Json::Bool(b) => Ok(Json::Bool(b)),
            _ => unexpected,
        },
        Transform::Money => match v {
            Json::Int(n) => if 0 <= n <= u32::MAX {
                Ok(Json::Text(money_text(n as nat)))
            } else {
                unexpected
            },
            _ => unexpected,
        },
        Transform::SplitLines => match v {
            Json::Text(s) => Ok(Json::List(texts(split_lines_of(s)))),
            _ => unexpected,
        },
        Transform::Field(name) => match v {
            Json::Object(es) => match entry_of(es, name@) {
                Some(x) => Ok(x),
                None => Err(Error::Mapping(MappingReason::MissingField)),
            },
            _ => unexpected,
        },
        _ => Ok(v),
    }
}

/// The ids in a value that is a list of texts.
pub open spec fn ids_of(v: Json) -> Option<Seq<Seq<char>>> {
    match v {
        Json::List(xs) => if forall|i: int| 0 <= i < xs.len() ==> #[trigger] xs[i] is Text {
            Some(xs.map_values(|x: Json| x->Text_0))
        } else {
            None
        },
        _ => None,
    }
}

fn texts_value(pieces: Vec<String>) -> (r: JsonValue)
    ensures
        r@ == Json::List(texts(strings_view(pieces@))),
{
    let mut out: Vec<JsonValue> = Vec::new();
    let mut i: usize = 0;
    while i < pieces.len()
        invariant
            i <= pieces.len(),
            list_view(out@) =~= texts(strings_view(pieces@.subrange(0, i as int))),
        decreases pieces.len() - i,
    {
        let t = JsonValue::Text(pieces[i].clone());
        proof {
            lemma_list_view_push(out@, t);
            assert(pieces@.subrange(0, i as int + 1) =~= pieces@.subrange(0, i as int).push(pieces@[i as int]));
        }
        out.push(t);
        i = i + 1;
    }
    assert(pieces@.subrange(0, pieces.len() as int) =~= pieces@);
    JsonValue::List(out)
}

/// The ids of a value that is a list of texts, or `None`.
#[verifier::loop_isolation(false)]
pub fn id_list(v: &JsonValue) -> (r: Option<Vec<String>>)
    ensures
        match r {
            Some(ids) => ids_of(v@) == Some(strings_view(ids@)),
            None => ids_of(v@) is None,
        },
{
    match v {
        JsonValue::List(items) => {
            proof {
                crate::json::lemma_list_view_index(items@);
            }
            let ghost lv = list_view(items@);
            let mut out: Vec<String> = Vec::new();
            let mut i: usize = 0;
            while i < items.len()
                invariant
                    i <= items.len(),
                    lv == list_view(items@),
                    lv.len() == items.len(),
                    forall|j: int| 0 <= j < items.len() ==> #[trigger] lv[j] == items@[j]@,
                    forall|j: int| 0 <= j < i ==> #[trigger] lv[j] is Text,
                    strings_view(out@) =~= lv.subrange(0, i as int).map_values(|x: Json| x->Text_0),
                decreases items.len() - i,
            {
                match &items[i] {
                    JsonValue::Text(s) => {
                        let c = s.clone();
                        proof {
                            assert(strings_view(out@.push(c)) =~= strings_view(out@).push(c@));
                            assert(lv.subrange(0, i as int + 1).map_values(|x: Json| x->Text_0)
                                =~= lv.subrange(0, i as int).map_values(|x: Json| x->Text_0).push(c@));
                        }
                        out.push(c);
                    },
                    _ => {
                        assert(!(lv[i as int] is Text));
                        assert(!(forall|j: int| 0 <= j < lv.len() ==> #[trigger] lv[j] is Text));
                        return None;
                    },
                }
                i = i + 1;
            }
            assert(lv.subrange(0, items.len() as int) =~= lv);
            Some(out)
        },
        _ => None,
    }
}

/// Runs a step that reads no record.
pub fn run_local(ctx: &FetchCtx, step: &Transform, v: JsonValue) -> (r: Result<JsonValue, Error>)
    requires
        is_local(*step),
    ensures
        match r {
            Ok(x) => apply_local(*step, v@) == Ok::<_, Error>(x@),
            Err(e) => apply_local(*step, v@) == Err::<Json, _>(e),
        },
{
    let unexpected = Error::Mapping(MappingReason::UnexpectedValue);
    match step {
        Transform::Identity => Ok(v),
        Transform::First => match v {
            JsonValue::List(items) => {
                proof {
                    crate::json::lemma_list_view_index(items@);
                }
                first(ctx, items)
            },
            _ => Err(unexpected),
        },
        Transform::ForceBool => match v {
            JsonValue::Null => Ok(JsonValue::Bool(false)),
            JsonValue::Bool(b) => Ok(JsonValue::Bool(b)),
            _ => Err(unexpected),
        },
        Transform::Money => match v {
            JsonValue::Int(n) => if 0 <= n && n <= u32::MAX as i64 {
                match money(ctx, n as u32) {
                    Ok(s) => Ok(JsonValue::Text(s)),
                    Err(e) => Err(e),
                }
            } else {
                Err(unexpected)
            },
            _ => Err(unexpected),
        },
        Transform::SplitLines => match v {
            JsonValue::Text(s) => Ok(texts_value(split_text(&s))),
            _ => Err(unexpected),
        },
        Transform::Field(name) => match v {
            JsonValue::Object(es) => match object_get(&es, name) {
                Some(x) => Ok(x),
                None => Err(Error::Mapping(MappingReason::MissingField)),
            },
            _ => Err(unexpected),
        },
        Transform::FetchFirst(_) => Ok(v),
        Transform::FetchMany(_) => Ok(v),
    }
}

} // verus!

verus! {

/// The function that runs `f` and then `g` on what `f` gave.
pub fn compose_two<A, B, C, G, F>(f: F, g: G) -> (h: impl Fn(A) -> C)
    where
        F: Fn(A) -> B,
        G: Fn(B) -> C,
    requires
        forall|a: A| #[trigger] f.requires((a,)),
        forall|b: B| #[trigger] g.requires((b,)),
    ensures
        forall|a: A| #[trigger] h.requires((a,)),
        forall|a: A, c: C| #[trigger] h.ensures((a,), c) ==> exists|b: B| f.ensures((a,), b) && g.ensures((b,), c),
{
    move |x: A| -> (c: C)
        requires
            f.requires((x,)),
            forall|b: B| #[trigger] g.requires((b,)),
        ensures
            exists|b: B| f.ensures((x,), b) && g.ensures((b,), c),
        {
            let b = f(x);
            g(b)
        }
}

} // verus!

verus! {

/// Runs `f` on `x` and, only when it succeeds, `g` on its value; a failure
/// of `f` is the result as it is, and `g` is then never called.
pub fn chain_two<A, B, C, E, F, G>(f: F, g: G, x: A) -> (r: Result<C, E>)
    where
        F: FnOnce(A) -> Result<B, E>,
        G: FnOnce(B) -> Result<C, E>,
    requires
        f.requires((x,)),
        forall|b: B| #[trigger] g.requires((b,)),
    ensures
        exists|r1: Result<B, E>|
            #[trigger] f.ensures((x,), r1) && match r1 {
                Err(e) => r == Err::<C, E>(e),
                Ok(b) => g.ensures((b,), r),
            },
{
    match f(x) {
        Err(e) => Err(e),
        Ok(b) => g(b),
    }
}

} // verus!
