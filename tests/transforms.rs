use airtable_proxy::error::{Error, MappingReason};
use airtable_proxy::fetch::FetchCtx;
use airtable_proxy::record::{Many, One};
use std::cell::Cell;
use airtable_proxy::transform::{chain_two, compose_two, copy, first, force_bool, id, into_records, money, split_lines};

fn ctx() -> FetchCtx {
    FetchCtx::new("key".to_string(), "app1".to_string())
}

#[test]
fn money_groups_thousands_and_appends_cents() {
    let c = ctx();
    assert_eq!(money(&c, 1234).unwrap(), "$1,234.00");
}

#[test]
fn money_small_and_large_amounts() {
    let c = ctx();
    assert_eq!(money(&c, 0).unwrap(), "$0.00");
    assert_eq!(money(&c, 999).unwrap(), "$999.00");
    assert_eq!(money(&c, 1000).unwrap(), "$1,000.00");
    assert_eq!(money(&c, 1234567).unwrap(), "$1,234,567.00");
    assert_eq!(money(&c, u32::MAX).unwrap(), "$4,294,967,295.00");
}

#[test]
fn force_bool_reads_missing_as_false() {
    let c = ctx();
    assert_eq!(force_bool(&c, None).unwrap(), false);
    assert_eq!(force_bool(&c, Some(true)).unwrap(), true);
    assert_eq!(force_bool(&c, Some(false)).unwrap(), false);
}

#[test]
fn split_lines_splits_at_each_line_feed() {
    let c = ctx();
    assert_eq!(split_lines(&c, "a\nb\nc".to_string()).unwrap(), vec!["a", "b", "c"]);
}

#[test]
fn split_lines_keeps_empty_pieces() {
    let c = ctx();
    assert_eq!(split_lines(&c, "".to_string()).unwrap(), vec![""]);
    assert_eq!(split_lines(&c, "a\n".to_string()).unwrap(), vec!["a", ""]);
    assert_eq!(split_lines(&c, "\n\nx".to_string()).unwrap(), vec!["", "", "x"]);
    assert_eq!(split_lines(&c, "1 Main St\nSpringfield".to_string()).unwrap(), vec!["1 Main St", "Springfield"]);
}

#[test]
fn first_takes_the_head() {
    let c = ctx();
    assert_eq!(first(&c, vec![3, 4, 5]).unwrap(), 3);
    assert_eq!(first(&c, vec!["only".to_string()]).unwrap(), "only");
}

#[test]
fn first_of_empty_list_is_mapping_error() {
    let c = ctx();
    let r = first::<u32>(&c, vec![]);
    assert!(matches!(r, Err(Error::Mapping(MappingReason::EmptyList))));
}

#[test]
fn id_and_copy_hand_the_value_back() {
    let c = ctx();
    assert_eq!(id(&c, "x".to_string()).unwrap(), "x");
    assert_eq!(copy(&c, 7u32).unwrap(), 7);
}

#[test]
fn into_records_unwraps_the_list() {
    let c = ctx();
    let m = Many {
        records: vec![One { id: "rec1".to_string(), fields: vec![], created_time: "t".to_string() }],
    };
    let r = into_records(&c, m).unwrap();
    assert_eq!(r.len(), 1);
    assert_eq!(r[0].id, "rec1");
}

#[test]
fn compose_two_runs_first_then_second() {
    let h = compose_two(|x: u32| x + 1, |y: u32| y * 10);
    assert_eq!(h(4), 50);
}

#[test]
fn chain_two_skips_second_step_after_failure() {
    let first_calls = Cell::new(0u32);
    let second_calls = Cell::new(0u32);
    let r: Result<u32, &str> = chain_two(
        |x: u32| {
            first_calls.set(first_calls.get() + 1);
            if x > 0 { Err("boom") } else { Ok(x) }
        },
        |y: u32| {
            second_calls.set(second_calls.get() + 1);
            Ok(y + 1)
        },
        5,
    );
    assert_eq!(r, Err("boom"));
    assert_eq!(first_calls.get(), 1);
    assert_eq!(second_calls.get(), 0);
}

#[test]
fn chain_two_feeds_second_step_on_success() {
    let second_calls = Cell::new(0u32);
    let r: Result<u32, &str> = chain_two(
        |x: u32| Ok(x * 2),
        |y: u32| {
            second_calls.set(second_calls.get() + 1);
            Ok(y + 1)
        },
        5,
    );
    assert_eq!(r, Ok(11));
    assert_eq!(second_calls.get(), 1);
}
