use cdb::results::{int64_or_error, text_or_error, value_or_error};
use cdb::{
    CdbPgResults, DispatchError, ExecStatusType, ManagedCdbPgResults, PgField, PgResult,
};

const TUPLES_OK: u32 = ExecStatusType::PGRES_TUPLES_OK;

fn bytes(text: &str) -> PgField {
    PgField::Bytes(text.as_bytes().to_vec())
}

/// A result of one row with one field.
fn single(field: PgField) -> PgResult {
    PgResult::new(TUPLES_OK, 1, vec![vec![field]])
}

/// The results of segments that each answered with one field.
fn answers(fields: Vec<PgField>) -> CdbPgResults {
    collected(fields.into_iter().map(|field| Some(single(field))).collect())
}

fn collected(array: Vec<Option<PgResult>>) -> CdbPgResults {
    let mut results = CdbPgResults::new();
    results.num_results = array.len() as i32;
    results.num_dispatches = array.len() as i32;
    results.pg_results = Some(array);
    results
}

fn postgres_message<T>(result: Result<T, DispatchError>) -> String {
    match result {
        Err(DispatchError::PostgreSQLError(msg)) => msg,
        Err(DispatchError::NullByteInString(_)) => panic!("Expected PostgreSQLError variant"),
        Ok(_) => panic!("Expected an error"),
    }
}

fn sum_message(results: CdbPgResults) -> String {
    assert!(results.int64_sum_fits());
    postgres_message(results.extract_int64_sum())
}

fn parse_as<T: std::str::FromStr>(text: &str) -> Result<T, String>
where
    T::Err: std::fmt::Display,
{
    text.parse::<T>().map_err(|e| e.to_string())
}

#[test]
fn test_cdb_pg_results_default() {
    let results = CdbPgResults::default();
    assert_eq!(results.num_results(), 0);
    assert_eq!(results.num_dispatches(), 0);
    assert!(!results.has_results());
}

#[test]
fn test_cdb_pg_results_new() {
    let results = CdbPgResults::new();
    assert_eq!(results.num_results(), 0);
    assert_eq!(results.num_dispatches(), 0);
    assert!(!results.has_results());
    assert!(results.pg_results.is_none());
}

#[test]
fn test_cdb_pg_results_methods() {
    let mut results = CdbPgResults::new();
    results.num_results = 5;
    results.num_dispatches = 3;

    assert_eq!(results.num_results(), 5);
    assert_eq!(results.num_dispatches(), 3);
    assert!(!results.has_results()); // Still false because there is no array

    // Simulate an array of results (note: this is just for testing structure behavior)
    results.pg_results = Some(vec![None, None, None, None, None]);
    assert!(results.has_results());
}

#[test]
fn test_exec_status_type_values() {
    // Test that our enum values match PostgreSQL's libpq constants
    assert_eq!(ExecStatusType::PGRES_EMPTY_QUERY as i32, 0);
    assert_eq!(ExecStatusType::PGRES_COMMAND_OK as i32, 1);
    assert_eq!(ExecStatusType::PGRES_TUPLES_OK as i32, 2);
    assert_eq!(ExecStatusType::PGRES_FATAL_ERROR as i32, 7);
    assert_eq!(ExecStatusType::PGRES_SINGLE_TUPLE as i32, 9);
}

#[test]
fn test_cdb_result_iterator_empty() {
    let results = CdbPgResults::new();
    let mut iter = results.iter_results();

    // Empty results should immediately return None
    assert!(iter.next().is_none());
}

#[test]
fn test_cdb_pg_results_safe_methods() {
    let mut results = CdbPgResults::new();

    // Test basic accessors
    assert_eq!(results.num_results(), 0);
    assert_eq!(results.num_dispatches(), 0);
    assert!(!results.has_results());

    // Test with some values
    results.num_results = 3;
    results.num_dispatches = 2;
    assert_eq!(results.num_results(), 3);
    assert_eq!(results.num_dispatches(), 2);
    assert!(!results.has_results()); // Still false because there is no array

    // Test get_pg_result without an array
    assert!(results.get_pg_result(0).is_none());
    assert!(results.get_pg_result(1).is_none());
}

#[test]
fn test_extract_int64_sum_empty_results() {
    let results = CdbPgResults::new();

    // Empty results iterator should be empty, so sum should be 0
    let mut total = 0i64;
    let mut iter = results.iter_results();
    while let Some(result_wrapper) = iter.next() {
        // This loop shouldn't execute for empty results
        if let Ok(_pg_result) = result_wrapper {
            total += 1; // This shouldn't happen
        }
    }
    assert_eq!(total, 0);
}

#[test]
fn test_cdb_result_iterator_bounds() {
    let mut results = CdbPgResults::new();
    results.num_results = 2;

    let mut iter = results.iter_results();

    // Should try to get first result but fail because there is no array
    let first = iter.next();
    assert!(first.is_some());
    if let Some(Err(DispatchError::PostgreSQLError(msg))) = first {
        assert!(msg.contains("Failed to get pg_result"));
    }

    // Should try to get second result
    let second = iter.next();
    assert!(second.is_some());

    // Should be exhausted
    let third = iter.next();
    assert!(third.is_none());
}

#[test]
fn status_values_of_libpq() {
    assert_eq!(ExecStatusType::PGRES_COPY_OUT, 3);
    assert_eq!(ExecStatusType::PGRES_COPY_IN, 4);
    assert_eq!(ExecStatusType::PGRES_BAD_RESPONSE, 5);
    assert_eq!(ExecStatusType::PGRES_NONFATAL_ERROR, 6);
    assert_eq!(ExecStatusType::PGRES_COPY_BOTH, 8);
    assert_eq!(ExecStatusType::PGRES_PIPELINE_SYNC, 10);
    assert_eq!(ExecStatusType::PGRES_PIPELINE_ABORTED, 11);
}

#[test]
fn results_are_there_only_with_a_count_and_an_array() {
    let mut results = CdbPgResults::new();
    results.pg_results = Some(vec![]);
    assert!(!results.has_results());
    results.num_results = -1;
    assert!(!results.has_results());
}

#[test]
fn the_array_must_cover_the_count() {
    let mut results = CdbPgResults::new();
    results.num_results = 2;
    assert!(results.is_valid());
    results.pg_results = Some(vec![None]);
    assert!(!results.is_valid());
    results.num_results = 1;
    assert!(results.is_valid());
    results.num_results = -1;
    assert!(!results.is_valid());
}

#[test]
fn get_pg_result_reads_the_counted_results() {
    let mut results = collected(vec![Some(single(bytes("1"))), None, Some(single(bytes("3")))]);
    results.num_results = 2;
    let first = results.get_pg_result(0).unwrap().unwrap();
    assert_eq!(first.status(), TUPLES_OK);
    assert_eq!((first.ntuples(), first.nfields()), (1, 1));
    assert!(results.get_pg_result(1).unwrap().is_none());
    // The third result is in the array but is not counted
    assert!(results.get_pg_result(2).is_none());
    assert!(results.get_pg_result(usize::MAX).is_none());
}

#[test]
fn iteration_yields_the_results_in_order() {
    let results = answers(vec![bytes("1"), bytes("2"), bytes("3")]);
    let mut iter = results.iter_results();
    for expected in ["1", "2", "3"] {
        let pg_result = iter.next().unwrap().unwrap();
        let text = CdbPgResults::get_field_value(pg_result, 0, 0).unwrap();
        assert_eq!(text.as_deref(), Some(expected));
    }
    assert!(iter.next().is_none());
    assert!(iter.next().is_none());
}

#[test]
fn negative_count_without_an_array_is_an_error() {
    let mut results = CdbPgResults::new();
    results.num_results = -1;
    assert!(results.get_pg_result(0).is_none());
    assert_eq!(
        postgres_message(results.iter_results().next().unwrap()),
        "Failed to get pg_result at index"
    );
    assert_eq!(sum_message(results), "Failed to get pg_result at index");
}

#[test]
fn sum_of_no_results_is_zero() {
    let results = CdbPgResults::new();
    assert!(results.int64_sum_fits());
    assert_eq!(results.extract_int64_sum().unwrap(), 0);
    assert_eq!(collected(vec![]).extract_int64_sum().unwrap(), 0);
}

#[test]
fn sum_adds_the_values_of_all_segments() {
    let results = answers(vec![bytes("8192"), bytes("-92"), bytes("+007"), bytes("-0")]);
    assert!(results.int64_sum_fits());
    assert_eq!(results.extract_int64_sum().unwrap(), 8107);
}

#[test]
fn sum_does_not_depend_on_the_order_of_segments() {
    let there = answers(vec![bytes("1"), bytes("20"), bytes("-300")]);
    let back = answers(vec![bytes("-300"), bytes("20"), bytes("1")]);
    assert_eq!(there.extract_int64_sum().unwrap(), -279);
    assert_eq!(back.extract_int64_sum().unwrap(), -279);
}

#[test]
fn null_and_missing_values_add_nothing() {
    let results = answers(vec![bytes("5"), PgField::Null, PgField::NoValue, bytes("6")]);
    assert_eq!(results.extract_int64_sum().unwrap(), 11);
}

#[test]
fn sum_reaches_the_limits_of_int64() {
    let results = answers(vec![bytes("9223372036854775806"), bytes("1")]);
    assert!(results.int64_sum_fits());
    assert_eq!(results.extract_int64_sum().unwrap(), i64::MAX);
    let results = answers(vec![bytes("-9223372036854775807"), bytes("-1")]);
    assert!(results.int64_sum_fits());
    assert_eq!(results.extract_int64_sum().unwrap(), i64::MIN);
}

#[test]
fn overflow_of_a_running_total_is_noticed() {
    assert!(!answers(vec![bytes("9223372036854775807"), bytes("1")]).int64_sum_fits());
    assert!(!answers(vec![bytes("-9223372036854775808"), bytes("-1")]).int64_sum_fits());
    // The end would be in range, but the total on the way is not
    let results = answers(vec![bytes("9223372036854775807"), bytes("1"), bytes("-1")]);
    assert!(!results.int64_sum_fits());
    // An error before the overflow ends the sum
    let results = answers(vec![bytes("9223372036854775807"), bytes("x"), bytes("1")]);
    assert!(results.int64_sum_fits());
    assert!(results.extract_int64_sum().is_err());
}

#[test]
fn sum_stops_at_the_first_failing_segment() {
    let results = answers(vec![bytes("1"), bytes("two"), bytes("")]);
    assert_eq!(sum_message(results), "Invalid int64: invalid digit found in string");
}

#[test]
fn sum_rejects_another_status() {
    let results = collected(vec![Some(PgResult::new(ExecStatusType::PGRES_COMMAND_OK, 0, vec![]))]);
    assert_eq!(sum_message(results), "Unexpected result status: 1");
    let results = collected(vec![Some(PgResult::new(4294967295, 0, vec![]))]);
    assert_eq!(sum_message(results), "Unexpected result status: 4294967295");
}

#[test]
fn sum_takes_a_missing_result_for_a_fatal_error() {
    assert_eq!(sum_message(collected(vec![None])), "Unexpected result status: 7");
}

#[test]
fn sum_rejects_another_shape() {
    let no_rows = PgResult::new(TUPLES_OK, 1, vec![]);
    assert_eq!(
        sum_message(collected(vec![Some(no_rows)])),
        "Unexpected result shape: 0 rows, 1 cols (expected 1 row, 1 col)"
    );
    let rows = (0..12).map(|_| vec![bytes("1"), bytes("2")]).collect();
    let wide = PgResult::new(TUPLES_OK, 2, rows);
    assert_eq!(
        sum_message(collected(vec![Some(wide)])),
        "Unexpected result shape: 12 rows, 2 cols (expected 1 row, 1 col)"
    );
}

#[test]
fn sum_rejects_bytes_that_are_not_utf8() {
    let detail = std::str::from_utf8(&[0x31, 0xff]).unwrap_err().to_string();
    let results = answers(vec![PgField::Bytes(vec![0x31, 0xff])]);
    assert_eq!(sum_message(results), format!("Invalid UTF-8: {}", detail));
}

#[test]
fn sum_accepts_exactly_what_parses_as_int64() {
    for text in [
        "0", "-0", "+1", "00012", "9223372036854775807", "-9223372036854775808", "", "-", "+",
        "+-1", " 1", "1 ", "1_000", "1.0", "0x10", "9223372036854775808", "-9223372036854775809",
        "99999999999999999999x", "\u{0661}", "12\u{e9}",
    ] {
        let sum = answers(vec![bytes(text)]).extract_int64_sum();
        match text.parse::<i64>() {
            Ok(value) => assert_eq!(sum.unwrap(), value),
            Err(e) => assert_eq!(postgres_message(sum), format!("Invalid int64: {}", e)),
        }
    }
}

#[test]
fn dimensions_of_a_result() {
    let result = PgResult::new(TUPLES_OK, 3, vec![vec![bytes("a"), bytes("b"), PgField::Null]]);
    assert_eq!(CdbPgResults::get_result_dimensions(Some(&result)).unwrap(), (1, 3));
    let result = PgResult::new(TUPLES_OK, 0, vec![vec![], vec![]]);
    assert_eq!(CdbPgResults::get_result_dimensions(Some(&result)).unwrap(), (2, 0));
}

#[test]
fn dimensions_need_a_result_with_tuples() {
    assert_eq!(
        postgres_message(CdbPgResults::get_result_dimensions(None)),
        "Null pg_result pointer"
    );
    let result = PgResult::new(10, 0, vec![]);
    assert_eq!(
        postgres_message(CdbPgResults::get_result_dimensions(Some(&result))),
        "Result status is not PGRES_TUPLES_OK: 10"
    );
}

#[test]
fn field_values_are_read_by_row_and_column() {
    let result = PgResult::new(
        TUPLES_OK,
        2,
        vec![vec![bytes("a"), PgField::Null], vec![PgField::NoValue, bytes("gr\u{fc}n")]],
    );
    let field = |row, col| CdbPgResults::get_field_value(Some(&result), row, col).unwrap();
    assert_eq!(field(0, 0).as_deref(), Some("a"));
    assert_eq!(field(0, 1), None);
    assert_eq!(field(1, 0), None);
    assert_eq!(field(1, 1).as_deref(), Some("gr\u{fc}n"));
    // Outside the table
    assert_eq!(field(2, 0), None);
    assert_eq!(field(0, 2), None);
    assert_eq!(field(-1, 0), None);
    assert_eq!(field(0, -1), None);
}

#[test]
fn field_values_are_read_whatever_the_status() {
    let result = PgResult::new(ExecStatusType::PGRES_SINGLE_TUPLE, 1, vec![vec![bytes("x")]]);
    let value = CdbPgResults::get_field_value(Some(&result), 0, 0).unwrap();
    assert_eq!(value.as_deref(), Some("x"));
}

#[test]
fn field_values_need_a_result_and_utf8() {
    assert_eq!(
        postgres_message(CdbPgResults::get_field_value(None, 0, 0)),
        "Null pg_result pointer"
    );
    let raw = vec![0xe2, 0x82];
    let detail = std::str::from_utf8(&raw).unwrap_err().to_string();
    let result = single(PgField::Bytes(raw));
    assert_eq!(
        postgres_message(CdbPgResults::get_field_value(Some(&result), 0, 0)),
        format!("Invalid UTF-8: {}", detail)
    );
}

#[test]
fn single_values_are_parsed() {
    let result = single(bytes("42"));
    let value = CdbPgResults::extract_single_value(Some(&result), "u8", parse_as::<u8>);
    assert_eq!(value.unwrap(), 42);
    let result = single(bytes("true"));
    let value = CdbPgResults::extract_single_value(Some(&result), "bool", parse_as::<bool>);
    assert!(value.unwrap());
    let result = single(bytes("2.5"));
    let value = CdbPgResults::extract_single_value(Some(&result), "f64", parse_as::<f64>);
    assert_eq!(value.unwrap(), 2.5);
}

#[test]
fn single_values_that_do_not_parse_are_reported() {
    let result = single(bytes("300"));
    let value = CdbPgResults::extract_single_value(Some(&result), "u8", parse_as::<u8>);
    assert_eq!(
        postgres_message(value),
        format!("Failed to parse '300' as u8: {}", "300".parse::<u8>().unwrap_err())
    );
}

#[test]
fn single_values_need_one_row_and_one_column() {
    let extract = |result: Option<&PgResult>| {
        postgres_message(CdbPgResults::extract_single_value(result, "i64", parse_as::<i64>))
    };
    assert_eq!(extract(None), "Null pg_result pointer");
    assert_eq!(
        extract(Some(&PgResult::new(ExecStatusType::PGRES_EMPTY_QUERY, 0, vec![]))),
        "Result status is not PGRES_TUPLES_OK: 0"
    );
    assert_eq!(
        extract(Some(&PgResult::new(TUPLES_OK, 1, vec![]))),
        "Expected exactly 1 row and 1 column, got 0 rows and 1 columns"
    );
    assert_eq!(
        extract(Some(&PgResult::new(TUPLES_OK, 2, vec![vec![bytes("1"), bytes("2")]]))),
        "Expected exactly 1 row and 1 column, got 1 rows and 2 columns"
    );
    assert_eq!(extract(Some(&single(PgField::Null))), "Field value is NULL");
    assert_eq!(extract(Some(&single(PgField::NoValue))), "Field value is NULL");
}

#[test]
fn single_value_and_sum_agree() {
    let result = single(bytes("-17"));
    let value = CdbPgResults::extract_single_value(Some(&result), "i64", parse_as::<i64>);
    assert_eq!(value.unwrap(), -17);
    assert_eq!(answers(vec![bytes("-17")]).extract_int64_sum().unwrap(), -17);
    // A NULL is an error as a single value but adds nothing to a sum
    let null = single(PgField::Null);
    assert!(CdbPgResults::extract_single_text(Some(&null)).is_err());
    assert_eq!(answers(vec![PgField::Null]).extract_int64_sum().unwrap(), 0);
}

#[test]
fn outcomes_of_decoding_and_parsing() {
    assert_eq!(text_or_error(Ok("abc".to_string())).unwrap(), "abc");
    assert_eq!(
        postgres_message(text_or_error(Err("bad byte".to_string()))),
        "Invalid UTF-8: bad byte"
    );
    assert_eq!(int64_or_error(Ok(-5)).unwrap(), -5);
    assert_eq!(
        postgres_message(int64_or_error(Err("no digit".to_string()))),
        "Invalid int64: no digit"
    );
    assert_eq!(value_or_error("1", "u8", Ok(1u8)).unwrap(), 1);
    assert_eq!(
        postgres_message(value_or_error::<u8>("x", "u8", Err("no digit".to_string()))),
        "Failed to parse 'x' as u8: no digit"
    );
}

#[test]
fn managed_results_give_access_to_the_inner_results() {
    let mut managed = ManagedCdbPgResults::new(answers(vec![bytes("1"), bytes("2")]));
    assert_eq!(managed.inner().num_results(), 2);
    assert_eq!(managed.num_results(), 2);
    assert_eq!(managed.extract_int64_sum().unwrap(), 3);

    managed.inner_mut().num_results = 1;
    assert_eq!(managed.extract_int64_sum().unwrap(), 1);
    managed.num_dispatches = 9;
    assert_eq!(managed.inner().num_dispatches(), 9);
}
