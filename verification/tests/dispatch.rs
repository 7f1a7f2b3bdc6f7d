use cdb::c_string::c_string;
use cdb::text::{append_i32, append_u64};
use cdb::{
    cdb_dispatch_command, cdb_dispatch_commands, dispatch_if_coordinator, dispatched, get_gp_role,
    get_int64_sum_from_segments, is_coordinator, BatchStep, CdbPgResults, DispatchError,
    DispatchFlags, ExecStatusType, ManagedCdbPgResults, PgField, PgResult,
};

/// The answer of one segment with one field.
fn answer(text: &str) -> CdbPgResults {
    let row = vec![PgField::Bytes(text.as_bytes().to_vec())];
    let mut results = CdbPgResults::new();
    results.pg_results =
        Some(vec![Some(PgResult::new(ExecStatusType::PGRES_TUPLES_OK, 1, vec![row]))]);
    results.num_results = 1;
    results.num_dispatches = 1;
    results
}

/// Runs a batch against segments that answer with the number of the request, or with an
/// error from the request on that `failing` counts, and returns what was sent and what came
/// back.
fn run_batch(
    commands: &[&str],
    flags: DispatchFlags,
    failing: Option<usize>,
) -> (Vec<(Vec<u8>, i32)>, Result<Vec<ManagedCdbPgResults>, DispatchError>) {
    let mut sent = Vec::new();
    let mut remaining = commands.iter().copied();
    let mut batch = cdb_dispatch_commands(flags);
    loop {
        match batch.next(remaining.next()) {
            BatchStep::Send(pending) => {
                let request = pending.request();
                sent.push((request.command().clone(), request.flags()));
                let reply = if failing.map_or(false, |failing| sent.len() >= failing) {
                    Err(DispatchError::PostgreSQLError(format!("request {} failed", sent.len())))
                } else {
                    Ok(answer(&sent.len().to_string()))
                };
                match pending.answered(reply) {
                    Ok(next) => batch = next,
                    Err(e) => return (sent, Err(e)),
                }
            }
            BatchStep::Return(result) => return (sent, result),
        }
    }
}

#[test]
fn test_dispatch_error_from_nul_error() {
    let nul_error = c_string("test\0string").unwrap_err();
    let dispatch_error = DispatchError::from(nul_error);

    match dispatch_error {
        DispatchError::NullByteInString(_) => (),
        _ => panic!("Expected NullByteInString variant"),
    }
}

#[test]
fn test_dispatch_error_display() {
    let nul_error = c_string("test\0string").unwrap_err();
    let dispatch_error = DispatchError::NullByteInString(nul_error);
    let display_str = dispatch_error.to_string();
    assert!(display_str.contains("Command string contains null byte"));

    let pg_error = DispatchError::PostgreSQLError("Connection failed".to_string());
    let display_str = pg_error.to_string();
    assert!(display_str.contains("PostgreSQL error during dispatch"));
    assert!(display_str.contains("Connection failed"));
}

#[test]
fn test_dispatch_error_source() {
    let nul_error = c_string("test\0string").unwrap_err();
    let dispatch_error = DispatchError::NullByteInString(nul_error);
    assert!(dispatch_error.source().is_some());

    let pg_error = DispatchError::PostgreSQLError("Some error".to_string());
    assert!(pg_error.source().is_none());
}

#[test]
fn errors_read_as_texts() {
    let nul_error = c_string("test\0string").unwrap_err();
    assert_eq!(nul_error.to_string(), "nul byte found in provided data at position: 4");
    assert_eq!(
        DispatchError::from(nul_error).to_string(),
        "Command string contains null byte: nul byte found in provided data at position: 4"
    );
    assert_eq!(
        DispatchError::PostgreSQLError(String::new()).to_string(),
        "PostgreSQL error during dispatch: "
    );
}

#[test]
fn nul_error_keeps_the_text_and_the_first_position() {
    let nul_error = c_string("\u{e9}\0b\0").unwrap_err();
    assert_eq!(nul_error.nul_position(), 2);
    assert_eq!(nul_error.into_vec(), vec![0xc3, 0xa9, 0, b'b', 0]);
    assert_eq!(c_string("\0").unwrap_err().nul_position(), 0);
}

#[test]
fn c_strings_end_with_their_only_zero_byte() {
    assert_eq!(c_string("").unwrap(), vec![0]);
    assert_eq!(c_string("a\u{e9}").unwrap(), vec![b'a', 0xc3, 0xa9, 0]);
}

#[test]
fn requests_carry_command_and_flags() {
    let flags = DispatchFlags::WITH_SNAPSHOT() | DispatchFlags::CANCEL_ON_ERROR();
    let request = cdb_dispatch_command("SELECT version()", flags).unwrap();
    assert_eq!(request.command().as_slice(), b"SELECT version()\0");
    assert_eq!(request.flags(), 5);
}

#[test]
fn commands_with_a_null_byte_are_not_sent() {
    match cdb_dispatch_command("SELECT '\0'", DispatchFlags::NONE()) {
        Err(DispatchError::NullByteInString(e)) => {
            assert_eq!(e.nul_position(), 8);
            assert_eq!(e.into_vec(), b"SELECT '\0'".to_vec());
        }
        _ => panic!("Expected NullByteInString variant"),
    }
}

#[test]
fn batch_sends_every_command_in_order() {
    let (sent, result) = run_batch(
        &["VACUUM my_table", "ANALYZE my_table", "REINDEX TABLE my_table"],
        DispatchFlags::WITH_SNAPSHOT(),
        None,
    );
    assert_eq!(
        sent,
        vec![
            (b"VACUUM my_table\0".to_vec(), 4),
            (b"ANALYZE my_table\0".to_vec(), 4),
            (b"REINDEX TABLE my_table\0".to_vec(), 4),
        ]
    );
    let sums: Vec<i64> =
        result.unwrap().iter().map(|results| results.extract_int64_sum().unwrap()).collect();
    assert_eq!(sums, vec![1, 2, 3]);
}

#[test]
fn batch_without_commands_returns_no_results() {
    let (sent, result) = run_batch(&[], DispatchFlags::NONE(), None);
    assert!(sent.is_empty());
    assert!(result.unwrap().is_empty());
}

#[test]
fn batch_stops_at_the_first_command_that_cannot_be_sent() {
    let (sent, result) = run_batch(&["a", "b", "c\0", "d", "\0"], DispatchFlags::NONE(), None);
    assert_eq!(sent, vec![(b"a\0".to_vec(), 0), (b"b\0".to_vec(), 0)]);
    match result {
        Err(DispatchError::NullByteInString(e)) => assert_eq!(e.nul_position(), 1),
        _ => panic!("Expected NullByteInString variant"),
    }
}

#[test]
fn batch_stops_at_the_first_dispatch_that_fails() {
    let (sent, result) = run_batch(&["a", "b", "c", "\0"], DispatchFlags::NONE(), Some(2));
    assert_eq!(sent, vec![(b"a\0".to_vec(), 0), (b"b\0".to_vec(), 0)]);
    match result {
        Err(DispatchError::PostgreSQLError(msg)) => assert_eq!(msg, "request 2 failed"),
        _ => panic!("Expected PostgreSQLError variant"),
    }
}

#[test]
fn dispatch_concludes_with_the_answer() {
    let results = dispatched(Ok(answer("12"))).unwrap();
    assert_eq!(results.num_results(), 1);
    assert_eq!(results.extract_int64_sum().unwrap(), 12);

    match dispatched(Err(DispatchError::PostgreSQLError("segment failed".to_string()))) {
        Err(DispatchError::PostgreSQLError(msg)) => assert_eq!(msg, "segment failed"),
        _ => panic!("Expected PostgreSQLError variant"),
    }
}

#[test]
fn sum_from_segments_of_a_dispatched_command() {
    let dispatched = Ok(ManagedCdbPgResults::new(answer("1234")));
    assert_eq!(get_int64_sum_from_segments(dispatched).unwrap(), 1234);

    let dispatched = Ok(ManagedCdbPgResults::new(answer("many")));
    match get_int64_sum_from_segments(dispatched) {
        Err(DispatchError::PostgreSQLError(msg)) => {
            assert_eq!(msg, "Invalid int64: invalid digit found in string")
        }
        _ => panic!("Expected PostgreSQLError variant"),
    }
}

#[test]
fn sum_from_segments_hands_on_a_failed_dispatch() {
    let failed = Err(DispatchError::PostgreSQLError("gone".to_string()));
    match get_int64_sum_from_segments(failed) {
        Err(DispatchError::PostgreSQLError(msg)) => assert_eq!(msg, "gone"),
        _ => panic!("Expected PostgreSQLError variant"),
    }
}

#[test]
fn role_is_read_from_the_setting() {
    assert_eq!(get_gp_role(None), None);
    assert_eq!(get_gp_role(Some(b"utility")).as_deref(), Some("utility"));
    assert_eq!(get_gp_role(Some(b"")).as_deref(), Some(""));
    assert_eq!(get_gp_role(Some(b"a\xffb")).as_deref(), Some("a\u{fffd}b"));
}

#[test]
fn only_the_dispatch_role_coordinates() {
    assert!(is_coordinator(&get_gp_role(Some(b"dispatch"))));
    assert!(!is_coordinator(&get_gp_role(Some(b"execute"))));
    assert!(!is_coordinator(&get_gp_role(Some(b"Dispatch"))));
    assert!(!is_coordinator(&get_gp_role(Some(b"dispatch\xff"))));
    assert!(!is_coordinator(&get_gp_role(None)));
}

#[test]
fn only_a_coordinator_dispatches() {
    let coordinator = Some("dispatch".to_string());
    let segment = Some("execute".to_string());
    let flags = DispatchFlags::NEED_TWO_PHASE();

    let request = dispatch_if_coordinator(&coordinator, "SELECT 1", flags).unwrap().unwrap();
    assert_eq!(request.command().as_slice(), b"SELECT 1\0");
    assert_eq!(request.flags(), 2);
    assert!(dispatch_if_coordinator(&coordinator, "\0", flags).unwrap().is_err());
    assert!(dispatch_if_coordinator(&segment, "SELECT 1", flags).is_none());
    assert!(dispatch_if_coordinator(&segment, "\0", flags).is_none());
    assert!(dispatch_if_coordinator(&None, "SELECT 1", flags).is_none());
}

#[test]
fn numbers_are_written_in_decimal() {
    for n in [0, 7, 10, 99, 100, 12345, u64::MAX] {
        let mut out = "n=".to_string();
        append_u64(&mut out, n);
        assert_eq!(out, format!("n={}", n));
    }
    for n in [0, 42, -1, -10, i32::MAX, i32::MIN] {
        let mut out = String::new();
        append_i32(&mut out, n);
        assert_eq!(out, n.to_string());
        assert_eq!(out.parse::<i32>().unwrap(), n);
    }
}
