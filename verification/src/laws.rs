//! What the operations do, said of calls: each law takes what a call was given and what it
//! returned, and relates the two to each other or to other calls.

use vstd::prelude::*;
use vstd::utf8::{encode_utf8, valid_utf8};

use crate::c_string::{c_string, law_nul_byte_is_nul_character, NulError};
use crate::dispatch::{
    cdb_dispatch_command, cdb_dispatch_commands, dispatch_if_coordinator, dispatched, get_gp_role,
    get_int64_sum_from_segments, is_coordinator, BatchStep, DispatchBatch, DispatchRequest,
    PendingDispatch,
};
use crate::error::{outcome, DispatchError};
use crate::flags::DispatchFlags;
use crate::managed::ManagedCdbPgResults;
use crate::pg_result::{result_status, PgField, PgResult};
use crate::results::{
    int64_or_error, lemma_total_or_failure, text_or_error, value_or_error, CdbPgResults,
    CdbResultIterator, ResultsView,
};
use crate::text::{decimal, int64_error_text, signed_value, utf8_error_text};

verus! {

// Flags

/// A bit is set in a union exactly if it is set in one of the operands.
pub proof fn law_union_bit_by_bit(
    a: DispatchFlags,
    b: DispatchFlags,
    both: DispatchFlags,
    or: DispatchFlags,
    bit: u32,
)
    requires
        bit < 32,
        call_ensures(DispatchFlags::union, (a, b), both),
        call_ensures(<DispatchFlags as core::ops::BitOr>::bitor, (a, b), or),
    ensures
        (both.0 >> bit) & 1 == 1 <==> (a.0 >> bit) & 1 == 1 || (b.0 >> bit) & 1 == 1,
        or == both,
{
    let (x, y) = (a.0, b.0);
    assert(((x | y) >> bit) & 1 == 1 <==> (x >> bit) & 1 == 1 || (y >> bit) & 1 == 1)
        by (bit_vector)
        requires
            bit < 32,
    ;
}

/// Flags contain a flag exactly if adding the flag changes nothing.
pub proof fn law_contains_if_union_adds_nothing(
    a: DispatchFlags,
    flag: DispatchFlags,
    set: bool,
    both: DispatchFlags,
)
    requires
        call_ensures(DispatchFlags::contains, (a, flag), set),
        call_ensures(DispatchFlags::union, (a, flag), both),
    ensures
        set <==> both == a,
{
    let (x, y) = (a.0, flag.0);
    assert(x & y == y <==> x | y == x) by (bit_vector);
}

/// Flags made of a value have that value, and only flags with equal values are equal.
pub proof fn law_flags_keep_their_value(
    value: i32,
    flags: DispatchFlags,
    back: i32,
    from: DispatchFlags,
    into: i32,
    other: DispatchFlags,
    other_value: i32,
)
    requires
        call_ensures(DispatchFlags::new, (value,), flags),
        call_ensures(DispatchFlags::value, (flags,), back),
        call_ensures(<DispatchFlags as From<i32>>::from, (value,), from),
        call_ensures(<i32 as From<DispatchFlags>>::from, (flags,), into),
        call_ensures(DispatchFlags::value, (other,), other_value),
    ensures
        flags.0 == value,
        back == value,
        from == flags,
        into == value,
        other_value == value <==> other == flags,
{
}

/// The flags that have a name are single bits, and no flags are no bits.
pub proof fn law_values_of_named_flags(
    none: DispatchFlags,
    cancel_on_error: DispatchFlags,
    need_two_phase: DispatchFlags,
    with_snapshot: DispatchFlags,
)
    requires
        call_ensures(DispatchFlags::NONE, (), none),
        call_ensures(DispatchFlags::CANCEL_ON_ERROR, (), cancel_on_error),
        call_ensures(DispatchFlags::NEED_TWO_PHASE, (), need_two_phase),
        call_ensures(DispatchFlags::WITH_SNAPSHOT, (), with_snapshot),
    ensures
        none.0 == 0,
        cancel_on_error.0 == 1,
        need_two_phase.0 == 2,
        with_snapshot.0 == 4,
{
}

// Results of one segment

/// A result gives back what it was made of: its status, the numbers of its rows and columns,
/// and at each place of the table the field of that row and that column.
pub proof fn law_result_gives_back_its_table(
    status: u32,
    nfields: i32,
    rows: Vec<Vec<PgField>>,
    result: PgResult,
    status_read: u32,
    ntuples_read: i32,
    nfields_read: i32,
    row: i32,
    col: i32,
    field: &PgField,
)
    requires
        call_ensures(PgResult::new, (status, nfields, rows), result),
        call_ensures(PgResult::status, (&result,), status_read),
        call_ensures(PgResult::ntuples, (&result,), ntuples_read),
        call_ensures(PgResult::nfields, (&result,), nfields_read),
        call_ensures(PgResult::field, (&result, row, col), field),
        0 <= nfields,
        forall|i: int| 0 <= i < rows@.len() ==> (#[trigger] rows@[i])@.len() == nfields,
    ensures
        status_read == status,
        ntuples_read == rows@.len(),
        nfields_read == nfields,
        0 <= row < rows@.len() && 0 <= col < nfields ==> match rows@[row as int]@[col as int] {
            PgField::Bytes(bytes) => field matches PgField::Bytes(read) && read@ == bytes@,
            PgField::Null => field is Null,
            PgField::NoValue => field is NoValue,
        },
        !(0 <= row < rows@.len() && 0 <= col < nfields) ==> field is Null,
{
}

/// The status of a result is its own, and that of a missing result is a fatal error.
pub proof fn law_status_of_a_result(result: PgResult, own: u32, read: u32, missing: u32)
    requires
        call_ensures(PgResult::status, (&result,), own),
        call_ensures(result_status, (Some(&result),), read),
        call_ensures(result_status, (None,), missing),
    ensures
        read == own,
        missing == 7,
{
}

/// The dimensions of a result with tuples are the numbers of the rows and the columns that it
/// was made of; of another or a missing result they are refused.
pub proof fn law_dimensions_count_rows_and_columns(
    status: u32,
    nfields: i32,
    rows: Vec<Vec<PgField>>,
    result: PgResult,
    dims: Result<(i32, i32), DispatchError>,
    missing: Result<(i32, i32), DispatchError>,
)
    requires
        call_ensures(PgResult::new, (status, nfields, rows), result),
        call_ensures(CdbPgResults::get_result_dimensions, (Some(&result),), dims),
        call_ensures(CdbPgResults::get_result_dimensions, (None,), missing),
    ensures
        status == 2 ==> (dims matches Ok((ntuples_read, nfields_read)) && ntuples_read == rows@.len()
            && nfields_read == nfields),
        status != 2 ==> (dims matches Err(DispatchError::PostgreSQLError(msg)) && msg@
            == "Result status is not PGRES_TUPLES_OK: "@ + decimal(status as int)),
        missing matches Err(DispatchError::PostgreSQLError(msg)) && msg@ == "Null pg_result pointer"@,
{
}

/// Reading a field gives back the text that was put at that row and that column: none if the
/// field is NULL or has no value or lies outside the table, an error if its bytes are not
/// UTF-8.
pub proof fn law_field_value_gives_back_text(
    status: u32,
    nfields: i32,
    rows: Vec<Vec<PgField>>,
    result: PgResult,
    row: i32,
    col: i32,
    text: Seq<char>,
    value: Result<Option<String>, DispatchError>,
    missing: Result<Option<String>, DispatchError>,
)
    requires
        call_ensures(PgResult::new, (status, nfields, rows), result),
        call_ensures(CdbPgResults::get_field_value, (Some(&result), row, col), value),
        call_ensures(CdbPgResults::get_field_value, (None, row, col), missing),
        0 <= nfields,
        forall|i: int| 0 <= i < rows@.len() ==> (#[trigger] rows@[i])@.len() == nfields,
    ensures
        0 <= row < rows@.len() && 0 <= col < nfields ==> match rows@[row as int]@[col as int] {
            PgField::Bytes(bytes) => {
                &&& bytes@ == encode_utf8(text) ==> (value matches Ok(Some(read)) && read@ == text)
                &&& value matches Ok(read) ==> (read matches Some(read) && bytes@ == encode_utf8(read@))
                &&& value matches Err(e) ==> {
                    &&& e matches DispatchError::PostgreSQLError(msg)
                    &&& msg@ == "Invalid UTF-8: "@ + utf8_error_text(bytes@)
                    &&& bytes@ != encode_utf8(text)
                }
            },
            _ => value matches Ok(None),
        },
        !(0 <= row < rows@.len() && 0 <= col < nfields) ==> (value matches Ok(None)),
        missing matches Err(DispatchError::PostgreSQLError(msg)) && msg@ == "Null pg_result pointer"@,
{
    vstd::utf8::encode_utf8_valid_utf8(text);
    vstd::utf8::encode_utf8_decode_utf8(text);
    if 0 <= row < rows@.len() && 0 <= col < nfields {
        if let PgField::Bytes(bytes) = rows@[row as int]@[col as int] {
            assert(result@.field(row as int, col as int) == rows@[row as int]@[col as int]@);
            if valid_utf8(bytes@) {
                vstd::utf8::decode_utf8_encode_utf8(bytes@);
            }
        }
    }
}

/// A value that was read from the only field is what the parse of that field's text returned,
/// whatever the text is; a parse that failed is reported with its reason; and a result that is
/// not one row with one such field is refused without a parse.
pub proof fn law_single_value_is_what_the_parse_returns<T, F: Fn(&str) -> Result<T, String>>(
    nfields: i32,
    rows: Vec<Vec<PgField>>,
    result: PgResult,
    target: &str,
    parse: F,
    text: Seq<char>,
    value: Result<T, DispatchError>,
)
    requires
        call_ensures(PgResult::new, (2, nfields, rows), result),
        call_ensures(
            CdbPgResults::extract_single_value::<T, F>,
            (Some(&result), target, parse),
            value,
        ),
        0 <= nfields,
        forall|i: int| 0 <= i < rows@.len() ==> (#[trigger] rows@[i])@.len() == nfields,
    ensures
        rows@.len() == 1 && nfields == 1 ==> match rows@[0]@[0] {
            PgField::Bytes(bytes) => bytes@ == encode_utf8(text) ==> exists|
                s: &str,
                parsed: Result<T, String>,
            |
                #![trigger call_ensures(parse, (s,), parsed)]
                {
                    &&& s@ == text
                    &&& call_ensures(parse, (s,), parsed)
                    &&& parsed matches Ok(v) ==> value == Ok::<T, DispatchError>(v)
                    &&& parsed matches Err(detail) ==> (value matches Err(
                        DispatchError::PostgreSQLError(msg),
                    ) && msg@ == "Failed to parse '"@ + text + "' as "@ + target@ + ": "@ + detail@)
                },
            _ => value matches Err(DispatchError::PostgreSQLError(msg)) && msg@
                == "Field value is NULL"@,
        },
        !(rows@.len() == 1 && nfields == 1) ==> (value matches Err(
            DispatchError::PostgreSQLError(msg),
        ) && msg@ == "Expected exactly 1 row and 1 column, got "@ + decimal(rows@.len() as int)
            + " rows and "@ + decimal(nfields as int) + " columns"@),
{
    vstd::utf8::encode_utf8_valid_utf8(text);
    vstd::utf8::encode_utf8_decode_utf8(text);
    if rows@.len() == 1 && nfields == 1 {
        assert(result@.field(0, 0) == rows@[0]@[0]@);
    }
}

/// If a parse succeeds on the text of the only field, whatever the text is, that is the value;
/// and there is no value unless a parse returned it.
pub proof fn law_single_value_follows_the_parse<T, F: Fn(&str) -> Result<T, String>>(
    rows: Vec<Vec<PgField>>,
    result: PgResult,
    target: &str,
    parse: F,
    text: Seq<char>,
    expected: T,
    value: Result<T, DispatchError>,
)
    requires
        call_ensures(PgResult::new, (2, 1, rows), result),
        call_ensures(
            CdbPgResults::extract_single_value::<T, F>,
            (Some(&result), target, parse),
            value,
        ),
        rows@.len() == 1,
        rows@[0]@.len() == 1,
        rows@[0]@[0] matches PgField::Bytes(bytes) && bytes@ == encode_utf8(text),
    ensures
        (forall|s: &str, parsed: Result<T, String>|
            s@ == text && #[trigger] call_ensures(parse, (s,), parsed) ==> parsed == Ok::<T, String>(
                expected,
            )) ==> value == Ok::<T, DispatchError>(expected),
        (forall|s: &str, parsed: Result<T, String>|
            s@ == text && #[trigger] call_ensures(parse, (s,), parsed) ==> parsed is Err)
            ==> value is Err,
{
    law_single_value_is_what_the_parse_returns(1, rows, result, target, parse, text, value);
}

/// A value is read from the text of the only field, and if there is no such text the value is
/// refused for the same reason.
pub proof fn law_single_value_needs_the_single_text<T, F: Fn(&str) -> Result<T, String>>(
    result: Option<&PgResult>,
    target: &str,
    parse: F,
    text: Result<String, DispatchError>,
    value: Result<T, DispatchError>,
)
    requires
        call_ensures(CdbPgResults::extract_single_text, (result,), text),
        call_ensures(CdbPgResults::extract_single_value::<T, F>, (result, target, parse), value),
    ensures
        text matches Err(e) ==> (value matches Err(refused) && refused@ == e@),
        text matches Ok(read) ==> exists|s: &str, parsed: Result<T, String>|
            #![trigger call_ensures(parse, (s,), parsed)]
            {
                &&& s@ == read@
                &&& call_ensures(parse, (s,), parsed)
                &&& parsed matches Ok(v) ==> value == Ok::<T, DispatchError>(v)
                &&& parsed is Err ==> value is Err
            },
{
}

/// The text of the only field is the field's text.
pub proof fn law_single_text_is_the_field(
    result: Option<&PgResult>,
    text: Result<String, DispatchError>,
    field: Result<Option<String>, DispatchError>,
    dims: Result<(i32, i32), DispatchError>,
)
    requires
        call_ensures(CdbPgResults::extract_single_text, (result,), text),
        call_ensures(CdbPgResults::get_field_value, (result, 0, 0), field),
        call_ensures(CdbPgResults::get_result_dimensions, (result,), dims),
    ensures
        text is Ok <==> (dims matches Ok((1, 1))) && (field matches Ok(Some(_))),
        text matches Ok(read) ==> (field matches Ok(Some(there)) && read@ == there@),
        dims matches Err(e) ==> (text matches Err(refused) && refused@ == e@),
        dims matches Ok((1, 1)) ==> (field matches Err(e) ==> (text matches Err(refused) && refused@
            == e@)),
{
}

/// What was decoded or parsed is handed on unchanged, whatever it is, and a failure is
/// reported with its reason.
pub proof fn law_outcomes_are_handed_on<T>(
    decoded: Result<String, String>,
    text: Result<String, DispatchError>,
    number: Result<i64, String>,
    int64: Result<i64, DispatchError>,
    of: &str,
    target: &str,
    parsed: Result<T, String>,
    value: Result<T, DispatchError>,
)
    requires
        call_ensures(text_or_error, (decoded,), text),
        call_ensures(int64_or_error, (number,), int64),
        call_ensures(value_or_error::<T>, (of, target, parsed), value),
    ensures
        decoded matches Ok(v) ==> text == Ok::<String, DispatchError>(v),
        decoded matches Err(detail) ==> (text matches Err(DispatchError::PostgreSQLError(msg)) && msg@
            == "Invalid UTF-8: "@ + detail@),
        number matches Ok(v) ==> int64 == Ok::<i64, DispatchError>(v),
        number matches Err(detail) ==> (int64 matches Err(DispatchError::PostgreSQLError(msg)) && msg@
            == "Invalid int64: "@ + detail@),
        parsed matches Ok(v) ==> value == Ok::<T, DispatchError>(v),
        parsed matches Err(detail) ==> (value matches Err(DispatchError::PostgreSQLError(msg)) && msg@
            == "Failed to parse '"@ + of@ + "' as "@ + target@ + ": "@ + detail@),
{
}

// Results of all segments

/// New results are empty, and the getters read the counts that are there.
pub proof fn law_counts_are_read_as_they_are(
    fresh: CdbPgResults,
    default: CdbPgResults,
    results: CdbPgResults,
    num_results: i32,
    num_dispatches: i32,
    has: bool,
    valid: bool,
)
    requires
        call_ensures(CdbPgResults::new, (), fresh),
        call_ensures(<CdbPgResults as Default>::default, (), default),
        call_ensures(CdbPgResults::num_results, (&results,), num_results),
        call_ensures(CdbPgResults::num_dispatches, (&results,), num_dispatches),
        call_ensures(CdbPgResults::has_results, (&results,), has),
        call_ensures(CdbPgResults::is_valid, (&results,), valid),
    ensures
        fresh.pg_results is None && fresh.num_results == 0 && fresh.num_dispatches == 0,
        default == fresh,
        num_results == results.num_results,
        num_dispatches == results.num_dispatches,
        has <==> results.num_results > 0 && results.pg_results is Some,
        valid <==> (results.pg_results matches Some(array) ==> array@.len() >= if results.num_results
            >= 0 {
            results.num_results as int
        } else {
            usize::MAX + 1 + results.num_results
        }),
{
}

/// Every counted entry of the array can be read by its index, and it is the entry at that
/// index; no other index gives a result. A negative count covers the indices below the value
/// that it wraps around to.
pub proof fn law_every_counted_result_is_read(
    results: CdbPgResults,
    index: usize,
    pg_result: Option<Option<&PgResult>>,
)
    requires
        call_ensures(CdbPgResults::get_pg_result, (&results, index), pg_result),
        results.pg_results matches Some(array) ==> results.num_results <= array@.len(),
    ensures
        results.pg_results matches Some(array) ==> {
            &&& results.num_results >= 0 && index < results.num_results ==> match array@[index as int] {
                Some(result) => pg_result == Some(Some(&result)),
                None => pg_result == Some(None::<&PgResult>),
            }
            &&& results.num_results >= 0 && index >= results.num_results ==> pg_result is None
            &&& results.num_results < 0 ==> (pg_result is Some <==> index < usize::MAX + 1
                + results.num_results)
        },
        results.pg_results is None ==> pg_result is None,
{
}

/// An iteration begins at the first entry.
pub proof fn law_iteration_begins_at_the_first_entry<'a>(
    results: &'a CdbPgResults,
    iter: CdbResultIterator<'a>,
)
    requires
        call_ensures(CdbPgResults::iter_results, (results,), iter),
    ensures
        iter.results() == results,
        iter.position() == 0,
        results.num_results >= 0 ==> iter.remaining().len() == results.num_results,
{
}

/// Each step of an iteration yields the entry at its position and goes on to the next one,
/// until as many entries were yielded as are counted; then it yields nothing and stays there.
/// Without an array each counted item is an error.
pub proof fn law_iteration_goes_entry_by_entry<'a>(
    iter: &mut CdbResultIterator<'a>,
    item: Option<Result<Option<&'a PgResult>, DispatchError>>,
)
    requires
        call_ensures(CdbResultIterator::<'a>::next, (iter,), item),
        0 <= old(iter).position(),
        old(iter).results().pg_results matches Some(array) ==> 0 <= old(iter).results().num_results
            <= array@.len(),
    ensures
        final(iter).results() == old(iter).results(),
        old(iter).results().num_results >= 0 ==> (item is Some <==> old(iter).position()
            < old(iter).results().num_results),
        old(iter).results().num_results < 0 ==> (item is Some <==> old(iter).position() < usize::MAX
            + 1 + old(iter).results().num_results),
        item is Some ==> final(iter).position() == old(iter).position() + 1,
        item is None ==> final(iter).position() == old(iter).position(),
        item matches Some(item) ==> match old(iter).results().pg_results {
            Some(array) => match array@[old(iter).position()] {
                Some(result) => item == Ok::<_, DispatchError>(Some(&result)),
                None => item == Ok::<_, DispatchError>(None::<&PgResult>),
            },
            None => item matches Err(DispatchError::PostgreSQLError(msg)) && msg@
                == "Failed to get pg_result at index"@,
        },
{
}

/// The first `n` items of two sets of results agree.
spec fn agree(a: ResultsView, b: ResultsView, n: nat) -> bool {
    &&& n <= a.slot_count()
    &&& n <= b.slot_count()
    &&& forall|i: int| 0 <= i < n ==> #[trigger] a.item(i) == b.item(i)
    &&& a.array is Some
    &&& b.array is Some
}

proof fn lemma_totals_agree(a: ResultsView, b: ResultsView, n: nat)
    requires
        agree(a, b, n),
    ensures
        a.int64_total(n) == b.int64_total(n),
        forall|i: int| 0 <= i < n ==> #[trigger] a.int64_at(i) == b.int64_at(i) && a.error_at(i)
            == b.error_at(i),
    decreases n,
{
    if n > 0 {
        lemma_totals_agree(a, b, (n - 1) as nat);
        assert(a.item(n - 1) == b.item(n - 1));
    }
}

/// `more` are the results `fewer` and one more.
pub open spec fn one_more(fewer: CdbPgResults, more: CdbPgResults) -> bool {
    &&& fewer.num_results >= 0
    &&& more.num_results == fewer.num_results + 1
    &&& fewer.pg_results matches Some(xs) && more.pg_results matches Some(ys)
        && fewer.num_results <= xs@.len() && more.num_results <= ys@.len() && forall|i: int|
        0 <= i < fewer.num_results ==> #[trigger] xs@[i] == ys@[i]
}

proof fn lemma_one_more(
    fewer: CdbPgResults,
    more: CdbPgResults,
    sum: Result<i64, DispatchError>,
    sum_more: Result<i64, DispatchError>,
)
    requires
        one_more(fewer, more),
        fewer@.sums_to(outcome(sum)),
        more@.sums_to(outcome(sum_more)),
    ensures
        sum matches Err(e) ==> (sum_more matches Err(f) && f@ == e@),
        sum matches Ok(total) ==> match more@.int64_at(fewer.num_results as int) {
            Some(value) => sum_more matches Ok(new_total) && new_total == total + value,
            None => sum_more matches Err(f) && f@ == more@.error_at(fewer.num_results as int),
        },
{
    let n = fewer.num_results as nat;
    let (a, b) = (fewer@, more@);
    assert(agree(a, b, n)) by {
        assert forall|i: int| 0 <= i < n implies #[trigger] a.item(i) == b.item(i) by {
            assert(fewer.pg_results->0@[i] == more.pg_results->0@[i]);
        }
    }
    lemma_totals_agree(a, b, n);
    lemma_total_or_failure(a, n);
    lemma_total_or_failure(b, n);
    lemma_total_or_failure(b, n + 1);
    match sum {
        Err(e) => {
            let i = choose|i: int| #[trigger] a.fails_first_at(i) && e@ == a.error_at(i);
            assert(b.int64_at(i) is None);
            let j = choose|j: int| #[trigger] b.fails_first_at(j) && sum_more->Err_0@ == b.error_at(j);
            assert(b.fails_first_at(j));
            assert(b.int64_at(j) is None);
            assert(a.int64_at(j) is None || j >= n);
        },
        Ok(total) => {
            if b.int64_at(n as int) is None {
                let j = choose|j: int| #[trigger] b.fails_first_at(j) && sum_more->Err_0@
                    == b.error_at(j);
                assert(b.fails_first_at(j));
                assert(b.int64_at(j) is None);
            } else if sum_more is Err {
                let j = choose|j: int| #[trigger] b.fails_first_at(j);
                assert(b.int64_at(j) is None);
            }
        },
    }
}

/// The sum over no results is zero, and without an array counted results cannot be summed.
pub proof fn law_sum_without_results(results: CdbPgResults, sum: Result<i64, DispatchError>)
    requires
        call_ensures(CdbPgResults::extract_int64_sum, (&results,), sum),
    ensures
        results.num_results == 0 ==> sum == Ok::<i64, DispatchError>(0),
        results.num_results != 0 && results.pg_results is None ==> (sum matches Err(
            DispatchError::PostgreSQLError(msg),
        ) && msg@ == "Failed to get pg_result at index"@),
{
    let r = results@;
    if results.num_results == 0 {
        if sum is Err {
            let i = choose|i: int| #[trigger] r.fails_first_at(i);
            assert(r.fails_first_at(i));
        }
    } else if results.pg_results is None {
        assert(r.int64_at(0) is None);
        lemma_total_or_failure(r, r.slot_count() as nat);
        if sum is Err {
            let i = choose|i: int| #[trigger] r.fails_first_at(i) && sum->Err_0@ == r.error_at(i);
            assert(r.fails_first_at(i));
        }
    }
}

/// One more segment that answered with one field adds to the sum exactly the number that the
/// text of the field denotes, however large it is, and nothing if the field is NULL or has no
/// value; a field that denotes no number makes the sum an error.
pub proof fn law_each_segment_adds_its_number(
    fewer: CdbPgResults,
    more: CdbPgResults,
    rows: Vec<Vec<PgField>>,
    result: PgResult,
    text: Seq<char>,
    total: i64,
    sum: Result<i64, DispatchError>,
)
    requires
        one_more(fewer, more),
        more.pg_results->0@[fewer.num_results as int] == Some(result),
        call_ensures(PgResult::new, (2, 1, rows), result),
        rows@.len() == 1,
        rows@[0]@.len() == 1,
        call_ensures(CdbPgResults::extract_int64_sum, (&fewer,), Ok(total)),
        call_ensures(CdbPgResults::extract_int64_sum, (&more,), sum),
    ensures
        match rows@[0]@[0] {
            PgField::Bytes(bytes) => {
                &&& bytes@ == encode_utf8(text) ==> match signed_value(text) {
                    Some(value) => {
                        &&& i64::MIN <= value <= i64::MAX ==> (sum matches Ok(new_total) && new_total
                            == total + value)
                        &&& !(i64::MIN <= value <= i64::MAX) ==> (sum matches Err(
                            DispatchError::PostgreSQLError(msg),
                        ) && msg@ == "Invalid int64: "@ + int64_error_text(text))
                    },
                    None => sum matches Err(DispatchError::PostgreSQLError(msg)) && msg@
                        == "Invalid int64: "@ + int64_error_text(text),
                }
                &&& !valid_utf8(bytes@) ==> (sum matches Err(DispatchError::PostgreSQLError(msg))
                    && msg@ == "Invalid UTF-8: "@ + utf8_error_text(bytes@))
            },
            _ => sum == Ok::<i64, DispatchError>(total),
        },
{
    vstd::utf8::encode_utf8_valid_utf8(text);
    vstd::utf8::encode_utf8_decode_utf8(text);
    lemma_one_more(fewer, more, Ok(total), sum);
    assert(more@.slot(fewer.num_results as int) == Some(Some(result@)));
    assert(result@.field(0, 0) == rows@[0]@[0]@);
}

/// The sum over one segment is the number that the text of its field denotes.
pub proof fn law_sum_over_one_segment(
    results: CdbPgResults,
    rows: Vec<Vec<PgField>>,
    result: PgResult,
    text: Seq<char>,
    value: i64,
    sum: Result<i64, DispatchError>,
)
    requires
        results.num_results == 1,
        results.pg_results matches Some(array) && array@.len() > 0 && array@[0] == Some(result),
        call_ensures(PgResult::new, (2, 1, rows), result),
        rows@.len() == 1,
        rows@[0]@.len() == 1,
        rows@[0]@[0] matches PgField::Bytes(bytes) && bytes@ == encode_utf8(text),
        signed_value(text) == Some(value as int),
        call_ensures(CdbPgResults::extract_int64_sum, (&results,), sum),
    ensures
        sum == Ok::<i64, DispatchError>(value),
{
    vstd::utf8::encode_utf8_valid_utf8(text);
    vstd::utf8::encode_utf8_decode_utf8(text);
    let r = results@;
    assert(r.slot(0) == Some(Some(result@)));
    assert(result@.field(0, 0) == rows@[0]@[0]@);
    assert(r.int64_at(0) == Some(value as int));
    reveal_with_fuel(ResultsView::int64_total, 2);
    if sum is Err {
        let i = choose|i: int| #[trigger] r.fails_first_at(i);
        assert(r.fails_first_at(i));
        assert(i == 0);
    }
}

/// A segment that answered with another status or another shape, or not at all, makes the sum
/// an error that says so; and once a sum is an error, further segments do not change it.
pub proof fn law_sum_reports_the_first_bad_segment(
    fewer: CdbPgResults,
    more: CdbPgResults,
    status: u32,
    nfields: i32,
    rows: Vec<Vec<PgField>>,
    result: PgResult,
    sum: Result<i64, DispatchError>,
    sum_more: Result<i64, DispatchError>,
)
    requires
        one_more(fewer, more),
        call_ensures(PgResult::new, (status, nfields, rows), result),
        call_ensures(CdbPgResults::extract_int64_sum, (&fewer,), sum),
        call_ensures(CdbPgResults::extract_int64_sum, (&more,), sum_more),
    ensures
        sum matches Err(e) ==> (sum_more matches Err(f) && f@ == e@),
        sum is Ok && more.pg_results->0@[fewer.num_results as int] is None ==> (sum_more matches Err(
            DispatchError::PostgreSQLError(msg),
        ) && msg@ == "Unexpected result status: "@ + decimal(7)),
        sum is Ok && more.pg_results->0@[fewer.num_results as int] == Some(result) ==> {
            &&& status != 2 ==> (sum_more matches Err(DispatchError::PostgreSQLError(msg)) && msg@
                == "Unexpected result status: "@ + decimal(status as int))
            &&& status == 2 && (rows@.len() != 1 || nfields != 1) ==> (sum_more matches Err(
                DispatchError::PostgreSQLError(msg),
            ) && msg@ == "Unexpected result shape: "@ + decimal(rows@.len() as int) + " rows, "@
                + decimal(nfields as int) + " cols (expected 1 row, 1 col)"@)
        },
{
    lemma_one_more(fewer, more, sum, sum_more);
    let n = fewer.num_results as int;
    assert(more@.slot(n) == Some(
        match more.pg_results->0@[n] {
            Some(entry) => Some(entry@),
            None => None,
        },
    ));
}

/// A sum over one more segment stays in range exactly if the sum so far does and, unless it
/// already is an error, the number of the segment added to it does.
pub proof fn law_sum_fits_segment_by_segment(
    fewer: CdbPgResults,
    more: CdbPgResults,
    rows: Vec<Vec<PgField>>,
    result: PgResult,
    text: Seq<char>,
    value: i64,
    sum: Result<i64, DispatchError>,
    fits: bool,
    fits_more: bool,
)
    requires
        one_more(fewer, more),
        more.pg_results->0@[fewer.num_results as int] == Some(result),
        call_ensures(PgResult::new, (2, 1, rows), result),
        rows@.len() == 1,
        rows@[0]@.len() == 1,
        rows@[0]@[0] matches PgField::Bytes(bytes) && bytes@ == encode_utf8(text),
        signed_value(text) == Some(value as int),
        call_ensures(CdbPgResults::extract_int64_sum, (&fewer,), sum),
        call_ensures(CdbPgResults::int64_sum_fits, (&fewer,), fits),
        call_ensures(CdbPgResults::int64_sum_fits, (&more,), fits_more),
    ensures
        fewer.num_results == 0 ==> fits,
        fits_more <==> fits && (sum matches Ok(total) ==> i64::MIN <= total + value <= i64::MAX),
{
    vstd::utf8::encode_utf8_valid_utf8(text);
    vstd::utf8::encode_utf8_decode_utf8(text);
    let n = fewer.num_results as nat;
    let (a, b) = (fewer@, more@);
    assert(b.slot(n as int) == Some(Some(result@)));
    assert(result@.field(0, 0) == rows@[0]@[0]@);
    assert(b.int64_at(n as int) == Some(value as int));
    assert forall|m: nat| m <= n implies a.int64_total(m) == b.int64_total(m) by {
        assert(agree(a, b, m)) by {
            assert forall|i: int| 0 <= i < m implies #[trigger] a.item(i) == b.item(i) by {
                assert(fewer.pg_results->0@[i] == more.pg_results->0@[i]);
            }
        }
        lemma_totals_agree(a, b, m);
    }
    assert(a.int64_total(n) == b.int64_total(n));
    match sum {
        Err(_) => {
            let i = choose|i: int| #[trigger] a.fails_first_at(i);
            assert(a.fails_first_at(i));
            assert(a.int64_at(i) is None);
            lemma_total_or_failure(a, n);
            assert(b.int64_total(n + 1) is None);
        },
        Ok(total) => {
            assert(b.int64_total(n + 1) == Some(total + value));
        },
    }
    assert(b.int64_totals_fit() ==> a.int64_totals_fit()) by {
        if b.int64_totals_fit() {
            assert forall|m: nat| m <= a.slot_count() implies match #[trigger] a.int64_total(m) {
                Some(total) => i64::MIN <= total <= i64::MAX,
                None => true,
            } by {
                assert(b.int64_total(m) == a.int64_total(m));
            }
        }
    }
    assert(fewer.num_results == 0 ==> a.int64_totals_fit()) by {
        assert(a.int64_total(0) == Some(0int));
    }
    if a.int64_totals_fit() && (sum matches Ok(total) ==> i64::MIN <= total + value <= i64::MAX) {
        assert forall|m: nat| m <= b.slot_count() implies match #[trigger] b.int64_total(m) {
            Some(total) => i64::MIN <= total <= i64::MAX,
            None => true,
        } by {
            if m <= n {
                assert(b.int64_total(m) == a.int64_total(m));
            } else {
                assert(m == n + 1);
            }
        }
    }
}

/// The sum over all segments of a dispatched command is the sum of its results, and a failed
/// dispatch is its error.
pub proof fn law_sum_from_segments(
    results: ManagedCdbPgResults,
    inner: &CdbPgResults,
    sum: Result<i64, DispatchError>,
    direct: Result<i64, DispatchError>,
    error: DispatchError,
    failed: Result<i64, DispatchError>,
)
    requires
        call_ensures(ManagedCdbPgResults::inner, (&results,), inner),
        call_ensures(CdbPgResults::extract_int64_sum, (inner,), direct),
        call_ensures(get_int64_sum_from_segments, (Ok(results),), sum),
        call_ensures(get_int64_sum_from_segments, (Err(error),), failed),
    ensures
        outcome(sum) == outcome(direct),
        failed == Err::<i64, DispatchError>(error),
{
    let r = inner@;
    let count = r.slot_count() as nat;
    lemma_total_or_failure(r, count);
    if direct is Err {
        let i = choose|i: int| #[trigger] r.fails_first_at(i) && direct->Err_0@ == r.error_at(i);
        assert(r.fails_first_at(i));
        assert(r.int64_at(i) is None);
    }
    if sum is Err {
        let j = choose|j: int| #[trigger] r.fails_first_at(j) && sum->Err_0@ == r.error_at(j);
        assert(r.fails_first_at(j));
        assert(r.int64_at(j) is None);
    }
}

// Dispatch

/// A C string is the UTF-8 bytes of its text and one zero byte behind them; a text is refused
/// exactly if it holds the character `\0`, and the error then keeps all its bytes and the
/// place of the first zero byte.
pub proof fn law_c_string_is_text_and_zero_byte(
    text: &str,
    made: Result<Vec<u8>, NulError>,
    error: NulError,
    position: usize,
    bytes: Vec<u8>,
    message: String,
)
    requires
        call_ensures(c_string, (text,), made),
        call_ensures(NulError::nul_position, (&error,), position),
        call_ensures(NulError::into_vec, (error,), bytes),
        call_ensures(NulError::to_string, (&error,), message),
    ensures
        made is Err <==> text@.contains('\0'),
        made matches Ok(c) ==> {
            &&& c@.len() == encode_utf8(text@).len() + 1
            &&& c@.last() == 0
            &&& forall|i: int| 0 <= i < encode_utf8(text@).len() ==> c@[i] == encode_utf8(text@)[i]
                && #[trigger] c@[i] != 0
        },
        made == Err::<Vec<u8>, NulError>(error) ==> {
            &&& bytes@ == encode_utf8(text@)
            &&& position < bytes@.len()
            &&& bytes@[position as int] == 0
            &&& forall|i: int| 0 <= i < position ==> bytes@[i] != 0
        },
        message@ == "nul byte found in provided data at position: "@ + decimal(position as int),
{
    law_nul_byte_is_nul_character(text@);
    let encoded = encode_utf8(text@);
    if let Ok(c) = made {
        assert forall|i: int| 0 <= i < encoded.len() implies c@[i] == encoded[i] && #[trigger] c@[i]
            != 0 by {
            assert(encoded.contains(encoded[i]));
        }
    }
}

/// A request carries the bytes of the command, ended by a zero byte, and the value of the
/// flags; a command is refused exactly if it holds the character `\0`, as its C string is.
pub proof fn law_request_is_command_and_flags(
    command: &str,
    flags: DispatchFlags,
    prepared: Result<DispatchRequest, DispatchError>,
    made: Result<Vec<u8>, NulError>,
    request: DispatchRequest,
    bytes: &Vec<u8>,
    raw: i32,
)
    requires
        call_ensures(cdb_dispatch_command, (command, flags), prepared),
        call_ensures(c_string, (command,), made),
        call_ensures(DispatchRequest::command, (&request,), bytes),
        call_ensures(DispatchRequest::flags, (&request,), raw),
    ensures
        prepared is Err <==> command@.contains('\0'),
        prepared == Ok::<DispatchRequest, DispatchError>(request) ==> {
            &&& bytes@ == encode_utf8(command@).push(0u8)
            &&& raw == flags.0
            &&& made matches Ok(c) && bytes@ == c@
        },
        prepared matches Err(e) ==> {
            &&& e matches DispatchError::NullByteInString(nul)
            &&& made matches Err(refused)
            &&& nul@ == refused@
        },
{
    law_nul_byte_is_nul_character(command@);
}

/// Errors read as their kind and what they are about, and only an error about a zero byte has
/// a source, which is the error that it was made of.
pub proof fn law_errors_name_their_cause(
    nul: NulError,
    nul_message: String,
    wrapped: DispatchError,
    wrapped_message: String,
    wrapped_source: Option<&NulError>,
    msg: String,
    message: String,
    source: Option<&NulError>,
)
    requires
        call_ensures(NulError::to_string, (&nul,), nul_message),
        call_ensures(<DispatchError as From<NulError>>::from, (nul,), wrapped),
        call_ensures(DispatchError::to_string, (&wrapped,), wrapped_message),
        call_ensures(DispatchError::source, (&wrapped,), wrapped_source),
        call_ensures(DispatchError::to_string, (&DispatchError::PostgreSQLError(msg),), message),
        call_ensures(DispatchError::source, (&DispatchError::PostgreSQLError(msg),), source),
    ensures
        wrapped == DispatchError::NullByteInString(nul),
        wrapped_message@ == "Command string contains null byte: "@ + nul_message@,
        wrapped_source == Some(&nul),
        message@ == "PostgreSQL error during dispatch: "@ + msg@,
        source is None,
{
}

/// Managed results give access to the results that they were made of, and what is changed
/// through that access is changed in them.
pub proof fn law_managed_results_are_the_inner_results(
    results: CdbPgResults,
    managed: ManagedCdbPgResults,
    inner: &CdbPgResults,
    derefed: &CdbPgResults,
    changed: &mut ManagedCdbPgResults,
    access: &mut CdbPgResults,
    before: &CdbPgResults,
    after: &CdbPgResults,
)
    requires
        call_ensures(ManagedCdbPgResults::new, (results,), managed),
        call_ensures(ManagedCdbPgResults::inner, (&managed,), inner),
        call_ensures(<ManagedCdbPgResults as core::ops::Deref>::deref, (&managed,), derefed),
        call_ensures(ManagedCdbPgResults::inner_mut, (changed,), access),
        call_ensures(ManagedCdbPgResults::inner, (&*old(changed),), before),
        call_ensures(ManagedCdbPgResults::inner, (&*final(changed),), after),
    ensures
        *inner == results,
        *derefed == results,
        *old(access) == *before,
        *final(access) == *after,
{
}

/// A dispatch that was answered holds the results of the answer, and one that failed is the
/// error.
pub proof fn law_dispatch_is_its_answer(
    results: CdbPgResults,
    concluded: Result<ManagedCdbPgResults, DispatchError>,
    managed: ManagedCdbPgResults,
    inner: &CdbPgResults,
    error: DispatchError,
    failed: Result<ManagedCdbPgResults, DispatchError>,
)
    requires
        call_ensures(dispatched, (Ok(results),), concluded),
        call_ensures(ManagedCdbPgResults::inner, (&managed,), inner),
        call_ensures(dispatched, (Err(error),), failed),
    ensures
        concluded is Ok,
        concluded == Ok::<ManagedCdbPgResults, DispatchError>(managed) ==> *inner == results,
        failed == Err::<ManagedCdbPgResults, DispatchError>(error),
{
}

/// A node is a coordinator exactly if its role is the text `dispatch`, letter by letter; so
/// any two roles of coordinators are the same, and a node without a role is none.
pub proof fn law_only_one_role_coordinates(
    role: Option<String>,
    coordinator: bool,
    other: Option<String>,
    other_coordinator: bool,
)
    requires
        call_ensures(is_coordinator, (&role,), coordinator),
        call_ensures(is_coordinator, (&other,), other_coordinator),
    ensures
        coordinator <==> role is Some && role->0@ == seq!['d', 'i', 's', 'p', 'a', 't', 'c', 'h'],
        coordinator && other_coordinator ==> role->0@ == other->0@,
        role is None ==> !coordinator,
{
    reveal_strlit("dispatch");
    assert("dispatch"@ =~= seq!['d', 'i', 's', 'p', 'a', 't', 'c', 'h']);
}

/// The role of a node is the text that its setting encodes, and a node without the setting has
/// no role; so a node coordinates exactly if its setting is the bytes of `dispatch`.
pub proof fn law_role_is_the_setting(
    setting: &[u8],
    role: Option<String>,
    unset: Option<String>,
    coordinator: bool,
    text: Seq<char>,
)
    requires
        call_ensures(get_gp_role, (Some(setting),), role),
        call_ensures(get_gp_role, (None,), unset),
        call_ensures(is_coordinator, (&role,), coordinator),
    ensures
        unset is None,
        role is Some,
        setting@ == encode_utf8(text) ==> role->0@ == text,
        coordinator <==> setting@ == seq![100u8, 105, 115, 112, 97, 116, 99, 104],
{
    vstd::utf8::encode_utf8_valid_utf8(text);
    vstd::utf8::encode_utf8_decode_utf8(text);
    reveal_strlit("dispatch");
    let name = "dispatch"@;
    assert(!name.contains('\u{FFFD}'));
    vstd::utf8::is_ascii_chars_encode_utf8(name);
    assert(encode_utf8(name) =~= seq![100u8, 105, 115, 112, 97, 116, 99, 104]);
}

/// A node that is no coordinator prepares no dispatch, and a coordinator prepares what any
/// dispatch of the command is prepared with.
pub proof fn law_only_coordinators_dispatch(
    role: Option<String>,
    command: &str,
    flags: DispatchFlags,
    coordinator: bool,
    conditional: Option<Result<DispatchRequest, DispatchError>>,
    prepared: Result<DispatchRequest, DispatchError>,
)
    requires
        call_ensures(is_coordinator, (&role,), coordinator),
        call_ensures(dispatch_if_coordinator, (&role, command, flags), conditional),
        call_ensures(cdb_dispatch_command, (command, flags), prepared),
    ensures
        conditional is Some <==> coordinator,
        conditional matches Some(request) ==> match prepared {
            Ok(there) => request matches Ok(here) && here@ == there@,
            Err(there) => request matches Err(here) && here@ == there@,
        },
{
}

/// A batch asks for exactly the dispatch of the command that it is given, with the flags that
/// it began with, and a command that cannot be dispatched ends it with the error.
pub proof fn law_batch_sends_the_command(
    flags: DispatchFlags,
    batch: DispatchBatch,
    command: &str,
    step: BatchStep,
    prepared: Result<DispatchRequest, DispatchError>,
    pending: PendingDispatch,
    request: &DispatchRequest,
)
    requires
        call_ensures(cdb_dispatch_commands, (flags,), batch),
        call_ensures(DispatchBatch::next, (batch, Some(command)), step),
        call_ensures(cdb_dispatch_command, (command, flags), prepared),
        call_ensures(PendingDispatch::request, (&pending,), request),
    ensures
        match prepared {
            Ok(there) => step is Send && (step == BatchStep::Send(pending) ==> request@ == there@),
            Err(there) => step matches BatchStep::Return(Err(here)) && here@ == there@,
        },
{
}

/// A batch that was given no command returns an empty list.
pub proof fn law_empty_batch_returns_nothing(
    flags: DispatchFlags,
    batch: DispatchBatch,
    step: BatchStep,
)
    requires
        call_ensures(cdb_dispatch_commands, (flags,), batch),
        call_ensures(DispatchBatch::next, (batch, None), step),
    ensures
        step matches BatchStep::Return(Ok(results)) && results@.len() == 0,
{
    if let BatchStep::Return(Ok(results)) = step {
        assert(crate::dispatch::all_results(results@).len() == results@.len());
    }
}

/// An answer puts its results behind those that a batch would have returned without it, and
/// the batch then does with any command what it would have done before; a failed dispatch ends
/// the batch with its error.
pub proof fn law_answer_extends_the_batch(
    batch: DispatchBatch,
    command: &str,
    pending: PendingDispatch,
    results: CdbPgResults,
    answered: Result<DispatchBatch, DispatchError>,
    longer: DispatchBatch,
    before: BatchStep,
    after: BatchStep,
    other: &str,
    early: BatchStep,
    late: BatchStep,
    early_pending: PendingDispatch,
    late_pending: PendingDispatch,
    early_request: &DispatchRequest,
    late_request: &DispatchRequest,
    error: DispatchError,
    failed: Result<DispatchBatch, DispatchError>,
)
    requires
        call_ensures(DispatchBatch::next, (batch, Some(command)), BatchStep::Send(pending)),
        call_ensures(PendingDispatch::answered, (pending, Ok(results)), answered),
        call_ensures(PendingDispatch::answered, (pending, Err(error)), failed),
        call_ensures(DispatchBatch::next, (batch, None), before),
        call_ensures(DispatchBatch::next, (longer, None), after),
        call_ensures(DispatchBatch::next, (batch, Some(other)), early),
        call_ensures(DispatchBatch::next, (longer, Some(other)), late),
        call_ensures(PendingDispatch::request, (&early_pending,), early_request),
        call_ensures(PendingDispatch::request, (&late_pending,), late_request),
    ensures
        answered is Ok,
        failed == Err::<DispatchBatch, DispatchError>(error),
        before matches BatchStep::Return(Ok(_)),
        answered == Ok::<DispatchBatch, DispatchError>(longer) ==> {
            &&& after matches BatchStep::Return(Ok(_))
            &&& before matches BatchStep::Return(Ok(old_list)) ==> after matches BatchStep::Return(
                Ok(new_list),
            ) ==> {
                &&& new_list@.len() == old_list@.len() + 1
                &&& new_list@.last()@ == results
                &&& forall|i: int|
                    0 <= i < old_list@.len() ==> #[trigger] new_list@[i]@ == old_list@[i]@
            }
            &&& early is Send <==> late is Send
            &&& early == BatchStep::Send(early_pending) && late == BatchStep::Send(late_pending)
                ==> late_request@ == early_request@
            &&& early matches BatchStep::Return(here) ==> (here matches Err(e) && late matches BatchStep::Return(
                Err(f),
            ) && f@ == e@)
        },
{
    if let BatchStep::Return(Ok(old_list)) = before {
        if let BatchStep::Return(Ok(new_list)) = after {
            if answered == Ok::<DispatchBatch, DispatchError>(longer) {
                let old_all = crate::dispatch::all_results(old_list@);
                let new_all = crate::dispatch::all_results(new_list@);
                assert(new_all == old_all.push(results));
                assert(new_all.last() == new_list@.last()@);
                assert forall|i: int| 0 <= i < old_list@.len() implies #[trigger] new_list@[i]@
                    == old_list@[i]@ by {
                    assert(new_all[i] == old_all[i]);
                }
            }
        }
    }
}

} // verus!
