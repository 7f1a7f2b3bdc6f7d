//! What all segments answered.

use vstd::prelude::*;
use vstd::utf8::{decode_utf8, valid_utf8};

use crate::error::{outcome, DispatchError, ErrorView};
use crate::pg_result::{
    optional_view, result_status, status_of, ExecStatusType, FieldView, PgField, PgResult,
    ResultView,
};
use crate::text::{
    append_i32, append_u64, decimal, int64_error_text, int64_of_text, parse_int64, text_of_utf8,
    utf8_error_text,
};

verus! {

/// The results of a dispatched command
///
/// It contains the results returned from all segments after command execution.
#[derive(Debug)]
pub struct CdbPgResults {
    /// The result of each segment, each of which may be missing; none if there is no array
    /// of results at all
    pub pg_results: Option<Vec<Option<PgResult>>>,
    /// Number of results returned
    pub num_results: i32,
    /// Number of dispatches sent
    pub num_dispatches: i32,
}

/// What the results are in contracts.
pub struct ResultsView {
    pub array: Option<Seq<Option<ResultView>>>,
    pub num_results: i32,
    pub num_dispatches: i32,
}

/// The results that the entries of an array stand for.
pub open spec fn array_view(array: Seq<Option<PgResult>>) -> Seq<Option<ResultView>> {
    array.map_values(
        |entry: Option<PgResult>|
            match entry {
                Some(result) => Some(result@),
                None => None,
            },
    )
}

impl View for CdbPgResults {
    type V = ResultsView;

    open spec fn view(&self) -> ResultsView {
        ResultsView {
            array: match self.pg_results {
                Some(array) => Some(array_view(array@)),
                None => None,
            },
            num_results: self.num_results,
            num_dispatches: self.num_dispatches,
        }
    }
}

/// What an item of the iteration is in contracts.
pub open spec fn item_view(item: Result<Option<&PgResult>, DispatchError>) -> Result<
    Option<ResultView>,
    ErrorView,
> {
    match item {
        Ok(pg_result) => Ok(optional_view(pg_result)),
        Err(e) => Err(e@),
    }
}

/// What dimensions that were read are in contracts.
pub open spec fn dimensions_view(dims: Result<(i32, i32), DispatchError>) -> Result<
    (int, int),
    ErrorView,
> {
    match dims {
        Ok((ntuples, nfields)) => Ok((ntuples as int, nfields as int)),
        Err(e) => Err(e@),
    }
}

/// What a field value that was read is in contracts.
pub open spec fn value_view(value: Result<Option<String>, DispatchError>) -> Result<
    Option<Seq<char>>,
    ErrorView,
> {
    match value {
        Ok(Some(text)) => Ok(Some(text@)),
        Ok(None) => Ok(None),
        Err(e) => Err(e@),
    }
}

/// What a text that was read is in contracts.
pub open spec fn text_view(text: Result<String, DispatchError>) -> Result<Seq<char>, ErrorView> {
    match text {
        Ok(text) => Ok(text@),
        Err(e) => Err(e@),
    }
}

/// The number that a result contributes to a sum: zero if its only field is NULL or has no
/// value, else the integer that the field denotes. None if the result is not one row with
/// one such field.
pub open spec fn int64_of_result(pg_result: Option<ResultView>) -> Option<int> {
    match pg_result {
        Some(result) => if result.status == ExecStatusType::PGRES_TUPLES_OK && result.ntuples() == 1
            && result.nfields == 1 {
            match result.field(0, 0) {
                FieldView::Bytes(bytes) => if valid_utf8(bytes) {
                    int64_of_text(decode_utf8(bytes))
                } else {
                    None
                },
                _ => Some(0),
            }
        } else {
            None
        },
        None => None,
    }
}

/// What is reported of a result that contributes no number to a sum.
pub open spec fn int64_failure(pg_result: Option<ResultView>) -> Seq<char> {
    if status_of(pg_result) != ExecStatusType::PGRES_TUPLES_OK {
        "Unexpected result status: "@ + decimal(status_of(pg_result) as int)
    } else {
        let result = pg_result->0;
        if result.ntuples() != 1 || result.nfields != 1 {
            "Unexpected result shape: "@ + decimal(result.ntuples()) + " rows, "@ + decimal(
                result.nfields,
            ) + " cols (expected 1 row, 1 col)"@
        } else {
            let bytes = result.field(0, 0)->Bytes_0;
            if !valid_utf8(bytes) {
                utf8_failure(utf8_error_text(bytes))
            } else {
                int64_text_failure(int64_error_text(decode_utf8(bytes)))
            }
        }
    }
}

/// What is reported of bytes that are not UTF-8.
pub open spec fn utf8_failure(detail: Seq<char>) -> Seq<char> {
    "Invalid UTF-8: "@ + detail
}

/// What is reported of a text that denotes no `i64`.
pub open spec fn int64_text_failure(detail: Seq<char>) -> Seq<char> {
    "Invalid int64: "@ + detail
}

/// The numbers of rows and columns of a result, or why they are not known.
pub open spec fn dimensions(pg_result: Option<ResultView>) -> Result<(int, int), ErrorView> {
    match pg_result {
        None => Err(ErrorView::PostgreSQLError("Null pg_result pointer"@)),
        Some(result) => if result.status != ExecStatusType::PGRES_TUPLES_OK {
            Err(
                ErrorView::PostgreSQLError(
                    "Result status is not PGRES_TUPLES_OK: "@ + decimal(result.status as int),
                ),
            )
        } else {
            Ok((result.ntuples(), result.nfields))
        },
    }
}

/// The text of a field, none if the field is NULL or has no value, or why there is no text.
pub open spec fn field_text(pg_result: Option<ResultView>, row: int, col: int) -> Result<
    Option<Seq<char>>,
    ErrorView,
> {
    match pg_result {
        None => Err(ErrorView::PostgreSQLError("Null pg_result pointer"@)),
        Some(result) => match result.field(row, col) {
            FieldView::Bytes(bytes) => if valid_utf8(bytes) {
                Ok(Some(decode_utf8(bytes)))
            } else {
                Err(ErrorView::PostgreSQLError(utf8_failure(utf8_error_text(bytes))))
            },
            _ => Ok(None),
        },
    }
}

/// The text of the only field of a result, or why there is none.
pub open spec fn single_text(pg_result: Option<ResultView>) -> Result<Seq<char>, ErrorView> {
    match dimensions(pg_result) {
        Err(e) => Err(e),
        Ok((ntuples, nfields)) => if ntuples != 1 || nfields != 1 {
            Err(
                ErrorView::PostgreSQLError(
                    "Expected exactly 1 row and 1 column, got "@ + decimal(ntuples) + " rows and "@
                        + decimal(nfields) + " columns"@,
                ),
            )
        } else {
            match field_text(pg_result, 0, 0) {
                Err(e) => Err(e),
                Ok(None) => Err(ErrorView::PostgreSQLError("Field value is NULL"@)),
                Ok(Some(text)) => Ok(text),
            }
        },
    }
}

/// What is reported of a text that could not be read as a value of a type.
pub open spec fn parse_failure(text: Seq<char>, target: Seq<char>, detail: Seq<char>) -> Seq<char> {
    "Failed to parse '"@ + text + "' as "@ + target + ": "@ + detail
}

/// The value read from a text, or what is reported if it could not be read.
pub open spec fn parsed_value<T>(
    text: Seq<char>,
    target: Seq<char>,
    parsed: Result<T, String>,
) -> Result<T, ErrorView> {
    match parsed {
        Ok(value) => Ok(value),
        Err(detail) => Err(ErrorView::PostgreSQLError(parse_failure(text, target, detail@))),
    }
}

impl ResultsView {
    /// The number of results as an index bound: a negative count wraps around.
    pub open spec fn slot_count(self) -> int {
        if self.num_results >= 0 {
            self.num_results as int
        } else {
            usize::MAX + 1 + self.num_results
        }
    }

    /// Reading the result at `index` stays inside the array.
    pub open spec fn readable(self, index: int) -> bool {
        index < self.slot_count() ==> match self.array {
            Some(array) => index < array.len(),
            None => true,
        }
    }

    /// If there is an array, it holds as many results as are counted.
    pub open spec fn valid(self) -> bool {
        match self.array {
            Some(array) => self.slot_count() <= array.len(),
            None => true,
        }
    }

    /// The result at `index`, if there is an array and the count covers the index.
    pub open spec fn slot(self, index: int) -> Option<Option<ResultView>> {
        match self.array {
            Some(array) => if index < self.slot_count() {
                Some(array[index])
            } else {
                None
            },
            None => None,
        }
    }

    /// The item of the iteration at `index`.
    pub open spec fn item(self, index: int) -> Result<Option<ResultView>, ErrorView> {
        match self.slot(index) {
            Some(pg_result) => Ok(pg_result),
            None => Err(ErrorView::PostgreSQLError("Failed to get pg_result at index"@)),
        }
    }

    /// All items of the iteration, in order.
    pub open spec fn items(self) -> Seq<Result<Option<ResultView>, ErrorView>> {
        Seq::new(self.slot_count() as nat, |i: int| self.item(i))
    }

    /// The number that the item at `index` contributes to the sum.
    pub open spec fn int64_at(self, index: int) -> Option<int> {
        match self.slot(index) {
            Some(pg_result) => int64_of_result(pg_result),
            None => None,
        }
    }

    /// What is reported if the item at `index` contributes no number.
    pub open spec fn error_at(self, index: int) -> ErrorView {
        match self.item(index) {
            Ok(pg_result) => ErrorView::PostgreSQLError(int64_failure(pg_result)),
            Err(e) => e,
        }
    }

    /// The sum of the numbers of the first `n` items, if each of them contributes one.
    pub open spec fn int64_total(self, n: nat) -> Option<int>
        decreases n,
    {
        if n == 0 {
            Some(0)
        } else {
            match (self.int64_total((n - 1) as nat), self.int64_at(n - 1)) {
                (Some(total), Some(value)) => Some(total + value),
                _ => None,
            }
        }
    }

    /// No running total of the sum leaves the range of an `i64`.
    pub open spec fn int64_totals_fit(self) -> bool {
        forall|n: nat|
            n <= self.slot_count() ==> match #[trigger] self.int64_total(n) {
                Some(total) => i64::MIN <= total <= i64::MAX,
                None => true,
            }
    }

    /// The item at `index` is the first that contributes no number.
    pub open spec fn fails_first_at(self, index: int) -> bool {
        &&& 0 <= index < self.slot_count()
        &&& self.int64_at(index) is None
        &&& forall|i: int| 0 <= i < index ==> #[trigger] self.int64_at(i) is Some
    }

    /// `result` is the sum of the numbers of all items, or the error of the first item
    /// that contributes none.
    pub open spec fn sums_to(self, result: Result<i64, ErrorView>) -> bool {
        match result {
            Ok(total) => self.int64_total(self.slot_count() as nat) == Some(total as int),
            Err(e) => exists|i: int| #[trigger] self.fails_first_at(i) && e == self.error_at(i),
        }
    }
}

/// Accepts decoded bytes, or reports why they are not UTF-8
pub fn text_or_error(decoded: Result<String, String>) -> (text: Result<String, DispatchError>)
    ensures
        match decoded {
            Ok(value) => text == Ok::<String, DispatchError>(value),
            Err(detail) => outcome(text) == Err::<String, ErrorView>(
                ErrorView::PostgreSQLError(utf8_failure(detail@)),
            ),
        },
{
    match decoded {
        Ok(text) => Ok(text),
        Err(detail) => {
            let mut message = String::new();
            message.append("Invalid UTF-8: ");
            message.append(detail.as_str());
            Err(DispatchError::PostgreSQLError(message))
        },
    }
}

/// Accepts a parsed number, or reports why the text denotes none
pub fn int64_or_error(parsed: Result<i64, String>) -> (value: Result<i64, DispatchError>)
    ensures
        match parsed {
            Ok(number) => value == Ok::<i64, DispatchError>(number),
            Err(detail) => outcome(value) == Err::<i64, ErrorView>(
                ErrorView::PostgreSQLError(int64_text_failure(detail@)),
            ),
        },
{
    match parsed {
        Ok(number) => Ok(number),
        Err(detail) => {
            let mut message = String::new();
            message.append("Invalid int64: ");
            message.append(detail.as_str());
            Err(DispatchError::PostgreSQLError(message))
        },
    }
}

/// Accepts a parsed value, or reports why `text` could not be read as a value of the type
/// that `target` names
pub fn value_or_error<T>(text: &str, target: &str, parsed: Result<T, String>) -> (value: Result<
    T,
    DispatchError,
>)
    ensures
        outcome(value) == parsed_value(text@, target@, parsed),
{
    match parsed {
        Ok(value) => Ok(value),
        Err(detail) => {
            let mut message = String::new();
            message.append("Failed to parse '");
            message.append(text);
            message.append("' as ");
            message.append(target);
            message.append(": ");
            message.append(detail.as_str());
            Err(DispatchError::PostgreSQLError(message))
        },
    }
}

/// The number that a result contributes to a sum
fn int64_from_result(pg_result: Option<&PgResult>) -> (value: Result<i64, DispatchError>)
    ensures
        match value {
            Ok(number) => int64_of_result(optional_view(pg_result)) == Some(number as int),
            Err(e) => int64_of_result(optional_view(pg_result)) is None
                && e@ == ErrorView::PostgreSQLError(int64_failure(optional_view(pg_result))),
        },
{
    let status = result_status(pg_result);
    let result = match pg_result {
        Some(result) if status == ExecStatusType::PGRES_TUPLES_OK => result,
        _ => {
            let mut message = String::new();
            message.append("Unexpected result status: ");
            append_u64(&mut message, status as u64);
            return Err(DispatchError::PostgreSQLError(message));
        },
    };

    let ntuples = result.ntuples();
    let nfields = result.nfields();
    if ntuples != 1 || nfields != 1 {
        let mut message = String::new();
        message.append("Unexpected result shape: ");
        append_i32(&mut message, ntuples);
        message.append(" rows, ");
        append_i32(&mut message, nfields);
        message.append(" cols (expected 1 row, 1 col)");
        return Err(DispatchError::PostgreSQLError(message));
    }
    match result.field(0, 0) {
        PgField::Bytes(bytes) => {
            let text = match text_or_error(text_of_utf8(bytes.as_slice())) {
                Ok(text) => text,
                Err(e) => return Err(e),
            };
            int64_or_error(parse_int64(text.as_str()))
        },
        _ => Ok(0),
    }
}

impl CdbPgResults {
    /// Create a new empty CdbPgResults structure
    pub fn new() -> (results: Self)
        ensures
            results.pg_results is None,
            results.num_results == 0,
            results.num_dispatches == 0,
    {
        CdbPgResults { pg_results: None, num_results: 0, num_dispatches: 0 }
    }

    /// Get the number of results
    pub fn num_results(&self) -> (n: i32)
        ensures
            n == self.num_results,
    {
        self.num_results
    }

    /// Get the number of dispatches
    pub fn num_dispatches(&self) -> (n: i32)
        ensures
            n == self.num_dispatches,
    {
        self.num_dispatches
    }

    /// Check if there are any results
    pub fn has_results(&self) -> (has: bool)
        ensures
            has == (self.num_results > 0 && self.pg_results is Some),
    {
        self.num_results > 0 && self.pg_results.is_some()
    }

    /// The number of results as an index bound
    fn slot_count(&self) -> (count: usize)
        ensures
            count == self@.slot_count(),
    {
        if self.num_results >= 0 {
            self.num_results as usize
        } else {
            usize::MAX - (-(self.num_results + 1)) as usize
        }
    }

    /// Check that the array, if there is one, holds as many results as are counted
    pub fn is_valid(&self) -> (valid: bool)
        ensures
            valid == self@.valid(),
    {
        match &self.pg_results {
            Some(array) => self.slot_count() <= array.len(),
            None => true,
        }
    }

    /// Get a specific PostgreSQL result by index
    ///
    /// The result at an index that the count covers may be missing.
    pub fn get_pg_result(&self, index: usize) -> (pg_result: Option<Option<&PgResult>>)
        requires
            self@.readable(index as int),
        ensures
            match pg_result {
                Some(result) => self@.slot(index as int) == Some(optional_view(result)),
                None => self@.slot(index as int) is None,
            },
            pg_result matches Some(Some(result)) ==> self.pg_results->0@[index as int] == Some(
                *result,
            ),
    {
        if index < self.slot_count() {
            match &self.pg_results {
                Some(array) => match &array[index] {
                    Some(result) => Some(Some(result)),
                    None => Some(None),
                },
                None => None,
            }
        } else {
            None
        }
    }

    /// Iterate over all PostgreSQL results safely
    ///
    /// The results come in order as they are, whatever their status; without an array, each
    /// item is an error.
    pub fn iter_results(&self) -> (iter: CdbResultIterator)
        ensures
            iter.results() == self,
            iter.position() == 0,
            iter.remaining() == self@.items(),
    {
        CdbResultIterator { results: self, current: 0 }
    }

    /// Extract the sum of a single int64 value from each result
    ///
    /// This is a common pattern when dispatching queries that return
    /// a single numeric value (like size calculations).
    ///
    /// # Returns
    ///
    /// Returns the sum of all int64 values from all segments,
    /// or an error if the results don't match the expected format.
    pub fn extract_int64_sum(&self) -> (sum: Result<i64, DispatchError>)
        requires
            self@.valid(),
            self@.int64_totals_fit(),
        ensures
            self@.sums_to(outcome(sum)),
    {
        let mut total: i64 = 0;
        let mut iter = self.iter_results();
        loop
            invariant
                iter.results() == self,
                self@.valid(),
                self@.int64_totals_fit(),
                0 <= iter.position() <= self@.slot_count(),
                self@.int64_total(iter.position() as nat) == Some(total as int),
                forall|i: int| 0 <= i < iter.position() ==> #[trigger] self@.int64_at(i) is Some,
            decreases self@.slot_count() - iter.position(),
        {
            let ghost at = iter.position();
            let item = match iter.next() {
                Some(item) => item,
                None => return Ok(total),
            };
            let value = match item {
                Ok(pg_result) => int64_from_result(pg_result),
                Err(e) => Err(e),
            };
            match value {
                Ok(value) => {
                    assert(self@.int64_total((at + 1) as nat) == Some(total + value));
                    total = total + value;
                },
                Err(e) => {
                    assert(self@.fails_first_at(at));
                    return Err(e);
                },
            }
        }
    }

    /// Check that no running total of [`Self::extract_int64_sum`] overflows
    pub fn int64_sum_fits(&self) -> (fits: bool)
        requires
            self@.valid(),
        ensures
            fits == self@.int64_totals_fit(),
    {
        let mut total: i64 = 0;
        let mut iter = self.iter_results();
        loop
            invariant
                iter.results() == self,
                self@.valid(),
                0 <= iter.position() <= self@.slot_count(),
                self@.int64_total(iter.position() as nat) == Some(total as int),
                forall|n: nat|
                    n <= iter.position() ==> match #[trigger] self@.int64_total(n) {
                        Some(total) => i64::MIN <= total <= i64::MAX,
                        None => true,
                    },
            decreases self@.slot_count() - iter.position(),
        {
            let ghost at = iter.position();
            let item = match iter.next() {
                Some(item) => item,
                None => return true,
            };
            let value = match item {
                Ok(pg_result) => int64_from_result(pg_result),
                Err(e) => Err(e),
            };
            match value {
                Ok(value) => {
                    assert(self@.int64_total((at + 1) as nat) == Some(total + value));
                    match total.checked_add(value) {
                        Some(sum) => {
                            total = sum;
                        },
                        None => return false,
                    }
                },
                Err(e) => {
                    proof {
                        self@.lemma_total_stops(at as nat);
                    }
                    return true;
                },
            }
        }
    }

    /// Get the number of rows and columns in a result safely
    ///
    /// # Returns
    ///
    /// A tuple of (num_rows, num_cols) or an error if the result is invalid
    pub fn get_result_dimensions(pg_result: Option<&PgResult>) -> (dims: Result<
        (i32, i32),
        DispatchError,
    >)
        ensures
            dimensions_view(dims) == dimensions(optional_view(pg_result)),
    {
        let result = match pg_result {
            Some(result) => result,
            None => return Err(DispatchError::postgres("Null pg_result pointer")),
        };

        let status = result.status();
        if status != ExecStatusType::PGRES_TUPLES_OK {
            let mut message = String::new();
            message.append("Result status is not PGRES_TUPLES_OK: ");
            append_u64(&mut message, status as u64);
            return Err(DispatchError::PostgreSQLError(message));
        }
        Ok((result.ntuples(), result.nfields()))
    }

    /// Get a field value as a string safely
    ///
    /// # Arguments
    ///
    /// * `pg_result` - The result, which may be missing
    /// * `row` - Row index (0-based)
    /// * `col` - Column index (0-based)
    ///
    /// # Returns
    ///
    /// The field value as a string, or None if the field is NULL
    pub fn get_field_value(pg_result: Option<&PgResult>, row: i32, col: i32) -> (value: Result<
        Option<String>,
        DispatchError,
    >)
        ensures
            value_view(value) == field_text(optional_view(pg_result), row as int, col as int),
    {
        let result = match pg_result {
            Some(result) => result,
            None => return Err(DispatchError::postgres("Null pg_result pointer")),
        };
        match result.field(row, col) {
            PgField::Bytes(bytes) => match text_or_error(text_of_utf8(bytes.as_slice())) {
                Ok(text) => Ok(Some(text)),
                Err(e) => Err(e),
            },
            _ => Ok(None),
        }
    }

    /// Extract the text of the only field of a result
    pub fn extract_single_text(pg_result: Option<&PgResult>) -> (text: Result<String, DispatchError>)
        ensures
            text_view(text) == single_text(optional_view(pg_result)),
    {
        let (ntuples, nfields) = match Self::get_result_dimensions(pg_result) {
            Ok(dims) => dims,
            Err(e) => return Err(e),
        };
        if ntuples != 1 || nfields != 1 {
            let mut message = String::new();
            message.append("Expected exactly 1 row and 1 column, got ");
            append_i32(&mut message, ntuples);
            message.append(" rows and ");
            append_i32(&mut message, nfields);
            message.append(" columns");
            return Err(DispatchError::PostgreSQLError(message));
        }
        match Self::get_field_value(pg_result, 0, 0) {
            Ok(Some(text)) => Ok(text),
            Ok(None) => Err(DispatchError::postgres("Field value is NULL")),
            Err(e) => Err(e),
        }
    }

    /// Extract a single field value and parse it as the specified type
    ///
    /// This is a convenience method for getting a single value from the first row/column.
    ///
    /// # Arguments
    ///
    /// * `pg_result` - The result, which may be missing
    /// * `target` - The name of the type that the value is parsed as
    /// * `parse` - Parses a text as a value of that type, or says why it cannot
    ///
    /// # Returns
    ///
    /// The parsed value, or an error if parsing fails
    pub fn extract_single_value<T, F: Fn(&str) -> Result<T, String>>(
        pg_result: Option<&PgResult>,
        target: &str,
        parse: F,
    ) -> (value: Result<T, DispatchError>)
        requires
            forall|text: &str|
                single_text(optional_view(pg_result)) == Ok::<_, ErrorView>(text@) ==> #[trigger] call_requires(
                    parse,
                    (text,),
                ),
        ensures
            match single_text(optional_view(pg_result)) {
                Ok(text) => exists|s: &str, parsed: Result<T, String>|
                    #![trigger call_ensures(parse, (s,), parsed)]
                    s@ == text && call_ensures(parse, (s,), parsed) && outcome(value)
                        == parsed_value(text, target@, parsed),
                Err(e) => outcome(value) == Err::<T, _>(e),
            },
    {
        let text = match Self::extract_single_text(pg_result) {
            Ok(text) => text,
            Err(e) => return Err(e),
        };
        let parsed = parse(text.as_str());
        value_or_error(text.as_str(), target, parsed)
    }
}

impl Default for CdbPgResults {
    fn default() -> (results: Self)
        ensures
            results.pg_results is None,
            results.num_results == 0,
            results.num_dispatches == 0,
    {
        Self::new()
    }
}

/// Iterator over CdbPgResults
///
/// Provides safe iteration over the results of the segments.
pub struct CdbResultIterator<'a> {
    results: &'a CdbPgResults,
    current: usize,
}

impl<'a> CdbResultIterator<'a> {
    /// The results that are iterated over.
    pub closed spec fn results(self) -> &'a CdbPgResults {
        self.results
    }

    /// The index of the next item.
    pub closed spec fn position(self) -> int {
        self.current as int
    }

    /// The items that are still to come, in order.
    pub open spec fn remaining(self) -> Seq<Result<Option<ResultView>, ErrorView>> {
        self.results()@.items().skip(self.position())
    }

    /// The position is inside the items or at their end.
    #[verifier::type_invariant]
    spec fn inv(self) -> bool {
        self.current <= self.results@.slot_count()
    }

    /// The next item, if there is one: a result, which may be missing, or the error that
    /// there is no array to read it from
    pub fn next(&mut self) -> (item: Option<Result<Option<&'a PgResult>, DispatchError>>)
        requires
            old(self).results()@.readable(old(self).position()),
        ensures
            final(self).results() == old(self).results(),
            match item {
                None => {
                    &&& old(self).remaining().len() == 0
                    &&& old(self).position() == old(self).results()@.slot_count()
                    &&& final(self).position() == old(self).position()
                },
                Some(item) => {
                    &&& old(self).remaining().len() > 0
                    &&& old(self).position() < old(self).results()@.slot_count()
                    &&& item_view(item) == old(self).remaining()[0]
                    &&& item_view(item) == old(self).results()@.item(old(self).position())
                    &&& final(self).remaining() == old(self).remaining().drop_first()
                    &&& final(self).position() == old(self).position() + 1
                },
            },
            item matches Some(Ok(Some(result))) ==> old(
                self,
            ).results().pg_results->0@[old(self).position()] == Some(*result),
    {
        proof {
            use_type_invariant(&*self);
        }
        if self.current >= self.results.slot_count() {
            return None;
        }
        let item = match self.results.get_pg_result(self.current) {
            Some(pg_result) => Ok(pg_result),
            None => Err(DispatchError::postgres("Failed to get pg_result at index")),
        };
        self.current = self.current + 1;
        Some(item)
    }
}

impl ResultsView {
    /// Once an item contributes no number, there is no running total.
    proof fn lemma_total_stops(self, index: nat)
        requires
            self.int64_at(index as int) is None,
        ensures
            forall|n: nat| n > index ==> #[trigger] self.int64_total(n) is None,
    {
        assert forall|n: nat| n > index implies #[trigger] self.int64_total(n) is None by {
            self.lemma_total_stops_at(index, n);
        }
    }

    proof fn lemma_total_stops_at(self, index: nat, n: nat)
        requires
            self.int64_at(index as int) is None,
            n > index,
        ensures
            self.int64_total(n) is None,
        decreases n,
    {
        if n > index + 1 {
            self.lemma_total_stops_at(index, (n - 1) as nat);
        }
    }
}

/// The items of the iteration are the results of the array in order, or errors if there is
/// no array.
pub proof fn law_items_come_from_the_array(results: CdbPgResults, index: int)
    requires
        0 <= index < results@.slot_count(),
    ensures
        results@.item(index) is Ok <==> results.pg_results is Some,
        results.pg_results is Some ==> results@.item(index) == Ok::<_, ErrorView>(
            array_view(results.pg_results->0@)[index],
        ),
{
}

/// The sum over no results is zero.
pub proof fn law_empty_sum_is_zero(results: ResultsView)
    requires
        results.num_results == 0,
    ensures
        results.valid(),
        results.int64_totals_fit(),
        results.sums_to(Ok(0)),
{
    assert forall|n: nat| n <= results.slot_count() implies match #[trigger] results.int64_total(n) {
        Some(total) => i64::MIN <= total <= i64::MAX,
        None => true,
    } by {
        assert(n == 0);
    }
}

/// There is no total exactly if an item contributes no number, and then one of these items
/// is the first.
pub(crate) proof fn lemma_total_or_failure(results: ResultsView, n: nat)
    requires
        n <= results.slot_count(),
    ensures
        results.int64_total(n) is Some <==> forall|i: int|
            0 <= i < n ==> #[trigger] results.int64_at(i) is Some,
        results.int64_total(n) is None ==> exists|i: int|
            i < n && #[trigger] results.fails_first_at(i),
    decreases n,
{
    if n > 0 {
        lemma_total_or_failure(results, (n - 1) as nat);
        if results.int64_total((n - 1) as nat) is Some && results.int64_at(n - 1) is None {
            assert(results.fails_first_at(n - 1));
        }
        if results.int64_total((n - 1) as nat) is None {
            let i = choose|i: int| i < n - 1 && #[trigger] results.fails_first_at(i);
            assert(results.int64_at(i) is None);
        }
    }
}

/// Summing has exactly one outcome, and it is an error exactly if some item contributes no
/// number: it cannot be read, or it has another status, another shape or a field that denotes
/// no `i64`.
pub proof fn law_sum_is_determined(results: ResultsView, a: Result<i64, ErrorView>, b: Result<
    i64,
    ErrorView,
>)
    requires
        results.int64_totals_fit(),
    ensures
        exists|sum: Result<i64, ErrorView>| #[trigger] results.sums_to(sum),
        results.sums_to(a) && results.sums_to(b) ==> a == b,
        results.sums_to(a) ==> (a is Err <==> exists|i: int|
            0 <= i < results.slot_count() && #[trigger] results.int64_at(i) is None),
{
    let count = results.slot_count() as nat;
    lemma_total_or_failure(results, count);
    match results.int64_total(count) {
        Some(total) => {
            assert(results.sums_to(Ok(total as i64)));
        },
        None => {
            let i = choose|i: int| i < count && #[trigger] results.fails_first_at(i);
            assert(results.sums_to(Err(results.error_at(i))));
        },
    }
}

/// The order of the segments does not matter to the sum: results with the same entries in
/// any order have the same total, or both have none.
pub proof fn law_sum_ignores_order(a: ResultsView, b: ResultsView)
    requires
        a.valid(),
        b.valid(),
        a.array is Some,
        b.array is Some,
        a.array->0.take(a.slot_count()).to_multiset() == b.array->0.take(b.slot_count()).to_multiset(),
    ensures
        a.int64_total(a.slot_count() as nat) == b.int64_total(b.slot_count() as nat),
{
    lemma_total_is_fold(a, a.slot_count() as nat);
    lemma_total_is_fold(b, b.slot_count() as nat);
    vstd::seq_lib::lemma_fold_left_permutation(
        a.array->0.take(a.slot_count()),
        b.array->0.take(b.slot_count()),
        with_contribution(),
        Some(0int),
    );
}

/// Adds the contribution of one result to a total.
spec fn with_contribution() -> spec_fn(Option<int>, Option<ResultView>) -> Option<int> {
    |total: Option<int>, pg_result: Option<ResultView>|
        match (total, int64_of_result(pg_result)) {
            (Some(total), Some(value)) => Some(total + value),
            _ => None,
        }
}

proof fn lemma_total_is_fold(results: ResultsView, n: nat)
    requires
        results.valid(),
        results.array is Some,
        n <= results.slot_count(),
    ensures
        results.int64_total(n) == results.array->0.take(n as int).fold_left(
            Some(0int),
            with_contribution(),
        ),
    decreases n,
{
    let taken = results.array->0.take(n as int);
    if n > 0 {
        lemma_total_is_fold(results, (n - 1) as nat);
        assert(taken.drop_last() == results.array->0.take(n - 1));
    }
}

/// A result whose only field is read as a text contributes to a sum what that text denotes,
/// and a result that contributes a number has such a text or a NULL in its place.
pub proof fn law_single_value_agrees_with_sum(pg_result: Option<ResultView>)
    ensures
        single_text(pg_result) matches Ok(text) ==> int64_of_result(pg_result) == int64_of_text(text),
        int64_of_result(pg_result) matches Some(value) ==> {
            &&& dimensions(pg_result) == Ok::<_, ErrorView>((1int, 1int))
            &&& match field_text(pg_result, 0, 0) {
                Ok(Some(text)) => single_text(pg_result) == Ok::<_, ErrorView>(text)
                    && int64_of_text(text) == Some(value),
                Ok(None) => value == 0,
                Err(_) => false,
            }
        },
{
}

} // verus!
