//! What one segment answered.

use vstd::prelude::*;

verus! {

/// Values of the status that libpq reports for a result
///
/// These correspond to `ExecStatusType` of `libpq-fe.h`.
pub struct ExecStatusType;

impl ExecStatusType {
    /// Empty query string was executed
    pub const PGRES_EMPTY_QUERY: u32 = 0;

    /// A query command that doesn't return anything was executed properly
    pub const PGRES_COMMAND_OK: u32 = 1;

    /// A query command that returns tuples was executed properly
    pub const PGRES_TUPLES_OK: u32 = 2;

    /// Copy Out data transfer in progress
    pub const PGRES_COPY_OUT: u32 = 3;

    /// Copy In data transfer in progress
    pub const PGRES_COPY_IN: u32 = 4;

    /// An unexpected response was received from the backend
    pub const PGRES_BAD_RESPONSE: u32 = 5;

    /// Notice or warning message
    pub const PGRES_NONFATAL_ERROR: u32 = 6;

    /// Query failed
    pub const PGRES_FATAL_ERROR: u32 = 7;

    /// Copy In/Out data transfer in progress
    pub const PGRES_COPY_BOTH: u32 = 8;

    /// Single tuple from larger resultset
    pub const PGRES_SINGLE_TUPLE: u32 = 9;

    /// Pipeline synchronization point
    pub const PGRES_PIPELINE_SYNC: u32 = 10;

    /// Command didn't run because of an abort earlier in a pipeline
    pub const PGRES_PIPELINE_ABORTED: u32 = 11;
}

/// One field of a result
#[derive(Debug)]
pub enum PgField {
    /// The field is reported as NULL
    Null,
    /// The field is not reported as NULL, but there is no value to read
    NoValue,
    /// The bytes of the value, without a terminating zero byte
    Bytes(Vec<u8>),
}

/// What a field is in contracts.
pub enum FieldView {
    Null,
    NoValue,
    Bytes(Seq<u8>),
}

impl View for PgField {
    type V = FieldView;

    open spec fn view(&self) -> FieldView {
        match *self {
            PgField::Null => FieldView::Null,
            PgField::NoValue => FieldView::NoValue,
            PgField::Bytes(bytes) => FieldView::Bytes(bytes@),
        }
    }
}

/// A result of one segment: its status and its table of fields
#[derive(Debug)]
pub struct PgResult {
    status: u32,
    ntuples: i32,
    nfields: i32,
    rows: Vec<Vec<PgField>>,
}

/// What a result is in contracts.
pub struct ResultView {
    pub status: u32,
    pub nfields: int,
    pub rows: Seq<Seq<FieldView>>,
}

impl ResultView {
    /// The number of rows.
    pub open spec fn ntuples(self) -> int {
        self.rows.len() as int
    }

    /// The field at a place of the table; NULL outside the table.
    pub open spec fn field(self, row: int, col: int) -> FieldView {
        if 0 <= row < self.rows.len() && 0 <= col < self.nfields {
            self.rows[row][col]
        } else {
            FieldView::Null
        }
    }
}

/// The table that rows of fields stand for.
pub open spec fn rows_view(rows: Seq<Vec<PgField>>) -> Seq<Seq<FieldView>> {
    rows.map_values(|row: Vec<PgField>| row@.map_values(|field: PgField| field@))
}

/// What a result that may be missing is in contracts.
pub open spec fn optional_view(pg_result: Option<&PgResult>) -> Option<ResultView> {
    match pg_result {
        Some(result) => Some(result@),
        None => None,
    }
}

/// The status of a result that may be missing: a missing result is a fatal error.
pub open spec fn status_of(pg_result: Option<ResultView>) -> u32 {
    match pg_result {
        Some(result) => result.status,
        None => ExecStatusType::PGRES_FATAL_ERROR,
    }
}

impl View for PgResult {
    type V = ResultView;

    closed spec fn view(&self) -> ResultView {
        ResultView { status: self.status, nfields: self.nfields as int, rows: rows_view(self.rows@) }
    }
}

impl PgResult {
    /// The counts agree with the table.
    #[verifier::type_invariant]
    spec fn inv(self) -> bool {
        &&& self.ntuples == self.rows@.len()
        &&& forall|i: int| 0 <= i < self.rows@.len() ==> (#[trigger] self.rows@[i])@.len() == self.nfields
    }

    /// A result with the given status and rows of `nfields` fields each
    pub fn new(status: u32, nfields: i32, rows: Vec<Vec<PgField>>) -> (result: Self)
        requires
            0 <= nfields,
            rows@.len() <= i32::MAX,
            forall|i: int| 0 <= i < rows@.len() ==> (#[trigger] rows@[i])@.len() == nfields,
        ensures
            result@.status == status,
            result@.nfields == nfields,
            result@.rows == rows_view(rows@),
    {
        PgResult { status, ntuples: rows.len() as i32, nfields, rows }
    }

    /// The status of the result
    pub fn status(&self) -> (status: u32)
        ensures
            status == self@.status,
    {
        self.status
    }

    /// The number of rows
    pub fn ntuples(&self) -> (ntuples: i32)
        ensures
            ntuples == self@.ntuples(),
    {
        proof {
            use_type_invariant(self);
        }
        self.ntuples
    }

    /// The number of columns
    pub fn nfields(&self) -> (nfields: i32)
        ensures
            nfields == self@.nfields,
    {
        self.nfields
    }

    /// The field at a place of the table, where rows and columns are counted from zero;
    /// a place outside the table holds NULL
    pub fn field(&self, row: i32, col: i32) -> (field: &PgField)
        ensures
            field@ == self@.field(row as int, col as int),
    {
        proof {
            use_type_invariant(self);
        }
        if 0 <= row && row < self.ntuples && 0 <= col && col < self.nfields {
            &self.rows[row as usize][col as usize]
        } else {
            &PgField::Null
        }
    }
}

/// The status of a result that may be missing, which counts as a fatal error
pub fn result_status(pg_result: Option<&PgResult>) -> (status: u32)
    ensures
        status == status_of(optional_view(pg_result)),
{
    match pg_result {
        Some(result) => result.status(),
        None => ExecStatusType::PGRES_FATAL_ERROR,
    }
}

} // verus!
