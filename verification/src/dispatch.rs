//! # Cloudberry Database Dispatch Functions
//!
//! Cloudberry Database extends PostgreSQL with MPP (Massively Parallel Processing)
//! capabilities. The coordinator node uses dispatch functions to send query fragments
//! to segment nodes (Query Executors or QEs) for parallel execution.
//!
//! The functions here decide what is sent and what is made of the answer. Whoever talks to
//! the server hands a [`DispatchRequest`] to `CdbDispatchCommand` and hands the results back.

use vstd::prelude::*;
use vstd::utf8::{decode_utf8, encode_utf8, valid_utf8};

use crate::c_string::{
    c_string, c_string_bytes, has_nul, is_first_nul, law_c_string_gives_back_text,
    law_nul_byte_is_nul_character, nul_error,
};
use crate::error::{outcome, DispatchError, ErrorView};
use crate::flags::DispatchFlags;
use crate::managed::ManagedCdbPgResults;
use crate::results::CdbPgResults;
use crate::text::{text_of_utf8_lossy, utf8_lossy_text};

verus! {

/// The arguments of one call of `CdbDispatchCommand`
#[derive(Debug)]
pub struct DispatchRequest {
    command: Vec<u8>,
    flags: i32,
}

/// What a request is in contracts.
pub struct RequestView {
    pub command: Seq<u8>,
    pub flags: i32,
}

impl View for DispatchRequest {
    type V = RequestView;

    closed spec fn view(&self) -> RequestView {
        RequestView { command: self.command@, flags: self.flags }
    }
}

impl DispatchRequest {
    /// The SQL command as a C string, with its terminating zero byte
    pub fn command(&self) -> (command: &Vec<u8>)
        ensures
            command@ == self@.command,
    {
        &self.command
    }

    /// The raw flag value
    pub fn flags(&self) -> (flags: i32)
        ensures
            flags == self@.flags,
    {
        self.flags
    }
}

/// The request that a command is dispatched with, or the error if it cannot be sent.
pub open spec fn request_for(command: Seq<char>, flags: DispatchFlags) -> Result<
    RequestView,
    ErrorView,
> {
    if has_nul(command) {
        Err(ErrorView::NullByteInString(nul_error(command)))
    } else {
        Ok(RequestView { command: c_string_bytes(command), flags: flags@ })
    }
}

/// What a prepared request is in contracts.
pub open spec fn request_view(request: Result<DispatchRequest, DispatchError>) -> Result<
    RequestView,
    ErrorView,
> {
    match request {
        Ok(request) => Ok(request@),
        Err(e) => Err(e@),
    }
}

/// Prepare the dispatch of a SQL command to all primary writer segments
///
/// # Arguments
///
/// * `command` - The SQL command to dispatch to all segments
/// * `flags` - Dispatch flags controlling behavior
///
/// # Returns
///
/// * `Ok(DispatchRequest)` - what `CdbDispatchCommand` is to be called with; [`dispatched`]
///   says what its answer comes to
/// * `Err(DispatchError)` if the command contains a null byte, so that nothing can be sent
pub fn cdb_dispatch_command(command: &str, flags: DispatchFlags) -> (request: Result<
    DispatchRequest,
    DispatchError,
>)
    ensures
        request_view(request) == request_for(command@, flags),
{
    // Convert Rust string to C string
    match c_string(command) {
        Ok(c_command) => Ok(DispatchRequest { command: c_command, flags: flags.value() }),
        Err(e) => Err(DispatchError::from(e)),
    }
}

/// Conclude the dispatch of a SQL command with the answer of the segments
///
/// # Arguments
///
/// * `answer` - The results from all segments, or the error that the server raised
///
/// # Returns
///
/// * `Ok(ManagedCdbPgResults)` on successful dispatch with results from all segments
/// * `Err(DispatchError)` if an error occurs
pub fn dispatched(answer: Result<CdbPgResults, DispatchError>) -> (concluded: Result<
    ManagedCdbPgResults,
    DispatchError,
>)
    ensures
        match answer {
            Ok(results) => concluded matches Ok(managed) && managed@ == results,
            Err(e) => concluded == Err::<ManagedCdbPgResults, DispatchError>(e),
        },
{
    match answer {
        Ok(results) => Ok(ManagedCdbPgResults::new(results)),
        Err(e) => Err(e),
    }
}

/// The state of a batch of commands between two of them: what was answered so far
pub struct DispatchBatch {
    flags: DispatchFlags,
    results: Vec<ManagedCdbPgResults>,
}

/// A batch of commands that waits for the answer to a request
pub struct PendingDispatch {
    batch: DispatchBatch,
    request: DispatchRequest,
}

/// What a batch does next
pub enum BatchStep {
    /// Send a request and go on with its answer
    Send(PendingDispatch),
    /// The batch is over
    Return(Result<Vec<ManagedCdbPgResults>, DispatchError>),
}

/// What a batch is in contracts.
pub struct BatchView {
    pub flags: DispatchFlags,
    pub results: Seq<CdbPgResults>,
}

/// What a step is in contracts.
pub enum StepView {
    Send(RequestView, BatchView),
    Return(Result<Seq<CdbPgResults>, ErrorView>),
}

/// The results that a list of wrappers holds.
pub open spec fn all_results(results: Seq<ManagedCdbPgResults>) -> Seq<CdbPgResults> {
    results.map_values(|managed: ManagedCdbPgResults| managed@)
}

impl View for DispatchBatch {
    type V = BatchView;

    closed spec fn view(&self) -> BatchView {
        BatchView { flags: self.flags, results: all_results(self.results@) }
    }
}

impl View for BatchStep {
    type V = StepView;

    open spec fn view(&self) -> StepView {
        match *self {
            BatchStep::Send(pending) => StepView::Send(pending.request_spec(), pending.batch_spec()),
            BatchStep::Return(Ok(results)) => StepView::Return(Ok(all_results(results@))),
            BatchStep::Return(Err(e)) => StepView::Return(Err(e@)),
        }
    }
}

impl BatchView {
    /// What a batch does when it is given the next command, or told that there is none.
    pub open spec fn step(self, command: Option<Seq<char>>) -> StepView {
        match command {
            None => StepView::Return(Ok(self.results)),
            Some(command) => match request_for(command, self.flags) {
                Ok(request) => StepView::Send(request, self),
                Err(e) => StepView::Return(Err(e)),
            },
        }
    }

    /// The batch after one more answer; an error ends it.
    pub open spec fn answered(self, answer: Result<CdbPgResults, ErrorView>) -> Result<
        BatchView,
        ErrorView,
    > {
        match answer {
            Ok(results) => Ok(BatchView { flags: self.flags, results: self.results.push(results) }),
            Err(e) => Err(e),
        }
    }

    /// What a batch sends and returns in all, if it is given the commands one by one and
    /// its requests are answered one by one, each with results or with an error.
    pub open spec fn run(
        self,
        commands: Seq<Seq<char>>,
        answers: Seq<Result<CdbPgResults, ErrorView>>,
    ) -> (Seq<RequestView>, Result<Seq<CdbPgResults>, ErrorView>)
        decreases commands.len(),
    {
        if commands.len() == 0 {
            (Seq::empty(), self.step(None)->Return_0)
        } else {
            match self.step(Some(commands[0])) {
                StepView::Return(result) => (Seq::empty(), result),
                StepView::Send(request, batch) => match batch.answered(answers[0]) {
                    Err(e) => (seq![request], Err(e)),
                    Ok(batch) => {
                        let (sent, result) = batch.run(commands.drop_first(), answers.drop_first());
                        (seq![request] + sent, result)
                    },
                },
            }
        }
    }
}

/// What a batch that was given an answer is in contracts.
pub open spec fn batch_view(batch: Result<DispatchBatch, DispatchError>) -> Result<
    BatchView,
    ErrorView,
> {
    match batch {
        Ok(batch) => Ok(batch@),
        Err(e) => Err(e@),
    }
}

impl DispatchBatch {
    /// Decide what to do with the next command, or what to return if there is none
    ///
    /// If a command cannot be sent, the batch is over and the remaining commands are not
    /// processed.
    pub fn next(self, command: Option<&str>) -> (step: BatchStep)
        ensures
            step@ == self@.step(
                match command {
                    Some(command) => Some(command@),
                    None => None,
                },
            ),
    {
        match command {
            None => BatchStep::Return(Ok(self.results)),
            Some(command) => match cdb_dispatch_command(command, self.flags) {
                Ok(request) => BatchStep::Send(PendingDispatch { batch: self, request }),
                Err(e) => BatchStep::Return(Err(e)),
            },
        }
    }
}

impl PendingDispatch {
    /// The request that waits for its answer.
    pub closed spec fn request_spec(self) -> RequestView {
        self.request@
    }

    /// The batch that the answer goes to.
    pub closed spec fn batch_spec(self) -> BatchView {
        self.batch@
    }

    /// The request to send
    pub fn request(&self) -> (request: &DispatchRequest)
        ensures
            request@ == self.request_spec(),
    {
        &self.request
    }

    /// Take in the answer to the request
    ///
    /// If the dispatch failed, the batch is over with its error and the remaining commands
    /// are not processed.
    pub fn answered(self, answer: Result<CdbPgResults, DispatchError>) -> (batch: Result<
        DispatchBatch,
        DispatchError,
    >)
        ensures
            batch_view(batch) == self.batch_spec().answered(outcome(answer)),
            answer matches Err(e) ==> batch == Err::<DispatchBatch, DispatchError>(e),
    {
        let managed = match dispatched(answer) {
            Ok(managed) => managed,
            Err(e) => return Err(e),
        };
        let mut batch = self.batch;
        batch.results.push(managed);
        assert(batch@.results == self.batch@.results.push(answer->Ok_0));
        Ok(batch)
    }
}

/// Begin the dispatch of multiple commands in sequence
///
/// The commands are dispatched one after another, using the same flags for all commands.
/// If any command cannot be sent or its dispatch fails, the batch is over with an error and
/// the remaining commands are not processed.
///
/// # Arguments
///
/// * `flags` - Dispatch flags to use for all commands
pub fn cdb_dispatch_commands(flags: DispatchFlags) -> (batch: DispatchBatch)
    ensures
        batch@.flags == flags,
        batch@.results == Seq::<CdbPgResults>::empty(),
{
    DispatchBatch { flags, results: Vec::new() }
}

/// Extract the sum of int64 values from all segments of a dispatched command
///
/// It's useful for queries that return a single numeric value from each segment that
/// should be summed.
///
/// # Arguments
///
/// * `dispatched` - What the dispatch of a SQL command that returns a single int64 value
///   came to
///
/// # Returns
///
/// The sum of all int64 values returned from all segments
///
/// # Errors
///
/// Returns an error if:
/// - The dispatch fails
/// - Any segment returns a result that is not exactly 1 row, 1 column
/// - Any segment returns a non-numeric value
/// - The result cannot be parsed as an int64
pub fn get_int64_sum_from_segments(dispatched: Result<ManagedCdbPgResults, DispatchError>) -> (sum:
    Result<i64, DispatchError>)
    requires
        dispatched matches Ok(results) ==> results@@.valid() && results@@.int64_totals_fit(),
    ensures
        match dispatched {
            Ok(results) => results@@.sums_to(outcome(sum)),
            Err(e) => sum == Err::<i64, DispatchError>(e),
        },
{
    match dispatched {
        Ok(results) => results.extract_int64_sum(),
        Err(e) => Err(e),
    }
}

/// Get the current gp_role setting (for Cloudberry/Greenplum)
///
/// The gp_role GUC parameter indicates the node's role in the cluster.
///
/// # Arguments
///
/// * `setting` - The bytes of the parameter, without a terminating zero byte, if it is set
///
/// # Returns
///
/// * `Some(String)` - The gp_role value ("dispatch", "execute", "utility", etc.)
/// * `None` - If gp_role is not set (not running on Cloudberry/Greenplum)
pub fn get_gp_role(setting: Option<&[u8]>) -> (role: Option<String>)
    ensures
        match setting {
            Some(bytes) => {
                &&& role matches Some(role)
                &&& role@ == utf8_lossy_text(bytes@)
                &&& valid_utf8(bytes@) ==> role@ == decode_utf8(bytes@)
                &&& forall|text: Seq<char>|
                    !text.contains('\u{FFFD}') ==> (role@ == text <==> bytes@ == #[trigger] encode_utf8(
                        text,
                    ))
            },
            None => role is None,
        },
{
    match setting {
        Some(bytes) => {
            let role = text_of_utf8_lossy(bytes);
            assert forall|text: Seq<char>| !text.contains('\u{FFFD}') implies (role@ == text
                <==> bytes@ == #[trigger] encode_utf8(text)) by {
                vstd::utf8::encode_utf8_valid_utf8(text);
                vstd::utf8::encode_utf8_decode_utf8(text);
                if valid_utf8(bytes@) {
                    vstd::utf8::decode_utf8_encode_utf8(bytes@);
                }
            }
            Some(role)
        },
        None => None,
    }
}

/// A node with this role is a coordinator.
pub open spec fn coordinates(role: Option<String>) -> bool {
    role matches Some(role) && role@ == "dispatch"@
}

/// Check if running on Cloudberry/Greenplum coordinator node
///
/// # Arguments
///
/// * `role` - The gp_role of the node
///
/// # Returns
///
/// `true` if running on coordinator (gp_role = "dispatch"), `false` otherwise
pub fn is_coordinator(role: &Option<String>) -> (coordinator: bool)
    ensures
        coordinator == coordinates(*role),
{
    match role {
        Some(role) => *role == "dispatch".to_string(),
        None => false,
    }
}

/// Prepare the dispatch of a command only if we're on a coordinator node
///
/// # Arguments
///
/// * `role` - The gp_role of the node
/// * `command` - SQL command to dispatch
/// * `flags` - Dispatch flags
///
/// # Returns
///
/// * `Some(Result)` if in dispatch mode - contains the request to send or the error;
///   [`dispatched`] says what the answer to the request comes to
/// * `None` if not in dispatch mode (e.g., running on a segment)
pub fn dispatch_if_coordinator(
    role: &Option<String>,
    command: &str,
    flags: DispatchFlags,
) -> (request: Option<Result<DispatchRequest, DispatchError>>)
    ensures
        match request {
            Some(request) => coordinates(*role) && request_view(request) == request_for(
                command@,
                flags,
            ),
            None => !coordinates(*role),
        },
{
    if is_coordinator(role) {
        Some(cdb_dispatch_command(command, flags))
    } else {
        None
    }
}

/// A request carries the command and the flags unchanged: the bytes up to the first zero
/// byte, which is the last byte, give back the command. A command is refused exactly if it
/// holds the character `\0`.
pub proof fn law_request_carries_command(command: Seq<char>, flags: DispatchFlags)
    ensures
        request_for(command, flags) is Err <==> command.contains('\0'),
        request_for(command, flags) matches Ok(request) ==> {
            &&& is_first_nul(request.command, request.command.len() - 1)
            &&& decode_utf8(request.command.drop_last()) == command
            &&& request.flags == flags@
        },
{
    law_nul_byte_is_nul_character(command);
    if !has_nul(command) {
        law_c_string_gives_back_text(command);
    }
}

/// The requests that commands without a zero byte are dispatched with.
pub open spec fn requests_for(commands: Seq<Seq<char>>, flags: DispatchFlags) -> Seq<RequestView> {
    commands.map_values(|command: Seq<char>| request_for(command, flags)->Ok_0)
}

/// The first request and the requests after it.
proof fn lemma_requests_split(commands: Seq<Seq<char>>, flags: DispatchFlags)
    requires
        commands.len() > 0,
        !has_nul(commands[0]),
    ensures
        requests_for(commands, flags) == seq![request_for(commands[0], flags)->Ok_0] + requests_for(
            commands.drop_first(),
            flags,
        ),
{
}

/// If every command can be sent and every dispatch succeeds, a batch sends all commands in
/// order with its flags, and returns the results in the same order.
pub proof fn law_batch_sends_every_command(
    batch: BatchView,
    commands: Seq<Seq<char>>,
    answers: Seq<Result<CdbPgResults, ErrorView>>,
)
    requires
        forall|i: int| 0 <= i < commands.len() ==> !has_nul(#[trigger] commands[i]),
        answers.len() == commands.len(),
        forall|i: int| 0 <= i < answers.len() ==> (#[trigger] answers[i]) is Ok,
    ensures
        batch.run(commands, answers).0 == requests_for(commands, batch.flags),
        batch.run(commands, answers).1 == Ok::<_, ErrorView>(
            batch.results + answers.map_values(
                |answer: Result<CdbPgResults, ErrorView>| answer->Ok_0,
            ),
        ),
    decreases commands.len(),
{
    let results = |answer: Result<CdbPgResults, ErrorView>| answer->Ok_0;
    if commands.len() > 0 {
        assert(!has_nul(commands[0]));
        assert(answers[0] is Ok);
        let next = batch.answered(answers[0])->Ok_0;
        law_batch_sends_every_command(next, commands.drop_first(), answers.drop_first());
        lemma_requests_split(commands, batch.flags);
        assert(next.results + answers.drop_first().map_values(results) == batch.results
            + answers.map_values(results));
    } else {
        assert(requests_for(commands, batch.flags) == Seq::<RequestView>::empty());
        assert(batch.results + answers.map_values(results) == batch.results);
    }
}

/// If a command cannot be sent, a batch sends the commands before it and no other, and
/// returns the error of that command.
pub proof fn law_batch_stops_at_refused_command(
    batch: BatchView,
    commands: Seq<Seq<char>>,
    answers: Seq<Result<CdbPgResults, ErrorView>>,
    failing: int,
)
    requires
        0 <= failing < commands.len(),
        has_nul(commands[failing]),
        forall|i: int| 0 <= i < failing ==> !has_nul(#[trigger] commands[i]),
        failing <= answers.len(),
        forall|i: int| 0 <= i < failing ==> (#[trigger] answers[i]) is Ok,
    ensures
        batch.run(commands, answers).0 == requests_for(commands.take(failing), batch.flags),
        batch.run(commands, answers).1 == Err::<Seq<CdbPgResults>, _>(
            ErrorView::NullByteInString(nul_error(commands[failing])),
        ),
    decreases commands.len(),
{
    let sent = commands.take(failing);
    if failing > 0 {
        assert(!has_nul(commands[0]));
        assert(answers[0] is Ok);
        let next = batch.answered(answers[0])->Ok_0;
        law_batch_stops_at_refused_command(
            next,
            commands.drop_first(),
            answers.drop_first(),
            failing - 1,
        );
        lemma_requests_split(sent, batch.flags);
        assert(sent.drop_first() == commands.drop_first().take(failing - 1));
    } else {
        assert(requests_for(sent, batch.flags) == Seq::<RequestView>::empty());
    }
}

/// If the dispatch of a command fails, a batch has sent the commands up to that one and
/// sends no other, and returns the error of the dispatch.
pub proof fn law_batch_stops_at_failed_answer(
    batch: BatchView,
    commands: Seq<Seq<char>>,
    answers: Seq<Result<CdbPgResults, ErrorView>>,
    failing: int,
)
    requires
        0 <= failing < commands.len(),
        forall|i: int| 0 <= i <= failing ==> !has_nul(#[trigger] commands[i]),
        failing < answers.len(),
        forall|i: int| 0 <= i < failing ==> (#[trigger] answers[i]) is Ok,
        answers[failing] is Err,
    ensures
        batch.run(commands, answers).0 == requests_for(commands.take(failing + 1), batch.flags),
        batch.run(commands, answers).1 == Err::<Seq<CdbPgResults>, _>(answers[failing]->Err_0),
    decreases commands.len(),
{
    let sent = commands.take(failing + 1);
    assert(!has_nul(commands[0]));
    lemma_requests_split(sent, batch.flags);
    if failing > 0 {
        assert(answers[0] is Ok);
        let next = batch.answered(answers[0])->Ok_0;
        law_batch_stops_at_failed_answer(
            next,
            commands.drop_first(),
            answers.drop_first(),
            failing - 1,
        );
        assert(sent.drop_first() == commands.drop_first().take(failing));
    } else {
        assert(requests_for(sent.drop_first(), batch.flags) == Seq::<RequestView>::empty());
    }
}

} // verus!
