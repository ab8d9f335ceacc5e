//! The errors of the library. Each error has a view, which holds its texts
//! as sequences of characters, and a message, which `to_string` renders.
use crate::diff::is_mismatch_report;
use crate::render::debug_of_texts;
use crate::render::debug_texts;
use crate::text::decimal;
use crate::text::push_decimal;
use crate::text::push_signed_decimal;
use crate::text::push_text;
use crate::text::signed_decimal;
use crate::text::texts_of;
use vstd::prelude::*;

verus! {

/// Where in a run a step failed.
#[derive(Debug, Clone, Copy)]
pub enum StepContext {
    /// In a replay: the trace and the state within it, both counted from 0.
    Replay { trace: usize, state: usize },
    /// In an interactive run: the run and the step within it, both counted
    /// from 0.
    Rpc { run: usize, step: usize },
}

impl StepContext {
    /// The text that names the place.
    pub open spec fn message(self) -> Seq<char> {
        match self {
            StepContext::Replay { trace, state } => "Trace "@ + decimal(trace as nat) + ", state "@
                + decimal(state as nat),
            StepContext::Rpc { run, step } => "Run "@ + decimal(run as nat) + ", step "@ + decimal(
                step as nat,
            ),
        }
    }

    /// The text that names the place.
    pub fn to_string(&self) -> (s: String)
        ensures
            s@ == self.message(),
    {
        let mut s = String::new();
        match self {
            StepContext::Replay { trace, state } => {
                push_text(&mut s, "Trace ");
                push_decimal(&mut s, *trace as u64);
                push_text(&mut s, ", state ");
                push_decimal(&mut s, *state as u64);
            },
            StepContext::Rpc { run, step } => {
                push_text(&mut s, "Run ");
                push_decimal(&mut s, *run as u64);
                push_text(&mut s, ", step ");
                push_decimal(&mut s, *step as u64);
            },
        }
        assert(s@ =~= self.message());
        s
    }
}

/// A directory that could not be listed.
#[derive(Debug)]
pub struct DirectoryReadError {
    /// The directory's path.
    pub path: String,
    /// What went wrong, in the system's words.
    pub reason: String,
}

/// What a [`DirectoryReadError`] holds, with its texts as sequences of
/// characters.
pub struct DirectoryReadErrorView {
    pub path: Seq<char>,
    pub reason: Seq<char>,
}

impl View for DirectoryReadError {
    type V = DirectoryReadErrorView;

    open spec fn view(&self) -> DirectoryReadErrorView {
        DirectoryReadErrorView { path: self.path@, reason: self.reason@ }
    }
}

impl DirectoryReadErrorView {
    /// The text that describes the error.
    pub open spec fn message(self) -> Seq<char> {
        "Failed to read directory "@ + self.path + ": "@ + self.reason
    }
}

impl DirectoryReadError {
    /// The text that describes the error.
    pub fn to_string(&self) -> (s: String)
        ensures
            s@ == self@.message(),
    {
        let mut s = String::new();
        push_text(&mut s, "Failed to read directory ");
        push_text(&mut s, self.path.as_str());
        push_text(&mut s, ": ");
        push_text(&mut s, self.reason.as_str());
        assert(s@ =~= self@.message());
        s
    }
}

/// How `{:?}` writes an exit code that may be absent.
pub open spec fn exit_code_text(code: Option<i32>) -> Seq<char> {
    match code {
        Some(c) => "Some("@ + signed_decimal(c as int) + ")"@,
        None => "None"@,
    }
}

fn push_exit_code(s: &mut String, code: Option<i32>)
    ensures
        final(s)@ == old(s)@ + exit_code_text(code),
{
    match code {
        Some(c) => {
            push_text(s, "Some(");
            push_signed_decimal(s, c as i64);
            push_text(s, ")");
        },
        None => {
            push_text(s, "None");
        },
    }
    assert(s@ =~= old(s)@ + exit_code_text(code));
}

/// How `{:?}` writes a duration of `millis` milliseconds.
pub uninterp spec fn duration_text(millis: u64) -> Seq<char>;

/// The text that `format!("{:?}", ..)` gives for
/// `Duration::from_millis(millis)`. The text depends on the number of
/// milliseconds alone.
#[verifier::external_body]
fn duration_debug(millis: u64) -> (s: String)
    ensures
        s@ == duration_text(millis),
{
    format!("{:?}", std::time::Duration::from_millis(millis))
}

/// An error that a driver reports for one step.
#[derive(Debug)]
#[non_exhaustive]
pub enum DriverError {
    /// The step names an action that the driver does not know.
    UnknownAction(String),
    /// The action is known and could not be carried out.
    ActionFailed { action: String, reason: String },
    /// The comparable state could not be read.
    StateExtraction(String),
}

/// What a [`DriverError`] holds, with its texts as sequences of characters.
pub enum DriverErrorView {
    UnknownAction(Seq<char>),
    ActionFailed { action: Seq<char>, reason: Seq<char> },
    StateExtraction(Seq<char>),
}

impl View for DriverError {
    type V = DriverErrorView;

    open spec fn view(&self) -> DriverErrorView {
        match self {
            DriverError::UnknownAction(e) => DriverErrorView::UnknownAction(e@),
            DriverError::ActionFailed { action, reason } => DriverErrorView::ActionFailed {
                action: action@,
                reason: reason@,
            },
            DriverError::StateExtraction(e) => DriverErrorView::StateExtraction(e@),
        }
    }
}

impl DriverErrorView {
    /// The text that describes the error.
    pub open spec fn message(self) -> Seq<char> {
        match self {
            DriverErrorView::UnknownAction(e) => "Unknown action: "@ + e,
            DriverErrorView::ActionFailed { action, reason } => "Action '"@ + action
                + "' failed: "@ + reason,
            DriverErrorView::StateExtraction(e) => "Failed to extract state: "@ + e,
        }
    }
}

impl DriverError {
    /// The text that describes the error.
    pub fn to_string(&self) -> (s: String)
        ensures
            s@ == self@.message(),
    {
        let mut s = String::new();
        match self {
            DriverError::UnknownAction(e) => {
                push_text(&mut s, "Unknown action: ");
                push_text(&mut s, e.as_str());
            },
            DriverError::ActionFailed { action, reason } => {
                push_text(&mut s, "Action '");
                push_text(&mut s, action.as_str());
                push_text(&mut s, "' failed: ");
                push_text(&mut s, reason.as_str());
            },
            DriverError::StateExtraction(e) => {
                push_text(&mut s, "Failed to extract state: ");
                push_text(&mut s, e.as_str());
            },
        }
        assert(s@ =~= self@.message());
        s
    }
}

/// A failure at one step, in a replay or in an interactive run.
#[derive(Debug)]
pub enum StepError {
    /// The driver refused the action.
    StepExecution { context: StepContext, action: String, reason: String },
    /// The state of the specification could not be read.
    SpecDeserialize { context: StepContext, reason: String },
    /// The state of the driver could not be read.
    DriverStateExtraction { context: StepContext, reason: String },
    /// The two states differ.
    StateMismatch { context: StepContext, action: String, diff: String },
}

/// What a [`StepError`] holds, with its texts as sequences of characters.
pub enum StepErrorView {
    StepExecution { context: StepContext, action: Seq<char>, reason: Seq<char> },
    SpecDeserialize { context: StepContext, reason: Seq<char> },
    DriverStateExtraction { context: StepContext, reason: Seq<char> },
    StateMismatch { context: StepContext, action: Seq<char>, diff: Seq<char> },
}

impl View for StepError {
    type V = StepErrorView;

    open spec fn view(&self) -> StepErrorView {
        match self {
            StepError::StepExecution { context, action, reason } => StepErrorView::StepExecution {
                context: *context,
                action: action@,
                reason: reason@,
            },
            StepError::SpecDeserialize { context, reason } => StepErrorView::SpecDeserialize {
                context: *context,
                reason: reason@,
            },
            StepError::DriverStateExtraction { context, reason } => StepErrorView::DriverStateExtraction {
                context: *context,
                reason: reason@,
            },
            StepError::StateMismatch { context, action, diff } => StepErrorView::StateMismatch {
                context: *context,
                action: action@,
                diff: diff@,
            },
        }
    }
}

impl StepErrorView {
    /// The text that describes the error.
    pub open spec fn message(self) -> Seq<char> {
        match self {
            StepErrorView::StepExecution { context, action, reason } => context.message()
                + ": failed to execute action '"@ + action + "': "@ + reason,
            StepErrorView::SpecDeserialize { context, reason } => context.message()
                + ": failed to deserialize spec state: "@ + reason,
            StepErrorView::DriverStateExtraction { context, reason } => context.message()
                + ": failed to extract driver state: "@ + reason,
            StepErrorView::StateMismatch { context, action, diff } => "State mismatch at "@
                + context.message() + " (action: '"@ + action + "'):\n"@ + diff,
        }
    }
}

impl StepError {
    /// The text that describes the error.
    pub fn to_string(&self) -> (s: String)
        ensures
            s@ == self@.message(),
    {
        let mut s = String::new();
        match self {
            StepError::StepExecution { context, action, reason } => {
                let inner = context.to_string();
                push_text(&mut s, inner.as_str());
                push_text(&mut s, ": failed to execute action '");
                push_text(&mut s, action.as_str());
                push_text(&mut s, "': ");
                push_text(&mut s, reason.as_str());
            },
            StepError::SpecDeserialize { context, reason } => {
                let inner = context.to_string();
                push_text(&mut s, inner.as_str());
                push_text(&mut s, ": failed to deserialize spec state: ");
                push_text(&mut s, reason.as_str());
            },
            StepError::DriverStateExtraction { context, reason } => {
                let inner = context.to_string();
                push_text(&mut s, inner.as_str());
                push_text(&mut s, ": failed to extract driver state: ");
                push_text(&mut s, reason.as_str());
            },
            StepError::StateMismatch { context, action, diff } => {
                push_text(&mut s, "State mismatch at ");
                let inner = context.to_string();
                push_text(&mut s, inner.as_str());
                push_text(&mut s, " (action: '");
                push_text(&mut s, action.as_str());
                push_text(&mut s, "'):\n");
                push_text(&mut s, diff.as_str());
            },
        }
        assert(s@ =~= self@.message());
        s
    }
}

/// An error of a replay that is not tied to a driver's step.
#[derive(Debug)]
#[non_exhaustive]
pub enum ReplayError {
    /// The action or the nondeterministic picks could not be read from a state.
    MbtVarExtraction { trace: usize, state: usize, reason: String },
    /// A state is no record.
    InvalidStateType { found: String },
    /// The text is no trace.
    Parse(String),
    /// The directory of traces could not be read.
    DirectoryRead(DirectoryReadError),
}

/// What a [`ReplayError`] holds, with its texts as sequences of characters.
pub enum ReplayErrorView {
    MbtVarExtraction { trace: usize, state: usize, reason: Seq<char> },
    InvalidStateType { found: Seq<char> },
    Parse(Seq<char>),
    DirectoryRead(DirectoryReadErrorView),
}

impl View for ReplayError {
    type V = ReplayErrorView;

    open spec fn view(&self) -> ReplayErrorView {
        match self {
            ReplayError::MbtVarExtraction { trace, state, reason } => ReplayErrorView::MbtVarExtraction {
                trace: *trace,
                state: *state,
                reason: reason@,
            },
            ReplayError::InvalidStateType { found } => ReplayErrorView::InvalidStateType {
                found: found@,
            },
            ReplayError::Parse(e) => ReplayErrorView::Parse(e@),
            ReplayError::DirectoryRead(e) => ReplayErrorView::DirectoryRead(e@),
        }
    }
}

impl ReplayErrorView {
    /// The text that describes the error.
    pub open spec fn message(self) -> Seq<char> {
        match self {
            ReplayErrorView::MbtVarExtraction { trace, state, reason } => "Trace "@
                + decimal(trace as nat) + ", state "@ + decimal(state as nat)
                + ": failed to extract MBT vars: "@ + reason,
            ReplayErrorView::InvalidStateType { found } =>
                "Expected ITF state to be a Record, got: "@ + found,
            ReplayErrorView::Parse(e) => "Failed to parse ITF trace: "@ + e,
            ReplayErrorView::DirectoryRead(e) => e.message(),
        }
    }
}

impl ReplayError {
    /// The text that describes the error.
    pub fn to_string(&self) -> (s: String)
        ensures
            s@ == self@.message(),
    {
        let mut s = String::new();
        match self {
            ReplayError::MbtVarExtraction { trace, state, reason } => {
                push_text(&mut s, "Trace ");
                push_decimal(&mut s, *trace as u64);
                push_text(&mut s, ", state ");
                push_decimal(&mut s, *state as u64);
                push_text(&mut s, ": failed to extract MBT vars: ");
                push_text(&mut s, reason.as_str());
            },
            ReplayError::InvalidStateType { found } => {
                push_text(&mut s, "Expected ITF state to be a Record, got: ");
                push_text(&mut s, found.as_str());
            },
            ReplayError::Parse(e) => {
                push_text(&mut s, "Failed to parse ITF trace: ");
                push_text(&mut s, e.as_str());
            },
            ReplayError::DirectoryRead(e) => {
                let inner = e.to_string();
                push_text(&mut s, inner.as_str());
            },
        }
        assert(s@ =~= self@.message());
        s
    }
}

/// An error of a configuration builder.
#[derive(Debug)]
#[non_exhaustive]
pub enum BuilderError {
    /// A field without a default was never set.
    MissingRequiredField { builder: &'static str, field: &'static str },
}

/// What a [`BuilderError`] holds, with its texts as sequences of characters.
pub enum BuilderErrorView {
    MissingRequiredField { builder: Seq<char>, field: Seq<char> },
}

impl View for BuilderError {
    type V = BuilderErrorView;

    open spec fn view(&self) -> BuilderErrorView {
        match self {
            BuilderError::MissingRequiredField { builder, field } => BuilderErrorView::MissingRequiredField {
                builder: builder@,
                field: field@,
            },
        }
    }
}

impl BuilderErrorView {
    /// The text that describes the error.
    pub open spec fn message(self) -> Seq<char> {
        match self {
            BuilderErrorView::MissingRequiredField { builder, field } => "Required field '"@
                + field + "' was not set on "@ + builder,
        }
    }
}

impl BuilderError {
    /// The text that describes the error.
    pub fn to_string(&self) -> (s: String)
        ensures
            s@ == self@.message(),
    {
        let mut s = String::new();
        match self {
            BuilderError::MissingRequiredField { builder, field } => {
                push_text(&mut s, "Required field '");
                push_text(&mut s, field);
                push_text(&mut s, "' was not set on ");
                push_text(&mut s, builder);
            },
        }
        assert(s@ =~= self@.message());
        s
    }
}

/// A failed run of the model checker.
#[derive(Debug)]
#[non_exhaustive]
pub enum ApalacheError {
    /// The model checker ended with an exit code that stands for an error.
    Execution { exit_code: Option<i32>, message: String },
    /// The model checker could not be started.
    NotFound(String),
    /// The model checker ran longer than allowed: the limit, in milliseconds.
    Timeout { millis: u64 },
}

/// What an [`ApalacheError`] holds, with its texts as sequences of characters.
pub enum ApalacheErrorView {
    Execution { exit_code: Option<i32>, message: Seq<char> },
    NotFound(Seq<char>),
    Timeout { millis: u64 },
}

impl View for ApalacheError {
    type V = ApalacheErrorView;

    open spec fn view(&self) -> ApalacheErrorView {
        match self {
            ApalacheError::Execution { exit_code, message } => ApalacheErrorView::Execution {
                exit_code: *exit_code,
                message: message@,
            },
            ApalacheError::NotFound(e) => ApalacheErrorView::NotFound(e@),
            ApalacheError::Timeout { millis } => ApalacheErrorView::Timeout {
                millis: *millis,
            },
        }
    }
}

impl ApalacheErrorView {
    /// The text that describes the error.
    pub open spec fn message(self) -> Seq<char> {
        match self {
            ApalacheErrorView::Execution { exit_code, message } => "Apalache failed (exit code: "@
                + exit_code_text(exit_code) + "): "@ + message,
            ApalacheErrorView::NotFound(e) =>
                "Failed to execute Apalache. Is it installed and on PATH? "@ + e,
            ApalacheErrorView::Timeout { millis } => "Apalache timed out after "@
                + duration_text(millis),
        }
    }
}

impl ApalacheError {
    /// The text that describes the error.
    pub fn to_string(&self) -> (s: String)
        ensures
            s@ == self@.message(),
    {
        let mut s = String::new();
        match self {
            ApalacheError::Execution { exit_code, message } => {
                push_text(&mut s, "Apalache failed (exit code: ");
                push_exit_code(&mut s, *exit_code);
                push_text(&mut s, "): ");
                push_text(&mut s, message.as_str());
            },
            ApalacheError::NotFound(e) => {
                push_text(&mut s, "Failed to execute Apalache. Is it installed and on PATH? ");
                push_text(&mut s, e.as_str());
            },
            ApalacheError::Timeout { millis } => {
                push_text(&mut s, "Apalache timed out after ");
                let lasted = duration_debug(*millis);
                push_text(&mut s, lasted.as_str());
            },
        }
        assert(s@ =~= self@.message());
        s
    }
}

/// An error while traces are generated.
#[derive(Debug)]
#[non_exhaustive]
pub enum TraceGenError {
    /// The specification file does not exist.
    SpecNotFound(String),
    /// No temporary directory could be made.
    TempDir(String),
    /// The model checker failed.
    Apalache(ApalacheError),
    /// The model checker left no trace in its output directory.
    NoTracesFound(String),
    /// A trace file could not be read as a trace.
    TraceParse { path: String, reason: String },
    /// The output directory could not be read.
    DirectoryRead(DirectoryReadError),
}

/// What a [`TraceGenError`] holds, with its texts as sequences of characters.
pub enum TraceGenErrorView {
    SpecNotFound(Seq<char>),
    TempDir(Seq<char>),
    Apalache(ApalacheErrorView),
    NoTracesFound(Seq<char>),
    TraceParse { path: Seq<char>, reason: Seq<char> },
    DirectoryRead(DirectoryReadErrorView),
}

impl View for TraceGenError {
    type V = TraceGenErrorView;

    open spec fn view(&self) -> TraceGenErrorView {
        match self {
            TraceGenError::SpecNotFound(e) => TraceGenErrorView::SpecNotFound(e@),
            TraceGenError::TempDir(e) => TraceGenErrorView::TempDir(e@),
            TraceGenError::Apalache(e) => TraceGenErrorView::Apalache(e@),
            TraceGenError::NoTracesFound(e) => TraceGenErrorView::NoTracesFound(e@),
            TraceGenError::TraceParse { path, reason } => TraceGenErrorView::TraceParse {
                path: path@,
                reason: reason@,
            },
            TraceGenError::DirectoryRead(e) => TraceGenErrorView::DirectoryRead(e@),
        }
    }
}

impl TraceGenErrorView {
    /// The text that describes the error.
    pub open spec fn message(self) -> Seq<char> {
        match self {
            TraceGenErrorView::SpecNotFound(e) => "TLA+ spec not found: "@ + e,
            TraceGenErrorView::TempDir(e) => "Failed to create temp directory: "@ + e,
            TraceGenErrorView::Apalache(e) => e.message(),
            TraceGenErrorView::NoTracesFound(e) =>
                "No ITF traces found in Apalache output directory: "@ + e,
            TraceGenErrorView::TraceParse { path, reason } => "Failed to parse ITF trace "@ + path
                + ": "@ + reason,
            TraceGenErrorView::DirectoryRead(e) => e.message(),
        }
    }
}

impl TraceGenError {
    /// The text that describes the error.
    pub fn to_string(&self) -> (s: String)
        ensures
            s@ == self@.message(),
    {
        let mut s = String::new();
        match self {
            TraceGenError::SpecNotFound(e) => {
                push_text(&mut s, "TLA+ spec not found: ");
                push_text(&mut s, e.as_str());
            },
            TraceGenError::TempDir(e) => {
                push_text(&mut s, "Failed to create temp directory: ");
                push_text(&mut s, e.as_str());
            },
            TraceGenError::Apalache(e) => {
                let inner = e.to_string();
                push_text(&mut s, inner.as_str());
            },
            TraceGenError::NoTracesFound(e) => {
                push_text(&mut s, "No ITF traces found in Apalache output directory: ");
                push_text(&mut s, e.as_str());
            },
            TraceGenError::TraceParse { path, reason } => {
                push_text(&mut s, "Failed to parse ITF trace ");
                push_text(&mut s, path.as_str());
                push_text(&mut s, ": ");
                push_text(&mut s, reason.as_str());
            },
            TraceGenError::DirectoryRead(e) => {
                let inner = e.to_string();
                push_text(&mut s, inner.as_str());
            },
        }
        assert(s@ =~= self@.message());
        s
    }
}

/// An error of the conversation with the symbolic-execution server.
#[derive(Debug)]
#[non_exhaustive]
pub enum RpcError {
    /// The HTTP client could not be made.
    ClientCreation(String),
    /// The request could not be sent or completed.
    RequestFailed { url: String, reason: String },
    /// The response is no envelope.
    ResponseParse(String),
    /// The server answered a call of `method` with an error.
    JsonRpc { method: String, code: i64, message: String },
    /// The response holds neither an error nor a result.
    MissingResult,
    /// The result does not have the shape that the method promises.
    ResultDeserialize(String),
    /// The specification file does not exist.
    SpecNotFound(String),
    /// A specification file could not be read.
    SpecRead { path: String, reason: String },
    /// The initial transition is disabled.
    InitDisabled { run: usize },
    /// The constraints on the constants cannot be met.
    ConstantsUnsatisfiable { run: usize },
    /// The queried trace has no state.
    EmptyTrace,
    /// The queried trace has no list of states.
    MissingStates,
    /// A queried state is no value of the trace format.
    StateConversion(String),
}

/// What a [`RpcError`] holds, with its texts as sequences of characters.
pub enum RpcErrorView {
    ClientCreation(Seq<char>),
    RequestFailed { url: Seq<char>, reason: Seq<char> },
    ResponseParse(Seq<char>),
    JsonRpc { method: Seq<char>, code: i64, message: Seq<char> },
    MissingResult,
    ResultDeserialize(Seq<char>),
    SpecNotFound(Seq<char>),
    SpecRead { path: Seq<char>, reason: Seq<char> },
    InitDisabled { run: usize },
    ConstantsUnsatisfiable { run: usize },
    EmptyTrace,
    MissingStates,
    StateConversion(Seq<char>),
}

impl View for RpcError {
    type V = RpcErrorView;

    open spec fn view(&self) -> RpcErrorView {
        match self {
            RpcError::ClientCreation(e) => RpcErrorView::ClientCreation(e@),
            RpcError::RequestFailed { url, reason } => RpcErrorView::RequestFailed {
                url: url@,
                reason: reason@,
            },
            RpcError::ResponseParse(e) => RpcErrorView::ResponseParse(e@),
            RpcError::JsonRpc { method, code, message } => RpcErrorView::JsonRpc {
                method: method@,
                code: *code,
                message: message@,
            },
            RpcError::MissingResult => RpcErrorView::MissingResult,
            RpcError::ResultDeserialize(e) => RpcErrorView::ResultDeserialize(e@),
            RpcError::SpecNotFound(e) => RpcErrorView::SpecNotFound(e@),
            RpcError::SpecRead { path, reason } => RpcErrorView::SpecRead {
                path: path@,
                reason: reason@,
            },
            RpcError::InitDisabled { run } => RpcErrorView::InitDisabled {
                run: *run,
            },
            RpcError::ConstantsUnsatisfiable { run } => RpcErrorView::ConstantsUnsatisfiable {
                run: *run,
            },
            RpcError::EmptyTrace => RpcErrorView::EmptyTrace,
            RpcError::MissingStates => RpcErrorView::MissingStates,
            RpcError::StateConversion(e) => RpcErrorView::StateConversion(e@),
        }
    }
}

impl RpcErrorView {
    /// The text that describes the error.
    pub open spec fn message(self) -> Seq<char> {
        match self {
            RpcErrorView::ClientCreation(e) => "Failed to create HTTP client: "@ + e,
            RpcErrorView::RequestFailed { url, reason } => "Failed to send request to "@ + url
                + ". Is the Apalache server running? "@ + reason,
            RpcErrorView::ResponseParse(e) => "Failed to parse JSON-RPC response: "@ + e,
            RpcErrorView::JsonRpc { method, code, message } => "Apalache JSON-RPC error "@
                + signed_decimal(code as int) + " in "@ + method + ": "@ + message,
            RpcErrorView::MissingResult => "JSON-RPC response missing 'result' field"@,
            RpcErrorView::ResultDeserialize(e) => "Failed to deserialize JSON-RPC result: "@ + e,
            RpcErrorView::SpecNotFound(e) => "Spec file not found: "@ + e,
            RpcErrorView::SpecRead { path, reason } => "Failed to read spec file "@ + path + ": "@
                + reason,
            RpcErrorView::InitDisabled { run } => "Run "@ + decimal(run as nat)
                + ": Init transition is disabled"@,
            RpcErrorView::ConstantsUnsatisfiable { run } => "Run "@ + decimal(run as nat)
                + ": Constant constraints are unsatisfiable"@,
            RpcErrorView::EmptyTrace => "Trace has no states"@,
            RpcErrorView::MissingStates => "Trace missing 'states' array"@,
            RpcErrorView::StateConversion(e) => "Failed to convert state to ITF Value: "@ + e,
        }
    }
}

impl RpcError {
    /// The text that describes the error.
    pub fn to_string(&self) -> (s: String)
        ensures
            s@ == self@.message(),
    {
        let mut s = String::new();
        match self {
            RpcError::ClientCreation(e) => {
                push_text(&mut s, "Failed to create HTTP client: ");
                push_text(&mut s, e.as_str());
            },
            RpcError::RequestFailed { url, reason } => {
                push_text(&mut s, "Failed to send request to ");
                push_text(&mut s, url.as_str());
                push_text(&mut s, ". Is the Apalache server running? ");
                push_text(&mut s, reason.as_str());
            },
            RpcError::ResponseParse(e) => {
                push_text(&mut s, "Failed to parse JSON-RPC response: ");
                push_text(&mut s, e.as_str());
            },
            RpcError::JsonRpc { method, code, message } => {
                push_text(&mut s, "Apalache JSON-RPC error ");
                push_signed_decimal(&mut s, *code);
                push_text(&mut s, " in ");
                push_text(&mut s, method.as_str());
                push_text(&mut s, ": ");
                push_text(&mut s, message.as_str());
            },
            RpcError::MissingResult => {
                push_text(&mut s, "JSON-RPC response missing 'result' field");
            },
            RpcError::ResultDeserialize(e) => {
                push_text(&mut s, "Failed to deserialize JSON-RPC result: ");
                push_text(&mut s, e.as_str());
            },
            RpcError::SpecNotFound(e) => {
                push_text(&mut s, "Spec file not found: ");
                push_text(&mut s, e.as_str());
            },
            RpcError::SpecRead { path, reason } => {
                push_text(&mut s, "Failed to read spec file ");
                push_text(&mut s, path.as_str());
                push_text(&mut s, ": ");
                push_text(&mut s, reason.as_str());
            },
            RpcError::InitDisabled { run } => {
                push_text(&mut s, "Run ");
                push_decimal(&mut s, *run as u64);
                push_text(&mut s, ": Init transition is disabled");
            },
            RpcError::ConstantsUnsatisfiable { run } => {
                push_text(&mut s, "Run ");
                push_decimal(&mut s, *run as u64);
                push_text(&mut s, ": Constant constraints are unsatisfiable");
            },
            RpcError::EmptyTrace => {
                push_text(&mut s, "Trace has no states");
            },
            RpcError::MissingStates => {
                push_text(&mut s, "Trace missing 'states' array");
            },
            RpcError::StateConversion(e) => {
                push_text(&mut s, "Failed to convert state to ITF Value: ");
                push_text(&mut s, e.as_str());
            },
        }
        assert(s@ =~= self@.message());
        s
    }
}

/// An error while a recorded trace is checked against a specification.
#[derive(Debug)]
#[non_exhaustive]
pub enum ValidationError {
    /// The specification that reads the trace does not exist.
    TraceSpecNotFound(String),
    /// The file of the trace does not exist.
    TraceFileNotFound(String),
    /// The trace holds no state.
    EmptyTrace(String),
    /// A line of the trace is no JSON.
    InvalidJson { line: usize, reason: String },
    /// A state is no JSON object.
    NonObjectState { found: String },
    /// A line has other keys than the first line.
    InconsistentSchema { line: usize, expected: Vec<String>, found: Vec<String> },
    /// A value has a type that TLA+ cannot hold.
    UnsupportedType { line: usize, field: String, reason: String },
    /// A number is no integer; `value` is its text.
    FloatNotSupported { line: usize, field: String, value: String },
    /// A line could not be written as a record of TLA+.
    TlaConversion { line: usize, reason: String },
    /// The model checker failed.
    Apalache(ApalacheError),
    /// No working directory could be made.
    WorkDir(String),
    /// A file of the specification could not be copied.
    FileCopy { path: String, reason: String },
    /// Reading or writing failed; the text is the system's.
    Io(String),
    /// A state was emitted after the emitter had finished.
    EmitterFinished,
    /// The elements of an array differ in type.
    InconsistentArrayType { field: String, expected: String, found: String },
}

/// What a [`ValidationError`] holds, with its texts as sequences of characters.
pub enum ValidationErrorView {
    TraceSpecNotFound(Seq<char>),
    TraceFileNotFound(Seq<char>),
    EmptyTrace(Seq<char>),
    InvalidJson { line: usize, reason: Seq<char> },
    NonObjectState { found: Seq<char> },
    InconsistentSchema { line: usize, expected: Seq<Seq<char>>, found: Seq<Seq<char>> },
    UnsupportedType { line: usize, field: Seq<char>, reason: Seq<char> },
    FloatNotSupported { line: usize, field: Seq<char>, value: Seq<char> },
    TlaConversion { line: usize, reason: Seq<char> },
    Apalache(ApalacheErrorView),
    WorkDir(Seq<char>),
    FileCopy { path: Seq<char>, reason: Seq<char> },
    Io(Seq<char>),
    EmitterFinished,
    InconsistentArrayType { field: Seq<char>, expected: Seq<char>, found: Seq<char> },
}

impl View for ValidationError {
    type V = ValidationErrorView;

    open spec fn view(&self) -> ValidationErrorView {
        match self {
            ValidationError::TraceSpecNotFound(e) => ValidationErrorView::TraceSpecNotFound(e@),
            ValidationError::TraceFileNotFound(e) => ValidationErrorView::TraceFileNotFound(e@),
            ValidationError::EmptyTrace(e) => ValidationErrorView::EmptyTrace(e@),
            ValidationError::InvalidJson { line, reason } => ValidationErrorView::InvalidJson {
                line: *line,
                reason: reason@,
            },
            ValidationError::NonObjectState { found } => ValidationErrorView::NonObjectState {
                found: found@,
            },
            ValidationError::InconsistentSchema { line, expected, found } => ValidationErrorView::InconsistentSchema {
                line: *line,
                expected: texts_of(expected@),
                found: texts_of(found@),
            },
            ValidationError::UnsupportedType { line, field, reason } => ValidationErrorView::UnsupportedType {
                line: *line,
                field: field@,
                reason: reason@,
            },
            ValidationError::FloatNotSupported { line, field, value } => ValidationErrorView::FloatNotSupported {
                line: *line,
                field: field@,
                value: value@,
            },
            ValidationError::TlaConversion { line, reason } => ValidationErrorView::TlaConversion {
                line: *line,
                reason: reason@,
            },
            ValidationError::Apalache(e) => ValidationErrorView::Apalache(e@),
            ValidationError::WorkDir(e) => ValidationErrorView::WorkDir(e@),
            ValidationError::FileCopy { path, reason } => ValidationErrorView::FileCopy {
                path: path@,
                reason: reason@,
            },
            ValidationError::Io(e) => ValidationErrorView::Io(e@),
            ValidationError::EmitterFinished => ValidationErrorView::EmitterFinished,
            ValidationError::InconsistentArrayType { field, expected, found } => ValidationErrorView::InconsistentArrayType {
                field: field@,
                expected: expected@,
                found: found@,
            },
        }
    }
}

impl ValidationErrorView {
    /// The text that describes the error.
    pub open spec fn message(self) -> Seq<char> {
        match self {
            ValidationErrorView::TraceSpecNotFound(e) => "TraceSpec not found: "@ + e,
            ValidationErrorView::TraceFileNotFound(e) => "Trace file not found: "@ + e,
            ValidationErrorView::EmptyTrace(e) => "Trace file is empty: "@ + e,
            ValidationErrorView::InvalidJson { line, reason } => "Invalid JSON on line "@
                + decimal(line as nat) + ": "@ + reason,
            ValidationErrorView::NonObjectState { found } =>
                "State must serialize to a JSON object, got: "@ + found,
            ValidationErrorView::InconsistentSchema { line, expected, found } =>
                "Inconsistent record schema: line "@ + decimal(line as nat) + " has keys "@
                + debug_of_texts(found) + ", expected "@ + debug_of_texts(expected),
            ValidationErrorView::UnsupportedType { line, field, reason } =>
                "Unsupported JSON value type at line "@ + decimal(line as nat) + ", field '"@
                + field + "': "@ + reason,
            ValidationErrorView::FloatNotSupported { line, field, value } =>
                "Float value not supported at line "@ + decimal(line as nat) + ", field '"@
                + field + "': "@ + value,
            ValidationErrorView::TlaConversion { line, reason } => "Failed to convert line "@
                + decimal(line as nat) + " to TLA+ record: "@ + reason,
            ValidationErrorView::Apalache(e) => e.message(),
            ValidationErrorView::WorkDir(e) => "Failed to create work directory: "@ + e,
            ValidationErrorView::FileCopy { path, reason } => "Failed to copy spec file "@ + path
                + ": "@ + reason,
            ValidationErrorView::Io(e) => "IO error: "@ + e,
            ValidationErrorView::EmitterFinished =>
                "Cannot emit after StateEmitter has been finished"@,
            ValidationErrorView::InconsistentArrayType { field, expected, found } =>
                "Inconsistent array element types at field '"@ + field + "': expected "@
                + expected + ", got "@ + found,
        }
    }
}

impl ValidationError {
    /// The text that describes the error.
    pub fn to_string(&self) -> (s: String)
        ensures
            s@ == self@.message(),
    {
        let mut s = String::new();
        match self {
            ValidationError::TraceSpecNotFound(e) => {
                push_text(&mut s, "TraceSpec not found: ");
                push_text(&mut s, e.as_str());
            },
            ValidationError::TraceFileNotFound(e) => {
                push_text(&mut s, "Trace file not found: ");
                push_text(&mut s, e.as_str());
            },
            ValidationError::EmptyTrace(e) => {
                push_text(&mut s, "Trace file is empty: ");
                push_text(&mut s, e.as_str());
            },
            ValidationError::InvalidJson { line, reason } => {
                push_text(&mut s, "Invalid JSON on line ");
                push_decimal(&mut s, *line as u64);
                push_text(&mut s, ": ");
                push_text(&mut s, reason.as_str());
            },
            ValidationError::NonObjectState { found } => {
                push_text(&mut s, "State must serialize to a JSON object, got: ");
                push_text(&mut s, found.as_str());
            },
            ValidationError::InconsistentSchema { line, expected, found } => {
                push_text(&mut s, "Inconsistent record schema: line ");
                push_decimal(&mut s, *line as u64);
                push_text(&mut s, " has keys ");
                let listed_found = debug_texts(found);
                push_text(&mut s, listed_found.as_str());
                push_text(&mut s, ", expected ");
                let listed_expected = debug_texts(expected);
                push_text(&mut s, listed_expected.as_str());
            },
            ValidationError::UnsupportedType { line, field, reason } => {
                push_text(&mut s, "Unsupported JSON value type at line ");
                push_decimal(&mut s, *line as u64);
                push_text(&mut s, ", field '");
                push_text(&mut s, field.as_str());
                push_text(&mut s, "': ");
                push_text(&mut s, reason.as_str());
            },
            ValidationError::FloatNotSupported { line, field, value } => {
                push_text(&mut s, "Float value not supported at line ");
                push_decimal(&mut s, *line as u64);
                push_text(&mut s, ", field '");
                push_text(&mut s, field.as_str());
                push_text(&mut s, "': ");
                push_text(&mut s, value.as_str());
            },
            ValidationError::TlaConversion { line, reason } => {
                push_text(&mut s, "Failed to convert line ");
                push_decimal(&mut s, *line as u64);
                push_text(&mut s, " to TLA+ record: ");
                push_text(&mut s, reason.as_str());
            },
            ValidationError::Apalache(e) => {
                let inner = e.to_string();
                push_text(&mut s, inner.as_str());
            },
            ValidationError::WorkDir(e) => {
                push_text(&mut s, "Failed to create work directory: ");
                push_text(&mut s, e.as_str());
            },
            ValidationError::FileCopy { path, reason } => {
                push_text(&mut s, "Failed to copy spec file ");
                push_text(&mut s, path.as_str());
                push_text(&mut s, ": ");
                push_text(&mut s, reason.as_str());
            },
            ValidationError::Io(e) => {
                push_text(&mut s, "IO error: ");
                push_text(&mut s, e.as_str());
            },
            ValidationError::EmitterFinished => {
                push_text(&mut s, "Cannot emit after StateEmitter has been finished");
            },
            ValidationError::InconsistentArrayType { field, expected, found } => {
                push_text(&mut s, "Inconsistent array element types at field '");
                push_text(&mut s, field.as_str());
                push_text(&mut s, "': expected ");
                push_text(&mut s, expected.as_str());
                push_text(&mut s, ", got ");
                push_text(&mut s, found.as_str());
            },
        }
        assert(s@ =~= self@.message());
        s
    }
}

/// Any error of this library.
#[derive(Debug)]
#[non_exhaustive]
pub enum Error {
    /// A replay failed.
    Replay(ReplayError),
    /// Traces could not be generated.
    TraceGen(TraceGenError),
    /// A recorded trace could not be checked.
    Validation(ValidationError),
    /// The conversation with the server failed.
    Rpc(RpcError),
    /// A step failed.
    Step(StepError),
    /// The driver failed outside a step.
    Driver(DriverError),
    /// A configuration could not be built.
    Builder(BuilderError),
    /// Reading or writing failed; the text is the system's.
    Io(String),
    /// JSON could not be read or written; the text is the parser's.
    Json(String),
}

/// What an [`Error`] holds, with its texts as sequences of characters.
pub enum ErrorView {
    Replay(ReplayErrorView),
    TraceGen(TraceGenErrorView),
    Validation(ValidationErrorView),
    Rpc(RpcErrorView),
    Step(StepErrorView),
    Driver(DriverErrorView),
    Builder(BuilderErrorView),
    Io(Seq<char>),
    Json(Seq<char>),
}

impl View for Error {
    type V = ErrorView;

    open spec fn view(&self) -> ErrorView {
        match self {
            Error::Replay(e) => ErrorView::Replay(e@),
            Error::TraceGen(e) => ErrorView::TraceGen(e@),
            Error::Validation(e) => ErrorView::Validation(e@),
            Error::Rpc(e) => ErrorView::Rpc(e@),
            Error::Step(e) => ErrorView::Step(e@),
            Error::Driver(e) => ErrorView::Driver(e@),
            Error::Builder(e) => ErrorView::Builder(e@),
            Error::Io(e) => ErrorView::Io(e@),
            Error::Json(e) => ErrorView::Json(e@),
        }
    }
}

impl ErrorView {
    /// The text that describes the error.
    pub open spec fn message(self) -> Seq<char> {
        match self {
            ErrorView::Replay(e) => "Replay error: "@ + e.message(),
            ErrorView::TraceGen(e) => "Trace generation error: "@ + e.message(),
            ErrorView::Validation(e) => "Trace validation error: "@ + e.message(),
            ErrorView::Rpc(e) => "RPC error: "@ + e.message(),
            ErrorView::Step(e) => "Step error: "@ + e.message(),
            ErrorView::Driver(e) => "Driver error: "@ + e.message(),
            ErrorView::Builder(e) => "Builder error: "@ + e.message(),
            ErrorView::Io(e) => "IO error: "@ + e,
            ErrorView::Json(e) => "JSON error: "@ + e,
        }
    }
}

impl Error {
    /// The text that describes the error.
    pub fn to_string(&self) -> (s: String)
        ensures
            s@ == self@.message(),
    {
        let mut s = String::new();
        match self {
            Error::Replay(e) => {
                push_text(&mut s, "Replay error: ");
                let inner = e.to_string();
                push_text(&mut s, inner.as_str());
            },
            Error::TraceGen(e) => {
                push_text(&mut s, "Trace generation error: ");
                let inner = e.to_string();
                push_text(&mut s, inner.as_str());
            },
            Error::Validation(e) => {
                push_text(&mut s, "Trace validation error: ");
                let inner = e.to_string();
                push_text(&mut s, inner.as_str());
            },
            Error::Rpc(e) => {
                push_text(&mut s, "RPC error: ");
                let inner = e.to_string();
                push_text(&mut s, inner.as_str());
            },
            Error::Step(e) => {
                push_text(&mut s, "Step error: ");
                let inner = e.to_string();
                push_text(&mut s, inner.as_str());
            },
            Error::Driver(e) => {
                push_text(&mut s, "Driver error: ");
                let inner = e.to_string();
                push_text(&mut s, inner.as_str());
            },
            Error::Builder(e) => {
                push_text(&mut s, "Builder error: ");
                let inner = e.to_string();
                push_text(&mut s, inner.as_str());
            },
            Error::Io(e) => {
                push_text(&mut s, "IO error: ");
                push_text(&mut s, e.as_str());
            },
            Error::Json(e) => {
                push_text(&mut s, "JSON error: ");
                push_text(&mut s, e.as_str());
            },
        }
        assert(s@ =~= self@.message());
        s
    }
}


impl ErrorView {
    /// The same error without the text of a diff: a mismatch keeps where it
    /// occurred and under which action, and every other error is unchanged.
    pub open spec fn without_diff(self) -> ErrorView {
        match self {
            ErrorView::Step(StepErrorView::StateMismatch { context, action, diff }) => ErrorView::Step(
                StepErrorView::StateMismatch { context, action, diff: Seq::empty() },
            ),
            _ => self,
        }
    }

    /// Whether the error, where it is a mismatch, carries the report of the
    /// mismatch as its diff: the summary and the unified diff of the two
    /// states. Every other error carries none.
    pub open spec fn carries_report(self) -> bool {
        self matches ErrorView::Step(StepErrorView::StateMismatch { diff, .. })
            ==> is_mismatch_report(diff)
    }
}

} // verus!
