//! The requests and responses of the JSON-RPC protocol that the
//! symbolic-execution server speaks.
use crate::json::Json;
use crate::text::push_signed_decimal;
use crate::text::push_text;
use crate::text::signed_decimal;
use vstd::prelude::*;

verus! {

/// The envelope of a request.
#[derive(Debug)]
pub struct JsonRpcRequest<P> {
    /// The version of the protocol, which is `2.0`.
    pub jsonrpc: &'static str,
    /// The number of the request.
    pub id: u64,
    /// The name of the remote method.
    pub method: String,
    /// What the method is given.
    pub params: P,
}

impl<P> JsonRpcRequest<P> {
    /// The envelope for one call of `method` with `params`, numbered `id`.
    pub fn new(id: u64, method: &str, params: P) -> (r: Self)
        ensures
            r.jsonrpc@ == "2.0"@,
            r.id == id,
            r.method@ == method@,
            r.params == params,
    {
        JsonRpcRequest { jsonrpc: "2.0", id, method: method.to_owned(), params }
    }
}

/// The envelope of a response. A call that succeeded has a result, and one
/// that failed has an error.
#[derive(Debug)]
pub struct JsonRpcResponse {
    pub jsonrpc: String,
    pub id: u64,
    pub result: Option<Json>,
    pub error: Option<JsonRpcError>,
}

/// The error of a response.
#[derive(Debug)]
pub struct JsonRpcError {
    pub code: i64,
    pub message: String,
    pub data: Option<Json>,
}

impl JsonRpcError {
    /// The text that describes an error with this code and message.
    pub open spec fn message_of(code: i64, message: Seq<char>) -> Seq<char> {
        "JSON-RPC error "@ + signed_decimal(code as int) + ": "@ + message
    }

    /// The text that describes the error.
    pub fn to_string(&self) -> (s: String)
        ensures
            s@ == Self::message_of(self.code, self.message@),
    {
        let mut s = String::new();
        push_text(&mut s, "JSON-RPC error ");
        push_signed_decimal(&mut s, self.code);
        push_text(&mut s, ": ");
        push_text(&mut s, self.message.as_str());
        assert(s@ =~= Self::message_of(self.code, self.message@));
        s
    }
}

/// What `loadSpec` is given.
#[derive(Debug, Clone)]
pub struct LoadSpecParams {
    /// The source files, each encoded with base64.
    pub sources: Vec<String>,
    /// The name of the initial predicate.
    pub init: String,
    /// The name of the next-state relation.
    pub next: String,
    /// The names of the invariants.
    pub invariants: Vec<String>,
}

/// What `loadSpec` answers.
#[derive(Debug)]
pub struct LoadSpecResult {
    pub session_id: String,
    pub snapshot_id: u64,
    pub spec_parameters: SpecParameters,
}

/// What the server says of a specification that it has loaded.
#[derive(Debug, Clone)]
pub struct SpecParameters {
    pub init_transitions: Vec<Transition>,
    pub next_transitions: Vec<Transition>,
    pub state_invariants: Vec<Json>,
    pub action_invariants: Vec<Json>,
}

/// A transition of the specification: its number, and its labels if any.
#[derive(Debug, Clone)]
pub struct Transition {
    pub index: u32,
    pub labels: Vec<String>,
}

/// What `assumeTransition` is given.
#[derive(Debug)]
pub struct AssumeTransitionParams {
    pub session_id: String,
    pub transition_id: u32,
    pub check_enabled: bool,
}

/// What `assumeTransition` answers.
#[derive(Debug)]
pub struct AssumeTransitionResult {
    pub session_id: String,
    pub snapshot_id: u64,
    pub transition_id: u32,
    pub status: TransitionStatus,
}

/// Whether a transition can be taken from the present state.
#[derive(Debug, Clone, Copy, PartialEq, Eq, Structural)]
pub enum TransitionStatus {
    Enabled,
    Disabled,
}

/// What `nextStep` is given.
#[derive(Debug)]
pub struct NextStepParams {
    pub session_id: String,
}

/// What `nextStep` answers.
#[derive(Debug)]
pub struct NextStepResult {
    pub session_id: String,
    pub snapshot_id: u64,
    pub new_step_no: u64,
}

/// What `rollback` is given.
#[derive(Debug)]
pub struct RollbackParams {
    pub session_id: String,
    pub snapshot_id: u64,
}

/// What `rollback` answers.
#[derive(Debug)]
pub struct RollbackResult {
    pub session_id: String,
    pub snapshot_id: u64,
}

/// What `assumeState` is given.
#[derive(Debug)]
pub struct AssumeStateParams {
    pub session_id: String,
    /// The equalities to assume, an object from the names of variables to
    /// their values.
    pub equalities: Json,
    pub check_enabled: bool,
}

/// What `assumeState` answers.
#[derive(Debug)]
pub struct AssumeStateResult {
    pub session_id: String,
    pub snapshot_id: u64,
    pub status: TransitionStatus,
}

/// What `query` is given.
#[derive(Debug)]
pub struct QueryParams {
    pub session_id: String,
    pub kinds: Vec<String>,
}

/// What `query` answers.
#[derive(Debug)]
pub struct QueryResult {
    pub session_id: String,
    /// The trace so far, where the query asked for it.
    pub trace: Option<Json>,
    pub operator_value: Option<Json>,
}

/// What `disposeSpec` is given.
#[derive(Debug)]
pub struct DisposeSpecParams {
    pub session_id: String,
}

/// What `disposeSpec` answers.
#[derive(Debug)]
pub struct DisposeSpecResult {
    pub session_id: String,
}

} // verus!
