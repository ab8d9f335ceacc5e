//! Model-conformance testing: an implementation is taken through the same
//! actions as a formal state-machine specification, and its state is compared
//! with the specification's after every step.
//!
//! A [`Driver`] wraps the implementation under test. A replay takes it
//! through the states of a trace that was generated beforehand; an
//! interactive run chooses each step while it talks to a symbolic-execution
//! server. Either way the first divergence ends the run, with an error that
//! says where it happened.
pub mod clock;
pub mod counter;
pub mod diff;
pub mod driver;
pub mod error;
pub mod json;
pub mod numeral;
pub mod render;
pub mod replay;
pub mod replay_laws;
pub mod rpc;
pub mod sorting;
pub mod text;
pub mod trace;
pub mod trace_gen;
pub mod trace_validation;
pub mod value;

pub use diff::unified_diff;
pub use driver::debug_diff;
pub use driver::format_state_mismatch;
pub use driver::Driver;
pub use driver::ExtractState;
pub use driver::State;
pub use driver::take_step;
pub use driver::Step;
pub use error::ApalacheError;
pub use error::BuilderError;
pub use error::DirectoryReadError;
pub use error::DriverError;
pub use error::Error;
pub use error::ReplayError;
pub use error::RpcError;
pub use error::StepContext;
pub use error::StepError;
pub use error::TraceGenError;
pub use error::ValidationError;
pub use json::Json;
pub use json::JsonNumber;
pub use replay::extract_mbt_vars;
pub use replay::replay_single_trace;
pub use replay::replay_trace_str;
pub use replay::replay_traces;
pub use replay::replay_traces_with_progress;
pub use replay::ReplayProgress;
pub use replay::ReplayStats;
pub use rpc::client::RetryConfig;
pub use rpc::InteractiveConfig;
pub use rpc::InteractiveConfigBuilder;
pub use rpc::InteractiveProgress;
pub use rpc::InteractiveStats;
pub use trace::Trace;
pub use trace_gen::ApalacheConfig;
pub use trace_gen::ApalacheConfigBuilder;
pub use trace_gen::ApalacheMode;
pub use trace_validation::escape_tla_string;
pub use trace_validation::ndjson_to_tla_module;
pub use trace_validation::parse_apalache_output;
pub use trace_validation::StateEmitter;
pub use trace_validation::TraceResult;
pub use trace_validation::TraceValidatorConfig;
pub use trace_validation::TraceValidatorConfigBuilder;
pub use value::ItfValue;
