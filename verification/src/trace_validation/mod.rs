//! Checking a recorded execution against a specification with the model
//! checker.
pub mod emitter;
pub mod tla;
pub mod validator;

pub use validator::TraceValidatorConfig;
pub use validator::TraceValidatorConfigBuilder;
pub use validator::escape_tla_string;
pub use validator::parse_apalache_output;
pub use validator::TraceResult;
pub use tla::ndjson_to_tla_module;
pub use emitter::StateEmitter;
