//! Interactive symbolic testing: each step is chosen while the run talks to
//! the symbolic-execution server, and is then taken by the driver.
pub mod client;
pub mod config;
pub mod sources;
pub mod stepper;
pub mod types;

pub use config::InteractiveConfig;
pub use config::InteractiveConfigBuilder;
pub use sources::encode_sources;
pub use sources::wants_aux_source;
pub use stepper::after_run;
pub use stepper::extract_action;
pub use stepper::extract_last_state;
pub use stepper::extract_nondet;
pub use stepper::first_run;
pub use stepper::json_state_to_itf;
pub use stepper::make_rng;
pub use stepper::Advance;
pub use stepper::AfterRun;
pub use stepper::InteractiveProgress;
pub use stepper::InteractiveStats;
pub use stepper::Phase;
pub use stepper::Request;
pub use stepper::Response;
pub use stepper::RunReport;
pub use stepper::Stepper;
