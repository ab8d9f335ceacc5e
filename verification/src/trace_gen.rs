//! Generating traces with the model checker: the configuration, the command
//! line that it stands for, and how the model checker's exit is read.
use crate::error::ApalacheError;
use crate::error::ApalacheErrorView;
use crate::error::Error;
use crate::error::ErrorView;
use crate::error::TraceGenError;
use crate::error::TraceGenErrorView;
use crate::text::decimal;
use crate::text::flag_number;
use crate::text::flag_text;
use crate::text::optional_text;
use crate::text::push_arg;
use crate::text::push_text;
use crate::text::texts_of;
use crate::trace::parse_trace;
use crate::trace::parsed_trace;
use crate::trace::Trace;
use vstd::prelude::*;

verus! {

/// How the model checker explores the specification.
#[derive(Debug, Clone, Copy, PartialEq, Eq, Structural)]
#[non_exhaustive]
pub enum ApalacheMode {
    /// Bounded model checking, which tries every run up to the length.
    Check,
    /// Random simulation, which is faster and tries only some runs.
    Simulate,
}

/// How traces are generated with the model checker.
#[derive(Debug, Clone)]
#[non_exhaustive]
pub struct ApalacheConfig {
    /// The path of the specification.
    pub spec: String,
    /// The invariant whose violations become traces; `TraceComplete` by
    /// default.
    pub inv: String,
    /// The largest number of traces to generate; 100 by default.
    pub max_traces: usize,
    /// The largest number of steps in a trace; 50 by default.
    pub max_length: usize,
    /// The operator by whose value the traces have to differ, if any.
    pub view: Option<String>,
    /// The predicate that fixes the constants, if any.
    pub cinit: Option<String>,
    /// How the model checker explores; by simulation by default.
    pub mode: ApalacheMode,
    /// The model checker's executable; `apalache-mc` by default.
    pub apalache_bin: String,
    /// The directory for the model checker's output; a temporary one where
    /// none is given.
    pub out_dir: Option<String>,
    /// Whether a temporary output directory outlives the generated traces;
    /// not by default.
    pub keep_outputs: bool,
}

/// What a [`ApalacheConfig`] holds, with its texts as sequences of characters.
pub struct ApalacheConfigView {
    pub spec: Seq<char>,
    pub inv: Seq<char>,
    pub max_traces: usize,
    pub max_length: usize,
    pub view: Option<Seq<char>>,
    pub cinit: Option<Seq<char>>,
    pub mode: ApalacheMode,
    pub apalache_bin: Seq<char>,
    pub out_dir: Option<Seq<char>>,
    pub keep_outputs: bool,
}

impl View for ApalacheConfig {
    type V = ApalacheConfigView;

    open spec fn view(&self) -> ApalacheConfigView {
        ApalacheConfigView {
            spec: self.spec@,
            inv: self.inv@,
            max_traces: self.max_traces,
            max_length: self.max_length,
            view: optional_text(self.view),
            cinit: optional_text(self.cinit),
            mode: self.mode,
            apalache_bin: self.apalache_bin@,
            out_dir: optional_text(self.out_dir),
            keep_outputs: self.keep_outputs,
        }
    }
}

impl ApalacheConfigView {
    /// The configuration in which every field has its default.
    pub open spec fn default_view() -> ApalacheConfigView {
        ApalacheConfigView {
            spec: Seq::empty(),
            inv: "TraceComplete"@,
            max_traces: 100,
            max_length: 50,
            view: None,
            cinit: None,
            mode: ApalacheMode::Simulate,
            apalache_bin: "apalache-mc"@,
            out_dir: None,
            keep_outputs: false,
        }
    }
}

impl Default for ApalacheConfig {
    fn default() -> (r: Self)
        ensures
            r@ == ApalacheConfigView::default_view(),
    {
        ApalacheConfig {
            spec: String::new(),
            inv: "TraceComplete".to_owned(),
            max_traces: 100,
            max_length: 50,
            view: None,
            cinit: None,
            mode: ApalacheMode::Simulate,
            apalache_bin: "apalache-mc".to_owned(),
            out_dir: None,
            keep_outputs: false,
        }
    }
}

/// Builds a [`ApalacheConfig`] field by field; a field that is never set keeps
/// its default.
pub struct ApalacheConfigBuilder {
    spec: Option<String>,
    inv: Option<String>,
    max_traces: Option<usize>,
    max_length: Option<usize>,
    view: Option<String>,
    cinit: Option<String>,
    mode: Option<ApalacheMode>,
    apalache_bin: Option<String>,
    out_dir: Option<String>,
    keep_outputs: Option<bool>,
}

/// What a [`ApalacheConfigBuilder`] has been given so far.
pub struct ApalacheConfigBuilderView {
    pub spec: Option<Seq<char>>,
    pub inv: Option<Seq<char>>,
    pub max_traces: Option<usize>,
    pub max_length: Option<usize>,
    pub view: Option<Seq<char>>,
    pub cinit: Option<Seq<char>>,
    pub mode: Option<ApalacheMode>,
    pub apalache_bin: Option<Seq<char>>,
    pub out_dir: Option<Seq<char>>,
    pub keep_outputs: Option<bool>,
}

impl ApalacheConfigBuilderView {
    /// The builder that has been given nothing.
    pub open spec fn empty() -> ApalacheConfigBuilderView {
        ApalacheConfigBuilderView {
            spec: None,
            inv: None,
            max_traces: None,
            max_length: None,
            view: None,
            cinit: None,
            mode: None,
            apalache_bin: None,
            out_dir: None,
            keep_outputs: None,
        }
    }

    /// The configuration that `build` makes: what was given, and the default
    /// for the rest.
    pub open spec fn built(self) -> ApalacheConfigView {
        ApalacheConfigView {
            spec: match self.spec {
                Some(v) => v,
                None => ApalacheConfigView::default_view().spec,
            },
            inv: match self.inv {
                Some(v) => v,
                None => ApalacheConfigView::default_view().inv,
            },
            max_traces: match self.max_traces {
                Some(v) => v,
                None => ApalacheConfigView::default_view().max_traces,
            },
            max_length: match self.max_length {
                Some(v) => v,
                None => ApalacheConfigView::default_view().max_length,
            },
            view: self.view,
            cinit: self.cinit,
            mode: match self.mode {
                Some(v) => v,
                None => ApalacheConfigView::default_view().mode,
            },
            apalache_bin: match self.apalache_bin {
                Some(v) => v,
                None => ApalacheConfigView::default_view().apalache_bin,
            },
            out_dir: self.out_dir,
            keep_outputs: match self.keep_outputs {
                Some(v) => v,
                None => ApalacheConfigView::default_view().keep_outputs,
            },
        }
    }
}

impl ApalacheConfigBuilder {
    /// What the builder has been given so far.
    pub closed spec fn given(&self) -> ApalacheConfigBuilderView {
        ApalacheConfigBuilderView {
            spec: optional_text(self.spec),
            inv: optional_text(self.inv),
            max_traces: self.max_traces,
            max_length: self.max_length,
            view: optional_text(self.view),
            cinit: optional_text(self.cinit),
            mode: self.mode,
            apalache_bin: optional_text(self.apalache_bin),
            out_dir: optional_text(self.out_dir),
            keep_outputs: self.keep_outputs,
        }
    }
}

impl ApalacheConfig {
    /// A builder that has been given nothing yet.
    pub fn builder() -> (r: ApalacheConfigBuilder)
        ensures
            r.given() == ApalacheConfigBuilderView::empty(),
    {
        ApalacheConfigBuilder {
            spec: None,
            inv: None,
            max_traces: None,
            max_length: None,
            view: None,
            cinit: None,
            mode: None,
            apalache_bin: None,
            out_dir: None,
            keep_outputs: None,
        }
    }
}

impl ApalacheConfigBuilder {
    /// Sets the path of the specification.
    pub fn spec(self, path: &str) -> (r: Self)
        ensures
            r.given() == (ApalacheConfigBuilderView { spec: Some(path@), ..self.given() }),
    {
        let mut r = self;
        r.spec = Some(path.to_owned());
        r
    }

    /// Sets the invariant whose violations become traces.
    pub fn inv(self, inv: &str) -> (r: Self)
        ensures
            r.given() == (ApalacheConfigBuilderView { inv: Some(inv@), ..self.given() }),
    {
        let mut r = self;
        r.inv = Some(inv.to_owned());
        r
    }

    /// Sets the largest number of traces to generate.
    pub fn max_traces(self, n: usize) -> (r: Self)
        ensures
            r.given() == (ApalacheConfigBuilderView { max_traces: Some(n), ..self.given() }),
    {
        let mut r = self;
        r.max_traces = Some(n);
        r
    }

    /// Sets the largest number of steps in a trace.
    pub fn max_length(self, n: usize) -> (r: Self)
        ensures
            r.given() == (ApalacheConfigBuilderView { max_length: Some(n), ..self.given() }),
    {
        let mut r = self;
        r.max_length = Some(n);
        r
    }

    /// Sets the operator by whose value the traces have to differ.
    pub fn view(self, view: &str) -> (r: Self)
        ensures
            r.given() == (ApalacheConfigBuilderView { view: Some(view@), ..self.given() }),
    {
        let mut r = self;
        r.view = Some(view.to_owned());
        r
    }

    /// Sets the predicate that fixes the constants.
    pub fn cinit(self, cinit: &str) -> (r: Self)
        ensures
            r.given() == (ApalacheConfigBuilderView { cinit: Some(cinit@), ..self.given() }),
    {
        let mut r = self;
        r.cinit = Some(cinit.to_owned());
        r
    }

    /// Sets how the model checker explores.
    pub fn mode(self, mode: ApalacheMode) -> (r: Self)
        ensures
            r.given() == (ApalacheConfigBuilderView { mode: Some(mode), ..self.given() }),
    {
        let mut r = self;
        r.mode = Some(mode);
        r
    }

    /// Sets the model checker's executable.
    pub fn apalache_bin(self, bin: &str) -> (r: Self)
        ensures
            r.given() == (ApalacheConfigBuilderView { apalache_bin: Some(bin@), ..self.given() }),
    {
        let mut r = self;
        r.apalache_bin = Some(bin.to_owned());
        r
    }

    /// Sets the directory for the model checker's output.
    pub fn out_dir(self, dir: &str) -> (r: Self)
        ensures
            r.given() == (ApalacheConfigBuilderView { out_dir: Some(dir@), ..self.given() }),
    {
        let mut r = self;
        r.out_dir = Some(dir.to_owned());
        r
    }

    /// Sets whether a temporary output directory outlives the generated traces.
    pub fn keep_outputs(self, keep: bool) -> (r: Self)
        ensures
            r.given() == (ApalacheConfigBuilderView { keep_outputs: Some(keep), ..self.given() }),
    {
        let mut r = self;
        r.keep_outputs = Some(keep);
        r
    }

    /// Makes the configuration.
    pub fn build(self) -> (r: ApalacheConfig)
        ensures
            r@ == self.given().built(),
    {
        let defaults = ApalacheConfig::default();
        ApalacheConfig {
            spec: match self.spec {
                Some(v) => v,
                None => defaults.spec,
            },
            inv: match self.inv {
                Some(v) => v,
                None => defaults.inv,
            },
            max_traces: match self.max_traces {
                Some(v) => v,
                None => defaults.max_traces,
            },
            max_length: match self.max_length {
                Some(v) => v,
                None => defaults.max_length,
            },
            view: self.view,
            cinit: self.cinit,
            mode: match self.mode {
                Some(v) => v,
                None => defaults.mode,
            },
            apalache_bin: match self.apalache_bin {
                Some(v) => v,
                None => defaults.apalache_bin,
            },
            out_dir: self.out_dir,
            keep_outputs: match self.keep_outputs {
                Some(v) => v,
                None => defaults.keep_outputs,
            },
        }
    }
}

/// The arguments with which the model checker generates traces: the
/// command of the mode, the invariant, the largest number of traces under
/// the name that the mode has for it, the largest length, the predicate for
/// the constants and the view where they are set, the output directory, and
/// the specification last.
pub open spec fn generation_args(
    config: ApalacheConfigView,
    out_dir: Seq<char>,
    spec_path: Seq<char>,
) -> Seq<Seq<char>> {
    let head = match config.mode {
        ApalacheMode::Simulate => seq![
            "simulate"@,
            "--inv="@ + config.inv,
            "--max-run="@ + decimal(config.max_traces as nat),
            "--length="@ + decimal(config.max_length as nat),
        ],
        ApalacheMode::Check => seq![
            "check"@,
            "--inv="@ + config.inv,
            "--max-error="@ + decimal(config.max_traces as nat),
            "--length="@ + decimal(config.max_length as nat),
        ],
    };
    let with_cinit = match config.cinit {
        Some(cinit) => head.push("--cinit="@ + cinit),
        None => head,
    };
    let with_view = match config.view {
        Some(view) => with_cinit.push("--view="@ + view),
        None => with_cinit,
    };
    with_view.push("--out-dir="@ + out_dir).push(spec_path)
}

/// The arguments with which the model checker generates traces for
/// `config`, writing to `out_dir` and reading the specification at
/// `spec_path`.
pub fn apalache_args(config: &ApalacheConfig, out_dir: &str, spec_path: &str) -> (args: Vec<String>)
    ensures
        texts_of(args@) == generation_args(config@, out_dir@, spec_path@),
{
    let mut args: Vec<String> = Vec::new();
    assert(texts_of(args@) =~= Seq::<Seq<char>>::empty());
    match config.mode {
        ApalacheMode::Simulate => {
            push_arg(&mut args, "simulate".to_owned());
            push_arg(&mut args, flag_text("--inv=", config.inv.as_str()));
            push_arg(&mut args, flag_number("--max-run=", config.max_traces));
        },
        ApalacheMode::Check => {
            push_arg(&mut args, "check".to_owned());
            push_arg(&mut args, flag_text("--inv=", config.inv.as_str()));
            push_arg(&mut args, flag_number("--max-error=", config.max_traces));
        },
    }
    push_arg(&mut args, flag_number("--length=", config.max_length));
    if let Some(cinit) = &config.cinit {
        push_arg(&mut args, flag_text("--cinit=", cinit.as_str()));
    }
    if let Some(view) = &config.view {
        push_arg(&mut args, flag_text("--view=", view.as_str()));
    }
    push_arg(&mut args, flag_text("--out-dir=", out_dir));
    push_arg(&mut args, spec_path.to_owned());
    assert(texts_of(args@) =~= generation_args(config@, out_dir@, spec_path@));
    args
}

/// Whether an exit code of the model checker stands for a run that has
/// written its traces: 0, and 12, with which it reports the violations that
/// become the traces.
pub open spec fn generation_succeeded(exit_code: Option<i32>) -> bool {
    exit_code == Some(0i32) || exit_code == Some(12i32)
}

/// Reads the exit of the model checker after it was asked for traces. Any
/// exit code but 0 and 12, and an exit without a code, is an error that
/// carries both outputs.
pub fn check_generation_exit(exit_code: Option<i32>, stdout: &str, stderr: &str) -> (r: Result<
    (),
    Error,
>)
    ensures
        generation_succeeded(exit_code) ==> r is Ok,
        !generation_succeeded(exit_code) ==> (r matches Err(e) && e@ == ErrorView::TraceGen(
            TraceGenErrorView::Apalache(
                ApalacheErrorView::Execution {
                    exit_code,
                    message: "stdout: "@ + stdout@ + "\nstderr: "@ + stderr@,
                },
            ),
        )),
{
    let succeeded = match exit_code {
        Some(code) => code == 0 || code == 12,
        None => false,
    };
    if succeeded {
        return Ok(());
    }
    let mut message = String::new();
    push_text(&mut message, "stdout: ");
    push_text(&mut message, stdout);
    push_text(&mut message, "\nstderr: ");
    push_text(&mut message, stderr);
    assert(message@ =~= "stdout: "@ + stdout@ + "\nstderr: "@ + stderr@);
    Err(Error::TraceGen(TraceGenError::Apalache(ApalacheError::Execution { exit_code, message })))
}

/// Reads the content of a generated trace file as a trace. A content that
/// is no trace is an error that names the file.
pub fn parse_generated_trace(path: &str, content: &str) -> (r: Result<Trace, Error>)
    ensures
        match parsed_trace(content@) {
            Ok(states) => r matches Ok(trace) && trace@ == states,
            Err(reason) => r matches Err(e) && e@ == ErrorView::TraceGen(
                TraceGenErrorView::TraceParse { path: path@, reason },
            ),
        },
{
    match parse_trace(content) {
        Ok(trace) => Ok(trace),
        Err(reason) => Err(
            Error::TraceGen(TraceGenError::TraceParse { path: path.to_owned(), reason }),
        ),
    }
}

/// Hands on the traces that were found in the output directory, and fails
/// where there is none.
pub fn require_traces(traces: Vec<Trace>, out_dir: &str) -> (r: Result<Vec<Trace>, Error>)
    ensures
        traces@.len() > 0 ==> r == Ok::<Vec<Trace>, Error>(traces),
        traces@.len() == 0 ==> (r matches Err(e) && e@ == ErrorView::TraceGen(
            TraceGenErrorView::NoTracesFound(out_dir@),
        )),
{
    if traces.len() == 0 {
        Err(Error::TraceGen(TraceGenError::NoTracesFound(out_dir.to_owned())))
    } else {
        Ok(traces)
    }
}

impl<'a> From<&'a str> for ApalacheConfig {
    /// The configuration for the specification at `spec`, with every other
    /// field at its default.
    fn from(spec: &'a str) -> (r: Self)
        ensures
            r@ == (ApalacheConfigView { spec: spec@, ..ApalacheConfigView::default_view() }),
    {
        let mut r = ApalacheConfig::default();
        r.spec = spec.to_owned();
        r
    }
}

/// What `from` makes is stated by `from` itself, over the view.
impl<'a> vstd::std_specs::convert::FromSpecImpl<&'a str> for ApalacheConfig {
    open spec fn obeys_from_spec() -> bool {
        false
    }

    open spec fn from_spec(spec: &'a str) -> Self {
        arbitrary()
    }
}

} // verus!
