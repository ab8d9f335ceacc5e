//! Validation of a recorded trace: the configuration, the command line that
//! it stands for, and how the model checker's answer is read.
use crate::error::ApalacheError;
use crate::error::ApalacheErrorView;
use crate::error::BuilderError;
use crate::error::BuilderErrorView;
use crate::error::Error;
use crate::error::ErrorView;
use crate::error::ValidationError;
use crate::error::ValidationErrorView;
use crate::text::chars_of;
use crate::text::contains_chars;
use crate::text::contains_text;
use crate::text::decimal;
use crate::text::flag_number;
use crate::text::flag_text;
use crate::text::joined;
use crate::text::line_views;
use crate::text::lines_of;
use crate::text::optional_text;
use crate::text::push_arg;
use crate::text::push_char;
use crate::text::push_joined;
use crate::text::split_lines;
use crate::text::string_of;
use crate::text::texts_of;
use vstd::prelude::*;

verus! {

/// How a recorded trace is checked against a specification.
#[derive(Debug, Clone)]
#[non_exhaustive]
pub struct TraceValidatorConfig {
    /// The path of the specification that reads the trace.
    pub trace_spec: String,
    /// The initial predicate; `TraceInit` by default.
    pub init: String,
    /// The next-state relation; `TraceNext` by default.
    pub next: String,
    /// The invariant that is violated once the whole trace was read;
    /// `TraceFinished` by default.
    pub inv: String,
    /// The predicate that fixes the constants; `TraceConstInit` by default.
    pub cinit: String,
    /// The model checker's executable; `apalache-mc` by default.
    pub apalache_bin: String,
}

/// What a [`TraceValidatorConfig`] holds, with its texts as sequences of characters.
pub struct TraceValidatorConfigView {
    pub trace_spec: Seq<char>,
    pub init: Seq<char>,
    pub next: Seq<char>,
    pub inv: Seq<char>,
    pub cinit: Seq<char>,
    pub apalache_bin: Seq<char>,
}

impl View for TraceValidatorConfig {
    type V = TraceValidatorConfigView;

    open spec fn view(&self) -> TraceValidatorConfigView {
        TraceValidatorConfigView {
            trace_spec: self.trace_spec@,
            init: self.init@,
            next: self.next@,
            inv: self.inv@,
            cinit: self.cinit@,
            apalache_bin: self.apalache_bin@,
        }
    }
}

impl TraceValidatorConfigView {
    /// The configuration in which every field has its default.
    pub open spec fn default_view() -> TraceValidatorConfigView {
        TraceValidatorConfigView {
            trace_spec: Seq::empty(),
            init: "TraceInit"@,
            next: "TraceNext"@,
            inv: "TraceFinished"@,
            cinit: "TraceConstInit"@,
            apalache_bin: "apalache-mc"@,
        }
    }
}

impl Default for TraceValidatorConfig {
    fn default() -> (r: Self)
        ensures
            r@ == TraceValidatorConfigView::default_view(),
    {
        TraceValidatorConfig {
            trace_spec: String::new(),
            init: "TraceInit".to_owned(),
            next: "TraceNext".to_owned(),
            inv: "TraceFinished".to_owned(),
            cinit: "TraceConstInit".to_owned(),
            apalache_bin: "apalache-mc".to_owned(),
        }
    }
}

/// Builds a [`TraceValidatorConfig`] field by field; a field that is never set keeps
/// its default.
pub struct TraceValidatorConfigBuilder {
    trace_spec: Option<String>,
    init: Option<String>,
    next: Option<String>,
    inv: Option<String>,
    cinit: Option<String>,
    apalache_bin: Option<String>,
}

/// What a [`TraceValidatorConfigBuilder`] has been given so far.
pub struct TraceValidatorConfigBuilderView {
    pub trace_spec: Option<Seq<char>>,
    pub init: Option<Seq<char>>,
    pub next: Option<Seq<char>>,
    pub inv: Option<Seq<char>>,
    pub cinit: Option<Seq<char>>,
    pub apalache_bin: Option<Seq<char>>,
}

impl TraceValidatorConfigBuilderView {
    /// The builder that has been given nothing.
    pub open spec fn empty() -> TraceValidatorConfigBuilderView {
        TraceValidatorConfigBuilderView {
            trace_spec: None,
            init: None,
            next: None,
            inv: None,
            cinit: None,
            apalache_bin: None,
        }
    }

    /// The configuration that `build` makes: what was given, and the default
    /// for the rest. A field without a default has to be given.
    pub open spec fn built(self) -> Result<TraceValidatorConfigView, BuilderErrorView> {
        match self.trace_spec {
            None => Err(
                BuilderErrorView::MissingRequiredField {
                    builder: "TraceValidatorConfigBuilder"@,
                    field: "trace_spec"@,
                },
            ),
            Some(trace_spec) => Ok(
                TraceValidatorConfigView {
                    trace_spec,
                    init: match self.init {
                        Some(v) => v,
                        None => TraceValidatorConfigView::default_view().init,
                    },
                    next: match self.next {
                        Some(v) => v,
                        None => TraceValidatorConfigView::default_view().next,
                    },
                    inv: match self.inv {
                        Some(v) => v,
                        None => TraceValidatorConfigView::default_view().inv,
                    },
                    cinit: match self.cinit {
                        Some(v) => v,
                        None => TraceValidatorConfigView::default_view().cinit,
                    },
                    apalache_bin: match self.apalache_bin {
                        Some(v) => v,
                        None => TraceValidatorConfigView::default_view().apalache_bin,
                    },
                },
            ),
        }
    }
}

impl TraceValidatorConfigBuilder {
    /// What the builder has been given so far.
    pub closed spec fn given(&self) -> TraceValidatorConfigBuilderView {
        TraceValidatorConfigBuilderView {
            trace_spec: optional_text(self.trace_spec),
            init: optional_text(self.init),
            next: optional_text(self.next),
            inv: optional_text(self.inv),
            cinit: optional_text(self.cinit),
            apalache_bin: optional_text(self.apalache_bin),
        }
    }
}

impl TraceValidatorConfig {
    /// A builder that has been given nothing yet.
    pub fn builder() -> (r: TraceValidatorConfigBuilder)
        ensures
            r.given() == TraceValidatorConfigBuilderView::empty(),
    {
        TraceValidatorConfigBuilder {
            trace_spec: None,
            init: None,
            next: None,
            inv: None,
            cinit: None,
            apalache_bin: None,
        }
    }
}

impl TraceValidatorConfigBuilder {
    /// Sets the path of the specification that reads the trace.
    pub fn trace_spec(self, path: &str) -> (r: Self)
        ensures
            r.given() == (TraceValidatorConfigBuilderView { trace_spec: Some(path@), ..self.given() }),
    {
        let mut r = self;
        r.trace_spec = Some(path.to_owned());
        r
    }

    /// Sets the initial predicate.
    pub fn init(self, init: &str) -> (r: Self)
        ensures
            r.given() == (TraceValidatorConfigBuilderView { init: Some(init@), ..self.given() }),
    {
        let mut r = self;
        r.init = Some(init.to_owned());
        r
    }

    /// Sets the next-state relation.
    pub fn next(self, next: &str) -> (r: Self)
        ensures
            r.given() == (TraceValidatorConfigBuilderView { next: Some(next@), ..self.given() }),
    {
        let mut r = self;
        r.next = Some(next.to_owned());
        r
    }

    /// Sets the invariant that is violated once the whole trace was read.
    pub fn inv(self, inv: &str) -> (r: Self)
        ensures
            r.given() == (TraceValidatorConfigBuilderView { inv: Some(inv@), ..self.given() }),
    {
        let mut r = self;
        r.inv = Some(inv.to_owned());
        r
    }

    /// Sets the predicate that fixes the constants.
    pub fn cinit(self, cinit: &str) -> (r: Self)
        ensures
            r.given() == (TraceValidatorConfigBuilderView { cinit: Some(cinit@), ..self.given() }),
    {
        let mut r = self;
        r.cinit = Some(cinit.to_owned());
        r
    }

    /// Sets the model checker's executable.
    pub fn apalache_bin(self, bin: &str) -> (r: Self)
        ensures
            r.given() == (TraceValidatorConfigBuilderView { apalache_bin: Some(bin@), ..self.given() }),
    {
        let mut r = self;
        r.apalache_bin = Some(bin.to_owned());
        r
    }

    /// Makes the configuration. Fails where `trace_spec` was never set.
    pub fn build(self) -> (r: Result<TraceValidatorConfig, BuilderError>)
        ensures
            match r {
                Ok(config) => self.given().built() == Ok::<TraceValidatorConfigView, BuilderErrorView>(config@),
                Err(e) => self.given().built() == Err::<TraceValidatorConfigView, BuilderErrorView>(e@),
            },
    {
        let defaults = TraceValidatorConfig::default();
        let trace_spec = match self.trace_spec {
            Some(v) => v,
            None => {
                return Err(
                    BuilderError::MissingRequiredField {
                        builder: "TraceValidatorConfigBuilder",
                        field: "trace_spec",
                    },
                );
            },
        };
        Ok(
            TraceValidatorConfig {
                trace_spec,
                init: match self.init {
                    Some(v) => v,
                    None => defaults.init,
                },
                next: match self.next {
                    Some(v) => v,
                    None => defaults.next,
                },
                inv: match self.inv {
                    Some(v) => v,
                    None => defaults.inv,
                },
                cinit: match self.cinit {
                    Some(v) => v,
                    None => defaults.cinit,
                },
                apalache_bin: match self.apalache_bin {
                    Some(v) => v,
                    None => defaults.apalache_bin,
                },
            },
        )
    }
}

/// Whether `c` is a control character: the characters that
/// `char::is_control` accepts.
pub open spec fn is_control(c: char) -> bool {
    let n = c as u32;
    n <= 0x1f || 0x7f <= n <= 0x9f
}

/// The hexadecimal digit for `d`, where `0 <= d <= 15`, in lower case.
pub open spec fn hex_digit(d: int) -> char {
    if d == 0 {
        '0'
    } else if d == 1 {
        '1'
    } else if d == 2 {
        '2'
    } else if d == 3 {
        '3'
    } else if d == 4 {
        '4'
    } else if d == 5 {
        '5'
    } else if d == 6 {
        '6'
    } else if d == 7 {
        '7'
    } else if d == 8 {
        '8'
    } else if d == 9 {
        '9'
    } else if d == 10 {
        'a'
    } else if d == 11 {
        'b'
    } else if d == 12 {
        'c'
    } else if d == 13 {
        'd'
    } else if d == 14 {
        'e'
    } else {
        'f'
    }
}

/// How one character stands in a string literal of TLA+: a backslash before
/// a backslash and before a quotation mark, the usual two characters for a
/// line feed, a carriage return and a tabulator, `\u` and four hexadecimal
/// digits for any other control character, and every other character as it
/// is.
pub open spec fn escaped_char(c: char) -> Seq<char> {
    if c == '\\' {
        seq!['\\', '\\']
    } else if c == '"' {
        seq!['\\', '"']
    } else if c == '\n' {
        seq!['\\', 'n']
    } else if c == '\r' {
        seq!['\\', 'r']
    } else if c == '\t' {
        seq!['\\', 't']
    } else if is_control(c) {
        seq![
            '\\',
            'u',
            hex_digit((c as int / 4096) % 16),
            hex_digit((c as int / 256) % 16),
            hex_digit((c as int / 16) % 16),
            hex_digit(c as int % 16),
        ]
    } else {
        seq![c]
    }
}

/// `s` with every character as it stands in a string literal of TLA+.
pub open spec fn escaped(s: Seq<char>) -> Seq<char>
    decreases s.len(),
{
    if s.len() == 0 {
        Seq::empty()
    } else {
        escaped(s.drop_last()) + escaped_char(s.last())
    }
}

fn hex_digit_of(d: u32) -> (c: char)
    requires
        d < 16,
    ensures
        c == hex_digit(d as int),
{
    if d == 0 {
        '0'
    } else if d == 1 {
        '1'
    } else if d == 2 {
        '2'
    } else if d == 3 {
        '3'
    } else if d == 4 {
        '4'
    } else if d == 5 {
        '5'
    } else if d == 6 {
        '6'
    } else if d == 7 {
        '7'
    } else if d == 8 {
        '8'
    } else if d == 9 {
        '9'
    } else if d == 10 {
        'a'
    } else if d == 11 {
        'b'
    } else if d == 12 {
        'c'
    } else if d == 13 {
        'd'
    } else if d == 14 {
        'e'
    } else {
        'f'
    }
}

fn push_escaped_char(out: &mut String, c: char)
    ensures
        final(out)@ == old(out)@ + escaped_char(c),
{
    let n: u32 = c as u32;
    if c == '\\' {
        push_char(out, '\\');
        push_char(out, '\\');
    } else if c == '"' {
        push_char(out, '\\');
        push_char(out, '"');
    } else if c == '\n' {
        push_char(out, '\\');
        push_char(out, 'n');
    } else if c == '\r' {
        push_char(out, '\\');
        push_char(out, 'r');
    } else if c == '\t' {
        push_char(out, '\\');
        push_char(out, 't');
    } else if n <= 0x1f || (0x7f <= n && n <= 0x9f) {
        push_char(out, '\\');
        push_char(out, 'u');
        push_char(out, hex_digit_of((n / 4096) % 16));
        push_char(out, hex_digit_of((n / 256) % 16));
        push_char(out, hex_digit_of((n / 16) % 16));
        push_char(out, hex_digit_of(n % 16));
    } else {
        push_char(out, c);
    }
    assert(out@ =~= old(out)@ + escaped_char(c));
}

/// Escapes a string for use in a string literal of TLA+.
pub fn escape_tla_string(s: &str) -> (out: String)
    ensures
        out@ == escaped(s@),
{
    let chars = chars_of(s);
    let mut out = String::new();
    let mut i: usize = 0;
    assert(chars@.take(0) =~= Seq::<char>::empty());
    while i < chars.len()
        invariant
            i <= chars.len(),
            out@ == escaped(chars@.take(i as int)),
        decreases chars.len() - i,
    {
        push_escaped_char(&mut out, chars[i]);
        assert(chars@.take(i + 1).drop_last() =~= chars@.take(i as int));
        i += 1;
    }
    assert(chars@.take(i as int) =~= chars@);
    out
}

/// Whether a recorded trace is a behaviour of the specification.
#[derive(Debug)]
#[non_exhaustive]
pub enum TraceResult {
    /// The trace is a behaviour of the specification: the model checker
    /// could read it to its end.
    Valid,
    /// The trace is no behaviour of the specification.
    Invalid {
        /// Why, for people to read.
        reason: String,
    },
}

/// The arguments with which the model checker validates a trace of
/// `length` steps.
pub open spec fn validation_args_of(
    config: TraceValidatorConfigView,
    length: usize,
    out_dir: Seq<char>,
    spec_path: Seq<char>,
) -> Seq<Seq<char>> {
    seq![
        "check"@,
        "--init="@ + config.init,
        "--next="@ + config.next,
        "--inv="@ + config.inv,
        "--cinit="@ + config.cinit,
        "--length="@ + decimal(length as nat),
        "--out-dir="@ + out_dir,
        spec_path,
    ]
}

/// The arguments with which the model checker validates a trace that has
/// `trace_len` states: it is asked for one step fewer than there are
/// states, and for none where there is no state.
pub fn validation_args(
    config: &TraceValidatorConfig,
    trace_len: usize,
    out_dir: &str,
    spec_path: &str,
) -> (args: Vec<String>)
    ensures
        texts_of(args@) == validation_args_of(
            config@,
            if trace_len == 0 {
                0usize
            } else {
                (trace_len - 1) as usize
            },
            out_dir@,
            spec_path@,
        ),
{
    let length: usize = if trace_len == 0 {
        0
    } else {
        trace_len - 1
    };
    let mut args: Vec<String> = Vec::new();
    assert(texts_of(args@) =~= Seq::<Seq<char>>::empty());
    push_arg(&mut args, "check".to_owned());
    push_arg(&mut args, flag_text("--init=", config.init.as_str()));
    push_arg(&mut args, flag_text("--next=", config.next.as_str()));
    push_arg(&mut args, flag_text("--inv=", config.inv.as_str()));
    push_arg(&mut args, flag_text("--cinit=", config.cinit.as_str()));
    push_arg(&mut args, flag_number("--length=", length));
    push_arg(&mut args, flag_text("--out-dir=", out_dir));
    push_arg(&mut args, spec_path.to_owned());
    assert(texts_of(args@) =~= validation_args_of(config@, length, out_dir@, spec_path@));
    args
}

/// Whether a line of the model checker's standard output belongs to the
/// report of a failure: it holds `Error` or `error`.
pub open spec fn is_error_line(line: Seq<char>) -> bool {
    contains_text(line, "Error"@) || contains_text(line, "error"@)
}

/// Those of `lines` that belong to the report of a failure, in order.
pub open spec fn error_lines_of(lines: Seq<Seq<char>>) -> Seq<Seq<char>>
    decreases lines.len(),
{
    if lines.len() == 0 {
        Seq::empty()
    } else if is_error_line(lines.last()) {
        error_lines_of(lines.drop_last()).push(lines.last())
    } else {
        error_lines_of(lines.drop_last())
    }
}

/// Those of `lines` that are not empty, in order.
pub open spec fn nonempty_lines_of(lines: Seq<Seq<char>>) -> Seq<Seq<char>>
    decreases lines.len(),
{
    if lines.len() == 0 {
        Seq::empty()
    } else if lines.last().len() > 0 {
        nonempty_lines_of(lines.drop_last()).push(lines.last())
    } else {
        nonempty_lines_of(lines.drop_last())
    }
}

/// The report of a failed run of the model checker: the lines of its
/// standard output that hold `Error` or `error`, then the lines of its
/// standard error that are not empty, one to a line.
pub open spec fn failure_report(stdout: Seq<char>, stderr: Seq<char>) -> Seq<char> {
    joined(error_lines_of(lines_of(stdout)) + nonempty_lines_of(lines_of(stderr)), "\n"@)
}

/// The reason that is given for a trace that the model checker could not
/// read to its end.
pub open spec fn not_replayed_reason() -> Seq<char> {
    "Apalache completed without violating TraceFinished — the trace could not be fully replayed against the spec"@
}

fn failure_lines(stdout: &str, stderr: &str) -> (lines: Vec<String>)
    ensures
        texts_of(lines@) == error_lines_of(lines_of(stdout@)) + nonempty_lines_of(
            lines_of(stderr@),
        ),
{
    let out_chars = chars_of(stdout);
    let out_lines = split_lines(&out_chars);
    let err_chars = chars_of(stderr);
    let err_lines = split_lines(&err_chars);
    let upper = chars_of("Error");
    let lower = chars_of("error");
    let ghost outs = lines_of(stdout@);
    let ghost errs = lines_of(stderr@);
    let mut lines: Vec<String> = Vec::new();
    let mut i: usize = 0;
    assert(outs.take(0) =~= Seq::<Seq<char>>::empty());
    assert(texts_of(lines@) =~= Seq::<Seq<char>>::empty());
    while i < out_lines.len()
        invariant
            i <= out_lines.len(),
            outs == line_views(out_lines@),
            upper@ == "Error"@,
            lower@ == "error"@,
            texts_of(lines@) == error_lines_of(outs.take(i as int)),
        decreases out_lines.len() - i,
    {
        let ghost before = texts_of(lines@);
        assert(outs.take(i + 1).drop_last() =~= outs.take(i as int));
        assert(outs.take(i + 1).last() == out_lines@[i as int]@);
        if contains_chars(&out_lines[i], &upper) || contains_chars(&out_lines[i], &lower) {
            lines.push(string_of(&out_lines[i]));
            assert(texts_of(lines@) =~= before.push(out_lines@[i as int]@));
        }
        i += 1;
    }
    assert(outs.take(i as int) =~= outs);
    let ghost found = texts_of(lines@);
    let mut j: usize = 0;
    assert(errs.take(0) =~= Seq::<Seq<char>>::empty());
    assert(texts_of(lines@) =~= found + nonempty_lines_of(errs.take(0)));
    while j < err_lines.len()
        invariant
            j <= err_lines.len(),
            errs == line_views(err_lines@),
            texts_of(lines@) == found + nonempty_lines_of(errs.take(j as int)),
        decreases err_lines.len() - j,
    {
        let ghost before = texts_of(lines@);
        assert(errs.take(j + 1).drop_last() =~= errs.take(j as int));
        assert(errs.take(j + 1).last() == err_lines@[j as int]@);
        if err_lines[j].len() > 0 {
            lines.push(string_of(&err_lines[j]));
            assert(texts_of(lines@) =~= before.push(err_lines@[j as int]@));
            assert(texts_of(lines@) =~= found + nonempty_lines_of(errs.take(j + 1)));
        }
        j += 1;
    }
    assert(errs.take(j as int) =~= errs);
    lines
}

/// Reads the outcome of a validation from a run of the model checker. The exit code 12
/// says that the invariant was violated, which is what a trace that was read
/// to its end does: the trace is valid. The exit code 0 says that it was
/// not: the trace is invalid. Any other exit is a failure of the model
/// checker, and the error carries what it has reported.
pub fn parse_apalache_output(stdout: &str, stderr: &str, exit_code: Option<i32>) -> (r: Result<
    TraceResult,
    Error,
>)
    ensures
        exit_code == Some(12i32) ==> r matches Ok(TraceResult::Valid),
        exit_code == Some(0i32) ==> (r matches Ok(TraceResult::Invalid { reason }) && reason@
            == not_replayed_reason()),
        exit_code != Some(12i32) && exit_code != Some(0i32) ==> (r matches Err(e) && e@
            == ErrorView::Validation(
            ValidationErrorView::Apalache(
                ApalacheErrorView::Execution {
                    exit_code,
                    message: failure_report(stdout@, stderr@),
                },
            ),
        )),
{
    match exit_code {
        Some(12) => Ok(TraceResult::Valid),
        Some(0) => Ok(
            TraceResult::Invalid {
                reason: "Apalache completed without violating TraceFinished — the trace could not be fully replayed against the spec".to_owned(),
            },
        ),
        _ => {
            let lines = failure_lines(stdout, stderr);
            let mut message = String::new();
            push_joined(&mut message, &lines, "\n");
            assert(message@ =~= failure_report(stdout@, stderr@));
            Err(
                Error::Validation(
                    ValidationError::Apalache(ApalacheError::Execution { exit_code, message }),
                ),
            )
        },
    }
}

impl<'a> From<&'a str> for TraceValidatorConfig {
    /// The configuration for the specification at `trace_spec`, with every
    /// other field at its default.
    fn from(trace_spec: &'a str) -> (r: Self)
        ensures
            r@ == (TraceValidatorConfigView { trace_spec: trace_spec@, ..TraceValidatorConfigView::default_view() }),
    {
        let mut r = TraceValidatorConfig::default();
        r.trace_spec = trace_spec.to_owned();
        r
    }
}

/// What `from` makes is stated by `from` itself, over the view.
impl<'a> vstd::std_specs::convert::FromSpecImpl<&'a str> for TraceValidatorConfig {
    open spec fn obeys_from_spec() -> bool {
        false
    }

    open spec fn from_spec(trace_spec: &'a str) -> Self {
        arbitrary()
    }
}

} // verus!
