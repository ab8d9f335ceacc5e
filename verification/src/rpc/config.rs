//! How interactive symbolic testing is configured.
use crate::json::Json;
use crate::json::JsonView;
use crate::text::optional_text;
use crate::text::texts_of;
use vstd::prelude::*;

verus! {

/// How interactive symbolic testing is run.
#[derive(Debug, Clone)]
#[non_exhaustive]
pub struct InteractiveConfig {
    /// The path of the specification's main module.
    pub spec: String,
    /// The other modules to send along. Where there are none, every `.tla`
    /// file beside the main module is sent.
    pub aux_files: Vec<String>,
    /// The name of the initial predicate; `Init` by default.
    pub init: String,
    /// The name of the next-state relation; `Next` by default.
    pub next: String,
    /// The largest number of steps in a run; 100 by default.
    pub max_steps: usize,
    /// The number of runs; 50 by default.
    pub num_runs: usize,
    /// The values of the constants, an object from their names to their
    /// values; none by default.
    pub constants: Json,
    /// The seed of the random choices. Runs with the same seed choose alike;
    /// without a seed the choices differ from run to run.
    pub seed: Option<u64>,
}

/// What a [`InteractiveConfig`] holds, with its texts as sequences of characters.
pub struct InteractiveConfigView {
    pub spec: Seq<char>,
    pub aux_files: Seq<Seq<char>>,
    pub init: Seq<char>,
    pub next: Seq<char>,
    pub max_steps: usize,
    pub num_runs: usize,
    pub constants: JsonView,
    pub seed: Option<u64>,
}

impl View for InteractiveConfig {
    type V = InteractiveConfigView;

    open spec fn view(&self) -> InteractiveConfigView {
        InteractiveConfigView {
            spec: self.spec@,
            aux_files: texts_of(self.aux_files@),
            init: self.init@,
            next: self.next@,
            max_steps: self.max_steps,
            num_runs: self.num_runs,
            constants: self.constants@,
            seed: self.seed,
        }
    }
}

impl InteractiveConfigView {
    /// The configuration in which every field has its default.
    pub open spec fn default_view() -> InteractiveConfigView {
        InteractiveConfigView {
            spec: Seq::empty(),
            aux_files: Seq::empty(),
            init: "Init"@,
            next: "Next"@,
            max_steps: 100,
            num_runs: 50,
            constants: JsonView::Object(Seq::empty()),
            seed: None,
        }
    }
}

impl Default for InteractiveConfig {
    fn default() -> (r: Self)
        ensures
            r@ == InteractiveConfigView::default_view(),
    {
        let r = InteractiveConfig {
            spec: String::new(),
            aux_files: Vec::new(),
            init: "Init".to_owned(),
            next: "Next".to_owned(),
            max_steps: 100,
            num_runs: 50,
            constants: Json::empty_object(),
            seed: None,
        };
        assert(texts_of(r.aux_files@) =~= Seq::<Seq<char>>::empty());
        r
    }
}

/// Builds a [`InteractiveConfig`] field by field; a field that is never set keeps
/// its default.
pub struct InteractiveConfigBuilder {
    spec: Option<String>,
    aux_files: Option<Vec<String>>,
    init: Option<String>,
    next: Option<String>,
    max_steps: Option<usize>,
    num_runs: Option<usize>,
    constants: Option<Json>,
    seed: Option<u64>,
}

/// What a [`InteractiveConfigBuilder`] has been given so far.
pub struct InteractiveConfigBuilderView {
    pub spec: Option<Seq<char>>,
    pub aux_files: Option<Seq<Seq<char>>>,
    pub init: Option<Seq<char>>,
    pub next: Option<Seq<char>>,
    pub max_steps: Option<usize>,
    pub num_runs: Option<usize>,
    pub constants: Option<JsonView>,
    pub seed: Option<u64>,
}

impl InteractiveConfigBuilderView {
    /// The builder that has been given nothing.
    pub open spec fn empty() -> InteractiveConfigBuilderView {
        InteractiveConfigBuilderView {
            spec: None,
            aux_files: None,
            init: None,
            next: None,
            max_steps: None,
            num_runs: None,
            constants: None,
            seed: None,
        }
    }

    /// The configuration that `build` makes: what was given, and the default
    /// for the rest.
    pub open spec fn built(self) -> InteractiveConfigView {
        InteractiveConfigView {
            spec: match self.spec {
                Some(v) => v,
                None => InteractiveConfigView::default_view().spec,
            },
            aux_files: match self.aux_files {
                Some(v) => v,
                None => InteractiveConfigView::default_view().aux_files,
            },
            init: match self.init {
                Some(v) => v,
                None => InteractiveConfigView::default_view().init,
            },
            next: match self.next {
                Some(v) => v,
                None => InteractiveConfigView::default_view().next,
            },
            max_steps: match self.max_steps {
                Some(v) => v,
                None => InteractiveConfigView::default_view().max_steps,
            },
            num_runs: match self.num_runs {
                Some(v) => v,
                None => InteractiveConfigView::default_view().num_runs,
            },
            constants: match self.constants {
                Some(v) => v,
                None => InteractiveConfigView::default_view().constants,
            },
            seed: self.seed,
        }
    }
}

impl InteractiveConfigBuilder {
    /// What the builder has been given so far.
    pub closed spec fn given(&self) -> InteractiveConfigBuilderView {
        InteractiveConfigBuilderView {
            spec: optional_text(self.spec),
            aux_files: match self.aux_files {
                Some(v) => Some(texts_of(v@)),
                None => None,
            },
            init: optional_text(self.init),
            next: optional_text(self.next),
            max_steps: self.max_steps,
            num_runs: self.num_runs,
            constants: match self.constants {
                Some(v) => Some(v@),
                None => None,
            },
            seed: self.seed,
        }
    }
}

impl InteractiveConfig {
    /// A builder that has been given nothing yet.
    pub fn builder() -> (r: InteractiveConfigBuilder)
        ensures
            r.given() == InteractiveConfigBuilderView::empty(),
    {
        InteractiveConfigBuilder {
            spec: None,
            aux_files: None,
            init: None,
            next: None,
            max_steps: None,
            num_runs: None,
            constants: None,
            seed: None,
        }
    }
}

impl InteractiveConfigBuilder {
    /// Sets the path of the specification's main module.
    pub fn spec(self, path: &str) -> (r: Self)
        ensures
            r.given() == (InteractiveConfigBuilderView { spec: Some(path@), ..self.given() }),
    {
        let mut r = self;
        r.spec = Some(path.to_owned());
        r
    }

    /// Sets the other modules to send along.
    pub fn aux_files(self, files: Vec<String>) -> (r: Self)
        ensures
            r.given() == (InteractiveConfigBuilderView { aux_files: Some(texts_of(files@)), ..self.given() }),
    {
        let mut r = self;
        r.aux_files = Some(files);
        r
    }

    /// Sets the name of the initial predicate.
    pub fn init(self, init: &str) -> (r: Self)
        ensures
            r.given() == (InteractiveConfigBuilderView { init: Some(init@), ..self.given() }),
    {
        let mut r = self;
        r.init = Some(init.to_owned());
        r
    }

    /// Sets the name of the next-state relation.
    pub fn next(self, next: &str) -> (r: Self)
        ensures
            r.given() == (InteractiveConfigBuilderView { next: Some(next@), ..self.given() }),
    {
        let mut r = self;
        r.next = Some(next.to_owned());
        r
    }

    /// Sets the largest number of steps in a run.
    pub fn max_steps(self, n: usize) -> (r: Self)
        ensures
            r.given() == (InteractiveConfigBuilderView { max_steps: Some(n), ..self.given() }),
    {
        let mut r = self;
        r.max_steps = Some(n);
        r
    }

    /// Sets the number of runs.
    pub fn num_runs(self, n: usize) -> (r: Self)
        ensures
            r.given() == (InteractiveConfigBuilderView { num_runs: Some(n), ..self.given() }),
    {
        let mut r = self;
        r.num_runs = Some(n);
        r
    }

    /// Sets the values of the constants.
    pub fn constants(self, constants: Json) -> (r: Self)
        ensures
            r.given() == (InteractiveConfigBuilderView { constants: Some(constants@), ..self.given() }),
    {
        let mut r = self;
        r.constants = Some(constants);
        r
    }

    /// Sets the seed of the random choices.
    pub fn seed(self, seed: u64) -> (r: Self)
        ensures
            r.given() == (InteractiveConfigBuilderView { seed: Some(seed), ..self.given() }),
    {
        let mut r = self;
        r.seed = Some(seed);
        r
    }

    /// Makes the configuration.
    pub fn build(self) -> (r: InteractiveConfig)
        ensures
            r@ == self.given().built(),
    {
        let defaults = InteractiveConfig::default();
        InteractiveConfig {
            spec: match self.spec {
                Some(v) => v,
                None => defaults.spec,
            },
            aux_files: match self.aux_files {
                Some(v) => v,
                None => defaults.aux_files,
            },
            init: match self.init {
                Some(v) => v,
                None => defaults.init,
            },
            next: match self.next {
                Some(v) => v,
                None => defaults.next,
            },
            max_steps: match self.max_steps {
                Some(v) => v,
                None => defaults.max_steps,
            },
            num_runs: match self.num_runs {
                Some(v) => v,
                None => defaults.num_runs,
            },
            constants: match self.constants {
                Some(v) => v,
                None => defaults.constants,
            },
            seed: self.seed,
        }
    }
}

impl<'a> From<&'a str> for InteractiveConfig {
    /// The configuration for the specification at `spec`, with every other
    /// field at its default.
    fn from(spec: &'a str) -> (r: Self)
        ensures
            r@ == (InteractiveConfigView { spec: spec@, ..InteractiveConfigView::default_view() }),
    {
        let mut r = InteractiveConfig::default();
        r.spec = spec.to_owned();
        r
    }
}

/// What `from` makes is stated by `from` itself, over the view.
impl<'a> vstd::std_specs::convert::FromSpecImpl<&'a str> for InteractiveConfig {
    open spec fn obeys_from_spec() -> bool {
        false
    }

    open spec fn from_spec(spec: &'a str) -> Self {
        arbitrary()
    }
}

} // verus!
