//! Logging set up the same way in every tool: what a tool asks for, and the filter it gets
//! when the environment asks for nothing.
//!
//! The level variables are read first: `OOPS_LOG`, then `RUST_LOG`, in `EnvFilter` syntax;
//! [`Logging::level`] applies only when neither is set. Then, when the level is `info` or more
//! verbose, `wgpu`, `wgpu_core`, `wgpu_hal` and `naga` are capped at `warn`: they log every
//! frame at `info`.
//!
//! Destinations: stderr always, never stdout, which tools pipe; a daily rolling file in a
//! chosen directory; OTLP export to a chosen endpoint.

use vstd::prelude::*;
use crate::paths::FsPath;

verus! {

/// The collection's level variable, read before `RUST_LOG`.
pub const LEVEL_ENV: &'static str = "OOPS_LOG";

/// How much is logged. Ordered as `tracing` orders its levels: `ERROR` is the quietest and
/// `TRACE` the most verbose.
#[derive(Debug, Clone, Copy, PartialEq, Eq, Hash)]
pub enum Level {
    /// Very verbose, low-level detail.
    TRACE,
    /// Information useful for debugging.
    DEBUG,
    /// Ordinary progress.
    INFO,
    /// Something that may need attention.
    WARN,
    /// Something that failed.
    ERROR,
}

/// How verbose a level is: 1 for `ERROR` up to 5 for `TRACE`.
pub open spec fn verbosity(level: Level) -> int {
    match level {
        Level::ERROR => 1,
        Level::WARN => 2,
        Level::INFO => 3,
        Level::DEBUG => 4,
        Level::TRACE => 5,
    }
}

/// A level's name as `tracing` writes it.
pub open spec fn level_name(level: Level) -> Seq<char> {
    match level {
        Level::ERROR => "ERROR"@,
        Level::WARN => "WARN"@,
        Level::INFO => "INFO"@,
        Level::DEBUG => "DEBUG"@,
        Level::TRACE => "TRACE"@,
    }
}

/// The crates that log every frame at `info`.
pub open spec fn render_caps() -> Seq<Seq<char>> {
    seq!["wgpu=warn"@, "wgpu_core=warn"@, "wgpu_hal=warn"@, "naga=warn"@]
}

/// The filter directives when no variable is set: `level` everywhere, then the render crates
/// capped at `warn` when `level` is more verbose than `warn`. At `warn` or quieter the cap
/// would raise them, so it is not added.
pub open spec fn default_directives_of(level: Level) -> Seq<Seq<char>> {
    if verbosity(level) <= verbosity(Level::WARN) {
        seq![level_name(level)]
    } else {
        seq![level_name(level)] + render_caps()
    }
}

impl Level {
    /// The level's name as `tracing` writes it: `TRACE`, `DEBUG`, `INFO`, `WARN`, `ERROR`.
    pub fn name(&self) -> (s: &'static str)
        ensures
            s@ == level_name(*self),
    {
        match self {
            Level::ERROR => "ERROR",
            Level::WARN => "WARN",
            Level::INFO => "INFO",
            Level::DEBUG => "DEBUG",
            Level::TRACE => "TRACE",
        }
    }

    /// Whether this level is `WARN` or quieter.
    pub fn is_warn_or_quieter(&self) -> (b: bool)
        ensures
            b == (verbosity(*self) <= verbosity(Level::WARN)),
    {
        match self {
            Level::ERROR | Level::WARN => true,
            _ => false,
        }
    }
}

/// The text of a list of directives.
pub open spec fn directive_texts(v: Seq<String>) -> Seq<Seq<char>> {
    v.map_values(|s: String| s@)
}

/// The filter directives when neither level variable is set, in the order they are added.
pub fn default_directives(level: Level) -> (directives: Vec<String>)
    ensures
        directive_texts(directives@) == default_directives_of(level),
{
    let mut directives: Vec<String> = Vec::new();
    directives.push(level.name().to_owned());
    if !level.is_warn_or_quieter() {
        directives.push("wgpu=warn".to_owned());
        directives.push("wgpu_core=warn".to_owned());
        directives.push("wgpu_hal=warn".to_owned());
        directives.push("naga=warn".to_owned());
    }
    assert(directive_texts(directives@) =~= default_directives_of(level));
    directives
}

/// How a tool wants its logging set up.
#[derive(Debug, Clone)]
pub struct Logging {
    /// The tool's name as a person would say it (`pros`, `obscene-tool`); what an aggregator
    /// groups by.
    pub service: String,
    /// The level used when neither environment variable is set.
    pub level: Level,
    /// Whether stderr output is coloured.
    pub ansi: bool,
    /// The build, for the startup line.
    pub build: Option<String>,
    /// Where the tool keeps its data, for the startup line.
    pub root: Option<FsPath>,
    /// Where a daily rolling file is written, if anywhere.
    pub directory: Option<FsPath>,
    /// Where spans are exported over OTLP, if anywhere.
    pub endpoint: Option<String>,
}

impl Logging {
    /// Starts configuring: level `INFO`, coloured, no build, no root and no destination past
    /// stderr.
    pub fn new(service: &str) -> (l: Self)
        ensures
            l.service@ == service@,
            l.level == Level::INFO,
            l.ansi,
            l.build is None,
            l.root is None,
            l.directory is None,
            l.endpoint is None,
    {
        Logging {
            service: service.to_owned(),
            level: Level::INFO,
            ansi: true,
            build: None,
            root: None,
            directory: None,
            endpoint: None,
        }
    }

    /// The build, for the startup line. Pass the build stamp's line.
    pub fn build(self, build: &str) -> (l: Self)
        ensures
            l.build matches Some(b) && b@ == build@,
            l == (Logging { build: l.build, ..self }),
    {
        Logging { build: Some(build.to_owned()), ..self }
    }

    /// Where the tool keeps its data, for the startup line. Pass the data root.
    pub fn root(self, root: FsPath) -> (l: Self)
        ensures
            l == (Logging { root: Some(root), ..self }),
    {
        Logging { root: Some(root), ..self }
    }

    /// The level used when neither environment variable is set.
    pub fn level(self, level: Level) -> (l: Self)
        ensures
            l == (Logging { level, ..self }),
    {
        Logging { level, ..self }
    }

    /// Turns colour off, for output that is captured.
    pub fn without_colour(self) -> (l: Self)
        ensures
            l == (Logging { ansi: false, ..self }),
    {
        Logging { ansi: false, ..self }
    }

    /// Also writes a daily rolling file in `directory`, typically the logs directory.
    pub fn to_file(self, directory: FsPath) -> (l: Self)
        ensures
            l == (Logging { directory: Some(directory), ..self }),
    {
        Logging { directory: Some(directory), ..self }
    }

    /// Also exports over OTLP to `endpoint`, e.g. `http://localhost:4317`. The caller must be
    /// inside a tokio runtime when logging is turned on.
    pub fn to_otlp(self, endpoint: &str) -> (l: Self)
        ensures
            l.endpoint matches Some(e) && e@ == endpoint@,
            l == (Logging { endpoint: l.endpoint, ..self }),
    {
        Logging { endpoint: Some(endpoint.to_owned()), ..self }
    }

    /// The build as the startup line names it: the one given, or `unstamped`.
    pub fn build_label(&self) -> (s: String)
        ensures
            s@ == match self.build {
                Some(b) => b@,
                None => "unstamped"@,
            },
    {
        match &self.build {
            Some(b) => b.clone(),
            None => "unstamped".to_owned(),
        }
    }
}

/// Each level has its own name, and the default filter names the level asked for: two
/// different levels never share a name, so a filter built for one level never enables
/// another's, and the first default directive is the level's own name.
pub proof fn each_level_has_its_own_name(a: Level, b: Level)
    ensures
        a != b ==> level_name(a) != level_name(b),
        default_directives_of(a)[0] == level_name(a),
        default_directives_of(a).len() >= 1,
{
    reveal_strlit("ERROR");
    reveal_strlit("WARN");
    reveal_strlit("INFO");
    reveal_strlit("DEBUG");
    reveal_strlit("TRACE");
    reveal_strlit("wgpu=warn");
    assert(level_name(Level::ERROR)[0] == 'E');
    assert(level_name(Level::WARN)[0] == 'W');
    assert(level_name(Level::INFO)[0] == 'I');
    assert(level_name(Level::DEBUG)[0] == 'D');
    assert(level_name(Level::TRACE)[0] == 'T');
    if a != b {
        assert(level_name(a)[0] != level_name(b)[0]);
    }
}

} // verus!
