//! Where a tool keeps what it writes.
//!
//! Every tool resolves the same `OOPS` directory, so tools share files about the same titles
//! and hardware; only the config file is per tool, named after it.
//!
//! The platform layout uses the directory the operating system nominates; the home layout
//! uses `$HOME/.config/OOPS` everywhere, for a tool packaged in a container that redirects the
//! platform directory out of the user's sight.
//!
//! The data root holds what a person would carry to their next machine; the cache root holds
//! what can be rebuilt. In a portable run they are the same directory.
//!
//! A portable run keeps everything beside the binary. It is on when a portable variable is
//! truthy, when a `.portable` entry sits beside the executable, or when the executable's name
//! contains `portable`. Precedence: portable mode, then an explicit data directory, then the
//! layout.
//!
//! With no home directory and no executable location, the caller chooses through [`Nowhere`]
//! whether to fall back to the working directory or get `None`.
//!
//! A path here is an [`FsPath`]: the sequence of pieces that `PathBuf::from` and then
//! `Path::join` would be applied to, in order. Resolution reads nothing of the process itself:
//! everything it reads comes in a [`Process`] value.

use vstd::prelude::*;
use crate::text::{
    ascii_lower, ascii_upper, chars_of, contains, has_infix, lower_char, push_str, range_equals,
    string_of, trim, trim_bounds, upper_char,
};

verus! {

/// The directory beside the binary that marks a portable installation. Shared by every tool,
/// so one bundle directory is portable for all of them.
pub const PORTABLE_DIR: &'static str = ".portable";

/// The note written inside [`PORTABLE_DIR`]. The name is shared; the words are the caller's.
pub const PORTABLE_NOTE: &'static str = "PORTABLE.txt";

/// The directory every project in the collection writes to.
pub const OOPS_DIR: &'static str = "OOPS";

/// A filesystem path, kept as the pieces it is built from: the first is the path as given,
/// each later one is joined onto what comes before it.
#[derive(Debug, Clone, PartialEq, Eq)]
pub struct FsPath {
    /// The pieces, in the order they are joined.
    pub parts: Vec<String>,
}

impl View for FsPath {
    type V = Seq<Seq<char>>;

    open spec fn view(&self) -> Seq<Seq<char>> {
        self.parts@.map_values(|p: String| p@)
    }
}

impl FsPath {
    /// The path `path`, as given.
    pub fn new(path: &str) -> (p: FsPath)
        ensures
            p@ == seq![path@],
    {
        let mut parts: Vec<String> = Vec::new();
        parts.push(path.to_owned());
        let p = FsPath { parts };
        assert(p@ =~= seq![path@]);
        p
    }

    /// A copy of this path.
    pub fn duplicate(&self) -> (p: FsPath)
        ensures
            p@ == self@,
    {
        let mut parts: Vec<String> = Vec::new();
        let mut i: usize = 0;
        while i < self.parts.len()
            invariant
                i <= self.parts@.len(),
                parts@.len() == i,
                forall|k: int| 0 <= k < i ==> #[trigger] parts@[k]@ == self.parts@[k]@,
            decreases self.parts@.len() - i,
        {
            parts.push(self.parts[i].clone());
            i = i + 1;
        }
        let p = FsPath { parts };
        assert(p@ =~= self@);
        p
    }

    /// This path with `part` joined onto it.
    pub fn join(&self, part: &str) -> (p: FsPath)
        ensures
            p@ == self@.push(part@),
    {
        let mut p = self.duplicate();
        p.parts.push(part.to_owned());
        assert(p@ =~= self@.push(part@));
        p
    }
}

/// Where the root goes when the run is not portable.
#[derive(Debug, Clone, Copy, PartialEq, Eq, Default)]
pub enum Layout {
    /// The directory the operating system nominates, or the home layout where it nominates
    /// none.
    #[default]
    PlatformNative,
    /// `$HOME/.config/OOPS` on every platform, for a tool running inside a packaged container.
    Home,
}

/// The environment variables resolution reads, captured once so tests can supply them.
#[derive(Debug, Clone, Default, PartialEq, Eq)]
pub struct EnvSnapshot {
    /// Whether a portable variable is truthy.
    pub portable_flag: bool,
    /// An explicit data root, if one was given.
    pub data_dir: Option<FsPath>,
}

/// Everything resolution reads about the running process, as a value a test can build.
#[derive(Debug, Clone, Default, PartialEq, Eq)]
pub struct Process {
    /// The environment.
    pub env: EnvSnapshot,
    /// The executable's directory, if known.
    pub binary_dir: Option<FsPath>,
    /// Whether a [`PORTABLE_DIR`] entry, file or directory, exists in the executable's
    /// directory.
    pub portable_sentinel: bool,
    /// The executable's file stem, if known.
    pub binary_name: Option<String>,
    /// The user's home directory, if the machine has one.
    pub home: Option<FsPath>,
    /// The platform's application-data directory: `%APPDATA%`,
    /// `~/Library/Application Support`, `~/.local/share`.
    pub platform_data: Option<FsPath>,
    /// The platform's cache directory: `%LOCALAPPDATA%`, `~/Library/Caches`, `~/.cache`.
    /// `None` falls back to the data root.
    pub platform_cache: Option<FsPath>,
}

/// What resolution does when the machine offers no home and no readable executable location.
#[derive(Debug, Clone, Copy, PartialEq, Eq, Default)]
pub enum Nowhere {
    /// Use a directory under the working directory. For a tool that needs somewhere for a
    /// cache and would rather run than refuse.
    #[default]
    UseWorkingDirectory,
    /// Resolve to `None`. For a tool keeping something a person will look for later, which
    /// must not land wherever they happened to be standing.
    Refuse,
}

/// What resolution may vary by.
#[derive(Debug, Clone, Copy, PartialEq, Eq, Default)]
pub struct Options {
    /// Where the non-portable root goes.
    pub layout: Layout,
    /// What to do when there is nowhere proper.
    pub nowhere: Nowhere,
}

impl Options {
    /// [`Layout::PlatformNative`] and [`Nowhere::UseWorkingDirectory`].
    pub fn new() -> (o: Self)
        ensures
            o.layout == Layout::PlatformNative,
            o.nowhere == Nowhere::UseWorkingDirectory,
    {
        Options { layout: Layout::PlatformNative, nowhere: Nowhere::UseWorkingDirectory }
    }

    /// Sets the layout.
    pub fn layout(self, layout: Layout) -> (o: Self)
        ensures
            o.layout == layout,
            o.nowhere == self.nowhere,
    {
        Options { layout, nowhere: self.nowhere }
    }

    /// Refuses rather than writing to the working directory.
    pub fn refusing(self) -> (o: Self)
        ensures
            o.layout == self.layout,
            o.nowhere == Nowhere::Refuse,
    {
        Options { layout: self.layout, nowhere: Nowhere::Refuse }
    }
}

/// A resolved set of writable locations.
#[derive(Debug, Clone, PartialEq, Eq)]
pub struct Paths {
    data_root: FsPath,
    cache_root: FsPath,
    /// The asking tool; names its config file.
    app: String,
    portable: bool,
}

/// What a [`Paths`] holds, as plain values.
pub struct PathsView {
    pub data_root: Seq<Seq<char>>,
    pub cache_root: Seq<Seq<char>>,
    pub app: Seq<char>,
    pub portable: bool,
}

impl View for Paths {
    type V = PathsView;

    closed spec fn view(&self) -> PathsView {
        PathsView {
            data_root: self.data_root@,
            cache_root: self.cache_root@,
            app: self.app@,
            portable: self.portable,
        }
    }
}

/// The path of an optional directory.
pub open spec fn dir_of(dir: Option<FsPath>) -> Seq<Seq<char>> {
    match dir {
        Some(d) => d@,
        None => Seq::empty(),
    }
}

/// Whether an executable's name asks for a portable run: it contains `portable` in any ASCII
/// case.
pub open spec fn names_itself_portable(name: Option<String>) -> bool {
    match name {
        Some(n) => has_infix(n@.map_values(|c: char| ascii_lower(c)), "portable"@),
        None => false,
    }
}

/// Whether the run is portable.
pub open spec fn runs_portable(process: Process) -> bool {
    ||| process.env.portable_flag
    ||| (process.binary_dir is Some && process.portable_sentinel)
    ||| names_itself_portable(process.binary_name)
}

/// The collection root under a layout, and whether it is a proper location: the platform
/// directory, else the home layout, else `OOPS` under the working directory, which is not
/// proper.
pub open spec fn default_root(layout: Layout, process: Process) -> (Seq<Seq<char>>, bool) {
    if layout == Layout::PlatformNative && process.platform_data is Some {
        (dir_of(process.platform_data).push(OOPS_DIR@), true)
    } else if process.home is Some {
        (dir_of(process.home).push(".config"@).push(OOPS_DIR@), true)
    } else {
        (seq![OOPS_DIR@], false)
    }
}

/// The paths `app` resolves to under `layout` for `process`, and whether they are a proper
/// location.
pub open spec fn resolution(app: Seq<char>, layout: Layout, process: Process) -> (
    PathsView,
    bool,
) {
    if runs_portable(process) {
        let base = if process.binary_dir is Some {
            dir_of(process.binary_dir)
        } else {
            seq![seq!['.']]
        };
        let root = base.push(PORTABLE_DIR@);
        (
            PathsView { data_root: root, cache_root: root, app, portable: true },
            process.binary_dir is Some,
        )
    } else if process.env.data_dir is Some {
        let dir = dir_of(process.env.data_dir);
        (PathsView { data_root: dir, cache_root: dir, app, portable: false }, true)
    } else {
        let (base, proper) = default_root(layout, process);
        let cache = if layout == Layout::PlatformNative && process.platform_cache is Some {
            dir_of(process.platform_cache).push(OOPS_DIR@)
        } else {
            base
        };
        (PathsView { data_root: base, cache_root: cache, app, portable: false }, proper)
    }
}

/// What `resolve_with` answers: the resolution, unless refusing and it is not proper.
pub open spec fn resolution_with(app: Seq<char>, options: Options, process: Process) -> Option<
    PathsView,
> {
    let (paths, proper) = resolution(app, options.layout, process);
    if proper || options.nowhere != Nowhere::Refuse {
        Some(paths)
    } else {
        None
    }
}

/// The config file's name for `app`: `<app>.toml`.
pub open spec fn config_name(app: Seq<char>) -> Seq<char> {
    app + ".toml"@
}

/// Lower-cases the ASCII letters of `v`.
fn lower_ascii(v: &[char]) -> (r: Vec<char>)
    ensures
        r@ == v@.map_values(|c: char| ascii_lower(c)),
{
    let mut r: Vec<char> = Vec::new();
    let mut i: usize = 0;
    while i < v.len()
        invariant
            i <= v@.len(),
            r@ == v@.subrange(0, i as int).map_values(|c: char| ascii_lower(c)),
        decreases v@.len() - i,
    {
        r.push(lower_char(v[i]));
        i = i + 1;
        assert(r@ =~= v@.subrange(0, i as int).map_values(|c: char| ascii_lower(c)));
    }
    assert(v@.subrange(0, v@.len() as int) == v@);
    r
}

/// Whether an executable name asks for a portable run.
fn name_is_portable(name: &Option<String>) -> (b: bool)
    ensures
        b == names_itself_portable(*name),
{
    match name {
        Some(n) => {
            let text = chars_of(n.as_str());
            let lower = lower_ascii(text.as_slice());
            let word = chars_of("portable");
            contains(lower.as_slice(), word.as_slice())
        },
        None => false,
    }
}

impl Paths {
    fn from_parts(data_root: FsPath, cache_root: FsPath, app: &str, portable: bool) -> (p: Paths)
        ensures
            p@.data_root == data_root@,
            p@.cache_root == cache_root@,
            p@.app == app@,
            p@.portable == portable,
    {
        Paths { data_root, cache_root, app: app.to_owned(), portable }
    }

    /// Resolves from a given [`Process`]. `None` only when refusing and there is nowhere.
    pub fn resolve_with(app: &str, options: Options, process: &Process) -> (r: Option<Paths>)
        ensures
            match r {
                Some(paths) => resolution_with(app@, options, *process) == Some(paths@),
                None => resolution_with(app@, options, *process) is None,
            },
    {
        let (paths, proper) = Self::resolve_found(app, options.layout, process);
        let refusing = match options.nowhere {
            Nowhere::Refuse => true,
            Nowhere::UseWorkingDirectory => false,
        };
        if proper || !refusing {
            Some(paths)
        } else {
            None
        }
    }

    /// Resolves from a given [`Process`], always returning an answer plus whether it is a
    /// proper location. For a caller that always wants a root and applies no [`Nowhere`]
    /// policy.
    pub fn resolve_found(app: &str, layout: Layout, process: &Process) -> (r: (Paths, bool))
        ensures
            (r.0@, r.1) == resolution(app@, layout, *process),
    {
        let sentinel = process.binary_dir.is_some() && process.portable_sentinel;
        let named = name_is_portable(&process.binary_name);
        // Portable mode beats an explicit root, so a stale variable cannot undo it.
        if process.env.portable_flag || sentinel || named {
            // With no binary directory the run is rooted at the working directory, which is
            // not a proper location.
            let base = match &process.binary_dir {
                Some(dir) => dir.duplicate(),
                None => FsPath::new("."),
            };
            proof {
                reveal_strlit(".");
                assert("."@ =~= seq!['.']);
            }
            assert(runs_portable(*process));
            assert(base@ == (if process.binary_dir is Some {
                dir_of(process.binary_dir)
            } else {
                seq![seq!['.']]
            }));
            let root = base.join(PORTABLE_DIR);
            let cache = root.duplicate();
            return (Self::from_parts(root, cache, app, true), process.binary_dir.is_some());
        }
        // An explicit root is used as given, with no `OOPS` appended, for data and cache.
        if let Some(dir) = &process.env.data_dir {
            return (Self::from_parts(dir.duplicate(), dir.duplicate(), app, false), true);
        }
        let native = match layout {
            Layout::PlatformNative => true,
            Layout::Home => false,
        };
        let (base, proper) = if native && process.platform_data.is_some() {
            let data = process.platform_data.as_ref().unwrap();
            (data.join(OOPS_DIR), true)
        } else {
            match &process.home {
                Some(home) => (home.join(".config").join(OOPS_DIR), true),
                None => (FsPath::new(OOPS_DIR), false),
            }
        };
        let cache = if native && process.platform_cache.is_some() {
            process.platform_cache.as_ref().unwrap().join(OOPS_DIR)
        } else {
            base.duplicate()
        };
        (Self::from_parts(base, cache, app, false), proper)
    }

    /// Paths under a root chosen by the caller, with the cache in the same place. For tests
    /// and callers with their own rule.
    pub fn rooted_at(data_root: FsPath) -> (p: Paths)
        ensures
            p@.data_root == data_root@,
            p@.cache_root == data_root@,
            p@.app == "oops"@,
            !p@.portable,
    {
        let cache = data_root.duplicate();
        Self::from_parts(data_root, cache, "oops", false)
    }

    /// Whether this run is confined beside its binary.
    pub fn is_portable(&self) -> (b: bool)
        ensures
            b == self@.portable,
    {
        self.portable
    }

    /// The root for data worth keeping.
    pub fn data_root(&self) -> (p: &FsPath)
        ensures
            p@ == self@.data_root,
    {
        &self.data_root
    }

    /// Everything known about one title, by identifier.
    ///
    /// `fs/` under it is the title's guest filesystem, laid out by the guest's own paths.
    pub fn title_dir(&self, title: &str) -> (p: FsPath)
        ensures
            p@ == self@.data_root.push("titles"@).push(title@),
    {
        self.data_root.join("titles").join(title)
    }

    /// The root for rebuildable material. Equal to the data root in a portable run.
    pub fn cache_root(&self) -> (p: &FsPath)
        ensures
            p@ == self@.cache_root,
    {
        &self.cache_root
    }

    /// Where log files go; a log belongs to one machine, so it is under the cache root.
    pub fn logs_dir(&self) -> (p: FsPath)
        ensures
            p@ == self@.cache_root.push("logs"@),
    {
        self.cache_root.join("logs")
    }

    /// Regenerable material. Deleting the whole directory is always safe.
    pub fn cache_dir(&self) -> (p: FsPath)
        ensures
            p@ == self@.cache_root.push("cache"@),
    {
        self.cache_root.join("cache")
    }

    /// This tool's config file, `<app>.toml` in the data root.
    pub fn config_file(&self) -> (p: FsPath)
        ensures
            p@ == self@.data_root.push(config_name(self@.app)),
    {
        let mut name: Vec<char> = chars_of(self.app.as_str());
        push_str(&mut name, ".toml");
        let name = string_of(name.as_slice());
        self.data_root.join(name.as_str())
    }

    /// Every directory this type names, for display.
    pub fn named_dirs(&self) -> (dirs: Vec<(&'static str, FsPath)>)
        ensures
            dirs@.len() == 5,
            dirs@[0].0@ == "root"@ && dirs@[0].1@ == self@.data_root,
            dirs@[1].0@ == "cache-root"@ && dirs@[1].1@ == self@.cache_root,
            dirs@[2].0@ == "logs"@ && dirs@[2].1@ == self@.cache_root.push("logs"@),
            dirs@[3].0@ == "cache"@ && dirs@[3].1@ == self@.cache_root.push("cache"@),
            dirs@[4].0@ == "titles"@ && dirs@[4].1@ == self@.data_root.push("titles"@),
    {
        let mut dirs: Vec<(&'static str, FsPath)> = Vec::new();
        dirs.push(("root", self.data_root.duplicate()));
        dirs.push(("cache-root", self.cache_root.duplicate()));
        dirs.push(("logs", self.logs_dir()));
        dirs.push(("cache", self.cache_dir()));
        dirs.push(("titles", self.data_root.join("titles")));
        dirs
    }
}

/// What an environment value means "on": `1`, `true`, `yes` or `on`, in any ASCII case and
/// with white space around it. Anything else is off.
pub open spec fn truthy(value: Seq<char>) -> bool {
    let v = trim(value).map_values(|c: char| ascii_lower(c));
    v == "1"@ || v == "true"@ || v == "yes"@ || v == "on"@
}

/// Whether an environment value means "on".
pub fn is_truthy(value: &str) -> (b: bool)
    ensures
        b == truthy(value@),
{
    let text = chars_of(value);
    let (a, z) = trim_bounds(text.as_slice());
    let trimmed = text.as_slice().split_at(z).0.split_at(a).1;
    assert(trimmed@ == text@.subrange(a as int, z as int));
    let v = lower_ascii(trimmed);
    let one = chars_of("1");
    let yes_true = chars_of("true");
    let yes = chars_of("yes");
    let on = chars_of("on");
    let n = v.len();
    assert(v@.subrange(0, n as int) == v@);
    range_equals(v.as_slice(), 0, n, one.as_slice()) || range_equals(
        v.as_slice(),
        0,
        n,
        yes_true.as_slice(),
    ) || range_equals(v.as_slice(), 0, n, yes.as_slice()) || range_equals(
        v.as_slice(),
        0,
        n,
        on.as_slice(),
    )
}

/// The prefix of `app`'s own variables: its name in ASCII capitals, with `-` and space made
/// `_`.
pub open spec fn variable_prefix(app: Seq<char>) -> Seq<char> {
    app.map_values(|c: char| if c == '-' || c == ' ' { '_' } else { ascii_upper(c) })
}

/// The name of `app`'s own variable with `suffix`: `<APP>_<SUFFIX>`.
pub open spec fn variable_name_of(app: Seq<char>, suffix: Seq<char>) -> Seq<char> {
    variable_prefix(app) + "_"@ + suffix
}

/// The name of `app`'s own variable with `suffix`, such as `OBSCENE_TOOL_PORTABLE`. It wins
/// over the collection's `OOPS_<SUFFIX>`, so two tools in one shell can use different roots.
pub fn variable_name(app: &str, suffix: &str) -> (name: String)
    ensures
        name@ == variable_name_of(app@, suffix@),
{
    let text = chars_of(app);
    let mut out: Vec<char> = Vec::new();
    let mut i: usize = 0;
    while i < text.len()
        invariant
            i <= text@.len(),
            out@ == variable_prefix(text@.subrange(0, i as int)),
        decreases text@.len() - i,
    {
        let c = text[i];
        if c == '-' || c == ' ' {
            out.push('_');
        } else {
            out.push(upper_char(c));
        }
        i = i + 1;
        assert(out@ =~= variable_prefix(text@.subrange(0, i as int)));
    }
    assert(text@.subrange(0, text@.len() as int) == text@);
    push_str(&mut out, "_");
    push_str(&mut out, suffix);
    string_of(out.as_slice())
}

/// The first of two variables that is set.
pub open spec fn first_set(own: Option<String>, shared: Option<String>) -> Option<String> {
    match own {
        Some(v) => Some(v),
        None => shared,
    }
}

/// The snapshot that the values of the four variables give.
pub open spec fn snapshot_of(
    own_portable: Option<String>,
    shared_portable: Option<String>,
    own_data_dir: Option<String>,
    shared_data_dir: Option<String>,
) -> (bool, Option<Seq<Seq<char>>>) {
    let portable = match first_set(own_portable, shared_portable) {
        Some(v) => truthy(v@),
        None => false,
    };
    let data_dir = match first_set(own_data_dir, shared_data_dir) {
        Some(v) => if v@.len() == 0 {
            None
        } else {
            Some(seq![v@])
        },
        None => None,
    };
    (portable, data_dir)
}

impl EnvSnapshot {
    /// The snapshot from the values of `<APP>_PORTABLE`, `OOPS_PORTABLE`, `<APP>_DATA_DIR` and
    /// `OOPS_DATA_DIR`, `None` for a variable that is not set. The tool's own variable wins over
    /// the collection's even when its value is empty or off. A portable value that is not
    /// text is handed over as an empty string, which is off.
    pub fn from_vars(
        own_portable: Option<String>,
        shared_portable: Option<String>,
        own_data_dir: Option<String>,
        shared_data_dir: Option<String>,
    ) -> (e: EnvSnapshot)
        ensures
            ({
                let (portable, data_dir) = snapshot_of(
                    own_portable,
                    shared_portable,
                    own_data_dir,
                    shared_data_dir,
                );
                &&& e.portable_flag == portable
                &&& match e.data_dir {
                    Some(d) => data_dir == Some(d@),
                    None => data_dir is None,
                }
            }),
    {
        let portable = match own_portable {
            Some(v) => Some(v),
            None => shared_portable,
        };
        let portable_flag = match portable {
            Some(v) => is_truthy(v.as_str()),
            None => false,
        };
        let data = match own_data_dir {
            Some(v) => Some(v),
            None => shared_data_dir,
        };
        let data_dir = match data {
            Some(v) => if v.as_str().is_empty() {
                None
            } else {
                Some(FsPath::new(v.as_str()))
            },
            None => None,
        };
        EnvSnapshot { portable_flag, data_dir }
    }
}

/// Portable mode beats an explicit root: a portable run is rooted at `.portable` beside the
/// binary (or under the working directory), with data and cache in that one directory,
/// whatever data directory the environment names.
pub proof fn portable_beats_an_explicit_root(app: Seq<char>, layout: Layout, process: Process)
    requires
        runs_portable(process),
    ensures
        ({
            let (paths, proper) = resolution(app, layout, process);
            &&& paths.portable
            &&& paths.data_root == paths.cache_root
            &&& paths.data_root.len() > 0
            &&& paths.data_root.last() == PORTABLE_DIR@
            &&& proper == process.binary_dir is Some
        }),
{
}

/// An explicit data directory, in a run that is not portable, is used as given for data and
/// cache, and is a proper answer, so even a refusing resolution gives it.
pub proof fn an_explicit_root_is_used_as_given(app: Seq<char>, options: Options, process: Process)
    requires
        !runs_portable(process),
        process.env.data_dir is Some,
    ensures
        ({
            let (paths, proper) = resolution(app, options.layout, process);
            &&& !paths.portable
            &&& paths.data_root == dir_of(process.env.data_dir)
            &&& paths.cache_root == dir_of(process.env.data_dir)
            &&& proper
            &&& resolution_with(app, options, process) == Some(paths)
        }),
{
}

/// Refusing changes the answer only where there is nowhere proper: there it gives `None`,
/// and everywhere else the same paths as falling back would.
pub proof fn refusing_matters_only_where_there_is_nowhere(
    app: Seq<char>,
    layout: Layout,
    process: Process,
)
    ensures
        ({
            let (paths, proper) = resolution(app, layout, process);
            let falling_back = Options { layout, nowhere: Nowhere::UseWorkingDirectory };
            let refusing = Options { layout, nowhere: Nowhere::Refuse };
            &&& resolution_with(app, falling_back, process) == Some(paths)
            &&& proper ==> resolution_with(app, refusing, process) == Some(paths)
            &&& !proper ==> resolution_with(app, refusing, process) is None
        }),
{
}

/// Every tool resolves the same collection directory: two tools get the same roots, the same
/// portability and the same title directories, and their config files differ exactly when
/// their names do.
pub proof fn tools_share_the_collection_directory(
    one: Seq<char>,
    two: Seq<char>,
    layout: Layout,
    process: Process,
)
    ensures
        ({
            let (first, first_proper) = resolution(one, layout, process);
            let (second, second_proper) = resolution(two, layout, process);
            &&& first.data_root == second.data_root
            &&& first.cache_root == second.cache_root
            &&& first.portable == second.portable
            &&& first_proper == second_proper
            &&& (first.data_root.push(config_name(first.app)) == second.data_root.push(
                config_name(second.app),
            ) <==> one == two)
        }),
{
    let (first, _) = resolution(one, layout, process);
    let (second, _) = resolution(two, layout, process);
    let a = first.data_root.push(config_name(one));
    let b = second.data_root.push(config_name(two));
    if a == b {
        assert(a.last() == b.last());
        assert(config_name(one) == config_name(two));
        assert(config_name(one).len() == one.len() + ".toml"@.len());
        assert(one == config_name(one).subrange(0, one.len() as int));
        assert(two == config_name(two).subrange(0, two.len() as int));
    }
}

/// Data and cache are split only where the platform layout names a cache directory; with the
/// home layout, an explicit root or a portable run, both are one directory.
pub proof fn the_cache_root_is_split_only_by_the_platform(
    app: Seq<char>,
    layout: Layout,
    process: Process,
)
    ensures
        ({
            let (paths, _) = resolution(app, layout, process);
            paths.data_root != paths.cache_root ==> {
                &&& !runs_portable(process)
                &&& process.env.data_dir is None
                &&& layout == Layout::PlatformNative
                &&& process.platform_cache is Some
                &&& paths.cache_root == dir_of(process.platform_cache).push(OOPS_DIR@)
            }
        }),
{
}

/// Whether `root` is where `path` starts.
pub open spec fn lies_under(path: Seq<Seq<char>>, root: Seq<Seq<char>>) -> bool {
    root.len() <= path.len() && path.subrange(0, root.len() as int) == root
}

/// Everything a [`Paths`] names lies under one of its roots: the titles and the config file
/// under the data root, logs and cache under the cache root.
pub proof fn everything_lies_under_a_root(paths: PathsView, title: Seq<char>)
    ensures
        lies_under(paths.data_root.push("titles"@).push(title), paths.data_root),
        lies_under(paths.data_root.push(config_name(paths.app)), paths.data_root),
        lies_under(paths.cache_root.push("logs"@), paths.cache_root),
        lies_under(paths.cache_root.push("cache"@), paths.cache_root),
{
    assert(paths.data_root.push("titles"@).push(title).subrange(
        0,
        paths.data_root.len() as int,
    ) == paths.data_root);
    assert(paths.data_root.push(config_name(paths.app)).subrange(
        0,
        paths.data_root.len() as int,
    ) == paths.data_root);
    assert(paths.cache_root.push("logs"@).subrange(0, paths.cache_root.len() as int)
        == paths.cache_root);
    assert(paths.cache_root.push("cache"@).subrange(0, paths.cache_root.len() as int)
        == paths.cache_root);
}

/// Whether `a` and `b` are the same text but for the case of ASCII letters.
pub open spec fn same_but_for_case(a: Seq<char>, b: Seq<char>) -> bool {
    &&& a.len() == b.len()
    &&& forall|i: int|
        0 <= i < a.len() ==> {
            ||| a[i] == b[i]
            ||| ('A' <= a[i] && a[i] <= 'Z' && #[trigger] b[i] as int == a[i] as int + 32)
            ||| ('A' <= b[i] && b[i] <= 'Z' && a[i] as int == b[i] as int + 32)
        }
}

/// The executable's name turns portable mode on in any ASCII case: two names that differ
/// only in the case of their letters both ask for it or both do not, and a name holding
/// `portable` asks for it, so `App-Portable` does as `app-portable` does. A name that asks
/// for it makes the run portable, rooted at `.portable` beside the binary.
pub proof fn the_name_asks_for_portable_mode_in_any_case(
    one: String,
    two: String,
    app: Seq<char>,
    layout: Layout,
    process: Process,
)
    ensures
        same_but_for_case(one@, two@) ==> names_itself_portable(Some(one))
            == names_itself_portable(Some(two)),
        (exists|i: int|
            0 <= i && i + 8 <= one@.len() && #[trigger] one@.subrange(i, i + 8) == seq![
                'p',
                'o',
                'r',
                't',
                'a',
                'b',
                'l',
                'e',
            ]) ==> names_itself_portable(Some(one)),
        names_itself_portable(process.binary_name) ==> ({
            let (paths, _) = resolution(app, layout, process);
            &&& paths.portable
            &&& paths.data_root == paths.cache_root
            &&& process.binary_dir is Some ==> paths.data_root == dir_of(process.binary_dir).push(
                ".portable"@,
            )
        }),
{
    reveal_strlit("portable");
    let word = seq!['p', 'o', 'r', 't', 'a', 'b', 'l', 'e'];
    assert("portable"@ =~= word);
    let low1 = one@.map_values(|c: char| ascii_lower(c));
    let low2 = two@.map_values(|c: char| ascii_lower(c));
    if same_but_for_case(one@, two@) {
        assert forall|i: int| 0 <= i < low1.len() implies low1[i] == low2[i] by {
            let a = one@[i];
            let b = two@[i];
            assert(b == two@[i]);
            if 'A' <= a && a <= 'Z' && b as int == a as int + 32 {
                assert(ascii_lower(a) == b);
                assert(ascii_lower(b) == b);
            } else if 'A' <= b && b <= 'Z' && a as int == b as int + 32 {
                assert(ascii_lower(b) == a);
                assert(ascii_lower(a) == a);
            }
        }
        assert(low1 =~= low2);
    }
    if exists|i: int|
        0 <= i && i + 8 <= one@.len() && #[trigger] one@.subrange(i, i + 8) == word {
        let i = choose|i: int|
            0 <= i && i + 8 <= one@.len() && #[trigger] one@.subrange(i, i + 8) == word;
        assert forall|k: int| 0 <= k < 8 implies low1.subrange(i, i + 8)[k] == word[k] by {
            assert(one@.subrange(i, i + 8)[k] == one@[i + k]);
            assert(low1[i + k] == ascii_lower(one@[i + k]));
        }
        assert(low1.subrange(i, i + 8) =~= word);
        assert(has_infix(low1, "portable"@));
    }
}

} // verus!
