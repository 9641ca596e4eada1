use oops_libs::paths::{
    is_truthy, variable_name, EnvSnapshot, FsPath, Layout, Options, Paths, Process, OOPS_DIR,
    PORTABLE_DIR,
};
use std::path::{Path, PathBuf};

/// The path the pieces of `p` make when joined in order.
fn joined(p: &FsPath) -> PathBuf {
    let mut out = PathBuf::new();
    for part in &p.parts {
        out.push(part);
    }
    out
}

fn dir(p: &str) -> Option<FsPath> {
    Some(FsPath::new(p))
}

/// A process with a binary, a home and platform directories.
fn process(portable: bool, data_dir: Option<&str>, name: Option<&str>) -> Process {
    Process {
        env: EnvSnapshot {
            portable_flag: portable,
            data_dir: data_dir.map(FsPath::new),
        },
        binary_dir: dir("/opt/app"),
        portable_sentinel: false,
        binary_name: name.map(str::to_owned),
        home: dir("/home/someone"),
        platform_data: dir("/appdata"),
        platform_cache: dir("/localappdata"),
    }
}

/// A process with no home and no executable location.
fn nowhere(portable: bool) -> Process {
    Process {
        env: EnvSnapshot {
            portable_flag: portable,
            data_dir: None,
        },
        binary_dir: None,
        portable_sentinel: false,
        binary_name: None,
        home: None,
        platform_data: None,
        platform_cache: None,
    }
}

fn resolve(options: Options, process: &Process) -> Option<Paths> {
    Paths::resolve_with("app", options, process)
}

/// Portable mode wins over an explicit root.
#[test]
fn portable_beats_an_explicit_root() {
    let paths = resolve(
        Options::new(),
        &process(true, Some("/elsewhere"), Some("app")),
    )
    .unwrap();
    assert!(paths.is_portable());
    assert_eq!(joined(paths.data_root()), Path::new("/opt/app").join(PORTABLE_DIR));
}

/// An explicit root wins over the layout.
#[test]
fn an_explicit_root_beats_the_layout() {
    let paths = resolve(
        Options::new(),
        &process(false, Some("/elsewhere"), Some("app")),
    )
    .unwrap();
    assert!(!paths.is_portable());
    assert_eq!(joined(paths.data_root()), Path::new("/elsewhere"));
}

/// An executable whose name contains `portable` runs portable.
#[test]
fn a_binary_calling_itself_portable_is_portable() {
    let paths = resolve(
        Options::new(),
        &process(false, None, Some("app-portable-x86_64")),
    )
    .unwrap();
    assert!(paths.is_portable());
}

/// Only the listed values turn portable mode on; `no` does not.
#[test]
fn only_recognised_values_turn_portable_mode_on() {
    for on in ["1", "true", "YES", " on "] {
        assert!(is_truthy(on), "{on:?} should be on");
    }
    for off in ["no", "0", "false", "off", "", "maybe"] {
        assert!(!is_truthy(off), "{off:?} should not be on");
    }
}

/// With nowhere to stand, the default falls back to the working directory.
#[test]
fn nowhere_to_stand_falls_back_by_default() {
    let paths = resolve(Options::new(), &nowhere(true)).unwrap();
    assert!(paths.is_portable());
    assert_eq!(joined(paths.data_root()), Path::new(".").join(PORTABLE_DIR));
}

/// With nowhere to stand, refusing yields `None`.
#[test]
fn nowhere_to_stand_refuses_when_asked_to() {
    assert!(resolve(Options::new().refusing(), &nowhere(true)).is_none());
    assert!(resolve(Options::new().refusing(), &nowhere(false)).is_none());
}

/// Refusing changes nothing when there is a proper location.
#[test]
fn refusing_changes_nothing_when_there_is_somewhere_to_stand() {
    let here = process(true, None, Some("app"));
    assert_eq!(
        resolve(Options::new(), &here),
        resolve(Options::new().refusing(), &here)
    );
}

/// An explicit root is a proper answer even when refusing.
#[test]
fn an_explicit_root_is_an_answer_even_when_refusing() {
    let mut nothing = nowhere(false);
    nothing.env.data_dir = dir("/elsewhere");
    let paths = resolve(Options::new().refusing(), &nothing).unwrap();
    assert_eq!(joined(paths.data_root()), Path::new("/elsewhere"));
}

/// The default layout is the platform's data directory.
#[test]
fn the_default_layout_is_the_platform_s_own() {
    let paths = resolve(Options::new(), &process(false, None, Some("app"))).unwrap();
    assert_eq!(joined(paths.data_root()), Path::new("/appdata").join(OOPS_DIR));
    assert!(!paths.is_portable());
}

/// The home layout is `.config/OOPS` under the home directory.
#[test]
fn the_home_layout_is_a_dotted_directory_under_the_home() {
    let options = Options::new().layout(Layout::Home);
    let paths = resolve(options, &process(false, None, Some("app"))).unwrap();
    assert_eq!(
        joined(paths.data_root()),
        Path::new("/home/someone").join(".config").join(OOPS_DIR)
    );
    assert!(!paths.is_portable());
}

/// Two tools share the root and title directories; only their config files differ.
#[test]
fn two_projects_resolve_to_the_same_directory() {
    let here = process(false, None, Some("app"));
    let one = Paths::resolve_with("prosperous", Options::new(), &here).unwrap();
    let two = Paths::resolve_with("orbistoun", Options::new(), &here).unwrap();
    assert_eq!(one.data_root(), two.data_root());
    assert_eq!(one.title_dir("CUSA00001"), two.title_dir("CUSA00001"));
    assert_ne!(one.config_file(), two.config_file());
    assert!(joined(&one.config_file()).ends_with("prosperous.toml"));
}

/// Portable tools beside one another share one root too.
#[test]
fn a_portable_run_shares_between_projects_too() {
    let here = process(true, None, Some("app"));
    let one = Paths::resolve_with("prosperous", Options::new(), &here).unwrap();
    let two = Paths::resolve_with("orbistoun", Options::new(), &here).unwrap();
    assert_eq!(one.data_root(), two.data_root());
    assert!(joined(one.data_root()).starts_with("/opt/app"));
}

/// Logs and cache go to the platform cache root, not the data root.
#[test]
fn bulk_goes_to_the_cache_root_and_not_the_roaming_one() {
    let paths = resolve(Options::new(), &process(false, None, Some("app"))).unwrap();
    assert_eq!(joined(paths.data_root()), Path::new("/appdata").join(OOPS_DIR));
    assert_eq!(
        joined(paths.cache_root()),
        Path::new("/localappdata").join(OOPS_DIR)
    );
    assert!(joined(&paths.logs_dir()).starts_with(joined(paths.cache_root())));
}

/// A portable run keeps data and cache in one directory.
#[test]
fn a_portable_run_keeps_everything_in_one_directory() {
    let paths = resolve(Options::new(), &process(true, None, Some("app"))).unwrap();
    assert_eq!(paths.data_root(), paths.cache_root());
    assert!(joined(&paths.logs_dir()).starts_with(joined(paths.data_root())));
}

/// Every named directory and the config file sit under the root.
#[test]
fn the_directories_all_sit_under_the_root() {
    let paths = Paths::rooted_at(FsPath::new("/data/app"));
    for (name, dir) in paths.named_dirs() {
        assert!(
            joined(&dir).starts_with("/data/app"),
            "{name} escaped the root: {}",
            joined(&dir).display()
        );
    }
    assert!(joined(&paths.config_file()).starts_with("/data/app"));
}

#[test]
fn a_sentinel_beside_the_binary_makes_the_run_portable() {
    let mut here = process(false, Some("/elsewhere"), Some("app"));
    here.portable_sentinel = true;
    let (paths, proper) = Paths::resolve_found("app", Layout::default(), &here);
    assert!(paths.is_portable());
    assert!(proper);
    assert_eq!(joined(paths.data_root()), Path::new("/opt/app").join(PORTABLE_DIR));
    // A sentinel is only looked for beside a known binary.
    let mut lost = nowhere(false);
    lost.portable_sentinel = true;
    let (paths, proper) = Paths::resolve_found("app", Layout::default(), &lost);
    assert!(!paths.is_portable());
    assert!(!proper);
    assert_eq!(joined(paths.data_root()), Path::new(OOPS_DIR));
}

#[test]
fn the_platform_layout_falls_back_to_the_home_and_the_cache_to_the_data_root() {
    let mut here = process(false, None, Some("app"));
    here.platform_data = None;
    here.platform_cache = None;
    let paths = resolve(Options::new(), &here).unwrap();
    assert_eq!(
        joined(paths.data_root()),
        Path::new("/home/someone").join(".config").join(OOPS_DIR)
    );
    assert_eq!(paths.cache_root(), paths.data_root());
}

#[test]
fn the_config_file_and_titles_are_named_after_their_owner() {
    let paths = Paths::rooted_at(FsPath::new("/data"));
    assert_eq!(joined(&paths.config_file()), Path::new("/data/oops.toml"));
    assert_eq!(joined(&paths.title_dir("CUSA00001")), Path::new("/data/titles/CUSA00001"));
    assert_eq!(joined(&paths.cache_dir()), Path::new("/data/cache"));
    let names: Vec<&str> = paths.named_dirs().iter().map(|(n, _)| *n).collect();
    assert_eq!(names, ["root", "cache-root", "logs", "cache", "titles"]);
}

#[test]
fn a_tool_s_own_variables_win_over_the_collection_s() {
    assert_eq!(variable_name("obscene-tool", "PORTABLE"), "OBSCENE_TOOL_PORTABLE");
    assert_eq!(variable_name("my app", "DATA_DIR"), "MY_APP_DATA_DIR");
    let own_off = EnvSnapshot::from_vars(
        Some("no".to_owned()),
        Some("1".to_owned()),
        Some(String::new()),
        Some("/shared".to_owned()),
    );
    assert!(!own_off.portable_flag);
    assert_eq!(own_off.data_dir, None);
    let shared = EnvSnapshot::from_vars(None, Some("on".to_owned()), None, Some("/shared".to_owned()));
    assert!(shared.portable_flag);
    assert_eq!(shared.data_dir, Some(FsPath::new("/shared")));
    assert_eq!(EnvSnapshot::from_vars(None, None, None, None), EnvSnapshot::default());
}
