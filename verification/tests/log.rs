use oops_libs::log::{default_directives, Level, Logging, LEVEL_ENV};
use oops_libs::paths::FsPath;

/// The builder stores what it is given.
#[test]
fn the_builder_keeps_what_it_is_given() {
    let built = Logging::new("orbistoun")
        .level(Level::DEBUG)
        .without_colour();
    assert_eq!(built.service, "orbistoun");
    assert_eq!(built.level, Level::DEBUG);
    assert!(!built.ansi);
}

/// The variable name is referenced by CI and scripts across the collection.
#[test]
fn the_level_variable_is_the_one_the_collection_agrees_on() {
    assert_eq!(LEVEL_ENV, "OOPS_LOG");
}

/// The render crates are capped at verbose levels and left alone at quiet ones.
#[test]
fn the_default_holds_wgpu_down_only_when_that_is_quieter() {
    for verbose in [Level::INFO, Level::DEBUG, Level::TRACE] {
        let shown = default_directives(verbose).join(",");
        assert!(
            shown.contains("wgpu_core=warn"),
            "at {verbose:?} the render crates should be capped: {shown}"
        );
    }
    for quiet in [Level::WARN, Level::ERROR] {
        let shown = default_directives(quiet).join(",");
        assert!(
            !shown.contains("wgpu"),
            "at {quiet:?} nothing should be raised to warn: {shown}"
        );
    }
}

#[test]
fn the_default_filter_starts_with_the_level() {
    assert_eq!(
        default_directives(Level::INFO),
        ["INFO", "wgpu=warn", "wgpu_core=warn", "wgpu_hal=warn", "naga=warn"]
    );
    assert_eq!(default_directives(Level::ERROR), ["ERROR"]);
    assert_eq!(Level::TRACE.name(), "TRACE");
}

#[test]
fn a_new_configuration_logs_at_info_in_colour_to_stderr_only() {
    let fresh = Logging::new("pros");
    assert_eq!(fresh.level, Level::INFO);
    assert!(fresh.ansi);
    assert_eq!(fresh.build_label(), "unstamped");
    let full = fresh
        .build("v0.1.0 - abc1234")
        .root(FsPath::new("/data"))
        .to_file(FsPath::new("/data/logs"))
        .to_otlp("http://localhost:4317");
    assert_eq!(full.build_label(), "v0.1.0 - abc1234");
    assert_eq!(full.root, Some(FsPath::new("/data")));
    assert_eq!(full.directory, Some(FsPath::new("/data/logs")));
    assert_eq!(full.endpoint.as_deref(), Some("http://localhost:4317"));
    assert_eq!(full.service, "pros");
}
