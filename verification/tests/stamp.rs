use oops_libs::calendar::civil_from_days;
use oops_libs::stamp::{
    assemble, command_answer, git_commit, parse_head_reference, shorten, supplied_commit, utc, Stamp,
};

/// A branch `HEAD` names the ref to watch; a detached or empty one names nothing.
#[test]
fn a_symbolic_head_names_its_ref_and_a_detached_one_does_not() {
    assert_eq!(
        parse_head_reference("ref: refs/heads/main\n").as_deref(),
        Some("refs/heads/main")
    );
    assert_eq!(
        parse_head_reference("ref: refs/heads/feature/x\n").as_deref(),
        Some("refs/heads/feature/x")
    );
    assert_eq!(parse_head_reference("b4f7e73aabbccddeeff0011\n"), None);
    assert_eq!(parse_head_reference("ref:   \n"), None);
    assert_eq!(parse_head_reference(""), None);
}

/// Only a hex hash is shortened; a tag keeps its full name.
#[test]
fn a_hash_is_shortened_and_anything_else_is_not() {
    assert_eq!(shorten("a1b2c3d4e5f6a7b8"), "a1b2c3d");
    assert_eq!(shorten("v1.2.3"), "v1.2.3");
    assert_eq!(shorten("release-2026-08"), "release-2026-08");
    assert_eq!(shorten("a1b2c3d"), "a1b2c3d");
}

/// The epoch and a known date format correctly.
#[test]
fn the_epoch_and_a_known_date_read_correctly() {
    assert_eq!(utc(0), "1970-01-01 00:00 UTC");
    assert_eq!(utc(1_787_961_600), "2026-08-29 00:00 UTC");
}

/// A leap day is a real date.
#[test]
fn a_leap_day_is_a_day() {
    assert_eq!(utc(1_709_164_800), "2024-02-29 00:00 UTC");
}

/// A `-dirty` commit is populated but not exact.
#[test]
fn a_dirty_tree_is_not_an_exact_build() {
    let exact = Stamp {
        version: "0.1.0",
        commit: Some("a1b2c3d"),
        built_at: Some(0),
    };
    let dirty = Stamp {
        version: "0.1.0",
        commit: Some("a1b2c3d-dirty"),
        built_at: Some(0),
    };
    assert!(exact.is_exact());
    assert!(!dirty.is_exact());
    assert!(dirty.commit.is_some());
}

/// Without a commit, the line gives the build time and the stamp is not exact.
#[test]
fn a_build_with_no_commit_says_when_it_was_made_instead() {
    let local = Stamp {
        version: "0.1.0",
        commit: None,
        built_at: Some(0),
    };
    assert_eq!(local.line(), "v0.1.0 - built 1970-01-01 00:00 UTC");
    assert!(!local.is_exact());
}

/// An empty commit variable counts as no commit.
#[test]
fn an_empty_commit_is_treated_as_no_commit() {
    assert_eq!(assemble("0.1.0", Some(""), None).commit, None);
}

/// With neither commit nor build time there is still a line.
#[test]
fn nothing_at_all_still_produces_a_line() {
    let nothing = Stamp {
        version: "0.1.0",
        commit: None,
        built_at: None,
    };
    assert_eq!(nothing.line(), "v0.1.0 - no commit, build time unknown");
}

#[test]
fn a_commit_is_shown_in_place_of_the_build_time() {
    let stamp = Stamp {
        version: "0.3.1",
        commit: Some("a1b2c3d"),
        built_at: Some(1_787_961_600),
    };
    assert_eq!(stamp.line(), "v0.3.1 - a1b2c3d");
    assert!(stamp.is_exact());
}

#[test]
fn the_time_of_day_is_hours_and_minutes() {
    // 2026-08-29 14:03:59
    assert_eq!(utc(1_787_961_600 + 14 * 3600 + 3 * 60 + 59), "2026-08-29 14:03 UTC");
    assert_eq!(utc(86_399), "1970-01-01 23:59 UTC");
    assert_eq!(utc(86_400), "1970-01-02 00:00 UTC");
}

#[test]
fn year_ends_and_century_rules_read_correctly() {
    assert_eq!(utc(946_684_799), "1999-12-31 23:59 UTC");
    assert_eq!(utc(951_782_400), "2000-02-29 00:00 UTC");
    assert_eq!(utc(4_107_542_400), "2100-03-01 00:00 UTC");
    assert_eq!(utc(4_107_456_000), "2100-02-28 00:00 UTC");
}

#[test]
fn a_time_too_large_for_the_calendar_reads_as_the_epoch() {
    assert_eq!(utc(u64::MAX), "1970-01-01 00:00 UTC");
    assert_eq!(utc(i64::MAX as u64), "292277026596-12-04 15:30 UTC");
}

#[test]
fn a_commit_that_is_present_is_kept() {
    let stamp = assemble("1.0.0", Some("abc1234"), Some(5));
    assert_eq!(stamp.commit, Some("abc1234"));
    assert_eq!(stamp.version, "1.0.0");
    assert_eq!(stamp.built_at, Some(5));
    assert_eq!(assemble("1.0.0", None, None).commit, None);
}

#[test]
fn a_long_hash_in_capitals_is_shortened_and_an_eight_character_word_is_not() {
    assert_eq!(shorten("ABCDEF0123"), "ABCDEF0");
    assert_eq!(shorten("abcdefgh"), "abcdefgh");
    assert_eq!(shorten(""), "");
}

#[test]
fn days_before_the_epoch_are_dates_too() {
    assert_eq!(civil_from_days(0), (1970, 1, 1));
    assert_eq!(civil_from_days(19_782), (2024, 2, 29));
    assert_eq!(civil_from_days(-1), (1969, 12, 31));
    assert_eq!(civil_from_days(-719_468), (0, 3, 1));
    assert_eq!(civil_from_days(-719_469), (0, 2, 29));
}

#[test]
fn a_supplied_commit_wins_unless_blank_and_git_marks_a_modified_tree() {
    assert_eq!(
        supplied_commit("  a1b2c3d4e5f6a7b8\n").as_deref(),
        Some("a1b2c3d")
    );
    assert_eq!(supplied_commit(" v1.2.3 ").as_deref(), Some("v1.2.3"));
    assert_eq!(supplied_commit("   "), None);
    assert_eq!(git_commit("abc1234", true), "abc1234-dirty");
    assert_eq!(git_commit("abc1234", false), "abc1234");
    assert_eq!(command_answer("abc1234\n").as_deref(), Some("abc1234"));
    assert_eq!(command_answer(" \n"), None);
}
