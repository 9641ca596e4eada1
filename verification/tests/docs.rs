use oops_libs::docs::{check, find_page, link_target, resolve, words, Doc, DocsWindow, LinkTarget};
use oops_libs::markdown::Block;

fn good() -> Vec<Doc> {
    vec![
        Doc::new("one", "One", "The first", "# One\n\nBody.\n"),
        Doc::new("two", "Two", "The second", "# Two\n\nBody.\n"),
    ]
}

/// A sound registry reports nothing.
#[test]
fn a_sound_registry_has_nothing_to_report() {
    assert_eq!(check(&good()), Vec::<String>::new());
}

/// An empty page is reported.
#[test]
fn a_truncated_page_is_caught() {
    let docs = [Doc::new("gone", "Gone", "blurb", "")];
    let problems = check(&docs);
    assert_eq!(problems.len(), 1);
    assert!(problems[0].contains("empty"), "{problems:?}");
}

/// A repeated slug is reported once.
#[test]
fn a_repeated_slug_is_caught() {
    let docs = [
        Doc::new("same", "A", "blurb", "# A\n"),
        Doc::new("same", "B", "blurb", "# B\n"),
    ];
    assert_eq!(check(&docs).len(), 1);
}

/// A page without a top-level heading is reported.
#[test]
fn a_page_without_a_title_is_caught() {
    let docs = [Doc::new("x", "X", "blurb", "Just prose, no heading.\n")];
    let problems = check(&docs);
    assert!(problems[0].contains("heading"), "{problems:?}");
}

/// Every link form resolves to the page; unknown pages and external links do not.
#[test]
fn links_between_pages_resolve_however_they_are_written() {
    let good = good();
    for form in ["two", "two.md", "../features/two.md", "two.md#a-section"] {
        assert_eq!(resolve(form, &good), Some("two"), "{form}");
    }
    assert_eq!(resolve("three.md", &good), None);
    assert_eq!(resolve("https://example.com/two.md", &good), None);
}

/// An empty registry is valid.
#[test]
fn an_empty_registry_is_not_an_error() {
    assert_eq!(check(&[]), Vec::<String>::new());
}

#[test]
fn each_problem_is_worded_exactly() {
    let docs = [
        Doc::new("a", "A", "blurb", "# A\n"),
        Doc::new("", " ", "\t", "  \n"),
        Doc::new("a", "A", "blurb", "  # A\n"),
        Doc::new("a", "A", "blurb", "#A\n"),
    ];
    assert_eq!(
        check(&docs),
        [
            "the page at 1 has no slug",
            "'' has no name",
            "'' has no blurb",
            "'' is empty",
            "'a' at 2 repeats the slug used at 0",
            "'a' at 3 repeats the slug used at 2",
            "'a' does not start with a top-level heading",
        ]
    );
}

#[test]
fn a_backslash_path_and_repeated_extensions_still_reach_the_page() {
    let good = good();
    assert_eq!(resolve("docs\\features\\one.md", &good), Some("one"));
    assert_eq!(resolve("one.md.md", &good), Some("one"));
    assert_eq!(resolve("features/", &good), None);
    assert_eq!(resolve("#one", &good), None);
    assert_eq!(find_page(&good, "two"), Some(1));
    assert_eq!(find_page(&good, "three"), None);
}

#[test]
fn a_link_opens_a_page_the_browser_or_nothing() {
    let good = good();
    assert_eq!(link_target("../features/two.md", &good), LinkTarget::Page("two"));
    assert_eq!(link_target("https://example.com/two.md", &good), LinkTarget::Web);
    assert_eq!(link_target("three.md", &good), LinkTarget::Nowhere);
}

#[test]
fn plain_text_is_laid_out_word_by_word() {
    assert_eq!(words("one two  three"), ["one ", "two ", "three"]);
    assert_eq!(words("   "), Vec::<String>::new());
    assert_eq!(words(""), Vec::<String>::new());
    assert_eq!(words("end "), ["end "]);
}

#[test]
fn the_window_opens_on_contents_and_remembers_a_page() {
    let mut window = DocsWindow::default();
    assert!(!window.is_open());
    window.open();
    assert!(window.is_open());
    assert_eq!(window.selected(), None);
    window.open_at("two");
    assert_eq!(window.selected(), Some("two"));
    window.select(None);
    assert_eq!(window.selected(), None);
    window.close();
    assert!(!window.is_open());
}

#[test]
fn reopening_shows_the_contents_page_again() {
    let mut window = DocsWindow::new();
    window.open_at("two");
    window.close();
    window.open();
    assert!(window.is_open());
    assert_eq!(window.selected(), None);
}

#[test]
fn a_page_is_parsed_once_and_kept() {
    let good = good();
    let mut window = DocsWindow::new();
    let first = window.page_blocks(&good[1]);
    let again = window.page_blocks(&good[1]);
    let other = window.page_blocks(&good[0]);
    assert_eq!(first, again);
    assert_ne!(first, other);
    let blocks = window.cached_blocks(first);
    assert!(matches!(&blocks[0], Block::Heading { level: 1, .. }));
}
