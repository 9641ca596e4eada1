//! Documentation embedded in the binary, and the state of the window that reads it.
//!
//! The pages are compiled in, so they always match the running build. The page list lives in
//! the consumer, because `include_str!` resolves relative to the file it is written in.
//! Register user-facing pages, not decision logs or worklogs.

use vstd::prelude::*;
use crate::markdown::{Block, BlockView, blocks_view, markdown_events_of, parse, walk_over, walk_start};
use crate::text::{
    chars_of, decimal, has_prefix, starts_with as starts_with_chars, has_suffix, is_blank, push_decimal, push_str, range_equals,
    same_text, string_of, trim, trim_start, trim_start_index,
};

verus! {

/// One embedded page.
#[derive(Debug, Clone, Copy, PartialEq, Eq)]
pub struct Doc {
    /// Stable identifier, used to address the page and to resolve links to it.
    pub slug: &'static str,
    /// The name shown in the list.
    pub name: &'static str,
    /// One line shown under the name.
    pub blurb: &'static str,
    /// The markdown, from `include_str!`.
    pub body: &'static str,
}

impl Doc {
    /// Declares a page.
    pub fn new(
        slug: &'static str,
        name: &'static str,
        blurb: &'static str,
        body: &'static str,
    ) -> (d: Self)
        ensures
            d.slug == slug,
            d.name == name,
            d.blurb == blurb,
            d.body == body,
    {
        Doc { slug, name, blurb, body }
    }
}

/// The index of the latest page before `before` whose slug is `slug`, or -1 when there is
/// none.
pub open spec fn last_use(docs: Seq<Doc>, slug: Seq<char>, before: int) -> int
    decreases before,
{
    if before <= 0 {
        -1
    } else if docs[before - 1].slug@ == slug {
        before - 1
    } else {
        last_use(docs, slug, before - 1)
    }
}

/// The report of a repeated slug, when the page at `index` repeats an earlier one.
pub open spec fn repeat_problem(docs: Seq<Doc>, index: int) -> Seq<Seq<char>> {
    let slug = docs[index].slug@;
    let first = last_use(docs, slug, index);
    if first >= 0 {
        seq![
            "'"@ + slug + "' at "@ + decimal(index as nat) + " repeats the slug used at "@
                + decimal(first as nat),
        ]
    } else {
        Seq::empty()
    }
}

/// The report of an empty slug.
pub open spec fn slug_problem(docs: Seq<Doc>, index: int) -> Seq<Seq<char>> {
    if docs[index].slug@.len() == 0 {
        seq!["the page at "@ + decimal(index as nat) + " has no slug"@]
    } else {
        Seq::empty()
    }
}

/// The report of a blank name.
pub open spec fn name_problem(docs: Seq<Doc>, index: int) -> Seq<Seq<char>> {
    if trim(docs[index].name@).len() == 0 {
        seq!["'"@ + docs[index].slug@ + "' has no name"@]
    } else {
        Seq::empty()
    }
}

/// The report of a blank blurb.
pub open spec fn blurb_problem(docs: Seq<Doc>, index: int) -> Seq<Seq<char>> {
    if trim(docs[index].blurb@).len() == 0 {
        seq!["'"@ + docs[index].slug@ + "' has no blurb"@]
    } else {
        Seq::empty()
    }
}

/// The report of an empty body, or of one that does not open with a top-level heading.
pub open spec fn body_problem(docs: Seq<Doc>, index: int) -> Seq<Seq<char>> {
    let body = docs[index].body@;
    if trim(body).len() == 0 {
        seq!["'"@ + docs[index].slug@ + "' is empty"@]
    } else if !has_prefix(trim_start(body), "# "@) {
        seq!["'"@ + docs[index].slug@ + "' does not start with a top-level heading"@]
    } else {
        Seq::empty()
    }
}

/// What is wrong with one page, the page at `index`, in the order it is reported.
pub open spec fn page_problems(docs: Seq<Doc>, index: int) -> Seq<Seq<char>> {
    repeat_problem(docs, index) + slug_problem(docs, index) + name_problem(docs, index)
        + blurb_problem(docs, index) + body_problem(docs, index)
}

/// Every problem with the first `count` pages, page by page.
pub open spec fn registry_problems(docs: Seq<Doc>, count: int) -> Seq<Seq<char>>
    decreases count,
{
    if count <= 0 {
        Seq::empty()
    } else {
        registry_problems(docs, count - 1) + page_problems(docs, count - 1)
    }
}

/// Whether the page at `index` is sound: its slug is new and not empty, it has a name and a
/// blurb, and its body is not empty and starts with a top-level heading.
pub open spec fn sound_page(docs: Seq<Doc>, index: int) -> bool {
    let doc = docs[index];
    &&& last_use(docs, doc.slug@, index) < 0
    &&& doc.slug@.len() > 0
    &&& trim(doc.name@).len() > 0
    &&& trim(doc.blurb@).len() > 0
    &&& trim(doc.body@).len() > 0
    &&& has_prefix(trim_start(doc.body@), "# "@)
}

/// The text of a list of strings.
pub open spec fn texts(v: Seq<String>) -> Seq<Seq<char>> {
    v.map_values(|s: String| s@)
}

/// The latest page before `before` whose slug is `slug`.
fn find_last_use(docs: &[Doc], slug: &str, before: usize) -> (r: Option<usize>)
    requires
        before <= docs@.len(),
    ensures
        match r {
            Some(j) => j as int == last_use(docs@, slug@, before as int),
            None => last_use(docs@, slug@, before as int) == -1,
        },
{
    let mut j = before;
    while j > 0
        invariant
            j <= before <= docs@.len(),
            last_use(docs@, slug@, before as int) == last_use(docs@, slug@, j as int),
        decreases j,
    {
        if same_text(docs[j - 1].slug, slug) {
            return Some(j - 1);
        }
        j = j - 1;
    }
    None
}

/// Appends `message` to `problems`.
fn push_message(problems: &mut Vec<String>, message: Vec<char>)
    ensures
        texts(final(problems)@) == texts(old(problems)@).push(message@),
{
    problems.push(string_of(message.as_slice()));
    assert(texts(problems@) =~= texts(old(problems)@).push(message@));
}

/// Reports the page at `index` if it repeats an earlier slug.
fn report_repeat(docs: &[Doc], index: usize, problems: &mut Vec<String>)
    requires
        index < docs@.len(),
    ensures
        texts(final(problems)@) == texts(old(problems)@) + repeat_problem(docs@, index as int),
{
    let doc = docs[index];
    if let Some(first) = find_last_use(docs, doc.slug, index) {
        let mut m: Vec<char> = Vec::new();
        push_str(&mut m, "'");
        push_str(&mut m, doc.slug);
        push_str(&mut m, "' at ");
        push_decimal(&mut m, index as u64);
        push_str(&mut m, " repeats the slug used at ");
        push_decimal(&mut m, first as u64);
        push_message(problems, m);
    }
    assert(texts(problems@) =~= texts(old(problems)@) + repeat_problem(docs@, index as int));
}

/// Reports the page at `index` if its slug is empty.
fn report_slug(docs: &[Doc], index: usize, problems: &mut Vec<String>)
    requires
        index < docs@.len(),
    ensures
        texts(final(problems)@) == texts(old(problems)@) + slug_problem(docs@, index as int),
{
    if docs[index].slug.is_empty() {
        let mut m: Vec<char> = Vec::new();
        push_str(&mut m, "the page at ");
        push_decimal(&mut m, index as u64);
        push_str(&mut m, " has no slug");
        push_message(problems, m);
    }
    assert(texts(problems@) =~= texts(old(problems)@) + slug_problem(docs@, index as int));
}

/// Reports the page at `index` if its name or its blurb is blank.
fn report_name_and_blurb(docs: &[Doc], index: usize, problems: &mut Vec<String>)
    requires
        index < docs@.len(),
    ensures
        texts(final(problems)@) == texts(old(problems)@) + name_problem(docs@, index as int)
            + blurb_problem(docs@, index as int),
{
    let doc = docs[index];
    let name = chars_of(doc.name);
    if is_blank(name.as_slice()) {
        let mut m: Vec<char> = Vec::new();
        push_str(&mut m, "'");
        push_str(&mut m, doc.slug);
        push_str(&mut m, "' has no name");
        push_message(problems, m);
    }
    let ghost middle = texts(problems@);
    assert(middle =~= texts(old(problems)@) + name_problem(docs@, index as int));
    let blurb = chars_of(doc.blurb);
    if is_blank(blurb.as_slice()) {
        let mut m: Vec<char> = Vec::new();
        push_str(&mut m, "'");
        push_str(&mut m, doc.slug);
        push_str(&mut m, "' has no blurb");
        push_message(problems, m);
    }
    assert(texts(problems@) =~= middle + blurb_problem(docs@, index as int));
}

/// Reports the page at `index` if its body is empty or does not open with a heading.
fn report_body(docs: &[Doc], index: usize, problems: &mut Vec<String>)
    requires
        index < docs@.len(),
    ensures
        texts(final(problems)@) == texts(old(problems)@) + body_problem(docs@, index as int),
{
    let doc = docs[index];
    let body = chars_of(doc.body);
    if is_blank(body.as_slice()) {
        let mut m: Vec<char> = Vec::new();
        push_str(&mut m, "'");
        push_str(&mut m, doc.slug);
        push_str(&mut m, "' is empty");
        push_message(problems, m);
    } else {
        let start = trim_start_index(body.as_slice());
        let heading = chars_of("# ");
        proof {
            reveal_strlit("# ");
        }
        let titled = body.len() - start >= 2 && range_equals(
            body.as_slice(),
            start,
            start + 2,
            heading.as_slice(),
        );
        assert(titled == has_prefix(trim_start(body@), "# "@)) by {
            let rest = body@.subrange(start as int, body@.len() as int);
            if start + 2 <= body@.len() {
                assert(rest.subrange(0, 2) == body@.subrange(start as int, start + 2));
            }
        }
        if !titled {
            let mut m: Vec<char> = Vec::new();
            push_str(&mut m, "'");
            push_str(&mut m, doc.slug);
            push_str(&mut m, "' does not start with a top-level heading");
            push_message(problems, m);
        }
    }
    assert(texts(problems@) =~= texts(old(problems)@) + body_problem(docs@, index as int));
}

/// Every problem with a registry: repeated or empty slugs, missing names or blurbs, empty
/// pages, and pages without a top-level heading. Empty when sound.
///
/// `include_str!` only proves a file exists. Consumers pin the rest with a test that expects
/// no problems.
pub fn check(docs: &[Doc]) -> (problems: Vec<String>)
    ensures
        texts(problems@) == registry_problems(docs@, docs@.len() as int),
{
    let mut problems: Vec<String> = Vec::new();
    let mut index: usize = 0;
    assert(texts(problems@) =~= registry_problems(docs@, 0));
    while index < docs.len()
        invariant
            index <= docs@.len(),
            texts(problems@) == registry_problems(docs@, index as int),
        decreases docs@.len() - index,
    {
        let ghost before = texts(problems@);
        report_repeat(docs, index, &mut problems);
        report_slug(docs, index, &mut problems);
        report_name_and_blurb(docs, index, &mut problems);
        report_body(docs, index, &mut problems);
        assert(texts(problems@) =~= before + page_problems(docs@, index as int));
        index = index + 1;
    }
    problems
}

/// A registry reports nothing exactly when every page is sound: its slug is new and not
/// empty, it has a name and a blurb, and its body opens with a top-level heading.
pub proof fn a_registry_is_sound_exactly_when_every_page_is(docs: Seq<Doc>, count: int)
    requires
        0 <= count <= docs.len(),
    ensures
        registry_problems(docs, count).len() == 0 <==> forall|i: int|
            0 <= i < count ==> #[trigger] sound_page(docs, i),
    decreases count,
{
    if count > 0 {
        a_registry_is_sound_exactly_when_every_page_is(docs, count - 1);
        let i = count - 1;
        assert(page_problems(docs, i).len() == 0 <==> sound_page(docs, i));
        if registry_problems(docs, count).len() == 0 {
            assert forall|k: int| 0 <= k < count implies #[trigger] sound_page(docs, k) by {
                if k < i {
                    assert(registry_problems(docs, i).len() == 0);
                }
            }
        }
    }
}

/// Whether `c` separates the pieces of a link's path.
pub open spec fn is_separator(c: char) -> bool {
    c == '/' || c == '\\'
}

/// What follows the last separator of `s`, or all of `s` when it has none.
pub open spec fn after_last_separator(s: Seq<char>) -> Seq<char>
    decreases s.len(),
{
    if s.len() == 0 {
        s
    } else if is_separator(s.last()) {
        Seq::empty()
    } else {
        after_last_separator(s.drop_last()).push(s.last())
    }
}

/// What comes before the first `#` of `s`, or all of `s` when it has none.
pub open spec fn before_first_hash(s: Seq<char>) -> Seq<char>
    decreases s.len(),
{
    if s.len() == 0 {
        s
    } else if s[0] == '#' {
        Seq::empty()
    } else {
        seq![s[0]] + before_first_hash(s.drop_first())
    }
}

/// The `.md` extension.
pub open spec fn md_extension() -> Seq<char> {
    seq!['.', 'm', 'd']
}

/// `s` with every `.md` at its end removed, as `trim_end_matches(".md")` does.
pub open spec fn without_md(s: Seq<char>) -> Seq<char>
    decreases s.len(),
{
    if has_suffix(s, md_extension()) {
        without_md(s.subrange(0, s.len() - 3))
    } else {
        s
    }
}

/// The page name a link destination names: its file stem, so `../features/running.md`,
/// `running.md#part` and `running` all name `running`.
pub open spec fn link_stem(dest: Seq<char>) -> Seq<char> {
    without_md(before_first_hash(after_last_separator(dest)))
}

/// The index of the first page from `from` on whose slug is `slug`, or -1 when there is
/// none.
pub open spec fn first_page(docs: Seq<Doc>, slug: Seq<char>, from: int) -> int
    decreases docs.len() - from,
{
    if from >= docs.len() || from < 0 {
        -1
    } else if docs[from].slug@ == slug {
        from
    } else {
        first_page(docs, slug, from + 1)
    }
}

/// The page a link destination reaches: none for an `http` link, else the first page whose
/// slug is the destination's stem.
pub open spec fn link_page(dest: Seq<char>, docs: Seq<Doc>) -> Option<&'static str> {
    if has_prefix(dest, "http"@) {
        None
    } else {
        let k = first_page(docs, link_stem(dest), 0);
        if k >= 0 {
            Some(docs[k].slug)
        } else {
            None
        }
    }
}

/// The first page from `from` on whose slug is `slug`.
fn find_page_from(docs: &[Doc], slug: &[char], from: usize) -> (r: Option<usize>)
    requires
        from <= docs@.len(),
    ensures
        match r {
            Some(k) => k < docs@.len() && k as int == first_page(docs@, slug@, from as int),
            None => first_page(docs@, slug@, from as int) == -1,
        },
{
    let mut k = from;
    while k < docs.len()
        invariant
            from <= k <= docs@.len(),
            first_page(docs@, slug@, from as int) == first_page(docs@, slug@, k as int),
        decreases docs@.len() - k,
    {
        let page = chars_of(docs[k].slug);
        if page.len() == slug.len() && range_equals(page.as_slice(), 0, page.len(), slug) {
            assert(page@.subrange(0, page@.len() as int) == page@);
            return Some(k);
        }
        assert(page@.subrange(0, page@.len() as int) == page@);
        k = k + 1;
    }
    None
}

/// The index of the page whose slug is `slug`, if the registry has one.
pub fn find_page(docs: &[Doc], slug: &str) -> (r: Option<usize>)
    ensures
        match r {
            Some(k) => k < docs@.len() && k as int == first_page(docs@, slug@, 0),
            None => first_page(docs@, slug@, 0) == -1,
        },
{
    let text = chars_of(slug);
    find_page_from(docs, text.as_slice(), 0)
}

/// Where the last separator of `v` is, plus one, or zero when it has none.
fn piece_start(v: &[char]) -> (a: usize)
    ensures
        a <= v@.len(),
        after_last_separator(v@) == v@.subrange(a as int, v@.len() as int),
{
    let mut a = v.len();
    assert(v@.subrange(v@.len() as int, v@.len() as int) =~= Seq::<char>::empty());
    assert(v@.subrange(0, v@.len() as int) == v@);
    while a > 0 && !(v[a - 1] == '/' || v[a - 1] == '\\')
        invariant
            a <= v@.len(),
            after_last_separator(v@) == after_last_separator(v@.subrange(0, a as int)) + v@.subrange(
                a as int,
                v@.len() as int,
            ),
        decreases a,
    {
        let ghost head = v@.subrange(0, a as int);
        assert(head.drop_last() == v@.subrange(0, a - 1));
        assert(v@.subrange(a - 1, v@.len() as int) == seq![head.last()] + v@.subrange(
            a as int,
            v@.len() as int,
        ));
        a = a - 1;
    }
    if a > 0 {
        assert(is_separator(v@.subrange(0, a as int).last()));
    }
    a
}

/// Where the first `#` of `v[from..]` is, or the end when it has none.
fn piece_end(v: &[char], from: usize) -> (b: usize)
    requires
        from <= v@.len(),
    ensures
        from <= b <= v@.len(),
        before_first_hash(v@.subrange(from as int, v@.len() as int)) == v@.subrange(
            from as int,
            b as int,
        ),
{
    let mut b = from;
    while b < v.len() && v[b] != '#'
        invariant
            from <= b <= v@.len(),
            before_first_hash(v@.subrange(from as int, v@.len() as int)) == v@.subrange(
                from as int,
                b as int,
            ) + before_first_hash(v@.subrange(b as int, v@.len() as int)),
        decreases v@.len() - b,
    {
        let ghost tail = v@.subrange(b as int, v@.len() as int);
        assert(tail.drop_first() == v@.subrange(b + 1, v@.len() as int));
        assert(v@.subrange(from as int, b + 1) == v@.subrange(from as int, b as int) + seq![
            tail[0],
        ]);
        b = b + 1;
    }
    assert(v@.subrange(b as int, v@.len() as int).len() == 0 || v@.subrange(
        b as int,
        v@.len() as int,
    )[0] == '#');
    b
}

/// Where `v[from..to]` ends once every `.md` at its end is removed.
fn stem_end(v: &[char], from: usize, to: usize) -> (c: usize)
    requires
        from <= to <= v@.len(),
    ensures
        from <= c <= to,
        without_md(v@.subrange(from as int, to as int)) == v@.subrange(from as int, c as int),
{
    let md = chars_of(".md");
    proof {
        reveal_strlit(".md");
    }
    assert(md@ == md_extension());
    let mut c = to;
    while c - from >= 3 && range_equals(v, c - 3, c, md.as_slice())
        invariant
            from <= c <= to <= v@.len(),
            md@ == md_extension(),
            without_md(v@.subrange(from as int, to as int)) == without_md(
                v@.subrange(from as int, c as int),
            ),
        decreases c,
    {
        let ghost piece = v@.subrange(from as int, c as int);
        assert(piece.subrange(piece.len() - 3, piece.len() as int) == v@.subrange(
            c - 3,
            c as int,
        ));
        assert(piece.subrange(0, piece.len() - 3) == v@.subrange(from as int, c - 3));
        c = c - 3;
    }
    let ghost piece = v@.subrange(from as int, c as int);
    if c - from >= 3 {
        assert(piece.subrange(piece.len() - 3, piece.len() as int) == v@.subrange(
            c - 3,
            c as int,
        ));
    }
    c
}

/// Whether `s` holds no separator.
pub open spec fn has_no_separator(s: Seq<char>) -> bool {
    forall|i: int| 0 <= i < s.len() ==> !is_separator(#[trigger] s[i])
}

/// Whether `s` holds no `#`.
pub open spec fn has_no_hash(s: Seq<char>) -> bool {
    forall|i: int| 0 <= i < s.len() ==> #[trigger] s[i] != '#'
}

/// Below a directory, a name with no separator is all that is left after the last one.
proof fn the_last_piece_is_the_name(dir: Seq<char>, name: Seq<char>)
    requires
        dir.len() == 0 || is_separator(dir.last()),
        has_no_separator(name),
    ensures
        after_last_separator(dir + name) == name,
    decreases name.len(),
{
    if name.len() == 0 {
        assert(dir + name == dir);
    } else {
        let shorter = name.drop_last();
        assert forall|i: int| 0 <= i < shorter.len() implies !is_separator(#[trigger] shorter[i]) by {
            assert(shorter[i] == name[i]);
        }
        the_last_piece_is_the_name(dir, shorter);
        assert((dir + name).drop_last() == dir + shorter);
        assert((dir + name).last() == name.last());
        assert(!is_separator(name[name.len() - 1]));
        assert(shorter.push(name.last()) == name);
    }
}

/// A name with no `#` is what comes before the first one of a fragment after it.
proof fn the_fragment_is_dropped(name: Seq<char>, rest: Seq<char>)
    requires
        has_no_hash(name),
        rest.len() == 0 || rest[0] == '#',
    ensures
        before_first_hash(name + rest) == name,
    decreases name.len(),
{
    if name.len() == 0 {
        assert(name + rest == rest);
    } else {
        let shorter = name.drop_first();
        assert forall|i: int| 0 <= i < shorter.len() implies #[trigger] shorter[i] != '#' by {
            assert(shorter[i] == name[i + 1]);
        }
        the_fragment_is_dropped(shorter, rest);
        assert((name + rest).drop_first() == shorter + rest);
        assert((name + rest)[0] == name[0]);
        assert(name[0] != '#');
        assert(seq![name[0]] + shorter == name);
    }
}

/// A link reaches a page by its file stem: `dir/name.md#fragment`, `name.md`, `name` and
/// `dir/name` all have the stem `name`, whatever directory comes before it (ending in a
/// separator) and whatever fragment follows, as long as `name` holds no separator and no
/// `#` and does not itself end in `.md`, and the fragment holds no separator.
pub proof fn every_form_of_a_link_has_the_same_stem(
    dir: Seq<char>,
    name: Seq<char>,
    extension: bool,
    fragment: Option<Seq<char>>,
)
    requires
        dir.len() == 0 || is_separator(dir.last()),
        has_no_separator(name),
        has_no_hash(name),
        !has_suffix(name, md_extension()),
        fragment matches Some(f) ==> has_no_separator(f),
    ensures
        ({
            let file = if extension {
                name + md_extension()
            } else {
                name
            };
            let tail = match fragment {
                Some(f) => seq!['#'] + f,
                None => Seq::empty(),
            };
            link_stem(dir + file + tail) == name
        }),
{
    let file = if extension {
        name + md_extension()
    } else {
        name
    };
    let tail = match fragment {
        Some(f) => seq!['#'] + f,
        None => Seq::empty(),
    };
    let piece = file + tail;
    assert forall|i: int| 0 <= i < piece.len() implies !is_separator(#[trigger] piece[i]) by {
        if i < name.len() {
            assert(piece[i] == name[i]);
        } else if i < file.len() {
            assert(piece[i] == md_extension()[i - name.len()]);
        } else {
            let f = fragment->0;
            assert(piece[i] == tail[i - file.len()]);
            if i > file.len() {
                assert(tail[i - file.len()] == f[i - file.len() - 1]);
            }
        }
    }
    assert(dir + file + tail == dir + piece);
    the_last_piece_is_the_name(dir, piece);
    assert forall|i: int| 0 <= i < file.len() implies #[trigger] file[i] != '#' by {
        if i < name.len() {
            assert(file[i] == name[i]);
        } else {
            assert(file[i] == md_extension()[i - name.len()]);
        }
    }
    the_fragment_is_dropped(file, tail);
    if extension {
        assert(has_suffix(file, md_extension())) by {
            assert(file.subrange(file.len() - 3, file.len() as int) =~= md_extension());
        }
        assert(file.subrange(0, file.len() - 3) =~= name);
    }
    assert(without_md(name) == name);
    assert(without_md(file) == name);
    assert(after_last_separator(dir + file + tail) == piece);
    assert(before_first_hash(piece) == file);
}

/// The page a link destination reaches, matched on file stem, so `../features/running.md`,
/// `running.md#part` and `running` all reach the same page. An `http` link reaches none.
pub fn resolve(dest: &str, docs: &[Doc]) -> (r: Option<&'static str>)
    ensures
        r == link_page(dest@, docs@),
{
    let v = chars_of(dest);
    let http = chars_of("http");
    if starts_with_chars(v.as_slice(), http.as_slice()) {
        return None;
    }
    let a = piece_start(v.as_slice());
    let b = piece_end(v.as_slice(), a);
    assert(v@.subrange(a as int, v@.len() as int).subrange(0, (b - a) as int) == v@.subrange(
        a as int,
        b as int,
    ));
    let c = stem_end(v.as_slice(), a, b);
    let stem = v.as_slice().split_at(c).0.split_at(a).1;
    assert(stem@ == v@.subrange(a as int, c as int));
    assert(stem@ == link_stem(dest@));
    match find_page_from(docs, stem, 0) {
        Some(k) => Some(docs[k].slug),
        None => None,
    }
}

/// What following a link does.
#[derive(Debug, Clone, Copy, PartialEq, Eq)]
pub enum LinkTarget {
    /// Opens the shipped page with this slug in the reader.
    Page(&'static str),
    /// Opens the destination in the browser.
    Web,
    /// Nothing: the destination names no shipped page and is not a web address.
    Nowhere,
}

/// What following a link to `dest` does: a shipped page opens in the reader, an `http` link
/// in the browser.
pub open spec fn link_target_of(dest: Seq<char>, docs: Seq<Doc>) -> LinkTarget {
    match link_page(dest, docs) {
        Some(slug) => LinkTarget::Page(slug),
        None => if has_prefix(dest, "http"@) {
            LinkTarget::Web
        } else {
            LinkTarget::Nowhere
        },
    }
}

/// What following a link to `dest` does.
pub fn link_target(dest: &str, docs: &[Doc]) -> (t: LinkTarget)
    ensures
        t == link_target_of(dest@, docs@),
{
    match resolve(dest, docs) {
        Some(slug) => LinkTarget::Page(slug),
        None => {
            let v = chars_of(dest);
            let http = chars_of("http");
            if starts_with_chars(v.as_slice(), http.as_slice()) {
                LinkTarget::Web
            } else {
                LinkTarget::Nowhere
            }
        },
    }
}

/// `done` with `piece` added when it is not blank.
pub open spec fn keep_piece(done: Seq<Seq<char>>, piece: Seq<char>) -> Seq<Seq<char>> {
    if trim(piece).len() > 0 {
        done.push(piece)
    } else {
        done
    }
}

/// The pieces of `s` that follow `done` and the piece `current` already begun: each piece
/// runs up to and including a space, the last one to the end, and blank pieces are dropped.
pub open spec fn pieces_from(done: Seq<Seq<char>>, current: Seq<char>, s: Seq<char>) -> Seq<
    Seq<char>,
>
    decreases s.len(),
{
    if s.len() == 0 {
        keep_piece(done, current)
    } else if s[0] == ' ' {
        pieces_from(keep_piece(done, current.push(' ')), Seq::empty(), s.drop_first())
    } else {
        pieces_from(done, current.push(s[0]), s.drop_first())
    }
}

/// The words of `text` as plain text is laid out, one label per word so that a wrapping
/// layout can break between them: the pieces after each space, the space kept, blank pieces
/// dropped.
pub open spec fn words_of(text: Seq<char>) -> Seq<Seq<char>> {
    pieces_from(Seq::empty(), Seq::empty(), text)
}

/// The words of `text` as plain text is laid out.
pub fn words(text: &str) -> (w: Vec<String>)
    ensures
        texts(w@) == words_of(text@),
{
    let v = chars_of(text);
    let mut done: Vec<String> = Vec::new();
    let mut current: Vec<char> = Vec::new();
    let mut i: usize = 0;
    assert(v@.skip(0) == v@);
    assert(texts(done@) =~= Seq::<Seq<char>>::empty());
    assert(current@ =~= Seq::<char>::empty());
    while i < v.len()
        invariant
            i <= v@.len(),
            pieces_from(texts(done@), current@, v@.skip(i as int)) == words_of(text@),
            v@ == text@,
        decreases v@.len() - i,
    {
        let ghost rest = v@.skip(i as int);
        let ghost done_before = texts(done@);
        let ghost current_before = current@;
        assert(rest.drop_first() == v@.skip(i + 1));
        assert(rest[0] == v@[i as int]);
        let c = v[i];
        current.push(c);
        if c == ' ' {
            if !is_blank(current.as_slice()) {
                done.push(string_of(current.as_slice()));
            }
            assert(texts(done@) =~= keep_piece(done_before, current_before.push(' ')));
            current = Vec::new();
        }
        i = i + 1;
    }
    let ghost done_before = texts(done@);
    if !is_blank(current.as_slice()) {
        done.push(string_of(current.as_slice()));
    }
    assert(texts(done@) =~= keep_piece(done_before, current@));
    done
}

/// The reader window's state. Keep one per application; a front end draws it every frame.
#[derive(Debug)]
pub struct DocsWindow {
    open: bool,
    selected: Option<&'static str>,
    /// Parsed pages by slug. Never invalidated: the source is compiled in.
    parsed: Vec<(&'static str, Vec<Block>)>,
}

/// What a [`DocsWindow`] holds, as plain values.
#[verifier::ext_equal]
pub struct DocsWindowView {
    /// Whether it is showing.
    pub open: bool,
    /// The page shown, or `None` for the contents page.
    pub selected: Option<&'static str>,
    /// The pages parsed so far, by slug, in the order they were first shown.
    pub parsed: Seq<(Seq<char>, Seq<BlockView>)>,
}

impl View for DocsWindow {
    type V = DocsWindowView;

    closed spec fn view(&self) -> DocsWindowView {
        DocsWindowView {
            open: self.open,
            selected: self.selected,
            parsed: self.parsed@.map_values(
                |entry: (&'static str, Vec<Block>)| (entry.0@, blocks_view(entry.1@)),
            ),
        }
    }
}

/// The index of the first parsed page whose slug is `slug`, or -1 when it has not been
/// parsed.
pub open spec fn cache_index(parsed: Seq<(Seq<char>, Seq<BlockView>)>, slug: Seq<char>) -> int {
    if exists|i: int| 0 <= i < parsed.len() && #[trigger] parsed[i].0 == slug {
        choose|i: int|
            0 <= i < parsed.len() && #[trigger] parsed[i].0 == slug && forall|j: int|
                0 <= j < i ==> parsed[j].0 != slug
    } else {
        -1
    }
}

/// The blocks of a page's body.
pub open spec fn page_blocks_of(body: Seq<char>) -> Seq<BlockView> {
    walk_over(walk_start(), markdown_events_of(body, true, true)).blocks
}

impl DocsWindow {
    /// A closed window on the contents page, with nothing parsed.
    pub fn new() -> (w: Self)
        ensures
            w@ == (DocsWindowView { open: false, selected: None, parsed: Seq::empty() }),
    {
        let w = DocsWindow { open: false, selected: None, parsed: Vec::new() };
        assert(w@.parsed =~= Seq::empty());
        w
    }

    /// Opens it on the contents page.
    pub fn open(&mut self)
        ensures
            final(self)@ == (DocsWindowView {
                open: true,
                selected: None,
                parsed: old(self)@.parsed,
            }),
    {
        self.open = true;
        self.selected = None;
        assert(self@.parsed =~= old(self)@.parsed);
    }

    /// Opens it at one page.
    pub fn open_at(&mut self, slug: &'static str)
        ensures
            final(self)@ == (DocsWindowView { open: true, selected: Some(slug), ..old(self)@ }),
    {
        self.open = true;
        self.selected = Some(slug);
        assert(self@.parsed =~= old(self)@.parsed);
    }

    /// Whether it is showing.
    pub fn is_open(&self) -> (b: bool)
        ensures
            b == self@.open,
    {
        self.open
    }

    /// Closes it, as its close button does.
    pub fn close(&mut self)
        ensures
            final(self)@ == (DocsWindowView { open: false, ..old(self)@ }),
    {
        self.open = false;
        assert(self@.parsed =~= old(self)@.parsed);
    }

    /// The page shown, or `None` for the contents page.
    pub fn selected(&self) -> (s: Option<&'static str>)
        ensures
            s == self@.selected,
    {
        self.selected
    }

    /// Shows one page, or the contents page for `None`.
    pub fn select(&mut self, slug: Option<&'static str>)
        ensures
            final(self)@ == (DocsWindowView { selected: slug, ..old(self)@ }),
    {
        self.selected = slug;
        assert(self@.parsed =~= old(self)@.parsed);
    }

    /// Where the parsed blocks of `doc` are kept, parsing its body the first time it is shown.
    /// A page already parsed is not parsed again.
    pub fn page_blocks(&mut self, doc: &Doc) -> (index: usize)
        ensures
            final(self)@.open == old(self)@.open,
            final(self)@.selected == old(self)@.selected,
            cache_index(old(self)@.parsed, doc.slug@) >= 0 ==> {
                &&& index as int == cache_index(old(self)@.parsed, doc.slug@)
                &&& final(self)@ == old(self)@
            },
            cache_index(old(self)@.parsed, doc.slug@) < 0 ==> {
                &&& index == old(self)@.parsed.len()
                &&& final(self)@.parsed == old(self)@.parsed.push(
                    (doc.slug@, page_blocks_of(doc.body@)),
                )
            },
            index < final(self)@.parsed.len(),
            final(self)@.parsed[index as int].0 == doc.slug@,
    {
        let mut i: usize = 0;
        while i < self.parsed.len()
            invariant
                i <= self@.parsed.len(),
                self@ == old(self)@,
                forall|j: int| 0 <= j < i ==> #[trigger] self@.parsed[j].0 != doc.slug@,
            decreases self@.parsed.len() - i,
        {
            assert(self@.parsed[i as int].0 == self.parsed@[i as int].0@);
            if same_text(self.parsed[i].0, doc.slug) {
                assert(self@.parsed[i as int].0 == doc.slug@);
                assert(cache_index(old(self)@.parsed, doc.slug@) == i as int);
                return i;
            }
            i = i + 1;
        }
        let blocks = parse(doc.body);
        self.parsed.push((doc.slug, blocks));
        assert(self@.parsed =~= old(self)@.parsed.push((doc.slug@, page_blocks_of(doc.body@))));
        i
    }

    /// The parsed blocks kept at `index`.
    pub fn cached_blocks(&self, index: usize) -> (blocks: &Vec<Block>)
        requires
            index < self@.parsed.len(),
        ensures
            blocks_view(blocks@) == self@.parsed[index as int].1,
    {
        &self.parsed[index].1
    }
}

impl Default for DocsWindow {
    /// A closed window on the contents page, with nothing parsed.
    fn default() -> (w: Self)
        ensures
            w@ == (DocsWindowView { open: false, selected: None, parsed: Seq::empty() }),
    {
        DocsWindow::new()
    }
}

/// The first page from `from` on with slug `slug` is a page of the registry with that slug.
proof fn the_first_page_has_the_slug(docs: Seq<Doc>, slug: Seq<char>, from: int)
    requires
        0 <= from,
    ensures
        first_page(docs, slug, from) >= 0 ==> {
            let k = first_page(docs, slug, from);
            &&& from <= k < docs.len()
            &&& docs[k].slug@ == slug
        },
    decreases docs.len() - from,
{
    if from < docs.len() && docs[from].slug@ != slug {
        the_first_page_has_the_slug(docs, slug, from + 1);
    }
}

/// Following a link does one of three things, by its destination alone: a destination
/// beginning with `http` opens the browser, and only such a destination does; any other
/// opens the shipped page whose slug is the destination's file stem, or does nothing when no
/// page has that slug.
pub proof fn a_link_opens_a_page_the_browser_or_nothing(dest: Seq<char>, docs: Seq<Doc>)
    ensures
        has_prefix(dest, seq!['h', 't', 't', 'p']) <==> link_target_of(dest, docs)
            == LinkTarget::Web,
        link_target_of(dest, docs) matches LinkTarget::Page(slug) ==> exists|k: int|
            0 <= k < docs.len() && docs[k].slug == slug && #[trigger] docs[k].slug@ == link_stem(
                dest,
            ),
        !has_prefix(dest, seq!['h', 't', 't', 'p']) && (exists|k: int|
            0 <= k < docs.len() && #[trigger] docs[k].slug@ == link_stem(dest))
            ==> link_target_of(dest, docs) is Page,
{
    reveal_strlit("http");
    assert("http"@ =~= seq!['h', 't', 't', 'p']);
    the_first_page_has_the_slug(docs, link_stem(dest), 0);
    if !has_prefix(dest, seq!['h', 't', 't', 'p']) && (exists|k: int|
        0 <= k < docs.len() && #[trigger] docs[k].slug@ == link_stem(dest)) {
        let k = choose|k: int| 0 <= k < docs.len() && #[trigger] docs[k].slug@ == link_stem(dest);
        a_page_with_the_slug_is_found(docs, link_stem(dest), 0, k);
    }
}

/// When a page at or after `from` has slug `slug`, the search from `from` finds one.
proof fn a_page_with_the_slug_is_found(docs: Seq<Doc>, slug: Seq<char>, from: int, k: int)
    requires
        0 <= from <= k < docs.len(),
        docs[k].slug@ == slug,
    ensures
        first_page(docs, slug, from) >= 0,
    decreases k - from,
{
    if docs[from].slug@ != slug {
        a_page_with_the_slug_is_found(docs, slug, from + 1, k);
    }
}

} // verus!
