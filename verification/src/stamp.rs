//! Which build this is: version, commit and build time, read the same way by every tool.
//!
//! The half that runs in a build script (asking git, watching its files) and the half that
//! reads the executable's modification time touch the process and the disk; what they hand
//! over is turned into a [`Stamp`] and a line here.

use vstd::prelude::*;
use crate::calendar::{civil_date, civil_from_days};
use crate::text::{
    chars_of, decimal, ends_with, has_prefix, has_suffix, push_decimal, push_str, starts_with,
    string_of, trim, trim_bounds, zero_padded,
};

verus! {

/// The environment variable the build script sets and the stamp reads. CI may set it to
/// supply the commit.
pub const COMMIT_ENV: &'static str = "OOPS_COMMIT";

/// How many characters of a supplied hex hash are shown.
pub const DISPLAY_LENGTH: usize = 7;

/// What a build can say about itself.
#[derive(Debug, Clone, PartialEq, Eq)]
pub struct Stamp {
    /// The consumer's package version.
    pub version: &'static str,
    /// The commit, or `None` for a build made outside a repository.
    pub commit: Option<&'static str>,
    /// When the running executable was written, in seconds since the epoch.
    pub built_at: Option<u64>,
}

/// A commit names something checkable when it is present and not from a modified tree.
pub open spec fn exact_commit(commit: Option<&'static str>) -> bool {
    match commit {
        Some(c) => !has_suffix(c@, "-dirty"@),
        None => false,
    }
}

/// The count of seconds `utc` formats: one that does not fit an `i64` is read as zero.
pub open spec fn utc_seconds(seconds: u64) -> int {
    if seconds <= i64::MAX {
        seconds as int
    } else {
        0
    }
}

/// `n` in decimal, padded with zeros to two characters.
pub open spec fn two_digits(n: int) -> Seq<char> {
    zero_padded(decimal(n as nat), 2)
}

/// `seconds` since the epoch as `YYYY-MM-DD HH:MM UTC`.
pub open spec fn utc_text(seconds: u64) -> Seq<char> {
    let s = utc_seconds(seconds);
    let date = civil_date(s / 86400);
    let rest = s % 86400;
    zero_padded(decimal(date.0 as nat), 4) + "-"@ + two_digits(date.1) + "-"@ + two_digits(
        date.2,
    ) + " "@ + two_digits(rest / 3600) + ":"@ + two_digits((rest % 3600) / 60) + " UTC"@
}

/// The one-line form of a stamp: version, then the commit, or the build time when there is no
/// commit.
pub open spec fn stamp_line(stamp: Stamp) -> Seq<char> {
    match (stamp.commit, stamp.built_at) {
        (Some(commit), _) => "v"@ + stamp.version@ + " - "@ + commit@,
        (None, Some(at)) => "v"@ + stamp.version@ + " - built "@ + utc_text(at),
        (None, None) => "v"@ + stamp.version@ + " - no commit, build time unknown"@,
    }
}

/// The ref a `HEAD` file names: the trimmed text after `ref:`, when there is some.
pub open spec fn head_reference_of(contents: Seq<char>) -> Option<Seq<char>> {
    if has_prefix(contents, "ref:"@) {
        let reference = trim(contents.subrange(4, contents.len() as int));
        if reference.len() > 0 {
            Some(reference)
        } else {
            None
        }
    } else {
        None
    }
}

/// Whether `c` is an ASCII hexadecimal digit.
pub open spec fn is_hex_digit(c: char) -> bool {
    ('0' <= c <= '9') || ('a' <= c <= 'f') || ('A' <= c <= 'F')
}

/// A supplied commit as displayed: a hex hash longer than the display length is cut to it;
/// anything else is kept whole.
pub open spec fn shortened(supplied: Seq<char>) -> Seq<char> {
    if supplied.len() > DISPLAY_LENGTH && forall|i: int|
        0 <= i < supplied.len() ==> is_hex_digit(#[trigger] supplied[i]) {
        supplied.subrange(0, DISPLAY_LENGTH as int)
    } else {
        supplied
    }
}

impl Stamp {
    /// Whether this names a commit somebody else could check out: false for a local build
    /// and for a `-dirty` tree.
    pub fn is_exact(&self) -> (b: bool)
        ensures
            b == exact_commit(self.commit),
    {
        match self.commit {
            Some(c) => {
                let text = chars_of(c);
                let dirty = chars_of("-dirty");
                !ends_with(text.as_slice(), dirty.as_slice())
            },
            None => false,
        }
    }

    /// The one-line form every front end shows: version, then the commit, or the build time
    /// when there is no commit.
    pub fn line(&self) -> (s: String)
        ensures
            s@ == stamp_line(*self),
    {
        let mut out: Vec<char> = Vec::new();
        push_str(&mut out, "v");
        push_str(&mut out, self.version);
        match (self.commit, self.built_at) {
            (Some(commit), _) => {
                push_str(&mut out, " - ");
                push_str(&mut out, commit);
            },
            (None, Some(at)) => {
                push_str(&mut out, " - built ");
                let when = utc(at);
                push_str(&mut out, when.as_str());
            },
            (None, None) => {
                push_str(&mut out, " - no commit, build time unknown");
            },
        }
        string_of(out.as_slice())
    }
}

/// Appends `n` in decimal, padded with zeros to `width` characters.
fn push_padded(out: &mut Vec<char>, n: u64, width: usize)
    ensures
        final(out)@ == old(out)@ + zero_padded(decimal(n as nat), width as nat),
{
    let mut digits: Vec<char> = Vec::new();
    push_decimal(&mut digits, n);
    assert(digits@ == decimal(n as nat));
    let mut i: usize = digits.len();
    while i < width
        invariant
            digits@.len() <= i <= width || (i == digits@.len() && i >= width),
            out@ == old(out)@ + Seq::new((i - digits@.len()) as nat, |k: int| '0'),
        decreases width - i,
    {
        out.push('0');
        i = i + 1;
        assert(out@ == old(out)@ + Seq::new((i - digits@.len()) as nat, |k: int| '0'));
    }
    out.append(&mut digits);
}

/// Seconds since the epoch as `YYYY-MM-DD HH:MM UTC`. Always UTC, so a pasted stamp is
/// unambiguous.
pub fn utc(seconds: u64) -> (s: String)
    ensures
        s@ == utc_text(seconds),
{
    let secs: i64 = if seconds <= 9_223_372_036_854_775_807u64 {
        seconds as i64
    } else {
        0
    };
    let days = secs / 86_400;
    let rest = secs % 86_400;
    let hour = rest / 3600;
    let minute = (rest % 3600) / 60;
    let (year, month, day) = civil_from_days(days);
    let mut out: Vec<char> = Vec::new();
    push_padded(&mut out, year as u64, 4);
    push_str(&mut out, "-");
    push_padded(&mut out, month as u64, 2);
    push_str(&mut out, "-");
    push_padded(&mut out, day as u64, 2);
    push_str(&mut out, " ");
    push_padded(&mut out, hour as u64, 2);
    push_str(&mut out, ":");
    push_padded(&mut out, minute as u64, 2);
    push_str(&mut out, " UTC");
    string_of(out.as_slice())
}

/// Assembles a [`Stamp`] from values captured at the call site and the executable's build
/// time. An empty commit, which CI often exports, means no commit.
pub fn assemble(version: &'static str, commit: Option<&'static str>, built_at: Option<u64>) -> (s:
    Stamp)
    ensures
        s.version == version,
        s.built_at == built_at,
        s.commit == (match commit {
            Some(c) => if c@.len() == 0 {
                None
            } else {
                Some(c)
            },
            None => None,
        }),
{
    let commit = match commit {
        Some(c) => if c.is_empty() {
            None
        } else {
            Some(c)
        },
        None => None,
    };
    Stamp { version, commit, built_at }
}

/// The ref in a `HEAD` file's contents: `ref: <path>` on a branch, a bare id when detached.
pub fn parse_head_reference(contents: &str) -> (r: Option<String>)
    ensures
        match r {
            Some(s) => head_reference_of(contents@) == Some(s@),
            None => head_reference_of(contents@) is None,
        },
{
    let text = chars_of(contents);
    let prefix = chars_of("ref:");
    proof {
        reveal_strlit("ref:");
    }
    if !starts_with(text.as_slice(), prefix.as_slice()) {
        return None;
    }
    let rest = text.as_slice().split_at(4).1;
    assert(rest@ == text@.subrange(4, text@.len() as int));
    let (a, b) = trim_bounds(rest);
    if a == b {
        return None;
    }
    let reference = rest.split_at(b).0.split_at(a).1;
    assert(reference@ == rest@.subrange(a as int, b as int));
    Some(string_of(reference))
}

/// Whether `c` is an ASCII hexadecimal digit.
fn hex_digit(c: char) -> (b: bool)
    ensures
        b == is_hex_digit(c),
{
    ('0' <= c && c <= '9') || ('a' <= c && c <= 'f') || ('A' <= c && c <= 'F')
}

/// A supplied commit as displayed: a hex hash is cut to seven characters, anything else (a
/// tag, a `git describe` string) is kept whole.
pub fn shorten(supplied: &str) -> (s: String)
    ensures
        s@ == shortened(supplied@),
{
    let text = chars_of(supplied);
    let mut all_hex = true;
    let mut i: usize = 0;
    while i < text.len()
        invariant
            i <= text@.len(),
            all_hex == forall|k: int| 0 <= k < i ==> is_hex_digit(#[trigger] text@[k]),
        decreases text@.len() - i,
    {
        all_hex = all_hex && hex_digit(text[i]);
        i = i + 1;
    }
    if text.len() > DISPLAY_LENGTH && all_hex {
        string_of(text.as_slice().split_at(DISPLAY_LENGTH).0)
    } else {
        string_of(text.as_slice())
    }
}

/// The trimmed text of `s`.
fn trimmed(s: &str) -> (t: String)
    ensures
        t@ == trim(s@),
{
    let v = chars_of(s);
    let (a, b) = trim_bounds(v.as_slice());
    let piece = v.as_slice().split_at(b).0.split_at(a).1;
    assert(piece@ == v@.subrange(a as int, b as int));
    string_of(piece)
}

/// The commit a supplied value stamps: the value trimmed and shortened, or none when it is
/// blank.
pub open spec fn supplied_commit_of(supplied: Seq<char>) -> Option<Seq<char>> {
    if trim(supplied).len() == 0 {
        None
    } else {
        Some(shortened(trim(supplied)))
    }
}

/// The commit a value of the commit variable supplies, as stamped: trimmed, and shortened
/// when it is a hex hash. A blank value supplies none, and git is asked instead.
pub fn supplied_commit(supplied: &str) -> (c: Option<String>)
    ensures
        match c {
            Some(text) => supplied_commit_of(supplied@) == Some(text@),
            None => supplied_commit_of(supplied@) is None,
        },
{
    let t = trimmed(supplied);
    if t.as_str().is_empty() {
        None
    } else {
        Some(shorten(t.as_str()))
    }
}

/// The commit git's answer stamps: the short hash, with `-dirty` when the tree differs from
/// it.
pub open spec fn git_commit_of(short: Seq<char>, dirty: bool) -> Seq<char> {
    if dirty {
        short + "-dirty"@
    } else {
        short
    }
}

/// The commit stamped from git's short hash and whether the tree is modified.
pub fn git_commit(short: &str, dirty: bool) -> (c: String)
    ensures
        c@ == git_commit_of(short@, dirty),
{
    let mut out = chars_of(short);
    if dirty {
        push_str(&mut out, "-dirty");
    }
    string_of(out.as_slice())
}

/// What a command's output says: its trimmed text, or none when that is empty.
pub open spec fn command_answer_of(output: Seq<char>) -> Option<Seq<char>> {
    if trim(output).len() == 0 {
        None
    } else {
        Some(trim(output))
    }
}

/// What a command's output says: its trimmed text, or none when that is empty.
pub fn command_answer(output: &str) -> (a: Option<String>)
    ensures
        match a {
            Some(text) => command_answer_of(output@) == Some(text@),
            None => command_answer_of(output@) is None,
        },
{
    let t = trimmed(output);
    if t.as_str().is_empty() {
        None
    } else {
        Some(t)
    }
}

/// Whether `c` is one of `0`-`9`, `a`-`f` or `A`-`F`.
pub open spec fn hex_char(c: char) -> bool {
    ('0' <= c && c <= '9') || ('a' <= c && c <= 'f') || ('A' <= c && c <= 'F')
}

/// Only a hex hash is cut, and only to its first seven characters: a supplied value is either
/// kept whole or is longer than seven characters, all of them hex digits, and cut to its first
/// seven; a value holding any other character (a tag, a `git describe` string with `-dirty`)
/// is kept whole, and a hex hash longer than seven characters is always cut.
pub proof fn only_a_hex_hash_is_cut(supplied: Seq<char>)
    ensures
        shortened(supplied) == supplied || ({
            &&& supplied.len() > 7
            &&& shortened(supplied) == supplied.subrange(0, 7)
            &&& forall|i: int| 0 <= i < supplied.len() ==> #[trigger] hex_char(supplied[i])
        }),
        (exists|i: int| 0 <= i < supplied.len() && !#[trigger] hex_char(supplied[i]))
            ==> shortened(supplied) == supplied,
        supplied.len() > 7 && (forall|i: int|
            0 <= i < supplied.len() ==> #[trigger] hex_char(supplied[i])) ==> shortened(
            supplied,
        ) == supplied.subrange(0, 7),
{
    if exists|i: int| 0 <= i < supplied.len() && !#[trigger] hex_char(supplied[i]) {
        let i = choose|i: int| 0 <= i < supplied.len() && !#[trigger] hex_char(supplied[i]);
        assert(!is_hex_digit(supplied[i]));
    }
    if supplied.len() > 7 && (forall|i: int|
        0 <= i < supplied.len() ==> #[trigger] hex_char(supplied[i])) {
        assert forall|i: int| 0 <= i < supplied.len() implies is_hex_digit(
            #[trigger] supplied[i],
        ) by {
            assert(hex_char(supplied[i]));
        }
    }
}

} // verus!
