//! The host-side helpers every OOPS tool shares: the build stamp, where a tool keeps what it
//! writes, the logging configuration, and the documentation pages embedded in a binary.
//!
//! Everything here is computed from values handed in; reading the process, the disk and the
//! clock, and drawing, are the front end's.

pub mod calendar;
pub mod docs;
pub mod log;
pub mod markdown;
pub mod paths;
pub mod stamp;
pub mod text;

pub use docs::{check, find_page, link_target, resolve, words, Doc, DocsWindow, LinkTarget};
pub use log::{default_directives, Level, Logging, LEVEL_ENV};
pub use markdown::{parse, walk, Block, MdEvent, MdTag, MdTagEnd, Span};
pub use paths::{
    is_truthy, variable_name, EnvSnapshot, FsPath, Layout, Nowhere, Options, Paths, Process,
    OOPS_DIR, PORTABLE_DIR, PORTABLE_NOTE,
};
pub use stamp::{assemble, parse_head_reference, shorten, utc, Stamp, COMMIT_ENV};
