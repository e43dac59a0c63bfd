//! System facts rendered beside an ASCII-art logo.
//!
//! The crate turns the readings of a set of collector modules into a flat
//! table of named facts, normalizes a logo into a rectangular block of text,
//! and expands `{placeholder}` templates against the facts and a color palette.
//!
//! - [`text`]: lines, words, numerals and trimming, over texts as sequences of
//!   characters.
//! - [`config`]: the configuration and its built-in defaults.
//! - [`modules`]: the fact table, the registry of modules, and for each module
//!   what it reads and which facts it sets.
//! - [`logo`]: where a logo is looked for and how it is normalized.
//! - [`render`]: template expansion and the layout of the output.
//! - [`fetcher`]: the records of a whole-system report.
//!
//! Every function states what it returns, and is verified against that. Three
//! contracts are taken on trust, each with a note where it stands: the search
//! for a placeholder, which the `regex` crate does, and two functions of the
//! standard library, `String::push` and `char::is_numeric`.
//!
//! The library reads no file, runs no command and prints nothing: it takes
//! what was read as text and gives back what is to be shown.

pub mod config;
pub mod constants;
pub mod fetcher;
pub mod logo;
pub mod modules;
pub mod render;
pub mod text;
pub mod utils;
