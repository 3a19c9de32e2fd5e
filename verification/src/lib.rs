//! Expansion of the ADS journal macros in a bibliography, and the search for the
//! bibliography that a project's `paper.md` names.
//!
//! A bibliography exported from the ADS abbreviates the names of journals by macros
//! such as `\mnras` or `\apjl`.  [`update_bibliography_file`] writes the names out.
//! It applies the macros of a fixed table one after the other, the longest token
//! first, so that `\apjl` is not taken for `\apj` with an `l` behind it.
//!
//! - [`table`] holds the macros, [`shape`] says what they look like, and [`order`]
//!   sorts them for the passes.
//! - [`replace`] is one pass: every occurrence of a token gives way to a name.
//! - [`expand`] is the expander itself, and [`scan`] shows that its passes come to
//!   one scan of the text in which the longest token wins.
//! - [`laws`] states what holds of the expansion of every text.
//! - [`locator`] decides, entry by entry of a walk over a directory tree, which
//!   bibliography the project's `paper.md` names.
//! - [`text`] turns strings into vectors of characters and back.

pub mod expand;
pub mod laws;
pub mod locator;
pub mod order;
pub mod replace;
pub mod scan;
pub mod shape;
pub mod table;
pub mod text;

pub use expand::update_bibliography_file;
pub use locator::{is_paper_md, paper_md, Entry, Location, Metadata, Search};
