//! Paths that are written as sequences of components, and their resolution
//! to plain paths.
//!
//! A component is a literal piece of a path or an expression of the form
//! `$namespace: alternatives`. The namespace says where values come from:
//!
//! | tag      | values                                                    |
//! |----------|-----------------------------------------------------------|
//! | `$env`   | the variables of the environment                          |
//! | `$const` | what is known of the machine when the program is built    |
//! | `$dir`   | the standard directories of the platform                  |
//! | `$proj`  | the directories of a project, as in `$proj(org.moz.ff)`   |
//! | `$val`   | values that are made on demand, such as random text       |
//!
//! The alternatives are identifiers with `?` or `??` between them. They are
//! tried from left to right. Behind `?` the next one is tried where the one
//! before it has no value; behind `??` also where it has a value whose path is
//! not on disk. An alternative of the form `tag * identifier` borrows the
//! lookup of another namespace: `$dir: runtime ?? env * HOME`. The colon and
//! the question mark may each be typed in their full-width form.
//!
//! The resolved components are joined into one path. An expression that
//! finds no value makes the whole path absent; a text that is no expression
//! stands in the path as it is.
//!
//! Nothing here reads the environment on its own: a [`Host`] holds what is
//! known of the machine, and every resolution takes one.
//!
//! What the functions promise is stated over texts as sequences of
//! characters. Where the platform or the file system decides, the contracts
//! say which answers are possible and leave open which of them is given.

pub mod base_dirs;
pub mod chunks;
pub mod consts;
pub mod envpath_core;
pub mod from;
pub mod host;
pub mod os_env;
pub mod parser;
pub mod project;
pub mod random;
pub mod raw;
pub mod remix;
pub mod rules;
pub mod separator;
pub mod system;
pub mod text;
pub mod value;

pub use envpath_core::EnvPath;
pub use host::Host;
pub use project::ProjectError;
pub use raw::EnvPathRaw as Raw;
