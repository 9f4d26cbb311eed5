//! Save profiles of Risk of Rain 2: where they are found on disk, what is
//! read from them, and how their coin counters are rewritten in place.
//!
//! Nothing in this library touches the file system. The caller lists
//! directories, reads and writes files, and hands over what it found; the
//! library decides what counts as an installation root, which files are
//! profile documents, what a document's fields are, and what is written
//! back. Every function states its result over a mathematical model of
//! its arguments, and the guarantees that relate several functions are
//! proved beside them.
//!
//! - [`roots`]: the candidate installation roots and their deduplication.
//! - [`registry`]: the installation lookup on Windows.
//! - [`locator`]: the profile documents below a root.
//! - [`scan`]: the list of profiles of all roots.
//! - [`marker`]: marker pairs, found by local matching.
//! - [`profile`]: reading the fields of a document and rewriting its
//!   counters.
//! - [`save`]: the steps of saving, with a backup before the write.
//! - [`patch_laws`], [`splice`]: what rewriting guarantees.
//! - [`paths`]: paths as text.
//! - [`decimal`], [`text`]: digits, numbers and character sequences.

pub mod decimal;
pub mod locator;
pub mod marker;
pub mod paths;
pub mod patch_laws;
pub mod profile;
pub mod registry;
pub mod roots;
pub mod save;
pub mod scan;
pub mod splice;
pub mod text;
