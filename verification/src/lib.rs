//! The rules of a tool that builds packages from sources: the grammar and
//! the order of versions, the names of packages, the records of a recipe
//! and the packages that follow from them, the steps of the stages of a
//! build, the plan by which source files are fetched and unpacked, and
//! the names and headers of the archives that are made. Every function
//! states what it computes and is proved to compute it.

pub mod arch;
pub mod checksum;
pub mod color;
pub mod dynamic;
pub mod fetch;
pub mod header;
pub mod messages;
pub mod named;
pub mod names;
pub mod order;
pub mod pack;
pub mod paths;
pub mod reading;
pub mod recipe;
pub mod registry;
pub mod script;
pub mod source_file;
pub mod text;
pub mod version;
pub mod version_laws;
