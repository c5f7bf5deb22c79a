//! The build orchestration engine of a package builder: expanding build
//! requests into jobs, the cache of built images and its freshness rule,
//! the life of a job inside its container, the commands and names of each
//! package format, and the listing of built packages.

pub mod container;
pub mod image;
pub mod job;
pub mod metadata;
pub mod os;
pub mod package;
pub mod persist;
pub mod schedule;
pub mod table;
pub mod target;
pub mod text;
