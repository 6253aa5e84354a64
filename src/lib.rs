//! Discovery and selection core of a project launcher: locating project
//! manifests, resolving them into project records, and an incremental
//! fuzzy-ranked selection state machine.

pub mod fuzzy;
pub mod text;
pub mod project;
pub mod selection;
pub mod languages;
pub mod create;
pub mod display;
pub mod config;
