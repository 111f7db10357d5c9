//! Orchestration rules of a static-site builder: how source paths map to
//! build actions, how a build is planned and its results folded, how change
//! events turn into rebuilds, and how the development server answers.

pub mod classify;
pub mod compile;
pub mod config;
pub mod find;
pub mod glob;
pub mod listing;
pub mod logging;
pub mod path;
pub mod report;
pub mod serve;
pub mod text;
pub mod watch;
