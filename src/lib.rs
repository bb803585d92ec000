//! Decision logic of an unattended updater and launcher: it works out which
//! companion-tool build matches the installed host application, decides
//! whether that build must be downloaded, and turns the raw console output of
//! the launched tool into clean log lines.
pub mod archive;
pub mod buildinfo;
pub mod config;
pub mod forum;
pub mod listing;
pub mod marker;
pub mod model;
pub mod orchestrator;
pub mod patch;
pub mod pattern;
pub mod pty;
pub mod text;
pub mod version;
