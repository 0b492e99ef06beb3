//! Verified core of the polydup command-line tool: environment detection,
//! configuration rules, report rendering and the decisions that drive scans.

pub mod detect;
pub mod text;
pub mod encoding;
pub mod order;
pub mod fixed;
pub mod defaults;
pub mod config;
pub mod init;
pub mod report;
pub mod filters;
pub mod reporting;
pub mod groups;
pub mod dashboard;
pub mod text_report;
pub mod cli;
pub mod scan;
pub mod vcs;
pub mod watch;
pub mod versions;
pub mod install_check;
pub mod commands;
pub mod ignore;
pub mod output;
pub mod languages;
