//! Rally: the verified core of a local development process supervisor.
//!
//! The library holds the configuration model and its `${VAR}` environment
//! resolution, the env provider's run and output parsers, the command-line
//! grammar, the dependency ordering of managed apps, the per-process
//! supervision record, the control API's wire-level decisions and the
//! telemetry events.

pub mod cli;
pub mod config;
pub mod control;
pub mod deps;
pub mod env_command;
pub mod env_map;
pub mod env_output;
pub mod interpolate;
pub mod process;
pub mod telemetry;
pub mod text;
pub mod ui;
pub mod watch;

pub use ui::{dashboard_html, dashboard_page};
