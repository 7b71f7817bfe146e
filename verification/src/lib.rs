//! Verified core of the OpenClaw desktop installer: version checks, text
//! processing of command output, PATH handling, mirror selection, install
//! planning and the data returned to the front end.

pub mod text;
pub mod json;
pub mod version;
pub mod ansi;
pub mod install_errors;
pub mod path_env;
pub mod mirror;
pub mod config;
pub mod environment;
pub mod install;
