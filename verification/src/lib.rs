//! Core of the GetRich stock foundation store: symbol normalization,
//! import parsing, read-model decisions and request planning.

pub mod cli;
pub mod config;
pub mod csv;
pub mod db;
pub mod error;
pub mod http;
pub mod import;
pub mod invoke;
pub mod json;
pub mod models;
pub mod paths;
pub mod service;
pub mod symbol;
pub mod text;
pub mod time;
pub mod view;

use vstd::prelude::*;

verus! {

/// Name of the application, as reported by `system.version`.
pub const APP_NAME: &'static str = "getrich";

/// Version of the library.
pub const VERSION: &'static str = "0.1.0";

} // verus!
