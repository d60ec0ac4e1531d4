//! The frontend's configuration surface: general identity and logger
//! options, including the browser console sink.

use vstd::prelude::*;

use crate::settings::RunEnvironmentType;

verus! {

/// The frontend's identity and default environment.
pub struct GeneralConfigs {
    pub app_name: String,
    pub about: String,
    pub default_run_env: RunEnvironmentType,
}

impl GeneralConfigs {
    /// The application's name.
    pub fn app_name(&self) -> (r: &String)
        ensures
            r@ == self.app_name@,
    {
        &self.app_name
    }

    /// The application's description.
    pub fn about(&self) -> (r: &String)
        ensures
            r@ == self.about@,
    {
        &self.about
    }

    /// The environment selected when none is supplied.
    pub fn default_run_env(&self) -> (r: &RunEnvironmentType)
        ensures
            *r == self.default_run_env,
    {
        &self.default_run_env
    }
}

/// The frontend logger's options: which sinks are enabled, including
/// the browser console, and where the file sink writes.
pub struct LoggerConfigs {
    pub log_level: String,
    pub is_file_emitted: bool,
    pub is_stdout_emitted: bool,
    pub is_wasm_console_emitted: bool,
    pub log_file_path: Option<String>,
}

impl LoggerConfigs {
    /// The minimum severity level's name.
    pub fn log_level(&self) -> (r: &String)
        ensures
            r@ == self.log_level@,
    {
        &self.log_level
    }

    /// Whether logs are written to a file.
    pub fn is_file_emitted(&self) -> (r: &bool)
        ensures
            *r == self.is_file_emitted,
    {
        &self.is_file_emitted
    }

    /// Whether logs are written to stdout.
    pub fn is_stdout_emitted(&self) -> (r: &bool)
        ensures
            *r == self.is_stdout_emitted,
    {
        &self.is_stdout_emitted
    }

    /// Whether logs are bridged to the browser console.
    pub fn is_wasm_console_emitted(&self) -> (r: &bool)
        ensures
            *r == self.is_wasm_console_emitted,
    {
        &self.is_wasm_console_emitted
    }

    /// The log file's path, when the file sink is enabled.
    pub fn log_file_path(&self) -> (r: &Option<String>)
        ensures
            *r == self.log_file_path,
    {
        &self.log_file_path
    }
}

} // verus!
