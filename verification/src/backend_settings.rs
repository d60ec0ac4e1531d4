//! The backend's configuration surface: general identity, server
//! binding, and logger options.

use vstd::prelude::*;

use crate::settings::RunEnvironmentType;

verus! {

/// The backend's identity and default environment.
pub struct GeneralConfigs {
    pub app_name: String,
    pub about: String,
    pub default_run_env: RunEnvironmentType,
}

impl GeneralConfigs {
    /// The application's name.
    pub fn app_name(&self) -> (r: &String)
        ensures
            r@ == self.app_name@,
    {
        &self.app_name
    }

    /// The application's description.
    pub fn about(&self) -> (r: &String)
        ensures
            r@ == self.about@,
    {
        &self.about
    }

    /// The environment selected when none is supplied.
    pub fn default_run_env(&self) -> (r: &RunEnvironmentType)
        ensures
            *r == self.default_run_env,
    {
        &self.default_run_env
    }
}

/// The backend server's binding and file locations.
pub struct ServerConfigs {
    pub addr: String,
    pub port: u16,
    pub static_dir: String,
}

impl ServerConfigs {
    /// The listen address.
    pub fn addr(&self) -> (r: &String)
        ensures
            r@ == self.addr@,
    {
        &self.addr
    }

    /// The listen port.
    pub fn port(&self) -> (r: &u16)
        ensures
            *r == self.port,
    {
        &self.port
    }

    /// The static files directory.
    pub fn static_dir(&self) -> (r: &String)
        ensures
            r@ == self.static_dir@,
    {
        &self.static_dir
    }
}

/// The backend logger's options: which sinks are enabled and where the
/// file sink writes.
pub struct LoggerConfigs {
    pub log_level: String,
    pub is_stdout_emitted: bool,
    pub is_file_emitted: bool,
    pub files_directory: Option<String>,
    pub files_prefix: Option<String>,
}

impl LoggerConfigs {
    /// The minimum severity level's name.
    pub fn log_level(&self) -> (r: &String)
        ensures
            r@ == self.log_level@,
    {
        &self.log_level
    }

    /// Whether logs are written to stdout.
    pub fn is_stdout_emitted(&self) -> (r: &bool)
        ensures
            *r == self.is_stdout_emitted,
    {
        &self.is_stdout_emitted
    }

    /// Whether logs are written to a rolling file.
    pub fn is_file_emitted(&self) -> (r: &bool)
        ensures
            *r == self.is_file_emitted,
    {
        &self.is_file_emitted
    }

    /// The directory the file sink writes under, when enabled.
    pub fn files_directory(&self) -> (r: &Option<String>)
        ensures
            *r == self.files_directory,
    {
        &self.files_directory
    }

    /// The file name prefix the file sink uses, when enabled.
    pub fn files_prefix(&self) -> (r: &Option<String>)
        ensures
            *r == self.files_prefix,
    {
        &self.files_prefix
    }
}

} // verus!
