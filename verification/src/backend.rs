//! The backend's logging startup: reads the logger configuration into a
//! list of enabled sink descriptors, validates the file sink's
//! parameters, parses the requested level, and computes the sink
//! fan-out plan that the process installer executes.

use vstd::prelude::*;

use crate::backend_settings::{GeneralConfigs, LoggerConfigs};
use crate::logger::{Level, OutputType, OutputData, SinkPlan, init, outputs_view, has_stdout, has_file, has_remote};

verus! {

/// A configuration error found at startup: fatal, with a descriptive
/// message, never silently skipped.
#[derive(Clone, Copy, Debug, PartialEq, Eq, Structural)]
pub enum ConfigError {
    /// The file sink is enabled but no files directory is configured.
    MissingFilesDirectory,
    /// The file sink is enabled but no file name prefix is configured.
    MissingFilesPrefix,
    /// The configured log level names no level.
    InvalidLogLevel,
}

/// The sink descriptors the configuration enables: stdout first when
/// enabled, then the file sink when enabled.
pub open spec fn spec_enabled_outputs(
    general: GeneralConfigs,
    logger_configs: LoggerConfigs,
) -> Seq<OutputData> {
    let stdout_part: Seq<OutputData> = if logger_configs.is_stdout_emitted {
        seq![OutputData::Stdout]
    } else {
        Seq::empty()
    };
    let file_part: Seq<OutputData> = if logger_configs.is_file_emitted {
        seq![
            OutputData::File {
                app_name: general.app_name@,
                directory: logger_configs.files_directory.unwrap()@,
                prefix: logger_configs.files_prefix.unwrap()@,
            },
        ]
    } else {
        Seq::empty()
    };
    stdout_part + file_part
}

/// Builds the logging startup plan from the configuration: one sink
/// descriptor per enabled output, the parsed level filter, and the
/// writer guards the construction will yield. A file sink without a
/// directory or prefix, or an unknown level name, is a fatal
/// configuration error.
pub fn start_logs(
    log_level: &str,
    general: &GeneralConfigs,
    logger_configs: &LoggerConfigs,
) -> (r: Result<SinkPlan, ConfigError>)
    ensures
        r is Ok <==> (logger_configs.is_file_emitted ==> logger_configs.files_directory is Some
            && logger_configs.files_prefix is Some) && Level::spec_from_text(log_level@) is Some,
        r == Err::<SinkPlan, ConfigError>(ConfigError::MissingFilesDirectory)
            <==> logger_configs.is_file_emitted && logger_configs.files_directory is None,
        r == Err::<SinkPlan, ConfigError>(ConfigError::MissingFilesPrefix)
            <==> logger_configs.is_file_emitted && logger_configs.files_directory is Some
            && logger_configs.files_prefix is None,
        r == Err::<SinkPlan, ConfigError>(ConfigError::InvalidLogLevel) <==> (
        logger_configs.is_file_emitted ==> logger_configs.files_directory is Some
            && logger_configs.files_prefix is Some) && Level::spec_from_text(log_level@) is None,
        r matches Ok(plan) ==> {
            &&& outputs_view(plan.outputs@) == spec_enabled_outputs(*general, *logger_configs)
            &&& plan.filter@ == Level::spec_from_text(log_level@).unwrap().spec_value()
            &&& plan.stdout_guard == logger_configs.is_stdout_emitted
            &&& plan.file_guard == logger_configs.is_file_emitted
            &&& !plan.remote_task
        },
{
    let mut outputs: Vec<OutputType> = Vec::new();
    if *logger_configs.is_stdout_emitted() {
        outputs.push(OutputType::Stdout);
    }
    if *logger_configs.is_file_emitted() {
        let directory = match logger_configs.files_directory() {
            Some(d) => d.clone(),
            None => {
                return Err(ConfigError::MissingFilesDirectory);
            },
        };
        let prefix = match logger_configs.files_prefix() {
            Some(p) => p.clone(),
            None => {
                return Err(ConfigError::MissingFilesPrefix);
            },
        };
        outputs.push(
            OutputType::File { app_name: general.app_name().clone(), directory, prefix },
        );
    }
    let level = match Level::from_str(log_level) {
        Some(l) => l,
        None => {
            return Err(ConfigError::InvalidLogLevel);
        },
    };
    proof {
        assert(outputs_view(outputs@) =~= spec_enabled_outputs(*general, *logger_configs));
        lemma_enabled_sinks(*general, *logger_configs);
    }
    Ok(init(&level, outputs))
}

/// Which guards the enabled descriptor list yields: a stdout guard
/// exactly when stdout is enabled, a file guard exactly when the file
/// sink is enabled, and never a remote flush task.
proof fn lemma_enabled_sinks(general: GeneralConfigs, logger_configs: LoggerConfigs)
    ensures
        has_stdout(spec_enabled_outputs(general, logger_configs))
            == logger_configs.is_stdout_emitted,
        has_file(spec_enabled_outputs(general, logger_configs)) == logger_configs.is_file_emitted,
        !has_remote(spec_enabled_outputs(general, logger_configs)),
{
    let so = spec_enabled_outputs(general, logger_configs);
    let empty = Seq::<OutputData>::empty();
    assert(!has_stdout(empty) && !has_file(empty) && !has_remote(empty));
    if logger_configs.is_stdout_emitted {
        let stdout_only = seq![OutputData::Stdout];
        assert(stdout_only.drop_last() =~= empty);
        assert(stdout_only.last() is Stdout);
        assert(has_stdout(stdout_only) && !has_file(stdout_only) && !has_remote(stdout_only));
        if logger_configs.is_file_emitted {
            assert(so.len() == 2);
            assert(so.drop_last() =~= stdout_only);
            assert(so.last() is File);
            assert(has_stdout(so) && has_file(so) && !has_remote(so));
        } else {
            assert(so =~= stdout_only);
        }
    } else {
        if logger_configs.is_file_emitted {
            assert(so.len() == 1);
            assert(so.drop_last() =~= empty);
            assert(so.last() is File);
            assert(!has_stdout(so) && has_file(so) && !has_remote(so));
        } else {
            assert(so =~= empty);
        }
    }
}

} // verus!
