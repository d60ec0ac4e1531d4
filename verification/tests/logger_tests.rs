use monitoring::logger::{Level, LogConfig, OutputType, SinkPlan, SubscriberSlot, init, effective_filter};
use monitoring::backend::{start_logs, ConfigError};
use monitoring::backend_settings::{GeneralConfigs, LoggerConfigs};
use monitoring::frontend_settings::LoggerConfigs as FrontendLoggerConfigs;
use monitoring::settings::{CommonConfigs, RunEnvironmentType};

fn general() -> GeneralConfigs {
    GeneralConfigs {
        app_name: String::from("backend"),
        about: String::from("test backend"),
        default_run_env: RunEnvironmentType::Development,
    }
}

fn logger_configs(stdout: bool, file: bool) -> LoggerConfigs {
    LoggerConfigs {
        log_level: String::from("info"),
        is_stdout_emitted: stdout,
        is_file_emitted: file,
        files_directory: Some(String::from("./logs")),
        files_prefix: Some(String::from("backend.log")),
    }
}

#[test]
fn level_names_round_trip() {
    for name in ["trace", "debug", "info", "warn", "error"] {
        let level = Level::from_str(name).expect("known level name");
        assert_eq!(level.value(), name);
    }
    assert!(Level::from_str("INFO").is_none());
    assert!(Level::from_str("verbose").is_none());
    assert!(Level::from_str("").is_none());
}

#[test]
fn plan_yields_one_guard_per_buffered_sink() {
    let outputs = vec![
        OutputType::Stdout,
        OutputType::File {
            app_name: String::from("backend"),
            directory: String::from("./logs"),
            prefix: String::from("backend.log"),
        },
    ];
    let plan: SinkPlan = init(&Level::Debug, outputs);
    assert_eq!(plan.outputs.len(), 2);
    assert_eq!(plan.filter, "debug");
    assert!(plan.stdout_guard);
    assert!(plan.file_guard);
    assert!(!plan.remote_task);
}

#[test]
fn duplicate_descriptors_yield_independent_layers() {
    let plan = init(&Level::Info, vec![OutputType::Stdout, OutputType::Stdout]);
    assert_eq!(plan.outputs.len(), 2);
    assert!(plan.stdout_guard);
    assert!(!plan.file_guard);
}

#[test]
fn remote_sink_yields_a_flush_task() {
    let plan = init(
        &Level::Info,
        vec![OutputType::Remote { endpoint_url: String::from("http://127.0.0.1:3100") }],
    );
    assert!(plan.remote_task);
    assert!(!plan.stdout_guard);
    assert!(!plan.file_guard);
}

#[test]
fn environment_override_takes_precedence() {
    assert_eq!(effective_filter(Some(String::from("warn")), &Level::Trace), "warn");
    assert_eq!(effective_filter(None, &Level::Trace), "trace");
}

#[test]
fn subscriber_installs_exactly_once() {
    let mut slot = SubscriberSlot::new();
    assert!(slot.install().is_ok());
    assert!(slot.install().is_err());
    assert!(slot.install().is_err());
}

#[test]
fn start_logs_builds_the_configured_plan() {
    let plan = start_logs("info", &general(), &logger_configs(true, true)).expect("valid configs");
    assert_eq!(plan.outputs.len(), 2);
    assert!(matches!(plan.outputs[0], OutputType::Stdout));
    assert!(matches!(plan.outputs[1], OutputType::File { .. }));
    assert_eq!(plan.filter, "info");
    assert!(plan.stdout_guard);
    assert!(plan.file_guard);
}

#[test]
fn start_logs_rejects_missing_file_parameters() {
    let mut no_directory = logger_configs(false, true);
    no_directory.files_directory = None;
    assert_eq!(
        start_logs("info", &general(), &no_directory).unwrap_err(),
        ConfigError::MissingFilesDirectory
    );
    let mut no_prefix = logger_configs(false, true);
    no_prefix.files_prefix = None;
    assert_eq!(
        start_logs("info", &general(), &no_prefix).unwrap_err(),
        ConfigError::MissingFilesPrefix
    );
}

#[test]
fn start_logs_rejects_unknown_levels() {
    assert_eq!(
        start_logs("loud", &general(), &logger_configs(true, false)).unwrap_err(),
        ConfigError::InvalidLogLevel
    );
}

#[test]
fn file_parameters_are_ignored_when_file_sink_is_off() {
    let mut configs = logger_configs(true, false);
    configs.files_directory = None;
    configs.files_prefix = None;
    let plan = start_logs("warn", &general(), &configs).expect("stdout-only configs");
    assert_eq!(plan.outputs.len(), 1);
    assert!(!plan.file_guard);
}

#[test]
fn run_environment_parses_case_insensitively() {
    assert_eq!(RunEnvironmentType::from("production"), RunEnvironmentType::Production);
    assert_eq!(RunEnvironmentType::from("PRODUCTION"), RunEnvironmentType::Production);
    assert_eq!(RunEnvironmentType::from("Production"), RunEnvironmentType::Production);
    assert_eq!(RunEnvironmentType::from("development"), RunEnvironmentType::Development);
    assert_eq!(RunEnvironmentType::from("anything-else"), RunEnvironmentType::Development);
    assert_eq!(RunEnvironmentType::Production.value(), "production");
    assert_eq!(RunEnvironmentType::Development.value(), "development");
}

#[test]
fn log_config_variants_cover_the_sinks() {
    let configs = vec![
        LogConfig::File(String::from("./logs/app.log")),
        LogConfig::Stdout,
        LogConfig::OpenTelemetry,
    ];
    assert!(matches!(&configs[0], LogConfig::File(p) if p == "./logs/app.log"));
    assert!(matches!(configs[1], LogConfig::Stdout));
    assert!(matches!(configs[2], LogConfig::OpenTelemetry));
}

#[test]
fn common_configs_expose_their_urls() {
    let configs = CommonConfigs {
        frontend_url: String::from("http://127.0.0.1:8080"),
        backend_url: String::from("http://127.0.0.1:9000"),
    };
    assert_eq!(configs.frontend_url(), "http://127.0.0.1:8080");
    assert_eq!(configs.backend_url(), "http://127.0.0.1:9000");
}

#[test]
fn frontend_logger_configs_expose_their_options() {
    let configs = FrontendLoggerConfigs {
        log_level: String::from("debug"),
        is_file_emitted: false,
        is_stdout_emitted: false,
        is_wasm_console_emitted: true,
        log_file_path: None,
    };
    assert_eq!(configs.log_level(), "debug");
    assert!(*configs.is_wasm_console_emitted());
    assert!(!*configs.is_file_emitted());
    assert!(configs.log_file_path().is_none());
}
