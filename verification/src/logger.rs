//! Logger configuration surface: severity levels, output sink descriptors,
//! and the sink fan-out plan that the initializer builds from a declarative
//! list of enabled outputs.

use vstd::prelude::*;

use crate::text::str_eq;

verus! {

/// The log level, from least to most verbose: Error > Warn > Info > Debug > Trace.
#[derive(Clone, Copy, Debug, PartialEq, Eq, Structural)]
pub enum Level {
    Trace,
    Debug,
    Info,
    Warn,
    Error,
}

impl Level {
    /// The textual form of the level, as it appears in filter directives.
    pub open spec fn spec_value(self) -> Seq<char> {
        match self {
            Level::Trace => "trace"@,
            Level::Debug => "debug"@,
            Level::Info => "info"@,
            Level::Warn => "warn"@,
            Level::Error => "error"@,
        }
    }

    /// Returns the log level representation as a string.
    pub fn value(&self) -> (r: &'static str)
        ensures
            r@ == self.spec_value(),
    {
        match self {
            Level::Trace => "trace",
            Level::Debug => "debug",
            Level::Info => "info",
            Level::Warn => "warn",
            Level::Error => "error",
        }
    }

    /// Which level, if any, a filter string denotes.
    pub open spec fn spec_from_text(s: Seq<char>) -> Option<Level> {
        if s == "trace"@ {
            Some(Level::Trace)
        } else if s == "debug"@ {
            Some(Level::Debug)
        } else if s == "info"@ {
            Some(Level::Info)
        } else if s == "warn"@ {
            Some(Level::Warn)
        } else if s == "error"@ {
            Some(Level::Error)
        } else {
            None
        }
    }

    /// Parses a level name; `None` when the text names no level.
    pub fn from_str(s: &str) -> (r: Option<Level>)
        ensures
            r == Level::spec_from_text(s@),
    {
        if str_eq(s, "trace") {
            Some(Level::Trace)
        } else if str_eq(s, "debug") {
            Some(Level::Debug)
        } else if str_eq(s, "info") {
            Some(Level::Info)
        } else if str_eq(s, "warn") {
            Some(Level::Warn)
        } else if str_eq(s, "error") {
            Some(Level::Error)
        } else {
            None
        }
    }
}

/// An output sink descriptor. Each enabled descriptor yields one
/// formatting layer; duplicates are permitted and yield independent
/// layers.
#[derive(Debug)]
pub enum OutputType {
    /// A rolling file appender under `directory`, with file names built
    /// from `prefix`, formatted with the application's name.
    File { app_name: String, directory: String, prefix: String },
    /// A non-blocking writer to standard output.
    Stdout,
    /// A background-task-backed writer delivering to a remote collector.
    Remote { endpoint_url: String },
    /// A console-bridging writer for browser environments.
    Wasm,
}

/// An output sink descriptor's mathematical content.
pub enum OutputData {
    File { app_name: Seq<char>, directory: Seq<char>, prefix: Seq<char> },
    Stdout,
    Remote { endpoint_url: Seq<char> },
    Wasm,
}

impl View for OutputType {
    type V = OutputData;

    open spec fn view(&self) -> OutputData {
        match self {
            OutputType::File { app_name, directory, prefix } => OutputData::File {
                app_name: app_name@,
                directory: directory@,
                prefix: prefix@,
            },
            OutputType::Stdout => OutputData::Stdout,
            OutputType::Remote { endpoint_url } => OutputData::Remote {
                endpoint_url: endpoint_url@,
            },
            OutputType::Wasm => OutputData::Wasm,
        }
    }
}

/// The view of a descriptor vector.
pub open spec fn outputs_view(v: Seq<OutputType>) -> Seq<OutputData> {
    v.map_values(|o: OutputType| o@)
}

/// Whether a descriptor sequence enables a stdout sink.
pub open spec fn has_stdout(s: Seq<OutputData>) -> bool
    decreases s.len(),
{
    if s.len() == 0 {
        false
    } else {
        has_stdout(s.drop_last()) || s.last() is Stdout
    }
}

/// Whether a descriptor sequence enables a file sink.
pub open spec fn has_file(s: Seq<OutputData>) -> bool
    decreases s.len(),
{
    if s.len() == 0 {
        false
    } else {
        has_file(s.drop_last()) || s.last() is File
    }
}

/// Whether a descriptor sequence enables a remote sink.
pub open spec fn has_remote(s: Seq<OutputData>) -> bool
    decreases s.len(),
{
    if s.len() == 0 {
        false
    } else {
        has_remote(s.drop_last()) || s.last() is Remote
    }
}

/// Configures whether logs are emitted to a file, to stdout or to open
/// telemetry.
pub enum LogConfig {
    File(String),
    Stdout,
    OpenTelemetry,
}

/// The sink fan-out plan the initializer computes: the layers to build,
/// in order, the level filter directive, and which writer guards and
/// background tasks the construction yields. The buffered-sink guards
/// must be kept alive for the process's duration; the remote flush task
/// must be scheduled by the caller, or remote delivery silently stalls.
#[derive(Debug)]
pub struct SinkPlan {
    /// The enabled sinks, one layer each, in the given order.
    pub outputs: Vec<OutputType>,
    /// The level filter directive installed with the composed layers.
    pub filter: String,
    /// Whether a stdout writer guard is returned.
    pub stdout_guard: bool,
    /// Whether a file writer guard is returned.
    pub file_guard: bool,
    /// Whether a background remote-flush task is returned.
    pub remote_task: bool,
}

/// Computes the sink fan-out plan for the given minimum severity and
/// enabled outputs: one layer per descriptor in order, a guard per
/// buffered sink, a flush task for the remote sink, and the level's
/// filter directive.
#[verifier::loop_isolation(false)]
pub fn init(level_filter: &Level, output_types_enabled: Vec<OutputType>) -> (plan: SinkPlan)
    ensures
        outputs_view(plan.outputs@) == outputs_view(output_types_enabled@),
        plan.filter@ == level_filter.spec_value(),
        plan.stdout_guard == has_stdout(outputs_view(output_types_enabled@)),
        plan.file_guard == has_file(outputs_view(output_types_enabled@)),
        plan.remote_task == has_remote(outputs_view(output_types_enabled@)),
{
    let ghost view = outputs_view(output_types_enabled@);
    let mut stdout_guard = false;
    let mut file_guard = false;
    let mut remote_task = false;
    let n = output_types_enabled.len();
    proof {
        assert(view.take(0) =~= Seq::<OutputData>::empty());
    }
    let mut i: usize = 0;
    while i < n
        invariant
            i <= n,
            n == output_types_enabled@.len(),
            stdout_guard == has_stdout(view.take(i as int)),
            file_guard == has_file(view.take(i as int)),
            remote_task == has_remote(view.take(i as int)),
        decreases n - i,
    {
        match &output_types_enabled[i] {
            OutputType::Stdout => {
                stdout_guard = true;
            },
            OutputType::File { .. } => {
                file_guard = true;
            },
            OutputType::Remote { .. } => {
                remote_task = true;
            },
            OutputType::Wasm => {},
        }
        proof {
            assert(view.take(i + 1).drop_last() =~= view.take(i as int));
            assert(view.take(i + 1).last() == view[i as int]);
        }
        i += 1;
    }
    proof {
        assert(view.take(n as int) =~= view);
    }
    SinkPlan {
        outputs: output_types_enabled,
        filter: level_filter.value().to_owned(),
        stdout_guard,
        file_guard,
        remote_task,
    }
}

/// The filter directive actually installed: an environment-supplied
/// override takes precedence over the caller-supplied default level.
pub fn effective_filter(env_override: Option<String>, level_filter: &Level) -> (r: String)
    ensures
        r@ == match env_override {
            Some(s) => s@,
            None => level_filter.spec_value(),
        },
{
    match env_override {
        Some(s) => s,
        None => level_filter.value().to_owned(),
    }
}

/// The error of installing a global subscriber into a slot that already
/// holds one: the runtime's global subscriber slot is single-assignment,
/// so a second install is a programming error, fatal at the call site.
#[derive(Clone, Copy, Debug)]
pub struct AlreadyInstalled;

/// The process-wide global subscriber slot: write-once, read-many.
/// Installed exactly once at startup; no teardown exists, so an install
/// is permanent for the process.
pub struct SubscriberSlot {
    installed: bool,
}

impl SubscriberSlot {
    /// Whether a subscriber has been installed.
    pub closed spec fn is_installed(self) -> bool {
        self.installed
    }

    /// An empty slot, as at process start.
    pub fn new() -> (r: SubscriberSlot)
        ensures
            !r.is_installed(),
    {
        SubscriberSlot { installed: false }
    }

    /// Claims the slot. Succeeds exactly once; a second install fails
    /// and the first installation stays in place.
    pub fn install(&mut self) -> (r: Result<(), AlreadyInstalled>)
        ensures
            final(self).is_installed(),
            r is Ok <==> !old(self).is_installed(),
    {
        if self.installed {
            Err(AlreadyInstalled)
        } else {
            self.installed = true;
            Ok(())
        }
    }
}

} // verus!
