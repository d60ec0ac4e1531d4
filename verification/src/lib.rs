//! A span-aware structured observability pipeline: a tracing layer that
//! captures per-span field context and renders one self-contained JSON
//! document per event, a sink fan-out planner for the logger, and a metrics
//! registry of counters, gauges and histograms with a text exposition format.

pub mod assoc;
pub mod backend;
pub mod backend_settings;
pub mod collector;
pub mod connections;
pub mod fields;
pub mod frontend_settings;
pub mod json;
pub mod layer;
pub mod logger;
pub mod metrics;
pub mod settings;
pub mod text;
