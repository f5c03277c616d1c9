//! Chart-data pipeline for a factory-floor dashboard: typed query parameters,
//! query templates, shift windows and the folding of result rows into chart series.

pub mod chart_data;
pub mod config;
pub mod env_vars;
pub mod influxdb;
pub mod ordered_map;
pub mod pattern;
pub mod shift;
pub mod substitution;
pub mod text;
pub mod timestamp;
pub mod toml_json;
pub mod ui_customization;
