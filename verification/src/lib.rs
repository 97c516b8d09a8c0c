//! Carbon-aware scheduling library: grid regions, confidence grading,
//! candidate windows, deadline parsing, and report rendering.

pub mod region;
pub mod text;
pub mod instant;
pub mod eia_error;
pub mod timefmt;
pub mod window;
pub mod cache;
pub mod egrid;
pub mod doctor;
pub mod decision;
pub mod scheduler;
pub mod forecast;
pub mod deadline;
pub mod confidence;
pub mod fuel;
pub mod resolve;
pub mod init;
pub mod refresh;
pub mod run_report;
pub mod explain;
pub mod preview;
pub mod summary;
pub mod status;
pub mod static_table;
pub mod program;
pub mod duration_arg;
pub mod reports;
pub mod profile;
pub mod fuel_mix;
pub mod forecast_text;
pub mod laws;

pub use region::Region;
