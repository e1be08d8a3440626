pub mod auto_relay;
pub mod cdn_adapter;
pub mod clock;
pub mod commands;
pub mod download_engine;
pub mod extraction;
pub mod keyed;
pub mod laws;
pub mod order;
pub mod page_scan;
pub mod params;
pub mod progress_line;
pub mod task_management;
pub mod text;
pub mod urls;
