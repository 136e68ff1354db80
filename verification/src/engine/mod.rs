pub mod chunk;
pub mod flags;
pub mod labels;
pub mod node;
pub mod graph;
pub mod ops;
pub mod laws;
pub mod report_laws;
pub mod fetching;
pub mod processing;
pub mod api;
pub mod attach;
pub mod dispatch;
pub mod reports;
pub mod explore;
pub mod requests;
pub mod query_params;
pub mod manager;
