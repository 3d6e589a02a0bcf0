pub mod admission;
pub mod config;
pub mod embedding;
pub mod error;
pub mod graph;
pub mod model;
pub mod observability;
pub mod query;
pub mod text;
pub mod wire;
pub mod server;
pub mod settings;
pub mod keys;
pub mod store;
pub mod maintenance;
pub mod stats;
pub mod retention;
pub mod compaction;
pub mod portable;
pub mod scorer;
pub mod launch;
pub mod explain;
pub mod file_store;
pub mod evaluation;
pub mod recall;
pub mod signals;
