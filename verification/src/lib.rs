//! Verified core of a CSV-to-Parquet ingestion pipeline: the configuration
//! record and the rules that build it from the environment, the batching of
//! CSV lines into chunks that each repeat the header, the naming of the
//! objects that are written, and the metadata message that announces each
//! written file.

pub mod batch;
pub mod config;
pub mod file_metadata;
pub mod formats;
pub mod records;
pub mod schema;
pub mod text;
pub mod upload;

pub use batch::{BatchStep, CsvBatcher};
pub use config::{Config, ConfigError};
pub use file_metadata::FileMetadata;
pub use formats::{Compression, FileFormat};
pub use schema::User;
