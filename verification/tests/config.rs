use tiki_ingest::config::{Config, ConfigError};
use tiki_ingest::formats::{Compression, FileFormat};

fn some(s: &str) -> Option<String> {
    Some(s.to_string())
}

fn from_vars(max_rows: Option<String>) -> Config {
    Config::from_env_vars(
        some("bucket-a"),
        some("table-a"),
        some("queue-a"),
        some("csv"),
        None,
        None,
        max_rows,
    )
    .unwrap()
}

#[test]
fn default_config_values() {
    let c = Config::default();
    assert_eq!(c.bucket, "");
    assert_eq!(c.table, "");
    assert!(matches!(c.compression, Compression::Uncompressed));
    assert!(matches!(c.file_type, FileFormat::CSV));
    assert_eq!(c.region, "us-east-2");
    assert_eq!(c.queue, "");
    assert_eq!(c.max_rows, 500000);
}

#[test]
fn builders_set_one_field_each() {
    let c = Config::default()
        .with_bucket("my-bucket")
        .with_table("receipts")
        .with_compression(Compression::GZip)
        .with_file_type(FileFormat::CSV)
        .with_region("eu-west-1")
        .with_queue("https://sqs/queue.fifo")
        .with_max_rows(42);
    assert_eq!(c.bucket, "my-bucket");
    assert_eq!(c.table, "receipts");
    assert!(matches!(c.compression, Compression::GZip));
    assert!(matches!(c.file_type, FileFormat::CSV));
    assert_eq!(c.region, "eu-west-1");
    assert_eq!(c.queue, "https://sqs/queue.fifo");
    assert_eq!(c.max_rows, 42);

    let d = c.clone().with_bucket("other");
    assert_eq!(d.bucket, "other");
    assert_eq!(d.table, "receipts");
    assert_eq!(d.region, "eu-west-1");
    assert_eq!(d.max_rows, 42);
}

#[test]
fn env_vars_full_configuration() {
    let c = Config::from_env_vars(
        some("b"),
        some("t"),
        some("q"),
        some("csv"),
        some("gzip"),
        some("ap-south-1"),
        some("250"),
    )
    .unwrap();
    assert_eq!(c.bucket, "b");
    assert_eq!(c.table, "t");
    assert_eq!(c.queue, "q");
    assert!(matches!(c.file_type, FileFormat::CSV));
    assert!(matches!(c.compression, Compression::GZip));
    assert_eq!(c.region, "ap-south-1");
    assert_eq!(c.max_rows, 250);
}

#[test]
fn env_vars_defaults() {
    let c = from_vars(None);
    assert!(matches!(c.compression, Compression::Uncompressed));
    assert_eq!(c.region, "us-east-2");
    assert_eq!(c.max_rows, 100000);
}

#[test]
fn env_vars_compression_names() {
    for (name, gzip) in [("gzip", true), ("none", false), ("GZIP", false), ("zip", false), ("", false)] {
        let c = Config::from_env_vars(
            some("b"),
            some("t"),
            some("q"),
            some("csv"),
            some(name),
            None,
            None,
        )
        .unwrap();
        assert_eq!(matches!(c.compression, Compression::GZip), gzip, "{}", name);
    }
}

#[test]
fn env_vars_max_rows_as_json() {
    assert_eq!(from_vars(some("0")).max_rows, 0);
    assert_eq!(from_vars(some("7")).max_rows, 7);
    assert_eq!(from_vars(some(" 42\n")).max_rows, 42);
    assert_eq!(from_vars(some("abc")).max_rows, 100000);
    assert_eq!(from_vars(some("")).max_rows, 100000);
    assert_eq!(from_vars(some("   ")).max_rows, 100000);
    assert_eq!(from_vars(some("-5")).max_rows, 100000);
    assert_eq!(from_vars(some("1.5")).max_rows, 100000);
    assert_eq!(from_vars(some("007")).max_rows, 100000);
    assert_eq!(from_vars(some("99999999999999999999999")).max_rows, 100000);
}

#[test]
fn env_vars_missing_in_order() {
    let r = Config::from_env_vars(None, None, None, None, None, None, None);
    assert_eq!(r.unwrap_err(), ConfigError::MissingBucket);
    let r = Config::from_env_vars(some("b"), None, None, None, None, None, None);
    assert_eq!(r.unwrap_err(), ConfigError::MissingTable);
    let r = Config::from_env_vars(some("b"), some("t"), None, some("csv"), None, None, None);
    assert_eq!(r.unwrap_err(), ConfigError::MissingQueue);
    let r = Config::from_env_vars(some("b"), some("t"), some("q"), None, None, None, None);
    assert_eq!(r.unwrap_err(), ConfigError::MissingFileType);
    let r = Config::from_env_vars(some("b"), some("t"), some("q"), some("parquet"), None, None, None);
    assert_eq!(r.unwrap_err(), ConfigError::UnsupportedFileType);
    let r = Config::from_env_vars(some("b"), some("t"), some("q"), some("CSV"), None, None, None);
    assert_eq!(r.unwrap_err(), ConfigError::UnsupportedFileType);
}

#[test]
fn config_error_messages() {
    assert_eq!(ConfigError::MissingBucket.message(), "Please set TIKI_BUCKET");
    assert_eq!(ConfigError::MissingTable.message(), "Please set TIKI_TABLE");
    assert_eq!(ConfigError::MissingQueue.message(), "Please set TIKI_QUEUE");
    assert_eq!(ConfigError::MissingFileType.message(), "Please set TIKI_FILE_TYPE");
    assert_eq!(ConfigError::UnsupportedFileType.message(), "Unsupported TIKI_FILE_TYPE");
}

#[test]
fn env_vars_max_rows_whitespace_and_limits() {
    assert_eq!(from_vars(some("\t\r 12 \n")).max_rows, 12);
    assert_eq!(from_vars(some("1 2")).max_rows, 100000);
    assert_eq!(from_vars(some("+3")).max_rows, 100000);
    assert_eq!(from_vars(some("1e3")).max_rows, 100000);
    assert_eq!(from_vars(some("18446744073709551615")).max_rows as u64, u64::MAX);
    assert_eq!(from_vars(some("18446744073709551616")).max_rows, 100000);
}
