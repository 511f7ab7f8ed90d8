use tiki_ingest::file_metadata::FileMetadata;

#[test]
fn new_metadata_is_empty() {
    let m = FileMetadata::new();
    assert_eq!(m.table, "");
    assert_eq!(m.uri, "");
    assert_eq!(m.size, 0);
    assert_eq!(m.count, 0);
}

#[test]
fn metadata_builders() {
    let m = FileMetadata::new()
        .with_table("t")
        .with_uri("s3://b/k")
        .with_size(-1)
        .with_count(i64::MAX);
    assert_eq!(m.table, "t");
    assert_eq!(m.uri, "s3://b/k");
    assert_eq!(m.size, -1);
    assert_eq!(m.count, i64::MAX);
    let m = m.with_table("u");
    assert_eq!(m.table, "u");
    assert_eq!(m.uri, "s3://b/k");
}
