use tiki_ingest::config::Config;
use tiki_ingest::upload::{new_object_key, object_key, record_count, s3_uri, upload_metadata};

#[test]
fn object_key_layout() {
    assert_eq!(object_key("users", "abc"), "users/data/abc.parquet");
    assert_eq!(object_key("", ""), "/data/.parquet");
}

fn is_uuid_v4(s: &str) -> bool {
    let b: Vec<char> = s.chars().collect();
    if b.len() != 36 {
        return false;
    }
    for (i, c) in b.iter().enumerate() {
        let ok = if i == 8 || i == 13 || i == 18 || i == 23 {
            *c == '-'
        } else {
            c.is_ascii_digit() || ('a'..='f').contains(c)
        };
        if !ok {
            return false;
        }
    }
    b[14] == '4' && "89ab".contains(b[19])
}

#[test]
fn new_object_key_is_named_by_a_random_uuid() {
    let k1 = new_object_key("transactions");
    let k2 = new_object_key("transactions");
    assert!(k1.starts_with("transactions/data/"));
    assert!(k1.ends_with(".parquet"));
    let id = &k1["transactions/data/".len()..k1.len() - ".parquet".len()];
    assert!(is_uuid_v4(id), "{}", id);
    assert_ne!(k1, k2);
}

#[test]
fn s3_uri_layout() {
    assert_eq!(s3_uri("bkt", "t/data/x.parquet"), "s3://bkt/t/data/x.parquet");
}

#[test]
fn record_count_is_the_length() {
    assert_eq!(record_count(0), 0);
    assert_eq!(record_count(1234), 1234);
    assert_eq!(record_count(i64::MAX as usize), i64::MAX);
}

#[test]
fn metadata_for_an_upload() {
    let c = Config::default().with_bucket("bkt").with_table("users");
    let m = upload_metadata(&c, "users/data/id.parquet", 2048, 17);
    assert_eq!(m.table, "users");
    assert_eq!(m.uri, "s3://bkt/users/data/id.parquet");
    assert_eq!(m.size, 2048);
    assert_eq!(m.count, 17);
}
