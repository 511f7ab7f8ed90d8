//! Naming and describing the files that the pipeline writes: each Parquet
//! file is stored under `<table>/data/<uuid>.parquet` and announced with its
//! `s3://` location, size and record count.
use vstd::prelude::*;
use vstd::string::*;
use crate::config::Config;
use crate::file_metadata::FileMetadata;

verus! {

/// Whether a character is a lower-case hexadecimal digit.
pub open spec fn is_lower_hex(c: char) -> bool {
    ('0' <= c <= '9') || ('a' <= c <= 'f')
}

/// Whether a text is a random (version 4) UUID in the hyphenated lower-case
/// form `xxxxxxxx-xxxx-4xxx-yxxx-xxxxxxxxxxxx`, where `y` is one of `8`, `9`,
/// `a` and `b`.
pub open spec fn is_uuid_v4_text(s: Seq<char>) -> bool {
    &&& s.len() == 36
    &&& forall|i: int|
        0 <= i < 36 ==> if i == 8 || i == 13 || i == 18 || i == 23 {
            #[trigger] s[i] == '-'
        } else {
            is_lower_hex(s[i])
        }
    &&& s[14] == '4'
    &&& (s[19] == '8' || s[19] == '9' || s[19] == 'a' || s[19] == 'b')
}

/// A fresh random UUID, as text, from `uuid::Uuid::new_v4` and its
/// `Display` form.
///
/// Trusted: the contract claims only the shape of the text, as the uuid
/// crate's source shows it (hyphenated lower-case hex, version nibble `4`,
/// RFC 4122 variant). Which UUID comes back is left open: it is random.
#[verifier::external_body]
fn random_uuid_text() -> (id: String)
    ensures
        is_uuid_v4_text(id@),
{
    uuid::Uuid::new_v4().to_string()
}

/// The storage key of a Parquet file with identifier `id` for `table`.
pub open spec fn object_key_of(table: Seq<char>, id: Seq<char>) -> Seq<char> {
    table + "/data/"@ + id + ".parquet"@
}

/// The `s3://` location of `key` in `bucket`.
pub open spec fn s3_uri_of(bucket: Seq<char>, key: Seq<char>) -> Seq<char> {
    "s3://"@ + bucket + "/"@ + key
}

/// The key of table `t` and identifier `id` is `t`, then the six characters
/// `/data/`, then `id`, then the eight characters `.parquet`, whatever the
/// lengths of `t` and `id`.
pub proof fn lemma_object_key_layout(t: Seq<char>, id: Seq<char>)
    ensures
        object_key_of(t, id).len() == t.len() as int + 6 + id.len() as int + 8,
        object_key_of(t, id).subrange(0, t.len() as int) == t,
        object_key_of(t, id).subrange(t.len() as int, t.len() as int + 6) == seq!['/', 'd', 'a', 't', 'a', '/'],
        object_key_of(t, id).subrange(t.len() as int + 6, t.len() as int + 6 + id.len() as int) == id,
        object_key_of(t, id).subrange(t.len() as int + 6 + id.len() as int, t.len() as int + 6 + id.len() as int + 8) == seq![
            '.',
            'p',
            'a',
            'r',
            'q',
            'u',
            'e',
            't',
        ],
{
    reveal_strlit("/data/");
    reveal_strlit(".parquet");
    let k = object_key_of(t, id);
    let a = t.len() as int;
    let b = a + 6 + id.len() as int;
    assert(k.subrange(0, a) =~= t);
    assert(k.subrange(a, a + 6) =~= seq!['/', 'd', 'a', 't', 'a', '/']);
    assert(k.subrange(a + 6, b) =~= id);
    assert(k.subrange(b, b + 8) =~= seq!['.', 'p', 'a', 'r', 'q', 'u', 'e', 't']);
}

/// The location of `key` in bucket `b` is the five characters `s3://`, then
/// `b`, then one `/`, then `key`, whatever the lengths of `b` and `key`.
pub proof fn lemma_s3_uri_layout(b: Seq<char>, key: Seq<char>)
    ensures
        s3_uri_of(b, key).len() == 5 + b.len() as int + 1 + key.len() as int,
        s3_uri_of(b, key).subrange(0, 5) == seq!['s', '3', ':', '/', '/'],
        s3_uri_of(b, key).subrange(5, 5 + b.len() as int) == b,
        s3_uri_of(b, key)[5 + b.len() as int] == '/',
        s3_uri_of(b, key).subrange(6 + b.len() as int, 6 + b.len() as int + key.len() as int) == key,
{
    reveal_strlit("s3://");
    reveal_strlit("/");
    let u = s3_uri_of(b, key);
    let n = b.len() as int;
    assert(u.subrange(0, 5) =~= seq!['s', '3', ':', '/', '/']);
    assert(u.subrange(5, 5 + n) =~= b);
    assert(u.subrange(6 + n, 6 + n + key.len() as int) =~= key);
}

/// The storage key `<table>/data/<id>.parquet`.
pub fn object_key(table: &str, id: &str) -> (key: String)
    ensures
        key@ == object_key_of(table@, id@),
        key@.subrange(0, table@.len() as int) == table@,
        key@.subrange(table@.len() as int, table@.len() as int + 6) == seq![
            '/',
            'd',
            'a',
            't',
            'a',
            '/',
        ],
        key@.subrange(table@.len() as int + 6, table@.len() as int + 6 + id@.len() as int) == id@,
        key@.len() == table@.len() + 6 + id@.len() + 8,
{
    proof {
        lemma_object_key_layout(table@, id@);
    }
    let mut key = table.to_owned();
    key.append("/data/");
    key.append(id);
    key.append(".parquet");
    key
}

/// A fresh storage key for a Parquet file of `table`, named by a random
/// UUID.
pub fn new_object_key(table: &str) -> (key: String)
    ensures
        exists|id: Seq<char>| #[trigger] is_uuid_v4_text(id) && key@ == object_key_of(table@, id),
{
    let id = random_uuid_text();
    let key = object_key(table, id.as_str());
    assert(is_uuid_v4_text(id@) && key@ == object_key_of(table@, id@));
    key
}

/// The location `s3://<bucket>/<key>`.
pub fn s3_uri(bucket: &str, key: &str) -> (uri: String)
    ensures
        uri@ == s3_uri_of(bucket@, key@),
        uri@.subrange(5, 5 + bucket@.len() as int) == bucket@,
        uri@[5 + bucket@.len() as int] == '/',
        uri@.subrange(6 + bucket@.len() as int, 6 + bucket@.len() as int + key@.len() as int)
            == key@,
{
    proof {
        lemma_s3_uri_layout(bucket@, key@);
    }
    let mut uri = "s3://".to_owned();
    uri.append(bucket);
    uri.append("/");
    uri.append(key);
    uri
}

/// The number of records in a batch of `len` records, as the signed count
/// that the metadata carries.
pub fn record_count(len: usize) -> (count: i64)
    requires
        len <= i64::MAX,
    ensures
        count == len,
{
    len as i64
}

/// The metadata that announces the file stored under `key` in the
/// configured bucket: the configured table, the file's `s3://` location, its
/// size and its record count.
pub fn upload_metadata(config: &Config, key: &str, size: i64, count: i64) -> (m: FileMetadata)
    ensures
        m.table@ == config.table@,
        m.uri@ == s3_uri_of(config.bucket@, key@),
        m.size == size,
        m.count == count,
{
    let uri = s3_uri(config.bucket.as_str(), key);
    FileMetadata::new()
        .with_table(config.table.as_str())
        .with_uri(uri.as_str())
        .with_size(size)
        .with_count(count)
}

} // verus!
