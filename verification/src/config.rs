//! The pipeline's configuration and the rules that build it from the values
//! of its environment variables.
use vstd::prelude::*;
use crate::formats::{Compression, FileFormat};
use crate::text::text_equals;
use vstd::arithmetic::power::pow;

verus! {

/// Where the pipeline reads from and writes to, and how it reads.
#[derive(Debug, Clone)]
pub struct Config {
    pub bucket: String,
    pub table: String,
    pub compression: Compression,
    pub file_type: FileFormat,
    pub region: String,
    pub queue: String,
    pub max_rows: usize,
}

/// Why no configuration could be built from the environment.
#[derive(Debug, Clone, Copy, PartialEq, Eq, Structural)]
pub enum ConfigError {
    /// `TIKI_BUCKET` is not set.
    MissingBucket,
    /// `TIKI_TABLE` is not set.
    MissingTable,
    /// `TIKI_QUEUE` is not set.
    MissingQueue,
    /// `TIKI_FILE_TYPE` is not set.
    MissingFileType,
    /// `TIKI_FILE_TYPE` names a format other than `csv`.
    UnsupportedFileType,
}

impl ConfigError {
    /// The message with which the program stops on this error.
    pub fn message(&self) -> (m: &'static str)
        ensures
            m@ == message_of(*self),
    {
        match self {
            ConfigError::MissingBucket => "Please set TIKI_BUCKET",
            ConfigError::MissingTable => "Please set TIKI_TABLE",
            ConfigError::MissingQueue => "Please set TIKI_QUEUE",
            ConfigError::MissingFileType => "Please set TIKI_FILE_TYPE",
            ConfigError::UnsupportedFileType => "Unsupported TIKI_FILE_TYPE",
        }
    }
}

/// The message of each configuration error.
pub open spec fn message_of(e: ConfigError) -> Seq<char> {
    match e {
        ConfigError::MissingBucket => "Please set TIKI_BUCKET"@,
        ConfigError::MissingTable => "Please set TIKI_TABLE"@,
        ConfigError::MissingQueue => "Please set TIKI_QUEUE"@,
        ConfigError::MissingFileType => "Please set TIKI_FILE_TYPE"@,
        ConfigError::UnsupportedFileType => "Unsupported TIKI_FILE_TYPE"@,
    }
}

/// The region used when none is given.
pub open spec fn default_region() -> Seq<char> {
    "us-east-2"@
}

/// The row limit that the environment rules fall back to.
pub open spec fn env_default_max_rows() -> usize {
    100000
}

/// Whether a character is an ASCII decimal digit.
pub open spec fn is_digit(c: char) -> bool {
    '0' <= c <= '9'
}

/// Whether a character is whitespace in JSON: space, tab, newline or
/// carriage return.
pub open spec fn is_json_space(c: char) -> bool {
    c == ' ' || c == '\t' || c == '\n' || c == '\r'
}

/// Whether a text is a decimal numeral without sign, spaces or leading zeros.
pub open spec fn is_canonical_decimal(s: Seq<char>) -> bool {
    &&& s.len() >= 1
    &&& forall|i: int| 0 <= i < s.len() ==> is_digit(#[trigger] s[i])
    &&& (s[0] == '0' ==> s.len() == 1)
}

/// The value of a numeral made of decimal digits.
pub open spec fn decimal_value(s: Seq<char>) -> nat
    decreases s.len(),
{
    if s.len() == 0 {
        0
    } else {
        decimal_value(s.drop_last()) * 10 + ((s.last() as nat) - ('0' as nat)) as nat
    }
}

/// The text without its leading JSON whitespace.
pub open spec fn trim_json_start(s: Seq<char>) -> Seq<char>
    decreases s.len(),
{
    if s.len() > 0 && is_json_space(s[0]) {
        trim_json_start(s.drop_first())
    } else {
        s
    }
}

/// The text without its trailing JSON whitespace.
pub open spec fn trim_json_end(s: Seq<char>) -> Seq<char>
    decreases s.len(),
{
    if s.len() > 0 && is_json_space(s.last()) {
        trim_json_end(s.drop_last())
    } else {
        s
    }
}

/// What `serde_json::from_str::<usize>` reads from a text, `None` where it
/// reports an error: the text must be JSON whitespace, a decimal numeral
/// without sign, fraction, exponent or leading zeros whose value fits in a
/// `usize`, and JSON whitespace again.
pub open spec fn json_usize(text: Seq<char>) -> Option<usize> {
    let numeral = trim_json_end(trim_json_start(text));
    if is_canonical_decimal(numeral) && decimal_value(numeral) <= usize::MAX {
        Some(decimal_value(numeral) as usize)
    } else {
        None
    }
}

/// A set `TIKI_REGION` is used exactly as given, whatever its length; the
/// region `us-east-2` is used only when the variable is unset.
pub proof fn lemma_region_rule(v: String)
    ensures
        region_named(Some(v)) == v@,
        region_named(None) == seq!['u', 's', '-', 'e', 'a', 's', 't', '-', '2'],
{
    reveal_strlit("us-east-2");
    assert(default_region() =~= seq!['u', 's', '-', 'e', 'a', 's', 't', '-', '2']);
}

/// A set `TIKI_MAX_ROWS` that serde_json reads as `n` gives the limit `n`;
/// the limit 100000 is used only when the variable is unset or unreadable.
pub proof fn lemma_max_rows_rule(v: String)
    ensures
        json_usize(v@) matches Some(n) ==> max_rows_named(Some(v)) == n,
        json_usize(v@) is None ==> max_rows_named(Some(v)) == 100000,
        max_rows_named(None) == 100000,
{
}

/// A one-digit numeral is worth its digit.
pub proof fn lemma_decimal_digit(c: char)
    requires
        is_digit(c),
    ensures
        decimal_value(seq![c]) == (c as int) - ('0' as int),
{
    assert(seq![c].drop_last() =~= Seq::<char>::empty());
    assert(seq![c].last() == c);
    assert(decimal_value(Seq::<char>::empty()) == 0);
    assert((c as nat) >= ('0' as nat));
}

/// The value of a numeral written as `a` followed by `b` is the value of `a`
/// shifted by the number of digits of `b`, plus the value of `b`.
pub proof fn lemma_decimal_concat(a: Seq<char>, b: Seq<char>)
    ensures
        decimal_value(a + b) == decimal_value(a) * pow(10, b.len()) + decimal_value(b),
    decreases b.len(),
{
    if b.len() == 0 {
        assert(a + b =~= a);
        reveal(pow);
    } else {
        assert((a + b).drop_last() =~= a + b.drop_last());
        assert((a + b).last() == b.last());
        lemma_decimal_concat(a, b.drop_last());
        reveal(pow);
        let x: int = decimal_value(a) as int;
        let p: int = pow(10, (b.len() - 1) as nat);
        let y: int = decimal_value(b.drop_last()) as int;
        let d: int = ((b.last() as nat) - ('0' as nat)) as nat as int;
        assert(pow(10, b.len()) == 10 * p);
        assert((x * p + y) * 10 + d == x * (10 * p) + (y * 10 + d)) by (nonlinear_arith);
    }
}

/// Trimming leading whitespace stops at the first other character.
proof fn lemma_trim_start(pre: Seq<char>, rest: Seq<char>)
    requires
        forall|i: int| 0 <= i < pre.len() ==> is_json_space(#[trigger] pre[i]),
        rest.len() > 0,
        !is_json_space(rest[0]),
    ensures
        trim_json_start(pre + rest) == rest,
    decreases pre.len(),
{
    if pre.len() == 0 {
        assert(pre + rest =~= rest);
    } else {
        assert((pre + rest).drop_first() =~= pre.drop_first() + rest);
        lemma_trim_start(pre.drop_first(), rest);
    }
}

/// Trimming trailing whitespace stops at the last other character.
proof fn lemma_trim_end(rest: Seq<char>, post: Seq<char>)
    requires
        forall|i: int| 0 <= i < post.len() ==> is_json_space(#[trigger] post[i]),
        rest.len() > 0,
        !is_json_space(rest.last()),
    ensures
        trim_json_end(rest + post) == rest,
    decreases post.len(),
{
    if post.len() == 0 {
        assert(rest + post =~= rest);
    } else {
        assert((rest + post).drop_last() =~= rest + post.drop_last());
        lemma_trim_end(rest, post.drop_last());
    }
}

/// A plain decimal numeral, with any JSON whitespace around it, is read as
/// its value when that value fits in a `usize`.
pub proof fn lemma_json_numeral(pre: Seq<char>, numeral: Seq<char>, post: Seq<char>)
    requires
        forall|i: int| 0 <= i < pre.len() ==> is_json_space(#[trigger] pre[i]),
        forall|i: int| 0 <= i < post.len() ==> is_json_space(#[trigger] post[i]),
        is_canonical_decimal(numeral),
        decimal_value(numeral) <= usize::MAX,
    ensures
        json_usize(pre + numeral + post) == Some(decimal_value(numeral) as usize),
{
    assert(is_digit(numeral[0]));
    assert(is_digit(numeral[numeral.len() - 1]));
    lemma_trim_start(pre, numeral + post);
    assert(pre + numeral + post =~= pre + (numeral + post));
    lemma_trim_end(numeral, post);
}

/// Reads a `usize` from JSON text with `serde_json::from_str`.
///
/// Trusted: the contract claims the rule that serde_json's deserializer
/// follows for a `usize` (skip whitespace, parse an integer that may not
/// start with a redundant `0`, reject a sign, fraction or exponent and any
/// value above the target type, accept only whitespace after it), as its
/// source shows.
#[verifier::external_body]
fn parse_json_usize(text: &str) -> (r: Option<usize>)
    ensures
        r == json_usize(text@),
{
    serde_json::from_str::<usize>(text).ok()
}

/// The first problem with the environment values, checked in the order
/// bucket, table, queue, file type.
pub open spec fn env_problem(
    bucket: Option<String>,
    table: Option<String>,
    queue: Option<String>,
    file_type: Option<String>,
) -> Option<ConfigError> {
    if bucket is None {
        Some(ConfigError::MissingBucket)
    } else if table is None {
        Some(ConfigError::MissingTable)
    } else if queue is None {
        Some(ConfigError::MissingQueue)
    } else if file_type is None {
        Some(ConfigError::MissingFileType)
    } else if file_type->0@ != "csv"@ {
        Some(ConfigError::UnsupportedFileType)
    } else {
        None
    }
}

/// The compression named by `TIKI_COMPRESSION`: gzip only for `gzip`.
pub open spec fn compression_named(value: Option<String>) -> Compression {
    match value {
        Some(v) => if v@ == "gzip"@ {
            Compression::GZip
        } else {
            Compression::Uncompressed
        },
        None => Compression::Uncompressed,
    }
}

/// The row limit given by `TIKI_MAX_ROWS`, read as JSON, falling back to the
/// default where it is unset or unreadable.
pub open spec fn max_rows_named(value: Option<String>) -> usize {
    match value {
        Some(v) => match json_usize(v@) {
            Some(n) => n,
            None => env_default_max_rows(),
        },
        None => env_default_max_rows(),
    }
}

/// The region given by `TIKI_REGION`, or the default region.
pub open spec fn region_named(value: Option<String>) -> Seq<char> {
    match value {
        Some(v) => v@,
        None => default_region(),
    }
}

impl Config {
    /// The configuration with empty names, no compression, CSV input, the
    /// default region and a limit of 500000 rows.
    pub fn default() -> (c: Self)
        ensures
            c.bucket@ == Seq::<char>::empty(),
            c.table@ == Seq::<char>::empty(),
            c.compression == Compression::Uncompressed,
            c.file_type == FileFormat::CSV,
            c.region@ == default_region(),
            c.queue@ == Seq::<char>::empty(),
            c.max_rows == 500000,
    {
        Config {
            bucket: String::new(),
            table: String::new(),
            compression: Compression::Uncompressed,
            file_type: FileFormat::CSV,
            region: "us-east-2".to_owned(),
            queue: String::new(),
            max_rows: 500000,
        }
    }

    /// This configuration with another bucket.
    pub fn with_bucket(self, bucket: &str) -> (c: Self)
        ensures
            c.bucket@ == bucket@,
            c.table == self.table,
            c.compression == self.compression,
            c.file_type == self.file_type,
            c.region == self.region,
            c.queue == self.queue,
            c.max_rows == self.max_rows,
    {
        let mut c = self;
        c.bucket = bucket.to_owned();
        c
    }

    /// This configuration with another table.
    pub fn with_table(self, table: &str) -> (c: Self)
        ensures
            c.bucket == self.bucket,
            c.table@ == table@,
            c.compression == self.compression,
            c.file_type == self.file_type,
            c.region == self.region,
            c.queue == self.queue,
            c.max_rows == self.max_rows,
    {
        let mut c = self;
        c.table = table.to_owned();
        c
    }

    /// This configuration with another compression.
    pub fn with_compression(self, compression: Compression) -> (c: Self)
        ensures
            c.bucket == self.bucket,
            c.table == self.table,
            c.compression == compression,
            c.file_type == self.file_type,
            c.region == self.region,
            c.queue == self.queue,
            c.max_rows == self.max_rows,
    {
        let mut c = self;
        c.compression = compression;
        c
    }

    /// This configuration with another file format.
    pub fn with_file_type(self, file_type: FileFormat) -> (c: Self)
        ensures
            c.bucket == self.bucket,
            c.table == self.table,
            c.compression == self.compression,
            c.file_type == file_type,
            c.region == self.region,
            c.queue == self.queue,
            c.max_rows == self.max_rows,
    {
        let mut c = self;
        c.file_type = file_type;
        c
    }

    /// This configuration with another region.
    pub fn with_region(self, region: &str) -> (c: Self)
        ensures
            c.bucket == self.bucket,
            c.table == self.table,
            c.compression == self.compression,
            c.file_type == self.file_type,
            c.region@ == region@,
            c.queue == self.queue,
            c.max_rows == self.max_rows,
    {
        let mut c = self;
        c.region = region.to_owned();
        c
    }

    /// This configuration with another queue.
    pub fn with_queue(self, queue: &str) -> (c: Self)
        ensures
            c.bucket == self.bucket,
            c.table == self.table,
            c.compression == self.compression,
            c.file_type == self.file_type,
            c.region == self.region,
            c.queue@ == queue@,
            c.max_rows == self.max_rows,
    {
        let mut c = self;
        c.queue = queue.to_owned();
        c
    }

    /// This configuration with another row limit.
    pub fn with_max_rows(self, max_rows: usize) -> (c: Self)
        ensures
            c.bucket == self.bucket,
            c.table == self.table,
            c.compression == self.compression,
            c.file_type == self.file_type,
            c.region == self.region,
            c.queue == self.queue,
            c.max_rows == max_rows,
    {
        let mut c = self;
        c.max_rows = max_rows;
        c
    }

    /// Builds the configuration from the values of the variables
    /// `TIKI_BUCKET`, `TIKI_TABLE`, `TIKI_QUEUE`, `TIKI_FILE_TYPE`,
    /// `TIKI_COMPRESSION`, `TIKI_REGION` and `TIKI_MAX_ROWS` (`None` for an
    /// unset variable). The first four are required, and the file type must
    /// be `csv`.
    pub fn from_env_vars(
        bucket: Option<String>,
        table: Option<String>,
        queue: Option<String>,
        file_type: Option<String>,
        compression: Option<String>,
        region: Option<String>,
        max_rows: Option<String>,
    ) -> (r: Result<Config, ConfigError>)
        ensures
            match env_problem(bucket, table, queue, file_type) {
                Some(e) => r == Err::<Config, ConfigError>(e),
                None => r matches Ok(c) && {
                    &&& c.bucket == bucket->0
                    &&& c.table == table->0
                    &&& c.queue == queue->0
                    &&& c.file_type == FileFormat::CSV
                    &&& c.compression == compression_named(compression)
                    &&& c.region@ == region_named(region)
                    &&& c.max_rows == max_rows_named(max_rows)
                },
            },
            r matches Ok(c) ==> (region is Some ==> c.region@ == region->0@),
            r matches Ok(c) ==> (max_rows is Some && json_usize(max_rows->0@) is Some
                ==> c.max_rows == json_usize(max_rows->0@)->0),
            r matches Ok(c) ==> (max_rows is None ==> c.max_rows == 100000),
    {
        let bucket = match bucket {
            Some(b) => b,
            None => return Err(ConfigError::MissingBucket),
        };
        let table = match table {
            Some(t) => t,
            None => return Err(ConfigError::MissingTable),
        };
        let queue = match queue {
            Some(q) => q,
            None => return Err(ConfigError::MissingQueue),
        };
        let file_type = match file_type {
            Some(f) => if text_equals(f.as_str(), "csv") {
                FileFormat::CSV
            } else {
                return Err(ConfigError::UnsupportedFileType);
            },
            None => return Err(ConfigError::MissingFileType),
        };
        let compression = match compression {
            Some(c) => if text_equals(c.as_str(), "gzip") {
                Compression::GZip
            } else {
                Compression::Uncompressed
            },
            None => Compression::Uncompressed,
        };
        let region = match region {
            Some(r) => r,
            None => "us-east-2".to_owned(),
        };
        let max_rows: usize = match max_rows {
            Some(m) => match parse_json_usize(m.as_str()) {
                Some(n) => n,
                None => 100000,
            },
            None => 100000,
        };
        Ok(Config { bucket, table, compression, region, file_type, queue, max_rows })
    }
}

} // verus!
