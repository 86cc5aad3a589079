//! The calls this library makes into outside crates and std, each with the contract it is
//! trusted to meet.
use vstd::prelude::*;

use sha2::Digest;

use crate::json::JsonValue;

verus! {

#[verifier::external_type_specification]
#[verifier::external_body]
pub struct ExJsonValue(serde_json::Value);

#[verifier::external_type_specification]
#[verifier::external_body]
pub struct ExRegex(regex::Regex);

#[verifier::external_type_specification]
#[verifier::external_body]
pub struct ExRegexError(regex::Error);

#[verifier::external_type_specification]
#[verifier::external_body]
pub struct ExSystemTime(std::time::SystemTime);

#[verifier::external_type_specification]
#[verifier::external_body]
pub struct ExInstant(std::time::Instant);

/// `std::time::Instant::now()`, a reading of the monotonic clock. Nothing is stated of the
/// value: it is the time of the call.
#[verifier::external_body]
pub(crate) fn instant_now() -> std::time::Instant {
    std::time::Instant::now()
}

/// `std::time::Instant::elapsed()`, in whole milliseconds: the monotonic time since
/// `origin`. Nothing is stated of the value: it depends on when the call is made.
#[verifier::external_body]
pub(crate) fn millis_since(origin: &std::time::Instant) -> u128 {
    origin.elapsed().as_millis()
}

/// `std::time::SystemTime::now()`. Nothing is stated of the value: it is the wall-clock time
/// of the call.
#[verifier::external_body]
pub(crate) fn system_now() -> std::time::SystemTime {
    std::time::SystemTime::now()
}

/// `SystemTime::duration_since(UNIX_EPOCH)` for `t`, in whole milliseconds: `Ok` with how long
/// after the epoch `t` is, `Err` with how long before it. Nothing is stated of the value: `t`
/// is opaque here.
#[verifier::external_body]
pub(crate) fn millis_from_epoch(t: &std::time::SystemTime) -> Result<u128, u128> {
    match t.duration_since(std::time::UNIX_EPOCH) {
        Ok(d) => Ok(d.as_millis()),
        Err(e) => Err(e.duration().as_millis()),
    }
}

/// `chrono::Utc::now()`, as milliseconds since the UNIX epoch. Nothing is stated of the
/// value: it is the wall-clock time of the call.
#[verifier::external_body]
pub(crate) fn now_millis() -> i64 {
    chrono::Utc::now().timestamp_millis()
}

/// `uuid::Uuid::new_v4()`, formatted by its `Display` impl. Nothing is stated of the value:
/// it is random.
#[verifier::external_body]
pub(crate) fn new_uuid_string() -> String {
    uuid::Uuid::new_v4().to_string()
}

/// What `sha2::Sha256::digest` returns for a byte string.
pub uninterp spec fn sha256_digest(data: Seq<u8>) -> Seq<u8>;

/// `sha2::Sha256::digest`: the SHA-256 digest of `data`, 32 bytes long.
#[verifier::external_body]
pub(crate) fn sha256(data: &[u8]) -> (r: Vec<u8>)
    ensures
        r@ == sha256_digest(data@),
        r@.len() == 32,
{
    sha2::Sha256::digest(data).to_vec()
}

/// Converts the library's JSON value into `serde_json::Value`, member for member; a decimal
/// whose text `serde_json` does not read as a number becomes `null`.
#[verifier::external_body]
fn json_to_serde(v: &JsonValue) -> serde_json::Value {
    match v {
        JsonValue::Null => serde_json::Value::Null,
        JsonValue::Bool(b) => serde_json::Value::Bool(*b),
        JsonValue::Number(n) => serde_json::Value::from(*n),
        JsonValue::Decimal(text) => match text.parse::<serde_json::Number>() {
            Ok(n) => serde_json::Value::Number(n),
            Err(_) => serde_json::Value::Null,
        },
        JsonValue::String(s) => serde_json::Value::String(s.clone()),
        JsonValue::Array(items) => serde_json::Value::Array(items.iter().map(json_to_serde).collect()),
        JsonValue::Object(fields) => serde_json::Value::Object(
            fields.iter().map(|(k, x)| (k.clone(), json_to_serde(x))).collect(),
        ),
    }
}

/// What `serde_json::to_vec` writes for a JSON value.
pub uninterp spec fn json_encoding(v: JsonValue) -> Seq<u8>;

/// `serde_json::to_vec`: the compact JSON text of `v`. Serializing a JSON value cannot fail
/// (its object keys are strings).
#[verifier::external_body]
pub(crate) fn encode_json(v: &JsonValue) -> (r: Vec<u8>)
    ensures
        r@ == json_encoding(*v),
{
    serde_json::to_vec(&json_to_serde(v)).expect("JSON values serialize")
}

/// `String::push`: appends one character.
#[verifier::external_body]
pub(crate) fn push_char(s: &mut String, c: char)
    ensures
        final(s)@ == old(s)@.push(c),
{
    s.push(c)
}

/// Whether `regex::Regex::new` accepts a pattern.
pub uninterp spec fn regex_compiles(pattern: Seq<char>) -> bool;

/// Whether the regex compiled from `pattern` matches somewhere in `text`.
pub uninterp spec fn regex_matches(pattern: Seq<char>, text: Seq<char>) -> bool;

/// A regular expression together with the pattern it was compiled from. The only way to
/// build one is `compile`, so `regex` is always the compilation of `source`.
pub struct CompiledPattern {
    source: String,
    regex: regex::Regex,
}

impl CompiledPattern {
    /// The pattern this regex was compiled from.
    pub closed spec fn source(&self) -> Seq<char> {
        self.source@
    }

    /// `regex::Regex::new`: compiles a pattern; it succeeds exactly on the patterns it
    /// accepts, and keeps the pattern beside the compiled regex.
    #[verifier::external_body]
    pub fn compile(pattern: &String) -> (r: Result<CompiledPattern, regex::Error>)
        ensures
            r is Ok == regex_compiles(pattern@),
            r matches Ok(c) ==> c.source() == pattern@,
    {
        regex::Regex::new(pattern).map(|regex| CompiledPattern { source: pattern.clone(), regex })
    }

    /// `regex::Regex::is_match`: whether the compiled pattern matches somewhere in `text`.
    #[verifier::external_body]
    pub fn is_match(&self, text: &str) -> (r: bool)
        ensures
            r == regex_matches(self.source(), text@),
    {
        self.regex.is_match(text)
    }
}

} // verus!
