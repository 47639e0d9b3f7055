//! The values of a test file, as TOML reads them, and the failures of
//! reading a test file.
use vstd::prelude::*;

verus! {

/// A value of the test file.
pub enum TomlValue {
    Str(String),
    Integer(i64),
    Array(Vec<TomlValue>),
    /// A table's entries, each key once.
    Table(Vec<(String, TomlValue)>),
    /// A float, a boolean or a date: nothing here reads those.
    Other,
}

/// Why a test file cannot be read.
#[derive(Clone, Copy, Debug, PartialEq, Eq, Structural)]
pub enum TestFileError {
    NoTests,
    NoConfig,
    NoUrlInConfig,
    UrlInConfigNotStr,
    NoPortInConfig,
    PortNotInteger,
    NoReq,
    ReqNotArray,
    EmptyReq,
    NoType,
    TypeNotStr,
    NoMethod,
    MethodNotStr,
    NoUrl,
    UrlNotStr,
    HeadersNotConvertible,
    NoBody,
    BodyNotStr,
    NoResponse,
    SetValueNotArray,
    NoResponseBody,
    ResponseBodyNotStr,
    StatusCodeNotInteger,
    NoName,
    NameNotStr,
    NoPath,
    PathNotStr,
}

/// The message a failure to read a test file is reported with.
pub open spec fn test_file_error_text(e: TestFileError) -> Seq<char> {
    match e {
        TestFileError::NoTests => "No tests table"@,
        TestFileError::NoConfig => "No config table"@,
        TestFileError::NoUrlInConfig => "No url in config table"@,
        TestFileError::UrlInConfigNotStr => "Url in config table isn't a str"@,
        TestFileError::NoPortInConfig => "No port in config table"@,
        TestFileError::PortNotInteger => "port in config table isn't a integer"@,
        TestFileError::NoReq => "No req in a test"@,
        TestFileError::ReqNotArray => "Req is not an array"@,
        TestFileError::EmptyReq => "No request in req"@,
        TestFileError::NoType => "No type request"@,
        TestFileError::TypeNotStr => "Type Request isn't a str"@,
        TestFileError::NoMethod => "Method isn't exists"@,
        TestFileError::MethodNotStr => "method isn't a string"@,
        TestFileError::NoUrl => "No url in the test"@,
        TestFileError::UrlNotStr => "Url isn't a str"@,
        TestFileError::HeadersNotConvertible => "Header cannot be convert"@,
        TestFileError::NoBody => "No body"@,
        TestFileError::BodyNotStr => "Body isn't a str"@,
        TestFileError::NoResponse => "No response to compare"@,
        TestFileError::SetValueNotArray => "set_value isn't an array"@,
        TestFileError::NoResponseBody => "No response body"@,
        TestFileError::ResponseBodyNotStr => "Response body isn't a str"@,
        TestFileError::StatusCodeNotInteger => "statuscode isn't an integer"@,
        TestFileError::NoName => "No name in a set_value"@,
        TestFileError::NameNotStr => "Name isn't a str in a set_value"@,
        TestFileError::NoPath => "No path in a set_value"@,
        TestFileError::PathNotStr => "Path isn't a str in a set_value"@,
    }
}

impl TestFileError {
    /// The message that the failure is reported with.
    pub fn message(&self) -> (res: &'static str)
        ensures
            res@ == test_file_error_text(*self),
    {
        match self {
            TestFileError::NoTests => "No tests table",
            TestFileError::NoConfig => "No config table",
            TestFileError::NoUrlInConfig => "No url in config table",
            TestFileError::UrlInConfigNotStr => "Url in config table isn't a str",
            TestFileError::NoPortInConfig => "No port in config table",
            TestFileError::PortNotInteger => "port in config table isn't a integer",
            TestFileError::NoReq => "No req in a test",
            TestFileError::ReqNotArray => "Req is not an array",
            TestFileError::EmptyReq => "No request in req",
            TestFileError::NoType => "No type request",
            TestFileError::TypeNotStr => "Type Request isn't a str",
            TestFileError::NoMethod => "Method isn't exists",
            TestFileError::MethodNotStr => "method isn't a string",
            TestFileError::NoUrl => "No url in the test",
            TestFileError::UrlNotStr => "Url isn't a str",
            TestFileError::HeadersNotConvertible => "Header cannot be convert",
            TestFileError::NoBody => "No body",
            TestFileError::BodyNotStr => "Body isn't a str",
            TestFileError::NoResponse => "No response to compare",
            TestFileError::SetValueNotArray => "set_value isn't an array",
            TestFileError::NoResponseBody => "No response body",
            TestFileError::ResponseBodyNotStr => "Response body isn't a str",
            TestFileError::StatusCodeNotInteger => "statuscode isn't an integer",
            TestFileError::NoName => "No name in a set_value",
            TestFileError::NameNotStr => "Name isn't a str in a set_value",
            TestFileError::NoPath => "No path in a set_value",
            TestFileError::PathNotStr => "Path isn't a str in a set_value",
        }
    }
}

/// The value of the first entry at or after position `i` whose key is `key`.
pub open spec fn entry_from(entries: Seq<(String, TomlValue)>, key: Seq<char>, i: nat) -> Option<TomlValue>
    decreases entries.len() - i,
{
    if i >= entries.len() {
        None
    } else if entries[i as int].0@ == key {
        Some(entries[i as int].1)
    } else {
        entry_from(entries, key, i + 1)
    }
}

/// The value at `key` of a table; nothing for any other value.
pub open spec fn toml_get(v: TomlValue, key: Seq<char>) -> Option<TomlValue> {
    match v {
        TomlValue::Table(entries) => entry_from(entries@, key, 0),
        _ => None,
    }
}

/// The string at `key`: `missing` when there is none, `not_str` when it is no string.
pub open spec fn str_at(v: TomlValue, key: Seq<char>, missing: TestFileError, not_str: TestFileError) -> Result<Seq<char>, TestFileError> {
    match toml_get(v, key) {
        None => Err(missing),
        Some(TomlValue::Str(s)) => Ok(s@),
        Some(_) => Err(not_str),
    }
}

impl TomlValue {
    /// The value at `key`, when this is a table that has one.
    pub fn get(&self, key: &String) -> (res: Option<&TomlValue>)
        ensures
            res is Some <==> toml_get(*self, key@) is Some,
            res matches Some(r) ==> toml_get(*self, key@) == Some(*r),
    {
        match self {
            TomlValue::Table(entries) => {
                let mut i: usize = 0;
                while i < entries.len()
                    invariant
                        i <= entries@.len(),
                        toml_get(*self, key@) == entry_from(entries@, key@, 0),
                        entry_from(entries@, key@, 0) == entry_from(entries@, key@, i as nat),
                    decreases entries@.len() - i,
                {
                    if entries[i].0 == *key {
                        assert(entry_from(entries@, key@, i as nat) == Some(entries@[i as int].1));
                        return Some(&entries[i].1);
                    }
                    i = i + 1;
                }
                None
            },
            _ => None,
        }
    }

    /// The string at `key`, or the failure to report.
    pub fn str_at(&self, key: &String, missing: TestFileError, not_str: TestFileError) -> (res: Result<String, TestFileError>)
        ensures
            res matches Ok(s) ==> str_at(*self, key@, missing, not_str) == Ok::<Seq<char>, TestFileError>(s@),
            res matches Err(e) ==> str_at(*self, key@, missing, not_str) == Err::<Seq<char>, TestFileError>(e),
    {
        match self.get(key) {
            None => Err(missing),
            Some(TomlValue::Str(s)) => Ok(s.clone()),
            Some(_) => Err(not_str),
        }
    }
}

/// The value that the `toml` crate reads from a text, as the library holds
/// it; `None` when the text is no TOML document.
pub uninterp spec fn toml_document(text: Seq<char>) -> Option<TomlValue>;

/// `toml::from_str::<toml::Value>`: the document a text holds, converted
/// variant by variant, or the parse error's message. Which document a text
/// holds is named, not spelled out.
#[verifier::external_body]
pub(crate) fn parse_toml(text: &str) -> (res: Result<TomlValue, String>)
    ensures
        res is Ok <==> toml_document(text@) is Some,
        res matches Ok(v) ==> toml_document(text@) == Some(v),
{
    match toml::from_str::<toml::Value>(text) {
        Ok(v) => Ok(toml_value_of(v)),
        Err(e) => Err(e.to_string()),
    }
}

/// A value as the `toml` crate reads it; only converted here.
#[verifier::external_type_specification]
#[verifier::external_body]
pub struct ExTomlValue(toml::Value);

/// The conversion of what [`parse_toml`] reads: each `toml::Value` variant
/// to the library's, one for one (floats, booleans and dates to `Other`).
#[verifier::external_body]
fn toml_value_of(v: toml::Value) -> TomlValue {
    match v {
        toml::Value::String(s) => TomlValue::Str(s),
        toml::Value::Integer(i) => TomlValue::Integer(i),
        toml::Value::Array(a) => TomlValue::Array(a.into_iter().map(toml_value_of).collect()),
        toml::Value::Table(t) => TomlValue::Table(t.into_iter().map(|(k, v)| (k, toml_value_of(v))).collect()),
        _ => TomlValue::Other,
    }
}

} // verus!
