//! The parts of a test: the request to send, the response to expect and
//! the values to take from it, and the server to send it to.
use vstd::prelude::*;
use vstd::string::StringExecFns;
use crate::text::{push_i64, int_text};
use crate::libtest::document::{TomlValue, TestFileError, toml_get, str_at};
use crate::libtest::stringmap::StringMap;

verus! {

/// A value to take from a response: its name, and where it stands in the
/// response's JSON (keys joined by `/`).
pub struct SetValue {
    pub name: String,
    pub json_path: String,
}

/// A value to take, as plain values.
pub struct SetValueView {
    pub name: Seq<char>,
    pub json_path: Seq<char>,
}

impl View for SetValue {
    type V = SetValueView;

    open spec fn view(&self) -> SetValueView {
        SetValueView { name: self.name@, json_path: self.json_path@ }
    }
}

/// The views of a list of values to take.
pub open spec fn set_value_views(v: Seq<SetValue>) -> Seq<SetValueView> {
    v.map_values(|s: SetValue| s@)
}

/// A value to take, as a table gives it.
pub open spec fn set_value_spec(v: TomlValue) -> Result<SetValueView, TestFileError> {
    match str_at(v, "name"@, TestFileError::NoName, TestFileError::NameNotStr) {
        Err(e) => Err(e),
        Ok(name) => match str_at(v, "path"@, TestFileError::NoPath, TestFileError::PathNotStr) {
            Err(e) => Err(e),
            Ok(json_path) => Ok(SetValueView { name, json_path }),
        },
    }
}

/// The values to take, one per table, or the first table's failure.
pub open spec fn set_values_spec(a: Seq<TomlValue>) -> Result<Seq<SetValueView>, TestFileError>
    decreases a.len(),
{
    if a.len() == 0 {
        Ok(Seq::empty())
    } else {
        match set_values_spec(a.drop_last()) {
            Err(e) => Err(e),
            Ok(prefix) => match set_value_spec(a.last()) {
                Err(e) => Err(e),
                Ok(sv) => Ok(prefix.push(sv)),
            },
        }
    }
}

impl SetValue {
    /// The values to take, one per table; every table has a string `name`
    /// and `path` (see [`SetValue::read`] for tables that may not).
    pub fn from_value(value: &Vec<TomlValue>) -> (res: Vec<SetValue>)
        requires
            set_values_spec(value@) is Ok,
        ensures
            set_values_spec(value@) == Ok::<Seq<SetValueView>, TestFileError>(set_value_views(res@)),
    {
        Self::read(value).unwrap()
    }

    /// The values to take, one per table, or what is wrong with the tables.
    ///
    /// # Errors
    /// The first table without a string `name` or `path`.
    pub fn read(value: &Vec<TomlValue>) -> (res: Result<Vec<SetValue>, TestFileError>)
        ensures
            res matches Ok(v) ==> set_values_spec(value@) == Ok::<Seq<SetValueView>, TestFileError>(set_value_views(v@)),
            res matches Err(e) ==> set_values_spec(value@) == Err::<Seq<SetValueView>, TestFileError>(e),
    {
        let name_key = String::from_str("name");
        let path_key = String::from_str("path");
        let mut out: Vec<SetValue> = Vec::new();
        let mut i: usize = 0;
        assert(value@.take(0) =~= Seq::<TomlValue>::empty());
        assert(set_value_views(out@) =~= Seq::<SetValueView>::empty());
        while i < value.len()
            invariant
                i <= value@.len(),
                out@.len() == i,
                name_key@ == "name"@,
                path_key@ == "path"@,
                set_values_spec(value@.take(i as int)) == Ok::<Seq<SetValueView>, TestFileError>(set_value_views(out@)),
            decreases value@.len() - i,
        {
            proof {
                assert(value@.take(i + 1).drop_last() =~= value@.take(i as int));
                assert(value@.take(i + 1).last() == value@[i as int]);
            }
            let item = &value[i];
            let name = match item.str_at(&name_key, TestFileError::NoName, TestFileError::NameNotStr) {
                Ok(s) => s,
                Err(e) => {
                    proof { lemma_set_values_error_stays(value@, (i + 1) as nat, e); }
                    return Err(e);
                },
            };
            let json_path = match item.str_at(&path_key, TestFileError::NoPath, TestFileError::PathNotStr) {
                Ok(s) => s,
                Err(e) => {
                    proof { lemma_set_values_error_stays(value@, (i + 1) as nat, e); }
                    return Err(e);
                },
            };
            let ghost before = out@;
            out.push(SetValue { name, json_path });
            assert(set_value_views(out@) =~= set_value_views(before).push(out@[i as int]@));
            i = i + 1;
        }
        assert(value@.take(value@.len() as int) =~= value@);
        Ok(out)
    }
}

/// Once a prefix of the tables fails, the whole list fails the same way.
proof fn lemma_set_values_error_stays(a: Seq<TomlValue>, n: nat, e: TestFileError)
    requires
        n <= a.len(),
        set_values_spec(a.take(n as int)) == Err::<Seq<SetValueView>, TestFileError>(e),
    ensures
        set_values_spec(a) == Err::<Seq<SetValueView>, TestFileError>(e),
    decreases a.len() - n,
{
    if n < a.len() {
        assert(a.take((n + 1) as int).drop_last() =~= a.take(n as int));
        lemma_set_values_error_stays(a, n + 1, e);
    } else {
        assert(a.take(n as int) =~= a);
    }
}

/// The response a test expects: its status code, the start of its body,
/// and the values to take from it.
pub struct Response {
    pub statuscode: u16,
    pub body: String,
    pub set_values: Option<Vec<SetValue>>,
}

/// An expected response, as plain values.
pub struct ResponseView {
    pub statuscode: u16,
    pub body: Seq<char>,
    pub set_values: Option<Seq<SetValueView>>,
}

impl View for Response {
    type V = ResponseView;

    open spec fn view(&self) -> ResponseView {
        ResponseView {
            statuscode: self.statuscode,
            body: self.body@,
            set_values: match self.set_values {
                Some(v) => Some(set_value_views(v@)),
                None => None,
            },
        }
    }
}

/// The values to take from a response table: none without a `set_value`
/// entry, and a failure when that entry is no array or one of its tables is wrong.
pub open spec fn response_set_values(v: TomlValue) -> Result<Option<Seq<SetValueView>>, TestFileError> {
    match toml_get(v, "set_value"@) {
        None => Ok(None),
        Some(TomlValue::Array(a)) => match set_values_spec(a@) {
            Ok(s) => Ok(Some(s)),
            Err(e) => Err(e),
        },
        Some(_) => Err(TestFileError::SetValueNotArray),
    }
}

/// The status code of a response table: 200 without a `statuscode`
/// entry, else that integer cut to 16 bits.
pub open spec fn response_status(v: TomlValue) -> Result<u16, TestFileError> {
    match toml_get(v, "statuscode"@) {
        None => Ok(200u16),
        Some(TomlValue::Integer(i)) => Ok(i as u16),
        Some(_) => Err(TestFileError::StatusCodeNotInteger),
    }
}

/// An expected response, as its table gives it.
pub open spec fn response_spec(v: TomlValue) -> Result<ResponseView, TestFileError> {
    match response_set_values(v) {
        Err(e) => Err(e),
        Ok(set_values) => match str_at(v, "body"@, TestFileError::NoResponseBody, TestFileError::ResponseBodyNotStr) {
            Err(e) => Err(e),
            Ok(body) => match response_status(v) {
                Err(e) => Err(e),
                Ok(statuscode) => Ok(ResponseView { statuscode, body, set_values }),
            },
        },
    }
}

impl Response {
    /// The expected response that a well-formed table describes (see
    /// [`Response::read`] for a table that may not be).
    pub fn from_value(value: &TomlValue) -> (res: Response)
        requires
            response_spec(*value) is Ok,
        ensures
            response_spec(*value) == Ok::<ResponseView, TestFileError>(res@),
    {
        Self::read(value).unwrap()
    }

    /// The expected response that a table describes, or what is wrong with it.
    ///
    /// # Errors
    /// A `set_value` entry that is no array or holds a wrong table, a missing
    /// or non-string `body`, or a `statuscode` that is no integer.
    pub fn read(value: &TomlValue) -> (res: Result<Response, TestFileError>)
        ensures
            res matches Ok(r) ==> response_spec(*value) == Ok::<ResponseView, TestFileError>(r@),
            res matches Err(e) ==> response_spec(*value) == Err::<ResponseView, TestFileError>(e),
    {
        let set_values = match value.get(&String::from_str("set_value")) {
            None => None,
            Some(TomlValue::Array(a)) => match SetValue::read(a) {
                Ok(v) => Some(v),
                Err(e) => return Err(e),
            },
            Some(_) => return Err(TestFileError::SetValueNotArray),
        };
        let body = match value.str_at(&String::from_str("body"), TestFileError::NoResponseBody, TestFileError::ResponseBodyNotStr) {
            Ok(b) => b,
            Err(e) => return Err(e),
        };
        let statuscode: u16 = match value.get(&String::from_str("statuscode")) {
            None => 200,
            Some(TomlValue::Integer(i)) => #[verifier::truncate] (*i as u16),
            Some(_) => return Err(TestFileError::StatusCodeNotInteger),
        };
        Ok(Response { statuscode, body, set_values })
    }
}

/// The string items of an array, in order.
pub open spec fn strings_of(a: Seq<TomlValue>) -> Seq<Seq<char>>
    decreases a.len(),
{
    if a.len() == 0 {
        Seq::empty()
    } else {
        match a.last() {
            TomlValue::Str(s) => strings_of(a.drop_last()).push(s@),
            _ => strings_of(a.drop_last()),
        }
    }
}

/// The headers made of the first `n` pairs of strings: the 1st string names
/// a header and the 2nd gives its value, the 3rd and the 4th the next one,
/// and so on; a later pair wins over an earlier one with the same name.
pub open spec fn pairs_map(strs: Seq<Seq<char>>, n: nat) -> Map<Seq<char>, Seq<char>>
    decreases n,
{
    if n == 0 {
        Map::empty()
    } else {
        let k = 2 * (n - 1);
        pairs_map(strs, (n - 1) as nat).insert(strs[k], strs[k + 1])
    }
}

/// The headers of a request table: none unless its `headers` entry is an
/// array; then one header per pair of its strings (a lone last string is left out).
pub open spec fn headers_spec(v: TomlValue) -> Option<Map<Seq<char>, Seq<char>>> {
    match toml_get(v, "headers"@) {
        Some(TomlValue::Array(a)) => Some(pairs_map(strings_of(a@), strings_of(a@).len() / 2)),
        _ => None,
    }
}

/// A request's headers: one value per name.
pub struct Headers(pub StringMap);

impl View for Headers {
    type V = Map<Seq<char>, Seq<char>>;

    open spec fn view(&self) -> Map<Seq<char>, Seq<char>> {
        self.0@
    }
}

impl Headers {
    /// The headers that a request table lists.
    pub fn from_value(value: &TomlValue) -> (res: Option<Headers>)
        ensures
            res is Some <==> headers_spec(*value) is Some,
            res matches Some(h) ==> headers_spec(*value) == Some(h@),
    {
        match value.get(&String::from_str("headers")) {
            Some(TomlValue::Array(a)) => {
                let mut strs: Vec<String> = Vec::new();
                let mut i: usize = 0;
                while i < a.len()
                    invariant
                        i <= a@.len(),
                        strs@.map_values(|s: String| s@) == strings_of(a@.take(i as int)),
                    decreases a@.len() - i,
                {
                    proof {
                        assert(a@.take(i + 1).drop_last() =~= a@.take(i as int));
                        assert(a@.take(i + 1).last() == a@[i as int]);
                    }
                    let ghost before = strs@;
                    match &a[i] {
                        TomlValue::Str(s) => {
                            strs.push(s.clone());
                            assert(strs@.map_values(|s: String| s@) =~= before.map_values(|s: String| s@).push(s@));
                        },
                        _ => {},
                    }
                    i = i + 1;
                }
                assert(a@.take(a@.len() as int) =~= a@);
                let ghost all = strings_of(a@);
                let mut map = StringMap::new();
                let pairs = strs.len() / 2;
                let mut k: usize = 0;
                while k < pairs
                    invariant
                        k <= pairs,
                        pairs == all.len() / 2,
                        strs@.map_values(|s: String| s@) == all,
                        map@ == pairs_map(all, k as nat),
                    decreases pairs - k,
                {
                    assert(strs@[2 * k as int]@ == all[2 * k as int]);
                    assert(strs@[2 * k + 1]@ == all[2 * k + 1]);
                    map.insert(strs[2 * k].clone(), strs[2 * k + 1].clone());
                    k = k + 1;
                }
                Some(Headers(map))
            },
            _ => None,
        }
    }
}

/// A request to send: its kind (`HTTP`), method, path, headers, body and
/// the response to expect.
pub struct Request {
    pub request_type: String,
    pub method: String,
    pub url: String,
    pub headers: Headers,
    pub body: String,
    pub expected_response: Response,
}

/// A request, as plain values.
pub struct RequestView {
    pub request_type: Seq<char>,
    pub method: Seq<char>,
    pub url: Seq<char>,
    pub headers: Map<Seq<char>, Seq<char>>,
    pub body: Seq<char>,
    pub expected_response: ResponseView,
}

impl View for Request {
    type V = RequestView;

    open spec fn view(&self) -> RequestView {
        RequestView {
            request_type: self.request_type@,
            method: self.method@,
            url: self.url@,
            headers: self.headers@,
            body: self.body@,
            expected_response: self.expected_response@,
        }
    }
}

/// A request, as its table gives it.
pub open spec fn request_spec(v: TomlValue) -> Result<RequestView, TestFileError> {
    match str_at(v, "type"@, TestFileError::NoType, TestFileError::TypeNotStr) {
        Err(e) => Err(e),
        Ok(request_type) => match str_at(v, "method"@, TestFileError::NoMethod, TestFileError::MethodNotStr) {
            Err(e) => Err(e),
            Ok(method) => match str_at(v, "url"@, TestFileError::NoUrl, TestFileError::UrlNotStr) {
                Err(e) => Err(e),
                Ok(url) => match headers_spec(v) {
                    None => Err(TestFileError::HeadersNotConvertible),
                    Some(headers) => match str_at(v, "body"@, TestFileError::NoBody, TestFileError::BodyNotStr) {
                        Err(e) => Err(e),
                        Ok(body) => match toml_get(v, "response"@) {
                            None => Err(TestFileError::NoResponse),
                            Some(r) => match response_spec(r) {
                                Err(e) => Err(e),
                                Ok(expected_response) => Ok(RequestView { request_type, method, url, headers, body, expected_response }),
                            },
                        },
                    },
                },
            },
        },
    }
}

/// The requests of a `req` array, one per table, or the first table's failure.
pub open spec fn requests_spec(a: Seq<TomlValue>) -> Result<Seq<RequestView>, TestFileError>
    decreases a.len(),
{
    if a.len() == 0 {
        Ok(Seq::empty())
    } else {
        match requests_spec(a.drop_last()) {
            Err(e) => Err(e),
            Ok(prefix) => match request_spec(a.last()) {
                Err(e) => Err(e),
                Ok(r) => Ok(prefix.push(r)),
            },
        }
    }
}

/// Once a prefix of the tables fails, the whole list fails the same way.
proof fn lemma_requests_error_stays(a: Seq<TomlValue>, n: nat, e: TestFileError)
    requires
        n <= a.len(),
        requests_spec(a.take(n as int)) == Err::<Seq<RequestView>, TestFileError>(e),
    ensures
        requests_spec(a) == Err::<Seq<RequestView>, TestFileError>(e),
    decreases a.len() - n,
{
    if n < a.len() {
        assert(a.take((n + 1) as int).drop_last() =~= a.take(n as int));
        lemma_requests_error_stays(a, n + 1, e);
    } else {
        assert(a.take(n as int) =~= a);
    }
}

impl Request {
    /// The request that one table of a `req` array describes. Every entry
    /// must be there with the right kind (see [`Request::read_unique_element`]
    /// for a table that may fall short).
    pub fn from_value_unique_element(value: &TomlValue) -> (res: Request)
        requires
            request_spec(*value) is Ok,
        ensures
            request_spec(*value) == Ok::<RequestView, TestFileError>(res@),
    {
        Self::read_unique_element(value).unwrap()
    }

    /// The request that one table of a `req` array describes, or what is
    /// wrong with the table.
    ///
    /// # Errors
    /// The first entry that is missing or of the wrong kind, in the order
    /// `type`, `method`, `url`, `headers`, `body`, `response`.
    pub fn read_unique_element(value: &TomlValue) -> (res: Result<Request, TestFileError>)
        ensures
            res matches Ok(r) ==> request_spec(*value) == Ok::<RequestView, TestFileError>(r@),
            res matches Err(e) ==> request_spec(*value) == Err::<RequestView, TestFileError>(e),
    {
        let request_type = match value.str_at(&String::from_str("type"), TestFileError::NoType, TestFileError::TypeNotStr) {
            Ok(s) => s,
            Err(e) => return Err(e),
        };
        let method = match value.str_at(&String::from_str("method"), TestFileError::NoMethod, TestFileError::MethodNotStr) {
            Ok(s) => s,
            Err(e) => return Err(e),
        };
        let url = match value.str_at(&String::from_str("url"), TestFileError::NoUrl, TestFileError::UrlNotStr) {
            Ok(s) => s,
            Err(e) => return Err(e),
        };
        let headers = match Headers::from_value(value) {
            Some(h) => h,
            None => return Err(TestFileError::HeadersNotConvertible),
        };
        let body = match value.str_at(&String::from_str("body"), TestFileError::NoBody, TestFileError::BodyNotStr) {
            Ok(s) => s,
            Err(e) => return Err(e),
        };
        let expected_response = match value.get(&String::from_str("response")) {
            None => return Err(TestFileError::NoResponse),
            Some(r) => match Response::read(r) {
                Ok(r) => r,
                Err(e) => return Err(e),
            },
        };
        Ok(Request { request_type, method, url, headers, body, expected_response })
    }

    /// The requests of a test: every table of its `req` array, which must be
    /// there and well-formed (see [`Request::read`] for one that may not be).
    pub fn from_value(value: &TomlValue) -> (res: Vec<Request>)
        requires
            toml_get(*value, "req"@) matches Some(TomlValue::Array(a)) && requests_spec(a@) is Ok,
        ensures
            toml_get(*value, "req"@) matches Some(TomlValue::Array(a))
                && requests_spec(a@) == Ok::<Seq<RequestView>, TestFileError>(res@.map_values(|r: Request| r@)),
    {
        Self::read(value).unwrap()
    }

    /// The requests of a test: every table of its `req` array is read.
    ///
    /// # Errors
    /// No `req` entry, one that is no array, or the first table that fails.
    pub fn read(value: &TomlValue) -> (res: Result<Vec<Request>, TestFileError>)
        ensures
            res matches Ok(v) ==> {
                &&& toml_get(*value, "req"@) matches Some(TomlValue::Array(a))
                &&& requests_spec(a@) == Ok::<Seq<RequestView>, TestFileError>(v@.map_values(|r: Request| r@))
            },
            res matches Err(e) ==> match toml_get(*value, "req"@) {
                None => e == TestFileError::NoReq,
                Some(TomlValue::Array(a)) => requests_spec(a@) == Err::<Seq<RequestView>, TestFileError>(e),
                Some(_) => e == TestFileError::ReqNotArray,
            },
    {
        let a = match value.get(&String::from_str("req")) {
            None => return Err(TestFileError::NoReq),
            Some(TomlValue::Array(a)) => a,
            Some(_) => return Err(TestFileError::ReqNotArray),
        };
        let mut out: Vec<Request> = Vec::new();
        let mut i: usize = 0;
        assert(a@.take(0) =~= Seq::<TomlValue>::empty());
        assert(out@.map_values(|r: Request| r@) =~= Seq::<RequestView>::empty());
        while i < a.len()
            invariant
                i <= a@.len(),
                out@.len() == i,
                toml_get(*value, "req"@) == Some(TomlValue::Array(*a)),
                requests_spec(a@.take(i as int)) == Ok::<Seq<RequestView>, TestFileError>(out@.map_values(|r: Request| r@)),
            decreases a@.len() - i,
        {
            proof {
                assert(a@.take(i + 1).drop_last() =~= a@.take(i as int));
                assert(a@.take(i + 1).last() == a@[i as int]);
            }
            match Request::read_unique_element(&a[i]) {
                Ok(r) => {
                    let ghost before = out@;
                    out.push(r);
                    assert(out@.map_values(|r: Request| r@) =~= before.map_values(|r: Request| r@).push(out@[i as int]@));
                },
                Err(e) => {
                    proof { lemma_requests_error_stays(a@, (i + 1) as nat, e); }
                    return Err(e);
                },
            }
            i = i + 1;
        }
        assert(a@.take(a@.len() as int) =~= a@);
        Ok(out)
    }
}

/// The server the tests are sent to.
pub struct Config {
    pub url: String,
    pub port: u32,
}

/// The server's address as plain values.
pub struct ConfigView {
    pub url: Seq<char>,
    pub port: u32,
}

impl View for Config {
    type V = ConfigView;

    open spec fn view(&self) -> ConfigView {
        ConfigView { url: self.url@, port: self.port }
    }
}

/// The base URL of the server: `http://`, the host, `:` and the port.
pub open spec fn config_text(c: ConfigView) -> Seq<char> {
    "http://"@ + c.url + ":"@ + int_text(c.port as int)
}

/// The server, as the `config` table of a test file gives it; the port is
/// that integer cut to 32 bits.
pub open spec fn config_spec(doc: TomlValue) -> Result<ConfigView, TestFileError> {
    match toml_get(doc, "config"@) {
        Some(TomlValue::Table(entries)) => {
            let c = TomlValue::Table(entries);
            match str_at(c, "url"@, TestFileError::NoUrlInConfig, TestFileError::UrlInConfigNotStr) {
                Err(e) => Err(e),
                Ok(url) => match toml_get(c, "port"@) {
                    None => Err(TestFileError::NoPortInConfig),
                    Some(TomlValue::Integer(i)) => Ok(ConfigView { url, port: i as u32 }),
                    Some(_) => Err(TestFileError::PortNotInteger),
                },
            }
        },
        _ => Err(TestFileError::NoConfig),
    }
}

impl Config {
    /// The server that a test file's `config` table names; the table must be
    /// there with a string `url` and an integer `port` (see [`Config::read`]
    /// for a file that may fall short).
    pub fn from_value(value: &TomlValue) -> (res: Config)
        requires
            config_spec(*value) is Ok,
        ensures
            config_spec(*value) == Ok::<ConfigView, TestFileError>(res@),
    {
        Self::read(value).unwrap()
    }

    /// The server that a test file's `config` table names, or what is wrong
    /// with the table.
    ///
    /// # Errors
    /// No `config` table, or one without a string `url` or an integer `port`.
    pub fn read(value: &TomlValue) -> (res: Result<Config, TestFileError>)
        ensures
            res matches Ok(c) ==> config_spec(*value) == Ok::<ConfigView, TestFileError>(c@),
            res matches Err(e) ==> config_spec(*value) == Err::<ConfigView, TestFileError>(e),
    {
        let c = match value.get(&String::from_str("config")) {
            Some(c) => c,
            None => return Err(TestFileError::NoConfig),
        };
        match c {
            TomlValue::Table(_) => {},
            _ => return Err(TestFileError::NoConfig),
        }
        let url = match c.str_at(&String::from_str("url"), TestFileError::NoUrlInConfig, TestFileError::UrlInConfigNotStr) {
            Ok(s) => s,
            Err(e) => return Err(e),
        };
        let port: u32 = match c.get(&String::from_str("port")) {
            None => return Err(TestFileError::NoPortInConfig),
            Some(TomlValue::Integer(i)) => #[verifier::truncate] (*i as u32),
            Some(_) => return Err(TestFileError::PortNotInteger),
        };
        Ok(Config { url, port })
    }

    /// The base URL of the server, `http://host:port`.
    pub fn to_text(&self) -> (res: String)
        ensures
            res@ == config_text(self@),
    {
        let mut s = String::from_str("http://");
        s.append(self.url.as_str());
        s.append(":");
        push_i64(&mut s, self.port as i64);
        s
    }
}

} // verus!
