//! One test: what to send, and what to make of the response.
use vstd::prelude::*;
use vstd::string::StringExecFns;
use crate::text::{str_chars, string_from_chars, to_upper_case, upper_case};
use crate::libtest::document::{TomlValue, TestFileError, toml_get};
use crate::libtest::json::{JsonValue, json_walk, json_document, parse_json};
use crate::libtest::stringmap::StringMap;
use crate::libtest::structures::{
    Config, ConfigView, Headers, Request, RequestView, ResponseView, SetValue, SetValueView,
    config_text, requests_spec, set_value_views,
};
use crate::libtest::textops::{split_on, split_chars, trim, trim_chars, occurs_at_chars};
use crate::libtest::urls::{url_with_values, url_replace_set_value_name_with_value};

verus! {

/// A test: its name and the request it sends.
pub struct Test {
    pub name: String,
    pub request: Request,
}

/// A test, as plain values.
pub struct TestView {
    pub name: Seq<char>,
    pub request: RequestView,
}

impl View for Test {
    type V = TestView;

    open spec fn view(&self) -> TestView {
        TestView { name: self.name@, request: self.request@ }
    }
}

/// A test, as its table gives it: the first request of its `req` array,
/// once every request of the array has been read.
pub open spec fn test_spec(name: Seq<char>, v: TomlValue) -> Result<TestView, TestFileError> {
    match toml_get(v, "req"@) {
        None => Err(TestFileError::NoReq),
        Some(TomlValue::Array(a)) => match requests_spec(a@) {
            Err(e) => Err(e),
            Ok(rs) => if rs.len() == 0 {
                Err(TestFileError::EmptyReq)
            } else {
                Ok(TestView { name, request: rs[0] })
            },
        },
        Some(_) => Err(TestFileError::ReqNotArray),
    }
}

/// The HTTP methods a test can use.
#[derive(Clone, Copy, Debug, PartialEq, Eq, Structural)]
pub enum HttpMethod {
    Get,
    Post,
    Delete,
    Put,
}

/// Why a test fails.
#[derive(Clone, Copy, Debug, PartialEq, Eq, Structural)]
pub enum RunFailure {
    /// The request's kind is not `HTTP`.
    UnknownType,
    /// The method is none of GET, POST, DELETE and PUT.
    NoMethod,
    /// The response has another status code than the one expected.
    StatusMismatch,
    /// The response body does not start with the expected text.
    BodyMismatch,
    /// Values are to be taken from a body that is no JSON.
    NotJson,
    /// A path of a value to take leads nowhere.
    PathNotFound,
    /// A path of a value to take leads to something else than a string.
    NotAString,
}

/// A request ready to send.
pub struct PreparedRequest {
    pub method: HttpMethod,
    pub url: String,
    pub headers: Headers,
    pub body: String,
}

/// A request ready to send, as plain values.
pub struct PreparedView {
    pub method: HttpMethod,
    pub url: Seq<char>,
    pub headers: Map<Seq<char>, Seq<char>>,
    pub body: Seq<char>,
}

impl View for PreparedRequest {
    type V = PreparedView;

    open spec fn view(&self) -> PreparedView {
        PreparedView { method: self.method, url: self.url@, headers: self.headers@, body: self.body@ }
    }
}

/// The method that an upper-case method name stands for.
pub open spec fn method_of(upper: Seq<char>) -> Option<HttpMethod> {
    if upper == "GET"@ {
        Some(HttpMethod::Get)
    } else if upper == "POST"@ {
        Some(HttpMethod::Post)
    } else if upper == "DELETE"@ {
        Some(HttpMethod::Delete)
    } else if upper == "PUT"@ {
        Some(HttpMethod::Put)
    } else {
        None
    }
}

/// The headers to send: each header whose value is the name of a known
/// value is sent with that value instead.
pub open spec fn header_values(h: Map<Seq<char>, Seq<char>>, values: Map<Seq<char>, Seq<char>>) -> Map<Seq<char>, Seq<char>> {
    Map::new(
        |k: Seq<char>| h.contains_key(k),
        |k: Seq<char>| if values.contains_key(h[k]) { values[h[k]] } else { h[k] },
    )
}

/// What a test sends, given the server and the values known so far.
pub open spec fn prepare_spec(t: TestView, c: ConfigView, values: Map<Seq<char>, Seq<char>>) -> Result<PreparedView, RunFailure> {
    if upper_case(t.request.request_type) != "HTTP"@ {
        Err(RunFailure::UnknownType)
    } else {
        match method_of(upper_case(t.request.method)) {
            None => Err(RunFailure::NoMethod),
            Some(method) => Ok(PreparedView {
                method,
                url: url_with_values(config_text(c) + t.request.url, values),
                headers: header_values(t.request.headers, values),
                body: t.request.body,
            }),
        }
    }
}

/// Whether `s` starts with `p`.
pub open spec fn starts_with(s: Seq<char>, p: Seq<char>) -> bool {
    p.len() <= s.len() && s.take(p.len() as int) == p
}

/// The value that one entry of `set_value` takes from the JSON: the string
/// that its path (keys joined by `/`) leads to, under its name.
pub open spec fn taken_value(json: JsonValue, sv: SetValueView) -> Result<(Seq<char>, Seq<char>), RunFailure> {
    match json_walk(json, split_on(sv.json_path, '/')) {
        None => Err(RunFailure::PathNotFound),
        Some(JsonValue::Str(s)) => Ok((sv.name, s@)),
        Some(_) => Err(RunFailure::NotAString),
    }
}

/// The values taken, in order, or the first failure.
pub open spec fn taken_values(json: JsonValue, svs: Seq<SetValueView>) -> Result<Seq<(Seq<char>, Seq<char>)>, RunFailure>
    decreases svs.len(),
{
    if svs.len() == 0 {
        Ok(Seq::empty())
    } else {
        match taken_values(json, svs.drop_last()) {
            Err(e) => Err(e),
            Ok(prefix) => match taken_value(json, svs.last()) {
                Err(e) => Err(e),
                Ok(p) => Ok(prefix.push(p)),
            },
        }
    }
}

/// What a test makes of a response: the status code must be the expected
/// one and the body must start with the expected text; then the values to
/// take are taken from the body's JSON (`json`, when the body is JSON).
pub open spec fn check_spec(expected: ResponseView, status: u16, body: Seq<char>, json: Option<JsonValue>) -> Result<Seq<(Seq<char>, Seq<char>)>, RunFailure> {
    if expected.statuscode != status {
        Err(RunFailure::StatusMismatch)
    } else if !starts_with(body, expected.body) {
        Err(RunFailure::BodyMismatch)
    } else {
        match expected.set_values {
            None => Ok(Seq::empty()),
            Some(svs) => match json {
                None => Err(RunFailure::NotJson),
                Some(j) => taken_values(j, svs),
            },
        }
    }
}

/// A response passes the body check only when its body begins with the
/// expected body: with the expected status, a body of which the expected
/// text is no prefix fails with `BodyMismatch`, whatever else it holds; a
/// response of another status fails with `StatusMismatch`; a response that
/// passes both checks, for a test that takes no values, gives no values.
pub proof fn lemma_check_compares_status_then_prefix(
    expected: ResponseView,
    status: u16,
    body: Seq<char>,
    json: Option<JsonValue>,
)
    ensures
        expected.statuscode != status ==> check_spec(expected, status, body, json)
            == Err::<Seq<(Seq<char>, Seq<char>)>, RunFailure>(RunFailure::StatusMismatch),
        expected.statuscode == status
            && !(expected.body.len() <= body.len() && body.take(expected.body.len() as int) == expected.body)
            ==> check_spec(expected, status, body, json)
                == Err::<Seq<(Seq<char>, Seq<char>)>, RunFailure>(RunFailure::BodyMismatch),
        expected.statuscode == status && expected.body.len() <= body.len()
            && body.take(expected.body.len() as int) == expected.body && expected.set_values is None
            ==> check_spec(expected, status, body, json) == Ok::<Seq<(Seq<char>, Seq<char>)>, RunFailure>(Seq::empty()),
        check_spec(expected, status, body, json) is Ok ==> expected.statuscode == status
            && expected.body.len() <= body.len() && body.take(expected.body.len() as int) == expected.body,
        expected.statuscode == status && expected.body.len() <= body.len()
            && body.take(expected.body.len() as int) == expected.body && expected.set_values is Some && json is None
            ==> check_spec(expected, status, body, json) == Err::<Seq<(Seq<char>, Seq<char>)>, RunFailure>(RunFailure::NotJson),
{
}

/// A passing response gives one value per entry of `set_value`, in order:
/// under the entry's name, the string that its `/`-separated path leads to
/// in the body's JSON.
pub proof fn lemma_check_takes_one_value_per_entry(
    expected: ResponseView,
    status: u16,
    body: Seq<char>,
    json: Option<JsonValue>,
)
    ensures
        check_spec(expected, status, body, json) matches Ok(v) ==> match expected.set_values {
            None => v.len() == 0,
            Some(svs) => json matches Some(j) && v.len() == svs.len() && forall|i: int| 0 <= i < v.len() ==> {
                &&& #[trigger] v[i].0 == svs[i].name
                &&& json_walk(j, split_on(svs[i].json_path, '/')) matches Some(JsonValue::Str(text)) && v[i].1 == text@
            },
        },
{
    if let Some(svs) = expected.set_values {
        if let Some(j) = json {
            lemma_taken_values_names(j, svs);
        }
    }
}

proof fn lemma_taken_values_names(json: JsonValue, svs: Seq<SetValueView>)
    ensures
        taken_values(json, svs) matches Ok(v) ==> v.len() == svs.len()
            && forall|i: int| 0 <= i < v.len() ==> {
                &&& #[trigger] v[i].0 == svs[i].name
                &&& json_walk(json, split_on(svs[i].json_path, '/')) matches Some(JsonValue::Str(text)) && v[i].1 == text@
            },
    decreases svs.len(),
{
    if svs.len() > 0 {
        lemma_taken_values_names(json, svs.drop_last());
        if let Ok(v) = taken_values(json, svs) {
            let prefix = taken_values(json, svs.drop_last())->Ok_0;
            assert(v == prefix.push(taken_value(json, svs.last())->Ok_0));
            assert forall|i: int| 0 <= i < v.len() implies {
                &&& #[trigger] v[i].0 == svs[i].name
                &&& json_walk(json, split_on(svs[i].json_path, '/')) matches Some(JsonValue::Str(text)) && v[i].1 == text@
            } by {
                if i < prefix.len() {
                    assert(v[i] == prefix[i]);
                    assert(svs.drop_last()[i] == svs[i]);
                }
            }
        }
    }
}

/// The texts of pairs of strings.
pub open spec fn pair_views(v: Seq<(String, String)>) -> Seq<(Seq<char>, Seq<char>)> {
    v.map_values(|p: (String, String)| (p.0@, p.1@))
}

/// The known values after recording a test's values: each name, trimmed,
/// is set to its value, in order.
pub open spec fn recorded(values: Map<Seq<char>, Seq<char>>, taken: Seq<(Seq<char>, Seq<char>)>) -> Map<Seq<char>, Seq<char>>
    decreases taken.len(),
{
    if taken.len() == 0 {
        values
    } else {
        recorded(values, taken.drop_last()).insert(trim(taken.last().0), taken.last().1)
    }
}

/// Once a prefix of the values fails, the whole list fails the same way.
proof fn lemma_taken_error_stays(json: JsonValue, svs: Seq<SetValueView>, n: nat, e: RunFailure)
    requires
        n <= svs.len(),
        taken_values(json, svs.take(n as int)) == Err::<Seq<(Seq<char>, Seq<char>)>, RunFailure>(e),
    ensures
        taken_values(json, svs) == Err::<Seq<(Seq<char>, Seq<char>)>, RunFailure>(e),
    decreases svs.len() - n,
{
    if n < svs.len() {
        assert(svs.take((n + 1) as int).drop_last() =~= svs.take(n as int));
        lemma_taken_error_stays(json, svs, n + 1, e);
    } else {
        assert(svs.take(n as int) =~= svs);
    }
}

/// The value that one entry of `set_value` takes from the JSON.
fn take_value(json: &JsonValue, sv: &SetValue) -> (res: Result<(String, String), RunFailure>)
    ensures
        res matches Ok(p) ==> taken_value(*json, sv@) == Ok::<(Seq<char>, Seq<char>), RunFailure>((p.0@, p.1@)),
        res matches Err(e) ==> taken_value(*json, sv@) == Err::<(Seq<char>, Seq<char>), RunFailure>(e),
{
    let path = str_chars(sv.json_path.as_str());
    let keys = split_chars(&path, '/');
    let ghost segs = split_on(sv.json_path@, '/');
    let mut cur: &JsonValue = json;
    let mut k: usize = 0;
    assert(segs.take(0) =~= Seq::<Seq<char>>::empty());
    while k < keys.len()
        invariant
            k <= keys@.len(),
            keys@.len() == segs.len(),
            segs == split_on(sv.json_path@, '/'),
            forall|j: int| 0 <= j < keys@.len() ==> #[trigger] keys@[j]@ == segs[j],
            json_walk(*json, segs.take(k as int)) == Some(*cur),
        decreases keys@.len() - k,
    {
        proof {
            assert(segs.take(k + 1).drop_last() =~= segs.take(k as int));
            assert(segs.take(k + 1).last() == segs[k as int]);
        }
        let key = string_from_chars(keys[k].as_slice());
        match cur.get(&key) {
            Some(next) => {
                cur = next;
            },
            None => {
                proof {
                    assert(key@ == segs[k as int]);
                    assert(json_walk(*json, segs.take(k + 1)) is None);
                    lemma_walk_none_stays(*json, segs, (k + 1) as nat);
                }
                return Err(RunFailure::PathNotFound);
            },
        }
        k = k + 1;
    }
    assert(segs.take(segs.len() as int) =~= segs);
    match cur {
        JsonValue::Str(s) => Ok((sv.name.clone(), s.clone())),
        _ => Err(RunFailure::NotAString),
    }
}

/// Once a walk leads nowhere, walking further leads nowhere too.
proof fn lemma_walk_none_stays(json: JsonValue, path: Seq<Seq<char>>, n: nat)
    requires
        n <= path.len(),
        json_walk(json, path.take(n as int)) is None,
    ensures
        json_walk(json, path) is None,
    decreases path.len() - n,
{
    if n < path.len() {
        assert(path.take((n + 1) as int).drop_last() =~= path.take(n as int));
        lemma_walk_none_stays(json, path, n + 1);
    } else {
        assert(path.take(n as int) =~= path);
    }
}

impl Test {
    /// The test that a well-formed table of the `tests` table describes,
    /// under its name (see [`Test::read`] for a table that may not be).
    pub fn from_value(name: String, value: &TomlValue) -> (res: Test)
        requires
            test_spec(name@, *value) is Ok,
        ensures
            test_spec(name@, *value) == Ok::<TestView, TestFileError>(res@),
    {
        Self::read(name, value).unwrap()
    }

    /// The test that a table of the `tests` table describes, under its name,
    /// or what is wrong with the table.
    ///
    /// # Errors
    /// No `req` array, an empty one, or a request that cannot be read.
    pub fn read(name: String, value: &TomlValue) -> (res: Result<Test, TestFileError>)
        ensures
            res matches Ok(t) ==> test_spec(name@, *value) == Ok::<TestView, TestFileError>(t@),
            res matches Err(e) ==> test_spec(name@, *value) == Err::<TestView, TestFileError>(e),
    {
        let mut requests = match Request::read(value) {
            Ok(r) => r,
            Err(e) => return Err(e),
        };
        if requests.len() == 0 {
            return Err(TestFileError::EmptyReq);
        }
        let ghost views = requests@.map_values(|r: Request| r@);
        assert(views[0] == requests@[0]@);
        let request = requests.remove(0);
        Ok(Test { name, request })
    }

    /// What to send for this test, given the server and the values that
    /// earlier tests took. The test's kind must be `HTTP` and its method one
    /// of GET, POST, DELETE and PUT, in upper case (the runner stops on any
    /// other test: see [`Test::try_prepare`]).
    pub fn prepare(&self, config: &Config, set_values: &StringMap) -> (res: PreparedRequest)
        requires
            prepare_spec(self@, config@, set_values@) is Ok,
        ensures
            prepare_spec(self@, config@, set_values@) == Ok::<PreparedView, RunFailure>(res@),
    {
        let mut base = config.to_text();
        base.append(self.request.url.as_str());
        let url = url_replace_set_value_name_with_value(base, set_values);
        let upper = to_upper_case(self.request.method.as_str());
        let method = if upper == String::from_str("GET") {
            HttpMethod::Get
        } else if upper == String::from_str("POST") {
            HttpMethod::Post
        } else if upper == String::from_str("DELETE") {
            HttpMethod::Delete
        } else {
            HttpMethod::Put
        };
        let headers = self.request.headers.to_headervalues(set_values);
        PreparedRequest { method, url, headers, body: self.request.body.clone() }
    }

    /// What to send for this test, or why it cannot be sent.
    ///
    /// # Errors
    /// `UnknownType` unless the request's kind is `HTTP` in upper case,
    /// `NoMethod` unless its method is GET, POST, DELETE or PUT in upper case.
    pub fn try_prepare(&self, config: &Config, set_values: &StringMap) -> (res: Result<PreparedRequest, RunFailure>)
        ensures
            res matches Ok(p) ==> prepare_spec(self@, config@, set_values@) == Ok::<PreparedView, RunFailure>(p@),
            res matches Err(e) ==> prepare_spec(self@, config@, set_values@) == Err::<PreparedView, RunFailure>(e),
    {
        let kind = to_upper_case(self.request.request_type.as_str());
        if kind != String::from_str("HTTP") {
            return Err(RunFailure::UnknownType);
        }
        let upper = to_upper_case(self.request.method.as_str());
        if upper != String::from_str("GET") && upper != String::from_str("POST")
            && upper != String::from_str("DELETE") && upper != String::from_str("PUT") {
            return Err(RunFailure::NoMethod);
        }
        Ok(self.prepare(config, set_values))
    }

    /// What this test takes from a response with status `status` and body
    /// `body`, the body read as JSON where values are to be taken from it.
    /// The response must pass the test (the runner stops on any other: see
    /// [`Test::try_check_response`]).
    pub fn check_response(&self, status: u16, body: &str) -> (res: Vec<(String, String)>)
        requires
            check_spec(self@.request.expected_response, status, body@, json_document(body@)) is Ok,
        ensures
            check_spec(self@.request.expected_response, status, body@, json_document(body@))
                == Ok::<Seq<(Seq<char>, Seq<char>)>, RunFailure>(pair_views(res@)),
    {
        let json = parse_json(body);
        let res = match &json {
            Some(j) => self.check(status, body, Some(j)),
            None => self.check(status, body, None),
        };
        res.unwrap()
    }

    /// What this test makes of a response with status `status` and body
    /// `body`, the body read as JSON where values are to be taken from it.
    ///
    /// # Errors
    /// As [`Test::check`] with the body's JSON.
    pub fn try_check_response(&self, status: u16, body: &str) -> (res: Result<Vec<(String, String)>, RunFailure>)
        ensures
            res matches Ok(v) ==> check_spec(self@.request.expected_response, status, body@, json_document(body@))
                == Ok::<Seq<(Seq<char>, Seq<char>)>, RunFailure>(pair_views(v@)),
            res matches Err(e) ==> check_spec(self@.request.expected_response, status, body@, json_document(body@))
                == Err::<Seq<(Seq<char>, Seq<char>)>, RunFailure>(e),
    {
        let json = parse_json(body);
        let res = match &json {
            Some(j) => self.check(status, body, Some(j)),
            None => self.check(status, body, None),
        };
        match res {
            Ok(_) => Ok(self.check_response(status, body)),
            Err(e) => Err(e),
        }
    }

    /// What this test makes of a response with status `status` and body
    /// `body`; `json` is the body read as JSON, when it is JSON.
    ///
    /// # Errors
    /// `StatusMismatch`, `BodyMismatch`, then, when values are to be taken,
    /// `NotJson` or the first value's `PathNotFound` or `NotAString`.
    pub fn check(&self, status: u16, body: &str, json: Option<&JsonValue>) -> (res: Result<Vec<(String, String)>, RunFailure>)
        ensures
            res matches Ok(v) ==> check_spec(self@.request.expected_response, status, body@, match json { Some(j) => Some(*j), None => None })
                == Ok::<Seq<(Seq<char>, Seq<char>)>, RunFailure>(pair_views(v@)),
            res matches Err(e) ==> check_spec(self@.request.expected_response, status, body@, match json { Some(j) => Some(*j), None => None })
                == Err::<Seq<(Seq<char>, Seq<char>)>, RunFailure>(e),
    {
        let expected = &self.request.expected_response;
        if expected.statuscode != status {
            return Err(RunFailure::StatusMismatch);
        }
        let body_chars = str_chars(body);
        let prefix = str_chars(expected.body.as_str());
        if !occurs_at_chars(&body_chars, &prefix, 0) {
            return Err(RunFailure::BodyMismatch);
        }
        let svs = match &expected.set_values {
            None => {
                let none: Vec<(String, String)> = Vec::new();
                assert(pair_views(none@) =~= Seq::<(Seq<char>, Seq<char>)>::empty());
                return Ok(none);
            },
            Some(svs) => svs,
        };
        let j = match json {
            None => return Err(RunFailure::NotJson),
            Some(j) => j,
        };
        let ghost all = set_value_views(svs@);
        let mut out: Vec<(String, String)> = Vec::new();
        let mut i: usize = 0;
        assert(all.take(0) =~= Seq::<SetValueView>::empty());
        assert(pair_views(out@) =~= Seq::<(Seq<char>, Seq<char>)>::empty());
        while i < svs.len()
            invariant
                i <= svs@.len(),
                all == set_value_views(svs@),
                out@.len() == i,
                self@.request.expected_response.set_values == Some(all),
                self@.request.expected_response.statuscode == status,
                starts_with(body@, self@.request.expected_response.body),
                (match json { Some(x) => Some(*x), None => None::<JsonValue> }) == Some(*j),
                taken_values(*j, all.take(i as int)) == Ok::<Seq<(Seq<char>, Seq<char>)>, RunFailure>(pair_views(out@)),
            decreases svs@.len() - i,
        {
            proof {
                assert(all.take(i + 1).drop_last() =~= all.take(i as int));
                assert(all.take(i + 1).last() == svs@[i as int]@);
            }
            match take_value(j, &svs[i]) {
                Ok(p) => {
                    let ghost before = out@;
                    out.push(p);
                    assert(pair_views(out@) =~= pair_views(before).push((p.0@, p.1@)));
                },
                Err(e) => {
                    proof { lemma_taken_error_stays(*j, all, (i + 1) as nat, e); }
                    return Err(e);
                },
            }
            i = i + 1;
        }
        assert(all.take(all.len() as int) =~= all);
        Ok(out)
    }
}

impl Headers {
    /// The headers to send: a header whose value names a known value is
    /// sent with that value instead.
    pub fn to_headervalues(&self, setvalue: &StringMap) -> (res: Headers)
        ensures
            res@ == header_values(self@, setvalue@),
    {
        let n = self.0.len();
        let ghost keys = self.0.key_texts();
        let mut out = StringMap::new();
        let mut i: usize = 0;
        assert(out@ =~= Map::new(
            |k: Seq<char>| keys.take(0).contains(k),
            |k: Seq<char>| header_values(self@, setvalue@)[k],
        ));
        while i < n
            invariant
                i <= n,
                n == keys.len(),
                keys == self.0.key_texts(),
                keys.no_duplicates(),
                forall|k: Seq<char>| self.0@.contains_key(k) <==> keys.contains(k),
                out@ == Map::new(
                    |k: Seq<char>| keys.take(i as int).contains(k),
                    |k: Seq<char>| header_values(self@, setvalue@)[k],
                ),
            decreases n - i,
        {
            let (k, v) = self.0.entry(i);
            let value = match setvalue.get(v) {
                Some(w) => w,
                None => v.clone(),
            };
            let ghost before = out@;
            assert(value@ == header_values(self@, setvalue@)[k@]);
            out.insert(k.clone(), value);
            proof {
                assert(keys[i as int] == k@);
                assert forall|q: Seq<char>| keys.take(i + 1).contains(q) <==> (keys.take(i as int).contains(q) || q == k@) by {
                    if keys.take(i + 1).contains(q) && q != k@ {
                        let a = choose|a: int| 0 <= a < i + 1 && #[trigger] keys.take(i + 1)[a] == q;
                        assert(keys.take(i as int)[a] == q);
                    }
                    if keys.take(i as int).contains(q) {
                        let a = choose|a: int| 0 <= a < i && #[trigger] keys.take(i as int)[a] == q;
                        assert(keys.take(i + 1)[a] == q);
                    }
                    if q == k@ {
                        assert(keys.take(i + 1)[i as int] == q);
                    }
                }
                assert(keys.contains(k@));
                let target = Map::new(
                    |q: Seq<char>| keys.take(i + 1).contains(q),
                    |q: Seq<char>| header_values(self@, setvalue@)[q],
                );
                assert(out@ == before.insert(k@, value@));
                assert forall|q: Seq<char>| #[trigger] out@.contains_key(q) <==> target.contains_key(q) by {
                    assert(before.contains_key(q) == keys.take(i as int).contains(q));
                    assert(keys.take(i + 1).contains(q) == (keys.take(i as int).contains(q) || q == k@));
                }
                assert forall|q: Seq<char>| out@.contains_key(q) implies #[trigger] out@[q] == target[q] by {
                    if q != k@ {
                        assert(before.contains_key(q));
                        assert(before[q] == header_values(self@, setvalue@)[q]);
                    }
                }
                assert(out@ =~= Map::new(
                    |q: Seq<char>| keys.take(i + 1).contains(q),
                    |q: Seq<char>| header_values(self@, setvalue@)[q],
                ));
            }
            i = i + 1;
        }
        proof {
            assert(keys.take(n as int) =~= keys);
            assert(out@ =~= header_values(self@, setvalue@));
        }
        Headers(out)
    }
}

/// Record the values a test took: each name, trimmed, is set to its value.
pub fn record_values(set_values: &mut StringMap, taken: Vec<(String, String)>)
    ensures
        final(set_values)@ == recorded(old(set_values)@, pair_views(taken@)),
{
    let ghost all = pair_views(taken@);
    let mut i: usize = 0;
    assert(all.take(0) =~= Seq::<(Seq<char>, Seq<char>)>::empty());
    while i < taken.len()
        invariant
            i <= taken@.len(),
            all == pair_views(taken@),
            set_values@ == recorded(old(set_values)@, all.take(i as int)),
        decreases taken@.len() - i,
    {
        proof {
            assert(all.take(i + 1).drop_last() =~= all.take(i as int));
            assert(all.take(i + 1).last() == all[i as int]);
        }
        let name = trim_chars(&str_chars(taken[i].0.as_str()));
        set_values.insert(string_from_chars(name.as_slice()), taken[i].1.clone());
        i = i + 1;
    }
    assert(all.take(all.len() as int) =~= all);
}

/// The value a test records last under a name is the value that the tests
/// after it know for that name, trimmed: what a later URL or header is given.
pub proof fn lemma_recorded_value_is_known(values: Map<Seq<char>, Seq<char>>, taken: Seq<(Seq<char>, Seq<char>)>, name: Seq<char>, value: Seq<char>)
    ensures
        recorded(values, taken.push((name, value))).contains_key(trim(name)),
        recorded(values, taken.push((name, value)))[trim(name)] == value,
{
    assert(taken.push((name, value)).drop_last() =~= taken);
}

} // verus!
