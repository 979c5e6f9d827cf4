//! The JSON-RPC envelope: requests, responses, errors and parameter lists,
//! with their encodings to and from the JSON document model.

use vstd::prelude::*;
use crate::value::{
    Json, JsonValue, value_view, views_of, member_views, member_lookup, clone_values,
    clone_members, lemma_member_views_push,
};

verus! {

/// The mathematical shape of a parameter list.
pub enum ParamsData {
    Named(Seq<(Seq<char>, Json)>),
    Positional(Seq<Json>),
}

/// The mathematical shape of a request or notification.
pub struct RequestData {
    pub method: Seq<char>,
    pub params: Option<ParamsData>,
    pub id: Option<Json>,
}

/// The mathematical shape of an error.
pub struct ErrorData {
    pub code: i64,
    pub message: Seq<char>,
    pub data: Option<Json>,
}

/// The mathematical shape of a response.
pub struct ResponseData {
    pub payload: Result<Json, ErrorData>,
    pub id: Option<Json>,
}

/// The view of an optional value.
pub open spec fn opt_view(o: Option<JsonValue>) -> Option<Json> {
    match o {
        Some(v) => Some(value_view(v)),
        None => None,
    }
}

// The five reserved errors, as data.

pub open spec fn parse_error_data() -> ErrorData {
    ErrorData { code: -32700i64, message: "Parse error"@, data: None }
}

pub open spec fn invalid_request_data() -> ErrorData {
    ErrorData { code: -32600i64, message: "Invalid request"@, data: None }
}

pub open spec fn method_not_found_data() -> ErrorData {
    ErrorData { code: -32601i64, message: "Method not found"@, data: None }
}

pub open spec fn invalid_params_data() -> ErrorData {
    ErrorData { code: -32602i64, message: "Invalid params"@, data: None }
}

pub open spec fn internal_error_data() -> ErrorData {
    ErrorData { code: -32603i64, message: "Internal error"@, data: None }
}

// Encodings into the document model.

/// The document a parameter list encodes to.
pub open spec fn params_json(p: ParamsData) -> Json {
    match p {
        ParamsData::Named(members) => Json::Object(members),
        ParamsData::Positional(items) => Json::Array(items),
    }
}

/// The document a request encodes to: a `jsonrpc` marker, the method, then
/// the parameter list and the id when present.
pub open spec fn request_json(r: RequestData) -> Json {
    let base = seq![("jsonrpc"@, Json::Str("2.0"@)), ("method"@, Json::Str(r.method))];
    let with_params = match r.params {
        Some(p) => base.push(("params"@, params_json(p))),
        None => base,
    };
    let with_id = match r.id {
        Some(i) => with_params.push(("id"@, i)),
        None => with_params,
    };
    Json::Object(with_id)
}

/// The document an error encodes to.
pub open spec fn error_json(e: ErrorData) -> Json {
    let base = seq![("code"@, Json::I64(e.code)), ("message"@, Json::Str(e.message))];
    let all = match e.data {
        Some(d) => base.push(("data"@, d)),
        None => base,
    };
    Json::Object(all)
}

/// The document a response encodes to: a `jsonrpc` marker, the id (null when
/// absent), then exactly one of `result` and `error`.
pub open spec fn response_json(r: ResponseData) -> Json {
    let base = seq![("jsonrpc"@, Json::Str("2.0"@))];
    let with_id = match r.id {
        Some(i) => base.push(("id"@, i)),
        None => base.push(("id"@, Json::Null)),
    };
    let all = match r.payload {
        Ok(v) => with_id.push(("result"@, v)),
        Err(e) => with_id.push(("error"@, error_json(e))),
    };
    Json::Object(all)
}

// Decodings out of the document model.

/// What a parameter list decodes from: an object gives named parameters, an
/// array positional ones, anything else is an invalid request.
pub open spec fn params_of_json(j: Json) -> Result<ParamsData, ErrorData> {
    match j {
        Json::Object(members) => Ok(ParamsData::Named(members)),
        Json::Array(items) => Ok(ParamsData::Positional(items)),
        _ => Err(invalid_request_data()),
    }
}

/// What a request decodes from: an object with a string `method`; `params`,
/// when present, must decode as a parameter list; `id` is copied verbatim.
pub open spec fn request_of_json(j: Json) -> Result<RequestData, ErrorData> {
    match j {
        Json::Object(m) => match member_lookup(m, "method"@) {
            Some(Json::Str(name)) => {
                let id = member_lookup(m, "id"@);
                match member_lookup(m, "params"@) {
                    None => Ok(RequestData { method: name, params: None, id }),
                    Some(pj) => match params_of_json(pj) {
                        Ok(p) => Ok(RequestData { method: name, params: Some(p), id }),
                        Err(e) => Err(e),
                    },
                }
            },
            _ => Err(invalid_request_data()),
        },
        _ => Err(invalid_request_data()),
    }
}

/// What an error decodes from: an object with an integer `code` and a string
/// `message`; `data` is copied verbatim.
pub open spec fn error_of_json(j: Json) -> Result<ErrorData, ErrorData> {
    match j {
        Json::Object(m) => {
            let code = match member_lookup(m, "code"@) {
                Some(Json::I64(c)) => Some(c),
                Some(Json::U64(n)) => if n <= i64::MAX as u64 {
                    Some(n as i64)
                } else {
                    None
                },
                _ => None,
            };
            match code {
                Some(c) => match member_lookup(m, "message"@) {
                    Some(Json::Str(msg)) => Ok(
                        ErrorData { code: c, message: msg, data: member_lookup(m, "data"@) },
                    ),
                    _ => Err(invalid_request_data()),
                },
                None => Err(invalid_request_data()),
            }
        },
        _ => Err(invalid_request_data()),
    }
}

/// What a response decodes from: an object that has an `id` member and
/// exactly one of `result` and `error`.
pub open spec fn response_of_json(j: Json) -> Result<ResponseData, ErrorData> {
    match j {
        Json::Object(m) => match member_lookup(m, "id"@) {
            Some(id) => match (member_lookup(m, "result"@), member_lookup(m, "error"@)) {
                (Some(v), None) => Ok(ResponseData { payload: Ok(v), id: Some(id) }),
                (None, Some(ej)) => match error_of_json(ej) {
                    Ok(e) => Ok(ResponseData { payload: Err(e), id: Some(id) }),
                    Err(e2) => Err(e2),
                },
                _ => Err(invalid_request_data()),
            },
            None => Err(invalid_request_data()),
        },
        _ => Err(invalid_request_data()),
    }
}

/// The parameters of a request: named, or positional.
#[derive(Debug, PartialEq, Eq)]
pub enum Params {
    /// Named parameters: string keys, each with a value.
    Named(Vec<(String, JsonValue)>),
    /// Positional parameters.
    Positional(Vec<JsonValue>),
}

impl View for Params {
    type V = ParamsData;

    open spec fn view(&self) -> ParamsData {
        match self {
            Params::Named(entries) => ParamsData::Named(member_views(entries@)),
            Params::Positional(items) => ParamsData::Positional(views_of(items@)),
        }
    }
}

/// The view of an optional parameter list.
pub open spec fn opt_params_view(o: Option<Params>) -> Option<ParamsData> {
    match o {
        Some(p) => Some(p@),
        None => None,
    }
}

impl Params {
    /// The document this parameter list encodes to.
    pub fn to_json(&self) -> (r: JsonValue)
        ensures
            r@ == params_json(self@),
    {
        match self {
            Params::Named(entries) => JsonValue::Object(clone_members(entries)),
            Params::Positional(items) => JsonValue::Array(clone_values(items)),
        }
    }

    /// Decodes a parameter list from a document.
    pub fn from_json(json: JsonValue) -> (r: Result<Params, Error>)
        ensures
            match r {
                Ok(p) => params_of_json(json@) == Ok::<ParamsData, ErrorData>(p@),
                Err(e) => params_of_json(json@) == Err::<ParamsData, ErrorData>(e@),
            },
    {
        match json {
            JsonValue::Object(entries) => Ok(Params::Named(entries)),
            JsonValue::Array(items) => Ok(Params::Positional(items)),
            _ => Err(Error::invalid_request()),
        }
    }
}

/// A JSON-RPC request or notification: one with an id is a call that expects
/// exactly one response, one without is a notification that is never
/// answered.
#[derive(Debug, PartialEq, Eq)]
pub struct Request {
    pub method: String,
    pub params: Option<Params>,
    pub id: Option<JsonValue>,
}

impl View for Request {
    type V = RequestData;

    open spec fn view(&self) -> RequestData {
        RequestData {
            method: self.method@,
            params: opt_params_view(self.params),
            id: opt_view(self.id),
        }
    }
}

impl Request {
    /// A new request for `method`, carrying no id yet.
    pub fn new(method: &str, params: Option<Params>) -> (r: Request)
        ensures
            r@ == (RequestData { method: method@, params: opt_params_view(params), id: None }),
    {
        Request { method: method.to_owned(), params, id: None }
    }

    /// Stamps the id of this request.
    pub fn set_id(&mut self, id: JsonValue)
        ensures
            final(self)@ == (RequestData { id: Some(id@), ..old(self)@ }),
    {
        self.id = Some(id);
    }

    /// The document this request encodes to.
    pub fn to_json(&self) -> (r: JsonValue)
        ensures
            r@ == request_json(self@),
    {
        let mut members: Vec<(String, JsonValue)> = Vec::new();
        let ghost m0 = members@;
        let marker = ("jsonrpc".to_owned(), JsonValue::Str("2.0".to_owned()));
        members.push(marker);
        proof {
            lemma_member_views_push(m0, marker.0, marker.1);
            assert(member_views(m0) =~= Seq::<(Seq<char>, Json)>::empty());
        }
        let ghost m1 = members@;
        let name = ("method".to_owned(), JsonValue::Str(self.method.clone()));
        members.push(name);
        proof {
            lemma_member_views_push(m1, name.0, name.1);
            assert(member_views(members@) =~= seq![
                ("jsonrpc"@, Json::Str("2.0"@)),
                ("method"@, Json::Str(self.method@)),
            ]);
        }
        if let Some(p) = &self.params {
            let ghost before = members@;
            let member = ("params".to_owned(), p.to_json());
            members.push(member);
            proof {
                lemma_member_views_push(before, member.0, member.1);
            }
        }
        if let Some(id) = &self.id {
            let ghost before = members@;
            let member = ("id".to_owned(), id.clone());
            members.push(member);
            proof {
                lemma_member_views_push(before, member.0, member.1);
            }
        }
        JsonValue::Object(members)
    }

    /// Decodes a request from a document.
    pub fn from_json(json: JsonValue) -> (r: Result<Request, Error>)
        ensures
            match r {
                Ok(req) => request_of_json(json@) == Ok::<RequestData, ErrorData>(req@),
                Err(e) => request_of_json(json@) == Err::<RequestData, ErrorData>(e@),
            },
    {
        let method: String = match json.lookup("method") {
            Some(JsonValue::Str(name)) => name.clone(),
            _ => {
                return Err(Error::invalid_request());
            },
        };
        let id: Option<JsonValue> = match json.lookup("id") {
            Some(v) => Some(v.clone()),
            None => None,
        };
        let params: Option<Params> = match json.lookup("params") {
            Some(pv) => match Params::from_json(pv.clone()) {
                Ok(p) => Some(p),
                Err(e) => {
                    return Err(e);
                },
            },
            None => None,
        };
        Ok(Request { method, params, id })
    }
}

/// A JSON-RPC response: a success value or an error, with the id of the call
/// it answers.
#[derive(Debug, PartialEq, Eq)]
pub struct Response {
    /// The payload (result or error) of this response.
    pub payload: Result<JsonValue, Error>,
    /// The id of this response.
    pub id: Option<JsonValue>,
}

/// The view of a response payload.
pub open spec fn payload_view(p: Result<JsonValue, Error>) -> Result<Json, ErrorData> {
    match p {
        Ok(v) => Ok(v@),
        Err(e) => Err(e@),
    }
}

impl View for Response {
    type V = ResponseData;

    open spec fn view(&self) -> ResponseData {
        ResponseData { payload: payload_view(self.payload), id: opt_view(self.id) }
    }
}

impl Response {
    /// A new response around `payload`, carrying no id yet.
    pub fn new(payload: Result<JsonValue, Error>) -> (r: Response)
        ensures
            r@ == (ResponseData { payload: payload_view(payload), id: None }),
    {
        Response { payload, id: None }
    }

    /// Stamps the id of this response.
    pub fn set_id(&mut self, id: JsonValue)
        ensures
            final(self)@ == (ResponseData { id: Some(id@), ..old(self)@ }),
    {
        self.id = Some(id);
    }

    /// The document this response encodes to.
    pub fn to_json(&self) -> (r: JsonValue)
        ensures
            r@ == response_json(self@),
    {
        let mut members: Vec<(String, JsonValue)> = Vec::new();
        let ghost m0 = members@;
        let marker = ("jsonrpc".to_owned(), JsonValue::Str("2.0".to_owned()));
        members.push(marker);
        proof {
            lemma_member_views_push(m0, marker.0, marker.1);
            assert(member_views(m0) =~= Seq::<(Seq<char>, Json)>::empty());
            assert(member_views(members@) =~= seq![("jsonrpc"@, Json::Str("2.0"@))]);
        }
        let ghost before_id = members@;
        let id_member = match &self.id {
            Some(id) => ("id".to_owned(), id.clone()),
            None => ("id".to_owned(), JsonValue::Null),
        };
        members.push(id_member);
        proof {
            lemma_member_views_push(before_id, id_member.0, id_member.1);
        }
        let ghost before_payload = members@;
        let payload_member = match &self.payload {
            Ok(v) => ("result".to_owned(), v.clone()),
            Err(e) => ("error".to_owned(), e.to_json()),
        };
        members.push(payload_member);
        proof {
            lemma_member_views_push(before_payload, payload_member.0, payload_member.1);
        }
        JsonValue::Object(members)
    }

    /// Decodes a response from a document.
    pub fn from_json(json: JsonValue) -> (r: Result<Response, Error>)
        ensures
            match r {
                Ok(resp) => response_of_json(json@) == Ok::<ResponseData, ErrorData>(resp@),
                Err(e) => response_of_json(json@) == Err::<ResponseData, ErrorData>(e@),
            },
    {
        let id: JsonValue = match json.lookup("id") {
            Some(v) => v.clone(),
            None => {
                return Err(Error::invalid_request());
            },
        };
        match (json.lookup("result"), json.lookup("error")) {
            (Some(rv), None) => Ok(Response { payload: Ok(rv.clone()), id: Some(id) }),
            (None, Some(ev)) => match Error::from_json(ev.clone()) {
                Ok(e) => Ok(Response { payload: Err(e), id: Some(id) }),
                Err(e2) => Err(e2),
            },
            _ => Err(Error::invalid_request()),
        }
    }
}

/// A JSON-RPC error: a code, a message, and optional further data.
#[derive(Debug, PartialEq, Eq)]
pub struct Error {
    /// Error code.
    code: i64,
    /// Error message.
    message: String,
    /// Optional additional error data.
    data: Option<JsonValue>,
}

impl View for Error {
    type V = ErrorData;

    closed spec fn view(&self) -> ErrorData {
        ErrorData { code: self.code, message: self.message@, data: opt_view(self.data) }
    }
}

impl Clone for Error {
    /// A copy denoting the same error.
    fn clone(&self) -> (res: Self)
        ensures
            res@ == self@,
    {
        let data = match &self.data {
            Some(d) => Some(d.clone()),
            None => None,
        };
        Error { code: self.code, message: self.message.clone(), data }
    }
}

impl Error {
    /// A new error.
    pub fn new(code: i64, message: &str, data: Option<JsonValue>) -> (r: Error)
        ensures
            r@ == (ErrorData { code: code, message: message@, data: opt_view(data) }),
    {
        Error { code, message: message.to_owned(), data }
    }

    /// The document this error encodes to.
    pub fn to_json(&self) -> (r: JsonValue)
        ensures
            r@ == error_json(self@),
    {
        let mut members: Vec<(String, JsonValue)> = Vec::new();
        let ghost m0 = members@;
        let code_member = ("code".to_owned(), JsonValue::I64(self.code));
        members.push(code_member);
        proof {
            lemma_member_views_push(m0, code_member.0, code_member.1);
            assert(member_views(m0) =~= Seq::<(Seq<char>, Json)>::empty());
        }
        let ghost m1 = members@;
        let message_member = ("message".to_owned(), JsonValue::Str(self.message.clone()));
        members.push(message_member);
        proof {
            lemma_member_views_push(m1, message_member.0, message_member.1);
            assert(member_views(members@) =~= seq![
                ("code"@, Json::I64(self.code)),
                ("message"@, Json::Str(self.message@)),
            ]);
        }
        if let Some(d) = &self.data {
            let ghost before = members@;
            let member = ("data".to_owned(), d.clone());
            members.push(member);
            proof {
                lemma_member_views_push(before, member.0, member.1);
            }
        }
        JsonValue::Object(members)
    }

    /// Decodes an error from a document.
    pub fn from_json(json: JsonValue) -> (r: Result<Error, Error>)
        ensures
            match r {
                Ok(e) => error_of_json(json@) == Ok::<ErrorData, ErrorData>(e@),
                Err(e) => error_of_json(json@) == Err::<ErrorData, ErrorData>(e@),
            },
    {
        let code: i64 = match json.lookup("code") {
            Some(JsonValue::I64(c)) => *c,
            Some(JsonValue::U64(n)) => {
                if *n <= i64::MAX as u64 {
                    *n as i64
                } else {
                    return Err(Error::invalid_request());
                }
            },
            _ => {
                return Err(Error::invalid_request());
            },
        };
        let message: String = match json.lookup("message") {
            Some(JsonValue::Str(msg)) => msg.clone(),
            _ => {
                return Err(Error::invalid_request());
            },
        };
        let data: Option<JsonValue> = match json.lookup("data") {
            Some(d) => Some(d.clone()),
            None => None,
        };
        Ok(Error { code, message, data })
    }

    /// The reserved error for a method that was not found.
    pub fn method_not_found() -> (r: Error)
        ensures
            r@ == method_not_found_data(),
    {
        Error { code: -32601, message: "Method not found".to_owned(), data: None }
    }

    /// The reserved error for text that could not be parsed.
    pub fn parse_error() -> (r: Error)
        ensures
            r@ == parse_error_data(),
    {
        Error { code: -32700, message: "Parse error".to_owned(), data: None }
    }

    /// The reserved error for an invalid request.
    pub fn invalid_request() -> (r: Error)
        ensures
            r@ == invalid_request_data(),
    {
        Error { code: -32600, message: "Invalid request".to_owned(), data: None }
    }

    /// The reserved error for invalid parameters.
    pub fn invalid_params() -> (r: Error)
        ensures
            r@ == invalid_params_data(),
    {
        Error { code: -32602, message: "Invalid params".to_owned(), data: None }
    }

    /// The reserved error for an internal failure.
    pub fn internal_error() -> (r: Error)
        ensures
            r@ == internal_error_data(),
    {
        Error { code: -32603, message: "Internal error".to_owned(), data: None }
    }
}

proof fn lemma_lookup_head(m: Seq<(Seq<char>, Json)>, k: Seq<char>)
    requires
        m.len() > 0,
        m[0].0 == k,
    ensures
        member_lookup(m, k) == Some(m[0].1),
{
}

proof fn lemma_lookup_rest(m: Seq<(Seq<char>, Json)>, k: Seq<char>)
    requires
        m.len() > 0,
        m[0].0 != k,
    ensures
        member_lookup(m, k) == member_lookup(m.drop_first(), k),
{
}

/// The envelope's member keys, pairwise distinct.
proof fn lemma_keys_distinct()
    ensures
        "jsonrpc"@ != "method"@,
        "jsonrpc"@ != "params"@,
        "jsonrpc"@ != "id"@,
        "jsonrpc"@ != "result"@,
        "jsonrpc"@ != "error"@,
        "method"@ != "params"@,
        "method"@ != "id"@,
        "params"@ != "id"@,
        "id"@ != "result"@,
        "id"@ != "error"@,
        "result"@ != "error"@,
        "code"@ != "message"@,
        "code"@ != "data"@,
        "message"@ != "data"@,
{
    reveal_strlit("jsonrpc");
    reveal_strlit("method");
    reveal_strlit("params");
    reveal_strlit("id");
    reveal_strlit("result");
    reveal_strlit("error");
    reveal_strlit("code");
    reveal_strlit("message");
    reveal_strlit("data");
    assert("jsonrpc"@.len() == 7);
    assert("method"@.len() == 6);
    assert("params"@.len() == 6);
    assert("id"@.len() == 2);
    assert("result"@.len() == 6);
    assert("error"@.len() == 5);
    assert("code"@.len() == 4);
    assert("message"@.len() == 7);
    assert("data"@.len() == 4);
    assert("method"@[0] == 'm' && "params"@[0] == 'p');
    assert("code"@[0] == 'c' && "data"@[0] == 'd');
    assert("jsonrpc"@[0] == 'j' && "message"@[0] == 'm');
}

/// Law: decoding an encoded parameter list gives it back, for both the named
/// and the positional variant.
pub proof fn lemma_params_round_trip(p: ParamsData)
    ensures
        params_of_json(params_json(p)) == Ok::<ParamsData, ErrorData>(p),
{
}

/// Law: decoding an encoded error gives it back.
pub proof fn lemma_error_round_trip(e: ErrorData)
    ensures
        error_of_json(error_json(e)) == Ok::<ErrorData, ErrorData>(e),
{
    lemma_keys_distinct();
    let c = ("code"@, Json::I64(e.code));
    let msg = ("message"@, Json::Str(e.message));
    match e.data {
        None => {
            let m = error_json(e)->Object_0;
            assert(m =~= seq![c, msg]);
            assert(seq![c, msg][0] == c);
            lemma_lookup_head(seq![c, msg], "code"@);
            lemma_lookup_rest(seq![c, msg], "message"@);
            assert(seq![c, msg].drop_first() =~= seq![msg]);
            assert(seq![msg][0] == msg);
            lemma_lookup_head(seq![msg], "message"@);
            lemma_lookup_rest(seq![c, msg], "data"@);
            lemma_lookup_rest(seq![msg], "data"@);
            assert(seq![msg].drop_first() =~= Seq::<(Seq<char>, Json)>::empty());
        },
        Some(d) => {
            let dm = ("data"@, d);
            let m = error_json(e)->Object_0;
            assert(m =~= seq![c, msg, dm]);
            assert(seq![c, msg, dm][0] == c);
            lemma_lookup_head(seq![c, msg, dm], "code"@);
            lemma_lookup_rest(seq![c, msg, dm], "message"@);
            assert(seq![c, msg, dm].drop_first() =~= seq![msg, dm]);
            assert(seq![msg, dm][0] == msg);
            lemma_lookup_head(seq![msg, dm], "message"@);
            lemma_lookup_rest(seq![c, msg, dm], "data"@);
            lemma_lookup_rest(seq![msg, dm], "data"@);
            assert(seq![msg, dm].drop_first() =~= seq![dm]);
            assert(seq![dm][0] == dm);
            lemma_lookup_head(seq![dm], "data"@);
        },
    }
}

/// Law: decoding an encoded request gives it back, whether or not it carries
/// parameters or an id.
pub proof fn lemma_request_round_trip(r: RequestData)
    ensures
        request_of_json(request_json(r)) == Ok::<RequestData, ErrorData>(r),
{
    lemma_keys_distinct();
    let marker = ("jsonrpc"@, Json::Str("2.0"@));
    let name = ("method"@, Json::Str(r.method));
    let m = request_json(r)->Object_0;
    match (r.params, r.id) {
        (None, None) => {
            assert(m =~= seq![marker, name]);
            assert(seq![marker, name][0] == marker);
            lemma_lookup_rest(seq![marker, name], "method"@);
            assert(seq![marker, name].drop_first() =~= seq![name]);
            assert(seq![name][0] == name);
            lemma_lookup_head(seq![name], "method"@);
            lemma_lookup_rest(seq![marker, name], "id"@);
            lemma_lookup_rest(seq![name], "id"@);
            assert(seq![name].drop_first() =~= Seq::<(Seq<char>, Json)>::empty());
            lemma_lookup_rest(seq![marker, name], "params"@);
            lemma_lookup_rest(seq![name], "params"@);
        },
        (Some(p), None) => {
            let pm = ("params"@, params_json(p));
            assert(m =~= seq![marker, name, pm]);
            assert(seq![marker, name, pm][0] == marker);
            lemma_lookup_rest(seq![marker, name, pm], "method"@);
            assert(seq![marker, name, pm].drop_first() =~= seq![name, pm]);
            assert(seq![name, pm][0] == name);
            lemma_lookup_head(seq![name, pm], "method"@);
            lemma_lookup_rest(seq![marker, name, pm], "id"@);
            lemma_lookup_rest(seq![name, pm], "id"@);
            assert(seq![name, pm].drop_first() =~= seq![pm]);
            assert(seq![pm][0] == pm);
            lemma_lookup_rest(seq![pm], "id"@);
            assert(seq![pm].drop_first() =~= Seq::<(Seq<char>, Json)>::empty());
            lemma_lookup_rest(seq![marker, name, pm], "params"@);
            lemma_lookup_rest(seq![name, pm], "params"@);
            lemma_lookup_head(seq![pm], "params"@);
            lemma_params_round_trip(p);
        },
        (None, Some(i)) => {
            let im = ("id"@, i);
            assert(m =~= seq![marker, name, im]);
            assert(seq![marker, name, im][0] == marker);
            lemma_lookup_rest(seq![marker, name, im], "method"@);
            assert(seq![marker, name, im].drop_first() =~= seq![name, im]);
            assert(seq![name, im][0] == name);
            lemma_lookup_head(seq![name, im], "method"@);
            lemma_lookup_rest(seq![marker, name, im], "id"@);
            lemma_lookup_rest(seq![name, im], "id"@);
            assert(seq![name, im].drop_first() =~= seq![im]);
            assert(seq![im][0] == im);
            lemma_lookup_head(seq![im], "id"@);
            lemma_lookup_rest(seq![marker, name, im], "params"@);
            lemma_lookup_rest(seq![name, im], "params"@);
            lemma_lookup_rest(seq![im], "params"@);
            assert(seq![im].drop_first() =~= Seq::<(Seq<char>, Json)>::empty());
        },
        (Some(p), Some(i)) => {
            let pm = ("params"@, params_json(p));
            let im = ("id"@, i);
            assert(m =~= seq![marker, name, pm, im]);
            assert(seq![marker, name, pm, im][0] == marker);
            lemma_lookup_rest(seq![marker, name, pm, im], "method"@);
            assert(seq![marker, name, pm, im].drop_first() =~= seq![name, pm, im]);
            assert(seq![name, pm, im][0] == name);
            lemma_lookup_head(seq![name, pm, im], "method"@);
            lemma_lookup_rest(seq![marker, name, pm, im], "id"@);
            lemma_lookup_rest(seq![name, pm, im], "id"@);
            assert(seq![name, pm, im].drop_first() =~= seq![pm, im]);
            assert(seq![pm, im][0] == pm);
            lemma_lookup_rest(seq![pm, im], "id"@);
            assert(seq![pm, im].drop_first() =~= seq![im]);
            assert(seq![im][0] == im);
            lemma_lookup_head(seq![im], "id"@);
            lemma_lookup_rest(seq![marker, name, pm, im], "params"@);
            lemma_lookup_rest(seq![name, pm, im], "params"@);
            lemma_lookup_head(seq![pm, im], "params"@);
            lemma_params_round_trip(p);
        },
    }
}

/// Law: decoding an encoded response gives it back, for a success payload
/// and for an error payload alike, when the response carries an id.  One
/// encoded without an id decodes with a null id in its place, which is why
/// the id is asked for here.
pub proof fn lemma_response_round_trip(r: ResponseData)
    requires
        r.id is Some,
    ensures
        response_of_json(response_json(r)) == Ok::<ResponseData, ErrorData>(r),
{
    lemma_response_decode(r);
}

/// A response encoded without an id decodes with a null one; any other
/// response decodes to itself.
pub proof fn lemma_response_decode(r: ResponseData)
    ensures
        response_of_json(response_json(r)) == Ok::<ResponseData, ErrorData>(
            ResponseData {
                payload: r.payload,
                id: match r.id {
                    Some(i) => Some(i),
                    None => Some(Json::Null),
                },
            },
        ),
{
    lemma_keys_distinct();
    let marker = ("jsonrpc"@, Json::Str("2.0"@));
    let id_json = match r.id {
        Some(i) => i,
        None => Json::Null,
    };
    let im = ("id"@, id_json);
    let m = response_json(r)->Object_0;
    match r.payload {
        Ok(v) => {
            let pm = ("result"@, v);
            assert(m =~= seq![marker, im, pm]);
            assert(seq![marker, im, pm][0] == marker);
            lemma_lookup_rest(seq![marker, im, pm], "id"@);
            assert(seq![marker, im, pm].drop_first() =~= seq![im, pm]);
            assert(seq![im, pm][0] == im);
            lemma_lookup_head(seq![im, pm], "id"@);
            lemma_lookup_rest(seq![marker, im, pm], "result"@);
            lemma_lookup_rest(seq![im, pm], "result"@);
            assert(seq![im, pm].drop_first() =~= seq![pm]);
            assert(seq![pm][0] == pm);
            lemma_lookup_head(seq![pm], "result"@);
            lemma_lookup_rest(seq![marker, im, pm], "error"@);
            lemma_lookup_rest(seq![im, pm], "error"@);
            lemma_lookup_rest(seq![pm], "error"@);
            assert(seq![pm].drop_first() =~= Seq::<(Seq<char>, Json)>::empty());
        },
        Err(e) => {
            let pm = ("error"@, error_json(e));
            assert(m =~= seq![marker, im, pm]);
            assert(seq![marker, im, pm][0] == marker);
            lemma_lookup_rest(seq![marker, im, pm], "id"@);
            assert(seq![marker, im, pm].drop_first() =~= seq![im, pm]);
            assert(seq![im, pm][0] == im);
            lemma_lookup_head(seq![im, pm], "id"@);
            lemma_lookup_rest(seq![marker, im, pm], "result"@);
            lemma_lookup_rest(seq![im, pm], "result"@);
            assert(seq![im, pm].drop_first() =~= seq![pm]);
            assert(seq![pm][0] == pm);
            lemma_lookup_rest(seq![pm], "result"@);
            assert(seq![pm].drop_first() =~= Seq::<(Seq<char>, Json)>::empty());
            lemma_lookup_rest(seq![marker, im, pm], "error"@);
            lemma_lookup_rest(seq![im, pm], "error"@);
            lemma_lookup_head(seq![pm], "error"@);
            lemma_error_round_trip(e);
        },
    }
}

} // verus!
