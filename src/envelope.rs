//! The JSON-RPC envelope: requests, responses and errors, and how a request
//! body is read as one request or as a batch.
use vstd::prelude::*;
use crate::json::{member_spec, parse_json, parsed_json, print_json, printed_json, JsonNumber, JsonValue};

verus! {

pub const MISC_ERROR_CODE: i64 = -1;
pub const METHOD_NOT_ALLOWED_ERROR_CODE: i64 = -32604;
pub const PARSE_ERROR_CODE: i64 = -32700;
pub const METHOD_NOT_ALLOWED_ERROR_MESSAGE: &'static str = "Method not allowed";
pub const PRUNE_ERROR_MESSAGE: &'static str = "Block not available (pruned data)";

/// The name of a method whose parameters and result are plain JSON.
#[derive(Debug)]
pub struct GenericRpcMethod(pub String);

impl GenericRpcMethod {
    pub fn as_str(&self) -> (r: &str)
        ensures
            r@ == self.0@,
    {
        self.0.as_str()
    }
}

/// One call. `id` is `None` where the member was absent, and `Some(Null)` where
/// it was an explicit `null`.
#[derive(Debug)]
pub struct RpcRequest {
    pub id: Option<JsonValue>,
    pub method: GenericRpcMethod,
    pub params: JsonValue,
}

/// A request body: one call, or a batch of them in the order given.
#[derive(Debug)]
pub enum SingleOrBatchRpcRequest {
    Single(RpcRequest),
    Batch(Vec<RpcRequest>),
}

/// Why a body is not a request.
#[derive(Debug)]
pub enum DecodeError {
    /// The bytes are not one JSON document.
    Syntax(serde_json::Error),
    /// A value stands where a request object is expected.
    InvalidType,
    /// The `method` member is not a string.
    MethodNotString,
    MissingMethod,
    MissingParams,
    /// A member of a response or of its error has the wrong type.
    InvalidMember,
    MissingCode,
    MissingMessage,
}

/// What a request object decodes to, given its members.
pub open spec fn request_members_spec(ms: Seq<(String, JsonValue)>) -> Result<RpcRequest, DecodeError> {
    match member_spec(ms, "method"@) {
        None => Err(DecodeError::MissingMethod),
        Some(JsonValue::Str(name)) => match member_spec(ms, "params"@) {
            None => Err(DecodeError::MissingParams),
            Some(p) => Ok(RpcRequest { id: member_spec(ms, "id"@), method: GenericRpcMethod(name), params: p }),
        },
        Some(_) => Err(DecodeError::MethodNotString),
    }
}

/// What one element of a batch decodes to.
pub open spec fn request_spec(v: JsonValue) -> Result<RpcRequest, DecodeError> {
    match v {
        JsonValue::Object(ms) => request_members_spec(ms@),
        _ => Err(DecodeError::InvalidType),
    }
}

/// What the elements of a batch decode to: every request in order, or the
/// error of the first element that is not one.
pub open spec fn batch_spec(items: Seq<JsonValue>) -> Result<Seq<RpcRequest>, DecodeError>
    decreases items.len(),
{
    if items.len() == 0 {
        Ok(Seq::empty())
    } else {
        match request_spec(items[0]) {
            Err(e) => Err(e),
            Ok(q) => match batch_spec(items.drop_first()) {
                Ok(rest) => Ok(seq![q] + rest),
                Err(e) => Err(e),
            },
        }
    }
}

/// Whether `m` is the object that `req` is written as: `id` first where it is
/// present, then `method` and `params`.
pub open spec fn request_members_written(m: Seq<(String, JsonValue)>, req: RpcRequest) -> bool {
    let rest = match req.id {
        Some(i) => {
            &&& m.len() == 3
            &&& m[0].0@ == "id"@
            &&& m[0].1 == i
        },
        None => m.len() == 2,
    };
    let k = m.len() - 2;
    &&& rest
    &&& m[k].0@ == "method"@
    &&& m[k].1 == JsonValue::Str(req.method.0)
    &&& m[k + 1].0@ == "params"@
    &&& m[k + 1].1 == req.params
}

impl SingleOrBatchRpcRequest {
    /// Reads a request body: an array is a batch, an object a single request.
    pub fn decode(b: &[u8]) -> (r: Result<SingleOrBatchRpcRequest, DecodeError>)
        ensures
            match parsed_json(b@) {
                None => r matches Err(DecodeError::Syntax(_)),
                Some(JsonValue::Array(items)) => match batch_spec(items@) {
                    Ok(s) => r matches Ok(SingleOrBatchRpcRequest::Batch(v)) && v@ == s,
                    Err(e) => r == Err::<SingleOrBatchRpcRequest, DecodeError>(e),
                },
                Some(JsonValue::Object(ms)) => match request_members_spec(ms@) {
                    Ok(q) => r == Ok::<SingleOrBatchRpcRequest, DecodeError>(SingleOrBatchRpcRequest::Single(q)),
                    Err(e) => r == Err::<SingleOrBatchRpcRequest, DecodeError>(e),
                },
                Some(_) => r == Err::<SingleOrBatchRpcRequest, DecodeError>(DecodeError::InvalidType),
            },
    {
        match parse_json(b) {
            Err(e) => Err(DecodeError::Syntax(e)),
            Ok(JsonValue::Array(items)) => match decode_batch(items) {
                Ok(v) => Ok(SingleOrBatchRpcRequest::Batch(v)),
                Err(e) => Err(e),
            },
            Ok(JsonValue::Object(ms)) => match decode_members(ms) {
                Ok(q) => Ok(SingleOrBatchRpcRequest::Single(q)),
                Err(e) => Err(e),
            },
            Ok(_) => Err(DecodeError::InvalidType),
        }
    }
}

/// Reads a request from an object's members; where a name repeats, its last
/// member counts, and members of other names are dropped.
pub fn decode_members(ms: Vec<(String, JsonValue)>) -> (r: Result<RpcRequest, DecodeError>)
    ensures
        r == request_members_spec(ms@),
{
    let ghost orig = ms@;
    let mut ms = ms;
    let id_key = "id".to_owned();
    let method_key = "method".to_owned();
    let params_key = "params".to_owned();
    proof {
        reveal_strlit("id");
        reveal_strlit("method");
        reveal_strlit("params");
    }
    let mut id: Option<JsonValue> = None;
    let mut method: Option<JsonValue> = None;
    let mut params: Option<JsonValue> = None;
    while ms.len() > 0
        invariant
            id_key@ == "id"@,
            method_key@ == "method"@,
            params_key@ == "params"@,
            id is Some ==> id == member_spec(orig, "id"@),
            id is None ==> member_spec(orig, "id"@) == member_spec(ms@, "id"@),
            method is Some ==> method == member_spec(orig, "method"@),
            method is None ==> member_spec(orig, "method"@) == member_spec(ms@, "method"@),
            params is Some ==> params == member_spec(orig, "params"@),
            params is None ==> member_spec(orig, "params"@) == member_spec(ms@, "params"@),
        decreases ms.len(),
    {
        let ghost before = ms@;
        let (k, v) = ms.pop().unwrap();
        proof {
            reveal_strlit("id");
            reveal_strlit("method");
            reveal_strlit("params");
            assert(before.drop_last() =~= ms@);
            assert("id"@ != "method"@ && "id"@ != "params"@ && "method"@ != "params"@) by {
                assert("id"@.len() != "method"@.len());
                assert("id"@.len() != "params"@.len());
                assert("method"@[0] != "params"@[0]);
            }
        }
        if k == id_key {
            if id.is_none() {
                id = Some(v);
            }
        } else if k == method_key {
            if method.is_none() {
                method = Some(v);
            }
        } else if k == params_key {
            if params.is_none() {
                params = Some(v);
            }
        }
    }
    match method {
        None => Err(DecodeError::MissingMethod),
        Some(JsonValue::Str(name)) => match params {
            None => Err(DecodeError::MissingParams),
            Some(p) => Ok(RpcRequest { id, method: GenericRpcMethod(name), params: p }),
        },
        Some(_) => Err(DecodeError::MethodNotString),
    }
}

/// Reads the elements of a batch, in order.
pub fn decode_batch(elements: Vec<JsonValue>) -> (r: Result<Vec<RpcRequest>, DecodeError>)
    ensures
        match batch_spec(elements@) {
            Ok(s) => r is Ok && r->Ok_0@ == s,
            Err(e) => r == Err::<Vec<RpcRequest>, DecodeError>(e),
        },
{
    let ghost orig = elements@;
    let mut items = elements;
    let mut out: Vec<RpcRequest> = Vec::new();
    while items.len() > 0
        invariant
            orig == elements@,
            batch_spec(orig) == match batch_spec(items@) {
                Ok(rest) => Ok(out@ + rest),
                Err(e) => Err(e),
            },
        decreases items.len(),
    {
        let ghost before = items@;
        let x = items.remove(0);
        let ghost gx = x;
        proof {
            assert(before.drop_first() =~= items@);
        }
        let q = match x {
            JsonValue::Object(ms) => decode_members(ms),
            _ => Err(DecodeError::InvalidType),
        };
        assert(q == request_spec(gx));
        match q {
            Err(e) => {
                assert(batch_spec(before) == Err::<Seq<RpcRequest>, DecodeError>(e));
                assert(batch_spec(orig) == Err::<Seq<RpcRequest>, DecodeError>(e));
                return Err(e);
            },
            Ok(q) => {
                proof {
                    let ghost old_out = out@;
                    match batch_spec(items@) {
                        Ok(rest) => {
                            assert(old_out + (seq![q] + rest) =~= old_out.push(q) + rest);
                        },
                        Err(_) => {},
                    }
                }
                out.push(q);
            },
        }
    }
    proof {
        assert(out@ + Seq::<RpcRequest>::empty() =~= out@);
    }
    Ok(out)
}

/// Whether `j` is the JSON that `req` is written as.
pub open spec fn request_written(j: JsonValue, req: RpcRequest) -> bool {
    j matches JsonValue::Object(m) && request_members_written(m@, req)
}

/// Whether `j` is the JSON array that `reqs` are written as, in order.
pub open spec fn batch_written(j: JsonValue, reqs: Seq<RpcRequest>) -> bool {
    &&& j matches JsonValue::Array(v)
    &&& v@.len() == reqs.len()
    &&& forall|i: int| 0 <= i < reqs.len() ==> request_written(#[trigger] v@[i], reqs[i])
}

impl RpcRequest {
    /// Writes the request as a JSON object. An absent id is left out, an
    /// explicit `null` kept.
    pub fn to_json(self) -> (r: JsonValue)
        ensures
            request_written(r, self),
    {
        let mut m: Vec<(String, JsonValue)> = Vec::new();
        match self.id {
            Some(i) => m.push(("id".to_owned(), i)),
            None => {},
        }
        m.push(("method".to_owned(), JsonValue::Str(self.method.0)));
        m.push(("params".to_owned(), self.params));
        proof {
            reveal_strlit("id");
            reveal_strlit("method");
            reveal_strlit("params");
        }
        JsonValue::Object(m)
    }
}

impl SingleOrBatchRpcRequest {
    /// Writes the body as JSON: one object, or an array in the batch's order.
    pub fn to_json(self) -> (r: JsonValue)
        ensures
            match self {
                SingleOrBatchRpcRequest::Single(q) => request_written(r, q),
                SingleOrBatchRpcRequest::Batch(v) => batch_written(r, v@),
            },
    {
        match self {
            SingleOrBatchRpcRequest::Single(q) => q.to_json(),
            SingleOrBatchRpcRequest::Batch(v) => batch_to_json(v),
        }
    }

    /// The bytes of the body, as sent upstream.
    pub fn encode(self) -> (r: Vec<u8>)
        ensures
            exists|j: JsonValue|
                r@ == printed_json(j) && match self {
                    SingleOrBatchRpcRequest::Single(q) => request_written(j, q),
                    SingleOrBatchRpcRequest::Batch(v) => batch_written(j, v@),
                },
    {
        let j = self.to_json();
        let r = print_json(&j);
        assert(r@ == printed_json(j));
        r
    }
}

/// Writes requests as a JSON array, in order.
pub fn batch_to_json(reqs: Vec<RpcRequest>) -> (r: JsonValue)
    ensures
        batch_written(r, reqs@),
{
    let ghost orig = reqs@;
    let mut rest = reqs;
    let mut out: Vec<JsonValue> = Vec::new();
    while rest.len() > 0
        invariant
            orig == reqs@,
            orig == orig.subrange(0, out@.len() as int) + rest@,
            out@.len() <= orig.len(),
            forall|i: int| 0 <= i < out@.len() ==> request_written(#[trigger] out@[i], orig[i]),
        decreases rest.len(),
    {
        let ghost before = rest@;
        let q = rest.remove(0);
        proof {
            assert(orig.subrange(0, out@.len() as int + 1) + rest@ =~= orig);
        }
        let j = q.to_json();
        out.push(j);
    }
    JsonValue::Array(out)
}

/// A request written as an object reads back as the same request.
pub proof fn lemma_request_round_trip(req: RpcRequest, m: Seq<(String, JsonValue)>)
    requires
        request_members_written(m, req),
    ensures
        request_members_spec(m) == Ok::<RpcRequest, DecodeError>(req),
{
    reveal_strlit("id");
    reveal_strlit("method");
    reveal_strlit("params");
    assert("id"@.len() != "method"@.len() && "id"@.len() != "params"@.len());
    assert("method"@[0] != "params"@[0]);
    reveal_with_fuel(member_spec, 4);
    let k = m.len() - 2;
    assert(m.drop_last().last() == m[k]);
    if m.len() == 3 {
        assert(m.drop_last().drop_last().last() == m[0]);
        assert(member_spec(m, "params"@) == Some(req.params));
        assert(member_spec(m, "method"@) == Some(JsonValue::Str(req.method.0)));
        assert(member_spec(m, "id"@) == req.id);
    } else {
        assert(m.drop_last().drop_last().len() == 0);
        assert(member_spec(m, "id"@) == req.id);
    }
}

/// A request read from an object writes back with the same id, method and
/// params, and with nothing else.
pub proof fn lemma_decoded_request_rewrites(ms: Seq<(String, JsonValue)>, m: Seq<(String, JsonValue)>)
    requires
        request_members_spec(ms) is Ok,
        request_members_written(m, request_members_spec(ms)->Ok_0),
    ensures
        member_spec(m, "id"@) == member_spec(ms, "id"@),
        member_spec(m, "method"@) == member_spec(ms, "method"@),
        member_spec(m, "params"@) == member_spec(ms, "params"@),
        forall|i: int|
            0 <= i < m.len() ==> (#[trigger] m[i].0@ == "id"@ || m[i].0@ == "method"@ || m[i].0@ == "params"@),
{
    lemma_request_round_trip(request_members_spec(ms)->Ok_0, m);
}

/// Decoding a batch keeps its length and order: element `i` of the array is
/// request `i` of the batch.
pub proof fn lemma_batch_keeps_order(items: Seq<JsonValue>)
    requires
        batch_spec(items) is Ok,
    ensures
        batch_spec(items)->Ok_0.len() == items.len(),
        forall|i: int|
            0 <= i < items.len() ==> request_spec(#[trigger] items[i]) == Ok::<RpcRequest, DecodeError>(
                batch_spec(items)->Ok_0[i],
            ),
    decreases items.len(),
{
    if items.len() > 0 {
        let tail = items.drop_first();
        lemma_batch_keeps_order(tail);
        assert forall|i: int| 0 <= i < items.len() implies request_spec(#[trigger] items[i]) == Ok::<RpcRequest, DecodeError>(
            batch_spec(items)->Ok_0[i],
        ) by {
            if i > 0 {
                assert(items[i] == tail[i - 1]);
            }
        }
    }
}

/// An error of a call. `status` is the HTTP status to answer with, where one
/// is known; it is never written into a body.
#[derive(Debug)]
pub struct RpcError {
    pub code: i64,
    pub message: String,
    pub status: Option<u16>,
}

/// The answer to one call: for a well-formed one, exactly one of `error` and
/// `result` is set.
#[derive(Debug)]
pub struct RpcResponse {
    pub id: Option<JsonValue>,
    pub error: Option<RpcError>,
    pub result: Option<JsonValue>,
}

/// An HTTP answer: its status code and body.
#[derive(Debug)]
pub struct HttpReply {
    pub status: u16,
    pub body: Vec<u8>,
}

pub const HTTP_OK: u16 = 200;
pub const HTTP_INTERNAL_SERVER_ERROR: u16 = 500;

impl RpcError {
    /// A failure with no reserved meaning.
    pub fn misc(message: String) -> (r: RpcError)
        ensures
            r == (RpcError { code: MISC_ERROR_CODE, message, status: None }),
    {
        RpcError { code: MISC_ERROR_CODE, message, status: None }
    }

    /// The answer for a method the proxy does not let through.
    pub fn method_not_allowed() -> (r: RpcError)
        ensures
            r.code == METHOD_NOT_ALLOWED_ERROR_CODE,
            r.message@ == METHOD_NOT_ALLOWED_ERROR_MESSAGE@,
            r.status is None,
    {
        RpcError {
            code: METHOD_NOT_ALLOWED_ERROR_CODE,
            message: METHOD_NOT_ALLOWED_ERROR_MESSAGE.to_owned(),
            status: None,
        }
    }
}

impl From<RpcError> for RpcResponse {
    fn from(e: RpcError) -> (r: RpcResponse) {
        RpcResponse { id: None, error: Some(e), result: None }
    }
}

impl vstd::std_specs::convert::FromSpecImpl<RpcError> for RpcResponse {
    open spec fn obeys_from_spec() -> bool {
        true
    }

    open spec fn from_spec(e: RpcError) -> RpcResponse {
        RpcResponse { id: None, error: Some(e), result: None }
    }
}

/// The status an answer goes out with: the error's own, else 500 for an
/// error, else 200.
pub open spec fn reply_status(resp: RpcResponse) -> u16 {
    match resp.error {
        Some(e) => match e.status {
            Some(s) => s,
            None => HTTP_INTERNAL_SERVER_ERROR,
        },
        None => HTTP_OK,
    }
}

/// Whether `j` is the JSON that `e` is written as: its code and message.
pub open spec fn error_written(j: JsonValue, e: RpcError) -> bool {
    &&& j matches JsonValue::Object(m)
    &&& m@.len() == 2
    &&& m@[0].0@ == "code"@
    &&& m@[0].1 == JsonValue::Number(JsonNumber::Int(e.code))
    &&& m@[1].0@ == "message"@
    &&& m@[1].1 == JsonValue::Str(e.message)
}

/// Whether `j` is the JSON that `resp` is written as: `id`, `error` and
/// `result` in that order, each `null` where it is absent.
pub open spec fn response_written(j: JsonValue, resp: RpcResponse) -> bool {
    &&& j matches JsonValue::Object(m)
    &&& m@.len() == 3
    &&& m@[0].0@ == "id"@
    &&& m@[0].1 == match resp.id {
        Some(i) => i,
        None => JsonValue::Null,
    }
    &&& m@[1].0@ == "error"@
    &&& match resp.error {
        Some(e) => error_written(m@[1].1, e),
        None => m@[1].1 == JsonValue::Null,
    }
    &&& m@[2].0@ == "result"@
    &&& m@[2].1 == match resp.result {
        Some(v) => v,
        None => JsonValue::Null,
    }
}

/// Whether `j` is the JSON array that `resps` are written as, in order.
pub open spec fn responses_written(j: JsonValue, resps: Seq<RpcResponse>) -> bool {
    &&& j matches JsonValue::Array(v)
    &&& v@.len() == resps.len()
    &&& forall|i: int| 0 <= i < resps.len() ==> response_written(#[trigger] v@[i], resps[i])
}

impl RpcResponse {
    /// The result of the call, or its error; a response with neither has the
    /// result `null`.
    pub fn into_result(self) -> (r: Result<JsonValue, RpcError>)
        ensures
            r == match self.error {
                Some(e) => Err(e),
                None => Ok(
                    match self.result {
                        Some(v) => v,
                        None => JsonValue::Null,
                    },
                ),
            },
    {
        match self.error {
            Some(e) => Err(e),
            None => match self.result {
                Some(v) => Ok(v),
                None => Ok(JsonValue::Null),
            },
        }
    }

    /// Writes the response as JSON; the error's status is not part of it.
    pub fn to_json(self) -> (r: JsonValue)
        ensures
            response_written(r, self),
    {
        let mut m: Vec<(String, JsonValue)> = Vec::new();
        m.push(
            (
                "id".to_owned(),
                match self.id {
                    Some(i) => i,
                    None => JsonValue::Null,
                },
            ),
        );
        let error = match self.error {
            Some(e) => {
                let mut em: Vec<(String, JsonValue)> = Vec::new();
                em.push(("code".to_owned(), JsonValue::Number(JsonNumber::Int(e.code))));
                em.push(("message".to_owned(), JsonValue::Str(e.message)));
                JsonValue::Object(em)
            },
            None => JsonValue::Null,
        };
        m.push(("error".to_owned(), error));
        m.push(
            (
                "result".to_owned(),
                match self.result {
                    Some(v) => v,
                    None => JsonValue::Null,
                },
            ),
        );
        JsonValue::Object(m)
    }

    /// The HTTP answer for this response: the status of `reply_status`, and
    /// the response written as JSON.
    pub fn into_response(self) -> (r: HttpReply)
        ensures
            r.status == reply_status(self),
            exists|j: JsonValue| r.body@ == printed_json(j) && response_written(j, self),
    {
        let status: u16 = match &self.error {
            Some(e) => match e.status {
                Some(s) => s,
                None => HTTP_INTERNAL_SERVER_ERROR,
            },
            None => HTTP_OK,
        };
        let j = self.to_json();
        let body = print_json(&j);
        assert(body@ == printed_json(j));
        HttpReply { status, body }
    }
}

/// Writes responses as a JSON array, in order.
pub fn responses_to_json(resps: Vec<RpcResponse>) -> (r: JsonValue)
    ensures
        responses_written(r, resps@),
{
    let ghost orig = resps@;
    let mut rest = resps;
    let mut out: Vec<JsonValue> = Vec::new();
    while rest.len() > 0
        invariant
            orig == resps@,
            orig == orig.subrange(0, out@.len() as int) + rest@,
            out@.len() <= orig.len(),
            forall|i: int| 0 <= i < out@.len() ==> response_written(#[trigger] out@[i], orig[i]),
        decreases rest.len(),
    {
        let q = rest.remove(0);
        proof {
            assert(orig.subrange(0, out@.len() as int + 1) + rest@ =~= orig);
        }
        let j = q.to_json();
        out.push(j);
    }
    JsonValue::Array(out)
}

/// `None` for an absent or `null` member, else its value.
pub open spec fn optional_member(v: Option<JsonValue>) -> Option<JsonValue> {
    match v {
        None => None,
        Some(JsonValue::Null) => None,
        Some(x) => Some(x),
    }
}

/// What an error object decodes to, given its members.
pub open spec fn error_members_spec(ms: Seq<(String, JsonValue)>) -> Result<RpcError, DecodeError> {
    match member_spec(ms, "code"@) {
        None => Err(DecodeError::MissingCode),
        Some(c) => match code_spec(c) {
            None => Err(DecodeError::InvalidMember),
            Some(code) => match member_spec(ms, "message"@) {
                None => Err(DecodeError::MissingMessage),
                Some(JsonValue::Str(m)) => Ok(RpcError { code, message: m, status: None }),
                Some(_) => Err(DecodeError::InvalidMember),
            },
        },
    }
}

/// The code a JSON value stands for, where it is an integer that fits in 64
/// signed bits.
pub open spec fn code_spec(v: JsonValue) -> Option<i64> {
    match v {
        JsonValue::Number(JsonNumber::Int(i)) => Some(i),
        JsonValue::Number(JsonNumber::UInt(u)) => if u <= i64::MAX {
            Some(u as i64)
        } else {
            None
        },
        _ => None,
    }
}

/// What a response object decodes to, given its members.
pub open spec fn response_members_spec(ms: Seq<(String, JsonValue)>) -> Result<RpcResponse, DecodeError> {
    let id = optional_member(member_spec(ms, "id"@));
    let result = optional_member(member_spec(ms, "result"@));
    match optional_member(member_spec(ms, "error"@)) {
        None => Ok(RpcResponse { id, error: None, result }),
        Some(JsonValue::Object(em)) => match error_members_spec(em@) {
            Ok(e) => Ok(RpcResponse { id, error: Some(e), result }),
            Err(e) => Err(e),
        },
        Some(_) => Err(DecodeError::InvalidMember),
    }
}

/// What one element of an array of responses decodes to.
pub open spec fn response_spec(v: JsonValue) -> Result<RpcResponse, DecodeError> {
    match v {
        JsonValue::Object(ms) => response_members_spec(ms@),
        _ => Err(DecodeError::InvalidType),
    }
}

/// What an array of responses decodes to: every response in order, or the
/// error of the first element that is not one.
pub open spec fn responses_spec(items: Seq<JsonValue>) -> Result<Seq<RpcResponse>, DecodeError>
    decreases items.len(),
{
    if items.len() == 0 {
        Ok(Seq::empty())
    } else {
        match response_spec(items[0]) {
            Err(e) => Err(e),
            Ok(q) => match responses_spec(items.drop_first()) {
                Ok(rest) => Ok(seq![q] + rest),
                Err(e) => Err(e),
            },
        }
    }
}

fn optional(v: Option<JsonValue>) -> (r: Option<JsonValue>)
    ensures
        r == optional_member(v),
{
    match v {
        None => None,
        Some(JsonValue::Null) => None,
        Some(x) => Some(x),
    }
}

/// Reads an error from an error object's members.
pub fn decode_error_members(ms: Vec<(String, JsonValue)>) -> (r: Result<RpcError, DecodeError>)
    ensures
        r == error_members_spec(ms@),
{
    let ghost orig = ms@;
    let mut ms = ms;
    let code_key = "code".to_owned();
    let message_key = "message".to_owned();
    let mut code: Option<JsonValue> = None;
    let mut message: Option<JsonValue> = None;
    while ms.len() > 0
        invariant
            code_key@ == "code"@,
            message_key@ == "message"@,
            code is Some ==> code == member_spec(orig, "code"@),
            code is None ==> member_spec(orig, "code"@) == member_spec(ms@, "code"@),
            message is Some ==> message == member_spec(orig, "message"@),
            message is None ==> member_spec(orig, "message"@) == member_spec(ms@, "message"@),
        decreases ms.len(),
    {
        let ghost before = ms@;
        let (k, v) = ms.pop().unwrap();
        proof {
            reveal_strlit("code");
            reveal_strlit("message");
            assert(before.drop_last() =~= ms@);
            assert("code"@.len() != "message"@.len());
        }
        if k == code_key {
            if code.is_none() {
                code = Some(v);
            }
        } else if k == message_key {
            if message.is_none() {
                message = Some(v);
            }
        }
    }
    match code {
        None => Err(DecodeError::MissingCode),
        Some(c) => {
            let n: Option<i64> = match c {
                JsonValue::Number(JsonNumber::Int(i)) => Some(i),
                JsonValue::Number(JsonNumber::UInt(u)) => if u <= i64::MAX as u64 {
                    Some(u as i64)
                } else {
                    None
                },
                _ => None,
            };
            match n {
                None => Err(DecodeError::InvalidMember),
                Some(code) => match message {
                    None => Err(DecodeError::MissingMessage),
                    Some(JsonValue::Str(m)) => Ok(RpcError { code, message: m, status: None }),
                    Some(_) => Err(DecodeError::InvalidMember),
                },
            }
        },
    }
}

/// Reads a response from a response object's members.
pub fn decode_response_members(ms: Vec<(String, JsonValue)>) -> (r: Result<RpcResponse, DecodeError>)
    ensures
        r == response_members_spec(ms@),
{
    let ghost orig = ms@;
    let mut ms = ms;
    let id_key = "id".to_owned();
    let error_key = "error".to_owned();
    let result_key = "result".to_owned();
    let mut id: Option<JsonValue> = None;
    let mut error: Option<JsonValue> = None;
    let mut result: Option<JsonValue> = None;
    while ms.len() > 0
        invariant
            id_key@ == "id"@,
            error_key@ == "error"@,
            result_key@ == "result"@,
            id is Some ==> id == member_spec(orig, "id"@),
            id is None ==> member_spec(orig, "id"@) == member_spec(ms@, "id"@),
            error is Some ==> error == member_spec(orig, "error"@),
            error is None ==> member_spec(orig, "error"@) == member_spec(ms@, "error"@),
            result is Some ==> result == member_spec(orig, "result"@),
            result is None ==> member_spec(orig, "result"@) == member_spec(ms@, "result"@),
        decreases ms.len(),
    {
        let ghost before = ms@;
        let (k, v) = ms.pop().unwrap();
        proof {
            reveal_strlit("id");
            reveal_strlit("error");
            reveal_strlit("result");
            assert(before.drop_last() =~= ms@);
            assert("id"@.len() != "error"@.len() && "id"@.len() != "result"@.len());
            assert("error"@[0] != "result"@[0]);
        }
        if k == id_key {
            if id.is_none() {
                id = Some(v);
            }
        } else if k == error_key {
            if error.is_none() {
                error = Some(v);
            }
        } else if k == result_key {
            if result.is_none() {
                result = Some(v);
            }
        }
    }
    let id = optional(id);
    let result = optional(result);
    match optional(error) {
        None => Ok(RpcResponse { id, error: None, result }),
        Some(JsonValue::Object(em)) => match decode_error_members(em) {
            Ok(e) => Ok(RpcResponse { id, error: Some(e), result }),
            Err(e) => Err(e),
        },
        Some(_) => Err(DecodeError::InvalidMember),
    }
}

/// Reads the elements of an array of responses, in order.
pub fn decode_response_list(elements: Vec<JsonValue>) -> (r: Result<Vec<RpcResponse>, DecodeError>)
    ensures
        match responses_spec(elements@) {
            Ok(s) => r is Ok && r->Ok_0@ == s,
            Err(e) => r == Err::<Vec<RpcResponse>, DecodeError>(e),
        },
{
    let ghost orig = elements@;
    let mut items = elements;
    let mut out: Vec<RpcResponse> = Vec::new();
    while items.len() > 0
        invariant
            orig == elements@,
            responses_spec(orig) == match responses_spec(items@) {
                Ok(rest) => Ok(out@ + rest),
                Err(e) => Err(e),
            },
        decreases items.len(),
    {
        let ghost before = items@;
        let x = items.remove(0);
        let ghost gx = x;
        proof {
            assert(before.drop_first() =~= items@);
        }
        let q = match x {
            JsonValue::Object(ms) => decode_response_members(ms),
            _ => Err(DecodeError::InvalidType),
        };
        assert(q == response_spec(gx));
        match q {
            Err(e) => {
                assert(responses_spec(before) == Err::<Seq<RpcResponse>, DecodeError>(e));
                return Err(e);
            },
            Ok(q) => {
                proof {
                    let ghost old_out = out@;
                    match responses_spec(items@) {
                        Ok(rest) => {
                            assert(old_out + (seq![q] + rest) =~= old_out.push(q) + rest);
                        },
                        Err(_) => {},
                    }
                }
                out.push(q);
            },
        }
    }
    proof {
        assert(out@ + Seq::<RpcResponse>::empty() =~= out@);
    }
    Ok(out)
}

/// Reads the body of an upstream answer to a batch: a JSON array of responses.
pub fn decode_responses(b: &[u8]) -> (r: Result<Vec<RpcResponse>, DecodeError>)
    ensures
        match parsed_json(b@) {
            None => r matches Err(DecodeError::Syntax(_)),
            Some(JsonValue::Array(items)) => match responses_spec(items@) {
                Ok(s) => r is Ok && r->Ok_0@ == s,
                Err(e) => r == Err::<Vec<RpcResponse>, DecodeError>(e),
            },
            Some(_) => r == Err::<Vec<RpcResponse>, DecodeError>(DecodeError::InvalidType),
        },
{
    match parse_json(b) {
        Err(e) => Err(DecodeError::Syntax(e)),
        Ok(JsonValue::Array(items)) => decode_response_list(items),
        Ok(_) => Err(DecodeError::InvalidType),
    }
}

/// Reads the body of an upstream answer to one call: a JSON response object.
pub fn decode_response(b: &[u8]) -> (r: Result<RpcResponse, DecodeError>)
    ensures
        match parsed_json(b@) {
            None => r matches Err(DecodeError::Syntax(_)),
            Some(JsonValue::Object(ms)) => r == response_members_spec(ms@),
            Some(_) => r == Err::<RpcResponse, DecodeError>(DecodeError::InvalidType),
        },
{
    match parse_json(b) {
        Err(e) => Err(DecodeError::Syntax(e)),
        Ok(JsonValue::Object(ms)) => decode_response_members(ms),
        Ok(_) => Err(DecodeError::InvalidType),
    }
}

/// Relies on the `Display` impl of serde_json::Error for the text of a
/// syntax error.
#[verifier::external_body]
fn json_error_text(e: &serde_json::Error) -> (r: String) {
    format!("{}", e)
}

/// The text of an error that the library itself finds; a syntax error's
/// text is serde_json's.
pub open spec fn decode_message(e: DecodeError) -> Seq<char> {
    match e {
        DecodeError::Syntax(_) => Seq::empty(),
        DecodeError::InvalidType => "invalid type: expected a JSON-RPC object"@,
        DecodeError::MethodNotString => "invalid type: `method` must be a string"@,
        DecodeError::MissingMethod => "missing field `method`"@,
        DecodeError::MissingParams => "missing field `params`"@,
        DecodeError::InvalidMember => "invalid type of a response member"@,
        DecodeError::MissingCode => "missing field `code`"@,
        DecodeError::MissingMessage => "missing field `message`"@,
    }
}

impl DecodeError {
    /// A short text of the error.
    pub fn message(&self) -> (r: String)
        ensures
            !(*self is Syntax) ==> r@ == decode_message(*self),
    {
        match self {
            DecodeError::Syntax(e) => json_error_text(e),
            DecodeError::InvalidType => "invalid type: expected a JSON-RPC object".to_owned(),
            DecodeError::MethodNotString => "invalid type: `method` must be a string".to_owned(),
            DecodeError::MissingMethod => "missing field `method`".to_owned(),
            DecodeError::MissingParams => "missing field `params`".to_owned(),
            DecodeError::InvalidMember => "invalid type of a response member".to_owned(),
            DecodeError::MissingCode => "missing field `code`".to_owned(),
            DecodeError::MissingMessage => "missing field `message`".to_owned(),
        }
    }
}

impl RpcError {
    /// The parse error reported for a body that could not be read.
    pub fn from_decode(e: DecodeError) -> (r: RpcError)
        ensures
            r.code == PARSE_ERROR_CODE,
            r.status is None,
            !(e is Syntax) ==> r.message@ == decode_message(e),
    {
        RpcError { code: PARSE_ERROR_CODE, message: e.message(), status: None }
    }
}

impl RpcResponse {
    /// Marks the error of an upstream response with the HTTP status the
    /// upstream answered with, so that it is answered with again; a response
    /// without an error is left as it is.
    pub fn with_upstream_status(self, status: u16) -> (r: RpcResponse)
        ensures
            r.id == self.id,
            r.result == self.result,
            match self.error {
                Some(e) => r.error == Some(RpcError { code: e.code, message: e.message, status: Some(status) }),
                None => r.error is None,
            },
    {
        let RpcResponse { id, error, result } = self;
        let error = match error {
            Some(e) => Some(RpcError { code: e.code, message: e.message, status: Some(status) }),
            None => None,
        };
        RpcResponse { id, error, result }
    }
}

} // verus!
