//! API errors and request parameters shared by the handlers and services.
use vstd::prelude::*;

use crate::domain::{NodeConfig, NodeSetupStatus, NodesResponse, ServerResponse};
use crate::host_api::HostApiError;
use crate::text::chars_of;

verus! {

/// An error answered to the panel: HTTP status, stable code and public message.
#[derive(Debug, Clone, PartialEq, Eq)]
pub struct ApiError {
    pub status: i32,
    pub code: &'static str,
    pub message: String,
    /// The game server an error of a node-wide operation concerns.
    pub server_name: Option<String>,
}

/// The mathematical content of an [`ApiError`].
pub struct ApiErrorView {
    pub status: i32,
    pub code: Seq<char>,
    pub message: Seq<char>,
    pub server_name: Option<Seq<char>>,
}

pub open spec fn opt_view(s: Option<String>) -> Option<Seq<char>> {
    match s {
        Some(v) => Some(v@),
        None => None,
    }
}

impl View for ApiError {
    type V = ApiErrorView;

    open spec fn view(&self) -> ApiErrorView {
        ApiErrorView {
            status: self.status,
            code: self.code@,
            message: self.message@,
            server_name: opt_view(self.server_name),
        }
    }
}

pub open spec fn error_view(status: i32, code: Seq<char>, message: Seq<char>) -> ApiErrorView {
    ApiErrorView { status, code, message, server_name: None }
}

/// An error of a node-wide operation, attributed to the game server it concerns.
pub open spec fn server_error_view(e: ApiErrorView, server_name: Seq<char>) -> ApiErrorView {
    ApiErrorView {
        status: e.status,
        code: e.code,
        message: server_name + ": "@ + e.message,
        server_name: Some(server_name),
    }
}

pub open spec fn bad_request_view(message: Seq<char>) -> ApiErrorView {
    error_view(400, "INVALID_INPUT"@, message)
}

pub open spec fn not_found_view(message: Seq<char>) -> ApiErrorView {
    error_view(404, "NOT_FOUND"@, message)
}

pub open spec fn conflict_view(message: Seq<char>) -> ApiErrorView {
    error_view(409, "CONFLICT"@, message)
}

pub open spec fn forbidden_view(message: Seq<char>) -> ApiErrorView {
    error_view(403, "FORBIDDEN"@, message)
}

pub open spec fn internal_view(message: Seq<char>) -> ApiErrorView {
    error_view(500, "INTERNAL_ERROR"@, message)
}

/// The error answered for any failed host call: it never carries host details.
pub open spec fn node_unavailable_view() -> ApiErrorView {
    error_view(
        502,
        "NODE_UNAVAILABLE"@,
        "The operation could not be completed. Check the node connection and plugin permissions."@,
    )
}

/// `r` failed with exactly the error `v`.
pub open spec fn fails_with<T>(r: Result<T, ApiError>, v: ApiErrorView) -> bool {
    r matches Err(e) && e@ == v
}

/// `r` succeeded with a string whose characters are `v`.
pub open spec fn ok_string(r: Result<String, ApiError>, v: Seq<char>) -> bool {
    r matches Ok(p) && p@ == v
}

impl ApiError {
    pub fn new(status: i32, code: &'static str, message: &str) -> (e: Self)
        ensures
            e@ == error_view(status, code@, message@),
    {
        ApiError { status, code, message: message.to_owned(), server_name: None }
    }

    /// Attributes the error to a game server: names it and prefixes the message with it.
    pub fn for_server(self, server_name: &str) -> (e: Self)
        ensures
            e@ == server_error_view(self@, server_name@),
    {
        let mut message = server_name.to_owned();
        message.append(": ");
        message.append(self.message.as_str());
        ApiError {
            status: self.status,
            code: self.code,
            message,
            server_name: Some(server_name.to_owned()),
        }
    }

    pub fn bad_request(message: &str) -> (e: Self)
        ensures
            e@ == bad_request_view(message@),
    {
        Self::new(400, "INVALID_INPUT", message)
    }

    pub fn not_found(message: &str) -> (e: Self)
        ensures
            e@ == not_found_view(message@),
    {
        Self::new(404, "NOT_FOUND", message)
    }

    pub fn conflict(message: &str) -> (e: Self)
        ensures
            e@ == conflict_view(message@),
    {
        Self::new(409, "CONFLICT", message)
    }

    pub fn forbidden(message: &str) -> (e: Self)
        ensures
            e@ == forbidden_view(message@),
    {
        Self::new(403, "FORBIDDEN", message)
    }

    pub fn internal(message: &str) -> (e: Self)
        ensures
            e@ == internal_view(message@),
    {
        Self::new(500, "INTERNAL_ERROR", message)
    }

    /// The public error for a failed host call; the host's own message is dropped.
    pub fn from_host(error: HostApiError) -> (e: Self)
        ensures
            e@ == node_unavailable_view(),
    {
        Self::new(
            502,
            "NODE_UNAVAILABLE",
            "The operation could not be completed. Check the node connection and plugin permissions.",
        )
    }
}

/// Request bodies above this size are refused before decoding.
pub const MAX_REQUEST_BODY_SIZE: usize = 16384;

pub open spec fn body_too_large_view() -> ApiErrorView {
    bad_request_view("Request body too large"@)
}

pub open spec fn invalid_body_view() -> ApiErrorView {
    bad_request_view("Invalid request body"@)
}

/// A body is decoded only when it is at most [`MAX_REQUEST_BODY_SIZE`] bytes long.
pub fn check_body_size(len: usize) -> (r: Result<(), ApiError>)
    ensures
        r is Ok <==> len <= MAX_REQUEST_BODY_SIZE,
        r is Err ==> fails_with(r, body_too_large_view()),
{
    if len > MAX_REQUEST_BODY_SIZE {
        Err(ApiError::bad_request("Request body too large"))
    } else {
        Ok(())
    }
}

/// The error for a body that is not the JSON document its route expects.
pub fn invalid_body() -> (e: ApiError)
    ensures
        e@ == invalid_body_view(),
{
    ApiError::bad_request("Invalid request body")
}

/// Headers of every JSON reply: its media type, and no caching.
pub fn json_headers() -> (r: Vec<(String, String)>)
    ensures
        r@.len() == 2,
        r@[0].0@ == "Content-Type"@ && r@[0].1@ == "application/json"@,
        r@[1].0@ == "Cache-Control"@ && r@[1].1@ == "no-store"@,
{
    vec![
        ("Content-Type".to_owned(), "application/json".to_owned()),
        ("Cache-Control".to_owned(), "no-store".to_owned()),
    ]
}

/// What a handler answers: an HTTP status and a typed JSON body.
#[derive(Debug)]
pub enum ReplyBody {
    Nodes(NodesResponse),
    SetupStatus(NodeSetupStatus),
    NodeConfig(NodeConfig),
    /// `{"synced": true}`.
    Synced,
    Server(ServerResponse),
    /// `{"configured": true, "configuration": [...]}`.
    Configured(Vec<String>),
}

#[derive(Debug)]
pub struct Reply {
    pub status: i32,
    pub body: ReplyBody,
}

pub type ApiResult = Result<Reply, ApiError>;

/// Route parameters captured from a path: (name, value) pairs in path order.
pub type Params = Vec<(String, String)>;

pub open spec fn params_view(params: Seq<(String, String)>) -> Seq<(Seq<char>, Seq<char>)> {
    params.map_values(|p: (String, String)| (p.0@, p.1@))
}

/// The value bound to `key`; a later binding replaces an earlier one.
pub open spec fn param_value(params: Seq<(Seq<char>, Seq<char>)>, key: Seq<char>) -> Option<
    Seq<char>,
>
    decreases params.len(),
{
    if params.len() == 0 {
        None
    } else if params.last().0 == key {
        Some(params.last().1)
    } else {
        param_value(params.drop_last(), key)
    }
}

pub open spec fn is_digit(c: char) -> bool {
    '0' <= c && c <= '9'
}

/// Value of a string of decimal digits.
pub open spec fn decimal_value(s: Seq<char>) -> nat
    decreases s.len(),
{
    if s.len() == 0 {
        0
    } else {
        decimal_value(s.drop_last()) * 10 + ((s.last() as nat) - ('0' as nat)) as nat
    }
}

/// The digits of a number: the text after an optional leading `+`.
pub open spec fn number_digits(s: Seq<char>) -> Seq<char> {
    if s.len() > 0 && s[0] == '+' {
        s.drop_first()
    } else {
        s
    }
}

pub open spec fn all_digits(s: Seq<char>) -> bool {
    forall|i: int| 0 <= i < s.len() ==> is_digit(#[trigger] s[i])
}

/// `u64::from_str`: an optional `+`, at least one decimal digit, and no overflow.
pub open spec fn parse_u64(s: Seq<char>) -> Option<u64> {
    if number_digits(s).len() > 0 && all_digits(number_digits(s)) && decimal_value(
        number_digits(s),
    ) <= u64::MAX {
        Some(decimal_value(number_digits(s)) as u64)
    } else {
        None
    }
}

pub open spec fn entity_param(params: Seq<(Seq<char>, Seq<char>)>, key: Seq<char>) -> Option<u64> {
    match param_value(params, key) {
        Some(v) => match parse_u64(v) {
            Some(id) => if id != 0 {
                Some(id)
            } else {
                None
            },
            None => None,
        },
        None => None,
    }
}

proof fn lemma_decimal_step(prefix: Seq<char>, c: char)
    requires
        is_digit(c),
    ensures
        decimal_value(prefix.push(c)) == decimal_value(prefix) * 10 + ((c as nat) - ('0' as nat)),
{
    assert(prefix.push(c).drop_last() == prefix);
}

/// Parses a decimal string as `u64::from_str` does.
pub fn parse_u64_str(value: &str) -> (r: Option<u64>)
    ensures
        r == parse_u64(value@),
{
    let chars = chars_of(value);
    let start: usize = if chars.len() > 0 && chars[0] == '+' {
        1
    } else {
        0
    };
    let ghost digits = if chars@.len() > 0 && chars@[0] == '+' {
        chars@.drop_first()
    } else {
        chars@
    };
    assert(digits == chars@.subrange(start as int, chars@.len() as int));
    if start >= chars.len() {
        return None;
    }
    let mut acc: u64 = 0;
    let mut i: usize = start;
    while i < chars.len()
        invariant
            start <= i <= chars.len(),
            chars@ == value@,
            digits == number_digits(value@),
            digits == chars@.subrange(start as int, chars@.len() as int),
            forall|j: int| start <= j < i ==> is_digit(#[trigger] chars@[j]),
            acc as nat == decimal_value(chars@.subrange(start as int, i as int)),
        decreases chars.len() - i,
    {
        let c = chars[i];
        if !('0' <= c && c <= '9') {
            assert(!is_digit(digits[i - start]));
            return None;
        }
        let d: u64 = ((c as u32) - ('0' as u32)) as u64;
        proof {
            lemma_decimal_step(chars@.subrange(start as int, i as int), c);
            assert(chars@.subrange(start as int, i + 1) == chars@.subrange(start as int, i as int).push(c));
        }
        if acc > (u64::MAX - d) / 10 {
            proof {
                let p = chars@.subrange(start as int, i + 1);
                assert(acc * 10 + d > u64::MAX) by (nonlinear_arith)
                    requires
                        acc > (u64::MAX - d) / 10,
                        d <= 9,
                ;
                // every longer digit string is at least as large
                lemma_decimal_monotone(chars@.subrange(start as int, chars@.len() as int), (i + 1 - start) as int);
                assert(chars@.subrange(start as int, chars@.len() as int).subrange(0, i + 1 - start) == p);
            }
            return None;
        }
        assert(acc * 10 + d <= u64::MAX) by (nonlinear_arith)
            requires
                acc <= (u64::MAX - d) / 10,
                d <= 9,
        ;
        acc = acc * 10 + d;
        i = i + 1;
    }
    assert(chars@.subrange(start as int, chars@.len() as int) == digits);
    Some(acc)
}

/// A digit string's value is at least the value of each of its prefixes.
proof fn lemma_decimal_monotone(s: Seq<char>, k: int)
    requires
        0 <= k <= s.len(),
    ensures
        decimal_value(s.subrange(0, k)) <= decimal_value(s),
    decreases s.len() - k,
{
    if k < s.len() {
        lemma_decimal_monotone(s, k + 1);
        assert(s.subrange(0, k + 1).drop_last() == s.subrange(0, k));
        let v = decimal_value(s.subrange(0, k));
        assert(v <= v * 10) by (nonlinear_arith);
    } else {
        assert(s.subrange(0, k) == s);
    }
}

/// The value of `key` in `params`, if present.
pub fn param<'a>(params: &'a Params, key: &str) -> (r: Option<&'a String>)
    ensures
        r matches Some(v) ==> param_value(params_view(params@), key@) == Some(v@),
        r is None ==> param_value(params_view(params@), key@) is None,
{
    let key_chars = chars_of(key);
    let mut i: usize = params.len();
    assert(params@.subrange(0, params@.len() as int) == params@);
    while i > 0
        invariant
            i <= params.len(),
            key_chars@ == key@,
            param_value(params_view(params@), key@) == param_value(
                params_view(params@.subrange(0, i as int)),
                key@,
            ),
        decreases i,
    {
        let ghost pv = params_view(params@.subrange(0, i as int));
        assert(pv.last() == (params@[i - 1].0@, params@[i - 1].1@));
        assert(pv.drop_last() == params_view(params@.subrange(0, i - 1)));
        let name = chars_of(params[i - 1].0.as_str());
        if crate::text::eq_chars(&name, &key_chars) {
            return Some(&params[i - 1].1);
        }
        i = i - 1;
    }
    None
}

/// A positive entity ID from the route parameters.
pub fn parse_u64_param(params: &Params, key: &str) -> (r: Result<u64, ApiError>)
    ensures
        entity_param(params_view(params@), key@) matches Some(id) ==> r == Ok::<u64, ApiError>(id),
        entity_param(params_view(params@), key@) is None ==> fails_with(
            r,
            bad_request_view("Invalid entity reference"@),
        ),
{
    match param(params, key) {
        Some(value) => match parse_u64_str(value.as_str()) {
            Some(id) => if id != 0 {
                Ok(id)
            } else {
                Err(ApiError::bad_request("Invalid entity reference"))
            },
            None => Err(ApiError::bad_request("Invalid entity reference")),
        },
        None => Err(ApiError::bad_request("Invalid entity reference")),
    }
}

} // verus!
