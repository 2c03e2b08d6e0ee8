//! The OpenAI-compatible API surface, independent of the HTTP server: request
//! validation, authorization, session keys, completion ids and the streamed
//! (server-sent events) form of a reply.

use vstd::prelude::*;

use crate::text::{chars_of, dec_int, fmt_i64, json_quote, json_quoted, push_chars, push_str, str_eq, string_from};

verus! {

/// The session of API requests that name none.
pub const API_SESSION_KEY: &'static str = "api:default";

/// An API error with its HTTP status.
pub struct ApiError {
    pub status: u16,
    pub message: String,
    pub err_type: String,
}

impl ApiError {
    /// An `invalid_request_error` with this status and message.
    pub fn invalid_request(status: u16, message: String) -> (e: Self)
        ensures
            e.status == status,
            e.message == message,
            e.err_type@ == "invalid_request_error"@,
    {
        ApiError { status, message, err_type: "invalid_request_error".to_owned() }
    }
}

/// A validated chat request.
pub struct ParsedChatRequest {
    pub text: String,
    pub model: Option<String>,
    pub stream: bool,
}

/// A part of a multi-part message content.
pub struct ContentPart {
    /// Its `type`, when that is a string.
    pub part_type: Option<String>,
    /// Its `text`, when that is a string.
    pub text: Option<String>,
}

/// A message's `content`.
pub enum MessageContent {
    Text(String),
    Parts(Vec<ContentPart>),
    /// Absent, or neither a string nor an array.
    Other,
}

/// A request message.
pub struct RequestMessage {
    /// Its `role`, when that is a string.
    pub role: Option<String>,
    pub content: MessageContent,
}

/// The texts of the parts of type `text`, concatenated.
pub open spec fn parts_text(p: Seq<ContentPart>) -> Seq<char>
    decreases p.len(),
{
    if p.len() == 0 {
        Seq::empty()
    } else {
        let last = p.last();
        let t = match (last.part_type, last.text) {
            (Some(ty), Some(tx)) => if ty@ == "text"@ { tx@ } else { Seq::<char>::empty() },
            _ => Seq::<char>::empty(),
        };
        parts_text(p.drop_last()) + t
    }
}

/// The text of a message's content.
pub open spec fn content_text(c: MessageContent) -> Seq<char> {
    match c {
        MessageContent::Text(s) => s@,
        MessageContent::Parts(p) => parts_text(p@),
        MessageContent::Other => Seq::empty(),
    }
}

fn extract_text(content: &MessageContent) -> (r: String)
    ensures
        r@ == content_text(*content),
{
    match content {
        MessageContent::Text(s) => s.clone(),
        MessageContent::Parts(parts) => {
            let mut out: Vec<char> = Vec::new();
            let mut i: usize = 0;
            while i < parts.len()
                invariant
                    i <= parts@.len(),
                    out@ == parts_text(parts@.subrange(0, i as int)),
                decreases parts@.len() - i,
            {
                let p = &parts[i];
                match (&p.part_type, &p.text) {
                    (Some(ty), Some(tx)) => {
                        if str_eq(ty.as_str(), "text") {
                            push_str(&mut out, tx.as_str());
                        }
                    },
                    _ => {},
                }
                proof {
                    assert(parts@.subrange(0, i + 1).drop_last() =~= parts@.subrange(0, i as int));
                }
                i = i + 1;
            }
            assert(parts@.subrange(0, parts@.len() as int) =~= parts@);
            string_from(&out)
        },
        MessageContent::Other => String::new(),
    }
}

/// Whether the request is a single message with role `user`.
pub open spec fn single_user(messages: Option<Seq<RequestMessage>>) -> bool {
    match messages {
        Some(m) => m.len() == 1 && (m[0].role matches Some(r) && r@ == "user"@),
        None => false,
    }
}

/// Validates a chat request (`messages`, when an array; `model`, when a string;
/// `stream`, when a boolean): exactly one message, from the user, whose text (a
/// string, or the text parts) is extracted.
pub fn parse_chat_request(messages: Option<Vec<RequestMessage>>, model: Option<String>, stream: Option<bool>) -> (r: Result<ParsedChatRequest, ApiError>)
    ensures
        r is Ok <==> single_user(match messages { Some(m) => Some(m@), None => None }),
        match r {
            Ok(p) => p.text@ == content_text(messages.unwrap()@[0].content) && p.model == model
                && p.stream == match stream { Some(b) => b, None => false },
            Err(e) => e.status == 400 && e.message@ == "Only a single user message is supported"@
                && e.err_type@ == "invalid_request_error"@,
        },
{
    let single = match &messages {
        Some(list) => {
            if list.len() == 1 {
                &list[0]
            } else {
                return Err(ApiError::invalid_request(400, "Only a single user message is supported".to_owned()));
            }
        },
        None => {
            return Err(ApiError::invalid_request(400, "Only a single user message is supported".to_owned()));
        },
    };
    let is_user = match &single.role {
        Some(role) => str_eq(role.as_str(), "user"),
        None => false,
    };
    if !is_user {
        return Err(ApiError::invalid_request(400, "Only a single user message is supported".to_owned()));
    }
    let text = extract_text(&single.content);
    let stream = match stream {
        Some(b) => b,
        None => false,
    };
    Ok(ParsedChatRequest { text, model, stream })
}

/// Refuses (400) a request for a model other than the configured one.
pub fn validate_model(request_model: Option<&str>, configured: &str) -> (r: Result<(), ApiError>)
    ensures
        r is Err <==> (request_model matches Some(m) && m@ != configured@),
        match r {
            Err(e) => e.status == 400 && e.err_type@ == "invalid_request_error"@
                && e.message@ == "model '"@ + request_model.unwrap()@ + "' is not available"@,
            Ok(_) => true,
        },
{
    match request_model {
        Some(model) => {
            if !str_eq(model, configured) {
                let mut m = String::new();
                m.append("model '");
                m.append(model);
                m.append("' is not available");
                return Err(ApiError::invalid_request(400, m));
            }
            Ok(())
        },
        None => Ok(()),
    }
}

/// The authorization failure of a request, if any: without a (non-empty) configured
/// key none; with one, a missing header or one other than `Bearer <key>` fails.
pub open spec fn auth_error(configured_key: Option<Seq<char>>, auth_header: Option<Seq<char>>) -> Option<Seq<char>> {
    match configured_key {
        Some(k) => if k.len() == 0 {
            None
        } else {
            match auth_header {
                None => Some("Missing Authorization header. Use: Bearer <api_key>"@),
                Some(h) => if h == "Bearer "@ + k { None } else { Some("Invalid API key"@) },
            }
        },
        None => None,
    }
}

/// Authorization: without a (non-empty) configured key everything passes; with one
/// the header must be `Bearer <key>`, else 401.
pub fn authorize(configured_key: Option<&str>, auth_header: Option<&str>) -> (r: Result<(), ApiError>)
    ensures
        match auth_error(crate::paths::opt_str(configured_key), crate::paths::opt_str(auth_header)) {
            None => r is Ok,
            Some(m) => r matches Err(e) && e.status == 401 && e.message@ == m
                && e.err_type@ == "invalid_request_error"@,
        },
{
    let key = match configured_key {
        Some(k) => {
            if k.is_empty() {
                return Ok(());
            }
            k
        },
        None => {
            return Ok(());
        },
    };
    let header = match auth_header {
        Some(h) => h,
        None => {
            return Err(ApiError::invalid_request(401, "Missing Authorization header. Use: Bearer <api_key>".to_owned()));
        },
    };
    let mut expected: Vec<char> = Vec::new();
    push_str(&mut expected, "Bearer ");
    push_str(&mut expected, key);
    let hc = chars_of(header);
    if crate::text::eq_chars(&hc, &expected) {
        Ok(())
    } else {
        Err(ApiError::invalid_request(401, "Invalid API key".to_owned()))
    }
}

/// The session of an API request: `api:<id>` for a non-empty id, else
/// [`API_SESSION_KEY`].
pub fn api_session_key(session_id: Option<&str>) -> (r: String)
    ensures
        r@ == match session_id {
            Some(id) => if id@.len() > 0 { "api:"@ + id@ } else { API_SESSION_KEY@ },
            None => API_SESSION_KEY@,
        },
{
    match session_id {
        Some(id) => {
            if id.is_empty() {
                API_SESSION_KEY.to_owned()
            } else {
                let mut s = String::new();
                s.append("api:");
                s.append(id);
                s
            }
        },
        None => API_SESSION_KEY.to_owned(),
    }
}

/// Lowercase hexadecimal digit `d` (below 16).
pub open spec fn hex_digit(d: nat) -> char {
    if d < 10 { ((d + 48) as u8) as char } else { ((d + 87) as u8) as char }
}

/// `n` in `k` lowercase hexadecimal digits, zero-padded (the low `k` digits).
pub open spec fn hex_fixed(n: nat, k: nat) -> Seq<char>
    decreases k,
{
    if k == 0 {
        Seq::empty()
    } else {
        hex_fixed(n / 16, (k - 1) as nat).push(hex_digit(n % 16))
    }
}

/// Nanoseconds since the epoch from the system clock (zero for a clock before the
/// epoch). It depends on the time, so nothing is stated of it.
#[verifier::external_body]
fn clock_nanos() -> (r: u128) {
    match std::time::SystemTime::now().duration_since(std::time::UNIX_EPOCH) {
        Ok(d) => d.as_nanos(),
        Err(_) => 0,
    }
}

/// Seconds since the epoch from the system clock (zero for a clock before the epoch).
/// It depends on the time, so nothing is stated of it.
#[verifier::external_body]
fn clock_seconds() -> (r: i64) {
    match std::time::SystemTime::now().duration_since(std::time::UNIX_EPOCH) {
        Ok(d) => d.as_secs() as i64,
        Err(_) => 0,
    }
}

fn hex12(n: u64) -> (r: Vec<char>)
    requires
        n < 0x1000000000000,
    ensures
        r@ == hex_fixed(n as nat, 12),
{
    let mut digits: Vec<char> = Vec::new();
    let mut m: u64 = n;
    let mut k: usize = 0;
    while k < 12
        invariant
            k <= 12,
            digits@.len() == k,
            hex_fixed(n as nat, 12) == hex_fixed(m as nat, (12 - k) as nat) + digits@,
        decreases 12 - k,
    {
        let d = m % 16;
        let c: char = if d < 10 { ((d + 48) as u8) as char } else { ((d + 87) as u8) as char };
        proof {
            assert(hex_fixed(m as nat, (12 - k) as nat) == hex_fixed((m / 16) as nat, (12 - k - 1) as nat).push(hex_digit((m % 16) as nat)));
        }
        let ghost old_digits = digits@;
        digits.insert(0, c);
        assert(digits@ =~= seq![c] + old_digits);
        assert(hex_fixed(n as nat, 12) =~= hex_fixed((m / 16) as nat, (12 - k - 1) as nat) + digits@);
        m = m / 16;
        k = k + 1;
    }
    assert(hex_fixed(m as nat, 0) =~= Seq::<char>::empty());
    assert(hex_fixed(n as nat, 12) =~= digits@);
    digits
}

/// A fresh completion id: `chatcmpl-` and twelve hexadecimal digits of the clock's
/// nanoseconds.
pub fn generate_completion_id() -> (r: String)
    ensures
        exists|n: nat| n < 0x1000000000000 && r@ == "chatcmpl-"@ + hex_fixed(n, 12),
{
    let nanos = clock_nanos();
    let low = (nanos & 0xffff_ffff_ffff) as u64;
    assert(low < 0x1000000000000) by (bit_vector)
        requires low == (nanos & 0xffff_ffff_ffff) as u64;
    let h = hex12(low);
    let mut out: Vec<char> = Vec::new();
    push_str(&mut out, "chatcmpl-");
    push_chars(&mut out, &h);
    string_from(&out)
}

/// The JSON of a streamed chunk, with the keys in order as `serde_json` writes an
/// object.
pub open spec fn chunk_json(delta: Seq<char>, model: Seq<char>, id: Seq<char>, finish: Option<Seq<char>>, created: i64) -> Seq<char> {
    let d = if delta.len() == 0 { "{}"@ } else { "{\"content\":"@ + json_quoted(delta) + "}"@ };
    let f = match finish {
        None => "null"@,
        Some(x) => json_quoted(x),
    };
    "{\"choices\":[{\"delta\":"@ + d + ",\"finish_reason\":"@ + f + ",\"index\":0}],\"created\":"@
        + dec_int(created as int) + ",\"id\":"@ + json_quoted(id) + ",\"model\":"@ + json_quoted(model)
        + ",\"object\":\"chat.completion.chunk\"}"@
}

/// A server-sent event carrying a chunk.
pub open spec fn sse_event(delta: Seq<char>, model: Seq<char>, id: Seq<char>, finish: Option<Seq<char>>, created: i64) -> Seq<char> {
    "data: "@ + chunk_json(delta, model, id, finish, created) + "\n\n"@
}

fn sse_chunk_at(delta: &str, model: &str, chunk_id: &str, finish_reason: Option<&str>, created: i64) -> (r: String)
    ensures
        r@ == sse_event(delta@, model@, chunk_id@, crate::paths::opt_str(finish_reason), created),
{
    let mut out = String::new();
    out.append("data: ");
    out.append("{\"choices\":[{\"delta\":");
    if delta.is_empty() {
        out.append("{}");
    } else {
        out.append("{\"content\":");
        out.append(json_quote(delta).as_str());
        out.append("}");
    }
    out.append(",\"finish_reason\":");
    match finish_reason {
        None => out.append("null"),
        Some(f) => out.append(json_quote(f).as_str()),
    }
    out.append(",\"index\":0}],\"created\":");
    let c = fmt_i64(created);
    let cs = string_from(&c);
    out.append(cs.as_str());
    out.append(",\"id\":");
    out.append(json_quote(chunk_id).as_str());
    out.append(",\"model\":");
    out.append(json_quote(model).as_str());
    out.append(",\"object\":\"chat.completion.chunk\"}");
    out.append("\n\n");
    proof {
        assert(out@ =~= sse_event(delta@, model@, chunk_id@, crate::paths::opt_str(finish_reason), created));
    }
    out
}

/// The streamed form of a reply: one chunk with the content, a final chunk with
/// `finish_reason` `stop`, then `data: [DONE]`.
pub fn sse_chunks(content: &str, model: &str, chunk_id: &str) -> (r: Vec<String>)
    ensures
        r@.len() == 3,
        exists|t: i64| r@[0]@ == #[trigger] sse_event(content@, model@, chunk_id@, None, t),
        exists|t: i64| r@[1]@ == #[trigger] sse_event(Seq::empty(), model@, chunk_id@, Some("stop"@), t),
        r@[2]@ == "data: [DONE]\n\n"@,
{
    let mut v: Vec<String> = Vec::new();
    let t0 = clock_seconds();
    v.push(sse_chunk_at(content, model, chunk_id, None, t0));
    let t1 = clock_seconds();
    let last = sse_chunk_at("", model, chunk_id, Some("stop"), t1);
    proof {
        reveal_strlit("");
        assert(""@ =~= Seq::<char>::empty());
    }
    v.push(last);
    v.push("data: [DONE]\n\n".to_owned());
    v
}

/// The JSON of an error body: `{"error":{"code":..,"message":..,"type":..}}`.
pub open spec fn error_body_spec(status: u16, message: Seq<char>, err_type: Seq<char>) -> Seq<char> {
    "{\"error\":{\"code\":"@ + dec_int(status as int) + ",\"message\":"@ + json_quoted(message)
        + ",\"type\":"@ + json_quoted(err_type) + "}}"@
}

/// The OpenAI error body.
pub fn error_body(status: u16, message: &str, err_type: &str) -> (r: String)
    ensures
        r@ == error_body_spec(status, message@, err_type@),
{
    let mut out = String::new();
    out.append("{\"error\":{\"code\":");
    let c = fmt_i64(status as i64);
    out.append(string_from(&c).as_str());
    out.append(",\"message\":");
    out.append(json_quote(message).as_str());
    out.append(",\"type\":");
    out.append(json_quote(err_type).as_str());
    out.append("}}");
    out
}

impl ApiError {
    /// The error as an OpenAI error body.
    pub fn body(&self) -> (r: String)
        ensures
            r@ == error_body_spec(self.status, self.message@, self.err_type@),
    {
        error_body(self.status, self.message.as_str(), self.err_type.as_str())
    }
}

/// The JSON of the model list: the one configured model.
pub open spec fn models_spec(model: Seq<char>) -> Seq<char> {
    "{\"data\":[{\"created\":0,\"id\":"@ + json_quoted(model)
        + ",\"object\":\"model\",\"owned_by\":\"nanobot\"}],\"object\":\"list\"}"@
}

/// The `/v1/models` body.
pub fn models_response(model: &str) -> (r: String)
    ensures
        r@ == models_spec(model@),
{
    let mut out = String::new();
    out.append("{\"data\":[{\"created\":0,\"id\":");
    out.append(json_quote(model).as_str());
    out.append(",\"object\":\"model\",\"owned_by\":\"nanobot\"}],\"object\":\"list\"}");
    out
}

/// The value of the counter named `k`, zero when absent.
pub open spec fn counter(usage: Seq<(String, i64)>, k: Seq<char>) -> i64
    decreases usage.len(),
{
    if usage.len() == 0 {
        0
    } else if usage[0].0@ == k {
        usage[0].1
    } else {
        counter(usage.drop_first(), k)
    }
}

fn counter_of(usage: &Vec<(String, i64)>, k: &str) -> (r: i64)
    ensures
        r == counter(usage@, k@),
{
    let mut i: usize = 0;
    assert(usage@.subrange(0, usage@.len() as int) =~= usage@);
    while i < usage.len()
        invariant
            i <= usage@.len(),
            counter(usage@, k@) == counter(usage@.subrange(i as int, usage@.len() as int), k@),
        decreases usage@.len() - i,
    {
        let ghost rest = usage@.subrange(i as int, usage@.len() as int);
        assert(rest[0] == usage@[i as int]);
        if str_eq(usage[i].0.as_str(), k) {
            return usage[i].1;
        }
        assert(rest.drop_first() =~= usage@.subrange(i + 1, usage@.len() as int));
        i = i + 1;
    }
    0
}

/// The total tokens reported: `total_tokens` when non-zero, else prompt plus completion.
pub open spec fn total_tokens(usage: Seq<(String, i64)>) -> int {
    let t = counter(usage, "total_tokens"@);
    if t != 0 { t as int } else { counter(usage, "prompt_tokens"@) + counter(usage, "completion_tokens"@) }
}

/// The JSON of a (non-streamed) chat completion.
pub open spec fn completion_spec(content: Seq<char>, model: Seq<char>, id: Seq<char>, created: i64, usage: Seq<(String, i64)>) -> Seq<char> {
    "{\"choices\":[{\"finish_reason\":\"stop\",\"index\":0,\"message\":{\"content\":"@ + json_quoted(content)
        + ",\"role\":\"assistant\"}}],\"created\":"@ + dec_int(created as int) + ",\"id\":"@ + json_quoted(id)
        + ",\"model\":"@ + json_quoted(model) + ",\"object\":\"chat.completion\",\"usage\":{\"completion_tokens\":"@
        + dec_int(counter(usage, "completion_tokens"@) as int) + ",\"prompt_tokens\":"@
        + dec_int(counter(usage, "prompt_tokens"@) as int) + ",\"total_tokens\":"@ + dec_int(total_tokens(usage)) + "}}"@
}

/// A chat completion body for `content`, with a fresh id and the current time.
pub fn chat_completion_response(content: &str, model: &str, usage: &Vec<(String, i64)>) -> (r: String)
    requires
        i64::MIN <= counter(usage@, "prompt_tokens"@) + counter(usage@, "completion_tokens"@) <= i64::MAX,
    ensures
        exists|id: Seq<char>, t: i64| r@ == #[trigger] completion_spec(content@, model@, id, t, usage@),
{
    let prompt = counter_of(usage, "prompt_tokens");
    let completion = counter_of(usage, "completion_tokens");
    let t = counter_of(usage, "total_tokens");
    let total = if t != 0 { t } else { prompt + completion };
    let id = generate_completion_id();
    let created = clock_seconds();
    let mut out = String::new();
    out.append("{\"choices\":[{\"finish_reason\":\"stop\",\"index\":0,\"message\":{\"content\":");
    out.append(json_quote(content).as_str());
    out.append(",\"role\":\"assistant\"}}],\"created\":");
    out.append(string_from(&fmt_i64(created)).as_str());
    out.append(",\"id\":");
    out.append(json_quote(id.as_str()).as_str());
    out.append(",\"model\":");
    out.append(json_quote(model).as_str());
    out.append(",\"object\":\"chat.completion\",\"usage\":{\"completion_tokens\":");
    out.append(string_from(&fmt_i64(completion)).as_str());
    out.append(",\"prompt_tokens\":");
    out.append(string_from(&fmt_i64(prompt)).as_str());
    out.append(",\"total_tokens\":");
    out.append(string_from(&fmt_i64(total)).as_str());
    out.append("}}");
    proof {
        assert(out@ =~= completion_spec(content@, model@, id@, created, usage@));
    }
    out
}

/// The server's settings: the model it reports and checks, and its optional key.
pub struct ServerConfig {
    pub model: String,
    pub api_key: Option<String>,
}

/// A chat backend failure (answered with 500).
pub struct ChatRunError(pub String);

/// Runs chats for the server: the session key and the user's text in, the final
/// reply out.
pub trait ChatRunner {
    /// Whether `outcome` (the reply text, or the failure's message) is a possible
    /// outcome of running `text` in the session `session_key`; a runner that states
    /// nothing of its outcomes leaves every one possible.
    open spec fn replies(&self, session_key: Seq<char>, text: Seq<char>, outcome: Result<Seq<char>, Seq<char>>) -> bool {
        true
    }

    fn run(&mut self, session_key: &str, text: &str) -> (r: Result<String, ChatRunError>)
        ensures
            old(self).replies(session_key@, text@, run_outcome(&r));
}

/// The outcome of a run as plain text: the reply, or the failure's message.
pub open spec fn run_outcome(r: &Result<String, ChatRunError>) -> Result<Seq<char>, Seq<char>> {
    match r {
        Ok(c) => Ok(c@),
        Err(e) => Err(e.0@),
    }
}

/// Whether `body` is the chat completion of `content` without usage, with some id and
/// creation time.
pub open spec fn completion_of(body: Seq<char>, content: Seq<char>, model: Seq<char>) -> bool {
    exists|id: Seq<char>, t: i64| body == #[trigger] completion_spec(content, model, id, t, Seq::empty())
}

/// Whether `r` is the server's answer to a chat whose run had `outcome`: the
/// completion of the reply (with some id and time), or 500.
pub open spec fn answers_outcome(r: HttpReply, outcome: Result<Seq<char>, Seq<char>>, model: Seq<char>) -> bool {
    &&& !r.event_stream
    &&& match outcome {
        Ok(c) => r.status == 200 && completion_of(r.body@, c, model),
        Err(_) => r.status == 500 && r.body@ == error_body_spec(500, "Internal server error"@, "server_error"@),
    }
}

/// What the server answers: a status and a body.
pub struct HttpReply {
    pub status: u16,
    pub body: String,
    /// Whether the body is a stream of server-sent events.
    pub event_stream: bool,
}

/// The endpoints of the server.
#[derive(PartialEq, Eq, Structural, Clone, Copy, Debug)]
pub enum Endpoint {
    Health,
    Models,
    ChatCompletions,
    NotFound,
}

/// The endpoint of a request: `GET /health`, `GET /v1/models`,
/// `POST /v1/chat/completions` (the query string ignored), else none.
pub open spec fn endpoint_spec(method: Seq<char>, url: Seq<char>) -> Endpoint {
    let path = match crate::text::split_once(url, '?') {
        Some((p, _)) => p,
        None => url,
    };
    if method == "GET"@ && path == "/health"@ {
        Endpoint::Health
    } else if method == "GET"@ && path == "/v1/models"@ {
        Endpoint::Models
    } else if method == "POST"@ && path == "/v1/chat/completions"@ {
        Endpoint::ChatCompletions
    } else {
        Endpoint::NotFound
    }
}

/// The endpoint a request goes to.
pub fn endpoint(method: &str, url: &str) -> (r: Endpoint)
    ensures
        r == endpoint_spec(method@, url@),
{
    let u = chars_of(url);
    let path = match crate::text::split_once_char(&u, '?') {
        Some((p, _)) => p,
        None => u,
    };
    let m = chars_of(method);
    if crate::text::eq_str(&m, "GET") && crate::text::eq_str(&path, "/health") {
        Endpoint::Health
    } else if crate::text::eq_str(&m, "GET") && crate::text::eq_str(&path, "/v1/models") {
        Endpoint::Models
    } else if crate::text::eq_str(&m, "POST") && crate::text::eq_str(&path, "/v1/chat/completions") {
        Endpoint::ChatCompletions
    } else {
        Endpoint::NotFound
    }
}

/// The reply of `GET /v1/models`: the model list, or the authorization error.
pub fn handle_models(config: &ServerConfig, auth_header: Option<&str>) -> (r: HttpReply)
    ensures
        !r.event_stream,
        match auth_error(crate::bus::opt_view(config.api_key), crate::paths::opt_str(auth_header)) {
            None => r.status == 200 && r.body@ == models_spec(config.model@),
            Some(m) => r.status == 401 && r.body@ == error_body_spec(401, m, "invalid_request_error"@),
        },
{
    let key: Option<&str> = match &config.api_key {
        Some(k) => Some(k.as_str()),
        None => None,
    };
    match authorize(key, auth_header) {
        Err(e) => HttpReply { status: e.status, body: e.body(), event_stream: false },
        Ok(_) => HttpReply { status: 200, body: models_response(config.model.as_str()), event_stream: false },
    }
}

/// The fields of a chat request body that the server reads.
pub struct ChatRequestBody {
    /// `messages`, when an array.
    pub messages: Option<Vec<RequestMessage>>,
    /// `model`, when a string.
    pub model: Option<String>,
    /// `stream`, when a boolean.
    pub stream: Option<bool>,
    /// `session_id`, when a string.
    pub session_id: Option<String>,
}

/// What the server does with a chat request.
pub enum ChatPlan {
    /// Answer at once (a refusal).
    Reply(HttpReply),
    /// Run the chat for this session and text, streamed or not.
    Run { session_key: String, text: String, stream: bool },
}

/// The refusal of a chat request, if any, as status and body: authorization, then an
/// unreadable body, then request validation, then the model.
pub open spec fn chat_refusal(key: Option<Seq<char>>, header: Option<Seq<char>>, body_ok: bool,
    single: bool, request_model: Option<Seq<char>>, model: Seq<char>) -> Option<(u16, Seq<char>)> {
    match auth_error(key, header) {
        Some(m) => Some((401, error_body_spec(401, m, "invalid_request_error"@))),
        None => if !body_ok {
            Some((400, error_body_spec(400, "Invalid JSON body"@, "invalid_request_error"@)))
        } else if !single {
            Some((400, error_body_spec(400, "Only a single user message is supported"@, "invalid_request_error"@)))
        } else {
            match request_model {
                Some(m) => if m != model {
                    Some((400, error_body_spec(400, "model '"@ + m + "' is not available"@, "invalid_request_error"@)))
                } else {
                    None
                },
                None => None,
            }
        },
    }
}

/// Decides what to do with a chat request (`body` is `None` when it is not JSON).
pub fn plan_chat(config: &ServerConfig, auth_header: Option<&str>, body: Option<ChatRequestBody>) -> (r: ChatPlan)
    ensures
        ({
            let body_ok = body is Some;
            let b = body.unwrap();
            let msgs = match b.messages { Some(m) => Some(m@), None => None };
            match chat_refusal(crate::bus::opt_view(config.api_key), crate::paths::opt_str(auth_header), body_ok,
                single_user(msgs), crate::bus::opt_view(b.model), config.model@) {
                Some((status, text)) => r matches ChatPlan::Reply(h) && h.status == status && h.body@ == text && !h.event_stream,
                None => r matches ChatPlan::Run { session_key, text, stream } && {
                    &&& session_key@ == match b.session_id {
                        Some(id) => if id@.len() > 0 { "api:"@ + id@ } else { API_SESSION_KEY@ },
                        None => API_SESSION_KEY@,
                    }
                    &&& text@ == content_text(msgs.unwrap()[0].content)
                    &&& stream == match b.stream { Some(x) => x, None => false }
                },
            }
        }),
{
    let key: Option<&str> = match &config.api_key {
        Some(k) => Some(k.as_str()),
        None => None,
    };
    match authorize(key, auth_header) {
        Err(e) => {
            return ChatPlan::Reply(HttpReply { status: e.status, body: e.body(), event_stream: false });
        },
        Ok(_) => {},
    }
    let b = match body {
        Some(b) => b,
        None => {
            return ChatPlan::Reply(HttpReply {
                status: 400,
                body: error_body(400, "Invalid JSON body", "invalid_request_error"),
                event_stream: false,
            });
        },
    };
    let session_id = b.session_id;
    let parsed = match parse_chat_request(b.messages, b.model, b.stream) {
        Ok(p) => p,
        Err(e) => {
            return ChatPlan::Reply(HttpReply { status: e.status, body: e.body(), event_stream: false });
        },
    };
    let requested: Option<&str> = match &parsed.model {
        Some(m) => Some(m.as_str()),
        None => None,
    };
    match validate_model(requested, config.model.as_str()) {
        Err(e) => {
            return ChatPlan::Reply(HttpReply { status: e.status, body: e.body(), event_stream: false });
        },
        Ok(_) => {},
    }
    let sid: Option<&str> = match &session_id {
        Some(s) => Some(s.as_str()),
        None => None,
    };
    let session_key = api_session_key(sid);
    ChatPlan::Run { session_key, text: parsed.text, stream: parsed.stream }
}

/// The reply to a non-streamed chat: the completion, or 500 when the runner failed.
pub fn answer_chat<R: ChatRunner>(config: &ServerConfig, runner: &mut R, session_key: &str, text: &str) -> (r: HttpReply)
    ensures
        exists|outcome: Result<Seq<char>, Seq<char>>|
            old(runner).replies(session_key@, text@, outcome) && #[trigger] answers_outcome(r, outcome, config.model@),
{
    let res = runner.run(session_key, text);
    let ghost outcome = run_outcome(&res);
    let r = match res {
        Ok(content) => {
            let usage: Vec<(String, i64)> = Vec::new();
            assert(counter(usage@, "prompt_tokens"@) == 0);
            assert(counter(usage@, "completion_tokens"@) == 0);
            let body = chat_completion_response(content.as_str(), config.model.as_str(), &usage);
            assert(usage@ =~= Seq::<(String, i64)>::empty());
            let h = HttpReply { status: 200, body, event_stream: false };
            proof {
                let (id, t) = choose|id: Seq<char>, t: i64|
                    body@ == #[trigger] completion_spec(content@, config.model@, id, t, usage@);
                assert(h.body@ == completion_spec(content@, config.model@, id, t, Seq::empty()));
                assert(completion_of(h.body@, content@, config.model@));
            }
            h
        },
        Err(_) => HttpReply {
            status: 500,
            body: error_body(500, "Internal server error", "server_error"),
            event_stream: false,
        },
    };
    assert(answers_outcome(r, outcome, config.model@));
    r
}

/// The content chunks of `texts`, the `k`-th stamped with `times[k]`.
pub open spec fn content_events(texts: Seq<Seq<char>>, model: Seq<char>, id: Seq<char>, times: Seq<i64>) -> Seq<char>
    decreases texts.len(),
{
    if texts.len() == 0 {
        Seq::empty()
    } else {
        content_events(texts.drop_last(), model, id, times)
            + sse_event(texts.last(), model, id, None, times[texts.len() - 1])
    }
}

proof fn lemma_content_events_prefix(texts: Seq<Seq<char>>, model: Seq<char>, id: Seq<char>, times: Seq<i64>, t: i64)
    requires
        texts.len() <= times.len(),
    ensures
        content_events(texts, model, id, times.push(t)) == content_events(texts, model, id, times),
    decreases texts.len(),
{
    if texts.len() > 0 {
        lemma_content_events_prefix(texts.drop_last(), model, id, times, t);
        assert(times.push(t)[texts.len() - 1] == times[texts.len() - 1]);
    }
}

/// The body of a streamed reply: a content chunk per non-empty piece, the final
/// chunk, then `data: [DONE]`, each chunk stamped with the time it was made.
pub fn sse_body(deltas: &Vec<String>, model: &str, chunk_id: &str) -> (r: String)
    ensures
        exists|times: Seq<i64>| times.len() == nonempty_texts(deltas@).len() + 1
            && r@ == #[trigger] content_events(nonempty_texts(deltas@), model@, chunk_id@, times)
                + sse_event(Seq::empty(), model@, chunk_id@, Some("stop"@), times[nonempty_texts(deltas@).len() as int])
                + "data: [DONE]\n\n"@,
{
    let mut out = String::new();
    let ghost mut times: Seq<i64> = Seq::empty();
    let mut i: usize = 0;
    while i < deltas.len()
        invariant
            i <= deltas@.len(),
            times.len() == nonempty_texts(deltas@.subrange(0, i as int)).len(),
            out@ == content_events(nonempty_texts(deltas@.subrange(0, i as int)), model@, chunk_id@, times),
        decreases deltas@.len() - i,
    {
        let ghost pre = deltas@.subrange(0, i as int);
        let ghost next = deltas@.subrange(0, i + 1);
        proof {
            assert(next.drop_last() =~= pre);
            assert(next.last() == deltas@[i as int]);
        }
        if !deltas[i].as_str().is_empty() {
            let created = clock_seconds();
            let c = sse_chunk_at(deltas[i].as_str(), model, chunk_id, None, created);
            out.append(c.as_str());
            proof {
                lemma_content_events_prefix(nonempty_texts(pre), model@, chunk_id@, times, created);
                times = times.push(created);
                assert(nonempty_texts(next) == nonempty_texts(pre).push(deltas@[i as int]@));
                assert(nonempty_texts(next).drop_last() =~= nonempty_texts(pre));
            }
        } else {
            proof {
                assert(nonempty_texts(next) == nonempty_texts(pre));
            }
        }
        i = i + 1;
    }
    proof {
        assert(deltas@.subrange(0, deltas@.len() as int) =~= deltas@);
    }
    let created = clock_seconds();
    let f = sse_chunk_at("", model, chunk_id, Some("stop"), created);
    out.append(f.as_str());
    proof {
        reveal_strlit("");
        assert(""@ =~= Seq::<char>::empty());
        lemma_content_events_prefix(nonempty_texts(deltas@), model@, chunk_id@, times, created);
        times = times.push(created);
    }
    out.append("data: [DONE]\n\n");
    out
}

/// The non-empty pieces, in order.
pub open spec fn nonempty_texts(d: Seq<String>) -> Seq<Seq<char>>
    decreases d.len(),
{
    if d.len() == 0 {
        Seq::empty()
    } else if d.last()@.len() > 0 {
        nonempty_texts(d.drop_last()).push(d.last()@)
    } else {
        nonempty_texts(d.drop_last())
    }
}

} // verus!
