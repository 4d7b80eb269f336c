//! What the HTTP endpoints decide and answer: authentication, the model
//! list, routing a Responses request to its provider, error bodies, and
//! the summarization of a conversation for compaction.
use vstd::prelude::*;
use crate::config::{table_get, ResolvedConfig, ResolvedProvider};
use crate::convert_request::{converted_from, key_view, responses_to_chat};

use crate::json::{object, object_of, owned, str_eq};

use crate::models::{opt_view, ChatCompletionRequest, ResponsesRequest};

use crate::text::{decimal, decimal_string, starts_with};
use crate::value::{fields_view, group_json_view, seq_view, Json, JsonV, Number, NumberV};

verus! {

broadcast use group_json_view;

pub open spec fn js(s: Seq<char>) -> JsonV {
    JsonV::Str(s)
}

pub open spec fn strings_view(s: Seq<String>) -> Seq<Seq<char>> {
    s.map_values(|x: String| x@)
}

pub(crate) fn pair(k: &str, v: Json) -> (r: (String, Json))
    ensures
        r.0@ == k@,
        r.1@ == v@,
{
    (owned(k), v)
}

pub(crate) fn jstr(s: &str) -> (r: Json)
    ensures
        r@ == js(s@),
{
    Json::String(owned(s))
}

// ─── Errors ─────────────────────────────────────────────────────────────

/// An error answer: an HTTP status and a JSON body.
#[derive(Debug)]
pub struct ApiError {
    pub status: u16,
    pub body: Json,
}

/// `{"error": {"type": ty, "message": message}}`.
pub open spec fn error_json(ty: Seq<char>, message: Seq<char>) -> JsonV {
    object_of(seq![("error"@, object_of(seq![("type"@, js(ty)), ("message"@, js(message))]))])
}

/// The body of an error answer.
pub fn error_body(ty: &str, message: &str) -> (r: Json)
    ensures
        r@ == error_json(ty@, message@),
{
    let inner = vec![pair("type", jstr(ty)), pair("message", jstr(message))];
    assert(fields_view(inner@) =~= seq![("type"@, js(ty@)), ("message"@, js(message@))]);
    let outer = vec![pair("error", object(inner))];
    assert(fields_view(outer@) =~= seq![("error"@, outer@[0].1@)]);
    object(outer)
}

/// A 400 answer to a request that cannot be read.
pub fn invalid_request(message: &str) -> (r: ApiError)
    ensures
        r.status == 400,
        r.body@ == error_json("invalid_request_error"@, message@),
{
    ApiError { status: 400, body: error_body("invalid_request_error", message) }
}

/// A 502 answer when the provider cannot be reached or read.
pub fn proxy_error(message: &str) -> (r: ApiError)
    ensures
        r.status == 502,
        r.body@ == error_json("proxy_error"@, message@),
{
    ApiError { status: 502, body: error_body("proxy_error", message) }
}

/// A 400 answer to a request body that does not read as a request;
/// `detail` is the reader's account of it.
pub fn request_parse_error(detail: &str) -> (r: ApiError)
    ensures
        r.status == 400,
        r.body@ == error_json("invalid_request_error"@, "Failed to parse request: "@ + detail@),
{
    let mut m = owned("Failed to parse request: ");
    m.append(detail);
    invalid_request(m.as_str())
}

/// A 502 answer when the provider cannot be reached.
pub fn unreachable_error(detail: &str) -> (r: ApiError)
    ensures
        r.status == 502,
        r.body@ == error_json("proxy_error"@, "Failed to reach downstream: "@ + detail@),
{
    let mut m = owned("Failed to reach downstream: ");
    m.append(detail);
    proxy_error(m.as_str())
}

/// A 502 answer when the provider's answer cannot be read.
pub fn unreadable_error(detail: &str) -> (r: ApiError)
    ensures
        r.status == 502,
        r.body@ == error_json("proxy_error"@, "Failed to read downstream response: "@ + detail@),
{
    let mut m = owned("Failed to read downstream response: ");
    m.append(detail);
    proxy_error(m.as_str())
}

/// A 502 answer when the provider's answer is not a Chat completion.
pub fn unparsable_error(detail: &str) -> (r: ApiError)
    ensures
        r.status == 502,
        r.body@ == error_json("proxy_error"@, "Failed to parse downstream response: "@ + detail@),
{
    let mut m = owned("Failed to parse downstream response: ");
    m.append(detail);
    proxy_error(m.as_str())
}

/// A 502 answer carrying a provider's failed answer to a compaction as it is.
pub fn relayed_error(body: &str) -> (r: ApiError)
    ensures
        r.status == 502,
        r.body@ == error_json("downstream_error"@, body@),
{
    ApiError { status: 502, body: error_body("downstream_error", body) }
}

/// Sessions are swept every five minutes.
pub const SESSION_SWEEP_SECS: u64 = 300;

/// A stored session is dropped once it is thirty minutes old.
pub fn session_is_stale(age_secs: u64) -> (r: bool)
    ensures
        r == (age_secs >= 1800),
{
    age_secs >= 1800
}

/// The message of a provider's failed answer.
pub open spec fn downstream_message(status: u16, body: Seq<char>) -> Seq<char> {
    "Downstream returned "@ + decimal(status as nat) + ": "@ + body
}

/// A 502 answer relaying a provider's failed answer.
pub fn downstream_error(status: u16, body: &str) -> (r: ApiError)
    ensures
        r.status == 502,
        r.body@ == error_json("downstream_error"@, downstream_message(status, body@)),
{
    let mut m = owned("Downstream returned ");
    let s = decimal_string(status as u64);
    m.append(s.as_str());
    m.append(": ");
    m.append(body);
    ApiError { status: 502, body: error_body("downstream_error", m.as_str()) }
}

// ─── Authentication ─────────────────────────────────────────────────────

/// The key of an `Authorization: Bearer <key>` header.
pub open spec fn bearer_key(header: Option<Seq<char>>) -> Option<Seq<char>> {
    match header {
        Some(h) => if starts_with(h, "Bearer "@) {
            Some(h.skip(7))
        } else {
            None
        },
        None => None,
    }
}

/// Whether a request with this `Authorization` header may pass.
pub open spec fn authorized(enabled: bool, keys: Seq<Seq<char>>, header: Option<Seq<char>>) -> bool {
    !enabled || (bearer_key(header) is Some && keys.contains(bearer_key(header)->0))
}

/// Checks the `Authorization` header, when authentication is enabled:
/// it must carry `Bearer` and one of the configured keys.
pub fn check_auth(config: &ResolvedConfig, authorization: Option<&str>) -> (r: Result<(), ApiError>)
    ensures
        r is Ok <==> authorized(
            config.auth_enabled,
            strings_view(config.auth_keys@),
            match authorization {
                Some(h) => Some(h@),
                None => None,
            },
        ),
        r is Err ==> r->Err_0.status == 401 && r->Err_0.body@ == error_json(
            "authentication_error"@,
            "Invalid or missing API key"@,
        ),
{
    if !config.auth_enabled {
        return Ok(());
    }
    proof {
        reveal_strlit("Bearer ");
    }
    let key: Option<String> = match authorization {
        Some(h) => crate::text::strip_prefix(h, "Bearer "),
        None => None,
    };
    let ok = match &key {
        Some(k) => {
            let ghost ks = strings_view(config.auth_keys@);
            let mut found = false;
            let mut i: usize = 0;
            while i < config.auth_keys.len()
                invariant
                    i <= config.auth_keys@.len(),
                    ks == strings_view(config.auth_keys@),
                    found == (exists|j: int| 0 <= j < i && ks[j] == k@),
                decreases config.auth_keys.len() - i,
            {
                assert(ks[i as int] == config.auth_keys@[i as int]@);
                if str_eq(config.auth_keys[i].as_str(), k.as_str()) {
                    found = true;
                }
                i = i + 1;
            }
            proof {
                if found {
                    let j = choose|j: int| 0 <= j < i && ks[j] == k@;
                    assert(ks.contains(k@));
                } else {
                    assert(!ks.contains(k@));
                }
            }
            found
        },
        None => false,
    };
    if ok {
        Ok(())
    } else {
        Err(
            ApiError {
                status: 401,
                body: error_body("authentication_error", "Invalid or missing API key"),
            },
        )
    }
}

// ─── The model list ─────────────────────────────────────────────────────

pub open spec fn model_entry(name: Seq<char>) -> JsonV {
    object_of(
        seq![
            ("id"@, js(name)),
            ("object"@, js("model"@)),
            ("created"@, JsonV::Number(NumberV::PosInt(0))),
            ("owned_by"@, js("responses-proxy"@)),
        ],
    )
}

/// The `/v1/models` body: the configured models, in order.
pub open spec fn models_body(names: Seq<Seq<char>>) -> JsonV {
    object_of(
        seq![
            ("object"@, js("list"@)),
            ("data"@, JsonV::Array(names.map_values(|n: Seq<char>| model_entry(n)))),
        ],
    )
}

fn model_entry_json(name: &str) -> (r: Json)
    ensures
        r@ == model_entry(name@),
{
    let f = vec![
        pair("id", jstr(name)),
        pair("object", jstr("model")),
        pair("created", Json::Number(Number::PosInt(0))),
        pair("owned_by", jstr("responses-proxy")),
    ];
    assert(fields_view(f@) =~= seq![
        ("id"@, js(name@)),
        ("object"@, js("model"@)),
        ("created"@, JsonV::Number(NumberV::PosInt(0))),
        ("owned_by"@, js("responses-proxy"@)),
    ]);
    object(f)
}

/// The body of `/v1/models`.
pub fn list_models_body(config: &ResolvedConfig) -> (r: Json)
    ensures
        r@ == models_body(strings_view(config.model_names@)),
{
    let ghost ns = strings_view(config.model_names@);
    let mut data: Vec<Json> = Vec::new();
    let mut i: usize = 0;
    while i < config.model_names.len()
        invariant
            i <= config.model_names@.len(),
            ns == strings_view(config.model_names@),
            seq_view(data@) == ns.take(i as int).map_values(|n: Seq<char>| model_entry(n)),
        decreases config.model_names.len() - i,
    {
        assert(ns[i as int] == config.model_names@[i as int]@);
        let ghost before = data@;
        data.push(model_entry_json(config.model_names[i].as_str()));
        assert(seq_view(data@) =~= seq_view(before).push(model_entry(ns[i as int])));
        assert(ns.take(i + 1) =~= ns.take(i as int).push(ns[i as int]));
        i = i + 1;
    }
    assert(ns.take(ns.len() as int) =~= ns);
    let ghost dv = seq_view(data@);
    let f = vec![pair("object", jstr("list")), pair("data", Json::Array(data))];
    assert(fields_view(f@) =~= seq![("object"@, js("list"@)), ("data"@, JsonV::Array(dv))]);
    object(f)
}

// ─── Routing a Responses request ────────────────────────────────────────

/// The `Debug` text of a list of strings (`format!("{:?}", names)`).
pub uninterp spec fn debug_list_text(names: Seq<Seq<char>>) -> Seq<char>;

/// `format!("{:?}", names)`: the list as Rust's `Debug` writes it.
#[verifier::external_body]
fn debug_list(names: &Vec<String>) -> (r: String)
    ensures
        r@ == debug_list_text(strings_view(names@)),
{
    format!("{:?}", names)
}

pub open spec fn unknown_model_message(model: Seq<char>, names: Seq<Seq<char>>) -> Seq<char> {
    "Unknown model: "@ + model + ". Available: "@ + debug_list_text(names)
}

/// A Responses request routed to its provider.
#[derive(Debug)]
pub struct RoutedRequest {
    pub chat: ChatCompletionRequest,
    pub stream: bool,
    pub original_model: String,
    pub provider: ResolvedProvider,
}

/// What routing a Responses request gives: the model must be configured;
/// the Chat request is the conversion of the request (see
/// [`converted_from`]), sent to the provider's downstream model.
pub open spec fn routed(
    r: Result<RoutedRequest, ApiError>,
    req: ResponsesRequest,
    config: ResolvedConfig,
    key: Option<Seq<u8>>,
) -> bool {
    match table_get(config.models@, req.model@) {
        None => r is Err && r->Err_0.status == 400 && r->Err_0.body@ == error_json(
            "invalid_request_error"@,
            unknown_model_message(req.model@, strings_view(config.model_names@)),
        ),
        Some(p) => r is Ok && {
            let x = r->Ok_0;
            &&& x.provider@ == p
            &&& x.original_model@ == req.model@
            &&& x.stream == (req.stream == Some(true))
            &&& x.chat.model@ == p.downstream_model
            &&& converted_from(x.chat, req, strings_view(config.tool_type_allowlist@), key)
        },
    }
}

/// Routes a Responses request (see [`routed`]).
pub fn route_request(req: ResponsesRequest, config: &ResolvedConfig, compact_key: Option<&[u8; 32]>) -> (r: Result<RoutedRequest, ApiError>)
    ensures
        routed(r, req, *config, key_view(compact_key)),
{
    let provider = match config.models.get(req.model.as_str()) {
        Some(p) => ResolvedProvider {
            base_url: p.base_url.clone(),
            api_key: p.api_key.clone(),
            downstream_model: p.downstream_model.clone(),
        },
        None => {
            let names = debug_list(&config.model_names);
            let mut m = owned("Unknown model: ");
            m.append(req.model.as_str());
            m.append(". Available: ");
            m.append(names.as_str());
            return Err(invalid_request(m.as_str()));
        },
    };
    let original_model = req.model.clone();
    let stream = match req.stream {
        Some(b) => b,
        None => false,
    };
    let mut chat = responses_to_chat(req, config.tool_type_allowlist.as_slice(), compact_key);
    chat.model = provider.downstream_model.clone();
    Ok(RoutedRequest { chat, stream, original_model, provider })
}

/// Admits a Responses request to its provider, in the order the endpoint
/// checks it: the `Authorization` header first (401), then the body, which
/// `parsed` holds as read or as the reader's account of why it does not
/// read (400), then the model (400, see [`routed`]).
pub fn admit_request(
    config: &ResolvedConfig,
    authorization: Option<&str>,
    parsed: Result<ResponsesRequest, String>,
    compact_key: Option<&[u8; 32]>,
) -> (r: Result<RoutedRequest, ApiError>)
    ensures
        !authorized(
            config.auth_enabled,
            strings_view(config.auth_keys@),
            match authorization {
                Some(h) => Some(h@),
                None => None,
            },
        ) ==> r is Err && r->Err_0.status == 401 && r->Err_0.body@ == error_json(
            "authentication_error"@,
            "Invalid or missing API key"@,
        ),
        authorized(
            config.auth_enabled,
            strings_view(config.auth_keys@),
            match authorization {
                Some(h) => Some(h@),
                None => None,
            },
        ) ==> match parsed {
            Err(d) => r is Err && r->Err_0.status == 400 && r->Err_0.body@ == error_json(
                "invalid_request_error"@,
                "Failed to parse request: "@ + d@,
            ),
            Ok(req) => routed(r, req, *config, key_view(compact_key)),
        },
{
    match check_auth(config, authorization) {
        Err(e) => Err(e),
        Ok(()) => match parsed {
            Err(d) => Err(request_parse_error(d.as_str())),
            Ok(req) => route_request(req, config, compact_key),
        },
    }
}

/// The `/chat/completions` endpoint of a provider.
pub fn chat_url(base_url: &str) -> (r: String)
    ensures
        r@ == base_url@ + "/chat/completions"@,
{
    let mut u = owned(base_url);
    u.append("/chat/completions");
    u
}

/// The `Authorization` header value for a provider.
pub fn bearer(api_key: &str) -> (r: String)
    ensures
        r@ == "Bearer "@ + api_key@,
{
    let mut b = owned("Bearer ");
    b.append(api_key);
    b
}

// ─── Stream and cancel answers ──────────────────────────────────────────

pub open spec fn response_stub(id: Seq<char>, model: Seq<char>, status: Seq<char>) -> JsonV {
    object_of(
        seq![
            ("id"@, js(id)),
            ("object"@, js("response"@)),
            ("model"@, js(model)),
            ("status"@, js(status)),
            ("output"@, JsonV::Array(Seq::empty())),
        ],
    )
}

fn response_stub_json(id: &str, model: &str, status: &str) -> (r: Json)
    ensures
        r@ == response_stub(id@, model@, status@),
{
    let e: Vec<Json> = Vec::new();
    assert(seq_view(e@) =~= Seq::<JsonV>::empty());
    let f = vec![
        pair("id", jstr(id)),
        pair("object", jstr("response")),
        pair("model", jstr(model)),
        pair("status", jstr(status)),
        pair("output", Json::Array(e)),
    ];
    assert(fields_view(f@) =~= seq![
        ("id"@, js(id@)),
        ("object"@, js("response"@)),
        ("model"@, js(model@)),
        ("status"@, js(status@)),
        ("output"@, JsonV::Array(Seq::empty())),
    ]);
    object(f)
}

/// An event that wraps a response stub: `{"type": ty, "response": {...}}`.
pub open spec fn stub_event(ty: Seq<char>, id: Seq<char>, model: Seq<char>, status: Seq<char>) -> JsonV {
    object_of(seq![("type"@, js(ty)), ("response"@, response_stub(id, model, status))])
}

/// The event sent when the provider's stream breaks.
pub fn failed_event(response_id: &str, model: &str) -> (r: Json)
    ensures
        r@ == stub_event("response.failed"@, response_id@, model@, "failed"@),
{
    stub_event_json("response.failed", response_id, model, "failed")
}

pub fn stub_event_json(ty: &str, id: &str, model: &str, status: &str) -> (r: Json)
    ensures
        r@ == stub_event(ty@, id@, model@, status@),
{
    let f = vec![pair("type", jstr(ty)), pair("response", response_stub_json(id, model, status))];
    assert(fields_view(f@) =~= seq![("type"@, js(ty@)), ("response"@, f@[1].1@)]);
    object(f)
}

/// The answer to a cancel request, stamped with the time of cancelling.
pub open spec fn cancel_json(id: Seq<char>, created_at: NumberV) -> JsonV {
    object_of(
        seq![
            ("id"@, js(id)),
            ("object"@, js("response"@)),
            ("created_at"@, JsonV::Number(created_at)),
            ("status"@, js("cancelled"@)),
            ("model"@, js(Seq::empty())),
            ("output"@, JsonV::Array(Seq::empty())),
        ],
    )
}

pub fn cancel_body(response_id: &str, created_at: Number) -> (r: Json)
    ensures
        r@ == cancel_json(response_id@, created_at@),
{
    let ghost cv = created_at@;
    let e: Vec<Json> = Vec::new();
    assert(seq_view(e@) =~= Seq::<JsonV>::empty());
    let f = vec![
        pair("id", jstr(response_id)),
        pair("object", jstr("response")),
        pair("created_at", Json::Number(created_at)),
        pair("status", jstr("cancelled")),
        pair("model", Json::String(String::new())),
        pair("output", Json::Array(e)),
    ];
    assert(fields_view(f@) =~= seq![
        ("id"@, js(response_id@)),
        ("object"@, js("response"@)),
        ("created_at"@, JsonV::Number(cv)),
        ("status"@, js("cancelled"@)),
        ("model"@, js(Seq::empty())),
        ("output"@, JsonV::Array(Seq::empty())),
    ]);
    object(f)
}

} // verus!
