use vstd::prelude::*;

use crate::chat::{instructions_spec, opt_view, Chat};
use crate::errors::{BlockError, ConfigError, Snippet};
use crate::json::{json_clone, json_get, obj_lookup, Json, JsonV};
use crate::llm::{
    message_json, message_to_json, parse_provider, parse_role, provider_of, role_of, ChatFunction,
    ChatMessage, ChatMessageRole, LLMChatRequest, ProviderId,
};
use crate::num::dec_str;
use crate::text::u64_to_dec;

verus! {

/// The per-run configuration of one chat block, resolved fresh for every
/// execution.
#[derive(Debug, PartialEq)]
pub struct RunConfig {
    pub provider_id: ProviderId,
    pub model_id: String,
    pub temperature: Option<String>,
    pub function_call: Option<String>,
    pub use_cache: bool,
    pub use_stream: bool,
    pub extras: Option<Json>,
}

/// A well-formed per-run configuration object.
pub open spec fn valid_config(cv: JsonV) -> bool {
    &&& cv matches JsonV::Obj(fs)
    &&& json_get(cv, "provider_id"@) matches Some(JsonV::Str(p)) && provider_of(p) is Some
    &&& json_get(cv, "model_id"@) matches Some(JsonV::Str(m))
    &&& (match json_get(cv, "temperature"@) {
        None => true,
        Some(t) => t is Num,
    })
    &&& (match json_get(cv, "function_call"@) {
        None => true,
        Some(f) => f is Null || f is Str,
    })
    &&& (match json_get(cv, "use_cache"@) {
        None => true,
        Some(b) => b is Bool,
    })
    &&& (match json_get(cv, "use_stream"@) {
        None => true,
        Some(b) => b is Bool,
    })
    &&& (match json_get(cv, "openai_user"@) {
        None => true,
        Some(u) => u is Str,
    })
}

/// The resolved fields agree with the configuration object.
pub open spec fn config_resolved(cv: JsonV, rc: RunConfig) -> bool {
    &&& (json_get(cv, "provider_id"@) matches Some(JsonV::Str(p)) && provider_of(p) == Some(
        rc.provider_id,
    ))
    &&& (json_get(cv, "model_id"@) matches Some(JsonV::Str(m)) && rc.model_id@ == m)
    &&& (match json_get(cv, "temperature"@) {
        None => rc.temperature is None,
        Some(JsonV::Num(t)) => opt_view(rc.temperature) == Some(t),
        _ => false,
    })
    &&& (match json_get(cv, "function_call"@) {
        None => rc.function_call is None,
        Some(JsonV::Null) => rc.function_call is None,
        Some(JsonV::Str(s)) => if s.len() == 0 {
            rc.function_call is None
        } else {
            opt_view(rc.function_call) == Some(s)
        },
        _ => false,
    })
    &&& (match json_get(cv, "use_cache"@) {
        None => rc.use_cache == true,
        Some(JsonV::Bool(b)) => rc.use_cache == b,
        _ => false,
    })
    &&& (match json_get(cv, "use_stream"@) {
        None => rc.use_stream == false,
        Some(JsonV::Bool(b)) => rc.use_stream == b,
        _ => false,
    })
    &&& (match json_get(cv, "openai_user"@) {
        None => rc.extras is None,
        Some(JsonV::Str(s)) => rc.extras matches Some(e) && e.deep_view() == JsonV::Obj(
            seq![("openai_user"@, JsonV::Str(s))],
        ),
        _ => false,
    })
}

/// Resolves the per-run options of a chat block: `provider_id` and
/// `model_id` are required, `use_cache` defaults to on, `use_stream` to
/// off, an empty or null `function_call` means none, and `openai_user` is
/// carried as provider extras. A missing or wrong-typed option is a
/// configuration error.
pub fn resolve_config(config: Option<&Json>) -> (r: Result<RunConfig, BlockError>)
    ensures
        r is Ok <==> (config matches Some(c) && valid_config(c.deep_view())),
        r matches Ok(rc) ==> config matches Some(c) && config_resolved(c.deep_view(), rc),
        r matches Err(e) ==> e matches BlockError::Configuration(ce) && (match ce {
            ConfigError::Missing => config is None,
            ConfigError::MissingOption(o) => config matches Some(c) && (o@ == "provider_id"@
                || o@ == "model_id"@) && json_get(c.deep_view(), o@) is None,
            ConfigError::InvalidOption(o) => config matches Some(c) && json_get(
                c.deep_view(),
                o@,
            ) is Some,
            ConfigError::UnknownProvider(s) => config matches Some(c) && json_get(
                c.deep_view(),
                "provider_id"@,
            ) == Some(JsonV::Str(s@)) && provider_of(s@) is None,
            ConfigError::UnknownFunction(_) => false,
        }),
{
    let c = match config {
        Some(c) => c,
        None => {
            return Err(BlockError::Configuration(ConfigError::Missing));
        },
    };
    if !matches!(c, Json::Obj(_)) {
        return Err(BlockError::Configuration(ConfigError::MissingOption(
            String::from_str("provider_id"),
        )));
    }
    let provider_id = match c.get("provider_id") {
        Some(Json::Str(s)) => match parse_provider(s.as_str()) {
            Some(p) => p,
            None => {
                return Err(BlockError::Configuration(ConfigError::UnknownProvider(s.clone())));
            },
        },
        Some(_) => {
            return Err(BlockError::Configuration(ConfigError::InvalidOption(
                String::from_str("provider_id"),
            )));
        },
        None => {
            return Err(BlockError::Configuration(ConfigError::MissingOption(
                String::from_str("provider_id"),
            )));
        },
    };
    let model_id = match c.get("model_id") {
        Some(Json::Str(s)) => s.clone(),
        Some(_) => {
            return Err(BlockError::Configuration(ConfigError::InvalidOption(
                String::from_str("model_id"),
            )));
        },
        None => {
            return Err(BlockError::Configuration(ConfigError::MissingOption(
                String::from_str("model_id"),
            )));
        },
    };
    let temperature = match c.get("temperature") {
        Some(Json::Num(t)) => Some(t.clone()),
        Some(_) => {
            return Err(BlockError::Configuration(ConfigError::InvalidOption(
                String::from_str("temperature"),
            )));
        },
        None => None,
    };
    let function_call = match c.get("function_call") {
        Some(Json::Null) => None,
        Some(Json::Str(s)) => {
            if s.as_str().unicode_len() == 0 {
                None
            } else {
                Some(s.clone())
            }
        },
        Some(_) => {
            return Err(BlockError::Configuration(ConfigError::InvalidOption(
                String::from_str("function_call"),
            )));
        },
        None => None,
    };
    let use_cache = match c.get("use_cache") {
        Some(Json::Bool(b)) => *b,
        Some(_) => {
            return Err(BlockError::Configuration(ConfigError::InvalidOption(
                String::from_str("use_cache"),
            )));
        },
        None => true,
    };
    let use_stream = match c.get("use_stream") {
        Some(Json::Bool(b)) => *b,
        Some(_) => {
            return Err(BlockError::Configuration(ConfigError::InvalidOption(
                String::from_str("use_stream"),
            )));
        },
        None => false,
    };
    let extras = match c.get("openai_user") {
        Some(Json::Str(s)) => {
            let mut fields: Vec<(String, Json)> = Vec::new();
            fields.push((String::from_str("openai_user"), Json::Str(s.clone())));
            let e = Json::Obj(fields);
            proof {
                assert(e.deep_view()->Obj_0 =~= seq![
                    ("openai_user"@, JsonV::Str(s@)),
                ]);
            }
            Some(e)
        },
        Some(_) => {
            return Err(BlockError::Configuration(ConfigError::InvalidOption(
                String::from_str("openai_user"),
            )));
        },
        None => None,
    };
    Ok(
        RunConfig {
            provider_id,
            model_id,
            temperature,
            function_call,
            use_cache,
            use_stream,
            extras,
        },
    )
}

/// One guest-produced message object has the required shape.
pub open spec fn msg_item_ok(v: JsonV) -> bool {
    &&& v matches JsonV::Obj(fs)
    &&& (obj_lookup(fs, "role"@) matches Some(JsonV::Str(r)) && role_of(r) is Some)
    &&& obj_lookup(fs, "content"@) matches Some(JsonV::Str(c))
}

/// A parsed message carries exactly what its object held.
pub open spec fn msg_matches(v: JsonV, m: ChatMessage) -> bool {
    &&& v matches JsonV::Obj(fs)
    &&& (obj_lookup(fs, "role"@) matches Some(JsonV::Str(r)) && role_of(r) == Some(m.role))
    &&& (obj_lookup(fs, "content"@) matches Some(JsonV::Str(c)) && opt_view(m.content) == Some(c))
    &&& (match obj_lookup(fs, "name"@) {
        Some(JsonV::Str(n)) => opt_view(m.name) == Some(n),
        _ => m.name is None,
    })
    &&& m.function_call is None
}

/// Reads the messages snippet's value: an ordered sequence of objects,
/// each with a role and content and an optional name; any other shape is a
/// validation error.
#[verifier::loop_isolation(false)]
pub fn parse_messages(value: &Json) -> (r: Result<Vec<ChatMessage>, BlockError>)
    ensures
        r is Ok <==> (value.deep_view() matches JsonV::Arr(items) && (forall|i: int|
            0 <= i < items.len() ==> msg_item_ok(#[trigger] items[i]))),
        r matches Ok(ms) ==> value.deep_view() matches JsonV::Arr(items) && ms@.len()
            == items.len() && (forall|i: int|
            0 <= i < items.len() ==> msg_matches(#[trigger] items[i], ms@[i])),
        r matches Err(e) ==> e == (BlockError::Validation { snippet: Snippet::MessagesCode }),
{
    let items = match value {
        Json::Arr(items) => items,
        _ => {
            return Err(BlockError::Validation { snippet: Snippet::MessagesCode });
        },
    };
    let ghost iv = value.deep_view()->Arr_0;
    let mut out: Vec<ChatMessage> = Vec::new();
    let mut i: usize = 0;
    while i < items.len()
        invariant
            0 <= i <= items.len(),
            iv.len() == items@.len(),
            forall|j: int| 0 <= j < items@.len() ==> #[trigger] iv[j] == items@[j].deep_view(),
            out@.len() == i,
            forall|j: int| 0 <= j < i ==> msg_item_ok(#[trigger] iv[j]),
            forall|j: int| 0 <= j < i ==> msg_matches(#[trigger] iv[j], out@[j]),
        decreases items.len() - i,
    {
        let item = &items[i];
        let role = match item.get("role") {
            Some(Json::Str(rs)) => match parse_role(rs.as_str()) {
                Some(role) => role,
                None => {
                    proof {
                        assert(!msg_item_ok(iv[i as int]));
                    }
                    return Err(BlockError::Validation { snippet: Snippet::MessagesCode });
                },
            },
            _ => {
                proof {
                    assert(!msg_item_ok(iv[i as int]));
                }
                return Err(BlockError::Validation { snippet: Snippet::MessagesCode });
            },
        };
        let content = match item.get("content") {
            Some(Json::Str(cs)) => cs.clone(),
            _ => {
                proof {
                    assert(!msg_item_ok(iv[i as int]));
                }
                return Err(BlockError::Validation { snippet: Snippet::MessagesCode });
            },
        };
        let name = match item.get("name") {
            Some(Json::Str(ns)) => Some(ns.clone()),
            _ => None,
        };
        out.push(
            ChatMessage { role, name, content: Some(content), function_call: None },
        );
        i = i + 1;
    }
    Ok(out)
}

/// One guest-produced function object has the required shape.
pub open spec fn fn_item_ok(v: JsonV) -> bool {
    &&& v matches JsonV::Obj(fs)
    &&& obj_lookup(fs, "name"@) matches Some(JsonV::Str(n))
    &&& obj_lookup(fs, "description"@) matches Some(JsonV::Str(d))
    &&& obj_lookup(fs, "parameters"@) is Some
}

/// A parsed function declaration carries exactly what its object held.
pub open spec fn fn_matches(v: JsonV, f: ChatFunction) -> bool {
    &&& v matches JsonV::Obj(fs)
    &&& (obj_lookup(fs, "name"@) matches Some(JsonV::Str(n)) && f.name@ == n)
    &&& (obj_lookup(fs, "description"@) matches Some(JsonV::Str(d)) && opt_view(f.description)
        == Some(d))
    &&& (obj_lookup(fs, "parameters"@) matches Some(p) && f.parameters matches Some(fp)
        && fp.deep_view() == p)
}

/// Reads the functions snippet's value: null means no functions, otherwise
/// an ordered sequence of objects each with a name, a description and a
/// parameter schema; any other shape is a validation error.
#[verifier::loop_isolation(false)]
pub fn parse_functions(value: &Json) -> (r: Result<Vec<ChatFunction>, BlockError>)
    ensures
        r is Ok <==> value.deep_view() is Null || (value.deep_view() matches JsonV::Arr(items) && (
        forall|i: int| 0 <= i < items.len() ==> fn_item_ok(#[trigger] items[i]))),
        r matches Ok(fs) ==> (value.deep_view() is Null ==> fs@.len() == 0) && (
        value.deep_view() matches JsonV::Arr(items) ==> fs@.len() == items.len() && (forall|i: int|
            0 <= i < items.len() ==> fn_matches(#[trigger] items[i], fs@[i]))),
        r matches Err(e) ==> e == (BlockError::Validation { snippet: Snippet::FunctionsCode }),
{
    let items = match value {
        Json::Null => {
            return Ok(Vec::new());
        },
        Json::Arr(items) => items,
        _ => {
            return Err(BlockError::Validation { snippet: Snippet::FunctionsCode });
        },
    };
    let ghost iv = value.deep_view()->Arr_0;
    let mut out: Vec<ChatFunction> = Vec::new();
    let mut i: usize = 0;
    while i < items.len()
        invariant
            0 <= i <= items.len(),
            iv.len() == items@.len(),
            forall|j: int| 0 <= j < items@.len() ==> #[trigger] iv[j] == items@[j].deep_view(),
            out@.len() == i,
            forall|j: int| 0 <= j < i ==> fn_item_ok(#[trigger] iv[j]),
            forall|j: int| 0 <= j < i ==> fn_matches(#[trigger] iv[j], out@[j]),
        decreases items.len() - i,
    {
        let item = &items[i];
        let name = match item.get("name") {
            Some(Json::Str(ns)) => ns.clone(),
            _ => {
                proof {
                    assert(!fn_item_ok(iv[i as int]));
                }
                return Err(BlockError::Validation { snippet: Snippet::FunctionsCode });
            },
        };
        let description = match item.get("description") {
            Some(Json::Str(ds)) => ds.clone(),
            _ => {
                proof {
                    assert(!fn_item_ok(iv[i as int]));
                }
                return Err(BlockError::Validation { snippet: Snippet::FunctionsCode });
            },
        };
        let parameters = match item.get("parameters") {
            Some(p) => json_clone(p),
            None => {
                proof {
                    assert(!fn_item_ok(iv[i as int]));
                }
                return Err(BlockError::Validation { snippet: Snippet::FunctionsCode });
            },
        };
        out.push(
            ChatFunction { name, description: Some(description), parameters: Some(parameters) },
        );
        i = i + 1;
    }
    Ok(out)
}

/// An absent directive needs no validation; `auto` and `none` always pass,
/// with or without declared functions; any other value must name a
/// declared function.
pub open spec fn function_call_ok(fc: Option<Seq<char>>, names: Seq<Seq<char>>) -> bool {
    match fc {
        None => true,
        Some(s) => s == "auto"@ || s == "none"@ || names.contains(s),
    }
}

/// Validates the function-call directive against the declared functions.
#[verifier::loop_isolation(false)]
pub fn validate_function_call(fc: &Option<String>, functions: &Vec<ChatFunction>) -> (r: Result<
    (),
    BlockError,
>)
    ensures
        r is Ok <==> function_call_ok(
            opt_view(*fc),
            functions@.map_values(|f: ChatFunction| f.name@),
        ),
        r matches Err(e) ==> e matches BlockError::Configuration(
            ConfigError::UnknownFunction(s),
        ) && opt_view(*fc) == Some(s@),
{
    let ghost names = functions@.map_values(|f: ChatFunction| f.name@);
    let s = match fc {
        None => {
            return Ok(());
        },
        Some(s) => s,
    };
    if crate::json::str_eq(s.as_str(), "auto") || crate::json::str_eq(s.as_str(), "none") {
        return Ok(());
    }
    let mut i: usize = 0;
    while i < functions.len()
        invariant
            0 <= i <= functions.len(),
            names.len() == functions@.len(),
            forall|j: int| 0 <= j < functions@.len() ==> #[trigger] names[j] == functions@[j].name@,
            forall|j: int| 0 <= j < i ==> #[trigger] names[j] != s@,
        decreases functions.len() - i,
    {
        if crate::json::str_eq(functions[i].name.as_str(), s.as_str()) {
            proof {
                assert(names[i as int] == s@);
            }
            return Ok(());
        }
        i = i + 1;
    }
    proof {
        assert(!names.contains(s@));
    }
    Err(BlockError::Configuration(ConfigError::UnknownFunction(s.clone())))
}

/// Non-empty instructions become a new first message with role `system`,
/// inserted after guest evaluation so that generated messages can never
/// displace them; empty instructions add nothing.
pub fn messages_with_instructions(instructions: &str, messages: Vec<ChatMessage>) -> (r: Vec<
    ChatMessage,
>)
    ensures
        instructions@.len() == 0 ==> r@ == messages@,
        instructions@.len() > 0 ==> {
            &&& r@.len() == messages@.len() + 1
            &&& r@[0].role == ChatMessageRole::System
            &&& r@[0].name is None
            &&& opt_view(r@[0].content) == Some(instructions@)
            &&& r@[0].function_call is None
            &&& r@.skip(1) == messages@
        },
{
    let mut messages = messages;
    if instructions.unicode_len() > 0 {
        let head = ChatMessage {
            role: ChatMessageRole::System,
            name: None,
            content: Some(instructions.to_owned()),
            function_call: None,
        };
        messages.insert(0, head);
        proof {
            assert(messages@.skip(1) =~= messages@.subrange(1, messages@.len() as int));
        }
    }
    messages
}

/// The tag of a streaming event, when it has one.
pub open spec fn event_tag(ev: JsonV) -> Option<Seq<char>> {
    match json_get(ev, "type"@) {
        Some(JsonV::Str(t)) => Some(t),
        _ => None,
    }
}

/// The three event kinds that reach the external sink; every other kind is
/// silently discarded.
pub open spec fn forwarded_tag(t: Seq<char>) -> bool {
    t == "tokens"@ || t == "function_call"@ || t == "function_call_arguments_tokens"@
}

/// The key the event's payload is re-wrapped under.
pub open spec fn payload_key(t: Seq<char>) -> Seq<char> {
    if t == "function_call"@ {
        "function_call"@
    } else {
        "tokens"@
    }
}

/// The payload of a streaming event: null when it carries none.
pub open spec fn event_content(ev: JsonV) -> JsonV {
    match json_get(ev, "content"@) {
        Some(c) => c,
        None => JsonV::Null,
    }
}

/// The envelope a forwarded event is re-wrapped in: the event's own tag and
/// payload alongside the block's identity and iteration coordinates.
pub open spec fn envelope(
    t: Seq<char>,
    block_name: Seq<char>,
    input_index: nat,
    map_coords: JsonV,
    content: JsonV,
) -> JsonV {
    JsonV::Obj(
        seq![
            ("type"@, JsonV::Str(t)),
            (
                "content"@,
                JsonV::Obj(
                    seq![
                        ("block_type"@, JsonV::Str("chat"@)),
                        ("block_name"@, JsonV::Str(block_name)),
                        ("input_index"@, JsonV::Num(dec_str(input_index))),
                        ("map"@, map_coords),
                        (payload_key(t), content),
                    ],
                ),
            ),
        ],
    )
}

/// The streaming tags, which differ pairwise.
proof fn lemma_tag_lens()
    ensures
        "tokens"@.len() == 6,
        "function_call"@.len() == 13,
        "function_call_arguments_tokens"@.len() == 30,
{
    reveal_strlit("tokens");
    reveal_strlit("function_call");
    reveal_strlit("function_call_arguments_tokens");
}

/// Re-wraps one dispatcher event for the external sink: only token deltas,
/// function-call deltas and function-call-argument token deltas are
/// forwarded, each with the block's identity; anything else yields nothing.
pub fn wrap_event(event: &Json, block_name: &str, input_index: u64, map_coords: &Json) -> (r:
    Option<Json>)
    ensures
        r is Some <==> (event_tag(event.deep_view()) matches Some(t) && forwarded_tag(t)),
        r matches Some(j) ==> event_tag(event.deep_view()) matches Some(t) && j.deep_view()
            == envelope(
            t,
            block_name@,
            input_index as nat,
            map_coords.deep_view(),
            event_content(event.deep_view()),
        ),
{
    proof {
        lemma_tag_lens();
    }
    let tag = match event.get("type") {
        Some(Json::Str(t)) => t,
        _ => {
            return None;
        },
    };
    let is_tokens = crate::json::str_eq(tag.as_str(), "tokens");
    let is_fc = crate::json::str_eq(tag.as_str(), "function_call");
    let is_fcat = crate::json::str_eq(tag.as_str(), "function_call_arguments_tokens");
    if !(is_tokens || is_fc || is_fcat) {
        return None;
    }
    let content = match event.get("content") {
        Some(c) => json_clone(c),
        None => Json::Null,
    };
    let mut inner: Vec<(String, Json)> = Vec::new();
    inner.push((String::from_str("block_type"), Json::Str(String::from_str("chat"))));
    inner.push((String::from_str("block_name"), Json::Str(block_name.to_owned())));
    inner.push((String::from_str("input_index"), Json::Num(u64_to_dec(input_index))));
    inner.push((String::from_str("map"), json_clone(map_coords)));
    let key = if is_fc {
        String::from_str("function_call")
    } else {
        String::from_str("tokens")
    };
    inner.push((key, content));
    let inner_obj = Json::Obj(inner);
    let ghost t = tag@;
    proof {
        let lhs = inner_obj.deep_view()->Obj_0;
        let rhs = seq![
            ("block_type"@, JsonV::Str("chat"@)),
            ("block_name"@, JsonV::Str(block_name@)),
            ("input_index"@, JsonV::Num(dec_str(input_index as nat))),
            ("map"@, map_coords.deep_view()),
            (payload_key(t), event_content(event.deep_view())),
        ];
        assert(lhs.len() == rhs.len());
        assert forall|j: int| 0 <= j < lhs.len() implies lhs[j] == rhs[j] by {
            assert(lhs[j] == (inner@[j].0@, inner@[j].1.deep_view()));
        }
        assert(lhs =~= rhs);
    }
    let mut outer: Vec<(String, Json)> = Vec::new();
    outer.push((String::from_str("type"), Json::Str(tag.clone())));
    outer.push((String::from_str("content"), inner_obj));
    let r = Json::Obj(outer);
    proof {
        let lhs = r.deep_view()->Obj_0;
        let rhs = envelope(
            t,
            block_name@,
            input_index as nat,
            map_coords.deep_view(),
            event_content(event.deep_view()),
        )->Obj_0;
        assert(lhs.len() == rhs.len());
        assert forall|j: int| 0 <= j < lhs.len() implies lhs[j] == rhs[j] by {
            assert(lhs[j] == (outer@[j].0@, outer@[j].1.deep_view()));
        }
        assert(lhs =~= rhs);
    }
    Some(r)
}

/// What one execution hands back to its caller: the result value and the
/// side-channel metadata.
#[derive(Debug, PartialEq)]
pub struct BlockResult {
    pub value: Json,
    pub meta: Option<Json>,
}

/// The deep views of a log list.
pub open spec fn logs_view(logs: Seq<Json>) -> Seq<JsonV> {
    logs.map_values(|j: Json| j.deep_view())
}

/// Assembles the block result from the dispatcher's completions and the
/// guest logs: exactly one completion is owed, anything else is a broken
/// dispatcher contract; the metadata carries the messages-snippet logs
/// followed by the functions-snippet logs.
pub fn assemble_result(
    completions: &Vec<ChatMessage>,
    messages_logs: Vec<Json>,
    functions_logs: Vec<Json>,
) -> (r: Result<BlockResult, BlockError>)
    ensures
        r is Ok <==> completions@.len() == 1,
        r matches Err(e) ==> e == (BlockError::ContractViolation {
            completions: completions@.len() as usize,
        }),
        r matches Ok(br) ==> {
            &&& br.value.deep_view() == JsonV::Obj(
                seq![("message"@, message_json(completions@[0]))],
            )
            &&& br.meta matches Some(m) && m.deep_view() == JsonV::Obj(
                seq![
                    ("logs"@, JsonV::Arr(logs_view(messages_logs@) + logs_view(functions_logs@))),
                ],
            )
        },
{
    if completions.len() != 1 {
        return Err(BlockError::ContractViolation { completions: completions.len() });
    }
    let message = message_to_json(&completions[0]);
    let mut value_fields: Vec<(String, Json)> = Vec::new();
    value_fields.push((String::from_str("message"), message));
    let value = Json::Obj(value_fields);
    proof {
        assert(value.deep_view()->Obj_0 =~= seq![("message"@, message_json(completions@[0]))]);
    }
    let ghost ml = messages_logs@;
    let ghost fl = functions_logs@;
    let mut all_logs = messages_logs;
    let mut functions_logs = functions_logs;
    all_logs.append(&mut functions_logs);
    let logs_arr = Json::Arr(all_logs);
    proof {
        assert(logs_arr.deep_view()->Arr_0 =~= logs_view(ml) + logs_view(fl));
    }
    let mut meta_fields: Vec<(String, Json)> = Vec::new();
    meta_fields.push((String::from_str("logs"), logs_arr));
    let meta = Json::Obj(meta_fields);
    proof {
        assert(meta.deep_view()->Obj_0 =~= seq![
            ("logs"@, JsonV::Arr(logs_view(ml) + logs_view(fl))),
        ]);
    }
    Ok(BlockResult { value, meta: Some(meta) })
}

/// The run-time context one execution sees: the block's name, its per-run
/// configuration, the variable bindings for the instruction template, the
/// streaming position, and whether an external event sink is attached.
pub struct ExecContext {
    pub block_name: String,
    pub config: Option<Json>,
    pub variables: Vec<(String, String)>,
    pub input_index: u64,
    pub map_coords: Json,
    pub has_event_sink: bool,
}

pub open spec fn ctx_vars(ctx: ExecContext) -> Seq<(Seq<char>, Seq<char>)> {
    ctx.variables@.map_values(|p: (String, String)| (p.0@, p.1@))
}

/// What the sandbox evaluator hands back for one snippet.
#[derive(Debug, PartialEq)]
pub enum GuestOutcome {
    Value { value: Json, logs: Vec<Json> },
    Failure { message: String },
}

/// What the provider dispatcher hands back for one request.
#[derive(Debug, PartialEq)]
pub enum DispatchOutcome {
    Completions { completions: Vec<ChatMessage> },
    Failure { message: String },
}

/// Where one execution stands between two outside events.
#[derive(Debug, PartialEq)]
pub enum ExecState {
    AwaitingMessages { cfg: RunConfig },
    AwaitingFunctions { cfg: RunConfig, messages: Vec<ChatMessage>, messages_logs: Vec<Json> },
    AwaitingDispatch { messages_logs: Vec<Json>, functions_logs: Vec<Json> },
    Done,
}

/// The one outside step the caller must perform next: evaluate a snippet in
/// the sandbox under the ten-second deadline and off the scheduling path,
/// dispatch the request, or stop.
#[derive(Debug, PartialEq)]
pub enum ExecAction {
    EvalMessages { code: String },
    EvalFunctions { code: String },
    DispatchCached { request: LLMChatRequest, use_cache: bool },
    DispatchStreamed { request: LLMChatRequest },
    Finish { result: BlockResult },
    Fail { error: BlockError },
}

/// The request carries the block's static fields, the resolved
/// configuration, the assembled messages and functions, and a completion
/// count of one; a run temperature overrides the static one.
pub open spec fn request_ok(
    req: LLMChatRequest,
    block: Chat,
    cfg: RunConfig,
    ins: Seq<char>,
    messages: Seq<ChatMessage>,
    functions: Seq<ChatFunction>,
) -> bool {
    &&& req.provider_id == cfg.provider_id
    &&& req.model_id@ == cfg.model_id@
    &&& (ins.len() == 0 ==> req.messages@ == messages)
    &&& (ins.len() > 0 ==> {
        &&& req.messages@.len() == messages.len() + 1
        &&& req.messages@[0].role == ChatMessageRole::System
        &&& req.messages@[0].name is None
        &&& opt_view(req.messages@[0].content) == Some(ins)
        &&& req.messages@[0].function_call is None
        &&& req.messages@.skip(1) == messages
    })
    &&& req.functions@ == functions
    &&& opt_view(req.function_call) == opt_view(cfg.function_call)
    &&& req.temperature@ == (match cfg.temperature {
        Some(t) => t@,
        None => block.temperature@,
    })
    &&& opt_view(req.top_p) == opt_view(block.top_p)
    &&& req.n == 1
    &&& req.stop@.map_values(|s: String| s@) == block.stop@.map_values(|s: String| s@)
    &&& req.max_tokens == block.max_tokens
    &&& opt_view(req.presence_penalty) == opt_view(block.presence_penalty)
    &&& opt_view(req.frequency_penalty) == opt_view(block.frequency_penalty)
    &&& (match (req.extras, cfg.extras) {
        (None, None) => true,
        (Some(a), Some(b)) => a.deep_view() == b.deep_view(),
        _ => false,
    })
}

/// How the machine leaves the assembly juncture: an invalid function-call
/// directive or a failed substitution stops it; otherwise it dispatches,
/// streaming exactly when the stream toggle is on and an external sink is
/// attached, and passing the cache toggle through on the cached path.
pub open spec fn dispatch_decision_ok(
    st: ExecState,
    act: ExecAction,
    block: Chat,
    cfg: RunConfig,
    has_sink: bool,
    vars: Seq<(Seq<char>, Seq<char>)>,
    messages: Seq<ChatMessage>,
    functions: Seq<ChatFunction>,
    mlogs: Seq<JsonV>,
    flogs: Seq<JsonV>,
) -> bool {
    if !function_call_ok(
        opt_view(cfg.function_call),
        functions.map_values(|f: ChatFunction| f.name@),
    ) {
        &&& st is Done
        &&& (act matches ExecAction::Fail { error } && error matches BlockError::Configuration(
            ConfigError::UnknownFunction(_),
        ))
    } else if instructions_spec(block@, vars) is None {
        &&& st is Done
        &&& (act matches ExecAction::Fail { error } && error == BlockError::BadInstructions)
    } else {
        let ins = instructions_spec(block@, vars)->0;
        let streamed = cfg.use_stream && has_sink;
        &&& (st matches ExecState::AwaitingDispatch { messages_logs, functions_logs } && logs_view(
            messages_logs@,
        ) == mlogs && logs_view(functions_logs@) == flogs)
        &&& (streamed ==> act is DispatchStreamed)
        &&& (!streamed ==> (act matches ExecAction::DispatchCached { request, use_cache }
            && use_cache == cfg.use_cache))
        &&& (act matches ExecAction::DispatchStreamed { request } ==> request_ok(
            request,
            block,
            cfg,
            ins,
            messages,
            functions,
        ))
        &&& (act matches ExecAction::DispatchCached { request, use_cache } ==> request_ok(
            request,
            block,
            cfg,
            ins,
            messages,
            functions,
        ))
    }
}

/// An owned copy of an optional text field.
fn clone_opt_string(o: &Option<String>) -> (r: Option<String>)
    ensures
        opt_view(r) == opt_view(*o),
{
    match o {
        None => None,
        Some(s) => Some(s.clone()),
    }
}

/// An owned copy of a list of text fields.
#[verifier::loop_isolation(false)]
fn clone_strings(v: &Vec<String>) -> (r: Vec<String>)
    ensures
        r@.map_values(|s: String| s@) == v@.map_values(|s: String| s@),
{
    let mut out: Vec<String> = Vec::new();
    let mut i: usize = 0;
    while i < v.len()
        invariant
            0 <= i <= v.len(),
            out@.len() == i,
            forall|j: int| 0 <= j < i ==> #[trigger] out@[j]@ == v@[j]@,
        decreases v.len() - i,
    {
        out.push(v[i].clone());
        i = i + 1;
    }
    proof {
        assert(out@.map_values(|s: String| s@) =~= v@.map_values(|s: String| s@));
    }
    out
}

impl Chat {
    /// Builds the one immutable dispatch payload.
    fn build_request(
        &self,
        cfg: RunConfig,
        assembled: Vec<ChatMessage>,
        functions: Vec<ChatFunction>,
        ghost_pre: Ghost<(Seq<char>, Seq<ChatMessage>)>,
    ) -> (r: LLMChatRequest)
        requires
            ghost_pre@.0.len() == 0 ==> assembled@ == ghost_pre@.1,
            ghost_pre@.0.len() > 0 ==> {
                &&& assembled@.len() == ghost_pre@.1.len() + 1
                &&& assembled@[0].role == ChatMessageRole::System
                &&& assembled@[0].name is None
                &&& opt_view(assembled@[0].content) == Some(ghost_pre@.0)
                &&& assembled@[0].function_call is None
                &&& assembled@.skip(1) == ghost_pre@.1
            },
        ensures
            request_ok(r, *self, cfg, ghost_pre@.0, ghost_pre@.1, functions@),
    {
        let temperature = match cfg.temperature {
            Some(t) => t,
            None => self.temperature.clone(),
        };
        LLMChatRequest {
            provider_id: cfg.provider_id,
            model_id: cfg.model_id,
            messages: assembled,
            functions,
            function_call: cfg.function_call,
            temperature,
            top_p: clone_opt_string(&self.top_p),
            n: 1,
            stop: clone_strings(&self.stop),
            max_tokens: self.max_tokens,
            presence_penalty: clone_opt_string(&self.presence_penalty),
            frequency_penalty: clone_opt_string(&self.frequency_penalty),
            extras: cfg.extras,
        }
    }

    /// Validates the directive, inserts the instructions, builds the
    /// request and selects the dispatch path.
    fn decide_dispatch(
        &self,
        ctx: &ExecContext,
        cfg: RunConfig,
        messages: Vec<ChatMessage>,
        functions: Vec<ChatFunction>,
        messages_logs: Vec<Json>,
        functions_logs: Vec<Json>,
    ) -> (r: (ExecState, ExecAction))
        ensures
            dispatch_decision_ok(
                r.0,
                r.1,
                *self,
                cfg,
                ctx.has_event_sink,
                ctx_vars(*ctx),
                messages@,
                functions@,
                logs_view(messages_logs@),
                logs_view(functions_logs@),
            ),
    {
        match validate_function_call(&cfg.function_call, &functions) {
            Ok(()) => (),
            Err(e) => {
                return (ExecState::Done, ExecAction::Fail { error: e });
            },
        }
        let ins = match self.instructions(&ctx.variables) {
            Some(ins) => ins,
            None => {
                return (ExecState::Done, ExecAction::Fail { error: BlockError::BadInstructions });
            },
        };
        let ghost pre = (ins@, messages@);
        let assembled = messages_with_instructions(ins.as_str(), messages);
        let streamed = cfg.use_stream && ctx.has_event_sink;
        let use_cache = cfg.use_cache;
        let request = self.build_request(cfg, assembled, functions, Ghost(pre));
        let st = ExecState::AwaitingDispatch { messages_logs, functions_logs };
        if streamed {
            (st, ExecAction::DispatchStreamed { request })
        } else {
            (st, ExecAction::DispatchCached { request, use_cache })
        }
    }

    /// Begins one execution: resolves the per-run configuration and asks
    /// for the messages snippet to be evaluated.
    pub fn execute_start(&self, ctx: &ExecContext) -> (r: (ExecState, ExecAction))
        ensures
            (r.1 is EvalMessages) <==> (ctx.config matches Some(c) && valid_config(c.deep_view())),
            r.1 matches ExecAction::EvalMessages { code } ==> {
                &&& code@ == crate::text::replace_seq(
                    self.messages_code@,
                    "<DUST_TRIPLE_BACKTICKS>"@,
                    "```"@,
                )
                &&& (r.0 matches ExecState::AwaitingMessages { cfg } && ctx.config matches Some(c)
                    && config_resolved(c.deep_view(), cfg))
            },
            !(ctx.config matches Some(c) && valid_config(c.deep_view())) ==> r.0 is Done && (
            r.1 matches ExecAction::Fail { error } && error is Configuration),
    {
        let cfg = match &ctx.config {
            Some(c) => resolve_config(Some(c)),
            None => resolve_config(None),
        };
        match cfg {
            Ok(cfg) => {
                let code = crate::chat::prepare_snippet(self.messages_code.as_str());
                (ExecState::AwaitingMessages { cfg }, ExecAction::EvalMessages { code })
            },
            Err(e) => (ExecState::Done, ExecAction::Fail { error: e }),
        }
    }

    /// Takes the messages snippet's outcome: a guest failure or a bad shape
    /// stops the execution; otherwise the functions snippet is evaluated
    /// next, or, when the block declares none, the request is dispatched.
    pub fn execute_on_messages(
        &self,
        ctx: &ExecContext,
        cfg: RunConfig,
        outcome: GuestOutcome,
    ) -> (r: (ExecState, ExecAction))
        ensures
            outcome matches GuestOutcome::Failure { message } ==> r.0 is Done && (
            r.1 matches ExecAction::Fail { error } && error matches BlockError::GuestExecution {
                snippet,
                message: m,
            } && snippet == Snippet::MessagesCode && m@ == message@),
            outcome matches GuestOutcome::Value { value, logs } ==> {
                if !(value.deep_view() matches JsonV::Arr(items) && (forall|i: int|
                    0 <= i < items.len() ==> msg_item_ok(#[trigger] items[i]))) {
                    r.0 is Done && r.1 == (ExecAction::Fail {
                        error: BlockError::Validation { snippet: Snippet::MessagesCode },
                    })
                } else if self.functions_code is Some {
                    &&& (r.1 matches ExecAction::EvalFunctions { code } && (
                    self.functions_code matches Some(fc) && code@ == crate::text::replace_seq(
                        fc@,
                        "<DUST_TRIPLE_BACKTICKS>"@,
                        "```"@,
                    )))
                    &&& (r.0 matches ExecState::AwaitingFunctions {
                        cfg: c2,
                        messages: ms,
                        messages_logs: ml,
                    } && c2 == cfg && logs_view(ml@) == logs_view(logs@) && (
                    value.deep_view() matches JsonV::Arr(items) && ms@.len() == items.len() && (
                    forall|i: int|
                        0 <= i < items.len() ==> msg_matches(#[trigger] items[i], ms@[i]))))
                } else {
                    exists|ms: Seq<ChatMessage>|
                        #![auto]
                        {
                            &&& (value.deep_view() matches JsonV::Arr(items) && ms.len()
                                == items.len() && (forall|i: int|
                                0 <= i < items.len() ==> msg_matches(#[trigger] items[i], ms[i])))
                            &&& dispatch_decision_ok(
                                r.0,
                                r.1,
                                *self,
                                cfg,
                                ctx.has_event_sink,
                                ctx_vars(*ctx),
                                ms,
                                Seq::<ChatFunction>::empty(),
                                logs_view(logs@),
                                Seq::<JsonV>::empty(),
                            )
                        }
                }
            },
    {
        let (value, logs) = match outcome {
            GuestOutcome::Failure { message } => {
                return (
                    ExecState::Done,
                    ExecAction::Fail {
                        error: BlockError::GuestExecution {
                            snippet: Snippet::MessagesCode,
                            message,
                        },
                    },
                );
            },
            GuestOutcome::Value { value, logs } => (value, logs),
        };
        let messages = match parse_messages(&value) {
            Ok(ms) => ms,
            Err(e) => {
                return (ExecState::Done, ExecAction::Fail { error: e });
            },
        };
        if self.functions_code.is_some() {
            let code = match &self.functions_code {
                Some(fc) => crate::chat::prepare_snippet(fc.as_str()),
                None => String::new(),
            };
            (
                ExecState::AwaitingFunctions { cfg, messages, messages_logs: logs },
                ExecAction::EvalFunctions { code },
            )
        } else {
            let ghost ms = messages@;
            let no_functions: Vec<ChatFunction> = Vec::new();
            let no_logs: Vec<Json> = Vec::new();
            proof {
                assert(no_functions@ =~= Seq::<ChatFunction>::empty());
                assert(logs_view(no_logs@) =~= Seq::<JsonV>::empty());
            }
            self.decide_dispatch(ctx, cfg, messages, no_functions, logs, no_logs)
        }
    }

    /// Takes the functions snippet's outcome: a guest failure names the
    /// functions code and stops the execution before any dispatch; a good
    /// value leads to validation and dispatch.
    pub fn execute_on_functions(
        &self,
        ctx: &ExecContext,
        cfg: RunConfig,
        messages: Vec<ChatMessage>,
        messages_logs: Vec<Json>,
        outcome: GuestOutcome,
    ) -> (r: (ExecState, ExecAction))
        ensures
            outcome matches GuestOutcome::Failure { message } ==> r.0 is Done && (
            r.1 matches ExecAction::Fail { error } && error matches BlockError::GuestExecution {
                snippet,
                message: m,
            } && snippet == Snippet::FunctionsCode && m@ == message@),
            outcome matches GuestOutcome::Value { value, logs } ==> {
                if !(value.deep_view() is Null || (value.deep_view() matches JsonV::Arr(items) && (
                forall|i: int| 0 <= i < items.len() ==> fn_item_ok(#[trigger] items[i])))) {
                    r.0 is Done && r.1 == (ExecAction::Fail {
                        error: BlockError::Validation { snippet: Snippet::FunctionsCode },
                    })
                } else {
                    exists|fs: Seq<ChatFunction>|
                        #![auto]
                        {
                            &&& (value.deep_view() is Null ==> fs.len() == 0)
                            &&& (value.deep_view() matches JsonV::Arr(items) ==> fs.len()
                                == items.len() && (forall|i: int|
                                0 <= i < items.len() ==> fn_matches(#[trigger] items[i], fs[i])))
                            &&& dispatch_decision_ok(
                                r.0,
                                r.1,
                                *self,
                                cfg,
                                ctx.has_event_sink,
                                ctx_vars(*ctx),
                                messages@,
                                fs,
                                logs_view(messages_logs@),
                                logs_view(logs@),
                            )
                        }
                }
            },
    {
        let (value, logs) = match outcome {
            GuestOutcome::Failure { message } => {
                return (
                    ExecState::Done,
                    ExecAction::Fail {
                        error: BlockError::GuestExecution {
                            snippet: Snippet::FunctionsCode,
                            message,
                        },
                    },
                );
            },
            GuestOutcome::Value { value, logs } => (value, logs),
        };
        let functions = match parse_functions(&value) {
            Ok(fs) => fs,
            Err(e) => {
                return (ExecState::Done, ExecAction::Fail { error: e });
            },
        };
        self.decide_dispatch(ctx, cfg, messages, functions, messages_logs, logs)
    }
}

/// Takes the dispatcher's outcome: an opaque failure is surfaced
/// unchanged; exactly one completion is owed, and any other count is a
/// broken dispatcher contract; one completion finishes the execution with
/// the result value and the concatenated logs.
pub fn execute_on_dispatched(
    messages_logs: Vec<Json>,
    functions_logs: Vec<Json>,
    outcome: DispatchOutcome,
) -> (r: (ExecState, ExecAction))
    ensures
        r.0 is Done,
        outcome matches DispatchOutcome::Failure { message } ==> (
        r.1 matches ExecAction::Fail { error } && error matches BlockError::Dispatch { message: m }
            && m@ == message@),
        outcome matches DispatchOutcome::Completions { completions } ==> {
            if completions@.len() != 1 {
                r.1 == (ExecAction::Fail {
                    error: BlockError::ContractViolation {
                        completions: completions@.len() as usize,
                    },
                })
            } else {
                r.1 matches ExecAction::Finish { result } && {
                    &&& result.value.deep_view() == JsonV::Obj(
                        seq![("message"@, message_json(completions@[0]))],
                    )
                    &&& (result.meta matches Some(m) && m.deep_view() == JsonV::Obj(
                        seq![
                            (
                                "logs"@,
                                JsonV::Arr(
                                    logs_view(messages_logs@) + logs_view(functions_logs@),
                                ),
                            ),
                        ],
                    ))
                }
            }
        },
{
    let completions = match outcome {
        DispatchOutcome::Failure { message } => {
            return (ExecState::Done, ExecAction::Fail { error: BlockError::Dispatch { message } });
        },
        DispatchOutcome::Completions { completions } => completions,
    };
    match assemble_result(&completions, messages_logs, functions_logs) {
        Ok(result) => (ExecState::Done, ExecAction::Finish { result }),
        Err(e) => (ExecState::Done, ExecAction::Fail { error: e }),
    }
}

} // verus!
