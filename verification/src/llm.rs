use vstd::prelude::*;

use crate::json::{Json, JsonV};

verus! {

/// The closed enumeration of provider backends.
#[derive(Debug, PartialEq, Eq, Structural, Clone, Copy)]
pub enum ProviderId {
    OpenAi,
    AzureOpenAi,
    Anthropic,
    Cohere,
    Ai21,
    TextSynth,
}

/// The provider that a configuration string names.
pub open spec fn provider_of(s: Seq<char>) -> Option<ProviderId> {
    if s == "openai"@ {
        Some(ProviderId::OpenAi)
    } else if s == "azure_openai"@ {
        Some(ProviderId::AzureOpenAi)
    } else if s == "anthropic"@ {
        Some(ProviderId::Anthropic)
    } else if s == "cohere"@ {
        Some(ProviderId::Cohere)
    } else if s == "ai21"@ {
        Some(ProviderId::Ai21)
    } else if s == "textsynth"@ {
        Some(ProviderId::TextSynth)
    } else {
        None
    }
}

/// Reads a provider identifier from its configuration string.
pub fn parse_provider(s: &str) -> (r: Option<ProviderId>)
    ensures
        r == provider_of(s@),
{
    if crate::json::str_eq(s, "openai") {
        Some(ProviderId::OpenAi)
    } else if crate::json::str_eq(s, "azure_openai") {
        Some(ProviderId::AzureOpenAi)
    } else if crate::json::str_eq(s, "anthropic") {
        Some(ProviderId::Anthropic)
    } else if crate::json::str_eq(s, "cohere") {
        Some(ProviderId::Cohere)
    } else if crate::json::str_eq(s, "ai21") {
        Some(ProviderId::Ai21)
    } else if crate::json::str_eq(s, "textsynth") {
        Some(ProviderId::TextSynth)
    } else {
        None
    }
}

/// The closed enumeration of message roles.
#[derive(Debug, PartialEq, Eq, Structural, Clone, Copy)]
pub enum ChatMessageRole {
    System,
    User,
    Assistant,
    Function,
}

/// The role that a guest-produced string names.
pub open spec fn role_of(s: Seq<char>) -> Option<ChatMessageRole> {
    if s == "system"@ {
        Some(ChatMessageRole::System)
    } else if s == "user"@ {
        Some(ChatMessageRole::User)
    } else if s == "assistant"@ {
        Some(ChatMessageRole::Assistant)
    } else if s == "function"@ {
        Some(ChatMessageRole::Function)
    } else {
        None
    }
}

/// Reads a role from its guest-produced string.
pub fn parse_role(s: &str) -> (r: Option<ChatMessageRole>)
    ensures
        r == role_of(s@),
{
    if crate::json::str_eq(s, "system") {
        Some(ChatMessageRole::System)
    } else if crate::json::str_eq(s, "user") {
        Some(ChatMessageRole::User)
    } else if crate::json::str_eq(s, "assistant") {
        Some(ChatMessageRole::Assistant)
    } else if crate::json::str_eq(s, "function") {
        Some(ChatMessageRole::Function)
    } else {
        None
    }
}

/// The wire spelling of a role.
pub open spec fn role_name(r: ChatMessageRole) -> Seq<char> {
    match r {
        ChatMessageRole::System => "system"@,
        ChatMessageRole::User => "user"@,
        ChatMessageRole::Assistant => "assistant"@,
        ChatMessageRole::Function => "function"@,
    }
}

impl ChatMessageRole {
    /// The wire spelling of this role.
    pub fn text(&self) -> (r: &'static str)
        ensures
            r@ == role_name(*self),
    {
        match self {
            ChatMessageRole::System => "system",
            ChatMessageRole::User => "user",
            ChatMessageRole::Assistant => "assistant",
            ChatMessageRole::Function => "function",
        }
    }
}

/// One conversational message; ordering among messages is significant.
#[derive(Debug, PartialEq)]
pub struct ChatMessage {
    pub role: ChatMessageRole,
    pub name: Option<String>,
    pub content: Option<String>,
    pub function_call: Option<Json>,
}

/// One declared function the provider may call.
#[derive(Debug, PartialEq)]
pub struct ChatFunction {
    pub name: String,
    pub description: Option<String>,
    pub parameters: Option<Json>,
}

/// The immutable dispatch payload: block definition fields, resolved
/// configuration, assembled messages and functions, and a fixed completion
/// count of one. Numeric sampling fields keep the validated literal text
/// they were written with.
#[derive(Debug, PartialEq)]
pub struct LLMChatRequest {
    pub provider_id: ProviderId,
    pub model_id: String,
    pub messages: Vec<ChatMessage>,
    pub functions: Vec<ChatFunction>,
    pub function_call: Option<String>,
    pub temperature: String,
    pub top_p: Option<String>,
    pub n: usize,
    pub stop: Vec<String>,
    pub max_tokens: Option<i32>,
    pub presence_penalty: Option<String>,
    pub frequency_penalty: Option<String>,
    pub extras: Option<Json>,
}

/// The JSON shape of one message, as the result value carries it: the
/// optional fields appear only when present.
pub open spec fn message_json(m: ChatMessage) -> JsonV {
    JsonV::Obj(
        seq![("role"@, JsonV::Str(role_name(m.role)))] + (match m.name {
            Some(n) => seq![("name"@, JsonV::Str(n@))],
            None => Seq::<(Seq<char>, JsonV)>::empty(),
        }) + (match m.content {
            Some(c) => seq![("content"@, JsonV::Str(c@))],
            None => Seq::<(Seq<char>, JsonV)>::empty(),
        }) + (match m.function_call {
            Some(f) => seq![("function_call"@, f.deep_view())],
            None => Seq::<(Seq<char>, JsonV)>::empty(),
        }),
    )
}

/// Builds the JSON value of one message.
pub fn message_to_json(m: &ChatMessage) -> (r: Json)
    ensures
        r.deep_view() == message_json(*m),
{
    let mut fields: Vec<(String, Json)> = Vec::new();
    fields.push((String::from_str("role"), Json::Str(String::from_str(m.role.text()))));
    match &m.name {
        Some(n) => fields.push((String::from_str("name"), Json::Str(n.clone()))),
        None => (),
    }
    match &m.content {
        Some(c) => fields.push((String::from_str("content"), Json::Str(c.clone()))),
        None => (),
    }
    match &m.function_call {
        Some(f) => fields.push((String::from_str("function_call"), crate::json::json_clone(f))),
        None => (),
    }
    let r = Json::Obj(fields);
    proof {
        let lhs = r.deep_view()->Obj_0;
        let rhs = message_json(*m)->Obj_0;
        assert(lhs.len() == rhs.len());
        assert forall|j: int| 0 <= j < lhs.len() implies lhs[j] == rhs[j] by {
            assert(lhs[j] == (fields@[j].0@, fields@[j].1.deep_view()));
        }
        assert(lhs =~= rhs);
    }
    r
}

} // verus!
