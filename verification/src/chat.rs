use vstd::prelude::*;

use crate::errors::{BlockError, ConstructionError};
use crate::num::{
    int_literal_val, is_float_literal, is_int_literal,
};
use crate::text::{split_seq, subst_seq, replace_seq, split_newlines, subst_vars, replace_all};

verus! {

/// One syntax item inside a block body: a `key: value` pair, or the
/// `expected` annotation that this block kind does not support.
#[derive(Debug, PartialEq)]
pub enum BlockEntry {
    Pair(String, String),
    Expected,
}

/// The conversational-completion block: an immutable definition, built once
/// from parsed key/value pairs and executed many times.
#[derive(Debug, PartialEq)]
pub struct Chat {
    pub instructions: Option<String>,
    pub messages_code: String,
    pub functions_code: Option<String>,
    pub temperature: String,
    pub top_p: Option<String>,
    pub stop: Vec<String>,
    pub max_tokens: Option<i32>,
    pub presence_penalty: Option<String>,
    pub frequency_penalty: Option<String>,
}

/// Mathematical model of a block definition. Numeric fields keep the
/// validated literal text they were written with; `max_tokens` is the one
/// integer field.
pub struct ChatV {
    pub instructions: Option<Seq<char>>,
    pub messages_code: Seq<char>,
    pub functions_code: Option<Seq<char>>,
    pub temperature: Seq<char>,
    pub top_p: Option<Seq<char>>,
    pub stop: Seq<Seq<char>>,
    pub max_tokens: Option<int>,
    pub presence_penalty: Option<Seq<char>>,
    pub frequency_penalty: Option<Seq<char>>,
}

pub open spec fn opt_view(o: Option<String>) -> Option<Seq<char>> {
    match o {
        Some(s) => Some(s@),
        None => None,
    }
}

impl View for Chat {
    type V = ChatV;

    open spec fn view(&self) -> ChatV {
        ChatV {
            instructions: opt_view(self.instructions),
            messages_code: self.messages_code@,
            functions_code: opt_view(self.functions_code),
            temperature: self.temperature@,
            top_p: opt_view(self.top_p),
            stop: self.stop@.map_values(|s: String| s@),
            max_tokens: match self.max_tokens {
                Some(t) => Some(t as int),
                None => None,
            },
            presence_penalty: opt_view(self.presence_penalty),
            frequency_penalty: opt_view(self.frequency_penalty),
        }
    }
}

/// The closed set of block kinds the workflow language compiles to.
#[derive(Debug, PartialEq, Eq, Structural, Clone, Copy)]
pub enum BlockType {
    Input,
    Data,
    DataSource,
    Code,
    Chat,
    Llm,
    MapBlock,
    Reduce,
    While,
    End,
    Curl,
    Browser,
    Search,
}

/// The instruction template after substitution and the backtick escape:
/// empty when the block has none, `None` when substitution fails.
pub open spec fn instructions_spec(v: ChatV, vars: Seq<(Seq<char>, Seq<char>)>) -> Option<
    Seq<char>,
> {
    match v.instructions {
        None => Some(Seq::<char>::empty()),
        Some(t) => match subst_seq(t, vars) {
            None => None,
            Some(s) => Some(replace_seq(s, "<DUST_TRIPLE_BACKTICKS>"@, "```"@)),
        },
    }
}

/// The field names a chat block recognizes.
pub open spec fn recognized_key(k: Seq<char>) -> bool {
    ||| k == "instructions"@
    ||| k == "messages_code"@
    ||| k == "functions_code"@
    ||| k == "temperature"@
    ||| k == "top_p"@
    ||| k == "stop"@
    ||| k == "max_tokens"@
    ||| k == "presence_penalty"@
    ||| k == "frequency_penalty"@
}

/// The value of the last pair written for `key`: a later pair overrides an
/// earlier one.
pub open spec fn last_pair(entries: Seq<BlockEntry>, key: Seq<char>) -> Option<Seq<char>>
    decreases entries.len(),
{
    if entries.len() == 0 {
        None
    } else {
        match entries.last() {
            BlockEntry::Pair(k, v) => if k@ == key {
                Some(v@)
            } else {
                last_pair(entries.drop_last(), key)
            },
            BlockEntry::Expected => last_pair(entries.drop_last(), key),
        }
    }
}

pub open spec fn float_key(k: Seq<char>) -> bool {
    ||| k == "temperature"@
    ||| k == "top_p"@
    ||| k == "presence_penalty"@
    ||| k == "frequency_penalty"@
}

/// A well-formed block body: no `expected` annotation, every key
/// recognized, every numeric value parsing as its declared type, and the
/// two required fields present.
pub open spec fn valid_block(entries: Seq<BlockEntry>) -> bool {
    &&& forall|i: int| 0 <= i < entries.len() ==> entry_ok(#[trigger] entries[i])
    &&& last_pair(entries, "temperature"@) is Some
    &&& last_pair(entries, "messages_code"@) is Some
}

/// The fields gathered while reading a block body.
struct ParseAcc {
    instructions: Option<String>,
    messages_code: Option<String>,
    functions_code: Option<String>,
    temperature: Option<String>,
    top_p: Option<String>,
    stop_raw: Option<String>,
    max_tokens: Option<i32>,
    max_tokens_set: bool,
    presence_penalty: Option<String>,
    frequency_penalty: Option<String>,
}

/// The gathered fields agree with the pairs read so far.
spec fn acc_ok(acc: ParseAcc, entries: Seq<BlockEntry>) -> bool {
    &&& opt_view(acc.instructions) == last_pair(entries, "instructions"@)
    &&& opt_view(acc.messages_code) == last_pair(entries, "messages_code"@)
    &&& opt_view(acc.functions_code) == last_pair(entries, "functions_code"@)
    &&& opt_view(acc.temperature) == last_pair(entries, "temperature"@)
    &&& opt_view(acc.top_p) == last_pair(entries, "top_p"@)
    &&& opt_view(acc.stop_raw) == last_pair(entries, "stop"@)
    &&& acc.max_tokens_set == (last_pair(entries, "max_tokens"@) is Some)
    &&& (match (acc.max_tokens, last_pair(entries, "max_tokens"@)) {
        (Some(t), Some(v)) => t as int == int_literal_val(v),
        (None, None) => true,
        _ => false,
    })
    &&& opt_view(acc.presence_penalty) == last_pair(entries, "presence_penalty"@)
    &&& opt_view(acc.frequency_penalty) == last_pair(entries, "frequency_penalty"@)
}

/// One entry a well-formed block body may hold.
pub open spec fn entry_ok(e: BlockEntry) -> bool {
    e matches BlockEntry::Pair(k, v) && recognized_key(k@) && (float_key(k@)
        ==> is_float_literal(v@)) && (k@ == "max_tokens"@ ==> is_int_literal(v@) && -2147483648
        <= int_literal_val(v@) <= 2147483647)
}

/// The nine field names, which all have different lengths.
proof fn lemma_key_lens()
    ensures
        "instructions"@.len() == 12,
        "messages_code"@.len() == 13,
        "functions_code"@.len() == 14,
        "temperature"@.len() == 11,
        "top_p"@.len() == 5,
        "stop"@.len() == 4,
        "max_tokens"@.len() == 10,
        "presence_penalty"@.len() == 16,
        "frequency_penalty"@.len() == 17,
{
    reveal_strlit("instructions");
    reveal_strlit("messages_code");
    reveal_strlit("functions_code");
    reveal_strlit("temperature");
    reveal_strlit("top_p");
    reveal_strlit("stop");
    reveal_strlit("max_tokens");
    reveal_strlit("presence_penalty");
    reveal_strlit("frequency_penalty");
}

/// Folds one entry into the gathered fields.
#[verifier::rlimit(100)]
fn parse_step(acc: ParseAcc, entry: &BlockEntry, Ghost(prefix): Ghost<Seq<BlockEntry>>) -> (r:
    Result<ParseAcc, BlockError>)
    requires
        acc_ok(acc, prefix),
    ensures
        r is Ok <==> entry_ok(*entry),
        r matches Ok(a2) ==> acc_ok(a2, prefix.push(*entry)),
        r matches Err(e) ==> e matches BlockError::Construction(ce) && (match ce {
            ConstructionError::UnknownKey(k) => *entry matches BlockEntry::Pair(k2, v) && k2@ == k@
                && !recognized_key(k@),
            ConstructionError::InvalidNumeric(f) => *entry matches BlockEntry::Pair(k2, v) && k2@
                == f@ && (if f@ == "max_tokens"@ {
                !(is_int_literal(v@) && -2147483648 <= int_literal_val(v@) <= 2147483647)
            } else {
                float_key(f@) && !is_float_literal(v@)
            }),
            ConstructionError::ExpectedUnsupported => *entry matches BlockEntry::Expected,
            ConstructionError::MissingTemperature => false,
            ConstructionError::MissingMessagesCode => false,
        }),
{
    proof {
        lemma_key_lens();
        assert(prefix.push(*entry).last() == *entry);
        assert(prefix.push(*entry).drop_last() =~= prefix);
    }
    match entry {
        BlockEntry::Expected => Err(
            BlockError::Construction(ConstructionError::ExpectedUnsupported),
        ),
        BlockEntry::Pair(key, value) => {
            let k = key.as_str();
            if crate::json::str_eq(k, "instructions") {
                Ok(ParseAcc { instructions: Some(value.clone()), ..acc })
            } else if crate::json::str_eq(k, "messages_code") {
                Ok(ParseAcc { messages_code: Some(value.clone()), ..acc })
            } else if crate::json::str_eq(k, "functions_code") {
                Ok(ParseAcc { functions_code: Some(value.clone()), ..acc })
            } else if crate::json::str_eq(k, "temperature") {
                if !crate::num::is_float_text(value.as_str()) {
                    return Err(
                        BlockError::Construction(
                            ConstructionError::InvalidNumeric(String::from_str("temperature")),
                        ),
                    );
                }
                Ok(ParseAcc { temperature: Some(value.clone()), ..acc })
            } else if crate::json::str_eq(k, "top_p") {
                if !crate::num::is_float_text(value.as_str()) {
                    return Err(
                        BlockError::Construction(
                            ConstructionError::InvalidNumeric(String::from_str("top_p")),
                        ),
                    );
                }
                Ok(ParseAcc { top_p: Some(value.clone()), ..acc })
            } else if crate::json::str_eq(k, "stop") {
                Ok(ParseAcc { stop_raw: Some(value.clone()), ..acc })
            } else if crate::json::str_eq(k, "max_tokens") {
                match crate::num::parse_i32(value.as_str()) {
                    Some(t) => Ok(
                        ParseAcc { max_tokens: Some(t), max_tokens_set: true, ..acc },
                    ),
                    None => Err(
                        BlockError::Construction(
                            ConstructionError::InvalidNumeric(String::from_str("max_tokens")),
                        ),
                    ),
                }
            } else if crate::json::str_eq(k, "presence_penalty") {
                if !crate::num::is_float_text(value.as_str()) {
                    return Err(
                        BlockError::Construction(
                            ConstructionError::InvalidNumeric(
                                String::from_str("presence_penalty"),
                            ),
                        ),
                    );
                }
                Ok(ParseAcc { presence_penalty: Some(value.clone()), ..acc })
            } else if crate::json::str_eq(k, "frequency_penalty") {
                if !crate::num::is_float_text(value.as_str()) {
                    return Err(
                        BlockError::Construction(
                            ConstructionError::InvalidNumeric(
                                String::from_str("frequency_penalty"),
                            ),
                        ),
                    );
                }
                Ok(ParseAcc { frequency_penalty: Some(value.clone()), ..acc })
            } else {
                Err(BlockError::Construction(ConstructionError::UnknownKey(key.clone())))
            }
        },
    }
}

impl Chat {

    /// Builds a block definition from its parsed key/value pairs: every key
    /// must be recognized, numeric fields must parse, `temperature` and
    /// `messages_code` are mandatory, and the `expected` annotation is
    /// rejected as unsupported. A later pair overrides an earlier one; the
    /// `stop` value is split at newlines into the ordered stop list.
    #[verifier::loop_isolation(false)]
    #[verifier::rlimit(100)]
    pub fn parse(entries: &Vec<BlockEntry>) -> (r: Result<Chat, BlockError>)
        ensures
            r is Ok <==> valid_block(entries@),
            r matches Ok(c) ==> {
                &&& opt_view(c.instructions) == last_pair(entries@, "instructions"@)
                &&& Some(c.messages_code@) == last_pair(entries@, "messages_code"@)
                &&& opt_view(c.functions_code) == last_pair(entries@, "functions_code"@)
                &&& Some(c.temperature@) == last_pair(entries@, "temperature"@)
                &&& opt_view(c.top_p) == last_pair(entries@, "top_p"@)
                &&& c.stop@.map_values(|s: String| s@) == (match last_pair(entries@, "stop"@) {
                    Some(v) => split_seq(v, '\n'),
                    None => Seq::<Seq<char>>::empty(),
                })
                &&& (match (c.max_tokens, last_pair(entries@, "max_tokens"@)) {
                    (Some(t), Some(v)) => t as int == int_literal_val(v),
                    (None, None) => true,
                    _ => false,
                })
                &&& opt_view(c.presence_penalty) == last_pair(entries@, "presence_penalty"@)
                &&& opt_view(c.frequency_penalty) == last_pair(entries@, "frequency_penalty"@)
            },
            r matches Err(e) ==> e matches BlockError::Construction(ce) && (match ce {
                ConstructionError::UnknownKey(k) => exists|i: int|
                    0 <= i < entries@.len() && (#[trigger] entries@[i] matches BlockEntry::Pair(
                        k2,
                        v,
                    ) && k2@ == k@ && !recognized_key(k@)),
                ConstructionError::InvalidNumeric(f) => exists|i: int|
                    0 <= i < entries@.len() && (#[trigger] entries@[i] matches BlockEntry::Pair(
                        k2,
                        v,
                    ) && k2@ == f@ && (if f@ == "max_tokens"@ {
                        !(is_int_literal(v@) && -2147483648 <= int_literal_val(v@) <= 2147483647)
                    } else {
                        float_key(f@) && !is_float_literal(v@)
                    })),
                ConstructionError::ExpectedUnsupported => exists|i: int|
                    0 <= i < entries@.len() && (#[trigger] entries@[i] matches BlockEntry::Expected),
                ConstructionError::MissingTemperature => last_pair(entries@, "temperature"@) is None,
                ConstructionError::MissingMessagesCode => last_pair(
                    entries@,
                    "messages_code"@,
                ) is None,
            }),
    {
        let mut acc = ParseAcc {
            instructions: None,
            messages_code: None,
            functions_code: None,
            temperature: None,
            top_p: None,
            stop_raw: None,
            max_tokens: None,
            max_tokens_set: false,
            presence_penalty: None,
            frequency_penalty: None,
        };
        let mut i: usize = 0;
        proof {
            assert(entries@.take(0) =~= Seq::<BlockEntry>::empty());
        }
        while i < entries.len()
            invariant
                0 <= i <= entries.len(),
                acc_ok(acc, entries@.take(i as int)),
                forall|j: int| 0 <= j < i ==> entry_ok(#[trigger] entries@[j]),
            decreases entries.len() - i,
        {
            let ghost prefix = entries@.take(i as int);
            acc = match parse_step(acc, &entries[i], Ghost(prefix)) {
                Ok(a2) => a2,
                Err(e) => {
                    return Err(e);
                },
            };
            proof {
                assert(entries@.take(i + 1) =~= prefix.push(entries@[i as int]));
            }
            i = i + 1;
        }
        proof {
            assert(entries@.take(entries@.len() as int) =~= entries@);
        }
        let temperature = match acc.temperature {
            Some(t) => t,
            None => {
                return Err(BlockError::Construction(ConstructionError::MissingTemperature));
            },
        };
        let messages_code = match acc.messages_code {
            Some(m) => m,
            None => {
                return Err(BlockError::Construction(ConstructionError::MissingMessagesCode));
            },
        };
        let stop: Vec<String> = match &acc.stop_raw {
            Some(s) => split_newlines(s.as_str()),
            None => Vec::new(),
        };
        proof {
            if acc.stop_raw is None {
                assert(stop@.map_values(|s: String| s@) =~= Seq::<Seq<char>>::empty());
            }
        }
        Ok(
            Chat {
                instructions: acc.instructions,
                messages_code,
                functions_code: acc.functions_code,
                temperature,
                top_p: acc.top_p,
                stop,
                max_tokens: acc.max_tokens,
                presence_penalty: acc.presence_penalty,
                frequency_penalty: acc.frequency_penalty,
            },
        )
    }

    /// The block kind this definition belongs to.
    pub fn block_type(&self) -> (r: BlockType)
        ensures
            r == BlockType::Chat,
    {
        BlockType::Chat
    }

    /// The instruction template with context variables substituted and the
    /// literal-backtick escape restored: empty when the block has no
    /// instructions. `None` when substitution fails.
    pub fn instructions(&self, vars: &Vec<(String, String)>) -> (r: Option<String>)
        ensures
            (match r {
                Some(out) => instructions_spec(
                    self@,
                    vars@.map_values(|p: (String, String)| (p.0@, p.1@)),
                ) == Some(out@),
                None => instructions_spec(
                    self@,
                    vars@.map_values(|p: (String, String)| (p.0@, p.1@)),
                ) is None,
            }),
    {
        match &self.instructions {
            None => Some(String::new()),
            Some(t) => {
                match subst_vars(t.as_str(), vars) {
                    None => None,
                    Some(sub) => Some(
                        replace_all(sub.as_str(), "<DUST_TRIPLE_BACKTICKS>", "```"),
                    ),
                }
            },
        }
    }
}

/// A guest snippet with the literal-backtick escape token restored, as it
/// is handed to the sandbox.
pub fn prepare_snippet(code: &str) -> (r: String)
    ensures
        r@ == replace_seq(code@, "<DUST_TRIPLE_BACKTICKS>"@, "```"@),
{
    replace_all(code, "<DUST_TRIPLE_BACKTICKS>", "```")
}

} // verus!
