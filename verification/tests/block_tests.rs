use dust_chat::chat::{BlockEntry, BlockType, Chat};
use dust_chat::errors::{BlockError, ConstructionError};
use dust_chat::num::parse_i32;
use dust_chat::text::{replace_all, split_newlines, subst_vars, u64_to_dec};

fn pair(k: &str, v: &str) -> BlockEntry {
    BlockEntry::Pair(k.to_string(), v.to_string())
}

fn minimal_entries() -> Vec<BlockEntry> {
    vec![pair("temperature", "0.7"), pair("messages_code", "code")]
}

#[test]
fn parse_accepts_minimal_definition() {
    let chat = Chat::parse(&minimal_entries()).unwrap();
    assert_eq!(chat.temperature, "0.7");
    assert_eq!(chat.messages_code, "code");
    assert!(chat.instructions.is_none());
    assert!(chat.functions_code.is_none());
    assert!(chat.stop.is_empty());
    assert!(chat.max_tokens.is_none());
    assert_eq!(chat.block_type(), BlockType::Chat);
}

#[test]
fn parse_rejects_unknown_key() {
    let mut entries = minimal_entries();
    entries.push(pair("temprature", "0.7"));
    let err = Chat::parse(&entries).unwrap_err();
    assert_eq!(
        err,
        BlockError::Construction(ConstructionError::UnknownKey("temprature".to_string()))
    );
}

#[test]
fn parse_rejects_missing_temperature() {
    let entries = vec![pair("messages_code", "code")];
    let err = Chat::parse(&entries).unwrap_err();
    assert_eq!(err, BlockError::Construction(ConstructionError::MissingTemperature));
}

#[test]
fn parse_rejects_missing_messages_code() {
    let entries = vec![pair("temperature", "0.7")];
    let err = Chat::parse(&entries).unwrap_err();
    assert_eq!(err, BlockError::Construction(ConstructionError::MissingMessagesCode));
}

#[test]
fn parse_rejects_bad_temperature() {
    let entries = vec![pair("temperature", "warm"), pair("messages_code", "code")];
    let err = Chat::parse(&entries).unwrap_err();
    assert_eq!(
        err,
        BlockError::Construction(ConstructionError::InvalidNumeric("temperature".to_string()))
    );
}

#[test]
fn parse_rejects_bad_max_tokens() {
    let mut entries = minimal_entries();
    entries.push(pair("max_tokens", "1.5"));
    let err = Chat::parse(&entries).unwrap_err();
    assert_eq!(
        err,
        BlockError::Construction(ConstructionError::InvalidNumeric("max_tokens".to_string()))
    );
}

#[test]
fn parse_rejects_expected_annotation() {
    let mut entries = minimal_entries();
    entries.push(BlockEntry::Expected);
    let err = Chat::parse(&entries).unwrap_err();
    assert_eq!(err, BlockError::Construction(ConstructionError::ExpectedUnsupported));
}

#[test]
fn parse_accepts_float_spellings() {
    for t in ["1e-3", "inf", "+0.5", "NaN", ".5", "5.", "-2.5E2"] {
        let entries = vec![pair("temperature", t), pair("messages_code", "c")];
        assert!(Chat::parse(&entries).is_ok(), "rejected {t}");
    }
    for t in ["", "1..2", "1e", "e5", "0x1", "1 "] {
        let entries = vec![pair("temperature", t), pair("messages_code", "c")];
        assert!(Chat::parse(&entries).is_err(), "accepted {t}");
    }
}

#[test]
fn parse_splits_stop_sequences() {
    let mut entries = minimal_entries();
    entries.push(pair("stop", "END\nSTOP"));
    let chat = Chat::parse(&entries).unwrap();
    assert_eq!(chat.stop, vec!["END".to_string(), "STOP".to_string()]);
}

#[test]
fn parse_later_pair_overrides_earlier() {
    let mut entries = minimal_entries();
    entries.push(pair("temperature", "0.9"));
    let chat = Chat::parse(&entries).unwrap();
    assert_eq!(chat.temperature, "0.9");
}

#[test]
fn parse_reads_max_tokens() {
    let mut entries = minimal_entries();
    entries.push(pair("max_tokens", "-2048"));
    let chat = Chat::parse(&entries).unwrap();
    assert_eq!(chat.max_tokens, Some(-2048));
}

#[test]
fn hash_is_deterministic() {
    let a = Chat::parse(&minimal_entries()).unwrap();
    let b = Chat::parse(&minimal_entries()).unwrap();
    assert_eq!(a.inner_hash(), b.inner_hash());
    assert_eq!(a.inner_hash().len(), 64);
}

#[test]
fn hash_changes_with_stop_order() {
    let mut e1 = minimal_entries();
    e1.push(pair("stop", "a\nb"));
    let mut e2 = minimal_entries();
    e2.push(pair("stop", "b\na"));
    let c1 = Chat::parse(&e1).unwrap();
    let c2 = Chat::parse(&e2).unwrap();
    assert_ne!(c1.hash_text(), c2.hash_text());
    assert_ne!(c1.inner_hash(), c2.inner_hash());
}

#[test]
fn hash_sees_optional_field_presence() {
    let plain = Chat::parse(&minimal_entries()).unwrap();
    let mut with_top_p = minimal_entries();
    with_top_p.push(pair("top_p", "1"));
    let topped = Chat::parse(&with_top_p).unwrap();
    assert_ne!(plain.hash_text(), topped.hash_text());
    assert_ne!(plain.inner_hash(), topped.inner_hash());

    let mut with_other_top_p = minimal_entries();
    with_other_top_p.push(pair("top_p", "0.9"));
    let other = Chat::parse(&with_other_top_p).unwrap();
    assert_ne!(topped.hash_text(), other.hash_text());
}

#[test]
fn hash_sees_max_tokens_presence() {
    let plain = Chat::parse(&minimal_entries()).unwrap();
    let mut with_cap = minimal_entries();
    with_cap.push(pair("max_tokens", "512"));
    let capped = Chat::parse(&with_cap).unwrap();
    assert_ne!(plain.hash_text(), capped.hash_text());
    assert_ne!(plain.inner_hash(), capped.inner_hash());
}

#[test]
fn hash_splits_adjacent_fields() {
    let e1 = vec![pair("temperature", "1"), pair("messages_code", "ab")];
    let e2 = vec![pair("temperature", "1"), pair("messages_code", "a"), pair("functions_code", "b")];
    let c1 = Chat::parse(&e1).unwrap();
    let c2 = Chat::parse(&e2).unwrap();
    assert_ne!(c1.hash_text(), c2.hash_text());
}

#[test]
fn instructions_substitute_and_unescape() {
    let mut entries = minimal_entries();
    entries.push(pair("instructions", "Say ${word} in <DUST_TRIPLE_BACKTICKS>rust"));
    let chat = Chat::parse(&entries).unwrap();
    let vars = vec![("word".to_string(), "hello".to_string())];
    assert_eq!(chat.instructions(&vars).unwrap(), "Say hello in ```rust");
}

#[test]
fn instructions_fail_on_unbound_variable() {
    let mut entries = minimal_entries();
    entries.push(pair("instructions", "Say ${missing}"));
    let chat = Chat::parse(&entries).unwrap();
    assert!(chat.instructions(&Vec::new()).is_none());
}

#[test]
fn instructions_default_to_empty() {
    let chat = Chat::parse(&minimal_entries()).unwrap();
    assert_eq!(chat.instructions(&Vec::new()).unwrap(), "");
}

#[test]
fn replace_all_rewrites_every_occurrence() {
    assert_eq!(replace_all("a<t>b<t>", "<t>", "."), "a.b.");
    assert_eq!(replace_all("aaa", "aa", "b"), "ba");
    assert_eq!(replace_all("abc", "x", "y"), "abc");
}

#[test]
fn split_newlines_keeps_segments() {
    assert_eq!(split_newlines(""), vec!["".to_string()]);
    assert_eq!(split_newlines("a\nb"), vec!["a".to_string(), "b".to_string()]);
    assert_eq!(split_newlines("a\n"), vec!["a".to_string(), "".to_string()]);
}

#[test]
fn subst_vars_replaces_references() {
    let vars = vec![("a".to_string(), "1".to_string())];
    assert_eq!(subst_vars("x${a}y", &vars).unwrap(), "x1y");
    assert!(subst_vars("x${b}y", &vars).is_none());
    assert!(subst_vars("x${a", &vars).is_none());
}

#[test]
fn parse_i32_handles_bounds() {
    assert_eq!(parse_i32("2147483647"), Some(2147483647));
    assert_eq!(parse_i32("-2147483648"), Some(i32::MIN));
    assert_eq!(parse_i32("2147483648"), None);
    assert_eq!(parse_i32("+007"), Some(7));
    assert_eq!(parse_i32(""), None);
    assert_eq!(parse_i32("1.0"), None);
}

#[test]
fn u64_to_dec_renders_digits() {
    assert_eq!(u64_to_dec(0), "0");
    assert_eq!(u64_to_dec(9041), "9041");
}
