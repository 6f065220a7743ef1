use dust_chat::chat::{BlockEntry, Chat};
use dust_chat::engine::{
    execute_on_dispatched, messages_with_instructions, parse_functions, parse_messages,
    resolve_config, validate_function_call, wrap_event, DispatchOutcome, ExecAction, ExecContext,
    ExecState, GuestOutcome,
};
use dust_chat::errors::{BlockError, ConfigError, Snippet};
use dust_chat::json::{json_clone, Json};
use dust_chat::llm::{ChatFunction, ChatMessage, ChatMessageRole, ProviderId};

fn pair(k: &str, v: &str) -> BlockEntry {
    BlockEntry::Pair(k.to_string(), v.to_string())
}

fn obj(fields: Vec<(&str, Json)>) -> Json {
    Json::Obj(fields.into_iter().map(|(k, v)| (k.to_string(), v)).collect())
}

fn s(v: &str) -> Json {
    Json::Str(v.to_string())
}

fn base_config() -> Json {
    obj(vec![("provider_id", s("openai")), ("model_id", s("m"))])
}

fn ctx_with(config: Option<Json>, has_sink: bool) -> ExecContext {
    ExecContext {
        block_name: "MODEL".to_string(),
        config,
        variables: Vec::new(),
        input_index: 2,
        map_coords: Json::Null,
        has_event_sink: has_sink,
    }
}

fn user_message(content: &str) -> Json {
    obj(vec![("role", s("user")), ("content", s(content))])
}

fn completion(content: &str) -> ChatMessage {
    ChatMessage {
        role: ChatMessageRole::Assistant,
        name: None,
        content: Some(content.to_string()),
        function_call: None,
    }
}

#[test]
fn resolve_config_reads_required_and_defaults() {
    let cfg = resolve_config(Some(&base_config())).unwrap();
    assert_eq!(cfg.provider_id, ProviderId::OpenAi);
    assert_eq!(cfg.model_id, "m");
    assert!(cfg.temperature.is_none());
    assert!(cfg.function_call.is_none());
    assert!(cfg.use_cache);
    assert!(!cfg.use_stream);
    assert!(cfg.extras.is_none());
}

#[test]
fn resolve_config_requires_configuration() {
    let err = resolve_config(None).unwrap_err();
    assert_eq!(err, BlockError::Configuration(ConfigError::Missing));
}

#[test]
fn resolve_config_requires_model_id() {
    let cfg = obj(vec![("provider_id", s("openai"))]);
    let err = resolve_config(Some(&cfg)).unwrap_err();
    assert_eq!(err, BlockError::Configuration(ConfigError::MissingOption("model_id".to_string())));
}

#[test]
fn unresolved_instruction_variable_fails_before_dispatch() {
    let chat = Chat::parse(&vec![
        pair("temperature", "1"),
        pair("messages_code", "c"),
        pair("instructions", "Use ${tone}"),
    ])
    .unwrap();
    let ctx = ctx_with(Some(base_config()), false);
    let cfg = resolve_config(ctx.config.as_ref()).unwrap();
    let outcome = GuestOutcome::Value { value: Json::Arr(vec![user_message("hi")]), logs: Vec::new() };
    let (state, action) = chat.execute_on_messages(&ctx, cfg, outcome);
    assert_eq!(state, ExecState::Done);
    assert_eq!(action, ExecAction::Fail { error: BlockError::BadInstructions });
}

#[test]
fn resolve_config_rejects_unknown_provider() {
    let cfg = obj(vec![("provider_id", s("x")), ("model_id", s("m"))]);
    let err = resolve_config(Some(&cfg)).unwrap_err();
    assert_eq!(err, BlockError::Configuration(ConfigError::UnknownProvider("x".to_string())));
}

#[test]
fn resolve_config_rejects_wrong_typed_toggle() {
    let cfg = obj(vec![
        ("provider_id", s("openai")),
        ("model_id", s("m")),
        ("use_cache", s("yes")),
    ]);
    let err = resolve_config(Some(&cfg)).unwrap_err();
    assert_eq!(err, BlockError::Configuration(ConfigError::InvalidOption("use_cache".to_string())));
}

#[test]
fn resolve_config_treats_empty_function_call_as_none() {
    let cfg = obj(vec![
        ("provider_id", s("openai")),
        ("model_id", s("m")),
        ("function_call", s("")),
    ]);
    assert!(resolve_config(Some(&cfg)).unwrap().function_call.is_none());
    let cfg2 = obj(vec![
        ("provider_id", s("openai")),
        ("model_id", s("m")),
        ("function_call", Json::Null),
    ]);
    assert!(resolve_config(Some(&cfg2)).unwrap().function_call.is_none());
}

#[test]
fn resolve_config_carries_openai_user_extras() {
    let cfg = obj(vec![
        ("provider_id", s("openai")),
        ("model_id", s("m")),
        ("openai_user", s("u1")),
    ]);
    let rc = resolve_config(Some(&cfg)).unwrap();
    assert_eq!(rc.extras, Some(obj(vec![("openai_user", s("u1"))])));
}

#[test]
fn parse_messages_accepts_role_content_name() {
    let value = Json::Arr(vec![
        user_message("hi"),
        obj(vec![("role", s("assistant")), ("content", s("yo")), ("name", s("bot"))]),
    ]);
    let ms = parse_messages(&value).unwrap();
    assert_eq!(ms.len(), 2);
    assert_eq!(ms[0].role, ChatMessageRole::User);
    assert_eq!(ms[0].content, Some("hi".to_string()));
    assert!(ms[0].name.is_none());
    assert_eq!(ms[1].name, Some("bot".to_string()));
}

#[test]
fn parse_messages_rejects_bad_shapes() {
    for bad in [
        s("nope"),
        Json::Arr(vec![s("nope")]),
        Json::Arr(vec![obj(vec![("role", s("user"))])]),
        Json::Arr(vec![obj(vec![("role", s("emperor")), ("content", s("hi"))])]),
    ] {
        assert_eq!(
            parse_messages(&bad).unwrap_err(),
            BlockError::Validation { snippet: Snippet::MessagesCode }
        );
    }
}

#[test]
fn parse_functions_accepts_null_and_declarations() {
    assert!(parse_functions(&Json::Null).unwrap().is_empty());
    let value = Json::Arr(vec![obj(vec![
        ("name", s("get_weather")),
        ("description", s("d")),
        ("parameters", obj(vec![("type", s("object"))])),
    ])]);
    let fs = parse_functions(&value).unwrap();
    assert_eq!(fs.len(), 1);
    assert_eq!(fs[0].name, "get_weather");
}

#[test]
fn parse_functions_rejects_missing_fields() {
    let value = Json::Arr(vec![obj(vec![("name", s("f"))])]);
    assert_eq!(
        parse_functions(&value).unwrap_err(),
        BlockError::Validation { snippet: Snippet::FunctionsCode }
    );
}

#[test]
fn function_call_auto_and_none_always_pass() {
    let no_functions: Vec<ChatFunction> = Vec::new();
    assert!(validate_function_call(&Some("auto".to_string()), &no_functions).is_ok());
    assert!(validate_function_call(&Some("none".to_string()), &no_functions).is_ok());
    assert!(validate_function_call(&None, &no_functions).is_ok());
    let err = validate_function_call(&Some("x".to_string()), &no_functions).unwrap_err();
    assert_eq!(err, BlockError::Configuration(ConfigError::UnknownFunction("x".to_string())));
}

#[test]
fn function_call_must_name_declared_function() {
    let fs = vec![ChatFunction {
        name: "x".to_string(),
        description: Some("d".to_string()),
        parameters: Some(Json::Null),
    }];
    assert!(validate_function_call(&Some("x".to_string()), &fs).is_ok());
    assert!(validate_function_call(&Some("y".to_string()), &fs).is_err());
}

#[test]
fn empty_instructions_add_no_system_message() {
    let out = messages_with_instructions("", vec![completion("a")]);
    assert_eq!(out, vec![completion("a")]);
}

#[test]
fn instructions_always_become_first_message() {
    let ms = vec![completion("a"), completion("b")];
    let out = messages_with_instructions("Be nice", ms);
    assert_eq!(out.len(), 3);
    assert_eq!(out[0].role, ChatMessageRole::System);
    assert_eq!(out[0].content, Some("Be nice".to_string()));
    assert_eq!(out[1].content, Some("a".to_string()));
}

#[test]
fn chat_scenario_assembles_request_and_result() {
    let entries = vec![
        pair("temperature", "0.7"),
        pair("messages_code", "code"),
        pair("instructions", "Be nice"),
    ];
    let chat = Chat::parse(&entries).unwrap();
    let ctx = ctx_with(Some(base_config()), false);
    let (state, action) = chat.execute_start(&ctx);
    let cfg = match (state, action) {
        (ExecState::AwaitingMessages { cfg }, ExecAction::EvalMessages { code }) => {
            assert_eq!(code, "code");
            cfg
        },
        other => panic!("unexpected start: {other:?}"),
    };
    let outcome = GuestOutcome::Value {
        value: Json::Arr(vec![user_message("hi")]),
        logs: Vec::new(),
    };
    let (state, action) = chat.execute_on_messages(&ctx, cfg, outcome);
    let request = match action {
        ExecAction::DispatchCached { request, use_cache } => {
            assert!(use_cache);
            request
        },
        other => panic!("unexpected action: {other:?}"),
    };
    assert!(matches!(state, ExecState::AwaitingDispatch { .. }));
    assert_eq!(request.n, 1);
    assert_eq!(request.temperature, "0.7");
    assert_eq!(request.model_id, "m");
    assert_eq!(request.messages.len(), 2);
    assert_eq!(request.messages[0].role, ChatMessageRole::System);
    assert_eq!(request.messages[0].content, Some("Be nice".to_string()));
    assert_eq!(request.messages[1].role, ChatMessageRole::User);
    assert_eq!(request.messages[1].content, Some("hi".to_string()));

    let (_, action) = execute_on_dispatched(
        Vec::new(),
        Vec::new(),
        DispatchOutcome::Completions { completions: vec![completion("sure")] },
    );
    match action {
        ExecAction::Finish { result } => {
            let expected = obj(vec![(
                "message",
                obj(vec![("role", s("assistant")), ("content", s("sure"))]),
            )]);
            assert_eq!(result.value, expected);
            assert_eq!(result.meta, Some(obj(vec![("logs", Json::Arr(Vec::new()))])));
        },
        other => panic!("unexpected action: {other:?}"),
    }
}

#[test]
fn run_temperature_overrides_static_value() {
    let chat = Chat::parse(&vec![pair("temperature", "0.7"), pair("messages_code", "c")]).unwrap();
    let cfg_json = obj(vec![
        ("provider_id", s("openai")),
        ("model_id", s("m")),
        ("temperature", Json::Num("0.2".to_string())),
    ]);
    let ctx = ctx_with(Some(cfg_json), false);
    let (_, _) = chat.execute_start(&ctx);
    let cfg = resolve_config(ctx.config.as_ref()).unwrap();
    let outcome = GuestOutcome::Value { value: Json::Arr(vec![user_message("hi")]), logs: Vec::new() };
    let (_, action) = chat.execute_on_messages(&ctx, cfg, outcome);
    match action {
        ExecAction::DispatchCached { request, .. } => assert_eq!(request.temperature, "0.2"),
        other => panic!("unexpected action: {other:?}"),
    }
}

#[test]
fn streaming_needs_toggle_and_sink() {
    let chat = Chat::parse(&vec![pair("temperature", "1"), pair("messages_code", "c")]).unwrap();
    let cfg_json = obj(vec![
        ("provider_id", s("openai")),
        ("model_id", s("m")),
        ("use_stream", Json::Bool(true)),
    ]);
    let outcome = || GuestOutcome::Value {
        value: Json::Arr(vec![user_message("hi")]),
        logs: Vec::new(),
    };

    let ctx = ctx_with(Some(json_clone(&cfg_json)), true);
    let cfg = resolve_config(ctx.config.as_ref()).unwrap();
    let (_, action) = chat.execute_on_messages(&ctx, cfg, outcome());
    assert!(matches!(action, ExecAction::DispatchStreamed { .. }));

    let ctx = ctx_with(Some(cfg_json), false);
    let cfg = resolve_config(ctx.config.as_ref()).unwrap();
    let (_, action) = chat.execute_on_messages(&ctx, cfg, outcome());
    assert!(matches!(action, ExecAction::DispatchCached { .. }));
}

#[test]
fn use_cache_false_still_dispatches() {
    let chat = Chat::parse(&vec![pair("temperature", "1"), pair("messages_code", "c")]).unwrap();
    let cfg_json = obj(vec![
        ("provider_id", s("openai")),
        ("model_id", s("m")),
        ("use_cache", Json::Bool(false)),
    ]);
    let outcome = || GuestOutcome::Value {
        value: Json::Arr(vec![user_message("hi")]),
        logs: Vec::new(),
    };
    // Two runs of an identical definition share a content hash; the machine
    // still emits a dispatch action each time, carrying the cache opt-out.
    assert_eq!(chat.inner_hash(), chat.inner_hash());
    for _ in 0..2 {
        let ctx = ctx_with(Some(json_clone(&cfg_json)), false);
        let cfg = resolve_config(ctx.config.as_ref()).unwrap();
        let (_, action) = chat.execute_on_messages(&ctx, cfg, outcome());
        match action {
            ExecAction::DispatchCached { use_cache, .. } => assert!(!use_cache),
            other => panic!("unexpected action: {other:?}"),
        }
    }
}

#[test]
fn failing_functions_code_stops_before_dispatch() {
    let chat = Chat::parse(&vec![
        pair("temperature", "1"),
        pair("messages_code", "c"),
        pair("functions_code", "f"),
    ])
    .unwrap();
    let ctx = ctx_with(Some(base_config()), false);
    let cfg = resolve_config(ctx.config.as_ref()).unwrap();
    let outcome = GuestOutcome::Value { value: Json::Arr(vec![user_message("hi")]), logs: Vec::new() };
    let (state, action) = chat.execute_on_messages(&ctx, cfg, outcome);
    assert!(matches!(action, ExecAction::EvalFunctions { .. }));
    let (cfg, messages, messages_logs) = match state {
        ExecState::AwaitingFunctions { cfg, messages, messages_logs } => {
            (cfg, messages, messages_logs)
        },
        other => panic!("unexpected state: {other:?}"),
    };
    let (state, action) = chat.execute_on_functions(
        &ctx,
        cfg,
        messages,
        messages_logs,
        GuestOutcome::Failure { message: "boom".to_string() },
    );
    assert_eq!(state, ExecState::Done);
    match action {
        ExecAction::Fail { error } => assert_eq!(
            error,
            BlockError::GuestExecution {
                snippet: Snippet::FunctionsCode,
                message: "boom".to_string()
            }
        ),
        other => panic!("functions failure must not dispatch: {other:?}"),
    }
}

#[test]
fn named_completion_keeps_its_name_in_the_result() {
    let named = ChatMessage {
        role: ChatMessageRole::Function,
        name: Some("get_weather".to_string()),
        content: Some("22C".to_string()),
        function_call: None,
    };
    let (_, action) = execute_on_dispatched(
        vec![s("log1")],
        vec![s("log2")],
        DispatchOutcome::Completions { completions: vec![named] },
    );
    match action {
        ExecAction::Finish { result } => {
            let expected = obj(vec![(
                "message",
                obj(vec![
                    ("role", s("function")),
                    ("name", s("get_weather")),
                    ("content", s("22C")),
                ]),
            )]);
            assert_eq!(result.value, expected);
            assert_eq!(
                result.meta,
                Some(obj(vec![("logs", Json::Arr(vec![s("log1"), s("log2")]))]))
            );
        },
        other => panic!("unexpected action: {other:?}"),
    }
}

#[test]
fn dispatcher_must_return_exactly_one_completion() {
    let (_, action) = execute_on_dispatched(
        Vec::new(),
        Vec::new(),
        DispatchOutcome::Completions { completions: vec![completion("a"), completion("b")] },
    );
    assert_eq!(
        action,
        ExecAction::Fail { error: BlockError::ContractViolation { completions: 2 } }
    );
    let (_, action) = execute_on_dispatched(
        Vec::new(),
        Vec::new(),
        DispatchOutcome::Failure { message: "down".to_string() },
    );
    assert_eq!(action, ExecAction::Fail { error: BlockError::Dispatch { message: "down".to_string() } });
}

#[test]
fn stream_events_are_filtered_and_wrapped() {
    let tokens_event = obj(vec![("type", s("tokens")), ("content", s("he"))]);
    let fc_event = obj(vec![("type", s("function_call")), ("content", s("get_weather"))]);
    let other_event = obj(vec![("type", s("other")), ("content", s("x"))]);

    let wrapped = wrap_event(&tokens_event, "MODEL", 2, &Json::Null).unwrap();
    let expected = obj(vec![
        ("type", s("tokens")),
        (
            "content",
            obj(vec![
                ("block_type", s("chat")),
                ("block_name", s("MODEL")),
                ("input_index", Json::Num("2".to_string())),
                ("map", Json::Null),
                ("tokens", s("he")),
            ]),
        ),
    ]);
    assert_eq!(wrapped, expected);

    let wrapped = wrap_event(&fc_event, "MODEL", 2, &Json::Null).unwrap();
    let expected = obj(vec![
        ("type", s("function_call")),
        (
            "content",
            obj(vec![
                ("block_type", s("chat")),
                ("block_name", s("MODEL")),
                ("input_index", Json::Num("2".to_string())),
                ("map", Json::Null),
                ("function_call", s("get_weather")),
            ]),
        ),
    ]);
    assert_eq!(wrapped, expected);

    let fcat_event = obj(vec![("type", s("function_call_arguments_tokens")), ("content", s("{"))]);
    let wrapped = wrap_event(&fcat_event, "MODEL", 2, &Json::Null).unwrap();
    let expected = obj(vec![
        ("type", s("function_call_arguments_tokens")),
        (
            "content",
            obj(vec![
                ("block_type", s("chat")),
                ("block_name", s("MODEL")),
                ("input_index", Json::Num("2".to_string())),
                ("map", Json::Null),
                ("tokens", s("{")),
            ]),
        ),
    ]);
    assert_eq!(wrapped, expected);

    assert!(wrap_event(&other_event, "MODEL", 2, &Json::Null).is_none());
    assert!(wrap_event(&s("notanobject"), "MODEL", 2, &Json::Null).is_none());
}

#[test]
fn guest_failure_in_messages_code_names_it() {
    let chat = Chat::parse(&vec![pair("temperature", "1"), pair("messages_code", "c")]).unwrap();
    let ctx = ctx_with(Some(base_config()), false);
    let cfg = resolve_config(ctx.config.as_ref()).unwrap();
    let (state, action) =
        chat.execute_on_messages(&ctx, cfg, GuestOutcome::Failure { message: "t/o".to_string() });
    assert_eq!(state, ExecState::Done);
    assert_eq!(
        action,
        ExecAction::Fail {
            error: BlockError::GuestExecution {
                snippet: Snippet::MessagesCode,
                message: "t/o".to_string()
            }
        }
    );
}
