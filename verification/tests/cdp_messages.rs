use chatgpt_zh_launcher::cdp::{
    call_expired, check_runtime_marker, classify_reply, injection_commands, is_voice_typing_event,
    locale_probe, locale_report_text, marker_probe, page_reload, parse_locale_setting_status,
    CdpSession, LocaleSettingStatus, MarkerError, Reply, BRIDGE_UNAVAILABLE_DETAIL,
    LOCALE_EXPRESSION, MARKER_EXPRESSION, UNKNOWN_FAILURE_DETAIL, VOICE_TYPING_BINDING,
};
use chatgpt_zh_launcher::json::{Json, JsonNumber};
use chatgpt_zh_launcher::script::INJECTION_SCRIPT;

fn s(text: &str) -> Json {
    Json::Str(text.to_string())
}

fn obj(members: Vec<(&str, Json)>) -> Json {
    Json::Object(members.into_iter().map(|(k, v)| (k.to_string(), v)).collect())
}

fn text_of(j: Option<&Json>) -> Option<&str> {
    j.and_then(|v| v.as_str())
}

#[test]
fn recognizes_only_the_expected_voice_typing_binding() {
    let expected = obj(vec![
        ("method", s("Runtime.bindingCalled")),
        ("params", obj(vec![("name", s(VOICE_TYPING_BINDING)), ("payload", s("request"))])),
    ]);
    assert!(is_voice_typing_event(&expected));
    assert!(!is_voice_typing_event(&obj(vec![
        ("method", s("Runtime.bindingCalled")),
        ("params", obj(vec![("name", s(VOICE_TYPING_BINDING)), ("payload", s("unexpected"))])),
    ])));
}

#[test]
fn other_events_are_not_voice_typing() {
    assert!(!is_voice_typing_event(&obj(vec![
        ("method", s("Page.loadEventFired")),
        ("params", obj(vec![("name", s(VOICE_TYPING_BINDING)), ("payload", s("request"))])),
    ])));
    assert!(!is_voice_typing_event(&obj(vec![
        ("method", s("Runtime.bindingCalled")),
        ("params", obj(vec![("name", s("other")), ("payload", s("request"))])),
    ])));
    assert!(!is_voice_typing_event(&Json::Null));
}

#[test]
fn locale_monitor_distinguishes_ui_readiness_from_reload_requests() {
    assert_eq!(
        parse_locale_setting_status(&obj(vec![("settingStatus", s("ready"))])),
        LocaleSettingStatus::Ready
    );
    assert_eq!(
        parse_locale_setting_status(&obj(vec![("settingStatus", s("reload-required"))])),
        LocaleSettingStatus::ReloadRequired
    );
    assert_eq!(
        parse_locale_setting_status(&obj(vec![("settingStatus", s("verifying-ui"))])),
        LocaleSettingStatus::Pending
    );
}

#[test]
fn locale_monitor_preserves_failure_detail() {
    assert_eq!(
        parse_locale_setting_status(&obj(vec![
            ("settingStatus", s("failed")),
            ("settingError", s("settings bridge unavailable")),
        ])),
        LocaleSettingStatus::Failed("settings bridge unavailable".to_string())
    );
}

#[test]
fn locale_failures_without_detail_and_missing_bridge() {
    assert_eq!(
        parse_locale_setting_status(&obj(vec![("settingStatus", s("failed"))])),
        LocaleSettingStatus::Failed(UNKNOWN_FAILURE_DETAIL.to_string())
    );
    assert_eq!(
        parse_locale_setting_status(&obj(vec![("settingStatus", s("bridge-unavailable"))])),
        LocaleSettingStatus::Failed(BRIDGE_UNAVAILABLE_DETAIL.to_string())
    );
    assert_eq!(parse_locale_setting_status(&Json::Null), LocaleSettingStatus::Pending);
}

#[test]
fn replies_are_sorted_into_answers_refusals_events_and_noise() {
    let answer = obj(vec![
        ("id", Json::Number(JsonNumber::PosInt(7))),
        ("result", obj(vec![("ok", Json::Bool(true))])),
    ]);
    match classify_reply(answer, 7) {
        Reply::Answer(v) => assert!(v.get("ok").and_then(|b| b.as_bool()) == Some(true)),
        other => panic!("unexpected {:?}", other),
    }
    let bare = obj(vec![("id", Json::Number(JsonNumber::PosInt(7)))]);
    assert!(matches!(classify_reply(bare, 7), Reply::Answer(Json::Null)));
    let refused = obj(vec![
        ("id", Json::Number(JsonNumber::PosInt(7))),
        ("error", obj(vec![("message", s("nope"))])),
    ]);
    match classify_reply(refused, 7) {
        Reply::Rejected(e) => assert_eq!(text_of(e.get("message")), Some("nope")),
        other => panic!("unexpected {:?}", other),
    }
    let other_answer = obj(vec![("id", Json::Number(JsonNumber::PosInt(6)))]);
    assert!(matches!(classify_reply(other_answer, 7), Reply::Unrelated));
    let event = obj(vec![("method", s("Page.frameNavigated"))]);
    assert!(matches!(classify_reply(event, 7), Reply::Event(_)));
}

#[test]
fn marker_is_active_only_when_true() {
    let active = obj(vec![("result", obj(vec![("value", Json::Bool(true))]))]);
    assert_eq!(check_runtime_marker(&active), Ok(()));
    let inactive = obj(vec![("result", obj(vec![("value", Json::Bool(false))]))]);
    assert_eq!(check_runtime_marker(&inactive), Err(MarkerError::NotActive));
    let thrown = obj(vec![
        ("result", obj(vec![("value", Json::Bool(true))])),
        ("exceptionDetails", obj(vec![])),
    ]);
    assert_eq!(check_runtime_marker(&thrown), Err(MarkerError::ScriptFailed));
    assert_eq!(check_runtime_marker(&Json::Null), Err(MarkerError::NotActive));
}

#[test]
fn locale_report_text_is_the_string_value() {
    let result = obj(vec![("result", obj(vec![("value", s("{\"settingStatus\":\"ready\"}"))]))]);
    assert_eq!(locale_report_text(&result).as_deref(), Some("{\"settingStatus\":\"ready\"}"));
    let null = obj(vec![("result", obj(vec![("value", Json::Null)]))]);
    assert_eq!(locale_report_text(&null), None);
}

#[test]
fn session_numbers_commands_and_keeps_events_in_order() {
    let mut session = CdpSession::new();
    let (first, request) = session.request(page_reload());
    let (second, _) = session.request(marker_probe());
    assert_eq!((first, second), (1, 2));
    assert_eq!(request.get("id").and_then(|v| v.as_u64()), Some(1));
    assert_eq!(text_of(request.get("method")), Some("Page.reload"));
    assert_eq!(
        request.get("params").and_then(|p| p.get("ignoreCache")).and_then(|b| b.as_bool()),
        Some(false)
    );
    session.keep_event(s("a"));
    session.keep_event(s("b"));
    assert_eq!(session.take_event().and_then(|e| e.as_str().map(String::from)).as_deref(), Some("a"));
    assert_eq!(session.take_event().and_then(|e| e.as_str().map(String::from)).as_deref(), Some("b"));
    assert!(session.take_event().is_none());
}

#[test]
fn injection_commands_register_and_run_the_script() {
    let commands = injection_commands();
    let methods: Vec<&str> = commands.iter().map(|c| c.method.as_str()).collect();
    assert_eq!(
        methods,
        vec![
            "Runtime.enable",
            "Runtime.addBinding",
            "Page.enable",
            "Page.addScriptToEvaluateOnNewDocument",
            "Runtime.evaluate"
        ]
    );
    assert_eq!(text_of(commands[1].params.get("name")), Some(VOICE_TYPING_BINDING));
    assert_eq!(text_of(commands[3].params.get("source")), Some(INJECTION_SCRIPT));
    assert_eq!(text_of(commands[4].params.get("expression")), Some(INJECTION_SCRIPT));
    assert_eq!(
        commands[4].params.get("allowUnsafeEvalBlockedByCSP").and_then(|b| b.as_bool()),
        Some(true)
    );
    assert_eq!(text_of(marker_probe().params.get("expression")), Some(MARKER_EXPRESSION));
    assert_eq!(text_of(locale_probe().params.get("expression")), Some(LOCALE_EXPRESSION));
}

#[test]
fn calls_expire_after_eight_seconds() {
    assert!(!call_expired(1000, 1000));
    assert!(!call_expired(8999, 1000));
    assert!(call_expired(9000, 1000));
}

#[test]
fn kept_events_leave_the_queue_first_in_first_out() {
    let mut session = CdpSession::new();
    session.keep_event(s("a"));
    session.keep_event(s("b"));
    let first = session.take_event().and_then(|e| e.as_str().map(String::from));
    session.keep_event(s("c"));
    let rest: Vec<String> = (0..3)
        .filter_map(|_| session.take_event().and_then(|e| e.as_str().map(String::from)))
        .collect();
    assert_eq!(first.as_deref(), Some("a"));
    assert_eq!(rest, vec!["b".to_string(), "c".to_string()]);
    assert!(session.take_event().is_none());
}

#[test]
fn marker_failures_read_as_the_launcher_words_them() {
    assert_eq!(MarkerError::ScriptFailed.message(), "中文环境脚本执行异常");
    assert_eq!(MarkerError::NotActive.message(), "中文环境脚本没有在页面生效");
}
