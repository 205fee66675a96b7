use chatgpt_zh_launcher::cdp::VOICE_TYPING_BINDING;
use chatgpt_zh_launcher::script::INJECTION_SCRIPT;

#[test]
fn injection_does_not_touch_credentials_or_provider_state() {
    assert!(INJECTION_SCRIPT.contains("vscode://codex/${method}"));
    assert!(INJECTION_SCRIPT.contains("get-setting"));
    assert!(INJECTION_SCRIPT.contains("set-setting"));
    assert!(!INJECTION_SCRIPT.contains("auth.json"));
    assert!(!INJECTION_SCRIPT.contains("API_KEY"));
    assert!(!INJECTION_SCRIPT.contains("model_provider"));
}

#[test]
fn injection_uses_early_runtime_hooks_without_network_interception() {
    assert!(INJECTION_SCRIPT.contains("__STATSIG__"));
    assert!(INJECTION_SCRIPT.contains("getDynamicConfig"));
    assert!(INJECTION_SCRIPT.contains("getLayer"));
    assert!(INJECTION_SCRIPT.contains("patchAccessor"));
    assert!(INJECTION_SCRIPT.contains("enable_i18n"));
    assert!(!INJECTION_SCRIPT.contains("Fetch.enable"));
    assert!(!INJECTION_SCRIPT.contains("Fetch.fulfillRequest"));
}

#[test]
fn injection_verifies_rendered_locale_before_requesting_a_reload() {
    assert!(INJECTION_SCRIPT.contains("renderedLocaleStatus"));
    assert!(INJECTION_SCRIPT.contains("UI_MARKERS"));
    assert!(INJECTION_SCRIPT.contains("requestReloadOrFail"));
    assert!(INJECTION_SCRIPT.contains("state.settingStatus = \"reload-required\""));
    assert!(!INJECTION_SCRIPT.contains("location.reload()"));

    let ready_branch = INJECTION_SCRIPT
        .split("if (current?.value === LOCALE)")
        .nth(1)
        .expect("ready locale branch should exist")
        .split("await callSettingApi")
        .next()
        .expect("ready locale branch should end before setting the locale");
    assert!(ready_branch.contains("verifyRenderedLocale()"));
}

#[test]
fn injection_requests_one_reload_when_slow_ui_detection_times_out() {
    let timeout_branch = INJECTION_SCRIPT
        .split("Date.now() - startedAt >= 12000")
        .nth(1)
        .expect("rendered locale timeout branch should exist")
        .split("setTimeout(check, 250)")
        .next()
        .expect("timeout branch should end before the next poll");
    assert!(timeout_branch.contains("requestReloadOrFail"));
    assert!(INJECTION_SCRIPT.contains("sessionStorage.getItem(RELOAD_MARKER) === RELOAD_TOKEN"));
}

#[test]
fn injection_uses_a_single_bounded_locale_attempt() {
    assert!(INJECTION_SCRIPT.contains("Date.now() - startedAt >= 8000"));
    assert!(!INJECTION_SCRIPT.contains("SETTING_RETRY_DELAYS_MS"));
    assert!(!INJECTION_SCRIPT.contains("for (const delay"));
    assert!(INJECTION_SCRIPT.contains("state.settingStatus = \"failed\""));
}

#[test]
fn injection_adds_a_voice_typing_button_without_using_chatgpt_voice_mode() {
    assert!(INJECTION_SCRIPT.contains("itoc-voice-typing-button"));
    assert!(INJECTION_SCRIPT.contains("Windows 语音输入（Win+H）"));
    assert!(INJECTION_SCRIPT.contains(VOICE_TYPING_BINDING));
    assert!(!INJECTION_SCRIPT.contains("navigator.mediaDevices"));
}
