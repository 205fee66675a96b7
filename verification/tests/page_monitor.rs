use chatgpt_zh_launcher::cdp::LocaleSettingStatus;
use chatgpt_zh_launcher::cdp::VOICE_TYPING_BINDING;
use chatgpt_zh_launcher::json::Json;
use chatgpt_zh_launcher::monitor::{
    may_retry_first_target, EventAction, LocaleAction, Monitor, ReadOutcome, TargetAction,
    MAX_MISSES,
};
use chatgpt_zh_launcher::report::{log_line, voice_typing_failure_notice, LogEvent};
use chatgpt_zh_launcher::target::{Target, PLACEHOLDER_URL_LABEL};

fn app_page(socket: &str) -> Target {
    Target {
        target_type: "page".to_string(),
        title: "Codex".to_string(),
        url: "app://-/index.html".to_string(),
        web_socket_debugger_url: Some(socket.to_string()),
    }
}

fn web_page(socket: &str) -> Target {
    Target {
        target_type: "page".to_string(),
        title: "ChatGPT".to_string(),
        url: "https://chatgpt.com/".to_string(),
        web_socket_debugger_url: Some(socket.to_string()),
    }
}

#[test]
fn first_target_is_awaited_for_twenty_seconds() {
    assert!(may_retry_first_target(1000, 1000));
    assert!(may_retry_first_target(20999, 1000));
    assert!(!may_retry_first_target(21000, 1000));
}

#[test]
fn locale_is_followed_only_on_the_main_window() {
    let mut web = Monitor::start(&web_page("ws://127.0.0.1:9/a"), 0);
    assert!(!web.locale_poll_due(0));
    let mut app = Monitor::start(&app_page("ws://127.0.0.1:9/a"), 0);
    assert!(app.locale_poll_due(0));
    assert!(!app.locale_poll_due(499));
    assert!(app.locale_poll_due(500));
}

#[test]
fn reload_is_requested_only_once() {
    let mut m = Monitor::start(&app_page("ws://127.0.0.1:9/a"), 0);
    assert!(m.locale_poll_due(0));
    assert_eq!(m.on_locale_poll(Some(LocaleSettingStatus::ReloadRequired), 0), LocaleAction::RequestReload);
    m.reload_sent(300);
    assert!(!m.locale_poll_due(1299));
    assert!(m.locale_poll_due(1300));
    assert_eq!(m.on_locale_poll(Some(LocaleSettingStatus::ReloadRequired), 1300), LocaleAction::Wait);
    assert_eq!(m.on_locale_poll(Some(LocaleSettingStatus::Ready), 1800), LocaleAction::ReportReady);
    assert!(!m.locale_poll_due(5000));
}

#[test]
fn failures_and_timeouts_settle_the_locale() {
    let mut m = Monitor::start(&app_page("ws://127.0.0.1:9/a"), 0);
    assert_eq!(
        m.on_locale_poll(Some(LocaleSettingStatus::Failed("x".to_string())), 10),
        LocaleAction::ReportFailed("x".to_string())
    );
    assert!(!m.locale_poll_due(100000));

    let mut m = Monitor::start(&app_page("ws://127.0.0.1:9/a"), 0);
    assert_eq!(m.on_locale_poll(Some(LocaleSettingStatus::Pending), 34999), LocaleAction::Wait);
    assert_eq!(m.on_locale_poll(Some(LocaleSettingStatus::Pending), 35000), LocaleAction::ReportTimeout);
    assert!(!m.locale_poll_due(40000));
}

#[test]
fn failed_probe_or_read_breaks_the_connection_until_reattached() {
    let mut m = Monitor::start(&app_page("ws://127.0.0.1:9/a"), 0);
    assert_eq!(m.on_locale_poll(None, 0), LocaleAction::Wait);
    assert!(!m.locale_poll_due(1000));
    assert_eq!(m.on_event(ReadOutcome::Failed), EventAction::PauseAfterFailure { report: false });
    let same = app_page("ws://127.0.0.1:9/a");
    assert_eq!(m.on_target(Some(&same)), TargetAction::Reattach);
    m.reattached(&same, 3000);
    assert!(m.locale_poll_due(3000));
    assert_eq!(m.on_event(ReadOutcome::Failed), EventAction::PauseAfterFailure { report: true });
}

#[test]
fn each_voice_typing_call_asks_for_win_h_and_nothing_else_does() {
    let mut m = Monitor::start(&app_page("ws://127.0.0.1:9/a"), 0);
    let call = |payload: &str| {
        Json::Object(vec![
            ("method".to_string(), Json::Str("Runtime.bindingCalled".to_string())),
            (
                "params".to_string(),
                Json::Object(vec![
                    ("name".to_string(), Json::Str(VOICE_TYPING_BINDING.to_string())),
                    ("payload".to_string(), Json::Str(payload.to_string())),
                ]),
            ),
        ])
    };
    assert_eq!(m.on_event(ReadOutcome::Message(&call("request"))), EventAction::OpenVoiceTyping);
    assert_eq!(m.on_event(ReadOutcome::Message(&call("request"))), EventAction::OpenVoiceTyping);
    assert_eq!(m.on_event(ReadOutcome::Message(&call("other"))), EventAction::Continue);
    assert_eq!(m.on_event(ReadOutcome::Quiet), EventAction::Continue);
    assert!(m.locale_poll_due(0));
}

#[test]
fn failures_of_reads_and_probes_never_end_the_run() {
    let mut m = Monitor::start(&app_page("ws://127.0.0.1:9/a"), 0);
    for _ in 0..(MAX_MISSES - 1) {
        assert_eq!(m.on_target(None), TargetAction::Stay);
    }
    for _ in 0..20 {
        m.on_event(ReadOutcome::Failed);
        m.on_locale_poll(None, 10);
        m.on_locale_poll(Some(LocaleSettingStatus::Failed("x".to_string())), 10);
    }
    assert_eq!(m.on_target(None), TargetAction::Exit);
}

#[test]
fn rebuilt_pages_are_reattached_and_unchanged_ones_kept() {
    let mut m = Monitor::start(&app_page("ws://127.0.0.1:9/a"), 0);
    assert!(!m.target_check_due(1999));
    assert!(m.target_check_due(2000));
    assert!(!m.target_check_due(3999));
    assert_eq!(m.on_target(Some(&app_page("ws://127.0.0.1:9/a"))), TargetAction::Stay);
    assert_eq!(m.on_target(Some(&app_page("ws://127.0.0.1:9/b"))), TargetAction::Reattach);
    let mut no_socket = app_page("");
    no_socket.web_socket_debugger_url = None;
    assert_eq!(m.on_target(Some(&no_socket)), TargetAction::Stay);
}

#[test]
fn app_counts_as_closed_after_eight_misses_in_a_row() {
    let mut m = Monitor::start(&app_page("ws://127.0.0.1:9/a"), 0);
    for _ in 0..(MAX_MISSES - 1) {
        assert_eq!(m.on_target(None), TargetAction::Stay);
    }
    assert_eq!(m.on_target(Some(&app_page("ws://127.0.0.1:9/a"))), TargetAction::Stay);
    for _ in 0..(MAX_MISSES - 1) {
        assert_eq!(m.on_target(None), TargetAction::Stay);
    }
    assert_eq!(m.on_target(None), TargetAction::Exit);
}

#[test]
fn log_lines_name_only_targets_and_failure_details() {
    assert_eq!(
        log_line(LogEvent::Connected { title: "Codex", url: "app://-/index.html" }),
        "connected target: Codex (app://-/index.html)"
    );
    assert_eq!(
        log_line(LogEvent::Connected { title: "ChatGPT", url: "data:text/html,secret" }),
        format!("connected target: ChatGPT ({PLACEHOLDER_URL_LABEL})")
    );
    assert_eq!(log_line(LogEvent::LocaleFailed("boom")), "locale setting failed: boom");
    assert_eq!(log_line(LogEvent::InjectionCompleted), "runtime injection completed");
    assert_eq!(log_line(LogEvent::ConnectionInterrupted), "debug page connection was interrupted");
    assert_eq!(log_line(LogEvent::LocaleConfirmed), "localized UI confirmed: zh-CN");
    assert_eq!(
        log_line(LogEvent::ReloadRequested),
        "UI remained English; requesting one controlled page reload"
    );
    assert_eq!(
        log_line(LogEvent::LocaleTimedOut),
        "locale monitor timed out; launcher remains active"
    );
    assert_eq!(log_line(LogEvent::PageRebuilt), "page rebuilt; runtime injection restored");
    assert_eq!(voice_typing_failure_notice("x"), "Windows 语音输入未启动：x");
}

#[test]
fn probes_come_at_least_half_a_second_apart_and_stop_once_settled() {
    let mut m = Monitor::start(&app_page("ws://127.0.0.1:9/a"), 0);
    let mut probes = Vec::new();
    for now in (0..3000).step_by(100) {
        if m.locale_poll_due(now) {
            probes.push(now);
            if now == 1000 {
                assert_eq!(
                    m.on_locale_poll(Some(LocaleSettingStatus::ReloadRequired), now),
                    LocaleAction::RequestReload
                );
                m.reload_sent(now + 50);
            } else {
                assert_eq!(m.on_locale_poll(Some(LocaleSettingStatus::Pending), now), LocaleAction::Wait);
            }
        }
    }
    assert_eq!(probes, vec![0, 500, 1000, 2100, 2600]);
    assert_eq!(m.on_locale_poll(Some(LocaleSettingStatus::Ready), 3000), LocaleAction::ReportReady);
    for now in 3000..40000 {
        assert!(!m.locale_poll_due(now));
    }
}

#[test]
fn broken_connection_holds_probes_until_reattached() {
    let mut m = Monitor::start(&app_page("ws://127.0.0.1:9/a"), 0);
    assert!(m.locale_poll_due(0));
    assert_eq!(m.on_event(ReadOutcome::Failed), EventAction::PauseAfterFailure { report: true });
    assert!(!m.locale_poll_due(600));
    m.reattached(&app_page("ws://127.0.0.1:9/b"), 700);
    assert!(m.locale_poll_due(700));
    assert!(!m.locale_poll_due(1199));
}

#[test]
fn only_the_eighth_failed_look_ends_the_run() {
    let mut m = Monitor::start(&app_page("ws://127.0.0.1:9/a"), 0);
    let mut first = true;
    for round in 0..MAX_MISSES {
        for _ in 0..5 {
            assert_eq!(m.on_event(ReadOutcome::Failed), EventAction::PauseAfterFailure {
                report: first,
            });
            first = false;
            assert_eq!(m.on_locale_poll(None, 10), LocaleAction::Wait);
        }
        let action = m.on_target(None);
        if round + 1 < MAX_MISSES {
            assert_eq!(action, TargetAction::Stay);
        } else {
            assert_eq!(action, TargetAction::Exit);
        }
    }
}
