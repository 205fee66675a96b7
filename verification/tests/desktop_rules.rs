use chatgpt_zh_launcher::desktop::{
    already_running_notice, com_setup, detect_failure, launch_arguments, running_processes, shortcut_sent, show_error,
    show_info, voice_typing_keys, wants_diagnosis, ComSetup, DetectError, DialogKind, KeyStroke,
    ShortcutKey, RPC_E_CHANGED_MODE, WINDOW_TITLE,
};

#[test]
fn message_boxes_carry_the_launcher_title() {
    let error = show_error("坏了");
    assert_eq!(error.title, WINDOW_TITLE);
    assert_eq!(error.text, "坏了");
    assert_eq!(error.kind, DialogKind::Error);
    let info = show_info("好了");
    assert_eq!(info.text, "好了");
    assert_eq!(info.kind, DialogKind::Information);
}

#[test]
fn voice_typing_is_win_h_pressed_and_released() {
    assert_eq!(
        voice_typing_keys(),
        vec![
            KeyStroke { key: ShortcutKey::LeftWindows, release: false },
            KeyStroke { key: ShortcutKey::H, release: false },
            KeyStroke { key: ShortcutKey::H, release: true },
            KeyStroke { key: ShortcutKey::LeftWindows, release: true },
        ]
    );
    assert!(shortcut_sent(4, 4));
    assert!(!shortcut_sent(2, 4));
}

#[test]
fn app_is_started_with_a_loopback_debug_port() {
    assert_eq!(
        launch_arguments(51234),
        "--lang=zh-CN --remote-debugging-address=127.0.0.1 --remote-debugging-port=51234 --remote-allow-origins=http://127.0.0.1:51234"
    );
}

#[test]
fn diagnosis_flag_is_recognised_anywhere() {
    let args = vec!["launcher.exe".to_string(), "--diagnose".to_string()];
    assert!(wants_diagnosis(&args));
    assert!(!wants_diagnosis(&vec!["launcher.exe".to_string(), "--diagnosed".to_string()]));
}

#[test]
fn com_setup_tolerates_a_changed_mode() {
    assert_eq!(com_setup(0), ComSetup::Proceed { balance: true });
    assert_eq!(com_setup(1), ComSetup::Proceed { balance: true });
    assert_eq!(com_setup(RPC_E_CHANGED_MODE), ComSetup::Proceed { balance: false });
    assert_eq!(com_setup(-1), ComSetup::Fail);
}

#[test]
fn package_and_process_queries_are_read_trimmed() {
    assert!(matches!(detect_failure(" \r\n"), DetectError::NotInstalled));
    match detect_failure("  access denied\r\n") {
        DetectError::QueryFailed(d) => assert_eq!(d, "access denied"),
        other => panic!("unexpected {:?}", other),
    }
    assert_eq!(running_processes("\r\n"), None);
    assert_eq!(running_processes(" 12,34\r\n").as_deref(), Some("12,34"));
}

#[test]
fn detection_failures_and_running_apps_read_as_the_launcher_words_them() {
    assert_eq!(detect_failure("\r\n").message(), "没有检测到微软商店安装的官方 ChatGPT 应用");
    assert_eq!(detect_failure(" denied \r\n").message(), "检测官方 ChatGPT 应用失败：denied");
    assert_eq!(
        already_running_notice("12,34"),
        "检测到官方 ChatGPT 已在运行（PID：12,34）。请在系统托盘右键 ChatGPT 并选择“退出”，确认所有 ChatGPT 进程关闭后，再重新运行中文启动器。"
    );
}
