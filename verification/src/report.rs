//! The lines of the launcher's diagnostic log and its user-facing notices. A
//! log line is one of a few fixed texts, or names a target by its title and the
//! URL as `display_target_url` shows it, or carries the page's locale-failure
//! detail; nothing else reaches the log.
use crate::target::{display_target_url, shown_url};
use vstd::prelude::*;
use vstd::string::StringExecFns;

verus! {

/// Something the launcher logs.
pub enum LogEvent<'a> {
    /// Attached to a target with this title and URL.
    Connected { title: &'a str, url: &'a str },
    /// The page script was registered and confirmed.
    InjectionCompleted,
    /// The debug connection broke.
    ConnectionInterrupted,
    /// The interface was confirmed Chinese.
    LocaleConfirmed,
    /// A page reload was requested.
    ReloadRequested,
    /// Setting the locale failed, with the page's detail.
    LocaleFailed(&'a str),
    /// The locale setting was still settling when following it stopped.
    LocaleTimedOut,
    /// The page was rebuilt and the script registered again.
    PageRebuilt,
}

/// The text of a log line.
pub open spec fn log_text(e: LogEvent) -> Seq<char> {
    match e {
        LogEvent::Connected { title, url } => "connected target: "@ + title@ + " ("@ + shown_url(
            url@,
        ) + ")"@,
        LogEvent::InjectionCompleted => "runtime injection completed"@,
        LogEvent::ConnectionInterrupted => "debug page connection was interrupted"@,
        LogEvent::LocaleConfirmed => "localized UI confirmed: zh-CN"@,
        LogEvent::ReloadRequested => "UI remained English; requesting one controlled page reload"@,
        LogEvent::LocaleFailed(detail) => "locale setting failed: "@ + detail@,
        LogEvent::LocaleTimedOut => "locale monitor timed out; launcher remains active"@,
        LogEvent::PageRebuilt => "page rebuilt; runtime injection restored"@,
    }
}

/// The log line for `e`.
pub fn log_line(e: LogEvent) -> (r: String)
    ensures
        r@ == log_text(e),
{
    match e {
        LogEvent::Connected { title, url } => {
            let mut r = String::from_str("connected target: ");
            r.append(title);
            r.append(" (");
            r.append(display_target_url(url));
            r.append(")");
            r
        },
        LogEvent::InjectionCompleted => String::from_str("runtime injection completed"),
        LogEvent::ConnectionInterrupted => String::from_str(
            "debug page connection was interrupted",
        ),
        LogEvent::LocaleConfirmed => String::from_str("localized UI confirmed: zh-CN"),
        LogEvent::ReloadRequested => String::from_str(
            "UI remained English; requesting one controlled page reload",
        ),
        LogEvent::LocaleFailed(detail) => {
            let mut r = String::from_str("locale setting failed: ");
            r.append(detail);
            r
        },
        LogEvent::LocaleTimedOut => String::from_str(
            "locale monitor timed out; launcher remains active",
        ),
        LogEvent::PageRebuilt => String::from_str("page rebuilt; runtime injection restored"),
    }
}

/// The notice shown when Win+H could not be sent; the launcher goes on.
pub fn voice_typing_failure_notice(detail: &str) -> (r: String)
    ensures
        r@ == "Windows 语音输入未启动："@ + detail@,
{
    let mut r = String::from_str("Windows 语音输入未启动：");
    r.append(detail);
    r
}

} // verus!
