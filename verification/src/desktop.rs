//! The launcher's decisions on the Windows side: what its message boxes say, the
//! key strokes of the voice-typing shortcut, how the app is started, and how the
//! answers of the system's package and process queries are read.
use crate::text::{chars_of, decimal, decimal_text, trim, trim_bounds};
use vstd::prelude::*;
use vstd::string::{StrSliceExecFns, StringExecFns};

verus! {

/// The title of the launcher's message boxes.
pub const WINDOW_TITLE: &'static str = "ITOC ChatGPT 中文启动器";

/// The command-line flag that only checks the installation.
pub const DIAGNOSE_FLAG: &'static str = "--diagnose";

/// The `HRESULT` of `CoInitializeEx` when COM was set up in another mode.
pub const RPC_E_CHANGED_MODE: i32 = -2147417850;

/// The installed official app, as the package query reports it.
#[derive(Debug, Clone)]
pub struct InstalledApp {
    pub app_user_model_id: String,
    pub version: String,
    pub package_full_name: String,
    pub install_location: String,
}

/// The icon of a message box.
#[derive(Debug, PartialEq, Eq, Structural, Clone, Copy)]
pub enum DialogKind {
    Error,
    Information,
}

/// A message box with an OK button.
#[derive(Debug)]
pub struct Dialog {
    pub title: String,
    pub text: String,
    pub kind: DialogKind,
}

fn dialog(message: &str, kind: DialogKind) -> (d: Dialog)
    ensures
        d.title@ == WINDOW_TITLE@,
        d.text@ == message@,
        d.kind == kind,
{
    Dialog { title: String::from_str(WINDOW_TITLE), text: String::from_str(message), kind }
}

/// The error box for `message`.
pub fn show_error(message: &str) -> (d: Dialog)
    ensures
        d.title@ == WINDOW_TITLE@,
        d.text@ == message@,
        d.kind == DialogKind::Error,
{
    dialog(message, DialogKind::Error)
}

/// The information box for `message`.
pub fn show_info(message: &str) -> (d: Dialog)
    ensures
        d.title@ == WINDOW_TITLE@,
        d.text@ == message@,
        d.kind == DialogKind::Information,
{
    dialog(message, DialogKind::Information)
}

/// The keys of the voice-typing shortcut.
#[derive(Debug, PartialEq, Eq, Structural, Clone, Copy)]
pub enum ShortcutKey {
    LeftWindows,
    H,
}

/// One key event: a key pressed or released.
#[derive(Debug, PartialEq, Eq, Structural, Clone, Copy)]
pub struct KeyStroke {
    pub key: ShortcutKey,
    pub release: bool,
}

/// Win+H: Windows down, H down, H up, Windows up.
pub fn voice_typing_keys() -> (r: Vec<KeyStroke>)
    ensures
        r@ == seq![
            KeyStroke { key: ShortcutKey::LeftWindows, release: false },
            KeyStroke { key: ShortcutKey::H, release: false },
            KeyStroke { key: ShortcutKey::H, release: true },
            KeyStroke { key: ShortcutKey::LeftWindows, release: true },
        ],
{
    let mut r: Vec<KeyStroke> = Vec::new();
    r.push(KeyStroke { key: ShortcutKey::LeftWindows, release: false });
    r.push(KeyStroke { key: ShortcutKey::H, release: false });
    r.push(KeyStroke { key: ShortcutKey::H, release: true });
    r.push(KeyStroke { key: ShortcutKey::LeftWindows, release: true });
    assert(r@ =~= seq![
        KeyStroke { key: ShortcutKey::LeftWindows, release: false },
        KeyStroke { key: ShortcutKey::H, release: false },
        KeyStroke { key: ShortcutKey::H, release: true },
        KeyStroke { key: ShortcutKey::LeftWindows, release: true },
    ]);
    r
}

/// The shortcut was sent only if the system accepted every key event.
pub fn shortcut_sent(accepted: u32, sent: usize) -> (r: bool)
    ensures
        r == (accepted == sent),
{
    accepted as usize == sent
}

/// The app's command line: Chinese interface, debugging on the loopback
/// address at `port`, connections allowed only from there.
pub open spec fn launch_arguments_text(port: u16) -> Seq<char> {
    "--lang=zh-CN --remote-debugging-address=127.0.0.1 --remote-debugging-port="@ + decimal(
        port as nat,
    ) + " --remote-allow-origins=http://127.0.0.1:"@ + decimal(port as nat)
}

/// The command line that starts the app with its debug port at `port`.
pub fn launch_arguments(port: u16) -> (r: String)
    ensures
        r@ == launch_arguments_text(port),
{
    let digits = decimal_text(port as u64);
    let mut r = String::from_str(
        "--lang=zh-CN --remote-debugging-address=127.0.0.1 --remote-debugging-port=",
    );
    r.append(digits.as_str());
    r.append(" --remote-allow-origins=http://127.0.0.1:");
    r.append(digits.as_str());
    r
}

/// Whether the command line asks only for the installation check.
pub fn wants_diagnosis(args: &Vec<String>) -> (r: bool)
    ensures
        r == exists|i: int| 0 <= i < args@.len() && args@[i]@ == DIAGNOSE_FLAG@,
{
    let flag = String::from_str(DIAGNOSE_FLAG);
    let n = args.len();
    for i in 0..n
        invariant
            n == args@.len(),
            flag@ == DIAGNOSE_FLAG@,
            forall|j: int| 0 <= j < i ==> args@[j]@ != DIAGNOSE_FLAG@,
    {
        if args[i] == flag {
            return true;
        }
    }
    false
}

/// How to go on after `CoInitializeEx`.
#[derive(Debug, PartialEq, Eq, Structural, Clone, Copy)]
pub enum ComSetup {
    /// Go on; `balance` says whether `CoUninitialize` must follow.
    Proceed { balance: bool },
    /// COM could not be set up.
    Fail,
}

/// A successful `HRESULT` must be balanced later; `RPC_E_CHANGED_MODE` means
/// COM is already up in another mode, which serves as well; any other failure stops.
pub fn com_setup(hresult: i32) -> (r: ComSetup)
    ensures
        r == (if hresult >= 0 {
            ComSetup::Proceed { balance: true }
        } else if hresult == RPC_E_CHANGED_MODE {
            ComSetup::Proceed { balance: false }
        } else {
            ComSetup::Fail
        }),
{
    if hresult >= 0 {
        ComSetup::Proceed { balance: true }
    } else if hresult == RPC_E_CHANGED_MODE {
        ComSetup::Proceed { balance: false }
    } else {
        ComSetup::Fail
    }
}

fn trimmed_text(s: &str) -> (r: String)
    ensures
        r@ == trim(s@),
{
    let cs = chars_of(s);
    let (i, j) = trim_bounds(cs.as_slice());
    String::from_str(s.substring_char(i, j))
}

/// Why the official app was not found.
#[derive(Debug)]
pub enum DetectError {
    /// The query failed without a word: the app is not installed.
    NotInstalled,
    /// The query failed with this message.
    QueryFailed(String),
}

/// The message the launcher shows when the official app was not found.
pub open spec fn detect_error_text(e: DetectError) -> Seq<char> {
    match e {
        DetectError::NotInstalled => "没有检测到微软商店安装的官方 ChatGPT 应用"@,
        DetectError::QueryFailed(d) => "检测官方 ChatGPT 应用失败："@ + d@,
    }
}

impl DetectError {
    /// The message the launcher shows for this error.
    pub fn message(&self) -> (r: String)
        ensures
            r@ == detect_error_text(*self),
    {
        match self {
            DetectError::NotInstalled => String::from_str("没有检测到微软商店安装的官方 ChatGPT 应用"),
            DetectError::QueryFailed(d) => {
                let mut m = String::from_str("检测官方 ChatGPT 应用失败：");
                m.append(d.as_str());
                m
            },
        }
    }
}

/// Reads the error output of a failed package query.
pub fn detect_failure(stderr: &str) -> (r: DetectError)
    ensures
        trim(stderr@).len() == 0 ==> r is NotInstalled,
        trim(stderr@).len() > 0 ==> (r matches DetectError::QueryFailed(d) && d@ == trim(stderr@)),
{
    let detail = trimmed_text(stderr);
    if detail.as_str().unicode_len() == 0 {
        DetectError::NotInstalled
    } else {
        DetectError::QueryFailed(detail)
    }
}

/// Reads the output of the process query: the IDs of running app processes,
/// separated by commas. No output means that the app is not running.
pub fn running_processes(stdout: &str) -> (r: Option<String>)
    ensures
        trim(stdout@).len() == 0 ==> r is None,
        trim(stdout@).len() > 0 ==> (r matches Some(ids) && ids@ == trim(stdout@)),
{
    let ids = trimmed_text(stdout);
    if ids.as_str().unicode_len() == 0 {
        None
    } else {
        Some(ids)
    }
}

/// The text of an already running app, refused with the IDs of its processes.
pub open spec fn already_running_text(process_ids: Seq<char>) -> Seq<char> {
    "检测到官方 ChatGPT 已在运行（PID："@ + process_ids
        + "）。请在系统托盘右键 ChatGPT 并选择“退出”，确认所有 ChatGPT 进程关闭后，再重新运行中文启动器。"@
}

/// The message the launcher shows when the app already runs as `process_ids`.
pub fn already_running_notice(process_ids: &str) -> (r: String)
    ensures
        r@ == already_running_text(process_ids@),
{
    let mut m = String::from_str("检测到官方 ChatGPT 已在运行（PID：");
    m.append(process_ids);
    m.append("）。请在系统托盘右键 ChatGPT 并选择“退出”，确认所有 ChatGPT 进程关闭后，再重新运行中文启动器。");
    m
}

} // verus!
