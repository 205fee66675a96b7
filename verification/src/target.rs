//! DevTools targets: which pages belong to the official ChatGPT app, how they
//! rank, and which one the launcher attaches to.
use crate::text::{
    law_normalized_is_stable, normalized,
    chars_of, contains, contains_chars, eq_ignore_ascii_case, eq_ignore_ascii_case_chars, lower,
    lower_chars, starts_with, starts_with_chars, trim, trimmed,
};
use crate::websocket::{url_error_text, validate_websocket_url, websocket_verdict_holds, UrlError};
use vstd::prelude::*;

verus! {

/// One entry of the debug endpoint's `/json` list.
#[derive(Clone, Debug)]
pub struct Target {
    pub target_type: String,
    pub title: String,
    pub url: String,
    pub web_socket_debugger_url: Option<String>,
}

/// Shown in place of a `data:text/html` start-up placeholder URL.
pub const PLACEHOLDER_URL_LABEL: &'static str = "data:text/html（启动占位页）";

/// The app's own main window: `app://-/index.html`, except the avatar
/// overlay and the quick-chat routes.
pub open spec fn primary_app_page(url: Seq<char>) -> bool {
    let n = lower(trim(url));
    &&& starts_with(n, "app://-/index.html"@)
    &&& !contains(n, "initialroute=%2favatar-overlay"@)
    &&& !contains(n, "initialroute=/avatar-overlay"@)
    &&& !contains(n, "initialroute=%2fchatgpt%2fquick-chat"@)
    &&& !contains(n, "initialroute=/chatgpt/quick-chat"@)
}

/// A page titled ChatGPT on chatgpt.com or chat.openai.com.
pub open spec fn official_chatgpt_page(title: Seq<char>, url: Seq<char>) -> bool {
    let t = lower(trim(title));
    let u = lower(trim(url));
    &&& t == "chatgpt"@
    &&& {
        ||| u == "https://chatgpt.com"@
        ||| starts_with(u, "https://chatgpt.com/"@)
        ||| u == "https://chat.openai.com"@
        ||| starts_with(u, "https://chat.openai.com/"@)
    }
}

/// The `data:text/html` placeholder that the app shows while it starts.
pub open spec fn chatgpt_bootstrap_page(title: Seq<char>, url: Seq<char>) -> bool {
    &&& eq_ignore_ascii_case(trim(title), "chatgpt"@)
    &&& starts_with(lower(trim(url)), "data:text/html"@)
}

/// A page target with a WebSocket address that is one of the three kinds above.
pub open spec fn chatgpt_target(t: Target) -> bool {
    &&& t.target_type@ == "page"@
    &&& t.web_socket_debugger_url matches Some(w) && w@.len() > 0
    &&& {
        ||| primary_app_page(t.url@)
        ||| official_chatgpt_page(t.title@, t.url@)
        ||| chatgpt_bootstrap_page(t.title@, t.url@)
    }
}

/// Main window 3, official web page 2, placeholder 1, anything else 0.
pub open spec fn priority(t: Target) -> u8 {
    if primary_app_page(t.url@) {
        3
    } else if official_chatgpt_page(t.title@, t.url@) {
        2
    } else if chatgpt_bootstrap_page(t.title@, t.url@) {
        1
    } else {
        0
    }
}

/// Whether `url` is the app's main window.
pub fn is_primary_app_page(url: &str) -> (r: bool)
    ensures
        r == primary_app_page(url@),
{
    let raw = chars_of(url);
    let t = trimmed(raw.as_slice());
    let n = lower_chars(t.as_slice());
    if !starts_with_chars(n.as_slice(), chars_of("app://-/index.html").as_slice()) {
        return false;
    }
    !contains_chars(n.as_slice(), chars_of("initialroute=%2favatar-overlay").as_slice())
        && !contains_chars(n.as_slice(), chars_of("initialroute=/avatar-overlay").as_slice())
        && !contains_chars(n.as_slice(), chars_of("initialroute=%2fchatgpt%2fquick-chat").as_slice())
        && !contains_chars(n.as_slice(), chars_of("initialroute=/chatgpt/quick-chat").as_slice())
}

fn same_chars(a: &[char], b: &str) -> (r: bool)
    ensures
        r == (a@ == b@),
{
    let bc = chars_of(b);
    if a.len() != bc.len() {
        return false;
    }
    assert(a@.subrange(0, a@.len() as int) =~= a@);
    starts_with_chars(a, bc.as_slice())
}

/// Whether the page is the official ChatGPT web page.
pub fn is_official_chatgpt_page(title: &str, url: &str) -> (r: bool)
    ensures
        r == official_chatgpt_page(title@, url@),
{
    let title_raw = chars_of(title);
    let title_trimmed = trimmed(title_raw.as_slice());
    let t = lower_chars(title_trimmed.as_slice());
    let url_raw = chars_of(url);
    let url_trimmed = trimmed(url_raw.as_slice());
    let u = lower_chars(url_trimmed.as_slice());
    same_chars(t.as_slice(), "chatgpt") && (same_chars(u.as_slice(), "https://chatgpt.com")
        || starts_with_chars(u.as_slice(), chars_of("https://chatgpt.com/").as_slice())
        || same_chars(u.as_slice(), "https://chat.openai.com") || starts_with_chars(
        u.as_slice(),
        chars_of("https://chat.openai.com/").as_slice(),
    ))
}

fn is_html_data_url(url: &str) -> (r: bool)
    ensures
        r == starts_with(lower(trim(url@)), "data:text/html"@),
{
    let raw = chars_of(url);
    let t = trimmed(raw.as_slice());
    let u = lower_chars(t.as_slice());
    starts_with_chars(u.as_slice(), chars_of("data:text/html").as_slice())
}

/// Whether the page is the start-up placeholder of the app.
pub fn is_chatgpt_bootstrap_page(title: &str, url: &str) -> (r: bool)
    ensures
        r == chatgpt_bootstrap_page(title@, url@),
{
    let title_raw = chars_of(title);
    let t = trimmed(title_raw.as_slice());
    let name = chars_of("chatgpt");
    eq_ignore_ascii_case_chars(t.as_slice(), name.as_slice()) && is_html_data_url(url)
}

/// The URL as it is shown and logged: a start-up placeholder gets a label.
pub open spec fn shown_url(url: Seq<char>) -> Seq<char> {
    if starts_with(lower(trim(url)), "data:text/html"@) {
        PLACEHOLDER_URL_LABEL@
    } else {
        url
    }
}

/// The URL as it is shown to the user: placeholders get a label instead.
pub fn display_target_url(url: &str) -> (r: &str)
    ensures
        r@ == shown_url(url@),
{
    if is_html_data_url(url) {
        PLACEHOLDER_URL_LABEL
    } else {
        url
    }
}

/// Whether the target is a ChatGPT page that the launcher may attach to.
pub fn is_chatgpt_target(target: &Target) -> (r: bool)
    ensures
        r == chatgpt_target(*target),
{
    let page = String::from_str("page");
    if !(target.target_type == page) {
        return false;
    }
    let has_socket = match &target.web_socket_debugger_url {
        Some(w) => chars_of(w.as_str()).len() > 0,
        None => false,
    };
    if !has_socket {
        return false;
    }
    is_primary_app_page(target.url.as_str()) || is_official_chatgpt_page(
        target.title.as_str(),
        target.url.as_str(),
    ) || is_chatgpt_bootstrap_page(target.title.as_str(), target.url.as_str())
}

/// The rank of a target: main window above web page above placeholder.
pub fn target_priority(target: &Target) -> (r: u8)
    ensures
        r == priority(*target),
{
    if is_primary_app_page(target.url.as_str()) {
        3
    } else if is_official_chatgpt_page(target.title.as_str(), target.url.as_str()) {
        2
    } else if is_chatgpt_bootstrap_page(target.title.as_str(), target.url.as_str()) {
        1
    } else {
        0
    }
}


/// Why no target was chosen.
#[derive(Debug)]
pub enum SelectError {
    /// None of the listed targets is a ChatGPT page.
    NoChatGptPage,
    /// The chosen page's WebSocket address was refused.
    Url(UrlError),
}

/// The message the launcher shows when no target was chosen.
pub open spec fn select_error_text(e: SelectError) -> Seq<char> {
    match e {
        SelectError::NoChatGptPage => "尚未发现 ChatGPT 页面"@,
        SelectError::Url(u) => url_error_text(u),
    }
}

impl SelectError {
    /// The message the launcher shows for this error.
    pub fn message(&self) -> (r: String)
        ensures
            r@ == select_error_text(*self),
    {
        match self {
            SelectError::NoChatGptPage => String::from_str("尚未发现 ChatGPT 页面"),
            SelectError::Url(u) => u.message(),
        }
    }
}

/// The WebSocket address of a target, empty where it has none.
pub open spec fn socket_text(t: Target) -> Seq<char> {
    match t.web_socket_debugger_url {
        Some(w) => w@,
        None => Seq::<char>::empty(),
    }
}

/// Some listed target is a ChatGPT page.
pub open spec fn has_chatgpt_target(ts: Seq<Target>) -> bool {
    exists|j: int| 0 <= j < ts.len() && chatgpt_target(ts[j])
}

/// `i` is the pick among the ChatGPT pages of `ts`: the last of those with the
/// highest rank, as `Iterator::max_by_key` picks.
pub open spec fn selected_index(ts: Seq<Target>, i: int) -> bool {
    &&& 0 <= i < ts.len()
    &&& chatgpt_target(ts[i])
    &&& forall|j: int|
        0 <= j < i && #[trigger] chatgpt_target(ts[j]) ==> priority(ts[j]) <= priority(ts[i])
    &&& forall|j: int|
        i < j < ts.len() && #[trigger] chatgpt_target(ts[j]) ==> priority(ts[j]) < priority(ts[i])
}

/// At most one index is the pick.
pub proof fn lemma_selected_index_unique(ts: Seq<Target>, i: int, k: int)
    requires
        selected_index(ts, i),
        selected_index(ts, k),
    ensures
        i == k,
{
    if i < k {
        assert(chatgpt_target(ts[k]));
    } else if k < i {
        assert(chatgpt_target(ts[i]));
    }
}

/// Chooses the target to attach to among the listed ones: the highest-ranked
/// ChatGPT page (the last of equals), whose WebSocket address must pass
/// `validate_websocket_url` for `port`.
pub fn select_target(targets: Vec<Target>, port: u16) -> (r: Result<Target, SelectError>)
    ensures
        r matches Err(SelectError::NoChatGptPage) <==> !has_chatgpt_target(targets@),
        has_chatgpt_target(targets@) ==> exists|i: int| selected_index(targets@, i),
        r matches Ok(t) ==> chatgpt_target(t) && websocket_verdict_holds(socket_text(t), port, Ok(())),
        forall|i: int|
            selected_index(targets@, i) ==> match r {
                Ok(t) => t == targets@[i] && websocket_verdict_holds(socket_text(t), port, Ok(())),
                Err(SelectError::Url(e)) => websocket_verdict_holds(
                    socket_text(targets@[i]),
                    port,
                    Err(e),
                ),
                Err(SelectError::NoChatGptPage) => false,
            },
{
    let mut targets = targets;
    let ghost ts = targets@;
    let n = targets.len();
    let mut best: Option<usize> = None;
    let mut best_p: u8 = 0;
    for i in 0..n
        invariant
            n == ts.len(),
            targets@ == ts,
            best is None ==> forall|j: int| 0 <= j < i ==> !chatgpt_target(ts[j]),
            best matches Some(b) ==> {
                &&& b < i
                &&& chatgpt_target(ts[b as int])
                &&& best_p == priority(ts[b as int])
                &&& forall|j: int|
                    0 <= j < b && #[trigger] chatgpt_target(ts[j]) ==> priority(ts[j]) <= best_p
                &&& forall|j: int|
                    b < j < i && #[trigger] chatgpt_target(ts[j]) ==> priority(ts[j]) < best_p
            },
    {
        if is_chatgpt_target(&targets[i]) {
            let p = target_priority(&targets[i]);
            if best.is_none() || p >= best_p {
                best = Some(i);
                best_p = p;
            }
        }
    }
    match best {
        None => {
            Err(SelectError::NoChatGptPage)
        },
        Some(b) => {
            assert(selected_index(ts, b as int));
            proof {
                assert forall|i: int| selected_index(ts, i) implies i == b by {
                    lemma_selected_index_unique(ts, i, b as int);
                }
            }
            let t = targets.remove(b);
            proof {
                reveal_strlit("");
            }
            let socket: &str = match &t.web_socket_debugger_url {
                Some(w) => w.as_str(),
                None => "",
            };
            match validate_websocket_url(socket, port) {
                Ok(()) => Ok(t),
                Err(e) => Err(SelectError::Url(e)),
            }
        },
    }
}


/// The targets that the launcher may attach to are exactly the page targets
/// with a WebSocket address whose rank is above zero.
pub proof fn law_chatgpt_target_iff_ranked(t: Target)
    ensures
        chatgpt_target(t) <==> (t.target_type@ == "page"@ && socket_text(t).len() > 0 && priority(t)
            > 0),
{
}


/// Pages are told apart by their lower-cased, trimmed title and URL alone:
/// normalizing them first changes no verdict.
pub proof fn law_page_kinds_ignore_case_and_spacing(title: Seq<char>, url: Seq<char>)
    ensures
        primary_app_page(normalized(url)) == primary_app_page(url),
        official_chatgpt_page(normalized(title), normalized(url)) == official_chatgpt_page(
            title,
            url,
        ),
        chatgpt_bootstrap_page(normalized(title), normalized(url)) == chatgpt_bootstrap_page(
            title,
            url,
        ),
{
    law_normalized_is_stable(title);
    law_normalized_is_stable(url);
}

} // verus!
