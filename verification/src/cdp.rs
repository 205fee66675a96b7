//! The DevTools protocol session: the commands the launcher sends, how replies
//! are told apart from events, and how the page's reports are read.
use crate::json::{
    bool_of, get, get_in, lemma_members_model, members_model, opt_owned_model, text_of, u64_of, Json,
    JsonModel, JsonNumber, NumberModel,
};
use crate::script::INJECTION_SCRIPT;
use crate::text::same_text;
use std::collections::VecDeque;
use vstd::prelude::*;

verus! {

/// The page binding through which the voice-typing button calls the launcher.
pub const VOICE_TYPING_BINDING: &'static str = "__itocVoiceTyping";

/// Evaluated in the page: whether the page script is active.
pub const MARKER_EXPRESSION: &'static str =
    "Boolean(globalThis.__ITOC_ZH_PREVIEW__?.locale === 'zh-CN')";

/// Evaluated in the page: the page script's progress report, as JSON text.
pub const LOCALE_EXPRESSION: &'static str = r#"JSON.stringify(globalThis.__ITOC_ZH_PREVIEW__ ? {
        bridgeAvailable: globalThis.__ITOC_ZH_PREVIEW__.bridgeAvailable,
        settingStatus: globalThis.__ITOC_ZH_PREVIEW__.settingStatus,
        settingError: globalThis.__ITOC_ZH_PREVIEW__.settingError,
        patchedClients: globalThis.__ITOC_ZH_PREVIEW__.patchedClients,
        uiLocaleStatus: globalThis.__ITOC_ZH_PREVIEW__.uiLocaleStatus
    } : null)"#;

/// The failure detail when the page offers no settings bridge.
pub const BRIDGE_UNAVAILABLE_DETAIL: &'static str = "正式页面未提供设置接口，无法写入应用语言设置";

/// The failure detail when the page reports a failure without saying why.
pub const UNKNOWN_FAILURE_DETAIL: &'static str = "未知错误";

/// How long a command may wait for its answer.
pub const CALL_TIMEOUT_MS: u64 = 8000;

/// Whether a command sent at `started` has waited too long at `now`.
pub fn call_expired(now: u64, started: u64) -> (r: bool)
    ensures
        r == (now >= started + CALL_TIMEOUT_MS),
{
    now >= started && now - started >= CALL_TIMEOUT_MS
}

/// One protocol command: its method and its parameters.
#[derive(Debug)]
pub struct CdpCommand {
    pub method: String,
    pub params: Json,
}

pub open spec fn str_model(s: Seq<char>) -> JsonModel {
    JsonModel::Str(s)
}

/// `c` is the command `method` with parameters `params`.
pub open spec fn command_is(c: CdpCommand, method: Seq<char>, params: JsonModel) -> bool {
    c.method@ == method && c.params@ == params
}

fn text(s: &str) -> (r: Json)
    ensures
        r@ == str_model(s@),
{
    Json::Str(String::from_str(s))
}

fn object0() -> (r: Json)
    ensures
        r@ == JsonModel::Object(Seq::empty()),
{
    let members: Vec<(String, Json)> = Vec::new();
    let r = Json::Object(members);
    assert(members_model(members@) =~= Seq::empty());
    r
}

fn object1(k: &str, v: Json) -> (r: Json)
    ensures
        r@ == JsonModel::Object(seq![(k@, v@)]),
{
    let mut members: Vec<(String, Json)> = Vec::new();
    members.push((String::from_str(k), v));
    proof {
        lemma_members_model(members@);
    }
    let ghost m = members@;
    let r = Json::Object(members);
    assert(members_model(m) =~= seq![(k@, v@)]);
    r
}

fn object2(k1: &str, v1: Json, k2: &str, v2: Json) -> (r: Json)
    ensures
        r@ == JsonModel::Object(seq![(k1@, v1@), (k2@, v2@)]),
{
    let mut members: Vec<(String, Json)> = Vec::new();
    members.push((String::from_str(k1), v1));
    members.push((String::from_str(k2), v2));
    proof {
        lemma_members_model(members@);
    }
    let ghost m = members@;
    let r = Json::Object(members);
    assert(members_model(m) =~= seq![(k1@, v1@), (k2@, v2@)]);
    r
}

fn object3(k1: &str, v1: Json, k2: &str, v2: Json, k3: &str, v3: Json) -> (r: Json)
    ensures
        r@ == JsonModel::Object(seq![(k1@, v1@), (k2@, v2@), (k3@, v3@)]),
{
    let mut members: Vec<(String, Json)> = Vec::new();
    members.push((String::from_str(k1), v1));
    members.push((String::from_str(k2), v2));
    members.push((String::from_str(k3), v3));
    proof {
        lemma_members_model(members@);
    }
    let ghost m = members@;
    let r = Json::Object(members);
    assert(members_model(m) =~= seq![(k1@, v1@), (k2@, v2@), (k3@, v3@)]);
    r
}

fn command(method: &str, params: Json) -> (r: CdpCommand)
    ensures
        command_is(r, method@, params@),
{
    CdpCommand { method: String::from_str(method), params }
}

/// The commands that prepare a freshly attached page, in order: enable the
/// runtime, add the voice-typing binding, enable page events, register the page
/// script for new documents, and run it in the current one.
pub fn injection_commands() -> (r: Vec<CdpCommand>)
    ensures
        r@.len() == 5,
        command_is(r@[0], "Runtime.enable"@, JsonModel::Object(Seq::empty())),
        command_is(
            r@[1],
            "Runtime.addBinding"@,
            JsonModel::Object(seq![("name"@, str_model(VOICE_TYPING_BINDING@))]),
        ),
        command_is(r@[2], "Page.enable"@, JsonModel::Object(Seq::empty())),
        command_is(
            r@[3],
            "Page.addScriptToEvaluateOnNewDocument"@,
            JsonModel::Object(seq![("source"@, str_model(INJECTION_SCRIPT@))]),
        ),
        command_is(
            r@[4],
            "Runtime.evaluate"@,
            JsonModel::Object(
                seq![
                    ("expression"@, str_model(INJECTION_SCRIPT@)),
                    ("returnByValue"@, JsonModel::Bool(true)),
                    ("allowUnsafeEvalBlockedByCSP"@, JsonModel::Bool(true)),
                ],
            ),
        ),
{
    let mut r: Vec<CdpCommand> = Vec::new();
    r.push(command("Runtime.enable", object0()));
    r.push(command("Runtime.addBinding", object1("name", text(VOICE_TYPING_BINDING))));
    r.push(command("Page.enable", object0()));
    r.push(
        command(
            "Page.addScriptToEvaluateOnNewDocument",
            object1("source", text(INJECTION_SCRIPT)),
        ),
    );
    r.push(
        command(
            "Runtime.evaluate",
            object3(
                "expression",
                text(INJECTION_SCRIPT),
                "returnByValue",
                Json::Bool(true),
                "allowUnsafeEvalBlockedByCSP",
                Json::Bool(true),
            ),
        ),
    );
    r
}

/// Evaluates `MARKER_EXPRESSION` in the page, result by value.
pub fn marker_probe() -> (r: CdpCommand)
    ensures
        command_is(
            r,
            "Runtime.evaluate"@,
            JsonModel::Object(
                seq![
                    ("expression"@, str_model(MARKER_EXPRESSION@)),
                    ("returnByValue"@, JsonModel::Bool(true)),
                ],
            ),
        ),
{
    command(
        "Runtime.evaluate",
        object2("expression", text(MARKER_EXPRESSION), "returnByValue", Json::Bool(true)),
    )
}

/// Evaluates `LOCALE_EXPRESSION` in the page, result by value.
pub fn locale_probe() -> (r: CdpCommand)
    ensures
        command_is(
            r,
            "Runtime.evaluate"@,
            JsonModel::Object(
                seq![
                    ("expression"@, str_model(LOCALE_EXPRESSION@)),
                    ("returnByValue"@, JsonModel::Bool(true)),
                ],
            ),
        ),
{
    command(
        "Runtime.evaluate",
        object2("expression", text(LOCALE_EXPRESSION), "returnByValue", Json::Bool(true)),
    )
}

/// Reloads the page, keeping its cache.
pub fn page_reload() -> (r: CdpCommand)
    ensures
        command_is(
            r,
            "Page.reload"@,
            JsonModel::Object(seq![("ignoreCache"@, JsonModel::Bool(false))]),
        ),
{
    command("Page.reload", object1("ignoreCache", Json::Bool(false)))
}

/// The message is the call of the voice-typing binding with the payload `request`.
pub open spec fn voice_typing_event(e: JsonModel) -> bool {
    &&& text_of(get(e, "method"@)) == Some("Runtime.bindingCalled"@)
    &&& text_of(get_in(get(e, "params"@), "name"@)) == Some(VOICE_TYPING_BINDING@)
    &&& text_of(get_in(get(e, "params"@), "payload"@)) == Some("request"@)
}

fn text_member_is(v: Option<&Json>, expected: &str) -> (r: bool)
    ensures
        r == (text_of(crate::json::opt_model(v)) == Some(expected@)),
{
    match v {
        Some(j) => match j.as_str() {
            Some(s) => same_text(s, expected),
            None => false,
        },
        None => false,
    }
}

/// Whether a page event asks the launcher to open voice typing.
pub fn is_voice_typing_event(event: &Json) -> (r: bool)
    ensures
        r == voice_typing_event(event@),
{
    if !text_member_is(event.get("method"), "Runtime.bindingCalled") {
        return false;
    }
    match event.get("params") {
        None => false,
        Some(params) => text_member_is(params.get("name"), VOICE_TYPING_BINDING)
            && text_member_is(params.get("payload"), "request"),
    }
}


/// A message read while a command waits for its answer.
#[derive(Debug)]
pub enum Reply {
    /// The answer to the command: its `result`, or `null` when it has none.
    Answer(Json),
    /// The command was refused: its `error`.
    Rejected(Json),
    /// An event of the page, to be handed out later.
    Event(Json),
    /// Anything else; it is dropped.
    Unrelated,
}

/// The message answers the command with number `id`.
pub open spec fn answers(m: JsonModel, id: u64) -> bool {
    u64_of(get(m, "id"@)) == Some(id)
}

/// What a message is while the command `id` waits: its answer (an error or a
/// result), an event (it has a `method`), or unrelated.
pub open spec fn reply_holds(m: JsonModel, id: u64, r: Reply) -> bool {
    if answers(m, id) {
        match get(m, "error"@) {
            Some(e) => r matches Reply::Rejected(x) && x@ == e,
            None => r matches Reply::Answer(x) && x@ == match get(m, "result"@) {
                Some(v) => v,
                None => JsonModel::Null,
            },
        }
    } else if get(m, "method"@) is Some {
        r matches Reply::Event(x) && x@ == m
    } else {
        r is Unrelated
    }
}

/// Sorts a message read while the command `id` waits for its answer.
pub fn classify_reply(message: Json, id: u64) -> (r: Reply)
    ensures
        reply_holds(message@, id, r),
{
    let answered = match message.get("id") {
        Some(v) => v.as_u64() == Some(id),
        None => false,
    };
    if answered {
        if message.get("error").is_some() {
            match message.into_member("error") {
                Some(e) => Reply::Rejected(e),
                None => Reply::Unrelated,
            }
        } else {
            match message.into_member("result") {
                Some(v) => Reply::Answer(v),
                None => Reply::Answer(Json::Null),
            }
        }
    } else if message.get("method").is_some() {
        Reply::Event(message)
    } else {
        Reply::Unrelated
    }
}

/// Why the page script is not confirmed active.
#[derive(Debug, PartialEq, Eq, Structural, Clone, Copy)]
pub enum MarkerError {
    /// The evaluation threw.
    ScriptFailed,
    /// The marker is not `true`.
    NotActive,
}

/// The message the launcher shows when the page script is not confirmed active.
pub open spec fn marker_error_text(e: MarkerError) -> Seq<char> {
    match e {
        MarkerError::ScriptFailed => "中文环境脚本执行异常"@,
        MarkerError::NotActive => "中文环境脚本没有在页面生效"@,
    }
}

impl MarkerError {
    /// The message the launcher shows for this error.
    pub fn message(&self) -> (r: String)
        ensures
            r@ == marker_error_text(*self),
    {
        match self {
            MarkerError::ScriptFailed => String::from_str("中文环境脚本执行异常"),
            MarkerError::NotActive => String::from_str("中文环境脚本没有在页面生效"),
        }
    }
}

/// The verdict on the marker probe's result.
pub open spec fn marker_verdict(result: JsonModel) -> Result<(), MarkerError> {
    if get(result, "exceptionDetails"@) is Some {
        Err(MarkerError::ScriptFailed)
    } else if bool_of(get_in(get(result, "result"@), "value"@)) == Some(true) {
        Ok(())
    } else {
        Err(MarkerError::NotActive)
    }
}

/// Reads the marker probe's result: active only if it evaluated to `true`.
pub fn check_runtime_marker(result: &Json) -> (r: Result<(), MarkerError>)
    ensures
        r == marker_verdict(result@),
{
    if result.get("exceptionDetails").is_some() {
        return Err(MarkerError::ScriptFailed);
    }
    let active = match result.get("result") {
        Some(inner) => match inner.get("value") {
            Some(v) => v.as_bool() == Some(true),
            None => false,
        },
        None => false,
    };
    if active {
        Ok(())
    } else {
        Err(MarkerError::NotActive)
    }
}

/// The progress report text in the locale probe's result, if it returned one.
pub fn locale_report_text(result: &Json) -> (r: Option<String>)
    ensures
        match r {
            Some(t) => text_of(get_in(get(result@, "result"@), "value"@)) == Some(t@),
            None => text_of(get_in(get(result@, "result"@), "value"@)) is None,
        },
{
    match result.get("result") {
        Some(inner) => match inner.get("value") {
            Some(v) => match v.as_str() {
                Some(t) => Some(String::from_str(t)),
                None => None,
            },
            None => None,
        },
        None => None,
    }
}

/// The state of the page's locale setting, as the page script reports it.
#[derive(Debug, PartialEq)]
pub enum LocaleSettingStatus {
    Pending,
    ReloadRequired,
    Ready,
    Failed(String),
}

/// The model of a `LocaleSettingStatus`.
pub enum StatusModel {
    Pending,
    ReloadRequired,
    Ready,
    Failed(Seq<char>),
}

impl View for LocaleSettingStatus {
    type V = StatusModel;

    open spec fn view(&self) -> StatusModel {
        match self {
            LocaleSettingStatus::Pending => StatusModel::Pending,
            LocaleSettingStatus::ReloadRequired => StatusModel::ReloadRequired,
            LocaleSettingStatus::Ready => StatusModel::Ready,
            LocaleSettingStatus::Failed(d) => StatusModel::Failed(d@),
        }
    }
}

/// The status that a report states by its `settingStatus`: `ready`,
/// `reload-required`, `bridge-unavailable` or `failed` (with its
/// `settingError`); anything else is still pending.
pub open spec fn report_status(report: JsonModel) -> StatusModel {
    let s = text_of(get(report, "settingStatus"@));
    if s == Some("ready"@) {
        StatusModel::Ready
    } else if s == Some("reload-required"@) {
        StatusModel::ReloadRequired
    } else if s == Some("bridge-unavailable"@) {
        StatusModel::Failed(BRIDGE_UNAVAILABLE_DETAIL@)
    } else if s == Some("failed"@) {
        StatusModel::Failed(
            match text_of(get(report, "settingError"@)) {
                Some(e) => e,
                None => UNKNOWN_FAILURE_DETAIL@,
            },
        )
    } else {
        StatusModel::Pending
    }
}

/// The status of a report follows from its `settingStatus` text alone: ready
/// exactly when it reads `ready`, a reload exactly when it reads
/// `reload-required`, a failure exactly when it reads `failed` or
/// `bridge-unavailable`; any other text, `pending` among them, or none at all
/// leaves the setting pending. A `failed` report with a `settingError` text
/// fails with that text.
pub proof fn law_status_follows_setting_status(report: JsonModel)
    ensures
        (report_status(report) is Ready) <==> text_of(get(report, "settingStatus"@)) == Some(
            "ready"@,
        ),
        (report_status(report) is ReloadRequired) <==> text_of(get(report, "settingStatus"@))
            == Some("reload-required"@),
        (report_status(report) is Failed) <==> (text_of(get(report, "settingStatus"@)) == Some(
            "failed"@,
        ) || text_of(get(report, "settingStatus"@)) == Some("bridge-unavailable"@)),
        (report_status(report) is Pending) <==> !(text_of(get(report, "settingStatus"@)) == Some(
            "ready"@,
        ) || text_of(get(report, "settingStatus"@)) == Some("reload-required"@) || text_of(
            get(report, "settingStatus"@),
        ) == Some("failed"@) || text_of(get(report, "settingStatus"@)) == Some(
            "bridge-unavailable"@,
        )),
        text_of(get(report, "settingStatus"@)) == Some("pending"@) ==> report_status(report)
            is Pending,
        text_of(get(report, "settingStatus"@)) == Some("failed"@) && text_of(
            get(report, "settingError"@),
        ) is Some ==> report_status(report) == StatusModel::Failed(
            text_of(get(report, "settingError"@))->0,
        ),
{
    reveal_strlit("ready");
    reveal_strlit("reload-required");
    reveal_strlit("failed");
    reveal_strlit("bridge-unavailable");
    reveal_strlit("pending");
    assert("ready"@ != "reload-required"@ && "ready"@ != "failed"@ && "ready"@ != "bridge-unavailable"@) by {
        assert("ready"@.len() != "reload-required"@.len());
        assert("ready"@[0] != "failed"@[0]);
        assert("ready"@.len() != "bridge-unavailable"@.len());
    }
    assert("reload-required"@ != "failed"@ && "reload-required"@ != "bridge-unavailable"@) by {
        assert("reload-required"@.len() != "failed"@.len());
        assert("reload-required"@.len() != "bridge-unavailable"@.len());
    }
    assert("failed"@ != "bridge-unavailable"@) by {
        assert("failed"@.len() != "bridge-unavailable"@.len());
    }
    assert("pending"@ != "ready"@ && "pending"@ != "reload-required"@ && "pending"@ != "failed"@
        && "pending"@ != "bridge-unavailable"@) by {
        assert("pending"@[0] != "ready"@[0]);
        assert("pending"@[0] != "reload-required"@[0]);
        assert("pending"@[0] != "failed"@[0]);
        assert("pending"@[0] != "bridge-unavailable"@[0]);
    }
}

/// Reads the page script's progress report.
pub fn parse_locale_setting_status(status: &Json) -> (r: LocaleSettingStatus)
    ensures
        r@ == report_status(status@),
{
    let setting = status.get("settingStatus");
    if text_member_is(setting, "ready") {
        LocaleSettingStatus::Ready
    } else if text_member_is(setting, "reload-required") {
        LocaleSettingStatus::ReloadRequired
    } else if text_member_is(setting, "bridge-unavailable") {
        LocaleSettingStatus::Failed(String::from_str(BRIDGE_UNAVAILABLE_DETAIL))
    } else if text_member_is(setting, "failed") {
        let detail = match status.get("settingError") {
            Some(e) => match e.as_str() {
                Some(t) => String::from_str(t),
                None => String::from_str(UNKNOWN_FAILURE_DETAIL),
            },
            None => String::from_str(UNKNOWN_FAILURE_DETAIL),
        };
        LocaleSettingStatus::Failed(detail)
    } else {
        LocaleSettingStatus::Pending
    }
}

/// The request text of command number `id`.
pub open spec fn request_model(id: u64, method: Seq<char>, params: JsonModel) -> JsonModel {
    JsonModel::Object(
        seq![
            ("id"@, JsonModel::Number(NumberModel::PosInt(id))),
            ("method"@, str_model(method)),
            ("params"@, params),
        ],
    )
}

/// One use of the queue of waiting events: an event kept, or a take that
/// handed out an event or found none.
pub enum QueueStep {
    Keep(JsonModel),
    Take(Option<JsonModel>),
}

/// The queue rule between two contents of the queue: a kept event joins the
/// back; a take hands out the front event and removes it, or finds the queue
/// empty and leaves it so.
pub open spec fn queue_step_ok(before: Seq<JsonModel>, after: Seq<JsonModel>, step: QueueStep) -> bool {
    match step {
        QueueStep::Keep(e) => after == before.push(e),
        QueueStep::Take(Some(e)) => before.len() > 0 && e == before[0] && after == before.drop_first(),
        QueueStep::Take(None) => before.len() == 0 && after == before,
    }
}

/// The events kept over `steps`, in order.
pub open spec fn kept_events(steps: Seq<QueueStep>) -> Seq<JsonModel>
    decreases steps.len(),
{
    if steps.len() == 0 {
        Seq::empty()
    } else {
        match steps.last() {
            QueueStep::Keep(e) => kept_events(steps.drop_last()).push(e),
            QueueStep::Take(_) => kept_events(steps.drop_last()),
        }
    }
}

/// The events handed out over `steps`, in order.
pub open spec fn taken_events(steps: Seq<QueueStep>) -> Seq<JsonModel>
    decreases steps.len(),
{
    if steps.len() == 0 {
        Seq::empty()
    } else {
        match steps.last() {
            QueueStep::Take(Some(e)) => taken_events(steps.drop_last()).push(e),
            _ => taken_events(steps.drop_last()),
        }
    }
}

/// Over any sequence of keeps and takes on a session's queue (each keeping
/// `queue_step_ok`, as `keep_event` and `take_event` do), events come out first
/// in, first out: what was waiting at the start followed by what was kept equals
/// what was handed out followed by what is still waiting. In particular events
/// waiting at the start are handed out in their order before any kept later.
pub proof fn law_events_first_in_first_out(queues: Seq<Seq<JsonModel>>, steps: Seq<QueueStep>)
    requires
        queues.len() == steps.len() + 1,
        forall|i: int|
            0 <= i < steps.len() ==> queue_step_ok(#[trigger] queues[i], queues[i + 1], steps[i]),
    ensures
        queues[0] + kept_events(steps) == taken_events(steps) + queues.last(),
    decreases steps.len(),
{
    if steps.len() > 0 {
        let n = steps.len() as int;
        let pq = queues.drop_last();
        let ps = steps.drop_last();
        assert forall|i: int| 0 <= i < ps.len() implies queue_step_ok(
            #[trigger] pq[i],
            pq[i + 1],
            ps[i],
        ) by {
            assert(queue_step_ok(queues[i], queues[i + 1], steps[i]));
        }
        law_events_first_in_first_out(pq, ps);
        assert(queue_step_ok(queues[n - 1], queues[n], steps[n - 1]));
        let q0 = queues[0];
        let last = queues[n - 1];
        match steps[n - 1] {
            QueueStep::Keep(e) => {
                assert(q0 + kept_events(ps).push(e) =~= (q0 + kept_events(ps)).push(e));
                assert(taken_events(ps) + last.push(e) =~= (taken_events(ps) + last).push(e));
            },
            QueueStep::Take(Some(e)) => {
                assert(last =~= seq![e] + last.drop_first());
                assert(taken_events(ps).push(e) + last.drop_first() =~= taken_events(ps) + last);
            },
            QueueStep::Take(None) => {},
        }
    }
}

/// The client side of one DevTools connection: the number of the next command
/// and the events that arrived while a command waited for its answer.
pub struct CdpSession {
    next_id: u64,
    events: VecDeque<Json>,
}

impl CdpSession {
    /// The number that the next command gets.
    pub closed spec fn next_command_id(&self) -> u64 {
        self.next_id
    }

    /// The events waiting to be handed out, oldest first.
    pub closed spec fn pending(&self) -> Seq<JsonModel> {
        self.events@.map_values(|e: Json| e@)
    }

    /// A session whose first command is number 1, with no events waiting.
    pub fn new() -> (s: Self)
        ensures
            s.next_command_id() == 1,
            s.pending() == Seq::<JsonModel>::empty(),
    {
        let s = CdpSession { next_id: 1, events: VecDeque::new() };
        assert(s.pending() =~= Seq::<JsonModel>::empty());
        s
    }

    /// The number that the next command gets.
    pub fn next_number(&self) -> (r: u64)
        ensures
            r == self.next_command_id(),
    {
        self.next_id
    }

    /// Numbers `command` and turns it into its request; later commands get
    /// higher numbers.
    pub fn request(&mut self, command: CdpCommand) -> (r: (u64, Json))
        requires
            old(self).next_command_id() < u64::MAX,
        ensures
            r.0 == old(self).next_command_id(),
            final(self).next_command_id() == old(self).next_command_id() + 1,
            final(self).pending() == old(self).pending(),
            r.1@ == request_model(r.0, command.method@, command.params@),
    {
        let id = self.next_id;
        self.next_id = self.next_id + 1;
        let method = Json::Str(command.method);
        let request = object3(
            "id",
            Json::Number(JsonNumber::PosInt(id)),
            "method",
            method,
            "params",
            command.params,
        );
        (id, request)
    }

    /// Keeps an event that arrived while a command waited.
    pub fn keep_event(&mut self, event: Json)
        ensures
            final(self).next_command_id() == old(self).next_command_id(),
            final(self).pending() == old(self).pending().push(event@),
            queue_step_ok(old(self).pending(), final(self).pending(), QueueStep::Keep(event@)),
    {
        self.events.push_back(event);
        assert(self.pending() =~= old(self).pending().push(event@));
    }

    /// The oldest waiting event, taken out of the queue.
    pub fn take_event(&mut self) -> (r: Option<Json>)
        ensures
            final(self).next_command_id() == old(self).next_command_id(),
            queue_step_ok(old(self).pending(), final(self).pending(), QueueStep::Take(opt_owned_model(r))),
            match r {
                Some(e) => old(self).pending().len() > 0 && e@ == old(self).pending()[0]
                    && final(self).pending() == old(self).pending().drop_first(),
                None => old(self).pending().len() == 0 && final(self).pending() == old(
                    self,
                ).pending(),
            },
    {
        let r = self.events.pop_front();
        assert(self.pending() =~= old(self).pending().subrange(1, old(self).pending().len() as int)
            || r.is_none());
        r
    }
}

} // verus!
