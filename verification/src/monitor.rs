//! The decisions of the launcher while the app runs: when to look for the page
//! again, when to re-attach after the page was rebuilt, when to ask the page
//! how its locale setting stands, when to reload it (once at most), and when the
//! app has gone. The caller performs the I/O and hands back what happened;
//! times are milliseconds on the caller's monotonic clock.
use crate::cdp::{voice_typing_event, LocaleSettingStatus};
use crate::json::Json;
use crate::target::{is_primary_app_page, primary_app_page, Target};
use crate::text::chars_of;
use vstd::prelude::*;

verus! {

/// How long the launcher waits for the first debug page.
pub const FIRST_TARGET_WAIT_MS: u64 = 20000;

/// Pause between two attempts to find the first debug page.
pub const FIRST_TARGET_RETRY_MS: u64 = 500;

/// Pause after a failed read on the debug connection.
pub const READ_FAILURE_PAUSE_MS: u64 = 100;

/// Interval between two looks at the target list.
pub const TARGET_CHECK_INTERVAL_MS: u64 = 2000;

/// How long the launcher follows the page's locale setting.
pub const LOCALE_REPORT_TIMEOUT_MS: u64 = 35000;

/// Interval between two locale probes.
pub const LOCALE_REPORT_INTERVAL_MS: u64 = 500;

/// Pause before the first probe after a requested reload.
pub const RELOAD_SETTLE_MS: u64 = 1000;

/// Failed looks at the target list in a row after which the app counts as closed.
pub const MAX_MISSES: u8 = 8;

/// Clock values stay below this bound, so that no deadline overflows.
pub const CLOCK_LIMIT: u64 = 0xffff_ffff_ffff_0000;

/// The monitor's state.
pub struct MonitorState {
    /// The WebSocket address of the attached page.
    pub active_url: Seq<char>,
    /// The connection to the attached page works.
    pub connection_healthy: bool,
    /// When to look at the target list next.
    pub next_target_check: u64,
    /// The locale setting has been settled, one way or another.
    pub locale_finished: bool,
    /// A page reload has been requested.
    pub reload_requested: bool,
    /// Until when the locale setting is followed, while it is.
    pub locale_deadline: Option<u64>,
    /// When to probe the locale setting next.
    pub next_locale_check: u64,
    /// Failed looks at the target list in a row.
    pub misses: u8,
}

/// The page monitor.
pub struct Monitor {
    active_url: String,
    connection_healthy: bool,
    next_target_check: u64,
    locale_finished: bool,
    reload_requested: bool,
    locale_deadline: Option<u64>,
    next_locale_check: u64,
    misses: u8,
}

impl View for Monitor {
    type V = MonitorState;

    closed spec fn view(&self) -> MonitorState {
        MonitorState {
            active_url: self.active_url@,
            connection_healthy: self.connection_healthy,
            next_target_check: self.next_target_check,
            locale_finished: self.locale_finished,
            reload_requested: self.reload_requested,
            locale_deadline: self.locale_deadline,
            next_locale_check: self.next_locale_check,
            misses: self.misses,
        }
    }
}

/// A settled locale setting is no longer followed, and the failure count stays
/// within its bound.
pub open spec fn state_ok(s: MonitorState) -> bool {
    &&& s.locale_finished ==> s.locale_deadline is None
    &&& s.misses <= MAX_MISSES
}

/// The reload rule between two states: a requested reload stays requested, and
/// a step asks for a reload only when none was requested before, and records it.
pub open spec fn reload_respected(before: MonitorState, after: MonitorState, reloads: bool) -> bool {
    &&& before.reload_requested ==> after.reload_requested
    &&& reloads ==> !before.reload_requested && after.reload_requested
}

/// A settled locale setting stays settled.
pub open spec fn settled_stays(before: MonitorState, after: MonitorState) -> bool {
    before.locale_finished ==> after.locale_finished
}

/// The locale-probe schedule between two states, for a step taken at `now`
/// that probes the locale setting (`probed`) or not. A settled setting stays
/// settled, and a followed one stays followed until it is settled. A probe
/// comes only while the setting is followed and unsettled, over a healthy
/// connection, once the next probe is due, and it puts the next one
/// `LOCALE_REPORT_INTERVAL_MS` later. Any other step leaves the next probe no
/// earlier, or puts it at least that interval after `now`, or is the one that
/// starts following the setting.
pub open spec fn schedule_respected(
    before: MonitorState,
    after: MonitorState,
    now: u64,
    probed: bool,
) -> bool {
    &&& before.locale_finished ==> after.locale_finished
    &&& before.locale_deadline is Some ==> (after.locale_deadline is Some || after.locale_finished)
    &&& if probed {
        &&& !before.locale_finished
        &&& before.connection_healthy
        &&& before.locale_deadline is Some
        &&& now >= before.next_locale_check
        &&& after.next_locale_check == now + LOCALE_REPORT_INTERVAL_MS
    } else {
        ||| after.next_locale_check >= before.next_locale_check
        ||| after.next_locale_check >= now + LOCALE_REPORT_INTERVAL_MS
        ||| (before.locale_deadline is None && !before.locale_finished)
    }
}

/// The WebSocket address of a target, empty where it has none.
pub open spec fn target_socket(t: Target) -> Seq<char> {
    match t.web_socket_debugger_url {
        Some(w) => w@,
        None => Seq::<char>::empty(),
    }
}

/// A step of the monitor, as the count of failed looks at the target list sees it.
pub enum StepKind {
    /// A step that is no look at the target list.
    Other,
    /// A look at the target list; whether a usable target was found.
    Look(bool),
}

/// The rule of the failed-look count between two states: only looks at the
/// target list change it, a found target resets it, a failed look adds one, and
/// the step that reaches `MAX_MISSES` is the only one that ends the run.
pub open spec fn misses_respected(
    before: MonitorState,
    after: MonitorState,
    step: StepKind,
    exits: bool,
) -> bool {
    match step {
        StepKind::Other => after.misses == before.misses && !exits,
        StepKind::Look(found) => if found {
            after.misses == 0 && !exits
        } else if before.misses + 1 >= MAX_MISSES {
            after.misses == MAX_MISSES && exits
        } else {
            after.misses == before.misses + 1 && !exits
        },
    }
}

/// Failed looks since the last successful one.
pub open spec fn trailing_misses(steps: Seq<StepKind>) -> nat
    decreases steps.len(),
{
    if steps.len() == 0 {
        0
    } else {
        match steps.last() {
            StepKind::Other => trailing_misses(steps.drop_last()),
            StepKind::Look(found) => if found {
                0
            } else {
                trailing_misses(steps.drop_last()) + 1
            },
        }
    }
}

pub open spec fn capped(n: nat) -> nat {
    if n >= MAX_MISSES {
        MAX_MISSES as nat
    } else {
        n
    }
}

/// Over any run that starts with no failed looks (as `Monitor::start` does)
/// and whose every step keeps `misses_respected` (as all methods do), the run
/// ends only at a look that completes `MAX_MISSES` failed looks with no
/// successful one between them; event reads, read failures and locale probes
/// never end it.
pub proof fn law_exit_only_after_missed_looks(
    states: Seq<MonitorState>,
    steps: Seq<StepKind>,
    exits: Seq<bool>,
)
    requires
        states.len() == steps.len() + 1,
        exits.len() == steps.len(),
        states[0].misses == 0,
        forall|i: int|
            0 <= i < steps.len() ==> misses_respected(
                #[trigger] states[i],
                states[i + 1],
                steps[i],
                exits[i],
            ),
    ensures
        states.last().misses == capped(trailing_misses(steps)),
        forall|i: int|
            0 <= i < steps.len() && #[trigger] exits[i] ==> trailing_misses(steps.take(i + 1))
                >= MAX_MISSES,
    decreases steps.len(),
{
    if steps.len() > 0 {
        let n = steps.len() as int;
        let ps = states.drop_last();
        let pst = steps.drop_last();
        let pe = exits.drop_last();
        assert forall|i: int| 0 <= i < pst.len() implies misses_respected(
            #[trigger] ps[i],
            ps[i + 1],
            pst[i],
            pe[i],
        ) by {
            assert(misses_respected(states[i], states[i + 1], steps[i], exits[i]));
        }
        law_exit_only_after_missed_looks(ps, pst, pe);
        assert(misses_respected(states[n - 1], states[n], steps[n - 1], exits[n - 1]));
        assert(steps.take(n) =~= steps);
        assert forall|i: int| 0 <= i < n && #[trigger] exits[i] implies trailing_misses(
            steps.take(i + 1),
        ) >= MAX_MISSES by {
            if i < n - 1 {
                assert(pe[i] == exits[i]);
                assert(pst.take(i + 1) =~= steps.take(i + 1));
            }
        }
    }
}

/// What the launcher got when it read from the debug connection.
pub enum ReadOutcome<'a> {
    /// A message of the page.
    Message(&'a Json),
    /// Nothing arrived in time.
    Quiet,
    /// The read failed.
    Failed,
}

/// What to do after a read from the debug connection.
#[derive(Debug, PartialEq, Eq, Structural, Clone, Copy)]
pub enum EventAction {
    /// Press Win+H for the user.
    OpenVoiceTyping,
    /// Nothing to do.
    Continue,
    /// Pause briefly; `report` says whether this is the first failure since
    /// the connection was last healthy, which is logged.
    PauseAfterFailure { report: bool },
}

/// What to do after a look at the target list.
#[derive(Debug, PartialEq, Eq, Structural, Clone, Copy)]
pub enum TargetAction {
    /// Nothing changes.
    Stay,
    /// Attach to the target found: the page was rebuilt or the connection broke.
    Reattach,
    /// The app has been closed: stop.
    Exit,
}

/// What to do after a locale probe.
#[derive(Debug, PartialEq)]
pub enum LocaleAction {
    /// Nothing to do.
    Wait,
    /// Report that the interface is Chinese.
    ReportReady,
    /// Ask the page to reload.
    RequestReload,
    /// Report that setting the locale failed, with the page's detail.
    ReportFailed(String),
    /// Report that the locale is still settling when the launcher stops following it.
    ReportTimeout,
}

/// The model of a probe's outcome: the status read, or a failed probe.
pub open spec fn poll_model(p: Option<LocaleSettingStatus>) -> Option<crate::cdp::StatusModel> {
    match p {
        Some(s) => Some(s@),
        None => None,
    }
}

/// Whether to try again to find the first debug page.
pub fn may_retry_first_target(now: u64, started: u64) -> (r: bool)
    ensures
        r == (now < started + FIRST_TARGET_WAIT_MS),
{
    now < started || now - started < FIRST_TARGET_WAIT_MS
}

impl Monitor {
    #[verifier::type_invariant]
    spec fn consistent(self) -> bool {
        state_ok(self@)
    }

    /// The monitor right after the first attachment, at `now`. The locale
    /// setting is followed only on the app's main window.
    pub fn start(first: &Target, now: u64) -> (m: Self)
        requires
            now < CLOCK_LIMIT,
        ensures
            m@.active_url == target_socket(*first),
            m@.connection_healthy,
            m@.next_target_check == now + TARGET_CHECK_INTERVAL_MS,
            !m@.locale_finished,
            !m@.reload_requested,
            m@.locale_deadline == (if primary_app_page(first.url@) {
                Some((now + LOCALE_REPORT_TIMEOUT_MS) as u64)
            } else {
                None
            }),
            m@.next_locale_check == now,
            m@.misses == 0,
            state_ok(m@),
    {
        let active_url = match &first.web_socket_debugger_url {
            Some(w) => w.clone(),
            None => String::new(),
        };
        let locale_deadline = if is_primary_app_page(first.url.as_str()) {
            Some(now + LOCALE_REPORT_TIMEOUT_MS)
        } else {
            None
        };
        Monitor {
            active_url,
            connection_healthy: true,
            next_target_check: now + TARGET_CHECK_INTERVAL_MS,
            locale_finished: false,
            reload_requested: false,
            locale_deadline,
            next_locale_check: now,
            misses: 0,
        }
    }

    /// Takes in a read from the debug connection. Each message that calls the
    /// voice-typing binding asks for Win+H once; other messages and quiet reads
    /// change nothing; a failed read marks the connection broken. None of these
    /// ends the run.
    pub fn on_event(&mut self, read: ReadOutcome) -> (r: EventAction)
        ensures
            state_ok(final(self)@),
            reload_respected(old(self)@, final(self)@, false),
            settled_stays(old(self)@, final(self)@),
            misses_respected(old(self)@, final(self)@, StepKind::Other, false),
            forall|t: u64| #[trigger] schedule_respected(old(self)@, final(self)@, t, false),
            match read {
                ReadOutcome::Message(e) => final(self)@ == old(self)@ && r == (if voice_typing_event(
                    e@,
                ) {
                    EventAction::OpenVoiceTyping
                } else {
                    EventAction::Continue
                }),
                ReadOutcome::Quiet => final(self)@ == old(self)@ && r == EventAction::Continue,
                ReadOutcome::Failed => r == (EventAction::PauseAfterFailure {
                    report: old(self)@.connection_healthy,
                }) && final(self)@ == (MonitorState { connection_healthy: false, ..old(self)@ }),
            },
    {
        proof {
            use_type_invariant(&*self);
        }
        match read {
            ReadOutcome::Message(e) => {
                if crate::cdp::is_voice_typing_event(e) {
                    EventAction::OpenVoiceTyping
                } else {
                    EventAction::Continue
                }
            },
            ReadOutcome::Quiet => EventAction::Continue,
            ReadOutcome::Failed => {
                let report = self.connection_healthy;
                self.connection_healthy = false;
                EventAction::PauseAfterFailure { report }
            },
        }
    }

    /// The requested reload has been sent at `now`: the next probe waits until
    /// the page had time to settle.
    pub fn reload_sent(&mut self, now: u64)
        requires
            now < CLOCK_LIMIT,
        ensures
            state_ok(final(self)@),
            reload_respected(old(self)@, final(self)@, false),
            settled_stays(old(self)@, final(self)@),
            misses_respected(old(self)@, final(self)@, StepKind::Other, false),
            schedule_respected(old(self)@, final(self)@, now, false),
            final(self)@ == (MonitorState {
                next_locale_check: (now + RELOAD_SETTLE_MS) as u64,
                ..old(self)@
            }),
    {
        proof {
            use_type_invariant(&*self);
        }
        self.next_locale_check = now + RELOAD_SETTLE_MS;
    }

    /// Whether to probe the locale setting at `now`: only while it is followed,
    /// unsettled, over a healthy connection, and the probe is due. A due probe
    /// sets the time of the next one.
    pub fn locale_poll_due(&mut self, now: u64) -> (r: bool)
        requires
            now < CLOCK_LIMIT,
        ensures
            state_ok(final(self)@),
            r == (!old(self)@.locale_finished && old(self)@.connection_healthy
                && old(self)@.locale_deadline is Some && now >= old(self)@.next_locale_check),
            misses_respected(old(self)@, final(self)@, StepKind::Other, false),
            schedule_respected(old(self)@, final(self)@, now, r),
            r ==> final(self)@ == (MonitorState {
                next_locale_check: (now + LOCALE_REPORT_INTERVAL_MS) as u64,
                ..old(self)@
            }),
            !r ==> final(self)@ == old(self)@,
    {
        proof {
            use_type_invariant(&*self);
        }
        if !self.locale_finished && self.connection_healthy && self.locale_deadline.is_some() && now
            >= self.next_locale_check {
            self.next_locale_check = now + LOCALE_REPORT_INTERVAL_MS;
            true
        } else {
            false
        }
    }

    /// Takes in the outcome of a locale probe at `now` (`None`: the probe
    /// failed, which happens while the page reloads). Ready and failed settle
    /// the setting; the first reload request is passed on and later ones are
    /// ignored; a pending state past the deadline settles it as timed out; a
    /// failed probe marks the connection broken.
    pub fn on_locale_poll(&mut self, outcome: Option<LocaleSettingStatus>, now: u64) -> (r:
        LocaleAction)
        requires
            now < CLOCK_LIMIT,
        ensures
            state_ok(final(self)@),
            reload_respected(old(self)@, final(self)@, r is RequestReload),
            misses_respected(old(self)@, final(self)@, StepKind::Other, false),
            settled_stays(old(self)@, final(self)@),
            schedule_respected(old(self)@, final(self)@, now, false),
            final(self)@.active_url == old(self)@.active_url,
            final(self)@.next_target_check == old(self)@.next_target_check,
            final(self)@.misses == old(self)@.misses,
            match outcome {
                Some(LocaleSettingStatus::Ready) => r is ReportReady && final(self)@ == (
                MonitorState { locale_finished: true, locale_deadline: None, ..old(self)@ }),
                Some(LocaleSettingStatus::ReloadRequired) => if !old(self)@.reload_requested {
                    r is RequestReload && final(self)@ == (MonitorState {
                        reload_requested: true,
                        ..old(self)@
                    })
                } else {
                    r is Wait && final(self)@ == old(self)@
                },
                Some(LocaleSettingStatus::Failed(d)) => (r matches LocaleAction::ReportFailed(x)
                    && x@ == d@) && final(self)@ == (MonitorState {
                    locale_finished: true,
                    locale_deadline: None,
                    ..old(self)@
                }),
                Some(LocaleSettingStatus::Pending) => if (old(
                    self,
                )@.locale_deadline matches Some(d) && now >= d) {
                    r is ReportTimeout && final(self)@ == (MonitorState {
                        locale_finished: true,
                        locale_deadline: None,
                        ..old(self)@
                    })
                } else {
                    r is Wait && final(self)@ == old(self)@
                },
                None => r is Wait && final(self)@ == (MonitorState {
                    connection_healthy: false,
                    ..old(self)@
                }),
            },
    {
        proof {
            use_type_invariant(&*self);
        }
        match outcome {
            Some(LocaleSettingStatus::Ready) => {
                self.locale_deadline = None;
                self.locale_finished = true;
                LocaleAction::ReportReady
            },
            Some(LocaleSettingStatus::ReloadRequired) => {
                if !self.reload_requested {
                    self.reload_requested = true;
                    LocaleAction::RequestReload
                } else {
                    LocaleAction::Wait
                }
            },
            Some(LocaleSettingStatus::Failed(detail)) => {
                self.locale_deadline = None;
                self.locale_finished = true;
                LocaleAction::ReportFailed(detail)
            },
            Some(LocaleSettingStatus::Pending) => {
                let expired = match self.locale_deadline {
                    Some(d) => now >= d,
                    None => false,
                };
                if expired {
                    self.locale_deadline = None;
                    self.locale_finished = true;
                    LocaleAction::ReportTimeout
                } else {
                    LocaleAction::Wait
                }
            },
            None => {
                self.connection_healthy = false;
                LocaleAction::Wait
            },
        }
    }

    /// Whether to look at the target list at `now`; a due look sets the time
    /// of the next one.
    pub fn target_check_due(&mut self, now: u64) -> (r: bool)
        requires
            now < CLOCK_LIMIT,
        ensures
            state_ok(final(self)@),
            misses_respected(old(self)@, final(self)@, StepKind::Other, false),
            schedule_respected(old(self)@, final(self)@, now, false),
            r == (now >= old(self)@.next_target_check),
            r ==> final(self)@ == (MonitorState {
                next_target_check: (now + TARGET_CHECK_INTERVAL_MS) as u64,
                ..old(self)@
            }),
            !r ==> final(self)@ == old(self)@,
    {
        proof {
            use_type_invariant(&*self);
        }
        if now < self.next_target_check {
            false
        } else {
            self.next_target_check = now + TARGET_CHECK_INTERVAL_MS;
            true
        }
    }

    /// Takes in a look at the target list (`None`: no usable target). A found
    /// target resets the failure count and calls for re-attaching when it has a
    /// WebSocket address that differs from the attached one, or the connection
    /// is broken. `MAX_MISSES` failed looks in a row mean the app was closed.
    pub fn on_target(&mut self, found: Option<&Target>) -> (r: TargetAction)
        ensures
            misses_respected(
                old(self)@,
                final(self)@,
                StepKind::Look(found is Some),
                r == TargetAction::Exit,
            ),
            state_ok(final(self)@),
            reload_respected(old(self)@, final(self)@, false),
            settled_stays(old(self)@, final(self)@),
            forall|t: u64| #[trigger] schedule_respected(old(self)@, final(self)@, t, false),
            match found {
                Some(t) => {
                    &&& final(self)@ == (MonitorState { misses: 0, ..old(self)@ })
                    &&& r == (if target_socket(*t).len() > 0 && (target_socket(*t)
                        != old(self)@.active_url || !old(self)@.connection_healthy) {
                        TargetAction::Reattach
                    } else {
                        TargetAction::Stay
                    })
                },
                None => if old(self)@.misses + 1 >= MAX_MISSES {
                    r == TargetAction::Exit && final(self)@ == (MonitorState {
                        misses: MAX_MISSES,
                        ..old(self)@
                    })
                } else {
                    r == TargetAction::Stay && final(self)@ == (MonitorState {
                        misses: (old(self)@.misses + 1) as u8,
                        ..old(self)@
                    })
                },
            },
    {
        proof {
            use_type_invariant(&*self);
        }
        match found {
            Some(t) => {
                self.misses = 0;
                let next: Vec<char> = match &t.web_socket_debugger_url {
                    Some(w) => chars_of(w.as_str()),
                    None => Vec::new(),
                };
                let next_empty = next.len() == 0;
                let differs = match &t.web_socket_debugger_url {
                    Some(w) => !(*w == self.active_url),
                    None => true,
                };
                proof {
                    assert(next@ == target_socket(*t));
                }
                if !next_empty && (differs || !self.connection_healthy) {
                    TargetAction::Reattach
                } else {
                    TargetAction::Stay
                }
            },
            None => {
                if self.misses + 1 >= MAX_MISSES {
                    self.misses = MAX_MISSES;
                    TargetAction::Exit
                } else {
                    self.misses = self.misses + 1;
                    TargetAction::Stay
                }
            },
        }
    }

    /// The launcher has re-attached to `target` at `now`: its address becomes
    /// the attached one and the connection counts as healthy. If the locale
    /// setting is unsettled and not yet followed, and the target is the main
    /// window, following starts now.
    pub fn reattached(&mut self, target: &Target, now: u64)
        requires
            now < CLOCK_LIMIT,
        ensures
            state_ok(final(self)@),
            reload_respected(old(self)@, final(self)@, false),
            settled_stays(old(self)@, final(self)@),
            final(self)@.active_url == target_socket(*target),
            final(self)@.connection_healthy,
            final(self)@.next_target_check == old(self)@.next_target_check,
            misses_respected(old(self)@, final(self)@, StepKind::Other, false),
            schedule_respected(old(self)@, final(self)@, now, false),
            final(self)@.locale_finished == old(self)@.locale_finished,
            final(self)@.reload_requested == old(self)@.reload_requested,
            if !old(self)@.locale_finished && old(self)@.locale_deadline is None
                && primary_app_page(target.url@) {
                &&& final(self)@.locale_deadline == Some((now + LOCALE_REPORT_TIMEOUT_MS) as u64)
                &&& final(self)@.next_locale_check == now
            } else {
                &&& final(self)@.locale_deadline == old(self)@.locale_deadline
                &&& final(self)@.next_locale_check == old(self)@.next_locale_check
            },
    {
        proof {
            use_type_invariant(&*self);
        }
        self.active_url = match &target.web_socket_debugger_url {
            Some(w) => w.clone(),
            None => String::new(),
        };
        self.connection_healthy = true;
        if !self.locale_finished && self.locale_deadline.is_none() && is_primary_app_page(
            target.url.as_str(),
        ) {
            self.locale_deadline = Some(now + LOCALE_REPORT_TIMEOUT_MS);
            self.next_locale_check = now;
        }
    }
}


/// How many steps of a run asked for a reload.
pub open spec fn reload_count(fired: Seq<bool>) -> nat
    decreases fired.len(),
{
    if fired.len() == 0 {
        0
    } else {
        reload_count(fired.drop_last()) + if fired.last() {
            1nat
        } else {
            0nat
        }
    }
}

/// Over any run of the monitor (every step keeps `reload_respected`, as all of
/// its methods do), the page is asked to reload at most once, and not at all if
/// a reload had been requested when the run began.
pub proof fn law_at_most_one_reload(states: Seq<MonitorState>, fired: Seq<bool>)
    requires
        states.len() == fired.len() + 1,
        forall|i: int|
            0 <= i < fired.len() ==> reload_respected(
                #[trigger] states[i],
                states[i + 1],
                fired[i],
            ),
    ensures
        reload_count(fired) <= (if states[0].reload_requested {
            0nat
        } else {
            1nat
        }),
        reload_count(fired) > 0 ==> states.last().reload_requested,
        states[0].reload_requested ==> states.last().reload_requested,
    decreases fired.len(),
{
    if fired.len() > 0 {
        let n = fired.len() as int;
        let prefix = states.drop_last();
        assert forall|i: int| 0 <= i < n - 1 implies reload_respected(
            #[trigger] prefix[i],
            prefix[i + 1],
            fired.drop_last()[i],
        ) by {
            assert(reload_respected(states[i], states[i + 1], fired[i]));
        }
        law_at_most_one_reload(prefix, fired.drop_last());
        assert(reload_respected(states[n - 1], states[n], fired[n - 1]));
    }
}


/// A run of the monitor as the locale-probe schedule sees it: states, the time
/// of each step, and whether the step probed.
spec fn schedule_run(states: Seq<MonitorState>, times: Seq<u64>, probes: Seq<bool>) -> bool {
    &&& states.len() == probes.len() + 1
    &&& times.len() == probes.len()
    &&& forall|i: int, j: int| 0 <= i <= j < times.len() ==> #[trigger] times[i] <= #[trigger] times[j]
    &&& forall|i: int|
        0 <= i < probes.len() ==> schedule_respected(
            #[trigger] states[i],
            states[i + 1],
            times[i],
            probes[i],
        )
}

proof fn lemma_settled_from(states: Seq<MonitorState>, times: Seq<u64>, probes: Seq<bool>, i: int, k: int)
    requires
        schedule_run(states, times, probes),
        0 <= i <= k < states.len(),
        states[i].locale_finished,
    ensures
        states[k].locale_finished,
    decreases k - i,
{
    if k > i {
        lemma_settled_from(states, times, probes, i, k - 1);
        assert(schedule_respected(states[k - 1], states[k], times[k - 1], probes[k - 1]));
    }
}

proof fn lemma_after_probe(states: Seq<MonitorState>, times: Seq<u64>, probes: Seq<bool>, i: int, k: int)
    requires
        schedule_run(states, times, probes),
        0 <= i < k < states.len(),
        probes[i],
    ensures
        states[k].locale_finished || (states[k].locale_deadline is Some
            && states[k].next_locale_check >= times[i] + LOCALE_REPORT_INTERVAL_MS),
    decreases k - i,
{
    assert(schedule_respected(states[k - 1], states[k], times[k - 1], probes[k - 1]));
    if k > i + 1 {
        lemma_after_probe(states, times, probes, i, k - 1);
        assert(times[i] <= times[k - 1]);
    }
}

/// Over any run of the monitor whose steps come at nondecreasing times and each
/// keep `schedule_respected` (as all of its methods do, `locale_poll_due` being
/// the step that probes), the locale setting is probed only over a healthy
/// connection while it is followed and unsettled, two probes lie at least
/// `LOCALE_REPORT_INTERVAL_MS` apart, and once the setting is settled (ready,
/// failed or timed out) it is never probed again.
pub proof fn law_locale_probe_schedule(states: Seq<MonitorState>, times: Seq<u64>, probes: Seq<bool>)
    requires
        states.len() == probes.len() + 1,
        times.len() == probes.len(),
        forall|i: int, j: int| 0 <= i <= j < times.len() ==> #[trigger] times[i] <= #[trigger] times[j],
        forall|i: int|
            0 <= i < probes.len() ==> schedule_respected(
                #[trigger] states[i],
                states[i + 1],
                times[i],
                probes[i],
            ),
    ensures
        forall|i: int|
            0 <= i < probes.len() && #[trigger] probes[i] ==> {
                &&& states[i].connection_healthy
                &&& !states[i].locale_finished
                &&& states[i].locale_deadline is Some
                &&& times[i] >= states[i].next_locale_check
            },
        forall|i: int, j: int|
            #![trigger probes[i], probes[j]]
            0 <= i < j < probes.len() && probes[i] && probes[j] ==> times[i]
                + LOCALE_REPORT_INTERVAL_MS <= times[j],
        forall|i: int, j: int|
            #![trigger states[i], probes[j]]
            0 <= i <= j < probes.len() && states[i].locale_finished ==> !probes[j],
{
    assert(schedule_run(states, times, probes));
    assert forall|i: int| 0 <= i < probes.len() && #[trigger] probes[i] implies {
        &&& states[i].connection_healthy
        &&& !states[i].locale_finished
        &&& states[i].locale_deadline is Some
        &&& times[i] >= states[i].next_locale_check
    } by {
        assert(schedule_respected(states[i], states[i + 1], times[i], probes[i]));
    }
    assert forall|i: int, j: int|
        #![trigger probes[i], probes[j]]
        0 <= i < j < probes.len() && probes[i] && probes[j] implies times[i]
            + LOCALE_REPORT_INTERVAL_MS <= times[j] by {
        lemma_after_probe(states, times, probes, i, j);
        assert(schedule_respected(states[j], states[j + 1], times[j], probes[j]));
    }
    assert forall|i: int, j: int|
        #![trigger states[i], probes[j]]
        0 <= i <= j < probes.len() && states[i].locale_finished implies !probes[j] by {
        lemma_settled_from(states, times, probes, i, j);
        assert(schedule_respected(states[j], states[j + 1], times[j], probes[j]));
    }
}

/// Over any run that keeps `misses_respected` at every step (as all methods of
/// the monitor do), only a failed look at the target list ends the run. Read
/// failures (`on_event`), locale probes and their failures (`locale_poll_due`,
/// `on_locale_poll`), reloads and re-attachments are `StepKind::Other` steps by
/// their contracts: they never end the run and leave the count of failed looks
/// as it was; a run without a failed look never ends.
pub proof fn law_only_failed_looks_end_the_run(
    states: Seq<MonitorState>,
    steps: Seq<StepKind>,
    exits: Seq<bool>,
)
    requires
        states.len() == steps.len() + 1,
        exits.len() == steps.len(),
        forall|i: int|
            0 <= i < steps.len() ==> misses_respected(
                #[trigger] states[i],
                states[i + 1],
                steps[i],
                exits[i],
            ),
    ensures
        forall|i: int| 0 <= i < steps.len() && #[trigger] exits[i] ==> steps[i] == StepKind::Look(false),
        forall|i: int|
            0 <= i < steps.len() && (#[trigger] steps[i]) is Other ==> !exits[i] && states[i + 1].misses
                == states[i].misses,
        (forall|i: int| 0 <= i < steps.len() ==> #[trigger] steps[i] != StepKind::Look(false))
            ==> forall|i: int| 0 <= i < exits.len() ==> !#[trigger] exits[i],
{
    assert forall|i: int| 0 <= i < steps.len() && #[trigger] exits[i] implies steps[i] == StepKind::Look(false) by {
        assert(misses_respected(states[i], states[i + 1], steps[i], exits[i]));
    }
    assert forall|i: int| 0 <= i < steps.len() && (#[trigger] steps[i]) is Other implies !exits[i]
        && states[i + 1].misses == states[i].misses by {
        assert(misses_respected(states[i], states[i + 1], steps[i], exits[i]));
    }
}

} // verus!
