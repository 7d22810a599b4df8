//! The desktop front end's state and the events that drive it.  The
//! event loop, rendering and channels live outside the library; state
//! transitions happen here, one event at a time.

use vstd::prelude::*;
use vstd::string::StrSliceExecFns;
use vstd::string::StringExecFns;

use crate::login_output::LoginOutput;
use crate::profile::{ProfileSummary, SaveProfileOutcome};
use crate::quota::QuotaInfo;
use crate::state::RouterState;
use crate::tray::TrayEvent;

verus! {

/// What the front end asks the worker to do.
#[derive(Debug)]
pub enum AppCommand {
    LoadProfiles,
    SwitchProfile(String),
    SaveProfile(String),
    DeleteProfile(String),
    RunLogin,
    OpenLoginUrl(String),
    FetchQuota,
    FetchProfileQuota(String),
    Shutdown,
}

/// What the worker reports back.
#[derive(Debug)]
pub enum AppEvent {
    ProfilesLoaded(Vec<ProfileSummary>),
    ProfileSaved(SaveProfileOutcome),
    LoginOutput { output: String, parsed: LoginOutput, running: bool },
    LoginFinished { success: bool, message: String },
    QuotaLoaded(QuotaInfo),
    ProfileQuotaLoaded { name: String, quota: QuotaInfo },
    Error(String),
}

/// Everything the front end displays.
#[derive(Debug)]
pub struct AppState {
    pub profiles: Vec<ProfileSummary>,
    pub current_profile: Option<String>,
    pub quota: Option<QuotaInfo>,
    pub refresh_interval_seconds: u64,
    pub auto_refresh_enabled: bool,
    pub last_updated: Option<i64>,
    pub profile_message: Option<String>,
    pub profile_name_input: String,
    pub login_output: String,
    pub login_url: Option<String>,
    pub login_code: Option<String>,
    pub login_running: bool,
    pub error: Option<String>,
}

impl Default for AppState {
    /// A fresh display: nothing loaded, auto refresh on at ten minutes.
    fn default() -> (r: Self)
        ensures
            r.profiles@.len() == 0,
            r.current_profile is None,
            r.quota is None,
            r.refresh_interval_seconds == 600,
            r.auto_refresh_enabled,
            r.last_updated is None,
            r.profile_message is None,
            r.profile_name_input@.len() == 0,
            r.login_output@.len() == 0,
            r.login_url is None,
            r.login_code is None,
            !r.login_running,
            r.error is None,
    {
        AppState {
            profiles: Vec::new(),
            current_profile: None,
            quota: None,
            refresh_interval_seconds: 600,
            auto_refresh_enabled: true,
            last_updated: None,
            profile_message: None,
            profile_name_input: String::new(),
            login_output: String::new(),
            login_url: None,
            login_code: None,
            login_running: false,
            error: None,
        }
    }
}

/// The name of the first profile marked current, if any.
pub open spec fn spec_current_name(ps: Seq<ProfileSummary>) -> Option<String>
    decreases ps.len(),
{
    if ps.len() == 0 {
        None
    } else if ps[0].is_current {
        Some(ps[0].name)
    } else {
        spec_current_name(ps.skip(1))
    }
}

fn find_current_name(ps: &Vec<ProfileSummary>) -> (r: Option<String>)
    ensures
        r == spec_current_name(ps@),
{
    let mut i: usize = 0;
    proof {
        assert(ps@.skip(0) =~= ps@);
    }
    while i < ps.len()
        invariant
            i <= ps@.len(),
            spec_current_name(ps@) == spec_current_name(ps@.skip(i as int)),
        decreases ps@.len() - i,
    {
        proof {
            assert(ps@.skip(i as int)[0] == ps@[i as int]);
            assert(ps@.skip(i as int).skip(1) =~= ps@.skip(i + 1));
        }
        if ps[i].is_current {
            return Some(ps[i].name.clone());
        }
        i += 1;
    }
    None
}

/// The display text for a save outcome.
pub open spec fn spec_saved_message(outcome: SaveProfileOutcome) -> Seq<char> {
    match outcome {
        SaveProfileOutcome::Created { name } => "Saved profile: "@ + name@,
        SaveProfileOutcome::Updated { name } => "Updated profile: "@ + name@,
        SaveProfileOutcome::AlreadyExists { name } => "Profile already saved: "@ + name@,
    }
}

/// The fields the login-output event does not touch.
pub open spec fn frame_except_login(a: AppState, b: AppState) -> bool {
    &&& a.profiles == b.profiles
    &&& a.current_profile == b.current_profile
    &&& a.quota == b.quota
    &&& a.refresh_interval_seconds == b.refresh_interval_seconds
    &&& a.auto_refresh_enabled == b.auto_refresh_enabled
    &&& a.last_updated == b.last_updated
    &&& a.profile_message == b.profile_message
    &&& a.profile_name_input == b.profile_name_input
}

/// The fields untouched by everything but the profile list and current
/// name.
pub open spec fn frame_except_profiles(a: AppState, b: AppState) -> bool {
    &&& a.quota == b.quota
    &&& a.refresh_interval_seconds == b.refresh_interval_seconds
    &&& a.auto_refresh_enabled == b.auto_refresh_enabled
    &&& a.last_updated == b.last_updated
    &&& a.profile_message == b.profile_message
    &&& a.profile_name_input == b.profile_name_input
    &&& a.login_output == b.login_output
    &&& a.login_url == b.login_url
    &&& a.login_code == b.login_code
    &&& a.login_running == b.login_running
    &&& a.error == b.error
}

impl AppState {
    /// Applies one worker event to the display state.
    pub fn apply_event(&mut self, event: AppEvent)
        ensures
            event matches AppEvent::ProfilesLoaded(ps) ==> {
                &&& final(self).profiles == ps
                &&& final(self).current_profile == spec_current_name(ps@)
                &&& frame_except_profiles(*final(self), *old(self))
            },
            event matches AppEvent::QuotaLoaded(q) ==> {
                &&& final(self).quota == Some(q)
                &&& final(self).last_updated is Some
                &&& final(self).profiles == old(self).profiles
                &&& final(self).error == old(self).error
                &&& final(self).login_running == old(self).login_running
            },
            event matches AppEvent::ProfileSaved(outcome) ==> {
                &&& final(self).profile_message matches Some(m) && m@ == spec_saved_message(
                    outcome)
                &&& final(self).profiles == old(self).profiles
                &&& final(self).error == old(self).error
            },
            event matches AppEvent::Error(m) ==> {
                &&& final(self).error == Some(m)
                &&& final(self).profiles == old(self).profiles
                &&& final(self).login_output == old(self).login_output
            },
            event matches AppEvent::LoginOutput { output, parsed, running } ==> {
                &&& final(self).login_output@ == old(self).login_output@ + output@
                &&& final(self).login_url == if parsed.url is Some {
                    parsed.url
                } else {
                    old(self).login_url
                }
                &&& final(self).login_code == if parsed.code is Some {
                    parsed.code
                } else {
                    old(self).login_code
                }
                &&& final(self).login_running == running
                &&& frame_except_login(*final(self), *old(self))
                &&& final(self).error == old(self).error
            },
            event matches AppEvent::LoginFinished { success, message } ==> {
                &&& !final(self).login_running
                &&& (success ==> final(self).error is None)
                &&& (!success ==> final(self).error == Some(message))
                &&& final(self).profiles == old(self).profiles
            },
            event matches AppEvent::ProfileQuotaLoaded { name, quota } ==> {
                &&& final(self).profiles@.len() == old(self).profiles@.len()
                &&& frame_except_profiles(*final(self), *old(self))
                &&& final(self).current_profile == old(self).current_profile
                &&& (forall|k: int|
                    0 <= k < final(self).profiles@.len() ==> {
                        let p = #[trigger] final(self).profiles@[k];
                        let q = old(self).profiles@[k];
                        p.name == q.name && p.email == q.email && p.is_current == q.is_current
                            && p.is_valid == q.is_valid && (p.quota == q.quota || p.quota
                            == Some(quota))
                    })
                &&& (forall|k: int|
                    0 <= k < final(self).profiles@.len() && old(self).profiles@[k].name@ != name@
                        ==> #[trigger] final(self).profiles@[k] == old(self).profiles@[k])
                &&& ((exists|k: int|
                    0 <= k < old(self).profiles@.len() && #[trigger] old(
                        self).profiles@[k].name@ == name@) ==> exists|k: int|
                    0 <= k < final(self).profiles@.len() && #[trigger] final(
                        self).profiles@[k].quota == Some(quota))
            },
    {
        match event {
            AppEvent::ProfilesLoaded(profiles) => {
                self.current_profile = find_current_name(&profiles);
                self.profiles = profiles;
            },
            AppEvent::QuotaLoaded(quota) => {
                self.quota = Some(quota);
                self.last_updated = Some(crate::quota::now_epoch_seconds());
            },
            AppEvent::ProfileQuotaLoaded { name, quota } => {
                let mut i: usize = 0;
                let mut done = false;
                while i < self.profiles.len()
                    invariant
                        i <= self.profiles@.len(),
                        self.profiles@.len() == old(self).profiles@.len(),
                        frame_except_profiles(*self, *old(self)),
                        self.current_profile == old(self).current_profile,
                        forall|k: int|
                            0 <= k < self.profiles@.len() ==> {
                                let p = #[trigger] self.profiles@[k];
                                let q = old(self).profiles@[k];
                                p.name == q.name && p.email == q.email && p.is_current
                                    == q.is_current && p.is_valid == q.is_valid && (p.quota
                                    == q.quota || p.quota == Some(quota))
                            },
                        forall|k: int|
                            0 <= k < self.profiles@.len() && old(self).profiles@[k].name@
                                != name@ ==> #[trigger] self.profiles@[k] == old(
                                self).profiles@[k],
                        !done ==> forall|k: int|
                            0 <= k < i ==> #[trigger] old(self).profiles@[k].name@ != name@,
                        done ==> exists|k: int|
                            0 <= k < self.profiles@.len() && #[trigger] self.profiles@[k].quota
                                == Some(quota),
                    decreases self.profiles@.len() - i,
                {
                    if !done && crate::strutil::str_eq(
                        self.profiles[i].name.as_str(),
                        name.as_str(),
                    ) {
                        let q = quota.clone();
                        let mut entry = self.profiles[i].clone();
                        entry.quota = Some(q);
                        self.profiles.set(i, entry);
                        done = true;
                        assert(self.profiles@[i as int].quota == Some(quota));
                    }
                    i += 1;
                }
            },
            AppEvent::ProfileSaved(outcome) => {
                let mut message = String::new();
                match &outcome {
                    SaveProfileOutcome::Created { name } => {
                        message.append("Saved profile: ");
                        message.append(name.as_str());
                    },
                    SaveProfileOutcome::Updated { name } => {
                        message.append("Updated profile: ");
                        message.append(name.as_str());
                    },
                    SaveProfileOutcome::AlreadyExists { name } => {
                        message.append("Profile already saved: ");
                        message.append(name.as_str());
                    },
                }
                assert(message@ =~= spec_saved_message(outcome));
                self.profile_message = Some(message);
            },
            AppEvent::LoginOutput { output, parsed, running } => {
                if output.as_str().unicode_len() > 0 {
                    self.login_output.append(output.as_str());
                } else {
                    assert(self.login_output@ =~= old(self).login_output@ + output@);
                }
                if parsed.url.is_some() {
                    self.login_url = parsed.url;
                }
                if parsed.code.is_some() {
                    self.login_code = parsed.code;
                }
                self.login_running = running;
            },
            AppEvent::LoginFinished { success, message } => {
                self.login_running = false;
                if message.as_str().unicode_len() > 0 {
                    let out_len = self.login_output.as_str().unicode_len();
                    let needs_newline = out_len > 0 && self.login_output.as_str().get_char(
                        out_len - 1,
                    ) != '\n';
                    if needs_newline {
                        self.login_output.push('\n');
                    }
                    self.login_output.append(message.as_str());
                    self.login_output.push('\n');
                }
                if success {
                    self.error = None;
                } else {
                    self.error = Some(message);
                }
            },
            AppEvent::Error(message) => {
                self.error = Some(message);
            },
        }
    }
}

/// Applies persisted settings to the display state, leaving everything
/// else alone.
pub fn apply_router_state(app_state: &mut AppState, router_state: &RouterState)
    ensures
        final(app_state).refresh_interval_seconds == router_state.refresh_interval_seconds,
        final(app_state).auto_refresh_enabled == router_state.auto_refresh_enabled,
        final(app_state).profiles == old(app_state).profiles,
        final(app_state).current_profile == old(app_state).current_profile,
        final(app_state).quota == old(app_state).quota,
        final(app_state).error == old(app_state).error,
        final(app_state).login_output == old(app_state).login_output,
{
    app_state.refresh_interval_seconds = router_state.refresh_interval_seconds;
    app_state.auto_refresh_enabled = router_state.auto_refresh_enabled;
}

/// Writes new settings into both the persisted record and the display
/// state, reporting whether anything changed (so the caller knows to
/// persist).
pub fn update_router_state_settings(
    router_state: &mut RouterState,
    app_state: &mut AppState,
    interval_seconds: u64,
    auto_refresh_enabled: bool,
) -> (changed: bool)
    ensures
        final(router_state).refresh_interval_seconds == interval_seconds,
        final(router_state).auto_refresh_enabled == auto_refresh_enabled,
        final(router_state).last_selected_profile == old(router_state).last_selected_profile,
        final(app_state).refresh_interval_seconds == interval_seconds,
        final(app_state).auto_refresh_enabled == auto_refresh_enabled,
        changed == (old(router_state).refresh_interval_seconds != interval_seconds || old(
            router_state,
        ).auto_refresh_enabled != auto_refresh_enabled),
{
    let mut changed = false;
    if router_state.refresh_interval_seconds != interval_seconds {
        router_state.refresh_interval_seconds = interval_seconds;
        changed = true;
    }
    app_state.refresh_interval_seconds = interval_seconds;
    if router_state.auto_refresh_enabled != auto_refresh_enabled {
        router_state.auto_refresh_enabled = auto_refresh_enabled;
        changed = true;
    }
    app_state.auto_refresh_enabled = auto_refresh_enabled;
    changed
}

/// What closing the window does: hide it, unless quitting was allowed.
#[derive(Debug, Clone, Copy, PartialEq, Eq, Structural)]
pub enum CloseAction {
    Hide,
    Close,
}

/// Decides what a close request does.
pub fn close_action(allow_close: bool) -> (r: CloseAction)
    ensures
        r == if allow_close {
            CloseAction::Close
        } else {
            CloseAction::Hide
        },
{
    if allow_close {
        CloseAction::Close
    } else {
        CloseAction::Hide
    }
}

/// The command a tray event maps to, if any: only switching profiles
/// flows through to the worker.
pub fn command_for_tray_event(event: &TrayEvent) -> (r: Option<AppCommand>)
    ensures
        event matches TrayEvent::SwitchProfile(name) ==> (r matches Some(c) && c matches
            AppCommand::SwitchProfile(n) && n == name),
        !(event matches TrayEvent::SwitchProfile(_)) ==> r is None,
{
    match event {
        TrayEvent::SwitchProfile(name) => Some(AppCommand::SwitchProfile(name.clone())),
        _ => None,
    }
}

/// Whether a change of current profile warrants a fresh quota sweep:
/// gaining a profile or switching to a different one does; losing or
/// keeping the profile does not.
pub fn should_fetch_on_profile_change(prev: Option<&str>, next: Option<&str>) -> (r: bool)
    ensures
        prev is None && next is None ==> !r,
        prev is None && next is Some ==> r,
        prev is Some && next is None ==> !r,
        prev matches Some(p) ==> (next matches Some(n) ==> r == (p@ != n@)),
{
    match (prev, next) {
        (None, None) => false,
        (Some(p), Some(n)) => !crate::strutil::str_eq(p, n),
        (None, Some(_)) => true,
        (Some(_), None) => false,
    }
}

} // verus!
