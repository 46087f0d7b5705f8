use vstd::prelude::*;
use crate::text::{own, str_eq};

verus! {

/// The phase of a screenshot session.
#[derive(Debug, Clone, Copy, PartialEq, Eq, Structural)]
pub enum SessionPhase {
    Selecting,
    Processing,
    Committing,
}

/// The monitor area a session captures.
#[derive(Debug, Clone, Copy, PartialEq, Eq, Structural)]
pub struct MonitorRect {
    pub left: i32,
    pub top: i32,
    pub width: u32,
    pub height: u32,
}

/// Errors of the session state machine.
#[derive(Debug, Clone, PartialEq, Eq)]
pub enum SessionError {
    InvalidMonitorRect,
    NoActiveSession,
    StaleSession { expected: String, actual: String },
    CommitInProgress { session_id: String },
    InvalidTransition { session_id: String, from: SessionPhase, to: SessionPhase },
}

impl MonitorRect {
    /// A monitor rectangle; both sides must be non-zero.
    pub fn new(left: i32, top: i32, width: u32, height: u32) -> (r: Result<Self, SessionError>)
        ensures
            (width == 0 || height == 0) ==> r == Err::<MonitorRect, SessionError>(SessionError::InvalidMonitorRect),
            (width != 0 && height != 0) ==> r == Ok::<MonitorRect, SessionError>(
                MonitorRect { left, top, width, height },
            ),
    {
        if width == 0 || height == 0 {
            return Err(SessionError::InvalidMonitorRect);
        }
        Ok(MonitorRect { left, top, width, height })
    }
}

/// A revision counter of the main window's visibility.
#[derive(Debug, Clone, Copy, PartialEq, Eq, Structural)]
pub struct MainWindowVisibilityRevision(pub u64);

/// One screenshot session.
#[derive(Debug, Clone, PartialEq, Eq)]
pub struct ScreenshotSession {
    session_id: String,
    monitor: MonitorRect,
    quick_action: bool,
    phase: SessionPhase,
    temp_files: Vec<String>,
    main_window_hidden_revision: Option<MainWindowVisibilityRevision>,
}

impl ScreenshotSession {
    /// The session's identifier.
    pub closed spec fn sid(self) -> Seq<char> {
        self.session_id@
    }

    /// The session's phase.
    pub closed spec fn stage(self) -> SessionPhase {
        self.phase
    }

    /// The temporary files the session owns, in registration order.
    pub closed spec fn files(self) -> Seq<Seq<char>> {
        self.temp_files@.map_values(|f: String| f@)
    }

    /// The visibility revision recorded when the session hid the main window.
    pub closed spec fn hidden_revision(self) -> Option<MainWindowVisibilityRevision> {
        self.main_window_hidden_revision
    }

    /// The captured monitor area.
    pub closed spec fn monitor_rect(self) -> MonitorRect {
        self.monitor
    }

    /// Whether the session was started by a quick action.
    pub closed spec fn is_quick(self) -> bool {
        self.quick_action
    }

    /// A copy of the session.
    pub fn copy(&self) -> (r: ScreenshotSession)
        ensures
            same_session(r, *self),
    {
        let files = self.temp_files.clone();
        assert(files@ =~= self.temp_files@);
        ScreenshotSession {
            session_id: self.session_id.clone(),
            monitor: self.monitor,
            quick_action: self.quick_action,
            phase: self.phase,
            temp_files: files,
            main_window_hidden_revision: self.main_window_hidden_revision,
        }
    }

    pub fn session_id(&self) -> (r: &str)
        ensures
            r@ == self.sid(),
    {
        self.session_id.as_str()
    }

    pub fn monitor(&self) -> (r: MonitorRect)
        ensures
            r == self.monitor_rect(),
    {
        self.monitor
    }

    pub fn quick_action(&self) -> (r: bool)
        ensures
            r == self.is_quick(),
    {
        self.quick_action
    }
}

/// What the caller must clean up when a session ends.
#[derive(Debug, Clone, PartialEq, Eq)]
pub struct CleanupPlan {
    pub session_id: String,
    pub temp_files: Vec<String>,
    pub hide_overlay: bool,
    pub restore_main_window: bool,
}

/// The outcome of asking for a new session.
#[derive(Debug, Clone, PartialEq, Eq)]
pub enum StartSessionResult {
    Started(ScreenshotSession),
    Existing { session_id: String, phase: SessionPhase },
}

/// Holds the single screenshot session that may be active at a time.
#[derive(Debug)]
pub struct ScreenshotSessionManager {
    current: Option<ScreenshotSession>,
}

/// `e` reports that `actual` is not the current session `expected`.
pub open spec fn is_stale_error(e: SessionError, expected: Seq<char>, actual: Seq<char>) -> bool {
    e matches SessionError::StaleSession { expected: x, actual: y } && x@ == expected && y@ == actual
}

/// `e` reports a refused phase transition of session `id`.
pub open spec fn is_transition_error(
    e: SessionError,
    id: Seq<char>,
    from: SessionPhase,
    to: SessionPhase,
) -> bool {
    e matches SessionError::InvalidTransition { session_id: x, from: f, to: t } && x@ == id
        && f == from && t == to
}

/// `e` reports that session `id` is committing and cannot be cancelled.
pub open spec fn is_commit_in_progress(e: SessionError, id: Seq<char>) -> bool {
    e matches SessionError::CommitInProgress { session_id: x } && x@ == id
}

/// Two sessions that agree on every observation.
pub open spec fn same_session(a: ScreenshotSession, b: ScreenshotSession) -> bool {
    same_but_phase(a, b) && a.stage() == b.stage()
}

/// Everything but the phase of `b` equals `a`.
pub open spec fn same_but_phase(a: ScreenshotSession, b: ScreenshotSession) -> bool {
    &&& a.sid() == b.sid()
    &&& a.files() == b.files()
    &&& a.hidden_revision() == b.hidden_revision()
    &&& a.monitor_rect() == b.monitor_rect()
    &&& a.is_quick() == b.is_quick()
}

/// The error the session guard reports for a request naming `id`, if any:
/// no session, or a session with another identifier.
pub open spec fn guard_fails(cur: Option<ScreenshotSession>, id: Seq<char>, e: SessionError) -> bool {
    match cur {
        None => e == SessionError::NoActiveSession,
        Some(s) => s.sid() != id && is_stale_error(e, s.sid(), id),
    }
}

/// The request names the active session.
pub open spec fn guard_passes(cur: Option<ScreenshotSession>, id: Seq<char>) -> bool {
    cur is Some && cur->0.sid() == id
}

/// `seq` without the entries equal to `x`, order kept.
pub open spec fn without(seq: Seq<Seq<char>>, x: Seq<char>) -> Seq<Seq<char>>
    decreases seq.len(),
{
    if seq.len() == 0 {
        seq
    } else if seq.last() == x {
        without(seq.drop_last(), x)
    } else {
        without(seq.drop_last(), x).push(seq.last())
    }
}

/// The cleanup plan that ending session `s` yields at visibility revision `rev`.
pub open spec fn cleanup_of(
    plan: CleanupPlan,
    s: ScreenshotSession,
    files: Seq<Seq<char>>,
    rev: MainWindowVisibilityRevision,
) -> bool {
    &&& plan.session_id@ == s.sid()
    &&& plan.temp_files@.map_values(|f: String| f@) == files
    &&& plan.hide_overlay
    &&& plan.restore_main_window == (s.hidden_revision() == Some(rev))
}

fn ensure_current_session(expected: &str, actual: &str) -> (r: Result<(), SessionError>)
    ensures
        expected@ == actual@ ==> r is Ok,
        expected@ != actual@ ==> r is Err && is_stale_error(r->Err_0, expected@, actual@),
{
    if str_eq(expected, actual) {
        return Ok(());
    }
    Err(SessionError::StaleSession { expected: own(expected), actual: own(actual) })
}

impl ScreenshotSessionManager {
    /// The active session, if any.
    pub closed spec fn active(&self) -> Option<ScreenshotSession> {
        self.current
    }

    /// A manager without a session.
    pub fn new() -> (m: Self)
        ensures
            m.active() is None,
    {
        ScreenshotSessionManager { current: None }
    }

    /// Starts a session with a fresh random identifier, unless one is active.
    pub fn start(&mut self, monitor: MonitorRect, quick_action: bool) -> (r: StartSessionResult)
        ensures
            old(self).active() is Some ==> {
                &&& final(self).active() == old(self).active()
                &&& r matches StartSessionResult::Existing { session_id, phase }
                &&& session_id@ == old(self).active()->0.sid()
                &&& phase == old(self).active()->0.stage()
            },
            old(self).active() is None ==> {
                &&& r matches StartSessionResult::Started(s)
                &&& final(self).active() is Some
                &&& same_session(final(self).active()->0, s)
                &&& s.stage() == SessionPhase::Selecting
                &&& s.files().len() == 0
                &&& s.hidden_revision() is None
                &&& s.monitor_rect() == monitor
                &&& s.is_quick() == quick_action
            },
    {
        if self.current.is_some() {
            return self.start_with_id(monitor, quick_action, String::new());
        }
        let id = crate::ids::new_uuid_v4();
        self.start_with_id(monitor, quick_action, id)
    }

    /// Starts a session named `session_id`, unless one is active.
    pub fn start_with_id(&mut self, monitor: MonitorRect, quick_action: bool, session_id: String) -> (r: StartSessionResult)
        ensures
            old(self).active() is Some ==> {
                &&& final(self).active() == old(self).active()
                &&& r matches StartSessionResult::Existing { session_id: x, phase }
                &&& x@ == old(self).active()->0.sid()
                &&& phase == old(self).active()->0.stage()
            },
            old(self).active() is None ==> {
                &&& r matches StartSessionResult::Started(s)
                &&& final(self).active() is Some
                &&& same_session(final(self).active()->0, s)
                &&& s.sid() == session_id@
                &&& s.stage() == SessionPhase::Selecting
                &&& s.files().len() == 0
                &&& s.hidden_revision() is None
                &&& s.monitor_rect() == monitor
                &&& s.is_quick() == quick_action
            },
    {
        match &self.current {
            Some(session) => {
                return StartSessionResult::Existing {
                    session_id: session.session_id.clone(),
                    phase: session.phase,
                };
            }
            None => {}
        }
        let session = ScreenshotSession {
            session_id,
            monitor,
            quick_action,
            phase: SessionPhase::Selecting,
            temp_files: Vec::new(),
            main_window_hidden_revision: None,
        };
        assert(session.files() =~= Seq::<Seq<char>>::empty());
        let copy = session.copy();
        self.current = Some(session);
        StartSessionResult::Started(copy)
    }

    /// The active session's phase.
    pub fn phase(&self) -> (r: Option<SessionPhase>)
        ensures
            r == (match self.active() {
                Some(s) => Some(s.stage()),
                None => None::<SessionPhase>,
            }),
    {
        match &self.current {
            Some(session) => Some(session.phase),
            None => None,
        }
    }

    /// The active session.
    pub fn current(&self) -> (r: Option<&ScreenshotSession>)
        ensures
            r == (match self.active() {
                Some(s) => Some(&s),
                None => None::<&ScreenshotSession>,
            }),
    {
        match &self.current {
            Some(session) => Some(session),
            None => None,
        }
    }

    /// Whether `session_id` names the active session and it is in `phase`.
    pub fn is_current_phase(&self, session_id: &str, phase: SessionPhase) -> (r: bool)
        ensures
            r == (guard_passes(self.active(), session_id@) && self.active()->0.stage() == phase),
    {
        match &self.current {
            Some(session) => str_eq(session.session_id.as_str(), session_id) && session.phase == phase,
            None => false,
        }
    }

    /// Moves the named session from selecting to processing.
    pub fn begin_processing(&mut self, session_id: &str) -> (r: Result<(), SessionError>)
        ensures
            !guard_passes(old(self).active(), session_id@) ==> {
                &&& r is Err && guard_fails(old(self).active(), session_id@, r->Err_0)
                &&& final(self).active() == old(self).active()
            },
            guard_passes(old(self).active(), session_id@) && old(self).active()->0.stage()
                != SessionPhase::Selecting ==> {
                &&& r is Err
                &&& is_transition_error(r->Err_0, session_id@, old(self).active()->0.stage(), SessionPhase::Processing)
                &&& final(self).active() == old(self).active()
            },
            guard_passes(old(self).active(), session_id@) && old(self).active()->0.stage()
                == SessionPhase::Selecting ==> {
                &&& r is Ok
                &&& final(self).active() is Some
                &&& final(self).active()->0.stage() == SessionPhase::Processing
                &&& same_but_phase(old(self).active()->0, final(self).active()->0)
            },
    {
        match &mut self.current {
            None => Err(SessionError::NoActiveSession),
            Some(session) => {
                if let Err(e) = ensure_current_session(session.session_id.as_str(), session_id) {
                    return Err(e);
                }
                if session.phase != SessionPhase::Selecting {
                    return Err(SessionError::InvalidTransition {
                        session_id: session.session_id.clone(),
                        from: session.phase,
                        to: SessionPhase::Processing,
                    });
                }
                session.phase = SessionPhase::Processing;
                Ok(())
            }
        }
    }

    /// Registers a temporary file of the named session while it is processing.
    pub fn register_temp_file(&mut self, session_id: &str, path: String) -> (r: Result<(), SessionError>)
        ensures
            !guard_passes(old(self).active(), session_id@) ==> {
                &&& r is Err && guard_fails(old(self).active(), session_id@, r->Err_0)
                &&& final(self).active() == old(self).active()
            },
            guard_passes(old(self).active(), session_id@) && old(self).active()->0.stage()
                != SessionPhase::Processing ==> {
                &&& r is Err
                &&& is_transition_error(r->Err_0, session_id@, old(self).active()->0.stage(), SessionPhase::Processing)
                &&& final(self).active() == old(self).active()
            },
            guard_passes(old(self).active(), session_id@) && old(self).active()->0.stage()
                == SessionPhase::Processing ==> {
                &&& r is Ok
                &&& final(self).active() is Some
                &&& final(self).active()->0.files() == old(self).active()->0.files().push(path@)
                &&& final(self).active()->0.stage() == SessionPhase::Processing
                &&& final(self).active()->0.sid() == old(self).active()->0.sid()
                &&& final(self).active()->0.hidden_revision() == old(self).active()->0.hidden_revision()
                &&& final(self).active()->0.monitor_rect() == old(self).active()->0.monitor_rect()
                &&& final(self).active()->0.is_quick() == old(self).active()->0.is_quick()
            },
    {
        match &mut self.current {
            None => Err(SessionError::NoActiveSession),
            Some(session) => {
                if let Err(e) = ensure_current_session(session.session_id.as_str(), session_id) {
                    return Err(e);
                }
                if session.phase != SessionPhase::Processing {
                    return Err(SessionError::InvalidTransition {
                        session_id: session.session_id.clone(),
                        from: session.phase,
                        to: SessionPhase::Processing,
                    });
                }
                let ghost before = session.temp_files@;
                session.temp_files.push(path);
                assert(session.temp_files@.map_values(|f: String| f@)
                    =~= before.map_values(|f: String| f@).push(path@));
                Ok(())
            }
        }
    }

    /// Moves the named session from processing to committing.
    pub fn begin_commit(&mut self, session_id: &str) -> (r: Result<(), SessionError>)
        ensures
            !guard_passes(old(self).active(), session_id@) ==> {
                &&& r is Err && guard_fails(old(self).active(), session_id@, r->Err_0)
                &&& final(self).active() == old(self).active()
            },
            guard_passes(old(self).active(), session_id@) && old(self).active()->0.stage()
                != SessionPhase::Processing ==> {
                &&& r is Err
                &&& is_transition_error(r->Err_0, session_id@, old(self).active()->0.stage(), SessionPhase::Committing)
                &&& final(self).active() == old(self).active()
            },
            guard_passes(old(self).active(), session_id@) && old(self).active()->0.stage()
                == SessionPhase::Processing ==> {
                &&& r is Ok
                &&& final(self).active() is Some
                &&& final(self).active()->0.stage() == SessionPhase::Committing
                &&& same_but_phase(old(self).active()->0, final(self).active()->0)
            },
    {
        match &mut self.current {
            None => Err(SessionError::NoActiveSession),
            Some(session) => {
                if let Err(e) = ensure_current_session(session.session_id.as_str(), session_id) {
                    return Err(e);
                }
                if session.phase != SessionPhase::Processing {
                    return Err(SessionError::InvalidTransition {
                        session_id: session.session_id.clone(),
                        from: session.phase,
                        to: SessionPhase::Committing,
                    });
                }
                session.phase = SessionPhase::Committing;
                Ok(())
            }
        }
    }

    /// Records the visibility revision at which the named session hid the main window.
    pub fn mark_main_window_hidden(
        &mut self,
        session_id: &str,
        revision: MainWindowVisibilityRevision,
    ) -> (r: Result<(), SessionError>)
        ensures
            !guard_passes(old(self).active(), session_id@) ==> {
                &&& r is Err && guard_fails(old(self).active(), session_id@, r->Err_0)
                &&& final(self).active() == old(self).active()
            },
            guard_passes(old(self).active(), session_id@) ==> {
                &&& r is Ok
                &&& final(self).active() is Some
                &&& final(self).active()->0.hidden_revision() == Some(revision)
                &&& final(self).active()->0.sid() == old(self).active()->0.sid()
                &&& final(self).active()->0.stage() == old(self).active()->0.stage()
                &&& final(self).active()->0.files() == old(self).active()->0.files()
                &&& final(self).active()->0.monitor_rect() == old(self).active()->0.monitor_rect()
                &&& final(self).active()->0.is_quick() == old(self).active()->0.is_quick()
            },
    {
        match &mut self.current {
            None => Err(SessionError::NoActiveSession),
            Some(session) => {
                if let Err(e) = ensure_current_session(session.session_id.as_str(), session_id) {
                    return Err(e);
                }
                session.main_window_hidden_revision = Some(revision);
                Ok(())
            }
        }
    }

    /// Ends the named session unless it is committing.
    pub fn cancel(
        &mut self,
        session_id: &str,
        current_visibility_revision: MainWindowVisibilityRevision,
    ) -> (r: Result<CleanupPlan, SessionError>)
        ensures
            !guard_passes(old(self).active(), session_id@) ==> {
                &&& r is Err && guard_fails(old(self).active(), session_id@, r->Err_0)
                &&& final(self).active() == old(self).active()
            },
            guard_passes(old(self).active(), session_id@) && old(self).active()->0.stage()
                == SessionPhase::Committing ==> {
                &&& r is Err && is_commit_in_progress(r->Err_0, session_id@)
                &&& final(self).active() == old(self).active()
            },
            guard_passes(old(self).active(), session_id@) && old(self).active()->0.stage()
                != SessionPhase::Committing ==> {
                &&& r is Ok
                &&& cleanup_of(r->Ok_0, old(self).active()->0, old(self).active()->0.files(), current_visibility_revision)
                &&& final(self).active() is None
            },
    {
        match &self.current {
            None => { return Err(SessionError::NoActiveSession); }
            Some(session) => {
                if let Err(e) = ensure_current_session(session.session_id.as_str(), session_id) {
                    return Err(e);
                }
                if session.phase == SessionPhase::Committing {
                    return Err(SessionError::CommitInProgress { session_id: session.session_id.clone() });
                }
            }
        }
        self.take_cleanup(current_visibility_revision)
    }

    /// Ends the named session once it is committing.
    pub fn finish(
        &mut self,
        session_id: &str,
        current_visibility_revision: MainWindowVisibilityRevision,
    ) -> (r: Result<CleanupPlan, SessionError>)
        ensures
            !guard_passes(old(self).active(), session_id@) ==> {
                &&& r is Err && guard_fails(old(self).active(), session_id@, r->Err_0)
                &&& final(self).active() == old(self).active()
            },
            guard_passes(old(self).active(), session_id@) && old(self).active()->0.stage()
                != SessionPhase::Committing ==> {
                &&& r is Err
                &&& is_transition_error(r->Err_0, session_id@, old(self).active()->0.stage(), SessionPhase::Committing)
                &&& final(self).active() == old(self).active()
            },
            guard_passes(old(self).active(), session_id@) && old(self).active()->0.stage()
                == SessionPhase::Committing ==> {
                &&& r is Ok
                &&& cleanup_of(r->Ok_0, old(self).active()->0, old(self).active()->0.files(), current_visibility_revision)
                &&& final(self).active() is None
            },
    {
        match &self.current {
            None => { return Err(SessionError::NoActiveSession); }
            Some(session) => {
                if let Err(e) = ensure_current_session(session.session_id.as_str(), session_id) {
                    return Err(e);
                }
                if session.phase != SessionPhase::Committing {
                    return Err(SessionError::InvalidTransition {
                        session_id: session.session_id.clone(),
                        from: session.phase,
                        to: SessionPhase::Committing,
                    });
                }
            }
        }
        self.take_cleanup(current_visibility_revision)
    }

    /// Ends the named committing session, keeping `retained_file` out of the
    /// files to clean up.
    pub fn finish_and_retain_file(
        &mut self,
        session_id: &str,
        current_visibility_revision: MainWindowVisibilityRevision,
        retained_file: &str,
    ) -> (r: Result<CleanupPlan, SessionError>)
        ensures
            !guard_passes(old(self).active(), session_id@) ==> {
                &&& r is Err && guard_fails(old(self).active(), session_id@, r->Err_0)
                &&& final(self).active() == old(self).active()
            },
            guard_passes(old(self).active(), session_id@) && old(self).active()->0.stage()
                != SessionPhase::Committing ==> {
                &&& r is Err
                &&& is_transition_error(r->Err_0, session_id@, old(self).active()->0.stage(), SessionPhase::Committing)
                &&& final(self).active() == old(self).active()
            },
            guard_passes(old(self).active(), session_id@) && old(self).active()->0.stage()
                == SessionPhase::Committing ==> {
                &&& r is Ok
                &&& cleanup_of(r->Ok_0, old(self).active()->0,
                        without(old(self).active()->0.files(), retained_file@), current_visibility_revision)
                &&& final(self).active() is None
            },
    {
        match &mut self.current {
            None => { return Err(SessionError::NoActiveSession); }
            Some(session) => {
                if let Err(e) = ensure_current_session(session.session_id.as_str(), session_id) {
                    return Err(e);
                }
                if session.phase != SessionPhase::Committing {
                    return Err(SessionError::InvalidTransition {
                        session_id: session.session_id.clone(),
                        from: session.phase,
                        to: SessionPhase::Committing,
                    });
                }
                let kept = retain_other_files(&session.temp_files, retained_file);
                session.temp_files = kept;
            }
        }
        self.take_cleanup(current_visibility_revision)
    }

    fn take_cleanup(&mut self, current_visibility_revision: MainWindowVisibilityRevision) -> (r: Result<CleanupPlan, SessionError>)
        requires
            old(self).active() is Some,
        ensures
            r is Ok,
            cleanup_of(r->Ok_0, old(self).active()->0, old(self).active()->0.files(), current_visibility_revision),
            final(self).active() is None,
    {
        let taken = self.current.take();
        match taken {
            Some(session) => {
                let restore = match session.main_window_hidden_revision {
                    Some(rev) => rev.0 == current_visibility_revision.0,
                    None => false,
                };
                Ok(CleanupPlan {
                    session_id: session.session_id,
                    temp_files: session.temp_files,
                    hide_overlay: true,
                    restore_main_window: restore,
                })
            }
            None => Err(SessionError::NoActiveSession),
        }
    }
}

impl Default for ScreenshotSessionManager {
    fn default() -> (m: Self)
        ensures
            m.active() is None,
    {
        ScreenshotSessionManager { current: None }
    }
}

/// Law: the file kept by `finish_and_retain_file` is never among the files
/// handed out for cleanup, and every other file of the session still is, in the
/// order they were registered.
pub proof fn lemma_retained_file_not_cleaned(files: Seq<Seq<char>>, retained: Seq<char>)
    ensures
        !without(files, retained).contains(retained),
        forall|f: Seq<char>| f != retained ==> (without(files, retained).contains(f) <==> files.contains(f)),
    decreases files.len(),
{
    if files.len() > 0 {
        lemma_retained_file_not_cleaned(files.drop_last(), retained);
        assert forall|f: Seq<char>| files.contains(f) <==> (files.drop_last().contains(f) || f == files.last()) by {
            if files.contains(f) {
                let k = choose|k: int| 0 <= k < files.len() && files[k] == f;
                if k < files.len() - 1 {
                    assert(files.drop_last()[k] == f);
                }
            }
            if files.drop_last().contains(f) {
                let k = choose|k: int| 0 <= k < files.drop_last().len() && files.drop_last()[k] == f;
                assert(files[k] == f);
            }
            if f == files.last() {
                assert(files[files.len() - 1] == f);
            }
        }
        let w = without(files.drop_last(), retained);
        if files.last() != retained {
            assert forall|f: Seq<char>| w.push(files.last()).contains(f) <==> (w.contains(f) || f == files.last()) by {
                if w.push(files.last()).contains(f) {
                    let k = choose|k: int| 0 <= k < w.len() + 1 && w.push(files.last())[k] == f;
                    if k < w.len() {
                        assert(w[k] == f);
                    }
                }
                if w.contains(f) {
                    let k = choose|k: int| 0 <= k < w.len() && w[k] == f;
                    assert(w.push(files.last())[k] == f);
                }
                if f == files.last() {
                    assert(w.push(files.last())[w.len() as int] == f);
                }
            }
        }
    }
}

fn retain_other_files(files: &Vec<String>, retained: &str) -> (r: Vec<String>)
    ensures
        r@.map_values(|f: String| f@) == without(files@.map_values(|f: String| f@), retained@),
{
    let mut r: Vec<String> = Vec::new();
    let mut i: usize = 0;
    while i < files.len()
        invariant
            i <= files@.len(),
            r@.map_values(|f: String| f@) == without(files@.subrange(0, i as int).map_values(|f: String| f@), retained@),
        decreases files.len() - i,
    {
        let ghost prefix = files@.subrange(0, i as int).map_values(|f: String| f@);
        let ghost next = files@.subrange(0, i + 1).map_values(|f: String| f@);
        assert(next.drop_last() =~= prefix);
        assert(next.last() == files@[i as int]@);
        if !str_eq(files[i].as_str(), retained) {
            let ghost before = r@;
            r.push(files[i].clone());
            assert(r@.map_values(|f: String| f@) =~= before.map_values(|f: String| f@).push(files@[i as int]@));
        }
        i = i + 1;
    }
    assert(files@.subrange(0, files@.len() as int) =~= files@);
    r
}

} // verus!
