//! The document-session state machine.
//!
//! A single optional "current path" remembers the archive file that the last
//! successful save or load touched.  A plain save silently reuses it; when it
//! is absent the caller must fall back to the save-as flow.  There is no
//! operation that unbinds a bound document.

use vstd::prelude::*;

verus! {

/// The session state: which archive file, if any, the in-memory document is
/// currently associated with.  `None` is the unbound state; `Some(path)`
/// means the last successful save or load touched `path`.
pub struct AppState {
    pub current_board_path: Option<String>,
}

/// The outcome of one user-visible operation, as far as the session state is
/// concerned.
pub enum SessionEvent {
    /// A save-as chose this destination and the archive was fully written.
    SavedAs(String),
    /// The user dismissed the file-selection dialog.
    SaveCancelled,
    /// A plain save rewrote the already-bound file.
    SavedCurrent,
    /// An archive at this path was successfully opened.
    Loaded(String),
    /// An operation failed after its destination was known.
    OperationFailed,
}

/// What a plain save should do given the current session state.
pub enum SaveDecision {
    /// Write directly to the bound path, without prompting.
    WriteTo(String),
    /// No file is bound: prompt the user, as the save-as flow does.
    PromptSaveAs,
}

/// The current path as a mathematical value.
pub open spec fn spec_path(p: Option<String>) -> Option<Seq<char>> {
    match p {
        Option::Some(s) => Option::Some(s@),
        Option::None => Option::None,
    }
}

/// The transition function of the session-state machine.  Only a fully
/// successful save-as or load rebinds the session; a plain save keeps the
/// binding it already had; cancellations and failures change nothing.
pub open spec fn spec_step(current: Option<Seq<char>>, event: SessionEvent) -> Option<Seq<char>> {
    match event {
        SessionEvent::SavedAs(p) => Option::Some(p@),
        SessionEvent::Loaded(p) => Option::Some(p@),
        SessionEvent::SavedCurrent => current,
        SessionEvent::SaveCancelled => current,
        SessionEvent::OperationFailed => current,
    }
}

impl AppState {
    /// A fresh session starts unbound.
    pub fn new() -> (r: AppState)
        ensures
            r.current_board_path is None,
    {
        AppState { current_board_path: Option::None }
    }

    /// Advance the session state by one operation outcome.
    pub fn apply_event(&mut self, event: SessionEvent)
        ensures
            spec_path(final(self).current_board_path) == spec_step(
                spec_path(old(self).current_board_path),
                event,
            ),
    {
        match event {
            SessionEvent::SavedAs(p) => {
                self.current_board_path = Option::Some(p);
            },
            SessionEvent::Loaded(p) => {
                self.current_board_path = Option::Some(p);
            },
            SessionEvent::SavedCurrent => {},
            SessionEvent::SaveCancelled => {},
            SessionEvent::OperationFailed => {},
        }
    }

    /// The bound path, for display: `None` while the session is unbound.
    pub fn get_current_file_path(&self) -> (r: Option<String>)
        ensures
            spec_path(r) == spec_path(self.current_board_path),
    {
        match &self.current_board_path {
            Option::Some(p) => Option::Some(p.clone()),
            Option::None => Option::None,
        }
    }

    /// The plain-save guard: reuse the bound path without prompting, or
    /// report that the save-as flow must choose a destination.
    pub fn decide_save(&self) -> (r: SaveDecision)
        ensures
            match r {
                SaveDecision::WriteTo(p) => spec_path(self.current_board_path)
                    == Option::Some(p@),
                SaveDecision::PromptSaveAs => self.current_board_path is None,
            },
    {
        match &self.current_board_path {
            Option::Some(p) => SaveDecision::WriteTo(p.clone()),
            Option::None => SaveDecision::PromptSaveAs,
        }
    }
}

impl Default for AppState {
    /// The default session is unbound, as a freshly started process is.
    fn default() -> (r: AppState)
        ensures
            r.current_board_path is None,
    {
        AppState::new()
    }
}

/// After any successful save-as or load, the session is bound to exactly the
/// file just touched, whatever it was bound to before.
pub proof fn lemma_success_binds_touched_path(current: Option<Seq<char>>, path: String)
    ensures
        spec_step(current, SessionEvent::SavedAs(path)) == Option::Some(path@),
        spec_step(current, SessionEvent::Loaded(path)) == Option::Some(path@),
{
}

/// A cancelled dialog or a failed operation never changes the binding: the
/// current path is only ever set by a fully successful save or load.
pub proof fn lemma_failure_preserves_binding(current: Option<Seq<char>>, event: SessionEvent)
    requires
        event is SaveCancelled || event is OperationFailed,
    ensures
        spec_step(current, event) == current,
{
}

/// No transition leads back to the unbound state: once a document is bound
/// to a file, every later state is bound to some file.
pub proof fn lemma_never_unbound(current: Option<Seq<char>>, event: SessionEvent)
    requires
        current is Some,
    ensures
        spec_step(current, event) is Some,
{
}

} // verus!
