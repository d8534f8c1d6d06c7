use viv_board::download::download_url_is_safe;
use viv_board::session::{AppState, SaveDecision, SessionEvent};

#[test]
fn session_starts_unbound() {
    let state = AppState::new();
    assert_eq!(state.get_current_file_path(), None);
    assert!(matches!(state.decide_save(), SaveDecision::PromptSaveAs));
}

#[test]
fn session_transitions_follow_saves_and_loads() {
    let mut state = AppState::new();

    // A successful save-as binds the chosen path.
    state.apply_event(SessionEvent::SavedAs("/boards/a.viv".to_string()));
    assert_eq!(state.get_current_file_path(), Some("/boards/a.viv".to_string()));

    // A plain save reuses it without re-prompting and keeps it bound.
    match state.decide_save() {
        SaveDecision::WriteTo(p) => assert_eq!(p, "/boards/a.viv"),
        SaveDecision::PromptSaveAs => panic!("a bound session must not prompt"),
    }
    state.apply_event(SessionEvent::SavedCurrent);
    assert_eq!(state.get_current_file_path(), Some("/boards/a.viv".to_string()));

    // A successful load rebinds to the loaded path.
    state.apply_event(SessionEvent::Loaded("/boards/b.viv".to_string()));
    assert_eq!(state.get_current_file_path(), Some("/boards/b.viv".to_string()));

    // A later save-as rebinds again.
    state.apply_event(SessionEvent::SavedAs("/boards/c.viv".to_string()));
    assert_eq!(state.get_current_file_path(), Some("/boards/c.viv".to_string()));
}

#[test]
fn cancelled_save_as_leaves_session_unbound() {
    let mut state = AppState::new();
    state.apply_event(SessionEvent::SaveCancelled);
    assert_eq!(state.get_current_file_path(), None);
    assert!(matches!(state.decide_save(), SaveDecision::PromptSaveAs));
}

#[test]
fn failures_keep_the_previous_binding() {
    let mut state = AppState::new();
    state.apply_event(SessionEvent::SavedAs("/boards/a.viv".to_string()));
    state.apply_event(SessionEvent::OperationFailed);
    assert_eq!(state.get_current_file_path(), Some("/boards/a.viv".to_string()));
    state.apply_event(SessionEvent::SaveCancelled);
    assert_eq!(state.get_current_file_path(), Some("/boards/a.viv".to_string()));
}

#[test]
fn default_session_is_unbound() {
    let state = AppState::default();
    assert_eq!(state.get_current_file_path(), None);
}

#[test]
fn download_urls_starting_with_a_dash_are_refused() {
    assert!(!download_url_is_safe("-rf"));
    assert!(!download_url_is_safe("--version"));
    assert!(download_url_is_safe("https://example.com/v"));
    assert!(download_url_is_safe(""));
}
