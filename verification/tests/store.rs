use miracle_core::{state_changes, Action, Model, Role, Store};

#[test]
fn sample_sessions_are_newest_first() {
    let sessions = Store::new().state().sessions;
    assert!(!sessions.is_empty());
    assert!(sessions.windows(2).all(|w| w[0].updated_at >= w[1].updated_at));
}

#[test]
fn new_store_dates_samples_at_the_current_time() {
    let before = std::time::SystemTime::now()
        .duration_since(std::time::UNIX_EPOCH)
        .expect("after the epoch")
        .as_nanos() as i128;
    let sessions = Store::new().state().sessions;
    let after = std::time::SystemTime::now()
        .duration_since(std::time::UNIX_EPOCH)
        .expect("after the epoch")
        .as_nanos() as i128;
    assert!(before <= sessions[0].updated_at && sessions[0].updated_at <= after);
    assert_eq!(sessions[0].updated_at - sessions[2].updated_at, 86_400_000_000_000);
}

#[test]
fn samples_are_dated_from_now() {
    let store = Store::with_samples(0);
    let sessions = store.state().sessions;
    assert_eq!(sessions.len(), 7);
    assert_eq!(sessions.iter().map(|s| s.id).collect::<Vec<_>>(), [1, 2, 3, 4, 5, 6, 7]);
    assert_eq!(sessions[0].title, "Welcome");
    assert_eq!(sessions[0].updated_at, 0);
    assert_eq!(sessions[1].updated_at, -7_200_000_000_000);
    assert_eq!(sessions[6].title, "Moving checklist");
    assert_eq!(sessions[6].updated_at, -400 * 86_400_000_000_000);
    assert_eq!(sessions[0].chat.messages[0].content, "Hi! What can you do?");
    assert_eq!(sessions[0].chat.messages[0].role, Role::User);
    assert_eq!(sessions[0].chat.messages[1].role, Role::Assistant);
    assert!(sessions[0].chat.messages[1].content.starts_with("I can help you write"));
    assert!(sessions.iter().all(|s| s.model == Model::Opus5_5));
    assert_eq!(sessions[1].chat.messages.len(), 10);
    assert!(store.state().views.is_empty());
}

#[test]
fn open_view_returns_the_new_id_and_dispatch_applies_actions() {
    let mut store = Store::with_samples(0);
    assert_eq!(store.open_view(Some(3)), 1);
    assert_eq!(store.open_view(None), 2);
    let state = store.dispatch(Action::EditDraft {
        view_id: 2,
        text: " First words ".to_owned(),
    });
    assert_eq!(state.views[1].draft, " First words ");
    let state = store.dispatch(Action::SendMessage {
        view_id: 2,
        sent_at: 5_000_000_000,
    });
    assert_eq!(state.sessions.len(), 8);
    assert_eq!(state.sessions[0].id, 8);
    assert_eq!(state.sessions[0].title, "First words");
    assert_eq!(state.views[1].session_id, Some(8));
    assert_eq!(store.state(), state);
    let sections = store.session_sections(5_000_000_000);
    assert_eq!(sections.iter().map(|s| s.chats.len()).sum::<usize>(), 8);
}

#[test]
fn changes_tell_sessions_from_views() {
    let mut store = Store::with_samples(0);
    let before = store.state();
    store.open_view(Some(1));
    let opened = store.state();
    assert_eq!(state_changes(&before, &opened), (false, true));
    let typed = store.dispatch(Action::EditDraft {
        view_id: 1,
        text: "Hi".to_owned(),
    });
    assert_eq!(state_changes(&opened, &typed), (false, true));
    let sent = store.dispatch(Action::SendMessage {
        view_id: 1,
        sent_at: 1,
    });
    assert_eq!(state_changes(&typed, &sent), (true, true));
    let modeled = store.dispatch(Action::SetModel {
        session_id: 2,
        model: Model::Sonnet5,
    });
    assert_eq!(state_changes(&sent, &modeled), (true, false));
    assert_eq!(state_changes(&modeled, &modeled.clone()), (false, false));
}
