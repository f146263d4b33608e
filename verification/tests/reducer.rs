use miracle_core::{ids_fit, reduce, Action, Chat, Message, Model, Role, Session, SessionViewState, State};

/// `secs` seconds after the Unix epoch, in nanoseconds.
fn at(secs: u64) -> i128 {
    secs as i128 * 1_000_000_000
}

fn session(id: u64, age_secs: u64) -> Session {
    Session {
        id,
        title: format!("Session {id}"),
        model: Model::default(),
        updated_at: at(1000 - age_secs),
        chat: Chat::default(),
    }
}

/// Two sessions and one view (id 1) on session 2.
fn state() -> State {
    State {
        sessions: vec![session(1, 0), session(2, 10)],
        views: vec![SessionViewState {
            id: 1,
            session_id: Some(2),
            draft: String::new(),
        }],
    }
}

fn view(state: &State, view_id: u64) -> &SessionViewState {
    state
        .views
        .iter()
        .find(|view| view.id == view_id)
        .expect("the view exists")
}

fn type_draft(state: State, view_id: u64, text: &str) -> State {
    reduce(
        state,
        Action::EditDraft {
            view_id,
            text: text.to_owned(),
        },
    )
}

/// Types `content` into the view's composer and sends it.
fn send(state: State, view_id: u64, content: &str) -> State {
    reduce(
        type_draft(state, view_id, content),
        Action::SendMessage {
            view_id,
            sent_at: at(2000),
        },
    )
}

#[test]
fn views_open_on_existing_sessions_and_close() {
    let s = reduce(
        state(),
        Action::OpenView {
            session_id: Some(1),
        },
    );
    assert_eq!(view(&s, 2).session_id, Some(1));
    let s = reduce(
        s,
        Action::OpenView {
            session_id: Some(9),
        },
    );
    assert_eq!(view(&s, 3).session_id, None);
    let s = reduce(s, Action::CloseView { view_id: 2 });
    assert_eq!(
        s.views.iter().map(|view| view.id).collect::<Vec<_>>(),
        [1, 3]
    );
}

#[test]
fn show_session_switches_only_to_existing_sessions() {
    let s = reduce(
        state(),
        Action::ShowSession {
            view_id: 1,
            session_id: Some(1),
        },
    );
    assert_eq!(view(&s, 1).session_id, Some(1));
    assert_eq!(
        reduce(
            s.clone(),
            Action::ShowSession {
                view_id: 1,
                session_id: Some(9)
            }
        ),
        s
    );
    let s = reduce(
        s,
        Action::ShowSession {
            view_id: 1,
            session_id: None,
        },
    );
    assert_eq!(view(&s, 1).session_id, None);
}

#[test]
fn first_message_of_a_new_session_creates_it() {
    let open = reduce(
        state(),
        Action::ShowSession {
            view_id: 1,
            session_id: None,
        },
    );
    let s = send(open, 1, "  Plan a trip\nto Lisbon ");
    let top = &s.sessions[0];
    assert_eq!((top.id, top.title.as_str()), (3, "Plan a trip"));
    assert_eq!(top.updated_at, at(2000));
    assert_eq!(
        top.chat.messages,
        [Message {
            role: Role::User,
            content: "Plan a trip\nto Lisbon".to_owned(),
        }]
    );
    assert_eq!(view(&s, 1).session_id, Some(3));
    assert_eq!(view(&s, 1).draft, "");
}

#[test]
fn send_adds_trimmed_message_and_moves_session_to_top() {
    let s = send(state(), 1, "  Hello \n");
    let top = &s.sessions[0];
    assert_eq!(top.id, 2);
    assert_eq!(top.updated_at, at(2000));
    assert_eq!(
        top.chat.messages.last().map(|m| m.content.as_str()),
        Some("Hello")
    );
}

#[test]
fn views_on_one_session_share_its_chat_but_not_drafts() {
    let s = reduce(
        state(),
        Action::OpenView {
            session_id: Some(2),
        },
    );
    let s = type_draft(s, 2, "Later");
    let s = send(s, 1, "Now");
    assert_eq!(view(&s, 2).session_id, Some(2));
    assert_eq!(view(&s, 2).draft, "Later");
    assert_eq!(s.sessions[0].chat.messages.len(), 1);
}

#[test]
fn send_keeps_blank_drafts_and_ignores_unknown_views() {
    let blank = send(state(), 1, " \n ");
    assert_eq!(blank.sessions, state().sessions);
    assert_eq!(view(&blank, 1).draft, " \n ");
    assert_eq!(send(state(), 9, "Hello"), state());
}

#[test]
fn set_model_switches_only_the_named_session() {
    let s = reduce(
        state(),
        Action::SetModel {
            session_id: 2,
            model: Model::Haiku4_5,
        },
    );
    assert_eq!(s.sessions[1].model, Model::Haiku4_5);
    assert_eq!(s.sessions[0].model, Model::Opus5_5);
    assert_eq!(s.views, state().views);
    let unknown = reduce(
        state(),
        Action::SetModel {
            session_id: 9,
            model: Model::Sonnet5,
        },
    );
    assert_eq!(unknown, state());
}

#[test]
fn edit_draft_then_read_gives_the_text_back() {
    let s = type_draft(state(), 1, "Draft one");
    assert_eq!(view(&s, 1).draft, "Draft one");
    assert_eq!(s.sessions, state().sessions);
    assert_eq!(type_draft(state(), 9, "Nobody"), state());
}

#[test]
fn new_ids_follow_the_largest_in_use() {
    let mut s = state();
    s.views[0].id = 7;
    let s = reduce(s, Action::OpenView { session_id: None });
    assert_eq!(s.views.iter().map(|v| v.id).collect::<Vec<_>>(), [7, 8]);
    let empty = reduce(State::default(), Action::OpenView { session_id: None });
    assert_eq!(empty.views[0].id, 1);
    assert_eq!(empty.views[0].draft, "");
}

#[test]
fn close_view_removes_every_view_with_the_id() {
    let mut s = state();
    s.views.push(SessionViewState {
        id: 1,
        session_id: None,
        draft: "x".to_owned(),
    });
    s.views.push(SessionViewState {
        id: 4,
        session_id: None,
        draft: String::new(),
    });
    let s = reduce(s, Action::CloseView { view_id: 1 });
    assert_eq!(s.views.iter().map(|v| v.id).collect::<Vec<_>>(), [4]);
    assert_eq!(reduce(state(), Action::CloseView { view_id: 9 }), state());
}

#[test]
fn sent_messages_keep_sessions_newest_first() {
    let s = send(state(), 1, "One");
    assert!(s.sessions.windows(2).all(|w| w[0].updated_at >= w[1].updated_at));
    assert_eq!(s.sessions.iter().map(|x| x.id).collect::<Vec<_>>(), [2, 1]);
    let s = reduce(
        type_draft(s, 1, "Two"),
        Action::ShowSession {
            view_id: 1,
            session_id: Some(1),
        },
    );
    let s = reduce(
        s,
        Action::SendMessage {
            view_id: 1,
            sent_at: at(3000),
        },
    );
    assert_eq!(s.sessions.iter().map(|x| x.id).collect::<Vec<_>>(), [1, 2]);
    assert_eq!(s.sessions[1].chat.messages.len(), 1);
    assert_eq!(s.sessions[0].chat.messages[0].content, "Two");
    assert_eq!(s.sessions[0].chat.messages[0].role, Role::User);
}

#[test]
fn unicode_white_space_is_trimmed_from_sent_messages() {
    let s = send(state(), 1, "\u{3000}\u{a0}Hola\u{2003}\r\n");
    assert_eq!(s.sessions[0].chat.messages[0].content, "Hola");
    let new = reduce(
        state(),
        Action::ShowSession {
            view_id: 1,
            session_id: None,
        },
    );
    let s = send(new, 1, "\tTitle line\r\nbody");
    assert_eq!(s.sessions[0].title, "Title line");
    assert_eq!(s.sessions[0].model, Model::Opus5_5);
}

#[test]
fn state_lookups_find_the_first_match() {
    let mut s = state();
    assert_eq!(s.session(2).map(|x| x.title.as_str()), Some("Session 2"));
    assert!(s.session(5).is_none());
    assert_eq!(s.view(1).map(|v| v.session_id), Some(Some(2)));
    assert!(s.view(5).is_none());
    if let Some(x) = s.session_mut(1) {
        x.title = "Renamed".to_owned();
    }
    assert_eq!(s.sessions[0].title, "Renamed");
    if let Some(v) = s.view_mut(1) {
        v.draft = "typed".to_owned();
    }
    assert_eq!(s.views[0].draft, "typed");
    assert!(s.view_mut(3).is_none());
}

#[test]
fn ids_fit_unless_the_next_id_overflows() {
    let open = Action::OpenView { session_id: None };
    assert!(ids_fit(&state(), &open));
    let mut full = state();
    full.views[0].id = u64::MAX;
    assert!(!ids_fit(&full, &open));
    let mut s = type_draft(state(), 1, "New");
    s.views[0].session_id = None;
    s.sessions[1].id = u64::MAX;
    let send = Action::SendMessage {
        view_id: 1,
        sent_at: at(1),
    };
    assert!(!ids_fit(&s, &send));
    s.views[0].draft = "  ".to_owned();
    assert!(ids_fit(&s, &send));
    assert!(ids_fit(&s, &Action::CloseView { view_id: 1 }));
}

#[test]
fn actions_clone_and_views_default() {
    let action = Action::EditDraft {
        view_id: 3,
        text: "abc".to_owned(),
    };
    assert_eq!(action.clone(), action);
    let view = SessionViewState::default();
    assert_eq!((view.id, view.session_id, view.draft.as_str()), (0, None, ""));
}
