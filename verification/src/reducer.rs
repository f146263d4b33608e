//! The reducer: every business rule of the core, as one pure function from
//! a state and an action to the next state.

use vstd::prelude::*;
use crate::state::{
    first_index, has_session, lemma_first_index_contains, max_id, session_ids, session_position,
    view_ids, view_position,
};
use crate::text::{title_from, title_of, trim, trimmed};
use crate::types::{
    messages_view, sessions_view, views_view, Action, Chat, Message, Model, Role, Session,
    SessionViewState, SpecAction, SpecMessage, SpecSession, SpecState, SpecView, State,
};

verus! {

/// The views that a `CloseView` for `view_id` keeps.
pub open spec fn keeps_view(view_id: u64) -> spec_fn(SpecView) -> bool {
    |v: SpecView| v.id != view_id
}

/// Sending from `view_id` creates a session: the view exists, shows a new
/// session, and its draft is not blank.
pub open spec fn opens_new_session(state: SpecState, view_id: u64) -> bool {
    match first_index(view_ids(state.views), view_id) {
        Some(v) => trim(state.views[v].draft).len() > 0 && state.views[v].session_id is None,
        None => false,
    }
}

/// The ids that `reduce` hands out fit in a `u64`: where the largest id in
/// use is already `u64::MAX`, the next one would overflow.
pub open spec fn reduce_fits(state: SpecState, action: SpecAction) -> bool {
    match action {
        SpecAction::OpenView { .. } => max_id(view_ids(state.views)) < u64::MAX,
        SpecAction::SendMessage { view_id, .. } => opens_new_session(state, view_id) ==> max_id(
            session_ids(state.sessions),
        ) < u64::MAX,
        _ => true,
    }
}

/// `state` with its view at `i` replaced.
pub open spec fn with_view(state: SpecState, i: int, view: SpecView) -> SpecState {
    SpecState { views: state.views.update(i, view), ..state }
}

/// The outcome of `SendMessage { view_id, sent_at }`.
pub open spec fn sent(state: SpecState, view_id: u64, sent_at: i128) -> SpecState {
    match first_index(view_ids(state.views), view_id) {
        None => state,
        Some(v) => {
            let view = state.views[v];
            let content = trim(view.draft);
            let message = SpecMessage { role: Role::User, content };
            if content.len() == 0 {
                state
            } else {
                match view.session_id {
                    Some(sid) => match first_index(session_ids(state.sessions), sid) {
                        None => state,
                        Some(p) => SpecState {
                            sessions: seq![
                                SpecSession {
                                    updated_at: sent_at,
                                    messages: state.sessions[p].messages.push(message),
                                    ..state.sessions[p]
                                },
                            ] + state.sessions.remove(p),
                            views: state.views.update(
                                v,
                                SpecView { session_id: Some(sid), draft: Seq::empty(), ..view },
                            ),
                        },
                    },
                    None => {
                        let id = (max_id(session_ids(state.sessions)) + 1) as u64;
                        SpecState {
                            sessions: seq![
                                SpecSession {
                                    id,
                                    title: title_of(content),
                                    model: Model::Opus5_5,
                                    updated_at: sent_at,
                                    messages: seq![message],
                                },
                            ] + state.sessions,
                            views: state.views.update(
                                v,
                                SpecView { session_id: Some(id), draft: Seq::empty(), ..view },
                            ),
                        }
                    },
                }
            }
        },
    }
}

/// What `action` makes of `state`.
pub open spec fn reduced(state: SpecState, action: SpecAction) -> SpecState {
    match action {
        SpecAction::OpenView { session_id } => SpecState {
            views: state.views.push(
                SpecView {
                    id: (max_id(view_ids(state.views)) + 1) as u64,
                    session_id: match session_id {
                        Some(id) => if has_session(state, id) {
                            Some(id)
                        } else {
                            None
                        },
                        None => None,
                    },
                    draft: Seq::empty(),
                },
            ),
            ..state
        },
        SpecAction::CloseView { view_id } => SpecState {
            views: state.views.filter(keeps_view(view_id)),
            ..state
        },
        SpecAction::ShowSession { view_id, session_id } => match first_index(
            view_ids(state.views),
            view_id,
        ) {
            Some(i) => if session_id is None || has_session(state, session_id->0) {
                with_view(state, i, SpecView { session_id, ..state.views[i] })
            } else {
                state
            },
            None => state,
        },
        SpecAction::SetModel { session_id, model } => match first_index(
            session_ids(state.sessions),
            session_id,
        ) {
            Some(i) => SpecState {
                sessions: state.sessions.update(i, SpecSession { model, ..state.sessions[i] }),
                ..state
            },
            None => state,
        },
        SpecAction::EditDraft { view_id, text } => match first_index(
            view_ids(state.views),
            view_id,
        ) {
            Some(i) => with_view(state, i, SpecView { draft: text, ..state.views[i] }),
            None => state,
        },
        SpecAction::SendMessage { view_id, sent_at } => sent(state, view_id, sent_at),
    }
}

/// The largest view id, or 0 where there is no view.
fn max_view_id(views: &Vec<SessionViewState>) -> (m: u64)
    ensures
        m == max_id(view_ids(views_view(views@))),
{
    let ghost ids = view_ids(views_view(views@));
    let mut m: u64 = 0;
    let mut i: usize = 0;
    while i < views.len()
        invariant
            i <= views.len(),
            ids == view_ids(views_view(views@)),
            m == max_id(ids.take(i as int)),
        decreases views.len() - i,
    {
        assert(ids.take(i + 1).drop_last() =~= ids.take(i as int));
        if views[i].id > m {
            m = views[i].id;
        }
        i += 1;
    }
    assert(ids.take(views.len() as int) =~= ids);
    m
}

/// The largest session id, or 0 where there is no session.
fn max_session_id(sessions: &Vec<Session>) -> (m: u64)
    ensures
        m == max_id(session_ids(sessions_view(sessions@))),
{
    let ghost ids = session_ids(sessions_view(sessions@));
    let mut m: u64 = 0;
    let mut i: usize = 0;
    while i < sessions.len()
        invariant
            i <= sessions.len(),
            ids == session_ids(sessions_view(sessions@)),
            m == max_id(ids.take(i as int)),
        decreases sessions.len() - i,
    {
        assert(ids.take(i + 1).drop_last() =~= ids.take(i as int));
        if sessions[i].id > m {
            m = sessions[i].id;
        }
        i += 1;
    }
    assert(ids.take(sessions.len() as int) =~= ids);
    m
}

/// Whether a session has this id.
fn session_exists(sessions: &Vec<Session>, id: u64) -> (b: bool)
    ensures
        b == session_ids(sessions_view(sessions@)).contains(id),
{
    proof {
        lemma_first_index_contains(session_ids(sessions_view(sessions@)), id);
    }
    session_position(sessions, id).is_some()
}

fn open_view(state: &mut State, session_id: Option<u64>)
    requires
        max_id(view_ids(old(state).spec_view().views)) < u64::MAX,
    ensures
        final(state).spec_view() == reduced(
            old(state).spec_view(),
            SpecAction::OpenView { session_id },
        ),
{
    let id = max_view_id(&state.views) + 1;
    let shown = match session_id {
        Some(s) => if session_exists(&state.sessions, s) {
            Some(s)
        } else {
            None
        },
        None => None,
    };
    let ghost before = views_view(state.views@);
    let view = SessionViewState { id, session_id: shown, draft: String::new() };
    state.views.push(view);
    assert(views_view(state.views@) =~= before.push(view@));
}

fn close_view(state: &mut State, view_id: u64)
    ensures
        final(state).spec_view() == reduced(
            old(state).spec_view(),
            SpecAction::CloseView { view_id },
        ),
{
    let mut rest: Vec<SessionViewState> = Vec::new();
    std::mem::swap(&mut rest, &mut state.views);
    let ghost all = views_view(rest@);
    let total = rest.len();
    let ghost n = total as nat;
    let mut kept: Vec<SessionViewState> = Vec::new();
    let mut i: usize = 0;
    while rest.len() > 0
        invariant
            n == all.len(),
            n == total,
            i + rest@.len() == n,
            views_view(rest@) == all.skip(i as int),
            views_view(kept@) == all.take(i as int).filter(keeps_view(view_id)),
            state.views@.len() == 0,
            state.sessions@ == old(state).sessions@,
            all == old(state).spec_view().views,
        decreases rest@.len(),
    {
        let ghost before_rest = rest@;
        let ghost before_kept = kept@;
        let view = rest.remove(0);
        assert(views_view(rest@) =~= all.skip(i + 1)) by {
            assert(rest@ =~= before_rest.drop_first());
            assert forall|j: int| 0 <= j < rest@.len() implies views_view(rest@)[j] == all.skip(
                i + 1,
            )[j] by {
                assert(views_view(before_rest)[j + 1] == all.skip(i as int)[j + 1]);
            }
        }
        assert(view@ == all[i as int]) by {
            assert(views_view(before_rest)[0] == all.skip(i as int)[0]);
        }
        proof {
            reveal(Seq::filter);
            assert(all.take(i + 1).drop_last() =~= all.take(i as int));
            assert(all.take(i + 1).last() == all[i as int]);
        }
        if view.id != view_id {
            kept.push(view);
            assert(views_view(kept@) =~= views_view(before_kept).push(view@));
        }
        i += 1;
    }
    assert(all.take(n as int) =~= all);
    state.views = kept;
}

/// Replaces the view at `i` with `view`.
fn put_view(state: &mut State, i: usize, view: SessionViewState)
    requires
        i < old(state).views@.len(),
    ensures
        final(state).spec_view() == with_view(old(state).spec_view(), i as int, view@),
{
    let ghost before = state.views@;
    let _ = state.views.remove(i);
    state.views.insert(i, view);
    assert(state.views@ =~= before.update(i as int, view));
    assert(views_view(state.views@) =~= views_view(before).update(i as int, view@));
}

fn show_session(state: &mut State, view_id: u64, session_id: Option<u64>)
    ensures
        final(state).spec_view() == reduced(
            old(state).spec_view(),
            SpecAction::ShowSession { view_id, session_id },
        ),
{
    let exists = match session_id {
        Some(id) => session_exists(&state.sessions, id),
        None => true,
    };
    if let Some(i) = view_position(&state.views, view_id) {
        if exists {
            let mut view = state.views.remove(i);
            let ghost removed = state.views@;
            view.session_id = session_id;
            state.views.insert(i, view);
            proof {
                let old_views = old(state).views@;
                assert(state.views@ =~= old_views.update(i as int, view));
                assert(views_view(state.views@) =~= views_view(old_views).update(
                    i as int,
                    view@,
                ));
            }
        }
    }
}

fn set_model(state: &mut State, session_id: u64, model: Model)
    ensures
        final(state).spec_view() == reduced(
            old(state).spec_view(),
            SpecAction::SetModel { session_id, model },
        ),
{
    if let Some(i) = session_position(&state.sessions, session_id) {
        let mut session = state.sessions.remove(i);
        session.model = model;
        state.sessions.insert(i, session);
        proof {
            let old_sessions = old(state).sessions@;
            assert(state.sessions@ =~= old_sessions.update(i as int, session));
            assert(sessions_view(state.sessions@) =~= sessions_view(old_sessions).update(
                i as int,
                session@,
            ));
        }
    }
}

fn edit_draft(state: &mut State, view_id: u64, text: String)
    ensures
        final(state).spec_view() == reduced(
            old(state).spec_view(),
            SpecAction::EditDraft { view_id, text: text@ },
        ),
{
    if let Some(i) = view_position(&state.views, view_id) {
        let mut view = state.views.remove(i);
        view.draft = text;
        state.views.insert(i, view);
        proof {
            let old_views = old(state).views@;
            assert(state.views@ =~= old_views.update(i as int, view));
            assert(views_view(state.views@) =~= views_view(old_views).update(i as int, view@));
        }
    }
}

fn send_message(state: &mut State, view_id: u64, sent_at: i128)
    requires
        reduce_fits(old(state).spec_view(), SpecAction::SendMessage { view_id, sent_at }),
    ensures
        final(state).spec_view() == reduced(
            old(state).spec_view(),
            SpecAction::SendMessage { view_id, sent_at },
        ),
{
    let ghost s0 = state.spec_view();
    let v = match view_position(&state.views, view_id) {
        Some(v) => v,
        None => return ,
    };
    let content = trimmed(state.views[v].draft.as_str());
    if content.as_str().is_empty() {
        return ;
    }
    let message = Message { role: Role::User, content };
    let ghost m = message@;
    let id: u64;
    match state.views[v].session_id {
        Some(sid) => {
            let p = match session_position(&state.sessions, sid) {
                Some(p) => p,
                None => return ,
            };
            let ghost before = state.sessions@;
            let mut session = state.sessions.remove(p);
            let ghost removed = state.sessions@;
            let ghost old_messages = session.chat.messages@;
            session.chat.messages.push(message);
            session.updated_at = sent_at;
            assert(messages_view(session.chat.messages@) =~= messages_view(old_messages).push(m));
            id = sid;
            state.sessions.insert(0, session);
            assert(state.sessions@ =~= seq![session] + before.remove(p as int));
            assert(sessions_view(state.sessions@) =~= seq![session@] + sessions_view(
                before,
            ).remove(p as int));
        },
        None => {
            let new_id = max_session_id(&state.sessions) + 1;
            let title = title_from(message.content.as_str());
            let mut messages: Vec<Message> = Vec::new();
            messages.push(message);
            let model = Model::default();
            let session = Session {
                id: new_id,
                title,
                model,
                updated_at: sent_at,
                chat: Chat { messages },
            };
            assert(session.chat@ =~= seq![m]);
            let ghost before = state.sessions@;
            state.sessions.insert(0, session);
            id = new_id;
            assert(state.sessions@ =~= seq![session] + before);
            assert(sessions_view(state.sessions@) =~= seq![session@] + sessions_view(before));
        },
    }
    let ghost before_views = state.views@;
    let mut view = state.views.remove(v);
    view.session_id = Some(id);
    view.draft = String::new();
    state.views.insert(v, view);
    assert(state.views@ =~= before_views.update(v as int, view));
    assert(views_view(state.views@) =~= views_view(before_views).update(v as int, view@));
}

/// Whether the ids that `reduce` would hand out for `action` fit in a
/// `u64`, so that `reduce` may be called.
pub fn ids_fit(state: &State, action: &Action) -> (fit: bool)
    ensures
        fit == reduce_fits(state.spec_view(), action@),
{
    match action {
        Action::OpenView { .. } => max_view_id(&state.views) < u64::MAX,
        Action::SendMessage { view_id, .. } => match view_position(&state.views, *view_id) {
            None => true,
            Some(v) => {
                let view = &state.views[v];
                if view.session_id.is_none() && !trimmed(view.draft.as_str()).as_str().is_empty() {
                    max_session_id(&state.sessions) < u64::MAX
                } else {
                    true
                }
            },
        },
        _ => true,
    }
}

/// Applies `action` to `state`. Pure: all business rules live here.
pub fn reduce(state: State, action: Action) -> (next: State)
    requires
        reduce_fits(state.spec_view(), action@),
    ensures
        next.spec_view() == reduced(state.spec_view(), action@),
{
    let mut state = state;
    match action {
        Action::OpenView { session_id } => open_view(&mut state, session_id),
        Action::CloseView { view_id } => close_view(&mut state, view_id),
        Action::ShowSession { view_id, session_id } => show_session(
            &mut state,
            view_id,
            session_id,
        ),
        Action::SetModel { session_id, model } => set_model(&mut state, session_id, model),
        Action::EditDraft { view_id, text } => edit_draft(&mut state, view_id, text),
        Action::SendMessage { view_id, sent_at } => send_message(&mut state, view_id, sent_at),
    }
    state
}

} // verus!
