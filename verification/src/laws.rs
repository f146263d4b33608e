//! What every call of the reducer keeps, and what one action does to the
//! views and sessions it does not name.

use vstd::prelude::*;
use crate::reducer::{keeps_view, reduce_fits, reduced};
use crate::state::{
    distinct, first_index, has_session, lemma_first_index_contains, lemma_max_id_bound, max_id,
    newest_first, session_ids, view_ids,
};
use crate::text::trim;
use crate::types::{Model, Role, SpecAction, SpecMessage, SpecSession, SpecState, SpecView};

verus! {

/// Session `j` of `state` has id `id`.
proof fn lemma_has_session_at(state: SpecState, j: int, id: u64)
    requires
        0 <= j < state.sessions.len(),
        state.sessions[j].id == id,
    ensures
        has_session(state, id),
{
    assert(session_ids(state.sessions)[j] == id);
}

/// Where `has_session` holds, a session has that id.
proof fn lemma_session_index(state: SpecState, id: u64) -> (j: int)
    requires
        has_session(state, id),
    ensures
        0 <= j < state.sessions.len(),
        state.sessions[j].id == id,
{
    let j = choose|j: int| 0 <= j < session_ids(state.sessions).len() && session_ids(state.sessions)[j] == id;
    j
}

/// No action removes a session: every session id of `state` is still
/// there after `action`.
pub proof fn lemma_reduce_keeps_sessions(state: SpecState, action: SpecAction, id: u64)
    requires
        has_session(state, id),
    ensures
        has_session(reduced(state, action), id),
{
    let next = reduced(state, action);
    let j = lemma_session_index(state, id);
    match action {
        SpecAction::SetModel { session_id, model } => {
            lemma_has_session_at(next, j, id);
        },
        SpecAction::SendMessage { view_id, sent_at } => {
            if next != state {
                let v = first_index(view_ids(state.views), view_id)->0;
                match state.views[v].session_id {
                    Some(sid) => {
                        let p = first_index(session_ids(state.sessions), sid)->0;
                        lemma_first_index_contains(session_ids(state.sessions), sid);
                        if j == p {
                            lemma_has_session_at(next, 0, id);
                        } else if j < p {
                            lemma_has_session_at(next, j + 1, id);
                        } else {
                            lemma_has_session_at(next, j, id);
                        }
                    },
                    None => {
                        lemma_has_session_at(next, j + 1, id);
                    },
                }
            } else {
                lemma_has_session_at(next, j, id);
            }
        },
        _ => {
            lemma_has_session_at(next, j, id);
        },
    }
}

/// The view shows an existing session, or a new one.
pub open spec fn shows_known_session(state: SpecState, view: SpecView) -> bool {
    view.session_id matches Some(id) ==> has_session(state, id)
}

/// Every view shows an existing session or a new one.
pub open spec fn views_show_known_sessions(state: SpecState) -> bool {
    forall|k: int| 0 <= k < state.views.len() ==> shows_known_session(state, #[trigger] state.views[k])
}

/// A view never shows a session that does not exist: where every view of
/// `state` shows an existing session or a new one, so does every view
/// after any action.
pub proof fn lemma_reduce_keeps_views_on_known_sessions(state: SpecState, action: SpecAction)
    requires
        views_show_known_sessions(state),
    ensures
        views_show_known_sessions(reduced(state, action)),
{
    let next = reduced(state, action);
    assert forall|k: int| 0 <= k < next.views.len() implies shows_known_session(next, #[trigger] next.views[k]) by {
        let view = next.views[k];
        if let Some(id) = view.session_id {
            match action {
                SpecAction::CloseView { view_id } => {
                    let kept = keeps_view(view_id);
                    assert(next.views == state.views.filter(kept));
                    assert(next.views.contains(view));
                    state.views.lemma_filter_contains_rev(kept, view);
                    let i = choose|i: int| 0 <= i < state.views.len() && state.views[i] == view;
                    assert(shows_known_session(state, state.views[i]));
                    lemma_reduce_keeps_sessions(state, action, id);
                },
                SpecAction::SendMessage { view_id, sent_at } => {
                    if next != state {
                        let v = first_index(view_ids(state.views), view_id)->0;
                        lemma_first_index_contains(view_ids(state.views), view_id);
                        if k == v {
                            lemma_has_session_at(next, 0, id);
                        } else {
                            assert(view == state.views[k]);
                            assert(shows_known_session(state, state.views[k]));
                            lemma_reduce_keeps_sessions(state, action, id);
                        }
                    } else {
                        assert(shows_known_session(state, state.views[k]));
                    }
                },
                SpecAction::OpenView { session_id } => {
                    if k < state.views.len() {
                        assert(shows_known_session(state, state.views[k]));
                    }
                },
                SpecAction::ShowSession { view_id, session_id } => {
                    if next != state {
                        let v = first_index(view_ids(state.views), view_id)->0;
                        lemma_first_index_contains(view_ids(state.views), view_id);
                        if k != v {
                            assert(shows_known_session(state, state.views[k]));
                        }
                    } else {
                        assert(shows_known_session(state, state.views[k]));
                    }
                },
                SpecAction::SetModel { session_id, model } => {
                    assert(shows_known_session(state, state.views[k]));
                    lemma_reduce_keeps_sessions(state, action, id);
                },
                SpecAction::EditDraft { view_id, text } => {
                    if next != state {
                        let v = first_index(view_ids(state.views), view_id)->0;
                        lemma_first_index_contains(view_ids(state.views), view_id);
                    }
                    assert(shows_known_session(state, state.views[k]));
                },
            }
        }
    }
}

/// The action sends a message at `sent_at` or later than the newest
/// session's last change, where it sends one.
pub open spec fn sent_no_earlier(state: SpecState, action: SpecAction) -> bool {
    action matches SpecAction::SendMessage { sent_at, .. } ==> (state.sessions.len() > 0 ==> sent_at
        >= state.sessions[0].updated_at)
}

/// Sessions stay newest first: where they are newest first, and a message
/// is not sent earlier than the newest session last changed, they are
/// newest first after the action too.
pub proof fn lemma_reduce_keeps_newest_first(state: SpecState, action: SpecAction)
    requires
        newest_first(state.sessions),
        sent_no_earlier(state, action),
    ensures
        newest_first(reduced(state, action).sessions),
{
    let next = reduced(state, action);
    let old = state.sessions;
    let new = next.sessions;
    match action {
        SpecAction::SetModel { session_id, model } => {
            assert forall|i: int, j: int| 0 <= i < j < new.len() implies #[trigger] new[i].updated_at
                >= #[trigger] new[j].updated_at by {
                assert(old[i].updated_at >= old[j].updated_at);
            }
        },
        SpecAction::SendMessage { view_id, sent_at } => {
            if next != state {
                let v = first_index(view_ids(state.views), view_id)->0;
                match state.views[v].session_id {
                    Some(sid) => {
                        let p = first_index(session_ids(old), sid)->0;
                        lemma_first_index_contains(session_ids(old), sid);
                        let rest = old.remove(p);
                        assert forall|i: int, j: int| 0 <= i < j < new.len() implies #[trigger] new[i].updated_at
                            >= #[trigger] new[j].updated_at by {
                            let fj = if j - 1 < p { j - 1 } else { j };
                            assert(new[j] == old[fj]);
                            if i == 0 {
                                assert(old[0].updated_at >= old[fj].updated_at || fj == 0);
                            } else {
                                let fi = if i - 1 < p { i - 1 } else { i };
                                assert(new[i] == old[fi]);
                                assert(fi < fj);
                            }
                        }
                    },
                    None => {
                        assert forall|i: int, j: int| 0 <= i < j < new.len() implies #[trigger] new[i].updated_at
                            >= #[trigger] new[j].updated_at by {
                            assert(new[j] == old[j - 1]);
                            if i > 0 {
                                assert(new[i] == old[i - 1]);
                            } else if j > 1 {
                                assert(old[0].updated_at >= old[j - 1].updated_at);
                            }
                        }
                    },
                }
            }
        },
        _ => {},
    }
}

/// `new` is `old` with its messages kept: the same id and title, and the
/// old messages, unchanged, first.
pub open spec fn keeps_chat(old: SpecSession, new: SpecSession) -> bool {
    &&& new.id == old.id
    &&& new.title == old.title
    &&& old.messages.is_prefix_of(new.messages)
}

/// Messages are only ever appended: after any action, every session of
/// `state` is still there, with its title and all its messages, which may
/// be followed by new ones.
pub proof fn lemma_reduce_only_appends(state: SpecState, action: SpecAction, i: int)
    requires
        0 <= i < state.sessions.len(),
    ensures
        exists|j: int|
            0 <= j < reduced(state, action).sessions.len() && keeps_chat(
                state.sessions[i],
                #[trigger] reduced(state, action).sessions[j],
            ),
{
    let next = reduced(state, action);
    let old = state.sessions;
    let new = next.sessions;
    assert(old[i].messages.is_prefix_of(old[i].messages)) by {
        assert(old[i].messages.take(old[i].messages.len() as int) =~= old[i].messages);
    }
    match action {
        SpecAction::SetModel { session_id, model } => {
            assert(keeps_chat(old[i], new[i]));
        },
        SpecAction::SendMessage { view_id, sent_at } => {
            if next != state {
                let v = first_index(view_ids(state.views), view_id)->0;
                match state.views[v].session_id {
                    Some(sid) => {
                        let p = first_index(session_ids(old), sid)->0;
                        lemma_first_index_contains(session_ids(old), sid);
                        if i == p {
                            let m = new[0].messages;
                            assert(m.take(old[p].messages.len() as int) =~= old[p].messages);
                            assert(keeps_chat(old[i], new[0]));
                        } else if i < p {
                            assert(keeps_chat(old[i], new[i + 1]));
                        } else {
                            assert(keeps_chat(old[i], new[i]));
                        }
                    },
                    None => {
                        assert(keeps_chat(old[i], new[i + 1]));
                    },
                }
            } else {
                assert(keeps_chat(old[i], new[i]));
            }
        },
        _ => {
            assert(keeps_chat(old[i], new[i]));
        },
    }
}

/// The view id that an action names, if any.
pub open spec fn named_view(action: SpecAction) -> Option<u64> {
    match action {
        SpecAction::ShowSession { view_id, .. } => Some(view_id),
        SpecAction::EditDraft { view_id, .. } => Some(view_id),
        SpecAction::SendMessage { view_id, .. } => Some(view_id),
        SpecAction::CloseView { view_id } => Some(view_id),
        _ => None,
    }
}

/// Views keep their own drafts and sessions: an action leaves every view
/// that it does not name as it was, in its place. (Opening a view adds one
/// after them; closing one removes those it names.)
pub proof fn lemma_reduce_leaves_other_views(state: SpecState, action: SpecAction, k: int)
    requires
        0 <= k < state.views.len(),
        named_view(action) != Some(state.views[k].id),
        !(action is CloseView),
    ensures
        k < reduced(state, action).views.len(),
        reduced(state, action).views[k] == state.views[k],
{
    let next = reduced(state, action);
    match named_view(action) {
        Some(view_id) => {
            if next != state {
                let v = first_index(view_ids(state.views), view_id)->0;
                lemma_first_index_contains(view_ids(state.views), view_id);
                assert(state.views[v].id == view_id);
            }
        },
        None => {},
    }
}

/// An action that names a view no view has leaves the state as it was.
pub proof fn lemma_reduce_ignores_unknown_views(state: SpecState, action: SpecAction)
    requires
        named_view(action) matches Some(id) && !view_ids(state.views).contains(id),
    ensures
        reduced(state, action) == state,
{
    let id = named_view(action)->0;
    lemma_first_index_contains(view_ids(state.views), id);
    if let SpecAction::CloseView { view_id } = action {
        lemma_filter_keeps_all(state.views, view_id);
    }
}

/// Filtering out an id that no view has keeps every view.
proof fn lemma_filter_keeps_all(views: Seq<SpecView>, view_id: u64)
    requires
        !view_ids(views).contains(view_id),
    ensures
        views.filter(keeps_view(view_id)) == views,
    decreases views.len(),
{
    reveal(Seq::filter);
    if views.len() > 0 {
        assert(!view_ids(views.drop_last()).contains(view_id)) by {
            if view_ids(views.drop_last()).contains(view_id) {
                let j = choose|j: int| 0 <= j < views.len() - 1 && view_ids(views.drop_last())[j] == view_id;
                assert(view_ids(views)[j] == view_id);
            }
        }
        lemma_filter_keeps_all(views.drop_last(), view_id);
        assert(view_ids(views)[views.len() - 1] == views.last().id);
        assert(views.drop_last().push(views.last()) =~= views);
    }
}

/// Closing a view removes every view with its id and keeps the others.
pub proof fn lemma_close_view_removes_it(state: SpecState, view_id: u64)
    ensures
        !view_ids(reduced(state, SpecAction::CloseView { view_id }).views).contains(view_id),
        forall|k: int|
            0 <= k < state.views.len() && #[trigger] state.views[k].id != view_id ==> reduced(
                state,
                SpecAction::CloseView { view_id },
            ).views.contains(state.views[k]),
{
    let next = reduced(state, SpecAction::CloseView { view_id });
    let kept = keeps_view(view_id);
    broadcast use vstd::seq_lib::group_filter_ensures;
    if view_ids(next.views).contains(view_id) {
        let j = choose|j: int| 0 <= j < next.views.len() && view_ids(next.views)[j] == view_id;
        assert(kept(state.views.filter(kept)[j]));
    }
    assert forall|k: int| 0 <= k < state.views.len() && #[trigger] state.views[k].id != view_id implies next.views.contains(state.views[k]) by {
        assert(kept(state.views[k]));
    }
}

/// Reading a draft gives back what was written: after `EditDraft` on a
/// view, the first view with that id holds the text, and it is still the
/// first view with that id.
pub proof fn lemma_edit_draft_then_read(state: SpecState, view_id: u64, text: Seq<char>)
    requires
        view_ids(state.views).contains(view_id),
    ensures
        ({
            let next = reduced(state, SpecAction::EditDraft { view_id, text });
            &&& first_index(view_ids(next.views), view_id) == first_index(view_ids(state.views), view_id)
            &&& next.views[first_index(view_ids(next.views), view_id)->0].draft == text
        }),
{
    let next = reduced(state, SpecAction::EditDraft { view_id, text });
    lemma_first_index_contains(view_ids(state.views), view_id);
    let v = first_index(view_ids(state.views), view_id)->0;
    assert(view_ids(next.views) =~= view_ids(state.views));
}

/// Sending clears the draft: where a send changes the state, the view's
/// draft is empty, it shows the top session, and that session's last
/// message is the user's trimmed draft.
pub proof fn lemma_send_clears_draft(state: SpecState, view_id: u64, sent_at: i128)
    requires
        reduced(state, SpecAction::SendMessage { view_id, sent_at }) != state,
    ensures
        ({
            let next = reduced(state, SpecAction::SendMessage { view_id, sent_at });
            let v = first_index(view_ids(state.views), view_id)->0;
            &&& first_index(view_ids(state.views), view_id) is Some
            &&& next.views[v].draft.len() == 0
            &&& next.views[v].session_id == Some(next.sessions[0].id)
            &&& next.sessions[0].updated_at == sent_at
            &&& next.sessions[0].messages.last() == (SpecMessage {
                role: Role::User,
                content: trim(state.views[v].draft),
            })
            &&& next.sessions.len() >= state.sessions.len()
        }),
{
    lemma_first_index_contains(view_ids(state.views), view_id);
    let v = first_index(view_ids(state.views), view_id)->0;
    if let Some(sid) = state.views[v].session_id {
        lemma_first_index_contains(session_ids(state.sessions), sid);
    }
}

/// A blank draft is not sent: the state stays as it was.
pub proof fn lemma_send_keeps_blank_drafts(state: SpecState, view_id: u64, sent_at: i128)
    requires
        first_index(view_ids(state.views), view_id) matches Some(v) && trim(state.views[v].draft).len() == 0,
    ensures
        reduced(state, SpecAction::SendMessage { view_id, sent_at }) == state,
{
}

/// Ids stay unique: where no two views, and no two sessions, share an
/// id, that holds after any action that fits.
pub proof fn lemma_reduce_keeps_ids_distinct(state: SpecState, action: SpecAction)
    requires
        distinct(view_ids(state.views)),
        distinct(session_ids(state.sessions)),
        reduce_fits(state, action),
    ensures
        distinct(view_ids(reduced(state, action).views)),
        distinct(session_ids(reduced(state, action).sessions)),
{
    let next = reduced(state, action);
    let olds = state.sessions;
    let news = next.sessions;
    match action {
        SpecAction::OpenView { session_id } => {
            let ids = view_ids(next.views);
            assert forall|i: int, j: int| 0 <= i < j < ids.len() implies #[trigger] ids[i] != #[trigger] ids[j] by {
                if j == ids.len() - 1 {
                    lemma_max_id_bound(view_ids(state.views), i);
                } else {
                    assert(ids[i] == view_ids(state.views)[i]);
                    assert(ids[j] == view_ids(state.views)[j]);
                }
            }
        },
        SpecAction::CloseView { view_id } => {
            lemma_filter_keeps_distinct(state.views, view_id);
        },
        SpecAction::SendMessage { view_id, sent_at } => {
            if next != state {
                let v = first_index(view_ids(state.views), view_id)->0;
                lemma_first_index_contains(view_ids(state.views), view_id);
                let vids = view_ids(next.views);
                assert forall|i: int, j: int| 0 <= i < j < vids.len() implies #[trigger] vids[i] != #[trigger] vids[j] by {
                    assert(vids[i] == view_ids(state.views)[i]);
                    assert(vids[j] == view_ids(state.views)[j]);
                }
                let ids = session_ids(news);
                let oids = session_ids(olds);
                match state.views[v].session_id {
                    Some(sid) => {
                        let p = first_index(oids, sid)->0;
                        lemma_first_index_contains(oids, sid);
                        assert forall|i: int, j: int| 0 <= i < j < ids.len() implies #[trigger] ids[i] != #[trigger] ids[j] by {
                            let fj = if j - 1 < p { j - 1 } else { j };
                            assert(ids[j] == oids[fj]);
                            if i == 0 {
                                assert(ids[0] == oids[p]);
                                assert(fj != p);
                            } else {
                                let fi = if i - 1 < p { i - 1 } else { i };
                                assert(ids[i] == oids[fi]);
                                assert(fi < fj);
                            }
                        }
                    },
                    None => {
                        assert forall|i: int, j: int| 0 <= i < j < ids.len() implies #[trigger] ids[i] != #[trigger] ids[j] by {
                            assert(ids[j] == oids[j - 1]);
                            if i == 0 {
                                lemma_max_id_bound(oids, j - 1);
                            } else {
                                assert(ids[i] == oids[i - 1]);
                            }
                        }
                    },
                }
            }
        },
        _ => {
            if next != state {
                let vids = view_ids(next.views);
                assert forall|i: int, j: int| 0 <= i < j < vids.len() implies #[trigger] vids[i] != #[trigger] vids[j] by {
                    assert(vids[i] == view_ids(state.views)[i]);
                    assert(vids[j] == view_ids(state.views)[j]);
                }
                let ids = session_ids(news);
                assert forall|i: int, j: int| 0 <= i < j < ids.len() implies #[trigger] ids[i] != #[trigger] ids[j] by {
                    assert(ids[i] == session_ids(olds)[i]);
                    assert(ids[j] == session_ids(olds)[j]);
                }
            }
        },
    }
}

/// Filtering keeps ids distinct.
proof fn lemma_filter_keeps_distinct(views: Seq<SpecView>, view_id: u64)
    requires
        distinct(view_ids(views)),
    ensures
        distinct(view_ids(views.filter(keeps_view(view_id)))),
    decreases views.len(),
{
    reveal(Seq::filter);
    if views.len() > 0 {
        let rest = views.drop_last();
        assert(distinct(view_ids(rest))) by {
            assert forall|i: int, j: int| 0 <= i < j < rest.len() implies #[trigger] view_ids(rest)[i] != #[trigger] view_ids(rest)[j] by {
                assert(view_ids(views)[i] != view_ids(views)[j]);
            }
        }
        lemma_filter_keeps_distinct(rest, view_id);
        let kept = keeps_view(view_id);
        let sub = rest.filter(kept);
        if kept(views.last()) {
            let out = sub.push(views.last());
            assert forall|i: int, j: int| 0 <= i < j < out.len() implies #[trigger] view_ids(out)[i] != #[trigger] view_ids(out)[j] by {
                if j == out.len() - 1 {
                    if view_ids(out)[i] == view_ids(out)[j] {
                        assert(sub.contains(out[i]));
                        rest.lemma_filter_contains_rev(kept, out[i]);
                        let m = choose|m: int| 0 <= m < rest.len() && rest[m] == out[i];
                        assert(view_ids(views)[m] == view_ids(views)[views.len() - 1]);
                    }
                } else {
                    assert(view_ids(out)[i] == view_ids(sub)[i]);
                    assert(view_ids(out)[j] == view_ids(sub)[j]);
                }
            }
        }
    }
}

/// Showing a session keeps the draft: after `ShowSession`, every view
/// keeps its id and its draft, and only the first view with the id may
/// show another session.
pub proof fn lemma_show_session_keeps_drafts(state: SpecState, view_id: u64, session_id: Option<u64>)
    ensures
        ({
            let next = reduced(state, SpecAction::ShowSession { view_id, session_id });
            &&& next.sessions == state.sessions
            &&& next.views.len() == state.views.len()
            &&& forall|k: int|
                0 <= k < state.views.len() ==> #[trigger] next.views[k].id == state.views[k].id
                    && next.views[k].draft == state.views[k].draft
        }),
{
    let next = reduced(state, SpecAction::ShowSession { view_id, session_id });
    if next != state {
        lemma_first_index_contains(view_ids(state.views), view_id);
    }
}

/// The ids that `CloseView` for `view_id` keeps.
pub open spec fn other_ids(view_id: u64) -> spec_fn(u64) -> bool {
    |id: u64| id != view_id
}

/// The view ids after `action`, in order: the views stay in the order they
/// opened, a new view comes last, and a closed one leaves the others in
/// their order.
pub open spec fn view_order_after(state: SpecState, action: SpecAction) -> Seq<u64> {
    match action {
        SpecAction::OpenView { .. } => view_ids(state.views).push(
            (max_id(view_ids(state.views)) + 1) as u64,
        ),
        SpecAction::CloseView { view_id } => view_ids(state.views).filter(other_ids(view_id)),
        _ => view_ids(state.views),
    }
}

/// Views stay in the order they opened: after any action, the view ids are
/// those before it, in the same order, with an opened view last and a
/// closed one left out.
pub proof fn lemma_reduce_keeps_view_order(state: SpecState, action: SpecAction)
    ensures
        view_ids(reduced(state, action).views) == view_order_after(state, action),
{
    let next = reduced(state, action);
    match action {
        SpecAction::OpenView { .. } => {
            assert(view_ids(next.views) =~= view_order_after(state, action));
        },
        SpecAction::CloseView { view_id } => {
            lemma_filter_ids(state.views, view_id);
        },
        _ => {
            if next != state {
                if let Some(view_id) = named_view(action) {
                    lemma_first_index_contains(view_ids(state.views), view_id);
                }
            }
            assert(view_ids(next.views) =~= view_ids(state.views));
        },
    }
}

/// The ids of the views that `CloseView` keeps are the ids, filtered.
proof fn lemma_filter_ids(views: Seq<SpecView>, view_id: u64)
    ensures
        view_ids(views.filter(keeps_view(view_id))) == view_ids(views).filter(other_ids(view_id)),
    decreases views.len(),
{
    reveal(Seq::filter);
    if views.len() > 0 {
        lemma_filter_ids(views.drop_last(), view_id);
        assert(view_ids(views).drop_last() =~= view_ids(views.drop_last()));
        let sub = views.drop_last().filter(keeps_view(view_id));
        assert(view_ids(sub.push(views.last())) =~= view_ids(sub).push(views.last().id));
    } else {
        assert(view_ids(views.filter(keeps_view(view_id))) =~= view_ids(views).filter(other_ids(view_id)));
    }
}

/// Sending a message to a session changes nothing of it but its messages,
/// which gain the trimmed draft as a user message at the end, and its last
/// update time: its id, title and model stay. The session comes first, the
/// others follow in their order, and the sender's view shows it with an
/// empty draft.
pub proof fn lemma_send_to_session(state: SpecState, view_id: u64, sent_at: i128, v: int, p: int)
    requires
        first_index(view_ids(state.views), view_id) == Some(v),
        trim(state.views[v].draft).len() > 0,
        state.views[v].session_id matches Some(sid) && first_index(session_ids(state.sessions), sid)
            == Some(p),
    ensures
        ({
            let next = reduced(state, SpecAction::SendMessage { view_id, sent_at });
            let old = state.sessions[p];
            let top = next.sessions[0];
            &&& next.sessions.len() == state.sessions.len()
            &&& top.id == old.id
            &&& top.title == old.title
            &&& top.model == old.model
            &&& top.updated_at == sent_at
            &&& top.messages.len() == old.messages.len() + 1
            &&& top.messages.take(old.messages.len() as int) == old.messages
            &&& top.messages.last() == (SpecMessage {
                role: Role::User,
                content: trim(state.views[v].draft),
            })
            &&& forall|k: int|
                0 <= k < p ==> #[trigger] next.sessions[k + 1] == state.sessions[k]
            &&& forall|k: int|
                p < k < state.sessions.len() ==> #[trigger] next.sessions[k] == state.sessions[k]
            &&& next.views[v].id == view_id
            &&& next.views[v].session_id == Some(old.id)
            &&& next.views[v].draft.len() == 0
        }),
{
    let sid = state.views[v].session_id->0;
    lemma_first_index_contains(view_ids(state.views), view_id);
    lemma_first_index_contains(session_ids(state.sessions), sid);
    let next = reduced(state, SpecAction::SendMessage { view_id, sent_at });
    let old = state.sessions[p];
    assert(next.sessions[0].messages.take(old.messages.len() as int) =~= old.messages);
    assert forall|k: int| 0 <= k < p implies #[trigger] next.sessions[k + 1] == state.sessions[k] by {
        assert(next.sessions[k + 1] == state.sessions.remove(p)[k]);
    }
    assert forall|k: int| p < k < state.sessions.len() implies #[trigger] next.sessions[k]
        == state.sessions[k] by {
        assert(next.sessions[k] == state.sessions.remove(p)[k - 1]);
    }
}

/// `new` is `old` with the same id, title and model.
pub open spec fn keeps_identity(old: SpecSession, new: SpecSession) -> bool {
    &&& new.id == old.id
    &&& new.title == old.title
    &&& new.model == old.model
}

/// Only `SetModel` changes a model: after any other action, every session
/// of `state` is still there with its id, title and model.
pub proof fn lemma_models_change_only_by_set_model(state: SpecState, action: SpecAction, i: int)
    requires
        0 <= i < state.sessions.len(),
        !(action is SetModel),
    ensures
        exists|j: int|
            0 <= j < reduced(state, action).sessions.len() && keeps_identity(
                state.sessions[i],
                #[trigger] reduced(state, action).sessions[j],
            ),
{
    let next = reduced(state, action);
    let old = state.sessions[i];
    if let SpecAction::SendMessage { view_id, sent_at } = action {
        if next != state {
            let v = first_index(view_ids(state.views), view_id)->0;
            lemma_first_index_contains(view_ids(state.views), view_id);
            match state.views[v].session_id {
                Some(sid) => {
                    let p = first_index(session_ids(state.sessions), sid)->0;
                    lemma_first_index_contains(session_ids(state.sessions), sid);
                    if i == p {
                        assert(keeps_identity(old, next.sessions[0]));
                    } else if i < p {
                        assert(keeps_identity(old, next.sessions[i + 1]));
                    } else {
                        assert(keeps_identity(old, next.sessions[i]));
                    }
                },
                None => {
                    assert(keeps_identity(old, next.sessions[i + 1]));
                },
            }
        } else {
            assert(keeps_identity(old, next.sessions[i]));
        }
    } else {
        assert(keeps_identity(old, next.sessions[i]));
    }
}

/// `SetModel` switches the first session with the id to the model, whatever
/// model it had, and changes nothing else.
pub proof fn lemma_set_model_switches(state: SpecState, session_id: u64, model: Model, i: int)
    requires
        first_index(session_ids(state.sessions), session_id) == Some(i),
    ensures
        ({
            let next = reduced(state, SpecAction::SetModel { session_id, model });
            &&& first_index(session_ids(next.sessions), session_id) == Some(i)
            &&& next.sessions[i].model == model
            &&& next.sessions[i].id == state.sessions[i].id
            &&& next.sessions[i].title == state.sessions[i].title
            &&& next.sessions[i].updated_at == state.sessions[i].updated_at
            &&& next.sessions[i].messages == state.sessions[i].messages
            &&& next.sessions.len() == state.sessions.len()
            &&& forall|k: int|
                0 <= k < state.sessions.len() && k != i ==> #[trigger] next.sessions[k]
                    == state.sessions[k]
            &&& next.views == state.views
        }),
{
    lemma_first_index_contains(session_ids(state.sessions), session_id);
    let next = reduced(state, SpecAction::SetModel { session_id, model });
    assert(session_ids(next.sessions) =~= session_ids(state.sessions));
}

/// `ShowSession` on an existing view, with no session or an existing one,
/// makes the first view with the id show it, whatever it showed before; the
/// view keeps its id and draft.
pub proof fn lemma_show_session_shows_it(state: SpecState, view_id: u64, session_id: Option<u64>, v: int)
    requires
        first_index(view_ids(state.views), view_id) == Some(v),
        session_id is None || has_session(state, session_id->0),
    ensures
        ({
            let next = reduced(state, SpecAction::ShowSession { view_id, session_id });
            &&& first_index(view_ids(next.views), view_id) == Some(v)
            &&& next.views[v].session_id == session_id
            &&& next.views[v].id == view_id
            &&& next.views[v].draft == state.views[v].draft
        }),
{
    lemma_first_index_contains(view_ids(state.views), view_id);
    let next = reduced(state, SpecAction::ShowSession { view_id, session_id });
    assert(view_ids(next.views) =~= view_ids(state.views));
}

/// `OpenView` adds one view after the others, which stay as they were: it
/// has an id larger than every id in use, an empty draft, and shows the
/// session where it exists, or a new session.
pub proof fn lemma_open_view_adds_empty_view(state: SpecState, session_id: Option<u64>)
    requires
        max_id(view_ids(state.views)) < u64::MAX,
    ensures
        ({
            let next = reduced(state, SpecAction::OpenView { session_id });
            let added = next.views.last();
            &&& next.views.len() == state.views.len() + 1
            &&& next.views.drop_last() == state.views
            &&& next.sessions == state.sessions
            &&& added.draft.len() == 0
            &&& forall|k: int| 0 <= k < state.views.len() ==> #[trigger] state.views[k].id < added.id
            &&& added.session_id == (if session_id matches Some(id) && has_session(state, id) {
                session_id
            } else {
                None
            })
        }),
{
    let next = reduced(state, SpecAction::OpenView { session_id });
    assert(next.views.drop_last() =~= state.views);
    assert forall|k: int| 0 <= k < state.views.len() implies #[trigger] state.views[k].id
        < next.views.last().id by {
        lemma_max_id_bound(view_ids(state.views), k);
        assert(view_ids(state.views)[k] == state.views[k].id);
    }
}

} // verus!
