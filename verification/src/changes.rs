//! What changed between two states, so that a shell redraws only what it
//! must: its session list, its views, or both.

use vstd::prelude::*;
use crate::types::{
    messages_view, sessions_view, views_view, Message, Session, SessionViewState, State,
};

verus! {

fn same_messages(a: &Vec<Message>, b: &Vec<Message>) -> (same: bool)
    ensures
        same == (messages_view(a@) == messages_view(b@)),
{
    if a.len() != b.len() {
        assert(messages_view(a@).len() != messages_view(b@).len());
        return false;
    }
    let mut i: usize = 0;
    while i < a.len()
        invariant
            i <= a@.len() == b@.len(),
            forall|j: int| 0 <= j < i ==> #[trigger] a@[j]@ == b@[j]@,
        decreases a@.len() - i,
    {
        if a[i].role != b[i].role || a[i].content != b[i].content {
            assert(messages_view(a@)[i as int] != messages_view(b@)[i as int]);
            return false;
        }
        i += 1;
    }
    assert(messages_view(a@) =~= messages_view(b@));
    true
}

fn same_session(a: &Session, b: &Session) -> (same: bool)
    ensures
        same == (a@ == b@),
{
    if a.id != b.id || a.title != b.title || a.model != b.model || a.updated_at != b.updated_at {
        return false;
    }
    same_messages(&a.chat.messages, &b.chat.messages)
}

fn same_sessions(a: &Vec<Session>, b: &Vec<Session>) -> (same: bool)
    ensures
        same == (sessions_view(a@) == sessions_view(b@)),
{
    if a.len() != b.len() {
        assert(sessions_view(a@).len() != sessions_view(b@).len());
        return false;
    }
    let mut i: usize = 0;
    while i < a.len()
        invariant
            i <= a@.len() == b@.len(),
            forall|j: int| 0 <= j < i ==> #[trigger] a@[j]@ == b@[j]@,
        decreases a@.len() - i,
    {
        if !same_session(&a[i], &b[i]) {
            assert(sessions_view(a@)[i as int] != sessions_view(b@)[i as int]);
            return false;
        }
        i += 1;
    }
    assert(sessions_view(a@) =~= sessions_view(b@));
    true
}

fn same_views(a: &Vec<SessionViewState>, b: &Vec<SessionViewState>) -> (same: bool)
    ensures
        same == (views_view(a@) == views_view(b@)),
{
    if a.len() != b.len() {
        assert(views_view(a@).len() != views_view(b@).len());
        return false;
    }
    let mut i: usize = 0;
    while i < a.len()
        invariant
            i <= a@.len() == b@.len(),
            forall|j: int| 0 <= j < i ==> #[trigger] a@[j]@ == b@[j]@,
        decreases a@.len() - i,
    {
        if a[i].id != b[i].id || a[i].session_id != b[i].session_id || a[i].draft != b[i].draft {
            assert(views_view(a@)[i as int] != views_view(b@)[i as int]);
            return false;
        }
        i += 1;
    }
    assert(views_view(a@) =~= views_view(b@));
    true
}

/// What differs from `old` to `new`: whether the sessions (or their order)
/// changed, and whether a view opened, closed, or changed its session or
/// draft.
pub fn state_changes(old: &State, new: &State) -> (changes: (bool, bool))
    ensures
        changes.0 == (old.spec_view().sessions != new.spec_view().sessions),
        changes.1 == (old.spec_view().views != new.spec_view().views),
{
    (!same_sessions(&old.sessions, &new.sessions), !same_views(&old.views, &new.views))
}

} // verus!
