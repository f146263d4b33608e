//! Finding sessions and views by id.

use vstd::prelude::*;
use crate::types::{sessions_view, views_view, Session, SessionViewState, SpecSession, SpecState, SpecView, State};

verus! {

/// The ids of `sessions`, in order.
pub open spec fn session_ids(sessions: Seq<SpecSession>) -> Seq<u64> {
    sessions.map_values(|s: SpecSession| s.id)
}

/// The ids of `views`, in order.
pub open spec fn view_ids(views: Seq<SpecView>) -> Seq<u64> {
    views.map_values(|v: SpecView| v.id)
}

/// `i` is the first position of `id` in `ids`.
pub open spec fn is_first_index(ids: Seq<u64>, id: u64, i: int) -> bool {
    &&& 0 <= i < ids.len()
    &&& ids[i] == id
    &&& forall|j: int| 0 <= j < i ==> ids[j] != id
}

/// The first position of `id` in `ids`, if it occurs.
pub open spec fn first_index(ids: Seq<u64>, id: u64) -> Option<int> {
    if exists|i: int| is_first_index(ids, id, i) {
        Some(choose|i: int| is_first_index(ids, id, i))
    } else {
        None
    }
}

/// The largest of `ids`, or 0 where there is none.
pub open spec fn max_id(ids: Seq<u64>) -> u64
    decreases ids.len(),
{
    if ids.len() == 0 {
        0
    } else {
        let rest = max_id(ids.drop_last());
        if ids.last() > rest {
            ids.last()
        } else {
            rest
        }
    }
}

/// Sessions are newest first, by `updated_at`.
pub open spec fn newest_first(sessions: Seq<SpecSession>) -> bool {
    forall|i: int, j: int|
        0 <= i < j < sessions.len() ==> #[trigger] sessions[i].updated_at
            >= #[trigger] sessions[j].updated_at
}

/// No two of `ids` are equal.
pub open spec fn distinct(ids: Seq<u64>) -> bool {
    forall|i: int, j: int| 0 <= i < j < ids.len() ==> #[trigger] ids[i] != #[trigger] ids[j]
}

/// There is a session with this id.
pub open spec fn has_session(state: SpecState, id: u64) -> bool {
    session_ids(state.sessions).contains(id)
}

pub proof fn lemma_first_index_is(ids: Seq<u64>, id: u64, i: int)
    requires
        is_first_index(ids, id, i),
    ensures
        first_index(ids, id) == Some(i),
{
    let k = choose|k: int| is_first_index(ids, id, k);
    assert(is_first_index(ids, id, k));
    if k < i {
        assert(ids[k] != id);
    }
    if i < k {
        assert(ids[i] != id);
    }
}

pub proof fn lemma_first_index_none(ids: Seq<u64>, id: u64)
    requires
        forall|j: int| 0 <= j < ids.len() ==> ids[j] != id,
    ensures
        first_index(ids, id) is None,
        !ids.contains(id),
{
}

pub proof fn lemma_first_index_some(ids: Seq<u64>, id: u64)
    requires
        ids.contains(id),
    ensures
        first_index(ids, id) is Some,
    decreases ids.len(),
{
    if ids.last() == id && !ids.drop_last().contains(id) {
        let i = ids.len() - 1;
        assert forall|j: int| 0 <= j < i implies ids[j] != id by {
            assert(ids.drop_last()[j] == ids[j]);
        }
        assert(is_first_index(ids, id, i));
    } else {
        if !ids.drop_last().contains(id) {
            let k = choose|k: int| 0 <= k < ids.len() && ids[k] == id;
            assert(k == ids.len() - 1 || ids.drop_last()[k] == id);
        }
        lemma_first_index_some(ids.drop_last(), id);
        let i = choose|i: int| is_first_index(ids.drop_last(), id, i);
        assert(is_first_index(ids.drop_last(), id, i));
        assert forall|j: int| 0 <= j < i implies ids[j] != id by {
            assert(ids.drop_last()[j] == ids[j]);
        }
        assert(ids.drop_last()[i] == ids[i]);
        assert(is_first_index(ids, id, i));
    }
}

pub proof fn lemma_first_index_contains(ids: Seq<u64>, id: u64)
    ensures
        first_index(ids, id) is Some <==> ids.contains(id),
        first_index(ids, id) matches Some(i) ==> is_first_index(ids, id, i),
{
    if ids.contains(id) {
        lemma_first_index_some(ids, id);
    }
    if first_index(ids, id) is Some {
        let i = choose|i: int| is_first_index(ids, id, i);
        assert(ids[i] == id);
    }
}

/// No id is larger than the largest.
pub proof fn lemma_max_id_bound(ids: Seq<u64>, i: int)
    requires
        0 <= i < ids.len(),
    ensures
        ids[i] <= max_id(ids),
    decreases ids.len(),
{
    if i < ids.len() - 1 {
        lemma_max_id_bound(ids.drop_last(), i);
    }
}

/// The position of the first view with id `id`.
pub(crate) fn view_position(views: &Vec<SessionViewState>, id: u64) -> (r: Option<usize>)
    ensures
        match r {
            Some(i) => first_index(view_ids(views_view(views@)), id) == Some(i as int),
            None => first_index(view_ids(views_view(views@)), id) is None,
        },
{
    let ghost ids = view_ids(views_view(views@));
    let mut i: usize = 0;
    while i < views.len()
        invariant
            i <= views.len(),
            ids == view_ids(views_view(views@)),
            forall|j: int| 0 <= j < i ==> ids[j] != id,
        decreases views.len() - i,
    {
        if views[i].id == id {
            proof {
                assert(ids[i as int] == id);
                lemma_first_index_is(ids, id, i as int);
            }
            return Some(i);
        }
        i += 1;
    }
    proof {
        lemma_first_index_none(ids, id);
    }
    None
}

/// The position of the first session with id `id`.
pub(crate) fn session_position(sessions: &Vec<Session>, id: u64) -> (r: Option<usize>)
    ensures
        match r {
            Some(i) => first_index(session_ids(sessions_view(sessions@)), id) == Some(i as int),
            None => first_index(session_ids(sessions_view(sessions@)), id) is None,
        },
{
    let ghost ids = session_ids(sessions_view(sessions@));
    let mut i: usize = 0;
    while i < sessions.len()
        invariant
            i <= sessions.len(),
            ids == session_ids(sessions_view(sessions@)),
            forall|j: int| 0 <= j < i ==> ids[j] != id,
        decreases sessions.len() - i,
    {
        if sessions[i].id == id {
            proof {
                assert(ids[i as int] == id);
                lemma_first_index_is(ids, id, i as int);
            }
            return Some(i);
        }
        i += 1;
    }
    proof {
        lemma_first_index_none(ids, id);
    }
    None
}

impl State {
    /// The first session with this id.
    pub fn session(&self, id: u64) -> (r: Option<&Session>)
        ensures
            match first_index(session_ids(self.spec_view().sessions), id) {
                Some(i) => r == Some(&self.sessions@[i]),
                None => r is None,
            },
    {
        match session_position(&self.sessions, id) {
            Some(i) => Some(&self.sessions[i]),
            None => None,
        }
    }

    /// The first session with this id, to change it in place.
    pub fn session_mut(&mut self, id: u64) -> (r: Option<&mut Session>)
        ensures
            match first_index(session_ids(old(self).spec_view().sessions), id) {
                Some(i) => r matches Some(s) && *s == old(self).sessions@[i]
                    && final(self).sessions@ == old(self).sessions@.update(i, *final(s))
                    && final(self).views@ == old(self).views@,
                None => r is None && *final(self) == *old(self),
            },
    {
        match session_position(&self.sessions, id) {
            Some(i) => Some(&mut self.sessions[i]),
            None => None,
        }
    }

    /// The first view with this id.
    pub fn view(&self, id: u64) -> (r: Option<&SessionViewState>)
        ensures
            match first_index(view_ids(self.spec_view().views), id) {
                Some(i) => r == Some(&self.views@[i]),
                None => r is None,
            },
    {
        match view_position(&self.views, id) {
            Some(i) => Some(&self.views[i]),
            None => None,
        }
    }

    /// The first view with this id, to change it in place.
    pub fn view_mut(&mut self, id: u64) -> (r: Option<&mut SessionViewState>)
        ensures
            match first_index(view_ids(old(self).spec_view().views), id) {
                Some(i) => r matches Some(v) && *v == old(self).views@[i]
                    && final(self).views@ == old(self).views@.update(i, *final(v))
                    && final(self).sessions@ == old(self).sessions@,
                None => r is None && *final(self) == *old(self),
            },
    {
        match view_position(&self.views, id) {
            Some(i) => Some(&mut self.views[i]),
            None => None,
        }
    }
}

} // verus!
