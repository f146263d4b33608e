//! The store: owns the current state and applies actions to it.

use vstd::prelude::*;
use crate::reducer::{reduce, reduce_fits, reduced};
use crate::samples::{sample_age_secs, sample_count, sample_script, sample_texts, sample_title, DAY_SECS};
use crate::section::{session_sections, sectioned, sections_view, ChatSection};
use crate::state::{max_id, newest_first, view_ids};
use crate::types::{
    messages_view, sessions_view, Action, Chat, Message, Model, Role, Session, SpecAction,
    SpecMessage, SpecSession, SpecState, SpecView, State,
};

verus! {

/// Nanoseconds in a second.
pub const NANOS_PER_SEC: i128 = 1_000_000_000;

/// The largest number of nanoseconds a `std::time::Duration` holds:
/// `u64::MAX` seconds and 999 999 999 nanoseconds.
pub const MAX_DURATION_NANOS: u128 = 18_446_744_073_709_551_615_999_999_999;

/// The message `j` of a sample chat whose texts are `texts`: the user
/// writes first, then user and assistant take turns.
pub open spec fn sample_message(texts: Seq<Seq<char>>, j: int) -> SpecMessage {
    SpecMessage {
        role: if j % 2 == 0 {
            Role::User
        } else {
            Role::Assistant
        },
        content: texts[j],
    }
}

/// Sample session `k` (id `k + 1`) as seen at `now`.
pub open spec fn sample_session(k: int, now: i128) -> SpecSession {
    let texts = sample_texts(k);
    SpecSession {
        id: (k + 1) as u64,
        title: sample_title(k),
        model: Model::Opus5_5,
        updated_at: (now - sample_age_secs(k) * NANOS_PER_SEC) as i128,
        messages: Seq::new(texts.len(), |j: int| sample_message(texts, j)),
    }
}

/// The sample sessions as seen at `now`, newest first, and no view.
pub open spec fn sample_state(now: i128) -> SpecState {
    SpecState {
        sessions: Seq::new(sample_count() as nat, |k: int| sample_session(k, now)),
        views: Seq::empty(),
    }
}

/// `SystemTime::now().duration_since(UNIX_EPOCH)`: whether the clock is at
/// or after the Unix epoch, and how many nanoseconds it is away from it.
/// What is stated is the bound that `Duration` documents; the time itself
/// is not stated.
#[verifier::external_body]
fn clock() -> (reading: (bool, u128))
    ensures
        reading.1 <= MAX_DURATION_NANOS,
{
    match std::time::SystemTime::now().duration_since(std::time::UNIX_EPOCH) {
        Ok(after) => (true, after.as_nanos()),
        Err(before) => (false, before.duration().as_nanos()),
    }
}

/// The signed distance from the Unix epoch of a clock reading: `nanos`
/// after it, or before it where `after` is false.
pub open spec fn signed_nanos(after: bool, nanos: u128) -> int {
    if after {
        nanos as int
    } else {
        -(nanos as int)
    }
}

/// A clock reading as nanoseconds since the Unix epoch, negative before it.
fn nanos_since_epoch(after: bool, nanos: u128) -> (since: i128)
    requires
        nanos <= MAX_DURATION_NANOS,
    ensures
        since == signed_nanos(after, nanos),
{
    if after {
        nanos as i128
    } else {
        -(nanos as i128)
    }
}

/// The current time, in nanoseconds since the Unix epoch. Which time it
/// is depends on the clock; what holds of every reading is stated.
fn now_nanos() -> (now: i128)
    ensures
        -(MAX_DURATION_NANOS as int) <= now <= MAX_DURATION_NANOS,
        exists|after: bool, nanos: u128|
            nanos <= MAX_DURATION_NANOS && now == #[trigger] signed_nanos(after, nanos),
{
    let (after, nanos) = clock();
    nanos_since_epoch(after, nanos)
}

/// Owns the current [`State`] and applies [`Action`]s to it.
#[derive(Debug)]
pub struct Store {
    state: State,
}

impl Store {
    /// What the store holds now.
    pub closed spec fn current(&self) -> SpecState {
        self.state.spec_view()
    }

    /// A store with the sample sessions as seen at `now` (nanoseconds since
    /// the Unix epoch).
    pub fn with_samples(now: i128) -> (store: Store)
        requires
            now - 400 * DAY_SECS * NANOS_PER_SEC >= i128::MIN,
        ensures
            store.current() == sample_state(now),
            newest_first(store.current().sessions),
    {
        let mut sessions: Vec<Session> = Vec::new();
        assert(sessions_view(sessions@) =~= Seq::new(0, |i: int| sample_session(i, now)));
        let mut k: usize = 0;
        while k < 7
            invariant
                k <= 7,
                now - 400 * DAY_SECS * NANOS_PER_SEC >= i128::MIN,
                sessions_view(sessions@) == Seq::new(k as nat, |i: int| sample_session(i, now)),
            decreases 7 - k,
        {
            let (title, age, texts) = sample_script(k);
            let ghost spec_texts = sample_texts(k as int);
            let mut messages: Vec<Message> = Vec::new();
            assert(messages_view(messages@) =~= Seq::new(0, |i: int| sample_message(spec_texts, i)));
            let mut j: usize = 0;
            while j < texts.len()
                invariant
                    j <= texts@.len(),
                    texts@.map_values(|t: &str| t@) == spec_texts,
                    messages_view(messages@) == Seq::new(
                        j as nat,
                        |i: int| sample_message(spec_texts, i),
                    ),
                decreases texts@.len() - j,
            {
                let role = if j % 2 == 0 {
                    Role::User
                } else {
                    Role::Assistant
                };
                let message = Message { role, content: texts[j].to_owned() };
                assert(message@ == sample_message(spec_texts, j as int));
                let ghost before = messages@;
                messages.push(message);
                assert(messages_view(messages@) =~= messages_view(before).push(message@));
                assert(Seq::new((j + 1) as nat, |i: int| sample_message(spec_texts, i)) =~= Seq::new(
                    j as nat,
                    |i: int| sample_message(spec_texts, i),
                ).push(sample_message(spec_texts, j as int)));
                j += 1;
            }
            assert(age <= 400 * DAY_SECS);
            let updated_at = now - (age as i128) * NANOS_PER_SEC;
            let session = Session {
                id: k as u64 + 1,
                title: title.to_owned(),
                model: Model::default(),
                updated_at,
                chat: Chat { messages },
            };
            assert(session@ == sample_session(k as int, now));
            let ghost before = sessions@;
            sessions.push(session);
            assert(sessions_view(sessions@) =~= sessions_view(before).push(session@));
            assert(Seq::new((k + 1) as nat, |i: int| sample_session(i, now)) =~= Seq::new(
                k as nat,
                |i: int| sample_session(i, now),
            ).push(sample_session(k as int, now)));
            k += 1;
        }
        let store = Store { state: State { sessions, views: Vec::new() } };
        assert(store.current().views =~= Seq::<SpecView>::empty());
        assert(store.current() == sample_state(now));
        assert forall|i: int, j: int| 0 <= i < j < 7 implies #[trigger] store.current().sessions[i].updated_at
            >= #[trigger] store.current().sessions[j].updated_at by {
            assert(store.current().sessions[i] == sample_session(i, now));
            assert(store.current().sessions[j] == sample_session(j, now));
        }
        store
    }

    /// A store with sample sessions, until the core can create them; they
    /// are dated as seen at the current time.
    pub fn new() -> (store: Store)
        ensures
            exists|now: i128| store.current() == sample_state(now),
            newest_first(store.current().sessions),
    {
        let now = now_nanos();
        Store::with_samples(now)
    }

    /// A snapshot of the current state.
    pub fn state(&self) -> (state: State)
        ensures
            state.spec_view() == self.current(),
    {
        self.state.clone()
    }

    /// Applies `action` and returns the new state.
    pub fn dispatch(&mut self, action: Action) -> (state: State)
        requires
            reduce_fits(old(self).current(), action@),
        ensures
            final(self).current() == reduced(old(self).current(), action@),
            state.spec_view() == final(self).current(),
    {
        let mut current = State::default();
        std::mem::swap(&mut current, &mut self.state);
        self.state = reduce(current, action);
        self.state.clone()
    }

    /// Opens a view (`Action::OpenView`) and returns its id, for the window
    /// that shows it.
    pub fn open_view(&mut self, session_id: Option<u64>) -> (id: u64)
        requires
            max_id(view_ids(old(self).current().views)) < u64::MAX,
        ensures
            final(self).current() == reduced(
                old(self).current(),
                SpecAction::OpenView { session_id },
            ),
            id == max_id(view_ids(old(self).current().views)) + 1,
            id == final(self).current().views.last().id,
    {
        let mut current = State::default();
        std::mem::swap(&mut current, &mut self.state);
        self.state = reduce(current, Action::OpenView { session_id });
        let n = self.state.views.len();
        self.state.views[n - 1].id
    }

    /// The sessions grouped for the sidebar, by the local calendar day they
    /// were last updated, as seen at `now` (nanoseconds since the Unix
    /// epoch).
    pub fn session_sections(&self, now: i128) -> (sections: Vec<ChatSection>)
        ensures
            exists|time_zone: jiff::tz::TimeZone|
                sectioned(sections_view(sections@), self.current().sessions, now, time_zone),
    {
        let sessions = self.state.sessions.as_slice();
        let sections = session_sections(sessions, now);
        proof {
            let time_zone = choose|time_zone: jiff::tz::TimeZone|
                sectioned(sections_view(sections@), sessions_view(sessions@), now, time_zone);
            assert(sessions_view(sessions@) == self.current().sessions);
            assert(sectioned(sections_view(sections@), self.current().sessions, now, time_zone));
        }
        sections
    }
}

impl Default for Store {
    fn default() -> (store: Store)
        ensures
            exists|now: i128| store.current() == sample_state(now),
    {
        Store::new()
    }
}

} // verus!
