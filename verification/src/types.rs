//! Plain data: the state a shell renders and the actions it sends, each
//! with its mathematical view.

use vstd::prelude::*;

verus! {

/// A model that a [`Session`] uses.
#[derive(Clone, Copy, Debug, PartialEq, Eq, Structural)]
pub enum Model {
    Opus5_5,
    Sonnet5,
    Haiku4_5,
}

/// The id of each model, as the API names it after the vendor prefix.
pub open spec fn model_api_id(model: Model) -> Seq<char> {
    match model {
        Model::Opus5_5 => "opus-5-5"@,
        Model::Sonnet5 => "sonnet-5"@,
        Model::Haiku4_5 => "haiku-4-5"@,
    }
}

impl Model {
    /// Every model, in the order shells list them.
    pub const ALL: [Model; 3] = [Model::Opus5_5, Model::Sonnet5, Model::Haiku4_5];

    /// The API id.
    pub fn id(self) -> (id: &'static str)
        ensures
            id@ == model_api_id(self),
    {
        match self {
            Model::Opus5_5 => "opus-5-5",
            Model::Sonnet5 => "sonnet-5",
            Model::Haiku4_5 => "haiku-4-5",
        }
    }
}

impl Default for Model {
    /// Sessions start on the first model of [`Model::ALL`].
    fn default() -> (model: Model)
        ensures
            model == Model::Opus5_5,
    {
        Model::Opus5_5
    }
}

/// Who wrote a [`Message`].
#[derive(Clone, Copy, Debug, PartialEq, Eq, Structural)]
pub enum Role {
    User,
    Assistant,
}

/// One message of a [`Chat`].
#[derive(Debug, PartialEq, Eq)]
pub struct Message {
    pub role: Role,
    pub content: String,
}

/// What a [`Message`] is: its role and its text.
pub struct SpecMessage {
    pub role: Role,
    pub content: Seq<char>,
}

impl View for Message {
    type V = SpecMessage;

    open spec fn view(&self) -> SpecMessage {
        SpecMessage { role: self.role, content: self.content@ }
    }
}

impl Clone for Message {
    fn clone(&self) -> (message: Self)
        ensures
            message@ == self@,
    {
        Message { role: self.role, content: self.content.clone() }
    }
}

/// The conversation of a [`Session`].
#[derive(Debug, PartialEq, Eq)]
pub struct Chat {
    /// Oldest first.
    pub messages: Vec<Message>,
}

/// The messages of `v`, each by its view.
pub open spec fn messages_view(v: Seq<Message>) -> Seq<SpecMessage> {
    v.map_values(|m: Message| m@)
}

impl View for Chat {
    type V = Seq<SpecMessage>;

    open spec fn view(&self) -> Seq<SpecMessage> {
        messages_view(self.messages@)
    }
}

impl Clone for Chat {
    fn clone(&self) -> (chat: Self)
        ensures
            chat@ == self@,
    {
        let mut messages: Vec<Message> = Vec::new();
        for i in 0..self.messages.len()
            invariant
                messages@.len() == i,
                forall|j: int| 0 <= j < i ==> #[trigger] messages@[j]@ == self.messages@[j]@,
        {
            messages.push(self.messages[i].clone());
        }
        let chat = Chat { messages };
        assert(chat@ =~= self@);
        chat
    }
}

impl Default for Chat {
    fn default() -> (chat: Chat)
        ensures
            chat@ == Seq::<SpecMessage>::empty(),
    {
        let chat = Chat { messages: Vec::new() };
        assert(chat@ =~= Seq::<SpecMessage>::empty());
        chat
    }
}

/// One unit of work, shown in the sidebar by its title.
///
/// Times are nanoseconds since the Unix epoch, negative before it.
#[derive(Debug, PartialEq, Eq)]
pub struct Session {
    pub id: u64,
    pub title: String,
    pub model: Model,
    /// When the session last changed. Shells group sessions by this date.
    pub updated_at: i128,
    pub chat: Chat,
}

/// What a [`Session`] is.
pub struct SpecSession {
    pub id: u64,
    pub title: Seq<char>,
    pub model: Model,
    pub updated_at: i128,
    pub messages: Seq<SpecMessage>,
}

impl View for Session {
    type V = SpecSession;

    open spec fn view(&self) -> SpecSession {
        SpecSession {
            id: self.id,
            title: self.title@,
            model: self.model,
            updated_at: self.updated_at,
            messages: self.chat@,
        }
    }
}

impl Clone for Session {
    fn clone(&self) -> (session: Self)
        ensures
            session@ == self@,
    {
        Session {
            id: self.id,
            title: self.title.clone(),
            model: self.model,
            updated_at: self.updated_at,
            chat: self.chat.clone(),
        }
    }
}

/// What one window shows: a session, or a new session that its first
/// message creates, and the unsent text. Any number of views can show the
/// same session; they share its chat and keep their own drafts.
#[derive(Debug, PartialEq, Eq)]
pub struct SessionViewState {
    pub id: u64,
    /// The [`Session::id`] shown, or `None` for a new session.
    pub session_id: Option<u64>,
    /// The unsent text in the composer.
    pub draft: String,
}

/// What a [`SessionViewState`] is.
pub struct SpecView {
    pub id: u64,
    pub session_id: Option<u64>,
    pub draft: Seq<char>,
}

impl View for SessionViewState {
    type V = SpecView;

    open spec fn view(&self) -> SpecView {
        SpecView { id: self.id, session_id: self.session_id, draft: self.draft@ }
    }
}

impl Clone for SessionViewState {
    fn clone(&self) -> (view: Self)
        ensures
            view@ == self@,
    {
        SessionViewState { id: self.id, session_id: self.session_id, draft: self.draft.clone() }
    }
}

impl Default for SessionViewState {
    /// View 0, on a new session, with an empty draft.
    fn default() -> (view: SessionViewState)
        ensures
            view@ == (SpecView { id: 0, session_id: None, draft: Seq::empty() }),
    {
        SessionViewState { id: 0, session_id: None, draft: String::new() }
    }
}

/// Everything a shell needs to render.
#[derive(Debug, PartialEq, Eq)]
pub struct State {
    /// Newest first, by [`Session::updated_at`].
    pub sessions: Vec<Session>,
    /// One per open window, in the order they opened.
    pub views: Vec<SessionViewState>,
}

/// What a [`State`] is.
pub struct SpecState {
    pub sessions: Seq<SpecSession>,
    pub views: Seq<SpecView>,
}

pub open spec fn sessions_view(v: Seq<Session>) -> Seq<SpecSession> {
    v.map_values(|s: Session| s@)
}

pub open spec fn views_view(v: Seq<SessionViewState>) -> Seq<SpecView> {
    v.map_values(|w: SessionViewState| w@)
}

impl State {
    /// What this state is. (`State::view` finds a view by id, so this view
    /// has its own name.)
    pub open spec fn spec_view(&self) -> SpecState {
        SpecState { sessions: sessions_view(self.sessions@), views: views_view(self.views@) }
    }
}

impl Clone for State {
    fn clone(&self) -> (state: Self)
        ensures
            state.spec_view() == self.spec_view(),
    {
        let mut sessions: Vec<Session> = Vec::new();
        for i in 0..self.sessions.len()
            invariant
                sessions@.len() == i,
                forall|j: int| 0 <= j < i ==> #[trigger] sessions@[j]@ == self.sessions@[j]@,
        {
            sessions.push(self.sessions[i].clone());
        }
        let mut views: Vec<SessionViewState> = Vec::new();
        for i in 0..self.views.len()
            invariant
                views@.len() == i,
                forall|j: int| 0 <= j < i ==> #[trigger] views@[j]@ == self.views@[j]@,
        {
            views.push(self.views[i].clone());
        }
        let state = State { sessions, views };
        assert(state.spec_view().sessions =~= self.spec_view().sessions);
        assert(state.spec_view().views =~= self.spec_view().views);
        state
    }
}

impl Default for State {
    /// No sessions and no views.
    fn default() -> (state: State)
        ensures
            state.spec_view().sessions == Seq::<SpecSession>::empty(),
            state.spec_view().views == Seq::<SpecView>::empty(),
    {
        let state = State { sessions: Vec::new(), views: Vec::new() };
        assert(state.spec_view().sessions =~= Seq::<SpecSession>::empty());
        assert(state.spec_view().views =~= Seq::<SpecView>::empty());
        state
    }
}

/// Every user intent a shell can send to the core. The shell gives the
/// time, so [`crate::reduce`] stays pure.
#[derive(Debug, PartialEq, Eq)]
#[allow(inconsistent_fields)]
pub enum Action {
    /// Opens a view on the session, or on a new session for `None`.
    OpenView { session_id: Option<u64> },
    /// Closes the view, when its window closes.
    CloseView { view_id: u64 },
    /// Shows the session in the view, or a new session for `None`. The
    /// draft stays.
    ShowSession { view_id: u64, session_id: Option<u64> },
    /// Switches the session to `model`.
    SetModel { session_id: u64, model: Model },
    /// Replaces the view's unsent text.
    EditDraft { view_id: u64, text: String },
    /// Sends the view's draft as a user message and clears the draft. The
    /// session moves to the top; a new session is created by its first
    /// message. `sent_at` is in nanoseconds since the Unix epoch.
    SendMessage { view_id: u64, sent_at: i128 },
}

impl Clone for Action {
    fn clone(&self) -> (action: Self)
        ensures
            action@ == self@,
    {
        match self {
            Action::OpenView { session_id } => Action::OpenView { session_id: *session_id },
            Action::CloseView { view_id } => Action::CloseView { view_id: *view_id },
            Action::ShowSession { view_id, session_id } => Action::ShowSession {
                view_id: *view_id,
                session_id: *session_id,
            },
            Action::SetModel { session_id, model } => Action::SetModel {
                session_id: *session_id,
                model: *model,
            },
            Action::EditDraft { view_id, text } => Action::EditDraft {
                view_id: *view_id,
                text: text.clone(),
            },
            Action::SendMessage { view_id, sent_at } => Action::SendMessage {
                view_id: *view_id,
                sent_at: *sent_at,
            },
        }
    }
}

/// What an [`Action`] is.
#[allow(inconsistent_fields)]
pub enum SpecAction {
    OpenView { session_id: Option<u64> },
    CloseView { view_id: u64 },
    ShowSession { view_id: u64, session_id: Option<u64> },
    SetModel { session_id: u64, model: Model },
    EditDraft { view_id: u64, text: Seq<char> },
    SendMessage { view_id: u64, sent_at: i128 },
}

impl View for Action {
    type V = SpecAction;

    open spec fn view(&self) -> SpecAction {
        match self {
            Action::OpenView { session_id } => SpecAction::OpenView { session_id: *session_id },
            Action::CloseView { view_id } => SpecAction::CloseView { view_id: *view_id },
            Action::ShowSession { view_id, session_id } => SpecAction::ShowSession {
                view_id: *view_id,
                session_id: *session_id,
            },
            Action::SetModel { session_id, model } => SpecAction::SetModel {
                session_id: *session_id,
                model: *model,
            },
            Action::EditDraft { view_id, text } => SpecAction::EditDraft {
                view_id: *view_id,
                text: text@,
            },
            Action::SendMessage { view_id, sent_at } => SpecAction::SendMessage {
                view_id: *view_id,
                sent_at: *sent_at,
            },
        }
    }
}

} // verus!
