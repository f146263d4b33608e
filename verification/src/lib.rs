//! Business logic for Miracle, shared by every platform shell.
//!
//! The core follows a unidirectional data flow: a shell sends an
//! [`Action`] to [`Store::dispatch`], which applies [`reduce`] to the
//! current [`State`], and the shell renders the state that comes back.

mod calendar;
mod changes;
mod laws;
mod reducer;
mod samples;
mod section;
mod state;
mod store;
mod text;
mod types;

pub use changes::state_changes;
pub use reducer::{ids_fit, reduce};
pub use section::{
    group_by_period, local_date, period, period_after, period_title, sections_in, session_sections, ChatSection,
    ChatSummary, CivilDate, Period,
};
pub use store::Store;
pub use text::{decimal_string, title_from, trimmed};
pub use types::{Action, Chat, Message, Model, Role, Session, SessionViewState, State};
