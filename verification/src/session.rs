//! The session state machine: a practice session is either typing or
//! finished.  The decision a key event causes is taken here; reading keys
//! and painting frames is the surrounding program's business.

use vstd::prelude::*;

use crate::data::parse_spec;
use crate::data::DataView;
use crate::data::ParseError;
use crate::observer::ObserverHandle;
use crate::text_model::backspace_rel;
use crate::text_model::fresh_model;
use crate::text_model::type_character_rel;
use crate::text_model::TextModel;

verus! {

/// A logical input event: the only things a running session reacts to.
#[derive(Clone, Copy, Debug, PartialEq, Eq, Structural)]
pub enum KeyInput {
    Esc,
    Char(char),
    Backspace,
    Other,
}

/// The terminal state; a finished session stays finished.
pub struct Finished;

/// A running practice session.
pub struct Typing {
    text_model: TextModel,
}

impl Typing {
    pub closed spec fn model_view(self) -> TextModel {
        self.text_model
    }

    /// Starts a session over a raw document: the model is exactly the fresh
    /// model of the parsed document; a document the parser rejects is
    /// rejected unchanged.
    pub fn new(content: &str) -> (r: Result<Typing, ParseError>)
        ensures
            (match r {
                Ok(t) => parse_spec(content@) is Ok && fresh_model(
                    t.model_view(),
                    parse_spec(content@)->Ok_0,
                ),
                Err(e) => parse_spec(content@) == Err::<DataView, ParseError>(e),
            }),
    {
        match TextModel::from_string(content) {
            Ok(text_model) => Ok(Typing { text_model }),
            Err(e) => Err(e),
        }
    }

    /// The model being practised, for rendering.
    pub fn text_model(&self) -> (r: &TextModel)
        ensures
            *r == self.model_view(),
    {
        &self.text_model
    }

    /// Subscribes an observer to the session's typing events.
    pub fn register_observer(&mut self, observer: ObserverHandle)
        ensures
            final(self).model_view().observers_view() == old(
                self,
            ).model_view().observers_view().push(observer),
            final(self).model_view().buffer_view() == old(self).model_view().buffer_view(),
            final(self).model_view().cursor_view() == old(self).model_view().cursor_view(),
            final(self).model_view().events_view() == old(self).model_view().events_view(),
    {
        self.text_model.register_observer(observer);
    }
}

/// The whole session state.
pub enum SessionState {
    Typing(Typing),
    Finished(Finished),
}

impl SessionState {
    pub open spec fn is_finished(self) -> bool {
        self matches SessionState::Finished(_)
    }

    /// Feeds one key event through the session: escape finishes it, a
    /// character key types, backspace erases, anything else changes
    /// nothing; a finished session ignores everything.
    pub fn handle_key(self, key: KeyInput) -> (r: SessionState)
        requires
            self matches SessionState::Typing(t) ==> t.model_view().wf(),
        ensures
            self is Finished ==> r is Finished,
            self matches SessionState::Typing(t) ==> match key {
                KeyInput::Esc => r is Finished,
                KeyInput::Char(c) => r matches SessionState::Typing(t2) && type_character_rel(
                    t.model_view(),
                    t2.model_view(),
                    c,
                ),
                KeyInput::Backspace => r matches SessionState::Typing(t2) && backspace_rel(
                    t.model_view(),
                    t2.model_view(),
                ),
                KeyInput::Other => r matches SessionState::Typing(t2) && t2.model_view()
                    == t.model_view(),
            },
    {
        match self {
            SessionState::Finished(f) => SessionState::Finished(f),
            SessionState::Typing(mut t) => match key {
                KeyInput::Esc => SessionState::Finished(Finished),
                KeyInput::Char(c) => {
                    t.text_model.type_character(c);
                    SessionState::Typing(t)
                },
                KeyInput::Backspace => {
                    t.text_model.backspace();
                    SessionState::Typing(t)
                },
                KeyInput::Other => SessionState::Typing(t),
            },
        }
    }

    /// Whether the surrounding loop should stop.
    pub fn terminate(&self) -> (r: bool)
        ensures
            r == self.is_finished(),
    {
        match self {
            SessionState::Finished(_) => true,
            SessionState::Typing(_) => false,
        }
    }
}

} // verus!
