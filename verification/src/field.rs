//! The focusable-field state machine: Default, Hover, Focus and Error, an
//! external error flag, and the focus broadcast that keeps at most one field
//! focused — every field with a different identity relinquishes Focus to
//! Default, or to Error while its flag is set.

use vstd::prelude::*;
use crate::event::{InputFieldEvent, MouseEvent, MouseState};
use crate::ids::ElementID;

verus! {

/// The interaction states of a focusable field.
#[derive(Clone, Copy, Debug, PartialEq, Eq, Hash, Structural)]
pub enum InputState {
    Default,
    Hover,
    Focus,
    Error,
}

/// Where an unfocused, unhovered field rests: Error outranks Default while
/// the error flag is set.
pub open spec fn rest_state(has_error: bool) -> InputState {
    if has_error {
        InputState::Error
    } else {
        InputState::Default
    }
}

/// What one pointer event does to a field: the next state, whether to ask
/// for the software keyboard, and the focus broadcast to send, if any.
pub open spec fn spec_field_step(
    s: InputState,
    has_error: bool,
    mobile: bool,
    id: ElementID,
    e: MouseEvent,
) -> (InputState, bool, Option<InputFieldEvent>) {
    match s {
        InputState::Default => match (e.state, e.position) {
            (MouseState::Pressed, Option::Some(_)) => (
                InputState::Focus,
                true,
                Option::Some(InputFieldEvent::Select(id)),
            ),
            (MouseState::Moved, Option::Some(_)) => (InputState::Hover, false, Option::None),
            _ => (s, false, Option::None),
        },
        InputState::Hover => match (e.state, e.position) {
            (MouseState::Pressed, Option::Some(_)) => (
                InputState::Focus,
                true,
                Option::Some(InputFieldEvent::Select(id)),
            ),
            (MouseState::Moved, Option::None) => (rest_state(has_error), false, Option::None),
            _ => (s, false, Option::None),
        },
        InputState::Focus => match (e.state, e.position) {
            (MouseState::Pressed, Option::None) => if !mobile {
                (rest_state(has_error), false, Option::Some(InputFieldEvent::Deselect(id)))
            } else {
                (s, false, Option::None)
            },
            _ => (s, false, Option::None),
        },
        InputState::Error => match (e.state, e.position) {
            (MouseState::Pressed, Option::Some(_)) => (InputState::Focus, false, Option::None),
            (MouseState::Moved, Option::Some(_)) => (InputState::Hover, false, Option::None),
            _ => (s, false, Option::None),
        },
    }
}

/// A focusable field: its state, identity, external error flag, and the
/// platform capability that decides whether clicking elsewhere blurs it.
#[derive(Clone, Copy, Debug)]
pub struct InputField {
    pub state: InputState,
    pub id: ElementID,
    pub has_error: bool,
    pub mobile: bool,
}

impl InputField {
    /// A fresh field, at rest, without an error.
    pub fn new(id: ElementID, mobile: bool) -> (r: InputField)
        ensures
            r == (InputField { state: InputState::Default, id, has_error: false, mobile }),
    {
        InputField { state: InputState::Default, id, has_error: false, mobile }
    }

    /// Sets or clears the external error flag; the state snaps to the
    /// matching rest state so the right skin shows at once.
    pub fn error(&mut self, is_errored: bool)
        ensures
            final(self).has_error == is_errored,
            final(self).state == rest_state(is_errored),
            final(self).id == old(self).id && final(self).mobile == old(self).mobile,
    {
        self.has_error = is_errored;
        self.state = if is_errored {
            InputState::Error
        } else {
            InputState::Default
        };
    }

    /// Feeds one pointer event through.  Returns whether to ask for the
    /// software keyboard, and the focus broadcast to send on, if any.
    pub fn handle(&mut self, e: &MouseEvent) -> (r: (bool, Option<InputFieldEvent>))
        ensures
            (final(self).state, r.0, r.1) == spec_field_step(
                old(self).state,
                old(self).has_error,
                old(self).mobile,
                old(self).id,
                *e,
            ),
            final(self).id == old(self).id && final(self).has_error == old(self).has_error
                && final(self).mobile == old(self).mobile,
    {
        let rest = if self.has_error {
            InputState::Error
        } else {
            InputState::Default
        };
        match self.state {
            InputState::Default => match (e.state, e.position) {
                (MouseState::Pressed, Option::Some(_)) => {
                    self.state = InputState::Focus;
                    (true, Option::Some(InputFieldEvent::Select(self.id)))
                },
                (MouseState::Moved, Option::Some(_)) => {
                    self.state = InputState::Hover;
                    (false, Option::None)
                },
                _ => (false, Option::None),
            },
            InputState::Hover => match (e.state, e.position) {
                (MouseState::Pressed, Option::Some(_)) => {
                    self.state = InputState::Focus;
                    (true, Option::Some(InputFieldEvent::Select(self.id)))
                },
                (MouseState::Moved, Option::None) => {
                    self.state = rest;
                    (false, Option::None)
                },
                _ => (false, Option::None),
            },
            InputState::Focus => match (e.state, e.position) {
                (MouseState::Pressed, Option::None) => {
                    if !self.mobile {
                        self.state = rest;
                        (false, Option::Some(InputFieldEvent::Deselect(self.id)))
                    } else {
                        (false, Option::None)
                    }
                },
                _ => (false, Option::None),
            },
            InputState::Error => match (e.state, e.position) {
                (MouseState::Pressed, Option::Some(_)) => {
                    self.state = InputState::Focus;
                    (false, Option::None)
                },
                (MouseState::Moved, Option::Some(_)) => {
                    self.state = InputState::Hover;
                    (false, Option::None)
                },
                _ => (false, Option::None),
            },
        }
    }

    /// What a focus broadcast does to this field: its own selection focuses
    /// it; another identity's selection makes it relinquish Focus to its
    /// rest state; a deselection of its own identity does the same.
    pub open spec fn spec_apply_focus(self, ev: InputFieldEvent) -> InputState {
        match ev {
            InputFieldEvent::Select(other) => if other == self.id {
                InputState::Focus
            } else if self.state is Focus {
                rest_state(self.has_error)
            } else {
                self.state
            },
            InputFieldEvent::Deselect(other) => if other == self.id && self.state is Focus {
                rest_state(self.has_error)
            } else {
                self.state
            },
        }
    }

    /// Receives a focus broadcast.
    pub fn apply_focus(&mut self, ev: &InputFieldEvent)
        ensures
            final(self).state == old(self).spec_apply_focus(*ev),
            final(self).id == old(self).id && final(self).has_error == old(self).has_error
                && final(self).mobile == old(self).mobile,
    {
        match ev {
            InputFieldEvent::Select(other) => {
                if other.raw == self.id.raw {
                    self.state = InputState::Focus;
                } else if matches!(self.state, InputState::Focus) {
                    self.state = if self.has_error {
                        InputState::Error
                    } else {
                        InputState::Default
                    };
                }
            },
            InputFieldEvent::Deselect(other) => {
                if other.raw == self.id.raw && matches!(self.state, InputState::Focus) {
                    self.state = if self.has_error {
                        InputState::Error
                    } else {
                        InputState::Default
                    };
                }
            },
        }
    }

    /// Which of the four skins shows: exactly the one matching the state.
    pub fn skin_flags(&self) -> (r: (bool, bool, bool, bool))
        ensures
            r.0 == (self.state is Default),
            r.1 == (self.state is Hover),
            r.2 == (self.state is Focus),
            r.3 == (self.state is Error),
    {
        (
            matches!(self.state, InputState::Default),
            matches!(self.state, InputState::Hover),
            matches!(self.state, InputState::Focus),
            matches!(self.state, InputState::Error),
        )
    }
}

/// The editable content behind an input field: the text under edit, the
/// focus flag the broadcasts drive, and whether a submit hook is attached.
#[derive(Clone, Debug)]
pub struct InputContent {
    pub editor: crate::editor::TextEditor,
    pub is_focused: bool,
    pub has_submit: bool,
}

impl InputContent {
    /// Fresh content with the cursor at the end.
    pub fn new(value: Vec<char>, has_submit: bool) -> (r: InputContent)
        ensures
            r.editor.content@ == value@,
            !r.is_focused,
            r.has_submit == has_submit,
            r.editor.inv(),
    {
        InputContent { editor: crate::editor::TextEditor::new(value), is_focused: false, has_submit }
    }

    /// Follows a focus change reported by the field.
    pub fn set_focus(&mut self, focused: bool)
        ensures
            final(self).is_focused == focused,
            final(self).editor == old(self).editor,
            final(self).has_submit == old(self).has_submit,
    {
        self.is_focused = focused;
    }

    /// Which of the two content skins shows: the editor whenever the field
    /// is focused or holds text, the placeholder only while unfocused and
    /// empty.
    pub fn display_flags(&self) -> (r: (bool, bool))
        ensures
            r.0 == (self.is_focused || self.editor.content@.len() > 0),
            r.1 == (!self.is_focused && self.editor.content@.len() == 0),
            r.0 == !r.1,
    {
        if self.is_focused {
            (true, false)
        } else {
            let empty = self.editor.content.len() == 0;
            (!empty, empty)
        }
    }

    /// The text cursor shows exactly while the field is focused.
    pub fn cursor_shown(&self) -> (r: bool)
        ensures
            r == self.is_focused,
    {
        self.is_focused
    }

    /// A submit request reaches the hook exactly when one is attached.
    pub fn submit(&self) -> (r: bool)
        ensures
            r == self.has_submit,
    {
        self.has_submit
    }
}

/// Focus exclusivity under a selection broadcast: the chosen field ends in
/// Focus, and every field with a different identity ends out of Focus —
/// whatever states they all started in.
pub proof fn lemma_focus_exclusive(f: InputField, chosen: ElementID)
    ensures
        f.id == chosen ==> f.spec_apply_focus(InputFieldEvent::Select(chosen)) is Focus,
        f.id != chosen ==> !(f.spec_apply_focus(InputFieldEvent::Select(chosen)) is Focus),
{
}

} // verus!
