//! Text-editing logic: a character buffer with a cursor, and the edit each
//! key press applies.  The edge rules are deliberate: a one-character buffer
//! clears outright, and an index off the end pops the last character.

use vstd::prelude::*;
use crate::event::{Key, NamedKey};

verus! {

/// What inserting `new` at `index` leaves: appended when the index runs off
/// the end, spliced in otherwise.
pub open spec fn spec_insert_char(text: Seq<char>, new: char, index: int) -> Seq<char> {
    if index >= text.len() {
        text.push(new)
    } else {
        text.insert(index, new)
    }
}

/// What removing at `index` leaves: a one-character buffer clears outright,
/// an index off the end pops the last character, anything else removes in
/// place.  An empty buffer stays empty.
pub open spec fn spec_remove_char(text: Seq<char>, index: int) -> Seq<char> {
    if text.len() == 1 {
        Seq::empty()
    } else if index >= text.len() {
        if text.len() == 0 {
            text
        } else {
            text.drop_last()
        }
    } else if index < 0 {
        text
    } else {
        text.remove(index)
    }
}

/// Inserts one character at an index (appends when the index runs off the
/// end).
pub fn insert_char(text: &mut Vec<char>, new: char, index: usize)
    ensures
        final(text)@ == spec_insert_char(old(text)@, new, index as int),
{
    if index >= text.len() {
        text.push(new);
    } else {
        text.insert(index, new);
    }
}

/// Removes one character at an index, with the edge rules above.
pub fn remove_char(text: &mut Vec<char>, index: usize)
    ensures
        final(text)@ == spec_remove_char(old(text)@, index as int),
{
    if text.len() == 1 {
        text.clear();
    } else if index >= text.len() {
        if text.len() > 0 {
            text.pop();
        }
    } else {
        text.remove(index);
    }
}

/// A text buffer under edit: its characters and the cursor position, always
/// within `[0, len]`.
#[derive(Clone, Debug)]
pub struct TextEditor {
    pub content: Vec<char>,
    pub cursor: usize,
}

/// What one key press does to (content, cursor).  Enter and Space insert
/// their character and advance; Backspace and Delete remove the character at
/// the cursor index and step the cursor back (never below zero); a character
/// key inserts itself and advances.
pub open spec fn spec_apply_edit(text: Seq<char>, cursor: int, key: Key) -> (Seq<char>, int) {
    match key {
        Key::Named(NamedKey::Enter) => (spec_insert_char(text, '\n', cursor), cursor + 1),
        Key::Named(NamedKey::Space) => (spec_insert_char(text, ' ', cursor), cursor + 1),
        Key::Named(NamedKey::Backspace) | Key::Named(NamedKey::Delete) => (
            spec_remove_char(text, cursor),
            if cursor >= 1 {
                cursor - 1
            } else {
                0
            },
        ),
        Key::Character(c) => (spec_insert_char(text, c, cursor), cursor + 1),
    }
}

impl TextEditor {
    /// The cursor never leaves the buffer.
    pub open spec fn inv(self) -> bool {
        self.cursor <= self.content@.len()
    }

    /// A buffer with the cursor at the end.
    pub fn new(content: Vec<char>) -> (r: TextEditor)
        ensures
            r.content@ == content@,
            r.cursor == content@.len(),
            r.inv(),
    {
        let cursor = content.len();
        TextEditor { content, cursor }
    }

    /// Applies one key press at the cursor.
    pub fn apply_edit(&mut self, key: &Key)
        requires
            old(self).inv(),
            old(self).content@.len() < usize::MAX,
        ensures
            (final(self).content@, final(self).cursor as int) == spec_apply_edit(
                old(self).content@,
                old(self).cursor as int,
                *key,
            ),
            final(self).inv(),
    {
        match key {
            Key::Named(NamedKey::Enter) => {
                insert_char(&mut self.content, '\n', self.cursor);
                self.cursor = self.cursor + 1;
            },
            Key::Named(NamedKey::Space) => {
                insert_char(&mut self.content, ' ', self.cursor);
                self.cursor = self.cursor + 1;
            },
            Key::Named(NamedKey::Backspace) | Key::Named(NamedKey::Delete) => {
                remove_char(&mut self.content, self.cursor);
                self.cursor = if self.cursor >= 1 {
                    self.cursor - 1
                } else {
                    0
                };
            },
            Key::Character(c) => {
                insert_char(&mut self.content, *c, self.cursor);
                self.cursor = self.cursor + 1;
            },
        }
    }

    /// Moves the cursor to an arbitrary position, clamped into the buffer.
    pub fn set_cursor(&mut self, at: usize)
        ensures
            final(self).content@ == old(self).content@,
            final(self).cursor == if at <= old(self).content@.len() {
                at as int
            } else {
                old(self).content@.len() as int
            },
            final(self).inv(),
    {
        self.cursor = if at <= self.content.len() {
            at
        } else {
            self.content.len()
        };
    }
}

} // verus!
