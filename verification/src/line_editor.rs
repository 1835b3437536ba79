//! The one-line text field used to type list names and task descriptions.
//! The cursor sits between two characters and moves one character per key.

use crate::keys::Key;
use crate::text::push_char;
use vstd::prelude::*;

verus! {

/// What the text field is: its text and the cursor's position, counted in
/// characters from the start.
#[verifier::ext_equal]
pub struct EditorView {
    pub text: Seq<char>,
    pub cursor: int,
}

/// What a key press does to the field as a whole.
#[derive(Debug, Clone, Copy, PartialEq, Eq, Structural)]
pub enum EditOutcome {
    /// Keep editing.
    Continue,
    /// The field was abandoned (Esc).
    Cancel,
    /// The text was accepted (Enter).
    Submit,
}

impl EditorView {
    /// The cursor is within the text.
    pub open spec fn wf(self) -> bool {
        0 <= self.cursor <= self.text.len()
    }

    /// Whether `key` can be handled: a character can go in while the text is
    /// shorter than `usize::MAX` characters; every other key can always be handled.
    pub open spec fn accepts(self, key: Key) -> bool {
        match key {
            Key::Char(_) => self.text.len() < usize::MAX,
            _ => true,
        }
    }

    /// The field after `key`: a character goes in at the cursor, which moves
    /// past it; Backspace removes the character before the cursor, if there
    /// is one, and moves it back; Left and Right move it one character, not
    /// past either end; other keys leave the field as it is.
    pub open spec fn after_key(self, key: Key) -> EditorView {
        match key {
            Key::Char(c) => EditorView {
                text: self.text.take(self.cursor) + seq![c] + self.text.skip(self.cursor),
                cursor: self.cursor + 1,
            },
            Key::Backspace => if self.cursor > 0 {
                EditorView {
                    text: self.text.take(self.cursor - 1) + self.text.skip(self.cursor),
                    cursor: self.cursor - 1,
                }
            } else {
                self
            },
            Key::Left => EditorView { cursor: if self.cursor > 0 { self.cursor - 1 } else { 0 }, ..self },
            Key::Right => if self.cursor < self.text.len() {
                EditorView { cursor: self.cursor + 1, ..self }
            } else {
                self
            },
            _ => self,
        }
    }

    /// Esc abandons the field, Enter accepts it, every other key goes on.
    pub open spec fn outcome(key: Key) -> EditOutcome {
        match key {
            Key::Esc => EditOutcome::Cancel,
            Key::Enter => EditOutcome::Submit,
            _ => EditOutcome::Continue,
        }
    }
}

/// The text field: the text typed so far and the cursor's position in characters.
pub struct LineEditor {
    output: String,
    cursor: usize,
}

impl View for LineEditor {
    type V = EditorView;

    closed spec fn view(&self) -> EditorView {
        EditorView { text: self.output@, cursor: self.cursor as int }
    }
}

impl LineEditor {
    /// A field holding `content`, with the cursor after its last character.
    pub fn new(content: String) -> (editor: LineEditor)
        ensures
            editor@.text == content@,
            editor@.cursor == content@.len(),
            editor@.wf(),
    {
        let cursor = content.as_str().unicode_len();
        LineEditor { output: content, cursor }
    }

    /// The text typed so far.
    pub fn text(&self) -> (text: &str)
        ensures
            text@ == self@.text,
    {
        self.output.as_str()
    }

    /// The cursor's position, in characters from the start.
    pub fn cursor(&self) -> (cursor: usize)
        ensures
            cursor == self@.cursor,
    {
        self.cursor
    }

    /// Whether `key` can be handled (see `EditorView::accepts`).
    pub fn accepts(&self, key: Key) -> (ok: bool)
        ensures
            ok == self@.accepts(key),
    {
        match key {
            Key::Char(_) => self.output.as_str().unicode_len() < usize::MAX,
            _ => true,
        }
    }

    /// Handles one key press.
    pub fn handle_key(&mut self, key: Key) -> (outcome: EditOutcome)
        requires
            old(self)@.wf(),
            old(self)@.accepts(key),
        ensures
            final(self)@ == old(self)@.after_key(key),
            final(self)@.wf(),
            outcome == EditorView::outcome(key),
    {
        match key {
            Key::Char(c) => {
                let text = self.output.as_str();
                let n = text.unicode_len();
                let front = text.substring_char(0, self.cursor);
                let back = text.substring_char(self.cursor, n);
                let mut updated = front.to_owned();
                push_char(&mut updated, c);
                updated.append(back);
                self.output = updated;
                self.cursor = self.cursor + 1;
                EditOutcome::Continue
            },
            Key::Backspace => {
                if self.cursor > 0 {
                    let text = self.output.as_str();
                    let n = text.unicode_len();
                    let front = text.substring_char(0, self.cursor - 1);
                    let back = text.substring_char(self.cursor, n);
                    let mut updated = front.to_owned();
                    updated.append(back);
                    self.output = updated;
                    self.cursor = self.cursor - 1;
                }
                EditOutcome::Continue
            },
            Key::Esc => EditOutcome::Cancel,
            Key::Enter => EditOutcome::Submit,
            Key::Left => {
                self.cursor = self.cursor.saturating_sub(1);
                EditOutcome::Continue
            },
            Key::Right => {
                if self.cursor < self.output.as_str().unicode_len() {
                    self.cursor = self.cursor + 1;
                }
                EditOutcome::Continue
            },
            _ => EditOutcome::Continue,
        }
    }
}

/// Typing a character and then Backspace gives back the text and the cursor.
pub proof fn lemma_type_then_erase(field: EditorView, c: char)
    requires
        field.wf(),
    ensures
        field.after_key(Key::Char(c)).after_key(Key::Backspace) == field,
{
    let typed = field.after_key(Key::Char(c));
    assert(typed.text.take(field.cursor) + typed.text.skip(field.cursor + 1) =~= field.text);
    assert(typed.after_key(Key::Backspace) =~= field);
}

/// Left and Right move the cursor by exactly one character, and never past
/// either end, without touching the text; so Left then Right, away from the
/// start, and Right then Left, away from the end, give the field back.
pub proof fn lemma_arrows_step_one_character(field: EditorView)
    requires
        field.wf(),
    ensures
        field.after_key(Key::Right).text == field.text,
        field.after_key(Key::Left).text == field.text,
        field.cursor < field.text.len() ==> field.after_key(Key::Right).cursor == field.cursor + 1,
        field.cursor == field.text.len() ==> field.after_key(Key::Right).cursor == field.cursor,
        field.cursor > 0 ==> field.after_key(Key::Left).cursor == field.cursor - 1,
        field.cursor == 0 ==> field.after_key(Key::Left).cursor == 0,
        field.cursor > 0 ==> field.after_key(Key::Left).after_key(Key::Right) == field,
        field.cursor < field.text.len() ==> field.after_key(Key::Right).after_key(Key::Left) == field,
{
}

/// Typing a character puts it right before the cursor, which moves past it:
/// the text grows by that one character and is otherwise unchanged.
pub proof fn lemma_typing_inserts_at_cursor(field: EditorView, c: char)
    requires
        field.wf(),
    ensures
        field.after_key(Key::Char(c)).text.len() == field.text.len() + 1,
        field.after_key(Key::Char(c)).cursor == field.cursor + 1,
        field.after_key(Key::Char(c)).text[field.cursor] == c,
        forall|j: int| 0 <= j < field.cursor ==> #[trigger] field.after_key(Key::Char(c)).text[j] == field.text[j],
        forall|j: int| field.cursor <= j < field.text.len()
            ==> #[trigger] field.after_key(Key::Char(c)).text[j + 1] == field.text[j],
{
}

/// Backspace removes the one character before the cursor, which moves back
/// onto its place; at the start of the text it does nothing.
pub proof fn lemma_backspace_removes_before_cursor(field: EditorView)
    requires
        field.wf(),
    ensures
        field.cursor == 0 ==> field.after_key(Key::Backspace) == field,
        field.cursor > 0 ==> {
            let after = field.after_key(Key::Backspace);
            &&& after.text.len() == field.text.len() - 1
            &&& after.cursor == field.cursor - 1
            &&& forall|j: int| 0 <= j < field.cursor - 1 ==> #[trigger] after.text[j] == field.text[j]
            &&& forall|j: int| field.cursor - 1 <= j < after.text.len() ==> #[trigger] after.text[j] == field.text[j + 1]
        },
{
}

/// Keys other than characters, Backspace and the arrows leave the field as it
/// is; only Esc and Enter end the editing.
pub proof fn lemma_other_keys_change_nothing(field: EditorView, key: Key)
    requires
        key == Key::Up || key == Key::Down || key == Key::Enter || key == Key::Esc || key == Key::Other,
    ensures
        field.after_key(key) == field,
        EditorView::outcome(key) == EditOutcome::Continue <==> (key != Key::Esc && key != Key::Enter),
        EditorView::outcome(Key::Esc) == EditOutcome::Cancel,
        EditorView::outcome(Key::Enter) == EditOutcome::Submit,
{
}

} // verus!
