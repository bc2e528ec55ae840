//! The editing state and what each input event does to it.

use crate::text::{
    byte_len, chars_of, displacement, last_line_len, line_byte_len, nth_line,
    row_displacement, strip_returns, without_returns,
};
use vstd::prelude::*;

verus! {

/// Whether keys are typed into the text or read as commands.
#[derive(Clone, Copy, Debug, PartialEq, Eq, Structural)]
pub enum EditorMode {
    Insert,
    Normal,
}

/// The keys that the editor tells apart.
#[derive(Clone, Copy, Debug, PartialEq, Eq, Structural)]
pub enum Key {
    Escape,
    Left,
    Backspace,
    Return,
    I,
    C,
    V,
    F,
    Other,
}

/// An input event as the window system reports it, cut down to what the
/// editor reads.
#[derive(Debug)]
pub enum InputEvent {
    /// The window is to be closed.
    Quit,
    /// A key went down, with the modifier keys held at that moment as a set
    /// of bits.
    KeyDown { key: Option<Key>, modifiers: u16 },
    /// Text was entered.
    TextInput { text: String },
    /// Anything else.
    Other,
}

/// What the surroundings are to do after an event.
#[derive(Clone, Copy, Debug, PartialEq, Eq, Structural)]
pub enum EditorAction {
    Nothing,
    /// Put the whole text on the clipboard.
    CopyText,
    /// Fetch the clipboard's text and hand it to `push_str`.
    PasteText,
    /// Print the fonts on offer.
    PrintFonts,
}

/// The modifier bits of the two control keys.
pub const CTRL_MOD: u16 = 0x00C0;

/// A key together with the modifier keys that may be held with it.
#[derive(Clone, Copy, Debug, PartialEq, Eq, Structural)]
pub struct KeyBind {
    pub key: Key,
    pub modifier: u16,
}

impl KeyBind {
    /// The binding of a key with a control key.
    pub fn ctrl(key: Key) -> (bind: KeyBind)
        ensures
            bind == (KeyBind { key, modifier: CTRL_MOD }),
    {
        KeyBind { key, modifier: CTRL_MOD }
    }

    /// Whether an event is this binding's: the key went down, and no
    /// modifier was held but those of the binding.
    pub open spec fn matches(self, event: InputEvent) -> bool {
        match event {
            InputEvent::KeyDown { key: Some(key), modifiers } => key == self.key && self.modifier
                & modifiers == modifiers,
            _ => false,
        }
    }

    /// Whether an event is this binding's.
    pub fn is_pressed(&self, event: &InputEvent) -> (pressed: bool)
        ensures
            pressed == self.matches(*event),
    {
        match event {
            InputEvent::KeyDown { key: Some(key), modifiers } => *key == self.key && self.modifier
                & *modifiers == *modifiers,
            _ => false,
        }
    }
}

/// Copies the whole text to the clipboard.
pub open spec fn insert_copy() -> KeyBind {
    KeyBind { key: Key::C, modifier: CTRL_MOD }
}

/// Pastes the clipboard's text.
pub open spec fn insert_paste() -> KeyBind {
    KeyBind { key: Key::V, modifier: CTRL_MOD }
}

/// Prints the fonts on offer.
pub open spec fn insert_print_fonts() -> KeyBind {
    KeyBind { key: Key::F, modifier: CTRL_MOD }
}

/// What the editor knows between two frames: the text, the cursor, the mode.
#[derive(Debug, PartialEq, Eq)]
pub struct LogicState {
    pub exit: bool,
    /// The text being edited; lines end with a line feed.
    pub text_buffer: String,
    pub line_count: usize,
    pub cursor_col: usize,
    pub cursor_row: usize,
    pub mode: EditorMode,
}

/// The editing state as mathematics: the text as a sequence of characters,
/// the counters as integers without bounds.
pub struct LogicModel {
    pub exit: bool,
    pub text: Seq<char>,
    pub line_count: int,
    pub cursor_col: int,
    pub cursor_row: int,
    pub mode: EditorMode,
}

impl LogicModel {
    /// Whether the counters can be held in a machine word.
    pub open spec fn fits(self) -> bool {
        &&& 0 <= self.line_count <= usize::MAX
        &&& 0 <= self.cursor_col <= usize::MAX
        &&& 0 <= self.cursor_row <= usize::MAX
    }

    /// The state after a text was typed or pasted. Carriage returns are left
    /// out. The cursor moves down one row for each line of the text after its
    /// first, and right by the length of its last line, from the left edge
    /// if it moved down.
    pub open spec fn typed(self, text: Seq<char>) -> LogicModel {
        let new = without_returns(text);
        let rows = row_displacement(new);
        LogicModel {
            text: self.text + new,
            cursor_col: (if rows > 0 {
                0
            } else {
                self.cursor_col
            }) + last_line_len(new),
            cursor_row: self.cursor_row + rows,
            ..self
        }
    }

    /// The state after the cursor moved left: by one column, or, from the
    /// left edge, to the end of the line above, measured in bytes; to the
    /// start of the text where there is no such line.
    pub open spec fn moved_left(self) -> LogicModel {
        if self.cursor_col == 0 {
            let row = if self.cursor_row > 0 {
                self.cursor_row - 1
            } else {
                0
            };
            match nth_line(self.text, row as nat) {
                Some(line) => LogicModel { cursor_row: row, cursor_col: byte_len(line) as int, ..self },
                None => LogicModel { cursor_row: 0, cursor_col: 0, ..self },
            }
        } else {
            LogicModel { cursor_col: self.cursor_col - 1, ..self }
        }
    }

    /// The state after the last character was erased. The cursor moves one
    /// column left; where a line feed was erased, there is one line less and
    /// the cursor moves one row up. An empty text stays as it is.
    pub open spec fn erased(self) -> LogicModel {
        if self.text.len() == 0 {
            self
        } else if self.text.last() == '\n' {
            LogicModel {
                text: self.text.drop_last(),
                cursor_col: self.cursor_col - 1,
                line_count: self.line_count - 1,
                cursor_row: self.cursor_row - 1,
                ..self
            }
        } else {
            LogicModel { text: self.text.drop_last(), cursor_col: self.cursor_col - 1, ..self }
        }
    }

    /// The state after a line was broken: a line feed more, a line more, and
    /// the cursor at the start of the next row.
    pub open spec fn broken(self) -> LogicModel {
        LogicModel {
            text: self.text.push('\n'),
            line_count: self.line_count + 1,
            cursor_col: 0,
            cursor_row: self.cursor_row + 1,
            ..self
        }
    }

    /// The state after an event in normal mode.
    pub open spec fn normal_step(self, event: InputEvent) -> LogicModel {
        match event {
            InputEvent::Quit => LogicModel { exit: true, ..self },
            InputEvent::KeyDown { key: Some(Key::I), .. } => LogicModel {
                mode: EditorMode::Insert,
                ..self
            },
            _ => self,
        }
    }

    /// The state after an event in insert mode.
    pub open spec fn insert_step(self, event: InputEvent) -> LogicModel {
        match event {
            InputEvent::Quit => LogicModel { exit: true, ..self },
            InputEvent::KeyDown { key: Some(Key::Escape), .. } => LogicModel {
                mode: EditorMode::Normal,
                ..self
            },
            InputEvent::KeyDown { key: Some(Key::Left), .. } => self.moved_left(),
            InputEvent::KeyDown { key: Some(Key::Backspace), .. } => self.erased(),
            InputEvent::KeyDown { key: Some(Key::Return), .. } => self.broken(),
            InputEvent::TextInput { text } => self.typed(text@),
            _ => self,
        }
    }
}

/// What the surroundings are to do after an event in insert mode.
pub open spec fn insert_action(event: InputEvent) -> EditorAction {
    if insert_copy().matches(event) {
        EditorAction::CopyText
    } else if insert_paste().matches(event) {
        EditorAction::PasteText
    } else if insert_print_fonts().matches(event) {
        EditorAction::PrintFonts
    } else {
        EditorAction::Nothing
    }
}

impl View for LogicState {
    type V = LogicModel;

    open spec fn view(&self) -> LogicModel {
        LogicModel {
            exit: self.exit,
            text: self.text_buffer@,
            line_count: self.line_count as int,
            cursor_col: self.cursor_col as int,
            cursor_row: self.cursor_row as int,
            mode: self.mode,
        }
    }
}

impl Clone for LogicState {
    fn clone(&self) -> (copy: LogicState)
        ensures
            copy@ == self@,
    {
        LogicState {
            exit: self.exit,
            text_buffer: self.text_buffer.clone(),
            line_count: self.line_count,
            cursor_col: self.cursor_col,
            cursor_row: self.cursor_row,
            mode: self.mode,
        }
    }
}

impl LogicState {
    /// The state that the editor starts in: no text, normal mode.
    pub fn new() -> (state: LogicState)
        ensures
            state@ == (LogicModel {
                exit: false,
                text: Seq::empty(),
                line_count: 0,
                cursor_col: 0,
                cursor_row: 0,
                mode: EditorMode::Normal,
            }),
    {
        LogicState {
            exit: false,
            text_buffer: String::new(),
            line_count: 0,
            cursor_col: 0,
            cursor_row: 0,
            mode: EditorMode::Normal,
        }
    }

    /// Whether `push_str` can take the text without a counter running over.
    pub fn can_push(&self, s: &str) -> (fits: bool)
        ensures
            fits == self@.typed(s@).fits(),
    {
        let chars = chars_of(s);
        let new = strip_returns(chars.as_slice());
        let (rows, columns) = displacement(new.as_slice());
        let from: usize = if rows > 0 {
            0
        } else {
            self.cursor_col
        };
        columns <= usize::MAX - from && rows <= usize::MAX - self.cursor_row
    }

    /// Appends a text at the end of the buffer and moves the cursor past it.
    pub fn push_str(&mut self, s: &str)
        requires
            old(self)@.typed(s@).fits(),
        ensures
            final(self)@ == old(self)@.typed(s@),
    {
        let chars = chars_of(s);
        let new = strip_returns(chars.as_slice());
        let mut i: usize = 0;
        while i < new.len()
            invariant
                i <= new.len(),
                self.text_buffer@ == old(self).text_buffer@ + new@.take(i as int),
                self.exit == old(self).exit,
                self.line_count == old(self).line_count,
                self.cursor_col == old(self).cursor_col,
                self.cursor_row == old(self).cursor_row,
                self.mode == old(self).mode,
            decreases new.len() - i,
        {
            self.text_buffer.push(new[i]);
            i += 1;
            assert(self.text_buffer@ =~= old(self).text_buffer@ + new@.take(i as int));
        }
        assert(new@.take(new@.len() as int) =~= new@);
        let (rows, columns) = displacement(new.as_slice());
        if rows > 0 {
            self.cursor_col = 0;
        }
        self.cursor_col += columns;
        self.cursor_row += rows;
    }

    /// Takes one input event in normal mode.
    pub fn handle_event_normal(&mut self, event: &InputEvent)
        ensures
            final(self)@ == old(self)@.normal_step(*event),
    {
        match event {
            InputEvent::Quit => {
                self.exit = true;
            },
            InputEvent::KeyDown { key: Some(Key::I), .. } => {
                self.mode = EditorMode::Insert;
            },
            _ => {},
        }
    }

    /// Whether `handle_event_insert` can take the event without a counter
    /// running over or under.
    pub fn accepts(&self, event: &InputEvent) -> (fits: bool)
        ensures
            fits == self@.insert_step(*event).fits(),
    {
        match event {
            InputEvent::KeyDown { key: Some(Key::Left), .. } => {
                if self.cursor_col == 0 {
                    let row = self.cursor_row.saturating_sub(1);
                    let chars = chars_of(self.text_buffer.as_str());
                    let len = line_byte_len(chars.as_slice(), row);
                    proof {
                        assert(chars@ == self@.text);
                        match nth_line(chars@, row as nat) {
                            Some(line) => {
                                assert(byte_len(line) <= 4 * chars@.len());
                                assert(len == Some(byte_len(line) as u128));
                                assert(self@.moved_left().cursor_col == byte_len(line));
                            },
                            None => {},
                        }
                    }
                    match len {
                        Some(len) => len <= usize::MAX as u128,
                        None => true,
                    }
                } else {
                    true
                }
            },
            InputEvent::KeyDown { key: Some(Key::Backspace), .. } => {
                let chars = chars_of(self.text_buffer.as_str());
                if chars.len() == 0 {
                    true
                } else if chars[chars.len() - 1] == '\n' {
                    self.cursor_col > 0 && self.line_count > 0 && self.cursor_row > 0
                } else {
                    self.cursor_col > 0
                }
            },
            InputEvent::KeyDown { key: Some(Key::Return), .. } => {
                self.line_count < usize::MAX && self.cursor_row < usize::MAX
            },
            InputEvent::TextInput { text } => self.can_push(text.as_str()),
            _ => true,
        }
    }

    /// Takes one input event in insert mode and says what is to be done
    /// outside the state.
    pub fn handle_event_insert(&mut self, event: &InputEvent) -> (action: EditorAction)
        requires
            old(self)@.insert_step(*event).fits(),
        ensures
            final(self)@ == old(self)@.insert_step(*event),
            action == insert_action(*event),
    {
        match event {
            InputEvent::Quit => {
                self.exit = true;
            },
            InputEvent::KeyDown { key: Some(Key::Escape), .. } => {
                self.mode = EditorMode::Normal;
            },
            InputEvent::KeyDown { key: Some(Key::Left), .. } => {
                if self.cursor_col == 0 {
                    self.cursor_row = self.cursor_row.saturating_sub(1);
                    let chars = chars_of(self.text_buffer.as_str());
                    match line_byte_len(chars.as_slice(), self.cursor_row) {
                        Some(len) => {
                            self.cursor_col = len as usize;
                        },
                        None => {
                            self.cursor_col = 0;
                            self.cursor_row = 0;
                        },
                    }
                } else {
                    self.cursor_col = self.cursor_col - 1;
                }
            },
            InputEvent::KeyDown { key: Some(Key::Backspace), .. } => {
                let removed = self.text_buffer.pop();
                match removed {
                    Some(c) => {
                        self.cursor_col = self.cursor_col - 1;
                        if c == '\n' {
                            self.line_count = self.line_count - 1;
                            self.cursor_row = self.cursor_row - 1;
                        }
                    },
                    None => {
                        assert(self.text_buffer@ =~= old(self).text_buffer@);
                    },
                }
            },
            InputEvent::KeyDown { key: Some(Key::Return), .. } => {
                self.text_buffer.push('\n');
                self.line_count = self.line_count + 1;
                self.cursor_col = 0;
                self.cursor_row = self.cursor_row + 1;
            },
            InputEvent::TextInput { text } => {
                self.push_str(text.as_str());
            },
            _ => {},
        }
        if KeyBind::ctrl(Key::C).is_pressed(event) {
            EditorAction::CopyText
        } else if KeyBind::ctrl(Key::V).is_pressed(event) {
            EditorAction::PasteText
        } else if KeyBind::ctrl(Key::F).is_pressed(event) {
            EditorAction::PrintFonts
        } else {
            EditorAction::Nothing
        }
    }
}

/// Typing never brings a carriage return into the text.
pub proof fn lemma_typed_without_returns(state: LogicModel, text: Seq<char>)
    requires
        !state.text.contains('\r'),
    ensures
        !state.typed(text).text.contains('\r'),
{
    lemma_without_returns(text);
    let new = without_returns(text);
    let all = state.text + new;
    if all.contains('\r') {
        let at = choose|at: int| 0 <= at < all.len() && all[at] == '\r';
        if at < state.text.len() {
            assert(state.text[at] == '\r');
        } else {
            assert(new[at - state.text.len()] == '\r');
        }
    }
}

/// What is left of a text without its carriage returns holds none.
pub proof fn lemma_without_returns(text: Seq<char>)
    ensures
        !without_returns(text).contains('\r'),
    decreases text.len(),
{
    if text.len() > 0 {
        lemma_without_returns(text.drop_last());
        let shorter = without_returns(text.drop_last());
        let kept = without_returns(text);
        if kept.contains('\r') {
            let at = choose|at: int| 0 <= at < kept.len() && kept[at] == '\r';
            if at < shorter.len() {
                assert(shorter[at] == '\r');
            }
        }
    }
}

/// No event in insert mode brings a carriage return into the text.
pub proof fn lemma_insert_step_without_returns(state: LogicModel, event: InputEvent)
    requires
        !state.text.contains('\r'),
    ensures
        !state.insert_step(event).text.contains('\r'),
{
    let next = state.insert_step(event);
    match event {
        InputEvent::TextInput { text } => {
            lemma_typed_without_returns(state, text@);
        },
        _ => {
            if next.text.contains('\r') {
                let at = choose|at: int| 0 <= at < next.text.len() && next.text[at] == '\r';
                if at < state.text.len() {
                    assert(state.text[at] == '\r');
                }
            }
        },
    }
}

} // verus!
