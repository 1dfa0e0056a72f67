//! The interactive console: keys, the edit line and its history, scrolling
//! through the log buffer, and the completion popup.
//!
//! The caller reads keys and draws; this module decides what each key does.

use crate::text::{chars_of, string_of, strings_view};
use vstd::prelude::*;

verus! {

/// Rows kept below the log: the prompt line and the status line.
pub const PROMPT_OFFSET: i32 = 2;

/// Fewest terminal rows that show the completion popup.
pub const POPUP_MIN_ROWS: i32 = 15;

/// Fewest terminal columns that show the completion popup.
pub const POPUP_MIN_COLS: i32 = 40;

/// Most suggestions the popup shows.
pub const POPUP_MAX_LINES: i32 = 15;

/// Width of the popup in columns.
pub const POPUP_WIDTH: i32 = 35;

/// The row of the prompt in a terminal of `max_y` rows.
pub fn prompt_line(max_y: i32) -> (r: i32)
    requires
        max_y >= i32::MIN + PROMPT_OFFSET,
    ensures
        r == max_y - PROMPT_OFFSET,
{
    max_y - PROMPT_OFFSET
}

/// The screen column of edit position `index`, after the `> ` prompt.
pub fn prompt_index(index: usize) -> (r: i32)
    requires
        index <= i32::MAX - PROMPT_OFFSET,
    ensures
        r == index + PROMPT_OFFSET,
{
    (index as i32) + PROMPT_OFFSET
}

/// The length of the log buffer as a screen quantity.
pub fn buffer_len(len: usize) -> (r: i32)
    requires
        len <= i32::MAX,
    ensures
        r == len,
{
    len as i32
}

/// The largest scroll offset worth moving to with `len` lines and `max_y` rows;
/// may be negative when everything fits.
pub fn max_index(len: usize, max_y: i32) -> (r: i32)
    requires
        len <= i32::MAX,
        1 <= max_y,
    ensures
        r == len - max_y + 1,
{
    buffer_len(len) - max_y + 1
}

/// The scroll offset as a screen quantity.
pub fn cur_i(index: usize) -> (r: i32)
    requires
        index <= i32::MAX,
    ensures
        r == index,
{
    index as i32
}

/// The greatest scroll offset allowed with `len` lines and a view of `height` rows.
pub open spec fn max_offset(len: int, height: int) -> int {
    if len - height + 1 > 0 {
        len - height + 1
    } else {
        0
    }
}

/// A key as the console sees it.
#[derive(Copy, Clone, Debug, PartialEq, Eq, Structural)]
pub enum Key {
    Up,
    Down,
    Left,
    Right,
    Backspace,
    Enter,
    Tab,
    Escape,
    F1,
    F2,
    PageUp,
    PageDown,
    CtrlB,
    CtrlQ,
    CtrlF,
    Resize,
    Char(char),
    Other,
}

/// Relies on `char::from_u32`: the character with that scalar value, if any.
#[verifier::external_body]
fn char_from_u32(v: u32) -> (r: Option<char>)
    ensures
        r matches Some(c) ==> c == v as char,
        r is None <==> !((v < 0xD800) || (0xE000 <= v && v <= 0x10FFFF)),
{
    std::char::from_u32(v)
}

/// What `char::is_alphanumeric` says of `c`.
pub uninterp spec fn alphanumeric(c: char) -> bool;

/// `c` has the Unicode `White_Space` property, as `char::is_whitespace`
/// decides it.
pub open spec fn whitespace(c: char) -> bool {
    ('\u{9}' <= c <= '\u{d}') || c == ' ' || c == '\u{85}' || c == '\u{a0}' || c == '\u{1680}'
        || ('\u{2000}' <= c <= '\u{200a}') || c == '\u{2028}' || c == '\u{2029}' || c
        == '\u{202f}' || c == '\u{205f}' || c == '\u{3000}'
}

/// Relies on `char::is_alphanumeric`.
#[verifier::external_body]
fn is_alphanumeric(c: char) -> (r: bool)
    ensures
        r == alphanumeric(c),
{
    c.is_alphanumeric()
}

/// Whether `c` is white space.
pub fn is_whitespace_char(c: char) -> (r: bool)
    ensures
        r == whitespace(c),
{
    ('\u{9}' <= c && c <= '\u{d}') || c == ' ' || c == '\u{85}' || c == '\u{a0}' || c
        == '\u{1680}' || ('\u{2000}' <= c && c <= '\u{200a}') || c == '\u{2028}' || c
        == '\u{2029}' || c == '\u{202f}' || c == '\u{205f}' || c == '\u{3000}'
}

/// `c` is ASCII punctuation.
pub open spec fn ascii_punctuation(c: char) -> bool {
    ('!' <= c <= '/') || (':' <= c <= '@') || ('[' <= c <= '`') || ('{' <= c <= '~')
}

/// `c` may be typed into the edit line.
pub open spec fn printable(c: char) -> bool {
    alphanumeric(c) || whitespace(c) || ascii_punctuation(c)
}

/// Whether `c` may be typed into the edit line.
pub fn is_printable(c: char) -> (r: bool)
    ensures
        r == printable(c),
{
    is_alphanumeric(c) || is_whitespace_char(c) || ('!' <= c && c <= '/') || (':' <= c && c <= '@')
        || ('[' <= c && c <= '`') || ('{' <= c && c <= '~')
}

/// The key for a plain key code (not one of the terminal's special keys).
pub open spec fn spec_key_from_code(code: i32) -> Key {
    if code == 2 {
        Key::CtrlB
    } else if code == 17 {
        Key::CtrlQ
    } else if code == 6 {
        Key::CtrlF
    } else if code == 9 {
        Key::Tab
    } else if code == 10 {
        Key::Enter
    } else if code == 127 {
        Key::Backspace
    } else if code == 27 {
        Key::Escape
    } else if code >= 0 && ((code < 0xD800) || (0xE000 <= code && code <= 0x10FFFF)) {
        Key::Char((code as u32) as char)
    } else {
        Key::Other
    }
}

/// The key for a plain key code: the control keys the console knows, else the
/// character with that code.
pub fn key_from_code(code: i32) -> (r: Key)
    ensures
        r == spec_key_from_code(code),
{
    if code == 2 {
        Key::CtrlB
    } else if code == 17 {
        Key::CtrlQ
    } else if code == 6 {
        Key::CtrlF
    } else if code == 9 {
        Key::Tab
    } else if code == 10 {
        Key::Enter
    } else if code == 127 {
        Key::Backspace
    } else if code == 27 {
        Key::Escape
    } else if code < 0 {
        Key::Other
    } else {
        match char_from_u32(code as u32) {
            Some(c) => Key::Char(c),
            None => Key::Other,
        }
    }
}

/// What the arrow keys move.
#[derive(Copy, Clone, Debug, PartialEq, Eq, Structural)]
pub enum ArrowMode {
    Scroll,
    Input,
}

/// How the prompt line must be updated after a key.
#[derive(Copy, Clone, Debug, PartialEq, Eq, Structural)]
pub enum PromptUpdate {
    Unchanged,
    /// Print this character at the cursor.
    Echo(char),
    /// Erase the character before the cursor.
    DeleteLast,
    /// Draw the whole edit line again.
    Redraw,
}

/// What the caller does after a key.
#[derive(Clone, Debug)]
pub struct KeyOutcome {
    /// Redraw the log window.
    pub redraw: bool,
    pub prompt: PromptUpdate,
    /// Ask the server for completions of this text.
    pub request: Option<String>,
    /// Send this command to the server.
    pub submit: Option<String>,
    /// Leave the console.
    pub quit: bool,
}

/// The model of a key's outcome.
pub struct OutcomeModel {
    pub redraw: bool,
    pub prompt: PromptUpdate,
    pub request: Option<Seq<char>>,
    pub submit: Option<Seq<char>>,
    pub quit: bool,
}

/// The characters of an optional string.
pub open spec fn opt_view(o: Option<String>) -> Option<Seq<char>> {
    match o {
        Some(s) => Some(s@),
        None => None,
    }
}

impl View for KeyOutcome {
    type V = OutcomeModel;

    open spec fn view(&self) -> OutcomeModel {
        OutcomeModel {
            redraw: self.redraw,
            prompt: self.prompt,
            request: opt_view(self.request),
            submit: opt_view(self.submit),
            quit: self.quit,
        }
    }
}

/// An outcome that changes nothing on screen.
pub open spec fn quiet() -> OutcomeModel {
    OutcomeModel {
        redraw: false,
        prompt: PromptUpdate::Unchanged,
        request: None,
        submit: None,
        quit: false,
    }
}

/// The model of the console's edit and scroll state.
pub struct ConsoleModel {
    pub input: Seq<char>,
    pub cursor: int,
    pub up: Seq<Seq<char>>,
    pub down: Seq<Seq<char>>,
    pub offset: int,
    pub mode: ArrowMode,
}

/// The edit line, its history, the scroll offset and the arrow mode.
#[derive(Clone, Debug)]
pub struct ConsoleInput {
    /// The edit line.
    pub input: Vec<char>,
    /// Position of the cursor in the edit line.
    pub cursor_index: usize,
    /// Earlier commands; the most recent is last.
    pub history_up: Vec<String>,
    /// Commands walked past with the up arrow; the next one is last.
    pub history_down: Vec<String>,
    /// Lines scrolled back from the live tail; 0 follows the tail.
    pub index: usize,
    pub mode: ArrowMode,
}

impl View for ConsoleInput {
    type V = ConsoleModel;

    open spec fn view(&self) -> ConsoleModel {
        ConsoleModel {
            input: self.input@,
            cursor: self.cursor_index as int,
            up: strings_view(self.history_up@),
            down: strings_view(self.history_down@),
            offset: self.index as int,
            mode: self.mode,
        }
    }
}

/// The text with a request for completions of `input`, when it is not empty.
pub open spec fn request_for(input: Seq<char>) -> Option<Seq<char>> {
    if input.len() == 0 {
        None
    } else {
        Some(input)
    }
}

/// The state after typing character `c`, when it is printable.
pub open spec fn typed(m: ConsoleModel, c: char) -> (ConsoleModel, PromptUpdate) {
    if !printable(c) {
        (m, PromptUpdate::Unchanged)
    } else if m.cursor >= m.input.len() {
        (ConsoleModel { input: m.input.push(c), cursor: m.input.len() + 1int, ..m }, PromptUpdate::Echo(c))
    } else {
        (ConsoleModel { input: m.input.insert(m.cursor, c), cursor: m.cursor + 1, ..m }, PromptUpdate::Redraw)
    }
}

/// The history after submitting `s`: the commands walked past return to the
/// up stack, most recent on top, and `s` goes on top of them.
pub open spec fn folded_history(up: Seq<Seq<char>>, down: Seq<Seq<char>>, s: Seq<char>) -> Seq<Seq<char>> {
    up + down.reverse() + seq![s]
}

/// What a key does with no popup in the way, with `len` lines in the log and a
/// terminal of `max_y` rows.
pub open spec fn spec_main_key(m: ConsoleModel, key: Key, len: int, max_y: int) -> (ConsoleModel, OutcomeModel) {
    let q = quiet();
    match key {
        Key::F1 => (ConsoleModel { mode: ArrowMode::Input, ..m }, q),
        Key::F2 => (ConsoleModel { mode: ArrowMode::Scroll, ..m }, q),
        Key::Up => if m.mode == ArrowMode::Scroll {
            if m.offset < len - max_y + 1 {
                (ConsoleModel { offset: m.offset + 1, ..m }, OutcomeModel { redraw: true, ..q })
            } else {
                (m, q)
            }
        } else if m.up.len() == 0 {
            (m, q)
        } else {
            let down = if m.input.len() > 0 { m.down.push(m.input) } else { m.down };
            let line = m.up.last();
            (ConsoleModel { input: line, cursor: line.len() as int, up: m.up.drop_last(), down, ..m },
             OutcomeModel { prompt: PromptUpdate::Redraw, ..q })
        },
        Key::Down => if m.mode == ArrowMode::Scroll {
            if m.offset > 0 {
                (ConsoleModel { offset: m.offset - 1, ..m }, OutcomeModel { redraw: true, ..q })
            } else {
                (m, q)
            }
        } else {
            let up = if m.input.len() > 0 { m.up.push(m.input) } else { m.up };
            let (line, down) = if m.down.len() == 0 {
                (Seq::<char>::empty(), m.down)
            } else {
                (m.down.last(), m.down.drop_last())
            };
            (ConsoleModel { input: line, cursor: line.len() as int, up, down, ..m },
             OutcomeModel { prompt: PromptUpdate::Redraw, ..q })
        },
        Key::Left => if m.cursor > 0 {
            (ConsoleModel { cursor: m.cursor - 1, ..m }, q)
        } else {
            (m, q)
        },
        Key::Right => if m.cursor < m.input.len() {
            (ConsoleModel { cursor: m.cursor + 1, ..m }, q)
        } else {
            (m, q)
        },
        Key::Backspace => if m.cursor == 0 {
            (m, q)
        } else {
            let (input, prompt) = if m.cursor >= m.input.len() {
                (m.input.drop_last(), PromptUpdate::DeleteLast)
            } else {
                (m.input.remove(m.cursor - 1), PromptUpdate::Redraw)
            };
            let cursor = if m.cursor >= m.input.len() { input.len() as int } else { m.cursor - 1 };
            (ConsoleModel { input, cursor, ..m },
             OutcomeModel { prompt, request: request_for(input), ..q })
        },
        Key::Enter => {
            let s = m.input;
            let up = if s.len() > 0 { folded_history(m.up, m.down, s) } else { m.up };
            let down = if s.len() > 0 { Seq::<Seq<char>>::empty() } else { m.down };
            (ConsoleModel { input: seq![], cursor: 0, up, down, ..m },
             OutcomeModel { prompt: PromptUpdate::Redraw, submit: if s.len() > 0 { Some(s) } else { None }, ..q })
        },
        Key::CtrlB | Key::CtrlQ => (m, OutcomeModel { quit: true, ..q }),
        Key::CtrlF => (ConsoleModel { offset: 0, ..m }, OutcomeModel { redraw: true, ..q }),
        Key::PageUp => if m.offset < len - max_y + 1 {
            let moved = m.offset + max_y / 2;
            let offset = if moved < len - max_y + 1 { moved } else { len - max_y + 1 };
            (ConsoleModel { offset, ..m }, OutcomeModel { redraw: true, ..q })
        } else {
            (m, q)
        },
        Key::PageDown => if m.offset > 0 {
            let delta = max_y / 2;
            let offset = if delta > m.offset { 0 } else { m.offset - delta };
            (ConsoleModel { offset, ..m }, OutcomeModel { redraw: true, ..q })
        } else {
            (m, q)
        },
        Key::Char(c) => {
            let (n, prompt) = typed(m, c);
            (n, OutcomeModel { prompt, request: request_for(n.input), ..q })
        },
        Key::Tab => {
            let (n, prompt) = typed(m, '\t');
            (n, OutcomeModel { prompt, request: request_for(n.input), ..q })
        },
        Key::Escape => {
            let (n, prompt) = typed(m, '\u{1b}');
            (n, OutcomeModel { prompt, request: request_for(n.input), ..q })
        },
        Key::Resize => (m, OutcomeModel { redraw: true, ..q }),
        Key::Other => (m, q),
    }
}

/// When the whole log fits in the view, no key scrolls back: the offset stays
/// at the live tail however often scrolling is asked for.
pub proof fn lemma_no_scroll_when_log_fits(m: ConsoleModel, key: Key, len: int, max_y: int)
    requires
        console_wf(m, len, max_y),
        len - max_y + 1 <= 0,
    ensures
        spec_main_key(m, key, len, max_y).0.offset == 0,
{
}

/// A consistent console state, for a log of `len` lines and a terminal of `max_y` rows.
pub open spec fn console_wf(m: ConsoleModel, len: int, max_y: int) -> bool {
    &&& 0 <= m.cursor <= m.input.len()
    &&& 0 <= m.offset <= max_offset(len, max_y)
}

impl KeyOutcome {
    fn quiet() -> (r: KeyOutcome)
        ensures
            r@ == quiet(),
    {
        KeyOutcome {
            redraw: false,
            prompt: PromptUpdate::Unchanged,
            request: None,
            submit: None,
            quit: false,
        }
    }
}

/// The completion request for the edit line, when it is not empty.
fn request_of(input: &Vec<char>) -> (r: Option<String>)
    ensures
        opt_view(r) == request_for(input@),
{
    if input.len() == 0 {
        None
    } else {
        Some(string_of(input))
    }
}

impl ConsoleInput {
    /// An empty edit line following the live tail, arrows in input mode.
    pub fn new() -> (r: ConsoleInput)
        ensures
            r@.input == Seq::<char>::empty(),
            r@.cursor == 0,
            r@.up == Seq::<Seq<char>>::empty(),
            r@.down == Seq::<Seq<char>>::empty(),
            r@.offset == 0,
            r@.mode == ArrowMode::Input,
    {
        let r = ConsoleInput {
            input: Vec::new(),
            cursor_index: 0,
            history_up: Vec::new(),
            history_down: Vec::new(),
            index: 0,
            mode: ArrowMode::Input,
        };
        assert(strings_view(r.history_up@) =~= Seq::<Seq<char>>::empty());
        assert(strings_view(r.history_down@) =~= Seq::<Seq<char>>::empty());
        r
    }

    fn type_char(&mut self, c: char) -> (r: PromptUpdate)
        requires
            old(self).cursor_index <= old(self).input@.len(),
        ensures
            (final(self)@, r) == typed(old(self)@, c),
    {
        if !is_printable(c) {
            return PromptUpdate::Unchanged;
        }
        if self.cursor_index >= self.input.len() {
            self.input.push(c);
            self.cursor_index = self.input.len();
            PromptUpdate::Echo(c)
        } else {
            self.input.insert(self.cursor_index, c);
            self.cursor_index = self.cursor_index + 1;
            PromptUpdate::Redraw
        }
    }

    /// What a key does with no popup in the way; `len` is the log's length and
    /// `max_y` the terminal's rows.
    pub fn handle_main_key(&mut self, key: Key, len: usize, max_y: i32) -> (r: KeyOutcome)
        requires
            len <= i32::MAX,
            1 <= max_y,
            console_wf(old(self)@, len as int, max_y as int),
        ensures
            (final(self)@, r@) == spec_main_key(old(self)@, key, len as int, max_y as int),
            console_wf(final(self)@, len as int, max_y as int),
    {
        let ghost m = self@;
        let mut out = KeyOutcome::quiet();
        let limit: i64 = len as i64 - max_y as i64 + 1;
        match key {
            Key::F1 => {
                self.mode = ArrowMode::Input;
            },
            Key::F2 => {
                self.mode = ArrowMode::Scroll;
            },
            Key::Up => {
                match self.mode {
                    ArrowMode::Scroll => {
                        if (self.index as i64) < limit {
                            self.index = self.index + 1;
                            out.redraw = true;
                        }
                    },
                    ArrowMode::Input => {
                        if self.history_up.len() > 0 {
                            if self.input.len() > 0 {
                                let line = string_of(&self.input);
                                let ghost d = strings_view(self.history_down@);
                                self.history_down.push(line);
                                assert(strings_view(self.history_down@) =~= d.push(m.input));
                            }
                            let ghost u = strings_view(self.history_up@);
                            let line = self.history_up.pop().unwrap();
                            assert(strings_view(self.history_up@) =~= u.drop_last());
                            self.input = chars_of(line.as_str());
                            self.cursor_index = self.input.len();
                            out.prompt = PromptUpdate::Redraw;
                        }
                    },
                }
            },
            Key::Down => {
                match self.mode {
                    ArrowMode::Scroll => {
                        if self.index > 0 {
                            self.index = self.index - 1;
                            out.redraw = true;
                        }
                    },
                    ArrowMode::Input => {
                        if self.input.len() > 0 {
                            let line = string_of(&self.input);
                            let ghost u = strings_view(self.history_up@);
                            self.history_up.push(line);
                            assert(strings_view(self.history_up@) =~= u.push(m.input));
                        }
                        if self.history_down.len() == 0 {
                            self.input = Vec::new();
                        } else {
                            let ghost d = strings_view(self.history_down@);
                            let line = self.history_down.pop().unwrap();
                            assert(strings_view(self.history_down@) =~= d.drop_last());
                            self.input = chars_of(line.as_str());
                        }
                        self.cursor_index = self.input.len();
                        out.prompt = PromptUpdate::Redraw;
                    },
                }
            },
            Key::Left => {
                if self.cursor_index > 0 {
                    self.cursor_index = self.cursor_index - 1;
                }
            },
            Key::Right => {
                if self.cursor_index < self.input.len() {
                    self.cursor_index = self.cursor_index + 1;
                }
            },
            Key::Backspace => {
                if self.cursor_index > 0 {
                    if self.cursor_index >= self.input.len() {
                        self.input.pop();
                        self.cursor_index = self.input.len();
                        out.prompt = PromptUpdate::DeleteLast;
                    } else {
                        self.input.remove(self.cursor_index - 1);
                        self.cursor_index = self.cursor_index - 1;
                        out.prompt = PromptUpdate::Redraw;
                    }
                    out.request = request_of(&self.input);
                }
            },
            Key::Enter => {
                let nonempty = self.input.len() > 0;
                let s = string_of(&self.input);
                self.input = Vec::new();
                self.cursor_index = 0;
                out.prompt = PromptUpdate::Redraw;
                if nonempty {
                    let ghost u0 = strings_view(self.history_up@);
                    let ghost d0 = strings_view(self.history_down@);
                    while self.history_down.len() > 0
                        invariant
                            strings_view(self.history_up@) + strings_view(self.history_down@).reverse()
                                == u0 + d0.reverse(),
                            self.input@ == Seq::<char>::empty(),
                            self.cursor_index == 0,
                            self.index == m.offset,
                            self.mode == m.mode,
                        decreases self.history_down.len(),
                    {
                        let ghost u = strings_view(self.history_up@);
                        let ghost d = strings_view(self.history_down@);
                        let line = self.history_down.pop().unwrap();
                        self.history_up.push(line);
                        assert(strings_view(self.history_up@) =~= u.push(d.last()));
                        assert(strings_view(self.history_down@) =~= d.drop_last());
                        assert(d.reverse() =~= seq![d.last()] + d.drop_last().reverse());
                        assert(strings_view(self.history_up@) + strings_view(self.history_down@).reverse()
                            =~= u + d.reverse());
                    }
                    let ghost u1 = strings_view(self.history_up@);
                    assert(strings_view(self.history_down@).reverse() =~= Seq::<Seq<char>>::empty());
                    assert(u1 =~= u0 + d0.reverse());
                    let copy = s.clone();
                    self.history_up.push(copy);
                    assert(strings_view(self.history_up@) =~= u1.push(m.input));
                    assert(strings_view(self.history_down@) =~= Seq::<Seq<char>>::empty());
                    out.submit = Some(s);
                } else {
                    assert(m.input =~= Seq::<char>::empty());
                }
            },
            Key::CtrlB | Key::CtrlQ => {
                out.quit = true;
            },
            Key::CtrlF => {
                self.index = 0;
                out.redraw = true;
            },
            Key::PageUp => {
                if (self.index as i64) < limit {
                    let moved = self.index + (max_y / 2) as usize;
                    self.index = if (moved as i64) < limit { moved } else { limit as usize };
                    out.redraw = true;
                }
            },
            Key::PageDown => {
                if self.index > 0 {
                    let delta = (max_y / 2) as usize;
                    self.index = if delta > self.index { 0 } else { self.index - delta };
                    out.redraw = true;
                }
            },
            Key::Char(c) => {
                out.prompt = self.type_char(c);
                out.request = request_of(&self.input);
            },
            Key::Tab => {
                out.prompt = self.type_char('\t');
                out.request = request_of(&self.input);
            },
            Key::Escape => {
                out.prompt = self.type_char('\u{1b}');
                out.request = request_of(&self.input);
            },
            Key::Resize => {
                out.redraw = true;
            },
            Key::Other => {},
        }
        out
    }

    /// Brings the scroll offset back within bounds after the log or the terminal
    /// changed size.
    pub fn clamp_offset(&mut self, len: usize, max_y: i32)
        requires
            len <= i32::MAX,
            1 <= max_y,
            old(self).cursor_index <= old(self).input@.len(),
        ensures
            console_wf(final(self)@, len as int, max_y as int),
            final(self)@.offset == if old(self)@.offset <= max_offset(len as int, max_y as int) {
                old(self)@.offset
            } else {
                max_offset(len as int, max_y as int)
            },
            final(self)@.input == old(self)@.input,
            final(self)@.cursor == old(self)@.cursor,
            final(self)@.up == old(self)@.up,
            final(self)@.down == old(self)@.down,
            final(self)@.mode == old(self)@.mode,
    {
        let limit: i64 = len as i64 - max_y as i64 + 1;
        let bound: usize = if limit > 0 { limit as usize } else { 0 };
        if self.index > bound {
            self.index = bound;
        }
    }

    /// Keeps the same lines in view when `grown` lines were added to the log
    /// while scrolled back; following the tail needs no change.
    pub fn track_growth(&mut self, grown: usize, len: usize, max_y: i32)
        requires
            len <= i32::MAX,
            1 <= max_y,
            grown <= len,
            console_wf(old(self)@, (len - grown) as int, max_y as int),
        ensures
            console_wf(final(self)@, len as int, max_y as int),
            final(self)@.offset == if old(self)@.offset == 0 { 0 } else { old(self)@.offset + grown },
            final(self)@.input == old(self)@.input,
            final(self)@.cursor == old(self)@.cursor,
            final(self)@.up == old(self)@.up,
            final(self)@.down == old(self)@.down,
            final(self)@.mode == old(self)@.mode,
    {
        if self.index != 0 {
            self.index = self.index + grown;
        }
    }
}

/// The position after the last space of `s` (0 when it has none).
pub open spec fn word_start(s: Seq<char>) -> int
    decreases s.len(),
{
    if s.len() == 0 {
        0
    } else if s.last() == ' ' {
        s.len() as int
    } else {
        word_start(s.drop_last())
    }
}

/// The edit line with its last word (after the last space) replaced by `text`.
pub open spec fn completed(input: Seq<char>, text: Seq<char>) -> Seq<char> {
    input.take(word_start(input)) + text
}

/// Replaces the last word of `input` by the completion `text`.
pub fn apply_completion(input: &Vec<char>, text: &str) -> (r: Vec<char>)
    ensures
        r@ == completed(input@, text@),
{
    let mut k = input.len();
    assert(input@.take(k as int) =~= input@);
    while k > 0 && input[k - 1] != ' '
        invariant
            k <= input@.len(),
            word_start(input@.take(k as int)) == word_start(input@),
        decreases k,
    {
        assert(input@.take(k as int).drop_last() =~= input@.take(k as int - 1));
        k = k - 1;
    }
    proof {
        if k > 0 {
            assert(input@.take(k as int).last() == ' ');
        }
    }
    let mut out: Vec<char> = Vec::new();
    let mut i: usize = 0;
    while i < k
        invariant
            k <= input@.len(),
            i <= k,
            out@ == input@.take(i as int),
        decreases k - i,
    {
        out.push(input[i]);
        i = i + 1;
        assert(out@ =~= input@.take(i as int));
    }
    let t = chars_of(text);
    let ghost head = out@;
    let mut j: usize = 0;
    while j < t.len()
        invariant
            j <= t@.len(),
            out@ == head + t@.take(j as int),
        decreases t.len() - j,
    {
        out.push(t[j]);
        j = j + 1;
        assert(out@ =~= head + t@.take(j as int));
    }
    assert(t@.take(j as int) =~= t@);
    out
}

/// The completion popup: suggestions, the highlighted one, and its size.
#[derive(Clone, Debug)]
pub struct Completions {
    pub suggestions: Vec<String>,
    pub index: Option<usize>,
    pub width: i32,
    pub height: i32,
    pub lines: usize,
}

/// The model of the popup.
pub struct PopupModel {
    pub suggestions: Seq<Seq<char>>,
    pub index: Option<int>,
    pub lines: int,
}

impl View for Completions {
    type V = PopupModel;

    open spec fn view(&self) -> PopupModel {
        PopupModel {
            suggestions: strings_view(self.suggestions@),
            index: match self.index {
                Some(i) => Some(i as int),
                None => None,
            },
            lines: self.lines as int,
        }
    }
}

/// Rows of suggestions shown for `n` suggestions in a terminal of `max_y` rows.
pub open spec fn popup_lines(n: int, max_y: int) -> int {
    let room = if max_y - 5 < POPUP_MAX_LINES { max_y - 5 } else { POPUP_MAX_LINES as int };
    if n < room { n } else { room }
}

/// The popup leaves the key to the console as well.
pub const SEND_KEY: u8 = 0x02;

/// The popup closes.
pub const CLOSE_WINDOW: u8 = 0x01;

/// The popup keeps the key to itself.
pub const NO_ACTION: u8 = 0x00;

/// What the popup does with a key: the text to put in place of the last word,
/// the popup's new highlight, and the action flags.
pub open spec fn spec_popup_key(p: PopupModel, key: Key) -> (Option<Seq<char>>, Option<int>, u8) {
    match key {
        Key::Up => match p.index {
            None => (None, Some(0), NO_ACTION),
            Some(i) => if i + 1 < p.lines { (None, Some(i + 1), NO_ACTION) } else { (None, p.index, NO_ACTION) },
        },
        Key::Down => match p.index {
            Some(i) => if i > 0 { (None, Some(i - 1), NO_ACTION) } else { (None, p.index, NO_ACTION) },
            None => (None, None, NO_ACTION),
        },
        Key::Tab => (Some(p.suggestions[match p.index { Some(i) => i, None => 0 }]), p.index, NO_ACTION),
        Key::Enter => match p.index {
            Some(i) => (Some(p.suggestions[i]), p.index, CLOSE_WINDOW),
            None => (None, p.index, CLOSE_WINDOW | SEND_KEY),
        },
        Key::Escape | Key::CtrlF => (None, p.index, CLOSE_WINDOW),
        Key::CtrlB | Key::CtrlQ | Key::Resize => (None, p.index, CLOSE_WINDOW | SEND_KEY),
        Key::Backspace => (None, p.index, SEND_KEY),
        Key::Char(c) => if printable(c) { (None, p.index, SEND_KEY) } else { (None, p.index, NO_ACTION) },
        _ => (None, p.index, NO_ACTION),
    }
}

impl Completions {
    /// The popup is consistent: at least one row, no more rows than
    /// suggestions, and the highlight on a shown row.
    pub open spec fn wf(&self) -> bool {
        &&& 1 <= self.lines <= self.suggestions@.len()
        &&& self.lines <= POPUP_MAX_LINES
        &&& self.height == self.lines + 2
        &&& self.width == POPUP_WIDTH
        &&& match self.index {
            Some(i) => i < self.lines,
            None => true,
        }
    }

    /// A popup for `suggestions` in a terminal of `max_y` rows and `max_x`
    /// columns; none when there is nothing to suggest or the terminal is smaller
    /// than 15 rows or 40 columns.
    pub fn new(max_y: i32, max_x: i32, suggestions: Vec<String>) -> (r: Option<Completions>)
        ensures
            r is Some <==> (max_y >= POPUP_MIN_ROWS && max_x >= POPUP_MIN_COLS && suggestions@.len()
                > 0),
            r matches Some(c) ==> c.wf() && c@.suggestions == strings_view(suggestions@)
                && c@.index is None && c@.lines == popup_lines(suggestions@.len() as int, max_y as int),
    {
        if max_y < POPUP_MIN_ROWS || max_x < POPUP_MIN_COLS {
            return None;
        }
        if suggestions.len() == 0 {
            return None;
        }
        let room: usize = if max_y - 5 < POPUP_MAX_LINES { (max_y - 5) as usize } else { POPUP_MAX_LINES as usize };
        let lines: usize = if suggestions.len() < room { suggestions.len() } else { room };
        Some(Completions {
            suggestions,
            index: None,
            width: POPUP_WIDTH,
            height: (lines + 2) as i32,
            lines,
        })
    }

    /// Whether the popup still fits a terminal of `max_y` rows and `max_x` columns.
    pub fn fits(max_y: i32, max_x: i32) -> (r: bool)
        ensures
            r == (max_y >= POPUP_MIN_ROWS && max_x >= POPUP_MIN_COLS),
    {
        max_y >= POPUP_MIN_ROWS && max_x >= POPUP_MIN_COLS
    }

    /// The top row of the popup, which sits just above the prompt.
    pub fn top_row(&self, max_y: i32) -> (r: i32)
        requires
            self.wf(),
            max_y >= POPUP_MIN_ROWS,
        ensures
            r == max_y - PROMPT_OFFSET - self.height,
    {
        prompt_line(max_y) - self.height
    }

    /// The row inside the popup where suggestion `i` is drawn, bottom up.
    pub fn row_of(&self, i: usize) -> (r: i32)
        requires
            self.wf(),
            i < self.lines,
        ensures
            r == self.height - 2 - i,
    {
        self.height - 2 - i as i32
    }

    /// Takes in a key while the popup is shown: the completion text to put in
    /// the edit line, if any, and the action flags.
    pub fn handle_key(&mut self, key: Key) -> (r: (Option<String>, u8))
        requires
            old(self).wf(),
        ensures
            final(self).wf(),
            final(self)@.suggestions == old(self)@.suggestions,
            final(self)@.lines == old(self)@.lines,
            (opt_view(r.0), final(self)@.index, r.1) == spec_popup_key(old(self)@, key),
    {
        match key {
            Key::Up => {
                match self.index {
                    None => {
                        self.index = Some(0);
                    },
                    Some(i) => {
                        if i + 1 < self.lines {
                            self.index = Some(i + 1);
                        }
                    },
                }
                (None, NO_ACTION)
            },
            Key::Down => {
                match self.index {
                    Some(i) => {
                        if i > 0 {
                            self.index = Some(i - 1);
                        }
                    },
                    None => {},
                }
                (None, NO_ACTION)
            },
            Key::Tab => {
                let i = match self.index {
                    Some(i) => i,
                    None => 0,
                };
                (Some(self.suggestions[i].clone()), NO_ACTION)
            },
            Key::Enter => {
                match self.index {
                    Some(i) => (Some(self.suggestions[i].clone()), CLOSE_WINDOW),
                    None => (None, CLOSE_WINDOW | SEND_KEY),
                }
            },
            Key::Escape | Key::CtrlF => (None, CLOSE_WINDOW),
            Key::CtrlB | Key::CtrlQ | Key::Resize => (None, CLOSE_WINDOW | SEND_KEY),
            Key::Backspace => (None, SEND_KEY),
            Key::Char(c) => {
                if is_printable(c) {
                    (None, SEND_KEY)
                } else {
                    (None, NO_ACTION)
                }
            },
            _ => (None, NO_ACTION),
        }
    }
}

/// The popup after a key: closed, or with its new highlight.
pub open spec fn popup_after(p: PopupModel, key: Key) -> Option<PopupModel> {
    let (_, index, action) = spec_popup_key(p, key);
    if action & CLOSE_WINDOW != 0 {
        None
    } else {
        Some(PopupModel { index, ..p })
    }
}

/// The console and its outcome after a key, the popup taking it first when shown.
pub open spec fn spec_key(m: ConsoleModel, popup: Option<PopupModel>, key: Key, len: int, max_y: int) -> (ConsoleModel, OutcomeModel) {
    match popup {
        None => spec_main_key(m, key, len, max_y),
        Some(p) => {
            let (text, _, action) = spec_popup_key(p, key);
            let m2 = match text {
                Some(t) => {
                    let input = completed(m.input, t);
                    ConsoleModel { input, cursor: input.len() as int, ..m }
                },
                None => m,
            };
            if action & SEND_KEY == 0 {
                (m2, OutcomeModel { prompt: if text is Some { PromptUpdate::Redraw } else { PromptUpdate::Unchanged }, ..quiet() })
            } else {
                spec_main_key(m2, key, len, max_y)
            }
        },
    }
}

/// The popup after `key`, with `input` the edit line afterwards: a backspace
/// that empties the edit line closes it too.
pub open spec fn popup_after_key(p: Option<PopupModel>, key: Key, input: Seq<char>) -> Option<PopupModel> {
    match p {
        Some(p) => if key == Key::Backspace && input.len() == 0 {
            None
        } else {
            popup_after(p, key)
        },
        None => None,
    }
}

/// The model of an optional popup.
pub open spec fn popup_view(p: Option<Completions>) -> Option<PopupModel> {
    match p {
        Some(c) => Some(c@),
        None => None,
    }
}

impl ConsoleInput {
    /// Takes in a key: a shown popup sees it first and may take a completion
    /// into the edit line, close, or pass the key on.
    pub fn handle_key(&mut self, popup: &mut Option<Completions>, key: Key, len: usize, max_y: i32) -> (r: KeyOutcome)
        requires
            len <= i32::MAX,
            1 <= max_y,
            console_wf(old(self)@, len as int, max_y as int),
            *old(popup) matches Some(p) ==> p.wf(),
        ensures
            (final(self)@, r@) == spec_key(old(self)@, popup_view(*old(popup)), key, len as int, max_y as int),
            popup_view(*final(popup)) == popup_after_key(popup_view(*old(popup)), key, final(self)@.input),
            *final(popup) matches Some(p) ==> p.wf(),
            console_wf(final(self)@, len as int, max_y as int),
    {
        proof {
            assert(0x02u8 & 0x02u8 == 0x02u8) by (bit_vector);
        }
        let mut send = true;
        let mut replaced = false;
        let mut close = false;
        match popup {
            Some(p) => {
                let (text, action) = p.handle_key(key);
                if action & CLOSE_WINDOW != 0 {
                    close = true;
                }
                match text {
                    Some(t) => {
                        self.input = apply_completion(&self.input, t.as_str());
                        self.cursor_index = self.input.len();
                        replaced = true;
                    },
                    None => {},
                }
                if action & SEND_KEY == 0 {
                    send = false;
                }
            },
            None => {},
        }
        if close {
            *popup = None;
        }
        if send {
            let out = self.handle_main_key(key, len, max_y);
            if let Key::Backspace = key {
                if self.input.len() == 0 {
                    *popup = None;
                }
            }
            out
        } else {
            let mut out = KeyOutcome::quiet();
            if replaced {
                out.prompt = PromptUpdate::Redraw;
            }
            out
        }
    }
}

/// The log line shown on row `row` of the screen, counting from the top,
/// when scrolled back `offset` lines, if that row shows one.
pub open spec fn line_at_row(len: int, offset: int, max_y: int, row: int) -> Option<int> {
    let i = max_y - 3 - row;
    if 0 <= row && 0 <= i && i < max_y - 2 && len - 1 - offset - i >= 0 {
        Some(len - 1 - offset - i)
    } else {
        None
    }
}

/// The rows of the log window and the buffer line each shows, bottom up: the
/// last row above the prompt shows the line `offset` back from the tail.
pub fn visible_lines(len: usize, offset: usize, max_y: i32) -> (r: Vec<(i32, usize)>)
    requires
        len <= i32::MAX,
        offset <= len,
        3 <= max_y,
    ensures
        forall|k: int| 0 <= k < r@.len() ==> line_at_row(len as int, offset as int, max_y as int, r@[k].0 as int)
            == Some(r@[k].1 as int),
        forall|row: int| #![trigger line_at_row(len as int, offset as int, max_y as int, row)]
            line_at_row(len as int, offset as int, max_y as int, row) is Some ==> exists|k: int|
                0 <= k < r@.len() && r@[k].0 == row,
{
    let avail: usize = len - offset;
    let rows: usize = (max_y - 2) as usize;
    let count: usize = if rows < avail { rows } else { avail };
    let mut out: Vec<(i32, usize)> = Vec::new();
    let mut i: usize = 0;
    while i < count
        invariant
            count <= rows,
            count <= avail,
            avail == len - offset,
            rows == max_y - 2,
            i <= count,
            out@.len() == i,
            forall|k: int| 0 <= k < i ==> out@[k] == ((max_y - 3 - k) as i32, (len - 1 - offset - k) as usize),
        decreases count - i,
    {
        out.push(((max_y - 3 - i as i32), len - 1 - offset - i));
        i = i + 1;
    }
    assert forall|row: int| #![trigger line_at_row(len as int, offset as int, max_y as int, row)]
        line_at_row(len as int, offset as int, max_y as int, row) is Some implies exists|k: int|
            0 <= k < out@.len() && out@[k].0 == row by {
        let k = max_y - 3 - row;
        assert(out@[k].0 == row);
    }
    out
}

/// The players figure of the status bar: `players / max`.
pub fn players_text(players: i32, max_players: i32) -> (r: String)
    ensures
        r@ == crate::util::decimal(players as int) + " / "@ + crate::util::decimal(max_players as int),
{
    let mut t = crate::util::int_text(players as i64);
    crate::text::push_str(&mut t, " / ");
    crate::text::push_str(&mut t, crate::util::int_text(max_players as i64).as_str());
    t
}

/// The column where the server name starts on the status bar: the name, the
/// players figure and the TPS figure sit at the right, with gaps of three
/// columns between them and one column after.
pub fn status_name_column(max_x: i32, name_len: usize, players_len: usize, tps_len: usize) -> (r: i64)
    requires
        name_len <= i32::MAX,
        players_len <= i32::MAX,
        tps_len <= i32::MAX,
    ensures
        r == max_x - 7 - tps_len - name_len - players_len,
{
    max_x as i64 - 7 - tps_len as i64 - name_len as i64 - players_len as i64
}

/// What the status poller does after a poll.
#[derive(Copy, Clone, Debug, PartialEq, Eq, Structural)]
pub enum PollStep {
    /// Show the new figures, wait, and poll again.
    Update,
    /// Wait and try again.
    Retry,
    /// Stop polling.
    Stop,
}

/// The poller's next step: a failed poll is retried unless the console is
/// shutting down; a successful one is shown unless it is.
pub fn status_poll_step(succeeded: bool, stopping: bool) -> (r: PollStep)
    ensures
        r == if stopping { PollStep::Stop } else if succeeded { PollStep::Update } else { PollStep::Retry },
{
    if stopping {
        PollStep::Stop
    } else if succeeded {
        PollStep::Update
    } else {
        PollStep::Retry
    }
}

/// What the screen showed at the last redraw.
#[derive(Copy, Clone, Debug, PartialEq, Eq, Structural)]
pub struct ScreenState {
    /// Log length at the last redraw; `None` before the first.
    pub last_len: Option<usize>,
    pub last_index: usize,
    pub last_max_x: i32,
    pub last_max_y: i32,
}

impl ScreenState {
    /// Nothing drawn yet.
    pub fn new() -> (r: ScreenState)
        ensures
            r.last_len is None,
            r.last_index == 0,
    {
        ScreenState { last_len: None, last_index: 0, last_max_x: -1, last_max_y: -1 }
    }

    /// The log, the scroll offset or the terminal size changed since the last
    /// redraw.
    pub fn needs_redraw(&self, len: usize, index: usize, max_x: i32, max_y: i32) -> (r: bool)
        ensures
            r == (self.last_len != Some(len) || self.last_index != index || self.last_max_x != max_x
                || self.last_max_y != max_y),
    {
        match self.last_len {
            Some(l) => l != len || self.last_index != index || self.last_max_x != max_x
                || self.last_max_y != max_y,
            None => true,
        }
    }

    /// Lines added to the log since the last redraw while the offset stayed
    /// put, which a scrolled-back view must follow.
    pub fn grown(&self, len: usize, index: usize) -> (r: usize)
        ensures
            r == match self.last_len {
                Some(l) => if l <= len && self.last_index == index { len - l } else { 0 },
                None => 0,
            },
    {
        match self.last_len {
            Some(l) => if l <= len && self.last_index == index { len - l } else { 0 },
            None => 0,
        }
    }

    /// Records what was just drawn.
    pub fn mark_drawn(&mut self, len: usize, index: usize, max_x: i32, max_y: i32)
        ensures
            *final(self) == (ScreenState { last_len: Some(len), last_index: index, last_max_x: max_x, last_max_y: max_y }),
    {
        *self = ScreenState { last_len: Some(len), last_index: index, last_max_x: max_x, last_max_y: max_y };
    }
}

} // verus!
