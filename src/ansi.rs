//! Styled server text: ANSI escape sequences and `§` format codes.

use crate::text::{chars_of, push_str, string_of_range};
use vstd::prelude::*;

verus! {

/// The escape character that opens an ANSI sequence.
pub open spec fn esc() -> char {
    '\u{1b}'
}

/// The marker character that opens a Minecraft format code.
pub open spec fn mc_marker() -> char {
    '§'
}

/// A color or format code, in the closed set the console understands.
#[derive(Copy, Clone, Debug, PartialEq, Eq, Structural)]
pub enum AnsiCode {
    Black,
    DarkBlue,
    DarkGreen,
    DarkAqua,
    DarkRed,
    DarkPurple,
    Gold,
    Gray,
    DarkGray,
    Blue,
    Green,
    Aqua,
    Red,
    LightPurple,
    Yellow,
    White,
    Obfuscated,
    Bold,
    Strikethrough,
    Underline,
    Italic,
    Reset,
    Warn,
    Error,
}

/// A parsed token: a run of plain text, or one code.
pub enum Token {
    Text(Seq<char>),
    Code(AnsiCode),
}

/// The parameter part of an ANSI sequence, between `ESC [` and `m`.
pub open spec fn ansi_params(c: AnsiCode) -> Seq<char> {
    match c {
        AnsiCode::Black => seq!['0', ';', '3', '0'],
        AnsiCode::DarkBlue => seq!['0', ';', '3', '4'],
        AnsiCode::DarkGreen => seq!['0', ';', '3', '2'],
        AnsiCode::DarkAqua => seq!['0', ';', '3', '6'],
        AnsiCode::DarkRed => seq!['0', ';', '3', '1'],
        AnsiCode::DarkPurple => seq!['0', ';', '3', '5'],
        AnsiCode::Gold => seq!['0', ';', '3', '3'],
        AnsiCode::Gray => seq!['0', ';', '3', '7'],
        AnsiCode::DarkGray => seq!['0', ';', '3', '0', ';', '1'],
        AnsiCode::Blue => seq!['0', ';', '3', '4', ';', '1'],
        AnsiCode::Green => seq!['0', ';', '3', '2', ';', '1'],
        AnsiCode::Aqua => seq!['0', ';', '3', '6', ';', '1'],
        AnsiCode::Red => seq!['0', ';', '3', '1', ';', '1'],
        AnsiCode::LightPurple => seq!['0', ';', '3', '5', ';', '1'],
        AnsiCode::Yellow => seq!['0', ';', '3', '3', ';', '1'],
        AnsiCode::White => seq!['0', ';', '3', '7', ';', '1'],
        AnsiCode::Obfuscated => seq!['5'],
        AnsiCode::Bold => seq!['2', '1'],
        AnsiCode::Strikethrough => seq!['9'],
        AnsiCode::Underline => seq!['4'],
        AnsiCode::Italic => seq!['3'],
        AnsiCode::Reset => seq![],
        AnsiCode::Warn => seq!['3', '1', ';', '1'],
        AnsiCode::Error => seq!['3', '3', ';', '1'],
    }
}

/// The character that follows `§` in a code's Minecraft form.
pub open spec fn mc_key(c: AnsiCode) -> Option<char> {
    match c {
        AnsiCode::Black => Some('0'),
        AnsiCode::DarkBlue => Some('1'),
        AnsiCode::DarkGreen => Some('2'),
        AnsiCode::DarkAqua => Some('3'),
        AnsiCode::DarkRed => Some('4'),
        AnsiCode::DarkPurple => Some('5'),
        AnsiCode::Gold => Some('6'),
        AnsiCode::Gray => Some('7'),
        AnsiCode::DarkGray => Some('8'),
        AnsiCode::Blue => Some('9'),
        AnsiCode::Green => Some('a'),
        AnsiCode::Aqua => Some('b'),
        AnsiCode::Red => Some('c'),
        AnsiCode::LightPurple => Some('d'),
        AnsiCode::Yellow => Some('e'),
        AnsiCode::White => Some('f'),
        AnsiCode::Obfuscated => Some('k'),
        AnsiCode::Bold => Some('l'),
        AnsiCode::Strikethrough => Some('m'),
        AnsiCode::Underline => Some('n'),
        AnsiCode::Italic => Some('o'),
        AnsiCode::Reset => Some('r'),
        AnsiCode::Warn => None,
        AnsiCode::Error => None,
    }
}

impl AnsiCode {
    /// The full ANSI escape sequence of this code.
    pub open spec fn spec_ansi(self) -> Seq<char> {
        seq![esc(), '['] + ansi_params(self) + seq!['m']
    }

    /// The Minecraft form of this code (`§` and one character), empty for the
    /// two severities that have none.
    pub open spec fn spec_mc(self) -> Seq<char> {
        match mc_key(self) {
            Some(k) => seq![mc_marker(), k],
            None => seq![],
        }
    }
}

/// The code whose Minecraft form is `§` followed by `k`.
pub open spec fn code_for_mc_key(k: char) -> Option<AnsiCode> {
    if k == '0' { Some(AnsiCode::Black) }
    else if k == '1' { Some(AnsiCode::DarkBlue) }
    else if k == '2' { Some(AnsiCode::DarkGreen) }
    else if k == '3' { Some(AnsiCode::DarkAqua) }
    else if k == '4' { Some(AnsiCode::DarkRed) }
    else if k == '5' { Some(AnsiCode::DarkPurple) }
    else if k == '6' { Some(AnsiCode::Gold) }
    else if k == '7' { Some(AnsiCode::Gray) }
    else if k == '8' { Some(AnsiCode::DarkGray) }
    else if k == '9' { Some(AnsiCode::Blue) }
    else if k == 'a' { Some(AnsiCode::Green) }
    else if k == 'b' { Some(AnsiCode::Aqua) }
    else if k == 'c' { Some(AnsiCode::Red) }
    else if k == 'd' { Some(AnsiCode::LightPurple) }
    else if k == 'e' { Some(AnsiCode::Yellow) }
    else if k == 'f' { Some(AnsiCode::White) }
    else if k == 'k' { Some(AnsiCode::Obfuscated) }
    else if k == 'l' { Some(AnsiCode::Bold) }
    else if k == 'm' { Some(AnsiCode::Strikethrough) }
    else if k == 'n' { Some(AnsiCode::Underline) }
    else if k == 'o' { Some(AnsiCode::Italic) }
    else if k == 'r' { Some(AnsiCode::Reset) }
    else { None }
}

/// The color selected by digit `d` in `0;3d`.
pub open spec fn dark_color(d: char) -> Option<AnsiCode> {
    if d == '0' { Some(AnsiCode::Black) }
    else if d == '4' { Some(AnsiCode::DarkBlue) }
    else if d == '2' { Some(AnsiCode::DarkGreen) }
    else if d == '6' { Some(AnsiCode::DarkAqua) }
    else if d == '1' { Some(AnsiCode::DarkRed) }
    else if d == '5' { Some(AnsiCode::DarkPurple) }
    else if d == '3' { Some(AnsiCode::Gold) }
    else if d == '7' { Some(AnsiCode::Gray) }
    else { None }
}

/// The color selected by digit `d` in `0;3d;1`.
pub open spec fn bright_color(d: char) -> Option<AnsiCode> {
    if d == '0' { Some(AnsiCode::DarkGray) }
    else if d == '4' { Some(AnsiCode::Blue) }
    else if d == '2' { Some(AnsiCode::Green) }
    else if d == '6' { Some(AnsiCode::Aqua) }
    else if d == '1' { Some(AnsiCode::Red) }
    else if d == '5' { Some(AnsiCode::LightPurple) }
    else if d == '3' { Some(AnsiCode::Yellow) }
    else if d == '7' { Some(AnsiCode::White) }
    else { None }
}

/// The code whose ANSI parameters are `p`.
pub open spec fn code_for_params(p: Seq<char>) -> Option<AnsiCode> {
    if p.len() == 0 {
        Some(AnsiCode::Reset)
    } else if p.len() == 1 {
        if p[0] == '5' { Some(AnsiCode::Obfuscated) }
        else if p[0] == '9' { Some(AnsiCode::Strikethrough) }
        else if p[0] == '4' { Some(AnsiCode::Underline) }
        else if p[0] == '3' { Some(AnsiCode::Italic) }
        else { None }
    } else if p.len() == 2 {
        if p[0] == '2' && p[1] == '1' { Some(AnsiCode::Bold) } else { None }
    } else if p.len() == 4 {
        if p[0] == '0' && p[1] == ';' && p[2] == '3' {
            dark_color(p[3])
        } else if p[0] == '3' && p[1] == '1' && p[2] == ';' && p[3] == '1' {
            Some(AnsiCode::Warn)
        } else if p[0] == '3' && p[1] == '3' && p[2] == ';' && p[3] == '1' {
            Some(AnsiCode::Error)
        } else {
            None
        }
    } else if p.len() == 6 {
        if p[0] == '0' && p[1] == ';' && p[2] == '3' && p[4] == ';' && p[5] == '1' {
            bright_color(p[3])
        } else {
            None
        }
    } else {
        None
    }
}

/// The code whose ANSI or Minecraft form is exactly `t`, if there is one.
pub open spec fn code_for(t: Seq<char>) -> Option<AnsiCode> {
    if t.len() == 2 && t[0] == mc_marker() {
        code_for_mc_key(t[1])
    } else if t.len() >= 3 && t[0] == esc() && t[1] == '[' && t[t.len() - 1] == 'm' {
        code_for_params(t.subrange(2, t.len() - 1))
    } else {
        None
    }
}

/// Each code is recognized again from its ANSI form, and from its Minecraft form
/// where it has one.
pub proof fn lemma_code_for_forms(c: AnsiCode)
    ensures
        code_for(c.spec_ansi()) == Some(c),
        c.spec_mc().len() > 0 ==> code_for(c.spec_mc()) == Some(c),
{
    let a = c.spec_ansi();
    assert(a.subrange(2, a.len() - 1) =~= ansi_params(c));
}

impl AnsiCode {
    /// The two characters that open an ANSI sequence.
    pub fn prefix() -> (r: &'static str)
        ensures
            r@ == seq![esc(), '['],
    {
        proof { reveal_strlit("\u{001B}["); }
        "\u{001B}["
    }

    /// The character that closes an ANSI sequence.
    pub fn suffix() -> (r: &'static str)
        ensures
            r@ == seq!['m'],
    {
        proof { reveal_strlit("m"); }
        "m"
    }

    /// The marker character of a Minecraft format code.
    pub fn mc_prefix() -> (r: char)
        ensures
            r == mc_marker(),
    {
        '§'
    }

    /// The ANSI escape sequence of this code.
    pub fn ansi_code(&self) -> (r: &'static str)
        ensures
            r@ == self.spec_ansi(),
    {
        match *self {
            AnsiCode::Black => {
                proof { reveal_strlit("\u{001B}[0;30m"); }
                "\u{001B}[0;30m"
            },
            AnsiCode::DarkBlue => {
                proof { reveal_strlit("\u{001B}[0;34m"); }
                "\u{001B}[0;34m"
            },
            AnsiCode::DarkGreen => {
                proof { reveal_strlit("\u{001B}[0;32m"); }
                "\u{001B}[0;32m"
            },
            AnsiCode::DarkAqua => {
                proof { reveal_strlit("\u{001B}[0;36m"); }
                "\u{001B}[0;36m"
            },
            AnsiCode::DarkRed => {
                proof { reveal_strlit("\u{001B}[0;31m"); }
                "\u{001B}[0;31m"
            },
            AnsiCode::DarkPurple => {
                proof { reveal_strlit("\u{001B}[0;35m"); }
                "\u{001B}[0;35m"
            },
            AnsiCode::Gold => {
                proof { reveal_strlit("\u{001B}[0;33m"); }
                "\u{001B}[0;33m"
            },
            AnsiCode::Gray => {
                proof { reveal_strlit("\u{001B}[0;37m"); }
                "\u{001B}[0;37m"
            },
            AnsiCode::DarkGray => {
                proof { reveal_strlit("\u{001B}[0;30;1m"); }
                "\u{001B}[0;30;1m"
            },
            AnsiCode::Blue => {
                proof { reveal_strlit("\u{001B}[0;34;1m"); }
                "\u{001B}[0;34;1m"
            },
            AnsiCode::Green => {
                proof { reveal_strlit("\u{001B}[0;32;1m"); }
                "\u{001B}[0;32;1m"
            },
            AnsiCode::Aqua => {
                proof { reveal_strlit("\u{001B}[0;36;1m"); }
                "\u{001B}[0;36;1m"
            },
            AnsiCode::Red => {
                proof { reveal_strlit("\u{001B}[0;31;1m"); }
                "\u{001B}[0;31;1m"
            },
            AnsiCode::LightPurple => {
                proof { reveal_strlit("\u{001B}[0;35;1m"); }
                "\u{001B}[0;35;1m"
            },
            AnsiCode::Yellow => {
                proof { reveal_strlit("\u{001B}[0;33;1m"); }
                "\u{001B}[0;33;1m"
            },
            AnsiCode::White => {
                proof { reveal_strlit("\u{001B}[0;37;1m"); }
                "\u{001B}[0;37;1m"
            },
            AnsiCode::Obfuscated => {
                proof { reveal_strlit("\u{001B}[5m"); }
                "\u{001B}[5m"
            },
            AnsiCode::Bold => {
                proof { reveal_strlit("\u{001B}[21m"); }
                "\u{001B}[21m"
            },
            AnsiCode::Strikethrough => {
                proof { reveal_strlit("\u{001B}[9m"); }
                "\u{001B}[9m"
            },
            AnsiCode::Underline => {
                proof { reveal_strlit("\u{001B}[4m"); }
                "\u{001B}[4m"
            },
            AnsiCode::Italic => {
                proof { reveal_strlit("\u{001B}[3m"); }
                "\u{001B}[3m"
            },
            AnsiCode::Reset => {
                proof { reveal_strlit("\u{001B}[m"); }
                "\u{001B}[m"
            },
            AnsiCode::Warn => {
                proof { reveal_strlit("\u{001B}[31;1m"); }
                "\u{001B}[31;1m"
            },
            AnsiCode::Error => {
                proof { reveal_strlit("\u{001B}[33;1m"); }
                "\u{001B}[33;1m"
            },
        }
    }

    /// The Minecraft form of this code; empty for the two severities.
    pub fn mc_code(&self) -> (r: &'static str)
        ensures
            r@ == self.spec_mc(),
    {
        match *self {
            AnsiCode::Black => {
                proof { reveal_strlit("§0"); }
                "§0"
            },
            AnsiCode::DarkBlue => {
                proof { reveal_strlit("§1"); }
                "§1"
            },
            AnsiCode::DarkGreen => {
                proof { reveal_strlit("§2"); }
                "§2"
            },
            AnsiCode::DarkAqua => {
                proof { reveal_strlit("§3"); }
                "§3"
            },
            AnsiCode::DarkRed => {
                proof { reveal_strlit("§4"); }
                "§4"
            },
            AnsiCode::DarkPurple => {
                proof { reveal_strlit("§5"); }
                "§5"
            },
            AnsiCode::Gold => {
                proof { reveal_strlit("§6"); }
                "§6"
            },
            AnsiCode::Gray => {
                proof { reveal_strlit("§7"); }
                "§7"
            },
            AnsiCode::DarkGray => {
                proof { reveal_strlit("§8"); }
                "§8"
            },
            AnsiCode::Blue => {
                proof { reveal_strlit("§9"); }
                "§9"
            },
            AnsiCode::Green => {
                proof { reveal_strlit("§a"); }
                "§a"
            },
            AnsiCode::Aqua => {
                proof { reveal_strlit("§b"); }
                "§b"
            },
            AnsiCode::Red => {
                proof { reveal_strlit("§c"); }
                "§c"
            },
            AnsiCode::LightPurple => {
                proof { reveal_strlit("§d"); }
                "§d"
            },
            AnsiCode::Yellow => {
                proof { reveal_strlit("§e"); }
                "§e"
            },
            AnsiCode::White => {
                proof { reveal_strlit("§f"); }
                "§f"
            },
            AnsiCode::Obfuscated => {
                proof { reveal_strlit("§k"); }
                "§k"
            },
            AnsiCode::Bold => {
                proof { reveal_strlit("§l"); }
                "§l"
            },
            AnsiCode::Strikethrough => {
                proof { reveal_strlit("§m"); }
                "§m"
            },
            AnsiCode::Underline => {
                proof { reveal_strlit("§n"); }
                "§n"
            },
            AnsiCode::Italic => {
                proof { reveal_strlit("§o"); }
                "§o"
            },
            AnsiCode::Reset => {
                proof { reveal_strlit("§r"); }
                "§r"
            },
            AnsiCode::Warn => {
                proof { reveal_strlit(""); }
                ""
            },
            AnsiCode::Error => {
                proof { reveal_strlit(""); }
                ""
            },
        }
    }

    /// Every code, in declaration order.
    pub fn iter() -> (r: Vec<AnsiCode>)
        ensures
            r@ == all_codes(),
    {
        vec![
            AnsiCode::Black,
            AnsiCode::DarkBlue,
            AnsiCode::DarkGreen,
            AnsiCode::DarkAqua,
            AnsiCode::DarkRed,
            AnsiCode::DarkPurple,
            AnsiCode::Gold,
            AnsiCode::Gray,
            AnsiCode::DarkGray,
            AnsiCode::Blue,
            AnsiCode::Green,
            AnsiCode::Aqua,
            AnsiCode::Red,
            AnsiCode::LightPurple,
            AnsiCode::Yellow,
            AnsiCode::White,
            AnsiCode::Obfuscated,
            AnsiCode::Bold,
            AnsiCode::Strikethrough,
            AnsiCode::Underline,
            AnsiCode::Italic,
            AnsiCode::Reset,
            AnsiCode::Warn,
            AnsiCode::Error,
        ]
    }
}

/// Every code, in declaration order.
pub open spec fn all_codes() -> Seq<AnsiCode> {
    seq![
        AnsiCode::Black,
        AnsiCode::DarkBlue,
        AnsiCode::DarkGreen,
        AnsiCode::DarkAqua,
        AnsiCode::DarkRed,
        AnsiCode::DarkPurple,
        AnsiCode::Gold,
        AnsiCode::Gray,
        AnsiCode::DarkGray,
        AnsiCode::Blue,
        AnsiCode::Green,
        AnsiCode::Aqua,
        AnsiCode::Red,
        AnsiCode::LightPurple,
        AnsiCode::Yellow,
        AnsiCode::White,
        AnsiCode::Obfuscated,
        AnsiCode::Bold,
        AnsiCode::Strikethrough,
        AnsiCode::Underline,
        AnsiCode::Italic,
        AnsiCode::Reset,
        AnsiCode::Warn,
        AnsiCode::Error,
    ]
}

/// The exec counterpart of `code_for_mc_key`.
fn mc_key_code(k: char) -> (r: Option<AnsiCode>)
    ensures
        r == code_for_mc_key(k),
{
    if k == '0' { Some(AnsiCode::Black) }
    else if k == '1' { Some(AnsiCode::DarkBlue) }
    else if k == '2' { Some(AnsiCode::DarkGreen) }
    else if k == '3' { Some(AnsiCode::DarkAqua) }
    else if k == '4' { Some(AnsiCode::DarkRed) }
    else if k == '5' { Some(AnsiCode::DarkPurple) }
    else if k == '6' { Some(AnsiCode::Gold) }
    else if k == '7' { Some(AnsiCode::Gray) }
    else if k == '8' { Some(AnsiCode::DarkGray) }
    else if k == '9' { Some(AnsiCode::Blue) }
    else if k == 'a' { Some(AnsiCode::Green) }
    else if k == 'b' { Some(AnsiCode::Aqua) }
    else if k == 'c' { Some(AnsiCode::Red) }
    else if k == 'd' { Some(AnsiCode::LightPurple) }
    else if k == 'e' { Some(AnsiCode::Yellow) }
    else if k == 'f' { Some(AnsiCode::White) }
    else if k == 'k' { Some(AnsiCode::Obfuscated) }
    else if k == 'l' { Some(AnsiCode::Bold) }
    else if k == 'm' { Some(AnsiCode::Strikethrough) }
    else if k == 'n' { Some(AnsiCode::Underline) }
    else if k == 'o' { Some(AnsiCode::Italic) }
    else if k == 'r' { Some(AnsiCode::Reset) }
    else { None }
}

/// The exec counterpart of `dark_color` and `bright_color`.
fn color_code(d: char, bright: bool) -> (r: Option<AnsiCode>)
    ensures
        r == (if bright { bright_color(d) } else { dark_color(d) }),
{
    let (dark, light) = if d == '0' {
        (AnsiCode::Black, AnsiCode::DarkGray)
    } else if d == '4' {
        (AnsiCode::DarkBlue, AnsiCode::Blue)
    } else if d == '2' {
        (AnsiCode::DarkGreen, AnsiCode::Green)
    } else if d == '6' {
        (AnsiCode::DarkAqua, AnsiCode::Aqua)
    } else if d == '1' {
        (AnsiCode::DarkRed, AnsiCode::Red)
    } else if d == '5' {
        (AnsiCode::DarkPurple, AnsiCode::LightPurple)
    } else if d == '3' {
        (AnsiCode::Gold, AnsiCode::Yellow)
    } else if d == '7' {
        (AnsiCode::Gray, AnsiCode::White)
    } else {
        return None;
    };
    if bright { Some(light) } else { Some(dark) }
}

/// The code whose ANSI parameters are `cs[lo..hi]`.
fn params_code(cs: &Vec<char>, lo: usize, hi: usize) -> (r: Option<AnsiCode>)
    requires
        lo <= hi <= cs@.len(),
    ensures
        r == code_for_params(cs@.subrange(lo as int, hi as int)),
{
    let len = hi - lo;
    if len == 0 {
        Some(AnsiCode::Reset)
    } else if len == 1 {
        let a = cs[lo];
        if a == '5' { Some(AnsiCode::Obfuscated) }
        else if a == '9' { Some(AnsiCode::Strikethrough) }
        else if a == '4' { Some(AnsiCode::Underline) }
        else if a == '3' { Some(AnsiCode::Italic) }
        else { None }
    } else if len == 2 {
        if cs[lo] == '2' && cs[lo + 1] == '1' { Some(AnsiCode::Bold) } else { None }
    } else if len == 4 {
        if cs[lo] == '0' && cs[lo + 1] == ';' && cs[lo + 2] == '3' {
            color_code(cs[lo + 3], false)
        } else if cs[lo] == '3' && cs[lo + 1] == '1' && cs[lo + 2] == ';' && cs[lo + 3] == '1' {
            Some(AnsiCode::Warn)
        } else if cs[lo] == '3' && cs[lo + 1] == '3' && cs[lo + 2] == ';' && cs[lo + 3] == '1' {
            Some(AnsiCode::Error)
        } else {
            None
        }
    } else if len == 6 {
        if cs[lo] == '0' && cs[lo + 1] == ';' && cs[lo + 2] == '3' && cs[lo + 4] == ';'
            && cs[lo + 5] == '1' {
            color_code(cs[lo + 3], true)
        } else {
            None
        }
    } else {
        None
    }
}

/// The code written as `cs[lo..hi]`, in either form.
fn code_of_range(cs: &Vec<char>, lo: usize, hi: usize) -> (r: Option<AnsiCode>)
    requires
        lo <= hi <= cs@.len(),
    ensures
        r == code_for(cs@.subrange(lo as int, hi as int)),
{
    let ghost t = cs@.subrange(lo as int, hi as int);
    let len = hi - lo;
    if len == 2 && cs[lo] == '§' {
        mc_key_code(cs[lo + 1])
    } else if len >= 3 && cs[lo] == '\u{1b}' && cs[lo + 1] == '[' && cs[hi - 1] == 'm' {
        assert(t.subrange(2, t.len() - 1) =~= cs@.subrange(lo + 2, hi - 1));
        params_code(cs, lo + 2, hi - 1)
    } else {
        None
    }
}

/// A token as the parser emits it.
#[derive(Clone, Debug, PartialEq, Eq)]
pub enum MessageElement {
    Text(String),
    Code(AnsiCode),
}

impl View for MessageElement {
    type V = Token;

    open spec fn view(&self) -> Token {
        match self {
            MessageElement::Text(s) => Token::Text(s@),
            MessageElement::Code(c) => Token::Code(*c),
        }
    }
}

/// The tokens that a sequence of elements stands for.
pub open spec fn tokens_of(v: Seq<MessageElement>) -> Seq<Token> {
    v.map_values(|e: MessageElement| e@)
}

/// One line of styled text, as an ordered sequence of tokens.
#[derive(Clone, Debug, PartialEq, Eq)]
pub struct StyledMessage {
    pub messages: Vec<MessageElement>,
}

impl View for StyledMessage {
    type V = Seq<Token>;

    open spec fn view(&self) -> Seq<Token> {
        tokens_of(self.messages@)
    }
}

/// Position `i` of `s` opens a code: `§`, or `ESC` followed by `[` with an
/// `m` somewhere after them to close the sequence. An `ESC [` with no `m` after
/// it opens nothing and stays ordinary text.
pub open spec fn is_marker_at(s: Seq<char>, i: int) -> bool {
    0 <= i < s.len() && (s[i] == mc_marker() || (s[i] == esc() && i + 1 < s.len() && s[i + 1]
        == '[' && find_m_from(s, i + 2) < s.len()))
}

/// The first position at or after `i` that opens a code, or the length of `s`.
pub open spec fn marker_from(s: Seq<char>, i: int) -> int
    decreases s.len() - i,
{
    if i < 0 || i >= s.len() {
        s.len() as int
    } else if is_marker_at(s, i) {
        i
    } else {
        marker_from(s, i + 1)
    }
}

/// The first position at or after `i` that holds `m`, or the length of `s`.
pub open spec fn find_m_from(s: Seq<char>, i: int) -> int
    decreases s.len() - i,
{
    if i < 0 || i >= s.len() {
        s.len() as int
    } else if s[i] == 'm' {
        i
    } else {
        find_m_from(s, i + 1)
    }
}

/// `marker_from` stays in bounds, lands on an opener, and skips none.
pub proof fn lemma_marker_from(s: Seq<char>, i: int)
    requires
        0 <= i <= s.len(),
    ensures
        i <= marker_from(s, i) <= s.len(),
        marker_from(s, i) < s.len() ==> is_marker_at(s, marker_from(s, i)),
        forall|k: int| i <= k < marker_from(s, i) ==> !is_marker_at(s, k),
    decreases s.len() - i,
{
    if i < s.len() && !is_marker_at(s, i) {
        lemma_marker_from(s, i + 1);
    }
}

/// `find_m_from` stays in bounds, lands on an `m`, and skips none.
pub proof fn lemma_find_m_from(s: Seq<char>, i: int)
    requires
        0 <= i <= s.len(),
    ensures
        i <= find_m_from(s, i) <= s.len(),
        find_m_from(s, i) < s.len() ==> s[find_m_from(s, i)] == 'm',
        forall|k: int| i <= k < find_m_from(s, i) ==> s[k] != 'm',
    decreases s.len() - i,
{
    if i < s.len() && s[i] != 'm' {
        lemma_find_m_from(s, i + 1);
    }
}

/// The tokens that the code text `t` contributes: one code, or nothing when
/// `t` names no known code.
pub open spec fn code_tokens(t: Seq<char>) -> Seq<Token> {
    match code_for(t) {
        Some(c) => seq![Token::Code(c)],
        None => seq![],
    }
}

/// The tokens of `s` from position `p` on: text up to the next code opener,
/// then the code (two characters for `§`, up to the next `m` for ANSI), and so
/// on to the end. An ANSI opener with no `m` after it is no opener, so it stays
/// in the text around it.
pub open spec fn parse_from(s: Seq<char>, p: int) -> Seq<Token>
    decreases s.len() - p,
    via parse_from_decreases
{
    if p < 0 || p >= s.len() {
        seq![]
    } else {
        let i = marker_from(s, p);
        if i > p {
            seq![Token::Text(s.subrange(p, i))] + parse_from(s, i)
        } else if s[p] == mc_marker() {
            let e = if p + 2 <= s.len() { p + 2 } else { s.len() as int };
            code_tokens(s.subrange(p, e)) + parse_from(s, e)
        } else {
            let j = find_m_from(s, p + 2);
            code_tokens(s.subrange(p, j + 1)) + parse_from(s, j + 1)
        }
    }
}

#[via_fn]
proof fn parse_from_decreases(s: Seq<char>, p: int) {
    if 0 <= p < s.len() {
        lemma_marker_from(s, p);
        if marker_from(s, p) == p && s[p] != mc_marker() {
            lemma_find_m_from(s, p + 2);
        }
    }
}

/// The tokens of the whole text `s`.
pub open spec fn spec_parse(s: Seq<char>) -> Seq<Token> {
    parse_from(s, 0)
}

/// For each position `k` from the end down to 0, whether an `m` stands at or
/// after `k`: entry `n - k` answers for position `k`.
fn m_after_table(cs: &Vec<char>) -> (r: Vec<bool>)
    ensures
        r@.len() == cs@.len() + 1,
        forall|k: int| 0 <= k <= cs@.len() ==> r@[cs@.len() - k] == (find_m_from(cs@, k) < cs@.len()),
{
    let n = cs.len();
    let mut rev: Vec<bool> = Vec::new();
    rev.push(false);
    let mut last = false;
    let mut k = n;
    while k > 0
        invariant
            n == cs@.len(),
            k <= n,
            rev@.len() == n - k + 1,
            last == rev@[n - k],
            forall|j: int| k <= j <= n ==> rev@[n - j] == (find_m_from(cs@, j) < n),
        decreases k,
    {
        k = k - 1;
        proof {
            lemma_find_m_from(cs@, k as int + 1);
            assert((find_m_from(cs@, k as int) < n) == (cs@[k as int] == 'm' || find_m_from(cs@, k + 1) < n));
        }
        last = cs[k] == 'm' || last;
        let ghost old_rev = rev@;
        rev.push(last);
        assert forall|j: int| k <= j <= n implies rev@[n - j] == (find_m_from(cs@, j) < n) by {
            if j > k {
                assert(rev@[n - j] == old_rev[n - j]);
            }
        }
    }
    rev
}

/// The first position at or after `i` that opens a code; `m_after` is the
/// table of `m_after_table`.
fn next_marker(cs: &Vec<char>, m_after: &Vec<bool>, i: usize) -> (r: usize)
    requires
        i <= cs@.len(),
        m_after@.len() == cs@.len() + 1,
        forall|k: int| 0 <= k <= cs@.len() ==> m_after@[cs@.len() - k] == (find_m_from(cs@, k) < cs@.len()),
    ensures
        r == marker_from(cs@, i as int),
{
    let n = cs.len();
    let mut k = i;
    while k < n
        invariant
            i <= k <= n == cs@.len(),
            m_after@.len() == n + 1,
            forall|k: int| 0 <= k <= n ==> m_after@[n - k] == (find_m_from(cs@, k) < n),
            marker_from(cs@, i as int) == marker_from(cs@, k as int),
        decreases n - k,
    {
        if cs[k] == '§' || (cs[k] == '\u{1b}' && k + 1 < n && cs[k + 1] == '[' && m_after[n - (k + 2)]) {
            return k;
        }
        k = k + 1;
    }
    k
}

/// The first position at or after `i` that holds `m`.
fn next_m(cs: &Vec<char>, i: usize) -> (r: usize)
    requires
        i <= cs@.len(),
    ensures
        r == find_m_from(cs@, i as int),
{
    let n = cs.len();
    let mut k = i;
    while k < n
        invariant
            i <= k <= n == cs@.len(),
            find_m_from(cs@, i as int) == find_m_from(cs@, k as int),
        decreases n - k,
    {
        if cs[k] == 'm' {
            return k;
        }
        k = k + 1;
    }
    k
}

impl StyledMessage {
    /// Splits `message` into text and code tokens.
    pub fn parse(message: &str) -> (r: StyledMessage)
        ensures
            r@ == spec_parse(message@),
    {
        let cs = chars_of(message);
        let n = cs.len();
        let m_after = m_after_table(&cs);
        let mut result: Vec<MessageElement> = Vec::new();
        let mut p: usize = 0;
        while p < n
            invariant
                n == cs@.len(),
                p <= n,
                m_after@.len() == n + 1,
                forall|k: int| 0 <= k <= n ==> m_after@[n - k] == (find_m_from(cs@, k) < n),
                tokens_of(result@) + parse_from(cs@, p as int) == spec_parse(cs@),
            decreases n - p,
        {
            let ghost before = tokens_of(result@);
            let i = next_marker(&cs, &m_after, p);
            proof { lemma_marker_from(cs@, p as int); }
            if i > p {
                result.push(MessageElement::Text(string_of_range(&cs, p, i)));
                assert(tokens_of(result@) =~= before + seq![Token::Text(cs@.subrange(p as int, i as int))]);
                p = i;
            } else if cs[p] == '§' {
                let e = if n - p >= 2 { p + 2 } else { n };
                match code_of_range(&cs, p, e) {
                    Some(c) => {
                        result.push(MessageElement::Code(c));
                        assert(tokens_of(result@) =~= before + seq![Token::Code(c)]);
                    },
                    None => {
                        assert(before + seq![] =~= before);
                    },
                }
                p = e;
            } else {
                let j = next_m(&cs, p + 2);
                proof { lemma_find_m_from(cs@, p as int + 2); }
                match code_of_range(&cs, p, j + 1) {
                    Some(c) => {
                        result.push(MessageElement::Code(c));
                        assert(tokens_of(result@) =~= before + seq![Token::Code(c)]);
                    },
                    None => {
                        assert(before + seq![] =~= before);
                    },
                }
                p = j + 1;
            }
            assert(tokens_of(result@) + parse_from(cs@, p as int) =~= spec_parse(cs@));
        }
        assert(tokens_of(result@) + parse_from(cs@, p as int) =~= tokens_of(result@));
        StyledMessage { messages: result }
    }
}

/// The text a token is written as when re-serialized.
pub open spec fn token_text(t: Token) -> Seq<char> {
    match t {
        Token::Text(s) => s,
        Token::Code(c) => c.spec_ansi(),
    }
}

/// The tokens written one after another.
pub open spec fn concat_text(ts: Seq<Token>) -> Seq<char>
    decreases ts.len(),
{
    if ts.len() == 0 {
        seq![]
    } else {
        concat_text(ts.drop_last()) + token_text(ts.last())
    }
}

/// The last code among the tokens, if any.
pub open spec fn last_code(ts: Seq<Token>) -> Option<AnsiCode>
    decreases ts.len(),
{
    if ts.len() == 0 {
        None
    } else {
        match ts.last() {
            Token::Code(c) => Some(c),
            Token::Text(_) => last_code(ts.drop_last()),
        }
    }
}

/// The tokens as one string of ANSI text, closed by a reset unless the last code
/// already is one.
pub open spec fn spec_get_string(ts: Seq<Token>) -> Seq<char> {
    concat_text(ts) + match last_code(ts) {
        Some(c) => if c != AnsiCode::Reset {
            AnsiCode::Reset.spec_ansi()
        } else {
            seq![]
        },
        None => seq![],
    }
}

impl StyledMessage {
    /// The message as ANSI text; codes are written in their ANSI form and a
    /// reset closes the text unless the last code already is one.
    pub fn get_string(&self) -> (r: String)
        ensures
            r@ == spec_get_string(self@),
    {
        let ghost ts = self@;
        let mut last: Option<AnsiCode> = None;
        let mut result = String::new();
        let n = self.messages.len();
        let mut i: usize = 0;
        while i < n
            invariant
                n == self.messages@.len(),
                ts == self@,
                i <= n,
                result@ == concat_text(ts.take(i as int)),
                last == last_code(ts.take(i as int)),
            decreases n - i,
        {
            assert(ts.take(i as int + 1).drop_last() =~= ts.take(i as int));
            match &self.messages[i] {
                MessageElement::Text(s) => {
                    push_str(&mut result, s.as_str());
                },
                MessageElement::Code(c) => {
                    push_str(&mut result, c.ansi_code());
                    last = Some(*c);
                },
            }
            i = i + 1;
        }
        assert(ts.take(n as int) =~= ts);
        if let Some(c) = last {
            if c != AnsiCode::Reset {
                push_str(&mut result, AnsiCode::Reset.ansi_code());
            }
        }
        proof {
            if last is None || last == Some(AnsiCode::Reset) {
                assert(result@ + Seq::<char>::empty() =~= result@);
            }
        }
        result
    }
}

/// A terminal text attribute.
#[derive(Copy, Clone, Debug, PartialEq, Eq, Structural)]
pub enum TextAttr {
    Blink,
    Bold,
    Underline,
    Italic,
}

/// The terminal look of a code: a color pair (pair number, foreground,
/// background, -1 for the default) and an attribute. Colors 0 to 7 are black,
/// red, green, yellow, blue, magenta, cyan and white; 8 to 15 their bright
/// forms. Strikethrough and reset have no look of their own; the two severities
/// reuse the yellow and red pairs, in bold.
pub open spec fn spec_attr_pair(c: AnsiCode) -> (Option<(i16, i16, i16)>, Option<TextAttr>) {
    match c {
        AnsiCode::Black => (Some((1, 0, 7)), None),
        AnsiCode::DarkBlue => (Some((2, 4, -1i16)), None),
        AnsiCode::DarkGreen => (Some((3, 2, -1i16)), None),
        AnsiCode::DarkAqua => (Some((4, 6, -1i16)), None),
        AnsiCode::DarkRed => (Some((5, 1, -1i16)), None),
        AnsiCode::DarkPurple => (Some((6, 5, -1i16)), None),
        AnsiCode::Gold => (Some((7, 3, -1i16)), None),
        AnsiCode::Gray => (Some((8, 7, 0)), None),
        AnsiCode::DarkGray => (Some((9, 8, 7)), None),
        AnsiCode::Blue => (Some((10, 12, -1i16)), None),
        AnsiCode::Green => (Some((11, 10, -1i16)), None),
        AnsiCode::Aqua => (Some((12, 14, -1i16)), None),
        AnsiCode::Red => (Some((13, 9, -1i16)), None),
        AnsiCode::LightPurple => (Some((14, 13, -1i16)), None),
        AnsiCode::Yellow => (Some((15, 11, -1i16)), None),
        AnsiCode::White => (Some((16, 15, 0)), None),
        AnsiCode::Obfuscated => (None, Some(TextAttr::Blink)),
        AnsiCode::Bold => (None, Some(TextAttr::Bold)),
        AnsiCode::Strikethrough => (None, None),
        AnsiCode::Underline => (None, Some(TextAttr::Underline)),
        AnsiCode::Italic => (None, Some(TextAttr::Italic)),
        AnsiCode::Reset => (None, None),
        AnsiCode::Warn => (Some((15, 3, -1i16)), Some(TextAttr::Bold)),
        AnsiCode::Error => (Some((13, 1, -1i16)), Some(TextAttr::Bold)),
    }
}

impl AnsiCode {
    /// The terminal look of this code.
    pub fn attr_pair(&self) -> (r: (Option<(i16, i16, i16)>, Option<TextAttr>))
        ensures
            r == spec_attr_pair(*self),
    {
        match *self {
            AnsiCode::Black => (Some((1, 0, 7)), None),
            AnsiCode::DarkBlue => (Some((2, 4, -1)), None),
            AnsiCode::DarkGreen => (Some((3, 2, -1)), None),
            AnsiCode::DarkAqua => (Some((4, 6, -1)), None),
            AnsiCode::DarkRed => (Some((5, 1, -1)), None),
            AnsiCode::DarkPurple => (Some((6, 5, -1)), None),
            AnsiCode::Gold => (Some((7, 3, -1)), None),
            AnsiCode::Gray => (Some((8, 7, 0)), None),
            AnsiCode::DarkGray => (Some((9, 8, 7)), None),
            AnsiCode::Blue => (Some((10, 12, -1)), None),
            AnsiCode::Green => (Some((11, 10, -1)), None),
            AnsiCode::Aqua => (Some((12, 14, -1)), None),
            AnsiCode::Red => (Some((13, 9, -1)), None),
            AnsiCode::LightPurple => (Some((14, 13, -1)), None),
            AnsiCode::Yellow => (Some((15, 11, -1)), None),
            AnsiCode::White => (Some((16, 15, 0)), None),
            AnsiCode::Obfuscated => (None, Some(TextAttr::Blink)),
            AnsiCode::Bold => (None, Some(TextAttr::Bold)),
            AnsiCode::Strikethrough => (None, None),
            AnsiCode::Underline => (None, Some(TextAttr::Underline)),
            AnsiCode::Italic => (None, Some(TextAttr::Italic)),
            AnsiCode::Reset => (None, None),
            AnsiCode::Warn => (Some((15, 3, -1)), Some(TextAttr::Bold)),
            AnsiCode::Error => (Some((13, 1, -1)), Some(TextAttr::Bold)),
        }
    }
}

} // verus!
