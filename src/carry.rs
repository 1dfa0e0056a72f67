//! Splitting styled server output into lines while keeping styles that span
//! several lines.

use crate::ansi::{spec_parse, tokens_of, AnsiCode, MessageElement, StyledMessage, Token};
use crate::text::{chars_of, push_char, string_of_range};
use vstd::prelude::*;

verus! {

/// `s` with each tab replaced by four spaces.
pub open spec fn expand_tabs(s: Seq<char>) -> Seq<char>
    decreases s.len(),
{
    if s.len() == 0 {
        seq![]
    } else {
        expand_tabs(s.drop_last()) + if s.last() == '\t' {
            seq![' ', ' ', ' ', ' ']
        } else {
            seq![s.last()]
        }
    }
}

/// The codes still active after `ts`, starting from `carry`: a reset clears
/// them, any other code is added.
pub open spec fn carry_after(carry: Seq<AnsiCode>, ts: Seq<Token>) -> Seq<AnsiCode>
    decreases ts.len(),
{
    if ts.len() == 0 {
        carry
    } else {
        let before = carry_after(carry, ts.drop_last());
        match ts.last() {
            Token::Code(c) => if c == AnsiCode::Reset {
                seq![]
            } else {
                before.push(c)
            },
            Token::Text(_) => before,
        }
    }
}

/// Codes as tokens.
pub open spec fn code_tokens_of(cs: Seq<AnsiCode>) -> Seq<Token> {
    cs.map_values(|c: AnsiCode| Token::Code(c))
}

/// The tokens of one raw line, tabs expanded.
pub open spec fn line_tokens(line: Seq<char>) -> Seq<Token> {
    spec_parse(expand_tabs(line))
}

/// One line as stored: the carried codes, the line's own tokens, and a reset.
pub open spec fn carried_line(carry: Seq<AnsiCode>, line: Seq<char>) -> Seq<Token> {
    code_tokens_of(carry) + line_tokens(line) + seq![Token::Code(AnsiCode::Reset)]
}

/// Some token of `ts` is text.
pub open spec fn has_text(ts: Seq<Token>) -> bool {
    exists|i: int| 0 <= i < ts.len() && ts[i] is Text
}

/// The first position at or after `i` that holds a newline, or the length.
pub open spec fn newline_from(s: Seq<char>, i: int) -> int
    decreases s.len() - i,
{
    if i < 0 || i >= s.len() {
        s.len() as int
    } else if s[i] == '\n' {
        i
    } else {
        newline_from(s, i + 1)
    }
}

/// `newline_from` stays in bounds and lands on a newline.
pub proof fn lemma_newline_from(s: Seq<char>, i: int)
    requires
        0 <= i <= s.len(),
    ensures
        i <= newline_from(s, i) <= s.len(),
        newline_from(s, i) < s.len() ==> s[newline_from(s, i)] == '\n',
    decreases s.len() - i,
{
    if i < s.len() && s[i] != '\n' {
        lemma_newline_from(s, i + 1);
    }
}

/// The lines of `s` from position `p`, each ended by a newline or by the end of
/// `s`; a final newline ends the last line and starts no new one.
pub open spec fn lines_from(s: Seq<char>, p: int) -> Seq<Seq<char>>
    decreases s.len() - p,
    via lines_from_decreases
{
    if p < 0 || p >= s.len() {
        seq![]
    } else {
        let e = newline_from(s, p);
        if e >= s.len() {
            seq![s.subrange(p, e)]
        } else {
            seq![s.subrange(p, e)] + lines_from(s, e + 1)
        }
    }
}

#[via_fn]
proof fn lines_from_decreases(s: Seq<char>, p: int) {
    if 0 <= p < s.len() {
        lemma_newline_from(s, p);
    }
}

/// The lines of `s`.
pub open spec fn lines_of(s: Seq<char>) -> Seq<Seq<char>> {
    lines_from(s, 0)
}

/// The codes active after the lines `ls`, starting from `carry`.
pub open spec fn carry_through(carry: Seq<AnsiCode>, ls: Seq<Seq<char>>) -> Seq<AnsiCode>
    decreases ls.len(),
{
    if ls.len() == 0 {
        carry
    } else {
        carry_after(carry_through(carry, ls.drop_last()), line_tokens(ls.last()))
    }
}

/// The stored lines for `ls`, starting from `carry`; lines with no text are left out.
pub open spec fn emitted(carry: Seq<AnsiCode>, ls: Seq<Seq<char>>) -> Seq<Seq<Token>>
    decreases ls.len(),
{
    if ls.len() == 0 {
        seq![]
    } else {
        let line = carried_line(carry_through(carry, ls.drop_last()), ls.last());
        emitted(carry, ls.drop_last()) + if has_text(line) {
            seq![line]
        } else {
            seq![]
        }
    }
}

/// `line` with each tab replaced by four spaces.
pub fn expand_line_tabs(line: &str) -> (r: String)
    ensures
        r@ == expand_tabs(line@),
{
    let cs = chars_of(line);
    let mut out = String::new();
    let mut i: usize = 0;
    while i < cs.len()
        invariant
            i <= cs@.len(),
            cs@ == line@,
            out@ == expand_tabs(cs@.take(i as int)),
        decreases cs.len() - i,
    {
        assert(cs@.take(i as int + 1).drop_last() =~= cs@.take(i as int));
        if cs[i] == '\t' {
            push_char(&mut out, ' ');
            push_char(&mut out, ' ');
            push_char(&mut out, ' ');
            push_char(&mut out, ' ');
            assert(out@ =~= expand_tabs(cs@.take(i as int + 1)));
        } else {
            push_char(&mut out, cs[i]);
            assert(out@ =~= expand_tabs(cs@.take(i as int + 1)));
        }
        i = i + 1;
    }
    assert(cs@.take(cs@.len() as int) =~= cs@);
    out
}

impl MessageElement {
    /// This element is a code, not text.
    pub fn is_code(&self) -> (r: bool)
        ensures
            r == (self@ is Code),
    {
        match self {
            MessageElement::Code(_) => true,
            MessageElement::Text(_) => false,
        }
    }
}

/// Whether some element of the message is text.
pub fn message_has_text(m: &StyledMessage) -> (r: bool)
    ensures
        r == has_text(m@),
{
    let mut i: usize = 0;
    while i < m.messages.len()
        invariant
            i <= m.messages@.len(),
            forall|k: int| 0 <= k < i ==> !(m@[k] is Text),
        decreases m.messages.len() - i,
    {
        if !m.messages[i].is_code() {
            assert(m@[i as int] is Text);
            return true;
        }
        i = i + 1;
    }
    false
}

/// Turns one raw line into a stored line, given the codes carried in from the
/// lines before it; returns the line and the codes to carry on.
pub fn carry_line(carry: &Vec<AnsiCode>, line: &str) -> (r: (StyledMessage, Vec<AnsiCode>))
    ensures
        r.0@ == carried_line(carry@, line@),
        r.1@ == carry_after(carry@, line_tokens(line@)),
{
    let expanded = expand_line_tabs(line);
    let parsed = StyledMessage::parse(expanded.as_str());
    let ghost own = parsed@;
    let mut elements: Vec<MessageElement> = Vec::new();
    let mut i: usize = 0;
    while i < carry.len()
        invariant
            i <= carry@.len(),
            tokens_of(elements@) == code_tokens_of(carry@.take(i as int)),
        decreases carry.len() - i,
    {
        let ghost prev = tokens_of(elements@);
        elements.push(MessageElement::Code(carry[i]));
        assert(tokens_of(elements@) =~= prev.push(Token::Code(carry@[i as int])));
        assert(code_tokens_of(carry@.take(i as int + 1)) =~= code_tokens_of(carry@.take(i as int)).push(Token::Code(carry@[i as int])));
        i = i + 1;
    }
    assert(carry@.take(carry@.len() as int) =~= carry@);
    let mut next: Vec<AnsiCode> = carry.clone();
    let ghost head = tokens_of(elements@);
    let mut k: usize = 0;
    while k < parsed.messages.len()
        invariant
            k <= parsed.messages@.len(),
            own == parsed@,
            head == code_tokens_of(carry@),
            tokens_of(elements@) == head + own.take(k as int),
            next@ == carry_after(carry@, own.take(k as int)),
        decreases parsed.messages.len() - k,
    {
        assert(own.take(k as int + 1).drop_last() =~= own.take(k as int));
        let ghost prev = tokens_of(elements@);
        assert(own.take(k as int + 1) =~= own.take(k as int).push(own[k as int]));
        match &parsed.messages[k] {
            MessageElement::Text(s) => {
                elements.push(MessageElement::Text(s.clone()));
            },
            MessageElement::Code(c) => {
                elements.push(MessageElement::Code(*c));
                if *c == AnsiCode::Reset {
                    next = Vec::new();
                } else {
                    next.push(*c);
                }
            },
        }
        assert(tokens_of(elements@) =~= prev.push(own[k as int]));
        assert(tokens_of(elements@) =~= head + own.take(k as int + 1));
        k = k + 1;
    }
    assert(own.take(own.len() as int) =~= own);
    elements.push(MessageElement::Code(AnsiCode::Reset));
    assert(tokens_of(elements@) =~= carried_line(carry@, line@));
    (StyledMessage { messages: elements }, next)
}

/// Splits raw output into stored lines, carrying active codes from each line to
/// the next; `carry` holds the codes active before and after.
pub fn split_styled(carry: &mut Vec<AnsiCode>, text: &str) -> (r: Vec<StyledMessage>)
    ensures
        r@.map_values(|m: StyledMessage| m@) == emitted(old(carry)@, lines_of(text@)),
        final(carry)@ == carry_through(old(carry)@, lines_of(text@)),
{
    let ghost start = carry@;
    let cs = chars_of(text);
    let n = cs.len();
    let mut out: Vec<StyledMessage> = Vec::new();
    let mut p: usize = 0;
    let ghost mut done: Seq<Seq<char>> = seq![];
    while p < n
        invariant
            n == cs@.len(),
            cs@ == text@,
            p <= n,
            done + lines_from(cs@, p as int) == lines_of(cs@),
            out@.map_values(|m: StyledMessage| m@) == emitted(start, done),
            carry@ == carry_through(start, done),
        decreases n - p,
    {
        let mut e = p;
        while e < n && cs[e] != '\n'
            invariant
                p <= e <= n == cs@.len(),
                newline_from(cs@, p as int) == newline_from(cs@, e as int),
            decreases n - e,
        {
            e = e + 1;
        }
        let line = string_of_range(&cs, p, e);
        let (msg, next) = carry_line(carry, line.as_str());
        let ghost prev = out@.map_values(|m: StyledMessage| m@);
        proof {
            let d2 = done.push(cs@.subrange(p as int, e as int));
            assert(d2.drop_last() =~= done);
            if e < n {
                assert(done + lines_from(cs@, p as int) =~= d2 + lines_from(cs@, e as int + 1));
            } else {
                assert(done + lines_from(cs@, p as int) =~= d2 + lines_from(cs@, n as int));
            }
        }
        if message_has_text(&msg) {
            out.push(msg);
            assert(out@.map_values(|m: StyledMessage| m@) =~= prev.push(msg@));
        } else {
            assert(prev + Seq::<Seq<Token>>::empty() =~= prev);
        }
        *carry = next;
        proof {
            done = done.push(cs@.subrange(p as int, e as int));
        }
        p = if e < n { e + 1 } else { n };
    }
    assert(done + lines_from(cs@, p as int) =~= done);
    out
}

} // verus!
