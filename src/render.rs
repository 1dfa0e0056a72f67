//! Drawing a styled line: the steps a terminal performs, and the law that
//! no attribute stays switched on afterwards.

use crate::ansi::{AnsiCode, MessageElement, StyledMessage, Token};
use crate::text::{chars_of, string_of_range};
use vstd::prelude::*;

verus! {

/// A drawing step of one rendered line.
#[derive(Clone, Debug, PartialEq, Eq)]
pub enum DrawOp {
    /// Write `text` at row `y`, column `x`.
    Text { y: i32, x: i32, text: String },
    /// Switch a code's attributes on.
    Enable(AnsiCode),
    /// Switch a code's attributes off.
    Disable(AnsiCode),
    /// Blank `count` cells of row `y` from column `x`.
    Clear { y: i32, x: i32, count: i64 },
}

/// The model of a drawing step.
pub enum Op {
    Text(int, int, Seq<char>),
    Enable(AnsiCode),
    Disable(AnsiCode),
    Clear(int, int, int),
}

impl View for DrawOp {
    type V = Op;

    open spec fn view(&self) -> Op {
        match self {
            DrawOp::Text { y, x, text } => Op::Text(*y as int, *x as int, text@),
            DrawOp::Enable(c) => Op::Enable(*c),
            DrawOp::Disable(c) => Op::Disable(*c),
            DrawOp::Clear { y, x, count } => Op::Clear(*y as int, *x as int, *count as int),
        }
    }
}

/// The models of drawing steps.
pub open spec fn ops_of(v: Seq<DrawOp>) -> Seq<Op> {
    v.map_values(|d: DrawOp| d@)
}

/// Switching off the applied codes, most recent first.
pub open spec fn disable_all(applied: Seq<AnsiCode>) -> Seq<Op>
    decreases applied.len(),
{
    if applied.len() == 0 {
        seq![]
    } else {
        seq![Op::Disable(applied.last())] + disable_all(applied.drop_last())
    }
}

/// The cells left to blank from column `x` up to column `length`.
pub open spec fn rest_of_row(x: int, length: int) -> int {
    if length - x > 0 {
        length - x
    } else {
        0
    }
}

/// The drawing steps for tokens `ts[k..]` on row `y`, the cursor at column `x`,
/// clipped at column `length`, with `applied` the codes switched on so far.
pub open spec fn render_from(
    ts: Seq<Token>,
    k: int,
    y: int,
    x: int,
    length: int,
    applied: Seq<AnsiCode>,
) -> Seq<Op>
    decreases ts.len() - k,
{
    if k < 0 || k >= ts.len() {
        disable_all(applied) + seq![Op::Clear(y, x, rest_of_row(x, length))]
    } else {
        match ts[k] {
            Token::Text(s) => {
                let n = if length - x < s.len() { length - x } else { s.len() as int };
                if n <= 0 {
                    render_from(ts, k + 1, y, x, length, applied)
                } else {
                    seq![Op::Text(y, x, s.take(n))] + render_from(ts, k + 1, y, x + n, length, applied)
                }
            },
            Token::Code(c) => {
                if c == AnsiCode::Reset {
                    disable_all(applied) + render_from(ts, k + 1, y, x, length, seq![])
                } else {
                    seq![Op::Enable(c)] + render_from(ts, k + 1, y, x, length, applied.push(c))
                }
            },
        }
    }
}

/// The codes switched on after step `op`, starting from `on`: a code is pushed
/// when enabled, and popped when disabled while it is the most recent.
pub open spec fn enabled_step(op: Op, on: Seq<AnsiCode>) -> Seq<AnsiCode> {
    match op {
        Op::Enable(c) => on.push(c),
        Op::Disable(c) => if on.len() > 0 && on.last() == c {
            on.drop_last()
        } else {
            on
        },
        _ => on,
    }
}

/// The codes left switched on after the steps `ops`, starting from `on`.
pub open spec fn enabled_after(ops: Seq<Op>, on: Seq<AnsiCode>) -> Seq<AnsiCode>
    decreases ops.len(),
{
    if ops.len() == 0 {
        on
    } else {
        enabled_after(ops.skip(1), enabled_step(ops[0], on))
    }
}

proof fn lemma_enabled_after_one(op: Op, on: Seq<AnsiCode>)
    ensures
        enabled_after(seq![op], on) == enabled_step(op, on),
{
    assert(seq![op].skip(1) =~= Seq::<Op>::empty());
    reveal_with_fuel(enabled_after, 2);
}

/// Running two runs of steps one after the other.
pub proof fn lemma_enabled_after_concat(a: Seq<Op>, b: Seq<Op>, on: Seq<AnsiCode>)
    ensures
        enabled_after(a + b, on) == enabled_after(b, enabled_after(a, on)),
    decreases a.len(),
{
    if a.len() > 0 {
        assert((a + b).skip(1) =~= a.skip(1) + b);
        lemma_enabled_after_concat(a.skip(1), b, enabled_step(a[0], on));
    } else {
        assert(a + b =~= b);
    }
}

/// Switching off the applied codes, most recent first, leaves none on.
pub proof fn lemma_disable_all(applied: Seq<AnsiCode>)
    ensures
        enabled_after(disable_all(applied), applied) == Seq::<AnsiCode>::empty(),
    decreases applied.len(),
{
    if applied.len() > 0 {
        let rest = disable_all(applied.drop_last());
        lemma_disable_all(applied.drop_last());
        assert((seq![Op::Disable(applied.last())] + rest).skip(1) =~= rest);
    }
}

/// Rendering from any point leaves none of the codes applied so far, nor any
/// enabled later, switched on.
pub proof fn lemma_render_from_resets(
    ts: Seq<Token>,
    k: int,
    y: int,
    x: int,
    length: int,
    applied: Seq<AnsiCode>,
)
    ensures
        enabled_after(render_from(ts, k, y, x, length, applied), applied) == Seq::<AnsiCode>::empty(),
    decreases ts.len() - k,
{
    if k < 0 || k >= ts.len() {
        lemma_enabled_after_concat(disable_all(applied), seq![Op::Clear(y, x, rest_of_row(x, length))], applied);
        lemma_disable_all(applied);
        lemma_enabled_after_one(Op::Clear(y, x, rest_of_row(x, length)), Seq::<AnsiCode>::empty());
    } else {
        match ts[k] {
            Token::Text(s) => {
                let n = if length - x < s.len() { length - x } else { s.len() as int };
                if n <= 0 {
                    lemma_render_from_resets(ts, k + 1, y, x, length, applied);
                } else {
                    let rest = render_from(ts, k + 1, y, x + n, length, applied);
                    lemma_render_from_resets(ts, k + 1, y, x + n, length, applied);
                    lemma_enabled_after_concat(seq![Op::Text(y, x, s.take(n))], rest, applied);
                    lemma_enabled_after_one(Op::Text(y, x, s.take(n)), applied);
                }
            },
            Token::Code(c) => {
                if c == AnsiCode::Reset {
                    let rest = render_from(ts, k + 1, y, x, length, seq![]);
                    lemma_render_from_resets(ts, k + 1, y, x, length, seq![]);
                    lemma_enabled_after_concat(disable_all(applied), rest, applied);
                    lemma_disable_all(applied);
                } else {
                    let rest = render_from(ts, k + 1, y, x, length, applied.push(c));
                    lemma_render_from_resets(ts, k + 1, y, x, length, applied.push(c));
                    lemma_enabled_after_concat(seq![Op::Enable(c)], rest, applied);
                    lemma_enabled_after_one(Op::Enable(c), applied);
                }
            },
        }
    }
}

/// Rendering any styled line leaves no attribute switched on: every code it
/// enables is disabled again, in reverse order, by a reset or at the end.
pub proof fn lemma_render_leaves_nothing_enabled(m: Seq<Token>, y: int, x: int, length: int)
    ensures
        enabled_after(render_from(m, 0, y, x, length, seq![]), seq![]) == Seq::<AnsiCode>::empty(),
{
    lemma_render_from_resets(m, 0, y, x, length, seq![]);
}

/// Pushes the steps that switch off `applied`, most recent first, and empties it.
fn push_disable_all(ops: &mut Vec<DrawOp>, applied: &mut Vec<AnsiCode>)
    ensures
        ops_of(final(ops)@) == ops_of(old(ops)@) + disable_all(old(applied)@),
        final(applied)@ == Seq::<AnsiCode>::empty(),
{
    let ghost start = ops_of(ops@);
    let ghost all = applied@;
    while applied.len() > 0
        invariant
            ops_of(ops@) + disable_all(applied@) == start + disable_all(all),
        decreases applied.len(),
    {
        let ghost before = applied@;
        let c = applied.pop().unwrap();
        let ghost prev = ops_of(ops@);
        ops.push(DrawOp::Disable(c));
        assert(ops_of(ops@) =~= prev + seq![Op::Disable(c)]);
        assert(before.drop_last() =~= applied@);
        assert(ops_of(ops@) + disable_all(applied@) =~= prev + disable_all(before));
    }
    assert(ops_of(ops@) + disable_all(applied@) =~= ops_of(ops@));
}

impl StyledMessage {
    /// The drawing steps that show this message on row `y` from column `x`,
    /// clipped (never wrapped) at column `length`: text in order, codes switched
    /// on as met, all of them switched off in reverse order at a reset and at the
    /// end, and the rest of the row blanked.
    pub fn output_text(&self, y: i32, x: i32, length: i32) -> (r: Vec<DrawOp>)
        ensures
            ops_of(r@) == render_from(self@, 0, y as int, x as int, length as int, seq![]),
    {
        let ghost ts = self@;
        let mut ops: Vec<DrawOp> = Vec::new();
        let mut applied: Vec<AnsiCode> = Vec::new();
        let mut index: i64 = x as i64;
        let n = self.messages.len();
        let mut k: usize = 0;
        while k < n
            invariant
                n == self.messages@.len(),
                ts == self@,
                k <= n,
                x <= index,
                index == x || index <= length,
                ops_of(ops@) + render_from(ts, k as int, y as int, index as int, length as int, applied@)
                    == render_from(ts, 0, y as int, x as int, length as int, seq![]),
            decreases n - k,
        {
            let ghost prev = ops_of(ops@);
            match &self.messages[k] {
                MessageElement::Text(s) => {
                    let cs = chars_of(s.as_str());
                    let room: i64 = length as i64 - index;
                    let take: usize = if room <= 0 {
                        0
                    } else if (room as u64) < cs.len() as u64 {
                        room as usize
                    } else {
                        cs.len()
                    };
                    if take > 0 {
                        let part = string_of_range(&cs, 0, take);
                        assert(cs@.subrange(0, take as int) =~= cs@.take(take as int));
                        ops.push(DrawOp::Text { y, x: index as i32, text: part });
                        assert(ops_of(ops@) =~= prev + seq![Op::Text(y as int, index as int, cs@.take(take as int))]);
                        index = index + take as i64;
                    }
                },
                MessageElement::Code(c) => {
                    if *c == AnsiCode::Reset {
                        push_disable_all(&mut ops, &mut applied);
                    } else {
                        ops.push(DrawOp::Enable(*c));
                        assert(ops_of(ops@) =~= prev + seq![Op::Enable(*c)]);
                        applied.push(*c);
                    }
                },
            }
            k = k + 1;
        }
        push_disable_all(&mut ops, &mut applied);
        let ghost prev = ops_of(ops@);
        let count: i64 = if length as i64 - index > 0 { length as i64 - index } else { 0 };
        ops.push(DrawOp::Clear { y, x: index as i32, count });
        assert(ops_of(ops@) =~= prev + seq![Op::Clear(y as int, index as int, rest_of_row(index as int, length as int))]);
        ops
    }
}

} // verus!
