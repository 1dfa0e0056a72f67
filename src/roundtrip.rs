//! Re-serializing parsed text and parsing it again gives the same tokens.

use crate::ansi::{
    concat_text, esc, find_m_from, is_marker_at, last_code, lemma_code_for_forms, lemma_find_m_from,
    lemma_marker_from, marker_from, mc_marker, ansi_params, code_tokens, parse_from, spec_get_string,
    spec_parse, token_text, AnsiCode, Token,
};
use vstd::prelude::*;

verus! {

/// A text token as the parser emits it: not empty, and holding no code opener.
pub open spec fn clean_text(t: Seq<char>) -> bool {
    t.len() > 0 && forall|k: int| 0 <= k < t.len() ==> !is_marker_at(t, k)
}

/// No two text tokens stand next to each other.
pub open spec fn no_adjacent_text(ts: Seq<Token>) -> bool {
    forall|i: int| 0 <= i < ts.len() - 1 ==> !(#[trigger] ts[i] is Text && ts[i + 1] is Text)
}

/// `t` holds `ESC [` somewhere.
pub open spec fn has_opener(t: Seq<char>) -> bool {
    exists|k: int| 0 <= k < t.len() - 1 && #[trigger] t[k] == esc() && t[k + 1] == '['
}

/// A text token holding `ESC [` is the last token: any code written after it
/// would supply the `m` that turns it into an opener.
pub open spec fn openers_last(ts: Seq<Token>) -> bool {
    forall|i: int|
        0 <= i < ts.len() && #[trigger] ts[i] is Text && has_opener(ts[i]->Text_0) ==> i == ts.len()
            - 1
}

/// Every text token is clean and followed, if by anything, by a code, and one
/// holding `ESC [` comes last.
pub open spec fn tokens_wf(ts: Seq<Token>) -> bool {
    &&& forall|i: int|
        0 <= i < ts.len() && #[trigger] ts[i] is Text ==> clean_text(ts[i]->Text_0) && (i + 1
            < ts.len() ==> ts[i + 1] is Code)
    &&& openers_last(ts)
}

proof fn lemma_marker_shift(x: Seq<char>, y: Seq<char>, q: int)
    requires
        0 <= q <= y.len(),
    ensures
        marker_from(x + y, x.len() + q) == x.len() + marker_from(y, q),
    decreases y.len() - q,
{
    let s = x + y;
    if q < y.len() {
        assert(s[x.len() + q] == y[q]);
        if x.len() + q + 1 < s.len() {
            assert(s[x.len() + q + 1] == y[q + 1]);
            lemma_find_m_shift(x, y, q + 2);
        }
        assert(is_marker_at(s, x.len() + q) == is_marker_at(y, q));
        lemma_marker_shift(x, y, q + 1);
    }
}

proof fn lemma_find_m_shift(x: Seq<char>, y: Seq<char>, q: int)
    requires
        0 <= q <= y.len(),
    ensures
        find_m_from(x + y, x.len() + q) == x.len() + find_m_from(y, q),
    decreases y.len() - q,
{
    let s = x + y;
    if q < y.len() {
        assert(s[x.len() + q] == y[q]);
        lemma_find_m_shift(x, y, q + 1);
    }
}

/// Parsing looks only forward: the tokens from a position inside the second
/// part depend on the second part alone.
proof fn lemma_parse_shift(x: Seq<char>, y: Seq<char>, q: int)
    requires
        0 <= q <= y.len(),
    ensures
        parse_from(x + y, x.len() + q) == parse_from(y, q),
    decreases y.len() - q,
{
    let s = x + y;
    let p = x.len() + q;
    if q < y.len() {
        lemma_marker_shift(x, y, q);
        lemma_marker_from(y, q);
        let i = marker_from(y, q);
        assert(s[p] == y[q]);
        if i > q {
            assert(s.subrange(p, x.len() + i) =~= y.subrange(q, i));
            lemma_parse_shift(x, y, i);
        } else if y[q] == mc_marker() {
            let e = if q + 2 <= y.len() { q + 2 } else { y.len() as int };
            assert(s.subrange(p, x.len() + e) =~= y.subrange(q, e));
            lemma_parse_shift(x, y, e);
        } else {
            lemma_find_m_shift(x, y, q + 2);
            lemma_find_m_from(y, q + 2);
            let j = find_m_from(y, q + 2);
            assert(s.subrange(p, x.len() + j + 1) =~= y.subrange(q, j + 1));
            lemma_parse_shift(x, y, j + 1);
        }
    }
}

proof fn lemma_marker_from_at(s: Seq<char>, i: int, j: int)
    requires
        0 <= i <= j <= s.len(),
        forall|k: int| i <= k < j ==> !is_marker_at(s, k),
        j == s.len() || is_marker_at(s, j),
    ensures
        marker_from(s, i) == j,
    decreases j - i,
{
    if i < j {
        lemma_marker_from_at(s, i + 1, j);
    }
}

proof fn lemma_find_m_at(s: Seq<char>, i: int, j: int)
    requires
        0 <= i <= j < s.len(),
        forall|k: int| i <= k < j ==> s[k] != 'm',
        s[j] == 'm',
    ensures
        find_m_from(s, i) == j,
    decreases j - i,
{
    if i < j {
        lemma_find_m_at(s, i + 1, j);
    }
}

proof fn lemma_params_no_m(c: AnsiCode)
    ensures
        forall|k: int| 0 <= k < ansi_params(c).len() ==> ansi_params(c)[k] != 'm',
{
}

proof fn lemma_concat_front(ts: Seq<Token>)
    requires
        ts.len() > 0,
    ensures
        concat_text(ts) == token_text(ts[0]) + concat_text(ts.skip(1)),
    decreases ts.len(),
{
    if ts.len() == 1 {
        assert(ts.drop_last() =~= Seq::<Token>::empty());
        assert(ts.skip(1) =~= Seq::<Token>::empty());
        assert(concat_text(ts) =~= token_text(ts[0]) + concat_text(ts.skip(1)));
    } else {
        lemma_concat_front(ts.drop_last());
        assert(ts.drop_last().skip(1) =~= ts.skip(1).drop_last());
        assert(ts.skip(1).last() == ts.last());
        assert(concat_text(ts) =~= token_text(ts[0]) + concat_text(ts.skip(1)));
    }
}

/// A code's ANSI form, followed by anything, opens with `ESC [` and closes at
/// its own `m`.
proof fn lemma_code_text_opens(c: AnsiCode, rest: Seq<char>)
    ensures
        (c.spec_ansi() + rest)[0] == esc(),
        (c.spec_ansi() + rest)[1] == '[',
        find_m_from(c.spec_ansi() + rest, 2) == c.spec_ansi().len() - 1,
{
    let a = c.spec_ansi();
    let s = a + rest;
    let n = a.len() as int;
    lemma_params_no_m(c);
    assert forall|k: int| 2 <= k < n - 1 implies s[k] != 'm' by {
        assert(s[k] == ansi_params(c)[k - 2]);
    }
    assert(s[n - 1] == 'm');
    lemma_find_m_at(s, 2, n - 1);
}

proof fn lemma_find_m_none(t: Seq<char>, i: int)
    requires
        0 <= i <= t.len(),
        forall|k: int| i <= k < t.len() ==> t[k] != 'm',
    ensures
        find_m_from(t, i) == t.len(),
    decreases t.len() - i,
{
    if i < t.len() {
        lemma_find_m_none(t, i + 1);
    }
}

/// A code's ANSI form, followed by anything, parses to that code first.
proof fn lemma_parse_code_first(c: AnsiCode, rest: Seq<char>)
    ensures
        spec_parse(c.spec_ansi() + rest) == seq![Token::Code(c)] + spec_parse(rest),
{
    let a = c.spec_ansi();
    let s = a + rest;
    let n = a.len() as int;
    lemma_code_text_opens(c, rest);
    assert(is_marker_at(s, 0));
    lemma_marker_from_at(s, 0, 0);
    assert(s.subrange(0, n) =~= a);
    lemma_code_for_forms(c);
    lemma_parse_shift(a, rest, 0);
}

/// A clean text followed by nothing, or (when it holds no `ESC [`) by a code's
/// ANSI form, parses to that text first.
proof fn lemma_parse_text_first(u: Seq<char>, rest: Seq<char>)
    requires
        clean_text(u),
        rest.len() == 0 || (!has_opener(u) && rest.len() >= 3 && rest[0] == esc() && rest[1]
            == '[' && find_m_from(rest, 2) < rest.len()),
    ensures
        spec_parse(u + rest) == seq![Token::Text(u)] + spec_parse(rest),
{
    let s = u + rest;
    let n = u.len() as int;
    if rest.len() == 0 {
        assert(s =~= u);
    }
    assert forall|k: int| 0 <= k < n implies !is_marker_at(s, k) by {
        assert(s[k] == u[k]);
        assert(!is_marker_at(u, k));
        if rest.len() > 0 {
            if k + 1 < n {
                assert(s[k + 1] == u[k + 1]);
                if u[k] == esc() && u[k + 1] == '[' {
                    assert(has_opener(u));
                }
            } else {
                assert(s[k + 1] == rest[0]);
            }
        }
    }
    if rest.len() > 0 {
        assert(s[n] == esc() && s[n + 1] == '[');
        lemma_find_m_shift(u, rest, 2);
        assert(is_marker_at(s, n));
    }
    lemma_marker_from_at(s, 0, n as int);
    assert(s.subrange(0, n as int) =~= u);
    lemma_parse_shift(u, rest, 0);
}

/// Well-formed tokens, written out, parse back to themselves.
proof fn lemma_reparse(ts: Seq<Token>)
    requires
        tokens_wf(ts),
    ensures
        spec_parse(concat_text(ts)) == ts,
    decreases ts.len(),
{
    if ts.len() == 0 {
        assert(spec_parse(Seq::<char>::empty()) == Seq::<Token>::empty());
    } else {
        let rest = ts.skip(1);
        assert forall|i: int| 0 <= i < rest.len() && #[trigger] rest[i] is Text implies clean_text(
            rest[i]->Text_0,
        ) && (i + 1 < rest.len() ==> rest[i + 1] is Code) by {
            assert(rest[i] == ts[i + 1]);
            if i + 1 < rest.len() {
                assert(rest[i + 1] == ts[i + 2]);
            }
        }
        assert forall|i: int|
            0 <= i < rest.len() && #[trigger] rest[i] is Text && has_opener(rest[i]->Text_0) implies i
            == rest.len() - 1 by {
            assert(rest[i] == ts[i + 1]);
        }
        lemma_reparse(rest);
        lemma_concat_front(ts);
        let r = concat_text(rest);
        match ts[0] {
            Token::Code(c) => {
                lemma_parse_code_first(c, r);
            },
            Token::Text(u) => {
                assert(ts[0] is Text);
                if rest.len() > 0 {
                    assert(rest[0] == ts[1]);
                    lemma_concat_front(rest);
                    let c = rest[0]->Code_0;
                    assert(token_text(rest[0]) == c.spec_ansi());
                    lemma_code_text_opens(c, concat_text(rest.skip(1)));
                    assert(r == c.spec_ansi() + concat_text(rest.skip(1)));
                    assert(!has_opener(u));
                } else {
                    assert(r == Seq::<char>::empty());
                }
                lemma_parse_text_first(u, r);
            },
        }
        assert(ts =~= seq![ts[0]] + rest);
    }
}

/// Text tokens that the parser emits from position `p` are clean.
proof fn lemma_parse_clean(s: Seq<char>, p: int)
    requires
        0 <= p,
    ensures
        forall|i: int|
            0 <= i < parse_from(s, p).len() && #[trigger] parse_from(s, p)[i] is Text ==> clean_text(
                parse_from(s, p)[i]->Text_0,
            ),
    decreases s.len() - p,
{
    if p < s.len() {
        lemma_marker_from(s, p);
        let i = marker_from(s, p);
        if i > p {
            let t = s.subrange(p, i);
            assert forall|k: int| 0 <= k < t.len() implies !is_marker_at(t, k) by {
                assert(t[k] == s[p + k]);
                assert(!is_marker_at(s, p + k));
                if k + 1 < t.len() {
                    assert(t[k + 1] == s[p + k + 1]);
                    if t[k] == esc() && t[k + 1] == '[' {
                        lemma_find_m_from(s, p + k + 2);
                        assert forall|j: int| k + 2 <= j < t.len() implies t[j] != 'm' by {
                            assert(t[j] == s[p + j]);
                        }
                        lemma_find_m_none(t, k + 2);
                    }
                }
            }
            lemma_parse_clean(s, i);
            let rest = parse_from(s, i);
            assert(parse_from(s, p) == seq![Token::Text(t)] + rest);
            assert forall|j: int|
                0 <= j < parse_from(s, p).len() && #[trigger] parse_from(s, p)[j] is Text implies clean_text(
                parse_from(s, p)[j]->Text_0,
            ) by {
                if j > 0 {
                    assert(parse_from(s, p)[j] == rest[j - 1]);
                }
            }
        } else if s[p] == mc_marker() {
            let e = if p + 2 <= s.len() { p + 2 } else { s.len() as int };
            lemma_parse_clean(s, e);
            let head = code_tokens(s.subrange(p, e));
            let rest = parse_from(s, e);
            assert forall|j: int|
                0 <= j < parse_from(s, p).len() && #[trigger] parse_from(s, p)[j] is Text implies clean_text(
                parse_from(s, p)[j]->Text_0,
            ) by {
                if j >= head.len() {
                    assert(parse_from(s, p)[j] == rest[j - head.len()]);
                } else {
                    assert(head[j] is Code);
                }
            }
        } else {
            lemma_find_m_from(s, p + 2);
            let j = find_m_from(s, p + 2);
            lemma_parse_clean(s, j + 1);
            let head = code_tokens(s.subrange(p, j + 1));
            let rest = parse_from(s, j + 1);
            assert forall|k: int|
                0 <= k < parse_from(s, p).len() && #[trigger] parse_from(s, p)[k] is Text implies clean_text(
                parse_from(s, p)[k]->Text_0,
            ) by {
                if k >= head.len() {
                    assert(parse_from(s, p)[k] == rest[k - head.len()]);
                } else {
                    assert(head[k] is Code);
                }
            }
        }
    }
}

/// Writing parsed text back out as ANSI text and parsing that again gives the
/// same tokens, provided no two text tokens were parsed side by side (which
/// happens around a dropped unknown code), a text holding `ESC [` comes last
/// (a code written after it would close it into an opener), and the last code,
/// if any, is a reset (otherwise the writer adds one).
pub proof fn lemma_reparse_round_trip(s: Seq<char>)
    requires
        no_adjacent_text(spec_parse(s)),
        openers_last(spec_parse(s)),
        last_code(spec_parse(s)) is None || last_code(spec_parse(s)) == Some(AnsiCode::Reset),
    ensures
        spec_parse(spec_get_string(spec_parse(s))) == spec_parse(s),
{
    let ts = spec_parse(s);
    lemma_parse_clean(s, 0);
    assert forall|i: int| 0 <= i < ts.len() && #[trigger] ts[i] is Text implies clean_text(
        ts[i]->Text_0,
    ) && (i + 1 < ts.len() ==> ts[i + 1] is Code) by {
        if i + 1 < ts.len() {
            assert(!(ts[i] is Text && ts[i + 1] is Text));
        }
    }
    lemma_reparse(ts);
    assert(spec_get_string(ts) =~= concat_text(ts));
}

} // verus!
