//! Text layout of the status report.

use crate::text::{chars_of, push_char, push_str, string_of_range, strings_view};
use crate::util::{decimal, int_text};
use vstd::prelude::*;

verus! {

/// A world time written `HHMM`-style, split in the middle by a colon.
pub open spec fn spec_format_time(t: Seq<char>) -> Seq<char> {
    t.take(t.len() as int / 2) + seq![':'] + t.skip(t.len() as int / 2)
}

/// The time `time` with a colon in its middle (`"0630"` becomes `"06:30"`).
pub fn format_time(time: &str) -> (r: String)
    ensures
        r@ == spec_format_time(time@),
{
    let cs = chars_of(time);
    let half = cs.len() / 2;
    let mut out = string_of_range(&cs, 0, half);
    push_char(&mut out, ':');
    let rest = string_of_range(&cs, half, cs.len());
    push_str(&mut out, rest.as_str());
    assert(cs@.subrange(0, half as int) =~= cs@.take(half as int));
    assert(cs@.subrange(half as int, cs@.len() as int) =~= cs@.skip(half as int));
    out
}

/// `n` spaces.
pub open spec fn spaces(n: nat) -> Seq<char> {
    Seq::new(n, |i: int| ' ')
}

/// The first line's opening: the prefix, then the player count.
pub open spec fn players_head(prefix: Seq<char>, count: int) -> Seq<char> {
    prefix + " | ("@ + decimal(count) + ") "@
}

/// The opening of each continuation line.
pub open spec fn players_indent(prefix: Seq<char>) -> Seq<char> {
    spaces(prefix.len()) + " | "@
}

/// The finished lines and the line being filled after the first `k` players:
/// a player that would push the line past `width` starts a new line, and every
/// player but the last is followed by `, `.
pub open spec fn players_fill(
    players: Seq<Seq<char>>,
    prefix: Seq<char>,
    width: int,
    k: int,
) -> (Seq<Seq<char>>, Seq<char>)
    decreases k,
{
    if k <= 0 {
        (seq![], players_head(prefix, players.len() as int))
    } else {
        let (lines, cur) = players_fill(players, prefix, width, k - 1);
        let p = players[k - 1];
        let (lines2, cur2) = if cur.len() + p.len() + 1 > width {
            (lines.push(cur), players_indent(prefix))
        } else {
            (lines, cur)
        };
        (lines2, cur2 + p + if k < players.len() { ", "@ } else { seq![] })
    }
}

/// `s` ends with ` | `, the bare opening of a continuation line.
pub open spec fn ends_with_bar(s: Seq<char>) -> bool {
    s.len() >= 3 && s[s.len() - 3] == ' ' && s[s.len() - 2] == '|' && s[s.len() - 1] == ' '
}

/// The lines listing `players` under `prefix`, wrapped at `width` characters.
pub open spec fn spec_player_lines(players: Seq<Seq<char>>, prefix: Seq<char>, width: int) -> Seq<Seq<char>> {
    let (lines, cur) = players_fill(players, prefix, width, players.len() as int);
    if ends_with_bar(cur) {
        lines
    } else {
        lines.push(cur)
    }
}

fn char_len(s: &String) -> (r: usize)
    ensures
        r == s@.len(),
{
    chars_of(s.as_str()).len()
}

/// The lines listing `players` under `prefix`, wrapped at `width` characters:
/// the count first, then the names separated by commas.
pub fn print_players(players: &Vec<String>, prefix: &str, width: usize) -> (r: Vec<String>)
    requires
        players@.len() <= i64::MAX,
    ensures
        strings_view(r@) == spec_player_lines(strings_view(players@), prefix@, width as int),
{
    let ghost ps = strings_view(players@);
    let pre = chars_of(prefix);
    let mut lines: Vec<String> = Vec::new();
    let mut cur = prefix.to_owned();
    push_str(&mut cur, " | (");
    push_str(&mut cur, int_text(players.len() as i64).as_str());
    push_str(&mut cur, ") ");
    let mut cur_len: usize = char_len(&cur);
    let mut i: usize = 0;
    while i < players.len()
        invariant
            ps == strings_view(players@),
            pre@ == prefix@,
            i <= players@.len(),
            cur_len == cur@.len(),
            (strings_view(lines@), cur@) == players_fill(ps, prefix@, width as int, i as int),
        decreases players.len() - i,
    {
        let p = &players[i];
        let plen = char_len(p);
        if cur_len as u128 + plen as u128 + 1 > width as u128 {
            let ghost before = strings_view(lines@);
            lines.push(cur);
            assert(strings_view(lines@) =~= before.push(cur@));
            let mut indent = String::new();
            let mut k: usize = 0;
            while k < pre.len()
                invariant
                    k <= pre@.len(),
                    indent@ == spaces(k as nat),
                decreases pre.len() - k,
            {
                push_char(&mut indent, ' ');
                k = k + 1;
                assert(indent@ =~= spaces(k as nat));
            }
            push_str(&mut indent, " | ");
            cur = indent;
        }
        push_str(&mut cur, p.as_str());
        if i + 1 < players.len() {
            push_str(&mut cur, ", ");
        } else {
            assert(cur@ + Seq::<char>::empty() =~= cur@);
        }
        cur_len = char_len(&cur);
        i = i + 1;
    }
    let cs = chars_of(cur.as_str());
    let n = cs.len();
    let bare = n >= 3 && cs[n - 3] == ' ' && cs[n - 2] == '|' && cs[n - 1] == ' ';
    if !bare {
        let ghost before = strings_view(lines@);
        lines.push(cur);
        assert(strings_view(lines@) =~= before.push(cs@));
    }
    lines
}

} // verus!
