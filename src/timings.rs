//! Plain-text rendering of timings output.

use crate::text::{chars_of, push_char};
use vstd::prelude::*;

verus! {

/// `s` without its `§` codes: each `§` is dropped together with the character
/// after it.
pub open spec fn strip_mc_codes(s: Seq<char>) -> Seq<char>
    decreases s.len(),
{
    if s.len() == 0 {
        seq![]
    } else if s[0] == '§' {
        if s.len() >= 2 {
            strip_mc_codes(s.skip(2))
        } else {
            seq![]
        }
    } else {
        seq![s[0]] + strip_mc_codes(s.skip(1))
    }
}

/// `s` with its `§` codes removed.
pub fn mc_colors(s: &str) -> (r: String)
    ensures
        r@ == strip_mc_codes(s@),
{
    let cs = chars_of(s);
    let n = cs.len();
    let mut out = String::new();
    let mut i: usize = 0;
    assert(cs@.skip(0) =~= cs@);
    assert(out@ + strip_mc_codes(cs@) =~= strip_mc_codes(cs@));
    while i < n
        invariant
            n == cs@.len(),
            cs@ == s@,
            i <= n,
            out@ + strip_mc_codes(cs@.skip(i as int)) == strip_mc_codes(cs@),
        decreases n - i,
    {
        let ghost rest = cs@.skip(i as int);
        if cs[i] == '§' {
            if n - i >= 2 {
                assert(rest.skip(2) =~= cs@.skip(i + 2));
                i = i + 2;
            } else {
                assert(cs@.skip(n as int) =~= Seq::<char>::empty());
                i = n;
            }
        } else {
            let ghost before = out@;
            push_char(&mut out, cs[i]);
            assert(rest.skip(1) =~= cs@.skip(i + 1));
            assert(out@ + strip_mc_codes(cs@.skip(i + 1)) =~= before + strip_mc_codes(rest));
            i = i + 1;
        }
    }
    assert(out@ + strip_mc_codes(cs@.skip(n as int)) =~= out@);
    out
}

} // verus!
