//! Character-level helpers shared by the parsers and formatters.

use vstd::prelude::*;
use vstd::std_specs::iter::IteratorSpec;

verus! {

broadcast use vstd::string::axiom_spec_iter, vstd::string::next_postcondition;

/// The characters of each string.
pub open spec fn strings_view(v: Seq<String>) -> Seq<Seq<char>> {
    v.map_values(|s: String| s@)
}

/// The characters of `s`, in order.
pub fn chars_of(s: &str) -> (r: Vec<char>)
    ensures
        r@ == s@,
{
    let mut it = s.chars();
    let mut out: Vec<char> = Vec::new();
    loop
        invariant
            out@ + it.remaining() == s@,
            it.decrease() is Some,
        ensures
            out@ == s@,
        decreases it.decrease()->0,
    {
        match it.next() {
            Some(c) => {
                out.push(c);
            },
            None => {
                assert(out@ + it.remaining() =~= out@);
                break;
            },
        }
    }
    out
}

/// Relies on `String::push`: appends one character at the end.
#[verifier::external_body]
pub fn push_char(s: &mut String, c: char)
    ensures
        final(s)@ == old(s)@.push(c),
{
    s.push(c);
}

/// Relies on `String::push_str`: appends a whole slice at the end.
#[verifier::external_body]
pub fn push_str(s: &mut String, t: &str)
    ensures
        final(s)@ == old(s)@ + t@,
{
    s.push_str(t);
}

/// The characters `chars[lo..hi]` as a string.
pub fn string_of_range(chars: &Vec<char>, lo: usize, hi: usize) -> (r: String)
    requires
        lo <= hi <= chars@.len(),
    ensures
        r@ == chars@.subrange(lo as int, hi as int),
{
    let mut out = String::new();
    let mut i = lo;
    while i < hi
        invariant
            lo <= i <= hi <= chars@.len(),
            out@ == chars@.subrange(lo as int, i as int),
        decreases hi - i,
    {
        push_char(&mut out, chars[i]);
        i = i + 1;
        assert(out@ =~= chars@.subrange(lo as int, i as int));
    }
    out
}

/// The characters of `chars` as a string.
pub fn string_of(chars: &Vec<char>) -> (r: String)
    ensures
        r@ == chars@,
{
    let r = string_of_range(chars, 0, chars.len());
    assert(chars@.subrange(0, chars@.len() as int) =~= chars@);
    r
}

} // verus!
