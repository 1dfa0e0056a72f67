//! Decisions of the server runner: memory arguments, EULA agreement, and
//! whether to start the server again after it exits.

use crate::console::{is_whitespace_char, whitespace};
use crate::text::{chars_of, push_str, strings_view};
use vstd::prelude::*;

verus! {

/// Exit code with which the server asks not to be restarted.
pub const STOP_EXIT_CODE: i32 = 13;

/// Exit code with which the server asks to be restarted.
pub const RESTART_EXIT_CODE: i32 = 27;

/// The heap size used when nothing else decides it.
pub fn default_heap() -> (r: String)
    ensures
        r@ == "500m"@,
{
    "500m".to_owned()
}

/// A memory argument is rejected: it is empty, or it has a non-digit before its
/// last character while that last character is neither `m` nor `G`.
pub open spec fn heap_rejected(v: Seq<char>) -> bool {
    v.len() == 0 || ((exists|i: int| 0 <= i < v.len() - 1 && !('0' <= #[trigger] v[i] <= '9'))
        && v.last() != 'm' && v.last() != 'G')
}

/// Whether the memory argument `value` is accepted.
pub fn heap_arg_valid(value: &str) -> (r: bool)
    ensures
        r == !heap_rejected(value@),
{
    let cs = chars_of(value);
    let n = cs.len();
    if n == 0 {
        return false;
    }
    let mut non_digit = false;
    let mut i: usize = 0;
    while i < n - 1
        invariant
            n == cs@.len(),
            cs@ == value@,
            n > 0,
            i <= n - 1,
            non_digit == exists|k: int| 0 <= k < i && !('0' <= #[trigger] cs@[k] <= '9'),
        decreases n - 1 - i,
    {
        if !('0' <= cs[i] && cs[i] <= '9') {
            non_digit = true;
        }
        i = i + 1;
    }
    let last = cs[n - 1];
    !(non_digit && last != 'm' && last != 'G')
}

/// The JVM arguments used with heap size `heap`: equal initial and maximum heap
/// and a fixed set of collector flags.
pub open spec fn spec_jvm_args(heap: Seq<char>) -> Seq<Seq<char>> {
    seq![
        "-Xms"@ + heap,
        "-Xmx"@ + heap,
        "-XX:+UseG1GC"@,
        "-XX:+UnlockExperimentalVMOptions"@,
        "-XX:MaxGCPauseMillis=100"@,
        "-XX:+DisableExplicitGC"@,
        "-XX:TargetSurvivorRatio=90"@,
        "-XX:G1NewSizePercent=50"@,
        "-XX:G1MaxNewSizePercent=80"@,
        "-XX:G1MixedGCLiveThresholdPercent=35"@,
        "-XX:+AlwaysPreTouch"@,
        "-XX:+ParallelRefProcEnabled"@,
        "-Dusing.aikars.flags=mcflags.emc.gs"@,
    ]
}

/// The JVM arguments used with heap size `heap`.
pub fn jvm_args(heap: &str) -> (r: Vec<String>)
    ensures
        strings_view(r@) == spec_jvm_args(heap@),
{
    let mut xms = "-Xms".to_owned();
    push_str(&mut xms, heap);
    let mut xmx = "-Xmx".to_owned();
    push_str(&mut xmx, heap);
    let r = vec![
        xms,
        xmx,
        "-XX:+UseG1GC".to_owned(),
        "-XX:+UnlockExperimentalVMOptions".to_owned(),
        "-XX:MaxGCPauseMillis=100".to_owned(),
        "-XX:+DisableExplicitGC".to_owned(),
        "-XX:TargetSurvivorRatio=90".to_owned(),
        "-XX:G1NewSizePercent=50".to_owned(),
        "-XX:G1MaxNewSizePercent=80".to_owned(),
        "-XX:G1MixedGCLiveThresholdPercent=35".to_owned(),
        "-XX:+AlwaysPreTouch".to_owned(),
        "-XX:+ParallelRefProcEnabled".to_owned(),
        "-Dusing.aikars.flags=mcflags.emc.gs".to_owned(),
    ];
    assert(strings_view(r@) =~= spec_jvm_args(heap@));
    r
}

/// Half of the larger of two memory figures in kilobytes, in megabytes, at most
/// ten thousand.
pub fn default_heap_mb(avail_kb: u64, free_kb: u64) -> (r: u64)
    ensures
        r == if (if avail_kb > free_kb { avail_kb } else { free_kb }) / 1000 / 2 < 10000 {
            (if avail_kb > free_kb { avail_kb } else { free_kb }) / 1000 / 2
        } else {
            10000
        },
{
    let mem = if avail_kb > free_kb { avail_kb } else { free_kb };
    let mb = mem / 1000 / 2;
    if mb < 10000 { mb } else { 10000 }
}

/// `c` in lower case, for ASCII letters.
pub open spec fn ascii_lower(c: char) -> char {
    if 'A' <= c <= 'Z' {
        ((c as u32) + 32) as char
    } else {
        c
    }
}

/// The argument agrees to the EULA: ignoring ASCII case, it starts with
/// `-dcom.mojang.eula.agree=` and ends with `true`.
pub open spec fn eula_arg(a: Seq<char>) -> bool {
    let low = a.map_values(|c: char| ascii_lower(c));
    let pre = "-dcom.mojang.eula.agree="@;
    let suf = "true"@;
    &&& low.len() >= pre.len()
    &&& low.take(pre.len() as int) == pre
    &&& low.len() >= suf.len()
    &&& low.skip(low.len() - suf.len()) == suf
}

fn lower_char(c: char) -> (r: char)
    ensures
        r == ascii_lower(c),
{
    if 'A' <= c && c <= 'Z' {
        ((c as u8) + 32) as char
    } else {
        c
    }
}

/// Whether `s[at..at + t.len()]` is exactly `t`.
fn matches_at(s: &Vec<char>, at: usize, t: &Vec<char>) -> (r: bool)
    requires
        at + t@.len() <= s@.len(),
    ensures
        r == (s@.subrange(at as int, at + t@.len()) == t@),
{
    let mut i: usize = 0;
    let slen = s.len();
    while i < t.len()
        invariant
            slen == s@.len(),
            at + t@.len() <= s@.len(),
            i <= t@.len(),
            forall|k: int| 0 <= k < i ==> s@[at + k] == t@[k],
        decreases t.len() - i,
    {
        if s[at + i] != t[i] {
            assert(s@.subrange(at as int, at + t@.len())[i as int] != t@[i as int]);
            return false;
        }
        i = i + 1;
    }
    assert(s@.subrange(at as int, at + t@.len()) =~= t@);
    true
}

/// Whether the JVM argument `arg` agrees to the EULA.
pub fn is_eula_arg(arg: &str) -> (r: bool)
    ensures
        r == eula_arg(arg@),
{
    let cs = chars_of(arg);
    let mut low: Vec<char> = Vec::new();
    let mut i: usize = 0;
    while i < cs.len()
        invariant
            i <= cs@.len(),
            low@ == cs@.take(i as int).map_values(|c: char| ascii_lower(c)),
        decreases cs.len() - i,
    {
        low.push(lower_char(cs[i]));
        i = i + 1;
        assert(low@ =~= cs@.take(i as int).map_values(|c: char| ascii_lower(c)));
    }
    assert(cs@.take(i as int) =~= cs@);
    assert(cs@ == arg@);
    let pre = chars_of("-dcom.mojang.eula.agree=");
    let suf = chars_of("true");
    if low.len() < pre.len() || low.len() < suf.len() {
        return false;
    }
    let a = matches_at(&low, 0, &pre);
    let b = matches_at(&low, low.len() - suf.len(), &suf);
    assert(low@.subrange(0, pre@.len() as int) =~= low@.take(pre@.len() as int));
    assert(low@.subrange(low@.len() - suf@.len(), low@.len() as int) =~= low@.skip(low@.len() - suf@.len()));
    a && b
}

/// Whether some JVM argument agrees to the EULA.
pub fn eula_agreed_by_args(args: &Vec<String>) -> (r: bool)
    ensures
        r == exists|i: int| 0 <= i < args@.len() && eula_arg(#[trigger] args@[i]@),
{
    let mut i: usize = 0;
    while i < args.len()
        invariant
            i <= args@.len(),
            forall|k: int| 0 <= k < i ==> !eula_arg(#[trigger] args@[k]@),
        decreases args.len() - i,
    {
        if is_eula_arg(args[i].as_str()) {
            return true;
        }
        i = i + 1;
    }
    false
}

/// Whether the runner starts the server again after it exited with `exit`:
/// when kept alive, on anything but the stop code; otherwise only on the
/// restart code.
pub fn should_restart(exit: i32, keep_alive: bool) -> (r: bool)
    ensures
        r == if keep_alive { exit != STOP_EXIT_CODE } else { exit == RESTART_EXIT_CODE },
{
    if keep_alive { exit != STOP_EXIT_CODE } else { exit == RESTART_EXIT_CODE }
}

/// The runner's own exit code for the server's last exit code: the stop code
/// is a success.
pub fn runner_exit_code(exit: i32) -> (r: i32)
    ensures
        r == if exit == STOP_EXIT_CODE { 0 } else { exit },
{
    if exit == STOP_EXIT_CODE { 0 } else { exit }
}

/// The first position at or after `i` that is not white space, or the length.
pub open spec fn first_non_space(s: Seq<char>, i: int) -> int
    decreases s.len() - i,
{
    if i < 0 || i >= s.len() {
        s.len() as int
    } else if whitespace(s[i]) {
        first_non_space(s, i + 1)
    } else {
        i
    }
}

/// The position after the last character before `j` that is not white space,
/// or `lo` when there is none from `lo` on.
pub open spec fn end_non_space(s: Seq<char>, lo: int, j: int) -> int
    decreases j - lo,
{
    if j <= lo {
        lo
    } else if whitespace(s[j - 1]) {
        end_non_space(s, lo, j - 1)
    } else {
        j
    }
}

/// `s` without white space at either end.
pub open spec fn trimmed(s: Seq<char>) -> Seq<char> {
    let lo = first_non_space(s, 0);
    s.subrange(lo, end_non_space(s, lo, s.len() as int))
}

proof fn lemma_first_non_space(s: Seq<char>, i: int)
    requires
        0 <= i <= s.len(),
    ensures
        i <= first_non_space(s, i) <= s.len(),
    decreases s.len() - i,
{
    if i < s.len() && whitespace(s[i]) {
        lemma_first_non_space(s, i + 1);
    }
}

proof fn lemma_end_non_space(s: Seq<char>, lo: int, j: int)
    requires
        lo <= j,
    ensures
        lo <= end_non_space(s, lo, j) <= j,
    decreases j - lo,
{
    if j > lo && whitespace(s[j - 1]) {
        lemma_end_non_space(s, lo, j - 1);
    }
}

/// A line of the EULA file agrees to it: trimmed, it reads `eula=true`.
pub fn eula_line_agrees(line: &str) -> (r: bool)
    ensures
        r == (trimmed(line@) == "eula=true"@),
{
    let cs = chars_of(line);
    let n = cs.len();
    let mut lo: usize = 0;
    while lo < n && is_whitespace_char(cs[lo])
        invariant
            n == cs@.len(),
            lo <= n,
            first_non_space(cs@, 0) == first_non_space(cs@, lo as int),
        decreases n - lo,
    {
        lo = lo + 1;
    }
    let mut hi: usize = n;
    while hi > lo && is_whitespace_char(cs[hi - 1])
        invariant
            n == cs@.len(),
            lo <= hi <= n,
            end_non_space(cs@, lo as int, n as int) == end_non_space(cs@, lo as int, hi as int),
        decreases hi - lo,
    {
        hi = hi - 1;
    }
    let want = chars_of("eula=true");
    if hi - lo != want.len() {
        assert(cs@.subrange(lo as int, hi as int).len() != want@.len());
        return false;
    }
    let r = matches_at(&cs, lo, &want);
    r
}

} // verus!
