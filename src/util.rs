//! Exit values of the client commands.

use vstd::prelude::*;

verus! {

/// How a command ends when it does not succeed.
#[derive(Clone, Debug, PartialEq, Eq, Structural)]
pub enum ExitValue {
    /// A failure, with the process exit code.
    Code(i32),
    /// The server closed the channel cleanly; not an error.
    Shutdown,
}

/// A failure and the diagnostic to print for it, if any.
#[derive(Clone, Debug)]
pub struct Failure {
    pub exit: ExitValue,
    pub message: Option<String>,
}

/// The process exit code for an outcome.
pub open spec fn spec_exit_code(r: Result<(), ExitValue>) -> i32 {
    match r {
        Ok(()) => 0,
        Err(ExitValue::Code(c)) => c,
        Err(ExitValue::Shutdown) => 0,
    }
}

/// The process exit code for an outcome: success and a clean shutdown give 0.
pub fn exit_code(r: &Result<(), ExitValue>) -> (c: i32)
    ensures
        c == spec_exit_code(*r),
{
    match r {
        Ok(()) => 0,
        Err(ExitValue::Code(c)) => *c,
        Err(ExitValue::Shutdown) => 0,
    }
}

/// A failure with exit code 1 and a diagnostic.
pub fn failure(message: &str) -> (r: Failure)
    ensures
        r.exit == ExitValue::Code(1),
        r.message matches Some(m) && m@ == message@,
{
    Failure { exit: ExitValue::Code(1), message: Some(message.to_owned()) }
}

/// Converting a failure into the exit value it stands for.
pub trait ExitError<T>: Sized {
    /// The outcome this result stands for.
    spec fn spec_conv(self) -> Result<T, ExitValue>;

    fn conv(self) -> (r: Result<T, ExitValue>)
        ensures
            r == self.spec_conv(),
    ;
}

impl<T> ExitError<T> for Result<T, Failure> {
    open spec fn spec_conv(self) -> Result<T, ExitValue> {
        match self {
            Ok(v) => Ok(v),
            Err(f) => Err(f.exit),
        }
    }

    fn conv(self) -> (r: Result<T, ExitValue>) {
        match self {
            Ok(v) => Ok(v),
            Err(f) => Err(f.exit),
        }
    }
}

/// The decimal digits of `n`.
pub open spec fn digits(n: nat) -> Seq<char>
    decreases n,
{
    if n < 10 {
        seq![(n + '0' as nat) as char]
    } else {
        digits(n / 10) + seq![((n % 10) + '0' as nat) as char]
    }
}

/// `v` written in decimal, with a leading `-` when negative.
pub open spec fn decimal(v: int) -> Seq<char> {
    if v < 0 {
        seq!['-'] + digits((-v) as nat)
    } else {
        digits(v as nat)
    }
}

/// The decimal digits of `n` as characters.
fn digits_of(n: u64) -> (r: Vec<char>)
    ensures
        r@ == digits(n as nat),
{
    let mut mag = n;
    let mut acc: Vec<char> = Vec::new();
    while mag >= 10
        invariant
            digits(n as nat) == digits(mag as nat) + acc@,
        decreases mag,
    {
        let d = ((mag % 10) as u8 + 48u8) as char;
        assert(d == ((mag % 10) as nat + '0' as nat) as char);
        let ghost old_acc = acc@;
        acc.insert(0, d);
        assert(digits(mag as nat) == digits((mag / 10) as nat) + seq![d]);
        assert(digits((mag / 10) as nat) + acc@ =~= digits((mag / 10) as nat) + seq![d] + old_acc);
        mag = mag / 10;
    }
    let d = (mag as u8 + 48u8) as char;
    assert(d == (mag as nat + '0' as nat) as char);
    acc.insert(0, d);
    assert(acc@ =~= seq![d] + (acc@.subrange(1, acc@.len() as int)));
    assert(digits(mag as nat) == seq![d]);
    assert(digits(n as nat) =~= acc@);
    acc
}

/// `v` in decimal, with a leading `-` when negative.
pub fn int_text(v: i64) -> (r: String)
    ensures
        r@ == decimal(v as int),
{
    let mut out: Vec<char> = Vec::new();
    let mag: u64 = if v < 0 {
        out.push('-');
        (0i128 - v as i128) as u64
    } else {
        v as u64
    };
    let ds = digits_of(mag);
    let mut i: usize = 0;
    let ghost head = out@;
    while i < ds.len()
        invariant
            i <= ds@.len(),
            out@ == head + ds@.take(i as int),
        decreases ds.len() - i,
    {
        out.push(ds[i]);
        i = i + 1;
        assert(out@ =~= head + ds@.take(i as int));
    }
    assert(ds@.take(i as int) =~= ds@);
    proof {
        if v < 0 {
            assert(head =~= seq!['-']);
        } else {
            assert(head =~= Seq::<char>::empty());
            assert(out@ =~= ds@);
        }
    }
    crate::text::string_of(&out)
}

} // verus!
