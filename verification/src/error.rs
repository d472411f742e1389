//! Errors of the pool, and the texts they carry.

use vstd::prelude::*;
use vstd::string::*;

verus! {

/// What a pool operation can fail with.
#[derive(Debug)]
pub enum LimboError {
    /// A failure inside the pool, told in words.
    InternalError(String),
}

/// What an operation on a file fails with: the error that the operating system gave, and the name
/// of the operation that ran into it.
#[derive(Debug)]
pub struct IoError<E> {
    pub source: E,
    pub op: &'static str,
}

/// Ties `source` to the operation `op` that met it.
pub fn io_error<E>(source: E, op: &'static str) -> (res: IoError<E>)
    ensures
        res.source == source,
        res.op == op,
{
    IoError { source, op }
}

/// The character of the decimal digit `d`.
pub open spec fn digit(d: nat) -> char {
    (('0' as nat) + d) as char
}

/// `n` in decimal, without leading zeros.
pub open spec fn decimal(n: nat) -> Seq<char>
    decreases n,
{
    if n < 10 {
        seq![digit(n)]
    } else {
        decimal(n / 10).push(digit(n % 10))
    }
}

/// Appends the decimal digit `d` to `text`.
fn push_digit(text: &mut String, d: usize)
    requires
        d < 10,
    ensures
        final(text)@ == old(text)@.push(digit(d as nat)),
{
    proof {
        reveal_strlit("0");
        reveal_strlit("1");
        reveal_strlit("2");
        reveal_strlit("3");
        reveal_strlit("4");
        reveal_strlit("5");
        reveal_strlit("6");
        reveal_strlit("7");
        reveal_strlit("8");
        reveal_strlit("9");
    }
    let s = match d {
        0 => "0",
        1 => "1",
        2 => "2",
        3 => "3",
        4 => "4",
        5 => "5",
        6 => "6",
        7 => "7",
        8 => "8",
        _ => "9",
    };
    text.append(s);
    assert(s@ =~= seq![digit(d as nat)]);
    assert(text@ =~= old(text)@.push(digit(d as nat)));
}

/// Appends `n` in decimal to `text`.
pub fn push_decimal(text: &mut String, n: usize)
    ensures
        final(text)@ == old(text)@ + decimal(n as nat),
    decreases n,
{
    if n >= 10 {
        push_decimal(text, n / 10);
    }
    push_digit(text, n % 10);
    assert(text@ =~= old(text)@ + decimal(n as nat));
}

/// The text of the refusal of an arena of `bytes` bytes where at most `limit` are allowed.
pub open spec fn over_limit_text(bytes: nat, limit: nat) -> Seq<char> {
    "arena size "@ + decimal(bytes) + " B exceeds hard limit of "@ + decimal(limit) + " B"@
}

/// The refusal of an arena of `bytes` bytes where at most `limit` are allowed.
pub fn over_limit(bytes: usize, limit: usize) -> (res: String)
    ensures
        res@ == over_limit_text(bytes as nat, limit as nat),
{
    let mut text = "arena size ".to_owned();
    push_decimal(&mut text, bytes);
    text.append(" B exceeds hard limit of ");
    push_decimal(&mut text, limit);
    text.append(" B");
    text
}

/// An internal error that says `what`, then why.
pub fn internal_error(what: &str, why: &String) -> (res: LimboError)
    ensures
        res matches LimboError::InternalError(text) && text@ == what@ + why@,
{
    let mut text = what.to_owned();
    text.append(why.as_str());
    LimboError::InternalError(text)
}

} // verus!
