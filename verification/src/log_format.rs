//! The exact text of every diagnostic line the launcher writes.
//!
//! Each line has a spec-level definition over `Seq<char>` and an executable
//! builder proved to produce exactly that text.  Process identifiers are
//! rendered in decimal by a verified formatter.

use vstd::prelude::*;
use vstd::string::StringExecFns;

verus! {

/// The decimal digit character for `d` (meaningful for `d < 10`).
pub open spec fn digit_char(d: nat) -> char {
    if d == 0 {
        '0'
    } else if d == 1 {
        '1'
    } else if d == 2 {
        '2'
    } else if d == 3 {
        '3'
    } else if d == 4 {
        '4'
    } else if d == 5 {
        '5'
    } else if d == 6 {
        '6'
    } else if d == 7 {
        '7'
    } else if d == 8 {
        '8'
    } else {
        '9'
    }
}

/// The decimal representation of `n`, most significant digit first,
/// with no leading zeros (a single `'0'` for zero).
pub open spec fn dec_str(n: nat) -> Seq<char>
    decreases n,
{
    if n < 10 {
        seq![digit_char(n)]
    } else {
        dec_str(n / 10) + seq![digit_char(n % 10)]
    }
}

fn digit_str(d: u64) -> (r: &'static str)
    requires
        d < 10,
    ensures
        r@ == seq![digit_char(d as nat)],
{
    proof {
        reveal_strlit("0");
        reveal_strlit("1");
        reveal_strlit("2");
        reveal_strlit("3");
        reveal_strlit("4");
        reveal_strlit("5");
        reveal_strlit("6");
        reveal_strlit("7");
        reveal_strlit("8");
        reveal_strlit("9");
    }
    let r: &'static str = if d == 0 {
        "0"
    } else if d == 1 {
        "1"
    } else if d == 2 {
        "2"
    } else if d == 3 {
        "3"
    } else if d == 4 {
        "4"
    } else if d == 5 {
        "5"
    } else if d == 6 {
        "6"
    } else if d == 7 {
        "7"
    } else if d == 8 {
        "8"
    } else {
        "9"
    };
    proof {
        assert(r@ =~= seq![digit_char(d as nat)]);
    }
    r
}

/// Renders `n` in decimal.
pub fn u64_to_dec(n: u64) -> (r: String)
    ensures
        r@ == dec_str(n as nat),
    decreases n,
{
    if n < 10 {
        digit_str(n).to_owned()
    } else {
        assert(n / 10 < n && n % 10 < 10) by (nonlinear_arith)
            requires
                n >= 10,
        ;
        let mut s = u64_to_dec(n / 10);
        s.append(digit_str(n % 10));
        s
    }
}

/// The line written when no candidate script exists on disk.
pub open spec fn skip_line() -> Seq<char> {
    "backend startup skipped: server/index.js not found"@
}

/// The line written once a script path has been resolved.
pub open spec fn resolved_line(path: Seq<char>) -> Seq<char> {
    "backend script resolved to "@ + path
}

/// The line written when one interpreter candidate fails to spawn.
pub open spec fn failure_line(interpreter: Seq<char>, error: Seq<char>) -> Seq<char> {
    "backend start failed via '"@ + interpreter + "': "@ + error
}

/// The line written when a spawn succeeds, naming the child's process id.
pub open spec fn success_line(interpreter: Seq<char>, pid: u32) -> Seq<char> {
    "backend started via '"@ + interpreter + "' with pid "@ + dec_str(pid as nat)
}

/// The line written after every interpreter candidate has failed.
pub open spec fn exhausted_line() -> Seq<char> {
    "backend failed to start with all node candidates"@
}

/// One full log record: a bracketed timestamp, a space, the message.
pub open spec fn log_record(timestamp: Seq<char>, message: Seq<char>) -> Seq<char> {
    "["@ + timestamp + "] "@ + message
}

pub fn skip_line_text() -> (r: String)
    ensures
        r@ == skip_line(),
{
    "backend startup skipped: server/index.js not found".to_owned()
}

pub fn resolved_line_text(path: &str) -> (r: String)
    ensures
        r@ == resolved_line(path@),
{
    "backend script resolved to ".to_owned().concat(path)
}

pub fn failure_line_text(interpreter: &str, error: &str) -> (r: String)
    ensures
        r@ == failure_line(interpreter@, error@),
{
    let r = "backend start failed via '".to_owned().concat(interpreter).concat("': ").concat(
        error,
    );
    proof {
        assert(r@ =~= failure_line(interpreter@, error@));
    }
    r
}

pub fn success_line_text(interpreter: &str, pid: u32) -> (r: String)
    ensures
        r@ == success_line(interpreter@, pid),
{
    let pid_text = u64_to_dec(pid as u64);
    let r = "backend started via '".to_owned().concat(interpreter).concat("' with pid ").concat(
        pid_text.as_str(),
    );
    proof {
        assert(r@ =~= success_line(interpreter@, pid));
    }
    r
}

pub fn exhausted_line_text() -> (r: String)
    ensures
        r@ == exhausted_line(),
{
    "backend failed to start with all node candidates".to_owned()
}

pub fn log_record_text(timestamp: &str, message: &str) -> (r: String)
    ensures
        r@ == log_record(timestamp@, message@),
{
    let r = "[".to_owned().concat(timestamp).concat("] ").concat(message);
    proof {
        assert(r@ =~= log_record(timestamp@, message@));
    }
    r
}

} // verus!
