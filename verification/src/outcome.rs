//! How a run ended, and the words in which that is reported.

use vstd::prelude::*;
use crate::paint::{is_painting, paint, Tint};

verus! {

/// How the child process ended.
#[derive(Clone, Copy, Debug, PartialEq, Eq, Structural)]
pub struct ChildResult {
    /// The exit code, where the process ended with one.
    pub exit_code: Option<i32>,
    /// Whether the process reported success.
    pub succeeded: bool,
}

impl ChildResult {
    /// Success and the exit code agree: success is the exit code zero.
    pub open spec fn wf(&self) -> bool {
        self.succeeded == (self.exit_code == Some(0i32))
    }

    /// The result of a process that ended with `exit_code`, or without one.
    pub fn from_code(exit_code: Option<i32>) -> (result: ChildResult)
        ensures
            result.exit_code == exit_code,
            result.wf(),
    {
        let succeeded = match exit_code {
            Some(code) => code == 0,
            None => false,
        };
        ChildResult { exit_code, succeeded }
    }

    /// The tint in which this result is reported.
    pub open spec fn tone(&self) -> Tint {
        if self.succeeded {
            Tint::Green
        } else {
            Tint::Red
        }
    }

    /// The status with which a program that ran the child should end itself:
    /// zero after success, else the child's code, or one where it had none.
    pub fn status_to_pass_on(&self) -> (status: i32)
        ensures
            status == (if self.succeeded {
                0i32
            } else {
                match self.exit_code {
                    Some(code) => code,
                    None => 1i32,
                }
            }),
            self.wf() ==> (status == 0 <==> self.succeeded),
    {
        if self.succeeded {
            0
        } else {
            match self.exit_code {
                Some(code) => code,
                None => 1,
            }
        }
    }
}

/// The character of one decimal digit.
pub open spec fn digit(d: int) -> char {
    (d + 48) as char
}

/// A natural number in decimal, without leading zeros.
pub open spec fn digits(n: nat) -> Seq<char>
    decreases n,
{
    if n < 10 {
        seq![digit(n as int)]
    } else {
        digits(n / 10).push(digit((n % 10) as int))
    }
}

/// An integer in decimal, with a minus sign where it is negative.
pub open spec fn decimal(n: int) -> Seq<char> {
    if n < 0 {
        seq!['-'] + digits((-n) as nat)
    } else {
        digits(n as nat)
    }
}

/// The sentence that tells how the run ended.
pub open spec fn verdict_text(result: ChildResult) -> Seq<char> {
    if result.succeeded {
        "Success!"@
    } else {
        "Command exited with status: "@ + match result.exit_code {
            Some(code) => decimal(code as int),
            None => "none"@,
        }
    }
}

/// The sentence that tells where the full output was written.
pub open spec fn location_text(path: Seq<char>) -> Seq<char> {
    "(check full output at: "@ + path + ")"@
}

fn digit_str(d: u64) -> (s: &'static str)
    requires
        d < 10,
    ensures
        s@ == seq![digit(d as int)],
{
    let s = if d == 0 {
        "0"
    } else if d == 1 {
        "1"
    } else if d == 2 {
        "2"
    } else if d == 3 {
        "3"
    } else if d == 4 {
        "4"
    } else if d == 5 {
        "5"
    } else if d == 6 {
        "6"
    } else if d == 7 {
        "7"
    } else if d == 8 {
        "8"
    } else {
        "9"
    };
    proof {
        reveal_strlit("0");
        reveal_strlit("1");
        reveal_strlit("2");
        reveal_strlit("3");
        reveal_strlit("4");
        reveal_strlit("5");
        reveal_strlit("6");
        reveal_strlit("7");
        reveal_strlit("8");
        reveal_strlit("9");
    }
    s
}

fn digits_text(n: u64) -> (out: String)
    ensures
        out@ == digits(n as nat),
    decreases n,
{
    if n < 10 {
        digit_str(n).to_owned()
    } else {
        let mut out = digits_text(n / 10);
        out.append(digit_str(n % 10));
        out
    }
}

/// `value` written in decimal.
pub fn decimal_text(value: i32) -> (out: String)
    ensures
        out@ == decimal(value as int),
{
    if value < 0 {
        let magnitude: u64 = (-(value as i64)) as u64;
        let mut out = "-".to_owned();
        proof {
            reveal_strlit("-");
        }
        out.append(digits_text(magnitude).as_str());
        out
    } else {
        digits_text(value as u64)
    }
}

/// The sentence that tells how the run ended: a word of success, or the
/// status with which the command failed.
pub fn verdict(result: &ChildResult) -> (out: String)
    ensures
        out@ == verdict_text(*result),
{
    if result.succeeded {
        "Success!".to_owned()
    } else {
        let mut out = "Command exited with status: ".to_owned();
        match result.exit_code {
            Some(code) => {
                out.append(decimal_text(code).as_str());
            },
            None => {
                out.append("none");
            },
        }
        out
    }
}

/// The two lines printed when a run is over.
#[derive(Debug)]
pub struct Report {
    /// Where the full output was written.
    pub location: String,
    /// How the run ended.
    pub verdict: String,
}

/// The report of a run whose output went to `path`: both lines in green
/// after success and in red after failure, as far as the terminal takes
/// colour.
pub fn report(result: &ChildResult, path: &str) -> (out: Report)
    ensures
        is_painting(out.location@, location_text(path@), result.tone()),
        is_painting(out.verdict@, verdict_text(*result), result.tone()),
{
    let tone = if result.succeeded {
        Tint::Green
    } else {
        Tint::Red
    };
    let mut location = "(check full output at: ".to_owned();
    location.append(path);
    location.append(")");
    let sentence = verdict(result);
    Report { location: paint(location.as_str(), tone), verdict: paint(sentence.as_str(), tone) }
}

} // verus!
