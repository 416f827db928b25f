//! The failures that the library reports.

use vstd::prelude::*;
use vstd::string::StringExecFns;

verus! {

/// Why an operation failed.
#[derive(Clone, Copy, Debug, PartialEq, Eq, Structural)]
pub enum TrackerError {
    /// No task has this id.
    NotFound(i64),
    /// A report was asked for without a tag or without a bucket.
    InvalidRequest,
    /// An interval was to open for the task with this id while another
    /// of its intervals was open.
    LedgerInvariantViolation(i64),
}

/// The character of a decimal digit.
pub open spec fn digit(d: nat) -> char {
    if d == 0 {
        '0'
    } else if d == 1 {
        '1'
    } else if d == 2 {
        '2'
    } else if d == 3 {
        '3'
    } else if d == 4 {
        '4'
    } else if d == 5 {
        '5'
    } else if d == 6 {
        '6'
    } else if d == 7 {
        '7'
    } else if d == 8 {
        '8'
    } else {
        '9'
    }
}

/// The decimal digits of a number, the most significant first.
pub open spec fn digits(n: nat) -> Seq<char>
    decreases n,
{
    if n < 10 {
        seq![digit(n)]
    } else {
        digits(n / 10).push(digit(n % 10))
    }
}

/// A number in decimal, with a minus sign if it is negative.
pub open spec fn decimal(n: int) -> Seq<char> {
    if n < 0 {
        seq!['-'] + digits((-n) as nat)
    } else {
        digits(n as nat)
    }
}

/// The text of a decimal digit.
fn digit_text(d: u64) -> (r: &'static str)
    requires
        d < 10,
    ensures
        r@ == seq![digit(d as nat)],
{
    proof {
        reveal_strlit("0");
        reveal_strlit("1");
        reveal_strlit("2");
        reveal_strlit("3");
        reveal_strlit("4");
        reveal_strlit("5");
        reveal_strlit("6");
        reveal_strlit("7");
        reveal_strlit("8");
        reveal_strlit("9");
    }
    let r = if d == 0 {
        "0"
    } else if d == 1 {
        "1"
    } else if d == 2 {
        "2"
    } else if d == 3 {
        "3"
    } else if d == 4 {
        "4"
    } else if d == 5 {
        "5"
    } else if d == 6 {
        "6"
    } else if d == 7 {
        "7"
    } else if d == 8 {
        "8"
    } else {
        "9"
    };
    assert(r@ =~= seq![digit(d as nat)]);
    r
}

/// Appends the decimal digits of `n` to `text`.
fn append_digits(text: &mut String, n: u64)
    ensures
        final(text)@ == old(text)@ + digits(n as nat),
    decreases n,
{
    if n >= 10 {
        append_digits(text, n / 10);
    }
    text.append(digit_text(n % 10));
    proof {
        assert(text@ =~= old(text)@ + digits(n as nat));
    }
}

/// Appends `n` in decimal to `text`.
fn append_decimal(text: &mut String, n: i64)
    ensures
        final(text)@ == old(text)@ + decimal(n as int),
{
    if n < 0 {
        proof {
            reveal_strlit("-");
        }
        text.append("-");
        // the magnitude of the lowest number is one more than the highest
        let magnitude: u64 = (-(n + 1)) as u64 + 1;
        append_digits(text, magnitude);
        proof {
            assert(text@ =~= old(text)@ + decimal(n as int));
        }
    } else {
        append_digits(text, n as u64);
    }
}

/// The message for a task that was not found.
fn not_found_message(task_id: i64) -> (r: String)
    ensures
        r@ == "Task with id '"@ + decimal(task_id as int) + "' not found."@,
{
    let mut text: String = "Task with id '".to_owned();
    append_decimal(&mut text, task_id);
    text.append("' not found.");
    text
}

impl TrackerError {
    /// What the error says.
    pub open spec fn text(self) -> Seq<char> {
        match self {
            TrackerError::NotFound(task_id) => "Task with id '"@ + decimal(task_id as int) + "' not found."@,
            TrackerError::InvalidRequest => "The search criteria must have at least one tag and one bucket"@,
            TrackerError::LedgerInvariantViolation(_) => "The task already has an open work interval"@,
        }
    }

    /// What the error says.
    pub fn message(&self) -> (r: String)
        ensures
            r@ == self.text(),
    {
        match self {
            TrackerError::NotFound(task_id) => not_found_message(*task_id),
            TrackerError::InvalidRequest => "The search criteria must have at least one tag and one bucket".to_owned(),
            TrackerError::LedgerInvariantViolation(_) => "The task already has an open work interval".to_owned(),
        }
    }
}

} // verus!
