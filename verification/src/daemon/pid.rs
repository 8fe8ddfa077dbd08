//! The PID file's text and the refusal a second daemon gets. Holding the
//! file's lock is what makes a daemon alive; the recorded PID is only a
//! hint for `stop`. Locking and file access happen around these.
use vstd::prelude::*;

use crate::decimal::{digit_value, digits_value, is_digit};
use crate::error::{decimal_spec, push_decimal, push_str};
use crate::text::{chars_of, push_char, trim, trim_spec};

verus! {

/// Why acquiring the PID file failed.
pub enum AcquireError {
    /// Another daemon holds the lock; its PID when the file records one.
    AlreadyRunning { pid: Option<u32> },
    /// The file could not be opened or locked (the I/O error's text).
    Io(String),
}

/// An acquisition failure, in words.
pub open spec fn acquire_error_message(e: AcquireError) -> Seq<char> {
    match e {
        AcquireError::AlreadyRunning { pid } => "daemon already running"@ + match pid {
            Some(p) => " (pid "@ + decimal_spec(p as nat) + ")"@,
            None => Seq::empty(),
        },
        AcquireError::Io(m) => m@,
    }
}

impl AcquireError {
    /// The human-readable message.
    pub fn message(&self) -> (r: String)
        ensures
            r@ == acquire_error_message(*self),
    {
        let mut s = String::new();
        match self {
            AcquireError::AlreadyRunning { pid } => {
                push_str(&mut s, "daemon already running");
                match pid {
                    Some(p) => {
                        push_str(&mut s, " (pid ");
                        push_decimal(&mut s, *p as u64);
                        push_str(&mut s, ")");
                    },
                    None => {},
                }
            },
            AcquireError::Io(m) => push_str(&mut s, m.as_str()),
        }
        proof {
            assert(s@ =~= acquire_error_message(*self));
        }
        s
    }
}

/// The digits of an unsigned decimal as `FromStr` reads them: an optional
/// `+`, then at least one digit (leading zeros allowed).
pub open spec fn unsigned_digits(s: Seq<char>) -> Seq<char> {
    if s.len() > 0 && s[0] == '+' {
        s.drop_first()
    } else {
        s
    }
}

/// What `u32::from_str` gives for `s`.
pub open spec fn parse_u32_spec(s: Seq<char>) -> Option<u32> {
    let d = unsigned_digits(s);
    if d.len() > 0 && (forall|k: int| 0 <= k < d.len() ==> is_digit(#[trigger] d[k])) && digits_value(d)
        <= u32::MAX {
        Some(digits_value(d) as u32)
    } else {
        None
    }
}

/// Read an unsigned decimal as `u32::from_str` does.
pub fn parse_u32(s: &Vec<char>) -> (r: Option<u32>)
    ensures
        r == parse_u32_spec(s@),
{
    let start: usize = if s.len() > 0 && s[0] == '+' {
        1
    } else {
        0
    };
    let ghost d = unsigned_digits(s@);
    proof {
        if start == 1 {
            assert(d =~= s@.subrange(1, s@.len() as int));
        } else {
            assert(d =~= s@.subrange(0, s@.len() as int));
        }
    }
    if start >= s.len() {
        return None;
    }
    let mut v: u64 = 0;
    let mut i: usize = start;
    while i < s.len()
        invariant
            start <= i <= s.len(),
            d == unsigned_digits(s@),
            d == s@.subrange(start as int, s@.len() as int),
            forall|k: int| 0 <= k < i - start ==> is_digit(#[trigger] d[k]),
            v == digits_value(d.take(i - start)),
            v <= u32::MAX,
        decreases s.len() - i,
    {
        let c = s[i];
        if !('0' <= c && c <= '9') {
            proof {
                assert(d[i - start] == c);
                assert(!is_digit(d[i - start]));
            }
            return None;
        }
        proof {
            assert(d.take(i - start + 1).drop_last() =~= d.take(i - start));
            assert(d.take(i - start + 1).last() == c);
        }
        let w: u64 = v * 10 + (c as u32 - '0' as u32) as u64;
        if w > 4294967295 {
            proof {
                if forall|k: int| 0 <= k < d.len() ==> is_digit(#[trigger] d[k]) {
                    crate::decimal::lemma_prefix_value_bounded(d, i - start + 1);
                }
            }
            return None;
        }
        v = w;
        i = i + 1;
    }
    proof {
        assert(d.take(d.len() as int) =~= d);
    }
    Some(v as u32)
}

/// The PID recorded in a PID file's text: its trimmed content read as a
/// number (`None` when empty or not a number).
pub fn parse_pid(text: &str) -> (r: Option<u32>)
    ensures
        r == parse_u32_spec(trim_spec(text@)),
{
    let cs = chars_of(text);
    let t = trim(&cs);
    parse_u32(&t)
}

/// What a PID file holds: the PID and a newline.
pub fn pid_line(pid: u32) -> (r: String)
    ensures
        r@ == decimal_spec(pid as nat).push('\n'),
{
    let mut s = String::new();
    push_decimal(&mut s, pid as u64);
    push_char(&mut s, '\n');
    s
}

} // verus!
