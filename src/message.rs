//! The command a socket is sent: off, or a level from 1 to 255, written as
//! a decimal number (`0` for off).
use vstd::prelude::*;
use vstd::string::*;
use crate::text::{
    all_digits, chars_of, lemma_nat_digits, lemma_space_run_end_at, digit_value, digits_value, is_digit, is_digit_char, is_space,
    is_space_char, lemma_digits_value_prefix, lemma_digits_value_push, nat_digits, push_digits,
    space_run_end,
};

verus! {

/// A command for a socket.
#[derive(Debug, Clone, Copy, PartialEq, Eq, Structural)]
pub enum SocketMessage {
    Off,
    Value(u8),
}

/// Where the white space that ends at `j` starts, going no lower than `lo`.
pub open spec fn space_run_start(s: Seq<char>, j: int, lo: int) -> int
    decreases j - lo,
{
    if lo < j && 0 < j <= s.len() && is_space_char(s[j - 1]) {
        space_run_start(s, j - 1, lo)
    } else {
        j
    }
}

/// `s` without white space at either end.
pub open spec fn trimmed(s: Seq<char>) -> Seq<char> {
    let lo = space_run_end(s, 0);
    s.subrange(lo, space_run_start(s, s.len() as int, lo))
}

/// The `u8` that `s` writes: an optional `+`, then one or more digits whose
/// value is at most 255.
pub open spec fn u8_literal(s: Seq<char>) -> Option<u8> {
    let d = if s.len() > 0 && s[0] == '+' {
        s.drop_first()
    } else {
        s
    };
    if d.len() > 0 && all_digits(d) && digits_value(d) <= 255 {
        Some(digits_value(d) as u8)
    } else {
        None
    }
}

/// The command that the text `s` writes, white space around it aside.
pub open spec fn socket_message_of(s: Seq<char>) -> Option<SocketMessage> {
    match u8_literal(trimmed(s)) {
        None => None,
        Some(v) => if v == 0 {
            Some(SocketMessage::Off)
        } else {
            Some(SocketMessage::Value(v))
        },
    }
}

/// The text of a command.
pub open spec fn socket_message_text(m: SocketMessage) -> Seq<char> {
    match m {
        SocketMessage::Off => seq!['0'],
        SocketMessage::Value(v) => nat_digits(v as nat),
    }
}

proof fn lemma_space_run_start_at(s: Seq<char>, lo: int, h: int, j: int)
    requires
        0 <= lo <= h <= j <= s.len(),
        forall|k: int| h <= k < j ==> is_space_char(#[trigger] s[k]),
        h == lo || !is_space_char(s[h - 1]),
    ensures
        space_run_start(s, j, lo) == h,
    decreases j - h,
{
    if h < j {
        lemma_space_run_start_at(s, lo, h, j - 1);
    }
}

impl SocketMessage {
    /// Reads a command: white space around it is ignored, and what is left
    /// must be a number from 0 to 255 (`0` is off), else there is none.
    pub fn from_text(value: &str) -> (r: Option<SocketMessage>)
        ensures
            r == socket_message_of(value@),
    {
        let cs = chars_of(value);
        let n = cs.len();
        let mut lo: usize = 0;
        while lo < n && is_space(cs[lo])
            invariant
                n == cs@.len(),
                lo <= n,
                forall|k: int| 0 <= k < lo ==> is_space_char(#[trigger] cs@[k]),
            decreases n - lo,
        {
            lo = lo + 1;
        }
        proof {
            lemma_space_run_end_at(cs@, 0, lo as int);
        }
        let mut hi: usize = n;
        while hi > lo && is_space(cs[hi - 1])
            invariant
                n == cs@.len(),
                lo <= hi <= n,
                forall|k: int| hi <= k < n ==> is_space_char(#[trigger] cs@[k]),
            decreases hi - lo,
        {
            hi = hi - 1;
        }
        proof {
            lemma_space_run_start_at(cs@, lo as int, hi as int, n as int);
        }
        let ghost t = cs@.subrange(lo as int, hi as int);
        assert(t == trimmed(value@));
        let mut a: usize = lo;
        if a < hi && cs[a] == '+' {
            a = a + 1;
        }
        let ghost d = cs@.subrange(a as int, hi as int);
        assert(d == if t.len() > 0 && t[0] == '+' {
            t.drop_first()
        } else {
            t
        });
        if a == hi {
            return None;
        }
        let mut b: usize = a;
        let mut acc: u64 = 0;
        while b < hi
            invariant
                n == cs@.len(),
                a <= b <= hi <= n,
                d == cs@.subrange(a as int, hi as int),
                t == trimmed(value@),
                d == if t.len() > 0 && t[0] == '+' {
                    t.drop_first()
                } else {
                    t
                },
                forall|k: int| a <= k < b ==> is_digit_char(#[trigger] cs@[k]),
                acc == digits_value(cs@.subrange(a as int, b as int)),
                acc <= 255,
            decreases hi - b,
        {
            if !is_digit(cs[b]) {
                assert(d[b - a] == cs@[b as int]);
                return None;
            }
            let next = acc * 10 + digit_value(cs[b]);
            proof {
                assert(cs@.subrange(a as int, b + 1) =~= cs@.subrange(a as int, b as int).push(
                    cs@[b as int],
                ));
                lemma_digits_value_push(cs@.subrange(a as int, b as int), cs@[b as int]);
            }
            if next > 255 {
                proof {
                    lemma_digits_value_prefix(d, b + 1 - a);
                    assert(d.subrange(0, b + 1 - a) =~= cs@.subrange(a as int, b + 1));
                }
                return None;
            }
            acc = next;
            b = b + 1;
        }
        assert(cs@.subrange(a as int, b as int) =~= d);
        assert(all_digits(d));
        if acc == 0 {
            Some(SocketMessage::Off)
        } else {
            Some(SocketMessage::Value(acc as u8))
        }
    }

    /// The command's text: `0` for off, else the level in decimal.
    pub fn to_text(&self) -> (r: String)
        ensures
            r@ == socket_message_text(*self),
    {
        let mut out = String::new();
        match *self {
            SocketMessage::Off => {
                push_digits(&mut out, 0);
            },
            SocketMessage::Value(v) => {
                push_digits(&mut out, v as u64);
            },
        }
        assert(out@ =~= socket_message_text(*self));
        out
    }
}

/// Reading the text of a command gives the command back; a level of zero
/// reads back as off.
pub proof fn lemma_socket_message_round_trip(m: SocketMessage)
    ensures
        socket_message_of(socket_message_text(m)) == match m {
            SocketMessage::Value(0) => Some(SocketMessage::Off),
            _ => Some(m),
        },
{
    let v: nat = match m {
        SocketMessage::Off => 0,
        SocketMessage::Value(x) => x as nat,
    };
    let s = nat_digits(v);
    lemma_nat_digits(v);
    assert(s == socket_message_text(m)) by {
        if m is Off {
            assert(nat_digits(0) =~= seq!['0']);
        }
    }
    assert(!is_space_char(s[0]));
    assert(!is_space_char(s[s.len() - 1]));
    lemma_space_run_end_at(s, 0, 0);
    lemma_space_run_start_at(s, 0, s.len() as int, s.len() as int);
    assert(trimmed(s) =~= s);
    assert(s[0] != '+');
}

} // verus!
