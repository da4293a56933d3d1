//! The power socket and its line, `Socket <number> W`.
use vstd::prelude::*;
use vstd::string::*;
use crate::power::Power;
use crate::reading::{
    decode_line, ends_number, lemma_plain_round_trip, parse_line, plain_text,
    push_plain, DecodeError,
};

verus! {

broadcast use crate::text::lemma_decimal_char;

/// The keyword that starts a socket's line.
pub open spec fn socket_keyword() -> Seq<char> {
    seq!['S', 'o', 'c', 'k', 'e', 't']
}

/// What a line reads as for the socket: its power draw in thousandths of a watt.
pub open spec fn decode_socket(s: Seq<char>) -> Result<int, DecodeError> {
    decode_line(socket_keyword(), s)
}

/// The line a socket drawing `power` writes.
#[verifier::opaque]
pub open spec fn socket_line(power: int) -> Seq<char> {
    socket_keyword() + seq![' '] + plain_text(power) + seq![' ', 'W']
}

/// A switchable power socket.
#[derive(Debug, Clone, Copy, PartialEq, Eq, Structural)]
pub struct Socket {
    power: Power,
}

impl View for Socket {
    type V = int;

    /// The power draw, in thousandths of a watt.
    closed spec fn view(&self) -> int {
        self.power@
    }
}

impl Socket {
    pub fn new(power: Power) -> (r: Self)
        ensures
            r@ == power@,
    {
        Self { power }
    }

    pub fn power(&self) -> (r: &Power)
        ensures
            r@ == self@,
    {
        &self.power
    }

    pub fn power_mut(&mut self) -> (r: &mut Power)
        ensures
            r@ == old(self)@,
            final(self)@ == final(r)@,
    {
        &mut self.power
    }

    /// Reads a socket's line: `Socket`, white space, then a number of the form
    /// `\d+(\.\d+)?`, with anything after it ignored.
    pub fn from_str(s: &str) -> (r: Result<Socket, DecodeError>)
        ensures
            r is Ok <==> decode_socket(s@) is Ok,
            r is Ok ==> decode_socket(s@) == Ok::<int, DecodeError>(r->Ok_0@),
            r is Err ==> decode_socket(s@) == Err::<int, DecodeError>(r->Err_0),
    {
        proof {
            reveal_strlit("Socket");
        }
        assert("Socket"@ =~= socket_keyword());
        let value = parse_line("Socket", s);
        match value {
            Ok(v) => Ok(Socket::new(Power::new(v))),
            Err(e) => Err(e),
        }
    }

    /// The socket's line, `Socket <power> W`.
    pub fn encode(&self) -> (r: String)
        ensures
            r@ == socket_line(self@),
    {
        proof {
            reveal_strlit("Socket ");
            reveal_strlit(" W");
        }
        let mut out = String::new();
        out.append("Socket ");
        push_plain(&mut out, self.power.get());
        out.append(" W");
        reveal(socket_line);
        assert(out@ =~= socket_line(self@));
        out
    }
}

impl Default for Socket {
    fn default() -> (r: Self)
        ensures
            r@ == 0,
    {
        Socket { power: Power::default() }
    }
}

/// The line of a socket with a non-negative power draw reads back as that
/// power draw: in particular every draw within the bounds does.
pub proof fn lemma_socket_round_trip(power: int)
    requires
        0 <= power <= i64::MAX,
    ensures
        decode_socket(socket_line(power)) == Ok::<int, DecodeError>(power),
{
    reveal(socket_line);
    let tail = seq![' ', 'W'];
    assert(ends_number(tail));
    lemma_plain_round_trip(socket_keyword(), power, tail);
}

} // verus!
