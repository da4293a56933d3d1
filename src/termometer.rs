//! The thermometer and its line, `Termometer <number> C`.
use vstd::prelude::*;
use vstd::string::*;
use crate::temperature::Temperature;
use crate::reading::{
    decode_line, ends_number, lemma_fixed_round_trip, parse_line, fixed_text,
    push_fixed, DecodeError,
};

verus! {

broadcast use crate::text::lemma_decimal_char;

/// The keyword that starts a thermometer's line.
pub open spec fn termometer_keyword() -> Seq<char> {
    seq!['T', 'e', 'r', 'm', 'o', 'm', 'e', 't', 'e', 'r']
}

/// What a line reads as for the thermometer: its temperature in thousandths of a degree.
pub open spec fn decode_termometer(s: Seq<char>) -> Result<int, DecodeError> {
    decode_line(termometer_keyword(), s)
}

/// The line a thermometer at `temperature` writes.
#[verifier::opaque]
pub open spec fn termometer_line(temperature: int) -> Seq<char> {
    termometer_keyword() + seq![' '] + fixed_text(temperature) + seq![' ', 'C']
}

/// A thermometer. `Termometer` is the word its line starts with.
#[derive(Debug, Clone, Copy, PartialEq, Eq, Structural)]
pub struct Termometer {
    temperature: Temperature,
}

impl View for Termometer {
    type V = int;

    /// The temperature, in thousandths of a degree.
    closed spec fn view(&self) -> int {
        self.temperature@
    }
}

impl Termometer {
    pub fn new(temperature: Temperature) -> (r: Self)
        ensures
            r@ == temperature@,
    {
        Self { temperature }
    }

    pub fn temperature(&self) -> (r: &Temperature)
        ensures
            r@ == self@,
    {
        &self.temperature
    }

    pub fn temperature_mut(&mut self) -> (r: &mut Temperature)
        ensures
            r@ == old(self)@,
            final(self)@ == final(r)@,
    {
        &mut self.temperature
    }

    /// Reads a thermometer's line: `Termometer`, white space, then a number of the form
    /// `\d+(\.\d+)?`, with anything after it ignored.
    pub fn from_str(s: &str) -> (r: Result<Termometer, DecodeError>)
        ensures
            r is Ok <==> decode_termometer(s@) is Ok,
            r is Ok ==> decode_termometer(s@) == Ok::<int, DecodeError>(r->Ok_0@),
            r is Err ==> decode_termometer(s@) == Err::<int, DecodeError>(r->Err_0),
    {
        proof {
            reveal_strlit("Termometer");
        }
        assert("Termometer"@ =~= termometer_keyword());
        let value = parse_line("Termometer", s);
        match value {
            Ok(v) => Ok(Termometer::new(Temperature::new(v))),
            Err(e) => Err(e),
        }
    }

    /// The thermometer's line, `Termometer <temperature> C`, with three decimals.
    pub fn encode(&self) -> (r: String)
        ensures
            r@ == termometer_line(self@),
    {
        proof {
            reveal_strlit("Termometer ");
            reveal_strlit(" C");
        }
        let mut out = String::new();
        out.append("Termometer ");
        push_fixed(&mut out, self.temperature.get());
        out.append(" C");
        reveal(termometer_line);
        assert(out@ =~= termometer_line(self@));
        out
    }
}

impl Default for Termometer {
    fn default() -> (r: Self)
        ensures
            r@ == 0,
    {
        Termometer { temperature: Temperature::default() }
    }
}

/// The line of a thermometer with a non-negative temperature reads back as
/// that temperature: in particular every temperature within the bounds does.
pub proof fn lemma_termometer_round_trip(temperature: int)
    requires
        0 <= temperature <= i64::MAX,
    ensures
        decode_termometer(termometer_line(temperature)) == Ok::<int, DecodeError>(temperature),
{
    reveal(termometer_line);
    let tail = seq![' ', 'C'];
    assert(ends_number(tail));
    lemma_fixed_round_trip(termometer_keyword(), temperature, tail);
}

/// A thermometer's line starts with `T`.
pub proof fn lemma_termometer_line_start(v: int)
    ensures
        termometer_line(v).len() > 0,
        termometer_line(v)[0] == 'T',
{
    reveal(termometer_line);
}

} // verus!
