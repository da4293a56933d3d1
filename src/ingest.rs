//! What a connection's payload is taken to be: a reading of one of the
//! devices, or something else, which is answered with an acknowledgement.
use vstd::prelude::*;
use vstd::string::*;
use vstd::utf8::{decode_utf8, valid_utf8};
use crate::reading::{line_number, DecodeError};
use crate::socket::{decode_socket, lemma_socket_round_trip, socket_keyword, socket_line, Socket};
use crate::termometer::{
    decode_termometer, lemma_termometer_line_start, lemma_termometer_round_trip,
    termometer_keyword, termometer_line, Termometer,
};

verus! {

broadcast use crate::text::lemma_decimal_char;

/// Bytes read from a connection, at most.
pub const READ_BUFFER_LEN: usize = 128;

/// Readings that wait for the consumer, at most; further ones are dropped.
pub const CHANNEL_CAPACITY: usize = 32;

/// One decoded payload.
#[derive(Debug, Clone, Copy, PartialEq, Eq, Structural)]
pub enum SensorData {
    /// A thermometer's reading, in thousandths of a degree.
    Temperature(i64),
    /// A socket's reading, in thousandths of a watt.
    Power(i64),
    /// A payload that neither device writes.
    Unknown,
}

/// Why a connection gave no reading.
#[derive(Debug, Clone, Copy, PartialEq, Eq, Structural)]
pub enum HandlerError {
    /// The read failed, or the peer closed before sending anything.
    ConnectionError,
    /// The payload has the shape of a device's line, but its number cannot be read.
    InvalidNumber,
}

/// What `text` is taken to be: the socket's line is tried first, then the
/// thermometer's. A line whose number cannot be read is an error; a text
/// that matches neither line is `Unknown`.
pub open spec fn classify_spec(text: Seq<char>) -> Result<SensorData, DecodeError> {
    match decode_socket(text) {
        Ok(v) => Ok(SensorData::Power(v as i64)),
        Err(DecodeError::InvalidNumber) => Err(DecodeError::InvalidNumber),
        Err(DecodeError::NoMatch) => match decode_termometer(text) {
            Ok(v) => Ok(SensorData::Temperature(v as i64)),
            Err(DecodeError::InvalidNumber) => Err(DecodeError::InvalidNumber),
            Err(DecodeError::NoMatch) => Ok(SensorData::Unknown),
        },
    }
}

/// The acknowledgement sent back for a payload of neither device.
pub open spec fn unknown_reply(text: Seq<char>) -> Seq<char> {
    seq!['O', 'k', ':', ' '] + text + seq!['\n']
}

/// The text that `String::from_utf8_lossy` makes of `bytes`.
pub uninterp spec fn utf8_lossy(bytes: Seq<u8>) -> Seq<char>;

/// Relies on `String::from_utf8_lossy`: the text of `bytes`, each invalid
/// sequence replaced by U+FFFD; valid UTF-8 is decoded as it stands.
#[verifier::external_body]
fn lossy_text(bytes: &[u8]) -> (r: String)
    ensures
        r@ == utf8_lossy(bytes@),
        valid_utf8(bytes@) ==> r@ == decode_utf8(bytes@),
{
    String::from_utf8_lossy(bytes).into_owned()
}

/// Classifies a payload's text.
pub fn classify(text: &str) -> (r: Result<SensorData, DecodeError>)
    ensures
        r == classify_spec(text@),
{
    match Socket::from_str(text) {
        Ok(s) => Ok(SensorData::Power(s.power().get())),
        Err(DecodeError::InvalidNumber) => Err(DecodeError::InvalidNumber),
        Err(DecodeError::NoMatch) => match Termometer::from_str(text) {
            Ok(t) => Ok(SensorData::Temperature(t.temperature().get())),
            Err(DecodeError::InvalidNumber) => Err(DecodeError::InvalidNumber),
            Err(DecodeError::NoMatch) => Ok(SensorData::Unknown),
        },
    }
}

/// A classified payload, and the line to send back, if any.
pub struct Handled {
    pub data: SensorData,
    pub reply: Option<String>,
}

/// Classifies a payload's text; a payload of neither device gets the
/// acknowledgement `Ok: <text>` and a newline. A line whose number cannot be
/// read is an error, with nothing to send back.
pub fn handle_text(text: &str) -> (r: Result<Handled, HandlerError>)
    ensures
        r is Err <==> classify_spec(text@) is Err,
        r is Err ==> r->Err_0 == HandlerError::InvalidNumber,
        r is Ok ==> classify_spec(text@) == Ok::<SensorData, DecodeError>(r->Ok_0.data),
        r is Ok ==> (r->Ok_0.reply is Some <==> r->Ok_0.data is Unknown),
        r is Ok && r->Ok_0.reply is Some ==> r->Ok_0.reply->Some_0@ == unknown_reply(text@),
{
    match classify(text) {
        Err(_) => Err(HandlerError::InvalidNumber),
        Ok(SensorData::Unknown) => {
            proof {
                reveal_strlit("Ok: ");
                reveal_strlit("\n");
            }
            let mut reply = String::new();
            reply.append("Ok: ");
            reply.append(text);
            reply.append("\n");
            assert(reply@ =~= unknown_reply(text@));
            Ok(Handled { data: SensorData::Unknown, reply: Some(reply) })
        },
        Ok(data) => Ok(Handled { data, reply: None }),
    }
}

/// Handles the bytes one read of a connection gave: nothing read is a
/// connection error; otherwise the bytes are decoded as UTF-8, invalid
/// sequences replaced, and classified.
pub fn handle_chunk(bytes: &[u8]) -> (r: Result<Handled, HandlerError>)
    ensures
        r is Err && r->Err_0 == HandlerError::ConnectionError <==> bytes@.len() == 0,
        r is Err && r->Err_0 == HandlerError::InvalidNumber <==> bytes@.len() > 0
            && classify_spec(utf8_lossy(bytes@)) is Err,
        r is Ok ==> classify_spec(utf8_lossy(bytes@)) == Ok::<SensorData, DecodeError>(
            r->Ok_0.data,
        ),
        r is Ok ==> (r->Ok_0.reply is Some <==> r->Ok_0.data is Unknown),
        r is Ok && r->Ok_0.reply is Some ==> r->Ok_0.reply->Some_0@ == unknown_reply(
            utf8_lossy(bytes@),
        ),
{
    if bytes.len() == 0 {
        return Err(HandlerError::ConnectionError);
    }
    let text = lossy_text(bytes);
    handle_text(text.as_str())
}

/// A text is never a line of both devices: where one device's line has been
/// recognised, the other's keyword does not match. So a payload is an error
/// exactly when one of the two lines carries a number that cannot be read,
/// and `Unknown` exactly when neither line matches.
#[verifier::rlimit(40)]
pub proof fn lemma_classify_cases(text: Seq<char>)
    ensures
        classify_spec(text) is Err <==> (decode_socket(text) == Err::<int, DecodeError>(
            DecodeError::InvalidNumber) || decode_termometer(text) == Err::<int, DecodeError>(
            DecodeError::InvalidNumber)),
        classify_spec(text) == Ok::<SensorData, DecodeError>(SensorData::Unknown) <==> (
        decode_socket(text) == Err::<int, DecodeError>(DecodeError::NoMatch) && decode_termometer(
            text,
        ) == Err::<int, DecodeError>(DecodeError::NoMatch)),
{
    if decode_socket(text) != Err::<int, DecodeError>(DecodeError::NoMatch) {
        let k = socket_keyword().len() as int;
        assert(text.subrange(0, k) == socket_keyword());
        assert(text.subrange(0, k)[0] == text[0]);
        assert(text[0] == 'S');
        let m = termometer_keyword().len() as int;
        if m < text.len() {
            assert(text.subrange(0, m)[0] == text[0]);
            assert(text.subrange(0, m) != termometer_keyword());
        }
        assert(line_number(termometer_keyword(), text) is None);
    }
}

/// The line a device writes is taken for a reading of that device, with the
/// value it was written with.
#[verifier::rlimit(40)]
pub proof fn lemma_classify_round_trip(v: int)
    requires
        0 <= v <= i64::MAX,
    ensures
        classify_spec(socket_line(v)) == Ok::<SensorData, DecodeError>(SensorData::Power(v as i64)),
        classify_spec(termometer_line(v)) == Ok::<SensorData, DecodeError>(
            SensorData::Temperature(v as i64),
        ),
{
    lemma_socket_round_trip(v);
    lemma_termometer_round_trip(v);
    lemma_termometer_line_start(v);
    lemma_not_a_socket_line(termometer_line(v));
}

/// A text that starts with `T` is not a socket's line.
proof fn lemma_not_a_socket_line(t: Seq<char>)
    requires
        t.len() > 0,
        t[0] == 'T',
    ensures
        decode_socket(t) == Err::<int, DecodeError>(DecodeError::NoMatch),
{
    let k = socket_keyword().len() as int;
    if k < t.len() {
        assert(t.subrange(0, k)[0] == t[0]);
        assert(t.subrange(0, k) != socket_keyword());
    }
    assert(line_number(socket_keyword(), t) is None);
}

} // verus!
