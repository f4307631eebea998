//! Wire protocol codec.
//!
//! A datagram carries one JSON object with a `type` discriminator and, for
//! `time_report` and `adjust_time`, one signed integer field (`time`,
//! `adjustment`; milliseconds). Encoding builds that object directly and
//! never fails for a well-formed domain message; decoding reads the fields
//! of the object through a JSON parser and classifies the result, turning an
//! unknown `type` string into [`Message::Unrecognized`] rather than an error.

use vstd::prelude::*;

verus! {

/// A domain message of the synchronization protocol.
///
/// `Unrecognized` stands for a well-formed datagram whose `type` value is not
/// one of the four protocol kinds; it is decoded, never encoded.
#[derive(Clone, Copy, Debug, PartialEq, Eq, Structural)]
pub enum Message {
    /// A slave announces its presence.
    Introduce,
    /// A slave reports its clock reading, in milliseconds.
    TimeReport { time: i64 },
    /// The master asks a slave to report its clock.
    RequestTime,
    /// The master instructs a slave to shift its clock by `adjustment`
    /// milliseconds (signed).
    AdjustTime { adjustment: i64 },
    /// A well-formed message of an unknown kind.
    Unrecognized,
}

/// Why a datagram failed to decode.
#[derive(Clone, Copy, Debug, PartialEq, Eq, Structural)]
pub enum DecodeError {
    /// The payload is not a JSON object.
    Malformed,
    /// The object carries no string `type` field.
    MissingType,
    /// A recognized `type` lacks its integer payload field.
    MissingField,
}

/// The fields of one parsed wire object that the protocol reads.
pub ghost struct WireView {
    /// The `type` field, where it is present and a string.
    pub msg_type: Option<Seq<char>>,
    /// The `time` field, where it is present and fits `i64`.
    pub time: Option<i64>,
    /// The `adjustment` field, where it is present and fits `i64`.
    pub adjustment: Option<i64>,
}

/// What the JSON parser reads out of a payload: `None` where the payload is
/// not a JSON object, else the three fields the protocol knows. The result is
/// a function of the payload text alone.
pub uninterp spec fn wire_of(s: Seq<char>) -> Option<WireView>;

/// The fields read from one wire object, as executable values.
struct RawWire {
    msg_type: Option<String>,
    time: Option<i64>,
    adjustment: Option<i64>,
}

impl RawWire {
    spec fn view_spec(&self) -> WireView {
        WireView {
            msg_type: match self.msg_type {
                Some(t) => Some(t@),
                None => None,
            },
            time: self.time,
            adjustment: self.adjustment,
        }
    }
}

/// Relies on `serde_json::from_str::<serde_json::Value>` and on
/// `serde_json::Value`'s `is_object`, `get`, `as_str` and `as_i64`: parses
/// the payload and reads the `type`, `time` and `adjustment` fields of the
/// object, all functions of the payload text alone.
#[verifier::external_body]
fn parse_wire(s: &str) -> (r: Option<RawWire>)
    ensures
        wire_of(s@) == (match r {
            Some(w) => Some(w.view_spec()),
            None => None::<WireView>,
        }),
{
    let v: serde_json::Value = match serde_json::from_str(s) {
        Ok(v) => v,
        Err(_) => return None,
    };
    if !v.is_object() {
        return None;
    }
    Some(RawWire {
        msg_type: v.get("type").and_then(serde_json::Value::as_str).map(str::to_string),
        time: v.get("time").and_then(serde_json::Value::as_i64),
        adjustment: v.get("adjustment").and_then(serde_json::Value::as_i64),
    })
}

/// What decoding a payload yields, defined over the parsed wire object.
pub open spec fn decode_spec(s: Seq<char>) -> Result<Message, DecodeError> {
    match wire_of(s) {
        None => Err(DecodeError::Malformed),
        Some(w) => match w.msg_type {
            None => Err(DecodeError::MissingType),
            Some(t) => if t == "introduce"@ {
                Ok(Message::Introduce)
            } else if t == "time_report"@ {
                match w.time {
                    Some(n) => Ok(Message::TimeReport { time: n }),
                    None => Err(DecodeError::MissingField),
                }
            } else if t == "request_time"@ {
                Ok(Message::RequestTime)
            } else if t == "adjust_time"@ {
                match w.adjustment {
                    Some(n) => Ok(Message::AdjustTime { adjustment: n }),
                    None => Err(DecodeError::MissingField),
                }
            } else {
                Ok(Message::Unrecognized)
            },
        },
    }
}

/// Decodes one datagram payload.
///
/// Fails with `Malformed` exactly on payloads that are not a JSON object,
/// with `MissingType` on objects without a string `type`, and with
/// `MissingField` on a recognized `type` that lacks its integer field; an
/// unknown `type` value succeeds as [`Message::Unrecognized`].
pub fn decode(s: &str) -> (r: Result<Message, DecodeError>)
    ensures
        r == decode_spec(s@),
{
    let w = match parse_wire(s) {
        Some(w) => w,
        None => return Err(DecodeError::Malformed),
    };
    let t = match w.msg_type {
        Some(t) => t,
        None => return Err(DecodeError::MissingType),
    };
    if t == "introduce".to_owned() {
        Ok(Message::Introduce)
    } else if t == "time_report".to_owned() {
        match w.time {
            Some(n) => Ok(Message::TimeReport { time: n }),
            None => Err(DecodeError::MissingField),
        }
    } else if t == "request_time".to_owned() {
        Ok(Message::RequestTime)
    } else if t == "adjust_time".to_owned() {
        match w.adjustment {
            Some(n) => Ok(Message::AdjustTime { adjustment: n }),
            None => Err(DecodeError::MissingField),
        }
    } else {
        Ok(Message::Unrecognized)
    }
}

/// The decimal digit `d` as a character.
pub open spec fn digit_char_spec(d: int) -> char {
    if d == 0 {
        '0'
    } else if d == 1 {
        '1'
    } else if d == 2 {
        '2'
    } else if d == 3 {
        '3'
    } else if d == 4 {
        '4'
    } else if d == 5 {
        '5'
    } else if d == 6 {
        '6'
    } else if d == 7 {
        '7'
    } else if d == 8 {
        '8'
    } else {
        '9'
    }
}

/// The decimal digits of `n`, most significant first, without a sign and
/// without leading zeroes (`0` itself is the single digit `0`).
pub open spec fn digits_of(n: nat) -> Seq<char>
    decreases n,
{
    if n < 10 {
        seq![digit_char_spec(n as int)]
    } else {
        digits_of(n / 10) + seq![digit_char_spec((n % 10) as int)]
    }
}

/// The decimal notation of `v`: a `-` sign for negative values, then the
/// digits of the magnitude.
pub open spec fn int_chars(v: int) -> Seq<char> {
    if v < 0 {
        seq!['-'] + digits_of((-v) as nat)
    } else {
        digits_of(v as nat)
    }
}

/// What encoding a domain message produces: one JSON object whose `type`
/// names the message kind, with the integer field of `time_report` and
/// `adjust_time` in decimal.
pub open spec fn encode_spec(m: Message) -> Seq<char> {
    match m {
        Message::Introduce => "{\"type\":\"introduce\"}"@,
        Message::RequestTime => "{\"type\":\"request_time\"}"@,
        Message::TimeReport { time } => "{\"type\":\"time_report\",\"time\":"@ + int_chars(
            time as int,
        ) + "}"@,
        Message::AdjustTime { adjustment } => "{\"type\":\"adjust_time\",\"adjustment\":"@
            + int_chars(adjustment as int) + "}"@,
        Message::Unrecognized => Seq::empty(),
    }
}

/// The decimal digit `d` as a one-character string slice.
fn digit_str(d: u64) -> (r: &'static str)
    requires
        d < 10,
    ensures
        r@ == seq![digit_char_spec(d as int)],
{
    proof {
        reveal_strlit("0");
        reveal_strlit("1");
        reveal_strlit("2");
        reveal_strlit("3");
        reveal_strlit("4");
        reveal_strlit("5");
        reveal_strlit("6");
        reveal_strlit("7");
        reveal_strlit("8");
        reveal_strlit("9");
    }
    let s: &'static str = match d {
        0 => "0",
        1 => "1",
        2 => "2",
        3 => "3",
        4 => "4",
        5 => "5",
        6 => "6",
        7 => "7",
        8 => "8",
        _ => "9",
    };
    proof {
        assert(s@ =~= seq![digit_char_spec(d as int)]);
    }
    s
}

/// Appends the decimal digits of `n` to `out`.
fn push_digits(out: &mut String, n: u64)
    ensures
        final(out)@ == old(out)@ + digits_of(n as nat),
    decreases n,
{
    if n < 10 {
        out.append(digit_str(n));
    } else {
        push_digits(out, n / 10);
        out.append(digit_str(n % 10));
        proof {
            assert(final(out)@ =~= old(out)@ + digits_of(n as nat));
        }
    }
}

/// Appends the decimal notation of `v` (sign included) to `out`.
fn push_i64(out: &mut String, v: i64)
    ensures
        final(out)@ == old(out)@ + int_chars(v as int),
{
    if v >= 0 {
        push_digits(out, v as u64);
    } else {
        proof {
            reveal_strlit("-");
            assert("-"@ =~= seq!['-']);
        }
        out.append("-");
        let magnitude: u64 = ((-(v + 1)) as u64) + 1;
        assert(magnitude as int == -(v as int));
        push_digits(out, magnitude);
        proof {
            assert(final(out)@ =~= old(out)@ + int_chars(v as int));
        }
    }
}

/// Encodes a domain message as one JSON object; this never fails for the
/// four well-formed message kinds.
pub fn encode(m: &Message) -> (r: String)
    requires
        !(m is Unrecognized),
    ensures
        r@ == encode_spec(*m),
{
    match m {
        Message::Introduce => "{\"type\":\"introduce\"}".to_owned(),
        Message::RequestTime => "{\"type\":\"request_time\"}".to_owned(),
        Message::TimeReport { time } => {
            let mut out = "{\"type\":\"time_report\",\"time\":".to_owned();
            push_i64(&mut out, *time);
            out.append("}");
            proof {
                assert(out@ =~= encode_spec(*m));
            }
            out
        },
        Message::AdjustTime { adjustment } => {
            let mut out = "{\"type\":\"adjust_time\",\"adjustment\":".to_owned();
            push_i64(&mut out, *adjustment);
            out.append("}");
            proof {
                assert(out@ =~= encode_spec(*m));
            }
            out
        },
        Message::Unrecognized => "".to_owned(),
    }
}

} // verus!
