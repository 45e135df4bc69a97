//! The message set and its payload codec.
//!
//! A [`Message`] is the decoded domain object exchanged with the device:
//! a liveness ping, motor commands, a telemetry query, a telemetry sample,
//! or a direct motor setpoint.  Angles travel as signed hundredths of a
//! degree.  The payload layout is one opcode byte followed by the fields,
//! multi-byte fields in big-endian order.

use vstd::prelude::*;

verus! {

/// One decoded message, independent of the wire layout that carried it.
#[derive(Clone, Copy, Debug, PartialEq, Eq, Structural)]
pub enum Message {
    /// Liveness ping with a sequence number.
    Ping(u16),
    /// Arm the motors.
    EnableMotor,
    /// Disarm the motors.
    DisableMotor,
    /// Toggle the status LED (the simpler liveness signal).
    ToggleLed,
    /// Ask the device for a telemetry sample.
    QueryMotion,
    /// A telemetry sample: attitude in hundredths of a degree, and the
    /// armed flag.
    Motion { roll: i16, pitch: i16, yaw: i16, armed: bool },
    /// Direct motor setpoints in percent.
    SetPoint { front_left: u8, front_right: u8, rear_left: u8, rear_right: u8 },
}

/// A complete candidate frame whose contents did not decode to a message.
#[derive(Clone, Copy, Debug, PartialEq, Eq, Structural)]
pub struct MalformedFrame;

/// High byte of a 16-bit value.
pub open spec fn hi_byte(x: u16) -> u8 {
    ((x >> 8) & 0xff) as u8
}

/// Low byte of a 16-bit value.
pub open spec fn lo_byte(x: u16) -> u8 {
    (x & 0xff) as u8
}

/// The 16-bit value with the given high and low bytes.
pub open spec fn join_bytes(hi: u8, lo: u8) -> u16 {
    ((hi as u16) << 8) | (lo as u16)
}

pub proof fn lemma_join_split(x: u16)
    ensures
        join_bytes(hi_byte(x), lo_byte(x)) == x,
{
    assert(((((x >> 8) & 0xff) as u8 as u16) << 8) | ((x & 0xff) as u8 as u16) == x)
        by (bit_vector);
}

pub proof fn lemma_i16_u16_round_trip(x: i16)
    ensures
        (x as u16) as i16 == x,
{
    assert((x as u16) as i16 == x) by (bit_vector);
}

/// The payload bytes that encode `m`.
pub open spec fn payload_bytes(m: Message) -> Seq<u8> {
    match m {
        Message::Ping(s) => seq![1u8, hi_byte(s), lo_byte(s)],
        Message::EnableMotor => seq![2u8],
        Message::DisableMotor => seq![3u8],
        Message::ToggleLed => seq![4u8],
        Message::QueryMotion => seq![5u8],
        Message::Motion { roll, pitch, yaw, armed } => seq![
            6u8,
            hi_byte(roll as u16),
            lo_byte(roll as u16),
            hi_byte(pitch as u16),
            lo_byte(pitch as u16),
            hi_byte(yaw as u16),
            lo_byte(yaw as u16),
            if armed { 1u8 } else { 0u8 },
        ],
        Message::SetPoint { front_left, front_right, rear_left, rear_right } => seq![
            7u8,
            front_left,
            front_right,
            rear_left,
            rear_right,
        ],
    }
}

/// The message encoded by a payload, or `MalformedFrame` if the opcode is
/// unknown, the payload has the wrong size for its opcode, or a flag byte
/// is not 0 or 1.
pub open spec fn decoded_payload(p: Seq<u8>) -> Result<Message, MalformedFrame> {
    if p.len() == 0 {
        Err(MalformedFrame)
    } else if p[0] == 1 {
        if p.len() == 3 {
            Ok(Message::Ping(join_bytes(p[1], p[2])))
        } else {
            Err(MalformedFrame)
        }
    } else if p[0] == 2 {
        if p.len() == 1 {
            Ok(Message::EnableMotor)
        } else {
            Err(MalformedFrame)
        }
    } else if p[0] == 3 {
        if p.len() == 1 {
            Ok(Message::DisableMotor)
        } else {
            Err(MalformedFrame)
        }
    } else if p[0] == 4 {
        if p.len() == 1 {
            Ok(Message::ToggleLed)
        } else {
            Err(MalformedFrame)
        }
    } else if p[0] == 5 {
        if p.len() == 1 {
            Ok(Message::QueryMotion)
        } else {
            Err(MalformedFrame)
        }
    } else if p[0] == 6 {
        if p.len() == 8 && (p[7] == 0 || p[7] == 1) {
            Ok(Message::Motion {
                roll: join_bytes(p[1], p[2]) as i16,
                pitch: join_bytes(p[3], p[4]) as i16,
                yaw: join_bytes(p[5], p[6]) as i16,
                armed: p[7] == 1,
            })
        } else {
            Err(MalformedFrame)
        }
    } else if p[0] == 7 {
        if p.len() == 5 {
            Ok(Message::SetPoint {
                front_left: p[1],
                front_right: p[2],
                rear_left: p[3],
                rear_right: p[4],
            })
        } else {
            Err(MalformedFrame)
        }
    } else {
        Err(MalformedFrame)
    }
}

/// Every message fits in the length-prefixed layout's payload budget.
pub proof fn lemma_payload_fits(m: Message)
    ensures
        1 <= payload_bytes(m).len() <= 8,
{
}

/// Decoding inverts encoding: the codec loses nothing.
pub proof fn lemma_payload_round_trip(m: Message)
    ensures
        decoded_payload(payload_bytes(m)) == Ok::<Message, MalformedFrame>(m),
{
    match m {
        Message::Ping(s) => {
            lemma_join_split(s);
        },
        Message::Motion { roll, pitch, yaw, armed } => {
            lemma_join_split(roll as u16);
            lemma_join_split(pitch as u16);
            lemma_join_split(yaw as u16);
            lemma_i16_u16_round_trip(roll);
            lemma_i16_u16_round_trip(pitch);
            lemma_i16_u16_round_trip(yaw);
        },
        _ => {},
    }
}

/// Encodes a message into its payload bytes.
pub fn encode_payload(m: &Message) -> (p: Vec<u8>)
    ensures
        p@ == payload_bytes(*m),
        p@.len() <= 8,
{
    let mut p: Vec<u8> = Vec::new();
    match m {
        Message::Ping(s) => {
            p.push(1);
            p.push(((*s >> 8) & 0xff) as u8);
            p.push((*s & 0xff) as u8);
        },
        Message::EnableMotor => {
            p.push(2);
        },
        Message::DisableMotor => {
            p.push(3);
        },
        Message::ToggleLed => {
            p.push(4);
        },
        Message::QueryMotion => {
            p.push(5);
        },
        Message::Motion { roll, pitch, yaw, armed } => {
            p.push(6);
            let r = *roll as u16;
            let pi = *pitch as u16;
            let y = *yaw as u16;
            p.push(((r >> 8) & 0xff) as u8);
            p.push((r & 0xff) as u8);
            p.push(((pi >> 8) & 0xff) as u8);
            p.push((pi & 0xff) as u8);
            p.push(((y >> 8) & 0xff) as u8);
            p.push((y & 0xff) as u8);
            p.push(if *armed { 1 } else { 0 });
        },
        Message::SetPoint { front_left, front_right, rear_left, rear_right } => {
            p.push(7);
            p.push(*front_left);
            p.push(*front_right);
            p.push(*rear_left);
            p.push(*rear_right);
        },
    }
    assert(p@ =~= payload_bytes(*m));
    p
}

/// Decodes payload bytes back into a message; fails with [`MalformedFrame`]
/// exactly when no message has this payload shape.
pub fn decode_payload(p: &Vec<u8>) -> (r: Result<Message, MalformedFrame>)
    ensures
        r == decoded_payload(p@),
{
    if p.len() == 0 {
        return Err(MalformedFrame);
    }
    let op = p[0];
    if op == 1 {
        if p.len() == 3 {
            let s = (((p[1] as u16) << 8) | (p[2] as u16));
            Ok(Message::Ping(s))
        } else {
            Err(MalformedFrame)
        }
    } else if op == 2 {
        if p.len() == 1 {
            Ok(Message::EnableMotor)
        } else {
            Err(MalformedFrame)
        }
    } else if op == 3 {
        if p.len() == 1 {
            Ok(Message::DisableMotor)
        } else {
            Err(MalformedFrame)
        }
    } else if op == 4 {
        if p.len() == 1 {
            Ok(Message::ToggleLed)
        } else {
            Err(MalformedFrame)
        }
    } else if op == 5 {
        if p.len() == 1 {
            Ok(Message::QueryMotion)
        } else {
            Err(MalformedFrame)
        }
    } else if op == 6 {
        if p.len() == 8 && (p[7] == 0 || p[7] == 1) {
            let roll = (((p[1] as u16) << 8) | (p[2] as u16)) as i16;
            let pitch = (((p[3] as u16) << 8) | (p[4] as u16)) as i16;
            let yaw = (((p[5] as u16) << 8) | (p[6] as u16)) as i16;
            Ok(Message::Motion { roll, pitch, yaw, armed: p[7] == 1 })
        } else {
            Err(MalformedFrame)
        }
    } else if op == 7 {
        if p.len() == 5 {
            Ok(Message::SetPoint {
                front_left: p[1],
                front_right: p[2],
                rear_left: p[3],
                rear_right: p[4],
            })
        } else {
            Err(MalformedFrame)
        }
    } else {
        Err(MalformedFrame)
    }
}

} // verus!
