use vstd::prelude::*;

verus! {

/// Opcode of an ATTACK message: `[ATTACK, x, y]`.
pub const ATTACK: u8 = 42;

/// Opcode of a CONFIRM message: `[CONFIRM, x, y, hit]`, with `hit` 0 or 1.
pub const CONFIRM: u8 = 43;

/// A message between the two peers of a networked match.
#[derive(Clone, Copy, Debug, PartialEq, Eq, Structural)]
pub enum Message {
    /// The sender fires at `(x, y)` on the receiver's board.
    Attack { x: u8, y: u8 },
    /// The sender reports the outcome of its own earlier attack at `(x, y)`.
    Confirm { x: u8, y: u8, hit: bool },
}

/// The bytes that carry a message.
pub open spec fn encoding(m: Message) -> Seq<u8> {
    match m {
        Message::Attack { x, y } => seq![ATTACK, x, y],
        Message::Confirm { x, y, hit } => seq![CONFIRM, x, y, if hit { 1u8 } else { 0u8 }],
    }
}

/// The message that a received buffer holds: an ATTACK is exactly three
/// bytes, a CONFIRM exactly four, any non-zero hit byte reads as a hit;
/// anything else holds no message.
pub open spec fn decoding(b: Seq<u8>) -> Option<Message> {
    if b.len() == 3 && b[0] == ATTACK {
        Some(Message::Attack { x: b[1], y: b[2] })
    } else if b.len() == 4 && b[0] == CONFIRM {
        Some(Message::Confirm { x: b[1], y: b[2], hit: b[3] != 0 })
    } else {
        None
    }
}

/// Decoding what was encoded gives back the same message.
pub proof fn lemma_round_trip(m: Message)
    ensures
        decoding(encoding(m)) == Some(m),
{
}

impl Message {
    pub fn encode(&self) -> (r: Vec<u8>)
        ensures
            r@ == encoding(*self),
    {
        let mut r: Vec<u8> = Vec::new();
        match *self {
            Message::Attack { x, y } => {
                r.push(ATTACK);
                r.push(x);
                r.push(y);
            },
            Message::Confirm { x, y, hit } => {
                r.push(CONFIRM);
                r.push(x);
                r.push(y);
                r.push(if hit { 1 } else { 0 });
            },
        }
        assert(r@ =~= encoding(*self));
        r
    }

    pub fn decode(data: &[u8]) -> (r: Option<Message>)
        ensures
            r == decoding(data@),
    {
        if data.len() == 3 && data[0] == ATTACK {
            Some(Message::Attack { x: data[1], y: data[2] })
        } else if data.len() == 4 && data[0] == CONFIRM {
            Some(Message::Confirm { x: data[1], y: data[2], hit: data[3] != 0 })
        } else {
            None
        }
    }
}

} // verus!
