//! Decoded OSC packets.

use vstd::prelude::*;
use crate::value::Scalar;

verus! {

/// An OSC time tag: seconds since 1900-01-01 and a binary fraction of a
/// second.
#[derive(Clone, Copy, Debug, PartialEq, Eq, Structural)]
pub struct Time {
    pub seconds: u32,
    pub fractional: u32,
}

/// An RGBA colour.
#[derive(Clone, Copy, Debug, PartialEq, Eq, Structural)]
pub struct Color {
    pub red: u8,
    pub green: u8,
    pub blue: u8,
    pub alpha: u8,
}

/// The four bytes of a MIDI message.
#[derive(Clone, Copy, Debug, PartialEq, Eq, Structural)]
pub struct Midi {
    pub port: u8,
    pub status: u8,
    pub data1: u8,
    pub data2: u8,
}

/// One typed argument of a message.
#[derive(Debug, PartialEq, Eq)]
pub enum Arg {
    Int(i32),
    Float(Scalar),
    Str(String),
    Blob(Vec<u8>),
    Time(Time),
    Long(i64),
    /// A double-precision number, held as its IEEE 754 bit pattern.
    Double(u64),
    Char(char),
    Color(Color),
    Midi(Midi),
    Bool(bool),
    Array(Vec<Arg>),
    Nil,
    Inf,
}

impl Arg {
    /// The integer that the argument holds, if it is a 32-bit integer. No
    /// other numeric type is converted.
    pub open spec fn int_value(self) -> Option<i32> {
        match self {
            Arg::Int(v) => Some(v),
            _ => None,
        }
    }

    /// The number that the argument holds, if it is a single-precision
    /// number. No other numeric type is converted.
    pub open spec fn float_value(self) -> Option<Scalar> {
        match self {
            Arg::Float(v) => Some(v),
            _ => None,
        }
    }

    /// The text that the argument holds, if it is a string.
    pub open spec fn text_value(self) -> Option<String> {
        match self {
            Arg::Str(s) => Some(s),
            _ => None,
        }
    }

    /// The integer that the argument holds, if it is a 32-bit integer.
    pub fn to_int(&self) -> (value: Option<i32>)
        ensures
            value == self.int_value(),
    {
        match self {
            Arg::Int(v) => Some(*v),
            _ => None,
        }
    }

    /// The number that the argument holds, if it is a single-precision
    /// number.
    pub fn to_float(&self) -> (value: Option<Scalar>)
        ensures
            value == self.float_value(),
    {
        match self {
            Arg::Float(v) => Some(*v),
            _ => None,
        }
    }

    /// A copy of the text that the argument holds, if it is a string.
    pub fn to_text(&self) -> (value: Option<String>)
        ensures
            value == self.text_value(),
    {
        match self {
            Arg::Str(s) => Some(s.clone()),
            _ => None,
        }
    }
}

/// An address and its arguments.
#[derive(Debug, PartialEq, Eq)]
pub struct Message {
    pub addr: String,
    pub args: Vec<Arg>,
}

/// A time tag and the packets to apply together.
#[derive(Debug, PartialEq, Eq)]
pub struct Bundle {
    pub timetag: Time,
    pub content: Vec<Packet>,
}

/// One message, or a bundle of packets.
#[derive(Debug, PartialEq, Eq)]
pub enum Packet {
    Message(Message),
    Bundle(Bundle),
}

impl Packet {
    /// How deep bundles nest: 0 for a message, and for a bundle one more
    /// than the deepest packet in it.
    pub open spec fn depth(self) -> nat
        decreases self,
    {
        match self {
            Packet::Message(_) => 0,
            Packet::Bundle(b) => 1 + deepest(b.content@),
        }
    }

    /// The messages of the packet in the order in which they apply: bundles
    /// are flattened, each in its stored order.
    pub open spec fn messages(self) -> Seq<Message>
        decreases self,
    {
        match self {
            Packet::Message(m) => seq![m],
            Packet::Bundle(b) => messages_of(b.content@),
        }
    }
}

impl Packet {
    /// Whether the packet's bundles nest no deeper than `limit`.
    pub fn depth_within(&self, limit: usize) -> (within: bool)
        ensures
            within == (self.depth() <= limit),
        decreases limit,
    {
        match self {
            Packet::Message(_) => true,
            Packet::Bundle(bundle) => {
                if limit == 0 {
                    return false;
                }
                let mut i: usize = 0;
                while i < bundle.content.len()
                    invariant
                        i <= bundle.content@.len(),
                        limit > 0,
                        self.depth() == 1 + deepest(bundle.content@),
                        forall|j: int| 0 <= j < i ==> (#[trigger] bundle.content@[j]).depth() <= limit - 1,
                    decreases bundle.content@.len() - i,
                {
                    if !bundle.content[i].depth_within(limit - 1) {
                        proof {
                            lemma_deepest_bound(bundle.content@, (limit - 1) as nat);
                        }
                        return false;
                    }
                    i += 1;
                }
                proof {
                    lemma_deepest_bound(bundle.content@, (limit - 1) as nat);
                }
                true
            },
        }
    }
}

/// `deepest` is at most `bound` exactly when every packet's depth is.
pub proof fn lemma_deepest_bound(packets: Seq<Packet>, bound: nat)
    ensures
        deepest(packets) <= bound <==> forall|i: int|
            0 <= i < packets.len() ==> (#[trigger] packets[i]).depth() <= bound,
    decreases packets.len(),
{
    if packets.len() > 0 {
        let rest = packets.drop_last();
        lemma_deepest_bound(rest, bound);
        if deepest(packets) <= bound {
            assert forall|i: int| 0 <= i < packets.len() implies (#[trigger] packets[i]).depth()
                <= bound by {
                if i < rest.len() {
                    assert(rest[i] == packets[i]);
                }
            }
        } else {
            if deepest(rest) > bound {
                let i = choose|i: int| 0 <= i < rest.len() && (#[trigger] rest[i]).depth() > bound;
                assert(packets[i] == rest[i]);
            } else {
                assert(packets[packets.len() - 1].depth() > bound);
            }
        }
    }
}

/// The greatest depth among `packets`, 0 where there are none.
pub open spec fn deepest(packets: Seq<Packet>) -> nat
    decreases packets,
{
    if packets.len() == 0 {
        0
    } else {
        let rest = deepest(packets.drop_last());
        let last = packets.last().depth();
        if rest >= last {
            rest
        } else {
            last
        }
    }
}

/// The messages of `packets`, one packet after the other.
pub open spec fn messages_of(packets: Seq<Packet>) -> Seq<Message>
    decreases packets,
{
    if packets.len() == 0 {
        Seq::empty()
    } else {
        messages_of(packets.drop_last()) + packets.last().messages()
    }
}

} // verus!
