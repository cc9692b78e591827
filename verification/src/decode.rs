//! What one message asks of the snapshot.

use vstd::prelude::*;
use crate::address::Address;
use crate::packet::{Arg, Message};
use crate::value::{Scalar, Transform};

verus! {

/// One change to the snapshot, as a well-formed message states it.
#[derive(Debug, PartialEq, Eq)]
pub enum Update {
    /// The root pose becomes the transform.
    Root(Transform),
    /// The named bone's pose becomes the transform.
    Bone(String, Transform),
    /// The named tracker's pose becomes the transform.
    Tracker(String, Transform),
    /// The named blendshape's weight becomes the number.
    Blend(String, Scalar),
    /// The tracking status becomes the flag.
    Status(bool),
    /// The server time becomes the number.
    Time(Scalar),
}

/// How the interpreter reads one message.
#[derive(Debug, PartialEq, Eq)]
pub enum Decoded {
    /// A known address with arguments of the expected shape.
    Update(Update),
    /// The end of a batch of blendshape weights: known, and without effect.
    BlendApply,
    /// A known address whose arguments are missing or of another type.
    Malformed,
    /// An address without a handler.
    Unknown,
}

/// The number at place `i` of `args`, if there is a single-precision number
/// there.
pub open spec fn float_at(args: Seq<Arg>, i: int) -> Option<Scalar> {
    if 0 <= i < args.len() {
        args[i].float_value()
    } else {
        None
    }
}

/// The text at place `i` of `args`, if there is a string there.
pub open spec fn string_at(args: Seq<Arg>, i: int) -> Option<String> {
    if 0 <= i < args.len() {
        args[i].text_value()
    } else {
        None
    }
}

/// The integer at place `i` of `args`, if there is a 32-bit integer there.
pub open spec fn int_at(args: Seq<Arg>, i: int) -> Option<i32> {
    if 0 <= i < args.len() {
        args[i].int_value()
    } else {
        None
    }
}

/// Whether `args` starts with a string and seven single-precision numbers.
/// Arguments after these eight are not looked at.
pub open spec fn has_name_pos(args: Seq<Arg>) -> bool {
    &&& string_at(args, 0) is Some
    &&& forall|i: int| 1 <= i <= 7 ==> (#[trigger] float_at(args, i)) is Some
}

/// The name and the transform that `args` starts with: a string, then the
/// position `x, y, z`, then the orientation `qx, qy, qz, qw`.
pub open spec fn name_pos(args: Seq<Arg>) -> Option<(String, Transform)> {
    if has_name_pos(args) {
        Some(
            (
                string_at(args, 0)->0,
                Transform {
                    x: float_at(args, 1)->0,
                    y: float_at(args, 2)->0,
                    z: float_at(args, 3)->0,
                    qx: float_at(args, 4)->0,
                    qy: float_at(args, 5)->0,
                    qz: float_at(args, 6)->0,
                    qw: float_at(args, 7)->0,
                },
            ),
        )
    } else {
        None
    }
}

/// The name and the weight that `args` starts with: a string, then a
/// single-precision number.
pub open spec fn name_value(args: Seq<Arg>) -> Option<(String, Scalar)> {
    if string_at(args, 0) is Some && float_at(args, 1) is Some {
        Some((string_at(args, 0)->0, float_at(args, 1)->0))
    } else {
        None
    }
}

/// The change that a message with the known address `address` and the
/// arguments `args` states, if the arguments have the shape that the address
/// expects. `Blend/Apply` states none.
pub open spec fn update_of(address: Address, args: Seq<Arg>) -> Option<Update> {
    match address {
        Address::RootPos => match name_pos(args) {
            Some((_, pos)) => Some(Update::Root(pos)),
            None => None,
        },
        Address::BonePos => match name_pos(args) {
            Some((name, pos)) => Some(Update::Bone(name, pos)),
            None => None,
        },
        Address::TrackerPos => match name_pos(args) {
            Some((name, pos)) => Some(Update::Tracker(name, pos)),
            None => None,
        },
        Address::BlendVal => match name_value(args) {
            Some((name, weight)) => Some(Update::Blend(name, weight)),
            None => None,
        },
        Address::BlendApply => None,
        Address::Status => match int_at(args, 0) {
            Some(status) => Some(Update::Status(status == 1)),
            None => None,
        },
        Address::Time => match float_at(args, 0) {
            Some(time) => Some(Update::Time(time)),
            None => None,
        },
    }
}

/// How the interpreter reads `msg`.
pub open spec fn meaning(msg: Message) -> Decoded {
    match Address::spec_parse(msg.addr@) {
        None => Decoded::Unknown,
        Some(Address::BlendApply) => Decoded::BlendApply,
        Some(address) => match update_of(address, msg.args@) {
            Some(update) => Decoded::Update(update),
            None => Decoded::Malformed,
        },
    }
}

fn get_float(args: &Vec<Arg>, i: usize) -> (value: Option<Scalar>)
    ensures
        value == float_at(args@, i as int),
{
    if i < args.len() {
        args[i].to_float()
    } else {
        None
    }
}

fn get_string(args: &Vec<Arg>, i: usize) -> (value: Option<String>)
    ensures
        value == string_at(args@, i as int),
{
    if i < args.len() {
        args[i].to_text()
    } else {
        None
    }
}

fn get_int(args: &Vec<Arg>, i: usize) -> (value: Option<i32>)
    ensures
        value == int_at(args@, i as int),
{
    if i < args.len() {
        args[i].to_int()
    } else {
        None
    }
}

/// Reads a name and a transform from the front of `args`. A missing argument
/// or one of another type gives `None`.
pub fn name_pos_from_args(args: &Vec<Arg>) -> (found: Option<(String, Transform)>)
    ensures
        found == name_pos(args@),
{
    let name = get_string(args, 0)?;
    let x = get_float(args, 1)?;
    let y = get_float(args, 2)?;
    let z = get_float(args, 3)?;
    let qx = get_float(args, 4)?;
    let qy = get_float(args, 5)?;
    let qz = get_float(args, 6)?;
    let qw = get_float(args, 7)?;
    Some((name, Transform { x, y, z, qx, qy, qz, qw }))
}

/// Reads a name and a weight from the front of `args`. A missing argument
/// or one of another type gives `None`.
pub fn name_value_from_args(args: &Vec<Arg>) -> (found: Option<(String, Scalar)>)
    ensures
        found == name_value(args@),
{
    let name = get_string(args, 0)?;
    let weight = get_float(args, 1)?;
    Some((name, weight))
}

/// Reads one message: which address it has, and the change that its
/// arguments state. Nothing is changed yet.
pub fn interpret(msg: &Message) -> (decoded: Decoded)
    ensures
        decoded == meaning(*msg),
{
    let address = match Address::parse(msg.addr.as_str()) {
        Some(address) => address,
        None => {
            return Decoded::Unknown;
        },
    };
    let update = match address {
        Address::RootPos => match name_pos_from_args(&msg.args) {
            Some((_, pos)) => Some(Update::Root(pos)),
            None => None,
        },
        Address::BonePos => match name_pos_from_args(&msg.args) {
            Some((name, pos)) => Some(Update::Bone(name, pos)),
            None => None,
        },
        Address::TrackerPos => match name_pos_from_args(&msg.args) {
            Some((name, pos)) => Some(Update::Tracker(name, pos)),
            None => None,
        },
        Address::BlendVal => match name_value_from_args(&msg.args) {
            Some((name, weight)) => Some(Update::Blend(name, weight)),
            None => None,
        },
        Address::BlendApply => {
            return Decoded::BlendApply;
        },
        Address::Status => match get_int(&msg.args, 0) {
            Some(status) => Some(Update::Status(status == 1)),
            None => None,
        },
        Address::Time => match get_float(&msg.args, 0) {
            Some(time) => Some(Update::Time(time)),
            None => None,
        },
    };
    match update {
        Some(update) => Decoded::Update(update),
        None => Decoded::Malformed,
    }
}

} // verus!
