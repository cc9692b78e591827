//! What holds of the interpreter for every snapshot and every message.

use vstd::prelude::*;
use crate::address::{law_parse_text, Address};
use crate::decode::{meaning, update_of, Decoded, Update};
use crate::packet::{Arg, Message, Packet};
use crate::state::{Snapshot, MAX_BUNDLE_DEPTH};
use crate::value::{Scalar, Transform};

verus! {

/// One place of the snapshot that a message can write: a field, or the
/// entry under one name in one of the three tables.
pub enum Key {
    Status,
    Time,
    Root,
    Bone(Seq<char>),
    Tracker(Seq<char>),
    Blend(Seq<char>),
}

/// What one place of the snapshot holds.
pub enum Value {
    Flag(bool),
    Number(Scalar),
    Pose(Transform),
}

impl Update {
    /// The place that the change writes.
    pub open spec fn key(self) -> Key {
        match self {
            Update::Root(_) => Key::Root,
            Update::Bone(name, _) => Key::Bone(name@),
            Update::Tracker(name, _) => Key::Tracker(name@),
            Update::Blend(name, _) => Key::Blend(name@),
            Update::Status(_) => Key::Status,
            Update::Time(_) => Key::Time,
        }
    }

    /// What the change writes there.
    pub open spec fn value(self) -> Value {
        match self {
            Update::Root(pos) => Value::Pose(pos),
            Update::Bone(_, pos) => Value::Pose(pos),
            Update::Tracker(_, pos) => Value::Pose(pos),
            Update::Blend(_, weight) => Value::Number(weight),
            Update::Status(status) => Value::Flag(status),
            Update::Time(time) => Value::Number(time),
        }
    }
}

impl Snapshot {
    /// What the snapshot holds at `key`; `None` for a name that a table
    /// lacks.
    pub open spec fn read(self, key: Key) -> Option<Value> {
        match key {
            Key::Status => Some(Value::Flag(self.status)),
            Key::Time => Some(Value::Number(self.time)),
            Key::Root => Some(Value::Pose(self.root)),
            Key::Bone(name) => if self.bones.contains_key(name) {
                Some(Value::Pose(self.bones[name]))
            } else {
                None
            },
            Key::Tracker(name) => if self.tracker.contains_key(name) {
                Some(Value::Pose(self.tracker[name]))
            } else {
                None
            },
            Key::Blend(name) => if self.blends.contains_key(name) {
                Some(Value::Number(self.blends[name]))
            } else {
                None
            },
        }
    }
}

/// Whether `msg` is well formed and writes the place `key`.
pub open spec fn writes(msg: Message, key: Key) -> bool {
    meaning(msg) is Update && meaning(msg)->Update_0.key() == key
}

/// Whether the first eight arguments are `name` and the seven components of
/// `pos`, in the order `x, y, z, qx, qy, qz, qw`.
pub open spec fn carries_name_pos(args: Seq<Arg>, name: String, pos: Transform) -> bool {
    &&& args.len() >= 8
    &&& args[0] == Arg::Str(name)
    &&& args[1] == Arg::Float(pos.x)
    &&& args[2] == Arg::Float(pos.y)
    &&& args[3] == Arg::Float(pos.z)
    &&& args[4] == Arg::Float(pos.qx)
    &&& args[5] == Arg::Float(pos.qy)
    &&& args[6] == Arg::Float(pos.qz)
    &&& args[7] == Arg::Float(pos.qw)
}

/// Two snapshots that hold the same at every place are the same snapshot:
/// reading by place sees all of it.
pub proof fn law_reads_tell_all(a: Snapshot, b: Snapshot)
    requires
        forall|key: Key| a.read(key) == b.read(key),
    ensures
        a == b,
{
    assert(a.read(Key::Status) == b.read(Key::Status));
    assert(a.read(Key::Time) == b.read(Key::Time));
    assert(a.read(Key::Root) == b.read(Key::Root));
    assert forall|name: Seq<char>| #[trigger]
        a.bones.contains_key(name) == b.bones.contains_key(name) by {
        assert(a.read(Key::Bone(name)) == b.read(Key::Bone(name)));
    }
    assert forall|name: Seq<char>| a.bones.contains_key(name) implies #[trigger] a.bones[name]
        == b.bones[name] by {
        assert(a.read(Key::Bone(name)) == b.read(Key::Bone(name)));
    }
    assert forall|name: Seq<char>| #[trigger]
        a.tracker.contains_key(name) == b.tracker.contains_key(name) by {
        assert(a.read(Key::Tracker(name)) == b.read(Key::Tracker(name)));
    }
    assert forall|name: Seq<char>| a.tracker.contains_key(name) implies #[trigger] a.tracker[name]
        == b.tracker[name] by {
        assert(a.read(Key::Tracker(name)) == b.read(Key::Tracker(name)));
    }
    assert forall|name: Seq<char>| #[trigger]
        a.blends.contains_key(name) == b.blends.contains_key(name) by {
        assert(a.read(Key::Blend(name)) == b.read(Key::Blend(name)));
    }
    assert forall|name: Seq<char>| a.blends.contains_key(name) implies #[trigger] a.blends[name]
        == b.blends[name] by {
        assert(a.read(Key::Blend(name)) == b.read(Key::Blend(name)));
    }
    assert(a.bones =~= b.bones);
    assert(a.tracker =~= b.tracker);
    assert(a.blends =~= b.blends);
}

/// A change writes its value at its place and leaves every other place as
/// it was.
pub proof fn law_store_then_read(start: Snapshot, update: Update, key: Key)
    ensures
        start.store(update).read(key) == (if key == update.key() {
            Some(update.value())
        } else {
            start.read(key)
        }),
{
}

/// A message changes at most the place that it writes; a message that
/// writes none changes nothing.
pub proof fn law_message_then_read(start: Snapshot, msg: Message, key: Key)
    ensures
        start.apply_message(msg).read(key) == (if writes(msg, key) {
            Some(meaning(msg)->Update_0.value())
        } else {
            start.read(key)
        }),
        !(meaning(msg) is Update) ==> start.apply_message(msg) == start,
{
}

/// Last write wins: after a sequence of messages, a place holds the value
/// of the last well-formed message that writes it, in arrival order.
pub proof fn law_last_write_wins(start: Snapshot, msgs: Seq<Message>, last: int, key: Key)
    requires
        0 <= last < msgs.len(),
        writes(msgs[last], key),
        forall|later: int| last < later < msgs.len() ==> !writes(#[trigger] msgs[later], key),
    ensures
        start.apply_messages(msgs).read(key) == Some(meaning(msgs[last])->Update_0.value()),
    decreases msgs.len(),
{
    let rest = msgs.drop_last();
    law_message_then_read(start.apply_messages(rest), msgs.last(), key);
    if last < msgs.len() - 1 {
        assert(!writes(msgs[msgs.len() - 1], key));
        assert(rest[last] == msgs[last]);
        assert forall|later: int| last < later < rest.len() implies !writes(
            #[trigger] rest[later],
            key,
        ) by {
            assert(rest[later] == msgs[later]);
        }
        law_last_write_wins(start, rest, last, key);
    }
}

/// A place that no message of a sequence writes holds afterwards what it
/// held before.
pub proof fn law_unwritten_place_keeps(start: Snapshot, msgs: Seq<Message>, key: Key)
    requires
        forall|i: int| 0 <= i < msgs.len() ==> !writes(#[trigger] msgs[i], key),
    ensures
        start.apply_messages(msgs).read(key) == start.read(key),
    decreases msgs.len(),
{
    if msgs.len() > 0 {
        let rest = msgs.drop_last();
        assert forall|i: int| 0 <= i < rest.len() implies !writes(#[trigger] rest[i], key) by {
            assert(rest[i] == msgs[i]);
        }
        law_unwritten_place_keeps(start, rest, key);
        assert(!writes(msgs[msgs.len() - 1], key));
        law_message_then_read(start.apply_messages(rest), msgs.last(), key);
    }
}

/// A packet within the depth limit writes each place with the last of its
/// messages that writes it, and no other place.
pub proof fn law_packet_writes_its_places(start: Snapshot, packet: Packet, key: Key)
    requires
        packet.depth() <= MAX_BUNDLE_DEPTH,
    ensures
        (forall|i: int|
            0 <= i < packet.messages().len() ==> !writes(#[trigger] packet.messages()[i], key))
            ==> start.apply_packet(packet).read(key) == start.read(key),
        forall|last: int|
            0 <= last < packet.messages().len() && writes(#[trigger] packet.messages()[last], key)
                && (forall|later: int|
                last < later < packet.messages().len() ==> !writes(
                    #[trigger] packet.messages()[later],
                    key,
                )) ==> start.apply_packet(packet).read(key) == Some(
                meaning(packet.messages()[last])->Update_0.value(),
            ),
{
    let msgs = packet.messages();
    if forall|i: int| 0 <= i < msgs.len() ==> !writes(#[trigger] msgs[i], key) {
        law_unwritten_place_keeps(start, msgs, key);
    }
    assert forall|last: int|
        0 <= last < msgs.len() && writes(#[trigger] msgs[last], key) && (forall|later: int|
            last < later < msgs.len() ==> !writes(#[trigger] msgs[later], key)) implies start.apply_packet(
        packet,
    ).read(key) == Some(meaning(msgs[last])->Update_0.value()) by {
        law_last_write_wins(start, msgs, last, key);
    }
}

/// Packets that arrive one after the other, each within the depth limit,
/// act as the one sequence of all their messages in arrival order.
pub proof fn law_stream_is_its_messages(start: Snapshot, packets: Seq<Packet>)
    requires
        forall|i: int|
            0 <= i < packets.len() ==> (#[trigger] packets[i]).depth() <= MAX_BUNDLE_DEPTH,
    ensures
        start.apply_packets(packets) == start.apply_messages(crate::packet::messages_of(packets)),
    decreases packets.len(),
{
    if packets.len() > 0 {
        let rest = packets.drop_last();
        assert forall|i: int| 0 <= i < rest.len() implies (#[trigger] rest[i]).depth()
            <= MAX_BUNDLE_DEPTH by {
            assert(rest[i] == packets[i]);
        }
        law_stream_is_its_messages(start, rest);
        assert(packets.last() == packets[packets.len() - 1]);
        crate::state::lemma_apply_joined(
            start,
            crate::packet::messages_of(rest),
            packets.last().messages(),
        );
    }
}

/// A packet that nests deeper than the limit changes nothing.
pub proof fn law_too_deep_changes_nothing(start: Snapshot, packet: Packet)
    requires
        packet.depth() > MAX_BUNDLE_DEPTH,
    ensures
        start.apply_packet(packet) == start,
{
}

/// A bundle of messages has depth 1 and applies its messages in their
/// stored order.
pub proof fn law_flat_bundle(packet: Packet)
    requires
        packet is Bundle,
        forall|i: int|
            0 <= i < packet->Bundle_0.content@.len() ==> (
            #[trigger] packet->Bundle_0.content@[i]) is Message,
    ensures
        packet.depth() == 1,
        packet.messages() == Seq::new(
            packet->Bundle_0.content@.len(),
            |i: int| packet->Bundle_0.content@[i]->Message_0,
        ),
{
    let content = packet->Bundle_0.content@;
    lemma_flat(content);
}

proof fn lemma_flat(content: Seq<Packet>)
    requires
        forall|i: int| 0 <= i < content.len() ==> (#[trigger] content[i]) is Message,
    ensures
        crate::packet::deepest(content) == 0,
        crate::packet::messages_of(content) == Seq::new(
            content.len(),
            |i: int| content[i]->Message_0,
        ),
    decreases content.len(),
{
    let flat = Seq::new(content.len(), |i: int| content[i]->Message_0);
    if content.len() == 0 {
        assert(crate::packet::messages_of(content) =~= flat);
    } else {
        let rest = content.drop_last();
        assert forall|i: int| 0 <= i < rest.len() implies (#[trigger] rest[i]) is Message by {
            assert(rest[i] == content[i]);
        }
        lemma_flat(rest);
        let last = content.last();
        assert(last == content[content.len() - 1]);
        assert(last.depth() == 0);
        assert(last.messages() =~= seq![last->Message_0]);
        assert(crate::packet::messages_of(content) =~= flat);
    }
}

/// A well-formed `Bone/Pos` message with name `name` and transform `pos`
/// makes the bone table hold `pos` under `name`.
pub proof fn law_bone_read_back(start: Snapshot, msg: Message, name: String, pos: Transform)
    requires
        msg.addr@ == Address::BonePos.spec_text(),
        carries_name_pos(msg.args@, name, pos),
    ensures
        start.apply_message(msg) == start.store(Update::Bone(name, pos)),
        start.apply_message(msg).bones.contains_key(name@),
        start.apply_message(msg).bones[name@] == pos,
{
    law_parse_text(Address::BonePos);
    lemma_name_pos(msg.args@, name, pos);
}

/// A well-formed `Tra/Pos` message with name `name` and transform `pos`
/// makes the tracker table hold `pos` under `name`.
pub proof fn law_tracker_read_back(start: Snapshot, msg: Message, name: String, pos: Transform)
    requires
        msg.addr@ == Address::TrackerPos.spec_text(),
        carries_name_pos(msg.args@, name, pos),
    ensures
        start.apply_message(msg) == start.store(Update::Tracker(name, pos)),
        start.apply_message(msg).tracker.contains_key(name@),
        start.apply_message(msg).tracker[name@] == pos,
{
    law_parse_text(Address::TrackerPos);
    lemma_name_pos(msg.args@, name, pos);
}

/// A well-formed `Root/Pos` message with transform `pos` makes `pos` the
/// root, whatever its name.
pub proof fn law_root_read_back(start: Snapshot, msg: Message, name: String, pos: Transform)
    requires
        msg.addr@ == Address::RootPos.spec_text(),
        carries_name_pos(msg.args@, name, pos),
    ensures
        start.apply_message(msg) == (Snapshot { root: pos, ..start }),
{
    law_parse_text(Address::RootPos);
    lemma_name_pos(msg.args@, name, pos);
}

/// A `Blend/Val` message with a name and a number makes the blendshape
/// table hold the number under the name.
pub proof fn law_blend_read_back(start: Snapshot, msg: Message, name: String, weight: Scalar)
    requires
        msg.addr@ == Address::BlendVal.spec_text(),
        msg.args@.len() >= 2,
        msg.args@[0] == Arg::Str(name),
        msg.args@[1] == Arg::Float(weight),
    ensures
        start.apply_message(msg) == start.store(Update::Blend(name, weight)),
        start.apply_message(msg).blends.contains_key(name@),
        start.apply_message(msg).blends[name@] == weight,
{
    law_parse_text(Address::BlendVal);
}

/// A `T` message with a number makes it the server time.
pub proof fn law_time_read_back(start: Snapshot, msg: Message, time: Scalar)
    requires
        msg.addr@ == Address::Time.spec_text(),
        msg.args@.len() >= 1,
        msg.args@[0] == Arg::Float(time),
    ensures
        start.apply_message(msg) == (Snapshot { time, ..start }),
{
    law_parse_text(Address::Time);
}

/// An `OK` message with an integer sets the tracking status: true for 1,
/// false for every other integer.
pub proof fn law_status_is_one(start: Snapshot, msg: Message, status: i32)
    requires
        msg.addr@ == Address::Status.spec_text(),
        msg.args@.len() >= 1,
        msg.args@[0] == Arg::Int(status),
    ensures
        start.apply_message(msg) == (Snapshot { status: status == 1, ..start }),
{
    law_parse_text(Address::Status);
}

/// A `Blend/Apply` message changes nothing, whatever its arguments.
pub proof fn law_blend_apply_changes_nothing(start: Snapshot, msg: Message)
    requires
        msg.addr@ == Address::BlendApply.spec_text(),
    ensures
        meaning(msg) == Decoded::BlendApply,
        start.apply_message(msg) == start,
{
    law_parse_text(Address::BlendApply);
}

/// A message with a known address whose arguments do not have the shape
/// that the address expects is malformed and changes nothing.
pub proof fn law_malformed_changes_nothing(start: Snapshot, msg: Message, address: Address)
    requires
        msg.addr@ == address.spec_text(),
        address != Address::BlendApply,
        update_of(address, msg.args@) is None,
    ensures
        meaning(msg) == Decoded::Malformed,
        start.apply_message(msg) == start,
{
    law_parse_text(address);
}

/// A `Blend/Val` message whose second argument is missing or is not a
/// single-precision number leaves the blendshape table, and all else, as
/// it was.
pub proof fn law_blend_without_number(start: Snapshot, msg: Message)
    requires
        msg.addr@ == Address::BlendVal.spec_text(),
        msg.args@.len() < 2 || !(msg.args@[1] is Float),
    ensures
        start.apply_message(msg) == start,
{
    law_malformed_changes_nothing(start, msg, Address::BlendVal);
}

/// A transform message in which one of the first eight arguments is
/// missing or of another type writes no part of a transform.
pub proof fn law_partial_pos_changes_nothing(start: Snapshot, msg: Message, at: int)
    requires
        msg.addr@ == Address::RootPos.spec_text() || msg.addr@ == Address::BonePos.spec_text()
            || msg.addr@ == Address::TrackerPos.spec_text(),
        0 <= at < 8,
        at >= msg.args@.len() || (at == 0 && !(msg.args@[at] is Str)) || (at > 0 && !(
        msg.args@[at] is Float)),
    ensures
        start.apply_message(msg) == start,
{
    law_parse_text(Address::RootPos);
    law_parse_text(Address::BonePos);
    law_parse_text(Address::TrackerPos);
    if at > 0 {
        assert(crate::decode::float_at(msg.args@, at) is None);
    }
}

/// A message whose address is not a known one changes nothing.
pub proof fn law_unknown_changes_nothing(start: Snapshot, msg: Message)
    requires
        Address::spec_parse(msg.addr@) is None,
    ensures
        meaning(msg) == Decoded::Unknown,
        start.apply_message(msg) == start,
{
}

proof fn lemma_name_pos(args: Seq<Arg>, name: String, pos: Transform)
    requires
        carries_name_pos(args, name, pos),
    ensures
        crate::decode::name_pos(args) == Some((name, pos)),
{
    assert(crate::decode::string_at(args, 0) == Some(name));
    assert(crate::decode::float_at(args, 1) == Some(pos.x));
    assert(crate::decode::float_at(args, 2) == Some(pos.y));
    assert(crate::decode::float_at(args, 3) == Some(pos.z));
    assert(crate::decode::float_at(args, 4) == Some(pos.qx));
    assert(crate::decode::float_at(args, 5) == Some(pos.qy));
    assert(crate::decode::float_at(args, 6) == Some(pos.qz));
    assert(crate::decode::float_at(args, 7) == Some(pos.qw));
}

} // verus!
