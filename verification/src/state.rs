//! The pose snapshot and how packets update it.

use vstd::prelude::*;
use crate::decode::{interpret, meaning, Decoded, Update};
use crate::names::NameMap;
use crate::packet::{messages_of, Message, Packet};
use crate::value::{Scalar, Transform};

verus! {

/// The deepest nesting of bundles that is applied. A packet that nests
/// deeper is refused as a whole.
pub const MAX_BUNDLE_DEPTH: usize = 32;

/// The mathematical content of a [`VmcData`].
pub struct Snapshot {
    pub status: bool,
    pub time: Scalar,
    pub blends: Map<Seq<char>, Scalar>,
    pub bones: Map<Seq<char>, Transform>,
    pub root: Transform,
    pub tracker: Map<Seq<char>, Transform>,
}

impl Snapshot {
    /// The snapshot before any message: not tracking, time zero, the zero
    /// transform as root, and no bone, tracker or blendshape.
    pub open spec fn initial() -> Snapshot {
        Snapshot {
            status: false,
            time: Scalar::spec_zero(),
            blends: Map::empty(),
            bones: Map::empty(),
            root: Transform::spec_zero(),
            tracker: Map::empty(),
        }
    }

    /// The snapshot after one change. The change replaces one field or the
    /// value under one name; everything else stays.
    pub open spec fn store(self, update: Update) -> Snapshot {
        match update {
            Update::Root(pos) => Snapshot { root: pos, ..self },
            Update::Bone(name, pos) => Snapshot { bones: self.bones.insert(name@, pos), ..self },
            Update::Tracker(name, pos) => Snapshot {
                tracker: self.tracker.insert(name@, pos),
                ..self
            },
            Update::Blend(name, weight) => Snapshot {
                blends: self.blends.insert(name@, weight),
                ..self
            },
            Update::Status(status) => Snapshot { status, ..self },
            Update::Time(time) => Snapshot { time, ..self },
        }
    }

    /// The snapshot after one message: the message's change where it states
    /// one, and the same snapshot where it is malformed, unknown or a
    /// `Blend/Apply`.
    pub open spec fn apply_message(self, msg: Message) -> Snapshot {
        match meaning(msg) {
            Decoded::Update(update) => self.store(update),
            _ => self,
        }
    }

    /// The snapshot after the messages of `msgs`, applied first to last.
    pub open spec fn apply_messages(self, msgs: Seq<Message>) -> Snapshot
        decreases msgs.len(),
    {
        if msgs.len() == 0 {
            self
        } else {
            self.apply_messages(msgs.drop_last()).apply_message(msgs.last())
        }
    }

    /// The snapshot after one packet: its messages applied in order, or the
    /// same snapshot where the packet nests deeper than
    /// [`MAX_BUNDLE_DEPTH`].
    pub open spec fn apply_packet(self, packet: Packet) -> Snapshot {
        if packet.depth() <= MAX_BUNDLE_DEPTH {
            self.apply_messages(packet.messages())
        } else {
            self
        }
    }

    /// The snapshot after the packets of `packets`, each applied as a
    /// whole, first to last.
    pub open spec fn apply_packets(self, packets: Seq<Packet>) -> Snapshot
        decreases packets.len(),
    {
        if packets.len() == 0 {
            self
        } else {
            self.apply_packets(packets.drop_last()).apply_packet(packets.last())
        }
    }
}

/// The addresses of the messages of `msgs` that have no handler, in order.
pub open spec fn unknown_addresses(msgs: Seq<Message>) -> Seq<String>
    decreases msgs.len(),
{
    if msgs.len() == 0 {
        Seq::empty()
    } else if meaning(msgs.last()) is Unknown {
        unknown_addresses(msgs.drop_last()).push(msgs.last().addr)
    } else {
        unknown_addresses(msgs.drop_last())
    }
}

/// Whether no message of `msgs` states a change.
pub open spec fn states_nothing(msgs: Seq<Message>) -> bool {
    forall|i: int| 0 <= i < msgs.len() ==> !((#[trigger] meaning(msgs[i])) is Update)
}

/// Applying one sequence of messages after another is applying the two
/// joined.
pub proof fn lemma_apply_joined(start: Snapshot, first: Seq<Message>, second: Seq<Message>)
    ensures
        start.apply_messages(first + second) == start.apply_messages(first).apply_messages(second),
    decreases second.len(),
{
    if second.len() == 0 {
        assert(first + second =~= first);
    } else {
        lemma_apply_joined(start, first, second.drop_last());
        assert((first + second).drop_last() =~= first + second.drop_last());
        assert((first + second).last() == second.last());
    }
}

/// The unknown addresses of two sequences joined are those of the first,
/// then those of the second.
pub proof fn lemma_unknown_joined(first: Seq<Message>, second: Seq<Message>)
    ensures
        unknown_addresses(first + second) == unknown_addresses(first) + unknown_addresses(second),
    decreases second.len(),
{
    if second.len() == 0 {
        assert(first + second =~= first);
        assert(unknown_addresses(first) + unknown_addresses(second) =~= unknown_addresses(first));
    } else {
        lemma_unknown_joined(first, second.drop_last());
        assert((first + second).drop_last() =~= first + second.drop_last());
        assert((first + second).last() == second.last());
        assert(unknown_addresses(first + second) =~= unknown_addresses(first) + unknown_addresses(
            second,
        ));
    }
}

/// Two sequences joined state nothing exactly when neither states
/// anything.
pub proof fn lemma_nothing_joined(first: Seq<Message>, second: Seq<Message>)
    ensures
        states_nothing(first + second) <==> states_nothing(first) && states_nothing(second),
{
    let joined = first + second;
    if states_nothing(joined) {
        assert forall|i: int| 0 <= i < first.len() implies !((#[trigger] meaning(first[i])) is Update) by {
            assert(joined[i] == first[i]);
        }
        assert forall|i: int| 0 <= i < second.len() implies !((#[trigger] meaning(second[i])) is Update) by {
            assert(joined[first.len() + i] == second[i]);
        }
    }
    if states_nothing(first) && states_nothing(second) {
        assert forall|i: int| 0 <= i < joined.len() implies !((#[trigger] meaning(joined[i])) is Update) by {
            if i < first.len() {
                assert(joined[i] == first[i]);
            } else {
                assert(joined[i] == second[i - first.len()]);
            }
        }
    }
}

/// Applying a single message as a sequence is applying the message.
pub proof fn lemma_apply_single(start: Snapshot, msg: Message)
    ensures
        start.apply_messages(seq![msg]) == start.apply_message(msg),
        unknown_addresses(seq![msg]) == (if meaning(msg) is Unknown {
            seq![msg.addr]
        } else {
            Seq::empty()
        }),
        states_nothing(seq![msg]) <==> !(meaning(msg) is Update),
{
    let one = seq![msg];
    assert(one.drop_last() =~= Seq::<Message>::empty());
    assert(one.last() == msg);
    assert(start.apply_messages(one.drop_last()) == start);
    assert(unknown_addresses(one.drop_last()) =~= Seq::<String>::empty());
    assert(unknown_addresses(one) =~= (if meaning(msg) is Unknown {
        seq![msg.addr]
    } else {
        Seq::empty()
    }));
    assert(one[0] == msg);
}

/// The messages of the first `n + 1` packets are those of the first `n`,
/// then those of the next packet.
pub proof fn lemma_messages_of_next(packets: Seq<Packet>, n: int)
    requires
        0 <= n < packets.len(),
    ensures
        messages_of(packets.take(n + 1)) == messages_of(packets.take(n)) + packets[n].messages(),
{
    assert(packets.take(n + 1).drop_last() =~= packets.take(n));
    assert(packets.take(n + 1).last() == packets[n]);
}

/// Why a packet was not applied.
#[derive(Clone, Copy, Debug, PartialEq, Eq, Structural)]
pub enum PacketError {
    /// Its bundles nest deeper than [`MAX_BUNDLE_DEPTH`].
    TooDeep,
}

/// The current best-known pose of a tracked avatar.
///
/// Readers see it through the getters; only the interpreter's methods
/// change it.
#[derive(Debug, PartialEq, Eq)]
pub struct VmcData {
    status: bool,
    time: Scalar,
    blends: NameMap<Scalar>,
    bones: NameMap<Transform>,
    root: Transform,
    tracker: NameMap<Transform>,
}

impl View for VmcData {
    type V = Snapshot;

    closed spec fn view(&self) -> Snapshot {
        Snapshot {
            status: self.status,
            time: self.time,
            blends: self.blends@,
            bones: self.bones@,
            root: self.root,
            tracker: self.tracker@,
        }
    }
}

impl Clone for VmcData {
    fn clone(&self) -> (copy: Self)
        ensures
            copy@ == self@,
    {
        VmcData {
            status: self.status,
            time: self.time,
            blends: self.blends.clone(),
            bones: self.bones.clone(),
            root: self.root,
            tracker: self.tracker.clone(),
        }
    }
}

impl Default for VmcData {
    /// The snapshot before any message.
    fn default() -> (data: Self)
        ensures
            data@ == Snapshot::initial(),
    {
        VmcData {
            status: false,
            time: Scalar::zero(),
            blends: NameMap::new(),
            bones: NameMap::new(),
            root: Transform::zero(),
            tracker: NameMap::new(),
        }
    }
}

impl VmcData {
    /// Whether the source has signalled an active tracking session.
    pub fn status(&self) -> (status: bool)
        ensures
            status == self@.status,
    {
        self.status
    }

    /// Seconds as the source reports them. The last report stands, later or
    /// earlier.
    pub fn time(&self) -> (time: Scalar)
        ensures
            time == self@.time,
    {
        self.time
    }

    /// The avatar's root pose.
    pub fn root(&self) -> (root: Transform)
        ensures
            root == self@.root,
    {
        self.root
    }

    /// Bone poses by name.
    pub fn bones(&self) -> (bones: &NameMap<Transform>)
        ensures
            bones@ == self@.bones,
    {
        &self.bones
    }

    /// Tracker poses by name.
    pub fn tracker(&self) -> (tracker: &NameMap<Transform>)
        ensures
            tracker@ == self@.tracker,
    {
        &self.tracker
    }

    /// Blendshape weights by name.
    pub fn blends(&self) -> (blends: &NameMap<Scalar>)
        ensures
            blends@ == self@.blends,
    {
        &self.blends
    }

    /// Makes one change to the snapshot.
    pub fn apply(&mut self, update: Update)
        ensures
            final(self)@ == old(self)@.store(update),
    {
        match update {
            Update::Root(pos) => {
                self.root = pos;
            },
            Update::Bone(name, pos) => {
                self.bones.insert(name, pos);
            },
            Update::Tracker(name, pos) => {
                self.tracker.insert(name, pos);
            },
            Update::Blend(name, weight) => {
                self.blends.insert(name, weight);
            },
            Update::Status(status) => {
                self.status = status;
            },
            Update::Time(time) => {
                self.time = time;
            },
        }
    }

    /// Applies the messages of `packet` in order, and appends the addresses
    /// without a handler to `unknown`. `budget` bounds the recursion.
    fn apply_within(&mut self, packet: &Packet, budget: usize, unknown: &mut Vec<String>)
        requires
            packet.depth() <= budget,
        ensures
            final(self)@ == old(self)@.apply_messages(packet.messages()),
            final(unknown)@ == old(unknown)@ + unknown_addresses(packet.messages()),
            states_nothing(packet.messages()) ==> *final(self) == *old(self),
        decreases budget,
    {
        match packet {
            Packet::Message(msg) => {
                proof {
                    lemma_apply_single(self@, *msg);
                }
                let known = self.update_from_message(msg);
                if !known {
                    unknown.push(msg.addr.clone());
                }
                assert(unknown@ =~= old(unknown)@ + unknown_addresses(packet.messages()));
            },
            Packet::Bundle(bundle) => {
                let mut i: usize = 0;
                assert(bundle.content@.take(0) =~= Seq::<Packet>::empty());
                assert(unknown@ =~= old(unknown)@ + unknown_addresses(Seq::<Message>::empty()));
                while i < bundle.content.len()
                    invariant
                        i <= bundle.content@.len(),
                        budget >= 1 + crate::packet::deepest(bundle.content@),
                        self@ == old(self)@.apply_messages(
                            messages_of(bundle.content@.take(i as int)),
                        ),
                        unknown@ == old(unknown)@ + unknown_addresses(
                            messages_of(bundle.content@.take(i as int)),
                        ),
                        states_nothing(messages_of(bundle.content@.take(i as int))) ==> *self
                            == *old(self),
                    decreases bundle.content@.len() - i,
                {
                    let ghost before = messages_of(bundle.content@.take(i as int));
                    let ghost next = bundle.content@[i as int].messages();
                    proof {
                        crate::packet::lemma_deepest_bound(
                            bundle.content@,
                            (budget - 1) as nat,
                        );
                        lemma_messages_of_next(bundle.content@, i as int);
                        lemma_apply_joined(old(self)@, before, next);
                        lemma_unknown_joined(before, next);
                        lemma_nothing_joined(before, next);
                    }
                    self.apply_within(&bundle.content[i], budget - 1, unknown);
                    assert(unknown@ =~= old(unknown)@ + unknown_addresses(before + next));
                    i += 1;
                }
                assert(bundle.content@.take(i as int) =~= bundle.content@);
            },
        }
    }

    /// Applies one packet: a message, or a bundle whose packets are applied
    /// in their stored order, nested bundles included. Returns the addresses
    /// that have no handler, in the order met.
    ///
    /// A packet whose bundles nest deeper than [`MAX_BUNDLE_DEPTH`] is
    /// refused whole and changes nothing. Holding `&mut self` for the whole
    /// call, no reader sees a packet half applied.
    pub fn update_from_packet(&mut self, packet: Packet) -> (report: Result<
        Vec<String>,
        PacketError,
    >)
        ensures
            final(self)@ == old(self)@.apply_packet(packet),
            packet.depth() <= MAX_BUNDLE_DEPTH ==> report is Ok && report->Ok_0@
                == unknown_addresses(packet.messages()),
            packet.depth() > MAX_BUNDLE_DEPTH ==> report == Err::<Vec<String>, PacketError>(
                PacketError::TooDeep,
            ) && *final(self) == *old(self),
            states_nothing(packet.messages()) ==> *final(self) == *old(self),
    {
        if !packet.depth_within(MAX_BUNDLE_DEPTH) {
            return Err(PacketError::TooDeep);
        }
        let mut unknown: Vec<String> = Vec::new();
        self.apply_within(&packet, MAX_BUNDLE_DEPTH, &mut unknown);
        assert(unknown@ =~= unknown_addresses(packet.messages()));
        Ok(unknown)
    }

    /// Applies one message and says whether its address is a known one. A
    /// message that is malformed, unknown or a `Blend/Apply` changes
    /// nothing.
    pub fn update_from_message(&mut self, msg: &Message) -> (known: bool)
        ensures
            final(self)@ == old(self)@.apply_message(*msg),
            known == !(meaning(*msg) is Unknown),
            !(meaning(*msg) is Update) ==> *final(self) == *old(self),
    {
        match interpret(msg) {
            Decoded::Update(update) => {
                self.apply(update);
                true
            },
            Decoded::BlendApply => true,
            Decoded::Malformed => true,
            Decoded::Unknown => false,
        }
    }
}

} // verus!
