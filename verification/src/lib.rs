//! Decoding of VMC motion-capture telemetry into a pose snapshot.
//!
//! A [`Packet`] is an already-decoded OSC envelope: one [`Message`] or a
//! bundle of packets. [`VmcData`] is the snapshot a consumer reads: tracking
//! status, server time, root transform, and the bone, tracker and blendshape
//! tables. [`VmcData::update_from_packet`] folds a packet into the snapshot.
//!
//! Single-precision numbers are carried as their IEEE 754 bit patterns
//! ([`Scalar`]), so a snapshot is compared bit for bit.
//!
//! The contracts are stated over [`Snapshot`], the mathematical content of a
//! [`VmcData`]; [`laws`] holds what follows for every snapshot and message.

pub mod address;
pub mod decode;
pub mod laws;
pub mod names;
pub mod packet;
pub mod state;
pub mod text;
pub mod value;

pub use address::Address;
pub use decode::{interpret, name_pos_from_args, name_value_from_args, Decoded, Update};
pub use names::NameMap;
pub use packet::{Arg, Bundle, Color, Message, Midi, Packet, Time};
pub use state::{PacketError, Snapshot, VmcData, MAX_BUNDLE_DEPTH};
pub use text::same_text;
pub use value::{Scalar, Transform};
