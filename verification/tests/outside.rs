use glam::{Quat, Vec3};
use mahou_vmc::{Arg, Bundle, Color, Message, Midi, Packet, Scalar, Time, VmcData};
use rosc::{
    OscArray, OscBundle, OscColor, OscMessage, OscMidiMessage, OscPacket, OscTime, OscType,
};

fn arg_of(arg: &OscType) -> Arg {
    match arg {
        OscType::Int(v) => Arg::Int(*v),
        OscType::Float(v) => Arg::Float(Scalar { bits: v.to_bits() }),
        OscType::String(s) => Arg::Str(s.clone()),
        OscType::Blob(b) => Arg::Blob(b.clone()),
        OscType::Time(t) => Arg::Time(Time { seconds: t.seconds, fractional: t.fractional }),
        OscType::Long(v) => Arg::Long(*v),
        OscType::Double(v) => Arg::Double(v.to_bits()),
        OscType::Char(c) => Arg::Char(*c),
        OscType::Color(c) => {
            Arg::Color(Color { red: c.red, green: c.green, blue: c.blue, alpha: c.alpha })
        }
        OscType::Midi(m) => {
            Arg::Midi(Midi { port: m.port, status: m.status, data1: m.data1, data2: m.data2 })
        }
        OscType::Bool(b) => Arg::Bool(*b),
        OscType::Array(a) => Arg::Array(a.content.iter().map(arg_of).collect()),
        OscType::Nil => Arg::Nil,
        OscType::Inf => Arg::Inf,
    }
}

fn packet_of(packet: &OscPacket) -> Packet {
    match packet {
        OscPacket::Message(m) => Packet::Message(Message {
            addr: m.addr.clone(),
            args: m.args.iter().map(arg_of).collect(),
        }),
        OscPacket::Bundle(b) => Packet::Bundle(Bundle {
            timetag: Time { seconds: b.timetag.seconds, fractional: b.timetag.fractional },
            content: b.content.iter().map(packet_of).collect(),
        }),
    }
}

fn osc_message(addr: &str, args: Vec<OscType>) -> OscPacket {
    OscPacket::Message(OscMessage { addr: addr.to_string(), args })
}

fn one_of_each() -> Vec<OscType> {
    vec![
        OscType::Int(7),
        OscType::Float(0.5),
        OscType::String("Hips".to_string()),
        OscType::Blob(vec![1, 2]),
        OscType::Time(OscTime { seconds: 1, fractional: 2 }),
        OscType::Long(7),
        OscType::Double(0.5),
        OscType::Char('x'),
        OscType::Color(OscColor { red: 1, green: 2, blue: 3, alpha: 4 }),
        OscType::Midi(OscMidiMessage { port: 1, status: 2, data1: 3, data2: 4 }),
        OscType::Bool(true),
        OscType::Array(OscArray { content: vec![OscType::Int(1)] }),
        OscType::Nil,
        OscType::Inf,
    ]
}

#[test]
fn accessors_agree_with_the_osc_library() {
    for osc in one_of_each() {
        let arg = arg_of(&osc);
        assert_eq!(arg.to_int(), osc.clone().int());
        assert_eq!(arg.to_float().map(|s| f32::from_bits(s.bits)), osc.clone().float());
        assert_eq!(arg.to_text(), osc.clone().string());
    }
}

#[test]
fn decoded_datagram_updates_the_snapshot() {
    let sent = OscPacket::Bundle(OscBundle {
        timetag: OscTime { seconds: 10, fractional: 0 },
        content: vec![
            osc_message(
                "/VMC/Ext/Root/Pos",
                vec![
                    OscType::String("root".to_string()),
                    OscType::Float(1.0),
                    OscType::Float(2.0),
                    OscType::Float(3.0),
                    OscType::Float(0.0),
                    OscType::Float(0.0),
                    OscType::Float(0.0),
                    OscType::Float(1.0),
                ],
            ),
            osc_message(
                "/VMC/Ext/Blend/Val",
                vec![OscType::String("Joy".to_string()), OscType::Float(0.25)],
            ),
            osc_message("/VMC/Ext/OK", vec![OscType::Int(1)]),
            osc_message("/VMC/Ext/T", vec![OscType::Float(5.25)]),
            osc_message("/VMC/Ext/Cam", vec![OscType::String("cam".to_string())]),
        ],
    });
    let bytes = rosc::encoder::encode(&sent).unwrap();
    let (_, received) = rosc::decoder::decode_udp(&bytes).unwrap();
    let mut data = VmcData::default();
    let report = data.update_from_packet(packet_of(&received));
    assert_eq!(report, Ok(vec!["/VMC/Ext/Cam".to_string()]));
    let position = Vec3::new(
        f32::from_bits(data.root().x.bits),
        f32::from_bits(data.root().y.bits),
        f32::from_bits(data.root().z.bits),
    );
    let orientation = Quat::from_xyzw(
        f32::from_bits(data.root().qx.bits),
        f32::from_bits(data.root().qy.bits),
        f32::from_bits(data.root().qz.bits),
        f32::from_bits(data.root().qw.bits),
    );
    assert_eq!(position, Vec3::new(1.0, 2.0, 3.0));
    assert_eq!(orientation, Quat::IDENTITY);
    assert_eq!(data.blends().get("Joy").map(|s| f32::from_bits(s.bits)), Some(0.25));
    assert!(data.status());
    assert_eq!(f32::from_bits(data.time().bits), 5.25);
}

#[test]
fn default_root_is_the_zero_quaternion() {
    let data = VmcData::default();
    let orientation = Quat::from_xyzw(
        f32::from_bits(data.root().qx.bits),
        f32::from_bits(data.root().qy.bits),
        f32::from_bits(data.root().qz.bits),
        f32::from_bits(data.root().qw.bits),
    );
    assert_eq!(orientation, Quat::from_xyzw(0.0, 0.0, 0.0, 0.0));
    let position = Vec3::new(
        f32::from_bits(data.root().x.bits),
        f32::from_bits(data.root().y.bits),
        f32::from_bits(data.root().z.bits),
    );
    assert_eq!(position, Vec3::ZERO);
}
