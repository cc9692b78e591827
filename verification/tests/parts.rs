use mahou_vmc::{
    interpret, name_pos_from_args, name_value_from_args, same_text, Address, Arg, Color, Decoded,
    Message, Midi, NameMap, Scalar, Time, Transform, Update, VmcData,
};

fn scalar(v: f32) -> Scalar {
    Scalar { bits: v.to_bits() }
}

fn seven(v: f32) -> Transform {
    Transform {
        x: scalar(v),
        y: scalar(v + 1.0),
        z: scalar(v + 2.0),
        qx: scalar(v + 3.0),
        qy: scalar(v + 4.0),
        qz: scalar(v + 5.0),
        qw: scalar(v + 6.0),
    }
}

fn pos_args(name: &str, v: f32) -> Vec<Arg> {
    let mut args = vec![Arg::Str(name.to_string())];
    for k in 0..7 {
        args.push(Arg::Float(scalar(v + k as f32)));
    }
    args
}

fn one_of_each() -> Vec<Arg> {
    vec![
        Arg::Int(-3),
        Arg::Float(scalar(1.5)),
        Arg::Str("text".to_string()),
        Arg::Blob(vec![1, 2, 3]),
        Arg::Time(Time { seconds: 5, fractional: 6 }),
        Arg::Long(1 << 40),
        Arg::Double(2.5f64.to_bits()),
        Arg::Char('c'),
        Arg::Color(Color { red: 1, green: 2, blue: 3, alpha: 4 }),
        Arg::Midi(Midi { port: 1, status: 2, data1: 3, data2: 4 }),
        Arg::Bool(true),
        Arg::Array(vec![Arg::Int(1), Arg::Float(scalar(1.0))]),
        Arg::Nil,
        Arg::Inf,
    ]
}

#[test]
fn same_text_compares_characters() {
    assert!(same_text("", ""));
    assert!(same_text("Hips", "Hips"));
    assert!(!same_text("Hips", "Hip"));
    assert!(!same_text("Hip", "Hips"));
    assert!(!same_text("Hips", "hips"));
    assert!(!same_text("", " "));
    assert!(same_text("\u{8170}", "\u{8170}"));
    assert!(!same_text("\u{8170}", "\u{8171}"));
    assert!(!same_text("e\u{301}", "\u{e9}"));
}

#[test]
fn address_texts_are_the_protocol_paths() {
    assert_eq!(Address::RootPos.text(), "/VMC/Ext/Root/Pos");
    assert_eq!(Address::BonePos.text(), "/VMC/Ext/Bone/Pos");
    assert_eq!(Address::TrackerPos.text(), "/VMC/Ext/Tra/Pos");
    assert_eq!(Address::BlendVal.text(), "/VMC/Ext/Blend/Val");
    assert_eq!(Address::BlendApply.text(), "/VMC/Ext/Blend/Apply");
    assert_eq!(Address::Status.text(), "/VMC/Ext/OK");
    assert_eq!(Address::Time.text(), "/VMC/Ext/T");
}

#[test]
fn parse_gives_each_address_back() {
    let all = [
        Address::RootPos,
        Address::BonePos,
        Address::TrackerPos,
        Address::BlendVal,
        Address::BlendApply,
        Address::Status,
        Address::Time,
    ];
    for address in all {
        assert_eq!(Address::parse(address.text()), Some(address));
    }
    assert_eq!(Address::parse("/Foo/Bar"), None);
    assert_eq!(Address::parse("/VMC/Ext/Blend"), None);
    assert_eq!(Address::parse("/VMC/Ext/Blend/Apply/"), None);
    assert_eq!(Address::parse(""), None);
}

#[test]
fn accessors_read_their_own_variant_only() {
    for (place, arg) in one_of_each().iter().enumerate() {
        assert_eq!(arg.to_int(), if place == 0 { Some(-3) } else { None });
        assert_eq!(arg.to_float(), if place == 1 { Some(scalar(1.5)) } else { None });
        assert_eq!(arg.to_text(), if place == 2 { Some("text".to_string()) } else { None });
    }
}

#[test]
fn name_pos_reads_name_then_position_then_orientation() {
    let args = pos_args("Hips", 10.0);
    assert_eq!(name_pos_from_args(&args), Some(("Hips".to_string(), seven(10.0))));
    let found = name_pos_from_args(&args).unwrap().1;
    assert_eq!(f32::from_bits(found.x.bits), 10.0);
    assert_eq!(f32::from_bits(found.y.bits), 11.0);
    assert_eq!(f32::from_bits(found.z.bits), 12.0);
    assert_eq!(f32::from_bits(found.qx.bits), 13.0);
    assert_eq!(f32::from_bits(found.qy.bits), 14.0);
    assert_eq!(f32::from_bits(found.qz.bits), 15.0);
    assert_eq!(f32::from_bits(found.qw.bits), 16.0);
}

#[test]
fn name_pos_needs_all_eight_of_the_right_type() {
    assert_eq!(name_pos_from_args(&vec![]), None);
    for keep in 0..8 {
        let mut args = pos_args("Hips", 1.0);
        args.truncate(keep);
        assert_eq!(name_pos_from_args(&args), None);
    }
    for place in 0..8 {
        for other in one_of_each() {
            let fits = match (place, &other) {
                (0, Arg::Str(_)) => true,
                (0, _) => false,
                (_, Arg::Float(_)) => true,
                _ => false,
            };
            let mut args = pos_args("Hips", 1.0);
            args[place] = other;
            assert_eq!(name_pos_from_args(&args).is_some(), fits);
        }
    }
    let mut args = pos_args("Hips", 1.0);
    args.extend(one_of_each());
    assert_eq!(name_pos_from_args(&args), Some(("Hips".to_string(), seven(1.0))));
}

#[test]
fn name_value_reads_name_then_weight() {
    let args = vec![Arg::Str("Joy".to_string()), Arg::Float(scalar(0.25))];
    assert_eq!(name_value_from_args(&args), Some(("Joy".to_string(), scalar(0.25))));
    assert_eq!(name_value_from_args(&vec![]), None);
    assert_eq!(name_value_from_args(&vec![Arg::Str("Joy".to_string())]), None);
    let swapped = vec![Arg::Float(scalar(0.25)), Arg::Str("Joy".to_string())];
    assert_eq!(name_value_from_args(&swapped), None);
    let whole = vec![Arg::Str("Joy".to_string()), Arg::Int(1)];
    assert_eq!(name_value_from_args(&whole), None);
}

#[test]
fn interpret_reads_every_address() {
    let read = |addr: &str, args: Vec<Arg>| interpret(&Message { addr: addr.to_string(), args });
    assert_eq!(
        read("/VMC/Ext/Root/Pos", pos_args("r", 1.0)),
        Decoded::Update(Update::Root(seven(1.0)))
    );
    assert_eq!(
        read("/VMC/Ext/Bone/Pos", pos_args("Hips", 2.0)),
        Decoded::Update(Update::Bone("Hips".to_string(), seven(2.0)))
    );
    assert_eq!(
        read("/VMC/Ext/Tra/Pos", pos_args("Head", 3.0)),
        Decoded::Update(Update::Tracker("Head".to_string(), seven(3.0)))
    );
    assert_eq!(
        read("/VMC/Ext/Blend/Val", vec![Arg::Str("Joy".to_string()), Arg::Float(scalar(0.5))]),
        Decoded::Update(Update::Blend("Joy".to_string(), scalar(0.5)))
    );
    assert_eq!(read("/VMC/Ext/Blend/Apply", vec![]), Decoded::BlendApply);
    assert_eq!(read("/VMC/Ext/Blend/Apply", vec![Arg::Int(1)]), Decoded::BlendApply);
    assert_eq!(read("/VMC/Ext/OK", vec![Arg::Int(1)]), Decoded::Update(Update::Status(true)));
    assert_eq!(read("/VMC/Ext/OK", vec![Arg::Int(0)]), Decoded::Update(Update::Status(false)));
    assert_eq!(read("/VMC/Ext/OK", vec![Arg::Int(3)]), Decoded::Update(Update::Status(false)));
    assert_eq!(
        read("/VMC/Ext/T", vec![Arg::Float(scalar(5.25))]),
        Decoded::Update(Update::Time(scalar(5.25)))
    );
    assert_eq!(read("/VMC/Ext/T", vec![Arg::Double(5.25f64.to_bits())]), Decoded::Malformed);
    assert_eq!(read("/VMC/Ext/OK", vec![Arg::Long(1)]), Decoded::Malformed);
    assert_eq!(read("/VMC/Ext/OK", vec![]), Decoded::Malformed);
    assert_eq!(read("/VMC/Ext/Bone/Pos", vec![]), Decoded::Malformed);
    assert_eq!(read("/VMC/Ext/Blend/Val", vec![Arg::Nil, Arg::Nil]), Decoded::Malformed);
    assert_eq!(read("/Foo/Bar", pos_args("Hips", 2.0)), Decoded::Unknown);
    assert_eq!(read("", vec![]), Decoded::Unknown);
}

#[test]
fn apply_makes_each_change() {
    let mut data = VmcData::default();
    data.apply(Update::Root(seven(1.0)));
    data.apply(Update::Bone("Hips".to_string(), seven(2.0)));
    data.apply(Update::Tracker("Head".to_string(), seven(3.0)));
    data.apply(Update::Blend("Joy".to_string(), scalar(0.5)));
    data.apply(Update::Status(true));
    data.apply(Update::Time(scalar(7.5)));
    assert_eq!(data.root(), seven(1.0));
    assert_eq!(data.bones().get("Hips"), Some(seven(2.0)));
    assert_eq!(data.tracker().get("Head"), Some(seven(3.0)));
    assert_eq!(data.blends().get("Joy"), Some(scalar(0.5)));
    assert!(data.status());
    assert_eq!(data.time(), scalar(7.5));
    assert_eq!(data.bones().get("Head"), None);
    assert_eq!(data.tracker().get("Hips"), None);
    assert_eq!(data.blends().get("Hips"), None);
}

#[test]
fn name_map_holds_each_name_once() {
    let mut table: NameMap<u32> = NameMap::new();
    assert_eq!(table.len(), 0);
    assert_eq!(table.get("a"), None);
    table.insert("a".to_string(), 1);
    table.insert("b".to_string(), 2);
    table.insert("c".to_string(), 3);
    assert_eq!(table.len(), 3);
    table.insert("b".to_string(), 20);
    assert_eq!(table.len(), 3);
    assert_eq!(table.get("a"), Some(1));
    assert_eq!(table.get("b"), Some(20));
    assert_eq!(table.get("c"), Some(3));
    assert_eq!(table.get(""), None);
    assert_eq!(table.get("B"), None);
    table.insert("".to_string(), 0);
    assert_eq!(table.get(""), Some(0));
    assert_eq!(table.len(), 4);
}

#[test]
fn name_map_keeps_the_place_of_a_replaced_name() {
    let mut table: NameMap<u32> = NameMap::new();
    table.insert("b".to_string(), 2);
    table.insert("a".to_string(), 1);
    table.insert("c".to_string(), 3);
    table.insert("a".to_string(), 10);
    let listed: Vec<(String, u32)> = table.entries().clone();
    assert_eq!(
        listed,
        vec![("b".to_string(), 2), ("a".to_string(), 10), ("c".to_string(), 3)]
    );
}

#[test]
fn name_map_clone_is_equal_and_apart() {
    let mut table: NameMap<u32> = NameMap::new();
    table.insert("a".to_string(), 1);
    table.insert("b".to_string(), 2);
    let mut copy = table.clone();
    assert_eq!(copy, table);
    copy.insert("a".to_string(), 5);
    assert_ne!(copy, table);
    assert_eq!(table.get("a"), Some(1));
    assert_eq!(copy.get("a"), Some(5));
}

#[test]
fn snapshot_clone_is_equal_and_apart() {
    let mut data = VmcData::default();
    data.apply(Update::Bone("Hips".to_string(), seven(2.0)));
    data.apply(Update::Status(true));
    let mut copy = data.clone();
    assert_eq!(copy, data);
    copy.apply(Update::Bone("Hips".to_string(), seven(3.0)));
    assert_eq!(data.bones().get("Hips"), Some(seven(2.0)));
    assert_eq!(copy.bones().get("Hips"), Some(seven(3.0)));
    assert_ne!(copy, data);
}
