use packet_layout::layout::{Item, Layout};
use packet_layout::packet::{Packet, Protocol};
use packet_layout::prim::{IntPrim, Prim, SchemaInvalid};
use packet_layout::value::{Point, TypeMismatch, Value, ValueKind};

#[test]
fn integer_values_convert_to_i64() {
    assert_eq!(Value::U16(7).value(), Ok(7));
    assert_eq!(Value::U8(255).value(), Ok(255));
    assert_eq!(Value::I8(-3).value(), Ok(-3));
    assert_eq!(Value::I64(i64::MIN).value(), Ok(i64::MIN));
    // A 64-bit unsigned value wraps, as a plain cast does.
    assert_eq!(Value::U64(u64::MAX).value(), Ok(-1));
}

#[test]
fn float_and_enum_values_are_type_mismatches() {
    let f32_bits = (1.0f32).to_bits();
    assert_eq!(
        Value::F32(f32_bits).value(),
        Err(TypeMismatch { actual: ValueKind::F32 })
    );
    let f64_bits = (2.5f64).to_bits();
    assert_eq!(
        Value::F64(f64_bits).value(),
        Err(TypeMismatch { actual: ValueKind::F64 })
    );
    assert_eq!(
        Value::Enum("Run".to_string(), 1).value(),
        Err(TypeMismatch { actual: ValueKind::Enum })
    );
}

#[test]
fn point_binds_a_name_to_a_value() {
    let p = Point::new("speed".to_string(), Value::U32(88));
    assert_eq!(p.name, "speed");
    assert_eq!(p.val, Value::U32(88));
}

fn key(names: &[&str]) -> Vec<Item> {
    names
        .iter()
        .map(|n| Item::new(n.to_string(), Prim::Int(IntPrim::u8_be())))
        .collect()
}

#[test]
fn subcom_accepts_distinct_keys() {
    let entries = vec![
        (key(&["cmd"]), Packet::Sequence(vec![])),
        (key(&["cmd", "sub"]), Packet::Sequence(vec![])),
    ];
    let p = Packet::subcom(entries).unwrap();
    match p {
        Packet::Subcom(es) => assert_eq!(es.len(), 2),
        _ => panic!("expected a subcom packet"),
    }
}

#[test]
fn subcom_rejects_duplicate_keys() {
    let entries = vec![
        (key(&["cmd"]), Packet::Sequence(vec![])),
        (key(&["cmd"]), Packet::Layout(Layout::Sequence(vec![]))),
    ];
    assert_eq!(
        Packet::subcom(entries).unwrap_err(),
        SchemaInvalid::DuplicateKey
    );
}

#[test]
fn branch_accepts_distinct_guards_and_keeps_order() {
    let arms = vec![
        (vec![Prim::Int(IntPrim::u8_be())], Protocol::Sequence(vec![])),
        (vec![Prim::Int(IntPrim::u16_be())], Protocol::Sequence(vec![])),
    ];
    let p = Protocol::branch(arms).unwrap();
    match p {
        Protocol::Branch(arms) => {
            assert_eq!(arms.len(), 2);
            assert_eq!(arms[0].0, vec![Prim::Int(IntPrim::u8_be())]);
            assert_eq!(arms[1].0, vec![Prim::Int(IntPrim::u16_be())]);
        }
        _ => panic!("expected a branch protocol"),
    }
}

#[test]
fn branch_rejects_duplicate_guards() {
    let arms = vec![
        (vec![Prim::Int(IntPrim::u8_be())], Protocol::Sequence(vec![])),
        (vec![Prim::Int(IntPrim::u8_be())], Protocol::Packet(Packet::Sequence(vec![]))),
    ];
    assert_eq!(
        Protocol::branch(arms).unwrap_err(),
        SchemaInvalid::DuplicateKey
    );
}
