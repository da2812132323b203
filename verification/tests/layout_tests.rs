use packet_layout::layout::{Item, Layout, LocLayout, Unsupported};
use packet_layout::prim::{
    BitPrim, Endianness, Enum, FloatPrim, IntPrim, IntSize, NumBytes, Prim, SchemaInvalid,
    Signedness,
};

fn field(name: &str, ip: IntPrim) -> Layout {
    Layout::Prim(Item::new(name.to_string(), Prim::Int(ip)))
}

#[test]
fn sequence_num_bytes_and_locate() {
    let layout = Layout::Sequence(vec![
        field("a", IntPrim::u16_be()),
        field("b", IntPrim::u32_le()),
    ]);
    assert_eq!(layout.num_bytes(), 6);
    let located: LocLayout = layout.locate().unwrap();
    assert_eq!(located.num_bytes, layout.num_bytes());
    assert_eq!(located.num_bytes, 6);
    assert_eq!(located.loc_items.len(), 2);
    assert_eq!(located.loc_items[0].name, "a");
    assert_eq!(located.loc_items[0].loc, 0);
    assert_eq!(located.loc_items[1].name, "b");
    assert_eq!(located.loc_items[1].loc, 2);
}

#[test]
fn all_overlaps_children_at_same_offset() {
    let layout = Layout::All(vec![
        field("x", IntPrim::i32_be()),
        Layout::Prim(Item::new(
            "y".to_string(),
            Prim::Float(packet_layout::prim::FloatPrim::F32(Endianness::BigEndian)),
        )),
    ]);
    assert_eq!(layout.num_bytes(), 4);
    let located = layout.locate().unwrap();
    assert_eq!(located.num_bytes, 4);
    assert_eq!(located.loc_items[0].name, "x");
    assert_eq!(located.loc_items[0].loc, 0);
    assert_eq!(located.loc_items[1].name, "y");
    assert_eq!(located.loc_items[1].loc, 0);
}

#[test]
fn sequence_after_all_starts_past_largest_alternative() {
    let layout = Layout::Sequence(vec![
        Layout::All(vec![field("x", IntPrim::u8_be()), field("y", IntPrim::u32_be())]),
        field("z", IntPrim::u16_be()),
    ]);
    assert_eq!(layout.num_bytes(), 6);
    let located = layout.locate().unwrap();
    assert_eq!(located.num_bytes, 6);
    assert_eq!(located.loc_items.len(), 3);
    assert_eq!(located.loc_items[0].name, "x");
    assert_eq!(located.loc_items[0].loc, 0);
    assert_eq!(located.loc_items[1].name, "y");
    assert_eq!(located.loc_items[1].loc, 0);
    assert_eq!(located.loc_items[2].name, "z");
    assert_eq!(located.loc_items[2].loc, 4);
}

#[test]
fn enum_num_bytes_follows_backing_int() {
    let e = Enum::new(
        vec![(0, "Idle".to_string()), (1, "Run".to_string())],
        IntPrim::u8_be(),
    )
    .unwrap();
    assert_eq!(e.num_bytes(), 1);
    assert_eq!(Prim::Enum(e).num_bytes(), 1);
}

#[test]
fn enum_rejects_duplicate_keys() {
    let r = Enum::new(
        vec![(3, "A".to_string()), (3, "B".to_string())],
        IntPrim::u8_be(),
    );
    assert_eq!(r, Err(SchemaInvalid::DuplicateKey));
}

#[test]
fn names_collects_prim_leaves_without_duplicates() {
    let layout = Layout::Sequence(vec![
        field("a", IntPrim::u8_be()),
        Layout::All(vec![field("b", IntPrim::u16_le()), field("c", IntPrim::u8_le())]),
        field("a", IntPrim::u32_be()),
    ]);
    let mut names = layout.names();
    names.sort();
    assert_eq!(names, vec!["a".to_string(), "b".to_string(), "c".to_string()]);
}

#[test]
fn names_includes_bitfield_entries() {
    let bits = BitPrim::new(
        vec![
            ("flag".to_string(), 1, IntPrim::u8_be()),
            ("mode".to_string(), 3, IntPrim::u8_be()),
        ],
        IntSize::Bits8,
    )
    .unwrap();
    let layout = Layout::Sequence(vec![field("head", IntPrim::u8_be()), Layout::Bits(bits)]);
    let mut names = layout.names();
    names.sort();
    assert_eq!(
        names,
        vec!["flag".to_string(), "head".to_string(), "mode".to_string()]
    );
}

#[test]
fn locate_rejects_bits_nodes() {
    let bits = BitPrim::new(
        vec![("flag".to_string(), 1, IntPrim::u8_be())],
        IntSize::Bits8,
    )
    .unwrap();
    let layout = Layout::Sequence(vec![field("head", IntPrim::u8_be()), Layout::Bits(bits)]);
    assert_eq!(layout.num_bytes(), 2);
    assert_eq!(layout.locate().unwrap_err(), Unsupported::BitsLocate);
}

#[test]
fn bit_prim_rejects_oversubscribed_widths() {
    let r = BitPrim::new(
        vec![
            ("hi".to_string(), 5, IntPrim::u8_be()),
            ("lo".to_string(), 4, IntPrim::u8_be()),
        ],
        IntSize::Bits8,
    );
    assert_eq!(r, Err(SchemaInvalid::OversubscribedBits));
}

#[test]
fn bit_prim_allows_undersubscribed_widths() {
    let b = BitPrim::new(
        vec![
            ("hi".to_string(), 5, IntPrim::u8_be()),
            ("lo".to_string(), 2, IntPrim::u8_be()),
        ],
        IntSize::Bits8,
    )
    .unwrap();
    assert_eq!(b.num_bytes(), 1);
}

#[test]
fn int_prim_constructors() {
    let u16be = IntPrim::u16_be();
    assert_eq!(u16be.size, IntSize::Bits16);
    assert_eq!(u16be.signedness, Signedness::Unsigned);
    assert_eq!(u16be.endianness, Endianness::BigEndian);
    assert_eq!(u16be.num_bytes(), 2);

    let i8be = IntPrim::i8_be();
    assert_eq!(i8be.size, IntSize::Bits8);
    assert_eq!(i8be.signedness, Signedness::Signed);
    assert_eq!(i8be.endianness, Endianness::BigEndian);
    assert_eq!(i8be.num_bytes(), 1);

    let i64le = IntPrim::i64_le();
    assert_eq!(i64le.size, IntSize::Bits64);
    assert_eq!(i64le.signedness, Signedness::Signed);
    assert_eq!(i64le.endianness, Endianness::LittleEndian);
    assert_eq!(i64le.num_bytes(), 8);

    assert_eq!(IntPrim::u8_le().num_bytes(), 1);
    assert_eq!(IntPrim::u32_be().num_bytes(), 4);
    assert_eq!(IntPrim::u64_be().num_bytes(), 8);
    assert_eq!(IntPrim::u64_le().num_bytes(), 8);
    assert_eq!(IntPrim::i16_be().num_bytes(), 2);
    assert_eq!(IntPrim::i16_le().num_bytes(), 2);
    assert_eq!(IntPrim::i32_le().num_bytes(), 4);
    assert_eq!(IntPrim::i64_be().num_bytes(), 8);
    assert_eq!(IntPrim::i8_le().num_bytes(), 1);
    assert_eq!(IntPrim::u16_le().num_bytes(), 2);
    assert_eq!(IntPrim::u32_le().num_bytes(), 4);
    assert_eq!(IntPrim::u8_be().num_bytes(), 1);
}

#[test]
fn empty_sequence_and_empty_all() {
    let seq = Layout::Sequence(vec![]);
    assert_eq!(seq.num_bytes(), 0);
    let located = seq.locate().unwrap();
    assert_eq!(located.num_bytes, 0);
    assert!(located.loc_items.is_empty());

    let all = Layout::All(vec![]);
    assert_eq!(all.num_bytes(), 0);
    let located = all.locate().unwrap();
    assert_eq!(located.num_bytes, 0);
    assert!(located.loc_items.is_empty());
}

#[test]
fn nested_all_inside_sequence_keeps_cursor_consistent() {
    // Sequence(a u16, All(Sequence(b u8, c u8), d u32), e u8):
    // the All spans max(2, 4) = 4 bytes from offset 2, so e stands at 6.
    let layout = Layout::Sequence(vec![
        field("a", IntPrim::u16_be()),
        Layout::All(vec![
            Layout::Sequence(vec![field("b", IntPrim::u8_be()), field("c", IntPrim::u8_be())]),
            field("d", IntPrim::u32_le()),
        ]),
        field("e", IntPrim::u8_be()),
    ]);
    assert_eq!(layout.num_bytes(), 2 + 4 + 1);
    let located = layout.locate().unwrap();
    assert_eq!(located.num_bytes, 7);
    let pairs: Vec<(String, u64)> = located
        .loc_items
        .iter()
        .map(|li| (li.name.clone(), li.loc))
        .collect();
    assert_eq!(
        pairs,
        vec![
            ("a".to_string(), 0),
            ("b".to_string(), 2),
            ("c".to_string(), 3),
            ("d".to_string(), 2),
            ("e".to_string(), 6),
        ]
    );
}

#[test]
fn locate_loc_threads_a_nonzero_cursor() {
    let layout = Layout::Sequence(vec![
        field("a", IntPrim::u16_be()),
        field("b", IntPrim::u32_le()),
    ]);
    let mut items = Vec::new();
    let mut loc: u64 = 10;
    layout.locate_loc(&mut items, &mut loc).unwrap();
    assert_eq!(loc, 16);
    assert_eq!(items.len(), 2);
    assert_eq!(items[0].loc, 10);
    assert_eq!(items[1].loc, 12);
    assert_eq!(items[0].num_bytes(), 2);
    assert_eq!(items[1].num_bytes(), 4);
}

#[test]
fn item_and_loc_item_report_their_primitive_size() {
    let item = Item::new("a".to_string(), Prim::Int(IntPrim::u32_be()));
    assert_eq!(item.num_bytes(), 4);
    let li = packet_layout::layout::LocItem::new(
        "a".to_string(),
        Prim::Int(IntPrim::u32_be()),
        7,
    );
    assert_eq!(li.loc, 7);
    assert_eq!(li.num_bytes(), 4);
}

#[test]
fn float_prim_sizes() {
    assert_eq!(FloatPrim::F32(Endianness::LittleEndian).num_bytes(), 4);
    assert_eq!(FloatPrim::F64(Endianness::BigEndian).num_bytes(), 8);
    assert_eq!(Prim::Float(FloatPrim::F64(Endianness::LittleEndian)).num_bytes(), 8);
}

#[test]
fn pure_sequence_flattening_leaves_no_gaps() {
    let layout = Layout::Sequence(vec![
        field("a", IntPrim::u16_be()),
        Layout::Sequence(vec![field("b", IntPrim::u8_be()), field("c", IntPrim::u64_le())]),
        field("d", IntPrim::u32_be()),
    ]);
    let located = layout.locate().unwrap();
    // Each field begins where its predecessor ended, from offset zero on.
    let mut cursor = 0u64;
    for li in &located.loc_items {
        assert_eq!(li.loc, cursor);
        cursor += li.num_bytes();
    }
    // Re-summing the last field's offset plus its size gives the total.
    let last = located.loc_items.last().unwrap();
    assert_eq!(last.loc + last.num_bytes(), located.num_bytes);
    assert_eq!(located.num_bytes, 15);
}
