//! Primitive scalar type descriptors: sized, signed, endian integers,
//! IEEE floats, bitfield containers and named integer enumerations.
//!
//! Every primitive has a fixed byte footprint, independent of any data;
//! the [`NumBytes`] trait exposes it.

use vstd::prelude::*;

verus! {

/// The name of a field.
pub type Name = String;

/// Every type descriptor knows its fixed byte footprint.
pub trait NumBytes {
    /// The byte footprint as a mathematical value.
    spec fn spec_num_bytes(&self) -> nat;

    /// The byte footprint of this descriptor.
    fn num_bytes(&self) -> (r: u64)
        requires
            self.spec_num_bytes() <= u64::MAX,
        ensures
            r == self.spec_num_bytes(),
    ;
}

/// Byte order of a multi-byte encoding.
#[derive(Clone, Copy, PartialEq, Eq, Hash, Debug, Structural)]
pub enum Endianness {
    BigEndian,
    LittleEndian,
}

/// Width of an integer container: 8, 16, 32 or 64 bits.
#[derive(Clone, Copy, PartialEq, Eq, Hash, Debug, Structural)]
pub enum IntSize {
    Bits8,
    Bits16,
    Bits32,
    Bits64,
}

/// The byte footprint of an integer container width.
pub open spec fn int_size_bytes(s: IntSize) -> nat {
    match s {
        IntSize::Bits8 => 1,
        IntSize::Bits16 => 2,
        IntSize::Bits32 => 4,
        IntSize::Bits64 => 8,
    }
}

impl NumBytes for IntSize {
    open spec fn spec_num_bytes(&self) -> nat {
        int_size_bytes(*self)
    }

    fn num_bytes(&self) -> (r: u64) {
        match self {
            IntSize::Bits8 => 1,
            IntSize::Bits16 => 2,
            IntSize::Bits32 => 4,
            IntSize::Bits64 => 8,
        }
    }
}

/// Whether an integer encoding carries a sign.
#[derive(Clone, Copy, PartialEq, Eq, Hash, Debug, Structural)]
pub enum Signedness {
    Unsigned,
    Signed,
}

/// An IEEE float encoding, 32 or 64 bit wide, with its byte order.
#[derive(Clone, Copy, PartialEq, Eq, Hash, Debug, Structural)]
pub enum FloatPrim {
    F32(Endianness),
    F64(Endianness),
}

/// The byte footprint of a float encoding.
pub open spec fn float_prim_bytes(f: FloatPrim) -> nat {
    match f {
        FloatPrim::F32(_) => 4,
        FloatPrim::F64(_) => 8,
    }
}

impl NumBytes for FloatPrim {
    open spec fn spec_num_bytes(&self) -> nat {
        float_prim_bytes(*self)
    }

    fn num_bytes(&self) -> (r: u64) {
        match self {
            FloatPrim::F32(_) => 4,
            FloatPrim::F64(_) => 8,
        }
    }
}

/// A sized, signed, endian integer encoding.
#[derive(Clone, Copy, PartialEq, Eq, Hash, Debug, Structural)]
pub struct IntPrim {
    pub size: IntSize,
    pub signedness: Signedness,
    pub endianness: Endianness,
}

impl NumBytes for IntPrim {
    open spec fn spec_num_bytes(&self) -> nat {
        int_size_bytes(self.size)
    }

    fn num_bytes(&self) -> (r: u64) {
        self.size.num_bytes()
    }
}

impl IntPrim {
    pub fn new(size: IntSize, signedness: Signedness, endianness: Endianness) -> (r: Self)
        ensures
            r == (IntPrim { size, signedness, endianness }),
    {
        IntPrim { size, signedness, endianness }
    }

    pub fn u8_be() -> (r: Self)
        ensures
            r == (IntPrim {
                size: IntSize::Bits8,
                signedness: Signedness::Unsigned,
                endianness: Endianness::BigEndian,
            }),
    {
        IntPrim::new(IntSize::Bits8, Signedness::Unsigned, Endianness::BigEndian)
    }

    pub fn u8_le() -> (r: Self)
        ensures
            r == (IntPrim {
                size: IntSize::Bits8,
                signedness: Signedness::Unsigned,
                endianness: Endianness::LittleEndian,
            }),
    {
        IntPrim::new(IntSize::Bits8, Signedness::Unsigned, Endianness::LittleEndian)
    }

    pub fn u16_be() -> (r: Self)
        ensures
            r == (IntPrim {
                size: IntSize::Bits16,
                signedness: Signedness::Unsigned,
                endianness: Endianness::BigEndian,
            }),
    {
        IntPrim::new(IntSize::Bits16, Signedness::Unsigned, Endianness::BigEndian)
    }

    pub fn u16_le() -> (r: Self)
        ensures
            r == (IntPrim {
                size: IntSize::Bits16,
                signedness: Signedness::Unsigned,
                endianness: Endianness::LittleEndian,
            }),
    {
        IntPrim::new(IntSize::Bits16, Signedness::Unsigned, Endianness::LittleEndian)
    }

    pub fn u32_be() -> (r: Self)
        ensures
            r == (IntPrim {
                size: IntSize::Bits32,
                signedness: Signedness::Unsigned,
                endianness: Endianness::BigEndian,
            }),
    {
        IntPrim::new(IntSize::Bits32, Signedness::Unsigned, Endianness::BigEndian)
    }

    pub fn u32_le() -> (r: Self)
        ensures
            r == (IntPrim {
                size: IntSize::Bits32,
                signedness: Signedness::Unsigned,
                endianness: Endianness::LittleEndian,
            }),
    {
        IntPrim::new(IntSize::Bits32, Signedness::Unsigned, Endianness::LittleEndian)
    }

    pub fn u64_be() -> (r: Self)
        ensures
            r == (IntPrim {
                size: IntSize::Bits64,
                signedness: Signedness::Unsigned,
                endianness: Endianness::BigEndian,
            }),
    {
        IntPrim::new(IntSize::Bits64, Signedness::Unsigned, Endianness::BigEndian)
    }

    pub fn u64_le() -> (r: Self)
        ensures
            r == (IntPrim {
                size: IntSize::Bits64,
                signedness: Signedness::Unsigned,
                endianness: Endianness::LittleEndian,
            }),
    {
        IntPrim::new(IntSize::Bits64, Signedness::Unsigned, Endianness::LittleEndian)
    }

    pub fn i8_be() -> (r: Self)
        ensures
            r == (IntPrim {
                size: IntSize::Bits8,
                signedness: Signedness::Signed,
                endianness: Endianness::BigEndian,
            }),
    {
        IntPrim::new(IntSize::Bits8, Signedness::Signed, Endianness::BigEndian)
    }

    pub fn i8_le() -> (r: Self)
        ensures
            r == (IntPrim {
                size: IntSize::Bits8,
                signedness: Signedness::Signed,
                endianness: Endianness::LittleEndian,
            }),
    {
        IntPrim::new(IntSize::Bits8, Signedness::Signed, Endianness::LittleEndian)
    }

    pub fn i16_be() -> (r: Self)
        ensures
            r == (IntPrim {
                size: IntSize::Bits16,
                signedness: Signedness::Signed,
                endianness: Endianness::BigEndian,
            }),
    {
        IntPrim::new(IntSize::Bits16, Signedness::Signed, Endianness::BigEndian)
    }

    pub fn i16_le() -> (r: Self)
        ensures
            r == (IntPrim {
                size: IntSize::Bits16,
                signedness: Signedness::Signed,
                endianness: Endianness::LittleEndian,
            }),
    {
        IntPrim::new(IntSize::Bits16, Signedness::Signed, Endianness::LittleEndian)
    }

    pub fn i32_be() -> (r: Self)
        ensures
            r == (IntPrim {
                size: IntSize::Bits32,
                signedness: Signedness::Signed,
                endianness: Endianness::BigEndian,
            }),
    {
        IntPrim::new(IntSize::Bits32, Signedness::Signed, Endianness::BigEndian)
    }

    pub fn i32_le() -> (r: Self)
        ensures
            r == (IntPrim {
                size: IntSize::Bits32,
                signedness: Signedness::Signed,
                endianness: Endianness::LittleEndian,
            }),
    {
        IntPrim::new(IntSize::Bits32, Signedness::Signed, Endianness::LittleEndian)
    }

    pub fn i64_be() -> (r: Self)
        ensures
            r == (IntPrim {
                size: IntSize::Bits64,
                signedness: Signedness::Signed,
                endianness: Endianness::BigEndian,
            }),
    {
        IntPrim::new(IntSize::Bits64, Signedness::Signed, Endianness::BigEndian)
    }

    pub fn i64_le() -> (r: Self)
        ensures
            r == (IntPrim {
                size: IntSize::Bits64,
                signedness: Signedness::Signed,
                endianness: Endianness::LittleEndian,
            }),
    {
        IntPrim::new(IntSize::Bits64, Signedness::Signed, Endianness::LittleEndian)
    }
}

/// Why a schema construction was rejected.
#[derive(Clone, Copy, PartialEq, Eq, Hash, Debug, Structural)]
pub enum SchemaInvalid {
    /// The declared sub-field bit widths of a bitfield exceed its container width.
    OversubscribedBits,
    /// Two keys of a discriminant table are equal.
    DuplicateKey,
}

/// A fixed-size integer container split into named sub-bit-fields.
///
/// Each entry is a field name, its width in bits, and the integer encoding
/// that backs it.  The container size (`num_bytes`) is authoritative for the
/// byte footprint; [`BitPrim::new`] rejects entries whose widths together
/// exceed the container width, while under-subscription is allowed.
#[derive(Clone, PartialEq, Eq, Hash, Debug)]
pub struct BitPrim {
    pub entries: Vec<(Name, u32, IntPrim)>,
    pub num_bytes: IntSize,
}

/// The mathematical value of a [`BitPrim`].
pub ghost struct BitPrimV {
    pub entries: Seq<(Seq<char>, u32, IntPrim)>,
    pub size: IntSize,
}

impl View for BitPrim {
    type V = BitPrimV;

    open spec fn view(&self) -> BitPrimV {
        BitPrimV {
            entries: self.entries@.map_values(|e: (Name, u32, IntPrim)| (e.0@, e.1, e.2)),
            size: self.num_bytes,
        }
    }
}

/// The sum of the declared bit widths of the entries from index `i` on.
pub open spec fn bit_widths_from(es: Seq<(Seq<char>, u32, IntPrim)>, i: int) -> nat
    decreases es.len() - i,
{
    if 0 <= i < es.len() {
        (es[i].1 + bit_widths_from(es, i + 1)) as nat
    } else {
        0
    }
}

/// A bitfield is well formed when its declared widths fit the container.
pub open spec fn bit_prim_wf(b: BitPrimV) -> bool {
    bit_widths_from(b.entries, 0) <= 8 * int_size_bytes(b.size)
}

impl NumBytes for BitPrim {
    open spec fn spec_num_bytes(&self) -> nat {
        int_size_bytes(self.num_bytes)
    }

    fn num_bytes(&self) -> (r: u64) {
        self.num_bytes.num_bytes()
    }
}

impl BitPrim {
    /// Builds a bitfield container, rejecting one whose declared sub-field
    /// widths together exceed the container width.
    pub fn new(entries: Vec<(Name, u32, IntPrim)>, num_bytes: IntSize) -> (r: Result<
        Self,
        SchemaInvalid,
    >)
        ensures
            match r {
                Ok(b) => b == (BitPrim { entries, num_bytes }) && bit_prim_wf(b@),
                Err(e) => e == SchemaInvalid::OversubscribedBits && !bit_prim_wf(
                    (BitPrim { entries, num_bytes })@,
                ),
            },
    {
        let limit: u64 = num_bytes.num_bytes() * 8;
        let ghost es = (BitPrim { entries, num_bytes })@.entries;
        let mut total: u64 = 0;
        let mut i: usize = 0;
        while i < entries.len()
            invariant
                i <= entries.len(),
                es == (BitPrim { entries, num_bytes })@.entries,
                limit == 8 * int_size_bytes(num_bytes),
                total <= limit,
                total + bit_widths_from(es, i as int) == bit_widths_from(es, 0),
            decreases entries.len() - i,
        {
            let width = entries[i].1 as u64;
            assert(es[i as int].1 == entries@[i as int].1);
            if width > limit - total {
                assert(bit_widths_from(es, 0) >= total + width);
                return Err(SchemaInvalid::OversubscribedBits);
            }
            total = total + width;
            i = i + 1;
        }
        Ok(BitPrim { entries, num_bytes })
    }
}

/// A set of named integer constants over a backing integer encoding.
///
/// The map is a list of `(key, name)` pairs; [`Enum::new`] rejects a list
/// with two equal keys.
#[derive(PartialEq, Eq, Hash, Debug)]
pub struct Enum {
    pub map: Vec<(i64, Name)>,
    pub int_prim: IntPrim,
}

/// The mathematical value of an [`Enum`].
pub ghost struct EnumV {
    pub map: Seq<(i64, Seq<char>)>,
    pub int_prim: IntPrim,
}

impl View for Enum {
    type V = EnumV;

    open spec fn view(&self) -> EnumV {
        EnumV { map: self.map@.map_values(|e: (i64, Name)| (e.0, e.1@)), int_prim: self.int_prim }
    }
}

/// An enumeration is well formed when its keys are pairwise distinct.
pub open spec fn enum_wf(e: EnumV) -> bool {
    forall|i: int, j: int| 0 <= i < j < e.map.len() ==> e.map[i].0 != e.map[j].0
}

impl NumBytes for Enum {
    open spec fn spec_num_bytes(&self) -> nat {
        int_size_bytes(self.int_prim.size)
    }

    fn num_bytes(&self) -> (r: u64) {
        self.int_prim.num_bytes()
    }
}

impl Clone for Enum {
    /// A clone has the same mathematical value.
    fn clone(&self) -> (r: Self)
        ensures
            r@ == self@,
    {
        let mut map: Vec<(i64, Name)> = Vec::new();
        let mut i: usize = 0;
        while i < self.map.len()
            invariant
                i <= self.map.len(),
                map@.len() == i as int,
                forall|k: int|
                    0 <= k < i ==> map@[k].0 == self.map@[k].0 && map@[k].1@ == self.map@[k].1@,
            decreases self.map.len() - i,
        {
            let key = self.map[i].0;
            let name = self.map[i].1.clone();
            map.push((key, name));
            i = i + 1;
        }
        let r = Enum { map, int_prim: self.int_prim };
        proof {
            assert(r@.map =~= self@.map);
        }
        r
    }
}

impl Enum {
    /// Builds an enumeration, rejecting a map with two equal keys.
    pub fn new(map: Vec<(i64, Name)>, int_prim: IntPrim) -> (r: Result<Self, SchemaInvalid>)
        ensures
            match r {
                Ok(e) => e == (Enum { map, int_prim }) && enum_wf(e@),
                Err(e) => e == SchemaInvalid::DuplicateKey && !enum_wf((Enum { map, int_prim })@),
            },
    {
        let ghost ev = (Enum { map, int_prim })@;
        let mut i: usize = 0;
        while i < map.len()
            invariant
                i <= map.len(),
                ev == (Enum { map, int_prim })@,
                forall|p: int, q: int| 0 <= p < q < i ==> ev.map[p].0 != ev.map[q].0,
            decreases map.len() - i,
        {
            let mut j: usize = 0;
            while j < i
                invariant
                    j <= i < map.len(),
                    ev == (Enum { map, int_prim })@,
                    forall|q: int| 0 <= q < j ==> ev.map[q].0 != ev.map[i as int].0,
                decreases i - j,
            {
                if map[j].0 == map[i].0 {
                    proof {
                        assert(ev.map[j as int].0 == map@[j as int].0);
                        assert(ev.map[i as int].0 == map@[i as int].0);
                        assert(!enum_wf(ev));
                    }
                    return Err(SchemaInvalid::DuplicateKey);
                }
                j = j + 1;
            }
            i = i + 1;
        }
        Ok(Enum { map, int_prim })
    }
}

/// Any scalar kind: integer, float or enumeration.
#[derive(PartialEq, Eq, Hash, Debug)]
pub enum Prim {
    Int(IntPrim),
    Float(FloatPrim),
    Enum(Enum),
}

/// The mathematical value of a [`Prim`].
pub ghost enum PrimV {
    Int(IntPrim),
    Float(FloatPrim),
    Enum(EnumV),
}

impl View for Prim {
    type V = PrimV;

    open spec fn view(&self) -> PrimV {
        match self {
            Prim::Int(ip) => PrimV::Int(*ip),
            Prim::Float(fp) => PrimV::Float(*fp),
            Prim::Enum(e) => PrimV::Enum(e@),
        }
    }
}

/// The byte footprint of a scalar kind.
pub open spec fn prim_v_bytes(p: PrimV) -> nat {
    match p {
        PrimV::Int(ip) => int_size_bytes(ip.size),
        PrimV::Float(fp) => float_prim_bytes(fp),
        PrimV::Enum(e) => int_size_bytes(e.int_prim.size),
    }
}

impl NumBytes for Prim {
    open spec fn spec_num_bytes(&self) -> nat {
        prim_v_bytes(self@)
    }

    fn num_bytes(&self) -> (r: u64) {
        match self {
            Prim::Int(ip) => ip.num_bytes(),
            Prim::Float(fp) => fp.num_bytes(),
            Prim::Enum(e) => e.num_bytes(),
        }
    }
}

impl Clone for Prim {
    /// A clone has the same mathematical value.
    fn clone(&self) -> (r: Self)
        ensures
            r@ == self@,
    {
        match self {
            Prim::Int(ip) => Prim::Int(*ip),
            Prim::Float(fp) => Prim::Float(*fp),
            Prim::Enum(e) => Prim::Enum(e.clone()),
        }
    }
}

} // verus!
