//! Packet- and protocol-level composition of layouts.
//!
//! A [`Packet`] groups layouts into sequences or discriminant-keyed
//! sub-structures; a [`Protocol`] adds ordered conditional branching over
//! sets of primitive values.  Evaluation against decoded data is an
//! external decode engine's concern; this module shapes the structures and
//! validates their discriminant tables.

use crate::layout::{Item, ItemV, Layout};
use crate::prim::{Enum, FloatPrim, IntPrim, Prim, PrimV, SchemaInvalid};
use vstd::prelude::*;

verus! {

/// Packet-level structure: a sequence of packets, a discriminant-keyed
/// table of sub-packets, or a plain layout.
///
/// A `Subcom` entry associates an ordered list of already-decoded fields
/// with the packet to decode next; lookup is exact match on the ordered
/// key.  [`Packet::subcom`] rejects a table with two equal keys.
#[derive(PartialEq, Eq, Debug)]
pub enum Packet {
    Sequence(Vec<Packet>),
    Subcom(Vec<(Vec<Item>, Packet)>),
    Layout(Layout),
}

/// Top-level protocol structure: a sequence, an ordered list of branches
/// guarded by sets of acceptable primitive values, a layout, or a packet.
///
/// Branch order defines match priority: a decode engine must take the first
/// matching entry.  [`Protocol::branch`] rejects a list with two equal
/// guards.
#[derive(PartialEq, Eq, Debug)]
pub enum Protocol {
    Sequence(Vec<Protocol>),
    Branch(Vec<(Vec<Prim>, Protocol)>),
    Layout(Layout),
    Packet(Packet),
}

/// The mathematical values of a list of fields.
pub open spec fn items_view(s: Seq<Item>) -> Seq<ItemV> {
    s.map_values(|it: Item| it@)
}

/// The mathematical values of a list of primitives.
pub open spec fn prims_view(s: Seq<Prim>) -> Seq<PrimV> {
    s.map_values(|p: Prim| p@)
}

/// Whether the keys of a `Subcom` table are pairwise distinct.
pub open spec fn distinct_item_keys(entries: Seq<(Vec<Item>, Packet)>) -> bool {
    forall|i: int, j: int|
        0 <= i < j < entries.len() ==> items_view(entries[i].0@) != items_view(entries[j].0@)
}

/// Whether the guards of a `Branch` list are pairwise distinct.
pub open spec fn distinct_prim_keys(arms: Seq<(Vec<Prim>, Protocol)>) -> bool {
    forall|i: int, j: int|
        0 <= i < j < arms.len() ==> prims_view(arms[i].0@) != prims_view(arms[j].0@)
}

/// Whether two enumerations have the same mathematical value.
fn enum_eq(a: &Enum, b: &Enum) -> (r: bool)
    ensures
        r == (a@ == b@),
{
    if a.int_prim != b.int_prim {
        return false;
    }
    if a.map.len() != b.map.len() {
        assert(a@.map.len() != b@.map.len());
        return false;
    }
    let mut i: usize = 0;
    while i < a.map.len()
        invariant
            i <= a.map.len(),
            a.map.len() == b.map.len(),
            a.int_prim == b.int_prim,
            forall|k: int| 0 <= k < i ==> a@.map[k] == b@.map[k],
        decreases a.map.len() - i,
    {
        if a.map[i].0 != b.map[i].0 || a.map[i].1 != b.map[i].1 {
            assert(a@.map[i as int] != b@.map[i as int]);
            return false;
        }
        assert(a@.map[i as int] == b@.map[i as int]);
        i = i + 1;
    }
    proof {
        assert(a@.map =~= b@.map);
    }
    true
}

/// Whether two primitives have the same mathematical value.
fn prim_eq(a: &Prim, b: &Prim) -> (r: bool)
    ensures
        r == (a@ == b@),
{
    match (a, b) {
        (Prim::Int(x), Prim::Int(y)) => x == y,
        (Prim::Float(x), Prim::Float(y)) => x == y,
        (Prim::Enum(x), Prim::Enum(y)) => enum_eq(x, y),
        _ => false,
    }
}

/// Whether two fields have the same mathematical value.
fn item_eq(a: &Item, b: &Item) -> (r: bool)
    ensures
        r == (a@ == b@),
{
    if a.name != b.name {
        return false;
    }
    prim_eq(&a.typ, &b.typ)
}

/// Whether two ordered field lists have the same mathematical value.
fn items_eq(a: &Vec<Item>, b: &Vec<Item>) -> (r: bool)
    ensures
        r == (items_view(a@) == items_view(b@)),
{
    if a.len() != b.len() {
        assert(items_view(a@).len() != items_view(b@).len());
        return false;
    }
    let mut i: usize = 0;
    while i < a.len()
        invariant
            i <= a.len(),
            a.len() == b.len(),
            forall|k: int| 0 <= k < i ==> items_view(a@)[k] == items_view(b@)[k],
        decreases a.len() - i,
    {
        if !item_eq(&a[i], &b[i]) {
            assert(items_view(a@)[i as int] != items_view(b@)[i as int]);
            return false;
        }
        assert(items_view(a@)[i as int] == items_view(b@)[i as int]);
        i = i + 1;
    }
    proof {
        assert(items_view(a@) =~= items_view(b@));
    }
    true
}

/// Whether two ordered primitive lists have the same mathematical value.
fn prims_eq(a: &Vec<Prim>, b: &Vec<Prim>) -> (r: bool)
    ensures
        r == (prims_view(a@) == prims_view(b@)),
{
    if a.len() != b.len() {
        assert(prims_view(a@).len() != prims_view(b@).len());
        return false;
    }
    let mut i: usize = 0;
    while i < a.len()
        invariant
            i <= a.len(),
            a.len() == b.len(),
            forall|k: int| 0 <= k < i ==> prims_view(a@)[k] == prims_view(b@)[k],
        decreases a.len() - i,
    {
        if !prim_eq(&a[i], &b[i]) {
            assert(prims_view(a@)[i as int] != prims_view(b@)[i as int]);
            return false;
        }
        assert(prims_view(a@)[i as int] == prims_view(b@)[i as int]);
        i = i + 1;
    }
    proof {
        assert(prims_view(a@) =~= prims_view(b@));
    }
    true
}

impl Packet {
    /// Builds a discriminant-keyed table of sub-packets, rejecting one with
    /// two equal keys.
    pub fn subcom(entries: Vec<(Vec<Item>, Packet)>) -> (r: Result<Packet, SchemaInvalid>)
        ensures
            match r {
                Ok(p) => p == Packet::Subcom(entries) && distinct_item_keys(entries@),
                Err(e) => e == SchemaInvalid::DuplicateKey && !distinct_item_keys(entries@),
            },
    {
        let mut i: usize = 0;
        while i < entries.len()
            invariant
                i <= entries.len(),
                forall|p: int, q: int|
                    0 <= p < q < i ==> items_view(entries@[p].0@) != items_view(entries@[q].0@),
            decreases entries.len() - i,
        {
            let mut j: usize = 0;
            while j < i
                invariant
                    j <= i < entries.len(),
                    forall|q: int|
                        0 <= q < j ==> items_view(entries@[q].0@) != items_view(
                            entries@[i as int].0@,
                        ),
                decreases i - j,
            {
                if items_eq(&entries[j].0, &entries[i].0) {
                    return Err(SchemaInvalid::DuplicateKey);
                }
                j = j + 1;
            }
            i = i + 1;
        }
        Ok(Packet::Subcom(entries))
    }
}

impl Protocol {
    /// Builds an ordered branch list, rejecting one with two equal guards.
    pub fn branch(arms: Vec<(Vec<Prim>, Protocol)>) -> (r: Result<Protocol, SchemaInvalid>)
        ensures
            match r {
                Ok(p) => p == Protocol::Branch(arms) && distinct_prim_keys(arms@),
                Err(e) => e == SchemaInvalid::DuplicateKey && !distinct_prim_keys(arms@),
            },
    {
        let mut i: usize = 0;
        while i < arms.len()
            invariant
                i <= arms.len(),
                forall|p: int, q: int|
                    0 <= p < q < i ==> prims_view(arms@[p].0@) != prims_view(arms@[q].0@),
            decreases arms.len() - i,
        {
            let mut j: usize = 0;
            while j < i
                invariant
                    j <= i < arms.len(),
                    forall|q: int|
                        0 <= q < j ==> prims_view(arms@[q].0@) != prims_view(arms@[i as int].0@),
                decreases i - j,
            {
                if prims_eq(&arms[j].0, &arms[i].0) {
                    return Err(SchemaInvalid::DuplicateKey);
                }
                j = j + 1;
            }
            i = i + 1;
        }
        Ok(Protocol::Branch(arms))
    }
}

} // verus!
