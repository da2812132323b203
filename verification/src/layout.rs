//! The layout algebra: a recursive structural type composing primitives
//! into sequential (`Sequence`) and overlapping (`All`) structures.
//!
//! From a [`Layout`] the algebra derives the total byte footprint
//! ([`NumBytes::num_bytes`]), the set of field names ([`Layout::names`]) and
//! the flattened list of named fields with absolute byte offsets
//! ([`Layout::locate`]).

use crate::prim::{prim_v_bytes, int_size_bytes, BitPrim, Name, NumBytes, Prim, PrimV};
use vstd::prelude::*;

verus! {

/// An absolute byte offset.
pub type Loc = u64;

/// A named scalar field.
#[derive(PartialEq, Eq, Hash, Debug)]
pub struct Item {
    pub name: Name,
    pub typ: Prim,
}

/// The mathematical value of an [`Item`].
pub ghost struct ItemV {
    pub name: Seq<char>,
    pub typ: PrimV,
}

impl View for Item {
    type V = ItemV;

    open spec fn view(&self) -> ItemV {
        ItemV { name: self.name@, typ: self.typ@ }
    }
}

impl NumBytes for Item {
    open spec fn spec_num_bytes(&self) -> nat {
        prim_v_bytes(self.typ@)
    }

    fn num_bytes(&self) -> (r: u64) {
        self.typ.num_bytes()
    }
}

impl Item {
    pub fn new(name: Name, typ: Prim) -> (r: Self)
        ensures
            r@ == (ItemV { name: name@, typ: typ@ }),
    {
        Item { name, typ }
    }
}

/// A named scalar field with a resolved absolute byte offset.
///
/// Produced by [`Layout::locate`], never hand-constructed by the library.
#[derive(PartialEq, Eq, Hash, Debug)]
pub struct LocItem {
    pub name: Name,
    pub typ: Prim,
    pub loc: Loc,
}

/// The mathematical value of a [`LocItem`]: a field name, its scalar kind
/// and its absolute byte offset.
pub ghost struct PlacedItem {
    pub name: Seq<char>,
    pub typ: PrimV,
    pub loc: int,
}

impl View for LocItem {
    type V = PlacedItem;

    open spec fn view(&self) -> PlacedItem {
        PlacedItem { name: self.name@, typ: self.typ@, loc: self.loc as int }
    }
}

impl NumBytes for LocItem {
    open spec fn spec_num_bytes(&self) -> nat {
        prim_v_bytes(self.typ@)
    }

    fn num_bytes(&self) -> (r: u64) {
        self.typ.num_bytes()
    }
}

impl LocItem {
    pub fn new(name: Name, typ: Prim, loc: Loc) -> (r: LocItem)
        ensures
            r@ == (PlacedItem { name: name@, typ: typ@, loc: loc as int }),
    {
        LocItem { name, typ, loc }
    }
}

/// The flattened result of a [`Layout`]: the located fields in order, and
/// the total byte footprint of the source layout.
#[derive(Debug)]
pub struct LocLayout {
    pub loc_items: Vec<LocItem>,
    pub num_bytes: u64,
}

impl NumBytes for LocLayout {
    open spec fn spec_num_bytes(&self) -> nat {
        self.num_bytes as nat
    }

    fn num_bytes(&self) -> (r: u64) {
        self.num_bytes
    }
}

/// A recursive structural type describing how scalar fields are arranged
/// in bytes.
///
/// `Prim` is a single named field; `Sequence` places its children back to
/// back; `All` overlays its children at one offset, as a union does; `Bits`
/// is a bitfield container.
#[derive(PartialEq, Eq, Debug)]
pub enum Layout {
    Prim(Item),
    Sequence(Vec<Layout>),
    All(Vec<Layout>),
    Bits(BitPrim),
}

/// Flattening a `Bits` node is not supported.
#[derive(Clone, Copy, PartialEq, Eq, Hash, Debug, Structural)]
pub enum Unsupported {
    /// A `Bits` node was reached while locating a layout.
    BitsLocate,
}

/// The byte footprint of a layout: the size of a single field, the sum over
/// a `Sequence`, the maximum over an `All`, and the container size of a `Bits`.
pub open spec fn layout_size(l: Layout) -> nat
    decreases l,
{
    match l {
        Layout::Prim(item) => prim_v_bytes(item.typ@),
        Layout::Sequence(cs) => sum_sizes(cs@, 0),
        Layout::All(cs) => max_sizes(cs@, 0),
        Layout::Bits(b) => int_size_bytes(b.num_bytes),
    }
}

/// The sum of the sizes of the layouts from index `i` on.
pub open spec fn sum_sizes(s: Seq<Layout>, i: int) -> nat
    decreases s, s.len() - i,
{
    if 0 <= i < s.len() {
        layout_size(s[i]) + sum_sizes(s, i + 1)
    } else {
        0
    }
}

/// The maximum of the sizes of the layouts from index `i` on.
pub open spec fn max_sizes(s: Seq<Layout>, i: int) -> nat
    decreases s, s.len() - i,
{
    if 0 <= i < s.len() {
        if layout_size(s[i]) > max_sizes(s, i + 1) {
            layout_size(s[i])
        } else {
            max_sizes(s, i + 1)
        }
    } else {
        0
    }
}

/// Whether the layout holds a `Bits` node anywhere.
pub open spec fn has_bits(l: Layout) -> bool
    decreases l,
{
    match l {
        Layout::Prim(_) => false,
        Layout::Sequence(cs) => seq_has_bits(cs@, 0),
        Layout::All(cs) => seq_has_bits(cs@, 0),
        Layout::Bits(_) => true,
    }
}

/// Whether any layout from index `i` on holds a `Bits` node.
pub open spec fn seq_has_bits(s: Seq<Layout>, i: int) -> bool
    decreases s, s.len() - i,
{
    if 0 <= i < s.len() {
        has_bits(s[i]) || seq_has_bits(s, i + 1)
    } else {
        false
    }
}

/// The set of field names reachable by walking `Prim` leaves and `Bits`
/// entries.
pub open spec fn layout_names(l: Layout) -> Set<Seq<char>>
    decreases l,
{
    match l {
        Layout::Prim(item) => Set::empty().insert(item.name@),
        Layout::Sequence(cs) => seq_names(cs@, 0),
        Layout::All(cs) => seq_names(cs@, 0),
        Layout::Bits(b) => entry_names(b@.entries, 0),
    }
}

/// The union of the names of the layouts from index `i` on.
pub open spec fn seq_names(s: Seq<Layout>, i: int) -> Set<Seq<char>>
    decreases s, s.len() - i,
{
    if 0 <= i < s.len() {
        layout_names(s[i]).union(seq_names(s, i + 1))
    } else {
        Set::empty()
    }
}

/// The names of the bitfield entries from index `i` on.
pub open spec fn entry_names(es: Seq<(Seq<char>, u32, crate::prim::IntPrim)>, i: int) -> Set<
    Seq<char>,
>
    decreases es.len() - i,
{
    if 0 <= i < es.len() {
        entry_names(es, i + 1).insert(es[i].0)
    } else {
        Set::empty()
    }
}

/// The located fields of a layout whose first byte stands at `start`:
/// one field for a `Prim` leaf; children back to back for a `Sequence`; all
/// children from `start` itself for an `All`.  A `Bits` node yields nothing;
/// locating is defined only for layouts without one.
pub open spec fn locate_items(l: Layout, start: int) -> Seq<PlacedItem>
    decreases l,
{
    match l {
        Layout::Prim(item) => seq![
            PlacedItem { name: item.name@, typ: item.typ@, loc: start },
        ],
        Layout::Sequence(cs) => locate_seq(cs@, 0, start),
        Layout::All(cs) => locate_all(cs@, 0, start),
        Layout::Bits(_) => Seq::empty(),
    }
}

/// The located fields of the layouts from index `i` on, placed back to back
/// from `start`.
pub open spec fn locate_seq(s: Seq<Layout>, i: int, start: int) -> Seq<PlacedItem>
    decreases s, s.len() - i,
{
    if 0 <= i < s.len() {
        locate_items(s[i], start) + locate_seq(s, i + 1, start + layout_size(s[i]))
    } else {
        Seq::empty()
    }
}

/// The located fields of the layouts from index `i` on, each placed at
/// `start` itself.
pub open spec fn locate_all(s: Seq<Layout>, i: int, start: int) -> Seq<PlacedItem>
    decreases s, s.len() - i,
{
    if 0 <= i < s.len() {
        locate_items(s[i], start) + locate_all(s, i + 1, start)
    } else {
        Seq::empty()
    }
}

/// A flattened layout as a map from field name to offset and scalar kind;
/// keys are unique.
pub type LayoutMap = std::collections::HashMap<Name, (Loc, Prim)>;

/// The mathematical values of a list of located fields.
pub open spec fn placed(s: Seq<LocItem>) -> Seq<PlacedItem> {
    s.map_values(|li: LocItem| li@)
}

/// The larger of two integers.
pub open spec fn max2(a: int, b: int) -> int {
    if a >= b {
        a
    } else {
        b
    }
}

/// The set of names (as character sequences) that a list of strings holds.
pub open spec fn names_set(s: Seq<String>) -> Set<Seq<char>> {
    Set::new(|n: Seq<char>| exists|i: int| 0 <= i < s.len() && s[i]@ == n)
}

/// Whether a list of strings holds no two equal names.
pub open spec fn no_dup_names(s: Seq<String>) -> bool {
    forall|i: int, j: int| 0 <= i < j < s.len() ==> s[i]@ != s[j]@
}

/// A suffix of the children holds a `Bits` node exactly when one child in it
/// does.
proof fn lemma_seq_has_bits_iff(s: Seq<Layout>, i: int)
    requires
        0 <= i <= s.len(),
    ensures
        seq_has_bits(s, i) <==> exists|j: int| i <= j < s.len() && has_bits(s[j]),
    decreases s.len() - i,
{
    if i < s.len() {
        lemma_seq_has_bits_iff(s, i + 1);
        if has_bits(s[i]) {
            assert(i <= i < s.len() && has_bits(s[i]));
        }
    }
}

/// Every child's size is at most the maximum over the suffix it stands in.
proof fn lemma_max_sizes_ge(s: Seq<Layout>, i: int, j: int)
    requires
        0 <= i <= j < s.len(),
    ensures
        layout_size(s[j]) <= max_sizes(s, i),
    decreases j - i,
{
    if i < j {
        lemma_max_sizes_ge(s, i + 1, j);
    }
}

/// Pushing a name onto a list inserts it into the list's name set.
proof fn lemma_names_set_push(s: Seq<String>, x: String)
    ensures
        names_set(s.push(x)) == names_set(s).insert(x@),
{
    assert forall|n: Seq<char>| #[trigger]
        names_set(s.push(x)).contains(n) implies names_set(s).insert(x@).contains(n) by {
        let i = choose|i: int| 0 <= i < s.push(x).len() && s.push(x)[i]@ == n;
        if i < s.len() {
            assert(s[i]@ == n);
        }
    }
    assert forall|n: Seq<char>| #[trigger]
        names_set(s).insert(x@).contains(n) implies names_set(s.push(x)).contains(n) by {
        if n == x@ {
            assert(s.push(x)[s.len() as int]@ == n);
        } else {
            let i = choose|i: int| 0 <= i < s.len() && s[i]@ == n;
            assert(s.push(x)[i]@ == n);
        }
    }
    assert(names_set(s.push(x)) =~= names_set(s).insert(x@));
}

/// Whether a list of names already holds the given one.
fn contains_name(v: &Vec<Name>, name: &Name) -> (r: bool)
    ensures
        r == names_set(v@).contains(name@),
{
    let mut i: usize = 0;
    while i < v.len()
        invariant
            i <= v.len(),
            forall|k: int| 0 <= k < i ==> v@[k]@ != name@,
        decreases v.len() - i,
    {
        if v[i] == *name {
            assert(v@[i as int]@ == name@);
            return true;
        }
        i = i + 1;
    }
    false
}

/// Collects the names of a layout into the accumulator, deduplicated.
#[verifier::loop_isolation(false)]
fn collect_names(l: &Layout, acc: &mut Vec<Name>)
    requires
        no_dup_names(old(acc)@),
    ensures
        no_dup_names(final(acc)@),
        names_set(final(acc)@) == names_set(old(acc)@).union(layout_names(*l)),
    decreases *l,
{
    match l {
        Layout::Prim(item) => {
            if !contains_name(acc, &item.name) {
                let ghost before = acc@;
                acc.push(item.name.clone());
                proof {
                    lemma_names_set_push(before, item.name);
                    assert(names_set(acc@) =~= names_set(before).union(layout_names(*l)));
                }
            } else {
                proof {
                    assert(names_set(acc@) =~= names_set(acc@).union(layout_names(*l)));
                }
            }
        },
        Layout::Sequence(layouts) => {
            collect_names_children(layouts, acc);
        },
        Layout::All(layouts) => {
            collect_names_children(layouts, acc);
        },
        Layout::Bits(b) => {
            let ghost es = b@.entries;
            let mut i: usize = 0;
            while i < b.entries.len()
                invariant
                    i <= b.entries.len(),
                    es == b@.entries,
                    no_dup_names(acc@),
                    names_set(acc@).union(entry_names(es, i as int)) == names_set(
                        old(acc)@,
                    ).union(entry_names(es, 0)),
                decreases b.entries.len() - i,
            {
                let ghost before = acc@;
                assert(es[i as int].0 == b.entries@[i as int].0@);
                if !contains_name(acc, &b.entries[i].0) {
                    acc.push(b.entries[i].0.clone());
                    proof {
                        lemma_names_set_push(before, b.entries@[i as int].0);
                    }
                }
                proof {
                    assert(names_set(acc@).union(entry_names(es, i as int + 1)) =~= names_set(
                        before,
                    ).union(entry_names(es, i as int)));
                }
                i = i + 1;
            }
            proof {
                assert(names_set(acc@) =~= names_set(acc@).union(entry_names(es, es.len() as int)));
            }
        },
    }
}

/// Collects the names of each child layout into the accumulator.
#[verifier::loop_isolation(false)]
fn collect_names_children(cs: &Vec<Layout>, acc: &mut Vec<Name>)
    requires
        no_dup_names(old(acc)@),
    ensures
        no_dup_names(final(acc)@),
        names_set(final(acc)@) == names_set(old(acc)@).union(seq_names(cs@, 0)),
    decreases *cs,
{
    let mut i: usize = 0;
    while i < cs.len()
        invariant
            i <= cs.len(),
            no_dup_names(acc@),
            names_set(acc@).union(seq_names(cs@, i as int)) == names_set(old(acc)@).union(
                seq_names(cs@, 0),
            ),
        decreases cs.len() - i,
    {
        let ghost before = acc@;
        proof {
            assert(decreases_to!(*cs => cs@[i as int]));
        }
        collect_names(&cs[i], acc);
        proof {
            assert(names_set(acc@).union(seq_names(cs@, i as int + 1)) =~= names_set(
                before,
            ).union(seq_names(cs@, i as int)));
        }
        i = i + 1;
    }
    proof {
        assert(names_set(acc@) =~= names_set(acc@).union(seq_names(cs@, cs@.len() as int)));
    }
}

impl NumBytes for Layout {
    open spec fn spec_num_bytes(&self) -> nat {
        layout_size(*self)
    }

    fn num_bytes(&self) -> (r: u64) {
        layout_num_bytes(self)
    }
}

/// The byte footprint of a layout: the sum over a `Sequence`, the maximum
/// over an `All`.
#[verifier::loop_isolation(false)]
fn layout_num_bytes(l: &Layout) -> (r: u64)
    requires
        layout_size(*l) <= u64::MAX,
    ensures
        r == layout_size(*l),
    decreases *l,
{
    match l {
        Layout::Prim(item) => item.typ.num_bytes(),
        Layout::Sequence(layouts) => {
            let mut total: u64 = 0;
            let mut i: usize = 0;
            while i < layouts.len()
                invariant
                    i <= layouts.len(),
                    sum_sizes(layouts@, 0) <= u64::MAX,
                    total + sum_sizes(layouts@, i as int) == sum_sizes(layouts@, 0),
                decreases layouts.len() - i,
            {
                proof {
                    let ghost v = *layouts;
                    assert(decreases_to!(*l => v));
                    assert(decreases_to!(v => v[i as int]));
                }
                let n = layout_num_bytes(&layouts[i]);
                total = total + n;
                i = i + 1;
            }
            total
        },
        Layout::All(layouts) => {
            let mut total: u64 = 0;
            let mut i: usize = 0;
            while i < layouts.len()
                invariant
                    i <= layouts.len(),
                    max_sizes(layouts@, 0) <= u64::MAX,
                    max2(total as int, max_sizes(layouts@, i as int) as int) == max_sizes(
                        layouts@,
                        0,
                    ),
                decreases layouts.len() - i,
            {
                proof {
                    let ghost v = *layouts;
                    assert(decreases_to!(*l => v));
                    assert(decreases_to!(v => v[i as int]));
                }
                let n = layout_num_bytes(&layouts[i]);
                if n > total {
                    total = n;
                }
                i = i + 1;
            }
            total
        },
        Layout::Bits(b) => b.num_bytes(),
    }
}

impl Layout {
    /// The set of field names reachable by walking `Prim` leaves and `Bits`
    /// entries, with no duplicates.
    pub fn names(&self) -> (r: Vec<Name>)
        ensures
            no_dup_names(r@),
            names_set(r@) == layout_names(*self),
    {
        let mut acc: Vec<Name> = Vec::new();
        collect_names(self, &mut acc);
        proof {
            assert(names_set(acc@) =~= Set::empty().union(layout_names(*self)));
            assert(Set::empty().union(layout_names(*self)) =~= layout_names(*self));
        }
        acc
    }

    /// Flattens the layout into absolute byte offsets, from offset zero.
    ///
    /// Returns the located fields in order together with the layout's total
    /// byte footprint; fails exactly when the layout holds a `Bits` node.
    pub fn locate(&self) -> (r: Result<LocLayout, Unsupported>)
        requires
            layout_size(*self) <= u64::MAX,
        ensures
            match r {
                Ok(ll) => !has_bits(*self) && placed(ll.loc_items@) == locate_items(*self, 0)
                    && ll.num_bytes == layout_size(*self),
                Err(e) => has_bits(*self) && e == Unsupported::BitsLocate,
            },
    {
        let mut loc: u64 = 0;
        let mut loc_items: Vec<LocItem> = Vec::new();
        match self.locate_loc(&mut loc_items, &mut loc) {
            Ok(()) => {
                proof {
                    assert(placed(loc_items@) =~= locate_items(*self, 0));
                }
                let num_bytes = self.num_bytes();
                Ok(LocLayout { loc_items, num_bytes })
            },
            Err(e) => Err(e),
        }
    }

    /// Flattens the layout into `loc_items`, threading the byte cursor `loc`:
    /// a `Prim` leaf is recorded at the cursor, which then advances by the
    /// leaf's size; a `Sequence` threads the cursor through its children; an
    /// `All` locates every child at the cursor it started with and then
    /// advances it by the node's own size.  Fails exactly when the layout
    /// holds a `Bits` node.
#[verifier::loop_isolation(false)]
        pub fn locate_loc(&self, loc_items: &mut Vec<LocItem>, loc: &mut Loc) -> (r: Result<
        (),
        Unsupported,
    >)
        requires
            *old(loc) + layout_size(*self) <= u64::MAX,
        ensures
            match r {
                Ok(()) => !has_bits(*self) && placed(final(loc_items)@) == placed(
                    old(loc_items)@,
                ) + locate_items(*self, *old(loc) as int) && *final(loc) == *old(loc) + layout_size(
                    *self,
                ),
                Err(e) => has_bits(*self) && e == Unsupported::BitsLocate,
            },
        decreases *self,
    {
        match self {
            Layout::Prim(item) => {
                let typ = item.typ.clone();
                let name = item.name.clone();
                let size = item.typ.num_bytes();
                loc_items.push(LocItem::new(name, typ, *loc));
                proof {
                    assert(placed(loc_items@) =~= placed(old(loc_items)@) + locate_items(
                        *self,
                        *old(loc) as int,
                    ));
                }
                *loc = *loc + size;
                Ok(())
            },
            Layout::Sequence(layouts) => {
                let mut i: usize = 0;
                while i < layouts.len()
                    invariant
                        i <= layouts.len(),
                        layout_size(*self) == sum_sizes(layouts@, 0),
                        *old(loc) + sum_sizes(layouts@, 0) <= u64::MAX,
                        *loc + sum_sizes(layouts@, i as int) == *old(loc) + sum_sizes(layouts@, 0),
                        placed(loc_items@) + locate_seq(layouts@, i as int, *loc as int) == placed(
                            old(loc_items)@,
                        ) + locate_seq(layouts@, 0, *old(loc) as int),
                        forall|j: int| 0 <= j < i ==> !has_bits(layouts@[j]),
                    decreases layouts.len() - i,
                {
                    let ghost prev_items = loc_items@;
                    let ghost prev_loc = *loc as int;
                    proof {
                        let ghost v = *layouts;
                        assert(decreases_to!(*self => v));
                        assert(decreases_to!(v => v[i as int]));
                    }
                    match (&layouts[i]).locate_loc(loc_items, loc) {
                        Ok(()) => {},
                        Err(e) => {
                            proof {
                                assert(has_bits(layouts@[i as int]));
                                lemma_seq_has_bits_iff(layouts@, 0);
                                assert(seq_has_bits(layouts@, 0));
                            }
                            return Err(e);
                        },
                    }
                    proof {
                        assert(placed(loc_items@) + locate_seq(layouts@, i as int + 1, *loc as int)
                            =~= placed(prev_items) + locate_seq(layouts@, i as int, prev_loc));
                    }
                    i = i + 1;
                }
                proof {
                    lemma_seq_has_bits_iff(layouts@, 0);
                    assert(placed(loc_items@) + locate_seq(
                        layouts@,
                        layouts@.len() as int,
                        *loc as int,
                    ) =~= placed(loc_items@));
                }
                Ok(())
            },
            Layout::All(layouts) => {
                let starting_loc: u64 = *loc;
                let mut max_loc: u64 = *loc;
                let mut i: usize = 0;
                while i < layouts.len()
                    invariant
                        i <= layouts.len(),
                        layout_size(*self) == max_sizes(layouts@, 0),
                        starting_loc == *old(loc),
                        *old(loc) + max_sizes(layouts@, 0) <= u64::MAX,
                        max_loc >= starting_loc,
                        max2(max_loc as int, starting_loc + max_sizes(layouts@, i as int))
                            == starting_loc + max_sizes(layouts@, 0),
                        placed(loc_items@) + locate_all(layouts@, i as int, starting_loc as int)
                            == placed(old(loc_items)@) + locate_all(
                            layouts@,
                            0,
                            *old(loc) as int,
                        ),
                        forall|j: int| 0 <= j < i ==> !has_bits(layouts@[j]),
                    decreases layouts.len() - i,
                {
                    *loc = starting_loc;
                    let ghost prev_items = loc_items@;
                    proof {
                        lemma_max_sizes_ge(layouts@, i as int, i as int);
                        lemma_max_sizes_ge(layouts@, 0, i as int);
                    }
                    proof {
                        let ghost v = *layouts;
                        assert(decreases_to!(*self => v));
                        assert(decreases_to!(v => v[i as int]));
                    }
                    match (&layouts[i]).locate_loc(loc_items, loc) {
                        Ok(()) => {},
                        Err(e) => {
                            proof {
                                assert(has_bits(layouts@[i as int]));
                                lemma_seq_has_bits_iff(layouts@, 0);
                                assert(seq_has_bits(layouts@, 0));
                            }
                            return Err(e);
                        },
                    }
                    proof {
                        assert(placed(loc_items@) + locate_all(
                            layouts@,
                            i as int + 1,
                            starting_loc as int,
                        ) =~= placed(prev_items) + locate_all(
                            layouts@,
                            i as int,
                            starting_loc as int,
                        ));
                    }
                    if *loc > max_loc {
                        max_loc = *loc;
                    }
                    i = i + 1;
                }
                *loc = max_loc;
                proof {
                    lemma_seq_has_bits_iff(layouts@, 0);
                    assert(placed(loc_items@) + locate_all(
                        layouts@,
                        layouts@.len() as int,
                        starting_loc as int,
                    ) =~= placed(loc_items@));
                }
                Ok(())
            },
            Layout::Bits(_) => Err(Unsupported::BitsLocate),
        }
    }
}

/// A layout built from `Prim` leaves and `Sequence` nodes alone.
pub open spec fn pure_sequence(l: Layout) -> bool
    decreases l,
{
    match l {
        Layout::Prim(_) => true,
        Layout::Sequence(cs) => all_pure_sequence(cs@, 0),
        Layout::All(_) => false,
        Layout::Bits(_) => false,
    }
}

/// Whether every layout from index `i` on is a pure `Sequence` tree.
pub open spec fn all_pure_sequence(s: Seq<Layout>, i: int) -> bool
    decreases s, s.len() - i,
{
    if 0 <= i < s.len() {
        pure_sequence(s[i]) && all_pure_sequence(s, i + 1)
    } else {
        true
    }
}

/// Located fields forming a gapless, overlap-free chain from byte `start`
/// to byte `end`: each field begins where its predecessor ended.
pub open spec fn contiguous(items: Seq<PlacedItem>, start: int, end: int) -> bool
    decreases items.len(),
{
    if items.len() == 0 {
        start == end
    } else {
        items[0].loc == start && contiguous(
            items.drop_first(),
            start + prim_v_bytes(items[0].typ),
            end,
        )
    }
}

/// Law: the byte footprint of a `Sequence` node is the sum of its
/// children's footprints, child by child.
pub proof fn lemma_sequence_size_is_sum(cs: Vec<Layout>)
    ensures
        layout_size(Layout::Sequence(cs)) == sum_sizes(cs@, 0),
        forall|j: int|
            0 <= j < cs@.len() ==> sum_sizes(cs@, j) == layout_size(cs@[j]) + sum_sizes(cs@, j + 1),
        sum_sizes(cs@, cs@.len() as int) == 0,
{
}

/// The maximum over a suffix of children is attained by one of them.
proof fn lemma_max_sizes_attained(s: Seq<Layout>, i: int)
    requires
        0 <= i < s.len(),
    ensures
        exists|j: int| i <= j < s.len() && max_sizes(s, i) == layout_size(s[j]),
    decreases s.len() - i,
{
    if i + 1 < s.len() {
        lemma_max_sizes_attained(s, i + 1);
        if layout_size(s[i]) > max_sizes(s, i + 1) {
            assert(i <= i < s.len() && max_sizes(s, i) == layout_size(s[i]));
        } else {
            let j = choose|j: int| i + 1 <= j < s.len() && max_sizes(s, i + 1) == layout_size(s[j]);
            assert(i <= j < s.len() && max_sizes(s, i) == layout_size(s[j]));
        }
    } else {
        assert(max_sizes(s, i + 1) == 0);
        assert(i <= i < s.len() && max_sizes(s, i) == layout_size(s[i]));
    }
}

/// Law: the byte footprint of an `All` node is the maximum of its
/// children's footprints, and every child's located fields are taken from
/// the node's own starting offset.
pub proof fn lemma_all_size_is_max(cs: Vec<Layout>, start: int)
    ensures
        layout_size(Layout::All(cs)) == max_sizes(cs@, 0),
        forall|j: int| 0 <= j < cs@.len() ==> layout_size(cs@[j]) <= max_sizes(cs@, 0),
        cs@.len() > 0 ==> exists|j: int|
            0 <= j < cs@.len() && max_sizes(cs@, 0) == layout_size(cs@[j]),
        locate_items(Layout::All(cs), start) == locate_all(cs@, 0, start),
        forall|j: int|
            0 <= j < cs@.len() ==> locate_all(cs@, j, start) == locate_items(cs@[j], start)
                + locate_all(cs@, j + 1, start),
{
    assert forall|j: int| 0 <= j < cs@.len() implies layout_size(cs@[j]) <= max_sizes(cs@, 0) by {
        lemma_max_sizes_ge(cs@, 0, j);
    }
    if cs@.len() > 0 {
        lemma_max_sizes_attained(cs@, 0);
    }
}

/// Chaining two gapless runs, one ending where the other begins, gives a
/// gapless run.
proof fn lemma_contiguous_concat(a: Seq<PlacedItem>, b: Seq<PlacedItem>, s: int, m: int, e: int)
    requires
        contiguous(a, s, m),
        contiguous(b, m, e),
    ensures
        contiguous(a + b, s, e),
    decreases a.len(),
{
    if a.len() == 0 {
        assert(a + b =~= b);
    } else {
        lemma_contiguous_concat(a.drop_first(), b, s + prim_v_bytes(a[0].typ), m, e);
        assert((a + b).drop_first() =~= a.drop_first() + b);
        assert((a + b)[0] == a[0]);
    }
}

/// In a gapless run the last field ends at the run's end.
proof fn lemma_contiguous_last(items: Seq<PlacedItem>, start: int, end: int)
    requires
        contiguous(items, start, end),
    ensures
        items.len() == 0 ==> start == end,
        items.len() > 0 ==> items.last().loc + prim_v_bytes(items.last().typ) == end,
    decreases items.len(),
{
    if items.len() > 0 {
        lemma_contiguous_last(items.drop_first(), start + prim_v_bytes(items[0].typ), end);
        if items.len() > 1 {
            assert(items.drop_first().last() == items.last());
        }
    }
}

/// The located fields of a pure `Sequence` suffix form a gapless chain.
proof fn lemma_locate_seq_contiguous(s: Seq<Layout>, i: int, start: int)
    requires
        0 <= i <= s.len(),
        all_pure_sequence(s, i),
    ensures
        contiguous(locate_seq(s, i, start), start, start + sum_sizes(s, i)),
    decreases s, s.len() - i,
{
    if i < s.len() {
        lemma_pure_sequence_contiguous(s[i], start);
        lemma_locate_seq_contiguous(s, i + 1, start + layout_size(s[i]));
        lemma_contiguous_concat(
            locate_items(s[i], start),
            locate_seq(s, i + 1, start + layout_size(s[i])),
            start,
            start + layout_size(s[i]),
            start + sum_sizes(s, i),
        );
    }
}

/// The located fields of a pure `Sequence` layout form a gapless chain over
/// exactly the layout's byte footprint.
proof fn lemma_pure_sequence_contiguous(l: Layout, start: int)
    requires
        pure_sequence(l),
    ensures
        contiguous(locate_items(l, start), start, start + layout_size(l)),
    decreases l,
{
    match l {
        Layout::Prim(item) => {
            let items = locate_items(l, start);
            assert(items.len() == 1);
            assert(items[0] == (PlacedItem { name: item.name@, typ: item.typ@, loc: start }));
            assert(items.drop_first() =~= Seq::<PlacedItem>::empty());
            assert(contiguous(
                Seq::<PlacedItem>::empty(),
                start + prim_v_bytes(item.typ@),
                start + layout_size(l),
            ));
        },
        Layout::Sequence(cs) => {
            lemma_locate_seq_contiguous(cs@, 0, start);
        },
        Layout::All(_) => {},
        Layout::Bits(_) => {},
    }
}

/// Law: flattening a pure `Sequence` layout leaves no gaps and no overlaps:
/// the located fields chain one after the other over the layout's whole
/// footprint, so the last field's offset plus its size is the starting
/// offset plus the total size.
pub proof fn lemma_pure_sequence_round_trip(l: Layout, start: int)
    requires
        pure_sequence(l),
    ensures
        contiguous(locate_items(l, start), start, start + layout_size(l)),
        locate_items(l, start).len() == 0 ==> layout_size(l) == 0,
        locate_items(l, start).len() > 0 ==> locate_items(l, start).last().loc + prim_v_bytes(
            locate_items(l, start).last().typ,
        ) == start + layout_size(l),
{
    lemma_pure_sequence_contiguous(l, start);
    lemma_contiguous_last(locate_items(l, start), start, start + layout_size(l));
}

/// Every located field of the suffix lies within the suffix's byte span.
proof fn lemma_locate_seq_in_span(s: Seq<Layout>, i: int, start: int)
    requires
        0 <= i <= s.len(),
    ensures
        forall|k: int|
            #![trigger locate_seq(s, i, start)[k]]
            0 <= k < locate_seq(s, i, start).len() ==> start <= locate_seq(s, i, start)[k].loc
                && locate_seq(s, i, start)[k].loc + prim_v_bytes(locate_seq(s, i, start)[k].typ)
                <= start + sum_sizes(s, i),
    decreases s, s.len() - i,
{
    if i < s.len() {
        lemma_locate_within_footprint(s[i], start);
        lemma_locate_seq_in_span(s, i + 1, start + layout_size(s[i]));
        let a = locate_items(s[i], start);
        let b = locate_seq(s, i + 1, start + layout_size(s[i]));
        assert forall|k: int|
            0 <= k < locate_seq(s, i, start).len() implies start <= locate_seq(s, i, start)[k].loc
            && locate_seq(s, i, start)[k].loc + prim_v_bytes(locate_seq(s, i, start)[k].typ)
            <= start + sum_sizes(s, i) by {
            if k < a.len() {
                assert(locate_seq(s, i, start)[k] == a[k]);
            } else {
                assert(locate_seq(s, i, start)[k] == b[k - a.len()]);
            }
        }
    }
}

/// Every located field of the suffix of overlaid children lies within the
/// span of the largest one.
proof fn lemma_locate_all_in_span(s: Seq<Layout>, i: int, start: int)
    requires
        0 <= i <= s.len(),
    ensures
        forall|k: int|
            #![trigger locate_all(s, i, start)[k]]
            0 <= k < locate_all(s, i, start).len() ==> start <= locate_all(s, i, start)[k].loc
                && locate_all(s, i, start)[k].loc + prim_v_bytes(locate_all(s, i, start)[k].typ)
                <= start + max_sizes(s, i),
    decreases s, s.len() - i,
{
    if i < s.len() {
        lemma_locate_within_footprint(s[i], start);
        lemma_locate_all_in_span(s, i + 1, start);
        let a = locate_items(s[i], start);
        let b = locate_all(s, i + 1, start);
        assert forall|k: int|
            0 <= k < locate_all(s, i, start).len() implies start <= locate_all(s, i, start)[k].loc
            && locate_all(s, i, start)[k].loc + prim_v_bytes(locate_all(s, i, start)[k].typ)
            <= start + max_sizes(s, i) by {
            if k < a.len() {
                assert(locate_all(s, i, start)[k] == a[k]);
            } else {
                assert(locate_all(s, i, start)[k] == b[k - a.len()]);
            }
        }
    }
}

/// Law: every located field of a layout lies within the layout's own byte
/// span: no field begins before the layout's starting offset, and no field
/// ends past the starting offset plus the layout's byte footprint.
pub proof fn lemma_locate_within_footprint(l: Layout, start: int)
    ensures
        forall|k: int|
            #![trigger locate_items(l, start)[k]]
            0 <= k < locate_items(l, start).len() ==> start <= locate_items(l, start)[k].loc
                && locate_items(l, start)[k].loc + prim_v_bytes(locate_items(l, start)[k].typ)
                <= start + layout_size(l),
    decreases l,
{
    match l {
        Layout::Prim(_) => {},
        Layout::Sequence(cs) => {
            lemma_locate_seq_in_span(cs@, 0, start);
        },
        Layout::All(cs) => {
            lemma_locate_all_in_span(cs@, 0, start);
        },
        Layout::Bits(_) => {},
    }
}

} // verus!
