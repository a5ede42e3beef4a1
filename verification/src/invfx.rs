//! Inventory views and their wire forms, plus slot coordinate conversion.

use vstd::prelude::*;
use crate::bytebuf::{BytesMut, contents, get_u8, put_u8, buf_len};
use crate::errors::BukrsError;
use crate::typecodec::{BukrsType, BukrsNativeType, lemma_concat_parts};

verus! {

/// The admissible sizes of an inventory grid, each a multiple of nine slots.
#[derive(Debug, Clone, Copy, PartialEq, Eq, Structural)]
pub enum InventorySize {
    Inv9,
    Inv18,
    Inv27,
    Inv36,
    Inv45,
    Inv54,
}

/// The single byte that stands for an inventory size on the wire.
pub open spec fn size_byte(m: InventorySize) -> u8 {
    match m {
        InventorySize::Inv9 => 9,
        InventorySize::Inv18 => 18,
        InventorySize::Inv27 => 27,
        InventorySize::Inv36 => 36,
        InventorySize::Inv45 => 45,
        InventorySize::Inv54 => 54,
    }
}

impl DeepView for InventorySize {
    type V = InventorySize;

    open spec fn deep_view(&self) -> InventorySize {
        *self
    }
}

impl BukrsType for InventorySize {
    open spec fn wire(m: InventorySize) -> Seq<u8> {
        seq![size_byte(m)]
    }

    open spec fn fits(m: InventorySize) -> bool {
        true
    }

    open spec fn native_ty() -> BukrsNativeType {
        BukrsNativeType::U8
    }

    proof fn lemma_wire_unambiguous(
        m1: InventorySize,
        m2: InventorySize,
        r1: Seq<u8>,
        r2: Seq<u8>,
    ) {
        lemma_concat_parts(seq![size_byte(m1)], r1, seq![size_byte(m2)], r2);
        assert(seq![size_byte(m1)][0] == seq![size_byte(m2)][0]);
    }

    fn ty(&self) -> BukrsNativeType {
        BukrsNativeType::U8
    }

    fn encode(&self, bytes: &mut BytesMut) -> (r: Result<(), BukrsError>) {
        match self {
            InventorySize::Inv9 => put_u8(bytes, 9),
            InventorySize::Inv18 => put_u8(bytes, 18),
            InventorySize::Inv27 => put_u8(bytes, 27),
            InventorySize::Inv36 => put_u8(bytes, 36),
            InventorySize::Inv45 => put_u8(bytes, 45),
            InventorySize::Inv54 => put_u8(bytes, 54),
        }
        proof {
            assert(contents(*bytes) =~= contents(*old(bytes)) + Self::wire(*self));
        }
        Ok(())
    }

    fn decode(bytes: &mut BytesMut) -> (r: Result<Self, BukrsError>) {
        let ghost orig = contents(*bytes);
        if buf_len(bytes) < 1 {
            proof {
                assert forall|m: InventorySize, rest: Seq<u8>|
                    orig != #[trigger] (Self::wire(m) + rest) by {}
            }
            return Err(BukrsError::TruncatedInput);
        }
        let size = get_u8(bytes);
        let v = match size {
            9 => InventorySize::Inv9,
            18 => InventorySize::Inv18,
            27 => InventorySize::Inv27,
            36 => InventorySize::Inv36,
            45 => InventorySize::Inv45,
            54 => InventorySize::Inv54,
            _ => {
                proof {
                    assert forall|m: InventorySize, rest: Seq<u8>|
                        orig != #[trigger] (Self::wire(m) + rest) by {
                        assert((Self::wire(m) + rest)[0] == size_byte(m));
                    }
                }
                return Err(BukrsError::InvalidEncoding);
            },
        };
        proof {
            assert(orig =~= Self::wire(v) + contents(*bytes));
            assert forall|m: InventorySize, rest: Seq<u8>|
                Self::fits(m) && orig == #[trigger] (Self::wire(m) + rest) implies m
                == v.deep_view() && rest == contents(*bytes) by {
                lemma_concat_parts(seq![size_byte(m)], rest, seq![size_byte(v)], contents(*bytes));
                assert(seq![size_byte(m)][0] == seq![size_byte(v)][0]);
            }
        }
        Ok(v)
    }
}

#[derive(Debug, Clone, PartialEq)]
pub struct InvfxId(pub u32);

impl DeepView for InvfxId {
    type V = u32;

    open spec fn deep_view(&self) -> u32 {
        self.0
    }
}

impl BukrsType for InvfxId {
    open spec fn wire(m: u32) -> Seq<u8> {
        <u32 as BukrsType>::wire(m)
    }

    open spec fn fits(m: u32) -> bool {
        true
    }

    open spec fn native_ty() -> BukrsNativeType {
        BukrsNativeType::U32
    }

    proof fn lemma_wire_unambiguous(m1: u32, m2: u32, r1: Seq<u8>, r2: Seq<u8>) {
        <u32 as BukrsType>::lemma_wire_unambiguous(m1, m2, r1, r2);
    }

    fn ty(&self) -> BukrsNativeType {
        BukrsNativeType::U32
    }

    fn encode(&self, bytes: &mut BytesMut) -> (r: Result<(), BukrsError>) {
        match self.0.encode(bytes) {
            Ok(()) => {},
            Err(e) => {
                return Err(e);
            },
        }
        Ok(())
    }

    fn decode(bytes: &mut BytesMut) -> (r: Result<Self, BukrsError>) {
        let ghost orig = contents(*bytes);
        match <u32 as BukrsType>::decode(bytes) {
            Ok(f0) => {
                let v = InvfxId(f0);
                proof {
                    assert forall|m: u32, rest: Seq<u8>|
                        Self::fits(m) && orig == #[trigger] (Self::wire(m) + rest) implies m
                        == v.deep_view() && rest == contents(*bytes) by {
                        assert(orig == <u32 as BukrsType>::wire(m) + rest);
                    }
                }
                Ok(v)
            },
            Err(e) => {
                proof {
                    assert forall|m: u32, rest: Seq<u8>|
                        !(Self::fits(m) && orig == #[trigger] (Self::wire(m) + rest)) by {
                        if Self::fits(m) && orig == Self::wire(m) + rest {
                            assert(orig == <u32 as BukrsType>::wire(m) + rest);
                        }
                    }
                }
                Err(e)
            },
        }
    }
}

#[derive(Debug, Clone, PartialEq)]
pub struct ItemStack {
    pub name: String,
    pub material: String,
}

impl DeepView for ItemStack {
    type V = (Seq<char>, Seq<char>);

    open spec fn deep_view(&self) -> (Seq<char>, Seq<char>) {
        (self.name.deep_view(), self.material.deep_view())
    }
}

impl BukrsType for ItemStack {
    open spec fn wire(m: (Seq<char>, Seq<char>)) -> Seq<u8> {
        <(String, String) as BukrsType>::wire(m)
    }

    open spec fn fits(m: (Seq<char>, Seq<char>)) -> bool {
        <(String, String) as BukrsType>::fits(m)
    }

    open spec fn native_ty() -> BukrsNativeType {
        BukrsNativeType::CUSTOM
    }

    proof fn lemma_wire_unambiguous(m1: (Seq<char>, Seq<char>), m2: (Seq<char>, Seq<char>), r1: Seq<u8>, r2: Seq<u8>) {
        <(String, String) as BukrsType>::lemma_wire_unambiguous(m1, m2, r1, r2);
    }

    fn ty(&self) -> BukrsNativeType {
        BukrsNativeType::CUSTOM
    }

    fn encode(&self, bytes: &mut BytesMut) -> (r: Result<(), BukrsError>) {
        match self.name.encode(bytes) {
            Ok(()) => {},
            Err(e) => {
                return Err(e);
            },
        }
        match self.material.encode(bytes) {
            Ok(()) => {},
            Err(e) => {
                return Err(e);
            },
        }
        proof {
            assert(contents(*bytes) =~= contents(*old(bytes)) + Self::wire(self.deep_view()));
        }
        Ok(())
    }

    fn decode(bytes: &mut BytesMut) -> (r: Result<Self, BukrsError>) {
        let ghost orig = contents(*bytes);
        match <(String, String) as BukrsType>::decode(bytes) {
            Ok((f0, f1)) => {
                let v = ItemStack { name: f0, material: f1 };
                proof {
                    assert forall|m: (Seq<char>, Seq<char>), rest: Seq<u8>|
                        Self::fits(m) && orig == #[trigger] (Self::wire(m) + rest) implies m
                        == v.deep_view() && rest == contents(*bytes) by {
                        assert(orig == <(String, String) as BukrsType>::wire(m) + rest);
                    }
                }
                Ok(v)
            },
            Err(e) => {
                proof {
                    assert forall|m: (Seq<char>, Seq<char>), rest: Seq<u8>|
                        !(Self::fits(m) && orig == #[trigger] (Self::wire(m) + rest)) by {
                        if Self::fits(m) && orig == Self::wire(m) + rest {
                            assert(orig == <(String, String) as BukrsType>::wire(m) + rest);
                        }
                    }
                }
                Err(e)
            },
        }
    }
}

#[derive(Debug, Clone, PartialEq)]
pub struct InvSlot {
    pub slot: u8,
    pub item: ItemStack,
}

impl DeepView for InvSlot {
    type V = (u8, (Seq<char>, Seq<char>));

    open spec fn deep_view(&self) -> (u8, (Seq<char>, Seq<char>)) {
        (self.slot.deep_view(), self.item.deep_view())
    }
}

impl BukrsType for InvSlot {
    open spec fn wire(m: (u8, (Seq<char>, Seq<char>))) -> Seq<u8> {
        <(u8, ItemStack) as BukrsType>::wire(m)
    }

    open spec fn fits(m: (u8, (Seq<char>, Seq<char>))) -> bool {
        <(u8, ItemStack) as BukrsType>::fits(m)
    }

    open spec fn native_ty() -> BukrsNativeType {
        BukrsNativeType::CUSTOM
    }

    proof fn lemma_wire_unambiguous(m1: (u8, (Seq<char>, Seq<char>)), m2: (u8, (Seq<char>, Seq<char>)), r1: Seq<u8>, r2: Seq<u8>) {
        <(u8, ItemStack) as BukrsType>::lemma_wire_unambiguous(m1, m2, r1, r2);
    }

    fn ty(&self) -> BukrsNativeType {
        BukrsNativeType::CUSTOM
    }

    fn encode(&self, bytes: &mut BytesMut) -> (r: Result<(), BukrsError>) {
        match self.slot.encode(bytes) {
            Ok(()) => {},
            Err(e) => {
                return Err(e);
            },
        }
        match self.item.encode(bytes) {
            Ok(()) => {},
            Err(e) => {
                return Err(e);
            },
        }
        proof {
            assert(contents(*bytes) =~= contents(*old(bytes)) + Self::wire(self.deep_view()));
        }
        Ok(())
    }

    fn decode(bytes: &mut BytesMut) -> (r: Result<Self, BukrsError>) {
        let ghost orig = contents(*bytes);
        match <(u8, ItemStack) as BukrsType>::decode(bytes) {
            Ok((f0, f1)) => {
                let v = InvSlot { slot: f0, item: f1 };
                proof {
                    assert forall|m: (u8, (Seq<char>, Seq<char>)), rest: Seq<u8>|
                        Self::fits(m) && orig == #[trigger] (Self::wire(m) + rest) implies m
                        == v.deep_view() && rest == contents(*bytes) by {
                        assert(orig == <(u8, ItemStack) as BukrsType>::wire(m) + rest);
                    }
                }
                Ok(v)
            },
            Err(e) => {
                proof {
                    assert forall|m: (u8, (Seq<char>, Seq<char>)), rest: Seq<u8>|
                        !(Self::fits(m) && orig == #[trigger] (Self::wire(m) + rest)) by {
                        if Self::fits(m) && orig == Self::wire(m) + rest {
                            assert(orig == <(u8, ItemStack) as BukrsType>::wire(m) + rest);
                        }
                    }
                }
                Err(e)
            },
        }
    }
}

#[derive(Debug, Clone, PartialEq)]
pub struct InvList {
    pub id: InvfxId,
    pub data: Vec<InvSlot>,
}

impl DeepView for InvList {
    type V = (u32, Seq<(u8, (Seq<char>, Seq<char>))>);

    open spec fn deep_view(&self) -> (u32, Seq<(u8, (Seq<char>, Seq<char>))>) {
        (self.id.deep_view(), self.data.deep_view())
    }
}

impl BukrsType for InvList {
    open spec fn wire(m: (u32, Seq<(u8, (Seq<char>, Seq<char>))>)) -> Seq<u8> {
        <(InvfxId, Vec<InvSlot>) as BukrsType>::wire(m)
    }

    open spec fn fits(m: (u32, Seq<(u8, (Seq<char>, Seq<char>))>)) -> bool {
        <(InvfxId, Vec<InvSlot>) as BukrsType>::fits(m)
    }

    open spec fn native_ty() -> BukrsNativeType {
        BukrsNativeType::CUSTOM
    }

    proof fn lemma_wire_unambiguous(m1: (u32, Seq<(u8, (Seq<char>, Seq<char>))>), m2: (u32, Seq<(u8, (Seq<char>, Seq<char>))>), r1: Seq<u8>, r2: Seq<u8>) {
        <(InvfxId, Vec<InvSlot>) as BukrsType>::lemma_wire_unambiguous(m1, m2, r1, r2);
    }

    fn ty(&self) -> BukrsNativeType {
        BukrsNativeType::CUSTOM
    }

    fn encode(&self, bytes: &mut BytesMut) -> (r: Result<(), BukrsError>) {
        match self.id.encode(bytes) {
            Ok(()) => {},
            Err(e) => {
                return Err(e);
            },
        }
        match self.data.encode(bytes) {
            Ok(()) => {},
            Err(e) => {
                return Err(e);
            },
        }
        proof {
            assert(contents(*bytes) =~= contents(*old(bytes)) + Self::wire(self.deep_view()));
        }
        Ok(())
    }

    fn decode(bytes: &mut BytesMut) -> (r: Result<Self, BukrsError>) {
        let ghost orig = contents(*bytes);
        match <(InvfxId, Vec<InvSlot>) as BukrsType>::decode(bytes) {
            Ok((f0, f1)) => {
                let v = InvList { id: f0, data: f1 };
                proof {
                    assert forall|m: (u32, Seq<(u8, (Seq<char>, Seq<char>))>), rest: Seq<u8>|
                        Self::fits(m) && orig == #[trigger] (Self::wire(m) + rest) implies m
                        == v.deep_view() && rest == contents(*bytes) by {
                        assert(orig == <(InvfxId, Vec<InvSlot>) as BukrsType>::wire(m) + rest);
                    }
                }
                Ok(v)
            },
            Err(e) => {
                proof {
                    assert forall|m: (u32, Seq<(u8, (Seq<char>, Seq<char>))>), rest: Seq<u8>|
                        !(Self::fits(m) && orig == #[trigger] (Self::wire(m) + rest)) by {
                        if Self::fits(m) && orig == Self::wire(m) + rest {
                            assert(orig == <(InvfxId, Vec<InvSlot>) as BukrsType>::wire(m) + rest);
                        }
                    }
                }
                Err(e)
            },
        }
    }
}

impl InvList {
    /// The slots the list holds.
    pub fn get(&self) -> (r: &Vec<InvSlot>)
        ensures
            r == self.data,
    {
        &self.data
    }
}

/// One element of an inventory effect: the closed set of component shapes.
#[derive(Debug, Clone, PartialEq)]
pub enum InvFxComponent {
    List(InvList),
}

/// An inventory effect: an ordered list of components.
#[derive(Debug, Clone, PartialEq)]
pub struct InvFx {
    pub components: Vec<InvFxComponent>,
}

/// Convert a slot index to cartesian coordinates, both axes starting at one.
pub fn slot_2_xy(slot: u8) -> (r: (u8, u8))
    ensures
        r.0 == (slot & 0xF) + 1,
        r.1 == (slot >> 4) + 1,
        1 <= r.0 <= 16,
        1 <= r.1 <= 16,
{
    proof {
        assert((slot & 0xF) < 16 && (slot >> 4) < 16) by (bit_vector);
    }
    let x = (slot & 0b1111) + 1;
    let y = (slot >> 4) + 1;
    (x, y)
}

/// Convert cartesian coordinates back to a slot index.  Coordinates start at
/// one, so zero on either axis is ruled out.
pub fn xy_2_slot(xy: (u8, u8)) -> (r: u8)
    requires
        xy.0 >= 1,
        xy.1 >= 1,
    ensures
        r == (((xy.1 - 1) as u8) << 4) | ((xy.0 - 1) as u8),
{
    let x = xy.0 - 1;
    let y = xy.1 - 1;
    (y << 4) | x
}

/// Converting a slot to coordinates and back yields the slot again: the
/// value `xy_2_slot` rebuilds from `slot_2_xy`'s coordinates is the slot.
pub proof fn lemma_slot_xy_roundtrip(slot: u8)
    ensures
        (((((slot >> 4) + 1) - 1) as u8) << 4) | ((((slot & 0xF) + 1) - 1) as u8) == slot,
{
    assert((((((slot >> 4) + 1) - 1) as u8) << 4) | ((((slot & 0xF) + 1) - 1) as u8)
        == slot) by (bit_vector);
}

} // verus!
