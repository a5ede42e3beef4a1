//! The registered packet shapes: every message the protocol can carry,
//! each a composite of codec values with a tag of its own.  The protocol
//! itself never looks inside them; it only needs each shape's encode,
//! decode, and tag, which is the whole contract a shape must meet.

use vstd::prelude::*;
use crate::bytebuf::{BytesMut, contents};
use crate::errors::BukrsError;
use crate::typecodec::{BukrsType, BukrsNativeType};
use crate::invfx::{InventorySize, InvfxId, InvList};
use crate::player::{PlayerId, PlayerData};

verus! {

#[derive(Debug, Clone, PartialEq)]
pub struct BukrsReqAPI {}

impl DeepView for BukrsReqAPI {
    type V = ();

    open spec fn deep_view(&self) -> () {
        ()
    }
}

impl BukrsType for BukrsReqAPI {
    open spec fn wire(m: ()) -> Seq<u8> {
        Seq::empty()
    }

    open spec fn fits(m: ()) -> bool {
        true
    }

    open spec fn native_ty() -> BukrsNativeType {
        BukrsNativeType::CUSTOM
    }

    proof fn lemma_wire_unambiguous(m1: (), m2: (), r1: Seq<u8>, r2: Seq<u8>) {
        assert(Seq::<u8>::empty() + r1 =~= r1);
        assert(Seq::<u8>::empty() + r2 =~= r2);
    }

    fn ty(&self) -> BukrsNativeType {
        BukrsNativeType::CUSTOM
    }

    fn encode(&self, bytes: &mut BytesMut) -> (r: Result<(), BukrsError>) {
        proof {
            assert(contents(*bytes) =~= contents(*bytes) + Self::wire(()));
        }
        Ok(())
    }

    fn decode(bytes: &mut BytesMut) -> (r: Result<Self, BukrsError>) {
        let ghost orig = contents(*bytes);
        proof {
            assert(orig =~= Self::wire(()) + orig);
            assert forall|m: (), rest: Seq<u8>|
                Self::fits(m) && orig == #[trigger] (Self::wire(m) + rest) implies rest
                == contents(*bytes) by {
                assert(rest =~= orig);
            }
        }
        Ok(BukrsReqAPI {})
    }
}

#[derive(Debug, Clone, PartialEq)]
pub struct BukrsResAPI {
    pub api_id: u32,
}

impl DeepView for BukrsResAPI {
    type V = u32;

    open spec fn deep_view(&self) -> u32 {
        self.api_id.deep_view()
    }
}

impl BukrsType for BukrsResAPI {
    open spec fn wire(m: u32) -> Seq<u8> {
        <u32 as BukrsType>::wire(m)
    }

    open spec fn fits(m: u32) -> bool {
        <u32 as BukrsType>::fits(m)
    }

    open spec fn native_ty() -> BukrsNativeType {
        BukrsNativeType::CUSTOM
    }

    proof fn lemma_wire_unambiguous(m1: u32, m2: u32, r1: Seq<u8>, r2: Seq<u8>) {
        <u32 as BukrsType>::lemma_wire_unambiguous(m1, m2, r1, r2);
    }

    fn ty(&self) -> BukrsNativeType {
        BukrsNativeType::CUSTOM
    }

    fn encode(&self, bytes: &mut BytesMut) -> (r: Result<(), BukrsError>) {
        match self.api_id.encode(bytes) {
            Ok(()) => {},
            Err(e) => {
                return Err(e);
            },
        }
        proof {
            assert(contents(*bytes) =~= contents(*old(bytes)) + Self::wire(self.deep_view()));
        }
        Ok(())
    }

    fn decode(bytes: &mut BytesMut) -> (r: Result<Self, BukrsError>) {
        let ghost orig = contents(*bytes);
        match <u32 as BukrsType>::decode(bytes) {
            Ok(f0) => {
                let v = BukrsResAPI { api_id: f0 };
                proof {
                    assert forall|m: u32, rest: Seq<u8>|
                        Self::fits(m) && orig == #[trigger] (Self::wire(m) + rest) implies m
                        == v.deep_view() && rest == contents(*bytes) by {
                        assert(orig == <u32 as BukrsType>::wire(m) + rest);
                    }
                }
                Ok(v)
            },
            Err(e) => {
                proof {
                    assert forall|m: u32, rest: Seq<u8>|
                        !(Self::fits(m) && orig == #[trigger] (Self::wire(m) + rest)) by {
                        if Self::fits(m) && orig == Self::wire(m) + rest {
                            assert(orig == <u32 as BukrsType>::wire(m) + rest);
                        }
                    }
                }
                Err(e)
            },
        }
    }
}

#[derive(Debug, Clone, PartialEq)]
pub struct BukrsReqOnlinePlayers {}

impl DeepView for BukrsReqOnlinePlayers {
    type V = ();

    open spec fn deep_view(&self) -> () {
        ()
    }
}

impl BukrsType for BukrsReqOnlinePlayers {
    open spec fn wire(m: ()) -> Seq<u8> {
        Seq::empty()
    }

    open spec fn fits(m: ()) -> bool {
        true
    }

    open spec fn native_ty() -> BukrsNativeType {
        BukrsNativeType::CUSTOM
    }

    proof fn lemma_wire_unambiguous(m1: (), m2: (), r1: Seq<u8>, r2: Seq<u8>) {
        assert(Seq::<u8>::empty() + r1 =~= r1);
        assert(Seq::<u8>::empty() + r2 =~= r2);
    }

    fn ty(&self) -> BukrsNativeType {
        BukrsNativeType::CUSTOM
    }

    fn encode(&self, bytes: &mut BytesMut) -> (r: Result<(), BukrsError>) {
        proof {
            assert(contents(*bytes) =~= contents(*bytes) + Self::wire(()));
        }
        Ok(())
    }

    fn decode(bytes: &mut BytesMut) -> (r: Result<Self, BukrsError>) {
        let ghost orig = contents(*bytes);
        proof {
            assert(orig =~= Self::wire(()) + orig);
            assert forall|m: (), rest: Seq<u8>|
                Self::fits(m) && orig == #[trigger] (Self::wire(m) + rest) implies rest
                == contents(*bytes) by {
                assert(rest =~= orig);
            }
        }
        Ok(BukrsReqOnlinePlayers {})
    }
}

#[derive(Debug, Clone, PartialEq)]
pub struct BukrsResOnlinePlayers {
    pub players: Vec<PlayerId>,
}

impl DeepView for BukrsResOnlinePlayers {
    type V = Seq<u32>;

    open spec fn deep_view(&self) -> Seq<u32> {
        self.players.deep_view()
    }
}

impl BukrsType for BukrsResOnlinePlayers {
    open spec fn wire(m: Seq<u32>) -> Seq<u8> {
        <Vec<PlayerId> as BukrsType>::wire(m)
    }

    open spec fn fits(m: Seq<u32>) -> bool {
        <Vec<PlayerId> as BukrsType>::fits(m)
    }

    open spec fn native_ty() -> BukrsNativeType {
        BukrsNativeType::CUSTOM
    }

    proof fn lemma_wire_unambiguous(m1: Seq<u32>, m2: Seq<u32>, r1: Seq<u8>, r2: Seq<u8>) {
        <Vec<PlayerId> as BukrsType>::lemma_wire_unambiguous(m1, m2, r1, r2);
    }

    fn ty(&self) -> BukrsNativeType {
        BukrsNativeType::CUSTOM
    }

    fn encode(&self, bytes: &mut BytesMut) -> (r: Result<(), BukrsError>) {
        match self.players.encode(bytes) {
            Ok(()) => {},
            Err(e) => {
                return Err(e);
            },
        }
        proof {
            assert(contents(*bytes) =~= contents(*old(bytes)) + Self::wire(self.deep_view()));
        }
        Ok(())
    }

    fn decode(bytes: &mut BytesMut) -> (r: Result<Self, BukrsError>) {
        let ghost orig = contents(*bytes);
        match <Vec<PlayerId> as BukrsType>::decode(bytes) {
            Ok(f0) => {
                let v = BukrsResOnlinePlayers { players: f0 };
                proof {
                    assert forall|m: Seq<u32>, rest: Seq<u8>|
                        Self::fits(m) && orig == #[trigger] (Self::wire(m) + rest) implies m
                        == v.deep_view() && rest == contents(*bytes) by {
                        assert(orig == <Vec<PlayerId> as BukrsType>::wire(m) + rest);
                    }
                }
                Ok(v)
            },
            Err(e) => {
                proof {
                    assert forall|m: Seq<u32>, rest: Seq<u8>|
                        !(Self::fits(m) && orig == #[trigger] (Self::wire(m) + rest)) by {
                        if Self::fits(m) && orig == Self::wire(m) + rest {
                            assert(orig == <Vec<PlayerId> as BukrsType>::wire(m) + rest);
                        }
                    }
                }
                Err(e)
            },
        }
    }
}

#[derive(Debug, Clone, PartialEq)]
pub struct BukrsReqPlayerById {
    pub player_id: PlayerId,
}

impl DeepView for BukrsReqPlayerById {
    type V = u32;

    open spec fn deep_view(&self) -> u32 {
        self.player_id.deep_view()
    }
}

impl BukrsType for BukrsReqPlayerById {
    open spec fn wire(m: u32) -> Seq<u8> {
        <PlayerId as BukrsType>::wire(m)
    }

    open spec fn fits(m: u32) -> bool {
        <PlayerId as BukrsType>::fits(m)
    }

    open spec fn native_ty() -> BukrsNativeType {
        BukrsNativeType::CUSTOM
    }

    proof fn lemma_wire_unambiguous(m1: u32, m2: u32, r1: Seq<u8>, r2: Seq<u8>) {
        <PlayerId as BukrsType>::lemma_wire_unambiguous(m1, m2, r1, r2);
    }

    fn ty(&self) -> BukrsNativeType {
        BukrsNativeType::CUSTOM
    }

    fn encode(&self, bytes: &mut BytesMut) -> (r: Result<(), BukrsError>) {
        match self.player_id.encode(bytes) {
            Ok(()) => {},
            Err(e) => {
                return Err(e);
            },
        }
        proof {
            assert(contents(*bytes) =~= contents(*old(bytes)) + Self::wire(self.deep_view()));
        }
        Ok(())
    }

    fn decode(bytes: &mut BytesMut) -> (r: Result<Self, BukrsError>) {
        let ghost orig = contents(*bytes);
        match <PlayerId as BukrsType>::decode(bytes) {
            Ok(f0) => {
                let v = BukrsReqPlayerById { player_id: f0 };
                proof {
                    assert forall|m: u32, rest: Seq<u8>|
                        Self::fits(m) && orig == #[trigger] (Self::wire(m) + rest) implies m
                        == v.deep_view() && rest == contents(*bytes) by {
                        assert(orig == <PlayerId as BukrsType>::wire(m) + rest);
                    }
                }
                Ok(v)
            },
            Err(e) => {
                proof {
                    assert forall|m: u32, rest: Seq<u8>|
                        !(Self::fits(m) && orig == #[trigger] (Self::wire(m) + rest)) by {
                        if Self::fits(m) && orig == Self::wire(m) + rest {
                            assert(orig == <PlayerId as BukrsType>::wire(m) + rest);
                        }
                    }
                }
                Err(e)
            },
        }
    }
}

#[derive(Debug, Clone, PartialEq)]
pub struct BukrsReqPlayerByName {
    pub player_name: String,
}

impl DeepView for BukrsReqPlayerByName {
    type V = Seq<char>;

    open spec fn deep_view(&self) -> Seq<char> {
        self.player_name.deep_view()
    }
}

impl BukrsType for BukrsReqPlayerByName {
    open spec fn wire(m: Seq<char>) -> Seq<u8> {
        <String as BukrsType>::wire(m)
    }

    open spec fn fits(m: Seq<char>) -> bool {
        <String as BukrsType>::fits(m)
    }

    open spec fn native_ty() -> BukrsNativeType {
        BukrsNativeType::CUSTOM
    }

    proof fn lemma_wire_unambiguous(m1: Seq<char>, m2: Seq<char>, r1: Seq<u8>, r2: Seq<u8>) {
        <String as BukrsType>::lemma_wire_unambiguous(m1, m2, r1, r2);
    }

    fn ty(&self) -> BukrsNativeType {
        BukrsNativeType::CUSTOM
    }

    fn encode(&self, bytes: &mut BytesMut) -> (r: Result<(), BukrsError>) {
        match self.player_name.encode(bytes) {
            Ok(()) => {},
            Err(e) => {
                return Err(e);
            },
        }
        proof {
            assert(contents(*bytes) =~= contents(*old(bytes)) + Self::wire(self.deep_view()));
        }
        Ok(())
    }

    fn decode(bytes: &mut BytesMut) -> (r: Result<Self, BukrsError>) {
        let ghost orig = contents(*bytes);
        match <String as BukrsType>::decode(bytes) {
            Ok(f0) => {
                let v = BukrsReqPlayerByName { player_name: f0 };
                proof {
                    assert forall|m: Seq<char>, rest: Seq<u8>|
                        Self::fits(m) && orig == #[trigger] (Self::wire(m) + rest) implies m
                        == v.deep_view() && rest == contents(*bytes) by {
                        assert(orig == <String as BukrsType>::wire(m) + rest);
                    }
                }
                Ok(v)
            },
            Err(e) => {
                proof {
                    assert forall|m: Seq<char>, rest: Seq<u8>|
                        !(Self::fits(m) && orig == #[trigger] (Self::wire(m) + rest)) by {
                        if Self::fits(m) && orig == Self::wire(m) + rest {
                            assert(orig == <String as BukrsType>::wire(m) + rest);
                        }
                    }
                }
                Err(e)
            },
        }
    }
}

#[derive(Debug, Clone, PartialEq)]
pub struct BukrsResPlayerData {
    pub data: PlayerData,
}

impl DeepView for BukrsResPlayerData {
    type V = (u32, (Seq<char>, (u64, u64)));

    open spec fn deep_view(&self) -> (u32, (Seq<char>, (u64, u64))) {
        self.data.deep_view()
    }
}

impl BukrsType for BukrsResPlayerData {
    open spec fn wire(m: (u32, (Seq<char>, (u64, u64)))) -> Seq<u8> {
        <PlayerData as BukrsType>::wire(m)
    }

    open spec fn fits(m: (u32, (Seq<char>, (u64, u64)))) -> bool {
        <PlayerData as BukrsType>::fits(m)
    }

    open spec fn native_ty() -> BukrsNativeType {
        BukrsNativeType::CUSTOM
    }

    proof fn lemma_wire_unambiguous(m1: (u32, (Seq<char>, (u64, u64))), m2: (u32, (Seq<char>, (u64, u64))), r1: Seq<u8>, r2: Seq<u8>) {
        <PlayerData as BukrsType>::lemma_wire_unambiguous(m1, m2, r1, r2);
    }

    fn ty(&self) -> BukrsNativeType {
        BukrsNativeType::CUSTOM
    }

    fn encode(&self, bytes: &mut BytesMut) -> (r: Result<(), BukrsError>) {
        match self.data.encode(bytes) {
            Ok(()) => {},
            Err(e) => {
                return Err(e);
            },
        }
        proof {
            assert(contents(*bytes) =~= contents(*old(bytes)) + Self::wire(self.deep_view()));
        }
        Ok(())
    }

    fn decode(bytes: &mut BytesMut) -> (r: Result<Self, BukrsError>) {
        let ghost orig = contents(*bytes);
        match <PlayerData as BukrsType>::decode(bytes) {
            Ok(f0) => {
                let v = BukrsResPlayerData { data: f0 };
                proof {
                    assert forall|m: (u32, (Seq<char>, (u64, u64))), rest: Seq<u8>|
                        Self::fits(m) && orig == #[trigger] (Self::wire(m) + rest) implies m
                        == v.deep_view() && rest == contents(*bytes) by {
                        assert(orig == <PlayerData as BukrsType>::wire(m) + rest);
                    }
                }
                Ok(v)
            },
            Err(e) => {
                proof {
                    assert forall|m: (u32, (Seq<char>, (u64, u64))), rest: Seq<u8>|
                        !(Self::fits(m) && orig == #[trigger] (Self::wire(m) + rest)) by {
                        if Self::fits(m) && orig == Self::wire(m) + rest {
                            assert(orig == <PlayerData as BukrsType>::wire(m) + rest);
                        }
                    }
                }
                Err(e)
            },
        }
    }
}

#[derive(Debug, Clone, PartialEq)]
pub struct BukrsReqCreateInventory {
    pub name: String,
    pub size: InventorySize,
}

impl DeepView for BukrsReqCreateInventory {
    type V = (Seq<char>, InventorySize);

    open spec fn deep_view(&self) -> (Seq<char>, InventorySize) {
        (self.name.deep_view(), self.size.deep_view())
    }
}

impl BukrsType for BukrsReqCreateInventory {
    open spec fn wire(m: (Seq<char>, InventorySize)) -> Seq<u8> {
        <(String, InventorySize) as BukrsType>::wire(m)
    }

    open spec fn fits(m: (Seq<char>, InventorySize)) -> bool {
        <(String, InventorySize) as BukrsType>::fits(m)
    }

    open spec fn native_ty() -> BukrsNativeType {
        BukrsNativeType::CUSTOM
    }

    proof fn lemma_wire_unambiguous(m1: (Seq<char>, InventorySize), m2: (Seq<char>, InventorySize), r1: Seq<u8>, r2: Seq<u8>) {
        <(String, InventorySize) as BukrsType>::lemma_wire_unambiguous(m1, m2, r1, r2);
    }

    fn ty(&self) -> BukrsNativeType {
        BukrsNativeType::CUSTOM
    }

    fn encode(&self, bytes: &mut BytesMut) -> (r: Result<(), BukrsError>) {
        match self.name.encode(bytes) {
            Ok(()) => {},
            Err(e) => {
                return Err(e);
            },
        }
        match self.size.encode(bytes) {
            Ok(()) => {},
            Err(e) => {
                return Err(e);
            },
        }
        proof {
            assert(contents(*bytes) =~= contents(*old(bytes)) + Self::wire(self.deep_view()));
        }
        Ok(())
    }

    fn decode(bytes: &mut BytesMut) -> (r: Result<Self, BukrsError>) {
        let ghost orig = contents(*bytes);
        match <(String, InventorySize) as BukrsType>::decode(bytes) {
            Ok((f0, f1)) => {
                let v = BukrsReqCreateInventory { name: f0, size: f1 };
                proof {
                    assert forall|m: (Seq<char>, InventorySize), rest: Seq<u8>|
                        Self::fits(m) && orig == #[trigger] (Self::wire(m) + rest) implies m
                        == v.deep_view() && rest == contents(*bytes) by {
                        assert(orig == <(String, InventorySize) as BukrsType>::wire(m) + rest);
                    }
                }
                Ok(v)
            },
            Err(e) => {
                proof {
                    assert forall|m: (Seq<char>, InventorySize), rest: Seq<u8>|
                        !(Self::fits(m) && orig == #[trigger] (Self::wire(m) + rest)) by {
                        if Self::fits(m) && orig == Self::wire(m) + rest {
                            assert(orig == <(String, InventorySize) as BukrsType>::wire(m) + rest);
                        }
                    }
                }
                Err(e)
            },
        }
    }
}

#[derive(Debug, Clone, PartialEq)]
pub struct BukrsResCreateInventory {
    pub inv_id: InvfxId,
}

impl DeepView for BukrsResCreateInventory {
    type V = u32;

    open spec fn deep_view(&self) -> u32 {
        self.inv_id.deep_view()
    }
}

impl BukrsType for BukrsResCreateInventory {
    open spec fn wire(m: u32) -> Seq<u8> {
        <InvfxId as BukrsType>::wire(m)
    }

    open spec fn fits(m: u32) -> bool {
        <InvfxId as BukrsType>::fits(m)
    }

    open spec fn native_ty() -> BukrsNativeType {
        BukrsNativeType::CUSTOM
    }

    proof fn lemma_wire_unambiguous(m1: u32, m2: u32, r1: Seq<u8>, r2: Seq<u8>) {
        <InvfxId as BukrsType>::lemma_wire_unambiguous(m1, m2, r1, r2);
    }

    fn ty(&self) -> BukrsNativeType {
        BukrsNativeType::CUSTOM
    }

    fn encode(&self, bytes: &mut BytesMut) -> (r: Result<(), BukrsError>) {
        match self.inv_id.encode(bytes) {
            Ok(()) => {},
            Err(e) => {
                return Err(e);
            },
        }
        proof {
            assert(contents(*bytes) =~= contents(*old(bytes)) + Self::wire(self.deep_view()));
        }
        Ok(())
    }

    fn decode(bytes: &mut BytesMut) -> (r: Result<Self, BukrsError>) {
        let ghost orig = contents(*bytes);
        match <InvfxId as BukrsType>::decode(bytes) {
            Ok(f0) => {
                let v = BukrsResCreateInventory { inv_id: f0 };
                proof {
                    assert forall|m: u32, rest: Seq<u8>|
                        Self::fits(m) && orig == #[trigger] (Self::wire(m) + rest) implies m
                        == v.deep_view() && rest == contents(*bytes) by {
                        assert(orig == <InvfxId as BukrsType>::wire(m) + rest);
                    }
                }
                Ok(v)
            },
            Err(e) => {
                proof {
                    assert forall|m: u32, rest: Seq<u8>|
                        !(Self::fits(m) && orig == #[trigger] (Self::wire(m) + rest)) by {
                        if Self::fits(m) && orig == Self::wire(m) + rest {
                            assert(orig == <InvfxId as BukrsType>::wire(m) + rest);
                        }
                    }
                }
                Err(e)
            },
        }
    }
}

#[derive(Debug, Clone, PartialEq)]
pub struct BukrsSDInvClick {
    pub slot: u8,
    pub player_id: PlayerId,
}

impl DeepView for BukrsSDInvClick {
    type V = (u8, u32);

    open spec fn deep_view(&self) -> (u8, u32) {
        (self.slot.deep_view(), self.player_id.deep_view())
    }
}

impl BukrsType for BukrsSDInvClick {
    open spec fn wire(m: (u8, u32)) -> Seq<u8> {
        <(u8, PlayerId) as BukrsType>::wire(m)
    }

    open spec fn fits(m: (u8, u32)) -> bool {
        <(u8, PlayerId) as BukrsType>::fits(m)
    }

    open spec fn native_ty() -> BukrsNativeType {
        BukrsNativeType::CUSTOM
    }

    proof fn lemma_wire_unambiguous(m1: (u8, u32), m2: (u8, u32), r1: Seq<u8>, r2: Seq<u8>) {
        <(u8, PlayerId) as BukrsType>::lemma_wire_unambiguous(m1, m2, r1, r2);
    }

    fn ty(&self) -> BukrsNativeType {
        BukrsNativeType::CUSTOM
    }

    fn encode(&self, bytes: &mut BytesMut) -> (r: Result<(), BukrsError>) {
        match self.slot.encode(bytes) {
            Ok(()) => {},
            Err(e) => {
                return Err(e);
            },
        }
        match self.player_id.encode(bytes) {
            Ok(()) => {},
            Err(e) => {
                return Err(e);
            },
        }
        proof {
            assert(contents(*bytes) =~= contents(*old(bytes)) + Self::wire(self.deep_view()));
        }
        Ok(())
    }

    fn decode(bytes: &mut BytesMut) -> (r: Result<Self, BukrsError>) {
        let ghost orig = contents(*bytes);
        match <(u8, PlayerId) as BukrsType>::decode(bytes) {
            Ok((f0, f1)) => {
                let v = BukrsSDInvClick { slot: f0, player_id: f1 };
                proof {
                    assert forall|m: (u8, u32), rest: Seq<u8>|
                        Self::fits(m) && orig == #[trigger] (Self::wire(m) + rest) implies m
                        == v.deep_view() && rest == contents(*bytes) by {
                        assert(orig == <(u8, PlayerId) as BukrsType>::wire(m) + rest);
                    }
                }
                Ok(v)
            },
            Err(e) => {
                proof {
                    assert forall|m: (u8, u32), rest: Seq<u8>|
                        !(Self::fits(m) && orig == #[trigger] (Self::wire(m) + rest)) by {
                        if Self::fits(m) && orig == Self::wire(m) + rest {
                            assert(orig == <(u8, PlayerId) as BukrsType>::wire(m) + rest);
                        }
                    }
                }
                Err(e)
            },
        }
    }
}

#[derive(Debug, Clone, PartialEq)]
pub struct BukrsSDInvOpen {
    pub player_id: PlayerId,
}

impl DeepView for BukrsSDInvOpen {
    type V = u32;

    open spec fn deep_view(&self) -> u32 {
        self.player_id.deep_view()
    }
}

impl BukrsType for BukrsSDInvOpen {
    open spec fn wire(m: u32) -> Seq<u8> {
        <PlayerId as BukrsType>::wire(m)
    }

    open spec fn fits(m: u32) -> bool {
        <PlayerId as BukrsType>::fits(m)
    }

    open spec fn native_ty() -> BukrsNativeType {
        BukrsNativeType::CUSTOM
    }

    proof fn lemma_wire_unambiguous(m1: u32, m2: u32, r1: Seq<u8>, r2: Seq<u8>) {
        <PlayerId as BukrsType>::lemma_wire_unambiguous(m1, m2, r1, r2);
    }

    fn ty(&self) -> BukrsNativeType {
        BukrsNativeType::CUSTOM
    }

    fn encode(&self, bytes: &mut BytesMut) -> (r: Result<(), BukrsError>) {
        match self.player_id.encode(bytes) {
            Ok(()) => {},
            Err(e) => {
                return Err(e);
            },
        }
        proof {
            assert(contents(*bytes) =~= contents(*old(bytes)) + Self::wire(self.deep_view()));
        }
        Ok(())
    }

    fn decode(bytes: &mut BytesMut) -> (r: Result<Self, BukrsError>) {
        let ghost orig = contents(*bytes);
        match <PlayerId as BukrsType>::decode(bytes) {
            Ok(f0) => {
                let v = BukrsSDInvOpen { player_id: f0 };
                proof {
                    assert forall|m: u32, rest: Seq<u8>|
                        Self::fits(m) && orig == #[trigger] (Self::wire(m) + rest) implies m
                        == v.deep_view() && rest == contents(*bytes) by {
                        assert(orig == <PlayerId as BukrsType>::wire(m) + rest);
                    }
                }
                Ok(v)
            },
            Err(e) => {
                proof {
                    assert forall|m: u32, rest: Seq<u8>|
                        !(Self::fits(m) && orig == #[trigger] (Self::wire(m) + rest)) by {
                        if Self::fits(m) && orig == Self::wire(m) + rest {
                            assert(orig == <PlayerId as BukrsType>::wire(m) + rest);
                        }
                    }
                }
                Err(e)
            },
        }
    }
}

#[derive(Debug, Clone, PartialEq)]
pub struct BukrsSDInvClose {
    pub player_id: PlayerId,
}

impl DeepView for BukrsSDInvClose {
    type V = u32;

    open spec fn deep_view(&self) -> u32 {
        self.player_id.deep_view()
    }
}

impl BukrsType for BukrsSDInvClose {
    open spec fn wire(m: u32) -> Seq<u8> {
        <PlayerId as BukrsType>::wire(m)
    }

    open spec fn fits(m: u32) -> bool {
        <PlayerId as BukrsType>::fits(m)
    }

    open spec fn native_ty() -> BukrsNativeType {
        BukrsNativeType::CUSTOM
    }

    proof fn lemma_wire_unambiguous(m1: u32, m2: u32, r1: Seq<u8>, r2: Seq<u8>) {
        <PlayerId as BukrsType>::lemma_wire_unambiguous(m1, m2, r1, r2);
    }

    fn ty(&self) -> BukrsNativeType {
        BukrsNativeType::CUSTOM
    }

    fn encode(&self, bytes: &mut BytesMut) -> (r: Result<(), BukrsError>) {
        match self.player_id.encode(bytes) {
            Ok(()) => {},
            Err(e) => {
                return Err(e);
            },
        }
        proof {
            assert(contents(*bytes) =~= contents(*old(bytes)) + Self::wire(self.deep_view()));
        }
        Ok(())
    }

    fn decode(bytes: &mut BytesMut) -> (r: Result<Self, BukrsError>) {
        let ghost orig = contents(*bytes);
        match <PlayerId as BukrsType>::decode(bytes) {
            Ok(f0) => {
                let v = BukrsSDInvClose { player_id: f0 };
                proof {
                    assert forall|m: u32, rest: Seq<u8>|
                        Self::fits(m) && orig == #[trigger] (Self::wire(m) + rest) implies m
                        == v.deep_view() && rest == contents(*bytes) by {
                        assert(orig == <PlayerId as BukrsType>::wire(m) + rest);
                    }
                }
                Ok(v)
            },
            Err(e) => {
                proof {
                    assert forall|m: u32, rest: Seq<u8>|
                        !(Self::fits(m) && orig == #[trigger] (Self::wire(m) + rest)) by {
                        if Self::fits(m) && orig == Self::wire(m) + rest {
                            assert(orig == <PlayerId as BukrsType>::wire(m) + rest);
                        }
                    }
                }
                Err(e)
            },
        }
    }
}

#[derive(Debug, Clone, PartialEq)]
pub struct BukrsReqPlayerInvOpen {
    pub inv_id: InvfxId,
    pub player_id: PlayerId,
}

impl DeepView for BukrsReqPlayerInvOpen {
    type V = (u32, u32);

    open spec fn deep_view(&self) -> (u32, u32) {
        (self.inv_id.deep_view(), self.player_id.deep_view())
    }
}

impl BukrsType for BukrsReqPlayerInvOpen {
    open spec fn wire(m: (u32, u32)) -> Seq<u8> {
        <(InvfxId, PlayerId) as BukrsType>::wire(m)
    }

    open spec fn fits(m: (u32, u32)) -> bool {
        <(InvfxId, PlayerId) as BukrsType>::fits(m)
    }

    open spec fn native_ty() -> BukrsNativeType {
        BukrsNativeType::CUSTOM
    }

    proof fn lemma_wire_unambiguous(m1: (u32, u32), m2: (u32, u32), r1: Seq<u8>, r2: Seq<u8>) {
        <(InvfxId, PlayerId) as BukrsType>::lemma_wire_unambiguous(m1, m2, r1, r2);
    }

    fn ty(&self) -> BukrsNativeType {
        BukrsNativeType::CUSTOM
    }

    fn encode(&self, bytes: &mut BytesMut) -> (r: Result<(), BukrsError>) {
        match self.inv_id.encode(bytes) {
            Ok(()) => {},
            Err(e) => {
                return Err(e);
            },
        }
        match self.player_id.encode(bytes) {
            Ok(()) => {},
            Err(e) => {
                return Err(e);
            },
        }
        proof {
            assert(contents(*bytes) =~= contents(*old(bytes)) + Self::wire(self.deep_view()));
        }
        Ok(())
    }

    fn decode(bytes: &mut BytesMut) -> (r: Result<Self, BukrsError>) {
        let ghost orig = contents(*bytes);
        match <(InvfxId, PlayerId) as BukrsType>::decode(bytes) {
            Ok((f0, f1)) => {
                let v = BukrsReqPlayerInvOpen { inv_id: f0, player_id: f1 };
                proof {
                    assert forall|m: (u32, u32), rest: Seq<u8>|
                        Self::fits(m) && orig == #[trigger] (Self::wire(m) + rest) implies m
                        == v.deep_view() && rest == contents(*bytes) by {
                        assert(orig == <(InvfxId, PlayerId) as BukrsType>::wire(m) + rest);
                    }
                }
                Ok(v)
            },
            Err(e) => {
                proof {
                    assert forall|m: (u32, u32), rest: Seq<u8>|
                        !(Self::fits(m) && orig == #[trigger] (Self::wire(m) + rest)) by {
                        if Self::fits(m) && orig == Self::wire(m) + rest {
                            assert(orig == <(InvfxId, PlayerId) as BukrsType>::wire(m) + rest);
                        }
                    }
                }
                Err(e)
            },
        }
    }
}

#[derive(Debug, Clone, PartialEq)]
pub struct BukrsResPlayerInvOpen {}

impl DeepView for BukrsResPlayerInvOpen {
    type V = ();

    open spec fn deep_view(&self) -> () {
        ()
    }
}

impl BukrsType for BukrsResPlayerInvOpen {
    open spec fn wire(m: ()) -> Seq<u8> {
        Seq::empty()
    }

    open spec fn fits(m: ()) -> bool {
        true
    }

    open spec fn native_ty() -> BukrsNativeType {
        BukrsNativeType::CUSTOM
    }

    proof fn lemma_wire_unambiguous(m1: (), m2: (), r1: Seq<u8>, r2: Seq<u8>) {
        assert(Seq::<u8>::empty() + r1 =~= r1);
        assert(Seq::<u8>::empty() + r2 =~= r2);
    }

    fn ty(&self) -> BukrsNativeType {
        BukrsNativeType::CUSTOM
    }

    fn encode(&self, bytes: &mut BytesMut) -> (r: Result<(), BukrsError>) {
        proof {
            assert(contents(*bytes) =~= contents(*bytes) + Self::wire(()));
        }
        Ok(())
    }

    fn decode(bytes: &mut BytesMut) -> (r: Result<Self, BukrsError>) {
        let ghost orig = contents(*bytes);
        proof {
            assert(orig =~= Self::wire(()) + orig);
            assert forall|m: (), rest: Seq<u8>|
                Self::fits(m) && orig == #[trigger] (Self::wire(m) + rest) implies rest
                == contents(*bytes) by {
                assert(rest =~= orig);
            }
        }
        Ok(BukrsResPlayerInvOpen {})
    }
}

#[derive(Debug, Clone, PartialEq)]
pub struct BukrsReqCreateInvList {
    pub inv_id: InvfxId,
    pub list: InvList,
}

impl DeepView for BukrsReqCreateInvList {
    type V = (u32, (u32, Seq<(u8, (Seq<char>, Seq<char>))>));

    open spec fn deep_view(&self) -> (u32, (u32, Seq<(u8, (Seq<char>, Seq<char>))>)) {
        (self.inv_id.deep_view(), self.list.deep_view())
    }
}

impl BukrsType for BukrsReqCreateInvList {
    open spec fn wire(m: (u32, (u32, Seq<(u8, (Seq<char>, Seq<char>))>))) -> Seq<u8> {
        <(InvfxId, InvList) as BukrsType>::wire(m)
    }

    open spec fn fits(m: (u32, (u32, Seq<(u8, (Seq<char>, Seq<char>))>))) -> bool {
        <(InvfxId, InvList) as BukrsType>::fits(m)
    }

    open spec fn native_ty() -> BukrsNativeType {
        BukrsNativeType::CUSTOM
    }

    proof fn lemma_wire_unambiguous(m1: (u32, (u32, Seq<(u8, (Seq<char>, Seq<char>))>)), m2: (u32, (u32, Seq<(u8, (Seq<char>, Seq<char>))>)), r1: Seq<u8>, r2: Seq<u8>) {
        <(InvfxId, InvList) as BukrsType>::lemma_wire_unambiguous(m1, m2, r1, r2);
    }

    fn ty(&self) -> BukrsNativeType {
        BukrsNativeType::CUSTOM
    }

    fn encode(&self, bytes: &mut BytesMut) -> (r: Result<(), BukrsError>) {
        match self.inv_id.encode(bytes) {
            Ok(()) => {},
            Err(e) => {
                return Err(e);
            },
        }
        match self.list.encode(bytes) {
            Ok(()) => {},
            Err(e) => {
                return Err(e);
            },
        }
        proof {
            assert(contents(*bytes) =~= contents(*old(bytes)) + Self::wire(self.deep_view()));
        }
        Ok(())
    }

    fn decode(bytes: &mut BytesMut) -> (r: Result<Self, BukrsError>) {
        let ghost orig = contents(*bytes);
        match <(InvfxId, InvList) as BukrsType>::decode(bytes) {
            Ok((f0, f1)) => {
                let v = BukrsReqCreateInvList { inv_id: f0, list: f1 };
                proof {
                    assert forall|m: (u32, (u32, Seq<(u8, (Seq<char>, Seq<char>))>)), rest: Seq<u8>|
                        Self::fits(m) && orig == #[trigger] (Self::wire(m) + rest) implies m
                        == v.deep_view() && rest == contents(*bytes) by {
                        assert(orig == <(InvfxId, InvList) as BukrsType>::wire(m) + rest);
                    }
                }
                Ok(v)
            },
            Err(e) => {
                proof {
                    assert forall|m: (u32, (u32, Seq<(u8, (Seq<char>, Seq<char>))>)), rest: Seq<u8>|
                        !(Self::fits(m) && orig == #[trigger] (Self::wire(m) + rest)) by {
                        if Self::fits(m) && orig == Self::wire(m) + rest {
                            assert(orig == <(InvfxId, InvList) as BukrsType>::wire(m) + rest);
                        }
                    }
                }
                Err(e)
            },
        }
    }
}

#[derive(Debug, Clone, PartialEq)]
pub struct BukrsResCreateInvList {}

impl DeepView for BukrsResCreateInvList {
    type V = ();

    open spec fn deep_view(&self) -> () {
        ()
    }
}

impl BukrsType for BukrsResCreateInvList {
    open spec fn wire(m: ()) -> Seq<u8> {
        Seq::empty()
    }

    open spec fn fits(m: ()) -> bool {
        true
    }

    open spec fn native_ty() -> BukrsNativeType {
        BukrsNativeType::CUSTOM
    }

    proof fn lemma_wire_unambiguous(m1: (), m2: (), r1: Seq<u8>, r2: Seq<u8>) {
        assert(Seq::<u8>::empty() + r1 =~= r1);
        assert(Seq::<u8>::empty() + r2 =~= r2);
    }

    fn ty(&self) -> BukrsNativeType {
        BukrsNativeType::CUSTOM
    }

    fn encode(&self, bytes: &mut BytesMut) -> (r: Result<(), BukrsError>) {
        proof {
            assert(contents(*bytes) =~= contents(*bytes) + Self::wire(()));
        }
        Ok(())
    }

    fn decode(bytes: &mut BytesMut) -> (r: Result<Self, BukrsError>) {
        let ghost orig = contents(*bytes);
        proof {
            assert(orig =~= Self::wire(()) + orig);
            assert forall|m: (), rest: Seq<u8>|
                Self::fits(m) && orig == #[trigger] (Self::wire(m) + rest) implies rest
                == contents(*bytes) by {
                assert(rest =~= orig);
            }
        }
        Ok(BukrsResCreateInvList {})
    }
}

#[derive(Debug, Clone, PartialEq)]
pub struct BukrsReqModifyInvList {
    pub inv_id: InvfxId,
    pub list: InvList,
}

impl DeepView for BukrsReqModifyInvList {
    type V = (u32, (u32, Seq<(u8, (Seq<char>, Seq<char>))>));

    open spec fn deep_view(&self) -> (u32, (u32, Seq<(u8, (Seq<char>, Seq<char>))>)) {
        (self.inv_id.deep_view(), self.list.deep_view())
    }
}

impl BukrsType for BukrsReqModifyInvList {
    open spec fn wire(m: (u32, (u32, Seq<(u8, (Seq<char>, Seq<char>))>))) -> Seq<u8> {
        <(InvfxId, InvList) as BukrsType>::wire(m)
    }

    open spec fn fits(m: (u32, (u32, Seq<(u8, (Seq<char>, Seq<char>))>))) -> bool {
        <(InvfxId, InvList) as BukrsType>::fits(m)
    }

    open spec fn native_ty() -> BukrsNativeType {
        BukrsNativeType::CUSTOM
    }

    proof fn lemma_wire_unambiguous(m1: (u32, (u32, Seq<(u8, (Seq<char>, Seq<char>))>)), m2: (u32, (u32, Seq<(u8, (Seq<char>, Seq<char>))>)), r1: Seq<u8>, r2: Seq<u8>) {
        <(InvfxId, InvList) as BukrsType>::lemma_wire_unambiguous(m1, m2, r1, r2);
    }

    fn ty(&self) -> BukrsNativeType {
        BukrsNativeType::CUSTOM
    }

    fn encode(&self, bytes: &mut BytesMut) -> (r: Result<(), BukrsError>) {
        match self.inv_id.encode(bytes) {
            Ok(()) => {},
            Err(e) => {
                return Err(e);
            },
        }
        match self.list.encode(bytes) {
            Ok(()) => {},
            Err(e) => {
                return Err(e);
            },
        }
        proof {
            assert(contents(*bytes) =~= contents(*old(bytes)) + Self::wire(self.deep_view()));
        }
        Ok(())
    }

    fn decode(bytes: &mut BytesMut) -> (r: Result<Self, BukrsError>) {
        let ghost orig = contents(*bytes);
        match <(InvfxId, InvList) as BukrsType>::decode(bytes) {
            Ok((f0, f1)) => {
                let v = BukrsReqModifyInvList { inv_id: f0, list: f1 };
                proof {
                    assert forall|m: (u32, (u32, Seq<(u8, (Seq<char>, Seq<char>))>)), rest: Seq<u8>|
                        Self::fits(m) && orig == #[trigger] (Self::wire(m) + rest) implies m
                        == v.deep_view() && rest == contents(*bytes) by {
                        assert(orig == <(InvfxId, InvList) as BukrsType>::wire(m) + rest);
                    }
                }
                Ok(v)
            },
            Err(e) => {
                proof {
                    assert forall|m: (u32, (u32, Seq<(u8, (Seq<char>, Seq<char>))>)), rest: Seq<u8>|
                        !(Self::fits(m) && orig == #[trigger] (Self::wire(m) + rest)) by {
                        if Self::fits(m) && orig == Self::wire(m) + rest {
                            assert(orig == <(InvfxId, InvList) as BukrsType>::wire(m) + rest);
                        }
                    }
                }
                Err(e)
            },
        }
    }
}

#[derive(Debug, Clone, PartialEq)]
pub struct BukrsResModifyInvList {}

impl DeepView for BukrsResModifyInvList {
    type V = ();

    open spec fn deep_view(&self) -> () {
        ()
    }
}

impl BukrsType for BukrsResModifyInvList {
    open spec fn wire(m: ()) -> Seq<u8> {
        Seq::empty()
    }

    open spec fn fits(m: ()) -> bool {
        true
    }

    open spec fn native_ty() -> BukrsNativeType {
        BukrsNativeType::CUSTOM
    }

    proof fn lemma_wire_unambiguous(m1: (), m2: (), r1: Seq<u8>, r2: Seq<u8>) {
        assert(Seq::<u8>::empty() + r1 =~= r1);
        assert(Seq::<u8>::empty() + r2 =~= r2);
    }

    fn ty(&self) -> BukrsNativeType {
        BukrsNativeType::CUSTOM
    }

    fn encode(&self, bytes: &mut BytesMut) -> (r: Result<(), BukrsError>) {
        proof {
            assert(contents(*bytes) =~= contents(*bytes) + Self::wire(()));
        }
        Ok(())
    }

    fn decode(bytes: &mut BytesMut) -> (r: Result<Self, BukrsError>) {
        let ghost orig = contents(*bytes);
        proof {
            assert(orig =~= Self::wire(()) + orig);
            assert forall|m: (), rest: Seq<u8>|
                Self::fits(m) && orig == #[trigger] (Self::wire(m) + rest) implies rest
                == contents(*bytes) by {
                assert(rest =~= orig);
            }
        }
        Ok(BukrsResModifyInvList {})
    }
}

} // verus!
