//! Player identity data carried by the protocol.

use vstd::prelude::*;
use crate::bytebuf::{BytesMut, contents};
use crate::errors::BukrsError;
use crate::typecodec::{BukrsType, BukrsNativeType};

verus! {

#[derive(Debug, Clone, PartialEq)]
pub struct PlayerId(pub u32);

impl DeepView for PlayerId {
    type V = u32;

    open spec fn deep_view(&self) -> u32 {
        self.0
    }
}

impl BukrsType for PlayerId {
    open spec fn wire(m: u32) -> Seq<u8> {
        <u32 as BukrsType>::wire(m)
    }

    open spec fn fits(m: u32) -> bool {
        true
    }

    open spec fn native_ty() -> BukrsNativeType {
        BukrsNativeType::U32
    }

    proof fn lemma_wire_unambiguous(m1: u32, m2: u32, r1: Seq<u8>, r2: Seq<u8>) {
        <u32 as BukrsType>::lemma_wire_unambiguous(m1, m2, r1, r2);
    }

    fn ty(&self) -> BukrsNativeType {
        BukrsNativeType::U32
    }

    fn encode(&self, bytes: &mut BytesMut) -> (r: Result<(), BukrsError>) {
        match self.0.encode(bytes) {
            Ok(()) => {},
            Err(e) => {
                return Err(e);
            },
        }
        Ok(())
    }

    fn decode(bytes: &mut BytesMut) -> (r: Result<Self, BukrsError>) {
        let ghost orig = contents(*bytes);
        match <u32 as BukrsType>::decode(bytes) {
            Ok(f0) => {
                let v = PlayerId(f0);
                proof {
                    assert forall|m: u32, rest: Seq<u8>|
                        Self::fits(m) && orig == #[trigger] (Self::wire(m) + rest) implies m
                        == v.deep_view() && rest == contents(*bytes) by {
                        assert(orig == <u32 as BukrsType>::wire(m) + rest);
                    }
                }
                Ok(v)
            },
            Err(e) => {
                proof {
                    assert forall|m: u32, rest: Seq<u8>|
                        !(Self::fits(m) && orig == #[trigger] (Self::wire(m) + rest)) by {
                        if Self::fits(m) && orig == Self::wire(m) + rest {
                            assert(orig == <u32 as BukrsType>::wire(m) + rest);
                        }
                    }
                }
                Err(e)
            },
        }
    }
}

#[derive(Debug, Clone, PartialEq)]
pub struct UUID {
    pub lsb: u64,
    pub msb: u64,
}

impl DeepView for UUID {
    type V = (u64, u64);

    open spec fn deep_view(&self) -> (u64, u64) {
        (self.lsb.deep_view(), self.msb.deep_view())
    }
}

impl BukrsType for UUID {
    open spec fn wire(m: (u64, u64)) -> Seq<u8> {
        <(u64, u64) as BukrsType>::wire(m)
    }

    open spec fn fits(m: (u64, u64)) -> bool {
        <(u64, u64) as BukrsType>::fits(m)
    }

    open spec fn native_ty() -> BukrsNativeType {
        BukrsNativeType::CUSTOM
    }

    proof fn lemma_wire_unambiguous(m1: (u64, u64), m2: (u64, u64), r1: Seq<u8>, r2: Seq<u8>) {
        <(u64, u64) as BukrsType>::lemma_wire_unambiguous(m1, m2, r1, r2);
    }

    fn ty(&self) -> BukrsNativeType {
        BukrsNativeType::CUSTOM
    }

    fn encode(&self, bytes: &mut BytesMut) -> (r: Result<(), BukrsError>) {
        match self.lsb.encode(bytes) {
            Ok(()) => {},
            Err(e) => {
                return Err(e);
            },
        }
        match self.msb.encode(bytes) {
            Ok(()) => {},
            Err(e) => {
                return Err(e);
            },
        }
        proof {
            assert(contents(*bytes) =~= contents(*old(bytes)) + Self::wire(self.deep_view()));
        }
        Ok(())
    }

    fn decode(bytes: &mut BytesMut) -> (r: Result<Self, BukrsError>) {
        let ghost orig = contents(*bytes);
        match <(u64, u64) as BukrsType>::decode(bytes) {
            Ok((f0, f1)) => {
                let v = UUID { lsb: f0, msb: f1 };
                proof {
                    assert forall|m: (u64, u64), rest: Seq<u8>|
                        Self::fits(m) && orig == #[trigger] (Self::wire(m) + rest) implies m
                        == v.deep_view() && rest == contents(*bytes) by {
                        assert(orig == <(u64, u64) as BukrsType>::wire(m) + rest);
                    }
                }
                Ok(v)
            },
            Err(e) => {
                proof {
                    assert forall|m: (u64, u64), rest: Seq<u8>|
                        !(Self::fits(m) && orig == #[trigger] (Self::wire(m) + rest)) by {
                        if Self::fits(m) && orig == Self::wire(m) + rest {
                            assert(orig == <(u64, u64) as BukrsType>::wire(m) + rest);
                        }
                    }
                }
                Err(e)
            },
        }
    }
}

#[derive(Debug, Clone, PartialEq)]
pub struct PlayerData {
    pub id: PlayerId,
    pub name: String,
    pub uuid: UUID,
}

impl DeepView for PlayerData {
    type V = (u32, (Seq<char>, (u64, u64)));

    open spec fn deep_view(&self) -> (u32, (Seq<char>, (u64, u64))) {
        (self.id.deep_view(), (self.name.deep_view(), self.uuid.deep_view()))
    }
}

impl BukrsType for PlayerData {
    open spec fn wire(m: (u32, (Seq<char>, (u64, u64)))) -> Seq<u8> {
        <(PlayerId, (String, UUID)) as BukrsType>::wire(m)
    }

    open spec fn fits(m: (u32, (Seq<char>, (u64, u64)))) -> bool {
        <(PlayerId, (String, UUID)) as BukrsType>::fits(m)
    }

    open spec fn native_ty() -> BukrsNativeType {
        BukrsNativeType::CUSTOM
    }

    proof fn lemma_wire_unambiguous(m1: (u32, (Seq<char>, (u64, u64))), m2: (u32, (Seq<char>, (u64, u64))), r1: Seq<u8>, r2: Seq<u8>) {
        <(PlayerId, (String, UUID)) as BukrsType>::lemma_wire_unambiguous(m1, m2, r1, r2);
    }

    fn ty(&self) -> BukrsNativeType {
        BukrsNativeType::CUSTOM
    }

    fn encode(&self, bytes: &mut BytesMut) -> (r: Result<(), BukrsError>) {
        match self.id.encode(bytes) {
            Ok(()) => {},
            Err(e) => {
                return Err(e);
            },
        }
        match self.name.encode(bytes) {
            Ok(()) => {},
            Err(e) => {
                return Err(e);
            },
        }
        match self.uuid.encode(bytes) {
            Ok(()) => {},
            Err(e) => {
                return Err(e);
            },
        }
        proof {
            assert(contents(*bytes) =~= contents(*old(bytes)) + Self::wire(self.deep_view()));
        }
        Ok(())
    }

    fn decode(bytes: &mut BytesMut) -> (r: Result<Self, BukrsError>) {
        let ghost orig = contents(*bytes);
        match <(PlayerId, (String, UUID)) as BukrsType>::decode(bytes) {
            Ok((f0, (f1, f2))) => {
                let v = PlayerData { id: f0, name: f1, uuid: f2 };
                proof {
                    assert forall|m: (u32, (Seq<char>, (u64, u64))), rest: Seq<u8>|
                        Self::fits(m) && orig == #[trigger] (Self::wire(m) + rest) implies m
                        == v.deep_view() && rest == contents(*bytes) by {
                        assert(orig == <(PlayerId, (String, UUID)) as BukrsType>::wire(m) + rest);
                    }
                }
                Ok(v)
            },
            Err(e) => {
                proof {
                    assert forall|m: (u32, (Seq<char>, (u64, u64))), rest: Seq<u8>|
                        !(Self::fits(m) && orig == #[trigger] (Self::wire(m) + rest)) by {
                        if Self::fits(m) && orig == Self::wire(m) + rest {
                            assert(orig == <(PlayerId, (String, UUID)) as BukrsType>::wire(m) + rest);
                        }
                    }
                }
                Err(e)
            },
        }
    }
}

} // verus!
