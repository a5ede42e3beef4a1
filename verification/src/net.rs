//! Wire framing, the packet registry, and the registered packet shapes.
//!
//! A frame is `varint(payload_length) | u32 correlation id | payload`, where
//! the payload is the length-prefixed tag string followed by the packet's
//! field encodings.  The registry is the closed set of tagged shapes below;
//! it is fixed before any decode runs and never changes afterwards.

use vstd::prelude::*;
use vstd::string::StringExecFns;
use crate::bytebuf::{
    BytesMut, contents, u32_be, buf_len, get_u32, put_u32, put_buf, buf_new, clone_buf, advance,
    split_to, lemma_u32_be_injective,
};
use crate::errors::BukrsError;
use crate::typecodec::{BukrsType, BukrsNativeType, lemma_concat_parts};
use crate::varint::{varint_wire, read_varint, write_varint, lemma_varint_wire_len};
use crate::invfx::{InvfxId, InvList, InvSlot, ItemStack};
use crate::packets::{
    BukrsReqAPI, BukrsResAPI, BukrsReqOnlinePlayers, BukrsResOnlinePlayers, BukrsReqPlayerById,
    BukrsReqPlayerByName, BukrsResPlayerData, BukrsReqCreateInventory, BukrsResCreateInventory,
    BukrsSDInvClick, BukrsSDInvOpen, BukrsSDInvClose, BukrsReqPlayerInvOpen,
    BukrsResPlayerInvOpen, BukrsReqCreateInvList, BukrsResCreateInvList, BukrsReqModifyInvList,
    BukrsResModifyInvList,
};
use crate::player::{PlayerId, PlayerData, UUID};

verus! {


/// The closed set of packet shapes the registry knows.  Dispatch by tag
/// lands in exactly one variant, so recovering a concrete shape is a checked
/// match instead of a runtime-failable downcast.
#[derive(Debug, Clone, PartialEq)]
pub enum Packet {
    ReqAPI(BukrsReqAPI),
    ResAPI(BukrsResAPI),
    ReqOnlinePlayers(BukrsReqOnlinePlayers),
    ResOnlinePlayers(BukrsResOnlinePlayers),
    ReqPlayerById(BukrsReqPlayerById),
    ReqPlayerByName(BukrsReqPlayerByName),
    ResPlayerData(BukrsResPlayerData),
    ReqCreateInventory(BukrsReqCreateInventory),
    ResCreateInventory(BukrsResCreateInventory),
    SDInvClick(BukrsSDInvClick),
    SDInvOpen(BukrsSDInvOpen),
    SDInvClose(BukrsSDInvClose),
    ReqPlayerInvOpen(BukrsReqPlayerInvOpen),
    ResPlayerInvOpen(BukrsResPlayerInvOpen),
    ReqCreateInvList(BukrsReqCreateInvList),
    ResCreateInvList(BukrsResCreateInvList),
    ReqModifyInvList(BukrsReqModifyInvList),
    ResModifyInvList(BukrsResModifyInvList),
}

/// The mathematical view of a packet: its variant and its field views.
#[verifier::ext_equal]
pub enum PacketV {
    ReqAPI(<BukrsReqAPI as DeepView>::V),
    ResAPI(<BukrsResAPI as DeepView>::V),
    ReqOnlinePlayers(<BukrsReqOnlinePlayers as DeepView>::V),
    ResOnlinePlayers(<BukrsResOnlinePlayers as DeepView>::V),
    ReqPlayerById(<BukrsReqPlayerById as DeepView>::V),
    ReqPlayerByName(<BukrsReqPlayerByName as DeepView>::V),
    ResPlayerData(<BukrsResPlayerData as DeepView>::V),
    ReqCreateInventory(<BukrsReqCreateInventory as DeepView>::V),
    ResCreateInventory(<BukrsResCreateInventory as DeepView>::V),
    SDInvClick(<BukrsSDInvClick as DeepView>::V),
    SDInvOpen(<BukrsSDInvOpen as DeepView>::V),
    SDInvClose(<BukrsSDInvClose as DeepView>::V),
    ReqPlayerInvOpen(<BukrsReqPlayerInvOpen as DeepView>::V),
    ResPlayerInvOpen(<BukrsResPlayerInvOpen as DeepView>::V),
    ReqCreateInvList(<BukrsReqCreateInvList as DeepView>::V),
    ResCreateInvList(<BukrsResCreateInvList as DeepView>::V),
    ReqModifyInvList(<BukrsReqModifyInvList as DeepView>::V),
    ResModifyInvList(<BukrsResModifyInvList as DeepView>::V),
}

impl DeepView for Packet {
    type V = PacketV;

    open spec fn deep_view(&self) -> PacketV {
        match self {
            Packet::ReqAPI(x) => PacketV::ReqAPI(x.deep_view()),
            Packet::ResAPI(x) => PacketV::ResAPI(x.deep_view()),
            Packet::ReqOnlinePlayers(x) => PacketV::ReqOnlinePlayers(x.deep_view()),
            Packet::ResOnlinePlayers(x) => PacketV::ResOnlinePlayers(x.deep_view()),
            Packet::ReqPlayerById(x) => PacketV::ReqPlayerById(x.deep_view()),
            Packet::ReqPlayerByName(x) => PacketV::ReqPlayerByName(x.deep_view()),
            Packet::ResPlayerData(x) => PacketV::ResPlayerData(x.deep_view()),
            Packet::ReqCreateInventory(x) => PacketV::ReqCreateInventory(x.deep_view()),
            Packet::ResCreateInventory(x) => PacketV::ResCreateInventory(x.deep_view()),
            Packet::SDInvClick(x) => PacketV::SDInvClick(x.deep_view()),
            Packet::SDInvOpen(x) => PacketV::SDInvOpen(x.deep_view()),
            Packet::SDInvClose(x) => PacketV::SDInvClose(x.deep_view()),
            Packet::ReqPlayerInvOpen(x) => PacketV::ReqPlayerInvOpen(x.deep_view()),
            Packet::ResPlayerInvOpen(x) => PacketV::ResPlayerInvOpen(x.deep_view()),
            Packet::ReqCreateInvList(x) => PacketV::ReqCreateInvList(x.deep_view()),
            Packet::ResCreateInvList(x) => PacketV::ResCreateInvList(x.deep_view()),
            Packet::ReqModifyInvList(x) => PacketV::ReqModifyInvList(x.deep_view()),
            Packet::ResModifyInvList(x) => PacketV::ResModifyInvList(x.deep_view()),
        }
    }
}

/// The tag string that names a packet's shape on the wire.
pub open spec fn tag_of(m: PacketV) -> Seq<char> {
    match m {
        PacketV::ReqAPI(_) => "BukrsReqAPI"@,
        PacketV::ResAPI(_) => "BukrsResAPI"@,
        PacketV::ReqOnlinePlayers(_) => "BukrsReqOnlinePlayers"@,
        PacketV::ResOnlinePlayers(_) => "BukrsResOnlinePlayers"@,
        PacketV::ReqPlayerById(_) => "BukrsReqPlayerById"@,
        PacketV::ReqPlayerByName(_) => "BukrsReqPlayerByName"@,
        PacketV::ResPlayerData(_) => "BukrsResPlayerData"@,
        PacketV::ReqCreateInventory(_) => "BukrsReqCreateInventory"@,
        PacketV::ResCreateInventory(_) => "BukrsResCreateInventory"@,
        PacketV::SDInvClick(_) => "BukrsSDInvClick"@,
        PacketV::SDInvOpen(_) => "BukrsSDInvOpen"@,
        PacketV::SDInvClose(_) => "BukrsSDInvClose"@,
        PacketV::ReqPlayerInvOpen(_) => "BukrsReqPlayerInvOpen"@,
        PacketV::ResPlayerInvOpen(_) => "BukrsResPlayerInvOpen"@,
        PacketV::ReqCreateInvList(_) => "BukrsReqCreateInvList"@,
        PacketV::ResCreateInvList(_) => "BukrsResCreateInvList"@,
        PacketV::ReqModifyInvList(_) => "BukrsReqModifyInvList"@,
        PacketV::ResModifyInvList(_) => "BukrsResModifyInvList"@,
    }
}

/// The concatenated field encodings of a packet.
pub open spec fn fields_wire(m: PacketV) -> Seq<u8> {
    match m {
        PacketV::ReqAPI(x) => <BukrsReqAPI as BukrsType>::wire(x),
        PacketV::ResAPI(x) => <BukrsResAPI as BukrsType>::wire(x),
        PacketV::ReqOnlinePlayers(x) => <BukrsReqOnlinePlayers as BukrsType>::wire(x),
        PacketV::ResOnlinePlayers(x) => <BukrsResOnlinePlayers as BukrsType>::wire(x),
        PacketV::ReqPlayerById(x) => <BukrsReqPlayerById as BukrsType>::wire(x),
        PacketV::ReqPlayerByName(x) => <BukrsReqPlayerByName as BukrsType>::wire(x),
        PacketV::ResPlayerData(x) => <BukrsResPlayerData as BukrsType>::wire(x),
        PacketV::ReqCreateInventory(x) => <BukrsReqCreateInventory as BukrsType>::wire(x),
        PacketV::ResCreateInventory(x) => <BukrsResCreateInventory as BukrsType>::wire(x),
        PacketV::SDInvClick(x) => <BukrsSDInvClick as BukrsType>::wire(x),
        PacketV::SDInvOpen(x) => <BukrsSDInvOpen as BukrsType>::wire(x),
        PacketV::SDInvClose(x) => <BukrsSDInvClose as BukrsType>::wire(x),
        PacketV::ReqPlayerInvOpen(x) => <BukrsReqPlayerInvOpen as BukrsType>::wire(x),
        PacketV::ResPlayerInvOpen(x) => <BukrsResPlayerInvOpen as BukrsType>::wire(x),
        PacketV::ReqCreateInvList(x) => <BukrsReqCreateInvList as BukrsType>::wire(x),
        PacketV::ResCreateInvList(x) => <BukrsResCreateInvList as BukrsType>::wire(x),
        PacketV::ReqModifyInvList(x) => <BukrsReqModifyInvList as BukrsType>::wire(x),
        PacketV::ResModifyInvList(x) => <BukrsResModifyInvList as BukrsType>::wire(x),
    }
}

/// Whether every field of the packet can be encoded.
pub open spec fn packet_fields_fit(m: PacketV) -> bool {
    match m {
        PacketV::ReqAPI(x) => <BukrsReqAPI as BukrsType>::fits(x),
        PacketV::ResAPI(x) => <BukrsResAPI as BukrsType>::fits(x),
        PacketV::ReqOnlinePlayers(x) => <BukrsReqOnlinePlayers as BukrsType>::fits(x),
        PacketV::ResOnlinePlayers(x) => <BukrsResOnlinePlayers as BukrsType>::fits(x),
        PacketV::ReqPlayerById(x) => <BukrsReqPlayerById as BukrsType>::fits(x),
        PacketV::ReqPlayerByName(x) => <BukrsReqPlayerByName as BukrsType>::fits(x),
        PacketV::ResPlayerData(x) => <BukrsResPlayerData as BukrsType>::fits(x),
        PacketV::ReqCreateInventory(x) => <BukrsReqCreateInventory as BukrsType>::fits(x),
        PacketV::ResCreateInventory(x) => <BukrsResCreateInventory as BukrsType>::fits(x),
        PacketV::SDInvClick(x) => <BukrsSDInvClick as BukrsType>::fits(x),
        PacketV::SDInvOpen(x) => <BukrsSDInvOpen as BukrsType>::fits(x),
        PacketV::SDInvClose(x) => <BukrsSDInvClose as BukrsType>::fits(x),
        PacketV::ReqPlayerInvOpen(x) => <BukrsReqPlayerInvOpen as BukrsType>::fits(x),
        PacketV::ResPlayerInvOpen(x) => <BukrsResPlayerInvOpen as BukrsType>::fits(x),
        PacketV::ReqCreateInvList(x) => <BukrsReqCreateInvList as BukrsType>::fits(x),
        PacketV::ResCreateInvList(x) => <BukrsResCreateInvList as BukrsType>::fits(x),
        PacketV::ReqModifyInvList(x) => <BukrsReqModifyInvList as BukrsType>::fits(x),
        PacketV::ResModifyInvList(x) => <BukrsResModifyInvList as BukrsType>::fits(x),
    }
}

/// The wire form of a length-prefixed string.
pub open spec fn str_wire(t: Seq<char>) -> Seq<u8> {
    <String as BukrsType>::wire(t)
}

/// Whether a string's UTF-8 form fits its four-byte length prefix.
pub open spec fn str_fits(t: Seq<char>) -> bool {
    <String as BukrsType>::fits(t)
}

/// A frame's payload: the tag string followed by the field encodings.
pub open spec fn payload_wire(m: PacketV) -> Seq<u8> {
    str_wire(tag_of(m)) + fields_wire(m)
}

/// Whether a packet's payload can be encoded at all.
pub open spec fn payload_fits(m: PacketV) -> bool {
    str_fits(tag_of(m)) && packet_fields_fit(m)
}

/// The tags the registry knows.  Built once, never extended at run time.
pub open spec fn registered(t: Seq<char>) -> bool {
    t == "BukrsReqAPI"@
        || t == "BukrsResAPI"@
        || t == "BukrsReqOnlinePlayers"@
        || t == "BukrsResOnlinePlayers"@
        || t == "BukrsReqPlayerById"@
        || t == "BukrsReqPlayerByName"@
        || t == "BukrsResPlayerData"@
        || t == "BukrsReqCreateInventory"@
        || t == "BukrsResCreateInventory"@
        || t == "BukrsSDInvClick"@
        || t == "BukrsSDInvOpen"@
        || t == "BukrsSDInvClose"@
        || t == "BukrsReqPlayerInvOpen"@
        || t == "BukrsResPlayerInvOpen"@
        || t == "BukrsReqCreateInvList"@
        || t == "BukrsResCreateInvList"@
        || t == "BukrsReqModifyInvList"@
        || t == "BukrsResModifyInvList"@
}

/// Only one registered shape carries this tag.
proof fn lemma_tag_reqapi(m: PacketV)
    requires
        tag_of(m) == "BukrsReqAPI"@,
    ensures
        m matches PacketV::ReqAPI(_),
{
    match m {
        PacketV::ReqAPI(_) => {},
        PacketV::ResAPI(_) => {
            reveal_strlit("BukrsReqAPI");
            reveal_strlit("BukrsResAPI");
            assert("BukrsReqAPI"@[7] != "BukrsResAPI"@[7]);
        },
        PacketV::ReqOnlinePlayers(_) => {
            reveal_strlit("BukrsReqAPI");
            reveal_strlit("BukrsReqOnlinePlayers");
            assert("BukrsReqAPI"@.len() != "BukrsReqOnlinePlayers"@.len());
        },
        PacketV::ResOnlinePlayers(_) => {
            reveal_strlit("BukrsReqAPI");
            reveal_strlit("BukrsResOnlinePlayers");
            assert("BukrsReqAPI"@.len() != "BukrsResOnlinePlayers"@.len());
        },
        PacketV::ReqPlayerById(_) => {
            reveal_strlit("BukrsReqAPI");
            reveal_strlit("BukrsReqPlayerById");
            assert("BukrsReqAPI"@.len() != "BukrsReqPlayerById"@.len());
        },
        PacketV::ReqPlayerByName(_) => {
            reveal_strlit("BukrsReqAPI");
            reveal_strlit("BukrsReqPlayerByName");
            assert("BukrsReqAPI"@.len() != "BukrsReqPlayerByName"@.len());
        },
        PacketV::ResPlayerData(_) => {
            reveal_strlit("BukrsReqAPI");
            reveal_strlit("BukrsResPlayerData");
            assert("BukrsReqAPI"@.len() != "BukrsResPlayerData"@.len());
        },
        PacketV::ReqCreateInventory(_) => {
            reveal_strlit("BukrsReqAPI");
            reveal_strlit("BukrsReqCreateInventory");
            assert("BukrsReqAPI"@.len() != "BukrsReqCreateInventory"@.len());
        },
        PacketV::ResCreateInventory(_) => {
            reveal_strlit("BukrsReqAPI");
            reveal_strlit("BukrsResCreateInventory");
            assert("BukrsReqAPI"@.len() != "BukrsResCreateInventory"@.len());
        },
        PacketV::SDInvClick(_) => {
            reveal_strlit("BukrsReqAPI");
            reveal_strlit("BukrsSDInvClick");
            assert("BukrsReqAPI"@.len() != "BukrsSDInvClick"@.len());
        },
        PacketV::SDInvOpen(_) => {
            reveal_strlit("BukrsReqAPI");
            reveal_strlit("BukrsSDInvOpen");
            assert("BukrsReqAPI"@.len() != "BukrsSDInvOpen"@.len());
        },
        PacketV::SDInvClose(_) => {
            reveal_strlit("BukrsReqAPI");
            reveal_strlit("BukrsSDInvClose");
            assert("BukrsReqAPI"@.len() != "BukrsSDInvClose"@.len());
        },
        PacketV::ReqPlayerInvOpen(_) => {
            reveal_strlit("BukrsReqAPI");
            reveal_strlit("BukrsReqPlayerInvOpen");
            assert("BukrsReqAPI"@.len() != "BukrsReqPlayerInvOpen"@.len());
        },
        PacketV::ResPlayerInvOpen(_) => {
            reveal_strlit("BukrsReqAPI");
            reveal_strlit("BukrsResPlayerInvOpen");
            assert("BukrsReqAPI"@.len() != "BukrsResPlayerInvOpen"@.len());
        },
        PacketV::ReqCreateInvList(_) => {
            reveal_strlit("BukrsReqAPI");
            reveal_strlit("BukrsReqCreateInvList");
            assert("BukrsReqAPI"@.len() != "BukrsReqCreateInvList"@.len());
        },
        PacketV::ResCreateInvList(_) => {
            reveal_strlit("BukrsReqAPI");
            reveal_strlit("BukrsResCreateInvList");
            assert("BukrsReqAPI"@.len() != "BukrsResCreateInvList"@.len());
        },
        PacketV::ReqModifyInvList(_) => {
            reveal_strlit("BukrsReqAPI");
            reveal_strlit("BukrsReqModifyInvList");
            assert("BukrsReqAPI"@.len() != "BukrsReqModifyInvList"@.len());
        },
        PacketV::ResModifyInvList(_) => {
            reveal_strlit("BukrsReqAPI");
            reveal_strlit("BukrsResModifyInvList");
            assert("BukrsReqAPI"@.len() != "BukrsResModifyInvList"@.len());
        },
    }
}

/// Only one registered shape carries this tag.
proof fn lemma_tag_resapi(m: PacketV)
    requires
        tag_of(m) == "BukrsResAPI"@,
    ensures
        m matches PacketV::ResAPI(_),
{
    match m {
        PacketV::ReqAPI(_) => {
            reveal_strlit("BukrsResAPI");
            reveal_strlit("BukrsReqAPI");
            assert("BukrsResAPI"@[7] != "BukrsReqAPI"@[7]);
        },
        PacketV::ResAPI(_) => {},
        PacketV::ReqOnlinePlayers(_) => {
            reveal_strlit("BukrsResAPI");
            reveal_strlit("BukrsReqOnlinePlayers");
            assert("BukrsResAPI"@.len() != "BukrsReqOnlinePlayers"@.len());
        },
        PacketV::ResOnlinePlayers(_) => {
            reveal_strlit("BukrsResAPI");
            reveal_strlit("BukrsResOnlinePlayers");
            assert("BukrsResAPI"@.len() != "BukrsResOnlinePlayers"@.len());
        },
        PacketV::ReqPlayerById(_) => {
            reveal_strlit("BukrsResAPI");
            reveal_strlit("BukrsReqPlayerById");
            assert("BukrsResAPI"@.len() != "BukrsReqPlayerById"@.len());
        },
        PacketV::ReqPlayerByName(_) => {
            reveal_strlit("BukrsResAPI");
            reveal_strlit("BukrsReqPlayerByName");
            assert("BukrsResAPI"@.len() != "BukrsReqPlayerByName"@.len());
        },
        PacketV::ResPlayerData(_) => {
            reveal_strlit("BukrsResAPI");
            reveal_strlit("BukrsResPlayerData");
            assert("BukrsResAPI"@.len() != "BukrsResPlayerData"@.len());
        },
        PacketV::ReqCreateInventory(_) => {
            reveal_strlit("BukrsResAPI");
            reveal_strlit("BukrsReqCreateInventory");
            assert("BukrsResAPI"@.len() != "BukrsReqCreateInventory"@.len());
        },
        PacketV::ResCreateInventory(_) => {
            reveal_strlit("BukrsResAPI");
            reveal_strlit("BukrsResCreateInventory");
            assert("BukrsResAPI"@.len() != "BukrsResCreateInventory"@.len());
        },
        PacketV::SDInvClick(_) => {
            reveal_strlit("BukrsResAPI");
            reveal_strlit("BukrsSDInvClick");
            assert("BukrsResAPI"@.len() != "BukrsSDInvClick"@.len());
        },
        PacketV::SDInvOpen(_) => {
            reveal_strlit("BukrsResAPI");
            reveal_strlit("BukrsSDInvOpen");
            assert("BukrsResAPI"@.len() != "BukrsSDInvOpen"@.len());
        },
        PacketV::SDInvClose(_) => {
            reveal_strlit("BukrsResAPI");
            reveal_strlit("BukrsSDInvClose");
            assert("BukrsResAPI"@.len() != "BukrsSDInvClose"@.len());
        },
        PacketV::ReqPlayerInvOpen(_) => {
            reveal_strlit("BukrsResAPI");
            reveal_strlit("BukrsReqPlayerInvOpen");
            assert("BukrsResAPI"@.len() != "BukrsReqPlayerInvOpen"@.len());
        },
        PacketV::ResPlayerInvOpen(_) => {
            reveal_strlit("BukrsResAPI");
            reveal_strlit("BukrsResPlayerInvOpen");
            assert("BukrsResAPI"@.len() != "BukrsResPlayerInvOpen"@.len());
        },
        PacketV::ReqCreateInvList(_) => {
            reveal_strlit("BukrsResAPI");
            reveal_strlit("BukrsReqCreateInvList");
            assert("BukrsResAPI"@.len() != "BukrsReqCreateInvList"@.len());
        },
        PacketV::ResCreateInvList(_) => {
            reveal_strlit("BukrsResAPI");
            reveal_strlit("BukrsResCreateInvList");
            assert("BukrsResAPI"@.len() != "BukrsResCreateInvList"@.len());
        },
        PacketV::ReqModifyInvList(_) => {
            reveal_strlit("BukrsResAPI");
            reveal_strlit("BukrsReqModifyInvList");
            assert("BukrsResAPI"@.len() != "BukrsReqModifyInvList"@.len());
        },
        PacketV::ResModifyInvList(_) => {
            reveal_strlit("BukrsResAPI");
            reveal_strlit("BukrsResModifyInvList");
            assert("BukrsResAPI"@.len() != "BukrsResModifyInvList"@.len());
        },
    }
}

/// Only one registered shape carries this tag.
proof fn lemma_tag_reqonlineplayers(m: PacketV)
    requires
        tag_of(m) == "BukrsReqOnlinePlayers"@,
    ensures
        m matches PacketV::ReqOnlinePlayers(_),
{
    match m {
        PacketV::ReqAPI(_) => {
            reveal_strlit("BukrsReqOnlinePlayers");
            reveal_strlit("BukrsReqAPI");
            assert("BukrsReqOnlinePlayers"@.len() != "BukrsReqAPI"@.len());
        },
        PacketV::ResAPI(_) => {
            reveal_strlit("BukrsReqOnlinePlayers");
            reveal_strlit("BukrsResAPI");
            assert("BukrsReqOnlinePlayers"@.len() != "BukrsResAPI"@.len());
        },
        PacketV::ReqOnlinePlayers(_) => {},
        PacketV::ResOnlinePlayers(_) => {
            reveal_strlit("BukrsReqOnlinePlayers");
            reveal_strlit("BukrsResOnlinePlayers");
            assert("BukrsReqOnlinePlayers"@[7] != "BukrsResOnlinePlayers"@[7]);
        },
        PacketV::ReqPlayerById(_) => {
            reveal_strlit("BukrsReqOnlinePlayers");
            reveal_strlit("BukrsReqPlayerById");
            assert("BukrsReqOnlinePlayers"@.len() != "BukrsReqPlayerById"@.len());
        },
        PacketV::ReqPlayerByName(_) => {
            reveal_strlit("BukrsReqOnlinePlayers");
            reveal_strlit("BukrsReqPlayerByName");
            assert("BukrsReqOnlinePlayers"@.len() != "BukrsReqPlayerByName"@.len());
        },
        PacketV::ResPlayerData(_) => {
            reveal_strlit("BukrsReqOnlinePlayers");
            reveal_strlit("BukrsResPlayerData");
            assert("BukrsReqOnlinePlayers"@.len() != "BukrsResPlayerData"@.len());
        },
        PacketV::ReqCreateInventory(_) => {
            reveal_strlit("BukrsReqOnlinePlayers");
            reveal_strlit("BukrsReqCreateInventory");
            assert("BukrsReqOnlinePlayers"@.len() != "BukrsReqCreateInventory"@.len());
        },
        PacketV::ResCreateInventory(_) => {
            reveal_strlit("BukrsReqOnlinePlayers");
            reveal_strlit("BukrsResCreateInventory");
            assert("BukrsReqOnlinePlayers"@.len() != "BukrsResCreateInventory"@.len());
        },
        PacketV::SDInvClick(_) => {
            reveal_strlit("BukrsReqOnlinePlayers");
            reveal_strlit("BukrsSDInvClick");
            assert("BukrsReqOnlinePlayers"@.len() != "BukrsSDInvClick"@.len());
        },
        PacketV::SDInvOpen(_) => {
            reveal_strlit("BukrsReqOnlinePlayers");
            reveal_strlit("BukrsSDInvOpen");
            assert("BukrsReqOnlinePlayers"@.len() != "BukrsSDInvOpen"@.len());
        },
        PacketV::SDInvClose(_) => {
            reveal_strlit("BukrsReqOnlinePlayers");
            reveal_strlit("BukrsSDInvClose");
            assert("BukrsReqOnlinePlayers"@.len() != "BukrsSDInvClose"@.len());
        },
        PacketV::ReqPlayerInvOpen(_) => {
            reveal_strlit("BukrsReqOnlinePlayers");
            reveal_strlit("BukrsReqPlayerInvOpen");
            assert("BukrsReqOnlinePlayers"@[8] != "BukrsReqPlayerInvOpen"@[8]);
        },
        PacketV::ResPlayerInvOpen(_) => {
            reveal_strlit("BukrsReqOnlinePlayers");
            reveal_strlit("BukrsResPlayerInvOpen");
            assert("BukrsReqOnlinePlayers"@[7] != "BukrsResPlayerInvOpen"@[7]);
        },
        PacketV::ReqCreateInvList(_) => {
            reveal_strlit("BukrsReqOnlinePlayers");
            reveal_strlit("BukrsReqCreateInvList");
            assert("BukrsReqOnlinePlayers"@[8] != "BukrsReqCreateInvList"@[8]);
        },
        PacketV::ResCreateInvList(_) => {
            reveal_strlit("BukrsReqOnlinePlayers");
            reveal_strlit("BukrsResCreateInvList");
            assert("BukrsReqOnlinePlayers"@[7] != "BukrsResCreateInvList"@[7]);
        },
        PacketV::ReqModifyInvList(_) => {
            reveal_strlit("BukrsReqOnlinePlayers");
            reveal_strlit("BukrsReqModifyInvList");
            assert("BukrsReqOnlinePlayers"@[8] != "BukrsReqModifyInvList"@[8]);
        },
        PacketV::ResModifyInvList(_) => {
            reveal_strlit("BukrsReqOnlinePlayers");
            reveal_strlit("BukrsResModifyInvList");
            assert("BukrsReqOnlinePlayers"@[7] != "BukrsResModifyInvList"@[7]);
        },
    }
}

/// Only one registered shape carries this tag.
proof fn lemma_tag_resonlineplayers(m: PacketV)
    requires
        tag_of(m) == "BukrsResOnlinePlayers"@,
    ensures
        m matches PacketV::ResOnlinePlayers(_),
{
    match m {
        PacketV::ReqAPI(_) => {
            reveal_strlit("BukrsResOnlinePlayers");
            reveal_strlit("BukrsReqAPI");
            assert("BukrsResOnlinePlayers"@.len() != "BukrsReqAPI"@.len());
        },
        PacketV::ResAPI(_) => {
            reveal_strlit("BukrsResOnlinePlayers");
            reveal_strlit("BukrsResAPI");
            assert("BukrsResOnlinePlayers"@.len() != "BukrsResAPI"@.len());
        },
        PacketV::ReqOnlinePlayers(_) => {
            reveal_strlit("BukrsResOnlinePlayers");
            reveal_strlit("BukrsReqOnlinePlayers");
            assert("BukrsResOnlinePlayers"@[7] != "BukrsReqOnlinePlayers"@[7]);
        },
        PacketV::ResOnlinePlayers(_) => {},
        PacketV::ReqPlayerById(_) => {
            reveal_strlit("BukrsResOnlinePlayers");
            reveal_strlit("BukrsReqPlayerById");
            assert("BukrsResOnlinePlayers"@.len() != "BukrsReqPlayerById"@.len());
        },
        PacketV::ReqPlayerByName(_) => {
            reveal_strlit("BukrsResOnlinePlayers");
            reveal_strlit("BukrsReqPlayerByName");
            assert("BukrsResOnlinePlayers"@.len() != "BukrsReqPlayerByName"@.len());
        },
        PacketV::ResPlayerData(_) => {
            reveal_strlit("BukrsResOnlinePlayers");
            reveal_strlit("BukrsResPlayerData");
            assert("BukrsResOnlinePlayers"@.len() != "BukrsResPlayerData"@.len());
        },
        PacketV::ReqCreateInventory(_) => {
            reveal_strlit("BukrsResOnlinePlayers");
            reveal_strlit("BukrsReqCreateInventory");
            assert("BukrsResOnlinePlayers"@.len() != "BukrsReqCreateInventory"@.len());
        },
        PacketV::ResCreateInventory(_) => {
            reveal_strlit("BukrsResOnlinePlayers");
            reveal_strlit("BukrsResCreateInventory");
            assert("BukrsResOnlinePlayers"@.len() != "BukrsResCreateInventory"@.len());
        },
        PacketV::SDInvClick(_) => {
            reveal_strlit("BukrsResOnlinePlayers");
            reveal_strlit("BukrsSDInvClick");
            assert("BukrsResOnlinePlayers"@.len() != "BukrsSDInvClick"@.len());
        },
        PacketV::SDInvOpen(_) => {
            reveal_strlit("BukrsResOnlinePlayers");
            reveal_strlit("BukrsSDInvOpen");
            assert("BukrsResOnlinePlayers"@.len() != "BukrsSDInvOpen"@.len());
        },
        PacketV::SDInvClose(_) => {
            reveal_strlit("BukrsResOnlinePlayers");
            reveal_strlit("BukrsSDInvClose");
            assert("BukrsResOnlinePlayers"@.len() != "BukrsSDInvClose"@.len());
        },
        PacketV::ReqPlayerInvOpen(_) => {
            reveal_strlit("BukrsResOnlinePlayers");
            reveal_strlit("BukrsReqPlayerInvOpen");
            assert("BukrsResOnlinePlayers"@[7] != "BukrsReqPlayerInvOpen"@[7]);
        },
        PacketV::ResPlayerInvOpen(_) => {
            reveal_strlit("BukrsResOnlinePlayers");
            reveal_strlit("BukrsResPlayerInvOpen");
            assert("BukrsResOnlinePlayers"@[8] != "BukrsResPlayerInvOpen"@[8]);
        },
        PacketV::ReqCreateInvList(_) => {
            reveal_strlit("BukrsResOnlinePlayers");
            reveal_strlit("BukrsReqCreateInvList");
            assert("BukrsResOnlinePlayers"@[7] != "BukrsReqCreateInvList"@[7]);
        },
        PacketV::ResCreateInvList(_) => {
            reveal_strlit("BukrsResOnlinePlayers");
            reveal_strlit("BukrsResCreateInvList");
            assert("BukrsResOnlinePlayers"@[8] != "BukrsResCreateInvList"@[8]);
        },
        PacketV::ReqModifyInvList(_) => {
            reveal_strlit("BukrsResOnlinePlayers");
            reveal_strlit("BukrsReqModifyInvList");
            assert("BukrsResOnlinePlayers"@[7] != "BukrsReqModifyInvList"@[7]);
        },
        PacketV::ResModifyInvList(_) => {
            reveal_strlit("BukrsResOnlinePlayers");
            reveal_strlit("BukrsResModifyInvList");
            assert("BukrsResOnlinePlayers"@[8] != "BukrsResModifyInvList"@[8]);
        },
    }
}

/// Only one registered shape carries this tag.
proof fn lemma_tag_reqplayerbyid(m: PacketV)
    requires
        tag_of(m) == "BukrsReqPlayerById"@,
    ensures
        m matches PacketV::ReqPlayerById(_),
{
    match m {
        PacketV::ReqAPI(_) => {
            reveal_strlit("BukrsReqPlayerById");
            reveal_strlit("BukrsReqAPI");
            assert("BukrsReqPlayerById"@.len() != "BukrsReqAPI"@.len());
        },
        PacketV::ResAPI(_) => {
            reveal_strlit("BukrsReqPlayerById");
            reveal_strlit("BukrsResAPI");
            assert("BukrsReqPlayerById"@.len() != "BukrsResAPI"@.len());
        },
        PacketV::ReqOnlinePlayers(_) => {
            reveal_strlit("BukrsReqPlayerById");
            reveal_strlit("BukrsReqOnlinePlayers");
            assert("BukrsReqPlayerById"@.len() != "BukrsReqOnlinePlayers"@.len());
        },
        PacketV::ResOnlinePlayers(_) => {
            reveal_strlit("BukrsReqPlayerById");
            reveal_strlit("BukrsResOnlinePlayers");
            assert("BukrsReqPlayerById"@.len() != "BukrsResOnlinePlayers"@.len());
        },
        PacketV::ReqPlayerById(_) => {},
        PacketV::ReqPlayerByName(_) => {
            reveal_strlit("BukrsReqPlayerById");
            reveal_strlit("BukrsReqPlayerByName");
            assert("BukrsReqPlayerById"@.len() != "BukrsReqPlayerByName"@.len());
        },
        PacketV::ResPlayerData(_) => {
            reveal_strlit("BukrsReqPlayerById");
            reveal_strlit("BukrsResPlayerData");
            assert("BukrsReqPlayerById"@[7] != "BukrsResPlayerData"@[7]);
        },
        PacketV::ReqCreateInventory(_) => {
            reveal_strlit("BukrsReqPlayerById");
            reveal_strlit("BukrsReqCreateInventory");
            assert("BukrsReqPlayerById"@.len() != "BukrsReqCreateInventory"@.len());
        },
        PacketV::ResCreateInventory(_) => {
            reveal_strlit("BukrsReqPlayerById");
            reveal_strlit("BukrsResCreateInventory");
            assert("BukrsReqPlayerById"@.len() != "BukrsResCreateInventory"@.len());
        },
        PacketV::SDInvClick(_) => {
            reveal_strlit("BukrsReqPlayerById");
            reveal_strlit("BukrsSDInvClick");
            assert("BukrsReqPlayerById"@.len() != "BukrsSDInvClick"@.len());
        },
        PacketV::SDInvOpen(_) => {
            reveal_strlit("BukrsReqPlayerById");
            reveal_strlit("BukrsSDInvOpen");
            assert("BukrsReqPlayerById"@.len() != "BukrsSDInvOpen"@.len());
        },
        PacketV::SDInvClose(_) => {
            reveal_strlit("BukrsReqPlayerById");
            reveal_strlit("BukrsSDInvClose");
            assert("BukrsReqPlayerById"@.len() != "BukrsSDInvClose"@.len());
        },
        PacketV::ReqPlayerInvOpen(_) => {
            reveal_strlit("BukrsReqPlayerById");
            reveal_strlit("BukrsReqPlayerInvOpen");
            assert("BukrsReqPlayerById"@.len() != "BukrsReqPlayerInvOpen"@.len());
        },
        PacketV::ResPlayerInvOpen(_) => {
            reveal_strlit("BukrsReqPlayerById");
            reveal_strlit("BukrsResPlayerInvOpen");
            assert("BukrsReqPlayerById"@.len() != "BukrsResPlayerInvOpen"@.len());
        },
        PacketV::ReqCreateInvList(_) => {
            reveal_strlit("BukrsReqPlayerById");
            reveal_strlit("BukrsReqCreateInvList");
            assert("BukrsReqPlayerById"@.len() != "BukrsReqCreateInvList"@.len());
        },
        PacketV::ResCreateInvList(_) => {
            reveal_strlit("BukrsReqPlayerById");
            reveal_strlit("BukrsResCreateInvList");
            assert("BukrsReqPlayerById"@.len() != "BukrsResCreateInvList"@.len());
        },
        PacketV::ReqModifyInvList(_) => {
            reveal_strlit("BukrsReqPlayerById");
            reveal_strlit("BukrsReqModifyInvList");
            assert("BukrsReqPlayerById"@.len() != "BukrsReqModifyInvList"@.len());
        },
        PacketV::ResModifyInvList(_) => {
            reveal_strlit("BukrsReqPlayerById");
            reveal_strlit("BukrsResModifyInvList");
            assert("BukrsReqPlayerById"@.len() != "BukrsResModifyInvList"@.len());
        },
    }
}

/// Only one registered shape carries this tag.
proof fn lemma_tag_reqplayerbyname(m: PacketV)
    requires
        tag_of(m) == "BukrsReqPlayerByName"@,
    ensures
        m matches PacketV::ReqPlayerByName(_),
{
    match m {
        PacketV::ReqAPI(_) => {
            reveal_strlit("BukrsReqPlayerByName");
            reveal_strlit("BukrsReqAPI");
            assert("BukrsReqPlayerByName"@.len() != "BukrsReqAPI"@.len());
        },
        PacketV::ResAPI(_) => {
            reveal_strlit("BukrsReqPlayerByName");
            reveal_strlit("BukrsResAPI");
            assert("BukrsReqPlayerByName"@.len() != "BukrsResAPI"@.len());
        },
        PacketV::ReqOnlinePlayers(_) => {
            reveal_strlit("BukrsReqPlayerByName");
            reveal_strlit("BukrsReqOnlinePlayers");
            assert("BukrsReqPlayerByName"@.len() != "BukrsReqOnlinePlayers"@.len());
        },
        PacketV::ResOnlinePlayers(_) => {
            reveal_strlit("BukrsReqPlayerByName");
            reveal_strlit("BukrsResOnlinePlayers");
            assert("BukrsReqPlayerByName"@.len() != "BukrsResOnlinePlayers"@.len());
        },
        PacketV::ReqPlayerById(_) => {
            reveal_strlit("BukrsReqPlayerByName");
            reveal_strlit("BukrsReqPlayerById");
            assert("BukrsReqPlayerByName"@.len() != "BukrsReqPlayerById"@.len());
        },
        PacketV::ReqPlayerByName(_) => {},
        PacketV::ResPlayerData(_) => {
            reveal_strlit("BukrsReqPlayerByName");
            reveal_strlit("BukrsResPlayerData");
            assert("BukrsReqPlayerByName"@.len() != "BukrsResPlayerData"@.len());
        },
        PacketV::ReqCreateInventory(_) => {
            reveal_strlit("BukrsReqPlayerByName");
            reveal_strlit("BukrsReqCreateInventory");
            assert("BukrsReqPlayerByName"@.len() != "BukrsReqCreateInventory"@.len());
        },
        PacketV::ResCreateInventory(_) => {
            reveal_strlit("BukrsReqPlayerByName");
            reveal_strlit("BukrsResCreateInventory");
            assert("BukrsReqPlayerByName"@.len() != "BukrsResCreateInventory"@.len());
        },
        PacketV::SDInvClick(_) => {
            reveal_strlit("BukrsReqPlayerByName");
            reveal_strlit("BukrsSDInvClick");
            assert("BukrsReqPlayerByName"@.len() != "BukrsSDInvClick"@.len());
        },
        PacketV::SDInvOpen(_) => {
            reveal_strlit("BukrsReqPlayerByName");
            reveal_strlit("BukrsSDInvOpen");
            assert("BukrsReqPlayerByName"@.len() != "BukrsSDInvOpen"@.len());
        },
        PacketV::SDInvClose(_) => {
            reveal_strlit("BukrsReqPlayerByName");
            reveal_strlit("BukrsSDInvClose");
            assert("BukrsReqPlayerByName"@.len() != "BukrsSDInvClose"@.len());
        },
        PacketV::ReqPlayerInvOpen(_) => {
            reveal_strlit("BukrsReqPlayerByName");
            reveal_strlit("BukrsReqPlayerInvOpen");
            assert("BukrsReqPlayerByName"@.len() != "BukrsReqPlayerInvOpen"@.len());
        },
        PacketV::ResPlayerInvOpen(_) => {
            reveal_strlit("BukrsReqPlayerByName");
            reveal_strlit("BukrsResPlayerInvOpen");
            assert("BukrsReqPlayerByName"@.len() != "BukrsResPlayerInvOpen"@.len());
        },
        PacketV::ReqCreateInvList(_) => {
            reveal_strlit("BukrsReqPlayerByName");
            reveal_strlit("BukrsReqCreateInvList");
            assert("BukrsReqPlayerByName"@.len() != "BukrsReqCreateInvList"@.len());
        },
        PacketV::ResCreateInvList(_) => {
            reveal_strlit("BukrsReqPlayerByName");
            reveal_strlit("BukrsResCreateInvList");
            assert("BukrsReqPlayerByName"@.len() != "BukrsResCreateInvList"@.len());
        },
        PacketV::ReqModifyInvList(_) => {
            reveal_strlit("BukrsReqPlayerByName");
            reveal_strlit("BukrsReqModifyInvList");
            assert("BukrsReqPlayerByName"@.len() != "BukrsReqModifyInvList"@.len());
        },
        PacketV::ResModifyInvList(_) => {
            reveal_strlit("BukrsReqPlayerByName");
            reveal_strlit("BukrsResModifyInvList");
            assert("BukrsReqPlayerByName"@.len() != "BukrsResModifyInvList"@.len());
        },
    }
}

/// Only one registered shape carries this tag.
proof fn lemma_tag_resplayerdata(m: PacketV)
    requires
        tag_of(m) == "BukrsResPlayerData"@,
    ensures
        m matches PacketV::ResPlayerData(_),
{
    match m {
        PacketV::ReqAPI(_) => {
            reveal_strlit("BukrsResPlayerData");
            reveal_strlit("BukrsReqAPI");
            assert("BukrsResPlayerData"@.len() != "BukrsReqAPI"@.len());
        },
        PacketV::ResAPI(_) => {
            reveal_strlit("BukrsResPlayerData");
            reveal_strlit("BukrsResAPI");
            assert("BukrsResPlayerData"@.len() != "BukrsResAPI"@.len());
        },
        PacketV::ReqOnlinePlayers(_) => {
            reveal_strlit("BukrsResPlayerData");
            reveal_strlit("BukrsReqOnlinePlayers");
            assert("BukrsResPlayerData"@.len() != "BukrsReqOnlinePlayers"@.len());
        },
        PacketV::ResOnlinePlayers(_) => {
            reveal_strlit("BukrsResPlayerData");
            reveal_strlit("BukrsResOnlinePlayers");
            assert("BukrsResPlayerData"@.len() != "BukrsResOnlinePlayers"@.len());
        },
        PacketV::ReqPlayerById(_) => {
            reveal_strlit("BukrsResPlayerData");
            reveal_strlit("BukrsReqPlayerById");
            assert("BukrsResPlayerData"@[7] != "BukrsReqPlayerById"@[7]);
        },
        PacketV::ReqPlayerByName(_) => {
            reveal_strlit("BukrsResPlayerData");
            reveal_strlit("BukrsReqPlayerByName");
            assert("BukrsResPlayerData"@.len() != "BukrsReqPlayerByName"@.len());
        },
        PacketV::ResPlayerData(_) => {},
        PacketV::ReqCreateInventory(_) => {
            reveal_strlit("BukrsResPlayerData");
            reveal_strlit("BukrsReqCreateInventory");
            assert("BukrsResPlayerData"@.len() != "BukrsReqCreateInventory"@.len());
        },
        PacketV::ResCreateInventory(_) => {
            reveal_strlit("BukrsResPlayerData");
            reveal_strlit("BukrsResCreateInventory");
            assert("BukrsResPlayerData"@.len() != "BukrsResCreateInventory"@.len());
        },
        PacketV::SDInvClick(_) => {
            reveal_strlit("BukrsResPlayerData");
            reveal_strlit("BukrsSDInvClick");
            assert("BukrsResPlayerData"@.len() != "BukrsSDInvClick"@.len());
        },
        PacketV::SDInvOpen(_) => {
            reveal_strlit("BukrsResPlayerData");
            reveal_strlit("BukrsSDInvOpen");
            assert("BukrsResPlayerData"@.len() != "BukrsSDInvOpen"@.len());
        },
        PacketV::SDInvClose(_) => {
            reveal_strlit("BukrsResPlayerData");
            reveal_strlit("BukrsSDInvClose");
            assert("BukrsResPlayerData"@.len() != "BukrsSDInvClose"@.len());
        },
        PacketV::ReqPlayerInvOpen(_) => {
            reveal_strlit("BukrsResPlayerData");
            reveal_strlit("BukrsReqPlayerInvOpen");
            assert("BukrsResPlayerData"@.len() != "BukrsReqPlayerInvOpen"@.len());
        },
        PacketV::ResPlayerInvOpen(_) => {
            reveal_strlit("BukrsResPlayerData");
            reveal_strlit("BukrsResPlayerInvOpen");
            assert("BukrsResPlayerData"@.len() != "BukrsResPlayerInvOpen"@.len());
        },
        PacketV::ReqCreateInvList(_) => {
            reveal_strlit("BukrsResPlayerData");
            reveal_strlit("BukrsReqCreateInvList");
            assert("BukrsResPlayerData"@.len() != "BukrsReqCreateInvList"@.len());
        },
        PacketV::ResCreateInvList(_) => {
            reveal_strlit("BukrsResPlayerData");
            reveal_strlit("BukrsResCreateInvList");
            assert("BukrsResPlayerData"@.len() != "BukrsResCreateInvList"@.len());
        },
        PacketV::ReqModifyInvList(_) => {
            reveal_strlit("BukrsResPlayerData");
            reveal_strlit("BukrsReqModifyInvList");
            assert("BukrsResPlayerData"@.len() != "BukrsReqModifyInvList"@.len());
        },
        PacketV::ResModifyInvList(_) => {
            reveal_strlit("BukrsResPlayerData");
            reveal_strlit("BukrsResModifyInvList");
            assert("BukrsResPlayerData"@.len() != "BukrsResModifyInvList"@.len());
        },
    }
}

/// Only one registered shape carries this tag.
proof fn lemma_tag_reqcreateinventory(m: PacketV)
    requires
        tag_of(m) == "BukrsReqCreateInventory"@,
    ensures
        m matches PacketV::ReqCreateInventory(_),
{
    match m {
        PacketV::ReqAPI(_) => {
            reveal_strlit("BukrsReqCreateInventory");
            reveal_strlit("BukrsReqAPI");
            assert("BukrsReqCreateInventory"@.len() != "BukrsReqAPI"@.len());
        },
        PacketV::ResAPI(_) => {
            reveal_strlit("BukrsReqCreateInventory");
            reveal_strlit("BukrsResAPI");
            assert("BukrsReqCreateInventory"@.len() != "BukrsResAPI"@.len());
        },
        PacketV::ReqOnlinePlayers(_) => {
            reveal_strlit("BukrsReqCreateInventory");
            reveal_strlit("BukrsReqOnlinePlayers");
            assert("BukrsReqCreateInventory"@.len() != "BukrsReqOnlinePlayers"@.len());
        },
        PacketV::ResOnlinePlayers(_) => {
            reveal_strlit("BukrsReqCreateInventory");
            reveal_strlit("BukrsResOnlinePlayers");
            assert("BukrsReqCreateInventory"@.len() != "BukrsResOnlinePlayers"@.len());
        },
        PacketV::ReqPlayerById(_) => {
            reveal_strlit("BukrsReqCreateInventory");
            reveal_strlit("BukrsReqPlayerById");
            assert("BukrsReqCreateInventory"@.len() != "BukrsReqPlayerById"@.len());
        },
        PacketV::ReqPlayerByName(_) => {
            reveal_strlit("BukrsReqCreateInventory");
            reveal_strlit("BukrsReqPlayerByName");
            assert("BukrsReqCreateInventory"@.len() != "BukrsReqPlayerByName"@.len());
        },
        PacketV::ResPlayerData(_) => {
            reveal_strlit("BukrsReqCreateInventory");
            reveal_strlit("BukrsResPlayerData");
            assert("BukrsReqCreateInventory"@.len() != "BukrsResPlayerData"@.len());
        },
        PacketV::ReqCreateInventory(_) => {},
        PacketV::ResCreateInventory(_) => {
            reveal_strlit("BukrsReqCreateInventory");
            reveal_strlit("BukrsResCreateInventory");
            assert("BukrsReqCreateInventory"@[7] != "BukrsResCreateInventory"@[7]);
        },
        PacketV::SDInvClick(_) => {
            reveal_strlit("BukrsReqCreateInventory");
            reveal_strlit("BukrsSDInvClick");
            assert("BukrsReqCreateInventory"@.len() != "BukrsSDInvClick"@.len());
        },
        PacketV::SDInvOpen(_) => {
            reveal_strlit("BukrsReqCreateInventory");
            reveal_strlit("BukrsSDInvOpen");
            assert("BukrsReqCreateInventory"@.len() != "BukrsSDInvOpen"@.len());
        },
        PacketV::SDInvClose(_) => {
            reveal_strlit("BukrsReqCreateInventory");
            reveal_strlit("BukrsSDInvClose");
            assert("BukrsReqCreateInventory"@.len() != "BukrsSDInvClose"@.len());
        },
        PacketV::ReqPlayerInvOpen(_) => {
            reveal_strlit("BukrsReqCreateInventory");
            reveal_strlit("BukrsReqPlayerInvOpen");
            assert("BukrsReqCreateInventory"@.len() != "BukrsReqPlayerInvOpen"@.len());
        },
        PacketV::ResPlayerInvOpen(_) => {
            reveal_strlit("BukrsReqCreateInventory");
            reveal_strlit("BukrsResPlayerInvOpen");
            assert("BukrsReqCreateInventory"@.len() != "BukrsResPlayerInvOpen"@.len());
        },
        PacketV::ReqCreateInvList(_) => {
            reveal_strlit("BukrsReqCreateInventory");
            reveal_strlit("BukrsReqCreateInvList");
            assert("BukrsReqCreateInventory"@.len() != "BukrsReqCreateInvList"@.len());
        },
        PacketV::ResCreateInvList(_) => {
            reveal_strlit("BukrsReqCreateInventory");
            reveal_strlit("BukrsResCreateInvList");
            assert("BukrsReqCreateInventory"@.len() != "BukrsResCreateInvList"@.len());
        },
        PacketV::ReqModifyInvList(_) => {
            reveal_strlit("BukrsReqCreateInventory");
            reveal_strlit("BukrsReqModifyInvList");
            assert("BukrsReqCreateInventory"@.len() != "BukrsReqModifyInvList"@.len());
        },
        PacketV::ResModifyInvList(_) => {
            reveal_strlit("BukrsReqCreateInventory");
            reveal_strlit("BukrsResModifyInvList");
            assert("BukrsReqCreateInventory"@.len() != "BukrsResModifyInvList"@.len());
        },
    }
}

/// Only one registered shape carries this tag.
proof fn lemma_tag_rescreateinventory(m: PacketV)
    requires
        tag_of(m) == "BukrsResCreateInventory"@,
    ensures
        m matches PacketV::ResCreateInventory(_),
{
    match m {
        PacketV::ReqAPI(_) => {
            reveal_strlit("BukrsResCreateInventory");
            reveal_strlit("BukrsReqAPI");
            assert("BukrsResCreateInventory"@.len() != "BukrsReqAPI"@.len());
        },
        PacketV::ResAPI(_) => {
            reveal_strlit("BukrsResCreateInventory");
            reveal_strlit("BukrsResAPI");
            assert("BukrsResCreateInventory"@.len() != "BukrsResAPI"@.len());
        },
        PacketV::ReqOnlinePlayers(_) => {
            reveal_strlit("BukrsResCreateInventory");
            reveal_strlit("BukrsReqOnlinePlayers");
            assert("BukrsResCreateInventory"@.len() != "BukrsReqOnlinePlayers"@.len());
        },
        PacketV::ResOnlinePlayers(_) => {
            reveal_strlit("BukrsResCreateInventory");
            reveal_strlit("BukrsResOnlinePlayers");
            assert("BukrsResCreateInventory"@.len() != "BukrsResOnlinePlayers"@.len());
        },
        PacketV::ReqPlayerById(_) => {
            reveal_strlit("BukrsResCreateInventory");
            reveal_strlit("BukrsReqPlayerById");
            assert("BukrsResCreateInventory"@.len() != "BukrsReqPlayerById"@.len());
        },
        PacketV::ReqPlayerByName(_) => {
            reveal_strlit("BukrsResCreateInventory");
            reveal_strlit("BukrsReqPlayerByName");
            assert("BukrsResCreateInventory"@.len() != "BukrsReqPlayerByName"@.len());
        },
        PacketV::ResPlayerData(_) => {
            reveal_strlit("BukrsResCreateInventory");
            reveal_strlit("BukrsResPlayerData");
            assert("BukrsResCreateInventory"@.len() != "BukrsResPlayerData"@.len());
        },
        PacketV::ReqCreateInventory(_) => {
            reveal_strlit("BukrsResCreateInventory");
            reveal_strlit("BukrsReqCreateInventory");
            assert("BukrsResCreateInventory"@[7] != "BukrsReqCreateInventory"@[7]);
        },
        PacketV::ResCreateInventory(_) => {},
        PacketV::SDInvClick(_) => {
            reveal_strlit("BukrsResCreateInventory");
            reveal_strlit("BukrsSDInvClick");
            assert("BukrsResCreateInventory"@.len() != "BukrsSDInvClick"@.len());
        },
        PacketV::SDInvOpen(_) => {
            reveal_strlit("BukrsResCreateInventory");
            reveal_strlit("BukrsSDInvOpen");
            assert("BukrsResCreateInventory"@.len() != "BukrsSDInvOpen"@.len());
        },
        PacketV::SDInvClose(_) => {
            reveal_strlit("BukrsResCreateInventory");
            reveal_strlit("BukrsSDInvClose");
            assert("BukrsResCreateInventory"@.len() != "BukrsSDInvClose"@.len());
        },
        PacketV::ReqPlayerInvOpen(_) => {
            reveal_strlit("BukrsResCreateInventory");
            reveal_strlit("BukrsReqPlayerInvOpen");
            assert("BukrsResCreateInventory"@.len() != "BukrsReqPlayerInvOpen"@.len());
        },
        PacketV::ResPlayerInvOpen(_) => {
            reveal_strlit("BukrsResCreateInventory");
            reveal_strlit("BukrsResPlayerInvOpen");
            assert("BukrsResCreateInventory"@.len() != "BukrsResPlayerInvOpen"@.len());
        },
        PacketV::ReqCreateInvList(_) => {
            reveal_strlit("BukrsResCreateInventory");
            reveal_strlit("BukrsReqCreateInvList");
            assert("BukrsResCreateInventory"@.len() != "BukrsReqCreateInvList"@.len());
        },
        PacketV::ResCreateInvList(_) => {
            reveal_strlit("BukrsResCreateInventory");
            reveal_strlit("BukrsResCreateInvList");
            assert("BukrsResCreateInventory"@.len() != "BukrsResCreateInvList"@.len());
        },
        PacketV::ReqModifyInvList(_) => {
            reveal_strlit("BukrsResCreateInventory");
            reveal_strlit("BukrsReqModifyInvList");
            assert("BukrsResCreateInventory"@.len() != "BukrsReqModifyInvList"@.len());
        },
        PacketV::ResModifyInvList(_) => {
            reveal_strlit("BukrsResCreateInventory");
            reveal_strlit("BukrsResModifyInvList");
            assert("BukrsResCreateInventory"@.len() != "BukrsResModifyInvList"@.len());
        },
    }
}

/// Only one registered shape carries this tag.
proof fn lemma_tag_sdinvclick(m: PacketV)
    requires
        tag_of(m) == "BukrsSDInvClick"@,
    ensures
        m matches PacketV::SDInvClick(_),
{
    match m {
        PacketV::ReqAPI(_) => {
            reveal_strlit("BukrsSDInvClick");
            reveal_strlit("BukrsReqAPI");
            assert("BukrsSDInvClick"@.len() != "BukrsReqAPI"@.len());
        },
        PacketV::ResAPI(_) => {
            reveal_strlit("BukrsSDInvClick");
            reveal_strlit("BukrsResAPI");
            assert("BukrsSDInvClick"@.len() != "BukrsResAPI"@.len());
        },
        PacketV::ReqOnlinePlayers(_) => {
            reveal_strlit("BukrsSDInvClick");
            reveal_strlit("BukrsReqOnlinePlayers");
            assert("BukrsSDInvClick"@.len() != "BukrsReqOnlinePlayers"@.len());
        },
        PacketV::ResOnlinePlayers(_) => {
            reveal_strlit("BukrsSDInvClick");
            reveal_strlit("BukrsResOnlinePlayers");
            assert("BukrsSDInvClick"@.len() != "BukrsResOnlinePlayers"@.len());
        },
        PacketV::ReqPlayerById(_) => {
            reveal_strlit("BukrsSDInvClick");
            reveal_strlit("BukrsReqPlayerById");
            assert("BukrsSDInvClick"@.len() != "BukrsReqPlayerById"@.len());
        },
        PacketV::ReqPlayerByName(_) => {
            reveal_strlit("BukrsSDInvClick");
            reveal_strlit("BukrsReqPlayerByName");
            assert("BukrsSDInvClick"@.len() != "BukrsReqPlayerByName"@.len());
        },
        PacketV::ResPlayerData(_) => {
            reveal_strlit("BukrsSDInvClick");
            reveal_strlit("BukrsResPlayerData");
            assert("BukrsSDInvClick"@.len() != "BukrsResPlayerData"@.len());
        },
        PacketV::ReqCreateInventory(_) => {
            reveal_strlit("BukrsSDInvClick");
            reveal_strlit("BukrsReqCreateInventory");
            assert("BukrsSDInvClick"@.len() != "BukrsReqCreateInventory"@.len());
        },
        PacketV::ResCreateInventory(_) => {
            reveal_strlit("BukrsSDInvClick");
            reveal_strlit("BukrsResCreateInventory");
            assert("BukrsSDInvClick"@.len() != "BukrsResCreateInventory"@.len());
        },
        PacketV::SDInvClick(_) => {},
        PacketV::SDInvOpen(_) => {
            reveal_strlit("BukrsSDInvClick");
            reveal_strlit("BukrsSDInvOpen");
            assert("BukrsSDInvClick"@.len() != "BukrsSDInvOpen"@.len());
        },
        PacketV::SDInvClose(_) => {
            reveal_strlit("BukrsSDInvClick");
            reveal_strlit("BukrsSDInvClose");
            assert("BukrsSDInvClick"@[12] != "BukrsSDInvClose"@[12]);
        },
        PacketV::ReqPlayerInvOpen(_) => {
            reveal_strlit("BukrsSDInvClick");
            reveal_strlit("BukrsReqPlayerInvOpen");
            assert("BukrsSDInvClick"@.len() != "BukrsReqPlayerInvOpen"@.len());
        },
        PacketV::ResPlayerInvOpen(_) => {
            reveal_strlit("BukrsSDInvClick");
            reveal_strlit("BukrsResPlayerInvOpen");
            assert("BukrsSDInvClick"@.len() != "BukrsResPlayerInvOpen"@.len());
        },
        PacketV::ReqCreateInvList(_) => {
            reveal_strlit("BukrsSDInvClick");
            reveal_strlit("BukrsReqCreateInvList");
            assert("BukrsSDInvClick"@.len() != "BukrsReqCreateInvList"@.len());
        },
        PacketV::ResCreateInvList(_) => {
            reveal_strlit("BukrsSDInvClick");
            reveal_strlit("BukrsResCreateInvList");
            assert("BukrsSDInvClick"@.len() != "BukrsResCreateInvList"@.len());
        },
        PacketV::ReqModifyInvList(_) => {
            reveal_strlit("BukrsSDInvClick");
            reveal_strlit("BukrsReqModifyInvList");
            assert("BukrsSDInvClick"@.len() != "BukrsReqModifyInvList"@.len());
        },
        PacketV::ResModifyInvList(_) => {
            reveal_strlit("BukrsSDInvClick");
            reveal_strlit("BukrsResModifyInvList");
            assert("BukrsSDInvClick"@.len() != "BukrsResModifyInvList"@.len());
        },
    }
}

/// Only one registered shape carries this tag.
proof fn lemma_tag_sdinvopen(m: PacketV)
    requires
        tag_of(m) == "BukrsSDInvOpen"@,
    ensures
        m matches PacketV::SDInvOpen(_),
{
    match m {
        PacketV::ReqAPI(_) => {
            reveal_strlit("BukrsSDInvOpen");
            reveal_strlit("BukrsReqAPI");
            assert("BukrsSDInvOpen"@.len() != "BukrsReqAPI"@.len());
        },
        PacketV::ResAPI(_) => {
            reveal_strlit("BukrsSDInvOpen");
            reveal_strlit("BukrsResAPI");
            assert("BukrsSDInvOpen"@.len() != "BukrsResAPI"@.len());
        },
        PacketV::ReqOnlinePlayers(_) => {
            reveal_strlit("BukrsSDInvOpen");
            reveal_strlit("BukrsReqOnlinePlayers");
            assert("BukrsSDInvOpen"@.len() != "BukrsReqOnlinePlayers"@.len());
        },
        PacketV::ResOnlinePlayers(_) => {
            reveal_strlit("BukrsSDInvOpen");
            reveal_strlit("BukrsResOnlinePlayers");
            assert("BukrsSDInvOpen"@.len() != "BukrsResOnlinePlayers"@.len());
        },
        PacketV::ReqPlayerById(_) => {
            reveal_strlit("BukrsSDInvOpen");
            reveal_strlit("BukrsReqPlayerById");
            assert("BukrsSDInvOpen"@.len() != "BukrsReqPlayerById"@.len());
        },
        PacketV::ReqPlayerByName(_) => {
            reveal_strlit("BukrsSDInvOpen");
            reveal_strlit("BukrsReqPlayerByName");
            assert("BukrsSDInvOpen"@.len() != "BukrsReqPlayerByName"@.len());
        },
        PacketV::ResPlayerData(_) => {
            reveal_strlit("BukrsSDInvOpen");
            reveal_strlit("BukrsResPlayerData");
            assert("BukrsSDInvOpen"@.len() != "BukrsResPlayerData"@.len());
        },
        PacketV::ReqCreateInventory(_) => {
            reveal_strlit("BukrsSDInvOpen");
            reveal_strlit("BukrsReqCreateInventory");
            assert("BukrsSDInvOpen"@.len() != "BukrsReqCreateInventory"@.len());
        },
        PacketV::ResCreateInventory(_) => {
            reveal_strlit("BukrsSDInvOpen");
            reveal_strlit("BukrsResCreateInventory");
            assert("BukrsSDInvOpen"@.len() != "BukrsResCreateInventory"@.len());
        },
        PacketV::SDInvClick(_) => {
            reveal_strlit("BukrsSDInvOpen");
            reveal_strlit("BukrsSDInvClick");
            assert("BukrsSDInvOpen"@.len() != "BukrsSDInvClick"@.len());
        },
        PacketV::SDInvOpen(_) => {},
        PacketV::SDInvClose(_) => {
            reveal_strlit("BukrsSDInvOpen");
            reveal_strlit("BukrsSDInvClose");
            assert("BukrsSDInvOpen"@.len() != "BukrsSDInvClose"@.len());
        },
        PacketV::ReqPlayerInvOpen(_) => {
            reveal_strlit("BukrsSDInvOpen");
            reveal_strlit("BukrsReqPlayerInvOpen");
            assert("BukrsSDInvOpen"@.len() != "BukrsReqPlayerInvOpen"@.len());
        },
        PacketV::ResPlayerInvOpen(_) => {
            reveal_strlit("BukrsSDInvOpen");
            reveal_strlit("BukrsResPlayerInvOpen");
            assert("BukrsSDInvOpen"@.len() != "BukrsResPlayerInvOpen"@.len());
        },
        PacketV::ReqCreateInvList(_) => {
            reveal_strlit("BukrsSDInvOpen");
            reveal_strlit("BukrsReqCreateInvList");
            assert("BukrsSDInvOpen"@.len() != "BukrsReqCreateInvList"@.len());
        },
        PacketV::ResCreateInvList(_) => {
            reveal_strlit("BukrsSDInvOpen");
            reveal_strlit("BukrsResCreateInvList");
            assert("BukrsSDInvOpen"@.len() != "BukrsResCreateInvList"@.len());
        },
        PacketV::ReqModifyInvList(_) => {
            reveal_strlit("BukrsSDInvOpen");
            reveal_strlit("BukrsReqModifyInvList");
            assert("BukrsSDInvOpen"@.len() != "BukrsReqModifyInvList"@.len());
        },
        PacketV::ResModifyInvList(_) => {
            reveal_strlit("BukrsSDInvOpen");
            reveal_strlit("BukrsResModifyInvList");
            assert("BukrsSDInvOpen"@.len() != "BukrsResModifyInvList"@.len());
        },
    }
}

/// Only one registered shape carries this tag.
proof fn lemma_tag_sdinvclose(m: PacketV)
    requires
        tag_of(m) == "BukrsSDInvClose"@,
    ensures
        m matches PacketV::SDInvClose(_),
{
    match m {
        PacketV::ReqAPI(_) => {
            reveal_strlit("BukrsSDInvClose");
            reveal_strlit("BukrsReqAPI");
            assert("BukrsSDInvClose"@.len() != "BukrsReqAPI"@.len());
        },
        PacketV::ResAPI(_) => {
            reveal_strlit("BukrsSDInvClose");
            reveal_strlit("BukrsResAPI");
            assert("BukrsSDInvClose"@.len() != "BukrsResAPI"@.len());
        },
        PacketV::ReqOnlinePlayers(_) => {
            reveal_strlit("BukrsSDInvClose");
            reveal_strlit("BukrsReqOnlinePlayers");
            assert("BukrsSDInvClose"@.len() != "BukrsReqOnlinePlayers"@.len());
        },
        PacketV::ResOnlinePlayers(_) => {
            reveal_strlit("BukrsSDInvClose");
            reveal_strlit("BukrsResOnlinePlayers");
            assert("BukrsSDInvClose"@.len() != "BukrsResOnlinePlayers"@.len());
        },
        PacketV::ReqPlayerById(_) => {
            reveal_strlit("BukrsSDInvClose");
            reveal_strlit("BukrsReqPlayerById");
            assert("BukrsSDInvClose"@.len() != "BukrsReqPlayerById"@.len());
        },
        PacketV::ReqPlayerByName(_) => {
            reveal_strlit("BukrsSDInvClose");
            reveal_strlit("BukrsReqPlayerByName");
            assert("BukrsSDInvClose"@.len() != "BukrsReqPlayerByName"@.len());
        },
        PacketV::ResPlayerData(_) => {
            reveal_strlit("BukrsSDInvClose");
            reveal_strlit("BukrsResPlayerData");
            assert("BukrsSDInvClose"@.len() != "BukrsResPlayerData"@.len());
        },
        PacketV::ReqCreateInventory(_) => {
            reveal_strlit("BukrsSDInvClose");
            reveal_strlit("BukrsReqCreateInventory");
            assert("BukrsSDInvClose"@.len() != "BukrsReqCreateInventory"@.len());
        },
        PacketV::ResCreateInventory(_) => {
            reveal_strlit("BukrsSDInvClose");
            reveal_strlit("BukrsResCreateInventory");
            assert("BukrsSDInvClose"@.len() != "BukrsResCreateInventory"@.len());
        },
        PacketV::SDInvClick(_) => {
            reveal_strlit("BukrsSDInvClose");
            reveal_strlit("BukrsSDInvClick");
            assert("BukrsSDInvClose"@[12] != "BukrsSDInvClick"@[12]);
        },
        PacketV::SDInvOpen(_) => {
            reveal_strlit("BukrsSDInvClose");
            reveal_strlit("BukrsSDInvOpen");
            assert("BukrsSDInvClose"@.len() != "BukrsSDInvOpen"@.len());
        },
        PacketV::SDInvClose(_) => {},
        PacketV::ReqPlayerInvOpen(_) => {
            reveal_strlit("BukrsSDInvClose");
            reveal_strlit("BukrsReqPlayerInvOpen");
            assert("BukrsSDInvClose"@.len() != "BukrsReqPlayerInvOpen"@.len());
        },
        PacketV::ResPlayerInvOpen(_) => {
            reveal_strlit("BukrsSDInvClose");
            reveal_strlit("BukrsResPlayerInvOpen");
            assert("BukrsSDInvClose"@.len() != "BukrsResPlayerInvOpen"@.len());
        },
        PacketV::ReqCreateInvList(_) => {
            reveal_strlit("BukrsSDInvClose");
            reveal_strlit("BukrsReqCreateInvList");
            assert("BukrsSDInvClose"@.len() != "BukrsReqCreateInvList"@.len());
        },
        PacketV::ResCreateInvList(_) => {
            reveal_strlit("BukrsSDInvClose");
            reveal_strlit("BukrsResCreateInvList");
            assert("BukrsSDInvClose"@.len() != "BukrsResCreateInvList"@.len());
        },
        PacketV::ReqModifyInvList(_) => {
            reveal_strlit("BukrsSDInvClose");
            reveal_strlit("BukrsReqModifyInvList");
            assert("BukrsSDInvClose"@.len() != "BukrsReqModifyInvList"@.len());
        },
        PacketV::ResModifyInvList(_) => {
            reveal_strlit("BukrsSDInvClose");
            reveal_strlit("BukrsResModifyInvList");
            assert("BukrsSDInvClose"@.len() != "BukrsResModifyInvList"@.len());
        },
    }
}

/// Only one registered shape carries this tag.
proof fn lemma_tag_reqplayerinvopen(m: PacketV)
    requires
        tag_of(m) == "BukrsReqPlayerInvOpen"@,
    ensures
        m matches PacketV::ReqPlayerInvOpen(_),
{
    match m {
        PacketV::ReqAPI(_) => {
            reveal_strlit("BukrsReqPlayerInvOpen");
            reveal_strlit("BukrsReqAPI");
            assert("BukrsReqPlayerInvOpen"@.len() != "BukrsReqAPI"@.len());
        },
        PacketV::ResAPI(_) => {
            reveal_strlit("BukrsReqPlayerInvOpen");
            reveal_strlit("BukrsResAPI");
            assert("BukrsReqPlayerInvOpen"@.len() != "BukrsResAPI"@.len());
        },
        PacketV::ReqOnlinePlayers(_) => {
            reveal_strlit("BukrsReqPlayerInvOpen");
            reveal_strlit("BukrsReqOnlinePlayers");
            assert("BukrsReqPlayerInvOpen"@[8] != "BukrsReqOnlinePlayers"@[8]);
        },
        PacketV::ResOnlinePlayers(_) => {
            reveal_strlit("BukrsReqPlayerInvOpen");
            reveal_strlit("BukrsResOnlinePlayers");
            assert("BukrsReqPlayerInvOpen"@[7] != "BukrsResOnlinePlayers"@[7]);
        },
        PacketV::ReqPlayerById(_) => {
            reveal_strlit("BukrsReqPlayerInvOpen");
            reveal_strlit("BukrsReqPlayerById");
            assert("BukrsReqPlayerInvOpen"@.len() != "BukrsReqPlayerById"@.len());
        },
        PacketV::ReqPlayerByName(_) => {
            reveal_strlit("BukrsReqPlayerInvOpen");
            reveal_strlit("BukrsReqPlayerByName");
            assert("BukrsReqPlayerInvOpen"@.len() != "BukrsReqPlayerByName"@.len());
        },
        PacketV::ResPlayerData(_) => {
            reveal_strlit("BukrsReqPlayerInvOpen");
            reveal_strlit("BukrsResPlayerData");
            assert("BukrsReqPlayerInvOpen"@.len() != "BukrsResPlayerData"@.len());
        },
        PacketV::ReqCreateInventory(_) => {
            reveal_strlit("BukrsReqPlayerInvOpen");
            reveal_strlit("BukrsReqCreateInventory");
            assert("BukrsReqPlayerInvOpen"@.len() != "BukrsReqCreateInventory"@.len());
        },
        PacketV::ResCreateInventory(_) => {
            reveal_strlit("BukrsReqPlayerInvOpen");
            reveal_strlit("BukrsResCreateInventory");
            assert("BukrsReqPlayerInvOpen"@.len() != "BukrsResCreateInventory"@.len());
        },
        PacketV::SDInvClick(_) => {
            reveal_strlit("BukrsReqPlayerInvOpen");
            reveal_strlit("BukrsSDInvClick");
            assert("BukrsReqPlayerInvOpen"@.len() != "BukrsSDInvClick"@.len());
        },
        PacketV::SDInvOpen(_) => {
            reveal_strlit("BukrsReqPlayerInvOpen");
            reveal_strlit("BukrsSDInvOpen");
            assert("BukrsReqPlayerInvOpen"@.len() != "BukrsSDInvOpen"@.len());
        },
        PacketV::SDInvClose(_) => {
            reveal_strlit("BukrsReqPlayerInvOpen");
            reveal_strlit("BukrsSDInvClose");
            assert("BukrsReqPlayerInvOpen"@.len() != "BukrsSDInvClose"@.len());
        },
        PacketV::ReqPlayerInvOpen(_) => {},
        PacketV::ResPlayerInvOpen(_) => {
            reveal_strlit("BukrsReqPlayerInvOpen");
            reveal_strlit("BukrsResPlayerInvOpen");
            assert("BukrsReqPlayerInvOpen"@[7] != "BukrsResPlayerInvOpen"@[7]);
        },
        PacketV::ReqCreateInvList(_) => {
            reveal_strlit("BukrsReqPlayerInvOpen");
            reveal_strlit("BukrsReqCreateInvList");
            assert("BukrsReqPlayerInvOpen"@[8] != "BukrsReqCreateInvList"@[8]);
        },
        PacketV::ResCreateInvList(_) => {
            reveal_strlit("BukrsReqPlayerInvOpen");
            reveal_strlit("BukrsResCreateInvList");
            assert("BukrsReqPlayerInvOpen"@[7] != "BukrsResCreateInvList"@[7]);
        },
        PacketV::ReqModifyInvList(_) => {
            reveal_strlit("BukrsReqPlayerInvOpen");
            reveal_strlit("BukrsReqModifyInvList");
            assert("BukrsReqPlayerInvOpen"@[8] != "BukrsReqModifyInvList"@[8]);
        },
        PacketV::ResModifyInvList(_) => {
            reveal_strlit("BukrsReqPlayerInvOpen");
            reveal_strlit("BukrsResModifyInvList");
            assert("BukrsReqPlayerInvOpen"@[7] != "BukrsResModifyInvList"@[7]);
        },
    }
}

/// Only one registered shape carries this tag.
proof fn lemma_tag_resplayerinvopen(m: PacketV)
    requires
        tag_of(m) == "BukrsResPlayerInvOpen"@,
    ensures
        m matches PacketV::ResPlayerInvOpen(_),
{
    match m {
        PacketV::ReqAPI(_) => {
            reveal_strlit("BukrsResPlayerInvOpen");
            reveal_strlit("BukrsReqAPI");
            assert("BukrsResPlayerInvOpen"@.len() != "BukrsReqAPI"@.len());
        },
        PacketV::ResAPI(_) => {
            reveal_strlit("BukrsResPlayerInvOpen");
            reveal_strlit("BukrsResAPI");
            assert("BukrsResPlayerInvOpen"@.len() != "BukrsResAPI"@.len());
        },
        PacketV::ReqOnlinePlayers(_) => {
            reveal_strlit("BukrsResPlayerInvOpen");
            reveal_strlit("BukrsReqOnlinePlayers");
            assert("BukrsResPlayerInvOpen"@[7] != "BukrsReqOnlinePlayers"@[7]);
        },
        PacketV::ResOnlinePlayers(_) => {
            reveal_strlit("BukrsResPlayerInvOpen");
            reveal_strlit("BukrsResOnlinePlayers");
            assert("BukrsResPlayerInvOpen"@[8] != "BukrsResOnlinePlayers"@[8]);
        },
        PacketV::ReqPlayerById(_) => {
            reveal_strlit("BukrsResPlayerInvOpen");
            reveal_strlit("BukrsReqPlayerById");
            assert("BukrsResPlayerInvOpen"@.len() != "BukrsReqPlayerById"@.len());
        },
        PacketV::ReqPlayerByName(_) => {
            reveal_strlit("BukrsResPlayerInvOpen");
            reveal_strlit("BukrsReqPlayerByName");
            assert("BukrsResPlayerInvOpen"@.len() != "BukrsReqPlayerByName"@.len());
        },
        PacketV::ResPlayerData(_) => {
            reveal_strlit("BukrsResPlayerInvOpen");
            reveal_strlit("BukrsResPlayerData");
            assert("BukrsResPlayerInvOpen"@.len() != "BukrsResPlayerData"@.len());
        },
        PacketV::ReqCreateInventory(_) => {
            reveal_strlit("BukrsResPlayerInvOpen");
            reveal_strlit("BukrsReqCreateInventory");
            assert("BukrsResPlayerInvOpen"@.len() != "BukrsReqCreateInventory"@.len());
        },
        PacketV::ResCreateInventory(_) => {
            reveal_strlit("BukrsResPlayerInvOpen");
            reveal_strlit("BukrsResCreateInventory");
            assert("BukrsResPlayerInvOpen"@.len() != "BukrsResCreateInventory"@.len());
        },
        PacketV::SDInvClick(_) => {
            reveal_strlit("BukrsResPlayerInvOpen");
            reveal_strlit("BukrsSDInvClick");
            assert("BukrsResPlayerInvOpen"@.len() != "BukrsSDInvClick"@.len());
        },
        PacketV::SDInvOpen(_) => {
            reveal_strlit("BukrsResPlayerInvOpen");
            reveal_strlit("BukrsSDInvOpen");
            assert("BukrsResPlayerInvOpen"@.len() != "BukrsSDInvOpen"@.len());
        },
        PacketV::SDInvClose(_) => {
            reveal_strlit("BukrsResPlayerInvOpen");
            reveal_strlit("BukrsSDInvClose");
            assert("BukrsResPlayerInvOpen"@.len() != "BukrsSDInvClose"@.len());
        },
        PacketV::ReqPlayerInvOpen(_) => {
            reveal_strlit("BukrsResPlayerInvOpen");
            reveal_strlit("BukrsReqPlayerInvOpen");
            assert("BukrsResPlayerInvOpen"@[7] != "BukrsReqPlayerInvOpen"@[7]);
        },
        PacketV::ResPlayerInvOpen(_) => {},
        PacketV::ReqCreateInvList(_) => {
            reveal_strlit("BukrsResPlayerInvOpen");
            reveal_strlit("BukrsReqCreateInvList");
            assert("BukrsResPlayerInvOpen"@[7] != "BukrsReqCreateInvList"@[7]);
        },
        PacketV::ResCreateInvList(_) => {
            reveal_strlit("BukrsResPlayerInvOpen");
            reveal_strlit("BukrsResCreateInvList");
            assert("BukrsResPlayerInvOpen"@[8] != "BukrsResCreateInvList"@[8]);
        },
        PacketV::ReqModifyInvList(_) => {
            reveal_strlit("BukrsResPlayerInvOpen");
            reveal_strlit("BukrsReqModifyInvList");
            assert("BukrsResPlayerInvOpen"@[7] != "BukrsReqModifyInvList"@[7]);
        },
        PacketV::ResModifyInvList(_) => {
            reveal_strlit("BukrsResPlayerInvOpen");
            reveal_strlit("BukrsResModifyInvList");
            assert("BukrsResPlayerInvOpen"@[8] != "BukrsResModifyInvList"@[8]);
        },
    }
}

/// Only one registered shape carries this tag.
proof fn lemma_tag_reqcreateinvlist(m: PacketV)
    requires
        tag_of(m) == "BukrsReqCreateInvList"@,
    ensures
        m matches PacketV::ReqCreateInvList(_),
{
    match m {
        PacketV::ReqAPI(_) => {
            reveal_strlit("BukrsReqCreateInvList");
            reveal_strlit("BukrsReqAPI");
            assert("BukrsReqCreateInvList"@.len() != "BukrsReqAPI"@.len());
        },
        PacketV::ResAPI(_) => {
            reveal_strlit("BukrsReqCreateInvList");
            reveal_strlit("BukrsResAPI");
            assert("BukrsReqCreateInvList"@.len() != "BukrsResAPI"@.len());
        },
        PacketV::ReqOnlinePlayers(_) => {
            reveal_strlit("BukrsReqCreateInvList");
            reveal_strlit("BukrsReqOnlinePlayers");
            assert("BukrsReqCreateInvList"@[8] != "BukrsReqOnlinePlayers"@[8]);
        },
        PacketV::ResOnlinePlayers(_) => {
            reveal_strlit("BukrsReqCreateInvList");
            reveal_strlit("BukrsResOnlinePlayers");
            assert("BukrsReqCreateInvList"@[7] != "BukrsResOnlinePlayers"@[7]);
        },
        PacketV::ReqPlayerById(_) => {
            reveal_strlit("BukrsReqCreateInvList");
            reveal_strlit("BukrsReqPlayerById");
            assert("BukrsReqCreateInvList"@.len() != "BukrsReqPlayerById"@.len());
        },
        PacketV::ReqPlayerByName(_) => {
            reveal_strlit("BukrsReqCreateInvList");
            reveal_strlit("BukrsReqPlayerByName");
            assert("BukrsReqCreateInvList"@.len() != "BukrsReqPlayerByName"@.len());
        },
        PacketV::ResPlayerData(_) => {
            reveal_strlit("BukrsReqCreateInvList");
            reveal_strlit("BukrsResPlayerData");
            assert("BukrsReqCreateInvList"@.len() != "BukrsResPlayerData"@.len());
        },
        PacketV::ReqCreateInventory(_) => {
            reveal_strlit("BukrsReqCreateInvList");
            reveal_strlit("BukrsReqCreateInventory");
            assert("BukrsReqCreateInvList"@.len() != "BukrsReqCreateInventory"@.len());
        },
        PacketV::ResCreateInventory(_) => {
            reveal_strlit("BukrsReqCreateInvList");
            reveal_strlit("BukrsResCreateInventory");
            assert("BukrsReqCreateInvList"@.len() != "BukrsResCreateInventory"@.len());
        },
        PacketV::SDInvClick(_) => {
            reveal_strlit("BukrsReqCreateInvList");
            reveal_strlit("BukrsSDInvClick");
            assert("BukrsReqCreateInvList"@.len() != "BukrsSDInvClick"@.len());
        },
        PacketV::SDInvOpen(_) => {
            reveal_strlit("BukrsReqCreateInvList");
            reveal_strlit("BukrsSDInvOpen");
            assert("BukrsReqCreateInvList"@.len() != "BukrsSDInvOpen"@.len());
        },
        PacketV::SDInvClose(_) => {
            reveal_strlit("BukrsReqCreateInvList");
            reveal_strlit("BukrsSDInvClose");
            assert("BukrsReqCreateInvList"@.len() != "BukrsSDInvClose"@.len());
        },
        PacketV::ReqPlayerInvOpen(_) => {
            reveal_strlit("BukrsReqCreateInvList");
            reveal_strlit("BukrsReqPlayerInvOpen");
            assert("BukrsReqCreateInvList"@[8] != "BukrsReqPlayerInvOpen"@[8]);
        },
        PacketV::ResPlayerInvOpen(_) => {
            reveal_strlit("BukrsReqCreateInvList");
            reveal_strlit("BukrsResPlayerInvOpen");
            assert("BukrsReqCreateInvList"@[7] != "BukrsResPlayerInvOpen"@[7]);
        },
        PacketV::ReqCreateInvList(_) => {},
        PacketV::ResCreateInvList(_) => {
            reveal_strlit("BukrsReqCreateInvList");
            reveal_strlit("BukrsResCreateInvList");
            assert("BukrsReqCreateInvList"@[7] != "BukrsResCreateInvList"@[7]);
        },
        PacketV::ReqModifyInvList(_) => {
            reveal_strlit("BukrsReqCreateInvList");
            reveal_strlit("BukrsReqModifyInvList");
            assert("BukrsReqCreateInvList"@[8] != "BukrsReqModifyInvList"@[8]);
        },
        PacketV::ResModifyInvList(_) => {
            reveal_strlit("BukrsReqCreateInvList");
            reveal_strlit("BukrsResModifyInvList");
            assert("BukrsReqCreateInvList"@[7] != "BukrsResModifyInvList"@[7]);
        },
    }
}

/// Only one registered shape carries this tag.
proof fn lemma_tag_rescreateinvlist(m: PacketV)
    requires
        tag_of(m) == "BukrsResCreateInvList"@,
    ensures
        m matches PacketV::ResCreateInvList(_),
{
    match m {
        PacketV::ReqAPI(_) => {
            reveal_strlit("BukrsResCreateInvList");
            reveal_strlit("BukrsReqAPI");
            assert("BukrsResCreateInvList"@.len() != "BukrsReqAPI"@.len());
        },
        PacketV::ResAPI(_) => {
            reveal_strlit("BukrsResCreateInvList");
            reveal_strlit("BukrsResAPI");
            assert("BukrsResCreateInvList"@.len() != "BukrsResAPI"@.len());
        },
        PacketV::ReqOnlinePlayers(_) => {
            reveal_strlit("BukrsResCreateInvList");
            reveal_strlit("BukrsReqOnlinePlayers");
            assert("BukrsResCreateInvList"@[7] != "BukrsReqOnlinePlayers"@[7]);
        },
        PacketV::ResOnlinePlayers(_) => {
            reveal_strlit("BukrsResCreateInvList");
            reveal_strlit("BukrsResOnlinePlayers");
            assert("BukrsResCreateInvList"@[8] != "BukrsResOnlinePlayers"@[8]);
        },
        PacketV::ReqPlayerById(_) => {
            reveal_strlit("BukrsResCreateInvList");
            reveal_strlit("BukrsReqPlayerById");
            assert("BukrsResCreateInvList"@.len() != "BukrsReqPlayerById"@.len());
        },
        PacketV::ReqPlayerByName(_) => {
            reveal_strlit("BukrsResCreateInvList");
            reveal_strlit("BukrsReqPlayerByName");
            assert("BukrsResCreateInvList"@.len() != "BukrsReqPlayerByName"@.len());
        },
        PacketV::ResPlayerData(_) => {
            reveal_strlit("BukrsResCreateInvList");
            reveal_strlit("BukrsResPlayerData");
            assert("BukrsResCreateInvList"@.len() != "BukrsResPlayerData"@.len());
        },
        PacketV::ReqCreateInventory(_) => {
            reveal_strlit("BukrsResCreateInvList");
            reveal_strlit("BukrsReqCreateInventory");
            assert("BukrsResCreateInvList"@.len() != "BukrsReqCreateInventory"@.len());
        },
        PacketV::ResCreateInventory(_) => {
            reveal_strlit("BukrsResCreateInvList");
            reveal_strlit("BukrsResCreateInventory");
            assert("BukrsResCreateInvList"@.len() != "BukrsResCreateInventory"@.len());
        },
        PacketV::SDInvClick(_) => {
            reveal_strlit("BukrsResCreateInvList");
            reveal_strlit("BukrsSDInvClick");
            assert("BukrsResCreateInvList"@.len() != "BukrsSDInvClick"@.len());
        },
        PacketV::SDInvOpen(_) => {
            reveal_strlit("BukrsResCreateInvList");
            reveal_strlit("BukrsSDInvOpen");
            assert("BukrsResCreateInvList"@.len() != "BukrsSDInvOpen"@.len());
        },
        PacketV::SDInvClose(_) => {
            reveal_strlit("BukrsResCreateInvList");
            reveal_strlit("BukrsSDInvClose");
            assert("BukrsResCreateInvList"@.len() != "BukrsSDInvClose"@.len());
        },
        PacketV::ReqPlayerInvOpen(_) => {
            reveal_strlit("BukrsResCreateInvList");
            reveal_strlit("BukrsReqPlayerInvOpen");
            assert("BukrsResCreateInvList"@[7] != "BukrsReqPlayerInvOpen"@[7]);
        },
        PacketV::ResPlayerInvOpen(_) => {
            reveal_strlit("BukrsResCreateInvList");
            reveal_strlit("BukrsResPlayerInvOpen");
            assert("BukrsResCreateInvList"@[8] != "BukrsResPlayerInvOpen"@[8]);
        },
        PacketV::ReqCreateInvList(_) => {
            reveal_strlit("BukrsResCreateInvList");
            reveal_strlit("BukrsReqCreateInvList");
            assert("BukrsResCreateInvList"@[7] != "BukrsReqCreateInvList"@[7]);
        },
        PacketV::ResCreateInvList(_) => {},
        PacketV::ReqModifyInvList(_) => {
            reveal_strlit("BukrsResCreateInvList");
            reveal_strlit("BukrsReqModifyInvList");
            assert("BukrsResCreateInvList"@[7] != "BukrsReqModifyInvList"@[7]);
        },
        PacketV::ResModifyInvList(_) => {
            reveal_strlit("BukrsResCreateInvList");
            reveal_strlit("BukrsResModifyInvList");
            assert("BukrsResCreateInvList"@[8] != "BukrsResModifyInvList"@[8]);
        },
    }
}

/// Only one registered shape carries this tag.
proof fn lemma_tag_reqmodifyinvlist(m: PacketV)
    requires
        tag_of(m) == "BukrsReqModifyInvList"@,
    ensures
        m matches PacketV::ReqModifyInvList(_),
{
    match m {
        PacketV::ReqAPI(_) => {
            reveal_strlit("BukrsReqModifyInvList");
            reveal_strlit("BukrsReqAPI");
            assert("BukrsReqModifyInvList"@.len() != "BukrsReqAPI"@.len());
        },
        PacketV::ResAPI(_) => {
            reveal_strlit("BukrsReqModifyInvList");
            reveal_strlit("BukrsResAPI");
            assert("BukrsReqModifyInvList"@.len() != "BukrsResAPI"@.len());
        },
        PacketV::ReqOnlinePlayers(_) => {
            reveal_strlit("BukrsReqModifyInvList");
            reveal_strlit("BukrsReqOnlinePlayers");
            assert("BukrsReqModifyInvList"@[8] != "BukrsReqOnlinePlayers"@[8]);
        },
        PacketV::ResOnlinePlayers(_) => {
            reveal_strlit("BukrsReqModifyInvList");
            reveal_strlit("BukrsResOnlinePlayers");
            assert("BukrsReqModifyInvList"@[7] != "BukrsResOnlinePlayers"@[7]);
        },
        PacketV::ReqPlayerById(_) => {
            reveal_strlit("BukrsReqModifyInvList");
            reveal_strlit("BukrsReqPlayerById");
            assert("BukrsReqModifyInvList"@.len() != "BukrsReqPlayerById"@.len());
        },
        PacketV::ReqPlayerByName(_) => {
            reveal_strlit("BukrsReqModifyInvList");
            reveal_strlit("BukrsReqPlayerByName");
            assert("BukrsReqModifyInvList"@.len() != "BukrsReqPlayerByName"@.len());
        },
        PacketV::ResPlayerData(_) => {
            reveal_strlit("BukrsReqModifyInvList");
            reveal_strlit("BukrsResPlayerData");
            assert("BukrsReqModifyInvList"@.len() != "BukrsResPlayerData"@.len());
        },
        PacketV::ReqCreateInventory(_) => {
            reveal_strlit("BukrsReqModifyInvList");
            reveal_strlit("BukrsReqCreateInventory");
            assert("BukrsReqModifyInvList"@.len() != "BukrsReqCreateInventory"@.len());
        },
        PacketV::ResCreateInventory(_) => {
            reveal_strlit("BukrsReqModifyInvList");
            reveal_strlit("BukrsResCreateInventory");
            assert("BukrsReqModifyInvList"@.len() != "BukrsResCreateInventory"@.len());
        },
        PacketV::SDInvClick(_) => {
            reveal_strlit("BukrsReqModifyInvList");
            reveal_strlit("BukrsSDInvClick");
            assert("BukrsReqModifyInvList"@.len() != "BukrsSDInvClick"@.len());
        },
        PacketV::SDInvOpen(_) => {
            reveal_strlit("BukrsReqModifyInvList");
            reveal_strlit("BukrsSDInvOpen");
            assert("BukrsReqModifyInvList"@.len() != "BukrsSDInvOpen"@.len());
        },
        PacketV::SDInvClose(_) => {
            reveal_strlit("BukrsReqModifyInvList");
            reveal_strlit("BukrsSDInvClose");
            assert("BukrsReqModifyInvList"@.len() != "BukrsSDInvClose"@.len());
        },
        PacketV::ReqPlayerInvOpen(_) => {
            reveal_strlit("BukrsReqModifyInvList");
            reveal_strlit("BukrsReqPlayerInvOpen");
            assert("BukrsReqModifyInvList"@[8] != "BukrsReqPlayerInvOpen"@[8]);
        },
        PacketV::ResPlayerInvOpen(_) => {
            reveal_strlit("BukrsReqModifyInvList");
            reveal_strlit("BukrsResPlayerInvOpen");
            assert("BukrsReqModifyInvList"@[7] != "BukrsResPlayerInvOpen"@[7]);
        },
        PacketV::ReqCreateInvList(_) => {
            reveal_strlit("BukrsReqModifyInvList");
            reveal_strlit("BukrsReqCreateInvList");
            assert("BukrsReqModifyInvList"@[8] != "BukrsReqCreateInvList"@[8]);
        },
        PacketV::ResCreateInvList(_) => {
            reveal_strlit("BukrsReqModifyInvList");
            reveal_strlit("BukrsResCreateInvList");
            assert("BukrsReqModifyInvList"@[7] != "BukrsResCreateInvList"@[7]);
        },
        PacketV::ReqModifyInvList(_) => {},
        PacketV::ResModifyInvList(_) => {
            reveal_strlit("BukrsReqModifyInvList");
            reveal_strlit("BukrsResModifyInvList");
            assert("BukrsReqModifyInvList"@[7] != "BukrsResModifyInvList"@[7]);
        },
    }
}

/// Only one registered shape carries this tag.
proof fn lemma_tag_resmodifyinvlist(m: PacketV)
    requires
        tag_of(m) == "BukrsResModifyInvList"@,
    ensures
        m matches PacketV::ResModifyInvList(_),
{
    match m {
        PacketV::ReqAPI(_) => {
            reveal_strlit("BukrsResModifyInvList");
            reveal_strlit("BukrsReqAPI");
            assert("BukrsResModifyInvList"@.len() != "BukrsReqAPI"@.len());
        },
        PacketV::ResAPI(_) => {
            reveal_strlit("BukrsResModifyInvList");
            reveal_strlit("BukrsResAPI");
            assert("BukrsResModifyInvList"@.len() != "BukrsResAPI"@.len());
        },
        PacketV::ReqOnlinePlayers(_) => {
            reveal_strlit("BukrsResModifyInvList");
            reveal_strlit("BukrsReqOnlinePlayers");
            assert("BukrsResModifyInvList"@[7] != "BukrsReqOnlinePlayers"@[7]);
        },
        PacketV::ResOnlinePlayers(_) => {
            reveal_strlit("BukrsResModifyInvList");
            reveal_strlit("BukrsResOnlinePlayers");
            assert("BukrsResModifyInvList"@[8] != "BukrsResOnlinePlayers"@[8]);
        },
        PacketV::ReqPlayerById(_) => {
            reveal_strlit("BukrsResModifyInvList");
            reveal_strlit("BukrsReqPlayerById");
            assert("BukrsResModifyInvList"@.len() != "BukrsReqPlayerById"@.len());
        },
        PacketV::ReqPlayerByName(_) => {
            reveal_strlit("BukrsResModifyInvList");
            reveal_strlit("BukrsReqPlayerByName");
            assert("BukrsResModifyInvList"@.len() != "BukrsReqPlayerByName"@.len());
        },
        PacketV::ResPlayerData(_) => {
            reveal_strlit("BukrsResModifyInvList");
            reveal_strlit("BukrsResPlayerData");
            assert("BukrsResModifyInvList"@.len() != "BukrsResPlayerData"@.len());
        },
        PacketV::ReqCreateInventory(_) => {
            reveal_strlit("BukrsResModifyInvList");
            reveal_strlit("BukrsReqCreateInventory");
            assert("BukrsResModifyInvList"@.len() != "BukrsReqCreateInventory"@.len());
        },
        PacketV::ResCreateInventory(_) => {
            reveal_strlit("BukrsResModifyInvList");
            reveal_strlit("BukrsResCreateInventory");
            assert("BukrsResModifyInvList"@.len() != "BukrsResCreateInventory"@.len());
        },
        PacketV::SDInvClick(_) => {
            reveal_strlit("BukrsResModifyInvList");
            reveal_strlit("BukrsSDInvClick");
            assert("BukrsResModifyInvList"@.len() != "BukrsSDInvClick"@.len());
        },
        PacketV::SDInvOpen(_) => {
            reveal_strlit("BukrsResModifyInvList");
            reveal_strlit("BukrsSDInvOpen");
            assert("BukrsResModifyInvList"@.len() != "BukrsSDInvOpen"@.len());
        },
        PacketV::SDInvClose(_) => {
            reveal_strlit("BukrsResModifyInvList");
            reveal_strlit("BukrsSDInvClose");
            assert("BukrsResModifyInvList"@.len() != "BukrsSDInvClose"@.len());
        },
        PacketV::ReqPlayerInvOpen(_) => {
            reveal_strlit("BukrsResModifyInvList");
            reveal_strlit("BukrsReqPlayerInvOpen");
            assert("BukrsResModifyInvList"@[7] != "BukrsReqPlayerInvOpen"@[7]);
        },
        PacketV::ResPlayerInvOpen(_) => {
            reveal_strlit("BukrsResModifyInvList");
            reveal_strlit("BukrsResPlayerInvOpen");
            assert("BukrsResModifyInvList"@[8] != "BukrsResPlayerInvOpen"@[8]);
        },
        PacketV::ReqCreateInvList(_) => {
            reveal_strlit("BukrsResModifyInvList");
            reveal_strlit("BukrsReqCreateInvList");
            assert("BukrsResModifyInvList"@[7] != "BukrsReqCreateInvList"@[7]);
        },
        PacketV::ResCreateInvList(_) => {
            reveal_strlit("BukrsResModifyInvList");
            reveal_strlit("BukrsResCreateInvList");
            assert("BukrsResModifyInvList"@[8] != "BukrsResCreateInvList"@[8]);
        },
        PacketV::ReqModifyInvList(_) => {
            reveal_strlit("BukrsResModifyInvList");
            reveal_strlit("BukrsReqModifyInvList");
            assert("BukrsResModifyInvList"@[7] != "BukrsReqModifyInvList"@[7]);
        },
        PacketV::ResModifyInvList(_) => {},
    }
}

impl Packet {
    /// The tag string of this packet's shape.
    pub fn id(&self) -> (r: String)
        ensures
            r@ == tag_of(self.deep_view()),
    {
        match self {
            Packet::ReqAPI(_) => String::from_str("BukrsReqAPI"),
            Packet::ResAPI(_) => String::from_str("BukrsResAPI"),
            Packet::ReqOnlinePlayers(_) => String::from_str("BukrsReqOnlinePlayers"),
            Packet::ResOnlinePlayers(_) => String::from_str("BukrsResOnlinePlayers"),
            Packet::ReqPlayerById(_) => String::from_str("BukrsReqPlayerById"),
            Packet::ReqPlayerByName(_) => String::from_str("BukrsReqPlayerByName"),
            Packet::ResPlayerData(_) => String::from_str("BukrsResPlayerData"),
            Packet::ReqCreateInventory(_) => String::from_str("BukrsReqCreateInventory"),
            Packet::ResCreateInventory(_) => String::from_str("BukrsResCreateInventory"),
            Packet::SDInvClick(_) => String::from_str("BukrsSDInvClick"),
            Packet::SDInvOpen(_) => String::from_str("BukrsSDInvOpen"),
            Packet::SDInvClose(_) => String::from_str("BukrsSDInvClose"),
            Packet::ReqPlayerInvOpen(_) => String::from_str("BukrsReqPlayerInvOpen"),
            Packet::ResPlayerInvOpen(_) => String::from_str("BukrsResPlayerInvOpen"),
            Packet::ReqCreateInvList(_) => String::from_str("BukrsReqCreateInvList"),
            Packet::ResCreateInvList(_) => String::from_str("BukrsResCreateInvList"),
            Packet::ReqModifyInvList(_) => String::from_str("BukrsReqModifyInvList"),
            Packet::ResModifyInvList(_) => String::from_str("BukrsResModifyInvList"),
        }
    }

    /// Appends the field encodings of this packet, in declared order.
    pub fn encode_fields(&self, bytes: &mut BytesMut) -> (r: Result<(), BukrsError>)
        ensures
            r is Ok <==> packet_fields_fit(self.deep_view()),
            r is Ok ==> contents(*final(bytes)) == contents(*old(bytes)) + fields_wire(
                self.deep_view(),
            ),
            r matches Err(e) ==> e == BukrsError::InvalidEncoding,
    {
        match self {
            Packet::ReqAPI(x) => x.encode(bytes),
            Packet::ResAPI(x) => x.encode(bytes),
            Packet::ReqOnlinePlayers(x) => x.encode(bytes),
            Packet::ResOnlinePlayers(x) => x.encode(bytes),
            Packet::ReqPlayerById(x) => x.encode(bytes),
            Packet::ReqPlayerByName(x) => x.encode(bytes),
            Packet::ResPlayerData(x) => x.encode(bytes),
            Packet::ReqCreateInventory(x) => x.encode(bytes),
            Packet::ResCreateInventory(x) => x.encode(bytes),
            Packet::SDInvClick(x) => x.encode(bytes),
            Packet::SDInvOpen(x) => x.encode(bytes),
            Packet::SDInvClose(x) => x.encode(bytes),
            Packet::ReqPlayerInvOpen(x) => x.encode(bytes),
            Packet::ResPlayerInvOpen(x) => x.encode(bytes),
            Packet::ReqCreateInvList(x) => x.encode(bytes),
            Packet::ResCreateInvList(x) => x.encode(bytes),
            Packet::ReqModifyInvList(x) => x.encode(bytes),
            Packet::ResModifyInvList(x) => x.encode(bytes),
        }
    }

    /// Appends the whole payload: the length-prefixed tag, then the fields.
    pub fn encode_payload(&self, bytes: &mut BytesMut) -> (r: Result<(), BukrsError>)
        ensures
            r is Ok <==> payload_fits(self.deep_view()),
            r is Ok ==> contents(*final(bytes)) == contents(*old(bytes)) + payload_wire(
                self.deep_view(),
            ),
            r matches Err(e) ==> e == BukrsError::InvalidEncoding,
    {
        let tag = self.id();
        match tag.encode(bytes) {
            Ok(()) => {},
            Err(e) => {
                return Err(e);
            },
        }
        match self.encode_fields(bytes) {
            Ok(()) => {},
            Err(e) => {
                return Err(e);
            },
        }
        proof {
            assert(contents(*bytes) =~= contents(*old(bytes)) + payload_wire(self.deep_view()));
        }
        Ok(())
    }

    /// Decodes one whole payload: the tag string selects the shape, whose
    /// decoder consumes the field bytes.  An unregistered tag is a typed
    /// error, never a crash.
    pub fn decode_payload(bytes: &mut BytesMut) -> (r: Result<Packet, BukrsError>)
        ensures
            r matches Ok(p) ==> payload_fits(p.deep_view()) && contents(*old(bytes))
                == payload_wire(p.deep_view()) + contents(*final(bytes)),
            r matches Ok(p) ==> forall|m: PacketV, rest: Seq<u8>|
                payload_fits(m) && contents(*old(bytes)) == #[trigger] (payload_wire(m) + rest)
                    ==> m == p.deep_view() && rest == contents(*final(bytes)),
            (exists|m: PacketV, rest: Seq<u8>|
                payload_fits(m) && contents(*old(bytes)) == #[trigger] (payload_wire(m) + rest))
                ==> r is Ok,
            forall|t: Seq<char>, body: Seq<u8>|
                str_fits(t) && !registered(t) && contents(*old(bytes)) == #[trigger] (str_wire(t)
                    + body) ==> r == Err::<Packet, BukrsError>(BukrsError::UnknownPacketType),
            r matches Err(e) ==> e == BukrsError::TruncatedInput || e
                == BukrsError::InvalidEncoding || e == BukrsError::UnknownPacketType,
    {
        let ghost orig = contents(*bytes);
        let tag = match <String as BukrsType>::decode(bytes) {
            Ok(t) => t,
            Err(e) => {
                proof {
                    assert forall|m: PacketV, rest: Seq<u8>|
                        !(payload_fits(m) && orig == #[trigger] (payload_wire(m) + rest)) by {
                        if payload_fits(m) && orig == payload_wire(m) + rest {
                            assert(orig == str_wire(tag_of(m)) + (fields_wire(m) + rest)) by {
                                assert((str_wire(tag_of(m)) + fields_wire(m)) + rest =~= str_wire(
                                    tag_of(m),
                                ) + (fields_wire(m) + rest));
                            }
                        }
                    }
                    assert forall|t: Seq<char>, body: Seq<u8>|
                        !(str_fits(t) && orig == #[trigger] (str_wire(t) + body)) by {}
                }
                return Err(e);
            },
        };
        let ghost mid = contents(*bytes);
        proof {
            assert(orig == str_wire(tag@) + mid);
        }
        if string_eq_lit(&tag, "BukrsReqAPI") {
            decode_fields_reqapi(bytes, Ghost(orig), Ghost(tag@))
        } else if string_eq_lit(&tag, "BukrsResAPI") {
            decode_fields_resapi(bytes, Ghost(orig), Ghost(tag@))
        } else if string_eq_lit(&tag, "BukrsReqOnlinePlayers") {
            decode_fields_reqonlineplayers(bytes, Ghost(orig), Ghost(tag@))
        } else if string_eq_lit(&tag, "BukrsResOnlinePlayers") {
            decode_fields_resonlineplayers(bytes, Ghost(orig), Ghost(tag@))
        } else if string_eq_lit(&tag, "BukrsReqPlayerById") {
            decode_fields_reqplayerbyid(bytes, Ghost(orig), Ghost(tag@))
        } else if string_eq_lit(&tag, "BukrsReqPlayerByName") {
            decode_fields_reqplayerbyname(bytes, Ghost(orig), Ghost(tag@))
        } else if string_eq_lit(&tag, "BukrsResPlayerData") {
            decode_fields_resplayerdata(bytes, Ghost(orig), Ghost(tag@))
        } else if string_eq_lit(&tag, "BukrsReqCreateInventory") {
            decode_fields_reqcreateinventory(bytes, Ghost(orig), Ghost(tag@))
        } else if string_eq_lit(&tag, "BukrsResCreateInventory") {
            decode_fields_rescreateinventory(bytes, Ghost(orig), Ghost(tag@))
        } else if string_eq_lit(&tag, "BukrsSDInvClick") {
            decode_fields_sdinvclick(bytes, Ghost(orig), Ghost(tag@))
        } else if string_eq_lit(&tag, "BukrsSDInvOpen") {
            decode_fields_sdinvopen(bytes, Ghost(orig), Ghost(tag@))
        } else if string_eq_lit(&tag, "BukrsSDInvClose") {
            decode_fields_sdinvclose(bytes, Ghost(orig), Ghost(tag@))
        } else if string_eq_lit(&tag, "BukrsReqPlayerInvOpen") {
            decode_fields_reqplayerinvopen(bytes, Ghost(orig), Ghost(tag@))
        } else if string_eq_lit(&tag, "BukrsResPlayerInvOpen") {
            decode_fields_resplayerinvopen(bytes, Ghost(orig), Ghost(tag@))
        } else if string_eq_lit(&tag, "BukrsReqCreateInvList") {
            decode_fields_reqcreateinvlist(bytes, Ghost(orig), Ghost(tag@))
        } else if string_eq_lit(&tag, "BukrsResCreateInvList") {
            decode_fields_rescreateinvlist(bytes, Ghost(orig), Ghost(tag@))
        } else if string_eq_lit(&tag, "BukrsReqModifyInvList") {
            decode_fields_reqmodifyinvlist(bytes, Ghost(orig), Ghost(tag@))
        } else if string_eq_lit(&tag, "BukrsResModifyInvList") {
            decode_fields_resmodifyinvlist(bytes, Ghost(orig), Ghost(tag@))
        } else {
            proof {
                assert(!registered(tag@));
                assert forall|m: PacketV, rest: Seq<u8>|
                    !(payload_fits(m) && orig == #[trigger] (payload_wire(m) + rest)) by {
                    if payload_fits(m) && orig == payload_wire(m) + rest {
                        assert(orig == str_wire(tag_of(m)) + (fields_wire(m) + rest)) by {
                            assert((str_wire(tag_of(m)) + fields_wire(m)) + rest =~= str_wire(
                                tag_of(m),
                            ) + (fields_wire(m) + rest));
                        }
                        assert(tag_of(m) == tag@);
                        assert(registered(tag_of(m)));
                    }
                }
            }
            Err(BukrsError::UnknownPacketType)
        }
    }
}


/// Whether the decoded string spells the same characters as the literal.
fn string_eq_lit(s: &String, lit: &str) -> (r: bool)
    ensures
        r == (s@ == lit@),
{
    let l = String::from_str(lit);
    s.eq(&l)
}

/// Decodes the field bytes of one shape, after its tag has been read.
fn decode_fields_reqapi(
    bytes: &mut BytesMut,
    Ghost(orig): Ghost<Seq<u8>>,
    Ghost(tagv): Ghost<Seq<char>>,
) -> (r: Result<Packet, BukrsError>)
    requires
        tagv == "BukrsReqAPI"@,
        str_fits(tagv),
        orig == str_wire(tagv) + contents(*old(bytes)),
    ensures
        r matches Ok(p) ==> payload_fits(p.deep_view()) && orig == payload_wire(p.deep_view())
            + contents(*final(bytes)),
        r matches Ok(p) ==> forall|m: PacketV, rest: Seq<u8>|
            payload_fits(m) && orig == #[trigger] (payload_wire(m) + rest) ==> m == p.deep_view()
                && rest == contents(*final(bytes)),
        (exists|m: PacketV, rest: Seq<u8>|
            payload_fits(m) && orig == #[trigger] (payload_wire(m) + rest)) ==> r is Ok,
        forall|t: Seq<char>, body: Seq<u8>|
            str_fits(t) && orig == #[trigger] (str_wire(t) + body) ==> registered(t),
        r matches Err(e) ==> e == BukrsError::TruncatedInput || e == BukrsError::InvalidEncoding,
{
    let ghost mid = contents(*bytes);
    proof {
        assert forall|t: Seq<char>, body: Seq<u8>|
            str_fits(t) && orig == #[trigger] (str_wire(t) + body) implies registered(t) by {
            <String as BukrsType>::lemma_wire_unambiguous(t, tagv, body, mid);
        }
    }
    match <BukrsReqAPI as BukrsType>::decode(bytes) {
        Ok(x) => {
            let p = Packet::ReqAPI(x);
            proof {
                assert(orig =~= payload_wire(p.deep_view()) + contents(*bytes)) by {
                    assert((str_wire(tagv) + fields_wire(p.deep_view())) + contents(*bytes)
                        =~= str_wire(tagv) + (fields_wire(p.deep_view()) + contents(*bytes)));
                }
                assert forall|m: PacketV, rest: Seq<u8>|
                    payload_fits(m) && orig == #[trigger] (payload_wire(m) + rest) implies m
                    == p.deep_view() && rest == contents(*bytes) by {
                    assert(orig == str_wire(tag_of(m)) + (fields_wire(m) + rest)) by {
                        assert((str_wire(tag_of(m)) + fields_wire(m)) + rest =~= str_wire(
                            tag_of(m),
                        ) + (fields_wire(m) + rest));
                    }
                    <String as BukrsType>::lemma_wire_unambiguous(
                        tag_of(m),
                        tagv,
                        fields_wire(m) + rest,
                        mid,
                    );
                    lemma_tag_reqapi(m);
                    match m {
                        PacketV::ReqAPI(mx) => {
                            assert(mid == <BukrsReqAPI as BukrsType>::wire(mx) + rest);
                            assert(m =~= p.deep_view());
                        },
                        _ => {},
                    }
                }
            }
            Ok(p)
        },
        Err(e) => {
            proof {
                assert forall|m: PacketV, rest: Seq<u8>|
                    !(payload_fits(m) && orig == #[trigger] (payload_wire(m) + rest)) by {
                    if payload_fits(m) && orig == payload_wire(m) + rest {
                        assert(orig == str_wire(tag_of(m)) + (fields_wire(m) + rest)) by {
                            assert((str_wire(tag_of(m)) + fields_wire(m)) + rest =~= str_wire(
                                tag_of(m),
                            ) + (fields_wire(m) + rest));
                        }
                        <String as BukrsType>::lemma_wire_unambiguous(
                            tag_of(m),
                            tagv,
                            fields_wire(m) + rest,
                            mid,
                        );
                        lemma_tag_reqapi(m);
                        match m {
                            PacketV::ReqAPI(mx) => {
                                assert(mid == <BukrsReqAPI as BukrsType>::wire(mx) + rest);
                            },
                            _ => {},
                        }
                    }
                }
            }
            Err(e)
        },
    }
}

/// Decodes the field bytes of one shape, after its tag has been read.
fn decode_fields_resapi(
    bytes: &mut BytesMut,
    Ghost(orig): Ghost<Seq<u8>>,
    Ghost(tagv): Ghost<Seq<char>>,
) -> (r: Result<Packet, BukrsError>)
    requires
        tagv == "BukrsResAPI"@,
        str_fits(tagv),
        orig == str_wire(tagv) + contents(*old(bytes)),
    ensures
        r matches Ok(p) ==> payload_fits(p.deep_view()) && orig == payload_wire(p.deep_view())
            + contents(*final(bytes)),
        r matches Ok(p) ==> forall|m: PacketV, rest: Seq<u8>|
            payload_fits(m) && orig == #[trigger] (payload_wire(m) + rest) ==> m == p.deep_view()
                && rest == contents(*final(bytes)),
        (exists|m: PacketV, rest: Seq<u8>|
            payload_fits(m) && orig == #[trigger] (payload_wire(m) + rest)) ==> r is Ok,
        forall|t: Seq<char>, body: Seq<u8>|
            str_fits(t) && orig == #[trigger] (str_wire(t) + body) ==> registered(t),
        r matches Err(e) ==> e == BukrsError::TruncatedInput || e == BukrsError::InvalidEncoding,
{
    let ghost mid = contents(*bytes);
    proof {
        assert forall|t: Seq<char>, body: Seq<u8>|
            str_fits(t) && orig == #[trigger] (str_wire(t) + body) implies registered(t) by {
            <String as BukrsType>::lemma_wire_unambiguous(t, tagv, body, mid);
        }
    }
    match <BukrsResAPI as BukrsType>::decode(bytes) {
        Ok(x) => {
            let p = Packet::ResAPI(x);
            proof {
                assert(orig =~= payload_wire(p.deep_view()) + contents(*bytes)) by {
                    assert((str_wire(tagv) + fields_wire(p.deep_view())) + contents(*bytes)
                        =~= str_wire(tagv) + (fields_wire(p.deep_view()) + contents(*bytes)));
                }
                assert forall|m: PacketV, rest: Seq<u8>|
                    payload_fits(m) && orig == #[trigger] (payload_wire(m) + rest) implies m
                    == p.deep_view() && rest == contents(*bytes) by {
                    assert(orig == str_wire(tag_of(m)) + (fields_wire(m) + rest)) by {
                        assert((str_wire(tag_of(m)) + fields_wire(m)) + rest =~= str_wire(
                            tag_of(m),
                        ) + (fields_wire(m) + rest));
                    }
                    <String as BukrsType>::lemma_wire_unambiguous(
                        tag_of(m),
                        tagv,
                        fields_wire(m) + rest,
                        mid,
                    );
                    lemma_tag_resapi(m);
                    match m {
                        PacketV::ResAPI(mx) => {
                            assert(mid == <BukrsResAPI as BukrsType>::wire(mx) + rest);
                            assert(m =~= p.deep_view());
                        },
                        _ => {},
                    }
                }
            }
            Ok(p)
        },
        Err(e) => {
            proof {
                assert forall|m: PacketV, rest: Seq<u8>|
                    !(payload_fits(m) && orig == #[trigger] (payload_wire(m) + rest)) by {
                    if payload_fits(m) && orig == payload_wire(m) + rest {
                        assert(orig == str_wire(tag_of(m)) + (fields_wire(m) + rest)) by {
                            assert((str_wire(tag_of(m)) + fields_wire(m)) + rest =~= str_wire(
                                tag_of(m),
                            ) + (fields_wire(m) + rest));
                        }
                        <String as BukrsType>::lemma_wire_unambiguous(
                            tag_of(m),
                            tagv,
                            fields_wire(m) + rest,
                            mid,
                        );
                        lemma_tag_resapi(m);
                        match m {
                            PacketV::ResAPI(mx) => {
                                assert(mid == <BukrsResAPI as BukrsType>::wire(mx) + rest);
                            },
                            _ => {},
                        }
                    }
                }
            }
            Err(e)
        },
    }
}

/// Decodes the field bytes of one shape, after its tag has been read.
fn decode_fields_reqonlineplayers(
    bytes: &mut BytesMut,
    Ghost(orig): Ghost<Seq<u8>>,
    Ghost(tagv): Ghost<Seq<char>>,
) -> (r: Result<Packet, BukrsError>)
    requires
        tagv == "BukrsReqOnlinePlayers"@,
        str_fits(tagv),
        orig == str_wire(tagv) + contents(*old(bytes)),
    ensures
        r matches Ok(p) ==> payload_fits(p.deep_view()) && orig == payload_wire(p.deep_view())
            + contents(*final(bytes)),
        r matches Ok(p) ==> forall|m: PacketV, rest: Seq<u8>|
            payload_fits(m) && orig == #[trigger] (payload_wire(m) + rest) ==> m == p.deep_view()
                && rest == contents(*final(bytes)),
        (exists|m: PacketV, rest: Seq<u8>|
            payload_fits(m) && orig == #[trigger] (payload_wire(m) + rest)) ==> r is Ok,
        forall|t: Seq<char>, body: Seq<u8>|
            str_fits(t) && orig == #[trigger] (str_wire(t) + body) ==> registered(t),
        r matches Err(e) ==> e == BukrsError::TruncatedInput || e == BukrsError::InvalidEncoding,
{
    let ghost mid = contents(*bytes);
    proof {
        assert forall|t: Seq<char>, body: Seq<u8>|
            str_fits(t) && orig == #[trigger] (str_wire(t) + body) implies registered(t) by {
            <String as BukrsType>::lemma_wire_unambiguous(t, tagv, body, mid);
        }
    }
    match <BukrsReqOnlinePlayers as BukrsType>::decode(bytes) {
        Ok(x) => {
            let p = Packet::ReqOnlinePlayers(x);
            proof {
                assert(orig =~= payload_wire(p.deep_view()) + contents(*bytes)) by {
                    assert((str_wire(tagv) + fields_wire(p.deep_view())) + contents(*bytes)
                        =~= str_wire(tagv) + (fields_wire(p.deep_view()) + contents(*bytes)));
                }
                assert forall|m: PacketV, rest: Seq<u8>|
                    payload_fits(m) && orig == #[trigger] (payload_wire(m) + rest) implies m
                    == p.deep_view() && rest == contents(*bytes) by {
                    assert(orig == str_wire(tag_of(m)) + (fields_wire(m) + rest)) by {
                        assert((str_wire(tag_of(m)) + fields_wire(m)) + rest =~= str_wire(
                            tag_of(m),
                        ) + (fields_wire(m) + rest));
                    }
                    <String as BukrsType>::lemma_wire_unambiguous(
                        tag_of(m),
                        tagv,
                        fields_wire(m) + rest,
                        mid,
                    );
                    lemma_tag_reqonlineplayers(m);
                    match m {
                        PacketV::ReqOnlinePlayers(mx) => {
                            assert(mid == <BukrsReqOnlinePlayers as BukrsType>::wire(mx) + rest);
                            assert(m =~= p.deep_view());
                        },
                        _ => {},
                    }
                }
            }
            Ok(p)
        },
        Err(e) => {
            proof {
                assert forall|m: PacketV, rest: Seq<u8>|
                    !(payload_fits(m) && orig == #[trigger] (payload_wire(m) + rest)) by {
                    if payload_fits(m) && orig == payload_wire(m) + rest {
                        assert(orig == str_wire(tag_of(m)) + (fields_wire(m) + rest)) by {
                            assert((str_wire(tag_of(m)) + fields_wire(m)) + rest =~= str_wire(
                                tag_of(m),
                            ) + (fields_wire(m) + rest));
                        }
                        <String as BukrsType>::lemma_wire_unambiguous(
                            tag_of(m),
                            tagv,
                            fields_wire(m) + rest,
                            mid,
                        );
                        lemma_tag_reqonlineplayers(m);
                        match m {
                            PacketV::ReqOnlinePlayers(mx) => {
                                assert(mid == <BukrsReqOnlinePlayers as BukrsType>::wire(mx) + rest);
                            },
                            _ => {},
                        }
                    }
                }
            }
            Err(e)
        },
    }
}

/// Decodes the field bytes of one shape, after its tag has been read.
fn decode_fields_resonlineplayers(
    bytes: &mut BytesMut,
    Ghost(orig): Ghost<Seq<u8>>,
    Ghost(tagv): Ghost<Seq<char>>,
) -> (r: Result<Packet, BukrsError>)
    requires
        tagv == "BukrsResOnlinePlayers"@,
        str_fits(tagv),
        orig == str_wire(tagv) + contents(*old(bytes)),
    ensures
        r matches Ok(p) ==> payload_fits(p.deep_view()) && orig == payload_wire(p.deep_view())
            + contents(*final(bytes)),
        r matches Ok(p) ==> forall|m: PacketV, rest: Seq<u8>|
            payload_fits(m) && orig == #[trigger] (payload_wire(m) + rest) ==> m == p.deep_view()
                && rest == contents(*final(bytes)),
        (exists|m: PacketV, rest: Seq<u8>|
            payload_fits(m) && orig == #[trigger] (payload_wire(m) + rest)) ==> r is Ok,
        forall|t: Seq<char>, body: Seq<u8>|
            str_fits(t) && orig == #[trigger] (str_wire(t) + body) ==> registered(t),
        r matches Err(e) ==> e == BukrsError::TruncatedInput || e == BukrsError::InvalidEncoding,
{
    let ghost mid = contents(*bytes);
    proof {
        assert forall|t: Seq<char>, body: Seq<u8>|
            str_fits(t) && orig == #[trigger] (str_wire(t) + body) implies registered(t) by {
            <String as BukrsType>::lemma_wire_unambiguous(t, tagv, body, mid);
        }
    }
    match <BukrsResOnlinePlayers as BukrsType>::decode(bytes) {
        Ok(x) => {
            let p = Packet::ResOnlinePlayers(x);
            proof {
                assert(orig =~= payload_wire(p.deep_view()) + contents(*bytes)) by {
                    assert((str_wire(tagv) + fields_wire(p.deep_view())) + contents(*bytes)
                        =~= str_wire(tagv) + (fields_wire(p.deep_view()) + contents(*bytes)));
                }
                assert forall|m: PacketV, rest: Seq<u8>|
                    payload_fits(m) && orig == #[trigger] (payload_wire(m) + rest) implies m
                    == p.deep_view() && rest == contents(*bytes) by {
                    assert(orig == str_wire(tag_of(m)) + (fields_wire(m) + rest)) by {
                        assert((str_wire(tag_of(m)) + fields_wire(m)) + rest =~= str_wire(
                            tag_of(m),
                        ) + (fields_wire(m) + rest));
                    }
                    <String as BukrsType>::lemma_wire_unambiguous(
                        tag_of(m),
                        tagv,
                        fields_wire(m) + rest,
                        mid,
                    );
                    lemma_tag_resonlineplayers(m);
                    match m {
                        PacketV::ResOnlinePlayers(mx) => {
                            assert(mid == <BukrsResOnlinePlayers as BukrsType>::wire(mx) + rest);
                            assert(m =~= p.deep_view());
                        },
                        _ => {},
                    }
                }
            }
            Ok(p)
        },
        Err(e) => {
            proof {
                assert forall|m: PacketV, rest: Seq<u8>|
                    !(payload_fits(m) && orig == #[trigger] (payload_wire(m) + rest)) by {
                    if payload_fits(m) && orig == payload_wire(m) + rest {
                        assert(orig == str_wire(tag_of(m)) + (fields_wire(m) + rest)) by {
                            assert((str_wire(tag_of(m)) + fields_wire(m)) + rest =~= str_wire(
                                tag_of(m),
                            ) + (fields_wire(m) + rest));
                        }
                        <String as BukrsType>::lemma_wire_unambiguous(
                            tag_of(m),
                            tagv,
                            fields_wire(m) + rest,
                            mid,
                        );
                        lemma_tag_resonlineplayers(m);
                        match m {
                            PacketV::ResOnlinePlayers(mx) => {
                                assert(mid == <BukrsResOnlinePlayers as BukrsType>::wire(mx) + rest);
                            },
                            _ => {},
                        }
                    }
                }
            }
            Err(e)
        },
    }
}

/// Decodes the field bytes of one shape, after its tag has been read.
fn decode_fields_reqplayerbyid(
    bytes: &mut BytesMut,
    Ghost(orig): Ghost<Seq<u8>>,
    Ghost(tagv): Ghost<Seq<char>>,
) -> (r: Result<Packet, BukrsError>)
    requires
        tagv == "BukrsReqPlayerById"@,
        str_fits(tagv),
        orig == str_wire(tagv) + contents(*old(bytes)),
    ensures
        r matches Ok(p) ==> payload_fits(p.deep_view()) && orig == payload_wire(p.deep_view())
            + contents(*final(bytes)),
        r matches Ok(p) ==> forall|m: PacketV, rest: Seq<u8>|
            payload_fits(m) && orig == #[trigger] (payload_wire(m) + rest) ==> m == p.deep_view()
                && rest == contents(*final(bytes)),
        (exists|m: PacketV, rest: Seq<u8>|
            payload_fits(m) && orig == #[trigger] (payload_wire(m) + rest)) ==> r is Ok,
        forall|t: Seq<char>, body: Seq<u8>|
            str_fits(t) && orig == #[trigger] (str_wire(t) + body) ==> registered(t),
        r matches Err(e) ==> e == BukrsError::TruncatedInput || e == BukrsError::InvalidEncoding,
{
    let ghost mid = contents(*bytes);
    proof {
        assert forall|t: Seq<char>, body: Seq<u8>|
            str_fits(t) && orig == #[trigger] (str_wire(t) + body) implies registered(t) by {
            <String as BukrsType>::lemma_wire_unambiguous(t, tagv, body, mid);
        }
    }
    match <BukrsReqPlayerById as BukrsType>::decode(bytes) {
        Ok(x) => {
            let p = Packet::ReqPlayerById(x);
            proof {
                assert(orig =~= payload_wire(p.deep_view()) + contents(*bytes)) by {
                    assert((str_wire(tagv) + fields_wire(p.deep_view())) + contents(*bytes)
                        =~= str_wire(tagv) + (fields_wire(p.deep_view()) + contents(*bytes)));
                }
                assert forall|m: PacketV, rest: Seq<u8>|
                    payload_fits(m) && orig == #[trigger] (payload_wire(m) + rest) implies m
                    == p.deep_view() && rest == contents(*bytes) by {
                    assert(orig == str_wire(tag_of(m)) + (fields_wire(m) + rest)) by {
                        assert((str_wire(tag_of(m)) + fields_wire(m)) + rest =~= str_wire(
                            tag_of(m),
                        ) + (fields_wire(m) + rest));
                    }
                    <String as BukrsType>::lemma_wire_unambiguous(
                        tag_of(m),
                        tagv,
                        fields_wire(m) + rest,
                        mid,
                    );
                    lemma_tag_reqplayerbyid(m);
                    match m {
                        PacketV::ReqPlayerById(mx) => {
                            assert(mid == <BukrsReqPlayerById as BukrsType>::wire(mx) + rest);
                            assert(m =~= p.deep_view());
                        },
                        _ => {},
                    }
                }
            }
            Ok(p)
        },
        Err(e) => {
            proof {
                assert forall|m: PacketV, rest: Seq<u8>|
                    !(payload_fits(m) && orig == #[trigger] (payload_wire(m) + rest)) by {
                    if payload_fits(m) && orig == payload_wire(m) + rest {
                        assert(orig == str_wire(tag_of(m)) + (fields_wire(m) + rest)) by {
                            assert((str_wire(tag_of(m)) + fields_wire(m)) + rest =~= str_wire(
                                tag_of(m),
                            ) + (fields_wire(m) + rest));
                        }
                        <String as BukrsType>::lemma_wire_unambiguous(
                            tag_of(m),
                            tagv,
                            fields_wire(m) + rest,
                            mid,
                        );
                        lemma_tag_reqplayerbyid(m);
                        match m {
                            PacketV::ReqPlayerById(mx) => {
                                assert(mid == <BukrsReqPlayerById as BukrsType>::wire(mx) + rest);
                            },
                            _ => {},
                        }
                    }
                }
            }
            Err(e)
        },
    }
}

/// Decodes the field bytes of one shape, after its tag has been read.
fn decode_fields_reqplayerbyname(
    bytes: &mut BytesMut,
    Ghost(orig): Ghost<Seq<u8>>,
    Ghost(tagv): Ghost<Seq<char>>,
) -> (r: Result<Packet, BukrsError>)
    requires
        tagv == "BukrsReqPlayerByName"@,
        str_fits(tagv),
        orig == str_wire(tagv) + contents(*old(bytes)),
    ensures
        r matches Ok(p) ==> payload_fits(p.deep_view()) && orig == payload_wire(p.deep_view())
            + contents(*final(bytes)),
        r matches Ok(p) ==> forall|m: PacketV, rest: Seq<u8>|
            payload_fits(m) && orig == #[trigger] (payload_wire(m) + rest) ==> m == p.deep_view()
                && rest == contents(*final(bytes)),
        (exists|m: PacketV, rest: Seq<u8>|
            payload_fits(m) && orig == #[trigger] (payload_wire(m) + rest)) ==> r is Ok,
        forall|t: Seq<char>, body: Seq<u8>|
            str_fits(t) && orig == #[trigger] (str_wire(t) + body) ==> registered(t),
        r matches Err(e) ==> e == BukrsError::TruncatedInput || e == BukrsError::InvalidEncoding,
{
    let ghost mid = contents(*bytes);
    proof {
        assert forall|t: Seq<char>, body: Seq<u8>|
            str_fits(t) && orig == #[trigger] (str_wire(t) + body) implies registered(t) by {
            <String as BukrsType>::lemma_wire_unambiguous(t, tagv, body, mid);
        }
    }
    match <BukrsReqPlayerByName as BukrsType>::decode(bytes) {
        Ok(x) => {
            let p = Packet::ReqPlayerByName(x);
            proof {
                assert(orig =~= payload_wire(p.deep_view()) + contents(*bytes)) by {
                    assert((str_wire(tagv) + fields_wire(p.deep_view())) + contents(*bytes)
                        =~= str_wire(tagv) + (fields_wire(p.deep_view()) + contents(*bytes)));
                }
                assert forall|m: PacketV, rest: Seq<u8>|
                    payload_fits(m) && orig == #[trigger] (payload_wire(m) + rest) implies m
                    == p.deep_view() && rest == contents(*bytes) by {
                    assert(orig == str_wire(tag_of(m)) + (fields_wire(m) + rest)) by {
                        assert((str_wire(tag_of(m)) + fields_wire(m)) + rest =~= str_wire(
                            tag_of(m),
                        ) + (fields_wire(m) + rest));
                    }
                    <String as BukrsType>::lemma_wire_unambiguous(
                        tag_of(m),
                        tagv,
                        fields_wire(m) + rest,
                        mid,
                    );
                    lemma_tag_reqplayerbyname(m);
                    match m {
                        PacketV::ReqPlayerByName(mx) => {
                            assert(mid == <BukrsReqPlayerByName as BukrsType>::wire(mx) + rest);
                            assert(m =~= p.deep_view());
                        },
                        _ => {},
                    }
                }
            }
            Ok(p)
        },
        Err(e) => {
            proof {
                assert forall|m: PacketV, rest: Seq<u8>|
                    !(payload_fits(m) && orig == #[trigger] (payload_wire(m) + rest)) by {
                    if payload_fits(m) && orig == payload_wire(m) + rest {
                        assert(orig == str_wire(tag_of(m)) + (fields_wire(m) + rest)) by {
                            assert((str_wire(tag_of(m)) + fields_wire(m)) + rest =~= str_wire(
                                tag_of(m),
                            ) + (fields_wire(m) + rest));
                        }
                        <String as BukrsType>::lemma_wire_unambiguous(
                            tag_of(m),
                            tagv,
                            fields_wire(m) + rest,
                            mid,
                        );
                        lemma_tag_reqplayerbyname(m);
                        match m {
                            PacketV::ReqPlayerByName(mx) => {
                                assert(mid == <BukrsReqPlayerByName as BukrsType>::wire(mx) + rest);
                            },
                            _ => {},
                        }
                    }
                }
            }
            Err(e)
        },
    }
}

/// Decodes the field bytes of one shape, after its tag has been read.
fn decode_fields_resplayerdata(
    bytes: &mut BytesMut,
    Ghost(orig): Ghost<Seq<u8>>,
    Ghost(tagv): Ghost<Seq<char>>,
) -> (r: Result<Packet, BukrsError>)
    requires
        tagv == "BukrsResPlayerData"@,
        str_fits(tagv),
        orig == str_wire(tagv) + contents(*old(bytes)),
    ensures
        r matches Ok(p) ==> payload_fits(p.deep_view()) && orig == payload_wire(p.deep_view())
            + contents(*final(bytes)),
        r matches Ok(p) ==> forall|m: PacketV, rest: Seq<u8>|
            payload_fits(m) && orig == #[trigger] (payload_wire(m) + rest) ==> m == p.deep_view()
                && rest == contents(*final(bytes)),
        (exists|m: PacketV, rest: Seq<u8>|
            payload_fits(m) && orig == #[trigger] (payload_wire(m) + rest)) ==> r is Ok,
        forall|t: Seq<char>, body: Seq<u8>|
            str_fits(t) && orig == #[trigger] (str_wire(t) + body) ==> registered(t),
        r matches Err(e) ==> e == BukrsError::TruncatedInput || e == BukrsError::InvalidEncoding,
{
    let ghost mid = contents(*bytes);
    proof {
        assert forall|t: Seq<char>, body: Seq<u8>|
            str_fits(t) && orig == #[trigger] (str_wire(t) + body) implies registered(t) by {
            <String as BukrsType>::lemma_wire_unambiguous(t, tagv, body, mid);
        }
    }
    match <BukrsResPlayerData as BukrsType>::decode(bytes) {
        Ok(x) => {
            let p = Packet::ResPlayerData(x);
            proof {
                assert(orig =~= payload_wire(p.deep_view()) + contents(*bytes)) by {
                    assert((str_wire(tagv) + fields_wire(p.deep_view())) + contents(*bytes)
                        =~= str_wire(tagv) + (fields_wire(p.deep_view()) + contents(*bytes)));
                }
                assert forall|m: PacketV, rest: Seq<u8>|
                    payload_fits(m) && orig == #[trigger] (payload_wire(m) + rest) implies m
                    == p.deep_view() && rest == contents(*bytes) by {
                    assert(orig == str_wire(tag_of(m)) + (fields_wire(m) + rest)) by {
                        assert((str_wire(tag_of(m)) + fields_wire(m)) + rest =~= str_wire(
                            tag_of(m),
                        ) + (fields_wire(m) + rest));
                    }
                    <String as BukrsType>::lemma_wire_unambiguous(
                        tag_of(m),
                        tagv,
                        fields_wire(m) + rest,
                        mid,
                    );
                    lemma_tag_resplayerdata(m);
                    match m {
                        PacketV::ResPlayerData(mx) => {
                            assert(mid == <BukrsResPlayerData as BukrsType>::wire(mx) + rest);
                            assert(m =~= p.deep_view());
                        },
                        _ => {},
                    }
                }
            }
            Ok(p)
        },
        Err(e) => {
            proof {
                assert forall|m: PacketV, rest: Seq<u8>|
                    !(payload_fits(m) && orig == #[trigger] (payload_wire(m) + rest)) by {
                    if payload_fits(m) && orig == payload_wire(m) + rest {
                        assert(orig == str_wire(tag_of(m)) + (fields_wire(m) + rest)) by {
                            assert((str_wire(tag_of(m)) + fields_wire(m)) + rest =~= str_wire(
                                tag_of(m),
                            ) + (fields_wire(m) + rest));
                        }
                        <String as BukrsType>::lemma_wire_unambiguous(
                            tag_of(m),
                            tagv,
                            fields_wire(m) + rest,
                            mid,
                        );
                        lemma_tag_resplayerdata(m);
                        match m {
                            PacketV::ResPlayerData(mx) => {
                                assert(mid == <BukrsResPlayerData as BukrsType>::wire(mx) + rest);
                            },
                            _ => {},
                        }
                    }
                }
            }
            Err(e)
        },
    }
}

/// Decodes the field bytes of one shape, after its tag has been read.
fn decode_fields_reqcreateinventory(
    bytes: &mut BytesMut,
    Ghost(orig): Ghost<Seq<u8>>,
    Ghost(tagv): Ghost<Seq<char>>,
) -> (r: Result<Packet, BukrsError>)
    requires
        tagv == "BukrsReqCreateInventory"@,
        str_fits(tagv),
        orig == str_wire(tagv) + contents(*old(bytes)),
    ensures
        r matches Ok(p) ==> payload_fits(p.deep_view()) && orig == payload_wire(p.deep_view())
            + contents(*final(bytes)),
        r matches Ok(p) ==> forall|m: PacketV, rest: Seq<u8>|
            payload_fits(m) && orig == #[trigger] (payload_wire(m) + rest) ==> m == p.deep_view()
                && rest == contents(*final(bytes)),
        (exists|m: PacketV, rest: Seq<u8>|
            payload_fits(m) && orig == #[trigger] (payload_wire(m) + rest)) ==> r is Ok,
        forall|t: Seq<char>, body: Seq<u8>|
            str_fits(t) && orig == #[trigger] (str_wire(t) + body) ==> registered(t),
        r matches Err(e) ==> e == BukrsError::TruncatedInput || e == BukrsError::InvalidEncoding,
{
    let ghost mid = contents(*bytes);
    proof {
        assert forall|t: Seq<char>, body: Seq<u8>|
            str_fits(t) && orig == #[trigger] (str_wire(t) + body) implies registered(t) by {
            <String as BukrsType>::lemma_wire_unambiguous(t, tagv, body, mid);
        }
    }
    match <BukrsReqCreateInventory as BukrsType>::decode(bytes) {
        Ok(x) => {
            let p = Packet::ReqCreateInventory(x);
            proof {
                assert(orig =~= payload_wire(p.deep_view()) + contents(*bytes)) by {
                    assert((str_wire(tagv) + fields_wire(p.deep_view())) + contents(*bytes)
                        =~= str_wire(tagv) + (fields_wire(p.deep_view()) + contents(*bytes)));
                }
                assert forall|m: PacketV, rest: Seq<u8>|
                    payload_fits(m) && orig == #[trigger] (payload_wire(m) + rest) implies m
                    == p.deep_view() && rest == contents(*bytes) by {
                    assert(orig == str_wire(tag_of(m)) + (fields_wire(m) + rest)) by {
                        assert((str_wire(tag_of(m)) + fields_wire(m)) + rest =~= str_wire(
                            tag_of(m),
                        ) + (fields_wire(m) + rest));
                    }
                    <String as BukrsType>::lemma_wire_unambiguous(
                        tag_of(m),
                        tagv,
                        fields_wire(m) + rest,
                        mid,
                    );
                    lemma_tag_reqcreateinventory(m);
                    match m {
                        PacketV::ReqCreateInventory(mx) => {
                            assert(mid == <BukrsReqCreateInventory as BukrsType>::wire(mx) + rest);
                            assert(m =~= p.deep_view());
                        },
                        _ => {},
                    }
                }
            }
            Ok(p)
        },
        Err(e) => {
            proof {
                assert forall|m: PacketV, rest: Seq<u8>|
                    !(payload_fits(m) && orig == #[trigger] (payload_wire(m) + rest)) by {
                    if payload_fits(m) && orig == payload_wire(m) + rest {
                        assert(orig == str_wire(tag_of(m)) + (fields_wire(m) + rest)) by {
                            assert((str_wire(tag_of(m)) + fields_wire(m)) + rest =~= str_wire(
                                tag_of(m),
                            ) + (fields_wire(m) + rest));
                        }
                        <String as BukrsType>::lemma_wire_unambiguous(
                            tag_of(m),
                            tagv,
                            fields_wire(m) + rest,
                            mid,
                        );
                        lemma_tag_reqcreateinventory(m);
                        match m {
                            PacketV::ReqCreateInventory(mx) => {
                                assert(mid == <BukrsReqCreateInventory as BukrsType>::wire(mx) + rest);
                            },
                            _ => {},
                        }
                    }
                }
            }
            Err(e)
        },
    }
}

/// Decodes the field bytes of one shape, after its tag has been read.
fn decode_fields_rescreateinventory(
    bytes: &mut BytesMut,
    Ghost(orig): Ghost<Seq<u8>>,
    Ghost(tagv): Ghost<Seq<char>>,
) -> (r: Result<Packet, BukrsError>)
    requires
        tagv == "BukrsResCreateInventory"@,
        str_fits(tagv),
        orig == str_wire(tagv) + contents(*old(bytes)),
    ensures
        r matches Ok(p) ==> payload_fits(p.deep_view()) && orig == payload_wire(p.deep_view())
            + contents(*final(bytes)),
        r matches Ok(p) ==> forall|m: PacketV, rest: Seq<u8>|
            payload_fits(m) && orig == #[trigger] (payload_wire(m) + rest) ==> m == p.deep_view()
                && rest == contents(*final(bytes)),
        (exists|m: PacketV, rest: Seq<u8>|
            payload_fits(m) && orig == #[trigger] (payload_wire(m) + rest)) ==> r is Ok,
        forall|t: Seq<char>, body: Seq<u8>|
            str_fits(t) && orig == #[trigger] (str_wire(t) + body) ==> registered(t),
        r matches Err(e) ==> e == BukrsError::TruncatedInput || e == BukrsError::InvalidEncoding,
{
    let ghost mid = contents(*bytes);
    proof {
        assert forall|t: Seq<char>, body: Seq<u8>|
            str_fits(t) && orig == #[trigger] (str_wire(t) + body) implies registered(t) by {
            <String as BukrsType>::lemma_wire_unambiguous(t, tagv, body, mid);
        }
    }
    match <BukrsResCreateInventory as BukrsType>::decode(bytes) {
        Ok(x) => {
            let p = Packet::ResCreateInventory(x);
            proof {
                assert(orig =~= payload_wire(p.deep_view()) + contents(*bytes)) by {
                    assert((str_wire(tagv) + fields_wire(p.deep_view())) + contents(*bytes)
                        =~= str_wire(tagv) + (fields_wire(p.deep_view()) + contents(*bytes)));
                }
                assert forall|m: PacketV, rest: Seq<u8>|
                    payload_fits(m) && orig == #[trigger] (payload_wire(m) + rest) implies m
                    == p.deep_view() && rest == contents(*bytes) by {
                    assert(orig == str_wire(tag_of(m)) + (fields_wire(m) + rest)) by {
                        assert((str_wire(tag_of(m)) + fields_wire(m)) + rest =~= str_wire(
                            tag_of(m),
                        ) + (fields_wire(m) + rest));
                    }
                    <String as BukrsType>::lemma_wire_unambiguous(
                        tag_of(m),
                        tagv,
                        fields_wire(m) + rest,
                        mid,
                    );
                    lemma_tag_rescreateinventory(m);
                    match m {
                        PacketV::ResCreateInventory(mx) => {
                            assert(mid == <BukrsResCreateInventory as BukrsType>::wire(mx) + rest);
                            assert(m =~= p.deep_view());
                        },
                        _ => {},
                    }
                }
            }
            Ok(p)
        },
        Err(e) => {
            proof {
                assert forall|m: PacketV, rest: Seq<u8>|
                    !(payload_fits(m) && orig == #[trigger] (payload_wire(m) + rest)) by {
                    if payload_fits(m) && orig == payload_wire(m) + rest {
                        assert(orig == str_wire(tag_of(m)) + (fields_wire(m) + rest)) by {
                            assert((str_wire(tag_of(m)) + fields_wire(m)) + rest =~= str_wire(
                                tag_of(m),
                            ) + (fields_wire(m) + rest));
                        }
                        <String as BukrsType>::lemma_wire_unambiguous(
                            tag_of(m),
                            tagv,
                            fields_wire(m) + rest,
                            mid,
                        );
                        lemma_tag_rescreateinventory(m);
                        match m {
                            PacketV::ResCreateInventory(mx) => {
                                assert(mid == <BukrsResCreateInventory as BukrsType>::wire(mx) + rest);
                            },
                            _ => {},
                        }
                    }
                }
            }
            Err(e)
        },
    }
}

/// Decodes the field bytes of one shape, after its tag has been read.
fn decode_fields_sdinvclick(
    bytes: &mut BytesMut,
    Ghost(orig): Ghost<Seq<u8>>,
    Ghost(tagv): Ghost<Seq<char>>,
) -> (r: Result<Packet, BukrsError>)
    requires
        tagv == "BukrsSDInvClick"@,
        str_fits(tagv),
        orig == str_wire(tagv) + contents(*old(bytes)),
    ensures
        r matches Ok(p) ==> payload_fits(p.deep_view()) && orig == payload_wire(p.deep_view())
            + contents(*final(bytes)),
        r matches Ok(p) ==> forall|m: PacketV, rest: Seq<u8>|
            payload_fits(m) && orig == #[trigger] (payload_wire(m) + rest) ==> m == p.deep_view()
                && rest == contents(*final(bytes)),
        (exists|m: PacketV, rest: Seq<u8>|
            payload_fits(m) && orig == #[trigger] (payload_wire(m) + rest)) ==> r is Ok,
        forall|t: Seq<char>, body: Seq<u8>|
            str_fits(t) && orig == #[trigger] (str_wire(t) + body) ==> registered(t),
        r matches Err(e) ==> e == BukrsError::TruncatedInput || e == BukrsError::InvalidEncoding,
{
    let ghost mid = contents(*bytes);
    proof {
        assert forall|t: Seq<char>, body: Seq<u8>|
            str_fits(t) && orig == #[trigger] (str_wire(t) + body) implies registered(t) by {
            <String as BukrsType>::lemma_wire_unambiguous(t, tagv, body, mid);
        }
    }
    match <BukrsSDInvClick as BukrsType>::decode(bytes) {
        Ok(x) => {
            let p = Packet::SDInvClick(x);
            proof {
                assert(orig =~= payload_wire(p.deep_view()) + contents(*bytes)) by {
                    assert((str_wire(tagv) + fields_wire(p.deep_view())) + contents(*bytes)
                        =~= str_wire(tagv) + (fields_wire(p.deep_view()) + contents(*bytes)));
                }
                assert forall|m: PacketV, rest: Seq<u8>|
                    payload_fits(m) && orig == #[trigger] (payload_wire(m) + rest) implies m
                    == p.deep_view() && rest == contents(*bytes) by {
                    assert(orig == str_wire(tag_of(m)) + (fields_wire(m) + rest)) by {
                        assert((str_wire(tag_of(m)) + fields_wire(m)) + rest =~= str_wire(
                            tag_of(m),
                        ) + (fields_wire(m) + rest));
                    }
                    <String as BukrsType>::lemma_wire_unambiguous(
                        tag_of(m),
                        tagv,
                        fields_wire(m) + rest,
                        mid,
                    );
                    lemma_tag_sdinvclick(m);
                    match m {
                        PacketV::SDInvClick(mx) => {
                            assert(mid == <BukrsSDInvClick as BukrsType>::wire(mx) + rest);
                            assert(m =~= p.deep_view());
                        },
                        _ => {},
                    }
                }
            }
            Ok(p)
        },
        Err(e) => {
            proof {
                assert forall|m: PacketV, rest: Seq<u8>|
                    !(payload_fits(m) && orig == #[trigger] (payload_wire(m) + rest)) by {
                    if payload_fits(m) && orig == payload_wire(m) + rest {
                        assert(orig == str_wire(tag_of(m)) + (fields_wire(m) + rest)) by {
                            assert((str_wire(tag_of(m)) + fields_wire(m)) + rest =~= str_wire(
                                tag_of(m),
                            ) + (fields_wire(m) + rest));
                        }
                        <String as BukrsType>::lemma_wire_unambiguous(
                            tag_of(m),
                            tagv,
                            fields_wire(m) + rest,
                            mid,
                        );
                        lemma_tag_sdinvclick(m);
                        match m {
                            PacketV::SDInvClick(mx) => {
                                assert(mid == <BukrsSDInvClick as BukrsType>::wire(mx) + rest);
                            },
                            _ => {},
                        }
                    }
                }
            }
            Err(e)
        },
    }
}

/// Decodes the field bytes of one shape, after its tag has been read.
fn decode_fields_sdinvopen(
    bytes: &mut BytesMut,
    Ghost(orig): Ghost<Seq<u8>>,
    Ghost(tagv): Ghost<Seq<char>>,
) -> (r: Result<Packet, BukrsError>)
    requires
        tagv == "BukrsSDInvOpen"@,
        str_fits(tagv),
        orig == str_wire(tagv) + contents(*old(bytes)),
    ensures
        r matches Ok(p) ==> payload_fits(p.deep_view()) && orig == payload_wire(p.deep_view())
            + contents(*final(bytes)),
        r matches Ok(p) ==> forall|m: PacketV, rest: Seq<u8>|
            payload_fits(m) && orig == #[trigger] (payload_wire(m) + rest) ==> m == p.deep_view()
                && rest == contents(*final(bytes)),
        (exists|m: PacketV, rest: Seq<u8>|
            payload_fits(m) && orig == #[trigger] (payload_wire(m) + rest)) ==> r is Ok,
        forall|t: Seq<char>, body: Seq<u8>|
            str_fits(t) && orig == #[trigger] (str_wire(t) + body) ==> registered(t),
        r matches Err(e) ==> e == BukrsError::TruncatedInput || e == BukrsError::InvalidEncoding,
{
    let ghost mid = contents(*bytes);
    proof {
        assert forall|t: Seq<char>, body: Seq<u8>|
            str_fits(t) && orig == #[trigger] (str_wire(t) + body) implies registered(t) by {
            <String as BukrsType>::lemma_wire_unambiguous(t, tagv, body, mid);
        }
    }
    match <BukrsSDInvOpen as BukrsType>::decode(bytes) {
        Ok(x) => {
            let p = Packet::SDInvOpen(x);
            proof {
                assert(orig =~= payload_wire(p.deep_view()) + contents(*bytes)) by {
                    assert((str_wire(tagv) + fields_wire(p.deep_view())) + contents(*bytes)
                        =~= str_wire(tagv) + (fields_wire(p.deep_view()) + contents(*bytes)));
                }
                assert forall|m: PacketV, rest: Seq<u8>|
                    payload_fits(m) && orig == #[trigger] (payload_wire(m) + rest) implies m
                    == p.deep_view() && rest == contents(*bytes) by {
                    assert(orig == str_wire(tag_of(m)) + (fields_wire(m) + rest)) by {
                        assert((str_wire(tag_of(m)) + fields_wire(m)) + rest =~= str_wire(
                            tag_of(m),
                        ) + (fields_wire(m) + rest));
                    }
                    <String as BukrsType>::lemma_wire_unambiguous(
                        tag_of(m),
                        tagv,
                        fields_wire(m) + rest,
                        mid,
                    );
                    lemma_tag_sdinvopen(m);
                    match m {
                        PacketV::SDInvOpen(mx) => {
                            assert(mid == <BukrsSDInvOpen as BukrsType>::wire(mx) + rest);
                            assert(m =~= p.deep_view());
                        },
                        _ => {},
                    }
                }
            }
            Ok(p)
        },
        Err(e) => {
            proof {
                assert forall|m: PacketV, rest: Seq<u8>|
                    !(payload_fits(m) && orig == #[trigger] (payload_wire(m) + rest)) by {
                    if payload_fits(m) && orig == payload_wire(m) + rest {
                        assert(orig == str_wire(tag_of(m)) + (fields_wire(m) + rest)) by {
                            assert((str_wire(tag_of(m)) + fields_wire(m)) + rest =~= str_wire(
                                tag_of(m),
                            ) + (fields_wire(m) + rest));
                        }
                        <String as BukrsType>::lemma_wire_unambiguous(
                            tag_of(m),
                            tagv,
                            fields_wire(m) + rest,
                            mid,
                        );
                        lemma_tag_sdinvopen(m);
                        match m {
                            PacketV::SDInvOpen(mx) => {
                                assert(mid == <BukrsSDInvOpen as BukrsType>::wire(mx) + rest);
                            },
                            _ => {},
                        }
                    }
                }
            }
            Err(e)
        },
    }
}

/// Decodes the field bytes of one shape, after its tag has been read.
fn decode_fields_sdinvclose(
    bytes: &mut BytesMut,
    Ghost(orig): Ghost<Seq<u8>>,
    Ghost(tagv): Ghost<Seq<char>>,
) -> (r: Result<Packet, BukrsError>)
    requires
        tagv == "BukrsSDInvClose"@,
        str_fits(tagv),
        orig == str_wire(tagv) + contents(*old(bytes)),
    ensures
        r matches Ok(p) ==> payload_fits(p.deep_view()) && orig == payload_wire(p.deep_view())
            + contents(*final(bytes)),
        r matches Ok(p) ==> forall|m: PacketV, rest: Seq<u8>|
            payload_fits(m) && orig == #[trigger] (payload_wire(m) + rest) ==> m == p.deep_view()
                && rest == contents(*final(bytes)),
        (exists|m: PacketV, rest: Seq<u8>|
            payload_fits(m) && orig == #[trigger] (payload_wire(m) + rest)) ==> r is Ok,
        forall|t: Seq<char>, body: Seq<u8>|
            str_fits(t) && orig == #[trigger] (str_wire(t) + body) ==> registered(t),
        r matches Err(e) ==> e == BukrsError::TruncatedInput || e == BukrsError::InvalidEncoding,
{
    let ghost mid = contents(*bytes);
    proof {
        assert forall|t: Seq<char>, body: Seq<u8>|
            str_fits(t) && orig == #[trigger] (str_wire(t) + body) implies registered(t) by {
            <String as BukrsType>::lemma_wire_unambiguous(t, tagv, body, mid);
        }
    }
    match <BukrsSDInvClose as BukrsType>::decode(bytes) {
        Ok(x) => {
            let p = Packet::SDInvClose(x);
            proof {
                assert(orig =~= payload_wire(p.deep_view()) + contents(*bytes)) by {
                    assert((str_wire(tagv) + fields_wire(p.deep_view())) + contents(*bytes)
                        =~= str_wire(tagv) + (fields_wire(p.deep_view()) + contents(*bytes)));
                }
                assert forall|m: PacketV, rest: Seq<u8>|
                    payload_fits(m) && orig == #[trigger] (payload_wire(m) + rest) implies m
                    == p.deep_view() && rest == contents(*bytes) by {
                    assert(orig == str_wire(tag_of(m)) + (fields_wire(m) + rest)) by {
                        assert((str_wire(tag_of(m)) + fields_wire(m)) + rest =~= str_wire(
                            tag_of(m),
                        ) + (fields_wire(m) + rest));
                    }
                    <String as BukrsType>::lemma_wire_unambiguous(
                        tag_of(m),
                        tagv,
                        fields_wire(m) + rest,
                        mid,
                    );
                    lemma_tag_sdinvclose(m);
                    match m {
                        PacketV::SDInvClose(mx) => {
                            assert(mid == <BukrsSDInvClose as BukrsType>::wire(mx) + rest);
                            assert(m =~= p.deep_view());
                        },
                        _ => {},
                    }
                }
            }
            Ok(p)
        },
        Err(e) => {
            proof {
                assert forall|m: PacketV, rest: Seq<u8>|
                    !(payload_fits(m) && orig == #[trigger] (payload_wire(m) + rest)) by {
                    if payload_fits(m) && orig == payload_wire(m) + rest {
                        assert(orig == str_wire(tag_of(m)) + (fields_wire(m) + rest)) by {
                            assert((str_wire(tag_of(m)) + fields_wire(m)) + rest =~= str_wire(
                                tag_of(m),
                            ) + (fields_wire(m) + rest));
                        }
                        <String as BukrsType>::lemma_wire_unambiguous(
                            tag_of(m),
                            tagv,
                            fields_wire(m) + rest,
                            mid,
                        );
                        lemma_tag_sdinvclose(m);
                        match m {
                            PacketV::SDInvClose(mx) => {
                                assert(mid == <BukrsSDInvClose as BukrsType>::wire(mx) + rest);
                            },
                            _ => {},
                        }
                    }
                }
            }
            Err(e)
        },
    }
}

/// Decodes the field bytes of one shape, after its tag has been read.
fn decode_fields_reqplayerinvopen(
    bytes: &mut BytesMut,
    Ghost(orig): Ghost<Seq<u8>>,
    Ghost(tagv): Ghost<Seq<char>>,
) -> (r: Result<Packet, BukrsError>)
    requires
        tagv == "BukrsReqPlayerInvOpen"@,
        str_fits(tagv),
        orig == str_wire(tagv) + contents(*old(bytes)),
    ensures
        r matches Ok(p) ==> payload_fits(p.deep_view()) && orig == payload_wire(p.deep_view())
            + contents(*final(bytes)),
        r matches Ok(p) ==> forall|m: PacketV, rest: Seq<u8>|
            payload_fits(m) && orig == #[trigger] (payload_wire(m) + rest) ==> m == p.deep_view()
                && rest == contents(*final(bytes)),
        (exists|m: PacketV, rest: Seq<u8>|
            payload_fits(m) && orig == #[trigger] (payload_wire(m) + rest)) ==> r is Ok,
        forall|t: Seq<char>, body: Seq<u8>|
            str_fits(t) && orig == #[trigger] (str_wire(t) + body) ==> registered(t),
        r matches Err(e) ==> e == BukrsError::TruncatedInput || e == BukrsError::InvalidEncoding,
{
    let ghost mid = contents(*bytes);
    proof {
        assert forall|t: Seq<char>, body: Seq<u8>|
            str_fits(t) && orig == #[trigger] (str_wire(t) + body) implies registered(t) by {
            <String as BukrsType>::lemma_wire_unambiguous(t, tagv, body, mid);
        }
    }
    match <BukrsReqPlayerInvOpen as BukrsType>::decode(bytes) {
        Ok(x) => {
            let p = Packet::ReqPlayerInvOpen(x);
            proof {
                assert(orig =~= payload_wire(p.deep_view()) + contents(*bytes)) by {
                    assert((str_wire(tagv) + fields_wire(p.deep_view())) + contents(*bytes)
                        =~= str_wire(tagv) + (fields_wire(p.deep_view()) + contents(*bytes)));
                }
                assert forall|m: PacketV, rest: Seq<u8>|
                    payload_fits(m) && orig == #[trigger] (payload_wire(m) + rest) implies m
                    == p.deep_view() && rest == contents(*bytes) by {
                    assert(orig == str_wire(tag_of(m)) + (fields_wire(m) + rest)) by {
                        assert((str_wire(tag_of(m)) + fields_wire(m)) + rest =~= str_wire(
                            tag_of(m),
                        ) + (fields_wire(m) + rest));
                    }
                    <String as BukrsType>::lemma_wire_unambiguous(
                        tag_of(m),
                        tagv,
                        fields_wire(m) + rest,
                        mid,
                    );
                    lemma_tag_reqplayerinvopen(m);
                    match m {
                        PacketV::ReqPlayerInvOpen(mx) => {
                            assert(mid == <BukrsReqPlayerInvOpen as BukrsType>::wire(mx) + rest);
                            assert(m =~= p.deep_view());
                        },
                        _ => {},
                    }
                }
            }
            Ok(p)
        },
        Err(e) => {
            proof {
                assert forall|m: PacketV, rest: Seq<u8>|
                    !(payload_fits(m) && orig == #[trigger] (payload_wire(m) + rest)) by {
                    if payload_fits(m) && orig == payload_wire(m) + rest {
                        assert(orig == str_wire(tag_of(m)) + (fields_wire(m) + rest)) by {
                            assert((str_wire(tag_of(m)) + fields_wire(m)) + rest =~= str_wire(
                                tag_of(m),
                            ) + (fields_wire(m) + rest));
                        }
                        <String as BukrsType>::lemma_wire_unambiguous(
                            tag_of(m),
                            tagv,
                            fields_wire(m) + rest,
                            mid,
                        );
                        lemma_tag_reqplayerinvopen(m);
                        match m {
                            PacketV::ReqPlayerInvOpen(mx) => {
                                assert(mid == <BukrsReqPlayerInvOpen as BukrsType>::wire(mx) + rest);
                            },
                            _ => {},
                        }
                    }
                }
            }
            Err(e)
        },
    }
}

/// Decodes the field bytes of one shape, after its tag has been read.
fn decode_fields_resplayerinvopen(
    bytes: &mut BytesMut,
    Ghost(orig): Ghost<Seq<u8>>,
    Ghost(tagv): Ghost<Seq<char>>,
) -> (r: Result<Packet, BukrsError>)
    requires
        tagv == "BukrsResPlayerInvOpen"@,
        str_fits(tagv),
        orig == str_wire(tagv) + contents(*old(bytes)),
    ensures
        r matches Ok(p) ==> payload_fits(p.deep_view()) && orig == payload_wire(p.deep_view())
            + contents(*final(bytes)),
        r matches Ok(p) ==> forall|m: PacketV, rest: Seq<u8>|
            payload_fits(m) && orig == #[trigger] (payload_wire(m) + rest) ==> m == p.deep_view()
                && rest == contents(*final(bytes)),
        (exists|m: PacketV, rest: Seq<u8>|
            payload_fits(m) && orig == #[trigger] (payload_wire(m) + rest)) ==> r is Ok,
        forall|t: Seq<char>, body: Seq<u8>|
            str_fits(t) && orig == #[trigger] (str_wire(t) + body) ==> registered(t),
        r matches Err(e) ==> e == BukrsError::TruncatedInput || e == BukrsError::InvalidEncoding,
{
    let ghost mid = contents(*bytes);
    proof {
        assert forall|t: Seq<char>, body: Seq<u8>|
            str_fits(t) && orig == #[trigger] (str_wire(t) + body) implies registered(t) by {
            <String as BukrsType>::lemma_wire_unambiguous(t, tagv, body, mid);
        }
    }
    match <BukrsResPlayerInvOpen as BukrsType>::decode(bytes) {
        Ok(x) => {
            let p = Packet::ResPlayerInvOpen(x);
            proof {
                assert(orig =~= payload_wire(p.deep_view()) + contents(*bytes)) by {
                    assert((str_wire(tagv) + fields_wire(p.deep_view())) + contents(*bytes)
                        =~= str_wire(tagv) + (fields_wire(p.deep_view()) + contents(*bytes)));
                }
                assert forall|m: PacketV, rest: Seq<u8>|
                    payload_fits(m) && orig == #[trigger] (payload_wire(m) + rest) implies m
                    == p.deep_view() && rest == contents(*bytes) by {
                    assert(orig == str_wire(tag_of(m)) + (fields_wire(m) + rest)) by {
                        assert((str_wire(tag_of(m)) + fields_wire(m)) + rest =~= str_wire(
                            tag_of(m),
                        ) + (fields_wire(m) + rest));
                    }
                    <String as BukrsType>::lemma_wire_unambiguous(
                        tag_of(m),
                        tagv,
                        fields_wire(m) + rest,
                        mid,
                    );
                    lemma_tag_resplayerinvopen(m);
                    match m {
                        PacketV::ResPlayerInvOpen(mx) => {
                            assert(mid == <BukrsResPlayerInvOpen as BukrsType>::wire(mx) + rest);
                            assert(m =~= p.deep_view());
                        },
                        _ => {},
                    }
                }
            }
            Ok(p)
        },
        Err(e) => {
            proof {
                assert forall|m: PacketV, rest: Seq<u8>|
                    !(payload_fits(m) && orig == #[trigger] (payload_wire(m) + rest)) by {
                    if payload_fits(m) && orig == payload_wire(m) + rest {
                        assert(orig == str_wire(tag_of(m)) + (fields_wire(m) + rest)) by {
                            assert((str_wire(tag_of(m)) + fields_wire(m)) + rest =~= str_wire(
                                tag_of(m),
                            ) + (fields_wire(m) + rest));
                        }
                        <String as BukrsType>::lemma_wire_unambiguous(
                            tag_of(m),
                            tagv,
                            fields_wire(m) + rest,
                            mid,
                        );
                        lemma_tag_resplayerinvopen(m);
                        match m {
                            PacketV::ResPlayerInvOpen(mx) => {
                                assert(mid == <BukrsResPlayerInvOpen as BukrsType>::wire(mx) + rest);
                            },
                            _ => {},
                        }
                    }
                }
            }
            Err(e)
        },
    }
}

/// Decodes the field bytes of one shape, after its tag has been read.
fn decode_fields_reqcreateinvlist(
    bytes: &mut BytesMut,
    Ghost(orig): Ghost<Seq<u8>>,
    Ghost(tagv): Ghost<Seq<char>>,
) -> (r: Result<Packet, BukrsError>)
    requires
        tagv == "BukrsReqCreateInvList"@,
        str_fits(tagv),
        orig == str_wire(tagv) + contents(*old(bytes)),
    ensures
        r matches Ok(p) ==> payload_fits(p.deep_view()) && orig == payload_wire(p.deep_view())
            + contents(*final(bytes)),
        r matches Ok(p) ==> forall|m: PacketV, rest: Seq<u8>|
            payload_fits(m) && orig == #[trigger] (payload_wire(m) + rest) ==> m == p.deep_view()
                && rest == contents(*final(bytes)),
        (exists|m: PacketV, rest: Seq<u8>|
            payload_fits(m) && orig == #[trigger] (payload_wire(m) + rest)) ==> r is Ok,
        forall|t: Seq<char>, body: Seq<u8>|
            str_fits(t) && orig == #[trigger] (str_wire(t) + body) ==> registered(t),
        r matches Err(e) ==> e == BukrsError::TruncatedInput || e == BukrsError::InvalidEncoding,
{
    let ghost mid = contents(*bytes);
    proof {
        assert forall|t: Seq<char>, body: Seq<u8>|
            str_fits(t) && orig == #[trigger] (str_wire(t) + body) implies registered(t) by {
            <String as BukrsType>::lemma_wire_unambiguous(t, tagv, body, mid);
        }
    }
    match <BukrsReqCreateInvList as BukrsType>::decode(bytes) {
        Ok(x) => {
            let p = Packet::ReqCreateInvList(x);
            proof {
                assert(orig =~= payload_wire(p.deep_view()) + contents(*bytes)) by {
                    assert((str_wire(tagv) + fields_wire(p.deep_view())) + contents(*bytes)
                        =~= str_wire(tagv) + (fields_wire(p.deep_view()) + contents(*bytes)));
                }
                assert forall|m: PacketV, rest: Seq<u8>|
                    payload_fits(m) && orig == #[trigger] (payload_wire(m) + rest) implies m
                    == p.deep_view() && rest == contents(*bytes) by {
                    assert(orig == str_wire(tag_of(m)) + (fields_wire(m) + rest)) by {
                        assert((str_wire(tag_of(m)) + fields_wire(m)) + rest =~= str_wire(
                            tag_of(m),
                        ) + (fields_wire(m) + rest));
                    }
                    <String as BukrsType>::lemma_wire_unambiguous(
                        tag_of(m),
                        tagv,
                        fields_wire(m) + rest,
                        mid,
                    );
                    lemma_tag_reqcreateinvlist(m);
                    match m {
                        PacketV::ReqCreateInvList(mx) => {
                            assert(mid == <BukrsReqCreateInvList as BukrsType>::wire(mx) + rest);
                            assert(m =~= p.deep_view());
                        },
                        _ => {},
                    }
                }
            }
            Ok(p)
        },
        Err(e) => {
            proof {
                assert forall|m: PacketV, rest: Seq<u8>|
                    !(payload_fits(m) && orig == #[trigger] (payload_wire(m) + rest)) by {
                    if payload_fits(m) && orig == payload_wire(m) + rest {
                        assert(orig == str_wire(tag_of(m)) + (fields_wire(m) + rest)) by {
                            assert((str_wire(tag_of(m)) + fields_wire(m)) + rest =~= str_wire(
                                tag_of(m),
                            ) + (fields_wire(m) + rest));
                        }
                        <String as BukrsType>::lemma_wire_unambiguous(
                            tag_of(m),
                            tagv,
                            fields_wire(m) + rest,
                            mid,
                        );
                        lemma_tag_reqcreateinvlist(m);
                        match m {
                            PacketV::ReqCreateInvList(mx) => {
                                assert(mid == <BukrsReqCreateInvList as BukrsType>::wire(mx) + rest);
                            },
                            _ => {},
                        }
                    }
                }
            }
            Err(e)
        },
    }
}

/// Decodes the field bytes of one shape, after its tag has been read.
fn decode_fields_rescreateinvlist(
    bytes: &mut BytesMut,
    Ghost(orig): Ghost<Seq<u8>>,
    Ghost(tagv): Ghost<Seq<char>>,
) -> (r: Result<Packet, BukrsError>)
    requires
        tagv == "BukrsResCreateInvList"@,
        str_fits(tagv),
        orig == str_wire(tagv) + contents(*old(bytes)),
    ensures
        r matches Ok(p) ==> payload_fits(p.deep_view()) && orig == payload_wire(p.deep_view())
            + contents(*final(bytes)),
        r matches Ok(p) ==> forall|m: PacketV, rest: Seq<u8>|
            payload_fits(m) && orig == #[trigger] (payload_wire(m) + rest) ==> m == p.deep_view()
                && rest == contents(*final(bytes)),
        (exists|m: PacketV, rest: Seq<u8>|
            payload_fits(m) && orig == #[trigger] (payload_wire(m) + rest)) ==> r is Ok,
        forall|t: Seq<char>, body: Seq<u8>|
            str_fits(t) && orig == #[trigger] (str_wire(t) + body) ==> registered(t),
        r matches Err(e) ==> e == BukrsError::TruncatedInput || e == BukrsError::InvalidEncoding,
{
    let ghost mid = contents(*bytes);
    proof {
        assert forall|t: Seq<char>, body: Seq<u8>|
            str_fits(t) && orig == #[trigger] (str_wire(t) + body) implies registered(t) by {
            <String as BukrsType>::lemma_wire_unambiguous(t, tagv, body, mid);
        }
    }
    match <BukrsResCreateInvList as BukrsType>::decode(bytes) {
        Ok(x) => {
            let p = Packet::ResCreateInvList(x);
            proof {
                assert(orig =~= payload_wire(p.deep_view()) + contents(*bytes)) by {
                    assert((str_wire(tagv) + fields_wire(p.deep_view())) + contents(*bytes)
                        =~= str_wire(tagv) + (fields_wire(p.deep_view()) + contents(*bytes)));
                }
                assert forall|m: PacketV, rest: Seq<u8>|
                    payload_fits(m) && orig == #[trigger] (payload_wire(m) + rest) implies m
                    == p.deep_view() && rest == contents(*bytes) by {
                    assert(orig == str_wire(tag_of(m)) + (fields_wire(m) + rest)) by {
                        assert((str_wire(tag_of(m)) + fields_wire(m)) + rest =~= str_wire(
                            tag_of(m),
                        ) + (fields_wire(m) + rest));
                    }
                    <String as BukrsType>::lemma_wire_unambiguous(
                        tag_of(m),
                        tagv,
                        fields_wire(m) + rest,
                        mid,
                    );
                    lemma_tag_rescreateinvlist(m);
                    match m {
                        PacketV::ResCreateInvList(mx) => {
                            assert(mid == <BukrsResCreateInvList as BukrsType>::wire(mx) + rest);
                            assert(m =~= p.deep_view());
                        },
                        _ => {},
                    }
                }
            }
            Ok(p)
        },
        Err(e) => {
            proof {
                assert forall|m: PacketV, rest: Seq<u8>|
                    !(payload_fits(m) && orig == #[trigger] (payload_wire(m) + rest)) by {
                    if payload_fits(m) && orig == payload_wire(m) + rest {
                        assert(orig == str_wire(tag_of(m)) + (fields_wire(m) + rest)) by {
                            assert((str_wire(tag_of(m)) + fields_wire(m)) + rest =~= str_wire(
                                tag_of(m),
                            ) + (fields_wire(m) + rest));
                        }
                        <String as BukrsType>::lemma_wire_unambiguous(
                            tag_of(m),
                            tagv,
                            fields_wire(m) + rest,
                            mid,
                        );
                        lemma_tag_rescreateinvlist(m);
                        match m {
                            PacketV::ResCreateInvList(mx) => {
                                assert(mid == <BukrsResCreateInvList as BukrsType>::wire(mx) + rest);
                            },
                            _ => {},
                        }
                    }
                }
            }
            Err(e)
        },
    }
}

/// Decodes the field bytes of one shape, after its tag has been read.
fn decode_fields_reqmodifyinvlist(
    bytes: &mut BytesMut,
    Ghost(orig): Ghost<Seq<u8>>,
    Ghost(tagv): Ghost<Seq<char>>,
) -> (r: Result<Packet, BukrsError>)
    requires
        tagv == "BukrsReqModifyInvList"@,
        str_fits(tagv),
        orig == str_wire(tagv) + contents(*old(bytes)),
    ensures
        r matches Ok(p) ==> payload_fits(p.deep_view()) && orig == payload_wire(p.deep_view())
            + contents(*final(bytes)),
        r matches Ok(p) ==> forall|m: PacketV, rest: Seq<u8>|
            payload_fits(m) && orig == #[trigger] (payload_wire(m) + rest) ==> m == p.deep_view()
                && rest == contents(*final(bytes)),
        (exists|m: PacketV, rest: Seq<u8>|
            payload_fits(m) && orig == #[trigger] (payload_wire(m) + rest)) ==> r is Ok,
        forall|t: Seq<char>, body: Seq<u8>|
            str_fits(t) && orig == #[trigger] (str_wire(t) + body) ==> registered(t),
        r matches Err(e) ==> e == BukrsError::TruncatedInput || e == BukrsError::InvalidEncoding,
{
    let ghost mid = contents(*bytes);
    proof {
        assert forall|t: Seq<char>, body: Seq<u8>|
            str_fits(t) && orig == #[trigger] (str_wire(t) + body) implies registered(t) by {
            <String as BukrsType>::lemma_wire_unambiguous(t, tagv, body, mid);
        }
    }
    match <BukrsReqModifyInvList as BukrsType>::decode(bytes) {
        Ok(x) => {
            let p = Packet::ReqModifyInvList(x);
            proof {
                assert(orig =~= payload_wire(p.deep_view()) + contents(*bytes)) by {
                    assert((str_wire(tagv) + fields_wire(p.deep_view())) + contents(*bytes)
                        =~= str_wire(tagv) + (fields_wire(p.deep_view()) + contents(*bytes)));
                }
                assert forall|m: PacketV, rest: Seq<u8>|
                    payload_fits(m) && orig == #[trigger] (payload_wire(m) + rest) implies m
                    == p.deep_view() && rest == contents(*bytes) by {
                    assert(orig == str_wire(tag_of(m)) + (fields_wire(m) + rest)) by {
                        assert((str_wire(tag_of(m)) + fields_wire(m)) + rest =~= str_wire(
                            tag_of(m),
                        ) + (fields_wire(m) + rest));
                    }
                    <String as BukrsType>::lemma_wire_unambiguous(
                        tag_of(m),
                        tagv,
                        fields_wire(m) + rest,
                        mid,
                    );
                    lemma_tag_reqmodifyinvlist(m);
                    match m {
                        PacketV::ReqModifyInvList(mx) => {
                            assert(mid == <BukrsReqModifyInvList as BukrsType>::wire(mx) + rest);
                            assert(m =~= p.deep_view());
                        },
                        _ => {},
                    }
                }
            }
            Ok(p)
        },
        Err(e) => {
            proof {
                assert forall|m: PacketV, rest: Seq<u8>|
                    !(payload_fits(m) && orig == #[trigger] (payload_wire(m) + rest)) by {
                    if payload_fits(m) && orig == payload_wire(m) + rest {
                        assert(orig == str_wire(tag_of(m)) + (fields_wire(m) + rest)) by {
                            assert((str_wire(tag_of(m)) + fields_wire(m)) + rest =~= str_wire(
                                tag_of(m),
                            ) + (fields_wire(m) + rest));
                        }
                        <String as BukrsType>::lemma_wire_unambiguous(
                            tag_of(m),
                            tagv,
                            fields_wire(m) + rest,
                            mid,
                        );
                        lemma_tag_reqmodifyinvlist(m);
                        match m {
                            PacketV::ReqModifyInvList(mx) => {
                                assert(mid == <BukrsReqModifyInvList as BukrsType>::wire(mx) + rest);
                            },
                            _ => {},
                        }
                    }
                }
            }
            Err(e)
        },
    }
}

/// Decodes the field bytes of one shape, after its tag has been read.
fn decode_fields_resmodifyinvlist(
    bytes: &mut BytesMut,
    Ghost(orig): Ghost<Seq<u8>>,
    Ghost(tagv): Ghost<Seq<char>>,
) -> (r: Result<Packet, BukrsError>)
    requires
        tagv == "BukrsResModifyInvList"@,
        str_fits(tagv),
        orig == str_wire(tagv) + contents(*old(bytes)),
    ensures
        r matches Ok(p) ==> payload_fits(p.deep_view()) && orig == payload_wire(p.deep_view())
            + contents(*final(bytes)),
        r matches Ok(p) ==> forall|m: PacketV, rest: Seq<u8>|
            payload_fits(m) && orig == #[trigger] (payload_wire(m) + rest) ==> m == p.deep_view()
                && rest == contents(*final(bytes)),
        (exists|m: PacketV, rest: Seq<u8>|
            payload_fits(m) && orig == #[trigger] (payload_wire(m) + rest)) ==> r is Ok,
        forall|t: Seq<char>, body: Seq<u8>|
            str_fits(t) && orig == #[trigger] (str_wire(t) + body) ==> registered(t),
        r matches Err(e) ==> e == BukrsError::TruncatedInput || e == BukrsError::InvalidEncoding,
{
    let ghost mid = contents(*bytes);
    proof {
        assert forall|t: Seq<char>, body: Seq<u8>|
            str_fits(t) && orig == #[trigger] (str_wire(t) + body) implies registered(t) by {
            <String as BukrsType>::lemma_wire_unambiguous(t, tagv, body, mid);
        }
    }
    match <BukrsResModifyInvList as BukrsType>::decode(bytes) {
        Ok(x) => {
            let p = Packet::ResModifyInvList(x);
            proof {
                assert(orig =~= payload_wire(p.deep_view()) + contents(*bytes)) by {
                    assert((str_wire(tagv) + fields_wire(p.deep_view())) + contents(*bytes)
                        =~= str_wire(tagv) + (fields_wire(p.deep_view()) + contents(*bytes)));
                }
                assert forall|m: PacketV, rest: Seq<u8>|
                    payload_fits(m) && orig == #[trigger] (payload_wire(m) + rest) implies m
                    == p.deep_view() && rest == contents(*bytes) by {
                    assert(orig == str_wire(tag_of(m)) + (fields_wire(m) + rest)) by {
                        assert((str_wire(tag_of(m)) + fields_wire(m)) + rest =~= str_wire(
                            tag_of(m),
                        ) + (fields_wire(m) + rest));
                    }
                    <String as BukrsType>::lemma_wire_unambiguous(
                        tag_of(m),
                        tagv,
                        fields_wire(m) + rest,
                        mid,
                    );
                    lemma_tag_resmodifyinvlist(m);
                    match m {
                        PacketV::ResModifyInvList(mx) => {
                            assert(mid == <BukrsResModifyInvList as BukrsType>::wire(mx) + rest);
                            assert(m =~= p.deep_view());
                        },
                        _ => {},
                    }
                }
            }
            Ok(p)
        },
        Err(e) => {
            proof {
                assert forall|m: PacketV, rest: Seq<u8>|
                    !(payload_fits(m) && orig == #[trigger] (payload_wire(m) + rest)) by {
                    if payload_fits(m) && orig == payload_wire(m) + rest {
                        assert(orig == str_wire(tag_of(m)) + (fields_wire(m) + rest)) by {
                            assert((str_wire(tag_of(m)) + fields_wire(m)) + rest =~= str_wire(
                                tag_of(m),
                            ) + (fields_wire(m) + rest));
                        }
                        <String as BukrsType>::lemma_wire_unambiguous(
                            tag_of(m),
                            tagv,
                            fields_wire(m) + rest,
                            mid,
                        );
                        lemma_tag_resmodifyinvlist(m);
                        match m {
                            PacketV::ResModifyInvList(mx) => {
                                assert(mid == <BukrsResModifyInvList as BukrsType>::wire(mx) + rest);
                            },
                            _ => {},
                        }
                    }
                }
            }
            Err(e)
        },
    }
}
/// Rebuilds a list of player ids, value for value.
fn clone_player_ids(v: &Vec<PlayerId>) -> (r: Vec<PlayerId>)
    ensures
        r.deep_view() == v.deep_view(),
{
    let mut out: Vec<PlayerId> = Vec::new();
    let mut i: usize = 0;
    while i < v.len()
        invariant
            0 <= i <= v.len(),
            out.deep_view() == v.deep_view().take(i as int),
        decreases v.len() - i,
    {
        let ghost prev = out.deep_view();
        out.push(PlayerId(v[i].0));
        i = i + 1;
        proof {
            assert(v.deep_view()[i - 1] == v[i - 1].deep_view());
            assert(out.deep_view() =~= prev.push(v.deep_view()[i - 1]));
            assert(prev.push(v.deep_view()[i - 1]) =~= v.deep_view().take(i as int));
        }
    }
    proof {
        assert(v.deep_view().take(v@.len() as int) =~= v.deep_view());
    }
    out
}

/// Rebuilds one player record, value for value.
fn clone_player_data(v: &PlayerData) -> (r: PlayerData)
    ensures
        r.deep_view() == v.deep_view(),
{
    let r = PlayerData {
        id: PlayerId(v.id.0),
        name: v.name.clone(),
        uuid: UUID { lsb: v.uuid.lsb, msb: v.uuid.msb },
    };
    proof {
        assert(r.deep_view() =~= v.deep_view());
    }
    r
}

/// Rebuilds an inventory list, slot for slot.
fn clone_inv_list(v: &InvList) -> (r: InvList)
    ensures
        r.deep_view() == v.deep_view(),
{
    let mut slots: Vec<InvSlot> = Vec::new();
    let mut i: usize = 0;
    while i < v.data.len()
        invariant
            0 <= i <= v.data.len(),
            slots.deep_view() == v.data.deep_view().take(i as int),
        decreases v.data.len() - i,
    {
        let s = &v.data[i];
        let ghost prev = slots.deep_view();
        slots.push(
            InvSlot {
                slot: s.slot,
                item: ItemStack { name: s.item.name.clone(), material: s.item.material.clone() },
            },
        );
        i = i + 1;
        proof {
            assert(v.data.deep_view()[i - 1] == v.data[i - 1].deep_view());
            assert(slots.deep_view() =~= prev.push(v.data.deep_view()[i - 1]));
            assert(prev.push(v.data.deep_view()[i - 1]) =~= v.data.deep_view().take(i as int));
        }
    }
    proof {
        assert(v.data.deep_view().take(v.data@.len() as int) =~= v.data.deep_view());
    }
    let r = InvList { id: InvfxId(v.id.0), data: slots };
    proof {
        assert(r.deep_view() =~= v.deep_view());
    }
    r
}

/// A packet shape: a tag naming it, entry into the closed packet set, and
/// the checked conversion back out of it.
pub trait BukrsPacket: BukrsType {
    /// The tag this shape is registered under.
    spec fn tag() -> Seq<char>;

    /// The packet view that wraps a value of this shape.
    spec fn wrap(m: <Self as DeepView>::V) -> PacketV;

    /// Whether a packet view carries this shape.
    spec fn is_variant(m: PacketV) -> bool;

    fn id(&self) -> (r: String)
        ensures
            r@ == Self::tag(),
    ;

    fn into_packet(self) -> (p: Packet)
        ensures
            p.deep_view() == Self::wrap(self.deep_view()),
    ;

    fn from_packet(p: &Packet) -> (r: Option<Self>)
        ensures
            r matches Some(v) ==> p.deep_view() == Self::wrap(v.deep_view()),
            r is Some <==> Self::is_variant(p.deep_view()),
    ;
}

/// Checked conversion of a packet to a concrete shape.  It yields the
/// packet's own value exactly when the shape matches, and never a wrong or
/// default value.
pub fn cast_packet<T: BukrsPacket>(packet: &Packet) -> (r: Option<T>)
    ensures
        r matches Some(v) ==> packet.deep_view() == T::wrap(v.deep_view()),
        r is Some <==> T::is_variant(packet.deep_view()),
{
    T::from_packet(packet)
}

impl BukrsPacket for BukrsReqAPI {
    open spec fn tag() -> Seq<char> {
        "BukrsReqAPI"@
    }

    open spec fn wrap(m: <BukrsReqAPI as DeepView>::V) -> PacketV {
        PacketV::ReqAPI(m)
    }

    open spec fn is_variant(m: PacketV) -> bool {
        m matches PacketV::ReqAPI(_)
    }

    fn id(&self) -> (r: String) {
        String::from_str("BukrsReqAPI")
    }

    fn into_packet(self) -> (p: Packet) {
        Packet::ReqAPI(self)
    }

    fn from_packet(p: &Packet) -> (r: Option<Self>) {
        match p {
            Packet::ReqAPI(x) => {
                let v = BukrsReqAPI {};
                proof {
                    assert(p.deep_view() =~= Self::wrap(v.deep_view()));
                }
                Some(v)
            },
            _ => None,
        }
    }
}

impl BukrsPacket for BukrsResAPI {
    open spec fn tag() -> Seq<char> {
        "BukrsResAPI"@
    }

    open spec fn wrap(m: <BukrsResAPI as DeepView>::V) -> PacketV {
        PacketV::ResAPI(m)
    }

    open spec fn is_variant(m: PacketV) -> bool {
        m matches PacketV::ResAPI(_)
    }

    fn id(&self) -> (r: String) {
        String::from_str("BukrsResAPI")
    }

    fn into_packet(self) -> (p: Packet) {
        Packet::ResAPI(self)
    }

    fn from_packet(p: &Packet) -> (r: Option<Self>) {
        match p {
            Packet::ResAPI(x) => {
                let v = BukrsResAPI { api_id: x.api_id };
                proof {
                    assert(p.deep_view() =~= Self::wrap(v.deep_view()));
                }
                Some(v)
            },
            _ => None,
        }
    }
}

impl BukrsPacket for BukrsReqOnlinePlayers {
    open spec fn tag() -> Seq<char> {
        "BukrsReqOnlinePlayers"@
    }

    open spec fn wrap(m: <BukrsReqOnlinePlayers as DeepView>::V) -> PacketV {
        PacketV::ReqOnlinePlayers(m)
    }

    open spec fn is_variant(m: PacketV) -> bool {
        m matches PacketV::ReqOnlinePlayers(_)
    }

    fn id(&self) -> (r: String) {
        String::from_str("BukrsReqOnlinePlayers")
    }

    fn into_packet(self) -> (p: Packet) {
        Packet::ReqOnlinePlayers(self)
    }

    fn from_packet(p: &Packet) -> (r: Option<Self>) {
        match p {
            Packet::ReqOnlinePlayers(x) => {
                let v = BukrsReqOnlinePlayers {};
                proof {
                    assert(p.deep_view() =~= Self::wrap(v.deep_view()));
                }
                Some(v)
            },
            _ => None,
        }
    }
}

impl BukrsPacket for BukrsResOnlinePlayers {
    open spec fn tag() -> Seq<char> {
        "BukrsResOnlinePlayers"@
    }

    open spec fn wrap(m: <BukrsResOnlinePlayers as DeepView>::V) -> PacketV {
        PacketV::ResOnlinePlayers(m)
    }

    open spec fn is_variant(m: PacketV) -> bool {
        m matches PacketV::ResOnlinePlayers(_)
    }

    fn id(&self) -> (r: String) {
        String::from_str("BukrsResOnlinePlayers")
    }

    fn into_packet(self) -> (p: Packet) {
        Packet::ResOnlinePlayers(self)
    }

    fn from_packet(p: &Packet) -> (r: Option<Self>) {
        match p {
            Packet::ResOnlinePlayers(x) => {
                let v = BukrsResOnlinePlayers { players: clone_player_ids(&x.players) };
                proof {
                    assert(p.deep_view() =~= Self::wrap(v.deep_view()));
                }
                Some(v)
            },
            _ => None,
        }
    }
}

impl BukrsPacket for BukrsReqPlayerById {
    open spec fn tag() -> Seq<char> {
        "BukrsReqPlayerById"@
    }

    open spec fn wrap(m: <BukrsReqPlayerById as DeepView>::V) -> PacketV {
        PacketV::ReqPlayerById(m)
    }

    open spec fn is_variant(m: PacketV) -> bool {
        m matches PacketV::ReqPlayerById(_)
    }

    fn id(&self) -> (r: String) {
        String::from_str("BukrsReqPlayerById")
    }

    fn into_packet(self) -> (p: Packet) {
        Packet::ReqPlayerById(self)
    }

    fn from_packet(p: &Packet) -> (r: Option<Self>) {
        match p {
            Packet::ReqPlayerById(x) => {
                let v = BukrsReqPlayerById { player_id: PlayerId(x.player_id.0) };
                proof {
                    assert(p.deep_view() =~= Self::wrap(v.deep_view()));
                }
                Some(v)
            },
            _ => None,
        }
    }
}

impl BukrsPacket for BukrsReqPlayerByName {
    open spec fn tag() -> Seq<char> {
        "BukrsReqPlayerByName"@
    }

    open spec fn wrap(m: <BukrsReqPlayerByName as DeepView>::V) -> PacketV {
        PacketV::ReqPlayerByName(m)
    }

    open spec fn is_variant(m: PacketV) -> bool {
        m matches PacketV::ReqPlayerByName(_)
    }

    fn id(&self) -> (r: String) {
        String::from_str("BukrsReqPlayerByName")
    }

    fn into_packet(self) -> (p: Packet) {
        Packet::ReqPlayerByName(self)
    }

    fn from_packet(p: &Packet) -> (r: Option<Self>) {
        match p {
            Packet::ReqPlayerByName(x) => {
                let v = BukrsReqPlayerByName { player_name: x.player_name.clone() };
                proof {
                    assert(p.deep_view() =~= Self::wrap(v.deep_view()));
                }
                Some(v)
            },
            _ => None,
        }
    }
}

impl BukrsPacket for BukrsResPlayerData {
    open spec fn tag() -> Seq<char> {
        "BukrsResPlayerData"@
    }

    open spec fn wrap(m: <BukrsResPlayerData as DeepView>::V) -> PacketV {
        PacketV::ResPlayerData(m)
    }

    open spec fn is_variant(m: PacketV) -> bool {
        m matches PacketV::ResPlayerData(_)
    }

    fn id(&self) -> (r: String) {
        String::from_str("BukrsResPlayerData")
    }

    fn into_packet(self) -> (p: Packet) {
        Packet::ResPlayerData(self)
    }

    fn from_packet(p: &Packet) -> (r: Option<Self>) {
        match p {
            Packet::ResPlayerData(x) => {
                let v = BukrsResPlayerData { data: clone_player_data(&x.data) };
                proof {
                    assert(p.deep_view() =~= Self::wrap(v.deep_view()));
                }
                Some(v)
            },
            _ => None,
        }
    }
}

impl BukrsPacket for BukrsReqCreateInventory {
    open spec fn tag() -> Seq<char> {
        "BukrsReqCreateInventory"@
    }

    open spec fn wrap(m: <BukrsReqCreateInventory as DeepView>::V) -> PacketV {
        PacketV::ReqCreateInventory(m)
    }

    open spec fn is_variant(m: PacketV) -> bool {
        m matches PacketV::ReqCreateInventory(_)
    }

    fn id(&self) -> (r: String) {
        String::from_str("BukrsReqCreateInventory")
    }

    fn into_packet(self) -> (p: Packet) {
        Packet::ReqCreateInventory(self)
    }

    fn from_packet(p: &Packet) -> (r: Option<Self>) {
        match p {
            Packet::ReqCreateInventory(x) => {
                let v = BukrsReqCreateInventory { name: x.name.clone(), size: x.size };
                proof {
                    assert(p.deep_view() =~= Self::wrap(v.deep_view()));
                }
                Some(v)
            },
            _ => None,
        }
    }
}

impl BukrsPacket for BukrsResCreateInventory {
    open spec fn tag() -> Seq<char> {
        "BukrsResCreateInventory"@
    }

    open spec fn wrap(m: <BukrsResCreateInventory as DeepView>::V) -> PacketV {
        PacketV::ResCreateInventory(m)
    }

    open spec fn is_variant(m: PacketV) -> bool {
        m matches PacketV::ResCreateInventory(_)
    }

    fn id(&self) -> (r: String) {
        String::from_str("BukrsResCreateInventory")
    }

    fn into_packet(self) -> (p: Packet) {
        Packet::ResCreateInventory(self)
    }

    fn from_packet(p: &Packet) -> (r: Option<Self>) {
        match p {
            Packet::ResCreateInventory(x) => {
                let v = BukrsResCreateInventory { inv_id: InvfxId(x.inv_id.0) };
                proof {
                    assert(p.deep_view() =~= Self::wrap(v.deep_view()));
                }
                Some(v)
            },
            _ => None,
        }
    }
}

impl BukrsPacket for BukrsSDInvClick {
    open spec fn tag() -> Seq<char> {
        "BukrsSDInvClick"@
    }

    open spec fn wrap(m: <BukrsSDInvClick as DeepView>::V) -> PacketV {
        PacketV::SDInvClick(m)
    }

    open spec fn is_variant(m: PacketV) -> bool {
        m matches PacketV::SDInvClick(_)
    }

    fn id(&self) -> (r: String) {
        String::from_str("BukrsSDInvClick")
    }

    fn into_packet(self) -> (p: Packet) {
        Packet::SDInvClick(self)
    }

    fn from_packet(p: &Packet) -> (r: Option<Self>) {
        match p {
            Packet::SDInvClick(x) => {
                let v = BukrsSDInvClick { slot: x.slot, player_id: PlayerId(x.player_id.0) };
                proof {
                    assert(p.deep_view() =~= Self::wrap(v.deep_view()));
                }
                Some(v)
            },
            _ => None,
        }
    }
}

impl BukrsPacket for BukrsSDInvOpen {
    open spec fn tag() -> Seq<char> {
        "BukrsSDInvOpen"@
    }

    open spec fn wrap(m: <BukrsSDInvOpen as DeepView>::V) -> PacketV {
        PacketV::SDInvOpen(m)
    }

    open spec fn is_variant(m: PacketV) -> bool {
        m matches PacketV::SDInvOpen(_)
    }

    fn id(&self) -> (r: String) {
        String::from_str("BukrsSDInvOpen")
    }

    fn into_packet(self) -> (p: Packet) {
        Packet::SDInvOpen(self)
    }

    fn from_packet(p: &Packet) -> (r: Option<Self>) {
        match p {
            Packet::SDInvOpen(x) => {
                let v = BukrsSDInvOpen { player_id: PlayerId(x.player_id.0) };
                proof {
                    assert(p.deep_view() =~= Self::wrap(v.deep_view()));
                }
                Some(v)
            },
            _ => None,
        }
    }
}

impl BukrsPacket for BukrsSDInvClose {
    open spec fn tag() -> Seq<char> {
        "BukrsSDInvClose"@
    }

    open spec fn wrap(m: <BukrsSDInvClose as DeepView>::V) -> PacketV {
        PacketV::SDInvClose(m)
    }

    open spec fn is_variant(m: PacketV) -> bool {
        m matches PacketV::SDInvClose(_)
    }

    fn id(&self) -> (r: String) {
        String::from_str("BukrsSDInvClose")
    }

    fn into_packet(self) -> (p: Packet) {
        Packet::SDInvClose(self)
    }

    fn from_packet(p: &Packet) -> (r: Option<Self>) {
        match p {
            Packet::SDInvClose(x) => {
                let v = BukrsSDInvClose { player_id: PlayerId(x.player_id.0) };
                proof {
                    assert(p.deep_view() =~= Self::wrap(v.deep_view()));
                }
                Some(v)
            },
            _ => None,
        }
    }
}

impl BukrsPacket for BukrsReqPlayerInvOpen {
    open spec fn tag() -> Seq<char> {
        "BukrsReqPlayerInvOpen"@
    }

    open spec fn wrap(m: <BukrsReqPlayerInvOpen as DeepView>::V) -> PacketV {
        PacketV::ReqPlayerInvOpen(m)
    }

    open spec fn is_variant(m: PacketV) -> bool {
        m matches PacketV::ReqPlayerInvOpen(_)
    }

    fn id(&self) -> (r: String) {
        String::from_str("BukrsReqPlayerInvOpen")
    }

    fn into_packet(self) -> (p: Packet) {
        Packet::ReqPlayerInvOpen(self)
    }

    fn from_packet(p: &Packet) -> (r: Option<Self>) {
        match p {
            Packet::ReqPlayerInvOpen(x) => {
                let v = BukrsReqPlayerInvOpen { inv_id: InvfxId(x.inv_id.0), player_id: PlayerId(x.player_id.0) };
                proof {
                    assert(p.deep_view() =~= Self::wrap(v.deep_view()));
                }
                Some(v)
            },
            _ => None,
        }
    }
}

impl BukrsPacket for BukrsResPlayerInvOpen {
    open spec fn tag() -> Seq<char> {
        "BukrsResPlayerInvOpen"@
    }

    open spec fn wrap(m: <BukrsResPlayerInvOpen as DeepView>::V) -> PacketV {
        PacketV::ResPlayerInvOpen(m)
    }

    open spec fn is_variant(m: PacketV) -> bool {
        m matches PacketV::ResPlayerInvOpen(_)
    }

    fn id(&self) -> (r: String) {
        String::from_str("BukrsResPlayerInvOpen")
    }

    fn into_packet(self) -> (p: Packet) {
        Packet::ResPlayerInvOpen(self)
    }

    fn from_packet(p: &Packet) -> (r: Option<Self>) {
        match p {
            Packet::ResPlayerInvOpen(x) => {
                let v = BukrsResPlayerInvOpen {};
                proof {
                    assert(p.deep_view() =~= Self::wrap(v.deep_view()));
                }
                Some(v)
            },
            _ => None,
        }
    }
}

impl BukrsPacket for BukrsReqCreateInvList {
    open spec fn tag() -> Seq<char> {
        "BukrsReqCreateInvList"@
    }

    open spec fn wrap(m: <BukrsReqCreateInvList as DeepView>::V) -> PacketV {
        PacketV::ReqCreateInvList(m)
    }

    open spec fn is_variant(m: PacketV) -> bool {
        m matches PacketV::ReqCreateInvList(_)
    }

    fn id(&self) -> (r: String) {
        String::from_str("BukrsReqCreateInvList")
    }

    fn into_packet(self) -> (p: Packet) {
        Packet::ReqCreateInvList(self)
    }

    fn from_packet(p: &Packet) -> (r: Option<Self>) {
        match p {
            Packet::ReqCreateInvList(x) => {
                let v = BukrsReqCreateInvList { inv_id: InvfxId(x.inv_id.0), list: clone_inv_list(&x.list) };
                proof {
                    assert(p.deep_view() =~= Self::wrap(v.deep_view()));
                }
                Some(v)
            },
            _ => None,
        }
    }
}

impl BukrsPacket for BukrsResCreateInvList {
    open spec fn tag() -> Seq<char> {
        "BukrsResCreateInvList"@
    }

    open spec fn wrap(m: <BukrsResCreateInvList as DeepView>::V) -> PacketV {
        PacketV::ResCreateInvList(m)
    }

    open spec fn is_variant(m: PacketV) -> bool {
        m matches PacketV::ResCreateInvList(_)
    }

    fn id(&self) -> (r: String) {
        String::from_str("BukrsResCreateInvList")
    }

    fn into_packet(self) -> (p: Packet) {
        Packet::ResCreateInvList(self)
    }

    fn from_packet(p: &Packet) -> (r: Option<Self>) {
        match p {
            Packet::ResCreateInvList(x) => {
                let v = BukrsResCreateInvList {};
                proof {
                    assert(p.deep_view() =~= Self::wrap(v.deep_view()));
                }
                Some(v)
            },
            _ => None,
        }
    }
}

impl BukrsPacket for BukrsReqModifyInvList {
    open spec fn tag() -> Seq<char> {
        "BukrsReqModifyInvList"@
    }

    open spec fn wrap(m: <BukrsReqModifyInvList as DeepView>::V) -> PacketV {
        PacketV::ReqModifyInvList(m)
    }

    open spec fn is_variant(m: PacketV) -> bool {
        m matches PacketV::ReqModifyInvList(_)
    }

    fn id(&self) -> (r: String) {
        String::from_str("BukrsReqModifyInvList")
    }

    fn into_packet(self) -> (p: Packet) {
        Packet::ReqModifyInvList(self)
    }

    fn from_packet(p: &Packet) -> (r: Option<Self>) {
        match p {
            Packet::ReqModifyInvList(x) => {
                let v = BukrsReqModifyInvList { inv_id: InvfxId(x.inv_id.0), list: clone_inv_list(&x.list) };
                proof {
                    assert(p.deep_view() =~= Self::wrap(v.deep_view()));
                }
                Some(v)
            },
            _ => None,
        }
    }
}

impl BukrsPacket for BukrsResModifyInvList {
    open spec fn tag() -> Seq<char> {
        "BukrsResModifyInvList"@
    }

    open spec fn wrap(m: <BukrsResModifyInvList as DeepView>::V) -> PacketV {
        PacketV::ResModifyInvList(m)
    }

    open spec fn is_variant(m: PacketV) -> bool {
        m matches PacketV::ResModifyInvList(_)
    }

    fn id(&self) -> (r: String) {
        String::from_str("BukrsResModifyInvList")
    }

    fn into_packet(self) -> (p: Packet) {
        Packet::ResModifyInvList(self)
    }

    fn from_packet(p: &Packet) -> (r: Option<Self>) {
        match p {
            Packet::ResModifyInvList(x) => {
                let v = BukrsResModifyInvList {};
                proof {
                    assert(p.deep_view() =~= Self::wrap(v.deep_view()));
                }
                Some(v)
            },
            _ => None,
        }
    }
}
/// One decoded frame: the packet and, when nonzero on the wire, its
/// correlation id.
#[derive(Debug, Clone, PartialEq)]
pub struct BukrsPacketData {
    pub payload_id: Option<u32>,
    pub event: Packet,
}

/// The acknowledgement payload of the initial exchange.
#[derive(Debug, Clone, PartialEq)]
pub struct ServerResponse(pub u32);

/// The correlation id a frame carries for an optional id: zero means none.
pub open spec fn spec_id(id: Option<u32>) -> u32 {
    match id {
        Some(i) => i,
        None => 0,
    }
}

/// A whole frame on the wire: the payload length as a varint, the
/// correlation id as four big-endian bytes, then the payload itself.
pub open spec fn frame_wire(id: u32, m: PacketV) -> Seq<u8> {
    varint_wire(payload_wire(m).len() as u32) + u32_be(id) + payload_wire(m)
}

/// Whether a packet can be framed: its payload must encode and its length
/// must fit the signed 32-bit range the length prefix uses.
pub open spec fn frame_fits(m: PacketV) -> bool {
    payload_fits(m) && payload_wire(m).len() <= 0x7FFF_FFFF
}

/// Taking more than the first part of a concatenation takes a part of the
/// second.
proof fn lemma_take_concat(a: Seq<u8>, b: Seq<u8>, k: int)
    requires
        a.len() <= k <= a.len() + b.len(),
    ensures
        (a + b).take(k) == a + b.take(k - a.len()),
{
    assert((a + b).take(k) =~= a + b.take(k - a.len()));
}

/// A framed packet's bytes, split where the header parser splits them.
proof fn lemma_frame_split(orig: Seq<u8>, id: u32, m: PacketV, rest: Seq<u8>)
    requires
        orig == frame_wire(id, m) + rest,
    ensures
        orig == varint_wire(payload_wire(m).len() as u32) + (u32_be(id) + (payload_wire(m)
            + rest)),
        orig.len() >= 9 + rest.len(),
        payload_wire(m).len() >= 4,
{
    let v = varint_wire(payload_wire(m).len() as u32);
    let p = payload_wire(m);
    assert(((v + u32_be(id)) + p) + rest =~= v + (u32_be(id) + (p + rest)));
    lemma_varint_wire_len(p.len() as u32);
    assert(str_wire(tag_of(m)).len() >= 4);
}

/// A strict prefix of a framed packet, split where the header parser splits
/// it: either the correlation id is cut short, or the header is whole and
/// only part of the payload follows.
proof fn lemma_frame_prefix_split(orig: Seq<u8>, id: u32, m: PacketV, k: int)
    requires
        frame_fits(m),
        0 <= k < frame_wire(id, m).len(),
        orig == frame_wire(id, m).take(k),
        orig.len() >= 6,
    ensures
        ({
            let v = varint_wire(payload_wire(m).len() as u32);
            let p = payload_wire(m);
            &&& k > v.len()
            &&& (k - v.len() < 4 ==> orig == v + ((u32_be(id) + p).take(k - v.len())) && (u32_be(
                id,
            ) + p).take(k - v.len()).len() < 4)
            &&& (k - v.len() >= 4 ==> orig == v + (u32_be(id) + p.take(k - v.len() - 4))
                && p.take(k - v.len() - 4).len() < p.len())
        }),
{
    let v = varint_wire(payload_wire(m).len() as u32);
    let p = payload_wire(m);
    lemma_varint_wire_len(p.len() as u32);
    assert(k == orig.len());
    assert(frame_wire(id, m) =~= v + (u32_be(id) + p));
    lemma_take_concat(v, u32_be(id) + p, k);
    if k - v.len() >= 4 {
        lemma_take_concat(u32_be(id), p, k - v.len());
        assert(k - v.len() - 4 < p.len()) by {
            assert(frame_wire(id, m).len() == v.len() + 4 + p.len());
        }
    }
}

/// Writes the frame header: the payload length as a varint, then the
/// correlation id.
fn encode_header(dst: &mut BytesMut, packet_data: &BytesMut, payload_id: u32) -> (r: Result<
    (),
    BukrsError,
>)
    ensures
        r is Ok <==> contents(*packet_data).len() <= 0x7FFF_FFFF,
        r is Ok ==> contents(*final(dst)) == contents(*old(dst)) + varint_wire(
            contents(*packet_data).len() as u32,
        ) + u32_be(payload_id),
        r is Err ==> contents(*final(dst)) == contents(*old(dst)) && r == Err::<(), BukrsError>(
            BukrsError::InvalidEncoding,
        ),
{
    let len = buf_len(packet_data);
    if len > 0x7FFF_FFFF {
        return Err(BukrsError::InvalidEncoding);
    }
    write_varint(len as i32, dst);
    proof {
        assert((len as i32) as u32 == len as u32) by (bit_vector)
            requires
                len <= 0x7FFF_FFFF,
        ;
    }
    put_u32(dst, payload_id);
    Ok(())
}

/// Reads the frame header from the front of `src`, consuming what it reads.
fn decode_header(src: &mut BytesMut) -> (r: Result<(usize, u32), BukrsError>)
    ensures
        forall|l: u32, id: u32, rest: Seq<u8>|
            l <= 0x7FFF_FFFF && contents(*old(src)) == #[trigger] (varint_wire(l) + (u32_be(id)
                + rest)) ==> r == Ok::<(usize, u32), BukrsError>((l as usize, id)) && contents(
                *final(src),
            ) == rest,
        forall|l: u32, tail: Seq<u8>|
            l <= 0x7FFF_FFFF && contents(*old(src)) == #[trigger] (varint_wire(l) + tail)
                && tail.len() < 4 ==> r == Err::<(usize, u32), BukrsError>(
                BukrsError::TruncatedInput,
            ),
        r matches Ok(h) ==> h.0 <= 0x7FFF_FFFF && exists|k: int|
            2 <= k <= 9 && k <= contents(*old(src)).len() && contents(*final(src)) == contents(
                *old(src),
            ).skip(k),
        r is Err ==> r == Err::<(usize, u32), BukrsError>(BukrsError::TruncatedInput) || r
            == Err::<(usize, u32), BukrsError>(BukrsError::VarintOverflow) || r == Err::<
            (usize, u32),
            BukrsError,
        >(BukrsError::InvalidEncoding),
{
    let ghost orig = contents(*src);
    let packet_size = match read_varint(src) {
        Ok(v) => v,
        Err(e) => {
            proof {
                assert forall|l: u32, tail: Seq<u8>|
                    !(l <= 0x7FFF_FFFF && orig == #[trigger] (varint_wire(l) + tail)) by {
                    if l <= 0x7FFF_FFFF && orig == varint_wire(l) + tail {
                    }
                }
                assert forall|l: u32, id: u32, rest: Seq<u8>|
                    !(l <= 0x7FFF_FFFF && orig == #[trigger] (varint_wire(l) + (u32_be(id)
                        + rest))) by {
                    if l <= 0x7FFF_FFFF && orig == varint_wire(l) + (u32_be(id) + rest) {
                    }
                }
            }
            return Err(e);
        },
    };
    let ghost after_varint = contents(*src);
    if packet_size < 0 {
        proof {
            assert forall|l: u32, tail: Seq<u8>|
                !(l <= 0x7FFF_FFFF && orig == #[trigger] (varint_wire(l) + tail)) by {
                if l <= 0x7FFF_FFFF && orig == varint_wire(l) + tail {
                    assert((l as i32) >= 0) by (bit_vector)
                        requires
                            l <= 0x7FFF_FFFF,
                    ;
                }
            }
            assert forall|l: u32, id: u32, rest: Seq<u8>|
                !(l <= 0x7FFF_FFFF && orig == #[trigger] (varint_wire(l) + (u32_be(id)
                    + rest))) by {
                if l <= 0x7FFF_FFFF && orig == varint_wire(l) + (u32_be(id) + rest) {
                    assert((l as i32) >= 0) by (bit_vector)
                        requires
                            l <= 0x7FFF_FFFF,
                    ;
                }
            }
        }
        return Err(BukrsError::InvalidEncoding);
    }
    if buf_len(src) < 4 {
        proof {
            assert forall|l: u32, id: u32, rest: Seq<u8>|
                !(l <= 0x7FFF_FFFF && orig == #[trigger] (varint_wire(l) + (u32_be(id)
                    + rest))) by {
                if l <= 0x7FFF_FFFF && orig == varint_wire(l) + (u32_be(id) + rest) {
                    assert(after_varint == u32_be(id) + rest);
                }
            }
        }
        return Err(BukrsError::TruncatedInput);
    }
    let payload_id = get_u32(src);
    proof {
        assert forall|l: u32, id: u32, rest: Seq<u8>|
            l <= 0x7FFF_FFFF && orig == #[trigger] (varint_wire(l) + (u32_be(id) + rest))
            implies packet_size == l as i32 && payload_id == id && contents(*src) == rest by {
            assert(packet_size == l as i32 && after_varint == u32_be(id) + rest);
            assert(after_varint =~= after_varint.take(4) + after_varint.skip(4));
            lemma_concat_parts(after_varint.take(4), after_varint.skip(4), u32_be(id), rest);
            lemma_u32_be_injective(payload_id, id);
            assert((l as i32) as usize == l as usize) by (bit_vector)
                requires
                    l <= 0x7FFF_FFFF,
            ;
        }
        assert forall|l: u32, tail: Seq<u8>|
            !(l <= 0x7FFF_FFFF && orig == #[trigger] (varint_wire(l) + tail) && tail.len()
                < 4) by {
            if l <= 0x7FFF_FFFF && orig == varint_wire(l) + tail {
                assert(after_varint == tail);
            }
        }
        let k1 = choose|k: int| 1 <= k <= 5 && k <= orig.len() && after_varint == orig.skip(k);
        assert(contents(*src) =~= orig.skip(k1 + 4));
        assert(packet_size as usize <= 0x7FFF_FFFF);
    }
    Ok((packet_size as usize, payload_id))
}

/// The wire codec: frames a correlated packet outbound and, streaming-safe,
/// recovers frames from an accumulating inbound buffer.
pub struct Codec;

impl Codec {
    /// Appends one whole frame for `event` to `dst`.  It succeeds exactly
    /// when the packet can be framed, and on failure leaves `dst` alone.
    pub fn encode(&mut self, event: BukrsPacketData, dst: &mut BytesMut) -> (r: Result<
        (),
        BukrsError,
    >)
        ensures
            r is Ok <==> frame_fits(event.event.deep_view()),
            r is Ok ==> contents(*final(dst)) == contents(*old(dst)) + frame_wire(
                spec_id(event.payload_id),
                event.event.deep_view(),
            ),
            r is Err ==> contents(*final(dst)) == contents(*old(dst)) && r == Err::<
                (),
                BukrsError,
            >(BukrsError::InvalidEncoding),
    {
        let mut payload = buf_new();
        match event.event.encode_payload(&mut payload) {
            Ok(()) => {},
            Err(e) => {
                return Err(e);
            },
        }
        let payload_id = match event.payload_id {
            None => 0,
            Some(i) => i,
        };
        match encode_header(dst, &payload, payload_id) {
            Ok(()) => {},
            Err(e) => {
                return Err(e);
            },
        }
        put_buf(dst, payload);
        proof {
            assert(contents(*dst) =~= contents(*old(dst)) + frame_wire(
                spec_id(event.payload_id),
                event.event.deep_view(),
            ));
        }
        Ok(())
    }

    /// Tries to decode one frame from the front of `src`.
    ///
    /// With less than a whole frame buffered it reports `Ok(None)` and
    /// leaves `src` untouched, so a later call can retry from the same
    /// position once more bytes have arrived.  Once a whole well-formed
    /// frame is buffered it consumes exactly that frame and yields the
    /// packet with its correlation id.  A whole frame that is malformed, or
    /// whose tag no registered shape uses, is consumed and reported as a
    /// typed error; the connection survives and later frames can still be
    /// read.
    pub fn decode(&mut self, src: &mut BytesMut) -> (r: Result<
        Option<BukrsPacketData>,
        BukrsError,
    >)
        ensures
            (r matches Ok(d) && d is None) ==> contents(*final(src)) == contents(*old(src)),
            forall|id: u32, m: PacketV, rest: Seq<u8>|
                frame_fits(m) && contents(*old(src)) == #[trigger] (frame_wire(id, m) + rest)
                    ==> (r matches Ok(d) && d matches Some(pd) && pd.event.deep_view() == m
                    && pd.payload_id == (if id == 0 {
                    Option::<u32>::None
                } else {
                    Option::<u32>::Some(id)
                }) && contents(*final(src)) == rest),
            forall|id: u32, m: PacketV, k: int|
                frame_fits(m) && 0 <= k < frame_wire(id, m).len() && contents(*old(src))
                    == #[trigger] frame_wire(id, m).take(k) ==> (r matches Ok(d) && d is
                    None),
            r matches Ok(d) ==> (d matches Some(pd) ==> frame_fits(pd.event.deep_view())),
            r is Err ==> contents(*old(src)).len() >= 6,
    {
        let ghost orig = contents(*src);
        let mut read_buffer = clone_buf(src);
        if buf_len(&read_buffer) < 6 {
            proof {
                assert forall|id: u32, m: PacketV, rest: Seq<u8>|
                    !(frame_fits(m) && orig == #[trigger] (frame_wire(id, m) + rest)) by {
                    if frame_fits(m) && orig == frame_wire(id, m) + rest {
                        lemma_frame_split(orig, id, m, rest);
                    }
                }
            }
            return Ok(None);
        }
        let hdr = decode_header(&mut read_buffer);
        let ghost rb_after = contents(read_buffer);
        let (remaining_length, payload_id) = match hdr {
            Ok(h) => h,
            Err(e) => {
                proof {
                    assert forall|id: u32, m: PacketV, rest: Seq<u8>|
                        !(frame_fits(m) && orig == #[trigger] (frame_wire(id, m) + rest)) by {
                        if frame_fits(m) && orig == frame_wire(id, m) + rest {
                            lemma_frame_split(orig, id, m, rest);
                        }
                    }
                }
                if matches!(e, BukrsError::TruncatedInput) {
                    return Ok(None);
                }
                proof {
                    assert forall|id: u32, m: PacketV, k: int|
                        !(frame_fits(m) && 0 <= k < frame_wire(id, m).len() && orig
                            == #[trigger] frame_wire(id, m).take(k)) by {
                        if frame_fits(m) && 0 <= k < frame_wire(id, m).len() && orig
                            == frame_wire(id, m).take(k) {
                            lemma_frame_prefix_split(orig, id, m, k);
                        }
                    }
                }
                return Err(e);
            },
        };
        if buf_len(&read_buffer) < remaining_length {
            proof {
                assert forall|id: u32, m: PacketV, rest: Seq<u8>|
                    !(frame_fits(m) && orig == #[trigger] (frame_wire(id, m) + rest)) by {
                    if frame_fits(m) && orig == frame_wire(id, m) + rest {
                        lemma_frame_split(orig, id, m, rest);
                        assert(rb_after == payload_wire(m) + rest);
                    }
                }
            }
            return Ok(None);
        }
        let header_len = buf_len(src) - buf_len(&read_buffer);
        proof {
            let k = choose|k: int|
                2 <= k <= 9 && k <= orig.len() && rb_after == orig.skip(k);
            assert(header_len == k);
        }
        advance(src, header_len);
        proof {
            assert(contents(*src) =~= rb_after);
        }
        let mut payload = split_to(src, remaining_length);
        let ghost payload_bytes = contents(payload);
        let ghost src_rest = contents(*src);
        proof {
            // a complete candidate frame fixes every piece seen so far
            assert forall|id: u32, m: PacketV, rest: Seq<u8>|
                frame_fits(m) && orig == #[trigger] (frame_wire(id, m) + rest) implies
                remaining_length == payload_wire(m).len() && payload_id == id && payload_bytes
                == payload_wire(m) + Seq::<u8>::empty() && src_rest == rest by {
                lemma_frame_split(orig, id, m, rest);
                assert(remaining_length == payload_wire(m).len() && payload_id == id && rb_after
                    == payload_wire(m) + rest);
                lemma_take_concat(payload_wire(m), rest, payload_wire(m).len() as int);
                assert(payload_bytes =~= payload_wire(m) + Seq::<u8>::empty());
                assert(src_rest =~= rest);
            }
            // a prefix candidate would have stopped at the length check
            assert forall|id: u32, m: PacketV, k: int|
                !(frame_fits(m) && 0 <= k < frame_wire(id, m).len() && orig
                    == #[trigger] frame_wire(id, m).take(k)) by {
                if frame_fits(m) && 0 <= k < frame_wire(id, m).len() && orig == frame_wire(
                    id,
                    m,
                ).take(k) {
                    lemma_frame_prefix_split(orig, id, m, k);
                }
            }
        }
        let packet = match Packet::decode_payload(&mut payload) {
            Ok(p) => p,
            Err(e) => {
                let mapped = match e {
                    BukrsError::UnknownPacketType => BukrsError::UnknownPacketType,
                    _ => BukrsError::InvalidEncoding,
                };
                return Err(mapped);
            },
        };
        if buf_len(&payload) > 0 {
            return Err(BukrsError::InvalidEncoding);
        }
        let payload_id_opt = if payload_id == 0 {
            None
        } else {
            Some(payload_id)
        };
        proof {
            assert(payload_wire(packet.deep_view()).len() == remaining_length);
        }
        Ok(Some(BukrsPacketData { payload_id: payload_id_opt, event: packet }))
    }
}

} // verus!
