use bukrs::bytebuf::{buf_new, buf_len, buf_to_vec, buf_from_vec, put_u32, put_slice, put_u8};
use bukrs::errors::BukrsError;
use bukrs::invfx::{InventorySize, InvfxId, InvList, InvSlot, ItemStack, slot_2_xy, xy_2_slot};
use bukrs::net::{cast_packet, BukrsPacket, BukrsPacketData, Codec, Packet};
use bukrs::packets::{
    BukrsReqAPI, BukrsResAPI, BukrsReqCreateInvList, BukrsResOnlinePlayers,
    BukrsReqCreateInventory, BukrsResPlayerData,
};
use bukrs::player::{PlayerId, PlayerData, UUID};
use bukrs::typecodec::BukrsType;
use bukrs::varint::{write_varint, read_varint};

#[test]
fn codec_test() {
    let mut buf = buf_new();

    let mut codec = Codec;
    codec
        .encode(
            BukrsPacketData {
                payload_id: Some(1024),
                event: Packet::ReqCreateInvList(BukrsReqCreateInvList {
                    inv_id: InvfxId(1024),
                    list: InvList { id: InvfxId(1024), data: vec![] },
                }),
            },
            &mut buf,
        )
        .unwrap();
    if let Some(item) = codec.decode(&mut buf).unwrap() {
        println!("{:?}", item.event);
    }
}

#[test]
fn test_slot_conversion() {
    println!("{:?}", slot_2_xy(0b1011000))
}

#[test]
fn slot_conversion_round_trips() {
    for slot in 0u8..=0xFF {
        assert_eq!(xy_2_slot(slot_2_xy(slot)), slot);
    }
    assert_eq!(slot_2_xy(0), (1, 1));
    assert_eq!(xy_2_slot((1, 1)), 0);
}

#[test]
fn frame_bytes_for_a_no_field_packet() {
    // a no-field packet framed with correlation id 7:
    // varint(payload length) | id | tag length | tag bytes
    let mut payload = buf_new();
    put_u32(&mut payload, 4);
    put_slice(&mut payload, "Ping".as_bytes());
    let mut frame = buf_new();
    write_varint(buf_len(&payload) as i32, &mut frame);
    put_u32(&mut frame, 7);
    put_slice(&mut frame, &buf_to_vec(&payload));
    assert_eq!(
        buf_to_vec(&frame),
        vec![8, 0, 0, 0, 7, 0, 0, 0, 4, b'P', b'i', b'n', b'g'],
    );

    // reading the same bytes back recovers id 7, tag "Ping", no field data
    let mut back = buf_from_vec(buf_to_vec(&frame));
    assert_eq!(read_varint(&mut back).unwrap(), 8);
    assert_eq!(bukrs::bytebuf::get_u32(&mut back), 7);
    let tag = String::decode(&mut back).unwrap();
    assert_eq!(tag, "Ping");
    assert_eq!(buf_len(&back), 0);
}

#[test]
fn unknown_tag_is_a_typed_error() {
    // a whole frame whose tag no registered shape uses
    let mut frame = buf_new();
    write_varint(8, &mut frame);
    put_u32(&mut frame, 7);
    put_u32(&mut frame, 4);
    put_slice(&mut frame, "Ping".as_bytes());
    let mut codec = Codec;
    assert_eq!(codec.decode(&mut frame), Err(BukrsError::UnknownPacketType));
}

#[test]
fn partial_frame_waits_for_more_bytes() {
    let mut whole = buf_new();
    let mut codec = Codec;
    codec
        .encode(
            BukrsPacketData {
                payload_id: Some(0x01020304),
                event: Packet::ReqAPI(BukrsReqAPI {}),
            },
            &mut whole,
        )
        .unwrap();
    let bytes = buf_to_vec(&whole);

    for cut in 0..bytes.len() {
        let mut partial = buf_from_vec(bytes[..cut].to_vec());
        assert_eq!(codec.decode(&mut partial), Ok(None));
        assert_eq!(buf_len(&partial), cut, "a partial frame must stay buffered");
        // appending the missing bytes completes the frame
        put_slice(&mut partial, &bytes[cut..]);
        let got = codec.decode(&mut partial).unwrap().unwrap();
        assert_eq!(got.payload_id, Some(0x01020304));
        assert_eq!(got.event, Packet::ReqAPI(BukrsReqAPI {}));
        assert_eq!(buf_len(&partial), 0);
    }
}

#[test]
fn two_frames_in_one_buffer_decode_in_order() {
    let mut buf = buf_new();
    let mut codec = Codec;
    codec
        .encode(
            BukrsPacketData { payload_id: Some(1), event: Packet::ResAPI(BukrsResAPI { api_id: 5 }) },
            &mut buf,
        )
        .unwrap();
    codec
        .encode(
            BukrsPacketData { payload_id: None, event: Packet::ReqAPI(BukrsReqAPI {}) },
            &mut buf,
        )
        .unwrap();
    let first = codec.decode(&mut buf).unwrap().unwrap();
    assert_eq!(first.payload_id, Some(1));
    assert_eq!(first.event, Packet::ResAPI(BukrsResAPI { api_id: 5 }));
    let second = codec.decode(&mut buf).unwrap().unwrap();
    assert_eq!(second.payload_id, None);
    assert_eq!(second.event, Packet::ReqAPI(BukrsReqAPI {}));
    assert_eq!(codec.decode(&mut buf), Ok(None));
}

#[test]
fn zero_correlation_id_decodes_as_none() {
    let mut buf = buf_new();
    let mut codec = Codec;
    codec
        .encode(
            BukrsPacketData { payload_id: None, event: Packet::ResAPI(BukrsResAPI { api_id: 9 }) },
            &mut buf,
        )
        .unwrap();
    let got = codec.decode(&mut buf).unwrap().unwrap();
    assert_eq!(got.payload_id, None);
}

#[test]
fn rich_packets_round_trip_through_the_codec() {
    let mut codec = Codec;
    let packets = vec![
        Packet::ResOnlinePlayers(BukrsResOnlinePlayers {
            players: vec![PlayerId(1), PlayerId(2), PlayerId(3)],
        }),
        Packet::ReqCreateInventory(BukrsReqCreateInventory {
            name: "BukkitRs".to_string(),
            size: InventorySize::Inv27,
        }),
        Packet::ResPlayerData(BukrsResPlayerData {
            data: PlayerData {
                id: PlayerId(77),
                name: "steve".to_string(),
                uuid: UUID { lsb: u64::MAX, msb: 1 },
            },
        }),
        Packet::ReqCreateInvList(BukrsReqCreateInvList {
            inv_id: InvfxId(3),
            list: InvList {
                id: InvfxId(3),
                data: vec![InvSlot {
                    slot: 4,
                    item: ItemStack { name: "pick".to_string(), material: "iron".to_string() },
                }],
            },
        }),
    ];
    for p in packets {
        let mut buf = buf_new();
        codec
            .encode(BukrsPacketData { payload_id: Some(42), event: p.clone() }, &mut buf)
            .unwrap();
        let got = codec.decode(&mut buf).unwrap().unwrap();
        assert_eq!(got.event, p);
        assert_eq!(got.payload_id, Some(42));
        assert_eq!(buf_len(&buf), 0);
    }
}

#[test]
fn inventory_size_round_trips_and_rejects_bad_bytes() {
    for s in [
        InventorySize::Inv9,
        InventorySize::Inv18,
        InventorySize::Inv27,
        InventorySize::Inv36,
        InventorySize::Inv45,
        InventorySize::Inv54,
    ] {
        let mut b = buf_new();
        s.encode(&mut b).unwrap();
        assert_eq!(InventorySize::decode(&mut b).unwrap(), s);
    }
    let mut b = buf_new();
    put_u8(&mut b, 7);
    assert_eq!(InventorySize::decode(&mut b), Err(BukrsError::InvalidEncoding));
}

#[test]
fn cast_packet_is_checked() {
    let p = Packet::ResAPI(BukrsResAPI { api_id: 11 });
    let hit: Option<BukrsResAPI> = cast_packet(&p);
    assert_eq!(hit, Some(BukrsResAPI { api_id: 11 }));
    let miss: Option<BukrsReqAPI> = cast_packet(&p);
    assert_eq!(miss, None);
}

#[test]
fn packet_id_names_the_shape() {
    assert_eq!(Packet::ReqAPI(BukrsReqAPI {}).id(), "BukrsReqAPI");
    let shape = BukrsResAPI { api_id: 0 };
    assert_eq!(shape.id(), "BukrsResAPI");
}
