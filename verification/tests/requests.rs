use socketioxide_emitter::options::{BroadcastFlags, BroadcastOptions};
use socketioxide_emitter::requests::{serialize, EncodedValue, Packet, Request, RequestType};
use socketioxide_emitter::sid::{Sid, Uid};

fn sid16(s: &str) -> Sid {
    Sid::from_ascii(s.as_bytes()).unwrap()
}

#[test]
fn request_broadcast_serde() {
    let packet = Packet::event("foo", EncodedValue::Str("bar".into(), None));
    let opts = BroadcastOptions::new(Sid::new());
    let req = Request::new(RequestType::Broadcast(packet), opts);
    let serialized = req.serialize();
    assert_eq!(serialized, serialized);
}

#[test]
fn request_add_sockets_serde() {
    let opts = BroadcastOptions::new(Sid::new());
    let rooms = vec!["foo".into(), "bar".into()];
    let req = Request::new(RequestType::AddSockets(rooms), opts);
    let serialized = req.serialize();
    assert_eq!(serialized, serialized);
}

#[test]
fn request_del_sockets_serde() {
    let opts = BroadcastOptions::new(Sid::new());
    let rooms = vec!["foo".into(), "bar".into()];
    let req = Request::new(RequestType::DelSockets(rooms), opts);
    let serialized = req.serialize();
    assert_eq!(serialized, serialized);
}

#[test]
fn request_disconnect_sockets_serde() {
    let opts = BroadcastOptions::new(Sid::new());
    let req = Request::new(RequestType::DisconnectSockets, opts);
    let serialized = req.serialize();
    assert_eq!(serialized, serialized);
}

#[test]
fn disconnect_request_exact_bytes() {
    let mut opts = BroadcastOptions::default();
    opts.add_flag(BroadcastFlags::Broadcast);
    let req = Request {
        node_id: Uid::from_sid(sid16("AAAAAAAAAAAAAAAA")),
        id: sid16("BBBBBBBBBBBBBBBB"),
        kind: RequestType::DisconnectSockets,
        opts,
    };
    let mut expected: Vec<u8> = vec![0x96, 0xb0];
    expected.extend_from_slice(b"AAAAAAAAAAAAAAAA");
    expected.push(0xb0);
    expected.extend_from_slice(b"BBBBBBBBBBBBBBBB");
    // code 2, nil packet, nil rooms, then options [flags=2, [], [], nil, nil]
    expected.extend_from_slice(&[0x02, 0xc0, 0xc0, 0x95, 0x02, 0x90, 0x90, 0xc0, 0xc0]);
    assert_eq!(req.serialize(), expected);
}

/// The reference encoding of an envelope: the upstream msgpack serializer
/// applied to the same fields, as a six-element tuple over the upstream types.
fn reference_bytes(
    node: &str,
    id: &str,
    code: u8,
    packet: Option<&socketioxide_core::packet::Packet>,
    rooms: Option<Vec<socketioxide_core::adapter::Room>>,
    opts: &socketioxide_core::adapter::BroadcastOptions,
) -> Vec<u8> {
    let node: socketioxide_core::Uid = node.parse().unwrap();
    let id: socketioxide_core::Sid = id.parse().unwrap();
    rmp_serde::to_vec(&(node, id, code, packet, rooms, opts)).unwrap()
}

fn reference_opts(
    rooms: &[&str],
    except: &[&str],
) -> socketioxide_core::adapter::BroadcastOptions {
    let mut o = socketioxide_core::adapter::BroadcastOptions::default();
    o.add_flag(socketioxide_core::adapter::BroadcastFlags::Broadcast);
    for r in rooms {
        o.rooms.push(socketioxide_core::adapter::Room::from(r.to_string()));
    }
    for r in except {
        o.except.push(socketioxide_core::adapter::Room::from(r.to_string()));
    }
    o
}

fn library_opts(rooms: &[&str], except: &[&str]) -> BroadcastOptions {
    let mut o = BroadcastOptions::default();
    o.add_flag(BroadcastFlags::Broadcast);
    o.extend_rooms(rooms.iter().map(|r| r.to_string()).collect());
    o.extend_except(except.iter().map(|r| r.to_string()).collect());
    o
}

#[test]
fn disconnect_request_matches_reference_encoder() {
    let req = Request {
        node_id: Uid::from_sid(sid16("aaaaaaaaaaaaaaaa")),
        id: sid16("bbbbbbbbbbbbbbbb"),
        kind: RequestType::DisconnectSockets,
        opts: library_opts(&["room1"], &["room2"]),
    };
    let expected = reference_bytes(
        "aaaaaaaaaaaaaaaa",
        "bbbbbbbbbbbbbbbb",
        2,
        None,
        None,
        &reference_opts(&["room1"], &["room2"]),
    );
    assert_eq!(req.serialize(), expected);
}

#[test]
fn add_sockets_request_matches_reference_encoder() {
    let req = Request {
        node_id: Uid::from_sid(sid16("cccccccccccccccc")),
        id: sid16("dddddddddddddddd"),
        kind: RequestType::AddSockets(vec!["foo".into(), "bar".into()]),
        opts: library_opts(&["room1"], &[]),
    };
    let expected = reference_bytes(
        "cccccccccccccccc",
        "dddddddddddddddd",
        4,
        None,
        Some(vec!["foo".into(), "bar".into()]),
        &reference_opts(&["room1"], &[]),
    );
    assert_eq!(req.serialize(), expected);
}

#[test]
fn del_sockets_request_matches_reference_encoder() {
    let req = Request {
        node_id: Uid::from_sid(sid16("eeeeeeeeeeeeeeee")),
        id: sid16("ffffffffffffffff"),
        kind: RequestType::DelSockets(vec!["foo".into()]),
        opts: library_opts(&[], &[]),
    };
    let expected = reference_bytes(
        "eeeeeeeeeeeeeeee",
        "ffffffffffffffff",
        5,
        None,
        Some(vec!["foo".into()]),
        &reference_opts(&[], &[]),
    );
    assert_eq!(req.serialize(), expected);
}

#[test]
fn broadcast_request_matches_reference_encoder() {
    let req = Request {
        node_id: Uid::from_sid(sid16("gggggggggggggggg")),
        id: sid16("hhhhhhhhhhhhhhhh"),
        kind: RequestType::Broadcast(Packet::event(
            "/chat",
            EncodedValue::Str("[\"test\",2]".into(), None),
        )),
        opts: library_opts(&["room1"], &[]),
    };
    let value = socketioxide_core::Value::Str("[\"test\",2]".into(), None);
    let packet = socketioxide_core::packet::Packet {
        inner: socketioxide_core::packet::PacketData::Event(value, None),
        ns: "/chat".into(),
    };
    let expected = reference_bytes(
        "gggggggggggggggg",
        "hhhhhhhhhhhhhhhh",
        0,
        Some(&packet),
        None,
        &reference_opts(&["room1"], &[]),
    );
    assert_eq!(req.serialize(), expected);
}

#[test]
fn broadcast_with_attachments_matches_reference_encoder() {
    let req = Request {
        node_id: Uid::from_sid(sid16("gggggggggggggggg")),
        id: sid16("hhhhhhhhhhhhhhhh"),
        kind: RequestType::Broadcast(Packet::event(
            "/",
            EncodedValue::Str("[\"test\"]".into(), Some(vec![vec![1, 2, 3], vec![4]])),
        )),
        opts: library_opts(&[], &[]),
    };
    let bins = vec![bytes::Bytes::from(vec![1u8, 2, 3]), bytes::Bytes::from(vec![4u8])];
    let value = socketioxide_core::Value::Str("[\"test\"]".into(), Some(bins.into()));
    let packet = socketioxide_core::packet::Packet {
        inner: socketioxide_core::packet::PacketData::Event(value, None),
        ns: "/".into(),
    };
    let expected = reference_bytes(
        "gggggggggggggggg",
        "hhhhhhhhhhhhhhhh",
        0,
        Some(&packet),
        None,
        &reference_opts(&[], &[]),
    );
    assert_eq!(req.serialize(), expected);
}

#[test]
fn long_room_names_match_reference_encoder() {
    // one room name beyond the fixstr limit, one beyond str8
    let mid = "r".repeat(40);
    let long = "q".repeat(300);
    let req = Request {
        node_id: Uid::from_sid(sid16("aaaaaaaaaaaaaaaa")),
        id: sid16("bbbbbbbbbbbbbbbb"),
        kind: RequestType::AddSockets(vec![mid.clone(), long.clone()]),
        opts: library_opts(&[], &[]),
    };
    let expected = reference_bytes(
        "aaaaaaaaaaaaaaaa",
        "bbbbbbbbbbbbbbbb",
        4,
        None,
        Some(vec![mid.into(), long.into()]),
        &reference_opts(&[], &[]),
    );
    assert_eq!(req.serialize(), expected);
}

#[test]
fn non_ascii_room_names_match_reference_encoder() {
    let room = "chippons froutés";
    let req = Request {
        node_id: Uid::from_sid(sid16("aaaaaaaaaaaaaaaa")),
        id: sid16("bbbbbbbbbbbbbbbb"),
        kind: RequestType::DisconnectSockets,
        opts: library_opts(&[room], &[]),
    };
    let expected = reference_bytes(
        "aaaaaaaaaaaaaaaa",
        "bbbbbbbbbbbbbbbb",
        2,
        None,
        None,
        &reference_opts(&[room], &[]),
    );
    assert_eq!(req.serialize(), expected);
}

#[test]
fn serialize_uses_fresh_random_identifiers() {
    let a = serialize(BroadcastOptions::default(), RequestType::DisconnectSockets);
    let b = serialize(BroadcastOptions::default(), RequestType::DisconnectSockets);
    // same shape and length, but the identifiers differ between requests
    assert_eq!(a.len(), b.len());
    assert_eq!(a[0], 0x96);
    assert_eq!(a[1], 0xb0);
    assert_ne!(a, b);
}

#[test]
fn sid_from_ascii_rejects_bad_input() {
    assert!(Sid::from_ascii(b"short").is_none());
    assert!(Sid::from_ascii(b"!!!!!!!!!!!!!!!!").is_none());
    assert!(Sid::from_ascii(b"AAAAAAAAAAAAAAAA").is_some());
}

#[test]
fn many_rooms_match_reference_encoder() {
    // more than fifteen rooms: the list needs a 16-bit array header
    let rooms: Vec<String> = (0..20).map(|i| format!("room{i}")).collect();
    let req = Request {
        node_id: Uid::from_sid(sid16("aaaaaaaaaaaaaaaa")),
        id: sid16("bbbbbbbbbbbbbbbb"),
        kind: RequestType::AddSockets(rooms.clone()),
        opts: library_opts(&[], &[]),
    };
    let expected = reference_bytes(
        "aaaaaaaaaaaaaaaa",
        "bbbbbbbbbbbbbbbb",
        4,
        None,
        Some(rooms.into_iter().map(Into::into).collect()),
        &reference_opts(&[], &[]),
    );
    assert_eq!(req.serialize(), expected);
}

#[test]
fn non_ascii_payload_matches_reference_encoder() {
    // payload bytes at and above 0x80 take the two-byte integer form
    let text = "[\"test\",\"é…\"]";
    let req = Request {
        node_id: Uid::from_sid(sid16("aaaaaaaaaaaaaaaa")),
        id: sid16("bbbbbbbbbbbbbbbb"),
        kind: RequestType::Broadcast(Packet::event("/", EncodedValue::Str(text.into(), None))),
        opts: library_opts(&[], &[]),
    };
    let value = socketioxide_core::Value::Str(text.into(), None);
    let packet = socketioxide_core::packet::Packet {
        inner: socketioxide_core::packet::PacketData::Event(value, None),
        ns: "/".into(),
    };
    let expected = reference_bytes(
        "aaaaaaaaaaaaaaaa",
        "bbbbbbbbbbbbbbbb",
        0,
        Some(&packet),
        None,
        &reference_opts(&[], &[]),
    );
    assert_eq!(req.serialize(), expected);
}
