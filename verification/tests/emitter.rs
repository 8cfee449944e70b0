use std::cell::RefCell;

use socketioxide_emitter::{Driver, EmitError, IoEmitter};

/// A transport stub that records every publish and succeeds.
struct RecordingDriver {
    calls: RefCell<Vec<(String, Vec<u8>)>>,
}

impl RecordingDriver {
    fn new() -> Self {
        RecordingDriver { calls: RefCell::new(Vec::new()) }
    }
    fn take(&self) -> Vec<(String, Vec<u8>)> {
        self.calls.borrow().clone()
    }
}

impl Driver for RecordingDriver {
    type Error = String;
    fn emit(&self, channel: String, data: Vec<u8>) -> Result<(), String> {
        self.calls.borrow_mut().push((channel, data));
        Ok(())
    }
}

/// A transport stub that always fails.
struct FailingDriver;

impl Driver for FailingDriver {
    type Error = String;
    fn emit(&self, _channel: String, _data: Vec<u8>) -> Result<(), String> {
        Err("transport down".to_string())
    }
}

/// A message the payload encoders cannot represent.
struct Unserializable;

impl serde::Serialize for Unserializable {
    fn serialize<S: serde::Serializer>(&self, _s: S) -> Result<S::Ok, S::Error> {
        Err(<S::Error as serde::ser::Error>::custom("cannot encode"))
    }
}

/// A minimal, independently written MessagePack reader covering exactly the
/// forms the wire format uses: a consumer-side simulation.
struct Reader<'a> {
    b: &'a [u8],
    i: usize,
}

impl<'a> Reader<'a> {
    fn new(b: &'a [u8]) -> Self {
        Reader { b, i: 0 }
    }
    fn byte(&mut self) -> u8 {
        let v = self.b[self.i];
        self.i += 1;
        v
    }
    fn u8(&mut self) -> u8 {
        let m = self.byte();
        if m < 0x80 {
            m
        } else {
            assert_eq!(m, 0xcc);
            self.byte()
        }
    }
    fn be16(&mut self) -> usize {
        let h = self.byte() as usize;
        let l = self.byte() as usize;
        h * 256 + l
    }
    fn arr(&mut self) -> usize {
        let m = self.byte();
        if (0x90..0xa0).contains(&m) {
            (m - 0x90) as usize
        } else {
            assert_eq!(m, 0xdc);
            self.be16()
        }
    }
    fn str_len(&mut self) -> usize {
        let m = self.byte();
        if (0xa0..0xc0).contains(&m) {
            (m - 0xa0) as usize
        } else if m == 0xd9 {
            self.byte() as usize
        } else {
            assert_eq!(m, 0xda);
            self.be16()
        }
    }
    fn text(&mut self) -> String {
        let n = self.str_len();
        let s = std::str::from_utf8(&self.b[self.i..self.i + n]).unwrap().to_string();
        self.i += n;
        s
    }
    fn is_nil(&mut self) -> bool {
        if self.b[self.i] == 0xc0 {
            self.i += 1;
            true
        } else {
            false
        }
    }
    fn str_list(&mut self) -> Vec<String> {
        let n = self.arr();
        (0..n).map(|_| self.text()).collect()
    }
    fn byte_list(&mut self) -> Vec<u8> {
        let n = self.arr();
        (0..n).map(|_| self.u8()).collect()
    }
}

/// One decoded request envelope, as a conformant consumer sees it.
struct Decoded {
    code: u8,
    /// For a broadcast: namespace, packet type, payload tag, payload bytes.
    packet: Option<(String, u8, u8, Vec<u8>)>,
    /// For a room-membership edit: the rooms, in wire order.
    rooms: Option<Vec<String>>,
    flags: u8,
    incl: Vec<String>,
    excl: Vec<String>,
}

fn decode(data: &[u8]) -> Decoded {
    let mut r = Reader::new(data);
    assert_eq!(r.arr(), 6);
    assert_eq!(r.text().len(), 16); // node id
    assert_eq!(r.text().len(), 16); // request id
    let code = r.u8();
    let packet = if r.is_nil() {
        None
    } else {
        assert_eq!(r.arr(), 5);
        let ns = r.text();
        let ptype = r.u8();
        assert_eq!(r.arr(), 3);
        let tag = r.u8();
        let payload = r.byte_list();
        assert!(r.is_nil()); // no binary attachments in these scenarios
        assert!(r.is_nil()); // no acknowledgement id
        assert!(r.is_nil()); // no error message
        Some((ns, ptype, tag, payload))
    };
    let rooms = if r.is_nil() { None } else { Some(r.str_list()) };
    assert_eq!(r.arr(), 5);
    let flags = r.u8();
    let incl = r.str_list();
    let excl = r.str_list();
    assert!(r.is_nil()); // no sender id
    assert!(r.is_nil()); // no target server id
    assert_eq!(r.i, data.len());
    Decoded { code, packet, rooms, flags, incl, excl }
}

/// Which of the given connections a decoded command targets, by room
/// membership: inclusion first (empty means all), exclusion after.
fn targeted<'a>(d: &Decoded, conns: &[(&'a str, &[&str])]) -> Vec<&'a str> {
    conns
        .iter()
        .filter(|(_, rooms)| {
            d.incl.is_empty() || d.incl.iter().any(|r| rooms.contains(&r.as_str()))
        })
        .filter(|(_, rooms)| !d.excl.iter().any(|r| rooms.contains(&r.as_str())))
        .map(|(name, _)| *name)
        .collect()
}

fn strs(v: &[&str]) -> Vec<String> {
    v.iter().map(|s| s.to_string()).collect()
}

#[test]
fn channel_default() {
    assert_eq!(IoEmitter::new().get_channel(), "socket.io-request#/#");
}

#[test]
fn channel_custom_prefix_and_namespace() {
    let e = IoEmitter::new().of("/admin").prefix("custom");
    assert_eq!(e.get_channel(), "custom-request#/admin#");
}

#[test]
fn channel_ignores_targeting() {
    let e = IoEmitter::new().to(strs(&["room1"])).except(strs(&["room2"]));
    assert_eq!(e.get_channel(), "socket.io-request#/#");
}

#[test]
fn to_accumulates_rooms() {
    let d = RecordingDriver::new();
    IoEmitter::new()
        .to(strs(&["a"]))
        .to(strs(&["b"]))
        .disconnect(&d)
        .unwrap();
    let calls = d.take();
    assert_eq!(calls.len(), 1);
    let dec = decode(&calls[0].1);
    assert_eq!(dec.incl, vec!["a".to_string(), "b".to_string()]);
}

#[test]
fn within_is_alias_for_to() {
    let d1 = RecordingDriver::new();
    let d2 = RecordingDriver::new();
    IoEmitter::new().to(strs(&["a"])).within(strs(&["b"])).disconnect(&d1).unwrap();
    IoEmitter::new().to(strs(&["a"])).to(strs(&["b"])).disconnect(&d2).unwrap();
    let dec1 = decode(&d1.take()[0].1);
    let dec2 = decode(&d2.take()[0].1);
    assert_eq!(dec1.incl, dec2.incl);
    assert_eq!(dec1.excl, dec2.excl);
}

#[test]
fn emit_encode_failure_never_contacts_transport() {
    let d = RecordingDriver::new();
    let res = IoEmitter::new().emit("test", &Unserializable, &d);
    assert!(matches!(res, Err(EmitError::Parser(_))));
    assert_eq!(d.take().len(), 0);
}

#[test]
fn emit_default_reaches_two_consumers() {
    let d = RecordingDriver::new();
    assert!(IoEmitter::new().emit("test", &2, &d).is_ok());
    let calls = d.take();
    assert_eq!(calls.len(), 1);
    let (chan, data) = &calls[0];
    // two independent consumer simulations, both subscribed to the default
    // channel, each decode the same published bytes
    assert_eq!(chan, "socket.io-request#/#");
    for _consumer in 0..2 {
        let dec = decode(data);
        assert_eq!(dec.code, 0);
        assert_eq!(dec.flags, 2);
        let (ns, ptype, tag, payload) = dec.packet.expect("broadcast carries a packet");
        assert_eq!(ns, "/");
        assert_eq!(ptype, 2);
        assert_eq!(tag, 0);
        // the text payload decodes to the value 2 tagged with event "test"
        assert_eq!(String::from_utf8(payload).unwrap(), r#"["test",2]"#);
    }
}

#[test]
fn emit_msgpack_payload() {
    let d = RecordingDriver::new();
    assert!(IoEmitter::new_msgpack().emit("test", &2, &d).is_ok());
    let calls = d.take();
    let dec = decode(&calls[0].1);
    let (ns, ptype, tag, payload) = dec.packet.expect("broadcast carries a packet");
    assert_eq!(ns, "/");
    assert_eq!(ptype, 2);
    assert_eq!(tag, 1);
    // msgpack of ["test", 2]
    assert_eq!(payload, vec![0x92, 0xa4, b't', b'e', b's', b't', 0x02]);
}

#[test]
fn emit_targets_included_minus_excluded() {
    let d = RecordingDriver::new();
    assert!(
        IoEmitter::new()
            .to(strs(&["room1"]))
            .except(strs(&["room2"]))
            .emit("test", &"hello", &d)
            .is_ok()
    );
    let calls = d.take();
    let dec = decode(&calls[0].1);
    assert_eq!(dec.incl, vec!["room1".to_string()]);
    assert_eq!(dec.excl, vec!["room2".to_string()]);
    let conns: [(&str, &[&str]); 3] = [
        ("c1", &["room1"]),
        ("c2", &["room1", "room2"]),
        ("c3", &["room3"]),
    ];
    assert_eq!(targeted(&dec, &conns), vec!["c1"]);
}

#[test]
fn disconnect_reaches_whole_namespace() {
    let d = RecordingDriver::new();
    IoEmitter::new().disconnect(&d).unwrap();
    let calls = d.take();
    assert_eq!(calls[0].0, "socket.io-request#/#");
    let dec = decode(&calls[0].1);
    assert_eq!(dec.code, 2);
    assert!(dec.packet.is_none());
    assert!(dec.rooms.is_none());
    // no targeting: every connection of the namespace is selected
    let conns: [(&str, &[&str]); 3] = [("c1", &["room1"]), ("c2", &[]), ("c3", &["room3"])];
    assert_eq!(targeted(&dec, &conns), vec!["c1", "c2", "c3"]);
}

#[test]
fn disconnect_of_namespace_stays_on_its_channel() {
    let d = RecordingDriver::new();
    IoEmitter::new().of("/admin").disconnect(&d).unwrap();
    let calls = d.take();
    // consumers subscribe per namespace: only a subscriber of the /admin
    // channel sees this command
    assert_eq!(calls[0].0, "socket.io-request#/admin#");
    assert_ne!(calls[0].0, IoEmitter::new().get_channel());
    let dec = decode(&calls[0].1);
    assert_eq!(dec.code, 2);
}

#[test]
fn join_and_leave_carry_ordered_rooms() {
    let d = RecordingDriver::new();
    IoEmitter::new().to(strs(&["room1", "room2"])).join(strs(&["room4", "room3"]), &d).unwrap();
    IoEmitter::new().leave(strs(&["room4"]), &d).unwrap();
    let calls = d.take();
    let add = decode(&calls[0].1);
    assert_eq!(add.code, 4);
    // the room argument keeps its order exactly
    assert_eq!(add.rooms, Some(vec!["room4".to_string(), "room3".to_string()]));
    assert_eq!(add.incl, vec!["room1".to_string(), "room2".to_string()]);
    let del = decode(&calls[1].1);
    assert_eq!(del.code, 5);
    assert_eq!(del.rooms, Some(vec!["room4".to_string()]));
}

#[test]
fn transport_errors_propagate_unchanged() {
    let res = IoEmitter::new().disconnect(&FailingDriver);
    assert_eq!(res, Err("transport down".to_string()));
    let res = IoEmitter::new().emit("test", &2, &FailingDriver);
    assert!(matches!(res, Err(EmitError::Driver(e)) if e == "transport down"));
}
