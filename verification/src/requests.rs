//! The request envelope: one tagged command, targeting options and the two
//! identifiers, with its byte-exact wire form and a serializer proved against
//! it.
//!
//! The wire form is one six-element array: node identifier, request
//! identifier, the variant's single-byte code, the packet field (nil unless
//! the command broadcasts a payload), the rooms field (nil unless the command
//! edits room membership), and the targeting options. Decoders can tell from
//! the code alone which of the two optional fields to expect.
use vstd::prelude::*;
use vstd::utf8::encode_utf8;

use crate::options::{opts_bytes, write_opts, BroadcastOptions, OptsV};
use crate::sid::{sid_wf, Sid, Uid};
use crate::wire::{mp_arr_head, mp_bin_array, mp_byte_array, mp_nil, mp_str, mp_str_array, mp_u8,
    write_arr_head, write_bin_list, write_byte_array, write_nil, write_str, write_str_list,
    write_u8};

verus! {

/// Mathematical model of [`EncodedValue`].
pub ghost enum ValueV {
    /// A text payload with optional adjacent binary attachments.
    Str(Seq<char>, Option<Seq<Seq<u8>>>),
    /// A binary payload.
    Bytes(Seq<u8>),
}

/// A payload already encoded by one of the payload encoders: either text with
/// optional binary attachments, or one binary blob. Opaque to the envelope.
#[derive(Clone, Debug)]
pub enum EncodedValue {
    /// A text payload with optional adjacent binary attachments.
    Str(String, Option<Vec<Vec<u8>>>),
    /// A binary payload.
    Bytes(Vec<u8>),
}

impl View for EncodedValue {
    type V = ValueV;

    open spec fn view(&self) -> ValueV {
        match self {
            EncodedValue::Str(s, bins) => ValueV::Str(
                s@,
                match bins {
                    Some(b) => Some(b.deep_view()),
                    None => None,
                },
            ),
            EncodedValue::Bytes(b) => ValueV::Bytes(b@),
        }
    }
}

/// Wire form of the optional binary attachments: nil when absent, an array of
/// blobs when present.
pub open spec fn bins_bytes(bins: Option<Seq<Seq<u8>>>) -> Seq<u8> {
    match bins {
        None => mp_nil(),
        Some(l) => mp_bin_array(l),
    }
}

/// Wire form of a payload: a three-element array of a tag byte (0 for text,
/// 1 for binary), the payload bytes element by element, and the attachments.
pub open spec fn value_bytes(v: ValueV) -> Seq<u8> {
    match v {
        ValueV::Str(s, bins) => mp_arr_head(3) + mp_u8(0) + mp_byte_array(encode_utf8(s))
            + bins_bytes(bins),
        ValueV::Bytes(b) => mp_arr_head(3) + mp_u8(1) + mp_byte_array(b) + mp_nil(),
    }
}

/// Mathematical model of [`Packet`].
pub ghost struct PacketV {
    /// The namespace the event is sent in.
    pub ns: Seq<char>,
    /// The encoded payload.
    pub data: ValueV,
}

/// An event packet: the encoded payload and the namespace it is sent in.
#[derive(Clone, Debug)]
pub struct Packet {
    /// The namespace the event is sent in.
    pub ns: String,
    /// The encoded payload.
    pub data: EncodedValue,
}

impl View for Packet {
    type V = PacketV;

    open spec fn view(&self) -> PacketV {
        PacketV { ns: self.ns@, data: self.data@ }
    }
}

impl Packet {
    /// An event packet for the given namespace.
    pub fn event(ns: &str, data: EncodedValue) -> (r: Packet)
        ensures
            r@ == (PacketV { ns: ns@, data: data@ }),
    {
        Packet { ns: ns.to_owned(), data }
    }
}

/// Wire form of an event packet: a five-element array of namespace, the
/// event packet-type byte (2), the payload, and nil for the unused
/// acknowledgement and error fields.
pub open spec fn packet_bytes(p: PacketV) -> Seq<u8> {
    mp_arr_head(5) + mp_str(encode_utf8(p.ns)) + mp_u8(2) + value_bytes(p.data) + mp_nil()
        + mp_nil()
}

/// Mathematical model of [`RequestType`].
pub ghost enum KindV {
    /// Broadcast an event packet to the matching connections.
    Broadcast(PacketV),
    /// Disconnect the matching connections.
    DisconnectSockets,
    /// Add the matching connections to rooms, in the order given.
    AddSockets(Seq<Seq<char>>),
    /// Remove the matching connections from rooms, in the order given.
    DelSockets(Seq<Seq<char>>),
}

/// The command a request carries. Each variant holds only the data that
/// belongs to it.
#[derive(Clone, Debug)]
pub enum RequestType {
    /// Broadcast an event packet to the matching connections.
    Broadcast(Packet),
    /// Disconnect the matching connections.
    DisconnectSockets,
    /// Add the matching connections to the rooms, in the order given.
    AddSockets(Vec<String>),
    /// Remove the matching connections from the rooms, in the order given.
    DelSockets(Vec<String>),
}

impl View for RequestType {
    type V = KindV;

    open spec fn view(&self) -> KindV {
        match self {
            RequestType::Broadcast(p) => KindV::Broadcast(p@),
            RequestType::DisconnectSockets => KindV::DisconnectSockets,
            RequestType::AddSockets(r) => KindV::AddSockets(r.deep_view()),
            RequestType::DelSockets(r) => KindV::DelSockets(r.deep_view()),
        }
    }
}

/// The fixed single-byte code of each command. Codes 1 and 3 belong to
/// request kinds that consumers understand but this side never sends; the
/// gaps are part of the wire contract and must stay.
pub open spec fn kind_code(k: KindV) -> u8 {
    match k {
        KindV::Broadcast(_) => 0,
        KindV::DisconnectSockets => 2,
        KindV::AddSockets(_) => 4,
        KindV::DelSockets(_) => 5,
    }
}

impl RequestType {
    /// The command's wire code.
    fn to_u8(&self) -> (r: u8)
        ensures
            r == kind_code(self@),
    {
        match self {
            RequestType::Broadcast(_) => 0,
            RequestType::DisconnectSockets => 2,
            RequestType::AddSockets(_) => 4,
            RequestType::DelSockets(_) => 5,
        }
    }
}

/// The packet field: present exactly for a broadcast.
pub open spec fn packet_field(k: KindV) -> Seq<u8> {
    match k {
        KindV::Broadcast(p) => packet_bytes(p),
        KindV::DisconnectSockets => mp_nil(),
        KindV::AddSockets(_) => mp_nil(),
        KindV::DelSockets(_) => mp_nil(),
    }
}

/// The rooms field: present exactly for a room-membership edit.
pub open spec fn rooms_field(k: KindV) -> Seq<u8> {
    match k {
        KindV::Broadcast(_) => mp_nil(),
        KindV::DisconnectSockets => mp_nil(),
        KindV::AddSockets(r) => mp_str_array(r),
        KindV::DelSockets(r) => mp_str_array(r),
    }
}

/// Mathematical model of [`Request`].
pub ghost struct RequestV {
    /// The identifier of the originating process.
    pub node_id: Seq<u8>,
    /// The identifier of this request.
    pub id: Seq<u8>,
    /// The command.
    pub kind: KindV,
    /// The targeting options.
    pub opts: OptsV,
}

/// One request envelope: a command, its targeting options and the two
/// correlation identifiers. Built fresh for every terminal call and never
/// reused.
#[derive(Clone, Debug)]
pub struct Request {
    /// The identifier of the originating process.
    pub node_id: Uid,
    /// The identifier of this request.
    pub id: Sid,
    /// The command.
    pub kind: RequestType,
    /// The targeting options.
    pub opts: BroadcastOptions,
}

impl View for Request {
    type V = RequestV;

    open spec fn view(&self) -> RequestV {
        RequestV { node_id: self.node_id@, id: self.id@, kind: self.kind@, opts: self.opts@ }
    }
}

/// The full wire form of a request envelope.
pub open spec fn wire_bytes(r: RequestV) -> Seq<u8> {
    mp_arr_head(6) + mp_str(r.node_id) + mp_str(r.id) + mp_u8(kind_code(r.kind)) + packet_field(
        r.kind,
    ) + rooms_field(r.kind) + opts_bytes(r.opts)
}

impl Request {
    /// Both identifiers have their sixteen-character shape.
    pub open spec fn wf(&self) -> bool {
        sid_wf(self@.node_id) && sid_wf(self@.id)
    }

    /// A fresh envelope for one command: random identifiers, the command and
    /// options as given.
    pub fn new(kind: RequestType, opts: BroadcastOptions) -> (r: Self)
        ensures
            r.wf(),
            r@.kind == kind@,
            r@.opts == opts@,
    {
        Request { node_id: Uid::new(), id: Sid::new(), kind, opts }
    }

    /// The envelope's exact wire bytes. Serialization is total: it cannot
    /// fail for any envelope.
    pub fn serialize(&self) -> (r: Vec<u8>)
        ensures
            r@ == wire_bytes(self@),
    {
        let mut out: Vec<u8> = Vec::new();
        write_arr_head(&mut out, 6);
        self.node_id.write_to(&mut out);
        self.id.write_to(&mut out);
        let code = self.kind.to_u8();
        write_u8(&mut out, code);
        match &self.kind {
            RequestType::Broadcast(p) => write_packet(&mut out, p),
            _ => write_nil(&mut out),
        }
        match &self.kind {
            RequestType::AddSockets(r) => write_str_list(&mut out, r),
            RequestType::DelSockets(r) => write_str_list(&mut out, r),
            _ => write_nil(&mut out),
        }
        write_opts(&mut out, &self.opts);
        assert(out@ =~= wire_bytes(self@));
        out
    }
}

/// Append the wire form of a payload.
fn write_value(out: &mut Vec<u8>, v: &EncodedValue)
    ensures
        final(out)@ == old(out)@ + value_bytes(v@),
{
    write_arr_head(out, 3);
    match v {
        EncodedValue::Str(s, bins) => {
            write_u8(out, 0);
            write_byte_array(out, s.as_str().as_bytes());
            match bins {
                Some(l) => write_bin_list(out, l),
                None => write_nil(out),
            }
        },
        EncodedValue::Bytes(b) => {
            write_u8(out, 1);
            write_byte_array(out, b.as_slice());
            write_nil(out);
        },
    }
    assert(out@ =~= old(out)@ + value_bytes(v@));
}

/// Append the wire form of an event packet.
fn write_packet(out: &mut Vec<u8>, p: &Packet)
    ensures
        final(out)@ == old(out)@ + packet_bytes(p@),
{
    write_arr_head(out, 5);
    write_str(out, p.ns.as_str());
    write_u8(out, 2);
    write_value(out, &p.data);
    write_nil(out);
    write_nil(out);
    assert(out@ =~= old(out)@ + packet_bytes(p@));
}

/// Wrap one command and its options in a fresh envelope and give its wire
/// bytes: what a terminal builder call hands to the transport.
pub fn serialize(opts: BroadcastOptions, req_type: RequestType) -> (r: Vec<u8>)
    ensures
        exists|n: Seq<u8>, i: Seq<u8>|
            sid_wf(n) && sid_wf(i) && r@ == wire_bytes(
                RequestV { node_id: n, id: i, kind: req_type@, opts: opts@ },
            ),
{
    let ghost kv = req_type@;
    let ghost ov = opts@;
    let req = Request::new(req_type, opts);
    let out = req.serialize();
    proof {
        let n = req@.node_id;
        let i = req@.id;
        assert(sid_wf(n) && sid_wf(i) && out@ == wire_bytes(
            RequestV { node_id: n, id: i, kind: kv, opts: ov },
        ));
    }
    out
}


/// Law: the wire form is variant-lean and carries the fixed code table. For
/// every well-formed envelope the discriminant byte stands at offset 35,
/// right after the header and the two sixteen-character identifiers, and
/// equals the variant's fixed code (broadcast 0, disconnect 2, add-to-rooms
/// 4, remove-from-rooms 5); the packet field is the single nil byte for every
/// command but a broadcast, and the rooms field is the single nil byte for
/// every command but a room-membership edit, so no other variant's data
/// appears in the encoding.
pub proof fn lemma_discriminant(r: RequestV)
    requires
        sid_wf(r.node_id),
        sid_wf(r.id),
    ensures
        wire_bytes(r).len() > 35,
        wire_bytes(r)[35] == kind_code(r.kind),
        r.kind is Broadcast ==> kind_code(r.kind) == 0,
        r.kind is DisconnectSockets ==> kind_code(r.kind) == 2,
        r.kind is AddSockets ==> kind_code(r.kind) == 4,
        r.kind is DelSockets ==> kind_code(r.kind) == 5,
        !(r.kind is Broadcast) ==> packet_field(r.kind) == mp_nil(),
        !(r.kind is AddSockets) && !(r.kind is DelSockets) ==> rooms_field(r.kind) == mp_nil(),
{
    let w = wire_bytes(r);
    let code = kind_code(r.kind);
    assert(mp_arr_head(6) =~= seq![0x96u8]);
    assert(mp_str(r.node_id) =~= seq![0xb0u8] + r.node_id);
    assert(mp_str(r.id) =~= seq![0xb0u8] + r.id);
    assert(code < 0x80);
    assert(mp_u8(code) =~= seq![code]);
    let head = mp_arr_head(6) + mp_str(r.node_id) + mp_str(r.id);
    assert(head.len() == 35);
    assert(w == head + mp_u8(code) + packet_field(r.kind) + rooms_field(r.kind) + opts_bytes(
        r.opts,
    ));
    assert(w[35] == code);
}

} // verus!
