//! A specification-level decoder for the wire format, and the round-trip
//! law: parsing the serializer's output recovers the envelope exactly. A
//! conformant consumer therefore reads back the room lists of the options
//! (hence their sets, in whatever order it keeps them) and the ordered rooms
//! argument of a membership edit, unchanged.
//!
//! Each parser takes the remaining bytes and yields the decoded piece and
//! what follows it, or nothing when the bytes are not in the encoder's image.
use vstd::prelude::*;
use vstd::utf8::{decode_utf8, encode_utf8, encode_utf8_decode_utf8, encode_utf8_valid_utf8,
    valid_utf8};

use crate::options::{opt_sid_bytes, opts_bytes, OptsV};
use crate::requests::{bins_bytes, kind_code, packet_bytes, packet_field, rooms_field,
    value_bytes, wire_bytes, KindV, PacketV, RequestV, ValueV};
use crate::sid::sid_wf;
use crate::wire::{mp_arr_head, mp_bin, mp_bin_array, mp_bin_elems, mp_bin_head, mp_byte_array,
    mp_nil, mp_str, mp_str_array, mp_str_elems, mp_str_head, mp_u8, mp_u8_elems, trunc32};

verus! {

/// A length small enough to carry no header truncation.
pub open spec fn fits32(n: nat) -> bool {
    n < 0x1_0000_0000
}

/// A string whose UTF-8 form fits one header.
pub open spec fn str_ok(s: Seq<char>) -> bool {
    fits32(encode_utf8(s).len())
}

/// A string list whose count and members fit their headers.
pub open spec fn str_list_ok(l: Seq<Seq<char>>) -> bool {
    fits32(l.len()) && (forall|i: int| 0 <= i < l.len() ==> str_ok(#[trigger] l[i]))
}

/// A blob list whose count and members fit their headers.
pub open spec fn bin_list_ok(l: Seq<Seq<u8>>) -> bool {
    fits32(l.len()) && (forall|i: int| 0 <= i < l.len() ==> fits32(#[trigger] l[i].len()))
}

/// A payload whose parts fit their headers.
pub open spec fn value_ok(v: ValueV) -> bool {
    match v {
        ValueV::Str(s, bins) => str_ok(s) && match bins {
            Some(l) => bin_list_ok(l),
            None => true,
        },
        ValueV::Bytes(b) => fits32(b.len()),
    }
}

/// A packet whose parts fit their headers.
pub open spec fn packet_ok(p: PacketV) -> bool {
    str_ok(p.ns) && value_ok(p.data)
}

/// A command whose parts fit their headers.
pub open spec fn kind_ok(k: KindV) -> bool {
    match k {
        KindV::Broadcast(p) => packet_ok(p),
        KindV::DisconnectSockets => true,
        KindV::AddSockets(r) => str_list_ok(r),
        KindV::DelSockets(r) => str_list_ok(r),
    }
}

/// Options whose parts fit their headers and whose identifiers are
/// well-formed.
pub open spec fn opts_ok(o: OptsV) -> bool {
    str_list_ok(o.rooms) && str_list_ok(o.except) && (match o.sid {
        Some(b) => sid_wf(b),
        None => true,
    }) && (match o.server_id {
        Some(b) => sid_wf(b),
        None => true,
    })
}

/// A well-formed envelope: valid identifiers, every part within the wire
/// format's length limits.
pub open spec fn request_ok(r: RequestV) -> bool {
    sid_wf(r.node_id) && sid_wf(r.id) && kind_ok(r.kind) && opts_ok(r.opts)
}

/// Consume a nil byte.
pub open spec fn p_nil(b: Seq<u8>) -> Option<Seq<u8>> {
    if b.len() >= 1 && b[0] == 0xc0 {
        Some(b.skip(1))
    } else {
        None
    }
}

/// Consume one unsigned byte: a positive fixint or a two-byte uint8.
pub open spec fn p_u8(b: Seq<u8>) -> Option<(u8, Seq<u8>)> {
    if b.len() >= 1 && b[0] < 0x80 {
        Some((b[0], b.skip(1)))
    } else if b.len() >= 2 && b[0] == 0xcc {
        Some((b[1], b.skip(2)))
    } else {
        None
    }
}

/// Consume a string header, yielding the content length.
pub open spec fn p_str_head(b: Seq<u8>) -> Option<(nat, Seq<u8>)> {
    if b.len() >= 1 && 0xa0 <= b[0] && b[0] <= 0xbf {
        Some(((b[0] - 0xa0) as nat, b.skip(1)))
    } else if b.len() >= 2 && b[0] == 0xd9 {
        Some((b[1] as nat, b.skip(2)))
    } else if b.len() >= 3 && b[0] == 0xda {
        Some(((b[1] * 0x100 + b[2]) as nat, b.skip(3)))
    } else if b.len() >= 5 && b[0] == 0xdb {
        Some(((b[1] * 0x1000000 + b[2] * 0x10000 + b[3] * 0x100 + b[4]) as nat, b.skip(5)))
    } else {
        None
    }
}

/// Consume an array header, yielding the element count.
pub open spec fn p_arr_head(b: Seq<u8>) -> Option<(nat, Seq<u8>)> {
    if b.len() >= 1 && 0x90 <= b[0] && b[0] <= 0x9f {
        Some(((b[0] - 0x90) as nat, b.skip(1)))
    } else if b.len() >= 3 && b[0] == 0xdc {
        Some(((b[1] * 0x100 + b[2]) as nat, b.skip(3)))
    } else if b.len() >= 5 && b[0] == 0xdd {
        Some(((b[1] * 0x1000000 + b[2] * 0x10000 + b[3] * 0x100 + b[4]) as nat, b.skip(5)))
    } else {
        None
    }
}

/// Consume a binary-blob header, yielding the content length.
pub open spec fn p_bin_head(b: Seq<u8>) -> Option<(nat, Seq<u8>)> {
    if b.len() >= 2 && b[0] == 0xc4 {
        Some((b[1] as nat, b.skip(2)))
    } else if b.len() >= 3 && b[0] == 0xc5 {
        Some(((b[1] * 0x100 + b[2]) as nat, b.skip(3)))
    } else if b.len() >= 5 && b[0] == 0xc6 {
        Some(((b[1] * 0x1000000 + b[2] * 0x10000 + b[3] * 0x100 + b[4]) as nat, b.skip(5)))
    } else {
        None
    }
}

/// Consume a string, yielding its raw content bytes.
pub open spec fn p_raw_str(b: Seq<u8>) -> Option<(Seq<u8>, Seq<u8>)> {
    match p_str_head(b) {
        Some((n, r)) => if n <= r.len() {
            Some((r.take(n as int), r.skip(n as int)))
        } else {
            None
        },
        None => None,
    }
}

/// Consume a string, decoding its UTF-8 content.
pub open spec fn p_str(b: Seq<u8>) -> Option<(Seq<char>, Seq<u8>)> {
    match p_raw_str(b) {
        Some((raw, r)) => if valid_utf8(raw) {
            Some((decode_utf8(raw), r))
        } else {
            None
        },
        None => None,
    }
}

/// Consume a binary blob.
pub open spec fn p_bin(b: Seq<u8>) -> Option<(Seq<u8>, Seq<u8>)> {
    match p_bin_head(b) {
        Some((n, r)) => if n <= r.len() {
            Some((r.take(n as int), r.skip(n as int)))
        } else {
            None
        },
        None => None,
    }
}

/// Consume `n` integer elements as bytes.
pub open spec fn p_u8_seq(b: Seq<u8>, n: nat) -> Option<(Seq<u8>, Seq<u8>)>
    decreases n,
{
    if n == 0 {
        Some((Seq::empty(), b))
    } else {
        match p_u8(b) {
            Some((v, r)) => match p_u8_seq(r, (n - 1) as nat) {
                Some((vs, r2)) => Some((seq![v] + vs, r2)),
                None => None,
            },
            None => None,
        }
    }
}

/// Consume an array of integers as a byte string.
pub open spec fn p_byte_array(b: Seq<u8>) -> Option<(Seq<u8>, Seq<u8>)> {
    match p_arr_head(b) {
        Some((n, r)) => p_u8_seq(r, n),
        None => None,
    }
}

/// Consume `n` string elements.
pub open spec fn p_str_seq(b: Seq<u8>, n: nat) -> Option<(Seq<Seq<char>>, Seq<u8>)>
    decreases n,
{
    if n == 0 {
        Some((Seq::empty(), b))
    } else {
        match p_str(b) {
            Some((v, r)) => match p_str_seq(r, (n - 1) as nat) {
                Some((vs, r2)) => Some((seq![v] + vs, r2)),
                None => None,
            },
            None => None,
        }
    }
}

/// Consume an array of strings.
pub open spec fn p_str_array(b: Seq<u8>) -> Option<(Seq<Seq<char>>, Seq<u8>)> {
    match p_arr_head(b) {
        Some((n, r)) => p_str_seq(r, n),
        None => None,
    }
}

/// Consume `n` blob elements.
pub open spec fn p_bin_seq(b: Seq<u8>, n: nat) -> Option<(Seq<Seq<u8>>, Seq<u8>)>
    decreases n,
{
    if n == 0 {
        Some((Seq::empty(), b))
    } else {
        match p_bin(b) {
            Some((v, r)) => match p_bin_seq(r, (n - 1) as nat) {
                Some((vs, r2)) => Some((seq![v] + vs, r2)),
                None => None,
            },
            None => None,
        }
    }
}

/// Consume an array of blobs.
pub open spec fn p_bin_array(b: Seq<u8>) -> Option<(Seq<Seq<u8>>, Seq<u8>)> {
    match p_arr_head(b) {
        Some((n, r)) => p_bin_seq(r, n),
        None => None,
    }
}

/// Consume the optional binary attachments: nil, or an array of blobs.
pub open spec fn p_opt_bins(b: Seq<u8>) -> Option<(Option<Seq<Seq<u8>>>, Seq<u8>)> {
    match p_nil(b) {
        Some(r) => Some((None, r)),
        None => match p_bin_array(b) {
            Some((l, r)) => Some((Some(l), r)),
            None => None,
        },
    }
}

/// Consume a payload: the three-element array of tag, bytes and attachments.
pub open spec fn p_value(b: Seq<u8>) -> Option<(ValueV, Seq<u8>)> {
    match p_arr_head(b) {
        Some((n, b1)) => if n == 3 {
            match p_u8(b1) {
                Some((tag, b2)) => if tag == 0 {
                    match p_byte_array(b2) {
                        Some((bytes, b3)) => if valid_utf8(bytes) {
                            match p_opt_bins(b3) {
                                Some((bins, b4)) => Some((ValueV::Str(decode_utf8(bytes), bins), b4)),
                                None => None,
                            }
                        } else {
                            None
                        },
                        None => None,
                    }
                } else if tag == 1 {
                    match p_byte_array(b2) {
                        Some((bytes, b3)) => match p_nil(b3) {
                            Some(b4) => Some((ValueV::Bytes(bytes), b4)),
                            None => None,
                        },
                        None => None,
                    }
                } else {
                    None
                },
                None => None,
            }
        } else {
            None
        },
        None => None,
    }
}

/// Consume an event packet: namespace, packet type 2, payload, two nils.
pub open spec fn p_packet(b: Seq<u8>) -> Option<(PacketV, Seq<u8>)> {
    match p_arr_head(b) {
        Some((n, b1)) => if n == 5 {
            match p_str(b1) {
                Some((ns, b2)) => match p_u8(b2) {
                    Some((t, b3)) => if t == 2 {
                        match p_value(b3) {
                            Some((v, b4)) => match p_nil(b4) {
                                Some(b5) => match p_nil(b5) {
                                    Some(b6) => Some((PacketV { ns, data: v }, b6)),
                                    None => None,
                                },
                                None => None,
                            },
                            None => None,
                        }
                    } else {
                        None
                    },
                    None => None,
                },
                None => None,
            }
        } else {
            None
        },
        None => None,
    }
}

/// Consume an optional identifier: nil, or a string's raw bytes.
pub open spec fn p_opt_sid(b: Seq<u8>) -> Option<(Option<Seq<u8>>, Seq<u8>)> {
    match p_nil(b) {
        Some(r) => Some((None, r)),
        None => match p_raw_str(b) {
            Some((s, r)) => Some((Some(s), r)),
            None => None,
        },
    }
}

/// Consume the options record.
pub open spec fn p_opts(b: Seq<u8>) -> Option<(OptsV, Seq<u8>)> {
    match p_arr_head(b) {
        Some((n, b1)) => if n == 5 {
            match p_u8(b1) {
                Some((flags, b2)) => match p_str_array(b2) {
                    Some((rooms, b3)) => match p_str_array(b3) {
                        Some((except, b4)) => match p_opt_sid(b4) {
                            Some((sid, b5)) => match p_opt_sid(b5) {
                                Some((server_id, b6)) => Some(
                                    (OptsV { flags, rooms, except, sid, server_id }, b6),
                                ),
                                None => None,
                            },
                            None => None,
                        },
                        None => None,
                    },
                    None => None,
                },
                None => None,
            }
        } else {
            None
        },
        None => None,
    }
}

/// Consume the two variant fields that follow the code: the packet field and
/// the rooms field, exactly the ones the code declares.
pub open spec fn p_kind(code: u8, b: Seq<u8>) -> Option<(KindV, Seq<u8>)> {
    if code == 0 {
        match p_packet(b) {
            Some((p, b1)) => match p_nil(b1) {
                Some(b2) => Some((KindV::Broadcast(p), b2)),
                None => None,
            },
            None => None,
        }
    } else if code == 2 {
        match p_nil(b) {
            Some(b1) => match p_nil(b1) {
                Some(b2) => Some((KindV::DisconnectSockets, b2)),
                None => None,
            },
            None => None,
        }
    } else if code == 4 {
        match p_nil(b) {
            Some(b1) => match p_str_array(b1) {
                Some((r, b2)) => Some((KindV::AddSockets(r), b2)),
                None => None,
            },
            None => None,
        }
    } else if code == 5 {
        match p_nil(b) {
            Some(b1) => match p_str_array(b1) {
                Some((r, b2)) => Some((KindV::DelSockets(r), b2)),
                None => None,
            },
            None => None,
        }
    } else {
        None
    }
}

/// Decode one whole envelope, consuming every byte.
pub open spec fn p_request(b: Seq<u8>) -> Option<RequestV> {
    match p_arr_head(b) {
        Some((n, b1)) => if n == 6 {
            match p_raw_str(b1) {
                Some((node_id, b2)) => match p_raw_str(b2) {
                    Some((id, b3)) => match p_u8(b3) {
                        Some((code, b4)) => match p_kind(code, b4) {
                            Some((kind, b5)) => match p_opts(b5) {
                                Some((opts, b6)) => if b6.len() == 0 {
                                    Some(RequestV { node_id, id, kind, opts })
                                } else {
                                    None
                                },
                                None => None,
                            },
                            None => None,
                        },
                        None => None,
                    },
                    None => None,
                },
                None => None,
            }
        } else {
            None
        },
        None => None,
    }
}

/// Splitting a concatenation at the first part's length gives the parts back.
proof fn lemma_unsplice(a: Seq<u8>, rest: Seq<u8>)
    ensures
        (a + rest).len() == a.len() + rest.len(),
        (a + rest).take(a.len() as int) == a,
        (a + rest).skip(a.len() as int) == rest,
{
    assert((a + rest).take(a.len() as int) =~= a);
    assert((a + rest).skip(a.len() as int) =~= rest);
}

proof fn lemma_p_nil(rest: Seq<u8>)
    ensures
        p_nil(mp_nil() + rest) == Some(rest),
{
    let b = mp_nil() + rest;
    assert(b[0] == 0xc0);
    assert(b.skip(1) =~= rest);
}

proof fn lemma_p_u8(v: u8, rest: Seq<u8>)
    ensures
        p_u8(mp_u8(v) + rest) == Some((v, rest)),
{
    let b = mp_u8(v) + rest;
    if v < 0x80 {
        assert(b[0] == v);
        assert(b.skip(1) =~= rest);
    } else {
        assert(b[0] == 0xcc && b[1] == v);
        assert(b.skip(2) =~= rest);
    }
}

proof fn lemma_p_str_head(n: nat, rest: Seq<u8>)
    requires
        fits32(n),
    ensures
        p_str_head(mp_str_head(n) + rest) == Some((n, rest)),
{
    let b = mp_str_head(n) + rest;
    assert(trunc32(n) == n);
    if n < 32 {
        assert(b[0] == (0xa0 + n) as u8);
        assert(0xa0 <= b[0] <= 0xbf);
        assert((b[0] - 0xa0) as nat == n);
        assert(b.skip(1) =~= rest);
    } else if n < 0x100 {
        assert(b[0] == 0xd9 && b[1] == n as u8);
        assert(b.skip(2) =~= rest);
    } else if n < 0x10000 {
        assert(b[0] == 0xda);
        assert(b[1] == (n / 0x100) as u8 && b[2] == (n % 0x100) as u8);
        assert(n / 0x100 < 0x100) by (nonlinear_arith)
            requires
                n < 0x10000,
        ;
        assert(b[1] * 0x100 + b[2] == n) by (nonlinear_arith)
            requires
                b[1] == (n / 0x100) as u8,
                b[2] == (n % 0x100) as u8,
                n / 0x100 < 0x100,
        ;
        assert(b.skip(3) =~= rest);
    } else {
        assert(b[0] == 0xdb);
        lemma_be32_digits(n);
        assert(b[1] * 0x1000000 + b[2] * 0x10000 + b[3] * 0x100 + b[4] == n);
        assert(b.skip(5) =~= rest);
    }
}

/// The four big-endian digit bytes of a 32-bit length recover it.
proof fn lemma_be32_digits(n: nat)
    requires
        0x10000 <= n < 0x1_0000_0000,
    ensures
        ((n / 0x1000000) % 0x100) as u8 * 0x1000000 + ((n / 0x10000) % 0x100) as u8 * 0x10000 + ((
        n / 0x100) % 0x100) as u8 * 0x100 + (n % 0x100) as u8 == n,
{
    assert(n / 0x1000000 < 0x100) by (nonlinear_arith)
        requires
            n < 0x1_0000_0000,
    ;
    assert(((n / 0x1000000) % 0x100) * 0x1000000 + ((n / 0x10000) % 0x100) * 0x10000 + ((n
        / 0x100) % 0x100) * 0x100 + (n % 0x100) == n) by (nonlinear_arith)
        requires
            n < 0x1_0000_0000,
    ;
}

proof fn lemma_p_arr_head(n: nat, rest: Seq<u8>)
    requires
        fits32(n),
    ensures
        p_arr_head(mp_arr_head(n) + rest) == Some((n, rest)),
{
    let b = mp_arr_head(n) + rest;
    assert(trunc32(n) == n);
    if n < 16 {
        assert(b[0] == (0x90 + n) as u8);
        assert(0x90 <= b[0] <= 0x9f);
        assert((b[0] - 0x90) as nat == n);
        assert(b.skip(1) =~= rest);
    } else if n < 0x10000 {
        assert(b[0] == 0xdc);
        assert(b[1] == (n / 0x100) as u8 && b[2] == (n % 0x100) as u8);
        assert(n / 0x100 < 0x100) by (nonlinear_arith)
            requires
                n < 0x10000,
        ;
        assert(b[1] * 0x100 + b[2] == n) by (nonlinear_arith)
            requires
                b[1] == (n / 0x100) as u8,
                b[2] == (n % 0x100) as u8,
                n / 0x100 < 0x100,
        ;
        assert(b.skip(3) =~= rest);
    } else {
        assert(b[0] == 0xdd);
        lemma_be32_digits(n);
        assert(b[1] * 0x1000000 + b[2] * 0x10000 + b[3] * 0x100 + b[4] == n);
        assert(b.skip(5) =~= rest);
    }
}

proof fn lemma_p_bin_head(n: nat, rest: Seq<u8>)
    requires
        fits32(n),
    ensures
        p_bin_head(mp_bin_head(n) + rest) == Some((n, rest)),
{
    let b = mp_bin_head(n) + rest;
    assert(trunc32(n) == n);
    if n < 0x100 {
        assert(b[0] == 0xc4 && b[1] == n as u8);
        assert(b.skip(2) =~= rest);
    } else if n < 0x10000 {
        assert(b[0] == 0xc5);
        assert(b[1] == (n / 0x100) as u8 && b[2] == (n % 0x100) as u8);
        assert(n / 0x100 < 0x100) by (nonlinear_arith)
            requires
                n < 0x10000,
        ;
        assert(b[1] * 0x100 + b[2] == n) by (nonlinear_arith)
            requires
                b[1] == (n / 0x100) as u8,
                b[2] == (n % 0x100) as u8,
                n / 0x100 < 0x100,
        ;
        assert(b.skip(3) =~= rest);
    } else {
        assert(b[0] == 0xc6);
        lemma_be32_digits(n);
        assert(b[1] * 0x1000000 + b[2] * 0x10000 + b[3] * 0x100 + b[4] == n);
        assert(b.skip(5) =~= rest);
    }
}

proof fn lemma_p_raw_str(s: Seq<u8>, rest: Seq<u8>)
    requires
        fits32(s.len()),
    ensures
        p_raw_str(mp_str(s) + rest) == Some((s, rest)),
{
    let b = mp_str(s) + rest;
    assert(b =~= mp_str_head(s.len()) + (s + rest));
    lemma_p_str_head(s.len(), s + rest);
    lemma_unsplice(s, rest);
}

proof fn lemma_p_str(s: Seq<char>, rest: Seq<u8>)
    requires
        str_ok(s),
    ensures
        p_str(mp_str(encode_utf8(s)) + rest) == Some((s, rest)),
{
    lemma_p_raw_str(encode_utf8(s), rest);
    encode_utf8_valid_utf8(s);
    encode_utf8_decode_utf8(s);
}

proof fn lemma_p_bin(x: Seq<u8>, rest: Seq<u8>)
    requires
        fits32(x.len()),
    ensures
        p_bin(mp_bin(x) + rest) == Some((x, rest)),
{
    let b = mp_bin(x) + rest;
    assert(b =~= mp_bin_head(x.len()) + (x + rest));
    lemma_p_bin_head(x.len(), x + rest);
    lemma_unsplice(x, rest);
}


proof fn lemma_p_u8_seq(xs: Seq<u8>, rest: Seq<u8>)
    ensures
        p_u8_seq(mp_u8_elems(xs) + rest, xs.len()) == Some((xs, rest)),
    decreases xs.len(),
{
    if xs.len() == 0 {
        assert(mp_u8_elems(xs) + rest =~= rest);
        assert(xs =~= Seq::<u8>::empty());
    } else {
        let tail = mp_u8_elems(xs.drop_first()) + rest;
        assert(mp_u8_elems(xs) + rest =~= mp_u8(xs[0]) + tail);
        lemma_p_u8(xs[0], tail);
        lemma_p_u8_seq(xs.drop_first(), rest);
        assert(seq![xs[0]] + xs.drop_first() =~= xs);
    }
}

proof fn lemma_p_byte_array(xs: Seq<u8>, rest: Seq<u8>)
    requires
        fits32(xs.len()),
    ensures
        p_byte_array(mp_byte_array(xs) + rest) == Some((xs, rest)),
{
    assert(mp_byte_array(xs) + rest =~= mp_arr_head(xs.len()) + (mp_u8_elems(xs) + rest));
    lemma_p_arr_head(xs.len(), mp_u8_elems(xs) + rest);
    lemma_p_u8_seq(xs, rest);
}

proof fn lemma_p_str_seq(l: Seq<Seq<char>>, rest: Seq<u8>)
    requires
        forall|i: int| 0 <= i < l.len() ==> str_ok(#[trigger] l[i]),
    ensures
        p_str_seq(mp_str_elems(l) + rest, l.len()) == Some((l, rest)),
    decreases l.len(),
{
    if l.len() == 0 {
        assert(mp_str_elems(l) + rest =~= rest);
        assert(l =~= Seq::<Seq<char>>::empty());
    } else {
        let tail = mp_str_elems(l.drop_first()) + rest;
        assert(mp_str_elems(l) + rest =~= mp_str(encode_utf8(l[0])) + tail);
        lemma_p_str(l[0], tail);
        lemma_p_str_seq(l.drop_first(), rest);
        assert(seq![l[0]] + l.drop_first() =~= l);
    }
}

proof fn lemma_p_str_array(l: Seq<Seq<char>>, rest: Seq<u8>)
    requires
        str_list_ok(l),
    ensures
        p_str_array(mp_str_array(l) + rest) == Some((l, rest)),
{
    assert(mp_str_array(l) + rest =~= mp_arr_head(l.len()) + (mp_str_elems(l) + rest));
    lemma_p_arr_head(l.len(), mp_str_elems(l) + rest);
    lemma_p_str_seq(l, rest);
}

proof fn lemma_p_bin_seq(l: Seq<Seq<u8>>, rest: Seq<u8>)
    requires
        forall|i: int| 0 <= i < l.len() ==> fits32(#[trigger] l[i].len()),
    ensures
        p_bin_seq(mp_bin_elems(l) + rest, l.len()) == Some((l, rest)),
    decreases l.len(),
{
    if l.len() == 0 {
        assert(mp_bin_elems(l) + rest =~= rest);
        assert(l =~= Seq::<Seq<u8>>::empty());
    } else {
        let tail = mp_bin_elems(l.drop_first()) + rest;
        assert(mp_bin_elems(l) + rest =~= mp_bin(l[0]) + tail);
        lemma_p_bin(l[0], tail);
        lemma_p_bin_seq(l.drop_first(), rest);
        assert(seq![l[0]] + l.drop_first() =~= l);
    }
}

proof fn lemma_p_bin_array(l: Seq<Seq<u8>>, rest: Seq<u8>)
    requires
        bin_list_ok(l),
    ensures
        p_bin_array(mp_bin_array(l) + rest) == Some((l, rest)),
{
    assert(mp_bin_array(l) + rest =~= mp_arr_head(l.len()) + (mp_bin_elems(l) + rest));
    lemma_p_arr_head(l.len(), mp_bin_elems(l) + rest);
    lemma_p_bin_seq(l, rest);
}

proof fn lemma_p_opt_bins(bins: Option<Seq<Seq<u8>>>, rest: Seq<u8>)
    requires
        match bins {
            Some(l) => bin_list_ok(l),
            None => true,
        },
    ensures
        p_opt_bins(bins_bytes(bins) + rest) == Some((bins, rest)),
{
    match bins {
        None => {
            lemma_p_nil(rest);
        },
        Some(l) => {
            let b = mp_bin_array(l) + rest;
            assert(b[0] == mp_arr_head(l.len())[0]);
            assert(b[0] != 0xc0);
            assert(p_nil(b) is None);
            lemma_p_bin_array(l, rest);
        },
    }
}

proof fn lemma_p_value(v: ValueV, rest: Seq<u8>)
    requires
        value_ok(v),
    ensures
        p_value(value_bytes(v) + rest) == Some((v, rest)),
{
    match v {
        ValueV::Str(s, bins) => {
            let bytes = encode_utf8(s);
            let t3 = mp_u8(0) + (mp_byte_array(bytes) + (bins_bytes(bins) + rest));
            assert(value_bytes(v) + rest =~= mp_arr_head(3) + t3);
            lemma_p_arr_head(3, t3);
            lemma_p_u8(0, mp_byte_array(bytes) + (bins_bytes(bins) + rest));
            lemma_p_byte_array(bytes, bins_bytes(bins) + rest);
            encode_utf8_valid_utf8(s);
            encode_utf8_decode_utf8(s);
            lemma_p_opt_bins(bins, rest);
        },
        ValueV::Bytes(x) => {
            let t3 = mp_u8(1) + (mp_byte_array(x) + (mp_nil() + rest));
            assert(value_bytes(v) + rest =~= mp_arr_head(3) + t3);
            lemma_p_arr_head(3, t3);
            lemma_p_u8(1, mp_byte_array(x) + (mp_nil() + rest));
            lemma_p_byte_array(x, mp_nil() + rest);
            lemma_p_nil(rest);
        },
    }
}

proof fn lemma_p_packet(p: PacketV, rest: Seq<u8>)
    requires
        packet_ok(p),
    ensures
        p_packet(packet_bytes(p) + rest) == Some((p, rest)),
{
    let t5 = mp_str(encode_utf8(p.ns)) + (mp_u8(2) + (value_bytes(p.data) + (mp_nil() + (mp_nil()
        + rest))));
    assert(packet_bytes(p) + rest =~= mp_arr_head(5) + t5);
    lemma_p_arr_head(5, t5);
    lemma_p_str(p.ns, mp_u8(2) + (value_bytes(p.data) + (mp_nil() + (mp_nil() + rest))));
    lemma_p_u8(2, value_bytes(p.data) + (mp_nil() + (mp_nil() + rest)));
    lemma_p_value(p.data, mp_nil() + (mp_nil() + rest));
    lemma_p_nil(mp_nil() + rest);
    lemma_p_nil(rest);
}

proof fn lemma_p_opt_sid(s: Option<Seq<u8>>, rest: Seq<u8>)
    requires
        match s {
            Some(b) => sid_wf(b),
            None => true,
        },
    ensures
        p_opt_sid(opt_sid_bytes(s) + rest) == Some((s, rest)),
{
    match s {
        None => {
            lemma_p_nil(rest);
        },
        Some(x) => {
            let b = mp_str(x) + rest;
            assert(b[0] == mp_str_head(16)[0]);
            assert(b[0] == 0xb0);
            assert(p_nil(b) is None);
            lemma_p_raw_str(x, rest);
        },
    }
}

proof fn lemma_p_opts(o: OptsV, rest: Seq<u8>)
    requires
        opts_ok(o),
    ensures
        p_opts(opts_bytes(o) + rest) == Some((o, rest)),
{
    let t5 = mp_u8(o.flags) + (mp_str_array(o.rooms) + (mp_str_array(o.except) + (opt_sid_bytes(
        o.sid,
    ) + (opt_sid_bytes(o.server_id) + rest))));
    assert(opts_bytes(o) + rest =~= mp_arr_head(5) + t5);
    lemma_p_arr_head(5, t5);
    lemma_p_u8(
        o.flags,
        mp_str_array(o.rooms) + (mp_str_array(o.except) + (opt_sid_bytes(o.sid) + (opt_sid_bytes(
            o.server_id,
        ) + rest))),
    );
    lemma_p_str_array(
        o.rooms,
        mp_str_array(o.except) + (opt_sid_bytes(o.sid) + (opt_sid_bytes(o.server_id) + rest)),
    );
    lemma_p_str_array(o.except, opt_sid_bytes(o.sid) + (opt_sid_bytes(o.server_id) + rest));
    lemma_p_opt_sid(o.sid, opt_sid_bytes(o.server_id) + rest);
    lemma_p_opt_sid(o.server_id, rest);
}

proof fn lemma_p_kind(k: KindV, rest: Seq<u8>)
    requires
        kind_ok(k),
    ensures
        p_kind(kind_code(k), packet_field(k) + (rooms_field(k) + rest)) == Some((k, rest)),
{
    let b = packet_field(k) + (rooms_field(k) + rest);
    match k {
        KindV::Broadcast(p) => {
            assert(b =~= packet_bytes(p) + (mp_nil() + rest));
            lemma_p_packet(p, mp_nil() + rest);
            lemma_p_nil(rest);
        },
        KindV::DisconnectSockets => {
            assert(b =~= mp_nil() + (mp_nil() + rest));
            lemma_p_nil(mp_nil() + rest);
            lemma_p_nil(rest);
        },
        KindV::AddSockets(rs) => {
            assert(b =~= mp_nil() + (mp_str_array(rs) + rest));
            lemma_p_nil(mp_str_array(rs) + rest);
            lemma_p_str_array(rs, rest);
        },
        KindV::DelSockets(rs) => {
            assert(b =~= mp_nil() + (mp_str_array(rs) + rest));
            lemma_p_nil(mp_str_array(rs) + rest);
            lemma_p_str_array(rs, rest);
        },
    }
}

/// Law: the wire encoding round-trips. For every well-formed envelope the
/// decoder recovers the envelope exactly from the serializer's bytes: the
/// identifiers, the command with its ordered rooms argument, and both room
/// lists of the targeting options come back unchanged — so their sets are
/// preserved too, in whatever order a consumer keeps them.
pub proof fn lemma_wire_round_trip(r: RequestV)
    requires
        request_ok(r),
    ensures
        p_request(wire_bytes(r)) == Some(r),
        p_request(wire_bytes(r)) matches Some(d) && d.opts.rooms.to_set()
            == r.opts.rooms.to_set(),
        p_request(wire_bytes(r)) matches Some(d) && d.opts.except.to_set()
            == r.opts.except.to_set(),
        r.kind matches KindV::AddSockets(rooms) ==> (p_request(wire_bytes(r)) matches Some(d)
            && d.kind == KindV::AddSockets(rooms)),
        r.kind matches KindV::DelSockets(rooms) ==> (p_request(wire_bytes(r)) matches Some(d)
            && d.kind == KindV::DelSockets(rooms)),
{
    let code = kind_code(r.kind);
    let none: Seq<u8> = Seq::empty();
    let t_opts = opts_bytes(r.opts) + none;
    let t_kind = packet_field(r.kind) + (rooms_field(r.kind) + t_opts);
    let t_code = mp_u8(code) + t_kind;
    let t_id = mp_str(r.id) + t_code;
    let t_node = mp_str(r.node_id) + t_id;
    assert(wire_bytes(r) =~= mp_arr_head(6) + t_node);
    lemma_p_arr_head(6, t_node);
    lemma_p_raw_str(r.node_id, t_id);
    lemma_p_raw_str(r.id, t_code);
    lemma_p_u8(code, t_kind);
    lemma_p_kind(r.kind, t_opts);
    lemma_p_opts(r.opts, none);
    assert(p_request(wire_bytes(r)) == Some(RequestV { node_id: r.node_id, id: r.id, kind: r.kind, opts: r.opts }));
    assert(RequestV { node_id: r.node_id, id: r.id, kind: r.kind, opts: r.opts } == r);
}

/// Law: the wire encoding is injective. Two well-formed envelopes with the
/// same bytes are the same envelope, so no conformant consumer can confuse
/// two different commands, targetings or identifiers.
pub proof fn lemma_wire_injective(r1: RequestV, r2: RequestV)
    requires
        request_ok(r1),
        request_ok(r2),
        wire_bytes(r1) == wire_bytes(r2),
    ensures
        r1 == r2,
{
    lemma_wire_round_trip(r1);
    lemma_wire_round_trip(r2);
}

} // verus!
