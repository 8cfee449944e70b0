//! MessagePack primitives: byte-exact specifications of each encoding form the
//! envelope uses, and executable writers proved against them.
//!
//! Every length header is chosen from the length reduced modulo 2^32, the
//! MessagePack limit; the payload bytes themselves are always written whole.
use vstd::prelude::*;
use vstd::utf8::encode_utf8;

verus! {

/// A length as the 32-bit wire format sees it.
pub open spec fn trunc32(n: nat) -> nat {
    n % 0x1_0000_0000
}

/// Big-endian bytes of a 16-bit length.
pub open spec fn be16(n: nat) -> Seq<u8> {
    seq![(n / 0x100) as u8, (n % 0x100) as u8]
}

/// Big-endian bytes of a 32-bit length.
pub open spec fn be32(n: nat) -> Seq<u8> {
    seq![
        ((n / 0x1000000) % 0x100) as u8,
        ((n / 0x10000) % 0x100) as u8,
        ((n / 0x100) % 0x100) as u8,
        (n % 0x100) as u8,
    ]
}

/// The nil byte, used for every absent optional field.
pub open spec fn mp_nil() -> Seq<u8> {
    seq![0xc0u8]
}

/// An unsigned byte: positive fixint below 0x80, else a two-byte uint8.
pub open spec fn mp_u8(v: u8) -> Seq<u8> {
    if v < 0x80 {
        seq![v]
    } else {
        seq![0xccu8, v]
    }
}

/// Header of a string of `len` bytes: fixstr, str8, str16 or str32.
pub open spec fn mp_str_head(len: nat) -> Seq<u8> {
    let n = trunc32(len);
    if n < 32 {
        seq![(0xa0 + n) as u8]
    } else if n < 0x100 {
        seq![0xd9u8, n as u8]
    } else if n < 0x10000 {
        seq![0xdau8] + be16(n)
    } else {
        seq![0xdbu8] + be32(n)
    }
}

/// Header of an array of `len` elements: fixarray, array16 or array32.
pub open spec fn mp_arr_head(len: nat) -> Seq<u8> {
    let n = trunc32(len);
    if n < 16 {
        seq![(0x90 + n) as u8]
    } else if n < 0x10000 {
        seq![0xdcu8] + be16(n)
    } else {
        seq![0xddu8] + be32(n)
    }
}

/// Header of a binary blob of `len` bytes: bin8, bin16 or bin32.
pub open spec fn mp_bin_head(len: nat) -> Seq<u8> {
    let n = trunc32(len);
    if n < 0x100 {
        seq![0xc4u8, n as u8]
    } else if n < 0x10000 {
        seq![0xc5u8] + be16(n)
    } else {
        seq![0xc6u8] + be32(n)
    }
}

/// A string given by its UTF-8 bytes.
pub open spec fn mp_str(b: Seq<u8>) -> Seq<u8> {
    mp_str_head(b.len()) + b
}

/// A binary blob.
pub open spec fn mp_bin(b: Seq<u8>) -> Seq<u8> {
    mp_bin_head(b.len()) + b
}

/// Bytes encoded one by one, as a serializer without a bytes fast path emits
/// a byte slice.
pub open spec fn mp_u8_elems(b: Seq<u8>) -> Seq<u8>
    decreases b.len(),
{
    if b.len() == 0 {
        Seq::empty()
    } else {
        mp_u8(b[0]) + mp_u8_elems(b.drop_first())
    }
}

/// A byte slice as an array of integers.
pub open spec fn mp_byte_array(b: Seq<u8>) -> Seq<u8> {
    mp_arr_head(b.len()) + mp_u8_elems(b)
}

/// The strings of a list, each encoded from its UTF-8 bytes, concatenated.
pub open spec fn mp_str_elems(l: Seq<Seq<char>>) -> Seq<u8>
    decreases l.len(),
{
    if l.len() == 0 {
        Seq::empty()
    } else {
        mp_str(encode_utf8(l[0])) + mp_str_elems(l.drop_first())
    }
}

/// A list of strings as an array.
pub open spec fn mp_str_array(l: Seq<Seq<char>>) -> Seq<u8> {
    mp_arr_head(l.len()) + mp_str_elems(l)
}

/// The blobs of a list, concatenated.
pub open spec fn mp_bin_elems(l: Seq<Seq<u8>>) -> Seq<u8>
    decreases l.len(),
{
    if l.len() == 0 {
        Seq::empty()
    } else {
        mp_bin(l[0]) + mp_bin_elems(l.drop_first())
    }
}

/// A list of binary blobs as an array.
pub open spec fn mp_bin_array(l: Seq<Seq<u8>>) -> Seq<u8> {
    mp_arr_head(l.len()) + mp_bin_elems(l)
}

pub proof fn lemma_mp_u8_elems_snoc(b: Seq<u8>, x: u8)
    ensures
        mp_u8_elems(b.push(x)) == mp_u8_elems(b) + mp_u8(x),
    decreases b.len(),
{
    let p = b.push(x);
    if b.len() == 0 {
        assert(p[0] == x);
        assert(p.drop_first() =~= Seq::<u8>::empty());
        assert(mp_u8_elems(p) == mp_u8(x) + mp_u8_elems(Seq::<u8>::empty()));
        assert(mp_u8_elems(p) =~= mp_u8_elems(b) + mp_u8(x));
    } else {
        assert(p[0] == b[0]);
        assert(p.drop_first() =~= b.drop_first().push(x));
        lemma_mp_u8_elems_snoc(b.drop_first(), x);
        assert(mp_u8_elems(p) == mp_u8(b[0]) + (mp_u8_elems(b.drop_first()) + mp_u8(x)));
        assert(mp_u8_elems(p) =~= mp_u8_elems(b) + mp_u8(x));
    }
}

pub proof fn lemma_mp_str_elems_snoc(l: Seq<Seq<char>>, x: Seq<char>)
    ensures
        mp_str_elems(l.push(x)) == mp_str_elems(l) + mp_str(encode_utf8(x)),
    decreases l.len(),
{
    let p = l.push(x);
    if l.len() == 0 {
        assert(p[0] == x);
        assert(p.drop_first() =~= Seq::<Seq<char>>::empty());
        assert(mp_str_elems(p) == mp_str(encode_utf8(x)) + mp_str_elems(
            Seq::<Seq<char>>::empty(),
        ));
        assert(mp_str_elems(p) =~= mp_str_elems(l) + mp_str(encode_utf8(x)));
    } else {
        assert(p[0] == l[0]);
        assert(p.drop_first() =~= l.drop_first().push(x));
        lemma_mp_str_elems_snoc(l.drop_first(), x);
        assert(mp_str_elems(p) == mp_str(encode_utf8(l[0])) + (mp_str_elems(l.drop_first())
            + mp_str(encode_utf8(x))));
        assert(mp_str_elems(p) =~= mp_str_elems(l) + mp_str(encode_utf8(x)));
    }
}

pub proof fn lemma_mp_bin_elems_snoc(l: Seq<Seq<u8>>, x: Seq<u8>)
    ensures
        mp_bin_elems(l.push(x)) == mp_bin_elems(l) + mp_bin(x),
    decreases l.len(),
{
    let p = l.push(x);
    if l.len() == 0 {
        assert(p[0] == x);
        assert(p.drop_first() =~= Seq::<Seq<u8>>::empty());
        assert(mp_bin_elems(p) == mp_bin(x) + mp_bin_elems(Seq::<Seq<u8>>::empty()));
        assert(mp_bin_elems(p) =~= mp_bin_elems(l) + mp_bin(x));
    } else {
        assert(p[0] == l[0]);
        assert(p.drop_first() =~= l.drop_first().push(x));
        lemma_mp_bin_elems_snoc(l.drop_first(), x);
        assert(mp_bin_elems(p) == mp_bin(l[0]) + (mp_bin_elems(l.drop_first()) + mp_bin(x)));
        assert(mp_bin_elems(p) =~= mp_bin_elems(l) + mp_bin(x));
    }
}

/// Append the nil byte.
pub fn write_nil(out: &mut Vec<u8>)
    ensures
        final(out)@ == old(out)@ + mp_nil(),
{
    out.push(0xc0);
    assert(out@ =~= old(out)@ + mp_nil());
}

/// Append one unsigned byte in its shortest form.
pub fn write_u8(out: &mut Vec<u8>, v: u8)
    ensures
        final(out)@ == old(out)@ + mp_u8(v),
{
    if v < 0x80 {
        out.push(v);
    } else {
        out.push(0xcc);
        out.push(v);
    }
    assert(out@ =~= old(out)@ + mp_u8(v));
}

/// Append a string header for `len` content bytes.
pub fn write_str_head(out: &mut Vec<u8>, len: usize)
    ensures
        final(out)@ == old(out)@ + mp_str_head(len as nat),
{
    let wide: u64 = len as u64;
    let n: u32 = #[verifier::truncate] (wide as u32);
    proof {
        assert(n as u64 == wide % 0x1_0000_0000) by (bit_vector)
            requires
                n == wide as u32,
        ;
        assert(n as nat == trunc32(len as nat));
    }
    if n < 32 {
        out.push(0xa0 + (n as u8));
    } else if n < 0x100 {
        out.push(0xd9);
        out.push(n as u8);
    } else if n < 0x10000 {
        out.push(0xda);
        out.push((n / 0x100) as u8);
        out.push((n % 0x100) as u8);
    } else {
        out.push(0xdb);
        out.push((n / 0x1000000) as u8);
        out.push(((n / 0x10000) % 0x100) as u8);
        out.push(((n / 0x100) % 0x100) as u8);
        out.push((n % 0x100) as u8);
    }
    assert(out@ =~= old(out)@ + mp_str_head(len as nat));
}

/// Append an array header for `len` elements.
pub fn write_arr_head(out: &mut Vec<u8>, len: usize)
    ensures
        final(out)@ == old(out)@ + mp_arr_head(len as nat),
{
    let wide: u64 = len as u64;
    let n: u32 = #[verifier::truncate] (wide as u32);
    proof {
        assert(n as u64 == wide % 0x1_0000_0000) by (bit_vector)
            requires
                n == wide as u32,
        ;
        assert(n as nat == trunc32(len as nat));
    }
    if n < 16 {
        out.push(0x90 + (n as u8));
    } else if n < 0x10000 {
        out.push(0xdc);
        out.push((n / 0x100) as u8);
        out.push((n % 0x100) as u8);
    } else {
        out.push(0xdd);
        out.push((n / 0x1000000) as u8);
        out.push(((n / 0x10000) % 0x100) as u8);
        out.push(((n / 0x100) % 0x100) as u8);
        out.push((n % 0x100) as u8);
    }
    assert(out@ =~= old(out)@ + mp_arr_head(len as nat));
}

/// Append a binary-blob header for `len` content bytes.
pub fn write_bin_head(out: &mut Vec<u8>, len: usize)
    ensures
        final(out)@ == old(out)@ + mp_bin_head(len as nat),
{
    let wide: u64 = len as u64;
    let n: u32 = #[verifier::truncate] (wide as u32);
    proof {
        assert(n as u64 == wide % 0x1_0000_0000) by (bit_vector)
            requires
                n == wide as u32,
        ;
        assert(n as nat == trunc32(len as nat));
    }
    if n < 0x100 {
        out.push(0xc4);
        out.push(n as u8);
    } else if n < 0x10000 {
        out.push(0xc5);
        out.push((n / 0x100) as u8);
        out.push((n % 0x100) as u8);
    } else {
        out.push(0xc6);
        out.push((n / 0x1000000) as u8);
        out.push(((n / 0x10000) % 0x100) as u8);
        out.push(((n / 0x100) % 0x100) as u8);
        out.push((n % 0x100) as u8);
    }
    assert(out@ =~= old(out)@ + mp_bin_head(len as nat));
}

/// Append raw bytes unchanged.
pub fn write_bytes(out: &mut Vec<u8>, b: &[u8])
    ensures
        final(out)@ == old(out)@ + b@,
{
    let mut i: usize = 0;
    while i < b.len()
        invariant
            i <= b.len(),
            out@ == old(out)@ + b@.subrange(0, i as int),
        decreases b.len() - i,
    {
        let x = b[i];
        out.push(x);
        assert(out@ =~= old(out)@ + b@.subrange(0, i + 1));
        i = i + 1;
    }
    assert(b@.subrange(0, b@.len() as int) =~= b@);
}

/// Append a string: header from its UTF-8 length, then its UTF-8 bytes.
pub fn write_str(out: &mut Vec<u8>, s: &str)
    ensures
        final(out)@ == old(out)@ + mp_str(encode_utf8(s@)),
{
    let b = s.as_bytes();
    write_str_head(out, b.len());
    write_bytes(out, b);
}

/// Append a binary blob: header, then the bytes themselves.
pub fn write_bin(out: &mut Vec<u8>, b: &Vec<u8>)
    ensures
        final(out)@ == old(out)@ + mp_bin(b@),
{
    write_bin_head(out, b.len());
    write_bytes(out, b.as_slice());
}

/// Append a byte slice as an array of integers, one element per byte.
pub fn write_byte_array(out: &mut Vec<u8>, b: &[u8])
    ensures
        final(out)@ == old(out)@ + mp_byte_array(b@),
{
    write_arr_head(out, b.len());
    let ghost head = out@;
    let mut i: usize = 0;
    while i < b.len()
        invariant
            i <= b.len(),
            out@ == head + mp_u8_elems(b@.subrange(0, i as int)),
        decreases b.len() - i,
    {
        let x = b[i];
        write_u8(out, x);
        proof {
            assert(b@.subrange(0, i + 1) =~= b@.subrange(0, i as int).push(b@[i as int]));
            lemma_mp_u8_elems_snoc(b@.subrange(0, i as int), b@[i as int]);
        }
        i = i + 1;
    }
    assert(b@.subrange(0, b@.len() as int) =~= b@);
}

/// Append a list of strings as an array of string elements.
pub fn write_str_list(out: &mut Vec<u8>, l: &Vec<String>)
    ensures
        final(out)@ == old(out)@ + mp_str_array(l.deep_view()),
{
    write_arr_head(out, l.len());
    let ghost head = out@;
    let mut i: usize = 0;
    while i < l.len()
        invariant
            i <= l.len(),
            out@ == head + mp_str_elems(l.deep_view().subrange(0, i as int)),
        decreases l.len() - i,
    {
        write_str(out, l[i].as_str());
        proof {
            assert(l.deep_view().subrange(0, i + 1) =~= l.deep_view().subrange(
                0,
                i as int,
            ).push(l.deep_view()[i as int]));
            lemma_mp_str_elems_snoc(l.deep_view().subrange(0, i as int), l.deep_view()[i as int]);
        }
        i = i + 1;
    }
    assert(l.deep_view().subrange(0, l.deep_view().len() as int) =~= l.deep_view());
}

/// Append a list of binary blobs as an array of blob elements.
pub fn write_bin_list(out: &mut Vec<u8>, l: &Vec<Vec<u8>>)
    ensures
        final(out)@ == old(out)@ + mp_bin_array(l.deep_view()),
{
    write_arr_head(out, l.len());
    let ghost head = out@;
    let mut i: usize = 0;
    while i < l.len()
        invariant
            i <= l.len(),
            out@ == head + mp_bin_elems(l.deep_view().subrange(0, i as int)),
        decreases l.len() - i,
    {
        write_bin(out, &l[i]);
        proof {
            assert(l.deep_view().subrange(0, i + 1) =~= l.deep_view().subrange(
                0,
                i as int,
            ).push(l.deep_view()[i as int]));
            lemma_mp_bin_elems_snoc(l.deep_view().subrange(0, i as int), l.deep_view()[i as int]);
        }
        i = i + 1;
    }
    assert(l.deep_view().subrange(0, l.deep_view().len() as int) =~= l.deep_view());
}

} // verus!
