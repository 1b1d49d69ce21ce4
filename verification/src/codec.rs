use vstd::prelude::*;
use crate::error::SerdeError;
use vstd::slice::{slice_index_get, slice_subrange, slice_to_vec};
use vstd::utf8::{valid_utf8, decode_utf8, encode_utf8, is_scalar};
use vstd::string::StringSliceAdditionalSpecFns;

verus! {

/// Number of bytes in the length prefix of a variable-length field.
pub const LENGTH_BYTES: usize = 4;

// The wire format writes every integer big-endian.

/// The two big-endian bytes of a 16-bit value.
pub closed spec fn wire_u16(x: u16) -> Seq<u8> {
    seq![((x as int) / 0x100) as u8, ((x as int) % 0x100) as u8]
}

/// The four big-endian bytes of a 32-bit value.
pub closed spec fn wire_u32(x: u32) -> Seq<u8> {
    seq![
        ((x as int) / 0x1000000) as u8,
        (((x as int) / 0x10000) % 0x100) as u8,
        (((x as int) / 0x100) % 0x100) as u8,
        ((x as int) % 0x100) as u8,
    ]
}

/// The 16-bit value read back from two big-endian bytes.
pub closed spec fn be_u16(b0: u8, b1: u8) -> u16 {
    ((b0 as int) * 0x100 + (b1 as int)) as u16
}

/// The 32-bit value read back from four big-endian bytes.
pub closed spec fn be_u32(b0: u8, b1: u8, b2: u8, b3: u8) -> u32 {
    ((b0 as int) * 0x1000000 + (b1 as int) * 0x10000 + (b2 as int) * 0x100 + (b3 as int)) as u32
}

/// A 16-bit value always writes as exactly two bytes.
pub broadcast proof fn lemma_wire_u16_len(x: u16)
    ensures
        (#[trigger] wire_u16(x)).len() == 2,
{
}

/// A 32-bit value always writes as exactly four bytes.
pub broadcast proof fn lemma_wire_u32_len(x: u32)
    ensures
        (#[trigger] wire_u32(x)).len() == 4,
{
}

/// Reading back the written bytes yields the value, and writing a read value
/// yields the bytes.
pub proof fn lemma_u16_wire(x: u16, b0: u8, b1: u8)
    ensures
        be_u16(wire_u16(x)[0], wire_u16(x)[1]) == x,
        wire_u16(be_u16(b0, b1)) =~= seq![b0, b1],
{
    vstd::arithmetic::div_mod::lemma_fundamental_div_mod(x as int, 0x100);
    vstd::arithmetic::div_mod::lemma_fundamental_div_mod((b0 as int) * 0x100 + (b1 as int), 0x100);
}

/// The same, for 32-bit values and four bytes.
pub proof fn lemma_u32_wire(x: u32, b0: u8, b1: u8, b2: u8, b3: u8)
    ensures
        be_u32(wire_u32(x)[0], wire_u32(x)[1], wire_u32(x)[2], wire_u32(x)[3]) == x,
        wire_u32(be_u32(b0, b1, b2, b3)) =~= seq![b0, b1, b2, b3],
{
    let xi = x as int;
    vstd::arithmetic::div_mod::lemma_fundamental_div_mod(xi, 0x100);
    vstd::arithmetic::div_mod::lemma_fundamental_div_mod(xi / 0x100, 0x100);
    vstd::arithmetic::div_mod::lemma_fundamental_div_mod(xi / 0x10000, 0x100);
    let v = (b0 as int) * 0x1000000 + (b1 as int) * 0x10000 + (b2 as int) * 0x100 + (b3 as int);
    vstd::arithmetic::div_mod::lemma_fundamental_div_mod(v, 0x100);
    vstd::arithmetic::div_mod::lemma_fundamental_div_mod(v / 0x100, 0x100);
    vstd::arithmetic::div_mod::lemma_fundamental_div_mod(v / 0x10000, 0x100);
}

/// Writes one byte.
pub fn serialize_u8(x: u8, output: &mut Vec<u8>) -> (n: usize)
    ensures
        final(output)@ =~= old(output)@ + seq![x],
        n == 1,
{
    output.push(x);
    1
}

/// Reads one byte.
pub fn deserialize_u8(data: &[u8]) -> (r: Result<(u8, usize), SerdeError>)
    ensures
        r is Ok <==> data@.len() >= 1,
        r matches Ok((v, n)) ==> n == 1 && v == data@[0],
        r matches Err(e) ==> e is NotEnoughData,
{
    if data.len() >= 1 {
        Ok((*slice_index_get(data, 0), 1))
    } else {
        Err(SerdeError::NotEnoughData)
    }
}

/// Writes a 16-bit value as two big-endian bytes.
pub fn serialize_u16(x: u16, output: &mut Vec<u8>) -> (n: usize)
    ensures
        final(output)@ =~= old(output)@ + wire_u16(x),
        n == 2,
{
    output.push((x / 0x100) as u8);
    output.push((x % 0x100) as u8);
    proof {
        assert(output@ =~= old(output)@ + wire_u16(x));
    }
    2
}

/// Reads a 16-bit value from two big-endian bytes.
pub fn deserialize_u16(data: &[u8]) -> (r: Result<(u16, usize), SerdeError>)
    ensures
        r is Ok <==> data@.len() >= 2,
        r matches Ok((v, n)) ==> {
            &&& n == 2
            &&& v == be_u16(data@[0], data@[1])
            &&& data@.subrange(0, 2) =~= wire_u16(v)
        },
        r matches Err(e) ==> e is NotEnoughData,
{
    if data.len() >= 2 {
        let b0 = *slice_index_get(data, 0);
        let b1 = *slice_index_get(data, 1);
        let v: u16 = (b0 as u16) * 0x100 + (b1 as u16);
        proof {
            lemma_u16_wire(v, b0, b1);
        }
        Ok((v, 2))
    } else {
        Err(SerdeError::NotEnoughData)
    }
}

/// Writes a 32-bit value as four big-endian bytes.
pub fn serialize_u32(x: u32, output: &mut Vec<u8>) -> (n: usize)
    ensures
        final(output)@ =~= old(output)@ + wire_u32(x),
        n == 4,
{
    output.push((x / 0x1000000) as u8);
    output.push(((x / 0x10000) % 0x100) as u8);
    output.push(((x / 0x100) % 0x100) as u8);
    output.push((x % 0x100) as u8);
    proof {
        assert(output@ =~= old(output)@ + wire_u32(x));
    }
    4
}

/// Reads a 32-bit value from four big-endian bytes.
pub fn deserialize_u32(data: &[u8]) -> (r: Result<(u32, usize), SerdeError>)
    ensures
        r is Ok <==> data@.len() >= 4,
        r matches Ok((v, n)) ==> {
            &&& n == 4
            &&& v == be_u32(data@[0], data@[1], data@[2], data@[3])
            &&& data@.subrange(0, 4) =~= wire_u32(v)
        },
        r matches Err(e) ==> e is NotEnoughData,
{
    if data.len() >= 4 {
        let b0 = *slice_index_get(data, 0);
        let b1 = *slice_index_get(data, 1);
        let b2 = *slice_index_get(data, 2);
        let b3 = *slice_index_get(data, 3);
        let v: u32 = (b0 as u32) * 0x1000000 + (b1 as u32) * 0x10000 + (b2 as u32) * 0x100
            + (b3 as u32);
        proof {
            lemma_u32_wire(v, b0, b1, b2, b3);
        }
        Ok((v, 4))
    } else {
        Err(SerdeError::NotEnoughData)
    }
}

/// A byte string short enough for a length-prefixed encoding.
pub open spec fn fits_length_prefix(s: Seq<u8>) -> bool {
    s.len() < 0xffffffff && s.len() + LENGTH_BYTES <= usize::MAX
}

/// A byte string on the wire: a 32-bit big-endian length, then the bytes.
pub open spec fn wire_bytes(s: Seq<u8>) -> Seq<u8>
    recommends
        s.len() <= 0xffffffff,
{
    wire_u32(s.len() as u32) + s
}

/// Appends a byte slice to the output.
pub fn push_bytes(slice: &[u8], output: &mut Vec<u8>)
    ensures
        final(output)@ =~= old(output)@ + slice@,
{
    let mut i: usize = 0;
    while i < slice.len()
        invariant
            i <= slice@.len(),
            output@ =~= old(output)@ + slice@.subrange(0, i as int),
        decreases slice@.len() - i,
    {
        output.push(*slice_index_get(slice, i));
        proof {
            assert(output@ =~= old(output)@ + slice@.subrange(0, i + 1));
        }
        i += 1;
    }
    proof {
        assert(slice@.subrange(0, slice@.len() as int) =~= slice@);
    }
}

/// Writes a byte string with its length prefix.
pub fn serialize_with_length_prefix(slice: &[u8], output: &mut Vec<u8>) -> (n: usize)
    requires
        fits_length_prefix(slice@),
    ensures
        final(output)@ =~= old(output)@ + wire_bytes(slice@),
        n == slice@.len() + LENGTH_BYTES,
{
    let len: u32 = slice.len() as u32;
    serialize_u32(len, output);
    push_bytes(slice, output);
    proof {
        assert(output@ =~= old(output)@ + wire_bytes(slice@));
    }
    slice.len() + LENGTH_BYTES
}

/// Reads a length-prefixed byte string.
pub fn deserialize_with_length_prefix(data: &[u8]) -> (r: Result<(Vec<u8>, usize), SerdeError>)
    ensures
        r is Ok <==> {
            &&& data@.len() >= 4
            &&& be_u32(data@[0], data@[1], data@[2], data@[3]) < 0xffffffff
            &&& data@.len() >= 4 + be_u32(data@[0], data@[1], data@[2], data@[3])
        },
        r matches Ok((v, n)) ==> {
            &&& n == v@.len() + LENGTH_BYTES
            &&& n <= data@.len()
            &&& fits_length_prefix(v@)
            &&& v@ =~= data@.subrange(4, n as int)
            &&& data@.subrange(0, n as int) =~= wire_bytes(v@)
        },
        r matches Err(e) ==> e is NotEnoughData || e is ParsingError,
{
    let (len, _) = match deserialize_u32(data) {
        Ok(x) => x,
        Err(e) => {
            return Err(e);
        },
    };
    if len >= 0xffffffff {
        return Err(SerdeError::ParsingError {
            ty_name: "length prefix",
            error: "length prefix too large".to_owned(),
        });
    }
    let len = len as usize;
    if data.len() - 4 < len {
        return Err(SerdeError::NotEnoughData);
    }
    let payload = slice_subrange(data, 4, 4 + len);
    let v = slice_to_vec(payload);
    proof {
        assert(data@.subrange(0, (4 + len) as int) =~= wire_bytes(v@));
    }
    Ok((v, 4 + len))
}

/// A fixed-size byte block on the wire: its (statically known) size as a
/// one-byte prefix for sizes under 255, as a two-byte big-endian prefix
/// otherwise, then the bytes.
pub open spec fn wire_fixed(s: Seq<u8>) -> Seq<u8>
    recommends
        s.len() < 0xffff,
{
    if s.len() < 0xff {
        seq![s.len() as u8] + s
    } else {
        wire_u16(s.len() as u16) + s
    }
}

/// Writes a fixed-size byte block with its size prefix.
pub fn serialize_fixed(block: &[u8], output: &mut Vec<u8>) -> (n: usize)
    requires
        block@.len() < 0xffff,
    ensures
        final(output)@ =~= old(output)@ + wire_fixed(block@),
        n == wire_fixed(block@).len(),
{
    if block.len() < 0xff {
        output.push(block.len() as u8);
    } else {
        serialize_u16(block.len() as u16, output);
    }
    push_bytes(block, output);
    proof {
        assert(output@ =~= old(output)@ + wire_fixed(block@));
    }
    if block.len() < 0xff {
        block.len() + 1
    } else {
        block.len() + 2
    }
}

/// Reads a fixed-size byte block of the given expected size; the size written
/// in the prefix must agree with it.
pub fn deserialize_fixed(data: &[u8], size: usize) -> (r: Result<(Vec<u8>, usize), SerdeError>)
    requires
        size < 0xffff,
    ensures
        r matches Ok((v, n)) ==> {
            &&& v@.len() == size
            &&& n == wire_fixed(v@).len()
            &&& n <= data@.len()
            &&& data@.subrange(0, n as int) =~= wire_fixed(v@)
        },
        r is Ok <==> {
            let pl: int = if size < 0xff {
                1
            } else {
                2
            };
            &&& data@.len() >= pl + size
            &&& if size < 0xff {
                data@[0] == size as u8
            } else {
                be_u16(data@[0], data@[1]) == size as u16
            }
        },
        r matches Err(e) ==> e is NotEnoughData || e is ParsingError,
{
    let prefix_len: usize = if size < 0xff {
        1
    } else {
        2
    };
    if data.len() < prefix_len {
        return Err(SerdeError::NotEnoughData);
    }
    let written: usize = if size < 0xff {
        *slice_index_get(data, 0) as usize
    } else {
        let b0 = *slice_index_get(data, 0);
        let b1 = *slice_index_get(data, 1);
        ((b0 as u16) * 0x100 + (b1 as u16)) as usize
    };
    if written != size {
        return Err(SerdeError::ParsingError {
            ty_name: "fixed-size bytes",
            error: "size prefix does not match the expected size".to_owned(),
        });
    }
    if data.len() < prefix_len + size {
        return Err(SerdeError::NotEnoughData);
    }
    let payload = slice_subrange(data, prefix_len, prefix_len + size);
    let v = slice_to_vec(payload);
    proof {
        if size < 0xff {
            assert(data@.subrange(0, (prefix_len + size) as int) =~= wire_fixed(v@));
        } else {
            lemma_u16_wire(size as u16, data@[0], data@[1]);
            assert(data@.subrange(0, (prefix_len + size) as int) =~= wire_fixed(v@));
        }
    }
    Ok((v, prefix_len + size))
}

/// A prefix agrees with the whole sequence element by element.
pub proof fn lemma_prefix_index(p: Seq<u8>, d: Seq<u8>)
    requires
        p.is_prefix_of(d),
    ensures
        p.len() <= d.len(),
        forall|i: int| 0 <= i < p.len() ==> p[i] == #[trigger] d[i],
        d.subrange(0, p.len() as int) =~= p,
{
    assert forall|i: int| 0 <= i < p.len() implies p[i] == #[trigger] d[i] by {
        assert(p[i] == d.subrange(0, p.len() as int)[i]);
    }
}

/// The parts of a concatenation are prefixes of anything the concatenation is
/// a prefix of: the first from the start, the second after it.
pub proof fn lemma_prefix_parts(a: Seq<u8>, b: Seq<u8>, d: Seq<u8>)
    requires
        (a + b).is_prefix_of(d),
    ensures
        a.is_prefix_of(d),
        b.is_prefix_of(d.subrange(a.len() as int, d.len() as int)),
{
    lemma_prefix_index(a + b, d);
    assert(a =~= d.subrange(0, a.len() as int));
    assert forall|i: int| 0 <= i < b.len() implies b[i] == d.subrange(
        a.len() as int,
        d.len() as int,
    )[i] by {
        assert((a + b)[a.len() + i] == d[a.len() + i]);
    }
    assert(b =~= d.subrange(a.len() as int, d.len() as int).subrange(0, b.len() as int));
}

/// Two adjacent pieces read out of a sequence concatenate to its front part.
pub proof fn lemma_split_concat(d: Seq<u8>, n1: int, n2: int, a: Seq<u8>, b: Seq<u8>)
    requires
        0 <= n1,
        0 <= n2,
        n1 + n2 <= d.len(),
        d.subrange(0, n1) =~= a,
        d.subrange(n1, d.len() as int).subrange(0, n2) =~= b,
    ensures
        d.subrange(0, n1 + n2) =~= a + b,
{
    assert forall|i: int| 0 <= i < n1 + n2 implies d.subrange(0, n1 + n2)[i] == (a + b)[i] by {
        if i < n1 {
            assert(a[i] == d.subrange(0, n1)[i]);
        } else {
            assert(b[i - n1] == d.subrange(n1, d.len() as int).subrange(0, n2)[i - n1]);
        }
    }
}

/// A character on the wire: its scalar value as four big-endian bytes.
pub open spec fn wire_char(c: char) -> Seq<u8> {
    wire_u32(c as u32)
}

/// Writes one character.
pub fn serialize_char(c: char, output: &mut Vec<u8>) -> (n: usize)
    ensures
        final(output)@ =~= old(output)@ + wire_char(c),
        n == 4,
{
    serialize_u32(c as u32, output)
}

/// Reads one character; four bytes that name no Unicode scalar value are
/// rejected.
pub fn deserialize_char(data: &[u8]) -> (r: Result<(char, usize), SerdeError>)
    ensures
        r is Ok <==> data@.len() >= 4 && is_scalar(be_u32(data@[0], data@[1], data@[2], data@[3])),
        r matches Ok((c, n)) ==> {
            &&& n == 4
            &&& c as u32 == be_u32(data@[0], data@[1], data@[2], data@[3])
            &&& data@.subrange(0, 4) =~= wire_char(c)
        },
        r matches Err(e) ==> e is NotEnoughData || e is ParsingError,
        data@.len() < 4 ==> (r matches Err(e) && e is NotEnoughData),
{
    let (raw, _) = match deserialize_u32(data) {
        Ok(x) => x,
        Err(e) => {
            return Err(e);
        },
    };
    match char_from_u32(raw) {
        Some(c) => Ok((c, 4)),
        None => Err(SerdeError::ParsingError {
            ty_name: "char",
            error: "not a unicode scalar value".to_owned(),
        }),
    }
}

/// A string on the wire: its UTF-8 bytes, length-prefixed.
pub open spec fn wire_str(s: Seq<char>) -> Seq<u8>
    recommends
        encode_utf8(s).len() < 0xffffffff,
{
    wire_bytes(encode_utf8(s))
}

/// Writes a string as its length-prefixed UTF-8 bytes.
pub fn serialize_str(s: &str, output: &mut Vec<u8>) -> (n: usize)
    requires
        fits_length_prefix(s.spec_bytes()),
    ensures
        final(output)@ =~= old(output)@ + wire_str(s@),
        n == encode_utf8(s@).len() + LENGTH_BYTES,
{
    serialize_with_length_prefix(s.as_bytes(), output)
}

/// Reads a length-prefixed string; bytes that are not valid UTF-8 are
/// rejected.
pub fn deserialize_string(data: &[u8]) -> (r: Result<(String, usize), SerdeError>)
    ensures
        r matches Ok((s, n)) ==> {
            &&& n == encode_utf8(s@).len() + LENGTH_BYTES
            &&& n <= data@.len()
            &&& data@.subrange(0, n as int) =~= wire_str(s@)
        },
        r matches Err(e) ==> e is NotEnoughData || e is ParsingError || e is InvalidUTF8,
{
    let (bytes, n) = match deserialize_with_length_prefix(data) {
        Ok(x) => x,
        Err(e) => {
            return Err(e);
        },
    };
    let ghost payload = bytes@;
    match string_from_utf8(bytes) {
        Some(s) => {
            proof {
                vstd::utf8::decode_utf8_encode_utf8(payload);
            }
            Ok((s, n))
        },
        None => Err(SerdeError::InvalidUTF8),
    }
}

/// Relies on `char::from_u32`: `Some` exactly on Unicode scalar values, and
/// the returned character has the given value.
#[verifier::external_body]
pub(crate) fn char_from_u32(v: u32) -> (r: Option<char>)
    ensures
        r is Some <==> is_scalar(v),
        r matches Some(c) ==> c as u32 == v,
{
    char::from_u32(v)
}

/// Relies on `String::from_utf8`: it succeeds exactly on valid UTF-8 input,
/// and the resulting string's characters decode the bytes.
#[verifier::external_body]
pub(crate) fn string_from_utf8(bytes: Vec<u8>) -> (r: Option<String>)
    ensures
        r matches Some(s) ==> valid_utf8(bytes@) && s@ == decode_utf8(bytes@),
        valid_utf8(bytes@) ==> r is Some,
{
    String::from_utf8(bytes).ok()
}

} // verus!
