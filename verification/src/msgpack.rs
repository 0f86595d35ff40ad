//! MessagePack encoding, as the `rmp` crate writes it, and skipping over
//! encoded values.
use vstd::prelude::*;
use crate::bytes::{ByteReader, be_u16, be_u32, read_u8, u32_be_bytes};
use crate::error::{Error, mk_err};

verus! {

/// The two bytes of `n`, most significant first.
pub open spec fn u16_be_bytes(n: u16) -> Seq<u8> {
    seq![(n / 256) as u8, (n % 256) as u8]
}

/// The eight bytes of `n`, most significant first.
pub open spec fn u64_be_bytes(n: u64) -> Seq<u8> {
    u32_be_bytes((n / 4294967296) as u32) + u32_be_bytes((n % 4294967296) as u32)
}

/// The encoding of the length of an array of `len` elements.
pub open spec fn array_len_bytes(len: u32) -> Seq<u8> {
    if len < 16 {
        seq![(0x90 + len) as u8]
    } else if len <= 0xffff {
        seq![0xdcu8] + u16_be_bytes(len as u16)
    } else {
        seq![0xddu8] + u32_be_bytes(len)
    }
}

/// The encoding of the length of a map of `len` entries.
pub open spec fn map_len_bytes(len: u32) -> Seq<u8> {
    if len < 16 {
        seq![(0x80 + len) as u8]
    } else if len <= 0xffff {
        seq![0xdeu8] + u16_be_bytes(len as u16)
    } else {
        seq![0xdfu8] + u32_be_bytes(len)
    }
}

/// The encoding of the length of a string of `len` bytes.
pub open spec fn str_len_bytes(len: u32) -> Seq<u8> {
    if len < 32 {
        seq![(0xa0 + len) as u8]
    } else if len < 256 {
        seq![0xd9u8, len as u8]
    } else if len <= 0xffff {
        seq![0xdau8] + u16_be_bytes(len as u16)
    } else {
        seq![0xdbu8] + u32_be_bytes(len)
    }
}

/// Writes the length of an array with `rmp::encode::write_array_len`.
///
/// Trusted: the crate's source writes a fixarray marker below 16, else the
/// array16 marker and two bytes up to `u16::MAX`, else the array32 marker
/// and four bytes; numbers big-endian. Writing to a vector does not fail.
#[verifier::external_body]
pub(crate) fn write_array_len(out: &mut Vec<u8>, len: u32)
    ensures
        final(out)@ == old(out)@ + array_len_bytes(len),
{
    let _ = rmp::encode::write_array_len(out, len);
}

/// Writes the length of a map with `rmp::encode::write_map_len`.
///
/// Trusted: as for arrays, with the fixmap, map16 and map32 markers.
#[verifier::external_body]
pub(crate) fn write_map_len(out: &mut Vec<u8>, len: u32)
    ensures
        final(out)@ == old(out)@ + map_len_bytes(len),
{
    let _ = rmp::encode::write_map_len(out, len);
}

/// Writes the length of a string with `rmp::encode::write_str_len`.
///
/// Trusted: the crate's source writes a fixstr marker below 32, else the
/// str8 marker and one byte below 256, else the str16 marker and two bytes
/// up to `u16::MAX`, else the str32 marker and four bytes.
#[verifier::external_body]
pub(crate) fn write_str_len(out: &mut Vec<u8>, len: u32)
    ensures
        final(out)@ == old(out)@ + str_len_bytes(len),
{
    let _ = rmp::encode::write_str_len(out, len);
}

/// Writes an `i8` with `rmp::encode::write_i8`.
///
/// Trusted: the crate's source writes the int8 marker and the byte.
#[verifier::external_body]
pub(crate) fn write_i8(out: &mut Vec<u8>, val: i8)
    ensures
        final(out)@ == old(out)@ + seq![0xd0u8, val as u8],
{
    let _ = rmp::encode::write_i8(out, val);
}

/// Writes a `u32` with `rmp::encode::write_u32`.
///
/// Trusted: the crate's source writes the uint32 marker and four bytes.
#[verifier::external_body]
pub(crate) fn write_u32(out: &mut Vec<u8>, val: u32)
    ensures
        final(out)@ == old(out)@ + seq![0xceu8] + u32_be_bytes(val),
{
    let _ = rmp::encode::write_u32(out, val);
}

/// Writes a `u64` with `rmp::encode::write_u64`.
///
/// Trusted: the crate's source writes the uint64 marker and eight bytes.
#[verifier::external_body]
pub(crate) fn write_u64(out: &mut Vec<u8>, val: u64)
    ensures
        final(out)@ == old(out)@ + seq![0xcfu8] + u64_be_bytes(val),
{
    let _ = rmp::encode::write_u64(out, val);
}

/// Writes a `bool` with `rmp::encode::write_bool`.
///
/// Trusted: the crate's source writes the true or false marker.
#[verifier::external_body]
pub(crate) fn write_bool(out: &mut Vec<u8>, val: bool)
    ensures
        final(out)@ == old(out)@ + seq![if val { 0xc3u8 } else { 0xc2u8 }],
{
    let _ = rmp::encode::write_bool(out, val);
}

/// The kinds of MessagePack markers, as `rmp::Marker` tells them apart.
#[derive(Clone, Copy, Debug, PartialEq, Eq, Structural)]
pub enum Marker {
    FixPos(u8),
    FixNeg(i8),
    Null,
    True,
    False,
    U8,
    U16,
    U32,
    U64,
    I8,
    I16,
    I32,
    I64,
    F32,
    F64,
    FixStr(u8),
    Str8,
    Str16,
    Str32,
    Bin8,
    Bin16,
    Bin32,
    FixArray(u8),
    Array16,
    Array32,
    FixMap(u8),
    Map16,
    Map32,
    FixExt1,
    FixExt2,
    FixExt4,
    FixExt8,
    FixExt16,
    Ext8,
    Ext16,
    Ext32,
    Reserved,
}

/// The marker a MessagePack value starting with the byte `b` has.
pub open spec fn marker_of(b: u8) -> Marker {
    if b <= 0x7f {
        Marker::FixPos(b)
    } else if b <= 0x8f {
        Marker::FixMap((b - 0x80) as u8)
    } else if b <= 0x9f {
        Marker::FixArray((b - 0x90) as u8)
    } else if b <= 0xbf {
        Marker::FixStr((b - 0xa0) as u8)
    } else if b >= 0xe0 {
        Marker::FixNeg((b - 256) as i8)
    } else {
        match b {
            0xc0u8 => Marker::Null,
            0xc1u8 => Marker::Reserved,
            0xc2u8 => Marker::False,
            0xc3u8 => Marker::True,
            0xc4u8 => Marker::Bin8,
            0xc5u8 => Marker::Bin16,
            0xc6u8 => Marker::Bin32,
            0xc7u8 => Marker::Ext8,
            0xc8u8 => Marker::Ext16,
            0xc9u8 => Marker::Ext32,
            0xcau8 => Marker::F32,
            0xcbu8 => Marker::F64,
            0xccu8 => Marker::U8,
            0xcdu8 => Marker::U16,
            0xceu8 => Marker::U32,
            0xcfu8 => Marker::U64,
            0xd0u8 => Marker::I8,
            0xd1u8 => Marker::I16,
            0xd2u8 => Marker::I32,
            0xd3u8 => Marker::I64,
            0xd4u8 => Marker::FixExt1,
            0xd5u8 => Marker::FixExt2,
            0xd6u8 => Marker::FixExt4,
            0xd7u8 => Marker::FixExt8,
            0xd8u8 => Marker::FixExt16,
            0xd9u8 => Marker::Str8,
            0xdau8 => Marker::Str16,
            0xdbu8 => Marker::Str32,
            0xdcu8 => Marker::Array16,
            0xddu8 => Marker::Array32,
            0xdeu8 => Marker::Map16,
            _ => Marker::Map32,
        }
    }
}

/// Reads the marker of a MessagePack value from its first byte.
pub fn marker_from_u8(b: u8) -> (r: Marker)
    ensures
        r == marker_of(b),
{
    if b <= 0x7f {
        Marker::FixPos(b)
    } else if b <= 0x8f {
        Marker::FixMap(b - 0x80)
    } else if b <= 0x9f {
        Marker::FixArray(b - 0x90)
    } else if b <= 0xbf {
        Marker::FixStr(b - 0xa0)
    } else if b >= 0xe0 {
        Marker::FixNeg((b as i16 - 256) as i8)
    } else {
        match b {
            0xc0 => Marker::Null,
            0xc1 => Marker::Reserved,
            0xc2 => Marker::False,
            0xc3 => Marker::True,
            0xc4 => Marker::Bin8,
            0xc5 => Marker::Bin16,
            0xc6 => Marker::Bin32,
            0xc7 => Marker::Ext8,
            0xc8 => Marker::Ext16,
            0xc9 => Marker::Ext32,
            0xca => Marker::F32,
            0xcb => Marker::F64,
            0xcc => Marker::U8,
            0xcd => Marker::U16,
            0xce => Marker::U32,
            0xcf => Marker::U64,
            0xd0 => Marker::I8,
            0xd1 => Marker::I16,
            0xd2 => Marker::I32,
            0xd3 => Marker::I64,
            0xd4 => Marker::FixExt1,
            0xd5 => Marker::FixExt2,
            0xd6 => Marker::FixExt4,
            0xd7 => Marker::FixExt8,
            0xd8 => Marker::FixExt16,
            0xd9 => Marker::Str8,
            0xda => Marker::Str16,
            0xdb => Marker::Str32,
            0xdc => Marker::Array16,
            0xdd => Marker::Array32,
            0xde => Marker::Map16,
            _ => Marker::Map32,
        }
    }
}

/// The `u64` that eight bytes encode, most significant byte first.
pub open spec fn be_u64(b: Seq<u8>) -> u64 {
    (be_u32(b.take(4)) as int * 4294967296 + be_u32(b.subrange(4, 8)) as int) as u64
}

/// The signed number that `n` unsigned `bits`-bit value stands for in two's
/// complement.
pub open spec fn signed(v: int, bits: nat) -> int {
    if v >= crate::msgpack::half(bits) {
        v - 2 * crate::msgpack::half(bits)
    } else {
        v
    }
}

/// Half of two to the power `bits`, for the widths of MessagePack numbers.
pub open spec fn half(bits: nat) -> int {
    if bits == 8 {
        128
    } else if bits == 16 {
        32768
    } else if bits == 32 {
        2147483648
    } else {
        9223372036854775808
    }
}

/// The integer at the front of `bs`, as `rmp::decode::read_int` reads it,
/// and the bytes after it; `None` when `bs` does not start with an integer.
pub open spec fn spec_read_int(bs: Seq<u8>) -> Option<(int, Seq<u8>)> {
    if bs.len() == 0 {
        None
    } else {
        let rest = bs.skip(1);
        match marker_of(bs[0]) {
            Marker::FixPos(v) => Some((v as int, rest)),
            Marker::FixNeg(v) => Some((v as int, rest)),
            Marker::U8 => if rest.len() >= 1 { Some((rest[0] as int, rest.skip(1))) } else { None },
            Marker::U16 => if rest.len() >= 2 {
                Some((be_u16(rest.take(2)) as int, rest.skip(2)))
            } else {
                None
            },
            Marker::U32 => if rest.len() >= 4 {
                Some((be_u32(rest.take(4)) as int, rest.skip(4)))
            } else {
                None
            },
            Marker::U64 => if rest.len() >= 8 {
                Some((be_u64(rest.take(8)) as int, rest.skip(8)))
            } else {
                None
            },
            Marker::I8 => if rest.len() >= 1 {
                Some((signed(rest[0] as int, 8), rest.skip(1)))
            } else {
                None
            },
            Marker::I16 => if rest.len() >= 2 {
                Some((signed(be_u16(rest.take(2)) as int, 16), rest.skip(2)))
            } else {
                None
            },
            Marker::I32 => if rest.len() >= 4 {
                Some((signed(be_u32(rest.take(4)) as int, 32), rest.skip(4)))
            } else {
                None
            },
            Marker::I64 => if rest.len() >= 8 {
                Some((signed(be_u64(rest.take(8)) as int, 64), rest.skip(8)))
            } else {
                None
            },
            _ => None,
        }
    }
}

/// Reads a big-endian `u64`.
fn read_be_u64(read: &mut ByteReader) -> (r: Result<u64, Error>)
    ensures
        if old(read)@.len() >= 8 {
            &&& r == Ok::<u64, Error>(be_u64(old(read)@.take(8)))
            &&& final(read)@ == old(read)@.skip(8)
        } else {
            r is Err
        },
{
    let ghost b = read@;
    let hi = crate::bytes::read_u32(read)?;
    let lo = crate::bytes::read_u32(read)?;
    assert(b.take(8).take(4) =~= b.take(4));
    assert(b.take(8).subrange(4, 8) =~= b.skip(4).take(4));
    assert(b.skip(4).skip(4) =~= b.skip(8));
    Ok((hi as u64) * 4294967296 + lo as u64)
}

/// Reads an integer, as `rmp::decode::read_int` does, into the widest
/// type: any MessagePack integer fits.
pub fn read_int(read: &mut ByteReader) -> (r: Result<i128, Error>)
    ensures
        match spec_read_int(old(read)@) {
            Some((v, rest)) => r == Ok::<i128, Error>(v as i128) && final(read)@ == rest,
            None => r is Err,
        },
{
    let ghost b = read@;
    let first = read_u8(read)?;
    let m = marker_from_u8(first);
    let ghost rest = read@;
    assert(rest == b.skip(1));
    match m {
        Marker::FixPos(v) => Ok(v as i128),
        Marker::FixNeg(v) => Ok(v as i128),
        Marker::U8 => {
            let v = read_u8(read)?;
            Ok(v as i128)
        },
        Marker::U16 => {
            let v = crate::bytes::read_u16(read)?;
            Ok(v as i128)
        },
        Marker::U32 => {
            let v = crate::bytes::read_u32(read)?;
            Ok(v as i128)
        },
        Marker::U64 => {
            let v = read_be_u64(read)?;
            Ok(v as i128)
        },
        Marker::I8 => {
            let v = read_u8(read)?;
            Ok(if v >= 128 { v as i128 - 256 } else { v as i128 })
        },
        Marker::I16 => {
            let v = crate::bytes::read_u16(read)?;
            Ok(if v >= 32768 { v as i128 - 65536 } else { v as i128 })
        },
        Marker::I32 => {
            let v = crate::bytes::read_u32(read)?;
            Ok(if v >= 2147483648 { v as i128 - 4294967296 } else { v as i128 })
        },
        Marker::I64 => {
            let v = read_be_u64(read)?;
            Ok(if v >= 9223372036854775808 { v as i128 - 18446744073709551616 } else { v as i128 })
        },
        _ => Err(mk_err("msgpack value is not an integer")),
    }
}

/// The length at the front of `bs` of an array, as
/// `rmp::decode::read_array_len` reads it, and the bytes after it.
pub open spec fn spec_read_array_len(bs: Seq<u8>) -> Option<(u32, Seq<u8>)> {
    if bs.len() == 0 {
        None
    } else {
        let rest = bs.skip(1);
        match marker_of(bs[0]) {
            Marker::FixArray(n) => Some((n as u32, rest)),
            Marker::Array16 => if rest.len() >= 2 {
                Some((be_u16(rest.take(2)) as u32, rest.skip(2)))
            } else {
                None
            },
            Marker::Array32 => if rest.len() >= 4 {
                Some((be_u32(rest.take(4)), rest.skip(4)))
            } else {
                None
            },
            _ => None,
        }
    }
}

/// Reads the length of an array, as `rmp::decode::read_array_len` does.
pub fn read_array_len(read: &mut ByteReader) -> (r: Result<u32, Error>)
    ensures
        match spec_read_array_len(old(read)@) {
            Some((n, rest)) => r == Ok::<u32, Error>(n) && final(read)@ == rest,
            None => r is Err,
        },
{
    let first = read_u8(read)?;
    match marker_from_u8(first) {
        Marker::FixArray(n) => Ok(n as u32),
        Marker::Array16 => {
            let n = crate::bytes::read_u16(read)?;
            Ok(n as u32)
        },
        Marker::Array32 => crate::bytes::read_u32(read),
        _ => Err(mk_err("msgpack value is not an array")),
    }
}

/// The length at the front of `bs` of a string, as
/// `rmp::decode::read_str_len` reads it, and the bytes after it.
pub open spec fn spec_read_str_len(bs: Seq<u8>) -> Option<(u32, Seq<u8>)> {
    if bs.len() == 0 {
        None
    } else {
        let rest = bs.skip(1);
        match marker_of(bs[0]) {
            Marker::FixStr(n) => Some((n as u32, rest)),
            Marker::Str8 => if rest.len() >= 1 { Some((rest[0] as u32, rest.skip(1))) } else { None },
            Marker::Str16 => if rest.len() >= 2 {
                Some((be_u16(rest.take(2)) as u32, rest.skip(2)))
            } else {
                None
            },
            Marker::Str32 => if rest.len() >= 4 {
                Some((be_u32(rest.take(4)), rest.skip(4)))
            } else {
                None
            },
            _ => None,
        }
    }
}

/// Reads the length of a string, as `rmp::decode::read_str_len` does.
pub fn read_str_len(read: &mut ByteReader) -> (r: Result<u32, Error>)
    ensures
        match spec_read_str_len(old(read)@) {
            Some((n, rest)) => r == Ok::<u32, Error>(n) && final(read)@ == rest,
            None => r is Err,
        },
{
    let first = read_u8(read)?;
    match marker_from_u8(first) {
        Marker::FixStr(n) => Ok(n as u32),
        Marker::Str8 => {
            let n = read_u8(read)?;
            Ok(n as u32)
        },
        Marker::Str16 => {
            let n = crate::bytes::read_u16(read)?;
            Ok(n as u32)
        },
        Marker::Str32 => crate::bytes::read_u32(read),
        _ => Err(mk_err("msgpack value is not a string")),
    }
}

/// The type and data byte of a one byte extension value at the front of
/// `bs`, as `rmp::decode::read_fixext1` reads them, and the bytes after.
pub open spec fn spec_read_fixext1(bs: Seq<u8>) -> Option<(u8, u8, Seq<u8>)> {
    if bs.len() >= 3 && marker_of(bs[0]) == Marker::FixExt1 {
        Some((bs[1], bs[2], bs.skip(3)))
    } else {
        None
    }
}

/// Reads a one byte extension value, as `rmp::decode::read_fixext1` does:
/// its type byte and its data byte.
pub fn read_fixext1(read: &mut ByteReader) -> (r: Result<(u8, u8), Error>)
    ensures
        match spec_read_fixext1(old(read)@) {
            Some((t, d, rest)) => r == Ok::<(u8, u8), Error>((t, d)) && final(read)@ == rest,
            None => r is Err,
        },
{
    let ghost b = read@;
    let first = read_u8(read)?;
    match marker_from_u8(first) {
        Marker::FixExt1 => {
            let t = read_u8(read)?;
            let d = read_u8(read)?;
            assert(b.skip(1).skip(1).skip(1) =~= b.skip(3));
            Ok((t, d))
        },
        _ => Err(mk_err("msgpack value is not a fixext1")),
    }
}

/// Reading back the two bytes written for a `u16` gives that `u16`.
pub proof fn lemma_u16_round_trip(n: u16)
    ensures
        be_u16(u16_be_bytes(n)) == n,
{
    let b = u16_be_bytes(n);
    assert(b[0] as int == n / 256);
    assert(b[1] as int == n % 256);
}

/// An array length written with [`write_array_len`] reads back as the same
/// length, leaving what follows it.
pub proof fn lemma_array_len_round_trip(n: u32, rest: Seq<u8>)
    ensures
        spec_read_array_len(array_len_bytes(n) + rest) == Some((n, rest)),
{
    let bs = array_len_bytes(n) + rest;
    if n < 16 {
        assert(bs.skip(1) =~= rest);
    } else if n <= 0xffff {
        lemma_u16_round_trip(n as u16);
        assert(bs.skip(1).take(2) =~= u16_be_bytes(n as u16));
        assert(bs.skip(1).skip(2) =~= rest);
    } else {
        crate::bytes::lemma_u32_round_trip(n);
        assert(bs.skip(1).take(4) =~= u32_be_bytes(n));
        assert(bs.skip(1).skip(4) =~= rest);
    }
}

/// A string length written with [`write_str_len`] reads back as the same
/// length, leaving what follows it.
pub proof fn lemma_str_len_round_trip(n: u32, rest: Seq<u8>)
    ensures
        spec_read_str_len(str_len_bytes(n) + rest) == Some((n, rest)),
{
    let bs = str_len_bytes(n) + rest;
    if n < 32 {
        assert(bs.skip(1) =~= rest);
    } else if n < 256 {
        assert(bs.skip(1).skip(1) =~= rest);
    } else if n <= 0xffff {
        lemma_u16_round_trip(n as u16);
        assert(bs.skip(1).take(2) =~= u16_be_bytes(n as u16));
        assert(bs.skip(1).skip(2) =~= rest);
    } else {
        crate::bytes::lemma_u32_round_trip(n);
        assert(bs.skip(1).take(4) =~= u32_be_bytes(n));
        assert(bs.skip(1).skip(4) =~= rest);
    }
}

} // verus!
