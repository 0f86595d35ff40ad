//! Reading and writing the integers and strings of elm-pair's wire
//! protocols: big-endian `u32`s, single bytes and UTF-8 text.
use vstd::prelude::*;
use vstd::utf8::{decode_utf8, valid_utf8};
use crate::error::{Error, mk_err};
use crate::text::str_from_utf8;

verus! {

/// The `u32` that four bytes encode, most significant byte first.
pub open spec fn be_u32(b: Seq<u8>) -> u32 {
    (b[0] as int * 16777216 + b[1] as int * 65536 + b[2] as int * 256 + b[3] as int) as u32
}

/// The four bytes of `n`, most significant first.
pub open spec fn u32_be_bytes(n: u32) -> Seq<u8> {
    seq![(n / 16777216) as u8, (n / 65536 % 256) as u8, (n / 256 % 256) as u8, (n % 256) as u8]
}

/// Reading back the bytes written for a `u32` gives that `u32`.
pub proof fn lemma_u32_round_trip(n: u32)
    ensures
        be_u32(u32_be_bytes(n)) == n,
{
    let b = u32_be_bytes(n);
    assert(b[0] as int == n / 16777216);
    assert(b[1] as int == n / 65536 % 256);
    assert(b[2] as int == n / 256 % 256);
    assert(b[3] as int == n % 256);
    assert((n / 16777216) * 16777216 + (n / 65536 % 256) * 65536 + (n / 256 % 256) * 256 + n % 256
        == n) by (nonlinear_arith);
}

/// Bytes read from the front of a byte sequence.
pub struct ByteReader {
    bytes: Vec<u8>,
    pos: usize,
}

impl View for ByteReader {
    type V = Seq<u8>;

    /// The bytes not read yet.
    closed spec fn view(&self) -> Seq<u8> {
        self.bytes@.skip(self.pos as int)
    }
}

impl ByteReader {
    #[verifier::type_invariant]
    spec fn inv(self) -> bool {
        self.pos <= self.bytes@.len()
    }

    /// A reader of the bytes `bytes`.
    pub fn new(bytes: Vec<u8>) -> (r: ByteReader)
        ensures
            r@ == bytes@,
    {
        let r = ByteReader { bytes, pos: 0 };
        assert(r.bytes@.skip(0) =~= r.bytes@);
        r
    }

    /// The number of bytes not read yet.
    pub fn remaining(&self) -> (r: usize)
        ensures
            r == self@.len(),
    {
        proof {
            use_type_invariant(self);
        }
        self.bytes.len() - self.pos
    }

    /// Takes the next `n` bytes.
    fn take(&mut self, n: usize) -> (r: Vec<u8>)
        requires
            n <= old(self)@.len(),
        ensures
            r@ == old(self)@.take(n as int),
            final(self)@ == old(self)@.skip(n as int),
    {
        proof {
            use_type_invariant(&*self);
        }
        let mut out: Vec<u8> = Vec::new();
        let start = self.pos;
        let len = self.bytes.len();
        let mut i: usize = 0;
        while i < n
            invariant
                start == self.pos,
                len == self.bytes@.len(),
                self.pos + n <= self.bytes@.len(),
                i <= n,
                out@ == self.bytes@.subrange(start as int, start + i),
            decreases n - i,
        {
            out.push(self.bytes[start + i]);
            assert(self.bytes@.subrange(start as int, start + i + 1) =~= self.bytes@.subrange(
                start as int,
                start + i,
            ).push(self.bytes@[start + i]));
            i = i + 1;
        }
        let ghost before = self@;
        self.pos = start + n;
        assert(out@ =~= before.take(n as int));
        assert(self@ =~= before.skip(n as int));
        out
    }
}

/// Reads a byte; fails, reading nothing, when no byte is left.
pub fn read_u8(read: &mut ByteReader) -> (r: Result<u8, Error>)
    ensures
        if old(read)@.len() >= 1 {
            &&& r == Ok::<u8, Error>(old(read)@[0])
            &&& final(read)@ == old(read)@.skip(1)
        } else {
            &&& r matches Err(e) && e.0@ == "could not read u8"@
            &&& final(read)@ == old(read)@
        },
{
    if read.remaining() < 1 {
        return Err(mk_err("could not read u8"));
    }
    let b = read.take(1);
    Ok(b[0])
}

/// Reads a big-endian `u32`; fails, reading nothing, when fewer than four
/// bytes are left.
pub fn read_u32(read: &mut ByteReader) -> (r: Result<u32, Error>)
    ensures
        if old(read)@.len() >= 4 {
            &&& r == Ok::<u32, Error>(be_u32(old(read)@.take(4)))
            &&& final(read)@ == old(read)@.skip(4)
        } else {
            &&& r matches Err(e) && e.0@ == "could not read u32"@
            &&& final(read)@ == old(read)@
        },
{
    if read.remaining() < 4 {
        return Err(mk_err("could not read u32"));
    }
    let b = read.take(4);
    let n: u32 = (b[0] as u32) * 16777216 + (b[1] as u32) * 65536 + (b[2] as u32) * 256
        + (b[3] as u32);
    Ok(n)
}

/// Reads `len` bytes of UTF-8 text. Fails, reading nothing, when fewer bytes
/// are left, and fails after reading them when they are not UTF-8.
pub fn read_string(read: &mut ByteReader, len: usize) -> (r: Result<String, Error>)
    ensures
        if old(read)@.len() < len {
            &&& r matches Err(e) && e.0@ == "failed reading string"@
            &&& final(read)@ == old(read)@
        } else {
            let taken = old(read)@.take(len as int);
            &&& final(read)@ == old(read)@.skip(len as int)
            &&& valid_utf8(taken) ==> (r matches Ok(s) && s@ == decode_utf8(taken))
            &&& !valid_utf8(taken) ==> (r matches Err(e) && e.0@
                == "failed to parse string as utf8"@)
        },
{
    if read.remaining() < len {
        return Err(mk_err("failed reading string"));
    }
    let b = read.take(len);
    match str_from_utf8(b.as_slice()) {
        Some(s) => Ok(s.to_string()),
        None => Err(mk_err("failed to parse string as utf8")),
    }
}

/// Writes a byte.
pub fn write_u8(write: &mut Vec<u8>, n: u8) -> (r: Result<(), Error>)
    ensures
        r is Ok,
        final(write)@ == old(write)@.push(n),
{
    write.push(n);
    Ok(())
}

/// Writes a `u32`, most significant byte first.
pub fn write_u32(write: &mut Vec<u8>, n: u32) -> (r: Result<(), Error>)
    ensures
        r is Ok,
        final(write)@ == old(write)@ + u32_be_bytes(n),
{
    let ghost start = write@;
    write.push((n / 16777216) as u8);
    write.push((n / 65536 % 256) as u8);
    write.push((n / 256 % 256) as u8);
    write.push((n % 256) as u8);
    assert(write@ =~= start + u32_be_bytes(n));
    Ok(())
}

/// Writes bytes as they are.
pub fn write_bytes(write: &mut Vec<u8>, bytes: &[u8]) -> (r: Result<(), Error>)
    ensures
        r is Ok,
        final(write)@ == old(write)@ + bytes@,
{
    let ghost start = write@;
    let mut i: usize = 0;
    while i < bytes.len()
        invariant
            i <= bytes@.len(),
            write@ == start + bytes@.take(i as int),
        decreases bytes.len() - i,
    {
        write.push(bytes[i]);
        assert(bytes@.take(i + 1) =~= bytes@.take(i as int).push(bytes@[i as int]));
        i = i + 1;
    }
    assert(bytes@.take(bytes@.len() as int) =~= bytes@);
    Ok(())
}

/// A `u32` written and then read back is the same `u32`, and the reader is
/// left where it was before the write.
pub proof fn lemma_write_then_read_u32(n: u32, rest: Seq<u8>)
    ensures
        (u32_be_bytes(n) + rest).len() >= 4,
        be_u32((u32_be_bytes(n) + rest).take(4)) == n,
        (u32_be_bytes(n) + rest).skip(4) == rest,
{
    lemma_u32_round_trip(n);
    assert((u32_be_bytes(n) + rest).take(4) =~= u32_be_bytes(n));
    assert((u32_be_bytes(n) + rest).skip(4) =~= rest);
}

/// Skips up to `count` bytes: all that are left when fewer are.
pub fn skip(read: &mut ByteReader, count: u64) -> (r: Result<(), Error>)
    ensures
        r is Ok,
        final(read)@ == old(read)@.skip(
            if count < old(read)@.len() {
                count as int
            } else {
                old(read)@.len() as int
            },
        ),
{
    let left = read.remaining();
    let n: usize = if count < left as u64 {
        count as usize
    } else {
        left
    };
    let _ = read.take(n);
    Ok(())
}

/// The `u16` that two bytes encode, most significant byte first.
pub open spec fn be_u16(b: Seq<u8>) -> u16 {
    (b[0] as int * 256 + b[1] as int) as u16
}

/// Reads a big-endian `u16`; fails, reading nothing, when fewer than two
/// bytes are left.
pub fn read_u16(read: &mut ByteReader) -> (r: Result<u16, Error>)
    ensures
        if old(read)@.len() >= 2 {
            &&& r == Ok::<u16, Error>(be_u16(old(read)@.take(2)))
            &&& final(read)@ == old(read)@.skip(2)
        } else {
            &&& r matches Err(e) && e.0@ == "could not read u16"@
            &&& final(read)@ == old(read)@
        },
{
    if read.remaining() < 2 {
        return Err(mk_err("could not read u16"));
    }
    let b = read.take(2);
    Ok((b[0] as u16) * 256 + (b[1] as u16))
}

} // verus!
