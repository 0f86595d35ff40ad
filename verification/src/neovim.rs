//! The msgpack-rpc messages elm-pair exchanges with Neovim.
use vstd::prelude::*;
use vstd::utf8::encode_utf8;
use crate::bytes::{
    ByteReader, be_u16, be_u32, read_u16, read_u32, read_u8, skip, u32_be_bytes,
    write_bytes,
};
use crate::editors::{Buffer, Id};
use crate::error::{Error, mk_err};
use crate::msgpack::{
    Marker, array_len_bytes, map_len_bytes, marker_from_u8, marker_of, str_len_bytes,
    u64_be_bytes, write_array_len, write_bool, write_i8, write_map_len, write_str_len,
    write_u32, write_u64,
};
use crate::source_code::Edit;
use crate::text::{split_on, split_str};

verus! {

/// `n` cut to 32 bits, as wrapping `u32` arithmetic leaves it.
pub open spec fn wrap_u32(n: int) -> u32 {
    (n % 4294967296) as u32
}

/// `bs` without its first `n` bytes, or without all when it is shorter.
pub open spec fn skip_at_most(bs: Seq<u8>, n: int) -> Seq<u8> {
    if n < bs.len() {
        bs.skip(n)
    } else {
        bs.skip(bs.len() as int)
    }
}

/// Skipping the data of one value with marker `m`, whose encoding goes on
/// with `bs`: the number of values it contains that remain to be skipped
/// (array elements, map keys and values), and the bytes after it; `None`
/// when a length it needs is cut off. Payloads cut off are skipped as far as
/// they go.
pub open spec fn skip_one(m: Marker, bs: Seq<u8>) -> Option<(u32, Seq<u8>)> {
    match m {
        Marker::U8 | Marker::I8 => Some((0, skip_at_most(bs, 1))),
        Marker::U16 | Marker::I16 => Some((0, skip_at_most(bs, 2))),
        Marker::U32 | Marker::I32 | Marker::F32 => Some((0, skip_at_most(bs, 4))),
        Marker::U64 | Marker::I64 | Marker::F64 => Some((0, skip_at_most(bs, 8))),
        Marker::FixStr(n) => Some((0, skip_at_most(bs, n as int))),
        Marker::Str8 | Marker::Bin8 => if bs.len() < 1 {
            None
        } else {
            Some((0, skip_at_most(bs.skip(1), bs[0] as int)))
        },
        Marker::Str16 | Marker::Bin16 => if bs.len() < 2 {
            None
        } else {
            Some((0, skip_at_most(bs.skip(2), be_u16(bs.take(2)) as int)))
        },
        Marker::Str32 | Marker::Bin32 => if bs.len() < 4 {
            None
        } else {
            Some((0, skip_at_most(bs.skip(4), be_u32(bs.take(4)) as int)))
        },
        Marker::FixArray(n) => Some((n as u32, bs)),
        Marker::Array16 => if bs.len() < 2 {
            None
        } else {
            Some((be_u16(bs.take(2)) as u32, bs.skip(2)))
        },
        Marker::Array32 => if bs.len() < 4 {
            None
        } else {
            Some((be_u32(bs.take(4)), bs.skip(4)))
        },
        Marker::FixMap(n) => Some(((2 * n) as u32, bs)),
        Marker::Map16 => if bs.len() < 2 {
            None
        } else {
            Some(((2 * be_u16(bs.take(2))) as u32, bs.skip(2)))
        },
        Marker::Map32 => if bs.len() < 4 {
            None
        } else {
            Some((wrap_u32(2 * be_u32(bs.take(4))), bs.skip(4)))
        },
        Marker::FixExt1 => Some((0, skip_at_most(bs, 2))),
        Marker::FixExt2 => Some((0, skip_at_most(bs, 3))),
        Marker::FixExt4 => Some((0, skip_at_most(bs, 5))),
        Marker::FixExt8 => Some((0, skip_at_most(bs, 9))),
        Marker::FixExt16 => Some((0, skip_at_most(bs, 17))),
        Marker::Ext8 => if bs.len() < 1 {
            None
        } else {
            Some((0, skip_at_most(bs.skip(1), 1 + bs[0] as int)))
        },
        Marker::Ext16 => if bs.len() < 2 {
            None
        } else {
            Some((0, skip_at_most(bs.skip(2), 1 + be_u16(bs.take(2)) as int)))
        },
        Marker::Ext32 => if bs.len() < 4 {
            None
        } else {
            Some((0, skip_at_most(bs.skip(4), 1 + be_u32(bs.take(4)) as int)))
        },
        _ => Some((0, bs)),
    }
}

/// Skipping one value never grows what is left to read.
proof fn lemma_skip_one_shrinks(m: Marker, bs: Seq<u8>)
    ensures
        skip_one(m, bs) matches Some((_, rest)) ==> rest.len() <= bs.len(),
{
}

/// Skipping `count` values from the front of `bs` (the contents of arrays
/// and maps counting as values to skip too): the bytes after them, or
/// `None` when the data runs out before a marker or a length.
pub open spec fn skip_values(bs: Seq<u8>, count: u32) -> Option<Seq<u8>>
    decreases bs.len(),
{
    if count == 0 {
        Some(bs)
    } else if bs.len() == 0 {
        None
    } else {
        match skip_one(marker_of(bs[0]), bs.skip(1)) {
            None => None,
            Some((extra, rest)) => if rest.len() < bs.len() {
                skip_values(rest, wrap_u32(count - 1 + extra))
            } else {
                None
            },
        }
    }
}

/// Skips the data of one value with marker `marker`, returning how many
/// values it contains that remain to be skipped.
fn skip_one_object(read: &mut ByteReader, marker: Marker) -> (r: Result<u32, Error>)
    ensures
        match skip_one(marker, old(read)@) {
            Some((extra, rest)) => r == Ok::<u32, Error>(extra) && final(read)@ == rest,
            None => r is Err,
        },
{
    match marker {
        Marker::U8 | Marker::I8 => {
            skip(read, 1)?;
        },
        Marker::U16 | Marker::I16 => {
            skip(read, 2)?;
        },
        Marker::U32 | Marker::I32 | Marker::F32 => {
            skip(read, 4)?;
        },
        Marker::U64 | Marker::I64 | Marker::F64 => {
            skip(read, 8)?;
        },
        Marker::FixStr(n) => {
            skip(read, n as u64)?;
        },
        Marker::Str8 | Marker::Bin8 => {
            let n = read_u8(read)?;
            skip(read, n as u64)?;
        },
        Marker::Str16 | Marker::Bin16 => {
            let n = read_u16(read)?;
            skip(read, n as u64)?;
        },
        Marker::Str32 | Marker::Bin32 => {
            let n = read_u32(read)?;
            skip(read, n as u64)?;
        },
        Marker::FixArray(n) => {
            return Ok(n as u32);
        },
        Marker::Array16 => {
            let n = read_u16(read)?;
            return Ok(n as u32);
        },
        Marker::Array32 => {
            let n = read_u32(read)?;
            return Ok(n);
        },
        Marker::FixMap(n) => {
            return Ok(2 * n as u32);
        },
        Marker::Map16 => {
            let n = read_u16(read)?;
            return Ok(2 * n as u32);
        },
        Marker::Map32 => {
            let n = read_u32(read)?;
            return Ok(n.wrapping_mul(2));
        },
        Marker::FixExt1 => {
            skip(read, 2)?;
        },
        Marker::FixExt2 => {
            skip(read, 3)?;
        },
        Marker::FixExt4 => {
            skip(read, 5)?;
        },
        Marker::FixExt8 => {
            skip(read, 9)?;
        },
        Marker::FixExt16 => {
            skip(read, 17)?;
        },
        Marker::Ext8 => {
            let n = read_u8(read)?;
            skip(read, 1 + n as u64)?;
        },
        Marker::Ext16 => {
            let n = read_u16(read)?;
            skip(read, 1 + n as u64)?;
        },
        Marker::Ext32 => {
            let n = read_u32(read)?;
            skip(read, 1 + n as u64)?;
        },
        _ => {},
    }
    Ok(0)
}

/// Skips `count` MessagePack values, and the contents of the arrays and maps
/// among them.
#[verifier::spinoff_prover]
#[verifier::rlimit(40)]
pub fn skip_objects(read: &mut ByteReader, count: u32) -> (r: Result<(), Error>)
    ensures
        match skip_values(old(read)@, count) {
            Some(rest) => r is Ok && final(read)@ == rest,
            None => r is Err,
        },
{
    let ghost target = skip_values(read@, count);
    let mut left = count;
    while left > 0
        invariant
            target == skip_values(old(read)@, count),
            skip_values(read@, left) == target,
        decreases read@.len(),
    {
        if read.remaining() == 0 {
            return Err(mk_err("failed reading marker from msgpack-rpc stream"));
        }
        let ghost before = read@;
        let b = read_u8(read)?;
        assert(b == before[0] && read@ == before.skip(1));
        let marker = marker_from_u8(b);
        let extra = match skip_one_object(read, marker) {
            Ok(extra) => extra,
            Err(_) => {
                return Err(mk_err("failed skipping data in msgpack-rpc stream"));
            },
        };
        proof {
            lemma_skip_one_shrinks(marker, before.skip(1));
        }
        let sum: u64 = (left - 1) as u64 + extra as u64;
        left = if sum > 4294967295 {
            (sum - 4294967296) as u32
        } else {
            sum as u32
        };
    }
    Ok(())
}

/// The encoding of the text `t`: its length in bytes, then its bytes.
pub open spec fn str_bytes(t: Seq<char>) -> Seq<u8> {
    str_len_bytes(encode_utf8(t).len() as u32) + encode_utf8(t)
}

/// Writes a text.
pub fn write_str(write: &mut Vec<u8>, s: &str) -> (r: Result<(), Error>)
    ensures
        r is Ok,
        final(write)@ == old(write)@ + str_bytes(s@),
{
    let bytes = s.as_bytes();
    write_str_len(write, bytes.len() as u32);
    let _ = write_bytes(write, bytes);
    assert(final(write)@ =~= old(write)@ + str_bytes(s@));
    Ok(())
}

/// The encodings of the texts `ts`, one after another.
pub open spec fn strs_bytes(ts: Seq<Seq<char>>) -> Seq<u8>
    decreases ts.len(),
{
    if ts.len() == 0 {
        seq![]
    } else {
        strs_bytes(ts.drop_last()) + str_bytes(ts.last())
    }
}

/// The `nvim_buf_set_text` call that makes the edit `e`: the buffer, the
/// start and old end positions, and the new text as its lines.
pub open spec fn set_text_call(e: Edit) -> Seq<u8> {
    let lines = split_on(e.new_bytes@, '\n');
    array_len_bytes(2) + str_bytes("nvim_buf_set_text"@) + array_len_bytes(6) + seq![0xceu8]
        + u32_be_bytes(e.buffer.buffer_id) + seq![0xcfu8] + u64_be_bytes(
        e.input_edit.start_position.row as u64,
    ) + seq![0xcfu8] + u64_be_bytes(e.input_edit.start_position.column as u64) + seq![0xcfu8]
        + u64_be_bytes(e.input_edit.old_end_position.row as u64) + seq![0xcfu8] + u64_be_bytes(
        e.input_edit.old_end_position.column as u64,
    ) + array_len_bytes(lines.len() as u32) + strs_bytes(lines)
}

/// The calls making the edits `edits`, one after another.
pub open spec fn set_text_calls(edits: Seq<Edit>) -> Seq<u8>
    decreases edits.len(),
{
    if edits.len() == 0 {
        seq![]
    } else {
        set_text_calls(edits.drop_last()) + set_text_call(edits.last())
    }
}

/// The notification asking Neovim to make the edits `edits` in one atomic
/// call.
pub open spec fn refactor_notification(edits: Seq<Edit>) -> Seq<u8> {
    array_len_bytes(3) + seq![0xd0u8, 2u8] + str_bytes("nvim_call_atomic"@) + array_len_bytes(1)
        + array_len_bytes(edits.len() as u32) + set_text_calls(edits)
}

/// Writes the texts `lines`.
fn write_strs(write: &mut Vec<u8>, lines: &Vec<&str>)
    ensures
        final(write)@ == old(write)@ + strs_bytes(lines@.map_values(|l: &str| l@)),
{
    let ghost ls = lines@.map_values(|l: &str| l@);
    let ghost start = write@;
    let mut i: usize = 0;
    assert(ls.take(0) =~= Seq::<Seq<char>>::empty());
    assert(start =~= start + strs_bytes(ls.take(0)));
    while i < lines.len()
        invariant
            i <= lines@.len(),
            ls == lines@.map_values(|l: &str| l@),
            write@ == start + strs_bytes(ls.take(i as int)),
        decreases lines.len() - i,
    {
        let _ = write_str(write, lines[i]);
        assert(ls.take(i + 1).drop_last() =~= ls.take(i as int));
        assert(write@ =~= start + strs_bytes(ls.take(i + 1)));
        i = i + 1;
    }
    assert(ls.take(lines@.len() as int) =~= ls);
}

/// Writes the notification asking Neovim to make the edits `refactor`.
#[verifier::spinoff_prover]
#[verifier::rlimit(30)]
pub fn write_refactor(write: &mut Vec<u8>, refactor: &Vec<Edit>) -> (r: Result<(), Error>)
    ensures
        r is Ok,
        final(write)@ == old(write)@ + refactor_notification(refactor@),
{
    let ghost start = write@;
    write_array_len(write, 3);
    write_i8(write, 2);
    let _ = write_str(write, "nvim_call_atomic");
    write_array_len(write, 1);
    write_array_len(write, refactor.len() as u32);
    let ghost header = write@;
    assert(refactor@.take(0) =~= Seq::<Edit>::empty());
    assert(header =~= header + set_text_calls(refactor@.take(0)));
    let mut i: usize = 0;
    while i < refactor.len()
        invariant
            i <= refactor@.len(),
            write@ == header + set_text_calls(refactor@.take(i as int)),
        decreases refactor.len() - i,
    {
        let edit = &refactor[i];
        let ghost before = write@;
        write_array_len(write, 2);
        let _ = write_str(write, "nvim_buf_set_text");
        write_array_len(write, 6);
        write_u32(write, edit.buffer.buffer_id);
        write_u64(write, edit.input_edit.start_position.row as u64);
        write_u64(write, edit.input_edit.start_position.column as u64);
        write_u64(write, edit.input_edit.old_end_position.row as u64);
        write_u64(write, edit.input_edit.old_end_position.column as u64);
        let lines = split_str(edit.new_bytes.as_str(), '\n');
        write_array_len(write, lines.len() as u32);
        write_strs(write, &lines);
        assert(write@ =~= before + set_text_call(*edit));
        assert(refactor@.take(i + 1).drop_last() =~= refactor@.take(i as int));
        assert(refactor@.take(i + 1).last() == *edit);
        i = i + 1;
    }
    assert(refactor@.take(refactor@.len() as int) =~= refactor@);
    assert(write@ =~= start + refactor_notification(refactor@));
    Ok(())
}

/// The notification asking Neovim to send the lines of buffer `buffer_id`,
/// and every change to them.
pub open spec fn buf_attach_notification(buffer_id: u32) -> Seq<u8> {
    array_len_bytes(3) + seq![0xd0u8, 2u8] + str_bytes("nvim_buf_attach"@) + array_len_bytes(3)
        + seq![0xceu8] + u32_be_bytes(buffer_id) + seq![0xc3u8] + map_len_bytes(0)
}

/// Writes the notification asking Neovim to send the lines of buffer
/// `buffer_id` and every change to them.
pub fn nvim_buf_attach(write: &mut Vec<u8>, buffer_id: u32) -> (r: Result<(), Error>)
    ensures
        r is Ok,
        final(write)@ == old(write)@ + buf_attach_notification(buffer_id),
{
    write_array_len(write, 3);
    write_i8(write, 2);
    let _ = write_str(write, "nvim_buf_attach");
    write_array_len(write, 3);
    write_u32(write, buffer_id);
    write_bool(write, true);
    write_map_len(write, 0);
    assert(final(write)@ =~= old(write)@ + buf_attach_notification(buffer_id));
    Ok(())
}

/// What a msgpack-rpc notification from Neovim asks elm-pair to do.
#[derive(Debug, Clone, PartialEq, Eq)]
pub enum Notification {
    /// Lines of a buffer changed: lines `firstline` up to `lastline` were
    /// replaced (`lastline` is -1 when the event holds the whole buffer).
    /// The new lines follow in the stream, then `remaining` further values
    /// to skip.
    BufLines { buffer: Buffer, firstline: i64, lastline: i64, remaining: u32 },
    /// A buffer's change counter moved; nothing to do.
    ChangedTick,
    /// Neovim stopped sending a buffer's changes; it should be attached
    /// again.
    BufDetach { buffer: Buffer },
    /// A buffer was opened for the file at `path`.
    BufferOpened { buffer: Buffer, path: String },
}

/// The mathematical form of [`Notification`].
pub enum SpecNotification {
    BufLines { buffer: Buffer, firstline: i64, lastline: i64, remaining: u32 },
    ChangedTick,
    BufDetach { buffer: Buffer },
    BufferOpened { buffer: Buffer, path: Seq<char> },
}

impl View for Notification {
    type V = SpecNotification;

    open spec fn view(&self) -> SpecNotification {
        match self {
            Notification::BufLines { buffer, firstline, lastline, remaining } => {
                SpecNotification::BufLines {
                    buffer: *buffer,
                    firstline: *firstline,
                    lastline: *lastline,
                    remaining: *remaining,
                }
            },
            Notification::ChangedTick => SpecNotification::ChangedTick,
            Notification::BufDetach { buffer } => SpecNotification::BufDetach { buffer: *buffer },
            Notification::BufferOpened { buffer, path } => SpecNotification::BufferOpened {
                buffer: *buffer,
                path: path@,
            },
        }
    }
}

/// The header of a parameter tuple expecting `expected` values: the number
/// of values it holds, and the bytes after the header; `None` when it holds
/// fewer.
pub open spec fn tuple_header(bs: Seq<u8>, expected: u32) -> Option<(u32, Seq<u8>)> {
    match crate::msgpack::spec_read_array_len(bs) {
        Some((n, rest)) => if n >= expected {
            Some((n, rest))
        } else {
            None
        },
        None => None,
    }
}

/// Reads the header of a parameter tuple expecting `expected` values.
fn read_tuple_header(read: &mut ByteReader, expected: u32) -> (r: Result<u32, Error>)
    ensures
        match tuple_header(old(read)@, expected) {
            Some((n, rest)) => r == Ok::<u32, Error>(n) && final(read)@ == rest,
            None => r is Err,
        },
{
    let n = crate::msgpack::read_array_len(read)?;
    if n < expected {
        return Err(mk_err("messagepack array contains fewer elements than expected"));
    }
    Ok(n)
}

/// A buffer number sent as a one byte extension value, and the bytes after.
pub open spec fn spec_read_buf(bs: Seq<u8>) -> Option<(u32, Seq<u8>)> {
    match crate::msgpack::spec_read_fixext1(bs) {
        Some((_, d, rest)) => Some((d as u32, rest)),
        None => None,
    }
}

/// Reads a buffer number sent as a one byte extension value.
fn read_buf(read: &mut ByteReader) -> (r: Result<u32, Error>)
    ensures
        match spec_read_buf(old(read)@) {
            Some((b, rest)) => r == Ok::<u32, Error>(b) && final(read)@ == rest,
            None => r is Err,
        },
{
    let (_, buf) = crate::msgpack::read_fixext1(read)?;
    Ok(buf as u32)
}

/// A string at the front of `bs`: its text and the bytes after it; `None`
/// when it is cut off or is no UTF-8.
pub open spec fn spec_read_text(bs: Seq<u8>) -> Option<(Seq<char>, Seq<u8>)> {
    match crate::msgpack::spec_read_str_len(bs) {
        Some((n, rest)) => if rest.len() >= n && vstd::utf8::valid_utf8(rest.take(n as int)) {
            Some((vstd::utf8::decode_utf8(rest.take(n as int)), rest.skip(n as int)))
        } else {
            None
        },
        None => None,
    }
}

/// Reads a string.
fn read_text(read: &mut ByteReader) -> (r: Result<String, Error>)
    ensures
        match spec_read_text(old(read)@) {
            Some((t, rest)) => r matches Ok(s) && s@ == t && final(read)@ == rest,
            None => r is Err,
        },
{
    let n = crate::msgpack::read_str_len(read)?;
    crate::bytes::read_string(read, n as usize)
}

/// The parameters of a `buffer_opened` notification: the buffer number
/// and the path of its file, then values to skip.
pub open spec fn spec_buffer_opened(bs: Seq<u8>, editor_id: u32) -> Option<(SpecNotification, Seq<u8>)> {
    match tuple_header(bs, 2) {
        None => None,
        Some((n, r1)) => match crate::msgpack::spec_read_int(r1) {
            None => None,
            Some((b, r2)) => if 0 <= b <= u32::MAX {
                match spec_read_text(r2) {
                    None => None,
                    Some((path, r3)) => match skip_values(r3, (n - 2) as u32) {
                        None => None,
                        Some(r4) => Some(
                            (
                                SpecNotification::BufferOpened {
                                    buffer: Buffer { editor_id: Id(editor_id), buffer_id: b as u32 },
                                    path,
                                },
                                r4,
                            ),
                        ),
                    },
                }
            } else {
                None
            },
        },
    }
}

/// The parameters of an `nvim_buf_detach_event`: the buffer, then values to
/// skip.
pub open spec fn spec_buf_detach(bs: Seq<u8>, editor_id: u32) -> Option<(SpecNotification, Seq<u8>)> {
    match tuple_header(bs, 1) {
        None => None,
        Some((n, r1)) => match spec_read_buf(r1) {
            None => None,
            Some((b, r2)) => match skip_values(r2, (n - 1) as u32) {
                None => None,
                Some(r3) => Some(
                    (
                        SpecNotification::BufDetach {
                            buffer: Buffer { editor_id: Id(editor_id), buffer_id: b },
                        },
                        r3,
                    ),
                ),
            },
        },
    }
}

/// The parameters of an `nvim_buf_lines_event` up to the line data: the
/// buffer, the change counter (skipped), the first and last line.
pub open spec fn spec_buf_lines(bs: Seq<u8>, editor_id: u32) -> Option<(SpecNotification, Seq<u8>)> {
    match tuple_header(bs, 5) {
        None => None,
        Some((n, r1)) => match spec_read_buf(r1) {
            None => None,
            Some((b, r2)) => match skip_values(r2, 1) {
                None => None,
                Some(r3) => match crate::msgpack::spec_read_int(r3) {
                    None => None,
                    Some((first, r4)) => match crate::msgpack::spec_read_int(r4) {
                        None => None,
                        Some((last, r5)) => if i64::MIN <= first <= i64::MAX && i64::MIN <= last
                            <= i64::MAX {
                            Some(
                                (
                                    SpecNotification::BufLines {
                                        buffer: Buffer { editor_id: Id(editor_id), buffer_id: b },
                                        firstline: first as i64,
                                        lastline: last as i64,
                                        remaining: (n - 5) as u32,
                                    },
                                    r5,
                                ),
                            )
                        } else {
                            None
                        },
                    },
                },
            },
        },
    }
}

/// The parameters of an `nvim_buf_changedtick_event`, all skipped.
pub open spec fn spec_changedtick(bs: Seq<u8>) -> Option<(SpecNotification, Seq<u8>)> {
    match crate::msgpack::spec_read_array_len(bs) {
        None => None,
        Some((n, r1)) => match skip_values(r1, n) {
            None => None,
            Some(r2) => Some((SpecNotification::ChangedTick, r2)),
        },
    }
}

/// The notification whose method name is `name` and whose parameters start
/// `bs`; `None` for errors, unknown methods and malformed parameters.
pub open spec fn spec_notification(name: Seq<char>, bs: Seq<u8>, editor_id: u32) -> Option<(SpecNotification, Seq<u8>)> {
    if name == "nvim_buf_lines_event"@ {
        spec_buf_lines(bs, editor_id)
    } else if name == "nvim_buf_changedtick_event"@ {
        spec_changedtick(bs)
    } else if name == "nvim_buf_detach_event"@ {
        spec_buf_detach(bs, editor_id)
    } else if name == "buffer_opened"@ {
        spec_buffer_opened(bs, editor_id)
    } else {
        None
    }
}

/// What the message at the front of `bs` is: `Ok(None)` when no bytes are
/// left, the notification and the bytes after what was read of it, or
/// `Err` for anything else (requests, responses, error events, unknown
/// methods, malformed data).
pub open spec fn spec_parse_msg(bs: Seq<u8>, editor_id: u32) -> Result<Option<(SpecNotification, Seq<u8>)>, ()> {
    if bs.len() == 0 {
        Ok(None)
    } else {
        match crate::msgpack::spec_read_array_len(bs) {
            None => Err(()),
            Some((len, r1)) => match crate::msgpack::spec_read_int(r1) {
                None => Err(()),
                Some((t, r2)) => if len == 3 && t == 2 {
                    match crate::msgpack::spec_read_str_len(r2) {
                        None => Err(()),
                        Some((n, r3)) => if n <= 30 && r3.len() >= n && vstd::utf8::valid_utf8(
                            r3.take(n as int),
                        ) {
                            match spec_notification(
                                vstd::utf8::decode_utf8(r3.take(n as int)),
                                r3.skip(n as int),
                                editor_id,
                            ) {
                                Some(x) => Ok(Some(x)),
                                None => Err(()),
                            }
                        } else {
                            Err(())
                        },
                    }
                } else {
                    Err(())
                },
            },
        }
    }
}

/// Reads the next message Neovim sent: `None` once the stream ends between
/// messages. For a lines event the line data are left to read (see
/// [`read_lines`]), and then the values the notification says remain.
#[verifier::spinoff_prover]
#[verifier::rlimit(50)]
pub fn parse_msg(read: &mut ByteReader, editor_id: u32) -> (r: Result<Option<Notification>, Error>)
    ensures
        match spec_parse_msg(old(read)@, editor_id) {
            Ok(None) => r matches Ok(None),
            Ok(Some((n, rest))) => r matches Ok(Some(x)) && x@ == n && final(read)@ == rest,
            Err(_) => r is Err,
        },
{
    if read.remaining() == 0 {
        return Ok(None);
    }
    let array_len = crate::msgpack::read_array_len(read)?;
    let type_ = crate::msgpack::read_int(read)?;
    if !(array_len == 3 && type_ == 2) {
        return Err(mk_err("received unknown msgpack-rpc message"));
    }
    let len = crate::msgpack::read_str_len(read)?;
    if len > 30 {
        return Err(mk_err("name of received msgpack-rpc message exceeds max length"));
    }
    let name = match crate::bytes::read_string(read, len as usize) {
        Ok(name) => name,
        Err(_) => {
            return Err(mk_err("failed reading msgpack-rpc message name"));
        },
    };
    let notification = parse_notification(read, name.as_str(), editor_id)?;
    Ok(Some(notification))
}

/// Reads the parameters of the notification of method `name`.
#[verifier::spinoff_prover]
fn parse_notification(read: &mut ByteReader, name: &str, editor_id: u32) -> (r: Result<Notification, Error>)
    ensures
        match spec_notification(name@, old(read)@, editor_id) {
            Some((n, rest)) => r matches Ok(x) && x@ == n && final(read)@ == rest,
            None => r is Err,
        },
{
    proof {
        reveal_strlit("nvim_error_event");
        reveal_strlit("nvim_buf_lines_event");
        reveal_strlit("nvim_buf_changedtick_event");
        reveal_strlit("nvim_buf_detach_event");
        reveal_strlit("buffer_opened");
    }
    let n = name;
    let notification = if crate::text::same_text(n, "nvim_error_event") {
        assert(name@.len() == 16);
        assert("nvim_buf_lines_event"@.len() == 20);
        assert("nvim_buf_changedtick_event"@.len() == 26);
        assert("nvim_buf_detach_event"@.len() == 21);
        assert("buffer_opened"@.len() == 13);
        assert(spec_notification(name@, old(read)@, editor_id) is None);
        return parse_error_event(read);
    } else if crate::text::same_text(n, "nvim_buf_lines_event") {
        parse_buf_lines_event(read, editor_id)?
    } else if crate::text::same_text(n, "nvim_buf_changedtick_event") {
        parse_buf_changedtick_event(read)?
    } else if crate::text::same_text(n, "nvim_buf_detach_event") {
        parse_buf_detach_event(read, editor_id)?
    } else if crate::text::same_text(n, "buffer_opened") {
        parse_buffer_opened(read, editor_id)?
    } else {
        return Err(mk_err("received neovim message with unknown name"));
    };
    Ok(notification)
}

/// The parameters of an `nvim_error_event`: the error's type (not kept) and
/// Neovim's message, then values to skip; the message and the bytes after.
pub open spec fn spec_error_event(bs: Seq<u8>) -> Option<(Seq<char>, Seq<u8>)> {
    match tuple_header(bs, 2) {
        None => None,
        Some((n, r1)) => match crate::msgpack::spec_read_int(r1) {
            None => None,
            Some((_, r2)) => match spec_read_text(r2) {
                None => None,
                Some((msg, r3)) => match skip_values(r3, (n - 2) as u32) {
                    None => None,
                    Some(r4) => Some((msg, r4)),
                },
            },
        },
    }
}

/// Reads the parameters of an `nvim_error_event`: always an error. When the
/// parameters are well formed, all of them are read and the error carries
/// Neovim's message.
fn parse_error_event(read: &mut ByteReader) -> (r: Result<Notification, Error>)
    ensures
        r is Err,
        match spec_error_event(old(read)@) {
            Some((msg, rest)) => r matches Err(e) && e.0@ == "received error from neovim: "@ + msg
                && final(read)@ == rest,
            None => true,
        },
{
    let n = read_tuple_header(read, 2)?;
    let _error_type = crate::msgpack::read_int(read)?;
    let msg = read_text(read)?;
    skip_objects(read, n - 2)?;
    Err(Error(String::from_str("received error from neovim: ").concat(msg.as_str())))
}

/// Reads the parameters of an `nvim_buf_lines_event` up to the line data.
fn parse_buf_lines_event(read: &mut ByteReader, editor_id: u32) -> (r: Result<Notification, Error>)
    ensures
        match spec_buf_lines(old(read)@, editor_id) {
            Some((n, rest)) => r matches Ok(x) && x@ == n && final(read)@ == rest,
            None => r is Err,
        },
{
    let n = read_tuple_header(read, 5)?;
    let buffer_id = read_buf(read)?;
    skip_objects(read, 1)?;
    let firstline = crate::msgpack::read_int(read)?;
    let lastline = crate::msgpack::read_int(read)?;
    if firstline < i64::MIN as i128 || firstline > i64::MAX as i128 || lastline < i64::MIN as i128
        || lastline > i64::MAX as i128 {
        return Err(mk_err("line number out of range"));
    }
    Ok(
        Notification::BufLines {
            buffer: Buffer { editor_id: Id(editor_id), buffer_id },
            firstline: firstline as i64,
            lastline: lastline as i64,
            remaining: n - 5,
        },
    )
}

/// Reads and skips the parameters of an `nvim_buf_changedtick_event`.
fn parse_buf_changedtick_event(read: &mut ByteReader) -> (r: Result<Notification, Error>)
    ensures
        match spec_changedtick(old(read)@) {
            Some((n, rest)) => r matches Ok(x) && x@ == n && final(read)@ == rest,
            None => r is Err,
        },
{
    let n = crate::msgpack::read_array_len(read)?;
    skip_objects(read, n)?;
    Ok(Notification::ChangedTick)
}

/// Reads the parameters of an `nvim_buf_detach_event`.
fn parse_buf_detach_event(read: &mut ByteReader, editor_id: u32) -> (r: Result<Notification, Error>)
    ensures
        match spec_buf_detach(old(read)@, editor_id) {
            Some((n, rest)) => r matches Ok(x) && x@ == n && final(read)@ == rest,
            None => r is Err,
        },
{
    let n = read_tuple_header(read, 1)?;
    let buffer_id = read_buf(read)?;
    skip_objects(read, n - 1)?;
    Ok(Notification::BufDetach { buffer: Buffer { editor_id: Id(editor_id), buffer_id } })
}

/// Reads the parameters of a `buffer_opened` notification.
fn parse_buffer_opened(read: &mut ByteReader, editor_id: u32) -> (r: Result<Notification, Error>)
    ensures
        match spec_buffer_opened(old(read)@, editor_id) {
            Some((n, rest)) => r matches Ok(x) && x@ == n && final(read)@ == rest,
            None => r is Err,
        },
{
    let n = read_tuple_header(read, 2)?;
    let buffer_id = crate::msgpack::read_int(read)?;
    if buffer_id < 0 || buffer_id > u32::MAX as i128 {
        return Err(mk_err("buffer number out of range"));
    }
    let path = read_text(read)?;
    skip_objects(read, n - 2)?;
    Ok(
        Notification::BufferOpened {
            buffer: Buffer { editor_id: Id(editor_id), buffer_id: buffer_id as u32 },
            path,
        },
    )
}

/// The lines at the front of `bs`: an array of strings.
pub open spec fn spec_read_lines(bs: Seq<u8>) -> Option<(Seq<Seq<char>>, Seq<u8>)> {
    match crate::msgpack::spec_read_array_len(bs) {
        None => None,
        Some((n, rest)) => spec_texts(rest, n as nat),
    }
}

/// `n` strings at the front of `bs`, and the bytes after them.
pub open spec fn spec_texts(bs: Seq<u8>, n: nat) -> Option<(Seq<Seq<char>>, Seq<u8>)>
    decreases n,
{
    if n == 0 {
        Some((seq![], bs))
    } else {
        match spec_texts(bs, (n - 1) as nat) {
            None => None,
            Some((ts, rest)) => match spec_read_text(rest) {
                None => None,
                Some((t, after)) => Some((ts.push(t), after)),
            },
        }
    }
}

/// Once reading strings fails, reading more fails too.
proof fn lemma_texts_fail_later(bs: Seq<u8>, k: nat, m: nat)
    requires
        spec_texts(bs, k) is None,
        k <= m,
    ensures
        spec_texts(bs, m) is None,
    decreases m - k,
{
    if k < m {
        lemma_texts_fail_later(bs, k, (m - 1) as nat);
    }
}

/// Reads the line data of a lines event: the new lines, without line
/// endings.
pub fn read_lines(read: &mut ByteReader) -> (r: Result<Vec<String>, Error>)
    ensures
        match spec_read_lines(old(read)@) {
            Some((ls, rest)) => r matches Ok(v) && v@.map_values(|s: String| s@) == ls
                && final(read)@ == rest,
            None => r is Err,
        },
{
    let n = crate::msgpack::read_array_len(read)?;
    let ghost start = read@;
    let mut out: Vec<String> = Vec::new();
    let mut i: u32 = 0;
    while i < n
        invariant
            i <= n,
            crate::msgpack::spec_read_array_len(old(read)@) == Some((n, start)),
            spec_texts(start, i as nat) == Some((out@.map_values(|s: String| s@), read@)),
        decreases n - i,
    {
        let ghost before = out@.map_values(|s: String| s@);
        let line = match read_text(read) {
            Ok(line) => line,
            Err(e) => {
                proof {
                    assert(spec_texts(start, (i + 1) as nat) is None);
                    lemma_texts_fail_later(start, (i + 1) as nat, n as nat);
                }
                return Err(e);
            },
        };
        out.push(line);
        assert(out@.map_values(|s: String| s@) =~= before.push(out@[out@.len() - 1]@));
        i = i + 1;
    }
    Ok(out)
}

/// A text written with [`write_str`] reads back as the same text, leaving
/// what follows it.
pub proof fn lemma_str_round_trip(t: Seq<char>, rest: Seq<u8>)
    requires
        encode_utf8(t).len() <= u32::MAX,
    ensures
        spec_read_text(str_bytes(t) + rest) == Some((t, rest)),
{
    let e = encode_utf8(t);
    let n = e.len() as u32;
    crate::msgpack::lemma_str_len_round_trip(n, e + rest);
    assert(str_bytes(t) + rest =~= str_len_bytes(n) + (e + rest));
    assert((e + rest).take(n as int) =~= e);
    assert((e + rest).skip(n as int) =~= rest);
    vstd::utf8::encode_utf8_valid_utf8(t);
    vstd::utf8::encode_utf8_decode_utf8(t);
}

/// The text of bytes that should be UTF-8.
pub fn from_utf8(buffer: &[u8]) -> (r: Result<&str, Error>)
    ensures
        match r {
            Ok(s) => vstd::utf8::valid_utf8(buffer@) && s@ == vstd::utf8::decode_utf8(buffer@),
            Err(e) => !vstd::utf8::valid_utf8(buffer@) && e.0@
                == "failed decoding string from msgpack-rpc message as utf8"@,
        },
{
    match crate::text::str_from_utf8(buffer) {
        Some(s) => Ok(s),
        None => Err(mk_err("failed decoding string from msgpack-rpc message as utf8")),
    }
}

} // verus!
