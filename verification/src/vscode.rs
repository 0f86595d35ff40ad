//! The messages elm-pair exchanges with its VS Code extension.
//!
//! Commands to the extension start with a command byte; numbers are
//! big-endian `u32`s and texts are their UTF-8 length followed by their bytes.
use vstd::prelude::*;
use vstd::utf8::{decode_utf8, encode_utf8, valid_utf8};
use crate::bytes::{ByteReader, be_u32, read_string, read_u32, read_u8, u32_be_bytes, write_bytes, write_u32, write_u8};
use crate::editors::{Buffer, RefactorAllowed};
use crate::error::Error;
use crate::source_code::Edit;

verus! {

/// The message the extension sends when a file is opened.
pub const MSG_NEW_FILE: u8 = 0;

/// The message the extension sends when a file changes.
pub const MSG_FILE_CHANGED: u8 = 1;

/// The command that asks the extension to make a refactor's edits.
pub const CMD_REFACTOR: u8 = 0;

/// The command that asks the extension to open files.
pub const CMD_OPEN_FILES: u8 = 1;

/// The bytes of the text `t` prefixed with their number (cut to 32 bits).
pub open spec fn encoded_text(t: Seq<char>) -> Seq<u8> {
    u32_be_bytes(encode_utf8(t).len() as u32) + encode_utf8(t)
}

/// The encoded texts `ts`, one after another.
pub open spec fn encoded_texts(ts: Seq<Seq<char>>) -> Seq<u8>
    decreases ts.len(),
{
    if ts.len() == 0 {
        seq![]
    } else {
        encoded_texts(ts.drop_last()) + encoded_text(ts.last())
    }
}

/// The command to open the files `files`.
pub open spec fn open_files_command(files: Seq<Seq<char>>) -> Seq<u8> {
    seq![CMD_OPEN_FILES] + u32_be_bytes(files.len() as u32) + encoded_texts(files)
}

/// The path recorded for `buffer` in `paths`: that of its first entry.
pub open spec fn path_of(paths: Seq<(Buffer, Seq<char>)>, buffer: Buffer) -> Option<Seq<char>>
    decreases paths.len(),
{
    if paths.len() == 0 {
        None
    } else if paths[0].0 == buffer {
        Some(paths[0].1)
    } else {
        path_of(paths.skip(1), buffer)
    }
}

/// The encoding of one edit of a refactor, in the file at `path`: the path,
/// the start and old end positions, and the new text.
pub open spec fn encoded_edit(e: Edit, path: Seq<char>) -> Seq<u8> {
    encoded_text(path) + u32_be_bytes(e.input_edit.start_position.row as u32) + u32_be_bytes(
        e.input_edit.start_position.column as u32,
    ) + u32_be_bytes(e.input_edit.old_end_position.row as u32) + u32_be_bytes(
        e.input_edit.old_end_position.column as u32,
    ) + encoded_text(e.new_bytes@)
}

/// The encodings of the edits `edits`, one after another.
pub open spec fn encoded_edits(edits: Seq<Edit>, paths: Seq<(Buffer, Seq<char>)>) -> Seq<u8>
    decreases edits.len(),
{
    if edits.len() == 0 {
        seq![]
    } else {
        encoded_edits(edits.drop_last(), paths) + encoded_edit(
            edits.last(),
            path_of(paths, edits.last().buffer)->0,
        )
    }
}

/// The command to make the edits `edits`.
pub open spec fn refactor_command(edits: Seq<Edit>, paths: Seq<(Buffer, Seq<char>)>) -> Seq<u8> {
    seq![CMD_REFACTOR] + u32_be_bytes(edits.len() as u32) + encoded_edits(edits, paths)
}

/// The mathematical form of a list of buffer paths.
pub open spec fn paths_view(paths: Seq<(Buffer, String)>) -> Seq<(Buffer, Seq<char>)> {
    paths.map_values(|p: (Buffer, String)| (p.0, p.1@))
}

/// Writes a text: its length in bytes, then its bytes.
pub fn write_path(write: &mut Vec<u8>, path: &str) -> (r: Result<(), Error>)
    ensures
        r is Ok,
        final(write)@ == old(write)@ + encoded_text(path@),
{
    let bytes = path.as_bytes();
    let _ = write_u32(write, bytes.len() as u32);
    let _ = write_bytes(write, bytes);
    assert(final(write)@ =~= old(write)@ + encoded_text(path@)) by {
        assert(bytes@ == encode_utf8(path@));
    }
    Ok(())
}

/// Writes the command that asks the extension to open `files`.
pub fn write_open_files(write: &mut Vec<u8>, files: &Vec<String>) -> (r: Result<(), Error>)
    ensures
        r is Ok,
        final(write)@ == old(write)@ + open_files_command(files@.map_values(|f: String| f@)),
{
    let ghost fs = files@.map_values(|f: String| f@);
    let ghost start = write@;
    let _ = write_u8(write, CMD_OPEN_FILES);
    let _ = write_u32(write, files.len() as u32);
    let ghost header = write@;
    let mut i: usize = 0;
    assert(fs.take(0) =~= Seq::<Seq<char>>::empty());
    assert(header =~= header + encoded_texts(fs.take(0)));
    while i < files.len()
        invariant
            i <= files@.len(),
            fs == files@.map_values(|f: String| f@),
            write@ == header + encoded_texts(fs.take(i as int)),
        decreases files.len() - i,
    {
        let _ = write_path(write, files[i].as_str());
        assert(fs.take(i + 1).drop_last() =~= fs.take(i as int));
        assert(write@ =~= header + encoded_texts(fs.take(i + 1)));
        i = i + 1;
    }
    assert(fs.take(files@.len() as int) =~= fs);
    assert(write@ =~= start + open_files_command(fs));
    Ok(())
}

/// The path recorded for `buffer` in `paths`.
fn find_path<'a>(paths: &'a Vec<(Buffer, String)>, buffer: Buffer) -> (r: Option<&'a String>)
    ensures
        match path_of(paths_view(paths@), buffer) {
            Some(p) => r matches Some(s) && s@ == p,
            None => r is None,
        },
{
    let mut i: usize = 0;
    assert(paths_view(paths@).skip(0) =~= paths_view(paths@));
    while i < paths.len()
        invariant
            i <= paths@.len(),
            path_of(paths_view(paths@), buffer) == path_of(paths_view(paths@).skip(i as int), buffer),
        decreases paths.len() - i,
    {
        let ghost rest = paths_view(paths@).skip(i as int);
        assert(rest[0] == (paths@[i as int].0, paths@[i as int].1@));
        if paths[i].0 == buffer {
            return Some(&paths[i].1);
        }
        assert(rest.skip(1) =~= paths_view(paths@).skip(i + 1));
        i = i + 1;
    }
    None
}

/// Writes the command that asks the extension to make the edits `edits`,
/// each in the file recorded for its buffer in `buffer_paths`.
pub fn write_refactor(write: &mut Vec<u8>, buffer_paths: &Vec<(Buffer, String)>, edits: &Vec<Edit>) -> (r: Result<(), Error>)
    requires
        forall|i: int|
            0 <= i < edits@.len() ==> path_of(paths_view(buffer_paths@), #[trigger] edits@[i].buffer) is Some,
    ensures
        r is Ok,
        final(write)@ == old(write)@ + refactor_command(edits@, paths_view(buffer_paths@)),
{
    let ghost paths = paths_view(buffer_paths@);
    let ghost start = write@;
    let _ = write_u8(write, CMD_REFACTOR);
    let _ = write_u32(write, edits.len() as u32);
    let ghost header = write@;
    let mut i: usize = 0;
    assert(edits@.take(0) =~= Seq::<Edit>::empty());
    assert(header =~= header + encoded_edits(edits@.take(0), paths));
    while i < edits.len()
        invariant
            i <= edits@.len(),
            paths == paths_view(buffer_paths@),
            forall|j: int|
                0 <= j < edits@.len() ==> path_of(paths, #[trigger] edits@[j].buffer) is Some,
            write@ == header + encoded_edits(edits@.take(i as int), paths),
        decreases edits.len() - i,
    {
        let edit = &edits[i];
        assert(path_of(paths, edits@[i as int].buffer) is Some);
        let path = match find_path(buffer_paths, edit.buffer) {
            Some(p) => p,
            None => {
                proof {
                    assert(false);
                }
                return Ok(());
            },
        };
        let ghost before = write@;
        let _ = write_path(write, path.as_str());
        let _ = write_u32(write, edit.input_edit.start_position.row as u32);
        let _ = write_u32(write, edit.input_edit.start_position.column as u32);
        let _ = write_u32(write, edit.input_edit.old_end_position.row as u32);
        let _ = write_u32(write, edit.input_edit.old_end_position.column as u32);
        let _ = write_path(write, edit.new_bytes.as_str());
        assert(edits@.take(i + 1).drop_last() =~= edits@.take(i as int));
        assert(edits@.take(i + 1).last() == *edit);
        assert(write@ =~= before + encoded_edit(*edit, path_of(paths, edit.buffer)->0));
        assert(write@ =~= header + encoded_edits(edits@.take(i + 1), paths));
        i = i + 1;
    }
    assert(edits@.take(edits@.len() as int) =~= edits@);
    assert(write@ =~= start + refactor_command(edits@, paths));
    Ok(())
}

/// What the extension sent about a newly opened file: its path and code.
#[derive(Debug, Clone, PartialEq, Eq)]
pub struct NewFile {
    pub path: String,
    pub code: String,
}

/// What the extension sent about a change to a file: whether a refactor
/// may follow, the replaced range as lines and characters, and the new text.
#[derive(Debug, Clone, PartialEq, Eq)]
pub struct FileChange {
    pub refactor_allowed: RefactorAllowed,
    pub start_line: u32,
    pub start_char: u32,
    pub end_line: u32,
    pub end_char: u32,
    pub new_code: String,
}

/// The text at the front of `bytes` prefixed with its length, and what
/// follows it; `None` when the bytes run out or the text is no UTF-8.
pub open spec fn decoded_text(bytes: Seq<u8>) -> Option<(Seq<char>, Seq<u8>)> {
    if bytes.len() < 4 {
        None
    } else {
        let len = be_u32(bytes.take(4)) as int;
        let rest = bytes.skip(4);
        if rest.len() < len || !valid_utf8(rest.take(len)) {
            None
        } else {
            Some((decode_utf8(rest.take(len)), rest.skip(len)))
        }
    }
}

/// Reads a text prefixed with its length.
fn read_text(read: &mut ByteReader) -> (r: Result<String, Error>)
    ensures
        match decoded_text(old(read)@) {
            Some((t, rest)) => r matches Ok(s) && s@ == t && final(read)@ == rest,
            None => r is Err,
        },
{
    let len = read_u32(read)?;
    let ghost after_len = read@;
    let s = read_string(read, len as usize)?;
    Ok(s)
}

/// The payload of a new file message: the path, then the code.
pub open spec fn decoded_new_file(bytes: Seq<u8>) -> Option<(Seq<char>, Seq<char>)> {
    match decoded_text(bytes) {
        None => None,
        Some((path, rest)) => match decoded_text(rest) {
            None => None,
            Some((code, _)) => Some((path, code)),
        },
    }
}

/// Reads the payload of a new file message: the file's path and code.
pub fn parse_new_file_msg(read: &mut ByteReader) -> (r: Result<NewFile, Error>)
    ensures
        match decoded_new_file(old(read)@) {
            Some((path, code)) => r matches Ok(f) && f.path@ == path && f.code@ == code,
            None => r is Err,
        },
{
    let path = read_text(read)?;
    let code = read_text(read)?;
    Ok(NewFile { path, code })
}

/// The payload of a file changed message: a byte that is zero when no
/// refactor may follow, four numbers and the new text.
pub open spec fn decoded_file_change(bytes: Seq<u8>) -> Option<(bool, u32, u32, u32, u32, Seq<char>)> {
    if bytes.len() < 17 {
        None
    } else {
        match decoded_text(bytes.skip(17)) {
            None => None,
            Some((text, _)) => Some(
                (
                    bytes[0] != 0,
                    be_u32(bytes.subrange(1, 5)),
                    be_u32(bytes.subrange(5, 9)),
                    be_u32(bytes.subrange(9, 13)),
                    be_u32(bytes.subrange(13, 17)),
                    text,
                ),
            ),
        }
    }
}

/// Reads the payload of a file changed message.
pub fn parse_file_changed_msg(read: &mut ByteReader) -> (r: Result<FileChange, Error>)
    ensures
        match decoded_file_change(old(read)@) {
            Some((allowed, sl, sc, el, ec, text)) => r matches Ok(c) && (c.refactor_allowed
                == if allowed {
                RefactorAllowed::Yes
            } else {
                RefactorAllowed::No
            }) && c.start_line == sl && c.start_char == sc && c.end_line == el && c.end_char == ec
                && c.new_code@ == text,
            None => r is Err,
        },
{
    let ghost b = read@;
    let allowed = read_u8(read)?;
    let start_line = read_u32(read)?;
    let start_char = read_u32(read)?;
    let end_line = read_u32(read)?;
    let end_char = read_u32(read)?;
    proof {
        assert(b.skip(1).take(4) =~= b.subrange(1, 5));
        assert(b.skip(1).skip(4).take(4) =~= b.subrange(5, 9));
        assert(b.skip(1).skip(4).skip(4).take(4) =~= b.subrange(9, 13));
        assert(b.skip(1).skip(4).skip(4).skip(4).take(4) =~= b.subrange(13, 17));
        assert(b.skip(1).skip(4).skip(4).skip(4).skip(4) =~= b.skip(17));
    }
    let new_code = read_text(read)?;
    let refactor_allowed = if allowed == 0 {
        RefactorAllowed::No
    } else {
        RefactorAllowed::Yes
    };
    Ok(FileChange { refactor_allowed, start_line, start_char, end_line, end_char, new_code })
}

/// Writing a text and reading it back gives the same text, whatever
/// follows it.
pub proof fn lemma_text_round_trip(t: Seq<char>, rest: Seq<u8>)
    requires
        encode_utf8(t).len() <= u32::MAX,
    ensures
        decoded_text(encoded_text(t) + rest) == Some((t, rest)),
{
    let bytes = encoded_text(t) + rest;
    let e = encode_utf8(t);
    crate::bytes::lemma_write_then_read_u32(e.len() as u32, e + rest);
    assert(bytes =~= u32_be_bytes(e.len() as u32) + (e + rest));
    assert(bytes.skip(4) =~= e + rest);
    assert((e + rest).take(e.len() as int) =~= e);
    assert((e + rest).skip(e.len() as int) =~= rest);
    vstd::utf8::encode_utf8_valid_utf8(t);
    vstd::utf8::encode_utf8_decode_utf8(t);
}

} // verus!
