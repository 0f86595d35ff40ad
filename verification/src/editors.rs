//! The editors elm-pair talks to, and how their connections identify them.
use vstd::prelude::*;
use crate::error::{Error, mk_err};

verus! {

/// The kinds of editor elm-pair supports.
#[derive(Clone, Copy, Debug, PartialEq, Eq, Structural)]
pub enum Kind {
    Neovim,
    VsCode,
}

/// Identifies one connected editor.
#[derive(Clone, Copy, Debug, PartialEq, Eq, Hash, PartialOrd, Ord, Structural)]
pub struct Id(pub u32);

impl Id {
    /// The editor identified by `id`.
    pub fn new(id: u32) -> (r: Id)
        ensures
            r.0 == id,
    {
        Id(id)
    }
}

/// A buffer open in a connected editor: the editor, and the buffer among
/// those open in that editor.
#[derive(Clone, Copy, Debug, PartialEq, Eq, Hash, PartialOrd, Ord, Structural)]
pub struct Buffer {
    pub editor_id: Id,
    pub buffer_id: u32,
}

/// Whether an edit may be followed by a refactor.
#[derive(Clone, Copy, Debug, PartialEq, Eq, Structural)]
pub enum RefactorAllowed {
    Yes,
    No,
}

/// The first four bytes Neovim sends: an empty msgpack-rpc notification
/// (a three element array: the number 2 that marks a notification, an empty
/// method name and an empty argument list).
pub open spec fn neovim_greeting() -> Seq<u8> {
    seq![147u8, 2u8, 160u8, 144u8]
}

/// The first four bytes the VS Code extension sends.
pub open spec fn vscode_greeting() -> Seq<u8> {
    seq![0u8, 0u8, 0u8, 0u8]
}

/// The editor kind that the four greeting bytes `buf` announce: `None` for
/// bytes no supported editor sends.
pub open spec fn spec_editor_kind(buf: Seq<u8>) -> Option<Kind> {
    if buf == neovim_greeting() {
        Some(Kind::Neovim)
    } else if buf == vscode_greeting() {
        Some(Kind::VsCode)
    } else {
        None
    }
}

/// Recognizes which editor opened a connection from the first four bytes it
/// sent.
pub fn read_editor_kind(buf: &[u8; 4]) -> (r: Result<Kind, Error>)
    ensures
        match spec_editor_kind(buf@) {
            Some(k) => r == Ok::<Kind, Error>(k),
            None => r matches Err(e) && e.0@ == "unknown editor identifier"@,
        },
{
    let b0 = buf[0];
    let b1 = buf[1];
    let b2 = buf[2];
    let b3 = buf[3];
    assert(buf@ =~= seq![b0, b1, b2, b3]);
    if b0 == 147 && b1 == 2 && b2 == 160 && b3 == 144 {
        Ok(Kind::Neovim)
    } else if b0 == 0 && b1 == 0 && b2 == 0 && b3 == 0 {
        Ok(Kind::VsCode)
    } else {
        proof {
            if buf@ == neovim_greeting() {
                assert(b0 == neovim_greeting()[0] && b1 == neovim_greeting()[1]);
                assert(b2 == neovim_greeting()[2] && b3 == neovim_greeting()[3]);
            }
            if buf@ == vscode_greeting() {
                assert(b0 == vscode_greeting()[0] && b1 == vscode_greeting()[1]);
                assert(b2 == vscode_greeting()[2] && b3 == vscode_greeting()[3]);
            }
        }
        Err(mk_err("unknown editor identifier"))
    }
}

} // verus!
