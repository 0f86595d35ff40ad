//! Edits to the source code in editor buffers.
use vstd::prelude::*;
use crate::editors::Buffer;

verus! {

/// A position in source code: a line, and a column within it.
#[derive(Clone, Copy, Debug, PartialEq, Eq, Structural)]
pub struct Point {
    pub row: usize,
    pub column: usize,
}

/// What part of a file an edit replaced, in bytes and in positions.
#[derive(Clone, Copy, Debug, PartialEq, Eq, Structural)]
pub struct InputEdit {
    pub start_byte: usize,
    pub old_end_byte: usize,
    pub new_end_byte: usize,
    pub start_position: Point,
    pub old_end_position: Point,
    pub new_end_position: Point,
}

/// A change to the code in a buffer.
#[derive(Clone, Debug, PartialEq, Eq)]
pub struct Edit {
    /// The buffer that was changed.
    pub buffer: Buffer,
    /// The part of the file that was replaced.
    pub input_edit: InputEdit,
    /// The new contents of the replaced part.
    pub new_bytes: String,
}

} // verus!

verus! {

impl View for Edit {
    type V = (Buffer, InputEdit, Seq<char>);

    open spec fn view(&self) -> (Buffer, InputEdit, Seq<char>) {
        (self.buffer, self.input_edit, self.new_bytes@)
    }
}

/// The mathematical form of a list of edits.
pub open spec fn edits_view(edits: Seq<Edit>) -> Seq<(Buffer, InputEdit, Seq<char>)> {
    edits.map_values(|e: Edit| e@)
}

impl Edit {
    /// Whether two edits make the same change.
    pub fn same(&self, other: &Edit) -> (r: bool)
        ensures
            r == (self@ == other@),
    {
        self.buffer == other.buffer && self.input_edit == other.input_edit && self.new_bytes
            == other.new_bytes
    }

    /// A copy of this edit.
    pub fn copy(&self) -> (r: Edit)
        ensures
            r@ == self@,
    {
        Edit { buffer: self.buffer, input_edit: self.input_edit, new_bytes: self.new_bytes.clone() }
    }
}

/// Whether two lists of edits make the same changes in the same order.
pub fn same_edits(a: &Vec<Edit>, b: &Vec<Edit>) -> (r: bool)
    ensures
        r == (edits_view(a@) == edits_view(b@)),
{
    if a.len() != b.len() {
        assert(edits_view(a@).len() != edits_view(b@).len());
        return false;
    }
    let mut i: usize = 0;
    while i < a.len()
        invariant
            a@.len() == b@.len(),
            i <= a@.len(),
            forall|j: int| 0 <= j < i ==> a@[j]@ == b@[j]@,
        decreases a.len() - i,
    {
        if !a[i].same(&b[i]) {
            assert(edits_view(a@)[i as int] != edits_view(b@)[i as int]);
            return false;
        }
        i = i + 1;
    }
    assert(edits_view(a@) =~= edits_view(b@));
    true
}

} // verus!
