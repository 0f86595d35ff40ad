//! A refactor: the text replacements to make in editor buffers, and the
//! files to open afterwards.
use vstd::prelude::*;
use core::ops::Range;
use crate::editors::Buffer;

verus! {

/// The mathematical form of a replacement: the buffer, the byte range
/// replaced, and the new text.
pub type SpecReplacement = (Buffer, Range<usize>, Seq<char>);

/// Changes to make to the code in editor buffers.
pub struct Refactor {
    /// What the refactor does, in a few words.
    pub description: &'static str,
    replacements: Vec<(Buffer, Range<usize>, String)>,
    files_to_open: Vec<String>,
}

impl Refactor {
    /// The replacements, in the order they were added.
    pub closed spec fn changes(&self) -> Seq<SpecReplacement> {
        self.replacements@.map_values(
            |r: (Buffer, Range<usize>, String)| (r.0, r.1, r.2@),
        )
    }

    /// What the refactor does.
    pub closed spec fn what(&self) -> Seq<char> {
        self.description@
    }

    /// The files to open once the replacements are made.
    pub closed spec fn files_to_open(&self) -> Seq<Seq<char>> {
        self.files_to_open@.map_values(|f: String| f@)
    }

    /// A refactor that changes nothing yet.
    pub fn new(description: &'static str) -> (r: Refactor)
        ensures
            r.what() == description@,
            r.changes() == Seq::<SpecReplacement>::empty(),
            r.files_to_open() == Seq::<Seq<char>>::empty(),
    {
        let r = Refactor { description, replacements: Vec::new(), files_to_open: Vec::new() };
        assert(r.changes() =~= Seq::<SpecReplacement>::empty());
        assert(r.files_to_open() =~= Seq::<Seq<char>>::empty());
        r
    }

    /// Adds the replacement of the bytes in `range` of `buffer` by
    /// `new_bytes`.
    pub fn add_change(&mut self, buffer: Buffer, range: Range<usize>, new_bytes: String)
        ensures
            final(self).changes() == old(self).changes().push(
                (buffer, range, new_bytes@),
            ),
            final(self).files_to_open() == old(self).files_to_open(),
            final(self).what() == old(self).what(),
    {
        let ghost new_bytes_view = new_bytes@;
        self.replacements.push((buffer, range, new_bytes));
        assert(self.changes() =~= old(self).changes().push(
            (buffer, range, new_bytes_view),
        ));
    }

    /// Sets the files to open once the replacements are made.
    pub fn open_files(&mut self, files: Vec<String>)
        ensures
            final(self).files_to_open() == files@.map_values(|f: String| f@),
            final(self).changes() == old(self).changes(),
            final(self).what() == old(self).what(),
    {
        self.files_to_open = files;
    }

    /// The replacements, in the order they were added.
    pub fn replacements(&self) -> (r: &Vec<(Buffer, Range<usize>, String)>)
        ensures
            r@.map_values(|x: (Buffer, Range<usize>, String)| (x.0, x.1, x.2@)) == self.changes(),
    {
        &self.replacements
    }

    /// The files to open once the replacements are made.
    pub fn files(&self) -> (r: &Vec<String>)
        ensures
            r@.map_values(|f: String| f@) == self.files_to_open(),
    {
        &self.files_to_open
    }

    /// The buffers the refactor changes, each once, in the order of their
    /// first replacement.
    pub fn changed_buffers(&self) -> (r: Vec<Buffer>)
        ensures
            r@.no_duplicates(),
            forall|b: Buffer|
                r@.contains(b) <==> exists|i: int|
                    0 <= i < self.changes().len() && #[trigger] self.changes()[i].0 == b,
    {
        let mut out: Vec<Buffer> = Vec::new();
        let mut i: usize = 0;
        while i < self.replacements.len()
            invariant
                i <= self.replacements@.len(),
                out@.no_duplicates(),
                forall|b: Buffer|
                    out@.contains(b) <==> exists|j: int|
                        0 <= j < i && #[trigger] self.changes()[j].0 == b,
            decreases self.replacements.len() - i,
        {
            let b = self.replacements[i].0;
            assert(self.changes()[i as int].0 == b);
            let mut seen = false;
            let mut k: usize = 0;
            while k < out.len()
                invariant
                    k <= out@.len(),
                    seen <==> exists|m: int| 0 <= m < k && out@[m] == b,
                decreases out.len() - k,
            {
                if out[k] == b {
                    seen = true;
                }
                k = k + 1;
            }
            let ghost prev = out@;
            if !seen {
                out.push(b);
            }
            assert(forall|m: int| 0 <= m < prev.len() ==> out@[m] == prev[m]);
            assert(seen ==> prev.contains(b));
            assert forall|c: Buffer|
                out@.contains(c) <==> exists|j: int|
                    0 <= j < i + 1 && #[trigger] self.changes()[j].0 == c by {
                if c == b {
                    assert(self.changes()[i as int].0 == c);
                    if !seen {
                        assert(out@[prev.len() as int] == b);
                    } else {
                        let m = choose|m: int| 0 <= m < prev.len() && prev[m] == b;
                        assert(out@[m] == b);
                    }
                } else {
                    if out@.contains(c) {
                        let m = choose|m: int| 0 <= m < out@.len() && out@[m] == c;
                        assert(m < prev.len());
                        assert(prev[m] == c);
                        assert(prev.contains(c));
                        let j = choose|j: int| 0 <= j < i && #[trigger] self.changes()[j].0 == c;
                        assert(0 <= j < i + 1 && self.changes()[j].0 == c);
                    }
                    if exists|j: int| 0 <= j < i + 1 && #[trigger] self.changes()[j].0 == c {
                        let j = choose|j: int|
                            0 <= j < i + 1 && #[trigger] self.changes()[j].0 == c;
                        assert(j < i);
                        assert(prev.contains(c));
                        let m = choose|m: int| 0 <= m < prev.len() && prev[m] == c;
                        assert(out@[m] == c);
                    }
                }
            }
            i = i + 1;
        }
        out
    }
}

} // verus!
