//! The decisions of the analysis loop: when to compare a buffer's code with
//! the last version that compiled, and what to do with a refactor.
use vstd::prelude::*;
use crate::editors::{Buffer, RefactorAllowed};
use crate::source_code::{Edit, InputEdit, edits_view, same_edits};

verus! {

/// The buffer whose code to compare with its last compiling version, if
/// any: the buffer of the last change, when refactors are allowed after it
/// and its current code (revision `new_revision`) is newer than the last
/// compiling version (revision `old_revision`). Either revision is `None`
/// when that version of the code is not known.
pub open spec fn spec_diff_candidate(
    last_change: Option<(Buffer, RefactorAllowed)>,
    new_revision: Option<usize>,
    old_revision: Option<usize>,
) -> Option<Buffer> {
    match (last_change, new_revision, old_revision) {
        (Some((buffer, RefactorAllowed::Yes)), Some(n), Some(o)) => if n > o {
            Some(buffer)
        } else {
            None
        },
        _ => None,
    }
}

/// Decides which buffer to compare with its last compiling version.
pub fn diff_candidate(
    last_change: Option<(Buffer, RefactorAllowed)>,
    new_revision: Option<usize>,
    old_revision: Option<usize>,
) -> (r: Option<Buffer>)
    ensures
        r == spec_diff_candidate(last_change, new_revision, old_revision),
{
    let (buffer, refactor_allowed) = match last_change {
        Some(c) => c,
        None => {
            return None;
        },
    };
    let new = match new_revision {
        Some(n) => n,
        None => {
            return None;
        },
    };
    let old = match old_revision {
        Some(o) => o,
        None => {
            return None;
        },
    };
    match refactor_allowed {
        RefactorAllowed::No => None,
        RefactorAllowed::Yes => if new <= old {
            None
        } else {
            Some(buffer)
        },
    }
}

/// Whether a version of a buffer's code that compiled, at `revision`,
/// replaces the last known compiling version, at `current` (`None` when
/// there is none): only a version at least as new does.
pub fn replaces_last_compiling(current: Option<usize>, revision: usize) -> (r: bool)
    ensures
        r == match current {
            None => true,
            Some(c) => revision >= c,
        },
{
    match current {
        None => true,
        Some(c) => revision >= c,
    }
}

/// What to do with the edits a refactor produced.
#[derive(Debug, Clone, Copy, PartialEq, Eq, Structural)]
pub enum RefactorAction {
    /// Ask the editor to open files first; the refactor is retried later.
    OpenFiles,
    /// There is nothing to change.
    NothingToDo,
    /// The refactored code does not parse; drop the refactor.
    DropInvalid,
    /// The same refactor was made recently, and undone: drop it to avoid a
    /// loop.
    DropRepeat,
    /// Send the edits to the editor.
    Apply,
}

/// The action for a refactor that needs files opened (`needs_files`), has
/// edits (`has_edits`), produces code that parses (`valid`) and was or was
/// not made recently (`recent`): the first condition that holds decides.
pub open spec fn spec_refactor_action(needs_files: bool, has_edits: bool, valid: bool, recent: bool) -> RefactorAction {
    if needs_files {
        RefactorAction::OpenFiles
    } else if !has_edits {
        RefactorAction::NothingToDo
    } else if !valid {
        RefactorAction::DropInvalid
    } else if recent {
        RefactorAction::DropRepeat
    } else {
        RefactorAction::Apply
    }
}

/// The refactors made last, newest last; at most two are kept, to detect a
/// refactor being redone after the programmer undid it.
pub struct RefactorHistory {
    previous: Vec<Vec<Edit>>,
}

impl View for RefactorHistory {
    type V = Seq<Seq<(Buffer, InputEdit, Seq<char>)>>;

    closed spec fn view(&self) -> Seq<Seq<(Buffer, InputEdit, Seq<char>)>> {
        self.previous@.map_values(|es: Vec<Edit>| edits_view(es@))
    }
}

impl RefactorHistory {
    #[verifier::type_invariant]
    spec fn inv(self) -> bool {
        self.previous@.len() <= 2
    }

    /// A history without refactors.
    pub fn new() -> (r: RefactorHistory)
        ensures
            r@ == Seq::<Seq<(Buffer, InputEdit, Seq<char>)>>::empty(),
    {
        let r = RefactorHistory { previous: Vec::new() };
        assert(r@ =~= Seq::<Seq<(Buffer, InputEdit, Seq<char>)>>::empty());
        r
    }

    /// Whether the refactor with edits `edits` is among the ones kept.
    pub fn contains(&self, edits: &Vec<Edit>) -> (r: bool)
        ensures
            r == self@.contains(edits_view(edits@)),
    {
        let mut i: usize = 0;
        while i < self.previous.len()
            invariant
                i <= self.previous@.len(),
                forall|j: int| 0 <= j < i ==> self@[j] != edits_view(edits@),
            decreases self.previous.len() - i,
        {
            if same_edits(&self.previous[i], edits) {
                assert(self@[i as int] == edits_view(edits@));
                return true;
            }
            i = i + 1;
        }
        false
    }

    /// Forgets all refactors.
    pub fn forget(&mut self)
        ensures
            final(self)@ == Seq::<Seq<(Buffer, InputEdit, Seq<char>)>>::empty(),
    {
        self.previous = Vec::new();
        assert(self@ =~= Seq::<Seq<(Buffer, InputEdit, Seq<char>)>>::empty());
    }

    /// Records the refactor with edits `edits` as the newest, keeping the one
    /// before it too.
    pub fn record(&mut self, edits: Vec<Edit>)
        ensures
            final(self)@ == if old(self)@.len() == 0 {
                seq![edits_view(edits@)]
            } else {
                seq![old(self)@.last(), edits_view(edits@)]
            },
            final(self)@.len() <= 2,
    {
        proof {
            use_type_invariant(&*self);
        }
        let ghost before = self@;
        let ghost new_edits = edits_view(edits@);
        let mut previous = Vec::new();
        std::mem::swap(&mut previous, &mut self.previous);
        let last = previous.pop();
        let mut kept: Vec<Vec<Edit>> = Vec::new();
        match last {
            None => {},
            Some(prev) => {
                kept.push(prev);
            },
        }
        kept.push(edits);
        self.previous = kept;
        assert(self@ =~= if before.len() == 0 {
            seq![new_edits]
        } else {
            seq![before.last(), new_edits]
        });
    }

    /// Decides what to do with a refactor with edits `edits` that needs the
    /// files `files_to_open` opened first, and whose refactored code parses
    /// when `valid`. Dropping a repeated refactor forgets the history;
    /// applying one is recorded by [`RefactorHistory::record`] once the
    /// editor took the edits.
    pub fn decide(&mut self, edits: &Vec<Edit>, files_to_open: usize, valid: bool) -> (r: RefactorAction)
        ensures
            r == spec_refactor_action(
                files_to_open > 0,
                edits@.len() > 0,
                valid,
                old(self)@.contains(edits_view(edits@)),
            ),
            r == RefactorAction::DropRepeat ==> final(self)@ == Seq::<
                Seq<(Buffer, InputEdit, Seq<char>)>,
            >::empty(),
            r != RefactorAction::DropRepeat ==> final(self)@ == old(self)@,
    {
        if files_to_open > 0 {
            return RefactorAction::OpenFiles;
        }
        if edits.len() == 0 {
            return RefactorAction::NothingToDo;
        }
        if !valid {
            return RefactorAction::DropInvalid;
        }
        if self.contains(edits) {
            self.forget();
            return RefactorAction::DropRepeat;
        }
        RefactorAction::Apply
    }
}

/// A refactor just recorded is recognized as recent, so redoing it right
/// after is dropped.
pub proof fn lemma_recorded_refactor_is_recent(
    history: Seq<Seq<(Buffer, InputEdit, Seq<char>)>>,
    edits: Seq<(Buffer, InputEdit, Seq<char>)>,
)
    ensures
        ({
            let after = if history.len() == 0 {
                seq![edits]
            } else {
                seq![history.last(), edits]
            };
            &&& after.contains(edits)
            &&& spec_refactor_action(false, edits.len() > 0, true, after.contains(edits))
                != RefactorAction::Apply
        }),
{
    let after = if history.len() == 0 {
        seq![edits]
    } else {
        seq![history.last(), edits]
    };
    assert(after[after.len() - 1] == edits);
}

} // verus!

verus! {

/// The version of `b`'s code among `versions` from index `i` on: the
/// revision and the code of the first entry for `b`.
pub open spec fn version_from(versions: Seq<(Buffer, usize, String)>, b: Buffer, i: int) -> Option<
    (usize, Seq<char>),
>
    decreases versions.len() - i,
{
    if i < 0 || i >= versions.len() {
        None
    } else if versions[i].0 == b {
        Some((versions[i].1, versions[i].2@))
    } else {
        version_from(versions, b, i + 1)
    }
}

/// The last compiling version of `b`'s code among `versions`.
pub open spec fn version_of(versions: Seq<(Buffer, usize, String)>, b: Buffer) -> Option<
    (usize, Seq<char>),
> {
    version_from(versions, b, 0)
}

/// What the analysis loop keeps between idle moments: the refactors made
/// last, and the last version of each buffer's code known to compile.
pub struct AnalysisState {
    pub history: RefactorHistory,
    pub last_compiling: Vec<(Buffer, usize, String)>,
}

/// What the analysis loop has the editor do with a refactor.
pub enum IdleAction {
    /// Nothing.
    Nothing,
    /// Open these files, so the refactor can be made once they are.
    OpenFiles(Vec<String>),
    /// Make these edits.
    ApplyEdits(Vec<Edit>),
}

impl AnalysisState {
    /// A state without refactors or compiled code.
    pub fn new() -> (r: AnalysisState)
        ensures
            r.history@ == Seq::<Seq<(Buffer, InputEdit, Seq<char>)>>::empty(),
            r.last_compiling@ == Seq::<(Buffer, usize, String)>::empty(),
    {
        AnalysisState { history: RefactorHistory::new(), last_compiling: Vec::new() }
    }

    /// The last compiling version of `b`'s code: its revision and code.
    pub fn last_compiling_version(&self, b: Buffer) -> (r: Option<(usize, &String)>)
        ensures
            match version_of(self.last_compiling@, b) {
                Some((rev, code)) => r matches Some((rv, c)) && rv == rev && c@ == code,
                None => r is None,
            },
    {
        let mut i: usize = 0;
        while i < self.last_compiling.len()
            invariant
                i <= self.last_compiling@.len(),
                version_of(self.last_compiling@, b) == version_from(
                    self.last_compiling@,
                    b,
                    i as int,
                ),
            decreases self.last_compiling.len() - i,
        {
            if self.last_compiling[i].0 == b {
                return Some((self.last_compiling[i].1, &self.last_compiling[i].2));
            }
            i = i + 1;
        }
        None
    }

    /// Makes `code` at `revision` the last compiling version of `b`'s code.
    pub fn set_last_compiling(&mut self, b: Buffer, revision: usize, code: String)
        ensures
            forall|x: Buffer|
                #[trigger] version_of(final(self).last_compiling@, x) == if x == b {
                    Some((revision, code@))
                } else {
                    version_of(old(self).last_compiling@, x)
                },
            final(self).history@ == old(self).history@,
    {
        let ghost v = self.last_compiling@;
        let mut i: usize = 0;
        while i < self.last_compiling.len()
            invariant
                i <= v.len(),
                self.last_compiling@ == v,
                self.history@ == old(self).history@,
                v == old(self).last_compiling@,
                forall|j: int| 0 <= j < i ==> v[j].0 != b,
            decreases self.last_compiling.len() - i,
        {
            if self.last_compiling[i].0 == b {
                let ghost code_view = code@;
                self.last_compiling.set(i, (b, revision, code));
                proof {
                    lemma_version_set(v, i as int, (b, revision, self.last_compiling@[i as int].2));
                }
                return;
            }
            i = i + 1;
        }
        let ghost code_view = code@;
        self.last_compiling.push((b, revision, code));
        proof {
            lemma_version_push(v, (b, revision, self.last_compiling@[v.len() as int].2));
        }
    }
}

/// Replacing the first entry of a buffer changes the version of that buffer
/// only.
proof fn lemma_version_set(v: Seq<(Buffer, usize, String)>, i: int, x: (Buffer, usize, String))
    requires
        0 <= i < v.len(),
        v[i].0 == x.0,
        forall|j: int| 0 <= j < i ==> v[j].0 != x.0,
    ensures
        forall|b: Buffer|
            #[trigger] version_of(v.update(i, x), b) == if b == x.0 {
                Some((x.1, x.2@))
            } else {
                version_of(v, b)
            },
{
    assert forall|b: Buffer| #[trigger]
        version_of(v.update(i, x), b) == if b == x.0 {
            Some((x.1, x.2@))
        } else {
            version_of(v, b)
        } by {
        lemma_version_set_from(v, i, x, b, 0);
    }
}

proof fn lemma_version_set_from(
    v: Seq<(Buffer, usize, String)>,
    i: int,
    x: (Buffer, usize, String),
    b: Buffer,
    k: int,
)
    requires
        0 <= i < v.len(),
        0 <= k <= i,
        v[i].0 == x.0,
        forall|j: int| 0 <= j < i ==> v[j].0 != x.0,
    ensures
        version_from(v.update(i, x), b, k) == if b == x.0 {
            Some((x.1, x.2@))
        } else {
            version_from(v, b, k)
        },
    decreases v.len() - k,
{
    let w = v.update(i, x);
    if k == i {
        if b != x.0 {
            lemma_version_same_after(v, w, b, k + 1);
        }
    } else {
        lemma_version_set_from(v, i, x, b, k + 1);
    }
}

/// Two lists that agree from index `k` on give the same versions from `k`.
proof fn lemma_version_same_after(v: Seq<(Buffer, usize, String)>, w: Seq<(Buffer, usize, String)>, b: Buffer, k: int)
    requires
        v.len() == w.len(),
        0 <= k,
        forall|j: int| k <= j < v.len() ==> v[j] == w[j],
    ensures
        version_from(v, b, k) == version_from(w, b, k),
    decreases v.len() - k,
{
    if k < v.len() {
        lemma_version_same_after(v, w, b, k + 1);
    }
}

/// Adding an entry for a buffer that has none gives that buffer a version
/// and leaves the others as they were.
proof fn lemma_version_push(v: Seq<(Buffer, usize, String)>, x: (Buffer, usize, String))
    requires
        forall|j: int| 0 <= j < v.len() ==> v[j].0 != x.0,
    ensures
        forall|b: Buffer|
            #[trigger] version_of(v.push(x), b) == if b == x.0 {
                Some((x.1, x.2@))
            } else {
                version_of(v, b)
            },
{
    assert forall|b: Buffer| #[trigger]
        version_of(v.push(x), b) == if b == x.0 {
            Some((x.1, x.2@))
        } else {
            version_of(v, b)
        } by {
        lemma_version_push_from(v, x, b, 0);
    }
}

proof fn lemma_version_push_from(v: Seq<(Buffer, usize, String)>, x: (Buffer, usize, String), b: Buffer, k: int)
    requires
        0 <= k <= v.len(),
        forall|j: int| 0 <= j < v.len() ==> v[j].0 != x.0,
    ensures
        version_from(v.push(x), b, k) == if b == x.0 {
            Some((x.1, x.2@))
        } else {
            version_from(v, b, k)
        },
    decreases v.len() - k,
{
    let w = v.push(x);
    if k < v.len() {
        assert(w[k] == v[k]);
        lemma_version_push_from(v, x, b, k + 1);
    } else {
        assert(w[k] == x);
        assert(version_from(w, b, k + 1) is None);
    }
}

} // verus!

verus! {

/// The code given for `b` last among `codes`, if any.
pub open spec fn last_code(codes: Seq<(Buffer, String)>, b: Buffer) -> Option<Seq<char>>
    decreases codes.len(),
{
    if codes.len() == 0 {
        None
    } else if codes.last().0 == b {
        Some(codes.last().1@)
    } else {
        last_code(codes.drop_last(), b)
    }
}

/// The history after recording the refactor with edits `edits`.
pub open spec fn recorded(
    history: Seq<Seq<(Buffer, InputEdit, Seq<char>)>>,
    edits: Seq<(Buffer, InputEdit, Seq<char>)>,
) -> Seq<Seq<(Buffer, InputEdit, Seq<char>)>> {
    if history.len() == 0 {
        seq![edits]
    } else {
        seq![history.last(), edits]
    }
}

impl AnalysisState {
    /// Decides what the editor does with a refactor whose edits are `edits`,
    /// that needs the files `files_to_open` opened first, and whose
    /// refactored code parses when `valid` (see [`spec_refactor_action`]):
    /// open the files, make the edits, or nothing. Dropping a repeat of a
    /// recent refactor forgets the refactors made.
    pub fn idle_step(&mut self, edits: Vec<Edit>, files_to_open: Vec<String>, valid: bool) -> (r:
        IdleAction)
        ensures
            match spec_refactor_action(
                files_to_open@.len() > 0,
                edits@.len() > 0,
                valid,
                old(self).history@.contains(edits_view(edits@)),
            ) {
                RefactorAction::OpenFiles => r matches IdleAction::OpenFiles(f) && f@
                    == files_to_open@,
                RefactorAction::Apply => r matches IdleAction::ApplyEdits(e) && e@ == edits@,
                _ => r is Nothing,
            },
            spec_refactor_action(
                files_to_open@.len() > 0,
                edits@.len() > 0,
                valid,
                old(self).history@.contains(edits_view(edits@)),
            ) == RefactorAction::DropRepeat ==> final(self).history@ == Seq::<
                Seq<(Buffer, InputEdit, Seq<char>)>,
            >::empty(),
            spec_refactor_action(
                files_to_open@.len() > 0,
                edits@.len() > 0,
                valid,
                old(self).history@.contains(edits_view(edits@)),
            ) != RefactorAction::DropRepeat ==> final(self).history@ == old(self).history@,
            final(self).last_compiling@ == old(self).last_compiling@,
    {
        match self.history.decide(&edits, files_to_open.len(), valid) {
            RefactorAction::OpenFiles => IdleAction::OpenFiles(files_to_open),
            RefactorAction::Apply => IdleAction::ApplyEdits(edits),
            _ => IdleAction::Nothing,
        }
    }

    /// Records that the editor made the edits `edits` of a refactor of the
    /// code at `revision`, which gave the code `refactored` for the buffers
    /// it changed: the refactor becomes the newest in the history, and each
    /// refactored code becomes the last compiling version of its buffer at
    /// `revision + 1`. The editor's revisions are even, so a refactor's are
    /// odd, and the editor's next revision replaces it.
    pub fn edits_applied(&mut self, edits: Vec<Edit>, refactored: Vec<(Buffer, String)>, revision: usize)
        requires
            revision < usize::MAX,
        ensures
            final(self).history@ == recorded(old(self).history@, edits_view(edits@)),
            forall|x: Buffer|
                #[trigger] version_of(final(self).last_compiling@, x) == match last_code(
                    refactored@,
                    x,
                ) {
                    Some(c) => Some((((revision + 1) as usize), c)),
                    None => version_of(old(self).last_compiling@, x),
                },
    {
        self.history.record(edits);
        let ghost h = self.history@;
        let mut i: usize = 0;
        assert(refactored@.take(0) =~= Seq::<(Buffer, String)>::empty());
        while i < refactored.len()
            invariant
                i <= refactored@.len(),
                revision < usize::MAX,
                self.history@ == h,
                forall|x: Buffer|
                    #[trigger] version_of(self.last_compiling@, x) == match last_code(
                        refactored@.take(i as int),
                        x,
                    ) {
                        Some(c) => Some((((revision + 1) as usize), c)),
                        None => version_of(old(self).last_compiling@, x),
                    },
            decreases refactored.len() - i,
        {
            assert(refactored@.take(i + 1).drop_last() =~= refactored@.take(i as int));
            assert(refactored@.take(i + 1).last() == refactored@[i as int]);
            let b = refactored[i].0;
            let code = refactored[i].1.clone();
            self.set_last_compiling(b, revision + 1, code);
            i = i + 1;
        }
        assert(refactored@.take(refactored@.len() as int) =~= refactored@);
    }
}

} // verus!
