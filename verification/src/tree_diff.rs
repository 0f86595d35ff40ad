//! Locating the part of a syntax tree that changed between two versions of a
//! source file. The tree is walked level by level: at each level the siblings
//! of the old and the new tree are compared, and the walk either stops with
//! the run of siblings that was replaced, or descends into the one sibling
//! that changed.
use vstd::prelude::*;

verus! {

/// What the comparison needs to know of a node of a syntax tree.
pub struct NodeKey {
    /// Identity of the node; equal identities mean the node was reused as is
    /// between the two trees.
    pub id: usize,
    /// The grammar kind of the node.
    pub kind_id: u16,
    /// The source code the node covers.
    pub text: String,
    /// The number of children of the node.
    pub child_count: usize,
}

/// The mathematical form of a [`NodeKey`].
pub struct NodeKeyView {
    pub id: usize,
    pub kind_id: u16,
    pub text: Seq<char>,
    pub child_count: usize,
}

impl View for NodeKey {
    type V = NodeKeyView;

    open spec fn view(&self) -> NodeKeyView {
        NodeKeyView {
            id: self.id,
            kind_id: self.kind_id,
            text: self.text@,
            child_count: self.child_count,
        }
    }
}

/// The mathematical form of a list of nodes.
pub open spec fn keys_view(v: Seq<NodeKey>) -> Seq<NodeKeyView> {
    v.map_values(|k: NodeKey| k@)
}

/// A node is considered changed unless it is the same node, or has the same
/// kind and covers the same source code.
pub open spec fn spec_changed(old: NodeKeyView, new: NodeKeyView) -> bool {
    old.id != new.id && (old.kind_id != new.kind_id || old.text != new.text)
}

/// Whether a node changed between the old and the new tree.
pub fn has_node_changed(old: &NodeKey, new: &NodeKey) -> (r: bool)
    ensures
        r == spec_changed(old@, new@),
{
    old.id != new.id && (old.kind_id != new.kind_id || old.text != new.text)
}

/// The outcome of comparing the old and new siblings of one level, walking
/// both lists in lock step from their first element.
#[derive(Debug, PartialEq, Eq)]
pub enum FirstChangedSibling {
    /// Both lists are the same length and no pair differs.
    NoneFound,
    /// The pair at this index is the first that differs.
    OldAndNewAtFirstChanged(usize),
    /// The new list is a prefix of the old one; the old list has further
    /// siblings from this index on.
    OldAtFirstAdditional(usize),
    /// The old list is a prefix of the new one; the new list has further
    /// siblings from this index on.
    NewAtFirstAdditional(usize),
}

/// The first index from `i` on at which the two lists differ, or their
/// shorter length if they agree up to there.
pub open spec fn first_difference(old: Seq<NodeKeyView>, new: Seq<NodeKeyView>, i: int) -> int
    decreases old.len() - i,
{
    if i < 0 || i >= old.len() || i >= new.len() || spec_changed(old[i], new[i]) {
        i
    } else {
        first_difference(old, new, i + 1)
    }
}

/// The mathematical form of [`goto_first_changed_sibling`].
pub open spec fn spec_first_changed_sibling(
    old: Seq<NodeKeyView>,
    new: Seq<NodeKeyView>,
) -> FirstChangedSibling {
    let k = first_difference(old, new, 0);
    if k < old.len() && k < new.len() {
        FirstChangedSibling::OldAndNewAtFirstChanged(k as usize)
    } else if old.len() == new.len() {
        FirstChangedSibling::NoneFound
    } else if old.len() > new.len() {
        FirstChangedSibling::OldAtFirstAdditional(new.len() as usize)
    } else {
        FirstChangedSibling::NewAtFirstAdditional(old.len() as usize)
    }
}

proof fn lemma_first_difference(old: Seq<NodeKeyView>, new: Seq<NodeKeyView>, i: int)
    requires
        0 <= i,
    ensures
        i <= first_difference(old, new, i),
        first_difference(old, new, i) <= old.len() || first_difference(old, new, i) == i,
        first_difference(old, new, i) <= new.len() || first_difference(old, new, i) == i,
        forall|t: int|
            i <= t < first_difference(old, new, i) ==> !spec_changed(
                #[trigger] old[t],
                new[t],
            ) && t < old.len() && t < new.len(),
    decreases old.len() - i,
{
    if i < 0 || i >= old.len() || i >= new.len() || spec_changed(old[i], new[i]) {
    } else {
        lemma_first_difference(old, new, i + 1);
    }
}

/// Walks both sibling lists in lock step from their first element until a
/// pair differs or one of the lists ends.
pub fn goto_first_changed_sibling(old: &Vec<NodeKey>, new: &Vec<NodeKey>) -> (r:
    FirstChangedSibling)
    requires
        keys_view(old@).len() > 0,
        keys_view(new@).len() > 0,
    ensures
        r == spec_first_changed_sibling(keys_view(old@), keys_view(new@)),
{
    let mut i: usize = 0;
    while i < old.len() && i < new.len()
        invariant
            first_difference(keys_view(old@), keys_view(new@), 0) == first_difference(keys_view(old@), keys_view(new@), i as int),
            0 <= i <= keys_view(old@).len(),
            i <= keys_view(new@).len(),
        decreases old.len() - i,
    {
        if has_node_changed(&old[i], &new[i]) {
            return FirstChangedSibling::OldAndNewAtFirstChanged(i);
        }
        i = i + 1;
    }
    proof {
        lemma_first_difference(keys_view(old@), keys_view(new@), 0);
    }
    if old.len() == new.len() {
        FirstChangedSibling::NoneFound
    } else if old.len() > new.len() {
        FirstChangedSibling::OldAtFirstAdditional(new.len())
    } else {
        FirstChangedSibling::NewAtFirstAdditional(old.len())
    }
}

/// Whether the backwards walk of [`count_changed_siblings`] takes its step
/// number `t`: the pair of siblings `t` places from the end is unchanged, both
/// counts are still positive, and both siblings have a predecessor.
pub open spec fn backward_step(old: Seq<NodeKeyView>, new: Seq<NodeKeyView>, i: int, t: int) -> bool {
    let a = old.len() - 1 - t;
    let b = new.len() - 1 - t;
    &&& 0 <= t
    &&& a >= i && b >= i
    &&& a > 0 && b > 0
    &&& !spec_changed(old[a], new[b])
}

/// The number of steps the backwards walk takes from step `t` on.
pub open spec fn backward_steps(old: Seq<NodeKeyView>, new: Seq<NodeKeyView>, i: int, t: int) -> int
    decreases old.len() - t,
{
    if t >= 0 && t < old.len() && backward_step(old, new, i, t) {
        1 + backward_steps(old, new, i, t + 1)
    } else {
        0
    }
}

/// The mathematical form of [`count_changed_siblings`]: how many old siblings,
/// from index `i` on, were replaced by how many new ones.
pub open spec fn spec_count_changed_siblings(old: Seq<NodeKeyView>, new: Seq<NodeKeyView>, i: int) -> (
    int,
    int,
) {
    let k = backward_steps(old, new, i, 0);
    (old.len() - i - k, new.len() - i - k)
}

proof fn lemma_backward_steps(old: Seq<NodeKeyView>, new: Seq<NodeKeyView>, i: int, t: int)
    requires
        0 <= t,
        0 <= i,
    ensures
        0 <= backward_steps(old, new, i, t),
        backward_steps(old, new, i, t) > 0 ==> t + backward_steps(old, new, i, t) <= old.len() - i
            && t + backward_steps(old, new, i, t) <= new.len() - i,
        forall|u: int|
            t <= u < t + backward_steps(old, new, i, t) ==> #[trigger] backward_step(
                old,
                new,
                i,
                u,
            ),
        !backward_step(old, new, i, t + backward_steps(old, new, i, t)) || t
            + backward_steps(old, new, i, t) >= old.len(),
    decreases old.len() - t,
{
    if t < old.len() && backward_step(old, new, i, t) {
        lemma_backward_steps(old, new, i, t + 1);
    }
}

/// Counts how many old siblings from index `i` on were replaced by how many
/// new siblings, by skipping the pairs at the end of both lists that did not
/// change. For example, for old siblings `a b c d e f g h` and new siblings
/// `a x y f g h` and `i == 1` the result is `(4, 2)`.
pub fn count_changed_siblings(old: &Vec<NodeKey>, new: &Vec<NodeKey>, i: usize) -> (r: (
    usize,
    usize,
))
    requires
        i < keys_view(old@).len(),
        i < keys_view(new@).len(),
    ensures
        (r.0 as int, r.1 as int) == spec_count_changed_siblings(keys_view(old@), keys_view(new@), i as int),
        r.0 <= keys_view(old@).len() - i,
        r.1 <= keys_view(new@).len() - i,
        keys_view(old@).len() - r.0 - i == keys_view(new@).len() - r.1 - i,
        forall|t: int|
            0 <= t < keys_view(old@).len() - i - r.0 ==> !spec_changed(
                #[trigger] keys_view(old@)[keys_view(old@).len() - 1 - t],
                keys_view(new@)[keys_view(new@).len() - 1 - t],
            ),
{
    let mut old_removed: usize = old.len() - i;
    let mut new_added: usize = new.len() - i;
    let mut a: usize = old.len() - 1;
    let mut b: usize = new.len() - 1;
    let ghost mut t: int = 0;
    proof {
        lemma_backward_steps(keys_view(old@), keys_view(new@), i as int, 0);
    }
    loop
        invariant
            0 <= t,
            a == keys_view(old@).len() - 1 - t,
            b == keys_view(new@).len() - 1 - t,
            old_removed == keys_view(old@).len() - i - t,
            new_added == keys_view(new@).len() - i - t,
            a + 1 >= i,
            b + 1 >= i,
            backward_steps(keys_view(old@), keys_view(new@), i as int, 0) == t + backward_steps(
                keys_view(old@),
                keys_view(new@),
                i as int,
                t,
            ),
            forall|u: int| 0 <= u < t ==> #[trigger] backward_step(keys_view(old@), keys_view(new@), i as int, u),
        ensures
            !backward_step(keys_view(old@), keys_view(new@), i as int, t),
        decreases a,
    {
        if old_removed == 0 || new_added == 0 || has_node_changed(&old[a], &new[b]) {
            break ;
        }
        if a == 0 || b == 0 {
            break ;
        }
        proof {
            assert(backward_step(keys_view(old@), keys_view(new@), i as int, t));
        }
        a = a - 1;
        b = b - 1;
        old_removed = old_removed - 1;
        new_added = new_added - 1;
        proof {
            t = t + 1;
        }
    }
    proof {
        assert(backward_steps(keys_view(old@), keys_view(new@), i as int, t) == 0);
        assert forall|u: int| 0 <= u < t implies !spec_changed(
            #[trigger] keys_view(old@)[keys_view(old@).len() - 1 - u],
            keys_view(new@)[keys_view(new@).len() - 1 - u],
        ) by {
            assert(backward_step(keys_view(old@), keys_view(new@), i as int, u));
        }
    }
    (old_removed, new_added)
}

/// What the walk does with one level of siblings.
#[derive(Debug, PartialEq, Eq)]
pub enum LevelDiff {
    /// Nothing changed at this level.
    Unchanged,
    /// Old siblings from this index on were removed.
    OldRemovedFrom(usize),
    /// New siblings from this index on were added.
    NewAddedFrom(usize),
    /// The single sibling at this index changed but kept its kind, and both
    /// versions have children: the change lies further down.
    Descend(usize),
    /// `old_count` old siblings from `index` on were replaced by `new_count`
    /// new ones.
    Replaced { index: usize, old_count: usize, new_count: usize },
}

/// The mathematical form of [`diff_level`].
pub open spec fn spec_diff_level(old: Seq<NodeKeyView>, new: Seq<NodeKeyView>) -> LevelDiff {
    match spec_first_changed_sibling(old, new) {
        FirstChangedSibling::NoneFound => LevelDiff::Unchanged,
        FirstChangedSibling::OldAtFirstAdditional(j) => LevelDiff::OldRemovedFrom(j),
        FirstChangedSibling::NewAtFirstAdditional(j) => LevelDiff::NewAddedFrom(j),
        FirstChangedSibling::OldAndNewAtFirstChanged(k) => {
            let (oc, nc) = spec_count_changed_siblings(old, new, k as int);
            if oc == 1 && nc == 1 && old[k as int].kind_id == new[k as int].kind_id
                && old[k as int].child_count > 0 && new[k as int].child_count > 0 {
                LevelDiff::Descend(k)
            } else {
                LevelDiff::Replaced { index: k, old_count: oc as usize, new_count: nc as usize }
            }
        },
    }
}

/// Compares the old and new siblings of one level of the trees.
pub fn diff_level(old: &Vec<NodeKey>, new: &Vec<NodeKey>) -> (r: LevelDiff)
    requires
        keys_view(old@).len() > 0,
        keys_view(new@).len() > 0,
    ensures
        r == spec_diff_level(keys_view(old@), keys_view(new@)),
{
    match goto_first_changed_sibling(old, new) {
        FirstChangedSibling::NoneFound => LevelDiff::Unchanged,
        FirstChangedSibling::OldAtFirstAdditional(j) => LevelDiff::OldRemovedFrom(j),
        FirstChangedSibling::NewAtFirstAdditional(j) => LevelDiff::NewAddedFrom(j),
        FirstChangedSibling::OldAndNewAtFirstChanged(k) => {
            proof {
                lemma_first_difference(keys_view(old@), keys_view(new@), 0);
            }
            let (oc, nc) = count_changed_siblings(old, new, k);
            if oc == 1 && nc == 1 && old[k].kind_id == new[k].kind_id && old[k].child_count > 0
                && new[k].child_count > 0 {
                LevelDiff::Descend(k)
            } else {
                LevelDiff::Replaced { index: k, old_count: oc, new_count: nc }
            }
        },
    }
}

} // verus!

verus! {

/// When a level is reported unchanged, both levels have the same number of
/// siblings and every pair of siblings is unchanged.
pub proof fn lemma_unchanged_level(old: Seq<NodeKeyView>, new: Seq<NodeKeyView>)
    requires
        spec_diff_level(old, new) == LevelDiff::Unchanged,
    ensures
        old.len() == new.len(),
        forall|t: int| 0 <= t < old.len() ==> !spec_changed(#[trigger] old[t], new[t]),
{
    lemma_first_difference(old, new, 0);
}

/// When a run of siblings is reported replaced, every sibling before the run
/// and every sibling after it is unchanged: the siblings before it pair up by
/// position, those after it by their distance from the end.
pub proof fn lemma_replaced_run(old: Seq<NodeKeyView>, new: Seq<NodeKeyView>)
    requires
        spec_diff_level(old, new) is Replaced,
        old.len() <= usize::MAX,
        new.len() <= usize::MAX,
    ensures
        ({
            let (index, old_count, new_count) = match spec_diff_level(old, new) {
                LevelDiff::Replaced { index, old_count, new_count } => (
                    index as int,
                    old_count as int,
                    new_count as int,
                ),
                _ => (0, 0, 0),
            };
            &&& index + old_count <= old.len()
            &&& index + new_count <= new.len()
            &&& old.len() - old_count == new.len() - new_count
            &&& forall|t: int| 0 <= t < index ==> !spec_changed(#[trigger] old[t], new[t])
            &&& forall|t: int|
                0 <= t < old.len() - index - old_count ==> !spec_changed(
                    #[trigger] old[old.len() - 1 - t],
                    new[new.len() - 1 - t],
                )
        }),
{
    lemma_first_difference(old, new, 0);
    let k = first_difference(old, new, 0);
    lemma_backward_steps(old, new, k, 0);
    let steps = backward_steps(old, new, k, 0);
    assert forall|t: int| 0 <= t < steps implies !spec_changed(
        #[trigger] old[old.len() - 1 - t],
        new[new.len() - 1 - t],
    ) by {
        assert(backward_step(old, new, k, t));
    }
}

/// Every index that a level comparison reports lies within the siblings it
/// speaks of.
pub proof fn lemma_level_in_bounds(old: Seq<NodeKeyView>, new: Seq<NodeKeyView>)
    requires
        old.len() <= usize::MAX,
        new.len() <= usize::MAX,
    ensures
        match spec_diff_level(old, new) {
            LevelDiff::Unchanged => old.len() == new.len(),
            LevelDiff::OldRemovedFrom(j) => j <= old.len(),
            LevelDiff::NewAddedFrom(j) => j <= new.len(),
            LevelDiff::Descend(k) => k < old.len() && k < new.len(),
            LevelDiff::Replaced { index, old_count, new_count } => index + old_count <= old.len()
                && index + new_count <= new.len(),
        },
{
    lemma_first_difference(old, new, 0);
    if spec_diff_level(old, new) is Replaced {
        lemma_replaced_run(old, new);
    }
}

} // verus!
