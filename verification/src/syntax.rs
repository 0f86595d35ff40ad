//! The syntax tree that the Elm grammar gives a source file, read one level
//! at a time, and the walk down two such trees to the part that changed.
use vstd::prelude::*;
use crate::tree_diff::{
    diff_level, keys_view, lemma_level_in_bounds, spec_diff_level, LevelDiff, NodeKey, NodeKeyView,
};

verus! {

/// What the `tree-sitter-elm` grammar makes of `code`, at the node reached
/// from the root by taking, at each step, the child with the index that
/// `path` gives: the kind of that node and, for each of its children, the
/// kind, the source text it covers, its number of children, the name of its
/// kind, and the bytes it starts and ends at. `None` when the parser gives
/// no tree or `path` leads to no node.
pub uninterp spec fn elm_children_at(code: Seq<char>, path: Seq<usize>) -> Option<
    (u16, Seq<(u16, Seq<char>, usize, Seq<char>, usize, usize)>),
>;

/// A child node as [`elm_children_at`] describes it: kind, text, number of
/// children, name of the kind, start byte and end byte.
pub type SpecChild = (u16, Seq<char>, usize, Seq<char>, usize, usize);

/// The mathematical form of a list of children.
pub open spec fn children_view(v: Seq<(u16, String, usize, String, usize, usize)>) -> Seq<(u16, Seq<char>, usize, Seq<char>, usize, usize)> {
    v.map_values(
        |c: (u16, String, usize, String, usize, usize)| (c.0, c.1@, c.2, c.3@, c.4, c.5),
    )
}

/// Parses `code` with `tree_sitter::Parser::parse` under the language of
/// `tree_sitter_elm`, follows `path` with `Node::child`, and lists the
/// children of the node it reaches with `Node::children`.
///
/// Trusted: the result is the one named by `elm_children_at`.
#[verifier::external_body]
pub(crate) fn children_at(code: &str, path: &Vec<usize>) -> (r: Option<(u16, Vec<(u16, String, usize, String, usize, usize)>)>)
    ensures
        match r {
            Some((kind, children)) => elm_children_at(code@, path@) == Some(
                (kind, children_view(children@)),
            ),
            None => elm_children_at(code@, path@) is None,
        },
{
    let mut parser = tree_sitter::Parser::new();
    parser.set_language(&tree_sitter_elm::LANGUAGE.into()).ok()?;
    let tree = parser.parse(code, None)?;
    let mut node = tree.root_node();
    for i in path.iter() {
        node = node.child(*i)?;
    }
    let mut cursor = node.walk();
    let children = node.children(&mut cursor).map(|c| {
        let text = String::from_utf8_lossy(&code.as_bytes()[c.byte_range()]).into_owned();
        (c.kind_id(), text, c.child_count(), c.kind().to_string(), c.start_byte(), c.end_byte())
    }).collect();
    Some((node.kind_id(), children))
}

/// The kinds of a list of children.
pub open spec fn kinds_of(cs: Seq<(u16, Seq<char>, usize, Seq<char>, usize, usize)>) -> Seq<u16> {
    cs.map_values(|c: (u16, Seq<char>, usize, Seq<char>, usize, usize)| c.0)
}

/// The children of one level as the level comparison sees them. The two
/// trees are parsed separately and share no node, so each tree gets an
/// identity of its own (`tree`) for all its nodes.
pub open spec fn level_keys(cs: Seq<(u16, Seq<char>, usize, Seq<char>, usize, usize)>, tree: usize) -> Seq<NodeKeyView> {
    cs.map_values(
        |c: (u16, Seq<char>, usize, Seq<char>, usize, usize)| NodeKeyView { id: tree, kind_id: c.0, text: c.1, child_count: c.2 },
    )
}

/// The walk down the trees of `old_code` and `new_code` from the node at
/// `path`: at each level the children of both are compared, and the walk
/// descends into the one child that changed, until it finds the kinds of the
/// removed and of the added nodes and the kind of their parent. `None` when
/// nothing changed, or a tree could not be read.
pub open spec fn spec_walk(old_code: Seq<char>, new_code: Seq<char>, path: Seq<usize>) -> Option<
    (Seq<u16>, Seq<u16>, u16),
>
    decreases usize::MAX - path.len(),
{
    if path.len() >= usize::MAX {
        None
    } else {
        match (elm_children_at(old_code, path), elm_children_at(new_code, path)) {
            (Some((parent, oc)), Some((_, nc))) => if oc.len() == 0 || nc.len() == 0 {
                Some((kinds_of(oc), kinds_of(nc), parent))
            } else {
                match spec_diff_level(level_keys(oc, 0), level_keys(nc, 1)) {
                    LevelDiff::Unchanged => None,
                    LevelDiff::OldRemovedFrom(j) => Some(
                        (kinds_of(oc.skip(j as int)), Seq::empty(), parent),
                    ),
                    LevelDiff::NewAddedFrom(j) => Some(
                        (Seq::empty(), kinds_of(nc.skip(j as int)), parent),
                    ),
                    LevelDiff::Descend(k) => spec_walk(old_code, new_code, path.push(k)),
                    LevelDiff::Replaced { index, old_count, new_count } => Some(
                        (
                            kinds_of(oc.subrange(index as int, index + old_count)),
                            kinds_of(nc.subrange(index as int, index + new_count)),
                            parent,
                        ),
                    ),
                }
            },
            _ => None,
        }
    }
}

/// What changed between `old_code` and `new_code`, as the walk from the root
/// finds it.
pub open spec fn spec_changed_kinds(old_code: Seq<char>, new_code: Seq<char>) -> Option<
    (Seq<u16>, Seq<u16>, u16),
> {
    spec_walk(old_code, new_code, Seq::empty())
}

/// The kinds of the children from index `from` up to `to`.
fn kinds(cs: &Vec<(u16, String, usize, String, usize, usize)>, from: usize, to: usize) -> (r: Vec<u16>)
    requires
        from <= to <= cs@.len(),
    ensures
        r@ == kinds_of(children_view(cs@).subrange(from as int, to as int)),
{
    let mut r: Vec<u16> = Vec::new();
    let mut i: usize = from;
    while i < to
        invariant
            from <= i <= to <= cs@.len(),
            r@ == kinds_of(children_view(cs@).subrange(from as int, i as int)),
        decreases to - i,
    {
        r.push(cs[i].0);
        i = i + 1;
        assert(r@ =~= kinds_of(children_view(cs@).subrange(from as int, i as int)));
    }
    r
}

/// The children as nodes of the tree with identity `tree`.
fn keys(cs: &Vec<(u16, String, usize, String, usize, usize)>, tree: usize) -> (r: Vec<NodeKey>)
    ensures
        keys_view(r@) == level_keys(children_view(cs@), tree),
{
    let mut r: Vec<NodeKey> = Vec::new();
    let mut i: usize = 0;
    while i < cs.len()
        invariant
            i <= cs@.len(),
            r@.len() == i,
            keys_view(r@) == level_keys(children_view(cs@).take(i as int), tree),
        decreases cs.len() - i,
    {
        let key = NodeKey {
            id: tree,
            kind_id: cs[i].0,
            text: cs[i].1.clone(),
            child_count: cs[i].2,
        };
        assert(key@ == level_keys(children_view(cs@), tree)[i as int]);
        let ghost before = r@;
        r.push(key);
        i = i + 1;
        assert forall|j: int| 0 <= j < i implies #[trigger] keys_view(r@)[j] == level_keys(
            children_view(cs@).take(i as int),
            tree,
        )[j] by {
            if j < i - 1 {
                assert(r@[j] == before[j]);
                assert(keys_view(before)[j] == level_keys(children_view(cs@).take(i - 1), tree)[j]);
            }
        }
        assert(keys_view(r@) =~= level_keys(children_view(cs@).take(i as int), tree));
    }
    assert(children_view(cs@).take(cs@.len() as int) =~= children_view(cs@));
    r
}

/// Walks the syntax trees of `old_code` and `new_code` down to the part that
/// changed: the kinds of the removed and of the added nodes, and the kind of
/// their parent; `None` when nothing changed or a tree could not be read.
pub fn changed_kinds(old_code: &str, new_code: &str) -> (r: Option<(Vec<u16>, Vec<u16>, u16)>)
    ensures
        match r {
            Some((before, after, parent)) => spec_changed_kinds(old_code@, new_code@) == Some(
                (before@, after@, parent),
            ),
            None => spec_changed_kinds(old_code@, new_code@) is None,
        },
{
    let mut path: Vec<usize> = Vec::new();
    loop
        invariant
            spec_walk(old_code@, new_code@, path@) == spec_changed_kinds(old_code@, new_code@),
        decreases usize::MAX - path@.len(),
    {
        if path.len() == usize::MAX {
            return None;
        }
        let (parent, oc) = match children_at(old_code, &path) {
            Some(x) => x,
            None => {
                return None;
            },
        };
        let (_, nc) = match children_at(new_code, &path) {
            Some(x) => x,
            None => {
                return None;
            },
        };
        if oc.len() == 0 || nc.len() == 0 {
            let before = kinds(&oc, 0, oc.len());
            let after = kinds(&nc, 0, nc.len());
            assert(children_view(oc@).subrange(0, oc@.len() as int) =~= children_view(oc@));
            assert(children_view(nc@).subrange(0, nc@.len() as int) =~= children_view(nc@));
            return Some((before, after, parent));
        }
        let old_keys = keys(&oc, 0);
        let new_keys = keys(&nc, 1);
        proof {
            lemma_level_in_bounds(keys_view(old_keys@), keys_view(new_keys@));
        }
        match diff_level(&old_keys, &new_keys) {
            LevelDiff::Unchanged => {
                return None;
            },
            LevelDiff::OldRemovedFrom(j) => {
                let before = kinds(&oc, j, oc.len());
                assert(children_view(oc@).subrange(j as int, oc@.len() as int) =~= children_view(
                    oc@,
                ).skip(j as int));
                return Some((before, Vec::new(), parent));
            },
            LevelDiff::NewAddedFrom(j) => {
                let after = kinds(&nc, j, nc.len());
                assert(children_view(nc@).subrange(j as int, nc@.len() as int) =~= children_view(
                    nc@,
                ).skip(j as int));
                return Some((Vec::new(), after, parent));
            },
            LevelDiff::Descend(k) => {
                path.push(k);
            },
            LevelDiff::Replaced { index, old_count, new_count } => {
                let before = kinds(&oc, index, index + old_count);
                let after = kinds(&nc, index, index + new_count);
                return Some((before, after, parent));
            },
        }
    }
}

} // verus!
