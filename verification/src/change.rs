//! Recognizing what kind of edit the programmer made, from the kinds of the
//! syntax nodes the edit removed and added and the kind of their parent.
use vstd::prelude::*;
use crate::kinds::{
    AS_CLAUSE, COMMA, CONSTRUCTOR_IDENTIFIER, CONSTRUCTOR_QID, DOT, DOUBLE_DOT, EXPOSED_TYPE,
    EXPOSED_UNION_CONSTRUCTORS, EXPOSED_VALUE, EXPOSING_LIST, FUNCTION_DECLARATION_LEFT,
    LOWER_CASE_IDENTIFIER, LOWER_PATTERN, MODULE_NAME_SEGMENT, TYPE_ALIAS_DECLARATION,
    TYPE_ANNOTATION, TYPE_DECLARATION, TYPE_IDENTIFIER, TYPE_QID, UNION_VARIANT, VALUE_QID,
};

verus! {

/// The kinds of edits that elm-pair responds to.
#[derive(Debug, Clone, Copy, PartialEq, Eq)]
pub enum ChangeKind {
    /// Values or types were added to or removed from the exposing list of
    /// an import.
    ChangedValuesInExposingList,
    /// A module qualifier was put in front of a name.
    AddedModuleQualifierToName,
    /// The module qualifier in front of a name was removed.
    RemovedModuleQualifierFromName,
    /// An import got an exposing list.
    AddedExposingListToImport,
    /// The exposing list of an import was removed.
    RemovedExposingListFromImport,
    /// A type in the exposing list of an import now exposes its constructors.
    AddedConstructorsToExposingList,
    /// A type in the exposing list of an import stopped exposing its
    /// constructors.
    RemovedConstructorsFromExposingList,
    /// The `as` clause of an import was added, removed or changed.
    ChangedAsClause,
    /// The module part of a qualified name was changed.
    ChangedModuleQualifier,
    /// The name of a value was changed where it is defined.
    ChangedValueName,
    /// The name of a type was changed where it is defined.
    ChangedTypeName,
    /// The name of a constructor was changed where it is defined.
    ChangedConstructorName,
    /// Anything else; the new code may use a module it does not import.
    Other,
}

/// Node lists that can stand in an exposing list: empty, a `..`, or
/// starting with an exposed value or type, possibly after a comma.
pub open spec fn is_exposing_list_part(ks: Seq<u16>) -> bool {
    ||| ks.len() == 0
    ||| ks =~= seq![DOUBLE_DOT]
    ||| ks.len() >= 1 && (ks[0] == EXPOSED_VALUE || ks[0] == EXPOSED_TYPE)
    ||| ks.len() >= 2 && ks[0] == COMMA && (ks[1] == EXPOSED_VALUE || ks[1] == EXPOSED_TYPE)
}

/// A name qualified by a module: a module name segment, a dot, and, last,
/// a name of kind `last`.
pub open spec fn is_qualified(ks: Seq<u16>, last: u16) -> bool {
    ks.len() >= 3 && ks[0] == MODULE_NAME_SEGMENT && ks[1] == DOT && ks[ks.len() - 1] == last
}

/// The kinds of unqualified names.
pub open spec fn is_name_kind(k: u16) -> bool {
    k == TYPE_IDENTIFIER || k == CONSTRUCTOR_IDENTIFIER || k == LOWER_CASE_IDENTIFIER
}

/// The list holds the single kind `k`.
pub open spec fn is_single(ks: Seq<u16>, k: u16) -> bool {
    ks.len() == 1 && ks[0] == k
}

/// The list ends with a module name segment.
pub open spec fn ends_with_segment(ks: Seq<u16>) -> bool {
    ks.len() >= 1 && ks[ks.len() - 1] == MODULE_NAME_SEGMENT
}

/// The kind of edit made when nodes of kinds `before` were replaced by
/// nodes of kinds `after` under a parent of kind `parent`; the first rule
/// that applies decides.
pub open spec fn spec_classify(before: Seq<u16>, after: Seq<u16>, parent: u16) -> ChangeKind {
    if is_exposing_list_part(before) && is_exposing_list_part(after) {
        ChangeKind::ChangedValuesInExposingList
    } else if before.len() == 1 && is_name_kind(before[0]) && is_qualified(after, before[0]) {
        ChangeKind::AddedModuleQualifierToName
    } else if after.len() == 1 && is_name_kind(after[0]) && is_qualified(before, after[0]) {
        ChangeKind::RemovedModuleQualifierFromName
    } else if before.len() == 0 && is_single(after, EXPOSING_LIST) {
        ChangeKind::AddedExposingListToImport
    } else if is_single(before, EXPOSING_LIST) && after.len() == 0 {
        ChangeKind::RemovedExposingListFromImport
    } else if before.len() == 0 && is_single(after, EXPOSED_UNION_CONSTRUCTORS) {
        ChangeKind::AddedConstructorsToExposingList
    } else if is_single(before, EXPOSED_UNION_CONSTRUCTORS) && after.len() == 0 {
        ChangeKind::RemovedConstructorsFromExposingList
    } else if ((before.len() == 0 || is_single(before, AS_CLAUSE)) && (after.len() == 0
        || is_single(after, AS_CLAUSE))) || (ends_with_segment(before) && ends_with_segment(after)
        && parent == AS_CLAUSE) {
        ChangeKind::ChangedAsClause
    } else if ends_with_segment(before) && ends_with_segment(after) && (parent == VALUE_QID
        || parent == TYPE_QID || parent == CONSTRUCTOR_QID) {
        ChangeKind::ChangedModuleQualifier
    } else if is_single(before, LOWER_CASE_IDENTIFIER) && is_single(after, LOWER_CASE_IDENTIFIER)
        && (parent == FUNCTION_DECLARATION_LEFT || parent == LOWER_PATTERN || parent
        == TYPE_ANNOTATION) {
        ChangeKind::ChangedValueName
    } else if is_single(before, TYPE_IDENTIFIER) && is_single(after, TYPE_IDENTIFIER) && (parent
        == TYPE_DECLARATION || parent == TYPE_ALIAS_DECLARATION) {
        ChangeKind::ChangedTypeName
    } else if is_single(before, CONSTRUCTOR_IDENTIFIER) && is_single(
        after,
        CONSTRUCTOR_IDENTIFIER,
    ) && parent == UNION_VARIANT {
        ChangeKind::ChangedConstructorName
    } else {
        ChangeKind::Other
    }
}

fn exposing_list_part(ks: &Vec<u16>) -> (r: bool)
    ensures
        r == is_exposing_list_part(ks@),
{
    let n = ks.len();
    n == 0 || (n == 1 && ks[0] == DOUBLE_DOT) || (n >= 1 && (ks[0] == EXPOSED_VALUE || ks[0]
        == EXPOSED_TYPE)) || (n >= 2 && ks[0] == COMMA && (ks[1] == EXPOSED_VALUE || ks[1]
        == EXPOSED_TYPE))
}

fn qualified(ks: &Vec<u16>, last: u16) -> (r: bool)
    ensures
        r == is_qualified(ks@, last),
{
    ks.len() >= 3 && ks[0] == MODULE_NAME_SEGMENT && ks[1] == DOT && ks[ks.len() - 1] == last
}

fn name_kind(k: u16) -> (r: bool)
    ensures
        r == is_name_kind(k),
{
    k == TYPE_IDENTIFIER || k == CONSTRUCTOR_IDENTIFIER || k == LOWER_CASE_IDENTIFIER
}

fn single(ks: &Vec<u16>, k: u16) -> (r: bool)
    ensures
        r == is_single(ks@, k),
{
    ks.len() == 1 && ks[0] == k
}

fn segment_last(ks: &Vec<u16>) -> (r: bool)
    ensures
        r == ends_with_segment(ks@),
{
    ks.len() >= 1 && ks[ks.len() - 1] == MODULE_NAME_SEGMENT
}

/// Recognizes the kind of edit from the kinds of the removed nodes
/// (`before`), the kinds of the added nodes (`after`) and the kind of their
/// parent node.
pub fn classify_change(before: &Vec<u16>, after: &Vec<u16>, parent: u16) -> (r: ChangeKind)
    ensures
        r == spec_classify(before@, after@, parent),
{
    let b = before.len();
    let a = after.len();
    if exposing_list_part(before) && exposing_list_part(after) {
        ChangeKind::ChangedValuesInExposingList
    } else if b == 1 && name_kind(before[0]) && qualified(after, before[0]) {
        ChangeKind::AddedModuleQualifierToName
    } else if a == 1 && name_kind(after[0]) && qualified(before, after[0]) {
        ChangeKind::RemovedModuleQualifierFromName
    } else if b == 0 && single(after, EXPOSING_LIST) {
        ChangeKind::AddedExposingListToImport
    } else if single(before, EXPOSING_LIST) && a == 0 {
        ChangeKind::RemovedExposingListFromImport
    } else if b == 0 && single(after, EXPOSED_UNION_CONSTRUCTORS) {
        ChangeKind::AddedConstructorsToExposingList
    } else if single(before, EXPOSED_UNION_CONSTRUCTORS) && a == 0 {
        ChangeKind::RemovedConstructorsFromExposingList
    } else if ((b == 0 || single(before, AS_CLAUSE)) && (a == 0 || single(after, AS_CLAUSE))) || (
    segment_last(before) && segment_last(after) && parent == AS_CLAUSE) {
        ChangeKind::ChangedAsClause
    } else if segment_last(before) && segment_last(after) && (parent == VALUE_QID || parent
        == TYPE_QID || parent == CONSTRUCTOR_QID) {
        ChangeKind::ChangedModuleQualifier
    } else if single(before, LOWER_CASE_IDENTIFIER) && single(after, LOWER_CASE_IDENTIFIER) && (
    parent == FUNCTION_DECLARATION_LEFT || parent == LOWER_PATTERN || parent == TYPE_ANNOTATION) {
        ChangeKind::ChangedValueName
    } else if single(before, TYPE_IDENTIFIER) && single(after, TYPE_IDENTIFIER) && (parent
        == TYPE_DECLARATION || parent == TYPE_ALIAS_DECLARATION) {
        ChangeKind::ChangedTypeName
    } else if single(before, CONSTRUCTOR_IDENTIFIER) && single(after, CONSTRUCTOR_IDENTIFIER)
        && parent == UNION_VARIANT {
        ChangeKind::ChangedConstructorName
    } else {
        ChangeKind::Other
    }
}

} // verus!

verus! {

/// Adding `(..)` behind a type in an exposing list, and nothing else, is
/// recognized as exposing its constructors, whatever the parent; taking it
/// away, and nothing else, as no longer exposing them. An edit recognized
/// as one of the two is undone by an edit recognized as the other.
pub proof fn lemma_constructors_added_and_removed(before: Seq<u16>, after: Seq<u16>, parent: u16)
    ensures
        spec_classify(seq![], seq![EXPOSED_UNION_CONSTRUCTORS], parent)
            == ChangeKind::AddedConstructorsToExposingList,
        spec_classify(seq![EXPOSED_UNION_CONSTRUCTORS], seq![], parent)
            == ChangeKind::RemovedConstructorsFromExposingList,
        spec_classify(before, after, parent) == ChangeKind::AddedConstructorsToExposingList
            ==> before.len() == 0 && after == seq![EXPOSED_UNION_CONSTRUCTORS]
            && spec_classify(after, before, parent) == ChangeKind::RemovedConstructorsFromExposingList,
        spec_classify(before, after, parent) == ChangeKind::RemovedConstructorsFromExposingList
            ==> after.len() == 0 && before == seq![EXPOSED_UNION_CONSTRUCTORS]
            && spec_classify(after, before, parent) == ChangeKind::AddedConstructorsToExposingList,
{
    let e: Seq<u16> = seq![];
    let c = seq![EXPOSED_UNION_CONSTRUCTORS];
    assert(!is_exposing_list_part(c)) by {
        if c =~= seq![DOUBLE_DOT] {
            assert(c[0] == seq![DOUBLE_DOT][0]);
        }
    }
    assert(!is_qualified(c, c[0]));
    if spec_classify(before, after, parent) == ChangeKind::AddedConstructorsToExposingList {
        assert(after =~= c);
        assert(before =~= e);
    }
    if spec_classify(before, after, parent) == ChangeKind::RemovedConstructorsFromExposingList {
        assert(before =~= c);
        assert(after =~= e);
    }
}

} // verus!

verus! {

/// Putting a module qualifier in front of a name and taking it away are
/// recognized as the two opposite edits, and so are adding an exposing list
/// to an import and removing it: an edit recognized as one is undone by an
/// edit recognized as the other.
pub proof fn lemma_opposite_edits(before: Seq<u16>, after: Seq<u16>, parent: u16)
    ensures
        spec_classify(before, after, parent) == ChangeKind::AddedModuleQualifierToName ==> spec_classify(
            after,
            before,
            parent,
        ) == ChangeKind::RemovedModuleQualifierFromName,
        spec_classify(before, after, parent) == ChangeKind::AddedExposingListToImport
            ==> before.len() == 0 && after == seq![EXPOSING_LIST] && spec_classify(
            after,
            before,
            parent,
        ) == ChangeKind::RemovedExposingListFromImport,
        spec_classify(before, after, parent) == ChangeKind::RemovedExposingListFromImport
            ==> after.len() == 0 && before == seq![EXPOSING_LIST] && spec_classify(
            after,
            before,
            parent,
        ) == ChangeKind::AddedExposingListToImport,
{
    if spec_classify(before, after, parent) == ChangeKind::AddedModuleQualifierToName {
        assert(!is_exposing_list_part(after)) by {
            if after =~= seq![DOUBLE_DOT] {
                assert(after[0] == seq![DOUBLE_DOT][0]);
            }
        }
        assert(!is_exposing_list_part(before)) by {
            if before =~= seq![DOUBLE_DOT] {
                assert(before[0] == seq![DOUBLE_DOT][0]);
            }
        }
    }
    let l = seq![EXPOSING_LIST];
    assert(!is_exposing_list_part(l)) by {
        if l =~= seq![DOUBLE_DOT] {
            assert(l[0] == seq![DOUBLE_DOT][0]);
        }
    }
    if spec_classify(before, after, parent) == ChangeKind::AddedExposingListToImport {
        assert(after =~= l);
    }
    if spec_classify(before, after, parent) == ChangeKind::RemovedExposingListFromImport {
        assert(before =~= l);
    }
}

} // verus!
