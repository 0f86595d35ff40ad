//! Qualifying a name that an import exposes: the name is taken out of the
//! import's exposing list and each of its uses gets the import's (aliased)
//! module name in front, as in `Html.text` for `text`.
use vstd::prelude::*;
use core::ops::Range;
use crate::editors::Buffer;
use crate::module_model::{
    aliased_name, find_import, first_import_from, spec_aliased_name, ExposedEntry, Import,
    ModuleModel,
};
use crate::error::{Error, mk_err};
use crate::exports::{exports_view, ExportedName, strings_view};
use crate::names::{
    answers_constructor_lookup, constructor_names, constructors_of_exports, exposed_view,
    names_of_exposing_list, names_view, spec_names_of_exposing_list,
    ExposedConstructors, ExposedName, Name, NameKind, SpecExposedName,
};
use crate::refactor::{Refactor, SpecReplacement};
use crate::renaming::{contains_name, in_any, range_has};
use crate::text::{same_text, text_less, text_lt};

verus! {

/// The bytes to remove to take `e` out of its exposing list: the entry with
/// the comma after it and the space up to the next entry, or else with the
/// comma before it and the space back to the previous entry, or else the
/// entry alone.
pub open spec fn spec_removal_range(e: ExposedEntry) -> Range<usize> {
    if e.next is Some && e.next->Some_0.is_comma {
        let n = e.next->Some_0;
        Range {
            start: e.range.start,
            end: match n.beyond {
                Some(b) => b,
                None => n.range.end,
            },
        }
    } else if e.prev is Some && e.prev->Some_0.is_comma {
        let p = e.prev->Some_0;
        Range {
            start: match p.beyond {
                Some(b) => b,
                None => p.range.start,
            },
            end: e.range.end,
        }
    } else {
        e.range
    }
}

/// The bytes to remove to take `e` out of its exposing list.
pub fn removal_range(e: &ExposedEntry) -> (r: Range<usize>)
    ensures
        r == spec_removal_range(*e),
{
    if let Some(n) = &e.next {
        if n.is_comma {
            let end = match n.beyond {
                Some(b) => b,
                None => n.range.end,
            };
            return e.range.start..end;
        }
    }
    if let Some(p) = &e.prev {
        if p.is_comma {
            let start = match p.beyond {
                Some(b) => b,
                None => p.range.start,
            };
            return start..e.range.end;
        }
    }
    e.range.start..e.range.end
}

/// The replacements that take the entry `e` out of the exposing list of
/// `import`: the whole `exposing` clause when it is the only entry.
pub open spec fn spec_remove(buffer: Buffer, import: Import, e: ExposedEntry) -> Seq<
    SpecReplacement,
> {
    if import.exposing@.len() == 1 {
        match import.exposing_range {
            Some(r) => seq![(buffer, r, Seq::<char>::empty())],
            None => seq![],
        }
    } else {
        seq![(buffer, spec_removal_range(e), Seq::<char>::empty())]
    }
}

/// Takes the entry `e` out of the exposing list of `import`.
fn remove(refactor: &mut Refactor, buffer: Buffer, import: &Import, e: &ExposedEntry)
    ensures
        final(refactor).changes() == old(refactor).changes() + spec_remove(buffer, *import, *e),
        final(refactor).files_to_open() == old(refactor).files_to_open(),
        final(refactor).what() == old(refactor).what(),
{
    proof {
        reveal_strlit("");
        assert(""@ =~= Seq::<char>::empty());
    }
    if import.exposing.len() == 1 {
        match &import.exposing_range {
            Some(r) => {
                refactor.add_change(buffer, r.start..r.end, String::from_str(""));
                assert(refactor.changes() =~= old(refactor).changes() + spec_remove(
                    buffer,
                    *import,
                    *e,
                ));
            },
            None => {
                assert(refactor.changes() =~= old(refactor).changes() + spec_remove(
                    buffer,
                    *import,
                    *e,
                ));
            },
        }
    } else {
        refactor.add_change(buffer, removal_range(e), String::from_str(""));
        assert(refactor.changes() =~= old(refactor).changes() + spec_remove(buffer, *import, *e));
    }
}

/// Whether the export at `i` is the first among `es` whose constructors are
/// looked up for the type `t` (see [`constructors_of_exports`]).
pub open spec fn is_first_answer(es: Seq<ExportedName>, t: Seq<char>, i: int) -> bool {
    &&& 0 <= i < es.len()
    &&& answers_constructor_lookup(es[i]@, t)
    &&& forall|j: int| 0 <= j < i ==> !answers_constructor_lookup(#[trigger] es[j]@, t)
}

/// The constructors found for a type.
pub enum SpecConstructors {
    /// A record type alias, whose constructor has this name.
    Alias(Seq<char>),
    /// A custom type with these constructors.
    Custom(Seq<Seq<char>>),
}

/// The constructors looked up for the type `t` among the exports `es`;
/// `None` when no export answers.
pub open spec fn spec_lookup(es: Seq<ExportedName>, t: Seq<char>) -> Option<SpecConstructors> {
    if exists|i: int| is_first_answer(es, t, i) {
        match es[choose|i: int| is_first_answer(es, t, i)] {
            ExportedName::RecordTypeAlias { name } => Some(SpecConstructors::Alias(name@)),
            ExportedName::Type { constructors, .. } => Some(
                SpecConstructors::Custom(strings_view(constructors@)),
            ),
            ExportedName::Value { .. } => None,
        }
    } else {
        None
    }
}

/// Looks up the constructors of the type `t` among the exports `es`.
pub(crate) fn lookup<'a>(es: &'a Vec<ExportedName>, t: &str) -> (r: Result<ExposedConstructors<'a>, Error>)
    ensures
        match spec_lookup(es@, t@) {
            None => r matches Err(e) && e.0@ == "did not find type in module"@,
            Some(SpecConstructors::Alias(c)) => r matches Ok(ExposedConstructors::FromTypeAlias(n))
                && n@ == c,
            Some(SpecConstructors::Custom(cs)) => r matches Ok(
                ExposedConstructors::FromCustomType(v),
            ) && strings_view(v@) == cs,
        },
{
    let r = constructors_of_exports(es, t);
    proof {
        if r is Ok {
            let i = choose|i: int|
                {
                    &&& 0 <= i < es@.len()
                    &&& answers_constructor_lookup(#[trigger] es@[i]@, t@)
                    &&& forall|j: int|
                        0 <= j < i ==> !answers_constructor_lookup(#[trigger] es@[j]@, t@)
                    &&& match es@[i] {
                        ExportedName::RecordTypeAlias { name } => r->Ok_0
                            == ExposedConstructors::<'a>::FromTypeAlias(&name),
                        ExportedName::Type { constructors, .. } => r->Ok_0
                            == ExposedConstructors::<'a>::FromCustomType(&constructors),
                        ExportedName::Value { .. } => false,
                    }
                };
            assert(is_first_answer(es@, t@, i));
            let k = choose|k: int| is_first_answer(es@, t@, k);
            if k < i {
                assert(!answers_constructor_lookup(es@[k]@, t@));
            }
            if i < k {
                assert(!answers_constructor_lookup(es@[i]@, t@));
            }
            assert(k == i);
        } else {
            assert forall|k: int| !is_first_answer(es@, t@, k) by {
                if 0 <= k < es@.len() {
                    assert(!answers_constructor_lookup(es@[k]@, t@));
                }
            }
        }
    }
    r
}

/// Whether the text `t` is among `v`.
pub(crate) fn contains_text(v: &Vec<String>, t: &str) -> (r: bool)
    ensures
        r == strings_view(v@).contains(t@),
{
    let mut i: usize = 0;
    while i < v.len()
        invariant
            i <= v@.len(),
            forall|j: int| 0 <= j < i ==> v@[j]@ != t@,
        decreases v.len() - i,
    {
        if same_text(v[i].as_str(), t) {
            assert(strings_view(v@)[i as int] == t@);
            return true;
        }
        i = i + 1;
    }
    proof {
        if strings_view(v@).contains(t@) {
            let j = choose|j: int| 0 <= j < strings_view(v@).len() && strings_view(v@)[j] == t@;
            assert(v@[j]@ == t@);
        }
    }
    false
}

/// Adds the constructors `ctors`, as names of kind constructor, to `refs`.
pub(crate) fn push_constructors(refs: &mut Vec<Name>, ctors: &Vec<String>)
    ensures
        names_view(final(refs)@) == names_view(old(refs)@) + constructor_names(strings_view(ctors@)),
{
    let mut i: usize = 0;
    while i < ctors.len()
        invariant
            i <= ctors@.len(),
            names_view(refs@) == names_view(old(refs)@) + constructor_names(
                strings_view(ctors@).take(i as int),
            ),
        decreases ctors.len() - i,
    {
        let ghost before = refs@;
        let n = Name::new(ctors[i].as_str(), NameKind::Constructor);
        refs.push(n);
        assert(names_view(refs@) =~= names_view(before).push(n@));
        assert(constructor_names(strings_view(ctors@).take(i + 1)) =~= constructor_names(
            strings_view(ctors@).take(i as int),
        ).push((strings_view(ctors@)[i as int], NameKind::Constructor)));
        i = i + 1;
        assert(names_view(refs@) =~= names_view(old(refs)@) + constructor_names(
            strings_view(ctors@).take(i as int),
        ));
    }
    assert(strings_view(ctors@).take(ctors@.len() as int) =~= strings_view(ctors@));
}

/// The constructors of every custom type among `es` that has a constructor
/// named `c`, as names of kind constructor, type after type.
pub open spec fn all_constructor_refs(es: Seq<ExportedName>, c: Seq<char>) -> Seq<
    (Seq<char>, NameKind),
>
    decreases es.len(),
{
    if es.len() == 0 {
        seq![]
    } else {
        let rest = all_constructor_refs(es.drop_last(), c);
        match es.last() {
            ExportedName::Type { constructors, .. } => if strings_view(constructors@).contains(c) {
                rest + constructor_names(strings_view(constructors@))
            } else {
                rest
            },
            _ => rest,
        }
    }
}

/// Adds to `refs` the constructors of every custom type among `es` that has
/// a constructor named `c`.
fn push_all_constructors(refs: &mut Vec<Name>, es: &Vec<ExportedName>, c: &str)
    ensures
        names_view(final(refs)@) == names_view(old(refs)@) + all_constructor_refs(es@, c@),
{
    let mut i: usize = 0;
    assert(es@.take(0) =~= Seq::<ExportedName>::empty());
    assert(names_view(refs@) =~= names_view(old(refs)@) + all_constructor_refs(es@.take(0), c@));
    while i < es.len()
        invariant
            i <= es@.len(),
            names_view(refs@) == names_view(old(refs)@) + all_constructor_refs(
                es@.take(i as int),
                c@,
            ),
        decreases es.len() - i,
    {
        assert(es@.take(i + 1).drop_last() =~= es@.take(i as int));
        assert(es@.take(i + 1).last() == es@[i as int]);
        let ghost before = names_view(refs@);
        match &es[i] {
            ExportedName::Type { constructors, .. } => {
                if contains_text(constructors, c) {
                    push_constructors(refs, constructors);
                    assert(names_view(refs@) =~= names_view(old(refs)@) + all_constructor_refs(
                        es@.take(i + 1),
                        c@,
                    ));
                }
            },
            _ => {},
        }
        i = i + 1;
    }
    assert(es@.take(es@.len() as int) =~= es@);
}

/// A name an export makes available, with the index of the export.
pub type SpecPair = ((Seq<char>, NameKind), usize);

/// The mathematical form of a list of names with export indices.
pub open spec fn pairs_view(v: Seq<(Name, usize)>) -> Seq<SpecPair> {
    v.map_values(|p: (Name, usize)| (p.0@, p.1))
}

/// The names the export `e`, at index `i`, makes available: a value; the
/// type and the constructor of a record type alias; a custom type and then
/// its constructors.
pub open spec fn pairs_of(e: ExportedName, i: usize) -> Seq<SpecPair> {
    match e {
        ExportedName::Value { name } => seq![((name@, NameKind::Value), i)],
        ExportedName::RecordTypeAlias { name } => seq![
            ((name@, NameKind::Type), i),
            ((name@, NameKind::Constructor), i),
        ],
        ExportedName::Type { name, constructors } => seq![((name@, NameKind::Type), i)]
            + strings_view(constructors@).map_values(
            |c: Seq<char>| ((c, NameKind::Constructor), i),
        ),
    }
}

/// The names the exports `es` make available, export after export.
pub open spec fn export_pairs(es: Seq<ExportedName>) -> Seq<SpecPair>
    decreases es.len(),
{
    if es.len() == 0 {
        seq![]
    } else {
        export_pairs(es.drop_last()) + pairs_of(es.last(), (es.len() - 1) as usize)
    }
}

/// Lists the names the exports `es` make available.
fn collect_pairs(es: &Vec<ExportedName>) -> (r: Vec<(Name, usize)>)
    ensures
        pairs_view(r@) == export_pairs(es@),
{
    let mut r: Vec<(Name, usize)> = Vec::new();
    let mut i: usize = 0;
    assert(es@.take(0) =~= Seq::<ExportedName>::empty());
    while i < es.len()
        invariant
            i <= es@.len(),
            pairs_view(r@) == export_pairs(es@.take(i as int)),
        decreases es.len() - i,
    {
        assert(es@.take(i + 1).drop_last() =~= es@.take(i as int));
        assert(es@.take(i + 1).last() == es@[i as int]);
        let ghost before = pairs_view(r@);
        match &es[i] {
            ExportedName::Value { name } => {
                r.push((Name::new(name.as_str(), NameKind::Value), i));
            },
            ExportedName::RecordTypeAlias { name } => {
                r.push((Name::new(name.as_str(), NameKind::Type), i));
                r.push((Name::new(name.as_str(), NameKind::Constructor), i));
            },
            ExportedName::Type { name, constructors } => {
                r.push((Name::new(name.as_str(), NameKind::Type), i));
                let ghost mid = pairs_view(r@);
                let mut j: usize = 0;
                while j < constructors.len()
                    invariant
                        j <= constructors@.len(),
                        pairs_view(r@) == mid + strings_view(constructors@).take(j as int).map_values(
                            |c: Seq<char>| ((c, NameKind::Constructor), i),
                        ),
                    decreases constructors.len() - j,
                {
                    let ghost b2 = pairs_view(r@);
                    let n = Name::new(constructors[j].as_str(), NameKind::Constructor);
                    r.push((n, i));
                    assert(pairs_view(r@) =~= b2.push(((constructors@[j as int]@, NameKind::Constructor), i)));
                    j = j + 1;
                    assert(pairs_view(r@) =~= mid + strings_view(constructors@).take(j as int).map_values(
                        |c: Seq<char>| ((c, NameKind::Constructor), i),
                    ));
                }
                assert(strings_view(constructors@).take(constructors@.len() as int) =~= strings_view(constructors@));
            },
        }
        i = i + 1;
        assert(pairs_view(r@) =~= export_pairs(es@.take(i as int)));
    }
    assert(es@.take(es@.len() as int) =~= es@);
    r
}

/// Where `x` goes in the list `s`: before the first element whose name comes
/// after the name of `x`.
pub open spec fn insert_pos(s: Seq<SpecPair>, x: SpecPair) -> int
    decreases s.len(),
{
    if s.len() == 0 {
        0
    } else if text_lt(x.0.0, s[0].0.0) {
        0
    } else {
        1 + insert_pos(s.skip(1), x)
    }
}

proof fn lemma_insert_pos_bound(s: Seq<SpecPair>, x: SpecPair)
    ensures
        0 <= insert_pos(s, x) <= s.len(),
    decreases s.len(),
{
    if s.len() > 0 && !text_lt(x.0.0, s[0].0.0) {
        lemma_insert_pos_bound(s.skip(1), x);
    }
}

/// The list `s` sorted by name, names that are the same keeping their order
/// (a stable sort): each element in turn is inserted after those before it
/// whose names do not come after its own.
pub open spec fn sort_pairs(s: Seq<SpecPair>) -> Seq<SpecPair>
    decreases s.len(),
{
    if s.len() == 0 {
        seq![]
    } else {
        let t = sort_pairs(s.drop_last());
        t.insert(insert_pos(t, s.last()), s.last())
    }
}

/// The list `v` sorted by name, keeping the order of names that are the
/// same.
fn sort_by_name(v: &Vec<(Name, usize)>) -> (r: Vec<(Name, usize)>)
    ensures
        pairs_view(r@) == sort_pairs(pairs_view(v@)),
{
    let mut out: Vec<(Name, usize)> = Vec::new();
    let mut i: usize = 0;
    assert(pairs_view(v@).take(0) =~= Seq::<SpecPair>::empty());
    while i < v.len()
        invariant
            i <= v@.len(),
            pairs_view(out@) == sort_pairs(pairs_view(v@).take(i as int)),
        decreases v.len() - i,
    {
        let ghost t = pairs_view(out@);
        let ghost x = pairs_view(v@)[i as int];
        assert(pairs_view(v@).take(i + 1).drop_last() =~= pairs_view(v@).take(i as int));
        assert(pairs_view(v@).take(i + 1).last() == x);
        let mut j: usize = 0;
        assert(t.skip(0) =~= t);
        while j < out.len() && !text_less(v[i].0.name.as_str(), out[j].0.name.as_str())
            invariant
                t == pairs_view(out@),
                x == pairs_view(v@)[i as int],
                i < v@.len(),
                j <= out@.len(),
                insert_pos(t, x) == j + insert_pos(t.skip(j as int), x),
            decreases out.len() - j,
        {
            assert(t.skip(j as int).skip(1) =~= t.skip(j + 1));
            j = j + 1;
        }
        proof {
            if j < out@.len() {
                assert(t.skip(j as int)[0] == t[j as int]);
            }
        }
        let item = (v[i].0.copy(), v[i].1);
        out.insert(j, item);
        assert(pairs_view(out@) =~= t.insert(j as int, x));
        i = i + 1;
    }
    assert(pairs_view(v@).take(v@.len() as int) =~= pairs_view(v@));
    out
}

/// Whether the name `n` occurs among `occs` and is not `reference`.
pub open spec fn in_use(
    occs: Seq<(Range<usize>, Name, bool)>,
    n: (Seq<char>, NameKind),
    reference: (Seq<char>, NameKind),
) -> bool {
    n != reference && exists|k: int| 0 <= k < occs.len() && (#[trigger] occs[k]).1@ == n
}

/// Whether the name `n` occurs among `occs` and is not `reference`.
fn is_in_use(occs: &Vec<(Range<usize>, Name, bool)>, n: &Name, reference: &Name) -> (r: bool)
    ensures
        r == in_use(occs@, n@, reference@),
{
    if n.same(reference) {
        return false;
    }
    let mut k: usize = 0;
    while k < occs.len()
        invariant
            k <= occs@.len(),
            n@ != reference@,
            forall|m: int| 0 <= m < k ==> (#[trigger] occs@[m]).1@ != n@,
        decreases occs.len() - k,
    {
        if occs[k].1.same(n) {
            assert((occs@[k as int]).1@ == n@);
            return true;
        }
        k = k + 1;
    }
    false
}

/// How the name `p` is written in a new exposing list: the name of its
/// export, with `(..)` behind a custom type when `p` is one of its
/// constructors.
pub open spec fn piece(p: SpecPair, es: Seq<ExportedName>) -> Seq<char> {
    if p.1 >= es.len() {
        seq![]
    } else {
        match es[p.1 as int] {
            ExportedName::Value { name } => name@,
            ExportedName::RecordTypeAlias { name } => name@,
            ExportedName::Type { name, .. } => if p.0.1 == NameKind::Constructor {
                name@ + seq!['(', '.', '.', ')']
            } else {
                name@
            },
        }
    }
}

/// The exposing list that replaces `..`: the names among `ps` that are in
/// use, written as [`piece`] says and separated by a comma and a space.
pub open spec fn exposed_text(
    ps: Seq<SpecPair>,
    es: Seq<ExportedName>,
    occs: Seq<(Range<usize>, Name, bool)>,
    reference: (Seq<char>, NameKind),
) -> Seq<char>
    decreases ps.len(),
{
    if ps.len() == 0 {
        seq![]
    } else {
        let acc = exposed_text(ps.drop_last(), es, occs, reference);
        let p = ps.last();
        if in_use(occs, p.0, reference) {
            (if acc.len() == 0 {
                acc
            } else {
                acc + seq![',', ' ']
            }) + piece(p, es)
        } else {
            acc
        }
    }
}

/// Writes the exposing list that replaces `..` for the names `ps`.
fn write_exposed(
    ps: &Vec<(Name, usize)>,
    es: &Vec<ExportedName>,
    occs: &Vec<(Range<usize>, Name, bool)>,
    reference: &Name,
) -> (r: String)
    ensures
        r@ == exposed_text(pairs_view(ps@), es@, occs@, reference@),
{
    proof {
        reveal_strlit("");
    }
    let mut out = String::from_str("");
    let mut i: usize = 0;
    assert(pairs_view(ps@).take(0) =~= Seq::<SpecPair>::empty());
    assert(out@ =~= Seq::<char>::empty());
    while i < ps.len()
        invariant
            i <= ps@.len(),
            out@ == exposed_text(pairs_view(ps@).take(i as int), es@, occs@, reference@),
        decreases ps.len() - i,
    {
        assert(pairs_view(ps@).take(i + 1).drop_last() =~= pairs_view(ps@).take(i as int));
        assert(pairs_view(ps@).take(i + 1).last() == pairs_view(ps@)[i as int]);
        if is_in_use(occs, &ps[i].0, reference) {
            proof {
                reveal_strlit(", ");
                reveal_strlit("(..)");
                assert(", "@ =~= seq![',', ' ']);
                assert("(..)"@ =~= seq!['(', '.', '.', ')']);
            }
            if out.unicode_len() != 0 {
                out.append(", ");
            }
            let idx = ps[i].1;
            if idx < es.len() {
                match &es[idx] {
                    ExportedName::Value { name } => out.append(name.as_str()),
                    ExportedName::RecordTypeAlias { name } => out.append(name.as_str()),
                    ExportedName::Type { name, .. } => {
                        out.append(name.as_str());
                        if ps[i].0.kind == NameKind::Constructor {
                            out.append("(..)");
                        }
                    },
                }
            }
        }
        i = i + 1;
        assert(out@ =~= exposed_text(pairs_view(ps@).take(i as int), es@, occs@, reference@));
    }
    assert(pairs_view(ps@).take(ps@.len() as int) =~= pairs_view(ps@));
    out
}

/// What one entry of the exposing list contributes: an error, or the
/// replacements it adds, the names whose uses get qualified, and whether the
/// walk over the list stops after it.
pub enum EntryOutcome {
    Fail { msg: Seq<char> },
    Go { changes: Seq<SpecReplacement>, refs: Seq<(Seq<char>, NameKind)>, stop: bool },
}

/// What the entry `e` of the exposing list of `import` contributes to
/// qualifying `reference`, the imported module exporting `es`.
/// - An operator cannot be qualified: Elm does not allow it.
/// - A value of that name leaves the list and the walk stops.
/// - A type of that name leaves the list; a record type alias whose
///   constructor has the name leaves it too, and both its type and its
///   constructor get qualified; a custom type with a constructor of that
///   name loses its `(..)`, and all its constructors get qualified.
/// - `..` qualifies the name, and for a constructor all constructors of its
///   type, and the walk stops there for a constructor. With `remove_all`,
///   `..` is first replaced by the list of the names the module exports
///   that `occs` shows in use, `reference` aside, sorted by name.
pub open spec fn entry_step(
    buffer: Buffer,
    import: Import,
    e: ExposedEntry,
    es: Seq<ExportedName>,
    reference: (Seq<char>, NameKind),
    occs: Seq<(Range<usize>, Name, bool)>,
    remove_all: bool,
) -> EntryOutcome {
    match e.exposed@ {
        SpecExposedName::Operator { name } => if name == reference.0 && reference.1
            == NameKind::Operator {
            EntryOutcome::Fail { msg: "cannot qualify operator, Elm doesn't allow it!"@ }
        } else {
            EntryOutcome::Go { changes: seq![], refs: seq![], stop: false }
        },
        SpecExposedName::Value { name } => if name == reference.0 && reference.1 == NameKind::Value {
            EntryOutcome::Go {
                changes: spec_remove(buffer, import, e),
                refs: seq![(name, NameKind::Value)],
                stop: true,
            }
        } else {
            EntryOutcome::Go { changes: seq![], refs: seq![], stop: false }
        },
        SpecExposedName::Type { name, .. } => {
            let own = name == reference.0 && reference.1 == NameKind::Type;
            let c1 = if own {
                spec_remove(buffer, import, e)
            } else {
                seq![]
            };
            let r1 = if own {
                seq![(name, NameKind::Type)]
            } else {
                seq![]
            };
            match spec_lookup(es, name) {
                None => EntryOutcome::Fail { msg: "did not find type in module"@ },
                Some(SpecConstructors::Alias(ctor)) => if ctor == reference.0 {
                    EntryOutcome::Go {
                        changes: c1 + if reference.1 != NameKind::Type {
                            spec_remove(buffer, import, e)
                        } else {
                            seq![]
                        },
                        refs: r1 + seq![(ctor, NameKind::Type), (ctor, NameKind::Constructor)],
                        stop: false,
                    }
                } else {
                    EntryOutcome::Go { changes: c1, refs: r1, stop: false }
                },
                Some(SpecConstructors::Custom(ctors)) => if ctors.contains(reference.0) {
                    match e.constructors_range {
                        None => EntryOutcome::Fail {
                            msg: "could not find `(..)` node behind exposed type"@,
                        },
                        Some(cr) => EntryOutcome::Go {
                            changes: c1.push((buffer, cr, Seq::<char>::empty())),
                            refs: r1 + constructor_names(ctors),
                            stop: false,
                        },
                    }
                } else {
                    EntryOutcome::Go { changes: c1, refs: r1, stop: false }
                },
            }
        },
        SpecExposedName::All => {
            let c = if remove_all {
                seq![
                    (
                        buffer,
                        e.range,
                        exposed_text(sort_pairs(export_pairs(es)), es, occs, reference),
                    ),
                ]
            } else {
                seq![]
            };
            match reference.1 {
                NameKind::Operator => EntryOutcome::Fail {
                    msg: "cannot qualify operator, Elm doesn't allow it!"@,
                },
                NameKind::Value | NameKind::Type => EntryOutcome::Go {
                    changes: c,
                    refs: seq![reference],
                    stop: false,
                },
                NameKind::Constructor => EntryOutcome::Go {
                    changes: c,
                    refs: all_constructor_refs(es, reference.0),
                    stop: true,
                },
            }
        },
    }
}

/// Handles the entry `e` of the exposing list of `import` while qualifying
/// `reference`: `Ok` with whether the walk over the list stops.
fn entry(
    refactor: &mut Refactor,
    refs: &mut Vec<Name>,
    buffer: Buffer,
    import: &Import,
    e: &ExposedEntry,
    es: &Vec<ExportedName>,
    reference: &Name,
    occs: &Vec<(Range<usize>, Name, bool)>,
    remove_all: bool,
) -> (r: Result<bool, Error>)
    ensures
        match entry_step(buffer, *import, *e, es@, reference@, occs@, remove_all) {
            EntryOutcome::Fail { msg } => r matches Err(e) && e.0@ == msg,
            EntryOutcome::Go { changes, refs: rs, stop } => {
                &&& r == Ok::<bool, Error>(stop)
                &&& final(refactor).changes() == old(refactor).changes() + changes
                &&& names_view(final(refs)@) == names_view(old(refs)@) + rs
            },
        },
        final(refactor).files_to_open() == old(refactor).files_to_open(),
        final(refactor).what() == old(refactor).what(),
{
    let ghost c0 = refactor.changes();
    let ghost r0 = names_view(refs@);
    proof {
        reveal_strlit("");
        assert(""@ =~= Seq::<char>::empty());
    }
    match &e.exposed {
        ExposedName::Operator { name } => {
            if same_text(name.as_str(), reference.name.as_str()) && reference.kind
                == NameKind::Operator {
                return Err(mk_err("cannot qualify operator, Elm doesn't allow it!"));
            }
            assert(refactor.changes() =~= c0 + seq![]);
            assert(names_view(refs@) =~= r0 + seq![]);
            Ok(false)
        },
        ExposedName::Value { name } => {
            if same_text(name.as_str(), reference.name.as_str()) && reference.kind
                == NameKind::Value {
                remove(refactor, buffer, import, e);
                let n = Name::new(name.as_str(), NameKind::Value);
                refs.push(n);
                assert(names_view(refs@) =~= r0 + seq![(name@, NameKind::Value)]);
                return Ok(true);
            }
            assert(refactor.changes() =~= c0 + seq![]);
            assert(names_view(refs@) =~= r0 + seq![]);
            Ok(false)
        },
        ExposedName::Type { name, .. } => {
            let own = same_text(name.as_str(), reference.name.as_str()) && reference.kind
                == NameKind::Type;
            if own {
                remove(refactor, buffer, import, e);
                refs.push(Name::new(name.as_str(), NameKind::Type));
            }
            let ghost c1 = refactor.changes();
            let ghost r1 = names_view(refs@);
            assert(c1 =~= c0 + if own {
                spec_remove(buffer, *import, *e)
            } else {
                seq![]
            });
            assert(r1 =~= r0 + if own {
                seq![(name@, NameKind::Type)]
            } else {
                seq![]
            });
            match lookup(es, name.as_str()) {
                Err(err) => Err(err),
                Ok(ExposedConstructors::FromTypeAlias(ctor)) => {
                    if same_text(ctor.as_str(), reference.name.as_str()) {
                        if reference.kind != NameKind::Type {
                            remove(refactor, buffer, import, e);
                        }
                        refs.push(Name::new(ctor.as_str(), NameKind::Type));
                        refs.push(Name::new(ctor.as_str(), NameKind::Constructor));
                        assert(refactor.changes() =~= c0 + ((c1.subrange(c0.len() as int, c1.len() as int)) + if reference.kind != NameKind::Type {
                            spec_remove(buffer, *import, *e)
                        } else {
                            seq![]
                        }));
                        assert(names_view(refs@) =~= r0 + ((r1.subrange(r0.len() as int, r1.len() as int)) + seq![(ctor@, NameKind::Type), (ctor@, NameKind::Constructor)]));
                    }
                    Ok(false)
                },
                Ok(ExposedConstructors::FromCustomType(ctors)) => {
                    if contains_text(ctors, reference.name.as_str()) {
                        match &e.constructors_range {
                            None => {
                                return Err(mk_err("could not find `(..)` node behind exposed type"));
                            },
                            Some(cr) => {
                                refactor.add_change(buffer, cr.start..cr.end, String::from_str(""));
                                push_constructors(refs, ctors);
                                assert(refactor.changes() =~= c0 + c1.subrange(c0.len() as int, c1.len() as int).push((buffer, *cr, Seq::<char>::empty())));
                                assert(names_view(refs@) =~= r0 + (r1.subrange(r0.len() as int, r1.len() as int) + constructor_names(strings_view(ctors@))));
                            },
                        }
                    }
                    Ok(false)
                },
            }
        },
        ExposedName::All => {
            if remove_all {
                let pairs = collect_pairs(es);
                let sorted = sort_by_name(&pairs);
                let text = write_exposed(&sorted, es, occs, reference);
                refactor.add_change(buffer, e.range.start..e.range.end, text);
            }
            let ghost c = if remove_all {
                seq![
                    (
                        buffer,
                        e.range,
                        exposed_text(sort_pairs(export_pairs(es@)), es@, occs@, reference@),
                    ),
                ]
            } else {
                seq![]
            };
            assert(refactor.changes() =~= c0 + c);
            match reference.kind {
                NameKind::Operator => Err(mk_err("cannot qualify operator, Elm doesn't allow it!")),
                NameKind::Value | NameKind::Type => {
                    refs.push(reference.copy());
                    assert(names_view(refs@) =~= r0 + seq![reference@]);
                    Ok(false)
                },
                NameKind::Constructor => {
                    push_all_constructors(refs, es, reference.name.as_str());
                    Ok(true)
                },
            }
        },
    }
}

/// The walk over the exposing list of `import` from entry `i` on: the
/// replacements the entries add and the names whose uses get qualified, or
/// `Err` when an entry fails.
pub open spec fn walk_from(
    buffer: Buffer,
    import: Import,
    es: Seq<ExportedName>,
    reference: (Seq<char>, NameKind),
    occs: Seq<(Range<usize>, Name, bool)>,
    remove_all: bool,
    i: int,
) -> Result<(Seq<SpecReplacement>, Seq<(Seq<char>, NameKind)>), Seq<char>>
    decreases import.exposing@.len() - i,
{
    if i < 0 || i >= import.exposing@.len() {
        Ok((seq![], seq![]))
    } else {
        match entry_step(buffer, import, import.exposing@[i], es, reference, occs, remove_all) {
            EntryOutcome::Fail { msg } => Err(msg),
            EntryOutcome::Go { changes, refs, stop } => if stop {
                Ok((changes, refs))
            } else {
                match walk_from(buffer, import, es, reference, occs, remove_all, i + 1) {
                    Err(msg) => Err(msg),
                    Ok((c2, r2)) => Ok((changes + c2, refs + r2)),
                }
            },
        }
    }
}

/// `res` with the replacements `c` and the names `r` in front.
pub open spec fn prepend(
    c: Seq<SpecReplacement>,
    r: Seq<(Seq<char>, NameKind)>,
    res: Result<(Seq<SpecReplacement>, Seq<(Seq<char>, NameKind)>), Seq<char>>,
) -> Result<(Seq<SpecReplacement>, Seq<(Seq<char>, NameKind)>), Seq<char>> {
    match res {
        Err(msg) => Err(msg),
        Ok((c2, r2)) => Ok((c + c2, r + r2)),
    }
}

/// The replacements that put `qualifier` and a dot in front of each
/// occurrence among `occs` of a name among `refs`, unless the occurrence
/// starts in one of the ranges `skip`.
pub open spec fn qualifier_replacements(
    buffer: Buffer,
    occs: Seq<(Range<usize>, Name, bool)>,
    refs: Seq<(Seq<char>, NameKind)>,
    skip: Seq<Range<usize>>,
    qualifier: Seq<char>,
) -> Seq<SpecReplacement>
    decreases occs.len(),
{
    if occs.len() == 0 {
        seq![]
    } else {
        let rest = qualifier_replacements(buffer, occs.drop_last(), refs, skip, qualifier);
        let o = occs.last();
        if refs.contains(o.1@) && !exists|k: int|
            0 <= k < skip.len() && range_has(#[trigger] skip[k], o.0.start) {
            rest.push(
                (buffer, Range { start: o.0.start, end: o.0.start }, qualifier + seq!['.']),
            )
        } else {
            rest
        }
    }
}

/// Puts `qualifier` and a dot in front of each occurrence among `occs` of
/// a name among `refs`, except those starting in one of the ranges `skip`.
pub(crate) fn add_qualifier_to_references(
    refactor: &mut Refactor,
    buffer: Buffer,
    occs: &Vec<(Range<usize>, Name, bool)>,
    refs: &Vec<Name>,
    skip: &Vec<Range<usize>>,
    qualifier: &str,
)
    ensures
        final(refactor).changes() == old(refactor).changes() + qualifier_replacements(
            buffer,
            occs@,
            names_view(refs@),
            skip@,
            qualifier@,
        ),
        final(refactor).files_to_open() == old(refactor).files_to_open(),
        final(refactor).what() == old(refactor).what(),
{
    let ghost start = refactor.changes();
    let mut i: usize = 0;
    assert(occs@.take(0) =~= Seq::<(Range<usize>, Name, bool)>::empty());
    assert(start + qualifier_replacements(buffer, occs@.take(0), names_view(refs@), skip@, qualifier@) =~= start);
    while i < occs.len()
        invariant
            i <= occs@.len(),
            refactor.changes() == start + qualifier_replacements(
                buffer,
                occs@.take(i as int),
                names_view(refs@),
                skip@,
                qualifier@,
            ),
            refactor.files_to_open() == old(refactor).files_to_open(),
            refactor.what() == old(refactor).what(),
        decreases occs.len() - i,
    {
        assert(occs@.take(i + 1).drop_last() =~= occs@.take(i as int));
        assert(occs@.take(i + 1).last() == occs@[i as int]);
        let pos = occs[i].0.start;
        if contains_name(refs, &occs[i].1) && !in_any(skip, pos) {
            let text = String::from_str(qualifier).concat(".");
            proof {
                reveal_strlit(".");
                assert("."@ =~= seq!['.']);
                assert(text@ =~= qualifier@ + seq!['.']);
            }
            refactor.add_change(buffer, pos..pos, text);
            assert(refactor.changes() =~= start + qualifier_replacements(
                buffer,
                occs@.take(i + 1),
                names_view(refs@),
                skip@,
                qualifier@,
            ));
        }
        i = i + 1;
    }
    assert(occs@.take(occs@.len() as int) =~= occs@);
}

/// What qualifying `reference` with `qualifier` in `module` does, the
/// imported module exporting `es`: the replacements it adds, or `Err` with
/// the error message when no import is qualified by `qualifier` or an entry
/// of its exposing list fails (see [`entry_step`]).
pub open spec fn spec_qualify(
    module: ModuleModel,
    es: Seq<ExportedName>,
    skip: Seq<Range<usize>>,
    qualifier: Seq<char>,
    reference: (Seq<char>, NameKind),
    remove_all: bool,
) -> Result<Seq<SpecReplacement>, Seq<char>> {
    match first_import_from(module.imports@, qualifier, 0) {
        None => Err("could not find an import with the requested aliased name"@),
        Some(i) => match walk_from(
            module.buffer,
            module.imports@[i],
            es,
            reference,
            module.occurrences@,
            remove_all,
            0,
        ) {
            Err(msg) => Err(msg),
            Ok((changes, refs)) => Ok(
                changes + qualifier_replacements(
                    module.buffer,
                    module.occurrences@,
                    refs,
                    skip,
                    spec_aliased_name(module.imports@[i]),
                ),
            ),
        },
    }
}

/// Qualifies the name `reference`, exposed by the import of `module` that
/// `qualifier` names, whose module exports `exports`: takes it out of the
/// import's exposing list and puts the qualifier in front of its uses,
/// except those starting in one of the ranges `skip_byteranges`.
pub fn qualify_value(
    module: &ModuleModel,
    exports: &Vec<ExportedName>,
    refactor: &mut Refactor,
    skip_byteranges: &Vec<Range<usize>>,
    qualifier: &str,
    reference: &Name,
    remove_expose_all_if_necessary: bool,
) -> (r: Result<(), Error>)
    ensures
        match spec_qualify(
            *module,
            exports@,
            skip_byteranges@,
            qualifier@,
            reference@,
            remove_expose_all_if_necessary,
        ) {
            Ok(changes) => {
                &&& r is Ok
                &&& final(refactor).changes() == old(refactor).changes() + changes
                &&& final(refactor).files_to_open() == old(refactor).files_to_open()
                &&& final(refactor).what() == old(refactor).what()
            },
            Err(msg) => r matches Err(e) && e.0@ == msg,
        },
{
    let import = find_import(module, qualifier)?;
    let buffer = module.buffer;
    let ghost start = refactor.changes();
    let ghost whole = walk_from(buffer, *import, exports@, reference@, module.occurrences@, remove_expose_all_if_necessary, 0);
    let mut refs: Vec<Name> = Vec::new();
    let mut i: usize = 0;
    assert(start =~= start + seq![]);
    assert(whole =~= prepend(seq![], seq![], walk_from(buffer, *import, exports@, reference@, module.occurrences@, remove_expose_all_if_necessary, 0)));
    let ghost mut acc_c: Seq<SpecReplacement> = seq![];
    let ghost mut stopped = false;
    while i < import.exposing.len()
        invariant
            i <= import.exposing@.len(),
            buffer == module.buffer,
            whole == walk_from(buffer, *import, exports@, reference@, module.occurrences@, remove_expose_all_if_necessary, 0),
            match first_import_from(module.imports@, qualifier@, 0) {
                Some(k) => *import == module.imports@[k],
                None => false,
            },
            start == old(refactor).changes(),
            refactor.changes() == start + acc_c,
            refactor.files_to_open() == old(refactor).files_to_open(),
            refactor.what() == old(refactor).what(),
            !stopped ==> whole == prepend(
                acc_c,
                names_view(refs@),
                walk_from(buffer, *import, exports@, reference@, module.occurrences@, remove_expose_all_if_necessary, i as int),
            ),
            stopped ==> whole == Ok::<_, Seq<char>>((acc_c, names_view(refs@))),
            stopped ==> i == import.exposing@.len(),
        decreases import.exposing.len() - i,
    {
        let ghost c_before = refactor.changes();
        let ghost r_before = names_view(refs@);
        let ghost old_acc = acc_c;
        let res = entry(
            refactor,
            &mut refs,
            buffer,
            import,
            &import.exposing[i],
            exports,
            reference,
            &module.occurrences,
            remove_expose_all_if_necessary,
        );
        let stop = match res {
            Ok(stop) => stop,
            Err(e) => {
                proof {
                    let msg = entry_step(buffer, *import, import.exposing@[i as int], exports@, reference@, module.occurrences@, remove_expose_all_if_necessary)->Fail_msg;
                    assert(walk_from(buffer, *import, exports@, reference@, module.occurrences@, remove_expose_all_if_necessary, i as int) == Err::<(Seq<SpecReplacement>, Seq<(Seq<char>, NameKind)>), Seq<char>>(msg));
                    assert(whole == Err::<(Seq<SpecReplacement>, Seq<(Seq<char>, NameKind)>), Seq<char>>(msg));
                }
                return Err(e);
            },
        };
        proof {
            match entry_step(buffer, *import, import.exposing@[i as int], exports@, reference@, module.occurrences@, remove_expose_all_if_necessary) {
                EntryOutcome::Fail { .. } => {},
                EntryOutcome::Go { changes, refs: rs, stop: st } => {
                    acc_c = old_acc + changes;
                    assert(refactor.changes() =~= start + acc_c);
                    if !st {
                        match walk_from(buffer, *import, exports@, reference@, module.occurrences@, remove_expose_all_if_necessary, i + 1) {
                            Err(_) => {},
                            Ok((c2, r2)) => {
                                assert(old_acc + (changes + c2) =~= acc_c + c2);
                                assert(r_before + (rs + r2) =~= names_view(refs@) + r2);
                            },
                        }
                    }
                },
            }
        }
        if stop {
            proof {
                stopped = true;
            }
            i = import.exposing.len();
        } else {
            i = i + 1;
        }
    }
    proof {
        if !stopped {
            assert(acc_c + seq![] =~= acc_c);
            assert(names_view(refs@) + seq![] =~= names_view(refs@));
        }
    }
    add_qualifier_to_references(
        refactor,
        buffer,
        &module.occurrences,
        &refs,
        skip_byteranges,
        aliased_name(import),
    );
    Ok(())
}

} // verus!

verus! {

/// The entries of an exposing list as what they expose.
pub open spec fn entries_exposed(v: Seq<ExposedEntry>) -> Seq<SpecExposedName> {
    v.map_values(|e: ExposedEntry| e.exposed@)
}

/// A copy of an exposing list entry's name.
fn copy_exposed(e: &ExposedName) -> (r: ExposedName)
    ensures
        r@ == e@,
{
    match e {
        ExposedName::Operator { name } => ExposedName::Operator { name: name.clone() },
        ExposedName::Value { name } => ExposedName::Value { name: name.clone() },
        ExposedName::Type { name, exposing_constructors } => ExposedName::Type {
            name: name.clone(),
            exposing_constructors: *exposing_constructors,
        },
        ExposedName::All => ExposedName::All,
    }
}

/// What the entries of an exposing list expose.
pub(crate) fn exposed_of_entries(v: &Vec<ExposedEntry>) -> (r: Vec<ExposedName>)
    ensures
        exposed_view(r@) == entries_exposed(v@),
{
    let mut r: Vec<ExposedName> = Vec::new();
    let mut i: usize = 0;
    while i < v.len()
        invariant
            i <= v@.len(),
            r@.len() == i,
            exposed_view(r@) == entries_exposed(v@).take(i as int),
        decreases v.len() - i,
    {
        r.push(copy_exposed(&v[i].exposed));
        i = i + 1;
        assert(exposed_view(r@) =~= entries_exposed(v@).take(i as int));
    }
    assert(entries_exposed(v@).take(v@.len() as int) =~= entries_exposed(v@));
    r
}

/// Follows the programmer removing the exposing list from `import`, whose
/// module exports `exports`: every use in `module` of a name the list
/// brought into scope gets the import's qualifier.
pub fn removed_exposing_list_from_import(
    module: &ModuleModel,
    import: &Import,
    exports: &Vec<ExportedName>,
    refactor: &mut Refactor,
)
    ensures
        final(refactor).changes() == old(refactor).changes() + qualifier_replacements(
            module.buffer,
            module.occurrences@,
            spec_names_of_exposing_list(entries_exposed(import.exposing@), exports_view(exports@)),
            seq![],
            spec_aliased_name(*import),
        ),
        final(refactor).files_to_open() == old(refactor).files_to_open(),
        final(refactor).what() == old(refactor).what(),
{
    let exposed = exposed_of_entries(&import.exposing);
    let refs = names_of_exposing_list(&exposed, exports);
    let no_ranges: Vec<Range<usize>> = Vec::new();
    assert(no_ranges@ =~= Seq::<Range<usize>>::empty());
    add_qualifier_to_references(
        refactor,
        module.buffer,
        &module.occurrences,
        &refs,
        &no_ranges,
        aliased_name(import),
    );
}

} // verus!
