//! Freeing names so they can be used for something else. A name that an
//! import exposes is taken out of its exposing list and qualified where it
//! is used; a name defined in the module is renamed by adding a number to
//! it: `violin` becomes `violin2`, or `violin3` when `violin2` is taken.
use vstd::prelude::*;
use core::ops::Range;
use crate::error::Error;
use crate::exports::{exports_view, ExportedName};
use crate::module_model::{
    aliased_name, first_import_from, spec_aliased_name, Import, ModuleModel,
};
use crate::names::{names_of_exposed, names_view, spec_names_of_exposed, Name, NameKind};
use crate::qualify::{qualify_value, spec_qualify};
use crate::refactor::{Refactor, SpecReplacement};
use crate::renaming::{
    contains_name, definitions_with_scopes, first_free_name, in_any, numbered, range_has,
    rename, rename_replacements, scopes_of_name, spec_definitions_with_scopes,
    spec_scopes_of_name,
};
use crate::text::same_text;

verus! {

/// The exports listed for the module named `m` among `known`, from index
/// `i` on: those of the first entry for it, none when there is none.
pub open spec fn exports_from(known: Seq<(String, Vec<ExportedName>)>, m: Seq<char>, i: int) -> Seq<
    ExportedName,
>
    decreases known.len() - i,
{
    if i < 0 || i >= known.len() {
        seq![]
    } else if known[i].0@ == m {
        known[i].1@
    } else {
        exports_from(known, m, i + 1)
    }
}

/// The exports listed for the module named `m` among `known`.
pub fn exports_of<'a>(known: &'a Vec<(String, Vec<ExportedName>)>, m: &str) -> (r: Option<
    &'a Vec<ExportedName>,
>)
    ensures
        match r {
            Some(v) => v@ == exports_from(known@, m@, 0),
            None => exports_from(known@, m@, 0) == Seq::<ExportedName>::empty(),
        },
{
    let mut i: usize = 0;
    while i < known.len()
        invariant
            i <= known@.len(),
            exports_from(known@, m@, 0) == exports_from(known@, m@, i as int),
        decreases known.len() - i,
    {
        if same_text(known[i].0.as_str(), m) {
            return Some(&known[i].1);
        }
        i = i + 1;
    }
    None
}

/// Whether an entry of the exposing list of `imp` brings `name` into scope,
/// its module exporting `es`.
pub open spec fn import_exposes(imp: Import, es: Seq<ExportedName>, name: (Seq<char>, NameKind)) -> bool {
    exists|k: int|
        0 <= k < imp.exposing@.len() && spec_names_of_exposed(
            (#[trigger] imp.exposing@[k]).exposed@,
            exports_view(es),
        ).contains(name)
}

/// Whether the import starts in one of the ranges `skip`.
pub open spec fn import_skipped(imp: Import, skip: Seq<Range<usize>>) -> bool {
    exists|k: int| 0 <= k < skip.len() && range_has(#[trigger] skip[k], imp.start)
}

/// The qualifier of the last of `imports` that brings `name` into scope,
/// leaving out imports that start in one of the ranges `skip`; `None` when
/// no import does.
pub open spec fn imported_qualifier(
    imports: Seq<Import>,
    known: Seq<(String, Vec<ExportedName>)>,
    skip: Seq<Range<usize>>,
    name: (Seq<char>, NameKind),
) -> Option<Seq<char>>
    decreases imports.len(),
{
    if imports.len() == 0 {
        None
    } else {
        let imp = imports.last();
        if !import_skipped(imp, skip) && import_exposes(
            imp,
            exports_from(known, imp.module_name@, 0),
            name,
        ) {
            Some(spec_aliased_name(imp))
        } else {
            imported_qualifier(imports.drop_last(), known, skip, name)
        }
    }
}

/// Whether an entry of the exposing list of `imp` brings `name` into scope.
fn exposes_name(imp: &Import, es: &Vec<ExportedName>, name: &Name) -> (r: bool)
    ensures
        r == import_exposes(*imp, es@, name@),
{
    let mut k: usize = 0;
    while k < imp.exposing.len()
        invariant
            k <= imp.exposing@.len(),
            forall|j: int|
                0 <= j < k ==> !spec_names_of_exposed(
                    (#[trigger] imp.exposing@[j]).exposed@,
                    exports_view(es@),
                ).contains(name@),
        decreases imp.exposing.len() - k,
    {
        let names = names_of_exposed(&imp.exposing[k].exposed, es);
        if contains_name(&names, name) {
            return true;
        }
        k = k + 1;
    }
    false
}

/// The qualifier of the last import of `module` that brings `name` into
/// scope, imports starting in one of the ranges `skip` aside.
fn find_imported_qualifier<'a>(
    module: &'a ModuleModel,
    known: &Vec<(String, Vec<ExportedName>)>,
    skip: &Vec<Range<usize>>,
    name: &Name,
) -> (r: Option<&'a str>)
    ensures
        match r {
            Some(q) => imported_qualifier(module.imports@, known@, skip@, name@) == Some(q@),
            None => imported_qualifier(module.imports@, known@, skip@, name@) is None,
        },
{
    let imports = &module.imports;
    let mut found: Option<&'a str> = None;
    let mut i: usize = 0;
    let empty: Vec<ExportedName> = Vec::new();
    assert(imports@.take(0) =~= Seq::<Import>::empty());
    while i < imports.len()
        invariant
            i <= imports@.len(),
            imports == &module.imports,
            empty@ == Seq::<ExportedName>::empty(),
            match found {
                Some(q) => imported_qualifier(imports@.take(i as int), known@, skip@, name@)
                    == Some(q@),
                None => imported_qualifier(imports@.take(i as int), known@, skip@, name@) is None,
            },
        decreases imports.len() - i,
    {
        assert(imports@.take(i + 1).drop_last() =~= imports@.take(i as int));
        assert(imports@.take(i + 1).last() == imports@[i as int]);
        let imp = &imports[i];
        if !in_any(skip, imp.start) {
            let es = match exports_of(known, imp.module_name.as_str()) {
                Some(v) => v,
                None => &empty,
            };
            if exposes_name(imp, es, name) {
                found = Some(aliased_name(imp));
            }
        }
        i = i + 1;
    }
    assert(imports@.take(imports@.len() as int) =~= imports@);
    found
}

/// The name `reference` with the lowest number from 2 on added that is not
/// among `in_use`.
pub open spec fn spec_free_name(reference: (Seq<char>, NameKind), in_use: Seq<(Seq<char>, NameKind)>) -> (
    Seq<char>,
    NameKind,
) {
    numbered(
        reference,
        choose|k: nat|
            {
                &&& k >= 2
                &&& !in_use.contains(numbered(reference, k))
                &&& forall|j: nat| 2 <= j < k ==> in_use.contains(#[trigger] numbered(reference, j))
            },
    )
}

/// The names occurring among `occs`.
pub open spec fn occurrence_names(occs: Seq<(Range<usize>, Name, bool)>) -> Seq<
    (Seq<char>, NameKind),
> {
    occs.map_values(|o: (Range<usize>, Name, bool)| o.1@)
}

/// The occurrences `occs` as a rename reads them.
pub open spec fn rename_view(occs: Seq<(Range<usize>, Name, bool)>) -> Seq<
    (Range<usize>, (Seq<char>, NameKind)),
> {
    occs.map_values(|o: (Range<usize>, Name, bool)| (o.0, o.1@))
}

/// The occurrences `occs` as the search for definitions reads them.
pub open spec fn definitions_view(occs: Seq<(Range<usize>, Name, bool)>) -> Seq<
    (usize, bool, (Seq<char>, NameKind)),
> {
    occs.map_values(|o: (Range<usize>, Name, bool)| (o.0.start, o.2, o.1@))
}

/// The names occurring in `module`.
fn names_in_use(module: &ModuleModel) -> (r: Vec<Name>)
    ensures
        names_view(r@) == occurrence_names(module.occurrences@),
        r@.len() == module.occurrences@.len(),
{
    let occs = &module.occurrences;
    let mut r: Vec<Name> = Vec::new();
    let mut i: usize = 0;
    while i < occs.len()
        invariant
            i <= occs@.len(),
            r@.len() == i,
            names_view(r@) == occurrence_names(occs@).take(i as int),
        decreases occs.len() - i,
    {
        r.push(occs[i].1.copy());
        i = i + 1;
        assert(names_view(r@) =~= occurrence_names(occs@).take(i as int));
    }
    assert(occurrence_names(occs@).take(occs@.len() as int) =~= occurrence_names(occs@));
    r
}

/// The occurrences of `module` as a rename reads them.
pub(crate) fn rename_targets(module: &ModuleModel) -> (r: Vec<(Range<usize>, Name)>)
    ensures
        r@.map_values(|o: (Range<usize>, Name)| (o.0, o.1@)) == rename_view(module.occurrences@),
{
    let occs = &module.occurrences;
    let mut r: Vec<(Range<usize>, Name)> = Vec::new();
    let mut i: usize = 0;
    while i < occs.len()
        invariant
            i <= occs@.len(),
            r@.len() == i,
            r@.map_values(|o: (Range<usize>, Name)| (o.0, o.1@)) == rename_view(occs@).take(
                i as int,
            ),
        decreases occs.len() - i,
    {
        let range = occs[i].0.start..occs[i].0.end;
        r.push((range, occs[i].1.copy()));
        i = i + 1;
        assert(r@.map_values(|o: (Range<usize>, Name)| (o.0, o.1@)) =~= rename_view(occs@).take(
            i as int,
        ));
    }
    assert(rename_view(occs@).take(occs@.len() as int) =~= rename_view(occs@));
    r
}

/// The occurrences of `module` as the search for definitions reads them.
fn definition_candidates(module: &ModuleModel) -> (r: Vec<(usize, bool, Name)>)
    ensures
        r@.map_values(|o: (usize, bool, Name)| (o.0, o.1, o.2@)) == definitions_view(
            module.occurrences@,
        ),
{
    let occs = &module.occurrences;
    let mut r: Vec<(usize, bool, Name)> = Vec::new();
    let mut i: usize = 0;
    while i < occs.len()
        invariant
            i <= occs@.len(),
            r@.len() == i,
            r@.map_values(|o: (usize, bool, Name)| (o.0, o.1, o.2@)) == definitions_view(
                occs@,
            ).take(i as int),
        decreases occs.len() - i,
    {
        r.push((occs[i].0.start, occs[i].2, occs[i].1.copy()));
        i = i + 1;
        assert(r@.map_values(|o: (usize, bool, Name)| (o.0, o.1, o.2@)) =~= definitions_view(
            occs@,
        ).take(i as int));
    }
    assert(definitions_view(occs@).take(occs@.len() as int) =~= definitions_view(occs@));
    r
}

/// What freeing `name` in `module` adds: when an import brings it into
/// scope, the qualifying of it with that import's qualifier (see
/// [`qualify_value`], with `..` replaced when needed); else its rename, to
/// the first free numbered name, in the scopes of its definitions that
/// `must_include` admits (everywhere when there is none), away from the
/// ranges `skip`.
pub open spec fn free_step(
    module: ModuleModel,
    known: Seq<(String, Vec<ExportedName>)>,
    must_include: Seq<Range<usize>>,
    skip: Seq<Range<usize>>,
    name: (Seq<char>, NameKind),
) -> Result<Seq<SpecReplacement>, ()> {
    match imported_qualifier(module.imports@, known, skip, name) {
        Some(q) => {
            let es = match first_import_from(module.imports@, q, 0) {
                Some(k) => exports_from(known, module.imports@[k].module_name@, 0),
                None => seq![],
            };
            match spec_qualify(module, es, skip, q, name, true) {
                Ok(c) => Ok(c),
                Err(_) => Err(()),
            }
        },
        None => {
            let defs = spec_definitions_with_scopes(
                definitions_view(module.occurrences@),
                module.scopes@,
            );
            Ok(
                rename_replacements(
                    module.buffer,
                    rename_view(module.occurrences@),
                    name,
                    spec_free_name(name, occurrence_names(module.occurrences@)).0,
                    spec_scopes_of_name(defs, name, must_include),
                    skip,
                ),
            )
        },
    }
}

/// What freeing the names `names` in turn adds, or `Err` when one fails.
pub open spec fn spec_free_names(
    module: ModuleModel,
    known: Seq<(String, Vec<ExportedName>)>,
    names: Seq<(Seq<char>, NameKind)>,
    must_include: Seq<Range<usize>>,
    skip: Seq<Range<usize>>,
) -> Result<Seq<SpecReplacement>, ()>
    decreases names.len(),
{
    if names.len() == 0 {
        Ok(seq![])
    } else {
        match spec_free_names(module, known, names.drop_last(), must_include, skip) {
            Err(()) => Err(()),
            Ok(c) => match free_step(module, known, must_include, skip, names.last()) {
                Err(()) => Err(()),
                Ok(c2) => Ok(c + c2),
            },
        }
    }
}

/// Once freeing a first part of `names` fails, freeing all of them fails.
proof fn lemma_failure_stays(
    module: ModuleModel,
    known: Seq<(String, Vec<ExportedName>)>,
    names: Seq<(Seq<char>, NameKind)>,
    must_include: Seq<Range<usize>>,
    skip: Seq<Range<usize>>,
    j: int,
)
    requires
        0 <= j <= names.len(),
        spec_free_names(module, known, names.take(j), must_include, skip) is Err,
    ensures
        spec_free_names(module, known, names, must_include, skip) is Err,
    decreases names.len() - j,
{
    if j == names.len() {
        assert(names.take(j) =~= names);
    } else {
        assert(names.take(j + 1).drop_last() =~= names.take(j));
        lemma_failure_stays(module, known, names, must_include, skip, j + 1);
    }
}

/// Frees the names `names` in `module`, in turn, the modules it imports
/// exporting what `known` lists for them: qualifies each that an import
/// brings into scope, and renames each other one in the scopes of its
/// definitions that contain the start of a range in
/// `scope_must_include_one_of` (all of them when it is empty). Nothing in
/// the ranges `skip_byteranges` is touched.
pub fn free_names(
    module: &ModuleModel,
    known: &Vec<(String, Vec<ExportedName>)>,
    refactor: &mut Refactor,
    names: &Vec<Name>,
    scope_must_include_one_of: &Vec<Range<usize>>,
    skip_byteranges: &Vec<Range<usize>>,
) -> (r: Result<(), Error>)
    requires
        module.occurrences@.len() + 3 <= usize::MAX,
    ensures
        match spec_free_names(
            *module,
            known@,
            names_view(names@),
            scope_must_include_one_of@,
            skip_byteranges@,
        ) {
            Ok(changes) => {
                &&& r is Ok
                &&& final(refactor).changes() == old(refactor).changes() + changes
                &&& final(refactor).files_to_open() == old(refactor).files_to_open()
                &&& final(refactor).what() == old(refactor).what()
            },
            Err(()) => r is Err,
        },
{
    let occurrences = rename_targets(module);
    let candidates = definition_candidates(module);
    let definitions = definitions_with_scopes(&candidates, &module.scopes);
    let in_use = names_in_use(module);
    let empty: Vec<ExportedName> = Vec::new();
    let ghost start = refactor.changes();
    let ghost nv = names_view(names@);
    let mut i: usize = 0;
    assert(nv.take(0) =~= Seq::<(Seq<char>, NameKind)>::empty());
    assert(start + seq![] =~= start);
    while i < names.len()
        invariant
            i <= names@.len(),
            nv == names_view(names@),
            start == old(refactor).changes(),
            empty@ == Seq::<ExportedName>::empty(),
            module.occurrences@.len() + 3 <= usize::MAX,
            occurrences@.map_values(|o: (Range<usize>, Name)| (o.0, o.1@)) == rename_view(
                module.occurrences@,
            ),
            definitions@.map_values(|d: (Name, Range<usize>)| (d.0@, d.1))
                == spec_definitions_with_scopes(definitions_view(module.occurrences@), module.scopes@),
            names_view(in_use@) == occurrence_names(module.occurrences@),
            in_use@.len() == module.occurrences@.len(),
            spec_free_names(
                *module,
                known@,
                nv.take(i as int),
                scope_must_include_one_of@,
                skip_byteranges@,
            ) matches Ok(c) && refactor.changes() == start + c,
            refactor.files_to_open() == old(refactor).files_to_open(),
            refactor.what() == old(refactor).what(),
        decreases names.len() - i,
    {
        assert(nv.take(i + 1).drop_last() =~= nv.take(i as int));
        assert(nv.take(i + 1).last() == nv[i as int]);
        let ghost c_before = refactor.changes();
        let ghost acc = c_before.subrange(start.len() as int, c_before.len() as int);
        assert(c_before =~= start + acc);
        let name = &names[i];
        match find_imported_qualifier(module, known, skip_byteranges, name) {
            Some(q) => {
                let es = match find_exports_for(module, known, q) {
                    Some(v) => v,
                    None => &empty,
                };
                let res = qualify_value(module, es, refactor, skip_byteranges, q, name, true);
                if let Err(e) = res {
                    proof {
                        assert(free_step(
                            *module,
                            known@,
                            scope_must_include_one_of@,
                            skip_byteranges@,
                            name@,
                        ) is Err);
                        assert(spec_free_names(
                            *module,
                            known@,
                            nv.take(i + 1),
                            scope_must_include_one_of@,
                            skip_byteranges@,
                        ) is Err);
                        lemma_failure_stays(
                            *module,
                            known@,
                            nv,
                            scope_must_include_one_of@,
                            skip_byteranges@,
                            i + 1,
                        );
                    }
                    return Err(e);
                }
                proof {
                    let c2 = refactor.changes().subrange(c_before.len() as int, refactor.changes().len() as int);
                    assert(refactor.changes() =~= start + (acc + c2));
                }
            },
            None => {
                let scopes = scopes_of_name(&definitions, name, scope_must_include_one_of);
                let new_name = first_free_name(name, &in_use);
                proof {
                    let k = choose|k: nat|
                        {
                            &&& k >= 2
                            &&& new_name@ == numbered(name@, k)
                            &&& !names_view(in_use@).contains(new_name@)
                            &&& forall|j: nat|
                                2 <= j < k ==> names_view(in_use@).contains(
                                    #[trigger] numbered(name@, j),
                                )
                        };
                    let m = choose|m: nat|
                        {
                            &&& m >= 2
                            &&& !names_view(in_use@).contains(numbered(name@, m))
                            &&& forall|j: nat|
                                2 <= j < m ==> names_view(in_use@).contains(
                                    #[trigger] numbered(name@, j),
                                )
                        };
                    if m < k {
                        assert(names_view(in_use@).contains(numbered(name@, m)));
                    }
                    if k < m {
                        assert(names_view(in_use@).contains(numbered(name@, k)));
                    }
                    assert(new_name@ == spec_free_name(name@, occurrence_names(module.occurrences@)));
                }
                rename(refactor, module.buffer, &occurrences, name, &new_name, &scopes, skip_byteranges);
                proof {
                    let c2 = refactor.changes().subrange(c_before.len() as int, refactor.changes().len() as int);
                    assert(refactor.changes() =~= start + (acc + c2));
                }
            },
        }
        i = i + 1;
    }
    assert(nv.take(names@.len() as int) =~= nv);
    Ok(())
}

/// The exports of the module of the first import of `module` qualified by
/// `q`, as `known` lists them.
fn find_exports_for<'a>(
    module: &ModuleModel,
    known: &'a Vec<(String, Vec<ExportedName>)>,
    q: &str,
) -> (r: Option<&'a Vec<ExportedName>>)
    ensures
        ({
            let es = match first_import_from(module.imports@, q@, 0) {
                Some(k) => exports_from(known@, module.imports@[k].module_name@, 0),
                None => seq![],
            };
            match r {
                Some(v) => v@ == es,
                None => es == Seq::<ExportedName>::empty(),
            }
        }),
{
    match crate::module_model::find_import(module, q) {
        Ok(imp) => exports_of(known, imp.module_name.as_str()),
        Err(_) => None,
    }
}

} // verus!
