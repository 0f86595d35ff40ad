//! The refactors that follow the programmer editing the exposing list of an
//! import: names that leave the list get qualified where they are used, and
//! names that join it lose their qualifier.
use vstd::prelude::*;
use core::ops::Range;
use crate::editors::Buffer;
use crate::error::Error;
use crate::exports::{exports_view, ExportedName};
use crate::free_names::{free_names, spec_free_names};
use crate::module_model::{aliased_name, spec_aliased_name, Import, ModuleModel};
use crate::names::{
    ExposedName,
    distinct_not_in, names_not_in, names_of_exposing_list, names_view, spec_names_of_exposing_list,
    Name, NameKind,
};
use crate::qualify::{
    add_qualifier_to_references, entries_exposed, exposed_of_entries, qualifier_replacements,
};
use crate::refactor::{Refactor, SpecReplacement};
use crate::renaming::contains_name;

verus! {

/// The number of bytes of the UTF-8 encoding of `t`, as `str::len` gives
/// it.
pub open spec fn text_bytes(t: Seq<char>) -> nat {
    (vstd::utf8::encode_utf8(t).len() as usize) as nat
}

/// The replacements that remove a qualifier of `len` bytes and its dot from
/// each qualified use among `qs` of a name among `names`.
pub open spec fn unqualify_replacements(
    buffer: Buffer,
    qs: Seq<(Range<usize>, String, Name)>,
    names: Seq<(Seq<char>, NameKind)>,
    len: nat,
) -> Seq<SpecReplacement>
    decreases qs.len(),
{
    if qs.len() == 0 {
        seq![]
    } else {
        let rest = unqualify_replacements(buffer, qs.drop_last(), names, len);
        let u = qs.last();
        if names.contains(u.2@) {
            rest.push(
                (
                    buffer,
                    Range { start: u.0.start, end: (u.0.start + len + 1) as usize },
                    Seq::<char>::empty(),
                ),
            )
        } else {
            rest
        }
    }
}

/// Whether every qualified use in `module` starts early enough for a
/// qualifier of `len` bytes and its dot to end within the address range.
pub open spec fn qualifiers_fit(module: ModuleModel, len: nat) -> bool {
    forall|k: int|
        0 <= k < module.qualified@.len() ==> (#[trigger] module.qualified@[k]).0.start + len + 1
            <= usize::MAX
}

/// What removing the qualifier `q` from the uses of `names` in `module`
/// adds: the names are freed first (see [`free_names`]), then the
/// qualifier and its dot go from each qualified use of one of them.
pub open spec fn spec_remove_qualifier(
    module: ModuleModel,
    known: Seq<(String, Vec<ExportedName>)>,
    q: Seq<char>,
    names: Seq<(Seq<char>, NameKind)>,
    skip: Seq<Range<usize>>,
) -> Result<Seq<SpecReplacement>, ()> {
    match spec_free_names(module, known, names, seq![], skip) {
        Err(()) => Err(()),
        Ok(c) => Ok(
            c + unqualify_replacements(
                module.buffer,
                module.qualified@,
                names,
                text_bytes(q),
            ),
        ),
    }
}

/// Removes the qualifier `qualifier` from the uses in `module` of the names
/// `names`, after freeing those names so that no clash arises; nothing in
/// the ranges `skip_byteranges` is renamed.
pub fn remove_qualifier_from_references(
    module: &ModuleModel,
    known: &Vec<(String, Vec<ExportedName>)>,
    refactor: &mut Refactor,
    qualifier: &str,
    names: &Vec<Name>,
    skip_byteranges: &Vec<Range<usize>>,
) -> (r: Result<(), Error>)
    requires
        module.occurrences@.len() + 3 <= usize::MAX,
        qualifiers_fit(*module, text_bytes(qualifier@)),
    ensures
        match spec_remove_qualifier(*module, known@, qualifier@, names_view(names@), skip_byteranges@) {
            Ok(c) => {
                &&& r is Ok
                &&& final(refactor).changes() == old(refactor).changes() + c
                &&& final(refactor).files_to_open() == old(refactor).files_to_open()
                &&& final(refactor).what() == old(refactor).what()
            },
            Err(()) => r is Err,
        },
{
    let no_ranges: Vec<Range<usize>> = Vec::new();
    assert(no_ranges@ =~= Seq::<Range<usize>>::empty());
    free_names(module, known, refactor, names, &no_ranges, skip_byteranges)?;
    let ghost start = refactor.changes();
    let len = qualifier.len();
    let qs = &module.qualified;
    let ghost nv = names_view(names@);
    let mut i: usize = 0;
    assert(qs@.take(0) =~= Seq::<(Range<usize>, String, Name)>::empty());
    assert(start + unqualify_replacements(module.buffer, qs@.take(0), nv, len as nat) =~= start);
    while i < qs.len()
        invariant
            i <= qs@.len(),
            qs == &module.qualified,
            nv == names_view(names@),
            len as nat == text_bytes(qualifier@),
            qualifiers_fit(*module, len as nat),
            refactor.changes() == start + unqualify_replacements(
                module.buffer,
                qs@.take(i as int),
                nv,
                len as nat,
            ),
            refactor.files_to_open() == old(refactor).files_to_open(),
            refactor.what() == old(refactor).what(),
        decreases qs.len() - i,
    {
        assert(qs@.take(i + 1).drop_last() =~= qs@.take(i as int));
        assert(qs@.take(i + 1).last() == qs@[i as int]);
        if contains_name(names, &qs[i].2) {
            let s = qs[i].0.start;
            assert(s + len + 1 <= usize::MAX) by {
                assert(qs@[i as int].0.start + len + 1 <= usize::MAX);
            }
            refactor.add_change(module.buffer, s..s + len + 1, String::new());
            assert(refactor.changes() =~= start + unqualify_replacements(
                module.buffer,
                qs@.take(i + 1),
                nv,
                len as nat,
            ));
        }
        i = i + 1;
    }
    assert(qs@.take(qs@.len() as int) =~= qs@);
    Ok(())
}

/// The names the exposing list of `import` brings into scope, its module
/// exporting `es`.
pub open spec fn import_names(import: Import, es: Seq<ExportedName>) -> Seq<(Seq<char>, NameKind)> {
    spec_names_of_exposing_list(entries_exposed(import.exposing@), exports_view(es))
}

/// What editing the exposing list of an import from `old_import` to
/// `new_import` adds, the module exporting `es`: the names that left the
/// list get the qualifier of `new_import` where used, and the names that
/// joined it lose that qualifier.
pub open spec fn spec_changed_exposing_list(
    module: ModuleModel,
    known: Seq<(String, Vec<ExportedName>)>,
    old_import: Import,
    new_import: Import,
    es: Seq<ExportedName>,
) -> Result<Seq<SpecReplacement>, ()> {
    let old_names = import_names(old_import, es);
    let new_names = import_names(new_import, es);
    let q = spec_aliased_name(new_import);
    let c1 = qualifier_replacements(
        module.buffer,
        module.occurrences@,
        distinct_not_in(old_names, new_names),
        seq![],
        q,
    );
    match spec_remove_qualifier(module, known, q, distinct_not_in(new_names, old_names), seq![]) {
        Err(()) => Err(()),
        Ok(c2) => Ok(c1 + c2),
    }
}

/// Follows the programmer editing the exposing list of an import of
/// `module` from `old_import` to `new_import`, the imported module
/// exporting `exports` and the modules `module` imports exporting what
/// `known` lists for them.
pub fn changed_values_in_exposing_list(
    module: &ModuleModel,
    known: &Vec<(String, Vec<ExportedName>)>,
    old_import: &Import,
    new_import: &Import,
    exports: &Vec<ExportedName>,
    refactor: &mut Refactor,
) -> (r: Result<(), Error>)
    requires
        module.occurrences@.len() + 3 <= usize::MAX,
        qualifiers_fit(*module, text_bytes(spec_aliased_name(*new_import))),
    ensures
        match spec_changed_exposing_list(*module, known@, *old_import, *new_import, exports@) {
            Ok(c) => {
                &&& r is Ok
                &&& final(refactor).changes() == old(refactor).changes() + c
                &&& final(refactor).files_to_open() == old(refactor).files_to_open()
                &&& final(refactor).what() == old(refactor).what()
            },
            Err(()) => r is Err,
        },
{
    let old_exposed = exposed_of_entries(&old_import.exposing);
    let new_exposed = exposed_of_entries(&new_import.exposing);
    let old_names = names_of_exposing_list(&old_exposed, exports);
    let new_names = names_of_exposing_list(&new_exposed, exports);
    let to_qualify = names_not_in(&old_names, &new_names);
    let to_unqualify = names_not_in(&new_names, &old_names);
    let no_ranges: Vec<Range<usize>> = Vec::new();
    assert(no_ranges@ =~= Seq::<Range<usize>>::empty());
    let q = aliased_name(new_import);
    let ghost start = refactor.changes();
    add_qualifier_to_references(
        refactor,
        module.buffer,
        &module.occurrences,
        &to_qualify,
        &no_ranges,
        q,
    );
    let ghost c1 = refactor.changes();
    remove_qualifier_from_references(module, known, refactor, q, &to_unqualify, &no_ranges)?;
    proof {
        let a = c1.subrange(start.len() as int, c1.len() as int);
        let b = refactor.changes().subrange(c1.len() as int, refactor.changes().len() as int);
        assert(c1 =~= start + a);
        assert(refactor.changes() =~= start + (a + b));
    }
    Ok(())
}

} // verus!

verus! {

/// Follows the programmer adding an exposing list to `import`, its module
/// exporting `exports`: the names the list brings into scope lose the
/// import's qualifier where used (see [`remove_qualifier_from_references`]).
pub fn added_exposing_list_to_import(
    module: &ModuleModel,
    known: &Vec<(String, Vec<ExportedName>)>,
    import: &Import,
    exports: &Vec<ExportedName>,
    refactor: &mut Refactor,
) -> (r: Result<(), Error>)
    requires
        module.occurrences@.len() + 3 <= usize::MAX,
        qualifiers_fit(*module, text_bytes(spec_aliased_name(*import))),
    ensures
        match spec_remove_qualifier(
            *module,
            known@,
            spec_aliased_name(*import),
            distinct_not_in(import_names(*import, exports@), seq![]),
            seq![],
        ) {
            Ok(c) => {
                &&& r is Ok
                &&& final(refactor).changes() == old(refactor).changes() + c
                &&& final(refactor).files_to_open() == old(refactor).files_to_open()
                &&& final(refactor).what() == old(refactor).what()
            },
            Err(()) => r is Err,
        },
{
    let exposed = exposed_of_entries(&import.exposing);
    let all = names_of_exposing_list(&exposed, exports);
    let none: Vec<Name> = Vec::new();
    assert(names_view(none@) =~= Seq::<(Seq<char>, NameKind)>::empty());
    let names = names_not_in(&all, &none);
    let no_ranges: Vec<Range<usize>> = Vec::new();
    assert(no_ranges@ =~= Seq::<Range<usize>>::empty());
    remove_qualifier_from_references(module, known, refactor, aliased_name(import), &names, &no_ranges)
}

/// The replacements that change the qualifier `old_q` of each qualified use
/// among `qs` qualified by it into `new_q`.
pub open spec fn requalify_replacements(
    buffer: Buffer,
    qs: Seq<(Range<usize>, String, Name)>,
    old_q: Seq<char>,
    new_q: Seq<char>,
) -> Seq<SpecReplacement>
    decreases qs.len(),
{
    if qs.len() == 0 {
        seq![]
    } else {
        let rest = requalify_replacements(buffer, qs.drop_last(), old_q, new_q);
        let u = qs.last();
        if u.1@ == old_q {
            rest.push(
                (
                    buffer,
                    Range { start: u.0.start, end: (u.0.start + text_bytes(old_q) + 1) as usize },
                    new_q + seq!['.'],
                ),
            )
        } else {
            rest
        }
    }
}

/// Follows the programmer changing the name an import is qualified by from
/// `old_aliased_name` to `new_aliased_name` (adding, changing or removing
/// its `as` clause): each use qualified by the old name gets the new one.
pub fn changed_as_clause(
    module: &ModuleModel,
    old_aliased_name: &str,
    new_aliased_name: &str,
    refactor: &mut Refactor,
)
    requires
        qualifiers_fit(*module, text_bytes(old_aliased_name@)),
    ensures
        final(refactor).changes() == old(refactor).changes() + requalify_replacements(
            module.buffer,
            module.qualified@,
            old_aliased_name@,
            new_aliased_name@,
        ),
        final(refactor).files_to_open() == old(refactor).files_to_open(),
        final(refactor).what() == old(refactor).what(),
{
    let ghost start = refactor.changes();
    let len = old_aliased_name.len();
    let qs = &module.qualified;
    let mut i: usize = 0;
    assert(qs@.take(0) =~= Seq::<(Range<usize>, String, Name)>::empty());
    assert(start + requalify_replacements(module.buffer, qs@.take(0), old_aliased_name@, new_aliased_name@) =~= start);
    while i < qs.len()
        invariant
            i <= qs@.len(),
            qs == &module.qualified,
            len as nat == text_bytes(old_aliased_name@),
            qualifiers_fit(*module, len as nat),
            refactor.changes() == start + requalify_replacements(
                module.buffer,
                qs@.take(i as int),
                old_aliased_name@,
                new_aliased_name@,
            ),
            refactor.files_to_open() == old(refactor).files_to_open(),
            refactor.what() == old(refactor).what(),
        decreases qs.len() - i,
    {
        assert(qs@.take(i + 1).drop_last() =~= qs@.take(i as int));
        assert(qs@.take(i + 1).last() == qs@[i as int]);
        if crate::text::same_text(qs[i].1.as_str(), old_aliased_name) {
            let s = qs[i].0.start;
            assert(s + len + 1 <= usize::MAX) by {
                assert(qs@[i as int].0.start + len + 1 <= usize::MAX);
            }
            let text = String::from_str(new_aliased_name).concat(".");
            proof {
                reveal_strlit(".");
                assert("."@ =~= seq!['.']);
                assert(text@ =~= new_aliased_name@ + seq!['.']);
            }
            refactor.add_change(module.buffer, s..s + len + 1, text);
            assert(refactor.changes() =~= start + requalify_replacements(
                module.buffer,
                qs@.take(i + 1),
                old_aliased_name@,
                new_aliased_name@,
            ));
        }
        i = i + 1;
    }
    assert(qs@.take(qs@.len() as int) =~= qs@);
}

} // verus!

verus! {

/// The constructors of the first custom type named `t` among the exports
/// `es`, from index `i` on, as names of kind constructor; none when there is
/// no such type.
pub open spec fn type_constructors(es: Seq<ExportedName>, t: Seq<char>, i: int) -> Seq<
    (Seq<char>, NameKind),
>
    decreases es.len() - i,
{
    if i < 0 || i >= es.len() {
        seq![]
    } else {
        match es[i] {
            ExportedName::Type { name, constructors } => if name@ == t {
                crate::names::constructor_names(crate::exports::strings_view(constructors@))
            } else {
                type_constructors(es, t, i + 1)
            },
            _ => type_constructors(es, t, i + 1),
        }
    }
}

/// Follows the programmer making the type `exposed_type` in the exposing list
/// of `import` expose its constructors, its module exporting `exports`: the
/// constructors lose the import's qualifier where used (see
/// [`remove_qualifier_from_references`]).
pub fn added_constructors_to_exposing_list(
    module: &ModuleModel,
    known: &Vec<(String, Vec<ExportedName>)>,
    import: &Import,
    exports: &Vec<ExportedName>,
    exposed_type: &str,
    refactor: &mut Refactor,
) -> (r: Result<(), Error>)
    requires
        module.occurrences@.len() + 3 <= usize::MAX,
        qualifiers_fit(*module, text_bytes(spec_aliased_name(*import))),
    ensures
        match spec_remove_qualifier(
            *module,
            known@,
            spec_aliased_name(*import),
            distinct_not_in(type_constructors(exports@, exposed_type@, 0), seq![]),
            seq![],
        ) {
            Ok(c) => {
                &&& r is Ok
                &&& final(refactor).changes() == old(refactor).changes() + c
                &&& final(refactor).files_to_open() == old(refactor).files_to_open()
                &&& final(refactor).what() == old(refactor).what()
            },
            Err(()) => r is Err,
        },
{
    let mut ctors: Vec<Name> = Vec::new();
    let mut found = false;
    let mut i: usize = 0;
    while i < exports.len() && !found
        invariant
            i <= exports@.len(),
            !found ==> names_view(ctors@) == Seq::<(Seq<char>, NameKind)>::empty()
                && type_constructors(exports@, exposed_type@, 0) == type_constructors(
                exports@,
                exposed_type@,
                i as int,
            ),
            found ==> names_view(ctors@) == type_constructors(exports@, exposed_type@, 0),
        decreases exports.len() - i,
    {
        if let ExportedName::Type { name, constructors } = &exports[i] {
            if crate::text::same_text(name.as_str(), exposed_type) {
                crate::qualify::push_constructors(&mut ctors, constructors);
                assert(names_view(ctors@) =~= type_constructors(exports@, exposed_type@, i as int));
                found = true;
            }
        }
        i = i + 1;
    }
    let none: Vec<Name> = Vec::new();
    assert(names_view(none@) =~= Seq::<(Seq<char>, NameKind)>::empty());
    assert(names_view(ctors@) =~= type_constructors(exports@, exposed_type@, 0));
    let names = names_not_in(&ctors, &none);
    let no_ranges: Vec<Range<usize>> = Vec::new();
    assert(no_ranges@ =~= Seq::<Range<usize>>::empty());
    remove_qualifier_from_references(module, known, refactor, aliased_name(import), &names, &no_ranges)
}

/// The constructors that stop being exposed with the type `t`, from the
/// exports `es`: the constructor of the record type alias or custom type
/// found for it (see [`crate::qualify::spec_lookup`]); `None` when none is.
pub open spec fn removed_constructors(es: Seq<ExportedName>, t: Seq<char>) -> Option<
    Seq<(Seq<char>, NameKind)>,
> {
    match crate::qualify::spec_lookup(es, t) {
        None => None,
        Some(crate::qualify::SpecConstructors::Alias(c)) => Some(seq![(c, NameKind::Constructor)]),
        Some(crate::qualify::SpecConstructors::Custom(cs)) => Some(
            crate::names::constructor_names(cs),
        ),
    }
}

/// Follows the programmer making the type `exposed_type` in the exposing list
/// of `old_import` stop exposing its constructors, its module exporting
/// `exports`: the constructors get the import's qualifier where used. An
/// error when the exports hold no such type.
pub fn removed_constructors_from_exposing_list(
    module: &ModuleModel,
    old_import: &Import,
    exports: &Vec<ExportedName>,
    exposed_type: &str,
    refactor: &mut Refactor,
) -> (r: Result<(), Error>)
    ensures
        match removed_constructors(exports@, exposed_type@) {
            Some(refs) => {
                &&& r is Ok
                &&& final(refactor).changes() == old(refactor).changes() + qualifier_replacements(
                    module.buffer,
                    module.occurrences@,
                    refs,
                    seq![],
                    spec_aliased_name(*old_import),
                )
                &&& final(refactor).files_to_open() == old(refactor).files_to_open()
                &&& final(refactor).what() == old(refactor).what()
            },
            None => r is Err,
        },
{
    let mut refs: Vec<Name> = Vec::new();
    match crate::qualify::lookup(exports, exposed_type)? {
        crate::names::ExposedConstructors::FromTypeAlias(ctor) => {
            refs.push(Name::new(ctor.as_str(), NameKind::Constructor));
            assert(names_view(refs@) =~= seq![(ctor@, NameKind::Constructor)]);
        },
        crate::names::ExposedConstructors::FromCustomType(ctors) => {
            crate::qualify::push_constructors(&mut refs, ctors);
            assert(names_view(refs@) =~= crate::names::constructor_names(
                crate::exports::strings_view(ctors@),
            ));
        },
    }
    let no_ranges: Vec<Range<usize>> = Vec::new();
    assert(no_ranges@ =~= Seq::<Range<usize>>::empty());
    add_qualifier_to_references(
        refactor,
        module.buffer,
        &module.occurrences,
        &refs,
        &no_ranges,
        aliased_name(old_import),
    );
    Ok(())
}

} // verus!

verus! {

/// The replacements that insert at byte `pos` an import line for each of
/// `names` that is not imported implicitly and for which `known` lists
/// exports.
pub open spec fn import_insertions(
    buffer: Buffer,
    pos: usize,
    names: Seq<String>,
    known: Seq<(String, Vec<ExportedName>)>,
) -> Seq<SpecReplacement>
    decreases names.len(),
{
    if names.len() == 0 {
        seq![]
    } else {
        let rest = import_insertions(buffer, pos, names.drop_last(), known);
        let n = names.last()@;
        if !crate::imports::implicit_imports().contains(n)
            && crate::free_names::exports_from(known, n, 0).len() > 0 {
            rest.push((buffer, Range { start: pos, end: pos }, "import "@ + n + "\n"@))
        } else {
            rest
        }
    }
}

/// Follows the programmer typing a qualified name of a module that is not
/// imported: for each of `new_import_names` that is not imported implicitly
/// and that exports something, as `known` lists it, an `import` line is
/// added where imports go (see [`crate::imports::import_position`]; `nodes`
/// are the kinds and start bytes of the top-level nodes, `file_start` where
/// the file starts).
pub fn typed_unimported_qualified_value(
    module: &ModuleModel,
    nodes: &Vec<(u16, usize)>,
    file_start: usize,
    new_import_names: &Vec<String>,
    known: &Vec<(String, Vec<ExportedName>)>,
    refactor: &mut Refactor,
)
    ensures
        final(refactor).changes() == old(refactor).changes() + import_insertions(
            module.buffer,
            crate::imports::spec_import_position(nodes@, file_start),
            new_import_names@,
            known@,
        ),
        final(refactor).files_to_open() == old(refactor).files_to_open(),
        final(refactor).what() == old(refactor).what(),
{
    let pos = crate::imports::import_position(nodes, file_start);
    let ghost start = refactor.changes();
    let names = new_import_names;
    let mut i: usize = 0;
    assert(names@.take(0) =~= Seq::<String>::empty());
    assert(start + import_insertions(module.buffer, pos, names@.take(0), known@) =~= start);
    while i < names.len()
        invariant
            i <= names@.len(),
            pos == crate::imports::spec_import_position(nodes@, file_start),
            refactor.changes() == start + import_insertions(
                module.buffer,
                pos,
                names@.take(i as int),
                known@,
            ),
            refactor.files_to_open() == old(refactor).files_to_open(),
            refactor.what() == old(refactor).what(),
        decreases names.len() - i,
    {
        assert(names@.take(i + 1).drop_last() =~= names@.take(i as int));
        assert(names@.take(i + 1).last() == names@[i as int]);
        let name = names[i].as_str();
        let exports_something = match crate::free_names::exports_of(known, name) {
            Some(v) => v.len() > 0,
            None => false,
        };
        if !crate::imports::is_implicit_import(name) && exports_something {
            let line = String::from_str("import ").concat(name).concat("\n");
            refactor.add_change(module.buffer, pos..pos, line);
            assert(refactor.changes() =~= start + import_insertions(
                module.buffer,
                pos,
                names@.take(i + 1),
                known@,
            ));
        }
        i = i + 1;
    }
    assert(names@.take(names@.len() as int) =~= names@);
}

} // verus!

verus! {

/// Whether each `as` clause among the imports of `module` has a byte before
/// it (the space that separates it from the module name).
pub open spec fn as_clauses_follow_names(module: ModuleModel) -> bool {
    forall|k: int|
        0 <= k < module.imports@.len() ==> ((#[trigger] module.imports@[k]).as_clause matches Some(
            c,
        ) ==> c.0.start >= 1)
}

/// The replacement that makes the import `imp` qualified by `new_q`: an
/// `as` clause naming the module itself is removed with the space before
/// it; another gets `new_q` as its alias; without one, ` as new_q` is added
/// after the module name.
pub open spec fn requalify_import(buffer: Buffer, imp: Import, new_q: Seq<char>) -> SpecReplacement {
    match imp.as_clause {
        Some((clause, alias)) => if imp.module_name@ == new_q {
            (buffer, Range { start: (clause.start - 1) as usize, end: clause.end }, Seq::<char>::empty())
        } else {
            (buffer, alias, new_q)
        },
        None => (buffer, Range { start: imp.name_end, end: imp.name_end }, " as "@ + new_q),
    }
}

/// Follows the programmer changing the qualifier of a qualified name from
/// `old_qualifier` to `new_qualifier`: the import qualified by the old one
/// is made qualified by the new one, and so are all its other uses (see
/// [`changed_as_clause`]). An error when no import is qualified by the old
/// qualifier.
pub fn changed_module_qualifier(
    module: &ModuleModel,
    old_qualifier: &str,
    new_qualifier: &str,
    refactor: &mut Refactor,
) -> (r: Result<(), Error>)
    requires
        as_clauses_follow_names(*module),
        qualifiers_fit(*module, text_bytes(old_qualifier@)),
    ensures
        match crate::module_model::first_import_from(module.imports@, old_qualifier@, 0) {
            Some(k) => {
                &&& r is Ok
                &&& final(refactor).changes() == old(refactor).changes().push(
                    requalify_import(module.buffer, module.imports@[k], new_qualifier@),
                ) + requalify_replacements(
                    module.buffer,
                    module.qualified@,
                    old_qualifier@,
                    new_qualifier@,
                )
                &&& final(refactor).files_to_open() == old(refactor).files_to_open()
                &&& final(refactor).what() == old(refactor).what()
            },
            None => r is Err,
        },
{
    let import = crate::module_model::find_import(module, old_qualifier)?;
    proof {
        reveal_strlit("");
        reveal_strlit(" as ");
        assert(""@ =~= Seq::<char>::empty());
        let k = crate::module_model::first_import_from(module.imports@, old_qualifier@, 0)->Some_0;
        lemma_first_import_in_range(module.imports@, old_qualifier@, 0);
        assert(module.imports@[k] == *import);
    }
    match &import.as_clause {
        Some((clause, alias)) => {
            if crate::text::same_text(import.module_name.as_str(), new_qualifier) {
                refactor.add_change(module.buffer, clause.start - 1..clause.end, String::from_str(""));
            } else {
                refactor.add_change(module.buffer, alias.start..alias.end, String::from_str(new_qualifier));
            }
        },
        None => {
            let text = String::from_str(" as ").concat(new_qualifier);
            refactor.add_change(module.buffer, import.name_end..import.name_end, text);
        },
    }
    changed_as_clause(module, old_qualifier, new_qualifier, refactor);
    Ok(())
}

/// The import found for a qualifier is one of the imports.
proof fn lemma_first_import_in_range(imports: Seq<Import>, q: Seq<char>, i: int)
    ensures
        crate::module_model::first_import_from(imports, q, i) matches Some(k) ==> i <= k
            < imports.len() && spec_aliased_name(imports[k]) == q,
    decreases imports.len() - i,
{
    if 0 <= i < imports.len() && spec_aliased_name(imports[i]) != q {
        lemma_first_import_in_range(imports, q, i + 1);
    }
}

} // verus!

verus! {

/// The name an exposing list entry exposes; `None` for `..`.
pub open spec fn entry_name(e: crate::names::SpecExposedName) -> Option<Seq<char>> {
    match e {
        crate::names::SpecExposedName::Operator { name } => Some(name),
        crate::names::SpecExposedName::Value { name } => Some(name),
        crate::names::SpecExposedName::Type { name, .. } => Some(name),
        crate::names::SpecExposedName::All => None,
    }
}

/// Where the walk over the exposing list of `imp` from entry `i` on puts
/// `insert` (written for the name `target`; `with_constructors` when it is
/// a type exposing its constructors): `Some` of the replacements once an
/// entry decides, `None` when every entry comes before it. `..` exposes it
/// already; an entry of the same name only gets `(..)` when it needs it and
/// lacks it; `insert` goes before the first entry whose name comes after
/// `target`.
pub open spec fn exposing_walk(
    buffer: Buffer,
    imp: Import,
    target: Seq<char>,
    insert: Seq<char>,
    with_constructors: bool,
    i: int,
) -> Option<Seq<SpecReplacement>>
    decreases imp.exposing@.len() - i,
{
    if i < 0 || i >= imp.exposing@.len() {
        None
    } else {
        let e = imp.exposing@[i];
        match entry_name(e.exposed@) {
            None => Some(seq![]),
            Some(n) => if n == target {
                if with_constructors && e.constructors_range is None {
                    Some(
                        seq![
                            (
                                buffer,
                                Range { start: e.range.end, end: e.range.end },
                                seq!['(', '.', '.', ')'],
                            ),
                        ],
                    )
                } else {
                    Some(seq![])
                }
            } else if crate::text::text_lt(target, n) {
                Some(
                    seq![
                        (
                            buffer,
                            Range { start: e.range.start, end: e.range.start },
                            insert + seq![',', ' '],
                        ),
                    ],
                )
            } else {
                exposing_walk(buffer, imp, target, insert, with_constructors, i + 1)
            },
        }
    }
}

/// The replacements that add `insert` to the exposing list of `imp` (see
/// [`exposing_walk`]): after the last entry when all come before it, or as a
/// new exposing list after the import when it has none.
pub open spec fn spec_add_to_exposing_list(
    buffer: Buffer,
    imp: Import,
    target: Seq<char>,
    insert: Seq<char>,
    with_constructors: bool,
) -> Seq<SpecReplacement> {
    match exposing_walk(buffer, imp, target, insert, with_constructors, 0) {
        Some(c) => c,
        None => if imp.exposing@.len() == 0 {
            seq![
                (
                    buffer,
                    Range { start: imp.end, end: imp.end },
                    " exposing ("@ + insert + seq![')'],
                ),
            ]
        } else {
            let last = imp.exposing@.last();
            seq![
                (
                    buffer,
                    Range { start: last.range.end, end: last.range.end },
                    seq![',', ' '] + insert,
                ),
            ]
        },
    }
}

/// Adds `insert` to the exposing list of `import` (see
/// [`spec_add_to_exposing_list`]).
fn add_to_exposing_list(
    refactor: &mut Refactor,
    buffer: Buffer,
    import: &Import,
    target: &str,
    insert: &str,
    with_constructors: bool,
)
    ensures
        final(refactor).changes() == old(refactor).changes() + spec_add_to_exposing_list(
            buffer,
            *import,
            target@,
            insert@,
            with_constructors,
        ),
        final(refactor).files_to_open() == old(refactor).files_to_open(),
        final(refactor).what() == old(refactor).what(),
{
    proof {
        reveal_strlit("(..)");
        reveal_strlit(", ");
        reveal_strlit(" exposing (");
        reveal_strlit(")");
        assert("(..)"@ =~= seq!['(', '.', '.', ')']);
        assert(", "@ =~= seq![',', ' ']);
        assert(")"@ =~= seq![')']);
    }
    let ghost start = refactor.changes();
    let entries = &import.exposing;
    let mut i: usize = 0;
    while i < entries.len()
        invariant
            i <= entries@.len(),
            entries == &import.exposing,
            refactor.changes() == start,
            start == old(refactor).changes(),
            refactor.files_to_open() == old(refactor).files_to_open(),
            refactor.what() == old(refactor).what(),
            exposing_walk(buffer, *import, target@, insert@, with_constructors, 0) == exposing_walk(
                buffer,
                *import,
                target@,
                insert@,
                with_constructors,
                i as int,
            ),
        decreases entries.len() - i,
    {
        proof {
            reveal_strlit("(..)");
            reveal_strlit(", ");
            assert("(..)"@ =~= seq!['(', '.', '.', ')']);
            assert(", "@ =~= seq![',', ' ']);
        }
        let e = &entries[i];
        let name = match &e.exposed {
            ExposedName::Operator { name } => name.as_str(),
            ExposedName::Value { name } => name.as_str(),
            ExposedName::Type { name, .. } => name.as_str(),
            ExposedName::All => {
                assert(refactor.changes() =~= start + seq![]);
                return ;
            },
        };
        if crate::text::same_text(target, name) {
            if with_constructors && e.constructors_range.is_none() {
                let at = e.range.end;
                refactor.add_change(buffer, at..at, String::from_str("(..)"));
            }
            assert(refactor.changes() =~= start + spec_add_to_exposing_list(
                buffer,
                *import,
                target@,
                insert@,
                with_constructors,
            ));
            return ;
        }
        if crate::text::text_less(target, name) {
            let at = e.range.start;
            refactor.add_change(buffer, at..at, String::from_str(insert).concat(", "));
            assert(refactor.changes() =~= start + spec_add_to_exposing_list(
                buffer,
                *import,
                target@,
                insert@,
                with_constructors,
            ));
            return ;
        }
        i = i + 1;
    }
    if entries.len() == 0 {
        let text = String::from_str(" exposing (").concat(insert).concat(")");
        refactor.add_change(buffer, import.end..import.end, text);
    } else {
        let at = entries[entries.len() - 1].range.end;
        refactor.add_change(buffer, at..at, String::from_str(", ").concat(insert));
    }
    assert(refactor.changes() =~= start + spec_add_to_exposing_list(
        buffer,
        *import,
        target@,
        insert@,
        with_constructors,
    ));
}

} // verus!

verus! {

/// The index of the first of the exports `es`, from index `i` on, that
/// provides the constructor `c`: a record type alias named `c`, or a custom
/// type with a constructor `c`.
pub open spec fn constructor_export(es: Seq<ExportedName>, c: Seq<char>, i: int) -> Option<int>
    decreases es.len() - i,
{
    if i < 0 || i >= es.len() {
        None
    } else {
        match es[i] {
            ExportedName::RecordTypeAlias { name } => if name@ == c {
                Some(i)
            } else {
                constructor_export(es, c, i + 1)
            },
            ExportedName::Type { constructors, .. } => if crate::exports::strings_view(
                constructors@,
            ).contains(c) {
                Some(i)
            } else {
                constructor_export(es, c, i + 1)
            },
            ExportedName::Value { .. } => constructor_export(es, c, i + 1),
        }
    }
}

/// What removing the qualifier from `name`, exported by the module of `imp`
/// as `es` says, adds to the exposing list of `imp`, and the names whose
/// uses then lose the qualifier: for a constructor of a record type alias,
/// the alias as a type and its constructor; for a constructor of a custom
/// type, the type with `(..)` and all its constructors; for anything else,
/// the name itself. A constructor that no export provides changes nothing.
pub open spec fn unqualify_plan(
    buffer: Buffer,
    imp: Import,
    es: Seq<ExportedName>,
    name: (Seq<char>, NameKind),
) -> (Seq<SpecReplacement>, Seq<(Seq<char>, NameKind)>) {
    if name.1 == NameKind::Constructor {
        match constructor_export(es, name.0, 0) {
            None => (seq![], seq![]),
            Some(k) => match es[k] {
                ExportedName::RecordTypeAlias { name: n } => (
                    spec_add_to_exposing_list(buffer, imp, name.0, name.0, false),
                    seq![(n@, NameKind::Constructor)],
                ),
                ExportedName::Type { name: t, constructors } => (
                    spec_add_to_exposing_list(
                        buffer,
                        imp,
                        t@,
                        t@ + seq!['(', '.', '.', ')'],
                        true,
                    ),
                    crate::names::constructor_names(crate::exports::strings_view(constructors@))
                        + seq![name],
                ),
                ExportedName::Value { .. } => (seq![], seq![]),
            },
        }
    } else {
        (spec_add_to_exposing_list(buffer, imp, name.0, name.0, false), seq![name])
    }
}

/// What removing the qualifier `qualifier` from the qualified use of `name`
/// covering the bytes `node` adds: `Err` when no import is qualified by it;
/// else the additions to that import's exposing list, then the removal of
/// the qualifier from the uses of the names [`unqualify_plan`] gives, the
/// module of the import exporting `es`.
pub open spec fn spec_removed_qualifier(
    module: ModuleModel,
    known: Seq<(String, Vec<ExportedName>)>,
    es: Seq<ExportedName>,
    qualifier: Seq<char>,
    name: (Seq<char>, NameKind),
    node: Range<usize>,
) -> Result<Seq<SpecReplacement>, ()> {
    match crate::module_model::first_import_from(module.imports@, qualifier, 0) {
        None => Err(()),
        Some(k) => {
            let (c1, refs) = unqualify_plan(module.buffer, module.imports@[k], es, name);
            match spec_remove_qualifier(
                module,
                known,
                qualifier,
                distinct_not_in(refs, seq![]),
                seq![node],
            ) {
                Err(()) => Err(()),
                Ok(c2) => Ok(c1 + c2),
            }
        },
    }
}

/// Follows the programmer removing the qualifier `qualifier` from the use
/// of `name` that covers the bytes `node`: the name joins the exposing list
/// of the import qualified by `qualifier` (its module exporting `exports`),
/// and its uses lose the qualifier (see [`spec_removed_qualifier`]).
pub fn removed_module_qualifier_from_name(
    module: &ModuleModel,
    known: &Vec<(String, Vec<ExportedName>)>,
    exports: &Vec<ExportedName>,
    qualifier: &str,
    name: &Name,
    node: &Range<usize>,
    refactor: &mut Refactor,
) -> (r: Result<(), Error>)
    requires
        module.occurrences@.len() + 3 <= usize::MAX,
        qualifiers_fit(*module, text_bytes(qualifier@)),
    ensures
        match spec_removed_qualifier(*module, known@, exports@, qualifier@, name@, *node) {
            Ok(c) => {
                &&& r is Ok
                &&& final(refactor).changes() == old(refactor).changes() + c
                &&& final(refactor).files_to_open() == old(refactor).files_to_open()
                &&& final(refactor).what() == old(refactor).what()
            },
            Err(()) => r is Err,
        },
{
    let import = crate::module_model::find_import(module, qualifier)?;
    let ghost start = refactor.changes();
    let ghost k = crate::module_model::first_import_from(module.imports@, qualifier@, 0)->Some_0;
    let mut refs: Vec<Name> = Vec::new();
    proof {
        reveal_strlit("(..)");
        assert("(..)"@ =~= seq!['(', '.', '.', ')']);
    }
    if name.kind == NameKind::Constructor {
        let mut i: usize = 0;
        let mut done = false;
        while i < exports.len() && !done
            invariant
                i <= exports@.len(),
                name.kind == NameKind::Constructor,
                *import == module.imports@[k],
                start == old(refactor).changes(),
                "(..)"@ == seq!['(', '.', '.', ')'],
                !done ==> refactor.changes() == start && names_view(refs@) == Seq::<
                    (Seq<char>, NameKind),
                >::empty() && constructor_export(exports@, name.name@, 0) == constructor_export(
                    exports@,
                    name.name@,
                    i as int,
                ),
                done ==> refactor.changes() == start + unqualify_plan(
                    module.buffer,
                    *import,
                    exports@,
                    name@,
                ).0 && names_view(refs@) == unqualify_plan(module.buffer, *import, exports@, name@).1,
                refactor.files_to_open() == old(refactor).files_to_open(),
                refactor.what() == old(refactor).what(),
            decreases exports.len() - i,
        {
            match &exports[i] {
                ExportedName::Value { .. } => {},
                ExportedName::RecordTypeAlias { name: alias } => {
                    if crate::text::same_text(alias.as_str(), name.name.as_str()) {
                        assert(constructor_export(exports@, name.name@, i as int) == Some(i as int));
                        refs.push(Name::new(alias.as_str(), NameKind::Constructor));
                        assert(names_view(refs@) =~= seq![(alias@, NameKind::Constructor)]);
                        add_to_exposing_list(
                            refactor,
                            module.buffer,
                            import,
                            name.name.as_str(),
                            name.name.as_str(),
                            false,
                        );
                        done = true;
                    }
                },
                ExportedName::Type { name: t, constructors } => {
                    if crate::qualify::contains_text(constructors, name.name.as_str()) {
                        assert(constructor_export(exports@, name.name@, i as int) == Some(i as int));
                        crate::qualify::push_constructors(&mut refs, constructors);
                        let with = String::from_str(t.as_str()).concat("(..)");
                        add_to_exposing_list(
                            refactor,
                            module.buffer,
                            import,
                            t.as_str(),
                            with.as_str(),
                            true,
                        );
                        let ghost before = names_view(refs@);
                        refs.push(name.copy());
                        assert(names_view(refs@) =~= before.push(name@));
                        assert(names_view(refs@) =~= unqualify_plan(
                            module.buffer,
                            *import,
                            exports@,
                            name@,
                        ).1);
                        done = true;
                    }
                },
            }
            i = i + 1;
        }
        proof {
            if !done {
                assert(constructor_export(exports@, name.name@, i as int) is None);
                assert(refactor.changes() =~= start + Seq::<SpecReplacement>::empty());
            }
        }
    } else {
        add_to_exposing_list(
            refactor,
            module.buffer,
            import,
            name.name.as_str(),
            name.name.as_str(),
            false,
        );
        refs.push(name.copy());
        assert(names_view(refs@) =~= seq![name@]);
    }
    let ghost c1 = refactor.changes();
    let none: Vec<Name> = Vec::new();
    assert(names_view(none@) =~= Seq::<(Seq<char>, NameKind)>::empty());
    let names = names_not_in(&refs, &none);
    let skip = vec![node.start..node.end];
    assert(skip@ =~= seq![*node]);
    remove_qualifier_from_references(module, known, refactor, qualifier, &names, &skip)?;
    proof {
        let a = c1.subrange(start.len() as int, c1.len() as int);
        let b = refactor.changes().subrange(c1.len() as int, refactor.changes().len() as int);
        assert(c1 =~= start + a);
        assert(refactor.changes() =~= start + (a + b));
    }
    Ok(())
}

} // verus!

verus! {

/// Changing the qualifier of an import that has an `as` clause to anything
/// but the module's own name replaces exactly the alias by the new
/// qualifier, so the `as` keyword stays; changing it to the module's own
/// name removes the clause together with the space before it; an import
/// without an `as` clause gets ` as ` and the new qualifier right after the
/// module's name, replacing nothing.
pub proof fn lemma_requalify_import(buffer: Buffer, imp: Import, new_q: Seq<char>)
    ensures
        imp.as_clause is Some && imp.module_name@ != new_q ==> {
            let (clause, alias) = imp.as_clause->Some_0;
            let (b, range, text) = requalify_import(buffer, imp, new_q);
            &&& b == buffer
            &&& range == alias
            &&& text == new_q
        },
        imp.as_clause is Some && imp.module_name@ == new_q ==> {
            let (clause, alias) = imp.as_clause->Some_0;
            let (b, range, text) = requalify_import(buffer, imp, new_q);
            &&& b == buffer
            &&& range.start + 1 == clause.start || clause.start == 0
            &&& range.end == clause.end
            &&& text.len() == 0
        },
        imp.as_clause is None ==> {
            let (b, range, text) = requalify_import(buffer, imp, new_q);
            &&& b == buffer
            &&& range.start == imp.name_end && range.end == imp.name_end
            &&& text == seq![' ', 'a', 's', ' '] + new_q
        },
{
    reveal_strlit(" as ");
    assert(" as "@ =~= seq![' ', 'a', 's', ' ']);
}

/// The names between which `insert` goes do not decide the text when the
/// import has no exposing list: a complete one is added right after the
/// import, ` exposing (`, the text `insert` and a closing `)`.
pub proof fn lemma_add_to_missing_exposing_list(
    buffer: Buffer,
    imp: Import,
    target: Seq<char>,
    insert: Seq<char>,
    with_constructors: bool,
)
    requires
        imp.exposing@.len() == 0,
    ensures
        spec_add_to_exposing_list(buffer, imp, target, insert, with_constructors) == seq![
            (
                buffer,
                Range { start: imp.end, end: imp.end },
                seq![' ', 'e', 'x', 'p', 'o', 's', 'i', 'n', 'g', ' ', '('] + insert + seq![')'],
            ),
        ],
{
    reveal_strlit(" exposing (");
    assert(" exposing ("@ =~= seq![' ', 'e', 'x', 'p', 'o', 's', 'i', 'n', 'g', ' ', '(']);
}

/// When every entry of an exposing list names something that comes before
/// `target`, the walk over it decides nothing.
proof fn lemma_walk_falls_through(
    buffer: Buffer,
    imp: Import,
    target: Seq<char>,
    insert: Seq<char>,
    with_constructors: bool,
    i: int,
)
    requires
        0 <= i,
        forall|k: int|
            i <= k < imp.exposing@.len() ==> (#[trigger] entry_name(imp.exposing@[k].exposed@)
                matches Some(n) && n != target && !crate::text::text_lt(target, n)),
    ensures
        exposing_walk(buffer, imp, target, insert, with_constructors, i) is None,
    decreases imp.exposing@.len() - i,
{
    if i < imp.exposing@.len() {
        assert(entry_name(imp.exposing@[i].exposed@) is Some);
        lemma_walk_falls_through(buffer, imp, target, insert, with_constructors, i + 1);
    }
}

/// Adding a name that comes after every name of a non-empty exposing list
/// without `..` appends `, ` and the text `insert` right after the last
/// entry; a list whose first entry is `..` already exposes everything and
/// gets nothing added.
pub proof fn lemma_add_after_last_entry(
    buffer: Buffer,
    imp: Import,
    target: Seq<char>,
    insert: Seq<char>,
    with_constructors: bool,
)
    ensures
        imp.exposing@.len() > 0 && (forall|k: int|
            0 <= k < imp.exposing@.len() ==> (#[trigger] entry_name(imp.exposing@[k].exposed@)
                matches Some(n) && n != target && !crate::text::text_lt(target, n))) ==> {
            let last = imp.exposing@.last();
            spec_add_to_exposing_list(buffer, imp, target, insert, with_constructors) == seq![
                (
                    buffer,
                    Range { start: last.range.end, end: last.range.end },
                    seq![',', ' '] + insert,
                ),
            ]
        },
        imp.exposing@.len() > 0 && imp.exposing@[0].exposed@ is All ==> spec_add_to_exposing_list(
            buffer,
            imp,
            target,
            insert,
            with_constructors,
        ) == Seq::<SpecReplacement>::empty(),
{
    if imp.exposing@.len() > 0 && (forall|k: int|
        0 <= k < imp.exposing@.len() ==> (#[trigger] entry_name(imp.exposing@[k].exposed@)
            matches Some(n) && n != target && !crate::text::text_lt(target, n))) {
        lemma_walk_falls_through(buffer, imp, target, insert, with_constructors, 0);
    }
}

} // verus!

verus! {

/// A name that comes before the first entry of an exposing list goes in
/// front of that entry, followed by `, `.
pub proof fn lemma_add_before_first_entry(
    buffer: Buffer,
    imp: Import,
    target: Seq<char>,
    insert: Seq<char>,
    with_constructors: bool,
)
    ensures
        imp.exposing@.len() > 0 && entry_name(imp.exposing@[0].exposed@) is Some && entry_name(
            imp.exposing@[0].exposed@,
        )->Some_0 != target && crate::text::text_lt(
            target,
            entry_name(imp.exposing@[0].exposed@)->Some_0,
        ) ==> spec_add_to_exposing_list(
            buffer,
            imp,
            target,
            insert,
            with_constructors,
        ) == seq![
            (
                buffer,
                Range { start: imp.exposing@[0].range.start, end: imp.exposing@[0].range.start },
                insert + seq![',', ' '],
            ),
        ],
{
}

/// Every use qualified by the old qualifier gets a replacement of that
/// qualifier and its dot by the new qualifier and a dot, starting where the
/// use starts; uses qualified otherwise get none.
pub proof fn lemma_requalify_covers_every_use(
    buffer: Buffer,
    qs: Seq<(Range<usize>, String, Name)>,
    old_q: Seq<char>,
    new_q: Seq<char>,
    k: int,
)
    requires
        0 <= k < qs.len(),
        qs[k].1@ == old_q,
    ensures
        requalify_replacements(buffer, qs, old_q, new_q).contains(
            (
                buffer,
                Range {
                    start: qs[k].0.start,
                    end: (qs[k].0.start + text_bytes(old_q) + 1) as usize,
                },
                new_q + seq!['.'],
            ),
        ),
    decreases qs.len(),
{
    let rest = requalify_replacements(buffer, qs.drop_last(), old_q, new_q);
    let x = (
        buffer,
        Range { start: qs[k].0.start, end: (qs[k].0.start + text_bytes(old_q) + 1) as usize },
        new_q + seq!['.'],
    );
    if k == qs.len() - 1 {
        assert(rest.push(x)[rest.len() as int] == x);
    } else {
        assert(qs.drop_last()[k] == qs[k]);
        lemma_requalify_covers_every_use(buffer, qs.drop_last(), old_q, new_q, k);
        let i = choose|i: int| 0 <= i < rest.len() && rest[i] == x;
        if qs.last().1@ == old_q {
            let y = (
                buffer,
                Range {
                    start: qs.last().0.start,
                    end: (qs.last().0.start + text_bytes(old_q) + 1) as usize,
                },
                new_q + seq!['.'],
            );
            assert(rest.push(y)[i] == x);
        }
    }
}

} // verus!
