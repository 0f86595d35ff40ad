//! The refactor that follows the programmer renaming a name where it is
//! defined: every use of the old name in the scope of the definition gets
//! the new name, and so do the uses in other modules when the module
//! exports it. Names that the new name would clash with are freed first.
use vstd::prelude::*;
use core::ops::Range;
use crate::error::{Error, mk_err};
use crate::exports::{exports_view, ExportedName, SpecExportedName};
use crate::free_names::{free_names, rename_view, spec_free_names};
use crate::kinds::{RECORD_PATTERN, RECORD_TYPE};
use crate::module_model::{
    aliased_name, module_exports, spec_aliased_name, spec_module_exports, Import, ModuleModel,
};
use crate::names::{ExposedName, Name, NameKind, SpecExposedName, names_view};
use crate::refactor::{Refactor, SpecReplacement};
use crate::renaming::{
    innermost_scope, is_innermost, lemma_innermost_unique, range_has, rename,
    rename_replacements, spec_innermost,
};
use crate::text::same_text;

verus! {

/// How a rename is carried out, by what was renamed.
#[derive(Clone, Copy, Debug, PartialEq, Eq, Structural)]
pub enum RenameKind {
    /// A field name in a record pattern: that would need the record type
    /// and its other uses changed too, which is not done.
    RecordFieldPattern,
    /// A record type alias: the name is both a type and a constructor.
    RecordTypeAlias,
    /// Any other name.
    AnyOther,
}

/// The kind of rename for a renamed node of kind `node_kind`, whose parent
/// has kind `parent_kind` and whose aliased type expression, for a type
/// alias, starts with a part of kind `aliased_part_kind`.
pub open spec fn spec_rename_kind(parent_kind: Option<u16>, node_kind: u16, aliased_part_kind: Option<u16>) -> RenameKind {
    let pattern_kind = match parent_kind {
        Some(k) => k,
        None => node_kind,
    };
    let alias_kind = match aliased_part_kind {
        Some(k) => k,
        None => node_kind,
    };
    if pattern_kind == RECORD_PATTERN {
        RenameKind::RecordFieldPattern
    } else if alias_kind == RECORD_TYPE {
        RenameKind::RecordTypeAlias
    } else {
        RenameKind::AnyOther
    }
}

/// The kind of rename for a renamed node, from the kinds around it.
pub fn rename_kind(parent_kind: Option<u16>, node_kind: u16, aliased_part_kind: Option<u16>) -> (r:
    RenameKind)
    ensures
        r == spec_rename_kind(parent_kind, node_kind, aliased_part_kind),
{
    let pattern_kind = match parent_kind {
        Some(k) => k,
        None => node_kind,
    };
    let alias_kind = match aliased_part_kind {
        Some(k) => k,
        None => node_kind,
    };
    if pattern_kind == RECORD_PATTERN {
        RenameKind::RecordFieldPattern
    } else if alias_kind == RECORD_TYPE {
        RenameKind::RecordTypeAlias
    } else {
        RenameKind::AnyOther
    }
}

/// The texts of a list of strings.
pub open spec fn texts(v: Seq<String>) -> Seq<Seq<char>> {
    v.map_values(|s: String| s@)
}

/// The files among `dependents` that are not among `open`, in order.
pub open spec fn files_needed(dependents: Seq<String>, open: Seq<String>) -> Seq<Seq<char>>
    decreases dependents.len(),
{
    if dependents.len() == 0 {
        seq![]
    } else {
        let rest = files_needed(dependents.drop_last(), open);
        if texts(open).contains(dependents.last()@) {
            rest
        } else {
            rest.push(dependents.last()@)
        }
    }
}

/// Whether `t` is among `v`.
fn contains_text(v: &Vec<String>, t: &str) -> (r: bool)
    ensures
        r == texts(v@).contains(t@),
{
    let mut i: usize = 0;
    while i < v.len()
        invariant
            i <= v@.len(),
            forall|j: int| 0 <= j < i ==> v@[j]@ != t@,
        decreases v.len() - i,
    {
        if same_text(v[i].as_str(), t) {
            assert(texts(v@)[i as int] == t@);
            return true;
        }
        i = i + 1;
    }
    proof {
        if texts(v@).contains(t@) {
            let j = choose|j: int| 0 <= j < texts(v@).len() && texts(v@)[j] == t@;
            assert(v@[j]@ == t@);
        }
    }
    false
}

/// The files among `dependents` that are not among `open`.
fn missing_files(dependents: &Vec<String>, open: &Vec<String>) -> (r: Vec<String>)
    ensures
        texts(r@) == files_needed(dependents@, open@),
{
    let mut r: Vec<String> = Vec::new();
    let mut i: usize = 0;
    assert(dependents@.take(0) =~= Seq::<String>::empty());
    assert(texts(r@) =~= files_needed(dependents@.take(0), open@));
    while i < dependents.len()
        invariant
            i <= dependents@.len(),
            texts(r@) == files_needed(dependents@.take(i as int), open@),
        decreases dependents.len() - i,
    {
        assert(dependents@.take(i + 1).drop_last() =~= dependents@.take(i as int));
        assert(dependents@.take(i + 1).last() == dependents@[i as int]);
        if !contains_text(open, dependents[i].as_str()) {
            let ghost before = r@;
            r.push(dependents[i].clone());
            assert(texts(r@) =~= texts(before).push(dependents@[i as int]@));
        }
        i = i + 1;
    }
    assert(dependents@.take(dependents@.len() as int) =~= dependents@);
    r
}

/// Whether the export `e` is the one the name `old` refers to.
pub open spec fn export_matches(old: (Seq<char>, NameKind), e: SpecExportedName) -> bool {
    match (old.1, e) {
        (NameKind::Value, SpecExportedName::Value { name }) => name == old.0,
        (NameKind::Type, SpecExportedName::Type { name, .. }) => name == old.0,
        (NameKind::Constructor, SpecExportedName::Type { constructors, .. }) => constructors.contains(
            old.0,
        ),
        (NameKind::Type, SpecExportedName::RecordTypeAlias { name }) => name == old.0,
        (NameKind::Constructor, SpecExportedName::RecordTypeAlias { name }) => name == old.0,
        _ => false,
    }
}

/// The first of the exports `es` from index `i` on that `old` refers to.
pub open spec fn exported_from(old: (Seq<char>, NameKind), es: Seq<SpecExportedName>, i: int) -> Option<
    SpecExportedName,
>
    decreases es.len() - i,
{
    if i < 0 || i >= es.len() {
        None
    } else if export_matches(old, es[i]) {
        Some(es[i])
    } else {
        exported_from(old, es, i + 1)
    }
}

/// The first of the exports `es` that `old` refers to.
fn find_exported<'a>(old: &Name, es: &'a Vec<ExportedName>) -> (r: Option<&'a ExportedName>)
    ensures
        match r {
            Some(e) => exported_from(old@, exports_view(es@), 0) == Some(e@),
            None => exported_from(old@, exports_view(es@), 0) is None,
        },
{
    let mut i: usize = 0;
    while i < es.len()
        invariant
            i <= es@.len(),
            exported_from(old@, exports_view(es@), 0) == exported_from(
                old@,
                exports_view(es@),
                i as int,
            ),
        decreases es.len() - i,
    {
        let hit = match (old.kind, &es[i]) {
            (NameKind::Value, ExportedName::Value { name }) => same_text(name.as_str(), old.name.as_str()),
            (NameKind::Type, ExportedName::Type { name, .. }) => same_text(name.as_str(), old.name.as_str()),
            (NameKind::Constructor, ExportedName::Type { constructors, .. }) => contains_text(
                constructors,
                old.name.as_str(),
            ),
            (NameKind::Type, ExportedName::RecordTypeAlias { name }) => same_text(
                name.as_str(),
                old.name.as_str(),
            ),
            (NameKind::Constructor, ExportedName::RecordTypeAlias { name }) => same_text(
                name.as_str(),
                old.name.as_str(),
            ),
            _ => false,
        };
        if hit {
            return Some(&es[i]);
        }
        i = i + 1;
    }
    None
}

/// Whether the entry `e` of an exposing list brings the name `old` into
/// scope, `old` referring to the export `exported`.
pub open spec fn entry_exposes_old(e: SpecExposedName, old: (Seq<char>, NameKind), exported: SpecExportedName) -> bool {
    match old.1 {
        NameKind::Value | NameKind::Operator => e is All || (e matches SpecExposedName::Value {
            name,
        } && name == old.0),
        NameKind::Type => e is All || (e matches SpecExposedName::Type { name, .. } && name
            == old.0),
        NameKind::Constructor => match exported {
            SpecExportedName::Type { name: exported_type, .. } => e is All || (e matches SpecExposedName::Type {
                name,
                exposing_constructors,
            } && exposing_constructors && name == exported_type),
            _ => false,
        },
    }
}

/// Whether the exposing list of `imp` brings `old` into scope.
pub open spec fn exposes_old(imp: Import, old: (Seq<char>, NameKind), exported: SpecExportedName) -> bool {
    exists|k: int|
        0 <= k < imp.exposing@.len() && entry_exposes_old(
            (#[trigger] imp.exposing@[k]).exposed@,
            old,
            exported,
        )
}

/// Whether the exposing list of `imp` brings `old` into scope.
fn import_exposes_old(imp: &Import, old: &Name, exported: &ExportedName) -> (r: bool)
    ensures
        r == exposes_old(*imp, old@, exported@),
{
    let mut k: usize = 0;
    while k < imp.exposing.len()
        invariant
            k <= imp.exposing@.len(),
            forall|j: int|
                0 <= j < k ==> !entry_exposes_old(
                    (#[trigger] imp.exposing@[j]).exposed@,
                    old@,
                    exported@,
                ),
        decreases imp.exposing.len() - k,
    {
        let e = &imp.exposing[k].exposed;
        let is_all = match e {
            ExposedName::All => true,
            _ => false,
        };
        let hit = match old.kind {
            NameKind::Value | NameKind::Operator => is_all || match e {
                ExposedName::Value { name } => same_text(name.as_str(), old.name.as_str()),
                _ => false,
            },
            NameKind::Type => is_all || match e {
                ExposedName::Type { name, .. } => same_text(name.as_str(), old.name.as_str()),
                _ => false,
            },
            NameKind::Constructor => match exported {
                ExportedName::Type { name: exported_type, .. } => is_all || match e {
                    ExposedName::Type { name, exposing_constructors } => *exposing_constructors
                        && same_text(name.as_str(), exported_type.as_str()),
                    _ => false,
                },
                _ => false,
            },
        };
        if hit {
            assert(entry_exposes_old(imp.exposing@[k as int].exposed@, old@, exported@));
            return true;
        }
        k = k + 1;
    }
    false
}

/// The index of the first of `imports` from index `i` on that imports the
/// module named `m`.
pub open spec fn import_of_module(imports: Seq<Import>, m: Seq<char>, i: int) -> Option<int>
    decreases imports.len() - i,
{
    if i < 0 || i >= imports.len() {
        None
    } else if imports[i].module_name@ == m {
        Some(i)
    } else {
        import_of_module(imports, m, i + 1)
    }
}

/// The first import in `module` of the module named `m`.
fn find_import_of_module<'a>(module: &'a ModuleModel, m: &str) -> (r: Option<&'a Import>)
    ensures
        match import_of_module(module.imports@, m@, 0) {
            Some(k) => r matches Some(imp) && *imp == module.imports@[k],
            None => r is None,
        },
{
    let mut i: usize = 0;
    while i < module.imports.len()
        invariant
            i <= module.imports@.len(),
            import_of_module(module.imports@, m@, 0) == import_of_module(
                module.imports@,
                m@,
                i as int,
            ),
        decreases module.imports.len() - i,
    {
        if same_text(module.imports[i].module_name.as_str(), m) {
            return Some(&module.imports[i]);
        }
        i = i + 1;
    }
    None
}

/// The replacements that rename the qualified uses `q.old` among `qs` to
/// `q.new_text`.
pub open spec fn qualified_renames(
    buffer: crate::editors::Buffer,
    qs: Seq<(Range<usize>, String, Name)>,
    q: Seq<char>,
    old: (Seq<char>, NameKind),
    new_text: Seq<char>,
) -> Seq<SpecReplacement>
    decreases qs.len(),
{
    if qs.len() == 0 {
        seq![]
    } else {
        let rest = qualified_renames(buffer, qs.drop_last(), q, old, new_text);
        let u = qs.last();
        if u.1@ == q && u.2@ == old {
            rest.push((buffer, u.0, q + seq!['.'] + new_text))
        } else {
            rest
        }
    }
}

/// Renames the uses of `from` qualified by `q` in `module` to `new_name`.
fn rename_qualified(refactor: &mut Refactor, module: &ModuleModel, q: &str, from: &Name, new_name: &Name)
    ensures
        final(refactor).changes() == old(refactor).changes() + qualified_renames(
            module.buffer,
            module.qualified@,
            q@,
            from@,
            new_name.name@,
        ),
        final(refactor).files_to_open() == old(refactor).files_to_open(),
        final(refactor).what() == old(refactor).what(),
{
    let qs = &module.qualified;
    let ghost start = refactor.changes();
    let mut i: usize = 0;
    assert(qs@.take(0) =~= Seq::<(Range<usize>, String, Name)>::empty());
    assert(start + qualified_renames(module.buffer, qs@.take(0), q@, from@, new_name.name@) =~= start);
    while i < qs.len()
        invariant
            i <= qs@.len(),
            qs == &module.qualified,
            refactor.changes() == start + qualified_renames(
                module.buffer,
                qs@.take(i as int),
                q@,
                from@,
                new_name.name@,
            ),
            refactor.files_to_open() == old(refactor).files_to_open(),
            refactor.what() == old(refactor).what(),
        decreases qs.len() - i,
    {
        assert(qs@.take(i + 1).drop_last() =~= qs@.take(i as int));
        assert(qs@.take(i + 1).last() == qs@[i as int]);
        if same_text(qs[i].1.as_str(), q) && qs[i].2.same(from) {
            let text = String::from_str(q).concat(".").concat(new_name.name.as_str());
            proof {
                reveal_strlit(".");
                assert("."@ =~= seq!['.']);
                assert(text@ =~= q@ + seq!['.'] + new_name.name@);
            }
            refactor.add_change(module.buffer, qs[i].0.start..qs[i].0.end, text);
            assert(refactor.changes() =~= start + qualified_renames(
                module.buffer,
                qs@.take(i + 1),
                q@,
                from@,
                new_name.name@,
            ));
        }
        i = i + 1;
    }
    assert(qs@.take(qs@.len() as int) =~= qs@);
}

/// What renaming `old` to `new` adds in the other module `o`, where the
/// module named `this` defines it and exports it as `exported`: when `o`
/// imports that module, the uses qualified by the import's qualifier are
/// renamed, and when the import also exposes the name, the new name is
/// freed in `o` and the unqualified uses are renamed too.
pub open spec fn other_changes(
    o: ModuleModel,
    this: Seq<char>,
    known: Seq<(String, Vec<ExportedName>)>,
    old: (Seq<char>, NameKind),
    new: (Seq<char>, NameKind),
    exported: SpecExportedName,
) -> Result<Seq<SpecReplacement>, ()> {
    match import_of_module(o.imports@, this, 0) {
        None => Ok(seq![]),
        Some(k) => {
            let imp = o.imports@[k];
            let c1 = qualified_renames(o.buffer, o.qualified@, spec_aliased_name(imp), old, new.0);
            if exposes_old(imp, old, exported) {
                match spec_free_names(o, known, seq![new], seq![], seq![]) {
                    Err(()) => Err(()),
                    Ok(c2) => Ok(
                        c1 + c2 + rename_replacements(
                            o.buffer,
                            rename_view(o.occurrences@),
                            old,
                            new.0,
                            seq![],
                            seq![],
                        ),
                    ),
                }
            } else {
                Ok(c1)
            }
        },
    }
}

/// What renaming `old` to `new` adds in the modules `others`, module after
/// module, or `Err` when freeing the new name fails in one.
pub open spec fn others_changes(
    others: Seq<ModuleModel>,
    this: Seq<char>,
    known: Seq<(String, Vec<ExportedName>)>,
    old: (Seq<char>, NameKind),
    new: (Seq<char>, NameKind),
    exported: SpecExportedName,
) -> Result<Seq<SpecReplacement>, ()>
    decreases others.len(),
{
    if others.len() == 0 {
        Ok(seq![])
    } else {
        match others_changes(others.drop_last(), this, known, old, new, exported) {
            Err(()) => Err(()),
            Ok(c) => match other_changes(others.last(), this, known, old, new, exported) {
                Err(()) => Err(()),
                Ok(c2) => Ok(c + c2),
            },
        }
    }
}

proof fn lemma_others_failure_stays(
    others: Seq<ModuleModel>,
    this: Seq<char>,
    known: Seq<(String, Vec<ExportedName>)>,
    old: (Seq<char>, NameKind),
    new: (Seq<char>, NameKind),
    exported: SpecExportedName,
    j: int,
)
    requires
        0 <= j <= others.len(),
        others_changes(others.take(j), this, known, old, new, exported) is Err,
    ensures
        others_changes(others, this, known, old, new, exported) is Err,
    decreases others.len() - j,
{
    if j == others.len() {
        assert(others.take(j) =~= others);
    } else {
        assert(others.take(j + 1).drop_last() =~= others.take(j));
        lemma_others_failure_stays(others, this, known, old, new, exported, j + 1);
    }
}

/// A list holding just `n`.
fn single(n: &Name) -> (r: Vec<Name>)
    ensures
        names_view(r@) == seq![n@],
{
    let r = vec![n.copy()];
    assert(names_view(r@) =~= seq![n@]);
    r
}

/// Renames `from` to `new` in the modules `others` (see [`other_changes`]).
fn rename_in_others(
    refactor: &mut Refactor,
    others: &Vec<ModuleModel>,
    this: &str,
    known: &Vec<(String, Vec<ExportedName>)>,
    from: &Name,
    new: &Name,
    exported: &ExportedName,
) -> (r: Result<(), Error>)
    requires
        forall|k: int| 0 <= k < others@.len() ==> (#[trigger] others@[k]).occurrences@.len() + 3 <= usize::MAX,
    ensures
        match others_changes(others@, this@, known@, from@, new@, exported@) {
            Ok(c) => {
                &&& r is Ok
                &&& final(refactor).changes() == old(refactor).changes() + c
                &&& final(refactor).files_to_open() == old(refactor).files_to_open()
                &&& final(refactor).what() == old(refactor).what()
            },
            Err(()) => r is Err,
        },
{
    let ghost start = refactor.changes();
    let no_ranges: Vec<Range<usize>> = Vec::new();
    let news = single(new);
    let mut i: usize = 0;
    assert(others@.take(0) =~= Seq::<ModuleModel>::empty());
    assert(start + seq![] =~= start);
    while i < others.len()
        invariant
            i <= others@.len(),
            start == old(refactor).changes(),
            no_ranges@ == Seq::<Range<usize>>::empty(),
            names_view(news@) == seq![new@],
            forall|k: int| 0 <= k < others@.len() ==> (#[trigger] others@[k]).occurrences@.len() + 3 <= usize::MAX,
            others_changes(others@.take(i as int), this@, known@, from@, new@, exported@) matches Ok(c)
                && refactor.changes() == start + c,
            refactor.files_to_open() == old(refactor).files_to_open(),
            refactor.what() == old(refactor).what(),
        decreases others.len() - i,
    {
        assert(others@.take(i + 1).drop_last() =~= others@.take(i as int));
        assert(others@.take(i + 1).last() == others@[i as int]);
        let ghost c_before = refactor.changes();
        let ghost acc = c_before.subrange(start.len() as int, c_before.len() as int);
        assert(c_before =~= start + acc);
        let o = &others[i];
        match find_import_of_module(o, this) {
            None => {
                assert(refactor.changes() =~= start + (acc + seq![]));
            },
            Some(imp) => {
                let q = aliased_name(imp);
                rename_qualified(refactor, o, q, from, new);
                let ghost c1_end = refactor.changes();
                if import_exposes_old(imp, from, exported) {
                    let res = free_names(o, known, refactor, &news, &no_ranges, &no_ranges);
                    if let Err(e) = res {
                        proof {
                            assert(other_changes(others@[i as int], this@, known@, from@, new@, exported@) is Err);
                            assert(others_changes(others@.take(i + 1), this@, known@, from@, new@, exported@) is Err);
                            lemma_others_failure_stays(others@, this@, known@, from@, new@, exported@, i + 1);
                        }
                        return Err(e);
                    }
                    rename(refactor, o.buffer, &crate::free_names::rename_targets(o), from, new, &no_ranges, &no_ranges);
                }
                proof {
                    let c2 = refactor.changes().subrange(c_before.len() as int, refactor.changes().len() as int);
                    assert(refactor.changes() =~= start + (acc + c2));
                }
            },
        }
        i = i + 1;
    }
    assert(others@.take(others@.len() as int) =~= others@);
    Ok(())
}

/// What renaming `old` to `new` at its definition, which covers the bytes
/// `def`, adds, once no files need opening: `Err` when no scope holds the
/// definition. In the innermost scope holding it:
/// - a field of a record pattern: nothing;
/// - a record type alias: its new name is freed as a constructor and as a
///   type, then its uses as a type and as a constructor are renamed;
/// - anything else: when the module exports it, its uses in the modules
///   `others` are renamed (see [`other_changes`]); then the new name is
///   freed and the uses are renamed.
pub open spec fn spec_changed_name(
    module: ModuleModel,
    others: Seq<ModuleModel>,
    known: Seq<(String, Vec<ExportedName>)>,
    old: (Seq<char>, NameKind),
    new: (Seq<char>, NameKind),
    def: Range<usize>,
    kind: RenameKind,
) -> Result<Seq<SpecReplacement>, ()> {
    let rv = rename_view(module.occurrences@);
    match spec_innermost(module.scopes@, def.start) {
        None => Err(()),
        Some(scope) => match kind {
            RenameKind::RecordFieldPattern => Ok(seq![]),
            RenameKind::RecordTypeAlias => match spec_free_names(
                module,
                known,
                seq![(new.0, NameKind::Constructor), (new.0, NameKind::Type)],
                seq![scope],
                seq![def],
            ) {
                Err(()) => Err(()),
                Ok(c) => Ok(
                    c + rename_replacements(
                        module.buffer,
                        rv,
                        (old.0, NameKind::Type),
                        new.0,
                        seq![scope],
                        seq![],
                    ) + rename_replacements(
                        module.buffer,
                        rv,
                        (old.0, NameKind::Constructor),
                        new.0,
                        seq![scope],
                        seq![],
                    ),
                ),
            },
            RenameKind::AnyOther => {
                let cross = match exported_from(
                    old,
                    spec_module_exports(
                        crate::module_model::declarations_view(module.declarations@),
                        crate::module_model::exposing_view(module.exposing@),
                    ),
                    0,
                ) {
                    None => Ok(seq![]),
                    Some(ex) => others_changes(others, module.name@, known, old, new, ex),
                };
                match cross {
                    Err(()) => Err(()),
                    Ok(c1) => match spec_free_names(module, known, seq![new], seq![scope], seq![def]) {
                        Err(()) => Err(()),
                        Ok(c2) => Ok(
                            c1 + c2 + rename_replacements(
                                module.buffer,
                                rv,
                                old,
                                new.0,
                                seq![scope],
                                seq![],
                            ),
                        ),
                    },
                }
            },
        },
    }
}

/// Follows the programmer renaming `old_name` to `new_name` at its
/// definition in `module`, which covers the bytes `definition`. Nothing is
/// done for an empty new name. When files that depend on the module
/// (`dependent_files`) are not open in the editor (`open_paths`), the
/// refactor only asks for them to be opened, to be redone once they are.
/// Otherwise the rename is carried out as [`spec_changed_name`] says, the
/// modules the module imports exporting what `known` lists for them.
pub fn changed_name(
    module: &ModuleModel,
    others: &Vec<ModuleModel>,
    known: &Vec<(String, Vec<ExportedName>)>,
    dependent_files: &Vec<String>,
    open_paths: &Vec<String>,
    old_name: &Name,
    new_name: &Name,
    definition: &Range<usize>,
    kind: RenameKind,
    refactor: &mut Refactor,
) -> (r: Result<(), Error>)
    requires
        module.occurrences@.len() + 3 <= usize::MAX,
        forall|k: int| 0 <= k < others@.len() ==> (#[trigger] others@[k]).occurrences@.len() + 3 <= usize::MAX,
    ensures
        if new_name.name@.len() == 0 {
            &&& r is Ok
            &&& final(refactor).changes() == old(refactor).changes()
            &&& final(refactor).files_to_open() == old(refactor).files_to_open()
            &&& final(refactor).what() == old(refactor).what()
        } else if files_needed(dependent_files@, open_paths@).len() > 0 {
            &&& r is Ok
            &&& final(refactor).changes() == old(refactor).changes()
            &&& final(refactor).files_to_open() == files_needed(dependent_files@, open_paths@)
            &&& final(refactor).what() == old(refactor).what()
        } else {
            match spec_changed_name(
                *module,
                others@,
                known@,
                old_name@,
                new_name@,
                *definition,
                kind,
            ) {
                Ok(c) => {
                    &&& r is Ok
                    &&& final(refactor).changes() == old(refactor).changes() + c
                    &&& final(refactor).files_to_open() == old(refactor).files_to_open()
                    &&& final(refactor).what() == old(refactor).what()
                },
                Err(()) => r is Err,
            }
        },
{
    if new_name.name.unicode_len() == 0 {
        return Ok(());
    }
    let found = innermost_scope(&module.scopes, definition.start);
    proof {
        match &found {
            Some(sc) => {
                let k = choose|k: int| is_innermost(module.scopes@, definition.start, k)
                    && module.scopes@[k] == *sc;
                let c = choose|c: int| is_innermost(module.scopes@, definition.start, c);
                lemma_innermost_unique(module.scopes@, definition.start, k, c);
            },
            None => {
                if exists|k: int| is_innermost(module.scopes@, definition.start, k) {
                    let k = choose|k: int| is_innermost(module.scopes@, definition.start, k);
                    assert(range_has(module.scopes@[k], definition.start));
                }
            },
        }
    }
    let files = missing_files(dependent_files, open_paths);
    if files.len() > 0 {
        refactor.open_files(files);
        return Ok(());
    }
    let scope = match found {
        None => {
            return Err(mk_err("Could not find variable definition for rename"));
        },
        Some(scope) => scope,
    };
    let within = vec![scope.start..scope.end];
    let skip = vec![definition.start..definition.end];
    let no_ranges: Vec<Range<usize>> = Vec::new();
    assert(within@ =~= seq![scope]);
    assert(skip@ =~= seq![*definition]);
    let ghost start = refactor.changes();
    match kind {
        RenameKind::RecordFieldPattern => {
            assert(refactor.changes() =~= start + seq![]);
            Ok(())
        },
        RenameKind::RecordTypeAlias => {
            let old_constructor = Name::new(old_name.name.as_str(), NameKind::Constructor);
            let new_constructor = Name::new(new_name.name.as_str(), NameKind::Constructor);
            let old_type = Name::new(old_name.name.as_str(), NameKind::Type);
            let new_type = Name::new(new_name.name.as_str(), NameKind::Type);
            let freed = vec![new_constructor.copy(), new_type.copy()];
            assert(names_view(freed@) =~= seq![
                (new_name.name@, NameKind::Constructor),
                (new_name.name@, NameKind::Type),
            ]);
            free_names(module, known, refactor, &freed, &within, &skip)?;
            let ghost c1 = refactor.changes();
            let targets = crate::free_names::rename_targets(module);
            rename(refactor, module.buffer, &targets, &old_type, &new_type, &within, &no_ranges);
            let ghost c2 = refactor.changes();
            rename(refactor, module.buffer, &targets, &old_constructor, &new_constructor, &within, &no_ranges);
            proof {
                let a = c1.subrange(start.len() as int, c1.len() as int);
                let b = c2.subrange(c1.len() as int, c2.len() as int);
                let d = refactor.changes().subrange(c2.len() as int, refactor.changes().len() as int);
                assert(c1 =~= start + a);
                assert(c2 =~= c1 + b);
                assert(refactor.changes() =~= c2 + d);
                assert(refactor.changes() =~= start + (a + b + d));
            }
            Ok(())
        },
        RenameKind::AnyOther => {
            let exports = module_exports(module);
            match find_exported(old_name, &exports) {
                None => {},
                Some(exported) => {
                    rename_in_others(refactor, others, module.name.as_str(), known, old_name, new_name, exported)?;
                },
            }
            let ghost c1 = refactor.changes();
            let news = single(new_name);
            free_names(module, known, refactor, &news, &within, &skip)?;
            let ghost c2 = refactor.changes();
            let targets = crate::free_names::rename_targets(module);
            rename(refactor, module.buffer, &targets, old_name, new_name, &within, &no_ranges);
            proof {
                let a = c1.subrange(start.len() as int, c1.len() as int);
                let b = c2.subrange(c1.len() as int, c2.len() as int);
                let d = refactor.changes().subrange(c2.len() as int, refactor.changes().len() as int);
                assert(c1 =~= start + a);
                assert(c2 =~= c1 + b);
                assert(refactor.changes() =~= c2 + d);
                assert(refactor.changes() =~= start + (a + b + d));
            }
            Ok(())
        },
    }
}

} // verus!

verus! {

/// An import whose exposing list holds `..` brings every name the module
/// exports into scope: a value, an operator or a type by its name, and a
/// constructor of a custom type. An entry naming a value or a type brings
/// that value or type into scope.
pub proof fn lemma_exposing_entries_expose(
    imp: Import,
    k: int,
    old: (Seq<char>, NameKind),
    exported: SpecExportedName,
)
    requires
        0 <= k < imp.exposing@.len(),
    ensures
        imp.exposing@[k].exposed@ is All && (old.1 != NameKind::Constructor || exported is Type)
            ==> exposes_old(imp, old, exported),
        imp.exposing@[k].exposed@ == (SpecExposedName::Type {
            name: old.0,
            exposing_constructors: imp.exposing@[k].exposed@->Type_exposing_constructors,
        }) && old.1 == NameKind::Type ==> exposes_old(imp, old, exported),
        imp.exposing@[k].exposed@ == (SpecExposedName::Value { name: old.0 }) && old.1
            == NameKind::Value ==> exposes_old(imp, old, exported),
{
    let e = imp.exposing@[k].exposed@;
    if e is All && (old.1 != NameKind::Constructor || exported is Type) {
        assert(entry_exposes_old(e, old, exported));
    }
    if e == (SpecExposedName::Type {
        name: old.0,
        exposing_constructors: e->Type_exposing_constructors,
    }) && old.1 == NameKind::Type {
        assert(entry_exposes_old(e, old, exported));
    }
    if e == (SpecExposedName::Value { name: old.0 }) && old.1 == NameKind::Value {
        assert(entry_exposes_old(e, old, exported));
    }
}

/// Renaming an exported name reaches the modules importing its module with
/// `exposing (..)`: once the new name is freed there, every unqualified use
/// of a value, operator or type (or of a constructor of a custom type) gets
/// the new name.
pub proof fn lemma_exposing_all_import_renames_every_use(
    o: ModuleModel,
    this: Seq<char>,
    known: Seq<(String, Vec<ExportedName>)>,
    old: (Seq<char>, NameKind),
    new: (Seq<char>, NameKind),
    exported: SpecExportedName,
    k: int,
    j: int,
    freed: Seq<SpecReplacement>,
    i: int,
)
    requires
        import_of_module(o.imports@, this, 0) == Some(k),
        0 <= k < o.imports@.len(),
        0 <= j < o.imports@[k].exposing@.len(),
        o.imports@[k].exposing@[j].exposed@ is All,
        old.1 != NameKind::Constructor || exported is Type,
        spec_free_names(o, known, seq![new], seq![], seq![]) == Ok::<Seq<SpecReplacement>, ()>(freed),
        0 <= i < o.occurrences@.len(),
        o.occurrences@[i].1@ == old,
    ensures
        other_changes(o, this, known, old, new, exported) matches Ok(c) && c.contains(
            (o.buffer, o.occurrences@[i].0, new.0),
        ),
{
    lemma_exposing_entries_expose(o.imports@[k], j, old, exported);
    let rv = rename_view(o.occurrences@);
    assert(rv[i] == (o.occurrences@[i].0, o.occurrences@[i].1@));
    crate::renaming::lemma_unrestricted_rename_covers_every_use(o.buffer, rv, old, new.0, i);
    let rr = rename_replacements(o.buffer, rv, old, new.0, seq![], seq![]);
    let c1 = qualified_renames(
        o.buffer,
        o.qualified@,
        spec_aliased_name(o.imports@[k]),
        old,
        new.0,
    );
    let x = (o.buffer, o.occurrences@[i].0, new.0);
    let m = choose|m: int| 0 <= m < rr.len() && rr[m] == x;
    assert((c1 + freed + rr)[c1.len() + freed.len() + m] == x);
}

} // verus!
