//! Choosing and making the refactor that follows an edit, from what the
//! syntax tree shows around the change.
use vstd::prelude::*;
use core::ops::Range;
use crate::changed_name::{changed_name, files_needed, spec_changed_name, RenameKind};
use crate::error::Error;
use crate::exports::{strings_view, ExportedName};
use crate::imports::{find_unimported_qualifiers, is_unimported_qualifier, spec_import_position};
use crate::import_edits::{
    added_constructors_to_exposing_list, added_exposing_list_to_import, changed_as_clause,
    changed_values_in_exposing_list, import_names, qualifiers_fit, removed_constructors,
    removed_constructors_from_exposing_list, requalify_replacements, spec_changed_exposing_list,
    spec_remove_qualifier, text_bytes, type_constructors, import_insertions,
    typed_unimported_qualified_value, as_clauses_follow_names, changed_module_qualifier,
    requalify_import, removed_module_qualifier_from_name, spec_removed_qualifier,
};
use crate::module_model::{aliased_name, first_import_from, spec_aliased_name, Import, ModuleModel};
use crate::names::{distinct_not_in, Name, NameKind};
use crate::qualify::{
    qualifier_replacements, qualify_value, removed_exposing_list_from_import, spec_qualify,
};
use crate::refactor::{Refactor, SpecReplacement};
use crate::text::same_text;

verus! {

/// What the syntax tree shows around an edit, for the edits a refactor
/// follows.
pub enum ChangeFacts {
    /// The exposing list of an import changed from `old_import` to
    /// `new_import`.
    ExposingList { old_import: Import, new_import: Import },
    /// A qualifier was put in front of a name: `old_name` before the edit,
    /// `qualifier` and `name` after it.
    AddedQualifier { old_name: Name, qualifier: String, name: Name },
    /// The qualifier `qualifier` was removed from a name: `old_name` behind
    /// it before the edit, `new_name` covering the bytes `node` after it.
    RemovedQualifier { qualifier: String, old_name: Name, new_name: Name, node: Range<usize> },
    /// The import `import` got an exposing list.
    AddedExposingList { import: Import },
    /// The import `import` lost its exposing list.
    RemovedExposingList { import: Import },
    /// The type `exposed_type` in the exposing list of `import` now exposes
    /// its constructors.
    AddedConstructors { import: Import, exposed_type: String },
    /// The type `exposed_type` in the exposing list of `old_import` stopped
    /// exposing its constructors.
    RemovedConstructors { old_import: Import, exposed_type: String },
    /// The name an import is qualified by changed from `old_import`'s to
    /// `new_import`'s (its `as` clause was added, changed or removed).
    AsClause { old_import: Import, new_import: Import },
    /// The qualifier of a qualified name changed from `old_qualifier` to
    /// `new_qualifier`.
    ChangedQualifier { old_qualifier: String, new_qualifier: String },
    /// Any other edit. The code after it holds the top-level nodes `nodes`
    /// (kind and start byte), starting at `file_start`; `imports` are the
    /// names modules are imported under, and `references` the qualified
    /// names (qualifier and name) in the changed part.
    Other {
        nodes: Vec<(u16, usize)>,
        file_start: usize,
        imports: Vec<String>,
        references: Vec<(String, String)>,
    },
    /// A definition's name changed from `old_name` to `new_name`; the new
    /// name covers the bytes `definition` and is renamed as `kind` says.
    Renamed { old_name: Name, new_name: Name, definition: Range<usize>, kind: RenameKind },
}

/// What a refactor's description says, for each edit.
pub open spec fn description(facts: ChangeFacts) -> Seq<char> {
    match facts {
        ChangeFacts::ExposingList { .. } => "changed exposing list of import"@,
        ChangeFacts::AddedQualifier { .. } => "added module qualifier"@,
        ChangeFacts::RemovedQualifier { .. } => "removed module qualifier"@,
        ChangeFacts::AddedExposingList { .. } => "added exposing list to import"@,
        ChangeFacts::RemovedExposingList { .. } => "removed exposing list from import"@,
        ChangeFacts::AddedConstructors { .. } => "exposed constructors in import"@,
        ChangeFacts::RemovedConstructors { .. } => "stopped exposing constructors in import"@,
        ChangeFacts::AsClause { .. } => "changed as-clause of import"@,
        ChangeFacts::ChangedQualifier { .. } => "changed module qualifier"@,
        ChangeFacts::Other { .. } => "added qualified value from unimported module"@,
        ChangeFacts::Renamed { new_name, .. } => match new_name.kind {
            NameKind::Type => "changed name of type"@,
            NameKind::Constructor => "changed name of constructor"@,
            _ => "changed name of value"@,
        },
    }
}

/// Whether the sizes of what `module` holds leave room for the refactor
/// following the edit `facts`: its occurrences can be counted past their
/// number, and the qualified uses the refactor shortens or changes end
/// within the address range.
pub open spec fn fits(facts: ChangeFacts, module: ModuleModel, others: Seq<ModuleModel>) -> bool {
    &&& module.occurrences@.len() + 3 <= usize::MAX
    &&& forall|k: int| 0 <= k < others.len() ==> (#[trigger] others[k]).occurrences@.len() + 3 <= usize::MAX
    &&& match facts {
        ChangeFacts::ExposingList { new_import, .. } => qualifiers_fit(
            module,
            text_bytes(spec_aliased_name(new_import)),
        ),
        ChangeFacts::RemovedQualifier { qualifier, .. } => qualifiers_fit(
            module,
            text_bytes(qualifier@),
        ),
        ChangeFacts::AddedExposingList { import } => qualifiers_fit(
            module,
            text_bytes(spec_aliased_name(import)),
        ),
        ChangeFacts::AddedConstructors { import, .. } => qualifiers_fit(
            module,
            text_bytes(spec_aliased_name(import)),
        ),
        ChangeFacts::AsClause { old_import, .. } => qualifiers_fit(
            module,
            text_bytes(spec_aliased_name(old_import)),
        ),
        ChangeFacts::ChangedQualifier { old_qualifier, .. } => qualifiers_fit(
            module,
            text_bytes(old_qualifier@),
        ) && as_clauses_follow_names(module),
        _ => true,
    }
}

/// The replacements the refactor following the edit `facts` makes in
/// `module` (the code after the edit), or `Err` when it fails; `es` is what
/// the module of the import concerned exports, `known` what the imported
/// modules export, `others` the other open modules. A rename that needs
/// files opened first is left to [`files_needed`].
pub open spec fn spec_respond(
    facts: ChangeFacts,
    module: ModuleModel,
    others: Seq<ModuleModel>,
    known: Seq<(String, Vec<ExportedName>)>,
    es: Seq<ExportedName>,
) -> Result<Seq<SpecReplacement>, ()> {
    match facts {
        ChangeFacts::ExposingList { old_import, new_import } => spec_changed_exposing_list(
            module,
            known,
            old_import,
            new_import,
            es,
        ),
        ChangeFacts::AddedQualifier { old_name, qualifier, name } => if old_name.name@
            == name.name@ {
            match spec_qualify(module, es, seq![], qualifier@, name@, false) {
                Ok(c) => Ok(c),
                Err(_) => Err(()),
            }
        } else {
            Ok(seq![])
        },
        ChangeFacts::RemovedQualifier { qualifier, old_name, new_name, node } => if new_name.name@
            == old_name.name@ {
            spec_removed_qualifier(module, known, es, qualifier@, old_name@, node)
        } else {
            Ok(seq![])
        },
        ChangeFacts::AddedExposingList { import } => spec_remove_qualifier(
            module,
            known,
            spec_aliased_name(import),
            distinct_not_in(import_names(import, es), seq![]),
            seq![],
        ),
        ChangeFacts::RemovedExposingList { import } => Ok(
            qualifier_replacements(
                module.buffer,
                module.occurrences@,
                import_names(import, es),
                seq![],
                spec_aliased_name(import),
            ),
        ),
        ChangeFacts::AddedConstructors { import, exposed_type } => spec_remove_qualifier(
            module,
            known,
            spec_aliased_name(import),
            distinct_not_in(type_constructors(es, exposed_type@, 0), seq![]),
            seq![],
        ),
        ChangeFacts::RemovedConstructors { old_import, exposed_type } => match removed_constructors(
            es,
            exposed_type@,
        ) {
            None => Err(()),
            Some(refs) => Ok(
                qualifier_replacements(
                    module.buffer,
                    module.occurrences@,
                    refs,
                    seq![],
                    spec_aliased_name(old_import),
                ),
            ),
        },
        ChangeFacts::AsClause { old_import, new_import } => Ok(
            requalify_replacements(
                module.buffer,
                module.qualified@,
                spec_aliased_name(old_import),
                spec_aliased_name(new_import),
            ),
        ),
        ChangeFacts::ChangedQualifier { old_qualifier, new_qualifier } => match first_import_from(
            module.imports@,
            old_qualifier@,
            0,
        ) {
            Some(k) => Ok(
                seq![requalify_import(module.buffer, module.imports@[k], new_qualifier@)]
                    + requalify_replacements(
                    module.buffer,
                    module.qualified@,
                    old_qualifier@,
                    new_qualifier@,
                ),
            ),
            None => Err(()),
        },
        ChangeFacts::Other { .. } => Ok(seq![]),
        ChangeFacts::Renamed { old_name, new_name, definition, kind } => spec_changed_name(
            module,
            others,
            known,
            old_name@,
            new_name@,
            definition,
            kind,
        ),
    }
}

/// Makes the refactor that follows the edit `facts` in `module`, the code
/// after the edit. `exports` is what the module of the import concerned
/// exports, `known` what each imported module exports, `others` the other
/// modules open in the editor, `dependent_files` the files of modules that
/// import this one and `open_paths` the files open in the editor.
pub fn respond_to_change(
    facts: &ChangeFacts,
    module: &ModuleModel,
    others: &Vec<ModuleModel>,
    known: &Vec<(String, Vec<ExportedName>)>,
    exports: &Vec<ExportedName>,
    dependent_files: &Vec<String>,
    open_paths: &Vec<String>,
) -> (r: Result<Refactor, Error>)
    requires
        fits(*facts, *module, others@),
    ensures
        match r {
            Ok(refactor) => refactor.what() == description(*facts),
            Err(_) => true,
        },
        match *facts {
            ChangeFacts::Renamed { old_name, new_name, definition, kind } => if new_name.name@.len()
                == 0 {
                r matches Ok(refactor) && refactor.changes() == Seq::<SpecReplacement>::empty()
                    && refactor.files_to_open() == Seq::<Seq<char>>::empty()
            } else if files_needed(dependent_files@, open_paths@).len() > 0 {
                r matches Ok(refactor) && refactor.changes() == Seq::<SpecReplacement>::empty()
                    && refactor.files_to_open() == files_needed(dependent_files@, open_paths@)
            } else {
                match spec_respond(*facts, *module, others@, known@, exports@) {
                    Ok(c) => r matches Ok(refactor) && refactor.changes() == c
                        && refactor.files_to_open() == Seq::<Seq<char>>::empty(),
                    Err(()) => r is Err,
                }
            },
            ChangeFacts::Other { nodes, file_start, imports, references } => r matches Ok(refactor)
                && refactor.files_to_open() == Seq::<Seq<char>>::empty() && exists|names: Seq<String>|
                {
                    &&& strings_view(names).no_duplicates()
                    &&& forall|q: Seq<char>|
                        strings_view(names).contains(q) <==> is_unimported_qualifier(
                            q,
                            strings_view(imports@),
                            references@.map_values(|p: (String, String)| (p.0@, p.1@)),
                        )
                    &&& refactor.changes() == import_insertions(
                        module.buffer,
                        spec_import_position(nodes@, file_start),
                        names,
                        known@,
                    )
                },
            _ => match spec_respond(*facts, *module, others@, known@, exports@) {
                Ok(c) => r matches Ok(refactor) && refactor.changes() == c
                    && refactor.files_to_open() == Seq::<Seq<char>>::empty(),
                Err(()) => r is Err,
            },
        },
{
    proof {
        reveal_strlit("changed exposing list of import");
        reveal_strlit("added module qualifier");
        reveal_strlit("added exposing list to import");
        reveal_strlit("removed exposing list from import");
        reveal_strlit("changed as-clause of import");
        reveal_strlit("added qualified value from unimported module");
        reveal_strlit("changed module qualifier");
        reveal_strlit("removed module qualifier");
        reveal_strlit("exposed constructors in import");
        reveal_strlit("stopped exposing constructors in import");
        reveal_strlit("changed name of type");
        reveal_strlit("changed name of constructor");
        reveal_strlit("changed name of value");
    }
    let no_ranges: Vec<Range<usize>> = Vec::new();
    assert(no_ranges@ =~= Seq::<Range<usize>>::empty());
    match facts {
        ChangeFacts::ExposingList { old_import, new_import } => {
            let mut refactor = Refactor::new("changed exposing list of import");
            changed_values_in_exposing_list(module, known, old_import, new_import, exports, &mut refactor)?;
            assert(refactor.changes() =~= Seq::<SpecReplacement>::empty() + refactor.changes());
            Ok(refactor)
        },
        ChangeFacts::AddedQualifier { old_name, qualifier, name } => {
            let mut refactor = Refactor::new("added module qualifier");
            if same_text(old_name.name.as_str(), name.name.as_str()) {
                qualify_value(module, exports, &mut refactor, &no_ranges, qualifier.as_str(), name, false)?;
            }
            Ok(refactor)
        },
        ChangeFacts::RemovedQualifier { qualifier, old_name, new_name, node } => {
            let mut refactor = Refactor::new("removed module qualifier");
            if same_text(new_name.name.as_str(), old_name.name.as_str()) {
                removed_module_qualifier_from_name(
                    module,
                    known,
                    exports,
                    qualifier.as_str(),
                    old_name,
                    node,
                    &mut refactor,
                )?;
            }
            Ok(refactor)
        },
        ChangeFacts::AddedExposingList { import } => {
            let mut refactor = Refactor::new("added exposing list to import");
            added_exposing_list_to_import(module, known, import, exports, &mut refactor)?;
            Ok(refactor)
        },
        ChangeFacts::RemovedExposingList { import } => {
            let mut refactor = Refactor::new("removed exposing list from import");
            removed_exposing_list_from_import(module, import, exports, &mut refactor);
            Ok(refactor)
        },
        ChangeFacts::AddedConstructors { import, exposed_type } => {
            let mut refactor = Refactor::new("exposed constructors in import");
            added_constructors_to_exposing_list(
                module,
                known,
                import,
                exports,
                exposed_type.as_str(),
                &mut refactor,
            )?;
            Ok(refactor)
        },
        ChangeFacts::RemovedConstructors { old_import, exposed_type } => {
            let mut refactor = Refactor::new("stopped exposing constructors in import");
            removed_constructors_from_exposing_list(
                module,
                old_import,
                exports,
                exposed_type.as_str(),
                &mut refactor,
            )?;
            Ok(refactor)
        },
        ChangeFacts::AsClause { old_import, new_import } => {
            let mut refactor = Refactor::new("changed as-clause of import");
            changed_as_clause(module, aliased_name(old_import), aliased_name(new_import), &mut refactor);
            Ok(refactor)
        },
        ChangeFacts::ChangedQualifier { old_qualifier, new_qualifier } => {
            let mut refactor = Refactor::new("changed module qualifier");
            changed_module_qualifier(
                module,
                old_qualifier.as_str(),
                new_qualifier.as_str(),
                &mut refactor,
            )?;
            assert(refactor.changes() =~= seq![
                requalify_import(
                    module.buffer,
                    module.imports@[first_import_from(module.imports@, old_qualifier@, 0)->Some_0],
                    new_qualifier@,
                ),
            ] + requalify_replacements(
                module.buffer,
                module.qualified@,
                old_qualifier@,
                new_qualifier@,
            ));
            Ok(refactor)
        },
        ChangeFacts::Other { nodes, file_start, imports, references } => {
            let mut refactor = Refactor::new("added qualified value from unimported module");
            let names = find_unimported_qualifiers(imports, references);
            if names.len() > 0 {
                typed_unimported_qualified_value(module, nodes, *file_start, &names, known, &mut refactor);
            } else {
                assert(names@ =~= Seq::<String>::empty());
            }
            assert(refactor.changes() =~= import_insertions(
                module.buffer,
                spec_import_position(nodes@, *file_start),
                names@,
                known@,
            ));
            Ok(refactor)
        },
        ChangeFacts::Renamed { old_name, new_name, definition, kind } => {
            let mut refactor = match new_name.kind {
                NameKind::Type => Refactor::new("changed name of type"),
                NameKind::Constructor => Refactor::new("changed name of constructor"),
                _ => Refactor::new("changed name of value"),
            };
            changed_name(
                module,
                others,
                known,
                dependent_files,
                open_paths,
                old_name,
                new_name,
                definition,
                *kind,
                &mut refactor,
            )?;
            Ok(refactor)
        },
    }
}

} // verus!
