//! What the refactors read of an Elm module: its exposing list and its
//! declarations, its imports with their exposing lists, and the unqualified
//! names that occur in its code, each with the bytes it covers.
use vstd::prelude::*;
use core::ops::Range;
use crate::editors::Buffer;
use crate::error::{Error, mk_err};
use crate::exports::{exports_view, strings_view, ExportedName, SpecExportedName};
use crate::names::{ExposedName, Name, SpecExposedName};
use crate::text::same_text;

verus! {

/// How a module's exposing list exposes a name.
#[derive(PartialEq, Eq, Clone, Copy, Debug, Structural)]
pub enum ExposedAs {
    /// A value.
    Value,
    /// A type, without its constructors.
    Type,
    /// A type followed by `(..)`: with its constructors.
    TypeWithConstructors,
}

/// An entry of a module's own exposing list.
pub enum ModuleExposed {
    /// `..`: everything the module declares.
    All,
    /// One name.
    Named { name: String, exposed_as: ExposedAs },
}

/// A top-level declaration of a module.
pub enum Declaration {
    /// A value or function.
    Value { name: String },
    /// A type alias; `is_record` when it aliases a record type.
    TypeAlias { name: String, is_record: bool },
    /// A custom type and its constructors.
    CustomType { name: String, constructors: Vec<String> },
}

/// The mathematical form of a [`ModuleExposed`].
pub enum SpecModuleExposed {
    All,
    Named(Seq<char>, ExposedAs),
}

impl View for ModuleExposed {
    type V = SpecModuleExposed;

    open spec fn view(&self) -> SpecModuleExposed {
        match self {
            ModuleExposed::All => SpecModuleExposed::All,
            ModuleExposed::Named { name, exposed_as } => SpecModuleExposed::Named(name@, *exposed_as),
        }
    }
}

/// The mathematical form of a [`Declaration`].
pub enum SpecDeclaration {
    Value(Seq<char>),
    TypeAlias(Seq<char>, bool),
    CustomType(Seq<char>, Seq<Seq<char>>),
}

impl View for Declaration {
    type V = SpecDeclaration;

    open spec fn view(&self) -> SpecDeclaration {
        match self {
            Declaration::Value { name } => SpecDeclaration::Value(name@),
            Declaration::TypeAlias { name, is_record } => SpecDeclaration::TypeAlias(name@, *is_record),
            Declaration::CustomType { name, constructors } => SpecDeclaration::CustomType(
                name@,
                strings_view(constructors@),
            ),
        }
    }
}

/// The mathematical form of an exposing list of a module.
pub open spec fn exposing_view(v: Seq<ModuleExposed>) -> Seq<SpecModuleExposed> {
    v.map_values(|e: ModuleExposed| e@)
}

/// The mathematical form of a list of declarations.
pub open spec fn declarations_view(v: Seq<Declaration>) -> Seq<SpecDeclaration> {
    v.map_values(|d: Declaration| d@)
}

/// A node beside an entry of an exposing list: whether it is a comma, the
/// bytes it covers, and the edge of the node beyond it, if there is one (the
/// start of the node after a following neighbour, the end of the node
/// before a preceding one).
pub struct Neighbour {
    pub is_comma: bool,
    pub range: Range<usize>,
    pub beyond: Option<usize>,
}

/// An entry of an import's exposing list.
pub struct ExposedEntry {
    /// What the entry exposes.
    pub exposed: ExposedName,
    /// The bytes the entry covers.
    pub range: Range<usize>,
    /// The bytes of the `(..)` behind an exposed type, if it has one.
    pub constructors_range: Option<Range<usize>>,
    /// The node before the entry in the list, if any.
    pub prev: Option<Neighbour>,
    /// The node after the entry in the list, if any.
    pub next: Option<Neighbour>,
}

/// An import of an Elm module.
pub struct Import {
    /// The byte the import starts at.
    pub start: usize,
    /// The byte just after the import.
    pub end: usize,
    /// The name of the imported module.
    pub module_name: String,
    /// The name given in an `as` clause, if any.
    pub alias: Option<String>,
    /// The byte just after the imported module's name.
    pub name_end: usize,
    /// The bytes of the `as` clause and of the alias in it, if there is one.
    pub as_clause: Option<(Range<usize>, Range<usize>)>,
    /// The bytes of the `exposing (..)` clause, if any.
    pub exposing_range: Option<Range<usize>>,
    /// The entries of the exposing list, in order.
    pub exposing: Vec<ExposedEntry>,
}

/// The mathematical form of an [`ExposedEntry`].
pub struct SpecEntry {
    pub exposed: SpecExposedName,
    pub range: Range<usize>,
    pub constructors_range: Option<Range<usize>>,
    pub prev: Option<Neighbour>,
    pub next: Option<Neighbour>,
}

impl View for ExposedEntry {
    type V = SpecEntry;

    open spec fn view(&self) -> SpecEntry {
        SpecEntry {
            exposed: self.exposed@,
            range: self.range,
            constructors_range: self.constructors_range,
            prev: self.prev,
            next: self.next,
        }
    }
}

/// The mathematical form of a list of exposing list entries.
pub open spec fn entries_view(v: Seq<ExposedEntry>) -> Seq<SpecEntry> {
    v.map_values(|e: ExposedEntry| e@)
}

/// The mathematical form of an [`Import`].
pub struct SpecImport {
    pub start: usize,
    pub end: usize,
    pub module_name: Seq<char>,
    pub alias: Option<Seq<char>>,
    pub name_end: usize,
    pub as_clause: Option<(Range<usize>, Range<usize>)>,
    pub exposing_range: Option<Range<usize>>,
    pub exposing: Seq<SpecEntry>,
}

impl View for Import {
    type V = SpecImport;

    open spec fn view(&self) -> SpecImport {
        SpecImport {
            start: self.start,
            end: self.end,
            module_name: self.module_name@,
            alias: match self.alias {
                Some(a) => Some(a@),
                None => None,
            },
            name_end: self.name_end,
            as_clause: self.as_clause,
            exposing_range: self.exposing_range,
            exposing: entries_view(self.exposing@),
        }
    }
}

/// The mathematical form of a list of imports.
pub open spec fn imports_view(v: Seq<Import>) -> Seq<SpecImport> {
    v.map_values(|i: Import| i@)
}

/// What the refactors read of an Elm module open in an editor buffer.
pub struct ModuleModel {
    /// The buffer holding the module.
    pub buffer: Buffer,
    /// The module's name, from its `module` declaration.
    pub name: String,
    /// The entries of the module's own exposing list, in order.
    pub exposing: Vec<ModuleExposed>,
    /// The top-level declarations, in order.
    pub declarations: Vec<Declaration>,
    /// The imports, in order.
    pub imports: Vec<Import>,
    /// The unqualified names occurring in the code, in order, each with the
    /// bytes it covers and whether it is where the name is defined.
    pub occurrences: Vec<(Range<usize>, Name, bool)>,
    /// The qualified names occurring in the code, in order, each with the
    /// bytes it covers (qualifier included) and its qualifier.
    pub qualified: Vec<(Range<usize>, String, Name)>,
    /// The scopes of the code: the byte ranges in which a name defined
    /// inside them can be used.
    pub scopes: Vec<Range<usize>>,
}

/// The name by which the import's values are qualified: the alias, or else
/// the module name.
pub open spec fn spec_aliased_name(i: Import) -> Seq<char> {
    match i.alias {
        Some(a) => a@,
        None => i.module_name@,
    }
}

/// The name by which the import's values are qualified.
pub fn aliased_name(import: &Import) -> (r: &str)
    ensures
        r@ == spec_aliased_name(*import),
{
    match &import.alias {
        Some(a) => a.as_str(),
        None => import.module_name.as_str(),
    }
}

/// The index of the first import from index `i` on qualified by `q`.
pub open spec fn first_import_from(imports: Seq<Import>, q: Seq<char>, i: int) -> Option<int>
    decreases imports.len() - i,
{
    if i < 0 || i >= imports.len() {
        None
    } else if spec_aliased_name(imports[i]) == q {
        Some(i)
    } else {
        first_import_from(imports, q, i + 1)
    }
}

/// The first import of `module` qualified by `qualifier`; an error when
/// there is none.
pub fn find_import<'a>(module: &'a ModuleModel, qualifier: &str) -> (r: Result<&'a Import, Error>)
    ensures
        match first_import_from(module.imports@, qualifier@, 0) {
            Some(i) => r matches Ok(imp) && *imp == module.imports@[i],
            None => r matches Err(e) && e.0@
                == "could not find an import with the requested aliased name"@,
        },
{
    let mut i: usize = 0;
    while i < module.imports.len()
        invariant
            i <= module.imports@.len(),
            first_import_from(module.imports@, qualifier@, 0) == first_import_from(
                module.imports@,
                qualifier@,
                i as int,
            ),
        decreases module.imports.len() - i,
    {
        if same_text(aliased_name(&module.imports[i]), qualifier) {
            return Ok(&module.imports[i]);
        }
        i = i + 1;
    }
    Err(mk_err("could not find an import with the requested aliased name"))
}

/// Whether the entry `e` exposes the name `n` as `how`.
pub open spec fn entry_exposes(e: SpecModuleExposed, how: ExposedAs, n: Seq<char>) -> bool {
    match e {
        SpecModuleExposed::All => true,
        SpecModuleExposed::Named(name, exposed_as) => exposed_as == how && name == n,
    }
}

/// Whether the exposing list `list` exposes the name `n` as `how`.
pub open spec fn spec_exposes(list: Seq<SpecModuleExposed>, how: ExposedAs, n: Seq<char>) -> bool {
    exists|k: int| 0 <= k < list.len() && entry_exposes(#[trigger] list[k], how, n)
}

/// Whether the exposing list `list` exposes the name `n` as `how`.
pub fn exposes(list: &Vec<ModuleExposed>, how: ExposedAs, n: &str) -> (r: bool)
    ensures
        r == spec_exposes(exposing_view(list@), how, n@),
{
    let mut i: usize = 0;
    while i < list.len()
        invariant
            i <= list@.len(),
            forall|k: int| 0 <= k < i ==> !entry_exposes(#[trigger] exposing_view(list@)[k], how, n@),
        decreases list.len() - i,
    {
        let hit = match &list[i] {
            ModuleExposed::All => true,
            ModuleExposed::Named { name, exposed_as } => *exposed_as == how && same_text(
                name.as_str(),
                n,
            ),
        };
        if hit {
            assert(entry_exposes(exposing_view(list@)[i as int], how, n@));
            return true;
        }
        i = i + 1;
    }
    false
}

/// What the declaration `d` exports under the exposing list `list`: a value
/// exposed by name; a type alias exposed as a type (as a record type alias
/// when it aliases a record); a custom type with its constructors when
/// exposed with `(..)`, without them when exposed as a type.
pub open spec fn spec_export_of(d: SpecDeclaration, list: Seq<SpecModuleExposed>) -> Option<
    SpecExportedName,
> {
    match d {
        SpecDeclaration::Value(name) => if spec_exposes(list, ExposedAs::Value, name) {
            Some(SpecExportedName::Value { name })
        } else {
            None
        },
        SpecDeclaration::TypeAlias(name, is_record) => if spec_exposes(list, ExposedAs::Type, name) {
            if is_record {
                Some(SpecExportedName::RecordTypeAlias { name })
            } else {
                Some(SpecExportedName::Type { name, constructors: seq![] })
            }
        } else {
            None
        },
        SpecDeclaration::CustomType(name, constructors) => if spec_exposes(
            list,
            ExposedAs::TypeWithConstructors,
            name,
        ) {
            Some(SpecExportedName::Type { name, constructors })
        } else if spec_exposes(list, ExposedAs::Type, name) {
            Some(SpecExportedName::Type { name, constructors: seq![] })
        } else {
            None
        },
    }
}

/// The exports of a module with declarations `decls` and exposing list
/// `list`, in the order of the declarations.
pub open spec fn spec_module_exports(decls: Seq<SpecDeclaration>, list: Seq<SpecModuleExposed>) -> Seq<
    SpecExportedName,
>
    decreases decls.len(),
{
    if decls.len() == 0 {
        seq![]
    } else {
        let rest = spec_module_exports(decls.drop_last(), list);
        match spec_export_of(decls.last(), list) {
            Some(e) => rest.push(e),
            None => rest,
        }
    }
}

/// A copy of a list of strings.
fn copy_strings(v: &Vec<String>) -> (r: Vec<String>)
    ensures
        strings_view(r@) == strings_view(v@),
{
    let mut r: Vec<String> = Vec::new();
    let mut i: usize = 0;
    while i < v.len()
        invariant
            i <= v@.len(),
            r@.len() == i,
            strings_view(r@) == strings_view(v@).take(i as int),
        decreases v.len() - i,
    {
        r.push(v[i].clone());
        i = i + 1;
        assert(strings_view(r@) =~= strings_view(v@).take(i as int));
    }
    assert(strings_view(v@).take(v@.len() as int) =~= strings_view(v@));
    r
}

/// The names `module` exports, in the order of its declarations.
pub fn module_exports(module: &ModuleModel) -> (r: Vec<ExportedName>)
    ensures
        exports_view(r@) == spec_module_exports(
            declarations_view(module.declarations@),
            exposing_view(module.exposing@),
        ),
{
    exports_of_declarations(&module.declarations, &module.exposing)
}

/// The names a module with declarations `decls` and exposing list `list`
/// exports, in the order of the declarations.
pub fn exports_of_declarations(decls: &Vec<Declaration>, list: &Vec<ModuleExposed>) -> (r: Vec<
    ExportedName,
>)
    ensures
        exports_view(r@) == spec_module_exports(declarations_view(decls@), exposing_view(list@)),
{
    let ghost dv = declarations_view(decls@);
    let ghost lv = exposing_view(list@);
    let mut r: Vec<ExportedName> = Vec::new();
    let mut i: usize = 0;
    assert(dv.take(0) =~= Seq::<SpecDeclaration>::empty());
    while i < decls.len()
        invariant
            i <= decls@.len(),
            dv == declarations_view(decls@),
            lv == exposing_view(list@),
            exports_view(r@) == spec_module_exports(dv.take(i as int), lv),
        decreases decls.len() - i,
    {
        assert(dv.take(i + 1).drop_last() =~= dv.take(i as int));
        assert(dv.take(i + 1).last() == decls@[i as int]@);
        let ghost before = r@;
        let export = match &decls[i] {
            Declaration::Value { name } => if exposes(list, ExposedAs::Value, name.as_str()) {
                Some(ExportedName::Value { name: name.clone() })
            } else {
                None
            },
            Declaration::TypeAlias { name, is_record } => if exposes(
                list,
                ExposedAs::Type,
                name.as_str(),
            ) {
                if *is_record {
                    Some(ExportedName::RecordTypeAlias { name: name.clone() })
                } else {
                    Some(ExportedName::Type { name: name.clone(), constructors: Vec::new() })
                }
            } else {
                None
            },
            Declaration::CustomType { name, constructors } => if exposes(
                list,
                ExposedAs::TypeWithConstructors,
                name.as_str(),
            ) {
                Some(ExportedName::Type { name: name.clone(), constructors: copy_strings(constructors) })
            } else if exposes(list, ExposedAs::Type, name.as_str()) {
                Some(ExportedName::Type { name: name.clone(), constructors: Vec::new() })
            } else {
                None
            },
        };
        match export {
            Some(e) => {
                proof {
                    assert(strings_view(Seq::<String>::empty()) =~= Seq::<Seq<char>>::empty());
                }
                r.push(e);
                assert(exports_view(r@) =~= exports_view(before).push(e@));
            },
            None => {},
        }
        i = i + 1;
    }
    assert(dv.take(decls@.len() as int) =~= dv);
    r
}

} // verus!
