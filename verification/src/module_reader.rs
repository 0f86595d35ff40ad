//! Reading from Elm code, through its syntax tree, what a module exposes
//! and declares, and so what it exports.
use vstd::prelude::*;
use crate::error::{Error, mk_err};
use crate::exports::{exports_view, ExportedName, SpecExportedName, strings_view};
use core::ops::Range;
use crate::names::{ExposedName, SpecExposedName};
use crate::module_model::{
    entries_view, ExposedEntry, Import, Neighbour, SpecEntry, SpecImport, imports_view,
    declarations_view, exports_of_declarations, exposing_view, spec_module_exports, Declaration,
    ExposedAs, ModuleExposed, SpecDeclaration, SpecModuleExposed,
};
use crate::syntax::{children_at, children_view, elm_children_at, SpecChild};
use crate::text::same_text;

verus! {

/// The index of the first of the children `cs`, from index `i` on, whose
/// kind is named `k`.
pub open spec fn first_kind(cs: Seq<SpecChild>, k: Seq<char>, i: int) -> Option<int>
    decreases cs.len() - i,
{
    if i < 0 || i >= cs.len() {
        None
    } else if cs[i].3 == k {
        Some(i)
    } else {
        first_kind(cs, k, i + 1)
    }
}

/// The index of the first of the children `cs` whose kind is named `k`.
fn first_of_kind(cs: &Vec<(u16, String, usize, String, usize, usize)>, k: &str) -> (r: Option<usize>)
    ensures
        match first_kind(children_view(cs@), k@, 0) {
            Some(i) => r matches Some(j) && j as int == i,
            None => r is None,
        },
        r matches Some(i) ==> i < cs@.len(),
{
    let ghost v = children_view(cs@);
    let mut i: usize = 0;
    while i < cs.len()
        invariant
            i <= cs@.len(),
            v == children_view(cs@),
            first_kind(v, k@, 0) == first_kind(v, k@, i as int),
        decreases cs.len() - i,
    {
        if same_text(cs[i].3.as_str(), k) {
            return Some(i);
        }
        i = i + 1;
    }
    None
}

/// The path `p` followed by `i`.
fn extend_path(p: &Vec<usize>, i: usize) -> (r: Vec<usize>)
    ensures
        r@ == p@.push(i),
{
    let mut r: Vec<usize> = Vec::new();
    let mut k: usize = 0;
    while k < p.len()
        invariant
            k <= p@.len(),
            r@ == p@.take(k as int),
        decreases p.len() - k,
    {
        r.push(p[k]);
        k = k + 1;
        assert(r@ =~= p@.take(k as int));
    }
    assert(p@.take(p@.len() as int) =~= p@);
    r.push(i);
    r
}

/// What the child `c` of a module's exposing list, at `path`, exposes: `..`,
/// a value, or a type, with its constructors when its node has a second
/// child (the `(..)`); `Ok(None)` for the other children (the keyword,
/// brackets, commas and operators); an error when a type has no name node.
pub open spec fn exposing_entry(code: Seq<char>, path: Seq<usize>, c: SpecChild) -> Result<
    Option<SpecModuleExposed>,
    Seq<char>,
> {
    if c.3 == "double_dot"@ {
        Ok(Some(SpecModuleExposed::All))
    } else if c.3 == "exposed_value"@ {
        Ok(Some(SpecModuleExposed::Named(c.1, ExposedAs::Value)))
    } else if c.3 == "exposed_type"@ {
        match elm_children_at(code, path) {
            Some((_, tc)) => if tc.len() > 0 {
                Ok(
                    Some(
                        SpecModuleExposed::Named(
                            tc[0].1,
                            if tc.len() > 1 {
                                ExposedAs::TypeWithConstructors
                            } else {
                                ExposedAs::Type
                            },
                        ),
                    ),
                )
            } else {
                Err("could not find name node of type in exposing list"@)
            },
            None => Err("could not find name node of type in exposing list"@),
        }
    } else {
        Ok(None)
    }
}

/// What the children `el` of a module's exposing list at `list_path`
/// expose, in order.
pub open spec fn exposing_entries(code: Seq<char>, list_path: Seq<usize>, el: Seq<SpecChild>) -> Result<
    Seq<SpecModuleExposed>,
    Seq<char>,
>
    decreases el.len(),
{
    if el.len() == 0 {
        Ok(seq![])
    } else {
        match exposing_entries(code, list_path, el.drop_last()) {
            Err(m) => Err(m),
            Ok(es) => match exposing_entry(
                code,
                list_path.push((el.len() - 1) as usize),
                el.last(),
            ) {
                Err(m) => Err(m),
                Ok(None) => Ok(es),
                Ok(Some(e)) => Ok(es.push(e)),
            },
        }
    }
}

/// The error for code whose syntax tree cannot be read.
pub open spec fn unreadable() -> Seq<char> {
    "could not read the syntax tree of the code"@
}

/// The exposing list of the module in `code`: empty when it has no module
/// declaration or that has no exposing list.
pub open spec fn module_exposing(code: Seq<char>) -> Result<Seq<SpecModuleExposed>, Seq<char>> {
    match elm_children_at(code, seq![]) {
        None => Err(unreadable()),
        Some((_, rc)) => match first_kind(rc, "module_declaration"@, 0) {
            None => Ok(seq![]),
            Some(m) => match elm_children_at(code, seq![m as usize]) {
                None => Err(unreadable()),
                Some((_, mc)) => match first_kind(mc, "exposing_list"@, 0) {
                    None => Ok(seq![]),
                    Some(x) => match elm_children_at(code, seq![m as usize, x as usize]) {
                        None => Err(unreadable()),
                        Some((_, el)) => exposing_entries(code, seq![m as usize, x as usize], el),
                    },
                },
            },
        },
    }
}

/// Reads what the children `el` of a module's exposing list at
/// `list_path` expose.
fn read_exposing_entries(
    code: &str,
    list_path: &Vec<usize>,
    el: &Vec<(u16, String, usize, String, usize, usize)>,
) -> (r: Result<Vec<ModuleExposed>, Error>)
    ensures
        match exposing_entries(code@, list_path@, children_view(el@)) {
            Ok(es) => r matches Ok(v) && exposing_view(v@) == es,
            Err(m) => r matches Err(e) && e.0@ == m,
        },
{
    let ghost cv = children_view(el@);
    let mut out: Vec<ModuleExposed> = Vec::new();
    let mut i: usize = 0;
    assert(cv.take(0) =~= Seq::<SpecChild>::empty());
    while i < el.len()
        invariant
            i <= el@.len(),
            cv == children_view(el@),
            exposing_entries(code@, list_path@, cv.take(i as int)) matches Ok(es) && exposing_view(
                out@,
            ) == es,
        decreases el.len() - i,
    {
        proof {
            reveal_strlit("double_dot");
            reveal_strlit("exposed_value");
            reveal_strlit("exposed_type");
        }
        assert(cv.take(i + 1).drop_last() =~= cv.take(i as int));
        assert(cv.take(i + 1).last() == cv[i as int]);
        let ghost before = out@;
        let kind = el[i].3.as_str();
        if same_text(kind, "double_dot") {
            out.push(ModuleExposed::All);
            assert(exposing_view(out@) =~= exposing_view(before).push(SpecModuleExposed::All));
        } else if same_text(kind, "exposed_value") {
            let e = ModuleExposed::Named { name: el[i].1.clone(), exposed_as: ExposedAs::Value };
            out.push(e);
            assert(exposing_view(out@) =~= exposing_view(before).push(e@));
        } else if same_text(kind, "exposed_type") {
            let path = extend_path(list_path, i);
            let tc = match children_at(code, &path) {
                Some((_, tc)) => tc,
                None => {
                    proof {
                        lemma_entries_failure_stays(code@, list_path@, cv, i as int + 1);
                    }
                    return Err(mk_err("could not find name node of type in exposing list"));
                },
            };
            if tc.len() == 0 {
                proof {
                    lemma_entries_failure_stays(code@, list_path@, cv, i as int + 1);
                }
                return Err(mk_err("could not find name node of type in exposing list"));
            }
            let how = if tc.len() > 1 {
                ExposedAs::TypeWithConstructors
            } else {
                ExposedAs::Type
            };
            let e = ModuleExposed::Named { name: tc[0].1.clone(), exposed_as: how };
            out.push(e);
            assert(exposing_view(out@) =~= exposing_view(before).push(e@));
        }
        i = i + 1;
    }
    assert(cv.take(el@.len() as int) =~= cv);
    Ok(out)
}

/// Once reading a first part of an exposing list fails, reading all of it
/// fails with the same error.
proof fn lemma_entries_failure_stays(code: Seq<char>, list_path: Seq<usize>, el: Seq<SpecChild>, j: int)
    requires
        0 <= j <= el.len(),
        exposing_entries(code, list_path, el.take(j)) is Err,
    ensures
        exposing_entries(code, list_path, el) == exposing_entries(code, list_path, el.take(j)),
    decreases el.len() - j,
{
    if j == el.len() {
        assert(el.take(j) =~= el);
    } else {
        assert(el.take(j + 1).drop_last() =~= el.take(j));
        lemma_entries_failure_stays(code, list_path, el, j + 1);
    }
}

/// Reads the exposing list of the module in `code`.
pub fn read_module_exposing(code: &str) -> (r: Result<Vec<ModuleExposed>, Error>)
    ensures
        match module_exposing(code@) {
            Ok(es) => r matches Ok(v) && exposing_view(v@) == es,
            Err(m) => r matches Err(e) && e.0@ == m,
        },
{
    let root: Vec<usize> = Vec::new();
    assert(root@ =~= Seq::<usize>::empty());
    let rc = match children_at(code, &root) {
        Some((_, rc)) => rc,
        None => {
            return Err(mk_err("could not read the syntax tree of the code"));
        },
    };
    let m = match first_of_kind(&rc, "module_declaration") {
        Some(m) => m,
        None => {
            return Ok(Vec::new());
        },
    };
    let mpath = vec![m];
    assert(mpath@ =~= seq![m]);
    let mc = match children_at(code, &mpath) {
        Some((_, mc)) => mc,
        None => {
            return Err(mk_err("could not read the syntax tree of the code"));
        },
    };
    let x = match first_of_kind(&mc, "exposing_list") {
        Some(x) => x,
        None => {
            return Ok(Vec::new());
        },
    };
    let xpath = vec![m, x];
    assert(xpath@ =~= seq![m, x]);
    let el = match children_at(code, &xpath) {
        Some((_, el)) => el,
        None => {
            return Err(mk_err("could not read the syntax tree of the code"));
        },
    };
    read_exposing_entries(code, &xpath, &el)
}

/// The constructor names of the union variants among `vc`, the children of
/// a custom type declaration at `path`: the name that starts each variant.
pub open spec fn variant_names(code: Seq<char>, path: Seq<usize>, vc: Seq<SpecChild>) -> Seq<
    Seq<char>,
>
    decreases vc.len(),
{
    if vc.len() == 0 {
        seq![]
    } else {
        let rest = variant_names(code, path, vc.drop_last());
        if vc.last().3 == "union_variant"@ {
            match elm_children_at(code, path.push((vc.len() - 1) as usize)) {
                Some((_, uc)) => if uc.len() > 0 && uc[0].3 == "upper_case_identifier"@ {
                    rest.push(uc[0].1)
                } else {
                    rest
                },
                None => rest,
            }
        } else {
            rest
        }
    }
}

/// Whether the type expression that `vc`, the children of a type alias
/// declaration at `d`, holds starts with a record type.
pub open spec fn aliases_record(code: Seq<char>, d: usize, vc: Seq<SpecChild>) -> bool {
    match first_kind(vc, "type_expression"@, 0) {
        Some(t) => match elm_children_at(code, seq![d, t as usize]) {
            Some((_, tc)) => tc.len() > 0 && tc[0].3 == "record_type"@,
            None => false,
        },
        None => false,
    }
}

/// The declaration that the top-level node `c`, the child at index `d` of
/// the root, makes: a value with the name its left-hand side starts with, a
/// custom type with its name and constructors, or a type alias with its
/// name; `None` for anything else.
pub open spec fn declaration_at(code: Seq<char>, d: usize, c: SpecChild) -> Option<SpecDeclaration> {
    if c.3 == "value_declaration"@ {
        match elm_children_at(code, seq![d]) {
            Some((_, vc)) => if vc.len() > 0 && vc[0].3 == "function_declaration_left"@ {
                match elm_children_at(code, seq![d, 0]) {
                    Some((_, fc)) => if fc.len() > 0 && fc[0].3 == "lower_case_identifier"@ {
                        Some(SpecDeclaration::Value(fc[0].1))
                    } else {
                        None
                    },
                    None => None,
                }
            } else {
                None
            },
            None => None,
        }
    } else if c.3 == "type_declaration"@ {
        match elm_children_at(code, seq![d]) {
            Some((_, vc)) => match first_kind(vc, "upper_case_identifier"@, 0) {
                Some(n) => Some(SpecDeclaration::CustomType(vc[n].1, variant_names(code, seq![d], vc))),
                None => None,
            },
            None => None,
        }
    } else if c.3 == "type_alias_declaration"@ {
        match elm_children_at(code, seq![d]) {
            Some((_, vc)) => match first_kind(vc, "upper_case_identifier"@, 0) {
                Some(n) => Some(SpecDeclaration::TypeAlias(vc[n].1, aliases_record(code, d, vc))),
                None => None,
            },
            None => None,
        }
    } else {
        None
    }
}

/// The declarations the top-level nodes `rc` make, in order.
pub open spec fn declarations_in(code: Seq<char>, rc: Seq<SpecChild>) -> Seq<SpecDeclaration>
    decreases rc.len(),
{
    if rc.len() == 0 {
        seq![]
    } else {
        let rest = declarations_in(code, rc.drop_last());
        match declaration_at(code, (rc.len() - 1) as usize, rc.last()) {
            Some(d) => rest.push(d),
            None => rest,
        }
    }
}

/// The declarations of the module in `code`, in order.
pub open spec fn module_declarations(code: Seq<char>) -> Result<Seq<SpecDeclaration>, Seq<char>> {
    match elm_children_at(code, seq![]) {
        None => Err(unreadable()),
        Some((_, rc)) => Ok(declarations_in(code, rc)),
    }
}

/// The names the module in `code` exports, in the order of its
/// declarations.
pub open spec fn spec_module_exports_of(code: Seq<char>) -> Result<Seq<SpecExportedName>, Seq<char>> {
    match module_exposing(code) {
        Err(m) => Err(m),
        Ok(list) => match module_declarations(code) {
            Err(m) => Err(m),
            Ok(decls) => Ok(spec_module_exports(decls, list)),
        },
    }
}

/// Reads the constructor names of the union variants among `vc`, the
/// children of a custom type declaration at `path`.
fn read_variant_names(
    code: &str,
    path: &Vec<usize>,
    vc: &Vec<(u16, String, usize, String, usize, usize)>,
) -> (r: Vec<String>)
    ensures
        strings_view(r@) == variant_names(code@, path@, children_view(vc@)),
{
    let ghost cv = children_view(vc@);
    let mut out: Vec<String> = Vec::new();
    let mut i: usize = 0;
    assert(cv.take(0) =~= Seq::<SpecChild>::empty());
    while i < vc.len()
        invariant
            i <= vc@.len(),
            cv == children_view(vc@),
            strings_view(out@) == variant_names(code@, path@, cv.take(i as int)),
        decreases vc.len() - i,
    {
        proof {
            reveal_strlit("union_variant");
            reveal_strlit("upper_case_identifier");
        }
        assert(cv.take(i + 1).drop_last() =~= cv.take(i as int));
        assert(cv.take(i + 1).last() == cv[i as int]);
        if same_text(vc[i].3.as_str(), "union_variant") {
            let upath = extend_path(path, i);
            match children_at(code, &upath) {
                Some((_, uc)) => {
                    if uc.len() > 0 && same_text(uc[0].3.as_str(), "upper_case_identifier") {
                        let ghost before = strings_view(out@);
                        out.push(uc[0].1.clone());
                        assert(strings_view(out@) =~= before.push(uc@[0].1@));
                    }
                },
                None => {},
            }
        }
        i = i + 1;
    }
    assert(cv.take(vc@.len() as int) =~= cv);
    out
}

/// Reads the declaration the top-level node `c`, the child at index `d` of
/// the root, makes.
fn read_declaration(code: &str, d: usize, c: &(u16, String, usize, String, usize, usize)) -> (r:
    Option<Declaration>)
    ensures
        match declaration_at(code@, d, (c.0, c.1@, c.2, c.3@, c.4, c.5)) {
            Some(x) => r matches Some(y) && y@ == x,
            None => r is None,
        },
{
    proof {
        reveal_strlit("value_declaration");
        reveal_strlit("type_declaration");
        reveal_strlit("type_alias_declaration");
        reveal_strlit("function_declaration_left");
        reveal_strlit("lower_case_identifier");
        reveal_strlit("upper_case_identifier");
        reveal_strlit("type_expression");
        reveal_strlit("record_type");
    }
    let kind = c.3.as_str();
    let dpath = vec![d];
    assert(dpath@ =~= seq![d]);
    if same_text(kind, "value_declaration") {
        let vc = match children_at(code, &dpath) {
            Some((_, vc)) => vc,
            None => {
                return None;
            },
        };
        if vc.len() == 0 || !same_text(vc[0].3.as_str(), "function_declaration_left") {
            return None;
        }
        let fpath = vec![d, 0];
        assert(fpath@ =~= seq![d, 0usize]);
        let fc = match children_at(code, &fpath) {
            Some((_, fc)) => fc,
            None => {
                return None;
            },
        };
        if fc.len() == 0 || !same_text(fc[0].3.as_str(), "lower_case_identifier") {
            return None;
        }
        Some(Declaration::Value { name: fc[0].1.clone() })
    } else if same_text(kind, "type_declaration") {
        let vc = match children_at(code, &dpath) {
            Some((_, vc)) => vc,
            None => {
                return None;
            },
        };
        let n = match first_of_kind(&vc, "upper_case_identifier") {
            Some(n) => n,
            None => {
                return None;
            },
        };
        let constructors = read_variant_names(code, &dpath, &vc);
        let name = vc[n].1.clone();
        assert(name@ == children_view(vc@)[n as int].1);
        assert(first_kind(children_view(vc@), "upper_case_identifier"@, 0) == Some(n as int));
        Some(Declaration::CustomType { name, constructors })
    } else if same_text(kind, "type_alias_declaration") {
        let vc = match children_at(code, &dpath) {
            Some((_, vc)) => vc,
            None => {
                return None;
            },
        };
        let n = match first_of_kind(&vc, "upper_case_identifier") {
            Some(n) => n,
            None => {
                return None;
            },
        };
        let is_record = match first_of_kind(&vc, "type_expression") {
            Some(t) => {
                let tpath = vec![d, t];
                assert(tpath@ =~= seq![d, t]);
                match children_at(code, &tpath) {
                    Some((_, tc)) => tc.len() > 0 && same_text(tc[0].3.as_str(), "record_type"),
                    None => false,
                }
            },
            None => false,
        };
        let name = vc[n].1.clone();
        assert(name@ == children_view(vc@)[n as int].1);
        assert(first_kind(children_view(vc@), "upper_case_identifier"@, 0) == Some(n as int));
        Some(Declaration::TypeAlias { name, is_record })
    } else {
        None
    }
}

/// Reads the declarations of the module in `code`.
pub fn read_module_declarations(code: &str) -> (r: Result<Vec<Declaration>, Error>)
    ensures
        match module_declarations(code@) {
            Ok(ds) => r matches Ok(v) && declarations_view(v@) == ds,
            Err(m) => r matches Err(e) && e.0@ == m,
        },
{
    let root: Vec<usize> = Vec::new();
    assert(root@ =~= Seq::<usize>::empty());
    let rc = match children_at(code, &root) {
        Some((_, rc)) => rc,
        None => {
            return Err(mk_err("could not read the syntax tree of the code"));
        },
    };
    let ghost cv = children_view(rc@);
    let mut out: Vec<Declaration> = Vec::new();
    let mut i: usize = 0;
    assert(cv.take(0) =~= Seq::<SpecChild>::empty());
    while i < rc.len()
        invariant
            i <= rc@.len(),
            cv == children_view(rc@),
            declarations_view(out@) == declarations_in(code@, cv.take(i as int)),
        decreases rc.len() - i,
    {
        assert(cv.take(i + 1).drop_last() =~= cv.take(i as int));
        assert(cv.take(i + 1).last() == cv[i as int]);
        match read_declaration(code, i, &rc[i]) {
            Some(d) => {
                let ghost before = declarations_view(out@);
                out.push(d);
                assert(declarations_view(out@) =~= before.push(d@));
            },
            None => {},
        }
        i = i + 1;
    }
    assert(cv.take(rc@.len() as int) =~= cv);
    Ok(out)
}

/// The names the module in `code` exports, in the order of its
/// declarations, as read from its syntax tree.
pub fn module_exports_of(code: &str) -> (r: Result<Vec<ExportedName>, Error>)
    ensures
        match spec_module_exports_of(code@) {
            Ok(es) => r matches Ok(v) && exports_view(v@) == es,
            Err(m) => r matches Err(e) && e.0@ == m,
        },
{
    let exposing = read_module_exposing(code)?;
    let declarations = read_module_declarations(code)?;
    Ok(exports_of_declarations(&declarations, &exposing))
}

/// The neighbour of an exposing list entry that the child at `j` of the
/// list's children `cs` is, if there is such a child, with the edge of the
/// child beyond it: its start for a following neighbour (`forward`), its
/// end for a preceding one.
pub open spec fn neighbour_at(cs: Seq<SpecChild>, j: int, forward: bool) -> Option<Neighbour> {
    if 0 <= j < cs.len() {
        let b = if forward {
            j + 1
        } else {
            j - 1
        };
        Some(
            Neighbour {
                is_comma: cs[j].3 == ","@,
                range: Range { start: cs[j].4, end: cs[j].5 },
                beyond: if 0 <= b < cs.len() {
                    Some(
                        if forward {
                            cs[b].4
                        } else {
                            cs[b].5
                        },
                    )
                } else {
                    None
                },
            },
        )
    } else {
        None
    }
}

/// The entry at `j` among the children `cs` of an import's exposing list.
pub open spec fn entry_with(
    cs: Seq<SpecChild>,
    j: int,
    exposed: SpecExposedName,
    constructors_range: Option<Range<usize>>,
) -> SpecEntry {
    SpecEntry {
        exposed,
        range: Range { start: cs[j].4, end: cs[j].5 },
        constructors_range,
        prev: neighbour_at(cs, j - 1, false),
        next: neighbour_at(cs, j + 1, true),
    }
}

/// The entry of an import's exposing list that the child at `j` of the
/// list's children `cs` (the list at `list_path`) is. The first child (the
/// keyword), brackets, commas and empty nodes are no entry; values,
/// operators, types (with the bytes of their `(..)`, if any) and `..` are;
/// anything else is an error.
pub open spec fn import_entry(code: Seq<char>, list_path: Seq<usize>, cs: Seq<SpecChild>, j: int) -> Result<
    Option<SpecEntry>,
    Seq<char>,
> {
    let c = cs[j];
    if j == 0 || c.3 == "("@ || c.3 == ")"@ || c.3 == ","@ || c.4 == c.5 {
        Ok(None)
    } else if c.3 == "exposed_value"@ {
        Ok(Some(entry_with(cs, j, SpecExposedName::Value { name: c.1 }, None)))
    } else if c.3 == "exposed_operator"@ {
        Ok(Some(entry_with(cs, j, SpecExposedName::Operator { name: c.1 }, None)))
    } else if c.3 == "double_dot"@ {
        Ok(Some(entry_with(cs, j, SpecExposedName::All, None)))
    } else if c.3 == "exposed_type"@ {
        match elm_children_at(code, list_path.push(j as usize)) {
            Some((_, tc)) => if tc.len() > 0 {
                Ok(
                    Some(
                        entry_with(
                            cs,
                            j,
                            SpecExposedName::Type { name: tc[0].1, exposing_constructors: tc.len() > 1 },
                            if tc.len() > 1 {
                                Some(Range { start: tc[1].4, end: tc[1].5 })
                            } else {
                                None
                            },
                        ),
                    ),
                )
            } else {
                Err("did not find name node for type in exposing list"@)
            },
            None => Err("did not find name node for type in exposing list"@),
        }
    } else {
        Err("capture in query for exposing list has unexpected kind"@)
    }
}

/// The entries among the first `n` children `cs` of an import's exposing
/// list at `list_path`, in order.
pub open spec fn import_entries(code: Seq<char>, list_path: Seq<usize>, cs: Seq<SpecChild>, n: int) -> Result<
    Seq<SpecEntry>,
    Seq<char>,
>
    decreases n,
{
    if n <= 0 || n > cs.len() {
        Ok(seq![])
    } else {
        match import_entries(code, list_path, cs, n - 1) {
            Err(m) => Err(m),
            Ok(es) => match import_entry(code, list_path, cs, n - 1) {
                Err(m) => Err(m),
                Ok(None) => Ok(es),
                Ok(Some(e)) => Ok(es.push(e)),
            },
        }
    }
}

proof fn lemma_import_entries_failure_stays(
    code: Seq<char>,
    list_path: Seq<usize>,
    cs: Seq<SpecChild>,
    j: int,
)
    requires
        0 <= j <= cs.len(),
        import_entries(code, list_path, cs, j) is Err,
    ensures
        import_entries(code, list_path, cs, cs.len() as int) == import_entries(code, list_path, cs, j),
    decreases cs.len() - j,
{
    if j < cs.len() {
        lemma_import_entries_failure_stays(code, list_path, cs, j + 1);
    }
}

/// The neighbour of an entry at the child `j` of `cs`.
fn read_neighbour(cs: &Vec<(u16, String, usize, String, usize, usize)>, j: usize, forward: bool) -> (r: Neighbour)
    requires
        j < cs@.len(),
    ensures
        Some(r) == neighbour_at(children_view(cs@), j as int, forward),
{
    proof {
        reveal_strlit(",");
    }
    let beyond = if forward {
        if j < cs.len() - 1 {
            Some(cs[j + 1].4)
        } else {
            None
        }
    } else {
        if j >= 1 {
            Some(cs[j - 1].5)
        } else {
            None
        }
    };
    Neighbour { is_comma: same_text(cs[j].3.as_str(), ","), range: cs[j].4..cs[j].5, beyond }
}

/// The entry at `j` among the children `cs` of an import's exposing list.
fn read_entry_with(
    cs: &Vec<(u16, String, usize, String, usize, usize)>,
    j: usize,
    exposed: ExposedName,
    constructors_range: Option<Range<usize>>,
) -> (r: ExposedEntry)
    requires
        j < cs@.len(),
    ensures
        r@ == entry_with(children_view(cs@), j as int, exposed@, constructors_range),
{
    let prev = if j >= 1 {
        Some(read_neighbour(cs, j - 1, false))
    } else {
        None
    };
    let next = if j < cs.len() - 1 {
        Some(read_neighbour(cs, j + 1, true))
    } else {
        None
    };
    ExposedEntry { exposed, range: cs[j].4..cs[j].5, constructors_range, prev, next }
}

/// Reads the entries of an import's exposing list at `list_path`, whose
/// children are `cs`.
fn read_import_entries(
    code: &str,
    list_path: &Vec<usize>,
    cs: &Vec<(u16, String, usize, String, usize, usize)>,
) -> (r: Result<Vec<ExposedEntry>, Error>)
    ensures
        match import_entries(code@, list_path@, children_view(cs@), cs@.len() as int) {
            Ok(es) => r matches Ok(v) && entries_view(v@) == es,
            Err(m) => r matches Err(e) && e.0@ == m,
        },
{
    let ghost cv = children_view(cs@);
    let mut out: Vec<ExposedEntry> = Vec::new();
    let mut j: usize = 0;
    while j < cs.len()
        invariant
            j <= cs@.len(),
            cv == children_view(cs@),
            import_entries(code@, list_path@, cv, j as int) matches Ok(es) && entries_view(out@)
                == es,
        decreases cs.len() - j,
    {
        proof {
            reveal_strlit("(");
            reveal_strlit(")");
            reveal_strlit(",");
            reveal_strlit("exposed_value");
            reveal_strlit("exposed_operator");
            reveal_strlit("double_dot");
            reveal_strlit("exposed_type");
        }
        let ghost before = entries_view(out@);
        let kind = cs[j].3.as_str();
        if j == 0 || same_text(kind, "(") || same_text(kind, ")") || same_text(kind, ",")
            || cs[j].4 == cs[j].5 {
        } else if same_text(kind, "exposed_value") {
            let e = read_entry_with(cs, j, ExposedName::Value { name: cs[j].1.clone() }, None);
            out.push(e);
            assert(entries_view(out@) =~= before.push(e@));
        } else if same_text(kind, "exposed_operator") {
            let e = read_entry_with(cs, j, ExposedName::Operator { name: cs[j].1.clone() }, None);
            out.push(e);
            assert(entries_view(out@) =~= before.push(e@));
        } else if same_text(kind, "double_dot") {
            let e = read_entry_with(cs, j, ExposedName::All, None);
            out.push(e);
            assert(entries_view(out@) =~= before.push(e@));
        } else if same_text(kind, "exposed_type") {
            let path = extend_path(list_path, j);
            let tc = match children_at(code, &path) {
                Some((_, tc)) => tc,
                None => {
                    proof {
                        lemma_import_entries_failure_stays(code@, list_path@, cv, j + 1);
                    }
                    return Err(mk_err("did not find name node for type in exposing list"));
                },
            };
            if tc.len() == 0 {
                proof {
                    lemma_import_entries_failure_stays(code@, list_path@, cv, j + 1);
                }
                return Err(mk_err("did not find name node for type in exposing list"));
            }
            let cr = if tc.len() > 1 {
                Some(tc[1].4..tc[1].5)
            } else {
                None
            };
            let exposed = ExposedName::Type {
                name: tc[0].1.clone(),
                exposing_constructors: tc.len() > 1,
            };
            let e = read_entry_with(cs, j, exposed, cr);
            out.push(e);
            assert(entries_view(out@) =~= before.push(e@));
        } else {
            proof {
                lemma_import_entries_failure_stays(code@, list_path@, cv, j + 1);
            }
            return Err(mk_err("capture in query for exposing list has unexpected kind"));
        }
        j = j + 1;
    }
    Ok(out)
}

/// The alias an `as` clause at child `a` of the import at root child `k`
/// gives, with the bytes of the clause and of the alias.
pub open spec fn alias_at(code: Seq<char>, k: usize, ic: Seq<SpecChild>) -> Option<
    (Seq<char>, (Range<usize>, Range<usize>)),
> {
    match first_kind(ic, "as_clause"@, 0) {
        None => None,
        Some(a) => match elm_children_at(code, seq![k, a as usize]) {
            None => None,
            Some((_, ac)) => match first_kind(ac, "upper_case_identifier"@, 0) {
                None => None,
                Some(u) => Some(
                    (
                        ac[u].1,
                        (
                            Range { start: ic[a].4, end: ic[a].5 },
                            Range { start: ac[u].4, end: ac[u].5 },
                        ),
                    ),
                ),
            },
        },
    }
}

/// The import that the top-level node `c`, the child at index `k` of the
/// root, is: `Ok(None)` for a node that is no import clause or names no
/// module.
pub open spec fn import_at(code: Seq<char>, k: usize, c: SpecChild) -> Result<Option<SpecImport>, Seq<char>> {
    if c.3 != "import_clause"@ {
        Ok(None)
    } else {
        match elm_children_at(code, seq![k]) {
            None => Err(unreadable()),
            Some((_, ic)) => match first_kind(ic, "upper_case_qid"@, 0) {
                None => Ok(None),
                Some(n) => {
                    let alias = alias_at(code, k, ic);
                    let base = SpecImport {
                        start: c.4,
                        end: c.5,
                        module_name: ic[n].1,
                        alias: match alias {
                            Some((a, _)) => Some(a),
                            None => None,
                        },
                        name_end: ic[n].5,
                        as_clause: match alias {
                            Some((_, r)) => Some(r),
                            None => None,
                        },
                        exposing_range: None,
                        exposing: seq![],
                    };
                    match first_kind(ic, "exposing_list"@, 0) {
                        None => Ok(Some(base)),
                        Some(x) => match elm_children_at(code, seq![k, x as usize]) {
                            None => Err(unreadable()),
                            Some((_, xc)) => match import_entries(
                                code,
                                seq![k, x as usize],
                                xc,
                                xc.len() as int,
                            ) {
                                Err(m) => Err(m),
                                Ok(es) => Ok(
                                    Some(
                                        SpecImport {
                                            exposing_range: Some(
                                                Range { start: ic[x].4, end: ic[x].5 },
                                            ),
                                            exposing: es,
                                            ..base
                                        },
                                    ),
                                ),
                            },
                        },
                    }
                },
            },
        }
    }
}

/// The imports among the top-level nodes `rc`, in order.
pub open spec fn imports_in(code: Seq<char>, rc: Seq<SpecChild>) -> Result<Seq<SpecImport>, Seq<char>>
    decreases rc.len(),
{
    if rc.len() == 0 {
        Ok(seq![])
    } else {
        match imports_in(code, rc.drop_last()) {
            Err(m) => Err(m),
            Ok(is) => match import_at(code, (rc.len() - 1) as usize, rc.last()) {
                Err(m) => Err(m),
                Ok(None) => Ok(is),
                Ok(Some(imp)) => Ok(is.push(imp)),
            },
        }
    }
}

/// The imports of the module in `code`, in order.
pub open spec fn module_imports(code: Seq<char>) -> Result<Seq<SpecImport>, Seq<char>> {
    match elm_children_at(code, seq![]) {
        None => Err(unreadable()),
        Some((_, rc)) => imports_in(code, rc),
    }
}

/// Reads the alias of an import at root child `k` with children `ic`.
fn read_alias(code: &str, k: usize, ic: &Vec<(u16, String, usize, String, usize, usize)>) -> (r: Option<
    (String, (Range<usize>, Range<usize>)),
>)
    ensures
        match alias_at(code@, k, children_view(ic@)) {
            Some((a, rs)) => r matches Some((b, qs)) && b@ == a && qs == rs,
            None => r is None,
        },
{
    let a = match first_of_kind(ic, "as_clause") {
        Some(a) => a,
        None => {
            return None;
        },
    };
    let apath = vec![k, a];
    assert(apath@ =~= seq![k, a]);
    let ac = match children_at(code, &apath) {
        Some((_, ac)) => ac,
        None => {
            return None;
        },
    };
    let u = match first_of_kind(&ac, "upper_case_identifier") {
        Some(u) => u,
        None => {
            return None;
        },
    };
    let name = ac[u].1.clone();
    assert(name@ == children_view(ac@)[u as int].1);
    Some((name, (ic[a].4..ic[a].5, ac[u].4..ac[u].5)))
}

/// Reads the import that the top-level node `c`, the child at index `k` of
/// the root, is.
fn read_import(code: &str, k: usize, c: &(u16, String, usize, String, usize, usize)) -> (r: Result<
    Option<Import>,
    Error,
>)
    ensures
        match import_at(code@, k, (c.0, c.1@, c.2, c.3@, c.4, c.5)) {
            Ok(Some(x)) => r matches Ok(Some(y)) && y@ == x,
            Ok(None) => r matches Ok(None),
            Err(m) => r matches Err(e) && e.0@ == m,
        },
{
    proof {
        reveal_strlit("import_clause");
    }
    if !same_text(c.3.as_str(), "import_clause") {
        return Ok(None);
    }
    let kpath = vec![k];
    assert(kpath@ =~= seq![k]);
    let ic = match children_at(code, &kpath) {
        Some((_, ic)) => ic,
        None => {
            return Err(mk_err("could not read the syntax tree of the code"));
        },
    };
    let n = match first_of_kind(&ic, "upper_case_qid") {
        Some(n) => n,
        None => {
            return Ok(None);
        },
    };
    let alias = read_alias(code, k, &ic);
    let (alias_name, as_clause) = match alias {
        Some((a, rs)) => (Some(a), Some(rs)),
        None => (None, None),
    };
    let module_name = ic[n].1.clone();
    assert(module_name@ == children_view(ic@)[n as int].1);
    let (exposing_range, exposing) = match first_of_kind(&ic, "exposing_list") {
        None => (None, Vec::new()),
        Some(x) => {
            let xpath = vec![k, x];
            assert(xpath@ =~= seq![k, x]);
            let xc = match children_at(code, &xpath) {
                Some((_, xc)) => xc,
                None => {
                    return Err(mk_err("could not read the syntax tree of the code"));
                },
            };
            let entries = read_import_entries(code, &xpath, &xc)?;
            (Some(ic[x].4..ic[x].5), entries)
        },
    };
    let imp = Import {
        start: c.4,
        end: c.5,
        module_name,
        alias: alias_name,
        name_end: ic[n].5,
        as_clause,
        exposing_range,
        exposing,
    };
    assert(entries_view(Seq::<ExposedEntry>::empty()) =~= Seq::<SpecEntry>::empty());
    Ok(Some(imp))
}

/// Reads the imports of the module in `code`, in order.
pub fn read_module_imports(code: &str) -> (r: Result<Vec<Import>, Error>)
    ensures
        match module_imports(code@) {
            Ok(is) => r matches Ok(v) && imports_view(v@) == is,
            Err(m) => r matches Err(e) && e.0@ == m,
        },
{
    let root: Vec<usize> = Vec::new();
    assert(root@ =~= Seq::<usize>::empty());
    let rc = match children_at(code, &root) {
        Some((_, rc)) => rc,
        None => {
            return Err(mk_err("could not read the syntax tree of the code"));
        },
    };
    let ghost cv = children_view(rc@);
    let mut out: Vec<Import> = Vec::new();
    let mut i: usize = 0;
    assert(cv.take(0) =~= Seq::<SpecChild>::empty());
    while i < rc.len()
        invariant
            i <= rc@.len(),
            cv == children_view(rc@),
            elm_children_at(code@, seq![]) matches Some((_, c)) && c == cv,
            imports_in(code@, cv.take(i as int)) matches Ok(is) && imports_view(out@) == is,
        decreases rc.len() - i,
    {
        assert(cv.take(i + 1).drop_last() =~= cv.take(i as int));
        assert(cv.take(i + 1).last() == cv[i as int]);
        match read_import(code, i, &rc[i]) {
            Ok(Some(imp)) => {
                let ghost before = imports_view(out@);
                out.push(imp);
                assert(imports_view(out@) =~= before.push(imp@));
            },
            Ok(None) => {},
            Err(e) => {
                proof {
                    assert(imports_in(code@, cv.take(i + 1)) == Err::<Seq<SpecImport>, Seq<char>>(
                        e.0@,
                    ));
                    lemma_imports_failure_stays(code@, cv, i as int + 1);
                }
                return Err(e);
            },
        }
        i = i + 1;
    }
    assert(cv.take(rc@.len() as int) =~= cv);
    Ok(out)
}

proof fn lemma_imports_failure_stays(code: Seq<char>, rc: Seq<SpecChild>, j: int)
    requires
        0 <= j <= rc.len(),
        imports_in(code, rc.take(j)) is Err,
    ensures
        imports_in(code, rc) == imports_in(code, rc.take(j)),
    decreases rc.len() - j,
{
    if j == rc.len() {
        assert(rc.take(j) =~= rc);
    } else {
        assert(rc.take(j + 1).drop_last() =~= rc.take(j));
        lemma_imports_failure_stays(code, rc, j + 1);
    }
}

} // verus!
