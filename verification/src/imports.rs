//! Adding imports for modules the programmer started using without
//! importing them.
use vstd::prelude::*;
use crate::kinds::{BLOCK_COMMENT, MODULE_DECLARATION};
use crate::exports::strings_view;
use crate::text::same_text;

verus! {

/// The modules every Elm module imports without saying so.
pub open spec fn implicit_imports() -> Seq<Seq<char>> {
    seq![
        "Basics"@,
        "Char"@,
        "Cmd"@,
        "List"@,
        "Maybe"@,
        "Platform"@,
        "Result"@,
        "String"@,
        "Sub"@,
        "Tuple"@,
    ]
}

/// Whether `name` is a module every Elm module imports implicitly.
pub fn is_implicit_import(name: &str) -> (r: bool)
    ensures
        r == implicit_imports().contains(name@),
{
    let implicit = vec![
        "Basics",
        "Char",
        "Cmd",
        "List",
        "Maybe",
        "Platform",
        "Result",
        "String",
        "Sub",
        "Tuple",
    ];
    assert(implicit@.map_values(|s: &str| s@) =~= implicit_imports());
    let mut i: usize = 0;
    while i < implicit.len()
        invariant
            i <= implicit@.len(),
            implicit@.map_values(|s: &str| s@) == implicit_imports(),
            forall|j: int| 0 <= j < i ==> implicit_imports()[j] != name@,
        decreases implicit.len() - i,
    {
        if same_text(implicit[i], name) {
            assert(implicit_imports()[i as int] == name@);
            return true;
        }
        assert(implicit_imports()[i as int] == implicit@[i as int]@);
        i = i + 1;
    }
    false
}

/// The distinct qualifiers among `references` (each a qualifier and the
/// name it qualifies) that qualify a name already typed (not empty) and
/// that no import among `imports` (the names or aliases modules are
/// imported under) provides.
pub open spec fn is_unimported_qualifier(
    q: Seq<char>,
    imports: Seq<Seq<char>>,
    references: Seq<(Seq<char>, Seq<char>)>,
) -> bool {
    &&& exists|i: int|
        0 <= i < references.len() && #[trigger] references[i].0 == q && references[i].1.len() > 0
    &&& !imports.contains(q)
}

/// The qualifiers used in `references` of modules not imported under that
/// name in `imports`, each once.
pub fn find_unimported_qualifiers(imports: &Vec<String>, references: &Vec<(String, String)>) -> (r:
    Vec<String>)
    ensures
        strings_view(r@).no_duplicates(),
        forall|q: Seq<char>|
            strings_view(r@).contains(q) <==> is_unimported_qualifier(
                q,
                strings_view(imports@),
                references@.map_values(|p: (String, String)| (p.0@, p.1@)),
            ),
{
    let ghost imps = strings_view(imports@);
    let ghost refs = references@.map_values(|p: (String, String)| (p.0@, p.1@));
    let mut out: Vec<String> = Vec::new();
    let mut i: usize = 0;
    while i < references.len()
        invariant
            i <= references@.len(),
            imps == strings_view(imports@),
            refs == references@.map_values(|p: (String, String)| (p.0@, p.1@)),
            strings_view(out@).no_duplicates(),
            forall|q: Seq<char>|
                #![trigger strings_view(out@).contains(q)]
                strings_view(out@).contains(q) <==> (exists|k: int|
                    0 <= k < i && #[trigger] refs[k].0 == q && refs[k].1.len() > 0) && !imps.contains(
                    q,
                ),
        decreases references.len() - i,
    {
        let q = &references[i].0;
        let name = &references[i].1;
        assert(refs[i as int] == (q@, name@));
        let ghost before = strings_view(out@);
        let typed = name.as_str().unicode_len() > 0;
        let imported = contains_text(imports, q.as_str());
        let seen = contains_text(&out, q.as_str());
        if typed && !imported && !seen {
            out.push(q.clone());
            assert(strings_view(out@) =~= before.push(q@));
        }
        let ghost now = strings_view(out@);
        assert forall|p: Seq<char>|
            now.contains(p) <==> (exists|k: int|
                0 <= k < i + 1 && #[trigger] refs[k].0 == p && refs[k].1.len() > 0) && !imps.contains(
                p,
            ) by {
            if p == q@ {
                if typed && !imported {
                    if seen {
                        assert(before.contains(p));
                    } else {
                        assert(now[now.len() - 1] == p);
                    }
                }
                if now.contains(p) && !before.contains(p) {
                    assert(refs[i as int].0 == p);
                }
            } else {
                if now.contains(p) {
                    let m = choose|m: int| 0 <= m < now.len() && now[m] == p;
                    if m < before.len() {
                        assert(before[m] == p);
                    }
                }
                if before.contains(p) {
                    let m = choose|m: int| 0 <= m < before.len() && before[m] == p;
                    assert(now[m] == p);
                }
                if exists|k: int| 0 <= k < i + 1 && #[trigger] refs[k].0 == p && refs[k].1.len() > 0 {
                    let k = choose|k: int| 0 <= k < i + 1 && #[trigger] refs[k].0 == p && refs[k].1.len() > 0;
                    assert(k < i);
                }
            }
        }
        i = i + 1;
    }
    out
}

/// Whether `t` is among the texts `v`.
fn contains_text(v: &Vec<String>, t: &str) -> (r: bool)
    ensures
        r == strings_view(v@).contains(t@),
{
    let mut i: usize = 0;
    while i < v.len()
        invariant
            i <= v@.len(),
            forall|j: int| 0 <= j < i ==> v@[j]@ != t@,
        decreases v.len() - i,
    {
        if same_text(v[i].as_str(), t) {
            assert(strings_view(v@)[i as int] == t@);
            return true;
        }
        i = i + 1;
    }
    proof {
        if strings_view(v@).contains(t@) {
            let j = choose|j: int| 0 <= j < v@.len() && strings_view(v@)[j] == t@;
            assert(v@[j]@ == t@);
        }
    }
    false
}

/// Where new imports go: before the first top-level node that is neither
/// the module declaration nor a block comment, or at the last node when
/// all are. `nodes` holds the kind and start byte of each top-level node;
/// `file_start` is where the file's node starts.
pub open spec fn spec_import_position(nodes: Seq<(u16, usize)>, file_start: usize) -> usize
    decreases nodes.len(),
{
    if nodes.len() == 0 {
        file_start
    } else if nodes.len() == 1 || (nodes[0].0 != MODULE_DECLARATION && nodes[0].0 != BLOCK_COMMENT) {
        nodes[0].1
    } else {
        spec_import_position(nodes.skip(1), file_start)
    }
}

/// The byte at which to insert new imports.
pub fn import_position(nodes: &Vec<(u16, usize)>, file_start: usize) -> (r: usize)
    ensures
        r == spec_import_position(nodes@, file_start),
{
    if nodes.len() == 0 {
        return file_start;
    }
    let mut i: usize = 0;
    assert(nodes@.skip(0) =~= nodes@);
    while i + 1 < nodes.len() && (nodes[i].0 == MODULE_DECLARATION || nodes[i].0 == BLOCK_COMMENT)
        invariant
            i < nodes@.len(),
            spec_import_position(nodes@, file_start) == spec_import_position(
                nodes@.skip(i as int),
                file_start,
            ),
        decreases nodes.len() - i,
    {
        assert(nodes@.skip(i as int).skip(1) =~= nodes@.skip(i + 1));
        i = i + 1;
    }
    assert(nodes@.skip(i as int)[0] == nodes@[i as int]);
    nodes[i].1
}

/// The import lines to add for the modules `names`, where `has_exports`
/// tells for each whether it exports anything: one `import` line for each
/// module that is not imported implicitly and exports something, in order.
pub open spec fn spec_import_lines(names: Seq<Seq<char>>, has_exports: Seq<bool>) -> Seq<Seq<char>>
    decreases names.len(),
{
    if names.len() == 0 {
        seq![]
    } else {
        let rest = spec_import_lines(names.drop_last(), has_exports);
        let i = names.len() - 1;
        if !implicit_imports().contains(names[i]) && has_exports[i] {
            rest.push("import "@ + names[i] + "\n"@)
        } else {
            rest
        }
    }
}

/// The import lines to add for the modules `new_import_names`, where
/// `has_exports` tells for each whether it exports anything.
pub fn import_lines(new_import_names: &Vec<String>, has_exports: &Vec<bool>) -> (r: Vec<String>)
    requires
        has_exports@.len() == new_import_names@.len(),
    ensures
        strings_view(r@) == spec_import_lines(
            strings_view(new_import_names@),
            has_exports@,
        ),
{
    let ghost names = strings_view(new_import_names@);
    let mut out: Vec<String> = Vec::new();
    let mut i: usize = 0;
    assert(names.take(0) =~= Seq::<Seq<char>>::empty());
    while i < new_import_names.len()
        invariant
            i <= new_import_names@.len(),
            has_exports@.len() == new_import_names@.len(),
            names == strings_view(new_import_names@),
            strings_view(out@) == spec_import_lines(names.take(i as int), has_exports@),
        decreases new_import_names.len() - i,
    {
        let name = new_import_names[i].as_str();
        assert(names.take(i + 1).drop_last() =~= names.take(i as int));
        assert(names.take(i + 1)[i as int] == name@);
        if !is_implicit_import(name) && has_exports[i] {
            let line = String::from_str("import ").concat(name).concat("\n");
            let ghost before = strings_view(out@);
            out.push(line);
            assert(strings_view(out@) =~= before.push("import "@ + name@ + "\n"@));
        }
        i = i + 1;
    }
    assert(names.take(new_import_names@.len() as int) =~= names);
    out
}

} // verus!
