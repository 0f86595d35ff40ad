//! Names of Elm modules, and the module name an Elm file's path implies.
use vstd::prelude::*;
use crate::error::{Error, mk_err};
use crate::paths::{
    components, path_components, path_with_extension, path_without_prefix, strip_prefix,
    with_extension,
};

verus! {

/// The name of an Elm module, such as `Json.Decode`.
#[derive(Clone, Debug, PartialEq, Eq, Hash, PartialOrd, Ord)]
pub struct ModuleName(pub String);

impl View for ModuleName {
    type V = Seq<char>;

    open spec fn view(&self) -> Seq<char> {
        self.0@
    }
}

impl ModuleName {
    /// The module called `name`.
    pub fn from_str(name: &str) -> (r: ModuleName)
        ensures
            r@ == name@,
    {
        ModuleName(name.to_string())
    }

    /// The module name as text.
    pub fn as_str(&self) -> (r: &str)
        ensures
            r@ == self@,
    {
        self.0.as_str()
    }
}

/// Whether a path component names a directory or file: not the root, `.`
/// or `..`.
pub open spec fn is_normal_component(c: Seq<char>) -> bool {
    c != seq!['/'] && c != seq!['.'] && c != seq!['.', '.']
}

/// The components among `cs` that name directories or files, in order.
pub open spec fn normal_components(cs: Seq<Seq<char>>) -> Seq<Seq<char>>
    decreases cs.len(),
{
    if cs.len() == 0 {
        seq![]
    } else if is_normal_component(cs.last()) {
        normal_components(cs.drop_last()).push(cs.last())
    } else {
        normal_components(cs.drop_last())
    }
}

/// The texts `parts` joined with `sep` between each two consecutive ones.
pub open spec fn join_with(parts: Seq<Seq<char>>, sep: char) -> Seq<char>
    decreases parts.len(),
{
    if parts.len() == 0 {
        seq![]
    } else if parts.len() == 1 {
        parts[0]
    } else {
        join_with(parts.drop_last(), sep) + seq![sep] + parts.last()
    }
}

/// The module name the Elm file at `path` has within the source directory
/// `source_dir`: the directories and file name (without extension) below
/// the source directory, joined with dots. `None` when the file does not lie
/// in the source directory.
pub open spec fn spec_module_name(source_dir: Seq<char>, path: Seq<char>) -> Option<Seq<char>> {
    match path_without_prefix(path_with_extension(path, Seq::empty()), source_dir) {
        None => None,
        Some(rel) => Some(join_with(normal_components(path_components(rel)), '.')),
    }
}

/// The module name the Elm file at `path` has within the source directory
/// `source_dir`; an error when the file lies outside it.
pub fn from_path(source_dir: &str, path: &str) -> (r: Result<ModuleName, Error>)
    ensures
        match spec_module_name(source_dir@, path@) {
            Some(name) => r matches Ok(m) && m@ == name,
            None => r matches Err(e) && e.0@
                == "error stripping source directory from elm module path"@,
        },
{
    proof {
        reveal_strlit("");
        assert(""@ =~= Seq::<char>::empty());
    }
    let without_extension = with_extension(path, "");
    let rel = match strip_prefix(without_extension.as_str(), source_dir) {
        Some(rel) => rel,
        None => {
            return Err(mk_err("error stripping source directory from elm module path"));
        },
    };
    let comps = components(rel.as_str());
    let ghost cs = comps@.map_values(|s: String| s@);
    let mut name = String::new();
    let mut any = false;
    let mut i: usize = 0;
    while i < comps.len()
        invariant
            i <= comps@.len(),
            cs == comps@.map_values(|s: String| s@),
            name@ == join_with(normal_components(cs.take(i as int)), '.'),
            any <==> normal_components(cs.take(i as int)).len() > 0,
        decreases comps.len() - i,
    {
        let c = comps[i].as_str();
        assert(c@ == cs[i as int]);
        assert(cs.take(i + 1).drop_last() =~= cs.take(i as int));
        assert(cs.take(i + 1).last() == cs[i as int]);
        let root = c.unicode_len() == 1 && c.get_char(0) == '/';
        let here = c.unicode_len() == 1 && c.get_char(0) == '.';
        let up = c.unicode_len() == 2 && c.get_char(0) == '.' && c.get_char(1) == '.';
        assert(!(root || here || up) <==> is_normal_component(c@)) by {
            if c@ == seq!['/'] || c@ == seq!['.'] {
                assert(c@.len() == 1);
            }
            if c@ == seq!['.', '.'] {
                assert(c@.len() == 2);
            }
            if root {
                assert(c@ =~= seq!['/']);
            }
            if here {
                assert(c@ =~= seq!['.']);
            }
            if up {
                assert(c@ =~= seq!['.', '.']);
            }
        }
        if !(root || here || up) {
            let ghost before = normal_components(cs.take(i as int));
            if any {
                name.append(".");
                proof {
                    reveal_strlit(".");
                }
            }
            name.append(c);
            proof {
                let after = before.push(c@);
                assert(after.drop_last() =~= before);
                if before.len() > 0 {
                    assert(name@ =~= join_with(before, '.') + seq!['.'] + c@);
                } else {
                    assert(name@ =~= c@);
                }
            }
            any = true;
        }
        i = i + 1;
    }
    assert(cs.take(comps@.len() as int) =~= cs);
    Ok(ModuleName(name))
}

} // verus!
