//! The layout of an Elm project on disk: where its `elm.json` and compiled
//! interface file live, and finding the project a module belongs to.
use vstd::prelude::*;
use crate::error::{Error, mk_err};
use crate::paths::{
    dir_part, dir_then_name, join, joined_names, joined_path, last_separator, parent, parent_path,
    path_components, plain_dir, plain_name, plain_names,
};

verus! {

/// The version of the Elm compiler elm-pair works with.
pub const VERSION: &'static str = "0.19.1";

/// The ancestors of the path `p`: `p` itself for `k == 0`, then its parent,
/// its parent's parent and so on; `None` past the last.
pub open spec fn ancestor(p: Seq<char>, k: nat) -> Option<Seq<char>>
    decreases k,
{
    if k == 0 {
        Some(p)
    } else {
        match ancestor(p, (k - 1) as nat) {
            Some(q) => parent_path(q),
            None => None,
        }
    }
}

/// The path of the `elm.json` file in the directory `dir`.
pub open spec fn elm_json_in(dir: Seq<char>) -> Seq<char> {
    joined_path(dir, "elm.json"@)
}

/// Whether the existence check `has_file` may answer `answer` for the path
/// with text `path`.
pub open spec fn may_answer<F: Fn(&str) -> bool>(has_file: F, path: Seq<char>, answer: bool) -> bool {
    exists|q: &str| q@ == path && call_ensures(has_file, (q,), answer)
}

/// The root directory of the project the file or directory `path` belongs
/// to: the nearest of `path` and its ancestors that holds an `elm.json`
/// file, as the existence check `has_file` reports.
pub fn root<'a, F: Fn(&str) -> bool>(path: &'a str, has_file: F) -> (r: Result<&'a str, Error>)
    requires
        forall|q: &str| call_requires(has_file, (q,)),
    ensures
        match r {
            Ok(found) => exists|k: nat|
                {
                    &&& ancestor(path@, k) == Some(found@)
                    &&& may_answer(has_file, elm_json_in(found@), true)
                    &&& forall|j: nat|
                        j < k ==> (#[trigger] ancestor(path@, j) is Some && may_answer(
                    has_file,
                    elm_json_in(ancestor(path@, j)->0),
                    false,
                ))
                },
            Err(e) => {
                &&& e.0@ == "Did not find elm.json file in any ancestor directory of module path"@
                &&& forall|j: nat|
                    #[trigger] ancestor(path@, j) is Some ==> may_answer(
                        has_file,
                        elm_json_in(ancestor(path@, j)->0),
                        false,
                    )
            },
        },
{
    let mut maybe_root: &'a str = path;
    let ghost mut k: nat = 0;
    loop
        invariant
            forall|q: &str| call_requires(has_file, (q,)),
            ancestor(path@, k) == Some(maybe_root@),
            forall|j: nat|
                j < k ==> (#[trigger] ancestor(path@, j) is Some && may_answer(
                    has_file,
                    elm_json_in(ancestor(path@, j)->0),
                    false,
                )),
        decreases maybe_root@.len(),
    {
        let candidate = join(maybe_root, "elm.json");
        let found = has_file(candidate.as_str());
        if found {
            assert(may_answer(has_file, elm_json_in(maybe_root@), true));
            return Ok(maybe_root);
        }
        assert(may_answer(has_file, elm_json_in(maybe_root@), false));
        match parent(maybe_root) {
            None => {
                proof {
                    assert(ancestor(path@, k + 1) is None);
                    assert forall|j: nat|
                        #[trigger] ancestor(path@, j) is Some implies may_answer(
                            has_file,
                            elm_json_in(ancestor(path@, j)->0),
                            false,
                        ) by {
                        if j > k {
                            lemma_ancestors_end(path@, k + 1, j);
                        }
                    }
                }
                return Err(
                    mk_err("Did not find elm.json file in any ancestor directory of module path"),
                );
            },
            Some(p) => {
                proof {
                    k = k + 1;
                }
                maybe_root = p;
            },
        }
    }
}

/// Past the last ancestor there are no more.
proof fn lemma_ancestors_end(p: Seq<char>, k: nat, j: nat)
    requires
        ancestor(p, k) is None,
        k <= j,
    ensures
        ancestor(p, j) is None,
    decreases j - k,
{
    if k < j {
        lemma_ancestors_end(p, k, (j - 1) as nat);
    }
}

/// The path of the `elm.json` file of the project in `project_root`.
pub fn elm_json_path(project_root: &str) -> (r: String)
    ensures
        r@ == elm_json_in(project_root@),
{
    join(project_root, "elm.json")
}

/// The `elm.json` file of a project root that is a plain directory path is
/// one `Path::parent` step below it.
proof fn lemma_elm_json_step(root: Seq<char>)
    requires
        plain_dir(root),
    ensures
        dir_then_name(elm_json_in(root)),
        dir_part(elm_json_in(root)) == root,
{
    let n = seq!['e', 'l', 'm', '.', 'j', 's', 'o', 'n'];
    reveal_strlit("elm.json");
    assert("elm.json"@ =~= n);
    assert(elm_json_in(root) =~= root + seq!['/'] + n);
    assert(!n.contains('/')) by {
        if n.contains('/') {
            let j = choose|j: int| 0 <= j < n.len() && n[j] == '/';
        }
    }
    lemma_last_separator(root, n);
    assert(n.len() == 8);
}

/// The project root directory holding the `elm.json` file at `elm_json`.
/// The `elm.json` file of a project root that is a plain directory path
/// (see [`plain_dir`]) leads back to that root.
pub fn root_from_elm_json_path(elm_json: &str) -> (r: Result<&str, Error>)
    ensures
        match parent_path(elm_json@) {
            Some(dir) => r matches Ok(d) && d@ == dir,
            None => r matches Err(e) && e.0@
                == "couldn't navigate from elm.json file to project root directory"@,
        },
        forall|root: Seq<char>|
            plain_dir(root) && elm_json@ == #[trigger] elm_json_in(root) ==> (r matches Ok(d) && d@
                == root),
{
    let r = match parent(elm_json) {
        Some(dir) => Ok(dir),
        None => Err(mk_err("couldn't navigate from elm.json file to project root directory")),
    };
    proof {
        assert forall|root: Seq<char>|
            plain_dir(root) && elm_json@ == #[trigger] elm_json_in(root) implies (r matches Ok(d)
                && d@ == root) by {
            lemma_elm_json_step(root);
        }
    }
    r
}

/// Where, below a project root, the compiler keeps the interfaces of the
/// project's dependencies.
pub open spec fn idat_relative_path() -> Seq<char> {
    "elm-stuff/"@ + VERSION@ + "/i.dat"@
}

/// The components the interface file adds below a project root:
/// `elm-stuff`, the compiler version and `i.dat`.
pub open spec fn idat_names() -> Seq<Seq<char>> {
    seq![
        seq!['e', 'l', 'm', '-', 's', 't', 'u', 'f', 'f'],
        seq!['0', '.', '1', '9', '.', '1'],
        seq!['i', '.', 'd', 'a', 't'],
    ]
}

/// The path of the file in which the compiler keeps the interfaces of the
/// dependencies of the project in `project_root`: its components are those
/// of the root followed by [`idat_names`].
pub fn idat_path(project_root: &str) -> (r: String)
    ensures
        r@ == joined_path(project_root@, idat_relative_path()),
        path_components(r@) == path_components(project_root@) + idat_names(),
{
    let rel = String::from_str("elm-stuff/").concat(VERSION).concat("/i.dat");
    proof {
        reveal_strlit("elm-stuff/");
        reveal_strlit("0.19.1");
        reveal_strlit("/i.dat");
        let ns = idat_names();
        assert(VERSION@ =~= ns[1]);
        assert(rel@ =~= joined_names(ns)) by {
            reveal_with_fuel(joined_names, 3);
            assert("elm-stuff/"@ =~= ns[0] + seq!['/']);
            assert("/i.dat"@ =~= seq!['/'] + ns[2]);
            assert(ns.drop_last().drop_last() =~= seq![ns[0]]);
            assert(ns.drop_last() =~= seq![ns[0], ns[1]]);
            assert(joined_names(ns.drop_last()) =~= ns[0] + seq!['/'] + ns[1]);
        }
        assert(plain_names(ns)) by {
            assert forall|k: int| 0 <= k < ns.len() implies plain_name(#[trigger] ns[k]) by {
                assert(!ns[k].contains('/')) by {
                    if ns[k].contains('/') {
                        let j = choose|j: int| 0 <= j < ns[k].len() && ns[k][j] == '/';
                    }
                }
                assert(ns[k].len() > 2);
            }
        }
    }
    join(project_root, rel.as_str())
}

/// The round trip through the interface file: an interface file path whose
/// components are those of a project root followed by [`idat_names`] has
/// three last components to step up over, and stepping up over them leaves
/// the root's components. With the contracts of [`idat_path`] and
/// [`root_from_idat_path`], the root found from `idat_path(p)` has the
/// components of `p`, for every path `p`.
pub proof fn lemma_idat_round_trip(root: Seq<Seq<char>>, idat: Seq<Seq<char>>)
    requires
        idat == root + idat_names(),
    ensures
        idat.len() >= 3,
        idat.skip(idat.len() - 3) == idat_names(),
        idat.take(idat.len() - 3) == root,
{
    assert(idat.skip(idat.len() - 3) =~= idat_names());
    assert(idat.take(idat.len() - 3) =~= root);
}

/// The last separator of a directory path, a separator and a name without
/// one is the one before the name.
proof fn lemma_last_separator(a: Seq<char>, n: Seq<char>)
    requires
        !n.contains('/'),
    ensures
        last_separator(a + seq!['/'] + n) == a.len(),
        dir_part(a + seq!['/'] + n) == a,
        (a + seq!['/'] + n).skip(a.len() as int + 1) == n,
    decreases n.len(),
{
    let p = a + seq!['/'] + n;
    if n.len() == 0 {
        assert(p.last() == '/');
    } else {
        assert(p.last() == n.last());
        assert(!n.drop_last().contains('/')) by {
            if n.drop_last().contains('/') {
                let j = choose|j: int| 0 <= j < n.drop_last().len() && n.drop_last()[j] == '/';
                assert(n[j] == '/');
            }
        }
        assert(n.last() != '/') by {
            assert(n[n.len() - 1] == n.last());
        }
        lemma_last_separator(a, n.drop_last());
        assert(p.drop_last() =~= a + seq!['/'] + n.drop_last());
    }
    assert(p.take(a.len() as int) =~= a);
    assert(p.skip(a.len() as int + 1) =~= n);
}

/// From the interface file of a project root that is a plain directory path,
/// each step up is one `Path::parent` takes: to the version's directory, to
/// `elm-stuff`, and to the root.
proof fn lemma_idat_steps(root: Seq<char>)
    requires
        plain_dir(root),
    ensures
        ({
            let e = seq!['e', 'l', 'm', '-', 's', 't', 'u', 'f', 'f'];
            let v = seq!['0', '.', '1', '9', '.', '1'];
            let i = seq!['i', '.', 'd', 'a', 't'];
            let p1 = root + seq!['/'] + e + seq!['/'] + v;
            let p2 = root + seq!['/'] + e;
            let idat = joined_path(root, idat_relative_path());
            &&& dir_then_name(idat) && dir_part(idat) == p1
            &&& dir_then_name(p1) && dir_part(p1) == p2
            &&& dir_then_name(p2) && dir_part(p2) == root
        }),
{
    let e = seq!['e', 'l', 'm', '-', 's', 't', 'u', 'f', 'f'];
    let v = seq!['0', '.', '1', '9', '.', '1'];
    let i = seq!['i', '.', 'd', 'a', 't'];
    let p1 = root + seq!['/'] + e + seq!['/'] + v;
    let p2 = root + seq!['/'] + e;
    reveal_strlit("elm-stuff/");
    reveal_strlit("0.19.1");
    reveal_strlit("/i.dat");
    assert(VERSION@ =~= v);
    assert(idat_relative_path() =~= e + seq!['/'] + v + seq!['/'] + i);
    let idat = joined_path(root, idat_relative_path());
    assert(idat =~= p1 + seq!['/'] + i);
    assert(!i.contains('/')) by {
        if i.contains('/') {
            let j = choose|j: int| 0 <= j < i.len() && i[j] == '/';
        }
    }
    assert(!v.contains('/')) by {
        if v.contains('/') {
            let j = choose|j: int| 0 <= j < v.len() && v[j] == '/';
        }
    }
    assert(!e.contains('/')) by {
        if e.contains('/') {
            let j = choose|j: int| 0 <= j < e.len() && e[j] == '/';
        }
    }
    lemma_last_separator(p1, i);
    lemma_last_separator(p2, v);
    lemma_last_separator(root, e);
    assert(p1 =~= p2 + seq!['/'] + v);
    assert(plain_name(i)) by {
        assert(i != seq!['.'] && i != seq!['.', '.']) by {
            assert(i.len() == 5);
        }
    }
    assert(plain_name(v)) by {
        assert(v.len() == 6);
    }
    assert(plain_name(e)) by {
        assert(e.len() == 9);
    }
    assert(p1.last() == '1' && p1[p1.len() - 2] == '.');
    assert(p2.last() == 'f');
    assert(p1 != seq!['.']) by {
        assert(p1.len() > 1);
    }
    assert(p2 != seq!['.']) by {
        assert(p2.len() > 1);
    }
}

/// The project root directory of the interface file at `idat`: three
/// levels up. The interface file of a project root that is a plain
/// directory path (see [`plain_dir`]) leads back to that root.
pub fn root_from_idat_path(idat: &str) -> (r: Result<&str, Error>)
    ensures
        match ancestor(idat@, 3) {
            Some(dir) => r matches Ok(d) && d@ == dir,
            None => r matches Err(e) && e.0@
                == "couldn't navigate from i.dat file to project root directory"@,
        },
        forall|root: Seq<char>|
            plain_dir(root) && idat@ == #[trigger] joined_path(root, idat_relative_path())
                ==> (r matches Ok(d) && d@ == root),
        path_components(idat@).len() >= 3 && path_components(idat@).skip(
            path_components(idat@).len() - 3,
        ) == idat_names() ==> (r matches Ok(d) && path_components(d@) == path_components(
            idat@,
        ).take(path_components(idat@).len() - 3)),
{
    proof {
        reveal_with_fuel(ancestor, 4);
    }
    let err = "couldn't navigate from i.dat file to project root directory";
    let r = match parent(idat) {
        None => Err(mk_err(err)),
        Some(p1) => match parent(p1) {
            None => Err(mk_err(err)),
            Some(p2) => match parent(p2) {
                None => Err(mk_err(err)),
                Some(p3) => Ok(p3),
            },
        },
    };
    proof {
        assert forall|root: Seq<char>|
            plain_dir(root) && idat@ == #[trigger] joined_path(root, idat_relative_path())
                implies (r matches Ok(d) && d@ == root) by {
            lemma_idat_steps(root);
        }
        let c = path_components(idat@);
        if c.len() >= 3 && c.skip(c.len() - 3) == idat_names() {
            let ns = idat_names();
            assert(c[c.len() - 1] == ns[2] && c[c.len() - 2] == ns[1] && c[c.len() - 3] == ns[0]);
            assert(ns[0] != seq!['/'] && ns[1] != seq!['/'] && ns[2] != seq!['/']) by {
                assert(ns[0].len() > 1 && ns[1].len() > 1 && ns[2].len() > 1);
            }
            assert(c.drop_last().drop_last().drop_last() =~= c.take(c.len() - 3));
        }
    }
    r
}

} // verus!
