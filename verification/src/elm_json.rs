//! What elm-pair reads from a project's `elm.json` file: its source
//! directories.
use vstd::prelude::*;
use crate::error::Error;
use crate::paths::{join, joined_path, parent_path};
use crate::project::root_from_elm_json_path;

verus! {

/// The contents of an `elm.json` file that elm-pair uses.
#[derive(Clone, Debug, PartialEq, Eq)]
pub struct ElmJson {
    /// The directories holding the project's Elm modules.
    pub source_directories: Vec<String>,
}

/// The source directories of a project whose `elm.json` names none.
pub fn default_source_dirs() -> (r: Vec<String>)
    ensures
        r@.map_values(|s: String| s@) == seq!["src"@],
{
    let r = vec![String::from_str("src")];
    assert(r@.map_values(|s: String| s@) =~= seq!["src"@]);
    r
}

/// The source directories `dirs`, written relative to the project, as
/// paths below the project root of the `elm.json` file at `elm_json`.
pub fn source_directories_in(elm_json: &str, dirs: &Vec<String>) -> (r: Result<Vec<String>, Error>)
    ensures
        match parent_path(elm_json@) {
            None => r is Err,
            Some(root) => r matches Ok(v) && v@.map_values(|s: String| s@) == dirs@.map_values(
                |d: String| joined_path(root, d@),
            ),
        },
{
    let root = root_from_elm_json_path(elm_json)?;
    let mut out: Vec<String> = Vec::new();
    let mut i: usize = 0;
    while i < dirs.len()
        invariant
            i <= dirs@.len(),
            out@.map_values(|s: String| s@) == dirs@.take(i as int).map_values(
                |d: String| joined_path(root@, d@),
            ),
        decreases dirs.len() - i,
    {
        let ghost before = out@.map_values(|s: String| s@);
        out.push(join(root, dirs[i].as_str()));
        assert(out@.map_values(|s: String| s@) =~= before.push(joined_path(root@, dirs@[i as int]@)));
        assert(dirs@.take(i + 1).map_values(|d: String| joined_path(root@, d@)) =~= dirs@.take(
            i as int,
        ).map_values(|d: String| joined_path(root@, d@)).push(joined_path(root@, dirs@[i as int]@)));
        i = i + 1;
    }
    assert(dirs@.take(dirs@.len() as int) =~= dirs@);
    Ok(out)
}

} // verus!
