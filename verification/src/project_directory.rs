//! Finding the directory of the Elm project a file belongs to.
use vstd::prelude::*;
use crate::error::Error;
use crate::project::{ancestor, elm_json_in, may_answer};

verus! {

/// The root directory of the project the file or directory `path` belongs
/// to: the nearest of `path` and its ancestors that holds an `elm.json`
/// file, as the existence check `has_file` reports.
pub fn root<'a, F: Fn(&str) -> bool>(path: &'a str, has_file: F) -> (r: Result<&'a str, Error>)
    requires
        forall|q: &str| call_requires(has_file, (q,)),
    ensures
        match r {
            Ok(found) => exists|k: nat|
                {
                    &&& ancestor(path@, k) == Some(found@)
                    &&& may_answer(has_file, elm_json_in(found@), true)
                    &&& forall|j: nat|
                        j < k ==> (#[trigger] ancestor(path@, j) is Some && may_answer(
                            has_file,
                            elm_json_in(ancestor(path@, j)->0),
                            false,
                        ))
                },
            Err(e) => {
                &&& e.0@ == "Did not find elm.json file in any ancestor directory of module path"@
                &&& forall|j: nat|
                    #[trigger] ancestor(path@, j) is Some ==> may_answer(
                        has_file,
                        elm_json_in(ancestor(path@, j)->0),
                        false,
                    )
            },
        },
{
    crate::project::root(path, has_file)
}

} // verus!
