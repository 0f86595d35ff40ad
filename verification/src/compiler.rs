//! Choosing the Elm compiler binary elm-pair runs.
use vstd::prelude::*;
use vstd::utf8::encode_utf8;
use crate::error::Error;
use crate::project::VERSION;

verus! {

/// Whether the output of `elm --version` starts with the supported
/// version.
pub open spec fn reports_supported_version(output: Seq<u8>) -> bool {
    let v = encode_utf8(VERSION@);
    output.len() >= v.len() && output.take(v.len() as int) == v
}

/// Whether the output of `elm --version` names the supported version.
pub fn is_supported_version(output: &[u8]) -> (r: bool)
    ensures
        r == reports_supported_version(output@),
{
    let v = VERSION.as_bytes();
    if output.len() < v.len() {
        return false;
    }
    let mut i: usize = 0;
    while i < v.len()
        invariant
            v@ == encode_utf8(VERSION@),
            v@.len() <= output@.len(),
            i <= v@.len(),
            output@.take(i as int) == v@.take(i as int),
        decreases v.len() - i,
    {
        if output[i] != v[i] {
            assert(output@.take(v@.len() as int)[i as int] != v@[i as int]);
            return false;
        }
        assert(output@.take(i + 1) =~= output@.take(i as int).push(output@[i as int]));
        assert(v@.take(i + 1) =~= v@.take(i as int).push(v@[i as int]));
        i = i + 1;
    }
    assert(v@.take(v@.len() as int) =~= v@);
    true
}

/// The places an Elm binary is looked for, in order: the one fixed when
/// elm-pair was built, the one next to the editor plugin, and `elm` on the
/// search path.
pub open spec fn binary_candidates(nix: Option<&str>, plugin: Option<&str>) -> Seq<Seq<char>> {
    (match nix {
        Some(p) => seq![p@],
        None => seq![],
    }) + (match plugin {
        Some(p) => seq![p@],
        None => seq![],
    }) + seq!["elm"@]
}

/// Whether running `path --version` may give `output` (`None` when it could
/// not run), as `version_output` reports.
pub open spec fn may_report<F: Fn(&str) -> Option<Vec<u8>>>(
    version_output: F,
    path: Seq<char>,
    supported: bool,
) -> bool {
    exists|q: &str, out: Option<Vec<u8>>|
        q@ == path && call_ensures(version_output, (q,), out) && supported == (out matches Some(
            o,
        ) && reports_supported_version(o@))
}

/// An Elm compiler binary of the supported version.
#[derive(Clone, Debug)]
pub struct Compiler {
    elm_binary_path: String,
}

impl Compiler {
    /// The path of the binary.
    pub closed spec fn binary(&self) -> Seq<char> {
        self.elm_binary_path@
    }

    /// The path of the binary.
    pub fn elm_binary_path(&self) -> (r: &str)
        ensures
            r@ == self.binary(),
    {
        self.elm_binary_path.as_str()
    }

    /// Finds an Elm binary of the supported version: the first of the
    /// binary fixed at build time (`nix_elm_binary`), the one next to the
    /// editor plugin (`plugin_elm_binary`) and `elm`, whose `--version`
    /// output, as `version_output` runs it, names the supported version.
    pub fn new<F: Fn(&str) -> Option<Vec<u8>>>(
        nix_elm_binary: Option<&str>,
        plugin_elm_binary: Option<&str>,
        version_output: F,
    ) -> (r: Result<Compiler, Error>)
        requires
            forall|q: &str| call_requires(version_output, (q,)),
        ensures
            ({
                let cands = binary_candidates(nix_elm_binary, plugin_elm_binary);
                match r {
                    Ok(c) => exists|k: int|
                        #![trigger cands[k]]
                        {
                            &&& 0 <= k < cands.len()
                            &&& c.binary() == cands[k]
                            &&& may_report(version_output, cands[k], true)
                            &&& forall|j: int|
                                0 <= j < k ==> may_report(version_output, #[trigger] cands[j], false)
                        },
                    Err(e) => {
                        &&& e.0@ == "Could not find an Elm binary with the right version: "@
                            + VERSION@
                        &&& forall|j: int|
                            0 <= j < cands.len() ==> may_report(
                                version_output,
                                #[trigger] cands[j],
                                false,
                            )
                    },
                }
            }),
    {
        let mut cands: Vec<&str> = Vec::new();
        match nix_elm_binary {
            Some(p) => cands.push(p),
            None => {},
        }
        match plugin_elm_binary {
            Some(p) => cands.push(p),
            None => {},
        }
        cands.push("elm");
        let ghost spec_cands = binary_candidates(nix_elm_binary, plugin_elm_binary);
        assert(cands@.map_values(|s: &str| s@) =~= spec_cands);
        let mut i: usize = 0;
        while i < cands.len()
            invariant
                forall|q: &str| call_requires(version_output, (q,)),
                cands@.map_values(|s: &str| s@) == spec_cands,
                spec_cands == binary_candidates(nix_elm_binary, plugin_elm_binary),
                i <= cands@.len(),
                forall|j: int| 0 <= j < i ==> may_report(version_output, #[trigger] spec_cands[j], false),
            decreases cands.len() - i,
        {
            let path = cands[i];
            assert(path@ == spec_cands[i as int]);
            let out = version_output(path);
            let supported = match &out {
                Some(o) => is_supported_version(o.as_slice()),
                None => false,
            };
            if supported {
                let c = Compiler { elm_binary_path: path.to_string() };
                assert(may_report(version_output, spec_cands[i as int], true));
                assert({
                    let k = i as int;
                    &&& 0 <= k < spec_cands.len()
                    &&& c.binary() == spec_cands[k]
                    &&& may_report(version_output, spec_cands[k], true)
                    &&& forall|j: int|
                        0 <= j < k ==> may_report(version_output, #[trigger] spec_cands[j], false)
                });
                return Ok(c);
            }
            assert(may_report(version_output, spec_cands[i as int], false));
            i = i + 1;
        }
        let msg = String::from_str("Could not find an Elm binary with the right version: ").concat(
            VERSION,
        );
        Err(Error(msg))
    }
}

} // verus!
