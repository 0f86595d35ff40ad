//! Reading the `elm-stuff/0.19.1/i.dat` file the Elm compiler writes for a
//! project. It contains the interfaces of all modules of the project's
//! dependencies, in the binary encoding of Haskell's `Data.Binary`. Elm-pair
//! only keeps the names each public module exposes.
use vstd::prelude::*;
use vstd::utf8::*;
use crate::error::{Error, mk_err};
use crate::exports::{ExportedName, SpecExportedName, exports_view, module_exports_view, strings_view};
use crate::text::str_from_utf8;

verus! {

/// The grammar symbols of the file format.
#[derive(Clone, Copy, PartialEq, Eq, Debug)]
pub enum Sym {
    Name,
    MaybeName,
    Type,
    AliasType,
    FieldEntry,
    AliasArg,
    Package,
    ModuleName,
    Ctor,
    CanonicalUnion,
    CanonicalAlias,
    Annotation,
    Union,
    Alias,
    Binop,
    ValueEntry,
    UnionEntry,
    AliasEntry,
    BinopEntry,
    PrivateUnionEntry,
    PrivateAliasEntry,
    Interface,
    DependencyInterface,
    InterfaceEntry,
}

/// Symbols that start with another symbol at the same offset rank above it.
pub open spec fn rank(g: Sym) -> int {
    match g {
        Sym::Name => 0,
        Sym::MaybeName => 1,
        Sym::Type => 1,
        Sym::AliasType => 1,
        Sym::FieldEntry => 2,
        Sym::AliasArg => 2,
        Sym::Package => 2,
        Sym::ModuleName => 3,
        Sym::Ctor => 2,
        Sym::CanonicalUnion => 3,
        Sym::CanonicalAlias => 3,
        Sym::Annotation => 3,
        Sym::Union => 4,
        Sym::Alias => 4,
        Sym::Binop => 4,
        Sym::ValueEntry => 4,
        Sym::UnionEntry => 5,
        Sym::AliasEntry => 5,
        Sym::BinopEntry => 5,
        Sym::PrivateUnionEntry => 4,
        Sym::PrivateAliasEntry => 4,
        Sym::Interface => 6,
        Sym::DependencyInterface => 7,
        Sym::InterfaceEntry => 8,
    }
}

/// A parse that ends at `q` made progress from `p` and stayed inside `s`.
pub open spec fn advanced(s: Seq<u8>, p: int, q: int) -> bool {
    p < q <= s.len()
}

/// The byte at offset `p`.
pub open spec fn spec_word8(s: Seq<u8>, p: int) -> Option<u8> {
    if 0 <= p < s.len() {
        Some(s[p])
    } else {
        None
    }
}

/// The big-endian number in the `k` bytes starting at `p`.
pub open spec fn be_value(s: Seq<u8>, p: int, k: nat) -> nat
    decreases k,
{
    if k == 0 {
        0
    } else {
        be_value(s, p, (k - 1) as nat) * 256 + s[p + k - 1] as nat
    }
}

/// The element count of a sequence written at `p` (an eight byte big-endian
/// number), if it is there and small enough that the remaining input could
/// hold that many elements.
pub open spec fn spec_count(s: Seq<u8>, p: int) -> Option<nat> {
    if 0 <= p && p + 8 <= s.len() && be_value(s, p, 8) <= s.len() - (p + 8) {
        Some(be_value(s, p, 8))
    } else {
        None
    }
}

/// A string of fewer than 256 bytes: a length byte, then that many bytes of
/// UTF-8. Yields the text and the offset after it.
pub open spec fn spec_text(s: Seq<u8>, p: int) -> Option<(Seq<char>, int)> {
    if 0 <= p < s.len() && p + 1 + s[p] <= s.len() && valid_utf8(
        s.subrange(p + 1, p + 1 + s[p]),
    ) {
        Some((decode_utf8(s.subrange(p + 1, p + 1 + s[p])), p + 1 + s[p]))
    } else {
        None
    }
}

/// The offset after a symbol `g` that starts at `p`, if the input holds one.
pub open spec fn spec_skip(s: Seq<u8>, p: int, g: Sym) -> Option<int>
    decreases s.len() - p, 2 * rank(g) + 1, 0int,
{
    if p < 0 || p > s.len() {
        None
    } else {
        match g {
            Sym::Name => match spec_text(s, p) {
                Some((_, q)) => Some(q),
                None => None,
            },
            Sym::MaybeName => match spec_word8(s, p) {
                Some(0u8) => Some(p + 1),
                Some(1u8) => spec_skip(s, p + 1, Sym::Name),
                _ => None,
            },
            Sym::Type => match spec_word8(s, p) {
                None => None,
                Some(k) => if k == 0 {
                    match spec_skip(s, p + 1, Sym::Type) {
                        Some(q) => if advanced(s, p, q) {
                            spec_skip(s, q, Sym::Type)
                        } else {
                            None
                        },
                        None => None,
                    }
                } else if k == 1 {
                    spec_skip(s, p + 1, Sym::Name)
                } else if k == 2 {
                    match spec_seq(s, p + 1, Sym::FieldEntry) {
                        Some(q) => if advanced(s, p, q) {
                            spec_skip(s, q, Sym::MaybeName)
                        } else {
                            None
                        },
                        None => None,
                    }
                } else if k == 3 {
                    Some(p + 1)
                } else if k == 4 {
                    match spec_skip(s, p + 1, Sym::Type) {
                        Some(q) => if advanced(s, p, q) {
                            match spec_skip(s, q, Sym::Type) {
                                Some(r) => if advanced(s, p, r) {
                                    spec_skip(s, r, Sym::MaybeName)
                                } else {
                                    None
                                },
                                None => None,
                            }
                        } else {
                            None
                        },
                        None => None,
                    }
                } else {
                    match spec_skip(s, p + 1, Sym::ModuleName) {
                        Some(q) => if advanced(s, p, q) {
                            match spec_skip(s, q, Sym::Name) {
                                Some(r) => if advanced(s, p, r) {
                                    if k == 5 {
                                        match spec_seq(s, r, Sym::AliasArg) {
                                            Some(t) => if advanced(s, p, t) {
                                                spec_skip(s, t, Sym::AliasType)
                                            } else {
                                                None
                                            },
                                            None => None,
                                        }
                                    } else {
                                        spec_skip_n(
                                            s,
                                            r,
                                            if k > 7 { (k - 7) as nat } else { 0 },
                                            Sym::Type,
                                        )
                                    }
                                } else {
                                    None
                                },
                                None => None,
                            }
                        } else {
                            None
                        },
                        None => None,
                    }
                },
            },
            Sym::AliasType => match spec_word8(s, p) {
                Some(k) => if k <= 1 {
                    spec_skip(s, p + 1, Sym::Type)
                } else {
                    None
                },
                None => None,
            },
            Sym::FieldEntry => match spec_skip(s, p, Sym::Name) {
                Some(q) => if advanced(s, p, q) && q + 2 <= s.len() {
                    spec_skip(s, q + 2, Sym::Type)
                } else {
                    None
                },
                None => None,
            },
            Sym::AliasArg => spec_pair(s, p, Sym::Name, Sym::Type),
            Sym::Package => spec_pair(s, p, Sym::Name, Sym::Name),
            Sym::ModuleName => spec_pair(s, p, Sym::Package, Sym::Name),
            Sym::Ctor => match spec_skip(s, p, Sym::Name) {
                Some(q) => if advanced(s, p, q) && q + 16 <= s.len() {
                    spec_seq(s, q + 16, Sym::Type)
                } else {
                    None
                },
                None => None,
            },
            Sym::CanonicalUnion => match spec_seq(s, p, Sym::Name) {
                Some(q) => if advanced(s, p, q) {
                    match spec_seq(s, q, Sym::Ctor) {
                        Some(r) => if advanced(s, p, r) && r + 8 < s.len() && s[r + 8] <= 2 {
                            Some(r + 9)
                        } else {
                            None
                        },
                        None => None,
                    }
                } else {
                    None
                },
                None => None,
            },
            Sym::CanonicalAlias => match spec_seq(s, p, Sym::Name) {
                Some(q) => if advanced(s, p, q) {
                    spec_skip(s, q, Sym::Type)
                } else {
                    None
                },
                None => None,
            },
            Sym::Annotation => match spec_seq(s, p, Sym::Name) {
                Some(q) => if advanced(s, p, q) {
                    spec_skip(s, q, Sym::Type)
                } else {
                    None
                },
                None => None,
            },
            Sym::Union => match spec_word8(s, p) {
                Some(k) => if k <= 2 {
                    spec_skip(s, p + 1, Sym::CanonicalUnion)
                } else {
                    None
                },
                None => None,
            },
            Sym::Alias => match spec_word8(s, p) {
                Some(k) => if k <= 1 {
                    spec_skip(s, p + 1, Sym::CanonicalAlias)
                } else {
                    None
                },
                None => None,
            },
            Sym::Binop => match spec_pair(s, p, Sym::Name, Sym::Annotation) {
                Some(q) => if advanced(s, p, q) && q + 9 <= s.len() && s[q] <= 2 {
                    Some(q + 9)
                } else {
                    None
                },
                None => None,
            },
            Sym::ValueEntry => spec_pair(s, p, Sym::Name, Sym::Annotation),
            Sym::UnionEntry => spec_pair(s, p, Sym::Name, Sym::Union),
            Sym::AliasEntry => spec_pair(s, p, Sym::Name, Sym::Alias),
            Sym::BinopEntry => spec_pair(s, p, Sym::Name, Sym::Binop),
            Sym::PrivateUnionEntry => spec_pair(s, p, Sym::Name, Sym::CanonicalUnion),
            Sym::PrivateAliasEntry => spec_pair(s, p, Sym::Name, Sym::CanonicalAlias),
            Sym::Interface => match spec_skip(s, p, Sym::Package) {
                Some(q1) => if advanced(s, p, q1) {
                    match spec_seq(s, q1, Sym::ValueEntry) {
                        Some(q2) => if advanced(s, p, q2) {
                            match spec_seq(s, q2, Sym::UnionEntry) {
                                Some(q3) => if advanced(s, p, q3) {
                                    match spec_seq(s, q3, Sym::AliasEntry) {
                                        Some(q4) => if advanced(s, p, q4) {
                                            spec_seq(s, q4, Sym::BinopEntry)
                                        } else {
                                            None
                                        },
                                        None => None,
                                    }
                                } else {
                                    None
                                },
                                None => None,
                            }
                        } else {
                            None
                        },
                        None => None,
                    }
                } else {
                    None
                },
                None => None,
            },
            Sym::DependencyInterface => match spec_word8(s, p) {
                Some(0u8) => spec_skip(s, p + 1, Sym::Interface),
                Some(1u8) => match spec_skip(s, p + 1, Sym::Package) {
                    Some(q) => if advanced(s, p, q) {
                        match spec_seq(s, q, Sym::PrivateUnionEntry) {
                            Some(r) => if advanced(s, p, r) {
                                spec_seq(s, r, Sym::PrivateAliasEntry)
                            } else {
                                None
                            },
                            None => None,
                        }
                    } else {
                        None
                    },
                    None => None,
                },
                _ => None,
            },
            Sym::InterfaceEntry => spec_pair(s, p, Sym::ModuleName, Sym::DependencyInterface),
        }
    }
}

/// Symbol `a` followed by symbol `b`.
pub open spec fn spec_pair(s: Seq<u8>, p: int, a: Sym, b: Sym) -> Option<int>
    decreases s.len() - p, 2 * rank(a) + 2, 0int,
{
    if p < 0 || p > s.len() {
        None
    } else {
        match spec_skip(s, p, a) {
            Some(q) => if advanced(s, p, q) {
                spec_skip(s, q, b)
            } else {
                None
            },
            None => None,
        }
    }
}

/// A sequence of `g`: an element count followed by that many elements.
pub open spec fn spec_seq(s: Seq<u8>, p: int, g: Sym) -> Option<int>
    decreases s.len() - p, 2 * rank(g) + 2, 0int,
{
    if p < 0 || p > s.len() {
        None
    } else {
        match spec_count(s, p) {
            Some(n) => spec_skip_n(s, p + 8, n, g),
            None => None,
        }
    }
}

/// `n` consecutive elements `g`.
pub open spec fn spec_skip_n(s: Seq<u8>, p: int, n: nat, g: Sym) -> Option<int>
    decreases s.len() - p, 2 * rank(g) + 2, n,
{
    if p < 0 || p > s.len() {
        None
    } else if n == 0 {
        Some(p)
    } else {
        match spec_skip(s, p, g) {
            Some(q) => if advanced(s, p, q) {
                spec_skip_n(s, q, (n - 1) as nat, g)
            } else {
                None
            },
            None => None,
        }
    }
}

} // verus!

verus! {

/// Turns an optional exec offset into the spec offset it stands for.
pub open spec fn pos_of(r: Option<usize>) -> Option<int> {
    match r {
        Some(q) => Some(q as int),
        None => None,
    }
}

/// `256` to the power `k`.
pub open spec fn pow256(k: nat) -> nat
    decreases k,
{
    if k == 0 {
        1
    } else {
        256 * pow256((k - 1) as nat)
    }
}

proof fn lemma_be_value_bound(s: Seq<u8>, p: int, k: nat)
    ensures
        be_value(s, p, k) < pow256(k),
    decreases k,
{
    if k > 0 {
        lemma_be_value_bound(s, p, (k - 1) as nat);
        let a = be_value(s, p, (k - 1) as nat);
        let b = s[p + k - 1] as nat;
        let m = pow256((k - 1) as nat);
        assert(a * 256 + b < 256 * m) by (nonlinear_arith)
            requires
                a < m,
                b < 256,
        ;
    }
}

proof fn lemma_pow256_monotone(k: nat)
    ensures
        pow256(k) <= pow256(k + 1),
{
}

proof fn lemma_pow256_le_7(k: nat)
    requires
        k <= 7,
    ensures
        pow256(k) <= pow256(7),
    decreases 7 - k,
{
    if k < 7 {
        lemma_pow256_monotone(k);
        lemma_pow256_le_7(k + 1);
    }
}

/// The byte at `p`.
fn word8(s: &[u8], p: usize) -> (r: Option<u8>)
    ensures
        r == spec_word8(s@, p as int),
        r is Some <==> p < s.len(),
{
    if p < s.len() {
        Some(s[p])
    } else {
        None
    }
}

/// The element count of a sequence written at `p`.
fn read_count(s: &[u8], p: usize) -> (r: Option<usize>)
    ensures
        match r {
            Some(n) => spec_count(s@, p as int) == Some(n as nat),
            None => spec_count(s@, p as int) is None,
        },
        r is Some ==> p + 8 <= s.len(),
{
    if p > s.len() || s.len() - p < 8 {
        return None;
    }
    let mut acc: u64 = 0;
    let mut i: usize = 0;
    while i < 8
        invariant
            i <= 8,
            p + 8 <= s.len(),
            s.len() == s@.len(),
            acc as nat == be_value(s@, p as int, i as nat),
        decreases 8 - i,
    {
        proof {
            lemma_be_value_bound(s@, p as int, i as nat);
            reveal_with_fuel(pow256, 8);
            lemma_pow256_le_7(i as nat);
            assert(pow256(7) == 72057594037927936);
            assert(acc < 72057594037927936);
        }
        acc = acc * 256 + s[p + i] as u64;
        i = i + 1;
    }
    let rest = s.len() - (p + 8);
    if acc <= rest as u64 {
        Some(acc as usize)
    } else {
        None
    }
}

/// The string of fewer than 256 bytes at `p`, and the offset after it.
fn read_text(s: &[u8], p: usize) -> (r: Option<(&str, usize)>)
    ensures
        match r {
            Some((t, q)) => spec_text(s@, p as int) == Some((t@, q as int)),
            None => spec_text(s@, p as int) is None,
        },
{
    if p >= s.len() {
        return None;
    }
    let len = s[p] as usize;
    if s.len() - (p + 1) < len {
        return None;
    }
    let bytes = vstd::slice::slice_subrange(s, p + 1, p + 1 + len);
    assert(bytes@ == s@.subrange(p + 1, p + 1 + s@[p as int]));
    match str_from_utf8(bytes) {
        Some(t) => Some((t, p + 1 + len)),
        None => None,
    }
}

} // verus!

verus! {

/// Continues with symbol `g` at `q` after a parse that started at `p`,
/// provided it made progress.
fn then_skip(s: &[u8], p: usize, r: Option<usize>, g: Sym) -> (out: Option<usize>)
    requires
        match r {
            Some(q) => p < q <= s@.len(),
            None => true,
        },
    ensures
        pos_of(out) == match pos_of(r) {
            Some(q) => if advanced(s@, p as int, q) {
                spec_skip(s@, q, g)
            } else {
                None
            },
            None => None,
        },
        match out {
            Some(t) => match r {
                Some(q) => q < t <= s@.len(),
                None => false,
            },
            None => true,
        },
    decreases
            match r {
                Some(q) => s@.len() - q,
                None => 0,
            },
            2 * rank(g) + 1,
            2int,
{
    match r {
        Some(q) => if q <= s.len() {
            skip(s, q, g)
        } else {
            None
        },
        None => None,
    }
}

/// The offset after the symbol `g` at `p`.
pub fn skip(s: &[u8], p: usize, g: Sym) -> (r: Option<usize>)
    ensures
        pos_of(r) == spec_skip(s@, p as int, g),
        match r {
            Some(q) => p < q <= s@.len(),
            None => true,
        },
    decreases s@.len() - p, 2 * rank(g) + 1, 1int,
{
    if p > s.len() {
        return None;
    }
    match g {
        Sym::Name => match read_text(s, p) {
            Some((_, q)) => Some(q),
            None => None,
        },
        Sym::MaybeName => match word8(s, p) {
            Some(0u8) => Some(p + 1),
            Some(1u8) => skip(s, p + 1, Sym::Name),
            _ => None,
        },
        Sym::Type => skip_type(s, p),
        Sym::AliasType => match word8(s, p) {
            Some(k) => if k <= 1 {
                skip(s, p + 1, Sym::Type)
            } else {
                None
            },
            None => None,
        },
        Sym::Union => match word8(s, p) {
            Some(k) => if k <= 2 {
                skip(s, p + 1, Sym::CanonicalUnion)
            } else {
                None
            },
            None => None,
        },
        Sym::Alias => match word8(s, p) {
            Some(k) => if k <= 1 {
                skip(s, p + 1, Sym::CanonicalAlias)
            } else {
                None
            },
            None => None,
        },
        Sym::AliasArg => skip_pair(s, p, Sym::Name, Sym::Type),
        Sym::Package => skip_pair(s, p, Sym::Name, Sym::Name),
        Sym::ModuleName => skip_pair(s, p, Sym::Package, Sym::Name),
        Sym::ValueEntry => skip_pair(s, p, Sym::Name, Sym::Annotation),
        Sym::UnionEntry => skip_pair(s, p, Sym::Name, Sym::Union),
        Sym::AliasEntry => skip_pair(s, p, Sym::Name, Sym::Alias),
        Sym::BinopEntry => skip_pair(s, p, Sym::Name, Sym::Binop),
        Sym::PrivateUnionEntry => skip_pair(s, p, Sym::Name, Sym::CanonicalUnion),
        Sym::PrivateAliasEntry => skip_pair(s, p, Sym::Name, Sym::CanonicalAlias),
        Sym::InterfaceEntry => skip_pair(s, p, Sym::ModuleName, Sym::DependencyInterface),
        _ => skip_record(s, p, g),
    }
}

/// The symbols whose layout is a fixed succession of parts.
pub open spec fn is_record(g: Sym) -> bool {
    match g {
        Sym::FieldEntry | Sym::Ctor | Sym::CanonicalUnion | Sym::CanonicalAlias | Sym::Annotation
        | Sym::Binop | Sym::Interface | Sym::DependencyInterface => true,
        _ => false,
    }
}

/// The offset after a type at `p`.
fn skip_type(s: &[u8], p: usize) -> (r: Option<usize>)
    requires
        p <= s@.len(),
    ensures
        pos_of(r) == spec_skip(s@, p as int, Sym::Type),
        match r {
            Some(q) => p < q <= s@.len(),
            None => true,
        },
    decreases s@.len() - p, 2 * rank(Sym::Type) + 1, 0int,
{
    match word8(s, p) {
        None => None,
        Some(k) => if k == 0 {
            let q = skip(s, p + 1, Sym::Type);
            then_skip(s, p, q, Sym::Type)
        } else if k == 1 {
            skip(s, p + 1, Sym::Name)
        } else if k == 2 {
            let q = skip_seq(s, p + 1, Sym::FieldEntry);
            then_skip(s, p, q, Sym::MaybeName)
        } else if k == 3 {
            Some(p + 1)
        } else if k == 4 {
            let q = skip(s, p + 1, Sym::Type);
            let r = then_skip(s, p, q, Sym::Type);
            then_skip(s, p, r, Sym::MaybeName)
        } else {
            let q = skip(s, p + 1, Sym::ModuleName);
            let r = then_skip(s, p, q, Sym::Name);
            match r {
                Some(r) => if k == 5 {
                    let t = skip_seq(s, r, Sym::AliasArg);
                    then_skip(s, p, t, Sym::AliasType)
                } else {
                    let n: usize = if k > 7 { (k - 7) as usize } else { 0 };
                    skip_n(s, r, n, Sym::Type)
                },
                None => None,
            }
        },
    }
}

/// The offset after one of the record-like symbols at `p`.
#[verifier::rlimit(40)]
fn skip_record(s: &[u8], p: usize, g: Sym) -> (r: Option<usize>)
    requires
        p <= s@.len(),
        is_record(g),
    ensures
        pos_of(r) == spec_skip(s@, p as int, g),
        match r {
            Some(q) => p < q <= s@.len(),
            None => true,
        },
    decreases s@.len() - p, 2 * rank(g) + 1, 0int,
{
    match g {
        Sym::FieldEntry => match skip(s, p, Sym::Name) {
            Some(q) => if s.len() - q >= 2 {
                skip(s, q + 2, Sym::Type)
            } else {
                None
            },
            None => None,
        },
        Sym::Ctor => match skip(s, p, Sym::Name) {
            Some(q) => if s.len() - q >= 16 {
                skip_seq(s, q + 16, Sym::Type)
            } else {
                None
            },
            None => None,
        },
        Sym::CanonicalUnion => match skip_seq(s, p, Sym::Name) {
            Some(q) => match skip_seq(s, q, Sym::Ctor) {
                Some(r) => if s.len() - r > 8 && s[r + 8] <= 2 {
                    Some(r + 9)
                } else {
                    None
                },
                None => None,
            },
            None => None,
        },
        Sym::CanonicalAlias => {
            let q = skip_seq(s, p, Sym::Name);
            then_skip(s, p, q, Sym::Type)
        },
        Sym::Annotation => {
            let q = skip_seq(s, p, Sym::Name);
            then_skip(s, p, q, Sym::Type)
        },
        Sym::Binop => match skip_pair(s, p, Sym::Name, Sym::Annotation) {
            Some(q) => if s.len() - q >= 9 && s[q] <= 2 {
                Some(q + 9)
            } else {
                None
            },
            None => None,
        },
        Sym::Interface => match skip(s, p, Sym::Package) {
            Some(q1) => match skip_seq(s, q1, Sym::ValueEntry) {
                Some(q2) => match skip_seq(s, q2, Sym::UnionEntry) {
                    Some(q3) => match skip_seq(s, q3, Sym::AliasEntry) {
                        Some(q4) => skip_seq(s, q4, Sym::BinopEntry),
                        None => None,
                    },
                    None => None,
                },
                None => None,
            },
            None => None,
        },
        Sym::DependencyInterface => match word8(s, p) {
            Some(0u8) => skip(s, p + 1, Sym::Interface),
            Some(1u8) => match skip(s, p + 1, Sym::Package) {
                Some(q) => match skip_seq(s, q, Sym::PrivateUnionEntry) {
                    Some(r) => skip_seq(s, r, Sym::PrivateAliasEntry),
                    None => None,
                },
                None => None,
            },
            _ => None,
        },
        _ => None,
    }
}

/// The offset after symbol `a` followed by symbol `b`.
fn skip_pair(s: &[u8], p: usize, a: Sym, b: Sym) -> (r: Option<usize>)
    ensures
        pos_of(r) == spec_pair(s@, p as int, a, b),
        match r {
            Some(q) => p < q <= s@.len(),
            None => true,
        },
    decreases s@.len() - p, 2 * rank(a) + 2, 0int,
{
    if p > s.len() {
        return None;
    }
    match skip(s, p, a) {
        Some(q) => skip(s, q, b),
        None => None,
    }
}

/// The offset after a sequence of `g` at `p`.
fn skip_seq(s: &[u8], p: usize, g: Sym) -> (r: Option<usize>)
    ensures
        pos_of(r) == spec_seq(s@, p as int, g),
        match r {
            Some(q) => p < q <= s@.len(),
            None => true,
        },
    decreases s@.len() - p, 2 * rank(g) + 2, 0int,
{
    if p > s.len() {
        return None;
    }
    match read_count(s, p) {
        Some(n) => skip_n(s, p + 8, n, g),
        None => None,
    }
}

/// The offset after `n` consecutive symbols `g` at `p`.
fn skip_n(s: &[u8], p: usize, n: usize, g: Sym) -> (r: Option<usize>)
    ensures
        pos_of(r) == spec_skip_n(s@, p as int, n as nat, g),
        match r {
            Some(q) => p <= q <= s@.len(),
            None => true,
        },
    decreases s@.len() - p, 2 * rank(g) + 2, n,
{
    if p > s.len() {
        return None;
    }
    if n == 0 {
        return Some(p);
    }
    match skip(s, p, g) {
        Some(q) => skip_n(s, q, n - 1, g),
        None => None,
    }
}

} // verus!

verus! {

/// The names of `n` constructors starting at `p`, and the offset after them.
pub open spec fn spec_ctor_names(s: Seq<u8>, p: int, n: nat) -> Option<(Seq<Seq<char>>, int)>
    decreases n,
{
    if n == 0 {
        Some((seq![], p))
    } else {
        match (spec_text(s, p), spec_skip(s, p, Sym::Ctor)) {
            (Some((name, _)), Some(q)) => match spec_ctor_names(s, q, (n - 1) as nat) {
                Some((rest, r)) => Some((seq![name] + rest, r)),
                None => None,
            },
            _ => None,
        }
    }
}

/// The key names of `n` map entries `g` starting at `p`, and the offset
/// after them.
pub open spec fn spec_entry_names(s: Seq<u8>, p: int, n: nat, g: Sym) -> Option<
    (Seq<Seq<char>>, int),
>
    decreases n,
{
    if n == 0 {
        Some((seq![], p))
    } else {
        match (spec_text(s, p), spec_skip(s, p, g)) {
            (Some((name, _)), Some(q)) => match spec_entry_names(s, q, (n - 1) as nat, g) {
                Some((rest, r)) => Some((seq![name] + rest, r)),
                None => None,
            },
            _ => None,
        }
    }
}

/// The export made by one union type entry at `p`: the type with its
/// constructors when the union is open to importers, otherwise the type
/// alone. Also the offset after the entry.
pub open spec fn spec_union_entry(s: Seq<u8>, p: int) -> Option<(SpecExportedName, int)> {
    match (spec_text(s, p), spec_skip(s, p, Sym::UnionEntry)) {
        (Some((name, q)), Some(end)) => if spec_word8(s, q) == Some(0u8) {
            match spec_seq(s, q + 1, Sym::Name) {
                Some(v) => match spec_count(s, v) {
                    Some(n) => match spec_ctor_names(s, v + 8, n) {
                        Some((ctors, _)) => Some(
                            (SpecExportedName::Type { name, constructors: ctors }, end),
                        ),
                        None => None,
                    },
                    None => None,
                },
                None => None,
            }
        } else {
            Some((SpecExportedName::Type { name, constructors: seq![] }, end))
        },
        _ => None,
    }
}

/// The exports made by `n` union type entries starting at `p`.
pub open spec fn spec_union_entries(s: Seq<u8>, p: int, n: nat) -> Option<
    (Seq<SpecExportedName>, int),
>
    decreases n,
{
    if n == 0 {
        Some((seq![], p))
    } else {
        match spec_union_entry(s, p) {
            Some((e, q)) => match spec_union_entries(s, q, (n - 1) as nat) {
                Some((rest, r)) => Some((seq![e] + rest, r)),
                None => None,
            },
            None => None,
        }
    }
}

/// A list of names of values as exports.
pub open spec fn values_of(names: Seq<Seq<char>>) -> Seq<SpecExportedName> {
    names.map_values(|n: Seq<char>| SpecExportedName::Value { name: n })
}

/// A list of names of type aliases as exports.
pub open spec fn aliases_of(names: Seq<Seq<char>>) -> Seq<SpecExportedName> {
    names.map_values(|n: Seq<char>| SpecExportedName::Type { name: n, constructors: seq![] })
}

/// The exports of a public module interface at `p` (its values, then its
/// union types, then its type aliases), and the offset after the interface.
pub open spec fn spec_interface_exports(s: Seq<u8>, p: int) -> Option<
    (Seq<SpecExportedName>, int),
> {
    match spec_skip(s, p, Sym::Package) {
        Some(q1) => match spec_count(s, q1) {
            Some(n1) => match spec_entry_names(s, q1 + 8, n1, Sym::ValueEntry) {
                Some((values, q2)) => match spec_count(s, q2) {
                    Some(n2) => match spec_union_entries(s, q2 + 8, n2) {
                        Some((unions, q3)) => match spec_count(s, q3) {
                            Some(n3) => match spec_entry_names(s, q3 + 8, n3, Sym::AliasEntry) {
                                Some((aliases, q4)) => match spec_seq(s, q4, Sym::BinopEntry) {
                                    Some(q5) => Some(
                                        (values_of(values) + unions + aliases_of(aliases), q5),
                                    ),
                                    None => None,
                                },
                                None => None,
                            },
                            None => None,
                        },
                        None => None,
                    },
                    None => None,
                },
                None => None,
            },
            None => None,
        },
        None => None,
    }
}

/// Pairs every export with the module that exports it.
pub open spec fn with_module(m: Seq<char>, es: Seq<SpecExportedName>) -> Seq<
    (Seq<char>, SpecExportedName),
> {
    es.map_values(|e: SpecExportedName| (m, e))
}

/// The exports of `n` module entries starting at `p`; private dependency
/// modules export nothing.
pub open spec fn spec_module_entries(s: Seq<u8>, p: int, n: nat) -> Option<
    Seq<(Seq<char>, SpecExportedName)>,
>
    decreases n,
{
    if n == 0 {
        Some(seq![])
    } else {
        match spec_skip(s, p, Sym::Package) {
            Some(q) => match spec_text(s, q) {
                Some((module, r)) => {
                    let here: Option<(Seq<(Seq<char>, SpecExportedName)>, int)> = if spec_word8(
                        s,
                        r,
                    ) == Some(0u8) {
                        match spec_interface_exports(s, r + 1) {
                            Some((es, t)) => Some((with_module(module, es), t)),
                            None => None,
                        }
                    } else {
                        match spec_skip(s, r, Sym::DependencyInterface) {
                            Some(t) => Some((seq![], t)),
                            None => None,
                        }
                    };
                    match here {
                        Some((es, t)) => match spec_module_entries(s, t, (n - 1) as nat) {
                            Some(rest) => Some(es + rest),
                            None => None,
                        },
                        None => None,
                    }
                },
                None => None,
            },
            None => None,
        }
    }
}

/// The names every public module in the `i.dat` contents `s` exposes, each
/// with the name of its module; `None` when `s` is not a well-formed file.
pub open spec fn spec_idat_exports(s: Seq<u8>) -> Option<Seq<(Seq<char>, SpecExportedName)>> {
    match spec_count(s, 0) {
        Some(n) => spec_module_entries(s, 8, n),
        None => None,
    }
}

} // verus!

verus! {

/// The names of `n` constructors starting at `p`.
fn ctor_names(s: &[u8], p: usize, n: usize) -> (r: Option<(Vec<String>, usize)>)
    ensures
        match r {
            Some((v, q)) => spec_ctor_names(s@, p as int, n as nat) == Some(
                (strings_view(v@), q as int),
            ),
            None => spec_ctor_names(s@, p as int, n as nat) is None,
        },
{
    let mut acc: Vec<String> = Vec::new();
    let mut cur = p;
    let mut i: usize = 0;
    while i < n
        invariant
            i <= n,
            spec_ctor_names(s@, p as int, n as nat) == match spec_ctor_names(
                s@,
                cur as int,
                (n - i) as nat,
            ) {
                Some((rest, t)) => Some((strings_view(acc@) + rest, t)),
                None => None,
            },
        decreases n - i,
    {
        let name = match read_text(s, cur) {
            Some((t, _)) => t,
            None => return None,
        };
        let next = match skip(s, cur, Sym::Ctor) {
            Some(q) => q,
            None => return None,
        };
        let ghost old_acc = acc@;
        acc.push(name.to_string());
        proof {
            assert(strings_view(acc@) == strings_view(old_acc) + seq![name@]);
            match spec_ctor_names(s@, next as int, (n - i - 1) as nat) {
                Some((rest, t)) => {
                    assert(strings_view(old_acc) + (seq![name@] + rest) == strings_view(acc@)
                        + rest);
                },
                None => {},
            }
        }
        cur = next;
        i = i + 1;
    }
    Some((acc, cur))
}

/// The key names of `n` map entries `g` starting at `p`.
fn entry_names(s: &[u8], p: usize, n: usize, g: Sym) -> (r: Option<(Vec<String>, usize)>)
    ensures
        match r {
            Some((v, q)) => spec_entry_names(s@, p as int, n as nat, g) == Some(
                (strings_view(v@), q as int),
            ),
            None => spec_entry_names(s@, p as int, n as nat, g) is None,
        },
{
    let mut acc: Vec<String> = Vec::new();
    let mut cur = p;
    let mut i: usize = 0;
    while i < n
        invariant
            i <= n,
            spec_entry_names(s@, p as int, n as nat, g) == match spec_entry_names(
                s@,
                cur as int,
                (n - i) as nat,
                g,
            ) {
                Some((rest, t)) => Some((strings_view(acc@) + rest, t)),
                None => None,
            },
        decreases n - i,
    {
        let name = match read_text(s, cur) {
            Some((t, _)) => t,
            None => return None,
        };
        let next = match skip(s, cur, g) {
            Some(q) => q,
            None => return None,
        };
        let ghost old_acc = acc@;
        acc.push(name.to_string());
        proof {
            assert(strings_view(acc@) == strings_view(old_acc) + seq![name@]);
            match spec_entry_names(s@, next as int, (n - i - 1) as nat, g) {
                Some((rest, t)) => {
                    assert(strings_view(old_acc) + (seq![name@] + rest) == strings_view(acc@)
                        + rest);
                },
                None => {},
            }
        }
        cur = next;
        i = i + 1;
    }
    Some((acc, cur))
}

} // verus!

verus! {

/// The export made by the union type entry at `p`.
fn union_entry(s: &[u8], p: usize) -> (r: Option<(ExportedName, usize)>)
    ensures
        match r {
            Some((e, q)) => spec_union_entry(s@, p as int) == Some((e@, q as int)),
            None => spec_union_entry(s@, p as int) is None,
        },
{
    let (name, q) = match read_text(s, p) {
        Some(x) => x,
        None => return None,
    };
    let end = match skip(s, p, Sym::UnionEntry) {
        Some(e) => e,
        None => return None,
    };
    if word8(s, q) == Some(0u8) {
        let v = match skip_seq(s, q + 1, Sym::Name) {
            Some(v) => v,
            None => return None,
        };
        let n = match read_count(s, v) {
            Some(n) => n,
            None => return None,
        };
        match ctor_names(s, v + 8, n) {
            Some((ctors, _)) => Some(
                (ExportedName::Type { name: name.to_string(), constructors: ctors }, end),
            ),
            None => None,
        }
    } else {
        let e = ExportedName::Type { name: name.to_string(), constructors: Vec::new() };
        assert(strings_view(Seq::<String>::empty()) == Seq::<Seq<char>>::empty());
        Some((e, end))
    }
}

/// The exports made by `n` union type entries starting at `p`.
fn union_entries(s: &[u8], p: usize, n: usize) -> (r: Option<(Vec<ExportedName>, usize)>)
    ensures
        match r {
            Some((v, q)) => spec_union_entries(s@, p as int, n as nat) == Some(
                (exports_view(v@), q as int),
            ),
            None => spec_union_entries(s@, p as int, n as nat) is None,
        },
{
    let mut acc: Vec<ExportedName> = Vec::new();
    let mut cur = p;
    let mut i: usize = 0;
    while i < n
        invariant
            i <= n,
            spec_union_entries(s@, p as int, n as nat) == match spec_union_entries(
                s@,
                cur as int,
                (n - i) as nat,
            ) {
                Some((rest, t)) => Some((exports_view(acc@) + rest, t)),
                None => None,
            },
        decreases n - i,
    {
        let (e, next) = match union_entry(s, cur) {
            Some(x) => x,
            None => return None,
        };
        let ghost old_acc = acc@;
        let ghost ev = e@;
        acc.push(e);
        proof {
            assert(exports_view(acc@) == exports_view(old_acc) + seq![ev]);
            match spec_union_entries(s@, next as int, (n - i - 1) as nat) {
                Some((rest, t)) => {
                    assert(exports_view(old_acc) + (seq![ev] + rest) == exports_view(acc@)
                        + rest);
                },
                None => {},
            }
        }
        cur = next;
        i = i + 1;
    }
    Some((acc, cur))
}

/// Appends every name of `names` to `out`, made into an export by `value`
/// (a value when true, a type without constructors otherwise).
fn push_named_exports(out: &mut Vec<ExportedName>, names: Vec<String>, value: bool)
    ensures
        exports_view(final(out)@) == exports_view(old(out)@) + if value {
            values_of(strings_view(names@))
        } else {
            aliases_of(strings_view(names@))
        },
{
    let ghost start = exports_view(out@);
    let ghost all = if value {
        values_of(strings_view(names@))
    } else {
        aliases_of(strings_view(names@))
    };
    let mut i: usize = 0;
    while i < names.len()
        invariant
            i <= names.len(),
            all.len() == names@.len(),
            all == (if value {
                values_of(strings_view(names@))
            } else {
                aliases_of(strings_view(names@))
            }),
            exports_view(out@) == start + all.subrange(0, i as int),
        decreases names.len() - i,
    {
        let name = names[i].clone();
        let e = if value {
            ExportedName::Value { name }
        } else {
            ExportedName::Type { name, constructors: Vec::new() }
        };
        let ghost old_out = out@;
        out.push(e);
        proof {
            assert(strings_view(Seq::<String>::empty()) == Seq::<Seq<char>>::empty());
            assert(exports_view(out@) == exports_view(old_out) + seq![e@]);
            assert(all.subrange(0, i + 1) == all.subrange(0, i as int) + seq![all[i as int]]);
        }
        i = i + 1;
    }
    assert(all.subrange(0, names@.len() as int) == all);
}

} // verus!

verus! {

/// The exports of the public module interface at `p`.
fn interface_exports(s: &[u8], p: usize) -> (r: Option<(Vec<ExportedName>, usize)>)
    ensures
        match r {
            Some((v, q)) => spec_interface_exports(s@, p as int) == Some(
                (exports_view(v@), q as int),
            ),
            None => spec_interface_exports(s@, p as int) is None,
        },
{
    let q1 = match skip(s, p, Sym::Package) {
        Some(q) => q,
        None => return None,
    };
    let n1 = match read_count(s, q1) {
        Some(n) => n,
        None => return None,
    };
    let (values, q2) = match entry_names(s, q1 + 8, n1, Sym::ValueEntry) {
        Some(x) => x,
        None => return None,
    };
    let n2 = match read_count(s, q2) {
        Some(n) => n,
        None => return None,
    };
    let (unions, q3) = match union_entries(s, q2 + 8, n2) {
        Some(x) => x,
        None => return None,
    };
    let n3 = match read_count(s, q3) {
        Some(n) => n,
        None => return None,
    };
    let (aliases, q4) = match entry_names(s, q3 + 8, n3, Sym::AliasEntry) {
        Some(x) => x,
        None => return None,
    };
    let q5 = match skip_seq(s, q4, Sym::BinopEntry) {
        Some(q) => q,
        None => return None,
    };
    let mut out: Vec<ExportedName> = Vec::new();
    push_named_exports(&mut out, values, true);
    let mut unions = unions;
    let ghost before = exports_view(out@);
    let ghost us = exports_view(unions@);
    out.append(&mut unions);
    assert(exports_view(out@) == before + us);
    push_named_exports(&mut out, aliases, false);
    assert(exports_view(Seq::<ExportedName>::empty()) == Seq::<SpecExportedName>::empty());
    Some((out, q5))
}

/// Appends `(module, e)` for every export `e` of `es` to `out`.
fn push_with_module(out: &mut Vec<(String, ExportedName)>, module: &str, es: Vec<ExportedName>)
    ensures
        module_exports_view(final(out)@) == module_exports_view(old(out)@) + with_module(
            module@,
            exports_view(es@),
        ),
{
    let ghost start = module_exports_view(out@);
    let ghost all = with_module(module@, exports_view(es@));
    let mut i: usize = 0;
    while i < es.len()
        invariant
            i <= es.len(),
            all == with_module(module@, exports_view(es@)),
            all.len() == es@.len(),
            module_exports_view(out@) == start + all.subrange(0, i as int),
        decreases es.len() - i,
    {
        let e = es[i].clone_export();
        let ghost old_out = out@;
        out.push((module.to_string(), e));
        proof {
            assert(module_exports_view(out@) == module_exports_view(old_out) + seq![
                (module@, e@),
            ]);
            assert(all.subrange(0, i + 1) == all.subrange(0, i as int) + seq![all[i as int]]);
        }
        i = i + 1;
    }
    assert(all.subrange(0, es@.len() as int) == all);
}

/// Reads the exports of every public module listed in the contents of an
/// `i.dat` file, each paired with the name of its module. Fails on contents
/// that do not follow the file format.
pub fn parse_idat(s: &[u8]) -> (r: Result<Vec<(String, ExportedName)>, Error>)
    ensures
        match r {
            Ok(v) => spec_idat_exports(s@) == Some(module_exports_view(v@)),
            Err(_) => spec_idat_exports(s@) is None,
        },
{
    let n = match read_count(s, 0) {
        Some(n) => n,
        None => return Err(mk_err("i.dat file does not start with a module count")),
    };
    let mut out: Vec<(String, ExportedName)> = Vec::new();
    let mut cur: usize = 8;
    let mut i: usize = 0;
    while i < n
        invariant
            i <= n,
            spec_idat_exports(s@) == match spec_module_entries(s@, cur as int, (n - i) as nat) {
                Some(rest) => Some(module_exports_view(out@) + rest),
                None => None,
            },
        decreases n - i,
    {
        let q = match skip(s, cur, Sym::Package) {
            Some(q) => q,
            None => return Err(mk_err("error reading package name from i.dat")),
        };
        let (module, r) = match read_text(s, q) {
            Some(x) => x,
            None => return Err(mk_err("error reading module name from i.dat")),
        };
        let ghost old_out = module_exports_view(out@);
        let next;
        if word8(s, r) == Some(0u8) {
            match interface_exports(s, r + 1) {
                Some((es, t)) => {
                    push_with_module(&mut out, module, es);
                    next = t;
                },
                None => return Err(mk_err("error reading module interface from i.dat")),
            }
        } else {
            match skip(s, r, Sym::DependencyInterface) {
                Some(t) => {
                    next = t;
                },
                None => return Err(mk_err("error reading dependency interface from i.dat")),
            }
        }
        proof {
            let here = module_exports_view(out@).subrange(old_out.len() as int, module_exports_view(out@).len() as int);
            assert(module_exports_view(out@) == old_out + here);
            match spec_module_entries(s@, next as int, (n - i - 1) as nat) {
                Some(rest) => {
                    assert(old_out + (here + rest) == module_exports_view(out@) + rest);
                },
                None => {},
            }
        }
        cur = next;
        i = i + 1;
    }
    assert(module_exports_view(out@) + Seq::empty() == module_exports_view(out@));
    Ok(out)
}

} // verus!

verus! {

/// Reading `n` constructors gives `n` names, the first being the text the
/// first constructor entry starts with.
pub proof fn lemma_ctor_names_shape(s: Seq<u8>, p: int, n: nat)
    requires
        spec_ctor_names(s, p, n) is Some,
    ensures
        spec_ctor_names(s, p, n)->Some_0.0.len() == n,
        n > 0 ==> spec_text(s, p) is Some && spec_ctor_names(s, p, n)->Some_0.0[0]
            == spec_text(s, p)->Some_0.0,
    decreases n,
{
    if n > 0 {
        let q = spec_skip(s, p, Sym::Ctor)->Some_0;
        lemma_ctor_names_shape(s, q, (n - 1) as nat);
    }
}

/// A union type entry open to importers (its tag byte is 0) exports the
/// type with the names of its constructor entries, in order and as many as
/// the entry counts; any other tag exports the type without constructors.
/// Either way the entry's own name is the type's name.
pub proof fn lemma_union_entry_constructors(s: Seq<u8>, p: int)
    requires
        spec_union_entry(s, p) is Some,
    ensures
        ({
            let (name, q) = spec_text(s, p)->Some_0;
            let e = spec_union_entry(s, p)->Some_0.0;
            &&& spec_text(s, p) is Some
            &&& e is Type && e->Type_name == name
            &&& spec_word8(s, q) != Some(0u8) ==> e->Type_constructors == Seq::<Seq<char>>::empty()
            &&& spec_word8(s, q) == Some(0u8) ==> {
                let v = spec_seq(s, q + 1, Sym::Name)->Some_0;
                let n = spec_count(s, v)->Some_0;
                &&& spec_ctor_names(s, v + 8, n) is Some
                &&& e->Type_constructors == spec_ctor_names(s, v + 8, n)->Some_0.0
                &&& e->Type_constructors.len() == n
                &&& n > 0 ==> e->Type_constructors[0] == spec_text(s, v + 8)->Some_0.0
            }
        }),
{
    let (name, q) = spec_text(s, p)->Some_0;
    if spec_word8(s, q) == Some(0u8) {
        let v = spec_seq(s, q + 1, Sym::Name)->Some_0;
        let n = spec_count(s, v)->Some_0;
        lemma_ctor_names_shape(s, v + 8, n);
    }
}

} // verus!
