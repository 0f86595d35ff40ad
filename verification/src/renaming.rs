//! Renaming values: finding a free name by appending a number, and choosing
//! which occurrences of a name a rename touches.
use vstd::prelude::*;
use vstd::set_lib::{lemma_int_range, lemma_len_subset, lemma_map_size, set_int_range};
use core::ops::Range;
use crate::editors::Buffer;
use crate::names::{Name, NameKind, names_view};
use crate::refactor::{Refactor, SpecReplacement};

verus! {

/// The character of the decimal digit `d`.
pub open spec fn digit_char(d: nat) -> char {
    ('0' as int + d) as char
}

/// The decimal digits of `n`, most significant first, without leading
/// zeros.
pub open spec fn decimal(n: nat) -> Seq<char>
    decreases n,
{
    if n < 10 {
        seq![digit_char(n)]
    } else {
        decimal(n / 10).push(digit_char(n % 10))
    }
}

/// Numbers below ten have one digit, larger numbers more.
proof fn lemma_decimal_len(n: nat)
    ensures
        n < 10 <==> decimal(n).len() == 1,
        decimal(n).len() >= 1,
    decreases n,
{
    if n >= 10 {
        lemma_decimal_len(n / 10);
    }
}

/// Different digits have different characters.
proof fn lemma_digit_char_injective(a: nat, b: nat)
    requires
        a < 10,
        b < 10,
        digit_char(a) == digit_char(b),
    ensures
        a == b,
{
    assert(digit_char(a) as int == '0' as int + a);
    assert(digit_char(b) as int == '0' as int + b);
}

/// Different numbers have different decimal digits.
pub proof fn lemma_decimal_injective(a: nat, b: nat)
    requires
        decimal(a) == decimal(b),
    ensures
        a == b,
    decreases a,
{
    lemma_decimal_len(a);
    lemma_decimal_len(b);
    if a < 10 {
        assert(b < 10);
        assert(decimal(a)[0] == digit_char(a));
        assert(decimal(b)[0] == digit_char(b));
        lemma_digit_char_injective(a, b);
    } else {
        assert(decimal(a).drop_last() == decimal(a / 10));
        assert(decimal(b).drop_last() == decimal(b / 10));
        lemma_decimal_injective(a / 10, b / 10);
        assert(b >= 10);
        assert(decimal(a).last() == digit_char(a % 10));
        assert(decimal(b).last() == digit_char(b % 10));
        lemma_digit_char_injective(a % 10, b % 10);
    }
}

/// The text of the digit `d`.
fn digit_str(d: usize) -> (r: &'static str)
    requires
        d < 10,
    ensures
        r@ == seq![digit_char(d as nat)],
{
    proof {
        reveal_strlit("0");
        reveal_strlit("1");
        reveal_strlit("2");
        reveal_strlit("3");
        reveal_strlit("4");
        reveal_strlit("5");
        reveal_strlit("6");
        reveal_strlit("7");
        reveal_strlit("8");
        reveal_strlit("9");
    }
    let r = if d == 0 {
        "0"
    } else if d == 1 {
        "1"
    } else if d == 2 {
        "2"
    } else if d == 3 {
        "3"
    } else if d == 4 {
        "4"
    } else if d == 5 {
        "5"
    } else if d == 6 {
        "6"
    } else if d == 7 {
        "7"
    } else if d == 8 {
        "8"
    } else {
        "9"
    };
    assert(r@ =~= seq![digit_char(d as nat)]);
    r
}

/// The decimal text of `n`.
pub fn decimal_text(n: usize) -> (r: String)
    ensures
        r@ == decimal(n as nat),
    decreases n,
{
    if n < 10 {
        String::from_str(digit_str(n))
    } else {
        let mut s = decimal_text(n / 10);
        s.append(digit_str(n % 10));
        s
    }
}

/// The name `base` with the number `k` appended.
pub open spec fn numbered(base: (Seq<char>, NameKind), k: nat) -> (Seq<char>, NameKind) {
    (base.0 + decimal(k), base.1)
}

/// The names `base2`, `base3`, `base4` and so on, in order.
pub struct NamesWithDigit {
    base_reference: Name,
    next_digit: usize,
}

impl NamesWithDigit {
    /// The name the walk gives next.
    pub closed spec fn upcoming(&self) -> (Seq<char>, NameKind) {
        numbered(self.base_reference@, self.next_digit as nat)
    }

    /// The number the walk appends next.
    pub closed spec fn next_number(&self) -> nat {
        self.next_digit as nat
    }

    /// The name the walk starts from.
    pub closed spec fn base(&self) -> (Seq<char>, NameKind) {
        self.base_reference@
    }

    /// The next name of the walk.
    pub fn next(&mut self) -> (r: Option<Name>)
        requires
            old(self).next_number() < usize::MAX,
        ensures
            r matches Some(n) && n@ == numbered(old(self).base(), old(self).next_number()),
            final(self).next_number() == old(self).next_number() + 1,
            final(self).base() == old(self).base(),
    {
        let mut new_name = self.base_reference.name.clone();
        new_name.append(decimal_text(self.next_digit).as_str());
        let next_ref = Name { name: new_name, kind: self.base_reference.kind };
        self.next_digit = self.next_digit + 1;
        Some(next_ref)
    }
}

/// The names `reference` followed by 2, 3, 4 and so on.
pub fn names_with_digit(reference: &Name) -> (r: NamesWithDigit)
    ensures
        r.base() == reference@,
        r.next_number() == 2,
{
    NamesWithDigit { base_reference: reference.copy(), next_digit: 2 }
}

/// Whether `name` is among `names`.
pub fn contains_name(names: &Vec<Name>, name: &Name) -> (r: bool)
    ensures
        r == names_view(names@).contains(name@),
{
    let mut i: usize = 0;
    while i < names.len()
        invariant
            i <= names@.len(),
            forall|j: int| 0 <= j < i ==> names@[j]@ != name@,
        decreases names.len() - i,
    {
        if names[i].same(name) {
            assert(names_view(names@)[i as int] == name@);
            return true;
        }
        i = i + 1;
    }
    proof {
        if names_view(names@).contains(name@) {
            let j = choose|j: int| 0 <= j < names@.len() && names_view(names@)[j] == name@;
            assert(names@[j]@ == name@);
        }
    }
    false
}

/// Among `m + 1` numbered names some is not among `m` names in use.
pub proof fn lemma_numbered_names_run_free(base: (Seq<char>, NameKind), in_use: Seq<(Seq<char>, NameKind)>)
    ensures
        exists|k: nat| 2 <= k < 2 + in_use.len() + 1 && !in_use.contains(#[trigger] numbered(base, k)),
{
    let m: int = in_use.len() as int;
    let ks = set_int_range(2, 2 + m + 1);
    let f = |k: int| numbered(base, k as nat);
    lemma_int_range(2, 2 + m + 1);
    assert forall|a: int, b: int| ks.contains(a) && ks.contains(b) && #[trigger] f(a) == #[trigger] f(b) implies a == b by {
        assert(f(a).0.skip(base.0.len() as int) =~= decimal(a as nat));
        assert(f(b).0.skip(base.0.len() as int) =~= decimal(b as nat));
        lemma_decimal_injective(a as nat, b as nat);
    }
    let names = ks.map(f);
    lemma_map_size(ks, names, f);
    if forall|k: nat| 2 <= k < 2 + m + 1 ==> in_use.contains(#[trigger] numbered(base, k)) {
        assert forall|x| names.contains(x) implies in_use.to_set().contains(x) by {
            let k = choose|k: int| ks.contains(k) && f(k) == x;
            assert(in_use.contains(numbered(base, k as nat)));
        }
        in_use.lemma_cardinality_of_set();
        lemma_len_subset(names, in_use.to_set());
        assert(false);
    }
}

/// The first of `reference2`, `reference3`, ... that is not among
/// `names_in_use`. There always is one.
pub fn first_free_name(reference: &Name, names_in_use: &Vec<Name>) -> (r: Name)
    requires
        names_in_use@.len() + 3 <= usize::MAX,
    ensures
        exists|k: nat|
            {
                &&& k >= 2
                &&& r@ == numbered(reference@, k)
                &&& !names_view(names_in_use@).contains(r@)
                &&& forall|j: nat| 2 <= j < k ==> names_view(names_in_use@).contains(
                    #[trigger] numbered(reference@, j),
                )
            },
{
    let ghost in_use = names_view(names_in_use@);
    proof {
        lemma_numbered_names_run_free(reference@, in_use);
    }
    let mut candidates = names_with_digit(reference);
    loop
        invariant
            in_use == names_view(names_in_use@),
            names_in_use@.len() + 3 <= usize::MAX,
            candidates.base() == reference@,
            2 <= candidates.next_number() <= 2 + in_use.len(),
            forall|j: nat| 2 <= j < candidates.next_number() ==> in_use.contains(
                #[trigger] numbered(reference@, j),
            ),
            exists|k: nat|
                2 <= k < 2 + in_use.len() + 1 && !in_use.contains(#[trigger] numbered(reference@, k)),
        decreases 2 + in_use.len() - candidates.next_number(),
    {
        let ghost k = candidates.next_number();
        let candidate = match candidates.next() {
            Some(c) => c,
            None => {
                proof {
                    assert(false);
                }
                return reference.copy();
            },
        };
        if !contains_name(names_in_use, &candidate) {
            return candidate;
        }
        proof {
            if candidates.next_number() > 2 + in_use.len() {
                let w = choose|w: nat|
                    2 <= w < 2 + in_use.len() + 1 && !in_use.contains(#[trigger] numbered(reference@, w));
                if w < k {
                    assert(in_use.contains(numbered(reference@, w)));
                }
            }
        }
    }
}

/// A scope: the byte range of the code in which a definition is visible.
/// Whether the byte `pos` lies in `range`, as `Range::contains` decides.
pub open spec fn range_has(range: Range<usize>, pos: usize) -> bool {
    range.start <= pos && pos < range.end
}

/// The length of `range`, as `ExactSizeIterator::len` gives it: zero for a
/// range that ends before it starts.
pub open spec fn range_len(range: Range<usize>) -> nat {
    if range.start < range.end {
        (range.end - range.start) as nat
    } else {
        0
    }
}

/// The innermost of the scopes `scopes` that contain the byte `pos`: the
/// shortest, the first of those when several are as short.
pub open spec fn is_innermost(scopes: Seq<Range<usize>>, pos: usize, i: int) -> bool {
    &&& 0 <= i < scopes.len()
    &&& range_has(scopes[i], pos)
    &&& forall|j: int|
        0 <= j < scopes.len() && range_has(#[trigger] scopes[j], pos) ==> range_len(scopes[i])
            <= range_len(scopes[j])
    &&& forall|j: int|
        0 <= j < i && range_has(#[trigger] scopes[j], pos) ==> range_len(scopes[i]) < range_len(
            scopes[j],
        )
}

/// The innermost scope that contains the byte `pos`: the shortest of the
/// scopes containing it, the first of those when several are as short;
/// `None` when no scope contains it.
pub fn innermost_scope(scopes: &Vec<Range<usize>>, pos: usize) -> (r: Option<Range<usize>>)
    ensures
        r is None <==> forall|j: int| 0 <= j < scopes@.len() ==> !range_has(#[trigger] scopes@[j], pos),
        r matches Some(s) ==> exists|i: int| is_innermost(scopes@, pos, i) && scopes@[i] == s,
{
    let mut best: Option<usize> = None;
    let mut i: usize = 0;
    while i < scopes.len()
        invariant
            i <= scopes@.len(),
            best is None <==> forall|j: int| 0 <= j < i ==> !range_has(#[trigger] scopes@[j], pos),
            best matches Some(b) ==> {
                &&& b < i
                &&& range_has(scopes@[b as int], pos)
                &&& forall|j: int|
                    0 <= j < i && range_has(#[trigger] scopes@[j], pos) ==> range_len(
                        scopes@[b as int],
                    ) <= range_len(scopes@[j])
                &&& forall|j: int|
                    0 <= j < b && range_has(#[trigger] scopes@[j], pos) ==> range_len(
                        scopes@[b as int],
                    ) < range_len(scopes@[j])
            },
        decreases scopes.len() - i,
    {
        let s = &scopes[i];
        if s.start <= pos && pos < s.end {
            let len = if s.start < s.end {
                s.end - s.start
            } else {
                0
            };
            match best {
                None => {
                    best = Some(i);
                },
                Some(b) => {
                    let bs = &scopes[b];
                    let best_len = if bs.start < bs.end {
                        bs.end - bs.start
                    } else {
                        0
                    };
                    if len < best_len {
                        best = Some(i);
                    }
                },
            }
        }
        i = i + 1;
    }
    match best {
        None => None,
        Some(b) => {
            let s = scopes[b].start..scopes[b].end;
            assert(is_innermost(scopes@, pos, b as int));
            Some(s)
        },
    }
}

/// Renames the occurrences of `from` among the unqualified names
/// `occurrences` (each with its byte range in `buffer`) to `to`: those whose
/// start lies in one of the ranges `within` (in any range when `within` is
/// empty) and in none of the ranges `skip`.
pub open spec fn renamed_occurrence(
    occ: (Range<usize>, (Seq<char>, NameKind)),
    from: (Seq<char>, NameKind),
    within: Seq<Range<usize>>,
    skip: Seq<Range<usize>>,
) -> bool {
    &&& occ.1 == from
    &&& (within.len() == 0 || exists|k: int|
        0 <= k < within.len() && range_has(#[trigger] within[k], occ.0.start))
    &&& !exists|k: int| 0 <= k < skip.len() && range_has(#[trigger] skip[k], occ.0.start)
}

/// The replacements a rename adds, in the order of the occurrences.
pub open spec fn rename_replacements(
    buffer: Buffer,
    occs: Seq<(Range<usize>, (Seq<char>, NameKind))>,
    from: (Seq<char>, NameKind),
    to: Seq<char>,
    within: Seq<Range<usize>>,
    skip: Seq<Range<usize>>,
) -> Seq<SpecReplacement>
    decreases occs.len(),
{
    if occs.len() == 0 {
        seq![]
    } else {
        let rest = rename_replacements(buffer, occs.drop_last(), from, to, within, skip);
        if renamed_occurrence(occs.last(), from, within, skip) {
            rest.push((buffer, occs.last().0, to))
        } else {
            rest
        }
    }
}

/// Whether the byte `pos` lies in one of `ranges`.
pub(crate) fn in_any(ranges: &Vec<Range<usize>>, pos: usize) -> (r: bool)
    ensures
        r == exists|k: int| 0 <= k < ranges@.len() && range_has(#[trigger] ranges@[k], pos),
{
    let mut i: usize = 0;
    while i < ranges.len()
        invariant
            i <= ranges@.len(),
            forall|k: int| 0 <= k < i ==> !range_has(#[trigger] ranges@[k], pos),
        decreases ranges.len() - i,
    {
        if ranges[i].start <= pos && pos < ranges[i].end {
            assert(range_has(ranges@[i as int], pos));
            return true;
        }
        i = i + 1;
    }
    false
}

/// Gives the unqualified name `from` the name `to` at its occurrences in
/// `buffer`, listed in `occurrences`: only those starting in one of the
/// ranges `within` (anywhere when it is empty) and in none of the ranges
/// `skip`. This may introduce naming conflicts.
pub fn rename(
    refactor: &mut Refactor,
    buffer: Buffer,
    occurrences: &Vec<(Range<usize>, Name)>,
    from: &Name,
    to: &Name,
    within: &Vec<Range<usize>>,
    skip: &Vec<Range<usize>>,
)
    ensures
        final(refactor).changes() == old(refactor).changes() + rename_replacements(
            buffer,
            occurrences@.map_values(|o: (Range<usize>, Name)| (o.0, o.1@)),
            from@,
            to.name@,
            within@,
            skip@,
        ),
        final(refactor).files_to_open() == old(refactor).files_to_open(),
        final(refactor).what() == old(refactor).what(),
{
    let ghost occs = occurrences@.map_values(|o: (Range<usize>, Name)| (o.0, o.1@));
    let ghost start = refactor.changes();
    let mut i: usize = 0;
    assert(occs.take(0) =~= Seq::<(Range<usize>, (Seq<char>, NameKind))>::empty());
    assert(start + rename_replacements(buffer, occs.take(0), from@, to.name@, within@, skip@) =~= start);
    while i < occurrences.len()
        invariant
            i <= occurrences@.len(),
            occs == occurrences@.map_values(|o: (Range<usize>, Name)| (o.0, o.1@)),
            refactor.changes() == start + rename_replacements(
                buffer,
                occs.take(i as int),
                from@,
                to.name@,
                within@,
                skip@,
            ),
            refactor.files_to_open() == old(refactor).files_to_open(),
            refactor.what() == old(refactor).what(),
        decreases occurrences.len() - i,
    {
        let (range, name) = (&occurrences[i].0, &occurrences[i].1);
        assert(occs.take(i + 1).drop_last() =~= occs.take(i as int));
        assert(occs.take(i + 1).last() == occs[i as int]);
        let is_within = within.len() == 0 || in_any(within, range.start);
        let skipped = in_any(skip, range.start);
        if name.same(from) && is_within && !skipped {
            let ghost before = refactor.changes();
            refactor.add_change(buffer, range.start..range.end, to.name.clone());
            assert(refactor.changes() =~= start + rename_replacements(
                buffer,
                occs.take(i + 1),
                from@,
                to.name@,
                within@,
                skip@,
            ));
        }
        i = i + 1;
    }
    assert(occs.take(occurrences@.len() as int) =~= occs);
}

/// The innermost scope containing `pos`, as [`innermost_scope`] picks it.
pub open spec fn spec_innermost(scopes: Seq<Range<usize>>, pos: usize) -> Option<Range<usize>> {
    if exists|i: int| is_innermost(scopes, pos, i) {
        Some(scopes[choose|i: int| is_innermost(scopes, pos, i)])
    } else {
        None
    }
}

/// There is at most one innermost scope: the first of the shortest.
pub(crate) proof fn lemma_innermost_unique(scopes: Seq<Range<usize>>, pos: usize, i: int, j: int)
    requires
        is_innermost(scopes, pos, i),
        is_innermost(scopes, pos, j),
    ensures
        i == j,
{
    if i < j {
        assert(range_len(scopes[j]) < range_len(scopes[i]));
    } else if j < i {
        assert(range_len(scopes[i]) < range_len(scopes[j]));
    }
}

/// The definitions among `occurrences` (each the start byte of a name, whether
/// it is where the name is defined, and the name), each with the innermost
/// of `scopes` containing it; definitions in no scope are left out.
pub open spec fn spec_definitions_with_scopes(
    occurrences: Seq<(usize, bool, (Seq<char>, NameKind))>,
    scopes: Seq<Range<usize>>,
) -> Seq<((Seq<char>, NameKind), Range<usize>)>
    decreases occurrences.len(),
{
    if occurrences.len() == 0 {
        seq![]
    } else {
        let rest = spec_definitions_with_scopes(occurrences.drop_last(), scopes);
        let (start, is_definition, name) = occurrences.last();
        if is_definition {
            match spec_innermost(scopes, start) {
                Some(scope) => rest.push((name, scope)),
                None => rest,
            }
        } else {
            rest
        }
    }
}

/// Pairs each definition among `occurrences` with the innermost scope it
/// is visible in.
pub fn definitions_with_scopes(
    occurrences: &Vec<(usize, bool, Name)>,
    scopes: &Vec<Range<usize>>,
) -> (r: Vec<(Name, Range<usize>)>)
    ensures
        r@.map_values(|d: (Name, Range<usize>)| (d.0@, d.1)) == spec_definitions_with_scopes(
            occurrences@.map_values(|o: (usize, bool, Name)| (o.0, o.1, o.2@)),
            scopes@,
        ),
{
    let ghost occs = occurrences@.map_values(|o: (usize, bool, Name)| (o.0, o.1, o.2@));
    let mut out: Vec<(Name, Range<usize>)> = Vec::new();
    let mut i: usize = 0;
    assert(occs.take(0) =~= Seq::<(usize, bool, (Seq<char>, NameKind))>::empty());
    while i < occurrences.len()
        invariant
            i <= occurrences@.len(),
            occs == occurrences@.map_values(|o: (usize, bool, Name)| (o.0, o.1, o.2@)),
            out@.map_values(|d: (Name, Range<usize>)| (d.0@, d.1)) == spec_definitions_with_scopes(
                occs.take(i as int),
                scopes@,
            ),
        decreases occurrences.len() - i,
    {
        let (start, is_definition, name) = (occurrences[i].0, occurrences[i].1, &occurrences[i].2);
        assert(occs.take(i + 1).drop_last() =~= occs.take(i as int));
        assert(occs.take(i + 1).last() == occs[i as int]);
        if is_definition {
            let found = innermost_scope(scopes, start);
            proof {
                match &found {
                    Some(sc) => {
                        let k = choose|k: int| is_innermost(scopes@, start, k) && scopes@[k] == *sc;
                        let c = choose|c: int| is_innermost(scopes@, start, c);
                        lemma_innermost_unique(scopes@, start, k, c);
                    },
                    None => {
                        if exists|k: int| is_innermost(scopes@, start, k) {
                            let k = choose|k: int| is_innermost(scopes@, start, k);
                            assert(range_has(scopes@[k], start));
                        }
                    },
                }
            }
            match found {
                Some(scope) => {
                    let ghost before = out@.map_values(|d: (Name, Range<usize>)| (d.0@, d.1));
                    out.push((name.copy(), scope));
                    assert(out@.map_values(|d: (Name, Range<usize>)| (d.0@, d.1)) =~= before.push(
                        (name@, scope),
                    ));
                },
                None => {},
            }
        }
        i = i + 1;
    }
    assert(occs.take(occurrences@.len() as int) =~= occs);
    out
}

/// Whether the scope `scope` of a definition is one a rename may touch: any
/// scope when `must_include` is empty, else one containing the start of a
/// range in `must_include`.
pub open spec fn scope_included(scope: Range<usize>, must_include: Seq<Range<usize>>) -> bool {
    must_include.len() == 0 || exists|k: int|
        0 <= k < must_include.len() && range_has(scope, #[trigger] must_include[k].start)
}

/// The scopes of the definitions of `name` among `definitions` that a rename
/// may touch, in order.
pub open spec fn spec_scopes_of_name(
    definitions: Seq<((Seq<char>, NameKind), Range<usize>)>,
    name: (Seq<char>, NameKind),
    must_include: Seq<Range<usize>>,
) -> Seq<Range<usize>>
    decreases definitions.len(),
{
    if definitions.len() == 0 {
        seq![]
    } else {
        let rest = spec_scopes_of_name(definitions.drop_last(), name, must_include);
        let (n, scope) = definitions.last();
        if n == name && scope_included(scope, must_include) {
            rest.push(scope)
        } else {
            rest
        }
    }
}

/// The scopes of the definitions of `name` among `definitions` that contain
/// the start of one of the ranges `must_include` (all of them when it is
/// empty): where a rename of `name` happens.
pub fn scopes_of_name(
    definitions: &Vec<(Name, Range<usize>)>,
    name: &Name,
    must_include: &Vec<Range<usize>>,
) -> (r: Vec<Range<usize>>)
    ensures
        r@ == spec_scopes_of_name(
            definitions@.map_values(|d: (Name, Range<usize>)| (d.0@, d.1)),
            name@,
            must_include@,
        ),
{
    let ghost defs = definitions@.map_values(|d: (Name, Range<usize>)| (d.0@, d.1));
    let mut out: Vec<Range<usize>> = Vec::new();
    let mut i: usize = 0;
    assert(defs.take(0) =~= Seq::<((Seq<char>, NameKind), Range<usize>)>::empty());
    while i < definitions.len()
        invariant
            i <= definitions@.len(),
            defs == definitions@.map_values(|d: (Name, Range<usize>)| (d.0@, d.1)),
            out@ == spec_scopes_of_name(defs.take(i as int), name@, must_include@),
        decreases definitions.len() - i,
    {
        let scope = &definitions[i].1;
        assert(defs.take(i + 1).drop_last() =~= defs.take(i as int));
        assert(defs.take(i + 1).last() == defs[i as int]);
        if definitions[i].0.same(name) {
            let mut included = must_include.len() == 0;
            let mut k: usize = 0;
            while k < must_include.len() && !included
                invariant
                    k <= must_include@.len(),
                    included ==> scope_included(*scope, must_include@),
                    !included ==> must_include@.len() > 0 && forall|j: int|
                        0 <= j < k ==> !range_has(*scope, #[trigger] must_include@[j].start),
                decreases must_include.len() - k,
            {
                let p = must_include[k].start;
                if scope.start <= p && p < scope.end {
                    assert(range_has(*scope, must_include@[k as int].start));
                    included = true;
                }
                k = k + 1;
            }
            if included {
                out.push(scope.start..scope.end);
                assert(out@ =~= spec_scopes_of_name(defs.take(i + 1), name@, must_include@));
            }
        }
        i = i + 1;
    }
    assert(defs.take(definitions@.len() as int) =~= defs);
    out
}

} // verus!

verus! {

/// A rename with no scope to stay within and nothing to skip replaces every
/// occurrence of the old name by the new one.
pub proof fn lemma_unrestricted_rename_covers_every_use(
    buffer: Buffer,
    occs: Seq<(Range<usize>, (Seq<char>, NameKind))>,
    from: (Seq<char>, NameKind),
    to: Seq<char>,
    k: int,
)
    requires
        0 <= k < occs.len(),
        occs[k].1 == from,
    ensures
        rename_replacements(buffer, occs, from, to, seq![], seq![]).contains((buffer, occs[k].0, to)),
    decreases occs.len(),
{
    let rest = rename_replacements(buffer, occs.drop_last(), from, to, seq![], seq![]);
    if k == occs.len() - 1 {
        assert(renamed_occurrence(occs.last(), from, seq![], seq![]));
        assert(rename_replacements(buffer, occs, from, to, seq![], seq![]) == rest.push(
            (buffer, occs.last().0, to),
        ));
        assert(rest.push((buffer, occs.last().0, to))[rest.len() as int] == (buffer, occs[k].0, to));
    } else {
        assert(occs.drop_last()[k] == occs[k]);
        lemma_unrestricted_rename_covers_every_use(buffer, occs.drop_last(), from, to, k);
        let x = (buffer, occs[k].0, to);
        let i = choose|i: int| 0 <= i < rest.len() && rest[i] == x;
        if renamed_occurrence(occs.last(), from, seq![], seq![]) {
            assert(rest.push((buffer, occs.last().0, to))[i] == x);
        }
    }
}

} // verus!
