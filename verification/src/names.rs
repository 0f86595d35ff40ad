//! Names in Elm code, and the names that entries of an import's exposing
//! list bring into scope.
use vstd::prelude::*;
use crate::error::{Error, mk_err};
use crate::exports::{ExportedName, SpecExportedName, exports_view, strings_view};
use crate::text::same_text;
use crate::renaming::contains_name;

verus! {

/// The kinds of things a name can refer to.
#[derive(PartialEq, Eq, Clone, Copy, Debug, Hash, Structural)]
pub enum NameKind {
    Value,
    Type,
    Constructor,
    Operator,
}

/// A name together with the kind of thing it refers to.
#[derive(Clone, Debug, PartialEq, Eq, Hash)]
pub struct Name {
    pub name: String,
    pub kind: NameKind,
}

impl View for Name {
    type V = (Seq<char>, NameKind);

    open spec fn view(&self) -> (Seq<char>, NameKind) {
        (self.name@, self.kind)
    }
}

/// The mathematical form of a list of names.
pub open spec fn names_view(v: Seq<Name>) -> Seq<(Seq<char>, NameKind)> {
    v.map_values(|n: Name| n@)
}

impl Name {
    /// A name of the given kind.
    pub fn new(name: &str, kind: NameKind) -> (r: Name)
        ensures
            r@ == (name@, kind),
    {
        Name { name: name.to_string(), kind }
    }

    /// A copy of this name.
    pub fn copy(&self) -> (r: Name)
        ensures
            r@ == self@,
    {
        Name { name: self.name.clone(), kind: self.kind }
    }

    /// Whether two names are the same name of the same kind.
    pub fn same(&self, other: &Name) -> (r: bool)
        ensures
            r == (self@ == other@),
    {
        self.kind == other.kind && self.name == other.name
    }
}

/// An entry of the exposing list of an import.
#[derive(Debug, Clone, PartialEq, Eq)]
pub enum ExposedName {
    /// An operator, like `(+)`.
    Operator { name: String },
    /// A value.
    Value { name: String },
    /// A type, possibly followed by `(..)` to expose its constructors too.
    Type { name: String, exposing_constructors: bool },
    /// `..`: everything the imported module exports.
    All,
}

/// The mathematical form of [`ExposedName`].
pub enum SpecExposedName {
    Operator { name: Seq<char> },
    Value { name: Seq<char> },
    Type { name: Seq<char>, exposing_constructors: bool },
    All,
}

impl View for ExposedName {
    type V = SpecExposedName;

    open spec fn view(&self) -> SpecExposedName {
        match self {
            ExposedName::Operator { name } => SpecExposedName::Operator { name: name@ },
            ExposedName::Value { name } => SpecExposedName::Value { name: name@ },
            ExposedName::Type { name, exposing_constructors } => SpecExposedName::Type {
                name: name@,
                exposing_constructors: *exposing_constructors,
            },
            ExposedName::All => SpecExposedName::All,
        }
    }
}

/// Constructor names as names of kind constructor.
pub open spec fn constructor_names(cs: Seq<Seq<char>>) -> Seq<(Seq<char>, NameKind)> {
    cs.map_values(|c: Seq<char>| (c, NameKind::Constructor))
}

/// The constructors an export adds when a type named `t` is exposed, with
/// `(..)` when `exposing` holds.
pub open spec fn constructors_for_type(
    e: SpecExportedName,
    t: Seq<char>,
    exposing: bool,
) -> Seq<(Seq<char>, NameKind)> {
    match e {
        SpecExportedName::Value { .. } => seq![],
        SpecExportedName::RecordTypeAlias { name } => if name == t {
            seq![(name, NameKind::Constructor)]
        } else {
            seq![]
        },
        SpecExportedName::Type { name, constructors } => if exposing && name == t {
            constructor_names(constructors)
        } else {
            seq![]
        },
    }
}

/// The names an export adds when everything is exposed.
pub open spec fn names_for_all(e: SpecExportedName) -> Seq<(Seq<char>, NameKind)> {
    match e {
        SpecExportedName::Value { name } => seq![(name, NameKind::Value)],
        SpecExportedName::RecordTypeAlias { name } => seq![
            (name, NameKind::Value),
            (name, NameKind::Type),
        ],
        SpecExportedName::Type { name, constructors } => seq![(name, NameKind::Type)]
            + constructor_names(constructors),
    }
}

/// The constructors that exposing a type named `t` adds, over the exports
/// `es` in order.
pub open spec fn constructors_for_type_all(
    es: Seq<SpecExportedName>,
    t: Seq<char>,
    exposing: bool,
) -> Seq<(Seq<char>, NameKind)>
    decreases es.len(),
{
    if es.len() == 0 {
        seq![]
    } else {
        constructors_for_type_all(es.drop_last(), t, exposing) + constructors_for_type(
            es.last(),
            t,
            exposing,
        )
    }
}

/// The names exposing everything adds, over the exports `es` in order.
pub open spec fn names_for_all_exports(es: Seq<SpecExportedName>) -> Seq<(Seq<char>, NameKind)>
    decreases es.len(),
{
    if es.len() == 0 {
        seq![]
    } else {
        names_for_all_exports(es.drop_last()) + names_for_all(es.last())
    }
}

/// The names, in order, that the exposing list entry `e` brings into scope
/// from a module with exports `es`.
pub open spec fn spec_names_of_exposed(e: SpecExposedName, es: Seq<SpecExportedName>) -> Seq<
    (Seq<char>, NameKind),
> {
    match e {
        SpecExposedName::Value { name } => seq![(name, NameKind::Value)],
        SpecExposedName::Operator { name } => seq![(name, NameKind::Operator)],
        SpecExposedName::Type { name, exposing_constructors } => seq![(name, NameKind::Type)]
            + constructors_for_type_all(es, name, exposing_constructors),
        SpecExposedName::All => names_for_all_exports(es),
    }
}

/// Appends the constructor names `cs` to `out`.
fn push_constructors(out: &mut Vec<Name>, cs: &Vec<String>)
    ensures
        names_view(final(out)@) == names_view(old(out)@) + constructor_names(strings_view(cs@)),
{
    let ghost start = names_view(out@);
    let mut i: usize = 0;
    while i < cs.len()
        invariant
            i <= cs.len(),
            names_view(out@) == start + constructor_names(strings_view(cs@)).subrange(
                0,
                i as int,
            ),
        decreases cs.len() - i,
    {
        let ghost prev = names_view(out@);
        out.push(Name { name: cs[i].clone(), kind: NameKind::Constructor });
        proof {
            let all = constructor_names(strings_view(cs@));
            assert(names_view(out@) == prev + seq![all[i as int]]);
            assert(all.subrange(0, i + 1) == all.subrange(0, i as int) + seq![all[i as int]]);
        }
        i = i + 1;
    }
    proof {
        let all = constructor_names(strings_view(cs@));
        assert(all.subrange(0, cs@.len() as int) == all);
    }
}

/// The names the exposing list entry `exposed` brings into scope from a
/// module with exports `exports`, in the order they are found.
pub fn names_of_exposed(exposed: &ExposedName, exports: &Vec<ExportedName>) -> (r: Vec<Name>)
    ensures
        names_view(r@) == spec_names_of_exposed(exposed@, exports_view(exports@)),
{
    let mut out: Vec<Name> = Vec::new();
    match exposed {
        ExposedName::Value { name } => {
            out.push(Name { name: name.clone(), kind: NameKind::Value });
            assert(names_view(out@) == seq![(name@, NameKind::Value)]);
        },
        ExposedName::Operator { name } => {
            out.push(Name { name: name.clone(), kind: NameKind::Operator });
            assert(names_view(out@) == seq![(name@, NameKind::Operator)]);
        },
        ExposedName::Type { name, exposing_constructors } => {
            out.push(Name { name: name.clone(), kind: NameKind::Type });
            let ghost es = exports_view(exports@);
            assert(names_view(out@) == seq![(name@, NameKind::Type)]
                + constructors_for_type_all(es.subrange(0, 0), name@, *exposing_constructors));
            let mut i: usize = 0;
            while i < exports.len()
                invariant
                    i <= exports.len(),
                    es == exports_view(exports@),
                    names_view(out@) == seq![(name@, NameKind::Type)] + constructors_for_type_all(
                        es.subrange(0, i as int),
                        name@,
                        *exposing_constructors,
                    ),
                decreases exports.len() - i,
            {
                let ghost prev = names_view(out@);
                match &exports[i] {
                    ExportedName::Value { .. } => {
                        assert(names_view(out@) == prev + constructors_for_type(
                            es[i as int],
                            name@,
                            *exposing_constructors,
                        ));
                    },
                    ExportedName::RecordTypeAlias { name: n } => {
                        if *n == *name {
                            out.push(Name { name: n.clone(), kind: NameKind::Constructor });
                        }
                        assert(names_view(out@) == prev + constructors_for_type(
                            es[i as int],
                            name@,
                            *exposing_constructors,
                        ));
                    },
                    ExportedName::Type { name: n, constructors } => {
                        if *exposing_constructors && *n == *name {
                            push_constructors(&mut out, constructors);
                        }
                        assert(names_view(out@) == prev + constructors_for_type(
                            es[i as int],
                            name@,
                            *exposing_constructors,
                        ));
                    },
                }
                proof {
                    let pre = es.subrange(0, i as int);
                    let c = constructors_for_type(es[i as int], name@, *exposing_constructors);
                    assert(es.subrange(0, i + 1).drop_last() == pre);
                    assert(es.subrange(0, i + 1).last() == es[i as int]);
                    assert(constructors_for_type_all(
                        es.subrange(0, i + 1),
                        name@,
                        *exposing_constructors,
                    ) == constructors_for_type_all(pre, name@, *exposing_constructors) + c);
                    assert(seq![(name@, NameKind::Type)] + (constructors_for_type_all(
                        pre,
                        name@,
                        *exposing_constructors,
                    ) + c) == (seq![(name@, NameKind::Type)] + constructors_for_type_all(
                        pre,
                        name@,
                        *exposing_constructors,
                    )) + c);
                }
                i = i + 1;
            }
            assert(es.subrange(0, exports@.len() as int) == es);
        },
        ExposedName::All => {
            let ghost es = exports_view(exports@);
            assert(names_view(out@) == names_for_all_exports(es.subrange(0, 0)));
            let mut i: usize = 0;
            while i < exports.len()
                invariant
                    i <= exports.len(),
                    es == exports_view(exports@),
                    names_view(out@) == names_for_all_exports(es.subrange(0, i as int)),
                decreases exports.len() - i,
            {
                let ghost prev = names_view(out@);
                match &exports[i] {
                    ExportedName::Value { name } => {
                        out.push(Name { name: name.clone(), kind: NameKind::Value });
                    },
                    ExportedName::RecordTypeAlias { name } => {
                        out.push(Name { name: name.clone(), kind: NameKind::Value });
                        out.push(Name { name: name.clone(), kind: NameKind::Type });
                        assert(names_view(out@) == prev + seq![
                            (name@, NameKind::Value),
                            (name@, NameKind::Type),
                        ]);
                    },
                    ExportedName::Type { name, constructors } => {
                        out.push(Name { name: name.clone(), kind: NameKind::Type });
                        let ghost mid = names_view(out@);
                        push_constructors(&mut out, constructors);
                        assert(names_view(out@) == prev + (seq![(name@, NameKind::Type)]
                            + constructor_names(strings_view(constructors@))));
                    },
                }
                proof {
                    assert(es.subrange(0, i + 1).drop_last() == es.subrange(0, i as int));
                    assert(es.subrange(0, i + 1).last() == es[i as int]);
                }
                i = i + 1;
            }
            assert(es.subrange(0, exports@.len() as int) == es);
        },
    }
    out
}

/// The constructors a type exposed with `(..)` brings along, as found in
/// the exports of its module.
#[derive(Debug, Clone, Copy)]
pub enum ExposedConstructors<'a> {
    /// A record type alias, whose constructor has its name.
    FromTypeAlias(&'a String),
    /// A custom type with these constructors.
    FromCustomType(&'a Vec<String>),
}

/// Whether the export `e` is the one whose constructors are looked up for
/// the type `t`: any record type alias, or a custom type named `t`.
pub open spec fn answers_constructor_lookup(e: SpecExportedName, t: Seq<char>) -> bool {
    match e {
        SpecExportedName::Value { .. } => false,
        SpecExportedName::RecordTypeAlias { .. } => true,
        SpecExportedName::Type { name, .. } => name == t,
    }
}

/// The constructors of the type `wanted_type` among the exports `exports`:
/// those of the first export that is a record type alias (whatever its
/// name) or a custom type of that name; an error when there is none.
pub fn constructors_of_exports<'a>(exports: &'a Vec<ExportedName>, wanted_type: &str) -> (r: Result<
    ExposedConstructors<'a>,
    Error,
>)
    ensures
        match r {
            Ok(c) => exists|i: int|
                {
                    &&& 0 <= i < exports@.len()
                    &&& answers_constructor_lookup(#[trigger] exports@[i]@, wanted_type@)
                    &&& forall|j: int|
                        0 <= j < i ==> !answers_constructor_lookup(
                            #[trigger] exports@[j]@,
                            wanted_type@,
                        )
                    &&& match exports@[i] {
                        ExportedName::RecordTypeAlias { name } => c == ExposedConstructors::<
                            'a,
                        >::FromTypeAlias(&name),
                        ExportedName::Type { constructors, .. } => c
                            == ExposedConstructors::<'a>::FromCustomType(&constructors),
                        ExportedName::Value { .. } => false,
                    }
                },
            Err(e) => {
                &&& e.0@ == "did not find type in module"@
                &&& forall|j: int|
                    0 <= j < exports@.len() ==> !answers_constructor_lookup(
                        #[trigger] exports@[j]@,
                        wanted_type@,
                    )
            },
        },
{
    let mut i: usize = 0;
    while i < exports.len()
        invariant
            i <= exports@.len(),
            forall|j: int|
                0 <= j < i ==> !answers_constructor_lookup(#[trigger] exports@[j]@, wanted_type@),
        decreases exports.len() - i,
    {
        match &exports[i] {
            ExportedName::Value { .. } => {},
            ExportedName::RecordTypeAlias { name } => {
                assert(answers_constructor_lookup(exports@[i as int]@, wanted_type@));
                return Ok(ExposedConstructors::FromTypeAlias(name));
            },
            ExportedName::Type { name, constructors } => {
                if same_text(name.as_str(), wanted_type) {
                    assert(answers_constructor_lookup(exports@[i as int]@, wanted_type@));
                    return Ok(ExposedConstructors::FromCustomType(constructors));
                }
            },
        }
        i = i + 1;
    }
    Err(mk_err("did not find type in module"))
}

/// The names the exposing list entries `list` bring into scope from a
/// module with exports `es`, entry after entry.
pub open spec fn spec_names_of_exposing_list(list: Seq<SpecExposedName>, es: Seq<SpecExportedName>) -> Seq<
    (Seq<char>, NameKind),
>
    decreases list.len(),
{
    if list.len() == 0 {
        seq![]
    } else {
        spec_names_of_exposing_list(list.drop_last(), es) + spec_names_of_exposed(list.last(), es)
    }
}

/// The mathematical form of an exposing list.
pub open spec fn exposed_view(v: Seq<ExposedName>) -> Seq<SpecExposedName> {
    v.map_values(|e: ExposedName| e@)
}

/// The names the exposing list `list` brings into scope from a module with
/// exports `exports`.
pub fn names_of_exposing_list(list: &Vec<ExposedName>, exports: &Vec<ExportedName>) -> (r: Vec<Name>)
    ensures
        names_view(r@) == spec_names_of_exposing_list(exposed_view(list@), exports_view(exports@)),
{
    let ghost l = exposed_view(list@);
    let ghost es = exports_view(exports@);
    let mut out: Vec<Name> = Vec::new();
    let mut i: usize = 0;
    assert(l.take(0) =~= Seq::<SpecExposedName>::empty());
    while i < list.len()
        invariant
            i <= list@.len(),
            l == exposed_view(list@),
            es == exports_view(exports@),
            names_view(out@) == spec_names_of_exposing_list(l.take(i as int), es),
        decreases list.len() - i,
    {
        let names = names_of_exposed(&list[i], exports);
        let ghost before = names_view(out@);
        let mut j: usize = 0;
        while j < names.len()
            invariant
                j <= names@.len(),
                names_view(out@) == before + names_view(names@).take(j as int),
            decreases names.len() - j,
        {
            let ghost prev = names_view(out@);
            out.push(names[j].copy());
            assert(names_view(out@) =~= prev.push(names@[j as int]@));
            assert(names_view(names@).take(j + 1) =~= names_view(names@).take(j as int).push(
                names@[j as int]@,
            ));
            assert(names_view(out@) =~= before + names_view(names@).take(j + 1));
            j = j + 1;
        }
        assert(names_view(names@).take(names@.len() as int) =~= names_view(names@));
        assert(l.take(i + 1).drop_last() =~= l.take(i as int));
        assert(l.take(i + 1).last() == list@[i as int]@);
        i = i + 1;
    }
    assert(l.take(list@.len() as int) =~= l);
    out
}

/// The distinct names among `a` that are not among `b`, in the order they
/// first occur in `a`.
pub open spec fn distinct_not_in(
    a: Seq<(Seq<char>, NameKind)>,
    b: Seq<(Seq<char>, NameKind)>,
) -> Seq<(Seq<char>, NameKind)>
    decreases a.len(),
{
    if a.len() == 0 {
        seq![]
    } else {
        let rest = distinct_not_in(a.drop_last(), b);
        if b.contains(a.last()) || rest.contains(a.last()) {
            rest
        } else {
            rest.push(a.last())
        }
    }
}

/// The distinct names of `a` that are not among `b`, in the order they
/// first occur in `a`.
pub fn names_not_in(a: &Vec<Name>, b: &Vec<Name>) -> (r: Vec<Name>)
    ensures
        names_view(r@) == distinct_not_in(names_view(a@), names_view(b@)),
        names_view(r@).no_duplicates(),
        names_view(r@).to_set() == names_view(a@).to_set().difference(names_view(b@).to_set()),
{
    let ghost av = names_view(a@);
    let ghost bv = names_view(b@);
    let mut out: Vec<Name> = Vec::new();
    let mut i: usize = 0;
    while i < a.len()
        invariant
            i <= a@.len(),
            av == names_view(a@),
            bv == names_view(b@),
            names_view(out@) == distinct_not_in(av.take(i as int), bv),
            names_view(out@).no_duplicates(),
            forall|x: (Seq<char>, NameKind)|
                #![trigger names_view(out@).contains(x)]
                #![trigger av.take(i as int).contains(x)]
                names_view(out@).contains(x) <==> (av.take(i as int).contains(x) && !bv.contains(
                    x,
                )),
        decreases a.len() - i,
    {
        let x = &a[i];
        let in_b = contains_name(b, x);
        let in_out = contains_name(&out, x);
        let ghost before = names_view(out@);
        if !in_b && !in_out {
            out.push(x.copy());
            assert(names_view(out@) =~= before.push(x@));
        }
        let ghost now = names_view(out@);
        let ghost pre = av.take(i as int);
        let ghost cur = av.take(i + 1);
        assert(cur =~= pre.push(x@));
        assert(cur.drop_last() =~= pre);
        assert(now == distinct_not_in(cur, bv));
        assert forall|y: (Seq<char>, NameKind)|
            now.contains(y) <==> (cur.contains(y) && !bv.contains(y)) by {
            if now.contains(y) && !before.contains(y) {
                assert(y == x@);
                assert(cur[i as int] == y);
            }
            if cur.contains(y) && !bv.contains(y) && !pre.contains(y) {
                let k = choose|k: int| 0 <= k < cur.len() && #[trigger] cur[k] == y;
                if k < i {
                    assert(pre[k] == y);
                }
                assert(y == x@);
                if in_out {
                    assert(before.contains(y));
                } else {
                    assert(now[now.len() - 1] == y);
                }
            }
            if before.contains(y) {
                let k = choose|k: int| 0 <= k < before.len() && #[trigger] before[k] == y;
                assert(now[k] == y);
                assert(pre.contains(y) && !bv.contains(y));
                let m = choose|m: int| 0 <= m < pre.len() && #[trigger] pre[m] == y;
                assert(cur[m] == y);
            }
        }
        i = i + 1;
    }
    assert(av.take(a@.len() as int) =~= av);
    assert forall|y: (Seq<char>, NameKind)|
        names_view(out@).to_set().contains(y) <==> av.to_set().difference(bv.to_set()).contains(y) by {
        assert(names_view(out@).contains(y) <==> (av.take(i as int).contains(y) && !bv.contains(y)));
    }
    assert(names_view(out@).to_set() =~= av.to_set().difference(bv.to_set()));
    out
}

/// The names an edit of an import's exposing list from `old_list` to
/// `new_list` stops exposing (to qualify where they are used) and starts
/// exposing (to unqualify), given the exports of the imported module.
pub fn exposing_list_changes(
    old_list: &Vec<ExposedName>,
    new_list: &Vec<ExposedName>,
    exports: &Vec<ExportedName>,
) -> (r: (Vec<Name>, Vec<Name>))
    ensures
        ({
            let old_names = spec_names_of_exposing_list(exposed_view(old_list@), exports_view(exports@)).to_set();
            let new_names = spec_names_of_exposing_list(exposed_view(new_list@), exports_view(exports@)).to_set();
            &&& names_view(r.0@).no_duplicates()
            &&& names_view(r.1@).no_duplicates()
            &&& names_view(r.0@).to_set() == old_names.difference(new_names)
            &&& names_view(r.1@).to_set() == new_names.difference(old_names)
        }),
{
    let old_names = names_of_exposing_list(old_list, exports);
    let new_names = names_of_exposing_list(new_list, exports);
    (names_not_in(&old_names, &new_names), names_not_in(&new_names, &old_names))
}

/// A name is never both newly qualified and newly unqualified, and an
/// exposing list that did not change qualifies and unqualifies nothing.
pub proof fn lemma_exposing_changes_disjoint(old_names: Set<(Seq<char>, NameKind)>, new_names: Set<(Seq<char>, NameKind)>)
    ensures
        old_names.difference(new_names).disjoint(new_names.difference(old_names)),
        old_names == new_names ==> old_names.difference(new_names).is_empty(),
{
    if old_names == new_names {
        assert(old_names.difference(new_names) =~= Set::<(Seq<char>, NameKind)>::empty());
    }
}

} // verus!
