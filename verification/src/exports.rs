//! The names an Elm module makes available to modules importing it.
use vstd::prelude::*;

verus! {

/// A name exported by an Elm module.
#[derive(Debug, Clone, PartialEq, Eq, Hash, PartialOrd, Ord)]
pub enum ExportedName {
    Value { name: String },
    Type { name: String, constructors: Vec<String> },
    /// A record type alias, usable both as a type and as a constructor.
    RecordTypeAlias { name: String },
}

/// The mathematical form of [`ExportedName`].
pub enum SpecExportedName {
    Value { name: Seq<char> },
    Type { name: Seq<char>, constructors: Seq<Seq<char>> },
    RecordTypeAlias { name: Seq<char> },
}

/// The texts of a list of strings.
pub open spec fn strings_view(v: Seq<String>) -> Seq<Seq<char>> {
    v.map_values(|s: String| s@)
}

impl View for ExportedName {
    type V = SpecExportedName;

    open spec fn view(&self) -> SpecExportedName {
        match self {
            ExportedName::Value { name } => SpecExportedName::Value { name: name@ },
            ExportedName::Type { name, constructors } => SpecExportedName::Type {
                name: name@,
                constructors: strings_view(constructors@),
            },
            ExportedName::RecordTypeAlias { name } => SpecExportedName::RecordTypeAlias {
                name: name@,
            },
        }
    }
}

} // verus!

verus! {

/// The mathematical form of a list of exports.
pub open spec fn exports_view(v: Seq<ExportedName>) -> Seq<SpecExportedName> {
    v.map_values(|e: ExportedName| e@)
}

/// The mathematical form of a list of exports paired with module names.
pub open spec fn module_exports_view(v: Seq<(String, ExportedName)>) -> Seq<
    (Seq<char>, SpecExportedName),
> {
    v.map_values(|e: (String, ExportedName)| (e.0@, e.1@))
}

} // verus!

verus! {

impl ExportedName {
    /// A copy of this export.
    pub fn clone_export(&self) -> (r: ExportedName)
        ensures
            r@ == self@,
    {
        match self {
            ExportedName::Value { name } => ExportedName::Value { name: name.clone() },
            ExportedName::Type { name, constructors } => {
                let mut cs: Vec<String> = Vec::new();
                let mut i: usize = 0;
                while i < constructors.len()
                    invariant
                        i <= constructors.len(),
                        strings_view(cs@) == strings_view(constructors@).subrange(0, i as int),
                    decreases constructors.len() - i,
                {
                    let ghost old = cs@;
                    cs.push(constructors[i].clone());
                    assert(strings_view(cs@) == strings_view(old) + seq![constructors@[i as int]@]);
                    assert(strings_view(constructors@).subrange(0, i + 1) == strings_view(
                        constructors@,
                    ).subrange(0, i as int) + seq![constructors@[i as int]@]);
                    i = i + 1;
                }
                assert(strings_view(constructors@).subrange(0, constructors@.len() as int)
                    == strings_view(constructors@));
                ExportedName::Type { name: name.clone(), constructors: cs }
            },
            ExportedName::RecordTypeAlias { name } => ExportedName::RecordTypeAlias {
                name: name.clone(),
            },
        }
    }
}

} // verus!
