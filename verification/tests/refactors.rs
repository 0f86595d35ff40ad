use elm_pair::changed_name::{changed_name, rename_kind, RenameKind};
use elm_pair::editors::{Buffer, Id};
use elm_pair::exports::ExportedName;
use elm_pair::free_names::free_names;
use elm_pair::kinds::{RECORD_PATTERN, RECORD_TYPE};
use elm_pair::module_model::{
    module_exports, Declaration, ExposedAs, ExposedEntry, Import, ModuleExposed, ModuleModel,
    Neighbour,
};
use elm_pair::qualify::removal_range;
use elm_pair::names::{ExposedName, Name, NameKind};
use elm_pair::qualify::{qualify_value, removed_exposing_list_from_import};
use elm_pair::refactor::Refactor;
use elm_pair::sized_stack::SizedStack;
use elm_pair::syntax::changed_kinds;
use std::ops::Range;

fn buffer() -> Buffer {
    Buffer { editor_id: Id(0), buffer_id: 0 }
}

fn name(text: &str, kind: NameKind) -> Name {
    Name { name: text.to_string(), kind }
}

fn occurrence(range: Range<usize>, text: &str, kind: NameKind, is_definition: bool) -> (Range<usize>, Name, bool) {
    (range, name(text, kind), is_definition)
}

fn empty_module() -> ModuleModel {
    ModuleModel {
        buffer: buffer(),
        name: "Main".to_string(),
        exposing: vec![ModuleExposed::All],
        declarations: Vec::new(),
        imports: Vec::new(),
        occurrences: Vec::new(),
        qualified: Vec::new(),
        scopes: Vec::new(),
    }
}

fn changes(refactor: &Refactor) -> Vec<(Range<usize>, String)> {
    refactor.replacements().iter().map(|(_, range, text)| (range.clone(), text.clone())).collect()
}

// module Main exposing (..)
// import Html exposing (text, div)
// main = text "hi"
fn html_module() -> ModuleModel {
    let text_entry = ExposedEntry {
        exposed: ExposedName::Value { name: "text".to_string() },
        range: 48..52,
        constructors_range: None,
        prev: Some(Neighbour { is_comma: false, range: 47..48, beyond: None }),
        next: Some(Neighbour { is_comma: true, range: 52..53, beyond: Some(54) }),
    };
    let div_entry = ExposedEntry {
        exposed: ExposedName::Value { name: "div".to_string() },
        range: 54..57,
        constructors_range: None,
        prev: Some(Neighbour { is_comma: true, range: 52..53, beyond: Some(52) }),
        next: Some(Neighbour { is_comma: false, range: 57..58, beyond: None }),
    };
    let mut module = empty_module();
    module.imports.push(Import {
        start: 26,
        end: 58,
        module_name: "Html".to_string(),
        alias: None,
        name_end: 37,
        as_clause: None,
        exposing_range: Some(38..58),
        exposing: vec![text_entry, div_entry],
    });
    module.occurrences = vec![
        occurrence(59..63, "main", NameKind::Value, true),
        occurrence(66..70, "text", NameKind::Value, false),
    ];
    module.scopes = vec![0..76];
    module
}

fn html_exports() -> Vec<ExportedName> {
    vec![
        ExportedName::Value { name: "text".to_string() },
        ExportedName::Value { name: "div".to_string() },
    ]
}

#[test]
fn qualifying_a_value_takes_it_out_of_the_exposing_list_and_qualifies_its_uses() {
    let module = html_module();
    let mut refactor = Refactor::new("added module qualifier");
    let result = qualify_value(
        &module,
        &html_exports(),
        &mut refactor,
        &Vec::new(),
        "Html",
        &name("text", NameKind::Value),
        false,
    );
    assert!(result.is_ok());
    assert_eq!(changes(&refactor), vec![(48..54, String::new()), (66..66, "Html.".to_string())]);
}

#[test]
fn qualifying_an_operator_fails() {
    let mut module = html_module();
    module.imports[0].exposing[1].exposed = ExposedName::Operator { name: "|>".to_string() };
    let mut refactor = Refactor::new("added module qualifier");
    let result = qualify_value(
        &module,
        &html_exports(),
        &mut refactor,
        &Vec::new(),
        "Html",
        &name("|>", NameKind::Operator),
        false,
    );
    assert_eq!(result.unwrap_err().0, "cannot qualify operator, Elm doesn't allow it!");
}

#[test]
fn qualifying_with_an_unknown_qualifier_fails() {
    let module = html_module();
    let mut refactor = Refactor::new("added module qualifier");
    let result = qualify_value(
        &module,
        &html_exports(),
        &mut refactor,
        &Vec::new(),
        "Svg",
        &name("text", NameKind::Value),
        false,
    );
    assert!(result.is_err());
}

#[test]
fn qualifying_from_an_expose_all_import_can_spell_out_the_names_still_in_use() {
    let mut module = html_module();
    module.imports[0].exposing = vec![ExposedEntry {
        exposed: ExposedName::All,
        range: 48..50,
        constructors_range: None,
        prev: None,
        next: None,
    }];
    module.occurrences.push(occurrence(80..83, "div", NameKind::Value, false));
    let mut refactor = Refactor::new("freed name");
    let result = qualify_value(
        &module,
        &html_exports(),
        &mut refactor,
        &Vec::new(),
        "Html",
        &name("text", NameKind::Value),
        true,
    );
    assert!(result.is_ok());
    assert_eq!(changes(&refactor), vec![(48..50, "div".to_string()), (66..66, "Html.".to_string())]);
}

#[test]
fn removal_takes_the_comma_after_an_entry_or_else_the_one_before() {
    let module = html_module();
    assert_eq!(removal_range(&module.imports[0].exposing[0]), 48..54);
    assert_eq!(removal_range(&module.imports[0].exposing[1]), 52..57);
}

#[test]
fn module_exports_follow_the_exposing_list() {
    let mut module = empty_module();
    module.declarations = vec![
        Declaration::Value { name: "foo".to_string() },
        Declaration::Value { name: "bar".to_string() },
        Declaration::CustomType {
            name: "T".to_string(),
            constructors: vec!["A".to_string(), "B".to_string()],
        },
        Declaration::TypeAlias { name: "R".to_string(), is_record: true },
    ];
    module.exposing = vec![
        ModuleExposed::Named { name: "foo".to_string(), exposed_as: ExposedAs::Value },
        ModuleExposed::Named { name: "T".to_string(), exposed_as: ExposedAs::TypeWithConstructors },
    ];
    assert_eq!(
        module_exports(&module),
        vec![
            ExportedName::Value { name: "foo".to_string() },
            ExportedName::Type { name: "T".to_string(), constructors: vec!["A".to_string(), "B".to_string()] },
        ]
    );
    module.exposing = vec![ModuleExposed::All];
    assert_eq!(
        module_exports(&module),
        vec![
            ExportedName::Value { name: "foo".to_string() },
            ExportedName::Value { name: "bar".to_string() },
            ExportedName::Type { name: "T".to_string(), constructors: vec!["A".to_string(), "B".to_string()] },
            ExportedName::RecordTypeAlias { name: "R".to_string() },
        ]
    );
}

// module Main exposing (..)
// f y = x + y      -- the argument `x` was just renamed to `y`
fn renamed_argument_module() -> ModuleModel {
    let mut module = empty_module();
    module.declarations = vec![Declaration::Value { name: "f".to_string() }];
    module.occurrences = vec![
        occurrence(26..27, "f", NameKind::Value, true),
        occurrence(28..29, "y", NameKind::Value, true),
        occurrence(32..33, "x", NameKind::Value, false),
        occurrence(36..37, "y", NameKind::Value, false),
    ];
    module.scopes = vec![0..38, 28..38];
    module
}

#[test]
fn renaming_an_argument_renames_its_uses_and_frees_the_new_name() {
    let module = renamed_argument_module();
    let mut refactor = Refactor::new("changed name");
    let result = changed_name(
        &module,
        &Vec::new(),
        &Vec::new(),
        &Vec::new(),
        &Vec::new(),
        &name("x", NameKind::Value),
        &name("y", NameKind::Value),
        &(28..29),
        RenameKind::AnyOther,
        &mut refactor,
    );
    assert!(result.is_ok());
    assert_eq!(changes(&refactor), vec![(36..37, "y2".to_string()), (32..33, "y".to_string())]);
}

#[test]
fn renaming_asks_for_dependent_files_that_are_not_open() {
    let module = renamed_argument_module();
    let mut refactor = Refactor::new("changed name");
    let result = changed_name(
        &module,
        &Vec::new(),
        &Vec::new(),
        &vec!["src/A.elm".to_string(), "src/B.elm".to_string()],
        &vec!["src/A.elm".to_string()],
        &name("x", NameKind::Value),
        &name("y", NameKind::Value),
        &(28..29),
        RenameKind::AnyOther,
        &mut refactor,
    );
    assert!(result.is_ok());
    assert!(refactor.replacements().is_empty());
    assert_eq!(refactor.files(), &vec!["src/B.elm".to_string()]);
}

#[test]
fn renaming_to_an_empty_name_or_a_record_field_does_nothing() {
    let module = renamed_argument_module();
    let mut refactor = Refactor::new("changed name");
    let empty = changed_name(
        &module,
        &Vec::new(),
        &Vec::new(),
        &Vec::new(),
        &Vec::new(),
        &name("x", NameKind::Value),
        &name("", NameKind::Value),
        &(28..29),
        RenameKind::AnyOther,
        &mut refactor,
    );
    let field = changed_name(
        &module,
        &Vec::new(),
        &Vec::new(),
        &Vec::new(),
        &Vec::new(),
        &name("x", NameKind::Value),
        &name("y", NameKind::Value),
        &(28..29),
        RenameKind::RecordFieldPattern,
        &mut refactor,
    );
    assert!(empty.is_ok() && field.is_ok());
    assert!(refactor.replacements().is_empty());
}

#[test]
fn renaming_outside_every_scope_fails() {
    let module = renamed_argument_module();
    let mut refactor = Refactor::new("changed name");
    let result = changed_name(
        &module,
        &Vec::new(),
        &Vec::new(),
        &Vec::new(),
        &Vec::new(),
        &name("x", NameKind::Value),
        &name("y", NameKind::Value),
        &(100..101),
        RenameKind::AnyOther,
        &mut refactor,
    );
    assert!(result.is_err());
}

#[test]
fn renaming_an_exported_value_renames_its_uses_in_importing_modules() {
    // module Main exposing (..)
    // g = 1        -- `f` was just renamed to `g`
    let mut module = empty_module();
    module.declarations = vec![Declaration::Value { name: "f".to_string() }];
    module.occurrences = vec![occurrence(26..27, "g", NameKind::Value, true)];
    module.scopes = vec![0..31];
    // module Other exposing (..)
    // import Main exposing (f)
    // h = Main.f + f
    let mut other = empty_module();
    other.buffer = Buffer { editor_id: Id(0), buffer_id: 1 };
    other.name = "Other".to_string();
    other.imports = vec![Import {
        start: 27,
        end: 51,
        module_name: "Main".to_string(),
        alias: None,
        name_end: 38,
        as_clause: None,
        exposing_range: Some(39..51),
        exposing: vec![ExposedEntry {
            exposed: ExposedName::Value { name: "f".to_string() },
            range: 49..50,
            constructors_range: None,
            prev: None,
            next: None,
        }],
    }];
    other.qualified = vec![(56..62, "Main".to_string(), name("f", NameKind::Value))];
    other.occurrences = vec![
        occurrence(52..53, "h", NameKind::Value, true),
        occurrence(65..66, "f", NameKind::Value, false),
    ];
    other.scopes = vec![0..67];
    let mut refactor = Refactor::new("changed name");
    let result = changed_name(
        &module,
        &vec![other],
        &Vec::new(),
        &Vec::new(),
        &Vec::new(),
        &name("f", NameKind::Value),
        &name("g", NameKind::Value),
        &(26..27),
        RenameKind::AnyOther,
        &mut refactor,
    );
    assert!(result.is_ok());
    let other_buffer = Buffer { editor_id: Id(0), buffer_id: 1 };
    let all: Vec<(Buffer, Range<usize>, String)> = refactor.replacements().clone();
    assert_eq!(
        all,
        vec![
            (other_buffer, 56..62, "Main.g".to_string()),
            (other_buffer, 65..66, "g".to_string()),
        ]
    );
}

#[test]
fn freeing_an_imported_name_qualifies_it() {
    let module = html_module();
    let known = vec![("Html".to_string(), html_exports())];
    let mut refactor = Refactor::new("freed name");
    let result = free_names(
        &module,
        &known,
        &mut refactor,
        &vec![name("text", NameKind::Value)],
        &Vec::new(),
        &Vec::new(),
    );
    assert!(result.is_ok());
    assert_eq!(changes(&refactor), vec![(48..54, String::new()), (66..66, "Html.".to_string())]);
}

#[test]
fn rename_kind_follows_the_nodes_around_the_definition() {
    assert_eq!(rename_kind(Some(RECORD_PATTERN), 1, None), RenameKind::RecordFieldPattern);
    assert_eq!(rename_kind(Some(1), 1, Some(RECORD_TYPE)), RenameKind::RecordTypeAlias);
    assert_eq!(rename_kind(None, 1, None), RenameKind::AnyOther);
}

#[test]
fn changed_kinds_finds_nothing_in_unchanged_code_and_something_in_changed_code() {
    let old = "module Main exposing (..)\n\n\nx =\n    1\n";
    let new = "module Main exposing (..)\n\n\nx =\n    \"one\"\n";
    assert_eq!(changed_kinds(old, old), None);
    let (before, after, _) = changed_kinds(old, new).expect("a change");
    assert!(!before.is_empty() || !after.is_empty());
    assert_ne!(before, after);
}

#[test]
fn an_empty_sized_stack_reports_it() {
    let mut stack = SizedStack::with_capacity(1);
    assert!(stack.is_empty());
    stack.push(5);
    assert!(!stack.is_empty());
}

#[test]
fn removing_an_exposing_list_qualifies_the_names_it_exposed() {
    let module = html_module();
    let mut refactor = Refactor::new("removed exposing list");
    removed_exposing_list_from_import(&module, &module.imports[0], &html_exports(), &mut refactor);
    assert_eq!(changes(&refactor), vec![(66..66, "Html.".to_string())]);
}

fn html_import(names: &[&str]) -> Import {
    Import {
        start: 26,
        end: 58,
        module_name: "Html".to_string(),
        alias: None,
        name_end: 37,
        as_clause: None,
        exposing_range: Some(38..58),
        exposing: names
            .iter()
            .map(|n| ExposedEntry {
                exposed: ExposedName::Value { name: n.to_string() },
                range: 0..0,
                constructors_range: None,
                prev: None,
                next: None,
            })
            .collect(),
    }
}

#[test]
fn a_name_joining_the_exposing_list_loses_its_qualifier() {
    let mut module = empty_module();
    module.occurrences = vec![occurrence(59..63, "main", NameKind::Value, true)];
    module.qualified = vec![(66..74, "Html".to_string(), name("div", NameKind::Value))];
    module.scopes = vec![0..80];
    let mut refactor = Refactor::new("changed exposing list");
    let result = elm_pair::import_edits::changed_values_in_exposing_list(
        &module,
        &Vec::new(),
        &html_import(&["text"]),
        &html_import(&["text", "div"]),
        &html_exports(),
        &mut refactor,
    );
    assert!(result.is_ok());
    assert_eq!(changes(&refactor), vec![(66..71, String::new())]);
}

#[test]
fn a_name_leaving_the_exposing_list_gets_qualified() {
    let mut module = empty_module();
    module.occurrences = vec![
        occurrence(59..63, "main", NameKind::Value, true),
        occurrence(66..69, "div", NameKind::Value, false),
        occurrence(70..74, "text", NameKind::Value, false),
    ];
    module.scopes = vec![0..80];
    let mut refactor = Refactor::new("changed exposing list");
    let result = elm_pair::import_edits::changed_values_in_exposing_list(
        &module,
        &Vec::new(),
        &html_import(&["text", "div"]),
        &html_import(&["text"]),
        &html_exports(),
        &mut refactor,
    );
    assert!(result.is_ok());
    assert_eq!(changes(&refactor), vec![(66..66, "Html.".to_string())]);
}

#[test]
fn responding_to_a_changed_as_clause_requalifies_uses() {
    let mut module = empty_module();
    module.qualified = vec![
        (66..74, "Html".to_string(), name("div", NameKind::Value)),
        (80..87, "Svg".to_string(), name("svg", NameKind::Value)),
    ];
    let old_import = html_import(&[]);
    let mut new_import = html_import(&[]);
    new_import.alias = Some("H".to_string());
    let facts = elm_pair::respond::ChangeFacts::AsClause { old_import, new_import };
    let refactor = elm_pair::respond::respond_to_change(
        &facts,
        &module,
        &Vec::new(),
        &Vec::new(),
        &Vec::new(),
        &Vec::new(),
        &Vec::new(),
    )
    .expect("a refactor");
    assert_eq!(refactor.description, "changed as-clause of import");
    assert_eq!(changes(&refactor), vec![(66..71, "H.".to_string())]);
}

#[test]
fn responding_to_an_added_qualifier_qualifies_the_name() {
    let module = html_module();
    let facts = elm_pair::respond::ChangeFacts::AddedQualifier {
        old_name: name("text", NameKind::Value),
        qualifier: "Html".to_string(),
        name: name("text", NameKind::Value),
    };
    let refactor = elm_pair::respond::respond_to_change(
        &facts,
        &module,
        &Vec::new(),
        &Vec::new(),
        &html_exports(),
        &Vec::new(),
        &Vec::new(),
    )
    .expect("a refactor");
    assert_eq!(refactor.description, "added module qualifier");
    assert_eq!(changes(&refactor), vec![(48..54, String::new()), (66..66, "Html.".to_string())]);
}

fn maybe_import() -> Import {
    Import {
        start: 26,
        end: 58,
        module_name: "Maybe".to_string(),
        alias: None,
        name_end: 38,
        as_clause: None,
        exposing_range: None,
        exposing: Vec::new(),
    }
}

fn maybe_exports() -> Vec<ExportedName> {
    vec![ExportedName::Type {
        name: "Maybe".to_string(),
        constructors: vec!["Just".to_string(), "Nothing".to_string()],
    }]
}

#[test]
fn constructors_that_stop_being_exposed_get_qualified() {
    let mut module = empty_module();
    module.occurrences = vec![occurrence(70..74, "Just", NameKind::Constructor, false)];
    let mut refactor = Refactor::new("stopped exposing constructors in import");
    let result = elm_pair::import_edits::removed_constructors_from_exposing_list(
        &module,
        &maybe_import(),
        &maybe_exports(),
        "Maybe",
        &mut refactor,
    );
    assert!(result.is_ok());
    assert_eq!(changes(&refactor), vec![(70..70, "Maybe.".to_string())]);
    let missing = elm_pair::import_edits::removed_constructors_from_exposing_list(
        &module,
        &maybe_import(),
        &Vec::new(),
        "Maybe",
        &mut refactor,
    );
    assert!(missing.is_err());
}

#[test]
fn constructors_that_become_exposed_lose_their_qualifier() {
    let mut module = empty_module();
    module.qualified = vec![(70..80, "Maybe".to_string(), name("Just", NameKind::Constructor))];
    module.scopes = vec![0..90];
    let mut refactor = Refactor::new("exposed constructors in import");
    let result = elm_pair::import_edits::added_constructors_to_exposing_list(
        &module,
        &Vec::new(),
        &maybe_import(),
        &maybe_exports(),
        "Maybe",
        &mut refactor,
    );
    assert!(result.is_ok());
    assert_eq!(changes(&refactor), vec![(70..76, String::new())]);
}

#[test]
fn responding_to_a_removed_qualifier_exposes_the_name_and_unqualifies_its_uses() {
    let mut module = empty_module();
    module.imports.push(html_import(&["div"]));
    module.imports[0].exposing[0].range = 48..51;
    module.occurrences = vec![
        occurrence(59..63, "main", NameKind::Value, true),
        occurrence(66..70, "text", NameKind::Value, false),
    ];
    module.qualified = vec![(80..89, "Html".to_string(), name("text", NameKind::Value))];
    module.scopes = vec![0..95];
    let facts = elm_pair::respond::ChangeFacts::RemovedQualifier {
        qualifier: "Html".to_string(),
        old_name: name("text", NameKind::Value),
        new_name: name("text", NameKind::Value),
        node: 66..70,
    };
    let refactor = elm_pair::respond::respond_to_change(
        &facts,
        &module,
        &Vec::new(),
        &Vec::new(),
        &html_exports(),
        &Vec::new(),
        &Vec::new(),
    )
    .expect("a refactor");
    assert_eq!(refactor.description, "removed module qualifier");
    assert_eq!(changes(&refactor), vec![(51..51, ", text".to_string()), (80..85, String::new())]);
}

#[test]
fn responding_to_a_changed_qualifier_adds_an_as_clause() {
    let mut module = empty_module();
    module.imports.push(html_import(&[]));
    module.qualified = vec![(66..74, "Html".to_string(), name("div", NameKind::Value))];
    let facts = elm_pair::respond::ChangeFacts::ChangedQualifier {
        old_qualifier: "Html".to_string(),
        new_qualifier: "H".to_string(),
    };
    let refactor = elm_pair::respond::respond_to_change(
        &facts,
        &module,
        &Vec::new(),
        &Vec::new(),
        &Vec::new(),
        &Vec::new(),
        &Vec::new(),
    )
    .expect("a refactor");
    assert_eq!(changes(&refactor), vec![(37..37, " as H".to_string()), (66..71, "H.".to_string())]);
}

#[test]
fn responding_to_a_qualified_name_of_an_unimported_module_adds_its_import() {
    let module = empty_module();
    let facts = elm_pair::respond::ChangeFacts::Other {
        nodes: vec![(elm_pair::kinds::MODULE_DECLARATION, 0), (1, 27)],
        file_start: 0,
        imports: Vec::new(),
        references: vec![("Html".to_string(), "div".to_string()), ("List".to_string(), "map".to_string())],
    };
    let known = vec![("Html".to_string(), html_exports())];
    let refactor = elm_pair::respond::respond_to_change(
        &facts,
        &module,
        &Vec::new(),
        &known,
        &Vec::new(),
        &Vec::new(),
        &Vec::new(),
    )
    .expect("a refactor");
    assert_eq!(changes(&refactor), vec![(27..27, "import Html\n".to_string())]);
}

#[test]
fn module_exports_are_read_from_the_code() {
    let code = "module Main exposing (foo, T(..), R)\n\n\nfoo =\n    1\n\n\nbar =\n    2\n\n\ntype T\n    = A\n    | B Int\n\n\ntype alias R =\n    { x : Int }\n";
    assert_eq!(
        elm_pair::module_reader::module_exports_of(code).unwrap(),
        vec![
            ExportedName::Value { name: "foo".to_string() },
            ExportedName::Type { name: "T".to_string(), constructors: vec!["A".to_string(), "B".to_string()] },
            ExportedName::RecordTypeAlias { name: "R".to_string() },
        ]
    );
    let all = code.replacen("(foo, T(..), R)", "(..)", 1);
    assert_eq!(
        elm_pair::module_reader::module_exports_of(&all).unwrap(),
        vec![
            ExportedName::Value { name: "foo".to_string() },
            ExportedName::Value { name: "bar".to_string() },
            ExportedName::Type { name: "T".to_string(), constructors: vec!["A".to_string(), "B".to_string()] },
            ExportedName::RecordTypeAlias { name: "R".to_string() },
        ]
    );
    let opaque = code.replacen("(foo, T(..), R)", "(T)", 1);
    assert_eq!(
        elm_pair::module_reader::module_exports_of(&opaque).unwrap(),
        vec![ExportedName::Type { name: "T".to_string(), constructors: Vec::new() }]
    );
}

#[test]
fn imports_are_read_from_the_code() {
    let code = "module Main exposing (..)\n\nimport Html exposing (Html, text, div)\nimport Maybe.Extra as ME\nimport Set exposing (Set(..))\n\n\nmain =\n    text \"hi\"\n";
    let imports = elm_pair::module_reader::read_module_imports(code).unwrap();
    assert_eq!(imports.len(), 3);
    let html = &imports[0];
    assert_eq!(html.module_name, "Html");
    assert_eq!(html.alias, None);
    assert_eq!(&code[html.start..html.name_end], "import Html");
    assert_eq!(&code[html.exposing_range.clone().unwrap()], "exposing (Html, text, div)");
    assert_eq!(html.exposing.len(), 3);
    let text = &html.exposing[1];
    assert_eq!(text.exposed, ExposedName::Value { name: "text".to_string() });
    assert_eq!(&code[text.range.clone()], "text");
    assert_eq!(&code[removal_range(text)], "text, ");
    assert_eq!(&code[removal_range(&html.exposing[2])], ", div");
    let extra = &imports[1];
    assert_eq!(extra.module_name, "Maybe.Extra");
    assert_eq!(extra.alias, Some("ME".to_string()));
    let (clause, alias) = extra.as_clause.clone().unwrap();
    assert_eq!(&code[clause], "as ME");
    assert_eq!(&code[alias], "ME");
    assert!(extra.exposing.is_empty());
    let set = &imports[2];
    assert_eq!(
        set.exposing[0].exposed,
        ExposedName::Type { name: "Set".to_string(), exposing_constructors: true }
    );
    assert_eq!(&code[set.exposing[0].constructors_range.clone().unwrap()], "(..)");
}
