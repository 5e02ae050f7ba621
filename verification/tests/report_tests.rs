use pyscription::parser::{GrammarRule, ParsedItem};
use pyscription::report::{aggregate_modules, module_key, SymbolEntry};

fn make_item(rule: GrammarRule, module: &str, name: &str, signature: &str) -> ParsedItem {
    ParsedItem {
        rule,
        name: if name.is_empty() {
            None
        } else {
            Some(name.to_string())
        },
        signature: if signature.is_empty() {
            None
        } else {
            Some(signature.to_string())
        },
        docstring: None,
        content: signature.to_string(),
        line: 1,
        column: 1,
        module: Some(module.to_string()),
        source: Some(format!("{module}.py")),
    }
}

fn names(entries: &[SymbolEntry]) -> Vec<&str> {
    entries.iter().map(|e| e.name.as_str()).collect()
}

#[test]
fn aggregator_groups_items() {
    let items = vec![
        make_item(GrammarRule::FunctionDef, "pkg", "foo", "def foo()"),
        make_item(GrammarRule::ClassDef, "pkg", "Bar", "class Bar"),
        make_item(GrammarRule::Import, "pkg", "", "import os"),
    ];
    let modules = aggregate_modules(&items);
    let pkg = modules.get("pkg").expect("pkg module missing");
    assert_eq!(pkg.functions.len(), 1);
    assert_eq!(pkg.classes.len(), 1);
    assert_eq!(pkg.imports, 1);
}

#[test]
fn aggregator_orders_modules_by_key() {
    let items = vec![
        make_item(GrammarRule::FunctionDef, "zeta", "a", "def a()"),
        make_item(GrammarRule::FunctionDef, "alpha", "b", "def b()"),
        make_item(GrammarRule::FunctionDef, "Beta", "c", "def c()"),
        make_item(GrammarRule::Docstring, "alpha", "", "\"\"\"doc\"\"\""),
    ];
    let modules = aggregate_modules(&items);
    let keys: Vec<&str> = modules.entries.iter().map(|e| e.name.as_str()).collect();
    assert_eq!(keys, vec!["Beta", "alpha", "zeta"]);
    assert_eq!(modules.len(), 3);
    assert!(!modules.is_empty());
    assert!(modules.get("gamma").is_none());
    assert_eq!(modules.get("alpha").unwrap().docstrings, 1);
}

#[test]
fn aggregator_sorts_names_without_regard_to_case() {
    let items = vec![
        make_item(GrammarRule::FunctionDef, "pkg", "delta", "def delta()"),
        make_item(GrammarRule::FunctionDef, "pkg", "Beta", "def Beta()"),
        make_item(GrammarRule::FunctionDef, "pkg", "alpha", "def alpha()"),
        make_item(GrammarRule::FunctionDef, "pkg", "Charlie", "def Charlie()"),
    ];
    let modules = aggregate_modules(&items);
    let pkg = modules.get("pkg").unwrap();
    assert_eq!(names(&pkg.functions), vec!["alpha", "Beta", "Charlie", "delta"]);
}

#[test]
fn aggregator_keeps_encounter_order_among_equal_names() {
    let mut first = make_item(GrammarRule::ClassDef, "pkg", "Widget", "class Widget:");
    first.line = 10;
    let mut second = make_item(GrammarRule::ClassDef, "pkg", "WIDGET", "class WIDGET:");
    second.line = 20;
    let mut third = make_item(GrammarRule::ClassDef, "pkg", "widget", "class widget:");
    third.line = 30;
    let early = make_item(GrammarRule::ClassDef, "pkg", "Axis", "class Axis:");
    let items = vec![first, second, early, third];
    let modules = aggregate_modules(&items);
    let pkg = modules.get("pkg").unwrap();
    assert_eq!(names(&pkg.classes), vec!["Axis", "Widget", "WIDGET", "widget"]);
    let lines: Vec<usize> = pkg.classes.iter().map(|e| e.line).collect();
    assert_eq!(lines, vec![1, 10, 20, 30]);
}

#[test]
fn aggregator_accounts_for_every_item_once() {
    let mut items = Vec::new();
    for module in ["a", "b", "c"] {
        items.push(make_item(GrammarRule::FunctionDef, module, "f", "def f()"));
        items.push(make_item(GrammarRule::FunctionDef, module, "g", "def g()"));
        items.push(make_item(GrammarRule::ClassDef, module, "K", "class K:"));
        items.push(make_item(GrammarRule::Docstring, module, "", "\"\"\"d\"\"\""));
        items.push(make_item(GrammarRule::Import, module, "", "import os"));
    }
    let modules = aggregate_modules(&items);
    let total: usize = modules
        .entries
        .iter()
        .map(|e| {
            e.report.functions.len() + e.report.classes.len() + e.report.docstrings + e.report.imports
        })
        .sum();
    assert_eq!(total, items.len());
    assert_eq!(modules.len(), 3);
}

#[test]
fn aggregator_of_nothing_is_empty() {
    let modules = aggregate_modules(&[]);
    assert!(modules.is_empty());
}

#[test]
fn module_key_prefers_module_then_source() {
    let mut item = make_item(GrammarRule::Import, "pkg", "", "import os");
    assert_eq!(module_key(&item), "pkg");
    item.module = None;
    assert_eq!(module_key(&item), "pkg.py");
    item.source = None;
    assert_eq!(module_key(&item), "<unknown>");
}

#[test]
fn symbol_entry_falls_back_to_marker_and_content() {
    let mut item = make_item(GrammarRule::FunctionDef, "pkg", "", "");
    item.content = "def ():".to_string();
    item.line = 7;
    let entry = SymbolEntry::from_item(&item);
    assert_eq!(entry.name, "<anonymous>");
    assert_eq!(entry.signature, "def ():");
    assert_eq!(entry.line, 7);
    assert_eq!(entry.source.as_deref(), Some("pkg.py"));
}
