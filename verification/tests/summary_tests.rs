use pyscription::parser::{GrammarRule, ParsedItem};
use pyscription::summary::{
    build_llm_request, summary_instructions, MAX_LLM_MODULES, MAX_LLM_SYMBOLS_PER_KIND,
};

fn make_item(rule: GrammarRule, module: &str, name: &str) -> ParsedItem {
    ParsedItem {
        rule,
        name: Some(name.to_string()),
        signature: Some(match rule {
            GrammarRule::FunctionDef => format!("def {name}()"),
            GrammarRule::ClassDef => format!("class {name}:"),
            _ => name.to_string(),
        }),
        docstring: None,
        content: name.to_string(),
        line: 1,
        column: 1,
        module: Some(module.to_string()),
        source: Some(format!("{module}.py")),
    }
}

#[test]
fn llm_request_is_limited_and_warns_when_truncated() {
    let mut items = Vec::new();
    for idx in 0..(MAX_LLM_MODULES + 2) {
        let module = format!("pkg{idx}");
        items.push(make_item(GrammarRule::FunctionDef, &module, "foo"));
        items.push(make_item(GrammarRule::ClassDef, &module, "Widget"));
    }
    let (request, warning) = build_llm_request(&items);
    assert!(request.modules.len() <= MAX_LLM_MODULES);
    assert!(warning.is_some());
}

#[test]
fn llm_request_without_truncation_has_no_warning() {
    let items = vec![
        make_item(GrammarRule::FunctionDef, "pkg.core", "foo"),
        make_item(GrammarRule::ClassDef, "pkg.core", "Widget"),
    ];
    let (_, warning) = build_llm_request(&items);
    assert!(warning.is_none());
}

#[test]
fn llm_request_holds_totals_and_snapshots() {
    let mut items = vec![
        make_item(GrammarRule::FunctionDef, "pkg.core", "foo"),
        make_item(GrammarRule::ClassDef, "pkg.core", "Widget"),
        make_item(GrammarRule::Docstring, "pkg.core", "doc"),
        make_item(GrammarRule::Import, "pkg.util", "import os"),
    ];
    items[0].line = 10;
    let (payload, warning) = build_llm_request(&items);
    assert!(warning.is_none());
    assert!(payload.notes.is_none());
    assert_eq!(payload.summary.module_count, 2);
    assert_eq!(payload.summary.functions, 1);
    assert_eq!(payload.summary.classes, 1);
    assert_eq!(payload.summary.docstrings, 1);
    assert_eq!(payload.summary.imports, 1);
    assert_eq!(payload.modules.len(), 2);
    let core = &payload.modules[0];
    assert_eq!(core.module, "pkg.core");
    assert_eq!(core.functions.len(), 1);
    assert_eq!(core.functions[0].name, "foo");
    assert_eq!(core.functions[0].signature, "def foo()");
    assert_eq!(core.functions[0].location, "pkg.core.py:10");
    assert_eq!(core.docstrings, 1);
    assert_eq!(payload.modules[1].imports, 1);
    assert_eq!(payload.docstring_coverage.len(), 2);
    assert_eq!(payload.docstring_coverage[0].module, "pkg.core");
    assert_eq!(payload.docstring_coverage[0].functions, 1);
    assert_eq!(payload.docstring_coverage[0].classes, 1);
    assert_eq!(payload.docstring_coverage[0].docstrings, 1);
}

#[test]
fn llm_request_notes_read_exactly() {
    let mut items = Vec::new();
    for idx in 0..(MAX_LLM_SYMBOLS_PER_KIND + 1) {
        items.push(make_item(GrammarRule::FunctionDef, "m00", &format!("f{idx:02}")));
    }
    for idx in 0..(MAX_LLM_SYMBOLS_PER_KIND + 3) {
        items.push(make_item(GrammarRule::ClassDef, "m00", &format!("C{idx:02}")));
    }
    for idx in 1..(MAX_LLM_MODULES + 2) {
        items.push(make_item(GrammarRule::Import, &format!("m{idx:02}"), "import os"));
    }
    let (payload, warning) = build_llm_request(&items);
    let expected = "Module m00: only the first 15 function(s) were provided out of 16. Module m00: only the first 15 class(es) were provided out of 18. Only the first 15 module(s) were shared with Gemini out of 17.";
    assert_eq!(warning.as_deref(), Some(expected));
    assert_eq!(payload.notes.as_deref(), Some(expected));
    assert_eq!(payload.modules.len(), 15);
    assert_eq!(payload.docstring_coverage.len(), 15);
    assert_eq!(payload.modules[0].functions.len(), 15);
    assert_eq!(payload.modules[0].classes.len(), 15);
    assert_eq!(payload.modules[0].functions[14].name, "f14");
    assert_eq!(payload.summary.module_count, 17);
    assert_eq!(payload.summary.functions, 16);
    assert_eq!(payload.summary.classes, 18);
    assert_eq!(payload.modules[14].module, "m14");
}

#[test]
fn summary_instructions_ask_for_a_short_introduction() {
    let text = summary_instructions();
    assert!(text.starts_with("You are helping to draft a README introduction. Use the JSON data"));
    assert!(text.ends_with("If documentation looks sparse, mention it."));
}
