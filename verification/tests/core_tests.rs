//! Behavioral tests of the library: position mapping, document and tree
//! stores, completion composition and rendering, diagnostic translation,
//! and the end-to-end change/query flow.

use huff_ls::ast::{Ast, MacroDef, Span, Statement};
use huff_ls::ast::inside_macro_context;
use huff_ls::completion::{completion, HuffCompletionItem, LabelMap};
use huff_ls::diagnostics::{translate, Diagnostic, ParseError};
use huff_ls::position::{LineIndex, Position};
use huff_ls::render::{render_completion_list, render_item, usize_to_decimal, EntryKind};
use huff_ls::server::{OnChangeAction, ServerState};
use huff_ls::store::DocumentStore;

fn span(start: usize, end: usize) -> Span {
    Span { start, end }
}

fn stmt(spans: Vec<Span>) -> Statement {
    Statement { spans }
}

fn mac(name: &str, params: Vec<&str>, statements: Vec<Statement>) -> MacroDef {
    MacroDef {
        name: name.to_string(),
        parameters: params.into_iter().map(|p| p.to_string()).collect(),
        statements,
    }
}

fn one_macro_ast(name: &str, params: Vec<&str>, first: Span, last: Span) -> Ast {
    Ast { macros: vec![mac(name, params, vec![stmt(vec![first]), stmt(vec![last])])] }
}

const BUILTINS: [&str; 8] = [
    "__tablesize",
    "__codesize",
    "__tablestart",
    "__FUNC_SIG",
    "__EVENT_HASH",
    "__ERROR",
    "__RIGHTPAD",
    "__CODECOPY_DYN_ARG",
];

#[test]
fn decimal_rendering() {
    assert_eq!(usize_to_decimal(0).as_str(), "0");
    assert_eq!(usize_to_decimal(7).as_str(), "7");
    assert_eq!(usize_to_decimal(10).as_str(), "10");
    assert_eq!(usize_to_decimal(12345).as_str(), "12345");
}

#[test]
fn line_index_of_empty_text() {
    let index = LineIndex::new("");
    assert_eq!(index.offset_to_position(0), Some(Position { line: 0, character: 0 }));
    assert_eq!(index.offset_to_position(1), None);
}

#[test]
fn offset_to_position_maps_lines_and_columns() {
    // Line starts sit at offsets 0, 10 and 25.
    let text = "abcdefghi\nabcdefghijklmn\nxyz";
    let index = LineIndex::new(text);
    assert_eq!(index.offset_to_position(0), Some(Position { line: 0, character: 0 }));
    assert_eq!(index.offset_to_position(9), Some(Position { line: 0, character: 9 }));
    assert_eq!(index.offset_to_position(10), Some(Position { line: 1, character: 0 }));
    assert_eq!(index.offset_to_position(12), Some(Position { line: 1, character: 2 }));
    assert_eq!(index.offset_to_position(25), Some(Position { line: 2, character: 0 }));
    assert_eq!(index.offset_to_position(28), Some(Position { line: 2, character: 3 }));
    assert_eq!(index.offset_to_position(29), None);
}

#[test]
fn diagnostic_mapping_uses_first_span() {
    // Line starts {0, 10, 25}; span [12, 18) maps to (1, 2)..(1, 8).
    let text = "abcdefghi\nabcdefghijklmn\nxyz";
    let index = LineIndex::new(text);
    let err = ParseError::Parser { spans: vec![span(12, 18), span(0, 1)], message: String::new() };
    let d: Diagnostic = translate(&err, &index).expect("span should map");
    assert_eq!(d.start, Position { line: 1, character: 2 });
    assert_eq!(d.end, Position { line: 1, character: 8 });
    assert_eq!(d.message.as_str(), "Span { start: 12, end: 18 }");
}

#[test]
fn diagnostic_mapping_drops_unmappable_span() {
    let index = LineIndex::new("ab");
    let err = ParseError::Parser { spans: vec![span(1, 9)], message: String::new() };
    assert!(translate(&err, &index).is_none());
}

#[test]
fn diagnostic_for_unrecognized_error_is_anchored_at_start() {
    let index = LineIndex::new("something");
    let d = translate(&ParseError::Unrecognized, &index).expect("anchors should map");
    assert_eq!(d.start, Position { line: 0, character: 0 });
    assert_eq!(d.end, Position { line: 0, character: 1 });
    assert_eq!(d.message.as_str(), "Unrecognized error");
}

#[test]
fn diagnostic_for_unrecognized_error_on_empty_text_is_dropped() {
    let index = LineIndex::new("");
    assert!(translate(&ParseError::Unrecognized, &index).is_none());
}

#[test]
fn containment_is_strict_at_both_boundaries() {
    let macros = vec![mac("MAIN", vec![], vec![stmt(vec![span(5, 8)]), stmt(vec![span(12, 15)])])];
    assert!(!inside_macro_context(&macros, 4));
    assert!(!inside_macro_context(&macros, 5));
    assert!(inside_macro_context(&macros, 6));
    assert!(inside_macro_context(&macros, 14));
    assert!(!inside_macro_context(&macros, 15));
    assert!(!inside_macro_context(&macros, 16));
}

#[test]
fn macro_without_statements_contains_no_offset() {
    let macros = vec![mac("EMPTY", vec![], vec![])];
    for o in 0..20 {
        assert!(!inside_macro_context(&macros, o));
    }
}

#[test]
fn completion_outside_any_macro_is_empty() {
    let ast = one_macro_ast("MAIN", vec![], span(5, 8), span(12, 15));
    let map = completion(&ast, 3);
    assert_eq!(map.len(), 0);
}

#[test]
fn completion_inside_macro_offers_all_sources() {
    let ast = one_macro_ast("MAIN", vec!["a", "b"], span(5, 8), span(12, 15));
    let map = completion(&ast, 6);
    // Every opcode mnemonic, every builtin, and the macro itself.
    assert_eq!(map.len(), 142 + 8 + 1);
    match map.get(&"add".to_string()) {
        Some(HuffCompletionItem::Opcode(name)) => assert_eq!(name.as_str(), "add"),
        other => panic!("expected the add opcode, got {:?}", other.is_some()),
    }
    for b in BUILTINS {
        match map.get(&b.to_string()) {
            Some(HuffCompletionItem::BuiltinFunction(name)) => assert_eq!(name.as_str(), b),
            _ => panic!("missing builtin"),
        }
    }
    match map.get(&"MAIN".to_string()) {
        Some(HuffCompletionItem::Macro(name, params)) => {
            assert_eq!(name.as_str(), "MAIN");
            let ps: Vec<&str> = params.iter().map(|p| p.as_str()).collect();
            assert_eq!(ps, vec!["a", "b"]);
        },
        _ => panic!("missing macro entry"),
    }
}

#[test]
fn macro_wins_label_collision_with_opcode_and_builtin() {
    let ast = Ast {
        macros: vec![
            mac("add", vec!["x"], vec![stmt(vec![span(5, 8)]), stmt(vec![span(12, 15)])]),
            mac("__ERROR", vec![], vec![stmt(vec![span(20, 23)]), stmt(vec![span(24, 27)])]),
        ],
    };
    let map = completion(&ast, 6);
    assert_eq!(map.len(), 142 + 8);
    assert!(matches!(map.get(&"add".to_string()), Some(HuffCompletionItem::Macro(_, _))));
    assert!(matches!(map.get(&"__ERROR".to_string()), Some(HuffCompletionItem::Macro(_, _))));
}

#[test]
fn later_macro_of_same_name_wins() {
    let ast = Ast {
        macros: vec![
            mac("TWICE", vec!["first"], vec![stmt(vec![span(2, 4)]), stmt(vec![span(5, 7)])]),
            mac("TWICE", vec!["second"], vec![stmt(vec![span(10, 12)]), stmt(vec![span(13, 15)])]),
        ],
    };
    let map = completion(&ast, 3);
    match map.get(&"TWICE".to_string()) {
        Some(HuffCompletionItem::Macro(_, params)) => {
            assert_eq!(params.len(), 1);
            assert_eq!(params[0].as_str(), "second");
        },
        _ => panic!("missing macro entry"),
    }
}

#[test]
fn label_map_keeps_last_write_per_label() {
    let mut map = LabelMap::new();
    map.insert("x".to_string(), HuffCompletionItem::Opcode("x".to_string()));
    map.insert("x".to_string(), HuffCompletionItem::BuiltinFunction("x".to_string()));
    assert_eq!(map.len(), 1);
    assert!(matches!(map.get(&"x".to_string()), Some(HuffCompletionItem::BuiltinFunction(_))));
    assert!(map.get(&"y".to_string()).is_none());
}

#[test]
fn document_store_replaces_wholesale() {
    let mut docs = DocumentStore::new();
    docs.open_or_replace("file:///a.huff".to_string(), "one".to_string(), 1);
    docs.open_or_replace("file:///a.huff".to_string(), "two".to_string(), 2);
    docs.open_or_replace("file:///b.huff".to_string(), "other".to_string(), 7);
    let a = docs.get(&"file:///a.huff".to_string()).expect("tracked");
    assert_eq!(a.text.as_str(), "two");
    assert_eq!(a.version, 2);
    let b = docs.get(&"file:///b.huff".to_string()).expect("tracked");
    assert_eq!(b.text.as_str(), "other");
    assert!(docs.get(&"file:///c.huff".to_string()).is_none());
}

#[test]
fn rendering_of_each_item_kind() {
    let e = render_item(
        &"MAIN".to_string(),
        &HuffCompletionItem::Macro("MAIN".to_string(), vec!["a".to_string(), "b".to_string()]),
    );
    assert_eq!(e.label.as_str(), "MAIN");
    assert_eq!(e.kind, EntryKind::Function);
    assert!(e.is_snippet);
    assert_eq!(e.insert_text.as_str(), "MAIN(${1:a},${2:b})");

    let e = render_item(&"add".to_string(), &HuffCompletionItem::Opcode("add".to_string()));
    assert_eq!(e.kind, EntryKind::Value);
    assert!(!e.is_snippet);
    assert_eq!(e.insert_text.as_str(), "add");

    let e = render_item(
        &"__FUNC_SIG".to_string(),
        &HuffCompletionItem::BuiltinFunction("__FUNC_SIG".to_string()),
    );
    assert_eq!(e.kind, EntryKind::Function);
    assert!(e.is_snippet);
    assert_eq!(e.insert_text.as_str(), "__FUNC_SIG()");
}

#[test]
fn rendering_a_whole_mapping_keeps_every_entry() {
    let ast = one_macro_ast("MAIN", vec![], span(5, 8), span(12, 15));
    let map = completion(&ast, 6);
    let rendered = render_completion_list(&map);
    assert_eq!(rendered.len(), 142 + 8 + 1);
    assert!(rendered.iter().any(|e| e.label.as_str() == "MAIN"));
    assert!(rendered.iter().any(|e| e.label.as_str() == "add"));
    assert!(rendered.iter().any(|e| e.label.as_str() == "__CODECOPY_DYN_ARG"));
}

#[test]
fn completion_query_on_untracked_document_is_empty() {
    let state = ServerState::new();
    assert!(state.completion_at(&"file:///a.huff".to_string(), 0, 0).is_none());
    assert!(state.completion_at(&"file:///a.huff".to_string(), 3, 17).is_none());
}

#[test]
fn completion_query_without_any_successful_parse_is_empty() {
    let mut state = ServerState::new();
    let uri = "file:///a.huff".to_string();
    let action = state.on_change(
        uri.clone(),
        "#define macro".to_string(),
        1,
        Err(ParseError::Parser { spans: vec![span(0, 7)], message: String::new() }),
    );
    assert!(matches!(action, OnChangeAction::Publish(_)));
    assert!(state.completion_at(&uri, 0, 5).is_none());
}

#[test]
fn successful_parse_feeds_completion_queries() {
    let mut state = ServerState::new();
    let uri = "file:///a.huff".to_string();
    let text = "#define macro MAIN() = takes(0) returns(0) {\n    add\n}\n";
    let body = text.find("add").unwrap();
    let ast = one_macro_ast("MAIN", vec![], span(body, body + 3), span(body, body + 3));
    let action = state.on_change(uri.clone(), text.to_string(), 1, Ok(ast));
    assert!(matches!(action, OnChangeAction::Parsed));
    // The cursor sits between the span of the body's single statement:
    // line 1, one character into the mnemonic.
    let map = state.completion_at(&uri, 1, 5).expect("completions inside the macro");
    assert_eq!(map.len(), 142 + 8 + 1);
    assert!(map.get(&"MAIN".to_string()).is_some());
    // At the very start of the document the cursor is outside the macro.
    let map = state.completion_at(&uri, 0, 0).expect("tracked and parsed");
    assert_eq!(map.len(), 0);
}

#[test]
fn failing_reparse_keeps_completions_from_last_good_parse() {
    let mut state = ServerState::new();
    let uri = "file:///a.huff".to_string();
    let good = "#define macro MAIN() = takes(0) returns(0) {\n    add\n}\n";
    let body = good.find("add").unwrap();
    let ast = one_macro_ast("MAIN", vec![], span(body, body + 3), span(body, body + 3));
    assert!(matches!(
        state.on_change(uri.clone(), good.to_string(), 1, Ok(ast)),
        OnChangeAction::Parsed
    ));

    // An edit introduces an unmatched opening delimiter; the reparse fails
    // with a span over the offending region of the new text.
    let bad = "#define macro MAIN() = takes(0) returns(0) {\n    add\n";
    let open_brace = bad.find('{').unwrap();
    let action = state.on_change(
        uri.clone(),
        bad.to_string(),
        2,
        Err(ParseError::Parser {
            spans: vec![span(open_brace, open_brace + 1)],
            message: String::new(),
        }),
    );
    match action {
        OnChangeAction::Publish(d) => {
            // The span maps through the current (post-edit) text.
            assert_eq!(d.start, Position { line: 0, character: open_brace });
            assert_eq!(d.end, Position { line: 0, character: open_brace + 1 });
        },
        _ => panic!("expected a published diagnostic"),
    }

    // The completion query still answers from the last good tree.
    let map = state.completion_at(&uri, 1, 5).expect("stale tree still cached");
    assert!(map.get(&"MAIN".to_string()).is_some());
    assert_eq!(map.len(), 142 + 8 + 1);
}

#[test]
fn completion_query_beyond_last_line_is_empty() {
    let mut state = ServerState::new();
    let uri = "file:///a.huff".to_string();
    let ast = one_macro_ast("MAIN", vec![], span(1, 3), span(4, 6));
    state.on_change(uri.clone(), "one line".to_string(), 1, Ok(ast));
    assert!(state.completion_at(&uri, 5, 0).is_none());
}

#[test]
fn documents_do_not_interfere() {
    let mut state = ServerState::new();
    let a = "file:///a.huff".to_string();
    let b = "file:///b.huff".to_string();
    let ast = one_macro_ast("MAIN", vec![], span(1, 4), span(5, 8));
    state.on_change(a.clone(), "0123456789".to_string(), 1, Ok(ast));
    assert!(state.completion_at(&a, 0, 3).is_some());
    assert!(state.completion_at(&b, 0, 3).is_none());
    // A failing parse of one document leaves the other's cache alone.
    state.on_change(
        b.clone(),
        "0123456789".to_string(),
        1,
        Err(ParseError::Unrecognized),
    );
    let map = state.completion_at(&a, 0, 3).expect("first document still cached");
    assert!(map.get(&"MAIN".to_string()).is_some());
    assert!(state.completion_at(&b, 0, 3).is_none());
}
