use rustic_macros::codegen::{render_function, render_statement};
use rustic_macros::expand::{expand_modifier, FunctionSignatureSnapshot};
use rustic_macros::modifiers;
use rustic_macros::parser::{parse_modifier, parse_modifier_list};

fn plain_snapshot(body: Vec<&str>) -> FunctionSignatureSnapshot {
    FunctionSignatureSnapshot {
        attrs: Vec::new(),
        visibility: String::new(),
        is_async: false,
        name: "f".to_string(),
        generics: String::new(),
        parameters: String::new(),
        return_type: String::new(),
        where_clause: String::new(),
        body: body.into_iter().map(|s| s.to_string()).collect(),
    }
}

#[test]
fn parses_plain_name() {
    let m = parse_modifier("guard_func");
    assert_eq!(m.name, "guard_func");
    assert!(m.arguments.is_empty());
}

#[test]
fn parses_name_with_two_arguments() {
    let m = parse_modifier("f@1,2");
    assert_eq!(m.name, "f");
    assert_eq!(m.arguments, vec!["1".to_string(), "2".to_string()]);
}

#[test]
fn splits_on_top_level_commas() {
    let m = parse_modifier("f@1,crate::T::A");
    assert_eq!(m.name, "f");
    assert_eq!(m.arguments.len(), 2);
    assert_eq!(m.arguments[0], "1");
    assert_eq!(m.arguments[1], "crate::T::A");
}

#[test]
fn trims_argument_whitespace() {
    let m = parse_modifier("f@ 1 ,\t2 ");
    assert_eq!(m.arguments, vec!["1".to_string(), "2".to_string()]);
}

#[test]
fn keeps_later_at_signs_inside_arguments() {
    let m = parse_modifier("f@a@b,c");
    assert_eq!(m.name, "f");
    assert_eq!(m.arguments, vec!["a@b".to_string(), "c".to_string()]);
}

#[test]
fn empty_argument_text_gives_one_empty_argument() {
    let m = parse_modifier("f@");
    assert_eq!(m.name, "f");
    assert_eq!(m.arguments, vec![String::new()]);
}

#[test]
fn parses_list_in_declaration_order() {
    let literals = vec!["a".to_string(), "b@1".to_string()];
    let ms = parse_modifier_list(&literals);
    assert_eq!(ms.len(), 2);
    assert_eq!(ms[0].name, "a");
    assert!(ms[0].arguments.is_empty());
    assert_eq!(ms[1].name, "b");
    assert_eq!(ms[1].arguments, vec!["1".to_string()]);
}

#[test]
fn reserved_name_becomes_lock() {
    let m = parse_modifier("non_reentrant");
    let s = expand_modifier(&m);
    assert!(matches!(s, rustic_macros::expand::Stmt::ReentrancyLock));
}

#[test]
fn reserved_name_ignores_arguments() {
    let m = parse_modifier("non_reentrant@1,2");
    assert_eq!(m.arguments.len(), 2);
    let s = expand_modifier(&m);
    assert!(matches!(s, rustic_macros::expand::Stmt::ReentrancyLock));
}

#[test]
fn guard_checks_in_declaration_order() {
    let args = vec!["a".to_string(), "b@33".to_string(), "c".to_string()];
    let e = modifiers(&args, plain_snapshot(vec!["body();"]));
    assert_eq!(e.statements.len(), 4);
    let names: Vec<String> = e
        .statements
        .iter()
        .take(3)
        .map(|s| match s {
            rustic_macros::expand::Stmt::GuardCall { name, .. } => name.clone(),
            _ => panic!("expected a guard call"),
        })
        .collect();
    assert_eq!(names, vec!["a".to_string(), "b".to_string(), "c".to_string()]);
}

#[test]
fn signature_is_preserved() {
    let input = FunctionSignatureSnapshot {
        attrs: vec!["#[update]".to_string()],
        visibility: "pub".to_string(),
        is_async: true,
        name: "transfer".to_string(),
        generics: "<'a, T>".to_string(),
        parameters: "x: T".to_string(),
        return_type: "-> Result<T, String>".to_string(),
        where_clause: "where T: Clone".to_string(),
        body: vec!["Ok(x)".to_string()],
    };
    let args = vec!["a".to_string()];
    let e = modifiers(&args, input);
    assert_eq!(e.attrs, vec!["#[update]".to_string()]);
    assert_eq!(e.visibility, "pub");
    assert!(e.is_async);
    assert_eq!(e.name, "transfer");
    assert_eq!(e.generics, "<'a, T>");
    assert_eq!(e.parameters, "x: T");
    assert_eq!(e.return_type, "-> Result<T, String>");
    assert_eq!(e.where_clause, "where T: Clone");
}

#[test]
fn expands_guards_then_body() {
    let args = vec!["a".to_string(), "b@33".to_string()];
    let e = modifiers(&args, plain_snapshot(vec!["body();"]));
    assert_eq!(e.statements.len(), 3);
    match &e.statements[0] {
        rustic_macros::expand::Stmt::GuardCall { name, arguments } => {
            assert_eq!(name.as_str(), "a");
            assert!(arguments.is_empty());
        }
        _ => panic!("expected a guard call"),
    }
    match &e.statements[1] {
        rustic_macros::expand::Stmt::GuardCall { name, arguments } => {
            assert_eq!(name.as_str(), "b");
            assert_eq!(arguments, &vec!["33".to_string()]);
        }
        _ => panic!("expected a guard call"),
    }
    match &e.statements[2] {
        rustic_macros::expand::Stmt::Source { text } => assert_eq!(text.as_str(), "body();"),
        _ => panic!("expected an original statement"),
    }
}

#[test]
fn async_reentrancy_lock_comes_first() {
    let mut input = plain_snapshot(vec!["work().await;", "done();"]);
    input.is_async = true;
    let args = vec!["non_reentrant".to_string()];
    let e = modifiers(&args, input);
    assert!(e.is_async);
    assert_eq!(e.statements.len(), 3);
    assert!(matches!(
        e.statements[0],
        rustic_macros::expand::Stmt::ReentrancyLock
    ));
    match &e.statements[1] {
        rustic_macros::expand::Stmt::Source { text } => assert_eq!(text.as_str(), "work().await;"),
        _ => panic!("expected an original statement"),
    }
}

#[test]
fn empty_modifier_list_keeps_body_alone() {
    let args: Vec<String> = Vec::new();
    let e = modifiers(&args, plain_snapshot(vec!["body();"]));
    assert_eq!(e.statements.len(), 1);
    match &e.statements[0] {
        rustic_macros::expand::Stmt::Source { text } => assert_eq!(text.as_str(), "body();"),
        _ => panic!("expected an original statement"),
    }
}

#[test]
fn renders_lock_statement() {
    let s = rustic_macros::expand::Stmt::ReentrancyLock;
    assert_eq!(
        render_statement(&s),
        "let __guard = rustic::reentrancy_guard::ReentrancyGuard::new();"
    );
}

#[test]
fn renders_guard_call_statement() {
    let s = rustic_macros::expand::Stmt::GuardCall {
        name: "b".to_string(),
        arguments: vec!["33".to_string()],
    };
    let expected = "let r: Result<(), String> = b(33);\nif let Err(e) = r {\n    ic_cdk::api::call::reject(&e);\n    panic!(\"b failed: {}\", e);\n}";
    assert_eq!(render_statement(&s), expected);
}

#[test]
fn renders_no_arguments_and_many_arguments() {
    let none = rustic_macros::expand::Stmt::GuardCall {
        name: "a".to_string(),
        arguments: Vec::new(),
    };
    assert!(render_statement(&none).starts_with("let r: Result<(), String> = a();"));
    let two = rustic_macros::expand::Stmt::GuardCall {
        name: "c".to_string(),
        arguments: vec!["1".to_string(), "2".to_string()],
    };
    assert!(render_statement(&two).starts_with("let r: Result<(), String> = c(1, 2);"));
}

#[test]
fn renders_whole_function() {
    let args = vec!["a".to_string()];
    let mut input = plain_snapshot(vec!["body();"]);
    input.attrs = vec!["#[update]".to_string()];
    input.visibility = "pub".to_string();
    let e = modifiers(&args, input);
    let expected = "#[update]\npub fn f()   {\nlet r: Result<(), String> = a();\nif let Err(e) = r {\n    ic_cdk::api::call::reject(&e);\n    panic!(\"a failed: {}\", e);\n}\nbody();\n}\n";
    assert_eq!(render_function(&e), expected);
}
