use bagsakan::ast::{Decl, Expr, InterfaceNode, SourceModule, Stmt};
use bagsakan::registry::{find_interface, TypeScriptParser};
use bagsakan::resolve::ResolveOutcome;

const PATTERN: &str = "validate([A-Z][a-zA-Z]+)";

fn call(name: &str) -> Stmt {
    Stmt::ExprStmt(Box::new(Expr::Call(
        Box::new(Expr::Ident(name.to_string())),
        Vec::new(),
    )))
}

fn empty_interface(name: &str) -> Stmt {
    Stmt::DeclStmt(Decl::InterfaceDecl(InterfaceNode {
        name: name.to_string(),
        members: Vec::new(),
    }))
}

#[test]
fn file_visited_once() {
    // file A imports B and B imports A: on the second entry of A the
    // visited check stops the recursion, and A's declarations are in
    // the registry exactly once
    let mut parser = TypeScriptParser::new(PATTERN, true, Vec::new(), Vec::new());
    parser.mark_as_source_file("/proj/a.ts".to_string());
    assert!(parser.begin_file("/proj/a.ts"));
    let module_a = SourceModule {
        body: vec![Stmt::ImportDecl("./b".to_string()), empty_interface("A")],
    };
    let imports = parser.apply_module(&module_a, "/proj/a.ts");
    assert_eq!(imports, vec!["./b"]);
    assert!(parser.begin_file("/proj/b.ts"));
    let module_b = SourceModule {
        body: vec![Stmt::ImportDecl("./a".to_string()), empty_interface("B")],
    };
    let _ = parser.apply_module(&module_b, "/proj/b.ts");
    // the cycle edge: b imports a, which was already visited
    assert!(!parser.begin_file("/proj/a.ts"));
    assert_eq!(parser.interfaces.len(), 2);
}

#[test]
fn root_marking_controls_invocations() {
    let mut parser = TypeScriptParser::new(PATTERN, true, Vec::new(), Vec::new());
    parser.mark_as_source_file("/proj/root.ts".to_string());
    assert!(parser.begin_file("/proj/root.ts"));
    let _ = parser.apply_module(&SourceModule { body: vec![call("validateUser")] }, "/proj/root.ts");
    assert_eq!(parser.validator_functions.len(), 1);
    // a dependency file was never marked, so its calls leave nothing
    assert!(parser.begin_file("/proj/dep.ts"));
    let _ = parser.apply_module(&SourceModule { body: vec![call("validateUser")] }, "/proj/dep.ts");
    assert_eq!(parser.validator_functions.len(), 1);
}

#[test]
fn missing_interface_reported() {
    // requesting validateGhost where Ghost is undefined anywhere
    let mut parser = TypeScriptParser::new(PATTERN, true, Vec::new(), Vec::new());
    parser.mark_as_source_file("/proj/root.ts".to_string());
    assert!(parser.begin_file("/proj/root.ts"));
    let _ = parser.apply_module(
        &SourceModule { body: vec![call("validateGhost"), call("validateGhost")] },
        "/proj/root.ts",
    );
    let missing = parser.check_missing();
    assert_eq!(missing, vec!["Ghost"]);
    let sites = parser.invocation_sites("Ghost");
    assert_eq!(sites, vec!["validateGhost", "validateGhost"]);
}

#[test]
fn gate_clean_when_interface_known() {
    let mut parser = TypeScriptParser::new(PATTERN, true, Vec::new(), Vec::new());
    parser.mark_as_source_file("/proj/root.ts".to_string());
    assert!(parser.begin_file("/proj/root.ts"));
    let _ = parser.apply_module(
        &SourceModule { body: vec![empty_interface("User"), call("validateUser")] },
        "/proj/root.ts",
    );
    assert!(parser.check_missing().is_empty());
}

#[test]
fn last_declaration_of_name_wins() {
    let mut parser = TypeScriptParser::new(PATTERN, true, Vec::new(), Vec::new());
    assert!(parser.begin_file("/proj/a.ts"));
    let _ = parser.apply_module(&SourceModule { body: vec![empty_interface("User")] }, "/proj/a.ts");
    assert!(parser.begin_file("/proj/b.ts"));
    let _ = parser.apply_module(&SourceModule { body: vec![empty_interface("User")] }, "/proj/b.ts");
    let found = find_interface(&parser.interfaces, "User").expect("declared");
    assert_eq!(found.file_path, "/proj/b.ts");
}

#[test]
fn excluded_package_rejected() {
    // a bare specifier under an excluded package never resolves,
    // whether matched exactly or as a path prefix
    let parser = TypeScriptParser::new(
        PATTERN,
        true,
        vec!["lodash".to_string()],
        Vec::new(),
    );
    assert!(matches!(
        parser.resolve_import("/proj", "lodash"),
        ResolveOutcome::PackageExcluded
    ));
    assert!(matches!(
        parser.resolve_import("/proj", "lodash/map"),
        ResolveOutcome::PackageExcluded
    ));
}

#[test]
fn external_imports_disabled() {
    let parser = TypeScriptParser::new(PATTERN, false, Vec::new(), Vec::new());
    assert!(matches!(
        parser.resolve_import("/proj", "react"),
        ResolveOutcome::ExternalDisabled
    ));
    // even an excluded package reports the disabled switch first
    let parser2 = TypeScriptParser::new(
        PATTERN,
        false,
        vec!["react".to_string()],
        Vec::new(),
    );
    assert!(matches!(
        parser2.resolve_import("/proj", "react"),
        ResolveOutcome::ExternalDisabled
    ));
}

#[test]
fn unresolvable_relative_import_fails_softly() {
    let parser = TypeScriptParser::new(PATTERN, true, Vec::new(), Vec::new());
    match parser.resolve_import("/nonexistent-dir-for-tests", "./missing-module") {
        ResolveOutcome::Resolved(_) => panic!("nothing to resolve here"),
        _ => {},
    }
}
