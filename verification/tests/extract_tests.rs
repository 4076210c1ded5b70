use bagsakan::ast::{
    ArgNode, Decl, EnumMemberNode, EnumNode, Expr, InitNode, InterfaceNode, PropertySig, SigNode,
    SourceModule, Stmt, TypeNode,
};
use bagsakan::decl::{EnumValue, Primitive, TypeExpression};
use bagsakan::extract::{extract, normalize_type};

fn call(name: &str) -> Stmt {
    Stmt::ExprStmt(Box::new(Expr::Call(
        Box::new(Expr::Ident(name.to_string())),
        Vec::new(),
    )))
}

fn user_interface() -> Decl {
    Decl::InterfaceDecl(InterfaceNode {
        name: "User".to_string(),
        members: vec![
            SigNode::Property(PropertySig {
                key: Some("id".to_string()),
                type_ann: Some(TypeNode::NumKeyword),
                optional: false,
            }),
            SigNode::Property(PropertySig {
                key: Some("name".to_string()),
                type_ann: Some(TypeNode::StrKeyword),
                optional: false,
            }),
            SigNode::Property(PropertySig {
                key: Some("tag".to_string()),
                type_ann: Some(TypeNode::UnionType(vec![
                    TypeNode::StrLiteral("a".to_string()),
                    TypeNode::StrLiteral("b".to_string()),
                ])),
                optional: true,
            }),
        ],
    })
}

const PATTERN: &str = "validate([A-Z][a-zA-Z]+)";

#[test]
fn interface_properties_extracted() {
    let module = SourceModule { body: vec![Stmt::DeclStmt(user_interface())] };
    let out = extract(&module, "src/user.ts", true, PATTERN);
    assert_eq!(out.interfaces.len(), 1);
    let iface = &out.interfaces[0];
    assert_eq!(iface.name, "User");
    assert_eq!(iface.file_path, "src/user.ts");
    assert_eq!(iface.properties.len(), 3);
    assert_eq!(iface.properties[0].name, "id");
    assert!(!iface.properties[0].optional);
    assert!(matches!(
        iface.properties[0].type_annotation,
        TypeExpression::Primitive(Primitive::Num)
    ));
    assert_eq!(iface.properties[2].name, "tag");
    assert!(iface.properties[2].optional);
}

#[test]
fn property_without_annotation_is_any() {
    let module = SourceModule {
        body: vec![Stmt::DeclStmt(Decl::InterfaceDecl(InterfaceNode {
            name: "Loose".to_string(),
            members: vec![SigNode::Property(PropertySig {
                key: Some("x".to_string()),
                type_ann: None,
                optional: false,
            })],
        }))],
    };
    let out = extract(&module, "a.ts", false, PATTERN);
    assert!(matches!(
        out.interfaces[0].properties[0].type_annotation,
        TypeExpression::Primitive(Primitive::Any)
    ));
}

#[test]
fn enum_auto_increment() {
    // enum E { A, B = 5, C } yields A=0, B=5, C=6
    let module = SourceModule {
        body: vec![Stmt::DeclStmt(Decl::EnumDecl(EnumNode {
            name: "E".to_string(),
            members: vec![
                EnumMemberNode { initializer: None },
                EnumMemberNode { initializer: Some(InitNode::NumInit(5)) },
                EnumMemberNode { initializer: None },
            ],
        }))],
    };
    let out = extract(&module, "e.ts", true, PATTERN);
    assert_eq!(out.enums.len(), 1);
    let (name, info) = &out.enums[0];
    assert_eq!(name, "E");
    let values: Vec<i128> = info
        .members
        .iter()
        .map(|m| match m.value {
            EnumValue::Number(n) => n,
            _ => panic!("expected numeric member"),
        })
        .collect();
    assert_eq!(values, vec![0, 5, 6]);
}

#[test]
fn enum_mixed_members() {
    let module = SourceModule {
        body: vec![Stmt::DeclStmt(Decl::EnumDecl(EnumNode {
            name: "M".to_string(),
            members: vec![
                EnumMemberNode { initializer: Some(InitNode::StrInit("x".to_string())) },
                EnumMemberNode { initializer: None },
                EnumMemberNode { initializer: Some(InitNode::OtherInit) },
            ],
        }))],
    };
    let out = extract(&module, "m.ts", true, PATTERN);
    let (_, info) = &out.enums[0];
    assert!(matches!(&info.members[0].value, EnumValue::Text(s) if s == "x"));
    assert!(matches!(info.members[1].value, EnumValue::Number(0)));
    assert!(matches!(info.members[2].value, EnumValue::Computed));
}

#[test]
fn root_file_invocation_recorded() {
    let module = SourceModule { body: vec![call("validateUser")] };
    let out = extract(&module, "root.ts", true, PATTERN);
    assert_eq!(out.invocations.len(), 1);
    assert_eq!(out.invocations[0].name, "validateUser");
    assert_eq!(out.invocations[0].interface_name, "User");
}

#[test]
fn non_root_invocation_dropped() {
    // A validator-named call in a file reached only via import leaves
    // no recorded invocation.
    let module = SourceModule { body: vec![call("validateUser")] };
    let out = extract(&module, "dep.ts", false, PATTERN);
    assert_eq!(out.invocations.len(), 0);
}

#[test]
fn member_callee_never_recognized() {
    let module = SourceModule {
        body: vec![Stmt::ExprStmt(Box::new(Expr::Call(
            Box::new(Expr::Member),
            vec![ArgNode::Plain(Box::new(Expr::Call(
                Box::new(Expr::Ident("validateOrder".to_string())),
                Vec::new(),
            )))],
        )))],
    };
    let out = extract(&module, "root.ts", true, PATTERN);
    // the member callee is skipped, the nested call in the arguments
    // is still walked
    assert_eq!(out.invocations.len(), 1);
    assert_eq!(out.invocations[0].interface_name, "Order");
}

#[test]
fn nonmatching_name_not_recorded() {
    let module = SourceModule { body: vec![call("checkUser")] };
    let out = extract(&module, "root.ts", true, PATTERN);
    assert_eq!(out.invocations.len(), 0);
}

#[test]
fn imports_collected() {
    let module = SourceModule {
        body: vec![
            Stmt::ImportDecl("./models".to_string()),
            Stmt::ExportNamed(None, Some("./other".to_string())),
            Stmt::ExportAll("pkg/lib".to_string()),
        ],
    };
    let out = extract(&module, "root.ts", true, PATTERN);
    assert_eq!(out.imports, vec!["./models", "./other", "pkg/lib"]);
}

#[test]
fn calls_found_in_nested_positions() {
    let body = vec![Stmt::IfStmt(
        Box::new(Expr::Call(Box::new(Expr::Ident("validateUser".to_string())), Vec::new())),
        Box::new(Stmt::ReturnStmt(Some(Box::new(Expr::Logical(
            Box::new(Expr::Call(Box::new(Expr::Ident("validateOrder".to_string())), Vec::new())),
            Box::new(Expr::Ident("x".to_string())),
        ))))),
        None,
    )];
    let module = SourceModule {
        body: vec![Stmt::DeclStmt(Decl::FunctionDecl(Some(body)))],
    };
    let out = extract(&module, "root.ts", true, PATTERN);
    let targets: Vec<&str> =
        out.invocations.iter().map(|v| v.interface_name.as_str()).collect();
    assert_eq!(targets, vec!["User", "Order"]);
}

#[test]
fn normalize_type_shapes() {
    let t = normalize_type(&TypeNode::ArrayType(Box::new(TypeNode::StrKeyword)));
    assert!(
        matches!(t, TypeExpression::ArrayOf(inner) if matches!(*inner, TypeExpression::Primitive(Primitive::Str)))
    );
    let r = normalize_type(&TypeNode::RefNamed("Box".to_string(), None));
    assert!(matches!(r, TypeExpression::Reference(name, args) if name == "Box" && args.is_empty()));
    let u = normalize_type(&TypeNode::OtherType);
    assert!(matches!(u, TypeExpression::Unknown));
}
