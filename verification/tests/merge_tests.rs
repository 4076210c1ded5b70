use bagsakan::decl::{InterfaceInfo, Primitive, PropertyInfo, TypeExpression, ValidatorFunction};
use bagsakan::generator::ValidatorGenerator;
use bagsakan::merge::{merge_validator, recover_validators, MergeOutcome};

const TEMPLATE: &str = "validate%(type)";

fn iface(name: &str) -> InterfaceInfo {
    InterfaceInfo {
        name: name.to_string(),
        properties: vec![PropertyInfo {
            name: "id".to_string(),
            type_annotation: TypeExpression::Primitive(Primitive::Num),
            optional: false,
        }],
        file_path: format!("src/{}.ts", name.to_lowercase()),
    }
}

fn request(name: &str, target: &str) -> ValidatorFunction {
    ValidatorFunction { name: name.to_string(), interface_name: target.to_string() }
}

#[test]
fn recovery_finds_emitted_validators() {
    let gen = ValidatorGenerator::new(vec![iface("User"), iface("Order")], Vec::new(), false);
    let out = gen.generate_validators(
        &vec![request("validateUser", "User"), request("validateOrder", "Order")],
        TEMPLATE,
    );
    let recovered = recover_validators(&out, TEMPLATE);
    let pairs: Vec<(&str, &str)> = recovered
        .iter()
        .map(|v| (v.name.as_str(), v.interface_name.as_str()))
        .collect();
    assert_eq!(pairs, vec![("validateOrder", "Order"), ("validateUser", "User")]);
}

#[test]
fn merge_adds_new_validator() {
    let gen = ValidatorGenerator::new(vec![iface("User"), iface("Order")], Vec::new(), false);
    let existing = gen.generate_validators(&vec![request("validateUser", "User")], TEMPLATE);
    match merge_validator(&gen, &existing, TEMPLATE, "Order") {
        MergeOutcome::Updated(content, count) => {
            assert_eq!(count, 2);
            // byte-identical to a from-scratch generation over the
            // merged request set
            let fresh = gen.generate_validators(
                &vec![request("validateUser", "User"), request("validateOrder", "Order")],
                TEMPLATE,
            );
            assert_eq!(content, fresh);
        },
        MergeOutcome::AlreadyExists(_) => panic!("expected an update"),
    }
}

#[test]
fn merge_is_idempotent() {
    // merging the same interface a second time is a no-op
    let gen = ValidatorGenerator::new(vec![iface("User"), iface("Order")], Vec::new(), false);
    let existing = gen.generate_validators(&vec![request("validateUser", "User")], TEMPLATE);
    let updated = match merge_validator(&gen, &existing, TEMPLATE, "Order") {
        MergeOutcome::Updated(content, _) => content,
        MergeOutcome::AlreadyExists(_) => panic!("expected an update"),
    };
    match merge_validator(&gen, &updated, TEMPLATE, "Order") {
        MergeOutcome::AlreadyExists(name) => assert_eq!(name, "validateOrder"),
        MergeOutcome::Updated(..) => panic!("expected a no-op"),
    }
}

#[test]
fn merge_into_empty_file() {
    let gen = ValidatorGenerator::new(vec![iface("User")], Vec::new(), false);
    match merge_validator(&gen, "", TEMPLATE, "User") {
        MergeOutcome::Updated(content, count) => {
            assert_eq!(count, 1);
            let fresh =
                gen.generate_validators(&vec![request("validateUser", "User")], TEMPLATE);
            assert_eq!(content, fresh);
        },
        MergeOutcome::AlreadyExists(_) => panic!("expected an update"),
    }
}

#[test]
fn recovery_ignores_foreign_lines() {
    let text = "// a note\nconst x = 1;\nexport function helper(a: number): number {\n  return a;\n}\n";
    let recovered = recover_validators(text, TEMPLATE);
    assert!(recovered.is_empty());
}
