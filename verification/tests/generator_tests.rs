use bagsakan::decl::{
    EnumInfo, EnumMember, EnumValue, InterfaceInfo, PropertyInfo, TypeExpression, ValidatorFunction,
    Primitive,
};
use bagsakan::generator::ValidatorGenerator;

const TEMPLATE: &str = "validate%(type)";

fn prop(name: &str, t: TypeExpression, optional: bool) -> PropertyInfo {
    PropertyInfo { name: name.to_string(), type_annotation: t, optional }
}

fn user_interface() -> InterfaceInfo {
    InterfaceInfo {
        name: "User".to_string(),
        properties: vec![
            prop("id", TypeExpression::Primitive(Primitive::Num), false),
            prop("name", TypeExpression::Primitive(Primitive::Str), false),
            prop(
                "tag",
                TypeExpression::UnionOf(vec![
                    TypeExpression::LiteralStr("a".to_string()),
                    TypeExpression::LiteralStr("b".to_string()),
                ]),
                true,
            ),
        ],
        file_path: "src/user.ts".to_string(),
    }
}

fn request(name: &str, target: &str) -> ValidatorFunction {
    ValidatorFunction { name: name.to_string(), interface_name: target.to_string() }
}

const USER_VALIDATOR: &str = "export function validateUser(value: any): boolean {\n  return typeof value === \"object\" && value !== null && (\"id\" in value && (typeof value.id === \"number\")) && (\"name\" in value && (typeof value.name === \"string\")) && (!(\"tag\" in value) || ((value.tag === \"a\" || value.tag === \"b\")));\n}\n\n";

#[test]
fn user_scenario_exact_output() {
    // interface User { id: number; name: string; tag?: 'a'|'b' } and a
    // call validateUser(x): the emitted guard requires id and name with
    // their typeof checks, and lets a missing tag pass while a present
    // tag must be one of the two literals. So it accepts
    // {id:1,name:"n"} and {id:1,name:"n",tag:"a"}, and rejects
    // {id:"1",name:"n"} and {id:1,name:"n",tag:"c"}.
    let gen = ValidatorGenerator::new(vec![user_interface()], Vec::new(), false);
    let out = gen.generate_validators(&vec![request("validateUser", "User")], TEMPLATE);
    assert_eq!(out, USER_VALIDATOR);
}

#[test]
fn generation_is_deterministic() {
    let gen = ValidatorGenerator::new(vec![user_interface()], Vec::new(), false);
    let a = gen.generate_validators(&vec![request("validateUser", "User")], TEMPLATE);
    let b = gen.generate_validators(&vec![request("validateUser", "User")], TEMPLATE);
    assert_eq!(a, b);
}

#[test]
fn optional_and_required_guards_differ() {
    // a required property is guarded by presence-and-check, an
    // optional one by absence-or-check
    let gen = ValidatorGenerator::new(vec![user_interface()], Vec::new(), false);
    let out = gen.generate_validators(&vec![request("validateUser", "User")], TEMPLATE);
    assert!(out.contains("(\"id\" in value && (typeof value.id === \"number\"))"));
    assert!(out.contains("(!(\"tag\" in value) || ((value.tag === \"a\" || value.tag === \"b\")))"));
}

#[test]
fn output_sorted_alphabetically_and_deduplicated() {
    let mut zed = user_interface();
    zed.name = "Zed".to_string();
    zed.properties = Vec::new();
    let gen = ValidatorGenerator::new(vec![user_interface(), zed], Vec::new(), false);
    let out = gen.generate_validators(
        &vec![
            request("validateZed", "Zed"),
            request("validateUser", "User"),
            request("validateZed", "Zed"),
        ],
        TEMPLATE,
    );
    let upos = out.find("validateUser").unwrap();
    let zpos = out.find("validateZed").unwrap();
    assert!(upos < zpos);
    assert_eq!(out.matches("export function validateZed").count(), 1);
}

#[test]
fn reference_delegates_and_generates_target() {
    // a referenced known interface gets a recursively generated
    // validator even though it was never requested
    let outer = InterfaceInfo {
        name: "Outer".to_string(),
        properties: vec![prop(
            "u",
            TypeExpression::Reference("User".to_string(), Vec::new()),
            false,
        )],
        file_path: "src/outer.ts".to_string(),
    };
    let gen = ValidatorGenerator::new(vec![user_interface(), outer], Vec::new(), false);
    let out = gen.generate_validators(&vec![request("validateOuter", "Outer")], TEMPLATE);
    assert!(out.contains("(\"u\" in value && (validateUser(value.u)))"));
    assert!(out.contains("export function validateUser(value: any): boolean {"));
}

#[test]
fn enum_reference_is_membership_test() {
    let rec = InterfaceInfo {
        name: "Rec".to_string(),
        properties: vec![prop(
            "e",
            TypeExpression::Reference("Color".to_string(), Vec::new()),
            false,
        )],
        file_path: "src/rec.ts".to_string(),
    };
    let color = EnumInfo {
        members: vec![
            EnumMember { value: EnumValue::Text("red".to_string()) },
            EnumMember { value: EnumValue::Number(3) },
            EnumMember { value: EnumValue::Computed },
        ],
    };
    let gen = ValidatorGenerator::new(
        vec![rec],
        vec![("Color".to_string(), color)],
        false,
    );
    let out = gen.generate_validators(&vec![request("validateRec", "Rec")], TEMPLATE);
    // Computed members are excluded from the comparison set
    assert!(out.contains("(\"e\" in value && ((value.e === \"red\" || value.e === 3)))"));
}

#[test]
fn array_guard_checks_every_element() {
    let list = InterfaceInfo {
        name: "Names".to_string(),
        properties: vec![prop(
            "items",
            TypeExpression::ArrayOf(Box::new(TypeExpression::Primitive(Primitive::Str))),
            false,
        )],
        file_path: "src/names.ts".to_string(),
    };
    let gen = ValidatorGenerator::new(vec![list], Vec::new(), false);
    let out = gen.generate_validators(&vec![request("validateNames", "Names")], TEMPLATE);
    assert!(out.contains(
        "Array.isArray(value.items) && value.items.every((e0) => (typeof e0 === \"string\"))"
    ));
}

#[test]
fn unknown_target_generates_nothing() {
    let gen = ValidatorGenerator::new(Vec::new(), Vec::new(), false);
    let out = gen.generate_validators(&vec![request("validateGhost", "Ghost")], TEMPLATE);
    assert_eq!(out, "");
}

#[test]
fn empty_interface_checks_object_shape_only() {
    let empty = InterfaceInfo {
        name: "Bare".to_string(),
        properties: Vec::new(),
        file_path: "src/bare.ts".to_string(),
    };
    let gen = ValidatorGenerator::new(vec![empty], Vec::new(), false);
    let out = gen.generate_validators(&vec![request("validateBare", "Bare")], TEMPLATE);
    assert_eq!(
        out,
        "export function validateBare(value: any): boolean {\n  return typeof value === \"object\" && value !== null;\n}\n\n"
    );
}

#[test]
fn js_extension_switch_leaves_guards_unchanged() {
    let plain = ValidatorGenerator::new(vec![user_interface()], Vec::new(), false);
    let with_js = ValidatorGenerator::new(vec![user_interface()], Vec::new(), true);
    let a = plain.generate_validators(&vec![request("validateUser", "User")], TEMPLATE);
    let b = with_js.generate_validators(&vec![request("validateUser", "User")], TEMPLATE);
    assert_eq!(a, b);
}
