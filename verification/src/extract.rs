//! Declaration extraction: walking one file's syntax tree to collect
//! interface declarations, enum declarations, validator invocations
//! (in root files only) and import specifiers. The walk is specified
//! by the `mine_*` functions and executed by the `extract_*` functions.

use vstd::prelude::*;

use crate::ast::{
    ArgNode, ClassMember, Decl, EnumMemberNode, EnumNode, Expr, InitNode, InterfaceNode,
    ObjectPart, SigNode, SourceModule, Stmt, TypeNode,
};
use crate::decl::{
    enums_view, ifaces_view, lemma_types_view_push, props_view, strings_view, types_view,
    validators_view, EnumInfo, EnumMember, EnumValue, EnumValueV, InterfaceInfo, InterfaceV,
    Primitive, PropertyInfo, PropertyV, TypeExprV, TypeExpression, ValidatorFunction, ValidatorV,
};
use crate::pattern::{capture_first, spec_capture_first};

verus! {

broadcast use vstd::seq::group_seq_axioms, vstd::std_specs::vec::group_vec_axioms;

/// Everything one walk collects, as mathematical sequences.
#[verifier::ext_equal]
pub struct Mined {
    pub interfaces: Seq<InterfaceV>,
    pub enums: Seq<(Seq<char>, Seq<EnumValueV>)>,
    pub invocations: Seq<ValidatorV>,
    pub imports: Seq<Seq<char>>,
}

pub open spec fn mined_empty() -> Mined {
    Mined {
        interfaces: Seq::<InterfaceV>::empty(),
        enums: Seq::<(Seq<char>, Seq<EnumValueV>)>::empty(),
        invocations: Seq::<ValidatorV>::empty(),
        imports: Seq::<Seq<char>>::empty(),
    }
}

pub open spec fn mined_add(a: Mined, b: Mined) -> Mined {
    Mined {
        interfaces: a.interfaces + b.interfaces,
        enums: a.enums + b.enums,
        invocations: a.invocations + b.invocations,
        imports: a.imports + b.imports,
    }
}

pub proof fn lemma_mined_add_assoc(a: Mined, b: Mined, c: Mined)
    ensures
        mined_add(mined_add(a, b), c) == mined_add(a, mined_add(b, c)),
{
    assert(mined_add(mined_add(a, b), c) =~~= mined_add(a, mined_add(b, c)));
}

pub proof fn lemma_mined_add_empty(a: Mined)
    ensures
        mined_add(a, mined_empty()) == a,
        mined_add(mined_empty(), a) == a,
{
    assert(mined_add(a, mined_empty()) =~~= a);
    assert(mined_add(mined_empty(), a) =~~= a);
}

/// Normalization of a parsed type annotation (spec).
pub open spec fn norm_type(n: TypeNode) -> TypeExprV
    decreases n,
{
    match n {
        TypeNode::StrKeyword => TypeExprV::Primitive(Primitive::Str),
        TypeNode::NumKeyword => TypeExprV::Primitive(Primitive::Num),
        TypeNode::BoolKeyword => TypeExprV::Primitive(Primitive::Bool),
        TypeNode::AnyKeyword => TypeExprV::Primitive(Primitive::Any),
        TypeNode::VoidKeyword => TypeExprV::Primitive(Primitive::Void),
        TypeNode::NullKeyword => TypeExprV::Primitive(Primitive::Null),
        TypeNode::UndefinedKeyword => TypeExprV::Primitive(Primitive::Undefined),
        TypeNode::ArrayType(t) => TypeExprV::ArrayOf(Box::new(norm_type(*t))),
        TypeNode::UnionType(ts) => TypeExprV::UnionOf(norm_types(ts@)),
        TypeNode::StrLiteral(s) => TypeExprV::LiteralStr(s@),
        TypeNode::NumLiteral(v) => TypeExprV::LiteralNum(v as int),
        TypeNode::BoolLiteral(b) => TypeExprV::LiteralBool(b),
        TypeNode::OtherLiteral => TypeExprV::Unknown,
        TypeNode::RefNamed(name, args) => match args {
            Option::Some(ts) => TypeExprV::Reference(name@, norm_types(ts@)),
            Option::None => TypeExprV::Reference(name@, Seq::<TypeExprV>::empty()),
        },
        TypeNode::RefOther => TypeExprV::Unknown,
        TypeNode::OtherType => TypeExprV::Unknown,
    }
}

pub open spec fn norm_types(s: Seq<TypeNode>) -> Seq<TypeExprV>
    decreases s,
{
    if s.len() == 0 {
        Seq::<TypeExprV>::empty()
    } else {
        norm_types(s.drop_last()).push(norm_type(s.last()))
    }
}

/// The properties an interface body declares, in order; non-property
/// members and non-identifier keys contribute nothing, and a property
/// without an annotation is typed `any`.
pub open spec fn props_of(members: Seq<SigNode>) -> Seq<PropertyV>
    decreases members,
{
    if members.len() == 0 {
        Seq::<PropertyV>::empty()
    } else {
        props_of(members.drop_last()) + prop_of(members.last())
    }
}

pub open spec fn prop_of(m: SigNode) -> Seq<PropertyV> {
    match m {
        SigNode::Property(p) => match p.key {
            Option::Some(k) => seq![
                PropertyV {
                    name: k@,
                    type_annotation: match p.type_ann {
                        Option::Some(t) => norm_type(t),
                        Option::None => TypeExprV::Primitive(Primitive::Any),
                    },
                    optional: p.optional,
                },
            ],
            Option::None => Seq::<PropertyV>::empty(),
        },
        SigNode::OtherSig => Seq::<PropertyV>::empty(),
    }
}

pub open spec fn interface_of(n: InterfaceNode, file: Seq<char>) -> InterfaceV {
    InterfaceV { name: n.name@, properties: props_of(n.members@), file_path: file }
}

/// Enum member resolution: a numeric initializer is used verbatim and
/// resets the auto-increment counter to its value plus one; a string
/// initializer is used verbatim; any other initializer is `Computed`;
/// a member without an initializer takes the counter and advances it.
pub open spec fn enum_members_of(members: Seq<EnumMemberNode>, counter: int) -> Seq<EnumValueV>
    decreases members,
{
    if members.len() == 0 {
        Seq::<EnumValueV>::empty()
    } else {
        match members[0].initializer {
            Option::Some(InitNode::NumInit(v)) => seq![EnumValueV::Number(v as int)] + enum_members_of(
                members.skip(1),
                v + 1,
            ),
            Option::Some(InitNode::StrInit(s)) => seq![EnumValueV::Text(s@)] + enum_members_of(
                members.skip(1),
                counter,
            ),
            Option::Some(InitNode::OtherInit) => seq![EnumValueV::Computed] + enum_members_of(
                members.skip(1),
                counter,
            ),
            Option::None => seq![EnumValueV::Number(counter)] + enum_members_of(
                members.skip(1),
                counter + 1,
            ),
        }
    }
}

pub open spec fn enum_of(n: EnumNode) -> (Seq<char>, Seq<EnumValueV>) {
    (n.name@, enum_members_of(n.members@, 0))
}

/// The invocation one call contributes: its callee must be a bare
/// identifier whose name the pattern captures, and the file must be a
/// root file.
pub open spec fn call_mined(callee: Expr, is_root: bool, pattern: Seq<char>) -> Mined {
    match callee {
        Expr::Ident(name) => match spec_capture_first(pattern, name@) {
            Option::Some(iface) => if is_root {
                Mined {
                    invocations: seq![ValidatorV { name: name@, interface_name: iface }],
                    ..mined_empty()
                }
            } else {
                mined_empty()
            },
            Option::None => mined_empty(),
        },
        _ => mined_empty(),
    }
}

pub open spec fn mine_stmts(ss: Seq<Stmt>, file: Seq<char>, is_root: bool, pattern: Seq<char>) -> Mined
    decreases ss,
{
    if ss.len() == 0 {
        mined_empty()
    } else {
        mined_add(
            mine_stmts(ss.drop_last(), file, is_root, pattern),
            mine_stmt(ss.last(), file, is_root, pattern),
        )
    }
}

pub open spec fn mine_stmt(s: Stmt, file: Seq<char>, is_root: bool, pattern: Seq<char>) -> Mined
    decreases s,
{
    match s {
        Stmt::ExprStmt(e) => mine_expr(*e, file, is_root, pattern),
        Stmt::ReturnStmt(arg) => match arg {
            Option::Some(e) => mine_expr(*e, file, is_root, pattern),
            Option::None => mined_empty(),
        },
        Stmt::IfStmt(test, consequent, alternate) => mined_add(
            mined_add(
                mine_expr(*test, file, is_root, pattern),
                mine_stmt(*consequent, file, is_root, pattern),
            ),
            match alternate {
                Option::Some(a) => mine_stmt(*a, file, is_root, pattern),
                Option::None => mined_empty(),
            },
        ),
        Stmt::BlockStmt(body) => mine_stmts(body@, file, is_root, pattern),
        Stmt::DeclStmt(d) => mine_decl(d, file, is_root, pattern),
        Stmt::ImportDecl(src) => Mined { imports: seq![src@], ..mined_empty() },
        Stmt::ExportNamed(d, src) => mined_add(
            match d {
                Option::Some(decl) => mine_decl(decl, file, is_root, pattern),
                Option::None => mined_empty(),
            },
            match src {
                Option::Some(source) => Mined { imports: seq![source@], ..mined_empty() },
                Option::None => mined_empty(),
            },
        ),
        Stmt::ExportAll(src) => Mined { imports: seq![src@], ..mined_empty() },
        Stmt::OtherStmt => mined_empty(),
    }
}

pub open spec fn mine_decl(d: Decl, file: Seq<char>, is_root: bool, pattern: Seq<char>) -> Mined
    decreases d,
{
    match d {
        Decl::InterfaceDecl(n) => Mined { interfaces: seq![interface_of(n, file)], ..mined_empty() },
        Decl::EnumDecl(n) => Mined { enums: seq![enum_of(n)], ..mined_empty() },
        Decl::FunctionDecl(body) => match body {
            Option::Some(ss) => mine_stmts(ss@, file, is_root, pattern),
            Option::None => mined_empty(),
        },
        Decl::ClassDecl(ms) => mine_members(ms@, file, is_root, pattern),
        Decl::VarDecl(inits) => mine_inits(inits@, file, is_root, pattern),
        Decl::OtherDecl => mined_empty(),
    }
}

pub open spec fn mine_members(ms: Seq<ClassMember>, file: Seq<char>, is_root: bool, pattern: Seq<char>) -> Mined
    decreases ms,
{
    if ms.len() == 0 {
        mined_empty()
    } else {
        mined_add(
            mine_members(ms.drop_last(), file, is_root, pattern),
            mine_member(ms.last(), file, is_root, pattern),
        )
    }
}

pub open spec fn mine_member(m: ClassMember, file: Seq<char>, is_root: bool, pattern: Seq<char>) -> Mined
    decreases m,
{
    match m {
        ClassMember::Method(body) => match body {
            Option::Some(ss) => mine_stmts(ss@, file, is_root, pattern),
            Option::None => mined_empty(),
        },
        ClassMember::PropertyDef(value) => match value {
            Option::Some(e) => mine_expr(*e, file, is_root, pattern),
            Option::None => mined_empty(),
        },
        ClassMember::OtherMember => mined_empty(),
    }
}

pub open spec fn mine_inits(inits: Seq<Option<Box<Expr>>>, file: Seq<char>, is_root: bool, pattern: Seq<char>) -> Mined
    decreases inits,
{
    if inits.len() == 0 {
        mined_empty()
    } else {
        mined_add(
            mine_inits(inits.drop_last(), file, is_root, pattern),
            mine_init(inits.last(), file, is_root, pattern),
        )
    }
}

pub open spec fn mine_init(init: Option<Box<Expr>>, file: Seq<char>, is_root: bool, pattern: Seq<char>) -> Mined
    decreases init,
{
    match init {
        Option::Some(e) => mine_expr(*e, file, is_root, pattern),
        Option::None => mined_empty(),
    }
}

pub open spec fn mine_args(args: Seq<ArgNode>, file: Seq<char>, is_root: bool, pattern: Seq<char>) -> Mined
    decreases args,
{
    if args.len() == 0 {
        mined_empty()
    } else {
        mined_add(
            mine_args(args.drop_last(), file, is_root, pattern),
            mine_arg(args.last(), file, is_root, pattern),
        )
    }
}

pub open spec fn mine_arg(a: ArgNode, file: Seq<char>, is_root: bool, pattern: Seq<char>) -> Mined
    decreases a,
{
    match a {
        ArgNode::Spread(e) => mine_expr(*e, file, is_root, pattern),
        ArgNode::Plain(e) => mine_expr(*e, file, is_root, pattern),
        ArgNode::OtherArg => mined_empty(),
    }
}

pub open spec fn mine_parts(parts: Seq<ObjectPart>, file: Seq<char>, is_root: bool, pattern: Seq<char>) -> Mined
    decreases parts,
{
    if parts.len() == 0 {
        mined_empty()
    } else {
        mined_add(
            mine_parts(parts.drop_last(), file, is_root, pattern),
            mine_part(parts.last(), file, is_root, pattern),
        )
    }
}

pub open spec fn mine_part(p: ObjectPart, file: Seq<char>, is_root: bool, pattern: Seq<char>) -> Mined
    decreases p,
{
    match p {
        ObjectPart::PropValue(e) => mine_expr(*e, file, is_root, pattern),
        ObjectPart::OtherPart => mined_empty(),
    }
}

pub open spec fn mine_expr(e: Expr, file: Seq<char>, is_root: bool, pattern: Seq<char>) -> Mined
    decreases e,
{
    match e {
        Expr::Ident(_) => mined_empty(),
        Expr::Call(callee, args) => mined_add(
            call_mined(*callee, is_root, pattern),
            mine_args(args@, file, is_root, pattern),
        ),
        Expr::FunctionExpr(body) => match body {
            Option::Some(ss) => mine_stmts(ss@, file, is_root, pattern),
            Option::None => mined_empty(),
        },
        Expr::ArrowExpr(body) => mine_stmts(body@, file, is_root, pattern),
        Expr::ObjectExpr(parts) => mine_parts(parts@, file, is_root, pattern),
        Expr::Unary(arg) => mine_expr(*arg, file, is_root, pattern),
        Expr::Binary(l, r) => mined_add(
            mine_expr(*l, file, is_root, pattern),
            mine_expr(*r, file, is_root, pattern),
        ),
        Expr::Logical(l, r) => mined_add(
            mine_expr(*l, file, is_root, pattern),
            mine_expr(*r, file, is_root, pattern),
        ),
        Expr::Member => mined_empty(),
        Expr::OtherExpr => mined_empty(),
    }
}

/// What one whole file contributes.
pub open spec fn mine_module(m: SourceModule, file: Seq<char>, is_root: bool, pattern: Seq<char>) -> Mined {
    mine_stmts(m.body@, file, is_root, pattern)
}

/// The accumulated result of walking files.
pub struct Extraction {
    pub interfaces: Vec<InterfaceInfo>,
    pub enums: Vec<(String, EnumInfo)>,
    pub invocations: Vec<ValidatorFunction>,
    pub imports: Vec<String>,
}

pub open spec fn out_view(e: Extraction) -> Mined {
    Mined {
        interfaces: ifaces_view(e.interfaces@),
        enums: enums_view(e.enums@),
        invocations: validators_view(e.invocations@),
        imports: strings_view(e.imports@),
    }
}

impl Extraction {
    pub fn new() -> (r: Extraction)
        ensures
            out_view(r) == mined_empty(),
    {
        let r = Extraction {
            interfaces: Vec::new(),
            enums: Vec::new(),
            invocations: Vec::new(),
            imports: Vec::new(),
        };
        proof {
            assert(out_view(r) =~~= mined_empty());
        }
        r
    }
}

/// Normalize one parsed type annotation.
pub fn normalize_type(n: &TypeNode) -> (r: TypeExpression)
    ensures
        r@ == norm_type(*n),
    decreases n,
{
    match n {
        TypeNode::StrKeyword => TypeExpression::Primitive(Primitive::Str),
        TypeNode::NumKeyword => TypeExpression::Primitive(Primitive::Num),
        TypeNode::BoolKeyword => TypeExpression::Primitive(Primitive::Bool),
        TypeNode::AnyKeyword => TypeExpression::Primitive(Primitive::Any),
        TypeNode::VoidKeyword => TypeExpression::Primitive(Primitive::Void),
        TypeNode::NullKeyword => TypeExpression::Primitive(Primitive::Null),
        TypeNode::UndefinedKeyword => TypeExpression::Primitive(Primitive::Undefined),
        TypeNode::ArrayType(t) => TypeExpression::ArrayOf(Box::new(normalize_type(&**t))),
        TypeNode::UnionType(ts) => TypeExpression::UnionOf(normalize_types(ts)),
        TypeNode::StrLiteral(s) => TypeExpression::LiteralStr(s.clone()),
        TypeNode::NumLiteral(v) => TypeExpression::LiteralNum(*v),
        TypeNode::BoolLiteral(b) => TypeExpression::LiteralBool(*b),
        TypeNode::OtherLiteral => TypeExpression::Unknown,
        TypeNode::RefNamed(name, args) => match args {
            Option::Some(ts) => TypeExpression::Reference(name.clone(), normalize_types(ts)),
            Option::None => {
                let r = TypeExpression::Reference(name.clone(), Vec::new());
                proof {
                    assert(types_view(Seq::<TypeExpression>::empty()) == Seq::<TypeExprV>::empty());
                }
                r
            },
        },
        TypeNode::RefOther => TypeExpression::Unknown,
        TypeNode::OtherType => TypeExpression::Unknown,
    }
}

pub fn normalize_types(v: &Vec<TypeNode>) -> (r: Vec<TypeExpression>)
    ensures
        types_view(r@) == norm_types(v@),
    decreases v@,
{
    let mut r: Vec<TypeExpression> = Vec::new();
    let mut i: usize = 0;
    proof {
        assert(types_view(r@) == Seq::<TypeExprV>::empty());
        assert(v@.take(0) =~= Seq::<TypeNode>::empty());
        assert(norm_types(v@.take(0)) == Seq::<TypeExprV>::empty());
    }
    while i < v.len()
        invariant
            i <= v.len(),
            types_view(r@) == norm_types(v@.take(i as int)),
        decreases v.len() - i,
    {
        proof {
            assert(decreases_to!(v@ => v@[i as int]));
        }
        let t = normalize_type(&v[i]);
        let ghost prev = r@;
        r.push(t);
        proof {
            lemma_types_view_push(prev, t);
            assert(v@.take(i + 1).drop_last() =~= v@.take(i as int));
            assert(v@.take(i + 1).last() == v@[i as int]);
            assert(norm_types(v@.take(i + 1)) == norm_types(v@.take(i as int)).push(
                norm_type(v@[i as int]),
            ));
        }
        i = i + 1;
    }
    proof {
        assert(v@.take(v.len() as int) =~= v@);
    }
    r
}

/// Build one interface declaration from its parsed node.
pub fn build_interface(n: &InterfaceNode, file: &str) -> (r: InterfaceInfo)
    ensures
        r@ == interface_of(*n, file@),
{
    let mut properties: Vec<PropertyInfo> = Vec::new();
    let mut i: usize = 0;
    proof {
        assert(n.members@.take(0) =~= Seq::<SigNode>::empty());
        assert(props_view(properties@) =~= props_of(n.members@.take(0)));
    }
    while i < n.members.len()
        invariant
            i <= n.members.len(),
            props_view(properties@) == props_of(n.members@.take(i as int)),
        decreases n.members.len() - i,
    {
        let ghost prev = properties@;
        match &n.members[i] {
            SigNode::Property(p) => match &p.key {
                Option::Some(k) => {
                    let ty = match &p.type_ann {
                        Option::Some(t) => normalize_type(t),
                        Option::None => TypeExpression::Primitive(Primitive::Any),
                    };
                    let info = PropertyInfo {
                        name: k.clone(),
                        type_annotation: ty,
                        optional: p.optional,
                    };
                    properties.push(info);
                },
                Option::None => {},
            },
            SigNode::OtherSig => {},
        }
        proof {
            assert(n.members@.take(i + 1).drop_last() =~= n.members@.take(i as int));
            assert(n.members@.take(i + 1).last() == n.members@[i as int]);
            assert(props_of(n.members@.take(i + 1)) == props_of(n.members@.take(i as int))
                + prop_of(n.members@[i as int]));
            assert(props_view(properties@) =~= props_of(n.members@.take(i + 1)));
        }
        i = i + 1;
    }
    proof {
        assert(n.members@.take(n.members.len() as int) =~= n.members@);
    }
    let r = InterfaceInfo { name: n.name.clone(), properties, file_path: file.to_owned() };
    proof {
        assert(r@ =~~= interface_of(*n, file@));
    }
    r
}

/// Build one enum declaration from its parsed node, resolving the
/// auto-increment counter.
pub fn build_enum(n: &EnumNode) -> (r: (String, EnumInfo))
    ensures
        r.0@ == n.name@,
        r.1@ == enum_members_of(n.members@, 0),
{
    let mut members: Vec<EnumMember> = Vec::new();
    let mut counter: i128 = 0;
    let mut i: usize = 0;
    proof {
        assert(n.members@.skip(0) =~= n.members@);
        assert(em_view(members@) =~= Seq::<EnumValueV>::empty());
    }
    while i < n.members.len()
        invariant
            i <= n.members.len(),
            i64::MIN < counter <= i64::MAX as i128 + 1 + i as i128,
            enum_members_of(n.members@, 0) == em_view(members@) + enum_members_of(
                n.members@.skip(i as int),
                counter as int,
            ),
        decreases n.members.len() - i,
    {
        let ghost rest = n.members@.skip(i as int);
        let ghost prev = members@;
        let ghost c0 = counter as int;
        proof {
            assert(rest.len() > 0);
            assert(rest[0] == n.members@[i as int]);
            assert(rest.skip(1) =~= n.members@.skip(i + 1));
        }
        let value = match &n.members[i].initializer {
            Option::Some(InitNode::NumInit(v)) => {
                counter = (*v as i128) + 1;
                EnumValue::Number(*v as i128)
            },
            Option::Some(InitNode::StrInit(s)) => EnumValue::Text(s.clone()),
            Option::Some(InitNode::OtherInit) => EnumValue::Computed,
            Option::None => {
                let c = counter;
                counter = counter + 1;
                EnumValue::Number(c)
            },
        };
        let m = EnumMember { value };
        members.push(m);
        proof {
            assert(em_view(members@) =~= em_view(prev).push(m@));
            assert(enum_members_of(rest, c0) == seq![m@] + enum_members_of(
                n.members@.skip(i + 1),
                counter as int,
            ));
            assert(em_view(prev) + (seq![m@] + enum_members_of(
                n.members@.skip(i + 1),
                counter as int,
            )) =~= (em_view(prev).push(m@)) + enum_members_of(
                n.members@.skip(i + 1),
                counter as int,
            ));
        }
        i = i + 1;
    }
    proof {
        assert(n.members@.skip(n.members.len() as int) =~= Seq::<EnumMemberNode>::empty());
        assert(enum_members_of(Seq::<EnumMemberNode>::empty(), counter as int)
            == Seq::<EnumValueV>::empty());
        assert(em_view(members@) + Seq::<EnumValueV>::empty() =~= em_view(members@));
    }
    let name = n.name.clone();
    (name, EnumInfo { members })
}

pub open spec fn em_view(s: Seq<EnumMember>) -> Seq<EnumValueV> {
    Seq::new(s.len(), |i: int| s[i]@)
}



pub fn extract_stmts(v: &Vec<Stmt>, file: &str, is_root: bool, pattern: &str, out: &mut Extraction)
    ensures
        out_view(*final(out)) == mined_add(out_view(*old(out)), mine_stmts(v@, file@, is_root, pattern@)),
    decreases v@,
{
    let ghost base = out_view(*out);
    let mut i: usize = 0;
    proof {
        assert(v@.take(0) =~= Seq::<Stmt>::empty());
        lemma_mined_add_empty(base);
    }
    while i < v.len()
        invariant
            i <= v.len(),
            out_view(*out) == mined_add(base, mine_stmts(v@.take(i as int), file@, is_root, pattern@)),
        decreases v.len() - i,
    {
        let ghost pre = mine_stmts(v@.take(i as int), file@, is_root, pattern@);
        proof {
            assert(decreases_to!(v@ => v@[i as int]));
        }
        extract_stmt(&v[i], file, is_root, pattern, out);
        proof {
            let si = v@[i as int];
            assert(v@.take(i + 1).drop_last() =~= v@.take(i as int));
            assert(v@.take(i + 1).last() == si);
            assert(mine_stmts(v@.take(i + 1), file@, is_root, pattern@) == mined_add(
                pre,
                mine_stmt(si, file@, is_root, pattern@),
            ));
            lemma_mined_add_assoc(base, pre, mine_stmt(si, file@, is_root, pattern@));
        }
        i = i + 1;
    }
    proof {
        assert(v@.take(v.len() as int) =~= v@);
    }
}

pub fn extract_members(v: &Vec<ClassMember>, file: &str, is_root: bool, pattern: &str, out: &mut Extraction)
    ensures
        out_view(*final(out)) == mined_add(out_view(*old(out)), mine_members(v@, file@, is_root, pattern@)),
    decreases v@,
{
    let ghost base = out_view(*out);
    let mut i: usize = 0;
    proof {
        assert(v@.take(0) =~= Seq::<ClassMember>::empty());
        lemma_mined_add_empty(base);
    }
    while i < v.len()
        invariant
            i <= v.len(),
            out_view(*out) == mined_add(base, mine_members(v@.take(i as int), file@, is_root, pattern@)),
        decreases v.len() - i,
    {
        let ghost pre = mine_members(v@.take(i as int), file@, is_root, pattern@);
        proof {
            assert(decreases_to!(v@ => v@[i as int]));
        }
        extract_member(&v[i], file, is_root, pattern, out);
        proof {
            let si = v@[i as int];
            assert(v@.take(i + 1).drop_last() =~= v@.take(i as int));
            assert(v@.take(i + 1).last() == si);
            assert(mine_members(v@.take(i + 1), file@, is_root, pattern@) == mined_add(
                pre,
                mine_member(si, file@, is_root, pattern@),
            ));
            lemma_mined_add_assoc(base, pre, mine_member(si, file@, is_root, pattern@));
        }
        i = i + 1;
    }
    proof {
        assert(v@.take(v.len() as int) =~= v@);
    }
}

pub fn extract_inits(v: &Vec<Option<Box<Expr>>>, file: &str, is_root: bool, pattern: &str, out: &mut Extraction)
    ensures
        out_view(*final(out)) == mined_add(out_view(*old(out)), mine_inits(v@, file@, is_root, pattern@)),
    decreases v@,
{
    let ghost base = out_view(*out);
    let mut i: usize = 0;
    proof {
        assert(v@.take(0) =~= Seq::<Option<Box<Expr>>>::empty());
        lemma_mined_add_empty(base);
    }
    while i < v.len()
        invariant
            i <= v.len(),
            out_view(*out) == mined_add(base, mine_inits(v@.take(i as int), file@, is_root, pattern@)),
        decreases v.len() - i,
    {
        let ghost pre = mine_inits(v@.take(i as int), file@, is_root, pattern@);
        proof {
            assert(decreases_to!(v@ => v@[i as int]));
        }
        extract_init(&v[i], file, is_root, pattern, out);
        proof {
            let si = v@[i as int];
            assert(v@.take(i + 1).drop_last() =~= v@.take(i as int));
            assert(v@.take(i + 1).last() == si);
            assert(mine_inits(v@.take(i + 1), file@, is_root, pattern@) == mined_add(
                pre,
                mine_init(si, file@, is_root, pattern@),
            ));
            lemma_mined_add_assoc(base, pre, mine_init(si, file@, is_root, pattern@));
        }
        i = i + 1;
    }
    proof {
        assert(v@.take(v.len() as int) =~= v@);
    }
}

pub fn extract_args(v: &Vec<ArgNode>, file: &str, is_root: bool, pattern: &str, out: &mut Extraction)
    ensures
        out_view(*final(out)) == mined_add(out_view(*old(out)), mine_args(v@, file@, is_root, pattern@)),
    decreases v@,
{
    let ghost base = out_view(*out);
    let mut i: usize = 0;
    proof {
        assert(v@.take(0) =~= Seq::<ArgNode>::empty());
        lemma_mined_add_empty(base);
    }
    while i < v.len()
        invariant
            i <= v.len(),
            out_view(*out) == mined_add(base, mine_args(v@.take(i as int), file@, is_root, pattern@)),
        decreases v.len() - i,
    {
        let ghost pre = mine_args(v@.take(i as int), file@, is_root, pattern@);
        proof {
            assert(decreases_to!(v@ => v@[i as int]));
        }
        extract_arg(&v[i], file, is_root, pattern, out);
        proof {
            let si = v@[i as int];
            assert(v@.take(i + 1).drop_last() =~= v@.take(i as int));
            assert(v@.take(i + 1).last() == si);
            assert(mine_args(v@.take(i + 1), file@, is_root, pattern@) == mined_add(
                pre,
                mine_arg(si, file@, is_root, pattern@),
            ));
            lemma_mined_add_assoc(base, pre, mine_arg(si, file@, is_root, pattern@));
        }
        i = i + 1;
    }
    proof {
        assert(v@.take(v.len() as int) =~= v@);
    }
}

pub fn extract_parts(v: &Vec<ObjectPart>, file: &str, is_root: bool, pattern: &str, out: &mut Extraction)
    ensures
        out_view(*final(out)) == mined_add(out_view(*old(out)), mine_parts(v@, file@, is_root, pattern@)),
    decreases v@,
{
    let ghost base = out_view(*out);
    let mut i: usize = 0;
    proof {
        assert(v@.take(0) =~= Seq::<ObjectPart>::empty());
        lemma_mined_add_empty(base);
    }
    while i < v.len()
        invariant
            i <= v.len(),
            out_view(*out) == mined_add(base, mine_parts(v@.take(i as int), file@, is_root, pattern@)),
        decreases v.len() - i,
    {
        let ghost pre = mine_parts(v@.take(i as int), file@, is_root, pattern@);
        proof {
            assert(decreases_to!(v@ => v@[i as int]));
        }
        extract_part(&v[i], file, is_root, pattern, out);
        proof {
            let si = v@[i as int];
            assert(v@.take(i + 1).drop_last() =~= v@.take(i as int));
            assert(v@.take(i + 1).last() == si);
            assert(mine_parts(v@.take(i + 1), file@, is_root, pattern@) == mined_add(
                pre,
                mine_part(si, file@, is_root, pattern@),
            ));
            lemma_mined_add_assoc(base, pre, mine_part(si, file@, is_root, pattern@));
        }
        i = i + 1;
    }
    proof {
        assert(v@.take(v.len() as int) =~= v@);
    }
}

pub fn extract_member(m: &ClassMember, file: &str, is_root: bool, pattern: &str, out: &mut Extraction)
    ensures
        out_view(*final(out)) == mined_add(out_view(*old(out)), mine_member(*m, file@, is_root, pattern@)),
    decreases m,
{
    let ghost base = out_view(*out);
    match m {
        ClassMember::Method(body) => match body {
            Option::Some(ss) => {
                extract_stmts(ss, file, is_root, pattern, out);
            },
            Option::None => {
                proof {
                    lemma_mined_add_empty(base);
                }
            },
        },
        ClassMember::PropertyDef(value) => match value {
            Option::Some(e) => {
                extract_expr(&**e, file, is_root, pattern, out);
            },
            Option::None => {
                proof {
                    lemma_mined_add_empty(base);
                }
            },
        },
        ClassMember::OtherMember => {
            proof {
                lemma_mined_add_empty(base);
            }
        },
    }
}

pub fn extract_init(init: &Option<Box<Expr>>, file: &str, is_root: bool, pattern: &str, out: &mut Extraction)
    ensures
        out_view(*final(out)) == mined_add(out_view(*old(out)), mine_init(*init, file@, is_root, pattern@)),
    decreases init,
{
    let ghost base = out_view(*out);
    match init {
        Option::Some(e) => {
            extract_expr(&**e, file, is_root, pattern, out);
        },
        Option::None => {
            proof {
                lemma_mined_add_empty(base);
            }
        },
    }
}

pub fn extract_arg(a: &ArgNode, file: &str, is_root: bool, pattern: &str, out: &mut Extraction)
    ensures
        out_view(*final(out)) == mined_add(out_view(*old(out)), mine_arg(*a, file@, is_root, pattern@)),
    decreases a,
{
    let ghost base = out_view(*out);
    match a {
        ArgNode::Spread(e) => {
            extract_expr(&**e, file, is_root, pattern, out);
        },
        ArgNode::Plain(e) => {
            extract_expr(&**e, file, is_root, pattern, out);
        },
        ArgNode::OtherArg => {
            proof {
                lemma_mined_add_empty(base);
            }
        },
    }
}

pub fn extract_part(p: &ObjectPart, file: &str, is_root: bool, pattern: &str, out: &mut Extraction)
    ensures
        out_view(*final(out)) == mined_add(out_view(*old(out)), mine_part(*p, file@, is_root, pattern@)),
    decreases p,
{
    let ghost base = out_view(*out);
    match p {
        ObjectPart::PropValue(e) => {
            extract_expr(&**e, file, is_root, pattern, out);
        },
        ObjectPart::OtherPart => {
            proof {
                lemma_mined_add_empty(base);
            }
        },
    }
}

pub fn extract_decl(d: &Decl, file: &str, is_root: bool, pattern: &str, out: &mut Extraction)
    ensures
        out_view(*final(out)) == mined_add(out_view(*old(out)), mine_decl(*d, file@, is_root, pattern@)),
    decreases d,
{
    let ghost base = out_view(*out);
    match d {
        Decl::InterfaceDecl(n) => {
            let info = build_interface(n, file);
            out.interfaces.push(info);
            proof {
                assert(out_view(*out) =~~= mined_add(base, mine_decl(*d, file@, is_root, pattern@)));
            }
        },
        Decl::EnumDecl(n) => {
            let e = build_enum(n);
            out.enums.push(e);
            proof {
                assert(out_view(*out) =~~= mined_add(base, mine_decl(*d, file@, is_root, pattern@)));
            }
        },
        Decl::FunctionDecl(body) => match body {
            Option::Some(ss) => {
                extract_stmts(ss, file, is_root, pattern, out);
            },
            Option::None => {
                proof {
                    lemma_mined_add_empty(base);
                }
            },
        },
        Decl::ClassDecl(ms) => {
            extract_members(ms, file, is_root, pattern, out);
        },
        Decl::VarDecl(inits) => {
            extract_inits(inits, file, is_root, pattern, out);
        },
        Decl::OtherDecl => {
            proof {
                lemma_mined_add_empty(base);
            }
        },
    }
}

pub fn extract_expr(e: &Expr, file: &str, is_root: bool, pattern: &str, out: &mut Extraction)
    ensures
        out_view(*final(out)) == mined_add(out_view(*old(out)), mine_expr(*e, file@, is_root, pattern@)),
    decreases e,
{
    let ghost base = out_view(*out);
    match e {
        Expr::Ident(_) => {
            proof {
                lemma_mined_add_empty(base);
            }
        },
        Expr::Call(callee, args) => {
            let ghost cm = call_mined(**callee, is_root, pattern@);
            match &**callee {
                Expr::Ident(name) => {
                    match capture_first(pattern, name.as_str()) {
                        Option::Some(iface) => {
                            if is_root {
                                let vf = ValidatorFunction {
                                    name: name.clone(),
                                    interface_name: iface,
                                };
                                out.invocations.push(vf);
                                proof {
                                    assert(out_view(*out) =~~= mined_add(base, cm));
                                }
                            } else {
                                proof {
                                    lemma_mined_add_empty(base);
                                    assert(cm == mined_empty());
                                }
                            }
                        },
                        Option::None => {
                            proof {
                                lemma_mined_add_empty(base);
                                assert(cm == mined_empty());
                            }
                        },
                    }
                },
                _ => {
                    proof {
                        lemma_mined_add_empty(base);
                        assert(cm == mined_empty());
                    }
                },
            }
            proof {
                assert(out_view(*out) == mined_add(base, cm));
            }
            extract_args(args, file, is_root, pattern, out);
            proof {
                lemma_mined_add_assoc(base, cm, mine_args(args@, file@, is_root, pattern@));
            }
        },
        Expr::FunctionExpr(body) => match body {
            Option::Some(ss) => {
                extract_stmts(ss, file, is_root, pattern, out);
            },
            Option::None => {
                proof {
                    lemma_mined_add_empty(base);
                }
            },
        },
        Expr::ArrowExpr(body) => {
            extract_stmts(body, file, is_root, pattern, out);
        },
        Expr::ObjectExpr(parts) => {
            extract_parts(parts, file, is_root, pattern, out);
        },
        Expr::Unary(arg) => {
            extract_expr(&**arg, file, is_root, pattern, out);
        },
        Expr::Binary(l, r) => {
            let ghost a = mine_expr(**l, file@, is_root, pattern@);
            let ghost b = mine_expr(**r, file@, is_root, pattern@);
            extract_expr(&**l, file, is_root, pattern, out);
            extract_expr(&**r, file, is_root, pattern, out);
            proof {
                lemma_mined_add_assoc(base, a, b);
            }
        },
        Expr::Logical(l, r) => {
            let ghost a = mine_expr(**l, file@, is_root, pattern@);
            let ghost b = mine_expr(**r, file@, is_root, pattern@);
            extract_expr(&**l, file, is_root, pattern, out);
            extract_expr(&**r, file, is_root, pattern, out);
            proof {
                lemma_mined_add_assoc(base, a, b);
            }
        },
        Expr::Member => {
            proof {
                lemma_mined_add_empty(base);
            }
        },
        Expr::OtherExpr => {
            proof {
                lemma_mined_add_empty(base);
            }
        },
    }
}

pub fn extract_stmt(s: &Stmt, file: &str, is_root: bool, pattern: &str, out: &mut Extraction)
    ensures
        out_view(*final(out)) == mined_add(out_view(*old(out)), mine_stmt(*s, file@, is_root, pattern@)),
    decreases s,
{
    let ghost base = out_view(*out);
    match s {
        Stmt::ExprStmt(e) => {
            extract_expr(&**e, file, is_root, pattern, out);
        },
        Stmt::ReturnStmt(arg) => match arg {
            Option::Some(e) => {
                extract_expr(&**e, file, is_root, pattern, out);
            },
            Option::None => {
                proof {
                    lemma_mined_add_empty(base);
                }
            },
        },
        Stmt::IfStmt(test, consequent, alternate) => {
            let ghost a = mine_expr(**test, file@, is_root, pattern@);
            let ghost b = mine_stmt(**consequent, file@, is_root, pattern@);
            extract_expr(&**test, file, is_root, pattern, out);
            extract_stmt(&**consequent, file, is_root, pattern, out);
            proof {
                lemma_mined_add_assoc(base, a, b);
            }
            match alternate {
                Option::Some(alt) => {
                    extract_stmt(&**alt, file, is_root, pattern, out);
                    proof {
                        lemma_mined_add_assoc(
                            base,
                            mined_add(a, b),
                            mine_stmt(**alt, file@, is_root, pattern@),
                        );
                    }
                },
                Option::None => {
                    proof {
                        lemma_mined_add_empty(mined_add(a, b));
                    }
                },
            }
        },
        Stmt::BlockStmt(body) => {
            extract_stmts(body, file, is_root, pattern, out);
        },
        Stmt::DeclStmt(d) => {
            extract_decl(d, file, is_root, pattern, out);
        },
        Stmt::ImportDecl(src) => {
            out.imports.push(src.clone());
            proof {
                assert(out_view(*out) =~~= mined_add(base, mine_stmt(*s, file@, is_root, pattern@)));
            }
        },
        Stmt::ExportNamed(d, src) => {
            let ghost a = if d is Some {
                mine_decl(d->Some_0, file@, is_root, pattern@)
            } else {
                mined_empty()
            };
            match d {
                Option::Some(decl) => {
                    extract_decl(decl, file, is_root, pattern, out);
                },
                Option::None => {
                    proof {
                        lemma_mined_add_empty(base);
                    }
                },
            }
            let ghost mid = out_view(*out);
            match src {
                Option::Some(source) => {
                    out.imports.push(source.clone());
                    proof {
                        assert(out_view(*out) =~~= mined_add(
                            mid,
                            (Mined { imports: seq![source@], ..mined_empty() }),
                        ));
                        lemma_mined_add_assoc(
                            base,
                            a,
                            (Mined { imports: seq![source@], ..mined_empty() }),
                        );
                    }
                },
                Option::None => {
                    proof {
                        lemma_mined_add_empty(a);
                        lemma_mined_add_empty(base);
                    }
                },
            }
        },
        Stmt::ExportAll(src) => {
            out.imports.push(src.clone());
            proof {
                assert(out_view(*out) =~~= mined_add(base, mine_stmt(*s, file@, is_root, pattern@)));
            }
        },
        Stmt::OtherStmt => {
            proof {
                lemma_mined_add_empty(base);
            }
        },
    }
}

/// Walk one parsed file: collect its interface and enum declarations,
/// the validator invocations of a root file, and its import
/// specifiers.
pub fn extract(module: &SourceModule, file_path: &str, is_root: bool, pattern: &str) -> (r: Extraction)
    ensures
        out_view(r) == mine_module(*module, file_path@, is_root, pattern@),
        !is_root ==> out_view(r).invocations == Seq::<ValidatorV>::empty(),
{
    let mut out = Extraction::new();
    extract_stmts(&module.body, file_path, is_root, pattern, &mut out);
    proof {
        lemma_mined_add_empty(mine_stmts(module.body@, file_path@, is_root, pattern@));
        if !is_root {
            lemma_root_only_stmts(module.body@, file_path@, pattern@);
        }
    }
    out
}

/// Root-only invocation capture: a walk of a non-root file records no
/// validator invocations, whatever the file holds.
pub proof fn lemma_root_only_stmts(ss: Seq<Stmt>, file: Seq<char>, pattern: Seq<char>)
    ensures
        mine_stmts(ss, file, false, pattern).invocations == Seq::<ValidatorV>::empty(),
    decreases ss,
{
    if ss.len() > 0 {
        lemma_root_only_stmts(ss.drop_last(), file, pattern);
        lemma_root_only_stmt(ss.last(), file, pattern);
        assert(mine_stmts(ss, file, false, pattern).invocations =~= Seq::<ValidatorV>::empty());
    } else {
        assert(mine_stmts(ss, file, false, pattern).invocations =~= Seq::<ValidatorV>::empty());
    }
}

pub proof fn lemma_root_only_stmt(s: Stmt, file: Seq<char>, pattern: Seq<char>)
    ensures
        mine_stmt(s, file, false, pattern).invocations == Seq::<ValidatorV>::empty(),
    decreases s,
{
    match s {
        Stmt::ExprStmt(e) => {
            lemma_root_only_expr(*e, file, pattern);
        },
        Stmt::ReturnStmt(arg) => {
            if arg is Some {
                lemma_root_only_expr(*arg->Some_0, file, pattern);
            }
        },
        Stmt::IfStmt(test, consequent, alternate) => {
            lemma_root_only_expr(*test, file, pattern);
            lemma_root_only_stmt(*consequent, file, pattern);
            if alternate is Some {
                lemma_root_only_stmt(*alternate->Some_0, file, pattern);
            }
            assert(mine_stmt(s, file, false, pattern).invocations =~= Seq::<ValidatorV>::empty());
        },
        Stmt::BlockStmt(body) => {
            lemma_root_only_stmts(body@, file, pattern);
        },
        Stmt::DeclStmt(d) => {
            lemma_root_only_decl(d, file, pattern);
        },
        Stmt::ExportNamed(d, src) => {
            if d is Some {
                lemma_root_only_decl(d->Some_0, file, pattern);
            }
            assert(mine_stmt(s, file, false, pattern).invocations =~= Seq::<ValidatorV>::empty());
        },
        _ => {},
    }
}

pub proof fn lemma_root_only_decl(d: Decl, file: Seq<char>, pattern: Seq<char>)
    ensures
        mine_decl(d, file, false, pattern).invocations == Seq::<ValidatorV>::empty(),
    decreases d,
{
    match d {
        Decl::FunctionDecl(body) => {
            if body is Some {
                lemma_root_only_stmts(body->Some_0@, file, pattern);
            }
        },
        Decl::ClassDecl(ms) => {
            lemma_root_only_members(ms@, file, pattern);
        },
        Decl::VarDecl(inits) => {
            lemma_root_only_inits(inits@, file, pattern);
        },
        _ => {},
    }
}

pub proof fn lemma_root_only_members(ms: Seq<ClassMember>, file: Seq<char>, pattern: Seq<char>)
    ensures
        mine_members(ms, file, false, pattern).invocations == Seq::<ValidatorV>::empty(),
    decreases ms,
{
    if ms.len() > 0 {
        lemma_root_only_members(ms.drop_last(), file, pattern);
        lemma_root_only_member(ms.last(), file, pattern);
        assert(mine_members(ms, file, false, pattern).invocations =~= Seq::<ValidatorV>::empty());
    }
}

pub proof fn lemma_root_only_member(m: ClassMember, file: Seq<char>, pattern: Seq<char>)
    ensures
        mine_member(m, file, false, pattern).invocations == Seq::<ValidatorV>::empty(),
    decreases m,
{
    match m {
        ClassMember::Method(body) => {
            if body is Some {
                lemma_root_only_stmts(body->Some_0@, file, pattern);
            }
        },
        ClassMember::PropertyDef(value) => {
            if value is Some {
                lemma_root_only_expr(*value->Some_0, file, pattern);
            }
        },
        ClassMember::OtherMember => {},
    }
}

pub proof fn lemma_root_only_inits(inits: Seq<Option<Box<Expr>>>, file: Seq<char>, pattern: Seq<char>)
    ensures
        mine_inits(inits, file, false, pattern).invocations == Seq::<ValidatorV>::empty(),
    decreases inits,
{
    if inits.len() > 0 {
        lemma_root_only_inits(inits.drop_last(), file, pattern);
        lemma_root_only_init(inits.last(), file, pattern);
        assert(mine_inits(inits, file, false, pattern).invocations =~= Seq::<ValidatorV>::empty());
    }
}

pub proof fn lemma_root_only_init(init: Option<Box<Expr>>, file: Seq<char>, pattern: Seq<char>)
    ensures
        mine_init(init, file, false, pattern).invocations == Seq::<ValidatorV>::empty(),
    decreases init,
{
    match init {
        Option::Some(e) => {
            lemma_root_only_expr(*e, file, pattern);
        },
        Option::None => {},
    }
}

pub proof fn lemma_root_only_args(args: Seq<ArgNode>, file: Seq<char>, pattern: Seq<char>)
    ensures
        mine_args(args, file, false, pattern).invocations == Seq::<ValidatorV>::empty(),
    decreases args,
{
    if args.len() > 0 {
        lemma_root_only_args(args.drop_last(), file, pattern);
        lemma_root_only_arg(args.last(), file, pattern);
        assert(mine_args(args, file, false, pattern).invocations =~= Seq::<ValidatorV>::empty());
    }
}

pub proof fn lemma_root_only_arg(a: ArgNode, file: Seq<char>, pattern: Seq<char>)
    ensures
        mine_arg(a, file, false, pattern).invocations == Seq::<ValidatorV>::empty(),
    decreases a,
{
    match a {
        ArgNode::Spread(e) => {
            lemma_root_only_expr(*e, file, pattern);
        },
        ArgNode::Plain(e) => {
            lemma_root_only_expr(*e, file, pattern);
        },
        ArgNode::OtherArg => {},
    }
}

pub proof fn lemma_root_only_parts(parts: Seq<ObjectPart>, file: Seq<char>, pattern: Seq<char>)
    ensures
        mine_parts(parts, file, false, pattern).invocations == Seq::<ValidatorV>::empty(),
    decreases parts,
{
    if parts.len() > 0 {
        lemma_root_only_parts(parts.drop_last(), file, pattern);
        lemma_root_only_part(parts.last(), file, pattern);
        assert(mine_parts(parts, file, false, pattern).invocations =~= Seq::<ValidatorV>::empty());
    }
}

pub proof fn lemma_root_only_part(p: ObjectPart, file: Seq<char>, pattern: Seq<char>)
    ensures
        mine_part(p, file, false, pattern).invocations == Seq::<ValidatorV>::empty(),
    decreases p,
{
    match p {
        ObjectPart::PropValue(e) => {
            lemma_root_only_expr(*e, file, pattern);
        },
        ObjectPart::OtherPart => {},
    }
}

pub proof fn lemma_root_only_expr(e: Expr, file: Seq<char>, pattern: Seq<char>)
    ensures
        mine_expr(e, file, false, pattern).invocations == Seq::<ValidatorV>::empty(),
    decreases e,
{
    match e {
        Expr::Call(callee, args) => {
            lemma_root_only_args(args@, file, pattern);
            assert(call_mined(*callee, false, pattern).invocations =~= Seq::<ValidatorV>::empty());
            assert(mine_expr(e, file, false, pattern).invocations =~= Seq::<ValidatorV>::empty());
        },
        Expr::FunctionExpr(body) => {
            if body is Some {
                lemma_root_only_stmts(body->Some_0@, file, pattern);
            }
        },
        Expr::ArrowExpr(body) => {
            lemma_root_only_stmts(body@, file, pattern);
        },
        Expr::ObjectExpr(parts) => {
            lemma_root_only_parts(parts@, file, pattern);
        },
        Expr::Unary(arg) => {
            lemma_root_only_expr(*arg, file, pattern);
        },
        Expr::Binary(l, r) => {
            lemma_root_only_expr(*l, file, pattern);
            lemma_root_only_expr(*r, file, pattern);
            assert(mine_expr(e, file, false, pattern).invocations =~= Seq::<ValidatorV>::empty());
        },
        Expr::Logical(l, r) => {
            lemma_root_only_expr(*l, file, pattern);
            lemma_root_only_expr(*r, file, pattern);
            assert(mine_expr(e, file, false, pattern).invocations =~= Seq::<ValidatorV>::empty());
        },
        _ => {},
    }
}

} // verus!
