//! The data model: type expressions, interface and enum declarations,
//! and recorded validator invocations, with their mathematical views.

use vstd::prelude::*;

verus! {

broadcast use vstd::seq::group_seq_axioms, vstd::std_specs::vec::group_vec_axioms;

/// A primitive type keyword.
#[derive(Clone, Copy, PartialEq, Eq, Structural)]
pub enum Primitive {
    Str,
    Num,
    Bool,
    Any,
    Void,
    Null,
    Undefined,
}

/// A normalized type annotation.
pub enum TypeExpression {
    Primitive(Primitive),
    ArrayOf(Box<TypeExpression>),
    UnionOf(Vec<TypeExpression>),
    LiteralStr(String),
    LiteralNum(i64),
    LiteralBool(bool),
    Reference(String, Vec<TypeExpression>),
    Unknown,
}

/// Mathematical view of [`TypeExpression`].
pub enum TypeExprV {
    Primitive(Primitive),
    ArrayOf(Box<TypeExprV>),
    UnionOf(Seq<TypeExprV>),
    LiteralStr(Seq<char>),
    LiteralNum(int),
    LiteralBool(bool),
    Reference(Seq<char>, Seq<TypeExprV>),
    Unknown,
}

pub open spec fn types_view(s: Seq<TypeExpression>) -> Seq<TypeExprV>
    decreases s,
{
    if s.len() == 0 {
        Seq::<TypeExprV>::empty()
    } else {
        types_view(s.drop_last()).push(s.last()@)
    }
}

impl View for TypeExpression {
    type V = TypeExprV;

    open spec fn view(&self) -> TypeExprV
        decreases self,
    {
        match self {
            TypeExpression::Primitive(p) => TypeExprV::Primitive(*p),
            TypeExpression::ArrayOf(t) => TypeExprV::ArrayOf(Box::new((**t)@)),
            TypeExpression::UnionOf(ts) => TypeExprV::UnionOf(types_view(ts@)),
            TypeExpression::LiteralStr(s) => TypeExprV::LiteralStr(s@),
            TypeExpression::LiteralNum(n) => TypeExprV::LiteralNum(*n as int),
            TypeExpression::LiteralBool(b) => TypeExprV::LiteralBool(*b),
            TypeExpression::Reference(n, ts) => TypeExprV::Reference(n@, types_view(ts@)),
            TypeExpression::Unknown => TypeExprV::Unknown,
        }
    }
}

pub proof fn lemma_types_view_len(s: Seq<TypeExpression>)
    ensures
        types_view(s).len() == s.len(),
    decreases s,
{
    if s.len() > 0 {
        lemma_types_view_len(s.drop_last());
        assert(types_view(s) == types_view(s.drop_last()).push(s.last()@));
    } else {
        assert(types_view(s) == Seq::<TypeExprV>::empty());
    }
}

pub proof fn lemma_types_view_index(s: Seq<TypeExpression>, i: int)
    requires
        0 <= i < s.len(),
    ensures
        types_view(s)[i] == s[i]@,
    decreases s,
{
    lemma_types_view_len(s.drop_last());
    assert(types_view(s) == types_view(s.drop_last()).push(s.last()@));
    if i < s.len() - 1 {
        lemma_types_view_index(s.drop_last(), i);
        assert(types_view(s)[i] == types_view(s.drop_last())[i]);
    } else {
        assert(types_view(s)[i] == s.last()@);
        assert(s.last() == s[i]);
    }
}

pub proof fn lemma_types_view_push(s: Seq<TypeExpression>, t: TypeExpression)
    ensures
        types_view(s.push(t)) == types_view(s).push(t@),
{
    assert(s.push(t).drop_last() =~= s);
    assert(s.push(t).last() == t);
    assert(types_view(s.push(t)) == types_view(s.push(t).drop_last()).push(s.push(t).last()@));
}

/// One declared interface property.
pub struct PropertyInfo {
    pub name: String,
    pub type_annotation: TypeExpression,
    pub optional: bool,
}

pub struct PropertyV {
    pub name: Seq<char>,
    pub type_annotation: TypeExprV,
    pub optional: bool,
}

impl View for PropertyInfo {
    type V = PropertyV;

    open spec fn view(&self) -> PropertyV {
        PropertyV {
            name: self.name@,
            type_annotation: self.type_annotation@,
            optional: self.optional,
        }
    }
}

pub open spec fn props_view(s: Seq<PropertyInfo>) -> Seq<PropertyV> {
    Seq::new(s.len(), |i: int| s[i]@)
}

/// One declared interface: its name, its properties in declaration
/// order, and the path of the file that declared it.
pub struct InterfaceInfo {
    pub name: String,
    pub properties: Vec<PropertyInfo>,
    pub file_path: String,
}

#[verifier::ext_equal]
pub struct InterfaceV {
    pub name: Seq<char>,
    pub properties: Seq<PropertyV>,
    pub file_path: Seq<char>,
}

impl View for InterfaceInfo {
    type V = InterfaceV;

    open spec fn view(&self) -> InterfaceV {
        InterfaceV {
            name: self.name@,
            properties: props_view(self.properties@),
            file_path: self.file_path@,
        }
    }
}

pub open spec fn ifaces_view(s: Seq<InterfaceInfo>) -> Seq<InterfaceV> {
    Seq::new(s.len(), |i: int| s[i]@)
}

/// The resolved value of one enum member.
pub enum EnumValue {
    Text(String),
    Number(i128),
    Computed,
}

pub enum EnumValueV {
    Text(Seq<char>),
    Number(int),
    Computed,
}

impl View for EnumValue {
    type V = EnumValueV;

    open spec fn view(&self) -> EnumValueV {
        match self {
            EnumValue::Text(s) => EnumValueV::Text(s@),
            EnumValue::Number(n) => EnumValueV::Number(*n as int),
            EnumValue::Computed => EnumValueV::Computed,
        }
    }
}

/// One enum member.
pub struct EnumMember {
    pub value: EnumValue,
}

impl View for EnumMember {
    type V = EnumValueV;

    open spec fn view(&self) -> EnumValueV {
        self.value@
    }
}

/// One declared enum: its members in declaration order.
pub struct EnumInfo {
    pub members: Vec<EnumMember>,
}

impl View for EnumInfo {
    type V = Seq<EnumValueV>;

    open spec fn view(&self) -> Seq<EnumValueV> {
        Seq::new(self.members@.len(), |i: int| self.members@[i]@)
    }
}

pub open spec fn enums_view(s: Seq<(String, EnumInfo)>) -> Seq<(Seq<char>, Seq<EnumValueV>)> {
    Seq::new(s.len(), |i: int| (s[i].0@, s[i].1@))
}

/// One recorded validator invocation: the called function's name and
/// the interface name its pattern match captured.
pub struct ValidatorFunction {
    pub name: String,
    pub interface_name: String,
}

#[verifier::ext_equal]
pub struct ValidatorV {
    pub name: Seq<char>,
    pub interface_name: Seq<char>,
}

impl View for ValidatorFunction {
    type V = ValidatorV;

    open spec fn view(&self) -> ValidatorV {
        ValidatorV { name: self.name@, interface_name: self.interface_name@ }
    }
}

pub open spec fn validators_view(s: Seq<ValidatorFunction>) -> Seq<ValidatorV> {
    Seq::new(s.len(), |i: int| s[i]@)
}

pub open spec fn strings_view(s: Seq<String>) -> Seq<Seq<char>> {
    Seq::new(s.len(), |i: int| s[i]@)
}

impl ValidatorFunction {
    /// An equal-valued copy.
    pub fn duplicate(&self) -> (r: ValidatorFunction)
        ensures
            r@ == self@,
    {
        ValidatorFunction { name: self.name.clone(), interface_name: self.interface_name.clone() }
    }
}

} // verus!
