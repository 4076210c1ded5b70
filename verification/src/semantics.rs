//! The meaning of the emitted guards, stated over modeled runtime
//! values. Each clause mirrors the corresponding guard text: what
//! `typeof` tests, strict equality, element-wise array checks, union
//! alternatives, enum membership, and cross-interface delegation
//! (bounded by fuel, as a run of mutually recursive validators is).

use vstd::prelude::*;

use crate::decl::{EnumValueV, InterfaceV, Primitive, PropertyV, TypeExprV};

verus! {

/// A modeled runtime value.
pub enum JsValueV {
    Undef,
    Null,
    Bool(bool),
    Num(int),
    Str(Seq<char>),
    Arr(Seq<JsValueV>),
    Obj(Seq<(Seq<char>, JsValueV)>),
}

pub open spec fn obj_has_key(obj: Seq<(Seq<char>, JsValueV)>, k: Seq<char>) -> bool {
    exists|i: int| 0 <= i < obj.len() && obj[i].0 == k
}

/// The value of the first property named `k`.
pub open spec fn obj_lookup(obj: Seq<(Seq<char>, JsValueV)>, k: Seq<char>) -> JsValueV
    decreases obj,
{
    if obj.len() == 0 {
        JsValueV::Undef
    } else if obj[0].0 == k {
        obj[0].1
    } else {
        obj_lookup(obj.skip(1), k)
    }
}

/// Membership among an enum's usable discriminants; `Computed`
/// members admit nothing.
pub open spec fn enum_accepts(ds: Seq<EnumValueV>, v: JsValueV) -> bool {
    exists|i: int|
        0 <= i < ds.len() && match #[trigger] ds[i] {
            EnumValueV::Text(s) => v == JsValueV::Str(s),
            EnumValueV::Number(n) => v == JsValueV::Num(n),
            EnumValueV::Computed => false,
        }
}


/// Structural size of a type expression, for termination measures.
pub open spec fn type_size(t: TypeExprV) -> nat
    decreases t,
{
    match t {
        TypeExprV::ArrayOf(t2) => 1 + type_size(*t2),
        TypeExprV::UnionOf(ts) => 1 + type_list_size(ts),
        _ => 1,
    }
}

pub open spec fn type_list_size(ts: Seq<TypeExprV>) -> nat
    decreases ts,
{
    if ts.len() == 0 {
        0
    } else {
        type_list_size(ts.drop_last()) + type_size(ts.last()) + 1
    }
}

pub open spec fn props_size(ps: Seq<PropertyV>) -> nat
    decreases ps,
{
    if ps.len() == 0 {
        0
    } else {
        props_size(ps.drop_last()) + type_size(ps.last().type_annotation) + 1
    }
}

pub open spec fn type_accepts(
    t: TypeExprV,
    v: JsValueV,
    im: Map<Seq<char>, InterfaceV>,
    em: Map<Seq<char>, Seq<EnumValueV>>,
    fuel: nat,
) -> bool
    decreases fuel, type_size(t), 0int,
{
    match t {
        TypeExprV::Primitive(p) => match p {
            Primitive::Str => v is Str,
            Primitive::Num => v is Num,
            Primitive::Bool => v is Bool,
            Primitive::Any => true,
            Primitive::Void => v is Undef,
            Primitive::Null => v is Null,
            Primitive::Undefined => v is Undef,
        },
        TypeExprV::ArrayOf(t2) => v is Arr && all_elems_accept(*t2, v->Arr_0, im, em, fuel),
        TypeExprV::UnionOf(ts) => any_union_accepts(ts, v, im, em, fuel),
        TypeExprV::LiteralStr(s) => v == JsValueV::Str(s),
        TypeExprV::LiteralNum(n) => v == JsValueV::Num(n),
        TypeExprV::LiteralBool(b) => v == JsValueV::Bool(b),
        TypeExprV::Reference(name, _) => {
            if im.contains_key(name) {
                if fuel == 0 {
                    false
                } else {
                    iface_accepts(im[name], v, im, em, (fuel - 1) as nat)
                }
            } else if em.contains_key(name) {
                enum_accepts(em[name], v)
            } else {
                true
            }
        },
        TypeExprV::Unknown => true,
    }
}

pub open spec fn all_elems_accept(
    t: TypeExprV,
    elems: Seq<JsValueV>,
    im: Map<Seq<char>, InterfaceV>,
    em: Map<Seq<char>, Seq<EnumValueV>>,
    fuel: nat,
) -> bool
    decreases fuel, type_size(t), elems.len() + 1,
{
    if elems.len() == 0 {
        true
    } else {
        all_elems_accept(t, elems.drop_last(), im, em, fuel) && type_accepts(
            t,
            elems.last(),
            im,
            em,
            fuel,
        )
    }
}

pub open spec fn any_union_accepts(
    ts: Seq<TypeExprV>,
    v: JsValueV,
    im: Map<Seq<char>, InterfaceV>,
    em: Map<Seq<char>, Seq<EnumValueV>>,
    fuel: nat,
) -> bool
    decreases fuel, type_list_size(ts), 0int,
{
    if ts.len() == 0 {
        false
    } else {
        any_union_accepts(ts.drop_last(), v, im, em, fuel) || type_accepts(
            ts.last(),
            v,
            im,
            em,
            fuel,
        )
    }
}

/// One property's check: a present property must satisfy its type
/// guard; an absent one passes exactly when it is optional.
pub open spec fn prop_accepts(
    p: PropertyV,
    obj: Seq<(Seq<char>, JsValueV)>,
    im: Map<Seq<char>, InterfaceV>,
    em: Map<Seq<char>, Seq<EnumValueV>>,
    fuel: nat,
) -> bool
    decreases fuel, type_size(p.type_annotation), 1int,
{
    if obj_has_key(obj, p.name) {
        type_accepts(p.type_annotation, obj_lookup(obj, p.name), im, em, fuel)
    } else {
        p.optional
    }
}

pub open spec fn all_props_accept(
    ps: Seq<PropertyV>,
    obj: Seq<(Seq<char>, JsValueV)>,
    im: Map<Seq<char>, InterfaceV>,
    em: Map<Seq<char>, Seq<EnumValueV>>,
    fuel: nat,
) -> bool
    decreases fuel, props_size(ps), 0int,
{
    if ps.len() == 0 {
        true
    } else {
        all_props_accept(ps.drop_last(), obj, im, em, fuel) && prop_accepts(
            ps.last(),
            obj,
            im,
            em,
            fuel,
        )
    }
}

/// An interface accepts exactly the objects on which every declared
/// property's check passes.
pub open spec fn iface_accepts(
    iv: InterfaceV,
    v: JsValueV,
    im: Map<Seq<char>, InterfaceV>,
    em: Map<Seq<char>, Seq<EnumValueV>>,
    fuel: nat,
) -> bool
    decreases fuel, props_size(iv.properties) + 1, 0int,
{
    v is Obj && all_props_accept(iv.properties, v->Obj_0, im, em, fuel)
}

pub proof fn lemma_all_props_index(
    ps: Seq<PropertyV>,
    obj: Seq<(Seq<char>, JsValueV)>,
    im: Map<Seq<char>, InterfaceV>,
    em: Map<Seq<char>, Seq<EnumValueV>>,
    fuel: nat,
    i: int,
)
    requires
        all_props_accept(ps, obj, im, em, fuel),
        0 <= i < ps.len(),
    ensures
        prop_accepts(ps[i], obj, im, em, fuel),
    decreases ps,
{
    if i < ps.len() - 1 {
        lemma_all_props_index(ps.drop_last(), obj, im, em, fuel, i);
    } else {
        assert(ps.last() == ps[i]);
    }
}

/// Optional-property semantics, absent side: an object that lacks an
/// optional property passes that property's check.
pub proof fn lemma_optional_absent_passes(
    p: PropertyV,
    obj: Seq<(Seq<char>, JsValueV)>,
    im: Map<Seq<char>, InterfaceV>,
    em: Map<Seq<char>, Seq<EnumValueV>>,
    fuel: nat,
)
    requires
        p.optional,
        !obj_has_key(obj, p.name),
    ensures
        prop_accepts(p, obj, im, em, fuel),
{
}

/// Optional-property semantics, required side: an object that lacks a
/// required property fails the whole interface check.
pub proof fn lemma_required_absent_fails(
    iv: InterfaceV,
    obj: Seq<(Seq<char>, JsValueV)>,
    im: Map<Seq<char>, InterfaceV>,
    em: Map<Seq<char>, Seq<EnumValueV>>,
    fuel: nat,
    i: int,
)
    requires
        0 <= i < iv.properties.len(),
        !iv.properties[i].optional,
        !obj_has_key(obj, iv.properties[i].name),
    ensures
        !iface_accepts(iv, JsValueV::Obj(obj), im, em, fuel),
{
    if all_props_accept(iv.properties, obj, im, em, fuel) {
        lemma_all_props_index(iv.properties, obj, im, em, fuel, i);
        assert(!prop_accepts(iv.properties[i], obj, im, em, fuel));
    }
}

} // verus!
