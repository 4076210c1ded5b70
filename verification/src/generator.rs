//! The validator generator: compiling interface shapes into the text
//! of runtime guard functions, with cross-interface delegation,
//! alphabetical ordering, and deduplication by function name.

use vstd::prelude::*;
use vstd::string::StrSliceExecFns;
use vstd::string::StringExecFns;

use crate::decl::{
    strings_view, validators_view, EnumInfo, EnumValue, EnumValueV, InterfaceInfo, InterfaceV,
    Primitive, PropertyV, TypeExprV, TypeExpression, ValidatorFunction, ValidatorV,
};
use crate::pattern::{apply_pattern, spec_apply};
use crate::registry::{enums_map, find_enum, find_interface, ifaces_map};
use crate::text::{dec_int, i128_dec, lex_lt, push_char, str_eq, str_lt};

verus! {

broadcast use vstd::seq::group_seq_axioms, vstd::std_specs::vec::group_vec_axioms;

/// Parts joined by a separator.
pub open spec fn join_sep(parts: Seq<Seq<char>>, sep: Seq<char>) -> Seq<char>
    decreases parts,
{
    if parts.len() == 0 {
        Seq::<char>::empty()
    } else if parts.len() == 1 {
        parts[0]
    } else {
        join_sep(parts.drop_last(), sep) + sep + parts.last()
    }
}

/// The comparison texts of an enum's usable discriminants; `Computed`
/// members contribute none.
pub open spec fn enum_pieces(ds: Seq<EnumValueV>, x: Seq<char>) -> Seq<Seq<char>>
    decreases ds,
{
    if ds.len() == 0 {
        Seq::<Seq<char>>::empty()
    } else {
        enum_pieces(ds.drop_last(), x) + match ds.last() {
            EnumValueV::Text(s) => seq![x + " === \""@ + s + "\""@],
            EnumValueV::Number(n) => seq![x + " === "@ + dec_int(n)],
            EnumValueV::Computed => Seq::<Seq<char>>::empty(),
        }
    }
}

/// The next array-nesting depth, capped at the machine bound.
pub open spec fn next_depth(depth: int) -> int {
    if depth < u64::MAX as int {
        depth + 1
    } else {
        depth
    }
}

/// The guard expression for one type, applied to the access text `x`.
/// A reference to a known interface delegates to that interface's
/// validator (interfaces shadow enums of the same name); a reference
/// to a known enum is a membership test over its usable discriminants;
/// anything unknown passes.
pub open spec fn guard_of(
    t: TypeExprV,
    x: Seq<char>,
    depth: int,
    im: Map<Seq<char>, InterfaceV>,
    em: Map<Seq<char>, Seq<EnumValueV>>,
    template: Seq<char>,
) -> Seq<char>
    decreases t,
{
    match t {
        TypeExprV::Primitive(p) => match p {
            Primitive::Str => "typeof "@ + x + " === \"string\""@,
            Primitive::Num => "typeof "@ + x + " === \"number\""@,
            Primitive::Bool => "typeof "@ + x + " === \"boolean\""@,
            Primitive::Any => "true"@,
            Primitive::Void => x + " === undefined"@,
            Primitive::Null => x + " === null"@,
            Primitive::Undefined => x + " === undefined"@,
        },
        TypeExprV::ArrayOf(t2) => {
            let ev = "e"@ + dec_int(depth);
            "Array.isArray("@ + x + ") && "@ + x + ".every(("@ + ev + ") => ("@ + guard_of(
                *t2,
                ev,
                next_depth(depth),
                im,
                em,
                template,
            ) + "))"@
        },
        TypeExprV::UnionOf(ts) => {
            if ts.len() == 0 {
                "false"@
            } else {
                "("@ + join_sep(union_pieces(ts, x, depth, im, em, template), " || "@) + ")"@
            }
        },
        TypeExprV::LiteralStr(s) => x + " === \""@ + s + "\""@,
        TypeExprV::LiteralNum(n) => x + " === "@ + dec_int(n),
        TypeExprV::LiteralBool(b) => if b {
            x + " === true"@
        } else {
            x + " === false"@
        },
        TypeExprV::Reference(name, _) => {
            if im.contains_key(name) {
                spec_apply(template, name) + "("@ + x + ")"@
            } else if em.contains_key(name) {
                let ps = enum_pieces(em[name], x);
                if ps.len() == 0 {
                    "false"@
                } else {
                    "("@ + join_sep(ps, " || "@) + ")"@
                }
            } else {
                "true"@
            }
        },
        TypeExprV::Unknown => "true"@,
    }
}

pub open spec fn union_pieces(
    ts: Seq<TypeExprV>,
    x: Seq<char>,
    depth: int,
    im: Map<Seq<char>, InterfaceV>,
    em: Map<Seq<char>, Seq<EnumValueV>>,
    template: Seq<char>,
) -> Seq<Seq<char>>
    decreases ts,
{
    if ts.len() == 0 {
        Seq::<Seq<char>>::empty()
    } else {
        union_pieces(ts.drop_last(), x, depth, im, em, template).push(
            guard_of(ts.last(), x, depth, im, em, template),
        )
    }
}

/// The guard for one property: a required property must be present and
/// pass; an absent optional property passes without its type guard.
pub open spec fn prop_guard(
    p: PropertyV,
    im: Map<Seq<char>, InterfaceV>,
    em: Map<Seq<char>, Seq<EnumValueV>>,
    template: Seq<char>,
) -> Seq<char> {
    let g = guard_of(p.type_annotation, "value."@ + p.name, 0, im, em, template);
    if p.optional {
        "(!(\""@ + p.name + "\" in value) || ("@ + g + "))"@
    } else {
        "(\""@ + p.name + "\" in value && ("@ + g + "))"@
    }
}

pub open spec fn props_suffix(
    ps: Seq<PropertyV>,
    im: Map<Seq<char>, InterfaceV>,
    em: Map<Seq<char>, Seq<EnumValueV>>,
    template: Seq<char>,
) -> Seq<char>
    decreases ps,
{
    if ps.len() == 0 {
        Seq::<char>::empty()
    } else {
        props_suffix(ps.drop_last(), im, em, template) + " && "@ + prop_guard(
            ps.last(),
            im,
            em,
            template,
        )
    }
}

/// The whole guard of one interface's validator body.
pub open spec fn iface_guard(
    iv: InterfaceV,
    im: Map<Seq<char>, InterfaceV>,
    em: Map<Seq<char>, Seq<EnumValueV>>,
    template: Seq<char>,
) -> Seq<char> {
    "typeof value === \"object\" && value !== null"@ + props_suffix(iv.properties, im, em, template)
}

/// The four text lines of one emitted validator function.
pub open spec fn validator_lines(
    name: Seq<char>,
    iv: InterfaceV,
    im: Map<Seq<char>, InterfaceV>,
    em: Map<Seq<char>, Seq<EnumValueV>>,
    template: Seq<char>,
) -> Seq<Seq<char>> {
    seq![
        "export function "@ + name + "(value: any): boolean {"@,
        "  return "@ + iface_guard(iv, im, em, template) + ";"@,
        "}"@,
        Seq::<char>::empty(),
    ]
}

/// The lines of the whole output: one block per validator whose target
/// interface is known, in list order.
pub open spec fn gen_lines(
    vs: Seq<ValidatorV>,
    im: Map<Seq<char>, InterfaceV>,
    em: Map<Seq<char>, Seq<EnumValueV>>,
    template: Seq<char>,
) -> Seq<Seq<char>>
    decreases vs,
{
    if vs.len() == 0 {
        Seq::<Seq<char>>::empty()
    } else {
        gen_lines(vs.drop_last(), im, em, template) + ({
            let v = vs.last();
            if im.contains_key(v.interface_name) {
                validator_lines(v.name, im[v.interface_name], im, em, template)
            } else {
                Seq::<Seq<char>>::empty()
            }
        })
    }
}

/// Lines joined back into one text, each line ending in a newline.
pub open spec fn spec_unlines(ls: Seq<Seq<char>>) -> Seq<char>
    decreases ls,
{
    if ls.len() == 0 {
        Seq::<char>::empty()
    } else {
        spec_unlines(ls.drop_last()) + ls.last() + seq!['\n']
    }
}

pub proof fn lemma_unlines_concat(a: Seq<Seq<char>>, b: Seq<Seq<char>>)
    ensures
        spec_unlines(a + b) == spec_unlines(a) + spec_unlines(b),
    decreases b,
{
    if b.len() == 0 {
        assert(a + b =~= a);
        assert(spec_unlines(a) + spec_unlines(b) =~= spec_unlines(a));
    } else {
        lemma_unlines_concat(a, b.drop_last());
        assert((a + b).drop_last() =~= a + b.drop_last());
        assert((a + b).last() == b.last());
        assert(spec_unlines(a + b) == (spec_unlines(a) + spec_unlines(b.drop_last())) + b.last()
            + seq!['\n']);
        assert((spec_unlines(a) + spec_unlines(b.drop_last())) + b.last() + seq!['\n']
            =~= spec_unlines(a) + (spec_unlines(b.drop_last()) + b.last() + seq!['\n']));
    }
}

/// Insertion into an alphabetically ordered list, skipping a name
/// already present.
pub open spec fn spec_insert_unique(x: ValidatorV, s: Seq<ValidatorV>) -> Seq<ValidatorV>
    decreases s,
{
    if s.len() == 0 {
        seq![x]
    } else if x.name == s[0].name {
        s
    } else if lex_lt(x.name, s[0].name) {
        seq![x] + s
    } else {
        seq![s[0]] + spec_insert_unique(x, s.skip(1))
    }
}

/// The requested list ordered alphabetically by function name, first
/// request of a name winning.
pub open spec fn spec_sort_unique(s: Seq<ValidatorV>) -> Seq<ValidatorV>
    decreases s,
{
    if s.len() == 0 {
        Seq::<ValidatorV>::empty()
    } else {
        spec_insert_unique(s.last(), spec_sort_unique(s.drop_last()))
    }
}

pub proof fn lemma_insert_unique_prefix(x: ValidatorV, s: Seq<ValidatorV>, i: int)
    requires
        0 <= i <= s.len(),
        forall|k: int| 0 <= k < i ==> s[k].name != x.name && !lex_lt(x.name, s[k].name),
    ensures
        spec_insert_unique(x, s) == s.take(i) + spec_insert_unique(x, s.skip(i)),
    decreases i,
{
    if i == 0 {
        assert(s.take(0) =~= Seq::<ValidatorV>::empty());
        assert(s.skip(0) =~= s);
        assert(s.take(0) + spec_insert_unique(x, s) =~= spec_insert_unique(x, s));
    } else {
        assert(s.len() > 0);
        lemma_insert_unique_prefix(x, s.skip(1), i - 1);
        assert(s.skip(1).take(i - 1) =~= s.take(i).skip(1));
        assert(s.skip(1).skip(i - 1) =~= s.skip(i));
        assert(spec_insert_unique(x, s) == seq![s[0]] + spec_insert_unique(x, s.skip(1)));
        assert(seq![s[0]] + (s.skip(1).take(i - 1) + spec_insert_unique(x, s.skip(i)))
            =~= s.take(i) + spec_insert_unique(x, s.skip(i)));
    }
}

/// Insert one validator into an ordered list, unless its name is
/// already there.
pub fn insert_unique(out: &mut Vec<ValidatorFunction>, x: ValidatorFunction)
    ensures
        validators_view(final(out)@) == spec_insert_unique(x@, validators_view(old(out)@)),
{
    let ghost s = validators_view(old(out)@);
    let n = out.len();
    let mut i: usize = 0;
    while i < n
        invariant
            i <= n,
            n == out@.len(),
            out@ == old(out)@,
            s == validators_view(old(out)@),
            forall|k: int| 0 <= k < i ==> s[k].name != x@.name && !lex_lt(x@.name, s[k].name),
        decreases n - i,
    {
        proof {
            assert(s[i as int] == out@[i as int]@);
        }
        if str_eq(out[i].name.as_str(), x.name.as_str()) {
            proof {
                lemma_insert_unique_prefix(x@, s, i as int);
                assert(s.skip(i as int)[0] == s[i as int]);
                assert(spec_insert_unique(x@, s.skip(i as int)) == s.skip(i as int));
                assert(s.take(i as int) + s.skip(i as int) =~= s);
            }
            return ;
        }
        if str_lt(x.name.as_str(), out[i].name.as_str()) {
            proof {
                lemma_insert_unique_prefix(x@, s, i as int);
                assert(s.skip(i as int)[0] == s[i as int]);
                assert(spec_insert_unique(x@, s.skip(i as int)) == seq![x@] + s.skip(i as int));
            }
            out.insert(i, x);
            proof {
                assert(validators_view(out@) =~= s.take(i as int) + (seq![x@] + s.skip(i as int)));
            }
            return ;
        }
        i = i + 1;
    }
    proof {
        lemma_insert_unique_prefix(x@, s, n as int);
        assert(s.skip(n as int) =~= Seq::<ValidatorV>::empty());
        assert(spec_insert_unique(x@, s.skip(n as int)) == seq![x@]);
    }
    out.push(x);
    proof {
        assert(validators_view(out@) =~= s.take(n as int) + seq![x@]);
    }
}

/// Order a request list alphabetically by name, dropping repeated
/// names (the earliest request of a name wins).
pub fn sort_unique(vs: &Vec<ValidatorFunction>) -> (r: Vec<ValidatorFunction>)
    ensures
        validators_view(r@) == spec_sort_unique(validators_view(vs@)),
{
    let mut out: Vec<ValidatorFunction> = Vec::new();
    let n = vs.len();
    let mut i: usize = 0;
    proof {
        assert(validators_view(vs@).take(0) =~= Seq::<ValidatorV>::empty());
        assert(validators_view(out@) =~= Seq::<ValidatorV>::empty());
    }
    while i < n
        invariant
            i <= n,
            n == vs@.len(),
            validators_view(out@) == spec_sort_unique(validators_view(vs@).take(i as int)),
        decreases n - i,
    {
        let x = vs[i].duplicate();
        insert_unique(&mut out, x);
        proof {
            let sv = validators_view(vs@);
            assert(sv.take(i + 1).drop_last() =~= sv.take(i as int));
            assert(sv.take(i + 1).last() == sv[i as int]);
            assert(sv[i as int] == vs@[i as int]@);
        }
        i = i + 1;
    }
    proof {
        assert(validators_view(vs@).take(n as int) =~= validators_view(vs@));
    }
    out
}

/// The reference names a type's guard may delegate to.
pub open spec fn refs_of(t: TypeExprV) -> Seq<Seq<char>>
    decreases t,
{
    match t {
        TypeExprV::ArrayOf(t2) => refs_of(*t2),
        TypeExprV::UnionOf(ts) => refs_list(ts),
        TypeExprV::Reference(name, _) => seq![name],
        _ => Seq::<Seq<char>>::empty(),
    }
}

pub open spec fn refs_list(ts: Seq<TypeExprV>) -> Seq<Seq<char>>
    decreases ts,
{
    if ts.len() == 0 {
        Seq::<Seq<char>>::empty()
    } else {
        refs_list(ts.drop_last()) + refs_of(ts.last())
    }
}

pub open spec fn refs_props(ps: Seq<PropertyV>) -> Seq<Seq<char>>
    decreases ps,
{
    if ps.len() == 0 {
        Seq::<Seq<char>>::empty()
    } else {
        refs_props(ps.drop_last()) + refs_of(ps.last().type_annotation)
    }
}

pub open spec fn iface_refs(iv: InterfaceV) -> Seq<Seq<char>> {
    refs_props(iv.properties)
}

/// Collect the reference names of one type, in guard order.
pub fn collect_refs(t: &TypeExpression, out: &mut Vec<String>)
    ensures
        strings_view(final(out)@) == strings_view(old(out)@) + refs_of(t@),
    decreases t,
{
    let ghost base = strings_view(out@);
    match t {
        TypeExpression::ArrayOf(t2) => {
            collect_refs(&**t2, out);
        },
        TypeExpression::UnionOf(ts) => {
            let n = ts.len();
            let mut i: usize = 0;
            proof {
                assert(crate::decl::types_view(ts@).take(0) =~= Seq::<TypeExprV>::empty());
                assert(strings_view(out@) =~= base + refs_list(crate::decl::types_view(ts@).take(0)));
            }
            while i < n
                invariant
                    i <= n,
                    n == ts@.len(),
                    *t == TypeExpression::UnionOf(*ts),
                    strings_view(out@) == base + refs_list(
                        crate::decl::types_view(ts@).take(i as int),
                    ),
                decreases n - i,
            {
                proof {
                    crate::decl::lemma_types_view_len(ts@);
                    assert(*t == TypeExpression::UnionOf(*ts));
                    assert(decreases_to!(*t => t->UnionOf_0));
                    assert(t->UnionOf_0 == *ts);
                    assert(decreases_to!(*ts => ts@));
                    assert(decreases_to!(ts@ => ts@[i as int]));
                    assert(decreases_to!(*t => ts@[i as int]));
                }
                collect_refs(&ts[i], out);
                proof {
                    let tv = crate::decl::types_view(ts@);
                    crate::decl::lemma_types_view_index(ts@, i as int);
                    assert(tv.take(i + 1).drop_last() =~= tv.take(i as int));
                    assert(tv.take(i + 1).last() == tv[i as int]);
                    assert(refs_list(tv.take(i + 1)) == refs_list(tv.take(i as int)) + refs_of(
                        ts@[i as int]@,
                    ));
                    assert((base + refs_list(tv.take(i as int))) + refs_of(ts@[i as int]@)
                        =~= base + refs_list(tv.take(i + 1)));
                }
                i = i + 1;
            }
            proof {
                crate::decl::lemma_types_view_len(ts@);
                assert(crate::decl::types_view(ts@).take(n as int) =~= crate::decl::types_view(
                    ts@,
                ));
            }
        },
        TypeExpression::Reference(name, _) => {
            out.push(name.clone());
            proof {
                assert(strings_view(out@) =~= base + seq![name@]);
            }
        },
        _ => {
            proof {
                assert(strings_view(out@) =~= base + refs_of(t@));
            }
        },
    }
}

/// Collect the reference names of one interface's properties.
pub fn collect_iface_refs(info: &InterfaceInfo, out: &mut Vec<String>)
    ensures
        strings_view(final(out)@) == strings_view(old(out)@) + iface_refs(info@),
{
    let ghost base = strings_view(out@);
    let n = info.properties.len();
    let mut i: usize = 0;
    proof {
        let pv = crate::decl::props_view(info.properties@);
        assert(pv.take(0) =~= Seq::<PropertyV>::empty());
        assert(strings_view(out@) =~= base + refs_props(pv.take(0)));
    }
    while i < n
        invariant
            i <= n,
            n == info.properties@.len(),
            strings_view(out@) == base + refs_props(
                crate::decl::props_view(info.properties@).take(i as int),
            ),
        decreases n - i,
    {
        collect_refs(&info.properties[i].type_annotation, out);
        proof {
            let pv = crate::decl::props_view(info.properties@);
            assert(pv.take(i + 1).drop_last() =~= pv.take(i as int));
            assert(pv.take(i + 1).last() == pv[i as int]);
            assert(pv[i as int] == info.properties@[i as int]@);
            assert(refs_props(pv.take(i + 1)) == refs_props(pv.take(i as int)) + refs_of(
                info.properties@[i as int].type_annotation@,
            ));
            assert((base + refs_props(pv.take(i as int))) + refs_of(
                info.properties@[i as int].type_annotation@,
            ) =~= base + refs_props(pv.take(i + 1)));
        }
        i = i + 1;
    }
    proof {
        let pv = crate::decl::props_view(info.properties@);
        assert(pv.take(n as int) =~= pv);
    }
}

/// One expansion step of the delegation set: append a referenced name
/// when it names a known interface and is not yet in the set.
pub open spec fn ref_step(
    acc: Seq<Seq<char>>,
    name: Seq<char>,
    im: Map<Seq<char>, InterfaceV>,
) -> Seq<Seq<char>> {
    if im.contains_key(name) && !acc.contains(name) {
        acc.push(name)
    } else {
        acc
    }
}

pub open spec fn add_refs_upto(
    acc: Seq<Seq<char>>,
    rs: Seq<Seq<char>>,
    j: int,
    im: Map<Seq<char>, InterfaceV>,
) -> Seq<Seq<char>>
    decreases j,
{
    if j <= 0 {
        acc
    } else {
        ref_step(add_refs_upto(acc, rs, j - 1, im), rs[j - 1], im)
    }
}

pub open spec fn once_upto(
    set0: Seq<Seq<char>>,
    i: int,
    im: Map<Seq<char>, InterfaceV>,
) -> Seq<Seq<char>>
    decreases i,
{
    if i <= 0 {
        set0
    } else {
        let a = once_upto(set0, i - 1, im);
        if im.contains_key(set0[i - 1]) {
            let rs = iface_refs(im[set0[i - 1]]);
            add_refs_upto(a, rs, rs.len() as int, im)
        } else {
            a
        }
    }
}

/// One full pass over the members the set held when the pass began.
pub open spec fn expand_pass(set0: Seq<Seq<char>>, im: Map<Seq<char>, InterfaceV>) -> Seq<
    Seq<char>,
> {
    once_upto(set0, set0.len() as int, im)
}

/// `k` expansion passes.
pub open spec fn expand_rounds(
    set: Seq<Seq<char>>,
    k: int,
    im: Map<Seq<char>, InterfaceV>,
) -> Seq<Seq<char>>
    decreases k,
{
    if k <= 0 {
        set
    } else {
        expand_pass(expand_rounds(set, k - 1, im), im)
    }
}

/// Build the guard expression text for one type.
pub fn guard_text(
    t: &TypeExpression,
    x: &str,
    depth: u64,
    interfaces: &Vec<InterfaceInfo>,
    enums: &Vec<(String, EnumInfo)>,
    template: &str,
) -> (r: String)
    ensures
        r@ == guard_of(
            t@,
            x@,
            depth as int,
            ifaces_map(interfaces@),
            enums_map(enums@),
            template@,
        ),
    decreases t,
{
    let ghost im = ifaces_map(interfaces@);
    let ghost em = enums_map(enums@);
    match t {
        TypeExpression::Primitive(p) => match p {
            Primitive::Str => {
                let mut s = "typeof ".to_owned();
                s.append(x);
                s.append(" === \"string\"");
                s
            },
            Primitive::Num => {
                let mut s = "typeof ".to_owned();
                s.append(x);
                s.append(" === \"number\"");
                s
            },
            Primitive::Bool => {
                let mut s = "typeof ".to_owned();
                s.append(x);
                s.append(" === \"boolean\"");
                s
            },
            Primitive::Any => "true".to_owned(),
            Primitive::Void => {
                let mut s = x.to_owned();
                s.append(" === undefined");
                s
            },
            Primitive::Null => {
                let mut s = x.to_owned();
                s.append(" === null");
                s
            },
            Primitive::Undefined => {
                let mut s = x.to_owned();
                s.append(" === undefined");
                s
            },
        },
        TypeExpression::ArrayOf(t2) => {
            let dd = i128_dec(depth as i128);
            let mut ev = "e".to_owned();
            ev.append(dd.as_str());
            let nd: u64 = if depth < u64::MAX {
                depth + 1
            } else {
                depth
            };
            let g = guard_text(&**t2, ev.as_str(), nd, interfaces, enums, template);
            let mut s = "Array.isArray(".to_owned();
            s.append(x);
            s.append(") && ");
            s.append(x);
            s.append(".every((");
            s.append(ev.as_str());
            s.append(") => (");
            s.append(g.as_str());
            s.append("))");
            s
        },
        TypeExpression::UnionOf(ts) => {
            let n = ts.len();
            if n == 0 {
                "false".to_owned()
            } else {
                let mut joined = String::new();
                let mut i: usize = 0;
                proof {
                    crate::decl::lemma_types_view_len(ts@);
                }
                while i < n
                    invariant
                        i <= n,
                        n == ts@.len(),
                        n > 0,
                        im == ifaces_map(interfaces@),
                        em == enums_map(enums@),
                        *t == TypeExpression::UnionOf(*ts),
                        crate::decl::types_view(ts@).len() == n,
                        i > 0 ==> joined@ == join_sep(
                            union_pieces(
                                crate::decl::types_view(ts@).take(i as int),
                                x@,
                                depth as int,
                                im,
                                em,
                                template@,
                            ),
                            " || "@,
                        ),
                        i == 0 ==> joined@ == Seq::<char>::empty(),
                    decreases n - i,
                {
                    proof {
                        assert(decreases_to!(*t => t->UnionOf_0));
                        assert(t->UnionOf_0 == *ts);
                        assert(decreases_to!(*ts => ts@));
                        assert(decreases_to!(ts@ => ts@[i as int]));
                        assert(decreases_to!(*t => ts@[i as int]));
                    }
                    let g = guard_text(&ts[i], x, depth, interfaces, enums, template);
                    let ghost tv = crate::decl::types_view(ts@);
                    let ghost prev = union_pieces(
                        tv.take(i as int),
                        x@,
                        depth as int,
                        im,
                        em,
                        template@,
                    );
                    proof {
                        crate::decl::lemma_types_view_index(ts@, i as int);
                        assert(tv.take(i + 1).drop_last() =~= tv.take(i as int));
                        assert(tv.take(i + 1).last() == tv[i as int]);
                        assert(union_pieces(tv.take(i + 1), x@, depth as int, im, em, template@)
                            == prev.push(g@));
                    }
                    if i == 0 {
                        joined = g;
                        proof {
                            assert(prev.len() == 0);
                            assert(prev.push(joined@).len() == 1);
                            assert(prev.push(joined@)[0] == joined@);
                            assert(join_sep(prev.push(joined@), " || "@) == joined@);
                        }
                    } else {
                        joined.append(" || ");
                        joined.append(g.as_str());
                        proof {
                            assert(prev.push(g@).drop_last() =~= prev);
                            assert(prev.push(g@).len() > 1);
                            assert(join_sep(prev.push(g@), " || "@) == join_sep(prev, " || "@)
                                + " || "@ + g@);
                        }
                    }
                    i = i + 1;
                }
                proof {
                    assert(crate::decl::types_view(ts@).take(n as int) =~= crate::decl::types_view(
                        ts@,
                    ));
                }
                let mut s = "(".to_owned();
                s.append(joined.as_str());
                s.append(")");
                s
            }
        },
        TypeExpression::LiteralStr(lit) => {
            let mut s = x.to_owned();
            s.append(" === \"");
            s.append(lit.as_str());
            s.append("\"");
            s
        },
        TypeExpression::LiteralNum(n) => {
            let d = i128_dec(*n as i128);
            let mut s = x.to_owned();
            s.append(" === ");
            s.append(d.as_str());
            s
        },
        TypeExpression::LiteralBool(b) => {
            let mut s = x.to_owned();
            if *b {
                s.append(" === true");
            } else {
                s.append(" === false");
            }
            s
        },
        TypeExpression::Reference(name, _) => {
            match find_interface(interfaces, name.as_str()) {
                Option::Some(_) => {
                    let mut s = apply_pattern(template, name.as_str());
                    s.append("(");
                    s.append(x);
                    s.append(")");
                    s
                },
                Option::None => {
                    match find_enum(enums, name.as_str()) {
                        Option::Some(info) => enum_membership_text(info, name, x, enums),
                        Option::None => "true".to_owned(),
                    }
                },
            }
        },
        TypeExpression::Unknown => "true".to_owned(),
    }
}

/// The membership test over an enum's usable discriminants.
fn enum_membership_text(
    info: &EnumInfo,
    name: &String,
    x: &str,
    enums: &Vec<(String, EnumInfo)>,
) -> (r: String)
    requires
        enums_map(enums@).contains_key(name@),
        info@ == enums_map(enums@)[name@],
    ensures
        r@ == ({
            let ps = enum_pieces(enums_map(enums@)[name@], x@);
            if ps.len() == 0 {
                "false"@
            } else {
                "("@ + join_sep(ps, " || "@) + ")"@
            }
        }),
{
    let ghost dv = info@;
    let n = info.members.len();
    let mut joined = String::new();
    let mut any = false;
    let mut i: usize = 0;
    proof {
        assert(dv.take(0) =~= Seq::<EnumValueV>::empty());
        assert(enum_pieces(dv.take(0), x@) =~= Seq::<Seq<char>>::empty());
    }
    while i < n
        invariant
            i <= n,
            n == info.members@.len(),
            dv == info@,
            dv.len() == n,
            any == (enum_pieces(dv.take(i as int), x@).len() > 0),
            any ==> joined@ == join_sep(enum_pieces(dv.take(i as int), x@), " || "@),
            !any ==> joined@ == Seq::<char>::empty(),
        decreases n - i,
    {
        let ghost prev = enum_pieces(dv.take(i as int), x@);
        proof {
            assert(dv.take(i + 1).drop_last() =~= dv.take(i as int));
            assert(dv.take(i + 1).last() == dv[i as int]);
            assert(dv[i as int] == info.members@[i as int]@);
        }
        let piece: Option<String> = match &info.members[i].value {
            EnumValue::Text(s) => {
                let mut p = x.to_owned();
                p.append(" === \"");
                p.append(s.as_str());
                p.append("\"");
                Some(p)
            },
            EnumValue::Number(v) => {
                let d = i128_dec(*v);
                let mut p = x.to_owned();
                p.append(" === ");
                p.append(d.as_str());
                Some(p)
            },
            EnumValue::Computed => None,
        };
        match piece {
            Option::Some(p) => {
                proof {
                    assert(enum_pieces(dv.take(i + 1), x@) == prev.push(p@));
                }
                if any {
                    joined.append(" || ");
                    joined.append(p.as_str());
                    proof {
                        assert(prev.push(p@).drop_last() =~= prev);
                        assert(prev.push(p@).len() > 1);
                        assert(join_sep(prev.push(p@), " || "@) == join_sep(prev, " || "@)
                            + " || "@ + p@);
                    }
                } else {
                    joined = p;
                    any = true;
                    proof {
                        assert(prev.push(joined@).len() == 1);
                        assert(prev.push(joined@)[0] == joined@);
                        assert(join_sep(prev.push(joined@), " || "@) == joined@);
                    }
                }
            },
            Option::None => {
                proof {
                    assert(enum_pieces(dv.take(i + 1), x@) =~= prev);
                }
            },
        }
        i = i + 1;
    }
    proof {
        assert(dv.take(n as int) =~= dv);
    }
    if any {
        let mut s = "(".to_owned();
        s.append(joined.as_str());
        s.append(")");
        s
    } else {
        "false".to_owned()
    }
}

/// Build the guard text of one property.
pub fn prop_text(
    p: &crate::decl::PropertyInfo,
    interfaces: &Vec<InterfaceInfo>,
    enums: &Vec<(String, EnumInfo)>,
    template: &str,
) -> (r: String)
    ensures
        r@ == prop_guard(p@, ifaces_map(interfaces@), enums_map(enums@), template@),
{
    let mut access = "value.".to_owned();
    access.append(p.name.as_str());
    let g = guard_text(&p.type_annotation, access.as_str(), 0, interfaces, enums, template);
    if p.optional {
        let mut s = "(!(\"".to_owned();
        s.append(p.name.as_str());
        s.append("\" in value) || (");
        s.append(g.as_str());
        s.append("))");
        s
    } else {
        let mut s = "(\"".to_owned();
        s.append(p.name.as_str());
        s.append("\" in value && (");
        s.append(g.as_str());
        s.append("))");
        s
    }
}

/// Build the whole guard of one interface's validator.
pub fn iface_guard_text(
    info: &InterfaceInfo,
    interfaces: &Vec<InterfaceInfo>,
    enums: &Vec<(String, EnumInfo)>,
    template: &str,
) -> (r: String)
    ensures
        r@ == iface_guard(info@, ifaces_map(interfaces@), enums_map(enums@), template@),
{
    let ghost im = ifaces_map(interfaces@);
    let ghost em = enums_map(enums@);
    let ghost pv = crate::decl::props_view(info.properties@);
    let mut s = "typeof value === \"object\" && value !== null".to_owned();
    let ghost base = s@;
    let n = info.properties.len();
    let mut i: usize = 0;
    proof {
        assert(pv.take(0) =~= Seq::<PropertyV>::empty());
        assert(s@ =~= base + props_suffix(pv.take(0), im, em, template@));
    }
    while i < n
        invariant
            i <= n,
            n == info.properties@.len(),
            pv == crate::decl::props_view(info.properties@),
            pv.len() == n,
            im == ifaces_map(interfaces@),
            em == enums_map(enums@),
            s@ == base + props_suffix(pv.take(i as int), im, em, template@),
        decreases n - i,
    {
        let pg = prop_text(&info.properties[i], interfaces, enums, template);
        s.append(" && ");
        s.append(pg.as_str());
        proof {
            assert(pv.take(i + 1).drop_last() =~= pv.take(i as int));
            assert(pv.take(i + 1).last() == pv[i as int]);
            assert(pv[i as int] == info.properties@[i as int]@);
            assert(props_suffix(pv.take(i + 1), im, em, template@) == props_suffix(
                pv.take(i as int),
                im,
                em,
                template@,
            ) + " && "@ + prop_guard(info.properties@[i as int]@, im, em, template@));
            assert(((base + props_suffix(pv.take(i as int), im, em, template@)) + " && "@)
                + prop_guard(info.properties@[i as int]@, im, em, template@) =~= base
                + props_suffix(pv.take(i + 1), im, em, template@));
        }
        i = i + 1;
    }
    proof {
        assert(pv.take(n as int) =~= pv);
    }
    s
}

/// Append the four lines of one validator function to the output text.
pub fn append_validator_block(
    content: &mut String,
    name: &str,
    info: &InterfaceInfo,
    interfaces: &Vec<InterfaceInfo>,
    enums: &Vec<(String, EnumInfo)>,
    template: &str,
)
    ensures
        final(content)@ == old(content)@ + spec_unlines(
            validator_lines(
                name@,
                info@,
                ifaces_map(interfaces@),
                enums_map(enums@),
                template@,
            ),
        ),
{
    let ghost im = ifaces_map(interfaces@);
    let ghost em = enums_map(enums@);
    let ghost base = content@;
    content.append("export function ");
    content.append(name);
    content.append("(value: any): boolean {");
    push_char(content, '\n');
    content.append("  return ");
    let g = iface_guard_text(info, interfaces, enums, template);
    content.append(g.as_str());
    content.append(";");
    push_char(content, '\n');
    content.append("}");
    push_char(content, '\n');
    push_char(content, '\n');
    proof {
        let ls = validator_lines(name@, info@, im, em, template@);
        let l0 = seq![ls[0]];
        let l01 = seq![ls[0], ls[1]];
        let l012 = seq![ls[0], ls[1], ls[2]];
        assert(l0.drop_last() =~= Seq::<Seq<char>>::empty());
        assert(l0.last() == ls[0]);
        assert(spec_unlines(l0) == spec_unlines(Seq::<Seq<char>>::empty()) + ls[0] + seq!['\n']);
        assert(l01.drop_last() =~= l0);
        assert(l01.last() == ls[1]);
        assert(spec_unlines(l01) == spec_unlines(l0) + ls[1] + seq!['\n']);
        assert(l012.drop_last() =~= l01);
        assert(l012.last() == ls[2]);
        assert(spec_unlines(l012) == spec_unlines(l01) + ls[2] + seq!['\n']);
        assert(ls.drop_last() =~= l012);
        assert(ls.last() == ls[3]);
        assert(spec_unlines(ls) == spec_unlines(l012) + ls[3] + seq!['\n']);
        assert(content@ =~= base + spec_unlines(ls));
    }
}

/// The targets of a request list, in order.
pub open spec fn spec_targets(vs: Seq<ValidatorV>) -> Seq<Seq<char>> {
    Seq::new(vs.len(), |i: int| vs[i].interface_name)
}

/// The delegated validators: one per name of the expanded set that
/// names a known interface and was not itself a requested target, its
/// function name given by the pattern.
pub open spec fn delegated_upto(
    set: Seq<Seq<char>>,
    targets: Seq<Seq<char>>,
    i: int,
    im: Map<Seq<char>, InterfaceV>,
    template: Seq<char>,
) -> Seq<ValidatorV>
    decreases i,
{
    if i <= 0 {
        Seq::<ValidatorV>::empty()
    } else {
        let rest = delegated_upto(set, targets, i - 1, im, template);
        let name = set[i - 1];
        if im.contains_key(name) && !targets.contains(name) {
            rest.push(ValidatorV { name: spec_apply(template, name), interface_name: name })
        } else {
            rest
        }
    }
}

/// The whole generation pipeline: requests plus the delegated
/// validators of the expanded reference set, deduplicated by name and
/// ordered alphabetically, each known target compiled to one function.
pub open spec fn spec_generate(
    vs: Seq<ValidatorV>,
    interfaces: Seq<InterfaceInfo>,
    enums: Seq<(String, EnumInfo)>,
    template: Seq<char>,
) -> Seq<char> {
    let im = ifaces_map(interfaces);
    let em = enums_map(enums);
    let targets = spec_targets(vs);
    let closure = expand_rounds(targets, interfaces.len() as int, im);
    let delegated = delegated_upto(closure, targets, closure.len() as int, im, template);
    let full = spec_sort_unique(vs + delegated);
    spec_unlines(gen_lines(full, im, em, template))
}

/// The validator generator: the declaration registries of a finished
/// traversal and the output options.
pub struct ValidatorGenerator {
    pub interfaces: Vec<InterfaceInfo>,
    pub enums: Vec<(String, EnumInfo)>,
    /// Append `.js` to any intra-module import path the output needs.
    /// The emitted module is self-contained, so no such path exists
    /// and the guard logic never depends on this switch.
    pub use_js_extensions: bool,
}

impl ValidatorGenerator {
    pub fn new(
        interfaces: Vec<InterfaceInfo>,
        enums: Vec<(String, EnumInfo)>,
        use_js_extensions: bool,
    ) -> (r: ValidatorGenerator)
        ensures
            r.interfaces@ == interfaces@,
            r.enums@ == enums@,
            r.use_js_extensions == use_js_extensions,
    {
        ValidatorGenerator { interfaces, enums, use_js_extensions }
    }

    /// One expansion pass: walk the current members of the set and
    /// append every referenced known interface that is not yet there.
    fn expand_once(&self, set: &mut Vec<String>)
        ensures
            strings_view(final(set)@) == expand_pass(
                strings_view(old(set)@),
                ifaces_map(self.interfaces@),
            ),
    {
        let ghost im = ifaces_map(self.interfaces@);
        let ghost set0 = strings_view(set@);
        let orig = set.len();
        let mut i: usize = 0;
        while i < orig
            invariant
                i <= orig,
                orig == set0.len(),
                im == ifaces_map(self.interfaces@),
                strings_view(set@) == once_upto(set0, i as int, im),
                orig <= set@.len(),
                forall|k: int| 0 <= k < orig ==> set@[k]@ == set0[k],
            decreases orig - i,
        {
            let name = set[i].clone();
            proof {
                assert(name@ == set0[i as int]);
            }
            let found = match find_interface(&self.interfaces, name.as_str()) {
                Option::Some(info) => {
                    let mut rs: Vec<String> = Vec::new();
                    collect_iface_refs(info, &mut rs);
                    proof {
                        assert(strings_view(rs@) =~= iface_refs(im[name@]));
                    }
                    Some(rs)
                },
                Option::None => None,
            };
            match found {
                Option::Some(rs) => {
                    let ghost rsv = strings_view(rs@);
                    let ghost acc0 = strings_view(set@);
                    let m = rs.len();
                    let mut j: usize = 0;
                    while j < m
                        invariant
                            j <= m,
                            m == rsv.len(),
                            rsv == strings_view(rs@),
                            im == ifaces_map(self.interfaces@),
                            strings_view(set@) == add_refs_upto(acc0, rsv, j as int, im),
                            orig <= strings_view(set@).len(),
                            forall|k: int| 0 <= k < orig ==> strings_view(set@)[k] == set0[k],
                        decreases m - j,
                    {
                        let ghost accj = strings_view(set@);
                        let rname = rs[j].clone();
                        proof {
                            assert(rname@ == rsv[j as int]);
                        }
                        let known = match find_interface(&self.interfaces, rname.as_str()) {
                            Option::Some(_) => true,
                            Option::None => false,
                        };
                        if known && !crate::registry::vec_contains_string(set, rname.as_str()) {
                            set.push(rname);
                            proof {
                                assert(strings_view(set@) =~= accj.push(rsv[j as int]));
                                assert(strings_view(set@) =~= add_refs_upto(
                                    acc0,
                                    rsv,
                                    j + 1,
                                    im,
                                ));
                            }
                        } else {
                            proof {
                                assert(strings_view(set@) =~= add_refs_upto(acc0, rsv, j + 1, im));
                            }
                        }
                        j = j + 1;
                    }
                    proof {
                        assert(strings_view(set@) =~= once_upto(set0, i + 1, im));
                        assert(forall|k: int| 0 <= k < orig ==> set@[k]@ == set0[k]);
                    }
                },
                Option::None => {
                    proof {
                        assert(strings_view(set@) =~= once_upto(set0, i + 1, im));
                    }
                },
            }
            i = i + 1;
        }
    }

    /// Compile the requested validators into the output module's text.
    /// Interfaces that generated validators reference are given
    /// validators of their own, recursively; output is deduplicated by
    /// function name and ordered alphabetically.
    pub fn generate_validators(
        &self,
        validators: &Vec<ValidatorFunction>,
        template: &str,
    ) -> (r: String)
        ensures
            r@ == spec_generate(
                validators_view(validators@),
                self.interfaces@,
                self.enums@,
                template@,
            ),
    {
        let ghost im = ifaces_map(self.interfaces@);
        let ghost em = enums_map(self.enums@);
        let ghost vsv = validators_view(validators@);

        // the requested targets
        let mut targets: Vec<String> = Vec::new();
        let n = validators.len();
        let mut i: usize = 0;
        while i < n
            invariant
                i <= n,
                n == vsv.len(),
                vsv == validators_view(validators@),
                strings_view(targets@) =~= spec_targets(vsv).take(i as int),
            decreases n - i,
        {
            let ghost prevt = strings_view(targets@);
            targets.push(validators[i].interface_name.clone());
            proof {
                assert(strings_view(targets@) =~= prevt.push(validators@[i as int].interface_name@));
                assert(vsv[i as int] == validators@[i as int]@);
                assert(spec_targets(vsv).take(i + 1) =~= spec_targets(vsv).take(i as int).push(
                    vsv[i as int].interface_name,
                ));
                assert(strings_view(targets@) =~= spec_targets(vsv).take(i + 1));
            }
            i = i + 1;
        }
        proof {
            assert(spec_targets(vsv).take(n as int) =~= spec_targets(vsv));
        }

        // the delegation closure
        let mut set: Vec<String> = Vec::new();
        let mut t: usize = 0;
        while t < targets.len()
            invariant
                t <= targets@.len(),
                strings_view(set@) =~= strings_view(targets@).take(t as int),
                strings_view(targets@) == spec_targets(vsv),
            decreases targets@.len() - t,
        {
            let ghost prevs = strings_view(set@);
            set.push(targets[t].clone());
            proof {
                assert(strings_view(set@) =~= prevs.push(targets@[t as int]@));
                assert(strings_view(targets@)[t as int] == targets@[t as int]@);
                assert(strings_view(targets@).take(t + 1) =~= strings_view(targets@).take(
                    t as int,
                ).push(targets@[t as int]@));
                assert(strings_view(set@) =~= strings_view(targets@).take(t + 1));
            }
            t = t + 1;
        }
        proof {
            assert(strings_view(targets@).take(targets@.len() as int) =~= strings_view(targets@));
        }
        let rounds = self.interfaces.len();
        let mut rd: usize = 0;
        while rd < rounds
            invariant
                rd <= rounds,
                rounds == self.interfaces@.len(),
                im == ifaces_map(self.interfaces@),
                strings_view(set@) == expand_rounds(spec_targets(vsv), rd as int, im),
            decreases rounds - rd,
        {
            self.expand_once(&mut set);
            rd = rd + 1;
        }

        // the delegated validators
        let ghost closure = strings_view(set@);
        let mut full: Vec<ValidatorFunction> = Vec::new();
        let mut q: usize = 0;
        while q < validators.len()
            invariant
                q <= validators@.len(),
                vsv == validators_view(validators@),
                validators_view(full@) =~= vsv.take(q as int),
            decreases validators@.len() - q,
        {
            let ghost prevf = validators_view(full@);
            let dup = validators[q].duplicate();
            full.push(dup);
            proof {
                assert(validators_view(full@) =~= prevf.push(validators@[q as int]@));
                assert(vsv.take(q + 1) =~= vsv.take(q as int).push(vsv[q as int]));
                assert(vsv[q as int] == validators@[q as int]@);
                assert(validators_view(full@) =~= vsv.take(q + 1));
            }
            q = q + 1;
        }
        proof {
            assert(vsv.take(vsv.len() as int) =~= vsv);
        }
        let m = set.len();
        let mut j: usize = 0;
        while j < m
            invariant
                j <= m,
                m == closure.len(),
                closure == strings_view(set@),
                im == ifaces_map(self.interfaces@),
                strings_view(targets@) == spec_targets(vsv),
                validators_view(full@) == vsv + delegated_upto(
                    closure,
                    spec_targets(vsv),
                    j as int,
                    im,
                    template@,
                ),
            decreases m - j,
        {
            let name = set[j].clone();
            proof {
                assert(name@ == closure[j as int]);
            }
            let known = match find_interface(&self.interfaces, name.as_str()) {
                Option::Some(_) => true,
                Option::None => false,
            };
            if known && !crate::registry::vec_contains_string(&targets, name.as_str()) {
                let applied = apply_pattern(template, name.as_str());
                let ghost prevf = validators_view(full@);
                let ghost newv = ValidatorV {
                    name: spec_apply(template@, closure[j as int]),
                    interface_name: closure[j as int],
                };
                full.push(ValidatorFunction { name: applied, interface_name: name });
                proof {
                    assert(validators_view(full@) =~= prevf.push(newv));
                    assert(delegated_upto(closure, spec_targets(vsv), j + 1, im, template@)
                        == delegated_upto(closure, spec_targets(vsv), j as int, im, template@).push(
                        newv,
                    ));
                    assert(prevf.push(newv) =~= vsv + delegated_upto(
                        closure,
                        spec_targets(vsv),
                        j + 1,
                        im,
                        template@,
                    ));
                }
            } else {
                proof {
                    assert(validators_view(full@) =~= vsv + delegated_upto(
                        closure,
                        spec_targets(vsv),
                        j + 1,
                        im,
                        template@,
                    ));
                }
            }
            j = j + 1;
        }

        // order and deduplicate, then emit
        let sorted = sort_unique(&full);
        let ghost sv = validators_view(sorted@);
        let mut content = String::new();
        let k = sorted.len();
        let mut c: usize = 0;
        proof {
            assert(sv.take(0) =~= Seq::<ValidatorV>::empty());
            assert(content@ =~= spec_unlines(gen_lines(sv.take(0), im, em, template@)));
        }
        while c < k
            invariant
                c <= k,
                k == sv.len(),
                sv == validators_view(sorted@),
                im == ifaces_map(self.interfaces@),
                em == enums_map(self.enums@),
                content@ == spec_unlines(gen_lines(sv.take(c as int), im, em, template@)),
            decreases k - c,
        {
            let ghost prev_lines = gen_lines(sv.take(c as int), im, em, template@);
            proof {
                assert(sv.take(c + 1).drop_last() =~= sv.take(c as int));
                assert(sv.take(c + 1).last() == sv[c as int]);
                assert(sv[c as int] == sorted@[c as int]@);
            }
            match find_interface(&self.interfaces, sorted[c].interface_name.as_str()) {
                Option::Some(info) => {
                    append_validator_block(
                        &mut content,
                        sorted[c].name.as_str(),
                        info,
                        &self.interfaces,
                        &self.enums,
                        template,
                    );
                    proof {
                        let block = validator_lines(
                            sv[c as int].name,
                            im[sv[c as int].interface_name],
                            im,
                            em,
                            template@,
                        );
                        assert(gen_lines(sv.take(c + 1), im, em, template@) == prev_lines + block);
                        lemma_unlines_concat(prev_lines, block);
                    }
                },
                Option::None => {
                    proof {
                        assert(gen_lines(sv.take(c + 1), im, em, template@) =~= prev_lines
                            + Seq::<Seq<char>>::empty());
                        assert(prev_lines + Seq::<Seq<char>>::empty() =~= prev_lines);
                    }
                },
            }
            c = c + 1;
        }
        proof {
            assert(sv.take(k as int) =~= sv);
        }
        content
    }
}

/// The list is in nondecreasing name order.
pub open spec fn sorted_by_name(s: Seq<ValidatorV>) -> bool {
    forall|i: int, j: int|
        0 <= i < j < s.len() ==> !lex_lt(#[trigger] s[j].name, #[trigger] s[i].name)
}

/// Every element of an insertion is the inserted one or one of the
/// list's.
pub proof fn lemma_insert_unique_index(x: ValidatorV, s: Seq<ValidatorV>, k: int)
    requires
        0 <= k < spec_insert_unique(x, s).len(),
    ensures
        spec_insert_unique(x, s)[k] == x || s.contains(spec_insert_unique(x, s)[k]),
    decreases s,
{
    let r = spec_insert_unique(x, s);
    if s.len() == 0 {
        assert(r[k] == x);
    } else if x.name == s[0].name {
        assert(r == s);
        assert(s[k] == r[k]);
        assert(s.contains(r[k]));
    } else if lex_lt(x.name, s[0].name) {
        if k == 0 {
            assert(r[0] == x);
        } else {
            assert(r[k] == s[k - 1]);
            assert(s.contains(s[k - 1]));
        }
    } else {
        if k == 0 {
            assert(r[0] == s[0]);
            assert(s.contains(s[0]));
        } else {
            let r1 = spec_insert_unique(x, s.skip(1));
            assert(r[k] == r1[k - 1]);
            lemma_insert_unique_index(x, s.skip(1), k - 1);
            if r1[k - 1] != x {
                let j = choose|j: int| 0 <= j < s.skip(1).len() && s.skip(1)[j] == r1[k - 1];
                assert(s[j + 1] == r1[k - 1]);
                assert(s.contains(r1[k - 1]));
            }
        }
    }
}

/// Ordered insertion keeps the list ordered.
pub proof fn lemma_insert_unique_sorted(x: ValidatorV, s: Seq<ValidatorV>)
    requires
        sorted_by_name(s),
    ensures
        sorted_by_name(spec_insert_unique(x, s)),
    decreases s,
{
    let r = spec_insert_unique(x, s);
    if s.len() == 0 {
        assert(sorted_by_name(r));
    } else if x.name == s[0].name {
        assert(r == s);
    } else if lex_lt(x.name, s[0].name) {
        assert(r == seq![x] + s);
        assert forall|i: int, j: int| 0 <= i < j < r.len() implies !lex_lt(
            r[j].name,
            r[i].name,
        ) by {
            assert(r[j] == s[j - 1]);
            if i == 0 {
                assert(r[0] == x);
                if lex_lt(s[j - 1].name, x.name) {
                    crate::text::lemma_lex_trans(s[j - 1].name, x.name, s[0].name);
                    if j - 1 == 0 {
                        crate::text::lemma_lex_irrefl(s[0].name);
                    } else {
                        assert(!lex_lt(s[j - 1].name, s[0].name));
                    }
                }
            } else {
                assert(r[i] == s[i - 1]);
                assert(!lex_lt(s[j - 1].name, s[i - 1].name));
            }
        }
    } else {
        crate::text::lemma_lex_trichotomy(x.name, s[0].name);
        assert(lex_lt(s[0].name, x.name));
        let s1 = s.skip(1);
        assert(sorted_by_name(s1)) by {
            assert(forall|i: int| 0 <= i < s1.len() ==> #[trigger] s1[i] == s[i + 1]);
        }
        lemma_insert_unique_sorted(x, s1);
        let r1 = spec_insert_unique(x, s1);
        assert(r == seq![s[0]] + r1);
        assert forall|i: int, j: int| 0 <= i < j < r.len() implies !lex_lt(
            r[j].name,
            r[i].name,
        ) by {
            assert(r[j] == r1[j - 1]);
            if i == 0 {
                assert(r[0] == s[0]);
                lemma_insert_unique_index(x, s1, j - 1);
                if r1[j - 1] == x {
                    if lex_lt(x.name, s[0].name) {
                        crate::text::lemma_lex_irrefl(x.name);
                        crate::text::lemma_lex_trans(x.name, s[0].name, x.name);
                    }
                } else {
                    let k = choose|k: int| 0 <= k < s1.len() && s1[k] == r1[j - 1];
                    assert(s[k + 1] == r1[j - 1]);
                    assert(!lex_lt(s[k + 1].name, s[0].name));
                }
            } else {
                assert(r[i] == r1[i - 1]);
                assert(!lex_lt(r1[j - 1].name, r1[i - 1].name));
            }
        }
    }
}

/// The generator's request list, deduplicated, comes out alphabetical.
pub proof fn lemma_sort_unique_sorted(s: Seq<ValidatorV>)
    ensures
        sorted_by_name(spec_sort_unique(s)),
    decreases s,
{
    if s.len() == 0 {
        assert(sorted_by_name(spec_sort_unique(s)));
    } else {
        lemma_sort_unique_sorted(s.drop_last());
        lemma_insert_unique_sorted(s.last(), spec_sort_unique(s.drop_last()));
    }
}

} // verus!
