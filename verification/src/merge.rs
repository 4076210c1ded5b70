//! Incremental merge mode: recover the validators an existing output
//! file holds, and regenerate the whole file with one more validator,
//! or report that it is already there.

use vstd::prelude::*;
use vstd::string::StrSliceExecFns;

use crate::decl::{validators_view, ValidatorFunction, ValidatorV};
use crate::generator::{spec_generate, ValidatorGenerator};
use crate::pattern::{apply_pattern, spec_apply, spec_unapply, unapply_pattern};
use crate::text::{find_char_from, match_at, spec_find_from, spec_lines, spec_match_at, split_lines, str_eq};

verus! {

broadcast use vstd::seq::group_seq_axioms, vstd::std_specs::vec::group_vec_axioms;

/// The validator one line of an existing output file contributes: an
/// exported function header whose name, the text between the heading
/// and the first parenthesis, fits the configured pattern.
pub open spec fn recover_line(l: Seq<char>, template: Seq<char>) -> Seq<ValidatorV> {
    if spec_match_at(l, "export function "@, 0) {
        match spec_find_from(l, seq!['('], "export function "@.len() as int) {
            Option::Some(p) => {
                let fname = l.subrange("export function "@.len() as int, p);
                match spec_unapply(template, fname) {
                    Option::Some(t) => seq![ValidatorV { name: fname, interface_name: t }],
                    Option::None => Seq::<ValidatorV>::empty(),
                }
            },
            Option::None => Seq::<ValidatorV>::empty(),
        }
    } else {
        Seq::<ValidatorV>::empty()
    }
}

/// The validators recovered from a file's lines, in order.
pub open spec fn spec_recover(lines: Seq<Seq<char>>, template: Seq<char>) -> Seq<ValidatorV>
    decreases lines,
{
    if lines.len() == 0 {
        Seq::<ValidatorV>::empty()
    } else {
        spec_recover(lines.drop_last(), template) + recover_line(lines.last(), template)
    }
}

/// Recover previously emitted validators from an output file's text.
pub fn recover_validators(content: &str, template: &str) -> (r: Vec<ValidatorFunction>)
    ensures
        validators_view(r@) == spec_recover(spec_lines(content@), template@),
{
    let lines = split_lines(content);
    let ghost lv = spec_lines(content@);
    let mut out: Vec<ValidatorFunction> = Vec::new();
    let n = lines.len();
    let mut i: usize = 0;
    proof {
        assert(lv.take(0) =~= Seq::<Seq<char>>::empty());
        assert(validators_view(out@) =~= spec_recover(lv.take(0), template@));
    }
    while i < n
        invariant
            i <= n,
            n == lines@.len(),
            n == lv.len(),
            lv == spec_lines(content@),
            forall|k: int| 0 <= k < n ==> lines@[k]@ == lv[k],
            validators_view(out@) == spec_recover(lv.take(i as int), template@),
        decreases n - i,
    {
        let line = &lines[i];
        let ghost prev = validators_view(out@);
        let heading = "export function ";
        let hlen = heading.unicode_len();
        let llen = line.as_str().unicode_len();
        if hlen <= llen && match_at(line.as_str(), heading, 0) {
            match find_char_from(line.as_str(), '(', hlen) {
                Option::Some(p) => {
                    let fname = line.as_str().substring_char(hlen, p);
                    proof {
                        assert(fname@ =~= lv[i as int].subrange(
                            "export function "@.len() as int,
                            p as int,
                        ));
                    }
                    match unapply_pattern(template, fname) {
                        Option::Some(target) => {
                            let vf = ValidatorFunction {
                                name: fname.to_owned(),
                                interface_name: target,
                            };
                            out.push(vf);
                            proof {
                                assert(validators_view(out@) =~= prev + recover_line(
                                    lv[i as int],
                                    template@,
                                ));
                            }
                        },
                        Option::None => {
                            proof {
                                assert(recover_line(lv[i as int], template@)
                                    =~= Seq::<ValidatorV>::empty());
                                assert(validators_view(out@) =~= prev + recover_line(
                                    lv[i as int],
                                    template@,
                                ));
                            }
                        },
                    }
                },
                Option::None => {
                    proof {
                        assert(recover_line(lv[i as int], template@)
                            =~= Seq::<ValidatorV>::empty());
                        assert(validators_view(out@) =~= prev + recover_line(
                            lv[i as int],
                            template@,
                        ));
                    }
                },
            }
        } else {
            proof {
                if hlen > llen {
                    assert(!spec_match_at(lv[i as int], "export function "@, 0));
                }
                assert(recover_line(lv[i as int], template@) =~= Seq::<ValidatorV>::empty());
                assert(validators_view(out@) =~= prev + recover_line(lv[i as int], template@));
            }
        }
        proof {
            assert(lv.take(i + 1).drop_last() =~= lv.take(i as int));
            assert(lv.take(i + 1).last() == lv[i as int]);
            assert(spec_recover(lv.take(i + 1), template@) == spec_recover(
                lv.take(i as int),
                template@,
            ) + recover_line(lv[i as int], template@));
        }
        i = i + 1;
    }
    proof {
        assert(lv.take(n as int) =~= lv);
    }
    out
}

/// A name among the recovered validators.
pub open spec fn has_name(vs: Seq<ValidatorV>, name: Seq<char>) -> bool {
    exists|i: int| 0 <= i < vs.len() && vs[i].name == name
}

pub fn contains_name(vs: &Vec<ValidatorFunction>, name: &str) -> (r: bool)
    ensures
        r == has_name(validators_view(vs@), name@),
{
    let n = vs.len();
    let mut i: usize = 0;
    while i < n
        invariant
            i <= n,
            n == vs@.len(),
            forall|k: int| 0 <= k < i ==> vs@[k]@.name != name@,
        decreases n - i,
    {
        if str_eq(vs[i].name.as_str(), name) {
            proof {
                assert(validators_view(vs@)[i as int].name == name@);
            }
            return true;
        }
        i = i + 1;
    }
    proof {
        assert(forall|k: int| 0 <= k < n ==> validators_view(vs@)[k] == vs@[k]@);
    }
    false
}

/// The outcome of asking for one more validator in an existing file.
pub enum MergeOutcome {
    /// The validator is already in the file; nothing is to be written.
    AlreadyExists(String),
    /// The regenerated whole file, and how many validators it lists.
    Updated(String, usize),
}

/// Merge one more interface's validator into an existing output file's
/// text. When the pattern-derived name is already among the recovered
/// validators the operation is a no-op; otherwise the whole file is
/// regenerated from the merged list, byte-identical to a fresh
/// generation over it.
pub fn merge_validator(
    gen: &ValidatorGenerator,
    existing: &str,
    template: &str,
    interface_name: &str,
) -> (r: MergeOutcome)
    ensures
        ({
            let recovered = spec_recover(spec_lines(existing@), template@);
            let vname = spec_apply(template@, interface_name@);
            &&& (r is AlreadyExists) <==> has_name(recovered, vname)
            &&& (r matches MergeOutcome::AlreadyExists(n) ==> n@ == vname)
            &&& (r matches MergeOutcome::Updated(content, count) ==> {
                &&& content@ == spec_generate(
                    recovered.push(
                        ValidatorV { name: vname, interface_name: interface_name@ },
                    ),
                    gen.interfaces@,
                    gen.enums@,
                    template@,
                )
                &&& count == recovered.len() + 1
            })
        }),
{
    let recovered = recover_validators(existing, template);
    let vname = apply_pattern(template, interface_name);
    if contains_name(&recovered, vname.as_str()) {
        return MergeOutcome::AlreadyExists(vname);
    }
    let mut list = recovered;
    let ghost rv = validators_view(list@);
    list.push(ValidatorFunction { name: vname, interface_name: interface_name.to_owned() });
    proof {
        assert(validators_view(list@) =~= rv.push(
            ValidatorV {
                name: spec_apply(template@, interface_name@),
                interface_name: interface_name@,
            },
        ));
    }
    let count = list.len();
    let content = gen.generate_validators(&list, template);
    MergeOutcome::Updated(content, count)
}

/// Recovery recognizes an emitted header line: for a function name
/// without a parenthesis that fits the pattern, the line the generator
/// writes for it yields back exactly that validator.
pub proof fn lemma_recover_header(name: Seq<char>, template: Seq<char>)
    requires
        !name.contains('('),
        spec_unapply(template, name) is Some,
    ensures
        recover_line(
            "export function "@ + name + "(value: any): boolean {"@,
            template,
        ) == seq![
            ValidatorV { name: name, interface_name: spec_unapply(template, name)->Some_0 },
        ],
{
    reveal_strlit("export function ");
    reveal_strlit("(value: any): boolean {");
    let h = "export function "@;
    let t = "(value: any): boolean {"@;
    let l = h + name + t;
    assert(spec_match_at(l, h, 0)) by {
        assert(l.subrange(0, h.len() as int) =~= h);
    }
    let pos = h.len() as int + name.len() as int;
    assert(spec_match_at(l, seq!['('], pos)) by {
        assert(l[pos] == t[0]);
        assert(l.subrange(pos, pos + 1) =~= seq![l[pos]]);
    }
    assert forall|j: int| h.len() <= j < pos implies !spec_match_at(l, seq!['('], j) by {
        let k = j - h.len();
        assert(0 <= k < name.len());
        assert((h + name)[j] == name[k]);
        assert(l[j] == (h + name)[j]);
        if name[k] == '(' {
            assert(name.contains('('));
        }
        assert(l[j] != '(');
        assert(l.subrange(j, j + 1) =~= seq![l[j]]);
        assert(l.subrange(j, j + 1)[0] == l[j]);
        if l.subrange(j, j + 1) == seq!['('] {
            assert(l.subrange(j, j + 1)[0] == '(');
        }
        assert(l.subrange(j, j + 1) != seq!['(']);
    }
    crate::text::lemma_find_first_from(l, seq!['('], h.len() as int, pos);
    assert(l.subrange(h.len() as int, pos) =~= name);
}

/// Merge idempotence at the level of one emitted block: the validator
/// name the pattern gives an interface is recovered from the header
/// line its validator is emitted with, so a merge that sees that line
/// among the file's lines reports the validator as already present.
pub proof fn lemma_second_merge_finds_validator(template: Seq<char>, iface: Seq<char>)
    requires
        iface.len() > 0,
        !spec_apply(template, iface).contains('('),
        crate::text::spec_find_from(template, "%(type)"@, 0) is Some,
        crate::text::spec_find_from(
            template,
            "%(type)"@,
            crate::text::spec_find_from(template, "%(type)"@, 0)->Some_0 + "%(type)"@.len(),
        ) is None,
    ensures
        ({
            let vname = spec_apply(template, iface);
            recover_line(
                "export function "@ + vname + "(value: any): boolean {"@,
                template,
            ) == seq![ValidatorV { name: vname, interface_name: iface }]
        }),
{
    crate::pattern::lemma_unapply_apply(template, iface);
    lemma_recover_header(spec_apply(template, iface), template);
}

/// Recovery distributes over concatenated line lists.
pub proof fn lemma_recover_concat(a: Seq<Seq<char>>, b: Seq<Seq<char>>, template: Seq<char>)
    ensures
        spec_recover(a + b, template) == spec_recover(a, template) + spec_recover(b, template),
    decreases b,
{
    if b.len() == 0 {
        assert(a + b =~= a);
        assert(spec_recover(a, template) + spec_recover(b, template) =~= spec_recover(a, template));
    } else {
        lemma_recover_concat(a, b.drop_last(), template);
        assert((a + b).drop_last() =~= a + b.drop_last());
        assert((a + b).last() == b.last());
        assert(spec_recover(a + b, template) == (spec_recover(a, template) + spec_recover(
            b.drop_last(),
            template,
        )) + recover_line(b.last(), template));
        assert((spec_recover(a, template) + spec_recover(b.drop_last(), template)) + recover_line(
            b.last(),
            template,
        ) =~= spec_recover(a, template) + (spec_recover(b.drop_last(), template) + recover_line(
            b.last(),
            template,
        )));
    }
}

/// A line that does not open with the export heading contributes
/// nothing to recovery.
pub proof fn lemma_recover_other_line(l: Seq<char>, template: Seq<char>)
    requires
        l.len() == 0 || l[0] != "export function "@[0],
    ensures
        recover_line(l, template) == Seq::<ValidatorV>::empty(),
{
    if spec_match_at(l, "export function "@, 0) {
        reveal_strlit("export function ");
        assert(l.subrange(0, "export function "@.len() as int)[0] == l[0]);
    }
}

/// The four lines emitted for one validator recover exactly that
/// validator, whatever the guard text holds.
pub proof fn lemma_block_recover(
    name: Seq<char>,
    iv: crate::decl::InterfaceV,
    im: Map<Seq<char>, crate::decl::InterfaceV>,
    em: Map<Seq<char>, Seq<crate::decl::EnumValueV>>,
    template: Seq<char>,
)
    requires
        !name.contains('('),
        spec_unapply(template, name) is Some,
    ensures
        spec_recover(
            crate::generator::validator_lines(name, iv, im, em, template),
            template,
        ) == seq![
            ValidatorV { name: name, interface_name: spec_unapply(template, name)->Some_0 },
        ],
{
    reveal_strlit("export function ");
    reveal_strlit("  return ");
    reveal_strlit("}");
    let ls = crate::generator::validator_lines(name, iv, im, em, template);
    lemma_recover_header(name, template);
    assert(ls[1][0] == "  return "@[0]) by {
        assert(("  return "@ + crate::generator::iface_guard(iv, im, em, template))[0]
            == "  return "@[0]);
    }
    assert(ls[1][0] != "export function "@[0]);
    lemma_recover_other_line(ls[1], template);
    assert(ls[2][0] != "export function "@[0]);
    lemma_recover_other_line(ls[2], template);
    assert(ls[3].len() == 0);
    lemma_recover_other_line(ls[3], template);
    let l0 = seq![ls[0]];
    let l01 = seq![ls[0], ls[1]];
    let l012 = seq![ls[0], ls[1], ls[2]];
    let rec0 = recover_line(ls[0], template);
    assert(l0.drop_last() =~= Seq::<Seq<char>>::empty());
    assert(l0.last() == ls[0]);
    assert(spec_recover(l0, template) == spec_recover(Seq::<Seq<char>>::empty(), template) + rec0);
    assert(Seq::<ValidatorV>::empty() + rec0 =~= rec0);
    assert(l01.drop_last() =~= l0);
    assert(l01.last() == ls[1]);
    assert(spec_recover(l01, template) == spec_recover(l0, template) + recover_line(ls[1], template));
    assert(rec0 + Seq::<ValidatorV>::empty() =~= rec0);
    assert(l012.drop_last() =~= l01);
    assert(l012.last() == ls[2]);
    assert(spec_recover(l012, template) == spec_recover(l01, template) + recover_line(
        ls[2],
        template,
    ));
    assert(ls.drop_last() =~= l012);
    assert(ls.last() == ls[3]);
    assert(spec_recover(ls, template) == spec_recover(l012, template) + recover_line(
        ls[3],
        template,
    ));
    assert(spec_recover(ls, template) =~= rec0);
}

/// Splitting undoes joining: lines free of newlines come back from the
/// joined text unchanged.
pub proof fn lemma_lines_unlines(ls: Seq<Seq<char>>)
    requires
        forall|i: int| 0 <= i < ls.len() ==> !(#[trigger] ls[i]).contains('\n'),
    ensures
        spec_lines(crate::generator::spec_unlines(ls)) == ls,
    decreases ls.len(),
{
    if ls.len() == 0 {
        assert(spec_lines(crate::generator::spec_unlines(ls)) =~= ls);
    } else {
        let l0 = ls[0];
        let rest = ls.skip(1);
        assert(seq![l0] + rest =~= ls);
        crate::generator::lemma_unlines_concat(seq![l0], rest);
        let u0 = crate::generator::spec_unlines(seq![l0]);
        assert(seq![l0].drop_last() =~= Seq::<Seq<char>>::empty());
        assert(seq![l0].last() == l0);
        assert(u0 == crate::generator::spec_unlines(Seq::<Seq<char>>::empty()) + l0 + seq!['\n']);
        assert(u0 =~= l0 + seq!['\n']);
        let u = crate::generator::spec_unlines(ls);
        assert(u == u0 + crate::generator::spec_unlines(rest));
        assert(u =~= (l0 + seq!['\n']) + crate::generator::spec_unlines(rest));
        let pos = l0.len() as int;
        assert(spec_match_at(u, seq!['\n'], pos)) by {
            assert(u[pos] == '\n');
            assert(u.subrange(pos, pos + 1) =~= seq![u[pos]]);
        }
        assert forall|j: int| 0 <= j < pos implies !spec_match_at(u, seq!['\n'], j) by {
            assert((l0 + seq!['\n'])[j] == l0[j]);
            assert(u[j] == l0[j]);
            if l0[j] == '\n' {
                assert(l0.contains('\n'));
            }
            assert(u.subrange(j, j + 1) =~= seq![u[j]]);
            assert(u.subrange(j, j + 1)[0] == u[j]);
            if u.subrange(j, j + 1) == seq!['\n'] {
                assert(u.subrange(j, j + 1)[0] == '\n');
            }
        }
        crate::text::lemma_find_first_from(u, seq!['\n'], 0, pos);
        assert(u.len() > 0);
        assert(0 <= pos < u.len());
        assert(spec_lines(u) == seq![u.take(pos)] + spec_lines(u.skip(pos + 1)));
        assert(u.take(pos) =~= l0);
        assert(u.skip(pos + 1) =~= crate::generator::spec_unlines(rest));
        assert(forall|i: int| 0 <= i < rest.len() ==> !(#[trigger] rest[i]).contains('\n')) by {
            assert(forall|i: int|
                0 <= i < rest.len() ==> rest[i] == #[trigger] ls[i + 1]);
        }
        lemma_lines_unlines(rest);
        assert(seq![u.take(pos)] + spec_lines(u.skip(pos + 1)) =~= ls);
    }
}

/// Ordered insertion neither loses nor invents names.
pub proof fn lemma_has_name_insert(x: ValidatorV, s: Seq<ValidatorV>, n: Seq<char>)
    ensures
        has_name(crate::generator::spec_insert_unique(x, s), n) <==> (has_name(s, n) || x.name
            == n),
    decreases s,
{
    let r = crate::generator::spec_insert_unique(x, s);
    if s.len() == 0 {
        assert(r == seq![x]);
        assert(has_name(r, n) <==> x.name == n) by {
            if x.name == n {
                assert(r[0].name == n);
            }
        }
        assert(!has_name(s, n));
    } else if x.name == s[0].name {
        assert(r == s);
    } else if crate::text::lex_lt(x.name, s[0].name) {
        assert(r == seq![x] + s);
        if has_name(s, n) {
            let i = choose|i: int| 0 <= i < s.len() && s[i].name == n;
            assert(r[i + 1].name == n);
        }
        if x.name == n {
            assert(r[0].name == n);
        }
        if has_name(r, n) {
            let i = choose|i: int| 0 <= i < r.len() && r[i].name == n;
            if i > 0 {
                assert(s[i - 1].name == n);
            }
        }
    } else {
        lemma_has_name_insert(x, s.skip(1), n);
        let r1 = crate::generator::spec_insert_unique(x, s.skip(1));
        assert(r == seq![s[0]] + r1);
        if has_name(r, n) {
            let i = choose|i: int| 0 <= i < r.len() && r[i].name == n;
            if i > 0 {
                assert(r1[i - 1].name == n);
            }
        }
        if has_name(s, n) {
            let i = choose|i: int| 0 <= i < s.len() && s[i].name == n;
            if i == 0 {
                assert(r[0].name == n);
            } else {
                assert(s.skip(1)[i - 1].name == n);
                assert(has_name(s.skip(1), n));
                let j = choose|j: int| 0 <= j < r1.len() && r1[j].name == n;
                assert(r[j + 1].name == n);
            }
        }
        if x.name == n {
            let j = choose|j: int| 0 <= j < r1.len() && r1[j].name == n;
            assert(r[j + 1].name == n);
        }
        if has_name(s.skip(1), n) {
            let j = choose|j: int| 0 <= j < r1.len() && r1[j].name == n;
            assert(r[j + 1].name == n);
        }
    }
}

/// Ordering and deduplication keep exactly the names of the input.
pub proof fn lemma_has_name_sort(s: Seq<ValidatorV>, n: Seq<char>)
    ensures
        has_name(crate::generator::spec_sort_unique(s), n) <==> has_name(s, n),
    decreases s,
{
    if s.len() > 0 {
        lemma_has_name_sort(s.drop_last(), n);
        lemma_has_name_insert(s.last(), crate::generator::spec_sort_unique(s.drop_last()), n);
        if has_name(s, n) {
            let i = choose|i: int| 0 <= i < s.len() && s[i].name == n;
            if i < s.len() - 1 {
                assert(s.drop_last()[i].name == n);
            }
        }
        if has_name(s.drop_last(), n) {
            let i = choose|i: int| 0 <= i < s.drop_last().len() && s.drop_last()[i].name == n;
            assert(s[i].name == n);
        }
        if s.last().name == n {
            assert(s[s.len() - 1].name == n);
        }
    }
}

/// The validators whose blocks the generator emits: those of the list
/// whose target interface is known.
pub open spec fn emitted_of(vs: Seq<ValidatorV>, im: Map<Seq<char>, crate::decl::InterfaceV>) -> Seq<
    ValidatorV,
>
    decreases vs,
{
    if vs.len() == 0 {
        Seq::<ValidatorV>::empty()
    } else {
        emitted_of(vs.drop_last(), im) + (if im.contains_key(vs.last().interface_name) {
            seq![vs.last()]
        } else {
            Seq::<ValidatorV>::empty()
        })
    }
}

/// Names are clean for recovery: no parenthesis, and the pattern
/// recovers each emitted validator's target from its name.
pub open spec fn names_recoverable(
    vs: Seq<ValidatorV>,
    im: Map<Seq<char>, crate::decl::InterfaceV>,
    template: Seq<char>,
) -> bool {
    forall|i: int|
        0 <= i < vs.len() && im.contains_key(#[trigger] vs[i].interface_name) ==> !vs[i].name.contains(
            '(',
        ) && spec_unapply(template, vs[i].name) == Option::Some(vs[i].interface_name)
}

/// Recovering the generated lines gives back exactly the emitted
/// validators.
pub proof fn lemma_gen_lines_recover(
    vs: Seq<ValidatorV>,
    im: Map<Seq<char>, crate::decl::InterfaceV>,
    em: Map<Seq<char>, Seq<crate::decl::EnumValueV>>,
    template: Seq<char>,
)
    requires
        names_recoverable(vs, im, template),
    ensures
        spec_recover(crate::generator::gen_lines(vs, im, em, template), template) == emitted_of(
            vs,
            im,
        ),
    decreases vs,
{
    if vs.len() == 0 {
        assert(spec_recover(crate::generator::gen_lines(vs, im, em, template), template)
            =~= emitted_of(vs, im));
    } else {
        assert(names_recoverable(vs.drop_last(), im, template)) by {
            assert(forall|i: int|
                0 <= i < vs.len() - 1 ==> vs.drop_last()[i] == #[trigger] vs[i]);
        }
        lemma_gen_lines_recover(vs.drop_last(), im, em, template);
        let v = vs.last();
        let prev = crate::generator::gen_lines(vs.drop_last(), im, em, template);
        if im.contains_key(v.interface_name) {
            assert(vs[vs.len() - 1] == v);
            let block = crate::generator::validator_lines(
                v.name,
                im[v.interface_name],
                im,
                em,
                template,
            );
            lemma_recover_concat(prev, block, template);
            lemma_block_recover(v.name, im[v.interface_name], im, em, template);
            assert(spec_recover(block, template) == seq![v]);
            assert(emitted_of(vs, im) == emitted_of(vs.drop_last(), im) + seq![v]);
        } else {
            lemma_recover_concat(prev, Seq::<Seq<char>>::empty(), template);
            assert(spec_recover(Seq::<Seq<char>>::empty(), template)
                =~= Seq::<ValidatorV>::empty());
            assert(emitted_of(vs, im) =~= emitted_of(vs.drop_last(), im));
            assert(spec_recover(crate::generator::gen_lines(vs, im, em, template), template)
                =~= emitted_of(vs.drop_last(), im));
        }
    }
}

/// A name whose entries all target one known interface survives the
/// emission filter.
pub proof fn lemma_emitted_has_name(
    vs: Seq<ValidatorV>,
    im: Map<Seq<char>, crate::decl::InterfaceV>,
    n: Seq<char>,
)
    requires
        has_name(vs, n),
        forall|i: int|
            0 <= i < vs.len() && (#[trigger] vs[i].name) == n ==> im.contains_key(
                vs[i].interface_name,
            ),
    ensures
        has_name(emitted_of(vs, im), n),
    decreases vs,
{
    let i = choose|i: int| 0 <= i < vs.len() && vs[i].name == n;
    if i == vs.len() - 1 {
        assert(im.contains_key(vs.last().interface_name));
        let e = emitted_of(vs, im);
        assert(e == emitted_of(vs.drop_last(), im) + seq![vs.last()]);
        assert(e[e.len() - 1].name == n);
    } else {
        assert(vs.drop_last()[i].name == n);
        assert(has_name(vs.drop_last(), n));
        assert(forall|j: int|
            0 <= j < vs.len() - 1 ==> vs.drop_last()[j] == #[trigger] vs[j]);
        lemma_emitted_has_name(vs.drop_last(), im, n);
        let e1 = emitted_of(vs.drop_last(), im);
        let j = choose|j: int| 0 <= j < e1.len() && e1[j].name == n;
        let e = emitted_of(vs, im);
        assert(e == e1 + (if im.contains_key(vs.last().interface_name) {
            seq![vs.last()]
        } else {
            Seq::<ValidatorV>::empty()
        }));
        assert(e[j].name == n);
    }
}

/// Merge idempotence: in the file regenerated after merging an
/// interface, recovery finds the interface's validator name again, so
/// a second merge of the same interface is a no-op. The names involved
/// must be recoverable: free of parentheses and newlines and true to
/// the pattern, as every name the pattern itself builds is.
pub proof fn lemma_merge_idempotent(
    requested: Seq<ValidatorV>,
    interfaces: Seq<crate::decl::InterfaceInfo>,
    enums: Seq<(String, crate::decl::EnumInfo)>,
    template: Seq<char>,
    iface: Seq<char>,
)
    requires
        iface.len() > 0,
        crate::text::spec_find_from(template, "%(type)"@, 0) is Some,
        crate::text::spec_find_from(
            template,
            "%(type)"@,
            crate::text::spec_find_from(template, "%(type)"@, 0)->Some_0 + "%(type)"@.len(),
        ) is None,
        !spec_apply(template, iface).contains('('),
        crate::registry::ifaces_map(interfaces).contains_key(iface),
        ({
            let new = ValidatorV { name: spec_apply(template, iface), interface_name: iface };
            let im = crate::registry::ifaces_map(interfaces);
            let targets = crate::generator::spec_targets(requested.push(new));
            let closure = crate::generator::expand_rounds(targets, interfaces.len() as int, im);
            let full = crate::generator::spec_sort_unique(
                requested.push(new) + crate::generator::delegated_upto(
                    closure,
                    targets,
                    closure.len() as int,
                    im,
                    template,
                ),
            );
            let em = crate::registry::enums_map(enums);
            &&& names_recoverable(full, im, template)
            &&& (forall|i: int|
                0 <= i < full.len() && (#[trigger] full[i].name) == new.name
                    ==> full[i].interface_name == iface)
            &&& (forall|i: int|
                0 <= i < crate::generator::gen_lines(full, im, em, template).len() ==> !(
                #[trigger] crate::generator::gen_lines(full, im, em, template)[i]).contains('\n'))
        }),
    ensures
        has_name(
            spec_recover(
                spec_lines(
                    crate::generator::spec_generate(
                        requested.push(
                            ValidatorV { name: spec_apply(template, iface), interface_name: iface },
                        ),
                        interfaces,
                        enums,
                        template,
                    ),
                ),
                template,
            ),
            spec_apply(template, iface),
        ),
{
    let new = ValidatorV { name: spec_apply(template, iface), interface_name: iface };
    let im = crate::registry::ifaces_map(interfaces);
    let em = crate::registry::enums_map(enums);
    let vs = requested.push(new);
    let targets = crate::generator::spec_targets(vs);
    let closure = crate::generator::expand_rounds(targets, interfaces.len() as int, im);
    let delegated = crate::generator::delegated_upto(
        closure,
        targets,
        closure.len() as int,
        im,
        template,
    );
    let full = crate::generator::spec_sort_unique(vs + delegated);
    let lines = crate::generator::gen_lines(full, im, em, template);
    lemma_lines_unlines(lines);
    lemma_gen_lines_recover(full, im, em, template);
    assert(has_name(vs + delegated, new.name)) by {
        assert((vs + delegated)[requested.len() as int] == new);
    }
    lemma_has_name_sort(vs + delegated, new.name);
    lemma_emitted_has_name(full, im, new.name);
}

} // verus!
