//! The file registry and traversal driver: the visited set, the root
//! (source) marking, the declaration registries that accumulate across
//! files, and the per-import resolution policy.

use vstd::prelude::*;

use crate::ast::SourceModule;
use crate::decl::{
    enums_view, ifaces_view, strings_view, validators_view, EnumInfo, EnumValueV, InterfaceInfo,
    InterfaceV, ValidatorFunction, ValidatorV,
};
use crate::extract::{extract, mine_module};
use crate::resolve::{
    classify_lookup_error, is_bare_specifier, is_excluded, make_resolver, resolver_lookup,
    spec_excluded, spec_is_bare, typescript_policy, ResolveOutcome,
};
use crate::text::str_eq;

verus! {

broadcast use vstd::seq::group_seq_axioms, vstd::std_specs::vec::group_vec_axioms;

/// Whether one of the strings equals `s`.
pub fn vec_contains_string(v: &Vec<String>, s: &str) -> (r: bool)
    ensures
        r == strings_view(v@).contains(s@),
{
    let n = v.len();
    let mut i: usize = 0;
    while i < n
        invariant
            i <= n,
            n == v@.len(),
            forall|j: int| 0 <= j < i ==> v@[j]@ != s@,
        decreases n - i,
    {
        if str_eq(v[i].as_str(), s) {
            proof {
                assert(strings_view(v@)[i as int] == s@);
            }
            return true;
        }
        i = i + 1;
    }
    proof {
        assert(forall|j: int| 0 <= j < n ==> strings_view(v@)[j] == v@[j]@);
    }
    false
}

/// The interface registry as a map: a later declaration of a name
/// overwrites an earlier one.
pub open spec fn ifaces_map(s: Seq<InterfaceInfo>) -> Map<Seq<char>, InterfaceV>
    decreases s,
{
    if s.len() == 0 {
        Map::<Seq<char>, InterfaceV>::empty()
    } else {
        ifaces_map(s.drop_last()).insert(s.last().name@, s.last()@)
    }
}

/// The enum registry as a map, keyed by enum name.
pub open spec fn enums_map(s: Seq<(String, EnumInfo)>) -> Map<Seq<char>, Seq<EnumValueV>>
    decreases s,
{
    if s.len() == 0 {
        Map::<Seq<char>, Seq<EnumValueV>>::empty()
    } else {
        enums_map(s.drop_last()).insert(s.last().0@, s.last().1@)
    }
}

pub proof fn lemma_ifaces_map_found(s: Seq<InterfaceInfo>, k: Seq<char>, i: int)
    requires
        0 <= i < s.len(),
        s[i].name@ == k,
        forall|j: int| i < j < s.len() ==> s[j].name@ != k,
    ensures
        ifaces_map(s).contains_key(k),
        ifaces_map(s)[k] == s[i]@,
    decreases s,
{
    if i == s.len() - 1 {
        assert(s.last() == s[i]);
    } else {
        lemma_ifaces_map_found(s.drop_last(), k, i);
        assert(s.last().name@ != k);
    }
}

pub proof fn lemma_ifaces_map_absent(s: Seq<InterfaceInfo>, k: Seq<char>)
    requires
        forall|j: int| 0 <= j < s.len() ==> s[j].name@ != k,
    ensures
        !ifaces_map(s).contains_key(k),
    decreases s,
{
    if s.len() > 0 {
        lemma_ifaces_map_absent(s.drop_last(), k);
        assert(s.last().name@ != k);
    }
}

pub proof fn lemma_enums_map_found(s: Seq<(String, EnumInfo)>, k: Seq<char>, i: int)
    requires
        0 <= i < s.len(),
        s[i].0@ == k,
        forall|j: int| i < j < s.len() ==> s[j].0@ != k,
    ensures
        enums_map(s).contains_key(k),
        enums_map(s)[k] == s[i].1@,
    decreases s,
{
    if i == s.len() - 1 {
        assert(s.last() == s[i]);
    } else {
        lemma_enums_map_found(s.drop_last(), k, i);
        assert(s.last().0@ != k);
    }
}

pub proof fn lemma_enums_map_absent(s: Seq<(String, EnumInfo)>, k: Seq<char>)
    requires
        forall|j: int| 0 <= j < s.len() ==> s[j].0@ != k,
    ensures
        !enums_map(s).contains_key(k),
    decreases s,
{
    if s.len() > 0 {
        lemma_enums_map_absent(s.drop_last(), k);
        assert(s.last().0@ != k);
    }
}

/// Look an interface up by name; the last declaration of the name
/// wins, as a keyed insertion would have it.
pub fn find_interface<'a>(interfaces: &'a Vec<InterfaceInfo>, name: &str) -> (r: Option<
    &'a InterfaceInfo,
>)
    ensures
        r is Some <==> ifaces_map(interfaces@).contains_key(name@),
        r matches Option::Some(info) ==> info@ == ifaces_map(interfaces@)[name@],
{
    let n = interfaces.len();
    let mut i: usize = n;
    while i > 0
        invariant
            i <= n,
            n == interfaces@.len(),
            forall|j: int| i <= j < n ==> interfaces@[j].name@ != name@,
        decreases i,
    {
        i = i - 1;
        if str_eq(interfaces[i].name.as_str(), name) {
            proof {
                lemma_ifaces_map_found(interfaces@, name@, i as int);
            }
            return Some(&interfaces[i]);
        }
    }
    proof {
        lemma_ifaces_map_absent(interfaces@, name@);
    }
    None
}

/// Look an enum up by name; the last declaration wins.
pub fn find_enum<'a>(enums: &'a Vec<(String, EnumInfo)>, name: &str) -> (r: Option<&'a EnumInfo>)
    ensures
        r is Some <==> enums_map(enums@).contains_key(name@),
        r matches Option::Some(info) ==> info@ == enums_map(enums@)[name@],
{
    let n = enums.len();
    let mut i: usize = n;
    while i > 0
        invariant
            i <= n,
            n == enums@.len(),
            forall|j: int| i <= j < n ==> enums@[j].0@ != name@,
        decreases i,
    {
        i = i - 1;
        if str_eq(enums[i].0.as_str(), name) {
            proof {
                lemma_enums_map_found(enums@, name@, i as int);
            }
            return Some(&enums[i].1);
        }
    }
    proof {
        lemma_enums_map_absent(enums@, name@);
    }
    None
}

/// The traversal driver's state: declaration registries, the recorded
/// invocations, the visited and root file sets, and the policy.
pub struct TypeScriptParser {
    pub interfaces: Vec<InterfaceInfo>,
    pub enums: Vec<(String, EnumInfo)>,
    pub validator_functions: Vec<ValidatorFunction>,
    pub validator_pattern: String,
    pub parsed_files: Vec<String>,
    pub source_files: Vec<String>,
    pub current_file_is_source: bool,
    pub resolver: oxc_resolver::Resolver,
    pub follow_external_imports: bool,
    pub exclude_packages: Vec<String>,
}

impl TypeScriptParser {
    /// A fresh driver for one run. `pattern` is the validator-name
    /// regular expression; the export conditions configure the
    /// resolver.
    pub fn new(
        pattern: &str,
        follow_external_imports: bool,
        exclude_packages: Vec<String>,
        export_conditions: Vec<String>,
    ) -> (r: TypeScriptParser)
        ensures
            r.validator_pattern@ == pattern@,
            r.follow_external_imports == follow_external_imports,
            r.exclude_packages@ == exclude_packages@,
            r.interfaces@.len() == 0,
            r.enums@.len() == 0,
            r.validator_functions@.len() == 0,
            r.parsed_files@.len() == 0,
            r.source_files@.len() == 0,
            r.current_file_is_source == false,
    {
        let policy = typescript_policy(export_conditions);
        let resolver = make_resolver(&policy);
        TypeScriptParser {
            interfaces: Vec::new(),
            enums: Vec::new(),
            validator_functions: Vec::new(),
            validator_pattern: pattern.to_owned(),
            parsed_files: Vec::new(),
            source_files: Vec::new(),
            current_file_is_source: false,
            resolver,
            follow_external_imports,
            exclude_packages,
        }
    }

    /// Record a canonical path as an explicitly scanned root file.
    pub fn mark_as_source_file(&mut self, path: String)
        ensures
            final(self).source_files@ == old(self).source_files@.push(path),
            final(self).interfaces == old(self).interfaces,
            final(self).enums == old(self).enums,
            final(self).validator_functions == old(self).validator_functions,
            final(self).validator_pattern == old(self).validator_pattern,
            final(self).parsed_files == old(self).parsed_files,
            final(self).current_file_is_source == old(self).current_file_is_source,
            final(self).follow_external_imports == old(self).follow_external_imports,
            final(self).exclude_packages == old(self).exclude_packages,
    {
        self.source_files.push(path);
    }

    /// First action on entering a file: visited paths are skipped, so
    /// an import cycle cannot recurse. On a first visit the path is
    /// recorded and the root marking of the file is looked up.
    pub fn begin_file(&mut self, canonical_path: &str) -> (fresh: bool)
        ensures
            fresh == !strings_view(old(self).parsed_files@).contains(canonical_path@),
            !fresh ==> *final(self) == *old(self),
            fresh ==> strings_view(final(self).parsed_files@) == strings_view(
                old(self).parsed_files@,
            ).push(canonical_path@),
            fresh ==> final(self).current_file_is_source == strings_view(
                old(self).source_files@,
            ).contains(canonical_path@),
            final(self).interfaces == old(self).interfaces,
            final(self).enums == old(self).enums,
            final(self).validator_functions == old(self).validator_functions,
            final(self).validator_pattern == old(self).validator_pattern,
            final(self).source_files == old(self).source_files,
            final(self).follow_external_imports == old(self).follow_external_imports,
            final(self).exclude_packages == old(self).exclude_packages,
    {
        if vec_contains_string(&self.parsed_files, canonical_path) {
            return false;
        }
        self.parsed_files.push(canonical_path.to_owned());
        self.current_file_is_source = vec_contains_string(&self.source_files, canonical_path);
        proof {
            assert(strings_view(self.parsed_files@) =~= strings_view(
                old(self).parsed_files@,
            ).push(canonical_path@));
        }
        true
    }

    /// Mine one parsed file into the registries, under the root
    /// marking that `begin_file` determined, and hand back the file's
    /// import specifiers.
    pub fn apply_module(&mut self, module: &SourceModule, file_path: &str) -> (imports: Vec<
        String,
    >)
        ensures
            ({
                let mined = mine_module(
                    *module,
                    file_path@,
                    old(self).current_file_is_source,
                    old(self).validator_pattern@,
                );
                &&& ifaces_view(final(self).interfaces@) == ifaces_view(old(self).interfaces@)
                    + mined.interfaces
                &&& enums_view(final(self).enums@) == enums_view(old(self).enums@) + mined.enums
                &&& validators_view(final(self).validator_functions@) == validators_view(
                    old(self).validator_functions@,
                ) + mined.invocations
                &&& strings_view(imports@) == mined.imports
            }),
            final(self).validator_pattern == old(self).validator_pattern,
            final(self).parsed_files == old(self).parsed_files,
            final(self).source_files == old(self).source_files,
            final(self).current_file_is_source == old(self).current_file_is_source,
            final(self).follow_external_imports == old(self).follow_external_imports,
            final(self).exclude_packages == old(self).exclude_packages,
    {
        let pattern = self.validator_pattern.clone();
        let mut mined = extract(module, file_path, self.current_file_is_source, pattern.as_str());
        let ghost old_ifaces = self.interfaces@;
        let ghost old_enums = self.enums@;
        let ghost old_invs = self.validator_functions@;
        let ghost mined_ifaces = mined.interfaces@;
        let ghost mined_enums = mined.enums@;
        let ghost mined_invs = mined.invocations@;
        self.interfaces.append(&mut mined.interfaces);
        self.enums.append(&mut mined.enums);
        self.validator_functions.append(&mut mined.invocations);
        proof {
            assert(ifaces_view(old_ifaces + mined_ifaces) =~= ifaces_view(old_ifaces)
                + ifaces_view(mined_ifaces));
            assert(enums_view(old_enums + mined_enums) =~= enums_view(old_enums) + enums_view(
                mined_enums,
            ));
            assert(validators_view(old_invs + mined_invs) =~= validators_view(old_invs)
                + validators_view(mined_invs));
        }
        mined.imports
    }

    /// Resolve one import specifier from the directory of the
    /// importing file. A bare specifier fails when external imports
    /// are disabled, and when its package falls in the exclusion set;
    /// only then is the file system consulted.
    pub fn resolve_import(&self, current_dir: &str, import_path: &str) -> (r: ResolveOutcome)
        ensures
            r is ExternalDisabled <==> spec_is_bare(import_path@)
                && !self.follow_external_imports,
            r is PackageExcluded <==> spec_is_bare(import_path@) && self.follow_external_imports
                && spec_excluded(strings_view(self.exclude_packages@), import_path@),
            spec_is_bare(import_path@) && spec_excluded(
                strings_view(self.exclude_packages@),
                import_path@,
            ) ==> !(r is Resolved),
    {
        if is_bare_specifier(import_path) {
            if !self.follow_external_imports {
                return ResolveOutcome::ExternalDisabled;
            }
            if is_excluded(&self.exclude_packages, import_path) {
                return ResolveOutcome::PackageExcluded;
            }
        }
        match resolver_lookup(&self.resolver, current_dir, import_path) {
            Result::Ok(path) => ResolveOutcome::Resolved(path),
            Result::Err(msg) => classify_lookup_error(msg),
        }
    }
}

/// The distinct requested interface names that the registry lacks, in
/// first-use order.
pub open spec fn missing_of(invs: Seq<ValidatorV>, im: Map<Seq<char>, InterfaceV>) -> Seq<
    Seq<char>,
>
    decreases invs,
{
    if invs.len() == 0 {
        Seq::<Seq<char>>::empty()
    } else {
        let rest = missing_of(invs.drop_last(), im);
        let t = invs.last().interface_name;
        if !im.contains_key(t) && !rest.contains(t) {
            rest.push(t)
        } else {
            rest
        }
    }
}

/// The report is empty exactly when every requested target is declared.
pub proof fn lemma_missing_iff(invs: Seq<ValidatorV>, im: Map<Seq<char>, InterfaceV>)
    ensures
        missing_of(invs, im).len() == 0 <==> (forall|i: int|
            0 <= i < invs.len() ==> im.contains_key(#[trigger] invs[i].interface_name)),
    decreases invs,
{
    if invs.len() > 0 {
        lemma_missing_iff(invs.drop_last(), im);
        assert(forall|i: int|
            0 <= i < invs.len() - 1 ==> invs.drop_last()[i] == #[trigger] invs[i]);
        if missing_of(invs, im).len() == 0 {
            assert(missing_of(invs.drop_last(), im).len() == 0);
            assert(im.contains_key(invs.last().interface_name));
        }
    }
}

impl TypeScriptParser {
    /// The post-traversal consistency check: every distinct requested
    /// interface name absent from the registry, in first-use order. A
    /// run must not write output unless this report is empty.
    pub fn check_missing(&self) -> (r: Vec<String>)
        ensures
            strings_view(r@) == missing_of(
                validators_view(self.validator_functions@),
                ifaces_map(self.interfaces@),
            ),
            r@.len() == 0 <==> (forall|i: int|
                0 <= i < self.validator_functions@.len() ==> ifaces_map(
                    self.interfaces@,
                ).contains_key(#[trigger] validators_view(self.validator_functions@)[i].interface_name)),
    {
        let ghost vsv = validators_view(self.validator_functions@);
        let ghost im = ifaces_map(self.interfaces@);
        let mut out: Vec<String> = Vec::new();
        let n = self.validator_functions.len();
        let mut i: usize = 0;
        proof {
            assert(vsv.take(0) =~= Seq::<ValidatorV>::empty());
            assert(strings_view(out@) =~= missing_of(vsv.take(0), im));
        }
        while i < n
            invariant
                i <= n,
                n == vsv.len(),
                vsv == validators_view(self.validator_functions@),
                im == ifaces_map(self.interfaces@),
                strings_view(out@) == missing_of(vsv.take(i as int), im),
            decreases n - i,
        {
            let ghost prev = strings_view(out@);
            let name = &self.validator_functions[i].interface_name;
            proof {
                assert(vsv[i as int] == self.validator_functions@[i as int]@);
                assert(vsv.take(i + 1).drop_last() =~= vsv.take(i as int));
                assert(vsv.take(i + 1).last() == vsv[i as int]);
            }
            let absent = match find_interface(&self.interfaces, name.as_str()) {
                Option::Some(_) => false,
                Option::None => true,
            };
            if absent && !vec_contains_string(&out, name.as_str()) {
                out.push(name.clone());
                proof {
                    assert(strings_view(out@) =~= prev.push(name@));
                    assert(strings_view(out@) =~= missing_of(vsv.take(i + 1), im));
                }
            } else {
                proof {
                    assert(strings_view(out@) =~= missing_of(vsv.take(i + 1), im));
                }
            }
            i = i + 1;
        }
        proof {
            assert(vsv.take(n as int) =~= vsv);
            lemma_missing_iff(vsv, im);
            assert(strings_view(out@).len() == out@.len());
        }
        out
    }

    /// The recorded call sites whose target is the given interface:
    /// the names of the calling validator functions, in record order.
    pub fn invocation_sites(&self, interface_name: &str) -> (r: Vec<String>)
        ensures
            strings_view(r@) == sites_of(
                validators_view(self.validator_functions@),
                interface_name@,
            ),
    {
        let ghost vsv = validators_view(self.validator_functions@);
        let mut out: Vec<String> = Vec::new();
        let n = self.validator_functions.len();
        let mut i: usize = 0;
        proof {
            assert(vsv.take(0) =~= Seq::<ValidatorV>::empty());
            assert(strings_view(out@) =~= sites_of(vsv.take(0), interface_name@));
        }
        while i < n
            invariant
                i <= n,
                n == vsv.len(),
                vsv == validators_view(self.validator_functions@),
                strings_view(out@) == sites_of(vsv.take(i as int), interface_name@),
            decreases n - i,
        {
            let ghost prev = strings_view(out@);
            let vf = &self.validator_functions[i];
            proof {
                assert(vsv[i as int] == self.validator_functions@[i as int]@);
                assert(vsv.take(i + 1).drop_last() =~= vsv.take(i as int));
                assert(vsv.take(i + 1).last() == vsv[i as int]);
            }
            if str_eq(vf.interface_name.as_str(), interface_name) {
                out.push(vf.name.clone());
                proof {
                    assert(strings_view(out@) =~= prev.push(vf.name@));
                    assert(strings_view(out@) =~= sites_of(vsv.take(i + 1), interface_name@));
                }
            } else {
                proof {
                    assert(strings_view(out@) =~= sites_of(vsv.take(i + 1), interface_name@));
                }
            }
            i = i + 1;
        }
        proof {
            assert(vsv.take(n as int) =~= vsv);
        }
        out
    }
}

/// The names of the invocations whose target is `t`, in order.
pub open spec fn sites_of(invs: Seq<ValidatorV>, t: Seq<char>) -> Seq<Seq<char>>
    decreases invs,
{
    if invs.len() == 0 {
        Seq::<Seq<char>>::empty()
    } else {
        sites_of(invs.drop_last(), t) + (if invs.last().interface_name == t {
            seq![invs.last().name]
        } else {
            Seq::<Seq<char>>::empty()
        })
    }
}

} // verus!
