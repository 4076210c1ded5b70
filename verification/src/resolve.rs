//! Import resolution: specifier classification, the exclusion policy,
//! and the file-system lookup through the outside resolver.

use vstd::prelude::*;
use vstd::string::StrSliceExecFns;

use crate::text::{match_at, push_char, spec_find_from, spec_match_at, str_contains, str_eq};

verus! {

broadcast use vstd::seq::group_seq_axioms, vstd::std_specs::vec::group_vec_axioms;

/// The outcome of resolving one import specifier. Failures are values;
/// traversal decides whether to log and continue.
pub enum ResolveOutcome {
    Resolved(String),
    ExternalDisabled,
    PackageExcluded,
    NoTypeDeclarations(String),
    Unresolved(String),
}

/// A bare (package) specifier: one that names neither a relative nor
/// an absolute path.
pub open spec fn spec_is_bare(s: Seq<char>) -> bool {
    !(s.len() > 0 && (s[0] == '.' || s[0] == '/'))
}

/// The top-level package name of a bare specifier: the text before the
/// first `/`, or the whole specifier.
pub open spec fn spec_package_name(s: Seq<char>) -> Seq<char> {
    match spec_find_from(s, seq!['/'], 0) {
        Option::Some(i) => s.take(i),
        Option::None => s,
    }
}

/// The specifier falls under one of the excluded package names: its
/// package name equals it, or the excluded name is a path prefix.
pub open spec fn spec_excluded(excludes: Seq<Seq<char>>, s: Seq<char>) -> bool {
    exists|i: int|
        0 <= i < excludes.len() && (spec_package_name(s) == excludes[i] || spec_match_at(
            s,
            excludes[i].push('/'),
            0,
        ))
}

pub fn is_bare_specifier(s: &str) -> (r: bool)
    ensures
        r == spec_is_bare(s@),
{
    let n = s.unicode_len();
    if n == 0 {
        return true;
    }
    let c = s.get_char(0);
    !(c == '.' || c == '/')
}

pub fn package_name_of(s: &str) -> (r: String)
    ensures
        r@ == spec_package_name(s@),
{
    let n = s.unicode_len();
    let mut i: usize = 0;
    while i < n
        invariant
            i <= n,
            n == s@.len(),
            forall|k: int| 0 <= k < i ==> s@[k] != '/',
            spec_find_from(s@, seq!['/'], 0) == spec_find_from(s@, seq!['/'], i as int),
        decreases n - i,
    {
        let c = s.get_char(i);
        proof {
            if s@[i as int] == '/' {
                assert(s@.subrange(i as int, i + 1) =~= seq!['/']);
            } else {
                assert(s@.subrange(i as int, i + 1)[0] == s@[i as int]);
                assert(s@.subrange(i as int, i + 1) != seq!['/']);
            }
        }
        if c == '/' {
            proof {
                assert(spec_find_from(s@, seq!['/'], i as int) == Option::Some(i as int));
            }
            let r = s.substring_char(0, i);
            proof {
                assert(r@ =~= s@.take(i as int));
            }
            return r.to_owned();
        }
        proof {
            assert(spec_find_from(s@, seq!['/'], i as int) == spec_find_from(s@, seq!['/'], i + 1));
        }
        i = i + 1;
    }
    proof {
        assert(spec_find_from(s@, seq!['/'], i as int) is None);
    }
    s.to_owned()
}

/// Does the specifier fall under the exclusion set?
pub fn is_excluded(excludes: &Vec<String>, s: &str) -> (r: bool)
    ensures
        r == spec_excluded(crate::decl::strings_view(excludes@), s@),
{
    let pkg = package_name_of(s);
    let n = excludes.len();
    let mut i: usize = 0;
    while i < n
        invariant
            i <= n,
            n == excludes@.len(),
            pkg@ == spec_package_name(s@),
            forall|j: int|
                0 <= j < i ==> !(spec_package_name(s@) == excludes@[j]@ || spec_match_at(
                    s@,
                    excludes@[j]@.push('/'),
                    0,
                )),
        decreases n - i,
    {
        let e = &excludes[i];
        if str_eq(pkg.as_str(), e.as_str()) {
            proof {
                let ghost evs = crate::decl::strings_view(excludes@);
                assert(evs[i as int] == excludes@[i as int]@);
                assert(spec_excluded(evs, s@));
            }
            return true;
        }
        let mut prefixed = e.clone();
        push_char(&mut prefixed, '/');
        let fits = prefixed.as_str().unicode_len() <= s.unicode_len();
        if fits && match_at(s, prefixed.as_str(), 0) {
            proof {
                let ghost evs = crate::decl::strings_view(excludes@);
                assert(evs[i as int] == excludes@[i as int]@);
                assert(spec_excluded(evs, s@));
            }
            return true;
        }
        proof {
            if !fits {
                assert(!spec_match_at(s@, excludes@[i as int]@.push('/'), 0));
            }
        }
        i = i + 1;
    }
    proof {
        let ghost evs = crate::decl::strings_view(excludes@);
        assert(forall|j: int| 0 <= j < n ==> evs[j] == excludes@[j]@);
    }
    false
}

/// The ordered resolution policy handed to the outside resolver:
/// extensions, extension aliasing, export fields and conditions, main
/// fields and index files.
pub struct ResolutionPolicy {
    pub extensions: Vec<String>,
    pub extension_alias: Vec<(String, Vec<String>)>,
    pub exports_fields: Vec<Vec<String>>,
    pub main_fields: Vec<String>,
    pub main_files: Vec<String>,
    pub prefer_relative: bool,
    pub condition_names: Vec<String>,
}

/// The policy used for scanning a TypeScript project, with the given
/// custom export conditions placed before the built-in ones.
pub fn typescript_policy(export_conditions: Vec<String>) -> (r: ResolutionPolicy)
    ensures
        crate::decl::strings_view(r.extensions@) == seq![
            ".ts"@,
            ".tsx"@,
            ".d.ts"@,
            ".js"@,
            ".jsx"@,
            ".json"@,
        ],
        crate::decl::strings_view(r.main_fields@) == seq!["types"@, "typings"@, "module"@, "main"@],
        crate::decl::strings_view(r.main_files@) == seq!["index"@],
        r.prefer_relative == true,
        crate::decl::strings_view(r.condition_names@) == crate::decl::strings_view(
            export_conditions@,
        ) + seq!["types"@, "import"@, "node"@, "default"@],
        r.extension_alias@.len() == 4,
{
    let mut extensions: Vec<String> = Vec::new();
    extensions.push(".ts".to_owned());
    extensions.push(".tsx".to_owned());
    extensions.push(".d.ts".to_owned());
    extensions.push(".js".to_owned());
    extensions.push(".jsx".to_owned());
    extensions.push(".json".to_owned());

    let mut js_alias: Vec<String> = Vec::new();
    js_alias.push(".ts".to_owned());
    js_alias.push(".tsx".to_owned());
    js_alias.push(".js".to_owned());
    let mut jsx_alias: Vec<String> = Vec::new();
    jsx_alias.push(".tsx".to_owned());
    jsx_alias.push(".jsx".to_owned());
    let mut mjs_alias: Vec<String> = Vec::new();
    mjs_alias.push(".mts".to_owned());
    mjs_alias.push(".mjs".to_owned());
    let mut cjs_alias: Vec<String> = Vec::new();
    cjs_alias.push(".cts".to_owned());
    cjs_alias.push(".cjs".to_owned());
    let mut extension_alias: Vec<(String, Vec<String>)> = Vec::new();
    extension_alias.push((".js".to_owned(), js_alias));
    extension_alias.push((".jsx".to_owned(), jsx_alias));
    extension_alias.push((".mjs".to_owned(), mjs_alias));
    extension_alias.push((".cjs".to_owned(), cjs_alias));

    let mut exports_inner: Vec<String> = Vec::new();
    exports_inner.push("exports".to_owned());
    let mut exports_fields: Vec<Vec<String>> = Vec::new();
    exports_fields.push(exports_inner);

    let mut main_fields: Vec<String> = Vec::new();
    main_fields.push("types".to_owned());
    main_fields.push("typings".to_owned());
    main_fields.push("module".to_owned());
    main_fields.push("main".to_owned());

    let mut main_files: Vec<String> = Vec::new();
    main_files.push("index".to_owned());

    let mut condition_names = export_conditions;
    condition_names.push("types".to_owned());
    condition_names.push("import".to_owned());
    condition_names.push("node".to_owned());
    condition_names.push("default".to_owned());

    let r = ResolutionPolicy {
        extensions,
        extension_alias,
        exports_fields,
        main_fields,
        main_files,
        prefer_relative: true,
        condition_names,
    };
    proof {
        assert(crate::decl::strings_view(r.extensions@) =~= seq![
            ".ts"@,
            ".tsx"@,
            ".d.ts"@,
            ".js"@,
            ".jsx"@,
            ".json"@,
        ]);
        assert(crate::decl::strings_view(r.main_fields@) =~= seq![
            "types"@,
            "typings"@,
            "module"@,
            "main"@,
        ]);
        assert(crate::decl::strings_view(r.main_files@) =~= seq!["index"@]);
        assert(crate::decl::strings_view(r.condition_names@) =~= crate::decl::strings_view(
            export_conditions@,
        ) + seq!["types"@, "import"@, "node"@, "default"@]);
    }
    r
}

#[verifier::external_type_specification]
#[verifier::external_body]
#[verifier::reject_recursive_types(Fs)]
pub struct ExResolverGeneric<Fs>(oxc_resolver::ResolverGeneric<Fs>);

#[verifier::external_type_specification]
#[verifier::external_body]
pub struct ExFileSystemOs(oxc_resolver::FileSystemOs);

/// Relies on `oxc_resolver::ResolverGeneric::new`: builds a resolver
/// whose `ResolveOptions` carry the policy's fields one for one.
#[verifier::external_body]
pub fn make_resolver(policy: &ResolutionPolicy) -> (r: oxc_resolver::Resolver) {
    let mut options = oxc_resolver::ResolveOptions::default();
    options.extensions = policy.extensions.clone();
    options.extension_alias = policy.extension_alias.clone();
    options.exports_fields = policy.exports_fields.clone();
    options.main_fields = policy.main_fields.clone();
    options.main_files = policy.main_files.clone();
    options.prefer_relative = policy.prefer_relative;
    options.condition_names = policy.condition_names.clone();
    oxc_resolver::Resolver::new(options)
}

/// Relies on `oxc_resolver::ResolverGeneric::resolve` and
/// `Resolution::into_path_buf`: looks `specifier` up on the file
/// system starting from `directory`. The outcome depends on the disk,
/// so nothing is promised of either the path or the error text.
#[verifier::external_body]
pub fn resolver_lookup(
    resolver: &oxc_resolver::Resolver,
    directory: &str,
    specifier: &str,
) -> (r: Result<String, String>) {
    match resolver.resolve(directory, specifier) {
        Ok(resolution) => Ok(resolution.into_path_buf().to_string_lossy().into_owned()),
        Err(e) => Err(format!("{e:?}")),
    }
}

/// Sort a resolver error's text into the policy's failure kinds.
pub fn classify_lookup_error(msg: String) -> (r: ResolveOutcome)
    ensures
        r is NoTypeDeclarations || r is Unresolved,
        r is NoTypeDeclarations ==> r->NoTypeDeclarations_0@ == msg@,
        r is Unresolved ==> r->Unresolved_0@ == msg@,
{
    if str_contains(msg.as_str(), "node_modules without .d.ts") {
        ResolveOutcome::NoTypeDeclarations(msg)
    } else {
        ResolveOutcome::Unresolved(msg)
    }
}

} // verus!
