//! Recognition of validator-named calls: matching a function name
//! against the configured pattern's regular expression.

use vstd::prelude::*;
use vstd::string::StrSliceExecFns;

use crate::text::{find_sub, match_at, replace_all, spec_find_from, spec_match_at, spec_replace};

verus! {

/// The text of the first capture group of the leftmost match of the
/// regular expression `pattern` in `text`; `None` when the pattern is
/// invalid, does not match, or has no capture group. A function of the
/// two strings alone.
pub uninterp spec fn spec_capture_first(pattern: Seq<char>, text: Seq<char>) -> Option<Seq<char>>;

/// Relies on `regex::Regex::new`, `Regex::captures`, `Captures::get`
/// and `Match::as_str`: compiles `pattern` and hands back the text of
/// the first capture group of the leftmost match in `text`. All four
/// are deterministic in the two strings alone.
#[verifier::external_body]
pub fn capture_first(pattern: &str, text: &str) -> (r: Option<String>)
    ensures
        match r {
            Option::Some(s) => spec_capture_first(pattern@, text@) == Option::Some(s@),
            Option::None => spec_capture_first(pattern@, text@) is None,
        },
{
    match regex::Regex::new(pattern) {
        Ok(re) => re.captures(text).and_then(|c| c.get(1)).map(|m| m.as_str().to_owned()),
        Err(_) => None,
    }
}

/// The validator name the pattern gives an interface: every
/// `%(type)` placeholder replaced by the interface name.
pub open spec fn spec_apply(template: Seq<char>, iface: Seq<char>) -> Seq<char> {
    spec_replace(template, "%(type)"@, iface)
}

pub fn apply_pattern(template: &str, iface: &str) -> (r: String)
    ensures
        r@ == spec_apply(template@, iface@),
{
    replace_all(template, "%(type)", iface)
}

/// Recover the interface name from a validator function name: the text
/// between the template's prefix and suffix around its first
/// `%(type)` placeholder; `None` when the name does not fit the
/// template or the middle is empty.
pub open spec fn spec_unapply(template: Seq<char>, name: Seq<char>) -> Option<Seq<char>> {
    match spec_find_from(template, "%(type)"@, 0) {
        Option::Some(i) => {
            let prefix = template.take(i);
            let suffix = template.skip(i + "%(type)"@.len());
            if name.len() > prefix.len() + suffix.len() && name.take(prefix.len() as int) == prefix
                && name.skip(name.len() - suffix.len()) == suffix {
                Option::Some(name.subrange(prefix.len() as int, name.len() - suffix.len()))
            } else {
                Option::<Seq<char>>::None
            }
        },
        Option::None => Option::<Seq<char>>::None,
    }
}

pub fn unapply_pattern(template: &str, name: &str) -> (r: Option<String>)
    ensures
        match r {
            Option::Some(s) => spec_unapply(template@, name@) == Option::Some(s@),
            Option::None => spec_unapply(template@, name@) is None,
        },
{
    let tn = template.unicode_len();
    let m = "%(type)".unicode_len();
    let i = match find_sub(template, "%(type)") {
        Option::Some(i) => i,
        Option::None => {
            return None;
        },
    };
    proof {
        crate::text::lemma_find_from_some(template@, "%(type)"@, 0, i as int);
        assert(spec_match_at(template@, "%(type)"@, i as int));
    }
    let nn = name.unicode_len();
    let plen = i;
    let slen = tn - i - m;
    if !(nn > plen + slen) {
        return None;
    }
    let prefix = template.substring_char(0, plen);
    let suffix = template.substring_char(i + m, tn);
    proof {
        assert(prefix@ =~= template@.take(plen as int));
        assert(suffix@ =~= template@.skip(i + "%(type)"@.len()));
    }
    if !match_at(name, prefix, 0) {
        proof {
            assert(name@.take(plen as int) != template@.take(plen as int));
        }
        return None;
    }
    if !match_at(name, suffix, nn - slen) {
        proof {
            assert(name@.subrange(nn - slen, nn as int) =~= name@.skip(nn - slen));
            assert(name@.skip(nn - slen) != suffix@);
        }
        return None;
    }
    let middle = name.substring_char(plen, nn - slen);
    proof {
        assert(name@.take(plen as int) =~= name@.subrange(0, plen as int));
        assert(name@.skip(nn - slen) =~= name@.subrange(nn - slen, nn as int));
        assert(spec_unapply(template@, name@) == Option::Some(
            name@.subrange(plen as int, nn - slen),
        ));
    }
    Some(middle.to_owned())
}

/// Recovery inverts application: when the template holds exactly one
/// placeholder, the name built for a nonempty interface name unapplies
/// back to it.
pub proof fn lemma_unapply_apply(template: Seq<char>, iface: Seq<char>)
    requires
        iface.len() > 0,
        spec_find_from(template, "%(type)"@, 0) is Some,
        spec_find_from(
            template,
            "%(type)"@,
            spec_find_from(template, "%(type)"@, 0)->Some_0 + "%(type)"@.len(),
        ) is None,
    ensures
        spec_unapply(template, spec_apply(template, iface)) == Option::Some(iface),
{
    reveal_strlit("%(type)");
    let pl = "%(type)"@;
    let i = spec_find_from(template, pl, 0)->Some_0;
    crate::text::lemma_find_from_some(template, pl, 0, i);
    let prefix = template.take(i);
    let suffix = template.skip(i + pl.len());
    crate::text::lemma_replace_first(template, pl, iface, i);
    crate::text::lemma_find_from_none(template, pl, i + pl.len());
    assert forall|j: int| 0 <= j implies !crate::text::spec_match_at(suffix, pl, j) by {
        assert(!crate::text::spec_match_at(template, pl, i + pl.len() + j));
        if 0 <= j && j + pl.len() <= suffix.len() {
            assert(suffix.subrange(j, j + pl.len()) =~= template.subrange(
                i + pl.len() + j,
                i + pl.len() + j + pl.len(),
            ));
        }
    }
    crate::text::lemma_find_none(suffix, pl, 0);
    crate::text::lemma_replace_none(suffix, pl, iface);
    let name = spec_apply(template, iface);
    assert(name =~= prefix + iface + suffix);
    assert(name.len() == prefix.len() + iface.len() + suffix.len());
    assert(name.take(prefix.len() as int) =~= prefix);
    assert(name.skip(name.len() - suffix.len()) =~= suffix);
    assert(name.subrange(prefix.len() as int, name.len() - suffix.len()) =~= iface);
}

} // verus!
