//! Version-constraint checking: does an installed version string fulfil a
//! declared constraint?
//!
//! A constraint is either the wildcard `"*"`, which every installation state
//! fulfils, or a semantic-version range. Manifests pin versions with `==`,
//! while range syntax writes `=`, so every `==` is rewritten to `=` before the
//! range is consulted. Range evaluation itself is delegated to the `semver`
//! crate; its outcome on a pair of strings is named by [`semver_matches`].

use crate::text::{replace_all, replace_all_spec, str_eq};
use vstd::prelude::*;

verus! {

/// Whether the semantic-version range written in `range` admits the version
/// written in `version`; false whenever either string fails to parse.
pub uninterp spec fn semver_matches(range: Seq<char>, version: Seq<char>) -> bool;

/// Relies on `semver::VersionReq::parse`, `semver::Version::parse` and
/// `semver::VersionReq::matches`: whether a range admits a version is a
/// function of the two strings alone, and a pair with an unparseable range or
/// version is not a match.
#[verifier::external_body]
fn semver_range_allows(range: &str, installed: &str) -> (r: bool)
    ensures
        r == semver_matches(range@, installed@),
{
    semver::VersionReq::parse(range)
        .ok()
        .and_then(|range| semver::Version::parse(installed).ok().map(|v| range.matches(&v)))
        .unwrap_or(false)
}

/// The constraint `wanted` normalized for range parsing: every `==` rewritten
/// to `=`.
pub open spec fn normalized_constraint(wanted: Seq<char>) -> Seq<char> {
    replace_all_spec(wanted, "=="@, "="@)
}

/// Whether the installed version string `installed` fulfils the declared
/// constraint `wanted`: the wildcard `"*"` is always fulfilled, anything else
/// is read as a semantic-version range after normalization.
pub open spec fn fulfills_spec(installed: Seq<char>, wanted: Seq<char>) -> bool {
    if wanted == "*"@ {
        true
    } else {
        semver_matches(normalized_constraint(wanted), installed)
    }
}

/// Decides whether `installed` fulfils the constraint `wanted`.
pub fn installed_version_fulfills_requirement(installed: &str, wanted: &str) -> (r: bool)
    ensures
        r == fulfills_spec(installed@, wanted@),
{
    if str_eq(wanted, "*") {
        return true;
    }
    let normalized = replace_all(wanted, "==", "=");
    semver_range_allows(normalized.as_str(), installed)
}

/// A pinned constraint written with `==` behaves exactly like the same pin
/// written with a bare `=`, for any version text free of `=` characters.
pub proof fn lemma_double_equals_equivalent_to_single(version: Seq<char>, installed: Seq<char>)
    requires
        forall|k: int| 0 <= k < version.len() ==> version[k] != '=',
    ensures
        fulfills_spec(installed, seq!['=', '='] + version) == fulfills_spec(
            installed,
            seq!['='] + version,
        ),
{
    reveal_strlit("*");
    reveal_strlit("==");
    reveal_strlit("=");
    let pat = "=="@;
    let rep = "="@;
    let double = seq!['=', '='] + version;
    let single = seq!['='] + version;
    assert(pat =~= seq!['=', '=']);
    assert(rep =~= seq!['=']);
    // Neither spelling is the wildcard constraint.
    assert(double != "*"@) by {
        assert(double.len() == 2 + version.len());
        assert("*"@.len() == 1);
    }
    assert(single != "*"@) by {
        assert(single[0] == '=');
        assert("*"@[0] == '*');
    }
    // The version text itself contains no `==` to rewrite.
    crate::text::lemma_replace_all_spec_absent(version, pat, rep);
    // `==` + version normalizes to `=` + version.
    assert(double.subrange(0, 2) =~= pat);
    assert(double.skip(2) =~= version);
    assert(normalized_constraint(double) =~= rep + version);
    // `=` + version is already normalized.
    if version.len() == 0 {
        assert(single.len() < pat.len());
        assert(normalized_constraint(single) =~= rep + version);
    } else {
        assert(single.subrange(0, 2)[1] == version[0]);
        assert(single.subrange(0, 2) != pat);
        assert(single.skip(1) =~= version);
        assert(normalized_constraint(single) =~= seq![single[0]] + version);
        assert(normalized_constraint(single) =~= rep + version);
    }
}

} // verus!
