//! The galaxy data model: declared requirements, the snapshot of installed
//! collections and roles, and the decision whether `ansible-galaxy install`
//! has to run before the real tool is launched.

use crate::constraint::{fulfills_spec, installed_version_fulfills_requirement};
use crate::text::{replace_all, replace_all_spec, str_eq};
use vstd::prelude::*;

verus! {

/// One declared requirement of the manifest: a package name and a version
/// constraint.
pub struct GalaxyRequirement {
    pub name: String,
    pub version: String,
}

/// The requirements manifest: collections and roles, checked independently.
pub struct GalaxyRequirementsFile {
    pub collections: Vec<GalaxyRequirement>,
    pub roles: Vec<GalaxyRequirement>,
}

/// The install-metadata marker of one installed collection or role: the
/// version it records.
pub struct GalaxyInstallInfoFile {
    pub version: String,
}

/// One package found under an install root: its name and every installed
/// version of it, in scan order.
pub struct InstalledPackage {
    pub name: String,
    pub versions: Vec<String>,
}

/// Everything found under one install root.
pub struct InstalledRoot {
    pub path: String,
    pub packages: Vec<InstalledPackage>,
}

/// The snapshot of installed content: per install root, per package name,
/// the installed version strings. Built once by the directory scanners and
/// read once by the requirement check.
pub struct InstalledRecord {
    pub roots: Vec<InstalledRoot>,
}

/// Whether some installed version of the package fulfils the constraint.
pub open spec fn package_fulfills(package: InstalledPackage, wanted: Seq<char>) -> bool {
    exists|j: int|
        0 <= j < package.versions@.len() && fulfills_spec(#[trigger] package.versions@[j]@, wanted)
}

/// Whether the root holds a package of this name with a fulfilling version.
pub open spec fn root_fulfills(root: InstalledRoot, name: Seq<char>, wanted: Seq<char>) -> bool {
    exists|i: int|
        0 <= i < root.packages@.len() && (#[trigger] root.packages@[i]).name@ == name
            && package_fulfills(root.packages@[i], wanted)
}

/// Whether the record satisfies one requirement: a wildcard constraint is
/// satisfied outright, whatever is installed; any other constraint demands
/// that some installed version of the package, under some root, fulfils it.
pub open spec fn requirement_satisfied(record: InstalledRecord, requirement: GalaxyRequirement) -> bool {
    requirement.version@ == "*"@ || exists|k: int|
        0 <= k < record.roots@.len() && root_fulfills(
            #[trigger] record.roots@[k],
            requirement.name@,
            requirement.version@,
        )
}

/// Whether any requirement of the sequence is unsatisfied by the record.
pub open spec fn install_required(record: InstalledRecord, requirements: Seq<GalaxyRequirement>) -> bool {
    exists|i: int|
        0 <= i < requirements.len() && !requirement_satisfied(record, #[trigger] requirements[i])
}

/// Scans one package's installed versions for one that fulfils the
/// constraint; a version string that fulfils nothing (unparseable ones among
/// them) is skipped, never fatal.
fn package_has_fulfilling_version(package: &InstalledPackage, wanted: &str) -> (r: bool)
    ensures
        r == package_fulfills(*package, wanted@),
{
    let mut j: usize = 0;
    while j < package.versions.len()
        invariant
            j <= package.versions@.len(),
            forall|t: int| 0 <= t < j ==> !fulfills_spec(#[trigger] package.versions@[t]@, wanted@),
        decreases package.versions@.len() - j,
    {
        if installed_version_fulfills_requirement(package.versions[j].as_str(), wanted) {
            return true;
        }
        j = j + 1;
    }
    false
}

/// Scans one root for a package of the requirement's name with a fulfilling
/// installed version.
fn root_has_fulfilling_package(root: &InstalledRoot, name: &str, wanted: &str) -> (r: bool)
    ensures
        r == root_fulfills(*root, name@, wanted@),
{
    let mut i: usize = 0;
    while i < root.packages.len()
        invariant
            i <= root.packages@.len(),
            forall|t: int|
                0 <= t < i ==> !((#[trigger] root.packages@[t]).name@ == name@ && package_fulfills(
                    root.packages@[t],
                    wanted@,
                )),
        decreases root.packages@.len() - i,
    {
        let package = &root.packages[i];
        if str_eq(package.name.as_str(), name) && package_has_fulfilling_version(package, wanted) {
            return true;
        }
        i = i + 1;
    }
    false
}

/// Decides whether the record satisfies one requirement.
pub fn requirement_is_satisfied(installed: &InstalledRecord, requirement: &GalaxyRequirement) -> (r:
    bool)
    ensures
        r == requirement_satisfied(*installed, *requirement),
{
    if str_eq(requirement.version.as_str(), "*") {
        return true;
    }
    let mut k: usize = 0;
    while k < installed.roots.len()
        invariant
            k <= installed.roots@.len(),
            forall|t: int|
                0 <= t < k ==> !root_fulfills(
                    #[trigger] installed.roots@[t],
                    requirement.name@,
                    requirement.version@,
                ),
        decreases installed.roots@.len() - k,
    {
        if root_has_fulfilling_package(
            &installed.roots[k],
            requirement.name.as_str(),
            requirement.version.as_str(),
        ) {
            return true;
        }
        k = k + 1;
    }
    false
}

/// Decides whether any declared requirement is unsatisfied by the installed
/// content, so that `ansible-galaxy install` has to run first.
pub fn requires_ansible_galaxy_install(
    installed: &InstalledRecord,
    requirements: &Vec<GalaxyRequirement>,
) -> (r: bool)
    ensures
        r == install_required(*installed, requirements@),
{
    let mut i: usize = 0;
    while i < requirements.len()
        invariant
            i <= requirements@.len(),
            forall|t: int|
                0 <= t < i ==> requirement_satisfied(*installed, #[trigger] requirements@[t]),
        decreases requirements@.len() - i,
    {
        if !requirement_is_satisfied(installed, &requirements[i]) {
            return true;
        }
        i = i + 1;
    }
    false
}

/// The collection name encoded in an installed collection's directory entry:
/// the entry's name with every occurrence of the `-{version}.info` token
/// removed, `version` being the version its metadata marker records.
pub fn collection_name_from_entry(entry_name: &str, version: &str) -> (r: String)
    ensures
        r@ == replace_all_spec(entry_name@, "-"@ + version@ + ".info"@, Seq::<char>::empty()),
{
    let suffix = String::from_str("-").concat(version).concat(".info");
    let cleaned = replace_all(entry_name, suffix.as_str(), "");
    proof {
        reveal_strlit("");
        assert(""@ =~= Seq::<char>::empty());
    }
    cleaned
}

/// Whether the record holds `version` installed for package `name` under the
/// root `path`.
pub open spec fn record_contains(
    record: InstalledRecord,
    path: Seq<char>,
    name: Seq<char>,
    version: Seq<char>,
) -> bool {
    exists|k: int, i: int, j: int|
        {
            &&& 0 <= k < record.roots@.len()
            &&& 0 <= i < record.roots@[k].packages@.len()
            &&& 0 <= j < record.roots@[k].packages@[i].versions@.len()
            &&& (#[trigger] record.roots@[k].packages@[i].versions@[j])@ == version
            &&& record.roots@[k].path@ == path
            &&& record.roots@[k].packages@[i].name@ == name
        }
}

/// Position of a root with this path, if one exists.
fn find_root(roots: &Vec<InstalledRoot>, path: &str) -> (r: Option<usize>)
    ensures
        match r {
            Some(k) => k < roots@.len() && roots@[k as int].path@ == path@,
            None => forall|t: int| 0 <= t < roots@.len() ==> (#[trigger] roots@[t]).path@ != path@,
        },
{
    let mut k: usize = 0;
    while k < roots.len()
        invariant
            k <= roots@.len(),
            forall|t: int| 0 <= t < k ==> (#[trigger] roots@[t]).path@ != path@,
        decreases roots@.len() - k,
    {
        if str_eq(roots[k].path.as_str(), path) {
            return Some(k);
        }
        k = k + 1;
    }
    None
}

/// Position of a package with this name, if one exists.
fn find_package(packages: &Vec<InstalledPackage>, name: &str) -> (r: Option<usize>)
    ensures
        match r {
            Some(i) => i < packages@.len() && packages@[i as int].name@ == name@,
            None => forall|t: int|
                0 <= t < packages@.len() ==> (#[trigger] packages@[t]).name@ != name@,
        },
{
    let mut i: usize = 0;
    while i < packages.len()
        invariant
            i <= packages@.len(),
            forall|t: int| 0 <= t < i ==> (#[trigger] packages@[t]).name@ != name@,
        decreases packages@.len() - i,
    {
        if str_eq(packages[i].name.as_str(), name) {
            return Some(i);
        }
        i = i + 1;
    }
    None
}

impl InstalledRecord {
    /// An empty snapshot: no roots, so nothing installed.
    pub fn new() -> (r: InstalledRecord)
        ensures
            r.roots@.len() == 0,
    {
        InstalledRecord { roots: Vec::new() }
    }

    /// Records one installed version of `name` under the root `path`, as the
    /// directory scanners find content: the version joins the package's list
    /// when root and package are already on record, and a fresh package or
    /// root entry is opened otherwise. Nothing else changes: the record holds
    /// exactly what it held before, plus this one installation.
    pub fn add_version(&mut self, path: &str, name: &str, version: String)
        ensures
            record_contains(*final(self), path@, name@, version@),
            forall|p: Seq<char>, n: Seq<char>, v: Seq<char>|
                #[trigger] record_contains(*old(self), p, n, v) ==> record_contains(
                    *final(self),
                    p,
                    n,
                    v,
                ),
            forall|p: Seq<char>, n: Seq<char>, v: Seq<char>|
                #[trigger] record_contains(*final(self), p, n, v) ==> record_contains(
                    *old(self),
                    p,
                    n,
                    v,
                ) || (p == path@ && n == name@ && v == version@),
    {
        let ghost added = version@;
        match find_root(&self.roots, path) {
            Some(k) => {
                let root = &mut self.roots[k];
                match find_package(&root.packages, name) {
                    Some(i) => {
                        let package = &mut root.packages[i];
                        package.versions.push(version);
                        proof {
                            let pre = *old(self);
                            let post = *self;
                            let ki = k as int;
                            let ii = i as int;
                            let jn = pre.roots@[ki].packages@[ii].versions@.len() as int;
                            assert(post.roots@[ki].packages@[ii].versions@[jn]@ == added);
                            assert(record_contains(post, path@, name@, added));
                            assert forall|p: Seq<char>, n: Seq<char>, v: Seq<char>|
                                #[trigger] record_contains(pre, p, n, v) implies record_contains(
                                post,
                                p,
                                n,
                                v,
                            ) by {
                                let (k2, i2, j2) = choose|k2: int, i2: int, j2: int|
                                    {
                                        &&& 0 <= k2 < pre.roots@.len()
                                        &&& 0 <= i2 < pre.roots@[k2].packages@.len()
                                        &&& 0 <= j2 < pre.roots@[k2].packages@[i2].versions@.len()
                                        &&& (
                                        #[trigger] pre.roots@[k2].packages@[i2].versions@[j2])@
                                            == v
                                        &&& pre.roots@[k2].path@ == p
                                        &&& pre.roots@[k2].packages@[i2].name@ == n
                                    };
                                assert(post.roots@[k2].packages@[i2].versions@[j2]@ == v);
                            };
                            assert forall|p: Seq<char>, n: Seq<char>, v: Seq<char>|
                                #[trigger] record_contains(post, p, n, v) implies record_contains(
                                pre,
                                p,
                                n,
                                v,
                            ) || (p == path@ && n == name@ && v == added) by {
                                let (k2, i2, j2) = choose|k2: int, i2: int, j2: int|
                                    {
                                        &&& 0 <= k2 < post.roots@.len()
                                        &&& 0 <= i2 < post.roots@[k2].packages@.len()
                                        &&& 0 <= j2 < post.roots@[k2].packages@[i2].versions@.len()
                                        &&& (
                                        #[trigger] post.roots@[k2].packages@[i2].versions@[j2])@
                                            == v
                                        &&& post.roots@[k2].path@ == p
                                        &&& post.roots@[k2].packages@[i2].name@ == n
                                    };
                                if !(k2 == ki && i2 == ii && j2 == jn) {
                                    assert(pre.roots@[k2].packages@[i2].versions@[j2]@ == v);
                                }
                            };
                        }
                    },
                    None => {
                        let versions = vec![version];
                        root.packages.push(
                            InstalledPackage { name: String::from_str(name), versions },
                        );
                        proof {
                            let pre = *old(self);
                            let post = *self;
                            let ki = k as int;
                            let im = pre.roots@[ki].packages@.len() as int;
                            assert(post.roots@[ki].packages@[im].versions@[0]@ == added);
                            assert(record_contains(post, path@, name@, added));
                            assert forall|p: Seq<char>, n: Seq<char>, v: Seq<char>|
                                #[trigger] record_contains(pre, p, n, v) implies record_contains(
                                post,
                                p,
                                n,
                                v,
                            ) by {
                                let (k2, i2, j2) = choose|k2: int, i2: int, j2: int|
                                    {
                                        &&& 0 <= k2 < pre.roots@.len()
                                        &&& 0 <= i2 < pre.roots@[k2].packages@.len()
                                        &&& 0 <= j2 < pre.roots@[k2].packages@[i2].versions@.len()
                                        &&& (
                                        #[trigger] pre.roots@[k2].packages@[i2].versions@[j2])@
                                            == v
                                        &&& pre.roots@[k2].path@ == p
                                        &&& pre.roots@[k2].packages@[i2].name@ == n
                                    };
                                assert(post.roots@[k2].packages@[i2].versions@[j2]@ == v);
                            };
                            assert forall|p: Seq<char>, n: Seq<char>, v: Seq<char>|
                                #[trigger] record_contains(post, p, n, v) implies record_contains(
                                pre,
                                p,
                                n,
                                v,
                            ) || (p == path@ && n == name@ && v == added) by {
                                let (k2, i2, j2) = choose|k2: int, i2: int, j2: int|
                                    {
                                        &&& 0 <= k2 < post.roots@.len()
                                        &&& 0 <= i2 < post.roots@[k2].packages@.len()
                                        &&& 0 <= j2 < post.roots@[k2].packages@[i2].versions@.len()
                                        &&& (
                                        #[trigger] post.roots@[k2].packages@[i2].versions@[j2])@
                                            == v
                                        &&& post.roots@[k2].path@ == p
                                        &&& post.roots@[k2].packages@[i2].name@ == n
                                    };
                                if !(k2 == ki && i2 == im) {
                                    assert(pre.roots@[k2].packages@[i2].versions@[j2]@ == v);
                                }
                            };
                        }
                    },
                }
            },
            None => {
                let versions = vec![version];
                let packages = vec![
                    InstalledPackage { name: String::from_str(name), versions },
                ];
                self.roots.push(InstalledRoot { path: String::from_str(path), packages });
                proof {
                    let pre = *old(self);
                    let post = *self;
                    let kn = pre.roots@.len() as int;
                    assert(post.roots@[kn].packages@[0].versions@[0]@ == added);
                    assert(record_contains(post, path@, name@, added));
                    assert forall|p: Seq<char>, n: Seq<char>, v: Seq<char>|
                        #[trigger] record_contains(pre, p, n, v) implies record_contains(
                        post,
                        p,
                        n,
                        v,
                    ) by {
                        let (k2, i2, j2) = choose|k2: int, i2: int, j2: int|
                            {
                                &&& 0 <= k2 < pre.roots@.len()
                                &&& 0 <= i2 < pre.roots@[k2].packages@.len()
                                &&& 0 <= j2 < pre.roots@[k2].packages@[i2].versions@.len()
                                &&& (#[trigger] pre.roots@[k2].packages@[i2].versions@[j2])@ == v
                                &&& pre.roots@[k2].path@ == p
                                &&& pre.roots@[k2].packages@[i2].name@ == n
                            };
                        assert(post.roots@[k2].packages@[i2].versions@[j2]@ == v);
                    };
                    assert forall|p: Seq<char>, n: Seq<char>, v: Seq<char>|
                        #[trigger] record_contains(post, p, n, v) implies record_contains(
                        pre,
                        p,
                        n,
                        v,
                    ) || (p == path@ && n == name@ && v == added) by {
                        let (k2, i2, j2) = choose|k2: int, i2: int, j2: int|
                            {
                                &&& 0 <= k2 < post.roots@.len()
                                &&& 0 <= i2 < post.roots@[k2].packages@.len()
                                &&& 0 <= j2 < post.roots@[k2].packages@[i2].versions@.len()
                                &&& (#[trigger] post.roots@[k2].packages@[i2].versions@[j2])@ == v
                                &&& post.roots@[k2].path@ == p
                                &&& post.roots@[k2].packages@[i2].name@ == n
                            };
                        if k2 < kn {
                            assert(pre.roots@[k2].packages@[i2].versions@[j2]@ == v);
                        }
                    };
                }
            },
        }
    }
}

/// A non-wildcard requirement is satisfied exactly when the record holds,
/// under some root, an installed version of its package that fulfils its
/// constraint.
pub proof fn lemma_satisfied_iff_contains_fulfilling(
    record: InstalledRecord,
    requirement: GalaxyRequirement,
)
    requires
        requirement.version@ != "*"@,
    ensures
        requirement_satisfied(record, requirement) <==> exists|p: Seq<char>, v: Seq<char>|
            #[trigger] record_contains(record, p, requirement.name@, v) && fulfills_spec(
                v,
                requirement.version@,
            ),
{
    if requirement_satisfied(record, requirement) {
        let k = choose|k: int|
            0 <= k < record.roots@.len() && root_fulfills(
                #[trigger] record.roots@[k],
                requirement.name@,
                requirement.version@,
            );
        let root = record.roots@[k];
        let i = choose|i: int|
            0 <= i < root.packages@.len() && (#[trigger] root.packages@[i]).name@
                == requirement.name@ && package_fulfills(root.packages@[i], requirement.version@);
        let package = root.packages@[i];
        let j = choose|j: int|
            0 <= j < package.versions@.len() && fulfills_spec(
                #[trigger] package.versions@[j]@,
                requirement.version@,
            );
        assert(record_contains(record, root.path@, requirement.name@, package.versions@[j]@));
    }
    if exists|p: Seq<char>, v: Seq<char>|
        #[trigger] record_contains(record, p, requirement.name@, v) && fulfills_spec(
            v,
            requirement.version@,
        ) {
        let (p, v) = choose|p: Seq<char>, v: Seq<char>|
            #[trigger] record_contains(record, p, requirement.name@, v) && fulfills_spec(
                v,
                requirement.version@,
            );
        let (k, i, j) = choose|k: int, i: int, j: int|
            {
                &&& 0 <= k < record.roots@.len()
                &&& 0 <= i < record.roots@[k].packages@.len()
                &&& 0 <= j < record.roots@[k].packages@[i].versions@.len()
                &&& (#[trigger] record.roots@[k].packages@[i].versions@[j])@ == v
                &&& record.roots@[k].path@ == p
                &&& record.roots@[k].packages@[i].name@ == requirement.name@
            };
        assert(package_fulfills(record.roots@[k].packages@[i], requirement.version@));
        assert(root_fulfills(record.roots@[k], requirement.name@, requirement.version@));
    }
}

/// Requirements whose constraint is the wildcard never demand an install,
/// whatever is installed — even an empty record.
pub proof fn lemma_wildcards_never_require_install(
    record: InstalledRecord,
    requirements: Seq<GalaxyRequirement>,
)
    requires
        forall|i: int| 0 <= i < requirements.len() ==> (#[trigger] requirements[i]).version@
            == "*"@,
    ensures
        !install_required(record, requirements),
{
}

/// A non-wildcard requirement whose package name appears under no root of
/// the record is unsatisfied.
pub proof fn lemma_absent_name_unsatisfied(record: InstalledRecord, requirement: GalaxyRequirement)
    requires
        requirement.version@ != "*"@,
        forall|k: int, i: int|
            0 <= k < record.roots@.len() && 0 <= i < record.roots@[k].packages@.len() ==> (
            #[trigger] record.roots@[k].packages@[i]).name@ != requirement.name@,
    ensures
        !requirement_satisfied(record, requirement),
{
    assert forall|k: int| 0 <= k < record.roots@.len() implies !root_fulfills(
        #[trigger] record.roots@[k],
        requirement.name@,
        requirement.version@,
    ) by {
        assert(forall|i: int| 0 <= i < record.roots@[k].packages@.len() ==> (
        #[trigger] record.roots@[k].packages@[i]).name@ != requirement.name@);
    }
}

/// One installed version that fulfils the constraint settles satisfaction,
/// whatever else stands in the record: neighbouring entries that fulfil
/// nothing — unparseable version strings among them — cannot mask it.
pub proof fn lemma_one_fulfilling_version_satisfies(
    record: InstalledRecord,
    requirement: GalaxyRequirement,
    k: int,
    i: int,
    j: int,
)
    requires
        0 <= k < record.roots@.len(),
        0 <= i < record.roots@[k].packages@.len(),
        0 <= j < record.roots@[k].packages@[i].versions@.len(),
        record.roots@[k].packages@[i].name@ == requirement.name@,
        fulfills_spec(record.roots@[k].packages@[i].versions@[j]@, requirement.version@),
    ensures
        requirement_satisfied(record, requirement),
{
    assert(package_fulfills(record.roots@[k].packages@[i], requirement.version@));
    assert(root_fulfills(record.roots@[k], requirement.name@, requirement.version@));
}

/// An empty requirement sequence never requires an install.
pub proof fn lemma_no_requirements_no_install(record: InstalledRecord)
    ensures
        !install_required(record, Seq::<GalaxyRequirement>::empty()),
{
}

proof fn lemma_install_required_multiset_mono(
    record: InstalledRecord,
    requirements: Seq<GalaxyRequirement>,
    reordered: Seq<GalaxyRequirement>,
)
    requires
        requirements.to_multiset() == reordered.to_multiset(),
        install_required(record, requirements),
    ensures
        install_required(record, reordered),
{
    broadcast use vstd::seq_lib::group_to_multiset_ensures;

    let i = choose|i: int|
        0 <= i < requirements.len() && !requirement_satisfied(
            record,
            #[trigger] requirements[i],
        );
    let unsatisfied = requirements[i];
    assert(requirements.contains(unsatisfied));
    assert(requirements.to_multiset().count(unsatisfied) > 0);
    assert(reordered.to_multiset().count(unsatisfied) > 0);
    assert(reordered.contains(unsatisfied));
    let t = choose|t: int| 0 <= t < reordered.len() && reordered[t] == unsatisfied;
    assert(!requirement_satisfied(record, reordered[t]));
}

/// The decision does not depend on the order of the requirements: any
/// permutation of the sequence yields the same answer.
pub proof fn lemma_install_required_order_independent(
    record: InstalledRecord,
    requirements: Seq<GalaxyRequirement>,
    reordered: Seq<GalaxyRequirement>,
)
    requires
        requirements.to_multiset() == reordered.to_multiset(),
    ensures
        install_required(record, requirements) == install_required(record, reordered),
{
    if install_required(record, requirements) {
        lemma_install_required_multiset_mono(record, requirements, reordered);
    }
    if install_required(record, reordered) {
        lemma_install_required_multiset_mono(record, reordered, requirements);
    }
}

} // verus!
