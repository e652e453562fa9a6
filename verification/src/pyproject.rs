//! The slice of a Python project manifest that matters here: its declared
//! dependencies, read to see whether the project itself pins ansible.

use crate::text::str_starts_with;
use vstd::prelude::*;

verus! {

/// A Python project manifest, reduced to the one table that is consulted.
pub struct PyProjectFile {
    pub project: Project,
}

/// The project table of the manifest: its dependency declarations.
pub struct Project {
    pub dependencies: Vec<String>,
}

/// Whether some declared dependency pins ansible: every such declaration —
/// `ansible` and `ansible-core` alike — starts with the token `ansible`.
pub open spec fn pins_ansible(dependencies: Seq<String>) -> bool {
    exists|i: int|
        0 <= i < dependencies.len() && "ansible"@.is_prefix_of((#[trigger] dependencies[i])@)
}

/// Decides whether the ansible version is managed by the project manifest:
/// a manifest was found, and one of its dependencies pins ansible.
pub fn ansible_version_is_managed(pyproject: Option<&PyProjectFile>) -> (r: bool)
    ensures
        r == (pyproject is Some && pins_ansible(pyproject->0.project.dependencies@)),
{
    match pyproject {
        None => false,
        Some(file) => {
            let mut i: usize = 0;
            while i < file.project.dependencies.len()
                invariant
                    pyproject == Some(file),
                    i <= file.project.dependencies@.len(),
                    forall|t: int|
                        0 <= t < i ==> !"ansible"@.is_prefix_of(
                            (#[trigger] file.project.dependencies@[t])@,
                        ),
                decreases file.project.dependencies@.len() - i,
            {
                if str_starts_with(file.project.dependencies[i].as_str(), "ansible") {
                    proof {
                        assert("ansible"@.is_prefix_of(
                            (file.project.dependencies@[i as int])@,
                        ));
                        assert(pins_ansible(file.project.dependencies@));
                    }
                    return true;
                }
                i = i + 1;
            }
            false
        },
    }
}

} // verus!
