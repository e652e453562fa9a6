//! The delegation decisions: which ansible tool the invocation means, whether
//! that tool can need galaxy content, which requirements file to consult, and
//! which package the environment runner has to fetch.
//!
//! Everything here is pure: the caller hands in what it read from the
//! invocation and the environment, and gets the decision back.

use crate::text::str_eq;
use vstd::prelude::*;

verus! {

/// The launcher sub-command tokens that name an ansible tool.
pub open spec fn recognized_subcommand(subcommand: Seq<char>) -> bool {
    ||| subcommand == "config"@
    ||| subcommand == "console"@
    ||| subcommand == "doc"@
    ||| subcommand == "galaxy"@
    ||| subcommand == "inventory"@
    ||| subcommand == "playbook"@
    ||| subcommand == "pull"@
    ||| subcommand == "vault"@
}

fn is_recognized_subcommand(subcommand: &str) -> (r: bool)
    ensures
        r == recognized_subcommand(subcommand@),
{
    str_eq(subcommand, "config") || str_eq(subcommand, "console") || str_eq(subcommand, "doc")
        || str_eq(subcommand, "galaxy") || str_eq(subcommand, "inventory") || str_eq(
        subcommand,
        "playbook",
    ) || str_eq(subcommand, "pull") || str_eq(subcommand, "vault")
}

/// Which command to delegate to, and how many leading arguments of the
/// invocation belong to the wrapper rather than to that command: a program
/// name other than the wrapper's own is delegated as it stands; under the
/// wrapper's own name, a recognized first argument selects `ansible-` plus
/// that token, and anything else falls back to plain `ansible`.
pub fn determine_ansible_command_and_arguments(
    program: String,
    invoked_as_wrapper: bool,
    subcommand: Option<&String>,
) -> (r: (String, usize))
    ensures
        !invoked_as_wrapper ==> r.0 == program && r.1 == 1,
        invoked_as_wrapper ==> match subcommand {
            Some(sub) => {
                if recognized_subcommand(sub@) {
                    r.0@ == "ansible-"@ + sub@ && r.1 == 2
                } else {
                    r.0@ == "ansible"@ && r.1 == 1
                }
            },
            None => r.0@ == "ansible"@ && r.1 == 1,
        },
{
    if !invoked_as_wrapper {
        return (program, 1);
    }
    match subcommand {
        Some(sub) => {
            if is_recognized_subcommand(sub.as_str()) {
                (String::from_str("ansible-").concat(sub.as_str()), 2)
            } else {
                (String::from_str("ansible"), 1)
            }
        },
        None => (String::from_str("ansible"), 1),
    }
}

/// Whether some argument asks for help or for the version, which disables the
/// pre-flight dependency check.
pub open spec fn has_help_or_version_flag(arguments: Seq<String>) -> bool {
    exists|i: int|
        0 <= i < arguments.len() && ((#[trigger] arguments[i])@ == "--help"@ || arguments[i]@
            == "-h"@ || arguments[i]@ == "--version"@)
}

/// The delegated commands that execute automation content and can therefore
/// need galaxy content.
pub open spec fn galaxy_dependent_command(command: Seq<char>) -> bool {
    ||| command == "ansible-playbook"@
    ||| command == "ansible-console"@
    ||| command == "ansible-pull"@
}

/// Decides whether the pre-flight dependency check applies: the delegated
/// command can need galaxy content, and no help or version flag stands
/// anywhere among the arguments.
pub fn ansible_command_uses_galaxy_dependencies(
    ansible_command: &str,
    arguments: &Vec<String>,
) -> (r: bool)
    ensures
        r == (!has_help_or_version_flag(arguments@) && galaxy_dependent_command(ansible_command@)),
{
    let mut i: usize = 0;
    while i < arguments.len()
        invariant
            i <= arguments@.len(),
            forall|t: int|
                0 <= t < i ==> !((#[trigger] arguments@[t])@ == "--help"@ || arguments@[t]@
                    == "-h"@ || arguments@[t]@ == "--version"@),
        decreases arguments@.len() - i,
    {
        let argument = arguments[i].as_str();
        if str_eq(argument, "--help") || str_eq(argument, "-h") || str_eq(argument, "--version") {
            return false;
        }
        i = i + 1;
    }
    str_eq(ansible_command, "ansible-playbook") || str_eq(ansible_command, "ansible-console")
        || str_eq(ansible_command, "ansible-pull")
}

/// Which requirements file the pre-flight check reads: an explicit override
/// wins unconditionally; otherwise the two default names are tried in order,
/// the first one present winning; none present disables the check.
pub fn lookup_galaxy_requirements_file(
    override_path: Option<String>,
    requirements_yml_exists: bool,
    requirements_yaml_exists: bool,
) -> (r: Option<String>)
    ensures
        match override_path {
            Some(path) => r == Some(path),
            None => {
                if requirements_yml_exists {
                    r is Some && r->0@ == "requirements.yml"@
                } else if requirements_yaml_exists {
                    r is Some && r->0@ == "requirements.yaml"@
                } else {
                    r is None
                }
            },
        },
{
    match override_path {
        Some(path) => Some(path),
        None => {
            if requirements_yml_exists {
                Some(String::from_str("requirements.yml"))
            } else if requirements_yaml_exists {
                Some(String::from_str("requirements.yaml"))
            } else {
                None
            }
        },
    }
}

/// The package the environment runner is told to fetch when the project
/// manifest does not pin ansible itself: `ansible-core`, pinned to an exact
/// version exactly when one is asked for and the manifest does not manage it.
pub fn ansible_core_package(use_ansible_from_pyproject: bool, version_override: Option<&String>) -> (r:
    String)
    ensures
        match version_override {
            Some(version) => {
                if use_ansible_from_pyproject {
                    r@ == "ansible-core"@
                } else {
                    r@ == "ansible-core=="@ + version@
                }
            },
            None => r@ == "ansible-core"@,
        },
{
    if use_ansible_from_pyproject {
        return String::from_str("ansible-core");
    }
    match version_override {
        Some(version) => String::from_str("ansible-core==").concat(version.as_str()),
        None => String::from_str("ansible-core"),
    }
}

} // verus!
