use ansible_wrapper::pyproject::{ansible_version_is_managed, Project, PyProjectFile};
use ansible_wrapper::text::{replace_all, str_eq, str_starts_with};
use ansible_wrapper::wrapper::{
    ansible_command_uses_galaxy_dependencies, ansible_core_package,
    determine_ansible_command_and_arguments, lookup_galaxy_requirements_file,
};

fn strings(items: &[&str]) -> Vec<String> {
    items.iter().map(|s| String::from(*s)).collect()
}

#[test]
fn foreign_program_name_is_delegated_verbatim() {
    let (command, skip) = determine_ansible_command_and_arguments(
        String::from("/usr/bin/ansible-playbook"),
        false,
        Some(&String::from("site.yml")),
    );
    assert_eq!(command, "/usr/bin/ansible-playbook");
    assert_eq!(skip, 1);
}

#[test]
fn recognized_subcommand_selects_the_tool() {
    let (command, skip) = determine_ansible_command_and_arguments(
        String::from("ansible-wrapper"),
        true,
        Some(&String::from("playbook")),
    );
    assert_eq!(command, "ansible-playbook");
    assert_eq!(skip, 2);
}

#[test]
fn unrecognized_subcommand_falls_back_to_ansible() {
    let (command, skip) = determine_ansible_command_and_arguments(
        String::from("ansible-wrapper"),
        true,
        Some(&String::from("frobnicate")),
    );
    assert_eq!(command, "ansible");
    assert_eq!(skip, 1);
}

#[test]
fn missing_subcommand_falls_back_to_ansible() {
    let (command, skip) =
        determine_ansible_command_and_arguments(String::from("ansible-wrapper"), true, None);
    assert_eq!(command, "ansible");
    assert_eq!(skip, 1);
}

#[test]
fn galaxy_dependent_commands_are_recognized() {
    let plain = strings(&["site.yml"]);
    assert!(ansible_command_uses_galaxy_dependencies("ansible-playbook", &plain));
    assert!(ansible_command_uses_galaxy_dependencies("ansible-console", &plain));
    assert!(ansible_command_uses_galaxy_dependencies("ansible-pull", &plain));
    assert!(!ansible_command_uses_galaxy_dependencies("ansible-doc", &plain));
    assert!(!ansible_command_uses_galaxy_dependencies("ansible", &plain));
}

#[test]
fn help_and_version_flags_disable_the_check() {
    assert!(!ansible_command_uses_galaxy_dependencies(
        "ansible-playbook",
        &strings(&["site.yml", "--help"]),
    ));
    assert!(!ansible_command_uses_galaxy_dependencies(
        "ansible-playbook",
        &strings(&["-h", "site.yml"]),
    ));
    assert!(!ansible_command_uses_galaxy_dependencies(
        "ansible-playbook",
        &strings(&["--version"]),
    ));
    assert!(ansible_command_uses_galaxy_dependencies(
        "ansible-playbook",
        &strings(&["--verbose", "site.yml"]),
    ));
}

#[test]
fn requirements_file_override_wins() {
    let chosen = lookup_galaxy_requirements_file(Some(String::from("custom.yml")), true, true);
    assert_eq!(chosen, Some(String::from("custom.yml")));
}

#[test]
fn requirements_file_defaults_are_tried_in_order() {
    assert_eq!(
        lookup_galaxy_requirements_file(None, true, true),
        Some(String::from("requirements.yml")),
    );
    assert_eq!(
        lookup_galaxy_requirements_file(None, false, true),
        Some(String::from("requirements.yaml")),
    );
    assert_eq!(lookup_galaxy_requirements_file(None, false, false), None);
}

#[test]
fn core_package_is_pinned_only_without_project_management() {
    let version = String::from("2.17.0");
    assert_eq!(ansible_core_package(false, Some(&version)), "ansible-core==2.17.0");
    assert_eq!(ansible_core_package(true, Some(&version)), "ansible-core");
    assert_eq!(ansible_core_package(false, None), "ansible-core");
    assert_eq!(ansible_core_package(true, None), "ansible-core");
}

#[test]
fn project_dependencies_pin_ansible_by_prefix() {
    let pins = PyProjectFile {
        project: Project { dependencies: strings(&["requests", "ansible-core==2.17.0"]) },
    };
    let pins_plain = PyProjectFile { project: Project { dependencies: strings(&["ansible"]) } };
    let no_pin = PyProjectFile { project: Project { dependencies: strings(&["requests"]) } };
    let empty = PyProjectFile { project: Project { dependencies: Vec::new() } };
    assert!(ansible_version_is_managed(Some(&pins)));
    assert!(ansible_version_is_managed(Some(&pins_plain)));
    assert!(!ansible_version_is_managed(Some(&no_pin)));
    assert!(!ansible_version_is_managed(Some(&empty)));
    assert!(!ansible_version_is_managed(None));
}

#[test]
fn replace_all_rewrites_every_occurrence() {
    assert_eq!(replace_all("==7.0.0", "==", "="), "=7.0.0");
    assert_eq!(replace_all(">=6, ==7", "==", "="), ">=6, =7");
    assert_eq!(replace_all("====", "==", "="), "==");
    assert_eq!(replace_all("abc", "==", "="), "abc");
    assert_eq!(replace_all("a-1.0.info-1.0.info", "-1.0.info", ""), "a");
}

#[test]
fn string_helpers_compare_characters() {
    assert!(str_eq("ansible", "ansible"));
    assert!(!str_eq("ansible", "ansible-core"));
    assert!(str_starts_with("ansible-core", "ansible"));
    assert!(!str_starts_with("ansi", "ansible"));
}
