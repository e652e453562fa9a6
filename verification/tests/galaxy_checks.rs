use ansible_wrapper::galaxy::{
    collection_name_from_entry, requirement_is_satisfied, requires_ansible_galaxy_install,
    GalaxyRequirement, GalaxyRequirementsFile, InstalledRecord,
};

fn requirement(name: &str, version: &str) -> GalaxyRequirement {
    GalaxyRequirement { name: String::from(name), version: String::from(version) }
}

fn record_with(entries: &[(&str, &str, &str)]) -> InstalledRecord {
    let mut record = InstalledRecord::new();
    for (path, name, version) in entries {
        record.add_version(path, name, String::from(*version));
    }
    record
}

#[test]
fn wildcard_requirement_never_requires_install() {
    let empty = InstalledRecord::new();
    let requirements = vec![requirement("community.general", "*")];
    assert!(!requires_ansible_galaxy_install(&empty, &requirements));
}

#[test]
fn wildcard_requirement_satisfied_with_unrelated_content() {
    let record = record_with(&[("/roots/a", "other.collection", "1.0.0")]);
    let requirements = vec![requirement("community.general", "*")];
    assert!(!requires_ansible_galaxy_install(&record, &requirements));
}

#[test]
fn pinned_requirement_satisfied_by_exact_version() {
    let record = record_with(&[("/roots/a", "community.general", "7.0.0")]);
    let requirements = vec![requirement("community.general", "==7.0.0")];
    assert!(!requires_ansible_galaxy_install(&record, &requirements));
}

#[test]
fn pinned_requirement_unsatisfied_by_older_version() {
    let record = record_with(&[("/roots/a", "community.general", "6.9.0")]);
    let requirements = vec![requirement("community.general", "==7.0.0")];
    assert!(requires_ansible_galaxy_install(&record, &requirements));
}

#[test]
fn absent_name_requires_install() {
    let record = record_with(&[
        ("/roots/a", "other.collection", "7.0.0"),
        ("/roots/b", "another.collection", "7.0.0"),
    ]);
    let requirements = vec![requirement("community.general", "==7.0.0")];
    assert!(requires_ansible_galaxy_install(&record, &requirements));
}

#[test]
fn unparseable_installed_version_is_skipped_not_fatal() {
    let record = record_with(&[
        ("/roots/a", "community.general", "not-a-version"),
        ("/roots/b", "community.general", "7.0.0"),
    ]);
    let requirements = vec![requirement("community.general", "==7.0.0")];
    assert!(!requires_ansible_galaxy_install(&record, &requirements));
}

#[test]
fn unparseable_version_later_in_same_list_is_skipped() {
    let record = record_with(&[
        ("/roots/a", "community.general", "not-a-version"),
        ("/roots/a", "community.general", "7.0.0"),
    ]);
    let requirements = vec![requirement("community.general", "==7.0.0")];
    assert!(!requires_ansible_galaxy_install(&record, &requirements));
}

#[test]
fn only_unparseable_versions_require_install() {
    let record = record_with(&[("/roots/a", "community.general", "not-a-version")]);
    let requirements = vec![requirement("community.general", "==7.0.0")];
    assert!(requires_ansible_galaxy_install(&record, &requirements));
}

#[test]
fn double_equals_and_single_equals_agree() {
    let record = record_with(&[("/roots/a", "community.general", "7.0.0")]);
    let double = vec![requirement("community.general", "==7.0.0")];
    let single = vec![requirement("community.general", "=7.0.0")];
    assert!(!requires_ansible_galaxy_install(&record, &double));
    assert!(!requires_ansible_galaxy_install(&record, &single));

    let older = record_with(&[("/roots/a", "community.general", "6.9.0")]);
    assert!(requires_ansible_galaxy_install(&older, &double));
    assert!(requires_ansible_galaxy_install(&older, &single));
}

#[test]
fn empty_requirement_sequence_never_requires_install() {
    let record = record_with(&[("/roots/a", "community.general", "7.0.0")]);
    let requirements: Vec<GalaxyRequirement> = Vec::new();
    assert!(!requires_ansible_galaxy_install(&record, &requirements));
}

#[test]
fn permuting_requirements_does_not_change_the_decision() {
    let record = record_with(&[
        ("/roots/a", "community.general", "7.0.0"),
        ("/roots/a", "community.docker", "3.4.0"),
    ]);
    let a = requirement("community.general", "==7.0.0");
    let b = requirement("community.docker", "==3.4.0");
    let c = requirement("community.missing", "==1.0.0");

    let one = vec![
        requirement("community.general", "==7.0.0"),
        requirement("community.docker", "==3.4.0"),
        requirement("community.missing", "==1.0.0"),
    ];
    let other = vec![c, b, a];
    assert_eq!(
        requires_ansible_galaxy_install(&record, &one),
        requires_ansible_galaxy_install(&record, &other),
    );

    let satisfied_one = vec![
        requirement("community.general", "==7.0.0"),
        requirement("community.docker", "==3.4.0"),
    ];
    let satisfied_other = vec![
        requirement("community.docker", "==3.4.0"),
        requirement("community.general", "==7.0.0"),
    ];
    assert_eq!(
        requires_ansible_galaxy_install(&record, &satisfied_one),
        requires_ansible_galaxy_install(&record, &satisfied_other),
    );
    assert!(!requires_ansible_galaxy_install(&record, &satisfied_one));
}

#[test]
fn range_constraints_reach_the_version_comparison() {
    let record = record_with(&[("/roots/a", "community.general", "7.2.1")]);
    let in_range = vec![requirement("community.general", ">=7.0.0")];
    let out_of_range = vec![requirement("community.general", ">=8.0.0")];
    assert!(!requires_ansible_galaxy_install(&record, &in_range));
    assert!(requires_ansible_galaxy_install(&record, &out_of_range));
}

#[test]
fn unparseable_constraint_is_never_fulfilled() {
    let record = record_with(&[("/roots/a", "community.general", "7.0.0")]);
    let requirements = vec![requirement("community.general", "not a constraint")];
    assert!(requires_ansible_galaxy_install(&record, &requirements));
}

#[test]
fn satisfaction_of_one_requirement_alone() {
    let record = record_with(&[("/roots/a", "community.general", "7.0.0")]);
    assert!(requirement_is_satisfied(&record, &requirement("community.general", "==7.0.0")));
    assert!(!requirement_is_satisfied(&record, &requirement("community.general", "==7.0.1")));
    assert!(requirement_is_satisfied(&record, &requirement("community.missing", "*")));
    assert!(!requirement_is_satisfied(&record, &requirement("community.missing", "==1.0.0")));
}

#[test]
fn collections_and_roles_are_separate_requirement_sets() {
    let manifest = GalaxyRequirementsFile {
        collections: vec![requirement("community.general", "==7.0.0")],
        roles: vec![requirement("geerlingguy.docker", "*")],
    };
    let installed_collections = record_with(&[("/roots/a", "community.general", "7.0.0")]);
    let installed_roles = InstalledRecord::new();
    assert!(!requires_ansible_galaxy_install(&installed_collections, &manifest.collections));
    assert!(!requires_ansible_galaxy_install(&installed_roles, &manifest.roles));
}

#[test]
fn collection_name_strips_version_suffix() {
    let name = collection_name_from_entry("community.general-7.0.0.info", "7.0.0");
    assert_eq!(name, "community.general");
}

#[test]
fn collection_name_without_suffix_is_kept() {
    let name = collection_name_from_entry("community.general", "7.0.0");
    assert_eq!(name, "community.general");
}
