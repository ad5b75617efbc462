use fmt_dispatch::project::{DiscoveryError, ProjectDescriptor, SelectError, SubProject};

fn sub(name: &str, path: &str) -> SubProject {
    SubProject {
        name: String::from(name),
        root_path: String::from(path),
    }
}

fn two_project_descriptor() -> ProjectDescriptor {
    ProjectDescriptor::new(
        String::from("/w"),
        vec![sub("core", "/w/core"), sub("cli", "/w/cli")],
        None,
    )
    .expect("descriptor is well-formed")
}

#[test]
fn explicit_names_resolve_in_requested_order() {
    let d = two_project_descriptor();
    let names = vec![String::from("cli"), String::from("core")];
    let chosen = d.select(false, &names).expect("both names exist");
    let got: Vec<&str> = chosen.iter().map(|p| p.name.as_str()).collect();
    assert_eq!(got, vec!["cli", "core"]);
}

#[test]
fn explicit_names_take_precedence_over_select_all() {
    let d = two_project_descriptor();
    let names = vec![String::from("core")];
    let chosen = d.select(true, &names).expect("name exists");
    assert_eq!(chosen.len(), 1);
    assert_eq!(chosen[0].name, "core");
}

#[test]
fn select_all_returns_every_project_in_declared_order() {
    let d = two_project_descriptor();
    let chosen = d.select(true, &Vec::new()).expect("select all cannot fail");
    let got: Vec<&str> = chosen.iter().map(|p| p.name.as_str()).collect();
    assert_eq!(got, vec!["core", "cli"]);
}

#[test]
fn select_all_on_empty_descriptor_returns_empty() {
    let d = ProjectDescriptor::new(String::from("/w"), Vec::new(), None)
        .expect("empty descriptor is well-formed");
    let chosen = d.select(true, &Vec::new()).expect("select all cannot fail");
    assert!(chosen.is_empty());
}

#[test]
fn unknown_package_reports_the_offending_name() {
    let d = two_project_descriptor();
    let names = vec![String::from("missing")];
    match d.select(false, &names) {
        Err(SelectError::UnknownPackage(n)) => assert_eq!(n, "missing"),
        other => panic!("expected UnknownPackage, got {:?}", other),
    }
}

#[test]
fn first_unmatched_name_is_reported() {
    let d = two_project_descriptor();
    let names = vec![
        String::from("cli"),
        String::from("absent"),
        String::from("also-absent"),
    ];
    match d.select(false, &names) {
        Err(SelectError::UnknownPackage(n)) => assert_eq!(n, "absent"),
        other => panic!("expected UnknownPackage, got {:?}", other),
    }
}

#[test]
fn single_project_is_the_default_selection() {
    let d = ProjectDescriptor::new(String::from("/w"), vec![sub("only", "/w")], None)
        .expect("descriptor is well-formed");
    let chosen = d.select(false, &Vec::new()).expect("single project is the default");
    assert_eq!(chosen.len(), 1);
    assert_eq!(chosen[0].name, "only");
}

#[test]
fn designated_default_wins_among_many() {
    let d = ProjectDescriptor::new(
        String::from("/w"),
        vec![sub("core", "/w/core"), sub("cli", "/w/cli")],
        Some(1),
    )
    .expect("descriptor is well-formed");
    let chosen = d.select(false, &Vec::new()).expect("default is designated");
    assert_eq!(chosen.len(), 1);
    assert_eq!(chosen[0].name, "cli");
}

#[test]
fn no_determinable_default_is_ambiguous() {
    let d = two_project_descriptor();
    match d.select(false, &Vec::new()) {
        Err(SelectError::AmbiguousSelection) => {}
        other => panic!("expected AmbiguousSelection, got {:?}", other),
    }
}

#[test]
fn duplicate_names_are_rejected() {
    match ProjectDescriptor::new(
        String::from("/w"),
        vec![sub("core", "/w/a"), sub("core", "/w/b")],
        None,
    ) {
        Err(DiscoveryError::DuplicateName(n)) => assert_eq!(n, "core"),
        other => panic!("expected DuplicateName, got {:?}", other),
    }
}

#[test]
fn project_outside_the_root_is_rejected() {
    match ProjectDescriptor::new(String::from("/w"), vec![sub("core", "/elsewhere")], None) {
        Err(DiscoveryError::PathOutsideRoot(p)) => assert_eq!(p, "/elsewhere"),
        other => panic!("expected PathOutsideRoot, got {:?}", other),
    }
}

#[test]
fn default_index_beyond_the_projects_is_rejected() {
    match ProjectDescriptor::new(String::from("/w"), vec![sub("core", "/w/core")], Some(1)) {
        Err(DiscoveryError::DefaultOutOfRange) => {}
        other => panic!("expected DefaultOutOfRange, got {:?}", other),
    }
}
