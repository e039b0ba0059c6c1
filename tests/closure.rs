use shoal::{resolve_dependencies, LocationType, NameMap, Service, ServiceLocation, ShoalError};

fn service(name: &str, deps: &[&str]) -> Service {
    Service {
        name: name.to_string(),
        source: ServiceLocation {
            kind: LocationType::Image,
            image: format!("{}:latest", name),
        },
        internal_ports: vec![],
        dependencies: if deps.is_empty() {
            None
        } else {
            Some(deps.iter().map(|d| d.to_string()).collect())
        },
    }
}

fn registry(entries: &[(&str, &[&str])]) -> NameMap<Service> {
    let mut services = NameMap::new();
    for (name, deps) in entries {
        services.insert(name.to_string(), service(name, deps));
    }
    services
}

fn sorted(mut names: Vec<String>) -> Vec<String> {
    names.sort();
    names
}

#[test]
fn closure_follows_chains() {
    let services = registry(&[("A", &["B"]), ("B", &["C"]), ("C", &[])]);
    let closure = resolve_dependencies(&vec!["A".to_string()], &services).unwrap();
    assert_eq!(sorted(closure), vec!["A", "B", "C"]);
}

#[test]
fn closure_tolerates_cycles() {
    let services = registry(&[("A", &["B"]), ("B", &["A"])]);
    let closure = resolve_dependencies(&vec!["A".to_string()], &services).unwrap();
    assert_eq!(sorted(closure), vec!["A", "B"]);
}

#[test]
fn closure_reports_missing_root() {
    let services = registry(&[("A", &[])]);
    let result = resolve_dependencies(&vec!["ghost".to_string()], &services);
    match result {
        Err(ShoalError::MissingDependency { service }) => assert_eq!(service, "ghost"),
        other => panic!("unexpected: {:?}", other),
    }
}

#[test]
fn closure_reports_missing_dependency() {
    let services = registry(&[("A", &["B"]), ("B", &["X"])]);
    let result = resolve_dependencies(&vec!["A".to_string()], &services);
    match result {
        Err(ShoalError::MissingDependency { service }) => assert_eq!(service, "X"),
        other => panic!("unexpected: {:?}", other),
    }
}

#[test]
fn closure_lists_shared_dependencies_once() {
    let services = registry(&[("A", &["C"]), ("B", &["C"]), ("C", &[])]);
    let roots = vec!["A".to_string(), "B".to_string(), "A".to_string()];
    let closure = resolve_dependencies(&roots, &services).unwrap();
    assert_eq!(sorted(closure), vec!["A", "B", "C"]);
}

#[test]
fn closure_of_no_roots_is_empty() {
    let services = registry(&[("A", &[])]);
    let closure = resolve_dependencies(&vec![], &services).unwrap();
    assert!(closure.is_empty());
}

#[test]
fn closure_self_dependency() {
    let services = registry(&[("A", &["A"])]);
    let closure = resolve_dependencies(&vec!["A".to_string()], &services).unwrap();
    assert_eq!(closure, vec!["A"]);
}
