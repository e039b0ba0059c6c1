use shoal::{
    apply_overrides, container_port, merge_hashmaps, DockerService, NameMap, Override,
    StackOverride,
};

fn docker_service(container: &str, ports: &[&str]) -> DockerService {
    DockerService {
        container_name: container.to_string(),
        image: Some("img".to_string()),
        build_context: None,
        dockerfile: None,
        entrypoint: None,
        command: None,
        environment: None,
        ports: Some(ports.iter().map(|p| p.to_string()).collect()),
        volumes: None,
        depends_on: None,
        networks: Some(vec!["web-network".to_string()]),
        restart: None,
    }
}

fn empty_edit() -> Override {
    Override { env: None, ports: None, command: None, entrypoint: None, volumes: None }
}

fn stack_override(edits: Vec<(&str, Override)>) -> StackOverride {
    let mut overrides = NameMap::new();
    for (name, edit) in edits {
        overrides.insert(name.to_string(), edit);
    }
    StackOverride {
        name: "dev".to_string(),
        stack: "web".to_string(),
        description: "development".to_string(),
        overrides,
    }
}

fn strings(items: &[&str]) -> Vec<String> {
    items.iter().map(|s| s.to_string()).collect()
}

fn ports_after(existing: &[&str], edits: &[&str]) -> Vec<String> {
    let mut services = NameMap::new();
    services.insert("api".to_string(), docker_service("web-api", existing));
    let mut edit = empty_edit();
    edit.ports = Some(strings(edits));
    apply_overrides(&mut services, &stack_override(vec![("api", edit)]));
    services.get("api").unwrap().ports.clone().unwrap()
}

#[test]
fn test_merge_hashmaps() {
    let mut a = NameMap::new();
    a.insert("KEY1".to_string(), "value1".to_string());
    a.insert("KEY2".to_string(), "value2".to_string());

    let mut b = NameMap::new();
    b.insert("KEY2".to_string(), "new_value2".to_string());
    b.insert("KEY3".to_string(), "value3".to_string());

    let merged = merge_hashmaps(&a, &b);
    assert_eq!(merged.get("KEY1"), Some(&"value1".to_string()));
    assert_eq!(merged.get("KEY2"), Some(&"new_value2".to_string())); // b overrides a
    assert_eq!(merged.get("KEY3"), Some(&"value3".to_string()));
    assert_eq!(merged.len(), 3);
}

#[test]
fn env_override_is_right_biased() {
    let mut a = NameMap::new();
    a.insert("A".to_string(), "1".to_string());
    let mut b = NameMap::new();
    b.insert("A".to_string(), "2".to_string());
    b.insert("B".to_string(), "3".to_string());
    let merged = merge_hashmaps(&a, &b);
    assert_eq!(merged.len(), 2);
    assert_eq!(merged.get("A"), Some(&"2".to_string()));
    assert_eq!(merged.get("B"), Some(&"3".to_string()));
}

#[test]
fn merge_with_empty_maps() {
    let empty: NameMap<String> = NameMap::new();
    let mut a = NameMap::new();
    a.insert("A".to_string(), "1".to_string());
    assert_eq!(merge_hashmaps(&a, &empty).get("A"), Some(&"1".to_string()));
    assert_eq!(merge_hashmaps(&empty, &a).get("A"), Some(&"1".to_string()));
    assert!(merge_hashmaps(&empty, &empty).is_empty());
}

#[test]
fn port_with_same_container_side_is_replaced() {
    assert_eq!(ports_after(&["8080:80"], &["9090:80"]), vec!["9090:80"]);
}

#[test]
fn port_with_new_container_side_is_appended() {
    assert_eq!(ports_after(&["8080:80"], &["9090:81"]), vec!["8080:80", "9090:81"]);
}

#[test]
fn port_replacement_keeps_position() {
    assert_eq!(
        ports_after(&["8080:80", "5432", "6379:6379"], &["15432:5432"]),
        vec!["8080:80", "15432:5432", "6379:6379"]
    );
}

#[test]
fn port_edits_apply_in_order() {
    assert_eq!(ports_after(&[], &["1:80", "2:80", "3"]), vec!["2:80", "3"]);
}

#[test]
fn container_port_takes_text_after_colon() {
    assert_eq!(container_port("8080:80"), "80");
    assert_eq!(container_port("80"), "80");
    assert_eq!(container_port("a:b:c"), "b");
    assert_eq!(container_port(":"), "");
    assert_eq!(container_port(""), "");
}

#[test]
fn env_command_entrypoint_and_volumes_are_applied() {
    let mut services = NameMap::new();
    let mut api = docker_service("web-api", &["80"]);
    let mut env = NameMap::new();
    env.insert("A".to_string(), "1".to_string());
    api.environment = Some(env);
    api.volumes = Some(strings(&["data:/data"]));
    api.command = Some(strings(&["serve"]));
    services.insert("api".to_string(), api);
    services.insert("db".to_string(), docker_service("web-db", &["5432"]));

    let mut edit_env = NameMap::new();
    edit_env.insert("A".to_string(), "2".to_string());
    edit_env.insert("B".to_string(), "3".to_string());
    let edit = Override {
        env: Some(edit_env),
        ports: None,
        command: Some(strings(&["serve", "--debug"])),
        entrypoint: Some(strings(&["/bin/sh", "-c"])),
        volumes: Some(strings(&["data:/data", "logs:/logs"])),
    };
    apply_overrides(&mut services, &stack_override(vec![("api", edit)]));

    let api = services.get("api").unwrap();
    let env = api.environment.as_ref().unwrap();
    assert_eq!(env.len(), 2);
    assert_eq!(env.get("A"), Some(&"2".to_string()));
    assert_eq!(env.get("B"), Some(&"3".to_string()));
    assert_eq!(api.command, Some(strings(&["serve", "--debug"])));
    assert_eq!(api.entrypoint, Some(strings(&["/bin/sh", "-c"])));
    assert_eq!(api.volumes, Some(strings(&["data:/data", "data:/data", "logs:/logs"])));
    assert_eq!(api.ports, Some(strings(&["80"])));
    assert_eq!(api.container_name, "web-api");

    let db = services.get("db").unwrap();
    assert_eq!(db.ports, Some(strings(&["5432"])));
    assert!(db.environment.is_none());
    assert!(db.volumes.is_none());
}

#[test]
fn override_for_absent_service_changes_nothing() {
    let mut services = NameMap::new();
    services.insert("api".to_string(), docker_service("web-api", &["80"]));
    let mut edit = empty_edit();
    edit.ports = Some(strings(&["9090:80"]));
    apply_overrides(&mut services, &stack_override(vec![("worker", edit)]));
    assert_eq!(services.len(), 1);
    assert_eq!(services.get("api").unwrap().ports, Some(strings(&["80"])));
}

#[test]
fn edits_on_absent_fields_start_from_empty() {
    let mut services = NameMap::new();
    let mut api = docker_service("web-api", &[]);
    api.ports = None;
    services.insert("api".to_string(), api);
    let mut env = NameMap::new();
    env.insert("K".to_string(), "v".to_string());
    let edit = Override {
        env: Some(env),
        ports: Some(strings(&["80"])),
        command: None,
        entrypoint: None,
        volumes: Some(strings(&["v:/v"])),
    };
    apply_overrides(&mut services, &stack_override(vec![("api", edit)]));
    let api = services.get("api").unwrap();
    assert_eq!(api.ports, Some(strings(&["80"])));
    assert_eq!(api.volumes, Some(strings(&["v:/v"])));
    assert_eq!(api.environment.as_ref().unwrap().get("K"), Some(&"v".to_string()));
    assert!(api.command.is_none());
}
