use shoal::compose::{join_path, manifest_path_under, stack_dir_under};
use shoal::{
    build_compose_file, build_docker_service, collect_by_name, CommandExecutor, ComposeManager,
    LocationType, NameMap, Service, ServiceLocation, ShoalError,
};

struct Refusing;

impl CommandExecutor for Refusing {
    fn execute(&self, _program: &str, _args: &Vec<String>) -> Result<(), String> {
        Err("refused".to_string())
    }
}

fn service(name: &str, kind: LocationType, image: &str, ports: &[&str]) -> Service {
    Service {
        name: name.to_string(),
        source: ServiceLocation { kind, image: image.to_string() },
        internal_ports: ports.iter().map(|p| p.to_string()).collect(),
        dependencies: None,
    }
}

#[test]
fn later_records_win_and_collisions_are_named() {
    let records = vec![
        ("api".to_string(), 1),
        ("db".to_string(), 2),
        ("api".to_string(), 3),
        ("api".to_string(), 4),
    ];
    let (items, replaced) = collect_by_name(records);
    assert_eq!(items.len(), 2);
    assert_eq!(items.get("api"), Some(&4));
    assert_eq!(items.get("db"), Some(&2));
    assert_eq!(replaced, vec!["api", "api"]);
}

#[test]
fn no_records_no_collisions() {
    let (items, replaced) = collect_by_name(Vec::<(String, u8)>::new());
    assert!(items.is_empty());
    assert!(replaced.is_empty());
}

#[test]
fn paths_are_joined_with_one_slash() {
    assert_eq!(join_path("/a", "b"), "/a/b");
    assert_eq!(join_path("/a/", "b"), "/a/b");
    assert_eq!(join_path("", "b"), "b");
    assert_eq!(stack_dir_under("/data", "web"), "/data/shoal/stacks/web");
    assert_eq!(
        manifest_path_under("/data", "web"),
        "/data/shoal/stacks/web/docker-compose.generated.yml"
    );
}

#[test]
fn compose_arguments() {
    let executor = Refusing;
    let manager = ComposeManager::new("/m.yml".to_string(), "web".to_string(), &executor);
    assert_eq!(
        manager.up_args(),
        vec!["compose", "--project-name", "web", "-f", "/m.yml", "up", "-d", "--build", "--wait"]
    );
    assert_eq!(manager.down_args(), vec!["compose", "--project-name", "web", "-f", "/m.yml", "down"]);
    match manager.up() {
        Err(ShoalError::Process { message }) => assert_eq!(message, "refused"),
        other => panic!("unexpected: {:?}", other),
    }
    assert!(matches!(manager.down(), Err(ShoalError::Process { .. })));
}

#[test]
fn docker_service_from_service() {
    let s = service("api", LocationType::Image, "nginx:1.25", &["8080:80", "443"]);
    let d = build_docker_service(&s, "web", "web-network");
    assert_eq!(d.container_name, "web-api");
    assert_eq!(d.image, Some("nginx:1.25".to_string()));
    assert_eq!(d.ports, Some(vec!["8080:80".to_string(), "443".to_string()]));
    assert_eq!(d.networks, Some(vec!["web-network".to_string()]));
    assert!(d.build_context.is_none() && d.dockerfile.is_none() && d.restart.is_none());
    assert!(d.environment.is_none() && d.volumes.is_none() && d.depends_on.is_none());
    assert!(d.command.is_none() && d.entrypoint.is_none());
}

#[test]
fn compose_file_has_one_network() {
    let mut services = NameMap::new();
    let s = service("api", LocationType::Local, "./api", &[]);
    services.insert("api".to_string(), build_docker_service(&s, "web", "web-network"));
    let file = build_compose_file("web-network", services);
    assert_eq!(file.services.len(), 1);
    assert_eq!(file.networks.len(), 1);
    let network = file.networks.get("web-network").unwrap().as_ref().unwrap();
    assert_eq!(network.name, "web-network");
}

#[test]
fn descriptions() {
    assert_eq!(LocationType::Image.label(), "Image");
    assert_eq!(LocationType::Local.label(), "Local");
    let s = service("api", LocationType::Image, "nginx:latest", &["8080:80", "443"]);
    assert_eq!(s.source.describe(), "Image:nginx:latest");
    assert_eq!(s.describe(), "api [Image:nginx:latest] ports: [\"8080:80\", \"443\"]");
    let bare = service("db", LocationType::Local, "./db", &[]);
    assert_eq!(bare.describe(), "db [Local:./db] ports: []");
}

#[test]
fn passthrough_messages() {
    let io = ShoalError::Io { message: "disk full".to_string() };
    assert_eq!(io.message(), "disk full");
    let p = ShoalError::Process { message: "exit 2".to_string() };
    assert_eq!(p.message(), "exit 2");
}

#[test]
fn name_map_keeps_first_position_on_update() {
    let mut m = NameMap::new();
    m.insert("b".to_string(), 1);
    m.insert("a".to_string(), 2);
    m.insert("b".to_string(), 3);
    let names: Vec<&String> = m.entries().iter().map(|(k, _)| k).collect();
    assert_eq!(names, vec!["b", "a"]);
    assert_eq!(m.get("b"), Some(&3));
    assert!(!m.contains_key("c"));
    assert_eq!(m.position("a"), Some(1));
}

#[test]
fn yaml_files_are_recognised_by_extension() {
    assert!(shoal::is_yaml_file("/etc/shoal/services/api.yaml"));
    assert!(shoal::is_yaml_file("db.yml"));
    assert!(shoal::is_yaml_file("a.b.yml"));
    assert!(!shoal::is_yaml_file("notes.txt"));
    assert!(!shoal::is_yaml_file("/conf/.yaml"));
    assert!(!shoal::is_yaml_file("dir.yaml/readme"));
    assert!(!shoal::is_yaml_file("api.YAML"));
    assert!(!shoal::is_yaml_file("yaml"));
    assert!(!shoal::is_yaml_file(""));
}

struct ListingFileSystem;

impl shoal::FileSystem for ListingFileSystem {
    fn read_file(&self, path: &str) -> Result<String, String> {
        if path.ends_with("broken.yml") {
            Err("unreadable".to_string())
        } else {
            Ok(format!("contents of {}", path))
        }
    }

    fn write_file(&self, _path: &str, _content: &str) -> Result<(), String> {
        Ok(())
    }

    fn read_dir(&self, path: &str) -> Result<Vec<String>, String> {
        if path == "/conf" {
            Ok(vec![
                "/conf/api.yaml".to_string(),
                "/conf/README.md".to_string(),
                "/conf/broken.yml".to_string(),
                "/conf/db.yml".to_string(),
            ])
        } else {
            Err(format!("Directory not found: {}", path))
        }
    }

    fn create_dir_all(&self, _path: &str) -> Result<(), String> {
        Ok(())
    }

    fn path_exists(&self, _path: &str) -> bool {
        true
    }
}

#[test]
fn directory_reading_keeps_yaml_and_sets_aside_unreadable() {
    let (read, skipped) = shoal::read_yaml_files_in_directory(&ListingFileSystem, "/conf").unwrap();
    assert_eq!(
        read,
        vec![
            ("/conf/api.yaml".to_string(), "contents of /conf/api.yaml".to_string()),
            ("/conf/db.yml".to_string(), "contents of /conf/db.yml".to_string()),
        ]
    );
    assert_eq!(skipped, vec![("/conf/broken.yml".to_string(), "unreadable".to_string())]);
    match shoal::read_yaml_files_in_directory(&ListingFileSystem, "/missing") {
        Err(ShoalError::Io { message }) => assert_eq!(message, "Directory not found: /missing"),
        other => panic!("unexpected: {:?}", other),
    }
}
