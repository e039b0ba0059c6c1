use shoal::{
    check_running, synthesize, CommandExecutor, ComposeFileManager, DockerComposeFile, FileSystem,
    LocationType, ManifestRenderer, NameMap, Override, PathProvider, Service, ServiceLocation,
    ShoalError, Stack, StackManager, StackOverride,
};
use std::cell::RefCell;
use std::collections::HashMap;
use std::rc::Rc;

type Calls = Rc<RefCell<Vec<(String, Vec<String>)>>>;

struct RecordingExecutor {
    calls: Calls,
    fail: bool,
}

impl CommandExecutor for RecordingExecutor {
    fn execute(&self, program: &str, args: &Vec<String>) -> Result<(), String> {
        self.calls.borrow_mut().push((program.to_string(), args.clone()));
        if self.fail {
            Err("Command 'docker' failed with exit code: Some(1)".to_string())
        } else {
            Ok(())
        }
    }
}

#[derive(Clone, Default)]
struct MemoryFileSystem {
    files: Rc<RefCell<HashMap<String, String>>>,
    dirs: Rc<RefCell<Vec<String>>>,
}

impl FileSystem for MemoryFileSystem {
    fn read_file(&self, path: &str) -> Result<String, String> {
        self.files.borrow().get(path).cloned().ok_or_else(|| format!("File not found: {}", path))
    }

    fn write_file(&self, path: &str, content: &str) -> Result<(), String> {
        self.files.borrow_mut().insert(path.to_string(), content.to_string());
        Ok(())
    }

    fn read_dir(&self, path: &str) -> Result<Vec<String>, String> {
        Err(format!("Directory not found: {}", path))
    }

    fn create_dir_all(&self, path: &str) -> Result<(), String> {
        self.dirs.borrow_mut().push(path.to_string());
        Ok(())
    }

    fn path_exists(&self, path: &str) -> bool {
        self.files.borrow().contains_key(path) || self.dirs.borrow().iter().any(|d| d == path)
    }
}

struct FixedPaths;

impl PathProvider for FixedPaths {
    fn current_dir(&self) -> Result<String, String> {
        Ok("/test/current".to_string())
    }

    fn home_dir(&self) -> Result<String, String> {
        Ok("/test/home".to_string())
    }

    fn data_local_dir(&self) -> Result<String, String> {
        Ok("/test/data".to_string())
    }
}

struct NamesRenderer;

impl ManifestRenderer for NamesRenderer {
    fn render(&self, manifest: &DockerComposeFile) -> Result<String, String> {
        let mut lines: Vec<String> = manifest
            .services
            .entries()
            .iter()
            .map(|(name, service)| format!("{} {}", name, service.container_name))
            .collect();
        lines.sort();
        Ok(lines.join("\n"))
    }
}

fn create_test_service(name: &str) -> Service {
    Service {
        name: name.to_string(),
        source: ServiceLocation { kind: LocationType::Image, image: "test/image:latest".to_string() },
        internal_ports: vec!["8080".to_string()],
        dependencies: None,
    }
}

fn create_test_stack(name: &str, services: Vec<String>) -> Stack {
    Stack { name: name.to_string(), description: "Test stack".to_string(), services }
}

type Manager = StackManager<MemoryFileSystem, FixedPaths, NamesRenderer, RecordingExecutor>;

fn manager_with(
    services: NameMap<Service>,
    stacks: NameMap<Stack>,
    overrides: NameMap<StackOverride>,
    fs: MemoryFileSystem,
    calls: Calls,
    fail: bool,
) -> Manager {
    let compose_file_manager = ComposeFileManager::new(fs, FixedPaths, NamesRenderer);
    StackManager::new(
        services,
        stacks,
        overrides,
        compose_file_manager,
        RecordingExecutor { calls, fail },
    )
}

fn web_registries() -> (NameMap<Service>, NameMap<Stack>, NameMap<StackOverride>) {
    let mut services = NameMap::new();
    let mut api = create_test_service("api");
    api.dependencies = Some(vec!["cache".to_string()]);
    services.insert("api".to_string(), api);
    services.insert("db".to_string(), create_test_service("db"));
    services.insert("cache".to_string(), create_test_service("cache"));
    let mut stacks = NameMap::new();
    stacks.insert(
        "web".to_string(),
        create_test_stack("web", vec!["api".to_string(), "db".to_string()]),
    );
    let mut edits = NameMap::new();
    edits.insert(
        "db".to_string(),
        Override {
            env: None,
            ports: Some(vec!["15432:8080".to_string()]),
            command: None,
            entrypoint: None,
            volumes: None,
        },
    );
    let mut overrides = NameMap::new();
    overrides.insert(
        "web-dev".to_string(),
        StackOverride {
            name: "dev".to_string(),
            stack: "web".to_string(),
            description: "dev".to_string(),
            overrides: edits,
        },
    );
    (services, stacks, overrides)
}

#[test]
fn test_validate_stack_services_success() {
    let mut services = NameMap::new();
    services.insert("service1".to_string(), create_test_service("service1"));
    services.insert("service2".to_string(), create_test_service("service2"));

    let mut stacks = NameMap::new();
    stacks.insert(
        "test-stack".to_string(),
        create_test_stack("test-stack", vec!["service1".to_string(), "service2".to_string()]),
    );

    let overrides = NameMap::new();
    let calls: Calls = Rc::new(RefCell::new(Vec::new()));
    let manager =
        manager_with(services, stacks, overrides, MemoryFileSystem::default(), calls, false);

    let stack = manager.stacks().get("test-stack").unwrap();
    let result = manager.validate_stack_services("test-stack", stack);
    assert!(result.is_ok());
}

#[test]
fn test_validate_stack_services_failure() {
    let mut services = NameMap::new();
    services.insert("service1".to_string(), create_test_service("service1"));

    let mut stacks = NameMap::new();
    stacks.insert(
        "test-stack".to_string(),
        create_test_stack(
            "test-stack",
            vec!["service1".to_string(), "missing-service".to_string()],
        ),
    );

    let overrides = NameMap::new();
    let calls: Calls = Rc::new(RefCell::new(Vec::new()));
    let manager =
        manager_with(services, stacks, overrides, MemoryFileSystem::default(), calls, false);

    let stack = manager.stacks().get("test-stack").unwrap();
    let result = manager.validate_stack_services("test-stack", stack);
    assert!(result.is_err());
    assert!(result.unwrap_err().message().contains("missing-service"));
}

#[test]
fn validation_reports_every_missing_member() {
    let mut services = NameMap::new();
    services.insert("a".to_string(), create_test_service("a"));
    let stack = create_test_stack("s", vec!["x".to_string(), "a".to_string(), "y".to_string()]);
    match shoal::validate_stack_members(&services, "s", &stack) {
        Err(e @ ShoalError::MissingServices { .. }) => {
            assert_eq!(
                e.message(),
                "Stack 's' references non-existent services: [\"x\", \"y\"]"
            );
            if let ShoalError::MissingServices { stack, missing } = e {
                assert_eq!(stack, "s");
                assert_eq!(missing, vec!["x", "y"]);
            }
        }
        other => panic!("unexpected: {:?}", other),
    }
}

#[test]
fn synthesis_expands_beyond_members() {
    let (services, stacks, overrides) = web_registries();
    let d = synthesize(&services, &stacks, &overrides, "web").unwrap();
    assert_eq!(d.stack_name, "web");
    assert_eq!(d.network_name, "web-network");
    assert_eq!(d.services.len(), 3);
    let cache = d.services.get("cache").unwrap();
    assert_eq!(cache.container_name, "web-cache");
    assert_eq!(cache.image, Some("test/image:latest".to_string()));
    assert_eq!(cache.ports, Some(vec!["8080".to_string()]));
    assert_eq!(cache.networks, Some(vec!["web-network".to_string()]));
    assert!(d.services.contains_key("api"));
    assert!(d.services.contains_key("db"));
}

#[test]
fn synthesis_applies_selected_override() {
    let (services, stacks, overrides) = web_registries();
    let d = synthesize(&services, &stacks, &overrides, "web.dev").unwrap();
    assert_eq!(d.stack_name, "web");
    assert_eq!(d.services.get("db").unwrap().ports, Some(vec!["15432:8080".to_string()]));
    assert_eq!(d.services.get("api").unwrap().ports, Some(vec!["8080".to_string()]));
}

#[test]
fn synthesis_errors() {
    let (services, stacks, overrides) = web_registries();
    match synthesize(&services, &stacks, &overrides, "shop") {
        Err(e @ ShoalError::StackNotFound { .. }) => {
            assert_eq!(e.message(), "Failed to find a stack with the name 'shop'.")
        }
        other => panic!("unexpected: {:?}", other.err()),
    }
    match synthesize(&services, &stacks, &overrides, "web.prod") {
        Err(e @ ShoalError::OverrideNotFound { .. }) => assert_eq!(
            e.message(),
            "Failed to find an override for web with the name 'prod'."
        ),
        other => panic!("unexpected: {:?}", other.err()),
    }
}

#[test]
fn synthesis_reports_missing_dependency() {
    let (mut services, stacks, overrides) = web_registries();
    let mut db = create_test_service("db");
    db.dependencies = Some(vec!["volume-helper".to_string()]);
    services.insert("db".to_string(), db);
    match synthesize(&services, &stacks, &overrides, "web") {
        Err(e @ ShoalError::MissingDependency { .. }) => assert_eq!(
            e.message(),
            "Service 'volume-helper' is required but not registered."
        ),
        other => panic!("unexpected: {:?}", other.err()),
    }
}

#[test]
fn up_writes_manifest_and_runs_docker() {
    let (services, stacks, overrides) = web_registries();
    let fs = MemoryFileSystem::default();
    let calls: Calls = Rc::new(RefCell::new(Vec::new()));
    let manager = manager_with(services, stacks, overrides, fs.clone(), calls.clone(), false);
    manager.up("web.dev").unwrap();

    let path = "/test/data/shoal/stacks/web/docker-compose.generated.yml";
    assert_eq!(
        fs.files.borrow().get(path).cloned(),
        Some("api web-api\ncache web-cache\ndb web-db".to_string())
    );
    assert_eq!(fs.dirs.borrow().clone(), vec!["/test/data/shoal/stacks/web".to_string()]);
    let calls = calls.borrow();
    assert_eq!(calls.len(), 1);
    assert_eq!(calls[0].0, "docker");
    assert_eq!(
        calls[0].1,
        vec!["compose", "--project-name", "web", "-f", path, "up", "-d", "--build", "--wait"]
    );
}

#[test]
fn up_failure_of_synthesis_writes_and_runs_nothing() {
    let (services, stacks, overrides) = web_registries();
    let fs = MemoryFileSystem::default();
    let calls: Calls = Rc::new(RefCell::new(Vec::new()));
    let manager = manager_with(services, stacks, overrides, fs.clone(), calls.clone(), false);
    assert!(matches!(manager.up("web.prod"), Err(ShoalError::OverrideNotFound { .. })));
    assert!(fs.files.borrow().is_empty());
    assert!(fs.dirs.borrow().is_empty());
    assert!(calls.borrow().is_empty());
}

#[test]
fn up_reports_process_failure() {
    let (services, stacks, overrides) = web_registries();
    let calls: Calls = Rc::new(RefCell::new(Vec::new()));
    let manager =
        manager_with(services, stacks, overrides, MemoryFileSystem::default(), calls, true);
    match manager.up("web") {
        Err(e @ ShoalError::Process { .. }) => {
            assert!(e.message().contains("exit code"))
        }
        other => panic!("unexpected: {:?}", other),
    }
}

#[test]
fn down_without_manifest_is_not_running_and_runs_nothing() {
    let (services, stacks, overrides) = web_registries();
    let calls: Calls = Rc::new(RefCell::new(Vec::new()));
    let manager = manager_with(
        services,
        stacks,
        overrides,
        MemoryFileSystem::default(),
        calls.clone(),
        false,
    );
    match manager.down("web") {
        Err(e @ ShoalError::NotRunning { .. }) => assert_eq!(
            e.message(),
            "Stack web is not running; compose file missing at \"/test/data/shoal/stacks/web/docker-compose.generated.yml\""
        ),
        other => panic!("unexpected: {:?}", other),
    }
    assert_eq!(calls.borrow().len(), 0);
}

#[test]
fn down_after_up_runs_docker_down() {
    let (services, stacks, overrides) = web_registries();
    let fs = MemoryFileSystem::default();
    let calls: Calls = Rc::new(RefCell::new(Vec::new()));
    let manager = manager_with(services, stacks, overrides, fs.clone(), calls.clone(), false);
    manager.up("web").unwrap();
    manager.down("web").unwrap();
    let path = "/test/data/shoal/stacks/web/docker-compose.generated.yml";
    let calls = calls.borrow();
    assert_eq!(calls.len(), 2);
    assert_eq!(calls[1].1, vec!["compose", "--project-name", "web", "-f", path, "down"]);
    assert!(fs.files.borrow().contains_key(path));
}

#[test]
fn check_running_decides_from_existence() {
    assert_eq!(check_running("web", "/p".to_string(), true).unwrap(), "/p");
    match check_running("web", "/p".to_string(), false) {
        Err(ShoalError::NotRunning { stack, path }) => {
            assert_eq!(stack, "web");
            assert_eq!(path, "/p");
        }
        other => panic!("unexpected: {:?}", other),
    }
}
