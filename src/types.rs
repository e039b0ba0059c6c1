use crate::name_map::NameMap;
use crate::text::{names_of, quoted_list, render_quoted_list};
use vstd::prelude::*;
use vstd::string::*;

verus! {

/// Where a service's container comes from.
#[derive(Clone, Copy, Debug, PartialEq, Eq, Structural)]
pub enum LocationType {
    /// A published image reference.
    Image,
    /// A local build context.
    Local,
}

/// The source of a service: its kind and the reference string.
#[derive(Clone, Debug)]
pub struct ServiceLocation {
    pub kind: LocationType,
    pub image: String,
}

/// A deployable unit, keyed by `name` in the service registry.
#[derive(Clone, Debug)]
pub struct Service {
    pub name: String,
    pub source: ServiceLocation,
    /// Port specs, "container" or "host:container".
    pub internal_ports: Vec<String>,
    /// Names of the services this one needs.
    pub dependencies: Option<Vec<String>>,
}

/// A named collection of services run together.
#[derive(Clone, Debug)]
pub struct Stack {
    pub name: String,
    pub description: String,
    /// Member service names, in order; not closed under dependencies.
    pub services: Vec<String>,
}

/// Field edits for one service.
#[derive(Clone, Debug)]
pub struct Override {
    pub env: Option<NameMap<String>>,
    pub ports: Option<Vec<String>>,
    pub command: Option<Vec<String>>,
    pub entrypoint: Option<Vec<String>>,
    pub volumes: Option<Vec<String>>,
}

/// A named set of service edits for one stack, registered under
/// "{stack}-{name}".
#[derive(Clone, Debug)]
pub struct StackOverride {
    pub name: String,
    pub stack: String,
    pub description: String,
    /// Edits by service name.
    pub overrides: NameMap<Override>,
}

/// One network of a manifest.
#[derive(Clone, Debug)]
pub struct DockerNetwork {
    pub name: String,
}

/// One service entry of a manifest.
#[derive(Clone, Debug)]
pub struct DockerService {
    pub container_name: String,
    pub image: Option<String>,
    pub build_context: Option<String>,
    pub dockerfile: Option<String>,
    pub entrypoint: Option<Vec<String>>,
    pub command: Option<Vec<String>>,
    pub environment: Option<NameMap<String>>,
    pub ports: Option<Vec<String>>,
    pub volumes: Option<Vec<String>>,
    pub depends_on: Option<Vec<String>>,
    pub networks: Option<Vec<String>>,
    pub restart: Option<String>,
}

/// The manifest handed to the orchestration tool.
#[derive(Clone, Debug)]
pub struct DockerComposeFile {
    pub services: NameMap<DockerService>,
    pub networks: NameMap<Option<DockerNetwork>>,
}

impl LocationType {
    pub open spec fn label_of(&self) -> Seq<char> {
        match self {
            LocationType::Image => "Image"@,
            LocationType::Local => "Local"@,
        }
    }

    /// "Image" or "Local".
    pub fn label(&self) -> (r: &'static str)
        ensures
            r@ == self.label_of(),
    {
        match self {
            LocationType::Image => "Image",
            LocationType::Local => "Local",
        }
    }
}

impl ServiceLocation {
    pub open spec fn describe_of(&self) -> Seq<char> {
        self.kind.label_of() + ":"@ + self.image@
    }

    /// "{kind}:{reference}", as in "Image:nginx:latest".
    pub fn describe(&self) -> (r: String)
        ensures
            r@ == self.describe_of(),
    {
        let mut r = self.kind.label().to_owned();
        r.append(":");
        r.append(self.image.as_str());
        r
    }
}

impl Service {
    pub open spec fn describe_of(&self) -> Seq<char> {
        self.name@ + " ["@ + self.source.describe_of() + "] ports: "@ + quoted_list(
            names_of(self.internal_ports@),
        )
    }

    /// "{name} [{source}] ports: [\"{port}\", ...]".
    pub fn describe(&self) -> (r: String)
        ensures
            r@ == self.describe_of(),
    {
        let mut r = self.name.clone();
        r.append(" [");
        let source = self.source.describe();
        r.append(source.as_str());
        r.append("] ports: ");
        let ports = render_quoted_list(&self.internal_ports);
        r.append(ports.as_str());
        r
    }
}

impl DockerNetwork {
    pub fn new(name: String) -> (r: DockerNetwork)
        ensures
            r.name == name,
    {
        DockerNetwork { name }
    }
}

} // verus!
