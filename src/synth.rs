use crate::closure::{
    closure_registered, deps_of, lemma_dep_reachable, lemma_root_reachable, reachable,
    resolve_dependencies,
};
use crate::text::names_of;
use crate::error::ShoalError;
use crate::name_map::NameMap;
use crate::overrides::{apply_overrides, merge_ports, opt_map, opt_seq, overridden, seq_or_empty};
use crate::resolver::{extract_override, opt_text, resolve_identifier};
use crate::types::{
    DockerComposeFile, DockerNetwork, DockerService, Override, Service, Stack, StackOverride,
};
use vstd::prelude::*;
use vstd::string::*;

verus! {

/// "{a}-{b}": the form of container names and of override keys.
pub open spec fn dashed(a: Seq<char>, b: Seq<char>) -> Seq<char> {
    a + seq!['-'] + b
}

/// The one network of a stack: "{stack}-network".
pub open spec fn network_of(stack: Seq<char>) -> Seq<char> {
    stack + "-network"@
}

/// The members of a stack that the registry lacks, in member order.
pub open spec fn missing_members(reg: Map<Seq<char>, Service>, members: Seq<Seq<char>>) -> Seq<
    Seq<char>,
>
    decreases members.len(),
{
    if members.len() == 0 {
        Seq::empty()
    } else {
        let rest = missing_members(reg, members.drop_last());
        if reg.contains_key(members.last()) {
            rest
        } else {
            rest.push(members.last())
        }
    }
}

/// `t` is the manifest entry of `service` within `stack`, with the service's
/// edit of the selected override, if any, applied.
pub open spec fn is_manifest_entry(
    t: DockerService,
    service: Service,
    stack: Seq<char>,
    edit: Option<Override>,
) -> bool {
    &&& t.container_name@ == dashed(stack, service.name@)
    &&& opt_text(t.image) == Some(service.source.image@)
    &&& t.build_context is None
    &&& t.dockerfile is None
    &&& t.depends_on is None
    &&& t.restart is None
    &&& (t.networks matches Some(n) && names_of(n@) == seq![network_of(stack)])
    &&& match edit {
        None => {
            &&& t.environment is None
            &&& opt_seq(t.ports) == Some(service.internal_ports@)
            &&& t.command is None
            &&& t.entrypoint is None
            &&& t.volumes is None
        },
        Some(o) => {
            &&& opt_map(t.environment) == opt_map(o.env)
            &&& opt_seq(t.ports) == Some(merge_ports(service.internal_ports@, seq_or_empty(o.ports)))
            &&& opt_seq(t.command) == opt_seq(o.command)
            &&& opt_seq(t.entrypoint) == opt_seq(o.entrypoint)
            &&& opt_seq(t.volumes) == opt_seq(o.volumes)
        },
    }
}

/// The manifest entry of `service` before any override.
pub open spec fn is_base_entry(t: DockerService, service: Service, stack: Seq<char>, network: Seq<char>) -> bool {
    &&& t.container_name@ == dashed(stack, service.name@)
    &&& opt_text(t.image) == Some(service.source.image@)
    &&& (t.networks matches Some(n) && names_of(n@) == seq![network])
    &&& opt_seq(t.ports) == Some(service.internal_ports@)
    &&& t.build_context is None
    &&& t.dockerfile is None
    &&& t.entrypoint is None
    &&& t.command is None
    &&& t.environment is None
    &&& t.volumes is None
    &&& t.depends_on is None
    &&& t.restart is None
}

/// A synthesized stack: its name, its network and its manifest services.
pub struct Deployment {
    pub stack_name: String,
    pub network_name: String,
    pub services: NameMap<DockerService>,
}

fn dash_join(a: &str, b: &str) -> (r: String)
    ensures
        r@ == dashed(a@, b@),
{
    let mut r = a.to_owned();
    r.append("-");
    r.append(b);
    proof {
        reveal_strlit("-");
    }
    r
}

fn network_name_for(stack: &str) -> (r: String)
    ensures
        r@ == network_of(stack@),
{
    let mut r = stack.to_owned();
    r.append("-network");
    r
}

/// The manifest entry for `service`: container "{stack}-{name}", the
/// service's image and ports, and membership of `network`.
pub fn build_docker_service(service: &Service, stack_name: &str, network: &str) -> (r:
    DockerService)
    ensures
        is_base_entry(r, *service, stack_name@, network@),
{
    let mut networks: Vec<String> = Vec::new();
    networks.push(network.to_owned());
    assert(names_of(networks@) =~= seq![network@]);
    let mut ports: Vec<String> = Vec::new();
    let mut i: usize = 0;
    while i < service.internal_ports.len()
        invariant
            i <= service.internal_ports@.len(),
            ports@ == service.internal_ports@.take(i as int),
        decreases service.internal_ports@.len() - i,
    {
        ports.push(service.internal_ports[i].clone());
        assert(service.internal_ports@.take(i as int + 1) =~= service.internal_ports@.take(
            i as int,
        ).push(service.internal_ports@[i as int]));
        i = i + 1;
    }
    assert(service.internal_ports@.take(i as int) =~= service.internal_ports@);
    DockerService {
        container_name: dash_join(stack_name, service.name.as_str()),
        image: Some(service.source.image.clone()),
        build_context: None,
        dockerfile: None,
        entrypoint: None,
        command: None,
        environment: None,
        ports: Some(ports),
        volumes: None,
        depends_on: None,
        networks: Some(networks),
        restart: None,
    }
}

/// The manifest document: the given services and one network, named
/// `network_name`.
pub fn build_compose_file(network_name: &str, docker_services: NameMap<DockerService>) -> (r:
    DockerComposeFile)
    ensures
        r.services@ == docker_services@,
        r.networks@.dom() == set![network_name@],
        r.networks@[network_name@] matches Some(n) && n.name@ == network_name@,
{
    let mut networks: NameMap<Option<DockerNetwork>> = NameMap::new();
    networks.insert(network_name.to_owned(), Some(DockerNetwork::new(network_name.to_owned())));
    assert(networks@.dom() =~= set![network_name@]);
    DockerComposeFile { services: docker_services, networks }
}

/// Every member of `stack` must be registered; all that are not are
/// reported together, in member order.
pub fn validate_stack_members(services: &NameMap<Service>, stack_name: &str, stack: &Stack) -> (r:
    Result<(), ShoalError>)
    ensures
        r is Ok <==> missing_members(services@, names_of(stack.services@)).len() == 0,
        match r {
            Ok(()) => true,
            Err(ShoalError::MissingServices { stack: s, missing }) => {
                &&& s@ == stack_name@
                &&& names_of(missing@) == missing_members(services@, names_of(stack.services@))
            },
            Err(_) => false,
        },
{
    let mut missing: Vec<String> = Vec::new();
    let mut i: usize = 0;
    while i < stack.services.len()
        invariant
            i <= stack.services@.len(),
            names_of(missing@) == missing_members(services@, names_of(stack.services@.take(i as int))),
        decreases stack.services@.len() - i,
    {
        let name = &stack.services[i];
        proof {
            let next = names_of(stack.services@.take(i as int + 1));
            assert(next.drop_last() =~= names_of(stack.services@.take(i as int)));
            assert(next.last() == name@);
        }
        if !services.contains_key(name.as_str()) {
            let ghost before = missing@;
            missing.push(name.clone());
            assert(names_of(missing@) =~= names_of(before).push(name@));
        }
        i = i + 1;
    }
    assert(stack.services@.take(i as int) =~= stack.services@);
    if missing.len() == 0 {
        Ok(())
    } else {
        Err(ShoalError::MissingServices { stack: stack_name.to_owned(), missing })
    }
}

/// The edit that the selected override holds for service `k`, if any.
pub open spec fn edit_for(
    overrides: Map<Seq<char>, StackOverride>,
    stack: Seq<char>,
    selected: Option<Seq<char>>,
    k: Seq<char>,
) -> Option<Override> {
    match selected {
        Some(o) => if overrides.contains_key(dashed(stack, o)) && overrides[dashed(
            stack,
            o,
        )].overrides@.contains_key(k) {
            Some(overrides[dashed(stack, o)].overrides@[k])
        } else {
            None
        },
        None => None,
    }
}

proof fn lemma_entry_overridden(
    base: DockerService,
    service: Service,
    stack: Seq<char>,
    o: Override,
    t: DockerService,
)
    requires
        is_base_entry(base, service, stack, network_of(stack)),
        overridden(base, o, t),
    ensures
        is_manifest_entry(t, service, stack, Some(o)),
{
    match o.env {
        Some(e) => {
            assert(Map::<Seq<char>, String>::empty().union_prefer_right(e@) =~= e@);
        },
        None => {},
    }
    match o.volumes {
        Some(v) => {
            assert(Seq::<String>::empty() + v@ =~= v@);
        },
        None => {},
    }
}

/// The checks that synthesis makes all pass: the stack is known, the
/// selected override (if any) is known, every member is registered, and so
/// is everything that the members require.
pub open spec fn synthesis_ok(
    services: Map<Seq<char>, Service>,
    stacks: Map<Seq<char>, Stack>,
    overrides: Map<Seq<char>, StackOverride>,
    id: Seq<char>,
) -> bool {
    let (sname, oname) = resolve_identifier(id, stacks.dom());
    let members = names_of(stacks[sname].services@);
    &&& stacks.contains_key(sname)
    &&& (oname matches Some(o) ==> overrides.contains_key(dashed(sname, o)))
    &&& missing_members(services, members).len() == 0
    &&& closure_registered(services, members)
}

/// `e` is the error of the first check that fails.
pub open spec fn is_synthesis_error(
    services: Map<Seq<char>, Service>,
    stacks: Map<Seq<char>, Stack>,
    overrides: Map<Seq<char>, StackOverride>,
    id: Seq<char>,
    e: ShoalError,
) -> bool {
    let (sname, oname) = resolve_identifier(id, stacks.dom());
    let stack_ok = stacks.contains_key(sname);
    let override_ok = oname matches Some(o) ==> overrides.contains_key(dashed(sname, o));
    let members = names_of(stacks[sname].services@);
    let members_ok = missing_members(services, members).len() == 0;
    match e {
        ShoalError::StackNotFound { stack } => stack@ == sname && !stack_ok,
        ShoalError::OverrideNotFound { stack, name } => {
            &&& stack_ok
            &&& stack@ == sname
            &&& oname == Some(name@)
            &&& !override_ok
        },
        ShoalError::MissingServices { stack, missing } => {
            &&& stack_ok && override_ok
            &&& stack@ == sname
            &&& names_of(missing@) == missing_members(services, members)
            &&& !members_ok
        },
        ShoalError::MissingDependency { service } => {
            &&& stack_ok && override_ok && members_ok
            &&& reachable(services, members, service@)
            &&& !services.contains_key(service@)
        },
        _ => false,
    }
}

/// `d` holds the stack's name, its network "{stack}-network", and one entry
/// for each service that the members reach, built from the registered
/// service with its override edit applied.
pub open spec fn is_synthesis_result(
    services: Map<Seq<char>, Service>,
    stacks: Map<Seq<char>, Stack>,
    overrides: Map<Seq<char>, StackOverride>,
    id: Seq<char>,
    d: Deployment,
) -> bool {
    let (sname, oname) = resolve_identifier(id, stacks.dom());
    let members = names_of(stacks[sname].services@);
    &&& d.stack_name@ == sname
    &&& d.network_name@ == network_of(sname)
    &&& forall|k: Seq<char>|
        d.services@.contains_key(k) <==> #[trigger] reachable(services, members, k)
    &&& forall|k: Seq<char>| #[trigger]
        d.services@.contains_key(k) ==> is_manifest_entry(
            d.services@[k],
            services[k],
            sname,
            edit_for(overrides, sname, oname, k),
        )
}

/// Resolves `identifier` against the registries and synthesizes the stack's
/// services: the stack's members and everything they require, each named
/// "{stack}-{service}" on the network "{stack}-network", with the selected
/// override applied. The first failing check decides the error: unknown
/// stack, unknown override, unregistered members, unregistered dependency.
pub fn synthesize(
    services: &NameMap<Service>,
    stacks: &NameMap<Stack>,
    overrides: &NameMap<StackOverride>,
    identifier: &str,
) -> (r: Result<Deployment, ShoalError>)
    ensures
        r is Ok <==> synthesis_ok(services@, stacks@, overrides@, identifier@),
        match r {
            Ok(d) => is_synthesis_result(services@, stacks@, overrides@, identifier@, d),
            Err(e) => is_synthesis_error(services@, stacks@, overrides@, identifier@, e),
        },
{
    let (stack_name, override_name) = extract_override(identifier, stacks);
    let ghost sname = stack_name@;
    let ghost oname = opt_text(override_name);
    let stack = match stacks.get(stack_name.as_str()) {
        Some(s) => s,
        None => {
            return Err(ShoalError::StackNotFound { stack: stack_name });
        },
    };
    let ghost members = names_of(stack.services@);
    let active: Option<&StackOverride> = match &override_name {
        Some(o) => {
            let key = dash_join(stack_name.as_str(), o.as_str());
            match overrides.get(key.as_str()) {
                Some(found) => Some(found),
                None => {
                    return Err(
                        ShoalError::OverrideNotFound { stack: stack_name, name: o.clone() },
                    );
                },
            }
        },
        None => None,
    };
    match validate_stack_members(services, stack_name.as_str(), stack) {
        Ok(()) => {},
        Err(e) => {
            return Err(e);
        },
    }
    let closure = match resolve_dependencies(&stack.services, services) {
        Ok(c) => c,
        Err(e) => {
            return Err(e);
        },
    };
    let network_name = network_name_for(stack_name.as_str());
    let mut docker_services: NameMap<DockerService> = NameMap::new();
    let mut i: usize = 0;
    while i < closure.len()
        invariant
            i <= closure@.len(),
            names_of(closure@).no_duplicates(),
            forall|n: Seq<char>|
                names_of(closure@).contains(n) <==> #[trigger] reachable(services@, members, n),
            closure_registered(services@, members),
            sname == stack_name@,
            network_name@ == network_of(sname),
            forall|k: Seq<char>|
                docker_services@.contains_key(k) <==> names_of(closure@.take(i as int)).contains(k),
            forall|k: Seq<char>| #[trigger]
                docker_services@.contains_key(k) ==> is_base_entry(
                    docker_services@[k],
                    services@[k],
                    sname,
                    network_of(sname),
                ),
        decreases closure@.len() - i,
    {
        let name = &closure[i];
        proof {
            assert(names_of(closure@)[i as int] == name@);
            assert(reachable(services@, members, name@));
        }
        let service = match services.get(name.as_str()) {
            Some(s) => s,
            None => {
                proof {
                    assert(false);
                }
                return Err(ShoalError::MissingDependency { service: name.clone() });
            },
        };
        let entry = build_docker_service(service, stack_name.as_str(), network_name.as_str());
        let ghost prior = docker_services@;
        docker_services.insert(name.clone(), entry);
        proof {
            assert forall|k: Seq<char>| #[trigger]
                docker_services@.contains_key(k) implies is_base_entry(
                docker_services@[k],
                services@[k],
                sname,
                network_of(sname),
            ) by {
                if k != name@ {
                    assert(prior.contains_key(k));
                }
            }
            let next = names_of(closure@.take(i as int + 1));
            assert(next =~= names_of(closure@.take(i as int)).push(name@));
            assert forall|k: Seq<char>| docker_services@.contains_key(k) <==> next.contains(k) by {
                if names_of(closure@.take(i as int)).contains(k) {
                    let j = choose|j: int|
                        0 <= j < names_of(closure@.take(i as int)).len() && names_of(
                            closure@.take(i as int),
                        )[j] == k;
                    assert(next[j] == k);
                }
                if next.contains(k) && k != name@ {
                    let j = choose|j: int| 0 <= j < next.len() && next[j] == k;
                    assert(names_of(closure@.take(i as int))[j] == k);
                }
                assert(next[i as int] == name@);
            }
        }
        i = i + 1;
    }
    proof {
        assert(closure@.take(i as int) =~= closure@);
    }
    let ghost before = docker_services@;
    match active {
        Some(o) => {
            apply_overrides(&mut docker_services, o);
        },
        None => {},
    }
    proof {
        assert forall|k: Seq<char>| #[trigger]
            docker_services@.contains_key(k) implies is_manifest_entry(
            docker_services@[k],
            services@[k],
            sname,
            edit_for(overrides@, sname, oname, k),
        ) by {
            assert(before.contains_key(k));
            match active {
                Some(o) => {
                    if o.overrides@.contains_key(k) {
                        lemma_entry_overridden(
                            before[k],
                            services@[k],
                            sname,
                            o.overrides@[k],
                            docker_services@[k],
                        );
                    }
                },
                None => {},
            }
        }
    }
    Ok(Deployment { stack_name, network_name, services: docker_services })
}

/// A synthesized manifest holds every member of its stack, and with each
/// service every dependency that the service declares, whether or not the
/// stack lists it.
pub proof fn lemma_manifest_closed_under_dependencies(
    services: Map<Seq<char>, Service>,
    stacks: Map<Seq<char>, Stack>,
    overrides: Map<Seq<char>, StackOverride>,
    id: Seq<char>,
    d: Deployment,
)
    requires
        synthesis_ok(services, stacks, overrides, id),
        is_synthesis_result(services, stacks, overrides, id, d),
    ensures
        ({
            let sname = resolve_identifier(id, stacks.dom()).0;
            let members = names_of(stacks[sname].services@);
            &&& forall|m: Seq<char>| #[trigger] members.contains(m) ==> d.services@.contains_key(m)
            &&& forall|k: Seq<char>, x: Seq<char>|
                #![trigger d.services@.contains_key(k), deps_of(services, k).contains(x)]
                d.services@.contains_key(k) && deps_of(services, k).contains(x)
                    ==> d.services@.contains_key(x)
        }),
{
    let sname = resolve_identifier(id, stacks.dom()).0;
    let members = names_of(stacks[sname].services@);
    assert forall|m: Seq<char>| #[trigger] members.contains(m) implies d.services@.contains_key(m) by {
        lemma_root_reachable(services, members, m);
    }
    assert forall|k: Seq<char>, x: Seq<char>|
        #![trigger d.services@.contains_key(k), deps_of(services, k).contains(x)]
        d.services@.contains_key(k) && deps_of(services, k).contains(x) implies d.services@.contains_key(
        x,
    ) by {
        assert(reachable(services, members, k));
        lemma_dep_reachable(services, members, k, x);
    }
}

} // verus!
