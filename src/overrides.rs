use crate::name_map::{keys_unique, map_of, NameMap};
use crate::types::{DockerService, Override, StackOverride};
use vstd::prelude::*;
use vstd::string::*;

verus! {

/// The position of the first ':' in `p` at or after `k`, or the length of `p`.
pub open spec fn next_colon(p: Seq<char>, k: int) -> int
    decreases p.len() - k,
{
    if 0 <= k < p.len() {
        if p[k] == ':' {
            k
        } else {
            next_colon(p, k + 1)
        }
    } else {
        p.len() as int
    }
}

/// The container side of a port spec: the text after its first ':' up to
/// the next ':', or the whole spec when it holds no ':'.
pub open spec fn container_port_of(p: Seq<char>) -> Seq<char> {
    let i = next_colon(p, 0);
    if i == p.len() {
        p
    } else {
        p.subrange(i + 1, next_colon(p, i + 1))
    }
}

/// The position of the first port spec from `k` on whose container side is
/// `token`, or the length of the list.
pub open spec fn port_slot(ports: Seq<String>, token: Seq<char>, k: int) -> int
    decreases ports.len() - k,
{
    if 0 <= k < ports.len() {
        if container_port_of(ports[k]@) == token {
            k
        } else {
            port_slot(ports, token, k + 1)
        }
    } else {
        ports.len() as int
    }
}

/// One override port spec replaces, in place, the first spec with the same
/// container side, or else goes last.
pub open spec fn merge_port(ports: Seq<String>, spec: String) -> Seq<String> {
    let i = port_slot(ports, container_port_of(spec@), 0);
    if i < ports.len() {
        ports.update(i, spec)
    } else {
        ports.push(spec)
    }
}

/// The override port specs, applied one after another.
pub open spec fn merge_ports(ports: Seq<String>, edits: Seq<String>) -> Seq<String>
    decreases edits.len(),
{
    if edits.len() == 0 {
        ports
    } else {
        merge_port(merge_ports(ports, edits.drop_last()), edits.last())
    }
}

pub open spec fn opt_seq(o: Option<Vec<String>>) -> Option<Seq<String>> {
    match o {
        Some(v) => Some(v@),
        None => None,
    }
}

pub open spec fn opt_map(o: Option<NameMap<String>>) -> Option<Map<Seq<char>, String>> {
    match o {
        Some(m) => Some(m@),
        None => None,
    }
}

/// The entries of an absent list are none.
pub open spec fn seq_or_empty(o: Option<Vec<String>>) -> Seq<String> {
    match o {
        Some(v) => v@,
        None => Seq::empty(),
    }
}

pub open spec fn map_or_empty(o: Option<NameMap<String>>) -> Map<Seq<char>, String> {
    match o {
        Some(m) => m@,
        None => Map::empty(),
    }
}

/// Environment after the override: the override's variables win.
pub open spec fn env_after(s: DockerService, o: Override) -> Option<Map<Seq<char>, String>> {
    match o.env {
        Some(e) => Some(map_or_empty(s.environment).union_prefer_right(e@)),
        None => opt_map(s.environment),
    }
}

pub open spec fn ports_after(s: DockerService, o: Override) -> Option<Seq<String>> {
    match o.ports {
        Some(p) => Some(merge_ports(seq_or_empty(s.ports), p@)),
        None => opt_seq(s.ports),
    }
}

/// Command and entrypoint are replaced whole.
pub open spec fn replaced(current: Option<Vec<String>>, edit: Option<Vec<String>>) -> Option<
    Seq<String>,
> {
    match edit {
        Some(e) => Some(e@),
        None => opt_seq(current),
    }
}

/// Volumes are appended, duplicates kept.
pub open spec fn volumes_after(s: DockerService, o: Override) -> Option<Seq<String>> {
    match o.volumes {
        Some(v) => Some(seq_or_empty(s.volumes) + v@),
        None => opt_seq(s.volumes),
    }
}

/// `t` is the service `s` with the edits of `o` applied; fields that no edit
/// touches are kept as they are.
pub open spec fn overridden(s: DockerService, o: Override, t: DockerService) -> bool {
    &&& t.container_name == s.container_name
    &&& t.image == s.image
    &&& t.build_context == s.build_context
    &&& t.dockerfile == s.dockerfile
    &&& t.depends_on == s.depends_on
    &&& t.networks == s.networks
    &&& t.restart == s.restart
    &&& opt_map(t.environment) == env_after(s, o)
    &&& opt_seq(t.ports) == ports_after(s, o)
    &&& opt_seq(t.command) == replaced(s.command, o.command)
    &&& opt_seq(t.entrypoint) == replaced(s.entrypoint, o.entrypoint)
    &&& opt_seq(t.volumes) == volumes_after(s, o)
}

fn find_colon(p: &str, from: usize, n: usize) -> (r: usize)
    requires
        n == p@.len(),
        from <= n,
    ensures
        r == next_colon(p@, from as int),
{
    let mut k: usize = from;
    while k < n
        invariant
            from <= k <= n,
            n == p@.len(),
            next_colon(p@, k as int) == next_colon(p@, from as int),
        decreases n - k,
    {
        if p.get_char(k) == ':' {
            return k;
        }
        k = k + 1;
    }
    k
}

/// The container side of a port spec ("8080:80" gives "80", "80" gives "80").
pub fn container_port(spec: &str) -> (r: String)
    ensures
        r@ == container_port_of(spec@),
{
    let n = spec.unicode_len();
    let i = find_colon(spec, 0, n);
    proof {
        lemma_next_colon_range(spec@, 0);
    }
    if i == n {
        spec.to_owned()
    } else {
        let j = find_colon(spec, i + 1, n);
        proof {
            assert(i + 1 <= j <= n) by {
                lemma_next_colon_range(spec@, i + 1);
            }
        }
        spec.substring_char(i + 1, j).to_owned()
    }
}

proof fn lemma_next_colon_range(p: Seq<char>, k: int)
    requires
        0 <= k <= p.len(),
    ensures
        k <= next_colon(p, k) <= p.len(),
    decreases p.len() - k,
{
    if k < p.len() && p[k] != ':' {
        lemma_next_colon_range(p, k + 1);
    }
}

proof fn lemma_port_slot_range(ports: Seq<String>, token: Seq<char>, k: int)
    requires
        0 <= k <= ports.len(),
    ensures
        k <= port_slot(ports, token, k) <= ports.len(),
    decreases ports.len() - k,
{
    if k < ports.len() && container_port_of(ports[k]@) != token {
        lemma_port_slot_range(ports, token, k + 1);
    }
}

fn copy_strings(v: &Vec<String>) -> (r: Vec<String>)
    ensures
        r@ == v@,
{
    let r = v.clone();
    assert(r@ =~= v@);
    r
}

fn strings_or_empty(o: &Option<Vec<String>>) -> (r: Vec<String>)
    ensures
        r@ == seq_or_empty(*o),
{
    match o {
        Some(v) => copy_strings(v),
        None => Vec::new(),
    }
}

/// Copies every entry of `src` into `target`, the entries of `src` winning.
fn insert_all(target: &mut NameMap<String>, src: &NameMap<String>)
    ensures
        final(target)@ == old(target)@.union_prefer_right(src@),
{
    let entries = src.entries();
    let ghost start = target@;
    let mut i: usize = 0;
    while i < entries.len()
        invariant
            i <= entries@.len(),
            entries@ == src.pairs(),
            target@ == start.union_prefer_right(map_of(entries@.take(i as int))),
        decreases entries@.len() - i,
    {
        let name = entries[i].0.clone();
        let value = entries[i].1.clone();
        proof {
            let next = entries@.take(i as int + 1);
            assert(next.drop_last() =~= entries@.take(i as int));
            assert(next.last() == entries@[i as int]);
        }
        target.insert(name, value);
        proof {
            assert(target@ =~= start.union_prefer_right(map_of(entries@.take(i as int + 1))));
        }
        i = i + 1;
    }
    assert(entries@.take(entries@.len() as int) =~= entries@);
}

/// The right-biased union of two environments: every variable of `b`, and
/// every variable of `a` that `b` does not set.
pub fn merge_hashmaps(a: &NameMap<String>, b: &NameMap<String>) -> (r: NameMap<String>)
    ensures
        r@ == a@.union_prefer_right(b@),
{
    let mut r = NameMap::new();
    insert_all(&mut r, a);
    assert(Map::<Seq<char>, String>::empty().union_prefer_right(a@) =~= a@);
    insert_all(&mut r, b);
    r
}

fn apply_env_override(service: &mut DockerService, service_override: &Override)
    ensures
        opt_map(final(service).environment) == env_after(*old(service), *service_override),
        final(service).container_name == old(service).container_name,
        final(service).image == old(service).image,
        final(service).build_context == old(service).build_context,
        final(service).dockerfile == old(service).dockerfile,
        final(service).depends_on == old(service).depends_on,
        final(service).networks == old(service).networks,
        final(service).restart == old(service).restart,
        final(service).ports == old(service).ports,
        final(service).command == old(service).command,
        final(service).entrypoint == old(service).entrypoint,
        final(service).volumes == old(service).volumes,
{
    if let Some(env) = &service_override.env {
        let merged = match &service.environment {
            Some(current) => merge_hashmaps(current, env),
            None => merge_hashmaps(&NameMap::new(), env),
        };
        service.environment = Some(merged);
    }
}

fn apply_ports_override(service: &mut DockerService, service_override: &Override)
    ensures
        opt_seq(final(service).ports) == ports_after(*old(service), *service_override),
        final(service).container_name == old(service).container_name,
        final(service).image == old(service).image,
        final(service).build_context == old(service).build_context,
        final(service).dockerfile == old(service).dockerfile,
        final(service).depends_on == old(service).depends_on,
        final(service).networks == old(service).networks,
        final(service).restart == old(service).restart,
        final(service).environment == old(service).environment,
        final(service).command == old(service).command,
        final(service).entrypoint == old(service).entrypoint,
        final(service).volumes == old(service).volumes,
{
    if let Some(edits) = &service_override.ports {
        let mut ports = strings_or_empty(&service.ports);
        let ghost base = ports@;
        let mut j: usize = 0;
        while j < edits.len()
            invariant
                j <= edits@.len(),
                ports@ == merge_ports(base, edits@.take(j as int)),
            decreases edits@.len() - j,
        {
            let edit = &edits[j];
            let token = container_port(edit.as_str());
            let ghost current = ports@;
            let mut i: usize = 0;
            while i < ports.len()
                invariant
                    i <= ports@.len(),
                    ports@ == current,
                    token@ == container_port_of(edit@),
                    port_slot(current, token@, i as int) == port_slot(current, token@, 0),
                ensures
                    i <= ports@.len(),
                    ports@ == current,
                    i == port_slot(current, token@, 0),
                decreases ports@.len() - i,
            {
                let slot_token = container_port(ports[i].as_str());
                if slot_token == token {
                    break;
                }
                i = i + 1;
            }
            proof {
                lemma_port_slot_range(current, token@, i as int);
                let next = edits@.take(j as int + 1);
                assert(next.drop_last() =~= edits@.take(j as int));
                assert(next.last() == edits@[j as int]);
            }
            if i < ports.len() {
                ports.set(i, edit.clone());
            } else {
                ports.push(edit.clone());
            }
            j = j + 1;
        }
        assert(edits@.take(edits@.len() as int) =~= edits@);
        service.ports = Some(ports);
    }
}

fn apply_command_override(service: &mut DockerService, service_override: &Override)
    ensures
        opt_seq(final(service).command) == replaced(old(service).command, service_override.command),
        final(service).container_name == old(service).container_name,
        final(service).image == old(service).image,
        final(service).build_context == old(service).build_context,
        final(service).dockerfile == old(service).dockerfile,
        final(service).depends_on == old(service).depends_on,
        final(service).networks == old(service).networks,
        final(service).restart == old(service).restart,
        final(service).environment == old(service).environment,
        final(service).ports == old(service).ports,
        final(service).entrypoint == old(service).entrypoint,
        final(service).volumes == old(service).volumes,
{
    if let Some(command) = &service_override.command {
        service.command = Some(copy_strings(command));
    }
}

fn apply_entrypoint_override(service: &mut DockerService, service_override: &Override)
    ensures
        opt_seq(final(service).entrypoint) == replaced(
            old(service).entrypoint,
            service_override.entrypoint,
        ),
        final(service).container_name == old(service).container_name,
        final(service).image == old(service).image,
        final(service).build_context == old(service).build_context,
        final(service).dockerfile == old(service).dockerfile,
        final(service).depends_on == old(service).depends_on,
        final(service).networks == old(service).networks,
        final(service).restart == old(service).restart,
        final(service).environment == old(service).environment,
        final(service).ports == old(service).ports,
        final(service).command == old(service).command,
        final(service).volumes == old(service).volumes,
{
    if let Some(entrypoint) = &service_override.entrypoint {
        service.entrypoint = Some(copy_strings(entrypoint));
    }
}

fn apply_volumes_override(service: &mut DockerService, service_override: &Override)
    ensures
        opt_seq(final(service).volumes) == volumes_after(*old(service), *service_override),
        final(service).container_name == old(service).container_name,
        final(service).image == old(service).image,
        final(service).build_context == old(service).build_context,
        final(service).dockerfile == old(service).dockerfile,
        final(service).depends_on == old(service).depends_on,
        final(service).networks == old(service).networks,
        final(service).restart == old(service).restart,
        final(service).environment == old(service).environment,
        final(service).ports == old(service).ports,
        final(service).command == old(service).command,
        final(service).entrypoint == old(service).entrypoint,
{
    if let Some(volumes) = &service_override.volumes {
        let mut merged = strings_or_empty(&service.volumes);
        let mut extra = copy_strings(volumes);
        merged.append(&mut extra);
        service.volumes = Some(merged);
    }
}

/// Applies every edit of one service override to a manifest service.
pub fn apply_service_override(service: &mut DockerService, service_override: &Override)
    ensures
        overridden(*old(service), *service_override, *final(service)),
{
    apply_env_override(service, service_override);
    apply_ports_override(service, service_override);
    apply_command_override(service, service_override);
    apply_entrypoint_override(service, service_override);
    apply_volumes_override(service, service_override);
}

/// Applies a stack override to the manifest services: each service that the
/// override names gets its edits; every other service is left as it was.
pub fn apply_overrides(
    docker_services: &mut NameMap<DockerService>,
    override_config: &StackOverride,
)
    ensures
        final(docker_services)@.dom() == old(docker_services)@.dom(),
        forall|k: Seq<char>| #[trigger]
            old(docker_services)@.contains_key(k) ==> if override_config.overrides@.contains_key(
                k,
            ) {
                overridden(
                    old(docker_services)@[k],
                    override_config.overrides@[k],
                    final(docker_services)@[k],
                )
            } else {
                final(docker_services)@[k] == old(docker_services)@[k]
            },
{
    let mut taken = NameMap::new();
    std::mem::swap(docker_services, &mut taken);
    let mut entries = taken.into_entries();
    let ghost start = entries@;
    let mut i: usize = 0;
    while i < entries.len()
        invariant
            i <= entries@.len(),
            entries@.len() == start.len(),
            keys_unique(start),
            forall|j: int| 0 <= j < start.len() ==> #[trigger] entries@[j].0 == start[j].0,
            forall|j: int|
                0 <= j < i ==> if override_config.overrides@.contains_key(#[trigger] start[j].0@) {
                    overridden(
                        start[j].1,
                        override_config.overrides@[start[j].0@],
                        entries@[j].1,
                    )
                } else {
                    entries@[j].1 == start[j].1
                },
            forall|j: int| i <= j < start.len() ==> #[trigger] entries@[j] == start[j],
        decreases entries@.len() - i,
    {
        match override_config.overrides.get(entries[i].0.as_str()) {
            Some(service_override) => {
                apply_service_override(&mut entries[i].1, service_override);
            },
            None => {},
        }
        i = i + 1;
    }
    proof {
        assert(keys_unique(entries@)) by {
            assert forall|a: int, b: int|
                0 <= a < entries@.len() && 0 <= b < entries@.len() && a != b implies #[trigger] entries@[a].0@
                != #[trigger] entries@[b].0@ by {
                assert(entries@[a].0 == start[a].0 && entries@[b].0 == start[b].0);
            }
        }
    }
    let result = NameMap::from_entries(entries);
    proof {
        assert forall|k: Seq<char>| result@.contains_key(k) <==> map_of(start).contains_key(k) by {
            crate::name_map::lemma_map_of_dom(start, k);
            crate::name_map::lemma_map_of_dom(result.pairs(), k);
            if crate::name_map::has_key(start, k) {
                let j = choose|j: int| 0 <= j < start.len() && #[trigger] start[j].0@ == k;
                assert(result.pairs()[j].0@ == k);
            }
            if crate::name_map::has_key(result.pairs(), k) {
                let j = choose|j: int| 0 <= j < result.pairs().len() && #[trigger] result.pairs()[j].0@ == k;
                assert(start[j].0@ == k);
            }
        }
        assert(result@.dom() =~= map_of(start).dom());
        assert forall|k: Seq<char>| #[trigger] map_of(start).contains_key(k) implies (
        if override_config.overrides@.contains_key(k) {
            overridden(map_of(start)[k], override_config.overrides@[k], result@[k])
        } else {
            result@[k] == map_of(start)[k]
        }) by {
            crate::name_map::lemma_map_of_dom(start, k);
            let j = choose|j: int| 0 <= j < start.len() && #[trigger] start[j].0@ == k;
            crate::name_map::lemma_map_of_at(start, j);
            crate::name_map::lemma_map_of_at(result.pairs(), j);
            assert(result.pairs()[j].0 == start[j].0);
        }
    }
    assert(map_of(start) == old(docker_services)@);
    *docker_services = result;
}

} // verus!
