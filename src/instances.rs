//! Application instances: what a create request asks for and what the
//! container runtime is handed for it.

use vstd::prelude::*;
use vstd::string::*;
use crate::template::drop_leading;
use crate::json::lists_entries;
use crate::text::{chars_of, comma_joined, decimal, push_decimal, string_from_chars};

verus! {

/// A container port published on a host port.
pub struct PortMapping {
    pub host_port: u16,
    pub container_port: u16,
    pub protocol: String,
}

/// A host path mounted into a container.
pub struct VolumeMapping {
    pub host_path: String,
    pub container_path: String,
}

/// A request to create an application instance.
pub struct AppInstanceRequest {
    pub name: String,
    pub image: String,
    pub ports: Option<Vec<PortMapping>>,
    pub environment: Option<std::collections::HashMap<String, String>>,
    pub volumes: Option<Vec<VolumeMapping>>,
}

/// An application instance run by this agent.
pub struct AppInstance {
    pub id: String,
    pub name: String,
    pub image: String,
    pub status: String,
    pub created_at: String,
    pub ports: Vec<PortMapping>,
    pub environment: std::collections::HashMap<String, String>,
    pub volumes: Vec<VolumeMapping>,
    pub agent_id: String,
}

/// The bind of a volume: `host:container`.
pub open spec fn volume_bind(v: VolumeMapping) -> Seq<char> {
    v.host_path@ + seq![':'] + v.container_path@
}

/// The key of a port binding: `container_port/protocol`.
pub open spec fn port_key(p: PortMapping) -> Seq<char> {
    decimal(p.container_port as nat) + seq!['/'] + p.protocol@
}

/// The mapping entries as `key=value` texts, in the order given.
pub open spec fn assignments(e: Seq<(Seq<char>, Seq<char>)>) -> Seq<Seq<char>> {
    e.map_values(|p: (Seq<char>, Seq<char>)| p.0 + seq!['='] + p.1)
}

/// Relies on `HashMap::iter`: it visits every entry of the map once, in an
/// arbitrary order.
#[verifier::external_body]
fn entries(m: &std::collections::HashMap<String, String>) -> (r: Vec<(String, String)>)
    ensures
        lists_entries(r@.map_values(|p: (String, String)| (p.0@, p.1@)), m.deep_view()),
{
    m.iter().map(|(k, v)| (k.clone(), v.clone())).collect()
}

/// The entries of `m` as `key=value` texts, each entry once, in some order.
pub fn assignment_list(m: &std::collections::HashMap<String, String>) -> (r: Vec<String>)
    ensures
        exists|e: Seq<(Seq<char>, Seq<char>)>|
            lists_entries(e, m.deep_view()) && r@.map_values(|s: String| s@) == assignments(e),
{
    let es = entries(m);
    let ghost e = es@.map_values(|p: (String, String)| (p.0@, p.1@));
    let mut r: Vec<String> = Vec::new();
    let mut i: usize = 0;
    while i < es.len()
        invariant
            i <= es.len(),
            e == es@.map_values(|p: (String, String)| (p.0@, p.1@)),
            r@.map_values(|s: String| s@) == assignments(e).take(i as int),
        decreases es.len() - i,
    {
        let mut v: Vec<char> = chars_of(es[i].0.as_str());
        v.push('=');
        let w = chars_of(es[i].1.as_str());
        let mut k: usize = 0;
        let ghost base = v@;
        while k < w.len()
            invariant
                k <= w.len(),
                v@ == base + w@.take(k as int),
            decreases w.len() - k,
        {
            v.push(w[k]);
            k = k + 1;
            assert(v@ =~= base + w@.take(k as int));
        }
        assert(w@.take(k as int) =~= w@);
        let item = string_from_chars(&v);
        assert(e[i as int] == (es@[i as int].0@, es@[i as int].1@));
        assert(item@ =~= assignments(e)[i as int]);
        let ghost prev = r@;
        r.push(item);
        assert(r@.map_values(|s: String| s@) =~= prev.map_values(|s: String| s@).push(item@));
        assert(assignments(e).take(i + 1) =~= assignments(e).take(i as int).push(assignments(e)[i as int]));
        i = i + 1;
    }
    assert(assignments(e).take(i as int) =~= assignments(e));
    r
}

/// The texts joined with commas.
pub fn join_commas(s: &Vec<String>) -> (r: String)
    ensures
        r@ == comma_joined(s@.map_values(|x: String| x@)),
{
    let ghost sv = s@.map_values(|x: String| x@);
    let mut out = String::new();
    let mut i: usize = 0;
    assert(sv.take(0) =~= Seq::<Seq<char>>::empty());
    while i < s.len()
        invariant
            i <= s.len(),
            sv == s@.map_values(|x: String| x@),
            out@ == comma_joined(sv.take(i as int)),
        decreases s.len() - i,
    {
        if i > 0 {
            out.append(",");
            proof {
                reveal_strlit(",");
            }
        }
        out.append(s[i].as_str());
        assert(sv.take(i + 1).drop_last() =~= sv.take(i as int));
        if i == 0 {
            assert(out@ =~= comma_joined(sv.take(1)));
        } else {
            assert(out@ =~= comma_joined(sv.take(i + 1)));
        }
        i = i + 1;
    }
    assert(sv.take(i as int) =~= sv);
    out
}

/// A value that can stand in a command template.
pub trait TemplateValue {
    /// The value's text in a template.
    fn to_template_string(&self) -> String;
}

impl TemplateValue for std::collections::HashMap<String, String> {
    /// The entries as `key=value`, joined with commas, each entry once.
    fn to_template_string(&self) -> (r: String)
        ensures
            exists|e: Seq<(Seq<char>, Seq<char>)>|
                lists_entries(e, self.deep_view()) && r@ == comma_joined(assignments(e)),
    {
        let list = assignment_list(self);
        join_commas(&list)
    }
}

impl AppInstanceRequest {
    /// The volume binds handed to the runtime: `host:container` for each
    /// requested volume, in order.
    pub fn volume_binds(&self) -> (r: Vec<String>)
        ensures
            r@.map_values(|s: String| s@) == match self.volumes {
                Some(vs) => vs@.map_values(|v: VolumeMapping| volume_bind(v)),
                None => Seq::empty(),
            },
    {
        let mut r: Vec<String> = Vec::new();
        match &self.volumes {
            None => {
                assert(r@.map_values(|s: String| s@) =~= Seq::<Seq<char>>::empty());
            },
            Some(vs) => {
                let ghost target = vs@.map_values(|v: VolumeMapping| volume_bind(v));
                let mut i: usize = 0;
                while i < vs.len()
                    invariant
                        i <= vs.len(),
                        target == vs@.map_values(|v: VolumeMapping| volume_bind(v)),
                        r@.map_values(|s: String| s@) == target.take(i as int),
                    decreases vs.len() - i,
                {
                    let mut b = vs[i].host_path.clone();
                    b.append(":");
                    b.append(vs[i].container_path.as_str());
                    proof {
                        reveal_strlit(":");
                    }
                    assert(b@ =~= volume_bind(vs@[i as int]));
                    let ghost prev = r@;
                    let ghost bv = b@;
                    r.push(b);
                    assert(r@.map_values(|s: String| s@) =~= prev.map_values(|s: String| s@).push(bv));
                    assert(target.take(i + 1) =~= target.take(i as int).push(target[i as int]));
                    i = i + 1;
                }
                assert(target.take(i as int) =~= target);
            },
        }
        r
    }

    /// The port bindings handed to the runtime, in order: for each requested
    /// port, the key `container_port/protocol` and the host port in decimal.
    pub fn port_bindings(&self) -> (r: Vec<(String, String)>)
        ensures
            r@.map_values(|p: (String, String)| (p.0@, p.1@)) == match self.ports {
                Some(ps) => ps@.map_values(
                    |p: PortMapping| (port_key(p), decimal(p.host_port as nat)),
                ),
                None => Seq::empty(),
            },
    {
        let mut r: Vec<(String, String)> = Vec::new();
        match &self.ports {
            None => {
                assert(r@.map_values(|p: (String, String)| (p.0@, p.1@)) =~= Seq::<
                    (Seq<char>, Seq<char>),
                >::empty());
            },
            Some(ps) => {
                let ghost target = ps@.map_values(
                    |p: PortMapping| (port_key(p), decimal(p.host_port as nat)),
                );
                let mut i: usize = 0;
                while i < ps.len()
                    invariant
                        i <= ps.len(),
                        target == ps@.map_values(
                            |p: PortMapping| (port_key(p), decimal(p.host_port as nat)),
                        ),
                        r@.map_values(|p: (String, String)| (p.0@, p.1@)) == target.take(i as int),
                    decreases ps.len() - i,
                {
                    let mut k: Vec<char> = Vec::new();
                    push_decimal(&mut k, ps[i].container_port as u64);
                    k.push('/');
                    let mut key = string_from_chars(&k);
                    key.append(ps[i].protocol.as_str());
                    assert(key@ =~= port_key(ps@[i as int]));
                    let mut h: Vec<char> = Vec::new();
                    push_decimal(&mut h, ps[i].host_port as u64);
                    assert(h@ =~= decimal(ps@[i as int].host_port as nat));
                    let hs = string_from_chars(&h);
                    let ghost pv = (key@, hs@);
                    let ghost prev = r@;
                    r.push((key, hs));
                    assert(r@.map_values(|p: (String, String)| (p.0@, p.1@)) =~= prev.map_values(
                        |p: (String, String)| (p.0@, p.1@),
                    ).push(pv));
                    assert(target.take(i + 1) =~= target.take(i as int).push(target[i as int]));
                    i = i + 1;
                }
                assert(target.take(i as int) =~= target);
            },
        }
        r
    }

    /// The environment handed to the runtime: `key=value` for each requested
    /// variable, each once, in some order.
    pub fn env_vars(&self) -> (r: Vec<String>)
        ensures
            self.environment is None ==> r@.len() == 0,
            self.environment matches Some(m) ==> exists|e: Seq<(Seq<char>, Seq<char>)>|
                lists_entries(e, m.deep_view()) && r@.map_values(|s: String| s@) == assignments(e),
    {
        match &self.environment {
            None => Vec::new(),
            Some(m) => assignment_list(m),
        }
    }
}

/// The name of a container without the leading slashes the runtime puts
/// before it.
pub fn display_name(raw: &str) -> (r: String)
    ensures
        r@ == drop_leading(raw@, '/', '/'),
{
    let cs = chars_of(raw);
    let n = cs.len();
    let mut i: usize = 0;
    assert(cs@.subrange(0, n as int) =~= cs@);
    while i < n && cs[i] == '/'
        invariant
            i <= n,
            n == cs@.len(),
            drop_leading(raw@, '/', '/') == drop_leading(cs@.subrange(i as int, n as int), '/', '/'),
        decreases n - i,
    {
        assert(cs@.subrange(i as int, n as int).drop_first() =~= cs@.subrange(i + 1, n as int));
        i = i + 1;
    }
    let mut out: Vec<char> = Vec::new();
    let mut k: usize = i;
    while k < n
        invariant
            i <= k <= n,
            n == cs@.len(),
            out@ == cs@.subrange(i as int, k as int),
        decreases n - k,
    {
        out.push(cs[k]);
        k = k + 1;
        assert(out@ =~= cs@.subrange(i as int, k as int));
    }
    string_from_chars(&out)
}

impl AppInstance {
    /// The instance that a create request gives once its container `id` was
    /// created and started at `created_at`: running, on this agent, with the
    /// requested ports, environment and volumes (none where none was asked).
    pub fn launched(id: String, request: AppInstanceRequest, created_at: String) -> (r: AppInstance)
        ensures
            r.id@ == id@,
            r.name@ == request.name@,
            r.image@ == request.image@,
            r.status@ == "running"@,
            r.created_at@ == created_at@,
            r.ports@ == match request.ports {
                Some(p) => p@,
                None => Seq::empty(),
            },
            r.environment@ == match request.environment {
                Some(m) => m@,
                None => Map::empty(),
            },
            r.volumes@ == match request.volumes {
                Some(v) => v@,
                None => Seq::empty(),
            },
            r.agent_id@ == "current"@,
    {
        let AppInstanceRequest { name, image, ports, environment, volumes } = request;
        AppInstance {
            id,
            name,
            image,
            status: String::from_str("running"),
            created_at,
            ports: match ports {
                Some(p) => p,
                None => Vec::new(),
            },
            environment: match environment {
                Some(m) => m,
                None => std::collections::HashMap::new(),
            },
            volumes: match volumes {
                Some(v) => v,
                None => Vec::new(),
            },
            agent_id: String::from_str("current"),
        }
    }
}

/// A volume as the runtime describes it.
pub struct VolumeInfo {
    pub name: String,
    pub mountpoint: String,
    pub labels: std::collections::HashMap<String, String>,
    pub created_at: String,
}

impl VolumeInfo {
    /// The description of a volume; an unknown creation time is empty.
    pub fn new(
        name: String,
        mountpoint: String,
        labels: std::collections::HashMap<String, String>,
        created_at: Option<String>,
    ) -> (r: VolumeInfo)
        ensures
            r.name@ == name@,
            r.mountpoint@ == mountpoint@,
            r.labels@ == labels@,
            r.created_at@ == match created_at {
                Some(c) => c@,
                None => Seq::empty(),
            },
    {
        let created_at = match created_at {
            Some(c) => c,
            None => String::new(),
        };
        VolumeInfo { name, mountpoint, labels, created_at }
    }
}

/// A request to create a volume.
pub struct VolumeCreateRequest {
    pub name: String,
    pub labels: Option<std::collections::HashMap<String, String>>,
}

/// A request to create a network.
pub struct NetworkCreateRequest {
    pub name: String,
    pub driver: Option<String>,
    pub labels: Option<std::collections::HashMap<String, String>>,
}

impl NetworkCreateRequest {
    /// The driver asked for; empty, which leaves the choice to the runtime,
    /// when none was.
    pub fn driver_name(&self) -> (r: String)
        ensures
            r@ == match self.driver {
                Some(d) => d@,
                None => Seq::empty(),
            },
    {
        match &self.driver {
            Some(d) => d.clone(),
            None => String::new(),
        }
    }
}

/// A container attached to a network.
pub struct NetworkContainerInfo {
    pub name: String,
    pub endpoint_id: String,
    pub ipv4_address: String,
}

/// A container attached to a network as the runtime reports it: each detail
/// may be missing.
pub struct NetworkEndpoint {
    pub container_id: String,
    pub name: Option<String>,
    pub endpoint_id: Option<String>,
    pub ipv4_address: Option<String>,
}

/// A network and the containers attached to it, by container identifier.
pub struct NetworkInfo {
    pub id: String,
    pub name: String,
    pub driver: String,
    pub scope: String,
    pub containers: Vec<(String, NetworkContainerInfo)>,
}

/// Whether every detail of an endpoint is reported.
pub open spec fn complete(e: NetworkEndpoint) -> bool {
    e.name is Some && e.endpoint_id is Some && e.ipv4_address is Some
}

/// The endpoints whose details are all reported, in order.
pub open spec fn complete_endpoints(es: Seq<NetworkEndpoint>) -> Seq<NetworkEndpoint>
    decreases es.len(),
{
    if es.len() == 0 {
        Seq::empty()
    } else if complete(es.last()) {
        complete_endpoints(es.drop_last()).push(es.last())
    } else {
        complete_endpoints(es.drop_last())
    }
}

/// Whether an attached container is the endpoint's, with its details.
pub open spec fn describes(c: (String, NetworkContainerInfo), e: NetworkEndpoint) -> bool {
    &&& c.0@ == e.container_id@
    &&& e.name matches Some(n) && c.1.name@ == n@
    &&& e.endpoint_id matches Some(id) && c.1.endpoint_id@ == id@
    &&& e.ipv4_address matches Some(a) && c.1.ipv4_address@ == a@
}

/// Whether `cs` lists, in order, the endpoints of `es` whose details are all
/// reported, and no others.
pub open spec fn lists_complete(cs: Seq<(String, NetworkContainerInfo)>, es: Seq<NetworkEndpoint>) -> bool {
    let k = complete_endpoints(es);
    cs.len() == k.len() && forall|i: int| 0 <= i < cs.len() ==> #[trigger] describes(cs[i], k[i])
}

/// The attached containers whose details are all reported, in order; the
/// others are left out.
pub fn attached_containers(endpoints: &Vec<NetworkEndpoint>) -> (r: Vec<(String, NetworkContainerInfo)>)
    ensures
        lists_complete(r@, endpoints@),
{
    let ghost es = endpoints@;
    let mut r: Vec<(String, NetworkContainerInfo)> = Vec::new();
    let mut i: usize = 0;
    assert(es.take(0) =~= Seq::<NetworkEndpoint>::empty());
    while i < endpoints.len()
        invariant
            i <= endpoints.len(),
            es == endpoints@,
            lists_complete(r@, es.take(i as int)),
        decreases endpoints.len() - i,
    {
        let e = &endpoints[i];
        assert(es.take(i + 1).drop_last() =~= es.take(i as int));
        assert(es.take(i + 1).last() == es[i as int]);
        match (&e.name, &e.endpoint_id, &e.ipv4_address) {
            (Some(name), Some(endpoint_id), Some(ipv4_address)) => {
                let ghost prev = r@;
                let ghost k = complete_endpoints(es.take(i as int));
                let info = NetworkContainerInfo {
                    name: name.clone(),
                    endpoint_id: endpoint_id.clone(),
                    ipv4_address: ipv4_address.clone(),
                };
                r.push((e.container_id.clone(), info));
                assert(complete_endpoints(es.take(i + 1)) == k.push(es[i as int]));
                assert forall|j: int| 0 <= j < r@.len() implies #[trigger] describes(
                    r@[j],
                    complete_endpoints(es.take(i + 1))[j],
                ) by {
                    if j < prev.len() {
                        assert(r@[j] == prev[j]);
                        assert(describes(prev[j], k[j]));
                    }
                }
            },
            _ => {
                assert(complete_endpoints(es.take(i + 1)) == complete_endpoints(es.take(i as int)));
            },
        }
        i = i + 1;
    }
    assert(es.take(i as int) =~= es);
    r
}

impl NetworkInfo {
    /// A listed network: `None` unless its identifier, name, driver and
    /// scope are all reported.
    pub fn listed(
        id: Option<String>,
        name: Option<String>,
        driver: Option<String>,
        scope: Option<String>,
        endpoints: Vec<NetworkEndpoint>,
    ) -> (r: Option<NetworkInfo>)
        ensures
            r is Some <==> (id is Some && name is Some && driver is Some && scope is Some),
            r matches Some(info) ==> info.id@ == id->0@ && info.name@ == name->0@ && info.driver@
                == driver->0@ && info.scope@ == scope->0@ && lists_complete(info.containers@, endpoints@),
    {
        match (id, name, driver, scope) {
            (Some(id), Some(name), Some(driver), Some(scope)) => {
                let containers = attached_containers(&endpoints);
                Some(NetworkInfo { id, name, driver, scope, containers })
            },
            _ => None,
        }
    }

    /// A network just created: a detail that is not reported is empty.
    pub fn created(
        id: Option<String>,
        name: Option<String>,
        driver: Option<String>,
        scope: Option<String>,
        endpoints: Vec<NetworkEndpoint>,
    ) -> (r: NetworkInfo)
        ensures
            r.id@ == or_empty(id),
            r.name@ == or_empty(name),
            r.driver@ == or_empty(driver),
            r.scope@ == or_empty(scope),
            lists_complete(r.containers@, endpoints@),
    {
        let containers = attached_containers(&endpoints);
        NetworkInfo {
            id: text_or_empty(id),
            name: text_or_empty(name),
            driver: text_or_empty(driver),
            scope: text_or_empty(scope),
            containers,
        }
    }
}

/// The text, or the empty text when there is none.
pub open spec fn or_empty(s: Option<String>) -> Seq<char> {
    match s {
        Some(t) => t@,
        None => Seq::empty(),
    }
}

fn text_or_empty(s: Option<String>) -> (r: String)
    ensures
        r@ == or_empty(s),
{
    match s {
        Some(t) => t,
        None => String::new(),
    }
}

/// The machine resources an agent reports, in bytes.
pub struct SystemResources {
    pub cpu_count: usize,
    pub memory_total: u64,
    pub memory_available: u64,
    pub disk_total: u64,
    pub disk_available: u64,
}

impl SystemResources {
    /// Resources whose sizes are unknown: only the processor count.
    pub fn unknown(cpu_count: usize) -> (r: SystemResources)
        ensures
            r.cpu_count == cpu_count,
            r.memory_total == 0 && r.memory_available == 0,
            r.disk_total == 0 && r.disk_available == 0,
    {
        SystemResources { cpu_count, memory_total: 0, memory_available: 0, disk_total: 0, disk_available: 0 }
    }

    /// Resources from sizes in KiB, as the operating system reports them.
    pub fn from_kib(
        cpu_count: usize,
        memory_total: u64,
        memory_available: u64,
        disk_total: u64,
        disk_available: u64,
    ) -> (r: SystemResources)
        requires
            memory_total <= u64::MAX / 1024,
            memory_available <= u64::MAX / 1024,
            disk_total <= u64::MAX / 1024,
            disk_available <= u64::MAX / 1024,
        ensures
            r.cpu_count == cpu_count,
            r.memory_total == memory_total * 1024,
            r.memory_available == memory_available * 1024,
            r.disk_total == disk_total * 1024,
            r.disk_available == disk_available * 1024,
    {
        SystemResources {
            cpu_count,
            memory_total: memory_total * 1024,
            memory_available: memory_available * 1024,
            disk_total: disk_total * 1024,
            disk_available: disk_available * 1024,
        }
    }
}

/// What an agent reports about itself.
pub struct AgentInfo {
    pub id: String,
    pub name: String,
    pub version: String,
    pub platform: String,
    pub instance_count: usize,
    pub status: String,
    pub resources: SystemResources,
}

impl AgentInfo {
    /// The report of an agent that cannot reach the container runtime:
    /// version and platform unknown, status degraded, no resource sizes.
    pub fn degraded(id: String, name: String, instance_count: usize, cpu_count: usize) -> (r: AgentInfo)
        ensures
            r.id@ == id@,
            r.name@ == name@,
            r.version@ == "unknown"@,
            r.platform@ == "unknown"@,
            r.instance_count == instance_count,
            r.status@ == "degraded"@,
            r.resources.cpu_count == cpu_count,
            r.resources.memory_total == 0 && r.resources.memory_available == 0,
            r.resources.disk_total == 0 && r.resources.disk_available == 0,
    {
        AgentInfo {
            id,
            name,
            version: String::from_str("unknown"),
            platform: String::from_str("unknown"),
            instance_count,
            status: String::from_str("degraded"),
            resources: SystemResources::unknown(cpu_count),
        }
    }

    /// The report of a healthy agent; the platform is `os / architecture`.
    pub fn healthy(
        id: String,
        name: String,
        version: String,
        os: String,
        architecture: String,
        instance_count: usize,
        resources: SystemResources,
    ) -> (r: AgentInfo)
        ensures
            r.id@ == id@,
            r.name@ == name@,
            r.version@ == version@,
            r.platform@ == os@ + " / "@ + architecture@,
            r.instance_count == instance_count,
            r.status@ == "healthy"@,
            r.resources == resources,
    {
        let mut platform = os;
        platform.append(" / ");
        platform.append(architecture.as_str());
        AgentInfo {
            id,
            name,
            version,
            platform,
            instance_count,
            status: String::from_str("healthy"),
            resources,
        }
    }
}

} // verus!
