use omni_agent::agent::Agent;
use omni_agent::instances::{
    assignment_list, display_name, join_commas, AppInstance, AppInstanceRequest, PortMapping, TemplateValue,
    VolumeMapping,
};
use std::collections::HashMap;

fn request() -> AppInstanceRequest {
    let mut env = HashMap::new();
    env.insert("MODE".to_string(), "prod".to_string());
    env.insert("DEBUG".to_string(), "0".to_string());
    AppInstanceRequest {
        name: "web".to_string(),
        image: "nginx".to_string(),
        ports: Some(vec![
            PortMapping { host_port: 8080, container_port: 80, protocol: "tcp".to_string() },
            PortMapping { host_port: 5353, container_port: 53, protocol: "udp".to_string() },
        ]),
        environment: Some(env),
        volumes: Some(vec![VolumeMapping { host_path: "/data".to_string(), container_path: "/var/lib".to_string() }]),
    }
}

#[test]
fn request_volume_binds() {
    assert_eq!(request().volume_binds(), vec!["/data:/var/lib"]);
    let mut r = request();
    r.volumes = None;
    assert!(r.volume_binds().is_empty());
}

#[test]
fn request_port_bindings() {
    assert_eq!(
        request().port_bindings(),
        vec![("80/tcp".to_string(), "8080".to_string()), ("53/udp".to_string(), "5353".to_string())]
    );
    let mut r = request();
    r.ports = None;
    assert!(r.port_bindings().is_empty());
}

#[test]
fn request_env_vars() {
    let mut vars = request().env_vars();
    vars.sort();
    assert_eq!(vars, vec!["DEBUG=0", "MODE=prod"]);
    let mut r = request();
    r.environment = None;
    assert!(r.env_vars().is_empty());
}

#[test]
fn mapping_template_string() {
    let mut m = HashMap::new();
    m.insert("a".to_string(), "1".to_string());
    assert_eq!(m.to_template_string(), "a=1");
    m.insert("b".to_string(), "2".to_string());
    let s = m.to_template_string();
    assert!(s == "a=1,b=2" || s == "b=2,a=1");
    assert_eq!(HashMap::<String, String>::new().to_template_string(), "");
    assert_eq!(assignment_list(&m).len(), 2);
    assert_eq!(join_commas(&vec!["x".to_string(), "y".to_string(), "z".to_string()]), "x,y,z");
}

#[test]
fn container_display_names() {
    assert_eq!(display_name("/web"), "web");
    assert_eq!(display_name("//a/b"), "a/b");
    assert_eq!(display_name("plain"), "plain");
    assert_eq!(display_name(""), "");
}

#[test]
fn launched_instance() {
    let i = AppInstance::launched("abc123".to_string(), request(), "2024-01-01".to_string());
    assert_eq!(i.id, "abc123");
    assert_eq!(i.name, "web");
    assert_eq!(i.image, "nginx");
    assert_eq!(i.status, "running");
    assert_eq!(i.created_at, "2024-01-01");
    assert_eq!(i.agent_id, "current");
    assert_eq!(i.ports.len(), 2);
    assert_eq!(i.environment.len(), 2);
    assert_eq!(i.volumes.len(), 1);
    let mut bare = request();
    bare.ports = None;
    bare.environment = None;
    bare.volumes = None;
    let j = AppInstance::launched("x".to_string(), bare, "t".to_string());
    assert!(j.ports.is_empty() && j.environment.is_empty() && j.volumes.is_empty());
}

#[test]
fn agent_identity() {
    let a = Agent::new("OmniAgent 1".to_string(), "0.1.0".to_string());
    let b = Agent::new("OmniAgent 1".to_string(), "0.1.0".to_string());
    assert_eq!(a.name(), "OmniAgent 1");
    assert_eq!(a.version(), "0.1.0");
    assert_ne!(a.id(), b.id());
}

use omni_agent::instances::{
    attached_containers, AgentInfo, NetworkCreateRequest, NetworkEndpoint, NetworkInfo, SystemResources, VolumeInfo,
};

fn endpoint(id: &str, name: Option<&str>, endpoint_id: Option<&str>, ip: Option<&str>) -> NetworkEndpoint {
    NetworkEndpoint {
        container_id: id.to_string(),
        name: name.map(String::from),
        endpoint_id: endpoint_id.map(String::from),
        ipv4_address: ip.map(String::from),
    }
}

fn sample_endpoints() -> Vec<NetworkEndpoint> {
    vec![
        endpoint("c1", Some("web"), Some("e1"), Some("10.0.0.2/16")),
        endpoint("c2", Some("db"), None, Some("10.0.0.3/16")),
        endpoint("c3", Some("cache"), Some("e3"), Some("10.0.0.4/16")),
    ]
}

#[test]
fn network_containers_keep_complete_endpoints() {
    let cs = attached_containers(&sample_endpoints());
    assert_eq!(cs.len(), 2);
    assert_eq!(cs[0].0, "c1");
    assert_eq!(cs[0].1.name, "web");
    assert_eq!(cs[0].1.endpoint_id, "e1");
    assert_eq!(cs[0].1.ipv4_address, "10.0.0.2/16");
    assert_eq!(cs[1].0, "c3");
    assert!(attached_containers(&Vec::new()).is_empty());
}

fn s(x: &str) -> Option<String> {
    Some(x.to_string())
}

#[test]
fn listed_networks_need_every_detail() {
    let n = NetworkInfo::listed(s("n1"), s("bridge"), s("bridge"), s("local"), sample_endpoints()).unwrap();
    assert_eq!((n.id.as_str(), n.name.as_str(), n.driver.as_str(), n.scope.as_str()), ("n1", "bridge", "bridge", "local"));
    assert_eq!(n.containers.len(), 2);
    assert!(NetworkInfo::listed(s("n1"), None, s("bridge"), s("local"), Vec::new()).is_none());
    assert!(NetworkInfo::listed(s("n1"), s("x"), s("bridge"), None, Vec::new()).is_none());
}

#[test]
fn created_networks_default_missing_details() {
    let n = NetworkInfo::created(s("n2"), None, s("overlay"), None, sample_endpoints());
    assert_eq!(n.id, "n2");
    assert_eq!(n.name, "");
    assert_eq!(n.driver, "overlay");
    assert_eq!(n.scope, "");
    assert_eq!(n.containers.len(), 2);
}

#[test]
fn network_request_driver() {
    let r = NetworkCreateRequest { name: "n".to_string(), driver: None, labels: None };
    assert_eq!(r.driver_name(), "");
    let r = NetworkCreateRequest { name: "n".to_string(), driver: s("overlay"), labels: None };
    assert_eq!(r.driver_name(), "overlay");
}

#[test]
fn volume_info_defaults_creation_time() {
    let v = VolumeInfo::new("data".to_string(), "/var/lib/data".to_string(), HashMap::new(), None);
    assert_eq!(v.created_at, "");
    assert_eq!(v.name, "data");
    let v = VolumeInfo::new("d".to_string(), "/m".to_string(), HashMap::new(), s("2024-05-01"));
    assert_eq!(v.created_at, "2024-05-01");
    assert_eq!(v.mountpoint, "/m");
}

#[test]
fn system_resources_in_bytes() {
    let r = SystemResources::from_kib(8, 16, 8, 1024, 512);
    assert_eq!(r.cpu_count, 8);
    assert_eq!(r.memory_total, 16384);
    assert_eq!(r.memory_available, 8192);
    assert_eq!(r.disk_total, 1048576);
    assert_eq!(r.disk_available, 524288);
    let u = SystemResources::unknown(4);
    assert_eq!((u.cpu_count, u.memory_total, u.disk_available), (4, 0, 0));
}

#[test]
fn agent_info_reports() {
    let d = AgentInfo::degraded("id".to_string(), "host".to_string(), 3, 2);
    assert_eq!(d.version, "unknown");
    assert_eq!(d.platform, "unknown");
    assert_eq!(d.status, "degraded");
    assert_eq!(d.instance_count, 3);
    assert_eq!(d.resources.cpu_count, 2);
    let h = AgentInfo::healthy(
        "id".to_string(),
        "host".to_string(),
        "24.0.7".to_string(),
        "Ubuntu 22.04".to_string(),
        "x86_64".to_string(),
        1,
        SystemResources::unknown(4),
    );
    assert_eq!(h.platform, "Ubuntu 22.04 / x86_64");
    assert_eq!(h.status, "healthy");
    assert_eq!(h.version, "24.0.7");
}
