use omni_agent::cpi_actions::{CpiCommand, CpiCommandType};
use omni_agent::engine::{Execution, ProcessOutcome, Step};
use omni_agent::error::ExecutionError;
use omni_agent::template::{render, ParamValue};
use std::collections::HashMap;

fn text(key: &str, value: &str) -> (String, ParamValue) {
    (key.to_string(), ParamValue::Text(value.to_string()))
}

fn ok(stdout: &str) -> ProcessOutcome {
    ProcessOutcome::Exited { success: true, stdout: stdout.as_bytes().to_vec(), stderr: Vec::new() }
}

fn failed(stderr: &str) -> ProcessOutcome {
    ProcessOutcome::Exited { success: false, stdout: Vec::new(), stderr: stderr.as_bytes().to_vec() }
}

fn run_line(step: &Step) -> String {
    match step {
        Step::Run(line) => line.clone(),
        Step::Done(_) => panic!("expected a command to run"),
    }
}

fn done(step: Step) -> Result<String, ExecutionError> {
    match step {
        Step::Done(r) => r,
        Step::Run(line) => panic!("unexpected command {}", line),
    }
}

#[test]
fn missing_placeholder_passes_through() {
    assert_eq!(render("echo {missing}", &Vec::new()), "echo {missing}");
    assert_eq!(render("echo {missing} {name}", &vec![text("name", "web")]), "echo {missing} web");
}

#[test]
fn scalar_substitution() {
    let params = vec![text("image", "nginx"), text("name", "web")];
    assert_eq!(render("docker run {image} --name {name}", &params), "docker run nginx --name web");
}

#[test]
fn every_occurrence_is_replaced() {
    let params = vec![text("name", "web")];
    assert_eq!(render("{name}-{name}{name", &params), "web-web{name");
}

#[test]
fn rendering_is_repeatable() {
    let params = vec![text("image", "nginx"), (String::from("n"), ParamValue::Int(-42))];
    let a = render("run {image} {n}", &params);
    let b = render("run {image} {n}", &params);
    assert_eq!(a, b);
    assert_eq!(a, "run nginx -42");
}

#[test]
fn sequence_flattening() {
    let params = vec![(
        "ports".to_string(),
        ParamValue::List(vec!["80:80".to_string(), "443:443".to_string()]),
    )];
    assert_eq!(render("-p {ports}", &params), "-p \"80:80\",\"443:443\"");
}

#[test]
fn empty_sequence_renders_empty() {
    let params = vec![("ports".to_string(), ParamValue::List(Vec::new()))];
    assert_eq!(render("-p {ports}.", &params), "-p .");
}

#[test]
fn mapping_flattening() {
    let mut env = HashMap::new();
    env.insert("B".to_string(), "2".to_string());
    env.insert("A".to_string(), "1".to_string());
    let params = vec![("env".to_string(), ParamValue::Record(env))];
    assert_eq!(render("-e {env}", &params), "-e \"A\":\"1\",\"B\":\"2\"");
}

#[test]
fn scalar_kinds() {
    let params = vec![
        ("t".to_string(), ParamValue::Flag(true)),
        ("f".to_string(), ParamValue::Flag(false)),
        ("z".to_string(), ParamValue::Null),
        ("n".to_string(), ParamValue::Int(1234567890)),
        ("m".to_string(), ParamValue::Int(i64::MIN)),
    ];
    assert_eq!(render("{t} {f} {z} {n} {m}", &params), "true false null 1234567890 -9223372036854775808");
}

#[test]
fn command_tags() {
    assert_eq!(CpiCommandType::ListContainers.to_string(), "list_containers");
    assert_eq!(CpiCommandType::StartContainer { name: "a".into() }.to_string(), "start_container");
    assert_eq!(CpiCommandType::DeleteContainer { name: "a".into() }.to_string(), "delete_container");
    assert_eq!(CpiCommandType::StopContainer { name: "a".into() }.to_string(), "stop_container");
    assert_eq!(CpiCommandType::RestartContainer { name: "a".into() }.to_string(), "restart_container");
    assert_eq!(CpiCommandType::InspectContainer { name: "a".into() }.to_string(), "inspect_container");
}

#[test]
fn create_container_parameters() {
    let cmd = CpiCommandType::CreateContainer {
        image: "nginx:latest".to_string(),
        name: "test-container".to_string(),
        ports: vec!["80:80".to_string()],
        env: HashMap::new(),
    };
    assert_eq!(cmd.to_string(), "create_container");
    let params = cmd.params();
    let keys: Vec<&str> = params.iter().map(|p| p.0.as_str()).collect();
    assert_eq!(keys, vec!["env", "image", "name", "ports"]);
    assert_eq!(
        render("docker create --name {name} -p {ports} {image} {env}", &params),
        "docker create --name test-container -p \"80:80\" nginx:latest "
    );
}

#[test]
fn list_containers_has_no_parameters() {
    assert!(CpiCommandType::ListContainers.params().is_empty());
}

const START_CONFIG: &str = r#"{"actions":{"start_container":{"command":"docker start {name}"}}}"#;

#[test]
fn end_to_end_success() {
    let cpi = CpiCommand::new(START_CONFIG.to_string()).ok().unwrap();
    let (mut exec, step) = cpi.plan(CpiCommandType::StartContainer { name: "web".to_string() }).ok().unwrap();
    assert_eq!(run_line(&step), "docker start web");
    let result = done(exec.advance(ok("web\n")));
    assert_eq!(result.ok().unwrap(), "web\n");
    assert!(exec.is_finished());
}

#[test]
fn end_to_end_failure() {
    let cpi = CpiCommand::new(START_CONFIG.to_string()).ok().unwrap();
    let (mut exec, step) = cpi.plan(CpiCommandType::StartContainer { name: "web".to_string() }).ok().unwrap();
    assert_eq!(run_line(&step), "docker start web");
    match done(exec.advance(failed("No such container: web"))) {
        Err(ExecutionError::NonZeroExit(e)) => assert_eq!(e, "No such container: web"),
        _ => panic!("expected NonZeroExit"),
    }
}

#[test]
fn unknown_tag() {
    let cpi = CpiCommand::new(START_CONFIG.to_string()).ok().unwrap();
    match cpi.resolve("nonexistent") {
        Err(ExecutionError::ActionNotDefined(t)) => assert_eq!(t, "nonexistent"),
        _ => panic!("expected ActionNotDefined"),
    }
    match cpi.plan(CpiCommandType::StopContainer { name: "web".to_string() }) {
        Err(ExecutionError::ActionNotDefined(t)) => assert_eq!(t, "stop_container"),
        _ => panic!("expected ActionNotDefined"),
    }
}

const CHAIN_CONFIG: &str = r#"{
  "actions": {
    "create_container": {
      "command": "docker create --name {name} {image}",
      "post_exec": ["echo A {name}", "echo B {name}", "echo C {image}"]
    }
  }
}"#;

fn create(name: &str) -> CpiCommandType {
    CpiCommandType::CreateContainer {
        image: "nginx".to_string(),
        name: name.to_string(),
        ports: Vec::new(),
        env: HashMap::new(),
    }
}

#[test]
fn failed_main_command_runs_no_post_exec() {
    let cpi = CpiCommand::new(CHAIN_CONFIG.to_string()).ok().unwrap();
    let (mut exec, step) = cpi.plan(create("web")).ok().unwrap();
    let mut runs = vec![run_line(&step)];
    let mut step = exec.advance(failed("boom"));
    while let Step::Run(line) = &step {
        runs.push(line.clone());
        step = exec.advance(ok(""));
    }
    assert_eq!(runs, vec!["docker create --name web nginx"]);
    match done(step) {
        Err(ExecutionError::NonZeroExit(e)) => assert_eq!(e, "boom"),
        _ => panic!("expected NonZeroExit"),
    }
}

#[test]
fn spawn_failure_stops_the_chain() {
    let cpi = CpiCommand::new(CHAIN_CONFIG.to_string()).ok().unwrap();
    let (mut exec, _) = cpi.plan(create("web")).ok().unwrap();
    assert!(matches!(done(exec.advance(ProcessOutcome::SpawnFailed)), Err(ExecutionError::ProcessSpawnError)));
}

#[test]
fn chain_runs_in_order() {
    let cpi = CpiCommand::new(CHAIN_CONFIG.to_string()).ok().unwrap();
    let (mut exec, step) = cpi.plan(create("web")).ok().unwrap();
    let mut runs = vec![run_line(&step)];
    let mut step = exec.advance(ok("id-1\n"));
    while let Step::Run(line) = &step {
        runs.push(line.clone());
        step = exec.advance(ok("ignored"));
    }
    assert_eq!(runs, vec!["docker create --name web nginx", "echo A web", "echo B web", "echo C nginx"]);
    assert_eq!(done(step).ok().unwrap(), "id-1\n");
}

#[test]
fn failing_post_exec_stops_the_chain() {
    let cpi = CpiCommand::new(CHAIN_CONFIG.to_string()).ok().unwrap();
    let (mut exec, step) = cpi.plan(create("web")).ok().unwrap();
    let mut runs = vec![run_line(&step)];
    let mut step = exec.advance(ok("id-1\n"));
    while let Step::Run(line) = &step {
        runs.push(line.clone());
        step = if line.starts_with("echo B") { exec.advance(failed("B failed")) } else { exec.advance(ok("")) };
    }
    assert_eq!(runs, vec!["docker create --name web nginx", "echo A web", "echo B web"]);
    match done(step) {
        Err(ExecutionError::PostExecFailure(i, e)) => {
            assert_eq!(i, 1);
            assert_eq!(e, "B failed");
        }
        _ => panic!("expected PostExecFailure"),
    }
}

#[test]
fn undecodable_output_is_an_error() {
    let cpi = CpiCommand::new(START_CONFIG.to_string()).ok().unwrap();
    let (mut exec, _) = cpi.plan(CpiCommandType::StartContainer { name: "web".to_string() }).ok().unwrap();
    let bad = ProcessOutcome::Exited { success: true, stdout: vec![0xff, 0xfe], stderr: Vec::new() };
    assert!(matches!(done(exec.advance(bad)), Err(ExecutionError::OutputDecodeError)));
    let (mut exec, _) = cpi.plan(CpiCommandType::StartContainer { name: "web".to_string() }).ok().unwrap();
    let bad = ProcessOutcome::Exited { success: false, stdout: Vec::new(), stderr: vec![0xc3] };
    assert!(matches!(done(exec.advance(bad)), Err(ExecutionError::OutputDecodeError)));
}

#[test]
fn malformed_configurations() {
    assert!(matches!(CpiCommand::new("not json".to_string()), Err(ExecutionError::ConfigParseError)));
    assert!(matches!(CpiCommand::new("{\"other\":{}}".to_string()), Err(ExecutionError::ConfigParseError)));
    assert!(matches!(CpiCommand::new("{\"actions\":[]}".to_string()), Err(ExecutionError::ConfigParseError)));
    let cpi = CpiCommand::new(
        r#"{"actions":{"start_container":{"command":5},"stop_container":{"command":"x","post_exec":"y"}}}"#.to_string(),
    )
    .ok()
    .unwrap();
    assert!(matches!(cpi.resolve("start_container"), Err(ExecutionError::ConfigParseError)));
    assert!(matches!(cpi.resolve("stop_container"), Err(ExecutionError::ConfigParseError)));
}

#[test]
fn resolve_reads_post_exec() {
    let cpi = CpiCommand::new(CHAIN_CONFIG.to_string()).ok().unwrap();
    let action = cpi.resolve("create_container").ok().unwrap();
    assert_eq!(action.command, "docker create --name {name} {image}");
    assert_eq!(action.post_exec, vec!["echo A {name}", "echo B {name}", "echo C {image}"]);
    let cpi = CpiCommand::new(START_CONFIG.to_string()).ok().unwrap();
    assert!(cpi.resolve("start_container").ok().unwrap().post_exec.is_empty());
}

#[test]
fn execution_begins_with_main_command() {
    let (exec, step) = Execution::begin("ls {name}", Vec::new(), vec![text("name", "x")]);
    assert_eq!(run_line(&step), "ls x");
    assert!(!exec.is_finished());
}

#[test]
fn list_items_are_json_escaped() {
    let params = vec![(
        "xs".to_string(),
        ParamValue::List(vec!["a\"b".to_string(), "c\\d".to_string(), "e\nf\u{1}".to_string(), "]".to_string()]),
    )];
    assert_eq!(render("{xs}", &params), "\"a\\\"b\",\"c\\\\d\",\"e\\nf\\u0001\",\"]\"");
}

#[test]
fn mapping_keys_ascend_and_escape() {
    let mut env = HashMap::new();
    env.insert("b".to_string(), "x\ty".to_string());
    env.insert("B".to_string(), "2".to_string());
    env.insert("a".to_string(), "1".to_string());
    let params = vec![("env".to_string(), ParamValue::Record(env))];
    assert_eq!(render("{env}", &params), "\"B\":\"2\",\"a\":\"1\",\"b\":\"x\\ty\"");
}

fn outcome(success: bool, stdout: &[u8], stderr: &[u8]) -> ProcessOutcome {
    ProcessOutcome::Exited { success, stdout: stdout.to_vec(), stderr: stderr.to_vec() }
}

#[test]
fn any_unreadable_stream_is_an_error() {
    let cpi = CpiCommand::new(CHAIN_CONFIG.to_string()).ok().unwrap();
    // main command succeeds, its standard error is not text
    let (mut exec, _) = cpi.plan(create("web")).ok().unwrap();
    assert!(matches!(done(exec.advance(outcome(true, b"id", &[0xff]))), Err(ExecutionError::OutputDecodeError)));
    // main command fails with readable standard error, standard output is not text
    let (mut exec, _) = cpi.plan(create("web")).ok().unwrap();
    assert!(matches!(done(exec.advance(outcome(false, &[0xc3], b"boom"))), Err(ExecutionError::OutputDecodeError)));
    // a post-exec command succeeds, its standard output is not text
    let (mut exec, _) = cpi.plan(create("web")).ok().unwrap();
    assert_eq!(run_line(&exec.advance(ok("id"))), "echo A web");
    assert!(matches!(done(exec.advance(outcome(true, &[0xfe], b""))), Err(ExecutionError::OutputDecodeError)));
    assert!(exec.is_finished());
}
