use omni_agent::api::{ApiError, Container, ContainerConfig};
use omni_agent::cpi_actions::CpiCommandType;
use omni_agent::engine::shell_invocation;
use omni_agent::error::ExecutionError;

#[test]
fn deploy_command_publishes_same_port() {
    match Container::deploy_command("web".to_string(), "nginx".to_string(), 8080) {
        CpiCommandType::CreateContainer { image, name, ports, env } => {
            assert_eq!(image, "nginx");
            assert_eq!(name, "web");
            assert_eq!(ports, vec!["8080:8080"]);
            assert!(env.is_empty());
        }
        _ => panic!("expected a create command"),
    }
    match Container::deploy_command("a".to_string(), "b".to_string(), 0) {
        CpiCommandType::CreateContainer { ports, .. } => assert_eq!(ports, vec!["0:0"]),
        _ => panic!("expected a create command"),
    }
}

fn config(ports: Option<Vec<u16>>) -> ContainerConfig {
    ContainerConfig { image: "nginx".to_string(), name: "web".to_string(), environment: None, ports }
}

#[test]
fn deploy_port_defaults_to_80() {
    assert_eq!(config(None).deploy_port(), 80);
    assert_eq!(config(Some(Vec::new())).deploy_port(), 80);
    assert_eq!(config(Some(vec![3000, 4000])).deploy_port(), 3000);
}

#[test]
fn api_errors_from_execution_errors() {
    let e = ApiError::from_execution(ExecutionError::ActionNotDefined("nonexistent".to_string()));
    assert_eq!(e.status(), 400);
    assert!(matches!(&e, ApiError::BadRequest(m) if m == "Command type not found for 'nonexistent'"));
    let e = ApiError::from_execution(ExecutionError::NonZeroExit("No such container: web".to_string()));
    assert_eq!(e.status(), 500);
    assert!(matches!(&e, ApiError::Internal(m) if m == "No such container: web"));
    let e = ApiError::from_execution(ExecutionError::PostExecFailure(2, "bad".to_string()));
    assert!(matches!(&e, ApiError::Internal(m) if m == "bad"));
    assert_eq!(ApiError::NotFound("x".to_string()).status(), 404);
}

#[test]
fn execution_error_messages() {
    assert_eq!(ExecutionError::ConfigNotFound.message(), "configuration file not found");
    assert_eq!(ExecutionError::ConfigParseError.message(), "configuration is not valid");
    assert_eq!(ExecutionError::ProcessSpawnError.message(), "failed to launch the shell");
    assert_eq!(ExecutionError::OutputDecodeError.message(), "command output is not valid UTF-8");
}

#[test]
fn shell_invocations() {
    let (p, a) = shell_invocation("docker ps -a", false);
    assert_eq!(p, "sh");
    assert_eq!(a, vec!["-c", "docker ps -a"]);
    let (p, a) = shell_invocation("docker ps -a", true);
    assert_eq!(p, "cmd");
    assert_eq!(a, vec!["/C", "docker ps -a"]);
}
