//! The command types of the engine, their tags and their parameters.

use vstd::prelude::*;
use vstd::string::*;
use crate::json::strings_view;
use crate::config::{actions, actions_of, resolve, resolve_text, ActionConfig};
use crate::engine::{initial_state, Execution, Step, StepView};
use crate::error::{ErrorView, ExecutionError};
use crate::template::{ParamValue, ParamView, params_view, render_text};

verus! {

/// A container operation with the parameters it needs. Each variant has a
/// fixed tag under which the configuration holds its action.
pub enum CpiCommandType {
    CreateContainer {
        image: String,
        name: String,
        ports: Vec<String>,
        env: std::collections::HashMap<String, String>,
    },
    DeleteContainer { name: String },
    StartContainer { name: String },
    StopContainer { name: String },
    RestartContainer { name: String },
    InspectContainer { name: String },
    ListContainers,
}

/// The tag of a command.
pub open spec fn command_tag(c: CpiCommandType) -> Seq<char> {
    match c {
        CpiCommandType::CreateContainer { .. } => "create_container"@,
        CpiCommandType::DeleteContainer { .. } => "delete_container"@,
        CpiCommandType::StartContainer { .. } => "start_container"@,
        CpiCommandType::StopContainer { .. } => "stop_container"@,
        CpiCommandType::RestartContainer { .. } => "restart_container"@,
        CpiCommandType::InspectContainer { .. } => "inspect_container"@,
        CpiCommandType::ListContainers => "list_containers"@,
    }
}

/// The parameters of a command: its fields under their own names, in
/// ascending order of name; none for `ListContainers`.
pub open spec fn command_params(c: CpiCommandType) -> Seq<(Seq<char>, ParamView)> {
    match c {
        CpiCommandType::CreateContainer { image, name, ports, env } => seq![
            ("env"@, ParamView::Record(env.deep_view())),
            ("image"@, ParamView::Text(image@)),
            ("name"@, ParamView::Text(name@)),
            ("ports"@, ParamView::List(strings_view(ports@))),
        ],
        CpiCommandType::DeleteContainer { name } => seq![("name"@, ParamView::Text(name@))],
        CpiCommandType::StartContainer { name } => seq![("name"@, ParamView::Text(name@))],
        CpiCommandType::StopContainer { name } => seq![("name"@, ParamView::Text(name@))],
        CpiCommandType::RestartContainer { name } => seq![("name"@, ParamView::Text(name@))],
        CpiCommandType::InspectContainer { name } => seq![("name"@, ParamView::Text(name@))],
        CpiCommandType::ListContainers => seq![],
    }
}

fn name_param(name: String) -> (r: Vec<(String, ParamValue)>)
    ensures
        params_view(r@) == seq![("name"@, ParamView::Text(name@))],
{
    let mut r: Vec<(String, ParamValue)> = Vec::new();
    r.push((String::from_str("name"), ParamValue::Text(name)));
    assert(params_view(r@) =~= seq![("name"@, ParamView::Text(name@))]);
    r
}

impl CpiCommandType {
    /// The tag under which the configuration holds this command's action.
    pub fn to_string(&self) -> (r: String)
        ensures
            r@ == command_tag(*self),
    {
        match self {
            CpiCommandType::CreateContainer { .. } => String::from_str("create_container"),
            CpiCommandType::DeleteContainer { .. } => String::from_str("delete_container"),
            CpiCommandType::StartContainer { .. } => String::from_str("start_container"),
            CpiCommandType::StopContainer { .. } => String::from_str("stop_container"),
            CpiCommandType::RestartContainer { .. } => String::from_str("restart_container"),
            CpiCommandType::InspectContainer { .. } => String::from_str("inspect_container"),
            CpiCommandType::ListContainers => String::from_str("list_containers"),
        }
    }

    /// The placeholder values of this command.
    pub fn params(self) -> (r: Vec<(String, ParamValue)>)
        ensures
            params_view(r@) == command_params(self),
    {
        match self {
            CpiCommandType::CreateContainer { image, name, ports, env } => {
                let ghost e = env.deep_view();
                let ghost im = image@;
                let ghost nm = name@;
                let ghost ps = strings_view(ports@);
                let mut r: Vec<(String, ParamValue)> = Vec::new();
                r.push((String::from_str("env"), ParamValue::Record(env)));
                r.push((String::from_str("image"), ParamValue::Text(image)));
                r.push((String::from_str("name"), ParamValue::Text(name)));
                r.push((String::from_str("ports"), ParamValue::List(ports)));
                assert(params_view(r@) =~= seq![
                    ("env"@, ParamView::Record(e)),
                    ("image"@, ParamView::Text(im)),
                    ("name"@, ParamView::Text(nm)),
                    ("ports"@, ParamView::List(ps)),
                ]);
                r
            },
            CpiCommandType::DeleteContainer { name } => name_param(name),
            CpiCommandType::StartContainer { name } => name_param(name),
            CpiCommandType::StopContainer { name } => name_param(name),
            CpiCommandType::RestartContainer { name } => name_param(name),
            CpiCommandType::InspectContainer { name } => name_param(name),
            CpiCommandType::ListContainers => {
                let r: Vec<(String, ParamValue)> = Vec::new();
                assert(params_view(r@) =~= seq![]);
                r
            },
        }
    }
}

/// The command engine over one action configuration, held as JSON text.
pub struct CpiCommand {
    pub config: String,
}

impl CpiCommand {
    /// Takes a configuration text; it must be a JSON object with an
    /// `actions` object.
    pub fn new(config: String) -> (r: Result<CpiCommand, ExecutionError>)
        ensures
            r is Ok <==> actions_of(config@) is Some,
            r is Ok ==> r->Ok_0.config@ == config@,
            r is Err ==> r->Err_0@ == ErrorView::ConfigParseError,
    {
        match actions(config.as_str()) {
            None => Err(ExecutionError::ConfigParseError),
            Some(_) => Ok(CpiCommand { config }),
        }
    }

    /// The action configured under `tag`.
    pub fn resolve(&self, tag: &str) -> (r: Result<ActionConfig, ExecutionError>)
        ensures
            match resolve_text(self.config@, tag@) {
                Ok(a) => r is Ok && (r->Ok_0.command@, strings_view(r->Ok_0.post_exec@)) == a,
                Err(e) => r is Err && r->Err_0@ == e,
            },
    {
        resolve(self.config.as_str(), tag)
    }

    /// Prepares the execution of `command`: finds its action, takes its
    /// parameters and renders the main command, which the first step runs.
    /// Fails, before anything runs, when the action cannot be resolved.
    pub fn plan(&self, command: CpiCommandType) -> (r: Result<(Execution, Step), ExecutionError>)
        ensures
            match resolve_text(self.config@, command_tag(command)) {
                Ok((main, post)) => r is Ok && r->Ok_0.0@ == initial_state(
                    command_params(command),
                    post,
                ) && r->Ok_0.1@ == StepView::Run(render_text(main, command_params(command))),
                Err(e) => r is Err && r->Err_0@ == e,
            },
    {
        let tag = command.to_string();
        match self.resolve(tag.as_str()) {
            Err(e) => Err(e),
            Ok(action) => {
                let params = command.params();
                Ok(Execution::begin(action.command.as_str(), action.post_exec, params))
            },
        }
    }
}

/// A container as the container runtime reports it.
pub struct Container {
    pub id: String,
    pub state: String,
    pub image: String,
    pub name: String,
}

/// A list of containers.
pub struct ContainerList {
    pub containers: Vec<Container>,
}

/// Container operations over a command engine.
#[allow(dead_code)]
pub struct CpiApi {
    cmd: CpiCommand,
}

} // verus!
