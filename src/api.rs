//! What the HTTP routes for containers compute: the command to run for a
//! deployment and how a failure is answered.

use vstd::prelude::*;
use vstd::string::*;
use crate::cpi_actions::CpiCommandType;
use crate::error::{error_message, ExecutionError};
use crate::json::strings_view;
use crate::text::{decimal, push_decimal, string_from_chars};

verus! {

/// Container operations of the HTTP routes.
pub struct Container;

/// The port mapping that publishes `port` on the same host port: `port:port`.
pub open spec fn same_port_mapping(port: u16) -> Seq<char> {
    decimal(port as nat) + seq![':'] + decimal(port as nat)
}

impl Container {
    /// The command that deploys `image_name` as a container named `app_name`,
    /// publishing `port` on the same host port, with no environment.
    pub fn deploy_command(app_name: String, image_name: String, port: u16) -> (r: CpiCommandType)
        ensures
            r matches CpiCommandType::CreateContainer { image, name, ports, env } && image@
                == image_name@ && name@ == app_name@ && strings_view(ports@) == seq![
                same_port_mapping(port),
            ] && env@ == Map::<String, String>::empty(),
    {
        let mut v: Vec<char> = Vec::new();
        push_decimal(&mut v, port as u64);
        v.push(':');
        push_decimal(&mut v, port as u64);
        assert(v@ =~= same_port_mapping(port));
        let mapping = string_from_chars(&v);
        let mut ports: Vec<String> = Vec::new();
        ports.push(mapping);
        assert(strings_view(ports@) =~= seq![same_port_mapping(port)]);
        CpiCommandType::CreateContainer {
            image: image_name,
            name: app_name,
            ports,
            env: std::collections::HashMap::new(),
        }
    }
}

/// The answer to a failed request, with its message.
#[derive(Debug)]
pub enum ApiError {
    Internal(String),
    BadRequest(String),
    NotFound(String),
}

impl ApiError {
    /// The HTTP status of the answer.
    pub fn status(&self) -> (r: u16)
        ensures
            r == match self {
                ApiError::Internal(_) => 500u16,
                ApiError::BadRequest(_) => 400u16,
                ApiError::NotFound(_) => 404u16,
            },
    {
        match self {
            ApiError::Internal(_) => 500,
            ApiError::BadRequest(_) => 400,
            ApiError::NotFound(_) => 404,
        }
    }
}

/// The message of an answer.
pub open spec fn api_message(r: ApiError) -> Seq<char> {
    match r {
        ApiError::Internal(m) => m@,
        ApiError::BadRequest(m) => m@,
        ApiError::NotFound(m) => m@,
    }
}

impl ApiError {
    /// The answer to an execution failure: a bad request when no action is
    /// configured for the command, an internal error otherwise, with the
    /// failure's message.
    pub fn from_execution(e: ExecutionError) -> (r: ApiError)
        ensures
            e@ is ActionNotDefined ==> r is BadRequest,
            !(e@ is ActionNotDefined) ==> r is Internal,
            api_message(r) == error_message(e@),
    {
        let message = e.message();
        match e {
            ExecutionError::ActionNotDefined(_) => ApiError::BadRequest(message),
            _ => ApiError::Internal(message),
        }
    }
}

/// A deployment request.
pub struct ContainerConfig {
    pub image: String,
    pub name: String,
    pub environment: Option<std::collections::HashMap<String, String>>,
    pub ports: Option<Vec<u16>>,
}

/// The port a deployment publishes: the first port requested, else 80.
pub open spec fn deploy_port_of(ports: Option<Seq<u16>>) -> u16 {
    match ports {
        Some(p) => if p.len() > 0 {
            p[0]
        } else {
            80
        },
        None => 80,
    }
}

impl ContainerConfig {
    /// The port this deployment publishes: the first one requested, else 80.
    pub fn deploy_port(&self) -> (r: u16)
        ensures
            r == deploy_port_of(
                match self.ports {
                    Some(p) => Some(p@),
                    None => None,
                },
            ),
    {
        match &self.ports {
            Some(p) => if p.len() > 0 {
                p[0]
            } else {
                80
            },
            None => 80,
        }
    }
}

} // verus!
