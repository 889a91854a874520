//! The agent's identity: a random identifier, a name and a version.

use vstd::prelude::*;

verus! {

/// The `uuid` crate's identifier type, held whole.
#[verifier::external_type_specification]
#[verifier::external_body]
pub struct ExUuid(uuid::Uuid);

/// Relies on `uuid::Uuid::new_v4`: a random identifier, of which nothing
/// more is known here.
pub assume_specification[ uuid::Uuid::new_v4 ]() -> uuid::Uuid;

/// This agent: its identifier, name and version.
pub struct Agent {
    id: uuid::Uuid,
    name: String,
    version: String,
}

/// The name and version of an agent.
pub struct AgentView {
    pub name: Seq<char>,
    pub version: Seq<char>,
}

impl View for Agent {
    type V = AgentView;

    closed spec fn view(&self) -> AgentView {
        AgentView { name: self.name@, version: self.version@ }
    }
}

impl Agent {
    /// An agent with a fresh random identifier.
    pub fn new(name: String, version: String) -> (r: Agent)
        ensures
            r@.name == name@,
            r@.version == version@,
    {
        Agent { id: uuid::Uuid::new_v4(), name, version }
    }

    /// The agent's identifier.
    pub fn id(&self) -> uuid::Uuid {
        self.id
    }

    /// The agent's name.
    pub fn name(&self) -> (r: &str)
        ensures
            r@ == self@.name,
    {
        self.name.as_str()
    }

    /// The agent's version.
    pub fn version(&self) -> (r: &str)
        ensures
            r@ == self@.version,
    {
        self.version.as_str()
    }
}

} // verus!
