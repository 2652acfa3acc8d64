//! Agents known to SkillHive and their local installations.
//!
//! An agent descriptor names an agent implementation; an instance is one
//! local installation of it, with the directory its skills live in.
//! Several instances of one descriptor may exist. Authorization is absent
//! here: adapters describe local capabilities only.
use vstd::prelude::*;

verus! {

/// Whether an agent was detected from a built-in adapter or configured by
/// the user.
#[derive(Debug, Clone, Copy, PartialEq, Eq, Structural)]
pub enum AgentKind {
    BuiltIn,
    Custom,
}

/// A stable identifier for an agent implementation known by SkillHive.
#[derive(Debug, Clone, PartialEq, Eq)]
pub struct AgentDescriptor {
    pub id: String,
    pub display_name: String,
    pub kind: AgentKind,
}

/// A concrete local installation (profile) of an agent.
#[derive(Debug, Clone, PartialEq, Eq)]
pub struct AgentInstance {
    pub id: String,
    pub descriptor_id: String,
    pub display_name: String,
    pub skill_root: String,
    pub enabled: bool,
    pub skill_root_exists: bool,
    pub detected: bool,
}

/// What discovery found for one descriptor: its instances, and the
/// problems met while reconciling them.
#[derive(Debug, Clone, PartialEq, Eq)]
pub struct AgentDiscoveryResult {
    pub descriptor: AgentDescriptor,
    pub instances: Vec<AgentInstance>,
    pub error: Option<String>,
}

#[derive(Debug, Clone, PartialEq, Eq)]
pub enum AgentAdapterError {
    InvalidPath(String),
    Discovery(String),
}

impl AgentAdapterError {
    /// The error's text.
    pub fn message(&self) -> (s: String)
        ensures
            s@ == match *self {
                AgentAdapterError::InvalidPath(m) => "agent skill path is invalid: "@ + m@,
                AgentAdapterError::Discovery(m) => "agent discovery failed: "@ + m@,
            },
    {
        match self {
            AgentAdapterError::InvalidPath(m) => {
                let mut s = String::from_str("agent skill path is invalid: ");
                s.append(m.as_str());
                s
            },
            AgentAdapterError::Discovery(m) => {
                let mut s = String::from_str("agent discovery failed: ");
                s.append(m.as_str());
                s
            },
        }
    }
}

/// An adapter for one kind of agent, implemented outside this library for
/// each supported agent.
pub trait AgentAdapter {
    fn descriptor(&self) -> AgentDescriptor;

    fn discover(&self) -> Result<Vec<AgentInstance>, AgentAdapterError>;

    fn validate_skill_root(&self, path: &str) -> Result<(), AgentAdapterError>;
}

} // verus!
