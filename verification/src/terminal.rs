//! What is known of a terminal and of the agent running in it.

use std::collections::HashMap;
use vstd::prelude::*;

use crate::clock::Instant;

verus! {

pub type TerminalId = u64;

/// What an agent is doing.
#[derive(Debug, Clone, Copy, PartialEq, Eq, Structural)]
pub enum AgentState {
    Idle,
    Working,
    Blocked,
    Unknown,
}

/// The state of one terminal, independent of the pane that shows it.
pub struct TerminalState {
    pub id: TerminalId,
    /// Name the user gave to the agent managed in this terminal.
    pub agent_name: Option<String>,
    /// Kind of the agent found running in this terminal.
    pub agent_label: Option<String>,
    pub state: AgentState,
    /// When `state` was entered.
    pub state_entered_at: Instant,
    /// Position of the last change of `state` in the order of all such changes.
    pub last_agent_state_change_seq: Option<u64>,
    pub metadata_tokens: HashMap<String, String>,
}

impl TerminalState {
    /// Whether an agent lives in this terminal, named or merely recognized.
    pub open spec fn agent_present(&self) -> bool {
        self.agent_name is Some || self.agent_label is Some
    }

    pub fn hosts_agent(&self) -> (hosts: bool)
        ensures
            hosts == self.agent_present(),
            self.agent_name is Some ==> hosts,
            self.agent_label is Some ==> hosts,
            self.agent_name is None && self.agent_label is None ==> !hosts,
    {
        self.agent_name.is_some() || self.agent_label.is_some()
    }

    pub fn effective_agent_label(&self) -> (label: Option<&String>)
        ensures
            match label {
                Some(label) => self.agent_label == Some(*label),
                None => self.agent_label is None,
            },
    {
        self.agent_label.as_ref()
    }

    pub fn state_entered_at(&self) -> (entered: Instant)
        ensures
            entered == self.state_entered_at,
    {
        self.state_entered_at
    }
}

/// An agent lives in a terminal as soon as the user has named one there, and as soon as one was
/// recognized there, and not otherwise.
pub proof fn law_an_agent_is_named_or_recognized(terminal: TerminalState)
    ensures
        terminal.agent_name is Some ==> terminal.agent_present(),
        terminal.agent_label is Some ==> terminal.agent_present(),
        terminal.agent_name is None && terminal.agent_label is None ==> !terminal.agent_present(),
{
}

} // verus!
