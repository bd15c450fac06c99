//! The second agent: no signals are interpreted yet.
use vstd::prelude::*;

use crate::agent_status::adapters::{AgentAdapter, AgentPaneOutputSample, AgentSignal, UserVars};
use crate::agent_status::events::{AgentEvent, AgentEventView};

verus! {

/// The adapter of the agent; it answers every signal with no events.
pub struct ClaudeAdapter;

impl Default for ClaudeAdapter {
    fn default() -> (r: ClaudeAdapter)
        ensures
            r == ClaudeAdapter,
    {
        ClaudeAdapter
    }
}

impl AgentAdapter for ClaudeAdapter {
    open spec fn provider_name(&self) -> Seq<char> {
        "claude_agent"@
    }

    open spec fn events_for(&self, signals: Seq<AgentSignal>) -> Seq<AgentEventView> {
        Seq::empty()
    }

    fn provider(&self) -> (r: &'static str) {
        "claude_agent"
    }

    fn observe_user_var(
        &mut self,
        pane_key: &str,
        name: &str,
        value: &str,
        user_vars: &UserVars,
    ) -> (r: Vec<AgentEvent>) {
        let events: Vec<AgentEvent> = Vec::new();
        assert(events.deep_view() =~= Seq::<AgentEventView>::empty());
        events
    }

    fn observe_pane_output(
        &mut self,
        pane_key: &str,
        sample: &AgentPaneOutputSample,
    ) -> (r: Vec<AgentEvent>) {
        let events: Vec<AgentEvent> = Vec::new();
        assert(events.deep_view() =~= Seq::<AgentEventView>::empty());
        events
    }
}

} // verus!
