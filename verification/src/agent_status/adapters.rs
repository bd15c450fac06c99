//! Adapters: each turns the signals of a terminal pane into agent events.
pub mod claude;
pub mod codex;
pub mod codex_event_laws;
pub mod codex_laws;
pub mod codex_output;
pub mod codex_prompt_laws;
pub mod codex_shell_laws;

use vstd::hash_map::StringHashMap;
use vstd::prelude::*;

use crate::agent_status::adapters::claude::ClaudeAdapter;
use crate::agent_status::adapters::codex::CodexAdapter;
use crate::agent_status::events::{AgentEvent, AgentEventView};
use crate::text::copy_optional_text;

verus! {

/// The user variables that a pane's shell integration has set.
pub struct UserVars {
    vars: StringHashMap<String>,
}

impl View for UserVars {
    type V = Map<Seq<char>, Seq<char>>;

    closed spec fn view(&self) -> Map<Seq<char>, Seq<char>> {
        self.vars@.map_values(|value: String| value@)
    }
}

impl UserVars {
    /// No variables.
    pub fn new() -> (r: UserVars)
        ensures
            r@ == Map::<Seq<char>, Seq<char>>::empty(),
    {
        let vars = StringHashMap::new();
        let r = UserVars { vars };
        assert(r@ =~= Map::<Seq<char>, Seq<char>>::empty());
        r
    }

    /// Sets a variable.
    pub fn insert(&mut self, name: String, value: String)
        ensures
            final(self)@ == old(self)@.insert(name@, value@),
    {
        let ghost before = self@;
        self.vars.insert(name, value);
        assert(self@ =~= before.insert(name@, value@));
    }

    /// The value of a variable.
    pub fn get(&self, name: &str) -> (r: Option<&str>)
        ensures
            match r {
                Some(value) => self@.dom().contains(name@) && self@[name@] == value@,
                None => !self@.dom().contains(name@),
            },
    {
        match self.vars.get(name) {
            Some(value) => Some(value.as_str()),
            None => None,
        }
    }
}

/// What is seen of a pane at one moment.
#[derive(Debug)]
pub struct AgentPaneOutputSample {
    pub tail_text: String,
    pub current_command: Option<String>,
    pub foreground_process_name: Option<String>,
}

/// An [`AgentPaneOutputSample`] over sequences.
pub struct SampleView {
    pub tail_text: Seq<char>,
    pub current_command: Option<Seq<char>>,
    pub foreground_process_name: Option<Seq<char>>,
}

impl DeepView for AgentPaneOutputSample {
    type V = SampleView;

    open spec fn deep_view(&self) -> SampleView {
        SampleView {
            tail_text: self.tail_text@,
            current_command: self.current_command.deep_view(),
            foreground_process_name: self.foreground_process_name.deep_view(),
        }
    }
}

impl Clone for AgentPaneOutputSample {
    fn clone(&self) -> (r: AgentPaneOutputSample)
        ensures
            r == *self,
    {
        AgentPaneOutputSample {
            tail_text: self.tail_text.clone(),
            current_command: copy_optional_text(&self.current_command),
            foreground_process_name: copy_optional_text(&self.foreground_process_name),
        }
    }
}

impl Default for AgentPaneOutputSample {
    fn default() -> (r: AgentPaneOutputSample)
        ensures
            r.deep_view() == (SampleView {
                tail_text: Seq::empty(),
                current_command: None,
                foreground_process_name: None,
            }),
    {
        AgentPaneOutputSample {
            tail_text: String::new(),
            current_command: None,
            foreground_process_name: None,
        }
    }
}

/// A signal of a pane: a user variable was set, or output was seen.
pub enum AgentSignal {
    UserVar {
        pane_key: Seq<char>,
        name: Seq<char>,
        value: Seq<char>,
        user_vars: Map<Seq<char>, Seq<char>>,
    },
    PaneOutput { pane_key: Seq<char>, sample: SampleView },
}

/// An adapter reads the signals of panes. What it answers depends only on the signals it has seen.
pub trait AgentAdapter {
    /// The name of the agent.
    spec fn provider_name(&self) -> Seq<char>;

    /// The events that the last of these signals produces, when the adapter sees them one after
    /// the other from now on.
    spec fn events_for(&self, signals: Seq<AgentSignal>) -> Seq<AgentEventView>;

    /// The name of the agent.
    fn provider(&self) -> (r: &'static str)
        ensures
            r@ == self.provider_name(),
    ;

    /// Sees a user variable being set.
    fn observe_user_var(
        &mut self,
        pane_key: &str,
        name: &str,
        value: &str,
        user_vars: &UserVars,
    ) -> (r: Vec<AgentEvent>)
        ensures
            ({
                let signal = AgentSignal::UserVar {
                    pane_key: pane_key@,
                    name: name@,
                    value: value@,
                    user_vars: user_vars@,
                };
                &&& r.deep_view() == old(self).events_for(seq![signal])
                &&& forall|later: Seq<AgentSignal>|
                    later.len() > 0 ==> #[trigger] final(self).events_for(later) == old(self).events_for(seq![signal] + later)
            }),
            final(self).provider_name() == old(self).provider_name(),
    ;

    /// Sees output of a pane.
    fn observe_pane_output(
        &mut self,
        pane_key: &str,
        sample: &AgentPaneOutputSample,
    ) -> (r: Vec<AgentEvent>)
        ensures
            ({
                let signal = AgentSignal::PaneOutput {
                    pane_key: pane_key@,
                    sample: sample.deep_view(),
                };
                &&& r.deep_view() == old(self).events_for(seq![signal])
                &&& forall|later: Seq<AgentSignal>|
                    later.len() > 0 ==> #[trigger] final(self).events_for(later) == old(self).events_for(seq![signal] + later)
            }),
            final(self).provider_name() == old(self).provider_name(),
    ;
}

/// The adapters in use, in the order in which they see a signal.
pub struct AgentAdapterRegistry {
    pub adapters: Vec<RegisteredAdapter>,
}

/// An adapter in use.
pub struct RegisteredAdapter {
    pub adapter: Box<dyn AgentAdapter>,
}

impl RegisteredAdapter {
    /// The name of the adapter's agent.
    pub open spec fn provider_name(&self) -> Seq<char> {
        self.adapter.provider_name()
    }

    /// The adapter's events for the last of these signals.
    pub open spec fn events_for(&self, signals: Seq<AgentSignal>) -> Seq<AgentEventView> {
        self.adapter.events_for(signals)
    }

    /// The adapter of Codex, before any signal.
    pub fn codex() -> (r: RegisteredAdapter)
        ensures
            r.provider_name() == "codex"@,
            forall|signals: Seq<AgentSignal>| #[trigger]
                r.events_for(signals) == codex::events_after(Map::empty(), signals),
    {
        let adapter = CodexAdapter::default();
        RegisteredAdapter { adapter: Box::new(adapter) }
    }

    /// A [`ClaudeAdapter`].
    pub fn claude() -> (r: RegisteredAdapter)
        ensures
            r.provider_name() == "claude_agent"@,
            forall|signals: Seq<AgentSignal>| #[trigger]
                r.events_for(signals) == Seq::<AgentEventView>::empty(),
    {
        let adapter = ClaudeAdapter::default();
        RegisteredAdapter { adapter: Box::new(adapter) }
    }
}

/// The events of the adapters for the last of these signals, adapter by adapter.
pub open spec fn events_of(
    adapters: Seq<RegisteredAdapter>,
    signals: Seq<AgentSignal>,
) -> Seq<AgentEventView>
    decreases adapters.len(),
{
    if adapters.len() == 0 {
        Seq::empty()
    } else {
        events_of(adapters.drop_last(), signals) + adapters.last().events_for(signals)
    }
}

/// `after` are the adapters `before` once they have seen `signal`: the same agents in the same
/// order, each of which answers later signals as one that has seen `signal`.
pub open spec fn have_seen(
    before: Seq<RegisteredAdapter>,
    after: Seq<RegisteredAdapter>,
    signal: AgentSignal,
) -> bool {
    &&& after.len() == before.len()
    &&& forall|i: int|
        0 <= i < before.len() ==> (#[trigger] after[i]).provider_name()
            == before[i].provider_name()
    &&& forall|i: int, later: Seq<AgentSignal>|
        0 <= i < before.len() && later.len() > 0 ==> #[trigger] after[i].events_for(later)
            == before[i].events_for(seq![signal] + later)
}

impl Default for AgentAdapterRegistry {
    fn default() -> (r: AgentAdapterRegistry)
        ensures
            r.adapters@.len() == 0,
    {
        AgentAdapterRegistry { adapters: Vec::new() }
    }
}

impl AgentAdapterRegistry {
    /// A [`CodexAdapter`] and a [`ClaudeAdapter`], in this order, as they are before any signal.
    pub fn with_defaults() -> (r: AgentAdapterRegistry)
        ensures
            r.adapters@.len() == 2,
            r.adapters@[0].provider_name() == "codex"@,
            forall|signals: Seq<AgentSignal>| #[trigger]
                r.adapters@[0].events_for(signals) == codex::events_after(Map::empty(), signals),
            r.adapters@[1].provider_name() == "claude_agent"@,
            forall|signals: Seq<AgentSignal>| #[trigger]
                r.adapters@[1].events_for(signals) == Seq::<AgentEventView>::empty(),
    {
        let mut registry = AgentAdapterRegistry::default();
        registry.register(RegisteredAdapter::codex());
        registry.register(RegisteredAdapter::claude());
        registry
    }

    /// Adds an adapter behind the others.
    pub fn register(&mut self, adapter: RegisteredAdapter)
        ensures
            final(self).adapters@ == old(self).adapters@.push(adapter),
    {
        self.adapters.push(adapter);
    }

    /// Shows every adapter that a user variable was set, and collects their events.
    pub fn observe_user_var(
        &mut self,
        pane_key: &str,
        name: &str,
        value: &str,
        user_vars: &UserVars,
    ) -> (r: Vec<AgentEvent>)
        ensures
            ({
                let signal = AgentSignal::UserVar {
                    pane_key: pane_key@,
                    name: name@,
                    value: value@,
                    user_vars: user_vars@,
                };
                &&& r.deep_view() == events_of(old(self).adapters@, seq![signal])
                &&& have_seen(old(self).adapters@, final(self).adapters@, signal)
            }),
    {
        let ghost signal = AgentSignal::UserVar {
            pane_key: pane_key@,
            name: name@,
            value: value@,
            user_vars: user_vars@,
        };
        let ghost before = self.adapters@;
        let mut events: Vec<AgentEvent> = Vec::new();
        let mut i: usize = 0;
        assert(before.take(0) =~= Seq::<RegisteredAdapter>::empty());
        while i < self.adapters.len()
            invariant
                i <= self.adapters@.len(),
                self.adapters@.len() == before.len(),
                signal == (AgentSignal::UserVar {
                    pane_key: pane_key@,
                    name: name@,
                    value: value@,
                    user_vars: user_vars@,
                }),
                events.deep_view() == events_of(before.take(i as int), seq![signal]),
                have_seen(before.take(i as int), self.adapters@.take(i as int), signal),
                forall|j: int| i <= j < before.len() ==> self.adapters@[j] == before[j],
            decreases before.len() - i,
        {
            let ghost so_far = events.deep_view();
            let ghost kept = self.adapters@;
            let mut adapter_events = self.adapters[i].adapter.observe_user_var(
                pane_key,
                name,
                value,
                user_vars,
            );
            let ghost added = adapter_events.deep_view();
            events.append(&mut adapter_events);
            proof {
                assert(events.deep_view() =~= so_far + added);
                assert(before.take(i + 1).drop_last() =~= before.take(i as int));
                assert(before.take(i + 1).last() == before[i as int]);
                assert forall|j: int| 0 <= j < i implies self.adapters@[j] == kept.take(
                    i as int,
                )[j] by {}
            }
            i = i + 1;
            proof {
                let now = self.adapters@.take(i as int);
                assert forall|j: int, later: Seq<AgentSignal>|
                    0 <= j < i && later.len() > 0 implies #[trigger] now[j].events_for(later)
                    == before.take(i as int)[j].events_for(seq![signal] + later) by {
                    if j < i - 1 {
                        assert(now[j] == kept.take(i - 1)[j]);
                    }
                }
                assert forall|j: int| 0 <= j < i implies (#[trigger] now[j]).provider_name()
                    == before.take(i as int)[j].provider_name() by {
                    if j < i - 1 {
                        assert(now[j] == kept.take(i - 1)[j]);
                    }
                }
            }
        }
        assert(before.take(i as int) =~= before);
        assert(self.adapters@.take(i as int) =~= self.adapters@);
        events
    }

    /// Shows every adapter the output of a pane, and collects their events.
    pub fn observe_pane_output(
        &mut self,
        pane_key: &str,
        sample: &AgentPaneOutputSample,
    ) -> (r: Vec<AgentEvent>)
        ensures
            ({
                let signal = AgentSignal::PaneOutput {
                    pane_key: pane_key@,
                    sample: sample.deep_view(),
                };
                &&& r.deep_view() == events_of(old(self).adapters@, seq![signal])
                &&& have_seen(old(self).adapters@, final(self).adapters@, signal)
            }),
    {
        let ghost signal = AgentSignal::PaneOutput {
            pane_key: pane_key@,
            sample: sample.deep_view(),
        };
        let ghost before = self.adapters@;
        let mut events: Vec<AgentEvent> = Vec::new();
        let mut i: usize = 0;
        assert(before.take(0) =~= Seq::<RegisteredAdapter>::empty());
        while i < self.adapters.len()
            invariant
                i <= self.adapters@.len(),
                self.adapters@.len() == before.len(),
                signal == (AgentSignal::PaneOutput {
                    pane_key: pane_key@,
                    sample: sample.deep_view(),
                }),
                events.deep_view() == events_of(before.take(i as int), seq![signal]),
                have_seen(before.take(i as int), self.adapters@.take(i as int), signal),
                forall|j: int| i <= j < before.len() ==> self.adapters@[j] == before[j],
            decreases before.len() - i,
        {
            let ghost so_far = events.deep_view();
            let ghost kept = self.adapters@;
            let mut adapter_events = self.adapters[i].adapter.observe_pane_output(pane_key, sample);
            let ghost added = adapter_events.deep_view();
            events.append(&mut adapter_events);
            proof {
                assert(events.deep_view() =~= so_far + added);
                assert(before.take(i + 1).drop_last() =~= before.take(i as int));
                assert(before.take(i + 1).last() == before[i as int]);
            }
            i = i + 1;
            proof {
                let now = self.adapters@.take(i as int);
                assert forall|j: int, later: Seq<AgentSignal>|
                    0 <= j < i && later.len() > 0 implies #[trigger] now[j].events_for(later)
                    == before.take(i as int)[j].events_for(seq![signal] + later) by {
                    if j < i - 1 {
                        assert(now[j] == kept.take(i - 1)[j]);
                    }
                }
                assert forall|j: int| 0 <= j < i implies (#[trigger] now[j]).provider_name()
                    == before.take(i as int)[j].provider_name() by {
                    if j < i - 1 {
                        assert(now[j] == kept.take(i - 1)[j]);
                    }
                }
            }
        }
        assert(before.take(i as int) =~= before);
        assert(self.adapters@.take(i as int) =~= self.adapters@);
        events
    }
}

} // verus!
