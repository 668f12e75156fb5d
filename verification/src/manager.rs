//! The plugin manager: the state of the host.
//!
//! The engine that evaluates plugin code stands outside. Each operation that
//! needs it comes in two parts: the first gives the source to evaluate, the
//! second takes the reply and says what the operation comes to.
use vstd::prelude::*;

use crate::harness::{Harness, PluginConfig};
use crate::hooks::HookTable;
use crate::queues::CustomMessage;
use crate::registry::{PluginToolMeta, Shortcut};
use crate::reply::err_sentinel;
use crate::tree::TreeOp;

verus! {

/// The plugin manager.
#[derive(Debug)]
pub struct PluginManager {
    pub hooks: HookTable,
    pub harness: Harness,
    /// What marks an error in a reply.
    pub sentinel: String,
}

/// The mathematical form of a [`PluginManager`].
pub struct ManagerView {
    pub hooks: Seq<crate::hooks::HookEntryView>,
    pub harness: crate::harness::HarnessView,
    pub sentinel: Seq<char>,
}

impl View for PluginManager {
    type V = ManagerView;

    open spec fn view(&self) -> ManagerView {
        ManagerView { hooks: self.hooks@, harness: self.harness@, sentinel: self.sentinel@ }
    }
}

impl ManagerView {
    /// A manager whose engine has just started.
    pub open spec fn fresh(nonce: u64) -> ManagerView {
        ManagerView {
            hooks: Seq::empty(),
            harness: crate::harness::HarnessView::empty(),
            sentinel: crate::reply::sentinel(nonce),
        }
    }

    pub open spec fn with_harness(self, harness: crate::harness::HarnessView) -> ManagerView {
        ManagerView { harness, ..self }
    }

    pub open spec fn with_queues(self, queues: crate::queues::QueuesView) -> ManagerView {
        self.with_harness(self.harness.with_queues(queues))
    }

    pub open spec fn with_slots(self, slots: crate::slots::SlotsView) -> ManagerView {
        self.with_harness(self.harness.with_slots(slots))
    }
}

impl PluginManager {
    /// A manager, given how the start of the engine went: the number that was
    /// drawn for this process, or the error.
    pub fn try_new(started: Result<u64, String>) -> (out: Result<PluginManager, String>)
        ensures
            match started {
                Ok(nonce) => out matches Ok(mgr) && mgr@ == ManagerView::fresh(nonce)
                    && crate::hooks::wf(mgr@.hooks),
                Err(msg) => out matches Err(text) && text@ == msg@,
            },
    {
        match started {
            Ok(nonce) => Ok(
                PluginManager {
                    hooks: HookTable::new(),
                    harness: Harness::new(),
                    sentinel: err_sentinel(nonce),
                },
            ),
            Err(msg) => Err(msg),
        }
    }

    /// Adds a handler to a hook.
    pub fn register(&mut self, hook: &str, handler: &str)
        ensures
            final(self)@ == (ManagerView {
                hooks: crate::hooks::registered(old(self)@.hooks, hook@, handler@),
                ..old(self)@
            }),
            crate::hooks::wf(old(self)@.hooks) ==> crate::hooks::wf(final(self)@.hooks),
    {
        self.hooks.register(hook, handler);
    }

    /// Whether a hook has handlers.
    pub fn has_hook(&self, hook: &str) -> (yes: bool)
        ensures
            yes == crate::hooks::has_handlers(self@.hooks, hook@),
    {
        self.hooks.contains_key(hook)
    }

    /// Whether a handler has blocked the tool call.
    pub fn has_pending_block(&self) -> (yes: bool)
        ensures
            yes == (self@.harness.slots.block is Some),
    {
        self.harness.slots.block.is_some()
    }
}

// ---------------------------------------------------------------------
// Slots, queues and registries
// ---------------------------------------------------------------------

impl PluginManager {
    /// Takes the prompt that a plugin asks to run next.
    pub fn take_pending_prompt(&mut self) -> (out: Option<String>)
        ensures
            out.deep_view() == old(self)@.harness.slots.prompt,
            final(self)@ == old(self)@.with_slots(
                crate::slots::SlotsView { prompt: None, ..old(self)@.harness.slots },
            ),
    {
        self.harness.slots.prompt.take()
    }

    /// Takes the reason for which a plugin blocks the tool call.
    pub fn take_pending_block(&mut self) -> (out: Option<String>)
        ensures
            out.deep_view() == old(self)@.harness.slots.block,
            final(self)@ == old(self)@.with_slots(
                crate::slots::SlotsView { block: None, ..old(self)@.harness.slots },
            ),
    {
        self.harness.slots.block.take()
    }

    /// Takes the arguments that a plugin puts in place of those of the tool call.
    pub fn take_pending_mutate_input(&mut self) -> (out: Option<String>)
        ensures
            out.deep_view() == old(self)@.harness.slots.mutate_input,
            final(self)@ == old(self)@.with_slots(
                crate::slots::SlotsView { mutate_input: None, ..old(self)@.harness.slots },
            ),
    {
        self.harness.slots.mutate_input.take()
    }

    /// Takes the text that a plugin puts in place of the output of the tool call.
    pub fn take_pending_replace_result(&mut self) -> (out: Option<String>)
        ensures
            out.deep_view() == old(self)@.harness.slots.replace_result,
            final(self)@ == old(self)@.with_slots(
                crate::slots::SlotsView { replace_result: None, ..old(self)@.harness.slots },
            ),
    {
        self.harness.slots.replace_result.take()
    }

    /// Takes the text that a plugin puts in place of the prompt of the user.
    pub fn take_pending_prompt_replace(&mut self) -> (out: Option<String>)
        ensures
            out.deep_view() == old(self)@.harness.slots.prompt_replace,
            final(self)@ == old(self)@.with_slots(
                crate::slots::SlotsView { prompt_replace: None, ..old(self)@.harness.slots },
            ),
    {
        self.harness.slots.prompt_replace.take()
    }

    /// Takes the texts that plugins add to the system prompt.
    pub fn take_system_prompt_append(&mut self) -> (out: Option<String>)
        ensures
            out.deep_view() == old(self)@.harness.slots.system_prompt,
            final(self)@ == old(self)@.with_slots(
                crate::slots::SlotsView { system_prompt: None, ..old(self)@.harness.slots },
            ),
    {
        self.harness.slots.system_prompt.take()
    }

    /// Hands out all notifications with their levels, oldest first.
    pub fn drain_notifications(&mut self) -> (out: Vec<(String, String)>)
        ensures
            out.deep_view() == old(self)@.harness.queues.pending_notifications(),
            final(self)@ == old(self)@.with_queues(
                old(self)@.harness.queues.notifications_drained(),
            ),
    {
        self.harness.queues.drain_notifications()
    }

    /// Hands out the progress messages with the tool calls that they belong to, oldest first.
    pub fn drain_tool_progress(&mut self) -> (out: Vec<(String, String)>)
        ensures
            out.deep_view() == crate::rows::rows::<(String, String)>(old(self)@.harness.queues.tool_progress),
            final(self)@ == old(self)@.with_queues(
                crate::queues::QueuesView { tool_progress: Seq::empty(), ..old(self)@.harness.queues },
            ),
    {
        self.harness.queues.drain_tool_progress()
    }

    /// Hands out the custom messages, oldest first.
    pub fn drain_custom_messages(&mut self) -> (out: Vec<CustomMessage>)
        ensures
            out.deep_view() == crate::rows::rows::<CustomMessage>(old(self)@.harness.queues.custom_messages),
            final(self)@ == old(self)@.with_queues(
                crate::queues::QueuesView { custom_messages: Seq::empty(), ..old(self)@.harness.queues },
            ),
    {
        self.harness.queues.drain_custom_messages()
    }

    /// Hands out the steering messages, oldest first.
    pub fn drain_steering_messages(&mut self) -> (out: Vec<String>)
        ensures
            out.deep_view() == crate::rows::rows::<String>(old(self)@.harness.queues.steering),
            final(self)@ == old(self)@.with_queues(
                crate::queues::QueuesView { steering: Seq::empty(), ..old(self)@.harness.queues },
            ),
    {
        self.harness.queues.drain_steering_messages()
    }

    /// Hands out the follow-up messages, oldest first.
    pub fn drain_followup_messages(&mut self) -> (out: Vec<String>)
        ensures
            out.deep_view() == crate::rows::rows::<String>(old(self)@.harness.queues.followup),
            final(self)@ == old(self)@.with_queues(
                crate::queues::QueuesView { followup: Seq::empty(), ..old(self)@.harness.queues },
            ),
    {
        self.harness.queues.drain_followup_messages()
    }

    /// Hands out the log messages, oldest first.
    pub fn drain_log_messages(&mut self) -> (out: Vec<String>)
        ensures
            out.deep_view() == crate::rows::rows::<String>(old(self)@.harness.queues.log),
            final(self)@ == old(self)@.with_queues(
                crate::queues::QueuesView { log: Seq::empty(), ..old(self)@.harness.queues },
            ),
    {
        self.harness.queues.drain_log_messages()
    }

    /// Hands out the session entries, oldest first.
    pub fn drain_entries(&mut self) -> (out: Vec<(String, String, bool)>)
        ensures
            out.deep_view() == crate::rows::rows::<(String, String, bool)>(old(self)@.harness.queues.entries),
            final(self)@ == old(self)@.with_queues(
                crate::queues::QueuesView { entries: Seq::empty(), ..old(self)@.harness.queues },
            ),
    {
        self.harness.queues.drain_entries()
    }

    /// Hands out the operations on the session tree, oldest first.
    pub fn drain_tree_ops(&mut self) -> (out: Vec<TreeOp>)
        ensures
            out.deep_view() == crate::rows::rows::<TreeOp>(old(self)@.harness.queues.tree_ops),
            final(self)@ == old(self)@.with_queues(
                crate::queues::QueuesView { tree_ops: Seq::empty(), ..old(self)@.harness.queues },
            ),
    {
        self.harness.queues.drain_tree_ops()
    }

    /// The slash commands and their handlers.
    pub fn list_commands(&self) -> (out: Vec<(String, String)>)
        ensures
            out.deep_view() == crate::registry::listing::<(String, String)>(
                self@.harness.registries.commands,
            ),
    {
        self.harness.registries.list_commands()
    }

    /// The model providers.
    pub fn list_providers(&self) -> (out: Vec<(String, String, String, Option<String>)>)
        ensures
            out.deep_view() == crate::registry::listing::<(String, String, String, Option<String>)>(
                self@.harness.registries.providers,
            ),
    {
        self.harness.registries.list_providers()
    }

    /// The tools.
    pub fn list_plugin_tools(&self) -> (out: Vec<PluginToolMeta>)
        ensures
            out.deep_view() == crate::registry::listing::<PluginToolMeta>(
                self@.harness.registries.tools,
            ),
    {
        self.harness.registries.list_plugin_tools()
    }

    /// The keyboard shortcuts.
    pub fn list_shortcuts(&self) -> (out: Vec<Shortcut>)
        ensures
            out.deep_view() == crate::registry::listing::<Shortcut>(
                self@.harness.registries.shortcuts,
            ),
    {
        self.harness.registries.list_shortcuts()
    }

    /// The message types and the functions that render them.
    pub fn list_message_renderers(&self) -> (out: Vec<(String, String)>)
        ensures
            out.deep_view() == crate::registry::listing::<(String, String)>(
                self@.harness.registries.message_renderers,
            ),
    {
        self.harness.registries.list_message_renderers()
    }

    /// The entry types and the functions that render them.
    pub fn list_renderers(&self) -> (out: Vec<(String, String)>)
        ensures
            out.deep_view() == crate::registry::listing::<(String, String)>(
                self@.harness.registries.renderers,
            ),
    {
        self.harness.registries.list_renderers()
    }
}

// ---------------------------------------------------------------------
// What the host tells plugin code
// ---------------------------------------------------------------------

impl PluginManager {
    /// Keeps the last response of the assistant for plugin code.
    pub fn store_response(&mut self, text: &str)
        ensures
            final(self)@ == old(self)@.with_harness(
                crate::harness::HarnessView { response: Some(text@), ..old(self)@.harness },
            ),
    {
        self.harness.response = Some(text.to_owned());
    }

    /// Notes the settings of the plugin that is about to be loaded. Plugin code
    /// reads them with `harness/plugin-enabled?` and
    /// `harness/plugin-auto-start?`.
    pub fn set_loading_plugin_config(&mut self, enabled: bool, auto_start: bool)
        ensures
            final(self)@ == old(self)@.with_harness(
                crate::harness::HarnessView {
                    loading: Some(PluginConfig { enabled, auto_start }),
                    ..old(self)@.harness
                },
            ),
    {
        self.harness.loading = Some(PluginConfig { enabled, auto_start });
    }

    /// Forgets the settings of the plugin that was loaded.
    pub fn clear_loading_plugin_config(&mut self)
        ensures
            final(self)@ == old(self)@.with_harness(
                crate::harness::HarnessView { loading: None, ..old(self)@.harness },
            ),
    {
        self.harness.loading = None;
    }
}

// ---------------------------------------------------------------------
// Laws
// ---------------------------------------------------------------------

/// A manager whose engine has just started holds nothing: no hook has handlers,
/// every queue and registry is empty, and no slot is filled.
pub proof fn lemma_fresh_manager_holds_nothing(nonce: u64, hook: Seq<char>)
    ensures
        ({
            let m = ManagerView::fresh(nonce);
            let q = m.harness.queues;
            let r = m.harness.registries;
            &&& crate::hooks::handlers_of(m.hooks, hook).len() == 0
            &&& q.pending_notifications().len() == 0
            &&& crate::rows::rows::<(String, String)>(q.tool_progress).len() == 0
            &&& crate::rows::rows::<CustomMessage>(q.custom_messages).len() == 0
            &&& crate::rows::rows::<String>(q.steering).len() == 0
            &&& crate::rows::rows::<String>(q.followup).len() == 0
            &&& crate::rows::rows::<String>(q.log).len() == 0
            &&& crate::rows::rows::<(String, String, bool)>(q.entries).len() == 0
            &&& crate::rows::rows::<TreeOp>(q.tree_ops).len() == 0
            &&& crate::rows::rows::<(String, String)>(q.render_lines).len() == 0
            &&& crate::registry::listing::<(String, String)>(r.commands).len() == 0
            &&& crate::registry::listing::<(String, String, String, Option<String>)>(
                r.providers,
            ).len() == 0
            &&& crate::registry::listing::<PluginToolMeta>(r.tools).len() == 0
            &&& crate::registry::listing::<Shortcut>(r.shortcuts).len() == 0
            &&& crate::registry::listing::<(String, String)>(r.message_renderers).len() == 0
            &&& crate::registry::listing::<(String, String)>(r.renderers).len() == 0
            &&& m.harness.slots.tool_result() == crate::slots::ToolHookResultView::unchanged()
            &&& m.harness.slots.prompt is None
            &&& m.harness.slots.prompt_replace is None
            &&& m.harness.slots.system_prompt is None
            &&& m.harness.current_tool_call is None
            &&& m.harness.response is None
            &&& m.harness.loading is None
            &&& !m.harness.responder
            &&& m.harness.complete()
        }),
{
    crate::rows::lemma_no_rows::<(String, String)>();
    crate::rows::lemma_no_rows::<CustomMessage>();
    crate::rows::lemma_no_rows::<String>();
    crate::rows::lemma_no_rows::<(String, String, bool)>();
    crate::rows::lemma_no_rows::<TreeOp>();
    crate::registry::lemma_empty_registry_lists_nothing::<(String, String)>();
    crate::registry::lemma_empty_registry_lists_nothing::<
        (String, String, String, Option<String>),
    >();
    crate::registry::lemma_empty_registry_lists_nothing::<PluginToolMeta>();
    crate::registry::lemma_empty_registry_lists_nothing::<Shortcut>();
}

} // verus!
