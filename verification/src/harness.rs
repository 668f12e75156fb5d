//! The state that plugin code and the host share, and the functions through
//! which plugin code changes it.
use vstd::prelude::*;

use crate::ops::{op_named, HarnessOp};
use crate::queues::Queues;
use crate::registry::Registries;
use crate::session::DialogRequest;
use crate::slots::Slots;
use crate::text::same_text;
use crate::tree::TreeOp;
use crate::value::Value;

verus! {

/// The settings of the plugin that is being loaded.
#[derive(Clone, Copy, Debug, PartialEq, Eq, Structural)]
pub struct PluginConfig {
    pub enabled: bool,
    pub auto_start: bool,
}

/// The state of the harness.
#[derive(Debug)]
pub struct Harness {
    pub slots: Slots,
    pub queues: Queues,
    pub registries: Registries,
    /// The tool call that runs in plugin code.
    pub current_tool_call: Option<String>,
    /// The last response of the assistant.
    pub response: Option<String>,
    /// Whether someone answers the tool calls of plugin code.
    pub responder: bool,
    /// The settings of the plugin that is being loaded, while one is.
    pub loading: Option<PluginConfig>,
}

/// The mathematical form of a [`Harness`].
pub struct HarnessView {
    pub slots: crate::slots::SlotsView,
    pub queues: crate::queues::QueuesView,
    pub registries: crate::registry::RegistriesView,
    pub current_tool_call: Option<Seq<char>>,
    pub response: Option<Seq<char>>,
    pub responder: bool,
    pub loading: Option<PluginConfig>,
}

impl View for Harness {
    type V = HarnessView;

    open spec fn view(&self) -> HarnessView {
        HarnessView {
            slots: self.slots@,
            queues: self.queues@,
            registries: self.registries@,
            current_tool_call: self.current_tool_call.deep_view(),
            response: self.response.deep_view(),
            responder: self.responder,
            loading: self.loading,
        }
    }
}

/// What a call of a harness function comes to.
#[derive(Debug, PartialEq, Eq)]
pub enum HarnessReply {
    /// The call returns a value.
    Return(Value),
    /// The call raises an error in plugin code.
    Raise(String),
    /// The host is to list its tools and return the list.
    ListTools,
    /// The host is to call a tool and return its answer.
    CallTool { name: String, args: String },
    /// The host is to ask the user and return the answer.
    Ask(DialogRequest),
}

/// The mathematical form of a [`HarnessReply`].
pub enum HarnessReplyView {
    Return(crate::value::ValueView),
    Raise(Seq<char>),
    ListTools,
    CallTool { name: Seq<char>, args: Seq<char> },
    Ask(crate::session::DialogRequestView),
}

impl View for HarnessReply {
    type V = HarnessReplyView;

    open spec fn view(&self) -> HarnessReplyView {
        match self {
            HarnessReply::Return(v) => HarnessReplyView::Return(v@),
            HarnessReply::Raise(msg) => HarnessReplyView::Raise(msg@),
            HarnessReply::ListTools => HarnessReplyView::ListTools,
            HarnessReply::CallTool { name, args } => HarnessReplyView::CallTool {
                name: name@,
                args: args@,
            },
            HarnessReply::Ask(request) => HarnessReplyView::Ask(request@),
        }
    }
}

impl HarnessView {
    /// The harness before any plugin ran.
    pub open spec fn empty() -> HarnessView {
        HarnessView {
            slots: crate::slots::SlotsView::empty(),
            queues: crate::queues::QueuesView::empty(),
            registries: crate::registry::RegistriesView::empty(),
            current_tool_call: None,
            response: None,
            responder: false,
            loading: None,
        }
    }

    /// Every record in the queues and registries is finished.
    pub open spec fn complete(self) -> bool {
        self.queues.complete() && self.registries.complete()
    }

    pub open spec fn with_queues(self, queues: crate::queues::QueuesView) -> HarnessView {
        HarnessView { queues, ..self }
    }

    pub open spec fn with_slots(self, slots: crate::slots::SlotsView) -> HarnessView {
        HarnessView { slots, ..self }
    }

    pub open spec fn with_registries(
        self,
        registries: crate::registry::RegistriesView,
    ) -> HarnessView {
        HarnessView { registries, ..self }
    }
}

/// The harness after plugin code called a function.
pub open spec fn after_call(
    h: HarnessView,
    op: HarnessOp,
    args: Seq<crate::value::ValueView>,
) -> HarnessView {
    let a = crate::value::arg(args, 0);
    let b = crate::value::arg(args, 1);
    let c = crate::value::arg(args, 2);
    let d = crate::value::arg(args, 3);
    let s = h.slots;
    match op {
        HarnessOp::RequestPrompt => h.with_slots(
            crate::slots::SlotsView { prompt: crate::slots::written(s.prompt, a), ..s },
        ),
        HarnessOp::Block => h.with_slots(
            crate::slots::SlotsView { block: crate::slots::written(s.block, a), ..s },
        ),
        HarnessOp::MutateInput => h.with_slots(
            crate::slots::SlotsView {
                mutate_input: crate::slots::written(s.mutate_input, a),
                ..s
            },
        ),
        HarnessOp::ReplaceResult => h.with_slots(
            crate::slots::SlotsView {
                replace_result: crate::slots::written(s.replace_result, a),
                ..s
            },
        ),
        HarnessOp::ReplacePrompt => h.with_slots(
            crate::slots::SlotsView {
                prompt_replace: crate::slots::written(s.prompt_replace, a),
                ..s
            },
        ),
        HarnessOp::AppendSystemPrompt => h.with_slots(
            crate::slots::SlotsView {
                system_prompt: crate::slots::extended(s.system_prompt, a),
                ..s
            },
        ),
        HarnessOp::Notify => h.with_queues(h.queues.notify(a, b)),
        HarnessOp::PushHookErr => match a.text() {
            Some(msg) => h.with_queues(h.queues.hook_error(msg)),
            None => h,
        },
        HarnessOp::Log => h.with_queues(h.queues.logged(a)),
        HarnessOp::AddSteering => h.with_queues(h.queues.steered(a)),
        HarnessOp::AddFollowup => h.with_queues(h.queues.followed_up(a)),
        HarnessOp::AddCustomMessage => h.with_queues(h.queues.custom_added(a, b, c)),
        HarnessOp::AppendEntry => h.with_queues(h.queues.entry_appended(a, b, c)),
        HarnessOp::EmitToolProgress => h.with_queues(
            h.queues.progressed(h.current_tool_call, a),
        ),
        HarnessOp::Render => h.with_queues(h.queues.rendered(a, b)),
        HarnessOp::SetLabel => h.with_queues(
            h.queues.tree_queued(crate::tree::set_label_op(a, b)),
        ),
        HarnessOp::Fork => h.with_queues(h.queues.tree_queued(crate::tree::fork_op(a, b))),
        HarnessOp::NavigateTree => h.with_queues(
            h.queues.tree_queued(crate::tree::navigate_op(a)),
        ),
        HarnessOp::NewSession => h.with_queues(
            h.queues.tree_queued(crate::tree::new_session_op(a)),
        ),
        HarnessOp::SwitchSession => h.with_queues(
            h.queues.tree_queued(crate::tree::switch_op(a)),
        ),
        HarnessOp::RegisterCommand => h.with_registries(h.registries.command(a, b)),
        HarnessOp::RegisterProvider => h.with_registries(h.registries.provider(a, b, c, d)),
        HarnessOp::RegisterTool => h.with_registries(h.registries.tool(args)),
        HarnessOp::RegisterShortcut => h.with_registries(h.registries.shortcut(a, b, c)),
        HarnessOp::RegisterMessageRenderer => h.with_registries(
            h.registries.message_renderer(a, b),
        ),
        HarnessOp::RegisterRenderer => h.with_registries(h.registries.renderer(a, b)),
        HarnessOp::HasTools => h,
        HarnessOp::ListTools => h,
        HarnessOp::CallTool => h,
        HarnessOp::Confirm => h,
        HarnessOp::Select => h,
        HarnessOp::PluginEnabled => h,
        HarnessOp::PluginAutoStart => h,
    }
}

/// What the call of a function comes to. All but the tool bridge, the questions
/// and the settings return nil. The bridge checks the arguments of a tool call first:
/// the name is a string, and the arguments are a string or left out. Without a
/// responder a listing or a call is nil. A question without its texts is nil
/// too. A setting is nil unless a plugin is being loaded.
pub open spec fn reply_to(
    h: HarnessView,
    op: HarnessOp,
    args: Seq<crate::value::ValueView>,
) -> HarnessReplyView {
    let a = crate::value::arg(args, 0);
    let b = crate::value::arg(args, 1);
    let nil = HarnessReplyView::Return(crate::value::ValueView::Nil);
    match op {
        HarnessOp::HasTools => HarnessReplyView::Return(
            crate::value::ValueView::Boolean(h.responder),
        ),
        HarnessOp::ListTools => if h.responder {
            HarnessReplyView::ListTools
        } else {
            nil
        },
        HarnessOp::CallTool => if a.text() is None {
            HarnessReplyView::Raise("harness/call-tool: the tool name must be a string"@)
        } else if !(b is Nil) && b.text() is None {
            HarnessReplyView::Raise("harness/call-tool: the arguments must be a JSON string"@)
        } else if !h.responder {
            nil
        } else {
            HarnessReplyView::CallTool {
                name: a.text()->0,
                args: if b is Nil {
                    "{}"@
                } else {
                    b.text()->0
                },
            }
        },
        HarnessOp::Confirm => match (a.text(), b.text()) {
            (Some(title), Some(question)) => HarnessReplyView::Ask(
                crate::session::DialogRequestView::Confirm { title, question },
            ),
            _ => nil,
        },
        HarnessOp::Select => match (a.text(), b.items()) {
            (Some(title), Some(options)) => HarnessReplyView::Ask(
                crate::session::DialogRequestView::Select { title, options },
            ),
            _ => nil,
        },
        HarnessOp::PluginEnabled => match h.loading {
            Some(config) => HarnessReplyView::Return(
                crate::value::ValueView::Boolean(config.enabled),
            ),
            None => nil,
        },
        HarnessOp::PluginAutoStart => match h.loading {
            Some(config) => HarnessReplyView::Return(
                crate::value::ValueView::Boolean(config.auto_start),
            ),
            None => nil,
        },
        _ => nil,
    }
}

/// The argument at `i`, or nil where there is none.
pub fn arg_at(args: &Vec<Value>, i: usize) -> (v: &Value)
    ensures
        v@ == crate::value::arg(args.deep_view(), i as int),
{
    if i < args.len() {
        &args[i]
    } else {
        &Value::Nil
    }
}

/// The variables of the harness that plugin code may read and assign.
#[derive(Clone, Copy, Debug, PartialEq, Eq, Structural)]
pub enum HarnessVar {
    Response,
    CurrentToolCall,
    Notifications,
    TreeOps,
}

/// The name of a variable in plugin code.
pub open spec fn var_name(var: HarnessVar) -> Seq<char> {
    match var {
        HarnessVar::Response => "harness-response"@,
        HarnessVar::CurrentToolCall => "harness-current-tool-call"@,
        HarnessVar::Notifications => "harness-notif-list"@,
        HarnessVar::TreeOps => "harness-tree-ops"@,
    }
}

/// Finds the variable of that name.
pub fn var_named(name: &str) -> (var: Option<HarnessVar>)
    ensures
        var matches Some(found) ==> var_name(found) == name@,
        var is None ==> forall|other: HarnessVar| #[trigger] var_name(other) != name@,
{
    if same_text(name, "harness-response") {
        Some(HarnessVar::Response)
    } else if same_text(name, "harness-current-tool-call") {
        Some(HarnessVar::CurrentToolCall)
    } else if same_text(name, "harness-notif-list") {
        Some(HarnessVar::Notifications)
    } else if same_text(name, "harness-tree-ops") {
        Some(HarnessVar::TreeOps)
    } else {
        None
    }
}

/// No two variables share a name.
pub proof fn lemma_var_names_are_distinct(a: HarnessVar, b: HarnessVar)
    requires
        var_name(a) == var_name(b),
    ensures
        a == b,
{
    reveal_strlit("harness-response");
    reveal_strlit("harness-current-tool-call");
    reveal_strlit("harness-notif-list");
    reveal_strlit("harness-tree-ops");
    assert("harness-response"@.len() == 16);
    assert("harness-current-tool-call"@.len() == 25);
    assert("harness-notif-list"@.len() == 18);
    assert("harness-tree-ops"@.len() == 16);
    assert("harness-response"@[8] == 'r');
    assert("harness-tree-ops"@[8] == 't');
}

/// The value of an optional text in plugin code.
pub open spec fn optional_value(text: Option<Seq<char>>) -> crate::value::ValueView {
    match text {
        Some(t) => crate::value::ValueView::Str(t),
        None => crate::value::ValueView::Nil,
    }
}

/// The value of a variable.
pub open spec fn var_value(h: HarnessView, var: HarnessVar) -> crate::value::ValueView {
    match var {
        HarnessVar::Response => optional_value(h.response),
        HarnessVar::CurrentToolCall => optional_value(h.current_tool_call),
        HarnessVar::Notifications => crate::value::ValueView::Str(h.queues.notifications),
        HarnessVar::TreeOps => crate::value::ValueView::Str(h.queues.tree_ops),
    }
}

/// The harness after plugin code assigned to a variable. A string is taken as
/// it is, nil empties the variable, and any other value leaves it alone.
pub open spec fn var_assigned(
    h: HarnessView,
    var: HarnessVar,
    value: crate::value::ValueView,
) -> HarnessView {
    if value is Nil || value.text() is Some {
        let text = match value.text() {
            Some(t) => t,
            None => Seq::empty(),
        };
        match var {
            HarnessVar::Response => HarnessView { response: value.text(), ..h },
            HarnessVar::CurrentToolCall => HarnessView { current_tool_call: value.text(), ..h },
            HarnessVar::Notifications => h.with_queues(
                crate::queues::QueuesView { notifications: text, ..h.queues },
            ),
            HarnessVar::TreeOps => h.with_queues(
                crate::queues::QueuesView { tree_ops: text, ..h.queues },
            ),
        }
    } else {
        h
    }
}

fn value_of(text: &Option<String>) -> (v: Value)
    ensures
        v@ == optional_value(text.deep_view()),
{
    match text {
        Some(t) => Value::Str(t.clone()),
        None => Value::Nil,
    }
}

impl Harness {
    /// The harness before any plugin ran.
    pub fn new() -> (out: Harness)
        ensures
            out@ == HarnessView::empty(),
    {
        Harness {
            slots: Slots::new(),
            queues: Queues::new(),
            registries: Registries::new(),
            current_tool_call: None,
            response: None,
            responder: false,
            loading: None,
        }
    }

    /// Runs a harness function for plugin code.
    pub fn call(&mut self, op: HarnessOp, args: &Vec<Value>) -> (reply: HarnessReply)
        ensures
            final(self)@ == after_call(old(self)@, op, args.deep_view()),
            reply@ == reply_to(old(self)@, op, args.deep_view()),
    {
        let a = arg_at(args, 0);
        let b = arg_at(args, 1);
        let c = arg_at(args, 2);
        let d = arg_at(args, 3);
        match op {
            HarnessOp::RequestPrompt => self.slots.request_prompt(a),
            HarnessOp::Block => self.slots.block(a),
            HarnessOp::MutateInput => self.slots.mutate_input(a),
            HarnessOp::ReplaceResult => self.slots.replace_result(a),
            HarnessOp::ReplacePrompt => self.slots.replace_prompt(a),
            HarnessOp::AppendSystemPrompt => self.slots.append_system_prompt(a),
            HarnessOp::Notify => self.queues.notify(a, b),
            HarnessOp::PushHookErr => {
                if let Some(msg) = a.text() {
                    self.queues.push_hook_err(msg.as_str());
                }
            },
            HarnessOp::Log => self.queues.log(a),
            HarnessOp::AddSteering => self.queues.add_steering(a),
            HarnessOp::AddFollowup => self.queues.add_followup(a),
            HarnessOp::AddCustomMessage => self.queues.add_custom_message(a, b, c),
            HarnessOp::AppendEntry => self.queues.append_entry(a, b, c),
            HarnessOp::EmitToolProgress => self.queues.emit_tool_progress(
                &self.current_tool_call,
                a,
            ),
            HarnessOp::Render => self.queues.render(a, b),
            HarnessOp::SetLabel => self.queues.queue_tree_op(&TreeOp::set_label(a, b)),
            HarnessOp::Fork => self.queues.queue_tree_op(&TreeOp::fork(a, b)),
            HarnessOp::NavigateTree => self.queues.queue_tree_op(&TreeOp::navigate(a)),
            HarnessOp::NewSession => self.queues.queue_tree_op(&TreeOp::new_session(a)),
            HarnessOp::SwitchSession => self.queues.queue_tree_op(&TreeOp::switch_session(a)),
            HarnessOp::RegisterCommand => self.registries.register_command(a, b),
            HarnessOp::RegisterProvider => self.registries.register_provider(a, b, c, d),
            HarnessOp::RegisterTool => self.registries.register_tool(args),
            HarnessOp::RegisterShortcut => self.registries.register_shortcut(a, b, c),
            HarnessOp::RegisterMessageRenderer => self.registries.register_message_renderer(a, b),
            HarnessOp::RegisterRenderer => self.registries.register_renderer(a, b),
            HarnessOp::HasTools => {
                return HarnessReply::Return(Value::Boolean(self.responder));
            },
            HarnessOp::ListTools => {
                if self.responder {
                    return HarnessReply::ListTools;
                }
            },
            HarnessOp::CallTool => {
                return self.call_tool(a, b);
            },
            HarnessOp::Confirm => {
                if let (Some(title), Some(question)) = (a.text(), b.text()) {
                    return HarnessReply::Ask(DialogRequest::Confirm { title, question });
                }
            },
            HarnessOp::Select => {
                if let (Some(title), Some(options)) = (a.text(), b.items()) {
                    return HarnessReply::Ask(DialogRequest::Select { title, options });
                }
            },
            HarnessOp::PluginEnabled => {
                if let Some(config) = self.loading {
                    return HarnessReply::Return(Value::Boolean(config.enabled));
                }
            },
            HarnessOp::PluginAutoStart => {
                if let Some(config) = self.loading {
                    return HarnessReply::Return(Value::Boolean(config.auto_start));
                }
            },
        }
        HarnessReply::Return(Value::Nil)
    }

    fn call_tool(&self, name: &Value, args: &Value) -> (reply: HarnessReply)
        ensures
            reply@ == reply_to(self@, HarnessOp::CallTool, seq![name@, args@]),
    {
        let tool = match name.text() {
            Some(text) => text,
            None => {
                return HarnessReply::Raise(
                    "harness/call-tool: the tool name must be a string".to_owned(),
                );
            },
        };
        let json = if args.is_nil() {
            "{}".to_owned()
        } else {
            match args.text() {
                Some(text) => text,
                None => {
                    return HarnessReply::Raise(
                        "harness/call-tool: the arguments must be a JSON string".to_owned(),
                    );
                },
            }
        };
        if self.responder {
            HarnessReply::CallTool { name: tool, args: json }
        } else {
            HarnessReply::Return(Value::Nil)
        }
    }

    /// Calls a harness function by its name. A name that the harness does not
    /// define is no call.
    pub fn call_named(&mut self, name: &str, args: &Vec<Value>) -> (reply: Option<HarnessReply>)
        ensures
            reply is Some <==> exists|op: HarnessOp| crate::ops::op_name(op) == name@,
            reply is None ==> final(self)@ == old(self)@,
            forall|op: HarnessOp| #[trigger]
                crate::ops::op_name(op) == name@ ==> {
                    &&& final(self)@ == after_call(old(self)@, op, args.deep_view())
                    &&& reply matches Some(r) && r@ == reply_to(old(self)@, op, args.deep_view())
                },
    {
        match op_named(name) {
            Some(op) => {
                proof {
                    assert forall|other: HarnessOp| #[trigger]
                        crate::ops::op_name(other) == name@ implies other == op by {
                        crate::ops::lemma_op_names_are_distinct(other, op);
                    }
                }
                Some(self.call(op, args))
            },
            None => None,
        }
    }

    /// The value of a variable.
    pub fn get_var(&self, var: HarnessVar) -> (v: Value)
        ensures
            v@ == var_value(self@, var),
    {
        match var {
            HarnessVar::Response => value_of(&self.response),
            HarnessVar::CurrentToolCall => value_of(&self.current_tool_call),
            HarnessVar::Notifications => Value::Str(self.queues.notifications.clone()),
            HarnessVar::TreeOps => Value::Str(self.queues.tree_ops.clone()),
        }
    }

    /// Assigns to a variable for plugin code.
    pub fn set_var(&mut self, var: HarnessVar, value: &Value)
        ensures
            final(self)@ == var_assigned(old(self)@, var, value@),
    {
        let text = value.text();
        if !value.is_nil() && text.is_none() {
            return;
        }
        match var {
            HarnessVar::Response => {
                self.response = text;
            },
            HarnessVar::CurrentToolCall => {
                self.current_tool_call = text;
            },
            HarnessVar::Notifications => {
                self.queues.notifications = match text {
                    Some(t) => t,
                    None => String::new(),
                };
            },
            HarnessVar::TreeOps => {
                self.queues.tree_ops = match text {
                    Some(t) => t,
                    None => String::new(),
                };
            },
        }
    }

    /// The value of the variable of that name. A name that the harness does not
    /// define has none.
    pub fn get_named(&self, name: &str) -> (v: Option<Value>)
        ensures
            v is Some <==> exists|var: HarnessVar| var_name(var) == name@,
            forall|var: HarnessVar| #[trigger]
                var_name(var) == name@ ==> v.deep_view() == Some(var_value(self@, var)),
    {
        match var_named(name) {
            Some(var) => {
                proof {
                    assert forall|other: HarnessVar| #[trigger]
                        var_name(other) == name@ implies other == var by {
                        lemma_var_names_are_distinct(other, var);
                    }
                }
                Some(self.get_var(var))
            },
            None => None,
        }
    }

    /// Assigns to the variable of that name, and says whether the harness
    /// defines it.
    pub fn set_named(&mut self, name: &str, value: &Value) -> (known: bool)
        ensures
            known <==> exists|var: HarnessVar| var_name(var) == name@,
            !known ==> final(self)@ == old(self)@,
            forall|var: HarnessVar| #[trigger]
                var_name(var) == name@ ==> final(self)@ == var_assigned(old(self)@, var, value@),
    {
        match var_named(name) {
            Some(var) => {
                proof {
                    assert forall|other: HarnessVar| #[trigger]
                        var_name(other) == name@ implies other == var by {
                        lemma_var_names_are_distinct(other, var);
                    }
                }
                self.set_var(var, value);
                true
            },
            None => false,
        }
    }
}

// ---------------------------------------------------------------------
// Laws
// ---------------------------------------------------------------------

/// No call of plugin code leaves an unfinished record behind.
pub proof fn lemma_calls_keep_blobs_complete(
    h: HarnessView,
    op: HarnessOp,
    args: Seq<crate::value::ValueView>,
)
    requires
        h.complete(),
    ensures
        after_call(h, op, args).complete(),
{
    broadcast use crate::wire::lemma_record_completes;

    let after = after_call(h, op, args);
    let q = h.queues;
    let r = h.registries;
    match op {
        HarnessOp::PushHookErr => {
            assert(q.repeats_flushed().complete());
            assert(after.queues.complete());
        },
        HarnessOp::SetLabel | HarnessOp::Fork | HarnessOp::NavigateTree | HarnessOp::NewSession
        | HarnessOp::SwitchSession => {
            assert(after.queues.complete());
        },
        HarnessOp::RegisterCommand | HarnessOp::RegisterMessageRenderer
        | HarnessOp::RegisterRenderer => {
            assert(after.registries.complete());
        },
        HarnessOp::RegisterTool => {
            assert(r.tool(args).complete());
        },
        HarnessOp::RegisterProvider | HarnessOp::RegisterShortcut => {
            assert(after.registries.complete());
        },
        HarnessOp::Notify => {
            assert(after.queues.complete());
        },
        _ => {
            assert(after.queues.complete());
        },
    }
}

/// A fresh harness is complete.
pub proof fn lemma_fresh_harness_is_complete()
    ensures
        HarnessView::empty().complete(),
{
}

/// A call that touches the queues leaves slots and registries alone, and so on
/// round: a function changes one of the three at most, and never the running
/// call, the response, the responder or the settings.
pub proof fn lemma_calls_are_local(
    h: HarnessView,
    op: HarnessOp,
    args: Seq<crate::value::ValueView>,
)
    ensures
        ({
            let after = after_call(h, op, args);
            &&& after.current_tool_call == h.current_tool_call
            &&& after.response == h.response
            &&& after.responder == h.responder
            &&& after.loading == h.loading
            &&& after == h.with_slots(after.slots) || after == h.with_queues(after.queues)
                || after == h.with_registries(after.registries)
        }),
{
}

/// A string that was assigned to a variable is read back from it. Nil leaves
/// an optional text nil, and a queue empty. Only the text of an unfinished
/// record leaves one behind.
pub proof fn lemma_var_round_trip(
    h: HarnessView,
    var: HarnessVar,
    value: crate::value::ValueView,
)
    ensures
        value.text() is Some ==> var_value(var_assigned(h, var, value), var) == value,
        value is Nil ==> var_value(var_assigned(h, var, value), var) == (match var {
            HarnessVar::Response => crate::value::ValueView::Nil,
            HarnessVar::CurrentToolCall => crate::value::ValueView::Nil,
            HarnessVar::Notifications => crate::value::ValueView::Str(Seq::empty()),
            HarnessVar::TreeOps => crate::value::ValueView::Str(Seq::empty()),
        }),
        h.complete() && (value.text() matches Some(text) ==> crate::wire::complete(text))
            ==> var_assigned(h, var, value).complete(),
{
}

/// Without a responder plugin code can tell: the predicate is false, a listing
/// is nil, and so is a call. A call with bad arguments is an error all the
/// same.
pub proof fn lemma_bridge_without_responder(
    h: HarnessView,
    args: Seq<crate::value::ValueView>,
)
    requires
        !h.responder,
    ensures
        reply_to(h, HarnessOp::HasTools, args) == HarnessReplyView::Return(
            crate::value::ValueView::Boolean(false),
        ),
        reply_to(h, HarnessOp::ListTools, args) == HarnessReplyView::Return(
            crate::value::ValueView::Nil,
        ),
        ({
            let name = crate::value::arg(args, 0);
            let json = crate::value::arg(args, 1);
            if name.text() is Some && (json is Nil || json.text() is Some) {
                reply_to(h, HarnessOp::CallTool, args) == HarnessReplyView::Return(
                    crate::value::ValueView::Nil,
                )
            } else {
                reply_to(h, HarnessOp::CallTool, args) is Raise
            }
        }),
{
}

/// Without a user a yes confirms every question and picks the first option,
/// and a no refuses and picks none.
pub proof fn lemma_questions_without_a_user(
    h: HarnessView,
    title: Seq<char>,
    question: Seq<char>,
    options: Seq<Seq<char>>,
    shown: Seq<char>,
)
    ensures
        ({
            let yes = crate::session::AutoConfirmMode::Yes;
            let no = crate::session::AutoConfirmMode::No;
            let t = crate::value::ValueView::Str(title);
            let q = crate::value::ValueView::Str(question);
            let o = crate::value::ValueView::List { items: options, shown };
            &&& reply_to(h, HarnessOp::Confirm, seq![t, q]) matches HarnessReplyView::Ask(confirm)
                && crate::session::answer_value(crate::session::auto_reply(yes, confirm))
                == crate::value::ValueView::Boolean(true) && crate::session::answer_value(
                crate::session::auto_reply(no, confirm),
            ) == crate::value::ValueView::Boolean(false)
            &&& reply_to(h, HarnessOp::Select, seq![t, o]) matches HarnessReplyView::Ask(select)
                && crate::session::answer_value(crate::session::auto_reply(yes, select)) == (
            if options.len() > 0 {
                crate::value::ValueView::Str(options[0])
            } else {
                crate::value::ValueView::Nil
            }) && crate::session::answer_value(crate::session::auto_reply(no, select))
                == crate::value::ValueView::Nil
        }),
{
}

/// While a plugin is loaded it reads its settings as they were given, and
/// otherwise both are nil.
pub proof fn lemma_settings_reach_the_plugin(
    h: HarnessView,
    enabled: bool,
    auto_start: bool,
    args: Seq<crate::value::ValueView>,
)
    ensures
        ({
            let during = HarnessView {
                loading: Some(PluginConfig { enabled, auto_start }),
                ..h
            };
            let after = HarnessView { loading: None, ..h };
            let nil = HarnessReplyView::Return(crate::value::ValueView::Nil);
            &&& reply_to(during, HarnessOp::PluginEnabled, args) == HarnessReplyView::Return(
                crate::value::ValueView::Boolean(enabled),
            )
            &&& reply_to(during, HarnessOp::PluginAutoStart, args) == HarnessReplyView::Return(
                crate::value::ValueView::Boolean(auto_start),
            )
            &&& reply_to(after, HarnessOp::PluginEnabled, args) == nil
            &&& reply_to(after, HarnessOp::PluginAutoStart, args) == nil
        }),
{
}

/// The harness after all variables were written back, where `values` is what
/// they held.
pub open spec fn pushed(
    h: HarnessView,
    values: spec_fn(HarnessVar) -> crate::value::ValueView,
) -> HarnessView {
    let a = var_assigned(h, HarnessVar::Response, values(HarnessVar::Response));
    let b = var_assigned(a, HarnessVar::CurrentToolCall, values(HarnessVar::CurrentToolCall));
    let c = var_assigned(b, HarnessVar::Notifications, values(HarnessVar::Notifications));
    var_assigned(c, HarnessVar::TreeOps, values(HarnessVar::TreeOps))
}

/// What plugin code assigns to a variable that was filled from the harness is
/// what the harness holds once the variables are written back, and nothing else
/// changes. Without an assignment nothing changes at all.
pub proof fn lemma_assignment_reaches_the_harness(
    h: HarnessView,
    var: HarnessVar,
    value: crate::value::ValueView,
)
    ensures
        pushed(
            h,
            |other: HarnessVar|
                if other == var {
                    value
                } else {
                    var_value(h, other)
                },
        ) == var_assigned(h, var, value),
        pushed(h, |other: HarnessVar| var_value(h, other)) == h,
{
}

/// A response that the host has stored is what plugin code reads, whatever
/// characters it holds.
pub proof fn lemma_stored_response_is_read(h: HarnessView, text: Seq<char>)
    ensures
        var_value(HarnessView { response: Some(text), ..h }, HarnessVar::Response)
            == crate::value::ValueView::Str(text),
{
}

// ---------------------------------------------------------------------
// Each function, from what plugin code hands over to what the host gets
// ---------------------------------------------------------------------

/// The text that plugin code hands to a slot is what the slot holds, whole and
/// in the place of what it held, and nothing else changes. A text for the system
/// prompt stands on a line of its own behind those before it.
pub proof fn lemma_slots_hold_what_was_written(h: HarnessView, s: Seq<char>)
    ensures
        ({
            let args = seq![crate::value::ValueView::Str(s)];
            let slots = h.slots;
            &&& after_call(h, HarnessOp::RequestPrompt, args) == (HarnessView {
                slots: crate::slots::SlotsView { prompt: Some(s), ..slots },
                ..h
            })
            &&& after_call(h, HarnessOp::Block, args) == (HarnessView {
                slots: crate::slots::SlotsView { block: Some(s), ..slots },
                ..h
            })
            &&& after_call(h, HarnessOp::MutateInput, args) == (HarnessView {
                slots: crate::slots::SlotsView { mutate_input: Some(s), ..slots },
                ..h
            })
            &&& after_call(h, HarnessOp::ReplaceResult, args) == (HarnessView {
                slots: crate::slots::SlotsView { replace_result: Some(s), ..slots },
                ..h
            })
            &&& after_call(h, HarnessOp::ReplacePrompt, args) == (HarnessView {
                slots: crate::slots::SlotsView { prompt_replace: Some(s), ..slots },
                ..h
            })
            &&& after_call(h, HarnessOp::AppendSystemPrompt, args) == (HarnessView {
                slots: crate::slots::SlotsView {
                    system_prompt: match slots.system_prompt {
                        Some(before) => Some(before + seq!['\n'] + s),
                        None => Some(s),
                    },
                    ..slots
                },
                ..h
            })
        }),
{
    if let Some(before) = h.slots.system_prompt {
        assert(before.push('\n') + s =~= before + seq!['\n'] + s);
    }
}

/// A function whose first argument is to be a string does nothing without one,
/// and the functions that only ask change nothing at all.
pub proof fn lemma_functions_pass_over_what_is_no_string(
    h: HarnessView,
    op: HarnessOp,
    args: Seq<crate::value::ValueView>,
)
    requires
        match op {
            HarnessOp::HasTools => true,
            HarnessOp::ListTools => true,
            HarnessOp::CallTool => true,
            HarnessOp::Confirm => true,
            HarnessOp::Select => true,
            HarnessOp::PluginEnabled => true,
            HarnessOp::PluginAutoStart => true,
            HarnessOp::Render => args.len() < 2 || !(args[1] is Str),
            HarnessOp::NewSession => args.len() > 0 && !(args[0] is Str) && !(args[0] is Nil),
            _ => args.len() == 0 || !(args[0] is Str),
        },
    ensures
        after_call(h, op, args) == h,
{
    if op == HarnessOp::RegisterTool {
        assert(crate::value::arg(args, 0).text() is None);
    }
}

/// A notification is drained with its message as it was given, behind the
/// earlier ones. Its level is the keyword or the string that was given, where
/// that is `warn` or `error`, and `info` in every other case.
pub proof fn lemma_notification_reaches_the_host(
    h: HarnessView,
    msg: Seq<char>,
    level: Seq<char>,
    given: crate::value::ValueView,
)
    requires
        h.complete(),
        given == crate::value::ValueView::Keyword(level) || given == crate::value::ValueView::Str(level),
    ensures
        ({
            let shown = if level == "warn"@ || level == "error"@ {
                level
            } else {
                "info"@
            };
            let with = after_call(h, HarnessOp::Notify, seq![crate::value::ValueView::Str(msg), given]);
            let without = after_call(h, HarnessOp::Notify, seq![crate::value::ValueView::Str(msg)]);
            let before = crate::rows::rows::<(String, String)>(h.queues.notifications);
            &&& crate::rows::rows::<(String, String)>(with.queues.notifications) == before.push(
                (shown, msg),
            )
            &&& crate::rows::rows::<(String, String)>(without.queues.notifications) == before.push(
                ("info"@, msg),
            )
            &&& with == h.with_queues(
                crate::queues::QueuesView { notifications: with.queues.notifications, ..h.queues },
            )
            &&& without == h.with_queues(
                crate::queues::QueuesView { notifications: without.queues.notifications, ..h.queues },
            )
        }),
{
    crate::queues::lemma_notification_is_drained(h.queues, crate::value::ValueView::Str(msg), given);
    crate::queues::lemma_notification_is_drained(
        h.queues,
        crate::value::ValueView::Str(msg),
        crate::value::ValueView::Nil,
    );
}

/// An error that plugin code reports is shown behind everything that is pending,
/// unless it is the one that was reported last.
pub proof fn lemma_reported_error_reaches_the_host(h: HarnessView, msg: Seq<char>)
    requires
        h.complete(),
        h.queues.last_hook_error != Some(msg),
    ensures
        ({
            let after = after_call(h, HarnessOp::PushHookErr, seq![crate::value::ValueView::Str(msg)]);
            &&& after.queues.pending_notifications() == h.queues.pending_notifications().push(
                ("error"@, msg),
            )
            &&& after.slots == h.slots
            &&& after.registries == h.registries
        }),
{
    crate::queues::lemma_repeated_hook_error_is_coalesced(h.queues, msg, 1);
    reveal_with_fuel(crate::queues::hook_error_times, 2);
}

/// Messages for the log, for the running turn and for the next one are drained
/// as they were given, each from its own queue.
pub proof fn lemma_messages_reach_the_host(h: HarnessView, msg: Seq<char>)
    requires
        h.complete(),
    ensures
        ({
            let args = seq![crate::value::ValueView::Str(msg)];
            let q = h.queues;
            let logged = after_call(h, HarnessOp::Log, args);
            let steered = after_call(h, HarnessOp::AddSteering, args);
            let followed = after_call(h, HarnessOp::AddFollowup, args);
            &&& crate::rows::rows::<String>(logged.queues.log) == crate::rows::rows::<String>(
                q.log,
            ).push(msg)
            &&& logged == h.with_queues(crate::queues::QueuesView { log: logged.queues.log, ..q })
            &&& crate::rows::rows::<String>(steered.queues.steering) == crate::rows::rows::<String>(
                q.steering,
            ).push(msg)
            &&& steered == h.with_queues(crate::queues::QueuesView { steering: steered.queues.steering, ..q })
            &&& crate::rows::rows::<String>(followed.queues.followup) == crate::rows::rows::<String>(
                q.followup,
            ).push(msg)
            &&& followed == h.with_queues(crate::queues::QueuesView { followup: followed.queues.followup, ..q })
        }),
{
    crate::queues::lemma_text_is_drained(h.queues, crate::value::ValueView::Str(msg));
}

/// A custom message is drained with the type and the content that were given.
/// One text alone is the content. It is shown unless the third argument is
/// `false`.
pub proof fn lemma_custom_message_reaches_the_host(
    h: HarnessView,
    kind: Seq<char>,
    content: Seq<char>,
    display: crate::value::ValueView,
)
    requires
        h.complete(),
    ensures
        ({
            let op = HarnessOp::AddCustomMessage;
            let k = crate::value::ValueView::Str(kind);
            let c = crate::value::ValueView::Str(content);
            let one = after_call(h, op, seq![c]);
            let two = after_call(h, op, seq![k, c]);
            let three = after_call(h, op, seq![k, c, display]);
            let before = crate::rows::rows::<crate::queues::CustomMessage>(
                h.queues.custom_messages,
            );
            let message = crate::queues::CustomMessageView {
                custom_type: kind,
                content,
                display: true,
            };
            &&& crate::rows::rows::<crate::queues::CustomMessage>(one.queues.custom_messages)
                == before.push(
                crate::queues::CustomMessageView { custom_type: Seq::empty(), ..message },
            )
            &&& crate::rows::rows::<crate::queues::CustomMessage>(two.queues.custom_messages)
                == before.push(message)
            &&& crate::rows::rows::<crate::queues::CustomMessage>(three.queues.custom_messages)
                == before.push(
                crate::queues::CustomMessageView {
                    display: display != crate::value::ValueView::Boolean(false),
                    ..message
                },
            )
            &&& three == h.with_queues(
                crate::queues::QueuesView { custom_messages: three.queues.custom_messages, ..h.queues },
            )
        }),
{
    let k = crate::value::ValueView::Str(kind);
    let c = crate::value::ValueView::Str(content);
    let nil = crate::value::ValueView::Nil;
    crate::queues::lemma_custom_message_is_drained(h.queues, c, nil, nil);
    crate::queues::lemma_custom_message_is_drained(h.queues, k, c, nil);
    crate::queues::lemma_custom_message_is_drained(h.queues, k, c, display);
}

/// A session entry is drained with the type and the data that were given, and is
/// shown unless the third argument is `false`.
pub proof fn lemma_entry_reaches_the_host(
    h: HarnessView,
    kind: Seq<char>,
    data: Seq<char>,
    shown: crate::value::ValueView,
)
    requires
        h.complete(),
    ensures
        ({
            let k = crate::value::ValueView::Str(kind);
            let d = crate::value::ValueView::Str(data);
            let two = after_call(h, HarnessOp::AppendEntry, seq![k, d]);
            let three = after_call(h, HarnessOp::AppendEntry, seq![k, d, shown]);
            let before = crate::rows::rows::<(String, String, bool)>(h.queues.entries);
            &&& crate::rows::rows::<(String, String, bool)>(two.queues.entries) == before.push(
                (kind, data, true),
            )
            &&& crate::rows::rows::<(String, String, bool)>(three.queues.entries) == before.push(
                (kind, data, shown != crate::value::ValueView::Boolean(false)),
            )
            &&& three == h.with_queues(crate::queues::QueuesView { entries: three.queues.entries, ..h.queues })
        }),
{
    let k = crate::value::ValueView::Str(kind);
    let d = crate::value::ValueView::Str(data);
    crate::queues::lemma_entry_is_drained(h.queues, k, d, crate::value::ValueView::Nil);
    crate::queues::lemma_entry_is_drained(h.queues, k, d, shown);
}

/// Progress is drained as it was given, under the call that runs, and a rendered
/// line with its color, which is a keyword or a string.
pub proof fn lemma_progress_and_lines_reach_the_host(
    h: HarnessView,
    call: Seq<char>,
    color: Seq<char>,
    text: Seq<char>,
)
    requires
        h.complete(),
        h.current_tool_call == Some(call),
    ensures
        ({
            let t = crate::value::ValueView::Str(text);
            let q = h.queues;
            let emitted = after_call(h, HarnessOp::EmitToolProgress, seq![t]);
            let a = after_call(h, HarnessOp::Render, seq![crate::value::ValueView::Keyword(color), t]);
            let b = after_call(h, HarnessOp::Render, seq![crate::value::ValueView::Str(color), t]);
            &&& crate::rows::rows::<(String, String)>(emitted.queues.tool_progress)
                == crate::rows::rows::<(String, String)>(q.tool_progress).push((call, text))
            &&& emitted == h.with_queues(crate::queues::QueuesView { tool_progress: emitted.queues.tool_progress, ..q })
            &&& crate::rows::rows::<(String, String)>(a.queues.render_lines) == crate::rows::rows::<
                (String, String),
            >(q.render_lines).push((color, text))
            &&& a == h.with_queues(crate::queues::QueuesView { render_lines: a.queues.render_lines, ..q })
            &&& b == a
        }),
{
    let t = crate::value::ValueView::Str(text);
    crate::queues::lemma_progress_is_drained(h.queues, Some(call), t);
    crate::queues::lemma_rendered_line_is_drained(h.queues, crate::value::ValueView::Keyword(color), t);
}

/// Each change to the session tree is drained with the node, the label, the
/// parent or the session that was given. A label or a parent that is left out is
/// none. A fork restores the prompt text unless its position is `at`.
pub proof fn lemma_tree_changes_reach_the_host(
    h: HarnessView,
    id: Seq<char>,
    text: Seq<char>,
    position: crate::value::ValueView,
)
    requires
        h.complete(),
        position == crate::value::ValueView::Keyword(text) || position == crate::value::ValueView::Str(text),
    ensures
        ({
            let node = crate::value::ValueView::Str(id);
            let t = crate::value::ValueView::Str(text);
            let before = crate::rows::rows::<TreeOp>(h.queues.tree_ops);
            let labelled = after_call(h, HarnessOp::SetLabel, seq![node, t]);
            let bare = after_call(h, HarnessOp::SetLabel, seq![node]);
            let forked = after_call(h, HarnessOp::Fork, seq![node, position]);
            let plain = after_call(h, HarnessOp::Fork, seq![node]);
            let moved = after_call(h, HarnessOp::NavigateTree, seq![node]);
            let child = after_call(h, HarnessOp::NewSession, seq![node]);
            let root = after_call(h, HarnessOp::NewSession, Seq::empty());
            let switched = after_call(h, HarnessOp::SwitchSession, seq![node]);
            &&& crate::rows::rows::<TreeOp>(labelled.queues.tree_ops) == before.push(
                crate::tree::TreeOpView::SetLabel { id, label: Some(text) },
            )
            &&& crate::rows::rows::<TreeOp>(bare.queues.tree_ops) == before.push(
                crate::tree::TreeOpView::SetLabel { id, label: None },
            )
            &&& crate::rows::rows::<TreeOp>(forked.queues.tree_ops) == before.push(
                crate::tree::TreeOpView::Fork { id, restore_text: text != "at"@ },
            )
            &&& crate::rows::rows::<TreeOp>(plain.queues.tree_ops) == before.push(
                crate::tree::TreeOpView::Fork { id, restore_text: true },
            )
            &&& crate::rows::rows::<TreeOp>(moved.queues.tree_ops) == before.push(
                crate::tree::TreeOpView::NavigateTree { id },
            )
            &&& crate::rows::rows::<TreeOp>(child.queues.tree_ops) == before.push(
                crate::tree::TreeOpView::NewSession { parent: Some(id) },
            )
            &&& crate::rows::rows::<TreeOp>(root.queues.tree_ops) == before.push(
                crate::tree::TreeOpView::NewSession { parent: None },
            )
            &&& crate::rows::rows::<TreeOp>(switched.queues.tree_ops) == before.push(
                crate::tree::TreeOpView::SwitchSession { id_prefix: id },
            )
            &&& labelled == h.with_queues(
                crate::queues::QueuesView { tree_ops: labelled.queues.tree_ops, ..h.queues },
            )
            &&& forked == h.with_queues(crate::queues::QueuesView { tree_ops: forked.queues.tree_ops, ..h.queues })
            &&& moved == h.with_queues(crate::queues::QueuesView { tree_ops: moved.queues.tree_ops, ..h.queues })
            &&& child == h.with_queues(crate::queues::QueuesView { tree_ops: child.queues.tree_ops, ..h.queues })
            &&& switched == h.with_queues(
                crate::queues::QueuesView { tree_ops: switched.queues.tree_ops, ..h.queues },
            )
        }),
{
    let q = h.queues;
    let node = crate::value::ValueView::Str(id);
    let t = crate::value::ValueView::Str(text);
    let nil = crate::value::ValueView::Nil;
    crate::queues::lemma_tree_op_is_drained(q, crate::tree::set_label_op(node, t));
    crate::queues::lemma_tree_op_is_drained(q, crate::tree::set_label_op(node, nil));
    crate::queues::lemma_tree_op_is_drained(q, crate::tree::fork_op(node, position));
    crate::queues::lemma_tree_op_is_drained(q, crate::tree::fork_op(node, nil));
    crate::queues::lemma_tree_op_is_drained(q, crate::tree::navigate_op(node));
    crate::queues::lemma_tree_op_is_drained(q, crate::tree::new_session_op(node));
    crate::queues::lemma_tree_op_is_drained(q, crate::tree::new_session_op(nil));
    crate::queues::lemma_tree_op_is_drained(q, crate::tree::switch_op(node));
}

/// Commands and renderers are listed with the names and the handlers that were
/// given, each in its own registry.
pub proof fn lemma_handlers_reach_the_host(h: HarnessView, name: Seq<char>, handler: Seq<char>)
    requires
        h.complete(),
    ensures
        ({
            let args = seq![crate::value::ValueView::Str(name), crate::value::ValueView::Str(handler)];
            let r = h.registries;
            let a = after_call(h, HarnessOp::RegisterCommand, args);
            let b = after_call(h, HarnessOp::RegisterMessageRenderer, args);
            let c = after_call(h, HarnessOp::RegisterRenderer, args);
            &&& crate::registry::listing::<(String, String)>(a.registries.commands)
                == crate::registry::upsert::<(String, String)>(
                crate::registry::listing::<(String, String)>(r.commands),
                (name, handler),
            )
            &&& a == h.with_registries(
                crate::registry::RegistriesView { commands: a.registries.commands, ..r },
            )
            &&& crate::registry::listing::<(String, String)>(b.registries.message_renderers)
                == crate::registry::upsert::<(String, String)>(
                crate::registry::listing::<(String, String)>(r.message_renderers),
                (name, handler),
            )
            &&& b == h.with_registries(
                crate::registry::RegistriesView {
                    message_renderers: b.registries.message_renderers,
                    ..r
                },
            )
            &&& crate::registry::listing::<(String, String)>(c.registries.renderers)
                == crate::registry::upsert::<(String, String)>(
                crate::registry::listing::<(String, String)>(r.renderers),
                (name, handler),
            )
            &&& c == h.with_registries(
                crate::registry::RegistriesView { renderers: c.registries.renderers, ..r },
            )
        }),
{
    let n = crate::value::ValueView::Str(name);
    let f = crate::value::ValueView::Str(handler);
    crate::registry::lemma_pair_is_listed(h.registries.commands, n, f);
    crate::registry::lemma_pair_is_listed(h.registries.message_renderers, n, f);
    crate::registry::lemma_pair_is_listed(h.registries.renderers, n, f);
}

/// Providers and shortcuts are listed with all that was given: a key variable
/// that is left out is none, and a description that is left out is empty.
pub proof fn lemma_providers_and_shortcuts_reach_the_host(
    h: HarnessView,
    a: Seq<char>,
    b: Seq<char>,
    c: Seq<char>,
    d: Seq<char>,
)
    requires
        h.complete(),
        d.len() > 0,
    ensures
        ({
            let r = h.registries;
            let x = crate::value::ValueView::Str(a);
            let y = crate::value::ValueView::Str(b);
            let z = crate::value::ValueView::Str(c);
            let with = after_call(h, HarnessOp::RegisterProvider, seq![x, y, z, crate::value::ValueView::Str(d)]);
            let without = after_call(h, HarnessOp::RegisterProvider, seq![x, y, z]);
            let described = after_call(h, HarnessOp::RegisterShortcut, seq![x, y, z]);
            let bare = after_call(h, HarnessOp::RegisterShortcut, seq![x, y]);
            let providers = crate::registry::listing::<(String, String, String, Option<String>)>(
                r.providers,
            );
            let shortcuts = crate::registry::listing::<crate::registry::Shortcut>(r.shortcuts);
            &&& crate::registry::listing::<(String, String, String, Option<String>)>(
                with.registries.providers,
            ) == crate::registry::upsert::<(String, String, String, Option<String>)>(
                providers,
                (a, b, c, Some(d)),
            )
            &&& crate::registry::listing::<(String, String, String, Option<String>)>(
                without.registries.providers,
            ) == crate::registry::upsert::<(String, String, String, Option<String>)>(
                providers,
                (a, b, c, None),
            )
            &&& with == h.with_registries(
                crate::registry::RegistriesView { providers: with.registries.providers, ..r },
            )
            &&& crate::registry::listing::<crate::registry::Shortcut>(
                described.registries.shortcuts,
            ) == crate::registry::upsert::<crate::registry::Shortcut>(
                shortcuts,
                crate::registry::ShortcutView { keys: a, handler: b, description: c },
            )
            &&& crate::registry::listing::<crate::registry::Shortcut>(bare.registries.shortcuts)
                == crate::registry::upsert::<crate::registry::Shortcut>(
                shortcuts,
                crate::registry::ShortcutView { keys: a, handler: b, description: Seq::empty() },
            )
            &&& described == h.with_registries(
                crate::registry::RegistriesView { shortcuts: described.registries.shortcuts, ..r },
            )
        }),
{
    let r = h.registries;
    let x = crate::value::ValueView::Str(a);
    let y = crate::value::ValueView::Str(b);
    let z = crate::value::ValueView::Str(c);
    crate::registry::lemma_provider_is_listed(r, x, y, z, crate::value::ValueView::Str(d));
    crate::registry::lemma_provider_is_listed(r, x, y, z, crate::value::ValueView::Nil);
    crate::registry::lemma_shortcut_is_listed(r, x, y, z);
    crate::registry::lemma_shortcut_is_listed(r, x, y, crate::value::ValueView::Nil);
}

/// A tool is listed with all that was given. Its calls run one by one or side by
/// side where the plugin said so with a keyword or a string, and arguments are
/// prepared by the function that was named, if one was.
pub proof fn lemma_tool_reaches_the_host(
    h: HarnessView,
    tool: crate::registry::PluginToolMetaView,
    mode: Seq<char>,
    given: crate::value::ValueView,
    prepare: Seq<char>,
)
    requires
        h.complete(),
        crate::registry::valid_tool_name(tool.name),
        given == crate::value::ValueView::Keyword(mode) || given == crate::value::ValueView::Str(mode),
        prepare.len() > 0,
    ensures
        ({
            let r = h.registries;
            let five = seq![
                crate::value::ValueView::Str(tool.name),
                crate::value::ValueView::Str(tool.description),
                crate::value::ValueView::Str(tool.label),
                crate::value::ValueView::Str(tool.parameters),
                crate::value::ValueView::Str(tool.handler),
            ];
            let seven = five.push(given).push(crate::value::ValueView::Str(prepare));
            let plain = after_call(h, HarnessOp::RegisterTool, five);
            let full = after_call(h, HarnessOp::RegisterTool, seven);
            let before = crate::registry::listing::<crate::registry::PluginToolMeta>(r.tools);
            &&& crate::registry::listing::<crate::registry::PluginToolMeta>(plain.registries.tools)
                == crate::registry::upsert::<crate::registry::PluginToolMeta>(
                before,
                crate::registry::PluginToolMetaView {
                    execution_mode: None,
                    prepare_handler: None,
                    ..tool
                },
            )
            &&& crate::registry::listing::<crate::registry::PluginToolMeta>(full.registries.tools)
                == crate::registry::upsert::<crate::registry::PluginToolMeta>(
                before,
                crate::registry::PluginToolMetaView {
                    execution_mode: if mode == "sequential"@ || mode == "parallel"@ {
                        Some(mode)
                    } else {
                        None
                    },
                    prepare_handler: Some(prepare),
                    ..tool
                },
            )
            &&& full == h.with_registries(
                crate::registry::RegistriesView { tools: full.registries.tools, ..r },
            )
        }),
{
    reveal_strlit("sequential");
    reveal_strlit("parallel");
    assert("sequential"@.len() == 10 && "parallel"@.len() == 8);
    let r = h.registries;
    let five = seq![
        crate::value::ValueView::Str(tool.name),
        crate::value::ValueView::Str(tool.description),
        crate::value::ValueView::Str(tool.label),
        crate::value::ValueView::Str(tool.parameters),
        crate::value::ValueView::Str(tool.handler),
    ];
    let seven = five.push(given).push(crate::value::ValueView::Str(prepare));
    crate::registry::lemma_tool_is_listed(r, five);
    crate::registry::lemma_tool_is_listed(r, seven);
    assert forall|i: int| 0 <= i < 5 implies (#[trigger] crate::value::arg(five, i)).text() is Some
        && crate::value::arg(seven, i) == crate::value::arg(five, i) by {
        assert(seven[i] == five[i]);
    }
    assert(seven[5] == given && seven[6] == crate::value::ValueView::Str(prepare));
}

/// With a responder the bridge hands on what plugin code asks for: the listing,
/// and a call with the name and the arguments that were given, or with an empty
/// object for arguments that are left out. A name or arguments of another kind
/// raise an error.
pub proof fn lemma_bridge_hands_calls_on(
    h: HarnessView,
    name: Seq<char>,
    json: Seq<char>,
    bad: crate::value::ValueView,
    args: Seq<crate::value::ValueView>,
)
    requires
        h.responder,
        !(bad is Str),
    ensures
        reply_to(h, HarnessOp::HasTools, args) == HarnessReplyView::Return(crate::value::ValueView::Boolean(true)),
        reply_to(h, HarnessOp::ListTools, args) == HarnessReplyView::ListTools,
        ({
            let n = crate::value::ValueView::Str(name);
            &&& reply_to(h, HarnessOp::CallTool, seq![n, crate::value::ValueView::Str(json)]) == (
            HarnessReplyView::CallTool { name, args: json })
            &&& reply_to(h, HarnessOp::CallTool, seq![n]) == (HarnessReplyView::CallTool {
                name,
                args: "{}"@,
            })
            &&& reply_to(h, HarnessOp::CallTool, seq![bad]) is Raise
            &&& !(bad is Nil) ==> reply_to(h, HarnessOp::CallTool, seq![n, bad]) is Raise
        }),
{
}

/// A question reaches the user with the title, the question and the options that
/// plugin code gave.
pub proof fn lemma_questions_reach_the_user(
    h: HarnessView,
    title: Seq<char>,
    question: Seq<char>,
    options: Seq<Seq<char>>,
    shown: Seq<char>,
)
    ensures
        ({
            let t = crate::value::ValueView::Str(title);
            &&& reply_to(h, HarnessOp::Confirm, seq![t, crate::value::ValueView::Str(question)])
                == HarnessReplyView::Ask(
                crate::session::DialogRequestView::Confirm { title, question },
            )
            &&& reply_to(h, HarnessOp::Select, seq![t, crate::value::ValueView::List { items: options, shown }])
                == HarnessReplyView::Ask(
                crate::session::DialogRequestView::Select { title, options },
            )
        }),
{
}

/// A question without its texts or its options is not asked, and a function that
/// changes the harness returns nil.
pub proof fn lemma_other_calls_return_nil(
    h: HarnessView,
    op: HarnessOp,
    args: Seq<crate::value::ValueView>,
)
    requires
        match op {
            HarnessOp::HasTools => false,
            HarnessOp::ListTools => false,
            HarnessOp::CallTool => false,
            HarnessOp::PluginEnabled => false,
            HarnessOp::PluginAutoStart => false,
            HarnessOp::Confirm => args.len() < 2 || !(args[0] is Str) || !(args[1] is Str),
            HarnessOp::Select => args.len() < 2 || !(args[0] is Str) || !(args[1] is List),
            _ => true,
        },
    ensures
        reply_to(h, op, args) == HarnessReplyView::Return(crate::value::ValueView::Nil),
{
}

/// A variable holds the string that was assigned to it, whole, and the other
/// variables and all else stay as they were. A value that is neither a string
/// nor nil assigns nothing.
pub proof fn lemma_assignment_changes_one_variable(
    h: HarnessView,
    var: HarnessVar,
    other: HarnessVar,
    text: Seq<char>,
    bad: crate::value::ValueView,
)
    requires
        other != var,
        !(bad is Str) && !(bad is Nil),
    ensures
        ({
            let after = var_assigned(h, var, crate::value::ValueView::Str(text));
            &&& var_value(after, var) == crate::value::ValueView::Str(text)
            &&& var_value(after, other) == var_value(h, other)
            &&& after.slots == h.slots
            &&& after.registries == h.registries
            &&& after.responder == h.responder
            &&& after.loading == h.loading
            &&& after.queues == (crate::queues::QueuesView {
                notifications: after.queues.notifications,
                tree_ops: after.queues.tree_ops,
                ..h.queues
            })
            &&& var == HarnessVar::Notifications ==> after.queues.notifications == text
            &&& var == HarnessVar::TreeOps ==> after.queues.tree_ops == text
            &&& var == HarnessVar::Response ==> after.response == Some(text)
            &&& var == HarnessVar::CurrentToolCall ==> after.current_tool_call == Some(text)
            &&& var_assigned(h, var, bad) == h
        }),
{
}

/// A function that needs more than one string does nothing where one of them is
/// of another kind.
pub proof fn lemma_functions_need_all_their_strings(
    h: HarnessView,
    a: crate::value::ValueView,
    b: crate::value::ValueView,
    c: crate::value::ValueView,
    tool: Seq<crate::value::ValueView>,
    i: int,
)
    requires
        !(b is Str),
        !(c is Str),
        0 <= i < 5,
        i < tool.len() ==> !(tool[i] is Str),
    ensures
        after_call(h, HarnessOp::AppendEntry, seq![a, b]) == h,
        after_call(h, HarnessOp::RegisterCommand, seq![a, b]) == h,
        after_call(h, HarnessOp::RegisterMessageRenderer, seq![a, b]) == h,
        after_call(h, HarnessOp::RegisterRenderer, seq![a, b]) == h,
        after_call(h, HarnessOp::RegisterShortcut, seq![a, b]) == h,
        after_call(h, HarnessOp::RegisterProvider, seq![a, b, crate::value::ValueView::Str(Seq::empty())]) == h,
        after_call(h, HarnessOp::RegisterProvider, seq![a, a, c]) == h,
        after_call(h, HarnessOp::RegisterTool, tool) == h,
        !(b is Nil) ==> after_call(h, HarnessOp::AddCustomMessage, seq![a, b]) == h,
        !(b is Nil) ==> after_call(h, HarnessOp::SetLabel, seq![a, b]) == h,
        !(b is Keyword) ==> after_call(
            h,
            HarnessOp::Render,
            seq![b, crate::value::ValueView::Str(Seq::empty())],
        ) == h,
{
    assert(crate::value::arg(tool, i).text() is None);
}

/// Where an argument that may be left out is of another kind, it counts as left
/// out: a notification is an `info`, a fork restores the prompt text, a provider
/// has no key variable, and a shortcut no description. An empty key variable is
/// none as well.
pub proof fn lemma_optional_arguments_of_another_kind_are_left_out(
    h: HarnessView,
    x: crate::value::ValueView,
    bad: crate::value::ValueView,
)
    requires
        !(bad is Str) && !(bad is Keyword),
    ensures
        after_call(h, HarnessOp::Notify, seq![x, bad]) == after_call(
            h,
            HarnessOp::Notify,
            seq![x],
        ),
        after_call(h, HarnessOp::Fork, seq![x, bad]) == after_call(h, HarnessOp::Fork, seq![x]),
        after_call(h, HarnessOp::RegisterProvider, seq![x, x, x, bad]) == after_call(
            h,
            HarnessOp::RegisterProvider,
            seq![x, x, x],
        ),
        after_call(h, HarnessOp::RegisterProvider, seq![x, x, x, crate::value::ValueView::Str(Seq::empty())])
            == after_call(h, HarnessOp::RegisterProvider, seq![x, x, x]),
        after_call(h, HarnessOp::RegisterShortcut, seq![x, x, bad]) == after_call(
            h,
            HarnessOp::RegisterShortcut,
            seq![x, x],
        ),
{
}

/// A tool whose mode is neither a keyword nor a string has none, and one whose
/// function for the arguments is no string, or an empty one, prepares nothing.
pub proof fn lemma_tool_options_of_another_kind_are_left_out(
    five: Seq<crate::value::ValueView>,
    mode: crate::value::ValueView,
    prepare: crate::value::ValueView,
)
    requires
        five.len() == 5,
        !(mode is Str) && !(mode is Keyword),
        !(prepare is Str) || prepare == crate::value::ValueView::Str(Seq::empty()),
    ensures
        crate::registry::tool_fields(five.push(mode).push(prepare))
            == crate::registry::tool_fields(five),
        crate::registry::tool_fields(five)[5].len() == 0,
        crate::registry::tool_fields(five)[6].len() == 0,
{
    let all = five.push(mode).push(prepare);
    assert(all[0] == five[0] && all[1] == five[1] && all[2] == five[2] && all[3] == five[3]
        && all[4] == five[4] && all[5] == mode && all[6] == prepare);
    assert(crate::registry::tool_fields(all) =~= crate::registry::tool_fields(five));
}

} // verus!
