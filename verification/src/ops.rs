//! The functions of the harness and their names.
use vstd::prelude::*;

use crate::text::same_text;

verus! {

/// The functions that the harness offers to plugin code.
#[derive(Clone, Copy, Debug, PartialEq, Eq, Structural)]
pub enum HarnessOp {
    RequestPrompt,
    Block,
    MutateInput,
    ReplaceResult,
    ReplacePrompt,
    AppendSystemPrompt,
    Notify,
    PushHookErr,
    Log,
    AddSteering,
    AddFollowup,
    AddCustomMessage,
    AppendEntry,
    EmitToolProgress,
    Render,
    SetLabel,
    Fork,
    NavigateTree,
    NewSession,
    SwitchSession,
    RegisterCommand,
    RegisterProvider,
    RegisterTool,
    RegisterShortcut,
    RegisterMessageRenderer,
    RegisterRenderer,
    HasTools,
    ListTools,
    CallTool,
    Confirm,
    Select,
    PluginEnabled,
    PluginAutoStart,
}

/// The name under which plugin code calls a function.
pub open spec fn op_name(op: HarnessOp) -> Seq<char> {
    match op {
        HarnessOp::RequestPrompt => "harness/request-prompt"@,
        HarnessOp::Block => "harness/block"@,
        HarnessOp::MutateInput => "harness/mutate-input"@,
        HarnessOp::ReplaceResult => "harness/replace-result"@,
        HarnessOp::ReplacePrompt => "harness/replace-prompt"@,
        HarnessOp::AppendSystemPrompt => "harness/append-system-prompt"@,
        HarnessOp::Notify => "harness/notify"@,
        HarnessOp::PushHookErr => "harness/push-hook-err"@,
        HarnessOp::Log => "harness/log"@,
        HarnessOp::AddSteering => "harness/add-steering"@,
        HarnessOp::AddFollowup => "harness/add-followup"@,
        HarnessOp::AddCustomMessage => "harness/add-custom-message"@,
        HarnessOp::AppendEntry => "harness/append-entry"@,
        HarnessOp::EmitToolProgress => "harness/emit-tool-progress"@,
        HarnessOp::Render => "harness/render"@,
        HarnessOp::SetLabel => "harness/set-label"@,
        HarnessOp::Fork => "harness/fork"@,
        HarnessOp::NavigateTree => "harness/navigate-tree"@,
        HarnessOp::NewSession => "harness/new-session"@,
        HarnessOp::SwitchSession => "harness/switch-session"@,
        HarnessOp::RegisterCommand => "harness/register-command"@,
        HarnessOp::RegisterProvider => "harness/register-provider"@,
        HarnessOp::RegisterTool => "harness/register-tool"@,
        HarnessOp::RegisterShortcut => "harness/register-shortcut"@,
        HarnessOp::RegisterMessageRenderer => "harness/register-message-renderer"@,
        HarnessOp::RegisterRenderer => "harness/register-renderer"@,
        HarnessOp::HasTools => "harness/tools?"@,
        HarnessOp::ListTools => "harness/list-tools"@,
        HarnessOp::CallTool => "harness/call-tool"@,
        HarnessOp::Confirm => "harness/confirm"@,
        HarnessOp::Select => "harness/select"@,
        HarnessOp::PluginEnabled => "harness/plugin-enabled?"@,
        HarnessOp::PluginAutoStart => "harness/plugin-auto-start?"@,
    }
}

/// Finds the function of that name.
pub fn op_named(name: &str) -> (op: Option<HarnessOp>)
    ensures
        op matches Some(found) ==> op_name(found) == name@,
        op is None ==> forall|other: HarnessOp| #[trigger] op_name(other) != name@,
{
    if same_text(name, "harness/request-prompt") {
        Some(HarnessOp::RequestPrompt)
    } else if same_text(name, "harness/block") {
        Some(HarnessOp::Block)
    } else if same_text(name, "harness/mutate-input") {
        Some(HarnessOp::MutateInput)
    } else if same_text(name, "harness/replace-result") {
        Some(HarnessOp::ReplaceResult)
    } else if same_text(name, "harness/replace-prompt") {
        Some(HarnessOp::ReplacePrompt)
    } else if same_text(name, "harness/append-system-prompt") {
        Some(HarnessOp::AppendSystemPrompt)
    } else if same_text(name, "harness/notify") {
        Some(HarnessOp::Notify)
    } else if same_text(name, "harness/push-hook-err") {
        Some(HarnessOp::PushHookErr)
    } else if same_text(name, "harness/log") {
        Some(HarnessOp::Log)
    } else if same_text(name, "harness/add-steering") {
        Some(HarnessOp::AddSteering)
    } else if same_text(name, "harness/add-followup") {
        Some(HarnessOp::AddFollowup)
    } else if same_text(name, "harness/add-custom-message") {
        Some(HarnessOp::AddCustomMessage)
    } else if same_text(name, "harness/append-entry") {
        Some(HarnessOp::AppendEntry)
    } else if same_text(name, "harness/emit-tool-progress") {
        Some(HarnessOp::EmitToolProgress)
    } else if same_text(name, "harness/render") {
        Some(HarnessOp::Render)
    } else if same_text(name, "harness/set-label") {
        Some(HarnessOp::SetLabel)
    } else if same_text(name, "harness/fork") {
        Some(HarnessOp::Fork)
    } else if same_text(name, "harness/navigate-tree") {
        Some(HarnessOp::NavigateTree)
    } else if same_text(name, "harness/new-session") {
        Some(HarnessOp::NewSession)
    } else if same_text(name, "harness/switch-session") {
        Some(HarnessOp::SwitchSession)
    } else if same_text(name, "harness/register-command") {
        Some(HarnessOp::RegisterCommand)
    } else if same_text(name, "harness/register-provider") {
        Some(HarnessOp::RegisterProvider)
    } else if same_text(name, "harness/register-tool") {
        Some(HarnessOp::RegisterTool)
    } else if same_text(name, "harness/register-shortcut") {
        Some(HarnessOp::RegisterShortcut)
    } else if same_text(name, "harness/register-message-renderer") {
        Some(HarnessOp::RegisterMessageRenderer)
    } else if same_text(name, "harness/register-renderer") {
        Some(HarnessOp::RegisterRenderer)
    } else if same_text(name, "harness/tools?") {
        Some(HarnessOp::HasTools)
    } else if same_text(name, "harness/list-tools") {
        Some(HarnessOp::ListTools)
    } else if same_text(name, "harness/call-tool") {
        Some(HarnessOp::CallTool)
    } else if same_text(name, "harness/confirm") {
        Some(HarnessOp::Confirm)
    } else if same_text(name, "harness/select") {
        Some(HarnessOp::Select)
    } else if same_text(name, "harness/plugin-enabled?") {
        Some(HarnessOp::PluginEnabled)
    } else if same_text(name, "harness/plugin-auto-start?") {
        Some(HarnessOp::PluginAutoStart)
    } else {
        None
    }
}

/// No two functions share a name.
pub proof fn lemma_op_names_are_distinct(a: HarnessOp, b: HarnessOp)
    requires
        op_name(a) == op_name(b),
    ensures
        a == b,
{
    reveal_strlit("harness/request-prompt");
    reveal_strlit("harness/block");
    reveal_strlit("harness/mutate-input");
    reveal_strlit("harness/replace-result");
    reveal_strlit("harness/replace-prompt");
    reveal_strlit("harness/append-system-prompt");
    reveal_strlit("harness/notify");
    reveal_strlit("harness/push-hook-err");
    reveal_strlit("harness/log");
    reveal_strlit("harness/add-steering");
    reveal_strlit("harness/add-followup");
    reveal_strlit("harness/add-custom-message");
    reveal_strlit("harness/append-entry");
    reveal_strlit("harness/emit-tool-progress");
    reveal_strlit("harness/render");
    reveal_strlit("harness/set-label");
    reveal_strlit("harness/fork");
    reveal_strlit("harness/navigate-tree");
    reveal_strlit("harness/new-session");
    reveal_strlit("harness/switch-session");
    reveal_strlit("harness/register-command");
    reveal_strlit("harness/register-provider");
    reveal_strlit("harness/register-tool");
    reveal_strlit("harness/register-shortcut");
    reveal_strlit("harness/register-message-renderer");
    reveal_strlit("harness/register-renderer");
    reveal_strlit("harness/tools?");
    reveal_strlit("harness/list-tools");
    reveal_strlit("harness/call-tool");
    reveal_strlit("harness/confirm");
    reveal_strlit("harness/select");
    reveal_strlit("harness/plugin-enabled?");
    reveal_strlit("harness/plugin-auto-start?");
    assert("harness/request-prompt"@.len() == 22);
    assert("harness/block"@.len() == 13);
    assert("harness/mutate-input"@.len() == 20);
    assert("harness/replace-result"@.len() == 22);
    assert("harness/replace-prompt"@.len() == 22);
    assert("harness/append-system-prompt"@.len() == 28);
    assert("harness/notify"@.len() == 14);
    assert("harness/push-hook-err"@.len() == 21);
    assert("harness/log"@.len() == 11);
    assert("harness/add-steering"@.len() == 20);
    assert("harness/add-followup"@.len() == 20);
    assert("harness/add-custom-message"@.len() == 26);
    assert("harness/append-entry"@.len() == 20);
    assert("harness/emit-tool-progress"@.len() == 26);
    assert("harness/render"@.len() == 14);
    assert("harness/set-label"@.len() == 17);
    assert("harness/fork"@.len() == 12);
    assert("harness/navigate-tree"@.len() == 21);
    assert("harness/new-session"@.len() == 19);
    assert("harness/switch-session"@.len() == 22);
    assert("harness/register-command"@.len() == 24);
    assert("harness/register-provider"@.len() == 25);
    assert("harness/register-tool"@.len() == 21);
    assert("harness/register-shortcut"@.len() == 25);
    assert("harness/register-message-renderer"@.len() == 33);
    assert("harness/register-renderer"@.len() == 25);
    assert("harness/tools?"@.len() == 14);
    assert("harness/list-tools"@.len() == 18);
    assert("harness/call-tool"@.len() == 17);
    assert("harness/confirm"@.len() == 15);
    assert("harness/select"@.len() == 14);
    assert("harness/plugin-enabled?"@.len() == 23);
    assert("harness/plugin-auto-start?"@.len() == 26);
    assert("harness/request-prompt"@[10] == 'q');
    assert("harness/request-prompt"@[16] == 'p');
    assert("harness/replace-result"@[10] == 'p');
    assert("harness/replace-result"@[16] == 'r');
    assert("harness/replace-prompt"@[10] == 'p');
    assert("harness/replace-prompt"@[16] == 'p');
    assert("harness/switch-session"@[10] == 'i');
    assert("harness/switch-session"@[16] == 'e');
    assert("harness/mutate-input"@[12] == 't');
    assert("harness/add-steering"@[12] == 's');
    assert("harness/add-followup"@[12] == 'f');
    assert("harness/append-entry"@[12] == 'n');
    assert("harness/notify"@[8] == 'n');
    assert("harness/render"@[8] == 'r');
    assert("harness/tools?"@[8] == 't');
    assert("harness/select"@[8] == 's');
    assert("harness/push-hook-err"@[8] == 'p');
    assert("harness/navigate-tree"@[8] == 'n');
    assert("harness/register-tool"@[8] == 'r');
    assert("harness/add-custom-message"@[8] == 'a');
    assert("harness/emit-tool-progress"@[8] == 'e');
    assert("harness/plugin-auto-start?"@[8] == 'p');
    assert("harness/set-label"@[8] == 's');
    assert("harness/call-tool"@[8] == 'c');
    assert("harness/register-provider"@[17] == 'p');
    assert("harness/register-shortcut"@[17] == 's');
    assert("harness/register-renderer"@[17] == 'r');
}

} // verus!
