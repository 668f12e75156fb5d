//! The Janet source that gives plugin code the functions and the variables of
//! the harness.
//!
//! The engine defines three functions: `harness/-call` takes the name of a
//! function of the harness and its arguments, `harness/-get` the name of a
//! variable, and `harness/-set` the name of a variable and its new value. The
//! prelude defines everything else through them. The variables are ordinary
//! variables of Janet. `harness/-pull` fills them with what the harness holds,
//! and `harness/-push` writes them back. The engine pulls before it evaluates
//! source and pushes after it, and a function of the harness pushes before its
//! call and pulls after it, so that plugin code reads and assigns the harness
//! itself.
use vstd::prelude::*;

use crate::escape::janet_literal;
use crate::harness::HarnessVar;
use crate::ops::HarnessOp;

verus! {

/// All functions of the harness.
pub open spec fn all_ops() -> Seq<HarnessOp> {
    seq![
        HarnessOp::RequestPrompt,
        HarnessOp::Block,
        HarnessOp::MutateInput,
        HarnessOp::ReplaceResult,
        HarnessOp::ReplacePrompt,
        HarnessOp::AppendSystemPrompt,
        HarnessOp::Notify,
        HarnessOp::PushHookErr,
        HarnessOp::Log,
        HarnessOp::AddSteering,
        HarnessOp::AddFollowup,
        HarnessOp::AddCustomMessage,
        HarnessOp::AppendEntry,
        HarnessOp::EmitToolProgress,
        HarnessOp::Render,
        HarnessOp::SetLabel,
        HarnessOp::Fork,
        HarnessOp::NavigateTree,
        HarnessOp::NewSession,
        HarnessOp::SwitchSession,
        HarnessOp::RegisterCommand,
        HarnessOp::RegisterProvider,
        HarnessOp::RegisterTool,
        HarnessOp::RegisterShortcut,
        HarnessOp::RegisterMessageRenderer,
        HarnessOp::RegisterRenderer,
        HarnessOp::HasTools,
        HarnessOp::ListTools,
        HarnessOp::CallTool,
        HarnessOp::Confirm,
        HarnessOp::Select,
        HarnessOp::PluginEnabled,
        HarnessOp::PluginAutoStart,
    ]
}

/// All variables of the harness.
pub open spec fn all_vars() -> Seq<HarnessVar> {
    seq![
        HarnessVar::Response,
        HarnessVar::CurrentToolCall,
        HarnessVar::Notifications,
        HarnessVar::TreeOps,
    ]
}

/// Texts one behind the other.
pub open spec fn joined(parts: Seq<Seq<char>>) -> Seq<char>
    decreases parts.len(),
{
    if parts.len() == 0 {
        Seq::empty()
    } else {
        joined(parts.drop_last()) + parts.last()
    }
}

/// The definition of a variable.
pub open spec fn var_form(name: Seq<char>) -> Seq<char> {
    "(var "@ + name + " nil)\n"@
}

/// Fills a variable with what the harness holds.
pub open spec fn pull_form(name: Seq<char>) -> Seq<char> {
    " (set "@ + name + " (harness/-get "@ + crate::escape::literal(name) + "))"@
}

/// Writes a variable back to the harness.
pub open spec fn push_form(name: Seq<char>) -> Seq<char> {
    " (harness/-set "@ + crate::escape::literal(name) + " "@ + name + ")"@
}

/// The definition of a function through those that the engine defines.
pub open spec fn forward_form(name: Seq<char>) -> Seq<char> {
    "(defn "@ + name + " [& args] (harness/-push) (let [out (harness/-call "@
        + crate::escape::literal(name) + " ;args)] (harness/-pull) out))\n"@
}

/// The definitions of all variables.
pub open spec fn var_forms() -> Seq<Seq<char>> {
    all_vars().map_values(|var: HarnessVar| var_form(crate::harness::var_name(var)))
}

/// What fills all variables.
pub open spec fn pull_forms() -> Seq<Seq<char>> {
    all_vars().map_values(|var: HarnessVar| pull_form(crate::harness::var_name(var)))
}

/// What writes all variables back.
pub open spec fn push_forms() -> Seq<Seq<char>> {
    all_vars().map_values(|var: HarnessVar| push_form(crate::harness::var_name(var)))
}

/// The definitions of all functions.
pub open spec fn forward_forms() -> Seq<Seq<char>> {
    all_ops().map_values(|op: HarnessOp| forward_form(crate::ops::op_name(op)))
}

/// The variables, and how they are filled and written back.
pub open spec fn variables_form() -> Seq<char> {
    joined(var_forms()) + "(defn harness/-pull []"@ + joined(pull_forms())
        + ")\n(defn harness/-push []"@ + joined(push_forms()) + ")\n"@
}

/// The set of tools that computer use may not call, the question whether a
/// symbol is bound, and the first values of the variables.
pub open spec fn extras_form() -> Seq<char> {
    "(var harness/computer-use-deny-tools @{})\n"@
        + "(defn harness/has-symbol? [name] (not (nil? (get (curenv) (symbol name)))))\n"@
        + "(harness/-pull)\n"@
}

/// The prelude.
pub open spec fn prelude_form() -> Seq<char> {
    variables_form() + joined(forward_forms()) + extras_form()
}

fn op_text(op: HarnessOp) -> (out: String)
    ensures
        out@ == crate::ops::op_name(op),
{
    match op {
        HarnessOp::RequestPrompt => "harness/request-prompt".to_owned(),
        HarnessOp::Block => "harness/block".to_owned(),
        HarnessOp::MutateInput => "harness/mutate-input".to_owned(),
        HarnessOp::ReplaceResult => "harness/replace-result".to_owned(),
        HarnessOp::ReplacePrompt => "harness/replace-prompt".to_owned(),
        HarnessOp::AppendSystemPrompt => "harness/append-system-prompt".to_owned(),
        HarnessOp::Notify => "harness/notify".to_owned(),
        HarnessOp::PushHookErr => "harness/push-hook-err".to_owned(),
        HarnessOp::Log => "harness/log".to_owned(),
        HarnessOp::AddSteering => "harness/add-steering".to_owned(),
        HarnessOp::AddFollowup => "harness/add-followup".to_owned(),
        HarnessOp::AddCustomMessage => "harness/add-custom-message".to_owned(),
        HarnessOp::AppendEntry => "harness/append-entry".to_owned(),
        HarnessOp::EmitToolProgress => "harness/emit-tool-progress".to_owned(),
        HarnessOp::Render => "harness/render".to_owned(),
        HarnessOp::SetLabel => "harness/set-label".to_owned(),
        HarnessOp::Fork => "harness/fork".to_owned(),
        HarnessOp::NavigateTree => "harness/navigate-tree".to_owned(),
        HarnessOp::NewSession => "harness/new-session".to_owned(),
        HarnessOp::SwitchSession => "harness/switch-session".to_owned(),
        HarnessOp::RegisterCommand => "harness/register-command".to_owned(),
        HarnessOp::RegisterProvider => "harness/register-provider".to_owned(),
        HarnessOp::RegisterTool => "harness/register-tool".to_owned(),
        HarnessOp::RegisterShortcut => "harness/register-shortcut".to_owned(),
        HarnessOp::RegisterMessageRenderer => "harness/register-message-renderer".to_owned(),
        HarnessOp::RegisterRenderer => "harness/register-renderer".to_owned(),
        HarnessOp::HasTools => "harness/tools?".to_owned(),
        HarnessOp::ListTools => "harness/list-tools".to_owned(),
        HarnessOp::CallTool => "harness/call-tool".to_owned(),
        HarnessOp::Confirm => "harness/confirm".to_owned(),
        HarnessOp::Select => "harness/select".to_owned(),
        HarnessOp::PluginEnabled => "harness/plugin-enabled?".to_owned(),
        HarnessOp::PluginAutoStart => "harness/plugin-auto-start?".to_owned(),
    }
}

fn op_list() -> (out: Vec<HarnessOp>)
    ensures
        out@ == all_ops(),
{
    let mut out: Vec<HarnessOp> = Vec::new();
    out.push(HarnessOp::RequestPrompt);
    out.push(HarnessOp::Block);
    out.push(HarnessOp::MutateInput);
    out.push(HarnessOp::ReplaceResult);
    out.push(HarnessOp::ReplacePrompt);
    out.push(HarnessOp::AppendSystemPrompt);
    out.push(HarnessOp::Notify);
    out.push(HarnessOp::PushHookErr);
    out.push(HarnessOp::Log);
    out.push(HarnessOp::AddSteering);
    out.push(HarnessOp::AddFollowup);
    out.push(HarnessOp::AddCustomMessage);
    out.push(HarnessOp::AppendEntry);
    out.push(HarnessOp::EmitToolProgress);
    out.push(HarnessOp::Render);
    out.push(HarnessOp::SetLabel);
    out.push(HarnessOp::Fork);
    out.push(HarnessOp::NavigateTree);
    out.push(HarnessOp::NewSession);
    out.push(HarnessOp::SwitchSession);
    out.push(HarnessOp::RegisterCommand);
    out.push(HarnessOp::RegisterProvider);
    out.push(HarnessOp::RegisterTool);
    out.push(HarnessOp::RegisterShortcut);
    out.push(HarnessOp::RegisterMessageRenderer);
    out.push(HarnessOp::RegisterRenderer);
    out.push(HarnessOp::HasTools);
    out.push(HarnessOp::ListTools);
    out.push(HarnessOp::CallTool);
    out.push(HarnessOp::Confirm);
    out.push(HarnessOp::Select);
    out.push(HarnessOp::PluginEnabled);
    out.push(HarnessOp::PluginAutoStart);
    assert(out@ =~= all_ops());
    out
}

fn var_text(var: HarnessVar) -> (out: String)
    ensures
        out@ == crate::harness::var_name(var),
{
    match var {
        HarnessVar::Response => "harness-response".to_owned(),
        HarnessVar::CurrentToolCall => "harness-current-tool-call".to_owned(),
        HarnessVar::Notifications => "harness-notif-list".to_owned(),
        HarnessVar::TreeOps => "harness-tree-ops".to_owned(),
    }
}

fn var_list() -> (out: Vec<HarnessVar>)
    ensures
        out@ == all_vars(),
{
    let mut out: Vec<HarnessVar> = Vec::new();
    out.push(HarnessVar::Response);
    out.push(HarnessVar::CurrentToolCall);
    out.push(HarnessVar::Notifications);
    out.push(HarnessVar::TreeOps);
    assert(out@ =~= all_vars());
    out
}

proof fn lemma_joined_next(parts: Seq<Seq<char>>, i: int)
    requires
        0 <= i < parts.len(),
    ensures
        joined(parts.take(i + 1)) == joined(parts.take(i)) + parts[i],
{
    assert(parts.take(i + 1).drop_last() =~= parts.take(i));
}

fn variables_source() -> (out: String)
    ensures
        out@ == variables_form(),
{
    let vars = var_list();
    let mut defs = String::new();
    let mut pulls = String::new();
    let mut pushes = String::new();
    let mut i: usize = 0;
    assert(var_forms().take(0) =~= Seq::empty());
    assert(pull_forms().take(0) =~= Seq::empty());
    assert(push_forms().take(0) =~= Seq::empty());
    assert(defs@ =~= Seq::<char>::empty());
    while i < vars.len()
        invariant
            i <= vars@.len(),
            vars@ == all_vars(),
            defs@ == joined(var_forms().take(i as int)),
            pulls@ == joined(pull_forms().take(i as int)),
            pushes@ == joined(push_forms().take(i as int)),
        decreases vars@.len() - i,
    {
        let name = var_text(vars[i]);
        let quoted = janet_literal(name.as_str());
        let ghost before = (defs@, pulls@, pushes@);
        defs.append("(var ");
        defs.append(name.as_str());
        defs.append(" nil)\n");
        pulls.append(" (set ");
        pulls.append(name.as_str());
        pulls.append(" (harness/-get ");
        pulls.append(quoted.as_str());
        pulls.append("))");
        pushes.append(" (harness/-set ");
        pushes.append(quoted.as_str());
        pushes.append(" ");
        pushes.append(name.as_str());
        pushes.append(")");
        proof {
            lemma_joined_next(var_forms(), i as int);
            lemma_joined_next(pull_forms(), i as int);
            lemma_joined_next(push_forms(), i as int);
            assert(defs@ =~= before.0 + var_form(name@));
            assert(pulls@ =~= before.1 + pull_form(name@));
            assert(pushes@ =~= before.2 + push_form(name@));
        }
        i = i + 1;
    }
    assert(var_forms().take(i as int) =~= var_forms());
    assert(pull_forms().take(i as int) =~= pull_forms());
    assert(push_forms().take(i as int) =~= push_forms());
    let mut out = defs;
    out.append("(defn harness/-pull []");
    out.append(pulls.as_str());
    out.append(")\n(defn harness/-push []");
    out.append(pushes.as_str());
    out.append(")\n");
    out
}

/// Writes the prelude.
pub fn prelude_source() -> (out: String)
    ensures
        out@ == prelude_form(),
{
    let ops = op_list();
    let mut out = variables_source();
    let mut i: usize = 0;
    assert(forward_forms().take(0) =~= Seq::empty());
    assert(out@ =~= variables_form() + joined(forward_forms().take(0)));
    while i < ops.len()
        invariant
            i <= ops@.len(),
            ops@ == all_ops(),
            out@ == variables_form() + joined(forward_forms().take(i as int)),
        decreases ops@.len() - i,
    {
        let name = op_text(ops[i]);
        let ghost before = out@;
        out.append("(defn ");
        out.append(name.as_str());
        out.append(" [& args] (harness/-push) (let [out (harness/-call ");
        out.append(janet_literal(name.as_str()).as_str());
        out.append(" ;args)] (harness/-pull) out))\n");
        proof {
            lemma_joined_next(forward_forms(), i as int);
            assert(out@ =~= before + forward_form(name@));
            assert(out@ =~= variables_form() + joined(forward_forms().take(i + 1)));
        }
        i = i + 1;
    }
    assert(forward_forms().take(i as int) =~= forward_forms());
    let ghost before = out@;
    out.append("(var harness/computer-use-deny-tools @{})\n");
    out.append("(defn harness/has-symbol? [name] (not (nil? (get (curenv) (symbol name)))))\n");
    out.append("(harness/-pull)\n");
    assert(out@ =~= before + extras_form());
    out
}

/// The source that the engine evaluates before other source.
pub fn pull_source() -> (out: String)
    ensures
        out@ == "(harness/-pull)"@,
{
    "(harness/-pull)".to_owned()
}

/// The source that the engine evaluates after other source, also after source
/// that has raised an error.
pub fn push_source() -> (out: String)
    ensures
        out@ == "(harness/-push)"@,
{
    "(harness/-push)".to_owned()
}

// ---------------------------------------------------------------------
// Laws
// ---------------------------------------------------------------------

/// Whether a text stands somewhere in another.
pub open spec fn stands_in(part: Seq<char>, whole: Seq<char>) -> bool {
    exists|head: Seq<char>, tail: Seq<char>| whole == #[trigger] (head + (part + tail))
}

proof fn lemma_part_stands_in(parts: Seq<Seq<char>>, i: int)
    requires
        0 <= i < parts.len(),
    ensures
        stands_in(parts[i], joined(parts)),
    decreases parts.len(),
{
    if i == parts.len() - 1 {
        let head = joined(parts.drop_last());
        assert(joined(parts) =~= head + (parts[i] + Seq::<char>::empty()));
    } else {
        lemma_part_stands_in(parts.drop_last(), i);
        let (head, tail) = choose|head: Seq<char>, tail: Seq<char>|
            joined(parts.drop_last()) == #[trigger] (head + (parts[i] + tail));
        assert(joined(parts) =~= head + (parts[i] + (tail + parts.last())));
    }
}

proof fn lemma_stands_in_between(
    part: Seq<char>,
    before: Seq<char>,
    whole: Seq<char>,
    after: Seq<char>,
)
    requires
        stands_in(part, whole),
    ensures
        stands_in(part, before + whole + after),
{
    let (head, tail) = choose|head: Seq<char>, tail: Seq<char>|
        whole == #[trigger] (head + (part + tail));
    assert(before + whole + after =~= (before + head) + (part + (tail + after)));
}

proof fn lemma_all_ops(op: HarnessOp)
    ensures
        all_ops().contains(op),
{
    let ops = all_ops();
    match op {
        HarnessOp::RequestPrompt => assert(ops[0] == op),
        HarnessOp::Block => assert(ops[1] == op),
        HarnessOp::MutateInput => assert(ops[2] == op),
        HarnessOp::ReplaceResult => assert(ops[3] == op),
        HarnessOp::ReplacePrompt => assert(ops[4] == op),
        HarnessOp::AppendSystemPrompt => assert(ops[5] == op),
        HarnessOp::Notify => assert(ops[6] == op),
        HarnessOp::PushHookErr => assert(ops[7] == op),
        HarnessOp::Log => assert(ops[8] == op),
        HarnessOp::AddSteering => assert(ops[9] == op),
        HarnessOp::AddFollowup => assert(ops[10] == op),
        HarnessOp::AddCustomMessage => assert(ops[11] == op),
        HarnessOp::AppendEntry => assert(ops[12] == op),
        HarnessOp::EmitToolProgress => assert(ops[13] == op),
        HarnessOp::Render => assert(ops[14] == op),
        HarnessOp::SetLabel => assert(ops[15] == op),
        HarnessOp::Fork => assert(ops[16] == op),
        HarnessOp::NavigateTree => assert(ops[17] == op),
        HarnessOp::NewSession => assert(ops[18] == op),
        HarnessOp::SwitchSession => assert(ops[19] == op),
        HarnessOp::RegisterCommand => assert(ops[20] == op),
        HarnessOp::RegisterProvider => assert(ops[21] == op),
        HarnessOp::RegisterTool => assert(ops[22] == op),
        HarnessOp::RegisterShortcut => assert(ops[23] == op),
        HarnessOp::RegisterMessageRenderer => assert(ops[24] == op),
        HarnessOp::RegisterRenderer => assert(ops[25] == op),
        HarnessOp::HasTools => assert(ops[26] == op),
        HarnessOp::ListTools => assert(ops[27] == op),
        HarnessOp::CallTool => assert(ops[28] == op),
        HarnessOp::Confirm => assert(ops[29] == op),
        HarnessOp::Select => assert(ops[30] == op),
        HarnessOp::PluginEnabled => assert(ops[31] == op),
        HarnessOp::PluginAutoStart => assert(ops[32] == op),
    }
}

/// The prelude defines every function of the harness under its name.
pub proof fn lemma_prelude_defines_every_function(op: HarnessOp)
    ensures
        stands_in(forward_form(crate::ops::op_name(op)), prelude_form()),
{
    lemma_all_ops(op);
    let i = choose|i: int| 0 <= i < all_ops().len() && all_ops()[i] == op;
    lemma_part_stands_in(forward_forms(), i);
    lemma_stands_in_between(
        forward_form(crate::ops::op_name(op)),
        variables_form(),
        joined(forward_forms()),
        extras_form(),
    );
}

/// The prelude defines every variable of the harness under its name, and
/// fills it and writes it back with the others.
pub proof fn lemma_prelude_defines_every_variable(var: HarnessVar)
    ensures
        stands_in(var_form(crate::harness::var_name(var)), prelude_form()),
        stands_in(
            "(defn harness/-pull []"@ + joined(pull_forms()) + ")\n(defn harness/-push []"@ + joined(
                push_forms(),
            ) + ")\n"@,
            prelude_form(),
        ),
        stands_in(pull_form(crate::harness::var_name(var)), joined(pull_forms())),
        stands_in(push_form(crate::harness::var_name(var)), joined(push_forms())),
{
    let vars = all_vars();
    let i: int = match var {
        HarnessVar::Response => 0,
        HarnessVar::CurrentToolCall => 1,
        HarnessVar::Notifications => 2,
        HarnessVar::TreeOps => 3,
    };
    assert(vars[i] == var);
    lemma_part_stands_in(var_forms(), i);
    lemma_part_stands_in(pull_forms(), i);
    lemma_part_stands_in(push_forms(), i);
    let rest = "(defn harness/-pull []"@ + joined(pull_forms()) + ")\n(defn harness/-push []"@
        + joined(push_forms()) + ")\n"@;
    let behind = joined(forward_forms()) + extras_form();
    lemma_stands_in_between(
        var_form(crate::harness::var_name(var)),
        Seq::empty(),
        joined(var_forms()),
        rest + behind,
    );
    assert(prelude_form() =~= Seq::<char>::empty() + joined(var_forms()) + (rest + behind));
    assert(prelude_form() =~= joined(var_forms()) + (rest + behind));
}

/// A function is defined under its name, and hands that name and all of its
/// arguments to the harness, with the variables written back before the call and
/// filled after it.
pub proof fn lemma_definition_hands_its_name_on(name: Seq<char>)
    ensures
        ({
            let head = "(defn "@ + name + " [& args] (harness/-push) (let [out (harness/-call "@;
            let whole = forward_form(name);
            &&& head.is_prefix_of(whole)
            &&& whole[head.len() as int] == '"'
            &&& crate::escape::read_literal(whole.skip(1 + head.len() as int)) == Some(
                (name, " ;args)] (harness/-pull) out))\n"@),
            )
        }),
{
    let head = "(defn "@ + name + " [& args] (harness/-push) (let [out (harness/-call "@;
    let tail = " ;args)] (harness/-pull) out))\n"@;
    let whole = forward_form(name);
    crate::escape::lemma_literal_round_trip(name, tail);
    assert(whole =~= head + (crate::escape::literal(name) + tail));
    assert(head =~= whole.take(head.len() as int));
    assert(whole[head.len() as int] == crate::escape::literal(name)[0]);
    assert(whole.skip(1 + head.len() as int) =~= (crate::escape::literal(name) + tail).skip(1));
}

/// A variable is filled from the harness under its own name, and written back
/// under it.
pub proof fn lemma_variable_is_mirrored_under_its_name(name: Seq<char>)
    ensures
        ({
            let pull = " (set "@ + name + " (harness/-get "@;
            let push = " (harness/-set "@;
            &&& pull.is_prefix_of(pull_form(name))
            &&& crate::escape::read_literal(pull_form(name).skip(1 + pull.len() as int)) == Some(
                (name, "))"@),
            )
            &&& push.is_prefix_of(push_form(name))
            &&& crate::escape::read_literal(push_form(name).skip(1 + push.len() as int)) == Some(
                (name, " "@ + name + ")"@),
            )
        }),
{
    let pull = " (set "@ + name + " (harness/-get "@;
    let push = " (harness/-set "@;
    let last = " "@ + name + ")"@;
    let quoted = crate::escape::literal(name);
    crate::escape::lemma_literal_round_trip(name, "))"@);
    crate::escape::lemma_literal_round_trip(name, last);
    assert(pull_form(name) =~= pull + (quoted + "))"@));
    assert(pull =~= pull_form(name).take(pull.len() as int));
    assert(pull_form(name).skip(1 + pull.len() as int) =~= (quoted + "))"@).skip(1));
    assert(push_form(name) =~= push + (quoted + last));
    assert(push =~= push_form(name).take(push.len() as int));
    assert(push_form(name).skip(1 + push.len() as int) =~= (quoted + last).skip(1));
}

} // verus!
