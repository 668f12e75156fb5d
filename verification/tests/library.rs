//! The library on concrete values: edge cases, exact texts and errors.

use dirge_plugin::escape::{
    escape_harness_field, escape_janet_string, janet_literal, unescape_harness_field,
};
use dirge_plugin::harness::{Harness, HarnessReply, HarnessVar, PluginConfig};
use dirge_plugin::hooks::HookTable;
use dirge_plugin::json::read_json_text;
use dirge_plugin::loader::{
    contains_text, file_stem, finish_notebook_load, finish_notebook_run, is_janet_file,
    known_hook_list, load_notebook_plugin, loadtest_name, plan_directory, plan_file,
    prefixed_hook, probe_names, LoadRun,
};
use dirge_plugin::manager::PluginManager;
use dirge_plugin::notebook::{
    cell_report, read_cell, read_session, register_notebook_tools, reset_report, Cell, CellOutcome,
};
use dirge_plugin::nrepl::{
    finish_nrepl_state, is_connection_error, is_timeout_error, json_extract_scalar,
    json_extract_string, nrepl_state_env, paren_repair, read_port,
};
use dirge_plugin::ops::{op_named, HarnessOp};
use dirge_plugin::order::{is_text_le, sort_texts};
use dirge_plugin::prelude::{prelude_source, pull_source, push_source};
use dirge_plugin::provider::{PluginProviders, ProviderEntry, ProviderInfo, ProviderMap};
use dirge_plugin::queues::{sanitize_hook_error, CustomMessage, Queues};
use dirge_plugin::registry::{is_valid_tool_name, Registries};
use dirge_plugin::render::{message_payload, resolve_custom_message_render, RenderedMessage};
use dirge_plugin::reply::{
    err_sentinel, read_eval, read_reply, read_string, read_truth, Outcome, Reply,
};
use dirge_plugin::session::{
    answer_dialog, dialog_value, AutoConfirmMode, DialogReply, DialogRequest,
};
use dirge_plugin::slots::{Slots, ToolHookResult};
use dirge_plugin::sources::{
    alias_source, deny_tools_source, guarded_source, has_symbol_source,
    unbind_source,
};
use dirge_plugin::text::{numeral_text, same_text, strip_prefix};
use dirge_plugin::tree::TreeOp;
use dirge_plugin::value::Value;
use dirge_plugin::wire::{lines_in, push_record, records_in, split_on};

fn s(text: &str) -> String {
    text.to_string()
}

fn text(v: &str) -> Value {
    Value::Str(s(v))
}

fn number(v: &str) -> Value {
    Value::Other(s(v))
}

fn manager() -> PluginManager {
    PluginManager::try_new(Ok(0xab)).unwrap()
}

/// The reply to a guarded call whose handler raised an error.
fn raised(msg: &str) -> Reply {
    Reply::Value(Value::Str(format!("DIRGE_ERR_ab:{msg}")))
}

// ---------------------------------------------------------------------
// Texts and escapes
// ---------------------------------------------------------------------

#[test]
fn numerals_have_no_leading_zeros() {
    assert_eq!(numeral_text(0, 10), "0");
    assert_eq!(numeral_text(0, 16), "0");
    assert_eq!(numeral_text(49, 10), "49");
    assert_eq!(numeral_text(255, 16), "ff");
    assert_eq!(numeral_text(u64::MAX, 10), "18446744073709551615");
    assert_eq!(numeral_text(u64::MAX, 16), "ffffffffffffffff");
}

#[test]
fn prefixes_are_cut_off_once() {
    assert_eq!(strip_prefix("aab", "a"), Some(s("ab")));
    assert_eq!(strip_prefix("aab", ""), Some(s("aab")));
    assert_eq!(strip_prefix("aab", "b"), None);
    assert_eq!(strip_prefix("a", "ab"), None);
    assert!(same_text("ü", "ü"));
    assert!(!same_text("ü", "u"));
}

#[test]
fn fields_survive_the_wire() {
    let cases: [&str; 7] = ["", "plain", "a\tb\nc\\d", "\\t", "\\\\n", "\t\n\\", "tab\\\tend\\"];
    for case in cases {
        let escaped = escape_harness_field(case);
        assert!(!escaped.contains('\t') && !escaped.contains('\n'));
        assert_eq!(unescape_harness_field(&escaped), case);
    }
    assert_eq!(escape_harness_field("a\tb\nc\\d"), "a\\tb\\nc\\\\d");
}

#[test]
fn control_characters_are_hex_escapes_in_literals() {
    assert_eq!(escape_janet_string("\0\x1f\x7f"), "\\x00\\x1f\\x7f");
    assert_eq!(escape_janet_string("★ ü"), "★ ü");
    assert_eq!(janet_literal("say \"hi\""), "\"say \\\"hi\\\"\"");
    assert_eq!(janet_literal(""), "\"\"");
}

#[test]
fn blobs_are_cut_into_records() {
    assert_eq!(split_on("a\tb\t", '\t'), vec![s("a"), s("b"), s("")]);
    assert_eq!(split_on("", '\t'), vec![s("")]);
    assert!(lines_in("").is_empty());
    assert_eq!(lines_in("a\n\nb"), vec![s("a"), s(""), s("b")]);
    let mut blob = String::new();
    push_record(&mut blob, &vec![s("a\tb"), s(""), s("c\nd")]);
    push_record(&mut blob, &vec![s("x")]);
    assert_eq!(blob, "a\\tb\t\tc\\nd\nx\n");
    assert_eq!(records_in(&blob), vec![vec![s("a\tb"), s(""), s("c\nd")], vec![s("x")]]);
}

#[test]
fn texts_are_ordered_by_their_characters() {
    assert!(is_text_le("", "a"));
    assert!(!is_text_le("a", ""));
    assert!(is_text_le("a", "a"));
    assert!(is_text_le("Z", "a"));
    assert!(is_text_le("ab", "abc"));
    assert!(!is_text_le("b", "abc"));
    assert!(is_text_le("z", "é"));
    assert_eq!(
        sort_texts(&vec![s("b"), s("a"), s("c"), s("a"), s("B")]),
        vec![s("B"), s("a"), s("a"), s("b"), s("c")]
    );
    assert!(sort_texts(&vec![]).is_empty());
}

// ---------------------------------------------------------------------
// Values
// ---------------------------------------------------------------------

#[test]
fn values_print_as_janet_prints_them() {
    assert_eq!(Value::Nil.printed(), "");
    assert_eq!(Value::Boolean(true).printed(), "true");
    assert_eq!(Value::Boolean(false).printed(), "false");
    assert_eq!(Value::Keyword(s("cyan")).printed(), "cyan");
    assert_eq!(number("42").printed(), "42");
    let list = Value::List { items: vec![s("a")], shown: s("<tuple>") };
    assert_eq!(list.printed(), "<tuple>");
    assert_eq!(list.items(), Some(vec![s("a")]));
    assert_eq!(list.text(), None);
    assert_eq!(text("a").items(), None);
    assert_eq!(Value::Keyword(s("k")).text(), None);
    assert_eq!(Value::Keyword(s("k")).name(), Some(s("k")));
    assert_eq!(number("42").name(), None);
    assert!(Value::Boolean(false).is_false());
    assert!(!Value::Nil.is_false());
}

// ---------------------------------------------------------------------
// Queues
// ---------------------------------------------------------------------

#[test]
fn a_level_may_be_a_string() {
    let mut q = Queues::new();
    q.notify(&text("a"), &text("warn"));
    q.notify(&text("b"), &number("3"));
    q.notify(&text(""), &Value::Nil);
    assert_eq!(
        q.drain_notifications(),
        vec![(s("warn"), s("a")), (s("info"), s("b")), (s("info"), s(""))]
    );
}

#[test]
fn another_hook_error_is_queued_behind_the_summary_of_the_last() {
    let mut q = Queues::new();
    q.push_hook_err("a");
    q.push_hook_err("a");
    q.push_hook_err("b");
    q.push_hook_err("a");
    assert_eq!(
        q.drain_notifications(),
        vec![
            (s("error"), s("a")),
            (s("error"), s("a (repeated 1 times)")),
            (s("error"), s("b")),
            (s("error"), s("a")),
        ]
    );
}

#[test]
fn a_drain_starts_the_count_of_hook_errors_anew() {
    let mut q = Queues::new();
    q.push_hook_err("a");
    assert_eq!(q.drain_notifications().len(), 1);
    q.push_hook_err("a");
    assert_eq!(q.drain_notifications(), vec![(s("error"), s("a"))]);
    assert!(q.drain_notifications().is_empty());
}

#[test]
fn a_notification_between_two_equal_hook_errors_stays_in_place() {
    let mut q = Queues::new();
    q.push_hook_err("a");
    q.notify(&text("n"), &Value::Nil);
    q.push_hook_err("a");
    assert_eq!(
        q.drain_notifications(),
        vec![
            (s("error"), s("a")),
            (s("info"), s("n")),
            (s("error"), s("a (repeated 1 times)")),
        ]
    );
}

#[test]
fn hook_errors_are_put_on_one_line() {
    assert_eq!(sanitize_hook_error("a\nb\tc\rd"), "a b c\rd");
    assert_eq!(sanitize_hook_error(""), "");
}

#[test]
fn custom_messages_need_strings() {
    let mut q = Queues::new();
    q.add_custom_message(&number("1"), &Value::Nil, &Value::Nil);
    q.add_custom_message(&text("t"), &number("1"), &Value::Nil);
    q.add_custom_message(&text("only"), &Value::Nil, &Value::Boolean(false));
    let drained = q.drain_custom_messages();
    assert_eq!(
        drained,
        vec![CustomMessage { custom_type: s(""), content: s("only"), display: false }]
    );
}

#[test]
fn rendered_lines_keep_their_colors() {
    let mut q = Queues::new();
    q.render(&Value::Keyword(s("red")), &text("a\tb"));
    q.render(&text("blue"), &text("c"));
    q.render(&number("1"), &text("dropped"));
    q.render(&text("green"), &number("1"));
    assert_eq!(q.drain_render_lines(), vec![(s("red"), s("a\tb")), (s("blue"), s("c"))]);
}

#[test]
fn progress_needs_a_running_call() {
    let mut q = Queues::new();
    q.emit_tool_progress(&None, &text("dropped"));
    q.emit_tool_progress(&Some(s("tc\t1")), &text("kept"));
    q.emit_tool_progress(&Some(s("tc")), &number("1"));
    assert_eq!(q.drain_tool_progress(), vec![(s("tc\t1"), s("kept"))]);
}

#[test]
fn tree_operations_round_trip() {
    let mut q = Queues::new();
    let ops = vec![
        TreeOp::SetLabel { id: s("a"), label: Some(s("")) },
        TreeOp::SetLabel { id: s("a"), label: None },
        TreeOp::Fork { id: s("b\n"), restore_text: false },
        TreeOp::NewSession { parent: None },
        TreeOp::NewSession { parent: Some(s("")) },
        TreeOp::SwitchSession { id_prefix: s("p") },
    ];
    for op in ops {
        q.queue_tree_op(&Some(op));
    }
    q.queue_tree_op(&None);
    assert_eq!(
        q.drain_tree_ops(),
        vec![
            TreeOp::SetLabel { id: s("a"), label: Some(s("")) },
            TreeOp::SetLabel { id: s("a"), label: None },
            TreeOp::Fork { id: s("b\n"), restore_text: false },
            TreeOp::NewSession { parent: None },
            TreeOp::NewSession { parent: Some(s("")) },
            TreeOp::SwitchSession { id_prefix: s("p") },
        ]
    );
}

// ---------------------------------------------------------------------
// Registries
// ---------------------------------------------------------------------

#[test]
fn a_name_that_is_registered_again_keeps_its_place() {
    let mut r = Registries::new();
    r.register_command(&text("a"), &text("1"));
    r.register_command(&text("b"), &text("2"));
    r.register_command(&text("a"), &text("3"));
    assert_eq!(r.list_commands(), vec![(s("a"), s("3")), (s("b"), s("2"))]);
    assert_eq!(r.list_commands().len(), 2, "a listing changes nothing");
}

#[test]
fn tool_names_are_letters_digits_and_dashes() {
    assert!(is_valid_tool_name("Good_name-1"));
    assert!(!is_valid_tool_name(""));
    assert!(!is_valid_tool_name("é"));
    assert!(!is_valid_tool_name("a/b"));
    assert!(!is_valid_tool_name("a\n"));
}

#[test]
fn an_unknown_execution_mode_is_none() {
    let mut r = Registries::new();
    r.register_tool(&vec![
        text("t"),
        text("d"),
        text("l"),
        text("{}"),
        text("h"),
        Value::Keyword(s("sideways")),
        Value::Nil,
    ]);
    r.register_tool(&vec![
        text("u"),
        text("d"),
        text("l"),
        text("{}"),
        text("h"),
        text("parallel"),
        text(""),
    ]);
    let tools = r.list_plugin_tools();
    assert_eq!(tools[0].execution_mode, None);
    assert_eq!(tools[1].execution_mode, Some(s("parallel")));
    assert_eq!(tools[1].prepare_handler, None);
}

#[test]
fn an_empty_key_variable_is_no_override() {
    let mut r = Registries::new();
    r.register_provider(&text("p"), &text("openai"), &text("https://x"), &text(""));
    assert_eq!(r.list_providers(), vec![(s("p"), s("openai"), s("https://x"), None)]);
}

// ---------------------------------------------------------------------
// Slots, variables and the tool bridge
// ---------------------------------------------------------------------

#[test]
fn texts_for_the_system_prompt_stand_on_lines_of_their_own() {
    let mut slots = Slots::new();
    slots.append_system_prompt(&text("one"));
    slots.append_system_prompt(&number("2"));
    slots.append_system_prompt(&text("three"));
    assert_eq!(slots.system_prompt, Some(s("one\nthree")));
}

#[test]
fn clearing_the_tool_slots_leaves_the_others() {
    let mut slots = Slots::new();
    slots.request_prompt(&text("p"));
    slots.block(&text("b"));
    slots.mutate_input(&text("m"));
    slots.mutate_input(&Value::Nil);
    let taken = slots.take_tool_result();
    assert_eq!(
        taken,
        ToolHookResult { block: Some(s("b")), mutate_input: Some(s("m")), replace_result: None }
    );
    assert_eq!(slots.take_tool_result(), ToolHookResult::default());
    assert_eq!(slots.prompt, Some(s("p")));
}

#[test]
fn a_function_that_the_harness_lacks_is_no_call() {
    let mut h = Harness::new();
    assert_eq!(h.call_named("harness/nothing", &vec![text("a")]), None);
    assert_eq!(op_named("harness/notify"), Some(HarnessOp::Notify));
    assert_eq!(op_named("notify"), None);
    assert_eq!(
        h.call_named("harness/log", &vec![text("a")]),
        Some(HarnessReply::Return(Value::Nil))
    );
    assert_eq!(h.queues.drain_log_messages(), vec![s("a")]);
}

#[test]
fn a_responder_gets_the_tool_calls() {
    let mut h = Harness::new();
    h.responder = true;
    assert_eq!(
        h.call(HarnessOp::HasTools, &vec![]),
        HarnessReply::Return(Value::Boolean(true))
    );
    assert_eq!(h.call(HarnessOp::ListTools, &vec![]), HarnessReply::ListTools);
    assert_eq!(
        h.call(HarnessOp::CallTool, &vec![text("read")]),
        HarnessReply::CallTool { name: s("read"), args: s("{}") }
    );
    assert_eq!(
        h.call(HarnessOp::CallTool, &vec![text("read"), text("{\"p\":1}")]),
        HarnessReply::CallTool { name: s("read"), args: s("{\"p\":1}") }
    );
    assert_eq!(
        h.call(HarnessOp::CallTool, &vec![number("42")]),
        HarnessReply::Raise(s("harness/call-tool: the tool name must be a string"))
    );
    assert_eq!(
        h.call(HarnessOp::CallTool, &vec![text("read"), number("1")]),
        HarnessReply::Raise(s("harness/call-tool: the arguments must be a JSON string"))
    );
}

#[test]
fn questions_go_to_the_host() {
    let mut h = Harness::new();
    let options = Value::List { items: vec![s("a"), s("b")], shown: s("<tuple>") };
    assert_eq!(
        h.call(HarnessOp::Confirm, &vec![text("t"), text("q")]),
        HarnessReply::Ask(DialogRequest::Confirm { title: s("t"), question: s("q") })
    );
    assert_eq!(
        h.call(HarnessOp::Select, &vec![text("t"), options]),
        HarnessReply::Ask(DialogRequest::Select { title: s("t"), options: vec![s("a"), s("b")] })
    );
    assert_eq!(h.call(HarnessOp::Confirm, &vec![text("t")]), HarnessReply::Return(Value::Nil));
    assert_eq!(
        h.call(HarnessOp::Select, &vec![text("t"), text("a")]),
        HarnessReply::Return(Value::Nil)
    );
    assert_eq!(dialog_value(DialogReply::Confirm(true)), Value::Boolean(true));
    assert_eq!(dialog_value(DialogReply::Select(None)), Value::Nil);
    assert_eq!(dialog_value(DialogReply::Select(Some(s("a")))), text("a"));
}

#[test]
fn variables_take_strings_and_nil() {
    let mut h = Harness::new();
    h.set_var(HarnessVar::Response, &text("r"));
    assert_eq!(h.get_var(HarnessVar::Response), text("r"));
    h.set_var(HarnessVar::Response, &number("1"));
    assert_eq!(h.get_var(HarnessVar::Response), text("r"));
    h.set_var(HarnessVar::Response, &Value::Nil);
    assert_eq!(h.get_var(HarnessVar::Response), Value::Nil);
    h.set_var(HarnessVar::Notifications, &text("warn\tw\n"));
    assert_eq!(h.queues.drain_notifications(), vec![(s("warn"), s("w"))]);
    assert_eq!(h.get_var(HarnessVar::Notifications), text(""));
}

// ---------------------------------------------------------------------
// Replies
// ---------------------------------------------------------------------

#[test]
fn the_sentinel_is_made_of_the_number() {
    assert_eq!(err_sentinel(0), "DIRGE_ERR_0:");
    assert_eq!(err_sentinel(0xab), "DIRGE_ERR_ab:");
    assert_ne!(err_sentinel(1), err_sentinel(2));
}

#[test]
fn replies_are_told_apart() {
    let mark = err_sentinel(0xab);
    assert_eq!(read_reply(&mark, &Reply::Value(Value::Nil)), Outcome::Silent);
    assert_eq!(read_reply(&mark, &Reply::Value(text(""))), Outcome::Silent);
    assert_eq!(read_reply(&mark, &Reply::Value(number("3"))), Outcome::Text(s("3")));
    assert_eq!(
        read_reply(&mark, &Reply::Value(Value::Boolean(false))),
        Outcome::Text(s("false"))
    );
    assert_eq!(read_reply(&mark, &raised("boom")), Outcome::Failed(s("boom")));
    assert_eq!(read_reply(&mark, &raised("")), Outcome::Failed(s("")));
    assert_eq!(
        read_reply(&mark, &Reply::Value(text("DIRGE_ERR_ac:boom"))),
        Outcome::Text(s("DIRGE_ERR_ac:boom"))
    );
    assert_eq!(
        read_reply(&mark, &Reply::Error(s("timed out"))),
        Outcome::Unavailable(s("timed out"))
    );
}

#[test]
fn evaluations_name_nil() {
    assert_eq!(read_eval(&Reply::Value(Value::Nil)), Ok(s("nil")));
    assert_eq!(read_eval(&Reply::Value(text(""))), Ok(s("")));
    assert_eq!(read_eval(&Reply::Error(s("e"))), Err(s("e")));
    assert!(read_truth(&Reply::Value(Value::Boolean(true))));
    assert!(!read_truth(&Reply::Value(text("true"))));
    assert!(!read_truth(&Reply::Error(s("true"))));
    assert_eq!(read_string("m", &Reply::Value(text(""))), Some(s("")));
    assert_eq!(read_string("m", &Reply::Value(text("mx"))), None);
    assert_eq!(read_string("m", &Reply::Value(number("1"))), None);
    assert_eq!(read_string("m", &Reply::Error(s("e"))), None);
}

// ---------------------------------------------------------------------
// Source
// ---------------------------------------------------------------------

#[test]
fn source_is_written_as_expected() {
    assert_eq!(
        guarded_source("h", "@{:a 1}", "M:"),
        "(try (h @{:a 1}) ([err] (string \"M:\" err)))"
    );
    assert_eq!(has_symbol_source("a\"b"), "(harness/has-symbol? \"a\\\"b\")");
    assert_eq!(alias_source("p-on-init", "on-init"), "(def p-on-init on-init)");
    assert_eq!(unbind_source("on-init"), "(put (curenv) 'on-init nil)");
    assert_eq!(
        deny_tools_source(&vec![s("a"), s("b\\")]),
        "(set harness/computer-use-deny-tools (tabseq [name :in [ \"a\" \"b\\\\\"]] name true))"
    );
    assert_eq!(
        deny_tools_source(&vec![]),
        "(set harness/computer-use-deny-tools (tabseq [name :in []] name true))"
    );
}

#[test]
fn the_prelude_defines_every_function_once() {
    let prelude = prelude_source();
    for name in ["harness/notify", "harness/tools?", "harness/call-tool", "harness/block"] {
        let line = format!(
            "(defn {name} [& args] (harness/-push) \
             (let [out (harness/-call \"{name}\" ;args)] (harness/-pull) out))\n"
        );
        assert_eq!(prelude.matches(&line).count(), 1);
    }
    assert_eq!(prelude.matches("harness/-call").count(), 33);
    assert!(prelude.ends_with("(harness/-pull)\n"));
    assert_eq!(pull_source(), "(harness/-pull)");
    assert_eq!(push_source(), "(harness/-push)");
}

#[test]
fn the_prelude_defines_every_variable_and_mirrors_it() {
    let prelude = prelude_source();
    assert!(prelude.starts_with(
        "(var harness-response nil)\n(var harness-current-tool-call nil)\n\
         (var harness-notif-list nil)\n(var harness-tree-ops nil)\n\
         (defn harness/-pull [] (set harness-response (harness/-get \"harness-response\"))"
    ));
    for name in
        ["harness-response", "harness-current-tool-call", "harness-notif-list", "harness-tree-ops"]
    {
        assert!(prelude.contains(&format!(" (set {name} (harness/-get \"{name}\"))")));
        assert!(prelude.contains(&format!(" (harness/-set \"{name}\" {name})")));
    }
}

#[test]
fn variables_are_found_by_their_names() {
    let mut h = Harness::new();
    assert_eq!(h.get_named("harness-response"), Some(Value::Nil));
    assert_eq!(h.get_named("harness-tree-ops"), Some(text("")));
    assert_eq!(h.get_named("harness-nothing"), None);
    assert!(h.set_named("harness-tree-ops", &text("fork\ta\n")));
    assert!(!h.set_named("harness-nothing", &text("x")));
    assert_eq!(h.get_named("harness-tree-ops"), Some(text("fork\ta\n")));
    assert_eq!(
        h.queues.drain_tree_ops(),
        vec![TreeOp::Fork { id: s("a"), restore_text: true }]
    );
}

// ---------------------------------------------------------------------
// Hooks and dispatch
// ---------------------------------------------------------------------

#[test]
fn handlers_keep_the_order_of_their_registration() {
    let mut table = HookTable::new();
    table.register("on-init", "a");
    table.register("on-prompt", "b");
    table.register("on-init", "c");
    table.register("on-init", "a");
    assert_eq!(table.len(), 2);
    assert_eq!(table.handlers("on-init"), vec![s("a"), s("c"), s("a")]);
    assert_eq!(table.get("on-prompt"), Some(&vec![s("b")]));
    assert_eq!(table.get("on-error"), None);
    assert!(table.handlers("on-error").is_empty());
}

#[test]
fn an_engine_that_does_not_start_gives_no_manager() {
    let failed = PluginManager::try_new(Err(s("no engine")));
    assert_eq!(failed.err(), Some(s("no engine")));
}

#[test]
fn a_dispatch_goes_through_all_handlers() {
    let mut mgr = manager();
    mgr.register("on-prompt", "a");
    mgr.register("on-prompt", "b");
    mgr.register("on-prompt", "c");
    let mut run = mgr.begin_dispatch("on-prompt", "@{}");
    let first = mgr.next_call(&run).unwrap();
    assert_eq!(first.handler, "a");
    assert_eq!(first.source, "(try (a @{}) ([err] (string \"DIRGE_ERR_ab:\" err)))");
    mgr.finish_call(&mut run, &raised("x\ny"));
    assert_eq!(mgr.next_call(&run).unwrap().handler, "b");
    mgr.finish_call(&mut run, &Reply::Error(s("gone")));
    assert_eq!(mgr.next_call(&run).unwrap().handler, "c");
    mgr.finish_call(&mut run, &Reply::Value(text("said")));
    assert_eq!(mgr.next_call(&run), None);
    mgr.finish_call(&mut run, &Reply::Value(text("too late")));
    assert_eq!(mgr.finish_dispatch(run), vec![s("said")]);
    assert_eq!(
        mgr.drain_notifications(),
        vec![(s("error"), s("[plugin] on-prompt (a) errored: x y"))]
    );
}

#[test]
fn a_block_ends_the_run_of_a_tool_hook() {
    let mut mgr = manager();
    mgr.register("on-tool-start", "a");
    mgr.register("on-tool-start", "b");
    mgr.harness.slots.block(&text("stale"));
    let mut run = mgr.begin_tool_hook("on-tool-start", "@{}").unwrap();
    assert!(!mgr.has_pending_block());
    assert_eq!(mgr.next_tool_call(&run).unwrap().handler, "a");
    mgr.harness.call(HarnessOp::Block, &vec![text("no")]);
    mgr.finish_call(&mut run, &Reply::Value(Value::Nil));
    assert_eq!(mgr.next_tool_call(&run), None);
    assert_eq!(mgr.finish_tool_hook(Some(run)).block, Some(s("no")));
    assert!(!mgr.has_pending_block());
}

// ---------------------------------------------------------------------
// Calls of single handlers
// ---------------------------------------------------------------------

#[test]
fn arguments_are_literals() {
    let mgr = manager();
    assert_eq!(
        mgr.begin_command("echo", "a \"b\"\n"),
        "(try (echo \"a \\\"b\\\"\\n\") ([err] (string \"DIRGE_ERR_ab:\" err)))"
    );
}

#[test]
fn a_command_without_a_handler_is_silent() {
    let mut mgr = manager();
    assert_eq!(mgr.finish_command("h", &Reply::Error(s("unknown symbol h"))), None);
    assert!(mgr.drain_notifications().is_empty());
    assert_eq!(mgr.finish_command("h", &raised("x")), None);
    assert_eq!(
        mgr.drain_notifications(),
        vec![(s("error"), s("[plugin] command h errored: x"))]
    );
}

#[test]
fn a_tool_without_output_is_empty() {
    let mut mgr = manager();
    mgr.begin_plugin_tool("h", "{}", "tc");
    assert_eq!(mgr.harness.current_tool_call, Some(s("tc")));
    assert_eq!(mgr.finish_plugin_tool(&Reply::Value(Value::Nil)), Ok(s("")));
    assert_eq!(mgr.harness.current_tool_call, None);
    mgr.begin_plugin_tool("h", "{}", "tc");
    assert_eq!(mgr.finish_plugin_tool(&Reply::Error(s("timed out"))), Err(s("timed out")));
    assert_eq!(mgr.harness.current_tool_call, None);
    assert_eq!(mgr.finish_plugin_tool(&raised("x")), Err(s("x")));
}

#[test]
fn settings_last_while_a_plugin_is_loaded() {
    let mut mgr = manager();
    mgr.set_loading_plugin_config(true, false);
    assert_eq!(
        mgr.harness.loading,
        Some(PluginConfig { enabled: true, auto_start: false })
    );
    mgr.clear_loading_plugin_config();
    assert_eq!(mgr.harness.loading, None);
}

#[test]
fn settings_are_read_through_the_harness() {
    let mut h = Harness::new();
    for op in [HarnessOp::PluginEnabled, HarnessOp::PluginAutoStart] {
        assert_eq!(h.call(op, &vec![]), HarnessReply::Return(Value::Nil));
    }
    h.loading = Some(PluginConfig { enabled: false, auto_start: true });
    assert_eq!(
        h.call(HarnessOp::PluginEnabled, &vec![]),
        HarnessReply::Return(Value::Boolean(false))
    );
    assert_eq!(
        h.call(HarnessOp::PluginAutoStart, &vec![]),
        HarnessReply::Return(Value::Boolean(true))
    );
}

// ---------------------------------------------------------------------
// Loading
// ---------------------------------------------------------------------

#[test]
fn stems_and_extensions_follow_the_last_dot() {
    assert_eq!(file_stem("a.janet"), "a");
    assert_eq!(file_stem("a.b.janet"), "a.b");
    assert_eq!(file_stem(".janet"), ".janet");
    assert_eq!(file_stem("a"), "a");
    assert_eq!(file_stem("a."), "a");
    assert!(is_janet_file("a.janet"));
    assert!(!is_janet_file(".janet"));
    assert!(!is_janet_file("a.janet.bak"));
    assert!(!is_janet_file("janet"));
    assert_eq!(plan_file("x.janet").stem, "x");
    assert_eq!(plan_file("x.janet").files, vec![s("x.janet")]);
}

#[test]
fn a_directory_is_read_in_alphabetical_order() {
    let names = vec![s("b.janet"), s("notes.md"), s("10.janet"), s("a.janet")];
    let plan = plan_directory("p", &names).unwrap();
    assert_eq!(plan.stem, "p");
    assert_eq!(plan.files, vec![s("10.janet"), s("a.janet"), s("b.janet")]);
    assert_eq!(
        plan_directory("p", &vec![s("notes.md")]),
        Err(s("plugin directory p has no .janet files"))
    );
}

#[test]
fn hooks_are_taken_under_either_name() {
    let mut mgr = manager();
    let bound = vec![s("on-prompt"), s("p-on-init"), s("p-on-prompt"), s("other-on-error")];
    let loaded = mgr.finish_load(plan_file("p.janet"), &bound);
    assert_eq!(loaded.hooks_registered, vec![s("on-init"), s("on-prompt")]);
    assert_eq!(
        loaded.sources,
        vec![s("(def p-on-prompt on-prompt)"), s("(put (curenv) 'on-prompt nil)")]
    );
    assert_eq!(mgr.hooks.handlers("on-init"), vec![s("p-on-init")]);
    assert_eq!(mgr.hooks.handlers("on-prompt"), vec![s("p-on-prompt")]);
    assert!(!mgr.has_hook("on-error"));
    let again = mgr.finish_load(plan_file("q.janet"), &vec![s("on-init")]);
    assert_eq!(again.hooks_registered, vec![s("on-init")]);
    assert_eq!(mgr.hooks.handlers("on-init"), vec![s("p-on-init"), s("q-on-init")]);
}

#[test]
fn the_known_hooks_are_distinct_and_never_prefixed() {
    let hooks = known_hook_list();
    assert_eq!(hooks.len(), 11);
    for hook in &hooks {
        assert!(contains_text(&hooks, hook));
        assert!(!contains_text(&hooks, &prefixed_hook("p", hook)));
        assert!(!contains_text(&hooks, &prefixed_hook("on", hook)));
    }
}

#[test]
fn the_notebook_plugin_is_planned_as_a_directory() {
    let names = vec![s("02-tools.janet"), s("00-state.janet"), s("01-eval.janet")];
    let (mgr, plan) = load_notebook_plugin(Ok(1), &names);
    assert!(mgr.hooks.is_empty());
    assert_eq!(plan.stem, "notebook");
    assert_eq!(
        plan.files,
        vec![s("00-state.janet"), s("01-eval.janet"), s("02-tools.janet")]
    );
}

#[test]
fn the_notebook_plugin_is_loaded_whole_or_not_at_all() {
    let names = vec![s("a.janet"), s("b.janet"), s("c.janet")];
    let (mgr, plan) = load_notebook_plugin(Ok(1), &names);
    let failed = finish_notebook_load(mgr, plan, Err(s("b.janet: unknown symbol")));
    assert_eq!(failed.err(), Some(s("b.janet: unknown symbol")));
    let (mgr, plan) = load_notebook_plugin(Ok(1), &names);
    let (mgr, loaded) = finish_notebook_load(mgr, plan, Ok(vec![s("on-init")])).unwrap();
    assert_eq!(loaded.files, names);
    assert_eq!(loaded.hooks_registered, vec![s("on-init")]);
    assert_eq!(
        loaded.sources,
        vec![s("(def notebook-on-init on-init)"), s("(put (curenv) 'on-init nil)")]
    );
    assert_eq!(mgr.hooks.handlers("on-init"), vec![s("notebook-on-init")]);
}

#[test]
fn the_notebook_plugin_comes_from_a_run_of_its_files() {
    let names = vec![s("a.janet"), s("b.janet"), s("c.janet")];
    let (mgr, plan) = load_notebook_plugin(Ok(1), &names);
    let mut run = LoadRun::begin(plan);
    for _ in 0..3 {
        run.finish_file(Ok(()));
    }
    let (mgr, loaded) = finish_notebook_run(mgr, run, vec![s("notebook-on-init")]).unwrap();
    assert_eq!(loaded.files, names);
    assert_eq!(loaded.hooks_registered, vec![s("on-init")]);
    assert!(loaded.sources.is_empty());
    assert_eq!(mgr.hooks.handlers("on-init"), vec![s("notebook-on-init")]);

    let (mgr, plan) = load_notebook_plugin(Ok(1), &names);
    let mut run = LoadRun::begin(plan);
    run.finish_file(Ok(()));
    run.finish_file(Err(s("bad")));
    assert_eq!(finish_notebook_run(mgr, run, vec![s("on-init")]).err(), Some(s("bad")));
}

#[test]
fn the_helpers_of_the_bridge_come_into_a_fresh_manager() {
    let (mgr, source) = nrepl_state_env(Ok(7), Ok(s("(def x 1)")));
    assert_eq!(source, "(def x 1)");
    assert!(mgr.hooks.is_empty());
    assert_eq!(mgr.sentinel, err_sentinel(7));
    let failed = finish_nrepl_state(mgr, &Reply::Error(s("unknown symbol")));
    assert_eq!(failed.err(), Some(s("unknown symbol")));
    let (mgr, _) = nrepl_state_env(Ok(7), Ok(s("")));
    let mgr = finish_nrepl_state(mgr, &Reply::Value(Value::Nil)).unwrap();
    assert_eq!(mgr.sentinel, err_sentinel(7));
}

#[test]
fn files_come_due_one_by_one() {
    let plan = plan_directory("p", &vec![s("b.janet"), s("a.janet")]).unwrap();
    let mut run = LoadRun::begin(plan);
    assert_eq!(run.next_file(), Some(s("a.janet")));
    run.finish_file(Ok(()));
    assert_eq!(run.next_file(), Some(s("b.janet")));
    run.finish_file(Ok(()));
    assert_eq!(run.next_file(), None);
    run.finish_file(Err(s("too late")));
    assert_eq!(run.finish().unwrap().files, vec![s("a.janet"), s("b.janet")]);

    let plan = plan_directory("p", &vec![s("b.janet"), s("a.janet")]).unwrap();
    let mut run = LoadRun::begin(plan);
    run.finish_file(Err(s("bad")));
    assert_eq!(run.next_file(), None);
    run.finish_file(Ok(()));
    assert_eq!(run.finish(), Err(s("bad")));
}

#[test]
fn every_hook_is_asked_for_under_both_names() {
    let probes = probe_names("p");
    assert_eq!(probes.len(), 22);
    assert_eq!(probes[0], "on-init");
    assert_eq!(probes[1], "p-on-init");
    assert_eq!(probes[21], "p-prepare-next-run");
}

#[test]
fn the_file_of_a_load_test_is_named_after_the_process_and_the_label() {
    assert_eq!(loadtest_name(0, ""), "dirge-plugin-loadtest-0-.janet");
    assert_eq!(loadtest_name(4242, "iso"), "dirge-plugin-loadtest-4242-iso.janet");
    assert_ne!(loadtest_name(1, "2-x"), loadtest_name(12, "x"));
    assert_ne!(loadtest_name(1, "alpha-iso"), loadtest_name(1, "beta-iso"));
}

// ---------------------------------------------------------------------
// Providers
// ---------------------------------------------------------------------

fn provider(url: &str, allow_insecure: bool) -> ProviderEntry {
    ProviderEntry { base_url: Some(s(url)), allow_insecure, ..Default::default() }
}

fn providers(entries: Vec<(&str, ProviderEntry)>) -> ProviderMap {
    let mut out = ProviderMap::new();
    for (name, entry) in entries {
        out.insert(s(name), entry);
    }
    out
}

#[test]
fn a_name_has_the_provider_that_was_put_last() {
    let config = providers(vec![
        ("p", provider("https://one", false)),
        ("q", provider("https://q", false)),
        ("p", provider("https://two", false)),
    ]);
    let plugins = PluginProviders::new();
    let url = |name: &str| plugins.resolve_provider_info(name, &config).unwrap().base_url;
    assert_eq!(url("p"), Some(s("https://two")));
    assert_eq!(url("q"), Some(s("https://q")));
}

#[test]
fn plain_http_must_be_allowed() {
    let plugins = PluginProviders::new();
    let config = providers(vec![
        ("plain", provider("http://x", false)),
        ("allowed", provider("http://x", true)),
        ("secure", provider("https://x", false)),
        ("bare", ProviderEntry::default()),
    ]);
    assert_eq!(plugins.resolve_provider_info("plain", &config), None);
    assert_eq!(
        plugins.resolve_provider_info("allowed", &config),
        Some(ProviderInfo { provider_type: None, base_url: Some(s("http://x")), api_key_env: None })
    );
    assert!(plugins.resolve_provider_info("secure", &config).is_some());
    assert!(plugins.resolve_provider_info("bare", &config).is_some());
    assert_eq!(plugins.resolve_provider_info("missing", &config), None);
}

#[test]
fn plugin_providers_are_installed_once() {
    let mut plugins = PluginProviders::new();
    let one = providers(vec![("p", provider("https://one", false))]);
    let two = providers(vec![("p", provider("https://two", false))]);
    assert!(plugins.install_plugin_providers(one));
    assert!(!plugins.install_plugin_providers(two));
    let info = plugins.resolve_provider_info("p", &ProviderMap::new()).unwrap();
    assert_eq!(info.base_url, Some(s("https://one")));
    let config = providers(vec![("p", provider("http://x", false))]);
    assert_eq!(plugins.resolve_provider_info("p", &config), None);
}

// ---------------------------------------------------------------------
// Sessions
// ---------------------------------------------------------------------

#[test]
fn questions_are_answered_without_a_user() {
    let confirm = DialogRequest::Confirm { title: s("t"), question: s("q") };
    let select = DialogRequest::Select { title: s("t"), options: vec![s("alpha"), s("beta")] };
    let empty = DialogRequest::Select { title: s("t"), options: vec![] };
    assert_eq!(answer_dialog(AutoConfirmMode::Yes, &confirm), DialogReply::Confirm(true));
    assert_eq!(answer_dialog(AutoConfirmMode::No, &confirm), DialogReply::Confirm(false));
    assert_eq!(
        answer_dialog(AutoConfirmMode::Yes, &select),
        DialogReply::Select(Some(s("alpha")))
    );
    assert_eq!(answer_dialog(AutoConfirmMode::No, &select), DialogReply::Select(None));
    assert_eq!(answer_dialog(AutoConfirmMode::Yes, &empty), DialogReply::Select(None));
}

// ---------------------------------------------------------------------
// Messages and JSON
// ---------------------------------------------------------------------

fn message(custom_type: &str, content: &str, display: bool) -> CustomMessage {
    CustomMessage { custom_type: s(custom_type), content: s(content), display }
}

#[test]
fn the_payload_is_compact_json_in_the_order_of_the_names() {
    assert_eq!(
        message_payload(&message("status", "build done", true)),
        r#"{"content":"build done","customType":"status","display":true,"role":"custom"}"#
    );
    assert_eq!(
        message_payload(&message("", "", false)),
        r#"{"content":"","customType":"","display":false,"role":"custom"}"#
    );
}

#[test]
fn the_payload_escapes_quotes_backslashes_and_control_characters() {
    let content = "\"\\/\x08\t\n\x0c\r\0\x1f\x7f\u{80}★";
    assert_eq!(
        message_payload(&message("t", content, true)),
        "{\"content\":\"\\\"\\\\/\\b\\t\\n\\f\\r\\u0000\\u001f\x7f\u{80}★\",\
         \"customType\":\"t\",\"display\":true,\"role\":\"custom\"}"
    );
    let payload = message_payload(&message("a\"b", content, true));
    assert_eq!(json_extract_string(&payload, "content"), Some(s(content)));
    assert_eq!(json_extract_string(&payload, "customType"), Some(s("a\"b")));
}

#[test]
fn the_payload_is_read_back_by_a_json_parser() {
    let content = "a\"\\\u{1}\u{1f600}\n";
    let payload = message_payload(&message("t", content, false));
    let value: serde_json::Value = serde_json::from_str(&payload).unwrap();
    assert_eq!(value["content"].as_str(), Some(content));
    assert_eq!(value["customType"].as_str(), Some("t"));
    assert_eq!(value["display"].as_bool(), Some(false));
    assert_eq!(value["role"].as_str(), Some("custom"));
}

#[test]
fn a_message_is_shown_with_or_without_its_renderer() {
    let shown = message("status", "raw", true);
    assert_eq!(
        resolve_custom_message_render(&shown, Some(s("rendered"))),
        Some(RenderedMessage { label: s("plugin:status"), body: s("rendered") })
    );
    assert_eq!(
        resolve_custom_message_render(&shown, None),
        Some(RenderedMessage { label: s("plugin:status"), body: s("raw") })
    );
    let hidden = message("status", "raw", false);
    assert_eq!(resolve_custom_message_render(&hidden, Some(s("rendered"))), None);
}

#[test]
fn the_last_renderer_of_a_type_is_called() {
    let mut mgr = manager();
    let shown = message("status", "raw", true);
    assert_eq!(mgr.begin_message_render(&shown), None);
    for handler in ["r1", "r2"] {
        mgr.harness.registries.register_message_renderer(&text("status"), &text(handler));
    }
    let call = mgr.begin_message_render(&shown).unwrap();
    assert_eq!(call.handler, "r2");
    assert!(call.source.starts_with("(try (r2 \"{\\\"content\\\":\\\"raw\\\","));
    let given = mgr.render_call_for(&shown, "{}").unwrap();
    assert_eq!(given.source, "(try (r2 \"{}\") ([err] (string \"DIRGE_ERR_ab:\" err)))");
    assert_eq!(mgr.begin_message_render(&message("status", "raw", false)), None);
    assert_eq!(mgr.begin_message_render(&message("other", "raw", true)), None);
}

fn chars(text: &str) -> Vec<char> {
    text.chars().collect()
}

#[test]
fn json_texts_are_read_up_to_their_closing_quote() {
    assert_eq!(read_json_text(&chars("abc\" x"), 0), Some((s("abc"), 4)));
    assert_eq!(read_json_text(&chars("\""), 0), Some((s(""), 1)));
    assert_eq!(read_json_text(&chars("\\u0041\\u00e9\\/\""), 0), Some((s("Aé/"), 15)));
    assert_eq!(read_json_text(&chars("\\uFFFD\""), 0), Some((s("\u{fffd}"), 7)));
    assert_eq!(read_json_text(&chars("abc"), 0), None);
    assert_eq!(read_json_text(&chars("a\\"), 0), None);
    assert_eq!(read_json_text(&chars("\\q\""), 0), None);
    assert_eq!(read_json_text(&chars("\\u12\""), 0), None);
    assert_eq!(read_json_text(&chars("\\u12g4\""), 0), None);
    assert_eq!(read_json_text(&chars("\\ud83d\\ude00\""), 0), Some((s("\u{1f600}"), 13)));
    assert_eq!(read_json_text(&chars("\\uDBFF\\uDFFF\""), 0), Some((s("\u{10ffff}"), 13)));
    assert_eq!(read_json_text(&chars("\\ud800\""), 0), None);
    assert_eq!(read_json_text(&chars("\\ude00\\ud83d\""), 0), None);
    assert_eq!(read_json_text(&chars("\\ud83d\\u0041\""), 0), None);
    assert_eq!(read_json_text(&chars("\\ud83dxxxxxx\""), 0), None);
}

// ---------------------------------------------------------------------
// The nREPL bridge
// ---------------------------------------------------------------------

#[test]
fn repair_closes_what_is_open() {
    assert_eq!(paren_repair(""), "");
    assert_eq!(paren_repair("([{"), "([{}])");
    assert_eq!(paren_repair("(a]"), "(a])");
    assert_eq!(paren_repair(")("), ")()");
    assert_eq!(paren_repair("(str \"\\\")\""), "(str \"\\\")\")");
    assert_eq!(paren_repair("(str \"open"), "(str \"open");
    assert_eq!(paren_repair(&paren_repair("([{")), paren_repair("([{"));
}

#[test]
fn values_are_found_under_their_keys() {
    let json = "{\"a\": \"port\", \"port\" : [1], \"n\":-2.5e3}";
    assert_eq!(json_extract_string(json, "a"), Some(s("port")));
    assert_eq!(json_extract_scalar(json, "n"), Some(s("-2.5e3")));
    assert_eq!(json_extract_scalar(json, "port"), Some(s("[1")));
    assert_eq!(json_extract_scalar("{\"a\":}", "a"), None);
    assert_eq!(json_extract_scalar("{\"a\":\"x", "a"), None);
    assert_eq!(json_extract_string("", "a"), None);
    assert_eq!(json_extract_string("{\"a\"}", "a"), None);
}

#[test]
fn errors_are_told_apart_by_their_text() {
    assert!(is_timeout_error("TIMED OUT"));
    assert!(!is_timeout_error(""));
    assert!(is_connection_error("Broken Pipe"));
    assert!(!is_connection_error("connection reset: timeout"));
    assert!(!is_connection_error("Syntax error"));
}

#[test]
fn ports_have_no_blanks_around_them() {
    assert_eq!(read_port(&Some(s("\t 51208 \r\n"))), Some(s("51208")));
    assert_eq!(read_port(&Some(s(""))), None);
}

// ---------------------------------------------------------------------
// The notebook
// ---------------------------------------------------------------------

#[test]
fn a_cell_names_its_session_or_takes_the_default() {
    assert_eq!(
        read_cell("{\"code\":\"(+ 1 2)\"}"),
        Some(Cell { session: s("default"), code: s("(+ 1 2)"), repaired: false })
    );
    assert_eq!(
        read_cell("{\"session\":\"s\",\"code\":\"(str \\\"(\\\"\"}"),
        Some(Cell { session: s("s"), code: s("(str \"(\")"), repaired: true })
    );
    assert_eq!(read_cell("{\"session\":\"s\"}"), None);
    assert_eq!(read_session("{}"), "default");
}

#[test]
fn the_outcome_of_a_cell_stands_on_a_line_of_its_own() {
    assert_eq!(cell_report(false, "", &CellOutcome::Value(s("3"))), "=> 3");
    assert_eq!(cell_report(false, "out", &CellOutcome::Value(s("3"))), "out\n=> 3");
    assert_eq!(
        cell_report(true, "out\n", &CellOutcome::Error(s("boom"))),
        "[repaired unbalanced delimiters]\nout\nERROR: boom"
    );
    assert_eq!(reset_report("s"), "session s cleared");
}

#[test]
fn the_notebook_tools_run_one_by_one() {
    let mut r = Registries::new();
    register_notebook_tools(&mut r);
    let tools = r.list_plugin_tools();
    assert_eq!(tools.len(), 2);
    assert_eq!(tools[0].handler, "notebook-eval-handler");
    assert_eq!(tools[1].handler, "notebook-reset-handler");
    assert_eq!(tools[1].execution_mode, Some(s("sequential")));
    for tool in tools {
        assert!(serde_json::from_str::<serde_json::Value>(&tool.parameters).is_ok());
    }
}
