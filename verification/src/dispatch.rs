//! The dispatch of hooks: one call per handler, and what the answers come to.
use vstd::prelude::*;

use crate::manager::PluginManager;
use crate::queues::sanitize_hook_error;
use crate::reply::{read_reply, Outcome, Reply};
use crate::slots::ToolHookResult;
use crate::sources::guarded_source;

verus! {

/// A dispatch of a hook under way.
#[derive(Debug)]
pub struct HookRun {
    pub hook: String,
    /// The argument of every handler, as source.
    pub ctx: String,
    pub handlers: Vec<String>,
    /// How many handlers have answered.
    pub next: usize,
    /// What they returned, without those that returned nothing.
    pub results: Vec<String>,
}

/// The mathematical form of a [`HookRun`].
pub struct RunView {
    pub hook: Seq<char>,
    pub ctx: Seq<char>,
    pub handlers: Seq<Seq<char>>,
    pub next: int,
    pub results: Seq<Seq<char>>,
}

impl View for HookRun {
    type V = RunView;

    open spec fn view(&self) -> RunView {
        RunView {
            hook: self.hook@,
            ctx: self.ctx@,
            handlers: self.handlers.deep_view(),
            next: self.next as int,
            results: self.results.deep_view(),
        }
    }
}

/// A handler to call, and the source that calls it.
#[derive(Debug, PartialEq, Eq)]
pub struct HookCall {
    pub handler: String,
    pub source: String,
}

/// The mathematical form of a [`HookCall`].
pub struct HookCallView {
    pub handler: Seq<char>,
    pub source: Seq<char>,
}

impl DeepView for HookCall {
    type V = HookCallView;

    open spec fn deep_view(&self) -> HookCallView {
        HookCallView { handler: self.handler@, source: self.source@ }
    }
}

/// A dispatch at its start: all handlers of the hook are to be called, in the
/// order of their registration.
pub open spec fn run_begun(
    hooks: Seq<crate::hooks::HookEntryView>,
    hook: Seq<char>,
    ctx: Seq<char>,
) -> RunView {
    RunView {
        hook,
        ctx,
        handlers: crate::hooks::handlers_of(hooks, hook),
        next: 0,
        results: Seq::empty(),
    }
}

/// The handler whose turn it is, in a call whose errors come back tagged.
pub open spec fn call_of(run: RunView, mark: Seq<char>) -> Option<HookCallView> {
    if 0 <= run.next < run.handlers.len() {
        let handler = run.handlers[run.next];
        Some(
            HookCallView {
                handler,
                source: crate::sources::guarded_form(handler, run.ctx, mark),
            },
        )
    } else {
        None
    }
}

/// What one reply adds to the results.
pub open spec fn result_of(mark: Seq<char>, reply: crate::reply::ReplyView) -> Seq<Seq<char>> {
    match crate::reply::outcome(mark, reply) {
        crate::reply::OutcomeView::Text(text) => seq![text],
        _ => Seq::empty(),
    }
}

/// What some replies add to the results, in order.
pub open spec fn results_of(
    mark: Seq<char>,
    replies: Seq<crate::reply::ReplyView>,
) -> Seq<Seq<char>>
    decreases replies.len(),
{
    if replies.len() == 0 {
        Seq::empty()
    } else {
        results_of(mark, replies.drop_last()) + result_of(mark, replies.last())
    }
}

/// The dispatch after the handler whose turn it was has answered.
pub open spec fn run_answered(
    run: RunView,
    mark: Seq<char>,
    reply: crate::reply::ReplyView,
) -> RunView {
    if 0 <= run.next < run.handlers.len() {
        RunView { next: run.next + 1, results: run.results + result_of(mark, reply), ..run }
    } else {
        run
    }
}

/// The error of a handler as the user reads it.
pub open spec fn hook_error_text(
    hook: Seq<char>,
    handler: Seq<char>,
    msg: Seq<char>,
) -> Seq<char> {
    "[plugin] "@ + hook + " ("@ + handler + ") errored: "@ + msg
}

/// The harness after a handler has answered: an error that it raised is queued
/// for the user, on one line.
pub open spec fn harness_answered(
    h: crate::harness::HarnessView,
    run: RunView,
    mark: Seq<char>,
    reply: crate::reply::ReplyView,
) -> crate::harness::HarnessView {
    if 0 <= run.next < run.handlers.len() {
        match crate::reply::outcome(mark, reply) {
            crate::reply::OutcomeView::Failed(msg) => h.with_queues(
                h.queues.hook_error(
                    crate::queues::sanitized(
                        hook_error_text(run.hook, run.handlers[run.next], msg),
                    ),
                ),
            ),
            _ => h,
        }
    } else {
        h
    }
}

fn hook_error_line(hook: &str, handler: &str, msg: &str) -> (out: String)
    ensures
        out@ == crate::queues::sanitized(hook_error_text(hook@, handler@, msg@)),
{
    let mut out = "[plugin] ".to_owned();
    out.append(hook);
    out.append(" (");
    out.append(handler);
    out.append(") errored: ");
    out.append(msg);
    sanitize_hook_error(out.as_str())
}

impl PluginManager {
    /// Starts a dispatch.
    pub fn begin_dispatch(&self, hook: &str, ctx: &str) -> (run: HookRun)
        ensures
            run@ == run_begun(self@.hooks, hook@, ctx@),
    {
        let run = HookRun {
            hook: hook.to_owned(),
            ctx: ctx.to_owned(),
            handlers: self.hooks.handlers(hook),
            next: 0,
            results: Vec::new(),
        };
        assert(run@.results =~= Seq::<Seq<char>>::empty());
        run
    }

    /// The call to make next; none when every handler has answered.
    pub fn next_call(&self, run: &HookRun) -> (call: Option<HookCall>)
        ensures
            call.deep_view() == call_of(run@, self@.sentinel),
    {
        if run.next < run.handlers.len() {
            let handler = run.handlers[run.next].clone();
            assert(run@.handlers[run.next as int] == handler@);
            let source = guarded_source(handler.as_str(), run.ctx.as_str(), self.sentinel.as_str());
            Some(HookCall { handler, source })
        } else {
            None
        }
    }

    /// Takes the answer of the handler whose turn it was. A handler that fails
    /// stops no other.
    pub fn finish_call(&mut self, run: &mut HookRun, reply: &Reply)
        ensures
            final(run)@ == run_answered(old(run)@, old(self)@.sentinel, reply.deep_view()),
            final(self)@ == old(self)@.with_harness(
                harness_answered(
                    old(self)@.harness,
                    old(run)@,
                    old(self)@.sentinel,
                    reply.deep_view(),
                ),
            ),
    {
        if run.next < run.handlers.len() {
            let ghost before = run.results.deep_view();
            assert(run@.handlers[run.next as int] == run.handlers@[run.next as int]@);
            match read_reply(self.sentinel.as_str(), reply) {
                Outcome::Text(text) => {
                    run.results.push(text);
                    assert(run.results.deep_view() =~= before + seq![text@]);
                },
                Outcome::Failed(msg) => {
                    let line = hook_error_line(
                        run.hook.as_str(),
                        run.handlers[run.next].as_str(),
                        msg.as_str(),
                    );
                    self.harness.queues.push_hook_err(line.as_str());
                    assert(before =~= before + Seq::<Seq<char>>::empty());
                },
                _ => {
                    assert(before =~= before + Seq::<Seq<char>>::empty());
                },
            }
            run.next = run.next + 1;
        }
    }

    /// Ends a dispatch: what the handlers returned.
    pub fn finish_dispatch(&self, run: HookRun) -> (out: Vec<String>)
        ensures
            out.deep_view() == run@.results,
    {
        run.results
    }

    /// Starts the hooks of a tool call and empties its slots. Where nothing
    /// listens there is no run, and nothing is touched.
    pub fn begin_tool_hook(&mut self, hook: &str, ctx: &str) -> (run: Option<HookRun>)
        ensures
            run is Some <==> crate::hooks::has_handlers(old(self)@.hooks, hook@),
            run is None ==> final(self)@ == old(self)@,
            run matches Some(r) ==> {
                &&& r@ == run_begun(old(self)@.hooks, hook@, ctx@)
                &&& final(self)@ == old(self)@.with_slots(
                    old(self)@.harness.slots.tool_slots_cleared(),
                )
            },
    {
        if self.has_hook(hook) {
            self.harness.slots.clear_tool_slots();
            Some(self.begin_dispatch(hook, ctx))
        } else {
            None
        }
    }

    /// The call to make next for a tool call; none when every handler has
    /// answered, or as soon as one has blocked the call.
    pub fn next_tool_call(&self, run: &HookRun) -> (call: Option<HookCall>)
        ensures
            call.deep_view() == if self@.harness.slots.block is Some {
                None
            } else {
                call_of(run@, self@.sentinel)
            },
    {
        if self.has_pending_block() {
            None
        } else {
            self.next_call(run)
        }
    }

    /// Ends the hooks of a tool call: what they decided. Without a run they
    /// decided nothing.
    pub fn finish_tool_hook(&mut self, run: Option<HookRun>) -> (out: ToolHookResult)
        ensures
            run is None ==> {
                &&& out@ == crate::slots::ToolHookResultView::unchanged()
                &&& final(self)@ == old(self)@
            },
            run is Some ==> {
                &&& out@ == old(self)@.harness.slots.tool_result()
                &&& final(self)@ == old(self)@.with_slots(
                    old(self)@.harness.slots.tool_slots_cleared(),
                )
            },
    {
        match run {
            Some(_) => self.harness.slots.take_tool_result(),
            None => ToolHookResult::default(),
        }
    }
}

// ---------------------------------------------------------------------
// Laws
// ---------------------------------------------------------------------

/// A dispatch after some more replies.
pub open spec fn run_after(
    run: RunView,
    mark: Seq<char>,
    replies: Seq<crate::reply::ReplyView>,
) -> RunView
    decreases replies.len(),
{
    if replies.len() == 0 {
        run
    } else {
        run_answered(run_after(run, mark, replies.drop_last()), mark, replies.last())
    }
}

/// Every reply takes one turn and adds what it has to say, in order; nothing
/// that an earlier handler returned is lost.
pub proof fn lemma_dispatch_collects_results(
    run: RunView,
    mark: Seq<char>,
    replies: Seq<crate::reply::ReplyView>,
)
    requires
        0 <= run.next,
        run.next + replies.len() <= run.handlers.len(),
    ensures
        run_after(run, mark, replies) == (RunView {
            next: run.next + replies.len(),
            results: run.results + results_of(mark, replies),
            ..run
        }),
    decreases replies.len(),
{
    if replies.len() == 0 {
        assert(run.results + Seq::<Seq<char>>::empty() =~= run.results);
    } else {
        lemma_dispatch_collects_results(run, mark, replies.drop_last());
        assert(run.results + results_of(mark, replies) =~= run.results + results_of(
            mark,
            replies.drop_last(),
        ) + result_of(mark, replies.last()));
    }
}

/// A dispatch calls every handler of its hook once, in the order of their
/// registration, with the same argument, and is over when all have answered,
/// whatever they answered. Its results are what they returned.
pub proof fn lemma_dispatch_calls_every_handler(
    hooks: Seq<crate::hooks::HookEntryView>,
    hook: Seq<char>,
    ctx: Seq<char>,
    mark: Seq<char>,
    replies: Seq<crate::reply::ReplyView>,
)
    requires
        replies.len() == crate::hooks::handlers_of(hooks, hook).len(),
    ensures
        forall|i: int|
            0 <= i < replies.len() ==> call_of(
                #[trigger] run_after(run_begun(hooks, hook, ctx), mark, replies.take(i)),
                mark,
            ) == Some(
                HookCallView {
                    handler: crate::hooks::handlers_of(hooks, hook)[i],
                    source: crate::sources::guarded_form(
                        crate::hooks::handlers_of(hooks, hook)[i],
                        ctx,
                        mark,
                    ),
                },
            ),
        call_of(run_after(run_begun(hooks, hook, ctx), mark, replies), mark) is None,
        run_after(run_begun(hooks, hook, ctx), mark, replies).results == results_of(mark, replies),
{
    let run = run_begun(hooks, hook, ctx);
    assert forall|i: int| 0 <= i < replies.len() implies call_of(
        #[trigger] run_after(run, mark, replies.take(i)),
        mark,
    ) == Some(
        HookCallView {
            handler: crate::hooks::handlers_of(hooks, hook)[i],
            source: crate::sources::guarded_form(
                crate::hooks::handlers_of(hooks, hook)[i],
                ctx,
                mark,
            ),
        },
    ) by {
        lemma_dispatch_collects_results(run, mark, replies.take(i));
    }
    lemma_dispatch_collects_results(run, mark, replies);
    assert(Seq::<Seq<char>>::empty() + results_of(mark, replies) =~= results_of(mark, replies));
}

/// A hook that nothing listens to is dispatched to no one.
pub proof fn lemma_dispatch_without_handlers(
    hooks: Seq<crate::hooks::HookEntryView>,
    hook: Seq<char>,
    ctx: Seq<char>,
    mark: Seq<char>,
)
    requires
        !crate::hooks::has_handlers(hooks, hook),
    ensures
        call_of(run_begun(hooks, hook, ctx), mark) is None,
        run_begun(hooks, hook, ctx).results.len() == 0,
{
}

/// A handler that raised an error takes its turn, adds no result, and the user
/// is told: the error stands behind everything that was pending, on one line,
/// with the hook and what was raised.
pub proof fn lemma_hook_failure_is_shown(
    h: crate::harness::HarnessView,
    run: RunView,
    mark: Seq<char>,
    msg: Seq<char>,
)
    requires
        h.complete(),
        0 <= run.next < run.handlers.len(),
        h.queues.last_hook_error != Some(
            crate::queues::sanitized(hook_error_text(run.hook, run.handlers[run.next], msg)),
        ),
    ensures
        ({
            let reply = crate::reply::ReplyView::Value(
                crate::value::ValueView::Str(mark + msg),
            );
            let line = crate::queues::sanitized(
                hook_error_text(run.hook, run.handlers[run.next], msg),
            );
            let after = harness_answered(h, run, mark, reply);
            &&& run_answered(run, mark, reply).next == run.next + 1
            &&& run_answered(run, mark, reply).results == run.results
            &&& after.queues.pending_notifications() == h.queues.pending_notifications().push(
                ("error"@, line),
            )
            &&& !line.contains('\n') && !line.contains('\t')
        }),
{
    let reply = crate::reply::ReplyView::Value(crate::value::ValueView::Str(mark + msg));
    let text = hook_error_text(run.hook, run.handlers[run.next], msg);
    let line = crate::queues::sanitized(text);
    crate::reply::lemma_tagged_error_is_read(mark, msg);
    assert(run.results + Seq::<Seq<char>>::empty() =~= run.results);
    crate::queues::lemma_repeated_hook_error_is_coalesced(h.queues, line, 1);
    reveal_with_fuel(crate::queues::hook_error_times, 2);
    assert forall|i: int| 0 <= i < line.len() implies line[i] != '\n' && line[i] != '\t' by {}
}

/// Answers of handlers leave no unfinished record behind.
pub proof fn lemma_answers_keep_blobs_complete(
    h: crate::harness::HarnessView,
    run: RunView,
    mark: Seq<char>,
    reply: crate::reply::ReplyView,
)
    requires
        h.complete(),
    ensures
        harness_answered(h, run, mark, reply).complete(),
{
    broadcast use crate::wire::lemma_record_completes;

    assert(h.queues.repeats_flushed().complete());
}

/// The call that a tool call has to make next.
pub open spec fn tool_call_of(m: crate::manager::ManagerView, run: RunView) -> Option<HookCallView> {
    if m.harness.slots.block is Some {
        None
    } else {
        call_of(run, m.sentinel)
    }
}

/// Once a handler has blocked the tool call no further handler is called, and
/// the reason that it gave is the one that the host sees. No other function of
/// the harness stops the run.
pub proof fn lemma_first_blocker_wins(
    m: crate::manager::ManagerView,
    run: RunView,
    op: crate::ops::HarnessOp,
    args: Seq<crate::value::ValueView>,
)
    requires
        m.harness.slots.block is None,
    ensures
        ({
            let after = m.with_harness(crate::harness::after_call(m.harness, op, args));
            let reason = crate::value::arg(args, 0).text();
            if op == crate::ops::HarnessOp::Block && reason is Some {
                &&& tool_call_of(after, run) is None
                &&& after.harness.slots.tool_result().block == reason
            } else {
                tool_call_of(after, run) == tool_call_of(m, run)
            }
        }),
{
}

/// Of several texts for the output of a tool, or for its arguments, the last
/// one counts.
pub proof fn lemma_last_mutation_wins(
    h: crate::harness::HarnessView,
    first: Seq<char>,
    second: Seq<char>,
)
    ensures
        ({
            let a = seq![crate::value::ValueView::Str(first)];
            let b = seq![crate::value::ValueView::Str(second)];
            let replace = crate::ops::HarnessOp::ReplaceResult;
            let mutate = crate::ops::HarnessOp::MutateInput;
            &&& crate::harness::after_call(
                crate::harness::after_call(h, replace, a),
                replace,
                b,
            ).slots.tool_result().replace_result == Some(second)
            &&& crate::harness::after_call(
                crate::harness::after_call(h, mutate, a),
                mutate,
                b,
            ).slots.tool_result().mutate_input == Some(second)
        }),
{
}

/// What a handler returned is its result, as it returned it: a string that is
/// not empty and does not begin with the sentinel stands behind the results
/// before it, whole and however long it is. Its turn is over, nothing else of
/// the dispatch changes, and the harness stays as it is.
pub proof fn lemma_returned_text_is_a_result(
    h: crate::harness::HarnessView,
    run: RunView,
    mark: Seq<char>,
    s: Seq<char>,
)
    requires
        0 <= run.next < run.handlers.len(),
        s.len() > 0,
        !mark.is_prefix_of(s),
    ensures
        ({
            let reply = crate::reply::ReplyView::Value(crate::value::ValueView::Str(s));
            let after = run_answered(run, mark, reply);
            &&& after.results == run.results.push(s)
            &&& after.next == run.next + 1
            &&& after.hook == run.hook
            &&& after.ctx == run.ctx
            &&& after.handlers == run.handlers
            &&& harness_answered(h, run, mark, reply) == h
        }),
{
    assert(run.results + seq![s] =~= run.results.push(s));
}

/// A keyword, a number or any other value is a result as it prints, and a
/// boolean is one by its name.
pub proof fn lemma_returned_value_is_a_result(
    h: crate::harness::HarnessView,
    run: RunView,
    mark: Seq<char>,
    v: crate::value::ValueView,
    s: Seq<char>,
    items: Seq<Seq<char>>,
)
    requires
        0 <= run.next < run.handlers.len(),
        s.len() > 0,
        v == crate::value::ValueView::Keyword(s) || v == crate::value::ValueView::Other(s) || v == (
        crate::value::ValueView::List { items, shown: s }) || (v
            == crate::value::ValueView::Boolean(true) && s == "true"@) || (v
            == crate::value::ValueView::Boolean(false) && s == "false"@),
    ensures
        ({
            let reply = crate::reply::ReplyView::Value(v);
            &&& run_answered(run, mark, reply).results == run.results.push(s)
            &&& run_answered(run, mark, reply).next == run.next + 1
            &&& harness_answered(h, run, mark, reply) == h
        }),
{
    assert(run.results + seq![s] =~= run.results.push(s));
}

/// A handler that returned nil or an empty string, or that could not be called,
/// takes its turn and leaves no trace.
pub proof fn lemma_silent_handler_leaves_no_trace(
    h: crate::harness::HarnessView,
    run: RunView,
    mark: Seq<char>,
    reply: crate::reply::ReplyView,
    msg: Seq<char>,
)
    requires
        0 <= run.next < run.handlers.len(),
        mark.len() > 0,
        reply == crate::reply::ReplyView::Value(crate::value::ValueView::Nil) || reply
            == crate::reply::ReplyView::Value(crate::value::ValueView::Str(Seq::empty())) || reply
            == crate::reply::ReplyView::Error(msg),
    ensures
        run_answered(run, mark, reply) == (RunView { next: run.next + 1, ..run }),
        harness_answered(h, run, mark, reply) == h,
{
    assert(run.results + Seq::<Seq<char>>::empty() =~= run.results);
}

/// A dispatch whose handlers all returned texts returns these texts, one for
/// each handler and in their order.
pub proof fn lemma_dispatch_returns_every_text(
    run: RunView,
    mark: Seq<char>,
    texts: Seq<Seq<char>>,
)
    requires
        0 <= run.next,
        run.next + texts.len() <= run.handlers.len(),
        forall|i: int|
            0 <= i < texts.len() ==> (#[trigger] texts[i]).len() > 0 && !mark.is_prefix_of(
                texts[i],
            ),
    ensures
        ({
            let replies = texts.map_values(
                |s: Seq<char>| crate::reply::ReplyView::Value(crate::value::ValueView::Str(s)),
            );
            &&& run_after(run, mark, replies).results == run.results + texts
            &&& run_after(run, mark, replies).next == run.next + texts.len()
        }),
    decreases texts.len(),
{
    let replies = texts.map_values(
        |s: Seq<char>| crate::reply::ReplyView::Value(crate::value::ValueView::Str(s)),
    );
    lemma_dispatch_collects_results(run, mark, replies);
    if texts.len() == 0 {
        assert(run.results + texts =~= run.results);
    } else {
        let shorter = texts.drop_last();
        assert forall|i: int| 0 <= i < shorter.len() implies (#[trigger] shorter[i]).len() > 0
            && !mark.is_prefix_of(shorter[i]) by {
            assert(texts[i].len() > 0);
        }
        lemma_dispatch_returns_every_text(run, mark, shorter);
        let before = shorter.map_values(
            |s: Seq<char>| crate::reply::ReplyView::Value(crate::value::ValueView::Str(s)),
        );
        assert(replies.drop_last() =~= before);
        lemma_dispatch_collects_results(run, mark, before);
        assert(texts[texts.len() - 1].len() > 0);
        assert(run.results + shorter + seq![texts.last()] =~= run.results + texts);
    }
}

/// A dispatch is for the handlers of its hook alone: one that is registered for
/// the hook is called behind the others, and one for another hook is not. Each
/// is called with the argument of the dispatch.
pub proof fn lemma_dispatch_is_for_its_hook(
    hooks: Seq<crate::hooks::HookEntryView>,
    hook: Seq<char>,
    ctx: Seq<char>,
    handler: Seq<char>,
    other: Seq<char>,
)
    requires
        other != hook,
    ensures
        run_begun(Seq::empty(), hook, ctx).handlers.len() == 0,
        run_begun(crate::hooks::registered(hooks, hook, handler), hook, ctx).handlers == run_begun(
            hooks,
            hook,
            ctx,
        ).handlers.push(handler),
        run_begun(crate::hooks::registered(hooks, other, handler), hook, ctx) == run_begun(
            hooks,
            hook,
            ctx,
        ),
        run_begun(hooks, hook, ctx).hook == hook,
        run_begun(hooks, hook, ctx).ctx == ctx,
        run_begun(hooks, hook, ctx).next == 0,
        run_begun(hooks, hook, ctx).results.len() == 0,
{
    crate::hooks::lemma_hooks_without_handlers(hooks, hook);
    crate::hooks::lemma_registration_is_found(hooks, hook, handler);
    crate::hooks::lemma_registration_is_local(hooks, other, handler, hook);
}

/// The error of a handler is told whole: its line names the hook and the
/// handler, and ends with what was raised, with blanks for line feeds and tabs.
pub proof fn lemma_hook_error_is_told_whole(
    hook: Seq<char>,
    handler: Seq<char>,
    msg: Seq<char>,
)
    ensures
        ({
            let text = hook_error_text(hook, handler, msg);
            let line = crate::queues::sanitized(text);
            &&& line.len() == text.len()
            &&& text.skip(text.len() - msg.len()) == msg
            &&& crate::prelude::stands_in(hook + " ("@ + handler + ")"@, text)
            &&& forall|i: int|
                0 <= i < text.len() ==> #[trigger] line[i] == (if text[i] == '\n' || text[i]
                    == '\t' {
                    ' '
                } else {
                    text[i]
                })
        }),
{
    reveal_strlit(") errored: ");
    reveal_strlit(")");
    let text = hook_error_text(hook, handler, msg);
    assert(text.skip(text.len() - msg.len()) =~= msg);
    let part = hook + " ("@ + handler + ")"@;
    let tail = ") errored: "@.skip(1) + msg;
    assert(text =~= "[plugin] "@ + (part + tail));
}

/// The error of a handler touches the notifications alone.
pub proof fn lemma_hook_failure_is_local(
    h: crate::harness::HarnessView,
    run: RunView,
    mark: Seq<char>,
    reply: crate::reply::ReplyView,
)
    requires
        h.complete(),
    ensures
        ({
            let after = harness_answered(h, run, mark, reply);
            &&& after == h.with_queues(after.queues)
            &&& after.queues == (crate::queues::QueuesView {
                notifications: after.queues.notifications,
                last_hook_error: after.queues.last_hook_error,
                hook_error_repeats: after.queues.hook_error_repeats,
                ..h.queues
            })
        }),
{
}

/// An answer when every handler has had its turn changes nothing.
pub proof fn lemma_late_answer_changes_nothing(
    h: crate::harness::HarnessView,
    run: RunView,
    mark: Seq<char>,
    reply: crate::reply::ReplyView,
)
    requires
        run.next >= run.handlers.len(),
    ensures
        run_answered(run, mark, reply) == run,
        harness_answered(h, run, mark, reply) == h,
        call_of(run, mark) is None,
{
}

} // verus!
