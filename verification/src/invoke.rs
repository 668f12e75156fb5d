//! Calls of single handlers: commands, tools and renderers.
use vstd::prelude::*;

use crate::escape::janet_literal;
use crate::manager::PluginManager;
use crate::reply::{read_reply, read_string, Outcome, Reply};
use crate::sources::guarded_source;
use crate::wire::push_pair;

verus! {

/// A guarded call of a handler with one text.
pub open spec fn text_call(handler: Seq<char>, text: Seq<char>, mark: Seq<char>) -> Seq<char> {
    crate::sources::guarded_form(handler, crate::escape::literal(text), mark)
}

/// The error of a command as the user reads it.
pub open spec fn command_error_text(handler: Seq<char>, msg: Seq<char>) -> Seq<char> {
    "[plugin] command "@ + handler + " errored: "@ + msg
}

/// What a handler said, where it said something.
pub open spec fn said(
    mark: Seq<char>,
    reply: crate::reply::ReplyView,
) -> Option<Seq<char>> {
    match crate::reply::outcome(mark, reply) {
        crate::reply::OutcomeView::Text(text) => Some(text),
        _ => None,
    }
}

/// The harness after the handler of a command has answered: an error that it
/// raised is queued for the user.
pub open spec fn command_answered(
    h: crate::harness::HarnessView,
    handler: Seq<char>,
    mark: Seq<char>,
    reply: crate::reply::ReplyView,
) -> crate::harness::HarnessView {
    match crate::reply::outcome(mark, reply) {
        crate::reply::OutcomeView::Failed(msg) => h.with_queues(
            h.queues.notified("error"@, command_error_text(handler, msg)),
        ),
        _ => h,
    }
}

/// What a plugin tool comes to: its output, or the error that stopped it.
pub open spec fn tool_output(
    mark: Seq<char>,
    reply: crate::reply::ReplyView,
) -> Result<Seq<char>, Seq<char>> {
    match crate::reply::outcome(mark, reply) {
        crate::reply::OutcomeView::Silent => Ok(Seq::empty()),
        crate::reply::OutcomeView::Text(text) => Ok(text),
        crate::reply::OutcomeView::Failed(msg) => Err(msg),
        crate::reply::OutcomeView::Unavailable(msg) => Err(msg),
    }
}

impl PluginManager {
    fn call_source(&self, handler: &str, text: &str) -> (out: String)
        ensures
            out@ == text_call(handler@, text@, self@.sentinel),
    {
        guarded_source(handler, janet_literal(text).as_str(), self.sentinel.as_str())
    }

    /// The source that calls the handler of a slash command with its
    /// arguments.
    pub fn begin_command(&self, handler: &str, args: &str) -> (source: String)
        ensures
            source@ == text_call(handler@, args@, self@.sentinel),
    {
        self.call_source(handler, args)
    }

    /// What a slash command answers; none where there is nothing to show. An
    /// error that the handler raised is queued for the user.
    pub fn finish_command(&mut self, handler: &str, reply: &Reply) -> (out: Option<String>)
        ensures
            out.deep_view() == said(old(self)@.sentinel, reply.deep_view()),
            final(self)@ == old(self)@.with_harness(
                command_answered(
                    old(self)@.harness,
                    handler@,
                    old(self)@.sentinel,
                    reply.deep_view(),
                ),
            ),
    {
        match read_reply(self.sentinel.as_str(), reply) {
            Outcome::Text(text) => Some(text),
            Outcome::Failed(msg) => {
                let mut line = "[plugin] command ".to_owned();
                line.append(handler);
                line.append(" errored: ");
                line.append(msg.as_str());
                push_pair(&mut self.harness.queues.notifications, "error", line.as_str());
                None
            },
            _ => None,
        }
    }

    /// Marks a tool call as running, and gives the source that calls the
    /// handler of the tool with its arguments, a JSON text.
    pub fn begin_plugin_tool(&mut self, handler: &str, args: &str, call_id: &str) -> (source:
        String)
        ensures
            source@ == text_call(handler@, args@, old(self)@.sentinel),
            final(self)@ == old(self)@.with_harness(
                crate::harness::HarnessView {
                    current_tool_call: Some(call_id@),
                    ..old(self)@.harness
                },
            ),
    {
        self.harness.current_tool_call = Some(call_id.to_owned());
        self.call_source(handler, args)
    }

    /// What a plugin tool comes to. No tool call is running any more, whatever
    /// the reply.
    pub fn finish_plugin_tool(&mut self, reply: &Reply) -> (out: Result<String, String>)
        ensures
            match tool_output(old(self)@.sentinel, reply.deep_view()) {
                Ok(text) => out matches Ok(t) && t@ == text,
                Err(msg) => out matches Err(t) && t@ == msg,
            },
            final(self)@ == old(self)@.with_harness(
                crate::harness::HarnessView { current_tool_call: None, ..old(self)@.harness },
            ),
    {
        self.harness.current_tool_call = None;
        match read_reply(self.sentinel.as_str(), reply) {
            Outcome::Silent => Ok(String::new()),
            Outcome::Text(text) => Ok(text),
            Outcome::Failed(msg) => Err(msg),
            Outcome::Unavailable(msg) => Err(msg),
        }
    }

    /// The source that calls the function that prepares the arguments of a
    /// tool.
    pub fn begin_prepare_arguments(&self, handler: &str, args: &str) -> (source: String)
        ensures
            source@ == text_call(handler@, args@, self@.sentinel),
    {
        self.call_source(handler, args)
    }

    /// The prepared arguments: a string that the function returned. On an error
    /// or on any other value there are none, and the arguments stay as they
    /// were.
    pub fn finish_prepare_arguments(&self, reply: &Reply) -> (out: Option<String>)
        ensures
            out.deep_view() == crate::reply::string_result(self@.sentinel, reply.deep_view()),
    {
        read_string(self.sentinel.as_str(), reply)
    }

    /// Empties the buffer of rendered lines, and gives the source that calls a
    /// renderer.
    pub fn begin_renderer(&mut self, handler: &str, data: &str) -> (source: String)
        ensures
            source@ == text_call(handler@, data@, old(self)@.sentinel),
            final(self)@ == old(self)@.with_queues(
                crate::queues::QueuesView {
                    render_lines: Seq::empty(),
                    ..old(self)@.harness.queues
                },
            ),
    {
        self.harness.queues.render_lines = String::new();
        assert(self.harness.queues.render_lines@ =~= Seq::<char>::empty());
        self.call_source(handler, data)
    }

    /// The lines that a renderer has rendered, with their colors. They count
    /// as they stand when the renderer has failed.
    pub fn finish_renderer(&mut self) -> (out: Vec<(String, String)>)
        ensures
            out.deep_view() == crate::rows::rows::<(String, String)>(
                old(self)@.harness.queues.render_lines,
            ),
            final(self)@ == old(self)@.with_queues(
                crate::queues::QueuesView {
                    render_lines: Seq::empty(),
                    ..old(self)@.harness.queues
                },
            ),
    {
        self.harness.queues.drain_render_lines()
    }

    /// The source that calls a message renderer with the message as JSON.
    pub fn begin_message_renderer(&self, handler: &str, payload: &str) -> (source: String)
        ensures
            source@ == text_call(handler@, payload@, self@.sentinel),
    {
        self.call_source(handler, payload)
    }

    /// What a message renderer returned; none where it failed or returned
    /// nothing.
    pub fn finish_message_renderer(&self, reply: &Reply) -> (out: Option<String>)
        ensures
            out.deep_view() == said(self@.sentinel, reply.deep_view()),
    {
        match read_reply(self.sentinel.as_str(), reply) {
            Outcome::Text(text) => Some(text),
            _ => None,
        }
    }
}

// ---------------------------------------------------------------------
// Laws
// ---------------------------------------------------------------------

/// A progress message belongs to the tool call that runs, and is dropped where
/// none does.
pub proof fn lemma_progress_needs_a_running_tool(
    h: crate::harness::HarnessView,
    call: Option<Seq<char>>,
    msg: Seq<char>,
)
    requires
        h.complete(),
    ensures
        ({
            let running = crate::harness::HarnessView { current_tool_call: call, ..h };
            let after = crate::harness::after_call(
                running,
                crate::ops::HarnessOp::EmitToolProgress,
                seq![crate::value::ValueView::Str(msg)],
            );
            let before = crate::rows::rows::<(String, String)>(h.queues.tool_progress);
            crate::rows::rows::<(String, String)>(after.queues.tool_progress) == (match call {
                Some(id) => before.push((id, msg)),
                None => before,
            })
        }),
{
    crate::queues::lemma_progress_is_drained(
        h.queues,
        call,
        crate::value::ValueView::Str(msg),
    );
}

/// A command whose handler raised an error shows nothing, and tells the user
/// of the error. A command that went well, or has no handler, tells the user
/// nothing.
pub proof fn lemma_command_error_is_shown(
    h: crate::harness::HarnessView,
    handler: Seq<char>,
    mark: Seq<char>,
    msg: Seq<char>,
    reply: crate::reply::ReplyView,
)
    requires
        h.complete(),
    ensures
        ({
            let failed = crate::reply::ReplyView::Value(crate::value::ValueView::Str(mark + msg));
            let after = command_answered(h, handler, mark, failed);
            &&& said(mark, failed) is None
            &&& after.complete()
            &&& crate::rows::rows::<(String, String)>(after.queues.notifications)
                == crate::rows::rows::<(String, String)>(h.queues.notifications).push(
                ("error"@, command_error_text(handler, msg)),
            )
        }),
        !(crate::reply::outcome(mark, reply) is Failed) ==> command_answered(
            h,
            handler,
            mark,
            reply,
        ) == h,
{
    crate::reply::lemma_tagged_error_is_read(mark, msg);
    reveal_strlit("error");
    crate::queues::lemma_notification_is_drained(
        h.queues,
        crate::value::ValueView::Str(command_error_text(handler, msg)),
        crate::value::ValueView::Str("error"@),
    );
}

/// The text that a handler is called with reaches it as it is, whatever
/// characters it holds: behind the name of the handler stands a literal that
/// reads as that text, and behind the literal the rest of the call.
pub proof fn lemma_argument_reaches_handler(
    handler: Seq<char>,
    text: Seq<char>,
    mark: Seq<char>,
)
    ensures
        ({
            let head = "(try ("@ + handler + " "@;
            let whole = text_call(handler, text, mark);
            &&& head.is_prefix_of(whole)
            &&& whole[head.len() as int] == '"'
            &&& crate::escape::read_literal(whole.skip(1 + head.len() as int)) == Some(
                (
                    text,
                    ") ([err] (string "@ + crate::escape::literal(mark) + " err)))"@,
                ),
            )
        }),
{
    reveal_strlit("(try (");
    reveal_strlit("(try ");
    reveal_strlit("(");
    reveal_strlit(") ([err] (string ");
    reveal_strlit(" ([err] (string ");
    reveal_strlit(")");
    let head = "(try ("@ + handler + " "@;
    let rest = ") ([err] (string "@ + crate::escape::literal(mark) + " err)))"@;
    let whole = text_call(handler, text, mark);
    assert("(try ("@ =~= "(try "@ + "("@);
    assert(") ([err] (string "@ =~= ")"@ + " ([err] (string "@);
    assert(whole =~= head + (crate::escape::literal(text) + rest));
    assert(head =~= whole.take(head.len() as int));
    crate::escape::lemma_literal_round_trip(text, rest);
    assert(whole.skip(1 + head.len() as int) =~= (crate::escape::literal(text) + rest).skip(1));
}

/// An error that a handler raised stops a tool with that error, and leaves
/// prepared arguments and a rendered message out. Any other text that a
/// handler returned is taken as it is.
pub proof fn lemma_single_calls_tell_errors_from_results(
    mark: Seq<char>,
    msg: Seq<char>,
    text: Seq<char>,
)
    requires
        text.len() > 0,
        !mark.is_prefix_of(text),
    ensures
        ({
            let failed = crate::reply::ReplyView::Value(crate::value::ValueView::Str(mark + msg));
            let returned = crate::reply::ReplyView::Value(crate::value::ValueView::Str(text));
            &&& tool_output(mark, failed) == Err::<Seq<char>, Seq<char>>(msg)
            &&& crate::reply::string_result(mark, failed) is None
            &&& said(mark, failed) is None
            &&& tool_output(mark, returned) == Ok::<Seq<char>, Seq<char>>(text)
            &&& crate::reply::string_result(mark, returned) == Some(text)
            &&& said(mark, returned) == Some(text)
        }),
{
    crate::reply::lemma_tagged_error_is_read(mark, msg);
}

/// A renderer starts with no lines, so that those of an earlier one are not
/// shown again, and each line that it renders is shown behind the others.
pub proof fn lemma_renderer_shows_its_own_lines(
    q: crate::queues::QueuesView,
    color: crate::value::ValueView,
    text: crate::value::ValueView,
)
    requires
        q.complete(),
        color.name() is Some,
        text.text() is Some,
    ensures
        ({
            let begun = crate::queues::QueuesView { render_lines: Seq::empty(), ..q };
            &&& crate::rows::rows::<(String, String)>(begun.render_lines).len() == 0
            &&& crate::rows::rows::<(String, String)>(begun.rendered(color, text).render_lines)
                == seq![(color.name()->0, text.text()->0)]
            &&& crate::rows::rows::<(String, String)>(q.rendered(color, text).render_lines)
                == crate::rows::rows::<(String, String)>(q.render_lines).push(
                (color.name()->0, text.text()->0),
            )
        }),
{
    let begun = crate::queues::QueuesView { render_lines: Seq::empty(), ..q };
    crate::rows::lemma_no_rows::<(String, String)>();
    crate::queues::lemma_rendered_line_is_drained(begun, color, text);
    crate::queues::lemma_rendered_line_is_drained(q, color, text);
    let line = (color.name()->0, text.text()->0);
    assert(Seq::empty().push(line) =~= seq![line]);
}

/// What a tool gives back is its output, whole: a string as it is, any other
/// value as it prints, and nothing for nil. An error that it raised, or that
/// kept it from running, is the error of the call.
pub proof fn lemma_tool_output_is_what_was_returned(
    mark: Seq<char>,
    s: Seq<char>,
    items: Seq<Seq<char>>,
)
    requires
        mark.len() > 0,
    ensures
        !mark.is_prefix_of(s) ==> tool_output(mark, crate::reply::ReplyView::Value(crate::value::ValueView::Str(s))) == Ok::<
            Seq<char>,
            Seq<char>,
        >(s),
        tool_output(mark, crate::reply::ReplyView::Value(crate::value::ValueView::Keyword(s))) == Ok::<Seq<char>, Seq<char>>(s),
        tool_output(mark, crate::reply::ReplyView::Value(crate::value::ValueView::Other(s))) == Ok::<Seq<char>, Seq<char>>(s),
        tool_output(mark, crate::reply::ReplyView::Value(crate::value::ValueView::List { items, shown: s })) == Ok::<
            Seq<char>,
            Seq<char>,
        >(s),
        tool_output(mark, crate::reply::ReplyView::Value(crate::value::ValueView::Nil)) == Ok::<Seq<char>, Seq<char>>(Seq::empty()),
        tool_output(mark, crate::reply::ReplyView::Value(crate::value::ValueView::Str(mark + s))) == Err::<Seq<char>, Seq<char>>(s),
        tool_output(mark, crate::reply::ReplyView::Error(s)) == Err::<Seq<char>, Seq<char>>(s),
{
    crate::reply::lemma_every_reply_has_its_meaning(mark, s, items);
    if s.len() == 0 {
        assert(s =~= Seq::empty());
    }
}

/// What a command or a message renderer said is shown whole; nil, an empty
/// string, an error and a call that could not be made show nothing. Only an
/// error that was raised is told to the user, with the name of the handler and
/// the whole of its message.
pub proof fn lemma_command_shows_what_was_said(
    h: crate::harness::HarnessView,
    handler: Seq<char>,
    mark: Seq<char>,
    s: Seq<char>,
    items: Seq<Seq<char>>,
)
    requires
        mark.len() > 0,
        h.complete(),
    ensures
        ({
            let shown = if s.len() > 0 {
                Some(s)
            } else {
                None
            };
            &&& !mark.is_prefix_of(s) ==> said(mark, crate::reply::ReplyView::Value(crate::value::ValueView::Str(s))) == shown
                && command_answered(h, handler, mark, crate::reply::ReplyView::Value(crate::value::ValueView::Str(s))) == h
            &&& said(mark, crate::reply::ReplyView::Value(crate::value::ValueView::Keyword(s))) == shown
            &&& said(mark, crate::reply::ReplyView::Value(crate::value::ValueView::Other(s))) == shown
            &&& said(mark, crate::reply::ReplyView::Value(crate::value::ValueView::List { items, shown: s })) == shown
            &&& said(mark, crate::reply::ReplyView::Value(crate::value::ValueView::Nil)) is None
            &&& said(mark, crate::reply::ReplyView::Error(s)) is None
            &&& said(mark, crate::reply::ReplyView::Value(crate::value::ValueView::Str(mark + s))) is None
            &&& command_answered(h, handler, mark, crate::reply::ReplyView::Error(s)) == h
            &&& command_answered(h, handler, mark, crate::reply::ReplyView::Value(crate::value::ValueView::Nil)) == h
        }),
        ({
            let after = command_answered(h, handler, mark, crate::reply::ReplyView::Value(crate::value::ValueView::Str(mark + s)));
            let text = command_error_text(handler, s);
            &&& after == h.with_queues(
                crate::queues::QueuesView {
                    notifications: after.queues.notifications,
                    ..h.queues
                },
            )
            &&& text.skip(text.len() - s.len()) == s
            &&& crate::prelude::stands_in(handler, text)
        }),
{
    crate::reply::lemma_every_reply_has_its_meaning(mark, s, items);
    let text = command_error_text(handler, s);
    assert(text.skip(text.len() - s.len()) =~= s);
    assert(text =~= "[plugin] command "@ + (handler + (" errored: "@ + s)));
}

} // verus!
