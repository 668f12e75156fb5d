//! The queues that plugin code fills and the host drains.
//!
//! Every queue is a blob. Plugin code appends records to it through the
//! harness, and may assign to it directly; the host reads all records and
//! empties it.
use vstd::prelude::*;

use crate::rows::{drain_rows, read_flag, write_flag, Row};
use crate::text::{numeral_text, same_text};
use crate::tree::TreeOp;
use crate::value::Value;
use crate::wire::{push_one, push_pair, push_record, push_triple};

verus! {

// ---------------------------------------------------------------------
// What the queues carry
// ---------------------------------------------------------------------

/// A message that a plugin adds to the conversation.
#[derive(Debug, PartialEq, Eq)]
pub struct CustomMessage {
    pub custom_type: String,
    pub content: String,
    pub display: bool,
}

/// The mathematical form of a [`CustomMessage`].
pub struct CustomMessageView {
    pub custom_type: Seq<char>,
    pub content: Seq<char>,
    pub display: bool,
}

impl DeepView for CustomMessage {
    type V = CustomMessageView;

    open spec fn deep_view(&self) -> CustomMessageView {
        CustomMessageView {
            custom_type: self.custom_type@,
            content: self.content@,
            display: self.display,
        }
    }
}

impl Row for CustomMessage {
    open spec fn row_value(row: Seq<Seq<char>>) -> Option<CustomMessageView> {
        if row.len() < 2 {
            None
        } else {
            Some(
                CustomMessageView {
                    custom_type: row[0],
                    content: row[1],
                    display: crate::rows::flag_at(row, 2),
                },
            )
        }
    }

    fn read_row(row: &Vec<String>) -> (out: Option<Self>) {
        if row.len() < 2 {
            None
        } else {
            Some(
                CustomMessage {
                    custom_type: row[0].clone(),
                    content: row[1].clone(),
                    display: read_flag(row, 2),
                },
            )
        }
    }
}

/// A session entry: its type, its data, and whether it is shown.
impl Row for (String, String, bool) {
    open spec fn row_value(row: Seq<Seq<char>>) -> Option<(Seq<char>, Seq<char>, bool)> {
        if row.len() < 2 {
            None
        } else {
            Some((row[0], row[1], crate::rows::flag_at(row, 2)))
        }
    }

    fn read_row(row: &Vec<String>) -> (out: Option<Self>) {
        if row.len() < 2 {
            None
        } else {
            Some((row[0].clone(), row[1].clone(), read_flag(row, 2)))
        }
    }
}

// ---------------------------------------------------------------------
// The queues
// ---------------------------------------------------------------------

/// All queues, each as the blob that plugin code has written so far, and what
/// the coalescing of hook errors remembers.
#[derive(Debug)]
pub struct Queues {
    pub notifications: String,
    pub tool_progress: String,
    pub custom_messages: String,
    pub steering: String,
    pub followup: String,
    pub log: String,
    pub entries: String,
    pub tree_ops: String,
    pub render_lines: String,
    /// The hook error that was queued last.
    pub last_hook_error: Option<String>,
    /// How often that error came again since it was queued.
    pub hook_error_repeats: u64,
}

/// The mathematical form of [`Queues`].
pub struct QueuesView {
    pub notifications: Seq<char>,
    pub tool_progress: Seq<char>,
    pub custom_messages: Seq<char>,
    pub steering: Seq<char>,
    pub followup: Seq<char>,
    pub log: Seq<char>,
    pub entries: Seq<char>,
    pub tree_ops: Seq<char>,
    pub render_lines: Seq<char>,
    pub last_hook_error: Option<Seq<char>>,
    pub hook_error_repeats: u64,
}

impl View for Queues {
    type V = QueuesView;

    open spec fn view(&self) -> QueuesView {
        QueuesView {
            notifications: self.notifications@,
            tool_progress: self.tool_progress@,
            custom_messages: self.custom_messages@,
            steering: self.steering@,
            followup: self.followup@,
            log: self.log@,
            entries: self.entries@,
            tree_ops: self.tree_ops@,
            render_lines: self.render_lines@,
            last_hook_error: self.last_hook_error.deep_view(),
            hook_error_repeats: self.hook_error_repeats,
        }
    }
}

/// The level under which a notification is queued: the one that was given, as
/// a keyword or a string, where it is known, else `info`.
pub open spec fn level_name(level: crate::value::ValueView) -> Seq<char> {
    match level.name() {
        Some(name) => if name == "warn"@ || name == "error"@ {
            name
        } else {
            "info"@
        },
        None => "info"@,
    }
}

/// A hook error on one line: line feeds and tabs are blanks.
pub open spec fn sanitized(msg: Seq<char>) -> Seq<char> {
    msg.map_values(
        |c: char|
            if c == '\n' || c == '\t' {
                ' '
            } else {
                c
            },
    )
}

/// The line that sums up the repetitions of a hook error.
pub open spec fn repeat_summary(msg: Seq<char>, times: nat) -> Seq<char> {
    msg + " (repeated "@ + crate::text::numeral(times, 10) + " times)"@
}

impl QueuesView {
    /// Queues in which nothing was written yet.
    pub open spec fn empty() -> QueuesView {
        QueuesView {
            notifications: Seq::empty(),
            tool_progress: Seq::empty(),
            custom_messages: Seq::empty(),
            steering: Seq::empty(),
            followup: Seq::empty(),
            log: Seq::empty(),
            entries: Seq::empty(),
            tree_ops: Seq::empty(),
            render_lines: Seq::empty(),
            last_hook_error: None,
            hook_error_repeats: 0,
        }
    }

    /// Every record of every queue is finished.
    pub open spec fn complete(self) -> bool {
        &&& crate::wire::complete(self.notifications)
        &&& crate::wire::complete(self.tool_progress)
        &&& crate::wire::complete(self.custom_messages)
        &&& crate::wire::complete(self.steering)
        &&& crate::wire::complete(self.followup)
        &&& crate::wire::complete(self.log)
        &&& crate::wire::complete(self.entries)
        &&& crate::wire::complete(self.tree_ops)
        &&& crate::wire::complete(self.render_lines)
    }

    pub open spec fn notified(self, level: Seq<char>, msg: Seq<char>) -> QueuesView {
        QueuesView {
            notifications: self.notifications + crate::wire::record(seq![level, msg]),
            ..self
        }
    }

    /// After `(harness/notify msg level)`. Only a string is a message.
    pub open spec fn notify(
        self,
        msg: crate::value::ValueView,
        level: crate::value::ValueView,
    ) -> QueuesView {
        match msg.text() {
            Some(text) => self.notified(level_name(level), text),
            None => self,
        }
    }

    /// After the repetitions of the last hook error were summed up.
    pub open spec fn repeats_flushed(self) -> QueuesView {
        if self.hook_error_repeats > 0 && self.last_hook_error is Some {
            QueuesView {
                hook_error_repeats: 0,
                ..self.notified(
                    "error"@,
                    repeat_summary(self.last_hook_error->0, self.hook_error_repeats as nat),
                )
            }
        } else {
            self
        }
    }

    /// After a hook error: the one that was queued last is only counted, any
    /// other is queued behind the summary of the last.
    pub open spec fn hook_error(self, msg: Seq<char>) -> QueuesView {
        if self.last_hook_error == Some(msg) {
            if self.hook_error_repeats < u64::MAX {
                QueuesView {
                    hook_error_repeats: (self.hook_error_repeats + 1) as u64,
                    ..self
                }
            } else {
                self
            }
        } else {
            QueuesView {
                last_hook_error: Some(msg),
                hook_error_repeats: 0,
                ..self.repeats_flushed().notified("error"@, msg)
            }
        }
    }

    /// After all notifications were drained.
    pub open spec fn notifications_drained(self) -> QueuesView {
        QueuesView {
            notifications: Seq::empty(),
            last_hook_error: None,
            hook_error_repeats: 0,
            ..self
        }
    }

    /// The notifications that a drain hands out, with their levels.
    pub open spec fn pending_notifications(self) -> Seq<(Seq<char>, Seq<char>)> {
        crate::rows::rows::<(String, String)>(self.repeats_flushed().notifications)
    }

    /// After `(harness/log msg)`.
    pub open spec fn logged(self, msg: crate::value::ValueView) -> QueuesView {
        match msg.text() {
            Some(text) => QueuesView {
                log: self.log + crate::wire::record(seq![text]),
                ..self
            },
            None => self,
        }
    }

    /// After `(harness/add-steering msg)`.
    pub open spec fn steered(self, msg: crate::value::ValueView) -> QueuesView {
        match msg.text() {
            Some(text) => QueuesView {
                steering: self.steering + crate::wire::record(seq![text]),
                ..self
            },
            None => self,
        }
    }

    /// After `(harness/add-followup msg)`.
    pub open spec fn followed_up(self, msg: crate::value::ValueView) -> QueuesView {
        match msg.text() {
            Some(text) => QueuesView {
                followup: self.followup + crate::wire::record(seq![text]),
                ..self
            },
            None => self,
        }
    }

    pub open spec fn custom_queued(self, msg: CustomMessageView) -> QueuesView {
        QueuesView {
            custom_messages: self.custom_messages + crate::wire::record(
                seq![msg.custom_type, msg.content, crate::rows::flag_text(msg.display)],
            ),
            ..self
        }
    }

    /// After `(harness/add-custom-message first second display)`. With one
    /// argument it is the content, and the type is empty.
    pub open spec fn custom_added(
        self,
        first: crate::value::ValueView,
        second: crate::value::ValueView,
        display: crate::value::ValueView,
    ) -> QueuesView {
        match custom_message(first, second, display) {
            Some(msg) => self.custom_queued(msg),
            None => self,
        }
    }

    /// After `(harness/append-entry kind data shown)`.
    pub open spec fn entry_appended(
        self,
        kind: crate::value::ValueView,
        data: crate::value::ValueView,
        shown: crate::value::ValueView,
    ) -> QueuesView {
        match (kind.text(), data.text()) {
            (Some(k), Some(d)) => QueuesView {
                entries: self.entries + crate::wire::record(
                    seq![k, d, crate::rows::flag_text(is_on(shown))],
                ),
                ..self
            },
            _ => self,
        }
    }

    /// After `(harness/emit-tool-progress msg)` while the tool call `call`
    /// runs, if one does.
    pub open spec fn progressed(
        self,
        call: Option<Seq<char>>,
        msg: crate::value::ValueView,
    ) -> QueuesView {
        match (call, msg.text()) {
            (Some(id), Some(text)) => QueuesView {
                tool_progress: self.tool_progress + crate::wire::record(seq![id, text]),
                ..self
            },
            _ => self,
        }
    }

    /// After `(harness/render color text)`.
    pub open spec fn rendered(
        self,
        color: crate::value::ValueView,
        text: crate::value::ValueView,
    ) -> QueuesView {
        match (color.name(), text.text()) {
            (Some(c), Some(t)) => QueuesView {
                render_lines: self.render_lines + crate::wire::record(seq![c, t]),
                ..self
            },
            _ => self,
        }
    }

    /// After a tree operation was queued.
    pub open spec fn tree_queued(self, op: Option<crate::tree::TreeOpView>) -> QueuesView {
        match op {
            Some(op) => QueuesView {
                tree_ops: self.tree_ops + crate::wire::record(crate::tree::tree_fields(op)),
                ..self
            },
            None => self,
        }
    }
}

/// A flag argument is on unless it is `false`.
pub open spec fn is_on(v: crate::value::ValueView) -> bool {
    v != crate::value::ValueView::Boolean(false)
}

/// The message that the arguments of `harness/add-custom-message` stand for.
pub open spec fn custom_message(
    first: crate::value::ValueView,
    second: crate::value::ValueView,
    display: crate::value::ValueView,
) -> Option<CustomMessageView> {
    match first.text() {
        Some(text) => if second is Nil {
            Some(
                CustomMessageView {
                    custom_type: Seq::empty(),
                    content: text,
                    display: is_on(display),
                },
            )
        } else {
            match second.text() {
                Some(content) => Some(
                    CustomMessageView { custom_type: text, content, display: is_on(display) },
                ),
                None => None,
            }
        },
        None => None,
    }
}

fn level_text(level: &Value) -> (out: String)
    ensures
        out@ == level_name(level@),
{
    match level.name() {
        Some(name) => {
            if same_text(name.as_str(), "warn") || same_text(name.as_str(), "error") {
                name
            } else {
                "info".to_owned()
            }
        },
        None => "info".to_owned(),
    }
}

/// Puts a hook error on one line.
pub fn sanitize_hook_error(msg: &str) -> (out: String)
    ensures
        out@ == sanitized(msg@),
{
    let chars = crate::text::chars_of(msg);
    let mut out = String::new();
    let mut i: usize = 0;
    while i < chars.len()
        invariant
            i <= chars@.len(),
            out@ == sanitized(chars@.take(i as int)),
        decreases chars@.len() - i,
    {
        let c = chars[i];
        if c == '\n' || c == '\t' {
            out.push(' ');
        } else {
            out.push(c);
        }
        assert(out@ =~= sanitized(chars@.take(i + 1)));
        i = i + 1;
    }
    assert(chars@.take(i as int) =~= chars@);
    out
}

fn summary_text(msg: &str, times: u64) -> (out: String)
    ensures
        out@ == repeat_summary(msg@, times as nat),
{
    let mut out = msg.to_owned();
    out.append(" (repeated ");
    out.append(numeral_text(times, 10).as_str());
    out.append(" times)");
    out
}

impl Queues {
    /// Empty queues.
    pub fn new() -> (out: Queues)
        ensures
            out@ == QueuesView::empty(),
    {
        Queues {
            notifications: String::new(),
            tool_progress: String::new(),
            custom_messages: String::new(),
            steering: String::new(),
            followup: String::new(),
            log: String::new(),
            entries: String::new(),
            tree_ops: String::new(),
            render_lines: String::new(),
            last_hook_error: None,
            hook_error_repeats: 0,
        }
    }

    /// `(harness/notify msg level)`.
    pub fn notify(&mut self, msg: &Value, level: &Value)
        ensures
            final(self)@ == old(self)@.notify(msg@, level@),
    {
        if let Some(text) = msg.text() {
            let name = level_text(level);
            push_pair(&mut self.notifications, name.as_str(), text.as_str());
        }
    }

    fn flush_repeats(&mut self)
        ensures
            final(self)@ == old(self)@.repeats_flushed(),
    {
        if self.hook_error_repeats > 0 {
            if let Some(msg) = &self.last_hook_error {
                let line = summary_text(msg.as_str(), self.hook_error_repeats);
                push_pair(&mut self.notifications, "error", line.as_str());
                self.hook_error_repeats = 0;
            }
        }
    }

    /// Queues a hook error for the user, or counts it where it repeats the
    /// last one.
    pub fn push_hook_err(&mut self, msg: &str)
        ensures
            final(self)@ == old(self)@.hook_error(msg@),
    {
        let again = match &self.last_hook_error {
            Some(last) => same_text(last.as_str(), msg),
            None => false,
        };
        if again {
            if self.hook_error_repeats < u64::MAX {
                self.hook_error_repeats = self.hook_error_repeats + 1;
            }
        } else {
            self.flush_repeats();
            push_pair(&mut self.notifications, "error", msg);
            self.last_hook_error = Some(msg.to_owned());
            self.hook_error_repeats = 0;
        }
    }

    /// Hands out all notifications with their levels, oldest first.
    pub fn drain_notifications(&mut self) -> (out: Vec<(String, String)>)
        ensures
            out.deep_view() == old(self)@.pending_notifications(),
            final(self)@ == old(self)@.notifications_drained(),
    {
        self.flush_repeats();
        let out = drain_rows::<(String, String)>(&mut self.notifications);
        self.last_hook_error = None;
        self.hook_error_repeats = 0;
        out
    }

    /// `(harness/log msg)`.
    pub fn log(&mut self, msg: &Value)
        ensures
            final(self)@ == old(self)@.logged(msg@),
    {
        if let Some(text) = msg.text() {
            push_one(&mut self.log, text.as_str());
        }
    }

    /// `(harness/add-steering msg)`.
    pub fn add_steering(&mut self, msg: &Value)
        ensures
            final(self)@ == old(self)@.steered(msg@),
    {
        if let Some(text) = msg.text() {
            push_one(&mut self.steering, text.as_str());
        }
    }

    /// `(harness/add-followup msg)`.
    pub fn add_followup(&mut self, msg: &Value)
        ensures
            final(self)@ == old(self)@.followed_up(msg@),
    {
        if let Some(text) = msg.text() {
            push_one(&mut self.followup, text.as_str());
        }
    }

    /// `(harness/add-custom-message first second display)`.
    pub fn add_custom_message(&mut self, first: &Value, second: &Value, display: &Value)
        ensures
            final(self)@ == old(self)@.custom_added(first@, second@, display@),
    {
        let flag = write_flag(!display.is_false());
        if let Some(text) = first.text() {
            if second.is_nil() {
                let none = String::new();
                push_triple(
                    &mut self.custom_messages,
                    none.as_str(),
                    text.as_str(),
                    flag.as_str(),
                );
            } else if let Some(content) = second.text() {
                push_triple(
                    &mut self.custom_messages,
                    text.as_str(),
                    content.as_str(),
                    flag.as_str(),
                );
            }
        }
    }

    /// `(harness/append-entry kind data shown)`.
    pub fn append_entry(&mut self, kind: &Value, data: &Value, shown: &Value)
        ensures
            final(self)@ == old(self)@.entry_appended(kind@, data@, shown@),
    {
        if let Some(k) = kind.text() {
            if let Some(d) = data.text() {
                let flag = write_flag(!shown.is_false());
                push_triple(&mut self.entries, k.as_str(), d.as_str(), flag.as_str());
            }
        }
    }

    /// `(harness/emit-tool-progress msg)` while `call` runs.
    pub fn emit_tool_progress(&mut self, call: &Option<String>, msg: &Value)
        ensures
            final(self)@ == old(self)@.progressed(call.deep_view(), msg@),
    {
        if let Some(id) = call {
            if let Some(text) = msg.text() {
                push_pair(&mut self.tool_progress, id.as_str(), text.as_str());
            }
        }
    }

    /// `(harness/render color text)`.
    pub fn render(&mut self, color: &Value, text: &Value)
        ensures
            final(self)@ == old(self)@.rendered(color@, text@),
    {
        if let Some(c) = color.name() {
            if let Some(t) = text.text() {
                push_pair(&mut self.render_lines, c.as_str(), t.as_str());
            }
        }
    }

    /// Queues a tree operation, where there is one.
    pub fn queue_tree_op(&mut self, op: &Option<TreeOp>)
        ensures
            final(self)@ == old(self)@.tree_queued(op.deep_view()),
    {
        if let Some(op) = op {
            push_record(&mut self.tree_ops, &op.fields());
        }
    }

    /// Hands out the progress messages with the calls that they belong to.
    pub fn drain_tool_progress(&mut self) -> (out: Vec<(String, String)>)
        ensures
            out.deep_view() == crate::rows::rows::<(String, String)>(old(self)@.tool_progress),
            final(self)@ == (QueuesView { tool_progress: Seq::empty(), ..old(self)@ }),
    {
        drain_rows::<(String, String)>(&mut self.tool_progress)
    }

    /// Hands out the custom messages.
    pub fn drain_custom_messages(&mut self) -> (out: Vec<CustomMessage>)
        ensures
            out.deep_view() == crate::rows::rows::<CustomMessage>(old(self)@.custom_messages),
            final(self)@ == (QueuesView { custom_messages: Seq::empty(), ..old(self)@ }),
    {
        drain_rows::<CustomMessage>(&mut self.custom_messages)
    }

    /// Hands out the steering messages.
    pub fn drain_steering_messages(&mut self) -> (out: Vec<String>)
        ensures
            out.deep_view() == crate::rows::rows::<String>(old(self)@.steering),
            final(self)@ == (QueuesView { steering: Seq::empty(), ..old(self)@ }),
    {
        drain_rows::<String>(&mut self.steering)
    }

    /// Hands out the follow-up messages.
    pub fn drain_followup_messages(&mut self) -> (out: Vec<String>)
        ensures
            out.deep_view() == crate::rows::rows::<String>(old(self)@.followup),
            final(self)@ == (QueuesView { followup: Seq::empty(), ..old(self)@ }),
    {
        drain_rows::<String>(&mut self.followup)
    }

    /// Hands out the log messages.
    pub fn drain_log_messages(&mut self) -> (out: Vec<String>)
        ensures
            out.deep_view() == crate::rows::rows::<String>(old(self)@.log),
            final(self)@ == (QueuesView { log: Seq::empty(), ..old(self)@ }),
    {
        drain_rows::<String>(&mut self.log)
    }

    /// Hands out the session entries.
    pub fn drain_entries(&mut self) -> (out: Vec<(String, String, bool)>)
        ensures
            out.deep_view() == crate::rows::rows::<(String, String, bool)>(old(self)@.entries),
            final(self)@ == (QueuesView { entries: Seq::empty(), ..old(self)@ }),
    {
        drain_rows::<(String, String, bool)>(&mut self.entries)
    }

    /// Hands out the tree operations.
    pub fn drain_tree_ops(&mut self) -> (out: Vec<TreeOp>)
        ensures
            out.deep_view() == crate::rows::rows::<TreeOp>(old(self)@.tree_ops),
            final(self)@ == (QueuesView { tree_ops: Seq::empty(), ..old(self)@ }),
    {
        drain_rows::<TreeOp>(&mut self.tree_ops)
    }

    /// Hands out the rendered lines with their colors.
    pub fn drain_render_lines(&mut self) -> (out: Vec<(String, String)>)
        ensures
            out.deep_view() == crate::rows::rows::<(String, String)>(old(self)@.render_lines),
            final(self)@ == (QueuesView { render_lines: Seq::empty(), ..old(self)@ }),
    {
        drain_rows::<(String, String)>(&mut self.render_lines)
    }
}

// ---------------------------------------------------------------------
// Laws
// ---------------------------------------------------------------------

proof fn lemma_row_of_one(a: Seq<char>)
    ensures
        String::row_value(seq![a]) == Some(a),
{
    assert(seq![a].skip(0) =~= seq![a]);
}

proof fn lemma_row_of_pair(a: Seq<char>, b: Seq<char>)
    ensures
        <(String, String)>::row_value(seq![a, b]) == Some((a, b)),
{
    assert(seq![a, b].skip(1) =~= seq![b]);
}

/// The summary that a drain puts behind the queued notifications, where one is
/// due.
pub open spec fn due_summary(q: QueuesView) -> Seq<(Seq<char>, Seq<char>)> {
    if q.hook_error_repeats > 0 && q.last_hook_error is Some {
        seq![("error"@, repeat_summary(q.last_hook_error->0, q.hook_error_repeats as nat))]
    } else {
        Seq::empty()
    }
}

/// A drain hands out what was queued, in order, and then the summary of the
/// last hook error, where it was repeated.
pub proof fn lemma_pending_notifications(q: QueuesView)
    requires
        q.complete(),
    ensures
        q.pending_notifications() == crate::rows::rows::<(String, String)>(q.notifications)
            + due_summary(q),
{
    if q.hook_error_repeats > 0 && q.last_hook_error is Some {
        let line = repeat_summary(q.last_hook_error->0, q.hook_error_repeats as nat);
        lemma_row_of_pair("error"@, line);
        crate::rows::lemma_row_appended::<(String, String)>(
            q.notifications,
            seq!["error"@, line],
        );
    }
    assert(q.pending_notifications() =~= crate::rows::rows::<(String, String)>(q.notifications)
        + due_summary(q));
}

/// A notification with a string for a message is drained whole, behind the
/// earlier ones and under its own level, whatever characters the message
/// holds. Any other message adds nothing.
pub proof fn lemma_notification_is_drained(
    q: QueuesView,
    msg: crate::value::ValueView,
    level: crate::value::ValueView,
)
    requires
        q.complete(),
    ensures
        q.notify(msg, level).complete(),
        crate::rows::rows::<(String, String)>(q.notify(msg, level).notifications) == (
        match msg.text() {
            Some(text) => crate::rows::rows::<(String, String)>(q.notifications).push(
                (level_name(level), text),
            ),
            None => crate::rows::rows::<(String, String)>(q.notifications),
        }),
        due_summary(q.notify(msg, level)) == due_summary(q),
{
    if let Some(text) = msg.text() {
        lemma_row_of_pair(level_name(level), text);
        crate::rows::lemma_row_appended::<(String, String)>(
            q.notifications,
            seq![level_name(level), text],
        );
    }
}

/// A notification has one of three levels.
pub proof fn lemma_level_is_known(level: crate::value::ValueView)
    ensures
        level_name(level) == "info"@ || level_name(level) == "warn"@ || level_name(level)
            == "error"@,
{
}

/// Log, steering and follow-up messages are drained whole and in order.
pub proof fn lemma_text_is_drained(q: QueuesView, msg: crate::value::ValueView)
    requires
        q.complete(),
    ensures
        q.logged(msg).complete() && q.steered(msg).complete() && q.followed_up(msg).complete(),
        msg.text() matches Some(text) ==> {
            &&& crate::rows::rows::<String>(q.logged(msg).log) == crate::rows::rows::<String>(
                q.log,
            ).push(text)
            &&& crate::rows::rows::<String>(q.steered(msg).steering) == crate::rows::rows::<
                String,
            >(q.steering).push(text)
            &&& crate::rows::rows::<String>(q.followed_up(msg).followup) == crate::rows::rows::<
                String,
            >(q.followup).push(text)
        },
        msg.text() is None ==> q.logged(msg) == q && q.steered(msg) == q && q.followed_up(msg)
            == q,
{
    if let Some(text) = msg.text() {
        lemma_row_of_one(text);
        crate::rows::lemma_row_appended::<String>(q.log, seq![text]);
        crate::rows::lemma_row_appended::<String>(q.steering, seq![text]);
        crate::rows::lemma_row_appended::<String>(q.followup, seq![text]);
    }
}

/// A custom message is drained as it was added, and arguments that make no
/// message add none.
pub proof fn lemma_custom_message_is_drained(
    q: QueuesView,
    first: crate::value::ValueView,
    second: crate::value::ValueView,
    display: crate::value::ValueView,
)
    requires
        q.complete(),
    ensures
        q.custom_added(first, second, display).complete(),
        crate::rows::rows::<CustomMessage>(q.custom_added(first, second, display).custom_messages)
            == (match custom_message(first, second, display) {
            Some(msg) => crate::rows::rows::<CustomMessage>(q.custom_messages).push(msg),
            None => crate::rows::rows::<CustomMessage>(q.custom_messages),
        }),
{
    if let Some(msg) = custom_message(first, second, display) {
        crate::rows::lemma_flag_round_trip(msg.display);
        crate::rows::lemma_row_appended::<CustomMessage>(
            q.custom_messages,
            seq![msg.custom_type, msg.content, crate::rows::flag_text(msg.display)],
        );
    }
}

/// A session entry is drained as it was appended; without a string for its
/// type and for its data nothing is appended.
pub proof fn lemma_entry_is_drained(
    q: QueuesView,
    kind: crate::value::ValueView,
    data: crate::value::ValueView,
    shown: crate::value::ValueView,
)
    requires
        q.complete(),
    ensures
        q.entry_appended(kind, data, shown).complete(),
        crate::rows::rows::<(String, String, bool)>(q.entry_appended(kind, data, shown).entries)
            == (match (kind.text(), data.text()) {
            (Some(k), Some(d)) => crate::rows::rows::<(String, String, bool)>(q.entries).push(
                (k, d, is_on(shown)),
            ),
            _ => crate::rows::rows::<(String, String, bool)>(q.entries),
        }),
{
    if let (Some(k), Some(d)) = (kind.text(), data.text()) {
        crate::rows::lemma_flag_round_trip(is_on(shown));
        crate::rows::lemma_row_appended::<(String, String, bool)>(
            q.entries,
            seq![k, d, crate::rows::flag_text(is_on(shown))],
        );
    }
}

/// Progress is drained under the call in which it was emitted; outside a tool
/// call it is dropped.
pub proof fn lemma_progress_is_drained(
    q: QueuesView,
    call: Option<Seq<char>>,
    msg: crate::value::ValueView,
)
    requires
        q.complete(),
    ensures
        q.progressed(call, msg).complete(),
        call is None ==> q.progressed(call, msg) == q,
        crate::rows::rows::<(String, String)>(q.progressed(call, msg).tool_progress) == (match (
            call,
            msg.text(),
        ) {
            (Some(id), Some(text)) => crate::rows::rows::<(String, String)>(q.tool_progress).push(
                (id, text),
            ),
            _ => crate::rows::rows::<(String, String)>(q.tool_progress),
        }),
{
    if let (Some(id), Some(text)) = (call, msg.text()) {
        lemma_row_of_pair(id, text);
        crate::rows::lemma_row_appended::<(String, String)>(q.tool_progress, seq![id, text]);
    }
}

/// A rendered line is drained with its color, in order.
pub proof fn lemma_rendered_line_is_drained(
    q: QueuesView,
    color: crate::value::ValueView,
    text: crate::value::ValueView,
)
    requires
        q.complete(),
    ensures
        q.rendered(color, text).complete(),
        crate::rows::rows::<(String, String)>(q.rendered(color, text).render_lines) == (match (
            color.name(),
            text.text(),
        ) {
            (Some(c), Some(t)) => crate::rows::rows::<(String, String)>(q.render_lines).push(
                (c, t),
            ),
            _ => crate::rows::rows::<(String, String)>(q.render_lines),
        }),
{
    if let (Some(c), Some(t)) = (color.name(), text.text()) {
        lemma_row_of_pair(c, t);
        crate::rows::lemma_row_appended::<(String, String)>(q.render_lines, seq![c, t]);
    }
}

/// A tree operation is drained as it was queued, behind the earlier ones.
pub proof fn lemma_tree_op_is_drained(q: QueuesView, op: Option<crate::tree::TreeOpView>)
    requires
        q.complete(),
    ensures
        q.tree_queued(op).complete(),
        crate::rows::rows::<TreeOp>(q.tree_queued(op).tree_ops) == (match op {
            Some(op) => crate::rows::rows::<TreeOp>(q.tree_ops).push(op),
            None => crate::rows::rows::<TreeOp>(q.tree_ops),
        }),
{
    if let Some(op) = op {
        crate::tree::lemma_tree_op_round_trip(op);
        crate::rows::lemma_row_appended::<TreeOp>(q.tree_ops, crate::tree::tree_fields(op));
    }
}

/// The queues after the same hook error came `times` times.
pub open spec fn hook_error_times(q: QueuesView, msg: Seq<char>, times: nat) -> QueuesView
    decreases times,
{
    if times == 0 {
        q
    } else {
        hook_error_times(q, msg, (times - 1) as nat).hook_error(msg)
    }
}

proof fn lemma_hook_error_state(q: QueuesView, msg: Seq<char>, times: nat)
    requires
        q.last_hook_error != Some(msg),
        1 <= times,
        times - 1 <= u64::MAX,
    ensures
        hook_error_times(q, msg, times) == (QueuesView {
            last_hook_error: Some(msg),
            hook_error_repeats: (times - 1) as u64,
            ..q.repeats_flushed().notified("error"@, msg)
        }),
    decreases times,
{
    reveal_with_fuel(hook_error_times, 2);
    if times > 1 {
        lemma_hook_error_state(q, msg, (times - 1) as nat);
    }
}

proof fn lemma_new_hook_error(q: QueuesView, msg: Seq<char>)
    requires
        q.complete(),
    ensures
        q.repeats_flushed().notified("error"@, msg).complete(),
        crate::rows::rows::<(String, String)>(
            q.repeats_flushed().notified("error"@, msg).notifications,
        ) == q.pending_notifications().push(("error"@, msg)),
{
    lemma_row_of_pair("error"@, msg);
    crate::rows::lemma_row_appended::<(String, String)>(
        q.repeats_flushed().notifications,
        seq!["error"@, msg],
    );
}

/// However often a hook error comes in a row, the user sees it once, and then,
/// where it came again, one line with the number of times that were not shown.
pub proof fn lemma_repeated_hook_error_is_coalesced(q: QueuesView, msg: Seq<char>, times: nat)
    requires
        q.complete(),
        q.last_hook_error != Some(msg),
        1 <= times,
        times - 1 <= u64::MAX,
    ensures
        hook_error_times(q, msg, times).pending_notifications() == (if times == 1 {
            q.pending_notifications().push(("error"@, msg))
        } else {
            q.pending_notifications().push(("error"@, msg)).push(
                ("error"@, repeat_summary(msg, (times - 1) as nat)),
            )
        }),
{
    lemma_hook_error_state(q, msg, times);
    lemma_new_hook_error(q, msg);
    lemma_pending_notifications(hook_error_times(q, msg, times));
    let shown = q.pending_notifications().push(("error"@, msg));
    assert(hook_error_times(q, msg, times).pending_notifications() == shown + due_summary(
        hook_error_times(q, msg, times),
    ));
    if times == 1 {
        assert(shown + Seq::empty() =~= shown);
    } else {
        let line = ("error"@, repeat_summary(msg, (times - 1) as nat));
        assert(shown + seq![line] =~= shown.push(line));
    }
}

/// Two different hook errors in a row are both shown.
pub proof fn lemma_distinct_hook_errors_are_shown(q: QueuesView, a: Seq<char>, b: Seq<char>)
    requires
        q.complete(),
        q.last_hook_error != Some(a),
        a != b,
    ensures
        q.hook_error(a).hook_error(b).pending_notifications() == q.pending_notifications().push(
            ("error"@, a),
        ).push(("error"@, b)),
{
    lemma_new_hook_error(q, a);
    lemma_new_hook_error(q.hook_error(a), b);
    lemma_pending_notifications(q.hook_error(a));
    let first = q.pending_notifications().push(("error"@, a));
    assert(first + Seq::empty() =~= first);
}

/// After a drain nothing is pending.
pub proof fn lemma_drained_is_empty(q: QueuesView)
    ensures
        q.notifications_drained().pending_notifications().len() == 0,
{
    crate::rows::lemma_no_rows::<(String, String)>();
}

/// A hook error stays as long as it is, and only its line feeds and tabs become
/// blanks.
pub proof fn lemma_sanitized_error_keeps_its_characters(msg: Seq<char>, i: int)
    requires
        0 <= i < msg.len(),
    ensures
        sanitized(msg).len() == msg.len(),
        msg[i] != '\n' && msg[i] != '\t' ==> sanitized(msg)[i] == msg[i],
        msg[i] == '\n' || msg[i] == '\t' ==> sanitized(msg)[i] == ' ',
{
}

/// The summary of repetitions begins with the error itself and tells how often it
/// came again.
pub proof fn lemma_summary_tells_error_and_number(msg: Seq<char>, times: nat)
    ensures
        msg.is_prefix_of(repeat_summary(msg, times)),
        ({
            let at = msg.len() + " (repeated "@.len();
            let digits = crate::text::numeral(times, 10).len();
            crate::text::number_of(
                repeat_summary(msg, times).subrange(at as int, (at + digits) as int),
                10,
            ) == times
        }),
{
    let whole = repeat_summary(msg, times);
    let number = crate::text::numeral(times, 10);
    let at = msg.len() + " (repeated "@.len();
    crate::text::lemma_numeral_stands_for_its_number(times, 10);
    assert(msg =~= whole.take(msg.len() as int));
    assert(whole.subrange(at as int, (at + number.len()) as int) =~= number);
}

/// A hook error, and a drain of the notifications, touch the notifications alone;
/// a drain also forgets which error came last, so that it is shown again.
pub proof fn lemma_other_queues_stay(q: QueuesView, msg: Seq<char>)
    requires
        q.complete(),
    ensures
        ({
            let a = q.hook_error(msg);
            let b = q.notifications_drained();
            &&& a.tool_progress == q.tool_progress && b.tool_progress == q.tool_progress
            &&& a.custom_messages == q.custom_messages && b.custom_messages == q.custom_messages
            &&& a.steering == q.steering && b.steering == q.steering
            &&& a.followup == q.followup && b.followup == q.followup
            &&& a.log == q.log && b.log == q.log
            &&& a.entries == q.entries && b.entries == q.entries
            &&& a.tree_ops == q.tree_ops && b.tree_ops == q.tree_ops
            &&& a.render_lines == q.render_lines && b.render_lines == q.render_lines
            &&& b.hook_error(msg).pending_notifications() == seq![("error"@, msg)]
        }),
{
    lemma_new_hook_error(q.notifications_drained(), msg);
    lemma_pending_notifications(q.notifications_drained().hook_error(msg));
    lemma_drained_is_empty(q);
    let none = q.notifications_drained().pending_notifications();
    assert(none =~= Seq::empty());
    assert(none.push(("error"@, msg)) + Seq::empty() =~= seq![("error"@, msg)]);
}

} // verus!
