//! Decisions of the host between turns and without a user.
use vstd::prelude::*;

use crate::value::Value;

verus! {

/// What the host does when a turn is over.
#[derive(Debug, PartialEq, Eq)]
pub enum PostDoneAction {
    /// Run the prompt that a plugin has queued.
    Followup(String),
    /// Run the next iteration of the loop.
    LoopIter,
    /// End the loop.
    LoopStop,
    /// Wait for the user.
    Idle,
}

/// The mathematical form of a [`PostDoneAction`].
pub enum PostDoneActionView {
    Followup(Seq<char>),
    LoopIter,
    LoopStop,
    Idle,
}

impl View for PostDoneAction {
    type V = PostDoneActionView;

    open spec fn view(&self) -> PostDoneActionView {
        match self {
            PostDoneAction::Followup(prompt) => PostDoneActionView::Followup(prompt@),
            PostDoneAction::LoopIter => PostDoneActionView::LoopIter,
            PostDoneAction::LoopStop => PostDoneActionView::LoopStop,
            PostDoneAction::Idle => PostDoneActionView::Idle,
        }
    }
}

/// A queued prompt comes before the loop, so that none is dropped; the loop
/// goes on until it is to stop; without a loop the host is idle.
pub open spec fn post_done(
    followup: Option<Seq<char>>,
    loop_active: bool,
    should_stop: bool,
) -> PostDoneActionView {
    match followup {
        Some(prompt) => PostDoneActionView::Followup(prompt),
        None => if !loop_active {
            PostDoneActionView::Idle
        } else if should_stop {
            PostDoneActionView::LoopStop
        } else {
            PostDoneActionView::LoopIter
        },
    }
}

/// Decides what the host does when a turn is over.
pub fn decide_post_done_action(
    followup: Option<String>,
    loop_active: bool,
    should_stop: bool,
) -> (action: PostDoneAction)
    ensures
        action@ == post_done(followup.deep_view(), loop_active, should_stop),
{
    match followup {
        Some(prompt) => PostDoneAction::Followup(prompt),
        None => if !loop_active {
            PostDoneAction::Idle
        } else if should_stop {
            PostDoneAction::LoopStop
        } else {
            PostDoneAction::LoopIter
        },
    }
}

/// A queued prompt is run, whatever the loop does.
pub proof fn lemma_followup_is_never_dropped(
    prompt: Seq<char>,
    loop_active: bool,
    should_stop: bool,
)
    ensures
        post_done(Some(prompt), loop_active, should_stop) == PostDoneActionView::Followup(prompt),
{
}

/// How questions of plugins are answered where there is no user.
#[derive(Clone, Copy, Debug, PartialEq, Eq, Structural)]
pub enum AutoConfirmMode {
    Yes,
    No,
}

/// A question of a plugin.
#[derive(Debug, PartialEq, Eq)]
pub enum DialogRequest {
    Confirm { title: String, question: String },
    Select { title: String, options: Vec<String> },
}

/// The mathematical form of a [`DialogRequest`].
pub enum DialogRequestView {
    Confirm { title: Seq<char>, question: Seq<char> },
    Select { title: Seq<char>, options: Seq<Seq<char>> },
}

impl View for DialogRequest {
    type V = DialogRequestView;

    open spec fn view(&self) -> DialogRequestView {
        match self {
            DialogRequest::Confirm { title, question } => DialogRequestView::Confirm {
                title: title@,
                question: question@,
            },
            DialogRequest::Select { title, options } => DialogRequestView::Select {
                title: title@,
                options: options.deep_view(),
            },
        }
    }
}

/// The answer to a question.
#[derive(Debug, PartialEq, Eq)]
pub enum DialogReply {
    Confirm(bool),
    Select(Option<String>),
}

/// The mathematical form of a [`DialogReply`].
pub enum DialogReplyView {
    Confirm(bool),
    Select(Option<Seq<char>>),
}

impl View for DialogReply {
    type V = DialogReplyView;

    open spec fn view(&self) -> DialogReplyView {
        match self {
            DialogReply::Confirm(b) => DialogReplyView::Confirm(*b),
            DialogReply::Select(picked) => DialogReplyView::Select(picked.deep_view()),
        }
    }
}

/// The answer that a mode gives: yes confirms and takes the first option, no
/// refuses and takes none.
pub open spec fn auto_reply(mode: AutoConfirmMode, request: DialogRequestView) -> DialogReplyView {
    match request {
        DialogRequestView::Confirm { title, question } => DialogReplyView::Confirm(
            mode == AutoConfirmMode::Yes,
        ),
        DialogRequestView::Select { title, options } => DialogReplyView::Select(
            if mode == AutoConfirmMode::Yes && options.len() > 0 {
                Some(options[0])
            } else {
                None
            },
        ),
    }
}

/// Answers a question without a user.
pub fn answer_dialog(mode: AutoConfirmMode, request: &DialogRequest) -> (reply: DialogReply)
    ensures
        reply@ == auto_reply(mode, request@),
{
    match request {
        DialogRequest::Confirm { .. } => DialogReply::Confirm(mode == AutoConfirmMode::Yes),
        DialogRequest::Select { options, .. } => {
            if mode == AutoConfirmMode::Yes && options.len() > 0 {
                DialogReply::Select(Some(options[0].clone()))
            } else {
                DialogReply::Select(None)
            }
        },
    }
}

/// The answer as plugin code receives it: a boolean, the option that was
/// picked, or nil where none was.
pub open spec fn answer_value(reply: DialogReplyView) -> crate::value::ValueView {
    match reply {
        DialogReplyView::Confirm(b) => crate::value::ValueView::Boolean(b),
        DialogReplyView::Select(picked) => match picked {
            Some(text) => crate::value::ValueView::Str(text),
            None => crate::value::ValueView::Nil,
        },
    }
}

/// Gives an answer to plugin code.
pub fn dialog_value(reply: DialogReply) -> (v: Value)
    ensures
        v@ == answer_value(reply@),
{
    match reply {
        DialogReply::Confirm(b) => Value::Boolean(b),
        DialogReply::Select(picked) => match picked {
            Some(text) => Value::Str(text),
            None => Value::Nil,
        },
    }
}

/// Without a queued prompt the loop decides: where none is active the host waits,
/// whatever else is set, and an active one goes on until it is to stop.
pub proof fn lemma_loop_decides_without_a_followup(should_stop: bool)
    ensures
        post_done(None, false, should_stop) is Idle,
        post_done(None, true, true) is LoopStop,
        post_done(None, true, false) is LoopIter,
{
}

/// The answers of a mode depend on the mode and, for a choice, on the first
/// option alone; what is behind it does not matter. Each comes to plugin code as
/// it is.
pub proof fn lemma_modes_answer_alike(
    title: Seq<char>,
    question: Seq<char>,
    first: Seq<char>,
    rest: Seq<Seq<char>>,
)
    ensures
        ({
            let confirm = DialogRequestView::Confirm { title, question };
            let select = DialogRequestView::Select { title, options: seq![first] + rest };
            let nothing = DialogRequestView::Select { title, options: Seq::empty() };
            &&& auto_reply(AutoConfirmMode::Yes, confirm) == DialogReplyView::Confirm(true)
            &&& auto_reply(AutoConfirmMode::No, confirm) == DialogReplyView::Confirm(false)
            &&& auto_reply(AutoConfirmMode::Yes, select) == DialogReplyView::Select(Some(first))
            &&& auto_reply(AutoConfirmMode::No, select) == DialogReplyView::Select(None)
            &&& auto_reply(AutoConfirmMode::Yes, nothing) == DialogReplyView::Select(None)
            &&& auto_reply(AutoConfirmMode::No, nothing) == DialogReplyView::Select(None)
        }),
        answer_value(DialogReplyView::Confirm(true)) == crate::value::ValueView::Boolean(true),
        answer_value(DialogReplyView::Confirm(false)) == crate::value::ValueView::Boolean(false),
        answer_value(DialogReplyView::Select(Some(first))) == crate::value::ValueView::Str(first),
        answer_value(DialogReplyView::Select(None)) == crate::value::ValueView::Nil,
{
}

} // verus!
