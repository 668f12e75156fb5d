//! The slots that plugin code fills with one text each and the host takes.
use vstd::prelude::*;

use crate::value::Value;

verus! {

/// What the hooks of one tool call decided.
#[derive(Debug, PartialEq, Eq)]
pub struct ToolHookResult {
    /// The reason for which the call is refused.
    pub block: Option<String>,
    /// The arguments that replace those of the call, as JSON.
    pub mutate_input: Option<String>,
    /// The text that replaces the output of the call.
    pub replace_result: Option<String>,
}

/// The mathematical form of a [`ToolHookResult`].
pub struct ToolHookResultView {
    pub block: Option<Seq<char>>,
    pub mutate_input: Option<Seq<char>>,
    pub replace_result: Option<Seq<char>>,
}

impl View for ToolHookResult {
    type V = ToolHookResultView;

    open spec fn view(&self) -> ToolHookResultView {
        ToolHookResultView {
            block: self.block.deep_view(),
            mutate_input: self.mutate_input.deep_view(),
            replace_result: self.replace_result.deep_view(),
        }
    }
}

impl ToolHookResultView {
    /// The result that changes nothing.
    pub open spec fn unchanged() -> ToolHookResultView {
        ToolHookResultView { block: None, mutate_input: None, replace_result: None }
    }
}

impl Default for ToolHookResult {
    fn default() -> (out: Self)
        ensures
            out@ == ToolHookResultView::unchanged(),
    {
        ToolHookResult { block: None, mutate_input: None, replace_result: None }
    }
}

/// The slots.
#[derive(Debug)]
pub struct Slots {
    /// A prompt to run next.
    pub prompt: Option<String>,
    /// The reason to refuse the running tool call.
    pub block: Option<String>,
    /// New arguments for the running tool call.
    pub mutate_input: Option<String>,
    /// A new output for the running tool call.
    pub replace_result: Option<String>,
    /// A text in place of the prompt of the user.
    pub prompt_replace: Option<String>,
    /// A text to append to the system prompt.
    pub system_prompt: Option<String>,
}

/// The mathematical form of [`Slots`].
pub struct SlotsView {
    pub prompt: Option<Seq<char>>,
    pub block: Option<Seq<char>>,
    pub mutate_input: Option<Seq<char>>,
    pub replace_result: Option<Seq<char>>,
    pub prompt_replace: Option<Seq<char>>,
    pub system_prompt: Option<Seq<char>>,
}

impl View for Slots {
    type V = SlotsView;

    open spec fn view(&self) -> SlotsView {
        SlotsView {
            prompt: self.prompt.deep_view(),
            block: self.block.deep_view(),
            mutate_input: self.mutate_input.deep_view(),
            replace_result: self.replace_result.deep_view(),
            prompt_replace: self.prompt_replace.deep_view(),
            system_prompt: self.system_prompt.deep_view(),
        }
    }
}

/// A slot after plugin code wrote `v` to it: only a string is written, and it
/// takes the place of what was there.
pub open spec fn written(slot: Option<Seq<char>>, v: crate::value::ValueView) -> Option<Seq<char>> {
    if v.text() is Some {
        v.text()
    } else {
        slot
    }
}

/// The system prompt slot after one more text: the texts stand on lines of
/// their own, in order.
pub open spec fn extended(
    slot: Option<Seq<char>>,
    v: crate::value::ValueView,
) -> Option<Seq<char>> {
    match (slot, v.text()) {
        (Some(old_text), Some(text)) => Some(old_text.push('\n') + text),
        (None, Some(text)) => Some(text),
        (_, None) => slot,
    }
}

impl SlotsView {
    /// Empty slots.
    pub open spec fn empty() -> SlotsView {
        SlotsView {
            prompt: None,
            block: None,
            mutate_input: None,
            replace_result: None,
            prompt_replace: None,
            system_prompt: None,
        }
    }

    /// After the slots of a tool call were emptied.
    pub open spec fn tool_slots_cleared(self) -> SlotsView {
        SlotsView { block: None, mutate_input: None, replace_result: None, ..self }
    }

    /// What the slots of a tool call hold.
    pub open spec fn tool_result(self) -> ToolHookResultView {
        ToolHookResultView {
            block: self.block,
            mutate_input: self.mutate_input,
            replace_result: self.replace_result,
        }
    }
}

fn write_slot(slot: &mut Option<String>, v: &Value)
    ensures
        final(slot).deep_view() == written(old(slot).deep_view(), v@),
{
    if let Some(text) = v.text() {
        *slot = Some(text);
    }
}

impl Slots {
    /// Empty slots.
    pub fn new() -> (out: Slots)
        ensures
            out@ == SlotsView::empty(),
    {
        Slots {
            prompt: None,
            block: None,
            mutate_input: None,
            replace_result: None,
            prompt_replace: None,
            system_prompt: None,
        }
    }

    /// `(harness/request-prompt v)`.
    pub fn request_prompt(&mut self, v: &Value)
        ensures
            final(self)@ == (SlotsView { prompt: written(old(self)@.prompt, v@), ..old(self)@ }),
    {
        write_slot(&mut self.prompt, v);
    }

    /// `(harness/block v)`.
    pub fn block(&mut self, v: &Value)
        ensures
            final(self)@ == (SlotsView { block: written(old(self)@.block, v@), ..old(self)@ }),
    {
        write_slot(&mut self.block, v);
    }

    /// `(harness/mutate-input v)`.
    pub fn mutate_input(&mut self, v: &Value)
        ensures
            final(self)@ == (SlotsView {
                mutate_input: written(old(self)@.mutate_input, v@),
                ..old(self)@
            }),
    {
        write_slot(&mut self.mutate_input, v);
    }

    /// `(harness/replace-result v)`.
    pub fn replace_result(&mut self, v: &Value)
        ensures
            final(self)@ == (SlotsView {
                replace_result: written(old(self)@.replace_result, v@),
                ..old(self)@
            }),
    {
        write_slot(&mut self.replace_result, v);
    }

    /// `(harness/replace-prompt v)`.
    pub fn replace_prompt(&mut self, v: &Value)
        ensures
            final(self)@ == (SlotsView {
                prompt_replace: written(old(self)@.prompt_replace, v@),
                ..old(self)@
            }),
    {
        write_slot(&mut self.prompt_replace, v);
    }

    /// `(harness/append-system-prompt v)`.
    pub fn append_system_prompt(&mut self, v: &Value)
        ensures
            final(self)@ == (SlotsView {
                system_prompt: extended(old(self)@.system_prompt, v@),
                ..old(self)@
            }),
    {
        if let Some(text) = v.text() {
            let whole = match self.system_prompt.take() {
                Some(mut before) => {
                    before.push('\n');
                    before.append(text.as_str());
                    before
                },
                None => text,
            };
            self.system_prompt = Some(whole);
        }
    }

    /// Empties the slots of a tool call.
    pub fn clear_tool_slots(&mut self)
        ensures
            final(self)@ == old(self)@.tool_slots_cleared(),
    {
        self.block = None;
        self.mutate_input = None;
        self.replace_result = None;
    }

    /// Takes the slots of a tool call.
    pub fn take_tool_result(&mut self) -> (out: ToolHookResult)
        ensures
            out@ == old(self)@.tool_result(),
            final(self)@ == old(self)@.tool_slots_cleared(),
    {
        ToolHookResult {
            block: self.block.take(),
            mutate_input: self.mutate_input.take(),
            replace_result: self.replace_result.take(),
        }
    }
}

// ---------------------------------------------------------------------
// Laws
// ---------------------------------------------------------------------

/// A string that is written to a slot is what the slot holds, whatever it held
/// before; the characters `nil` are a text like any other. What is no string
/// leaves the slot alone.
pub proof fn lemma_last_write_wins(slot: Option<Seq<char>>, v: crate::value::ValueView)
    ensures
        v.text() is Some ==> written(slot, v) == v.text(),
        v.text() is None ==> written(slot, v) == slot,
{
}

/// Slots that were cleared for a tool call and not written since decide
/// nothing.
pub proof fn lemma_cleared_slots_decide_nothing(s: SlotsView)
    ensures
        s.tool_slots_cleared().tool_result() == ToolHookResultView::unchanged(),
        s.tool_slots_cleared().prompt == s.prompt,
        s.tool_slots_cleared().prompt_replace == s.prompt_replace,
        s.tool_slots_cleared().system_prompt == s.system_prompt,
{
}

/// What the hooks of a tool call decided is what they wrote to the three slots,
/// each in its own field.
pub proof fn lemma_decisions_are_what_was_written(
    s: SlotsView,
    block: Option<Seq<char>>,
    input: Option<Seq<char>>,
    result: Option<Seq<char>>,
)
    ensures
        ({
            let decided = (SlotsView {
                block,
                mutate_input: input,
                replace_result: result,
                ..s
            }).tool_result();
            &&& decided.block == block
            &&& decided.mutate_input == input
            &&& decided.replace_result == result
        }),
{
}

/// Texts for the system prompt add up in order, each behind a line feed, and none
/// is cut or lost.
pub proof fn lemma_system_prompt_grows(before: Option<Seq<char>>, a: Seq<char>, b: Seq<char>)
    ensures
        extended(None, crate::value::ValueView::Str(a)) == Some(a),
        extended(
            extended(None, crate::value::ValueView::Str(a)),
            crate::value::ValueView::Str(b),
        ) == Some(a + seq!['\n'] + b),
        before matches Some(text) ==> extended(before, crate::value::ValueView::Str(a)) == Some(
            text + seq!['\n'] + a,
        ),
        extended(before, crate::value::ValueView::Nil) == before,
{
    assert(a.push('\n') + b =~= a + seq!['\n'] + b);
    if let Some(text) = before {
        assert(text.push('\n') + a =~= text + seq!['\n'] + a);
    }
}

/// The result that changes nothing has no decision in any of its fields.
pub proof fn lemma_unchanged_decides_nothing()
    ensures
        ToolHookResultView::unchanged().block is None,
        ToolHookResultView::unchanged().mutate_input is None,
        ToolHookResultView::unchanged().replace_result is None,
{
}

} // verus!
