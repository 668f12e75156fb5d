//! Which handlers listen to which hook.
use vstd::prelude::*;

use crate::registry::{find_entry, Keyed};
use crate::text::clone_texts;

verus! {

/// The handlers of one hook, in the order in which they were registered.
#[derive(Debug)]
pub struct HookEntry {
    pub hook: String,
    pub handlers: Vec<String>,
}

/// The mathematical form of a [`HookEntry`].
pub struct HookEntryView {
    pub hook: Seq<char>,
    pub handlers: Seq<Seq<char>>,
}

impl DeepView for HookEntry {
    type V = HookEntryView;

    open spec fn deep_view(&self) -> HookEntryView {
        HookEntryView { hook: self.hook@, handlers: self.handlers.deep_view() }
    }
}

impl Keyed for HookEntry {
    open spec fn key_of(v: HookEntryView) -> Seq<char> {
        v.hook
    }

    fn key(&self) -> (k: &str) {
        self.hook.as_str()
    }
}

/// The hooks that have handlers.
#[derive(Debug)]
pub struct HookTable {
    pub entries: Vec<HookEntry>,
}

impl View for HookTable {
    type V = Seq<HookEntryView>;

    open spec fn view(&self) -> Seq<HookEntryView> {
        self.entries.deep_view()
    }
}

/// Where a hook stands in the table, or the length of the table.
pub open spec fn hook_place(table: Seq<HookEntryView>, hook: Seq<char>) -> int {
    crate::registry::place::<HookEntry>(table, hook)
}

/// Whether a hook has handlers.
pub open spec fn has_handlers(table: Seq<HookEntryView>, hook: Seq<char>) -> bool {
    hook_place(table, hook) < table.len()
}

/// The handlers of a hook; a hook that is not in the table has none.
pub open spec fn handlers_of(table: Seq<HookEntryView>, hook: Seq<char>) -> Seq<Seq<char>> {
    if has_handlers(table, hook) {
        table[hook_place(table, hook)].handlers
    } else {
        Seq::empty()
    }
}

/// The table after one more registration.
pub open spec fn registered(
    table: Seq<HookEntryView>,
    hook: Seq<char>,
    handler: Seq<char>,
) -> Seq<HookEntryView> {
    if has_handlers(table, hook) {
        table.update(
            hook_place(table, hook),
            HookEntryView { hook, handlers: handlers_of(table, hook).push(handler) },
        )
    } else {
        table.push(HookEntryView { hook, handlers: seq![handler] })
    }
}

/// No hook stands in the table twice, and none stands there without handlers.
pub open spec fn wf(table: Seq<HookEntryView>) -> bool {
    &&& forall|i: int, j: int|
        0 <= i < j < table.len() ==> (#[trigger] table[i]).hook != (#[trigger] table[j]).hook
    &&& forall|i: int| 0 <= i < table.len() ==> (#[trigger] table[i]).handlers.len() > 0
}

impl HookTable {
    /// A table without hooks.
    pub fn new() -> (out: HookTable)
        ensures
            out@ == Seq::<HookEntryView>::empty(),
            wf(out@),
    {
        let out = HookTable { entries: Vec::new() };
        assert(out@ =~= Seq::<HookEntryView>::empty());
        out
    }

    /// How many hooks have handlers.
    pub fn len(&self) -> (n: usize)
        ensures
            n == self@.len(),
    {
        self.entries.len()
    }

    /// Whether no hook has handlers.
    pub fn is_empty(&self) -> (none: bool)
        ensures
            none == (self@.len() == 0),
    {
        self.entries.len() == 0
    }

    /// Whether a hook has handlers.
    pub fn contains_key(&self, hook: &str) -> (yes: bool)
        ensures
            yes == has_handlers(self@, hook@),
    {
        find_entry(&self.entries, hook) < self.entries.len()
    }

    /// The handlers of a hook, where it has some.
    pub fn get(&self, hook: &str) -> (out: Option<&Vec<String>>)
        ensures
            out is Some <==> has_handlers(self@, hook@),
            out matches Some(handlers) ==> handlers.deep_view() == handlers_of(self@, hook@),
    {
        let at: usize = find_entry(&self.entries, hook);
        if at < self.entries.len() {
            assert(self@[at as int] == self.entries@[at as int].deep_view());
            Some(&self.entries[at].handlers)
        } else {
            None
        }
    }

    /// The handlers of a hook, none where it has none.
    pub fn handlers(&self, hook: &str) -> (out: Vec<String>)
        ensures
            out.deep_view() == handlers_of(self@, hook@),
    {
        match self.get(hook) {
            Some(handlers) => clone_texts(handlers),
            None => {
                let out: Vec<String> = Vec::new();
                assert(out.deep_view() =~= Seq::<Seq<char>>::empty());
                out
            },
        }
    }

    /// Adds a handler behind those that a hook has.
    pub fn register(&mut self, hook: &str, handler: &str)
        ensures
            final(self)@ == registered(old(self)@, hook@, handler@),
            wf(old(self)@) ==> wf(final(self)@),
    {
        let ghost table = self@;
        proof {
            if wf(table) {
                lemma_registered_wf(table, hook@, handler@);
            }
        }
        let at: usize = find_entry(&self.entries, hook);
        if at < self.entries.len() {
            assert(table[at as int] == self.entries@[at as int].deep_view());
            let mut handlers = clone_texts(&self.entries[at].handlers);
            let ghost before = handlers.deep_view();
            handlers.push(handler.to_owned());
            assert(handlers.deep_view() =~= before.push(handler@));
            self.entries.set(at, HookEntry { hook: hook.to_owned(), handlers });
            assert(self@ =~= registered(table, hook@, handler@));
        } else {
            let mut handlers: Vec<String> = Vec::new();
            handlers.push(handler.to_owned());
            assert(handlers.deep_view() =~= seq![handler@]);
            self.entries.push(HookEntry { hook: hook.to_owned(), handlers });
            assert(self@ =~= registered(table, hook@, handler@));
        }
    }
}

// ---------------------------------------------------------------------
// Laws
// ---------------------------------------------------------------------

/// A registration keeps the table free of repeated hooks and of hooks without
/// handlers.
pub proof fn lemma_registered_wf(table: Seq<HookEntryView>, hook: Seq<char>, handler: Seq<char>)
    requires
        wf(table),
    ensures
        wf(registered(table, hook, handler)),
{
    crate::registry::lemma_place::<HookEntry>(table, hook);
    let after = registered(table, hook, handler);
    let at = hook_place(table, hook);
    assert forall|i: int, j: int| 0 <= i < j < after.len() implies (#[trigger] after[i]).hook != (
    #[trigger] after[j]).hook by {
        if has_handlers(table, hook) {
            assert(after[i].hook == table[i].hook);
            assert(after[j].hook == table[j].hook);
        } else {
            assert(after[i] == table[i]);
            assert(table[i].hook != hook);
            if j < table.len() {
                assert(after[j] == table[j]);
            }
        }
    }
    assert forall|i: int| 0 <= i < after.len() implies (#[trigger] after[i]).handlers.len() > 0 by {
        if i != at && i < table.len() {
            assert(after[i] == table[i]);
        }
    }
}

/// A registered hook is in the table, and its handlers are those that it had
/// and, behind them, the new one.
pub proof fn lemma_registration_is_found(
    table: Seq<HookEntryView>,
    hook: Seq<char>,
    handler: Seq<char>,
)
    ensures
        has_handlers(registered(table, hook, handler), hook),
        handlers_of(registered(table, hook, handler), hook) == handlers_of(table, hook).push(
            handler,
        ),
{
    crate::registry::lemma_place::<HookEntry>(table, hook);
    let after = registered(table, hook, handler);
    let at = hook_place(table, hook);
    crate::registry::lemma_place::<HookEntry>(after, hook);
    let found = hook_place(after, hook);
    assert(after[at].hook == hook);
    if found < at {
        assert(after[found] == table[found]);
    }
    assert(found <= at);
    if !has_handlers(table, hook) {
        assert(seq![handler] =~= Seq::<Seq<char>>::empty().push(handler));
    }
}

/// A registration changes no other hook.
pub proof fn lemma_registration_is_local(
    table: Seq<HookEntryView>,
    hook: Seq<char>,
    handler: Seq<char>,
    other: Seq<char>,
)
    requires
        other != hook,
    ensures
        has_handlers(registered(table, hook, handler), other) == has_handlers(table, other),
        handlers_of(registered(table, hook, handler), other) == handlers_of(table, other),
{
    let after = registered(table, hook, handler);
    crate::registry::lemma_place::<HookEntry>(table, hook);
    crate::registry::lemma_place::<HookEntry>(table, other);
    crate::registry::lemma_place::<HookEntry>(after, other);
    let p = hook_place(table, other);
    let q = hook_place(after, other);
    if p < table.len() {
        assert(after[p] == table[p]);
        assert(after[p].hook == other);
        if q < p {
            if q != hook_place(table, hook) {
                assert(after[q] == table[q]);
            }
            assert(false);
        }
    } else if q < after.len() {
        if q < table.len() {
            assert(after[q].hook == table[q].hook);
        }
        assert(false);
    }
}

/// An empty table has no handlers for any hook, and a hook that is in a
/// well-formed table has some.
pub proof fn lemma_hooks_without_handlers(table: Seq<HookEntryView>, hook: Seq<char>)
    ensures
        handlers_of(Seq::empty(), hook).len() == 0,
        !has_handlers(Seq::empty(), hook),
        wf(table) ==> (has_handlers(table, hook) <==> handlers_of(table, hook).len() > 0),
{
    crate::registry::lemma_place::<HookEntry>(table, hook);
}

/// Of any number of registrations for one hook, its handlers are all of them in
/// their order.
pub proof fn lemma_handlers_keep_their_order(
    table: Seq<HookEntryView>,
    hook: Seq<char>,
    first: Seq<char>,
    second: Seq<char>,
)
    ensures
        handlers_of(registered(registered(table, hook, first), hook, second), hook) == handlers_of(
            table,
            hook,
        ) + seq![first, second],
{
    lemma_registration_is_found(table, hook, first);
    lemma_registration_is_found(registered(table, hook, first), hook, second);
    assert(handlers_of(table, hook).push(first).push(second) =~= handlers_of(table, hook) + seq![
        first,
        second,
    ]);
}

} // verus!
