//! The registries: what plugins declare to the host.
//!
//! A registry is a blob of registrations in the order in which they came. A
//! name that is registered again keeps its place and takes the new entry.
use vstd::prelude::*;

use crate::rows::{read_optional, read_rows, Row};
use crate::text::same_text;
use crate::value::Value;
use crate::wire::{push_pair, push_record, push_triple};

verus! {

// ---------------------------------------------------------------------
// The last registration of a name wins
// ---------------------------------------------------------------------

/// An entry that is registered under a name.
pub trait Keyed: DeepView + Sized {
    spec fn key_of(v: Self::V) -> Seq<char>;

    /// The name of the entry.
    fn key(&self) -> (k: &str)
        ensures
            k@ == Self::key_of(self.deep_view()),
    ;
}

/// The place of the entry with that name, or the number of entries without
/// one.
pub open spec fn place<T: Keyed>(kept: Seq<T::V>, key: Seq<char>) -> int
    decreases kept.len(),
{
    if kept.len() == 0 || T::key_of(kept[0]) == key {
        0
    } else {
        1 + place::<T>(kept.drop_first(), key)
    }
}

/// The entries after one more registration.
pub open spec fn upsert<T: Keyed>(kept: Seq<T::V>, item: T::V) -> Seq<T::V> {
    let i = place::<T>(kept, T::key_of(item));
    if i < kept.len() {
        kept.update(i, item)
    } else {
        kept.push(item)
    }
}

/// The entries that a sequence of registrations leaves.
pub open spec fn latest<T: Keyed>(items: Seq<T::V>) -> Seq<T::V>
    decreases items.len(),
{
    if items.len() == 0 {
        Seq::empty()
    } else {
        upsert::<T>(latest::<T>(items.drop_last()), items.last())
    }
}

/// The names of some entries.
pub open spec fn keys<T: Keyed>(items: Seq<T::V>) -> Seq<Seq<char>> {
    items.map_values(|v: T::V| T::key_of(v))
}

/// The names in the order in which each came first, without repetition.
pub open spec fn first_occurrences(names: Seq<Seq<char>>) -> Seq<Seq<char>>
    decreases names.len(),
{
    if names.len() == 0 {
        Seq::empty()
    } else {
        let head = first_occurrences(names.drop_last());
        if names.drop_last().contains(names.last()) {
            head
        } else {
            head.push(names.last())
        }
    }
}

/// The names that were registered again, one for each registration that has
/// taken the place of an earlier one.
pub open spec fn repeats(names: Seq<Seq<char>>) -> Seq<Seq<char>>
    decreases names.len(),
{
    if names.len() == 0 {
        Seq::empty()
    } else {
        let head = repeats(names.drop_last());
        if names.drop_last().contains(names.last()) {
            head.push(names.last())
        } else {
            head
        }
    }
}

/// No entry before the place has the name, and the entry there has it.
pub proof fn lemma_place<T: Keyed>(kept: Seq<T::V>, key: Seq<char>)
    ensures
        0 <= place::<T>(kept, key) <= kept.len(),
        forall|j: int| 0 <= j < place::<T>(kept, key) ==> T::key_of(#[trigger] kept[j]) != key,
        place::<T>(kept, key) < kept.len() ==> T::key_of(kept[place::<T>(kept, key)]) == key,
    decreases kept.len(),
{
    if kept.len() > 0 && T::key_of(kept[0]) != key {
        lemma_place::<T>(kept.drop_first(), key);
        let p = place::<T>(kept.drop_first(), key);
        assert forall|j: int| 0 <= j < 1 + p implies T::key_of(#[trigger] kept[j]) != key by {
            if j > 0 {
                assert(kept[j] == kept.drop_first()[j - 1]);
            }
        }
        if p < kept.drop_first().len() {
            assert(kept[1 + p] == kept.drop_first()[p]);
        }
    }
}

/// Finds the entry with that name.
pub fn find_entry<T: Keyed>(kept: &Vec<T>, key: &str) -> (at: usize)
    ensures
        at == place::<T>(kept.deep_view(), key@),
        at <= kept@.len(),
{
    let ghost entries = kept.deep_view();
    proof {
        lemma_place::<T>(entries, key@);
    }
    let mut i: usize = 0;
    while i < kept.len()
        invariant_except_break
            i <= place::<T>(entries, key@),
        invariant
            i <= kept@.len(),
            entries == kept.deep_view(),
            0 <= place::<T>(entries, key@) <= entries.len(),
            place::<T>(entries, key@) < entries.len() ==> T::key_of(
                entries[place::<T>(entries, key@)],
            ) == key@,
            forall|j: int|
                0 <= j < place::<T>(entries, key@) ==> T::key_of(#[trigger] entries[j]) != key@,
        ensures
            i == place::<T>(entries, key@),
        decreases kept@.len() - i,
    {
        assert(entries[i as int] == kept@[i as int].deep_view());
        if same_text(kept[i].key(), key) {
            break ;
        }
        i = i + 1;
    }
    i
}

fn register_entry<T: Keyed>(kept: &mut Vec<T>, item: T)
    ensures
        final(kept).deep_view() == upsert::<T>(old(kept).deep_view(), item.deep_view()),
{
    let ghost before = kept.deep_view();
    let ghost entry = item.deep_view();
    let i: usize = find_entry(kept, item.key());
    if i < kept.len() {
        kept.set(i, item);
        assert(kept.deep_view() =~= before.update(i as int, entry));
    } else {
        kept.push(item);
        assert(kept.deep_view() =~= before.push(entry));
    }
}

/// Keeps one entry per name.
pub fn keep_latest<T: Keyed>(items: Vec<T>) -> (out: Vec<T>)
    ensures
        out.deep_view() == latest::<T>(items.deep_view()),
{
    let ghost all = items.deep_view();
    let mut out: Vec<T> = Vec::new();
    assert(all.take(0) =~= Seq::empty());
    assert(out.deep_view() =~= latest::<T>(all.take(0)));
    for item in it: items
        invariant
            it.seq() == items@,
            all == items.deep_view(),
            out.deep_view() == latest::<T>(all.take(it.index() as int)),
    {
        assert(all.take(it.index() + 1).drop_last() =~= all.take(it.index() as int));
        assert(all[it.index() as int] == item.deep_view());
        register_entry(&mut out, item);
    }
    assert(all.take(all.len() as int) =~= all);
    out
}

/// The names that were registered again.
pub fn repeated_names<T: Keyed>(items: &Vec<T>) -> (out: Vec<String>)
    ensures
        out.deep_view() == repeats(keys::<T>(items.deep_view())),
{
    let ghost names = keys::<T>(items.deep_view());
    let mut out: Vec<String> = Vec::new();
    let mut i: usize = 0;
    assert(names.take(0) =~= Seq::empty());
    assert(out.deep_view() =~= repeats(names.take(0)));
    while i < items.len()
        invariant
            i <= items@.len(),
            names == keys::<T>(items.deep_view()),
            out.deep_view() == repeats(names.take(i as int)),
        decreases items@.len() - i,
    {
        let name = items[i].key();
        let ghost before = out.deep_view();
        assert(names[i as int] == name@);
        assert(names.take(i + 1).drop_last() =~= names.take(i as int));
        assert(names.take(i + 1).last() == name@);
        let at: usize = find_entry(items, name);
        proof {
            lemma_place::<T>(items.deep_view(), name@);
            if at < i {
                assert(names.take(i as int)[at as int] == name@);
                assert(names.take(i as int).contains(name@));
            } else if names.take(i as int).contains(name@) {
                let j = names.take(i as int).index_of(name@);
                assert(T::key_of(items.deep_view()[j]) == name@);
            }
        }
        if at < i {
            out.push(name.to_owned());
            assert(out.deep_view() =~= before.push(name@));
        }
        i = i + 1;
    }
    assert(names.take(i as int) =~= names);
    out
}

/// No name is listed twice.
pub proof fn lemma_latest_distinct<T: Keyed>(items: Seq<T::V>)
    ensures
        forall|i: int, j: int|
            0 <= i < j < latest::<T>(items).len() ==> T::key_of(#[trigger] latest::<T>(items)[i])
                != T::key_of(#[trigger] latest::<T>(items)[j]),
    decreases items.len(),
{
    if items.len() > 0 {
        lemma_latest_distinct::<T>(items.drop_last());
        lemma_place::<T>(latest::<T>(items.drop_last()), T::key_of(items.last()));
        let kept = latest::<T>(items.drop_last());
        let after = latest::<T>(items);
        let p = place::<T>(kept, T::key_of(items.last()));
        assert forall|i: int, j: int| 0 <= i < j < after.len() implies T::key_of(
            #[trigger] after[i],
        ) != T::key_of(#[trigger] after[j]) by {
            if i != p && j != p {
                assert(after[i] == kept[i] && after[j] == kept[j]);
            } else if p < kept.len() {
                let other = if i == p {
                    j
                } else {
                    i
                };
                assert(after[other] == kept[other]);
                assert(T::key_of(kept[p]) == T::key_of(items.last()));
                if other < p {
                    assert(T::key_of(kept[other]) != T::key_of(kept[p]));
                } else {
                    assert(T::key_of(kept[p]) != T::key_of(kept[other]));
                }
            }
        }
    }
}

/// Every entry that is listed is the last registration of its name.
pub proof fn lemma_latest_wins<T: Keyed>(items: Seq<T::V>, i: int)
    requires
        0 <= i < latest::<T>(items).len(),
    ensures
        exists|j: int|
            0 <= j < items.len() && #[trigger] items[j] == latest::<T>(items)[i] && forall|k: int|
                j < k < items.len() ==> T::key_of(#[trigger] items[k]) != T::key_of(
                    latest::<T>(items)[i],
                ),
    decreases items.len(),
{
    let before = items.drop_last();
    let kept = latest::<T>(before);
    let after = latest::<T>(items);
    let p = place::<T>(kept, T::key_of(items.last()));
    lemma_place::<T>(kept, T::key_of(items.last()));
    if i == p {
        assert(after[i] == items[items.len() - 1]);
    } else {
        assert(after[i] == kept[i]);
        lemma_latest_wins::<T>(before, i);
        let j = choose|j: int|
            0 <= j < before.len() && #[trigger] before[j] == kept[i] && forall|k: int|
                j < k < before.len() ==> T::key_of(#[trigger] before[k]) != T::key_of(kept[i]);
        assert(items[j] == after[i]);
        assert forall|k: int| j < k < items.len() implies T::key_of(#[trigger] items[k])
            != T::key_of(after[i]) by {
            if k < before.len() {
                assert(items[k] == before[k]);
            } else {
                lemma_latest_distinct::<T>(items);
                if p < kept.len() {
                    assert(after[p] == items.last());
                } else {
                    assert(T::key_of(kept[i]) != T::key_of(items.last()));
                }
            }
        }
    }
}

/// The names are listed in the order in which each was registered first, and
/// no registered name is missing.
pub proof fn lemma_latest_order<T: Keyed>(items: Seq<T::V>)
    ensures
        keys::<T>(latest::<T>(items)) == first_occurrences(keys::<T>(items)),
        forall|name: Seq<char>|
            keys::<T>(items).contains(name) <==> #[trigger] keys::<T>(
                latest::<T>(items),
            ).contains(name),
    decreases items.len(),
{
    if items.len() == 0 {
        assert(keys::<T>(latest::<T>(items)) =~= first_occurrences(keys::<T>(items)));
        assert(keys::<T>(latest::<T>(items)) =~= keys::<T>(items));
    } else {
        let before = items.drop_last();
        let kept = latest::<T>(before);
        let after = latest::<T>(items);
        let name = T::key_of(items.last());
        let p = place::<T>(kept, name);
        lemma_latest_order::<T>(before);
        lemma_place::<T>(kept, name);
        assert(keys::<T>(items).drop_last() =~= keys::<T>(before));
        assert(keys::<T>(items).last() == name);
        if p < kept.len() {
            assert(keys::<T>(kept)[p] == name);
            assert(keys::<T>(kept).contains(name));
            assert(keys::<T>(after) =~= keys::<T>(kept));
        } else {
            if keys::<T>(kept).contains(name) {
                let i = keys::<T>(kept).index_of(name);
                assert(T::key_of(kept[i]) == name);
                assert(false);
            }
            assert(keys::<T>(after) =~= keys::<T>(kept).push(name));
        }
        assert forall|n: Seq<char>|
            keys::<T>(items).contains(n) <==> #[trigger] keys::<T>(after).contains(n) by {
            let whole = keys::<T>(items);
            assert(whole =~= keys::<T>(before).push(name));
            if whole.contains(n) {
                let i = whole.index_of(n);
                if i < before.len() {
                    assert(keys::<T>(before)[i] == n);
                    assert(keys::<T>(before).contains(n));
                    assert(keys::<T>(kept).contains(n));
                    let k = keys::<T>(kept).index_of(n);
                    assert(keys::<T>(after)[k] == n);
                } else {
                    if p < kept.len() {
                        assert(keys::<T>(after)[p] == n);
                    } else {
                        assert(keys::<T>(after)[kept.len() as int] == n);
                    }
                }
            }
            if keys::<T>(after).contains(n) {
                let k = keys::<T>(after).index_of(n);
                if k < kept.len() {
                    assert(keys::<T>(kept)[k] == n);
                    assert(keys::<T>(kept).contains(n));
                    assert(keys::<T>(before).contains(n));
                    let i = keys::<T>(before).index_of(n);
                    assert(whole[i] == n);
                } else {
                    assert(whole[before.len() as int] == n);
                }
            }
        }
    }
}

proof fn lemma_occurrences(names: Seq<Seq<char>>)
    ensures
        first_occurrences(names).len() + repeats(names).len() == names.len(),
    decreases names.len(),
{
    if names.len() > 0 {
        lemma_occurrences(names.drop_last());
    }
}

/// Every registration is listed or was replaced, and none is both.
pub proof fn lemma_registrations_are_listed_or_replaced<T: Keyed>(items: Seq<T::V>)
    ensures
        latest::<T>(items).len() + repeats(keys::<T>(items)).len() == items.len(),
{
    lemma_latest_order::<T>(items);
    lemma_occurrences(keys::<T>(items));
    assert(keys::<T>(latest::<T>(items)).len() == latest::<T>(items).len());
}

/// One more registration is an update of the listing.
pub proof fn lemma_latest_push<T: Keyed>(items: Seq<T::V>, item: T::V)
    ensures
        latest::<T>(items.push(item)) == upsert::<T>(latest::<T>(items), item),
{
    assert(items.push(item).drop_last() =~= items);
}

// ---------------------------------------------------------------------
// What plugins register
// ---------------------------------------------------------------------

impl Keyed for (String, String) {
    open spec fn key_of(v: (Seq<char>, Seq<char>)) -> Seq<char> {
        v.0
    }

    fn key(&self) -> (k: &str) {
        self.0.as_str()
    }
}

/// A model provider: its name, its type, its base URL and, where it differs
/// from the default, the variable that holds its key.
impl Row for (String, String, String, Option<String>) {
    open spec fn row_value(row: Seq<Seq<char>>) -> Option<
        (Seq<char>, Seq<char>, Seq<char>, Option<Seq<char>>),
    > {
        if row.len() < 3 {
            None
        } else {
            Some((row[0], row[1], row[2], crate::rows::optional_at(row, 3)))
        }
    }

    fn read_row(row: &Vec<String>) -> (out: Option<Self>) {
        if row.len() < 3 {
            None
        } else {
            Some((row[0].clone(), row[1].clone(), row[2].clone(), read_optional(row, 3)))
        }
    }
}

impl Keyed for (String, String, String, Option<String>) {
    open spec fn key_of(
        v: (Seq<char>, Seq<char>, Seq<char>, Option<Seq<char>>),
    ) -> Seq<char> {
        v.0
    }

    fn key(&self) -> (k: &str) {
        self.0.as_str()
    }
}

/// A tool that a plugin offers to the model.
#[derive(Debug, PartialEq, Eq)]
pub struct PluginToolMeta {
    pub name: String,
    pub description: String,
    pub label: String,
    /// The JSON schema of the arguments.
    pub parameters: String,
    /// The function that runs the tool.
    pub handler: String,
    /// Whether calls run one by one or side by side, where the plugin says so.
    pub execution_mode: Option<String>,
    /// The function that prepares the arguments, where there is one.
    pub prepare_handler: Option<String>,
}

/// The mathematical form of a [`PluginToolMeta`].
pub struct PluginToolMetaView {
    pub name: Seq<char>,
    pub description: Seq<char>,
    pub label: Seq<char>,
    pub parameters: Seq<char>,
    pub handler: Seq<char>,
    pub execution_mode: Option<Seq<char>>,
    pub prepare_handler: Option<Seq<char>>,
}

impl DeepView for PluginToolMeta {
    type V = PluginToolMetaView;

    open spec fn deep_view(&self) -> PluginToolMetaView {
        PluginToolMetaView {
            name: self.name@,
            description: self.description@,
            label: self.label@,
            parameters: self.parameters@,
            handler: self.handler@,
            execution_mode: self.execution_mode.deep_view(),
            prepare_handler: self.prepare_handler.deep_view(),
        }
    }
}

/// Whether a character may stand in a tool name.
pub open spec fn tool_name_char(c: char) -> bool {
    ('a' <= c && c <= 'z') || ('A' <= c && c <= 'Z') || ('0' <= c && c <= '9') || c == '_' || c
        == '-'
}

/// Whether model providers accept the name of a tool: it has characters, and
/// all are letters, digits, `_` or `-` of ASCII.
pub open spec fn valid_tool_name(name: Seq<char>) -> bool {
    name.len() > 0 && forall|i: int| 0 <= i < name.len() ==> tool_name_char(#[trigger] name[i])
}

fn is_tool_name_char(c: char) -> (ok: bool)
    ensures
        ok == tool_name_char(c),
{
    ('a' <= c && c <= 'z') || ('A' <= c && c <= 'Z') || ('0' <= c && c <= '9') || c == '_' || c
        == '-'
}

/// Tests the name of a tool.
pub fn is_valid_tool_name(name: &str) -> (ok: bool)
    ensures
        ok == valid_tool_name(name@),
{
    let chars = crate::text::chars_of(name);
    let mut i: usize = 0;
    while i < chars.len()
        invariant
            i <= chars@.len(),
            chars@ == name@,
            forall|j: int| 0 <= j < i ==> tool_name_char(#[trigger] chars@[j]),
        decreases chars@.len() - i,
    {
        if !is_tool_name_char(chars[i]) {
            return false;
        }
        i = i + 1;
    }
    chars.len() > 0
}

impl Row for PluginToolMeta {
    /// A tool whose name no provider accepts is skipped.
    open spec fn row_value(row: Seq<Seq<char>>) -> Option<PluginToolMetaView> {
        if row.len() < 5 || !valid_tool_name(row[0]) {
            None
        } else {
            Some(
                PluginToolMetaView {
                    name: row[0],
                    description: row[1],
                    label: row[2],
                    parameters: row[3],
                    handler: row[4],
                    execution_mode: crate::rows::optional_at(row, 5),
                    prepare_handler: crate::rows::optional_at(row, 6),
                },
            )
        }
    }

    fn read_row(row: &Vec<String>) -> (out: Option<Self>) {
        assert(row.deep_view()[0] == row@[0]@);
        if row.len() < 5 || !is_valid_tool_name(row[0].as_str()) {
            None
        } else {
            Some(
                PluginToolMeta {
                    name: row[0].clone(),
                    description: row[1].clone(),
                    label: row[2].clone(),
                    parameters: row[3].clone(),
                    handler: row[4].clone(),
                    execution_mode: read_optional(row, 5),
                    prepare_handler: read_optional(row, 6),
                },
            )
        }
    }
}

/// A tool that is not listed because no provider accepts its name.
#[derive(Debug, PartialEq, Eq)]
pub struct RefusedTool {
    pub name: String,
}

impl DeepView for RefusedTool {
    type V = Seq<char>;

    open spec fn deep_view(&self) -> Seq<char> {
        self.name@
    }
}

impl Row for RefusedTool {
    open spec fn row_value(row: Seq<Seq<char>>) -> Option<Seq<char>> {
        if row.len() < 5 || valid_tool_name(row[0]) {
            None
        } else {
            Some(row[0])
        }
    }

    fn read_row(row: &Vec<String>) -> (out: Option<Self>) {
        assert(row.deep_view()[0] == row@[0]@);
        if row.len() < 5 || is_valid_tool_name(row[0].as_str()) {
            None
        } else {
            Some(RefusedTool { name: row[0].clone() })
        }
    }
}

impl Keyed for PluginToolMeta {
    open spec fn key_of(v: PluginToolMetaView) -> Seq<char> {
        v.name
    }

    fn key(&self) -> (k: &str) {
        self.name.as_str()
    }
}

/// A keyboard shortcut that a plugin binds.
#[derive(Debug, PartialEq, Eq)]
pub struct Shortcut {
    pub keys: String,
    pub handler: String,
    pub description: String,
}

/// The mathematical form of a [`Shortcut`].
pub struct ShortcutView {
    pub keys: Seq<char>,
    pub handler: Seq<char>,
    pub description: Seq<char>,
}

impl DeepView for Shortcut {
    type V = ShortcutView;

    open spec fn deep_view(&self) -> ShortcutView {
        ShortcutView {
            keys: self.keys@,
            handler: self.handler@,
            description: self.description@,
        }
    }
}

impl Row for Shortcut {
    open spec fn row_value(row: Seq<Seq<char>>) -> Option<ShortcutView> {
        if row.len() < 2 {
            None
        } else {
            Some(
                ShortcutView {
                    keys: row[0],
                    handler: row[1],
                    description: if row.len() > 2 {
                        row[2]
                    } else {
                        Seq::empty()
                    },
                },
            )
        }
    }

    fn read_row(row: &Vec<String>) -> (out: Option<Self>) {
        if row.len() < 2 {
            None
        } else {
            let description = if row.len() > 2 {
                row[2].clone()
            } else {
                String::new()
            };
            Some(Shortcut { keys: row[0].clone(), handler: row[1].clone(), description })
        }
    }
}

impl Keyed for Shortcut {
    open spec fn key_of(v: ShortcutView) -> Seq<char> {
        v.keys
    }

    fn key(&self) -> (k: &str) {
        self.keys.as_str()
    }
}

/// The text of an argument that may be left out.
pub open spec fn text_or_empty(v: crate::value::ValueView) -> Seq<char> {
    match v.text() {
        Some(text) => text,
        None => Seq::empty(),
    }
}

fn text_or_none(v: &Value) -> (out: String)
    ensures
        out@ == text_or_empty(v@),
{
    match v.text() {
        Some(text) => text,
        None => String::new(),
    }
}

/// The column of an execution mode: `sequential` or `parallel`, and nothing
/// for any other argument.
pub open spec fn mode_column(mode: crate::value::ValueView) -> Seq<char> {
    match mode.name() {
        Some(name) => if name == "sequential"@ || name == "parallel"@ {
            name
        } else {
            Seq::empty()
        },
        None => Seq::empty(),
    }
}

fn mode_text(mode: &Value) -> (out: String)
    ensures
        out@ == mode_column(mode@),
{
    match mode.name() {
        Some(name) => {
            if same_text(name.as_str(), "sequential") || same_text(name.as_str(), "parallel") {
                name
            } else {
                String::new()
            }
        },
        None => String::new(),
    }
}

// ---------------------------------------------------------------------
// The registries
// ---------------------------------------------------------------------

/// All registries, each as the blob of its registrations.
#[derive(Debug)]
pub struct Registries {
    pub commands: String,
    pub providers: String,
    pub tools: String,
    pub shortcuts: String,
    pub message_renderers: String,
    pub renderers: String,
}

/// The mathematical form of [`Registries`].
pub struct RegistriesView {
    pub commands: Seq<char>,
    pub providers: Seq<char>,
    pub tools: Seq<char>,
    pub shortcuts: Seq<char>,
    pub message_renderers: Seq<char>,
    pub renderers: Seq<char>,
}

impl View for Registries {
    type V = RegistriesView;

    open spec fn view(&self) -> RegistriesView {
        RegistriesView {
            commands: self.commands@,
            providers: self.providers@,
            tools: self.tools@,
            shortcuts: self.shortcuts@,
            message_renderers: self.message_renderers@,
            renderers: self.renderers@,
        }
    }
}

/// The entries of a registry, as they are listed.
pub open spec fn listing<T: Row + Keyed>(blob: Seq<char>) -> Seq<<T as DeepView>::V> {
    latest::<T>(crate::rows::rows::<T>(blob))
}

/// The blob of a registry after a name and a handler were registered, if both
/// are strings.
pub open spec fn pair_registered(
    blob: Seq<char>,
    name: crate::value::ValueView,
    handler: crate::value::ValueView,
) -> Seq<char> {
    match (name.text(), handler.text()) {
        (Some(n), Some(h)) => blob + crate::wire::record(seq![n, h]),
        _ => blob,
    }
}

impl RegistriesView {
    /// Registries without any entry.
    pub open spec fn empty() -> RegistriesView {
        RegistriesView {
            commands: Seq::empty(),
            providers: Seq::empty(),
            tools: Seq::empty(),
            shortcuts: Seq::empty(),
            message_renderers: Seq::empty(),
            renderers: Seq::empty(),
        }
    }

    /// Every registration is finished.
    pub open spec fn complete(self) -> bool {
        &&& crate::wire::complete(self.commands)
        &&& crate::wire::complete(self.providers)
        &&& crate::wire::complete(self.tools)
        &&& crate::wire::complete(self.shortcuts)
        &&& crate::wire::complete(self.message_renderers)
        &&& crate::wire::complete(self.renderers)
    }

    /// After `(harness/register-command name handler)`.
    pub open spec fn command(
        self,
        name: crate::value::ValueView,
        handler: crate::value::ValueView,
    ) -> RegistriesView {
        RegistriesView { commands: pair_registered(self.commands, name, handler), ..self }
    }

    /// After `(harness/register-message-renderer kind handler)`.
    pub open spec fn message_renderer(
        self,
        kind: crate::value::ValueView,
        handler: crate::value::ValueView,
    ) -> RegistriesView {
        RegistriesView {
            message_renderers: pair_registered(self.message_renderers, kind, handler),
            ..self
        }
    }

    /// After `(harness/register-renderer kind handler)`.
    pub open spec fn renderer(
        self,
        kind: crate::value::ValueView,
        handler: crate::value::ValueView,
    ) -> RegistriesView {
        RegistriesView { renderers: pair_registered(self.renderers, kind, handler), ..self }
    }

    /// After `(harness/register-provider name type url key-env)`. The name,
    /// the type and the URL are strings.
    pub open spec fn provider(
        self,
        name: crate::value::ValueView,
        kind: crate::value::ValueView,
        url: crate::value::ValueView,
        key_env: crate::value::ValueView,
    ) -> RegistriesView {
        match (name.text(), kind.text(), url.text()) {
            (Some(n), Some(k), Some(u)) => RegistriesView {
                providers: self.providers + crate::wire::record(
                    seq![n, k, u, text_or_empty(key_env)],
                ),
                ..self
            },
            _ => self,
        }
    }

    /// After `(harness/register-shortcut keys handler description)`. The keys
    /// and the handler are strings.
    pub open spec fn shortcut(
        self,
        keys: crate::value::ValueView,
        handler: crate::value::ValueView,
        description: crate::value::ValueView,
    ) -> RegistriesView {
        match (keys.text(), handler.text()) {
            (Some(k), Some(h)) => RegistriesView {
                shortcuts: self.shortcuts + crate::wire::record(
                    seq![k, h, text_or_empty(description)],
                ),
                ..self
            },
            _ => self,
        }
    }

    /// After `(harness/register-tool name description label parameters handler
    /// mode prepare)`. The first five arguments are strings.
    pub open spec fn tool(self, args: Seq<crate::value::ValueView>) -> RegistriesView {
        if forall|i: int| 0 <= i < 5 ==> (#[trigger] crate::value::arg(args, i)).text() is Some {
            RegistriesView {
                tools: self.tools + crate::wire::record(tool_fields(args)),
                ..self
            }
        } else {
            self
        }
    }
}

/// The record of a tool that is registered with these arguments.
pub open spec fn tool_fields(args: Seq<crate::value::ValueView>) -> Seq<Seq<char>> {
    seq![
        text_or_empty(crate::value::arg(args, 0)),
        text_or_empty(crate::value::arg(args, 1)),
        text_or_empty(crate::value::arg(args, 2)),
        text_or_empty(crate::value::arg(args, 3)),
        text_or_empty(crate::value::arg(args, 4)),
        mode_column(crate::value::arg(args, 5)),
        text_or_empty(crate::value::arg(args, 6)),
    ]
}

fn register_pair(blob: &mut String, name: &Value, handler: &Value)
    ensures
        final(blob)@ == pair_registered(old(blob)@, name@, handler@),
{
    if let Some(n) = name.text() {
        if let Some(h) = handler.text() {
            push_pair(blob, n.as_str(), h.as_str());
        }
    }
}

fn list_entries<T: Row + Keyed>(blob: &str) -> (out: Vec<T>)
    ensures
        out.deep_view() == listing::<T>(blob@),
{
    keep_latest(read_rows::<T>(blob))
}

impl Registries {
    /// Empty registries.
    pub fn new() -> (out: Registries)
        ensures
            out@ == RegistriesView::empty(),
    {
        Registries {
            commands: String::new(),
            providers: String::new(),
            tools: String::new(),
            shortcuts: String::new(),
            message_renderers: String::new(),
            renderers: String::new(),
        }
    }

    /// `(harness/register-command name handler)`.
    pub fn register_command(&mut self, name: &Value, handler: &Value)
        ensures
            final(self)@ == old(self)@.command(name@, handler@),
    {
        register_pair(&mut self.commands, name, handler);
    }

    /// `(harness/register-message-renderer kind handler)`.
    pub fn register_message_renderer(&mut self, kind: &Value, handler: &Value)
        ensures
            final(self)@ == old(self)@.message_renderer(kind@, handler@),
    {
        register_pair(&mut self.message_renderers, kind, handler);
    }

    /// `(harness/register-renderer kind handler)`.
    pub fn register_renderer(&mut self, kind: &Value, handler: &Value)
        ensures
            final(self)@ == old(self)@.renderer(kind@, handler@),
    {
        register_pair(&mut self.renderers, kind, handler);
    }

    /// `(harness/register-provider name type url key-env)`.
    pub fn register_provider(&mut self, name: &Value, kind: &Value, url: &Value, key_env: &Value)
        ensures
            final(self)@ == old(self)@.provider(name@, kind@, url@, key_env@),
    {
        if let Some(n) = name.text() {
            if let Some(k) = kind.text() {
                if let Some(u) = url.text() {
                    let mut fields: Vec<String> = Vec::new();
                    fields.push(n);
                    fields.push(k);
                    fields.push(u);
                    fields.push(text_or_none(key_env));
                    assert(fields.deep_view() =~= seq![n@, k@, u@, text_or_empty(key_env@)]);
                    push_record(&mut self.providers, &fields);
                }
            }
        }
    }

    /// `(harness/register-shortcut keys handler description)`.
    pub fn register_shortcut(&mut self, keys: &Value, handler: &Value, description: &Value)
        ensures
            final(self)@ == old(self)@.shortcut(keys@, handler@, description@),
    {
        if let Some(k) = keys.text() {
            if let Some(h) = handler.text() {
                let d = text_or_none(description);
                push_triple(&mut self.shortcuts, k.as_str(), h.as_str(), d.as_str());
            }
        }
    }

    /// `(harness/register-tool ..)`.
    pub fn register_tool(&mut self, args: &Vec<Value>)
        ensures
            final(self)@ == old(self)@.tool(args.deep_view()),
    {
        let ghost seen = args.deep_view();
        if args.len() < 5 {
            assert(crate::value::arg(seen, args@.len() as int) is Nil);
            return;
        }
        let mut fields: Vec<String> = Vec::new();
        let mut i: usize = 0;
        while i < 5
            invariant
                i <= 5,
                args@.len() >= 5,
                seen == args.deep_view(),
                self@ == old(self)@,
                fields@.len() == i,
                forall|j: int|
                    0 <= j < i ==> (#[trigger] crate::value::arg(seen, j)).text() is Some,
                forall|j: int|
                    0 <= j < i ==> (#[trigger] fields@[j])@ == text_or_empty(
                        crate::value::arg(seen, j),
                    ),
            decreases 5 - i,
        {
            assert(crate::value::arg(seen, i as int) == args@[i as int]@);
            match args[i].text() {
                Some(text) => fields.push(text),
                None => {
                    return;
                },
            }
            i = i + 1;
        }
        if args.len() > 5 {
            assert(crate::value::arg(seen, 5) == args@[5]@);
            fields.push(mode_text(&args[5]));
        } else {
            fields.push(String::new());
        }
        if args.len() > 6 {
            assert(crate::value::arg(seen, 6) == args@[6]@);
            fields.push(text_or_none(&args[6]));
        } else {
            fields.push(String::new());
        }
        assert(fields.deep_view() =~= tool_fields(seen));
        push_record(&mut self.tools, &fields);
    }

    /// The slash commands and their handlers.
    pub fn list_commands(&self) -> (out: Vec<(String, String)>)
        ensures
            out.deep_view() == listing::<(String, String)>(self@.commands),
    {
        list_entries(self.commands.as_str())
    }

    /// The message types and the functions that render them.
    pub fn list_message_renderers(&self) -> (out: Vec<(String, String)>)
        ensures
            out.deep_view() == listing::<(String, String)>(self@.message_renderers),
    {
        list_entries(self.message_renderers.as_str())
    }

    /// The entry types and the functions that render them.
    pub fn list_renderers(&self) -> (out: Vec<(String, String)>)
        ensures
            out.deep_view() == listing::<(String, String)>(self@.renderers),
    {
        list_entries(self.renderers.as_str())
    }

    /// The model providers.
    pub fn list_providers(&self) -> (out: Vec<(String, String, String, Option<String>)>)
        ensures
            out.deep_view() == listing::<(String, String, String, Option<String>)>(
                self@.providers,
            ),
    {
        list_entries(self.providers.as_str())
    }

    /// The tools.
    pub fn list_plugin_tools(&self) -> (out: Vec<PluginToolMeta>)
        ensures
            out.deep_view() == listing::<PluginToolMeta>(self@.tools),
    {
        list_entries(self.tools.as_str())
    }

    /// The tools that are not listed because of their names, in the order in
    /// which they were registered.
    pub fn list_refused_tools(&self) -> (out: Vec<RefusedTool>)
        ensures
            out.deep_view() == crate::rows::rows::<RefusedTool>(self@.tools),
    {
        read_rows::<RefusedTool>(self.tools.as_str())
    }

    /// The names of the tools that were registered again, one for each
    /// registration that has taken the place of an earlier one.
    pub fn list_replaced_tools(&self) -> (out: Vec<String>)
        ensures
            out.deep_view() == repeats(
                keys::<PluginToolMeta>(crate::rows::rows::<PluginToolMeta>(self@.tools)),
            ),
    {
        repeated_names(&read_rows::<PluginToolMeta>(self.tools.as_str()))
    }

    /// The keyboard shortcuts.
    pub fn list_shortcuts(&self) -> (out: Vec<Shortcut>)
        ensures
            out.deep_view() == listing::<Shortcut>(self@.shortcuts),
    {
        list_entries(self.shortcuts.as_str())
    }
}

// ---------------------------------------------------------------------
// Laws
// ---------------------------------------------------------------------

/// A record appended to a complete registry updates its listing with the entry
/// that the record stands for, and leaves it as it was where it stands for
/// none.
pub proof fn lemma_registration<T: Row + Keyed>(blob: Seq<char>, fields: Seq<Seq<char>>)
    requires
        crate::wire::complete(blob),
        fields.len() > 0,
    ensures
        crate::wire::complete(blob + crate::wire::record(fields)),
        listing::<T>(blob + crate::wire::record(fields)) == (match T::row_value(fields) {
            Some(entry) => upsert::<T>(listing::<T>(blob), entry),
            None => listing::<T>(blob),
        }),
{
    crate::rows::lemma_row_appended::<T>(blob, fields);
    if let Some(entry) = T::row_value(fields) {
        lemma_latest_push::<T>(crate::rows::rows::<T>(blob), entry);
    }
}

/// Commands, message renderers and entry renderers are listed as they were
/// registered, whatever characters their names hold; without two strings
/// nothing is registered.
pub proof fn lemma_pair_is_listed(
    blob: Seq<char>,
    name: crate::value::ValueView,
    handler: crate::value::ValueView,
)
    requires
        crate::wire::complete(blob),
    ensures
        crate::wire::complete(pair_registered(blob, name, handler)),
        listing::<(String, String)>(pair_registered(blob, name, handler)) == (match (
            name.text(),
            handler.text(),
        ) {
            (Some(n), Some(h)) => upsert::<(String, String)>(
                listing::<(String, String)>(blob),
                (n, h),
            ),
            _ => listing::<(String, String)>(blob),
        }),
{
    if let (Some(n), Some(h)) = (name.text(), handler.text()) {
        assert(seq![n, h].skip(1) =~= seq![h]);
        lemma_registration::<(String, String)>(blob, seq![n, h]);
    }
}

/// A provider is listed as it was registered; an empty or missing key variable
/// is none.
pub proof fn lemma_provider_is_listed(
    r: RegistriesView,
    name: crate::value::ValueView,
    kind: crate::value::ValueView,
    url: crate::value::ValueView,
    key_env: crate::value::ValueView,
)
    requires
        r.complete(),
    ensures
        r.provider(name, kind, url, key_env).complete(),
        listing::<(String, String, String, Option<String>)>(
            r.provider(name, kind, url, key_env).providers,
        ) == (match (name.text(), kind.text(), url.text()) {
            (Some(n), Some(k), Some(u)) => upsert::<(String, String, String, Option<String>)>(
                listing::<(String, String, String, Option<String>)>(r.providers),
                (
                    n,
                    k,
                    u,
                    if text_or_empty(key_env).len() > 0 {
                        key_env.text()
                    } else {
                        None
                    },
                ),
            ),
            _ => listing::<(String, String, String, Option<String>)>(r.providers),
        }),
{
    if let (Some(n), Some(k), Some(u)) = (name.text(), kind.text(), url.text()) {
        lemma_registration::<(String, String, String, Option<String>)>(
            r.providers,
            seq![n, k, u, text_or_empty(key_env)],
        );
    }
}

/// A shortcut is listed as it was bound, with an empty description where none
/// was given.
pub proof fn lemma_shortcut_is_listed(
    r: RegistriesView,
    keys: crate::value::ValueView,
    handler: crate::value::ValueView,
    description: crate::value::ValueView,
)
    requires
        r.complete(),
    ensures
        r.shortcut(keys, handler, description).complete(),
        listing::<Shortcut>(r.shortcut(keys, handler, description).shortcuts) == (match (
            keys.text(),
            handler.text(),
        ) {
            (Some(k), Some(h)) => upsert::<Shortcut>(
                listing::<Shortcut>(r.shortcuts),
                ShortcutView { keys: k, handler: h, description: text_or_empty(description) },
            ),
            _ => listing::<Shortcut>(r.shortcuts),
        }),
{
    if let (Some(k), Some(h)) = (keys.text(), handler.text()) {
        lemma_registration::<Shortcut>(r.shortcuts, seq![k, h, text_or_empty(description)]);
    }
}

/// The tool that the arguments of `harness/register-tool` stand for.
pub open spec fn tool_of(args: Seq<crate::value::ValueView>) -> Option<PluginToolMetaView> {
    if (forall|i: int| 0 <= i < 5 ==> (#[trigger] crate::value::arg(args, i)).text() is Some)
        && valid_tool_name(text_or_empty(crate::value::arg(args, 0))) {
        Some(
            PluginToolMetaView {
                name: text_or_empty(crate::value::arg(args, 0)),
                description: text_or_empty(crate::value::arg(args, 1)),
                label: text_or_empty(crate::value::arg(args, 2)),
                parameters: text_or_empty(crate::value::arg(args, 3)),
                handler: text_or_empty(crate::value::arg(args, 4)),
                execution_mode: if mode_column(crate::value::arg(args, 5)).len() > 0 {
                    Some(mode_column(crate::value::arg(args, 5)))
                } else {
                    None
                },
                prepare_handler: if text_or_empty(crate::value::arg(args, 6)).len() > 0 {
                    Some(text_or_empty(crate::value::arg(args, 6)))
                } else {
                    None
                },
            },
        )
    } else {
        None
    }
}

/// A tool is listed as it was registered; one with a name that no provider
/// accepts, or without its five strings, is not listed.
pub proof fn lemma_tool_is_listed(r: RegistriesView, args: Seq<crate::value::ValueView>)
    requires
        r.complete(),
    ensures
        r.tool(args).complete(),
        listing::<PluginToolMeta>(r.tool(args).tools) == (match tool_of(args) {
            Some(tool) => upsert::<PluginToolMeta>(listing::<PluginToolMeta>(r.tools), tool),
            None => listing::<PluginToolMeta>(r.tools),
        }),
{
    if forall|i: int| 0 <= i < 5 ==> (#[trigger] crate::value::arg(args, i)).text() is Some {
        lemma_registration::<PluginToolMeta>(r.tools, tool_fields(args));
    }
}

/// A registration of a tool that is not listed is told of: with a name that no
/// provider accepts it is one more refused tool, and under a name that was
/// registered before it replaces a tool.
pub proof fn lemma_dropped_tool_is_told(r: RegistriesView, args: Seq<crate::value::ValueView>)
    requires
        r.complete(),
        forall|i: int| 0 <= i < 5 ==> (#[trigger] crate::value::arg(args, i)).text() is Some,
    ensures
        ({
            let name = text_or_empty(crate::value::arg(args, 0));
            let refused = crate::rows::rows::<RefusedTool>(r.tools);
            let before = keys::<PluginToolMeta>(crate::rows::rows::<PluginToolMeta>(r.tools));
            let after = keys::<PluginToolMeta>(
                crate::rows::rows::<PluginToolMeta>(r.tool(args).tools),
            );
            if valid_tool_name(name) {
                &&& crate::rows::rows::<RefusedTool>(r.tool(args).tools) == refused
                &&& repeats(after) == (if before.contains(name) {
                    repeats(before).push(name)
                } else {
                    repeats(before)
                })
            } else {
                &&& crate::rows::rows::<RefusedTool>(r.tool(args).tools) == refused.push(name)
                &&& repeats(after) == repeats(before)
            }
        }),
{
    let name = text_or_empty(crate::value::arg(args, 0));
    let fields = tool_fields(args);
    crate::rows::lemma_row_appended::<RefusedTool>(r.tools, fields);
    crate::rows::lemma_row_appended::<PluginToolMeta>(r.tools, fields);
    let before = keys::<PluginToolMeta>(crate::rows::rows::<PluginToolMeta>(r.tools));
    let after = keys::<PluginToolMeta>(crate::rows::rows::<PluginToolMeta>(r.tool(args).tools));
    if valid_tool_name(name) {
        assert(after =~= before.push(name));
        assert(after.drop_last() =~= before);
    }
}

/// Every tool that is listed has a name that providers accept.
pub proof fn lemma_listed_tools_have_valid_names(blob: Seq<char>, i: int)
    requires
        0 <= i < listing::<PluginToolMeta>(blob).len(),
    ensures
        valid_tool_name(listing::<PluginToolMeta>(blob)[i].name),
{
    let items = crate::rows::rows::<PluginToolMeta>(blob);
    lemma_latest_wins::<PluginToolMeta>(items, i);
    let j = choose|j: int|
        0 <= j < items.len() && #[trigger] items[j] == listing::<PluginToolMeta>(blob)[i]
            && forall|k: int|
            j < k < items.len() ==> PluginToolMeta::key_of(#[trigger] items[k])
                != PluginToolMeta::key_of(listing::<PluginToolMeta>(blob)[i]);
    let read = |row: Seq<Seq<char>>| PluginToolMeta::row_value(row);
    assert(items.contains(items[j]));
    crate::wire::records_of(blob).lemma_filter_map_contains(read, items[j]);
}

/// An entry under a new name is listed behind the others. One under a name that
/// is listed takes the place of the entry there. No other entry changes or
/// moves.
pub proof fn lemma_entry_takes_its_place<T: Keyed>(kept: Seq<T::V>, item: T::V)
    ensures
        (forall|i: int| 0 <= i < kept.len() ==> T::key_of(#[trigger] kept[i]) != T::key_of(item))
            ==> upsert::<T>(kept, item) == kept.push(item),
        forall|i: int|
            0 <= i < kept.len() && T::key_of(#[trigger] kept[i]) == T::key_of(item) && (forall|
                j: int,
            |
                0 <= j < i ==> T::key_of(#[trigger] kept[j]) != T::key_of(item)) ==> upsert::<T>(
                kept,
                item,
            ) == kept.update(i, item),
{
    lemma_place::<T>(kept, T::key_of(item));
    let p = place::<T>(kept, T::key_of(item));
    assert forall|i: int|
        0 <= i < kept.len() && T::key_of(#[trigger] kept[i]) == T::key_of(item) && (forall|j: int|
            0 <= j < i ==> T::key_of(#[trigger] kept[j]) != T::key_of(item)) implies upsert::<T>(
        kept,
        item,
    ) == kept.update(i, item) by {
        if p < i {
            assert(T::key_of(kept[p]) == T::key_of(item));
        }
        if i < p {
            assert(T::key_of(kept[i]) != T::key_of(item));
        }
    }
}

/// A registry without registrations lists nothing.
pub proof fn lemma_empty_registry_lists_nothing<T: Row + Keyed>()
    ensures
        listing::<T>(Seq::empty()).len() == 0,
{
    crate::rows::lemma_no_rows::<T>();
}

/// Names of tools are made of letters, digits, `_` and `-` of ASCII, and may be
/// of any length: two names make a name, and the parts of a name are names.
pub proof fn lemma_tool_names_may_be_long(a: Seq<char>, c: char, b: Seq<char>)
    requires
        a.len() > 0,
        b.len() > 0,
    ensures
        !valid_tool_name(Seq::empty()),
        valid_tool_name(seq![c]) <==> ('a' <= c && c <= 'z') || ('A' <= c && c <= 'Z') || ('0' <= c
            && c <= '9') || c == '_' || c == '-',
        valid_tool_name(a + b) <==> valid_tool_name(a) && valid_tool_name(b),
{
    let whole = a + b;
    assert(seq![c][0] == c);
    if valid_tool_name(whole) {
        assert forall|i: int| 0 <= i < a.len() implies tool_name_char(#[trigger] a[i]) by {
            assert(whole[i] == a[i]);
        }
        assert forall|i: int| 0 <= i < b.len() implies tool_name_char(#[trigger] b[i]) by {
            assert(whole[a.len() + i] == b[i]);
        }
    }
    if valid_tool_name(a) && valid_tool_name(b) {
        assert forall|i: int| 0 <= i < whole.len() implies tool_name_char(#[trigger] whole[i]) by {
            if i < a.len() {
                assert(whole[i] == a[i]);
            } else {
                assert(whole[i] == b[i - a.len()]);
            }
        }
    }
}

} // verus!
