//! How custom messages of plugins are shown.
use vstd::prelude::*;

use crate::dispatch::HookCall;
use crate::json::{object_text, JsonScalar};
use crate::manager::PluginManager;
use crate::queues::CustomMessage;
use crate::registry::find_entry;

verus! {

/// A message as the user sees it.
#[derive(Debug, PartialEq, Eq)]
pub struct RenderedMessage {
    pub label: String,
    pub body: String,
}

/// The mathematical form of a [`RenderedMessage`].
pub struct RenderedMessageView {
    pub label: Seq<char>,
    pub body: Seq<char>,
}

impl DeepView for RenderedMessage {
    type V = RenderedMessageView;

    open spec fn deep_view(&self) -> RenderedMessageView {
        RenderedMessageView { label: self.label@, body: self.body@ }
    }
}

/// The fields of a message, in the order of their names.
pub open spec fn message_fields(
    msg: crate::queues::CustomMessageView,
) -> Seq<(Seq<char>, crate::json::JsonScalarView)> {
    seq![
        ("content"@, crate::json::JsonScalarView::Text(msg.content)),
        ("customType"@, crate::json::JsonScalarView::Text(msg.custom_type)),
        ("display"@, crate::json::JsonScalarView::Flag(msg.display)),
        ("role"@, crate::json::JsonScalarView::Text("custom"@)),
    ]
}

/// The message as a renderer receives it.
pub open spec fn payload(msg: crate::queues::CustomMessageView) -> Seq<char> {
    crate::json::object_json(message_fields(msg))
}

proof fn lemma_message_fields_ascend(msg: crate::queues::CustomMessageView)
    ensures
        crate::json::ascending(message_fields(msg)),
{
    reveal_strlit("content");
    reveal_strlit("customType");
    reveal_strlit("display");
    reveal_strlit("role");
    reveal_with_fuel(crate::order::text_le, 3);
    assert("content"@[0] == 'c' && "content"@[1] == 'o');
    assert("customType"@[0] == 'c' && "customType"@[1] == 'u');
    assert("display"@[0] == 'd');
    assert("role"@[0] == 'r');
    assert("content"@.drop_first()[0] == 'o');
    assert("customType"@.drop_first()[0] == 'u');
}

/// Writes a message as a renderer receives it.
pub fn message_payload(msg: &CustomMessage) -> (out: String)
    ensures
        out@ == payload(msg.deep_view()),
{
    let mut fields: Vec<(String, JsonScalar)> = Vec::new();
    fields.push(("content".to_owned(), JsonScalar::Text(msg.content.clone())));
    fields.push(("customType".to_owned(), JsonScalar::Text(msg.custom_type.clone())));
    fields.push(("display".to_owned(), JsonScalar::Flag(msg.display)));
    fields.push(("role".to_owned(), JsonScalar::Text("custom".to_owned())));
    proof {
        assert(fields.deep_view() =~= message_fields(msg.deep_view()));
        lemma_message_fields_ascend(msg.deep_view());
    }
    object_text(&fields)
}

/// The renderer of a message type, where one is registered.
pub open spec fn renderer_of(
    renderers: Seq<(Seq<char>, Seq<char>)>,
    kind: Seq<char>,
) -> Option<Seq<char>> {
    let at = crate::registry::place::<(String, String)>(renderers, kind);
    if at < renderers.len() {
        Some(renderers[at].1)
    } else {
        None
    }
}

/// The call that renders a message: none where the message is not shown, or
/// its type has no renderer.
pub open spec fn render_call(
    m: crate::manager::ManagerView,
    msg: crate::queues::CustomMessageView,
    text: Seq<char>,
) -> Option<crate::dispatch::HookCallView> {
    match renderer_of(
        crate::registry::listing::<(String, String)>(m.harness.registries.message_renderers),
        msg.custom_type,
    ) {
        Some(handler) => if msg.display {
            Some(
                crate::dispatch::HookCallView {
                    handler,
                    source: crate::invoke::text_call(handler, text, m.sentinel),
                },
            )
        } else {
            None
        },
        None => None,
    }
}

/// A message as the user sees it: under its type, with what the renderer made
/// of it, or else as it is. One that is not to be shown is not.
pub open spec fn message_shown(
    msg: crate::queues::CustomMessageView,
    rendered: Option<Seq<char>>,
) -> Option<RenderedMessageView> {
    if msg.display {
        Some(
            RenderedMessageView {
                label: "plugin:"@ + msg.custom_type,
                body: match rendered {
                    Some(text) => text,
                    None => msg.content,
                },
            },
        )
    } else {
        None
    }
}

impl PluginManager {
    /// The call that renders a message, given the message as JSON.
    pub fn render_call_for(&self, msg: &CustomMessage, text: &str) -> (call: Option<HookCall>)
        ensures
            call.deep_view() == render_call(self@, msg.deep_view(), text@),
    {
        let renderers = self.list_message_renderers();
        let at: usize = find_entry(&renderers, msg.custom_type.as_str());
        if at < renderers.len() && msg.display {
            assert(renderers.deep_view()[at as int] == renderers@[at as int].deep_view());
            let handler = renderers[at].1.clone();
            let source = self.begin_message_renderer(handler.as_str(), text);
            Some(HookCall { handler, source })
        } else {
            None
        }
    }

    /// The call that renders a message.
    pub fn begin_message_render(&self, msg: &CustomMessage) -> (call: Option<HookCall>)
        ensures
            call.deep_view() == render_call(self@, msg.deep_view(), payload(msg.deep_view())),
    {
        self.render_call_for(msg, message_payload(msg).as_str())
    }
}

/// Shows a message, given what its renderer made of it.
pub fn resolve_custom_message_render(msg: &CustomMessage, rendered: Option<String>) -> (out: Option<
    RenderedMessage,
>)
    ensures
        out.deep_view() == message_shown(msg.deep_view(), rendered.deep_view()),
{
    if msg.display {
        let mut label = "plugin:".to_owned();
        label.append(msg.custom_type.as_str());
        let body = match rendered {
            Some(text) => text,
            None => msg.content.clone(),
        };
        Some(RenderedMessage { label, body })
    } else {
        None
    }
}

// ---------------------------------------------------------------------
// Laws
// ---------------------------------------------------------------------

proof fn lemma_plain_json(s: Seq<char>)
    requires
        forall|i: int| 0 <= i < s.len() ==> 'A' <= #[trigger] s[i] && s[i] <= 'z' && s[i] != '\\',
    ensures
        crate::json::json_escaped(s) == s,
        crate::json::json_text(s) == seq!['"'] + s + seq!['"'],
    decreases s.len(),
{
    if s.len() > 0 {
        lemma_plain_json(s.drop_last());
        assert(s[s.len() - 1] == s.last());
        assert(s =~= s.drop_last() + seq![s.last()]);
    }
}

proof fn lemma_four_fields(fields: Seq<(Seq<char>, crate::json::JsonScalarView)>)
    requires
        fields.len() == 4,
    ensures
        crate::json::object_json(fields) == seq!['{'] + (crate::json::field_json(fields[0])
            + seq![','] + crate::json::field_json(fields[1]) + seq![',']
            + crate::json::field_json(fields[2]) + seq![','] + crate::json::field_json(fields[3]))
            + seq!['}'],
{
    assert(fields.drop_last().drop_last().drop_last() =~= seq![fields[0]]);
    assert(fields.drop_last().drop_last() =~= seq![fields[0], fields[1]]);
    assert(fields.drop_last() =~= seq![fields[0], fields[1], fields[2]]);
    reveal_with_fuel(crate::json::fields_json, 5);
}

proof fn lemma_regrouped(
    n0: Seq<char>,
    t0: Seq<char>,
    n1: Seq<char>,
    t1: Seq<char>,
    n2: Seq<char>,
    t2: Seq<char>,
    last: Seq<char>,
)
    ensures
        seq!['{'] + ((n0 + t0) + seq![','] + (n1 + t1) + seq![','] + (n2 + t2) + seq![','] + last)
            + seq!['}'] == (seq!['{'] + n0) + (t0 + ((seq![','] + n1) + (t1 + ((seq![','] + n2)
            + t2 + (seq![','] + last + seq!['}']))))),
{
    assert(seq!['{'] + ((n0 + t0) + seq![','] + (n1 + t1) + seq![','] + (n2 + t2) + seq![',']
        + last) + seq!['}'] =~= (seq!['{'] + n0) + (t0 + ((seq![','] + n1) + (t1 + ((seq![','] + n2)
        + t2 + (seq![','] + last + seq!['}']))))));
}

/// The name of a field, with its quotes and its colon.
spec fn field_name(name: Seq<char>) -> Seq<char> {
    seq!['"'] + name + seq!['"', ':']
}

proof fn lemma_text_field(name: Seq<char>, text: Seq<char>)
    requires
        crate::json::json_escaped(name) == name,
    ensures
        crate::json::field_json((name, crate::json::JsonScalarView::Text(text))) == field_name(name)
            + crate::json::json_text(text),
{
    assert(crate::json::field_json((name, crate::json::JsonScalarView::Text(text)))
        =~= field_name(name) + crate::json::json_text(text));
}

proof fn lemma_flag_field(name: Seq<char>, flag: bool)
    requires
        crate::json::json_escaped(name) == name,
    ensures
        crate::json::field_json((name, crate::json::JsonScalarView::Flag(flag))) == field_name(name)
            + (if flag {
            "true"@
        } else {
            "false"@
        }),
{
    let text = if flag {
        "true"@
    } else {
        "false"@
    };
    assert(crate::json::field_json((name, crate::json::JsonScalarView::Flag(flag))) =~= field_name(
        name,
    ) + text);
}

proof fn lemma_names_are_plain()
    ensures
        crate::json::json_escaped("content"@) == "content"@,
        crate::json::json_escaped("customType"@) == "customType"@,
        crate::json::json_escaped("display"@) == "display"@,
        crate::json::json_escaped("role"@) == "role"@,
        crate::json::json_escaped("custom"@) == "custom"@,
{
    reveal_strlit("content");
    reveal_strlit("customType");
    reveal_strlit("display");
    reveal_strlit("role");
    reveal_strlit("custom");
    lemma_plain_json("content"@);
    lemma_plain_json("customType"@);
    lemma_plain_json("display"@);
    lemma_plain_json("role"@);
    lemma_plain_json("custom"@);
}

proof fn lemma_content_head()
    ensures
        "{\"content\":"@ == seq!['{'] + field_name("content"@),
        ",\"customType\":"@ == seq![','] + field_name("customType"@),
        ",\"display\":"@ == seq![','] + field_name("display"@),
{
    reveal_strlit("{\"content\":");
    reveal_strlit(",\"customType\":");
    reveal_strlit(",\"display\":");
    reveal_strlit("content");
    reveal_strlit("customType");
    reveal_strlit("display");
    assert("{\"content\":"@ =~= seq!['{'] + field_name("content"@));
    assert(",\"customType\":"@ =~= seq![','] + field_name("customType"@));
    assert(",\"display\":"@ =~= seq![','] + field_name("display"@));
}

proof fn lemma_role_tail()
    ensures
        ",\"role\":\"custom\"}"@ == seq![','] + (field_name("role"@) + (seq!['"'] + "custom"@
            + seq!['"'])) + seq!['}'],
{
    reveal_strlit(",\"role\":\"custom\"}");
    reveal_strlit("role");
    reveal_strlit("custom");
    assert(",\"role\":\"custom\"}"@ =~= seq![','] + (field_name("role"@) + (seq!['"'] + "custom"@
        + seq!['"'])) + seq!['}']);
}

/// A renderer receives the whole message: its content and its type stand in
/// the payload and are read back from it as they were, whatever characters
/// they hold.
pub proof fn lemma_payload_holds_the_message(msg: crate::queues::CustomMessageView)
    ensures
        ({
            let head = "{\"content\":"@;
            let next = ",\"customType\":"@;
            let rest = ",\"display\":"@ + (if msg.display {
                "true"@
            } else {
                "false"@
            }) + ",\"role\":\"custom\"}"@;
            let behind = next + (crate::json::json_text(msg.custom_type) + rest);
            &&& payload(msg) == head + (crate::json::json_text(msg.content) + behind)
            &&& crate::json::read_json(payload(msg).skip(1 + head.len() as int)) == Some(
                (msg.content, behind),
            )
            &&& crate::json::read_json(behind.skip(1 + next.len() as int)) == Some(
                (msg.custom_type, rest),
            )
        }),
{
    let head = "{\"content\":"@;
    let next = ",\"customType\":"@;
    let flag = if msg.display {
        "true"@
    } else {
        "false"@
    };
    let rest = ",\"display\":"@ + flag + ",\"role\":\"custom\"}"@;
    let behind = next + (crate::json::json_text(msg.custom_type) + rest);
    lemma_names_are_plain();
    lemma_content_head();
    lemma_role_tail();
    lemma_four_fields(message_fields(msg));
    lemma_text_field("content"@, msg.content);
    lemma_text_field("customType"@, msg.custom_type);
    lemma_flag_field("display"@, msg.display);
    lemma_text_field("role"@, "custom"@);
    lemma_regrouped(
        field_name("content"@),
        crate::json::json_text(msg.content),
        field_name("customType"@),
        crate::json::json_text(msg.custom_type),
        field_name("display"@),
        flag,
        field_name("role"@) + crate::json::json_text("custom"@),
    );
    crate::json::lemma_json_round_trip(msg.content, behind);
    assert(payload(msg).skip(1 + head.len() as int) =~= (crate::json::json_text(msg.content)
        + behind).skip(1));
    crate::json::lemma_json_round_trip(msg.custom_type, rest);
    assert(behind.skip(1 + next.len() as int) =~= (crate::json::json_text(msg.custom_type)
        + rest).skip(1));
}

/// A message that is not to be shown is neither rendered nor shown.
pub proof fn lemma_hidden_message_is_not_shown(
    m: crate::manager::ManagerView,
    msg: crate::queues::CustomMessageView,
    text: Seq<char>,
    rendered: Option<Seq<char>>,
)
    requires
        !msg.display,
    ensures
        render_call(m, msg, text) is None,
        message_shown(msg, rendered) is None,
{
}

/// A message that is to be shown is shown as it is where its renderer fails or
/// has nothing to say.
pub proof fn lemma_failed_renderer_shows_the_content(
    msg: crate::queues::CustomMessageView,
    mark: Seq<char>,
    reply: crate::reply::ReplyView,
)
    requires
        msg.display,
        !(crate::reply::outcome(mark, reply) is Text),
    ensures
        message_shown(msg, crate::invoke::said(mark, reply)) == Some(
            RenderedMessageView { label: "plugin:"@ + msg.custom_type, body: msg.content },
        ),
{
}

/// A message that is shown has its type in its label, and for its body what the
/// renderer made of it, whole, or else its content, whole.
pub proof fn lemma_shown_message_is_whole(
    kind: Seq<char>,
    content: Seq<char>,
    rendered: Seq<char>,
)
    ensures
        ({
            let msg = crate::queues::CustomMessageView { custom_type: kind, content, display: true };
            let a = message_shown(msg, Some(rendered));
            let b = message_shown(msg, None);
            &&& a is Some && b is Some
            &&& a->0.body == rendered
            &&& b->0.body == content
            &&& a->0.label == b->0.label
            &&& a->0.label.len() == kind.len() + 7
            &&& "plugin:"@.is_prefix_of(a->0.label)
            &&& a->0.label.skip(7) == kind
        }),
{
    reveal_strlit("plugin:");
    let label = "plugin:"@ + kind;
    assert("plugin:"@.len() == 7);
    assert("plugin:"@ =~= label.take(7));
    assert(label.skip(7) =~= kind);
}

/// A message that is shown is handed to the renderer that was registered last for
/// its type, and to none where its type has none. Registrations for other types
/// do not matter.
pub proof fn lemma_message_goes_to_its_renderer(
    m: crate::manager::ManagerView,
    msg: crate::queues::CustomMessageView,
    handler: Seq<char>,
    other: Seq<char>,
    text: Seq<char>,
)
    requires
        m.harness.complete(),
        msg.display,
        other != msg.custom_type,
    ensures
        ({
            let op = crate::ops::HarnessOp::RegisterMessageRenderer;
            let f = crate::value::ValueView::Str(handler);
            let with = m.with_harness(
                crate::harness::after_call(m.harness, op, seq![crate::value::ValueView::Str(msg.custom_type), f]),
            );
            let beside = m.with_harness(
                crate::harness::after_call(m.harness, op, seq![crate::value::ValueView::Str(other), f]),
            );
            &&& render_call(with, msg, text) is Some
            &&& render_call(with, msg, text)->0.handler == handler
            &&& render_call(with, msg, text)->0.source == crate::invoke::text_call(
                handler,
                text,
                m.sentinel,
            )
            &&& render_call(beside, msg, text) == render_call(m, msg, text)
        }),
        m.harness.registries.message_renderers.len() == 0 ==> render_call(m, msg, text) is None,
{
    let before = crate::registry::listing::<(String, String)>(
        m.harness.registries.message_renderers,
    );
    crate::harness::lemma_handlers_reach_the_host(m.harness, msg.custom_type, handler);
    crate::harness::lemma_handlers_reach_the_host(m.harness, other, handler);
    lemma_renderer_found(before, msg.custom_type, handler, msg.custom_type);
    lemma_renderer_found(before, other, handler, msg.custom_type);
    if m.harness.registries.message_renderers.len() == 0 {
        assert(m.harness.registries.message_renderers =~= Seq::empty());
        crate::registry::lemma_empty_registry_lists_nothing::<(String, String)>();
    }
}

proof fn lemma_renderer_found(
    kept: Seq<(Seq<char>, Seq<char>)>,
    kind: Seq<char>,
    handler: Seq<char>,
    wanted: Seq<char>,
)
    ensures
        renderer_of(
            crate::registry::upsert::<(String, String)>(kept, (kind, handler)),
            wanted,
        ) == (if wanted == kind {
            Some(handler)
        } else {
            renderer_of(kept, wanted)
        }),
{
    let after = crate::registry::upsert::<(String, String)>(kept, (kind, handler));
    crate::registry::lemma_place::<(String, String)>(kept, kind);
    crate::registry::lemma_place::<(String, String)>(kept, wanted);
    crate::registry::lemma_place::<(String, String)>(after, wanted);
    let at = crate::registry::place::<(String, String)>(kept, kind);
    let p = crate::registry::place::<(String, String)>(kept, wanted);
    let q = crate::registry::place::<(String, String)>(after, wanted);
    assert(after[at].0 == kind);
    if wanted == kind {
        if q < at {
            assert(after[q] == kept[q]);
        }
    } else if p < kept.len() {
        assert(after[p] == kept[p]);
        if q < p {
            assert(after[q].0 == kept[q].0);
        }
    } else if q < after.len() && q < kept.len() {
        assert(after[q].0 == kept[q].0);
    }
}

} // verus!
