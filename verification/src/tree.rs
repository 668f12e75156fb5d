//! Changes to the session tree that plugins queue for the host.
use vstd::prelude::*;

use crate::rows::Row;
use crate::text::same_text;
use crate::value::Value;

verus! {

/// A change to the session tree that a plugin asks for.
#[derive(Debug, PartialEq, Eq)]
pub enum TreeOp {
    /// Labels a node, or removes its label.
    SetLabel { id: String, label: Option<String> },
    /// Branches at a node, with or without its prompt in the editor.
    Fork { id: String, restore_text: bool },
    /// Moves to a node.
    NavigateTree { id: String },
    /// Starts a session, with a parent for its lineage or without one.
    NewSession { parent: Option<String> },
    /// Switches to the session whose id starts so.
    SwitchSession { id_prefix: String },
}

/// The mathematical form of a [`TreeOp`].
pub enum TreeOpView {
    SetLabel { id: Seq<char>, label: Option<Seq<char>> },
    Fork { id: Seq<char>, restore_text: bool },
    NavigateTree { id: Seq<char> },
    NewSession { parent: Option<Seq<char>> },
    SwitchSession { id_prefix: Seq<char> },
}

impl DeepView for TreeOp {
    type V = TreeOpView;

    open spec fn deep_view(&self) -> TreeOpView {
        match self {
            TreeOp::SetLabel { id, label } => TreeOpView::SetLabel {
                id: id@,
                label: label.deep_view(),
            },
            TreeOp::Fork { id, restore_text } => TreeOpView::Fork {
                id: id@,
                restore_text: *restore_text,
            },
            TreeOp::NavigateTree { id } => TreeOpView::NavigateTree { id: id@ },
            TreeOp::NewSession { parent } => TreeOpView::NewSession { parent: parent.deep_view() },
            TreeOp::SwitchSession { id_prefix } => TreeOpView::SwitchSession {
                id_prefix: id_prefix@,
            },
        }
    }
}

/// The fields in which a tree operation is queued: its verb, then its
/// arguments. A label or a parent that is absent is no column.
pub open spec fn tree_fields(op: TreeOpView) -> Seq<Seq<char>> {
    match op {
        TreeOpView::SetLabel { id, label } => match label {
            Some(text) => seq!["set-label"@, id, text],
            None => seq!["set-label"@, id],
        },
        TreeOpView::Fork { id, restore_text } => seq![
            "fork"@,
            id,
            if restore_text {
                "before"@
            } else {
                "at"@
            },
        ],
        TreeOpView::NavigateTree { id } => seq!["navigate-tree"@, id],
        TreeOpView::NewSession { parent } => match parent {
            Some(text) => seq!["new-session"@, text],
            None => seq!["new-session"@],
        },
        TreeOpView::SwitchSession { id_prefix } => seq!["switch-session"@, id_prefix],
    }
}

/// The text of an optional column.
pub open spec fn column(row: Seq<Seq<char>>, i: int) -> Option<Seq<char>> {
    if i < row.len() {
        Some(row[i])
    } else {
        None
    }
}

fn read_column(row: &Vec<String>, i: usize) -> (out: Option<String>)
    ensures
        out.deep_view() == column(row.deep_view(), i as int),
{
    if i < row.len() {
        Some(row[i].clone())
    } else {
        None
    }
}

impl Row for TreeOp {
    /// A verb that is not known, or that lacks its node, is skipped.
    open spec fn row_value(row: Seq<Seq<char>>) -> Option<TreeOpView> {
        let verb = row[0];
        if verb == "new-session"@ {
            Some(TreeOpView::NewSession { parent: column(row, 1) })
        } else if row.len() < 2 {
            None
        } else if verb == "set-label"@ {
            Some(TreeOpView::SetLabel { id: row[1], label: column(row, 2) })
        } else if verb == "fork"@ {
            Some(TreeOpView::Fork { id: row[1], restore_text: column(row, 2) != Some("at"@) })
        } else if verb == "navigate-tree"@ {
            Some(TreeOpView::NavigateTree { id: row[1] })
        } else if verb == "switch-session"@ {
            Some(TreeOpView::SwitchSession { id_prefix: row[1] })
        } else {
            None
        }
    }

    fn read_row(row: &Vec<String>) -> (out: Option<Self>) {
        assert(row.deep_view()[0] == row@[0]@);
        let verb = row[0].as_str();
        if same_text(verb, "new-session") {
            Some(TreeOp::NewSession { parent: read_column(row, 1) })
        } else if row.len() < 2 {
            None
        } else if same_text(verb, "set-label") {
            Some(TreeOp::SetLabel { id: row[1].clone(), label: read_column(row, 2) })
        } else if same_text(verb, "fork") {
            let at = row.len() > 2 && same_text(row[2].as_str(), "at");
            Some(TreeOp::Fork { id: row[1].clone(), restore_text: !at })
        } else if same_text(verb, "navigate-tree") {
            Some(TreeOp::NavigateTree { id: row[1].clone() })
        } else if same_text(verb, "switch-session") {
            Some(TreeOp::SwitchSession { id_prefix: row[1].clone() })
        } else {
            None
        }
    }
}

/// A tree operation reads back as it was queued.
pub proof fn lemma_tree_op_round_trip(op: TreeOpView)
    ensures
        TreeOp::row_value(tree_fields(op)) == Some(op),
        tree_fields(op).len() > 0,
{
    reveal_strlit("set-label");
    reveal_strlit("fork");
    reveal_strlit("before");
    reveal_strlit("at");
    reveal_strlit("navigate-tree");
    reveal_strlit("new-session");
    reveal_strlit("switch-session");
    assert("set-label"@.len() == 9);
    assert("fork"@.len() == 4);
    assert("before"@.len() == 6);
    assert("at"@.len() == 2);
    assert("navigate-tree"@.len() == 13);
    assert("new-session"@.len() == 11);
    assert("switch-session"@.len() == 14);
}

/// The operation that `(harness/set-label id label)` asks for. The id is a
/// string; the label is a string, or nil to remove it.
pub open spec fn set_label_op(
    id: crate::value::ValueView,
    label: crate::value::ValueView,
) -> Option<TreeOpView> {
    match id.text() {
        Some(node) => if label is Nil {
            Some(TreeOpView::SetLabel { id: node, label: None })
        } else if label.text() is Some {
            Some(TreeOpView::SetLabel { id: node, label: label.text() })
        } else {
            None
        },
        None => None,
    }
}

/// The operation that `(harness/fork id position)` asks for: `:at` branches
/// without the prompt text, every other position restores it.
pub open spec fn fork_op(
    id: crate::value::ValueView,
    position: crate::value::ValueView,
) -> Option<TreeOpView> {
    match id.text() {
        Some(node) => Some(
            TreeOpView::Fork { id: node, restore_text: position.name() != Some("at"@) },
        ),
        None => None,
    }
}

/// The operation that `(harness/navigate-tree id)` asks for.
pub open spec fn navigate_op(id: crate::value::ValueView) -> Option<TreeOpView> {
    match id.text() {
        Some(node) => Some(TreeOpView::NavigateTree { id: node }),
        None => None,
    }
}

/// The operation that `(harness/new-session parent)` asks for.
pub open spec fn new_session_op(parent: crate::value::ValueView) -> Option<TreeOpView> {
    if parent is Nil {
        Some(TreeOpView::NewSession { parent: None })
    } else if parent.text() is Some {
        Some(TreeOpView::NewSession { parent: parent.text() })
    } else {
        None
    }
}

/// The operation that `(harness/switch-session prefix)` asks for.
pub open spec fn switch_op(prefix: crate::value::ValueView) -> Option<TreeOpView> {
    match prefix.text() {
        Some(text) => Some(TreeOpView::SwitchSession { id_prefix: text }),
        None => None,
    }
}

impl TreeOp {
    /// Reads the arguments of `harness/set-label`.
    pub fn set_label(id: &Value, label: &Value) -> (op: Option<TreeOp>)
        ensures
            op.deep_view() == set_label_op(id@, label@),
    {
        match id.text() {
            Some(node) => {
                if label.is_nil() {
                    Some(TreeOp::SetLabel { id: node, label: None })
                } else {
                    match label.text() {
                        Some(text) => Some(TreeOp::SetLabel { id: node, label: Some(text) }),
                        None => None,
                    }
                }
            },
            None => None,
        }
    }

    /// Reads the arguments of `harness/fork`.
    pub fn fork(id: &Value, position: &Value) -> (op: Option<TreeOp>)
        ensures
            op.deep_view() == fork_op(id@, position@),
    {
        match id.text() {
            Some(node) => {
                let at = match position.name() {
                    Some(name) => same_text(name.as_str(), "at"),
                    None => false,
                };
                Some(TreeOp::Fork { id: node, restore_text: !at })
            },
            None => None,
        }
    }

    /// Reads the argument of `harness/navigate-tree`.
    pub fn navigate(id: &Value) -> (op: Option<TreeOp>)
        ensures
            op.deep_view() == navigate_op(id@),
    {
        match id.text() {
            Some(node) => Some(TreeOp::NavigateTree { id: node }),
            None => None,
        }
    }

    /// Reads the argument of `harness/new-session`.
    pub fn new_session(parent: &Value) -> (op: Option<TreeOp>)
        ensures
            op.deep_view() == new_session_op(parent@),
    {
        if parent.is_nil() {
            Some(TreeOp::NewSession { parent: None })
        } else {
            match parent.text() {
                Some(text) => Some(TreeOp::NewSession { parent: Some(text) }),
                None => None,
            }
        }
    }

    /// Reads the argument of `harness/switch-session`.
    pub fn switch_session(prefix: &Value) -> (op: Option<TreeOp>)
        ensures
            op.deep_view() == switch_op(prefix@),
    {
        match prefix.text() {
            Some(text) => Some(TreeOp::SwitchSession { id_prefix: text }),
            None => None,
        }
    }

    /// The fields in which the operation is queued.
    pub fn fields(&self) -> (out: Vec<String>)
        ensures
            out.deep_view() == tree_fields(self.deep_view()),
            out@.len() > 0,
    {
        let mut out: Vec<String> = Vec::new();
        match self {
            TreeOp::SetLabel { id, label } => {
                out.push("set-label".to_owned());
                out.push(id.clone());
                if let Some(text) = label {
                    out.push(text.clone());
                }
            },
            TreeOp::Fork { id, restore_text } => {
                out.push("fork".to_owned());
                out.push(id.clone());
                if *restore_text {
                    out.push("before".to_owned());
                } else {
                    out.push("at".to_owned());
                }
            },
            TreeOp::NavigateTree { id } => {
                out.push("navigate-tree".to_owned());
                out.push(id.clone());
            },
            TreeOp::NewSession { parent } => {
                out.push("new-session".to_owned());
                if let Some(text) = parent {
                    out.push(text.clone());
                }
            },
            TreeOp::SwitchSession { id_prefix } => {
                out.push("switch-session".to_owned());
                out.push(id_prefix.clone());
            },
        }
        assert(out.deep_view() =~= tree_fields(self.deep_view()));
        out
    }
}

/// An operation that plugin code queued by hand is read by its verb. What comes
/// behind the columns of a verb is passed over, a fork without a position
/// restores the text, and a verb that is not known, or lacks its node, is no
/// operation.
pub proof fn lemma_queued_text_is_read_by_its_verb(verb: Seq<char>, id: Seq<char>, text: Seq<char>)
    ensures
        TreeOp::row_value(seq!["fork"@, id]) == Some(TreeOpView::Fork { id, restore_text: true }),
        TreeOp::row_value(seq!["fork"@, id, text]) == Some(
            TreeOpView::Fork { id, restore_text: text != "at"@ },
        ),
        TreeOp::row_value(seq!["set-label"@, id]) == Some(TreeOpView::SetLabel { id, label: None }),
        TreeOp::row_value(seq!["set-label"@, id, text]) == Some(
            TreeOpView::SetLabel { id, label: Some(text) },
        ),
        TreeOp::row_value(seq!["navigate-tree"@, id]) == Some(TreeOpView::NavigateTree { id }),
        TreeOp::row_value(seq!["new-session"@]) == Some(TreeOpView::NewSession { parent: None }),
        TreeOp::row_value(seq!["new-session"@, id]) == Some(
            TreeOpView::NewSession { parent: Some(id) },
        ),
        TreeOp::row_value(seq!["switch-session"@, id]) == Some(
            TreeOpView::SwitchSession { id_prefix: id },
        ),
        verb != "new-session"@ ==> TreeOp::row_value(seq![verb]) is None,
        verb != "new-session"@ && verb != "fork"@ && verb != "set-label"@ && verb
            != "navigate-tree"@ && verb != "switch-session"@ ==> TreeOp::row_value(
            seq![verb, id, text],
        ) is None,
{
    lemma_tree_op_round_trip(TreeOpView::NavigateTree { id });
    lemma_tree_op_round_trip(TreeOpView::SetLabel { id, label: None });
    lemma_tree_op_round_trip(TreeOpView::SwitchSession { id_prefix: id });
    reveal_strlit("set-label");
    reveal_strlit("fork");
    reveal_strlit("navigate-tree");
    reveal_strlit("new-session");
    reveal_strlit("switch-session");
    assert("set-label"@.len() == 9);
    assert("fork"@.len() == 4);
    assert("navigate-tree"@.len() == 13);
    assert("new-session"@.len() == 11);
    assert("switch-session"@.len() == 14);
}

} // verus!
