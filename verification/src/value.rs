//! Values as plugin code hands them to the host.
use vstd::prelude::*;

use crate::text::clone_texts;

verus! {

/// A Janet value, as far as the host looks into it. A tuple or an array of
/// strings is a list, with its printed form. Numbers, tables, functions and the
/// like are held by their printed form alone.
#[derive(Debug, PartialEq, Eq)]
pub enum Value {
    Nil,
    Boolean(bool),
    Str(String),
    Keyword(String),
    List { items: Vec<String>, shown: String },
    Other(String),
}

/// The mathematical form of a [`Value`].
pub enum ValueView {
    Nil,
    Boolean(bool),
    Str(Seq<char>),
    Keyword(Seq<char>),
    List { items: Seq<Seq<char>>, shown: Seq<char> },
    Other(Seq<char>),
}

impl DeepView for Value {
    type V = ValueView;

    open spec fn deep_view(&self) -> ValueView {
        match self {
            Value::Nil => ValueView::Nil,
            Value::Boolean(b) => ValueView::Boolean(*b),
            Value::Str(s) => ValueView::Str(s@),
            Value::Keyword(s) => ValueView::Keyword(s@),
            Value::List { items, shown } => ValueView::List {
                items: items.deep_view(),
                shown: shown@,
            },
            Value::Other(s) => ValueView::Other(s@),
        }
    }
}

impl View for Value {
    type V = ValueView;

    open spec fn view(&self) -> ValueView {
        self.deep_view()
    }
}

impl ValueView {
    /// The text of a string; no other value is one.
    pub open spec fn text(self) -> Option<Seq<char>> {
        match self {
            ValueView::Str(s) => Some(s),
            _ => None,
        }
    }

    /// The name of a keyword, or the text of a string.
    pub open spec fn name(self) -> Option<Seq<char>> {
        match self {
            ValueView::Str(s) => Some(s),
            ValueView::Keyword(s) => Some(s),
            _ => None,
        }
    }

    /// What `(string v)` gives: nothing for nil, a keyword without its colon.
    pub open spec fn printed(self) -> Seq<char> {
        match self {
            ValueView::Nil => Seq::empty(),
            ValueView::Boolean(b) => if b {
                "true"@
            } else {
                "false"@
            },
            ValueView::Str(s) => s,
            ValueView::Keyword(s) => s,
            ValueView::List { items, shown } => shown,
            ValueView::Other(s) => s,
        }
    }

    /// The texts of a list of strings.
    pub open spec fn items(self) -> Option<Seq<Seq<char>>> {
        match self {
            ValueView::List { items, shown } => Some(items),
            _ => None,
        }
    }
}

/// The argument at `i`; a missing argument is nil.
pub open spec fn arg(args: Seq<ValueView>, i: int) -> ValueView {
    if 0 <= i < args.len() {
        args[i]
    } else {
        ValueView::Nil
    }
}

impl Value {
    /// The text, where the value is a string.
    pub fn text(&self) -> (out: Option<String>)
        ensures
            out.deep_view() == self@.text(),
    {
        match self {
            Value::Str(s) => Some(s.clone()),
            _ => None,
        }
    }

    /// The text, where the value is a string or a keyword.
    pub fn name(&self) -> (out: Option<String>)
        ensures
            out.deep_view() == self@.name(),
    {
        match self {
            Value::Str(s) => Some(s.clone()),
            Value::Keyword(s) => Some(s.clone()),
            _ => None,
        }
    }

    /// The printed form of the value.
    pub fn printed(&self) -> (out: String)
        ensures
            out@ == self@.printed(),
    {
        match self {
            Value::Nil => String::new(),
            Value::Boolean(b) => if *b {
                "true".to_owned()
            } else {
                "false".to_owned()
            },
            Value::Str(s) => s.clone(),
            Value::Keyword(s) => s.clone(),
            Value::List { shown, .. } => shown.clone(),
            Value::Other(s) => s.clone(),
        }
    }

    /// The texts, where the value is a list of strings.
    pub fn items(&self) -> (out: Option<Vec<String>>)
        ensures
            out.deep_view() == self@.items(),
    {
        match self {
            Value::List { items, .. } => Some(clone_texts(items)),
            _ => None,
        }
    }

    /// Whether the value is nil.
    pub fn is_nil(&self) -> (nil: bool)
        ensures
            nil == (self@ is Nil),
    {
        match self {
            Value::Nil => true,
            _ => false,
        }
    }

    /// Whether the value is the boolean false.
    pub fn is_false(&self) -> (no: bool)
        ensures
            no == (self@ == ValueView::Boolean(false)),
    {
        match self {
            Value::Boolean(b) => !*b,
            _ => false,
        }
    }
}

// ---------------------------------------------------------------------
// Laws
// ---------------------------------------------------------------------

/// A string is a text and a name, and prints as it is, however long it is and
/// whatever it holds. A keyword is a name and no text.
pub proof fn lemma_texts_are_taken_whole(s: Seq<char>)
    ensures
        ValueView::Str(s).text() == Some(s),
        ValueView::Str(s).name() == Some(s),
        ValueView::Str(s).printed() == s,
        ValueView::Str(s).items() is None,
        ValueView::Keyword(s).text() is None,
        ValueView::Keyword(s).name() == Some(s),
        ValueView::Keyword(s).printed() == s,
        ValueView::Keyword(s).items() is None,
{
}

/// Lists hold their items, and values of other kinds are neither texts nor
/// names. Each prints as Janet shows it, and nil prints as nothing.
pub proof fn lemma_other_values_are_no_texts(
    items: Seq<Seq<char>>,
    shown: Seq<char>,
    flag: bool,
    v: ValueView,
)
    requires
        v == (ValueView::List { items, shown }) || v == ValueView::Other(shown) || v
            == ValueView::Boolean(flag) || v == ValueView::Nil,
    ensures
        v.text() is None,
        v.name() is None,
        v.items() == (if v is List {
            Some(items)
        } else {
            None
        }),
        v is List || v is Other ==> v.printed() == shown,
        v == ValueView::Boolean(true) ==> v.printed() == "true"@,
        v == ValueView::Boolean(false) ==> v.printed() == "false"@,
        v is Nil ==> v.printed().len() == 0,
{
}

/// The arguments are those that were given, each in its place, and nil behind
/// them.
pub proof fn lemma_arguments_stand_in_their_places(args: Seq<ValueView>, v: ValueView, i: int)
    ensures
        arg(args.push(v), args.len() as int) == v,
        0 <= i < args.len() ==> arg(args.push(v), i) == arg(args, i),
        i >= args.len() ==> arg(args, i) is Nil,
{
}

} // verus!
