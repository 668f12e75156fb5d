//! What the engine answers, and how the host tells results from errors.
use vstd::prelude::*;

use crate::text::{numeral_text, strip_prefix};
use crate::value::Value;

verus! {

// ---------------------------------------------------------------------
// The sentinel
// ---------------------------------------------------------------------

/// The text that marks an error, made from a number that is drawn once per
/// process.
pub open spec fn sentinel(nonce: u64) -> Seq<char> {
    "DIRGE_ERR_"@ + crate::text::numeral(nonce as nat, 16) + ":"@
}

/// Makes the sentinel of a process.
pub fn err_sentinel(nonce: u64) -> (out: String)
    ensures
        out@ == sentinel(nonce),
{
    let mut out = "DIRGE_ERR_".to_owned();
    out.append(numeral_text(nonce, 16).as_str());
    out.append(":");
    out
}

/// The sentinel has a fixed head and ends with a colon, and neither `K` nor
/// `T` stands in it, so that no fixed marker of hook or tool errors is a part
/// of it.
pub proof fn lemma_sentinel_shape(nonce: u64)
    ensures
        "DIRGE_ERR_"@.is_prefix_of(sentinel(nonce)),
        sentinel(nonce).last() == ':',
        !sentinel(nonce).contains('K'),
        !sentinel(nonce).contains('T'),
{
    reveal_strlit("DIRGE_ERR_");
    reveal_strlit(":");
    let head = "DIRGE_ERR_"@;
    let digits = crate::text::numeral(nonce as nat, 16);
    let whole = sentinel(nonce);
    assert(head =~= whole.take(10));
    assert forall|i: int| 0 <= i < whole.len() implies whole[i] != 'K' && whole[i] != 'T' by {
        if i < 10 {
            assert(whole[i] == head[i]);
        } else if i < 10 + digits.len() {
            assert(whole[i] == digits[i - 10]);
            crate::text::lemma_numeral_chars(nonce as nat, 16, i - 10);
        }
    }
}

/// Two processes with different numbers have different sentinels.
pub proof fn lemma_sentinels_differ(a: u64, b: u64)
    requires
        a != b,
    ensures
        sentinel(a) != sentinel(b),
{
    reveal_strlit("DIRGE_ERR_");
    reveal_strlit(":");
    if sentinel(a) == sentinel(b) {
        let x = crate::text::numeral(a as nat, 16);
        let y = crate::text::numeral(b as nat, 16);
        let n = sentinel(a).len();
        assert(x =~= sentinel(a).subrange(10, n - 1));
        assert(y =~= sentinel(b).subrange(10, n - 1));
        crate::text::lemma_numeral_injective(a as nat, b as nat, 16);
    }
}

// ---------------------------------------------------------------------
// Replies
// ---------------------------------------------------------------------

/// The answer of the engine to a piece of source.
#[derive(Debug, PartialEq, Eq)]
pub enum Reply {
    /// The source ran and gave this value.
    Value(Value),
    /// The source did not compile, or the engine did not answer.
    Error(String),
}

/// The mathematical form of a [`Reply`].
pub enum ReplyView {
    Value(crate::value::ValueView),
    Error(Seq<char>),
}

impl DeepView for Reply {
    type V = ReplyView;

    open spec fn deep_view(&self) -> ReplyView {
        match self {
            Reply::Value(v) => ReplyView::Value(v@),
            Reply::Error(msg) => ReplyView::Error(msg@),
        }
    }
}

/// What a guarded call came to.
#[derive(Debug, PartialEq, Eq)]
pub enum Outcome {
    /// The handler returned nil or an empty text.
    Silent,
    /// The handler returned something, in its printed form.
    Text(String),
    /// The handler raised an error.
    Failed(String),
    /// There was no handler to call, or the engine did not answer.
    Unavailable(String),
}

/// The mathematical form of an [`Outcome`].
pub enum OutcomeView {
    Silent,
    Text(Seq<char>),
    Failed(Seq<char>),
    Unavailable(Seq<char>),
}

impl DeepView for Outcome {
    type V = OutcomeView;

    open spec fn deep_view(&self) -> OutcomeView {
        match self {
            Outcome::Silent => OutcomeView::Silent,
            Outcome::Text(s) => OutcomeView::Text(s@),
            Outcome::Failed(s) => OutcomeView::Failed(s@),
            Outcome::Unavailable(s) => OutcomeView::Unavailable(s@),
        }
    }
}

/// The error that a value stands for: a string that starts with the sentinel
/// is the error behind it.
pub open spec fn error_of(mark: Seq<char>, v: crate::value::ValueView) -> Option<Seq<char>> {
    match v.text() {
        Some(s) => if mark.is_prefix_of(s) {
            Some(s.skip(mark.len() as int))
        } else {
            None
        },
        None => None,
    }
}

/// What the answer to a guarded call means.
pub open spec fn outcome(mark: Seq<char>, reply: ReplyView) -> OutcomeView {
    match reply {
        ReplyView::Error(msg) => OutcomeView::Unavailable(msg),
        ReplyView::Value(v) => match error_of(mark, v) {
            Some(msg) => OutcomeView::Failed(msg),
            None => if v.printed().len() == 0 {
                OutcomeView::Silent
            } else {
                OutcomeView::Text(v.printed())
            },
        },
    }
}

fn read_error(mark: &str, v: &Value) -> (out: Option<String>)
    ensures
        out.deep_view() == error_of(mark@, v@),
{
    match v.text() {
        Some(s) => {
            let rest = strip_prefix(s.as_str(), mark);
            proof {
                if let Some(ref r) = rest {
                    assert(s@.skip(mark@.len() as int) =~= r@);
                }
            }
            rest
        },
        None => None,
    }
}

/// Reads the answer to a guarded call.
pub fn read_reply(mark: &str, reply: &Reply) -> (out: Outcome)
    ensures
        out.deep_view() == outcome(mark@, reply.deep_view()),
{
    match reply {
        Reply::Error(msg) => Outcome::Unavailable(msg.clone()),
        Reply::Value(v) => match read_error(mark, v) {
            Some(msg) => Outcome::Failed(msg),
            None => {
                let text = v.printed();
                if text.as_str().is_empty() {
                    Outcome::Silent
                } else {
                    Outcome::Text(text)
                }
            },
        },
    }
}

/// The result of a plain evaluation as text: nil has a name here.
pub open spec fn shown(v: crate::value::ValueView) -> Seq<char> {
    if v is Nil {
        "nil"@
    } else {
        v.printed()
    }
}

/// Reads the answer to a plain evaluation.
pub fn read_eval(reply: &Reply) -> (out: Result<String, String>)
    ensures
        match reply.deep_view() {
            ReplyView::Value(v) => out matches Ok(text) && text@ == shown(v),
            ReplyView::Error(msg) => out matches Err(text) && text@ == msg,
        },
{
    match reply {
        Reply::Value(v) => if v.is_nil() {
            Ok("nil".to_owned())
        } else {
            Ok(v.printed())
        },
        Reply::Error(msg) => Err(msg.clone()),
    }
}

/// Reads the answer to a question: yes is the boolean true alone.
pub fn read_truth(reply: &Reply) -> (yes: bool)
    ensures
        yes == (reply.deep_view() == ReplyView::Value(crate::value::ValueView::Boolean(true))),
{
    match reply {
        Reply::Value(Value::Boolean(b)) => *b,
        _ => false,
    }
}

/// The text that a guarded call gave, where it gave a string and no error.
pub open spec fn string_result(mark: Seq<char>, reply: ReplyView) -> Option<Seq<char>> {
    match reply {
        ReplyView::Value(v) => if error_of(mark, v) is None {
            v.text()
        } else {
            None
        },
        ReplyView::Error(_) => None,
    }
}

/// Reads the answer to a guarded call that is to give a string.
pub fn read_string(mark: &str, reply: &Reply) -> (out: Option<String>)
    ensures
        out.deep_view() == string_result(mark@, reply.deep_view()),
{
    match reply {
        Reply::Value(v) => match read_error(mark, v) {
            Some(_) => None,
            None => v.text(),
        },
        Reply::Error(_) => None,
    }
}

/// A text that a handler returns is a result as it is, unless it starts with
/// the sentinel.
pub proof fn lemma_result_passes_through(mark: Seq<char>, s: Seq<char>)
    requires
        s.len() > 0,
        !mark.is_prefix_of(s),
    ensures
        outcome(mark, ReplyView::Value(crate::value::ValueView::Str(s))) == OutcomeView::Text(s),
{
}

/// An error that the guard tagged with the sentinel is read as that error.
pub proof fn lemma_tagged_error_is_read(mark: Seq<char>, msg: Seq<char>)
    ensures
        outcome(mark, ReplyView::Value(crate::value::ValueView::Str(mark + msg)))
            == OutcomeView::Failed(msg),
{
    assert(mark =~= (mark + msg).take(mark.len() as int));
    assert((mark + msg).skip(mark.len() as int) =~= msg);
}

/// Every reply to a guarded call has its meaning, whatever the value and
/// however long its text: a string that begins with the sentinel is the error
/// behind it, any other value is what it prints as, and says nothing where that
/// is empty.
pub proof fn lemma_every_reply_has_its_meaning(
    mark: Seq<char>,
    s: Seq<char>,
    items: Seq<Seq<char>>,
)
    ensures
        ({
            let plain = if s.len() == 0 {
                OutcomeView::Silent
            } else {
                OutcomeView::Text(s)
            };
            &&& outcome(mark, ReplyView::Error(s)) == OutcomeView::Unavailable(s)
            &&& outcome(mark, ReplyView::Value(crate::value::ValueView::Nil)) == OutcomeView::Silent
            &&& outcome(mark, ReplyView::Value(crate::value::ValueView::Boolean(true)))
                == OutcomeView::Text("true"@)
            &&& outcome(mark, ReplyView::Value(crate::value::ValueView::Boolean(false)))
                == OutcomeView::Text("false"@)
            &&& outcome(mark, ReplyView::Value(crate::value::ValueView::Keyword(s))) == plain
            &&& outcome(mark, ReplyView::Value(crate::value::ValueView::Other(s))) == plain
            &&& outcome(
                mark,
                ReplyView::Value(crate::value::ValueView::List { items, shown: s }),
            ) == plain
            &&& !mark.is_prefix_of(s) ==> outcome(
                mark,
                ReplyView::Value(crate::value::ValueView::Str(s)),
            ) == plain
            &&& outcome(mark, ReplyView::Value(crate::value::ValueView::Str(mark + s)))
                == OutcomeView::Failed(s)
        }),
{
    reveal_strlit("true");
    reveal_strlit("false");
    assert("true"@.len() == 4 && "false"@.len() == 5);
    lemma_tagged_error_is_read(mark, s);
}

/// A plain evaluation shows nil by its name, and every other value as it
/// prints, an empty string too.
pub proof fn lemma_evaluation_shows_its_value(s: Seq<char>, items: Seq<Seq<char>>)
    ensures
        shown(crate::value::ValueView::Nil) == "nil"@,
        shown(crate::value::ValueView::Str(s)) == s,
        shown(crate::value::ValueView::Keyword(s)) == s,
        shown(crate::value::ValueView::Other(s)) == s,
        shown(crate::value::ValueView::List { items, shown: s }) == s,
        shown(crate::value::ValueView::Boolean(true)) == "true"@,
        shown(crate::value::ValueView::Boolean(false)) == "false"@,
{
}

/// A call that is to give a string gives the string that was returned, whole
/// and also where it is empty, and nothing for an error or a value of another
/// kind.
pub proof fn lemma_only_strings_are_given(
    mark: Seq<char>,
    s: Seq<char>,
    items: Seq<Seq<char>>,
    flag: bool,
)
    ensures
        !mark.is_prefix_of(s) ==> string_result(
            mark,
            ReplyView::Value(crate::value::ValueView::Str(s)),
        ) == Some(s),
        string_result(mark, ReplyView::Value(crate::value::ValueView::Str(mark + s))) is None,
        string_result(mark, ReplyView::Error(s)) is None,
        string_result(mark, ReplyView::Value(crate::value::ValueView::Nil)) is None,
        string_result(mark, ReplyView::Value(crate::value::ValueView::Boolean(flag))) is None,
        string_result(mark, ReplyView::Value(crate::value::ValueView::Keyword(s))) is None,
        string_result(mark, ReplyView::Value(crate::value::ValueView::Other(s))) is None,
        string_result(
            mark,
            ReplyView::Value(crate::value::ValueView::List { items, shown: s }),
        ) is None,
{
    lemma_tagged_error_is_read(mark, s);
}

/// The sentinel of a process holds its number in hexadecimal digits.
pub proof fn lemma_sentinel_holds_its_number(nonce: u64)
    ensures
        sentinel(nonce).len() > 11,
        crate::text::number_of(sentinel(nonce).subrange(10, sentinel(nonce).len() - 1), 16)
            == nonce,
{
    reveal_strlit("DIRGE_ERR_");
    reveal_strlit(":");
    crate::text::lemma_numeral_stands_for_its_number(nonce as nat, 16);
    assert(sentinel(nonce).subrange(10, sentinel(nonce).len() - 1) =~= crate::text::numeral(
        nonce as nat,
        16,
    ));
}

} // verus!
