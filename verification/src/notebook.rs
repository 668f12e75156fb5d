//! The notebook tools: cells of code that are evaluated in sessions, whose
//! definitions last from one call to the next.
//!
//! The engine keeps the sessions and evaluates the code. Here stands which code
//! a call asks for, and what the call answers.
use vstd::prelude::*;

use crate::nrepl::{json_extract_string, paren_repair};
use crate::registry::{PluginToolMeta, Registries};
use crate::text::same_text;
use crate::value::Value;

verus! {

/// A cell to evaluate.
#[derive(Debug, PartialEq, Eq)]
pub struct Cell {
    pub session: String,
    /// The code, with the closing delimiters that it lacked.
    pub code: String,
    /// Whether it lacked some.
    pub repaired: bool,
}

/// The mathematical form of a [`Cell`].
pub struct CellView {
    pub session: Seq<char>,
    pub code: Seq<char>,
    pub repaired: bool,
}

impl DeepView for Cell {
    type V = CellView;

    open spec fn deep_view(&self) -> CellView {
        CellView { session: self.session@, code: self.code@, repaired: self.repaired }
    }
}

/// The session that the arguments of a tool name, or else the default one.
pub open spec fn session_of(args: Seq<char>) -> Seq<char> {
    match crate::nrepl::extracted_string(args, "session"@) {
        Some(session) => session,
        None => "default"@,
    }
}

/// The cell that the arguments of the evaluation tool ask for; none where they
/// hold no code.
pub open spec fn cell_of(args: Seq<char>) -> Option<CellView> {
    match crate::nrepl::extracted_string(args, "code"@) {
        Some(code) => Some(
            CellView {
                session: session_of(args),
                code: crate::nrepl::repaired(code),
                repaired: crate::nrepl::repaired(code) != code,
            },
        ),
        None => None,
    }
}

/// What a cell came to.
#[derive(Debug, PartialEq, Eq)]
pub enum CellOutcome {
    /// The value of its last form, as source.
    Value(String),
    /// The error that it raised.
    Error(String),
}

/// The mathematical form of a [`CellOutcome`].
pub enum CellOutcomeView {
    Value(Seq<char>),
    Error(Seq<char>),
}

impl DeepView for CellOutcome {
    type V = CellOutcomeView;

    open spec fn deep_view(&self) -> CellOutcomeView {
        match self {
            CellOutcome::Value(text) => CellOutcomeView::Value(text@),
            CellOutcome::Error(msg) => CellOutcomeView::Error(msg@),
        }
    }
}

/// A text with a line feed at its end, unless it is empty or has one.
pub open spec fn on_lines(text: Seq<char>) -> Seq<char> {
    if text.len() == 0 || text.last() == '\n' {
        text
    } else {
        text.push('\n')
    }
}

/// What the evaluation of a cell answers: that the code was repaired, where it
/// was, then what the cell printed, then its value or its error.
pub open spec fn report(
    repaired: bool,
    printed: Seq<char>,
    outcome: CellOutcomeView,
) -> Seq<char> {
    (if repaired {
        "[repaired unbalanced delimiters]\n"@
    } else {
        Seq::empty()
    }) + on_lines(printed) + (match outcome {
        CellOutcomeView::Value(text) => "=> "@ + text,
        CellOutcomeView::Error(msg) => "ERROR: "@ + msg,
    })
}

/// What the reset of a session answers.
pub open spec fn reset_text(session: Seq<char>) -> Seq<char> {
    "session "@ + session + " cleared"@
}

/// Reads the session from the arguments of a tool.
pub fn read_session(args: &str) -> (out: String)
    ensures
        out@ == session_of(args@),
{
    match json_extract_string(args, "session") {
        Some(session) => session,
        None => "default".to_owned(),
    }
}

/// Reads the cell from the arguments of the evaluation tool.
pub fn read_cell(args: &str) -> (out: Option<Cell>)
    ensures
        out.deep_view() == cell_of(args@),
{
    match json_extract_string(args, "code") {
        Some(given) => {
            let code = paren_repair(given.as_str());
            let repaired = !same_text(code.as_str(), given.as_str());
            Some(Cell { session: read_session(args), code, repaired })
        },
        None => None,
    }
}

fn ends_line(text: &str) -> (yes: bool)
    ensures
        yes == (text@.len() == 0 || text@.last() == '\n'),
{
    let chars = crate::text::chars_of(text);
    chars.len() == 0 || chars[chars.len() - 1] == '\n'
}

/// Writes what the evaluation of a cell answers.
pub fn cell_report(repaired: bool, printed: &str, outcome: &CellOutcome) -> (out: String)
    ensures
        out@ == report(repaired, printed@, outcome.deep_view()),
{
    let mut out = String::new();
    if repaired {
        out.append("[repaired unbalanced delimiters]\n");
    }
    out.append(printed);
    if !ends_line(printed) {
        out.push('\n');
    }
    match outcome {
        CellOutcome::Value(text) => {
            out.append("=> ");
            out.append(text.as_str());
        },
        CellOutcome::Error(msg) => {
            out.append("ERROR: ");
            out.append(msg.as_str());
        },
    }
    assert(out@ =~= report(repaired, printed@, outcome.deep_view()));
    out
}

/// Writes what the reset of a session answers.
pub fn reset_report(session: &str) -> (out: String)
    ensures
        out@ == reset_text(session@),
{
    let mut out = "session ".to_owned();
    out.append(session);
    out.append(" cleared");
    out
}

// ---------------------------------------------------------------------
// The tools
// ---------------------------------------------------------------------

/// The arguments with which the evaluation tool is registered.
pub open spec fn eval_tool() -> Seq<crate::value::ValueView> {
    seq![
        crate::value::ValueView::Str("notebook_eval"@),
        crate::value::ValueView::Str(
            "Evaluate Janet code in a PERSISTENT notebook. What a cell defines survives until the session is reset, so build on earlier cells. Name a session to keep its definitions apart from others."@,
        ),
        crate::value::ValueView::Str("Notebook"@),
        crate::value::ValueView::Str(
            "{\"type\":\"object\",\"properties\":{\"code\":{\"type\":\"string\"},\"session\":{\"type\":\"string\"}},\"required\":[\"code\"]}"@,
        ),
        crate::value::ValueView::Str("notebook-eval-handler"@),
        crate::value::ValueView::Keyword("sequential"@),
    ]
}

/// The arguments with which the reset tool is registered.
pub open spec fn reset_tool() -> Seq<crate::value::ValueView> {
    seq![
        crate::value::ValueView::Str("notebook_reset"@),
        crate::value::ValueView::Str("Forget all that a notebook session has defined."@),
        crate::value::ValueView::Str("Notebook reset"@),
        crate::value::ValueView::Str(
            "{\"type\":\"object\",\"properties\":{\"session\":{\"type\":\"string\"}}}"@,
        ),
        crate::value::ValueView::Str("notebook-reset-handler"@),
        crate::value::ValueView::Keyword("sequential"@),
    ]
}

/// Registers the tools.
pub fn register_notebook_tools(registries: &mut Registries)
    ensures
        final(registries)@ == old(registries)@.tool(eval_tool()).tool(reset_tool()),
{
    let mut eval: Vec<Value> = Vec::new();
    eval.push(Value::Str("notebook_eval".to_owned()));
    eval.push(
        Value::Str(
            "Evaluate Janet code in a PERSISTENT notebook. What a cell defines survives until the session is reset, so build on earlier cells. Name a session to keep its definitions apart from others.".to_owned(),
        ),
    );
    eval.push(Value::Str("Notebook".to_owned()));
    eval.push(
        Value::Str(
            "{\"type\":\"object\",\"properties\":{\"code\":{\"type\":\"string\"},\"session\":{\"type\":\"string\"}},\"required\":[\"code\"]}".to_owned(),
        ),
    );
    eval.push(Value::Str("notebook-eval-handler".to_owned()));
    eval.push(Value::Keyword("sequential".to_owned()));
    assert(eval.deep_view() =~= eval_tool());
    registries.register_tool(&eval);
    let mut reset: Vec<Value> = Vec::new();
    reset.push(Value::Str("notebook_reset".to_owned()));
    reset.push(Value::Str("Forget all that a notebook session has defined.".to_owned()));
    reset.push(Value::Str("Notebook reset".to_owned()));
    reset.push(
        Value::Str(
            "{\"type\":\"object\",\"properties\":{\"session\":{\"type\":\"string\"}}}".to_owned(),
        ),
    );
    reset.push(Value::Str("notebook-reset-handler".to_owned()));
    reset.push(Value::Keyword("sequential".to_owned()));
    assert(reset.deep_view() =~= reset_tool());
    registries.register_tool(&reset);
}

// ---------------------------------------------------------------------
// Laws
// ---------------------------------------------------------------------

/// A cell is reported as repaired exactly where its code lacked closing
/// delimiters, and what is evaluated then lacks none.
pub proof fn lemma_repair_is_reported(args: Seq<char>, code: Seq<char>)
    requires
        crate::nrepl::extracted_string(args, "code"@) == Some(code),
        !crate::nrepl::scanned(code).in_string,
    ensures
        cell_of(args) matches Some(cell) && {
            &&& cell.repaired == (crate::nrepl::scanned(code).due.len() > 0)
            &&& crate::nrepl::scanned(cell.code).due.len() == 0
            &&& code.is_prefix_of(cell.code)
        },
{
    crate::nrepl::lemma_repair_balances(code);
    crate::nrepl::lemma_repair_is_idempotent(code);
    assert(crate::nrepl::repaired(code).len() == code.len() + crate::nrepl::scanned(
        code,
    ).due.len());
}

/// The value or the error of a cell ends its report, and stands on a line of
/// its own behind all that the cell printed.
pub proof fn lemma_report_ends_with_the_outcome(
    repaired: bool,
    printed: Seq<char>,
    outcome: CellOutcomeView,
)
    ensures
        ({
            let last = match outcome {
                CellOutcomeView::Value(text) => "=> "@ + text,
                CellOutcomeView::Error(msg) => "ERROR: "@ + msg,
            };
            let whole = report(repaired, printed, outcome);
            let at = whole.len() - last.len();
            &&& at >= 0
            &&& whole.skip(at) == last
            &&& at == 0 || whole[at - 1] == '\n'
        }),
{
    reveal_strlit("[repaired unbalanced delimiters]\n");
    let last = match outcome {
        CellOutcomeView::Value(text) => "=> "@ + text,
        CellOutcomeView::Error(msg) => "ERROR: "@ + msg,
    };
    let whole = report(repaired, printed, outcome);
    let at = whole.len() - last.len();
    assert(whole.skip(at) =~= last);
}

/// Both tools are listed, each with the handler that runs it.
pub proof fn lemma_notebook_tools_are_listed(r: crate::registry::RegistriesView)
    requires
        r.complete(),
    ensures
        crate::registry::tool_of(eval_tool()) matches Some(eval) && eval.name == "notebook_eval"@
            && eval.handler == "notebook-eval-handler"@,
        crate::registry::tool_of(reset_tool()) matches Some(reset) && reset.name
            == "notebook_reset"@ && reset.handler == "notebook-reset-handler"@,
        crate::registry::listing::<PluginToolMeta>(r.tool(eval_tool()).tool(reset_tool()).tools)
            == crate::registry::upsert::<PluginToolMeta>(
            crate::registry::upsert::<PluginToolMeta>(
                crate::registry::listing::<PluginToolMeta>(r.tools),
                crate::registry::tool_of(eval_tool())->0,
            ),
            crate::registry::tool_of(reset_tool())->0,
        ),
{
    reveal_strlit("notebook_eval");
    reveal_strlit("notebook_reset");
    assert(crate::registry::valid_tool_name("notebook_eval"@));
    assert(crate::registry::valid_tool_name("notebook_reset"@));
    crate::registry::lemma_tool_is_listed(r, eval_tool());
    crate::registry::lemma_tool_is_listed(r.tool(eval_tool()), reset_tool());
}

/// The report holds the whole of what the cell printed: behind the notice of a
/// repair, where there was one, stands every character of it, then at most a
/// line feed, and only where the cell left its last line open, and then the
/// outcome.
pub proof fn lemma_report_holds_all_that_was_printed(
    repaired: bool,
    printed: Seq<char>,
    outcome: CellOutcomeView,
)
    ensures
        ({
            let head = if repaired {
                "[repaired unbalanced delimiters]\n"@
            } else {
                Seq::empty()
            };
            let last = match outcome {
                CellOutcomeView::Value(text) => "=> "@ + text,
                CellOutcomeView::Error(msg) => "ERROR: "@ + msg,
            };
            let whole = report(repaired, printed, outcome);
            let open = printed.len() > 0 && printed.last() != '\n';
            &&& head.is_prefix_of(whole)
            &&& printed.is_prefix_of(whole.skip(head.len() as int))
            &&& whole.skip(head.len() as int).skip(printed.len() as int) == (if open {
                seq!['\n'] + last
            } else {
                last
            })
        }),
{
    let head = if repaired {
        "[repaired unbalanced delimiters]\n"@
    } else {
        Seq::empty()
    };
    let last = match outcome {
        CellOutcomeView::Value(text) => "=> "@ + text,
        CellOutcomeView::Error(msg) => "ERROR: "@ + msg,
    };
    let whole = report(repaired, printed, outcome);
    let rest = whole.skip(head.len() as int);
    assert(head =~= whole.take(head.len() as int));
    assert(printed =~= rest.take(printed.len() as int));
    if printed.len() > 0 && printed.last() != '\n' {
        assert(rest.skip(printed.len() as int) =~= seq!['\n'] + last);
    } else {
        assert(rest.skip(printed.len() as int) =~= last);
    }
}

/// The cell has the code of the arguments, with nothing taken from it, in the
/// session that they name, or else in the default one. It counts as repaired
/// where something was added. Without code there is no cell.
pub proof fn lemma_cell_is_what_the_arguments_say(
    args: Seq<char>,
    code: Option<Seq<char>>,
    session: Option<Seq<char>>,
)
    requires
        crate::nrepl::extracted_string(args, "code"@) == code,
        crate::nrepl::extracted_string(args, "session"@) == session,
    ensures
        session_of(args) == (match session {
            Some(name) => name,
            None => "default"@,
        }),
        code is None ==> cell_of(args) is None,
        code matches Some(given) ==> cell_of(args) matches Some(cell) && {
            &&& cell.session == session_of(args)
            &&& given.is_prefix_of(cell.code)
            &&& cell.code == crate::nrepl::repaired(given)
            &&& cell.repaired <==> cell.code.len() > given.len()
        },
{
    if let Some(given) = code {
        crate::nrepl::lemma_repair_is_idempotent(given);
        let fixed = crate::nrepl::repaired(given);
        if fixed.len() == given.len() {
            assert(fixed =~= given);
        }
    }
}

/// The answer to a reset names the session.
pub proof fn lemma_reset_names_the_session(session: Seq<char>)
    ensures
        crate::prelude::stands_in(session, reset_text(session)),
        reset_text(session).len() == session.len() + "session "@.len() + " cleared"@.len(),
{
    assert(reset_text(session) =~= "session "@ + (session + " cleared"@));
}

/// The tools declare the arguments that are read: the code and the session for an
/// evaluation, and the session for a reset.
pub proof fn lemma_tools_declare_their_arguments()
    ensures
        crate::registry::tool_of(eval_tool()) matches Some(eval) && crate::prelude::stands_in(
            "\"code\":{\"type\":\"string\"}"@,
            eval.parameters,
        ) && crate::prelude::stands_in(
            "\"session\":{\"type\":\"string\"}"@,
            eval.parameters,
        ) && crate::prelude::stands_in("\"required\":[\"code\"]"@, eval.parameters)
            && eval.execution_mode == Some("sequential"@) && eval.prepare_handler is None,
        crate::registry::tool_of(reset_tool()) matches Some(reset) && crate::prelude::stands_in(
            "\"session\":{\"type\":\"string\"}"@,
            reset.parameters,
        ) && reset.execution_mode == Some("sequential"@) && reset.prepare_handler is None,
{
    reveal_strlit("notebook_eval");
    reveal_strlit("notebook_reset");
    reveal_strlit("sequential");
    assert("sequential"@.len() == 10);
    assert(crate::registry::valid_tool_name("notebook_eval"@));
    assert(crate::registry::valid_tool_name("notebook_reset"@));
    reveal_strlit("\"code\":{\"type\":\"string\"}");
    reveal_strlit("\"session\":{\"type\":\"string\"}");
    reveal_strlit("\"required\":[\"code\"]");
    reveal_strlit(
        "{\"type\":\"object\",\"properties\":{\"code\":{\"type\":\"string\"},\"session\":{\"type\":\"string\"}},\"required\":[\"code\"]}",
    );
    reveal_strlit(
        "{\"type\":\"object\",\"properties\":{\"session\":{\"type\":\"string\"}}}",
    );
    let eval = "{\"type\":\"object\",\"properties\":{\"code\":{\"type\":\"string\"},\"session\":{\"type\":\"string\"}},\"required\":[\"code\"]}"@;
    let reset = "{\"type\":\"object\",\"properties\":{\"session\":{\"type\":\"string\"}}}"@;
    let code = "\"code\":{\"type\":\"string\"}"@;
    let session = "\"session\":{\"type\":\"string\"}"@;
    let required = "\"required\":[\"code\"]"@;
    assert(eval =~= eval.take(31) + (code + eval.skip(31 + code.len() as int)));
    assert(eval =~= eval.take(56) + (session + eval.skip(56 + session.len() as int)));
    assert(eval =~= eval.take(85) + (required + eval.skip(85 + required.len() as int)));
    assert(reset =~= reset.take(31) + (session + reset.skip(31 + session.len() as int)));
}

} // verus!
