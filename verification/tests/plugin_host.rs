//! Plugin code run against the library through a small interpreter, which
//! stands in for the Janet engine and knows the part of the language that the
//! plugins of these tests are written in.

use std::cell::RefCell;
use std::collections::HashMap;
use std::ops::{Deref, DerefMut};
use std::path::PathBuf;
use std::rc::Rc;

use dirge_plugin::escape::{escape_janet_string, unescape_harness_field};
use dirge_plugin::harness::HarnessReply;
use dirge_plugin::loader::{
    filter_existing_dirs, finish_notebook_run, loadtest_name, plan_directory, plan_file,
    probe_names, read_failure, LoadPlan, LoadRun, LoadedPlugin,
};
use dirge_plugin::manager::PluginManager as Manager;
use dirge_plugin::notebook::{self, Cell, CellOutcome};
use dirge_plugin::nrepl;
use dirge_plugin::prelude::{prelude_source, pull_source, push_source};
use dirge_plugin::provider::{PluginProviders, ProviderEntry, ProviderMap};
use dirge_plugin::queues::CustomMessage;
use dirge_plugin::render::{resolve_custom_message_render, RenderedMessage};
use dirge_plugin::reply::{read_eval, read_truth, Reply};
use dirge_plugin::session::{
    answer_dialog, decide_post_done_action, dialog_value, AutoConfirmMode, DialogReply,
    DialogRequest, PostDoneAction,
};
use dirge_plugin::slots::ToolHookResult;
use dirge_plugin::sources::{deny_tools_source, has_symbol_source};
use dirge_plugin::tree::TreeOp;
use dirge_plugin::value::Value;

const NONCE: u64 = 0x1f2e3d4c5b6a7988;
const PID: u64 = 4242;

fn err_sentinel() -> String {
    dirge_plugin::reply::err_sentinel(NONCE)
}

// ---------------------------------------------------------------------
// Values and code
// ---------------------------------------------------------------------

type Cells = Rc<RefCell<Vec<(Val, Val)>>>;

#[derive(Clone)]
enum Val {
    Nil,
    Bool(bool),
    Num(i64),
    Str(String),
    Kw(String),
    Tuple(Vec<Val>),
    Table(Cells),
    Fun(Rc<Fun>),
    Env,
}

struct Fun {
    params: Vec<String>,
    /// The name of all arguments behind the others.
    rest: Option<String>,
    body: Vec<Code>,
}

#[derive(Clone)]
enum Code {
    Sym(String),
    Lit(Val),
    Quote(String),
    Splice(Box<Code>),
    List(Vec<Code>),
    Brackets(Vec<Code>),
    Braces(Vec<Code>),
}

/// Code that does not compile stops the evaluation. What code raises can be
/// caught.
enum Stop {
    Compile(String),
    Raise(String),
}

fn same(a: &Val, b: &Val) -> bool {
    match (a, b) {
        (Val::Nil, Val::Nil) => true,
        (Val::Bool(x), Val::Bool(y)) => x == y,
        (Val::Num(x), Val::Num(y)) => x == y,
        (Val::Str(x), Val::Str(y)) => x == y,
        (Val::Kw(x), Val::Kw(y)) => x == y,
        _ => false,
    }
}

fn truthy(v: &Val) -> bool {
    !matches!(v, Val::Nil | Val::Bool(false))
}

fn printed(v: &Val) -> String {
    match v {
        Val::Nil => String::new(),
        Val::Bool(b) => b.to_string(),
        Val::Num(n) => n.to_string(),
        Val::Str(s) => s.clone(),
        Val::Kw(s) => s.clone(),
        Val::Tuple(_) => "<tuple>".to_string(),
        Val::Table(_) => "<table>".to_string(),
        Val::Fun(_) => "<function>".to_string(),
        Val::Env => "<table>".to_string(),
    }
}

/// A value as source.
fn described(v: &Val) -> String {
    match v {
        Val::Nil => "nil".to_string(),
        Val::Str(s) => format!("\"{}\"", escape_janet_string(s)),
        Val::Kw(s) => format!(":{s}"),
        other => printed(other),
    }
}

fn to_host(v: &Val) -> Value {
    match v {
        Val::Nil => Value::Nil,
        Val::Bool(b) => Value::Boolean(*b),
        Val::Str(s) => Value::Str(s.clone()),
        Val::Kw(s) => Value::Keyword(s.clone()),
        Val::Tuple(list) if list.iter().all(|item| matches!(item, Val::Str(_))) => Value::List {
            items: list.iter().map(printed).collect(),
            shown: printed(v),
        },
        other => Value::Other(printed(other)),
    }
}

fn from_host(v: &Value) -> Val {
    match v {
        Value::Nil => Val::Nil,
        Value::Boolean(b) => Val::Bool(*b),
        Value::Str(s) => Val::Str(s.clone()),
        Value::Keyword(s) => Val::Kw(s.clone()),
        Value::List { items, .. } => Val::Tuple(items.iter().cloned().map(Val::Str).collect()),
        Value::Other(s) => Val::Str(s.clone()),
    }
}

// ---------------------------------------------------------------------
// The reader
// ---------------------------------------------------------------------

struct Reader {
    chars: Vec<char>,
    at: usize,
}

impl Reader {
    fn new(src: &str) -> Reader {
        Reader { chars: src.chars().collect(), at: 0 }
    }

    fn peek(&self) -> Option<char> {
        self.chars.get(self.at).copied()
    }

    fn skip_blanks(&mut self) {
        while let Some(c) = self.peek() {
            if c == '#' {
                while self.peek().is_some() && self.peek() != Some('\n') {
                    self.at += 1;
                }
            } else if c.is_whitespace() {
                self.at += 1;
            } else {
                return;
            }
        }
    }

    fn all(&mut self) -> Result<Vec<Code>, String> {
        let mut out = Vec::new();
        self.skip_blanks();
        while self.peek().is_some() {
            out.push(self.form()?);
            self.skip_blanks();
        }
        Ok(out)
    }

    fn until(&mut self, end: char) -> Result<Vec<Code>, String> {
        let mut out = Vec::new();
        loop {
            self.skip_blanks();
            match self.peek() {
                None => return Err(format!("unexpected end of source, expected {end}")),
                Some(c) if c == end => {
                    self.at += 1;
                    return Ok(out);
                }
                Some(_) => out.push(self.form()?),
            }
        }
    }

    fn form(&mut self) -> Result<Code, String> {
        self.skip_blanks();
        let c = self.peek().ok_or("unexpected end of source")?;
        match c {
            '(' => {
                self.at += 1;
                Ok(Code::List(self.until(')')?))
            }
            '[' => {
                self.at += 1;
                Ok(Code::Brackets(self.until(']')?))
            }
            '{' => {
                self.at += 1;
                Ok(Code::Braces(self.until('}')?))
            }
            '@' => {
                self.at += 1;
                self.form()
            }
            ';' => {
                self.at += 1;
                Ok(Code::Splice(Box::new(self.form()?)))
            }
            '\'' => {
                self.at += 1;
                match self.form()? {
                    Code::Sym(name) => Ok(Code::Quote(name)),
                    _ => Err("only symbols are quoted here".to_string()),
                }
            }
            '"' => {
                self.at += 1;
                Ok(Code::Lit(Val::Str(self.string()?)))
            }
            '`' => {
                self.at += 1;
                let start = self.at;
                while self.peek().ok_or("unfinished long string")? != '`' {
                    self.at += 1;
                }
                let text: String = self.chars[start..self.at].iter().collect();
                self.at += 1;
                Ok(Code::Lit(Val::Str(text)))
            }
            ')' | ']' | '}' => Err(format!("unexpected {c}")),
            _ => Ok(self.word()),
        }
    }

    fn string(&mut self) -> Result<String, String> {
        let mut out = String::new();
        loop {
            let c = self.peek().ok_or("unfinished string")?;
            self.at += 1;
            if c == '"' {
                return Ok(out);
            }
            if c != '\\' {
                out.push(c);
                continue;
            }
            let e = self.peek().ok_or("unfinished escape")?;
            self.at += 1;
            out.push(match e {
                'n' => '\n',
                't' => '\t',
                'r' => '\r',
                '0' | 'z' => '\0',
                'f' => '\x0c',
                'v' => '\x0b',
                'a' => '\x07',
                'b' => '\x08',
                'e' => '\x1b',
                '"' | '\\' | '\'' | '?' => e,
                'x' => {
                    let digits: String = self.chars[self.at..self.at + 2].iter().collect();
                    self.at += 2;
                    let code = u8::from_str_radix(&digits, 16).map_err(|_| "bad escape")?;
                    char::from(code)
                }
                _ => return Err(format!("invalid string escape sequence {e}")),
            });
        }
    }

    fn word(&mut self) -> Code {
        let start = self.at;
        while let Some(c) = self.peek() {
            if c.is_whitespace() || "()[]{}\"`#".contains(c) {
                break;
            }
            self.at += 1;
        }
        let word: String = self.chars[start..self.at].iter().collect();
        if let Some(name) = word.strip_prefix(':') {
            return Code::Lit(Val::Kw(name.to_string()));
        }
        match word.as_str() {
            "nil" => Code::Lit(Val::Nil),
            "true" => Code::Lit(Val::Bool(true)),
            "false" => Code::Lit(Val::Bool(false)),
            _ => match word.parse::<i64>() {
                Ok(n) => Code::Lit(Val::Num(n)),
                Err(_) => Code::Sym(word),
            },
        }
    }
}

// ---------------------------------------------------------------------
// The interpreter
// ---------------------------------------------------------------------

/// The manager of the library with an engine for plugin code.
struct PluginManager {
    core: Manager,
    globals: HashMap<String, Val>,
    nrepl: bool,
    /// What the cells of each notebook session have defined.
    sessions: HashMap<String, HashMap<String, Val>>,
    /// What plugin code has printed.
    printed: String,
    /// How questions are answered.
    answers: AutoConfirmMode,
}

impl Deref for PluginManager {
    type Target = Manager;

    fn deref(&self) -> &Manager {
        &self.core
    }
}

impl DerefMut for PluginManager {
    fn deref_mut(&mut self) -> &mut Manager {
        &mut self.core
    }
}

type Locals = Vec<(String, Val)>;

const BUILTINS: [&str; 22] = [
    "nrepl/define",
    "harness/-call",
    "harness/-get",
    "harness/-set",
    "nil?",
    "get",
    "symbol",
    "notebook/eval",
    "notebook/reset",
    "notebook/register",
    "print",
    "string",
    "error",
    "+",
    "*",
    "string/find",
    "string/join",
    "sorted",
    "keys",
    "curenv",
    "put",
    "not",
];

const NREPL: [&str; 6] = [
    "paren-repair",
    "json-extract-scalar",
    "json-extract-string",
    "nrepl-not-connected-message",
    "nrepl-connection-error?",
    "nrepl-timeout-error?",
];

impl PluginManager {
    fn is_bound(&self, name: &str) -> bool {
        self.globals.contains_key(name)
            || BUILTINS.contains(&name)
            || (self.nrepl && NREPL.contains(&name))
    }

    fn run(&mut self, code: &Code, locals: &mut Locals) -> Result<Val, Stop> {
        match code {
            Code::Lit(v) => Ok(v.clone()),
            Code::Quote(name) => Ok(Val::Str(name.clone())),
            Code::Splice(_) => Err(Stop::Compile("nothing to splice into".to_string())),
            Code::Sym(name) => self.lookup(name, locals),
            Code::Brackets(items) => Ok(Val::Tuple(self.run_all(items, locals)?)),
            Code::Braces(items) => {
                let mut cells = Vec::new();
                for pair in items.chunks(2) {
                    let key = self.run(&pair[0], locals)?;
                    let value = self.run(&pair[1], locals)?;
                    cells.push((key, value));
                }
                Ok(Val::Table(Rc::new(RefCell::new(cells))))
            }
            Code::List(items) => self.run_list(items, locals),
        }
    }

    /// Runs the items of a call or a list.
    fn run_all(&mut self, items: &[Code], locals: &mut Locals) -> Result<Vec<Val>, Stop> {
        let mut out = Vec::new();
        for item in items {
            match item {
                Code::Splice(inner) => match self.run(inner, locals)? {
                    Val::Tuple(list) => out.extend(list),
                    other => out.push(other),
                },
                _ => out.push(self.run(item, locals)?),
            }
        }
        Ok(out)
    }

    fn lookup(&mut self, name: &str, locals: &Locals) -> Result<Val, Stop> {
        if let Some((_, v)) = locals.iter().rev().find(|(n, _)| n == name) {
            return Ok(v.clone());
        }
        match self.globals.get(name) {
            Some(v) => Ok(v.clone()),
            None => Err(Stop::Compile(format!("unknown symbol {name}"))),
        }
    }

    fn run_body(&mut self, body: &[Code], locals: &mut Locals) -> Result<Val, Stop> {
        let mut last = Val::Nil;
        for code in body {
            last = self.run(code, locals)?;
        }
        Ok(last)
    }

    fn assign(&mut self, name: &str, value: Val) -> Result<(), Stop> {
        match self.globals.get_mut(name) {
            Some(cell) => {
                *cell = value;
                Ok(())
            }
            None => Err(Stop::Compile(format!("unknown symbol {name}"))),
        }
    }

    fn run_list(&mut self, items: &[Code], locals: &mut Locals) -> Result<Val, Stop> {
        if let Some(Code::Sym(head)) = items.first() {
            match (head.as_str(), &items[1..]) {
                ("def" | "var", [Code::Sym(name), value]) => {
                    let v = self.run(value, locals)?;
                    self.globals.insert(name.clone(), v.clone());
                    return Ok(v);
                }
                ("set", [Code::Sym(name), value]) => {
                    let v = self.run(value, locals)?;
                    self.assign(name, v.clone())?;
                    return Ok(v);
                }
                ("++", [Code::Sym(name)]) => {
                    let v = match self.lookup(name, locals)? {
                        Val::Num(n) => Val::Num(n + 1),
                        _ => return Err(Stop::Raise("could not find method :+".to_string())),
                    };
                    self.assign(name, v.clone())?;
                    return Ok(v);
                }
                ("defn", [Code::Sym(name), Code::Brackets(params), body @ ..]) => {
                    let mut names: Vec<String> = params
                        .iter()
                        .map(|p| match p {
                            Code::Sym(s) => s.clone(),
                            _ => String::new(),
                        })
                        .collect();
                    let rest = match names.iter().position(|n| n == "&") {
                        Some(at) => names.split_off(at).pop(),
                        None => None,
                    };
                    let fun = Val::Fun(Rc::new(Fun { params: names, rest, body: body.to_vec() }));
                    self.globals.insert(name.clone(), fun.clone());
                    return Ok(fun);
                }
                ("do", body) => return self.run_body(body, locals),
                ("let", [Code::Brackets(binds), body @ ..]) => {
                    let outer = locals.len();
                    for bind in binds.chunks(2) {
                        let Code::Sym(name) = &bind[0] else {
                            return Err(Stop::Compile("bad binding".to_string()));
                        };
                        let v = self.run(&bind[1], locals)?;
                        locals.push((name.clone(), v));
                    }
                    let out = self.run_body(body, locals);
                    locals.truncate(outer);
                    return out;
                }
                ("if", [test, yes, rest @ ..]) => {
                    return if truthy(&self.run(test, locals)?) {
                        self.run(yes, locals)
                    } else {
                        self.run_body(rest, locals)
                    };
                }
                ("case", [value, arms @ ..]) => {
                    let v = self.run(value, locals)?;
                    for arm in arms.chunks(2) {
                        if arm.len() == 1 {
                            return self.run(&arm[0], locals);
                        }
                        if same(&v, &self.run(&arm[0], locals)?) {
                            return self.run(&arm[1], locals);
                        }
                    }
                    return Ok(Val::Nil);
                }
                ("try", [body, Code::List(clause)]) => {
                    return match self.run(body, locals) {
                        Err(Stop::Raise(msg)) => {
                            if let Code::Brackets(names) = &clause[0] {
                                if let Code::Sym(name) = &names[0] {
                                    locals.push((name.clone(), Val::Str(msg)));
                                }
                            }
                            let out = self.run_body(&clause[1..], locals);
                            locals.pop();
                            out
                        }
                        other => other,
                    };
                }
                ("tabseq", [Code::Brackets(bind), key, value]) => {
                    let Code::Sym(name) = &bind[0] else {
                        return Err(Stop::Compile("bad binding".to_string()));
                    };
                    let mut cells = Vec::new();
                    if let Val::Tuple(list) = self.run(&bind[2], locals)? {
                        for item in list {
                            locals.push((name.clone(), item));
                            let k = self.run(key, locals)?;
                            let v = self.run(value, locals)?;
                            locals.pop();
                            cells.push((k, v));
                        }
                    }
                    return Ok(Val::Table(Rc::new(RefCell::new(cells))));
                }
                _ => {}
            }
            let is_local = locals.iter().any(|(n, _)| n == head);
            if !is_local && !self.globals.contains_key(head) {
                if !self.is_bound(head) {
                    return Err(Stop::Compile(format!("unknown symbol {head}")));
                }
                let args = self.run_all(&items[1..], locals)?;
                return self.builtin(head, &args);
            }
        }
        let Some(first) = items.first() else {
            return Ok(Val::Tuple(Vec::new()));
        };
        let callee = self.run(first, locals)?;
        let mut args = self.run_all(&items[1..], locals)?;
        match callee {
            Val::Fun(fun) => {
                let behind = args.split_off(args.len().min(fun.params.len()));
                let mut inner: Locals = fun
                    .params
                    .iter()
                    .cloned()
                    .zip(args.into_iter().chain(std::iter::repeat(Val::Nil)))
                    .collect();
                if let Some(rest) = &fun.rest {
                    inner.push((rest.clone(), Val::Tuple(behind)));
                }
                self.run_body(&fun.body, &mut inner)
            }
            Val::Table(cells) => {
                let found = cells.borrow().iter().find(|(k, _)| same(k, &args[0])).cloned();
                Ok(found.map(|(_, v)| v).unwrap_or(Val::Nil))
            }
            other => Err(Stop::Raise(format!("cannot call {}", printed(&other)))),
        }
    }

    fn builtin(&mut self, name: &str, args: &[Val]) -> Result<Val, Stop> {
        let text = |i: usize| -> Result<String, Stop> {
            match args.get(i) {
                Some(Val::Str(s)) => Ok(s.clone()),
                _ => Err(Stop::Raise(format!("bad slot #{i}, expected string"))),
            }
        };
        let maybe = |s: Option<String>| s.map(Val::Str).unwrap_or(Val::Nil);
        match name {
            "string" => Ok(Val::Str(args.iter().map(printed).collect())),
            "error" => Err(Stop::Raise(args.first().map(printed).unwrap_or_default())),
            "not" => Ok(Val::Bool(!args.first().map(truthy).unwrap_or(false))),
            "+" | "*" => {
                let mut out: i64 = if name == "+" { 0 } else { 1 };
                for a in args {
                    match a {
                        Val::Num(n) if name == "+" => out += n,
                        Val::Num(n) => out *= n,
                        _ => return Err(Stop::Raise(format!("could not find method :{name}"))),
                    }
                }
                Ok(Val::Num(out))
            }
            "string/find" => {
                let (part, whole) = (text(0)?, text(1)?);
                Ok(match whole.find(&part) {
                    Some(at) => Val::Num(i64::try_from(at).unwrap()),
                    None => Val::Nil,
                })
            }
            "string/join" => match args.first() {
                Some(Val::Tuple(parts)) => {
                    let parts: Vec<String> = parts.iter().map(printed).collect();
                    Ok(Val::Str(parts.join(&text(1)?)))
                }
                _ => Err(Stop::Raise("expected a list".to_string())),
            },
            "keys" => match args.first() {
                Some(Val::Table(cells)) => {
                    Ok(Val::Tuple(cells.borrow().iter().map(|(k, _)| k.clone()).collect()))
                }
                _ => Err(Stop::Raise("expected a table".to_string())),
            },
            "sorted" => match args.first() {
                Some(Val::Tuple(items)) => {
                    let mut items = items.clone();
                    items.sort_by_key(printed);
                    Ok(Val::Tuple(items))
                }
                _ => Err(Stop::Raise("expected a list".to_string())),
            },
            "curenv" => Ok(Val::Env),
            "print" => {
                let line: String = args.iter().map(printed).collect();
                self.printed.push_str(&line);
                self.printed.push('\n');
                Ok(Val::Nil)
            }
            "notebook/register" => {
                notebook::register_notebook_tools(&mut self.core.harness.registries);
                Ok(Val::Nil)
            }
            "notebook/reset" => {
                let session = notebook::read_session(&text(0)?);
                self.sessions.remove(&session);
                Ok(Val::Str(notebook::reset_report(&session)))
            }
            "notebook/eval" => match notebook::read_cell(&text(0)?) {
                Some(cell) => {
                    let outcome = self.run_cell(&cell);
                    let lines = std::mem::take(&mut self.printed);
                    Ok(Val::Str(notebook::cell_report(cell.repaired, &lines, &outcome)))
                }
                None => Err(Stop::Raise("notebook_eval: no code".to_string())),
            },
            "put" => {
                if let (Some(Val::Env), Some(Val::Nil)) = (args.first(), args.get(2)) {
                    self.globals.remove(&text(1)?);
                }
                Ok(Val::Nil)
            }
            "nil?" => Ok(Val::Bool(matches!(args.first(), None | Some(Val::Nil)))),
            "symbol" => Ok(Val::Str(text(0)?)),
            "nrepl/define" => {
                self.nrepl = true;
                Ok(Val::Nil)
            }
            "get" => match args.first() {
                Some(Val::Env) if self.is_bound(&text(1)?) => Ok(Val::Bool(true)),
                _ => Ok(Val::Nil),
            },
            "harness/-get" => match self.core.harness.get_named(&text(0)?) {
                Some(v) => Ok(from_host(&v)),
                None => Err(Stop::Raise("unknown variable".to_string())),
            },
            "harness/-set" => {
                let value = to_host(args.get(1).unwrap_or(&Val::Nil));
                if self.core.harness.set_named(&text(0)?, &value) {
                    Ok(Val::Nil)
                } else {
                    Err(Stop::Raise("unknown variable".to_string()))
                }
            }
            "paren-repair" => Ok(Val::Str(nrepl::paren_repair(&text(0)?))),
            "json-extract-scalar" => Ok(maybe(nrepl::json_extract_scalar(&text(0)?, &text(1)?))),
            "json-extract-string" => Ok(maybe(nrepl::json_extract_string(&text(0)?, &text(1)?))),
            "nrepl-not-connected-message" => Ok(Val::Str(nrepl::not_connected_message(&text(0)?))),
            "nrepl-connection-error?" => Ok(Val::Bool(nrepl::is_connection_error(&text(0)?))),
            "nrepl-timeout-error?" => Ok(Val::Bool(nrepl::is_timeout_error(&text(0)?))),
            "harness/-call" => {
                let name = text(0)?;
                let args: Vec<Value> = args[1..].iter().map(to_host).collect();
                match self.core.harness.call_named(&name, &args) {
                    Some(HarnessReply::Return(v)) => Ok(from_host(&v)),
                    Some(HarnessReply::Raise(msg)) => Err(Stop::Raise(msg)),
                    Some(HarnessReply::ListTools) => Ok(Val::Str("[]".to_string())),
                    Some(HarnessReply::CallTool { name, args }) => {
                        Ok(Val::Str(format!("{name} {args}")))
                    }
                    Some(HarnessReply::Ask(request)) => {
                        Ok(from_host(&dialog_value(answer_dialog(self.answers, &request))))
                    }
                    None => Err(Stop::Raise(format!("unknown function {name}"))),
                }
            }
            _ => Err(Stop::Compile(format!("unknown symbol {name}"))),
        }
    }

    /// Evaluates a cell among the definitions of its session.
    fn run_cell(&mut self, cell: &Cell) -> CellOutcome {
        let session = self.sessions.remove(&cell.session).unwrap_or_default();
        let outside = std::mem::replace(&mut self.globals, session);
        let result = match Reader::new(&cell.code).all() {
            Ok(forms) => self.run_body(&forms, &mut Vec::new()),
            Err(msg) => Err(Stop::Compile(msg)),
        };
        let session = std::mem::replace(&mut self.globals, outside);
        self.sessions.insert(cell.session.clone(), session);
        match result {
            Ok(v) => CellOutcome::Value(described(&v)),
            Err(Stop::Compile(msg)) | Err(Stop::Raise(msg)) => CellOutcome::Error(msg),
        }
    }

    fn run_source(&mut self, src: &str) -> Result<Val, String> {
        let forms = Reader::new(src).all()?;
        match self.run_body(&forms, &mut Vec::new()) {
            Ok(v) => Ok(v),
            Err(Stop::Compile(msg)) | Err(Stop::Raise(msg)) => Err(msg),
        }
    }

    /// What the engine answers to a piece of source.
    fn reply(&mut self, src: &str) -> Reply {
        self.run_source(&pull_source()).unwrap();
        let reply = match self.run_source(src) {
            Ok(v) => Reply::Value(to_host(&v)),
            Err(msg) => Reply::Error(msg),
        };
        self.run_source(&push_source()).unwrap();
        reply
    }

    fn with_core(core: Manager) -> PluginManager {
        let mut mgr = PluginManager {
            core,
            globals: HashMap::new(),
            nrepl: false,
            sessions: HashMap::new(),
            printed: String::new(),
            answers: AutoConfirmMode::No,
        };
        mgr.run_source(&prelude_source()).unwrap();
        mgr
    }

    fn try_new() -> Result<PluginManager, String> {
        let core = Manager::try_new(Ok(NONCE))?;
        Ok(PluginManager::with_core(core))
    }

    fn eval(&mut self, src: &str) -> Result<String, String> {
        read_eval(&self.reply(src))
    }

    fn dispatch(&mut self, hook: &str, ctx: &str) -> Result<Vec<String>, String> {
        let mut run = self.core.begin_dispatch(hook, ctx);
        while let Some(call) = self.core.next_call(&run) {
            let reply = self.reply(&call.source);
            self.core.finish_call(&mut run, &reply);
        }
        Ok(self.core.finish_dispatch(run))
    }

    fn dispatch_tool_hook(&mut self, hook: &str, ctx: &str) -> Result<ToolHookResult, String> {
        let mut run = self.core.begin_tool_hook(hook, ctx);
        if let Some(run) = &mut run {
            while let Some(call) = self.core.next_tool_call(run) {
                let reply = self.reply(&call.source);
                self.core.finish_call(run, &reply);
            }
        }
        Ok(self.core.finish_tool_hook(run))
    }

    fn invoke_command(&mut self, handler: &str, args: &str) -> Result<Option<String>, String> {
        let source = self.core.begin_command(handler, args);
        let reply = self.reply(&source);
        Ok(self.core.finish_command(handler, &reply))
    }

    fn invoke_plugin_tool(
        &mut self,
        handler: &str,
        args: &str,
        call_id: &str,
    ) -> Result<String, String> {
        let source = self.core.begin_plugin_tool(handler, args, call_id);
        let reply = self.reply(&source);
        self.core.finish_plugin_tool(&reply)
    }

    fn invoke_prepare_arguments(
        &mut self,
        handler: &str,
        args: &str,
    ) -> Result<Option<String>, String> {
        let source = self.core.begin_prepare_arguments(handler, args);
        let reply = self.reply(&source);
        Ok(self.core.finish_prepare_arguments(&reply))
    }

    fn invoke_renderer(
        &mut self,
        handler: &str,
        data: &str,
    ) -> Result<Vec<(String, String)>, String> {
        let source = self.core.begin_renderer(handler, data);
        self.reply(&source);
        Ok(self.core.finish_renderer())
    }

    fn invoke_message_renderer(
        &mut self,
        handler: &str,
        payload: &str,
    ) -> Result<Option<String>, String> {
        let source = self.core.begin_message_renderer(handler, payload);
        let reply = self.reply(&source);
        Ok(self.core.finish_message_renderer(&reply))
    }

    fn render_message(&mut self, msg: &CustomMessage) -> Option<RenderedMessage> {
        let rendered = match self.core.begin_message_render(msg) {
            Some(call) => {
                let reply = self.reply(&call.source);
                self.core.finish_message_renderer(&reply)
            }
            None => None,
        };
        resolve_custom_message_render(msg, rendered)
    }

    fn has_symbol(&mut self, name: &str) -> bool {
        read_truth(&self.reply(&has_symbol_source(name)))
    }

    fn set_deny_tools_for_computer_use(&mut self, names: &Vec<String>) {
        self.reply(&deny_tools_source(names));
    }

    fn load_source(&mut self, src: &str) -> Result<(), String> {
        self.eval(src).map(|_| ())
    }

    /// Evaluates the files of a plugin, up to the first that fails.
    fn run_files(&mut self, plan: LoadPlan, read: impl Fn(&str) -> String) -> LoadRun {
        let mut run = LoadRun::begin(plan);
        while let Some(file) = run.next_file() {
            let outcome = self.load_source(&read(&file));
            run.finish_file(outcome);
        }
        run
    }

    /// The names among those of a plugin that are bound.
    fn bound_names(&mut self, stem: &str) -> Vec<String> {
        probe_names(stem).into_iter().filter(|name| self.has_symbol(name)).collect()
    }
}

/// A plugin in memory: one file, or a directory of files.
enum Plugin {
    File(PathBuf, String),
    Dir(PathBuf, Vec<(String, String)>),
}

impl Deref for Plugin {
    type Target = PathBuf;

    fn deref(&self) -> &PathBuf {
        match self {
            Plugin::File(path, _) => path,
            Plugin::Dir(path, _) => path,
        }
    }
}

fn tmpfile(label: &str, content: &str) -> Plugin {
    Plugin::File(PathBuf::from(loadtest_name(PID, label)), content.to_string())
}

fn load_plugin(mgr: &mut PluginManager, plugin: &Plugin) -> Result<LoadedPlugin, String> {
    let name = plugin.file_name().unwrap().to_string_lossy().to_string();
    let (plan, files) = match plugin {
        Plugin::File(_, content) => (plan_file(&name), vec![(name.clone(), content.clone())]),
        Plugin::Dir(_, files) => {
            let names = files.iter().map(|(n, _)| n.clone()).collect();
            (plan_directory(&name, &names)?, files.clone())
        }
    };
    let content = |file: &str| files.iter().find(|(n, _)| n == file).unwrap().1.clone();
    let plan = mgr.run_files(plan, content).finish()?;
    let bound = mgr.bound_names(&plan.stem);
    let loaded = mgr.core.finish_load(plan, &bound);
    for source in &loaded.sources {
        mgr.reply(source);
    }
    Ok(loaded)
}

/// The file with the helpers of the nREPL bridge.
const NREPL_STATE: &str = "(nrepl/define)";

fn nrepl_state_env() -> PluginManager {
    let (core, state) = nrepl::nrepl_state_env(Ok(NONCE), Ok(NREPL_STATE.to_string()));
    let mut mgr = PluginManager::with_core(core);
    let reply = mgr.reply(&state);
    let PluginManager { core, globals, nrepl, sessions, printed, answers } = mgr;
    let core = nrepl::finish_nrepl_state(core, &reply).unwrap();
    PluginManager { core, globals, nrepl, sessions, printed, answers }
}

/// The files of the notebook plugin.
const NOTEBOOK: [(&str, &str); 3] = [
    ("01-eval.janet", "(defn notebook-eval-handler [args] (notebook/eval args))"),
    ("00-tools.janet", "(notebook/register)"),
    ("02-reset.janet", "(defn notebook-reset-handler [args] (notebook/reset args))"),
];

fn load_notebook_plugin() -> PluginManager {
    let names = NOTEBOOK.iter().map(|(name, _)| name.to_string()).collect();
    let (core, plan) = dirge_plugin::loader::load_notebook_plugin(Ok(NONCE), &names);
    let mut mgr = PluginManager::with_core(core);
    let content = |file: &str| {
        let (_, text) = NOTEBOOK.iter().find(|(name, _)| *name == file).unwrap();
        text.to_string()
    };
    let stem = plan.stem.clone();
    let run = mgr.run_files(plan, content);
    let bound = mgr.bound_names(&stem);
    let PluginManager { core, globals, nrepl, sessions, printed, answers } = mgr;
    let (core, loaded) = finish_notebook_run(core, run, bound).expect("load plugins/notebook");
    let mut mgr = PluginManager { core, globals, nrepl, sessions, printed, answers };
    for source in &loaded.sources {
        mgr.reply(source);
    }
    assert!(loaded.files.len() >= 3);
    mgr
}

// ---------------------------------------------------------------------
// Tests
// ---------------------------------------------------------------------

#[test]
fn test_plugin_manager_new() {
    let mgr = PluginManager::try_new().expect("init must succeed in test env");
    assert!(mgr.hooks.is_empty());
}

#[test]
fn test_try_new_returns_ok() {
    assert!(PluginManager::try_new().is_ok());
}

#[test]
fn has_hook_tracks_registration() {
    let mut mgr = PluginManager::try_new().unwrap();
    assert!(!mgr.has_hook("on-tool-start"));
    mgr.eval(r#"(defn noop [ctx] nil)"#).unwrap();
    mgr.register("on-tool-start", "noop");
    assert!(mgr.has_hook("on-tool-start"));
    assert!(!mgr.has_hook("on-tool-end"));
}

#[test]
fn dispatch_tool_hook_skips_worker_when_no_hook_registered() {
    let mut mgr = PluginManager::try_new().unwrap();
    mgr.eval(r#"(harness/block "planted")"#).unwrap();

    let result = mgr
        .dispatch_tool_hook("on-tool-start", "@{:tool \"x\"}")
        .unwrap();
    assert_eq!(
        result,
        ToolHookResult::default(),
        "no hook registered → empty result",
    );

    assert!(
        mgr.has_pending_block(),
        "fast path must not touch the worker (slot should survive)",
    );
}

#[test]
fn test_dispatch_returns_per_hook_results() {
    let mut mgr = PluginManager::try_new().unwrap();
    mgr.eval(r#"(defn h1 [ctx] "from-one")"#).unwrap();
    mgr.eval(r#"(defn h2 [ctx] "from-two")"#).unwrap();
    mgr.eval(r#"(defn h-nil [ctx] nil)"#).unwrap();
    mgr.register("on-prompt", "h1");
    mgr.register("on-prompt", "h-nil");
    mgr.register("on-prompt", "h2");

    let out = mgr.dispatch("on-prompt", "@{:prompt \"x\"}").unwrap();
    assert_eq!(out, vec!["from-one".to_string(), "from-two".to_string()]);

    let out = mgr.dispatch("on-error", "@{}").unwrap();
    assert!(out.is_empty());
}

#[test]
fn test_take_pending_prompt_returns_literal_nil_string() {
    let mut mgr = PluginManager::try_new().unwrap();

    assert_eq!(mgr.take_pending_prompt(), None);

    mgr.eval(r#"(harness/request-prompt "nil")"#).unwrap();
    assert_eq!(mgr.take_pending_prompt(), Some("nil".to_string()));

    assert_eq!(mgr.take_pending_prompt(), None);

    mgr.eval(r#"(harness/request-prompt 42)"#).unwrap();
    assert_eq!(mgr.take_pending_prompt(), None);
}

#[test]
fn test_post_done_action() {
    let followup = Some("retry".to_string());
    assert_eq!(
        decide_post_done_action(followup.clone(), true, false),
        PostDoneAction::Followup("retry".into())
    );
    assert_eq!(
        decide_post_done_action(followup.clone(), false, false),
        PostDoneAction::Followup("retry".into())
    );
    assert_eq!(
        decide_post_done_action(None, true, false),
        PostDoneAction::LoopIter
    );
    assert_eq!(
        decide_post_done_action(None, true, true),
        PostDoneAction::LoopStop
    );
    assert_eq!(
        decide_post_done_action(None, false, false),
        PostDoneAction::Idle
    );
}

#[test]
fn test_register_hook() {
    let mut mgr = PluginManager::try_new().unwrap();
    mgr.register("on-init", "test-init");
    assert_eq!(mgr.hooks.len(), 1);
    assert!(mgr.hooks.contains_key("on-init"));
}

#[test]
fn test_register_multiple_hooks() {
    let mut mgr = PluginManager::try_new().unwrap();
    mgr.register("on-init", "test-init");
    mgr.register("on-prompt", "test-prompt");
    mgr.register("on-response", "test-response");
    assert_eq!(mgr.hooks.len(), 3);
}

#[test]
fn test_load_and_eval_janet() {
    let mut mgr = PluginManager::try_new().unwrap();
    let result = mgr.eval("(+ 1 2)");
    assert_eq!(result, Ok("3".to_string()));
}

#[test]
fn test_load_and_eval_janet_error() {
    let mut mgr = PluginManager::try_new().unwrap();
    let result = mgr.eval("(undefined-fn 1)");
    assert!(result.is_err());
}

#[test]
fn test_dispatch_hook() {
    let mut mgr = PluginManager::try_new().unwrap();
    mgr.eval("(defn on-init [ctx] (string \"loaded with model: \" (ctx :model)))")
        .unwrap();
    mgr.register("on-init", "on-init");
    let result = mgr.dispatch("on-init", "@{:model \"gpt-4\"}").unwrap();
    assert_eq!(result.len(), 1);
    assert!(result[0].contains("loaded with model: gpt-4"));
}

#[test]
fn test_harness_log() {
    let mut mgr = PluginManager::try_new().unwrap();
    let result = mgr.eval("(harness/log \"hello from plugin\")");
    assert!(result.is_ok());
}

#[test]
fn dispatch_passes_through_result_that_looks_like_host_error() {
    let mut mgr = PluginManager::try_new().unwrap();
    mgr.eval(r#"(defn on-prompt [ctx] "DIRGE_HOOK_ERR: not really an error")"#)
        .unwrap();
    mgr.register("on-prompt", "on-prompt");
    let result = mgr.dispatch("on-prompt", "@{:prompt \"x\"}").unwrap();
    assert_eq!(
        result.len(),
        1,
        "collision-prone prefix must not drop a real result"
    );
    assert_eq!(result[0], "DIRGE_HOOK_ERR: not really an error");
}

#[test]
fn test_janet_escaping() {
    let mut mgr = PluginManager::try_new().unwrap();

    mgr.eval(r#"(defn test-echo [ctx] (ctx :msg))"#).unwrap();
    mgr.register("on-prompt", "test-echo");

    assert_eq!(
        mgr.dispatch("on-prompt", "@{:msg \"he said \\\"hello\\\"\"}")
            .unwrap(),
        vec!["he said \"hello\"".to_string()]
    );

    assert_eq!(
        mgr.dispatch("on-prompt", "@{:msg \"path\\\\to\\\\file\"}")
            .unwrap(),
        vec!["path\\to\\file".to_string()]
    );

    assert_eq!(
        mgr.dispatch("on-prompt", "@{:msg \"line1\\nline2\"}")
            .unwrap(),
        vec!["line1\nline2".to_string()]
    );
}

#[test]
fn test_escape_janet_string() {
    assert_eq!(escape_janet_string("simple"), "simple");
    assert_eq!(escape_janet_string("a\"b"), "a\\\"b");
    assert_eq!(escape_janet_string("a\\b"), "a\\\\b");
    assert_eq!(escape_janet_string("a\nb\tc\rd"), "a\\nb\\tc\\rd");
    assert_eq!(escape_janet_string("a\x01b"), "a\\x01b");
}

#[test]
fn test_dispatch_swallows_runtime_errors() {
    let mut mgr = PluginManager::try_new().unwrap();
    mgr.eval(r#"(defn broken [ctx] (string/find "x" nil))"#)
        .unwrap();
    mgr.register("on-prompt", "broken");
    let result = mgr.dispatch("on-prompt", "@{:prompt \"hi\"}").unwrap();
    assert!(result.is_empty());
}

#[test]
fn test_dispatch_with_json_args_as_string() {
    let mut mgr = PluginManager::try_new().unwrap();
    mgr.eval(r#"(defn capture [ctx] (ctx :args))"#).unwrap();
    mgr.register("on-tool-start", "capture");
    let args_json = r#"{"path": "/tmp/x", "n": null, "xs": [1, 2, 3]}"#;
    let ctx = format!(
        "@{{:tool \"Bash\" :args \"{}\"}}",
        escape_janet_string(args_json)
    );
    let result = mgr.dispatch("on-tool-start", &ctx).unwrap();
    assert_eq!(result, vec![args_json.to_string()]);
}

#[test]
fn test_has_symbol() {
    let mut mgr = PluginManager::try_new().unwrap();
    mgr.eval("(defn my-hook [ctx] :ok)").unwrap();
    assert!(mgr.has_symbol("my-hook"));
    assert!(!mgr.has_symbol("nope-not-here"));
    assert!(!mgr.has_symbol("a\"b-c"));
}

#[test]
fn test_janet_phase_tracking() {
    let mut mgr = PluginManager::try_new().unwrap();

    mgr.eval(
        r#"
            (var test-phase :idle)
            (defn test-on-init [ctx]
              (harness/log "phase test loaded")
              nil)
            (defn test-on-prompt [ctx]
              (case test-phase
                :idle (do (set test-phase :active) "entered active")
                :active (do (set test-phase :done) "entered done")
                nil))
        "#,
    )
    .unwrap();

    mgr.register("on-init", "test-on-init");
    mgr.register("on-prompt", "test-on-prompt");

    let result = mgr.dispatch("on-init", "@{}");
    assert!(result.is_ok());

    assert_eq!(
        mgr.dispatch("on-prompt", "@{:prompt \"any\"}").unwrap(),
        vec!["entered active".to_string()]
    );

    assert_eq!(
        mgr.dispatch("on-prompt", "@{:prompt \"any\"}").unwrap(),
        vec!["entered done".to_string()]
    );

    assert!(
        mgr.dispatch("on-prompt", "@{:prompt \"any\"}")
            .unwrap()
            .is_empty()
    );
}

#[test]
fn test_take_pending_block_roundtrips() {
    let mut mgr = PluginManager::try_new().unwrap();
    assert_eq!(mgr.take_pending_block(), None);

    mgr.eval(r#"(harness/block "rm -rf is not allowed")"#)
        .unwrap();
    assert_eq!(
        mgr.take_pending_block(),
        Some("rm -rf is not allowed".to_string())
    );
    assert_eq!(mgr.take_pending_block(), None);
}

#[test]
fn test_take_pending_mutate_input_roundtrips() {
    let mut mgr = PluginManager::try_new().unwrap();
    assert_eq!(mgr.take_pending_mutate_input(), None);

    mgr.eval(r#"(harness/mutate-input "{\"path\":\"/safe\"}")"#)
        .unwrap();
    assert_eq!(
        mgr.take_pending_mutate_input(),
        Some("{\"path\":\"/safe\"}".to_string())
    );
    assert_eq!(mgr.take_pending_mutate_input(), None);
}

#[test]
fn test_take_pending_replace_result_roundtrips() {
    let mut mgr = PluginManager::try_new().unwrap();
    assert_eq!(mgr.take_pending_replace_result(), None);

    mgr.eval(r#"(harness/replace-result "filtered output")"#)
        .unwrap();
    assert_eq!(
        mgr.take_pending_replace_result(),
        Some("filtered output".to_string())
    );
    assert_eq!(mgr.take_pending_replace_result(), None);
}

#[test]
fn test_dispatch_tool_hook_clears_slots_before_running() {
    let mut mgr = PluginManager::try_new().unwrap();
    mgr.eval(r#"(harness/block "stale") (harness/replace-result "stale")"#)
        .unwrap();

    mgr.eval(r#"(defn passthrough [ctx] nil)"#).unwrap();
    mgr.register("on-tool-start", "passthrough");

    let result = mgr
        .dispatch_tool_hook("on-tool-start", "@{:tool \"x\"}")
        .unwrap();
    assert_eq!(result.block, None);
    assert_eq!(result.mutate_input, None);
    assert_eq!(result.replace_result, None);
}

#[test]
fn test_dispatch_tool_hook_captures_block() {
    let mut mgr = PluginManager::try_new().unwrap();
    mgr.eval(r#"(defn deny [ctx] (harness/block "denied by policy"))"#)
        .unwrap();
    mgr.register("on-tool-start", "deny");

    let result = mgr
        .dispatch_tool_hook("on-tool-start", "@{:tool \"bash\"}")
        .unwrap();
    assert_eq!(result.block, Some("denied by policy".to_string()));
}

#[test]
fn test_dispatch_tool_hook_captures_mutate_input() {
    let mut mgr = PluginManager::try_new().unwrap();
    mgr.eval(r#"(defn rewrite [ctx] (harness/mutate-input "{\"command\":\"echo safe\"}"))"#)
        .unwrap();
    mgr.register("on-tool-start", "rewrite");

    let result = mgr
        .dispatch_tool_hook("on-tool-start", "@{:tool \"bash\"}")
        .unwrap();
    assert_eq!(
        result.mutate_input,
        Some("{\"command\":\"echo safe\"}".to_string())
    );
}

#[test]
fn test_dispatch_tool_hook_captures_replace_result() {
    let mut mgr = PluginManager::try_new().unwrap();
    mgr.eval(r#"(defn truncate [ctx] (harness/replace-result "[truncated]"))"#)
        .unwrap();
    mgr.register("on-tool-end", "truncate");

    let result = mgr
        .dispatch_tool_hook("on-tool-end", "@{:tool \"read\"}")
        .unwrap();
    assert_eq!(result.replace_result, Some("[truncated]".to_string()));
}

#[test]
fn dispatch_tool_hook_first_blocker_stops_dispatch() {
    let mut mgr = PluginManager::try_new().unwrap();
    mgr.eval(r#"(defn first-block [ctx] (harness/block "first"))"#)
        .unwrap();
    mgr.eval(
        r#"(defn second-block [ctx]
                 (harness/notify "second-also-ran" :warn)
                 (harness/block "second"))"#,
    )
    .unwrap();
    mgr.register("on-tool-start", "first-block");
    mgr.register("on-tool-start", "second-block");

    let result = mgr.dispatch_tool_hook("on-tool-start", "@{}").unwrap();
    assert_eq!(
        result.block,
        Some("first".to_string()),
        "first blocker's reason must win",
    );
    let pending = mgr.drain_notifications();
    assert!(
        !pending.iter().any(|(_, m)| m.contains("second-also-ran")),
        "second hook should not have run after first blocked: {:?}",
        pending,
    );
}

#[test]
fn dispatch_tool_hook_runs_all_when_no_block() {
    let mut mgr = PluginManager::try_new().unwrap();
    mgr.eval(r#"(defn a [ctx] (harness/notify "a-ran"))"#)
        .unwrap();
    mgr.eval(r#"(defn b [ctx] (harness/notify "b-ran"))"#)
        .unwrap();
    mgr.register("on-tool-start", "a");
    mgr.register("on-tool-start", "b");

    let _ = mgr.dispatch_tool_hook("on-tool-start", "@{}").unwrap();
    let pending = mgr.drain_notifications();
    let combined: String = pending
        .iter()
        .map(|(_, m)| m.clone())
        .collect::<Vec<_>>()
        .join("|");
    assert!(combined.contains("a-ran"), "got: {combined}");
    assert!(combined.contains("b-ran"), "got: {combined}");
}

#[test]
fn dispatch_tool_hook_mutations_still_chain_last_wins() {
    let mut mgr = PluginManager::try_new().unwrap();
    mgr.eval(r#"(defn rewrite-a [ctx] (harness/replace-result "from-a"))"#)
        .unwrap();
    mgr.eval(r#"(defn rewrite-b [ctx] (harness/replace-result "from-b"))"#)
        .unwrap();
    mgr.register("on-tool-end", "rewrite-a");
    mgr.register("on-tool-end", "rewrite-b");

    let result = mgr.dispatch_tool_hook("on-tool-end", "@{}").unwrap();
    assert_eq!(
        result.replace_result,
        Some("from-b".to_string()),
        "last-write-wins for mutations",
    );
    assert_eq!(result.block, None);
}

#[test]
fn test_notify_writes_one_entry() {
    let mut mgr = PluginManager::try_new().unwrap();
    mgr.eval(r#"(harness/notify "hello" :info)"#).unwrap();
    let pending = mgr.drain_notifications();
    assert_eq!(pending, vec![("info".to_string(), "hello".to_string())]);
    assert!(mgr.drain_notifications().is_empty());
}

#[test]
fn test_notify_preserves_order() {
    let mut mgr = PluginManager::try_new().unwrap();
    mgr.eval(r#"(harness/notify "first" :info)"#).unwrap();
    mgr.eval(r#"(harness/notify "second" :warn)"#).unwrap();
    mgr.eval(r#"(harness/notify "third" :error)"#).unwrap();
    let pending = mgr.drain_notifications();
    assert_eq!(
        pending,
        vec![
            ("info".to_string(), "first".to_string()),
            ("warn".to_string(), "second".to_string()),
            ("error".to_string(), "third".to_string()),
        ]
    );
}

#[test]
fn test_notify_default_level_is_info() {
    let mut mgr = PluginManager::try_new().unwrap();
    mgr.eval(r#"(harness/notify "no level given")"#).unwrap();
    let pending = mgr.drain_notifications();
    assert_eq!(pending.len(), 1);
    assert_eq!(pending[0].0, "info");
}

#[test]
fn test_notify_keeps_a_multiline_message_whole() {
    let mut mgr = PluginManager::try_new().unwrap();
    mgr.eval("(harness/notify \"build failed:\\nsee log\" :error)")
        .unwrap();
    let pending = mgr.drain_notifications();
    assert_eq!(
        pending,
        vec![("error".to_string(), "build failed:\nsee log".to_string())],
        "the tail after the newline was dropped"
    );
}

#[test]
fn test_notify_cannot_forge_a_second_entry_with_a_spoofed_level() {
    let mut mgr = PluginManager::try_new().unwrap();
    mgr.eval("(harness/notify \"benign\\nerror\\tdisk is on fire\" :info)")
        .unwrap();
    let pending = mgr.drain_notifications();
    assert_eq!(pending.len(), 1, "payload minted an entry: {pending:?}");
    assert_eq!(pending[0].0, "info", "payload chose its own level");
    assert_eq!(pending[0].1, "benign\nerror\tdisk is on fire");
}

#[test]
fn test_notify_keeps_an_embedded_tab() {
    let mut mgr = PluginManager::try_new().unwrap();
    mgr.eval("(harness/notify \"col1\\tcol2\" :warn)").unwrap();
    let pending = mgr.drain_notifications();
    assert_eq!(
        pending,
        vec![("warn".to_string(), "col1\tcol2".to_string())]
    );
}

#[test]
fn test_notify_ignores_non_string_msg() {
    let mut mgr = PluginManager::try_new().unwrap();
    mgr.eval(r#"(harness/notify 42 :warn)"#).unwrap();
    assert!(mgr.drain_notifications().is_empty());
}

#[test]
fn test_notify_unknown_level_falls_back_to_info() {
    let mut mgr = PluginManager::try_new().unwrap();
    mgr.eval(r#"(harness/notify "msg" :weird)"#).unwrap();
    let pending = mgr.drain_notifications();
    assert_eq!(pending, vec![("info".to_string(), "msg".to_string())]);
}

#[test]
fn test_replace_prompt_roundtrips() {
    let mut mgr = PluginManager::try_new().unwrap();
    assert_eq!(mgr.take_pending_prompt_replace(), None);

    mgr.eval(r#"(harness/replace-prompt "Please act in spanish.")"#)
        .unwrap();
    assert_eq!(
        mgr.take_pending_prompt_replace(),
        Some("Please act in spanish.".to_string())
    );
    assert_eq!(mgr.take_pending_prompt_replace(), None);
}

#[test]
fn test_replace_prompt_last_write_wins() {
    let mut mgr = PluginManager::try_new().unwrap();
    mgr.eval(r#"(harness/replace-prompt "first")"#).unwrap();
    mgr.eval(r#"(harness/replace-prompt "second")"#).unwrap();
    assert_eq!(
        mgr.take_pending_prompt_replace(),
        Some("second".to_string())
    );
}

#[test]
fn test_replace_prompt_ignores_non_string() {
    let mut mgr = PluginManager::try_new().unwrap();
    mgr.eval(r#"(harness/replace-prompt 42)"#).unwrap();
    assert_eq!(mgr.take_pending_prompt_replace(), None);
}

#[test]
fn test_replace_prompt_handles_special_chars() {
    let mut mgr = PluginManager::try_new().unwrap();
    mgr.eval(r#"(harness/replace-prompt "say \"hi\"\nline 2 \\ x")"#)
        .unwrap();
    assert_eq!(
        mgr.take_pending_prompt_replace(),
        Some("say \"hi\"\nline 2 \\ x".to_string())
    );
}

#[test]
fn test_register_command_records_pair() {
    let mut mgr = PluginManager::try_new().unwrap();
    mgr.eval(r#"(harness/register-command "hello" "say-hello")"#)
        .unwrap();
    let cmds = mgr.list_commands();
    assert_eq!(cmds, vec![("hello".to_string(), "say-hello".to_string())]);
}

#[test]
fn test_register_multiple_commands() {
    let mut mgr = PluginManager::try_new().unwrap();
    mgr.eval(r#"(harness/register-command "alpha" "fn-a")"#)
        .unwrap();
    mgr.eval(r#"(harness/register-command "beta" "fn-b")"#)
        .unwrap();
    let cmds = mgr.list_commands();
    assert_eq!(cmds.len(), 2);
    assert!(cmds.contains(&("alpha".to_string(), "fn-a".to_string())));
    assert!(cmds.contains(&("beta".to_string(), "fn-b".to_string())));
}

#[test]
fn test_register_command_ignores_non_string_args() {
    let mut mgr = PluginManager::try_new().unwrap();
    mgr.eval(r#"(harness/register-command 42 "ok")"#).unwrap();
    mgr.eval(r#"(harness/register-command "name" 99)"#).unwrap();
    assert_eq!(mgr.list_commands().len(), 0);
}

#[test]
fn test_invoke_command_runs_handler_and_returns_output() {
    let mut mgr = PluginManager::try_new().unwrap();
    mgr.eval(r#"(defn greet [args] (string "hello " args))"#)
        .unwrap();
    let r = mgr.invoke_command("greet", "world").unwrap();
    assert_eq!(r, Some("hello world".to_string()));
}

#[test]
fn test_invoke_command_returns_none_for_nil_handler_output() {
    let mut mgr = PluginManager::try_new().unwrap();
    mgr.eval(r#"(defn quiet [args] nil)"#).unwrap();
    let r = mgr.invoke_command("quiet", "anything").unwrap();
    assert_eq!(r, None);
}

#[test]
fn test_invoke_unknown_handler_returns_none() {
    let mut mgr = PluginManager::try_new().unwrap();
    let r = mgr.invoke_command("nonexistent-fn", "args").unwrap();
    assert_eq!(r, None);
}

#[test]
fn test_register_provider_records_spec_without_env_override() {
    let mut mgr = PluginManager::try_new().unwrap();
    mgr.eval(r#"(harness/register-provider "local" "openai" "http://localhost:8000/v1")"#)
        .unwrap();
    let providers = mgr.list_providers();
    assert_eq!(
        providers,
        vec![(
            "local".to_string(),
            "openai".to_string(),
            "http://localhost:8000/v1".to_string(),
            None,
        )]
    );
}

#[test]
fn test_register_provider_with_env_override() {
    let mut mgr = PluginManager::try_new().unwrap();
    mgr.eval(
        r#"(harness/register-provider "vllm" "openai" "http://localhost:1234/v1" "VLLM_API_KEY")"#,
    )
    .unwrap();
    let providers = mgr.list_providers();
    assert_eq!(
        providers,
        vec![(
            "vllm".to_string(),
            "openai".to_string(),
            "http://localhost:1234/v1".to_string(),
            Some("VLLM_API_KEY".to_string()),
        )]
    );
}

#[test]
fn test_register_multiple_providers() {
    let mut mgr = PluginManager::try_new().unwrap();
    mgr.eval(r#"(harness/register-provider "a" "openai" "http://a")"#)
        .unwrap();
    mgr.eval(r#"(harness/register-provider "b" "anthropic" "http://b" "B_KEY")"#)
        .unwrap();
    let providers = mgr.list_providers();
    assert_eq!(providers.len(), 2);
    assert_eq!(providers[0].0, "a");
    assert_eq!(providers[1].0, "b");
    assert_eq!(providers[1].3, Some("B_KEY".to_string()));
}

#[test]
fn test_register_tool_records_spec_default_mode() {
    let mut mgr = PluginManager::try_new().unwrap();
    mgr.eval(
        r#"(harness/register-tool "echo" "Echo args back" "Echo"
                                       "{\"type\":\"object\"}" "echo-handler")"#,
    )
    .unwrap();
    let tools = mgr.list_plugin_tools();
    assert_eq!(tools.len(), 1);
    let t = &tools[0];
    assert_eq!(t.name, "echo");
    assert_eq!(t.description, "Echo args back");
    assert_eq!(t.label, "Echo");
    assert_eq!(t.parameters, "{\"type\":\"object\"}");
    assert_eq!(t.handler, "echo-handler");
    assert_eq!(t.execution_mode, None);
}

#[test]
fn test_register_tool_sequential_mode() {
    let mut mgr = PluginManager::try_new().unwrap();
    mgr.eval(r#"(harness/register-tool "mutate" "Side effects" "Mutate" "{}" "h" :sequential)"#)
        .unwrap();
    let tools = mgr.list_plugin_tools();
    assert_eq!(tools[0].execution_mode.as_deref(), Some("sequential"));
}

#[test]
fn test_register_tool_ignores_non_string_args() {
    let mut mgr = PluginManager::try_new().unwrap();
    mgr.eval(r#"(harness/register-tool 1 "d" "l" "{}" "h")"#)
        .unwrap();
    mgr.eval(r#"(harness/register-tool "n" 2 "l" "{}" "h")"#)
        .unwrap();
    mgr.eval(r#"(harness/register-tool "n" "d" "l" {} "h")"#)
        .unwrap();
    assert!(mgr.list_plugin_tools().is_empty());
}

#[test]
fn test_register_multiple_tools_round_trip_escapes() {
    let mut mgr = PluginManager::try_new().unwrap();
    mgr.eval(r#"(harness/register-tool "a" "first" "A" "{}" "ha")"#)
        .unwrap();
    mgr.eval(r#"(harness/register-tool "b" "with\ttab\nand newline" "B" "{\"x\":1}" "hb")"#)
        .unwrap();
    let tools = mgr.list_plugin_tools();
    assert_eq!(tools.len(), 2);
    assert_eq!(tools[0].name, "a");
    assert_eq!(tools[1].name, "b");
    assert_eq!(tools[1].description, "with\ttab\nand newline");
}

#[test]
fn test_invoke_plugin_tool_dispatches_to_handler() {
    let mut mgr = PluginManager::try_new().unwrap();
    mgr.eval(r#"(defn echo-handler [args] (string "got:" args))"#)
        .unwrap();
    let out = mgr
        .invoke_plugin_tool("echo-handler", r#"{"x":1}"#, "test-tc-1")
        .unwrap();
    assert_eq!(out, r#"got:{"x":1}"#);
}

#[test]
fn test_invoke_plugin_tool_propagates_handler_error() {
    let mut mgr = PluginManager::try_new().unwrap();
    mgr.eval(r#"(defn boom-handler [args] (error "kaboom"))"#)
        .unwrap();
    let err = mgr
        .invoke_plugin_tool("boom-handler", "{}", "test-tc-2")
        .unwrap_err();
    assert!(err.contains("kaboom"), "got: {err}");
}

#[test]
fn list_commands_dedups_last_wins() {
    let mut mgr = PluginManager::try_new().unwrap();
    mgr.eval(r#"(harness/register-command "echo" "h1")"#)
        .unwrap();
    mgr.eval(r#"(harness/register-command "echo" "h2")"#)
        .unwrap();
    let cmds = mgr.list_commands();
    assert_eq!(cmds.len(), 1);
    assert_eq!(cmds[0], ("echo".to_string(), "h2".to_string()));
}

#[test]
fn list_commands_round_trips_special_chars() {
    let mut mgr = PluginManager::try_new().unwrap();
    mgr.eval(r#"(harness/register-command "cmd|with|pipes" "h")"#)
        .unwrap();
    let cmds = mgr.list_commands();
    assert_eq!(cmds.len(), 1);
    assert_eq!(cmds[0].0, "cmd|with|pipes");
}

#[test]
fn list_providers_dedups_last_wins() {
    let mut mgr = PluginManager::try_new().unwrap();
    mgr.eval(r#"(harness/register-provider "local" "openai" "http://a")"#)
        .unwrap();
    mgr.eval(r#"(harness/register-provider "local" "anthropic" "http://b" "API_KEY")"#)
        .unwrap();
    let providers = mgr.list_providers();
    assert_eq!(providers.len(), 1);
    assert_eq!(providers[0].0, "local");
    assert_eq!(providers[0].1, "anthropic");
    assert_eq!(providers[0].2, "http://b");
    assert_eq!(providers[0].3, Some("API_KEY".to_string()));
}

#[test]
fn list_providers_round_trips_pipe_in_url() {
    let mut mgr = PluginManager::try_new().unwrap();
    mgr.eval(r#"(harness/register-provider "p" "openai" "http://x?a=1|b=2")"#)
        .unwrap();
    let providers = mgr.list_providers();
    assert_eq!(providers[0].2, "http://x?a=1|b=2");
}

#[test]
fn list_plugin_tools_drops_invalid_name_chars() {
    let mut mgr = PluginManager::try_new().unwrap();
    mgr.eval(r#"(harness/register-tool "good_name-1" "" "" "{}" "h")"#)
        .unwrap();
    mgr.eval(r#"(harness/register-tool "bad name" "" "" "{}" "h")"#)
        .unwrap();
    mgr.eval(r#"(harness/register-tool "with.dot" "" "" "{}" "h")"#)
        .unwrap();
    let tools = mgr.list_plugin_tools();
    assert_eq!(tools.len(), 1, "only the valid-charset name survives");
    assert_eq!(tools[0].name, "good_name-1");
}

#[test]
fn invoke_plugin_tool_sets_current_tool_call_slot() {
    let mut mgr = PluginManager::try_new().unwrap();
    mgr.eval(
        r#"(var --observed-tcid nil)
               (defn capturer [args]
                 (set --observed-tcid harness-current-tool-call)
                 "ok")"#,
    )
    .unwrap();
    mgr.invoke_plugin_tool("capturer", "{}", "tc-7").unwrap();
    let observed = mgr.eval("--observed-tcid").unwrap();
    assert_eq!(observed, "tc-7");
    let post = mgr.eval("harness-current-tool-call").unwrap();
    assert_eq!(post, "nil");
}

#[test]
fn invoke_plugin_tool_clears_slot_after_handler_error() {
    let mut mgr = PluginManager::try_new().unwrap();
    mgr.eval(r#"(defn bad [args] (error "kaboom"))"#).unwrap();
    let _ = mgr.invoke_plugin_tool("bad", "{}", "tc-9");
    let post = mgr.eval("harness-current-tool-call").unwrap();
    assert_eq!(post, "nil");
}

#[test]
fn emit_tool_progress_tags_entries_with_current_tool_call() {
    let mut mgr = PluginManager::try_new().unwrap();
    mgr.eval(
        r#"(defn worker [args]
                 (harness/emit-tool-progress "step 1")
                 (harness/emit-tool-progress "step 2")
                 "done")"#,
    )
    .unwrap();
    mgr.eval(r#"(harness/emit-tool-progress "dropped")"#)
        .unwrap();

    mgr.invoke_plugin_tool("worker", "{}", "tc-prog").unwrap();
    let drained = mgr.drain_tool_progress();
    assert_eq!(drained.len(), 2, "got: {drained:?}");
    assert_eq!(drained[0], ("tc-prog".to_string(), "step 1".to_string()));
    assert_eq!(drained[1], ("tc-prog".to_string(), "step 2".to_string()));

    assert!(mgr.drain_tool_progress().is_empty());
}

#[test]
fn test_register_tool_records_prepare_handler() {
    let mut mgr = PluginManager::try_new().unwrap();
    mgr.eval(r#"(harness/register-tool "t" "d" "L" "{}" "h" :parallel "my-prep")"#)
        .unwrap();
    let tools = mgr.list_plugin_tools();
    assert_eq!(tools.len(), 1);
    assert_eq!(tools[0].prepare_handler.as_deref(), Some("my-prep"));
}

#[test]
fn test_register_tool_without_prepare_handler_leaves_field_none() {
    let mut mgr = PluginManager::try_new().unwrap();
    mgr.eval(r#"(harness/register-tool "t" "d" "L" "{}" "h" :parallel)"#)
        .unwrap();
    mgr.eval(r#"(harness/register-tool "u" "d" "L" "{}" "h2")"#)
        .unwrap();
    let tools = mgr.list_plugin_tools();
    assert_eq!(tools.len(), 2);
    assert_eq!(tools[0].prepare_handler, None);
    assert_eq!(tools[1].prepare_handler, None);
}

#[test]
fn test_invoke_prepare_arguments_returns_handler_output() {
    let mut mgr = PluginManager::try_new().unwrap();
    mgr.eval(r#"(defn prep [args] (string "{\"normalized\":" args "}"))"#)
        .unwrap();
    let out = mgr.invoke_prepare_arguments("prep", r#"{"x":1}"#).unwrap();
    assert_eq!(out, Some(r#"{"normalized":{"x":1}}"#.to_string()));
}

#[test]
fn test_invoke_prepare_arguments_swallows_handler_error() {
    let mut mgr = PluginManager::try_new().unwrap();
    mgr.eval(r#"(defn boom [args] (error "kaboom"))"#).unwrap();
    let out = mgr.invoke_prepare_arguments("boom", "{}").unwrap();
    assert_eq!(out, None);
}

#[test]
fn test_invoke_prepare_arguments_non_string_return_swallows() {
    let mut mgr = PluginManager::try_new().unwrap();
    mgr.eval(r#"(defn t [args] @{:not "a-string"})"#).unwrap();
    let out = mgr.invoke_prepare_arguments("t", "{}").unwrap();
    assert_eq!(out, None);
}

#[test]
fn list_plugin_tools_dedups_last_wins() {
    let mut mgr = PluginManager::try_new().unwrap();
    mgr.eval(r#"(harness/register-tool "same" "v1" "L1" "{}" "h1")"#)
        .unwrap();
    mgr.eval(r#"(harness/register-tool "same" "v2" "L2" "{}" "h2")"#)
        .unwrap();
    let tools = mgr.list_plugin_tools();
    assert_eq!(tools.len(), 1, "duplicates should collapse to one entry");
    assert_eq!(tools[0].description, "v2");
    assert_eq!(tools[0].handler, "h2");
}

#[test]
fn list_plugin_tools_preserves_distinct_entries_while_deduping() {
    let mut mgr = PluginManager::try_new().unwrap();
    mgr.eval(r#"(harness/register-tool "a" "" "" "{}" "ha")"#)
        .unwrap();
    mgr.eval(r#"(harness/register-tool "b" "" "" "{}" "hb")"#)
        .unwrap();
    mgr.eval(r#"(harness/register-tool "a" "" "" "{}" "ha2")"#)
        .unwrap();
    let tools = mgr.list_plugin_tools();
    assert_eq!(tools.len(), 2);
    let a = tools.iter().find(|t| t.name == "a").unwrap();
    assert_eq!(a.handler, "ha2");
    let b = tools.iter().find(|t| t.name == "b").unwrap();
    assert_eq!(b.handler, "hb");
}

#[test]
fn list_shortcuts_dedups_last_wins() {
    let mut mgr = PluginManager::try_new().unwrap();
    mgr.eval(r#"(harness/register-shortcut "ctrl-x" "h1")"#)
        .unwrap();
    mgr.eval(r#"(harness/register-shortcut "ctrl-x" "h2" "second binding")"#)
        .unwrap();
    let shortcuts = mgr.list_shortcuts();
    assert_eq!(shortcuts.len(), 1);
    assert_eq!(shortcuts[0].handler, "h2");
    assert_eq!(shortcuts[0].description, "second binding");
}

#[test]
fn list_message_renderers_dedups_last_wins() {
    let mut mgr = PluginManager::try_new().unwrap();
    mgr.eval(r#"(harness/register-message-renderer "status" "r1")"#)
        .unwrap();
    mgr.eval(r#"(harness/register-message-renderer "status" "r2")"#)
        .unwrap();
    let r = mgr.list_message_renderers();
    assert_eq!(r.len(), 1);
    assert_eq!(r[0], ("status".to_string(), "r2".to_string()));
}

#[test]
fn invoke_command_surfaces_handler_errors_via_notification() {
    let mut mgr = PluginManager::try_new().unwrap();
    mgr.eval(r#"(defn boom [args] (error "intentional"))"#)
        .unwrap();
    let out = mgr.invoke_command("boom", "args").unwrap();
    assert_eq!(out, None, "handler error must return Ok(None)");

    let notifs = mgr.drain_notifications();
    assert_eq!(notifs.len(), 1);
    assert_eq!(notifs[0].0, "error");
    assert!(
        notifs[0].1.contains("command boom errored"),
        "got: {:?}",
        notifs[0].1
    );
    assert!(
        notifs[0].1.contains("intentional"),
        "got: {:?}",
        notifs[0].1
    );
}

#[test]
fn invoke_command_success_does_not_emit_notification() {
    let mut mgr = PluginManager::try_new().unwrap();
    mgr.eval(r#"(defn ok-cmd [args] (string "got: " args))"#)
        .unwrap();
    let out = mgr.invoke_command("ok-cmd", "hi").unwrap();
    assert_eq!(out, Some("got: hi".to_string()));
    assert!(mgr.drain_notifications().is_empty());
}

#[test]
fn add_custom_message_single_arg_form_is_backwards_compatible() {
    let mut mgr = PluginManager::try_new().unwrap();
    mgr.eval(r#"(harness/add-custom-message "hello")"#).unwrap();
    let drained = mgr.drain_custom_messages();
    assert_eq!(drained.len(), 1);
    assert_eq!(drained[0].custom_type, "");
    assert_eq!(drained[0].content, "hello");
    assert!(drained[0].display);
}

#[test]
fn add_custom_message_typed_form_carries_customtype() {
    let mut mgr = PluginManager::try_new().unwrap();
    mgr.eval(r#"(harness/add-custom-message "status" "build done")"#)
        .unwrap();
    let drained = mgr.drain_custom_messages();
    assert_eq!(drained.len(), 1);
    assert_eq!(drained[0].custom_type, "status");
    assert_eq!(drained[0].content, "build done");
    assert!(drained[0].display);
}

#[test]
fn add_custom_message_respects_display_false() {
    let mut mgr = PluginManager::try_new().unwrap();
    mgr.eval(r#"(harness/add-custom-message "telemetry" "x" false)"#)
        .unwrap();
    let drained = mgr.drain_custom_messages();
    assert_eq!(drained.len(), 1);
    assert!(!drained[0].display);
}

#[test]
fn add_custom_message_round_trips_embedded_separators() {
    let mut mgr = PluginManager::try_new().unwrap();
    mgr.eval(r#"(harness/add-custom-message "type\twith\ttabs" "line1\nline2")"#)
        .unwrap();
    let drained = mgr.drain_custom_messages();
    assert_eq!(drained.len(), 1);
    assert_eq!(drained[0].custom_type, "type\twith\ttabs");
    assert_eq!(drained[0].content, "line1\nline2");
}

#[test]
fn drain_custom_messages_clears_slot() {
    let mut mgr = PluginManager::try_new().unwrap();
    mgr.eval(r#"(harness/add-custom-message "a" "1")"#).unwrap();
    assert_eq!(mgr.drain_custom_messages().len(), 1);
    assert_eq!(mgr.drain_custom_messages().len(), 0);
}

#[test]
fn drain_steering_messages_round_trips_embedded_newlines() {
    let mut mgr = PluginManager::try_new().unwrap();
    mgr.eval(r#"(harness/add-steering "step 1\nstep 2")"#)
        .unwrap();
    let drained = mgr.drain_steering_messages();
    assert_eq!(drained.len(), 1);
    assert_eq!(drained[0], "step 1\nstep 2");
}

#[test]
fn drain_followup_messages_round_trips_embedded_newlines() {
    let mut mgr = PluginManager::try_new().unwrap();
    mgr.eval(r#"(harness/add-followup "do this\nthen that")"#)
        .unwrap();
    let drained = mgr.drain_followup_messages();
    assert_eq!(drained.len(), 1);
    assert_eq!(drained[0], "do this\nthen that");
}

#[test]
fn harness_log_queues_and_drains() {
    let mut mgr = PluginManager::try_new().unwrap();
    mgr.eval(r#"(harness/log "line one")"#).unwrap();
    mgr.eval(r#"(harness/log "with\nembedded")"#).unwrap();
    let drained = mgr.drain_log_messages();
    assert_eq!(
        drained,
        vec!["line one".to_string(), "with\nembedded".to_string()]
    );
    assert!(mgr.drain_log_messages().is_empty());
}

#[test]
fn test_register_message_renderer_records_pair() {
    let mut mgr = PluginManager::try_new().unwrap();
    mgr.eval(r#"(harness/register-message-renderer "status" "render-status")"#)
        .unwrap();
    let r = mgr.list_message_renderers();
    assert_eq!(r, vec![("status".to_string(), "render-status".to_string())]);
}

#[test]
fn test_register_message_renderer_multiple_in_load_order() {
    let mut mgr = PluginManager::try_new().unwrap();
    mgr.eval(r#"(harness/register-message-renderer "a" "ra")"#)
        .unwrap();
    mgr.eval(r#"(harness/register-message-renderer "b" "rb")"#)
        .unwrap();
    let r = mgr.list_message_renderers();
    assert_eq!(r.len(), 2);
    assert_eq!(r[0].0, "a");
    assert_eq!(r[1].0, "b");
}

#[test]
fn test_register_message_renderer_ignores_non_string_args() {
    let mut mgr = PluginManager::try_new().unwrap();
    mgr.eval(r#"(harness/register-message-renderer 1 "h")"#)
        .unwrap();
    mgr.eval(r#"(harness/register-message-renderer "t" :sym)"#)
        .unwrap();
    assert!(mgr.list_message_renderers().is_empty());
}

#[test]
fn test_invoke_message_renderer_dispatches() {
    let mut mgr = PluginManager::try_new().unwrap();
    mgr.eval(r#"(defn render-status [payload] (string ">>" payload))"#)
        .unwrap();
    let out = mgr
        .invoke_message_renderer("render-status", r#"{"type":"status","content":"ok"}"#)
        .unwrap();
    assert_eq!(out.unwrap(), r#">>{"type":"status","content":"ok"}"#);
}

#[test]
fn test_invoke_message_renderer_swallows_handler_error() {
    let mut mgr = PluginManager::try_new().unwrap();
    mgr.eval(r#"(defn boom [payload] (error "kaboom"))"#)
        .unwrap();
    let out = mgr.invoke_message_renderer("boom", "{}").unwrap();
    assert_eq!(out, None);
}

#[test]
fn test_register_shortcut_records_spec_and_description() {
    let mut mgr = PluginManager::try_new().unwrap();
    mgr.eval(r#"(harness/register-shortcut "ctrl-x" "save-handler" "Save buffer")"#)
        .unwrap();
    let shortcuts = mgr.list_shortcuts();
    assert_eq!(shortcuts.len(), 1);
    assert_eq!(shortcuts[0].keys, "ctrl-x");
    assert_eq!(shortcuts[0].handler, "save-handler");
    assert_eq!(shortcuts[0].description, "Save buffer");
}

#[test]
fn test_register_shortcut_description_optional() {
    let mut mgr = PluginManager::try_new().unwrap();
    mgr.eval(r#"(harness/register-shortcut "f5" "refresh")"#)
        .unwrap();
    let shortcuts = mgr.list_shortcuts();
    assert_eq!(shortcuts.len(), 1);
    assert!(shortcuts[0].description.is_empty());
}

#[test]
fn test_register_shortcut_ignores_non_string_args() {
    let mut mgr = PluginManager::try_new().unwrap();
    mgr.eval(r#"(harness/register-shortcut 42 "h")"#).unwrap();
    mgr.eval(r#"(harness/register-shortcut "f5" :sym)"#)
        .unwrap();
    assert!(mgr.list_shortcuts().is_empty());
}

#[test]
fn test_register_provider_ignores_non_string_args() {
    let mut mgr = PluginManager::try_new().unwrap();
    mgr.eval(r#"(harness/register-provider 42 "openai" "http://x")"#)
        .unwrap();
    mgr.eval(r#"(harness/register-provider "name" 99 "http://x")"#)
        .unwrap();
    mgr.eval(r#"(harness/register-provider "name" "openai" 0)"#)
        .unwrap();
    assert!(mgr.list_providers().is_empty());
}

#[test]
fn test_invoke_command_passes_escaped_args() {
    let mut mgr = PluginManager::try_new().unwrap();
    mgr.eval(r#"(defn echo [args] args)"#).unwrap();
    let r = mgr
        .invoke_command("echo", "he said \"hi\"\nline 2 \\ x")
        .unwrap();
    assert_eq!(r, Some("he said \"hi\"\nline 2 \\ x".to_string()));
}

#[test]
fn test_store_response_round_trips_via_harness_var() {
    let mut mgr = PluginManager::try_new().unwrap();
    mgr.store_response("the assistant said this");
    let read = mgr.eval("harness-response").unwrap();
    assert_eq!(read, "the assistant said this");
}

#[test]
fn test_store_response_escapes_special_chars() {
    let mut mgr = PluginManager::try_new().unwrap();
    mgr.store_response("line one\n\"quoted\"\nline three \\ backslash");
    let read = mgr.eval("harness-response").unwrap();
    assert_eq!(read, "line one\n\"quoted\"\nline three \\ backslash");
}

#[test]
fn test_append_entry_records_triple() {
    let mut mgr = PluginManager::try_new().unwrap();
    mgr.eval(r#"(harness/append-entry "bookmark" "label-one")"#)
        .unwrap();
    let entries = mgr.drain_entries();
    assert_eq!(
        entries,
        vec![("bookmark".to_string(), "label-one".to_string(), true)]
    );
    assert!(mgr.drain_entries().is_empty());
}

#[test]
fn test_append_entry_preserves_order_and_flag() {
    let mut mgr = PluginManager::try_new().unwrap();
    mgr.eval(r#"(harness/append-entry "a" "x" true)"#).unwrap();
    mgr.eval(r#"(harness/append-entry "b" "y" false)"#).unwrap();
    mgr.eval(r#"(harness/append-entry "c" "z")"#).unwrap();
    let entries = mgr.drain_entries();
    assert_eq!(
        entries,
        vec![
            ("a".to_string(), "x".to_string(), true),
            ("b".to_string(), "y".to_string(), false),
            ("c".to_string(), "z".to_string(), true),
        ]
    );
}

#[test]
fn test_append_entry_escapes_special_chars() {
    let mut mgr = PluginManager::try_new().unwrap();
    mgr.eval(r#"(harness/append-entry "json" "a\tb\nc\\d")"#)
        .unwrap();
    let entries = mgr.drain_entries();
    assert_eq!(entries.len(), 1);
    assert_eq!(entries[0].1, "a\tb\nc\\d");
}

#[test]
fn test_append_entry_ignores_non_string_args() {
    let mut mgr = PluginManager::try_new().unwrap();
    mgr.eval(r#"(harness/append-entry 42 "ok")"#).unwrap();
    mgr.eval(r#"(harness/append-entry "ok" 42)"#).unwrap();
    assert!(mgr.drain_entries().is_empty());
}

#[test]
fn test_register_renderer_records_pairs() {
    let mut mgr = PluginManager::try_new().unwrap();
    mgr.eval(r#"(harness/register-renderer "bookmark" "render-bookmark")"#)
        .unwrap();
    mgr.eval(r#"(harness/register-renderer "telemetry" "render-stat")"#)
        .unwrap();
    let renderers = mgr.list_renderers();
    assert!(renderers.contains(&("bookmark".to_string(), "render-bookmark".to_string())));
    assert!(renderers.contains(&("telemetry".to_string(), "render-stat".to_string())));
}

#[test]
fn list_renderers_round_trips_pipe_in_type_and_dedups_last_wins() {
    let mut mgr = PluginManager::try_new().unwrap();
    mgr.eval(r#"(harness/register-renderer "book|mark" "fn-a")"#)
        .unwrap();
    mgr.eval(r#"(harness/register-renderer "book|mark" "fn-b")"#)
        .unwrap();
    let r = mgr.list_renderers();
    assert_eq!(r.len(), 1);
    assert_eq!(r[0], ("book|mark".to_string(), "fn-b".to_string()));
}

#[test]
fn set_deny_tools_round_trips_quote_and_backslash_names() {
    let mut mgr = PluginManager::try_new().unwrap();
    let deny = vec![
        "he\"llo".to_string(),
        "ba\\ck".to_string(),
        "plain".to_string(),
    ];
    mgr.set_deny_tools_for_computer_use(&deny);
    let joined = mgr
        .eval(r#"(string/join (sorted (keys harness/computer-use-deny-tools)) "\n")"#)
        .unwrap();
    let mut got: Vec<&str> = joined.lines().collect();
    got.sort();
    assert_eq!(got, vec!["ba\\ck", "he\"llo", "plain"]);
}

#[test]
fn test_invoke_renderer_collects_render_lines() {
    let mut mgr = PluginManager::try_new().unwrap();
    mgr.eval(
        r#"(defn my-renderer [data]
                (harness/render :cyan (string "★ " data))
                (harness/render :white "details below"))"#,
    )
    .unwrap();
    let lines = mgr.invoke_renderer("my-renderer", "label").unwrap();
    assert_eq!(
        lines,
        vec![
            ("cyan".to_string(), "★ label".to_string()),
            ("white".to_string(), "details below".to_string()),
        ]
    );
}

#[test]
fn test_invoke_renderer_silent_handler_returns_empty() {
    let mut mgr = PluginManager::try_new().unwrap();
    mgr.eval(r#"(defn silent [data] nil)"#).unwrap();
    let lines = mgr.invoke_renderer("silent", "anything").unwrap();
    assert!(lines.is_empty());
}

#[test]
fn test_invoke_unknown_renderer_returns_empty() {
    let mut mgr = PluginManager::try_new().unwrap();
    let lines = mgr.invoke_renderer("nonexistent", "data").unwrap();
    assert!(lines.is_empty());
}

#[test]
fn test_invoke_renderer_resets_buffer_between_calls() {
    let mut mgr = PluginManager::try_new().unwrap();
    mgr.eval(
        r#"(defn one [data] (harness/render :red "from-one"))
               (defn two [data] (harness/render :blue "from-two"))"#,
    )
    .unwrap();
    let a = mgr.invoke_renderer("one", "x").unwrap();
    let b = mgr.invoke_renderer("two", "y").unwrap();
    assert_eq!(a, vec![("red".to_string(), "from-one".to_string())]);
    assert_eq!(b, vec![("blue".to_string(), "from-two".to_string())]);
}

#[test]
fn test_unescape_harness_field_roundtrips() {
    assert_eq!(unescape_harness_field("plain"), "plain");
    assert_eq!(unescape_harness_field("a\\tb"), "a\tb");
    assert_eq!(unescape_harness_field("a\\nb"), "a\nb");
    assert_eq!(unescape_harness_field("a\\\\b"), "a\\b");
    assert_eq!(
        unescape_harness_field("a\\\\b\\tc\\nd"),
        "a\\b\tc\nd"
    );
    assert_eq!(unescape_harness_field("a\\xb"), "a\\xb");
    assert_eq!(unescape_harness_field("a\\"), "a\\");
}

#[test]
fn harness_set_label_queues_op() {
    let mut mgr = PluginManager::try_new().unwrap();
    mgr.eval(r#"(harness/set-label "node-abc" "checkpoint")"#)
        .unwrap();
    let ops = mgr.drain_tree_ops();
    assert_eq!(
        ops,
        vec![TreeOp::SetLabel {
            id: "node-abc".to_string(),
            label: Some("checkpoint".to_string()),
        }]
    );
    assert!(mgr.drain_tree_ops().is_empty());
}

#[test]
fn harness_set_label_with_nil_clears() {
    let mut mgr = PluginManager::try_new().unwrap();
    mgr.eval(r#"(harness/set-label "node-abc" nil)"#).unwrap();
    let ops = mgr.drain_tree_ops();
    assert_eq!(
        ops,
        vec![TreeOp::SetLabel {
            id: "node-abc".to_string(),
            label: None,
        }]
    );
}

#[test]
fn harness_fork_defaults_to_restore_text() {
    let mut mgr = PluginManager::try_new().unwrap();
    mgr.eval(r#"(harness/fork "node-1")"#).unwrap();
    let ops = mgr.drain_tree_ops();
    assert_eq!(
        ops,
        vec![TreeOp::Fork {
            id: "node-1".to_string(),
            restore_text: true,
        }]
    );
}

#[test]
fn harness_fork_at_position_does_not_restore_text() {
    let mut mgr = PluginManager::try_new().unwrap();
    mgr.eval(r#"(harness/fork "node-1" :at)"#).unwrap();
    let ops = mgr.drain_tree_ops();
    assert_eq!(
        ops,
        vec![TreeOp::Fork {
            id: "node-1".to_string(),
            restore_text: false,
        }]
    );
}

#[test]
fn harness_navigate_tree_queues_op() {
    let mut mgr = PluginManager::try_new().unwrap();
    mgr.eval(r#"(harness/navigate-tree "tip")"#).unwrap();
    assert_eq!(
        mgr.drain_tree_ops(),
        vec![TreeOp::NavigateTree {
            id: "tip".to_string(),
        }]
    );
}

#[test]
fn harness_new_session_without_parent_has_none() {
    let mut mgr = PluginManager::try_new().unwrap();
    mgr.eval(r#"(harness/new-session)"#).unwrap();
    assert_eq!(
        mgr.drain_tree_ops(),
        vec![TreeOp::NewSession { parent: None }]
    );
}

#[test]
fn harness_new_session_with_parent_records_lineage() {
    let mut mgr = PluginManager::try_new().unwrap();
    mgr.eval(r#"(harness/new-session "prev-session-uuid")"#)
        .unwrap();
    assert_eq!(
        mgr.drain_tree_ops(),
        vec![TreeOp::NewSession {
            parent: Some("prev-session-uuid".to_string())
        }]
    );
}

#[test]
fn harness_switch_session_queues_op() {
    let mut mgr = PluginManager::try_new().unwrap();
    mgr.eval(r#"(harness/switch-session "abc12345")"#).unwrap();
    assert_eq!(
        mgr.drain_tree_ops(),
        vec![TreeOp::SwitchSession {
            id_prefix: "abc12345".to_string(),
        }]
    );
}

#[test]
fn drain_tree_ops_preserves_insertion_order() {
    let mut mgr = PluginManager::try_new().unwrap();
    mgr.eval(
        r#"(do
                 (harness/set-label "a" "first")
                 (harness/fork "b")
                 (harness/navigate-tree "c"))"#,
    )
    .unwrap();
    let ops = mgr.drain_tree_ops();
    assert_eq!(ops.len(), 3);
    assert!(matches!(&ops[0], TreeOp::SetLabel { id, .. } if id == "a"));
    assert!(matches!(&ops[1], TreeOp::Fork { id, .. } if id == "b"));
    assert!(matches!(&ops[2], TreeOp::NavigateTree { id, .. } if id == "c"));
}

#[test]
fn drain_tree_ops_unescapes_payload_chars() {
    let mut mgr = PluginManager::try_new().unwrap();
    mgr.eval(r#"(harness/set-label "id" "with\ttab\nnewline")"#)
        .unwrap();
    let ops = mgr.drain_tree_ops();
    assert_eq!(
        ops,
        vec![TreeOp::SetLabel {
            id: "id".to_string(),
            label: Some("with\ttab\nnewline".to_string()),
        }]
    );
}

#[test]
fn harness_tree_ops_reject_non_string_ids() {
    let mut mgr = PluginManager::try_new().unwrap();
    mgr.eval(r#"(harness/set-label 42 "label")"#).unwrap();
    mgr.eval(r#"(harness/fork nil)"#).unwrap();
    mgr.eval(r#"(harness/navigate-tree :keyword)"#).unwrap();
    assert!(mgr.drain_tree_ops().is_empty());
}

#[test]
fn drain_tree_ops_skips_unknown_op_verbs() {
    let mut mgr = PluginManager::try_new().unwrap();
    mgr.eval(r#"(set harness-tree-ops "future-op\tfoo\nset-label\tnode\tlbl\n")"#)
        .unwrap();
    let ops = mgr.drain_tree_ops();
    assert_eq!(ops.len(), 1);
    assert!(matches!(&ops[0], TreeOp::SetLabel { .. }));
}

#[test]
fn load_plugin_aliases_bare_hooks_to_stem_prefix() {
    let path = tmpfile("bare-aliased", r#"(defn on-prompt [ctx] "from-bare")"#);
    let mut mgr = PluginManager::try_new().unwrap();
    let loaded = load_plugin(&mut mgr, &path).unwrap();

    let stem = path.file_stem().unwrap().to_string_lossy().to_string();
    assert_eq!(loaded.stem, stem);
    assert!(loaded.hooks_registered.contains(&"on-prompt".to_string()));
    let out = mgr.dispatch("on-prompt", "@{:prompt \"x\"}").unwrap();
    assert_eq!(out, vec!["from-bare".to_string()]);
}

#[test]
fn load_plugin_isolates_bare_hooks_across_plugins() {
    let p1 = tmpfile("alpha-iso", r#"(defn on-prompt [ctx] "from-alpha")"#);
    let p2 = tmpfile("beta-iso", r#"(defn on-prompt [ctx] "from-beta")"#);
    let mut mgr = PluginManager::try_new().unwrap();
    load_plugin(&mut mgr, &p1).unwrap();
    load_plugin(&mut mgr, &p2).unwrap();
    let out = mgr.dispatch("on-prompt", "@{:prompt \"x\"}").unwrap();
    assert_eq!(out.len(), 2, "both plugins fire: {out:?}");
    assert!(out.contains(&"from-alpha".to_string()));
    assert!(out.contains(&"from-beta".to_string()));
}

#[test]
fn load_plugin_does_not_leak_bare_hook_to_later_plugin() {
    let p1 = tmpfile("alpha-leak", r#"(defn on-prompt [ctx] "from-alpha")"#);
    let p2 = tmpfile("beta-leak", r#"(defn on-response [ctx] "from-beta")"#);
    let mut mgr = PluginManager::try_new().unwrap();
    load_plugin(&mut mgr, &p1).unwrap();
    let beta = load_plugin(&mut mgr, &p2).unwrap();

    assert!(
        !beta.hooks_registered.contains(&"on-prompt".to_string()),
        "beta inherited alpha's bare on-prompt: {:?}",
        beta.hooks_registered
    );
    let out = mgr.dispatch("on-prompt", "@{:prompt \"x\"}").unwrap();
    assert_eq!(
        out,
        vec!["from-alpha".to_string()],
        "on-prompt double-fired: {out:?}"
    );
}

#[test]
fn dispatch_sanitizes_multi_line_and_tab_in_hook_errors() {
    let path = tmpfile(
        "multiline-err",
        r#"(defn on-prompt [ctx] (error "line one\nline two\tline three"))"#,
    );
    let mut mgr = PluginManager::try_new().unwrap();
    load_plugin(&mut mgr, &path).unwrap();

    let _ = mgr.dispatch("on-prompt", "@{:prompt \"x\"}").unwrap();
    let pending = mgr.drain_notifications();

    let err_entries: Vec<_> = pending.iter().filter(|(lvl, _)| lvl == "error").collect();
    assert_eq!(err_entries.len(), 1, "got entries: {:?}", pending);
    let (_, msg) = err_entries[0];
    assert!(msg.contains("line one"), "msg missing 'line one': {msg}");
    assert!(msg.contains("line two"), "msg missing 'line two': {msg}");
    assert!(
        msg.contains("line three"),
        "msg missing 'line three': {msg}"
    );
    assert!(!msg.contains('\n'), "msg leaked '\\n': {msg:?}");
    assert!(!msg.contains('\t'), "msg leaked '\\t': {msg:?}");
}

#[test]
fn dispatch_dedupes_consecutive_identical_hook_errors() {
    let path = tmpfile(
        "repeat-err",
        r#"(defn on-prompt [ctx] (error "always the same"))"#,
    );
    let mut mgr = PluginManager::try_new().unwrap();
    load_plugin(&mut mgr, &path).unwrap();

    for _ in 0..50 {
        let _ = mgr.dispatch("on-prompt", "@{:prompt \"x\"}").unwrap();
    }
    let pending = mgr.drain_notifications();

    let err_entries: Vec<_> = pending.iter().filter(|(lvl, _)| lvl == "error").collect();
    assert!(
        err_entries.len() <= 2,
        "expected dedup (≤2 error entries); got {}: {:?}",
        err_entries.len(),
        pending,
    );
    let combined: String = err_entries
        .iter()
        .map(|(l, m)| format!("{l}\t{m}"))
        .collect::<Vec<_>>()
        .join(" | ");
    assert!(
        combined.contains("always the same"),
        "msg dropped: {combined}",
    );
    assert!(
        combined.contains("(repeated 49 times)"),
        "expected the 49 that were actually coalesced; got: {combined}",
    );
}

#[test]
fn hook_error_repeat_count_excludes_the_one_already_shown() {
    let mut mgr = PluginManager::try_new().unwrap();
    for _ in 0..3 {
        mgr.eval(r#"(harness/push-hook-err "boom")"#).unwrap();
    }
    let pending = mgr.drain_notifications();
    assert_eq!(
        pending,
        vec![
            ("error".to_string(), "boom".to_string()),
            ("error".to_string(), "boom (repeated 2 times)".to_string()),
        ],
        "3 occurrences = 1 shown + 2 coalesced"
    );
}

#[test]
fn a_lone_hook_error_gets_no_repeat_summary() {
    let mut mgr = PluginManager::try_new().unwrap();
    mgr.eval(r#"(harness/push-hook-err "once")"#).unwrap();
    let pending = mgr.drain_notifications();
    assert_eq!(pending, vec![("error".to_string(), "once".to_string())]);
}

#[test]
fn a_hook_error_keeps_its_backslashes() {
    let mut mgr = PluginManager::try_new().unwrap();
    mgr.eval(r#"(harness/push-hook-err "cannot open C:\temp\build")"#)
        .unwrap();
    let pending = mgr.drain_notifications();
    assert_eq!(
        pending,
        vec![("error".to_string(), "cannot open C:\temp\x08uild".to_string())]
    );
}

#[test]
fn dispatch_distinct_hook_errors_are_not_deduped() {
    let path_a = tmpfile(
        "distinct-err-a",
        r#"(defn on-prompt [ctx] (error "alpha error"))"#,
    );
    let path_b = tmpfile(
        "distinct-err-b",
        r#"(defn on-response [ctx] (error "beta error"))"#,
    );
    let mut mgr = PluginManager::try_new().unwrap();
    load_plugin(&mut mgr, &path_a).unwrap();
    load_plugin(&mut mgr, &path_b).unwrap();

    let _ = mgr.dispatch("on-prompt", "@{:prompt \"x\"}").unwrap();
    let _ = mgr.dispatch("on-response", "@{:response \"y\"}").unwrap();
    let pending = mgr.drain_notifications();

    let combined: String = pending
        .iter()
        .map(|(l, m)| format!("{l}\t{m}"))
        .collect::<Vec<_>>()
        .join(" | ");
    assert!(combined.contains("alpha"), "alpha missing: {combined}");
    assert!(combined.contains("beta"), "beta missing: {combined}");
}

#[test]
fn dispatch_chat_surfaces_hook_errors_via_notification_queue() {
    let path = tmpfile("errored-hook", r#"(defn on-prompt [ctx] (error "boom"))"#);
    let mut mgr = PluginManager::try_new().unwrap();
    load_plugin(&mut mgr, &path).unwrap();

    let out = mgr.dispatch("on-prompt", "@{:prompt \"x\"}").unwrap();
    assert!(out.is_empty(), "errored hook should produce no result");

    let pending = mgr.drain_notifications();
    assert!(
        pending.iter().any(|(level, msg)| level == "error"
            && msg.contains("on-prompt")
            && msg.contains("boom")),
        "expected an error notification mentioning on-prompt and boom; got: {:?}",
        pending,
    );
}

#[test]
fn nrepl_plugin_reads_a_numeric_port_from_tool_args() {
    let mut mgr = nrepl_state_env();
    assert_eq!(
        mgr.eval(r#"(json-extract-scalar `{"port": 51208}` "port")"#)
            .unwrap(),
        "51208"
    );
    assert_eq!(
        mgr.eval(r#"(json-extract-scalar `{"port": "51208"}` "port")"#)
            .unwrap(),
        "51208"
    );
    assert_eq!(
        mgr.eval(r#"(json-extract-scalar `{"port": 7888, "host": "1.2.3.4"}` "port")"#)
            .unwrap(),
        "7888"
    );
    assert_eq!(
        mgr.eval(r#"(json-extract-scalar `{"host": "1.2.3.4"}` "port")"#)
            .unwrap(),
        "nil"
    );
}

#[test]
fn nrepl_plugin_extracts_string_args_with_escaped_quotes() {
    let mut mgr = nrepl_state_env();
    let extracted = mgr
        .eval(r#"(json-extract-string `{"code": "(str \"a\" \"b\")"}` "code")"#)
        .unwrap();
    assert_eq!(extracted, r#"(str "a" "b")"#);
    assert_ne!(extracted, r#"(str \"#);

    assert_eq!(
        mgr.eval(r#"(json-extract-string `{"code": "a\nb\tc\\d/e"}` "code")"#)
            .unwrap(),
        "a\nb\tc\\d/e"
    );

    assert_eq!(
        mgr.eval(r#"(json-extract-string `{"port": 51208}` "port")"#)
            .unwrap(),
        "nil"
    );
}

#[test]
fn nrepl_disconnected_message_does_not_tell_the_agent_to_run_a_slash_command() {
    let mut mgr = nrepl_state_env();
    let msg = mgr
        .eval(r#"(nrepl-not-connected-message "no .nrepl-port found")"#)
        .unwrap();
    assert!(
        !msg.contains("/nrepl-connect"),
        "the agent cannot run slash commands; message still points at one: {msg}"
    );
    assert!(
        msg.contains("nrepl_connect"),
        "message must name the tool the agent CAN call: {msg}"
    );
    assert!(msg.contains("no .nrepl-port found"), "cause dropped: {msg}");
}

#[test]
fn two_loaded_plugins_both_register_on_the_same_hook() {
    let first = tmpfile(
        "seam4-a",
        r#"(defn on-tool-start [ctx] (harness/notify "a-ran" :info))"#,
    );
    let second = tmpfile(
        "seam4-b",
        r#"(defn on-tool-start [ctx] (harness/notify "b-ran" :info))"#,
    );
    let mut mgr = PluginManager::try_new().unwrap();
    load_plugin(&mut mgr, &first).unwrap();
    load_plugin(&mut mgr, &second).unwrap();

    let registered = mgr.hooks.get("on-tool-start").cloned().unwrap_or_default();
    assert_eq!(
        registered.len(),
        2,
        "both plugins must be on the hook, got {registered:?}",
    );
    mgr.dispatch_tool_hook("on-tool-start", "@{}").unwrap();
    let msgs: Vec<String> = mgr
        .drain_notifications()
        .into_iter()
        .map(|(_, m)| m)
        .collect();
    assert_eq!(msgs.len(), 2, "both registrations must run: {msgs:?}");
}

#[test]
fn a_throwing_hook_does_not_prevent_the_next_plugin() {
    let mut mgr = PluginManager::try_new().unwrap();
    mgr.eval(r#"(defn boom [ctx] (error "kaboom"))"#).unwrap();
    mgr.eval(r#"(defn fine [ctx] (harness/notify "still-ran" :info))"#)
        .unwrap();
    mgr.register("on-tool-start", "boom");
    mgr.register("on-tool-start", "fine");

    mgr.dispatch_tool_hook("on-tool-start", "@{}")
        .expect("a throwing hook must not fail the dispatch");
    let msgs: Vec<String> = mgr
        .drain_notifications()
        .into_iter()
        .map(|(l, m)| format!("{l}:{m}"))
        .collect();
    assert!(
        msgs.iter().any(|m| m.contains("still-ran")),
        "the second plugin was skipped: {msgs:?}",
    );
    assert!(
        msgs.iter().any(|m| m.contains("kaboom")),
        "the error was swallowed instead of surfaced: {msgs:?}",
    );
}

#[test]
fn notebook_tool_state_persists_across_tool_calls() {
    let mut mgr = load_notebook_plugin();
    let session = "e2e-persist";
    let _ = mgr.invoke_plugin_tool(
        "notebook-reset-handler",
        &format!(r#"{{"session":"{session}"}}"#),
        "tc-reset",
    );

    let first = mgr
        .invoke_plugin_tool(
            "notebook-eval-handler",
            &format!(r#"{{"code":"(def carried 41)","session":"{session}"}}"#),
            "tc-1",
        )
        .expect("first cell");
    assert!(first.contains("=> 41"), "unexpected: {first}");

    let second = mgr
        .invoke_plugin_tool(
            "notebook-eval-handler",
            &format!(r#"{{"code":"(+ carried 1)","session":"{session}"}}"#),
            "tc-2",
        )
        .expect("second cell");
    assert!(
        second.contains("=> 42"),
        "state did not survive between tool calls: {second}"
    );
}

#[test]
fn notebook_tool_returns_printed_output() {
    let mut mgr = load_notebook_plugin();
    let out = mgr
        .invoke_plugin_tool(
            "notebook-eval-handler",
            r#"{"code":"(print \"intermediate\") :final","session":"e2e-print"}"#,
            "tc-print",
        )
        .unwrap();
    assert!(out.contains("intermediate"), "print output lost: {out}");
    assert!(out.contains("=> :final"), "value lost: {out}");
}

#[test]
fn notebook_tool_repairs_unbalanced_delimiters() {
    let mut mgr = load_notebook_plugin();
    let out = mgr
        .invoke_plugin_tool(
            "notebook-eval-handler",
            r#"{"code":"(+ 1 2","session":"e2e-repair"}"#,
            "tc-repair",
        )
        .unwrap();
    assert!(
        out.contains("=> 3"),
        "repair did not produce valid code: {out}"
    );
    assert!(
        out.contains("repaired unbalanced delimiters"),
        "repair not reported: {out}"
    );
}

#[test]
fn notebook_tool_reports_a_raising_cell_readably() {
    let mut mgr = load_notebook_plugin();
    let out = mgr
        .invoke_plugin_tool(
            "notebook-eval-handler",
            r#"{"code":"(error \"cell blew up\")","session":"e2e-err"}"#,
            "tc-err",
        )
        .expect("a raising cell is a result, not a host failure");
    assert!(out.contains("ERROR:"), "{out}");
    assert!(out.contains("cell blew up"), "{out}");
}

#[test]
fn notebook_tool_session_reset_clears_state() {
    let mut mgr = load_notebook_plugin();
    let session = "e2e-reset";
    mgr.invoke_plugin_tool(
        "notebook-eval-handler",
        &format!(r#"{{"code":"(def poisoned :bad)","session":"{session}"}}"#),
        "tc-a",
    )
    .unwrap();
    let reset = mgr
        .invoke_plugin_tool(
            "notebook-reset-handler",
            &format!(r#"{{"session":"{session}"}}"#),
            "tc-b",
        )
        .unwrap();
    assert!(reset.contains("cleared"), "{reset}");

    let after = mgr
        .invoke_plugin_tool(
            "notebook-eval-handler",
            &format!(r#"{{"code":"poisoned","session":"{session}"}}"#),
            "tc-c",
        )
        .unwrap();
    assert!(
        after.contains("ERROR:"),
        "state survived the reset: {after}"
    );
}

#[test]
fn notebook_tools_are_registered_with_a_persistence_contract() {
    let mut mgr = load_notebook_plugin();
    let tools = mgr.list_plugin_tools();
    let names: Vec<&str> = tools.iter().map(|t| t.name.as_str()).collect();
    assert!(names.contains(&"notebook_eval"), "got {names:?}");
    assert!(names.contains(&"notebook_reset"), "got {names:?}");

    let eval = tools.iter().find(|t| t.name == "notebook_eval").unwrap();
    assert!(
        eval.description.contains("PERSISTENT") && eval.description.contains("survives"),
        "description does not state that state persists: {}",
        eval.description
    );
    assert!(
        eval.description.contains("session"),
        "description does not explain session scoping: {}",
        eval.description
    );
}

#[test]
fn tool_bridge_symbols_are_defined() {
    let mut mgr = PluginManager::try_new().unwrap();
    for sym in ["harness/tools?", "harness/list-tools", "harness/call-tool"] {
        let result = mgr.eval(&format!("(harness/has-symbol? \"{sym}\")"));
        assert_eq!(result, Ok("true".to_string()), "{sym} must be defined");
    }
}

#[test]
fn tools_predicate_is_false_without_a_responder() {
    let mut mgr = PluginManager::try_new().unwrap();
    assert_eq!(mgr.eval("(harness/tools?)"), Ok("false".to_string()));
}

#[test]
fn list_tools_is_nil_without_a_responder() {
    let mut mgr = PluginManager::try_new().unwrap();
    assert_eq!(mgr.eval("(harness/list-tools)"), Ok("nil".to_string()));
}

#[test]
fn call_tool_is_nil_without_a_responder() {
    let mut mgr = PluginManager::try_new().unwrap();
    assert_eq!(
        mgr.eval("(harness/call-tool \"read\" \"{}\")"),
        Ok("nil".to_string())
    );
}

#[test]
fn call_tool_rejects_a_non_string_name() {
    let mut mgr = PluginManager::try_new().unwrap();
    assert!(mgr.eval("(harness/call-tool 42)").is_err());
}

#[test]
fn call_tool_rejects_non_string_args() {
    let mut mgr = PluginManager::try_new().unwrap();
    assert!(
        mgr.eval("(harness/call-tool \"read\" @{:path \"x\"})")
            .is_err()
    );
}

#[test]
fn call_tool_defaults_missing_args_to_empty_object() {
    let mut mgr = PluginManager::try_new().unwrap();
    assert_eq!(
        mgr.eval("(harness/call-tool \"read\")"),
        Ok("nil".to_string())
    );
}

#[test]
fn nrepl_timeout_is_not_retried_as_a_connection_error() {
    let mut mgr = nrepl_state_env();
    for msg in [
        "nREPL eval timed out after 3s",
        "timeout",
        "Runtime VM error: timeout",
    ] {
        assert_eq!(
            mgr.eval(&format!("(nrepl-connection-error? \"{msg}\")"))
                .unwrap(),
            "false",
            "{msg:?} must not be retried"
        );
    }
    for msg in [
        "nREPL connection closed by server",
        "broken pipe",
        "Connection reset by peer",
    ] {
        assert_eq!(
            mgr.eval(&format!("(nrepl-connection-error? \"{msg}\")"))
                .unwrap(),
            "true",
            "{msg:?} must be retried"
        );
    }
}

#[test]
fn nrepl_timeout_detection_is_precise() {
    let mut mgr = nrepl_state_env();
    for msg in [
        "nREPL eval timed out after 3s",
        "timeout",
        "Runtime VM error: timeout",
        "Execution error ... timeout",
    ] {
        assert_eq!(
            mgr.eval(&format!("(nrepl-timeout-error? \"{msg}\")"))
                .unwrap(),
            "true",
            "{msg:?} must be detected as a timeout"
        );
    }
    for msg in [
        "Execution error (ExceptionInfo) at user/eval (REPL:1). boom",
        "Syntax error compiling at (REPL:1:1). Unable to resolve symbol",
        "nREPL connection closed by server",
    ] {
        assert_eq!(
            mgr.eval(&format!("(nrepl-timeout-error? \"{msg}\")"))
                .unwrap(),
            "false",
            "{msg:?} is not a timeout and must not drop the connection"
        );
    }
}

#[test]
fn err_sentinel_is_stable_and_not_plugin_guessable() {
    let s = err_sentinel();
    assert_eq!(s, err_sentinel());
    assert!(s.starts_with("DIRGE_ERR_"));
    assert!(s.ends_with(':'));
    assert!(!s.contains("DIRGE_HOOK_ERR"));
    assert!(!s.contains("DIRGE_TOOL_ERR"));
}

#[test]
fn test_filter_existing_dirs() {
    let exists = "plugins".to_string();
    let missing = "plugins/does-not-exist".to_string();
    let kept = filter_existing_dirs(&vec![exists.clone(), missing.clone()], &vec![true, false]);
    assert_eq!(kept, vec![exists.clone()]);
    let none: Vec<String> = filter_existing_dirs(&vec![], &vec![]);
    assert!(none.is_empty());
}

/// A plugin with three hooks.
const TEST_PLUGIN: &str = r#"
    (defn on-init [ctx] (string "loaded with " (ctx :model)))
    (defn on-prompt [ctx]
      (if (string/find "hello" (ctx :prompt)) "greeting detected"))
    (defn on-response [ctx]
      (if (string/find "error" (ctx :response)) "error in response"))
"#;

#[test]
fn test_load_file() {
    let mut mgr = PluginManager::try_new().unwrap();
    mgr.load_source(TEST_PLUGIN).unwrap();
    mgr.register("on-init", "on-init");
    let result = mgr.dispatch("on-init", "@{:model \"test\"}").unwrap();
    assert_eq!(result.len(), 1);
    assert!(result[0].contains("loaded with test"));
}

#[test]
fn test_auto_discover_hooks() {
    let mut mgr = PluginManager::try_new().unwrap();
    mgr.load_source(TEST_PLUGIN).unwrap();

    let hook_names = [
        "on-init",
        "on-prompt",
        "on-response",
        "on-tool-start",
        "on-tool-end",
        "on-error",
        "on-complete",
    ];
    let mut found: i32 = 0;
    for hook in &hook_names {
        if mgr.has_symbol(hook) {
            mgr.register(hook, hook);
            found += 1;
        }
    }
    assert_eq!(found, 3, "should find on-init, on-prompt, on-response");

    assert!(!mgr.has_symbol("on-tool-start"));
    assert!(!mgr.has_symbol("totally-unknown-fn"));

    let r = mgr.dispatch("on-init", "@{:model \"test\"}").unwrap();
    assert_eq!(r.len(), 1);
    assert!(r[0].contains("loaded with test"));

    assert_eq!(
        mgr.dispatch("on-prompt", "@{:prompt \"hello world\"}")
            .unwrap(),
        vec!["greeting detected".to_string()]
    );

    assert!(
        mgr.dispatch("on-prompt", "@{:prompt \"goodbye\"}")
            .unwrap()
            .is_empty()
    );

    assert_eq!(
        mgr.dispatch("on-response", "@{:response \"error: panic\"}")
            .unwrap(),
        vec!["error in response".to_string()]
    );

    assert!(
        mgr.dispatch("on-tool-start", "@{:tool \"bash\"}")
            .unwrap()
            .is_empty()
    );
}

/// Three plugins: one registers a tool, one two shortcuts, one a renderer.
const EXAMPLE_PLUGINS: [&str; 3] = [
    r#"(defn echo-tool-handler [args] (string "echo received args: " args))
       (harness/register-tool "plugin_echo" "Echoes its arguments" "Plugin Echo"
                              "{\"type\":\"object\"}" "echo-tool-handler")"#,
    r#"(harness/register-shortcut "f5" "refresh-handler" "Refresh")
       (harness/register-shortcut "ctrl-s" "save-handler" "Save")"#,
    r#"(defn render-status [payload] (string "■ status from plugin: " payload))
       (harness/register-message-renderer "status" "render-status")"#,
];

#[test]
fn phase9_example_plugins_load_end_to_end() {
    let mut mgr = PluginManager::try_new().unwrap();
    for source in EXAMPLE_PLUGINS {
        mgr.load_source(source).unwrap();
    }

    let tools = mgr.list_plugin_tools();
    assert_eq!(tools.len(), 1);
    assert_eq!(tools[0].name, "plugin_echo");
    assert_eq!(tools[0].label, "Plugin Echo");
    assert_eq!(tools[0].handler, "echo-tool-handler");

    let out = mgr
        .invoke_plugin_tool("echo-tool-handler", r#"{"msg":"hi"}"#, "test-tc")
        .unwrap();
    assert_eq!(out, r#"echo received args: {"msg":"hi"}"#);

    let shortcuts = mgr.list_shortcuts();
    assert_eq!(shortcuts.len(), 2);
    let specs: Vec<_> = shortcuts.iter().map(|s| s.keys.as_str()).collect();
    assert!(specs.contains(&"f5"));
    assert!(specs.contains(&"ctrl-s"));

    let renderers = mgr.list_message_renderers();
    assert_eq!(
        renderers,
        vec![("status".to_string(), "render-status".to_string())]
    );

    mgr.eval(r#"(harness/add-custom-message "status" "build done")"#)
        .unwrap();
    let drained = mgr.drain_custom_messages();
    assert_eq!(drained.len(), 1);
    assert_eq!(drained[0].custom_type, "status");
    assert_eq!(drained[0].content, "build done");

    let resolved = mgr
        .render_message(&drained[0])
        .expect("display=true must resolve to Some");
    assert_eq!(resolved.label, "plugin:status");
    assert!(
        resolved.body.contains("\"customType\":\"status\""),
        "renderer must receive the full wrapper; got: {}",
        resolved.body,
    );
    assert!(
        resolved.body.contains("build done"),
        "renderer output must include content; got: {}",
        resolved.body,
    );
}

#[test]
fn test_plugin_provider_visible_through_resolve_provider_info() {
    let mut map = ProviderMap::new();
    map.insert(
        "test-plugin-provider".to_string(),
        ProviderEntry {
            provider_type: Some("openai".to_string()),
            base_url: Some("http://plugin-test.invalid/v1".to_string()),
            api_key_env: Some("PLUGIN_TEST_KEY".to_string()),
            allow_insecure: true,
            multimodal: None,
            ..Default::default()
        },
    );
    let mut plugins = PluginProviders::new();
    plugins.install_plugin_providers(map);

    let cfg_providers = ProviderMap::new();
    let info = plugins
        .resolve_provider_info("test-plugin-provider", &cfg_providers)
        .unwrap();
    assert_eq!(
        info.base_url.as_deref(),
        Some("http://plugin-test.invalid/v1"),
    );
    assert_eq!(info.api_key_env.as_deref(), Some("PLUGIN_TEST_KEY"));
}

#[test]
fn test_config_provider_overrides_plugin_provider() {
    let mut cfg_providers = ProviderMap::new();
    cfg_providers.insert(
        "shadowed".to_string(),
        ProviderEntry {
            provider_type: Some("openai".to_string()),
            base_url: Some("http://from-config".to_string()),
            allow_insecure: true,
            multimodal: None,
            ..Default::default()
        },
    );
    let mut plugins = PluginProviders::new();
    let mut map = ProviderMap::new();
    map.insert(
        "shadowed".to_string(),
        ProviderEntry {
            base_url: Some("https://from-plugin".to_string()),
            ..Default::default()
        },
    );
    plugins.install_plugin_providers(map);
    let info = plugins
        .resolve_provider_info("shadowed", &cfg_providers)
        .unwrap();
    assert_eq!(info.base_url.as_deref(), Some("http://from-config"));
}

#[test]
fn test_load_file_missing_path_returns_err() {
    let msg = read_failure(
        "/tmp/dirge-nonexistent-plugin.janet",
        "No such file or directory (os error 2)",
    );
    assert!(
        msg.contains("Failed to read plugin"),
        "error should identify the read failure, got {msg:?}"
    );
    assert!(msg.contains("/tmp/dirge-nonexistent-plugin.janet"));
    assert!(msg.contains("No such file or directory"));
}

#[test]
fn load_plugin_supports_directory_of_files() {
    let dir = Plugin::Dir(
        PathBuf::from("dirge-multifile-1"),
        vec![
            (
                "01-hooks.janet".to_string(),
                r#"(defn on-prompt [ctx]
                 (++ shared-counter)
                 (string "counter=" shared-counter))"#
                    .to_string(),
            ),
            ("00-state.janet".to_string(), r#"(var shared-counter 0)"#.to_string()),
            ("README.md".to_string(), "not plugin code".to_string()),
        ],
    );

    let mut mgr = PluginManager::try_new().unwrap();
    let loaded = load_plugin(&mut mgr, &dir).unwrap();

    assert_eq!(loaded.files.len(), 2);
    assert!(loaded.files[0].starts_with("00-"));
    assert!(loaded.stem.starts_with("dirge-multifile-"));
    let out = mgr.dispatch("on-prompt", "@{:prompt \"x\"}").unwrap();
    assert_eq!(out, vec!["counter=1".to_string()]);
    let out2 = mgr.dispatch("on-prompt", "@{:prompt \"x\"}").unwrap();
    assert_eq!(out2, vec!["counter=2".to_string()]);
}

#[test]
fn load_plugin_rejects_empty_directory() {
    let dir = Plugin::Dir(PathBuf::from("dirge-empty-plugin-1"), vec![]);
    let mut mgr = PluginManager::try_new().unwrap();
    let err = load_plugin(&mut mgr, &dir).unwrap_err();
    assert!(err.contains("no .janet files"), "got: {err}");
}

#[test]
fn nrepl_plugin_discovers_a_port_file_in_a_directory() {
    assert_eq!(nrepl::read_port(&None), None);
    assert_eq!(
        nrepl::read_port(&Some("51208\n".to_string())),
        Some("51208".to_string())
    );
    assert_eq!(nrepl::read_port(&Some("  \n".to_string())), None);
}

#[test]
fn nrepl_plugin_paren_repair_balances_delimiters() {
    let mut mgr = nrepl_state_env();

    assert_eq!(mgr.eval(r#"(paren-repair "(+ 1 2")"#).unwrap(), "(+ 1 2)");
    assert_eq!(
        mgr.eval(r#"(paren-repair "(defn f [x] {:a x")"#).unwrap(),
        "(defn f [x] {:a x})"
    );
    assert_eq!(
        mgr.eval(r#"(paren-repair "(+ 1 (* 2 3))")"#).unwrap(),
        "(+ 1 (* 2 3))"
    );
    assert_eq!(
        mgr.eval(r#"(paren-repair `(str ")")`)"#).unwrap(),
        r#"(str ")")"#
    );
}

#[test]
fn auto_confirm_yes_responds_true_and_first_option() {
    let reply = answer_dialog(
        AutoConfirmMode::Yes,
        &DialogRequest::Confirm { title: "t".into(), question: "q".into() },
    );
    match reply {
        DialogReply::Confirm(b) => assert!(b),
        other => panic!("expected Confirm(true), got {:?}", other),
    }

    let reply = answer_dialog(
        AutoConfirmMode::Yes,
        &DialogRequest::Select {
            title: "t".into(),
            options: vec!["alpha".into(), "beta".into()],
        },
    );
    match reply {
        DialogReply::Select(picked) => assert_eq!(picked.as_deref(), Some("alpha")),
        other => panic!("expected Select(Some(\"alpha\")), got {:?}", other),
    }
}

#[test]
fn auto_confirm_no_responds_false_and_none() {
    let reply = answer_dialog(
        AutoConfirmMode::No,
        &DialogRequest::Confirm { title: "t".into(), question: "q".into() },
    );
    match reply {
        DialogReply::Confirm(b) => assert!(!b),
        other => panic!("expected Confirm(false), got {:?}", other),
    }

    let reply = answer_dialog(
        AutoConfirmMode::No,
        &DialogRequest::Select {
            title: "t".into(),
            options: vec!["alpha".into(), "beta".into()],
        },
    );
    match reply {
        DialogReply::Select(picked) => assert_eq!(picked, None),
        other => panic!("expected Select(None), got {:?}", other),
    }
}

#[test]
fn plugin_code_gets_the_answers_to_its_questions() {
    let mut mgr = PluginManager::try_new().unwrap();
    assert_eq!(mgr.eval(r#"(harness/confirm "t" "q")"#), Ok("false".to_string()));
    assert_eq!(mgr.eval(r#"(harness/select "t" ["a" "b"])"#), Ok("nil".to_string()));
    mgr.answers = AutoConfirmMode::Yes;
    assert_eq!(mgr.eval(r#"(harness/confirm "t" "q")"#), Ok("true".to_string()));
    assert_eq!(mgr.eval(r#"(harness/select "t" ["a" "b"])"#), Ok("a".to_string()));
    assert_eq!(mgr.eval(r#"(harness/select "t" [])"#), Ok("nil".to_string()));
    assert_eq!(mgr.eval(r#"(harness/confirm 1 "q")"#), Ok("nil".to_string()));
    assert_eq!(mgr.eval(r#"(harness/select "t" [1 2])"#), Ok("nil".to_string()));
}

/// A plugin that asks for a loop of checks, on a keyword or by its settings.
const BACKPRESSURED: [(&str, &str); 2] = [
    (
        "00-state.janet",
        r#"(var bp-engaged false)
           (if (harness/plugin-auto-start?) (set bp-engaged true))
           (harness/register-command "backpressured" "bp-on")
           (harness/register-command "backpressured-off" "bp-off")
           (harness/register-command "backpressured-status" "bp-status")"#,
    ),
    (
        "01-hooks.janet",
        r#"(defn on-prompt [ctx]
             (if (string/find "backpressured" (ctx :prompt)) (set bp-engaged true))
             nil)
           (defn before-agent-start [ctx]
             (if bp-engaged
               (harness/append-system-prompt
                 "Run the backpressured loop.\n## Last step\nStop when all is green."))
             nil)"#,
    ),
];

#[test]
fn a_plugin_engages_by_its_keyword_or_by_its_settings() {
    let dir = Plugin::Dir(
        PathBuf::from("backpressured"),
        BACKPRESSURED.iter().map(|(n, c)| (n.to_string(), c.to_string())).collect(),
    );

    {
        let mut mgr = PluginManager::try_new().unwrap();
        load_plugin(&mut mgr, &dir).unwrap();
        assert_eq!(mgr.list_commands().len(), 3, "registers three commands");
        mgr.dispatch("on-prompt", "@{:prompt \"just a normal request\"}")
            .unwrap();
        mgr.dispatch("before-agent-start", "@{}").unwrap();
        assert!(
            mgr.take_system_prompt_append().is_none(),
            "stays off without the backpressure keyword",
        );
    }

    {
        let mut mgr = PluginManager::try_new().unwrap();
        load_plugin(&mut mgr, &dir).unwrap();
        mgr.dispatch("on-prompt", "@{:prompt \"do this backpressured\"}")
            .unwrap();
        mgr.dispatch("before-agent-start", "@{}").unwrap();
        let sp = mgr
            .take_system_prompt_append()
            .expect("engaged → injects a system prompt");
        assert!(sp.contains("backpressured loop"), "discipline present");
        assert!(sp.contains("## Last step"), "last section present");
    }

    {
        let mut mgr = PluginManager::try_new().unwrap();
        mgr.set_loading_plugin_config(/* enabled */ true, /* auto_start */ true);
        load_plugin(&mut mgr, &dir).unwrap();
        mgr.clear_loading_plugin_config();
        mgr.dispatch("before-agent-start", "@{}").unwrap();
        let sp = mgr
            .take_system_prompt_append()
            .expect("auto_start → discipline injected without the keyword");
        assert!(sp.contains("backpressured loop"), "discipline present");
    }
}

#[test]
fn a_plugin_reads_its_settings_only_while_it_is_loaded() {
    let mut mgr = PluginManager::try_new().unwrap();
    assert_eq!(mgr.eval("(harness/plugin-enabled?)"), Ok("nil".to_string()));
    assert_eq!(mgr.eval("(harness/plugin-auto-start?)"), Ok("nil".to_string()));
    mgr.set_loading_plugin_config(true, false);
    assert_eq!(mgr.eval("(harness/plugin-enabled?)"), Ok("true".to_string()));
    assert_eq!(mgr.eval("(harness/plugin-auto-start?)"), Ok("false".to_string()));
    mgr.clear_loading_plugin_config();
    assert_eq!(mgr.eval("(harness/plugin-enabled?)"), Ok("nil".to_string()));
}

#[test]
fn plugin_code_assigns_and_reads_the_queues() {
    let mut mgr = PluginManager::try_new().unwrap();
    mgr.eval(
        r#"(set harness-tree-ops "fork\ta\tat\n")
           (harness/fork "b")
           (set harness-notif-list "warn\tw\n")"#,
    )
    .unwrap();
    mgr.eval(r#"(harness/notify "n" :error)"#).unwrap();
    assert_eq!(
        mgr.eval("harness-tree-ops").unwrap(),
        "fork\ta\tat\nfork\tb\tbefore\n"
    );
    assert_eq!(
        mgr.drain_tree_ops(),
        vec![
            TreeOp::Fork { id: "a".to_string(), restore_text: false },
            TreeOp::Fork { id: "b".to_string(), restore_text: true },
        ]
    );
    assert_eq!(
        mgr.drain_notifications(),
        vec![
            ("warn".to_string(), "w".to_string()),
            ("error".to_string(), "n".to_string()),
        ]
    );
    assert_eq!(mgr.eval("harness-tree-ops").unwrap(), "");
    assert!(mgr.eval("(set harness-no-such-variable 1)").is_err());
}

#[test]
fn an_assignment_counts_although_the_source_raises_an_error() {
    let mut mgr = PluginManager::try_new().unwrap();
    assert!(mgr.eval(r#"(set harness-response "kept") (error "boom")"#).is_err());
    assert_eq!(mgr.eval("harness-response").unwrap(), "kept");
}

#[test]
fn a_load_stops_at_the_first_file_that_fails() {
    let dir = Plugin::Dir(
        PathBuf::from("broken"),
        vec![
            ("00.janet".to_string(), r#"(harness/log "first")"#.to_string()),
            ("01.janet".to_string(), r#"(error "bad file")"#.to_string()),
            ("02.janet".to_string(), r#"(harness/log "never")"#.to_string()),
        ],
    );
    let mut mgr = PluginManager::try_new().unwrap();
    assert_eq!(load_plugin(&mut mgr, &dir), Err("bad file".to_string()));
    assert_eq!(mgr.drain_log_messages(), vec!["first".to_string()]);
    assert!(mgr.hooks.is_empty());
}

#[test]
fn loads_of_the_notebook_plugin_do_not_add_up() {
    let first = load_notebook_plugin();
    let tools = first.list_plugin_tools();
    let commands = first.list_commands();
    let second = load_notebook_plugin();
    assert_eq!(second.list_plugin_tools(), tools);
    assert_eq!(second.list_commands(), commands);
    assert_eq!(first.list_plugin_tools(), tools);
    for hook in ["on-init", "on-prompt", "on-response"] {
        assert_eq!(first.hooks.handlers(hook), second.hooks.handlers(hook));
    }
}

#[test]
fn files_of_two_labels_are_kept_apart() {
    let (Plugin::File(a, one), Plugin::File(b, two)) =
        (tmpfile("alpha-iso", "(def a 1)"), tmpfile("beta-iso", "(def b 2)"))
    else {
        panic!("two files");
    };
    assert_ne!(a, b);
    assert_eq!((one.as_str(), two.as_str()), ("(def a 1)", "(def b 2)"));
}

#[test]
fn dropped_tools_are_told() {
    let mut mgr = PluginManager::try_new().unwrap();
    for source in [
        r#"(harness/register-tool "same" "v1" "" "{}" "h1")"#,
        r#"(harness/register-tool "bad name" "" "" "{}" "h")"#,
        r#"(harness/register-tool "same" "v2" "" "{}" "h2")"#,
        r#"(harness/register-tool "other" "" "" "{}" "h3")"#,
    ] {
        mgr.eval(source).unwrap();
    }
    let registries = &mgr.harness.registries;
    let refused: Vec<String> =
        registries.list_refused_tools().into_iter().map(|tool| tool.name).collect();
    assert_eq!(refused, vec!["bad name".to_string()]);
    assert_eq!(registries.list_replaced_tools(), vec!["same".to_string()]);
    assert_eq!(registries.list_plugin_tools().len(), 2);
}
