//! The Janet source that the host hands to the engine.
use vstd::prelude::*;

use crate::escape::janet_literal;

verus! {

/// A call of `handler` with one argument, which is source text itself.
pub open spec fn call_form(handler: Seq<char>, arg: Seq<char>) -> Seq<char> {
    "("@ + handler + " "@ + arg + ")"@
}

/// A call whose errors come back as text behind the sentinel.
pub open spec fn guarded_form(
    handler: Seq<char>,
    arg: Seq<char>,
    sentinel: Seq<char>,
) -> Seq<char> {
    "(try "@ + call_form(handler, arg) + " ([err] (string "@ + crate::escape::literal(sentinel)
        + " err)))"@
}

/// The question whether a symbol is bound.
pub open spec fn has_symbol_form(name: Seq<char>) -> Seq<char> {
    "(harness/has-symbol? "@ + crate::escape::literal(name) + ")"@
}

/// Binds `alias` to what `name` is bound to.
pub open spec fn alias_form(alias: Seq<char>, name: Seq<char>) -> Seq<char> {
    "(def "@ + alias + " "@ + name + ")"@
}

/// Removes the binding of a symbol.
pub open spec fn unbind_form(name: Seq<char>) -> Seq<char> {
    "(put (curenv) '"@ + name + " nil)"@
}

/// The texts as the source of literals, with a blank before each.
pub open spec fn spaced_literals(names: Seq<Seq<char>>) -> Seq<char>
    decreases names.len(),
{
    if names.len() == 0 {
        Seq::empty()
    } else {
        spaced_literals(names.drop_last()) + " "@ + crate::escape::literal(names.last())
    }
}

/// The source of a list of texts.
pub open spec fn list_form(names: Seq<Seq<char>>) -> Seq<char> {
    "["@ + spaced_literals(names) + "]"@
}

/// Makes the names the set of tools that computer use may not call.
pub open spec fn deny_tools_form(names: Seq<Seq<char>>) -> Seq<char> {
    "(set harness/computer-use-deny-tools (tabseq [name :in "@ + list_form(names)
        + "] name true))"@
}

/// Writes a guarded call.
pub fn guarded_source(handler: &str, arg: &str, sentinel: &str) -> (out: String)
    ensures
        out@ == guarded_form(handler@, arg@, sentinel@),
{
    let mut out = "(try (".to_owned();
    out.append(handler);
    out.append(" ");
    out.append(arg);
    out.append(") ([err] (string ");
    out.append(janet_literal(sentinel).as_str());
    out.append(" err)))");
    proof {
        reveal_strlit("(try (");
        reveal_strlit("(try ");
        reveal_strlit("(");
        reveal_strlit(") ([err] (string ");
        reveal_strlit(" ([err] (string ");
        reveal_strlit(")");
        assert("(try ("@ =~= "(try "@ + "("@);
        assert(") ([err] (string "@ =~= ")"@ + " ([err] (string "@);
        assert(out@ =~= guarded_form(handler@, arg@, sentinel@));
    }
    out
}

/// Writes the question whether a symbol is bound.
pub fn has_symbol_source(name: &str) -> (out: String)
    ensures
        out@ == has_symbol_form(name@),
{
    let mut out = "(harness/has-symbol? ".to_owned();
    out.append(janet_literal(name).as_str());
    out.append(")");
    out
}

/// Writes a definition of one symbol by another.
pub fn alias_source(alias: &str, name: &str) -> (out: String)
    ensures
        out@ == alias_form(alias@, name@),
{
    let mut out = "(def ".to_owned();
    out.append(alias);
    out.append(" ");
    out.append(name);
    out.append(")");
    out
}

/// Writes the removal of a binding.
pub fn unbind_source(name: &str) -> (out: String)
    ensures
        out@ == unbind_form(name@),
{
    let mut out = "(put (curenv) '".to_owned();
    out.append(name);
    out.append(" nil)");
    out
}

/// Writes the assignment of the tools that computer use may not call.
pub fn deny_tools_source(names: &Vec<String>) -> (out: String)
    ensures
        out@ == deny_tools_form(names.deep_view()),
{
    let mut list = "[".to_owned();
    let mut i: usize = 0;
    assert(names.deep_view().take(0) =~= Seq::empty());
    assert(list@ =~= "["@ + spaced_literals(names.deep_view().take(0)));
    while i < names.len()
        invariant
            i <= names@.len(),
            list@ == "["@ + spaced_literals(names.deep_view().take(i as int)),
        decreases names@.len() - i,
    {
        list.append(" ");
        list.append(janet_literal(names[i].as_str()).as_str());
        assert(names.deep_view().take(i + 1).drop_last() =~= names.deep_view().take(i as int));
        assert(names.deep_view().take(i + 1).last() == names@[i as int]@);
        assert(list@ =~= "["@ + spaced_literals(names.deep_view().take(i + 1)));
        i = i + 1;
    }
    assert(names.deep_view().take(i as int) =~= names.deep_view());
    list.append("]");
    let mut out = "(set harness/computer-use-deny-tools (tabseq [name :in ".to_owned();
    out.append(list.as_str());
    out.append("] name true))");
    out
}

/// Reads the literals behind the opening bracket of a list: the texts and the
/// source behind the closing bracket. `None` where anything but literals, each
/// after one blank, stands between the brackets.
pub open spec fn read_list(s: Seq<char>, fuel: nat) -> Option<(Seq<Seq<char>>, Seq<char>)>
    decreases fuel,
{
    if fuel == 0 || s.len() == 0 {
        None
    } else if s[0] == ']' {
        Some((Seq::empty(), s.skip(1)))
    } else if s.len() >= 2 && s[0] == ' ' && s[1] == '"' {
        match crate::escape::read_literal(s.skip(2)) {
            Some((text, rest)) => match read_list(rest, (fuel - 1) as nat) {
                Some((texts, end)) => Some((seq![text] + texts, end)),
                None => None,
            },
            None => None,
        }
    } else {
        None
    }
}

proof fn lemma_read_spaced(names: Seq<Seq<char>>, tail: Seq<char>, fuel: nat)
    requires
        fuel >= names.len(),
    ensures
        read_list(spaced_literals(names) + tail, fuel) == (match read_list(
            tail,
            (fuel - names.len()) as nat,
        ) {
            Some((texts, end)) => Some((names + texts, end)),
            None => None,
        }),
    decreases names.len(),
{
    if names.len() == 0 {
        assert(spaced_literals(names) + tail =~= tail);
        if let Some((texts, end)) = read_list(tail, fuel) {
            assert(names + texts =~= texts);
        }
    } else {
        reveal_strlit(" ");
        let name = names.last();
        let item = " "@ + crate::escape::literal(name);
        let src = item + tail;
        let left = (fuel - (names.len() - 1)) as nat;
        lemma_read_spaced(names.drop_last(), src, fuel);
        assert(spaced_literals(names) + tail =~= spaced_literals(names.drop_last()) + src);
        crate::escape::lemma_literal_round_trip(name, tail);
        assert(src.skip(2) =~= (crate::escape::literal(name) + tail).skip(1));
        assert(src[0] == ' ');
        assert(src[1] == '"');
        if let Some((texts, end)) = read_list(tail, (left - 1) as nat) {
            assert(names.drop_last() + (seq![name] + texts) =~= names + texts);
        }
    }
}

/// A list of texts in source is read back as those texts, whatever quotes and
/// backslashes they hold, and ends where its source ends.
pub proof fn lemma_list_round_trip(names: Seq<Seq<char>>, rest: Seq<char>)
    ensures
        read_list((list_form(names) + rest).skip(1), names.len() + 1) == Some((names, rest)),
        list_form(names)[0] == '[',
{
    reveal_strlit("[");
    reveal_strlit("]");
    let tail = "]"@ + rest;
    assert((list_form(names) + rest).skip(1) =~= spaced_literals(names) + tail);
    lemma_read_spaced(names, tail, names.len() + 1);
    assert(tail.skip(1) =~= rest);
    assert(names + Seq::<Seq<char>>::empty() =~= names);
}

/// The symbol that is asked for is the one that was named, whatever
/// characters the name holds.
pub proof fn lemma_symbol_question_round_trip(name: Seq<char>)
    ensures
        ({
            let head = "(harness/has-symbol? "@;
            let whole = has_symbol_form(name);
            &&& whole == head + (crate::escape::literal(name) + ")"@)
            &&& crate::escape::read_literal(whole.skip(1 + head.len() as int)) == Some((name, ")"@))
        }),
{
    let head = "(harness/has-symbol? "@;
    let whole = has_symbol_form(name);
    assert(whole =~= head + (crate::escape::literal(name) + ")"@));
    crate::escape::lemma_literal_round_trip(name, ")"@);
    assert(whole.skip(1 + head.len() as int) =~= (crate::escape::literal(name) + ")"@).skip(1));
}

// ---------------------------------------------------------------------
// Symbols
// ---------------------------------------------------------------------

/// Whether a character may stand in a symbol of Janet: letters and digits, the
/// marks that Janet lists, and everything outside ASCII.
pub open spec fn symbol_char(c: char) -> bool {
    ('a' <= c && c <= 'z') || ('A' <= c && c <= 'Z') || ('0' <= c && c <= '9') || c == '!' || c
        == '$' || c == '%' || c == '&' || c == '*' || c == '+' || c == '-' || c == '.' || c == '/'
        || c == ':' || c == '<' || c == '=' || c == '>' || c == '?' || c == '@' || c == '^' || c
        == '_' || c as int >= 0x80
}

/// Whether a number may begin with `c` once a sign or a point was read.
pub open spec fn numeric_char(c: char) -> bool {
    ('0' <= c && c <= '9') || c == '.' || c == '_'
}

/// Whether Janet reads a text as one symbol. A text that begins with a digit is
/// none, and one that begins with a colon is a keyword. One that begins with a
/// sign or a point and goes on like a number may be a number, and is left out.
pub open spec fn is_symbol(s: Seq<char>) -> bool {
    &&& s.len() > 0
    &&& forall|i: int| 0 <= i < s.len() ==> symbol_char(#[trigger] s[i])
    &&& !('0' <= s[0] && s[0] <= '9')
    &&& s[0] != ':'
    &&& (s[0] == '+' || s[0] == '-' || s[0] == '.') && s.len() > 1 ==> !numeric_char(s[1])
    &&& s != "nil"@
    &&& s != "true"@
    &&& s != "false"@
}

/// How many characters of symbols source begins with.
pub open spec fn token_len(s: Seq<char>) -> nat
    decreases s.len(),
{
    if s.len() == 0 || !symbol_char(s[0]) {
        0
    } else {
        1 + token_len(s.skip(1))
    }
}

/// The symbol that source begins with, and the source behind it.
pub open spec fn read_symbol(s: Seq<char>) -> Option<(Seq<char>, Seq<char>)> {
    let end = token_len(s) as int;
    if is_symbol(s.take(end)) {
        Some((s.take(end), s.skip(end)))
    } else {
        None
    }
}

proof fn lemma_token_len(name: Seq<char>, rest: Seq<char>)
    requires
        forall|i: int| 0 <= i < name.len() ==> symbol_char(#[trigger] name[i]),
        rest.len() == 0 || !symbol_char(rest[0]),
    ensures
        token_len(name + rest) == name.len(),
    decreases name.len(),
{
    if name.len() == 0 {
        assert(name + rest =~= rest);
    } else {
        assert(symbol_char(name[0]));
        assert((name + rest).skip(1) =~= name.skip(1) + rest);
        lemma_token_len(name.skip(1), rest);
    }
}

/// A symbol that is spliced into source reads back as that symbol, where no
/// character of symbols stands behind it.
pub proof fn lemma_symbol_round_trip(name: Seq<char>, rest: Seq<char>)
    requires
        is_symbol(name),
        rest.len() == 0 || !symbol_char(rest[0]),
    ensures
        read_symbol(name + rest) == Some((name, rest)),
{
    lemma_token_len(name, rest);
    assert((name + rest).take(name.len() as int) =~= name);
    assert((name + rest).skip(name.len() as int) =~= rest);
}

/// Reads the definition of a symbol by another: the new symbol and the old one.
pub open spec fn read_alias(s: Seq<char>) -> Option<(Seq<char>, Seq<char>)> {
    if !"(def "@.is_prefix_of(s) {
        None
    } else {
        match read_symbol(s.skip("(def "@.len() as int)) {
            Some((alias, rest)) => if rest.len() == 0 || rest[0] != ' ' {
                None
            } else {
                match read_symbol(rest.skip(1)) {
                    Some((name, end)) => if end == ")"@ {
                        Some((alias, name))
                    } else {
                        None
                    },
                    None => None,
                }
            },
            None => None,
        }
    }
}

/// Reads the removal of a binding: the symbol.
pub open spec fn read_unbind(s: Seq<char>) -> Option<Seq<char>> {
    if !"(put (curenv) '"@.is_prefix_of(s) {
        None
    } else {
        match read_symbol(s.skip("(put (curenv) '"@.len() as int)) {
            Some((name, rest)) => if rest == " nil)"@ {
                Some(name)
            } else {
                None
            },
            None => None,
        }
    }
}

/// The definition of one symbol by another reads back as that definition.
pub proof fn lemma_alias_round_trip(alias: Seq<char>, name: Seq<char>)
    requires
        is_symbol(alias),
        is_symbol(name),
    ensures
        read_alias(alias_form(alias, name)) == Some((alias, name)),
{
    reveal_strlit(" ");
    reveal_strlit(")");
    let head = "(def "@;
    let whole = alias_form(alias, name);
    let rest = " "@ + name + ")"@;
    assert(whole =~= head + (alias + rest));
    assert(head =~= whole.take(head.len() as int));
    assert(whole.skip(head.len() as int) =~= alias + rest);
    assert(rest[0] == ' ');
    lemma_symbol_round_trip(alias, rest);
    assert(rest.skip(1) =~= name + ")"@);
    lemma_symbol_round_trip(name, ")"@);
}

/// The removal of a binding reads back as that removal, and not as a
/// definition.
pub proof fn lemma_unbind_round_trip(name: Seq<char>)
    requires
        is_symbol(name),
    ensures
        read_unbind(unbind_form(name)) == Some(name),
        read_alias(unbind_form(name)) is None,
{
    reveal_strlit(" nil)");
    reveal_strlit("(def ");
    reveal_strlit("(put (curenv) '");
    let head = "(put (curenv) '"@;
    let whole = unbind_form(name);
    assert(whole =~= head + (name + " nil)"@));
    assert(head =~= whole.take(head.len() as int));
    assert(whole.skip(head.len() as int) =~= name + " nil)"@);
    lemma_symbol_round_trip(name, " nil)"@);
    assert(whole[1] == 'p');
    assert("(def "@[1] == 'd');
}

/// A guarded call is one form: the handler with its argument, and behind it what
/// tags an error with the sentinel. Both stand in it as they were given.
pub proof fn lemma_guarded_call_holds_its_parts(
    handler: Seq<char>,
    arg: Seq<char>,
    sentinel: Seq<char>,
)
    ensures
        ({
            let call = "(try ("@ + handler + " "@ + arg + ")"@;
            let tag = " ([err] (string "@;
            let whole = guarded_form(handler, arg, sentinel);
            &&& (call + tag).is_prefix_of(whole)
            &&& whole[call.len() as int + tag.len()] == '"'
            &&& crate::escape::read_literal(whole.skip(1 + call.len() as int + tag.len())) == Some(
                (sentinel, " err)))"@),
            )
        }),
{
    reveal_strlit("(try (");
    reveal_strlit("(try ");
    reveal_strlit("(");
    let call = "(try ("@ + handler + " "@ + arg + ")"@;
    let tag = " ([err] (string "@;
    let tail = crate::escape::literal(sentinel) + " err)))"@;
    let whole = guarded_form(handler, arg, sentinel);
    assert("(try ("@ =~= "(try "@ + "("@);
    assert(whole =~= call + tag + tail);
    assert((call + tag) =~= whole.take((call + tag).len() as int));
    crate::escape::lemma_literal_round_trip(sentinel, " err)))"@);
    assert(whole[call.len() as int + tag.len()] == crate::escape::literal(sentinel)[0]);
    assert(whole.skip(1 + call.len() as int + tag.len()) =~= tail.skip(1));
}

/// The tools that computer use may not call stand in the assignment as a list
/// that reads back as those names.
pub proof fn lemma_denied_tools_read_back(names: Seq<Seq<char>>)
    ensures
        ({
            let head = "(set harness/computer-use-deny-tools (tabseq [name :in "@;
            let whole = deny_tools_form(names);
            &&& head.is_prefix_of(whole)
            &&& whole[head.len() as int] == '['
            &&& read_list(whole.skip(1 + head.len() as int), names.len() + 1) == Some(
                (names, "] name true))"@),
            )
        }),
{
    let head = "(set harness/computer-use-deny-tools (tabseq [name :in "@;
    reveal_strlit("[");
    let tail = "] name true))"@;
    let whole = deny_tools_form(names);
    lemma_list_round_trip(names, tail);
    assert(whole =~= head + (list_form(names) + tail));
    assert(head =~= whole.take(head.len() as int));
    assert(whole[head.len() as int] == (list_form(names) + tail)[0]);
    assert(whole.skip(1 + head.len() as int) =~= (list_form(names) + tail).skip(1));
}

} // verus!
