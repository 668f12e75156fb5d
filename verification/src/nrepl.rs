//! Helpers of the nREPL bridge: repair of code, arguments in JSON, what error
//! messages mean, and the manager that has the bridge's own helpers alone.
use vstd::prelude::*;

use crate::json::read_json_text;
use crate::manager::PluginManager;
use crate::reply::Reply;
use crate::text::{chars_of, string_of};

verus! {

// ---------------------------------------------------------------------
// Repair of unbalanced delimiters
// ---------------------------------------------------------------------

/// The delimiter that closes `c`, where `c` opens one.
pub open spec fn closer(c: char) -> Option<char> {
    if c == '(' {
        Some(')')
    } else if c == '[' {
        Some(']')
    } else if c == '{' {
        Some('}')
    } else {
        None
    }
}

/// Where a reader of code stands: the closing delimiters that are due, the
/// next one last, and whether it is inside a string, or behind a backslash
/// there.
pub struct Scan {
    pub due: Seq<char>,
    pub in_string: bool,
    pub escaped: bool,
}

/// The reader after one more character. Inside a string only its end counts.
/// A closing delimiter counts where it is the one that is due.
pub open spec fn step(scan: Scan, c: char) -> Scan {
    if scan.in_string {
        if scan.escaped {
            Scan { escaped: false, ..scan }
        } else if c == '\\' {
            Scan { escaped: true, ..scan }
        } else if c == '"' {
            Scan { in_string: false, ..scan }
        } else {
            scan
        }
    } else if c == '"' {
        Scan { in_string: true, ..scan }
    } else if closer(c) is Some {
        Scan { due: scan.due.push(closer(c)->0), ..scan }
    } else if scan.due.len() > 0 && scan.due.last() == c {
        Scan { due: scan.due.drop_last(), ..scan }
    } else {
        scan
    }
}

/// The reader after some code.
pub open spec fn scanned(code: Seq<char>) -> Scan
    decreases code.len(),
{
    if code.len() == 0 {
        Scan { due: Seq::empty(), in_string: false, escaped: false }
    } else {
        step(scanned(code.drop_last()), code.last())
    }
}

/// Code with the closing delimiters that it lacks, innermost first. Code that
/// ends inside a string stays as it is.
pub open spec fn repaired(code: Seq<char>) -> Seq<char> {
    if scanned(code).in_string {
        code
    } else {
        code + scanned(code).due.reverse()
    }
}

fn closer_of(c: char) -> (out: Option<char>)
    ensures
        out == closer(c),
{
    if c == '(' {
        Some(')')
    } else if c == '[' {
        Some(']')
    } else if c == '{' {
        Some('}')
    } else {
        None
    }
}

/// Adds the closing delimiters that code lacks.
pub fn paren_repair(code: &str) -> (out: String)
    ensures
        out@ == repaired(code@),
{
    let chars = chars_of(code);
    let mut due: Vec<char> = Vec::new();
    let mut in_string = false;
    let mut escaped = false;
    let mut i: usize = 0;
    assert(chars@.take(0) =~= Seq::<char>::empty());
    while i < chars.len()
        invariant
            i <= chars@.len(),
            scanned(chars@.take(i as int)) == (Scan { due: due@, in_string, escaped }),
        decreases chars@.len() - i,
    {
        let c = chars[i];
        assert(chars@.take(i + 1).drop_last() =~= chars@.take(i as int));
        assert(chars@.take(i + 1).last() == c);
        if in_string {
            if escaped {
                escaped = false;
            } else if c == '\\' {
                escaped = true;
            } else if c == '"' {
                in_string = false;
            }
        } else if c == '"' {
            in_string = true;
        } else {
            match closer_of(c) {
                Some(end) => {
                    due.push(end);
                },
                None => {
                    if due.len() > 0 && due[due.len() - 1] == c {
                        let ghost before = due@;
                        due.pop();
                        assert(due@ =~= before.drop_last());
                    }
                },
            }
        }
        i = i + 1;
    }
    assert(chars@.take(i as int) =~= chars@);
    let mut out = code.to_owned();
    if !in_string {
        let mut left: usize = due.len();
        assert(code@ + due@.reverse().take(0) =~= code@);
        while left > 0
            invariant
                left <= due@.len(),
                out@ == code@ + due@.reverse().take(due@.len() - left),
            decreases left,
        {
            assert(due@.reverse()[due@.len() - left] == due@[left - 1]);
            out.push(due[left - 1]);
            assert(out@ =~= code@ + due@.reverse().take(due@.len() - left + 1));
            left = left - 1;
        }
        assert(due@.reverse().take(due@.len() as int) =~= due@.reverse());
    }
    out
}

proof fn lemma_scanned_append(a: Seq<char>, b: Seq<char>)
    requires
        b.len() > 0,
    ensures
        scanned(a + b) == step(scanned(a + b.drop_last()), b.last()),
{
    assert((a + b).drop_last() =~= a + b.drop_last());
}

proof fn lemma_due_are_closers(code: Seq<char>, i: int)
    requires
        0 <= i < scanned(code).due.len(),
    ensures
        ({
            let c = scanned(code).due[i];
            c == ')' || c == ']' || c == '}'
        }),
    decreases code.len(),
{
    if code.len() > 0 {
        let before = scanned(code.drop_last()).due;
        let after = scanned(code).due;
        if i < before.len() {
            lemma_due_are_closers(code.drop_last(), i);
        }
    }
}

proof fn lemma_closing(code: Seq<char>, n: int)
    requires
        !scanned(code).in_string,
        0 <= n <= scanned(code).due.len(),
    ensures
        scanned(code + scanned(code).due.reverse().take(n)) == (Scan {
            due: scanned(code).due.take(scanned(code).due.len() - n),
            ..scanned(code)
        }),
    decreases n,
{
    let due = scanned(code).due;
    let ends = due.reverse();
    if n == 0 {
        assert(code + ends.take(0) =~= code);
        assert(due.take(due.len() as int) =~= due);
    } else {
        lemma_closing(code, n - 1);
        assert(ends.take(n).drop_last() =~= ends.take(n - 1));
        lemma_scanned_append(code, ends.take(n));
        let before = due.take(due.len() - (n - 1));
        assert(ends.take(n).last() == due[due.len() - n]);
        assert(before.last() == due[due.len() - n]);
        lemma_due_are_closers(code, due.len() - n);
        assert(before.drop_last() =~= due.take(due.len() - n));
    }
}

/// Repaired code lacks no closing delimiter, unless it ends inside a string.
pub proof fn lemma_repair_balances(code: Seq<char>)
    requires
        !scanned(code).in_string,
    ensures
        scanned(repaired(code)).due.len() == 0,
        !scanned(repaired(code)).in_string,
{
    let due = scanned(code).due;
    lemma_closing(code, due.len() as int);
    assert(due.reverse().take(due.len() as int) =~= due.reverse());
}

/// Code that lacks nothing is not changed, and a repair is never repaired
/// again.
pub proof fn lemma_repair_is_idempotent(code: Seq<char>)
    ensures
        scanned(code).due.len() == 0 ==> repaired(code) == code,
        repaired(repaired(code)) == repaired(code),
        code.is_prefix_of(repaired(code)),
{
    if scanned(code).due.len() == 0 {
        assert(code + scanned(code).due.reverse() =~= code);
    }
    if !scanned(code).in_string {
        lemma_repair_balances(code);
        let fixed = repaired(code);
        assert(fixed + scanned(fixed).due.reverse() =~= fixed);
    }
    assert(code =~= repaired(code).take(code.len() as int));
}

/// The delimiter that ends what `open` begins.
pub open spec fn partner(open: char) -> char {
    if open == '(' {
        ')'
    } else if open == '[' {
        ']'
    } else {
        '}'
    }
}

/// The delimiters that code without quotes opens and does not close, outermost
/// first. `None` where a closing delimiter does not match the innermost one that
/// is open.
pub open spec fn left_open(code: Seq<char>) -> Option<Seq<char>>
    decreases code.len(),
{
    if code.len() == 0 {
        Some(Seq::empty())
    } else {
        let c = code.last();
        match left_open(code.drop_last()) {
            Some(open) => if c == '(' || c == '[' || c == '{' {
                Some(open.push(c))
            } else if c == ')' || c == ']' || c == '}' {
                if open.len() > 0 && partner(open.last()) == c {
                    Some(open.drop_last())
                } else {
                    None
                }
            } else {
                Some(open)
            },
            None => None,
        }
    }
}

/// How often a character occurs in a text.
pub open spec fn occurrences(s: Seq<char>, c: char) -> nat
    decreases s.len(),
{
    if s.len() == 0 {
        0
    } else {
        occurrences(s.drop_last(), c) + (if s.last() == c {
            1nat
        } else {
            0nat
        })
    }
}

proof fn lemma_left_open_is_due(code: Seq<char>)
    requires
        !code.contains('"'),
        left_open(code) is Some,
    ensures
        !scanned(code).in_string,
        !scanned(code).escaped,
        scanned(code).due.len() == left_open(code)->0.len(),
        forall|i: int|
            0 <= i < left_open(code)->0.len() ==> scanned(code).due[i] == partner(
                #[trigger] left_open(code)->0[i],
            ),
        forall|i: int|
            0 <= i < left_open(code)->0.len() ==> {
                let c = #[trigger] left_open(code)->0[i];
                c == '(' || c == '[' || c == '{'
            },
    decreases code.len(),
{
    if code.len() > 0 {
        let before = code.drop_last();
        let c = code.last();
        assert(code[code.len() - 1] == c);
        assert(c != '"');
        assert forall|x: char| before.contains(x) implies code.contains(x) by {
            let i = choose|i: int| 0 <= i < before.len() && before[i] == x;
            assert(code[i] == x);
        }
        lemma_left_open_is_due(before);
        let open = left_open(before)->0;
        let after = left_open(code)->0;
        assert forall|i: int| 0 <= i < after.len() implies scanned(code).due[i] == partner(
            #[trigger] after[i],
        ) && (after[i] == '(' || after[i] == '[' || after[i] == '{') by {
            if i < open.len() {
                assert(after[i] == open[i]);
                assert(scanned(before).due[i] == partner(open[i]));
            }
        }
        if c == ')' || c == ']' || c == '}' {
            assert(open.last() == open[open.len() - 1]);
            assert(scanned(before).due.last() == c);
        } else if c != '(' && c != '[' && c != '{' && open.len() > 0 {
            assert(open.last() == open[open.len() - 1]);
            assert(scanned(before).due.last() == partner(open[open.len() - 1]));
        }
    }
}

/// In code without quotes whose closing delimiters match, a repair ends every
/// delimiter that is open, the innermost first, wherever in the code it was
/// opened, and adds nothing else.
pub proof fn lemma_repair_ends_what_is_open(code: Seq<char>)
    requires
        !code.contains('"'),
        left_open(code) is Some,
    ensures
        ({
            let open = left_open(code)->0;
            let out = repaired(code);
            &&& out.len() == code.len() + open.len()
            &&& out.take(code.len() as int) == code
            &&& forall|i: int|
                0 <= i < open.len() ==> out[code.len() + i] == partner(
                    #[trigger] open[open.len() - 1 - i],
                )
        }),
{
    lemma_left_open_is_due(code);
    let open = left_open(code)->0;
    let due = scanned(code).due;
    let out = repaired(code);
    assert(out.take(code.len() as int) =~= code);
    assert forall|i: int| 0 <= i < open.len() implies out[code.len() + i] == partner(
        #[trigger] open[open.len() - 1 - i],
    ) by {
        assert(out[code.len() + i] == due.reverse()[i]);
        assert(due.reverse()[i] == due[due.len() - 1 - i]);
    }
}

proof fn lemma_closing_leaves_less_open(code: Seq<char>, n: int)
    requires
        !code.contains('"'),
        left_open(code) is Some,
        0 <= n <= left_open(code)->0.len(),
    ensures
        left_open(repaired(code).take(code.len() + n)) == Some(
            left_open(code)->0.take(left_open(code)->0.len() - n),
        ),
    decreases n,
{
    let open = left_open(code)->0;
    let out = repaired(code);
    lemma_repair_ends_what_is_open(code);
    if n == 0 {
        assert(open.take(open.len() as int) =~= open);
    } else {
        lemma_closing_leaves_less_open(code, n - 1);
        lemma_left_open_is_due(code);
        let part = out.take(code.len() + n);
        let left = open.take(open.len() - (n - 1));
        assert(part.drop_last() =~= out.take(code.len() + n - 1));
        assert(part.last() == out[code.len() + (n - 1)]);
        assert(open[open.len() - 1 - (n - 1)] == left.last());
        assert(left.drop_last() =~= open.take(open.len() - n));
    }
}

proof fn lemma_open_is_surplus(code: Seq<char>, open: char)
    requires
        open == '(' || open == '[' || open == '{',
        left_open(code) is Some,
    ensures
        forall|i: int|
            0 <= i < left_open(code)->0.len() ==> {
                let c = #[trigger] left_open(code)->0[i];
                c == '(' || c == '[' || c == '{'
            },
        occurrences(code, open) == occurrences(code, partner(open)) + occurrences(
            left_open(code)->0,
            open,
        ),
    decreases code.len(),
{
    if code.len() > 0 {
        lemma_open_is_surplus(code.drop_last(), open);
        let before = left_open(code.drop_last())->0;
        let after = left_open(code)->0;
        let c = code.last();
        if c == '(' || c == '[' || c == '{' {
            assert(after.drop_last() =~= before);
        } else if c == ')' || c == ']' || c == '}' {
            let top = before[before.len() - 1];
            assert(top == '(' || top == '[' || top == '{');
            assert(before.last() == top);
        }
        assert forall|i: int| 0 <= i < after.len() implies {
            let x = #[trigger] after[i];
            x == '(' || x == '[' || x == '{'
        } by {
            if i < before.len() {
                assert(after[i] == before[i]);
            }
        }
    }
}

/// In code without quotes whose closing delimiters match, the repaired code has
/// as many closing delimiters of each kind as opening ones.
pub proof fn lemma_repaired_delimiters_count_up(code: Seq<char>)
    requires
        !code.contains('"'),
        left_open(code) is Some,
    ensures
        occurrences(repaired(code), '(') == occurrences(repaired(code), ')'),
        occurrences(repaired(code), '[') == occurrences(repaired(code), ']'),
        occurrences(repaired(code), '{') == occurrences(repaired(code), '}'),
{
    let open = left_open(code)->0;
    let out = repaired(code);
    lemma_repair_ends_what_is_open(code);
    lemma_closing_leaves_less_open(code, open.len() as int);
    assert(out.take(code.len() as int + open.len()) =~= out);
    assert(open.take(0) =~= Seq::empty());
    lemma_open_is_surplus(out, '(');
    lemma_open_is_surplus(out, '[');
    lemma_open_is_surplus(out, '{');
}

/// A character that is no delimiter, quote or backslash, a line feed too, leaves
/// what is due as it was, in a string and outside of one.
pub proof fn lemma_plain_character_leaves_what_is_due(code: Seq<char>, c: char)
    requires
        c != '(' && c != '[' && c != '{' && c != ')' && c != ']' && c != '}' && c != '"' && c
            != '\\',
    ensures
        scanned(code.push(c)).due == scanned(code).due,
        scanned(code.push(c)).in_string == scanned(code).in_string,
        repaired(code.push(c)).skip(code.len() as int + 1) == repaired(code).skip(code.len() as int),
{
    assert(code.push(c).drop_last() =~= code);
    lemma_dues_are_closers_all(code);
    if scanned(code).due.len() > 0 {
        let last = scanned(code).due[scanned(code).due.len() - 1];
        assert(last == ')' || last == ']' || last == '}');
    }
    assert(repaired(code.push(c)).skip(code.len() as int + 1) =~= repaired(code).skip(
        code.len() as int,
    ));
}

proof fn lemma_dues_are_closers_all(code: Seq<char>)
    ensures
        forall|i: int|
            0 <= i < scanned(code).due.len() ==> {
                let c = #[trigger] scanned(code).due[i];
                c == ')' || c == ']' || c == '}'
            },
{
    assert forall|i: int| 0 <= i < scanned(code).due.len() implies {
        let c = #[trigger] scanned(code).due[i];
        c == ')' || c == ']' || c == '}'
    } by {
        lemma_due_are_closers(code, i);
    }
}

/// Code may begin with anything that opens nothing, a stray closing delimiter
/// too: the rest is repaired as it is without it.
pub proof fn lemma_stray_start_is_kept(c: char, code: Seq<char>)
    requires
        c != '(' && c != '[' && c != '{' && c != '"',
    ensures
        scanned(seq![c] + code) == scanned(code),
        repaired(seq![c] + code) == seq![c] + repaired(code),
    decreases code.len(),
{
    let whole = seq![c] + code;
    if code.len() == 0 {
        assert(whole.drop_last() =~= Seq::empty());
        assert(whole.last() == c);
        assert(code =~= Seq::empty());
        reveal_with_fuel(scanned, 2);
    } else {
        lemma_stray_start_is_kept(c, code.drop_last());
        assert(whole.drop_last() =~= seq![c] + code.drop_last());
    }
    assert(repaired(whole) =~= seq![c] + repaired(code));
}

/// Whether a text may stand inside the quotes of a string: a quote or a
/// backslash in it is behind a backslash.
pub open spec fn inside_string(s: Seq<char>) -> bool
    decreases s.len(),
{
    if s.len() == 0 {
        true
    } else if s[0] == '\\' {
        s.len() >= 2 && inside_string(s.skip(2))
    } else {
        s[0] != '"' && inside_string(s.skip(1))
    }
}

proof fn lemma_scanned_push(code: Seq<char>, c: char)
    ensures
        scanned(code.push(c)) == step(scanned(code), c),
{
    assert(code.push(c).drop_last() =~= code);
}

proof fn lemma_inside_string_is_passed_over(code: Seq<char>, s: Seq<char>)
    requires
        scanned(code).in_string,
        !scanned(code).escaped,
        inside_string(s),
    ensures
        scanned(code + s) == scanned(code),
    decreases s.len(),
{
    if s.len() == 0 {
        assert(code + s =~= code);
    } else if s[0] == '\\' {
        let next = code.push('\\').push(s[1]);
        lemma_scanned_push(code, '\\');
        lemma_scanned_push(code.push('\\'), s[1]);
        assert(code + s =~= next + s.skip(2));
        lemma_inside_string_is_passed_over(next, s.skip(2));
    } else {
        lemma_scanned_push(code, s[0]);
        assert(code + s =~= code.push(s[0]) + s.skip(1));
        lemma_inside_string_is_passed_over(code.push(s[0]), s.skip(1));
    }
}

proof fn lemma_scanned_from(a: Seq<char>, b: Seq<char>, rest: Seq<char>)
    requires
        scanned(a) == scanned(b),
    ensures
        scanned(a + rest) == scanned(b + rest),
    decreases rest.len(),
{
    if rest.len() == 0 {
        assert(a + rest =~= a);
        assert(b + rest =~= b);
    } else {
        lemma_scanned_from(a, b, rest.drop_last());
        assert((a + rest).drop_last() =~= a + rest.drop_last());
        assert((b + rest).drop_last() =~= b + rest.drop_last());
    }
}

proof fn lemma_unquoted_is_outside(code: Seq<char>)
    requires
        !code.contains('"'),
    ensures
        !scanned(code).in_string,
        !scanned(code).escaped,
    decreases code.len(),
{
    if code.len() > 0 {
        let before = code.drop_last();
        assert(code[code.len() - 1] == code.last());
        assert forall|x: char| before.contains(x) implies code.contains(x) by {
            let i = choose|i: int| 0 <= i < before.len() && before[i] == x;
            assert(code[i] == x);
        }
        lemma_unquoted_is_outside(before);
    }
}

/// What stands in a string is no code: a string in front of the rest of the code
/// changes nothing in how the rest is repaired, whatever delimiters and escaped
/// quotes it holds, and code that ends inside a string is left as it is.
pub proof fn lemma_strings_are_no_code(code: Seq<char>, s: Seq<char>, rest: Seq<char>)
    requires
        !code.contains('"'),
        inside_string(s),
    ensures
        ({
            let text = seq!['"'] + s + seq!['"'];
            repaired(code + text + rest).skip(code.len() as int + text.len() + rest.len()) == repaired(
                code + rest,
            ).skip((code.len() + rest.len()) as int)
        }),
        repaired(code + (seq!['"'] + s)) == code + (seq!['"'] + s),
{
    let text = seq!['"'] + s + seq!['"'];
    let begun = code.push('"');
    lemma_unquoted_is_outside(code);
    lemma_scanned_push(code, '"');
    lemma_inside_string_is_passed_over(begun, s);
    lemma_scanned_push(begun + s, '"');
    assert((begun + s).push('"') =~= code + text);
    assert(begun + s =~= code + (seq!['"'] + s));
    assert(scanned(code + text) == scanned(code));
    lemma_scanned_from(code + text, code, rest);
    assert(repaired(code + text + rest).skip(code.len() as int + text.len() + rest.len())
        =~= repaired(code + rest).skip((code.len() + rest.len()) as int));
}

// ---------------------------------------------------------------------
// Arguments in JSON
// ---------------------------------------------------------------------

/// Whether `c` may stand between the parts of JSON.
pub open spec fn is_blank(c: char) -> bool {
    c == ' ' || c == '\t' || c == '\n' || c == '\r'
}

/// A text without the blanks at its start.
pub open spec fn without_blanks(s: Seq<char>) -> Seq<char>
    decreases s.len(),
{
    if s.len() > 0 && is_blank(s[0]) {
        without_blanks(s.skip(1))
    } else {
        s
    }
}

/// What stands behind a key and its colon, where the text begins with them.
pub open spec fn behind_key(s: Seq<char>, key: Seq<char>) -> Option<Seq<char>> {
    let head = seq!['"'] + key + seq!['"'];
    let tail = without_blanks(s.skip(head.len() as int));
    if head.is_prefix_of(s) && tail.len() > 0 && tail[0] == ':' {
        Some(without_blanks(tail.skip(1)))
    } else {
        None
    }
}

/// What stands behind the first such key.
pub open spec fn value_of_key(s: Seq<char>, key: Seq<char>) -> Option<Seq<char>>
    decreases s.len(),
{
    if s.len() == 0 {
        None
    } else if behind_key(s, key) is Some {
        behind_key(s, key)
    } else {
        value_of_key(s.skip(1), key)
    }
}

/// The text of a value in quotes.
pub open spec fn quoted(value: Seq<char>) -> Option<Seq<char>> {
    if value.len() > 0 && value[0] == '"' {
        match crate::json::read_json(value.skip(1)) {
            Some((text, _)) => Some(text),
            None => None,
        }
    } else {
        None
    }
}

/// Whether `c` ends a value that has no quotes.
pub open spec fn ends_value(c: char) -> bool {
    is_blank(c) || c == ',' || c == '}' || c == ']'
}

/// How long a value without quotes is.
pub open spec fn bare_len(value: Seq<char>) -> nat
    decreases value.len(),
{
    if value.len() == 0 || ends_value(value[0]) {
        0
    } else {
        1 + bare_len(value.skip(1))
    }
}

/// The text under a key, where its value is one.
pub open spec fn extracted_string(json: Seq<char>, key: Seq<char>) -> Option<Seq<char>> {
    match value_of_key(json, key) {
        Some(value) => quoted(value),
        None => None,
    }
}

/// The value under a key: a text, or what stands there without quotes.
pub open spec fn extracted_scalar(json: Seq<char>, key: Seq<char>) -> Option<Seq<char>> {
    match value_of_key(json, key) {
        Some(value) => if value.len() > 0 && value[0] == '"' {
            quoted(value)
        } else if bare_len(value) == 0 {
            None
        } else {
            Some(value.take(bare_len(value) as int))
        },
        None => None,
    }
}

fn blank(c: char) -> (yes: bool)
    ensures
        yes == is_blank(c),
{
    c == ' ' || c == '\t' || c == '\n' || c == '\r'
}

fn skip_blanks(chars: &Vec<char>, from: usize) -> (to: usize)
    requires
        from <= chars@.len(),
    ensures
        from <= to <= chars@.len(),
        chars@.skip(to as int) == without_blanks(chars@.skip(from as int)),
{
    let mut i: usize = from;
    while i < chars.len() && blank(chars[i])
        invariant
            from <= i <= chars@.len(),
            without_blanks(chars@.skip(i as int)) == without_blanks(chars@.skip(from as int)),
        decreases chars@.len() - i,
    {
        assert(chars@.skip(i as int)[0] == chars@[i as int]);
        assert(chars@.skip(i as int).skip(1) =~= chars@.skip(i + 1));
        i = i + 1;
    }
    proof {
        if i < chars@.len() {
            assert(chars@.skip(i as int)[0] == chars@[i as int]);
        }
    }
    i
}

fn stands_at(chars: &Vec<char>, from: usize, part: &Vec<char>) -> (yes: bool)
    requires
        from <= chars@.len(),
    ensures
        yes == part@.is_prefix_of(chars@.skip(from as int)),
{
    let total: usize = chars.len();
    if part.len() > total - from {
        return false;
    }
    let mut i: usize = 0;
    while i < part.len()
        invariant
            from <= total == chars@.len(),
            i <= part@.len(),
            part@.len() <= chars@.len() - from,
            forall|j: int| 0 <= j < i ==> part@[j] == #[trigger] chars@.skip(from as int)[j],
        decreases part@.len() - i,
    {
        assert(chars@.skip(from as int)[i as int] == chars@[from + i]);
        if chars[from + i] != part[i] {
            return false;
        }
        i = i + 1;
    }
    assert(part@ =~= chars@.skip(from as int).take(part@.len() as int));
    true
}

fn key_end(chars: &Vec<char>, from: usize, head: &Vec<char>, key: &str) -> (out: Option<usize>)
    requires
        from <= chars@.len(),
        head@ == seq!['"'] + key@ + seq!['"'],
    ensures
        match behind_key(chars@.skip(from as int), key@) {
            Some(value) => {
                &&& out matches Some(at)
                &&& at <= chars@.len()
                &&& value == chars@.skip(at as int)
            },
            None => out is None,
        },
{
    if !stands_at(chars, from, head) {
        return None;
    }
    let ghost s = chars@.skip(from as int);
    let total: usize = chars.len();
    assert(from + head@.len() <= total);
    let behind: usize = from + head.len();
    assert(s.skip(head@.len() as int) =~= chars@.skip(behind as int));
    let colon: usize = skip_blanks(chars, behind);
    if colon < chars.len() {
        assert(chars@.skip(colon as int)[0] == chars@[colon as int]);
        assert(chars@.skip(colon as int).skip(1) =~= chars@.skip(colon + 1));
        if chars[colon] == ':' {
            return Some(skip_blanks(chars, colon + 1));
        }
    }
    None
}

fn find_value(chars: &Vec<char>, key: &str) -> (out: Option<usize>)
    ensures
        match value_of_key(chars@, key@) {
            Some(value) => {
                &&& out matches Some(at)
                &&& at <= chars@.len()
                &&& value == chars@.skip(at as int)
            },
            None => out is None,
        },
{
    let mut quoted_key = String::new();
    quoted_key.push('"');
    quoted_key.append(key);
    quoted_key.push('"');
    let head = chars_of(quoted_key.as_str());
    assert(head@ =~= seq!['"'] + key@ + seq!['"']);
    let mut i: usize = 0;
    assert(chars@.skip(0) =~= chars@);
    while i < chars.len()
        invariant
            i <= chars@.len(),
            head@ == seq!['"'] + key@ + seq!['"'],
            value_of_key(chars@, key@) == value_of_key(chars@.skip(i as int), key@),
        decreases chars@.len() - i,
    {
        match key_end(chars, i, &head, key) {
            Some(at) => {
                return Some(at);
            },
            None => {},
        }
        assert(chars@.skip(i as int).skip(1) =~= chars@.skip(i + 1));
        i = i + 1;
    }
    None
}

fn quoted_text(chars: &Vec<char>, at: usize) -> (out: Option<String>)
    requires
        at <= chars@.len(),
    ensures
        out.deep_view() == quoted(chars@.skip(at as int)),
{
    if at < chars.len() {
        assert(chars@.skip(at as int)[0] == chars@[at as int]);
        assert(chars@.skip(at as int).skip(1) =~= chars@.skip(at + 1));
        if chars[at] == '"' {
            return match read_json_text(chars, at + 1) {
                Some((text, _)) => Some(text),
                None => None,
            };
        }
    }
    None
}

/// Finds the text under a key. A value that is no text is none.
pub fn json_extract_string(json: &str, key: &str) -> (out: Option<String>)
    ensures
        out.deep_view() == extracted_string(json@, key@),
{
    let chars = chars_of(json);
    match find_value(&chars, key) {
        Some(at) => quoted_text(&chars, at),
        None => None,
    }
}

fn bare_end(chars: &Vec<char>, from: usize) -> (to: usize)
    requires
        from <= chars@.len(),
    ensures
        from <= to <= chars@.len(),
        to - from == bare_len(chars@.skip(from as int)),
{
    let mut i: usize = from;
    while i < chars.len() && !(blank(chars[i]) || chars[i] == ',' || chars[i] == '}' || chars[i]
        == ']')
        invariant
            from <= i <= chars@.len(),
            bare_len(chars@.skip(from as int)) == (i - from) + bare_len(chars@.skip(i as int)),
        decreases chars@.len() - i,
    {
        assert(chars@.skip(i as int)[0] == chars@[i as int]);
        assert(chars@.skip(i as int).skip(1) =~= chars@.skip(i + 1));
        i = i + 1;
    }
    proof {
        if i < chars@.len() {
            assert(chars@.skip(i as int)[0] == chars@[i as int]);
        }
    }
    i
}

/// Finds the value under a key, whether it is a text or stands without quotes,
/// as a number does.
pub fn json_extract_scalar(json: &str, key: &str) -> (out: Option<String>)
    ensures
        out.deep_view() == extracted_scalar(json@, key@),
{
    let chars = chars_of(json);
    match find_value(&chars, key) {
        Some(at) => {
            proof {
                if at < chars@.len() {
                    assert(chars@.skip(at as int)[0] == chars@[at as int]);
                }
            }
            if at < chars.len() && chars[at] == '"' {
                quoted_text(&chars, at)
            } else {
                let end: usize = bare_end(&chars, at);
                if end == at {
                    None
                } else {
                    assert(chars@.subrange(at as int, end as int) =~= chars@.skip(at as int).take(
                        end - at,
                    ));
                    Some(string_of(&chars, at, end))
                }
            }
        },
        None => None,
    }
}

/// The text of the first field of an object is found as it was written,
/// whatever quotes and backslashes it holds.
pub proof fn lemma_written_text_is_extracted(key: Seq<char>, text: Seq<char>, rest: Seq<char>)
    ensures
        extracted_string(
            seq!['{'] + (seq!['"'] + key + seq!['"', ':'] + crate::json::json_text(text)) + rest,
            key,
        ) == Some(text),
{
    let head = seq!['"'] + key + seq!['"'];
    let value = crate::json::json_text(text) + rest;
    let field = head + (seq![':'] + value);
    let whole = seq!['{'] + (seq!['"'] + key + seq!['"', ':'] + crate::json::json_text(text)) + rest;
    assert(whole =~= seq!['{'] + field);
    assert(whole.skip(1) =~= field);
    assert(!head.is_prefix_of(whole)) by {
        if head.is_prefix_of(whole) {
            assert(head[0] == whole.subrange(0, head.len() as int)[0]);
        }
    }
    assert(head =~= field.take(head.len() as int));
    assert(field.skip(head.len() as int) =~= seq![':'] + value);
    assert((seq![':'] + value)[0] == ':');
    assert((seq![':'] + value).skip(1) =~= value);
    assert(value[0] == '"');
    crate::json::lemma_json_round_trip(text, rest);
    reveal_with_fuel(value_of_key, 2);
}

// ---------------------------------------------------------------------
// Messages
// ---------------------------------------------------------------------

/// Whether a text holds another.
pub open spec fn holds(s: Seq<char>, part: Seq<char>) -> bool {
    exists|i: int| 0 <= i <= s.len() && part.is_prefix_of(#[trigger] s.skip(i))
}

/// A character in lower case, for the letters of ASCII.
pub open spec fn lower(c: char) -> char {
    if 'A' <= c && c <= 'Z' {
        (c as int + 32) as char
    } else {
        c
    }
}

/// A text in lower case, for the letters of ASCII.
pub open spec fn lowered(s: Seq<char>) -> Seq<char> {
    s.map_values(|c: char| lower(c))
}

/// Whether an error says that time ran out.
pub open spec fn says_timeout(msg: Seq<char>) -> bool {
    holds(lowered(msg), "timed out"@) || holds(lowered(msg), "timeout"@)
}

/// Whether an error says that the connection is gone. One that says that time
/// ran out does not.
pub open spec fn says_disconnected(msg: Seq<char>) -> bool {
    !says_timeout(msg) && (holds(lowered(msg), "connection closed"@) || holds(
        lowered(msg),
        "connection reset"@,
    ) || holds(lowered(msg), "broken pipe"@))
}

/// What an evaluation without a connection answers.
pub open spec fn not_connected(cause: Seq<char>) -> Seq<char> {
    "Not connected to an nREPL server ("@ + cause
        + "). Start a REPL if none runs, and call the nrepl_connect tool."@
}

fn lower_char(c: char) -> (out: char)
    ensures
        out == lower(c),
{
    if 'A' <= c && c <= 'Z' {
        let code: u32 = c as u32;
        ((code as u8) + 32) as char
    } else {
        c
    }
}

fn lower_chars(s: &str) -> (out: Vec<char>)
    ensures
        out@ == lowered(s@),
{
    let chars = chars_of(s);
    let mut out: Vec<char> = Vec::new();
    let mut i: usize = 0;
    while i < chars.len()
        invariant
            i <= chars@.len(),
            out@ == lowered(chars@.take(i as int)),
        decreases chars@.len() - i,
    {
        out.push(lower_char(chars[i]));
        assert(out@ =~= lowered(chars@.take(i + 1)));
        i = i + 1;
    }
    assert(chars@.take(i as int) =~= chars@);
    out
}

fn find_part(chars: &Vec<char>, part: &str) -> (yes: bool)
    ensures
        yes == holds(chars@, part@),
{
    let wanted = chars_of(part);
    let mut i: usize = 0;
    loop
        invariant
            i <= chars@.len(),
            wanted@ == part@,
            forall|j: int| 0 <= j < i ==> !part@.is_prefix_of(#[trigger] chars@.skip(j)),
        decreases chars@.len() - i,
    {
        if stands_at(chars, i, &wanted) {
            return true;
        }
        if i == chars.len() {
            return false;
        }
        i = i + 1;
    }
}

/// Whether an error says that time ran out.
pub fn is_timeout_error(msg: &str) -> (yes: bool)
    ensures
        yes == says_timeout(msg@),
{
    let chars = lower_chars(msg);
    find_part(&chars, "timed out") || find_part(&chars, "timeout")
}

/// Whether an error says that the connection is gone, so that it is worth to
/// connect again.
pub fn is_connection_error(msg: &str) -> (yes: bool)
    ensures
        yes == says_disconnected(msg@),
{
    let chars = lower_chars(msg);
    !is_timeout_error(msg) && (find_part(&chars, "connection closed") || find_part(
        &chars,
        "connection reset",
    ) || find_part(&chars, "broken pipe"))
}

/// What an evaluation without a connection answers. It names the tool that the
/// model can call.
pub fn not_connected_message(cause: &str) -> (out: String)
    ensures
        out@ == not_connected(cause@),
{
    let mut out = "Not connected to an nREPL server (".to_owned();
    out.append(cause);
    out.append("). Start a REPL if none runs, and call the nrepl_connect tool.");
    out
}

/// No error is both a lost connection and a timeout: a slow evaluation is not
/// run a second time.
pub proof fn lemma_timeout_is_not_retried(msg: Seq<char>)
    ensures
        says_timeout(msg) ==> !says_disconnected(msg),
{
}

/// A text without the blanks at its end.
pub open spec fn without_end_blanks(s: Seq<char>) -> Seq<char>
    decreases s.len(),
{
    if s.len() > 0 && is_blank(s.last()) {
        without_end_blanks(s.drop_last())
    } else {
        s
    }
}

/// The port that a port file holds: its content without blanks around it, and
/// none where nothing else is there.
pub open spec fn port_in(content: Seq<char>) -> Option<Seq<char>> {
    let port = without_end_blanks(without_blanks(content));
    if port.len() == 0 {
        None
    } else {
        Some(port)
    }
}

/// Reads the port from the content of a port file; none where there is no
/// file.
pub fn read_port(content: &Option<String>) -> (out: Option<String>)
    ensures
        out.deep_view() == (match content.deep_view() {
            Some(text) => port_in(text),
            None => None,
        }),
{
    let text = match content {
        Some(t) => t,
        None => {
            return None;
        },
    };
    let chars = chars_of(text.as_str());
    assert(chars@.skip(0) =~= chars@);
    let from: usize = skip_blanks(&chars, 0);
    let ghost rest = chars@.skip(from as int);
    let mut to: usize = chars.len();
    assert(rest.take(to - from) =~= rest);
    while to > from && blank(chars[to - 1])
        invariant
            from <= to <= chars@.len(),
            rest == chars@.skip(from as int),
            without_end_blanks(rest) == without_end_blanks(rest.take(to - from)),
        decreases to,
    {
        assert(rest.take(to - from).last() == chars@[to - 1]);
        assert(rest.take(to - from).drop_last() =~= rest.take(to - 1 - from));
        to = to - 1;
    }
    proof {
        if to > from {
            assert(rest.take(to - from).last() == chars@[to - 1]);
        }
    }
    if to == from {
        None
    } else {
        assert(chars@.subrange(from as int, to as int) =~= rest.take(to - from));
        Some(string_of(&chars, from, to))
    }
}

// ---------------------------------------------------------------------
// A manager with the helpers alone
// ---------------------------------------------------------------------

/// A manager of its own, and the source that brings the helpers of the bridge
/// into it: what the file of its state holds.
pub fn nrepl_state_env(started: Result<u64, String>, state: Result<String, String>) -> (out: (
    PluginManager,
    String,
))
    requires
        started is Ok,
        state is Ok,
    ensures
        out.0@ == crate::manager::ManagerView::fresh(started->Ok_0),
        crate::hooks::wf(out.0@.hooks),
        out.1@ == state->Ok_0@,
{
    let mgr = PluginManager::try_new(started);
    (mgr.unwrap(), state.unwrap())
}

/// Hands the manager out, as it is, once the source was evaluated. Where the
/// evaluation has failed there is its error and no manager.
pub fn finish_nrepl_state(mgr: PluginManager, reply: &Reply) -> (out: Result<
    PluginManager,
    String,
>)
    ensures
        match reply.deep_view() {
            crate::reply::ReplyView::Value(_) => out matches Ok(same) && same == mgr,
            crate::reply::ReplyView::Error(msg) => out matches Err(text) && text@ == msg,
        },
{
    match reply {
        Reply::Value(_) => Ok(mgr),
        Reply::Error(msg) => Err(msg.clone()),
    }
}

// ---------------------------------------------------------------------
// Arguments, messages and ports as they are written
// ---------------------------------------------------------------------

/// Whether a text is made of blanks, tabs and line ends.
pub open spec fn all_blank(s: Seq<char>) -> bool {
    forall|i: int|
        0 <= i < s.len() ==> (#[trigger] s[i] == ' ' || s[i] == '\t' || s[i] == '\n' || s[i]
            == '\r')
}

proof fn lemma_without_blanks(blanks: Seq<char>, rest: Seq<char>)
    requires
        all_blank(blanks),
        rest.len() > 0 ==> !is_blank(rest[0]),
    ensures
        without_blanks(blanks + rest) == rest,
    decreases blanks.len(),
{
    if blanks.len() == 0 {
        assert(blanks + rest =~= rest);
    } else {
        assert(blanks[0] == (blanks + rest)[0]);
        assert((blanks + rest).skip(1) =~= blanks.skip(1) + rest);
        assert forall|i: int| 0 <= i < blanks.skip(1).len() implies (#[trigger] blanks.skip(1)[i]
            == ' ' || blanks.skip(1)[i] == '\t' || blanks.skip(1)[i] == '\n' || blanks.skip(1)[i]
            == '\r') by {
            assert(blanks[i + 1] == blanks.skip(1)[i]);
        }
        lemma_without_blanks(blanks.skip(1), rest);
    }
}

proof fn lemma_unquoted_is_passed_over(head: Seq<char>, rest: Seq<char>, key: Seq<char>)
    requires
        !head.contains('"'),
    ensures
        value_of_key(head + rest, key) == value_of_key(rest, key),
    decreases head.len(),
{
    if head.len() == 0 {
        assert(head + rest =~= rest);
    } else {
        let s = head + rest;
        let quoted_key = seq!['"'] + key + seq!['"'];
        assert(head[0] != '"');
        assert(!quoted_key.is_prefix_of(s)) by {
            if quoted_key.is_prefix_of(s) {
                assert(quoted_key[0] == s.subrange(0, quoted_key.len() as int)[0]);
            }
        }
        assert(s.skip(1) =~= head.skip(1) + rest);
        assert(!head.skip(1).contains('"')) by {
            if head.skip(1).contains('"') {
                let i = choose|i: int| 0 <= i < head.skip(1).len() && head.skip(1)[i] == '"';
                assert(head[i + 1] == '"');
            }
        }
        lemma_unquoted_is_passed_over(head.skip(1), rest, key);
    }
}

proof fn lemma_key_is_found(
    head: Seq<char>,
    key: Seq<char>,
    before: Seq<char>,
    after: Seq<char>,
    value: Seq<char>,
)
    requires
        !head.contains('"'),
        all_blank(before),
        all_blank(after),
        value.len() > 0,
        !is_blank(value[0]),
    ensures
        value_of_key(
            head + (seq!['"'] + key + seq!['"'] + before + seq![':'] + after + value),
            key,
        ) == Some(value),
{
    let quoted_key = seq!['"'] + key + seq!['"'];
    let tail = seq![':'] + after + value;
    let s = quoted_key + before + seq![':'] + after + value;
    lemma_unquoted_is_passed_over(head, s, key);
    assert(s =~= quoted_key + (before + tail));
    assert(quoted_key =~= s.take(quoted_key.len() as int));
    assert(s.skip(quoted_key.len() as int) =~= before + tail);
    assert(tail[0] == ':');
    lemma_without_blanks(before, tail);
    assert(tail.skip(1) =~= after + value);
    lemma_without_blanks(after, value);
}

/// The text under a key is found as it was written, whatever it holds, with or
/// without blanks round the colon, behind anything in which no quote stands.
pub proof fn lemma_text_under_a_key_is_found(
    head: Seq<char>,
    key: Seq<char>,
    before: Seq<char>,
    after: Seq<char>,
    text: Seq<char>,
    rest: Seq<char>,
)
    requires
        !head.contains('"'),
        all_blank(before),
        all_blank(after),
    ensures
        ({
            let json = head + (seq!['"'] + key + seq!['"'] + before + seq![':'] + after + (
            crate::json::json_text(text) + rest));
            &&& extracted_string(json, key) == Some(text)
            &&& extracted_scalar(json, key) == Some(text)
        }),
{
    let value = crate::json::json_text(text) + rest;
    crate::json::lemma_json_round_trip(text, rest);
    assert(value[0] == '"');
    lemma_key_is_found(head, key, before, after, value);
}

proof fn lemma_bare_len(bare: Seq<char>, rest: Seq<char>)
    requires
        forall|i: int| 0 <= i < bare.len() ==> !ends_value(#[trigger] bare[i]),
        rest.len() > 0 ==> ends_value(rest[0]),
    ensures
        bare_len(bare + rest) == bare.len(),
    decreases bare.len(),
{
    if bare.len() == 0 {
        assert(bare + rest =~= rest);
    } else {
        assert((bare + rest)[0] == bare[0]);
        assert((bare + rest).skip(1) =~= bare.skip(1) + rest);
        assert forall|i: int| 0 <= i < bare.skip(1).len() implies !ends_value(
            #[trigger] bare.skip(1)[i],
        ) by {
            assert(bare[i + 1] == bare.skip(1)[i]);
        }
        lemma_bare_len(bare.skip(1), rest);
    }
}

/// A value without quotes, such as a number, is found as it was written, up to
/// the comma, the bracket or the blank behind it. It is no text.
pub proof fn lemma_bare_value_is_found(
    head: Seq<char>,
    key: Seq<char>,
    before: Seq<char>,
    after: Seq<char>,
    bare: Seq<char>,
    rest: Seq<char>,
)
    requires
        !head.contains('"'),
        all_blank(before),
        all_blank(after),
        bare.len() > 0,
        bare[0] != '"',
        forall|i: int|
            0 <= i < bare.len() ==> (#[trigger] bare[i] != ' ' && bare[i] != '\t' && bare[i] != '\n'
                && bare[i] != '\r' && bare[i] != ',' && bare[i] != '}' && bare[i] != ']'),
        rest.len() > 0 ==> (rest[0] == ' ' || rest[0] == '\t' || rest[0] == '\n' || rest[0] == '\r'
            || rest[0] == ',' || rest[0] == '}' || rest[0] == ']'),
    ensures
        ({
            let json = head + (seq!['"'] + key + seq!['"'] + before + seq![':'] + after + (bare
                + rest));
            &&& extracted_scalar(json, key) == Some(bare)
            &&& extracted_string(json, key) is None
        }),
{
    let value = bare + rest;
    assert(value[0] == bare[0]);
    assert forall|i: int| 0 <= i < bare.len() implies !ends_value(#[trigger] bare[i]) by {
        assert(bare[i] != ',');
    }
    lemma_bare_len(bare, rest);
    lemma_key_is_found(head, key, before, after, value);
    assert(value.take(bare.len() as int) =~= bare);
}

proof fn lemma_quote_is_passed_over(s: Seq<char>, key: Seq<char>)
    requires
        s.len() > 0,
        behind_key(s, key) is None,
    ensures
        value_of_key(s, key) == value_of_key(s.skip(1), key),
{
}

proof fn lemma_closing_quote_is_no_key(next: char, rest: Seq<char>, key: Seq<char>)
    requires
        key.len() > 0,
        key[0] != next,
    ensures
        value_of_key(seq!['"', next] + rest, key) == value_of_key(seq![next] + rest, key),
{
    let s = seq!['"', next] + rest;
    let quoted_key = seq!['"'] + key + seq!['"'];
    assert(!quoted_key.is_prefix_of(s)) by {
        if quoted_key.is_prefix_of(s) {
            assert(quoted_key[1] == s.subrange(0, quoted_key.len() as int)[1]);
        }
    }
    lemma_quote_is_passed_over(s, key);
    assert(s.skip(1) =~= seq![next] + rest);
}

proof fn lemma_plain_quotes(a: Seq<char>, next: char, rest: Seq<char>, key: Seq<char>)
    requires
        !a.contains('"'),
        !key.contains('"'),
        key.len() > 0,
        key[0] != next,
        next != '"',
        a != key || (next != ':' && !is_blank(next)),
    ensures
        value_of_key(seq!['"'] + a + seq!['"', next] + rest, key) == value_of_key(rest, key),
{
    let s = seq!['"'] + a + seq!['"', next] + rest;
    let quoted_key = seq!['"'] + key + seq!['"'];
    if quoted_key.is_prefix_of(s) {
        let front = s.subrange(0, quoted_key.len() as int);
        assert(front == quoted_key);
        if key.len() < a.len() {
            assert(front[key.len() as int + 1] == a[key.len() as int]);
            assert(a.contains(a[key.len() as int]));
        } else if key.len() > a.len() {
            assert(front[a.len() as int + 1] == key[a.len() as int]);
            assert(front[a.len() as int + 1] == s[a.len() as int + 1]);
            assert(key.contains(key[a.len() as int]));
        } else {
            assert forall|i: int| 0 <= i < a.len() implies a[i] == key[i] by {
                assert(front[i + 1] == a[i]);
                assert(front[i + 1] == key[i]);
            }
            assert(a =~= key);
            let tail = s.skip(quoted_key.len() as int);
            assert(tail =~= seq![next] + rest);
            assert(tail[0] == next);
            assert(without_blanks(tail) == tail);
        }
    }
    lemma_quote_is_passed_over(s, key);
    assert(s.skip(1) =~= a + (seq!['"', next] + rest));
    lemma_unquoted_is_passed_over(a, seq!['"', next] + rest, key);
    lemma_closing_quote_is_no_key(next, rest, key);
    assert(!seq![next].contains('"')) by {
        if seq![next].contains('"') {
            let i = choose|i: int| 0 <= i < seq![next].len() && seq![next][i] == '"';
        }
    }
    lemma_unquoted_is_passed_over(seq![next], rest, key);
}

/// A field under another key does not hide a later one: with a text or a bare
/// value before it, the value is the one that the rest of the object has under
/// the key, also where the text is the key itself.
pub proof fn lemma_other_fields_are_passed_over(
    other: Seq<char>,
    text: Seq<char>,
    bare: Seq<char>,
    key: Seq<char>,
    rest: Seq<char>,
)
    requires
        other != key,
        !other.contains('"'),
        !text.contains('"'),
        !bare.contains('"'),
        !key.contains('"'),
        key.len() > 0,
        key[0] != ':' && key[0] != ',',
    ensures
        ({
            let a = seq!['{', '"'] + other + seq!['"', ':', '"'] + text + seq!['"', ','] + rest;
            let b = seq!['{', '"'] + other + seq!['"', ':'] + bare + seq![','] + rest;
            &&& extracted_string(a, key) == extracted_string(rest, key)
            &&& extracted_scalar(a, key) == extracted_scalar(rest, key)
            &&& extracted_string(b, key) == extracted_string(rest, key)
            &&& extracted_scalar(b, key) == extracted_scalar(rest, key)
        }),
{
    let second = seq!['"'] + text + seq!['"', ','] + rest;
    let a = seq!['{', '"'] + other + seq!['"', ':', '"'] + text + seq!['"', ','] + rest;
    let b = seq!['{', '"'] + other + seq!['"', ':'] + bare + seq![','] + rest;
    assert(!seq!['{'].contains('"')) by {
        if seq!['{'].contains('"') {
            let i = choose|i: int| 0 <= i < seq!['{'].len() && seq!['{'][i] == '"';
        }
    }
    let field_a = seq!['"'] + other + seq!['"', ':'] + second;
    assert(a =~= seq!['{'] + field_a);
    lemma_unquoted_is_passed_over(seq!['{'], field_a, key);
    lemma_plain_quotes(other, ':', second, key);
    lemma_plain_quotes(text, ',', rest, key);
    let plain = bare + seq![','];
    assert(!plain.contains('"')) by {
        if plain.contains('"') {
            let i = choose|i: int| 0 <= i < plain.len() && plain[i] == '"';
            if i < bare.len() {
                assert(bare[i] == '"');
            }
        }
    }
    let field_b = seq!['"'] + other + seq!['"', ':'] + (plain + rest);
    assert(b =~= seq!['{'] + field_b);
    lemma_unquoted_is_passed_over(seq!['{'], field_b, key);
    lemma_plain_quotes(other, ':', plain + rest, key);
    lemma_unquoted_is_passed_over(plain, rest, key);
}

/// A key that does not stand in the arguments, in its quotes, has no value.
pub proof fn lemma_missing_key_has_no_value(json: Seq<char>, key: Seq<char>)
    requires
        forall|i: int|
            0 <= i <= json.len() ==> !(seq!['"'] + key + seq!['"']).is_prefix_of(
                #[trigger] json.skip(i),
            ),
    ensures
        extracted_string(json, key) is None,
        extracted_scalar(json, key) is None,
    decreases json.len(),
{
    if json.len() > 0 {
        let rest = json.skip(1);
        assert(json.skip(0) =~= json);
        assert forall|i: int| 0 <= i <= rest.len() implies !(seq!['"'] + key + seq![
            '"',
        ]).is_prefix_of(#[trigger] rest.skip(i)) by {
            assert(rest.skip(i) =~= json.skip(i + 1));
        }
        lemma_missing_key_has_no_value(rest, key);
        assert(behind_key(json, key) is None);
    }
}

/// Whether `c` is the letter `letter`, in small or in capital, or that character.
pub open spec fn same_letter(c: char, letter: char) -> bool {
    c == letter || ('a' <= letter && letter <= 'z' && c as int + 32 == letter as int)
}

/// Whether words stand at a place in a message, in small letters or in capitals.
pub open spec fn stands_here(msg: Seq<char>, words: Seq<char>, at: int) -> bool {
    &&& 0 <= at
    &&& at + words.len() <= msg.len()
    &&& forall|j: int| 0 <= j < words.len() ==> same_letter(msg[at + j], #[trigger] words[j])
}

/// Whether words stand anywhere in a message, in small letters or in capitals.
pub open spec fn mentions(msg: Seq<char>, words: Seq<char>) -> bool {
    exists|at: int| stands_here(msg, words, at)
}

proof fn lemma_holds_is_mentions(msg: Seq<char>, words: Seq<char>)
    requires
        forall|j: int| 0 <= j < words.len() ==> !('A' <= #[trigger] words[j] && words[j] <= 'Z'),
    ensures
        holds(lowered(msg), words) <==> mentions(msg, words),
{
    let low = lowered(msg);
    if holds(low, words) {
        let i = choose|i: int| 0 <= i <= low.len() && words.is_prefix_of(#[trigger] low.skip(i));
        assert forall|j: int| 0 <= j < words.len() implies same_letter(
            msg[i + j],
            #[trigger] words[j],
        ) by {
            assert(low.skip(i).subrange(0, words.len() as int)[j] == words[j]);
            assert(low.skip(i)[j] == lower(msg[i + j]));
        }
        assert(stands_here(msg, words, i));
    }
    if mentions(msg, words) {
        let at = choose|at: int| stands_here(msg, words, at);
        assert forall|j: int| 0 <= j < words.len() implies low.skip(at)[j] == words[j] by {
            assert(same_letter(msg[at + j], words[j]));
            assert(low.skip(at)[j] == lower(msg[at + j]));
        }
        assert(words =~= low.skip(at).subrange(0, words.len() as int));
        assert(words.is_prefix_of(low.skip(at)));
    }
}

/// An error is a timeout where it mentions one, in small letters or in capitals
/// and wherever in the message. It is a lost connection where it mentions that
/// and no timeout.
pub proof fn lemma_errors_are_known_by_their_words(msg: Seq<char>)
    ensures
        says_timeout(msg) <==> mentions(msg, "timed out"@) || mentions(msg, "timeout"@),
        says_disconnected(msg) <==> !mentions(msg, "timed out"@) && !mentions(msg, "timeout"@) && (
        mentions(msg, "connection closed"@) || mentions(msg, "connection reset"@) || mentions(
            msg,
            "broken pipe"@,
        )),
{
    reveal_strlit("timed out");
    reveal_strlit("timeout");
    reveal_strlit("connection closed");
    reveal_strlit("connection reset");
    reveal_strlit("broken pipe");
    lemma_holds_is_mentions(msg, "timed out"@);
    lemma_holds_is_mentions(msg, "timeout"@);
    lemma_holds_is_mentions(msg, "connection closed"@);
    lemma_holds_is_mentions(msg, "connection reset"@);
    lemma_holds_is_mentions(msg, "broken pipe"@);
}

/// The answer without a connection tells the cause, and the tool to call.
pub proof fn lemma_missing_connection_is_explained(cause: Seq<char>)
    ensures
        crate::prelude::stands_in("("@ + cause + ")"@, not_connected(cause)),
        crate::prelude::stands_in("nrepl_connect"@, not_connected(cause)),
{
    reveal_strlit("(");
    reveal_strlit(")");
    reveal_strlit("Not connected to an nREPL server (");
    reveal_strlit("). Start a REPL if none runs, and call the nrepl_connect tool.");
    reveal_strlit("nrepl_connect");
    let head = "Not connected to an nREPL server ("@;
    let tail = "). Start a REPL if none runs, and call the nrepl_connect tool."@;
    let whole = not_connected(cause);
    assert(whole =~= head.drop_last() + (("("@ + cause + ")"@) + tail.skip(1)));
    let at = tail.len() - 19;
    assert(tail.subrange(at, at + 13) =~= "nrepl_connect"@);
    assert(whole =~= (head + cause + tail.take(at)) + ("nrepl_connect"@ + tail.skip(at + 13)));
}

proof fn lemma_without_end_blanks(text: Seq<char>, blanks: Seq<char>)
    requires
        all_blank(blanks),
        text.len() > 0 ==> !is_blank(text.last()),
    ensures
        without_end_blanks(text + blanks) == text,
    decreases blanks.len(),
{
    if blanks.len() == 0 {
        assert(text + blanks =~= text);
    } else {
        assert(blanks[blanks.len() - 1] == (text + blanks).last());
        assert((text + blanks).drop_last() =~= text + blanks.drop_last());
        assert forall|i: int| 0 <= i < blanks.drop_last().len() implies (
        #[trigger] blanks.drop_last()[i] == ' ' || blanks.drop_last()[i] == '\t'
            || blanks.drop_last()[i] == '\n' || blanks.drop_last()[i] == '\r') by {
            assert(blanks[i] == blanks.drop_last()[i]);
        }
        lemma_without_end_blanks(text, blanks.drop_last());
    }
}

/// The port is what the file holds between the blanks at its ends, all of it, and
/// a file of blanks holds none.
pub proof fn lemma_port_stands_between_blanks(
    before: Seq<char>,
    port: Seq<char>,
    after: Seq<char>,
)
    requires
        all_blank(before),
        all_blank(after),
        port.len() > 0,
        !all_blank(seq![port[0]]),
        !all_blank(seq![port.last()]),
    ensures
        port_in(before + port + after) == Some(port),
        port_in(before) is None,
        port_in(Seq::empty()) is None,
{
    assert(!is_blank(port[0])) by {
        if is_blank(port[0]) {
            assert(all_blank(seq![port[0]]));
        }
    }
    assert(!is_blank(port.last())) by {
        if is_blank(port.last()) {
            assert(all_blank(seq![port.last()]));
        }
    }
    assert(before + port + after =~= before + (port + after));
    assert((port + after)[0] == port[0]);
    lemma_without_blanks(before, port + after);
    lemma_without_end_blanks(port, after);
    assert(before + Seq::<char>::empty() =~= before);
    lemma_without_blanks(before, Seq::empty());
}

/// The search for a key goes on, character by character, past everything that is
/// not the key in its quotes, and past the key in its quotes where no colon comes
/// behind it.
pub proof fn lemma_search_goes_on(json: Seq<char>, key: Seq<char>, next: char, rest: Seq<char>)
    requires
        json.len() > 0,
        !(seq!['"'] + key + seq!['"']).is_prefix_of(json),
        next != ':' && !is_blank(next),
    ensures
        extracted_string(json, key) == extracted_string(json.skip(1), key),
        extracted_scalar(json, key) == extracted_scalar(json.skip(1), key),
        ({
            let text = seq!['"'] + key + seq!['"'] + seq![next] + rest;
            &&& extracted_string(text, key) == extracted_string(text.skip(1), key)
            &&& extracted_scalar(text, key) == extracted_scalar(text.skip(1), key)
        }),
{
    lemma_quote_is_passed_over(json, key);
    let quoted_key = seq!['"'] + key + seq!['"'];
    let text = quoted_key + seq![next] + rest;
    let tail = text.skip(quoted_key.len() as int);
    assert(tail =~= seq![next] + rest);
    assert(tail[0] == next);
    assert(without_blanks(tail) == tail);
    lemma_quote_is_passed_over(text, key);
}

/// How code is read, character by character and whatever came before: outside of
/// strings an opening delimiter makes its partner due, the one that is due takes
/// itself away, and a stray one does nothing; in a string nothing becomes due and
/// nothing is taken away until its end, which is no quote behind a backslash. A
/// repair adds as much as is due.
pub proof fn lemma_code_is_read_character_by_character(code: Seq<char>, c: char)
    ensures
        ({
            let before = scanned(code);
            let after = scanned(code.push(c));
            &&& before.in_string ==> {
                &&& after.due == before.due
                &&& after.in_string <==> before.escaped || c != '"'
                &&& after.escaped <==> !before.escaped && c == '\\'
            }
            &&& !before.in_string ==> {
                &&& after.in_string <==> c == '"'
                &&& c == '(' || c == '[' || c == '{' ==> after.due == before.due.push(partner(c))
                &&& c == ')' || c == ']' || c == '}' ==> after.due == (if before.due.len() > 0
                    && before.due.last() == c {
                    before.due.drop_last()
                } else {
                    before.due
                })
            }
            &&& repaired(code).len() == code.len() + (if before.in_string {
                0
            } else {
                before.due.len()
            })
        }),
        scanned(Seq::empty()).due.len() == 0,
        !scanned(Seq::empty()).in_string,
{
    lemma_scanned_push(code, c);
    lemma_dues_are_closers_all(code);
}

} // verus!
