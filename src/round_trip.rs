use vstd::prelude::*;

use crate::grammar::{
    async_class_of, async_line, closing_quote, content_at, digits_end,
    is_async_sigil, is_digit, is_name_char, is_name_start, is_stream_sigil, line_record, name_at,
    name_end, result_class_of, result_line, stream_line, token_of, tuple_at, value_at, values_at,
    variable_at, variables_at,
};
use crate::msg::{
    AsyncClass, AsyncModel, MessageModel, RecordModel, ResultClass, StreamModel, ValueModel,
    VariableModel,
};

verus! {

// Lines as the debugger writes them, built from the models, and the proof
// that reading such a line gives back the model it was built from.

pub open spec fn is_name(n: Seq<char>) -> bool {
    &&& n.len() > 0
    &&& is_name_start(n[0])
    &&& forall|k: int| 1 <= k < n.len() ==> #[trigger] is_name_char(n[k])
}

pub open spec fn is_digits(t: Seq<char>) -> bool {
    forall|k: int| 0 <= k < t.len() ==> #[trigger] is_digit(t[k])
}

/// Text that can stand between quotes: every `"` in it is escaped by a
/// backslash, and it does not end in a backslash (which would escape the
/// closing quote).
pub open spec fn is_escaped_text(c: Seq<char>) -> bool
    decreases c.len(),
{
    if c.len() == 0 {
        true
    } else if c[0] == '\\' && c.len() >= 2 && c[1] == '"' {
        is_escaped_text(c.subrange(2, c.len() as int))
    } else if c[0] == '"' || (c[0] == '\\' && c.len() == 1) {
        false
    } else {
        is_escaped_text(c.subrange(1, c.len() as int))
    }
}

/// Which tuples with elements are written in brackets rather than braces.
pub type Brackets = spec_fn(Seq<VariableModel>) -> bool;

/// A value as the debugger writes it. A tuple with elements is written in
/// brackets where `sq` chooses so for it, else in braces; the empty tuple is
/// always `{}`, since `[]` is the empty list.
pub open spec fn print_value(v: ValueModel, sq: Brackets) -> Seq<char>
    decreases v,
{
    match v {
        ValueModel::Str(c) => seq!['"'] + c + seq!['"'],
        ValueModel::Tuple(vars) => if sq(vars) && vars.len() > 0 {
            seq!['['] + print_variables(vars, sq) + seq![']']
        } else {
            seq!['{'] + print_variables(vars, sq) + seq!['}']
        },
        ValueModel::List(vals) => seq!['['] + print_values(vals, sq) + seq![']'],
    }
}

/// Variables separated by `,`.
pub open spec fn print_variables(vars: Seq<VariableModel>, sq: Brackets) -> Seq<char>
    decreases vars,
{
    if vars.len() == 0 {
        Seq::empty()
    } else {
        let first = vars[0].name + seq!['='] + print_value(vars[0].value, sq);
        if vars.len() == 1 {
            first
        } else {
            first + seq![','] + print_variables(vars.subrange(1, vars.len() as int), sq)
        }
    }
}

/// Values separated by `,`.
pub open spec fn print_values(vals: Seq<ValueModel>, sq: Brackets) -> Seq<char>
    decreases vals,
{
    if vals.len() == 0 {
        Seq::empty()
    } else if vals.len() == 1 {
        print_value(vals[0], sq)
    } else {
        print_value(vals[0], sq) + seq![','] + print_values(vals.subrange(1, vals.len() as int), sq)
    }
}

pub open spec fn wf_value(v: ValueModel) -> bool
    decreases v,
{
    match v {
        ValueModel::Str(c) => is_escaped_text(c),
        ValueModel::Tuple(vars) => wf_variables(vars),
        ValueModel::List(vals) => wf_values(vals),
    }
}

pub open spec fn wf_variables(vars: Seq<VariableModel>) -> bool
    decreases vars,
{
    vars.len() == 0 || (is_name(vars[0].name) && wf_value(vars[0].value) && wf_variables(
        vars.subrange(1, vars.len() as int),
    ))
}

pub open spec fn wf_values(vals: Seq<ValueModel>) -> bool
    decreases vals,
{
    vals.len() == 0 || (wf_value(vals[0]) && wf_values(vals.subrange(1, vals.len() as int)))
}

pub open spec fn wf_token(t: Option<Seq<char>>) -> bool {
    match t {
        Some(d) => d.len() > 0 && is_digits(d),
        None => true,
    }
}

pub open spec fn print_token(t: Option<Seq<char>>) -> Seq<char> {
    match t {
        Some(d) => d,
        None => Seq::empty(),
    }
}

/// The newline, or `,`, the variables and the newline.
pub open spec fn print_content(vars: Seq<VariableModel>, sq: Brackets) -> Seq<char> {
    if vars.len() == 0 {
        seq!['\n']
    } else {
        seq![','] + print_variables(vars, sq) + seq!['\n']
    }
}

pub open spec fn result_class_name(c: ResultClass) -> Seq<char> {
    match c {
        ResultClass::Done => "done"@,
        ResultClass::Running => "running"@,
        ResultClass::Connected => "connected"@,
        ResultClass::Error => "error"@,
        ResultClass::Exit => "exit"@,
    }
}

pub open spec fn print_result(m: MessageModel<ResultClass>, sq: Brackets) -> Seq<char> {
    print_token(m.token) + seq!['^'] + result_class_name(m.class) + print_content(m.content, sq)
}

pub open spec fn print_async(
    sigil: char,
    token: Option<Seq<char>>,
    name: Seq<char>,
    content: Seq<VariableModel>,
    sq: Brackets,
) -> Seq<char> {
    print_token(token) + seq![sigil] + name + print_content(content, sq)
}

pub open spec fn print_stream(sigil: char, c: Seq<char>) -> Seq<char> {
    seq![sigil, '"'] + c + seq!['"', '\n']
}

// ---------------------------------------------------------------------------
// Reading a printed value back
// ---------------------------------------------------------------------------

/// `s` holds `x` from position `i` on.
pub open spec fn holds_at(s: Seq<char>, i: int, x: Seq<char>) -> bool {
    0 <= i && i + x.len() <= s.len() && s.subrange(i, i + x.len()) == x
}

proof fn lemma_at(s: Seq<char>, i: int, x: Seq<char>, k: int)
    requires
        holds_at(s, i, x),
        0 <= k < x.len(),
    ensures
        s[i + k] == x[k],
{
    assert(s.subrange(i, i + x.len())[k] == s[i + k]);
}

proof fn lemma_slice(s: Seq<char>, i: int, x: Seq<char>, a: int, b: int)
    requires
        holds_at(s, i, x),
        0 <= a <= b <= x.len(),
    ensures
        holds_at(s, i + a, x.subrange(a, b)),
{
    assert forall|k: int| 0 <= k < b - a implies s.subrange(i + a, i + b)[k] == x.subrange(
        a,
        b,
    )[k] by {
        lemma_at(s, i, x, a + k);
    }
    assert(s.subrange(i + a, i + b) =~= x.subrange(a, b));
}

proof fn lemma_closing_quote_escaped(s: Seq<char>, i: int, c: Seq<char>)
    requires
        is_escaped_text(c),
        holds_at(s, i, c),
        i + c.len() < s.len(),
        s[i + c.len()] == '"',
    ensures
        closing_quote(s, i) == Some(i + c.len()),
    decreases c.len(),
{
    if c.len() > 0 {
        lemma_at(s, i, c, 0);
        if c.len() >= 2 {
            lemma_at(s, i, c, 1);
        }
        if c[0] == '\\' && c.len() >= 2 && c[1] == '"' {
            lemma_slice(s, i, c, 2, c.len() as int);
            lemma_closing_quote_escaped(s, i + 2, c.subrange(2, c.len() as int));
        } else {
            lemma_slice(s, i, c, 1, c.len() as int);
            lemma_closing_quote_escaped(s, i + 1, c.subrange(1, c.len() as int));
        }
    }
}

proof fn lemma_name_end_from(s: Seq<char>, k: int, e: int)
    requires
        0 <= k <= e <= s.len(),
        forall|m: int| k <= m < e ==> #[trigger] is_name_char(s[m]),
        e == s.len() || !is_name_char(s[e]),
    ensures
        name_end(s, k) == e,
    decreases e - k,
{
    if k < e {
        lemma_name_end_from(s, k + 1, e);
    }
}

proof fn lemma_digits_end_from(s: Seq<char>, k: int, e: int)
    requires
        0 <= k <= e <= s.len(),
        forall|m: int| k <= m < e ==> #[trigger] is_digit(s[m]),
        e == s.len() || !is_digit(s[e]),
    ensures
        digits_end(s, k) == e,
    decreases e - k,
{
    if k < e {
        lemma_digits_end_from(s, k + 1, e);
    }
}

proof fn lemma_name_printed(s: Seq<char>, i: int, n: Seq<char>)
    requires
        is_name(n),
        holds_at(s, i, n),
        i + n.len() == s.len() || !is_name_char(s[i + n.len()]),
    ensures
        name_at(s, i) == Some((n, i + n.len())),
{
    lemma_at(s, i, n, 0);
    assert forall|m: int| i + 1 <= m < i + n.len() implies #[trigger] is_name_char(s[m]) by {
        lemma_at(s, i, n, m - i);
    }
    lemma_name_end_from(s, i + 1, i + n.len());
}

proof fn lemma_value_first_char(v: ValueModel, sq: Brackets)
    ensures
        print_value(v, sq).len() > 0,
        print_value(v, sq)[0] == '"' || print_value(v, sq)[0] == '{' || print_value(v, sq)[0]
            == '[',
{
}

proof fn lemma_value_printed(s: Seq<char>, i: int, v: ValueModel, sq: Brackets)
    requires
        wf_value(v),
        holds_at(s, i, print_value(v, sq)),
    ensures
        value_at(s, i) == Some((v, i + print_value(v, sq).len())),
    decreases v, 1int,
{
    let x = print_value(v, sq);
    lemma_at(s, i, x, 0);
    match v {
        ValueModel::Str(c) => {
            lemma_slice(s, i, x, 1, 1 + c.len() as int);
            assert(x.subrange(1, 1 + c.len() as int) =~= c);
            lemma_at(s, i, x, 1 + c.len() as int);
            lemma_closing_quote_escaped(s, i + 1, c);
            assert(x.len() == c.len() + 2);
        },
        ValueModel::Tuple(vars) => {
            let p = print_variables(vars, sq);
            assert(x.len() == p.len() + 2);
            if vars.len() == 0 {
                assert(x =~= seq!['{', '}']);
                lemma_at(s, i, x, 1);
                assert(vars =~= Seq::<VariableModel>::empty());
            } else {
                lemma_slice(s, i, x, 1, 1 + p.len() as int);
                assert(x.subrange(1, 1 + p.len() as int) =~= p);
                lemma_at(s, i, x, 1 + p.len() as int);
                lemma_variables_first_char(vars, sq);
                lemma_at(s, i, x, 1);
                if sq(vars) {
                    lemma_variables_printed(s, i + 1, vars, ']', sq);
                } else {
                    lemma_variables_printed(s, i + 1, vars, '}', sq);
                }
            }
        },
        ValueModel::List(vals) => {
            let p = print_values(vals, sq);
            assert(x.len() == p.len() + 2);
            if vals.len() == 0 {
                assert(x =~= seq!['[', ']']);
                lemma_at(s, i, x, 1);
                assert(vals =~= Seq::<ValueModel>::empty());
                assert(variable_at(s, i + 1) is None);
            } else {
                lemma_values_first_char(vals, sq);
                lemma_at(s, i, x, 1);
                assert(variable_at(s, i + 1) is None);
                lemma_slice(s, i, x, 1, 1 + p.len() as int);
                assert(x.subrange(1, 1 + p.len() as int) =~= p);
                lemma_at(s, i, x, 1 + p.len() as int);
                lemma_values_printed(s, i + 1, vals, sq);
            }
            assert(tuple_at(s, i) is None);
        },
    }
}

proof fn lemma_variables_first_char(vars: Seq<VariableModel>, sq: Brackets)
    requires
        wf_variables(vars),
        vars.len() > 0,
    ensures
        print_variables(vars, sq).len() > 0,
        is_name_start(print_variables(vars, sq)[0]),
{
    let first = vars[0].name + seq!['='] + print_value(vars[0].value, sq);
    assert(first[0] == vars[0].name[0]);
    if vars.len() > 1 {
        let rest = print_variables(vars.subrange(1, vars.len() as int), sq);
        assert((first + seq![','] + rest)[0] == first[0]);
    }
}

proof fn lemma_values_first_char(vals: Seq<ValueModel>, sq: Brackets)
    requires
        vals.len() > 0,
    ensures
        print_values(vals, sq).len() > 0,
        print_values(vals, sq)[0] == '"' || print_values(vals, sq)[0] == '{'
            || print_values(vals, sq)[0] == '[',
{
    lemma_value_first_char(vals[0], sq);
    if vals.len() > 1 {
        let rest = print_values(vals.subrange(1, vals.len() as int), sq);
        assert((print_value(vals[0], sq) + seq![','] + rest)[0] == print_value(vals[0], sq)[0]);
    }
}

proof fn lemma_variables_printed(
    s: Seq<char>,
    i: int,
    vars: Seq<VariableModel>,
    close: char,
    sq: Brackets,
)
    requires
        wf_variables(vars),
        vars.len() > 0,
        close != ',',
        holds_at(s, i, print_variables(vars, sq)),
        i + print_variables(vars, sq).len() < s.len(),
        s[i + print_variables(vars, sq).len()] == close,
    ensures
        variables_at(s, i, close) == Some((vars, i + print_variables(vars, sq).len() + 1)),
    decreases vars, 0int,
{
    let x = print_variables(vars, sq);
    let v0 = vars[0];
    let n = v0.name;
    let pv = print_value(v0.value, sq);
    let first = n + seq!['='] + pv;
    let j = i + first.len();
    if vars.len() == 1 {
        assert(x == first);
    } else {
        assert(x == first + seq![','] + print_variables(vars.subrange(1, vars.len() as int), sq));
    }
    assert(x.subrange(0, first.len() as int) =~= first);
    lemma_slice(s, i, x, 0, n.len() as int);
    assert(x.subrange(0, n.len() as int) =~= n);
    lemma_at(s, i, x, n.len() as int);
    assert(x[n.len() as int] == '=');
    lemma_name_printed(s, i, n);
    lemma_slice(s, i, x, n.len() as int + 1, first.len() as int);
    assert(x.subrange(n.len() as int + 1, first.len() as int) =~= pv);
    lemma_value_printed(s, i + n.len() + 1, v0.value, sq);
    assert(variable_at(s, i) == Some((v0, j)));
    if vars.len() == 1 {
        assert(seq![v0] + Seq::<VariableModel>::empty() =~= vars);
    } else {
        let rest = vars.subrange(1, vars.len() as int);
        let pr = print_variables(rest, sq);
        lemma_at(s, i, x, first.len() as int);
        assert(x[first.len() as int] == ',');
        lemma_slice(s, i, x, first.len() as int + 1, x.len() as int);
        assert(x.subrange(first.len() as int + 1, x.len() as int) =~= pr);
        lemma_variables_printed(s, j + 1, rest, close, sq);
        assert(seq![v0] + rest =~= vars);
    }
}

proof fn lemma_values_printed(s: Seq<char>, i: int, vals: Seq<ValueModel>, sq: Brackets)
    requires
        wf_values(vals),
        vals.len() > 0,
        holds_at(s, i, print_values(vals, sq)),
        i + print_values(vals, sq).len() < s.len(),
        s[i + print_values(vals, sq).len()] == ']',
    ensures
        values_at(s, i) == Some((vals, i + print_values(vals, sq).len() + 1)),
    decreases vals, 0int,
{
    let x = print_values(vals, sq);
    let pv = print_value(vals[0], sq);
    let j = i + pv.len();
    if vals.len() == 1 {
        assert(x == pv);
    } else {
        assert(x == pv + seq![','] + print_values(vals.subrange(1, vals.len() as int), sq));
    }
    lemma_slice(s, i, x, 0, pv.len() as int);
    assert(x.subrange(0, pv.len() as int) =~= pv);
    lemma_value_printed(s, i, vals[0], sq);
    if vals.len() == 1 {
        assert(seq![vals[0]] + Seq::<ValueModel>::empty() =~= vals);
    } else {
        let rest = vals.subrange(1, vals.len() as int);
        let pr = print_values(rest, sq);
        lemma_at(s, i, x, pv.len() as int);
        assert(x[pv.len() as int] == ',');
        lemma_slice(s, i, x, pv.len() as int + 1, x.len() as int);
        assert(x.subrange(pv.len() as int + 1, x.len() as int) =~= pr);
        lemma_values_printed(s, j + 1, rest, sq);
        assert(seq![vals[0]] + rest =~= vals);
    }
}

// ---------------------------------------------------------------------------
// Reading a printed line back
// ---------------------------------------------------------------------------

proof fn lemma_content_printed(s: Seq<char>, i: int, vars: Seq<VariableModel>, sq: Brackets)
    requires
        wf_variables(vars),
        holds_at(s, i, print_content(vars, sq)),
    ensures
        content_at(s, i) == Some(vars),
{
    let x = print_content(vars, sq);
    if vars.len() == 0 {
        assert(x =~= seq!['\n']);
        lemma_at(s, i, x, 0);
        assert(vars =~= Seq::<VariableModel>::empty());
    } else {
        let p = print_variables(vars, sq);
        assert(x.len() == p.len() + 2);
        lemma_at(s, i, x, 0);
        lemma_slice(s, i, x, 1, 1 + p.len() as int);
        assert(x.subrange(1, 1 + p.len() as int) =~= p);
        lemma_at(s, i, x, 1 + p.len() as int);
        lemma_variables_printed(s, i + 1, vars, '\n', sq);
    }
}

proof fn lemma_content_first_char(vars: Seq<VariableModel>, sq: Brackets)
    ensures
        print_content(vars, sq).len() > 0,
        print_content(vars, sq)[0] == '\n' || print_content(vars, sq)[0] == ',',
{
}

proof fn lemma_token_printed(s: Seq<char>, t: Option<Seq<char>>)
    requires
        wf_token(t),
        holds_at(s, 0, print_token(t)),
        print_token(t).len() < s.len(),
        !is_digit(s[print_token(t).len() as int]),
    ensures
        digits_end(s, 0) == print_token(t).len(),
        token_of(s) == t,
{
    let d = print_token(t);
    assert forall|m: int| 0 <= m < d.len() implies #[trigger] is_digit(s[m]) by {
        lemma_at(s, 0, d, m);
        assert(is_digit(d[m]));
    }
    lemma_digits_end_from(s, 0, d.len() as int);
}

proof fn lemma_result_class_name(c: ResultClass)
    ensures
        is_name(result_class_name(c)),
        result_class_of(result_class_name(c)) == Some(c),
{
    reveal_strlit("done");
    reveal_strlit("running");
    reveal_strlit("connected");
    reveal_strlit("error");
    reveal_strlit("exit");
    match c {
        ResultClass::Done => {},
        ResultClass::Running => {
            assert("running"@.len() != "done"@.len());
        },
        ResultClass::Connected => {
            assert("connected"@.len() != "done"@.len());
            assert("connected"@.len() != "running"@.len());
        },
        ResultClass::Error => {
            assert("error"@.len() != "done"@.len());
            assert("error"@.len() != "running"@.len());
            assert("error"@.len() != "connected"@.len());
        },
        ResultClass::Exit => {
            assert("exit"@[0] != "done"@[0]);
            assert("exit"@ != "done"@);
            assert("exit"@.len() != "running"@.len());
            assert("exit"@.len() != "connected"@.len());
            assert("exit"@.len() != "error"@.len());
        },
    }
}

/// `[token] sigil name content`: the token, the name and the content stand
/// where a result or asynchronous line has them.
proof fn lemma_message_printed(
    s: Seq<char>,
    sigil: char,
    token: Option<Seq<char>>,
    name: Seq<char>,
    content: Seq<VariableModel>,
    sq: Brackets,
)
    requires
        s == print_token(token) + seq![sigil] + name + print_content(content, sq),
        !is_digit(sigil),
        wf_token(token),
        is_name(name),
        wf_variables(content),
    ensures
        digits_end(s, 0) == print_token(token).len(),
        token_of(s) == token,
        s[print_token(token).len() as int] == sigil,
        name_at(s, print_token(token).len() as int + 1) == Some(
            (name, print_token(token).len() as int + 1 + name.len()),
        ),
        content_at(s, print_token(token).len() as int + 1 + name.len()) == Some(content),
{
    let t = print_token(token);
    let c = print_content(content, sq);
    let a = t.len() as int + 1;
    let b = a + name.len();
    assert(s.subrange(0, t.len() as int) =~= t);
    assert(s[t.len() as int] == sigil);
    assert(s.subrange(a, b) =~= name);
    assert(s.subrange(b, s.len() as int) =~= c);
    lemma_token_printed(s, token);
    lemma_content_first_char(content, sq);
    lemma_at(s, b, c, 0);
    lemma_name_printed(s, a, name);
    lemma_content_printed(s, b, content, sq);
}

/// Reading the line that a result record is printed as gives that record
/// back: its token, the class that its name stands for, and its variables in
/// the order in which they were printed, whichever tuples were written in
/// brackets.
pub proof fn lemma_result_round_trip(m: MessageModel<ResultClass>, sq: Brackets)
    requires
        wf_token(m.token),
        wf_variables(m.content),
    ensures
        result_line(print_result(m, sq)) == Some(m),
        line_record(print_result(m, sq)) == Some(RecordModel::Result(m)),
{
    lemma_result_class_name(m.class);
    lemma_message_printed(
        print_result(m, sq),
        '^',
        m.token,
        result_class_name(m.class),
        m.content, sq,
    );
}

/// The asynchronous record that a sigil stands for.
pub open spec fn async_of(sigil: char, m: MessageModel<AsyncClass>) -> AsyncModel {
    if sigil == '*' {
        AsyncModel::Exec(m)
    } else if sigil == '+' {
        AsyncModel::Status(m)
    } else {
        AsyncModel::Notify(m)
    }
}

/// Reading a printed asynchronous line gives the record of its sigil, with
/// its token, the class that its name stands for, and its variables in the
/// order in which they were printed, whichever tuples were written in
/// brackets.
pub proof fn lemma_async_round_trip(
    sigil: char,
    token: Option<Seq<char>>,
    name: Seq<char>,
    content: Seq<VariableModel>,
    sq: Brackets,
)
    requires
        is_async_sigil(sigil),
        wf_token(token),
        is_name(name),
        wf_variables(content),
    ensures
        async_line(print_async(sigil, token, name, content, sq)) == Some(
            async_of(sigil, MessageModel { token, class: async_class_of(name), content }),
        ),
        line_record(print_async(sigil, token, name, content, sq)) == Some(
            RecordModel::Async(
                async_of(sigil, MessageModel { token, class: async_class_of(name), content }),
            ),
        ),
{
    lemma_message_printed(
        print_async(sigil, token, name, content, sq),
        sigil,
        token,
        name,
        content,
        sq,
    );
}

/// The stream record that a sigil stands for.
pub open spec fn stream_of(sigil: char, c: Seq<char>) -> StreamModel {
    if sigil == '~' {
        StreamModel::Console(c)
    } else if sigil == '@' {
        StreamModel::Target(c)
    } else {
        StreamModel::Log(c)
    }
}

/// Reading a printed stream line gives the record of its sigil, holding the
/// text that was printed between the quotes.
pub proof fn lemma_stream_round_trip(sigil: char, c: Seq<char>)
    requires
        is_stream_sigil(sigil),
        is_escaped_text(c),
    ensures
        stream_line(print_stream(sigil, c)) == Some(stream_of(sigil, c)),
        line_record(print_stream(sigil, c)) == Some(RecordModel::Stream(stream_of(sigil, c))),
{
    let s = print_stream(sigil, c);
    assert(s[0] == sigil);
    assert(s[1] == '"');
    assert(s.subrange(2, 2 + c.len() as int) =~= c);
    assert(s[2 + c.len() as int] == '"');
    assert(s[3 + c.len() as int] == '\n');
    lemma_closing_quote_escaped(s, 2, c);
    assert(digits_end(s, 0) == 0);
}

} // verus!
