use vstd::prelude::*;

use crate::grammar::{
    async_class_of, async_line, closing_quote, constant_at, content_at, digits_end, is_digit,
    is_name_char, is_name_start, lemma_digits_end_bounds, line_record,
    list_at, name_at, name_end, prepend, result_class_of, result_line, stream_line, token_of,
    tuple_at, value_at, values_at, values_tail, variable_at, variables_at, variables_tail,
};
use crate::msg::{
    token_model, values_model, variables_model, AsyncClass, AsyncRecord, MessageRecord, Record,
    ResultClass, StreamRecord, Value, ValueModel, Variable, VariableModel,
};
use crate::session::Error;

verus! {

/// The characters of `line`, in order.
fn chars_of(line: &str) -> (r: Vec<char>)
    ensures
        r@ == line@,
{
    let mut r: Vec<char> = Vec::new();
    for c in it: line.chars()
        invariant
            it.seq() == line@,
            r@ == it.seq().take(it.index() as int),
    {
        r.push(c);
    }
    r
}

/// The characters of `line` from `from` up to `to`, as a new string.
fn text_between(line: &str, from: usize, to: usize) -> (r: String)
    requires
        from <= to <= line@.len(),
    ensures
        r@ == line@.subrange(from as int, to as int),
{
    String::from_str(line.substring_char(from, to))
}

fn is_digit_char(c: char) -> (r: bool)
    ensures
        r == is_digit(c),
{
    '0' <= c && c <= '9'
}

fn is_name_char_exec(c: char) -> (r: bool)
    ensures
        r == is_name_char(c),
{
    ('a' <= c && c <= 'z') || ('A' <= c && c <= 'Z') || c == '_' || ('0' <= c && c <= '9')
        || c == '-'
}

fn is_name_start_exec(c: char) -> (r: bool)
    ensures
        r == is_name_start(c),
{
    ('a' <= c && c <= 'z') || ('A' <= c && c <= 'Z') || c == '_'
}

proof fn lemma_prepend_prepend<T>(a: Seq<T>, b: Seq<T>, r: Option<(Seq<T>, int)>)
    ensures
        prepend(a, prepend(b, r)) == prepend(a + b, r),
{
    if let Some((rest, k)) = r {
        assert(a + (b + rest) =~= (a + b) + rest);
    }
}

proof fn lemma_prepend_empty<T>(a: Seq<T>, k: int)
    ensures
        prepend(a, Some((Seq::<T>::empty(), k))) == Some((a, k)),
{
    assert(a + Seq::<T>::empty() =~= a);
}

proof fn lemma_variables_model_push(vars: Seq<Variable>, v: Variable)
    ensures
        variables_model(vars.push(v)) == variables_model(vars) + seq![v@],
{
    assert(vars.push(v).subrange(0, vars.len() as int) =~= vars);
    assert(variables_model(vars).push(v@) =~= variables_model(vars) + seq![v@]);
}

proof fn lemma_values_model_push(vals: Seq<Value>, v: Value)
    ensures
        values_model(vals.push(v)) == values_model(vals) + seq![v@],
{
    assert(vals.push(v).subrange(0, vals.len() as int) =~= vals);
    assert(values_model(vals).push(v@) =~= values_model(vals) + seq![v@]);
}

/// The optional token at the start of a line, and where it ends.
fn parse_token(line: &str, s: &Vec<char>) -> (r: (Option<String>, usize))
    requires
        s@ == line@,
    ensures
        token_model(r.0) == token_of(s@),
        r.1 == digits_end(s@, 0),
{
    let mut j: usize = 0;
    while j < s.len() && is_digit_char(s[j])
        invariant
            j <= s.len(),
            digits_end(s@, j as int) == digits_end(s@, 0),
        decreases s.len() - j,
    {
        j = j + 1;
    }
    if j > 0 {
        (Some(text_between(line, 0, j)), j)
    } else {
        (None, j)
    }
}

/// A name starting at `i`, and where it ends.
fn parse_varname(line: &str, s: &Vec<char>, i: usize) -> (r: Option<(String, usize)>)
    requires
        s@ == line@,
        i <= s.len(),
    ensures
        match r {
            Some((n, j)) => name_at(s@, i as int) == Some((n@, j as int)) && i < j <= s.len(),
            None => name_at(s@, i as int) is None,
        },
{
    if i < s.len() && is_name_start_exec(s[i]) {
        let mut j: usize = i + 1;
        while j < s.len() && is_name_char_exec(s[j])
            invariant
                i < j <= s.len(),
                name_end(s@, j as int) == name_end(s@, i + 1),
            decreases s.len() - j,
        {
            j = j + 1;
        }
        Some((text_between(line, i, j), j))
    } else {
        None
    }
}

/// A quoted constant starting at `i`: its inner text, and where it ends.
fn parse_constant(line: &str, s: &Vec<char>, i: usize) -> (r: Option<(String, usize)>)
    requires
        s@ == line@,
        i <= s.len(),
    ensures
        match r {
            Some((c, j)) => constant_at(s@, i as int) == Some((c@, j as int)) && i < j <= s.len(),
            None => constant_at(s@, i as int) is None,
        },
{
    if i < s.len() && s[i] == '"' {
        let mut k: usize = i + 1;
        while k < s.len()
            invariant
                i < k <= s.len(),
                s@ == line@,
                s[i as int] == '"',
                closing_quote(s@, k as int) == closing_quote(s@, i + 1),
            decreases s.len() - k,
        {
            if s[k] == '\\' && k + 1 < s.len() && s[k + 1] == '"' {
                k = k + 2;
            } else if s[k] == '"' {
                return Some((text_between(line, i + 1, k), k + 1));
            } else {
                k = k + 1;
            }
        }
        None
    } else {
        None
    }
}

/// A value starting at `i`: a constant, else a tuple, else a list.
fn parse_value(line: &str, s: &Vec<char>, i: usize) -> (r: Option<(Value, usize)>)
    requires
        s@ == line@,
        i <= s.len(),
    ensures
        match r {
            Some((v, j)) => value_at(s@, i as int) == Some((v@, j as int)) && i < j <= s.len(),
            None => value_at(s@, i as int) is None,
        },
    decreases s.len() - i, 1int,
{
    if let Some((c, j)) = parse_constant(line, s, i) {
        return Some((Value::String(c), j));
    }
    if let Some((vars, j)) = parse_variable_list(line, s, i) {
        return Some((Value::VariableList(vars), j));
    }
    if let Some((vals, j)) = parse_value_list(line, s, i) {
        return Some((Value::ValueList(vals), j));
    }
    None
}

/// A tuple starting at `i`: `{}`, or `{` or `[` with one or more variables and
/// the matching closer.
fn parse_variable_list(line: &str, s: &Vec<char>, i: usize) -> (r: Option<(Vec<Variable>, usize)>)
    requires
        s@ == line@,
        i <= s.len(),
    ensures
        match r {
            Some((vars, j)) => tuple_at(s@, i as int) == Some((variables_model(vars@), j as int))
                && i < j <= s.len(),
            None => tuple_at(s@, i as int) is None,
        },
    decreases s.len() - i, 0int,
{
    if i >= s.len() {
        None
    } else if s[i] == '{' {
        if i + 1 < s.len() && s[i + 1] == '}' {
            let vars: Vec<Variable> = Vec::new();
            assert(variables_model(vars@) =~= Seq::<VariableModel>::empty());
            Some((vars, i + 2))
        } else {
            parse_variables(line, s, i + 1, '}')
        }
    } else if s[i] == '[' {
        parse_variables(line, s, i + 1, ']')
    } else {
        None
    }
}

/// A list starting at `i`: `[]`, or `[` with one or more values and `]`.
fn parse_value_list(line: &str, s: &Vec<char>, i: usize) -> (r: Option<(Vec<Value>, usize)>)
    requires
        s@ == line@,
        i <= s.len(),
    ensures
        match r {
            Some((vals, j)) => list_at(s@, i as int) == Some((values_model(vals@), j as int)) && i
                < j <= s.len(),
            None => list_at(s@, i as int) is None,
        },
    decreases s.len() - i, 0int,
{
    if i >= s.len() || s[i] != '[' {
        None
    } else if i + 1 < s.len() && s[i + 1] == ']' {
        let vals: Vec<Value> = Vec::new();
        assert(values_model(vals@) =~= Seq::<ValueModel>::empty());
        Some((vals, i + 2))
    } else {
        parse_values(line, s, i + 1)
    }
}

/// `name=value` starting at `i`.
fn parse_variable(line: &str, s: &Vec<char>, i: usize) -> (r: Option<(Variable, usize)>)
    requires
        s@ == line@,
        i <= s.len(),
    ensures
        match r {
            Some((v, j)) => variable_at(s@, i as int) == Some((v@, j as int)) && i < j <= s.len(),
            None => variable_at(s@, i as int) is None,
        },
    decreases s.len() - i, 0int,
{
    match parse_varname(line, s, i) {
        Some((name, j)) => {
            if j < s.len() && s[j] == '=' {
                match parse_value(line, s, j + 1) {
                    Some((value, k)) => Some((Variable { name, value }, k)),
                    None => None,
                }
            } else {
                None
            }
        },
        None => None,
    }
}

/// One or more variables separated by `,` and ended by `close`, starting at
/// `i`; the position returned is the one after `close`.
fn parse_variables(line: &str, s: &Vec<char>, i: usize, close: char) -> (r: Option<
    (Vec<Variable>, usize),
>)
    requires
        s@ == line@,
        i <= s.len(),
    ensures
        match r {
            Some((vars, j)) => variables_at(s@, i as int, close) == Some(
                (variables_model(vars@), j as int),
            ) && i < j <= s.len(),
            None => variables_at(s@, i as int, close) is None,
        },
    decreases s.len() - i, 1int,
{
    let (first, j0) = match parse_variable(line, s, i) {
        Some(p) => p,
        None => return None,
    };
    let mut acc: Vec<Variable> = Vec::new();
    proof {
        lemma_variables_model_push(acc@, first);
        assert(Seq::<VariableModel>::empty() + seq![first@] =~= seq![first@]);
    }
    acc.push(first);
    let mut j: usize = j0;
    loop
        invariant
            s@ == line@,
            i < j <= s.len(),
            variables_at(s@, i as int, close) == prepend(
                variables_model(acc@),
                variables_tail(s@, j as int, close),
            ),
        decreases s.len() - j,
    {
        if j >= s.len() {
            return None;
        }
        if s[j] == close {
            proof {
                lemma_prepend_empty(variables_model(acc@), j + 1);
            }
            return Some((acc, j + 1));
        }
        if s[j] != ',' {
            return None;
        }
        match parse_variable(line, s, j + 1) {
            Some((v, k)) => {
                proof {
                    lemma_prepend_prepend(
                        variables_model(acc@),
                        seq![v@],
                        variables_tail(s@, k as int, close),
                    );
                    lemma_variables_model_push(acc@, v);
                }
                acc.push(v);
                j = k;
            },
            None => return None,
        }
    }
}

/// One or more values separated by `,` and ended by `]`, starting at `i`;
/// the position returned is the one after `]`.
fn parse_values(line: &str, s: &Vec<char>, i: usize) -> (r: Option<(Vec<Value>, usize)>)
    requires
        s@ == line@,
        i <= s.len(),
    ensures
        match r {
            Some((vals, j)) => values_at(s@, i as int) == Some((values_model(vals@), j as int))
                && i < j <= s.len(),
            None => values_at(s@, i as int) is None,
        },
    decreases s.len() - i, 2int,
{
    let (first, j0) = match parse_value(line, s, i) {
        Some(p) => p,
        None => return None,
    };
    let mut acc: Vec<Value> = Vec::new();
    proof {
        lemma_values_model_push(acc@, first);
        assert(Seq::<ValueModel>::empty() + seq![first@] =~= seq![first@]);
    }
    acc.push(first);
    let mut j: usize = j0;
    loop
        invariant
            s@ == line@,
            i < j <= s.len(),
            values_at(s@, i as int) == prepend(values_model(acc@), values_tail(s@, j as int)),
        decreases s.len() - j,
    {
        if j >= s.len() {
            return None;
        }
        if s[j] == ']' {
            proof {
                lemma_prepend_empty(values_model(acc@), j + 1);
            }
            return Some((acc, j + 1));
        }
        if s[j] != ',' {
            return None;
        }
        match parse_value(line, s, j + 1) {
            Some((v, k)) => {
                proof {
                    lemma_prepend_prepend(
                        values_model(acc@),
                        seq![v@],
                        values_tail(s@, k as int),
                    );
                    lemma_values_model_push(acc@, v);
                }
                acc.push(v);
                j = k;
            },
            None => return None,
        }
    }
}

/// A result class starting at `i`, from the closed vocabulary.
fn parse_result_class(line: &str, s: &Vec<char>, i: usize) -> (r: Option<(ResultClass, usize)>)
    requires
        s@ == line@,
        i <= s.len(),
    ensures
        match r {
            Some((c, j)) => name_at(s@, i as int) matches Some((n, k)) && k == j
                && result_class_of(n) == Some(c) && j <= s.len(),
            None => name_at(s@, i as int) matches Some((n, _)) ==> result_class_of(n) is None,
        },
{
    let (name, j) = match parse_varname(line, s, i) {
        Some(p) => p,
        None => return None,
    };
    match ResultClass::from_name(name.as_str()) {
        Some(class) => Some((class, j)),
        None => None,
    }
}

/// An asynchronous class starting at `i`: `stopped`, or any other name.
fn parse_async_class(line: &str, s: &Vec<char>, i: usize) -> (r: Option<(AsyncClass, usize)>)
    requires
        s@ == line@,
        i <= s.len(),
    ensures
        match r {
            Some((c, j)) => name_at(s@, i as int) matches Some((n, k)) && k == j
                && async_class_of(n) == c && j <= s.len(),
            None => name_at(s@, i as int) is None,
        },
{
    let (name, j) = match parse_varname(line, s, i) {
        Some(p) => p,
        None => return None,
    };
    Some((AsyncClass::from_name(name.as_str()), j))
}

/// What follows the class of a result or asynchronous line.
fn parse_content(line: &str, s: &Vec<char>, i: usize) -> (r: Option<Vec<Variable>>)
    requires
        s@ == line@,
        i <= s.len(),
    ensures
        match r {
            Some(vars) => content_at(s@, i as int) == Some(variables_model(vars@)),
            None => content_at(s@, i as int) is None,
        },
{
    if i < s.len() && s[i] == '\n' {
        let vars: Vec<Variable> = Vec::new();
        assert(variables_model(vars@) =~= Seq::<VariableModel>::empty());
        Some(vars)
    } else if i < s.len() && s[i] == ',' {
        match parse_variables(line, s, i + 1, '\n') {
            Some((vars, _)) => Some(vars),
            None => None,
        }
    } else {
        None
    }
}

fn result_record_of(line: &str, s: &Vec<char>) -> (r: Option<MessageRecord<ResultClass>>)
    requires
        s@ == line@,
    ensures
        match r {
            Some(m) => result_line(s@) == Some(m@),
            None => result_line(s@) is None,
        },
{
    let (token, t) = parse_token(line, s);
    proof {
        lemma_digits_end_bounds(s@, 0);
    }
    if t < s.len() && s[t] == '^' {
        match parse_result_class(line, s, t + 1) {
            Some((class, j)) => match parse_content(line, s, j) {
                Some(content) => Some(MessageRecord { token, class, content }),
                None => None,
            },
            None => None,
        }
    } else {
        None
    }
}

fn async_record_of(line: &str, s: &Vec<char>) -> (r: Option<AsyncRecord>)
    requires
        s@ == line@,
    ensures
        match r {
            Some(a) => async_line(s@) == Some(a@),
            None => async_line(s@) is None,
        },
{
    let (token, t) = parse_token(line, s);
    proof {
        lemma_digits_end_bounds(s@, 0);
    }
    if t >= s.len() {
        return None;
    }
    let sigil = s[t];
    if sigil != '*' && sigil != '+' && sigil != '=' {
        return None;
    }
    match parse_async_class(line, s, t + 1) {
        Some((class, j)) => match parse_content(line, s, j) {
            Some(content) => {
                let m = MessageRecord { token, class, content };
                if sigil == '*' {
                    Some(AsyncRecord::Exec(m))
                } else if sigil == '+' {
                    Some(AsyncRecord::Status(m))
                } else {
                    Some(AsyncRecord::Notify(m))
                }
            },
            None => None,
        },
        None => None,
    }
}

fn stream_record_of(line: &str, s: &Vec<char>) -> (r: Option<StreamRecord>)
    requires
        s@ == line@,
    ensures
        match r {
            Some(st) => stream_line(s@) == Some(st@),
            None => stream_line(s@) is None,
        },
{
    if s.len() == 0 {
        return None;
    }
    let sigil = s[0];
    if sigil != '~' && sigil != '@' && sigil != '&' {
        return None;
    }
    match parse_constant(line, s, 1) {
        Some((c, j)) => {
            if j == s.len() - 1 && s[j] == '\n' {
                if sigil == '~' {
                    Some(StreamRecord::Console(c))
                } else if sigil == '@' {
                    Some(StreamRecord::Target(c))
                } else {
                    Some(StreamRecord::Log(c))
                }
            } else {
                None
            }
        },
        None => None,
    }
}

/// Reads `line` as a result record: `[token] "^" class ["," variable]* "\n"`,
/// where the class is one of `done`, `running`, `connected`, `error`, `exit`.
pub fn parse_result_line(line: &str) -> (r: Option<MessageRecord<ResultClass>>)
    ensures
        match r {
            Some(m) => result_line(line@) == Some(m@),
            None => result_line(line@) is None,
        },
{
    let s = chars_of(line);
    result_record_of(line, &s)
}

/// Reads `line` as an asynchronous record:
/// `[token] ("*" | "+" | "=") class ["," variable]* "\n"`.
pub fn parse_async_line(line: &str) -> (r: Option<AsyncRecord>)
    ensures
        match r {
            Some(a) => async_line(line@) == Some(a@),
            None => async_line(line@) is None,
        },
{
    let s = chars_of(line);
    async_record_of(line, &s)
}

/// Reads `line` as a stream record: `("~" | "@" | "&") constant "\n"`.
pub fn parse_stream_line(line: &str) -> (r: Option<StreamRecord>)
    ensures
        match r {
            Some(st) => stream_line(line@) == Some(st@),
            None => stream_line(line@) is None,
        },
{
    let s = chars_of(line);
    stream_record_of(line, &s)
}

/// Classifies one line of output; a line of no known shape is a parse error.
pub fn parse_line(line: &str) -> (r: Result<Record, Error>)
    ensures
        match r {
            Ok(rec) => line_record(line@) == Some(rec@),
            Err(e) => line_record(line@) is None && e is ParseError,
        },
{
    let s = chars_of(line);
    if let Some(m) = result_record_of(line, &s) {
        Ok(Record::Result(m))
    } else if let Some(a) = async_record_of(line, &s) {
        Ok(Record::Async(a))
    } else if let Some(st) = stream_record_of(line, &s) {
        Ok(Record::Stream(st))
    } else {
        Err(Error::ParseError)
    }
}

} // verus!
