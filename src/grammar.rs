use vstd::prelude::*;

use crate::msg::{
    AsyncClass, AsyncModel, MessageModel, RecordModel, ResultClass, StreamModel, ValueModel,
    VariableModel,
};

verus! {

// The grammar of one line of debugger output, as spec functions on the
// characters of the line. A function named `..._at(s, i)` reads `s` from
// position `i` and yields what it recognised together with the position just
// after it, or `None` when nothing of its shape starts there.

/// The line that closes one burst of output.
pub open spec fn sentinel() -> Seq<char> {
    "(gdb) \n"@
}

pub open spec fn is_digit(c: char) -> bool {
    '0' <= c && c <= '9'
}

pub open spec fn is_name_start(c: char) -> bool {
    ('a' <= c && c <= 'z') || ('A' <= c && c <= 'Z') || c == '_'
}

pub open spec fn is_name_char(c: char) -> bool {
    is_name_start(c) || is_digit(c) || c == '-'
}

/// End of the longest run of digits that starts at `i`.
pub open spec fn digits_end(s: Seq<char>, i: int) -> int
    decreases s.len() - i,
{
    if 0 <= i < s.len() && is_digit(s[i]) {
        digits_end(s, i + 1)
    } else {
        i
    }
}

/// End of the longest run of name characters that starts at `i`.
pub open spec fn name_end(s: Seq<char>, i: int) -> int
    decreases s.len() - i,
{
    if 0 <= i < s.len() && is_name_char(s[i]) {
        name_end(s, i + 1)
    } else {
        i
    }
}

/// Position of the first `"` at or after `i` that is not escaped, that is,
/// not right after a backslash: `\"` stands for a quote inside the text.
pub open spec fn closing_quote(s: Seq<char>, i: int) -> Option<int>
    decreases s.len() - i,
{
    if !(0 <= i < s.len()) {
        None
    } else if s[i] == '\\' && i + 1 < s.len() && s[i + 1] == '"' {
        closing_quote(s, i + 2)
    } else if s[i] == '"' {
        Some(i)
    } else {
        closing_quote(s, i + 1)
    }
}

/// A quoted constant; what it yields is the text between the quotes.
pub open spec fn constant_at(s: Seq<char>, i: int) -> Option<(Seq<char>, int)> {
    if 0 <= i < s.len() && s[i] == '"' {
        match closing_quote(s, i + 1) {
            Some(k) => Some((s.subrange(i + 1, k), k + 1)),
            None => None,
        }
    } else {
        None
    }
}

/// A name, `[A-Za-z_][A-Za-z0-9_-]*`, longest match.
pub open spec fn name_at(s: Seq<char>, i: int) -> Option<(Seq<char>, int)> {
    if 0 <= i < s.len() && is_name_start(s[i]) {
        Some((s.subrange(i, name_end(s, i + 1)), name_end(s, i + 1)))
    } else {
        None
    }
}

/// A value: a constant, else a tuple, else a list.
pub open spec fn value_at(s: Seq<char>, i: int) -> Option<(ValueModel, int)>
    decreases s.len() - i, 1int,
{
    if !(0 <= i <= s.len()) {
        None
    } else {
        match constant_at(s, i) {
            Some((c, j)) => Some((ValueModel::Str(c), j)),
            None => match tuple_at(s, i) {
                Some((vars, j)) => Some((ValueModel::Tuple(vars), j)),
                None => match list_at(s, i) {
                    Some((vals, j)) => Some((ValueModel::List(vals), j)),
                    None => None,
                },
            },
        }
    }
}

/// `{}`, or `{` or `[` followed by one or more variables and the matching
/// closer. An empty `[]` is not a tuple: it is left to the list.
pub open spec fn tuple_at(s: Seq<char>, i: int) -> Option<(Seq<VariableModel>, int)>
    decreases s.len() - i, 0int,
{
    if !(0 <= i < s.len()) {
        None
    } else if s[i] == '{' {
        if i + 1 < s.len() && s[i + 1] == '}' {
            Some((Seq::empty(), i + 2))
        } else {
            variables_at(s, i + 1, '}')
        }
    } else if s[i] == '[' {
        variables_at(s, i + 1, ']')
    } else {
        None
    }
}

/// `[]`, or `[` followed by one or more values and `]`.
pub open spec fn list_at(s: Seq<char>, i: int) -> Option<(Seq<ValueModel>, int)>
    decreases s.len() - i, 0int,
{
    if !(0 <= i < s.len()) || s[i] != '[' {
        None
    } else if i + 1 < s.len() && s[i + 1] == ']' {
        Some((Seq::empty(), i + 2))
    } else {
        values_at(s, i + 1)
    }
}

/// `name=value`.
pub open spec fn variable_at(s: Seq<char>, i: int) -> Option<(VariableModel, int)>
    decreases s.len() - i, 0int,
    via variable_at_decreases
{
    match name_at(s, i) {
        Some((name, j)) => if j < s.len() && s[j] == '=' {
            match value_at(s, j + 1) {
                Some((value, k)) => Some((VariableModel { name, value }, k)),
                None => None,
            }
        } else {
            None
        },
        None => None,
    }
}

#[via_fn]
proof fn variable_at_decreases(s: Seq<char>, i: int) {
    if 0 <= i < s.len() {
        lemma_name_end_bounds(s, i + 1);
    }
}

/// Puts `a` in front of what a successful parse yielded.
pub open spec fn prepend<T>(a: Seq<T>, r: Option<(Seq<T>, int)>) -> Option<(Seq<T>, int)> {
    match r {
        Some((rest, k)) => Some((a + rest, k)),
        None => None,
    }
}

/// One or more variables separated by `,`, then `close`.
pub open spec fn variables_at(s: Seq<char>, i: int, close: char) -> Option<
    (Seq<VariableModel>, int),
>
    decreases s.len() - i, 1int,
{
    match variable_at(s, i) {
        // every variable takes up at least one character
        Some((v, j)) => if i < j <= s.len() {
            prepend(seq![v], variables_tail(s, j, close))
        } else {
            None
        },
        None => None,
    }
}

/// What follows a variable in a sequence: `close`, or `,` and more variables.
pub open spec fn variables_tail(s: Seq<char>, i: int, close: char) -> Option<
    (Seq<VariableModel>, int),
>
    decreases s.len() - i, 0int,
{
    if !(0 <= i < s.len()) {
        None
    } else if s[i] == close {
        Some((Seq::empty(), i + 1))
    } else if s[i] == ',' {
        variables_at(s, i + 1, close)
    } else {
        None
    }
}

/// One or more values separated by `,`, then `]`.
pub open spec fn values_at(s: Seq<char>, i: int) -> Option<(Seq<ValueModel>, int)>
    decreases s.len() - i, 2int,
{
    match value_at(s, i) {
        // every value takes up at least one character
        Some((v, j)) => if i < j <= s.len() {
            prepend(seq![v], values_tail(s, j))
        } else {
            None
        },
        None => None,
    }
}

/// What follows a value in a list: `]`, or `,` and more values.
pub open spec fn values_tail(s: Seq<char>, i: int) -> Option<(Seq<ValueModel>, int)>
    decreases s.len() - i, 0int,
{
    if !(0 <= i < s.len()) {
        None
    } else if s[i] == ']' {
        Some((Seq::empty(), i + 1))
    } else if s[i] == ',' {
        values_at(s, i + 1)
    } else {
        None
    }
}

// ---------------------------------------------------------------------------
// Lines
// ---------------------------------------------------------------------------

/// The optional run of digits at the start of a line.
pub open spec fn token_of(s: Seq<char>) -> Option<Seq<char>> {
    if digits_end(s, 0) > 0 {
        Some(s.subrange(0, digits_end(s, 0)))
    } else {
        None
    }
}

/// What follows the class of a result or asynchronous line: the newline, or
/// `,` and one or more variables up to the newline.
pub open spec fn content_at(s: Seq<char>, i: int) -> Option<Seq<VariableModel>> {
    if 0 <= i < s.len() && s[i] == '\n' {
        Some(Seq::empty())
    } else if 0 <= i < s.len() && s[i] == ',' {
        match variables_at(s, i + 1, '\n') {
            Some((vars, _)) => Some(vars),
            None => None,
        }
    } else {
        None
    }
}

/// The closed vocabulary of result classes.
pub open spec fn result_class_of(name: Seq<char>) -> Option<ResultClass> {
    if name == "done"@ {
        Some(ResultClass::Done)
    } else if name == "running"@ {
        Some(ResultClass::Running)
    } else if name == "connected"@ {
        Some(ResultClass::Connected)
    } else if name == "error"@ {
        Some(ResultClass::Error)
    } else if name == "exit"@ {
        Some(ResultClass::Exit)
    } else {
        None
    }
}

pub open spec fn async_class_of(name: Seq<char>) -> AsyncClass {
    if name == "stopped"@ {
        AsyncClass::Stopped
    } else {
        AsyncClass::Other
    }
}

/// `[token] "^" class content`.
pub open spec fn result_line(s: Seq<char>) -> Option<MessageModel<ResultClass>> {
    let t = digits_end(s, 0);
    if t < s.len() && s[t] == '^' {
        match name_at(s, t + 1) {
            Some((name, j)) => match (result_class_of(name), content_at(s, j)) {
                (Some(class), Some(content)) => Some(
                    MessageModel { token: token_of(s), class, content },
                ),
                _ => None,
            },
            None => None,
        }
    } else {
        None
    }
}

pub open spec fn is_async_sigil(c: char) -> bool {
    c == '*' || c == '+' || c == '='
}

/// `[token] ("*" | "+" | "=") class content`.
pub open spec fn async_line(s: Seq<char>) -> Option<AsyncModel> {
    let t = digits_end(s, 0);
    if t < s.len() && is_async_sigil(s[t]) {
        match name_at(s, t + 1) {
            Some((name, j)) => match content_at(s, j) {
                Some(content) => {
                    let class = async_class_of(name);
                    let m = MessageModel { token: token_of(s), class, content };
                    Some(
                        if s[t] == '*' {
                            AsyncModel::Exec(m)
                        } else if s[t] == '+' {
                            AsyncModel::Status(m)
                        } else {
                            AsyncModel::Notify(m)
                        },
                    )
                },
                None => None,
            },
            None => None,
        }
    } else {
        None
    }
}

pub open spec fn is_stream_sigil(c: char) -> bool {
    c == '~' || c == '@' || c == '&'
}

/// `("~" | "@" | "&") constant "\n"`, with nothing after the newline.
pub open spec fn stream_line(s: Seq<char>) -> Option<StreamModel> {
    if 0 < s.len() && is_stream_sigil(s[0]) {
        match constant_at(s, 1) {
            Some((c, j)) => if j == s.len() - 1 && s[j] == '\n' {
                Some(
                    if s[0] == '~' {
                        StreamModel::Console(c)
                    } else if s[0] == '@' {
                        StreamModel::Target(c)
                    } else {
                        StreamModel::Log(c)
                    },
                )
            } else {
                None
            },
            None => None,
        }
    } else {
        None
    }
}

/// The record that a line holds, if it holds one.
pub open spec fn line_record(s: Seq<char>) -> Option<RecordModel> {
    match result_line(s) {
        Some(m) => Some(RecordModel::Result(m)),
        None => match async_line(s) {
            Some(a) => Some(RecordModel::Async(a)),
            None => match stream_line(s) {
                Some(st) => Some(RecordModel::Stream(st)),
                None => None,
            },
        },
    }
}

// ---------------------------------------------------------------------------
// Basic facts
// ---------------------------------------------------------------------------

pub proof fn lemma_digits_end_bounds(s: Seq<char>, i: int)
    requires
        0 <= i <= s.len(),
    ensures
        i <= digits_end(s, i) <= s.len(),
    decreases s.len() - i,
{
    if i < s.len() && is_digit(s[i]) {
        lemma_digits_end_bounds(s, i + 1);
    }
}

pub proof fn lemma_name_end_bounds(s: Seq<char>, i: int)
    requires
        0 <= i <= s.len(),
    ensures
        i <= name_end(s, i) <= s.len(),
    decreases s.len() - i,
{
    if i < s.len() && is_name_char(s[i]) {
        lemma_name_end_bounds(s, i + 1);
    }
}

// ---------------------------------------------------------------------------
// Laws of the value grammar
// ---------------------------------------------------------------------------

/// What a value starts with: a quote or an opening bracket.
pub proof fn lemma_value_start(s: Seq<char>, i: int)
    requires
        value_at(s, i) is Some,
    ensures
        0 <= i < s.len(),
        s[i] == '"' || s[i] == '{' || s[i] == '[',
{
}

/// A bracketed span is never both a tuple and a list: a tuple's first element
/// starts with a name, a list's with a quote or a bracket.
pub proof fn lemma_bracket_unambiguous(s: Seq<char>, i: int)
    ensures
        !(tuple_at(s, i) is Some && list_at(s, i) is Some),
{
    if tuple_at(s, i) is Some && list_at(s, i) is Some {
        assert(s[i] == '[');
        assert(variable_at(s, i + 1) is Some);
        assert(is_name_start(s[i + 1]));
        if !(i + 1 < s.len() && s[i + 1] == ']') {
            assert(values_at(s, i + 1) is Some);
            lemma_value_start(s, i + 1);
        }
    }
}

/// `{}` is always the empty tuple, and `[]` the empty list: with no element
/// to tell them apart, the empty list wins.
pub proof fn lemma_empty_forms(s: Seq<char>, i: int)
    requires
        0 <= i,
        i + 1 < s.len(),
    ensures
        s[i] == '{' && s[i + 1] == '}' ==> value_at(s, i) == Some(
            (ValueModel::Tuple(Seq::empty()), i + 2),
        ),
        s[i] == '[' && s[i + 1] == ']' ==> value_at(s, i) == Some(
            (ValueModel::List(Seq::empty()), i + 2),
        ),
{
    if s[i] == '[' && s[i + 1] == ']' {
        assert(variable_at(s, i + 1) is None);
        assert(tuple_at(s, i) is None);
    }
}

/// The vocabulary of result classes is closed: a result line whose class
/// name is none of `done`, `running`, `connected`, `error`, `exit` holds no
/// record at all, whatever follows the name.
pub proof fn lemma_unknown_result_class(s: Seq<char>, name: Seq<char>, j: int)
    requires
        digits_end(s, 0) < s.len(),
        s[digits_end(s, 0)] == '^',
        name_at(s, digits_end(s, 0) + 1) == Some((name, j)),
        result_class_of(name) is None,
    ensures
        result_line(s) is None,
        line_record(s) is None,
{
    lemma_digits_end_bounds(s, 0);
    if digits_end(s, 0) > 0 {
        lemma_digits_start(s);
    }
}

proof fn lemma_digits_start(s: Seq<char>)
    requires
        digits_end(s, 0) > 0,
    ensures
        s.len() > 0 && is_digit(s[0]),
{
}

} // verus!
