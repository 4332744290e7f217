use vstd::prelude::*;

use crate::grammar::{async_class_of, result_class_of};

verus! {

/// Text of a quoted constant, kept as it stood between the quotes.
pub type Constant = String;

/// Name of a variable, `[A-Za-z_][A-Za-z0-9_-]*`.
pub type VarName = String;

/// One classified line of debugger output.
#[derive(Debug, PartialEq)]
pub enum Record {
    Result(MessageRecord<ResultClass>),
    Async(AsyncRecord),
    Stream(StreamRecord),
}

/// A result or asynchronous record: optional token, class, and the
/// `name=value` pairs in the order in which they stood on the line.
#[derive(Debug, PartialEq)]
pub struct MessageRecord<ClassT> {
    pub token: Option<String>,
    pub class: ClassT,
    pub content: Vec<Variable>,
}

#[derive(Debug, PartialEq, Eq, Structural, Clone, Copy)]
pub enum ResultClass {
    Done,
    Running,
    Connected,
    Error,
    Exit,
}

#[derive(Debug, PartialEq, Eq, Structural, Clone, Copy)]
pub enum AsyncClass {
    Stopped,
    Other,
}

#[derive(Debug, PartialEq)]
pub enum AsyncRecord {
    Exec(MessageRecord<AsyncClass>),
    Status(MessageRecord<AsyncClass>),
    Notify(MessageRecord<AsyncClass>),
}

#[derive(Debug, PartialEq)]
pub enum StreamRecord {
    Console(Constant),
    Target(Constant),
    Log(Constant),
}

#[derive(Debug, PartialEq)]
pub struct Variable {
    pub name: VarName,
    pub value: Value,
}

/// A value: a constant, a tuple of named values, or a list of values.
#[derive(Debug, PartialEq)]
pub enum Value {
    String(Constant),
    VariableList(Vec<Variable>),
    ValueList(Vec<Value>),
}

// ---------------------------------------------------------------------------
// Mathematical models
// ---------------------------------------------------------------------------

pub enum ValueModel {
    Str(Seq<char>),
    Tuple(Seq<VariableModel>),
    List(Seq<ValueModel>),
}

pub struct VariableModel {
    pub name: Seq<char>,
    pub value: ValueModel,
}

pub struct MessageModel<C> {
    pub token: Option<Seq<char>>,
    pub class: C,
    pub content: Seq<VariableModel>,
}

pub enum AsyncModel {
    Exec(MessageModel<AsyncClass>),
    Status(MessageModel<AsyncClass>),
    Notify(MessageModel<AsyncClass>),
}

pub enum StreamModel {
    Console(Seq<char>),
    Target(Seq<char>),
    Log(Seq<char>),
}

pub enum RecordModel {
    Result(MessageModel<ResultClass>),
    Async(AsyncModel),
    Stream(StreamModel),
}

pub open spec fn value_model(v: Value) -> ValueModel
    decreases v,
{
    match v {
        Value::String(c) => ValueModel::Str(c@),
        Value::VariableList(vars) => ValueModel::Tuple(variables_model(vars@)),
        Value::ValueList(vals) => ValueModel::List(values_model(vals@)),
    }
}

pub open spec fn variables_model(vars: Seq<Variable>) -> Seq<VariableModel>
    decreases vars,
{
    if vars.len() == 0 {
        Seq::empty()
    } else {
        let last = vars[vars.len() - 1];
        variables_model(vars.subrange(0, vars.len() - 1)).push(
            VariableModel { name: last.name@, value: value_model(last.value) },
        )
    }
}

pub open spec fn values_model(vals: Seq<Value>) -> Seq<ValueModel>
    decreases vals,
{
    if vals.len() == 0 {
        Seq::empty()
    } else {
        values_model(vals.subrange(0, vals.len() - 1)).push(value_model(vals[vals.len() - 1]))
    }
}

pub open spec fn token_model(t: Option<String>) -> Option<Seq<char>> {
    match t {
        Some(s) => Some(s@),
        None => None,
    }
}

pub open spec fn message_model<C>(m: MessageRecord<C>) -> MessageModel<C> {
    MessageModel {
        token: token_model(m.token),
        class: m.class,
        content: variables_model(m.content@),
    }
}

impl View for Value {
    type V = ValueModel;

    open spec fn view(&self) -> ValueModel {
        value_model(*self)
    }
}

impl View for Variable {
    type V = VariableModel;

    open spec fn view(&self) -> VariableModel {
        VariableModel { name: self.name@, value: value_model(self.value) }
    }
}

impl<C> View for MessageRecord<C> {
    type V = MessageModel<C>;

    open spec fn view(&self) -> MessageModel<C> {
        message_model(*self)
    }
}

impl View for AsyncRecord {
    type V = AsyncModel;

    open spec fn view(&self) -> AsyncModel {
        match self {
            AsyncRecord::Exec(m) => AsyncModel::Exec(m@),
            AsyncRecord::Status(m) => AsyncModel::Status(m@),
            AsyncRecord::Notify(m) => AsyncModel::Notify(m@),
        }
    }
}

impl View for StreamRecord {
    type V = StreamModel;

    open spec fn view(&self) -> StreamModel {
        match self {
            StreamRecord::Console(c) => StreamModel::Console(c@),
            StreamRecord::Target(c) => StreamModel::Target(c@),
            StreamRecord::Log(c) => StreamModel::Log(c@),
        }
    }
}

impl View for Record {
    type V = RecordModel;

    open spec fn view(&self) -> RecordModel {
        match self {
            Record::Result(m) => RecordModel::Result(m@),
            Record::Async(a) => RecordModel::Async(a@),
            Record::Stream(s) => RecordModel::Stream(s@),
        }
    }
}

/// Whether `a` holds exactly the characters of `b`.
fn same_text(a: &str, b: &str) -> (r: bool)
    ensures
        r == (a@ == b@),
{
    String::from_str(a) == String::from_str(b)
}

impl ResultClass {
    /// The class that a result line names: `done`, `running`, `connected`,
    /// `error` or `exit`; any other name is none.
    pub fn from_name(name: &str) -> (r: Option<ResultClass>)
        ensures
            r == result_class_of(name@),
    {
        if same_text(name, "done") {
            Some(ResultClass::Done)
        } else if same_text(name, "running") {
            Some(ResultClass::Running)
        } else if same_text(name, "connected") {
            Some(ResultClass::Connected)
        } else if same_text(name, "error") {
            Some(ResultClass::Error)
        } else if same_text(name, "exit") {
            Some(ResultClass::Exit)
        } else {
            None
        }
    }
}

impl AsyncClass {
    /// The class that an asynchronous line names: `stopped`, or any other.
    pub fn from_name(name: &str) -> (r: AsyncClass)
        ensures
            r == async_class_of(name@),
    {
        if same_text(name, "stopped") {
            AsyncClass::Stopped
        } else {
            AsyncClass::Other
        }
    }
}

impl std::str::FromStr for ResultClass {
    type Err = String;

    fn from_str(s: &str) -> (r: Result<ResultClass, String>)
        ensures
            match result_class_of(s@) {
                Some(c) => r == Ok::<ResultClass, String>(c),
                None => r is Err,
            },
    {
        match ResultClass::from_name(s) {
            Some(class) => Ok(class),
            None => Err("unrecognized result class".to_owned()),
        }
    }
}

impl std::str::FromStr for AsyncClass {
    type Err = String;

    fn from_str(s: &str) -> (r: Result<AsyncClass, String>)
        ensures
            r == Ok::<AsyncClass, String>(async_class_of(s@)),
    {
        Ok(AsyncClass::from_name(s))
    }
}

} // verus!
