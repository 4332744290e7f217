pub mod grammar;
pub mod msg;
pub mod parser;
pub mod round_trip;
pub mod session;

pub use msg::{
    AsyncClass, AsyncRecord, Constant, MessageRecord, Record, ResultClass, StreamRecord, Value,
    VarName, Variable,
};
pub use parser::{parse_async_line, parse_line, parse_result_line, parse_stream_line};
pub use session::{Error, Session, SessionState, Step};
