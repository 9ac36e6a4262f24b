//! What can end a run early.

use vstd::prelude::*;

verus! {

/// What can end a run early. Each variant carries the message of its cause.
#[derive(Debug, PartialEq, Eq)]
pub enum Error {
    Locator(String),
    Network(String),
    RpcClient(String),
    Io(String),
    Data(String),
}

/// What an error tells: the message of its cause, and nothing else.
pub open spec fn message_of(e: Error) -> Seq<char> {
    match e {
        Error::Locator(message) => message@,
        Error::Network(message) => message@,
        Error::RpcClient(message) => message@,
        Error::Io(message) => message@,
        Error::Data(message) => message@,
    }
}

impl Error {
    /// The message of the cause.
    pub fn message(&self) -> (r: &str)
        ensures
            r@ == message_of(*self),
    {
        match self {
            Error::Locator(message) => message.as_str(),
            Error::Network(message) => message.as_str(),
            Error::RpcClient(message) => message.as_str(),
            Error::Io(message) => message.as_str(),
            Error::Data(message) => message.as_str(),
        }
    }
}

} // verus!
