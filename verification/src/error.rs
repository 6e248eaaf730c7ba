//! The error type of the library.

use vstd::prelude::*;

verus! {

/// The kinds of values, as errors name them.
#[derive(PartialEq, Eq, Structural, Clone, Copy, Debug)]
pub enum Kind {
    Dict,
    List,
    Str,
    Number,
    Bool,
    Tuple,
    Callable,
    PyNone,
    PySet,
}

/// The binary operations on values.
#[derive(PartialEq, Eq, Structural, Clone, Copy, Debug)]
pub enum Operation {
    Add,
    Sub,
    Mul,
    And,
    Or,
}

/// The ways in which the library's operations fail.
#[derive(Debug)]
pub enum Error {
    /// An error with a free-form message.
    Message(String),
    /// A value of one kind was given where another kind was needed.
    WrongKind { wanted: Kind, got: Kind },
    /// A dict key or set item that cannot be hashed.
    Unhashable(Kind),
    /// Bitwise `and` or `or` on floats.
    FloatBitwise,
    /// A list was extended with something other than a list.
    CantExtend(Kind),
    /// A list index that is not a non-negative integer fitting in a `usize`.
    InvalidListIndex,
    /// A tuple of the wrong length was given to a class.
    WrongArity { arity: usize, given: usize },
    /// The pickle ended before the end of the stream.
    StreamExhausted,
    /// The pickle ended before the end of the current frame.
    FrameExhausted,
    /// A frame started before the current one was finished.
    FrameNotFinished,
    /// A frame size that does not fit in a `usize`.
    FrameTooLarge,
    /// An op needed a value from the stack, and the stack was empty.
    EmptyStack,
    /// An op needed a mark, and there was none.
    EmptyMetaStack,
    /// A memo lookup for a key that was never stored.
    MemoNotFound,
    /// Text that is not valid UTF-8.
    InvalidUtf8,
    /// A protocol newer than the reader understands.
    UnsupportedProtocol(u8),
    /// A known op that this reader does not handle.
    UnhandledOp(u8),
    /// A byte that is no op at all.
    UnknownOp(u8),
    /// A global that the reader does not know.
    ClassNotFound { module: String, name: String },
    /// A multiworld file of a format version this reader does not know.
    UnsupportedFormat(u8),
    /// The compressed payload of a multiworld file could not be inflated.
    Decompression,
    /// Bytes that are not a zip archive.
    InvalidArchive,
    /// A zip archive with no member whose name ends in `.archipelago`.
    NoMultiworldMember,
    /// A member of a zip archive that could not be read.
    UnreadableMember(String),
    /// An operation on values of kinds it does not apply to.
    CantApply { op: Operation, lhs: Kind, rhs: Kind },
    /// Text that spells no UUID.
    InvalidUuid,
}

/// What an error stands for: the same as [`Error`], with text as sequences of chars.
pub enum ErrorModel {
    Message(Seq<char>),
    WrongKind { wanted: Kind, got: Kind },
    Unhashable(Kind),
    FloatBitwise,
    CantExtend(Kind),
    InvalidListIndex,
    WrongArity { arity: usize, given: usize },
    StreamExhausted,
    FrameExhausted,
    FrameNotFinished,
    FrameTooLarge,
    EmptyStack,
    EmptyMetaStack,
    MemoNotFound,
    InvalidUtf8,
    UnsupportedProtocol(u8),
    UnhandledOp(u8),
    UnknownOp(u8),
    ClassNotFound { module: Seq<char>, name: Seq<char> },
    UnsupportedFormat(u8),
    Decompression,
    InvalidArchive,
    NoMultiworldMember,
    UnreadableMember(Seq<char>),
    CantApply { op: Operation, lhs: Kind, rhs: Kind },
    InvalidUuid,
}

impl View for Error {
    type V = ErrorModel;

    open spec fn view(&self) -> ErrorModel {
        match self {
            Error::Message(m) => ErrorModel::Message(m@),
            Error::WrongKind { wanted, got } => ErrorModel::WrongKind { wanted: *wanted, got: *got },
            Error::Unhashable(k) => ErrorModel::Unhashable(*k),
            Error::FloatBitwise => ErrorModel::FloatBitwise,
            Error::CantExtend(k) => ErrorModel::CantExtend(*k),
            Error::InvalidListIndex => ErrorModel::InvalidListIndex,
            Error::WrongArity { arity, given } => ErrorModel::WrongArity {
                arity: *arity,
                given: *given,
            },
            Error::StreamExhausted => ErrorModel::StreamExhausted,
            Error::FrameExhausted => ErrorModel::FrameExhausted,
            Error::FrameNotFinished => ErrorModel::FrameNotFinished,
            Error::FrameTooLarge => ErrorModel::FrameTooLarge,
            Error::EmptyStack => ErrorModel::EmptyStack,
            Error::EmptyMetaStack => ErrorModel::EmptyMetaStack,
            Error::MemoNotFound => ErrorModel::MemoNotFound,
            Error::InvalidUtf8 => ErrorModel::InvalidUtf8,
            Error::UnsupportedProtocol(p) => ErrorModel::UnsupportedProtocol(*p),
            Error::UnhandledOp(op) => ErrorModel::UnhandledOp(*op),
            Error::UnknownOp(op) => ErrorModel::UnknownOp(*op),
            Error::ClassNotFound { module, name } => ErrorModel::ClassNotFound {
                module: module@,
                name: name@,
            },
            Error::UnsupportedFormat(v) => ErrorModel::UnsupportedFormat(*v),
            Error::Decompression => ErrorModel::Decompression,
            Error::InvalidArchive => ErrorModel::InvalidArchive,
            Error::NoMultiworldMember => ErrorModel::NoMultiworldMember,
            Error::UnreadableMember(name) => ErrorModel::UnreadableMember(name@),
            Error::CantApply { op, lhs, rhs } => ErrorModel::CantApply { op: *op, lhs: *lhs, rhs: *rhs },
            Error::InvalidUuid => ErrorModel::InvalidUuid,
        }
    }
}

impl Error {
    /// An error with the given message.
    pub fn msg(message: String) -> (r: Error)
        ensures
            r matches Error::Message(m) && m@ == message@,
    {
        Error::Message(message)
    }
}

/// An error of (de)serialising values, with its message.
#[derive(Debug)]
pub struct SerdeError {
    message: String,
}

impl SerdeError {
    /// An error with the given message.
    pub fn msg(message: &str) -> (r: SerdeError)
        ensures
            r.message()@ == message@,
    {
        SerdeError { message: message.to_owned() }
    }

    pub closed spec fn message(&self) -> String {
        self.message
    }

    /// The message.
    pub fn as_str(&self) -> (r: &str)
        ensures
            r@ == self.message()@,
    {
        self.message.as_str()
    }
}

} // verus!
