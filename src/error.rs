//! The errors of the library, and their mathematical model.
use vstd::prelude::*;

verus! {

/// The classes of failure that callers tell apart.
#[derive(Clone, Copy, Debug, PartialEq, Eq, Structural)]
pub enum ErrorKind {
    /// The byte stream failed or ended early.
    Transport,
    /// A reply does not have the shape that the protocol prescribes.
    Protocol,
    /// A field holds bytes that are not valid text, a number, or a known tag.
    Decode,
    /// A declared collection is larger than the library accepts.
    ResourceLimit,
    /// An argument was refused before anything was sent.
    Validation,
    /// A value of a kind that the wire format defines but this library does not read.
    NotImplemented,
    /// A structured value is not of the shape the caller asked for.
    TypeMismatch,
}

/// Every failure of the library, with the raw data that caused it.
#[derive(Clone, Debug, PartialEq, Eq)]
pub enum Error {
    /// The connection broke, or the peer closed it in the middle of a reply.
    ConnectionLost,
    /// The input ended before a declared length was reached.
    Truncated,
    /// The acknowledgement line differs from the one the command calls for.
    UnexpectedEcho(Vec<u8>),
    /// The reply has no line at this index.
    MissingLine(usize),
    /// The line at this index does not have its expected layout.
    BadLine(usize, String),
    /// A token of a temperature reply is not of the form `key:current/target`.
    BadToken(String),
    /// A reply that must start with (or consist of) fixed text does not.
    UnexpectedReply(String),
    /// A datagram is too short to hold the name field.
    ShortDatagram(usize),
    /// A field that must be a decimal number is not one, or does not fit.
    BadNumber(String),
    /// Bytes that must be UTF-8 text are not.
    InvalidUtf8(Vec<u8>),
    /// A structured value starts with a tag that the format does not define.
    UnknownTag(u32),
    /// A structured value starts with a tag that the format defines but this library does not read.
    UnsupportedTag(u32),
    /// A list declares more elements than the library accepts.
    OversizedList(u32),
    /// A new machine name is longer than the device accepts (its length in bytes).
    NameTooLong(usize),
    /// A new machine name holds a character outside ASCII.
    NameNotAscii,
    /// A structured value was expected to be a list.
    NotAList,
    /// A structured value was expected to be text.
    NotText,
}

/// The model of an [`Error`]: the same variants over sequences.
pub enum Fault {
    ConnectionLost,
    Truncated,
    UnexpectedEcho(Seq<u8>),
    MissingLine(nat),
    BadLine(nat, Seq<char>),
    BadToken(Seq<char>),
    UnexpectedReply(Seq<char>),
    ShortDatagram(nat),
    BadNumber(Seq<char>),
    InvalidUtf8(Seq<u8>),
    UnknownTag(u32),
    UnsupportedTag(u32),
    OversizedList(u32),
    NameTooLong(nat),
    NameNotAscii,
    NotAList,
    NotText,
}

impl Fault {
    pub open spec fn kind(self) -> ErrorKind {
        match self {
            Fault::ConnectionLost | Fault::Truncated => ErrorKind::Transport,
            Fault::UnexpectedEcho(_) | Fault::MissingLine(_) | Fault::BadLine(_, _)
            | Fault::BadToken(_) | Fault::UnexpectedReply(_)
            | Fault::ShortDatagram(_) => ErrorKind::Protocol,
            Fault::BadNumber(_) | Fault::InvalidUtf8(_) | Fault::UnknownTag(_) => ErrorKind::Decode,
            Fault::UnsupportedTag(_) => ErrorKind::NotImplemented,
            Fault::OversizedList(_) => ErrorKind::ResourceLimit,
            Fault::NameTooLong(_) | Fault::NameNotAscii => ErrorKind::Validation,
            Fault::NotAList | Fault::NotText => ErrorKind::TypeMismatch,
        }
    }
}

impl View for Error {
    type V = Fault;

    open spec fn view(&self) -> Fault {
        match self {
            Error::ConnectionLost => Fault::ConnectionLost,
            Error::Truncated => Fault::Truncated,
            Error::UnexpectedEcho(b) => Fault::UnexpectedEcho(b@),
            Error::MissingLine(k) => Fault::MissingLine(*k as nat),
            Error::BadLine(k, l) => Fault::BadLine(*k as nat, l@),
            Error::BadToken(t) => Fault::BadToken(t@),
            Error::UnexpectedReply(t) => Fault::UnexpectedReply(t@),
            Error::ShortDatagram(n) => Fault::ShortDatagram(*n as nat),
            Error::BadNumber(t) => Fault::BadNumber(t@),
            Error::InvalidUtf8(b) => Fault::InvalidUtf8(b@),
            Error::UnknownTag(t) => Fault::UnknownTag(*t),
            Error::UnsupportedTag(t) => Fault::UnsupportedTag(*t),
            Error::OversizedList(n) => Fault::OversizedList(*n),
            Error::NameTooLong(n) => Fault::NameTooLong(*n as nat),
            Error::NameNotAscii => Fault::NameNotAscii,
            Error::NotAList => Fault::NotAList,
            Error::NotText => Fault::NotText,
        }
    }
}

impl Error {
    /// The class of this failure.
    pub fn kind(&self) -> (k: ErrorKind)
        ensures
            k == self@.kind(),
    {
        match self {
            Error::ConnectionLost | Error::Truncated => ErrorKind::Transport,
            Error::UnexpectedEcho(_) | Error::MissingLine(_) | Error::BadLine(_, _)
            | Error::BadToken(_) | Error::UnexpectedReply(_)
            | Error::ShortDatagram(_) => ErrorKind::Protocol,
            Error::BadNumber(_) | Error::InvalidUtf8(_) | Error::UnknownTag(_) => ErrorKind::Decode,
            Error::UnsupportedTag(_) => ErrorKind::NotImplemented,
            Error::OversizedList(_) => ErrorKind::ResourceLimit,
            Error::NameTooLong(_) | Error::NameNotAscii => ErrorKind::Validation,
            Error::NotAList | Error::NotText => ErrorKind::TypeMismatch,
        }
    }
}

} // verus!
