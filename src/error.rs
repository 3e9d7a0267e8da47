use vstd::prelude::*;

verus! {

/// The families of failure that the key-management core reports.
#[derive(Clone, Copy, Debug, PartialEq, Eq, Structural)]
pub enum ErrorKind {
    /// An unknown provider selector or a missing setting.
    Configuration,
    /// A failure reported by the cloud key vault or its transport.
    Vault,
    /// Authenticated decryption failed: tampered data or a wrong key.
    Integrity,
    /// The referenced master key record does not exist.
    MasterKeyNotFound,
    /// A master key store operation failed.
    Store,
    /// A byte encoding could not be decoded.
    Malformed,
    /// A cryptographic primitive refused its input.
    Crypto,
    /// Anything else.
    Other,
}

/// An error of the library: a kind and a human-readable message.
#[derive(Debug)]
pub struct Error {
    pub kind: ErrorKind,
    pub message: String,
}

impl Error {
    /// An error of the given kind with the given message.
    pub fn new(kind: ErrorKind, message: &str) -> (r: Error)
        ensures
            r.kind == kind,
            r.message@ == message@,
    {
        Error { kind, message: message.to_owned() }
    }

    /// An error of kind `Other` that carries the given message.
    pub fn new_from(content: &str) -> (r: Error)
        ensures
            r.kind == ErrorKind::Other,
            r.message@ == content@,
    {
        Error { kind: ErrorKind::Other, message: content.to_owned() }
    }

    /// An error of kind `Other` with the message "Undefined error".
    pub fn empty() -> (r: Error)
        ensures
            r.kind == ErrorKind::Other,
            r.message@ == "Undefined error"@,
    {
        Error { kind: ErrorKind::Other, message: "Undefined error".to_owned() }
    }

    pub fn kind(&self) -> (r: ErrorKind)
        ensures
            r == self.kind,
    {
        self.kind
    }

    /// The message of the error, as the text shown to a user.
    pub fn to_string(&self) -> (r: String)
        ensures
            r@ == self.message@,
    {
        self.message.clone()
    }
}

pub type Result<T> = core::result::Result<T, Error>;

} // verus!
