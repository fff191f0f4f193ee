use vstd::prelude::*;

verus! {

use vstd::string::StrSliceExecFns;
use vstd::string::StringExecFns;

/// The transport error kinds the collectors react to. Anything the
/// transport reports beyond these is `Other`.
#[derive(Clone, Copy, Debug, PartialEq, Eq, Structural)]
pub enum TransportErrorKind {
    ConnectLost,
    Timeout,
    ObjectNotFound,
    PermissionDenied,
    Other,
}

impl TransportErrorKind {
    /// Per-artifact errors on which a path is given up for the session.
    pub open spec fn is_give_up(self) -> bool {
        self is ObjectNotFound || self is PermissionDenied
    }

    /// A short description of the error kind.
    pub fn message(&self) -> (r: String)
        ensures
            r@ == self.message_spec(),
    {
        let m: &str = match self {
            TransportErrorKind::ConnectLost => "connection lost",
            TransportErrorKind::Timeout => "timeout",
            TransportErrorKind::ObjectNotFound => "object not found",
            TransportErrorKind::PermissionDenied => "permission denied",
            TransportErrorKind::Other => "transport error",
        };
        m.to_owned()
    }

    pub open spec fn message_spec(self) -> Seq<char> {
        match self {
            TransportErrorKind::ConnectLost => "connection lost"@,
            TransportErrorKind::Timeout => "timeout"@,
            TransportErrorKind::ObjectNotFound => "object not found"@,
            TransportErrorKind::PermissionDenied => "permission denied"@,
            TransportErrorKind::Other => "transport error"@,
        }
    }
}

/// Errors of the persisted-state codecs: a file held text that no run of
/// the library would have written.
#[derive(Clone, Copy, Debug, PartialEq, Eq, Structural)]
pub enum PersistError {
    /// The text is not the JSON shape the library writes.
    Json,
    /// A timestamp did not parse back.
    Timestamp,
    /// The intervals were not in normal form.
    NotNormalized,
}

impl PersistError {
    /// A short description of the error.
    pub fn message(&self) -> (r: String)
        ensures
            r@ == self.message_spec(),
    {
        let m: &str = match self {
            PersistError::Json => "stored state is not the expected JSON",
            PersistError::Timestamp => "stored timestamp does not parse",
            PersistError::NotNormalized => "stored intervals are not normalized",
        };
        m.to_owned()
    }

    pub open spec fn message_spec(self) -> Seq<char> {
        match self {
            PersistError::Json => "stored state is not the expected JSON"@,
            PersistError::Timestamp => "stored timestamp does not parse"@,
            PersistError::NotNormalized => "stored intervals are not normalized"@,
        }
    }
}

} // verus!
