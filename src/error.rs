use vstd::prelude::*;

verus! {

/// The error taxonomy shared by modules, connectors and the dispatchers.
#[derive(Clone, Copy, Debug, PartialEq, Eq, Structural)]
pub enum ErrorKind {
    /// The requested operation is not supported on the platform.
    UnsupportedPlatform,
    /// Connection timed out, was refused or disconnected.
    ConnectionFailed,
    /// Encountered an unknown host key.
    HostKeyNotVerified,
    /// Not implemented.
    NotImplemented,
    /// Error in configuration files.
    InvalidConfig,
    /// Other unspecified error.
    Other,
}

impl Default for ErrorKind {
    fn default() -> (r: ErrorKind)
        ensures
            r == ErrorKind::Other,
    {
        ErrorKind::Other
    }
}

/// An error with the id of the module it came from and a display message.
#[derive(Clone, Debug)]
pub struct LkError {
    pub source_id: String,
    pub kind: ErrorKind,
    pub message: String,
    pub parameter: Option<String>,
}

impl LkError {
    pub fn new(kind: ErrorKind, message: &str) -> (r: LkError)
        ensures
            r.kind == kind,
            r.message@ == message@,
            r.source_id@.len() == 0,
            r.parameter.is_none(),
    {
        LkError { source_id: String::new(), kind, message: String::from_str(message), parameter: None }
    }

    pub fn not_implemented() -> (r: LkError)
        ensures
            r.kind == ErrorKind::NotImplemented,
            r.message@ == "Not implemented"@,
            r.source_id@.len() == 0,
            r.parameter.is_none(),
    {
        LkError::new(ErrorKind::NotImplemented, "Not implemented")
    }

    pub fn unsupported_platform() -> (r: LkError)
        ensures
            r.kind == ErrorKind::UnsupportedPlatform,
            r.message@ == "Unsupported platform"@,
            r.source_id@.len() == 0,
            r.parameter.is_none(),
    {
        LkError::new(ErrorKind::UnsupportedPlatform, "Unsupported platform")
    }

    pub fn host_key_unverified(source_id: &str, message: &str, key_id: &str) -> (r: LkError)
        ensures
            r.kind == ErrorKind::HostKeyNotVerified,
            r.source_id@ == source_id@,
            r.message@ == message@,
            r.parameter matches Some(p) && p@ == key_id@,
    {
        LkError {
            source_id: String::from_str(source_id),
            kind: ErrorKind::HostKeyNotVerified,
            message: String::from_str(message),
            parameter: Some(String::from_str(key_id)),
        }
    }

    pub fn config(message: &str) -> (r: LkError)
        ensures
            r.kind == ErrorKind::InvalidConfig,
            r.message@ == message@,
            r.source_id@.len() == 0,
            r.parameter.is_none(),
    {
        LkError::new(ErrorKind::InvalidConfig, message)
    }

    pub fn other(message: &str) -> (r: LkError)
        ensures
            r.kind == ErrorKind::Other,
            r.message@ == message@,
            r.source_id@.len() == 0,
            r.parameter.is_none(),
    {
        LkError::new(ErrorKind::Other, message)
    }

    /// An `Other` error whose message is `"<message>: <parameter>"`.
    pub fn other_p(message: &str, parameter: &str) -> (r: LkError)
        ensures
            r.kind == ErrorKind::Other,
            r.message@ == message@ + ": "@ + parameter@,
            r.source_id@.len() == 0,
            r.parameter matches Some(p) && p@ == parameter@,
    {
        let mut text = String::from_str(message);
        text.append(": ");
        text.append(parameter);
        LkError {
            kind: ErrorKind::Other,
            source_id: String::new(),
            message: text,
            parameter: Some(String::from_str(parameter)),
        }
    }

    pub fn set_source(self, source: &str) -> (r: LkError)
        ensures
            r.source_id@ == source@,
            r.kind == self.kind,
            r.message == self.message,
            r.parameter == self.parameter,
    {
        let mut e = self;
        e.source_id = String::from_str(source);
        e
    }

    /// "Not implemented, try the other form": the signal a module gives with an empty message.
    pub open spec fn is_not_implemented_signal(&self) -> bool {
        self.message@.len() == 0
    }

    /// The display text: `"<source>: <message>"`, or the message alone when there is no source.
    pub fn to_display_string(&self) -> (r: String)
        ensures
            r@ == (if self.source_id@.len() == 0 {
                self.message@
            } else {
                self.source_id@ + ": "@ + self.message@
            }),
    {
        if self.source_id.as_str().is_empty() {
            self.message.clone()
        } else {
            let mut text = self.source_id.clone();
            text.append(": ");
            text.append(self.message.as_str());
            text
        }
    }
}

} // verus!
