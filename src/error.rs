use vstd::prelude::*;
use vstd::string::*;

verus! {

/// The category of a failure reported by the library.
#[derive(Debug, Clone, Copy, PartialEq, Eq, Structural)]
pub enum ErrorKind {
    PermissionDenied,
    FanControlDisabled,
    InvalidValue,
    FileNotFound,
    ValueTooHigh,
    ValueTooLow,
    GenericError,
}

/// The fixed message that names each kind of failure.
pub open spec fn kind_message(kind: ErrorKind) -> Seq<char> {
    match kind {
        ErrorKind::ValueTooLow => "Fan speed setting too low"@,
        ErrorKind::ValueTooHigh => "Fan speed setting too high"@,
        ErrorKind::InvalidValue => "Fan speed setting invalid"@,
        ErrorKind::FileNotFound => "File not found"@,
        ErrorKind::PermissionDenied => "Permission Denied"@,
        ErrorKind::FanControlDisabled => "Fan control disabled"@,
        ErrorKind::GenericError => "Generic error"@,
    }
}

impl ErrorKind {
    /// The message that names this kind of failure.
    pub fn message(&self) -> (r: &'static str)
        ensures
            r@ == kind_message(*self),
    {
        match self {
            ErrorKind::ValueTooLow => "Fan speed setting too low",
            ErrorKind::ValueTooHigh => "Fan speed setting too high",
            ErrorKind::InvalidValue => "Fan speed setting invalid",
            ErrorKind::FileNotFound => "File not found",
            ErrorKind::PermissionDenied => "Permission Denied",
            ErrorKind::FanControlDisabled => "Fan control disabled",
            ErrorKind::GenericError => "Generic error",
        }
    }
}

/// A failure: its kind, what happened, and what to do about it. The last two
/// are each optional.
#[derive(Debug, Clone)]
pub struct Error {
    kind: ErrorKind,
    description: Option<String>,
    help: Option<String>,
}

/// The view of an optional string.
pub open spec fn opt_view(s: Option<String>) -> Option<Seq<char>> {
    match s {
        Some(t) => Some(t@),
        None => None,
    }
}

impl Error {
    pub closed spec fn spec_kind(&self) -> ErrorKind {
        self.kind
    }

    pub closed spec fn spec_description(&self) -> Option<Seq<char>> {
        opt_view(self.description)
    }

    pub closed spec fn spec_help(&self) -> Option<Seq<char>> {
        opt_view(self.help)
    }

    /// How the error reads: the kind's message, then `": "` and the
    /// description when there is one.
    pub open spec fn spec_message(&self) -> Seq<char> {
        match self.spec_description() {
            Some(d) => kind_message(self.spec_kind()) + ": "@ + d,
            None => kind_message(self.spec_kind()),
        }
    }

    pub fn new(kind: ErrorKind, description: String, help: String) -> (r: Self)
        ensures
            r.spec_kind() == kind,
            r.spec_description() == Some(description@),
            r.spec_help() == Some(help@),
    {
        Self { kind, description: Some(description), help: Some(help) }
    }

    pub fn without_description_help(kind: ErrorKind) -> (r: Self)
        ensures
            r.spec_kind() == kind,
            r.spec_description() is None,
            r.spec_help() is None,
    {
        Self { kind, description: None, help: None }
    }

    pub fn without_description(kind: ErrorKind, help: String) -> (r: Self)
        ensures
            r.spec_kind() == kind,
            r.spec_description() is None,
            r.spec_help() == Some(help@),
    {
        Self { kind, description: None, help: Some(help) }
    }

    pub fn without_help(kind: ErrorKind, description: String) -> (r: Self)
        ensures
            r.spec_kind() == kind,
            r.spec_description() == Some(description@),
            r.spec_help() is None,
    {
        Self { kind, description: Some(description), help: None }
    }

    pub fn kind(&self) -> (r: &ErrorKind)
        ensures
            *r == self.spec_kind(),
    {
        &self.kind
    }

    pub fn desc(&self) -> (r: Option<&str>)
        ensures
            match r {
                Some(d) => self.spec_description() == Some(d@),
                None => self.spec_description() is None,
            },
    {
        match &self.description {
            Some(d) => Some(d.as_str()),
            None => None,
        }
    }

    pub fn help(&self) -> (r: Option<&str>)
        ensures
            match r {
                Some(h) => self.spec_help() == Some(h@),
                None => self.spec_help() is None,
            },
    {
        match &self.help {
            Some(h) => Some(h.as_str()),
            None => None,
        }
    }

    /// The description, or the empty string when there is none.
    pub fn description(&self) -> (r: &str)
        ensures
            r@ == match self.spec_description() {
                Some(d) => d,
                None => Seq::<char>::empty(),
            },
    {
        match &self.description {
            Some(d) => d.as_str(),
            None => {
                proof {
                    reveal_strlit("");
                }
                ""
            },
        }
    }

    /// How the error reads when shown to a user.
    pub fn message(&self) -> (r: String)
        ensures
            r@ == self.spec_message(),
    {
        let mut s = String::from_str(self.kind.message());
        match &self.description {
            Some(d) => {
                s.append(": ");
                s.append(d.as_str());
            },
            None => {},
        }
        s
    }
}

} // verus!
