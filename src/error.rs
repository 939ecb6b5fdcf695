use vstd::prelude::*;

verus! {

/// What went wrong, without the text that went wrong.
#[derive(Clone, Copy, Debug, PartialEq, Eq, Structural)]
pub enum ErrorKind {
    InvalidColor,
    MissingValue,
    UnknownAttribute,
    InvalidProgressMode,
    InvalidNumber,
    Io,
    Other,
}

/// An error of the overlay: its kind and the text it concerns (the
/// offending value, the key, or a free-form message).
#[derive(Debug)]
pub struct Error {
    pub kind: ErrorKind,
    pub subject: String,
}

impl View for Error {
    type V = (ErrorKind, Seq<char>);

    open spec fn view(&self) -> (ErrorKind, Seq<char>) {
        (self.kind, self.subject@)
    }
}

/// The words that a message of each kind begins with.
pub open spec fn prefix_of(kind: ErrorKind) -> Seq<char> {
    match kind {
        ErrorKind::InvalidColor => "invalid color "@,
        ErrorKind::MissingValue => "no value given for "@,
        ErrorKind::UnknownAttribute => "unknown attribute "@,
        ErrorKind::InvalidProgressMode => "invalid progress type "@,
        ErrorKind::InvalidNumber => "invalid number "@,
        ErrorKind::Io => "input failed: "@,
        ErrorKind::Other => ""@,
    }
}

fn prefix(kind: ErrorKind) -> (r: &'static str)
    ensures
        r@ == prefix_of(kind),
{
    match kind {
        ErrorKind::InvalidColor => "invalid color ",
        ErrorKind::MissingValue => "no value given for ",
        ErrorKind::UnknownAttribute => "unknown attribute ",
        ErrorKind::InvalidProgressMode => "invalid progress type ",
        ErrorKind::InvalidNumber => "invalid number ",
        ErrorKind::Io => "input failed: ",
        ErrorKind::Other => "",
    }
}

impl Error {
    /// A message for people: the words of the kind, then the subject.
    pub fn message(&self) -> (r: String)
        ensures
            r@ == prefix_of(self.kind) + self.subject@,
    {
        String::from_str(prefix(self.kind)).concat(self.subject.as_str())
    }

    pub fn new(kind: ErrorKind, subject: String) -> (r: Error)
        ensures
            r@ == (kind, subject@),
    {
        Error { kind, subject }
    }

    /// An error that carries only a message.
    pub fn from_string(s: String) -> (r: Error)
        ensures
            r@ == (ErrorKind::Other, s@),
    {
        Error { kind: ErrorKind::Other, subject: s }
    }
}

} // verus!
