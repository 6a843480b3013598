//! The errors that travel up an organelle tree to the caller of the event loop.

use vstd::prelude::*;
use vstd::string::*;

verus! {

/// What went wrong.
#[derive(Debug, PartialEq, Eq)]
pub enum ErrorKind {
    /// an error described by a message only
    Msg(String),
    /// an input or output error, by its text
    Io(String),
    /// a reply channel was dropped before it was answered
    Canceled,
    /// a serialization error, by its text
    SerdeJson(String),
    /// a soma returned an error when called into
    SomaError,
    /// axon failed to validate a synapse
    InvalidSynapse(String),
    /// axon is missing a synapse
    MissingSynapse(String),
}

/// The mathematical value of an `ErrorKind`: the variant with its text.
pub enum Cause {
    Msg(Seq<char>),
    Io(Seq<char>),
    Canceled,
    SerdeJson(Seq<char>),
    SomaError,
    InvalidSynapse(Seq<char>),
    MissingSynapse(Seq<char>),
}

impl View for ErrorKind {
    type V = Cause;

    open spec fn view(&self) -> Cause {
        match self {
            ErrorKind::Msg(msg) => Cause::Msg(msg@),
            ErrorKind::Io(msg) => Cause::Io(msg@),
            ErrorKind::Canceled => Cause::Canceled,
            ErrorKind::SerdeJson(msg) => Cause::SerdeJson(msg@),
            ErrorKind::SomaError => Cause::SomaError,
            ErrorKind::InvalidSynapse(msg) => Cause::InvalidSynapse(msg@),
            ErrorKind::MissingSynapse(msg) => Cause::MissingSynapse(msg@),
        }
    }
}

impl Cause {
    /// The short description of the kind, without its details.
    pub open spec fn description(self) -> Seq<char> {
        match self {
            Cause::Msg(msg) => msg,
            Cause::Io(msg) => msg,
            Cause::Canceled => "oneshot canceled"@,
            Cause::SerdeJson(msg) => msg,
            Cause::SomaError => "an error occurred while calling into a soma"@,
            Cause::InvalidSynapse(_) => "invalid synapse given to somas"@,
            Cause::MissingSynapse(_) => "missing synapse"@,
        }
    }

    /// The text shown for the kind.
    pub open spec fn text(self) -> Seq<char> {
        match self {
            Cause::Msg(msg) => msg,
            Cause::Io(msg) => msg,
            Cause::Canceled => "oneshot canceled"@,
            Cause::SerdeJson(msg) => msg,
            Cause::SomaError => "an error occurred while calling into a soma"@,
            Cause::InvalidSynapse(msg) => "invalid synapse given to somas - "@ + msg,
            Cause::MissingSynapse(msg) => "invalid synapse - "@ + msg,
        }
    }
}

impl ErrorKind {
    /// The short description of the kind, without its details.
    pub fn description(&self) -> (r: String)
        ensures
            r@ == self@.description(),
    {
        match self {
            ErrorKind::Msg(msg) => msg.clone(),
            ErrorKind::Io(msg) => msg.clone(),
            ErrorKind::Canceled => String::from_str("oneshot canceled"),
            ErrorKind::SerdeJson(msg) => msg.clone(),
            ErrorKind::SomaError => String::from_str("an error occurred while calling into a soma"),
            ErrorKind::InvalidSynapse(_) => String::from_str("invalid synapse given to somas"),
            ErrorKind::MissingSynapse(_) => String::from_str("missing synapse"),
        }
    }

    /// The text shown for the kind.
    pub fn to_string(&self) -> (r: String)
        ensures
            r@ == self@.text(),
    {
        match self {
            ErrorKind::Msg(msg) => msg.clone(),
            ErrorKind::Io(msg) => msg.clone(),
            ErrorKind::Canceled => String::from_str("oneshot canceled"),
            ErrorKind::SerdeJson(msg) => msg.clone(),
            ErrorKind::SomaError => String::from_str("an error occurred while calling into a soma"),
            ErrorKind::InvalidSynapse(msg) => {
                let mut text = String::from_str("invalid synapse given to somas - ");
                text.append(msg.as_str());
                text
            },
            ErrorKind::MissingSynapse(msg) => {
                let mut text = String::from_str("invalid synapse - ");
                text.append(msg.as_str());
                text
            },
        }
    }
}

/// An error with the chain of errors that led to it.
#[derive(Debug, PartialEq, Eq)]
pub struct Error {
    kind: ErrorKind,
    cause: Option<Box<Error>>,
}

impl View for Error {
    type V = Seq<Cause>;

    /// The chain of causes, the error itself first and the first cause last.
    closed spec fn view(&self) -> Seq<Cause> {
        self.chain()
    }
}

impl Error {
    spec fn chain(self) -> Seq<Cause>
        decreases self,
    {
        match self.cause {
            Some(cause) => seq![self.kind@] + (*cause).chain(),
            None => seq![self.kind@],
        }
    }

    /// An error of the given kind, with nothing behind it.
    pub fn from_kind(kind: ErrorKind) -> (r: Self)
        ensures
            r@ == seq![kind@],
    {
        Error { kind, cause: None }
    }

    /// An error described by a message only.
    pub fn msg(text: &str) -> (r: Self)
        ensures
            r@ == seq![Cause::Msg(text@)],
    {
        Error { kind: ErrorKind::Msg(String::from_str(text)), cause: None }
    }

    /// An error of the given kind that was caused by another error.
    pub fn with_chain(cause: Error, kind: ErrorKind) -> (r: Self)
        ensures
            r@ == seq![kind@] + cause@,
    {
        Error { kind, cause: Some(Box::new(cause)) }
    }

    /// The kind of the error itself.
    pub fn kind(&self) -> (r: &ErrorKind)
        ensures
            self@.len() >= 1,
            r@ == self@[0],
    {
        proof {
            self.lemma_view();
        }
        &self.kind
    }

    /// The error that caused this one, where there is one.
    pub fn cause(&self) -> (r: Option<&Error>)
        ensures
            self@.len() >= 1,
            match r {
                Some(cause) => cause@ == self@.drop_first(),
                None => self@.len() == 1,
            },
    {
        proof {
            self.lemma_view();
            if let Some(cause) = &self.cause {
                cause.lemma_view();
                assert((seq![self.kind@] + cause@).drop_first() =~= cause@);
            }
        }
        match &self.cause {
            Some(cause) => Some(&**cause),
            None => None,
        }
    }

    /// The text shown for the error: that of its own kind.
    pub fn to_string(&self) -> (r: String)
        ensures
            self@.len() >= 1,
            r@ == self@[0].text(),
    {
        proof {
            self.lemma_view();
        }
        self.kind.to_string()
    }

    /// The chain of an error starts with its own kind.
    proof fn lemma_view(self)
        ensures
            self@.len() >= 1,
            self@[0] == self.kind@,
            self.cause matches Some(cause) ==> self@ == seq![self.kind@] + (*cause)@,
            self.cause is None ==> self@ == seq![self.kind@],
    {
    }
}

} // verus!
