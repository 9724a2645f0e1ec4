//! The failures of the runtime, held as plain descriptions.

use vstd::prelude::*;
use vstd::string::*;

verus! {

/// Why a byte buffer was not accepted as a request.
#[derive(Debug, PartialEq, Eq)]
pub enum DecodeError {
    /// The bytes are not a well-formed dictionary; holds the codec's own
    /// description of what it found.
    Malformed(String),
    /// A recognised key whose value is not text; `detail` is the codec's
    /// description of the value.
    BadField { field: String, detail: String },
    /// A key outside the request schema.
    UnexpectedField(String),
}

/// The mathematical content of a [`DecodeError`].
pub enum DecodeErrorView {
    Malformed(Seq<char>),
    BadField { field: Seq<char>, detail: Seq<char> },
    UnexpectedField(Seq<char>),
}

impl View for DecodeError {
    type V = DecodeErrorView;

    open spec fn view(&self) -> DecodeErrorView {
        match self {
            DecodeError::Malformed(d) => DecodeErrorView::Malformed(d@),
            DecodeError::BadField { field, detail } => DecodeErrorView::BadField {
                field: field@,
                detail: detail@,
            },
            DecodeError::UnexpectedField(name) => DecodeErrorView::UnexpectedField(name@),
        }
    }
}

impl DecodeErrorView {
    /// The text shown for a decode failure.
    pub open spec fn message(self) -> Seq<char> {
        match self {
            DecodeErrorView::Malformed(d) => d,
            DecodeErrorView::BadField { field, detail } => detail + " in "@ + field,
            DecodeErrorView::UnexpectedField(name) => "Error: unexpected field: "@ + name,
        }
    }
}

impl Clone for DecodeError {
    fn clone(&self) -> (copy: DecodeError)
        ensures
            copy@ == self@,
    {
        match self {
            DecodeError::Malformed(d) => DecodeError::Malformed(d.clone()),
            DecodeError::BadField { field, detail } => DecodeError::BadField {
                field: field.clone(),
                detail: detail.clone(),
            },
            DecodeError::UnexpectedField(name) => DecodeError::UnexpectedField(name.clone()),
        }
    }
}

impl DecodeError {
    /// Renders the failure as text.
    pub fn to_string(&self) -> (text: String)
        ensures
            text@ == self@.message(),
    {
        match self {
            DecodeError::Malformed(d) => d.clone(),
            DecodeError::BadField { field, detail } => {
                detail.clone().concat(" in ").concat(field.as_str())
            },
            DecodeError::UnexpectedField(name) => {
                String::from_str("Error: unexpected field: ").concat(name.as_str())
            },
        }
    }
}

/// Everything that can go wrong while serving one connection.
#[derive(Debug, PartialEq, Eq)]
pub enum NetpodError {
    /// The transport failed; holds the description of the I/O failure.
    IO(String),
    /// A failure that is only a message.
    Message(String),
    /// A request could not be decoded.
    BendyDecoding(DecodeError),
    /// A response could not be encoded; holds the codec's description.
    BendyEncoding(String),
    /// Any other failure, by its description.
    Other(String),
}

/// The mathematical content of a [`NetpodError`].
pub enum NetpodErrorView {
    IO(Seq<char>),
    Message(Seq<char>),
    BendyDecoding(DecodeErrorView),
    BendyEncoding(Seq<char>),
    Other(Seq<char>),
}

impl View for NetpodError {
    type V = NetpodErrorView;

    open spec fn view(&self) -> NetpodErrorView {
        match self {
            NetpodError::IO(d) => NetpodErrorView::IO(d@),
            NetpodError::Message(m) => NetpodErrorView::Message(m@),
            NetpodError::BendyDecoding(e) => NetpodErrorView::BendyDecoding(e@),
            NetpodError::BendyEncoding(d) => NetpodErrorView::BendyEncoding(d@),
            NetpodError::Other(d) => NetpodErrorView::Other(d@),
        }
    }
}

impl NetpodErrorView {
    /// The text shown for a failure: the description behind a prefix that
    /// names the kind, or the bare description for `Message` and `Other`.
    pub open spec fn message(self) -> Seq<char> {
        match self {
            NetpodErrorView::IO(d) => "netpod io error: "@ + d,
            NetpodErrorView::Message(m) => m,
            NetpodErrorView::BendyDecoding(e) => "bendy decoding error: "@ + e.message(),
            NetpodErrorView::BendyEncoding(d) => "bendy encoding error: "@ + d,
            NetpodErrorView::Other(d) => d,
        }
    }
}

impl Clone for NetpodError {
    fn clone(&self) -> (copy: NetpodError)
        ensures
            copy@ == self@,
    {
        match self {
            NetpodError::IO(d) => NetpodError::IO(d.clone()),
            NetpodError::Message(m) => NetpodError::Message(m.clone()),
            NetpodError::BendyDecoding(e) => NetpodError::BendyDecoding(e.clone()),
            NetpodError::BendyEncoding(d) => NetpodError::BendyEncoding(d.clone()),
            NetpodError::Other(d) => NetpodError::Other(d.clone()),
        }
    }
}

impl NetpodError {
    /// Renders the failure as text.
    pub fn to_string(&self) -> (text: String)
        ensures
            text@ == self@.message(),
    {
        match self {
            NetpodError::IO(d) => String::from_str("netpod io error: ").concat(d.as_str()),
            NetpodError::Message(m) => m.clone(),
            NetpodError::BendyDecoding(e) => {
                let inner = e.to_string();
                String::from_str("bendy decoding error: ").concat(inner.as_str())
            },
            NetpodError::BendyEncoding(d) => {
                String::from_str("bendy encoding error: ").concat(d.as_str())
            },
            NetpodError::Other(d) => d.clone(),
        }
    }
}

impl From<String> for NetpodError {
    fn from(s: String) -> (e: NetpodError) {
        NetpodError::Message(s)
    }
}

impl vstd::std_specs::convert::FromSpecImpl<String> for NetpodError {
    open spec fn obeys_from_spec() -> bool {
        true
    }

    open spec fn from_spec(s: String) -> NetpodError {
        NetpodError::Message(s)
    }
}

impl From<&str> for NetpodError {
    fn from(s: &str) -> (e: NetpodError)
        ensures
            e@ == NetpodErrorView::Message(s@),
    {
        NetpodError::Message(String::from_str(s))
    }
}

impl vstd::std_specs::convert::FromSpecImpl<&str> for NetpodError {
    open spec fn obeys_from_spec() -> bool {
        false
    }

    open spec fn from_spec(s: &str) -> NetpodError {
        arbitrary()
    }
}

impl From<DecodeError> for NetpodError {
    fn from(cause: DecodeError) -> (e: NetpodError) {
        NetpodError::BendyDecoding(cause)
    }
}

impl vstd::std_specs::convert::FromSpecImpl<DecodeError> for NetpodError {
    open spec fn obeys_from_spec() -> bool {
        true
    }

    open spec fn from_spec(cause: DecodeError) -> NetpodError {
        NetpodError::BendyDecoding(cause)
    }
}

/// Wraps the description of any other failure.
pub fn from_error(description: String) -> (e: NetpodError)
    ensures
        e == NetpodError::Other(description),
{
    NetpodError::Other(description)
}

} // verus!
