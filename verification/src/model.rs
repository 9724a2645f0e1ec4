//! The request and response entities.

use vstd::prelude::*;
use vstd::string::*;
use crate::error::NetpodError;

verus! {

/// The content of an optional string.
pub open spec fn text_of(s: Option<String>) -> Option<Seq<char>> {
    match s {
        Some(t) => Some(t@),
        None => None,
    }
}

/// The operation a request asks for.
#[derive(Debug, Clone, Copy, PartialEq, Eq, Structural)]
pub enum Op {
    Describe,
    Invoke,
}

impl Op {
    /// The operation that a wire string names, if it names one.
    pub open spec fn parse(s: Seq<char>) -> Option<Op> {
        if s == "describe"@ {
            Some(Op::Describe)
        } else if s == "invoke"@ {
            Some(Op::Invoke)
        } else {
            None
        }
    }

    /// Reads an operation from its wire string. Any other string is refused
    /// with a message that quotes it.
    pub fn from_str(s: &str) -> (r: Result<Op, String>)
        ensures
            match Op::parse(s@) {
                Some(op) => r == Ok::<Op, String>(op),
                None => r is Err && r->Err_0@ == "Invalid operation: "@ + s@,
            },
    {
        let owned = String::from_str(s);
        if owned == String::from_str("describe") {
            Ok(Op::Describe)
        } else if owned == String::from_str("invoke") {
            Ok(Op::Invoke)
        } else {
            Err(String::from_str("Invalid operation: ").concat(s))
        }
    }
}

/// One call from a remote caller.
#[derive(Debug, PartialEq, Eq)]
pub struct Request {
    /// What is asked for; `Describe` unless the caller said otherwise.
    pub op: Op,
    /// The caller's correlation string, echoed in the response.
    pub id: Option<String>,
    /// The full `namespace/name` key of the function to invoke.
    pub var: Option<String>,
    /// The caller's arguments, passed through to the function untouched.
    pub args: Option<String>,
}

/// The mathematical content of a [`Request`].
pub struct RequestView {
    pub op: Op,
    pub id: Option<Seq<char>>,
    pub var: Option<Seq<char>>,
    pub args: Option<Seq<char>>,
}

impl View for Request {
    type V = RequestView;

    open spec fn view(&self) -> RequestView {
        RequestView {
            op: self.op,
            id: text_of(self.id),
            var: text_of(self.var),
            args: text_of(self.args),
        }
    }
}

impl Clone for Request {
    fn clone(&self) -> (copy: Request)
        ensures
            copy@ == self@,
    {
        Request {
            op: self.op,
            id: self.id.clone(),
            var: self.var.clone(),
            args: self.args.clone(),
        }
    }
}

impl RequestView {
    /// The request of an empty dictionary.
    pub open spec fn blank() -> RequestView {
        RequestView { op: Op::Describe, id: None, var: None, args: None }
    }
}

/// A function by its unqualified name; its content is that name.
#[derive(Debug, PartialEq, Eq)]
pub struct Var {
    pub name: String,
}

impl View for Var {
    type V = Seq<char>;

    open spec fn view(&self) -> Seq<char> {
        self.name@
    }
}

/// A group of functions under one name.
#[derive(Debug, PartialEq, Eq)]
pub struct Namespace {
    pub name: String,
    pub vars: Vec<Var>,
}

/// The mathematical content of a [`Namespace`].
pub struct NamespaceView {
    pub name: Seq<char>,
    pub vars: Seq<Seq<char>>,
}

impl View for Namespace {
    type V = NamespaceView;

    open spec fn view(&self) -> NamespaceView {
        NamespaceView { name: self.name@, vars: self.vars@.map_values(|v: Var| v@) }
    }
}

/// The answer to `describe`.
#[derive(Debug, PartialEq, Eq)]
pub struct DescribeResponse {
    /// How callers encode `args` and read `value`; always `json`.
    pub format: String,
    pub namespaces: Vec<Namespace>,
}

/// The mathematical content of a [`DescribeResponse`].
pub struct DescribeResponseView {
    pub format: Seq<char>,
    pub namespaces: Seq<NamespaceView>,
}

impl View for DescribeResponse {
    type V = DescribeResponseView;

    open spec fn view(&self) -> DescribeResponseView {
        DescribeResponseView {
            format: self.format@,
            namespaces: self.namespaces@.map_values(|n: Namespace| n@),
        }
    }
}

/// How a call ended.
#[derive(Debug, Clone, Copy, PartialEq, Eq, Structural)]
pub enum Status {
    Done,
    Error,
}

impl Status {
    /// The wire string of a status.
    pub open spec fn text(self) -> Seq<char> {
        match self {
            Status::Done => "done"@,
            Status::Error => "error"@,
        }
    }

    /// The wire string of a status.
    pub fn as_str(&self) -> (s: &'static str)
        ensures
            s@ == self.text(),
    {
        match self {
            Status::Done => "done",
            Status::Error => "error",
        }
    }
}

/// The answer to a call that failed.
#[derive(Debug, PartialEq, Eq)]
pub struct ErrorResponse {
    /// The request's id, where it was known when the failure came.
    pub id: Option<String>,
    pub status: Status,
    pub ex_message: String,
}

/// The mathematical content of an [`ErrorResponse`].
pub struct ErrorResponseView {
    pub id: Option<Seq<char>>,
    pub status: Status,
    pub ex_message: Seq<char>,
}

impl View for ErrorResponse {
    type V = ErrorResponseView;

    open spec fn view(&self) -> ErrorResponseView {
        ErrorResponseView {
            id: text_of(self.id),
            status: self.status,
            ex_message: self.ex_message@,
        }
    }
}

/// The answer to a call that succeeded.
#[derive(Debug, PartialEq, Eq)]
pub struct InvokeResponse {
    pub id: String,
    pub status: Status,
    /// What the function returned, as raw bytes.
    pub value: Vec<u8>,
}

/// The mathematical content of an [`InvokeResponse`].
pub struct InvokeResponseView {
    pub id: Seq<char>,
    pub status: Status,
    pub value: Seq<u8>,
}

impl View for InvokeResponse {
    type V = InvokeResponseView;

    open spec fn view(&self) -> InvokeResponseView {
        InvokeResponseView { id: self.id@, status: self.status, value: self.value@ }
    }
}

/// What goes back to the caller.
#[derive(Debug, PartialEq, Eq)]
pub enum Response {
    Describe(DescribeResponse),
    Invoke(InvokeResponse),
    Error(ErrorResponse),
}

/// The mathematical content of a [`Response`].
pub enum ResponseView {
    Describe(DescribeResponseView),
    Invoke(InvokeResponseView),
    Error(ErrorResponseView),
}

impl View for Response {
    type V = ResponseView;

    open spec fn view(&self) -> ResponseView {
        match self {
            Response::Describe(r) => ResponseView::Describe(r@),
            Response::Invoke(r) => ResponseView::Invoke(r@),
            Response::Error(r) => ResponseView::Error(r@),
        }
    }
}

/// The response that reports `err` to the caller: status `Error`, the
/// failure's text as message, and the id as given.
pub fn err_response(id: Option<String>, err: NetpodError) -> (r: Response)
    ensures
        r@ == ResponseView::Error(
            ErrorResponseView { id: text_of(id), status: Status::Error, ex_message: err@.message() },
        ),
{
    Response::Error(ErrorResponse { id, status: Status::Error, ex_message: err.to_string() })
}

/// The response that carries a function's result: status `Done`, with the
/// id and the value as given.
pub fn invoke_response(id: String, value: Vec<u8>) -> (r: Response)
    ensures
        r@ == ResponseView::Invoke(
            InvokeResponseView { id: id@, status: Status::Done, value: value@ },
        ),
{
    let r = InvokeResponse { id, status: Status::Done, value };
    Response::Invoke(r)
}

} // verus!
