//! A minimal RPC runtime core: callers reach named functions ("vars" grouped
//! into namespaces) through bencoded request and response dictionaries.
//!
//! The crate holds the parts that decide something: the request schema, the
//! response wire mapping, the framer that finds the end of a message in a
//! byte stream without a length prefix, the dispatcher and the per-connection
//! state machine. Sockets and handler calls are left to the caller, which
//! feeds what it read into the state machine and performs the actions it
//! gets back.

pub mod codec;
pub mod connection;
pub mod dispatch;
pub mod error;
pub mod framer;
pub mod model;
pub mod wire;

pub use crate::connection::{encode_reply, handle_client, Action, Connection, Event, Stage};
pub use crate::dispatch::{
    handle_describe, handle_invoke, handle_request, settle, split_once, Dispatch,
};
pub use crate::error::{from_error, DecodeError, NetpodError};
pub use crate::framer::{decode_request, read_request, Framed, Framer};
pub use crate::model::{
    err_response, invoke_response, DescribeResponse, ErrorResponse, InvokeResponse, Namespace,
    Op, Request, Response, Status, Var,
};
