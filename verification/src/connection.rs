//! One connection from its first read to its close. A connection carries
//! one request and one response: it frames the request, has it dispatched,
//! encodes the response and has it written. The reads, the handler call and
//! the write are the caller's; this module decides, event by event, what
//! comes next.

use vstd::prelude::*;
use crate::dispatch::{
    dispatched, handle_request, keys_of, returned, settle, settled, Dispatch, DispatchView,
};
use crate::error::{NetpodError, NetpodErrorView};
use crate::framer::{after_read, Framed, FramedView, Framer};
use crate::model::{
    err_response, text_of, ErrorResponseView, Request, RequestView, Response, ResponseView, Status,
};
use crate::wire::encoding;

verus! {

/// Where a connection stands.
#[derive(Debug, Clone, Copy, PartialEq, Eq, Structural)]
pub enum Stage {
    /// Reading the request.
    Framing,
    /// Waiting for the handler to return.
    Dispatching,
    /// Waiting for the response to be written.
    Responding,
    /// Done: the response went out.
    Closed,
    /// Given up: nothing more is read or written.
    Failed,
}

/// What happened on the transport or in the handler.
#[derive(Debug, PartialEq, Eq)]
pub enum Event {
    /// A read returned these bytes; none at the end of the stream.
    Read(Vec<u8>),
    /// A read failed.
    ReadFailed,
    /// The handler returned.
    Returned(Result<Response, NetpodError>),
    /// The response was written in full.
    Written,
    /// The write failed.
    WriteFailed,
}

/// The mathematical content of an [`Event`].
pub enum EventView {
    Read(Seq<u8>),
    ReadFailed,
    Returned(Result<ResponseView, NetpodErrorView>),
    Written,
    WriteFailed,
}

impl View for Event {
    type V = EventView;

    open spec fn view(&self) -> EventView {
        match self {
            Event::Read(chunk) => EventView::Read(chunk@),
            Event::ReadFailed => EventView::ReadFailed,
            Event::Returned(outcome) => EventView::Returned(returned(*outcome)),
            Event::Written => EventView::Written,
            Event::WriteFailed => EventView::WriteFailed,
        }
    }
}

/// What the caller is to do next.
#[derive(Debug, PartialEq, Eq)]
pub enum Action {
    /// Read from the connection and report what came.
    Read,
    /// Call the handler registered under the key at this index with the
    /// request, and report what it returned.
    Call { handler: usize, request: Request },
    /// Write these bytes and report how it went.
    Write(Vec<u8>),
    /// Close the connection.
    Close,
}

/// The mathematical content of an [`Action`].
pub enum ActionView {
    Read,
    Call { handler: int, request: RequestView },
    Write(Seq<u8>),
    Close,
}

impl View for Action {
    type V = ActionView;

    open spec fn view(&self) -> ActionView {
        match self {
            Action::Read => ActionView::Read,
            Action::Call { handler, request } => ActionView::Call {
                handler: *handler as int,
                request: request@,
            },
            Action::Write(bytes) => ActionView::Write(bytes@),
            Action::Close => ActionView::Close,
        }
    }
}

/// The state of one connection.
#[derive(Debug)]
pub struct Connection {
    stage: Stage,
    framer: Framer,
    id: Option<String>,
}

/// The mathematical content of a [`Connection`]: its stage, the bytes read
/// so far, the limit on their number, and the id of the request that is
/// with its handler.
pub struct ConnectionView {
    pub stage: Stage,
    pub buffer: Seq<u8>,
    pub limit: Option<nat>,
    pub id: Option<Seq<char>>,
}

impl View for Connection {
    type V = ConnectionView;

    closed spec fn view(&self) -> ConnectionView {
        ConnectionView {
            stage: self.stage,
            buffer: self.framer@,
            limit: self.framer.limit(),
            id: text_of(self.id),
        }
    }
}

/// The response sent where a response could not be encoded: an error
/// without id that describes the encoding failure.
pub open spec fn fallback(failure: NetpodErrorView) -> ResponseView {
    ResponseView::Error(
        ErrorResponseView { id: None, status: Status::Error, ex_message: failure.message() },
    )
}

/// The bytes that answer with a response: its encoding; the encoding of
/// the fallback where it has none; nothing where that has none either.
pub open spec fn reply_bytes(response: ResponseView) -> Option<Seq<u8>> {
    match encoding(response) {
        Ok(bytes) => Some(bytes),
        Err(failure) => match encoding(fallback(failure)) {
            Ok(bytes) => Some(bytes),
            Err(_) => None,
        },
    }
}

/// A connection that answers with a response: it writes the reply bytes,
/// or fails where there are none.
pub open spec fn answering(state: ConnectionView, response: ResponseView) -> (
    ConnectionView,
    ActionView,
) {
    match reply_bytes(response) {
        Some(bytes) => (
            ConnectionView { stage: Stage::Responding, id: None, ..state },
            ActionView::Write(bytes),
        ),
        None => (ConnectionView { stage: Stage::Failed, id: None, ..state }, ActionView::Close),
    }
}

/// A connection that gives up.
pub open spec fn failing(state: ConnectionView) -> (ConnectionView, ActionView) {
    (ConnectionView { stage: Stage::Failed, id: None, ..state }, ActionView::Close)
}

/// The next state of a connection and what is to be done, for an event.
///
/// While framing, a read goes to the framer: an incomplete buffer asks for
/// another read, the end of the stream without a request fails, and a
/// request is dispatched at once, which either settles the response or
/// asks for a handler call. What the handler returns settles the response.
/// A settled response is encoded and written; after the write the
/// connection is closed. A failed read or write fails the connection, and
/// so does an event that the stage does not wait for. `Closed` and
/// `Failed` stay as they are.
pub open spec fn next(state: ConnectionView, keys: Seq<Seq<char>>, event: EventView) -> (
    ConnectionView,
    ActionView,
) {
    match (state.stage, event) {
        (Stage::Framing, EventView::Read(chunk)) => {
            let (buffer, step) = after_read(state.buffer, state.limit, chunk);
            let read = ConnectionView { buffer, ..state };
            match step {
                FramedView::Incomplete => (read, ActionView::Read),
                FramedView::Failed(_) => failing(read),
                FramedView::Complete(request) => match dispatched(keys, request) {
                    DispatchView::Reply(response) => answering(read, response),
                    DispatchView::Call { handler, request } => (
                        ConnectionView { stage: Stage::Dispatching, id: request.id, ..read },
                        ActionView::Call { handler, request },
                    ),
                },
            }
        },
        (Stage::Dispatching, EventView::Returned(outcome)) => answering(
            state,
            settled(state.id, outcome),
        ),
        (Stage::Responding, EventView::Written) => (
            ConnectionView { stage: Stage::Closed, ..state },
            ActionView::Close,
        ),
        (Stage::Closed, _) => (state, ActionView::Close),
        (Stage::Failed, _) => (state, ActionView::Close),
        _ => failing(state),
    }
}

/// Encodes a response for the wire, falling back to an error response that
/// describes the failure where the response itself cannot be encoded.
pub fn encode_reply(response: &Response) -> (bytes: Option<Vec<u8>>)
    ensures
        match reply_bytes(response@) {
            Some(b) => bytes is Some && bytes->Some_0@ == b,
            None => bytes is None,
        },
{
    match response.to_bencode() {
        Ok(buf) => Some(buf),
        Err(err) => {
            let er = err_response(None, err);
            match er.to_bencode() {
                Ok(e_buf) => Some(e_buf),
                Err(_) => None,
            }
        },
    }
}

impl Connection {
    /// A connection that has read nothing and takes a request of any
    /// size.
    pub fn new() -> (connection: Connection)
        ensures
            connection@ == (ConnectionView {
                stage: Stage::Framing,
                buffer: Seq::<u8>::empty(),
                limit: None,
                id: None,
            }),
    {
        Connection { stage: Stage::Framing, framer: Framer::new(), id: None }
    }

    /// A connection that has read nothing and fails on a request of more
    /// than `most` bytes.
    pub fn with_limit(most: usize) -> (connection: Connection)
        ensures
            connection@ == (ConnectionView {
                stage: Stage::Framing,
                buffer: Seq::<u8>::empty(),
                limit: Some(most as nat),
                id: None,
            }),
    {
        Connection { stage: Stage::Framing, framer: Framer::with_limit(most), id: None }
    }

    /// Where the connection stands.
    pub fn stage(&self) -> (stage: Stage)
        ensures
            stage == self@.stage,
    {
        self.stage
    }

    /// Answers with a response.
    fn answer(&mut self, response: Response) -> (action: Action)
        ensures
            (final(self)@, action@) == answering(old(self)@, response@),
    {
        self.id = None;
        match encode_reply(&response) {
            Some(bytes) => {
                self.stage = Stage::Responding;
                Action::Write(bytes)
            },
            None => {
                self.stage = Stage::Failed;
                Action::Close
            },
        }
    }

    /// Gives up.
    fn fail(&mut self) -> (action: Action)
        ensures
            (final(self)@, action@) == failing(old(self)@),
    {
        self.id = None;
        self.stage = Stage::Failed;
        Action::Close
    }
}

/// Serves one connection, one event at a time: takes what happened since
/// the last action and says what to do next. The first action of a new
/// connection is a read.
pub fn handle_client(connection: &mut Connection, keys: &Vec<String>, event: Event) -> (action:
    Action)
    ensures
        (final(connection)@, action@) == next(old(connection)@, keys_of(keys@), event@),
{
    match connection.stage {
        Stage::Framing => match event {
            Event::Read(chunk) => match connection.framer.accept(chunk.as_slice()) {
                Framed::Incomplete => Action::Read,
                Framed::Failed(_) => connection.fail(),
                Framed::Complete(request) => match handle_request(keys, request) {
                    Dispatch::Reply(response) => connection.answer(response),
                    Dispatch::Call { handler, request } => {
                        connection.id = request.id.clone();
                        connection.stage = Stage::Dispatching;
                        Action::Call { handler, request }
                    },
                },
            },
            _ => connection.fail(),
        },
        Stage::Dispatching => match event {
            Event::Returned(outcome) => {
                let id = connection.id.take();
                let response = settle(id, outcome);
                connection.answer(response)
            },
            _ => connection.fail(),
        },
        Stage::Responding => match event {
            Event::Written => {
                connection.stage = Stage::Closed;
                Action::Close
            },
            _ => connection.fail(),
        },
        Stage::Closed => Action::Close,
        Stage::Failed => Action::Close,
    }
}

/// How far a stage is along the life of a connection.
pub open spec fn rank(stage: Stage) -> int {
    match stage {
        Stage::Framing => 0,
        Stage::Dispatching => 1,
        Stage::Responding => 2,
        Stage::Closed => 3,
        Stage::Failed => 3,
    }
}

/// The stages come in order: no event takes a connection back to an
/// earlier stage.
pub proof fn lemma_stages_in_order(state: ConnectionView, keys: Seq<Seq<char>>, event: EventView)
    ensures
        rank(next(state, keys, event).0.stage) >= rank(state.stage),
{
}

/// A connection answers once: a write is asked for only on the way into
/// `Responding`, from a stage before it.
pub proof fn lemma_one_response(state: ConnectionView, keys: Seq<Seq<char>>, event: EventView)
    requires
        next(state, keys, event).1 is Write,
    ensures
        rank(state.stage) < rank(Stage::Responding),
        next(state, keys, event).0.stage == Stage::Responding,
{
}

/// A failure is not answered: whenever an event leaves a connection
/// failed, framing failures among them, nothing is written and the
/// connection is closed.
pub proof fn lemma_failure_is_silent(state: ConnectionView, keys: Seq<Seq<char>>, event: EventView)
    requires
        next(state, keys, event).0.stage == Stage::Failed,
    ensures
        next(state, keys, event).1 == ActionView::Close,
{
}

/// A connection that is over stays over: in `Closed` and in `Failed` every
/// event leaves the state as it is and asks for the close.
pub proof fn lemma_over_stays_over(state: ConnectionView, keys: Seq<Seq<char>>, event: EventView)
    requires
        rank(state.stage) == 3,
    ensures
        next(state, keys, event) == (state, ActionView::Close),
{
}

} // verus!
