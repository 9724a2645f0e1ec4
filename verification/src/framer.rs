//! Finding the end of a message. The transport gives no length: a message
//! is a dictionary, which ends with the byte `e`, so a buffer is tried as a
//! request whenever its last byte is that delimiter, and read on otherwise.

use vstd::prelude::*;
use vstd::string::*;
use crate::codec::{bencode_dictionary, read_dictionary};
use crate::error::{NetpodError, NetpodErrorView};
use crate::model::{Request, RequestView};
use crate::wire::request_of;

verus! {

/// The byte that ends a dictionary on the wire.
pub const DELIMITER: u8 = 0x65;

/// What a buffer holds: the request it encodes, the decode failure, or the
/// message `keep reading` where the buffer is empty or does not end with
/// the delimiter.
pub open spec fn request_in(buffer: Seq<u8>) -> Result<RequestView, NetpodErrorView> {
    if buffer.len() == 0 || buffer.last() != DELIMITER {
        Err(NetpodErrorView::Message("keep reading"@))
    } else {
        match request_of(bencode_dictionary(buffer)) {
            Ok(request) => Ok(request),
            Err(e) => Err(NetpodErrorView::BendyDecoding(e)),
        }
    }
}

/// The content of a decoding outcome.
pub open spec fn outcome(r: Result<Request, NetpodError>) -> Result<RequestView, NetpodErrorView> {
    match r {
        Ok(request) => Ok(request@),
        Err(e) => Err(e@),
    }
}

/// Tries a buffer as a request. The codec is asked only where the last
/// byte is the delimiter; an empty buffer is incomplete like any other.
pub fn decode_request(buffer: &[u8]) -> (r: Result<Request, NetpodError>)
    ensures
        outcome(r) == request_in(buffer@),
{
    if buffer.len() > 0 && buffer[buffer.len() - 1] == DELIMITER {
        let dictionary = read_dictionary(buffer);
        match Request::decode_bencode_object(&dictionary) {
            Ok(request) => Ok(request),
            Err(e) => Err(NetpodError::BendyDecoding(e)),
        }
    } else {
        Err(NetpodError::Message(String::from_str("keep reading")))
    }
}

/// Where the framing of one connection stands after a read.
#[derive(Debug, PartialEq, Eq)]
pub enum Framed {
    /// No request yet: read on.
    Incomplete,
    /// The buffer holds this request.
    Complete(Request),
    /// The stream ended without a request.
    Failed(NetpodError),
}

/// The mathematical content of a [`Framed`].
pub enum FramedView {
    Incomplete,
    Complete(RequestView),
    Failed(NetpodErrorView),
}

impl View for Framed {
    type V = FramedView;

    open spec fn view(&self) -> FramedView {
        match self {
            Framed::Incomplete => FramedView::Incomplete,
            Framed::Complete(request) => FramedView::Complete(request@),
            Framed::Failed(e) => FramedView::Failed(e@),
        }
    }
}

/// Whether a buffer with one more chunk stays within the limit on the size
/// of a message; without a limit every buffer does.
pub open spec fn fits(buffer: Seq<u8>, limit: Option<nat>, chunk: Seq<u8>) -> bool {
    match limit {
        Some(most) => buffer.len() + chunk.len() <= most,
        None => true,
    }
}

/// What a read makes of a buffer: the buffer after it, and where the
/// framing stands. A read of no bytes is the end of the stream: the buffer
/// as it is gets its one last try. A read that would take the buffer past
/// the limit fails and is not taken. Any other read is appended, and only
/// a buffer that decodes completes the request.
pub open spec fn after_read(buffer: Seq<u8>, limit: Option<nat>, chunk: Seq<u8>) -> (
    Seq<u8>,
    FramedView,
) {
    if chunk.len() == 0 {
        (
            buffer,
            match request_in(buffer) {
                Ok(request) => FramedView::Complete(request),
                Err(e) => FramedView::Failed(e),
            },
        )
    } else if !fits(buffer, limit, chunk) {
        (buffer, FramedView::Failed(NetpodErrorView::Message("message too large"@)))
    } else {
        (
            buffer + chunk,
            match request_in(buffer + chunk) {
                Ok(request) => FramedView::Complete(request),
                Err(_) => FramedView::Incomplete,
            },
        )
    }
}

/// The bytes of one connection read so far; its content is those bytes.
#[derive(Debug)]
pub struct Framer {
    buffer: Vec<u8>,
    limit: Option<usize>,
}

impl View for Framer {
    type V = Seq<u8>;

    closed spec fn view(&self) -> Seq<u8> {
        self.buffer@
    }
}

/// A limit as a plain value.
pub open spec fn limit_of(limit: Option<usize>) -> Option<nat> {
    match limit {
        Some(most) => Some(most as nat),
        None => None,
    }
}

impl Framer {
    /// The most bytes that the framer takes for one message, if it has a
    /// limit.
    pub closed spec fn limit(&self) -> Option<nat> {
        limit_of(self.limit)
    }

    /// A framer that has read nothing and takes messages of any size.
    pub fn new() -> (framer: Framer)
        ensures
            framer@ == Seq::<u8>::empty(),
            framer.limit() == None::<nat>,
    {
        Framer { buffer: Vec::new(), limit: None }
    }

    /// A framer that has read nothing and takes no message of more than
    /// `most` bytes.
    pub fn with_limit(most: usize) -> (framer: Framer)
        ensures
            framer@ == Seq::<u8>::empty(),
            framer.limit() == Some(most as nat),
    {
        Framer { buffer: Vec::new(), limit: Some(most) }
    }

    /// Whether one more chunk stays within the limit.
    fn has_room(&self, chunk: &[u8]) -> (room: bool)
        ensures
            room == fits(self@, self.limit(), chunk@),
    {
        match self.limit {
            Some(most) => {
                let held = self.buffer.len();
                held <= most && chunk.len() <= most - held
            },
            None => true,
        }
    }

    /// Takes what one read returned.
    pub fn accept(&mut self, chunk: &[u8]) -> (step: Framed)
        ensures
            (final(self)@, step@) == after_read(old(self)@, old(self).limit(), chunk@),
            final(self).limit() == old(self).limit(),
    {
        if chunk.len() == 0 {
            match decode_request(self.buffer.as_slice()) {
                Ok(request) => Framed::Complete(request),
                Err(e) => Framed::Failed(e),
            }
        } else if !self.has_room(chunk) {
            Framed::Failed(NetpodError::Message(String::from_str("message too large")))
        } else {
            self.buffer.extend_from_slice(chunk);
            assert(self.buffer@ =~= old(self).buffer@ + chunk@);
            match decode_request(self.buffer.as_slice()) {
                Ok(request) => Framed::Complete(request),
                Err(_) => Framed::Incomplete,
            }
        }
    }
}

/// What a sequence of reads yields, from a buffer: the first request that
/// completes, or the failure that ends the framing. The stream ends with
/// the first read of no bytes, or where the reads run out.
pub open spec fn framed(buffer: Seq<u8>, limit: Option<nat>, reads: Seq<Seq<u8>>) -> Result<
    RequestView,
    NetpodErrorView,
>
    decreases reads.len(),
{
    if reads.len() == 0 {
        request_in(buffer)
    } else {
        match after_read(buffer, limit, reads[0]) {
            (_, FramedView::Complete(request)) => Ok(request),
            (_, FramedView::Failed(e)) => Err(e),
            (next, FramedView::Incomplete) => framed(next, limit, reads.drop_first()),
        }
    }
}

/// The bytes of the reads, one after the other.
pub open spec fn joined(reads: Seq<Seq<u8>>) -> Seq<u8>
    decreases reads.len(),
{
    if reads.len() == 0 {
        Seq::empty()
    } else {
        reads[0] + joined(reads.drop_first())
    }
}

/// The reads of a connection as plain values.
pub open spec fn reads_of(reads: Seq<Vec<u8>>) -> Seq<Seq<u8>> {
    reads.map_values(|r: Vec<u8>| r@)
}

/// Frames one request out of what a connection delivered, read by read,
/// with no limit on the size of the message.
pub fn read_request(reads: &Vec<Vec<u8>>) -> (r: Result<Request, NetpodError>)
    ensures
        outcome(r) == framed(Seq::empty(), None, reads_of(reads@)),
{
    let mut framer = Framer::new();
    let ghost all = reads_of(reads@);
    let mut i: usize = 0;
    assert(all.skip(0) =~= all);
    while i < reads.len()
        invariant
            all == reads_of(reads@),
            i <= reads@.len(),
            framer.limit() == None::<nat>,
            framed(Seq::empty(), None, all) == framed(framer@, None, all.skip(i as int)),
        decreases reads@.len() - i,
    {
        let ghost rest = all.skip(i as int);
        assert(rest[0] == reads@[i as int]@);
        assert(rest.drop_first() =~= all.skip(i + 1));
        match framer.accept(reads[i].as_slice()) {
            Framed::Complete(request) => {
                return Ok(request);
            },
            Framed::Failed(e) => {
                return Err(e);
            },
            Framed::Incomplete => {},
        }
        i += 1;
    }
    assert(all.skip(i as int).len() == 0);
    match framer.accept(&[]) {
        Framed::Complete(request) => Ok(request),
        Framed::Failed(e) => Err(e),
        Framed::Incomplete => Err(NetpodError::Message(String::from_str("request is None"))),
    }
}

/// A message is the encoding of a request where it decodes to that request
/// and nothing shorter decodes: the encoding ends where the message ends.
pub open spec fn encodes(message: Seq<u8>, request: RequestView) -> bool {
    &&& request_in(message) == Ok::<RequestView, NetpodErrorView>(request)
    &&& forall|n: int| 0 <= n < message.len() ==> (#[trigger] request_in(message.take(n))) is Err
}

/// Every read holds at least one byte.
pub open spec fn all_hold_bytes(reads: Seq<Seq<u8>>) -> bool {
    forall|i: int| 0 <= i < reads.len() ==> (#[trigger] reads[i]).len() > 0
}

/// Framing from a buffer that holds the start of a message, with reads
/// that hold the rest of it, yields the request of the message.
proof fn lemma_framed_rest(
    message: Seq<u8>,
    request: RequestView,
    limit: Option<nat>,
    buffer: Seq<u8>,
    reads: Seq<Seq<u8>>,
)
    requires
        encodes(message, request),
        all_hold_bytes(reads),
        buffer + joined(reads) == message,
        fits(message, limit, Seq::empty()),
    ensures
        framed(buffer, limit, reads) == Ok::<RequestView, NetpodErrorView>(request),
    decreases reads.len(),
{
    if reads.len() == 0 {
        assert(buffer =~= message);
    } else {
        let next = buffer + reads[0];
        let rest = reads.drop_first();
        assert(next + joined(rest) =~= message);
        assert(all_hold_bytes(rest)) by {
            assert forall|i: int| 0 <= i < rest.len() implies (#[trigger] rest[i]).len() > 0 by {
                assert(rest[i] == reads[i + 1]);
            }
        }
        assert(fits(buffer, limit, reads[0]));
        if next.len() == message.len() {
            assert(next =~= message);
        } else {
            assert(next =~= message.take(next.len() as int));
            lemma_framed_rest(message, request, limit, next, rest);
        }
    }
}

/// Framing is complete: however the encoding of a request is cut into
/// reads, the reads frame to that request, under any limit that the
/// message is within.
pub proof fn lemma_framing_complete(
    message: Seq<u8>,
    request: RequestView,
    limit: Option<nat>,
    reads: Seq<Seq<u8>>,
)
    requires
        encodes(message, request),
        all_hold_bytes(reads),
        joined(reads) == message,
        fits(message, limit, Seq::empty()),
    ensures
        framed(Seq::empty(), limit, reads) == Ok::<RequestView, NetpodErrorView>(request),
{
    assert(Seq::<u8>::empty() + joined(reads) =~= message);
    lemma_framed_rest(message, request, limit, Seq::empty(), reads);
}

/// Framing does not complete early: a buffer that does not decode after a
/// read, whatever its last byte, is kept in full and answered with
/// `Incomplete`, and framing goes on with the reads that follow.
pub proof fn lemma_framing_goes_on(
    buffer: Seq<u8>,
    limit: Option<nat>,
    chunk: Seq<u8>,
    rest: Seq<Seq<u8>>,
)
    requires
        chunk.len() > 0,
        fits(buffer, limit, chunk),
        request_in(buffer + chunk) is Err,
    ensures
        after_read(buffer, limit, chunk) == (buffer + chunk, FramedView::Incomplete),
        framed(buffer, limit, seq![chunk] + rest) == framed(buffer + chunk, limit, rest),
{
    let reads = seq![chunk] + rest;
    assert(reads[0] == chunk);
    assert(reads.drop_first() =~= rest);
}

/// The limit holds: under a limit, the framer never holds more bytes than
/// the limit allows after a read, if it did not before.
pub proof fn lemma_limit_holds(buffer: Seq<u8>, most: nat, chunk: Seq<u8>)
    requires
        buffer.len() <= most,
    ensures
        after_read(buffer, Some(most), chunk).0.len() <= most,
{
}

} // verus!
