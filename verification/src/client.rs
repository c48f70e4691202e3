//! One client connection: its socket, its codec, the state of its handshake
//! and the readiness it waits for.
//!
//! The connection never touches its socket. Whoever owns the event loop
//! reads and writes, tells the connection what the socket gave, and is told
//! what to do next: read again, send these bytes, register again, or give
//! the connection up.

use vstd::prelude::*;
use vstd::string::*;
use vstd::utf8::*;
use crate::accept_key::{accept_shaped, derive_accept, derived, is_base64_char, KeyError};
use crate::codec::{
    after_all,
    nothing_collected,
    tokenizer_calls,
    tokenizer_failed,
    tokenizer_upgrade,
    HandshakeCodec,
    ParseOutcome,
};
use crate::headers::{copy_bytes, tail_bytes, HeaderMap};
use crate::readiness::{event_kinds, Readiness};

verus! {

/// The header that carries the client's key.
pub const KEY_HEADER: &'static str = "Sec-WebSocket-Key";

/// The response up to the accept value.
pub const RESPONSE_HEAD: &'static str =
    "HTTP/1.1 101 Switching Protocols\r\nConnection: Upgrade\r\nSec-WebSocket-Accept: ";

/// The response after the accept value.
pub const RESPONSE_TAIL: &'static str = "\r\nUpgrade: websocket\r\n\r\n";

/// Where a connection stands in its handshake. It only ever moves forward.
#[derive(Clone, Copy, Debug, PartialEq, Eq, Structural)]
pub enum ClientState {
    /// The request has not been read to the end of its headers.
    AwaitingHandshake,
    /// The request asked for an upgrade; the response is to be written.
    HandshakeResponse,
    /// The response is out.
    Connected,
}

/// Why a connection is given up.
#[derive(Clone, Copy, Debug, PartialEq, Eq, Structural)]
pub enum ConnectionError {
    /// The socket failed at a read.
    Read,
    /// The socket failed at a write.
    Write,
    /// The request was malformed or ended before its headers did.
    Protocol,
    /// The request had no `Sec-WebSocket-Key`.
    MissingKey,
    /// The poller refused the registration.
    Registration,
    /// The peer closed the stream after its request was read.
    Closed,
}

/// What a non-blocking read gave.
pub enum SocketRead<'a> {
    /// The read failed.
    Failed,
    /// Nothing more can be read now.
    WouldBlock,
    /// These bytes were read. No bytes at all means that the peer has closed
    /// the stream.
    Data(&'a [u8]),
}

/// What a non-blocking write gave.
#[derive(Clone, Copy, Debug, PartialEq, Eq, Structural)]
pub enum SocketWrite {
    /// The write failed.
    Failed,
    /// Nothing can be written now.
    WouldBlock,
    /// The socket took this many of the bytes it was handed, from the first
    /// on.
    Sent(usize),
}

/// What is to be done next with a connection.
#[derive(Debug, PartialEq, Eq)]
pub enum Step {
    /// Read from the socket again and hand over what it gives.
    Again,
    /// Write these bytes to the socket and hand over what the write gives.
    Send(Vec<u8>),
    /// Register the socket again, with the interest the connection has now.
    Rearm,
    /// Take the connection out of the poller and drop it.
    Abandon(ConnectionError),
}

/// The readiness that a connection waits for in each state.
pub open spec fn interest_of(state: ClientState) -> Set<Readiness> {
    match state {
        ClientState::AwaitingHandshake => set![Readiness::Readable],
        ClientState::HandshakeResponse => set![Readiness::Writable],
        ClientState::Connected => set![Readiness::Readable],
    }
}

/// How far a state is along the handshake.
pub open spec fn rank(state: ClientState) -> int {
    match state {
        ClientState::AwaitingHandshake => 0,
        ClientState::HandshakeResponse => 1,
        ClientState::Connected => 2,
    }
}

/// Why a connection is given up when its stream ends: before the request
/// is complete the handshake is cut short, and afterwards the peer has
/// closed.
pub open spec fn end_of_stream(state: ClientState) -> ConnectionError {
    if state == ClientState::AwaitingHandshake {
        ConnectionError::Protocol
    } else {
        ConnectionError::Closed
    }
}

/// The name of the header that carries the client's key, as bytes.
pub open spec fn key_header() -> Seq<u8> {
    encode_utf8(KEY_HEADER@)
}

/// The key that a request carried, if it carried one.
pub open spec fn key_of(headers: Map<Seq<u8>, Seq<u8>>) -> Option<Seq<u8>> {
    if headers.contains_key(key_header()) {
        Some(headers[key_header()])
    } else {
        None
    }
}

/// Why a connection is given up for want of an accept value.
pub open spec fn key_failure(error: KeyError) -> ConnectionError {
    match error {
        KeyError::MissingKey => ConnectionError::MissingKey,
        KeyError::Unusable => ConnectionError::Protocol,
    }
}

/// The response that carries an accept value.
pub open spec fn handshake_response(accept: Seq<char>) -> Seq<char> {
    RESPONSE_HEAD@ + accept + RESPONSE_TAIL@
}

/// The bytes of the response that carries an accept value.
pub open spec fn response_bytes(accept: Seq<char>) -> Seq<u8> {
    encode_utf8(handshake_response(accept))
}

/// The length of every response in bytes: 77 before the accept value, its
/// 28, and 24 after it.
pub const RESPONSE_LEN: usize = 129;

/// A response to an accept value of the right shape is 129 characters, the
/// accept value from the 77th on, and as many bytes, one for each character.
/// No line ends inside the accept value.
pub proof fn lemma_response_shape(accept: Seq<char>)
    requires
        accept_shaped(accept),
    ensures
        handshake_response(accept).len() == RESPONSE_LEN,
        response_bytes(accept).len() == RESPONSE_LEN,
        forall|i: int|
            0 <= i < RESPONSE_LEN ==> #[trigger] response_bytes(accept)[i] == handshake_response(
                accept,
            )[i] as u8,
        forall|i: int| 0 <= i < 28 ==> #[trigger] handshake_response(accept)[77 + i] == accept[i],
        forall|i: int| 0 <= i < 28 ==> accept[i] != '\r' && #[trigger] accept[i] != '\n',
{
    reveal_strlit("HTTP/1.1 101 Switching Protocols\r\nConnection: Upgrade\r\nSec-WebSocket-Accept: ");
    reveal_strlit("\r\nUpgrade: websocket\r\n\r\n");
    let head = RESPONSE_HEAD@;
    let tail = RESPONSE_TAIL@;
    let whole = handshake_response(accept);
    assert(head.len() == 77);
    assert(tail.len() == 24);
    assert(is_ascii_chars(head));
    assert(is_ascii_chars(tail));
    assert forall|i: int| 0 <= i < accept.len() implies '\0' <= #[trigger] accept[i] <= '\u{7f}' by {
        assert(is_base64_char(accept[i]));
    }
    assert(is_ascii_chars(accept));
    assert forall|i: int| 0 <= i < whole.len() implies '\0' <= #[trigger] whole[i] <= '\u{7f}' by {
        if i < 77 {
            assert(whole[i] == head[i]);
        } else if i < 105 {
            assert(whole[i] == accept[i - 77]);
        } else {
            assert(whole[i] == tail[i - 105]);
        }
    }
    assert(is_ascii_chars(whole));
    is_ascii_chars_encode_utf8(whole);
    assert forall|i: int| 0 <= i < 28 implies accept[i] != '\r' && #[trigger] accept[i] != '\n' by {
        assert(is_base64_char(accept[i]));
    }
}

/// The state in which a run of the codec leaves a connection: one that
/// awaits its handshake goes on where the tokenizer reports a complete
/// request for an upgrade, and every other stays where it is.
pub open spec fn state_after_chunk(state: ClientState, outcome: ParseOutcome) -> ClientState {
    if state == ClientState::AwaitingHandshake && !outcome.failed && outcome.upgrade {
        ClientState::HandshakeResponse
    } else {
        state
    }
}

/// What is to be done after a run of the codec. While the handshake is
/// awaited, a malformed request ends the connection, a complete one ends
/// the reading, and otherwise more is read. In the other states the
/// connection waits for its next notification.
pub open spec fn step_after_chunk(state: ClientState, outcome: ParseOutcome) -> Step {
    if state != ClientState::AwaitingHandshake {
        Step::Rearm
    } else if outcome.failed {
        Step::Abandon(ConnectionError::Protocol)
    } else if outcome.upgrade {
        Step::Rearm
    } else {
        Step::Again
    }
}

/// A client connection over a socket of type `S`.
pub struct WebSocketClient<S> {
    socket: S,
    http_parser: HandshakeCodec,
    interest: mio::EventSet,
    state: ClientState,
    unsent: Option<Vec<u8>>,
}

impl<S> WebSocketClient<S> {
    /// The socket.
    pub closed spec fn socket_view(&self) -> S {
        self.socket
    }

    /// The codec.
    pub closed spec fn codec(&self) -> HandshakeCodec {
        self.http_parser
    }

    /// The state of the handshake.
    pub closed spec fn state_view(&self) -> ClientState {
        self.state
    }

    /// The kinds of readiness that the connection waits for.
    pub closed spec fn interest_view(&self) -> Set<Readiness> {
        event_kinds(self.interest)
    }

    /// The bytes of the response that was handed out to be written and that
    /// no socket has taken yet, if a response was handed out and is not yet
    /// out whole.
    pub closed spec fn unsent_view(&self) -> Option<Seq<u8>> {
        match self.unsent {
            Some(rest) => Some(rest@),
            None => None,
        }
    }

    /// The codec is well formed, the interest is that of the state, and a
    /// response is on its way out only while the response is due.
    pub closed spec fn wf(&self) -> bool {
        &&& self.http_parser.wf()
        &&& event_kinds(self.interest) == interest_of(self.state)
        &&& self.unsent is Some ==> self.state == ClientState::HandshakeResponse
    }

    /// A response is on its way out only while the response is due.
    pub proof fn lemma_unsent(&self)
        requires
            self.wf(),
        ensures
            self.unsent_view() is Some ==> self.state_view() == ClientState::HandshakeResponse,
    {
    }

    /// The headers collected so far.
    pub open spec fn headers_view(&self) -> Map<Seq<u8>, Seq<u8>> {
        self.codec().collected().headers
    }

    /// The interest of a well-formed connection is never empty: it is
    /// `Readable` while the handshake is awaited and once it is done, and
    /// `Writable` while the response is due.
    pub proof fn lemma_interest(&self)
        requires
            self.wf(),
        ensures
            self.interest_view() == interest_of(self.state_view()),
            !self.interest_view().is_empty(),
    {
        assert(interest_of(self.state).contains(
            if self.state == ClientState::HandshakeResponse {
                Readiness::Writable
            } else {
                Readiness::Readable
            },
        ));
    }

    /// A connection on a socket that was just accepted.
    pub fn new(socket: S) -> (client: WebSocketClient<S>)
        ensures
            client.wf(),
            client.socket_view() == socket,
            client.state_view() == ClientState::AwaitingHandshake,
            client.interest_view() == set![Readiness::Readable],
            client.codec().collected() == nothing_collected(),
            client.codec().fed() == Seq::<Seq<u8>>::empty(),
            !client.codec().upgrade(),
            !client.codec().failed(),
            client.unsent_view() is None,
    {
        WebSocketClient {
            socket: socket,
            http_parser: HandshakeCodec::new(),
            interest: mio::EventSet::readable(),
            state: ClientState::AwaitingHandshake,
            unsent: None,
        }
    }

    /// The state of the handshake.
    pub fn state(&self) -> (state: ClientState)
        ensures
            state == self.state_view(),
    {
        self.state
    }

    /// The readiness that the connection waits for.
    pub fn interest(&self) -> (interest: mio::EventSet)
        ensures
            event_kinds(interest) == self.interest_view(),
    {
        self.interest
    }

    /// The socket.
    pub fn socket(&self) -> (socket: &S)
        ensures
            *socket == self.socket_view(),
    {
        &self.socket
    }

    /// The socket, to read from it or write to it. Nothing else of the
    /// connection can change through it.
    pub fn socket_mut(&mut self) -> (socket: &mut S)
        ensures
            *socket == old(self).socket_view(),
            final(self).socket_view() == *final(socket),
            final(self).codec() == old(self).codec(),
            final(self).state_view() == old(self).state_view(),
            final(self).interest_view() == old(self).interest_view(),
            final(self).unsent_view() == old(self).unsent_view(),
            old(self).wf() ==> final(self).wf(),
    {
        &mut self.socket
    }

    /// The connection's socket alone.
    pub fn into_socket(self) -> (socket: S)
        ensures
            socket == self.socket_view(),
    {
        self.socket
    }

    /// The headers collected so far.
    pub fn headers(&mut self) -> (headers: &HeaderMap)
        requires
            old(self).wf(),
        ensures
            headers.wf(),
            headers@ == old(self).headers_view(),
            *final(self) == *old(self),
    {
        self.http_parser.headers()
    }

    /// Takes what a run of the codec reported. A connection that awaits its
    /// handshake goes on to `HandshakeResponse` at an upgrade, and waits to
    /// write instead of to read.
    pub fn chunk_fed(&mut self, outcome: ParseOutcome) -> (step: Step)
        requires
            old(self).wf(),
        ensures
            final(self).wf(),
            final(self).socket_view() == old(self).socket_view(),
            final(self).codec() == old(self).codec(),
            final(self).state_view() == state_after_chunk(old(self).state_view(), outcome),
            final(self).interest_view() == interest_of(final(self).state_view()),
            final(self).unsent_view() == old(self).unsent_view(),
            step == step_after_chunk(old(self).state_view(), outcome),
    {
        if self.state != ClientState::AwaitingHandshake {
            Step::Rearm
        } else if outcome.failed {
            Step::Abandon(ConnectionError::Protocol)
        } else if outcome.upgrade {
            self.state = ClientState::HandshakeResponse;
            self.interest.remove(mio::EventSet::readable());
            self.interest.insert(mio::EventSet::writable());
            assert(event_kinds(self.interest) =~= interest_of(self.state));
            Step::Rearm
        } else {
            Step::Again
        }
    }

    /// What `read` may do to a connection: `after` and `step` are a possible
    /// outcome of handing `input` to `before`.
    pub open spec fn reads<'a>(before: Self, input: SocketRead<'a>, after: Self, step: Step) -> bool {
        &&& after.wf()
        &&& after.socket_view() == before.socket_view()
        &&& after.interest_view() == interest_of(after.state_view())
        &&& after.unsent_view() == before.unsent_view()
        &&& rank(before.state_view()) <= rank(after.state_view())
        &&& match input {
            SocketRead::Failed => {
                &&& step == Step::Abandon(ConnectionError::Read)
                &&& after == before
            },
            SocketRead::WouldBlock => {
                &&& step == Step::Rearm
                &&& after == before
            },
            SocketRead::Data(bytes) => if bytes@.len() == 0 {
                &&& step == Step::Abandon(end_of_stream(before.state_view()))
                &&& after == before
            } else if before.state_view() != ClientState::AwaitingHandshake {
                &&& step == Step::Rearm
                &&& after == before
            } else {
                let fed = before.codec().fed().push(bytes@);
                let outcome = ParseOutcome {
                    upgrade: tokenizer_upgrade(fed),
                    failed: tokenizer_failed(fed),
                };
                &&& after.codec().fed() == fed
                &&& after.codec().collected() == after_all(
                    before.codec().collected(),
                    tokenizer_calls(fed),
                )
                &&& after.codec().upgrade() == outcome.upgrade
                &&& after.codec().failed() == outcome.failed
                &&& step == step_after_chunk(before.state_view(), outcome)
                &&& after.state_view() == state_after_chunk(before.state_view(), outcome)
            },
        }
    }

    /// Takes what a read of the socket gave.
    ///
    /// A failed read ends the connection, and so does the end of the stream.
    /// When nothing more can be read, the connection waits for the next
    /// notification. Bytes reach the codec only while the handshake is
    /// awaited: the codec runs over them and `chunk_fed` takes what it
    /// reports. In the other states the bytes are left alone.
    pub fn read(&mut self, input: SocketRead<'_>) -> (step: Step)
        requires
            old(self).wf(),
        ensures
            Self::reads(*old(self), input, *final(self), step),
    {
        match input {
            SocketRead::Failed => Step::Abandon(ConnectionError::Read),
            SocketRead::WouldBlock => Step::Rearm,
            SocketRead::Data(bytes) => {
                if bytes.len() == 0 {
                    if self.state == ClientState::AwaitingHandshake {
                        Step::Abandon(ConnectionError::Protocol)
                    } else {
                        Step::Abandon(ConnectionError::Closed)
                    }
                } else if self.state != ClientState::AwaitingHandshake {
                    Step::Rearm
                } else {
                    let outcome = self.http_parser.feed(bytes);
                    self.chunk_fed(outcome)
                }
            },
        }
    }

    /// Whether a read hands the codec a chunk with which the chunks fed so
    /// far are, to the tokenizer, a complete request for an upgrade.
    pub open spec fn completes<'a>(before: Self, input: SocketRead<'a>) -> bool {
        &&& before.state_view() == ClientState::AwaitingHandshake
        &&& input matches SocketRead::Data(bytes)
        &&& bytes@.len() > 0
        &&& tokenizer_upgrade(before.codec().fed().push(bytes@))
        &&& !tokenizer_failed(before.codec().fed().push(bytes@))
    }

    /// A connection that awaits its handshake and takes any number of reads
    /// is in `HandshakeResponse` afterwards if and only if one of the reads
    /// handed the codec a chunk with which the chunks fed so far were, to
    /// the tokenizer, a complete request for an upgrade. Until then it stays
    /// as it began, and no read takes it further.
    pub proof fn lemma_reads_reach_response(
        trace: Seq<Self>,
        inputs: Seq<SocketRead<'_>>,
        steps: Seq<Step>,
    )
        requires
            trace.len() == inputs.len() + 1,
            steps.len() == inputs.len(),
            trace[0].state_view() == ClientState::AwaitingHandshake,
            forall|k: int|
                0 <= k < inputs.len() ==> #[trigger] Self::reads(
                    trace[k],
                    inputs[k],
                    trace[k + 1],
                    steps[k],
                ),
        ensures
            trace.last().state_view() == ClientState::HandshakeResponse <==> exists|k: int|
                0 <= k < inputs.len() && #[trigger] Self::completes(trace[k], inputs[k]),
            trace.last().state_view() != ClientState::Connected,
        decreases inputs.len(),
    {
        let n = inputs.len() as int;
        if n > 0 {
            let head = trace.drop_last();
            let head_inputs = inputs.drop_last();
            let head_steps = steps.drop_last();
            assert forall|k: int| 0 <= k < head_inputs.len() implies #[trigger] Self::reads(
                head[k],
                head_inputs[k],
                head[k + 1],
                head_steps[k],
            ) by {
                assert(Self::reads(trace[k], inputs[k], trace[k + 1], steps[k]));
            }
            Self::lemma_reads_reach_response(head, head_inputs, head_steps);
            assert(Self::reads(trace[n - 1], inputs[n - 1], trace[n], steps[n - 1]));
            assert(head.last() == trace[n - 1]);
            if head.last().state_view() == ClientState::HandshakeResponse {
                let k = choose|k: int|
                    0 <= k < head_inputs.len() && #[trigger] Self::completes(head[k], head_inputs[k]);
                assert(Self::completes(trace[k], inputs[k]));
            } else {
                if trace.last().state_view() == ClientState::HandshakeResponse {
                    assert(Self::completes(trace[n - 1], inputs[n - 1]));
                }
                if exists|k: int|
                    0 <= k < inputs.len() && #[trigger] Self::completes(trace[k], inputs[k]) {
                    let k = choose|k: int|
                        0 <= k < inputs.len() && #[trigger] Self::completes(trace[k], inputs[k]);
                    if k < n - 1 {
                        assert(Self::completes(head[k], head_inputs[k]));
                    }
                }
            }
        }
    }

    /// What `respond` answers for a connection, and how it leaves it.
    ///
    /// While the response is due, the answer is the bytes to be written:
    /// what is left of a response that was handed out before and did not go
    /// out whole, or else the whole response to the client's key, which is
    /// then on its way out. A request without a key, or with a key that
    /// cannot be used, ends the connection. In the other states nothing is
    /// to be written.
    pub open spec fn responds(before: Self, after: Self, step: Step) -> bool {
        &&& after.wf()
        &&& after.socket_view() == before.socket_view()
        &&& after.codec() == before.codec()
        &&& after.state_view() == before.state_view()
        &&& after.interest_view() == before.interest_view()
        &&& if before.state_view() != ClientState::HandshakeResponse {
            &&& step == Step::Rearm
            &&& after.unsent_view() == before.unsent_view()
        } else if before.unsent_view() is Some {
            &&& step matches Step::Send(bytes)
            &&& bytes@ == before.unsent_view()->Some_0
            &&& after.unsent_view() == before.unsent_view()
        } else {
            match derived(key_of(before.headers_view())) {
                Ok(accept) => {
                    &&& accept_shaped(accept)
                    &&& step matches Step::Send(bytes)
                    &&& bytes@ == response_bytes(accept)
                    &&& after.unsent_view() == Some(response_bytes(accept))
                },
                Err(error) => {
                    &&& step == Step::Abandon(key_failure(error))
                    &&& after.unsent_view() is None
                },
            }
        }
    }

    /// What is to be written when the socket can be written to.
    pub fn respond(&mut self) -> (step: Step)
        requires
            old(self).wf(),
        ensures
            Self::responds(*old(self), *final(self), step),
    {
        if self.state != ClientState::HandshakeResponse {
            return Step::Rearm;
        }
        match &self.unsent {
            Some(rest) => {
                return Step::Send(copy_bytes(rest.as_slice()));
            },
            None => {},
        }
        let headers = self.http_parser.headers();
        match derive_accept(headers.get(KEY_HEADER.as_bytes())) {
            Err(KeyError::MissingKey) => Step::Abandon(ConnectionError::MissingKey),
            Err(KeyError::Unusable) => Step::Abandon(ConnectionError::Protocol),
            Ok(accept) => {
                let mut response = String::from_str(RESPONSE_HEAD);
                response.append(accept.as_str());
                response.append(RESPONSE_TAIL);
                let bytes = copy_bytes(response.as_str().as_bytes());
                self.unsent = Some(copy_bytes(bytes.as_slice()));
                Step::Send(bytes)
            },
        }
    }

    /// What `write` does to a connection.
    ///
    /// A failed write ends the connection. A socket that took nothing is
    /// waited for again. A count of bytes counts only while a response is
    /// on its way out: when it covers all that was unsent, the response is
    /// out and the connection is `Connected`; when it covers less, the rest
    /// stays unsent and the response stays due.
    pub open spec fn writes(before: Self, outcome: SocketWrite, after: Self, step: Step) -> bool {
        &&& after.wf()
        &&& after.socket_view() == before.socket_view()
        &&& after.codec() == before.codec()
        &&& after.interest_view() == interest_of(after.state_view())
        &&& rank(before.state_view()) <= rank(after.state_view())
        &&& step == (if outcome == SocketWrite::Failed {
            Step::Abandon(ConnectionError::Write)
        } else {
            Step::Rearm
        })
        &&& if outcome is Sent && before.unsent_view() is Some {
            let rest = before.unsent_view()->Some_0;
            let count = outcome->Sent_0;
            if count >= rest.len() {
                &&& after.state_view() == ClientState::Connected
                &&& after.unsent_view() is None
            } else {
                &&& after.state_view() == before.state_view()
                &&& after.unsent_view() == Some(rest.subrange(count as int, rest.len() as int))
            }
        } else {
            &&& after.state_view() == before.state_view()
            &&& after.unsent_view() == before.unsent_view()
        }
    }

    /// Takes what the write of the bytes that `respond` handed out gave.
    pub fn write(&mut self, outcome: SocketWrite) -> (step: Step)
        requires
            old(self).wf(),
        ensures
            Self::writes(*old(self), outcome, *final(self), step),
    {
        match outcome {
            SocketWrite::Failed => Step::Abandon(ConnectionError::Write),
            SocketWrite::WouldBlock => Step::Rearm,
            SocketWrite::Sent(count) => {
                let rest = match &self.unsent {
                    None => {
                        return Step::Rearm;
                    },
                    Some(unsent) => if count < unsent.len() {
                        Some(tail_bytes(unsent.as_slice(), count))
                    } else {
                        None
                    },
                };
                if rest.is_none() {
                    self.state = ClientState::Connected;
                    self.interest.remove(mio::EventSet::writable());
                    self.interest.insert(mio::EventSet::readable());
                    assert(event_kinds(self.interest) =~= interest_of(self.state));
                }
                self.unsent = rest;
                Step::Rearm
            },
        }
    }
}

} // verus!
