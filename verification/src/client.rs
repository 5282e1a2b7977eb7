//! The protocol client's state machine: a persistent connection carries a
//! strict request/response cycle with at most one request in flight. The
//! client frames each request for the wire and correlates it with exactly
//! one response; violating the cycle is a detectable error value, never
//! silent corruption. The socket I/O itself and the decoding of response
//! bytes happen outside the library; their outcome is handed in as an event
//! and every decision about it is made, and proved, here.

use vstd::prelude::*;
use vstd::string::{StrSliceExecFns, StringExecFns};

use crate::parser::ParsedRequest;
use crate::text::str_equal;
use crate::wire::{encode_request, spec_encode_request};

verus! {

/// The lifecycle of the connection: ready for a request, waiting for the
/// response to the request in flight, or no longer usable.
#[derive(Debug, Copy, Clone, PartialEq, Eq, Structural)]
pub enum ConnectionState {
    Connected,
    AwaitingResponse,
    Disconnected,
}

/// Why a client operation failed: a transport-level failure, a response
/// that did not decode, a peer that closed the connection, or a call that
/// violates the one-request-in-flight cycle.
#[derive(Debug, Copy, Clone, PartialEq, Eq, Structural)]
pub enum ClientError {
    Io,
    Protocol,
    Closed,
    AlreadyPending,
    NoPending,
    NotConnected,
}

/// Why the connection could not be opened in the first place. Opening the
/// socket happens outside the library; the caller maps the failure it saw
/// onto these.
#[derive(Debug, Copy, Clone, PartialEq, Eq, Structural)]
pub enum ConnectError {
    NotFound,
    PermissionDenied,
    Io,
}

/// A decoded response: its status, and the payload exactly as the engine
/// sent it. The payload's internal shape is command-specific and is never
/// interpreted here; it is carried through to rendering verbatim.
#[derive(Debug)]
pub struct Response {
    pub status: String,
    pub message: String,
}

/// The mathematical value of a [`Response`].
#[verifier::ext_equal]
pub struct ResponseV {
    pub status: Seq<char>,
    pub message: Seq<char>,
}

impl View for Response {
    type V = ResponseV;

    open spec fn view(&self) -> ResponseV {
        ResponseV { status: self.status@, message: self.message@ }
    }
}

/// What the caller observed on the wire while reading the response to the
/// request in flight: a response that decoded, bytes that did not decode,
/// a connection the peer closed, or a transport failure.
#[derive(Debug)]
pub enum ReadEvent {
    Decoded(Response),
    Malformed,
    ConnectionClosed,
    IoFailed,
}

/// The mathematical value of a [`ReadEvent`].
#[verifier::ext_equal]
pub enum ReadEventV {
    Decoded(ResponseV),
    Malformed,
    ConnectionClosed,
    IoFailed,
}

impl View for ReadEvent {
    type V = ReadEventV;

    open spec fn view(&self) -> ReadEventV {
        match self {
            ReadEvent::Decoded(r) => ReadEventV::Decoded(r@),
            ReadEvent::Malformed => ReadEventV::Malformed,
            ReadEvent::ConnectionClosed => ReadEventV::ConnectionClosed,
            ReadEvent::IoFailed => ReadEventV::IoFailed,
        }
    }
}

/// Whether a send is accepted in the given state.
pub open spec fn send_allowed(st: ConnectionState) -> bool {
    st is Connected
}

/// The state after a send is attempted: only an accepted send changes the
/// state, and it leaves a request in flight.
pub open spec fn state_after_send(st: ConnectionState) -> ConnectionState {
    if st is Connected {
        ConnectionState::AwaitingResponse
    } else {
        st
    }
}

/// The state after the response to the request in flight was read: a decoded
/// response completes the cycle; anything else is fatal for the connection.
/// In any other state a read changes nothing.
pub open spec fn state_after_read(st: ConnectionState, ev: ReadEventV) -> ConnectionState {
    if st is AwaitingResponse {
        match ev {
            ReadEventV::Decoded(_) => ConnectionState::Connected,
            _ => ConnectionState::Disconnected,
        }
    } else {
        st
    }
}

/// The protocol client's state machine. It owns no socket itself: the
/// caller performs the I/O and feeds what it observed back in, and the
/// machine decides, under proof, what each observation means.
#[derive(Debug)]
pub struct ProtocolClient {
    state: ConnectionState,
}

impl View for ProtocolClient {
    type V = ConnectionState;

    closed spec fn view(&self) -> ConnectionState {
        self.state
    }
}

impl ProtocolClient {
    /// A client over a connection that was just opened: ready for its first
    /// request.
    pub fn new() -> (r: Self)
        ensures
            r@ is Connected,
    {
        ProtocolClient { state: ConnectionState::Connected }
    }

    /// The current lifecycle state.
    pub fn state(&self) -> (r: ConnectionState)
        ensures
            r == self@,
    {
        self.state
    }

    /// Accepts a request for sending: on a connected client it yields the
    /// wire frame to write and leaves the request in flight. While a
    /// response is outstanding a second send is refused, and on a dead
    /// connection nothing is accepted; either refusal leaves the state
    /// unchanged.
    pub fn send(&mut self, req: &ParsedRequest) -> (r: Result<String, ClientError>)
        ensures
            final(self)@ == state_after_send(old(self)@),
            old(self)@ is Connected ==> (r matches Ok(frame) && frame@ == spec_encode_request(
                req@,
            )),
            old(self)@ is AwaitingResponse ==> r == Err::<String, ClientError>(
                ClientError::AlreadyPending,
            ),
            old(self)@ is Disconnected ==> r == Err::<String, ClientError>(
                ClientError::NotConnected,
            ),
    {
        match self.state {
            ConnectionState::Connected => {
                self.state = ConnectionState::AwaitingResponse;
                Ok(encode_request(req))
            },
            ConnectionState::AwaitingResponse => Err(ClientError::AlreadyPending),
            ConnectionState::Disconnected => Err(ClientError::NotConnected),
        }
    }

    /// Completes the cycle for the request in flight with what was read
    /// from the wire: a decoded response is returned and the client is
    /// ready again; malformed bytes are a protocol error, a closed peer and
    /// a transport failure end the connection. A read with no request in
    /// flight is refused and changes nothing.
    pub fn read(&mut self, event: ReadEvent) -> (r: Result<Response, ClientError>)
        ensures
            final(self)@ == state_after_read(old(self)@, event@),
            old(self)@ is AwaitingResponse ==> match event {
                ReadEvent::Decoded(resp) => r matches Ok(got) && got == resp,
                ReadEvent::Malformed => r == Err::<Response, ClientError>(ClientError::Protocol),
                ReadEvent::ConnectionClosed => r == Err::<Response, ClientError>(
                    ClientError::Closed,
                ),
                ReadEvent::IoFailed => r == Err::<Response, ClientError>(ClientError::Io),
            },
            old(self)@ is Connected ==> r == Err::<Response, ClientError>(ClientError::NoPending),
            old(self)@ is Disconnected ==> r == Err::<Response, ClientError>(
                ClientError::NotConnected,
            ),
    {
        match self.state {
            ConnectionState::AwaitingResponse => {
                match event {
                    ReadEvent::Decoded(resp) => {
                        self.state = ConnectionState::Connected;
                        Ok(resp)
                    },
                    ReadEvent::Malformed => {
                        self.state = ConnectionState::Disconnected;
                        Err(ClientError::Protocol)
                    },
                    ReadEvent::ConnectionClosed => {
                        self.state = ConnectionState::Disconnected;
                        Err(ClientError::Closed)
                    },
                    ReadEvent::IoFailed => {
                        self.state = ConnectionState::Disconnected;
                        Err(ClientError::Io)
                    },
                }
            },
            ConnectionState::Connected => Err(ClientError::NoPending),
            ConnectionState::Disconnected => Err(ClientError::NotConnected),
        }
    }

    /// Records that writing the frame failed at the transport: the
    /// connection is no longer usable.
    pub fn connection_lost(&mut self)
        ensures
            final(self)@ is Disconnected,
    {
        self.state = ConnectionState::Disconnected;
    }
}

/// Law: at most one request is in flight. After a send is accepted, a
/// second send without an intervening read is refused and leaves the state
/// exactly as it was; only reading a decoded response makes the client
/// ready to send again, and any other read outcome ends the connection, on
/// which no further send is accepted.
pub proof fn lemma_one_request_in_flight(st: ConnectionState, ev: ReadEventV)
    requires
        send_allowed(st),
    ensures
        !send_allowed(state_after_send(st)),
        state_after_send(state_after_send(st)) == state_after_send(st),
        ev matches ReadEventV::Decoded(_) ==> send_allowed(
            state_after_read(state_after_send(st), ev),
        ),
        !(ev matches ReadEventV::Decoded(_)) ==> !send_allowed(
            state_after_read(state_after_send(st), ev),
        ) && state_after_read(state_after_send(st), ev) is Disconnected,
{
}

/// How a rendered response reads: an `OK` status presents the payload
/// alone, in its long form; any other status presents the status and the
/// payload in its compact form, without interpreting the payload's shape.
pub open spec fn spec_render(status: Seq<char>, pretty: Seq<char>, compact: Seq<char>) -> Seq<
    char,
> {
    if status == "OK"@ {
        "Success:\n"@ + pretty
    } else {
        "Error (status="@ + status + ")\n"@ + compact
    }
}

/// Renders a response for the user. `pretty_message` is the payload in the
/// long form the caller prepared; the response's own `message` holds the
/// compact form. Which of the two appears, and under which heading, is
/// decided by the status alone.
pub fn render_response(resp: &Response, pretty_message: &str) -> (r: String)
    ensures
        r@ == spec_render(resp@.status, pretty_message@, resp@.message),
{
    if str_equal(resp.status.as_str(), "OK") {
        let mut s = "Success:\n".to_owned();
        s.append(pretty_message);
        s
    } else {
        let mut s = "Error (status=".to_owned();
        s.append(resp.status.as_str());
        s.append(")\n");
        s.append(resp.message.as_str());
        assert(s@ =~~= "Error (status="@ + resp.status@ + ")\n"@ + resp.message@);
        s
    }
}

/// The report text of each connection-opening failure.
pub open spec fn spec_connect_error_message(e: ConnectError) -> Seq<char> {
    match e {
        ConnectError::NotFound => "socket not found"@,
        ConnectError::PermissionDenied => "permission denied"@,
        ConnectError::Io => "connection failed"@,
    }
}

impl ConnectError {
    /// A human-readable report of the failure.
    pub fn message(&self) -> (r: String)
        ensures
            r@ == spec_connect_error_message(*self),
    {
        match self {
            ConnectError::NotFound => "socket not found".to_owned(),
            ConnectError::PermissionDenied => "permission denied".to_owned(),
            ConnectError::Io => "connection failed".to_owned(),
        }
    }
}

/// The report text of each client error.
pub open spec fn spec_client_error_message(e: ClientError) -> Seq<char> {
    match e {
        ClientError::Io => "ioerror"@,
        ClientError::Protocol => "protocol error: response did not decode"@,
        ClientError::Closed => "connection closed"@,
        ClientError::AlreadyPending => "a request is already awaiting its response"@,
        ClientError::NoPending => "no request is awaiting a response"@,
        ClientError::NotConnected => "not connected"@,
    }
}

impl ClientError {
    /// A human-readable report of the failure.
    pub fn message(&self) -> (r: String)
        ensures
            r@ == spec_client_error_message(*self),
    {
        match self {
            ClientError::Io => "ioerror".to_owned(),
            ClientError::Protocol => "protocol error: response did not decode".to_owned(),
            ClientError::Closed => "connection closed".to_owned(),
            ClientError::AlreadyPending => "a request is already awaiting its response".to_owned(),
            ClientError::NoPending => "no request is awaiting a response".to_owned(),
            ClientError::NotConnected => "not connected".to_owned(),
        }
    }
}

} // verus!
