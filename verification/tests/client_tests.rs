use suricatasc::client::{
    ClientError, ConnectError, ConnectionState, ProtocolClient, ReadEvent, Response,
    render_response,
};
use suricatasc::parser::CommandParser;

fn a_request() -> suricatasc::parser::ParsedRequest {
    CommandParser::new().parse("uptime").unwrap()
}

fn a_response(status: &str, message: &str) -> Response {
    Response { status: status.to_string(), message: message.to_string() }
}

#[test]
fn one_request_in_flight_is_enforced() {
    let mut client = ProtocolClient::new();
    assert_eq!(client.state(), ConnectionState::Connected);

    let frame = client.send(&a_request()).unwrap();
    assert_eq!(frame, "{\"command\":\"uptime\"}");
    assert_eq!(client.state(), ConnectionState::AwaitingResponse);

    let second = client.send(&a_request());
    assert!(matches!(second, Err(ClientError::AlreadyPending)));
    assert_eq!(client.state(), ConnectionState::AwaitingResponse);

    let resp = client.read(ReadEvent::Decoded(a_response("OK", "{}"))).unwrap();
    assert_eq!(resp.status, "OK");
    assert_eq!(client.state(), ConnectionState::Connected);

    assert!(client.send(&a_request()).is_ok());
}

#[test]
fn read_without_a_request_is_refused() {
    let mut client = ProtocolClient::new();
    let r = client.read(ReadEvent::Decoded(a_response("OK", "{}")));
    assert!(matches!(r, Err(ClientError::NoPending)));
    assert_eq!(client.state(), ConnectionState::Connected);
}

#[test]
fn malformed_response_is_fatal() {
    let mut client = ProtocolClient::new();
    client.send(&a_request()).unwrap();
    let r = client.read(ReadEvent::Malformed);
    assert!(matches!(r, Err(ClientError::Protocol)));
    assert_eq!(client.state(), ConnectionState::Disconnected);
    assert!(matches!(client.send(&a_request()), Err(ClientError::NotConnected)));
    let r = client.read(ReadEvent::Malformed);
    assert!(matches!(r, Err(ClientError::NotConnected)));
}

#[test]
fn closed_and_failed_connections_surface_their_errors() {
    let mut client = ProtocolClient::new();
    client.send(&a_request()).unwrap();
    let r = client.read(ReadEvent::ConnectionClosed);
    assert!(matches!(r, Err(ClientError::Closed)));
    assert_eq!(client.state(), ConnectionState::Disconnected);

    let mut client = ProtocolClient::new();
    client.send(&a_request()).unwrap();
    let r = client.read(ReadEvent::IoFailed);
    assert!(matches!(r, Err(ClientError::Io)));
    assert_eq!(client.state(), ConnectionState::Disconnected);

    let mut client = ProtocolClient::new();
    client.connection_lost();
    assert!(matches!(client.send(&a_request()), Err(ClientError::NotConnected)));
}

#[test]
fn ok_responses_render_the_message() {
    let resp = a_response("OK", "{\"uptime\":5}");
    let rendered = render_response(&resp, "{\n  \"uptime\": 5\n}");
    assert_eq!(rendered, "Success:\n{\n  \"uptime\": 5\n}");
}

#[test]
fn error_responses_render_status_and_message() {
    let resp = a_response("NOK", "{\"reason\":\"unknown command\"}");
    let rendered = render_response(&resp, "{\n  \"reason\": \"unknown command\"\n}");
    assert_eq!(rendered, "Error (status=NOK)\n{\"reason\":\"unknown command\"}");
}

#[test]
fn error_messages_are_reported() {
    assert_eq!(ClientError::Closed.message(), "connection closed");
    assert_eq!(ClientError::Io.message(), "ioerror");
    assert_eq!(
        ClientError::AlreadyPending.message(),
        "a request is already awaiting its response"
    );
    assert_eq!(ConnectError::NotFound.message(), "socket not found");
    assert_eq!(ConnectError::PermissionDenied.message(), "permission denied");
    assert_eq!(ConnectError::Io.message(), "connection failed");
}
