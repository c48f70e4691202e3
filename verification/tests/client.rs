use mio::EventSet;
use ws_server::client::{
    ClientState, ConnectionError, SocketRead, SocketWrite, Step, WebSocketClient, KEY_HEADER,
    RESPONSE_HEAD, RESPONSE_LEN, RESPONSE_TAIL,
};
use ws_server::codec::ParseOutcome;

const REQUEST: &str = "GET / HTTP/1.1\r\nHost: x\r\nUpgrade: websocket\r\nConnection: Upgrade\r\nSec-WebSocket-Key: dGhlIHNhbXBsZSBub25jZQ==\r\nSec-WebSocket-Version: 13\r\n\r\n";

const RESPONSE: &str = "HTTP/1.1 101 Switching Protocols\r\nConnection: Upgrade\r\nSec-WebSocket-Accept: s3pPLMBiTxaQ9kYGzzhZRbK+xOo=\r\nUpgrade: websocket\r\n\r\n";

fn upgraded(request: &[u8]) -> WebSocketClient<u32> {
    let mut client = WebSocketClient::new(5);
    assert_eq!(client.read(SocketRead::Data(request)), Step::Rearm);
    assert_eq!(client.state(), ClientState::HandshakeResponse);
    client
}

fn connected(request: &[u8]) -> WebSocketClient<u32> {
    let mut client = upgraded(request);
    let sent = match client.respond() {
        Step::Send(bytes) => bytes.len(),
        _ => panic!("the response is due"),
    };
    assert_eq!(client.write(SocketWrite::Sent(sent)), Step::Rearm);
    assert_eq!(client.state(), ClientState::Connected);
    client
}

#[test]
fn new_client_awaits_its_handshake_and_waits_to_read() {
    let mut client = WebSocketClient::new(5u32);
    assert_eq!(client.state(), ClientState::AwaitingHandshake);
    assert_eq!(client.interest(), EventSet::readable());
    assert_eq!(*client.socket(), 5);
    assert_eq!(client.headers().len(), 0);
}

#[test]
fn socket_can_be_reached_and_taken() {
    let mut client = WebSocketClient::new(5u32);
    *client.socket_mut() = 9;
    assert_eq!(*client.socket(), 9);
    assert_eq!(client.state(), ClientState::AwaitingHandshake);
    assert_eq!(client.interest(), EventSet::readable());
    assert_eq!(client.into_socket(), 9);
}

#[test]
fn end_to_end_handshake() {
    let mut client = WebSocketClient::new(5u32);
    assert_eq!(client.read(SocketRead::Data(REQUEST.as_bytes())), Step::Rearm);
    assert_eq!(client.state(), ClientState::HandshakeResponse);
    assert_eq!(client.interest(), EventSet::writable());

    assert_eq!(client.respond(), Step::Send(RESPONSE.as_bytes().to_vec()));
    assert_eq!(client.state(), ClientState::HandshakeResponse);
    assert_eq!(client.interest(), EventSet::writable());

    assert_eq!(client.write(SocketWrite::Sent(129)), Step::Rearm);
    assert_eq!(client.state(), ClientState::Connected);
    assert_eq!(client.interest(), EventSet::readable());
    assert_eq!(*client.socket(), 5);
}

#[test]
fn response_is_the_template_around_the_accept_value() {
    let request = "GET /chat HTTP/1.1\r\nUpgrade: websocket\r\nConnection: Upgrade\r\nSec-WebSocket-Key: x3JJHMbDL1EzLkh9GBhXDw==\r\n\r\n";
    let mut client = upgraded(request.as_bytes());
    let expected = format!("{}{}{}", RESPONSE_HEAD, "HSmrc0sMlYUkAGmm5OPpG2HaGWk=", RESPONSE_TAIL);
    assert_eq!(expected.len(), RESPONSE_LEN);
    assert_eq!(client.respond(), Step::Send(expected.into_bytes()));
}

#[test]
fn response_template_is_byte_exact() {
    assert_eq!(
        RESPONSE_HEAD,
        "HTTP/1.1 101 Switching Protocols\r\nConnection: Upgrade\r\nSec-WebSocket-Accept: "
    );
    assert_eq!(RESPONSE_TAIL, "\r\nUpgrade: websocket\r\n\r\n");
    assert_eq!(RESPONSE_HEAD.len(), 77);
    assert_eq!(RESPONSE_TAIL.len(), 24);
    assert_eq!(RESPONSE_LEN, 129);
    assert_eq!(RESPONSE.len(), 129);
    assert_eq!(KEY_HEADER, "Sec-WebSocket-Key");
}

#[test]
fn request_fed_byte_by_byte_gives_the_same_response() {
    let mut client = WebSocketClient::new(5u32);
    let bytes = REQUEST.as_bytes();
    let mut i = 0;
    while i < bytes.len() {
        let step = client.read(SocketRead::Data(&bytes[i..i + 1]));
        if i + 1 < bytes.len() {
            assert_eq!(step, Step::Again, "at byte {}", i);
            assert_eq!(client.state(), ClientState::AwaitingHandshake);
            assert_eq!(client.interest(), EventSet::readable());
        } else {
            assert_eq!(step, Step::Rearm);
        }
        i += 1;
    }
    assert_eq!(client.state(), ClientState::HandshakeResponse);
    assert_eq!(client.interest(), EventSet::writable());
    assert_eq!(client.respond(), Step::Send(RESPONSE.as_bytes().to_vec()));
}

#[test]
fn request_cut_anywhere_gives_the_same_response() {
    let bytes = REQUEST.as_bytes();
    let mut cut = 1;
    while cut < bytes.len() {
        let mut client = WebSocketClient::new(5u32);
        assert_eq!(client.read(SocketRead::Data(&bytes[..cut])), Step::Again, "cut at {}", cut);
        assert_eq!(client.state(), ClientState::AwaitingHandshake);
        assert_eq!(client.read(SocketRead::Data(&bytes[cut..])), Step::Rearm, "cut at {}", cut);
        assert_eq!(client.state(), ClientState::HandshakeResponse);
        assert_eq!(client.respond(), Step::Send(RESPONSE.as_bytes().to_vec()));
        cut += 1;
    }
}

#[test]
fn unfinished_request_never_reaches_the_response() {
    let bytes = REQUEST.as_bytes();
    let mut client = WebSocketClient::new(5u32);
    assert_eq!(client.read(SocketRead::Data(&bytes[..bytes.len() - 2])), Step::Again);
    assert_eq!(client.state(), ClientState::AwaitingHandshake);
    assert_eq!(client.read(SocketRead::WouldBlock), Step::Rearm);
    assert_eq!(client.state(), ClientState::AwaitingHandshake);
    assert_eq!(client.interest(), EventSet::readable());
}

#[test]
fn request_without_upgrade_stays_awaiting() {
    let mut client = WebSocketClient::new(5u32);
    assert_eq!(client.read(SocketRead::Data(b"GET / HTTP/1.1\r\nHost: x\r\n\r\n")), Step::Again);
    assert_eq!(client.state(), ClientState::AwaitingHandshake);
    assert_eq!(client.interest(), EventSet::readable());
    assert_eq!(client.headers().get(b"Host"), Some(&b"x".to_vec()));
}

#[test]
fn malformed_request_is_a_protocol_error() {
    let mut client = WebSocketClient::new(5u32);
    assert_eq!(
        client.read(SocketRead::Data(b"\x00\x01 nonsense\r\n\r\n")),
        Step::Abandon(ConnectionError::Protocol)
    );
    assert_eq!(client.state(), ClientState::AwaitingHandshake);
}

#[test]
fn end_of_stream_before_the_headers_end_is_a_protocol_error() {
    let mut client = WebSocketClient::new(5u32);
    assert_eq!(client.read(SocketRead::Data(b"GET / HTTP/1.1\r\nHost: x\r\n")), Step::Again);
    assert_eq!(client.read(SocketRead::Data(b"")), Step::Abandon(ConnectionError::Protocol));
    assert_eq!(client.state(), ClientState::AwaitingHandshake);
}

#[test]
fn failed_read_is_a_read_error() {
    let mut client = WebSocketClient::new(5u32);
    assert_eq!(client.read(SocketRead::Failed), Step::Abandon(ConnectionError::Read));
    assert_eq!(client.state(), ClientState::AwaitingHandshake);
    assert_eq!(client.interest(), EventSet::readable());
}

#[test]
fn read_that_would_block_waits_for_the_next_notification() {
    let mut client = WebSocketClient::new(5u32);
    assert_eq!(client.read(SocketRead::WouldBlock), Step::Rearm);
    assert_eq!(client.state(), ClientState::AwaitingHandshake);
    assert_eq!(client.interest(), EventSet::readable());
}

#[test]
fn request_without_key_is_a_missing_key_error() {
    let request = "GET / HTTP/1.1\r\nHost: x\r\nUpgrade: websocket\r\nConnection: Upgrade\r\n\r\n";
    let mut client = upgraded(request.as_bytes());
    assert_eq!(client.respond(), Step::Abandon(ConnectionError::MissingKey));
    assert_eq!(client.state(), ClientState::HandshakeResponse);
    assert_eq!(client.interest(), EventSet::writable());
}

#[test]
fn key_header_in_another_case_is_not_the_key() {
    let request = "GET / HTTP/1.1\r\nUpgrade: websocket\r\nConnection: Upgrade\r\nsec-websocket-key: dGhlIHNhbXBsZSBub25jZQ==\r\n\r\n";
    let mut client = upgraded(request.as_bytes());
    assert_eq!(client.respond(), Step::Abandon(ConnectionError::MissingKey));
}

#[test]
fn key_that_is_no_text_is_a_protocol_error() {
    let mut request = b"GET / HTTP/1.1\r\nUpgrade: websocket\r\nConnection: Upgrade\r\nSec-WebSocket-Key: ".to_vec();
    request.extend_from_slice(&[0xff, 0xfe]);
    request.extend_from_slice(b"\r\n\r\n");
    let mut client = upgraded(&request);
    assert_eq!(client.headers().get(b"Sec-WebSocket-Key"), Some(&vec![0xff, 0xfe]));
    assert_eq!(client.respond(), Step::Abandon(ConnectionError::Protocol));
}

#[test]
fn nothing_is_written_before_the_handshake_is_read() {
    let mut client = WebSocketClient::new(5u32);
    assert_eq!(client.respond(), Step::Rearm);
    assert_eq!(client.state(), ClientState::AwaitingHandshake);
    assert_eq!(client.interest(), EventSet::readable());
}

#[test]
fn nothing_is_written_once_connected() {
    let mut client = connected(REQUEST.as_bytes());
    assert_eq!(client.respond(), Step::Rearm);
    assert_eq!(client.write(SocketWrite::Sent(129)), Step::Rearm);
    assert_eq!(client.state(), ClientState::Connected);
    assert_eq!(client.interest(), EventSet::readable());
}

#[test]
fn failed_write_is_a_write_error() {
    let mut client = upgraded(REQUEST.as_bytes());
    assert_eq!(client.write(SocketWrite::Failed), Step::Abandon(ConnectionError::Write));
    assert_eq!(client.state(), ClientState::HandshakeResponse);
    assert_eq!(client.interest(), EventSet::writable());
}

#[test]
fn write_that_would_block_keeps_the_response_due() {
    let mut client = upgraded(REQUEST.as_bytes());
    assert_eq!(client.write(SocketWrite::WouldBlock), Step::Rearm);
    assert_eq!(client.state(), ClientState::HandshakeResponse);
    assert_eq!(client.interest(), EventSet::writable());
    assert_eq!(client.respond(), Step::Send(RESPONSE.as_bytes().to_vec()));
}

#[test]
fn write_result_before_the_handshake_changes_nothing() {
    let mut client = WebSocketClient::new(5u32);
    assert_eq!(client.write(SocketWrite::Sent(129)), Step::Rearm);
    assert_eq!(client.state(), ClientState::AwaitingHandshake);
    assert_eq!(client.interest(), EventSet::readable());
}

#[test]
fn bytes_after_the_handshake_are_left_alone() {
    let mut client = upgraded(REQUEST.as_bytes());
    assert_eq!(client.read(SocketRead::Data(REQUEST.as_bytes())), Step::Rearm);
    assert_eq!(client.state(), ClientState::HandshakeResponse);
    assert_eq!(client.respond(), Step::Send(RESPONSE.as_bytes().to_vec()));
    assert_eq!(client.write(SocketWrite::Sent(129)), Step::Rearm);
    assert_eq!(client.read(SocketRead::Data(b"\x81\x05hello")), Step::Rearm);
    assert_eq!(client.state(), ClientState::Connected);
    assert_eq!(client.interest(), EventSet::readable());
    assert_eq!(client.headers().len(), 5);
}

#[test]
fn failed_read_ends_a_connected_client_too() {
    let mut client = connected(REQUEST.as_bytes());
    assert_eq!(client.read(SocketRead::Failed), Step::Abandon(ConnectionError::Read));
    assert_eq!(client.state(), ClientState::Connected);
}

#[test]
fn chunk_fed_decides_by_what_the_codec_reported() {
    let mut client = WebSocketClient::new(5u32);
    assert_eq!(client.chunk_fed(ParseOutcome { upgrade: false, failed: false }), Step::Again);
    assert_eq!(client.state(), ClientState::AwaitingHandshake);
    assert_eq!(
        client.chunk_fed(ParseOutcome { upgrade: false, failed: true }),
        Step::Abandon(ConnectionError::Protocol)
    );
    assert_eq!(client.state(), ClientState::AwaitingHandshake);
    assert_eq!(
        client.chunk_fed(ParseOutcome { upgrade: true, failed: true }),
        Step::Abandon(ConnectionError::Protocol)
    );
    assert_eq!(client.state(), ClientState::AwaitingHandshake);
    assert_eq!(client.interest(), EventSet::readable());
    assert_eq!(client.chunk_fed(ParseOutcome { upgrade: true, failed: false }), Step::Rearm);
    assert_eq!(client.state(), ClientState::HandshakeResponse);
    assert_eq!(client.interest(), EventSet::writable());
    assert_eq!(client.chunk_fed(ParseOutcome { upgrade: false, failed: true }), Step::Rearm);
    assert_eq!(client.state(), ClientState::HandshakeResponse);
    assert_eq!(client.interest(), EventSet::writable());
}

#[test]
fn end_of_stream_after_the_request_closes_the_connection() {
    let mut client = upgraded(REQUEST.as_bytes());
    assert_eq!(client.read(SocketRead::Data(b"")), Step::Abandon(ConnectionError::Closed));
    assert_eq!(client.state(), ClientState::HandshakeResponse);
    assert_eq!(client.respond(), Step::Send(RESPONSE.as_bytes().to_vec()));
    assert_eq!(client.write(SocketWrite::Sent(129)), Step::Rearm);
    assert_eq!(client.read(SocketRead::Data(b"")), Step::Abandon(ConnectionError::Closed));
    assert_eq!(client.state(), ClientState::Connected);
    assert_eq!(client.interest(), EventSet::readable());
}

#[test]
fn end_of_stream_before_any_byte_is_a_protocol_error() {
    let mut client = WebSocketClient::new(5u32);
    assert_eq!(client.read(SocketRead::Data(b"")), Step::Abandon(ConnectionError::Protocol));
    assert_eq!(client.state(), ClientState::AwaitingHandshake);
}

#[test]
fn short_write_keeps_the_response_due_until_the_rest_is_out() {
    let mut client = upgraded(REQUEST.as_bytes());
    assert_eq!(client.respond(), Step::Send(RESPONSE.as_bytes().to_vec()));

    assert_eq!(client.write(SocketWrite::Sent(100)), Step::Rearm);
    assert_eq!(client.state(), ClientState::HandshakeResponse);
    assert_eq!(client.interest(), EventSet::writable());
    assert_eq!(client.respond(), Step::Send(RESPONSE.as_bytes()[100..].to_vec()));

    assert_eq!(client.write(SocketWrite::Sent(28)), Step::Rearm);
    assert_eq!(client.state(), ClientState::HandshakeResponse);
    assert_eq!(client.respond(), Step::Send(RESPONSE.as_bytes()[128..].to_vec()));

    assert_eq!(client.write(SocketWrite::Sent(1)), Step::Rearm);
    assert_eq!(client.state(), ClientState::Connected);
    assert_eq!(client.interest(), EventSet::readable());
    assert_eq!(client.respond(), Step::Rearm);
}

#[test]
fn write_of_no_byte_leaves_the_whole_response_unsent() {
    let mut client = upgraded(REQUEST.as_bytes());
    assert_eq!(client.respond(), Step::Send(RESPONSE.as_bytes().to_vec()));
    assert_eq!(client.write(SocketWrite::Sent(0)), Step::Rearm);
    assert_eq!(client.state(), ClientState::HandshakeResponse);
    assert_eq!(client.respond(), Step::Send(RESPONSE.as_bytes().to_vec()));
    assert_eq!(client.write(SocketWrite::Sent(128)), Step::Rearm);
    assert_eq!(client.state(), ClientState::HandshakeResponse);
    assert_eq!(client.interest(), EventSet::writable());
}

#[test]
fn write_result_counts_only_after_a_response_was_handed_out() {
    let mut client = upgraded(REQUEST.as_bytes());
    assert_eq!(client.write(SocketWrite::Sent(129)), Step::Rearm);
    assert_eq!(client.state(), ClientState::HandshakeResponse);
    assert_eq!(client.interest(), EventSet::writable());
    assert_eq!(client.respond(), Step::Send(RESPONSE.as_bytes().to_vec()));
    assert_eq!(client.write(SocketWrite::Sent(129)), Step::Rearm);
    assert_eq!(client.state(), ClientState::Connected);
}

#[test]
fn write_result_after_a_missing_key_does_not_connect() {
    let request = "GET / HTTP/1.1\r\nHost: x\r\nUpgrade: websocket\r\nConnection: Upgrade\r\n\r\n";
    let mut client = upgraded(request.as_bytes());
    assert_eq!(client.respond(), Step::Abandon(ConnectionError::MissingKey));
    assert_eq!(client.write(SocketWrite::Sent(129)), Step::Rearm);
    assert_eq!(client.state(), ClientState::HandshakeResponse);
    assert_eq!(client.interest(), EventSet::writable());
}

#[test]
fn write_that_would_block_leaves_the_response_unsent() {
    let mut client = upgraded(REQUEST.as_bytes());
    assert_eq!(client.respond(), Step::Send(RESPONSE.as_bytes().to_vec()));
    assert_eq!(client.write(SocketWrite::WouldBlock), Step::Rearm);
    assert_eq!(client.state(), ClientState::HandshakeResponse);
    assert_eq!(client.respond(), Step::Send(RESPONSE.as_bytes().to_vec()));
}

#[test]
fn failed_write_after_a_short_one_is_a_write_error() {
    let mut client = upgraded(REQUEST.as_bytes());
    assert_eq!(client.respond(), Step::Send(RESPONSE.as_bytes().to_vec()));
    assert_eq!(client.write(SocketWrite::Sent(10)), Step::Rearm);
    assert_eq!(client.write(SocketWrite::Failed), Step::Abandon(ConnectionError::Write));
    assert_eq!(client.state(), ClientState::HandshakeResponse);
}

#[test]
fn response_has_129_bytes_and_no_line_end_in_the_accept_value() {
    let mut client = upgraded(REQUEST.as_bytes());
    match client.respond() {
        Step::Send(bytes) => {
            assert_eq!(bytes.len(), RESPONSE_LEN);
            assert_eq!(&bytes[..77], RESPONSE_HEAD.as_bytes());
            assert_eq!(&bytes[105..], RESPONSE_TAIL.as_bytes());
            assert!(bytes[77..105].iter().all(|b| *b != b'\r' && *b != b'\n'));
        }
        _ => panic!("the response is due"),
    }
}
