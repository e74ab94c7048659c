use cedro::client::config::ConnectionConfig;
use cedro::client::error::{ClientError, HandshakeStep};
use cedro::client::handshake::{
    handshake_reason, reason_of, step_failed, Handshake, HandshakeAction, IoFailure,
};

/// A server whose output is fixed, and that remembers what the client wrote.
struct ScriptedConn {
    to_read: Vec<u8>,
    written: Vec<u8>,
}

impl ScriptedConn {
    fn new(server_says: &[u8]) -> Self {
        Self { to_read: server_says.to_vec(), written: Vec::new() }
    }

    fn read(&mut self, chunk: usize) -> Result<Vec<u8>, std::io::Error> {
        if self.to_read.is_empty() {
            return Err(std::io::Error::new(
                std::io::ErrorKind::UnexpectedEof,
                "no more scripted data",
            ));
        }
        let n = chunk.min(self.to_read.len());
        Ok(self.to_read.drain(..n).collect())
    }
}

/// Runs a handshake against a scripted server that is read in chunks.
fn perform(conn: &mut ScriptedConn, cfg: &ConnectionConfig, chunk: usize) -> Result<(), ClientError> {
    let mut hs = Handshake::new(cfg);
    loop {
        match hs.next_action() {
            HandshakeAction::Write { step: _, line } => conn.written.extend_from_slice(&line),
            HandshakeAction::Read { step } => match conn.read(chunk) {
                Ok(data) => hs.received(&data, data.len())?,
                Err(e) => return Err(step_failed(step, &e)),
            },
            HandshakeAction::Done => return Ok(()),
        }
    }
}

fn make_cfg() -> ConnectionConfig {
    let mut cfg =
        ConnectionConfig::new("127.0.0.1".to_owned(), "alice".to_owned(), "s3cr3t".to_owned());
    cfg.software_key = "KEY-42".into();
    cfg.handshake_timeout = 1_000_000_000;
    cfg
}

#[test]
fn happy_path_writes_credentials_in_order() {
    let server = b"Welcome to Cedro Crystal\r\nUsername:Password:You are connected\r\n";
    let mut conn = ScriptedConn::new(server);
    let cfg = make_cfg();

    perform(&mut conn, &cfg, 256).unwrap();

    let written = String::from_utf8(conn.written.clone()).unwrap();
    assert!(written.starts_with("KEY-42\r\n"), "wrote: {written:?}");
    assert!(written.contains("alice\r\n"));
    assert!(written.ends_with("s3cr3t\r\n"));
}

#[test]
fn empty_software_key_is_allowed() {
    let server = b"Welcome to Cedro Crystal\r\nUsername:Password:You are connected\r\n";
    let mut conn = ScriptedConn::new(server);
    let mut cfg = make_cfg();
    cfg.software_key.clear();

    perform(&mut conn, &cfg, 256).unwrap();

    let written = conn.written.clone();
    assert_eq!(&written[..2], b"\r\n");
}

#[test]
fn missing_welcome_surfaces_handshake_error() {
    let server = b"";
    let mut conn = ScriptedConn::new(server);
    let cfg = make_cfg();

    let err = perform(&mut conn, &cfg, 256).unwrap_err();
    assert!(matches!(
        err,
        ClientError::Handshake { step: HandshakeStep::AwaitWelcome, .. }
    ));
}

#[test]
fn handshake_does_not_depend_on_chunk_size() {
    let server = b"noise Welcome to Cedro Crystal\r\nUsername:Password:You are connected\r\n";
    for chunk in 1..40 {
        let mut conn = ScriptedConn::new(server);
        perform(&mut conn, &make_cfg(), chunk).unwrap();
        assert_eq!(conn.written, b"KEY-42\r\nalice\r\ns3cr3t\r\n", "chunk size {chunk}");
    }
}

#[test]
fn prompts_out_of_order_are_not_answered() {
    // The password prompt stands before the user name's: it is used up by no
    // stage, and the client waits for another.
    let server = b"Welcome to Cedro Password:Username:";
    let mut conn = ScriptedConn::new(server);
    let err = perform(&mut conn, &make_cfg(), 256).unwrap_err();
    match err {
        ClientError::Handshake { step, reason } => {
            assert_eq!(step, HandshakeStep::AwaitPasswordPrompt);
            assert_eq!(reason, "unexpected EOF");
        }
        other => panic!("expected Handshake, got {other:?}"),
    }
    assert_eq!(conn.written, b"KEY-42\r\nalice\r\n");
}

#[test]
fn timeout_names_the_step() {
    let mut hs = Handshake::new(&make_cfg());
    assert_eq!(hs.next_action(), HandshakeAction::Read { step: HandshakeStep::AwaitWelcome });
    hs.feed(b"Welcome to Cedro");
    assert_eq!(
        hs.next_action(),
        HandshakeAction::Write {
            step: HandshakeStep::SendSoftwareKey,
            line: b"KEY-42\r\n".to_vec()
        }
    );
    assert!(hs.check_wait(9_999_999_999, 10_000_000_000).is_ok());
    match hs.check_wait(10_000_000_000, 10_000_000_000) {
        Err(ClientError::HandshakeTimeout { step, waited }) => {
            assert_eq!(step, HandshakeStep::AwaitUsernamePrompt);
            assert_eq!(waited, 10_000_000_000);
        }
        other => panic!("expected HandshakeTimeout, got {other:?}"),
    }
}

#[test]
fn a_read_of_nothing_is_the_end() {
    let mut hs = Handshake::new(&make_cfg());
    assert!(matches!(hs.received(b"Welcome", 0), Err(ClientError::UnexpectedEof)));
    assert!(hs.received(b"Welcome to Cedro, stranger", 16).is_ok());
    assert!(matches!(
        hs.next_action(),
        HandshakeAction::Write { step: HandshakeStep::SendSoftwareKey, .. }
    ));
    assert!(hs.received(b"Username: and more", 5).is_ok());
    assert_eq!(
        hs.next_action(),
        HandshakeAction::Read { step: HandshakeStep::AwaitUsernamePrompt }
    );
}

#[test]
fn done_handshake_stays_done() {
    let mut hs = Handshake::new(&make_cfg());
    hs.feed(b"Welcome to CedroUsername:Password:You are connected");
    for _ in 0..3 {
        assert!(matches!(hs.next_action(), HandshakeAction::Write { .. }));
    }
    assert_eq!(hs.next_action(), HandshakeAction::Done);
    assert_eq!(hs.next_action(), HandshakeAction::Done);
}

#[test]
fn io_errors_have_reasons() {
    let cases = [
        (std::io::ErrorKind::TimedOut, "read/write timed out"),
        (std::io::ErrorKind::WouldBlock, "non-blocking I/O reported WouldBlock"),
        (std::io::ErrorKind::ConnectionReset, "connection reset by peer"),
        (std::io::ErrorKind::ConnectionAborted, "connection aborted by peer"),
        (std::io::ErrorKind::UnexpectedEof, "unexpected EOF"),
        (std::io::ErrorKind::PermissionDenied, "I/O failure (see source)"),
    ];
    for (kind, text) in cases {
        assert_eq!(handshake_reason(&std::io::Error::from(kind)), text);
    }
    assert_eq!(reason_of(IoFailure::Other), "I/O failure (see source)");
}

#[test]
fn steps_have_names() {
    assert_eq!(HandshakeStep::AwaitWelcome.as_str(), "awaiting welcome");
    assert_eq!(HandshakeStep::SendSoftwareKey.as_str(), "sending software key");
    assert_eq!(HandshakeStep::AwaitUsernamePrompt.as_str(), "awaiting username prompt");
    assert_eq!(HandshakeStep::SendUsername.as_str(), "sending username");
    assert_eq!(HandshakeStep::AwaitPasswordPrompt.as_str(), "awaiting password prompt");
    assert_eq!(HandshakeStep::SendPassword.as_str(), "sending password");
    assert_eq!(HandshakeStep::AwaitConnected.as_str(), "awaiting 'You are connected'");
}

#[test]
fn what_follows_the_handshake_is_handed_on() {
    let mut hs = Handshake::new(&make_cfg());
    hs.feed(b"Welcome to Cedro\r\nUsername:Password:You are connected\r\nT:PETR4:1");
    while hs.next_action() != HandshakeAction::Done {}
    assert_eq!(hs.into_unread(), b"\r\nT:PETR4:1");
}
