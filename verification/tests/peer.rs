use std::cell::RefCell;
use std::rc::Rc;

use aes_gcm::aead::{Aead, KeyInit};
use aes_gcm::{Aes256Gcm, Key, Nonce};

use wispers_connect::listing::node_line;
use wispers_connect::p2p::{
    ice_send_result, HubError, IceChannel, IceError, P2pConnection, P2pConnectionAnswerer, P2pError,
};
use wispers_connect::p2p::seal_message;
use wispers_connect::quic::{client_psk, derive_psk, server_psk, PSK_IDENTITY, PSK_LEN};

struct FakeIce {
    up: bool,
    refuse: bool,
    sent: RefCell<Vec<Vec<u8>>>,
}

impl IceChannel for FakeIce {
    fn send(&self, data: &[u8]) -> Result<(), IceError> {
        if self.refuse {
            return Err(IceError { message: "no path".to_string() });
        }
        self.sent.borrow_mut().push(data.to_vec());
        Ok(())
    }

    fn close(self) {}

    fn is_connected(&self) -> bool {
        self.up
    }
}

fn fake(up: bool, refuse: bool) -> FakeIce {
    FakeIce { up, refuse, sent: RefCell::new(Vec::new()) }
}

#[test]
fn caller_connection_sends_through_the_channel() {
    let conn = P2pConnection::new(5, 77, fake(true, false), [3u8; 32]);
    assert_eq!(conn.peer_node_number, 5);
    assert_eq!(conn.connection_id, 77);
    assert!(conn.is_connected());
    assert!(conn.send(b"ping").is_ok());
    conn.close();
}

#[test]
fn caller_connection_reports_channel_failures() {
    let conn = P2pConnection::new(5, 77, fake(false, true), [3u8; 32]);
    assert!(!conn.is_connected());
    match conn.send(b"ping") {
        Err(P2pError::Ice(e)) => assert_eq!(e.message, "no path"),
        other => panic!("unexpected result {:?}", other),
    }
}

#[test]
fn answerer_connection_sends_through_the_channel() {
    let conn = P2pConnectionAnswerer::new(2, -1, fake(true, false), [0u8; 32]);
    assert_eq!(conn.peer_node_number, 2);
    assert_eq!(conn.connection_id, -1);
    assert!(conn.send(b"pong").is_ok());
    assert!(conn.is_connected());
    let conn = P2pConnectionAnswerer::new(2, 9, fake(true, true), [0u8; 32]);
    assert!(matches!(conn.send(b"pong"), Err(P2pError::Ice(_))));
    conn.close();
}

#[test]
fn p2p_error_messages() {
    assert_eq!(
        P2pError::Hub(HubError { message: "down".to_string() }).message(),
        "hub error: down"
    );
    assert_eq!(
        P2pError::Ice(IceError { message: "lost".to_string() }).message(),
        "ICE error: lost"
    );
    assert_eq!(
        P2pError::PeerRejected("busy".to_string()).message(),
        "peer rejected connection: busy"
    );
    assert_eq!(
        P2pError::SignatureVerificationFailed.message(),
        "signature verification failed"
    );
    assert_eq!(P2pError::ConnectionClosed.message(), "connection closed");
    assert_eq!(P2pError::Encryption.message(), "encryption error");
}

#[test]
fn psk_matches_hkdf_sha256_vectors() {
    assert_eq!(
        derive_psk(&[0u8; 32]),
        [
            118, 238, 58, 157, 111, 46, 176, 190, 53, 166, 189, 201, 244, 182, 86, 25, 25, 7, 250,
            95, 193, 247, 219, 139, 254, 209, 254, 217, 21, 92, 149, 48
        ]
    );
    assert_eq!(
        derive_psk(&[42u8; 32]),
        [
            207, 97, 111, 1, 115, 203, 72, 144, 236, 176, 96, 172, 82, 203, 252, 236, 37, 245, 37,
            190, 153, 24, 57, 133, 245, 3, 30, 65, 138, 183, 9, 222
        ]
    );
}

#[test]
fn psk_exchange_between_client_and_server() {
    let psk = derive_psk(&[9u8; 32]);
    let mut identity = [0xAAu8; 64];
    let mut client_out = [0u8; 64];
    assert_eq!(client_psk(&mut identity, &mut client_out, &psk), Ok(PSK_LEN));
    assert_eq!(&identity[..18], b"wispers-connect-v1");
    assert_eq!(identity[18], 0);
    assert_eq!(identity[19], 0xAA);
    assert_eq!(&client_out[..32], &psk[..]);
    assert_eq!(client_out[32], 0);

    let presented: &[u8] = &identity[..18];
    let mut server_out = [0u8; 40];
    assert_eq!(server_psk(Some(presented), &mut server_out, &psk), Ok(PSK_LEN));
    assert_eq!(&server_out[..32], &client_out[..32]);
}

#[test]
fn psk_exchange_refusals() {
    let psk = [5u8; 32];
    let mut identity = [1u8; 18];
    let mut out = [0u8; 32];
    assert!(client_psk(&mut identity, &mut out, &psk).is_err());
    assert_eq!(identity, [1u8; 18]);
    assert_eq!(out, [0u8; 32]);

    let mut identity = [1u8; 19];
    let mut out = [0u8; 31];
    assert!(client_psk(&mut identity, &mut out, &psk).is_err());
    assert_eq!(&identity[..18], &PSK_IDENTITY[..]);
    assert_eq!(out, [0u8; 31]);

    let mut out = [0u8; 32];
    assert!(server_psk(None, &mut out, &psk).is_err());
    assert!(server_psk(Some(b"wispers-connect-v2"), &mut out, &psk).is_err());
    assert!(server_psk(Some(b"wispers-connect"), &mut out, &psk).is_err());
    assert_eq!(out, [0u8; 32]);
    let mut short = [0u8; 31];
    assert!(server_psk(Some(&PSK_IDENTITY[..]), &mut short, &psk).is_err());
    assert_eq!(short, [0u8; 31]);
}

#[test]
fn node_listing_lines() {
    assert_eq!(node_line(3, "laptop", 1), "  3: laptop");
    assert_eq!(node_line(1, "", 1), "  1: (unnamed) (you)");
    assert_eq!(node_line(-2, "x", 1), "  -2: x");
}

#[test]
fn ice_results_map_to_p2p_results() {
    assert!(ice_send_result(Ok(())).is_ok());
    match ice_send_result(Err(IceError { message: "gone".to_string() })) {
        Err(P2pError::Ice(e)) => assert_eq!(e.message, "gone"),
        other => panic!("unexpected result {:?}", other),
    }
}

struct LoggingIce {
    log: Rc<RefCell<Vec<Vec<u8>>>>,
}

impl IceChannel for LoggingIce {
    fn send(&self, data: &[u8]) -> Result<(), IceError> {
        self.log.borrow_mut().push(data.to_vec());
        Ok(())
    }

    fn close(self) {}

    fn is_connected(&self) -> bool {
        true
    }
}

fn open(key: &[u8; 32], msg: &[u8]) -> Vec<u8> {
    let cipher = Aes256Gcm::new(Key::<Aes256Gcm>::from_slice(key));
    cipher.decrypt(Nonce::from_slice(&msg[..12]), &msg[12..]).unwrap()
}

#[test]
fn caller_send_seals_under_the_shared_secret() {
    let log = Rc::new(RefCell::new(Vec::new()));
    let key = [11u8; 32];
    let conn = P2pConnection::new(1, 2, LoggingIce { log: Rc::clone(&log) }, key);
    conn.send(b"ping").unwrap();
    conn.send(b"ping").unwrap();
    let sent = log.borrow();
    assert_eq!(sent.len(), 2);
    assert_eq!(sent[0].len(), 12 + 4 + 16);
    assert_ne!(&sent[0][12..16], b"ping");
    assert_eq!(open(&key, &sent[0]), b"ping".to_vec());
    assert_eq!(open(&key, &sent[1]), b"ping".to_vec());
    assert_ne!(sent[0][..12], sent[1][..12]);
}

#[test]
fn answerer_send_passes_data_as_given() {
    let log = Rc::new(RefCell::new(Vec::new()));
    let conn = P2pConnectionAnswerer::new(1, 2, LoggingIce { log: Rc::clone(&log) }, [0u8; 32]);
    conn.send(b"pong").unwrap();
    assert_eq!(log.borrow()[0], b"pong".to_vec());
}

#[test]
fn seal_message_layout() {
    let key = [4u8; 32];
    let nonce = [9u8; 12];
    let msg = seal_message(&key, &nonce, b"hello").unwrap();
    assert_eq!(&msg[..12], &nonce[..]);
    assert_eq!(msg.len(), 12 + 5 + 16);
    assert_eq!(open(&key, &msg), b"hello".to_vec());
    let empty = seal_message(&key, &nonce, b"").unwrap();
    assert_eq!(empty.len(), 28);
}
