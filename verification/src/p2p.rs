//! Peer-to-peer connection types.
//!
//! A connection wraps an established ICE channel to a peer node. The ICE
//! layer itself lies outside this crate and is reached through the
//! [`IceChannel`] trait. The caller side seals what it sends with
//! AES-256-GCM under the connection's shared secret.

use vstd::prelude::*;
use aes_gcm::aead::rand_core::RngCore;
use aes_gcm::aead::{Aead, KeyInit};

verus! {

/// An error reported by the ICE layer.
#[derive(Debug)]
pub struct IceError {
    pub message: String,
}

/// An error reported by the hub client.
#[derive(Debug)]
pub struct HubError {
    pub message: String,
}

/// Error type for P2P connection operations.
#[derive(Debug)]
pub enum P2pError {
    Hub(HubError),
    Ice(IceError),
    PeerRejected(String),
    SignatureVerificationFailed,
    ConnectionClosed,
    Encryption,
}

impl P2pError {
    /// A description of the error.
    pub fn message(&self) -> (r: String)
        ensures
            r@ == match self {
                P2pError::Hub(e) => "hub error: "@ + e.message@,
                P2pError::Ice(e) => "ICE error: "@ + e.message@,
                P2pError::PeerRejected(why) => "peer rejected connection: "@ + why@,
                P2pError::SignatureVerificationFailed => "signature verification failed"@,
                P2pError::ConnectionClosed => "connection closed"@,
                P2pError::Encryption => "encryption error"@,
            },
    {
        match self {
            P2pError::Hub(e) => {
                let mut s = String::from_str("hub error: ");
                s.append(e.message.as_str());
                s
            },
            P2pError::Ice(e) => {
                let mut s = String::from_str("ICE error: ");
                s.append(e.message.as_str());
                s
            },
            P2pError::PeerRejected(why) => {
                let mut s = String::from_str("peer rejected connection: ");
                s.append(why.as_str());
                s
            },
            P2pError::SignatureVerificationFailed => String::from_str("signature verification failed"),
            P2pError::ConnectionClosed => String::from_str("connection closed"),
            P2pError::Encryption => String::from_str("encryption error"),
        }
    }
}

/// An established ICE channel to a peer, as the ICE layer provides it.
pub trait IceChannel: Sized {
    /// Sends one datagram to the peer.
    fn send(&self, data: &[u8]) -> Result<(), IceError>;

    /// Closes the channel.
    fn close(self);

    /// Whether the channel is currently connected.
    fn is_connected(&self) -> bool;
}

/// What a send reports, given what the ICE channel answered: success
/// passes through, and a failure of the channel is reported as
/// [`P2pError::Ice`] carrying the channel's error.
pub fn ice_send_result(sent: Result<(), IceError>) -> (r: Result<(), P2pError>)
    ensures
        match sent {
            Ok(()) => r is Ok,
            Err(e) => r == Err::<(), P2pError>(P2pError::Ice(e)),
        },
        r is Ok <==> sent is Ok,
{
    match sent {
        Ok(()) => Ok(()),
        Err(e) => Err(P2pError::Ice(e)),
    }
}

/// Largest message that AES-GCM seals: 2^36 bytes.
pub const MAX_SEALED_PLAINTEXT: u64 = 0x10_0000_0000;

/// The AES-256-GCM ciphertext, with its 16-byte tag at the end, that sealing
/// `plaintext` under `key` with `nonce` and no associated data gives.
pub uninterp spec fn aes256_gcm_seal(key: Seq<u8>, nonce: Seq<u8>, plaintext: Seq<u8>) -> Seq<u8>;

/// Seals `plaintext` with AES-256-GCM (`aes_gcm::Aes256Gcm::new`, then
/// `Aead::encrypt` with no associated data). Stated from the crate's
/// source: it fails exactly when the plaintext is longer than 2^36 bytes,
/// and the ciphertext is the plaintext's length plus the 16-byte tag.
#[verifier::external_body]
fn aes256_gcm_encrypt(key: &[u8; 32], nonce: &[u8; 12], plaintext: &[u8]) -> (r: Result<Vec<u8>, ()>)
    ensures
        r is Ok <==> plaintext@.len() <= MAX_SEALED_PLAINTEXT,
        r matches Ok(c) ==> c@ == aes256_gcm_seal(key@, nonce@, plaintext@) && c@.len()
            == plaintext@.len() + 16,
{
    let cipher = aes_gcm::Aes256Gcm::new(aes_gcm::Key::<aes_gcm::Aes256Gcm>::from_slice(key));
    cipher.encrypt(aes_gcm::Nonce::from_slice(nonce), plaintext).map_err(|_| ())
}

/// Fills a fresh 12-byte nonce from the operating system's random source
/// (`rand_core::OsRng::try_fill_bytes`), or `None` when the source fails.
/// Nothing is stated of the bytes: they are random.
#[verifier::external_body]
fn random_nonce() -> (r: Option<[u8; 12]>) {
    let mut nonce = [0u8; 12];
    match aes_gcm::aead::OsRng.try_fill_bytes(&mut nonce) {
        Ok(()) => Some(nonce),
        Err(_) => None,
    }
}

/// Draws a fresh 12-byte nonce from the operating system's random source,
/// or `None` when the source fails. Nothing is stated of the bytes: they
/// are random, and two draws may differ.
pub fn fresh_nonce() -> Option<[u8; 12]> {
    random_nonce()
}

/// A sealed message as it goes to the peer: the 12-byte nonce, then the
/// AES-256-GCM ciphertext of the data under `key` with that nonce.
pub open spec fn sealed_message(key: Seq<u8>, nonce: Seq<u8>, data: Seq<u8>) -> Seq<u8> {
    nonce + aes256_gcm_seal(key, nonce, data)
}

/// Whether `msg` is `data` sealed under `key` with some 12-byte nonce.
pub open spec fn is_sealed(msg: Seq<u8>, key: Seq<u8>, data: Seq<u8>) -> bool {
    msg.len() >= 12 && msg == sealed_message(key, msg.take(12), data)
}

/// Whether the ICE channel `ice`, asked to send a message that is `data`
/// sealed under `key`, can have given `answer`.
pub open spec fn sent_sealed<I: IceChannel>(
    ice: I,
    key: Seq<u8>,
    data: Seq<u8>,
    answer: Result<(), IceError>,
) -> bool {
    exists|msg: &[u8]| #[trigger] call_ensures(I::send, (&ice, msg), answer) && is_sealed(msg@, key, data)
}

/// What a caller-side send may answer, given the channel `ice`, the shared
/// secret `key` and the data: `Ok` or an ICE error only as the channel's
/// answer to the data sealed under the key, and an encryption error only
/// for data too long to seal or when the random source failed.
pub open spec fn send_answer<I: IceChannel>(
    ice: I,
    key: Seq<u8>,
    data: Seq<u8>,
    r: Result<(), P2pError>,
) -> bool {
    &&& r is Ok ==> sent_sealed(ice, key, data, Ok::<(), IceError>(()))
    &&& (r matches Err(P2pError::Ice(_))) ==> sent_sealed(
        ice,
        key,
        data,
        Err::<(), IceError>(r->Err_0->Ice_0),
    )
    &&& r is Ok || (r matches Err(P2pError::Ice(_))) || (r matches Err(P2pError::Encryption))
    &&& data.len() > MAX_SEALED_PLAINTEXT ==> (r matches Err(P2pError::Encryption))
    &&& (data.len() <= MAX_SEALED_PLAINTEXT && (r matches Err(P2pError::Encryption)))
        ==> call_ensures(fresh_nonce, (), None::<[u8; 12]>)
}

/// A send of data that AES-GCM can seal hands the channel the data sealed
/// under the shared secret and reports the channel's answer: success only
/// when the channel accepted a sealed message, an ICE error only as the
/// channel's own error. It refuses with an encryption error only when the
/// random source failed to give a nonce, never because of the data.
pub proof fn law_send_seals_within_limit<I: IceChannel>(
    ice: I,
    key: Seq<u8>,
    data: Seq<u8>,
    r: Result<(), P2pError>,
)
    requires
        send_answer(ice, key, data, r),
        data.len() <= MAX_SEALED_PLAINTEXT,
    ensures
        r is Ok ==> exists|msg: &[u8]|
            #![trigger call_ensures(I::send, (&ice, msg), Ok::<(), IceError>(()))]
            msg@.len() >= 12 && msg@.skip(12) == aes256_gcm_seal(key, msg@.take(12), data)
                && call_ensures(I::send, (&ice, msg), Ok::<(), IceError>(())),
        r matches Err(P2pError::Encryption) ==> call_ensures(fresh_nonce, (), None::<[u8; 12]>),
        r is Err ==> (r matches Err(P2pError::Ice(_))) || (r matches Err(P2pError::Encryption)),
{
    if r is Ok {
        let msg = choose|msg: &[u8]|
            #[trigger] call_ensures(I::send, (&ice, msg), Ok::<(), IceError>(())) && is_sealed(
                msg@,
                key,
                data,
            );
        assert(msg@.skip(12) =~= aes256_gcm_seal(key, msg@.take(12), data));
    }
}

/// Seals `data` under `key` with `nonce`: the message is the nonce followed
/// by the ciphertext. Refused ([`P2pError::Encryption`]) when the data is
/// longer than AES-GCM seals.
pub fn seal_message(key: &[u8; 32], nonce: &[u8; 12], data: &[u8]) -> (r: Result<Vec<u8>, P2pError>)
    ensures
        r is Ok <==> data@.len() <= MAX_SEALED_PLAINTEXT,
        r matches Ok(m) ==> m@ == sealed_message(key@, nonce@, data@),
        r matches Err(e) ==> e is Encryption,
{
    match aes256_gcm_encrypt(key, nonce, data) {
        Ok(ciphertext) => {
            let mut msg: Vec<u8> = Vec::new();
            let mut i: usize = 0;
            while i < 12
                invariant
                    i <= 12,
                    msg@ == nonce@.take(i as int),
                decreases 12 - i,
            {
                msg.push(nonce[i]);
                i = i + 1;
                assert(msg@ =~= nonce@.take(i as int));
            }
            let mut j: usize = 0;
            while j < ciphertext.len()
                invariant
                    j <= ciphertext@.len(),
                    msg@ == nonce@ + ciphertext@.take(j as int),
                decreases ciphertext@.len() - j,
            {
                msg.push(ciphertext[j]);
                j = j + 1;
                assert(msg@ =~= nonce@ + ciphertext@.take(j as int));
            }
            assert(ciphertext@.take(j as int) =~= ciphertext@);
            Ok(msg)
        },
        Err(()) => Err(P2pError::Encryption),
    }
}

/// The private part of a peer connection: the ICE channel and the shared
/// secret derived from the X25519 key exchange.
pub struct PeerLink<I: IceChannel> {
    ice: I,
    shared_secret: [u8; 32],
}

impl<I: IceChannel> PeerLink<I> {
    pub closed spec fn ice(&self) -> I {
        self.ice
    }

    pub closed spec fn shared_secret(&self) -> Seq<u8> {
        self.shared_secret@
    }
}

/// A peer-to-peer connection to another node (caller side).
///
/// This provides encrypted UDP communication with a peer node after successful ICE
/// negotiation.
pub struct P2pConnection<I: IceChannel> {
    /// The peer's node number.
    pub peer_node_number: i32,
    /// Connection ID assigned by the answerer.
    pub connection_id: i64,
    /// The ICE channel and the shared secret.
    pub link: PeerLink<I>,
}

impl<I: IceChannel> P2pConnection<I> {
    /// Creates a connection over an established ICE channel.
    pub fn new(peer_node_number: i32, connection_id: i64, ice: I, shared_secret: [u8; 32]) -> (r:
        Self)
        ensures
            r.peer_node_number == peer_node_number,
            r.connection_id == connection_id,
            r.link.ice() == ice,
            r.link.shared_secret() == shared_secret@,
    {
        P2pConnection { peer_node_number, connection_id, link: PeerLink { ice, shared_secret } }
    }

    /// Sends `data` to the peer. The data is encrypted with the shared
    /// secret before transmission: the channel receives a fresh random
    /// 12-byte nonce followed by the AES-256-GCM ciphertext of `data` under
    /// the shared secret with that nonce; the plaintext never goes to the
    /// channel. A failure of the channel is reported as [`P2pError::Ice`];
    /// data too long to seal, or a failing random source, as
    /// [`P2pError::Encryption`].
    pub fn send(&self, data: &[u8]) -> (r: Result<(), P2pError>)
        ensures
            r is Ok ==> sent_sealed(
                self.link.ice(),
                self.link.shared_secret(),
                data@,
                Ok::<(), IceError>(()),
            ),
            r matches Err(P2pError::Ice(_)) ==> sent_sealed(
                self.link.ice(),
                self.link.shared_secret(),
                data@,
                Err::<(), IceError>(r->Err_0->Ice_0),
            ),
            r is Ok || r matches Err(P2pError::Ice(_)) || r matches Err(P2pError::Encryption),
            data@.len() > MAX_SEALED_PLAINTEXT ==> r matches Err(P2pError::Encryption),
            (data@.len() <= MAX_SEALED_PLAINTEXT && (r matches Err(P2pError::Encryption)))
                ==> call_ensures(fresh_nonce, (), None::<[u8; 12]>),
            send_answer(self.link.ice(), self.link.shared_secret(), data@, r),
    {
        let draw_nonce = fresh_nonce;
        let drawn = draw_nonce();
        let nonce = match drawn {
            Some(n) => n,
            None => {
                return Err(P2pError::Encryption);
            },
        };
        let msg = match seal_message(&self.link.shared_secret, &nonce, data) {
            Ok(m) => m,
            Err(e) => {
                return Err(e);
            },
        };
        proof {
            assert(msg@.take(12) =~= nonce@);
        }
        let wire = msg.as_slice();
        let channel_send = I::send;
        let sent = channel_send(&self.link.ice, wire);
        let ghost answer = sent;
        proof {
            assert(is_sealed(wire@, self.link.shared_secret(), data@));
            assert(call_ensures(I::send, (&self.link.ice(), wire), answer));
            assert(sent_sealed(self.link.ice(), self.link.shared_secret(), data@, answer));
            if answer is Ok {
                let u: () = answer->Ok_0;
                assert(u == ());
                assert(answer == Ok::<(), IceError>(u));
            }
        }
        ice_send_result(sent)
    }

    /// Closes the connection.
    pub fn close(self) {
        self.link.ice.close();
    }

    /// Whether the connection is currently up, as the ICE layer reports it.
    pub fn is_connected(&self) -> (r: bool)
        ensures
            call_ensures(I::is_connected, (&self.link.ice(),), r),
    {
        let channel_is_connected = I::is_connected;
        channel_is_connected(&self.link.ice)
    }
}

/// A peer-to-peer connection to another node (answerer side).
pub struct P2pConnectionAnswerer<I: IceChannel> {
    /// The peer's node number (the caller).
    pub peer_node_number: i32,
    /// Connection ID we assigned.
    pub connection_id: i64,
    /// The ICE channel and the shared secret.
    pub link: PeerLink<I>,
}

impl<I: IceChannel> P2pConnectionAnswerer<I> {
    /// Creates an answerer connection over an ICE channel.
    pub fn new(peer_node_number: i32, connection_id: i64, ice: I, shared_secret: [u8; 32]) -> (r:
        Self)
        ensures
            r.peer_node_number == peer_node_number,
            r.connection_id == connection_id,
            r.link.ice() == ice,
            r.link.shared_secret() == shared_secret@,
    {
        P2pConnectionAnswerer { peer_node_number, connection_id, link: PeerLink { ice, shared_secret } }
    }

    /// Sends `data` to the peer over the ICE channel. The bytes go to the
    /// channel as given: this layer does not encrypt them. The result is the
    /// channel's answer, a failure reported as [`P2pError::Ice`].
    pub fn send(&self, data: &[u8]) -> (r: Result<(), P2pError>)
        ensures
            match r {
                Ok(()) => call_ensures(I::send, (&self.link.ice(), data), Ok::<(), IceError>(())),
                Err(P2pError::Ice(e)) => call_ensures(
                    I::send,
                    (&self.link.ice(), data),
                    Err::<(), IceError>(e),
                ),
                Err(_) => false,
            },
    {
        let channel_send = I::send;
        let sent = channel_send(&self.link.ice, data);
        proof {
            if sent is Ok {
                let u: () = sent->Ok_0;
                assert(u == ());
                assert(sent == Ok::<(), IceError>(u));
            }
        }
        ice_send_result(sent)
    }

    /// Closes the connection.
    pub fn close(self) {
        self.link.ice.close();
    }

    /// Whether the connection is currently up, as the ICE layer reports it.
    pub fn is_connected(&self) -> (r: bool)
        ensures
            call_ensures(I::is_connected, (&self.link.ice(),), r),
    {
        let channel_is_connected = I::is_connected;
        channel_is_connected(&self.link.ice)
    }
}

} // verus!
