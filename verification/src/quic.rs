//! QUIC session keying: the TLS 1.3 pre-shared key that both peers derive
//! from their X25519 shared secret, and the PSK exchange that each side's
//! TLS callback performs.

use vstd::prelude::*;

verus! {

/// PSK identity used in the TLS 1.3 handshake (`wispers-connect-v1`); both
/// peers use the same one.
pub const PSK_IDENTITY: [u8; 18] = [
    119u8, 105, 115, 112, 101, 114, 115, 45, 99, 111, 110, 110, 101, 99, 116, 45, 118, 49,
];

/// ALPN protocol identifier for QUIC connections (`wispers-connect`).
pub const ALPN: [u8; 15] = [119u8, 105, 115, 112, 101, 114, 115, 45, 99, 111, 110, 110, 101, 99, 116];

/// Maximum idle timeout in milliseconds.
pub const MAX_IDLE_TIMEOUT_MS: u64 = 30000;

/// Initial max data (connection-level flow control), 10 MB.
pub const INITIAL_MAX_DATA: u64 = 10000000;

/// Initial max stream data (per-stream flow control), 1 MB.
pub const INITIAL_MAX_STREAM_DATA: u64 = 1000000;

/// Maximum concurrent bidirectional streams.
pub const INITIAL_MAX_STREAMS_BIDI: u64 = 100;

/// Length of the derived PSK in bytes.
pub const PSK_LEN: usize = 32;

/// Role in the QUIC handshake.
#[derive(Debug, Clone, Copy, PartialEq, Eq, Structural)]
pub enum QuicRole {
    /// Client initiates the connection (caller).
    Client,
    /// Server accepts the connection (answerer).
    Server,
}

/// The HKDF salt for the QUIC PSK (`wispers-connect-quic-v1`).
pub open spec fn psk_salt() -> Seq<u8> {
    seq![
        119u8, 105, 115, 112, 101, 114, 115, 45, 99, 111, 110, 110, 101, 99, 116, 45, 113, 117,
        105, 99, 45, 118, 49,
    ]
}

/// The HKDF info string for the QUIC PSK (`tls13-psk`).
pub open spec fn psk_info() -> Seq<u8> {
    seq![116u8, 108, 115, 49, 51, 45, 112, 115, 107]
}

/// The `len` bytes of output keying material that HKDF-SHA256 (RFC 5869)
/// derives from `salt`, `ikm` and `info`.
pub uninterp spec fn hkdf_sha256(salt: Seq<u8>, ikm: Seq<u8>, info: Seq<u8>, len: nat) -> Seq<u8>;

/// Fills `okm` with HKDF-SHA256 output: `hkdf::Hkdf::<Sha256>::new` (the
/// extract step) followed by its `expand`. Stated from the crate's source:
/// expansion succeeds exactly when `okm` is at most 255 hash lengths long.
#[verifier::external_body]
fn hkdf_sha256_expand(salt: &[u8], ikm: &[u8], info: &[u8], okm: &mut [u8]) -> (r: Result<(), ()>)
    ensures
        final(okm)@.len() == old(okm)@.len(),
        r is Ok <==> old(okm)@.len() <= 255 * 32,
        r is Ok ==> final(okm)@ == hkdf_sha256(salt@, ikm@, info@, old(okm)@.len()),
{
    match hkdf::Hkdf::<sha2::Sha256>::new(Some(salt), ikm).expand(info, okm) {
        Ok(()) => Ok(()),
        Err(_) => Err(()),
    }
}

/// The PSK that [`derive_psk`] yields for a shared secret.
pub open spec fn spec_derive_psk(shared_secret: Seq<u8>) -> Seq<u8> {
    hkdf_sha256(psk_salt(), shared_secret, psk_info(), 32)
}

/// Derives a TLS 1.3 pre-shared key from an X25519 shared secret with
/// HKDF-SHA256, under a salt and an info string of this protocol.
///
/// Both peers perform the same X25519 exchange, so they arrive at the same
/// shared secret and thus the same PSK.
pub fn derive_psk(shared_secret: &[u8; 32]) -> (r: [u8; 32])
    ensures
        r@ == spec_derive_psk(shared_secret@),
{
    let salt: [u8; 23] = [
        119u8, 105, 115, 112, 101, 114, 115, 45, 99, 111, 110, 110, 101, 99, 116, 45, 113, 117,
        105, 99, 45, 118, 49,
    ];
    let info: [u8; 9] = [116u8, 108, 115, 49, 51, 45, 112, 115, 107];
    assert(salt@ =~= psk_salt());
    assert(info@ =~= psk_info());
    let mut psk = [0u8; 32];
    let r = hkdf_sha256_expand(salt.as_slice(), shared_secret.as_slice(), info.as_slice(), &mut psk);
    assert(r is Ok);
    psk
}

/// Copies `src` into the front of `dst`.
fn copy_into(dst: &mut [u8], src: &[u8])
    requires
        src@.len() <= old(dst)@.len(),
    ensures
        final(dst)@ == src@ + old(dst)@.skip(src@.len() as int),
{
    let mut i: usize = 0;
    while i < src.len()
        invariant
            src@.len() <= dst@.len(),
            dst@.len() == old(dst)@.len(),
            i <= src@.len(),
            dst@ == src@.take(i as int) + old(dst)@.skip(i as int),
        decreases src@.len() - i,
    {
        dst[i] = src[i];
        i = i + 1;
        assert(dst@ =~= src@.take(i as int) + old(dst)@.skip(i as int));
    }
    assert(src@.take(i as int) =~= src@);
}

/// A buffer of `out` with the key `psk` written over its front.
pub open spec fn psk_written(out: Seq<u8>, psk: Seq<u8>) -> Seq<u8> {
    psk + out.skip(psk.len() as int)
}

/// An identity buffer with the PSK identity, NUL-terminated, written over
/// its front.
pub open spec fn identity_written(buf: Seq<u8>) -> Seq<u8> {
    PSK_IDENTITY@ + seq![0u8] + buf.skip(19)
}

/// The identity a NUL-terminated buffer carries: its bytes before the first
/// NUL.
pub open spec fn c_string(buf: Seq<u8>) -> Seq<u8>
    decreases buf.len(),
{
    if buf.len() == 0 || buf[0] == 0 {
        Seq::empty()
    } else {
        seq![buf[0]] + c_string(buf.skip(1))
    }
}

/// Whether the server's side accepts a handshake: the peer presented this
/// protocol's identity and the key fits the output buffer.
pub open spec fn server_accepts(identity: Option<Seq<u8>>, out_len: nat) -> bool {
    identity == Some(PSK_IDENTITY@) && out_len >= PSK_LEN
}

pub open spec fn bytes_option_view(identity: Option<&[u8]>) -> Option<Seq<u8>> {
    match identity {
        Some(id) => Some(id@),
        None => None,
    }
}

/// The client's side of the PSK exchange: writes the PSK identity,
/// NUL-terminated, into `identity` and the key into `psk_out`, and gives the
/// key length. Refuses (`Err`) when a buffer is too small; the identity is
/// written before `psk_out` is checked.
pub fn client_psk(identity: &mut [u8], psk_out: &mut [u8], psk: &[u8; 32]) -> (r: Result<usize, ()>)
    ensures
        old(identity)@.len() < 19 ==> {
            &&& r is Err
            &&& final(identity)@ == old(identity)@
            &&& final(psk_out)@ == old(psk_out)@
        },
        old(identity)@.len() >= 19 ==> final(identity)@ == identity_written(old(identity)@),
        old(identity)@.len() >= 19 && old(psk_out)@.len() < 32 ==> {
            &&& r is Err
            &&& final(psk_out)@ == old(psk_out)@
        },
        old(identity)@.len() >= 19 && old(psk_out)@.len() >= 32 ==> {
            &&& r == Ok::<usize, ()>(32)
            &&& final(psk_out)@ == psk_written(old(psk_out)@, psk@)
        },
{
    if identity.len() < PSK_IDENTITY.len() + 1 {
        return Err(());
    }
    copy_into(identity, PSK_IDENTITY.as_slice());
    identity[PSK_IDENTITY.len()] = 0;
    assert(identity@ =~= PSK_IDENTITY@ + seq![0u8] + old(identity)@.skip(19));
    if psk_out.len() < PSK_LEN {
        return Err(());
    }
    copy_into(psk_out, psk.as_slice());
    Ok(PSK_LEN)
}

/// The server's side of the PSK exchange: accepts only this protocol's PSK
/// identity, writes the key into `psk_out`, and gives the key length.
pub fn server_psk(identity: Option<&[u8]>, psk_out: &mut [u8], psk: &[u8; 32]) -> (r: Result<
    usize,
    (),
>)
    ensures
        server_accepts(bytes_option_view(identity), old(psk_out)@.len()) ==> r == Ok::<usize, ()>(32)
            && final(psk_out)@ == psk_written(old(psk_out)@, psk@),
        !server_accepts(bytes_option_view(identity), old(psk_out)@.len()) ==> r is Err
            && final(psk_out)@ == old(psk_out)@,
{
    let expected = PSK_IDENTITY.as_slice();
    let matches = match identity {
        Some(id) => {
            if id.len() != expected.len() {
                false
            } else {
                let mut same = true;
                let mut i: usize = 0;
                while i < id.len()
                    invariant
                        id@.len() == expected@.len(),
                        i <= id@.len(),
                        same == (forall|j: int| 0 <= j < i ==> id@[j] == expected@[j]),
                    decreases id@.len() - i,
                {
                    if id[i] != expected[i] {
                        same = false;
                    }
                    i = i + 1;
                }
                assert(same ==> id@ =~= expected@);
                same
            }
        },
        None => false,
    };
    if !matches {
        return Err(());
    }
    if psk_out.len() < PSK_LEN {
        return Err(());
    }
    copy_into(psk_out, psk.as_slice());
    Ok(PSK_LEN)
}

/// The bytes of `a` followed by a NUL carry `a` as their identity, when `a`
/// holds no NUL itself.
proof fn lemma_c_string(a: Seq<u8>, rest: Seq<u8>)
    requires
        forall|j: int| 0 <= j < a.len() ==> #[trigger] a[j] != 0,
    ensures
        c_string(a + seq![0u8] + rest) == a,
    decreases a.len(),
{
    let buf = a + seq![0u8] + rest;
    if a.len() == 0 {
        assert(buf[0] == 0);
    } else {
        let tail = a.skip(1);
        assert forall|j: int| 0 <= j < tail.len() implies #[trigger] tail[j] != 0 by {
            assert(tail[j] == a[j + 1]);
        }
        lemma_c_string(tail, rest);
        assert(buf.skip(1) =~= tail + seq![0u8] + rest);
        assert(seq![a[0]] + tail =~= a);
    }
}

/// Both peers use the same PSK identity: whatever identity buffer the
/// client's side fills, the NUL-terminated identity it writes is the one
/// the server's side accepts, and both sides then hand TLS the same key.
pub proof fn law_psk_identity_agreement(
    identity_buf: Seq<u8>,
    client_out: Seq<u8>,
    server_out: Seq<u8>,
    psk: Seq<u8>,
)
    requires
        identity_buf.len() >= 19,
        client_out.len() >= 32,
        server_out.len() >= 32,
        psk.len() == 32,
    ensures
        server_accepts(Some(c_string(identity_written(identity_buf))), server_out.len()),
        psk_written(client_out, psk).take(32) == psk_written(server_out, psk).take(32),
{
    let id = PSK_IDENTITY@;
    assert(id =~= seq![
        119u8, 105, 115, 112, 101, 114, 115, 45, 99, 111, 110, 110, 101, 99, 116, 45, 118, 49,
    ]);
    assert forall|j: int| 0 <= j < id.len() implies #[trigger] id[j] != 0 by {}
    lemma_c_string(id, identity_buf.skip(19));
    assert(psk_written(client_out, psk).take(32) =~= psk);
    assert(psk_written(server_out, psk).take(32) =~= psk);
}

} // verus!
