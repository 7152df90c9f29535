//! The pairing code a server shows and a client must type: a short
//! fingerprint of the server's TLS certificate.
use vstd::prelude::*;
use sha2::Digest;
use crate::text::{hex_byte, push_hex_byte};

verus! {

/// The TLS server name embedded in the server's self-signed certificate.
pub const SERVER_NAME: &'static str = "netshare.local";

/// SHA-256 digest of the bytes, as the `sha2` crate computes it.
pub uninterp spec fn sha256_of(data: Seq<u8>) -> Seq<u8>;

/// `sha2::Sha256::digest`: the SHA-256 digest of `data`, whose 32 bytes are
/// taken as named by `sha256_of`; nothing else is assumed of them.
#[verifier::external_body]
fn sha256_digest(data: &[u8]) -> (r: Vec<u8>)
    ensures
        r@ == sha256_of(data@),
        r@.len() == 32,
{
    sha2::Sha256::digest(data).to_vec()
}

/// The pairing code of a certificate: the first three bytes of its SHA-256
/// digest as six upper-case hex digits.
pub open spec fn pairing_code_of(cert_der: Seq<u8>) -> Seq<char> {
    let d = sha256_of(cert_der);
    hex_byte(d[0]) + hex_byte(d[1]) + hex_byte(d[2])
}

/// Computes the pairing code of a DER-encoded certificate, e.g. `"1A2B3C"`.
pub fn cert_pairing_code(cert_der: &[u8]) -> (r: String)
    ensures
        r@ == pairing_code_of(cert_der@),
        r@.len() == 6,
{
    let digest = sha256_digest(cert_der);
    let mut code = String::new();
    push_hex_byte(&mut code, digest[0]);
    push_hex_byte(&mut code, digest[1]);
    push_hex_byte(&mut code, digest[2]);
    assert(code@ =~= pairing_code_of(cert_der@));
    code
}

} // verus!
