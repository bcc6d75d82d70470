//! The three hash values of the protocol: the user's secret commitment, the
//! gateway key that the registration authority hands out, and the identity
//! binding by which a gateway proves knowledge of its PUF response.

use vstd::prelude::*;
use crate::encoding::{append_bytes, digest_word, hash_word, u64_le, u64_to_le_bytes, utf8};

verus! {

/// `H(id || password || secret)`.
pub open spec fn commitment_spec(id: Seq<char>, password: Seq<char>, secret: Seq<u8>) -> u64 {
    hash_word(utf8(id) + utf8(password) + secret)
}

/// `X = H(declared_id || response)`.
pub open spec fn gateway_key_spec(declared_id: Seq<char>, response: u64) -> u64 {
    hash_word(utf8(declared_id) + u64_le(response))
}

/// `H(X || pseudonym)`.
pub open spec fn identity_binding_spec(key: u64, pseudonym: Seq<char>) -> u64 {
    hash_word(u64_le(key) + utf8(pseudonym))
}

/// The user's commitment to identity, password and biometric secret.
pub fn commitment(id: &str, password: &str, secret: &[u8]) -> (r: u64)
    ensures
        r == commitment_spec(id@, password@, secret@),
{
    let mut msg: Vec<u8> = Vec::new();
    append_bytes(&mut msg, id.as_bytes());
    append_bytes(&mut msg, password.as_bytes());
    append_bytes(&mut msg, secret);
    assert(msg@ =~= utf8(id@) + utf8(password@) + secret@);
    digest_word(msg.as_slice())
}

/// The key that binds a gateway's declared identity to its PUF response.
pub fn gateway_key(declared_id: &str, response: u64) -> (r: u64)
    ensures
        r == gateway_key_spec(declared_id@, response),
{
    let mut msg: Vec<u8> = Vec::new();
    append_bytes(&mut msg, declared_id.as_bytes());
    let rb = u64_to_le_bytes(response);
    append_bytes(&mut msg, rb.as_slice());
    assert(msg@ =~= utf8(declared_id@) + u64_le(response));
    digest_word(msg.as_slice())
}

/// The identity binding of gateway key `key` to `pseudonym`.
pub fn identity_binding(key: u64, pseudonym: &str) -> (r: u64)
    ensures
        r == identity_binding_spec(key, pseudonym@),
{
    let mut msg: Vec<u8> = u64_to_le_bytes(key);
    append_bytes(&mut msg, pseudonym.as_bytes());
    digest_word(msg.as_slice())
}

} // verus!
