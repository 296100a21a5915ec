use vstd::prelude::*;
use base64::Engine;

verus! {

/// The standard base64 encoding (with padding) of a byte sequence,
/// as ASCII bytes. Its value is fixed by the base64 algorithm and
/// depends on the input bytes alone.
pub uninterp spec fn base64_of(s: Seq<u8>) -> Seq<u8>;

/// Relies on base64's `Engine::encode` with the `STANDARD` engine:
/// the standard-alphabet, padded base64 encoding of the input bytes,
/// a function of those bytes alone.
#[verifier::external_body]
fn base64_encode(input: &[u8]) -> (r: Vec<u8>)
    ensures
        r@ == base64_of(input@),
{
    base64::engine::general_purpose::STANDARD.encode(input).into_bytes()
}

/// The Basic-auth token for a username and password: the base64
/// encoding of `user`, a colon, and `password`.
pub open spec fn spec_basic_token(user: Seq<u8>, password: Seq<u8>) -> Seq<u8> {
    base64_of(user + seq![58u8] + password)
}

/// Derive the upstream's Basic-auth token from the configured
/// username and password.
pub fn encode_credential(user: &[u8], password: &[u8]) -> (token: Vec<u8>)
    ensures
        token@ == spec_basic_token(user@, password@),
{
    let mut joined: Vec<u8> = Vec::new();
    crate::bytes::push_all(&mut joined, user);
    joined.push(58);
    crate::bytes::push_all(&mut joined, password);
    proof {
        assert(joined@ =~= user@ + seq![58u8] + password@);
    }
    base64_encode(joined.as_slice())
}

/// The token is a function of the credentials alone: equal usernames
/// and passwords always encode to the same token.
pub proof fn lemma_token_deterministic(u1: Seq<u8>, p1: Seq<u8>, u2: Seq<u8>, p2: Seq<u8>)
    requires
        u1 == u2,
        p1 == p2,
    ensures
        spec_basic_token(u1, p1) == spec_basic_token(u2, p2),
{
}

} // verus!
