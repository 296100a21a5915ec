use vstd::prelude::*;
use crate::error::ProxyError;

verus! {

/// The first line of a request, before any line feed.
pub open spec fn first_line(s: Seq<u8>) -> Seq<u8> {
    if crate::bytes::spec_lines(s).len() == 0 {
        Seq::empty()
    } else {
        crate::bytes::spec_lines(s)[0]
    }
}

/// Parse the target of a CONNECT request: the second
/// whitespace-separated token of its first line. A first line of
/// fewer than two tokens is rejected before any upstream work.
pub fn parse_connect_target(req: &[u8]) -> (r: Result<Vec<u8>, ProxyError>)
    ensures
        crate::bytes::spec_tokens(first_line(req@)).len() < 2 ==> r == Err::<
            Vec<u8>,
            ProxyError,
        >(ProxyError::MalformedRequest),
        crate::bytes::spec_tokens(first_line(req@)).len() >= 2 ==> (r matches Ok(t) && t@
            == crate::bytes::spec_tokens(first_line(req@))[1]),
{
    let lines = crate::bytes::split_lines(req);
    if lines.len() == 0 {
        proof {
            assert(first_line(req@) =~= Seq::<u8>::empty());
        }
        return Err(ProxyError::MalformedRequest);
    }
    let head: &Vec<u8> = &lines[0];
    proof {
        assert(crate::bytes::byte_views(lines@)[0] == head@);
    }
    let toks = crate::bytes::split_ws(head.as_slice());
    if toks.len() < 2 {
        return Err(ProxyError::MalformedRequest);
    }
    let target: &Vec<u8> = &toks[1];
    proof {
        assert(crate::bytes::byte_views(toks@)[1] == target@);
    }
    Ok(crate::bytes::copy_bytes(target.as_slice()))
}

/// The CONNECT request sent to the upstream proxy for a target:
/// the CONNECT line, a Host header, the injected authorization and a
/// keep-alive header, closed by a blank line.
pub open spec fn spec_connect_request(target: Seq<u8>, token: Seq<u8>) -> Seq<u8> {
    crate::wire::spec_connect_sp() + target + crate::wire::spec_http11_host() + target
        + crate::wire::spec_crlf_auth_basic() + token + crate::wire::spec_keepalive_tail()
}

/// Build the CONNECT request for the upstream proxy, carrying the
/// configured authorization token.
pub fn build_connect_request(target: &[u8], token: &[u8]) -> (r: Vec<u8>)
    ensures
        r@ == spec_connect_request(target@, token@),
{
    let mut v = crate::wire::connect_sp_bytes();
    crate::bytes::push_all(&mut v, target);
    let mid = crate::wire::http11_host_bytes();
    crate::bytes::push_all(&mut v, mid.as_slice());
    crate::bytes::push_all(&mut v, target);
    let lead = crate::wire::crlf_auth_basic_bytes();
    crate::bytes::push_all(&mut v, lead.as_slice());
    crate::bytes::push_all(&mut v, token);
    let tail = crate::wire::keepalive_tail_bytes();
    crate::bytes::push_all(&mut v, tail.as_slice());
    v
}

/// Whether the bytes contain the digit string `200` somewhere, the
/// mark of an accepted CONNECT.
pub open spec fn has_200(s: Seq<u8>) -> bool {
    exists|i: int|
        0 <= i && i + 3 <= s.len() && #[trigger] s.subrange(i, i + 3) == seq![50u8, 48u8, 48u8]
}

/// Whether the response contains the substring `200`.
fn contains_200(resp: &[u8]) -> (r: bool)
    ensures
        r == has_200(resp@),
{
    if resp.len() < 3 {
        return false;
    }
    let mut i: usize = 0;
    while i <= resp.len() - 3
        invariant
            resp@.len() >= 3,
            i <= resp@.len() - 2,
            forall|t: int|
                0 <= t < i ==> #[trigger] resp@.subrange(t, t + 3) != seq![50u8, 48u8, 48u8],
        decreases resp.len() - i,
    {
        if resp[i] == 50 && resp[i + 1] == 48 && resp[i + 2] == 48 {
            proof {
                assert(resp@.subrange(i as int, i as int + 3) =~= seq![50u8, 48u8, 48u8]);
            }
            return true;
        }
        proof {
            assert(resp@.subrange(i as int, i as int + 3)[0] == resp@[i as int]);
            assert(resp@.subrange(i as int, i as int + 3)[1] == resp@[i as int + 1]);
            assert(resp@.subrange(i as int, i as int + 3)[2] == resp@[i as int + 2]);
        }
        i = i + 1;
    }
    false
}

/// What to do with the upstream's reply to a CONNECT request, and
/// the exact bytes to write back to the client for it.
pub enum ConnectDecision {
    /// The upstream closed without replying; nothing is written back.
    Closed,
    /// The upstream rejected the CONNECT: its raw response bytes are
    /// relayed to the client verbatim and no tunnel is established.
    Rejected(Vec<u8>),
    /// The upstream accepted: the client receives the literal
    /// established line and the tunnel starts.
    Established(Vec<u8>),
}

/// Judge the upstream's reply to a CONNECT request: an empty read
/// means the upstream closed; a reply without `200` is a rejection,
/// relayed back byte for byte; a reply with `200` establishes the
/// tunnel and the client receives exactly the established line.
pub fn evaluate_connect_response(resp: &[u8]) -> (d: ConnectDecision)
    ensures
        (d is Closed) <==> resp@.len() == 0,
        (resp@.len() > 0 && !has_200(resp@)) ==> (d matches ConnectDecision::Rejected(b) && b@
            == resp@),
        (resp@.len() > 0 && has_200(resp@)) ==> (d matches ConnectDecision::Established(b) && b@
            == crate::wire::spec_established_reply()),
{
    if resp.len() == 0 {
        return ConnectDecision::Closed;
    }
    if contains_200(resp) {
        ConnectDecision::Established(crate::wire::established_reply_bytes())
    } else {
        ConnectDecision::Rejected(crate::bytes::copy_bytes(resp))
    }
}

} // verus!
