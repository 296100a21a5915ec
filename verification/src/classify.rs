use vstd::prelude::*;

verus! {

/// What a new connection's first bytes ask for.
#[derive(Clone, Copy, Debug, PartialEq, Eq, Structural)]
pub enum RequestClass {
    /// The client closed without sending anything.
    Empty,
    /// A CONNECT tunnel request.
    Tunnel,
    /// Any other request, forwarded as plain HTTP.
    Forward,
}

/// Whether a request begins with the literal `CONNECT`.
pub open spec fn is_connect_prefix(s: Seq<u8>) -> bool {
    s.len() >= 7 && s.take(7) == crate::wire::spec_connect_word()
}

/// Decide how to handle a connection from the first bytes it sent:
/// nothing at all, a CONNECT tunnel request, or a plain forward.
pub fn classify_request(buf: &[u8]) -> (c: RequestClass)
    ensures
        (c is Empty) <==> buf@.len() == 0,
        (c is Tunnel) <==> (buf@.len() > 0 && is_connect_prefix(buf@)),
        (c is Forward) <==> (buf@.len() > 0 && !is_connect_prefix(buf@)),
{
    if buf.len() == 0 {
        RequestClass::Empty
    } else {
        let w = crate::wire::connect_word_bytes();
        if crate::bytes::begins_with(buf, w.as_slice()) {
            RequestClass::Tunnel
        } else {
            RequestClass::Forward
        }
    }
}

} // verus!
