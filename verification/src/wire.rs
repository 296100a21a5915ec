use vstd::prelude::*;

verus! {

/// The bytes of `"CONNECT"`: the request method that asks for a tunnel.
pub open spec fn spec_connect_word() -> Seq<u8> {
    seq![67u8, 79u8, 78u8, 78u8, 69u8, 67u8, 84u8]
}

/// The bytes of `"CONNECT"`, as a vector.
pub fn connect_word_bytes() -> (v: Vec<u8>)
    ensures
        v@ == spec_connect_word(),
{
    let mut v: Vec<u8> = Vec::new();
    v.push(67);
    v.push(79);
    v.push(78);
    v.push(78);
    v.push(69);
    v.push(67);
    v.push(84);
    proof {
        assert(v@ =~= spec_connect_word());
    }
    v
}

/// The bytes of `"CONNECT "`: the start of an upstream CONNECT request line.
pub open spec fn spec_connect_sp() -> Seq<u8> {
    seq![67u8, 79u8, 78u8, 78u8, 69u8, 67u8, 84u8, 32u8]
}

/// The bytes of `"CONNECT "`, as a vector.
pub fn connect_sp_bytes() -> (v: Vec<u8>)
    ensures
        v@ == spec_connect_sp(),
{
    let mut v: Vec<u8> = Vec::new();
    v.push(67);
    v.push(79);
    v.push(78);
    v.push(78);
    v.push(69);
    v.push(67);
    v.push(84);
    v.push(32);
    proof {
        assert(v@ =~= spec_connect_sp());
    }
    v
}

/// The bytes of `" HTTP/1.1\r\nHost: "`: the middle of an upstream CONNECT request.
pub open spec fn spec_http11_host() -> Seq<u8> {
    seq![32u8, 72u8, 84u8, 84u8, 80u8, 47u8, 49u8, 46u8, 49u8, 13u8, 10u8, 72u8, 111u8, 115u8, 116u8, 58u8, 32u8]
}

/// The bytes of `" HTTP/1.1\r\nHost: "`, as a vector.
pub fn http11_host_bytes() -> (v: Vec<u8>)
    ensures
        v@ == spec_http11_host(),
{
    let mut v: Vec<u8> = Vec::new();
    v.push(32);
    v.push(72);
    v.push(84);
    v.push(84);
    v.push(80);
    v.push(47);
    v.push(49);
    v.push(46);
    v.push(49);
    v.push(13);
    v.push(10);
    v.push(72);
    v.push(111);
    v.push(115);
    v.push(116);
    v.push(58);
    v.push(32);
    proof {
        assert(v@ =~= spec_http11_host());
    }
    v
}

/// The bytes of `"\r\nProxy-Authorization: Basic "`: the authorization header lead-in of an upstream CONNECT request.
pub open spec fn spec_crlf_auth_basic() -> Seq<u8> {
    seq![13u8, 10u8, 80u8, 114u8, 111u8, 120u8, 121u8, 45u8, 65u8, 117u8, 116u8, 104u8, 111u8, 114u8, 105u8, 122u8, 97u8, 116u8, 105u8, 111u8, 110u8, 58u8, 32u8, 66u8, 97u8, 115u8, 105u8, 99u8, 32u8]
}

/// The bytes of `"\r\nProxy-Authorization: Basic "`, as a vector.
pub fn crlf_auth_basic_bytes() -> (v: Vec<u8>)
    ensures
        v@ == spec_crlf_auth_basic(),
{
    let mut v: Vec<u8> = Vec::new();
    v.push(13);
    v.push(10);
    v.push(80);
    v.push(114);
    v.push(111);
    v.push(120);
    v.push(121);
    v.push(45);
    v.push(65);
    v.push(117);
    v.push(116);
    v.push(104);
    v.push(111);
    v.push(114);
    v.push(105);
    v.push(122);
    v.push(97);
    v.push(116);
    v.push(105);
    v.push(111);
    v.push(110);
    v.push(58);
    v.push(32);
    v.push(66);
    v.push(97);
    v.push(115);
    v.push(105);
    v.push(99);
    v.push(32);
    proof {
        assert(v@ =~= spec_crlf_auth_basic());
    }
    v
}

/// The bytes of `"\r\nProxy-Connection: Keep-Alive\r\n\r\n"`: the tail of an upstream CONNECT request.
pub open spec fn spec_keepalive_tail() -> Seq<u8> {
    seq![13u8, 10u8, 80u8, 114u8, 111u8, 120u8, 121u8, 45u8, 67u8, 111u8, 110u8, 110u8, 101u8, 99u8, 116u8, 105u8, 111u8, 110u8, 58u8, 32u8, 75u8, 101u8, 101u8, 112u8, 45u8, 65u8, 108u8, 105u8, 118u8, 101u8, 13u8, 10u8, 13u8, 10u8]
}

/// The bytes of `"\r\nProxy-Connection: Keep-Alive\r\n\r\n"`, as a vector.
pub fn keepalive_tail_bytes() -> (v: Vec<u8>)
    ensures
        v@ == spec_keepalive_tail(),
{
    let mut v: Vec<u8> = Vec::new();
    v.push(13);
    v.push(10);
    v.push(80);
    v.push(114);
    v.push(111);
    v.push(120);
    v.push(121);
    v.push(45);
    v.push(67);
    v.push(111);
    v.push(110);
    v.push(110);
    v.push(101);
    v.push(99);
    v.push(116);
    v.push(105);
    v.push(111);
    v.push(110);
    v.push(58);
    v.push(32);
    v.push(75);
    v.push(101);
    v.push(101);
    v.push(112);
    v.push(45);
    v.push(65);
    v.push(108);
    v.push(105);
    v.push(118);
    v.push(101);
    v.push(13);
    v.push(10);
    v.push(13);
    v.push(10);
    proof {
        assert(v@ =~= spec_keepalive_tail());
    }
    v
}

/// The bytes of `"Proxy-Authorization:"`: the header name that marks a client-supplied proxy authorization.
pub open spec fn spec_auth_prefix() -> Seq<u8> {
    seq![80u8, 114u8, 111u8, 120u8, 121u8, 45u8, 65u8, 117u8, 116u8, 104u8, 111u8, 114u8, 105u8, 122u8, 97u8, 116u8, 105u8, 111u8, 110u8, 58u8]
}

/// The bytes of `"Proxy-Authorization:"`, as a vector.
pub fn auth_prefix_bytes() -> (v: Vec<u8>)
    ensures
        v@ == spec_auth_prefix(),
{
    let mut v: Vec<u8> = Vec::new();
    v.push(80);
    v.push(114);
    v.push(111);
    v.push(120);
    v.push(121);
    v.push(45);
    v.push(65);
    v.push(117);
    v.push(116);
    v.push(104);
    v.push(111);
    v.push(114);
    v.push(105);
    v.push(122);
    v.push(97);
    v.push(116);
    v.push(105);
    v.push(111);
    v.push(110);
    v.push(58);
    proof {
        assert(v@ =~= spec_auth_prefix());
    }
    v
}

/// The bytes of `"Proxy-Authorization: Basic "`: the start of the injected authorization header line.
pub open spec fn spec_auth_basic_prefix() -> Seq<u8> {
    seq![80u8, 114u8, 111u8, 120u8, 121u8, 45u8, 65u8, 117u8, 116u8, 104u8, 111u8, 114u8, 105u8, 122u8, 97u8, 116u8, 105u8, 111u8, 110u8, 58u8, 32u8, 66u8, 97u8, 115u8, 105u8, 99u8, 32u8]
}

/// The bytes of `"Proxy-Authorization: Basic "`, as a vector.
pub fn auth_basic_prefix_bytes() -> (v: Vec<u8>)
    ensures
        v@ == spec_auth_basic_prefix(),
{
    let mut v: Vec<u8> = Vec::new();
    v.push(80);
    v.push(114);
    v.push(111);
    v.push(120);
    v.push(121);
    v.push(45);
    v.push(65);
    v.push(117);
    v.push(116);
    v.push(104);
    v.push(111);
    v.push(114);
    v.push(105);
    v.push(122);
    v.push(97);
    v.push(116);
    v.push(105);
    v.push(111);
    v.push(110);
    v.push(58);
    v.push(32);
    v.push(66);
    v.push(97);
    v.push(115);
    v.push(105);
    v.push(99);
    v.push(32);
    proof {
        assert(v@ =~= spec_auth_basic_prefix());
    }
    v
}

/// The bytes of `"HTTP/1.1 200 Connection established\r\n\r\n"`: the reply a client receives once its tunnel stands.
pub open spec fn spec_established_reply() -> Seq<u8> {
    seq![72u8, 84u8, 84u8, 80u8, 47u8, 49u8, 46u8, 49u8, 32u8, 50u8, 48u8, 48u8, 32u8, 67u8, 111u8, 110u8, 110u8, 101u8, 99u8, 116u8, 105u8, 111u8, 110u8, 32u8, 101u8, 115u8, 116u8, 97u8, 98u8, 108u8, 105u8, 115u8, 104u8, 101u8, 100u8, 13u8, 10u8, 13u8, 10u8]
}

/// The bytes of `"HTTP/1.1 200 Connection established\r\n\r\n"`, as a vector.
pub fn established_reply_bytes() -> (v: Vec<u8>)
    ensures
        v@ == spec_established_reply(),
{
    let mut v: Vec<u8> = Vec::new();
    v.push(72);
    v.push(84);
    v.push(84);
    v.push(80);
    v.push(47);
    v.push(49);
    v.push(46);
    v.push(49);
    v.push(32);
    v.push(50);
    v.push(48);
    v.push(48);
    v.push(32);
    v.push(67);
    v.push(111);
    v.push(110);
    v.push(110);
    v.push(101);
    v.push(99);
    v.push(116);
    v.push(105);
    v.push(111);
    v.push(110);
    v.push(32);
    v.push(101);
    v.push(115);
    v.push(116);
    v.push(97);
    v.push(98);
    v.push(108);
    v.push(105);
    v.push(115);
    v.push(104);
    v.push(101);
    v.push(100);
    v.push(13);
    v.push(10);
    v.push(13);
    v.push(10);
    proof {
        assert(v@ =~= spec_established_reply());
    }
    v
}

} // verus!
