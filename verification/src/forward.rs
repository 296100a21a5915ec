use vstd::prelude::*;
use crate::error::ProxyError;

verus! {

/// Whether a line carries a proxy authorization: it begins with
/// `Proxy-Authorization:`.
pub open spec fn is_auth_line(l: Seq<u8>) -> bool {
    l.len() >= 20 && l.take(20) == crate::wire::spec_auth_prefix()
}

/// The injected `Proxy-Authorization: Basic {token}` header line.
pub open spec fn auth_header_line(token: Seq<u8>) -> Seq<u8> {
    crate::wire::spec_auth_basic_prefix() + token
}

/// The injected header line is itself an authorization line.
pub proof fn lemma_auth_header_line_is_auth(token: Seq<u8>)
    ensures
        is_auth_line(auth_header_line(token)),
{
    assert(auth_header_line(token).take(20) =~= crate::wire::spec_auth_prefix());
}

/// One pass of the header rewrite over the lines of a request, with
/// `seen` recording whether an authorization line of the original
/// request has gone by: an authorization line is replaced with the
/// injected one, any other non-empty line passes through unchanged,
/// and in front of an empty line the injected header is put once
/// unless an original authorization line was already seen.
pub open spec fn spec_rewrite_from(lines: Seq<Seq<u8>>, token: Seq<u8>, seen: bool) -> Seq<Seq<u8>>
    decreases lines.len(),
{
    if lines.len() == 0 {
        Seq::empty()
    } else {
        let l = lines[0];
        let rest = lines.drop_first();
        if is_auth_line(l) {
            seq![auth_header_line(token)] + spec_rewrite_from(rest, token, true)
        } else if l.len() > 0 {
            seq![l] + spec_rewrite_from(rest, token, seen)
        } else if seen {
            seq![l] + spec_rewrite_from(rest, token, true)
        } else {
            seq![auth_header_line(token), l] + spec_rewrite_from(rest, token, false)
        }
    }
}

/// The header rewrite of a request's lines.
pub open spec fn spec_rewrite(lines: Seq<Seq<u8>>, token: Seq<u8>) -> Seq<Seq<u8>> {
    spec_rewrite_from(lines, token, false)
}

/// The injected header line for a token, as a vector.
pub fn make_auth_header_line(token: &[u8]) -> (r: Vec<u8>)
    ensures
        r@ == auth_header_line(token@),
{
    let mut v = crate::wire::auth_basic_prefix_bytes();
    crate::bytes::push_all(&mut v, token);
    v
}

/// Rewrite the lines of a request so that the forwarded request
/// carries the configured authorization: a client-supplied
/// `Proxy-Authorization:` line is overridden, and when none was
/// present the injected header is inserted just before the blank
/// line that ends the headers.
pub fn rewrite_lines(lines: &Vec<Vec<u8>>, token: &[u8]) -> (r: Vec<Vec<u8>>)
    ensures
        crate::bytes::byte_views(r@) == spec_rewrite(crate::bytes::byte_views(lines@), token@),
{
    let ghost all = crate::bytes::byte_views(lines@);
    let prefix = crate::wire::auth_prefix_bytes();
    let mut r: Vec<Vec<u8>> = Vec::new();
    let mut seen: bool = false;
    let mut i: usize = 0;
    proof {
        assert(all.skip(0) =~~= all);
        assert(crate::bytes::byte_views(r@) + spec_rewrite_from(all, token@, false) =~~= spec_rewrite_from(all, token@, false));
    }
    while i < lines.len()
        invariant
            i <= lines.len(),
            all == crate::bytes::byte_views(lines@),
            prefix@ == crate::wire::spec_auth_prefix(),
            spec_rewrite(all, token@) == crate::bytes::byte_views(r@) + spec_rewrite_from(
                all.skip(i as int),
                token@,
                seen,
            ),
        decreases lines.len() - i,
    {
        let ghost ls = all.skip(i as int);
        let l: &Vec<u8> = &lines[i];
        proof {
            assert(ls[0] == all[i as int]);
            assert(all[i as int] == l@);
            assert(ls.drop_first() =~~= all.skip(i as int + 1));
        }
        let ghost r0 = r@;
        if crate::bytes::begins_with(l.as_slice(), prefix.as_slice()) {
            let h = make_auth_header_line(token);
            let ghost hv = h@;
            r.push(h);
            seen = true;
            proof {
                assert(is_auth_line(ls[0]));
                assert(crate::bytes::byte_views(r@) =~~= crate::bytes::byte_views(r0).push(hv));
                assert(spec_rewrite_from(ls, token@, false) == seq![auth_header_line(token@)]
                    + spec_rewrite_from(ls.drop_first(), token@, true));
                assert(spec_rewrite_from(ls, token@, true) == seq![auth_header_line(token@)]
                    + spec_rewrite_from(ls.drop_first(), token@, true));
                assert(spec_rewrite(all, token@) =~~= crate::bytes::byte_views(r@)
                    + spec_rewrite_from(all.skip(i as int + 1), token@, true));
            }
        } else if l.len() > 0 {
            let c = crate::bytes::copy_bytes(l.as_slice());
            let ghost cv = c@;
            r.push(c);
            proof {
                assert(!is_auth_line(ls[0]));
                assert(ls[0].len() > 0);
                assert(crate::bytes::byte_views(r@) =~~= crate::bytes::byte_views(r0).push(cv));
                assert(spec_rewrite(all, token@) =~~= crate::bytes::byte_views(r@)
                    + spec_rewrite_from(all.skip(i as int + 1), token@, seen));
            }
        } else if seen {
            let c = crate::bytes::copy_bytes(l.as_slice());
            let ghost cv = c@;
            r.push(c);
            proof {
                assert(!is_auth_line(ls[0]));
                assert(ls[0].len() == 0);
                assert(crate::bytes::byte_views(r@) =~~= crate::bytes::byte_views(r0).push(cv));
                assert(spec_rewrite(all, token@) =~~= crate::bytes::byte_views(r@)
                    + spec_rewrite_from(all.skip(i as int + 1), token@, true));
            }
        } else {
            let h = make_auth_header_line(token);
            let ghost hv = h@;
            r.push(h);
            let c = crate::bytes::copy_bytes(l.as_slice());
            let ghost cv = c@;
            r.push(c);
            proof {
                assert(!is_auth_line(ls[0]));
                assert(ls[0].len() == 0);
                assert(crate::bytes::byte_views(r@) =~~= crate::bytes::byte_views(r0).push(
                    hv,
                ).push(cv));
                assert(spec_rewrite(all, token@) =~~= crate::bytes::byte_views(r@)
                    + spec_rewrite_from(all.skip(i as int + 1), token@, false));
            }
        }
        i = i + 1;
    }
    proof {
        assert(all.skip(lines@.len() as int) =~~= Seq::<Seq<u8>>::empty());
        assert(spec_rewrite_from(all.skip(lines@.len() as int), token@, seen)
            =~~= Seq::<Seq<u8>>::empty());
        assert(crate::bytes::byte_views(r@) =~~= spec_rewrite(all, token@));
    }
    r
}

/// Whether some line is empty: the blank line that ends the headers.
pub open spec fn has_blank_line(lines: Seq<Seq<u8>>) -> bool {
    exists|i: int| 0 <= i < lines.len() && #[trigger] lines[i].len() == 0
}

/// The number of authorization lines in the header block: among the
/// lines before the first empty one.
pub open spec fn auth_count_before_blank(lines: Seq<Seq<u8>>) -> nat
    decreases lines.len(),
{
    if lines.len() == 0 {
        0
    } else if lines[0].len() == 0 {
        0
    } else {
        (if is_auth_line(lines[0]) {
            1nat
        } else {
            0nat
        }) + auth_count_before_blank(lines.drop_first())
    }
}

/// Once an original authorization line has been seen, the rewrite
/// adds none: a header block without one stays without one.
proof fn lemma_rewrite_seen_no_auth(lines: Seq<Seq<u8>>, token: Seq<u8>)
    requires
        auth_count_before_blank(lines) == 0,
    ensures
        auth_count_before_blank(spec_rewrite_from(lines, token, true)) == 0,
    decreases lines.len(),
{
    if lines.len() == 0 {
    } else {
        let l = lines[0];
        let rest = lines.drop_first();
        if l.len() == 0 {
            let out = seq![l] + spec_rewrite_from(rest, token, true);
            assert(out[0] == l);
        } else {
            assert(!is_auth_line(l));
            lemma_rewrite_seen_no_auth(rest, token);
            let out = seq![l] + spec_rewrite_from(rest, token, true);
            assert(out[0] == l);
            assert(out.drop_first() =~~= spec_rewrite_from(rest, token, true));
        }
    }
}

/// Law: the forwarded request carries the authorization header
/// exactly once. If a request's lines hold a blank line ending the
/// headers and at most one client-supplied authorization line before
/// it, the rewritten lines hold exactly one authorization line in
/// their header block.
pub proof fn lemma_rewrite_single_auth(lines: Seq<Seq<u8>>, token: Seq<u8>)
    requires
        has_blank_line(lines),
        auth_count_before_blank(lines) <= 1,
    ensures
        auth_count_before_blank(spec_rewrite(lines, token)) == 1,
    decreases lines.len(),
{
    lemma_auth_header_line_is_auth(token);
    let l = lines[0];
    let rest = lines.drop_first();
    if is_auth_line(l) {
        assert(l.len() >= 20);
        assert(auth_count_before_blank(rest) == 0);
        lemma_rewrite_seen_no_auth(rest, token);
        let out = seq![auth_header_line(token)] + spec_rewrite_from(rest, token, true);
        assert(out[0] == auth_header_line(token));
        assert(out[0].len() > 0);
        assert(out.drop_first() =~~= spec_rewrite_from(rest, token, true));
        assert(auth_count_before_blank(out) == 1);
    } else if l.len() > 0 {
        let i = choose|i: int| 0 <= i < lines.len() && #[trigger] lines[i].len() == 0;
        assert(i >= 1);
        assert(rest[i - 1] == lines[i]);
        assert(has_blank_line(rest));
        lemma_rewrite_single_auth(rest, token);
        let out = seq![l] + spec_rewrite_from(rest, token, false);
        assert(out[0] == l);
        assert(out.drop_first() =~~= spec_rewrite_from(rest, token, false));
        assert(auth_count_before_blank(out) == 1);
    } else {
        let out = seq![auth_header_line(token), l] + spec_rewrite_from(rest, token, false);
        assert(out[0] == auth_header_line(token));
        assert(out[0].len() > 0);
        assert(out.drop_first() =~~= seq![l] + spec_rewrite_from(rest, token, false));
        assert(out.drop_first()[0] == l);
        assert(auth_count_before_blank(out.drop_first()) == 0);
        assert(auth_count_before_blank(out) == 1);
    }
}

/// Law: every authorization line of a rewritten request is the
/// injected one, carrying exactly the configured token.
pub proof fn lemma_rewrite_auth_canonical(lines: Seq<Seq<u8>>, token: Seq<u8>, seen: bool)
    ensures
        forall|i: int|
            0 <= i < spec_rewrite_from(lines, token, seen).len() && is_auth_line(
                #[trigger] spec_rewrite_from(lines, token, seen)[i],
            ) ==> spec_rewrite_from(lines, token, seen)[i] == auth_header_line(token),
    decreases lines.len(),
{
    if lines.len() == 0 {
    } else {
        let l = lines[0];
        let rest = lines.drop_first();
        let out = spec_rewrite_from(lines, token, seen);
        if is_auth_line(l) {
            lemma_rewrite_auth_canonical(rest, token, true);
            assert forall|i: int|
                0 <= i < out.len() && is_auth_line(#[trigger] out[i]) implies out[i]
                == auth_header_line(token) by {
                if i > 0 {
                    assert(out[i] == spec_rewrite_from(rest, token, true)[i - 1]);
                }
            }
        } else if l.len() > 0 {
            lemma_rewrite_auth_canonical(rest, token, seen);
            assert forall|i: int|
                0 <= i < out.len() && is_auth_line(#[trigger] out[i]) implies out[i]
                == auth_header_line(token) by {
                if i > 0 {
                    assert(out[i] == spec_rewrite_from(rest, token, seen)[i - 1]);
                }
            }
        } else if seen {
            lemma_rewrite_auth_canonical(rest, token, true);
            assert forall|i: int|
                0 <= i < out.len() && is_auth_line(#[trigger] out[i]) implies out[i]
                == auth_header_line(token) by {
                if i > 0 {
                    assert(out[i] == spec_rewrite_from(rest, token, true)[i - 1]);
                }
            }
        } else {
            lemma_rewrite_auth_canonical(rest, token, false);
            assert forall|i: int|
                0 <= i < out.len() && is_auth_line(#[trigger] out[i]) implies out[i]
                == auth_header_line(token) by {
                if i > 1 {
                    assert(out[i] == spec_rewrite_from(rest, token, false)[i - 2]);
                }
            }
        }
    }
}

/// Law: a forwarded request carries `Proxy-Authorization: Basic
/// {token}` exactly once, with the token encoding the configured
/// credentials, whether or not the client sent a proxy-authorization
/// header of its own: its header block holds exactly one
/// authorization line, and every authorization line of the rewritten
/// request is the injected one.
pub proof fn lemma_forward_auth_injected(lines: Seq<Seq<u8>>, user: Seq<u8>, password: Seq<u8>)
    requires
        has_blank_line(lines),
        auth_count_before_blank(lines) <= 1,
    ensures
        auth_count_before_blank(spec_rewrite(lines, crate::auth::spec_basic_token(user, password)))
            == 1,
        forall|i: int|
            0 <= i < spec_rewrite(lines, crate::auth::spec_basic_token(user, password)).len()
                && is_auth_line(
                #[trigger] spec_rewrite(lines, crate::auth::spec_basic_token(user, password))[i],
            ) ==> spec_rewrite(lines, crate::auth::spec_basic_token(user, password))[i]
                == auth_header_line(crate::auth::spec_basic_token(user, password)),
{
    let token = crate::auth::spec_basic_token(user, password);
    lemma_rewrite_single_auth(lines, token);
    lemma_rewrite_auth_canonical(lines, token, false);
}

/// Rewriting a rewritten request once more, with an original
/// authorization line already seen, changes nothing.
proof fn lemma_rewrite_stable_seen(lines: Seq<Seq<u8>>, token: Seq<u8>, seen: bool)
    ensures
        spec_rewrite_from(spec_rewrite_from(lines, token, seen), token, true)
            == spec_rewrite_from(lines, token, seen),
    decreases lines.len(),
{
    lemma_auth_header_line_is_auth(token);
    if lines.len() == 0 {
    } else {
        let l = lines[0];
        let rest = lines.drop_first();
        if is_auth_line(l) {
            lemma_rewrite_stable_seen(rest, token, true);
            let out = seq![auth_header_line(token)] + spec_rewrite_from(rest, token, true);
            assert(out[0] == auth_header_line(token));
            assert(out.drop_first() =~~= spec_rewrite_from(rest, token, true));
            assert(spec_rewrite_from(out, token, true) =~~= out);
        } else if l.len() > 0 {
            lemma_rewrite_stable_seen(rest, token, seen);
            let out = seq![l] + spec_rewrite_from(rest, token, seen);
            assert(out[0] == l);
            assert(out.drop_first() =~~= spec_rewrite_from(rest, token, seen));
            assert(spec_rewrite_from(out, token, true) =~~= out);
        } else if seen {
            lemma_rewrite_stable_seen(rest, token, true);
            let out = seq![l] + spec_rewrite_from(rest, token, true);
            assert(out[0] == l);
            assert(out.drop_first() =~~= spec_rewrite_from(rest, token, true));
            assert(spec_rewrite_from(out, token, true) =~~= out);
        } else {
            lemma_rewrite_stable_seen(rest, token, false);
            let out = seq![auth_header_line(token), l] + spec_rewrite_from(rest, token, false);
            assert(out[0] == auth_header_line(token));
            let mid = out.drop_first();
            assert(mid =~~= seq![l] + spec_rewrite_from(rest, token, false));
            assert(mid[0] == l);
            assert(mid.drop_first() =~~= spec_rewrite_from(rest, token, false));
            assert(spec_rewrite_from(mid, token, true) =~~= mid);
            assert(spec_rewrite_from(out, token, true) =~~= out);
        }
    }
}

/// Law: the header rewrite is idempotent. Rewriting an already
/// rewritten request yields it unchanged, so the authorization
/// header is never duplicated by a second pass.
pub proof fn lemma_rewrite_idempotent(lines: Seq<Seq<u8>>, token: Seq<u8>)
    ensures
        spec_rewrite(spec_rewrite(lines, token), token) == spec_rewrite(lines, token),
    decreases lines.len(),
{
    lemma_auth_header_line_is_auth(token);
    if lines.len() == 0 {
    } else {
        let l = lines[0];
        let rest = lines.drop_first();
        if is_auth_line(l) {
            lemma_rewrite_stable_seen(rest, token, true);
            let out = seq![auth_header_line(token)] + spec_rewrite_from(rest, token, true);
            assert(out[0] == auth_header_line(token));
            assert(out.drop_first() =~~= spec_rewrite_from(rest, token, true));
            assert(spec_rewrite_from(out, token, false) =~~= out);
        } else if l.len() > 0 {
            lemma_rewrite_idempotent(rest, token);
            let out = seq![l] + spec_rewrite_from(rest, token, false);
            assert(out[0] == l);
            assert(out.drop_first() =~~= spec_rewrite_from(rest, token, false));
            assert(spec_rewrite_from(out, token, false) =~~= out);
        } else {
            lemma_rewrite_stable_seen(rest, token, false);
            let out = seq![auth_header_line(token), l] + spec_rewrite_from(rest, token, false);
            assert(out[0] == auth_header_line(token));
            let mid = out.drop_first();
            assert(mid =~~= seq![l] + spec_rewrite_from(rest, token, false));
            assert(mid[0] == l);
            assert(mid.drop_first() =~~= spec_rewrite_from(rest, token, false));
            assert(spec_rewrite_from(mid, token, true) =~~= mid);
            assert(spec_rewrite_from(out, token, false) =~~= out);
        }
    }
}

/// The lines joined with a CRLF between each pair, as a join with
/// `"\r\n"` yields them.
pub open spec fn join_crlf(lines: Seq<Seq<u8>>) -> Seq<u8>
    decreases lines.len(),
{
    if lines.len() == 0 {
        Seq::empty()
    } else if lines.len() == 1 {
        lines[0]
    } else {
        lines[0] + seq![13u8, 10u8] + join_crlf(lines.drop_first())
    }
}

/// Joining one more line appends a CRLF and that line, once the
/// sequence is non-empty.
proof fn lemma_join_crlf_push(lines: Seq<Seq<u8>>, l: Seq<u8>)
    ensures
        join_crlf(lines.push(l)) == (if lines.len() == 0 {
            l
        } else {
            join_crlf(lines) + seq![13u8, 10u8] + l
        }),
    decreases lines.len(),
{
    if lines.len() == 0 {
        assert(lines.push(l)[0] == l);
    } else {
        lemma_join_crlf_push(lines.drop_first(), l);
        assert(lines.push(l).drop_first() =~~= lines.drop_first().push(l));
        assert(lines.push(l)[0] == lines[0]);
        if lines.len() == 1 {
            assert(join_crlf(lines.push(l)) == lines[0] + seq![13u8, 10u8] + l);
        } else {
            assert(lines[0] + seq![13u8, 10u8] + (join_crlf(lines.drop_first()) + seq![
                13u8,
                10u8,
            ] + l) =~= (lines[0] + seq![13u8, 10u8] + join_crlf(lines.drop_first())) + seq![
                13u8,
                10u8,
            ] + l);
        }
    }
}

/// Join the lines with CRLF endings and close with a trailing CRLF,
/// reassembling the forwarded request.
pub fn join_lines_crlf(lines: &Vec<Vec<u8>>) -> (r: Vec<u8>)
    ensures
        r@ == join_crlf(crate::bytes::byte_views(lines@)) + seq![13u8, 10u8],
{
    let ghost all = crate::bytes::byte_views(lines@);
    let mut v: Vec<u8> = Vec::new();
    let mut i: usize = 0;
    proof {
        assert(all.take(0).len() == 0);
        assert(v@ =~= join_crlf(all.take(0)));
    }
    while i < lines.len()
        invariant
            i <= lines.len(),
            all == crate::bytes::byte_views(lines@),
            v@ == join_crlf(all.take(i as int)),
        decreases lines.len() - i,
    {
        let l: &Vec<u8> = &lines[i];
        proof {
            assert(all[i as int] == l@);
        }
        if i > 0 {
            v.push(13);
            v.push(10);
        }
        crate::bytes::push_all(&mut v, l.as_slice());
        proof {
            assert(all.take(i as int).push(all[i as int]) =~~= all.take(i as int + 1));
            lemma_join_crlf_push(all.take(i as int), all[i as int]);
            assert(v@ =~= join_crlf(all.take(i as int + 1)));
        }
        i = i + 1;
    }
    v.push(13);
    v.push(10);
    proof {
        assert(all.take(lines@.len() as int) =~~= all);
        assert(v@ =~= join_crlf(all) + seq![13u8, 10u8]);
    }
    v
}

/// The injected header line contains no line feed when the token
/// contains none.
proof fn lemma_auth_header_line_lf_free(token: Seq<u8>)
    requires
        forall|j: int| 0 <= j < token.len() ==> token[j] != 10,
    ensures
        forall|j: int|
            0 <= j < auth_header_line(token).len() ==> #[trigger] auth_header_line(token)[j] != 10,
{
    assert forall|j: int|
        0 <= j < auth_header_line(token).len() implies #[trigger] auth_header_line(token)[j]
        != 10 by {
        if j < 27 {
            assert(auth_header_line(token)[j] == crate::wire::spec_auth_basic_prefix()[j]);
        } else {
            assert(auth_header_line(token)[j] == token[j - 27]);
        }
    }
}

/// Putting one line without a line feed in front keeps the whole
/// free of line feeds.
proof fn lemma_lf_free_cons(x: Seq<u8>, t: Seq<Seq<u8>>)
    requires
        forall|j: int| 0 <= j < x.len() ==> x[j] != 10,
        crate::bytes::lf_free(t),
    ensures
        crate::bytes::lf_free(seq![x] + t),
{
    let out = seq![x] + t;
    assert forall|i: int, j: int|
        0 <= i < out.len() && 0 <= j < out[i].len() implies #[trigger] out[i][j] != 10 by {
        if i == 0 {
            assert(out[0] == x);
        } else {
            assert(out[i] == t[i - 1]);
            assert(t[i - 1][j] != 10);
        }
    }
}

/// The rewrite keeps the lines free of line feeds, for a token free
/// of them.
proof fn lemma_rewrite_lf_free(lines: Seq<Seq<u8>>, token: Seq<u8>, seen: bool)
    requires
        crate::bytes::lf_free(lines),
        forall|j: int| 0 <= j < token.len() ==> token[j] != 10,
    ensures
        crate::bytes::lf_free(spec_rewrite_from(lines, token, seen)),
    decreases lines.len(),
{
    lemma_auth_header_line_lf_free(token);
    if lines.len() == 0 {
    } else {
        let l = lines[0];
        let rest = lines.drop_first();
        crate::bytes::lemma_lf_free_drop_first(lines);
        assert forall|j: int| 0 <= j < l.len() implies l[j] != 10 by {
            assert(lines[0][j] != 10);
        }
        if is_auth_line(l) {
            lemma_rewrite_lf_free(rest, token, true);
            lemma_lf_free_cons(auth_header_line(token), spec_rewrite_from(rest, token, true));
        } else if l.len() > 0 {
            lemma_rewrite_lf_free(rest, token, seen);
            lemma_lf_free_cons(l, spec_rewrite_from(rest, token, seen));
        } else if seen {
            lemma_rewrite_lf_free(rest, token, true);
            lemma_lf_free_cons(l, spec_rewrite_from(rest, token, true));
        } else {
            lemma_rewrite_lf_free(rest, token, false);
            lemma_lf_free_cons(l, spec_rewrite_from(rest, token, false));
            lemma_lf_free_cons(
                auth_header_line(token),
                seq![l] + spec_rewrite_from(rest, token, false),
            );
            assert(seq![auth_header_line(token), l] + spec_rewrite_from(rest, token, false)
                =~~= seq![auth_header_line(token)] + (seq![l] + spec_rewrite_from(
                rest,
                token,
                false,
            )));
        }
    }
}

/// Law: splitting the joined lines yields them back unchanged. The
/// CRLF join with its trailing CRLF is inverted exactly by the line
/// split, for lines free of line feeds.
pub proof fn lemma_lines_roundtrip(lines: Seq<Seq<u8>>)
    requires
        lines.len() > 0,
        crate::bytes::lf_free(lines),
    ensures
        crate::bytes::spec_lines(join_crlf(lines) + seq![13u8, 10u8]) == lines,
    decreases lines.len(),
{
    let l0 = lines[0];
    let s = join_crlf(lines) + seq![13u8, 10u8];
    assert forall|j: int| 0 <= j < l0.len() implies l0[j] != 10 by {
        assert(lines[0][j] != 10);
    }
    if lines.len() == 1 {
        assert(s =~= l0 + seq![13u8, 10u8]);
        assert forall|j: int| 0 <= j < l0.len() + 1 implies s[j] != 10 by {
            if j < l0.len() {
                assert(s[j] == l0[j]);
            } else {
                assert(s[j] == 13u8);
            }
        }
        assert(s[l0.len() as int + 1] == 10u8);
        crate::bytes::lemma_first_lf_at(s, l0.len() as int + 1);
        let e = l0.len() as int + 1;
        assert(s.take(e) =~= l0 + seq![13u8]);
        assert(crate::bytes::strip_cr(s.take(e)) =~= l0);
        assert(s.skip(e + 1) =~= Seq::<u8>::empty());
        assert(crate::bytes::spec_lines(s.skip(e + 1)) == Seq::<Seq<u8>>::empty());
        assert(crate::bytes::spec_lines(s) =~~= lines);
    } else {
        let rest = lines.drop_first();
        crate::bytes::lemma_lf_free_drop_first(lines);
        lemma_lines_roundtrip(rest);
        let s2 = join_crlf(rest) + seq![13u8, 10u8];
        assert(s =~= l0 + seq![13u8, 10u8] + s2);
        assert forall|j: int| 0 <= j < l0.len() + 1 implies s[j] != 10 by {
            if j < l0.len() {
                assert(s[j] == l0[j]);
            } else {
                assert(s[j] == 13u8);
            }
        }
        assert(s[l0.len() as int + 1] == 10u8);
        crate::bytes::lemma_first_lf_at(s, l0.len() as int + 1);
        let e = l0.len() as int + 1;
        assert(s.take(e) =~= l0 + seq![13u8]);
        assert(crate::bytes::strip_cr(s.take(e)) =~= l0);
        assert(s.skip(e + 1) =~= s2);
        assert(crate::bytes::spec_lines(s) == seq![l0] + crate::bytes::spec_lines(s2));
        assert(crate::bytes::spec_lines(s) =~~= lines);
    }
}

/// Law: building the forwarded request is idempotent at the byte
/// level. Splitting, rewriting and reassembling an already rewritten
/// request yields the same bytes, so a second pass never changes the
/// request nor duplicates the injected header. The token is free of
/// line feeds, as every base64 token is.
pub proof fn lemma_forward_request_idempotent(req: Seq<u8>, token: Seq<u8>)
    requires
        req.len() > 0,
        forall|j: int| 0 <= j < token.len() ==> token[j] != 10,
    ensures
        spec_forward_request(spec_forward_request(req, token), token) == spec_forward_request(
            req,
            token,
        ),
{
    let lines = crate::bytes::spec_lines(req);
    let rewritten = spec_rewrite(lines, token);
    crate::bytes::lemma_spec_lines_lf_free(req);
    lemma_rewrite_lf_free(lines, token, false);
    assert(lines.len() > 0);
    assert(rewritten.len() > 0);
    lemma_lines_roundtrip(rewritten);
    assert(crate::bytes::spec_lines(spec_forward_request(req, token)) == rewritten);
    lemma_rewrite_idempotent(lines, token);
}

/// Law: the bytes sent to the upstream proxy carry the authorization
/// header exactly once. For a request whose lines hold a blank line
/// ending the headers and at most one client-supplied authorization
/// line before it, the header block of the outgoing bytes holds
/// exactly one authorization line. The token is free of line feeds,
/// as every base64 token is.
pub proof fn lemma_forward_request_single_auth(req: Seq<u8>, token: Seq<u8>)
    requires
        req.len() > 0,
        forall|j: int| 0 <= j < token.len() ==> token[j] != 10,
        has_blank_line(crate::bytes::spec_lines(req)),
        auth_count_before_blank(crate::bytes::spec_lines(req)) <= 1,
    ensures
        auth_count_before_blank(
            crate::bytes::spec_lines(spec_forward_request(req, token)),
        ) == 1,
{
    let lines = crate::bytes::spec_lines(req);
    let rewritten = spec_rewrite(lines, token);
    crate::bytes::lemma_spec_lines_lf_free(req);
    lemma_rewrite_lf_free(lines, token, false);
    assert(lines.len() > 0);
    assert(rewritten.len() > 0);
    lemma_lines_roundtrip(rewritten);
    assert(crate::bytes::spec_lines(spec_forward_request(req, token)) == rewritten);
    lemma_rewrite_single_auth(lines, token);
}

/// The full rewritten request sent to the upstream proxy.
pub open spec fn spec_forward_request(req: Seq<u8>, token: Seq<u8>) -> Seq<u8> {
    join_crlf(spec_rewrite(crate::bytes::spec_lines(req), token)) + seq![13u8, 10u8]
}

/// Parse a plain request, override or inject the upstream
/// authorization header, and reassemble the request with CRLF line
/// endings. An empty request and a request line of fewer than three
/// tokens are rejected before any upstream work.
pub fn prepare_forward_request(req: &[u8], token: &[u8]) -> (r: Result<Vec<u8>, ProxyError>)
    ensures
        req@.len() == 0 ==> r == Err::<Vec<u8>, ProxyError>(ProxyError::EmptyRequest),
        req@.len() > 0 && crate::bytes::spec_tokens(crate::bytes::spec_lines(req@)[0]).len() < 3
            ==> r == Err::<Vec<u8>, ProxyError>(ProxyError::MalformedRequest),
        req@.len() > 0 && crate::bytes::spec_tokens(crate::bytes::spec_lines(req@)[0]).len() >= 3
            ==> (r matches Ok(v) && v@ == spec_forward_request(req@, token@)),
{
    let lines = crate::bytes::split_lines(req);
    proof {
        assert(crate::bytes::byte_views(lines@).len() == lines@.len());
    }
    if lines.len() == 0 {
        proof {
            assert(crate::bytes::spec_lines(req@).len() == 0);
            if req@.len() > 0 {
                assert(crate::bytes::spec_lines(req@).len() > 0);
            }
        }
        return Err(ProxyError::EmptyRequest);
    }
    proof {
        if req@.len() == 0 {
            assert(crate::bytes::spec_lines(req@) == Seq::<Seq<u8>>::empty());
        }
        assert(req@.len() > 0);
    }
    let head: &Vec<u8> = &lines[0];
    proof {
        assert(crate::bytes::byte_views(lines@)[0] == head@);
    }
    let toks = crate::bytes::split_ws(head.as_slice());
    if toks.len() < 3 {
        return Err(ProxyError::MalformedRequest);
    }
    let rewritten = rewrite_lines(&lines, token);
    let out = join_lines_crlf(&rewritten);
    Ok(out)
}

} // verus!
