use vstd::prelude::*;

verus! {

/// Line feed.
pub const LF: u8 = 10;
/// Carriage return.
pub const CR: u8 = 13;

/// An ASCII byte that Rust counts as whitespace.
pub open spec fn is_ws(b: u8) -> bool {
    b == 32 || (9 <= b && b <= 13)
}

/// Index of the first line feed in `s`, or `s.len()` if there is none.
pub open spec fn first_lf(s: Seq<u8>) -> nat
    decreases s.len(),
{
    if s.len() == 0 {
        0
    } else if s[0] == LF {
        0
    } else {
        first_lf(s.drop_first()) + 1
    }
}

/// Index of the first whitespace byte in `s`, or `s.len()` if there is none.
pub open spec fn first_ws(s: Seq<u8>) -> nat
    decreases s.len(),
{
    if s.len() == 0 {
        0
    } else if is_ws(s[0]) {
        0
    } else {
        first_ws(s.drop_first()) + 1
    }
}

/// `first_lf(s)` is exactly the position of the first line feed.
pub proof fn lemma_first_lf_at(s: Seq<u8>, k: int)
    requires
        0 <= k <= s.len(),
        forall|j: int| 0 <= j < k ==> s[j] != LF,
        k < s.len() ==> s[k] == LF,
    ensures
        first_lf(s) == k,
    decreases s.len(),
{
    if s.len() == 0 {
    } else if k == 0 {
    } else {
        assert(s[0] != LF);
        assert forall|j: int| 0 <= j < k - 1 implies s.drop_first()[j] != LF by {
            assert(s.drop_first()[j] == s[j + 1]);
        }
        if k - 1 < s.drop_first().len() {
            assert(s.drop_first()[k - 1] == s[k]);
        }
        lemma_first_lf_at(s.drop_first(), k - 1);
    }
}

/// `first_ws(s)` is exactly the position of the first whitespace byte.
pub proof fn lemma_first_ws_at(s: Seq<u8>, k: int)
    requires
        0 <= k <= s.len(),
        forall|j: int| 0 <= j < k ==> !is_ws(s[j]),
        k < s.len() ==> is_ws(s[k]),
    ensures
        first_ws(s) == k,
    decreases s.len(),
{
    if s.len() == 0 {
    } else if k == 0 {
    } else {
        assert(!is_ws(s[0]));
        assert forall|j: int| 0 <= j < k - 1 implies !is_ws(s.drop_first()[j]) by {
            assert(s.drop_first()[j] == s[j + 1]);
        }
        if k - 1 < s.drop_first().len() {
            assert(s.drop_first()[k - 1] == s[k]);
        }
        lemma_first_ws_at(s.drop_first(), k - 1);
    }
}

/// One trailing carriage return removed, as `str::lines` strips it
/// before a line feed.
pub open spec fn strip_cr(l: Seq<u8>) -> Seq<u8> {
    if l.len() > 0 && l[l.len() - 1] == CR {
        l.drop_last()
    } else {
        l
    }
}

/// The lines of `s`, split as Rust's `str::lines` splits text: at each
/// line feed, with one carriage return stripped before it; a final line
/// feed closes the last line, and a trailing piece without a line feed
/// is a line of its own.
pub open spec fn spec_lines(s: Seq<u8>) -> Seq<Seq<u8>>
    decreases s.len(),
{
    if s.len() == 0 {
        Seq::empty()
    } else {
        let e = first_lf(s) as int;
        if e >= s.len() {
            seq![s]
        } else {
            seq![strip_cr(s.take(e))] + spec_lines(s.skip(e + 1))
        }
    }
}

/// The whitespace-separated tokens of `s`, as Rust's
/// `str::split_whitespace` yields them for ASCII text.
pub open spec fn spec_tokens(s: Seq<u8>) -> Seq<Seq<u8>>
    decreases s.len(),
{
    if s.len() == 0 {
        Seq::empty()
    } else if is_ws(s[0]) {
        spec_tokens(s.drop_first())
    } else {
        let e = first_ws(s) as int;
        if e >= s.len() {
            seq![s]
        } else {
            seq![s.take(e)] + spec_tokens(s.skip(e))
        }
    }
}

/// No line feed occurs before `first_lf(s)`, which never passes the
/// end of `s`.
pub proof fn lemma_first_lf_bounds(s: Seq<u8>)
    ensures
        first_lf(s) <= s.len(),
        forall|j: int| 0 <= j < first_lf(s) ==> s[j] != LF,
    decreases s.len(),
{
    if s.len() == 0 {
    } else if s[0] == LF {
    } else {
        lemma_first_lf_bounds(s.drop_first());
        assert forall|j: int| 0 <= j < first_lf(s) implies s[j] != LF by {
            if j > 0 {
                assert(s.drop_first()[j - 1] == s[j]);
            }
        }
    }
}

/// Whether no line of the sequence contains a line feed.
pub open spec fn lf_free(lines: Seq<Seq<u8>>) -> bool {
    forall|i: int, j: int|
        0 <= i < lines.len() && 0 <= j < lines[i].len() ==> #[trigger] lines[i][j] != LF
}

/// The lines of any text are free of line feeds.
pub proof fn lemma_spec_lines_lf_free(s: Seq<u8>)
    ensures
        lf_free(spec_lines(s)),
    decreases s.len(),
{
    if s.len() == 0 {
    } else {
        lemma_first_lf_bounds(s);
        let e = first_lf(s) as int;
        if e >= s.len() {
            assert forall|i: int, j: int|
                0 <= i < spec_lines(s).len() && 0 <= j < spec_lines(s)[i].len() implies #[trigger] spec_lines(
                s,
            )[i][j] != LF by {
                assert(spec_lines(s)[i] == s);
                assert(s[j] != LF);
            }
        } else {
            lemma_spec_lines_lf_free(s.skip(e + 1));
            let head = strip_cr(s.take(e));
            assert forall|i: int, j: int|
                0 <= i < spec_lines(s).len() && 0 <= j < spec_lines(s)[i].len() implies #[trigger] spec_lines(
                s,
            )[i][j] != LF by {
                if i == 0 {
                    assert(spec_lines(s)[0] == head);
                    assert(head[j] == s.take(e)[j]);
                    assert(s.take(e)[j] == s[j]);
                } else {
                    assert(spec_lines(s)[i] == spec_lines(s.skip(e + 1))[i - 1]);
                }
            }
        }
    }
}

/// Dropping the first line keeps the rest free of line feeds.
pub proof fn lemma_lf_free_drop_first(lines: Seq<Seq<u8>>)
    requires
        lines.len() > 0,
        lf_free(lines),
    ensures
        lf_free(lines.drop_first()),
{
    assert forall|i: int, j: int|
        0 <= i < lines.drop_first().len() && 0 <= j < lines.drop_first()[i].len() implies #[trigger] lines.drop_first()[i][j]
        != LF by {
        assert(lines.drop_first()[i] == lines[i + 1]);
        assert(lines[i + 1][j] != LF);
    }
}

/// The views of a sequence of byte vectors.
pub open spec fn byte_views(s: Seq<Vec<u8>>) -> Seq<Seq<u8>> {
    Seq::new(s.len(), |i: int| s[i]@)
}

/// Split `buf` into its lines, as `str::lines` would for text.
pub fn split_lines(buf: &[u8]) -> (r: Vec<Vec<u8>>)
    ensures
        byte_views(r@) == spec_lines(buf@),
{
    let mut r: Vec<Vec<u8>> = Vec::new();
    let mut pos: usize = 0;
    proof {
        assert(buf@.skip(0) =~= buf@);
        assert(byte_views(r@) + spec_lines(buf@) =~~= spec_lines(buf@));
    }
    while pos < buf.len()
        invariant
            pos <= buf.len(),
            spec_lines(buf@) == byte_views(r@) + spec_lines(buf@.skip(pos as int)),
        decreases buf.len() - pos,
    {
        let ghost pos0: int = pos as int;
        let ghost suffix: Seq<u8> = buf@.skip(pos0);
        // find the next line feed
        let mut j: usize = pos;
        while j < buf.len() && buf[j] != LF
            invariant
                pos <= j <= buf.len(),
                forall|t: int| pos <= t < j ==> buf@[t] != LF,
            decreases buf.len() - j,
        {
            j = j + 1;
        }
        let ghost e: int = j - pos0;
        proof {
            assert forall|t: int| 0 <= t < e implies suffix[t] != LF by {
                assert(suffix[t] == buf@[pos0 + t]);
            }
            if e < suffix.len() {
                assert(suffix[e] == buf@[j as int]);
            }
            lemma_first_lf_at(suffix, e);
        }
        // copy the line, stripping one carriage return before a line feed
        let end: usize = if j < buf.len() && j > pos && buf[j - 1] == CR {
            j - 1
        } else {
            j
        };
        let mut line: Vec<u8> = Vec::new();
        let mut k: usize = pos;
        proof {
            assert(line@ =~= buf@.subrange(pos0, pos0));
        }
        while k < end
            invariant
                pos <= k <= end <= buf.len(),
                line@ == buf@.subrange(pos as int, k as int),
            decreases end - k,
        {
            line.push(buf[k]);
            proof {
                assert(line@ =~= buf@.subrange(pos as int, k as int + 1));
            }
            k = k + 1;
        }
        let ghost lv: Seq<u8> = line@;
        let ghost r0: Seq<Vec<u8>> = r@;
        r.push(line);
        if j < buf.len() {
            pos = j + 1;
        } else {
            pos = j;
        }
        proof {
            assert(byte_views(r@) =~~= byte_views(r0).push(lv));
            let tk = suffix.take(e);
            assert(tk =~= buf@.subrange(pos0, pos0 + e));
            if j < buf.len() {
                // a line feed was found at j
                if end < j {
                    // a carriage return precedes it and is stripped
                    assert(tk[e - 1] == buf@[pos0 + e - 1]);
                    assert(strip_cr(tk) =~= tk.drop_last());
                    assert(strip_cr(tk) =~= lv);
                } else {
                    if e > 0 {
                        assert(tk[e - 1] == buf@[pos0 + e - 1]);
                    }
                    assert(strip_cr(tk) =~= lv);
                }
                assert(suffix.skip(e + 1) =~= buf@.skip(pos as int));
                assert(spec_lines(suffix) == seq![strip_cr(tk)] + spec_lines(buf@.skip(pos as int)));
                assert(spec_lines(buf@) =~~= byte_views(r@) + spec_lines(buf@.skip(pos as int)));
            } else {
                // no line feed in the rest of the buffer
                assert(e == suffix.len());
                assert(lv =~= suffix);
                assert(spec_lines(suffix) == seq![suffix]);
                assert(buf@.skip(pos as int) =~= Seq::<u8>::empty());
                assert(spec_lines(buf@.skip(pos as int)) == Seq::<Seq<u8>>::empty());
                assert(spec_lines(buf@) =~~= byte_views(r@) + spec_lines(buf@.skip(pos as int)));
            }
        }
    }
    proof {
        assert(buf@.skip(pos as int) =~= Seq::<u8>::empty());
        assert(spec_lines(buf@.skip(pos as int)) == Seq::<Seq<u8>>::empty());
        assert(byte_views(r@) =~~= spec_lines(buf@));
    }
    r
}

/// Split `line` into its whitespace-separated tokens.
pub fn split_ws(line: &[u8]) -> (r: Vec<Vec<u8>>)
    ensures
        byte_views(r@) == spec_tokens(line@),
{
    let mut r: Vec<Vec<u8>> = Vec::new();
    let mut pos: usize = 0;
    proof {
        assert(line@.skip(0) =~= line@);
        assert(byte_views(r@) + spec_tokens(line@) =~~= spec_tokens(line@));
    }
    while pos < line.len()
        invariant
            pos <= line.len(),
            spec_tokens(line@) == byte_views(r@) + spec_tokens(line@.skip(pos as int)),
        decreases line.len() - pos,
    {
        let ghost pos0: int = pos as int;
        let ghost suffix: Seq<u8> = line@.skip(pos0);
        let b = line[pos];
        proof {
            assert(suffix[0] == line@[pos0]);
        }
        if b == 32 || (9 <= b && b <= 13) {
            proof {
                assert(is_ws(suffix[0]));
                assert(suffix.drop_first() =~= line@.skip(pos0 + 1));
                assert(spec_tokens(suffix) == spec_tokens(line@.skip(pos0 + 1)));
            }
            pos = pos + 1;
        } else {
            // scan to the end of the token
            let mut j: usize = pos;
            while j < line.len() && !(line[j] == 32 || (9 <= line[j] && line[j] <= 13))
                invariant
                    pos <= j <= line.len(),
                    forall|t: int| pos <= t < j ==> !is_ws(line@[t]),
                decreases line.len() - j,
            {
                j = j + 1;
            }
            let ghost e: int = j - pos0;
            proof {
                assert forall|t: int| 0 <= t < e implies !is_ws(suffix[t]) by {
                    assert(suffix[t] == line@[pos0 + t]);
                }
                if e < suffix.len() {
                    assert(suffix[e] == line@[j as int]);
                }
                lemma_first_ws_at(suffix, e);
            }
            let mut token: Vec<u8> = Vec::new();
            let mut k: usize = pos;
            proof {
                assert(token@ =~= line@.subrange(pos0, pos0));
            }
            while k < j
                invariant
                    pos <= k <= j <= line.len(),
                    token@ == line@.subrange(pos as int, k as int),
                decreases j - k,
            {
                token.push(line[k]);
                proof {
                    assert(token@ =~= line@.subrange(pos as int, k as int + 1));
                }
                k = k + 1;
            }
            let ghost tv: Seq<u8> = token@;
            let ghost r0: Seq<Vec<u8>> = r@;
            r.push(token);
            pos = j;
            proof {
                assert(byte_views(r@) =~~= byte_views(r0).push(tv));
                assert(!is_ws(suffix[0]));
                if e < suffix.len() {
                    assert(tv =~= suffix.take(e));
                    assert(suffix.skip(e) =~= line@.skip(pos as int));
                    assert(spec_tokens(suffix) == seq![suffix.take(e)] + spec_tokens(line@.skip(pos as int)));
                    assert(spec_tokens(line@) =~~= byte_views(r@) + spec_tokens(line@.skip(pos as int)));
                } else {
                    assert(e == suffix.len());
                    assert(tv =~= suffix);
                    assert(spec_tokens(suffix) == seq![suffix]);
                    assert(line@.skip(pos as int) =~= Seq::<u8>::empty());
                    assert(spec_tokens(line@.skip(pos as int)) == Seq::<Seq<u8>>::empty());
                    assert(spec_tokens(line@) =~~= byte_views(r@) + spec_tokens(line@.skip(pos as int)));
                }
            }
        }
    }
    proof {
        assert(line@.skip(pos as int) =~= Seq::<u8>::empty());
        assert(spec_tokens(line@.skip(pos as int)) == Seq::<Seq<u8>>::empty());
        assert(byte_views(r@) =~~= spec_tokens(line@));
    }
    r
}

/// Whether `s` begins with `p`.
pub fn begins_with(s: &[u8], p: &[u8]) -> (r: bool)
    ensures
        r == (s@.len() >= p@.len() && s@.take(p@.len() as int) == p@),
{
    if s.len() < p.len() {
        return false;
    }
    let mut i: usize = 0;
    while i < p.len()
        invariant
            i <= p.len() <= s.len(),
            forall|t: int| 0 <= t < i ==> s@[t] == p@[t],
        decreases p.len() - i,
    {
        if s[i] != p[i] {
            proof {
                assert(s@.take(p@.len() as int)[i as int] == s@[i as int]);
            }
            return false;
        }
        i = i + 1;
    }
    proof {
        assert(s@.take(p@.len() as int) =~= p@);
    }
    true
}

/// Append all of `src` to `dst`.
pub fn push_all(dst: &mut Vec<u8>, src: &[u8])
    ensures
        final(dst)@ == old(dst)@ + src@,
{
    proof {
        assert(dst@ =~= old(dst)@ + src@.take(0));
    }
    let mut i: usize = 0;
    while i < src.len()
        invariant
            i <= src.len(),
            dst@ == old(dst)@ + src@.take(i as int),
        decreases src.len() - i,
    {
        dst.push(src[i]);
        proof {
            assert(dst@ =~= old(dst)@ + src@.take(i as int + 1));
        }
        i = i + 1;
    }
    proof {
        assert(dst@ =~= old(dst)@ + src@);
    }
}

/// A copy of `s` as a vector.
pub fn copy_bytes(s: &[u8]) -> (r: Vec<u8>)
    ensures
        r@ == s@,
{
    let mut r: Vec<u8> = Vec::new();
    push_all(&mut r, s);
    proof {
        assert(r@ =~= s@);
    }
    r
}

} // verus!
