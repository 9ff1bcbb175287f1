//! The uplink client's wire framing: the hand-built HTTP request and the
//! manual parse of the raw response.
//!
//! The request is a fixed textual frame — method line, Host, User-Agent,
//! Accept, Content-Type and Content-Length headers, a blank line, then the
//! serialized envelope body — with the Content-Length field equal, by the
//! very shape of `spec_request`, to the body's byte length. The
//! response is parsed by the same fixed grammar the device has always
//! used: the first line's second space-separated token is the status code;
//! lines up to the first blank line are headers; non-blank lines after it
//! are the body. There is no support for chunked transfer encoding or
//! multi-line headers.

use crate::json::spec_envelope_json;
use crate::json::encode_envelope;
use crate::numfmt::{fmt_u64, parse_u16, spec_dec_nat, spec_dec_value, spec_all_digits};
use crate::types::MetricRequestBody;
use vstd::prelude::*;

verus! {

/// The bytes of `POST /metric HTTP/1.1\r\nHost: `.
pub open spec fn spec_lit_req_head() -> Seq<u8> {
    seq![80u8, 79u8, 83u8, 84u8, 32u8, 47u8, 109u8, 101u8, 116u8, 114u8, 105u8, 99u8, 32u8, 72u8, 84u8, 84u8, 80u8, 47u8, 49u8, 46u8, 49u8, 13u8, 10u8, 72u8, 111u8, 115u8, 116u8, 58u8, 32u8]
}

/// Appends the bytes of `POST /metric HTTP/1.1\r\nHost: `.
fn push_lit_req_head(v: &mut Vec<u8>)
    ensures
        final(v)@ == old(v)@ + spec_lit_req_head(),
{
    v.push(80);
    v.push(79);
    v.push(83);
    v.push(84);
    v.push(32);
    v.push(47);
    v.push(109);
    v.push(101);
    v.push(116);
    v.push(114);
    v.push(105);
    v.push(99);
    v.push(32);
    v.push(72);
    v.push(84);
    v.push(84);
    v.push(80);
    v.push(47);
    v.push(49);
    v.push(46);
    v.push(49);
    v.push(13);
    v.push(10);
    v.push(72);
    v.push(111);
    v.push(115);
    v.push(116);
    v.push(58);
    v.push(32);
    proof {
        assert(v@ =~= old(v)@ + spec_lit_req_head());
    }
}

/// The bytes of `\r\nUser-Agent: esp32\r\nAccept: */*\r\nContent-Type: application/json\r\nContent-Length: `.
pub open spec fn spec_lit_req_mid() -> Seq<u8> {
    seq![13u8, 10u8, 85u8, 115u8, 101u8, 114u8, 45u8, 65u8, 103u8, 101u8, 110u8, 116u8, 58u8, 32u8, 101u8, 115u8, 112u8, 51u8, 50u8, 13u8, 10u8, 65u8, 99u8, 99u8, 101u8, 112u8, 116u8, 58u8, 32u8, 42u8, 47u8, 42u8, 13u8, 10u8, 67u8, 111u8, 110u8, 116u8, 101u8, 110u8, 116u8, 45u8, 84u8, 121u8, 112u8, 101u8, 58u8, 32u8, 97u8, 112u8, 112u8, 108u8, 105u8, 99u8, 97u8, 116u8, 105u8, 111u8, 110u8, 47u8, 106u8, 115u8, 111u8, 110u8, 13u8, 10u8, 67u8, 111u8, 110u8, 116u8, 101u8, 110u8, 116u8, 45u8, 76u8, 101u8, 110u8, 103u8, 116u8, 104u8, 58u8, 32u8]
}

/// Appends the bytes of `\r\nUser-Agent: esp32\r\nAccept: */*\r\nContent-Type: application/json\r\nContent-Length: `.
#[verifier::rlimit(100)]
fn push_lit_req_mid(v: &mut Vec<u8>)
    ensures
        final(v)@ == old(v)@ + spec_lit_req_mid(),
{
    v.push(13);
    v.push(10);
    v.push(85);
    v.push(115);
    v.push(101);
    v.push(114);
    v.push(45);
    v.push(65);
    v.push(103);
    v.push(101);
    v.push(110);
    v.push(116);
    v.push(58);
    v.push(32);
    v.push(101);
    v.push(115);
    v.push(112);
    v.push(51);
    v.push(50);
    v.push(13);
    v.push(10);
    v.push(65);
    v.push(99);
    v.push(99);
    v.push(101);
    v.push(112);
    v.push(116);
    v.push(58);
    v.push(32);
    v.push(42);
    v.push(47);
    v.push(42);
    v.push(13);
    v.push(10);
    v.push(67);
    v.push(111);
    v.push(110);
    v.push(116);
    v.push(101);
    v.push(110);
    v.push(116);
    v.push(45);
    v.push(84);
    v.push(121);
    v.push(112);
    v.push(101);
    v.push(58);
    v.push(32);
    v.push(97);
    v.push(112);
    v.push(112);
    v.push(108);
    v.push(105);
    v.push(99);
    v.push(97);
    v.push(116);
    v.push(105);
    v.push(111);
    v.push(110);
    v.push(47);
    v.push(106);
    v.push(115);
    v.push(111);
    v.push(110);
    v.push(13);
    v.push(10);
    v.push(67);
    v.push(111);
    v.push(110);
    v.push(116);
    v.push(101);
    v.push(110);
    v.push(116);
    v.push(45);
    v.push(76);
    v.push(101);
    v.push(110);
    v.push(103);
    v.push(116);
    v.push(104);
    v.push(58);
    v.push(32);
    proof {
        assert(v@ =~= old(v)@ + spec_lit_req_mid());
    }
}

/// The bytes of `\r\n\r\n`.
pub open spec fn spec_lit_req_blank() -> Seq<u8> {
    seq![13u8, 10u8, 13u8, 10u8]
}

/// Appends the bytes of `\r\n\r\n`.
fn push_lit_req_blank(v: &mut Vec<u8>)
    ensures
        final(v)@ == old(v)@ + spec_lit_req_blank(),
{
    v.push(13);
    v.push(10);
    v.push(13);
    v.push(10);
    proof {
        assert(v@ =~= old(v)@ + spec_lit_req_blank());
    }
}

/// The bytes of `HTTP/1.1 `.
pub open spec fn spec_lit_status_prefix() -> Seq<u8> {
    seq![72u8, 84u8, 84u8, 80u8, 47u8, 49u8, 46u8, 49u8, 32u8]
}

/// Appends the bytes of `HTTP/1.1 `.
fn push_lit_status_prefix(v: &mut Vec<u8>)
    ensures
        final(v)@ == old(v)@ + spec_lit_status_prefix(),
{
    v.push(72);
    v.push(84);
    v.push(84);
    v.push(80);
    v.push(47);
    v.push(49);
    v.push(46);
    v.push(49);
    v.push(32);
    proof {
        assert(v@ =~= old(v)@ + spec_lit_status_prefix());
    }
}

/// The bytes of ` OK`.
pub open spec fn spec_lit_status_suffix() -> Seq<u8> {
    seq![32u8, 79u8, 75u8]
}

/// Appends the bytes of ` OK`.
fn push_lit_status_suffix(v: &mut Vec<u8>)
    ensures
        final(v)@ == old(v)@ + spec_lit_status_suffix(),
{
    v.push(32);
    v.push(79);
    v.push(75);
    proof {
        assert(v@ =~= old(v)@ + spec_lit_status_suffix());
    }
}
/// The whole request frame for a given collector address and body.
pub open spec fn spec_request(server: Seq<u8>, body: Seq<u8>) -> Seq<u8> {
    spec_lit_req_head() + server + spec_lit_req_mid() + spec_dec_nat(body.len()) + spec_lit_req_blank()
        + body + seq![13u8, 10u8]
}

/// Builds the request frame around an already-serialized body. The
/// Content-Length field is the decimal rendering of exactly `body`'s
/// length.
pub fn build_metric_request(server: &Vec<u8>, body: &Vec<u8>) -> (r: Vec<u8>)
    ensures
        r@ == spec_request(server@, body@),
{
    let mut v: Vec<u8> = Vec::new();
    push_lit_req_head(&mut v);
    let mut s = Vec::new();
    let mut i: usize = 0;
    while i < server.len()
        invariant
            i <= server@.len(),
            s@ == server@.take(i as int),
        decreases server@.len() - i,
    {
        s.push(server[i]);
        proof {
            assert(server@.take(i as int + 1) =~= server@.take(i as int).push(server@[i as int]));
        }
        i = i + 1;
    }
    proof {
        assert(server@.take(server@.len() as int) =~= server@);
    }
    v.append(&mut s);
    push_lit_req_mid(&mut v);
    let mut n = fmt_u64(body.len() as u64);
    v.append(&mut n);
    push_lit_req_blank(&mut v);
    let mut b = Vec::new();
    let mut j: usize = 0;
    while j < body.len()
        invariant
            j <= body@.len(),
            b@ == body@.take(j as int),
        decreases body@.len() - j,
    {
        b.push(body[j]);
        proof {
            assert(body@.take(j as int + 1) =~= body@.take(j as int).push(body@[j as int]));
        }
        j = j + 1;
    }
    proof {
        assert(body@.take(body@.len() as int) =~= body@);
    }
    v.append(&mut b);
    v.push(13);
    v.push(10);
    proof {
        assert(v@ =~= spec_request(server@, body@));
    }
    v
}


/// The request frame's Content-Length field: right after the fixed header
/// text the frame carries decimal digits whose value is exactly the
/// serialized body's byte length.
pub proof fn lemma_request_content_length(server: Seq<u8>, body: Seq<u8>)
    ensures
        ({
            let i = spec_lit_req_head().len() + server.len() + spec_lit_req_mid().len();
            let d = spec_dec_nat(body.len());
            &&& spec_request(server, body).subrange(i as int, i as int + d.len() as int) == d
            &&& spec_all_digits(d)
            &&& spec_dec_value(d) == body.len()
        }),
{
    let i = spec_lit_req_head().len() + server.len() + spec_lit_req_mid().len();
    let d = spec_dec_nat(body.len());
    crate::numfmt::lemma_dec_nat_all_digits(body.len());
    crate::numfmt::lemma_dec_value_of_dec_nat(body.len());
    assert(spec_request(server, body).subrange(i as int, i as int + d.len() as int) =~= d);
}

/// Serializes one envelope and frames the request around it.
pub fn build_envelope_request(server: &Vec<u8>, e: &MetricRequestBody) -> (r: Vec<u8>)
    ensures
        r@ == spec_request(server@, spec_envelope_json(*e)),
{
    let body = encode_envelope(e);
    build_metric_request(server, &body)
}


/// The views of a sequence of byte vectors.
pub open spec fn views_of(ls: Seq<Vec<u8>>) -> Seq<Seq<u8>> {
    ls.map_values(|l: Vec<u8>| l@)
}

/// Index of the first occurrence of `t` in `s`, or the length if absent.
pub open spec fn spec_find_byte(s: Seq<u8>, t: u8) -> nat
    decreases s.len(),
{
    if s.len() == 0 {
        0
    } else if s[0] == t {
        0
    } else {
        1 + spec_find_byte(s.drop_first(), t)
    }
}

/// What `spec_find_byte` finds: an in-range index, holding `t` when in
/// range, with no earlier occurrence.
pub proof fn lemma_find_byte_bounds(s: Seq<u8>, t: u8)
    ensures
        spec_find_byte(s, t) <= s.len(),
        spec_find_byte(s, t) < s.len() ==> s[spec_find_byte(s, t) as int] == t,
        forall|j: int| 0 <= j < spec_find_byte(s, t) ==> s[j] != t,
    decreases s.len(),
{
    if s.len() == 0 {
    } else if s[0] == t {
    } else {
        lemma_find_byte_bounds(s.drop_first(), t);
        assert forall|j: int| 0 <= j < spec_find_byte(s, t) implies s[j] != t by {
            if j > 0 {
                assert(s.drop_first()[j - 1] == s[j]);
            }
        }
    }
}

/// An index with no occurrence before it, and an occurrence at it when in
/// range, is the first occurrence.
pub proof fn lemma_find_byte_at(s: Seq<u8>, t: u8, i: int)
    requires
        0 <= i <= s.len(),
        forall|j: int| 0 <= j < i ==> s[j] != t,
        i < s.len() ==> s[i] == t,
    ensures
        spec_find_byte(s, t) == i,
{
    lemma_find_byte_bounds(s, t);
    let f = spec_find_byte(s, t) as int;
    if f < i {
        assert(s[f] == t);
        assert(false);
    }
    if f > i {
        assert(s[i] != t);
        assert(false);
    }
}

/// Drops the single carriage return a line-feed split leaves at the end
/// of a line.
pub open spec fn spec_strip_cr(l: Seq<u8>) -> Seq<u8> {
    if l.len() > 0 && l.last() == 13 {
        l.drop_last()
    } else {
        l
    }
}

/// The lines of a byte text: split at each line feed, one trailing
/// carriage return per split line removed, an unterminated final line
/// kept as it stands, and no phantom line after a final line feed.
pub open spec fn spec_lines(s: Seq<u8>) -> Seq<Seq<u8>>
    decreases s.len(),
{
    if s.len() == 0 {
        Seq::<Seq<u8>>::empty()
    } else {
        let i = spec_find_byte(s, 10) as int;
        if i >= s.len() {
            seq![s]
        } else {
            seq![spec_strip_cr(s.take(i))] + spec_lines(s.skip(i + 1))
        }
    }
}

/// The space-separated tokens of a line; consecutive or trailing spaces
/// yield empty tokens, as the status-line split has always behaved.
pub open spec fn spec_tokens(s: Seq<u8>) -> Seq<Seq<u8>>
    decreases s.len(),
{
    let i = spec_find_byte(s, 32) as int;
    if i >= s.len() {
        seq![s]
    } else {
        seq![s.take(i)] + spec_tokens(s.skip(i + 1))
    }
}

/// Copies `v[from..to]` into a fresh vector.
fn subvec(v: &Vec<u8>, from: usize, to: usize) -> (r: Vec<u8>)
    requires
        from <= to <= v@.len(),
    ensures
        r@ == v@.subrange(from as int, to as int),
{
    let mut r: Vec<u8> = Vec::new();
    let mut i: usize = from;
    while i < to
        invariant
            from <= i <= to <= v@.len(),
            r@ == v@.subrange(from as int, i as int),
        decreases to - i,
    {
        r.push(v[i]);
        proof {
            assert(v@.subrange(from as int, i as int + 1) =~= v@.subrange(
                from as int,
                i as int,
            ).push(v@[i as int]));
        }
        i = i + 1;
    }
    r
}

/// First index at or after `from` holding `target`, or the length.
fn find_byte_from(v: &Vec<u8>, from: usize, target: u8) -> (r: usize)
    requires
        from <= v@.len(),
    ensures
        from <= r <= v@.len(),
        forall|j: int| from <= j < r ==> v@[j] != target,
        r < v@.len() ==> v@[r as int] == target,
{
    let mut i: usize = from;
    while i < v.len()
        invariant
            from <= i <= v@.len(),
            forall|j: int| from <= j < i ==> v@[j] != target,
        decreases v@.len() - i,
    {
        if v[i] == target {
            return i;
        }
        i = i + 1;
    }
    i
}

/// Splits a raw byte text into its lines, as `spec_lines` says.
pub fn split_lines(raw: &Vec<u8>) -> (r: Vec<Vec<u8>>)
    ensures
        views_of(r@) == spec_lines(raw@),
    decreases raw@.len(),
{
    if raw.len() == 0 {
        let out: Vec<Vec<u8>> = Vec::new();
        proof {
            assert(views_of(out@) =~= spec_lines(raw@));
        }
        return out;
    }
    let j = find_byte_from(raw, 0, 10);
    proof {
        lemma_find_byte_at(raw@, 10, j as int);
    }
    if j == raw.len() {
        let whole = subvec(raw, 0, raw.len());
        proof {
            assert(whole@ =~= raw@);
        }
        let mut out: Vec<Vec<u8>> = Vec::new();
        out.push(whole);
        proof {
            assert(views_of(out@) =~= spec_lines(raw@));
        }
        out
    } else {
        let mut line = subvec(raw, 0, j);
        if line.len() > 0 && line[line.len() - 1] == 13 {
            line.pop();
            proof {
                assert(raw@.take(j as int) =~= raw@.subrange(0, j as int));
                assert(line@ =~= spec_strip_cr(raw@.take(j as int)));
            }
        } else {
            proof {
                assert(raw@.take(j as int) =~= raw@.subrange(0, j as int));
                assert(line@ =~= spec_strip_cr(raw@.take(j as int)));
            }
        }
        let rest = subvec(raw, j + 1, raw.len());
        proof {
            assert(rest@ =~= raw@.skip(j as int + 1));
        }
        let mut tail = split_lines(&rest);
        let mut out: Vec<Vec<u8>> = Vec::new();
        out.push(line);
        out.append(&mut tail);
        proof {
            assert(views_of(out@) =~= seq![spec_strip_cr(raw@.take(j as int))] + spec_lines(
                raw@.skip(j as int + 1),
            ));
        }
        out
    }
}

/// Splits a line into its space-separated tokens, as `spec_tokens` says.
pub fn split_tokens(line: &Vec<u8>) -> (r: Vec<Vec<u8>>)
    ensures
        views_of(r@) == spec_tokens(line@),
    decreases line@.len(),
{
    let j = find_byte_from(line, 0, 32);
    proof {
        lemma_find_byte_at(line@, 32, j as int);
    }
    if j == line.len() {
        let whole = subvec(line, 0, line.len());
        proof {
            assert(whole@ =~= line@);
        }
        let mut out: Vec<Vec<u8>> = Vec::new();
        out.push(whole);
        proof {
            assert(views_of(out@) =~= spec_tokens(line@));
        }
        out
    } else {
        let head = subvec(line, 0, j);
        let rest = subvec(line, j + 1, line.len());
        proof {
            assert(head@ =~= line@.take(j as int));
            assert(rest@ =~= line@.skip(j as int + 1));
        }
        let mut tail = split_tokens(&rest);
        let mut out: Vec<Vec<u8>> = Vec::new();
        out.push(head);
        out.append(&mut tail);
        proof {
            assert(views_of(out@) =~= seq![line@.take(j as int)] + spec_tokens(
                line@.skip(j as int + 1),
            ));
        }
        out
    }
}

/// Index of the first empty line, or the length if none is empty.
pub open spec fn spec_first_empty(ls: Seq<Seq<u8>>) -> nat
    decreases ls.len(),
{
    if ls.len() == 0 {
        0
    } else if ls[0].len() == 0 {
        0
    } else {
        1 + spec_first_empty(ls.drop_first())
    }
}

/// What `spec_first_empty` finds.
pub proof fn lemma_first_empty_bounds(ls: Seq<Seq<u8>>)
    ensures
        spec_first_empty(ls) <= ls.len(),
        spec_first_empty(ls) < ls.len() ==> ls[spec_first_empty(ls) as int].len() == 0,
        forall|j: int| 0 <= j < spec_first_empty(ls) ==> (#[trigger] ls[j]).len() > 0,
    decreases ls.len(),
{
    if ls.len() == 0 {
    } else if ls[0].len() == 0 {
    } else {
        lemma_first_empty_bounds(ls.drop_first());
        assert forall|j: int| 0 <= j < spec_first_empty(ls) implies (#[trigger] ls[j]).len() > 0 by {
            if j > 0 {
                assert(ls.drop_first()[j - 1] == ls[j]);
            }
        }
    }
}

/// An index with only non-empty lines before it, and an empty line at it
/// when in range, is the first empty line.
pub proof fn lemma_first_empty_at(ls: Seq<Seq<u8>>, i: int)
    requires
        0 <= i <= ls.len(),
        forall|j: int| 0 <= j < i ==> (#[trigger] ls[j]).len() > 0,
        i < ls.len() ==> ls[i].len() == 0,
    ensures
        spec_first_empty(ls) == i,
{
    lemma_first_empty_bounds(ls);
    let f = spec_first_empty(ls) as int;
    if f < i {
        assert(ls[f].len() == 0);
        assert(false);
    }
    if f > i {
        assert(ls[i].len() > 0);
        assert(false);
    }
}

/// The non-empty lines, in order.
pub open spec fn spec_keep_nonempty(ls: Seq<Seq<u8>>) -> Seq<Seq<u8>>
    decreases ls.len(),
{
    if ls.len() == 0 {
        Seq::<Seq<u8>>::empty()
    } else {
        let front = spec_keep_nonempty(ls.drop_last());
        if ls.last().len() > 0 {
            front.push(ls.last())
        } else {
            front
        }
    }
}

/// The header lines of everything after the status line: the lines up to
/// the first empty line.
pub open spec fn spec_headers_of(rest: Seq<Seq<u8>>) -> Seq<Seq<u8>> {
    rest.take(spec_first_empty(rest) as int)
}

/// The body lines of everything after the status line: the non-empty
/// lines after the first empty line.
pub open spec fn spec_body_of(rest: Seq<Seq<u8>>) -> Seq<Seq<u8>> {
    if spec_first_empty(rest) >= rest.len() {
        Seq::<Seq<u8>>::empty()
    } else {
        spec_keep_nonempty(rest.skip(spec_first_empty(rest) as int + 1))
    }
}

/// Why a raw response was rejected.
#[derive(Clone, Copy, PartialEq, Eq, Structural, Debug)]
pub enum ResponseParseError {
    /// The response held no line at all.
    NoStatusLine,
    /// The status line held fewer than two space-separated tokens.
    NoStatusCode,
    /// The second token was not a decimal status code within `u16`.
    BadStatusCode,
}

/// A parsed response: status code, header lines, body lines.
pub struct HttpResponse {
    pub status: u16,
    pub headers: Vec<Vec<u8>>,
    pub body: Vec<Vec<u8>>,
}

/// The response grammar applied to a raw byte text.
pub open spec fn spec_parse_response(raw: Seq<u8>) -> Result<
    (int, Seq<Seq<u8>>, Seq<Seq<u8>>),
    ResponseParseError,
> {
    let lines = spec_lines(raw);
    if lines.len() == 0 {
        Err(ResponseParseError::NoStatusLine)
    } else {
        let toks = spec_tokens(lines[0]);
        if toks.len() < 2 {
            Err(ResponseParseError::NoStatusCode)
        } else if toks[1].len() == 0 || !spec_all_digits(toks[1]) || spec_dec_value(toks[1])
            > u16::MAX {
            Err(ResponseParseError::BadStatusCode)
        } else {
            Ok(
                (
                    spec_dec_value(toks[1]),
                    spec_headers_of(lines.skip(1)),
                    spec_body_of(lines.skip(1)),
                ),
            )
        }
    }
}

/// Parses a raw response: status code from the first line's second token,
/// then headers up to the first blank line, then body lines. The result
/// is exactly what the grammar `spec_parse_response` yields, errors
/// included.
pub fn parse_response(raw: &Vec<u8>) -> (r: Result<HttpResponse, ResponseParseError>)
    ensures
        match r {
            Ok(resp) => spec_parse_response(raw@) == Ok::<
                (int, Seq<Seq<u8>>, Seq<Seq<u8>>),
                ResponseParseError,
            >((resp.status as int, views_of(resp.headers@), views_of(resp.body@))),
            Err(e) => spec_parse_response(raw@) == Err::<
                (int, Seq<Seq<u8>>, Seq<Seq<u8>>),
                ResponseParseError,
            >(e),
        },
{
    let lines = split_lines(raw);
    if lines.len() == 0 {
        return Err(ResponseParseError::NoStatusLine);
    }
    proof {
        assert(views_of(lines@)[0] == lines@[0]@);
    }
    let toks = split_tokens(&lines[0]);
    if toks.len() < 2 {
        return Err(ResponseParseError::NoStatusCode);
    }
    proof {
        assert(views_of(toks@)[1] == toks@[1]@);
    }
    let code = match parse_u16(&toks[1]) {
        None => {
            return Err(ResponseParseError::BadStatusCode);
        },
        Some(c) => c,
    };
    let mut headers: Vec<Vec<u8>> = Vec::new();
    let mut i: usize = 1;
    while i < lines.len() && lines[i].len() > 0
        invariant
            1 <= i <= lines@.len(),
            forall|k: int| 1 <= k < i ==> (#[trigger] views_of(lines@)[k]).len() > 0,
            views_of(headers@) == views_of(lines@).subrange(1, i as int),
        decreases lines@.len() - i,
    {
        let h = lines[i].clone();
        proof {
            assert(h@ == lines@[i as int]@);
        }
        let ghost prev = headers@;
        headers.push(h);
        proof {
            assert(headers@ == prev.push(h));
            assert(views_of(prev).len() == prev.len());
            assert(views_of(prev).len() == i as int - 1);
            assert(headers@.len() == prev.len() + 1);
            assert(views_of(headers@).len() == headers@.len());
            assert(views_of(headers@).len() == i as int);
            assert forall|m: int| 0 <= m < i as int implies views_of(headers@)[m] == views_of(
                lines@,
            ).subrange(1, i as int + 1)[m] by {
                assert(views_of(headers@)[m] == headers@[m]@);
                if m < i as int - 1 {
                    assert(headers@[m] == prev[m]);
                    assert(views_of(prev)[m] == prev[m]@);
                } else {
                    assert(headers@[m] == h);
                }
                assert(views_of(lines@).subrange(1, i as int + 1)[m] == views_of(lines@)[m + 1]);
                assert(views_of(lines@)[m + 1] == lines@[m + 1]@);
            }
            assert(views_of(headers@) =~= views_of(lines@).subrange(1, i as int + 1));
        }
        i = i + 1;
    }
    proof {
        let rest = views_of(lines@).skip(1);
        assert forall|j: int| 0 <= j < i - 1 implies (#[trigger] rest[j]).len() > 0 by {
            assert(rest[j] == views_of(lines@)[j + 1]);
        }
        if i < lines@.len() {
            assert(rest[i - 1] == views_of(lines@)[i as int]);
            assert(rest[i - 1].len() == 0);
        }
        lemma_first_empty_at(rest, i as int - 1);
        assert(views_of(headers@) =~= spec_headers_of(rest));
    }
    let mut body: Vec<Vec<u8>> = Vec::new();
    if i < lines.len() {
        let mut k: usize = i + 1;
        proof {
            assert(views_of(body@) =~= spec_keep_nonempty(
                views_of(lines@).subrange(i as int + 1, i as int + 1),
            ));
        }
        while k < lines.len()
            invariant
                i + 1 <= k <= lines@.len(),
                i < lines@.len(),
                views_of(body@) == spec_keep_nonempty(
                    views_of(lines@).subrange(i as int + 1, k as int),
                ),
            decreases lines@.len() - k,
        {
            proof {
                assert(views_of(lines@).subrange(i as int + 1, k as int + 1).drop_last()
                    =~= views_of(lines@).subrange(i as int + 1, k as int));
                assert(views_of(lines@).subrange(i as int + 1, k as int + 1).last()
                    == views_of(lines@)[k as int]);
            }
            if lines[k].len() > 0 {
                let bl = lines[k].clone();
                proof {
                    assert(bl@ == lines@[k as int]@);
                }
                body.push(bl);
                proof {
                    assert(views_of(body@) =~= spec_keep_nonempty(
                        views_of(lines@).subrange(i as int + 1, k as int + 1),
                    ));
                }
            } else {
                proof {
                    assert(views_of(body@) =~= spec_keep_nonempty(
                        views_of(lines@).subrange(i as int + 1, k as int + 1),
                    ));
                }
            }
            k = k + 1;
        }
        proof {
            let rest = views_of(lines@).skip(1);
            assert(rest.skip(i as int) =~= views_of(lines@).subrange(i as int + 1, lines@.len() as int));
            assert(views_of(body@) =~= spec_body_of(rest));
        }
    } else {
        proof {
            let rest = views_of(lines@).skip(1);
            assert(views_of(body@) =~= spec_body_of(rest));
        }
    }
    Ok(HttpResponse { status: code, headers, body })
}


/// A line sequence rendered onto the wire: each line's bytes followed by
/// CR LF.
pub open spec fn spec_render_lines(ls: Seq<Seq<u8>>) -> Seq<u8>
    decreases ls.len(),
{
    if ls.len() == 0 {
        Seq::<u8>::empty()
    } else {
        spec_render_lines(ls.drop_last()) + ls.last() + seq![13u8, 10u8]
    }
}

/// Rendering distributes over concatenation of line sequences.
pub proof fn lemma_render_lines_concat(a: Seq<Seq<u8>>, b: Seq<Seq<u8>>)
    ensures
        spec_render_lines(a + b) == spec_render_lines(a) + spec_render_lines(b),
    decreases b.len(),
{
    if b.len() == 0 {
        assert(a + b =~= a);
        assert(spec_render_lines(a) + spec_render_lines(b) =~= spec_render_lines(a));
    } else {
        lemma_render_lines_concat(a, b.drop_last());
        assert((a + b).drop_last() =~= a + b.drop_last());
        assert((a + b).last() == b.last());
        assert(spec_render_lines(a) + (spec_render_lines(b.drop_last()) + b.last() + seq![
            13u8,
            10u8,
        ]) =~= (spec_render_lines(a) + spec_render_lines(b.drop_last())) + b.last() + seq![
            13u8,
            10u8,
        ]);
    }
}

/// The status line a well-formed synthetic response starts with.
pub open spec fn spec_status_line(code: u16) -> Seq<u8> {
    spec_lit_status_prefix() + spec_dec_nat(code as nat) + spec_lit_status_suffix()
}

/// A whole synthetic response: status line, header lines, a blank line,
/// body lines, every line CR-LF-terminated.
pub open spec fn spec_render_response(code: u16, headers: Seq<Seq<u8>>, body: Seq<Seq<u8>>) -> Seq<
    u8,
> {
    spec_render_lines(
        seq![spec_status_line(code)] + headers + seq![Seq::<u8>::empty()] + body,
    )
}

/// Appends one line and its CR LF terminator.
fn append_line(v: &mut Vec<u8>, line: &Vec<u8>)
    ensures
        final(v)@ == old(v)@ + line@ + seq![13u8, 10u8],
{
    let mut c = line.clone();
    proof {
        assert(c@ == line@);
    }
    v.append(&mut c);
    v.push(13);
    v.push(10);
    proof {
        assert(v@ =~= old(v)@ + line@ + seq![13u8, 10u8]);
    }
}

/// Renders a synthetic response, as the tests of the framing grammar
/// need: `spec_parse_response` recovers exactly what went in, which
/// `lemma_response_roundtrip` states in full.
pub fn render_response(code: u16, headers: &Vec<Vec<u8>>, body: &Vec<Vec<u8>>) -> (r: Vec<u8>)
    ensures
        r@ == spec_render_response(code, views_of(headers@), views_of(body@)),
{
    let ghost sl: Seq<Seq<u8>> = seq![spec_status_line(code)];
    let mut v: Vec<u8> = Vec::new();
    push_lit_status_prefix(&mut v);
    let mut d = fmt_u64(code as u64);
    v.append(&mut d);
    push_lit_status_suffix(&mut v);
    v.push(13);
    v.push(10);
    proof {
        assert(sl.drop_last() =~= Seq::<Seq<u8>>::empty());
        assert(spec_render_lines(Seq::<Seq<u8>>::empty()) =~= Seq::<u8>::empty());
        assert(v@ =~= spec_render_lines(sl));
    }
    let mut i: usize = 0;
    while i < headers.len()
        invariant
            i <= headers@.len(),
            sl == seq![spec_status_line(code)],
            v@ == spec_render_lines(sl) + spec_render_lines(views_of(headers@).take(i as int)),
        decreases headers@.len() - i,
    {
        append_line(&mut v, &headers[i]);
        proof {
            assert(views_of(headers@).take(i as int + 1).drop_last() =~= views_of(
                headers@,
            ).take(i as int));
            assert(views_of(headers@).take(i as int + 1).last() == headers@[i as int]@);
            assert(v@ =~= spec_render_lines(sl) + spec_render_lines(
                views_of(headers@).take(i as int + 1),
            ));
        }
        i = i + 1;
    }
    proof {
        assert(views_of(headers@).take(headers@.len() as int) =~= views_of(headers@));
    }
    v.push(13);
    v.push(10);
    let ghost blank: Seq<Seq<u8>> = seq![Seq::<u8>::empty()];
    proof {
        assert(blank.drop_last() =~= Seq::<Seq<u8>>::empty());
        assert(spec_render_lines(Seq::<Seq<u8>>::empty()) =~= Seq::<u8>::empty());
        assert(spec_render_lines(blank) =~= seq![13u8, 10u8]);
        assert(v@ =~= spec_render_lines(sl) + spec_render_lines(views_of(headers@))
            + spec_render_lines(blank));
    }
    let mut k: usize = 0;
    while k < body.len()
        invariant
            k <= body@.len(),
            sl == seq![spec_status_line(code)],
            blank == seq![Seq::<u8>::empty()],
            v@ == spec_render_lines(sl) + spec_render_lines(views_of(headers@))
                + spec_render_lines(blank) + spec_render_lines(views_of(body@).take(k as int)),
        decreases body@.len() - k,
    {
        append_line(&mut v, &body[k]);
        proof {
            assert(views_of(body@).take(k as int + 1).drop_last() =~= views_of(body@).take(
                k as int,
            ));
            assert(views_of(body@).take(k as int + 1).last() == body@[k as int]@);
            assert(v@ =~= spec_render_lines(sl) + spec_render_lines(views_of(headers@))
                + spec_render_lines(blank) + spec_render_lines(
                views_of(body@).take(k as int + 1),
            ));
        }
        k = k + 1;
    }
    proof {
        assert(views_of(body@).take(body@.len() as int) =~= views_of(body@));
        lemma_render_lines_concat(sl, views_of(headers@));
        lemma_render_lines_concat(sl + views_of(headers@), blank);
        lemma_render_lines_concat(sl + views_of(headers@) + blank, views_of(body@));
        assert(sl + views_of(headers@) + blank + views_of(body@) =~= seq![
            spec_status_line(code),
        ] + views_of(headers@) + seq![Seq::<u8>::empty()] + views_of(body@));
        assert(v@ =~= spec_render_response(code, views_of(headers@), views_of(body@)));
    }
    v
}

/// Splitting into lines undoes rendering, for lines free of line feeds.
pub proof fn lemma_lines_of_render(ls: Seq<Seq<u8>>)
    requires
        forall|i: int| 0 <= i < ls.len() ==> !(#[trigger] ls[i]).contains(10u8),
    ensures
        spec_lines(spec_render_lines(ls)) == ls,
    decreases ls.len(),
{
    if ls.len() == 0 {
    } else {
        let l0 = ls[0];
        let rest = ls.drop_first();
        lemma_render_lines_concat(seq![l0], rest);
        assert(seq![l0] + rest =~= ls);
        let s = spec_render_lines(ls);
        assert(seq![l0].drop_last() =~= Seq::<Seq<u8>>::empty());
        assert(spec_render_lines(Seq::<Seq<u8>>::empty()) =~= Seq::<u8>::empty());
        assert(spec_render_lines(seq![l0]) =~= l0 + seq![13u8, 10u8]);
        assert(s =~= l0 + seq![13u8, 10u8] + spec_render_lines(rest));
        let n = l0.len() as int;
        assert(!l0.contains(10u8));
        assert forall|j: int| 0 <= j < n + 1 implies s[j] != 10u8 by {
            if j < n {
                assert(s[j] == l0[j]);
                if s[j] == 10u8 {
                    assert(l0.contains(10u8));
                }
            } else {
                assert(s[j] == 13u8);
            }
        }
        assert(s[n + 1] == 10u8);
        lemma_find_byte_at(s, 10u8, n + 1);
        assert(s.take(n + 1) =~= l0 + seq![13u8]);
        assert(spec_strip_cr(s.take(n + 1)) =~= l0);
        assert(s.skip(n + 2) =~= spec_render_lines(rest));
        assert forall|i: int| 0 <= i < rest.len() implies !(#[trigger] rest[i]).contains(10u8) by {
            assert(rest[i] == ls[i + 1]);
        }
        lemma_lines_of_render(rest);
        assert(spec_lines(s) =~= seq![l0] + rest);
    }
}

/// The status line splits into exactly three tokens, the second being the
/// decimal status code; and it holds no line feed.
pub proof fn lemma_status_tokens(code: u16)
    ensures
        spec_tokens(spec_status_line(code)).len() == 3,
        spec_tokens(spec_status_line(code))[1] == spec_dec_nat(code as nat),
        !spec_status_line(code).contains(10u8),
{
    let s = spec_status_line(code);
    let d = spec_dec_nat(code as nat);
    crate::numfmt::lemma_dec_nat_all_digits(code as nat);
    assert(s.take(9) =~= spec_lit_status_prefix());
    assert forall|j: int| 0 <= j < 8 implies s[j] != 32u8 by {
        assert(s[j] == spec_lit_status_prefix()[j]);
    }
    assert(s[8] == 32u8);
    lemma_find_byte_at(s, 32u8, 8);
    let s2 = s.skip(9);
    assert(s2 =~= d + spec_lit_status_suffix());
    assert forall|j: int| 0 <= j < d.len() implies s2[j] != 32u8 by {
        assert(s2[j] == d[j]);
        assert(crate::numfmt::spec_is_digit(d[j]));
    }
    assert(s2[d.len() as int] == 32u8);
    lemma_find_byte_at(s2, 32u8, d.len() as int);
    let s3 = s2.skip(d.len() as int + 1);
    assert(s3 =~= seq![79u8, 75u8]);
    assert forall|j: int| 0 <= j < s3.len() implies s3[j] != 32u8 by {}
    lemma_find_byte_at(s3, 32u8, 2);
    assert(spec_tokens(s3) =~= seq![s3]);
    assert(s2.take(d.len() as int) =~= d);
    assert(spec_tokens(s2) =~= seq![d] + spec_tokens(s3));
    assert(s.take(8) =~= spec_lit_status_prefix().take(8));
    assert(spec_tokens(s) =~= seq![s.take(8)] + spec_tokens(s2));
    assert(spec_tokens(s)[1] == d);
    assert forall|j: int| 0 <= j < s.len() implies s[j] != 10u8 by {
        if j < 9 {
            assert(s[j] == spec_lit_status_prefix()[j]);
        } else if j < 9 + d.len() {
            assert(s[j] == d[j - 9]);
            assert(crate::numfmt::spec_is_digit(d[j - 9]));
        } else {
            assert(s[j] == spec_lit_status_suffix()[j - 9 - d.len()]);
        }
    }
    if s.contains(10u8) {
        let w = choose|j: int| 0 <= j < s.len() && s[j] == 10u8;
        assert(false);
    }
}

/// Keeping the non-empty lines of an all-non-empty sequence changes
/// nothing.
pub proof fn lemma_keep_nonempty_id(ls: Seq<Seq<u8>>)
    requires
        forall|i: int| 0 <= i < ls.len() ==> (#[trigger] ls[i]).len() > 0,
    ensures
        spec_keep_nonempty(ls) == ls,
    decreases ls.len(),
{
    if ls.len() > 0 {
        assert forall|i: int|
            0 <= i < ls.drop_last().len() implies (#[trigger] ls.drop_last()[i]).len() > 0 by {
            assert(ls.drop_last()[i] == ls[i]);
        }
        lemma_keep_nonempty_id(ls.drop_last());
        assert(spec_keep_nonempty(ls) =~= ls);
    }
}

/// Framing round trip: a synthetic response rendered from a status code,
/// non-empty line-feed-free header lines and body lines parses back to
/// exactly that status code, header list and body list.
pub proof fn lemma_response_roundtrip(code: u16, headers: Seq<Seq<u8>>, body: Seq<Seq<u8>>)
    requires
        forall|i: int|
            0 <= i < headers.len() ==> (#[trigger] headers[i]).len() > 0 && !headers[i].contains(
                10u8,
            ),
        forall|i: int|
            0 <= i < body.len() ==> (#[trigger] body[i]).len() > 0 && !body[i].contains(10u8),
    ensures
        spec_parse_response(spec_render_response(code, headers, body)) == Ok::<
            (int, Seq<Seq<u8>>, Seq<Seq<u8>>),
            ResponseParseError,
        >((code as int, headers, body)),
{
    let all = seq![spec_status_line(code)] + headers + seq![Seq::<u8>::empty()] + body;
    lemma_status_tokens(code);
    assert forall|i: int| 0 <= i < all.len() implies !(#[trigger] all[i]).contains(10u8) by {
        if i == 0 {
            assert(all[i] == spec_status_line(code));
        } else if i < 1 + headers.len() {
            assert(all[i] == headers[i - 1]);
        } else if i == 1 + headers.len() {
            assert(all[i] == Seq::<u8>::empty());
            if all[i].contains(10u8) {
                let w = choose|j: int| 0 <= j < all[i].len() && all[i][j] == 10u8;
                assert(false);
            }
        } else {
            assert(all[i] == body[i - 2 - headers.len()]);
        }
    }
    lemma_lines_of_render(all);
    let raw = spec_render_response(code, headers, body);
    assert(spec_lines(raw) == all);
    assert(all[0] == spec_status_line(code));
    let toks = spec_tokens(all[0]);
    crate::numfmt::lemma_dec_nat_all_digits(code as nat);
    crate::numfmt::lemma_dec_value_of_dec_nat(code as nat);
    assert(toks[1] == spec_dec_nat(code as nat));
    assert(spec_dec_value(toks[1]) == code as int);
    let rest = all.skip(1);
    assert(rest =~= headers + seq![Seq::<u8>::empty()] + body);
    assert forall|j: int| 0 <= j < headers.len() implies (#[trigger] rest[j]).len() > 0 by {
        assert(rest[j] == headers[j]);
    }
    assert(rest[headers.len() as int].len() == 0);
    lemma_first_empty_at(rest, headers.len() as int);
    assert(spec_headers_of(rest) =~= headers);
    assert(rest.skip(headers.len() as int + 1) =~= body);
    lemma_keep_nonempty_id(body);
    assert(spec_body_of(rest) == body);
}

} // verus!
