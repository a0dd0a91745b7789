//! The response model: a status code, an optional typed payload, and the
//! serializer that turns a response into wire bytes. A response without a
//! payload serializes to its status line followed by a blank line; one with a
//! payload carries a Content-Type line, a Content-Length line whose digits
//! denote the exact byte length of the payload body, a blank line, and then
//! the payload bytes verbatim.

use vstd::prelude::*;
use vstd::arithmetic::div_mod::lemma_fundamental_div_mod;
use crate::bytes::copy_vec;

verus! {

/// A response status code.
#[derive(Clone, Copy, PartialEq, Eq, Structural, Debug)]
pub enum HTTPResponseStatusCode {
    Okay,
    Created,
    NotFound,
    BadRequest,
    InternalServerError,
}

/// The media type of a response payload.
#[derive(Clone, Copy, PartialEq, Eq, Structural, Debug)]
pub enum HTTPContentType {
    PlainText,
    ApplicationOctetStream,
}

/// A response payload: a media type and the body bytes.
pub struct HTTPResponsePayload {
    pub content_type: HTTPContentType,
    pub payload: Vec<u8>,
}

/// The mathematical shape of a payload.
pub ghost struct PayloadView {
    pub content_type: HTTPContentType,
    pub payload: Seq<u8>,
}

impl View for HTTPResponsePayload {
    type V = PayloadView;

    open spec fn view(&self) -> PayloadView {
        PayloadView { content_type: self.content_type, payload: self.payload@ }
    }
}

/// A response: a status code and an optional payload.
pub struct HTTPResponse {
    pub status_code: HTTPResponseStatusCode,
    pub payload: Option<HTTPResponsePayload>,
}

/// The mathematical shape of a response.
pub ghost struct ResponseView {
    pub status_code: HTTPResponseStatusCode,
    pub payload: Option<PayloadView>,
}

impl View for HTTPResponse {
    type V = ResponseView;

    open spec fn view(&self) -> ResponseView {
        ResponseView {
            status_code: self.status_code,
            payload: match self.payload {
                Some(ref p) => Some(p@),
                None => None,
            },
        }
    }
}

/// The bytes of the CRLF line terminator.
pub open spec fn spec_crlf() -> Seq<u8> {
    seq![13u8, 10u8]
}

fn push_crlf(out: &mut Vec<u8>)
    ensures
        final(out)@ == old(out)@ + spec_crlf(),
{
    let ghost orig = out@;
    out.push(13);
    out.push(10);
    proof {
        assert(out@ =~= orig + spec_crlf());
    }
}

/// The status text a status code puts on the status line.
pub open spec fn spec_status_text(s: HTTPResponseStatusCode) -> Seq<u8> {
    match s {
        HTTPResponseStatusCode::Okay => spec_status_ok(),
        HTTPResponseStatusCode::Created => spec_status_created(),
        HTTPResponseStatusCode::NotFound => spec_status_not_found(),
        HTTPResponseStatusCode::BadRequest => spec_status_bad_request(),
        HTTPResponseStatusCode::InternalServerError => spec_status_internal_error(),
    }
}

fn push_status_text(out: &mut Vec<u8>, s: HTTPResponseStatusCode)
    ensures
        final(out)@ == old(out)@ + spec_status_text(s),
{
    match s {
        HTTPResponseStatusCode::Okay => push_status_ok(out),
        HTTPResponseStatusCode::Created => push_status_created(out),
        HTTPResponseStatusCode::NotFound => push_status_not_found(out),
        HTTPResponseStatusCode::BadRequest => push_status_bad_request(out),
        HTTPResponseStatusCode::InternalServerError => push_status_internal_error(out),
    }
}

/// The whole Content-Type header line text (without its terminator) for a
/// content type.
pub open spec fn spec_content_type_text(t: HTTPContentType) -> Seq<u8> {
    match t {
        HTTPContentType::PlainText => spec_content_type_plain(),
        HTTPContentType::ApplicationOctetStream => spec_content_type_octet(),
    }
}

fn push_content_type_text(out: &mut Vec<u8>, t: HTTPContentType)
    ensures
        final(out)@ == old(out)@ + spec_content_type_text(t),
{
    match t {
        HTTPContentType::PlainText => push_content_type_plain(out),
        HTTPContentType::ApplicationOctetStream => push_content_type_octet(out),
    }
}

/// The ASCII decimal spelling of `n`, most significant digit first, with no
/// leading zero except for `n == 0` itself.
pub open spec fn spec_dec(n: nat) -> Seq<u8>
    decreases n,
{
    if n < 10 {
        seq![(48 + n) as u8]
    } else {
        spec_dec(n / 10) + seq![(48 + n % 10) as u8]
    }
}

/// The number a run of ASCII digits denotes.
pub open spec fn dec_value(s: Seq<u8>) -> int
    decreases s.len(),
{
    if s.len() == 0 {
        0
    } else {
        dec_value(s.drop_last()) * 10 + (s.last() - 48)
    }
}

/// The decimal spelling of a number denotes that number, consists of ASCII
/// digits only, and is never empty.
pub proof fn lemma_dec_value_round_trip(n: nat)
    ensures
        dec_value(spec_dec(n)) == n,
        spec_dec(n).len() >= 1,
        forall|i: int| 0 <= i < spec_dec(n).len() ==> 48 <= #[trigger] spec_dec(n)[i] <= 57,
    decreases n,
{
    if n < 10 {
        assert((48 + n) as u8 == 48 + n);
        assert(spec_dec(n).drop_last() =~= Seq::<u8>::empty());
        assert(dec_value(Seq::<u8>::empty()) == 0);
        assert(dec_value(spec_dec(n)) == 0 * 10 + ((48 + n) as u8 - 48));
    } else {
        lemma_dec_value_round_trip(n / 10);
        lemma_fundamental_div_mod(n as int, 10);
        assert((48 + n % 10) as u8 == 48 + n % 10);
        assert(spec_dec(n).drop_last() =~= spec_dec(n / 10));
        assert(spec_dec(n).last() == (48 + n % 10) as u8);
        assert(dec_value(spec_dec(n)) == dec_value(spec_dec(n / 10)) * 10 + ((48 + n % 10) as u8
            - 48));
        assert(dec_value(spec_dec(n)) == (n / 10) * 10 + n % 10);
    }
}

/// The ASCII decimal digits of `n`.
pub fn dec_digits(n: usize) -> (r: Vec<u8>)
    ensures
        r@ == spec_dec(n as nat),
    decreases n,
{
    if n < 10 {
        let mut r: Vec<u8> = Vec::new();
        r.push((48 + n) as u8);
        proof {
            assert(r@ =~= spec_dec(n as nat));
        }
        r
    } else {
        proof {
            lemma_fundamental_div_mod(n as int, 10);
        }
        let mut r = dec_digits(n / 10);
        r.push((48 + n % 10) as u8);
        proof {
            assert(r@ =~= spec_dec(n as nat));
        }
        r
    }
}

/// The wire form of a response. Without a payload: the status line, then a
/// blank line, and nothing else. With a payload: the status line, the
/// Content-Type line, the Content-Length line spelling the payload body's
/// exact byte length, a blank line, then the payload bytes verbatim.
pub open spec fn spec_serialize(r: ResponseView) -> Seq<u8> {
    match r.payload {
        None => spec_http_version() + spec_status_text(r.status_code) + spec_crlf() + spec_crlf(),
        Some(p) => spec_http_version() + spec_status_text(r.status_code) + spec_crlf()
            + spec_content_type_text(p.content_type) + spec_crlf() + spec_content_length_prefix()
            + spec_dec(p.payload.len()) + spec_crlf() + spec_crlf() + p.payload,
    }
}

impl HTTPResponse {
    /// Serialize this response to its exact wire bytes.
    pub fn serialize(&self) -> (r: Vec<u8>)
        ensures
            r@ == spec_serialize(self@),
    {
        let mut out: Vec<u8> = Vec::new();
        push_http_version(&mut out);
        push_status_text(&mut out, self.status_code);
        push_crlf(&mut out);
        match &self.payload {
            None => {
                push_crlf(&mut out);
            },
            Some(p) => {
                push_content_type_text(&mut out, p.content_type);
                push_crlf(&mut out);
                push_content_length_prefix(&mut out);
                let mut digits = dec_digits(p.payload.len());
                out.append(&mut digits);
                push_crlf(&mut out);
                push_crlf(&mut out);
                let mut body = copy_vec(&p.payload);
                out.append(&mut body);
            },
        }
        out
    }
}

/// Law: in every serialized response that carries a payload, the digit run
/// between `Content-Length: ` and the blank line denotes exactly the byte
/// length of the payload body that ends the response — a byte count, not a
/// character count.
pub proof fn lemma_content_length_exact(r: ResponseView)
    requires
        r.payload is Some,
    ensures
        spec_serialize(r) == spec_http_version() + spec_status_text(r.status_code) + spec_crlf()
            + spec_content_type_text(r.payload.unwrap().content_type) + spec_crlf()
            + spec_content_length_prefix() + spec_dec(r.payload.unwrap().payload.len())
            + spec_crlf() + spec_crlf() + r.payload.unwrap().payload,
        dec_value(spec_dec(r.payload.unwrap().payload.len())) == r.payload.unwrap().payload.len(),
{
    lemma_dec_value_round_trip(r.payload.unwrap().payload.len());
}

/// Law: a response without a payload serializes to its status line followed by
/// one blank line — no Content-Type line, no Content-Length line, no body.
pub proof fn lemma_no_payload_serialization(r: ResponseView)
    requires
        r.payload is None,
    ensures
        spec_serialize(r) == spec_http_version() + spec_status_text(r.status_code) + spec_crlf()
            + spec_crlf(),
{
}

/// The bytes of `"HTTP/1.1 "`.
pub open spec fn spec_http_version() -> Seq<u8> {
    seq![72u8, 84u8, 84u8, 80u8, 47u8, 49u8, 46u8, 49u8, 32u8]
}

fn push_http_version(out: &mut Vec<u8>)
    ensures
        final(out)@ == old(out)@ + spec_http_version(),
{
    let ghost orig = out@;
    out.push(72);
    out.push(84);
    out.push(84);
    out.push(80);
    out.push(47);
    out.push(49);
    out.push(46);
    out.push(49);
    out.push(32);
    proof {
        assert(out@ =~= orig + spec_http_version());
    }
}

/// The bytes of `"200 OK"`.
pub open spec fn spec_status_ok() -> Seq<u8> {
    seq![50u8, 48u8, 48u8, 32u8, 79u8, 75u8]
}

fn push_status_ok(out: &mut Vec<u8>)
    ensures
        final(out)@ == old(out)@ + spec_status_ok(),
{
    let ghost orig = out@;
    out.push(50);
    out.push(48);
    out.push(48);
    out.push(32);
    out.push(79);
    out.push(75);
    proof {
        assert(out@ =~= orig + spec_status_ok());
    }
}

/// The bytes of `"201 Created"`.
pub open spec fn spec_status_created() -> Seq<u8> {
    seq![50u8, 48u8, 49u8, 32u8, 67u8, 114u8, 101u8, 97u8, 116u8, 101u8, 100u8]
}

fn push_status_created(out: &mut Vec<u8>)
    ensures
        final(out)@ == old(out)@ + spec_status_created(),
{
    let ghost orig = out@;
    out.push(50);
    out.push(48);
    out.push(49);
    out.push(32);
    out.push(67);
    out.push(114);
    out.push(101);
    out.push(97);
    out.push(116);
    out.push(101);
    out.push(100);
    proof {
        assert(out@ =~= orig + spec_status_created());
    }
}

/// The bytes of `"404 Not Found"`.
pub open spec fn spec_status_not_found() -> Seq<u8> {
    seq![52u8, 48u8, 52u8, 32u8, 78u8, 111u8, 116u8, 32u8, 70u8, 111u8, 117u8, 110u8, 100u8]
}

fn push_status_not_found(out: &mut Vec<u8>)
    ensures
        final(out)@ == old(out)@ + spec_status_not_found(),
{
    let ghost orig = out@;
    out.push(52);
    out.push(48);
    out.push(52);
    out.push(32);
    out.push(78);
    out.push(111);
    out.push(116);
    out.push(32);
    out.push(70);
    out.push(111);
    out.push(117);
    out.push(110);
    out.push(100);
    proof {
        assert(out@ =~= orig + spec_status_not_found());
    }
}

/// The bytes of `"400 Bad Request"`.
pub open spec fn spec_status_bad_request() -> Seq<u8> {
    seq![52u8, 48u8, 48u8, 32u8, 66u8, 97u8, 100u8, 32u8, 82u8, 101u8, 113u8, 117u8, 101u8, 115u8, 116u8]
}

fn push_status_bad_request(out: &mut Vec<u8>)
    ensures
        final(out)@ == old(out)@ + spec_status_bad_request(),
{
    let ghost orig = out@;
    out.push(52);
    out.push(48);
    out.push(48);
    out.push(32);
    out.push(66);
    out.push(97);
    out.push(100);
    out.push(32);
    out.push(82);
    out.push(101);
    out.push(113);
    out.push(117);
    out.push(101);
    out.push(115);
    out.push(116);
    proof {
        assert(out@ =~= orig + spec_status_bad_request());
    }
}

/// The bytes of `"500 Internal Server Error"`.
pub open spec fn spec_status_internal_error() -> Seq<u8> {
    seq![53u8, 48u8, 48u8, 32u8, 73u8, 110u8, 116u8, 101u8, 114u8, 110u8, 97u8, 108u8, 32u8, 83u8, 101u8, 114u8, 118u8, 101u8, 114u8, 32u8, 69u8, 114u8, 114u8, 111u8, 114u8]
}

fn push_status_internal_error(out: &mut Vec<u8>)
    ensures
        final(out)@ == old(out)@ + spec_status_internal_error(),
{
    let ghost orig = out@;
    out.push(53);
    out.push(48);
    out.push(48);
    out.push(32);
    out.push(73);
    out.push(110);
    out.push(116);
    out.push(101);
    out.push(114);
    out.push(110);
    out.push(97);
    out.push(108);
    out.push(32);
    out.push(83);
    out.push(101);
    out.push(114);
    out.push(118);
    out.push(101);
    out.push(114);
    out.push(32);
    out.push(69);
    out.push(114);
    out.push(114);
    out.push(111);
    out.push(114);
    proof {
        assert(out@ =~= orig + spec_status_internal_error());
    }
}

/// The bytes of `"Content-Type: text/plain"`.
pub open spec fn spec_content_type_plain() -> Seq<u8> {
    seq![67u8, 111u8, 110u8, 116u8, 101u8, 110u8, 116u8, 45u8, 84u8, 121u8, 112u8, 101u8, 58u8, 32u8, 116u8, 101u8, 120u8, 116u8, 47u8, 112u8, 108u8, 97u8, 105u8, 110u8]
}

fn push_content_type_plain(out: &mut Vec<u8>)
    ensures
        final(out)@ == old(out)@ + spec_content_type_plain(),
{
    let ghost orig = out@;
    out.push(67);
    out.push(111);
    out.push(110);
    out.push(116);
    out.push(101);
    out.push(110);
    out.push(116);
    out.push(45);
    out.push(84);
    out.push(121);
    out.push(112);
    out.push(101);
    out.push(58);
    out.push(32);
    out.push(116);
    out.push(101);
    out.push(120);
    out.push(116);
    out.push(47);
    out.push(112);
    out.push(108);
    out.push(97);
    out.push(105);
    out.push(110);
    proof {
        assert(out@ =~= orig + spec_content_type_plain());
    }
}

/// The bytes of `"Content-Type: application/octet-stream"`.
pub open spec fn spec_content_type_octet() -> Seq<u8> {
    seq![67u8, 111u8, 110u8, 116u8, 101u8, 110u8, 116u8, 45u8, 84u8, 121u8, 112u8, 101u8, 58u8, 32u8, 97u8, 112u8, 112u8, 108u8, 105u8, 99u8, 97u8, 116u8, 105u8, 111u8, 110u8, 47u8, 111u8, 99u8, 116u8, 101u8, 116u8, 45u8, 115u8, 116u8, 114u8, 101u8, 97u8, 109u8]
}

fn push_content_type_octet(out: &mut Vec<u8>)
    ensures
        final(out)@ == old(out)@ + spec_content_type_octet(),
{
    let ghost orig = out@;
    out.push(67);
    out.push(111);
    out.push(110);
    out.push(116);
    out.push(101);
    out.push(110);
    out.push(116);
    out.push(45);
    out.push(84);
    out.push(121);
    out.push(112);
    out.push(101);
    out.push(58);
    out.push(32);
    out.push(97);
    out.push(112);
    out.push(112);
    out.push(108);
    out.push(105);
    out.push(99);
    out.push(97);
    out.push(116);
    out.push(105);
    out.push(111);
    out.push(110);
    out.push(47);
    out.push(111);
    out.push(99);
    out.push(116);
    out.push(101);
    out.push(116);
    out.push(45);
    out.push(115);
    out.push(116);
    out.push(114);
    out.push(101);
    out.push(97);
    out.push(109);
    proof {
        assert(out@ =~= orig + spec_content_type_octet());
    }
}

/// The bytes of `"Content-Length: "`.
pub open spec fn spec_content_length_prefix() -> Seq<u8> {
    seq![67u8, 111u8, 110u8, 116u8, 101u8, 110u8, 116u8, 45u8, 76u8, 101u8, 110u8, 103u8, 116u8, 104u8, 58u8, 32u8]
}

fn push_content_length_prefix(out: &mut Vec<u8>)
    ensures
        final(out)@ == old(out)@ + spec_content_length_prefix(),
{
    let ghost orig = out@;
    out.push(67);
    out.push(111);
    out.push(110);
    out.push(116);
    out.push(101);
    out.push(110);
    out.push(116);
    out.push(45);
    out.push(76);
    out.push(101);
    out.push(110);
    out.push(103);
    out.push(116);
    out.push(104);
    out.push(58);
    out.push(32);
    proof {
        assert(out@ =~= orig + spec_content_length_prefix());
    }
}


} // verus!
