//! Reading caller claims from a bearer token.
//!
//! A gateway bearer token is `header.PAYLOAD.signature`; the payload is
//! base64url-encoded JSON. This module decodes (it does not verify) that payload
//! and reads named claims. Signature and expiry checks belong to a JWT
//! validation policy that runs upstream; without one the claims are
//! caller-controlled and must not be trusted.

use vstd::prelude::*;
use crate::json::{opt_text, Json};
use crate::text::{
    chars_of, first_index, has_prefix, lemma_first_index, lemma_first_index_unique,
    lemma_split_on_first, lemma_trim_end_concat, lemma_trim_start_concat, lemma_trim_start_shape,
    split_on, split_ranges, strip_prefix, trim, trim_end, trim_start, trimmed, utf8,
};

verus! {

/// The value of a base64url alphabet byte (RFC 4648 §5), if it is one.
pub open spec fn sextet_of(c: u8) -> Option<u8> {
    if 65 <= c <= 90 {
        Some((c - 65) as u8)
    } else if 97 <= c <= 122 {
        Some((c - 97 + 26) as u8)
    } else if 48 <= c <= 57 {
        Some((c - 48 + 52) as u8)
    } else if c == 45 {
        Some(62u8)
    } else if c == 95 {
        Some(63u8)
    } else {
        None
    }
}

/// Every byte of `s` is in the base64url alphabet.
pub open spec fn all_sextets(s: Seq<u8>) -> bool {
    forall|i: int| 0 <= i < s.len() ==> (#[trigger] sextet_of(s[i])) is Some
}

/// The six-bit values of the alphabet bytes `s`.
pub open spec fn sextets(s: Seq<u8>) -> Seq<u8> {
    s.map_values(|c: u8| sextet_of(c).unwrap())
}

/// First byte of a group: the six bits of `a` and the high two of `b`.
pub open spec fn group_byte0(a: u8, b: u8) -> u8 {
    (a * 4 + b / 16) as u8
}

/// Second byte of a group: the low four bits of `b` and the high four of `c`.
pub open spec fn group_byte1(b: u8, c: u8) -> u8 {
    ((b % 16) * 16 + c / 4) as u8
}

/// Third byte of a group: the low two bits of `c` and the six of `d`.
pub open spec fn group_byte2(c: u8, d: u8) -> u8 {
    ((c % 4) * 64 + d) as u8
}

/// The bytes that six-bit values `q` encode: each group of four gives three
/// bytes, a trailing group of three gives two, of two gives one, of one none.
pub open spec fn decode_sextets(q: Seq<u8>) -> Seq<u8>
    decreases q.len(),
{
    if q.len() >= 4 {
        seq![group_byte0(q[0], q[1]), group_byte1(q[1], q[2]), group_byte2(q[2], q[3])]
            + decode_sextets(q.skip(4))
    } else if q.len() == 3 {
        seq![group_byte0(q[0], q[1]), group_byte1(q[1], q[2])]
    } else if q.len() == 2 {
        seq![group_byte0(q[0], q[1])]
    } else {
        Seq::empty()
    }
}

/// The part of `input` before the first `=`.
pub open spec fn before_padding(input: Seq<u8>) -> Seq<u8> {
    input.take(first_index(input, 61u8))
}

/// What unpadded base64url decoding gives for `input`: decoding stops at the
/// first `=`; any other byte outside the alphabet before it makes the input
/// malformed.
pub open spec fn base64url(input: Seq<u8>) -> Option<Seq<u8>> {
    let p = before_padding(input);
    if all_sextets(p) {
        Some(decode_sextets(sextets(p)))
    } else {
        None
    }
}

/// The byte, if any, that one more six-bit value `x` completes after `q`.
pub open spec fn next_byte(q: Seq<u8>, x: u8) -> Seq<u8> {
    if q.len() % 4 == 0 {
        Seq::empty()
    } else if q.len() % 4 == 1 {
        seq![group_byte0(q.last(), x)]
    } else if q.len() % 4 == 2 {
        seq![group_byte1(q.last(), x)]
    } else {
        seq![group_byte2(q.last(), x)]
    }
}

/// `lemma_decode_push` for fewer than four values.
proof fn lemma_decode_push_short(q: Seq<u8>, x: u8)
    requires
        q.len() < 4,
    ensures
        decode_sextets(q.push(x)) == decode_sextets(q) + next_byte(q, x),
{
    let qx = q.push(x);
    if q.len() == 3 {
        assert(decode_sextets(qx.skip(4)) =~= Seq::<u8>::empty());
        assert(decode_sextets(qx) =~= decode_sextets(q) + next_byte(q, x));
    } else if q.len() == 2 {
        assert(decode_sextets(qx) =~= decode_sextets(q) + next_byte(q, x));
    } else if q.len() == 1 {
        assert(decode_sextets(qx) =~= decode_sextets(q) + next_byte(q, x));
    } else {
        assert(decode_sextets(qx) =~= decode_sextets(q) + next_byte(q, x));
    }
}

/// Appending one six-bit value to `q` appends at most one byte to what it
/// decodes to.
pub proof fn lemma_decode_push(q: Seq<u8>, x: u8)
    ensures
        decode_sextets(q.push(x)) == decode_sextets(q) + next_byte(q, x),
    decreases q.len(),
{
    if q.len() < 4 {
        lemma_decode_push_short(q, x);
    } else {
        let qx = q.push(x);
        let t = q.skip(4);
        lemma_decode_push(t, x);
        assert(qx.skip(4) =~= t.push(x));
        assert(next_byte(t, x) == next_byte(q, x)) by {
            if t.len() > 0 {
                assert(t.last() == q.last());
            }
        }
        let head = seq![group_byte0(q[0], q[1]), group_byte1(q[1], q[2]), group_byte2(q[2], q[3])];
        assert(decode_sextets(q) == head + decode_sextets(t));
        assert(decode_sextets(qx) == head + decode_sextets(t.push(x)));
        assert(decode_sextets(qx) =~= decode_sextets(q) + next_byte(q, x));
    }
}

/// The value of an alphabet byte (`A-Z a-z 0-9 - _`), if it is one.
fn sextet(c: u8) -> (r: Option<u32>)
    ensures
        match sextet_of(c) {
            Some(v) => r == Some(v as u32),
            None => r is None,
        },
{
    if 65 <= c && c <= 90 {
        Some((c - 65) as u32)
    } else if 97 <= c && c <= 122 {
        Some((c - 97 + 26) as u32)
    } else if 48 <= c && c <= 57 {
        Some((c - 48 + 52) as u32)
    } else if c == 45 {
        Some(62)
    } else if c == 95 {
        Some(63)
    } else {
        None
    }
}

/// A value that completes no byte leaves its six bits at the bottom of the buffer.
proof fn lemma_step0(buf: u32, x: u32)
    by (bit_vector)
    requires
        x < 64,
    ensures
        ((buf << 6u32) | x) % 64 == x,
{
}

/// With six bits pending, the next value completes a first group byte.
proof fn lemma_step1(buf: u32, x: u32)
    by (bit_vector)
    requires
        x < 64,
    ensures
        ((((buf << 6u32) | x) >> 4u32) as u8) == (((buf % 64) * 4 + x / 16) as u8),
        ((buf << 6u32) | x) % 16 == x % 16,
{
}

/// With four bits pending, the next value completes a second group byte.
proof fn lemma_step2(buf: u32, x: u32)
    by (bit_vector)
    requires
        x < 64,
    ensures
        ((((buf << 6u32) | x) >> 2u32) as u8) == (((buf % 16) * 16 + x / 4) as u8),
        ((buf << 6u32) | x) % 4 == x % 4,
{
}

/// With two bits pending, the next value completes a third group byte.
proof fn lemma_step3(buf: u32, x: u32)
    by (bit_vector)
    requires
        x < 64,
    ensures
        ((((buf << 6u32) | x) >> 0u32) as u8) == (((buf % 4) * 64 + x) as u8),
{
}

/// The bits still waiting in the buffer after `i` six-bit values.
spec fn pending(buf: u32, bits: u32, q: Seq<u8>) -> bool {
    &&& bits == (if q.len() % 4 == 0 {
        0u32
    } else if q.len() % 4 == 1 {
        6u32
    } else if q.len() % 4 == 2 {
        4u32
    } else {
        2u32
    })
    &&& q.len() % 4 == 1 ==> buf % 64 == q.last()
    &&& q.len() % 4 == 2 ==> buf % 16 == q.last() % 16
    &&& q.len() % 4 == 3 ==> buf % 4 == q.last() % 4
}

/// Minimal base64url (RFC 4648 §5, no padding) decoder: decoding stops at the
/// first `=`, and any other byte outside the alphabet before it gives `None`.
pub fn base64url_decode(input: &str) -> (r: Option<Vec<u8>>)
    ensures
        match base64url(utf8(input@)) {
            Some(bytes) => r matches Some(v) && v@ == bytes,
            None => r is None,
        },
{
    let bytes = input.as_bytes();
    let ghost s = bytes@;
    let n = bytes.len();
    let mut out: Vec<u8> = Vec::new();
    let mut buf: u32 = 0;
    let mut bits: u32 = 0;
    let mut i: usize = 0;
    while i < n
        invariant_except_break
            n == s.len(),
            s == utf8(input@),
            bytes@ == s,
            0 <= i <= n,
            forall|k: int| 0 <= k < i ==> s[k] != 61u8,
            all_sextets(s.take(i as int)),
            out@ == decode_sextets(sextets(s.take(i as int))),
            pending(buf, bits, sextets(s.take(i as int))),
        ensures
            0 <= i <= n,
            n == s.len(),
            s == utf8(input@),
            forall|k: int| 0 <= k < i ==> s[k] != 61u8,
            i < n ==> s[i as int] == 61u8,
            all_sextets(s.take(i as int)),
            out@ == decode_sextets(sextets(s.take(i as int))),
        decreases n - i,
    {
        let c = bytes[i];
        if c == 61 {
            break;
        }
        let x = match sextet(c) {
            Some(x) => x,
            None => {
                proof {
                    lemma_first_index(s, 61u8);
                    assert(first_index(s, 61u8) > i) by {
                        if first_index(s, 61u8) <= i {
                            if first_index(s, 61u8) < i {
                                assert(s[first_index(s, 61u8)] != 61u8);
                            }
                        }
                    }
                    let p = before_padding(s);
                    assert(p[i as int] == c);
                    assert(!all_sextets(p));
                }
                return None;
            },
        };
        let ghost q = sextets(s.take(i as int));
        let ghost q2 = sextets(s.take(i + 1));
        assert(q2 =~= q.push(x as u8));
        proof {
            lemma_decode_push(q, x as u8);
        }
        let old_buf = buf;
        buf = (buf << 6) | x;
        bits = bits + 6;
        if bits >= 8 {
            bits = bits - 8;
            proof {
                if q.len() % 4 == 1 {
                    lemma_step1(old_buf, x);
                } else if q.len() % 4 == 2 {
                    lemma_step2(old_buf, x);
                } else {
                    lemma_step3(old_buf, x);
                }
            }
            out.push(#[verifier::truncate] ((buf >> bits) as u8));
        } else {
            proof {
                lemma_step0(old_buf, x);
            }
        }
        assert(all_sextets(s.take(i + 1))) by {
            assert forall|k: int| 0 <= k < i + 1 implies (#[trigger] sextet_of(
                s.take(i + 1)[k],
            )) is Some by {
                if k < i {
                    assert(s.take(i + 1)[k] == s.take(i as int)[k]);
                }
            }
        }
        i = i + 1;
    }
    proof {
        lemma_first_index_unique(s, 61u8, i as int);
    }
    assert(before_padding(s) =~= s.take(i as int));
    Some(out)
}

/// The base64url alphabet byte of a six-bit value (RFC 4648 §5).
pub open spec fn alphabet_byte(v: u8) -> u8 {
    if v < 26 {
        (65 + v) as u8
    } else if v < 52 {
        (97 + v - 26) as u8
    } else if v < 62 {
        (48 + v - 52) as u8
    } else if v == 62 {
        45u8
    } else {
        95u8
    }
}

/// The six-bit values that encode `b`, without padding: three bytes give four
/// values, a trailing two give three, a trailing one gives two.
pub open spec fn encode_sextets(b: Seq<u8>) -> Seq<u8>
    decreases b.len(),
{
    if b.len() >= 3 {
        seq![
            b[0] / 4,
            ((b[0] % 4) * 16 + b[1] / 16) as u8,
            ((b[1] % 16) * 4 + b[2] / 64) as u8,
            b[2] % 64,
        ] + encode_sextets(b.skip(3))
    } else if b.len() == 2 {
        seq![b[0] / 4, ((b[0] % 4) * 16 + b[1] / 16) as u8, ((b[1] % 16) * 4) as u8]
    } else if b.len() == 1 {
        seq![b[0] / 4, ((b[0] % 4) * 16) as u8]
    } else {
        Seq::empty()
    }
}

/// Unpadded base64url encoding of `b` (RFC 4648 §5).
pub open spec fn base64url_encode(b: Seq<u8>) -> Seq<u8> {
    encode_sextets(b).map_values(|v: u8| alphabet_byte(v))
}

/// Encoding yields six-bit values.
proof fn lemma_encode_sextets_small(b: Seq<u8>)
    ensures
        forall|i: int| 0 <= i < encode_sextets(b).len() ==> #[trigger] encode_sextets(b)[i] < 64,
    decreases b.len(),
{
    if b.len() >= 3 {
        lemma_encode_sextets_small(b.skip(3));
        let e = encode_sextets(b);
        let t = encode_sextets(b.skip(3));
        assert forall|i: int| 0 <= i < e.len() implies #[trigger] e[i] < 64 by {
            if i >= 4 {
                assert(e[i] == t[i - 4]);
            }
        }
    }
}

/// Decoding the six-bit values of an encoding gives the bytes back.
proof fn lemma_decode_encode(b: Seq<u8>)
    ensures
        decode_sextets(encode_sextets(b)) == b,
    decreases b.len(),
{
    let e = encode_sextets(b);
    if b.len() >= 3 {
        lemma_decode_encode(b.skip(3));
        let (x, y, z) = (b[0], b[1], b[2]);
        assert(group_byte0(x / 4, ((x % 4) * 16 + y / 16) as u8) == x) by (nonlinear_arith);
        assert(group_byte1(((x % 4) * 16 + y / 16) as u8, ((y % 16) * 4 + z / 64) as u8) == y)
            by (nonlinear_arith);
        assert(group_byte2(((y % 16) * 4 + z / 64) as u8, z % 64) == z) by (nonlinear_arith);
        assert(e.skip(4) =~= encode_sextets(b.skip(3)));
        assert(decode_sextets(e) =~= b);
    } else if b.len() == 2 {
        let (x, y) = (b[0], b[1]);
        assert(group_byte0(x / 4, ((x % 4) * 16 + y / 16) as u8) == x) by (nonlinear_arith);
        assert(group_byte1(((x % 4) * 16 + y / 16) as u8, ((y % 16) * 4) as u8) == y)
            by (nonlinear_arith);
        assert(decode_sextets(e) =~= b);
    } else if b.len() == 1 {
        let x = b[0];
        assert(group_byte0(x / 4, ((x % 4) * 16) as u8) == x) by (nonlinear_arith);
        assert(decode_sextets(e) =~= b);
    } else {
        assert(decode_sextets(e) =~= b);
    }
}

/// Round trip: decoding the unpadded base64url encoding of any bytes gives the
/// bytes back.
pub proof fn lemma_base64url_round_trip(b: Seq<u8>)
    ensures
        base64url(base64url_encode(b)) == Some(b),
{
    let q = encode_sextets(b);
    let s = base64url_encode(b);
    lemma_encode_sextets_small(b);
    assert forall|i: int| 0 <= i < s.len() implies s[i] != 61u8 && sextet_of(s[i]) == Some(q[i]) by {
        assert(q[i] < 64);
    }
    lemma_first_index_unique(s, 61u8, s.len() as int);
    assert(before_padding(s) =~= s);
    assert(all_sextets(s));
    assert(sextets(s) =~= q);
    lemma_decode_encode(b);
}

/// The text of ASCII bytes, one character per byte.
pub open spec fn ascii_text(b: Seq<u8>) -> Seq<char> {
    b.map_values(|x: u8| x as char)
}

/// The UTF-8 bytes of ASCII text are the bytes it was read from.
proof fn lemma_ascii_utf8(b: Seq<u8>)
    requires
        forall|i: int| 0 <= i < b.len() ==> #[trigger] b[i] < 128,
    ensures
        utf8(ascii_text(b)) == b,
    decreases b.len(),
{
    if b.len() > 0 {
        let c = ascii_text(b);
        assert(c.drop_first() =~= ascii_text(b.drop_first()));
        assert forall|i: int| 0 <= i < b.drop_first().len() implies #[trigger] b.drop_first()[i]
            < 128 by {
            assert(b.drop_first()[i] == b[i + 1]);
        }
        lemma_ascii_utf8(b.drop_first());
        let x = b[0];
        assert(x < 128);
        assert(c[0] as u32 == x as u32);
        assert(((x as u32) & 0x7F) as u8 == x) by (bit_vector)
            requires
                x < 128,
        ;
        assert(utf8(c) =~= seq![x] + b.drop_first());
        assert(seq![x] + b.drop_first() =~= b);
    }
}

/// Base64url text is ASCII and holds no `.`.
proof fn lemma_encoding_is_plain_ascii(payload: Seq<u8>)
    ensures
        forall|i: int|
            0 <= i < base64url_encode(payload).len() ==> #[trigger] base64url_encode(payload)[i]
                < 128 && base64url_encode(payload)[i] != 46,
{
    let q = encode_sextets(payload);
    let e = base64url_encode(payload);
    assert forall|i: int| 0 <= i < e.len() implies #[trigger] e[i] < 128 && e[i] != 46 by {
        assert(e[i] == alphabet_byte(q[i]));
    }
}

/// The token of an `Authorization` value: after trimming, the value must start
/// with `Bearer `, `bearer ` or `BEARER `; what follows, trimmed, is the token.
pub open spec fn bearer_token(raw: Seq<char>) -> Option<Seq<char>> {
    let t = trimmed(raw);
    if has_prefix(t, "Bearer "@) {
        Some(trimmed(t.skip(7)))
    } else if has_prefix(t, "bearer "@) {
        Some(trimmed(t.skip(7)))
    } else if has_prefix(t, "BEARER "@) {
        Some(trimmed(t.skip(7)))
    } else {
        None
    }
}

/// The payload segment of a `header.PAYLOAD.signature` token: the second
/// `.`-separated piece, when there is one.
pub open spec fn jwt_payload(token: Seq<char>) -> Option<Seq<char>> {
    let parts = split_on(token, '.');
    if parts.len() > 1 {
        Some(parts[1])
    } else {
        None
    }
}

/// The claims bytes carried by an `Authorization` value.
pub open spec fn claims_bytes(authorization: Option<Seq<char>>) -> Option<Seq<u8>> {
    match authorization {
        None => None,
        Some(raw) => match bearer_token(raw) {
            None => None,
            Some(token) => match jwt_payload(token) {
                None => None,
                Some(payload) => base64url(utf8(payload)),
            },
        },
    }
}

/// A bearer token carries its payload: the `Authorization` value
/// `<scheme><header>.<payload in base64url>.<signature>`, with scheme `Bearer `,
/// `bearer ` or `BEARER `, any header without a `.` and any signature, yields
/// the payload bytes. The signature is never looked at.
pub proof fn lemma_bearer_carries_payload(
    payload: Seq<u8>,
    scheme: Seq<char>,
    header: Seq<char>,
    signature: Seq<char>,
)
    requires
        scheme == "Bearer "@ || scheme == "bearer "@ || scheme == "BEARER "@,
        !header.contains('.'),
    ensures
        claims_bytes(
            Some(scheme + header + seq!['.'] + ascii_text(base64url_encode(payload)) + seq!['.']
                + signature),
        ) == Some(payload),
{
    reveal_strlit("Bearer ");
    reveal_strlit("bearer ");
    reveal_strlit("BEARER ");
    let e = base64url_encode(payload);
    let text = ascii_text(e);
    lemma_encoding_is_plain_ascii(payload);
    lemma_ascii_utf8(e);
    assert(!text.contains('.')) by {
        assert forall|i: int| 0 <= i < text.len() implies text[i] != '.' by {
            assert(text[i] as u32 == e[i] as u32);
        }
    }
    let raw = scheme + header + seq!['.'] + text + seq!['.'] + signature;
    let x = scheme + header + seq!['.'] + text + seq!['.'];
    assert(raw =~= x + signature);
    lemma_trim_end_concat(x, signature);
    assert(raw[0] == scheme[0]);
    assert(trim_start(raw) == raw);
    let t = trimmed(raw);
    assert(t =~= x + trim_end(signature));
    assert(t.take(7) =~= scheme);
    let rest = seq!['.'] + text + seq!['.'] + trim_end(signature);
    assert(t.skip(7) =~= header + rest);
    lemma_trim_start_concat(header, rest);
    let h = trim_start(header);
    let x2 = h + seq!['.'] + text + seq!['.'];
    assert(trim_start(header + rest) =~= x2 + trim_end(signature));
    lemma_trim_end_concat(x2, trim_end(signature));
    let w = trim_end(trim_end(signature));
    let token = x2 + w;
    assert(bearer_token(raw) == Some(token));
    lemma_trim_start_shape(header);
    assert(!h.contains('.')) by {
        assert forall|i: int| 0 <= i < h.len() implies h[i] != '.' by {
            assert(h[i] == header[header.len() - h.len() + i]);
        }
    }
    assert(token =~= h + seq!['.'] + (text + seq!['.'] + w));
    lemma_split_on_first(h, '.', text + seq!['.'] + w);
    lemma_split_on_first(text, '.', w);
    assert(split_on(token, '.')[1] == text);
    lemma_base64url_round_trip(payload);
}

/// The view of an optional string slice.
pub open spec fn opt_str(o: Option<&str>) -> Option<Seq<char>> {
    match o {
        Some(s) => Some(s@),
        None => None,
    }
}

/// Decode the unverified claims payload of an `Authorization: Bearer <jwt>`
/// header, as the JSON bytes that the caller then parses. Returns `None` when
/// the header is missing, is not a Bearer token, has no payload segment, or the
/// payload is not base64url.
pub fn decode_bearer_claims(authorization: Option<&str>) -> (r: Option<Vec<u8>>)
    ensures
        match claims_bytes(opt_str(authorization)) {
            Some(bytes) => r matches Some(v) && v@ == bytes,
            None => r is None,
        },
{
    let raw = match authorization {
        Some(a) => trim(a),
        None => return None,
    };
    proof {
        reveal_strlit("Bearer ");
        reveal_strlit("bearer ");
        reveal_strlit("BEARER ");
    }
    let rest = match strip_prefix(raw, "Bearer ") {
        Some(t) => t,
        None => match strip_prefix(raw, "bearer ") {
            Some(t) => t,
            None => match strip_prefix(raw, "BEARER ") {
                Some(t) => t,
                None => return None,
            },
        },
    };
    let token = trim(rest);
    let v = chars_of(token);
    let ranges = split_ranges(&v, '.');
    if ranges.len() < 2 {
        return None;
    }
    let (from, to) = ranges[1];
    assert(crate::text::pieces(v@, ranges@)[1] == v@.subrange(from as int, to as int));
    let payload = token.substring_char(from, to);
    base64url_decode(payload)
}

/// What a scalar claim value reads as: a string trimmed, a number as written;
/// anything else has no reading.
pub open spec fn claim_scalar_text(v: Json) -> Option<Seq<char>> {
    match v {
        Json::Str(s) => Some(trimmed(s@)),
        Json::Number(n) => Some(n@),
        _ => None,
    }
}

/// What a claim value reads as: a scalar by `claim_scalar_text`, a single-element
/// array by its element's reading; anything else has no reading.
pub open spec fn claim_text(v: Json) -> Option<Seq<char>> {
    match v {
        Json::Array(items) => if items@.len() == 1 {
            claim_scalar_text(items@[0])
        } else {
            None
        },
        _ => claim_scalar_text(v),
    }
}

/// The claim `name` of `claims` as a single non-empty string.
pub open spec fn claim(claims: Json, name: Seq<char>) -> Option<Seq<char>> {
    match claims.field(name) {
        None => None,
        Some(v) => match claim_text(v) {
            Some(t) => if t.len() > 0 {
                Some(t)
            } else {
                None
            },
            None => None,
        },
    }
}

/// A claim read from a string (or a one-string array) is non-empty and
/// trimmed: it neither starts nor ends with white space.
pub proof fn lemma_claim_trimmed(claims: Json, name: Seq<char>)
    requires
        claims.field(name) matches Some(v) && (v is Str || (v matches Json::Array(items)
            && items@.len() == 1 && items@[0] is Str)),
    ensures
        claim(claims, name) matches Some(t) ==> t.len() > 0 && trimmed(t) == t,
{
    match claims.field(name) {
        Some(Json::Str(s)) => crate::text::lemma_trimmed_idempotent(s@),
        Some(Json::Array(items)) => {
            if items@.len() == 1 {
                if let Json::Str(s) = items@[0] {
                    crate::text::lemma_trimmed_idempotent(s@);
                }
            }
        },
        _ => {},
    }
}

/// A claim's value as a single trimmed, non-empty string.
///
/// `name` is matched as a literal top-level key, so namespaced claims such as
/// `https://example.com/clearance` work as written. A string is used trimmed; a
/// number is stringified; a single-element array yields its element, read the
/// same way.
/// Multi-element arrays and objects give `None`.
pub fn claim_str(claims: &Json, name: &str) -> (r: Option<String>)
    ensures
        opt_text(r) == claim(*claims, name@),
{
    let v = match claims.get(name) {
        Some(v) => v,
        None => return None,
    };
    let s: String = match v {
        Json::Str(s) => trim(s.as_str()).to_owned(),
        Json::Number(n) => n.clone(),
        Json::Array(items) => {
            if items.len() == 1 {
                match &items[0] {
                    Json::Str(s) => trim(s.as_str()).to_owned(),
                    Json::Number(n) => n.clone(),
                    _ => return None,
                }
            } else {
                return None;
            }
        },
        _ => return None,
    };
    if s.as_str().is_empty() {
        None
    } else {
        Some(s)
    }
}

} // verus!
