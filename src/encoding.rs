//! Bodies travel as standard, padded base64.

use base64::Engine;
use vstd::prelude::*;

verus! {

#[verifier::external_type_specification]
#[verifier::external_body]
pub struct ExDecodeError(base64::DecodeError);

/// The character of the standard base64 alphabet for the 6-bit value `v`.
pub open spec fn b64_char(v: int) -> char {
    if v < 26 {
        ((65 + v) as u32) as char
    } else if v < 52 {
        ((97 + v - 26) as u32) as char
    } else if v < 62 {
        ((48 + v - 52) as u32) as char
    } else if v == 62 {
        '+'
    } else {
        '/'
    }
}

/// Standard base64 with `=` padding: each group of three bytes becomes four
/// characters; a last group of one or two bytes is padded to four.
pub open spec fn b64_encode(b: Seq<u8>) -> Seq<char>
    decreases b.len(),
{
    if b.len() == 0 {
        Seq::empty()
    } else if b.len() == 1 {
        seq![b64_char((b[0] as int) / 4), b64_char(((b[0] as int) % 4) * 16), '=', '=']
    } else if b.len() == 2 {
        seq![
            b64_char((b[0] as int) / 4),
            b64_char(((b[0] as int) % 4) * 16 + (b[1] as int) / 16),
            b64_char(((b[1] as int) % 16) * 4),
            '=',
        ]
    } else {
        seq![
            b64_char((b[0] as int) / 4),
            b64_char(((b[0] as int) % 4) * 16 + (b[1] as int) / 16),
            b64_char(((b[1] as int) % 16) * 4 + (b[2] as int) / 64),
            b64_char((b[2] as int) % 64),
        ] + b64_encode(b.skip(3))
    }
}

proof fn lemma_b64_char(v: int, w: int)
    requires
        0 <= v < 64,
        0 <= w < 64,
    ensures
        b64_char(v) != '=',
        b64_char(v) == b64_char(w) ==> v == w,
{
}

proof fn lemma_encode_len(b: Seq<u8>)
    ensures
        b.len() == 0 ==> b64_encode(b).len() == 0,
        0 < b.len() <= 3 ==> b64_encode(b).len() == 4,
        b.len() > 3 ==> b64_encode(b).len() > 4,
    decreases b.len(),
{
    if b.len() >= 3 {
        lemma_encode_len(b.skip(3));
    }
}

/// The first four characters of an encoding, and what follows them.
proof fn lemma_encode_head(b: Seq<u8>)
    requires
        b.len() > 0,
    ensures
        b64_encode(b).len() >= 4,
        b64_encode(b)[0] == b64_char((b[0] as int) / 4),
        b64_encode(b)[1] == b64_char(
            ((b[0] as int) % 4) * 16 + (if b.len() >= 2 {
                (b[1] as int) / 16
            } else {
                0
            }),
        ),
        b64_encode(b)[2] == (if b.len() == 1 {
            '='
        } else {
            b64_char(
                ((b[1] as int) % 16) * 4 + (if b.len() >= 3 {
                    (b[2] as int) / 64
                } else {
                    0
                }),
            )
        }),
        b64_encode(b)[3] == (if b.len() <= 2 {
            '='
        } else {
            b64_char((b[2] as int) % 64)
        }),
        b.len() > 3 ==> b64_encode(b).skip(4) == b64_encode(b.skip(3)),
{
    lemma_encode_len(b);
    if b.len() >= 3 {
        let q = seq![
            b64_char((b[0] as int) / 4),
            b64_char(((b[0] as int) % 4) * 16 + (b[1] as int) / 16),
            b64_char(((b[1] as int) % 16) * 4 + (b[2] as int) / 64),
            b64_char((b[2] as int) % 64),
        ];
        assert(b64_encode(b) == q + b64_encode(b.skip(3)));
        assert((q + b64_encode(b.skip(3))).skip(4) =~= b64_encode(b.skip(3)));
    }
}

proof fn lemma_two_parts(x0: int, x1: int, y0: int, y1: int, k: int)
    requires
        0 <= x1 < k,
        0 <= y1 < k,
        x0 * k + x1 == y0 * k + y1,
        k > 0,
    ensures
        x0 == y0,
        x1 == y1,
{
    assert(x0 == y0) by (nonlinear_arith)
        requires
            0 <= x1 < k,
            0 <= y1 < k,
            x0 * k + x1 == y0 * k + y1,
            k > 0,
    ;
}

/// Bytes are determined by their encoding.
pub proof fn lemma_encode_injective(a: Seq<u8>, b: Seq<u8>)
    requires
        b64_encode(a) == b64_encode(b),
    ensures
        a == b,
    decreases a.len(),
{
    lemma_encode_len(a);
    lemma_encode_len(b);
    if a.len() > 0 {
        lemma_encode_head(a);
    }
    if b.len() > 0 {
        lemma_encode_head(b);
    }
    let ea = b64_encode(a);
    let eb = b64_encode(b);
    if a.len() == 0 {
        assert(a =~= b);
    } else {
        assert(b.len() > 0);
        // the padding tells the length class apart
        lemma_b64_char(((a[0] as int) % 4) * 16 + (if a.len() >= 2 { (a[1] as int) / 16 } else { 0 }), 0);
        if a.len() >= 2 {
            lemma_b64_char(((a[1] as int) % 16) * 4 + (if a.len() >= 3 { (a[2] as int) / 64 } else { 0 }), 0);
        }
        if a.len() >= 3 {
            lemma_b64_char((a[2] as int) % 64, 0);
        }
        if b.len() >= 2 {
            lemma_b64_char(((b[1] as int) % 16) * 4 + (if b.len() >= 3 { (b[2] as int) / 64 } else { 0 }), 0);
        }
        if b.len() >= 3 {
            lemma_b64_char((b[2] as int) % 64, 0);
        }
        assert(ea[2] == eb[2] && ea[3] == eb[3]);
        assert((a.len() == 1) == (b.len() == 1));
        assert((a.len() == 2) == (b.len() == 2));
        assert((a.len() > 3) == (b.len() > 3));
        lemma_b64_char((a[0] as int) / 4, (b[0] as int) / 4);
        assert((a[0] as int) / 4 == (b[0] as int) / 4);
        if a.len() == 1 {
            lemma_b64_char(((a[0] as int) % 4) * 16, ((b[0] as int) % 4) * 16);
            assert((a[0] as int) == (b[0] as int));
            assert(a =~= b);
        } else {
            lemma_b64_char(((a[0] as int) % 4) * 16 + (a[1] as int) / 16, ((b[0] as int) % 4) * 16 + (b[1] as int) / 16);
            lemma_two_parts(((a[0] as int) % 4) as int, (a[1] as int) / 16, ((b[0] as int) % 4) as int, (b[1] as int) / 16, 16);
            assert((a[0] as int) == (b[0] as int));
            if a.len() == 2 {
                lemma_b64_char(((a[1] as int) % 16) * 4, ((b[1] as int) % 16) * 4);
                assert((a[1] as int) == (b[1] as int));
                assert(a =~= b);
            } else {
                lemma_b64_char(((a[1] as int) % 16) * 4 + (a[2] as int) / 64, ((b[1] as int) % 16) * 4 + (b[2] as int) / 64);
                lemma_two_parts(((a[1] as int) % 16) as int, (a[2] as int) / 64, ((b[1] as int) % 16) as int, (b[2] as int) / 64, 4);
                lemma_b64_char((a[2] as int) % 64, (b[2] as int) % 64);
                assert((a[1] as int) == (b[1] as int));
                assert((a[2] as int) == (b[2] as int));
                if a.len() > 3 {
                    assert(b64_encode(a.skip(3)) =~= ea.skip(4));
                    assert(b64_encode(b.skip(3)) =~= eb.skip(4));
                    lemma_encode_injective(a.skip(3), b.skip(3));
                    assert(a =~= a.take(3) + a.skip(3));
                    assert(b =~= b.take(3) + b.skip(3));
                    assert(a.take(3) =~= b.take(3));
                } else {
                    assert(a =~= b);
                }
            }
        }
    }
}

/// Relies on `base64::engine::general_purpose::STANDARD.encode`: standard
/// alphabet, `=` padding. It panics only when the output length overflows.
#[verifier::external_body]
fn b64_encode_exec(b: &[u8]) -> (r: String)
    requires
        (b@.len() / 3) * 4 + 4 <= usize::MAX,
    ensures
        r@ == b64_encode(b@),
{
    base64::engine::general_purpose::STANDARD.encode(b)
}

/// Relies on `base64::engine::general_purpose::STANDARD.decode`: it accepts
/// exactly the canonical padded encodings (no trailing bits, no missing or
/// extra padding) and returns the bytes they encode.
#[verifier::external_body]
fn b64_decode_exec(s: &str) -> (r: Result<Vec<u8>, base64::DecodeError>)
    ensures
        r matches Ok(v) ==> b64_encode(v@) == s@,
        (exists|b: Seq<u8>| b64_encode(b) == s@) ==> r is Ok,
{
    base64::engine::general_purpose::STANDARD.decode(s)
}

/// Encodes bytes as standard, padded base64.
pub fn encode_body(body: &[u8]) -> (r: String)
    requires
        (body@.len() / 3) * 4 + 4 <= usize::MAX,
    ensures
        r@ == b64_encode(body@),
{
    b64_encode_exec(body)
}

/// Decodes standard, padded base64; fails on anything that is not the
/// encoding of some bytes.
pub fn decode_body(encoded: &str) -> (r: Result<Vec<u8>, base64::DecodeError>)
    ensures
        r matches Ok(v) ==> b64_encode(v@) == encoded@,
        r is Ok <==> exists|b: Seq<u8>| b64_encode(b) == encoded@,
{
    b64_decode_exec(encoded)
}

/// Decoding what `encode_body` produced gives the bytes back: `decode_body`
/// succeeds on `b64_encode(b)`, and `b` is the only value its contract allows.
pub proof fn lemma_body_round_trip(b: Seq<u8>)
    ensures
        exists|v: Seq<u8>| b64_encode(v) == b64_encode(b),
        forall|v: Seq<u8>| #[trigger] b64_encode(v) == b64_encode(b) ==> v == b,
{
    assert(b64_encode(b) == b64_encode(b));
    assert forall|v: Seq<u8>| #[trigger] b64_encode(v) == b64_encode(b) implies v == b by {
        lemma_encode_injective(v, b);
    }
}

} // verus!
