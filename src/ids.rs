//! Identifiers minted by the relay: tunnel ids and request ids.

use rand::Rng;
use vstd::prelude::*;
use crate::text::push_char;
use crate::validation::{is_request_id, is_tunnel_id};

verus! {

/// Relies on rand 0.8's `Uniform::new(0, bound)` sampled from `thread_rng`
/// (a cryptographically strong generator): `n` values, each drawn uniformly
/// below `bound`. `Uniform::new` panics on an empty range.
#[verifier::external_body]
fn draw_below(n: usize, bound: u8) -> (r: Vec<u8>)
    requires
        bound > 0,
    ensures
        r@.len() == n,
        forall|i: int| 0 <= i < n ==> #[trigger] r@[i] < bound,
{
    rand::thread_rng().sample_iter(rand::distributions::Uniform::new(0u8, bound)).take(n).collect()
}

/// How many symbols a tunnel id is drawn from: `a-z`, then `0-9`.
pub const TUNNEL_ID_SYMBOLS: u8 = 36;

/// The symbol for a drawn value below 36: `a`..`z` for 0..25, `0`..`9` for 26..35.
pub open spec fn tunnel_symbol(v: u8) -> char {
    if v < 26 {
        ((97 + v) as u32) as char
    } else {
        ((48 + v - 26) as u32) as char
    }
}

/// The tunnel id spelled by twelve drawn values, each below 36.
pub fn tunnel_id_from_draw(draw: &[u8]) -> (r: String)
    requires
        draw@.len() == 12,
        forall|i: int| 0 <= i < 12 ==> #[trigger] draw@[i] < TUNNEL_ID_SYMBOLS,
    ensures
        r@ == draw@.map_values(|v: u8| tunnel_symbol(v)),
        is_tunnel_id(r@),
{
    let mut out = String::new();
    let mut i: usize = 0;
    while i < 12
        invariant
            i <= 12,
            draw@.len() == 12,
            forall|j: int| 0 <= j < 12 ==> #[trigger] draw@[j] < TUNNEL_ID_SYMBOLS,
            out@ == draw@.take(i as int).map_values(|v: u8| tunnel_symbol(v)),
        decreases 12 - i,
    {
        let v = draw[i];
        let c = if v < 26 {
            (97 + v) as char
        } else {
            (48 + (v - 26)) as char
        };
        push_char(&mut out, c);
        i = i + 1;
        assert(out@ =~= draw@.take(i as int).map_values(|v: u8| tunnel_symbol(v)));
    }
    assert(draw@.take(12) =~= draw@);
    assert forall|j: int| 0 <= j < out@.len() implies crate::validation::is_lower_alnum(
        #[trigger] out@[j],
    ) by {
        assert(draw@[j] < 36);
    }
    out
}

/// A fresh random tunnel id: twelve characters drawn uniformly from `a-z0-9`.
pub fn generate_subdomain() -> (r: String)
    ensures
        is_tunnel_id(r@),
{
    let draw = draw_below(12, TUNNEL_ID_SYMBOLS);
    tunnel_id_from_draw(draw.as_slice())
}

pub open spec fn is_lower_hex(c: char) -> bool {
    crate::validation::is_lower_hex(c)
}

/// The hyphenated lowercase text of a version 4 UUID.
pub open spec fn is_uuid_v4_text(s: Seq<char>) -> bool {
    &&& s.len() == 36
    &&& forall|i: int|
        0 <= i < 36 ==> if i == 8 || i == 13 || i == 18 || i == 23 {
            #[trigger] s[i] == '-'
        } else {
            is_lower_hex(s[i])
        }
    &&& s[14] == '4'
    &&& (s[19] == '8' || s[19] == '9' || s[19] == 'a' || s[19] == 'b')
}

/// Relies on `uuid::Uuid::new_v4` and its `Display`: a random version 4 UUID,
/// written hyphenated in lower case (`8-4-4-4-12` hex digits).
#[verifier::external_body]
fn uuid_v4_text() -> (r: String)
    ensures
        is_uuid_v4_text(r@),
{
    uuid::Uuid::new_v4().to_string()
}

/// The request id for a UUID text: `req_` followed by it.
pub fn request_id_from_uuid(u: &str) -> (r: String)
    ensures
        r@ == seq!['r', 'e', 'q', '_'] + u@,
        is_uuid_v4_text(u@) ==> is_request_id(r@),
{
    let mut out = String::new();
    push_char(&mut out, 'r');
    push_char(&mut out, 'e');
    push_char(&mut out, 'q');
    push_char(&mut out, '_');
    assert(out@ =~= seq!['r', 'e', 'q', '_']);
    let cs = crate::text::chars_of(u);
    let mut i: usize = 0;
    while i < cs.len()
        invariant
            i <= cs@.len(),
            cs@ == u@,
            out@ == seq!['r', 'e', 'q', '_'] + cs@.take(i as int),
        decreases cs@.len() - i,
    {
        push_char(&mut out, cs[i]);
        i = i + 1;
        assert(out@ =~= seq!['r', 'e', 'q', '_'] + cs@.take(i as int));
    }
    assert(cs@.take(i as int) =~= cs@);
    proof {
        if is_uuid_v4_text(u@) {
            assert forall|k: int| 4 <= k < 40 implies if crate::validation::is_dash_position(k) {
                #[trigger] out@[k] == '-'
            } else {
                crate::validation::is_lower_hex(out@[k])
            } by {
                assert(out@[k] == u@[k - 4]);
            }
        }
    }
    out
}

/// A fresh request id: `req_` followed by a random UUID v4 in lower case.
pub fn generate_request_id() -> (r: String)
    ensures
        is_request_id(r@),
        r@.take(4) == seq!['r', 'e', 'q', '_'],
        is_uuid_v4_text(r@.skip(4)),
{
    let u = uuid_v4_text();
    let r = request_id_from_uuid(u.as_str());
    assert(r@.take(4) =~= seq!['r', 'e', 'q', '_']);
    assert(r@.skip(4) =~= u@);
    r
}

} // verus!
