//! Conversion between the library's header map and `http::HeaderMap`, the map
//! the HTTP client and server crates use.

use vstd::multiset::Multiset;
use vstd::prelude::*;
use vstd::string::StringSliceAdditionalSpecFns;
use vstd::utf8::{decode_utf8, encode_utf8, valid_utf8};
use crate::protocol::{
    add_value, lemma_index_from, lemma_lookup_upsert, lookup, upsert,
    values_view, HeaderEntries, Headers,
};
use crate::text::{lossy_text, utf8_lossy};

verus! {

#[verifier::external_type_specification]
#[verifier::external_body]
#[verifier::reject_recursive_types(T)]
pub struct ExHeaderMap<T>(http::HeaderMap<T>);

/// The type of a header map's values, carried through opaquely.
#[verifier::external_type_specification]
#[verifier::external_body]
pub struct ExHeaderValue(http::HeaderValue);

/// What a header map holds: one (name, value bytes) pair per value.
pub uninterp spec fn header_pairs(m: http::HeaderMap) -> Multiset<(Seq<char>, Seq<u8>)>;

/// The bytes `http::HeaderName` accepts in a name (RFC 9110 token characters).
pub open spec fn is_token_byte(b: u8) -> bool {
    (48 <= b <= 57) || (65 <= b <= 90) || (97 <= b <= 122) || b == 33 || (35 <= b <= 39) || b == 42
        || b == 43 || b == 45 || b == 46 || (94 <= b <= 96) || b == 124 || b == 126
}

/// A name `http::HeaderName::from_bytes` accepts.
pub open spec fn valid_name(b: Seq<u8>) -> bool {
    1 <= b.len() <= 65535 && forall|i: int| 0 <= i < b.len() ==> is_token_byte(#[trigger] b[i])
}

/// A value `http::HeaderValue::from_str` accepts: no control bytes but tab.
pub open spec fn valid_value(b: Seq<u8>) -> bool {
    forall|i: int| 0 <= i < b.len() ==> ((#[trigger] b[i] >= 32 && b[i] != 127) || b[i] == 9)
}

/// The text of a name as stored: ASCII letters in lower case.
pub open spec fn stored_name(s: Seq<char>) -> Seq<char> {
    crate::validation::lower_all(s)
}

/// Relies on `http::HeaderMap::new`: an empty map.
#[verifier::external_body]
fn empty_header_map() -> (r: http::HeaderMap)
    ensures
        header_pairs(r) =~= Multiset::empty(),
{
    http::HeaderMap::new()
}

pub open spec fn pair_view(p: (String, Vec<u8>)) -> (Seq<char>, Seq<u8>) {
    (p.0@, p.1@)
}

/// Relies on `http::HeaderMap::iter`: each name once per value, in some order.
#[verifier::external_body]
fn header_map_pairs(m: &http::HeaderMap) -> (r: Vec<(String, Vec<u8>)>)
    ensures
        r@.map_values(|p: (String, Vec<u8>)| pair_view(p)).to_multiset() == header_pairs(*m),
{
    m.iter().map(|(n, v)| (n.as_str().to_string(), v.as_bytes().to_vec())).collect()
}

/// Relies on `http::HeaderName::from_bytes`: whether it accepts the name.
#[verifier::external_body]
fn name_accepted(b: &[u8]) -> (r: bool)
    ensures
        r == valid_name(b@),
{
    http::HeaderName::from_bytes(b).is_ok()
}

/// Relies on `http::HeaderValue::from_str`: whether it accepts the value.
#[verifier::external_body]
fn value_accepted(s: &str) -> (r: bool)
    ensures
        r == valid_value(s.spec_bytes()),
{
    http::HeaderValue::from_str(s).is_ok()
}

/// Relies on `http::HeaderMap::try_append`: the pair is added, the name in
/// lower case; the map is left as it was when it is full.
#[verifier::external_body]
fn header_map_append(m: &mut http::HeaderMap, name: &str, value: &str) -> (r: bool)
    requires
        valid_name(name.spec_bytes()),
        valid_value(value.spec_bytes()),
    ensures
        r ==> header_pairs(*final(m)) == header_pairs(*old(m)).insert(
            (stored_name(name@), value.spec_bytes()),
        ),
        !r ==> header_pairs(*final(m)) == header_pairs(*old(m)),
        header_pairs(*old(m)).len() < SAFE_PAIR_COUNT ==> r,
{
    let n = http::HeaderName::from_bytes(name.as_bytes()).unwrap();
    let v = http::HeaderValue::from_str(value).unwrap();
    m.try_append(n, v).is_ok()
}

/// The text of a value: its UTF-8 decoding, or what `from_utf8_lossy` makes
/// of bytes that are not UTF-8.
pub open spec fn value_text(b: Seq<u8>) -> Seq<char> {
    if valid_utf8(b) {
        decode_utf8(b)
    } else {
        utf8_lossy(b)
    }
}

fn value_text_exec(b: &Vec<u8>) -> (r: String)
    ensures
        r@ == value_text(b@),
{
    lossy_text(b.as_slice())
}

/// Pairs gathered by name, in order: each value joins its name's entry.
pub open spec fn gathered(p: Seq<(Seq<char>, Seq<u8>)>) -> HeaderEntries
    decreases p.len(),
{
    if p.len() == 0 {
        Seq::empty()
    } else {
        add_value(gathered(p.drop_last()), p.last().0, value_text(p.last().1))
    }
}

/// The headers of an HTTP message in the library's form; several values of a
/// name are kept, in the order the map yields them.
pub fn headers_to_map(headers: &http::HeaderMap) -> (r: Headers)
    ensures
        exists|p: Seq<(Seq<char>, Seq<u8>)>| p.to_multiset() == header_pairs(*headers) && r@ == gathered(p),
        r.well_formed(),
{
    let pairs = header_map_pairs(headers);
    let ghost p = pairs@.map_values(|x: (String, Vec<u8>)| pair_view(x));
    let mut out = Headers::new();
    let mut i: usize = 0;
    while i < pairs.len()
        invariant
            i <= pairs@.len(),
            p == pairs@.map_values(|x: (String, Vec<u8>)| pair_view(x)),
            out@ == gathered(p.take(i as int)),
            out.well_formed(),
        decreases pairs@.len() - i,
    {
        assert(p.take(i + 1).drop_last() =~= p.take(i as int));
        let v = value_text_exec(&pairs[i].1);
        out.append(pairs[i].0.clone(), v);
        i = i + 1;
    }
    assert(p.take(i as int) =~= p);
    out
}

/// The (name, value) pairs of `h` that a header map accepts, in order: every
/// value of every entry, without names or values the map refuses.
pub open spec fn raw_pairs(h: HeaderEntries) -> Seq<(Seq<char>, Seq<char>)>
    decreases h.len(),
{
    if h.len() == 0 {
        Seq::empty()
    } else {
        raw_pairs(h.drop_last()) + raw_values(h.last().0, h.last().1)
    }
}

pub open spec fn raw_values(n: Seq<char>, vs: Seq<Seq<char>>) -> Seq<(Seq<char>, Seq<char>)>
    decreases vs.len(),
{
    if vs.len() == 0 {
        Seq::empty()
    } else {
        let prev = raw_values(n, vs.drop_last());
        if valid_name(encode_utf8(n)) && valid_value(encode_utf8(vs.last())) {
            prev.push((n, vs.last()))
        } else {
            prev
        }
    }
}

/// A pair as the map stores it.
pub open spec fn stored(p: (Seq<char>, Seq<char>)) -> (Seq<char>, Seq<u8>) {
    (stored_name(p.0), encode_utf8(p.1))
}

pub open spec fn stored_pairs(h: HeaderEntries) -> Seq<(Seq<char>, Seq<u8>)> {
    raw_pairs(h).map_values(|p: (Seq<char>, Seq<char>)| stored(p))
}

/// Most pairs a header map is known to take without reaching its capacity.
pub const SAFE_PAIR_COUNT: usize = 4096;

fn accepted_list(map: &Headers) -> (r: Vec<(String, String)>)
    ensures
        r@.map_values(|p: (String, String)| (p.0@, p.1@)) == raw_pairs(map@),
{
    let mut out: Vec<(String, String)> = Vec::new();
    let n = map.len();
    let mut i: usize = 0;
    while i < n
        invariant
            i <= n == map@.len(),
            out@.map_values(|p: (String, String)| (p.0@, p.1@)) == raw_pairs(map@.take(i as int)),
        decreases n - i,
    {
        let (name, values) = map.entry(i);
        let ghost vs = values_view(values@);
        assert(map@.take(i + 1).drop_last() =~= map@.take(i as int));
        let name_ok = name_accepted(name.as_str().as_bytes());
        let ghost base = out@.map_values(|p: (String, String)| (p.0@, p.1@));
        let mut j: usize = 0;
        assert(vs.take(0) =~= Seq::<Seq<char>>::empty());
        assert(base + raw_values(name@, vs.take(0)) =~= base);
        while j < values.len()
            invariant
                j <= values@.len(),
                vs == values_view(values@),
                name_ok == valid_name(encode_utf8(name@)),
                out@.map_values(|p: (String, String)| (p.0@, p.1@)) == base + raw_values(
                    name@,
                    vs.take(j as int),
                ),
            decreases values@.len() - j,
        {
            assert(vs.take(j + 1).drop_last() =~= vs.take(j as int));
            let ghost before = out@.map_values(|p: (String, String)| (p.0@, p.1@));
            if name_ok && value_accepted(values[j].as_str()) {
                out.push((name.clone(), values[j].clone()));
                assert(out@.map_values(|p: (String, String)| (p.0@, p.1@)) =~= before.push(
                    (name@, vs[j as int]),
                ));
            }
            j = j + 1;
        }
        assert(vs.take(j as int) =~= vs);
        assert(map@.take(i + 1).last() == (name@, vs));
        i = i + 1;
    }
    assert(map@.take(i as int) =~= map@);
    out
}

/// The library's headers as an `http::HeaderMap`: every value of every entry,
/// names in lower case; names and values the map refuses are skipped. Should
/// the map fill up, it holds a prefix of those pairs.
pub fn map_to_headers(map: &Headers) -> (r: http::HeaderMap)
    ensures
        exists|k: int|
            0 <= k <= stored_pairs(map@).len() && header_pairs(r) == stored_pairs(map@).take(
                k,
            ).to_multiset(),
        stored_pairs(map@).len() <= SAFE_PAIR_COUNT ==> header_pairs(r)
            == stored_pairs(map@).to_multiset(),
{
    broadcast use vstd::seq_lib::group_to_multiset_ensures;
    let list = accepted_list(map);
    let ghost sp = stored_pairs(map@);
    assert(sp.len() == list@.len());
    let mut m = empty_header_map();
    let mut j: usize = 0;
    assert(sp.take(0) =~= Seq::<(Seq<char>, Seq<u8>)>::empty());
    while j < list.len()
        invariant
            j <= list@.len() == sp.len(),
            sp == stored_pairs(map@),
            list@.map_values(|p: (String, String)| (p.0@, p.1@)) == raw_pairs(map@),
            header_pairs(m) == sp.take(j as int).to_multiset(),
        decreases list@.len() - j,
    {
        let ghost p = list@[j as int];
        assert(raw_pairs(map@)[j as int] == (p.0@, p.1@));
        assert(sp[j as int] == stored((p.0@, p.1@)));
        assert(sp.take(j + 1) =~= sp.take(j as int).push(sp[j as int]));
        proof {
            lemma_raw_pairs_valid(map@, j as int);
        }
        let ghost old_pairs = header_pairs(m);
        proof {
            vstd::seq_lib::to_multiset_len(sp.take(j as int));
            vstd::seq_lib::to_multiset_build(sp.take(j as int), sp[j as int]);
        }
        let ok = header_map_append(&mut m, list[j].0.as_str(), list[j].1.as_str());
        if !ok {
            return m;
        }
        assert(header_pairs(m) == old_pairs.insert(sp[j as int]));
        j = j + 1;
    }
    assert(sp.take(j as int) =~= sp);
    m
}

proof fn lemma_raw_values_valid(n: Seq<char>, vs: Seq<Seq<char>>, k: int)
    requires
        0 <= k < raw_values(n, vs).len(),
    ensures
        raw_values(n, vs)[k].0 == n,
        valid_name(encode_utf8(n)),
        valid_value(encode_utf8(raw_values(n, vs)[k].1)),
    decreases vs.len(),
{
    if vs.len() > 0 {
        let prev = raw_values(n, vs.drop_last());
        if k < prev.len() {
            lemma_raw_values_valid(n, vs.drop_last(), k);
        }
    }
}

proof fn lemma_raw_pairs_valid(h: HeaderEntries, k: int)
    requires
        0 <= k < raw_pairs(h).len(),
    ensures
        valid_name(encode_utf8(raw_pairs(h)[k].0)),
        valid_value(encode_utf8(raw_pairs(h)[k].1)),
    decreases h.len(),
{
    if h.len() > 0 {
        let prev = raw_pairs(h.drop_last());
        if k < prev.len() {
            lemma_raw_pairs_valid(h.drop_last(), k);
        } else {
            lemma_raw_values_valid(h.last().0, h.last().1, k - prev.len());
        }
    }
}

/// How many pairs of `p` carry name `k` and read back as value `v`.
pub open spec fn count_where(p: Seq<(Seq<char>, Seq<u8>)>, k: Seq<char>, v: Seq<char>) -> nat
    decreases p.len(),
{
    if p.len() == 0 {
        0
    } else {
        count_where(p.drop_last(), k, v) + if p.last().0 == k && value_text(p.last().1) == v {
            1nat
        } else {
            0nat
        }
    }
}

/// How many times `v` occurs among the values under `k`.
pub open spec fn value_count(h: HeaderEntries, k: Seq<char>, v: Seq<char>) -> nat {
    match lookup(h, k) {
        Some(vs) => vs.to_multiset().count(v),
        None => 0,
    }
}

proof fn lemma_gathered(p: Seq<(Seq<char>, Seq<u8>)>, k: Seq<char>, v: Seq<char>)
    ensures
        value_count(gathered(p), k, v) == count_where(p, k, v),
        lookup(gathered(p), k) matches Some(vs) ==> vs.len() > 0,
    decreases p.len(),
{
    broadcast use vstd::seq_lib::group_to_multiset_ensures;
    broadcast use vstd::multiset::group_multiset_axioms;
    if p.len() == 0 {
        lemma_index_from(gathered(p), k, 0);
        assert(value_count(gathered(p), k, v) == 0);
    } else {
        let s = gathered(p.drop_last());
        let (n, b) = p.last();
        let t = value_text(b);
        lemma_gathered(p.drop_last(), k, v);
        let x = match lookup(s, n) {
            Some(vs) => vs.push(t),
            None => seq![t],
        };
        lemma_index_from(s, n, 0);
        assert(gathered(p) == upsert(s, n, x));
        lemma_lookup_upsert(s, n, x, k);
        if k == n {
            match lookup(s, n) {
                Some(vs) => {
                    assert(vs.push(t).to_multiset() == vs.to_multiset().insert(t));
                },
                None => {
                    assert(seq![t] =~= Seq::<Seq<char>>::empty().push(t));
                    assert(Seq::<Seq<char>>::empty().to_multiset() =~= Multiset::empty());
                },
            }
        }
    }
}

proof fn lemma_count_where_remove(q: Seq<(Seq<char>, Seq<u8>)>, j: int, k: Seq<char>, v: Seq<char>)
    requires
        0 <= j < q.len(),
    ensures
        count_where(q, k, v) == count_where(q.remove(j), k, v) + if q[j].0 == k && value_text(
            q[j].1,
        ) == v {
            1nat
        } else {
            0nat
        },
    decreases q.len(),
{
    if j == q.len() - 1 {
        assert(q.remove(j) =~= q.drop_last());
    } else {
        lemma_count_where_remove(q.drop_last(), j, k, v);
        assert(q.remove(j).drop_last() =~= q.drop_last().remove(j));
        assert(q.remove(j).last() == q.last());
    }
}

/// The count depends on the pairs, not on their order.
proof fn lemma_count_where_perm(
    p: Seq<(Seq<char>, Seq<u8>)>,
    q: Seq<(Seq<char>, Seq<u8>)>,
    k: Seq<char>,
    v: Seq<char>,
)
    requires
        p.to_multiset() == q.to_multiset(),
    ensures
        count_where(p, k, v) == count_where(q, k, v),
    decreases p.len(),
{
    broadcast use vstd::seq_lib::group_to_multiset_ensures;
    broadcast use vstd::multiset::group_multiset_axioms;
    if p.len() == 0 {
        vstd::seq_lib::to_multiset_len(p);
        vstd::seq_lib::to_multiset_len(q);
        assert(q.len() == 0);
    } else {
        let x = p.last();
        assert(p =~= p.drop_last().push(x));
        assert(p.to_multiset().count(x) > 0);
        assert(q.contains(x));
        let j = choose|j: int| 0 <= j < q.len() && q[j] == x;
        assert(p.drop_last().to_multiset() =~= p.to_multiset().remove(x));
        assert(q.remove(j).to_multiset() =~= q.to_multiset().remove(x));
        lemma_count_where_perm(p.drop_last(), q.remove(j), k, v);
        lemma_count_where_remove(q, j, k, v);
    }
}

proof fn lemma_count_where_concat(
    a: Seq<(Seq<char>, Seq<u8>)>,
    b: Seq<(Seq<char>, Seq<u8>)>,
    k: Seq<char>,
    v: Seq<char>,
)
    ensures
        count_where(a + b, k, v) == count_where(a, k, v) + count_where(b, k, v),
    decreases b.len(),
{
    if b.len() == 0 {
        assert(a + b =~= a);
    } else {
        lemma_count_where_concat(a, b.drop_last(), k, v);
        assert((a + b).drop_last() =~= a + b.drop_last());
    }
}

/// Text that a header map accepts as a value: no control character but tab.
pub open spec fn plain_value(v: Seq<char>) -> bool {
    valid_value(encode_utf8(v))
}

/// Headers a header map takes whole: every name valid, every entry with at
/// least one value, every value one the map accepts. Names may be in any case and may
/// differ only in case.
pub open spec fn mappable(h: HeaderEntries) -> bool {
    forall|i: int| 0 <= i < h.len() ==> {
        &&& valid_name(encode_utf8(#[trigger] h[i].0))
        &&& h[i].1.len() > 0
        &&& forall|j: int| 0 <= j < h[i].1.len() ==> plain_value(#[trigger] h[i].1[j])
    }
}

/// How many times `v` occurs among the values of all entries whose name, in
/// lower case, is `k`.
pub open spec fn merged_count(h: HeaderEntries, k: Seq<char>, v: Seq<char>) -> nat
    decreases h.len(),
{
    if h.len() == 0 {
        0
    } else {
        merged_count(h.drop_last(), k, v) + if stored_name(h.last().0) == k {
            h.last().1.to_multiset().count(v)
        } else {
            0nat
        }
    }
}

proof fn lemma_plain_bytes(v: Seq<char>)
    requires
        plain_value(v),
    ensures
        valid_value(encode_utf8(v)),
        value_text(encode_utf8(v)) == v,
{
    vstd::utf8::encode_utf8_valid_utf8(v);
    vstd::utf8::encode_utf8_decode_utf8(v);
}

proof fn lemma_stored_values(n: Seq<char>, vs: Seq<Seq<char>>, k: Seq<char>, v: Seq<char>)
    requires
        valid_name(encode_utf8(n)),
        forall|j: int| 0 <= j < vs.len() ==> plain_value(#[trigger] vs[j]),
    ensures
        count_where(raw_values(n, vs).map_values(|x: (Seq<char>, Seq<char>)| stored(x)), k, v)
            == if stored_name(n) == k {
            vs.to_multiset().count(v)
        } else {
            0nat
        },
    decreases vs.len(),
{
    broadcast use vstd::seq_lib::group_to_multiset_ensures;
    broadcast use vstd::multiset::group_multiset_axioms;
    if vs.len() == 0 {
        assert(vs.to_multiset() =~= Multiset::empty());
        assert(raw_values(n, vs).map_values(|x: (Seq<char>, Seq<char>)| stored(x)) =~= Seq::<
            (Seq<char>, Seq<u8>),
        >::empty());
    } else {
        let last = vs.last();
        lemma_stored_values(n, vs.drop_last(), k, v);
        lemma_plain_bytes(last);
        let prev = raw_values(n, vs.drop_last()).map_values(|x: (Seq<char>, Seq<char>)| stored(x));
        let e = (stored_name(n), encode_utf8(last));
        assert(raw_values(n, vs).map_values(|x: (Seq<char>, Seq<char>)| stored(x)) =~= prev.push(e));
        assert(vs =~= vs.drop_last().push(last));
        assert(vs.to_multiset() == vs.drop_last().to_multiset().insert(last));
        assert(prev.push(e).drop_last() =~= prev);
        assert(count_where(prev.push(e), k, v) == count_where(prev, k, v) + if stored_name(n) == k
            && last == v {
            1nat
        } else {
            0nat
        });
    }
}

proof fn lemma_prefix_mappable(h: HeaderEntries)
    requires
        mappable(h),
        h.len() > 0,
    ensures
        mappable(h.drop_last()),
{
    let g = h.drop_last();
    assert forall|i: int| 0 <= i < g.len() implies #[trigger] g[i] == h[i] by {}
}

proof fn lemma_stored_count(h: HeaderEntries, k: Seq<char>, v: Seq<char>)
    requires
        mappable(h),
    ensures
        count_where(stored_pairs(h), k, v) == merged_count(h, k, v),
    decreases h.len(),
{
    if h.len() == 0 {
        assert(stored_pairs(h) =~= Seq::<(Seq<char>, Seq<u8>)>::empty());
    } else {
        let g = h.drop_last();
        let (n, vs) = h.last();
        lemma_prefix_mappable(h);
        lemma_stored_count(g, k, v);
        assert(valid_name(encode_utf8(h[h.len() - 1].0)));
        assert forall|j: int| 0 <= j < vs.len() implies plain_value(#[trigger] vs[j]) by {
            assert(plain_value(h[h.len() - 1].1[j]));
        }
        lemma_stored_values(n, vs, k, v);
        let a = raw_pairs(g).map_values(|x: (Seq<char>, Seq<char>)| stored(x));
        let b = raw_values(n, vs).map_values(|x: (Seq<char>, Seq<char>)| stored(x));
        assert(stored_pairs(h) =~= a + b);
        lemma_count_where_concat(a, b, k, v);
    }
}

/// An entry named `k` in lower case with value `v` counts towards `merged_count`.
proof fn lemma_merged_count_witness(h: HeaderEntries, k: Seq<char>, v: Seq<char>, i: int, j: int)
    requires
        0 <= i < h.len(),
        0 <= j < h[i].1.len(),
        stored_name(h[i].0) == k,
        h[i].1[j] == v,
    ensures
        merged_count(h, k, v) > 0,
    decreases h.len(),
{
    broadcast use vstd::seq_lib::group_to_multiset_ensures;
    if i < h.len() - 1 {
        lemma_merged_count_witness(h.drop_last(), k, v, i, j);
    } else {
        assert(h.last().1.contains(v));
    }
}

proof fn lemma_merged_count_names(h: HeaderEntries, k: Seq<char>, v: Seq<char>)
    requires
        merged_count(h, k, v) > 0,
    ensures
        exists|i: int| 0 <= i < h.len() && stored_name(#[trigger] h[i].0) == k,
    decreases h.len(),
{
    if h.len() > 0 {
        if stored_name(h.last().0) == k {
            assert(stored_name(h[h.len() - 1].0) == k);
        } else {
            lemma_merged_count_names(h.drop_last(), k, v);
            let i = choose|i: int| 0 <= i < h.len() - 1 && stored_name(#[trigger] h.drop_last()[i].0) == k;
            assert(h[i] == h.drop_last()[i]);
        }
    }
}

/// Headers survive a trip through an `http::HeaderMap` and back. For headers
/// `h` whose names are valid and whose values the map accepts (any text
/// without control characters but tab), whatever order
/// the map hands its pairs back in (`p`, which holds the pairs `map_to_headers`
/// put in), the result of `headers_to_map` has as names exactly the names of
/// `h` in lower case, and under each the values of all entries of `h` with that
/// name up to case, counted with repetition. (`map_to_headers` puts in all of
/// `stored_pairs(h)` while they number at most `SAFE_PAIR_COUNT`.)
pub proof fn lemma_header_round_trip(h: HeaderEntries, p: Seq<(Seq<char>, Seq<u8>)>)
    requires
        mappable(h),
        p.to_multiset() == stored_pairs(h).to_multiset(),
    ensures
        forall|k: Seq<char>, v: Seq<char>| #[trigger]
            value_count(gathered(p), k, v) == merged_count(h, k, v),
        forall|k: Seq<char>| #[trigger] lookup(gathered(p), k) is Some <==> exists|i: int|
            0 <= i < h.len() && stored_name(#[trigger] h[i].0) == k,
{
    broadcast use vstd::seq_lib::group_to_multiset_ensures;
    assert forall|k: Seq<char>, v: Seq<char>| #[trigger]
        value_count(gathered(p), k, v) == merged_count(h, k, v) by {
        lemma_gathered(p, k, v);
        lemma_count_where_perm(p, stored_pairs(h), k, v);
        lemma_stored_count(h, k, v);
    }
    assert forall|k: Seq<char>| #[trigger] lookup(gathered(p), k) is Some <==> exists|i: int|
        0 <= i < h.len() && stored_name(#[trigger] h[i].0) == k by {
        if lookup(gathered(p), k) is Some {
            let vs = lookup(gathered(p), k)->Some_0;
            lemma_gathered(p, k, vs[0]);
            assert(vs.contains(vs[0]));
            assert(value_count(gathered(p), k, vs[0]) > 0);
            assert(merged_count(h, k, vs[0]) > 0);
            lemma_merged_count_names(h, k, vs[0]);
        }
        if exists|i: int| 0 <= i < h.len() && stored_name(#[trigger] h[i].0) == k {
            let i = choose|i: int| 0 <= i < h.len() && stored_name(#[trigger] h[i].0) == k;
            let v = h[i].1[0];
            lemma_merged_count_witness(h, k, v, i, 0);
            assert(value_count(gathered(p), k, v) > 0);
            lemma_gathered(p, k, v);
            if lookup(gathered(p), k) is None {
                assert(value_count(gathered(p), k, v) == 0);
            }
        }
    }
}

} // verus!
