//! Character-level helpers shared by the validators and the rewriters.

use vstd::prelude::*;
use vstd::std_specs::iter::IteratorSpec;
use vstd::utf8::{decode_utf8, valid_utf8};

verus! {

/// Relies on `String::push`: the character is appended at the end.
#[verifier::external_body]
pub(crate) fn push_char(s: &mut String, c: char)
    ensures
        final(s)@ == old(s)@.push(c),
{
    s.push(c);
}

/// The text `String::from_utf8_lossy` makes of some bytes.
pub uninterp spec fn utf8_lossy(b: Seq<u8>) -> Seq<char>;

/// Relies on `String::from_utf8_lossy`: valid UTF-8 is decoded as it is;
/// invalid sequences become U+FFFD.
#[verifier::external_body]
pub(crate) fn lossy_text(b: &[u8]) -> (r: String)
    ensures
        r@ == utf8_lossy(b@),
        valid_utf8(b@) ==> r@ == decode_utf8(b@),
{
    String::from_utf8_lossy(b).into_owned()
}

/// The characters of `s`, in order.
pub fn chars_of(s: &str) -> (r: Vec<char>)
    ensures
        r@ == s@,
{
    let mut out: Vec<char> = Vec::new();
    let mut it = s.chars();
    loop
        invariant
            it.obeys_prophetic_iter_laws(),
            it.decrease() is Some,
            out@ + it.remaining() == s@,
        ensures
            out@ == s@,
        decreases it.decrease()->0,
    {
        match it.next() {
            Some(c) => {
                out.push(c);
            },
            None => {
                break;
            },
        }
    }
    out
}

} // verus!

verus! {

/// A character of Unicode general category Cc: U+0000..=U+001F or U+007F..=U+009F.
pub open spec fn is_control(c: char) -> bool {
    let n = c as u32;
    n <= 0x1f || (0x7f <= n && n <= 0x9f)
}

/// Characters that survive sanitising: everything but control characters,
/// with the tab kept where `keep_tab` holds.
pub open spec fn kept(c: char, keep_tab: bool) -> bool {
    !is_control(c) || (keep_tab && c == '\t')
}

/// `s` with the characters that sanitising drops taken out.
pub open spec fn strip_controls(s: Seq<char>, keep_tab: bool) -> Seq<char> {
    s.filter(|c: char| kept(c, keep_tab))
}

pub fn is_control_char(c: char) -> (r: bool)
    ensures
        r == is_control(c),
{
    let n = c as u32;
    n <= 0x1f || (0x7f <= n && n <= 0x9f)
}

/// Builds a `String` holding the given characters.
pub fn string_of(v: &[char]) -> (r: String)
    ensures
        r@ == v@,
{
    let mut out = String::new();
    let mut i: usize = 0;
    while i < v.len()
        invariant
            i <= v@.len(),
            out@ == v@.take(i as int),
        decreases v@.len() - i,
    {
        push_char(&mut out, v[i]);
        i = i + 1;
        assert(out@ =~= v@.take(i as int));
    }
    assert(v@.take(i as int) =~= v@);
    out
}

/// Removes control characters (keeping tabs when asked) from `s`.
pub fn remove_controls(s: &[char], keep_tab: bool) -> (r: Vec<char>)
    ensures
        r@ == strip_controls(s@, keep_tab),
{
    let mut out: Vec<char> = Vec::new();
    let mut i: usize = 0;
    while i < s.len()
        invariant
            i <= s@.len(),
            out@ == strip_controls(s@.take(i as int), keep_tab),
        decreases s@.len() - i,
    {
        let c = s[i];
        let ghost t = s@.take(i + 1);
        assert(t.drop_last() =~= s@.take(i as int));
        assert(t.last() == c);
        proof {
            reveal(Seq::filter);
        }
        assert(strip_controls(t, keep_tab) == if kept(c, keep_tab) {
            strip_controls(s@.take(i as int), keep_tab).push(c)
        } else {
            strip_controls(s@.take(i as int), keep_tab)
        });
        if !is_control_char(c) || (keep_tab && c == '\t') {
            out.push(c);
        }
        i = i + 1;
    }
    assert(s@.take(i as int) =~= s@);
    out
}

/// The decimal digits of `n`, most significant first, with no leading zero.
pub open spec fn decimal(n: nat) -> Seq<char>
    decreases n,
{
    if n < 10 {
        seq![digit_char((n % 10) as nat)]
    } else {
        decimal(n / 10).push(digit_char((n % 10) as nat))
    }
}

pub open spec fn digit_char(d: nat) -> char {
    if d == 0 { '0' }
    else if d == 1 { '1' }
    else if d == 2 { '2' }
    else if d == 3 { '3' }
    else if d == 4 { '4' }
    else if d == 5 { '5' }
    else if d == 6 { '6' }
    else if d == 7 { '7' }
    else if d == 8 { '8' }
    else { '9' }
}

fn digit(d: u64) -> (c: char)
    requires
        d < 10,
    ensures
        c == digit_char(d as nat),
{
    if d == 0 { '0' }
    else if d == 1 { '1' }
    else if d == 2 { '2' }
    else if d == 3 { '3' }
    else if d == 4 { '4' }
    else if d == 5 { '5' }
    else if d == 6 { '6' }
    else if d == 7 { '7' }
    else if d == 8 { '8' }
    else { '9' }
}

/// Writes `n` in decimal.
pub fn decimal_string(n: u64) -> (r: String)
    ensures
        r@ == decimal(n as nat),
    decreases n,
{
    if n < 10 {
        let mut s = String::new();
        push_char(&mut s, digit(n));
        assert(s@ =~= decimal(n as nat));
        s
    } else {
        let mut s = decimal_string(n / 10);
        push_char(&mut s, digit(n % 10));
        s
    }
}

} // verus!
