//! Validation of the identifiers, paths and header fields that reach the relay
//! from the public side.

use vstd::prelude::*;
use vstd::string::StringSliceAdditionalSpecFns;
use crate::text::{
    chars_of, decimal, decimal_string, push_char, remove_controls, string_of,
    strip_controls,
};

verus! {

/// Longest header value accepted, in bytes.
pub const MAX_HEADER_VALUE_LENGTH: usize = 8192;

/// Longest path accepted, in bytes.
pub const MAX_PATH_LENGTH: usize = 2048;

/// How many characters of a rejected identifier an error message repeats.
pub const ECHO_LIMIT: usize = 50;

/// Why an input was rejected.
#[derive(Debug, Clone, PartialEq, Eq)]
pub enum ValidationError {
    InvalidTunnelId(String),
    InvalidRequestId(String),
    InvalidConnectionId(String),
    /// The path's length in bytes, and the limit.
    PathTooLong(usize, usize),
    /// The value's length in bytes, and the limit.
    HeaderValueTooLong(usize, usize),
    InvalidHeaderValue,
}

pub open spec fn is_lower_alnum(c: char) -> bool {
    ('a' <= c && c <= 'z') || ('0' <= c && c <= '9')
}

pub open spec fn is_lower_hex(c: char) -> bool {
    ('a' <= c && c <= 'f') || ('0' <= c && c <= '9')
}

pub open spec fn is_connection_id_char(c: char) -> bool {
    ('a' <= c && c <= 'z') || ('A' <= c && c <= 'Z') || ('0' <= c && c <= '9') || c == '_'
        || c == '=' || c == '-'
}

/// `^[a-z0-9]{12}$`
pub open spec fn is_tunnel_id(s: Seq<char>) -> bool {
    s.len() == 12 && forall|i: int| 0 <= i < s.len() ==> is_lower_alnum(#[trigger] s[i])
}

/// Positions of the dashes in a request id.
pub open spec fn is_dash_position(i: int) -> bool {
    i == 12 || i == 17 || i == 22 || i == 27
}

/// `^req_[a-f0-9]{8}-[a-f0-9]{4}-[a-f0-9]{4}-[a-f0-9]{4}-[a-f0-9]{12}$`
pub open spec fn is_request_id(s: Seq<char>) -> bool {
    &&& s.len() == 40
    &&& s[0] == 'r' && s[1] == 'e' && s[2] == 'q' && s[3] == '_'
    &&& forall|i: int|
        4 <= i < 40 ==> if is_dash_position(i) {
            #[trigger] s[i] == '-'
        } else {
            is_lower_hex(s[i])
        }
}

/// `^[A-Za-z0-9_=-]{1,128}$`
pub open spec fn is_connection_id(s: Seq<char>) -> bool {
    1 <= s.len() <= 128 && forall|i: int| 0 <= i < s.len() ==> is_connection_id_char(#[trigger] s[i])
}

/// What an error message repeats of a rejected identifier: its first characters.
pub open spec fn echo(s: Seq<char>) -> Seq<char> {
    if s.len() <= ECHO_LIMIT {
        s
    } else {
        s.take(ECHO_LIMIT as int)
    }
}

fn echo_of(s: &Vec<char>) -> (r: String)
    ensures
        r@ == echo(s@),
{
    if s.len() <= ECHO_LIMIT {
        string_of(s.as_slice())
    } else {
        let mut out = String::new();
        let mut i: usize = 0;
        while i < ECHO_LIMIT
            invariant
                i <= ECHO_LIMIT < s@.len(),
                out@ == s@.take(i as int),
            decreases ECHO_LIMIT - i,
        {
            push_char(&mut out, s[i]);
            i = i + 1;
            assert(out@ =~= s@.take(i as int));
        }
        out
    }
}

fn lower_alnum(c: char) -> (r: bool)
    ensures
        r == is_lower_alnum(c),
{
    ('a' <= c && c <= 'z') || ('0' <= c && c <= '9')
}

fn lower_hex(c: char) -> (r: bool)
    ensures
        r == is_lower_hex(c),
{
    ('a' <= c && c <= 'f') || ('0' <= c && c <= '9')
}

fn connection_id_char(c: char) -> (r: bool)
    ensures
        r == is_connection_id_char(c),
{
    ('a' <= c && c <= 'z') || ('A' <= c && c <= 'Z') || ('0' <= c && c <= '9') || c == '_'
        || c == '=' || c == '-'
}

fn tunnel_id_ok(s: &Vec<char>) -> (r: bool)
    ensures
        r == is_tunnel_id(s@),
{
    if s.len() != 12 {
        return false;
    }
    let mut i: usize = 0;
    while i < 12
        invariant
            s@.len() == 12,
            i <= 12,
            forall|j: int| 0 <= j < i ==> is_lower_alnum(#[trigger] s@[j]),
        decreases 12 - i,
    {
        if !lower_alnum(s[i]) {
            return false;
        }
        i = i + 1;
    }
    true
}

fn request_id_ok(s: &Vec<char>) -> (r: bool)
    ensures
        r == is_request_id(s@),
{
    if s.len() != 40 {
        return false;
    }
    if !(s[0] == 'r' && s[1] == 'e' && s[2] == 'q' && s[3] == '_') {
        return false;
    }
    let mut i: usize = 4;
    while i < 40
        invariant
            s@.len() == 40,
            4 <= i <= 40,
            forall|j: int|
                4 <= j < i ==> if is_dash_position(j) {
                    #[trigger] s@[j] == '-'
                } else {
                    is_lower_hex(s@[j])
                },
        decreases 40 - i,
    {
        let ok = if i == 12 || i == 17 || i == 22 || i == 27 {
            s[i] == '-'
        } else {
            lower_hex(s[i])
        };
        if !ok {
            assert(!(if is_dash_position(i as int) {
                s@[i as int] == '-'
            } else {
                is_lower_hex(s@[i as int])
            }));
            return false;
        }
        i = i + 1;
    }
    true
}

fn connection_id_ok(s: &Vec<char>) -> (r: bool)
    ensures
        r == is_connection_id(s@),
{
    if s.len() < 1 || s.len() > 128 {
        return false;
    }
    let mut i: usize = 0;
    while i < s.len()
        invariant
            s@.len() <= 128,
            i <= s@.len(),
            forall|j: int| 0 <= j < i ==> is_connection_id_char(#[trigger] s@[j]),
        decreases s@.len() - i,
    {
        if !connection_id_char(s[i]) {
            return false;
        }
        i = i + 1;
    }
    true
}

/// Accepts exactly the tunnel ids of twelve lowercase letters or digits.
pub fn validate_tunnel_id(id: &str) -> (r: Result<(), ValidationError>)
    ensures
        match r {
            Ok(_) => is_tunnel_id(id@),
            Err(ValidationError::InvalidTunnelId(m)) => !is_tunnel_id(id@) && m@ == echo(id@),
            Err(_) => false,
        },
{
    let cs = chars_of(id);
    if !tunnel_id_ok(&cs) {
        return Err(ValidationError::InvalidTunnelId(echo_of(&cs)));
    }
    Ok(())
}

/// Accepts exactly `req_` followed by a UUID in lowercase hex.
pub fn validate_request_id(id: &str) -> (r: Result<(), ValidationError>)
    ensures
        match r {
            Ok(_) => is_request_id(id@),
            Err(ValidationError::InvalidRequestId(m)) => !is_request_id(id@) && m@ == echo(id@),
            Err(_) => false,
        },
{
    let cs = chars_of(id);
    if !request_id_ok(&cs) {
        return Err(ValidationError::InvalidRequestId(echo_of(&cs)));
    }
    Ok(())
}

/// Accepts exactly the transport's channel ids: 1 to 128 of `[A-Za-z0-9_=-]`.
pub fn validate_connection_id(id: &str) -> (r: Result<(), ValidationError>)
    ensures
        match r {
            Ok(_) => is_connection_id(id@),
            Err(ValidationError::InvalidConnectionId(m)) => !is_connection_id(id@) && m@ == echo(
                id@,
            ),
            Err(_) => false,
        },
{
    let cs = chars_of(id);
    if !connection_id_ok(&cs) {
        return Err(ValidationError::InvalidConnectionId(echo_of(&cs)));
    }
    Ok(())
}

/// The path forwarded for a sanitised `s`: `/` when empty, else with a leading `/`.
pub open spec fn rooted(s: Seq<char>) -> Seq<char> {
    if s.len() == 0 {
        seq!['/']
    } else if s[0] == '/' {
        s
    } else {
        seq!['/'] + s
    }
}

/// Checks a path's length, strips its control characters but tabs, and roots it at `/`.
pub fn validate_path(path: &str) -> (r: Result<String, ValidationError>)
    ensures
        path.spec_bytes().len() > MAX_PATH_LENGTH ==> r == Err::<String, ValidationError>(
            ValidationError::PathTooLong(path.spec_bytes().len() as usize, MAX_PATH_LENGTH),
        ),
        path.spec_bytes().len() <= MAX_PATH_LENGTH ==> (r matches Ok(p) && p@ == rooted(
            strip_controls(path@, true),
        )),
{
    let n = path.as_bytes().len();
    if n > MAX_PATH_LENGTH {
        return Err(ValidationError::PathTooLong(n, MAX_PATH_LENGTH));
    }
    let cs = chars_of(path);
    let kept = remove_controls(cs.as_slice(), true);
    if kept.len() == 0 {
        let mut root = String::new();
        push_char(&mut root, '/');
        assert(root@ =~= seq!['/']);
        Ok(root)
    } else if kept[0] == '/' {
        Ok(string_of(kept.as_slice()))
    } else {
        let mut out = String::new();
        push_char(&mut out, '/');
        let mut i: usize = 0;
        while i < kept.len()
            invariant
                i <= kept@.len(),
                out@ == seq!['/'] + kept@.take(i as int),
            decreases kept@.len() - i,
        {
            push_char(&mut out, kept[i]);
            i = i + 1;
            assert(out@ =~= seq!['/'] + kept@.take(i as int));
        }
        assert(kept@.take(i as int) =~= kept@);
        Ok(out)
    }
}

/// Checks a header value's length and strips its control characters but tabs.
pub fn sanitize_header_value(value: &str) -> (r: Result<String, ValidationError>)
    ensures
        value.spec_bytes().len() > MAX_HEADER_VALUE_LENGTH ==> r == Err::<String, ValidationError>(
            ValidationError::HeaderValueTooLong(
                value.spec_bytes().len() as usize,
                MAX_HEADER_VALUE_LENGTH,
            ),
        ),
        value.spec_bytes().len() <= MAX_HEADER_VALUE_LENGTH ==> (r matches Ok(v) && v@
            == strip_controls(value@, true)),
{
    let n = value.as_bytes().len();
    if n > MAX_HEADER_VALUE_LENGTH {
        return Err(ValidationError::HeaderValueTooLong(n, MAX_HEADER_VALUE_LENGTH));
    }
    let cs = chars_of(value);
    let kept = remove_controls(cs.as_slice(), true);
    Ok(string_of(kept.as_slice()))
}

pub open spec fn is_ascii_char(c: char) -> bool {
    (c as u32) < 128
}

/// ASCII upper case letters mapped to lower case; everything else unchanged.
pub open spec fn ascii_lower(c: char) -> char {
    if 'A' <= c && c <= 'Z' {
        ((c as u32) + 32) as char
    } else {
        c
    }
}

pub open spec fn lower_all(s: Seq<char>) -> Seq<char> {
    s.map_values(|c: char| ascii_lower(c))
}

pub fn ascii_lower_char(c: char) -> (r: char)
    ensures
        r == ascii_lower(c),
{
    if 'A' <= c && c <= 'Z' {
        ((c as u32) + 32) as u8 as char
    } else {
        c
    }
}

/// A header name in canonical form: ASCII only, control characters removed,
/// lower case, and not empty.
pub fn sanitize_header_name(name: &str) -> (r: Result<String, ValidationError>)
    ensures
        (forall|i: int| 0 <= i < name@.len() ==> is_ascii_char(#[trigger] name@[i]))
            && strip_controls(name@, false).len() > 0 ==> (r matches Ok(v) && v@ == lower_all(
            strip_controls(name@, false),
        )),
        !((forall|i: int| 0 <= i < name@.len() ==> is_ascii_char(#[trigger] name@[i]))
            && strip_controls(name@, false).len() > 0) ==> r == Err::<String, ValidationError>(
            ValidationError::InvalidHeaderValue,
        ),
{
    let cs = chars_of(name);
    let mut i: usize = 0;
    while i < cs.len()
        invariant
            i <= cs@.len(),
            cs@ == name@,
            forall|j: int| 0 <= j < i ==> is_ascii_char(#[trigger] cs@[j]),
        decreases cs@.len() - i,
    {
        if (cs[i] as u32) >= 128 {
            assert(!is_ascii_char(name@[i as int]));
            return Err(ValidationError::InvalidHeaderValue);
        }
        i = i + 1;
    }
    let kept = remove_controls(cs.as_slice(), false);
    if kept.len() == 0 {
        return Err(ValidationError::InvalidHeaderValue);
    }
    let mut out = String::new();
    let mut k: usize = 0;
    while k < kept.len()
        invariant
            k <= kept@.len(),
            out@ == lower_all(kept@.take(k as int)),
        decreases kept@.len() - k,
    {
        push_char(&mut out, ascii_lower_char(kept[k]));
        k = k + 1;
        assert(out@ =~= lower_all(kept@.take(k as int)));
    }
    assert(kept@.take(k as int) =~= kept@);
    Ok(out)
}

fn push_str_into(out: &mut String, s: &str)
    ensures
        final(out)@ == old(out)@ + s@,
{
    let cs = chars_of(s);
    let mut i: usize = 0;
    let ghost start = out@;
    while i < cs.len()
        invariant
            i <= cs@.len(),
            cs@ == s@,
            out@ == start + cs@.take(i as int),
        decreases cs@.len() - i,
    {
        push_char(out, cs[i]);
        i = i + 1;
        assert(out@ =~= start + cs@.take(i as int));
    }
    assert(cs@.take(i as int) =~= cs@);
}

/// The decimal text of a `usize`.
pub open spec fn decimal_usize(n: usize) -> Seq<char> {
    decimal(n as nat)
}

impl ValidationError {
    /// What the error says, for logs and for clients.
    pub open spec fn text(&self) -> Seq<char> {
        match self {
            ValidationError::InvalidTunnelId(s) => "Invalid tunnel ID format: "@ + s@,
            ValidationError::InvalidRequestId(s) => "Invalid request ID format: "@ + s@,
            ValidationError::InvalidConnectionId(s) => "Invalid connection ID format: "@ + s@,
            ValidationError::PathTooLong(n, m) => "Path too long: "@ + decimal_usize(*n)
                + " bytes (max: "@ + decimal_usize(*m) + ")"@,
            ValidationError::HeaderValueTooLong(n, m) => "Header value too long: "@
                + decimal_usize(*n) + " bytes (max: "@ + decimal_usize(*m) + ")"@,
            ValidationError::InvalidHeaderValue => "Invalid header value contains control characters"@,
        }
    }

    /// The error's message.
    pub fn message(&self) -> (r: String)
        ensures
            r@ == self.text(),
    {
        let mut out = String::new();
        match self {
            ValidationError::InvalidTunnelId(s) => {
                push_str_into(&mut out, "Invalid tunnel ID format: ");
                push_str_into(&mut out, s.as_str());
            },
            ValidationError::InvalidRequestId(s) => {
                push_str_into(&mut out, "Invalid request ID format: ");
                push_str_into(&mut out, s.as_str());
            },
            ValidationError::InvalidConnectionId(s) => {
                push_str_into(&mut out, "Invalid connection ID format: ");
                push_str_into(&mut out, s.as_str());
            },
            ValidationError::PathTooLong(n, m) => {
                push_str_into(&mut out, "Path too long: ");
                push_str_into(&mut out, decimal_string(*n as u64).as_str());
                push_str_into(&mut out, " bytes (max: ");
                push_str_into(&mut out, decimal_string(*m as u64).as_str());
                push_str_into(&mut out, ")");
            },
            ValidationError::HeaderValueTooLong(n, m) => {
                push_str_into(&mut out, "Header value too long: ");
                push_str_into(&mut out, decimal_string(*n as u64).as_str());
                push_str_into(&mut out, " bytes (max: ");
                push_str_into(&mut out, decimal_string(*m as u64).as_str());
                push_str_into(&mut out, ")");
            },
            ValidationError::InvalidHeaderValue => {
                push_str_into(&mut out, "Invalid header value contains control characters");
            },
        }
        out
    }
}

} // verus!
