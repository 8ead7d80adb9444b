//! Prefixing of absolute paths in HTML, CSS and JSON bodies, so that an
//! application served under `/<tunnel_id>/` keeps working in a browser.
//!
//! Each rewriting pass looks for one shape of text, left to right and without
//! overlap, in the manner of a regular expression's replace-all: an opening
//! literal, a path that starts with `/` and runs over one class of characters,
//! and a closing literal.

use vstd::prelude::*;
use crate::text::chars_of;

verus! {

/// The shapes of text that the rewriter looks for.
#[derive(Debug, Clone, Copy, PartialEq, Eq, Structural)]
pub enum Pass {
    /// `href="/…"` in HTML.
    Href,
    /// `src="/…"` in HTML.
    Src,
    /// `action="/…"` in HTML.
    Action,
    /// `'/…'` in a script, over `[a-zA-Z0-9/_.-]`.
    JsSingle,
    /// `"/…"` in a script, over `[a-zA-Z0-9/_.-]`.
    JsDouble,
    /// `url('/…')` in CSS.
    CssSingle,
    /// `url("/…")` in CSS.
    CssDouble,
    /// `url(/…)` in CSS.
    CssBare,
    /// `"/…"` in JSON, over `[a-zA-Z0-9/_-]`.
    JsonPath,
}

pub open spec fn opener(p: Pass) -> Seq<char> {
    match p {
        Pass::Href => "href=\""@,
        Pass::Src => "src=\""@,
        Pass::Action => "action=\""@,
        Pass::JsSingle => "'"@,
        Pass::JsDouble => "\""@,
        Pass::CssSingle => "url('"@,
        Pass::CssDouble => "url(\""@,
        Pass::CssBare => "url("@,
        Pass::JsonPath => "\""@,
    }
}

pub open spec fn closer(p: Pass) -> Seq<char> {
    match p {
        Pass::JsSingle => "'"@,
        Pass::CssSingle => "')"@,
        Pass::CssDouble => "\")"@,
        Pass::CssBare => ")"@,
        _ => "\""@,
    }
}

pub open spec fn is_word_char(c: char) -> bool {
    ('a' <= c && c <= 'z') || ('A' <= c && c <= 'Z') || ('0' <= c && c <= '9') || c == '/'
        || c == '_' || c == '-'
}

/// The characters a path may run over after its leading `/`.
pub open spec fn in_path(p: Pass, c: char) -> bool {
    match p {
        Pass::JsSingle | Pass::JsDouble => is_word_char(c) || c == '.',
        Pass::JsonPath => is_word_char(c),
        Pass::CssSingle => c != '\'',
        Pass::CssBare => c != ')',
        _ => c != '"',
    }
}

/// How many characters must follow the leading `/`.
pub open spec fn min_tail(p: Pass) -> int {
    match p {
        Pass::Href | Pass::Src | Pass::Action => 0,
        _ => 1,
    }
}

pub open spec fn lit_at(s: Seq<char>, i: int, lit: Seq<char>) -> bool {
    0 <= i && i + lit.len() <= s.len() && s.subrange(i, i + lit.len()) == lit
}

pub open spec fn seq_starts(a: Seq<char>, b: Seq<char>) -> bool {
    b.len() <= a.len() && a.take(b.len() as int) == b
}

pub open spec fn seq_ends(a: Seq<char>, b: Seq<char>) -> bool {
    b.len() <= a.len() && a.skip(a.len() - b.len()) == b
}

/// The first index at or after `k` whose character leaves the path class.
pub open spec fn run_end(s: Seq<char>, p: Pass, k: int) -> int
    decreases s.len() - k,
{
    if 0 <= k < s.len() && in_path(p, s[k]) {
        run_end(s, p, k + 1)
    } else {
        k
    }
}

pub open spec fn path_start(p: Pass, i: int) -> int {
    i + opener(p).len()
}

pub open spec fn path_end(s: Seq<char>, p: Pass, i: int) -> int {
    run_end(s, p, path_start(p, i) + 1)
}

/// Whether the shape of pass `p` begins at index `i` of `s`.
pub open spec fn matches_at(s: Seq<char>, p: Pass, i: int) -> bool {
    &&& lit_at(s, i, opener(p))
    &&& path_start(p, i) < s.len()
    &&& s[path_start(p, i)] == '/'
    &&& path_end(s, p, i) - (path_start(p, i) + 1) >= min_tail(p)
    &&& lit_at(s, path_end(s, p, i), closer(p))
}

/// The path of a match at `i`, leading `/` included.
pub open spec fn path_at(s: Seq<char>, p: Pass, i: int) -> Seq<char> {
    s.subrange(path_start(p, i), path_end(s, p, i))
}

pub open spec fn match_stop(s: Seq<char>, p: Pass, i: int) -> int {
    path_end(s, p, i) + closer(p).len()
}

/// Whether a path already carries the prefix.
pub open spec fn has_prefix(path: Seq<char>, prefix: Seq<char>) -> bool {
    seq_starts(path, prefix + seq!['/']) || path == prefix
}

/// The values that are left as they are: empty, anchors, absolute and
/// protocol-relative URLs, data URLs, and paths that already carry the prefix.
pub open spec fn skip_url(path: Seq<char>, prefix: Seq<char>) -> bool {
    ||| path.len() == 0
    ||| path[0] == '#'
    ||| seq_starts(path, "http://"@)
    ||| seq_starts(path, "https://"@)
    ||| seq_starts(path, "//"@)
    ||| seq_starts(path, "data:"@)
    ||| has_prefix(path, prefix)
}

/// Paths in scripts that look like web resources; protocol-relative ones are skipped.
pub open spec fn script_worthy(path: Seq<char>, prefix: Seq<char>) -> bool {
    &&& path.len() >= 2
    &&& !has_prefix(path, prefix)
    &&& !seq_starts(path, "//"@)
    &&& {
        ||| seq_starts(path, "/api"@)
        ||| seq_starts(path, "/docs"@)
        ||| seq_starts(path, "/openapi"@)
        ||| seq_starts(path, "/swagger"@)
        ||| seq_starts(path, "/v1"@)
        ||| seq_starts(path, "/v2"@)
        ||| seq_starts(path, "/v3"@)
        ||| seq_ends(path, ".json"@)
        ||| seq_ends(path, ".yaml"@)
        ||| seq_ends(path, ".yml"@)
    }
}

pub open spec fn lowered(s: Seq<char>) -> Seq<char> {
    crate::validation::lower_all(s)
}

/// String values in JSON that look like API paths.
pub open spec fn json_worthy(path: Seq<char>, prefix: Seq<char>) -> bool {
    &&& path.len() >= 2
    &&& !has_prefix(path, prefix)
    &&& {
        let l = lowered(path);
        ||| seq_starts(l, "/api"@)
        ||| seq_starts(l, "/v1"@)
        ||| seq_starts(l, "/v2"@)
        ||| seq_starts(l, "/v3"@)
        ||| seq_starts(l, "/docs"@)
        ||| seq_starts(l, "/openapi"@)
        ||| seq_starts(l, "/swagger"@)
        ||| seq_starts(l, "/todos"@)
    }
}

/// Whether pass `p` prefixes `path`.
pub open spec fn worth_rewriting(p: Pass, path: Seq<char>, prefix: Seq<char>) -> bool {
    match p {
        Pass::JsSingle | Pass::JsDouble => script_worthy(path, prefix),
        Pass::JsonPath => json_worthy(path, prefix),
        _ => !skip_url(path, prefix),
    }
}

/// What a match at `i` becomes.
pub open spec fn replacement(s: Seq<char>, p: Pass, prefix: Seq<char>, i: int) -> Seq<char> {
    if worth_rewriting(p, path_at(s, p, i), prefix) {
        opener(p) + prefix + path_at(s, p, i) + closer(p)
    } else {
        s.subrange(i, match_stop(s, p, i))
    }
}

/// The output of pass `p` over `s` from index `i` on.
pub open spec fn scan(s: Seq<char>, p: Pass, prefix: Seq<char>, i: int) -> Seq<char>
    decreases s.len() - i,
{
    if i < 0 || i >= s.len() {
        Seq::empty()
    } else if matches_at(s, p, i) && i < match_stop(s, p, i) <= s.len() {
        replacement(s, p, prefix, i) + scan(s, p, prefix, match_stop(s, p, i))
    } else {
        seq![s[i]] + scan(s, p, prefix, i + 1)
    }
}

pub open spec fn apply_pass(s: Seq<char>, p: Pass, prefix: Seq<char>) -> Seq<char> {
    scan(s, p, prefix, 0)
}

fn opener_chars(p: Pass) -> (r: Vec<char>)
    ensures
        r@ == opener(p),
{
    match p {
        Pass::Href => chars_of("href=\""),
        Pass::Src => chars_of("src=\""),
        Pass::Action => chars_of("action=\""),
        Pass::JsSingle => chars_of("'"),
        Pass::JsDouble => chars_of("\""),
        Pass::CssSingle => chars_of("url('"),
        Pass::CssDouble => chars_of("url(\""),
        Pass::CssBare => chars_of("url("),
        Pass::JsonPath => chars_of("\""),
    }
}

fn closer_chars(p: Pass) -> (r: Vec<char>)
    ensures
        r@ == closer(p),
{
    match p {
        Pass::JsSingle => chars_of("'"),
        Pass::CssSingle => chars_of("')"),
        Pass::CssDouble => chars_of("\")"),
        Pass::CssBare => chars_of(")"),
        _ => chars_of("\""),
    }
}

fn word_char(c: char) -> (r: bool)
    ensures
        r == is_word_char(c),
{
    ('a' <= c && c <= 'z') || ('A' <= c && c <= 'Z') || ('0' <= c && c <= '9') || c == '/'
        || c == '_' || c == '-'
}

fn path_char(p: Pass, c: char) -> (r: bool)
    ensures
        r == in_path(p, c),
{
    match p {
        Pass::JsSingle | Pass::JsDouble => word_char(c) || c == '.',
        Pass::JsonPath => word_char(c),
        Pass::CssSingle => c != '\'',
        Pass::CssBare => c != ')',
        _ => c != '"',
    }
}

fn tail_min(p: Pass) -> (r: usize)
    ensures
        r == min_tail(p),
{
    match p {
        Pass::Href | Pass::Src | Pass::Action => 0,
        _ => 1,
    }
}

/// Whether `lit` occurs in `s` at index `i`.
pub fn lit_at_exec(s: &[char], i: usize, lit: &[char]) -> (r: bool)
    ensures
        r == lit_at(s@, i as int, lit@),
{
    if i > s.len() || lit.len() > s.len() - i {
        return false;
    }
    let mut k: usize = 0;
    while k < lit.len()
        invariant
            i + lit@.len() <= s.len(),
            k <= lit@.len(),
            forall|j: int| 0 <= j < k ==> s@[i + j] == lit@[j],
        decreases lit@.len() - k,
    {
        if s[i + k] != lit[k] {
            assert(s@.subrange(i as int, i + lit@.len())[k as int] != lit@[k as int]);
            return false;
        }
        k = k + 1;
    }
    assert(s@.subrange(i as int, i + lit@.len()) =~= lit@);
    true
}

/// Whether `a` begins with `b`.
pub fn starts_with(a: &[char], b: &[char]) -> (r: bool)
    ensures
        r == seq_starts(a@, b@),
{
    let r = lit_at_exec(a, 0, b);
    proof {
        if b@.len() <= a@.len() {
            assert(a@.subrange(0, b@.len() as int) =~= a@.take(b@.len() as int));
        }
    }
    r
}

/// Whether `a` ends with `b`.
pub fn ends_with(a: &[char], b: &[char]) -> (r: bool)
    ensures
        r == seq_ends(a@, b@),
{
    if b.len() > a.len() {
        return false;
    }
    let r = lit_at_exec(a, a.len() - b.len(), b);
    proof {
        assert(a@.subrange(a@.len() - b@.len(), a@.len() as int) =~= a@.skip(
            a@.len() - b@.len(),
        ));
    }
    r
}

fn run_end_exec(s: &[char], p: Pass, k: usize) -> (r: usize)
    requires
        k <= s@.len(),
    ensures
        r == run_end(s@, p, k as int),
        k <= r <= s@.len(),
{
    let mut j = k;
    while j < s.len() && path_char(p, s[j])
        invariant
            k <= j <= s@.len(),
            run_end(s@, p, k as int) == run_end(s@, p, j as int),
        decreases s@.len() - j,
    {
        j = j + 1;
    }
    j
}

fn seq_eq(a: &[char], b: &[char]) -> (r: bool)
    ensures
        r == (a@ == b@),
{
    if a.len() != b.len() {
        return false;
    }
    let r = lit_at_exec(a, 0, b);
    proof {
        assert(a@.subrange(0, b@.len() as int) =~= a@);
    }
    r
}

/// `prefix` followed by `/`.
fn slashed(prefix: &[char]) -> (r: Vec<char>)
    ensures
        r@ == prefix@ + seq!['/'],
{
    let mut v: Vec<char> = Vec::new();
    let mut i: usize = 0;
    while i < prefix.len()
        invariant
            i <= prefix@.len(),
            v@ == prefix@.take(i as int),
        decreases prefix@.len() - i,
    {
        v.push(prefix[i]);
        i = i + 1;
        assert(v@ =~= prefix@.take(i as int));
    }
    v.push('/');
    assert(v@ =~= prefix@ + seq!['/']);
    v
}

fn prefixed(path: &[char], prefix: &[char]) -> (r: bool)
    ensures
        r == has_prefix(path@, prefix@),
{
    let sl = slashed(prefix);
    starts_with(path, sl.as_slice()) || seq_eq(path, prefix)
}

/// Decides [`skip_url`].
pub fn skips(path: &[char], prefix: &[char]) -> (r: bool)
    ensures
        r == skip_url(path@, prefix@),
{
    path.len() == 0 || path[0] == '#' || starts_with(path, chars_of("http://").as_slice())
        || starts_with(path, chars_of("https://").as_slice()) || starts_with(
        path,
        chars_of("//").as_slice(),
    ) || starts_with(path, chars_of("data:").as_slice()) || prefixed(path, prefix)
}

fn script_worthy_exec(path: &[char], prefix: &[char]) -> (r: bool)
    ensures
        r == script_worthy(path@, prefix@),
{
    path.len() >= 2 && !prefixed(path, prefix) && !starts_with(path, chars_of("//").as_slice())
        && (starts_with(path, chars_of("/api").as_slice())
        || starts_with(path, chars_of("/docs").as_slice()) || starts_with(
        path,
        chars_of("/openapi").as_slice(),
    ) || starts_with(path, chars_of("/swagger").as_slice()) || starts_with(
        path,
        chars_of("/v1").as_slice(),
    ) || starts_with(path, chars_of("/v2").as_slice()) || starts_with(
        path,
        chars_of("/v3").as_slice(),
    ) || ends_with(path, chars_of(".json").as_slice()) || ends_with(
        path,
        chars_of(".yaml").as_slice(),
    ) || ends_with(path, chars_of(".yml").as_slice()))
}

fn lower_chars(s: &[char]) -> (r: Vec<char>)
    ensures
        r@ == lowered(s@),
{
    let mut v: Vec<char> = Vec::new();
    let mut i: usize = 0;
    while i < s.len()
        invariant
            i <= s@.len(),
            v@ == lowered(s@.take(i as int)),
        decreases s@.len() - i,
    {
        v.push(crate::validation::ascii_lower_char(s[i]));
        i = i + 1;
        assert(v@ =~= lowered(s@.take(i as int)));
    }
    assert(s@.take(i as int) =~= s@);
    v
}

fn json_worthy_exec(path: &[char], prefix: &[char]) -> (r: bool)
    ensures
        r == json_worthy(path@, prefix@),
{
    if path.len() < 2 || prefixed(path, prefix) {
        return false;
    }
    let l = lower_chars(path);
    let l = l.as_slice();
    starts_with(l, chars_of("/api").as_slice()) || starts_with(l, chars_of("/v1").as_slice())
        || starts_with(l, chars_of("/v2").as_slice()) || starts_with(
        l,
        chars_of("/v3").as_slice(),
    ) || starts_with(l, chars_of("/docs").as_slice()) || starts_with(
        l,
        chars_of("/openapi").as_slice(),
    ) || starts_with(l, chars_of("/swagger").as_slice()) || starts_with(
        l,
        chars_of("/todos").as_slice(),
    )
}

fn worth_rewriting_exec(p: Pass, path: &[char], prefix: &[char]) -> (r: bool)
    ensures
        r == worth_rewriting(p, path@, prefix@),
{
    match p {
        Pass::JsSingle | Pass::JsDouble => script_worthy_exec(path, prefix),
        Pass::JsonPath => json_worthy_exec(path, prefix),
        _ => !skips(path, prefix),
    }
}

/// Appends `s[from..to]` to `out`.
fn extend_range(out: &mut Vec<char>, s: &[char], from: usize, to: usize)
    requires
        from <= to <= s@.len(),
    ensures
        final(out)@ == old(out)@ + s@.subrange(from as int, to as int),
{
    let mut k = from;
    while k < to
        invariant
            from <= k <= to <= s@.len(),
            out@ == old(out)@ + s@.subrange(from as int, k as int),
        decreases to - k,
    {
        out.push(s[k]);
        k = k + 1;
        assert(out@ =~= old(out)@ + s@.subrange(from as int, k as int));
    }
}

/// Returns where the path of a match at `i` ends, if pass `p` matches there.
fn match_exec(s: &[char], p: Pass, i: usize, open: &Vec<char>, close: &Vec<char>) -> (r: Option<
    usize,
>)
    requires
        i < s@.len(),
        open@ == opener(p),
        close@ == closer(p),
    ensures
        r is Some <==> matches_at(s@, p, i as int),
        r matches Some(e) ==> e == path_end(s@, p, i as int) && e + close@.len() <= s@.len(),
{
    let n = s.len();
    if !lit_at_exec(s, i, open.as_slice()) {
        return None;
    }
    let ps = i + open.len();
    if ps >= s.len() || s[ps] != '/' {
        return None;
    }
    let e = run_end_exec(s, p, ps + 1);
    if e - (ps + 1) < tail_min(p) {
        return None;
    }
    if !lit_at_exec(s, e, close.as_slice()) {
        return None;
    }
    Some(e)
}

/// Runs pass `p` over `s`, prefixing with `prefix` the paths it decides to rewrite.
pub fn run_pass(s: &[char], p: Pass, prefix: &[char]) -> (r: Vec<char>)
    ensures
        r@ == apply_pass(s@, p, prefix@),
{
    let open = opener_chars(p);
    let close = closer_chars(p);
    let mut out: Vec<char> = Vec::new();
    let mut i: usize = 0;
    while i < s.len()
        invariant
            i <= s@.len(),
            open@ == opener(p),
            close@ == closer(p),
            apply_pass(s@, p, prefix@) == out@ + scan(s@, p, prefix@, i as int),
        decreases s@.len() - i,
    {
        match match_exec(s, p, i, &open, &close) {
            Some(e) => {
                let ps = i + open.len();
                let stop = e + close.len();
                let mut path: Vec<char> = Vec::new();
                extend_range(&mut path, s, ps, e);
                assert(path@ =~= path_at(s@, p, i as int));
                let ghost before = out@;
                if worth_rewriting_exec(p, path.as_slice(), prefix) {
                    extend_range(&mut out, open.as_slice(), 0, open.len());
                    extend_range(&mut out, prefix, 0, prefix.len());
                    extend_range(&mut out, path.as_slice(), 0, path.len());
                    extend_range(&mut out, close.as_slice(), 0, close.len());
                    assert(open@.subrange(0, open@.len() as int) =~= open@);
                    assert(prefix@.subrange(0, prefix@.len() as int) =~= prefix@);
                    assert(path@.subrange(0, path@.len() as int) =~= path@);
                    assert(close@.subrange(0, close@.len() as int) =~= close@);
                } else {
                    extend_range(&mut out, s, i, stop);
                }
                assert(out@ =~= before + replacement(s@, p, prefix@, i as int));
                i = stop;
            },
            None => {
                out.push(s[i]);
                i = i + 1;
            },
        }
    }
    out
}

/// A value left alone by a pass is any value it does not decide to rewrite;
/// so a text whose every match is such a value comes out unchanged.
pub proof fn lemma_scan_unchanged(s: Seq<char>, p: Pass, prefix: Seq<char>, i: int)
    requires
        0 <= i <= s.len(),
        forall|j: int| #[trigger]
            matches_at(s, p, j) ==> !worth_rewriting(p, path_at(s, p, j), prefix),
    ensures
        scan(s, p, prefix, i) == s.skip(i),
    decreases s.len() - i,
{
    if i < s.len() {
        if matches_at(s, p, i) && i < match_stop(s, p, i) <= s.len() {
            lemma_scan_unchanged(s, p, prefix, match_stop(s, p, i));
            assert(s.subrange(i, match_stop(s, p, i)) + s.skip(match_stop(s, p, i)) =~= s.skip(i));
        } else {
            lemma_scan_unchanged(s, p, prefix, i + 1);
            assert(seq![s[i]] + s.skip(i + 1) =~= s.skip(i));
        }
    } else {
        assert(s.skip(i) =~= Seq::<char>::empty());
    }
}

/// The passes over HTML attributes and CSS `url(…)` values skip absolute URLs
/// (`http://`, `https://`, `//`), data URLs, anchors, empty values and values
/// that already carry the prefix: a text in which every value found is one of
/// those comes out of the pass unchanged.
pub proof fn lemma_skipped_values_unchanged(s: Seq<char>, p: Pass, prefix: Seq<char>)
    requires
        p != Pass::JsSingle && p != Pass::JsDouble && p != Pass::JsonPath,
        forall|j: int| #[trigger] matches_at(s, p, j) ==> skip_url(path_at(s, p, j), prefix),
    ensures
        apply_pass(s, p, prefix) == s,
{
    lemma_scan_unchanged(s, p, prefix, 0);
    assert(s.skip(0) =~= s);
}

/// Where the scan meets a value it skips (empty, anchor, absolute or
/// protocol-relative URL, data URL, already prefixed), the occurrence is
/// copied verbatim and the scan goes on after it.
pub proof fn lemma_skipped_occurrence(s: Seq<char>, p: Pass, prefix: Seq<char>, i: int)
    requires
        p != Pass::JsSingle && p != Pass::JsDouble && p != Pass::JsonPath,
        0 <= i,
        matches_at(s, p, i),
        skip_url(path_at(s, p, i), prefix),
    ensures
        scan(s, p, prefix, i) == s.subrange(i, match_stop(s, p, i)) + scan(
            s,
            p,
            prefix,
            match_stop(s, p, i),
        ),
{
    lemma_run_end(s, p, path_start(p, i) + 1);
}

proof fn lemma_run_end(s: Seq<char>, p: Pass, k: int)
    ensures
        run_end(s, p, k) >= k,
        0 <= k <= s.len() ==> run_end(s, p, k) <= s.len(),
    decreases s.len() - k,
{
    if 0 <= k < s.len() && in_path(p, s[k]) {
        lemma_run_end(s, p, k + 1);
    }
}

/// CSS: `url('/…')`, then `url("/…")`, then `url(/…)`.
pub open spec fn css_rewrite(s: Seq<char>, prefix: Seq<char>) -> Seq<char> {
    apply_pass(
        apply_pass(apply_pass(s, Pass::CssSingle, prefix), Pass::CssDouble, prefix),
        Pass::CssBare,
        prefix,
    )
}

/// HTML attributes: `href`, then `src`, then `action`.
pub open spec fn attribute_rewrite(s: Seq<char>, prefix: Seq<char>) -> Seq<char> {
    apply_pass(
        apply_pass(apply_pass(s, Pass::Href, prefix), Pass::Src, prefix),
        Pass::Action,
        prefix,
    )
}

/// Path literals in script text: single-quoted, then double-quoted.
pub open spec fn script_rewrite(s: Seq<char>, prefix: Seq<char>) -> Seq<char> {
    apply_pass(apply_pass(s, Pass::JsSingle, prefix), Pass::JsDouble, prefix)
}

/// A stylesheet whose every `url(…)` value is one the rewriter skips comes
/// out of all three CSS passes unchanged.
pub proof fn lemma_css_skipped_unchanged(s: Seq<char>, prefix: Seq<char>)
    requires
        forall|j: int| #[trigger] matches_at(s, Pass::CssSingle, j) ==> skip_url(
            path_at(s, Pass::CssSingle, j),
            prefix,
        ),
        forall|j: int| #[trigger] matches_at(s, Pass::CssDouble, j) ==> skip_url(
            path_at(s, Pass::CssDouble, j),
            prefix,
        ),
        forall|j: int| #[trigger] matches_at(s, Pass::CssBare, j) ==> skip_url(
            path_at(s, Pass::CssBare, j),
            prefix,
        ),
    ensures
        css_rewrite(s, prefix) == s,
{
    lemma_skipped_values_unchanged(s, Pass::CssSingle, prefix);
    lemma_skipped_values_unchanged(s, Pass::CssDouble, prefix);
    lemma_skipped_values_unchanged(s, Pass::CssBare, prefix);
}

/// An HTML text whose every `href`, `src` and `action` value is one the
/// rewriter skips comes out of the attribute passes unchanged.
pub proof fn lemma_attributes_skipped_unchanged(s: Seq<char>, prefix: Seq<char>)
    requires
        forall|j: int| #[trigger] matches_at(s, Pass::Href, j) ==> skip_url(
            path_at(s, Pass::Href, j),
            prefix,
        ),
        forall|j: int| #[trigger] matches_at(s, Pass::Src, j) ==> skip_url(
            path_at(s, Pass::Src, j),
            prefix,
        ),
        forall|j: int| #[trigger] matches_at(s, Pass::Action, j) ==> skip_url(
            path_at(s, Pass::Action, j),
            prefix,
        ),
    ensures
        attribute_rewrite(s, prefix) == s,
{
    lemma_skipped_values_unchanged(s, Pass::Href, prefix);
    lemma_skipped_values_unchanged(s, Pass::Src, prefix);
    lemma_skipped_values_unchanged(s, Pass::Action, prefix);
}

/// Rewrites `url(…)` references in a stylesheet.
pub fn rewrite_css(body: &str, prefix: &str) -> (r: Result<String, String>)
    ensures
        r matches Ok(out) && out@ == css_rewrite(body@, prefix@),
{
    let b = chars_of(body);
    let pre = chars_of(prefix);
    let a = run_pass(b.as_slice(), Pass::CssSingle, pre.as_slice());
    let c = run_pass(a.as_slice(), Pass::CssDouble, pre.as_slice());
    let d = run_pass(c.as_slice(), Pass::CssBare, pre.as_slice());
    Ok(crate::text::string_of(d.as_slice()))
}

/// Prefixes the `href`, `src` and `action` attribute values of an HTML text.
pub fn rewrite_html_attributes(body: &str, prefix: &str) -> (r: String)
    ensures
        r@ == attribute_rewrite(body@, prefix@),
{
    let b = chars_of(body);
    let pre = chars_of(prefix);
    let a = run_pass(b.as_slice(), Pass::Href, pre.as_slice());
    let c = run_pass(a.as_slice(), Pass::Src, pre.as_slice());
    let d = run_pass(c.as_slice(), Pass::Action, pre.as_slice());
    crate::text::string_of(d.as_slice())
}

/// The first index at or after `k` where `lit` occurs, or the length of `s`.
pub open spec fn find_lit(s: Seq<char>, lit: Seq<char>, k: int) -> int
    decreases s.len() - k,
{
    if k < 0 || k >= s.len() {
        s.len() as int
    } else if lit_at(s, k, lit) {
        k
    } else {
        find_lit(s, lit, k + 1)
    }
}

pub proof fn lemma_find_lit(s: Seq<char>, lit: Seq<char>, k: int)
    requires
        0 <= k <= s.len(),
    ensures
        k <= find_lit(s, lit, k) <= s.len(),
        find_lit(s, lit, k) < s.len() ==> lit_at(s, find_lit(s, lit, k), lit),
        forall|j: int| k <= j < find_lit(s, lit, k) ==> !#[trigger] lit_at(s, j, lit),
    decreases s.len() - k,
{
    if k < s.len() && !lit_at(s, k, lit) {
        lemma_find_lit(s, lit, k + 1);
    }
}

/// Whether `lit` occurs somewhere in `s`.
pub open spec fn contains_lit(s: Seq<char>, lit: Seq<char>) -> bool {
    exists|i: int| #[trigger] lit_at(s, i, lit)
}

/// Decides [`contains_lit`] for a non-empty `lit`.
pub fn contains_exec(s: &[char], lit: &[char]) -> (r: bool)
    requires
        lit@.len() > 0,
    ensures
        r == contains_lit(s@, lit@),
{
    let i = find_lit_exec(s, lit, 0);
    proof {
        lemma_find_lit(s@, lit@, 0);
        if i >= s@.len() {
            assert forall|j: int| !#[trigger] lit_at(s@, j, lit@) by {
                if 0 <= j < s@.len() {
                } else {
                }
            }
        }
    }
    i < s.len()
}

fn find_lit_exec(s: &[char], lit: &[char], k: usize) -> (r: usize)
    ensures
        r == find_lit(s@, lit@, k as int),
        k <= s@.len() ==> k <= r <= s@.len(),
{
    if k >= s.len() {
        return s.len();
    }
    let mut j = k;
    while j < s.len()
        invariant
            k <= j <= s@.len(),
            find_lit(s@, lit@, k as int) == find_lit(s@, lit@, j as int),
        decreases s@.len() - j,
    {
        if lit_at_exec(s, j, lit) {
            return j;
        }
        j = j + 1;
    }
    j
}

/// Script literal rewriting, applied only inside `<script …>…</script>` blocks.
pub open spec fn scripts_rewrite(s: Seq<char>, prefix: Seq<char>, i: int) -> Seq<char>
    decreases s.len() - i,
{
    if i < 0 || i >= s.len() {
        Seq::empty()
    } else if lit_at(s, i, "<script"@) {
        let g = find_lit(s, ">"@, i + 1);
        if g >= s.len() {
            s.skip(i)
        } else {
            let b = find_lit(s, "</script"@, g + 1);
            if i < g < b <= s.len() {
                s.subrange(i, g + 1) + script_rewrite(s.subrange(g + 1, b), prefix)
                    + scripts_rewrite(s, prefix, b)
            } else {
                s.skip(i)
            }
        }
    } else {
        seq![s[i]] + scripts_rewrite(s, prefix, i + 1)
    }
}

fn scripts_rewrite_exec(s: &[char], prefix: &[char]) -> (r: Vec<char>)
    ensures
        r@ == scripts_rewrite(s@, prefix@, 0),
{
    let open = chars_of("<script");
    let gt = chars_of(">");
    let close = chars_of("</script");
    let mut out: Vec<char> = Vec::new();
    let mut i: usize = 0;
    while i < s.len()
        invariant
            i <= s@.len(),
            open@ == "<script"@,
            gt@ == ">"@,
            close@ == "</script"@,
            scripts_rewrite(s@, prefix@, 0) == out@ + scripts_rewrite(s@, prefix@, i as int),
        decreases s@.len() - i,
    {
        if lit_at_exec(s, i, open.as_slice()) {
            let g = find_lit_exec(s, gt.as_slice(), i + 1);
            if g >= s.len() {
                extend_range(&mut out, s, i, s.len());
                assert(s@.subrange(i as int, s@.len() as int) =~= s@.skip(i as int));
                assert(scripts_rewrite(s@, prefix@, s@.len() as int) =~= Seq::<char>::empty());
                i = s.len();
            } else {
                let b = find_lit_exec(s, close.as_slice(), g + 1);
                let ghost before = out@;
                extend_range(&mut out, s, i, g + 1);
                let mut body: Vec<char> = Vec::new();
                extend_range(&mut body, s, g + 1, b);
                let x = run_pass(body.as_slice(), Pass::JsSingle, prefix);
                let y = run_pass(x.as_slice(), Pass::JsDouble, prefix);
                extend_range(&mut out, y.as_slice(), 0, y.len());
                assert(y@.subrange(0, y@.len() as int) =~= y@);
                assert(out@ =~= before + (s@.subrange(i as int, g + 1) + script_rewrite(
                    s@.subrange(g + 1, b as int),
                    prefix@,
                )));
                i = b;
            }
        } else {
            out.push(s[i]);
            i = i + 1;
        }
    }
    out
}

/// Unicode white space, as `char::is_whitespace` reports it.
pub open spec fn is_ws(c: char) -> bool {
    let n = c as u32;
    (0x09 <= n && n <= 0x0d) || n == 0x20 || n == 0x85 || n == 0xa0 || n == 0x1680 || (0x2000 <= n
        && n <= 0x200a) || n == 0x2028 || n == 0x2029 || n == 0x202f || n == 0x205f || n == 0x3000
}

pub fn is_ws_char(c: char) -> (r: bool)
    ensures
        r == is_ws(c),
{
    let n = c as u32;
    (0x09 <= n && n <= 0x0d) || n == 0x20 || n == 0x85 || n == 0xa0 || n == 0x1680 || (0x2000 <= n
        && n <= 0x200a) || n == 0x2028 || n == 0x2029 || n == 0x202f || n == 0x205f || n == 0x3000
}

/// `lit`, in lower case, occurs at `i` in `s` up to ASCII case.
pub open spec fn ci_lit_at(s: Seq<char>, i: int, lit: Seq<char>) -> bool {
    0 <= i && i + lit.len() <= s.len() && lowered(s.subrange(i, i + lit.len())) == lit
}

/// An opening tag `<name>` or `<name …>` at `i`, closed by a later `>`.
pub open spec fn tag_at(s: Seq<char>, i: int, name: Seq<char>) -> bool {
    &&& ci_lit_at(s, i, name)
    &&& i + name.len() < s.len()
    &&& (s[i + name.len()] == '>' || is_ws(s[i + name.len()]))
    &&& find_lit(s, ">"@, i + name.len()) < s.len()
}

/// Where the text after the first such tag at or after `k` begins.
pub open spec fn after_tag(s: Seq<char>, name: Seq<char>, k: int) -> Option<int>
    decreases s.len() - k,
{
    if k < 0 || k >= s.len() {
        None
    } else if tag_at(s, k, name) {
        Some(find_lit(s, ">"@, k + name.len()) + 1)
    } else {
        after_tag(s, name, k + 1)
    }
}

fn ci_lit_at_exec(s: &[char], i: usize, lit: &[char]) -> (r: bool)
    ensures
        r == ci_lit_at(s@, i as int, lit@),
{
    if i > s.len() || lit.len() > s.len() - i {
        return false;
    }
    let mut piece: Vec<char> = Vec::new();
    extend_range(&mut piece, s, i, i + lit.len());
    let low = lower_chars(piece.as_slice());
    seq_eq(low.as_slice(), lit)
}

fn after_tag_exec(s: &[char], name: &[char]) -> (r: Option<usize>)
    ensures
        r matches Some(x) ==> after_tag(s@, name@, 0) == Some(x as int),
        r is None ==> after_tag(s@, name@, 0) is None,
        r matches Some(x) ==> x <= s@.len(),
{
    let gt = chars_of(">");
    let mut k: usize = 0;
    while k < s.len()
        invariant
            k <= s@.len(),
            gt@ == ">"@,
            after_tag(s@, name@, 0) == after_tag(s@, name@, k as int),
        decreases s@.len() - k,
    {
        if ci_lit_at_exec(s, k, name) && k + name.len() < s.len() {
            let c = s[k + name.len()];
            if c == '>' || is_ws_char(c) {
                let g = find_lit_exec(s, gt.as_slice(), k + name.len());
                if g < s.len() {
                    return Some(g + 1);
                }
            }
        }
        k = k + 1;
    }
    None
}

pub const CONTEXT_OPEN: &'static str = "<script>
// Tunnel context, for code that builds URLs at run time
window.__TUNNEL_CONTEXT__ = {
    tunnelId: '";

pub const CONTEXT_BASE: &'static str = "',
    basePath: '";

pub const CONTEXT_REST: &'static str = "',
    // Builds a URL under the tunnel prefix
    url: function(path) {
        if (!path) return this.basePath;
        const cleanPath = path.startsWith('/') ? path.substring(1) : path;
        return this.basePath + '/' + cleanPath;
    },
    // The full base URL, tunnel prefix included
    getBaseUrl: function() {
        return window.location.origin + this.basePath;
    }
};
window.__TUNNEL_BASE_PATH__ = '";

pub const CONTEXT_CLOSE: &'static str = "';
</script>";

/// The script that publishes the tunnel context to client code.
pub open spec fn context_script(tunnel_id: Seq<char>) -> Seq<char> {
    CONTEXT_OPEN@ + tunnel_id + CONTEXT_BASE@ + tunnel_id + CONTEXT_REST@ + tunnel_id
        + CONTEXT_CLOSE@
}

/// The context script placed right after the opening `<head>`; failing that, in a
/// new head right after the opening `<html>`; failing that, before the document.
pub open spec fn inject_context(s: Seq<char>, tunnel_id: Seq<char>) -> Seq<char> {
    match after_tag(s, "<head"@, 0) {
        Some(x) => s.take(x) + context_script(tunnel_id) + s.skip(x),
        None => match after_tag(s, "<html"@, 0) {
            Some(x) => s.take(x) + "<head>"@ + context_script(tunnel_id) + "</head>"@ + s.skip(
                x,
            ),
            None => context_script(tunnel_id) + s,
        },
    }
}

fn push_str(out: &mut Vec<char>, s: &str)
    ensures
        final(out)@ == old(out)@ + s@,
{
    let cs = chars_of(s);
    extend_range(out, cs.as_slice(), 0, cs.len());
    assert(cs@.subrange(0, cs@.len() as int) =~= cs@);
}

fn push_chars(out: &mut Vec<char>, s: &[char])
    ensures
        final(out)@ == old(out)@ + s@,
{
    extend_range(out, s, 0, s.len());
    assert(s@.subrange(0, s@.len() as int) =~= s@);
}

fn context_script_exec(out: &mut Vec<char>, tunnel_id: &[char])
    ensures
        final(out)@ == old(out)@ + context_script(tunnel_id@),
{
    push_str(out, CONTEXT_OPEN);
    push_chars(out, tunnel_id);
    push_str(out, CONTEXT_BASE);
    push_chars(out, tunnel_id);
    push_str(out, CONTEXT_REST);
    push_chars(out, tunnel_id);
    push_str(out, CONTEXT_CLOSE);
    assert(final(out)@ =~= old(out)@ + context_script(tunnel_id@));
}

fn inject_context_exec(s: &[char], tunnel_id: &[char]) -> (r: Vec<char>)
    ensures
        r@ == inject_context(s@, tunnel_id@),
{
    let head = chars_of("<head");
    let html = chars_of("<html");
    let mut out: Vec<char> = Vec::new();
    match after_tag_exec(s, head.as_slice()) {
        Some(x) => {
            extend_range(&mut out, s, 0, x);
            context_script_exec(&mut out, tunnel_id);
            extend_range(&mut out, s, x, s.len());
            assert(out@ =~= s@.take(x as int) + context_script(tunnel_id@) + s@.skip(x as int));
        },
        None => match after_tag_exec(s, html.as_slice()) {
            Some(x) => {
                extend_range(&mut out, s, 0, x);
                push_str(&mut out, "<head>");
                context_script_exec(&mut out, tunnel_id);
                push_str(&mut out, "</head>");
                extend_range(&mut out, s, x, s.len());
                assert(out@ =~= s@.take(x as int) + "<head>"@ + context_script(tunnel_id@)
                    + "</head>"@ + s@.skip(x as int));
            },
            None => {
                context_script_exec(&mut out, tunnel_id);
                push_chars(&mut out, s);
            },
        },
    }
    out
}

/// `s` without its leading slashes.
pub open spec fn trim_slashes(s: Seq<char>) -> Seq<char>
    decreases s.len(),
{
    if s.len() > 0 && s[0] == '/' {
        trim_slashes(s.drop_first())
    } else {
        s
    }
}

fn trim_slashes_exec(s: &[char]) -> (r: Vec<char>)
    ensures
        r@ == trim_slashes(s@),
{
    let mut i: usize = 0;
    assert(s@.skip(0) =~= s@);
    while i < s.len() && s[i] == '/'
        invariant
            i <= s@.len(),
            trim_slashes(s@) == trim_slashes(s@.skip(i as int)),
        decreases s@.len() - i,
    {
        assert(s@.skip(i as int).drop_first() =~= s@.skip(i + 1));
        i = i + 1;
    }
    let mut out: Vec<char> = Vec::new();
    extend_range(&mut out, s, i, s.len());
    assert(out@ =~= s@.skip(i as int));
    out
}

/// HTML: attribute values, then path literals inside script blocks, then the
/// tunnel context script.
pub open spec fn html_rewrite(s: Seq<char>, prefix: Seq<char>) -> Seq<char> {
    inject_context(scripts_rewrite(attribute_rewrite(s, prefix), prefix, 0), trim_slashes(prefix))
}

/// Rewrites an HTML document for the tunnel prefix `prefix` (`/<tunnel_id>`).
pub fn rewrite_html(body: &str, prefix: &str) -> (r: Result<String, String>)
    ensures
        r matches Ok(out) && out@ == html_rewrite(body@, prefix@),
{
    let attrs = rewrite_html_attributes(body, prefix);
    let a = chars_of(attrs.as_str());
    let pre = chars_of(prefix);
    let scripted = scripts_rewrite_exec(a.as_slice(), pre.as_slice());
    let tid = trim_slashes_exec(pre.as_slice());
    let done = inject_context_exec(scripted.as_slice(), tid.as_slice());
    Ok(crate::text::string_of(done.as_slice()))
}

/// Rewrites the path literals inside the script blocks of an HTML text.
pub fn rewrite_inline_javascript(html: &str, prefix: &str) -> (r: Result<String, String>)
    ensures
        r matches Ok(out) && out@ == scripts_rewrite(html@, prefix@, 0),
{
    let h = chars_of(html);
    let pre = chars_of(prefix);
    let out = scripts_rewrite_exec(h.as_slice(), pre.as_slice());
    Ok(crate::text::string_of(out.as_slice()))
}

/// Inserts the tunnel context script into an HTML text.
pub fn inject_tunnel_context(html: &str, tunnel_id: &str) -> (r: Result<String, String>)
    ensures
        r matches Ok(out) && out@ == inject_context(html@, tunnel_id@),
{
    let h = chars_of(html);
    let t = chars_of(tunnel_id);
    let out = inject_context_exec(h.as_slice(), t.as_slice());
    Ok(crate::text::string_of(out.as_slice()))
}

/// The first index at or after `k` that is not white space.
pub open spec fn ws_end(s: Seq<char>, k: int) -> int
    decreases s.len() - k,
{
    if 0 <= k < s.len() && is_ws(s[k]) {
        ws_end(s, k + 1)
    } else {
        k
    }
}

fn ws_end_exec(s: &[char], k: usize) -> (r: usize)
    requires
        k <= s@.len(),
    ensures
        r == ws_end(s@, k as int),
        k <= r <= s@.len(),
{
    let mut j = k;
    while j < s.len() && is_ws_char(s[j])
        invariant
            k <= j <= s@.len(),
            ws_end(s@, k as int) == ws_end(s@, j as int),
        decreases s@.len() - j,
    {
        j = j + 1;
    }
    j
}

/// `"servers"\s*:\s*[\s*{\s*"url"\s*:\s*"…"` at `i`: where the url value
/// starts and ends.
pub open spec fn servers_url(s: Seq<char>, i: int) -> Option<(int, int)> {
    if !lit_at(s, i, "\"servers\""@) {
        None
    } else {
        let a1 = ws_end(s, i + "\"servers\""@.len());
        if !(a1 < s.len() && s[a1] == ':') {
            None
        } else {
            let a2 = ws_end(s, a1 + 1);
            if !(a2 < s.len() && s[a2] == '[') {
                None
            } else {
                let a3 = ws_end(s, a2 + 1);
                if !(a3 < s.len() && s[a3] == '{') {
                    None
                } else {
                    let a4 = ws_end(s, a3 + 1);
                    if !lit_at(s, a4, "\"url\""@) {
                        None
                    } else {
                        let a5 = ws_end(s, a4 + "\"url\""@.len());
                        if !(a5 < s.len() && s[a5] == ':') {
                            None
                        } else {
                            let a6 = ws_end(s, a5 + 1);
                            if !(a6 < s.len() && s[a6] == '"') {
                                None
                            } else {
                                let a7 = find_lit(s, "\""@, a6 + 1);
                                if a7 < s.len() {
                                    Some((a6 + 1, a7))
                                } else {
                                    None
                                }
                            }
                        }
                    }
                }
            }
        }
    }
}

/// A relative server url that does not carry the prefix yet.
pub open spec fn server_url_worthy(url: Seq<char>, prefix: Seq<char>) -> bool {
    url.len() > 0 && url[0] == '/' && !seq_starts(url, prefix + seq!['/'])
}

pub open spec fn servers_replacement(
    s: Seq<char>,
    prefix: Seq<char>,
    i: int,
    u: int,
    e: int,
) -> Seq<char> {
    if server_url_worthy(s.subrange(u, e), prefix) {
        "\"servers\": [{\"url\": \""@ + prefix + s.subrange(u, e) + "\""@
    } else {
        s.subrange(i, e + 1)
    }
}

/// The OpenAPI `servers` pass over `s` from index `i` on.
pub open spec fn servers_scan(s: Seq<char>, prefix: Seq<char>, i: int) -> Seq<char>
    decreases s.len() - i,
{
    if i < 0 || i >= s.len() {
        Seq::empty()
    } else {
        match servers_url(s, i) {
            Some((u, e)) => if i < u <= e < s.len() {
                servers_replacement(s, prefix, i, u, e) + servers_scan(s, prefix, e + 1)
            } else {
                seq![s[i]] + servers_scan(s, prefix, i + 1)
            },
            None => seq![s[i]] + servers_scan(s, prefix, i + 1),
        }
    }
}

fn char_at_is(s: &[char], k: usize, c: char) -> (r: bool)
    ensures
        r == (k < s@.len() && s@[k as int] == c),
{
    k < s.len() && s[k] == c
}

fn servers_url_exec(s: &[char], i: usize, servers: &Vec<char>, url: &Vec<char>, quote: &Vec<
    char,
>) -> (r: Option<(usize, usize)>)
    requires
        i < s@.len(),
        servers@ == "\"servers\""@,
        url@ == "\"url\""@,
        quote@ == "\""@,
    ensures
        r matches Some((u, e)) ==> servers_url(s@, i as int) == Some((u as int, e as int)),
        r is None ==> servers_url(s@, i as int) is None,
{
    let n = s.len();
    if !lit_at_exec(s, i, servers.as_slice()) {
        return None;
    }
    let a1 = ws_end_exec(s, i + servers.len());
    if !char_at_is(s, a1, ':') {
        return None;
    }
    let a2 = ws_end_exec(s, a1 + 1);
    if !char_at_is(s, a2, '[') {
        return None;
    }
    let a3 = ws_end_exec(s, a2 + 1);
    if !char_at_is(s, a3, '{') {
        return None;
    }
    let a4 = ws_end_exec(s, a3 + 1);
    if !lit_at_exec(s, a4, url.as_slice()) {
        return None;
    }
    let a5 = ws_end_exec(s, a4 + url.len());
    if !char_at_is(s, a5, ':') {
        return None;
    }
    let a6 = ws_end_exec(s, a5 + 1);
    if !char_at_is(s, a6, '"') {
        return None;
    }
    let a7 = find_lit_exec(s, quote.as_slice(), a6 + 1);
    if a7 < s.len() {
        Some((a6 + 1, a7))
    } else {
        None
    }
}

fn servers_scan_exec(s: &[char], prefix: &[char]) -> (r: Vec<char>)
    ensures
        r@ == servers_scan(s@, prefix@, 0),
{
    let servers = chars_of("\"servers\"");
    let url = chars_of("\"url\"");
    let quote = chars_of("\"");
    let sl = slashed(prefix);
    let mut out: Vec<char> = Vec::new();
    let mut i: usize = 0;
    while i < s.len()
        invariant
            i <= s@.len(),
            servers@ == "\"servers\""@,
            url@ == "\"url\""@,
            quote@ == "\""@,
            sl@ == prefix@ + seq!['/'],
            servers_scan(s@, prefix@, 0) == out@ + servers_scan(s@, prefix@, i as int),
        decreases s@.len() - i,
    {
        match servers_url_exec(s, i, &servers, &url, &quote) {
            Some((u, e)) => {
                if i < u && u <= e && e < s.len() {
                    let ghost before = out@;
                    let mut v: Vec<char> = Vec::new();
                    extend_range(&mut v, s, u, e);
                    if v.len() > 0 && v[0] == '/' && !starts_with(v.as_slice(), sl.as_slice()) {
                        push_str(&mut out, "\"servers\": [{\"url\": \"");
                        push_chars(&mut out, prefix);
                        push_chars(&mut out, v.as_slice());
                        push_str(&mut out, "\"");
                    } else {
                        extend_range(&mut out, s, i, e + 1);
                    }
                    assert(out@ =~= before + servers_replacement(
                        s@,
                        prefix@,
                        i as int,
                        u as int,
                        e as int,
                    ));
                    i = e + 1;
                } else {
                    out.push(s[i]);
                    i = i + 1;
                }
            },
            None => {
                out.push(s[i]);
                i = i + 1;
            },
        }
    }
    out
}

/// JSON: the OpenAPI `servers` url first, then API-looking path strings.
pub open spec fn json_rewrite(s: Seq<char>, prefix: Seq<char>) -> Seq<char> {
    apply_pass(servers_scan(s, prefix, 0), Pass::JsonPath, prefix)
}

/// Rewrites API paths in a JSON body.
pub fn rewrite_json(body: &str, prefix: &str) -> (r: Result<String, String>)
    ensures
        r matches Ok(out) && out@ == json_rewrite(body@, prefix@),
{
    let b = chars_of(body);
    let pre = chars_of(prefix);
    let a = servers_scan_exec(b.as_slice(), pre.as_slice());
    let c = run_pass(a.as_slice(), Pass::JsonPath, pre.as_slice());
    Ok(crate::text::string_of(c.as_slice()))
}

/// A `<base>` element for the prefix, right after the opening `<head>`, or in a
/// new head after the opening `<html>`; a text with neither is left alone.
pub open spec fn base_tag_rewrite(s: Seq<char>, prefix: Seq<char>) -> Seq<char> {
    match after_tag(s, "<head"@, 0) {
        Some(x) => s.take(x) + "<base href=\""@ + prefix + "/\">"@ + s.skip(x),
        None => match after_tag(s, "<html"@, 0) {
            Some(x) => s.take(x) + "<head><base href=\""@ + prefix + "/\"></head>"@ + s.skip(x),
            None => s,
        },
    }
}

/// Sets the document's base to the tunnel prefix.
pub fn inject_base_tag(html: &str, prefix: &str) -> (r: Result<String, String>)
    ensures
        r matches Ok(out) && out@ == base_tag_rewrite(html@, prefix@),
{
    let s = chars_of(html);
    let pre = chars_of(prefix);
    let head = chars_of("<head");
    let tag_html = chars_of("<html");
    let mut out: Vec<char> = Vec::new();
    match after_tag_exec(s.as_slice(), head.as_slice()) {
        Some(x) => {
            extend_range(&mut out, s.as_slice(), 0, x);
            push_str(&mut out, "<base href=\"");
            push_chars(&mut out, pre.as_slice());
            push_str(&mut out, "/\">");
            extend_range(&mut out, s.as_slice(), x, s.len());
            assert(out@ =~= s@.take(x as int) + "<base href=\""@ + pre@ + "/\">"@ + s@.skip(
                x as int,
            ));
        },
        None => match after_tag_exec(s.as_slice(), tag_html.as_slice()) {
            Some(x) => {
                extend_range(&mut out, s.as_slice(), 0, x);
                push_str(&mut out, "<head><base href=\"");
                push_chars(&mut out, pre.as_slice());
                push_str(&mut out, "/\"></head>");
                extend_range(&mut out, s.as_slice(), x, s.len());
                assert(out@ =~= s@.take(x as int) + "<head><base href=\""@ + pre@
                    + "/\"></head>"@ + s@.skip(x as int));
            },
            None => {
                push_chars(&mut out, s.as_slice());
            },
        },
    }
    Ok(crate::text::string_of(out.as_slice()))
}

/// How a response body is rewritten.
#[derive(Debug, Clone, Copy, PartialEq, Eq, Structural)]
pub enum RewriteStrategy {
    /// Bodies pass through unchanged.
    Disabled,
    /// HTML gets a `<base>` element only.
    BaseTag,
    /// HTML paths are rewritten in place.
    FullRewrite,
}

impl Default for RewriteStrategy {
    fn default() -> (r: Self)
        ensures
            r == RewriteStrategy::FullRewrite,
    {
        RewriteStrategy::FullRewrite
    }
}

pub open spec fn trim_start(s: Seq<char>) -> Seq<char>
    decreases s.len(),
{
    if s.len() > 0 && is_ws(s[0]) {
        trim_start(s.drop_first())
    } else {
        s
    }
}

pub open spec fn trim_end(s: Seq<char>) -> Seq<char>
    decreases s.len(),
{
    if s.len() > 0 && is_ws(s.last()) {
        trim_end(s.drop_last())
    } else {
        s
    }
}

/// The media type of a `Content-Type` value: lower case, parameters and
/// surrounding white space removed.
pub open spec fn media_type(content_type: Seq<char>) -> Seq<char> {
    let l = lowered(content_type);
    trim_end(trim_start(l.take(find_lit(l, ";"@, 0))))
}

fn media_type_exec(content_type: &str) -> (r: Vec<char>)
    ensures
        r@ == media_type(content_type@),
{
    let cs = chars_of(content_type);
    let l = lower_chars(cs.as_slice());
    let semi = chars_of(";");
    let cut = find_lit_exec(l.as_slice(), semi.as_slice(), 0);
    let ghost head = l@.take(cut as int);
    let mut a: usize = 0;
    assert(head.skip(0) =~= head);
    while a < cut && is_ws_char(l[a])
        invariant
            a <= cut <= l@.len(),
            head == l@.take(cut as int),
            trim_start(head) == trim_start(head.skip(a as int)),
        decreases cut - a,
    {
        assert(head.skip(a as int).drop_first() =~= head.skip(a + 1));
        a = a + 1;
    }
    let mut b: usize = cut;
    let ghost mid = head.skip(a as int);
    assert(mid.take(mid.len() as int) =~= mid);
    while b > a && is_ws_char(l[b - 1])
        invariant
            a <= b <= cut <= l@.len(),
            head == l@.take(cut as int),
            mid == head.skip(a as int),
            trim_end(mid) == trim_end(mid.take(b - a)),
        decreases b,
    {
        assert(mid.take(b - a).drop_last() =~= mid.take(b - a - 1));
        b = b - 1;
    }
    let mut out: Vec<char> = Vec::new();
    extend_range(&mut out, l.as_slice(), a, b);
    assert(out@ =~= mid.take(b - a));
    out
}

/// The media types whose bodies are rewritten; JavaScript is left untouched.
pub open spec fn rewritable(media: Seq<char>) -> bool {
    ||| media == "text/html"@
    ||| media == "text/css"@
    ||| media == "application/json"@
}

/// Whether a body of this `Content-Type` is rewritten: HTML, CSS or JSON.
pub fn should_rewrite_content(content_type: &str) -> (r: bool)
    ensures
        r == rewritable(media_type(content_type@)),
{
    let m = media_type_exec(content_type);
    let m = m.as_slice();
    seq_eq(m, chars_of("text/html").as_slice()) || seq_eq(m, chars_of("text/css").as_slice())
        || seq_eq(m, chars_of("application/json").as_slice())
}

/// The body that rewriting produces for a tunnel id, a content type and a strategy.
pub open spec fn rewritten_body(
    body: Seq<char>,
    content_type: Seq<char>,
    tunnel_id: Seq<char>,
    strategy: RewriteStrategy,
) -> Seq<char> {
    let m = media_type(content_type);
    let prefix = seq!['/'] + tunnel_id;
    if !rewritable(m) || strategy == RewriteStrategy::Disabled {
        body
    } else if m == "text/html"@ {
        if strategy == RewriteStrategy::BaseTag {
            base_tag_rewrite(body, prefix)
        } else {
            html_rewrite(body, prefix)
        }
    } else if m == "text/css"@ {
        css_rewrite(body, prefix)
    } else if m == "application/json"@ {
        json_rewrite(body, prefix)
    } else {
        body
    }
}

/// Rewrites a response body for path-based routing under `/<tunnel_id>`;
/// also tells whether the body changed.
pub fn rewrite_response_content(
    body: &str,
    content_type: &str,
    tunnel_id: &str,
    strategy: RewriteStrategy,
) -> (r: Result<(String, bool), String>)
    ensures
        r matches Ok((out, changed)) && out@ == rewritten_body(
            body@,
            content_type@,
            tunnel_id@,
            strategy,
        ) && changed == (out@ != body@),
{
    let m = media_type_exec(content_type);
    let ms = m.as_slice();
    let rewritable_type = seq_eq(ms, chars_of("text/html").as_slice()) || seq_eq(
        ms,
        chars_of("text/css").as_slice(),
    ) || seq_eq(ms, chars_of("application/json").as_slice());
    let body_chars = chars_of(body);
    if !rewritable_type || strategy == RewriteStrategy::Disabled {
        return Ok((crate::text::string_of(body_chars.as_slice()), false));
    }
    let mut pre: Vec<char> = Vec::new();
    pre.push('/');
    push_str(&mut pre, tunnel_id);
    let prefix = crate::text::string_of(pre.as_slice());
    let out = if seq_eq(ms, chars_of("text/html").as_slice()) {
        if strategy == RewriteStrategy::BaseTag {
            inject_base_tag(body, prefix.as_str())
        } else {
            rewrite_html(body, prefix.as_str())
        }
    } else if seq_eq(ms, chars_of("text/css").as_slice()) {
        rewrite_css(body, prefix.as_str())
    } else if seq_eq(ms, chars_of("application/json").as_slice()) {
        rewrite_json(body, prefix.as_str())
    } else {
        Ok(crate::text::string_of(body_chars.as_slice()))
    };
    match out {
        Ok(text) => {
            let t = chars_of(text.as_str());
            let same = seq_eq(t.as_slice(), body_chars.as_slice());
            Ok((text, !same))
        },
        Err(e) => Err(e),
    }
}

} // verus!
