//! Player and web-player match patterns: exact names, `*`/`?` wildcards, and
//! regular expressions written `re:...` or `/.../`.
use vstd::prelude::*;
use crate::text::{chars_of, char_len, has_prefix, string_from, trim_prefix_all, trim_prefix_all_exec};

verus! {

broadcast use vstd::string::group_string_axioms;

/// Whether the pattern can succeed on a valid (case-insensitive) regular
/// expression: the name of what `RegexBuilder::build` decides.
pub uninterp spec fn regex_ci_valid(pattern: Seq<char>) -> bool;

/// The name of `Regex::is_match` of a case-insensitive regular expression.
pub uninterp spec fn regex_ci_match(pattern: Seq<char>, candidate: Seq<char>) -> bool;

/// Whether `pattern` compiles as a case-insensitive regular expression.
///
/// Wraps `regex::RegexBuilder::build` (with `case_insensitive(true)`); the
/// outcome is named by `regex_ci_valid`.
#[verifier::external_body]
fn regex_ci_compiles(pattern: &str) -> (r: bool)
    ensures
        r == regex_ci_valid(pattern@),
{
    regex::RegexBuilder::new(pattern).case_insensitive(true).build().is_ok()
}

/// Whether the case-insensitive regular expression matches somewhere in
/// `candidate`.
///
/// Wraps `regex::Regex::is_match` on the expression built as in
/// `regex_ci_compiles`; the outcome is named by `regex_ci_match`.
#[verifier::external_body]
fn regex_ci_is_match(pattern: &str, candidate: &str) -> (r: bool)
    requires
        regex_ci_valid(pattern@),
    ensures
        r == regex_ci_match(pattern@, candidate@),
{
    match regex::RegexBuilder::new(pattern).case_insensitive(true).build() {
        Ok(re) => re.is_match(candidate),
        Err(_) => false,
    }
}

/// Which player field a pattern is matched against.
#[derive(Debug, Clone, Copy, PartialEq, Eq, Structural)]
pub enum PlayerMatchTarget {
    Identity,
    Bus,
    Any,
}

/// `identity:` and `bus:` select the field; any other pattern has no target.
pub open spec fn match_target(pattern: Seq<char>) -> (Option<PlayerMatchTarget>, Seq<char>) {
    if "identity:"@.is_prefix_of(pattern) {
        (Some(PlayerMatchTarget::Identity), pattern.skip(9))
    } else if "bus:"@.is_prefix_of(pattern) {
        (Some(PlayerMatchTarget::Bus), pattern.skip(4))
    } else {
        (None, pattern)
    }
}

fn prefix_of_str(s: &str, p: &str) -> (r: bool)
    ensures
        r == p@.is_prefix_of(s@),
{
    let sv = chars_of(s);
    let pv = chars_of(p);
    has_prefix(sv.as_slice(), pv.as_slice())
}

fn skip_chars(s: &str, n: usize) -> (r: String)
    requires
        n <= s@.len(),
    ensures
        r@ == s@.skip(n as int),
{
    let v = chars_of(s);
    let mut out: Vec<char> = Vec::new();
    let mut i: usize = n;
    while i < v.len()
        invariant
            n <= i <= v@.len(),
            v@ == s@,
            out@ == s@.subrange(n as int, i as int),
        decreases v@.len() - i,
    {
        out.push(v[i]);
        i += 1;
        assert(out@ =~= s@.subrange(n as int, i as int));
    }
    assert(out@ =~= s@.skip(n as int));
    string_from(out.as_slice())
}

/// Split a pattern into its target and body.
pub fn parse_match_target(pattern: &str) -> (r: (Option<PlayerMatchTarget>, String))
    ensures
        r.0 == match_target(pattern@).0,
        r.1@ == match_target(pattern@).1,
{
    proof {
        reveal_strlit("identity:");
        reveal_strlit("bus:");
    }
    if prefix_of_str(pattern, "identity:") {
        (Some(PlayerMatchTarget::Identity), skip_chars(pattern, 9))
    } else if prefix_of_str(pattern, "bus:") {
        (Some(PlayerMatchTarget::Bus), skip_chars(pattern, 4))
    } else {
        (None, pattern.to_owned())
    }
}

/// A regular-expression pattern: `re:` and at least one more character, or
/// enclosed in slashes with something between them.
pub open spec fn is_regex(s: Seq<char>) -> bool {
    ("re:"@.is_prefix_of(s) && s.len() > 3) || (s.len() > 2 && s[0] == '/' && s[s.len() - 1] == '/')
}

/// A wildcard pattern: not a regular expression, with a `*` or `?`.
pub open spec fn is_wildcard(s: Seq<char>) -> bool {
    !is_regex(s) && (s.contains('*') || s.contains('?'))
}

pub fn is_regex_pattern(s: &str) -> (r: bool)
    ensures
        r == is_regex(s@),
{
    proof { reveal_strlit("re:"); }
    let v = chars_of(s);
    let n = v.len();
    (prefix_of_str(s, "re:") && n > 3) || (n > 2 && v[0] == '/' && v[n - 1] == '/')
}

pub fn is_wildcard_pattern(s: &str) -> (r: bool)
    ensures
        r == is_wildcard(s@),
{
    if is_regex_pattern(s) {
        return false;
    }
    let v = chars_of(s);
    crate::text::has_char(v.as_slice(), '*') || crate::text::has_char(v.as_slice(), '?')
}

/// Number of characters of the pattern that are not wildcards.
pub open spec fn specificity(s: Seq<char>) -> nat {
    s.filter(|c: char| c != '*' && c != '?').len()
}

pub fn pattern_specificity(s: &str) -> (r: usize)
    ensures
        r == specificity(s@),
{
    let v = chars_of(s);
    let ghost f = |c: char| c != '*' && c != '?';
    let mut count: usize = 0;
    let mut i: usize = 0;
    assert(v@.take(0).filter(f) =~= Seq::<char>::empty());
    while i < v.len()
        invariant
            f == (|c: char| c != '*' && c != '?'),
            i <= v@.len(),
            v@ == s@,
            count == v@.take(i as int).filter(f).len(),
            count <= i,
        decreases v@.len() - i,
    {
        proof {
            assert(v@.take(i + 1) =~= v@.take(i as int).push(v@[i as int]));
            v@.take(i as int).lemma_filter_push(v@[i as int], f);
        }
        if v[i] != '*' && v[i] != '?' {
            count += 1;
        }
        i += 1;
    }
    assert(v@.take(v@.len() as int) =~= v@);
    count
}

/// Bytes of a character in UTF-8.
pub open spec fn utf8_width(c: char) -> nat {
    if (c as u32) < 0x80 { 1 } else if (c as u32) < 0x800 { 2 } else if (c as u32) < 0x10000 { 3 } else { 4 }
}

/// Length of the text in UTF-8 bytes (`str::len`).
pub open spec fn byte_len(s: Seq<char>) -> nat
    decreases s.len(),
{
    if s.len() == 0 { 0 } else { byte_len(s.drop_last()) + utf8_width(s.last()) }
}

/// Length of a string in bytes.
///
/// Wraps `str::len`, which counts the bytes of the UTF-8 encoding.
#[verifier::external_body]
pub(crate) fn str_byte_len(s: &str) -> (r: usize)
    ensures
        r == byte_len(s@),
{
    s.len()
}

/// Whether the text compiles as a (case-sensitive) regular expression: the
/// name of what `Regex::new` decides.
pub uninterp spec fn regex_valid(pattern: Seq<char>) -> bool;

/// The name of `Regex::is_match` of a case-sensitive regular expression.
pub uninterp spec fn regex_match(pattern: Seq<char>, candidate: Seq<char>) -> bool;

/// The characters with a meaning in a regular expression.
pub open spec fn is_regex_meta(c: char) -> bool {
    c == '\\' || c == '.' || c == '+' || c == '*' || c == '?' || c == '(' || c == ')' || c == '|'
        || c == '[' || c == ']' || c == '{' || c == '}' || c == '^' || c == '$' || c == '#' || c == '&'
        || c == '-' || c == '~'
}

/// The text with a backslash put before each meta character.
pub open spec fn regex_escaped(text: Seq<char>) -> Seq<char>
    decreases text.len(),
{
    if text.len() == 0 {
        Seq::<char>::empty()
    } else {
        regex_escaped(text.drop_last()) + if is_regex_meta(text.last()) {
            seq!['\\', text.last()]
        } else {
            seq![text.last()]
        }
    }
}

/// Whether `pattern` compiles as a regular expression.
///
/// Wraps `regex::Regex::new`; the outcome is named by `regex_valid`.
#[verifier::external_body]
fn regex_compiles(pattern: &str) -> (r: bool)
    ensures
        r == regex_valid(pattern@),
{
    regex::Regex::new(pattern).is_ok()
}

/// Whether the regular expression matches somewhere in `candidate`.
///
/// Wraps `regex::Regex::is_match` on the expression `Regex::new` builds;
/// the outcome is named by `regex_match`.
#[verifier::external_body]
fn regex_is_match(pattern: &str, candidate: &str) -> (r: bool)
    requires
        regex_valid(pattern@),
    ensures
        r == regex_match(pattern@, candidate@),
{
    match regex::Regex::new(pattern) {
        Ok(re) => re.is_match(candidate),
        Err(_) => false,
    }
}

/// A text with its regular-expression meta characters escaped.
///
/// Wraps `regex::escape`, which puts a backslash before each character
/// that `regex_syntax::is_meta_character` accepts and keeps the others.
#[verifier::external_body]
fn regex_escape(text: &str) -> (r: String)
    ensures
        r@ == regex_escaped(text@),
{
    regex::escape(text)
}

/// The regular expression a wildcard character stands for: `*` any run,
/// `?` any one character, anything else itself.
pub open spec fn wildcard_piece(c: char) -> Seq<char> {
    if c == '*' { ".*"@ } else if c == '?' { "."@ } else { regex_escaped(seq![c]) }
}

pub open spec fn wildcard_body(p: Seq<char>) -> Seq<char>
    decreases p.len(),
{
    if p.len() == 0 { Seq::empty() } else { wildcard_body(p.drop_last()) + wildcard_piece(p.last()) }
}

/// The regular expression of a wildcard pattern, anchored at both ends.
pub open spec fn wildcard_regex(p: Seq<char>) -> Seq<char> {
    "^"@ + wildcard_body(p) + "$"@
}

/// The regular expression a wildcard pattern is matched with.
pub fn wildcard_regex_of(pattern: &str) -> (r: String)
    ensures
        r@ == wildcard_regex(pattern@),
{
    let p = chars_of(pattern);
    let mut out = "^".to_string();
    proof {
        reveal_strlit("^");
        reveal_strlit(".*");
        reveal_strlit(".");
    }
    let mut i: usize = 0;
    while i < p.len()
        invariant
            i <= p@.len(),
            p@ == pattern@,
            out@ == "^"@ + wildcard_body(p@.take(i as int)),
        decreases p@.len() - i,
    {
        let c = p[i];
        let ghost before = out@;
        if c == '*' {
            out.append(".*");
        } else if c == '?' {
            out.append(".");
        } else {
            let mut one = String::new();
            crate::text::push_char(&mut one, c);
            assert(one@ =~= seq![c]);
            let e = regex_escape(one.as_str());
            out.append(e.as_str());
        }
        assert(p@.take(i + 1).drop_last() =~= p@.take(i as int));
        assert(p@.take(i + 1).last() == c);
        assert(out@ =~= "^"@ + wildcard_body(p@.take(i + 1)));
        i += 1;
    }
    assert(p@.take(p@.len() as int) =~= p@);
    out.append("$");
    out
}

/// A compiled pattern: its kind and the text it matches with.
#[derive(Debug, Clone)]
pub enum CompiledPattern {
    Exact(String),
    Wildcard(String),
    Regex(String),
}

/// Mathematical form of a compiled pattern.
pub enum CompiledV {
    Exact(Seq<char>),
    Wildcard(Seq<char>),
    Regex(Seq<char>),
}

impl View for CompiledPattern {
    type V = CompiledV;

    open spec fn view(&self) -> CompiledV {
        match self {
            CompiledPattern::Exact(s) => CompiledV::Exact(s@),
            CompiledPattern::Wildcard(s) => CompiledV::Wildcard(s@),
            CompiledPattern::Regex(s) => CompiledV::Regex(s@),
        }
    }
}

/// The text of a leading-and-trailing run of `c` removed from both ends.
pub open spec fn trim_suffix_all(s: Seq<char>, c: char) -> Seq<char>
    decreases s.len(),
{
    if s.len() > 0 && s.last() == c { trim_suffix_all(s.drop_last(), c) } else { s }
}

/// The expression of a regular-expression pattern: after `re:`, else
/// between the slashes (all leading and trailing slashes removed).
pub open spec fn regex_body(p: Seq<char>) -> Seq<char> {
    if "re:"@.is_prefix_of(p) { p.skip(3) } else { trim_suffix_all(trim_prefix_all(p, seq!['/']), '/') }
}

/// How a pattern compiles: an invalid regular expression falls back to an
/// exact match of the pattern text.
pub open spec fn compile_spec(p: Seq<char>) -> CompiledV {
    if is_regex(p) {
        if regex_ci_valid(regex_body(p)) { CompiledV::Regex(regex_body(p)) } else { CompiledV::Exact(p) }
    } else if is_wildcard(p) {
        if regex_valid(wildcard_regex(p)) { CompiledV::Wildcard(wildcard_regex(p)) } else { CompiledV::Exact(p) }
    } else {
        CompiledV::Exact(p)
    }
}

/// Whether a compiled pattern accepts a candidate.
pub open spec fn compiled_matches(c: CompiledV, candidate: Seq<char>) -> bool {
    match c {
        CompiledV::Exact(k) => k == candidate,
        CompiledV::Wildcard(r) => regex_match(r, candidate),
        CompiledV::Regex(r) => regex_ci_match(r, candidate),
    }
}

fn trim_trailing(s: Vec<char>, c: char) -> (r: Vec<char>)
    ensures
        r@ == trim_suffix_all(s@, c),
    decreases s@.len(),
{
    let mut s = s;
    if s.len() > 0 && s[s.len() - 1] == c {
        let ghost before = s@;
        s.pop();
        assert(s@ == before.drop_last());
        trim_trailing(s, c)
    } else {
        s
    }
}

/// The regular expression of a regular-expression pattern.
pub fn regex_source(p: &str) -> (r: String)
    ensures
        r@ == regex_body(p@),
{
    proof { reveal_strlit("re:"); }
    if prefix_of_str(p, "re:") {
        skip_chars(p, 3)
    } else {
        let v = chars_of(p);
        let head = trim_prefix_all_exec(v.as_slice(), &['/']);
        proof { assert((['/'])@ =~= seq!['/']); }
        let t = trim_trailing(head, '/');
        string_from(t.as_slice())
    }
}

/// Compile a pattern once for repeated matching.
pub fn compile_single_pattern(pattern: &str) -> (r: CompiledPattern)
    ensures
        r@ == compile_spec(pattern@),
{
    if is_regex_pattern(pattern) {
        let raw = regex_source(pattern);
        if regex_ci_compiles(raw.as_str()) {
            CompiledPattern::Regex(raw)
        } else {
            CompiledPattern::Exact(pattern.to_owned())
        }
    } else if is_wildcard_pattern(pattern) {
        let re = wildcard_regex_of(pattern);
        if regex_compiles(re.as_str()) {
            CompiledPattern::Wildcard(re)
        } else {
            CompiledPattern::Exact(pattern.to_owned())
        }
    } else {
        CompiledPattern::Exact(pattern.to_owned())
    }
}

impl CompiledPattern {
    /// Whether the pattern accepts the candidate.
    pub fn matches(&self, candidate: &str) -> (r: bool)
        requires
            compiled_ok(self@),
        ensures
            r == compiled_matches(self@, candidate@),
    {
        match self {
            CompiledPattern::Exact(k) => crate::text::str_eq(k.as_str(), candidate),
            CompiledPattern::Wildcard(r) => regex_is_match(r.as_str(), candidate),
            CompiledPattern::Regex(r) => regex_ci_is_match(r.as_str(), candidate),
        }
    }
}

/// A compiled pattern is well formed: a regular expression in it is valid.
pub open spec fn compiled_ok(c: CompiledV) -> bool {
    &&& (c matches CompiledV::Regex(src) ==> regex_ci_valid(src))
    &&& (c matches CompiledV::Wildcard(src) ==> regex_valid(src))
}

/// A compiled pattern that is a regular expression always holds one that
/// compiles: invalid expressions never become regex or wildcard patterns.
pub proof fn lemma_compile_ok(p: Seq<char>)
    ensures
        compiled_ok(compile_spec(p)),
{
}

} // verus!
