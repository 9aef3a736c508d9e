//! Character-level text operations over `Seq<char>` views.
use vstd::prelude::*;

verus! {

broadcast use vstd::string::group_string_axioms;

/// Appends one character to a string.
///
/// Wraps `String::push`, which appends the character at the end.
#[verifier::external_body]
pub(crate) fn push_char(s: &mut String, c: char)
    ensures
        final(s)@ == old(s)@.push(c),
{
    s.push(c);
}

/// The characters of a string slice, in order.
pub fn chars_of(s: &str) -> (r: Vec<char>)
    ensures
        r@ == s@,
{
    let mut v: Vec<char> = Vec::new();
    for c in it: s.chars()
        invariant
            v@ == it.seq().take(it.index() as int),
            it.seq() == s@,
    {
        v.push(c);
    }
    v
}

/// A string holding exactly the given characters.
pub fn string_from(chars: &[char]) -> (r: String)
    ensures
        r@ == chars@,
{
    let mut s = String::new();
    let mut i: usize = 0;
    while i < chars.len()
        invariant
            i <= chars@.len(),
            s@ == chars@.take(i as int),
        decreases chars@.len() - i,
    {
        push_char(&mut s, chars[i]);
        i += 1;
        assert(chars@.take(i as int) == chars@.take((i - 1) as int).push(chars@[i - 1]));
    }
    assert(chars@.take(chars@.len() as int) == chars@);
    s
}

/// A string holding the characters of `a` followed by those of `b`.
pub fn concat_str(a: &str, b: &str) -> (r: String)
    ensures
        r@ == a@ + b@,
{
    let mut s = a.to_owned();
    s.append(b);
    s
}

/// Unicode `White_Space` characters, as `char::is_whitespace` defines them.
pub open spec fn is_ws(c: char) -> bool {
    ||| ('\t' <= c && c <= '\r')
    ||| c == ' '
    ||| c == '\u{85}'
    ||| c == '\u{a0}'
    ||| c == '\u{1680}'
    ||| ('\u{2000}' <= c && c <= '\u{200a}')
    ||| c == '\u{2028}'
    ||| c == '\u{2029}'
    ||| c == '\u{202f}'
    ||| c == '\u{205f}'
    ||| c == '\u{3000}'
}

pub fn is_whitespace(c: char) -> (r: bool)
    ensures
        r == is_ws(c),
{
    ('\t' <= c && c <= '\r') || c == ' ' || c == '\u{85}' || c == '\u{a0}' || c == '\u{1680}'
        || ('\u{2000}' <= c && c <= '\u{200a}') || c == '\u{2028}' || c == '\u{2029}'
        || c == '\u{202f}' || c == '\u{205f}' || c == '\u{3000}'
}

/// Leading whitespace removed.
pub open spec fn trim_start(s: Seq<char>) -> Seq<char>
    decreases s.len(),
{
    if s.len() > 0 && is_ws(s[0]) { trim_start(s.drop_first()) } else { s }
}

/// Trailing whitespace removed.
pub open spec fn trim_end(s: Seq<char>) -> Seq<char>
    decreases s.len(),
{
    if s.len() > 0 && is_ws(s.last()) { trim_end(s.drop_last()) } else { s }
}

/// Leading and trailing whitespace removed (`str::trim`).
pub open spec fn trim(s: Seq<char>) -> Seq<char> {
    trim_end(trim_start(s))
}

proof fn lemma_trim_start_skip(s: Seq<char>, i: int)
    requires
        0 <= i <= s.len(),
        forall|k: int| 0 <= k < i ==> is_ws(#[trigger] s[k]),
    ensures
        trim_start(s) == trim_start(s.skip(i)),
    decreases i,
{
    if i > 0 {
        assert(s.skip(1) == s.drop_first());
        lemma_trim_start_skip(s.drop_first(), i - 1);
        assert(s.drop_first().skip(i - 1) == s.skip(i));
    } else {
        assert(s.skip(0) == s);
    }
}

proof fn lemma_trim_end_take(s: Seq<char>, j: int)
    requires
        0 <= j <= s.len(),
        forall|k: int| j <= k < s.len() ==> is_ws(#[trigger] s[k]),
    ensures
        trim_end(s) == trim_end(s.take(j)),
    decreases s.len() - j,
{
    if j < s.len() {
        assert(s.drop_last() == s.take(s.len() - 1));
        lemma_trim_end_take(s.drop_last(), j);
        assert(s.drop_last().take(j) == s.take(j));
    } else {
        assert(s.take(s.len() as int) == s);
    }
}

/// The characters of `s` with surrounding whitespace removed.
pub fn trim_chars(s: &[char]) -> (r: Vec<char>)
    ensures
        r@ == trim(s@),
{
    let mut i: usize = 0;
    while i < s.len() && is_whitespace(s[i])
        invariant
            i <= s@.len(),
            forall|k: int| 0 <= k < i ==> is_ws(#[trigger] s@[k]),
        decreases s@.len() - i,
    {
        i += 1;
    }
    proof {
        lemma_trim_start_skip(s@, i as int);
    }
    let ghost rest = s@.skip(i as int);
    assert(trim_start(rest) == rest);
    let mut j: usize = s.len();
    while j > i && is_whitespace(s[j - 1])
        invariant
            i <= j <= s@.len(),
            forall|k: int| j <= k < s@.len() ==> is_ws(#[trigger] s@[k]),
        decreases j,
    {
        j -= 1;
    }
    proof {
        let t = rest.take(j - i);
        assert forall|k: int| (j - i) <= k < rest.len() implies is_ws(#[trigger] rest[k]) by {
            assert(rest[k] == s@[k + i]);
        }
        lemma_trim_end_take(rest, j - i);
        if t.len() > 0 {
            assert(t.last() == s@[j - 1]);
        }
    }
    let mut out: Vec<char> = Vec::new();
    let mut k: usize = i;
    while k < j
        invariant
            i <= k <= j <= s@.len(),
            out@ == s@.subrange(i as int, k as int),
        decreases j - k,
    {
        out.push(s[k]);
        k += 1;
        assert(s@.subrange(i as int, k as int) == s@.subrange(i as int, k - 1).push(s@[k - 1]));
    }
    assert(out@ == rest.take(j - i));
    out
}

/// `str::trim`, as a new string.
pub fn trim_str(s: &str) -> (r: String)
    ensures
        r@ == trim(s@),
{
    let v = chars_of(s);
    let t = trim_chars(v.as_slice());
    string_from(t.as_slice())
}

/// `p` is a prefix of `s`.
pub fn has_prefix(s: &[char], p: &[char]) -> (r: bool)
    ensures
        r == p@.is_prefix_of(s@),
{
    if p.len() > s.len() {
        return false;
    }
    let mut i: usize = 0;
    while i < p.len()
        invariant
            p@.len() <= s@.len(),
            i <= p@.len(),
            forall|k: int| 0 <= k < i ==> p@[k] == s@[k],
        decreases p@.len() - i,
    {
        if p[i] != s[i] {
            assert(s@.subrange(0, p@.len() as int)[i as int] != p@[i as int]);
            return false;
        }
        i += 1;
    }
    assert(p@ =~= s@.subrange(0, p@.len() as int));
    true
}

/// `p` is a suffix of `s`.
pub fn has_suffix(s: &[char], p: &[char]) -> (r: bool)
    ensures
        r == p@.is_suffix_of(s@),
{
    if p.len() > s.len() {
        return false;
    }
    let n = s.len();
    let off = n - p.len();
    let mut i: usize = 0;
    while i < p.len()
        invariant
            n == s@.len(),
            p@.len() <= s@.len(),
            off == s@.len() - p@.len(),
            i <= p@.len(),
            forall|k: int| 0 <= k < i ==> p@[k] == s@[k + off],
        decreases p@.len() - i,
    {
        if p[i] != s[off + i] {
            assert(s@.subrange(off as int, s@.len() as int)[i as int] != p@[i as int]);
            return false;
        }
        i += 1;
    }
    assert(p@ =~= s@.subrange(off as int, s@.len() as int));
    true
}

/// `str::starts_with` with a string pattern.
pub fn str_starts_with(s: &str, p: &str) -> (r: bool)
    ensures
        r == p@.is_prefix_of(s@),
{
    let sv = chars_of(s);
    let pv = chars_of(p);
    has_prefix(sv.as_slice(), pv.as_slice())
}

/// `str::ends_with` with a string pattern.
pub fn str_ends_with(s: &str, p: &str) -> (r: bool)
    ensures
        r == p@.is_suffix_of(s@),
{
    let sv = chars_of(s);
    let pv = chars_of(p);
    has_suffix(sv.as_slice(), pv.as_slice())
}

/// `p` occurs in `s` at position `i`.
pub open spec fn occurs_at(s: Seq<char>, p: Seq<char>, i: int) -> bool {
    0 <= i && i + p.len() <= s.len() && s.subrange(i, i + p.len()) == p
}

/// `p` occurs somewhere in `s` (`str::contains`).
pub open spec fn contains_seq(s: Seq<char>, p: Seq<char>) -> bool {
    exists|i: int| occurs_at(s, p, i)
}

pub(crate) fn occurs_at_exec(s: &[char], p: &[char], i: usize) -> (r: bool)
    requires
        i + p@.len() <= s@.len(),
    ensures
        r == occurs_at(s@, p@, i as int),
{
    let n = s.len();
    let mut k: usize = 0;
    while k < p.len()
        invariant
            n == s@.len(),
            i + p@.len() <= s@.len(),
            k <= p@.len(),
            forall|m: int| 0 <= m < k ==> p@[m] == s@[i + m],
        decreases p@.len() - k,
    {
        if p[k] != s[i + k] {
            assert(s@.subrange(i as int, i + p@.len())[k as int] != p@[k as int]);
            return false;
        }
        k += 1;
    }
    assert(s@.subrange(i as int, i + p@.len()) =~= p@);
    true
}

/// Whether `p` occurs in `s`.
pub fn contains_chars(s: &[char], p: &[char]) -> (r: bool)
    ensures
        r == contains_seq(s@, p@),
{
    if p.len() > s.len() {
        return false;
    }
    let last = s.len() - p.len();
    let mut i: usize = 0;
    while i <= last
        invariant
            last == s@.len() - p@.len(),
            p@.len() <= s@.len(),
            i <= last + 1,
            forall|k: int| 0 <= k < i ==> !occurs_at(s@, p@, k),
        decreases s@.len() - i,
    {
        if occurs_at_exec(s, p, i) {
            return true;
        }
        if i == last {
            return false;
        }
        i += 1;
    }
    false
}

/// `str::contains` with a string pattern.
pub fn str_contains(s: &str, p: &str) -> (r: bool)
    ensures
        r == contains_seq(s@, p@),
{
    let sv = chars_of(s);
    let pv = chars_of(p);
    contains_chars(sv.as_slice(), pv.as_slice())
}

/// `c` occurs in `s`.
pub fn has_char(s: &[char], c: char) -> (r: bool)
    ensures
        r == s@.contains(c),
{
    let mut i: usize = 0;
    while i < s.len()
        invariant
            i <= s@.len(),
            forall|k: int| 0 <= k < i ==> s@[k] != c,
        decreases s@.len() - i,
    {
        if s[i] == c {
            return true;
        }
        i += 1;
    }
    false
}

/// Equality of two character sequences.
pub fn chars_eq(a: &[char], b: &[char]) -> (r: bool)
    ensures
        r == (a@ == b@),
{
    if a.len() != b.len() {
        return false;
    }
    let mut i: usize = 0;
    while i < a.len()
        invariant
            a@.len() == b@.len(),
            i <= a@.len(),
            forall|k: int| 0 <= k < i ==> a@[k] == b@[k],
        decreases a@.len() - i,
    {
        if a[i] != b[i] {
            return false;
        }
        i += 1;
    }
    assert(a@ =~= b@);
    true
}

/// Equality of two string slices by their characters.
pub fn str_eq(a: &str, b: &str) -> (r: bool)
    ensures
        r == (a@ == b@),
{
    let av = chars_of(a);
    let bv = chars_of(b);
    chars_eq(av.as_slice(), bv.as_slice())
}

/// `str::split` on one character: the pieces between separators, in order.
pub open spec fn split_on(s: Seq<char>, sep: char) -> Seq<Seq<char>>
    decreases s.len(),
{
    if s.len() == 0 {
        seq![Seq::<char>::empty()]
    } else {
        let init = split_on(s.drop_last(), sep);
        if s.last() == sep {
            init.push(Seq::<char>::empty())
        } else {
            init.update(init.len() - 1, init.last().push(s.last()))
        }
    }
}

pub proof fn lemma_split_on_nonempty(s: Seq<char>, sep: char)
    ensures
        split_on(s, sep).len() >= 1,
    decreases s.len(),
{
    if s.len() > 0 {
        lemma_split_on_nonempty(s.drop_last(), sep);
    }
}

/// The character sequences held by a vector of character vectors.
pub open spec fn seqs_of(v: Seq<Vec<char>>) -> Seq<Seq<char>> {
    v.map_values(|x: Vec<char>| x@)
}

/// The pieces of `s` between occurrences of `sep`.
pub fn split_chars(s: &[char], sep: char) -> (r: Vec<Vec<char>>)
    ensures
        seqs_of(r@) == split_on(s@, sep),
        r@.len() >= 1,
{
    let mut out: Vec<Vec<char>> = Vec::new();
    let mut cur: Vec<char> = Vec::new();
    let mut i: usize = 0;
    while i < s.len()
        invariant
            i <= s@.len(),
            split_on(s@.take(i as int), sep) == seqs_of(out@).push(cur@),
        decreases s@.len() - i,
    {
        proof {
            assert(s@.take(i + 1).drop_last() == s@.take(i as int));
        }
        let ghost prev = seqs_of(out@);
        let ghost prev_cur = cur@;
        if s[i] == sep {
            let done = cur;
            out.push(done);
            cur = Vec::new();
            assert(seqs_of(out@) =~= prev.push(done@));
        } else {
            cur.push(s[i]);
            assert(prev.push(prev_cur).update(prev.len() as int, prev_cur.push(s@[i as int])) =~= prev.push(cur@));
        }
        i += 1;
    }
    assert(s@.take(s@.len() as int) == s@);
    let ghost before = seqs_of(out@);
    out.push(cur);
    assert(seqs_of(out@) =~= before.push(cur@));
    out
}

/// The line without a carriage return just before its line feed.
pub open spec fn strip_cr(l: Seq<char>) -> Seq<char> {
    if l.len() > 0 && l.last() == '\r' { l.drop_last() } else { l }
}

/// `str::lines`: pieces between line feeds, the final empty piece dropped,
/// and a carriage return before each line feed removed.
pub open spec fn lines_of(s: Seq<char>) -> Seq<Seq<char>> {
    let parts = split_on(s, '\n');
    let n = parts.len();
    let body = parts.take(n - 1).map_values(|l: Seq<char>| strip_cr(l));
    if parts[n - 1].len() == 0 { body } else { body.push(parts[n - 1]) }
}

/// The lines of `s`, as `str::lines` yields them.
pub fn lines_chars(s: &[char]) -> (r: Vec<Vec<char>>)
    ensures
        seqs_of(r@) == lines_of(s@),
{
    let parts = split_chars(s, '\n');
    let ghost ps = seqs_of(parts@);
    let n = parts.len();
    let mut out: Vec<Vec<char>> = Vec::new();
    let mut i: usize = 0;
    while i + 1 < n
        invariant
            n == parts@.len(),
            n >= 1,
            ps == seqs_of(parts@),
            i + 1 <= n,
            seqs_of(out@) == ps.take(i as int).map_values(|l: Seq<char>| strip_cr(l)),
        decreases n - i,
    {
        let part = &parts[i];
        let mut line: Vec<char> = part.clone();
        if line.len() > 0 && line[line.len() - 1] == '\r' {
            line.pop();
        }
        assert(line@ == strip_cr(ps[i as int]));
        let ghost prev = seqs_of(out@);
        out.push(line);
        assert(seqs_of(out@) =~= prev.push(line@));
        assert(ps.take(i + 1).map_values(|l: Seq<char>| strip_cr(l))
            =~= ps.take(i as int).map_values(|l: Seq<char>| strip_cr(l)).push(strip_cr(ps[i as int])));
        i += 1;
    }
    let last = &parts[n - 1];
    if last.len() > 0 {
        let ghost prev = seqs_of(out@);
        out.push(last.clone());
        assert(seqs_of(out@) =~= prev.push(ps[n - 1]));
    }
    out
}

/// `parts` joined with `sep` between consecutive parts.
pub open spec fn join_seqs(parts: Seq<Seq<char>>, sep: Seq<char>) -> Seq<char>
    decreases parts.len(),
{
    if parts.len() == 0 {
        Seq::<char>::empty()
    } else if parts.len() == 1 {
        parts[0]
    } else {
        join_seqs(parts.drop_last(), sep) + sep + parts.last()
    }
}

/// `parts` joined with `sep` (`[String]::join`).
pub fn join_strings(parts: &[String], sep: &str) -> (r: String)
    ensures
        r@ == join_seqs(parts@.map_values(|p: String| p@), sep@),
{
    let ghost ps = parts@.map_values(|p: String| p@);
    let mut out = String::new();
    let mut i: usize = 0;
    while i < parts.len()
        invariant
            i <= parts@.len(),
            ps == parts@.map_values(|p: String| p@),
            out@ == join_seqs(ps.take(i as int), sep@),
        decreases parts@.len() - i,
    {
        assert(ps.take(i + 1).drop_last() =~= ps.take(i as int));
        if i > 0 {
            out.append(sep);
        }
        out.append(parts[i].as_str());
        proof {
            if i == 0 {
                assert(out@ =~= ps.take(1)[0]);
            }
        }
        i += 1;
    }
    assert(ps.take(parts@.len() as int) =~= ps);
    out
}

/// Each occurrence of `c` in `s` replaced by `rep`.
pub open spec fn replace_char(s: Seq<char>, c: char, rep: Seq<char>) -> Seq<char>
    decreases s.len(),
{
    if s.len() == 0 {
        Seq::<char>::empty()
    } else {
        replace_char(s.drop_last(), c, rep) + (if s.last() == c { rep } else { seq![s.last()] })
    }
}

/// `str::replace` with a one-character pattern.
pub fn replace_char_exec(s: &[char], c: char, rep: &[char]) -> (r: Vec<char>)
    ensures
        r@ == replace_char(s@, c, rep@),
{
    let mut out: Vec<char> = Vec::new();
    let mut i: usize = 0;
    while i < s.len()
        invariant
            i <= s@.len(),
            out@ == replace_char(s@.take(i as int), c, rep@),
        decreases s@.len() - i,
    {
        assert(s@.take(i + 1).drop_last() =~= s@.take(i as int));
        if s[i] == c {
            let mut k: usize = 0;
            let ghost before = out@;
            while k < rep.len()
                invariant
                    k <= rep@.len(),
                    out@ == before + rep@.take(k as int),
                decreases rep@.len() - k,
            {
                out.push(rep[k]);
                k += 1;
                assert(before + rep@.take(k as int) =~= (before + rep@.take(k - 1)).push(rep@[k - 1]));
            }
            assert(rep@.take(rep@.len() as int) =~= rep@);
        } else {
            let ghost before = out@;
            out.push(s[i]);
            assert(out@ =~= before + seq![s@[i as int]]);
        }
        i += 1;
    }
    assert(s@.take(s@.len() as int) =~= s@);
    out
}

/// ASCII upper-case letters mapped to lower case, other characters kept.
pub open spec fn ascii_lower(c: char) -> char {
    if 'A' <= c && c <= 'Z' { ((c as u32) + 32) as char } else { c }
}

pub fn to_ascii_lower(c: char) -> (r: char)
    ensures
        r == ascii_lower(c),
{
    if 'A' <= c && c <= 'Z' {
        ((c as u8) + 32) as char
    } else {
        c
    }
}

/// Name of the result of `str::to_lowercase` (Unicode lower-casing).
pub uninterp spec fn lowercase(s: Seq<char>) -> Seq<char>;

/// Unicode lower case of a string.
///
/// Wraps `str::to_lowercase`; the result is named by `lowercase`.
#[verifier::external_body]
pub(crate) fn to_lowercase(s: &str) -> (r: String)
    ensures
        r@ == lowercase(s@),
{
    s.to_lowercase()
}

/// Config-key form of a player identity: lower case, spaces as underscores.
pub open spec fn normalize_identity(s: Seq<char>) -> Seq<char> {
    replace_char(lowercase(s), ' ', seq!['_'])
}

/// Normalise a player identity or bus name into its config-key form.
pub fn normalize_player_identity(identity: &str) -> (r: String)
    ensures
        r@ == normalize_identity(identity@),
{
    let lower = to_lowercase(identity);
    let chars = chars_of(lower.as_str());
    let underscore = ['_'];
    let replaced = replace_char_exec(chars.as_slice(), ' ', &underscore);
    assert(underscore@ == seq!['_']);
    string_from(replaced.as_slice())
}

/// The view of an optional string.
pub open spec fn opt_view(o: Option<String>) -> Option<Seq<char>> {
    match o {
        Some(s) => Some(s@),
        None => None,
    }
}

/// Equality of two optional strings by their characters.
pub fn opt_string_eq(a: &Option<String>, b: &Option<String>) -> (r: bool)
    ensures
        r == (opt_view(*a) == opt_view(*b)),
{
    match (a, b) {
        (Some(x), Some(y)) => str_eq(x.as_str(), y.as_str()),
        (None, None) => true,
        _ => false,
    }
}

/// A copy of an optional string.
pub fn clone_opt_string(a: &Option<String>) -> (r: Option<String>)
    ensures
        opt_view(r) == opt_view(*a),
{
    match a {
        Some(x) => Some(x.clone()),
        None => None,
    }
}

/// `parts` joined with `sep`, as characters.
pub fn join_chars(parts: &[Vec<char>], sep: &[char]) -> (r: Vec<char>)
    ensures
        r@ == join_seqs(seqs_of(parts@), sep@),
{
    let ghost ps = seqs_of(parts@);
    let mut out: Vec<char> = Vec::new();
    let mut i: usize = 0;
    while i < parts.len()
        invariant
            i <= parts@.len(),
            ps == seqs_of(parts@),
            out@ == join_seqs(ps.take(i as int), sep@),
        decreases parts@.len() - i,
    {
        assert(ps.take(i + 1).drop_last() =~= ps.take(i as int));
        let ghost before = out@;
        if i > 0 {
            append_chars(&mut out, sep);
        }
        let ghost mid = out@;
        append_chars(&mut out, parts[i].as_slice());
        proof {
            if i == 0 {
                assert(out@ =~= ps.take(1)[0]);
            } else {
                assert(out@ =~= before + sep@ + ps[i as int]);
            }
        }
        i += 1;
    }
    assert(ps.take(parts@.len() as int) =~= ps);
    out
}

/// Appends characters to a vector.
pub fn append_chars(out: &mut Vec<char>, more: &[char])
    ensures
        final(out)@ == old(out)@ + more@,
{
    let mut k: usize = 0;
    let ghost before = out@;
    while k < more.len()
        invariant
            k <= more@.len(),
            out@ == before + more@.take(k as int),
        decreases more@.len() - k,
    {
        out.push(more[k]);
        k += 1;
        assert(before + more@.take(k as int) =~= (before + more@.take(k - 1)).push(more@[k - 1]));
    }
    assert(more@.take(more@.len() as int) =~= more@);
}

/// All characters are ASCII digits.
pub open spec fn all_ascii_digits(s: Seq<char>) -> bool {
    forall|i: int| 0 <= i < s.len() ==> '0' <= #[trigger] s[i] && s[i] <= '9'
}

pub fn is_all_ascii_digits(s: &[char]) -> (r: bool)
    ensures
        r == all_ascii_digits(s@),
{
    let mut i: usize = 0;
    while i < s.len()
        invariant
            i <= s@.len(),
            forall|k: int| 0 <= k < i ==> '0' <= #[trigger] s@[k] && s@[k] <= '9',
        decreases s@.len() - i,
    {
        if !('0' <= s[i] && s[i] <= '9') {
            return false;
        }
        i += 1;
    }
    true
}

/// `s` with every leading copy of `p` removed (`str::trim_start_matches`).
pub open spec fn trim_prefix_all(s: Seq<char>, p: Seq<char>) -> Seq<char>
    decreases s.len(),
{
    if p.len() > 0 && p.is_prefix_of(s) { trim_prefix_all(s.skip(p.len() as int), p) } else { s }
}

pub fn trim_prefix_all_exec(s: &[char], p: &[char]) -> (r: Vec<char>)
    ensures
        r@ == trim_prefix_all(s@, p@),
{
    let mut start: usize = 0;
    let n = s.len();
    if p.len() > 0 {
        assert(s@.skip(0) =~= s@);
        while p.len() <= n - start && occurs_prefix_at(s, p, start)
            invariant
                n == s@.len(),
                p@.len() > 0,
                start <= n,
                trim_prefix_all(s@, p@) == trim_prefix_all(s@.skip(start as int), p@),
            decreases n - start,
        {
            proof {
                let rest = s@.skip(start as int);
                assert(p@ =~= rest.subrange(0, p@.len() as int));
                assert(rest.skip(p@.len() as int) =~= s@.skip(start + p@.len()));
            }
            start = start + p.len();
        }
        proof {
            let rest = s@.skip(start as int);
            if p@.is_prefix_of(rest) {
                assert(occurs_at(s@, p@, start as int)) by {
                    assert(s@.subrange(start as int, start + p@.len()) =~= rest.subrange(0, p@.len() as int));
                }
            }
        }
    } else {
        assert(s@.skip(0) =~= s@);
    }
    let mut out: Vec<char> = Vec::new();
    let mut k: usize = start;
    while k < n
        invariant
            n == s@.len(),
            start <= k <= n,
            out@ == s@.subrange(start as int, k as int),
        decreases n - k,
    {
        out.push(s[k]);
        k += 1;
        assert(s@.subrange(start as int, k as int) =~= s@.subrange(start as int, k - 1).push(s@[k - 1]));
    }
    assert(out@ =~= s@.skip(start as int));
    out
}

fn occurs_prefix_at(s: &[char], p: &[char], i: usize) -> (r: bool)
    requires
        i + p@.len() <= s@.len(),
    ensures
        r == occurs_at(s@, p@, i as int),
        r == p@.is_prefix_of(s@.skip(i as int)),
{
    let r = occurs_at_exec(s, p, i);
    assert(s@.subrange(i as int, i + p@.len()) =~= s@.skip(i as int).subrange(0, p@.len() as int));
    r
}

/// Decimal value of a digit string.
pub open spec fn digits_value(s: Seq<char>) -> nat
    decreases s.len(),
{
    if s.len() == 0 {
        0
    } else {
        digits_value(s.drop_last()) * 10 + ((s.last() as u32) - ('0' as u32)) as nat
    }
}

/// `str::parse::<u64>`: an optional `+`, then one or more ASCII digits
/// whose value fits in a `u64`.
pub open spec fn parse_u64_spec(s: Seq<char>) -> Option<u64> {
    let body = if s.len() > 0 && s[0] == '+' { s.drop_first() } else { s };
    if body.len() > 0 && all_ascii_digits(body) && digits_value(body) <= u64::MAX {
        Some(digits_value(body) as u64)
    } else {
        None
    }
}

proof fn lemma_digits_value_mono(s: Seq<char>, i: int)
    requires
        0 <= i <= s.len(),
        all_ascii_digits(s),
    ensures
        digits_value(s.take(i)) <= digits_value(s),
    decreases s.len() - i,
{
    if i < s.len() {
        let t = s.drop_last();
        assert(all_ascii_digits(t));
        lemma_digits_value_mono(t, i);
        assert(t.take(i) =~= s.take(i));
        assert(digits_value(s) == digits_value(t) * 10 + ((s.last() as u32) - ('0' as u32)) as nat);
    } else {
        assert(s.take(i) =~= s);
    }
}

/// Parse an unsigned decimal integer as `str::parse::<u64>` does.
pub fn parse_u64(s: &str) -> (r: Option<u64>)
    ensures
        r == parse_u64_spec(s@),
{
    let chars = chars_of(s);
    let n = chars.len();
    let mut i: usize = 0;
    if n > 0 && chars[0] == '+' {
        i = 1;
    }
    let ghost body = if s@.len() > 0 && s@[0] == '+' { s@.drop_first() } else { s@ };
    let start = i;
    assert(body =~= chars@.skip(start as int));
    if i == n {
        return None;
    }
    let mut v: u64 = 0;
    while i < n
        invariant
            n == chars@.len(),
            chars@ == s@,
            start <= i <= n,
            body == chars@.skip(start as int),
            body == (if s@.len() > 0 && s@[0] == '+' { s@.drop_first() } else { s@ }),
            all_ascii_digits(body.take(i - start)),
            v as nat == digits_value(body.take(i - start)),
        decreases n - i,
    {
        let c = chars[i];
        if !('0' <= c && c <= '9') {
            assert(body[i - start] == c);
            assert(!all_ascii_digits(body));
            return None;
        }
        let d = (c as u32 - '0' as u32) as u64;
        let next: u128 = (v as u128) * 10 + (d as u128);
        let ghost pre = body.take(i - start);
        let ghost cur = body.take(i + 1 - start);
        assert(cur.drop_last() =~= pre);
        assert(cur.last() == c);
        assert(all_ascii_digits(cur));
        assert(digits_value(cur) == digits_value(pre) * 10 + d);
        if next > u64::MAX as u128 {
            proof {
                if all_ascii_digits(body) {
                    lemma_digits_value_mono(body, i + 1 - start);
                    assert(digits_value(body) > u64::MAX);
                }
            }
            return None;
        }
        v = next as u64;
        i += 1;
    }
    assert(body.take(n - start) =~= body);
    Some(v)
}

/// `i` is the first position of `c` in `s`.
pub open spec fn first_at(s: Seq<char>, c: char, i: int) -> bool {
    0 <= i < s.len() && s[i] == c && forall|j: int| 0 <= j < i ==> s[j] != c
}

/// `str::split_once` on a character: the text before and after its first
/// occurrence.
pub open spec fn split_once(s: Seq<char>, c: char) -> Option<(Seq<char>, Seq<char>)> {
    if s.contains(c) {
        let i = choose|i: int| first_at(s, c, i);
        Some((s.take(i), s.skip(i + 1)))
    } else {
        None
    }
}

pub proof fn lemma_first_at_unique(s: Seq<char>, c: char, i: int)
    requires
        first_at(s, c, i),
    ensures
        s.contains(c),
        (choose|k: int| first_at(s, c, k)) == i,
{
    assert(s[i] == c);
    let k = choose|k: int| first_at(s, c, k);
    assert(first_at(s, c, k));
    if k < i {
        assert(s[k] != c);
    } else if k > i {
        assert(s[i] != c);
    }
}

/// Split `s` at the first occurrence of `c`.
pub fn split_once_chars(s: &[char], c: char) -> (r: Option<(Vec<char>, Vec<char>)>)
    ensures
        match r {
            Some((a, b)) => split_once(s@, c) == Some((a@, b@)),
            None => split_once(s@, c) is None,
        },
{
    let mut i: usize = 0;
    while i < s.len()
        invariant
            i <= s@.len(),
            forall|j: int| 0 <= j < i ==> s@[j] != c,
        decreases s@.len() - i,
    {
        if s[i] == c {
            proof { lemma_first_at_unique(s@, c, i as int); }
            let mut a: Vec<char> = Vec::new();
            let mut k: usize = 0;
            while k < i
                invariant
                    k <= i < s@.len(),
                    a@ == s@.take(k as int),
                decreases i - k,
            {
                a.push(s[k]);
                k += 1;
                assert(a@ =~= s@.take(k as int));
            }
            let mut b: Vec<char> = Vec::new();
            let mut m: usize = i + 1;
            while m < s.len()
                invariant
                    i + 1 <= m <= s@.len(),
                    b@ == s@.subrange(i + 1, m as int),
                decreases s@.len() - m,
            {
                b.push(s[m]);
                m += 1;
                assert(b@ =~= s@.subrange(i + 1, m as int));
            }
            assert(b@ =~= s@.skip(i + 1));
            return Some((a, b));
        }
        i += 1;
    }
    assert(!s@.contains(c)) by {
        if s@.contains(c) {
            let k = choose|k: int| 0 <= k < s@.len() && s@[k] == c;
            assert(s@[k] != c);
        }
    }
    None
}

/// ASCII-case-insensitive equality (`str::eq_ignore_ascii_case`).
pub open spec fn eq_ignore_ascii_case(a: Seq<char>, b: Seq<char>) -> bool {
    a.len() == b.len() && forall|i: int| 0 <= i < a.len() ==> ascii_lower(#[trigger] a[i]) == ascii_lower(b[i])
}

pub fn eq_ignore_ascii_case_chars(a: &[char], b: &[char]) -> (r: bool)
    ensures
        r == eq_ignore_ascii_case(a@, b@),
{
    if a.len() != b.len() {
        return false;
    }
    let mut i: usize = 0;
    while i < a.len()
        invariant
            a@.len() == b@.len(),
            i <= a@.len(),
            forall|k: int| 0 <= k < i ==> ascii_lower(#[trigger] a@[k]) == ascii_lower(b@[k]),
        decreases a@.len() - i,
    {
        if to_ascii_lower(a[i]) != to_ascii_lower(b[i]) {
            return false;
        }
        i += 1;
    }
    true
}

/// Number of characters of a string.
pub fn char_len(s: &str) -> (r: usize)
    ensures
        r == s@.len(),
{
    chars_of(s).len()
}

/// Lexicographic order of character sequences by code point (the order of
/// `String`'s `<`, since UTF-8 keeps code point order).
pub open spec fn lex_less(a: Seq<char>, b: Seq<char>) -> bool
    decreases a.len(),
{
    if b.len() == 0 {
        false
    } else if a.len() == 0 {
        true
    } else if (a[0] as u32) < (b[0] as u32) {
        true
    } else if a[0] == b[0] {
        lex_less(a.drop_first(), b.drop_first())
    } else {
        false
    }
}

/// No text sorts before itself.
pub proof fn lemma_lex_irreflexive(a: Seq<char>)
    ensures
        !lex_less(a, a),
    decreases a.len(),
{
    if a.len() > 0 {
        lemma_lex_irreflexive(a.drop_first());
    }
}

/// Sorting before is transitive.
pub proof fn lemma_lex_transitive(a: Seq<char>, b: Seq<char>, c: Seq<char>)
    requires
        lex_less(a, b),
        lex_less(b, c),
    ensures
        lex_less(a, c),
    decreases a.len(),
{
    if a.len() > 0 && b.len() > 0 && c.len() > 0 && a[0] == b[0] && b[0] == c[0] {
        lemma_lex_transitive(a.drop_first(), b.drop_first(), c.drop_first());
    }
}

/// Of two different texts, one sorts before the other.
pub proof fn lemma_lex_total(a: Seq<char>, b: Seq<char>)
    requires
        a != b,
    ensures
        lex_less(a, b) || lex_less(b, a),
    decreases a.len(),
{
    if a.len() > 0 && b.len() > 0 && a[0] == b[0] {
        if a.drop_first() == b.drop_first() {
            assert(a =~= seq![a[0]] + a.drop_first());
            assert(b =~= seq![b[0]] + b.drop_first());
        }
        lemma_lex_total(a.drop_first(), b.drop_first());
    } else if a.len() == 0 && b.len() == 0 {
        assert(a =~= b);
    } else if a.len() > 0 && b.len() > 0 {
        let x = a[0];
        let y = b[0];
        vstd::utf8::char_u32_cast(x, x as u32);
        vstd::utf8::char_u32_cast(y, y as u32);
        assert((x as u32) != (y as u32));
    }
}

/// `a` sorts before `b`.
pub fn str_less(a: &str, b: &str) -> (r: bool)
    ensures
        r == lex_less(a@, b@),
{
    let av = chars_of(a);
    let bv = chars_of(b);
    let mut i: usize = 0;
    assert(a@.skip(0) =~= a@ && b@.skip(0) =~= b@);
    while i < av.len() && i < bv.len()
        invariant
            i <= av@.len(),
            i <= bv@.len(),
            av@ == a@,
            bv@ == b@,
            lex_less(a@, b@) == lex_less(a@.skip(i as int), b@.skip(i as int)),
        decreases av@.len() - i,
    {
        let ghost sa = a@.skip(i as int);
        let ghost sb = b@.skip(i as int);
        assert(sa[0] == av@[i as int] && sb[0] == bv@[i as int]);
        if (av[i] as u32) < (bv[i] as u32) {
            return true;
        }
        if av[i] != bv[i] {
            return false;
        }
        assert(sa.drop_first() =~= a@.skip(i + 1));
        assert(sb.drop_first() =~= b@.skip(i + 1));
        i += 1;
    }
    i < bv.len()
}

/// Decimal digit character.
pub open spec fn digit_char(d: nat) -> char {
    ((48 + d) as u8) as char
}

/// Decimal representation of a number, without leading zeros.
pub open spec fn decimal(n: nat) -> Seq<char>
    decreases n,
{
    if n < 10 { seq![digit_char(n)] } else { decimal(n / 10).push(digit_char(n % 10)) }
}

/// The decimal text of a number (its `Display` form).
pub fn decimal_string(n: u64) -> (r: String)
    ensures
        r@ == decimal(n as nat),
{
    let mut digits: Vec<char> = Vec::new();
    let mut m = n;
    // Digits are produced least significant first, then reversed.
    let ghost full = n as nat;
    while m >= 10
        invariant
            decimal(full) == decimal(m as nat) + digits@.reverse(),
        decreases m,
    {
        let d = m % 10;
        let ghost before = digits@;
        digits.push(((48 + d) as u8) as char);
        assert(decimal(m as nat) == decimal((m / 10) as nat).push(digit_char((m % 10) as nat)));
        assert(digits@.reverse() =~= seq![digit_char((m % 10) as nat)] + before.reverse());
        assert(decimal(m as nat) + before.reverse() =~= decimal((m / 10) as nat) + digits@.reverse());
        m = m / 10;
    }
    let mut out: Vec<char> = Vec::new();
    out.push(((48 + m) as u8) as char);
    assert(out@ =~= decimal(m as nat));
    let mut i: usize = digits.len();
    while i > 0
        invariant
            i <= digits@.len(),
            decimal(full) == out@ + digits@.take(i as int).reverse(),
        decreases i,
    {
        let ghost before = out@;
        i -= 1;
        out.push(digits[i]);
        assert(digits@.take(i + 1).reverse() =~= seq![digits@[i as int]] + digits@.take(i as int).reverse());
        assert(before + digits@.take(i + 1).reverse() =~= out@ + digits@.take(i as int).reverse());
    }
    assert(digits@.take(0).reverse() =~= Seq::<char>::empty());
    assert(out@ =~= decimal(full));
    string_from(out.as_slice())
}

/// Splitting a text that ends with the separator gives the pieces of the
/// text before it and an empty last piece.
pub proof fn lemma_split_on_push_sep(s: Seq<char>, sep: char)
    ensures
        split_on(s.push(sep), sep) == split_on(s, sep).push(Seq::<char>::empty()),
{
    assert(s.push(sep).drop_last() =~= s);
}

/// Appending text without the separator extends the last piece.
pub proof fn lemma_split_on_append(s: Seq<char>, b: Seq<char>, sep: char)
    requires
        !b.contains(sep),
    ensures
        split_on(s + b, sep) == split_on(s, sep).update(
            split_on(s, sep).len() - 1,
            split_on(s, sep).last() + b,
        ),
    decreases b.len(),
{
    lemma_split_on_nonempty(s, sep);
    if b.len() == 0 {
        assert(s + b =~= s);
        assert(split_on(s, sep).last() + b =~= split_on(s, sep).last());
        assert(split_on(s, sep).update(split_on(s, sep).len() - 1, split_on(s, sep).last()) =~= split_on(s, sep));
    } else {
        let b0 = b.drop_last();
        assert(!b0.contains(sep)) by {
            if b0.contains(sep) {
                let k = choose|k: int| 0 <= k < b0.len() && b0[k] == sep;
                assert(b[k] == sep);
            }
        }
        assert(b.last() != sep) by {
            assert(b[b.len() - 1] == b.last());
        }
        lemma_split_on_append(s, b0, sep);
        assert((s + b).drop_last() =~= s + b0);
        assert((s + b).last() == b.last());
        let init = split_on(s, sep);
        let mid = split_on(s + b0, sep);
        assert(mid.len() == init.len());
        assert(mid.last() == init.last() + b0);
        assert(split_on(s + b, sep) == mid.update(mid.len() - 1, mid.last().push(b.last())));
        assert(init.last() + b0 + seq![b.last()] =~= init.last() + b);
        assert(mid.last().push(b.last()) =~= init.last() + b);
        assert forall|k: int| 0 <= k < init.len() - 1 implies mid[k] == init[k] by {}
        assert(mid.update(mid.len() - 1, mid.last().push(b.last()))
            =~= init.update(init.len() - 1, init.last() + b));
    }
}

/// A piece of a split holds only characters of the text, never the
/// separator.
pub proof fn lemma_split_on_pieces(s: Seq<char>, sep: char)
    ensures
        forall|i: int, c: char| 0 <= i < split_on(s, sep).len() && #[trigger] split_on(s, sep)[i].contains(c)
            ==> s.contains(c) && c != sep,
    decreases s.len(),
{
    if s.len() > 0 {
        let s0 = s.drop_last();
        lemma_split_on_pieces(s0, sep);
        lemma_split_on_nonempty(s0, sep);
        let init = split_on(s0, sep);
        assert forall|i: int, c: char| 0 <= i < split_on(s, sep).len() && #[trigger] split_on(s, sep)[i].contains(c)
            implies s.contains(c) && c != sep by {
            let p = split_on(s, sep)[i];
            let k = choose|k: int| 0 <= k < p.len() && p[k] == c;
            if s.last() == sep {
                if i < init.len() {
                    assert(p == init[i]);
                    let j = choose|j: int| 0 <= j < s0.len() && s0[j] == c;
                    assert(s[j] == c);
                } else {
                    assert(p.len() == 0);
                }
            } else if i < init.len() - 1 {
                assert(p == init[i]);
                let j = choose|j: int| 0 <= j < s0.len() && s0[j] == c;
                assert(s[j] == c);
            } else {
                assert(p == init.last().push(s.last()));
                if k < init.last().len() {
                    assert(init.last()[k] == c);
                    assert(init[init.len() - 1].contains(c));
                    let j = choose|j: int| 0 <= j < s0.len() && s0[j] == c;
                    assert(s[j] == c);
                } else {
                    assert(c == s.last());
                    assert(s[s.len() - 1] == c);
                }
            }
        }
    }
}

/// Splitting pieces joined by the separator gives the pieces back.
pub proof fn lemma_split_on_join(parts: Seq<Seq<char>>, sep: char)
    requires
        parts.len() >= 1,
        forall|i: int| 0 <= i < parts.len() ==> !(#[trigger] parts[i]).contains(sep),
    ensures
        split_on(join_seqs(parts, seq![sep]), sep) == parts,
    decreases parts.len(),
{
    if parts.len() == 1 {
        lemma_split_on_append(Seq::empty(), parts[0], sep);
        assert(Seq::<char>::empty() + parts[0] =~= parts[0]);
        assert(seq![Seq::<char>::empty()].update(0, Seq::<char>::empty() + parts[0]) =~= parts);
    } else {
        let init = parts.drop_last();
        assert forall|i: int| 0 <= i < init.len() implies !(#[trigger] init[i]).contains(sep) by {
            assert(init[i] == parts[i]);
        }
        lemma_split_on_join(init, sep);
        let j = join_seqs(init, seq![sep]);
        assert(join_seqs(parts, seq![sep]) == j + seq![sep] + parts.last());
        assert(j + seq![sep] =~= j.push(sep));
        lemma_split_on_push_sep(j, sep);
        assert(!parts.last().contains(sep)) by {
            assert(parts[parts.len() - 1] == parts.last());
        }
        lemma_split_on_append(j.push(sep), parts.last(), sep);
        let e = Seq::<char>::empty();
        assert(e + parts.last() =~= parts.last());
        assert(init.push(e).update(init.len() as int, e + parts.last()) =~= parts);
    }
}

/// The lines of pieces joined by line feeds, each followed by one, are the
/// pieces, when none holds a line feed or a carriage return.
pub proof fn lemma_lines_of_joined(parts: Seq<Seq<char>>)
    requires
        parts.len() >= 1,
        forall|i: int| 0 <= i < parts.len() ==> !(#[trigger] parts[i]).contains('\n') && !parts[i].contains('\r'),
    ensures
        lines_of(join_seqs(parts, seq!['\n']) + seq!['\n']) == parts,
{
    let j = join_seqs(parts, seq!['\n']);
    lemma_split_on_join(parts, '\n');
    assert(j + seq!['\n'] =~= j.push('\n'));
    lemma_split_on_push_sep(j, '\n');
    let ps = parts.push(Seq::<char>::empty());
    assert(split_on(j + seq!['\n'], '\n') == ps);
    assert(ps.take(ps.len() - 1) =~= parts);
    assert forall|i: int| 0 <= i < parts.len() implies strip_cr(#[trigger] parts[i]) == parts[i] by {
        if parts[i].len() > 0 && parts[i].last() == '\r' {
            assert(parts[i][parts[i].len() - 1] == '\r');
        }
    }
    assert(parts.map_values(|l: Seq<char>| strip_cr(l)) =~= parts);
}

} // verus!
