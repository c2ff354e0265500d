//! Character-level text helpers shared by the domain parsers.

use vstd::prelude::*;
use vstd::string::*;

verus! {

/// Unicode `White_Space` property, the set that `char::is_whitespace` tests.
pub open spec fn is_white(c: char) -> bool {
    ||| ('\u{9}' <= c && c <= '\u{d}')
    ||| c == ' '
    ||| c == '\u{85}'
    ||| c == '\u{a0}'
    ||| c == '\u{1680}'
    ||| ('\u{2000}' <= c && c <= '\u{200a}')
    ||| c == '\u{2028}'
    ||| c == '\u{2029}'
    ||| c == '\u{202f}'
    ||| c == '\u{205f}'
    ||| c == '\u{3000}'
}

/// Text without its leading whitespace.
pub open spec fn trim_start(s: Seq<char>) -> Seq<char>
    decreases s.len(),
{
    if s.len() > 0 && is_white(s[0]) {
        trim_start(s.subrange(1, s.len() as int))
    } else {
        s
    }
}

/// Text without its trailing whitespace.
pub open spec fn trim_end(s: Seq<char>) -> Seq<char>
    decreases s.len(),
{
    if s.len() > 0 && is_white(s[s.len() - 1]) {
        trim_end(s.subrange(0, s.len() - 1))
    } else {
        s
    }
}

/// Text without leading and trailing whitespace (what `str::trim` returns).
pub open spec fn trim(s: Seq<char>) -> Seq<char> {
    trim_end(trim_start(s))
}

/// ASCII lower-casing of one character; other characters are kept.
pub open spec fn ascii_lower(c: char) -> char {
    if 'A' <= c && c <= 'Z' {
        ((c as u32) + 32) as char
    } else {
        c
    }
}

/// ASCII lower-casing of a text (what `str::to_ascii_lowercase` returns).
pub open spec fn lower(s: Seq<char>) -> Seq<char> {
    s.map_values(|c: char| ascii_lower(c))
}

/// Whether a character has the Unicode `White_Space` property, as `char::is_whitespace` tests.
pub fn char_is_whitespace(c: char) -> (r: bool)
    ensures
        r == is_white(c),
{
    ('\u{9}' <= c && c <= '\u{d}') || c == ' ' || c == '\u{85}' || c == '\u{a0}' || c == '\u{1680}'
        || ('\u{2000}' <= c && c <= '\u{200a}') || c == '\u{2028}' || c == '\u{2029}' || c == '\u{202f}'
        || c == '\u{205f}' || c == '\u{3000}'
}

/// `String::push` from std: appends one character.
#[verifier::external_body]
pub(crate) fn push_char(s: &mut String, c: char)
    ensures
        final(s)@ == old(s)@.push(c),
{
    s.push(c)
}

/// The characters of a text, in order.
pub fn chars_of(s: &str) -> (r: Vec<char>)
    ensures
        r@ == s@,
{
    let n = s.unicode_len();
    let mut out: Vec<char> = Vec::new();
    let mut i: usize = 0;
    while i < n
        invariant
            n == s@.len(),
            i <= n,
            out@ == s@.subrange(0, i as int),
        decreases n - i,
    {
        let c = s.get_char(i);
        out.push(c);
        i = i + 1;
        assert(out@ =~= s@.subrange(0, i as int));
    }
    assert(out@ =~= s@);
    out
}

/// A string holding the given characters.
pub fn string_of(cs: &[char]) -> (r: String)
    ensures
        r@ == cs@,
{
    let mut out = String::new();
    let mut i: usize = 0;
    while i < cs.len()
        invariant
            i <= cs@.len(),
            out@ == cs@.subrange(0, i as int),
        decreases cs@.len() - i,
    {
        push_char(&mut out, cs[i]);
        i = i + 1;
        assert(out@ =~= cs@.subrange(0, i as int));
    }
    assert(out@ =~= cs@);
    out
}


/// Index of the first character that is not whitespace (or the length).
fn leading_white_end(v: &Vec<char>) -> (i: usize)
    ensures
        i <= v@.len(),
        trim_start(v@) == v@.subrange(i as int, v@.len() as int),
{
    let n = v.len();
    let mut i: usize = 0;
    assert(v@.subrange(0, n as int) =~= v@);
    while i < n && char_is_whitespace(v[i])
        invariant
            n == v@.len(),
            i <= n,
            trim_start(v@) == trim_start(v@.subrange(i as int, n as int)),
        decreases n - i,
    {
        let ghost rest = v@.subrange(i as int, n as int);
        assert(rest.subrange(1, rest.len() as int) =~= v@.subrange(i + 1, n as int));
        i = i + 1;
    }
    i
}

/// End index (exclusive) of the text without trailing whitespace, given a start.
fn trailing_white_start(v: &Vec<char>, start: usize) -> (j: usize)
    requires
        start <= v@.len(),
    ensures
        start <= j <= v@.len(),
        trim_end(v@.subrange(start as int, v@.len() as int)) == v@.subrange(start as int, j as int),
{
    let n = v.len();
    let mut j: usize = n;
    while j > start && char_is_whitespace(v[j - 1])
        invariant
            n == v@.len(),
            start <= j <= n,
            trim_end(v@.subrange(start as int, n as int)) == trim_end(v@.subrange(start as int, j as int)),
        decreases j,
    {
        let ghost part = v@.subrange(start as int, j as int);
        assert(part.subrange(0, part.len() - 1) =~= v@.subrange(start as int, j - 1));
        j = j - 1;
    }
    j
}

/// The characters of a text without leading and trailing whitespace.
pub fn trim_chars(v: &Vec<char>) -> (r: Vec<char>)
    ensures
        r@ == trim(v@),
{
    let i = leading_white_end(v);
    let j = trailing_white_start(v, i);
    let mut out: Vec<char> = Vec::new();
    let mut k: usize = i;
    while k < j
        invariant
            i <= k <= j <= v@.len(),
            out@ == v@.subrange(i as int, k as int),
        decreases j - k,
    {
        out.push(v[k]);
        k = k + 1;
        assert(out@ =~= v@.subrange(i as int, k as int));
    }
    out
}

/// `str::trim` as characters.
pub fn trimmed_chars(s: &str) -> (r: Vec<char>)
    ensures
        r@ == trim(s@),
{
    let v = chars_of(s);
    trim_chars(&v)
}

/// ASCII lower-casing of one character.
pub fn lower_char(c: char) -> (r: char)
    ensures
        r == ascii_lower(c),
{
    if 'A' <= c && c <= 'Z' {
        let code: u32 = c as u32;
        let lowered: u8 = (code + 32) as u8;
        lowered as char
    } else {
        c
    }
}

/// ASCII lower-casing of a character sequence.
pub fn lower_chars(v: &Vec<char>) -> (r: Vec<char>)
    ensures
        r@ == lower(v@),
{
    let mut out: Vec<char> = Vec::new();
    let mut i: usize = 0;
    while i < v.len()
        invariant
            i <= v@.len(),
            out@ == lower(v@.subrange(0, i as int)),
        decreases v@.len() - i,
    {
        out.push(lower_char(v[i]));
        i = i + 1;
        assert(out@ =~= lower(v@.subrange(0, i as int)));
    }
    assert(v@.subrange(0, v@.len() as int) =~= v@);
    out
}

/// Character-sequence equality.
pub fn chars_eq(a: &[char], b: &[char]) -> (r: bool)
    ensures
        r == (a@ == b@),
{
    if a.len() != b.len() {
        return false;
    }
    let mut i: usize = 0;
    while i < a.len()
        invariant
            a@.len() == b@.len(),
            i <= a@.len(),
            forall|k: int| 0 <= k < i ==> a@[k] == b@[k],
        decreases a@.len() - i,
    {
        if a[i] != b[i] {
            return false;
        }
        i = i + 1;
    }
    assert(a@ =~= b@);
    true
}

/// Whether a text equals the given characters.
pub fn str_is(s: &str, expected: &[char]) -> (r: bool)
    ensures
        r == (s@ == expected@),
{
    let v = chars_of(s);
    chars_eq(v.as_slice(), expected)
}


/// Decimal digit character for `d < 10`.
pub open spec fn digit_char(d: nat) -> char {
    (('0' as u32) + d) as char
}

/// Decimal rendering of a natural number, without leading zeros.
pub open spec fn decimal(n: nat) -> Seq<char>
    decreases n,
{
    if n < 10 {
        seq![digit_char(n)]
    } else {
        decimal(n / 10).push(digit_char(n % 10))
    }
}

/// Decimal text of an unsigned integer (what `to_string` gives for integers).
pub fn decimal_text(n: u64) -> (r: String)
    ensures
        r@ == decimal(n as nat),
    decreases n,
{
    let d: u8 = (n % 10) as u8;
    let c: char = (48u8 + d) as char;
    if n < 10 {
        let mut s = String::new();
        push_char(&mut s, c);
        assert(s@ =~= seq![digit_char(n as nat)]);
        s
    } else {
        let mut s = decimal_text(n / 10);
        push_char(&mut s, c);
        s
    }
}


/// Text equality.
pub fn str_eq(a: &str, b: &str) -> (r: bool)
    ensures
        r == (a@ == b@),
{
    let va = chars_of(a);
    let vb = chars_of(b);
    chars_eq(va.as_slice(), vb.as_slice())
}

/// Whether the text is empty or only whitespace.
pub fn is_blank(s: &str) -> (r: bool)
    ensures
        r == (trim(s@).len() == 0),
{
    let t = trimmed_chars(s);
    t.len() == 0
}


/// Whether `prefix` begins `s`.
pub open spec fn has_prefix(s: Seq<char>, prefix: Seq<char>) -> bool {
    prefix.len() <= s.len() && s.subrange(0, prefix.len() as int) == prefix
}

/// Whether `suffix` ends `s`.
pub open spec fn has_suffix(s: Seq<char>, suffix: Seq<char>) -> bool {
    suffix.len() <= s.len() && s.subrange(s.len() - suffix.len(), s.len() as int) == suffix
}

/// The characters after `prefix` when `s` begins with it (what `str::strip_prefix` gives).
pub fn strip_prefix_chars(s: &[char], prefix: &[char]) -> (r: Option<Vec<char>>)
    ensures
        match r {
            Some(rest) => has_prefix(s@, prefix@) && rest@ == s@.subrange(prefix@.len() as int, s@.len() as int),
            None => !has_prefix(s@, prefix@),
        },
{
    if prefix.len() > s.len() {
        return None;
    }
    let mut i: usize = 0;
    while i < prefix.len()
        invariant
            prefix@.len() <= s@.len(),
            i <= prefix@.len(),
            forall|k: int| 0 <= k < i ==> s@[k] == prefix@[k],
        decreases prefix@.len() - i,
    {
        if s[i] != prefix[i] {
            assert(s@.subrange(0, prefix@.len() as int)[i as int] != prefix@[i as int]);
            return None;
        }
        i = i + 1;
    }
    assert(s@.subrange(0, prefix@.len() as int) =~= prefix@);
    let mut rest: Vec<char> = Vec::new();
    let mut j: usize = prefix.len();
    while j < s.len()
        invariant
            prefix@.len() <= j <= s@.len(),
            rest@ == s@.subrange(prefix@.len() as int, j as int),
        decreases s@.len() - j,
    {
        rest.push(s[j]);
        j = j + 1;
        assert(rest@ =~= s@.subrange(prefix@.len() as int, j as int));
    }
    Some(rest)
}

/// Whether `s` ends with `suffix`.
pub fn ends_with_chars(s: &[char], suffix: &[char]) -> (r: bool)
    ensures
        r == has_suffix(s@, suffix@),
{
    if suffix.len() > s.len() {
        return false;
    }
    let offset = s.len() - suffix.len();
    let mut i: usize = 0;
    while i < suffix.len()
        invariant
            s@.len() == s.len(),
            offset + suffix@.len() == s@.len(),
            i <= suffix@.len(),
            forall|k: int| 0 <= k < i ==> s@[offset + k] == suffix@[k],
        decreases suffix@.len() - i,
    {
        if s[offset + i] != suffix[i] {
            assert(s@.subrange(offset as int, s@.len() as int)[i as int] != suffix@[i as int]);
            return false;
        }
        i = i + 1;
    }
    assert(s@.subrange(offset as int, s@.len() as int) =~= suffix@);
    true
}

/// Pieces of `s` between separator characters, as `str::split` with a set of characters
/// yields them (n separators give n + 1 pieces, empty ones included).
pub open spec fn split_on(s: Seq<char>, seps: Seq<char>) -> Seq<Seq<char>>
    decreases s.len(),
{
    if s.len() == 0 {
        seq![Seq::<char>::empty()]
    } else {
        let init = split_on(s.drop_last(), seps);
        if seps.contains(s.last()) {
            init.push(Seq::<char>::empty())
        } else {
            init.update(init.len() - 1, init.last().push(s.last()))
        }
    }
}

/// `split_on` always yields at least one piece.
pub proof fn lemma_split_nonempty(s: Seq<char>, seps: Seq<char>)
    ensures
        split_on(s, seps).len() >= 1,
    decreases s.len(),
{
    if s.len() > 0 {
        lemma_split_nonempty(s.drop_last(), seps);
    }
}

fn contains_char(seps: &[char], c: char) -> (r: bool)
    ensures
        r == seps@.contains(c),
{
    let mut i: usize = 0;
    while i < seps.len()
        invariant
            i <= seps@.len(),
            forall|k: int| 0 <= k < i ==> seps@[k] != c,
        decreases seps@.len() - i,
    {
        if seps[i] == c {
            assert(seps@[i as int] == c);
            return true;
        }
        i = i + 1;
    }
    false
}

/// Splits characters at any of the separators.
pub fn split_chars(s: &[char], seps: &[char]) -> (r: Vec<Vec<char>>)
    ensures
        r@.len() == split_on(s@, seps@).len(),
        forall|k: int| 0 <= k < r@.len() ==> (#[trigger] r@[k])@ == split_on(s@, seps@)[k],
{
    let mut pieces: Vec<Vec<char>> = Vec::new();
    let mut current: Vec<char> = Vec::new();
    let mut i: usize = 0;
    proof {
        assert(s@.subrange(0, 0) =~= Seq::<char>::empty());
    }
    while i < s.len()
        invariant
            i <= s@.len(),
            pieces@.len() + 1 == split_on(s@.subrange(0, i as int), seps@).len(),
            forall|k: int| 0 <= k < pieces@.len() ==> (#[trigger] pieces@[k])@ == split_on(s@.subrange(0, i as int), seps@)[k],
            current@ == split_on(s@.subrange(0, i as int), seps@).last(),
        decreases s@.len() - i,
    {
        let ghost prefix = s@.subrange(0, i + 1);
        assert(prefix.drop_last() =~= s@.subrange(0, i as int));
        proof {
            lemma_split_nonempty(s@.subrange(0, i as int), seps@);
        }
        let c = s[i];
        if contains_char(seps, c) {
            let done = current;
            pieces.push(done);
            current = Vec::new();
        } else {
            current.push(c);
        }
        i = i + 1;
    }
    assert(s@.subrange(0, s@.len() as int) =~= s@);
    pieces.push(current);
    pieces
}


/// The trimmed text, or nothing when it is blank.
pub fn non_empty(value: String) -> (r: Option<String>)
    ensures
        trim(value@).len() == 0 ==> r is None,
        trim(value@).len() > 0 ==> (r matches Some(t) && t@ == trim(value@)),
{
    let t = trimmed_chars(value.as_str());
    if t.len() == 0 {
        None
    } else {
        Some(string_of(t.as_slice()))
    }
}

/// The trimmed text of an optional value, or nothing when it is absent or blank.
pub fn non_empty_owned(value: Option<String>) -> (r: Option<String>)
    ensures
        match value {
            None => r is None,
            Some(v) => if trim(v@).len() == 0 {
                r is None
            } else {
                r matches Some(t) && t@ == trim(v@)
            },
        },
{
    match value {
        None => None,
        Some(v) => non_empty(v),
    }
}

/// Every `%20` replaced by a space, scanning left to right.
pub open spec fn decode_spaces(s: Seq<char>) -> Seq<char>
    decreases s.len(),
{
    if s.len() == 0 {
        s
    } else if s.len() >= 3 && s[0] == '%' && s[1] == '2' && s[2] == '0' {
        seq![' '] + decode_spaces(s.subrange(3, s.len() as int))
    } else {
        seq![s[0]] + decode_spaces(s.subrange(1, s.len() as int))
    }
}

/// A `file://` URL (optionally with host `localhost`) turned into its path with `%20` read
/// as a space; any other text, trimmed, is kept as it is.
pub open spec fn file_url_path(raw: Seq<char>) -> Seq<char> {
    let t = trim(raw);
    if has_prefix(t, "file://"@) {
        let rest = t.subrange(7, t.len() as int);
        let path = if has_prefix(rest, "localhost"@) { rest.subrange(9, rest.len() as int) } else { rest };
        decode_spaces(path)
    } else {
        t
    }
}

fn decode_spaces_of(s: &[char]) -> (r: String)
    ensures
        r@ == decode_spaces(s@),
{
    let mut out = String::new();
    let mut i: usize = 0;
    assert(s@.subrange(0, s@.len() as int) =~= s@);
    assert(out@ + decode_spaces(s@) =~= decode_spaces(s@));
    while i < s.len()
        invariant
            i <= s@.len(),
            out@ + decode_spaces(s@.subrange(i as int, s@.len() as int)) == decode_spaces(s@),
        decreases s@.len() - i,
    {
        let ghost rest = s@.subrange(i as int, s@.len() as int);
        if s.len() - i >= 3 && s[i] == '%' && s[i + 1] == '2' && s[i + 2] == '0' {
            assert(rest.subrange(3, rest.len() as int) =~= s@.subrange(i + 3, s@.len() as int));
            push_char(&mut out, ' ');
            i = i + 3;
        } else {
            assert(rest.subrange(1, rest.len() as int) =~= s@.subrange(i + 1, s@.len() as int));
            push_char(&mut out, s[i]);
            i = i + 1;
        }
    }
    assert(s@.subrange(s@.len() as int, s@.len() as int) =~= Seq::<char>::empty());
    out
}

/// Turns a `file://` URL into a filesystem path; other text is returned trimmed.
pub fn strip_file_url(raw: &str) -> (r: String)
    ensures
        r@ == file_url_path(raw@),
{
    let t = trimmed_chars(raw);
    let scheme = chars_of("file://");
    let host = chars_of("localhost");
    proof {
        reveal_strlit("file://");
        reveal_strlit("localhost");
    }
    match strip_prefix_chars(t.as_slice(), scheme.as_slice()) {
        Some(rest) => {
            match strip_prefix_chars(rest.as_slice(), host.as_slice()) {
                Some(path) => decode_spaces_of(path.as_slice()),
                None => decode_spaces_of(rest.as_slice()),
            }
        },
        None => string_of(t.as_slice()),
    }
}

/// What `url::Url::parse` makes of text: `None` when it does not parse; otherwise the URL's
/// scheme and what `to_file_path` gives (the percent-decoded local path, when it names one
/// and that path is UTF-8 text).
pub uninterp spec fn url_parts(text: Seq<char>) -> Option<(Seq<char>, Option<Seq<char>>)>;

/// `url::Url::parse`, then `scheme` and `to_file_path` of the parsed URL.
#[verifier::external_body]
fn parse_url_parts(text: &str) -> (r: Option<(String, Option<String>)>)
    ensures
        match r {
            Some((scheme, path)) => url_parts(text@) == Some(
                (scheme@, match path {
                    Some(p) => Some(p@),
                    None => None::<Seq<char>>,
                }),
            ),
            None => url_parts(text@) is None,
        },
{
    let url = url::Url::parse(text).ok()?;
    let path = url.to_file_path().ok().and_then(|path| path.to_str().map(str::to_owned));
    Some((url.scheme().to_owned(), path))
}

/// The filesystem path that raw text names: the local path of a `file:` URL, else the
/// trimmed text itself; blank text names the empty path.
pub open spec fn path_named_by(raw: Seq<char>) -> Seq<char> {
    let t = trim(raw);
    if t.len() == 0 {
        t
    } else {
        match url_parts(t) {
            Some((scheme, Some(path))) => if scheme == "file"@ {
                path
            } else {
                t
            },
            _ => t,
        }
    }
}

/// Decodes a `file://` URL (or plain path) into a filesystem path.
pub fn path_from_file_url(raw: &str) -> (r: String)
    ensures
        r@ == path_named_by(raw@),
{
    let chars = trimmed_chars(raw);
    let trimmed = string_of(chars.as_slice());
    if chars.len() == 0 {
        return trimmed;
    }
    match parse_url_parts(trimmed.as_str()) {
        Some((scheme, Some(path))) => {
            if str_eq(scheme.as_str(), "file") {
                path
            } else {
                trimmed
            }
        },
        _ => trimmed,
    }
}

/// What `url::Url::from_file_path` makes of a path: the `file:` URL text of an absolute
/// path, `None` for a relative one.
pub uninterp spec fn url_of_path(path: Seq<char>) -> Option<Seq<char>>;

/// `url::Url::from_file_path` rendered as text.
#[verifier::external_body]
fn file_url_text(path: &str) -> (r: Option<String>)
    ensures
        match r {
            Some(u) => url_of_path(path@) == Some(u@),
            None => url_of_path(path@) is None,
        },
{
    url::Url::from_file_path(path).ok().map(String::from)
}

/// Builds a `file://` URL for a path; a path that makes no URL is returned as it is.
pub fn file_url_from_path(path: &str) -> (r: String)
    ensures
        r@ == match url_of_path(path@) {
            Some(u) => u,
            None => path@,
        },
{
    match file_url_text(path) {
        Some(u) => u,
        None => String::from_str(path),
    }
}

} // verus!
