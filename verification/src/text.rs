//! Text as sequences of characters: trimming, splitting, searching and
//! replacing, each stated over `Seq<char>`.

use vstd::prelude::*;

verus! {

// ---- character classes -----------------------------------------------------

/// Whether a character outside ASCII has the Unicode `White_Space` property.
pub uninterp spec fn unicode_white(c: char) -> bool;

/// Whether a character outside ASCII is alphabetic or numeric in Unicode.
pub uninterp spec fn unicode_alnum(c: char) -> bool;

/// The Unicode lowercase of a text that is not all ASCII.
pub uninterp spec fn unicode_lower(s: Seq<char>) -> Seq<char>;

/// The text of a string as `{:?}` prints it.
pub uninterp spec fn debug_quoted(s: Seq<char>) -> Seq<char>;

/// An ASCII character.
pub open spec fn ascii(c: char) -> bool {
    (c as u32) < 0x80
}

/// A decimal digit.
pub open spec fn digit(c: char) -> bool {
    '0' <= c && c <= '9'
}

/// An ASCII character that is white space: tab, the line breaks, space.
pub open spec fn ascii_white(c: char) -> bool {
    (9 <= (c as u32) && (c as u32) <= 13) || c == ' '
}

/// An ASCII letter or digit.
pub open spec fn ascii_alnum(c: char) -> bool {
    digit(c) || ('a' <= c && c <= 'z') || ('A' <= c && c <= 'Z')
}

/// White space.
pub open spec fn white(c: char) -> bool {
    if ascii(c) {
        ascii_white(c)
    } else {
        unicode_white(c)
    }
}

/// A letter or a number.
pub open spec fn alnum(c: char) -> bool {
    if ascii(c) {
        ascii_alnum(c)
    } else {
        unicode_alnum(c)
    }
}

/// `A`..`Z` become `a`..`z`; every other character stays.
pub open spec fn ascii_lower(c: char) -> char {
    if 'A' <= c && c <= 'Z' {
        ((c as u8) + 32) as u8 as char
    } else {
        c
    }
}

/// Every character of `s` in ASCII lowercase.
pub open spec fn ascii_lowered(s: Seq<char>) -> Seq<char> {
    s.map_values(|c: char| ascii_lower(c))
}

/// All characters of `s` are ASCII.
pub open spec fn all_ascii(s: Seq<char>) -> bool {
    forall|i: int| 0 <= i < s.len() ==> ascii(#[trigger] s[i])
}

/// `s` in lowercase.
pub open spec fn lower(s: Seq<char>) -> Seq<char> {
    if all_ascii(s) {
        ascii_lowered(s)
    } else {
        unicode_lower(s)
    }
}

/// `char::is_whitespace`: the character has the Unicode `White_Space`
/// property. Within ASCII these are tab, line feed, vertical tab, form feed,
/// carriage return and space; beyond it the result is only named.
#[verifier::external_body]
pub(crate) fn is_white(c: char) -> (r: bool)
    ensures
        r == (if ascii(c) { ascii_white(c) } else { unicode_white(c) }),
{
    c.is_whitespace()
}

/// `char::is_alphanumeric`: the character is alphabetic or numeric in Unicode.
/// Within ASCII these are the letters and the digits; beyond it the result is
/// only named.
#[verifier::external_body]
pub(crate) fn is_alnum(c: char) -> (r: bool)
    ensures
        r == (if ascii(c) { ascii_alnum(c) } else { unicode_alnum(c) }),
{
    c.is_alphanumeric()
}

/// `str::to_lowercase`: the Unicode lowercase of the text. Of an all-ASCII
/// text it maps `A`..`Z` to `a`..`z`; of any other text the result is only
/// named.
#[verifier::external_body]
pub(crate) fn to_lower(s: &str) -> (r: String)
    ensures
        r@ == (if all_ascii(s@) { ascii_lowered(s@) } else { unicode_lower(s@) }),
{
    s.to_lowercase()
}

/// The `Debug` form of a string, as `format!` with `{:?}` gives it: the text in
/// double quotes with its escapes. The result is only named.
#[verifier::external_body]
pub(crate) fn debug_text(s: &str) -> (r: String)
    ensures
        r@ == debug_quoted(s@),
{
    format!("{s:?}")
}

/// `String::push` appends one character.
pub assume_specification[ String::push ](s: &mut String, c: char)
    ensures
        final(s)@ == old(s)@.push(c),
;

// ---- strings and vectors of characters -------------------------------------

/// The characters of `s`.
pub fn chars_of(s: &str) -> (r: Vec<char>)
    ensures
        r@ == s@,
{
    let mut out: Vec<char> = Vec::new();
    for c in it: s.chars()
        invariant
            it.seq() == s@,
            out@ == s@.take(it.index() as int),
    {
        out.push(c);
    }
    out
}

/// The string of the characters `a..b` of `s`.
pub fn string_of(s: &[char], a: usize, b: usize) -> (r: String)
    requires
        a <= b <= s@.len(),
    ensures
        r@ == s@.subrange(a as int, b as int),
{
    let mut out: String = String::new();
    let mut i: usize = a;
    while i < b
        invariant
            a <= i <= b <= s@.len(),
            out@ == s@.subrange(a as int, i as int),
        decreases b - i,
    {
        out.push(s[i]);
        i = i + 1;
    }
    out
}

/// Whether two strings hold the same characters.
pub fn same(a: &str, b: &str) -> (r: bool)
    ensures
        r == (a@ == b@),
{
    let x: Vec<char> = chars_of(a);
    let y: Vec<char> = chars_of(b);
    if x.len() != y.len() {
        return false;
    }
    let mut i: usize = 0;
    while i < x.len()
        invariant
            x@.len() == y@.len(),
            x@ == a@,
            y@ == b@,
            i <= x@.len(),
            forall|k: int| 0 <= k < i ==> x@[k] == y@[k],
        decreases x@.len() - i,
    {
        if x[i] != y[i] {
            return false;
        }
        i = i + 1;
    }
    assert(a@ =~= b@);
    true
}

/// `a` followed by `b`.
pub fn cat(a: &str, b: &str) -> (r: String)
    ensures
        r@ == a@ + b@,
{
    let mut out: String = a.to_string();
    out.append(b);
    out
}

/// The text of an optional string.
pub open spec fn opt_view(o: Option<String>) -> Option<Seq<char>> {
    match o {
        None => None,
        Some(s) => Some(s@),
    }
}

/// The text of an optional string slice.
pub open spec fn opt_str_view(o: Option<&str>) -> Option<Seq<char>> {
    match o {
        None => None,
        Some(s) => Some(s@),
    }
}

/// A copy of an optional string.
pub fn dup_opt(o: &Option<String>) -> (r: Option<String>)
    ensures
        r == *o,
{
    match o {
        None => None,
        Some(s) => Some(s.clone()),
    }
}

/// A copy of a vector of strings.
pub fn dup_all(v: &Vec<String>) -> (r: Vec<String>)
    ensures
        r@ == v@,
{
    let mut out: Vec<String> = Vec::new();
    let mut i: usize = 0;
    while i < v.len()
        invariant
            i <= v@.len(),
            out@ == v@.take(i as int),
        decreases v@.len() - i,
    {
        out.push(v[i].clone());
        i = i + 1;
    }
    out
}

/// Whether an optional string holds what an optional string slice holds.
pub fn same_opt(a: &Option<String>, b: Option<&str>) -> (r: bool)
    ensures
        r == (opt_view(*a) == opt_str_view(b)),
{
    match (a, b) {
        (None, None) => true,
        (Some(x), Some(y)) => same(x, y),
        _ => false,
    }
}

/// The texts of a sequence of strings.
pub open spec fn views(v: Seq<String>) -> Seq<Seq<char>> {
    v.map_values(|x: String| x@)
}

// ---- trimming ---------------------------------------------------------------

/// `s` without its leading white space.
pub open spec fn trim_start_of(s: Seq<char>) -> Seq<char>
    decreases s.len(),
{
    if s.len() > 0 && white(s[0]) {
        trim_start_of(s.drop_first())
    } else {
        s
    }
}

/// `s` without its trailing white space.
pub open spec fn trim_end_of(s: Seq<char>) -> Seq<char>
    decreases s.len(),
{
    if s.len() > 0 && white(s.last()) {
        trim_end_of(s.drop_last())
    } else {
        s
    }
}

/// `s` without white space at either end.
pub open spec fn trimmed(s: Seq<char>) -> Seq<char> {
    trim_end_of(trim_start_of(s))
}

/// `s` without its leading characters `c`.
pub open spec fn strip_leading(s: Seq<char>, c: char) -> Seq<char>
    decreases s.len(),
{
    if s.len() > 0 && s[0] == c {
        strip_leading(s.drop_first(), c)
    } else {
        s
    }
}

/// `s` without its trailing characters `c`.
pub open spec fn strip_trailing(s: Seq<char>, c: char) -> Seq<char>
    decreases s.len(),
{
    if s.len() > 0 && s.last() == c {
        strip_trailing(s.drop_last(), c)
    } else {
        s
    }
}

/// The index of the first character of `s[from..]` that is not white space.
fn skip_white(s: &[char], from: usize) -> (r: usize)
    requires
        from <= s@.len(),
    ensures
        from <= r <= s@.len(),
        s@.skip(r as int) == trim_start_of(s@.skip(from as int)),
        r < s@.len() ==> !white(s@[r as int]),
{
    let mut i: usize = from;
    while i < s.len() && is_white(s[i])
        invariant
            from <= i <= s@.len(),
            trim_start_of(s@.skip(i as int)) == trim_start_of(s@.skip(from as int)),
        ensures
            from <= i <= s@.len(),
            trim_start_of(s@.skip(i as int)) == trim_start_of(s@.skip(from as int)),
            i == s@.len() || !white(s@[i as int]),
        decreases s@.len() - i,
    {
        assert(s@.skip(i as int).drop_first() =~= s@.skip(i + 1));
        i = i + 1;
    }
    i
}

/// The end of `s[from..to]` without its trailing white space.
fn back_white(s: &[char], from: usize, to: usize) -> (r: usize)
    requires
        from <= to <= s@.len(),
    ensures
        from <= r <= to,
        s@.subrange(from as int, r as int) == trim_end_of(s@.subrange(from as int, to as int)),
{
    let mut j: usize = to;
    while j > from && is_white(s[j - 1])
        invariant
            from <= j <= to <= s@.len(),
            trim_end_of(s@.subrange(from as int, j as int)) == trim_end_of(
                s@.subrange(from as int, to as int),
            ),
        ensures
            from <= j <= to,
            trim_end_of(s@.subrange(from as int, j as int)) == trim_end_of(
                s@.subrange(from as int, to as int),
            ),
            j == from || !white(s@[j - 1]),
        decreases j,
    {
        assert(s@.subrange(from as int, j as int).drop_last() =~= s@.subrange(
            from as int,
            j - 1,
        ));
        j = j - 1;
    }
    j
}

/// `str::trim_start`.
pub fn trim_start(s: &str) -> (r: String)
    ensures
        r@ == trim_start_of(s@),
{
    let v: Vec<char> = chars_of(s);
    let i: usize = skip_white(v.as_slice(), 0);
    assert(v@.skip(0) =~= v@);
    assert(v@.subrange(i as int, v@.len() as int) =~= v@.skip(i as int));
    string_of(v.as_slice(), i, v.len())
}

/// `str::trim_end`.
pub fn trim_end(s: &str) -> (r: String)
    ensures
        r@ == trim_end_of(s@),
{
    let v: Vec<char> = chars_of(s);
    let j: usize = back_white(v.as_slice(), 0, v.len());
    assert(v@.subrange(0, v@.len() as int) =~= v@);
    string_of(v.as_slice(), 0, j)
}

/// `str::trim`.
pub fn trim(s: &str) -> (r: String)
    ensures
        r@ == trimmed(s@),
{
    let v: Vec<char> = chars_of(s);
    let i: usize = skip_white(v.as_slice(), 0);
    let j: usize = back_white(v.as_slice(), i, v.len());
    assert(v@.skip(0) =~= v@);
    assert(v@.subrange(i as int, v@.len() as int) =~= v@.skip(i as int));
    string_of(v.as_slice(), i, j)
}

/// `str::trim_start_matches` with one character.
pub fn trim_start_matches(s: &str, c: char) -> (r: String)
    ensures
        r@ == strip_leading(s@, c),
{
    let v: Vec<char> = chars_of(s);
    let mut i: usize = 0;
    assert(v@.skip(0) =~= v@);
    while i < v.len() && v[i] == c
        invariant
            i <= v@.len(),
            strip_leading(v@.skip(i as int), c) == strip_leading(v@, c),
        ensures
            i <= v@.len(),
            strip_leading(v@.skip(i as int), c) == strip_leading(v@, c),
            i == v@.len() || v@[i as int] != c,
        decreases v@.len() - i,
    {
        assert(v@.skip(i as int).drop_first() =~= v@.skip(i + 1));
        i = i + 1;
    }
    assert(v@.subrange(i as int, v@.len() as int) =~= v@.skip(i as int));
    string_of(v.as_slice(), i, v.len())
}

/// `str::trim_end_matches` with one character.
pub fn trim_end_matches(s: &str, c: char) -> (r: String)
    ensures
        r@ == strip_trailing(s@, c),
{
    let v: Vec<char> = chars_of(s);
    let mut j: usize = v.len();
    assert(v@.take(j as int) =~= v@);
    while j > 0 && v[j - 1] == c
        invariant
            j <= v@.len(),
            strip_trailing(v@.take(j as int), c) == strip_trailing(v@, c),
        ensures
            j <= v@.len(),
            strip_trailing(v@.take(j as int), c) == strip_trailing(v@, c),
            j == 0 || v@[j - 1] != c,
        decreases j,
    {
        assert(v@.take(j as int).drop_last() =~= v@.take(j - 1));
        j = j - 1;
    }
    assert(v@.subrange(0, j as int) =~= v@.take(j as int));
    string_of(v.as_slice(), 0, j)
}

/// Whether `s` is empty once trimmed.
pub fn is_blank(s: &str) -> (r: bool)
    ensures
        r == (trimmed(s@).len() == 0),
{
    let t: String = trim(s);
    t.as_str().is_empty()
}

// ---- searching --------------------------------------------------------------

/// The index of the first `c` in `s`, or the length of `s`.
pub open spec fn find_char(s: Seq<char>, c: char) -> int
    decreases s.len(),
{
    if s.len() == 0 || s[0] == c {
        0
    } else {
        1 + find_char(s.drop_first(), c)
    }
}

/// `find_char` is the least index that holds `c`.
pub proof fn lemma_find_char(s: Seq<char>, c: char)
    ensures
        0 <= find_char(s, c) <= s.len(),
        forall|i: int| 0 <= i < find_char(s, c) ==> s[i] != c,
        find_char(s, c) < s.len() ==> s[find_char(s, c)] == c,
    decreases s.len(),
{
    if s.len() > 0 && s[0] != c {
        let t = s.drop_first();
        lemma_find_char(t, c);
        assert forall|i: int| 0 <= i < find_char(s, c) implies s[i] != c by {
            if i > 0 {
                assert(t[i - 1] == s[i]);
            }
        }
    }
}

/// The first index with the two properties of `lemma_find_char` is `find_char`.
pub proof fn lemma_find_char_unique(s: Seq<char>, c: char, k: int)
    requires
        0 <= k <= s.len(),
        forall|i: int| 0 <= i < k ==> s[i] != c,
        k < s.len() ==> s[k] == c,
    ensures
        find_char(s, c) == k,
{
    lemma_find_char(s, c);
    let f = find_char(s, c);
    if f < k {
        assert(s[f] != c);
    }
    if k < f {
        assert(s[k] != c);
    }
}

/// Whether `s` begins with `p`.
pub open spec fn begins(s: Seq<char>, p: Seq<char>) -> bool {
    p.len() <= s.len() && s.take(p.len() as int) == p
}

/// The index of the first occurrence of `p` in `s`.
pub open spec fn find_text(s: Seq<char>, p: Seq<char>) -> Option<int>
    decreases s.len(),
{
    if begins(s, p) {
        Some(0int)
    } else if s.len() == 0 {
        None
    } else {
        match find_text(s.drop_first(), p) {
            None => None,
            Some(k) => Some(k + 1),
        }
    }
}

/// Whether `p` occurs in `s`.
pub open spec fn has_text(s: Seq<char>, p: Seq<char>) -> bool {
    find_text(s, p) is Some
}

/// A text that occurs at `k` is found.
pub proof fn lemma_found(s: Seq<char>, p: Seq<char>, k: int)
    requires
        0 <= k <= s.len(),
        begins(s.skip(k), p),
    ensures
        has_text(s, p),
    decreases k,
{
    if k == 0 {
        assert(s.skip(0) =~= s);
    } else if !begins(s, p) {
        assert(s.drop_first().skip(k - 1) =~= s.skip(k));
        lemma_found(s.drop_first(), p, k - 1);
    }
}

/// An occurrence that `find_text` reports lies within `s` and is one.
pub proof fn lemma_find_text(s: Seq<char>, p: Seq<char>)
    ensures
        find_text(s, p) matches Some(k) ==> 0 <= k && k + p.len() <= s.len() && s.subrange(
            k,
            k + p.len(),
        ) == p,
    decreases s.len(),
{
    if begins(s, p) {
        assert(s.subrange(0, p.len() as int) =~= s.take(p.len() as int));
    } else if s.len() > 0 {
        let t = s.drop_first();
        lemma_find_text(t, p);
        if let Some(k) = find_text(t, p) {
            assert(s.subrange(k + 1, k + 1 + p.len()) =~= t.subrange(k, k + p.len()));
        }
    }
}

/// Whether `s[at..]` begins with `p`.
fn begins_at(s: &[char], at: usize, p: &[char]) -> (r: bool)
    requires
        at <= s@.len(),
    ensures
        r == begins(s@.skip(at as int), p@),
{
    let n: usize = s.len();
    if p.len() > n - at {
        return false;
    }
    let mut i: usize = 0;
    while i < p.len()
        invariant
            at + p@.len() <= s@.len() == n,
            i <= p@.len(),
            forall|k: int| 0 <= k < i ==> s@[at + k] == p@[k],
        decreases p@.len() - i,
    {
        if s[at + i] != p[i] {
            assert(s@.skip(at as int).take(p@.len() as int)[i as int] != p@[i as int]);
            return false;
        }
        i = i + 1;
    }
    assert(s@.skip(at as int).take(p@.len() as int) =~= p@);
    true
}

/// The index of the first occurrence of `p` in `s[from..]`.
fn find_at(s: &[char], from: usize, p: &[char]) -> (r: Option<usize>)
    requires
        from <= s@.len(),
    ensures
        r is Some == find_text(s@.skip(from as int), p@) is Some,
        r matches Some(k) ==> {
            &&& from <= k && k + p@.len() <= s@.len()
            &&& find_text(s@.skip(from as int), p@) == Some(k - from)
        },
{
    let mut i: usize = from;
    let ghost all = s@.skip(from as int);
    loop
        invariant
            from <= i <= s@.len(),
            all == s@.skip(from as int),
            find_text(all, p@) is Some == find_text(s@.skip(i as int), p@) is Some,
            find_text(s@.skip(i as int), p@) matches Some(k) ==> find_text(all, p@) == Some(
                k + (i - from),
            ),
        decreases s@.len() - i,
    {
        if begins_at(s, i, p) {
            proof {
                lemma_find_text(s@.skip(i as int), p@);
            }
            return Some(i);
        }
        if i == s.len() {
            return None;
        }
        assert(s@.skip(i as int).drop_first() =~= s@.skip(i + 1));
        i = i + 1;
    }
}

/// `str::starts_with` with a string.
pub fn starts_with(s: &str, p: &str) -> (r: bool)
    ensures
        r == begins(s@, p@),
{
    let v: Vec<char> = chars_of(s);
    let w: Vec<char> = chars_of(p);
    assert(v@.skip(0) =~= v@);
    begins_at(v.as_slice(), 0, w.as_slice())
}

/// `str::contains` with a string.
pub fn contains(s: &str, p: &str) -> (r: bool)
    ensures
        r == has_text(s@, p@),
{
    let v: Vec<char> = chars_of(s);
    let w: Vec<char> = chars_of(p);
    assert(v@.skip(0) =~= v@);
    find_at(v.as_slice(), 0, w.as_slice()).is_some()
}

/// `str::contains` with one character.
pub fn contains_char(s: &str, c: char) -> (r: bool)
    ensures
        r == s@.contains(c),
{
    let v: Vec<char> = chars_of(s);
    let mut i: usize = 0;
    while i < v.len()
        invariant
            i <= v@.len(),
            v@ == s@,
            forall|k: int| 0 <= k < i ==> v@[k] != c,
        decreases v@.len() - i,
    {
        if v[i] == c {
            return true;
        }
        i = i + 1;
    }
    false
}

/// `str::strip_prefix` with a string.
pub fn strip_prefix(s: &str, p: &str) -> (r: Option<String>)
    ensures
        r is Some == begins(s@, p@),
        r matches Some(t) ==> t@ == s@.skip(p@.len() as int),
{
    let v: Vec<char> = chars_of(s);
    let w: Vec<char> = chars_of(p);
    assert(v@.skip(0) =~= v@);
    if begins_at(v.as_slice(), 0, w.as_slice()) {
        assert(v@.subrange(w@.len() as int, v@.len() as int) =~= v@.skip(w@.len() as int));
        Some(string_of(v.as_slice(), w.len(), v.len()))
    } else {
        None
    }
}

// ---- splitting --------------------------------------------------------------

/// The two sides of the first `c` in `s`.
pub open spec fn split_at_char(s: Seq<char>, c: char) -> Option<(Seq<char>, Seq<char>)> {
    let k = find_char(s, c);
    if k < s.len() {
        Some((s.take(k), s.skip(k + 1)))
    } else {
        None
    }
}

/// The two sides of the first `p` in `s`.
pub open spec fn split_at_text(s: Seq<char>, p: Seq<char>) -> Option<(Seq<char>, Seq<char>)> {
    match find_text(s, p) {
        None => None,
        Some(k) => Some((s.take(k), s.skip(k + p.len()))),
    }
}

/// The parts of `s` between the characters `c`; one more than there are `c`.
pub open spec fn parts(s: Seq<char>, c: char) -> Seq<Seq<char>>
    decreases s.len(),
{
    let k = find_char(s, c);
    if 0 <= k < s.len() {
        seq![s.take(k)] + parts(s.skip(k + 1), c)
    } else {
        seq![s]
    }
}

/// The index of the first `c` in `s[from..]`, or the length of `s`.
fn find_char_at(s: &[char], from: usize, c: char) -> (r: usize)
    requires
        from <= s@.len(),
    ensures
        from <= r <= s@.len(),
        find_char(s@.skip(from as int), c) == r - from,
        r < s@.len() ==> s@[r as int] == c,
{
    let mut i: usize = from;
    while i < s.len() && s[i] != c
        invariant
            from <= i <= s@.len(),
            forall|k: int| from <= k < i ==> s@[k] != c,
        ensures
            from <= i <= s@.len(),
            forall|k: int| from <= k < i ==> s@[k] != c,
            i == s@.len() || s@[i as int] == c,
        decreases s@.len() - i,
    {
        i = i + 1;
    }
    proof {
        lemma_find_char_unique(s@.skip(from as int), c, i - from);
    }
    i
}

/// `str::split_once` with one character.
pub fn split_once_char(s: &str, c: char) -> (r: Option<(String, String)>)
    ensures
        r is Some == split_at_char(s@, c) is Some,
        r matches Some(p) ==> split_at_char(s@, c) == Some((p.0@, p.1@)),
{
    let v: Vec<char> = chars_of(s);
    let k: usize = find_char_at(v.as_slice(), 0, c);
    assert(v@.skip(0) =~= v@);
    if k < v.len() {
        assert(v@.subrange(0, k as int) =~= v@.take(k as int));
        assert(v@.subrange(k + 1, v@.len() as int) =~= v@.skip(k + 1));
        Some((string_of(v.as_slice(), 0, k), string_of(v.as_slice(), k + 1, v.len())))
    } else {
        None
    }
}

/// `str::split_once` with a string.
pub fn split_once(s: &str, p: &str) -> (r: Option<(String, String)>)
    ensures
        r is Some == split_at_text(s@, p@) is Some,
        r matches Some(q) ==> split_at_text(s@, p@) == Some((q.0@, q.1@)),
{
    let v: Vec<char> = chars_of(s);
    let w: Vec<char> = chars_of(p);
    let n: usize = v.len();
    assert(v@.skip(0) =~= v@);
    match find_at(v.as_slice(), 0, w.as_slice()) {
        None => None,
        Some(k) => {
            let e: usize = k + w.len();
            assert(v@.subrange(0, k as int) =~= v@.take(k as int));
            assert(v@.subrange(e as int, v@.len() as int) =~= v@.skip(e as int));
            Some((string_of(v.as_slice(), 0, k), string_of(v.as_slice(), e, n)))
        },
    }
}

/// `str::split` with one character.
pub fn split_char(s: &str, c: char) -> (r: Vec<String>)
    ensures
        views(r@) == parts(s@, c),
{
    let v: Vec<char> = chars_of(s);
    let mut out: Vec<String> = Vec::new();
    let mut from: usize = 0;
    assert(v@.skip(0) =~= v@);
    assert(views(out@) + parts(v@, c) =~= parts(v@, c));
    loop
        invariant
            from <= v@.len(),
            v@ == s@,
            views(out@) + parts(v@.skip(from as int), c) == parts(s@, c),
        decreases v@.len() - from,
    {
        let k: usize = find_char_at(v.as_slice(), from, c);
        let ghost rest = v@.skip(from as int);
        let ghost before = out@;
        assert(v@.subrange(from as int, k as int) =~= rest.take(k - from));
        let piece: String = string_of(v.as_slice(), from, k);
        out.push(piece);
        assert(views(out@) =~= views(before).push(piece@));
        if k == v.len() {
            assert(rest.take(k - from) =~= rest);
            assert(views(out@) =~= views(before) + parts(rest, c));
            return out;
        }
        assert(rest.skip(k - from + 1) =~= v@.skip(k + 1));
        assert(views(out@) + parts(v@.skip(k + 1), c) =~= views(before) + parts(rest, c));
        from = k + 1;
    }
}

/// The words of `s`: its longest runs without white space.
pub open spec fn words(s: Seq<char>) -> Seq<Seq<char>>
    decreases s.len(),
    via words_decreases
{
    let t = trim_start_of(s);
    let k = word_len(t);
    if t.len() == 0 {
        Seq::<Seq<char>>::empty()
    } else {
        seq![t.take(k)] + words(t.skip(k))
    }
}

/// The number of characters of `s` before its first white space.
pub open spec fn word_len(s: Seq<char>) -> int
    decreases s.len(),
{
    if s.len() == 0 || white(s[0]) {
        0
    } else {
        1 + word_len(s.drop_first())
    }
}

proof fn lemma_word_len(s: Seq<char>)
    ensures
        0 <= word_len(s) <= s.len(),
        forall|i: int| 0 <= i < word_len(s) ==> !white(s[i]),
        word_len(s) < s.len() ==> white(s[word_len(s)]),
    decreases s.len(),
{
    if s.len() > 0 && !white(s[0]) {
        let t = s.drop_first();
        lemma_word_len(t);
        assert forall|i: int| 0 <= i < word_len(s) implies !white(s[i]) by {
            if i > 0 {
                assert(t[i - 1] == s[i]);
            }
        }
    }
}

proof fn lemma_trim_start(s: Seq<char>)
    ensures
        trim_start_of(s).len() <= s.len(),
        trim_start_of(s).len() > 0 ==> !white(trim_start_of(s)[0]),
    decreases s.len(),
{
    if s.len() > 0 && white(s[0]) {
        lemma_trim_start(s.drop_first());
    }
}

#[via_fn]
proof fn words_decreases(s: Seq<char>) {
    lemma_trim_start(s);
    lemma_word_len(trim_start_of(s));
}

/// `str::split_whitespace`.
pub fn split_words(s: &str) -> (r: Vec<String>)
    ensures
        views(r@) == words(s@),
{
    let v: Vec<char> = chars_of(s);
    let mut out: Vec<String> = Vec::new();
    let mut from: usize = 0;
    assert(v@.skip(0) =~= v@);
    assert(views(out@) + words(v@) =~= words(v@));
    loop
        invariant
            from <= v@.len(),
            v@ == s@,
            views(out@) + words(v@.skip(from as int)) == words(s@),
        decreases v@.len() - from,
    {
        let a: usize = skip_white(v.as_slice(), from);
        let ghost t = v@.skip(a as int);
        if a == v.len() {
            assert(t.len() == 0);
            assert(words(v@.skip(from as int)) =~= Seq::<Seq<char>>::empty());
            assert(views(out@) =~= words(s@));
            return out;
        }
        let mut b: usize = a;
        while b < v.len() && !is_white(v[b])
            invariant
                a <= b <= v@.len(),
                forall|i: int| a <= i < b ==> !white(v@[i]),
            ensures
                a <= b <= v@.len(),
                forall|i: int| a <= i < b ==> !white(v@[i]),
                b == v@.len() || white(v@[b as int]),
            decreases v@.len() - b,
        {
            b = b + 1;
        }
        proof {
            lemma_word_len(t);
            let k = word_len(t);
            if k < b - a {
                assert(t[k] == v@[a + k]);
            }
            if b - a < k {
                assert(t[b - a] == v@[b as int]);
            }
            assert(k == b - a);
            assert(t[0] == v@[a as int]);
        }
        let ghost before = out@;
        let piece: String = string_of(v.as_slice(), a, b);
        assert(piece@ =~= t.take(b - a));
        out.push(piece);
        assert(views(out@) =~= views(before).push(piece@));
        assert(t.skip(b - a) =~= v@.skip(b as int));
        assert(views(out@) + words(v@.skip(b as int)) =~= views(before) + words(
            v@.skip(from as int),
        ));
        from = b;
    }
}

/// `l` without one trailing carriage return.
pub open spec fn strip_return(l: Seq<char>) -> Seq<char> {
    if l.len() > 0 && l.last() == '\r' {
        l.drop_last()
    } else {
        l
    }
}

/// The lines of `s`. A line ends with a line feed, or with a carriage return
/// and a line feed; the last line may end without one.
pub open spec fn lines_of(s: Seq<char>) -> Seq<Seq<char>>
    decreases s.len(),
{
    let k = find_char(s, '\n');
    if s.len() == 0 {
        Seq::<Seq<char>>::empty()
    } else if 0 <= k < s.len() {
        seq![strip_return(s.take(k))] + lines_of(s.skip(k + 1))
    } else {
        seq![s]
    }
}

/// `str::lines`.
pub fn split_lines(s: &str) -> (r: Vec<String>)
    ensures
        views(r@) == lines_of(s@),
{
    let v: Vec<char> = chars_of(s);
    let mut out: Vec<String> = Vec::new();
    let mut from: usize = 0;
    assert(v@.skip(0) =~= v@);
    assert(views(out@) + lines_of(v@) =~= lines_of(v@));
    while from < v.len()
        invariant
            from <= v@.len(),
            v@ == s@,
            views(out@) + lines_of(v@.skip(from as int)) == lines_of(s@),
        decreases v@.len() - from,
    {
        let k: usize = find_char_at(v.as_slice(), from, '\n');
        let ghost rest = v@.skip(from as int);
        let ghost before = out@;
        if k == v.len() {
            let piece: String = string_of(v.as_slice(), from, k);
            assert(piece@ =~= rest);
            out.push(piece);
            assert(views(out@) =~= views(before).push(piece@));
            assert(views(out@) =~= views(before) + lines_of(rest));
            return out;
        }
        let e: usize = if k > from && v[k - 1] == '\r' {
            k - 1
        } else {
            k
        };
        let piece: String = string_of(v.as_slice(), from, e);
        assert(rest.take(k - from) =~= v@.subrange(from as int, k as int));
        assert(piece@ =~= strip_return(rest.take(k - from)));
        out.push(piece);
        assert(views(out@) =~= views(before).push(piece@));
        assert(rest.skip(k - from + 1) =~= v@.skip(k + 1));
        assert(views(out@) + lines_of(v@.skip(k + 1)) =~= views(before) + lines_of(rest));
        from = k + 1;
    }
    assert(v@.skip(from as int) =~= Seq::<char>::empty());
    assert(views(out@) =~= lines_of(s@));
    out
}

// ---- replacing and joining --------------------------------------------------

/// `s` with every occurrence of `p`, from the left and without overlap,
/// replaced by `w`.
pub open spec fn replaced(s: Seq<char>, p: Seq<char>, w: Seq<char>) -> Seq<char>
    recommends
        p.len() > 0,
    decreases s.len(),
{
    match find_text(s, p) {
        Some(k) if 0 <= k && p.len() > 0 && k + p.len() <= s.len() => s.take(k) + w + replaced(
            s.skip(k + p.len()),
            p,
            w,
        ),
        _ => s,
    }
}

/// `str::replace` of a pattern that is not empty.
pub fn replace(s: &str, p: &str, w: &str) -> (r: String)
    requires
        p@.len() > 0,
    ensures
        r@ == replaced(s@, p@, w@),
{
    let v: Vec<char> = chars_of(s);
    let pat: Vec<char> = chars_of(p);
    let mut out: String = String::new();
    let mut from: usize = 0;
    assert(v@.skip(0) =~= v@);
    assert(out@ + replaced(v@, p@, w@) =~= replaced(v@, p@, w@));
    loop
        invariant
            from <= v@.len(),
            v@ == s@,
            pat@ == p@,
            p@.len() > 0,
            out@ + replaced(v@.skip(from as int), p@, w@) == replaced(s@, p@, w@),
        decreases v@.len() - from,
    {
        let ghost rest = v@.skip(from as int);
        let ghost before = out@;
        let n: usize = v.len();
        match find_at(v.as_slice(), from, pat.as_slice()) {
            None => {
                let tail: String = string_of(v.as_slice(), from, n);
                assert(tail@ =~= rest);
                out.append(tail.as_str());
                return out;
            },
            Some(k) => {
                let head: String = string_of(v.as_slice(), from, k);
                assert(head@ =~= rest.take(k - from));
                out.append(head.as_str());
                out.append(w);
                assert(rest.skip(k - from + p@.len()) =~= v@.skip(k + p@.len()));
                assert(out@ + replaced(v@.skip(k + p@.len()), p@, w@) =~= before + replaced(
                    rest,
                    p@,
                    w@,
                ));
                from = k + pat.len();
            },
        }
    }
}

/// `s` with every character `a` replaced by `b`.
pub open spec fn with_char(s: Seq<char>, a: char, b: char) -> Seq<char> {
    s.map_values(|c: char| if c == a { b } else { c })
}

/// `str::replace` of one character by another.
pub fn replace_char(s: &str, a: char, b: char) -> (r: String)
    ensures
        r@ == with_char(s@, a, b),
{
    let v: Vec<char> = chars_of(s);
    let mut out: String = String::new();
    let mut i: usize = 0;
    while i < v.len()
        invariant
            i <= v@.len(),
            v@ == s@,
            out@ == with_char(s@.take(i as int), a, b),
        decreases v@.len() - i,
    {
        let c: char = v[i];
        out.push(if c == a { b } else { c });
        assert(with_char(s@.take(i + 1), a, b) =~= with_char(s@.take(i as int), a, b).push(
            if c == a { b } else { c },
        ));
        i = i + 1;
    }
    assert(s@.take(v@.len() as int) =~= s@);
    out
}

/// The texts of `v` with `sep` between each two.
pub open spec fn joined(v: Seq<Seq<char>>, sep: Seq<char>) -> Seq<char>
    decreases v.len(),
{
    if v.len() == 0 {
        Seq::<char>::empty()
    } else if v.len() == 1 {
        v[0]
    } else {
        joined(v.drop_last(), sep) + sep + v.last()
    }
}

/// `join` on strings.
pub fn join(v: &Vec<String>, sep: &str) -> (r: String)
    ensures
        r@ == joined(views(v@), sep@),
{
    let mut out: String = String::new();
    let mut i: usize = 0;
    while i < v.len()
        invariant
            i <= v@.len(),
            out@ == joined(views(v@).take(i as int), sep@),
        decreases v@.len() - i,
    {
        let ghost a = views(v@).take(i as int);
        let ghost b = views(v@).take(i + 1);
        assert(b.drop_last() =~= a);
        assert(b.last() == v@[i as int]@);
        if i > 0 {
            out.append(sep);
        }
        out.append(v[i].as_str());
        assert(out@ =~= joined(b, sep@));
        i = i + 1;
    }
    assert(views(v@).take(v@.len() as int) =~= views(v@));
    out
}

// ---- case -------------------------------------------------------------------

fn lower_char(c: char) -> (r: char)
    ensures
        r == ascii_lower(c),
{
    if 'A' <= c && c <= 'Z' {
        (c as u8 + 32) as char
    } else {
        c
    }
}

/// `str::to_ascii_lowercase`.
pub fn lowered(s: &str) -> (r: String)
    ensures
        r@ == ascii_lowered(s@),
{
    let v: Vec<char> = chars_of(s);
    let mut out: String = String::new();
    let mut i: usize = 0;
    while i < v.len()
        invariant
            i <= v@.len(),
            v@ == s@,
            out@ == ascii_lowered(s@.take(i as int)),
        decreases v@.len() - i,
    {
        out.push(lower_char(v[i]));
        assert(ascii_lowered(s@.take(i + 1)) =~= ascii_lowered(s@.take(i as int)).push(
            ascii_lower(s@[i as int]),
        ));
        i = i + 1;
    }
    assert(s@.take(v@.len() as int) =~= s@);
    out
}

/// `str::eq_ignore_ascii_case`.
pub fn same_ignoring_case(a: &str, b: &str) -> (r: bool)
    ensures
        r == (ascii_lowered(a@) == ascii_lowered(b@)),
{
    let x: String = lowered(a);
    let y: String = lowered(b);
    x == y
}

// ---- numbers ----------------------------------------------------------------

/// The number that a sequence of decimal digits denotes.
pub open spec fn digits_value(s: Seq<char>) -> nat
    decreases s.len(),
{
    if s.len() == 0 {
        0
    } else {
        10 * digits_value(s.drop_last()) + ((s.last() as u32) - ('0' as u32)) as nat
    }
}

/// Every character of `s` is a decimal digit.
pub open spec fn all_digits(s: Seq<char>) -> bool {
    forall|i: int| 0 <= i < s.len() ==> digit(#[trigger] s[i])
}

/// `s` without one leading plus sign.
pub open spec fn without_plus(s: Seq<char>) -> Seq<char> {
    if s.len() > 0 && s[0] == '+' {
        s.drop_first()
    } else {
        s
    }
}

/// The number that `s` denotes as an unsigned integer of at most `max`: an
/// optional plus sign, then one or more decimal digits.
pub open spec fn unsigned(s: Seq<char>, max: nat) -> Option<nat> {
    let d = without_plus(s);
    if d.len() > 0 && all_digits(d) && digits_value(d) <= max {
        Some(digits_value(d))
    } else {
        None
    }
}

proof fn lemma_digits_grow(s: Seq<char>, k: int)
    requires
        0 <= k <= s.len(),
    ensures
        digits_value(s.take(k)) <= digits_value(s),
    decreases s.len() - k,
{
    if k == s.len() {
        assert(s.take(k) =~= s);
    } else {
        let t = s.take(k + 1);
        assert(t.drop_last() =~= s.take(k));
        lemma_digits_grow(s, k + 1);
    }
}

/// Parses an unsigned integer as `FromStr` of `u32` (with `max` its greatest
/// value) and `u64` do.
pub fn parse_unsigned(s: &str, max: u64) -> (r: Option<u64>)
    ensures
        r is Some == unsigned(s@, max as nat) is Some,
        r matches Some(n) ==> unsigned(s@, max as nat) == Some(n as nat),
{
    let v: Vec<char> = chars_of(s);
    let from: usize = if v.len() > 0 && v[0] == '+' {
        1
    } else {
        0
    };
    let ghost d = without_plus(s@);
    assert(d =~= v@.skip(from as int));
    if from == v.len() {
        return None;
    }
    let mut n: u64 = 0;
    let mut i: usize = from;
    while i < v.len()
        invariant
            from <= i <= v@.len(),
            d == v@.skip(from as int),
            all_digits(d.take(i - from)),
            n == digits_value(d.take(i - from)),
            n <= max,
            d == without_plus(s@),
            d.len() > 0,
        decreases v@.len() - i,
    {
        let c: char = v[i];
        assert(c == d[i - from]);
        if !('0' <= c && c <= '9') {
            return None;
        }
        let x: u64 = (c as u32 - '0' as u32) as u64;
        let ghost t = d.take(i - from + 1);
        assert(t.drop_last() =~= d.take(i - from));
        assert(digits_value(t) == 10 * n + x);
        proof {
            lemma_digits_grow(d, i - from + 1);
        }
        if n > (u64::MAX - x) / 10 || n * 10 + x > max {
            return None;
        }
        n = n * 10 + x;
        i = i + 1;
    }
    assert(d.take(v@.len() - from) =~= d);
    Some(n)
}

/// The decimal digits of a number.
pub open spec fn decimal(n: nat) -> Seq<char>
    decreases n,
{
    if n < 10 {
        seq![(('0' as u32) + n) as u32 as char]
    } else {
        decimal(n / 10).push((('0' as u32) + n % 10) as u32 as char)
    }
}

/// The decimal text of a number.
pub fn decimal_text(n: u64) -> (r: String)
    ensures
        r@ == decimal(n as nat),
    decreases n,
{
    let last: char = (48 + (n % 10) as u8) as char;
    let mut out: String = if n < 10 {
        String::new()
    } else {
        decimal_text(n / 10)
    };
    out.push(last);
    assert(n < 10 ==> out@ =~= decimal(n as nat));
    out
}

// ---- escapes -------------------------------------------------------------------

/// The characters of file names: ASCII letters and digits, `-`, `_` and `.`.
pub open spec fn in_file_names(c: char) -> bool {
    ascii_alnum(c) || c == '-' || c == '_' || c == '.'
}

/// Whether a character stays as it is in front of `rest`. An underscore stays only where
/// no other follows, for two of them start an escape.
pub open spec fn stays(c: char, rest: Seq<char>) -> bool {
    in_file_names(c) && (c == '_' && rest.len() > 0 ==> in_file_names(rest[0]) && rest[0] != '_')
}

/// What stands for a character in front of `rest`: the character itself, or its number
/// between underscores.
pub open spec fn piece(c: char, rest: Seq<char>) -> Seq<char> {
    if stays(c, rest) {
        seq![c]
    } else {
        seq!['_', '_'] + decimal(c as nat) + seq!['_']
    }
}

/// A text of characters of file names from which `s` can be read back.
pub open spec fn escaped(s: Seq<char>) -> Seq<char>
    decreases s.len(),
{
    if s.len() == 0 {
        Seq::empty()
    } else {
        piece(s[0], s.drop_first()) + escaped(s.drop_first())
    }
}

proof fn lemma_code(c: char)
    ensures
        0 <= c as int <= 0x10ffff,
        c as nat == c as int,
{
}

fn is_in_file_names(c: char) -> (r: bool)
    ensures
        r == in_file_names(c),
{
    c == '-' || c == '_' || c == '.' || ('0' <= c && c <= '9') || ('a' <= c && c <= 'z') || ('A'
        <= c && c <= 'Z')
}

/// A text of characters of file names from which `s` can be read back.
pub fn escape(s: &str) -> (r: String)
    ensures
        r@ == escaped(s@),
{
    let v: Vec<char> = chars_of(s);
    let n: usize = v.len();
    let mut out: String = String::new();
    let mut i: usize = 0;
    assert(s@.skip(0) =~= s@);
    assert(out@ + escaped(s@.skip(0)) =~= escaped(s@));
    while i < n
        invariant
            v@ == s@,
            n == v@.len(),
            i <= n,
            out@ + escaped(s@.skip(i as int)) == escaped(s@),
        decreases n - i,
    {
        let c: char = v[i];
        let ghost before = out@;
        let ghost rest = s@.skip(i + 1);
        assert(s@.skip(i as int)[0] == c);
        assert(s@.skip(i as int).drop_first() =~= rest);
        let follows: bool = i + 1 < n && (!is_in_file_names(v[i + 1]) || v[i + 1] == '_');
        assert(i + 1 < n ==> rest[0] == s@[i + 1]);
        if is_in_file_names(c) && !(c == '_' && follows) {
            out.push(c);
            assert(out@ =~= before + piece(c, rest));
        } else {
            let n: u64 = c as u64;
            out.push('_');
            out.push('_');
            out.append(decimal_text(n).as_str());
            out.push('_');
            proof {
                lemma_code(c);
            }
            assert(!stays(c, rest));
            assert(out@ =~= before + piece(c, rest));
        }
        assert(before + (piece(c, rest) + escaped(rest)) =~= out@ + escaped(rest));
        i = i + 1;
    }
    assert(s@.skip(n as int) =~= Seq::<char>::empty());
    assert(out@ + Seq::<char>::empty() =~= out@);
    out
}

/// The decimal text of a number holds digits, at least one, and has its value.
pub proof fn lemma_decimal(n: nat)
    ensures
        decimal(n).len() > 0,
        all_digits(decimal(n)),
        digits_value(decimal(n)) == n,
    decreases n,
{
    let d = decimal(n);
    if n < 10 {
        assert(d.drop_last() =~= Seq::<char>::empty());
        assert(digits_value(d.drop_last()) == 0);
    } else {
        lemma_decimal(n / 10);
        assert(d.drop_last() =~= decimal(n / 10));
    }
}

/// Escapes hold characters of file names only.
pub proof fn lemma_escaped_kept(s: Seq<char>)
    ensures
        forall|i: int| 0 <= i < escaped(s).len() ==> in_file_names(#[trigger] escaped(s)[i]),
    decreases s.len(),
{
    if s.len() > 0 {
        let rest = s.drop_first();
        lemma_escaped_kept(rest);
        lemma_decimal(s[0] as nat);
        let p = piece(s[0], rest);
        let d = decimal(s[0] as nat);
        assert forall|i: int| 0 <= i < p.len() implies in_file_names(#[trigger] p[i]) by {
            if !stays(s[0], rest) && 2 <= i < 2 + d.len() {
                assert(p[i] == d[i - 2]);
                assert(digit(d[i - 2]));
            }
        }
        let e = escaped(s);
        assert forall|i: int| 0 <= i < e.len() implies in_file_names(#[trigger] e[i]) by {
            if i < p.len() {
                assert(e[i] == p[i]);
            } else {
                assert(e[i] == escaped(rest)[i - p.len()]);
            }
        }
    }
}

/// How an escape begins: with two underscores exactly where its first character does not
/// stay.
proof fn lemma_escaped_head(s: Seq<char>)
    requires
        s.len() > 0,
    ensures
        escaped(s).len() > 0,
        stays(s[0], s.drop_first()) ==> escaped(s)[0] == s[0] && !(escaped(s).len() > 1
            && escaped(s)[0] == '_' && escaped(s)[1] == '_'),
        !stays(s[0], s.drop_first()) ==> escaped(s).len() > 3 && escaped(s)[0] == '_'
            && escaped(s)[1] == '_',
{
    let rest = s.drop_first();
    lemma_decimal(s[0] as nat);
    if stays(s[0], rest) {
        if s[0] == '_' && rest.len() > 0 {
            assert(stays(rest[0], rest.drop_first()));
            assert(escaped(rest)[0] == rest[0]);
            assert(escaped(s)[1] == rest[0]);
        } else if rest.len() == 0 {
            assert(escaped(rest).len() == 0);
        }
    }
}

/// Different texts have different escapes.
pub proof fn lemma_escaped_injective(a: Seq<char>, b: Seq<char>)
    requires
        escaped(a) == escaped(b),
    ensures
        a == b,
    decreases a.len(),
{
    let e = escaped(a);
    if a.len() == 0 {
        if b.len() > 0 {
            lemma_escaped_head(b);
        }
        assert(a =~= b);
    } else {
        lemma_escaped_head(a);
        if b.len() > 0 {
            lemma_escaped_head(b);
        }
        assert(b.len() > 0);
        let x = a.drop_first();
        let y = b.drop_first();
        let p = piece(a[0], x);
        let q = piece(b[0], y);
        if stays(a[0], x) {
            assert(stays(b[0], y));
            assert(p.len() == 1 && q.len() == 1);
        } else {
            assert(!stays(b[0], y));
            let m = decimal(a[0] as nat);
            let n = decimal(b[0] as nat);
            lemma_code(a[0]);
            lemma_code(b[0]);
            lemma_decimal(a[0] as nat);
            lemma_decimal(b[0] as nat);
            let f = escaped(b);
            assert forall|i: int| 0 <= i < m.len() implies e[i + 2] == m[i] by {
                assert(p[i + 2] == m[i]);
            }
            assert forall|i: int| 0 <= i < n.len() implies f[i + 2] == n[i] by {
                assert(q[i + 2] == n[i]);
            }
            assert(e[m.len() as int + 2] == '_') by {
                assert(p[m.len() as int + 2] == '_');
            }
            assert(f[n.len() as int + 2] == '_') by {
                assert(q[n.len() as int + 2] == '_');
            }
            if m.len() < n.len() {
                assert(digit(n[m.len() as int]));
            } else if n.len() < m.len() {
                assert(digit(m[n.len() as int]));
            }
            assert(m =~= n) by {
                assert forall|i: int| 0 <= i < m.len() implies m[i] == n[i] by {
                    assert(e[i + 2] == f[i + 2]);
                }
            }
            assert(p.len() == q.len());
        }
        assert(a[0] == b[0]);
        assert(escaped(x) =~= e.skip(p.len() as int));
        assert(escaped(y) =~= e.skip(q.len() as int));
        lemma_escaped_injective(x, y);
        assert(a =~= seq![a[0]] + x);
        assert(b =~= seq![b[0]] + y);
    }
}

// ---- marks -------------------------------------------------------------------------

/// The characters that stay where others are marked.
#[derive(Debug, Clone, Copy, PartialEq, Eq, Structural)]
pub enum Kept {
    /// Letters and numbers, `-`, `_` and `.`.
    Safe,
    /// Letters and numbers, `-`, `_`, `.` and `:`.
    SafeAndColon,
}

/// Whether a character stays.
pub open spec fn keeps(k: Kept, c: char) -> bool {
    ||| alnum(c) || c == '-' || c == '_' || c == '.'
    ||| k == Kept::SafeAndColon && c == ':'
}

/// What stands for a character: itself, or its number between percent signs.
pub open spec fn mark(k: Kept, c: char) -> Seq<char> {
    if keeps(k, c) {
        seq![c]
    } else {
        seq!['%'] + decimal(c as nat) + seq!['%']
    }
}

/// A text in which only kept characters and percent signs stand, from which `s` can be
/// read back.
pub open spec fn marked(s: Seq<char>, k: Kept) -> Seq<char>
    decreases s.len(),
{
    if s.len() == 0 {
        Seq::empty()
    } else {
        mark(k, s[0]) + marked(s.drop_first(), k)
    }
}

fn is_kept(k: Kept, c: char) -> (r: bool)
    ensures
        r == keeps(k, c),
{
    is_alnum(c) || c == '-' || c == '_' || c == '.' || (k == Kept::SafeAndColon && c == ':')
}

/// A text in which only kept characters and percent signs stand, from which `s` can be
/// read back.
pub fn mark_out(s: &str, k: Kept) -> (r: String)
    ensures
        r@ == marked(s@, k),
{
    let v: Vec<char> = chars_of(s);
    let n: usize = v.len();
    let mut out: String = String::new();
    let mut i: usize = 0;
    assert(s@.skip(0) =~= s@);
    assert(out@ + marked(s@.skip(0), k) =~= marked(s@, k));
    while i < n
        invariant
            v@ == s@,
            n == v@.len(),
            i <= n,
            out@ + marked(s@.skip(i as int), k) == marked(s@, k),
        decreases n - i,
    {
        let c: char = v[i];
        let ghost before = out@;
        let ghost rest = s@.skip(i + 1);
        assert(s@.skip(i as int)[0] == c);
        assert(s@.skip(i as int).drop_first() =~= rest);
        if is_kept(k, c) {
            out.push(c);
        } else {
            let n: u64 = c as u64;
            out.push('%');
            out.append(decimal_text(n).as_str());
            out.push('%');
            proof {
                lemma_code(c);
            }
        }
        assert(out@ =~= before + mark(k, c));
        assert(before + (mark(k, c) + marked(rest, k)) =~= out@ + marked(rest, k));
        i = i + 1;
    }
    assert(s@.skip(n as int) =~= Seq::<char>::empty());
    assert(out@ + Seq::<char>::empty() =~= out@);
    out
}

/// Marked texts hold kept characters and percent signs only.
pub proof fn lemma_marked_kept(s: Seq<char>, k: Kept)
    ensures
        forall|i: int|
            0 <= i < marked(s, k).len() ==> keeps(k, #[trigger] marked(s, k)[i]) || marked(s, k)[i]
                == '%',
    decreases s.len(),
{
    if s.len() > 0 {
        let rest = s.drop_first();
        lemma_marked_kept(rest, k);
        lemma_decimal(s[0] as nat);
        let p = mark(k, s[0]);
        let d = decimal(s[0] as nat);
        let e = marked(s, k);
        assert forall|i: int| 0 <= i < e.len() implies keeps(k, #[trigger] e[i]) || e[i] == '%' by {
            if i < p.len() {
                assert(e[i] == p[i]);
                if !keeps(k, s[0]) && 1 <= i < 1 + d.len() {
                    assert(p[i] == d[i - 1]);
                    assert(digit(d[i - 1]));
                }
            } else {
                assert(e[i] == marked(rest, k)[i - p.len()]);
            }
        }
    }
}

/// How a marked text begins: with a percent sign and more exactly where its first character
/// does not stay.
pub proof fn lemma_marked_head(s: Seq<char>, k: Kept)
    requires
        s.len() > 0,
    ensures
        marked(s, k).len() > 0,
        keeps(k, s[0]) ==> marked(s, k)[0] == s[0] && s[0] != '%',
        !keeps(k, s[0]) ==> marked(s, k).len() > 2 && marked(s, k)[0] == '%',
{
    lemma_decimal(s[0] as nat);
}

/// Different texts are marked differently.
pub proof fn lemma_marked_injective(a: Seq<char>, b: Seq<char>, k: Kept)
    requires
        marked(a, k) == marked(b, k),
    ensures
        a == b,
    decreases a.len(),
{
    let e = marked(a, k);
    if a.len() == 0 {
        if b.len() > 0 {
            lemma_marked_head(b, k);
        }
        assert(a =~= b);
    } else {
        lemma_marked_head(a, k);
        if b.len() > 0 {
            lemma_marked_head(b, k);
        }
        assert(b.len() > 0);
        let x = a.drop_first();
        let y = b.drop_first();
        let p = mark(k, a[0]);
        let q = mark(k, b[0]);
        if keeps(k, a[0]) {
            assert(keeps(k, b[0]));
            assert(p.len() == 1 && q.len() == 1);
        } else {
            assert(!keeps(k, b[0]));
            let m = decimal(a[0] as nat);
            let n = decimal(b[0] as nat);
            lemma_code(a[0]);
            lemma_code(b[0]);
            lemma_decimal(a[0] as nat);
            lemma_decimal(b[0] as nat);
            let f = marked(b, k);
            assert forall|i: int| 0 <= i < m.len() implies e[i + 1] == m[i] by {
                assert(p[i + 1] == m[i]);
            }
            assert forall|i: int| 0 <= i < n.len() implies f[i + 1] == n[i] by {
                assert(q[i + 1] == n[i]);
            }
            assert(e[m.len() as int + 1] == '%') by {
                assert(p[m.len() as int + 1] == '%');
            }
            assert(f[n.len() as int + 1] == '%') by {
                assert(q[n.len() as int + 1] == '%');
            }
            if m.len() < n.len() {
                assert(digit(n[m.len() as int]));
            } else if n.len() < m.len() {
                assert(digit(m[n.len() as int]));
            }
            assert(m =~= n) by {
                assert forall|i: int| 0 <= i < m.len() implies m[i] == n[i] by {
                    assert(e[i + 1] == f[i + 1]);
                }
            }
            assert(p.len() == q.len());
        }
        assert(a[0] == b[0]);
        assert(marked(x, k) =~= e.skip(p.len() as int));
        assert(marked(y, k) =~= e.skip(q.len() as int));
        lemma_marked_injective(x, y, k);
        assert(a =~= seq![a[0]] + x);
        assert(b =~= seq![b[0]] + y);
    }
}

/// A text of kept characters stays as it is.
pub proof fn lemma_marked_same(s: Seq<char>, k: Kept)
    requires
        forall|i: int| 0 <= i < s.len() ==> keeps(k, #[trigger] s[i]),
    ensures
        marked(s, k) == s,
    decreases s.len(),
{
    if s.len() > 0 {
        let rest = s.drop_first();
        assert forall|i: int| 0 <= i < rest.len() implies keeps(k, #[trigger] rest[i]) by {
            assert(rest[i] == s[i + 1]);
        }
        lemma_marked_same(rest, k);
        assert(keeps(k, s[0]));
        assert(seq![s[0]] + rest =~= s);
    }
}

// ---- laws ------------------------------------------------------------------------------

/// The white space of ASCII is the space, the tab and the line breaks.
pub proof fn ascii_white_space_is_known(c: char)
    requires
        (c as u32) < 128,
    ensures
        white(c) <==> (c == ' ' || c == '\t' || c == '\n' || c == '\r' || c as u32 == 11 || c as u32
            == 12),
{
}

/// The letters and numbers of ASCII are `0` to `9`, `a` to `z` and `A` to `Z`.
pub proof fn ascii_letters_and_numbers_are_known(c: char)
    requires
        (c as u32) < 128,
    ensures
        alnum(c) <==> (48 <= c as u32 <= 57 || 65 <= c as u32 <= 90 || 97 <= c as u32 <= 122),
{
}

/// Lowercase changes the letters `A` to `Z` of an ASCII text by 32 and nothing else.
pub proof fn ascii_texts_are_lowered_by_letter(s: Seq<char>, i: int)
    requires
        forall|k: int| 0 <= k < s.len() ==> (#[trigger] s[k] as u32) < 128,
        0 <= i < s.len(),
    ensures
        lower(s).len() == s.len(),
        lower(s)[i] as u32 == (if 65 <= s[i] as u32 <= 90 {
            s[i] as u32 + 32
        } else {
            s[i] as int
        }),
        ascii_lowered(s) == lower(s),
{
    assert(all_ascii(s));
    lemma_letter_lowered(s[i]);
}

proof fn lemma_letter_lowered(c: char)
    requires
        (c as u32) < 128,
    ensures
        ascii_lower(c) as u32 == (if 65 <= c as u32 <= 90 {
            c as u32 + 32
        } else {
            c as int
        }),
{
    if 65 <= c as u32 <= 90 {
        let b = (c as u8 + 32) as u8;
        assert(c as u8 as int == c as int);
        assert(b as char as int == b as int);
    }
}

proof fn lemma_trim_start_is(s: Seq<char>, i: int)
    requires
        0 <= i <= s.len(),
        forall|k: int| 0 <= k < i ==> white(#[trigger] s[k]),
        i < s.len() ==> !white(s[i]),
    ensures
        trim_start_of(s) == s.skip(i),
    decreases i,
{
    if i == 0 {
        assert(s.skip(0) =~= s);
    } else {
        let t = s.drop_first();
        assert(white(s[0]));
        assert forall|k: int| 0 <= k < i - 1 implies white(#[trigger] t[k]) by {
            assert(t[k] == s[k + 1]);
        }
        lemma_trim_start_is(t, i - 1);
        assert(t.skip(i - 1) =~= s.skip(i));
    }
}

proof fn lemma_trim_end_is(s: Seq<char>, j: int)
    requires
        0 <= j <= s.len(),
        forall|k: int| j <= k < s.len() ==> white(#[trigger] s[k]),
        j > 0 ==> !white(s[j - 1]),
    ensures
        trim_end_of(s) == s.take(j),
    decreases s.len() - j,
{
    if j == s.len() {
        assert(s.take(j) =~= s);
    } else {
        let t = s.drop_last();
        assert(white(s[s.len() - 1]));
        lemma_trim_end_is(t, j);
        assert(t.take(j) =~= s.take(j));
    }
}

/// A text without white space at its ends is what is left of it with white space put around
/// it.
pub proof fn trimming_takes_the_white_space_off(a: Seq<char>, t: Seq<char>, b: Seq<char>)
    requires
        forall|k: int| 0 <= k < a.len() ==> white(#[trigger] a[k]),
        forall|k: int| 0 <= k < b.len() ==> white(#[trigger] b[k]),
        t.len() > 0 ==> !white(t[0]) && !white(t.last()),
    ensures
        trimmed(a + t + b) == t,
        trim_start_of(a + t) == t,
        trim_end_of(t + b) == t,
{
    let s = a + t + b;
    let u = t + b;
    assert forall|k: int| t.len() <= k < u.len() implies white(#[trigger] u[k]) by {
        assert(u[k] == b[k - t.len()]);
    }
    assert forall|k: int| 0 <= k < a.len() implies white(#[trigger] s[k]) by {
        assert(s[k] == a[k]);
    }
    assert(u.take(t.len() as int) =~= t);
    assert((a + t).skip(a.len() as int) =~= t);
    if t.len() > 0 {
        lemma_trim_start_is(s, a.len() as int);
        assert(s.skip(a.len() as int) =~= u);
        assert(u[t.len() - 1] == t.last());
        lemma_trim_end_is(u, t.len() as int);
        assert forall|k: int| 0 <= k < a.len() implies white(#[trigger] (a + t)[k]) by {
            assert((a + t)[k] == a[k]);
        }
        lemma_trim_start_is(a + t, a.len() as int);
    } else {
        assert forall|k: int| 0 <= k < s.len() implies white(#[trigger] s[k]) by {
            if k >= a.len() {
                assert(s[k] == b[k - a.len()]);
            }
        }
        lemma_trim_start_is(s, s.len() as int);
        assert(s.skip(s.len() as int) =~= t);
        lemma_trim_end_is(u, 0);
        assert(a + t =~= a);
        lemma_trim_start_is(a, a.len() as int);
    }
}

/// White space parts a text into words: the words of both sides are its words.
pub proof fn white_space_parts_words(a: Seq<char>, w: char, b: Seq<char>)
    requires
        white(w),
    ensures
        words(a + seq![w] + b) == words(a) + words(b),
    decreases a.len(),
{
    let s = a + seq![w] + b;
    if a.len() == 0 {
        assert(s.drop_first() =~= b);
        assert(trim_start_of(s) == trim_start_of(b));
        assert(words(a) =~= Seq::<Seq<char>>::empty());
        assert(words(s) =~= words(a) + words(b));
    } else {
        let a1 = a.drop_first();
        assert(s[0] == a[0]);
        assert(s.drop_first() =~= a1 + seq![w] + b);
        if white(a[0]) {
            white_space_parts_words(a1, w, b);
            assert(trim_start_of(s) == trim_start_of(s.drop_first()));
            assert(words(s) == words(s.drop_first()));
            assert(words(a) == words(a1));
        } else {
            let k = word_len(a);
            lemma_word_len(a);
            lemma_word_len(s);
            let n = word_len(s);
            assert(n == k) by {
                if n < k {
                    assert(s[n] == a[n]);
                }
                if k < n {
                    if k < a.len() {
                        assert(s[k] == a[k]);
                    } else {
                        assert(s[k] == w);
                    }
                }
            }
            let r = a.skip(k);
            assert(s.skip(k) =~= r + seq![w] + b);
            assert(s.take(k) =~= a.take(k));
            assert(k > 0);
            white_space_parts_words(r, w, b);
            assert(words(s) =~= seq![a.take(k)] + (words(r) + words(b)));
            assert(words(a) =~= seq![a.take(k)] + words(r));
        }
    }
}

/// A text without white space is one word, and an empty text is none.
pub proof fn solid_texts_are_words(s: Seq<char>)
    requires
        forall|k: int| 0 <= k < s.len() ==> !white(#[trigger] s[k]),
    ensures
        words(s) == (if s.len() > 0 {
            seq![s]
        } else {
            Seq::empty()
        }),
{
    if s.len() > 0 {
        assert(!white(s[0]));
        lemma_word_len(s);
        let k = word_len(s);
        assert(k == s.len());
        assert(s.take(k) =~= s);
        assert(s.skip(k).len() == 0);
        assert(words(s.skip(k)) =~= Seq::<Seq<char>>::empty());
        assert(words(s) =~= seq![s]);
    } else {
        assert(words(s) =~= Seq::<Seq<char>>::empty());
    }
}

/// A separator parts a text at its first occurrence, and a text without one is one part.
pub proof fn separators_part_texts(a: Seq<char>, c: char, b: Seq<char>)
    requires
        forall|k: int| 0 <= k < a.len() ==> #[trigger] a[k] != c,
    ensures
        parts(a + seq![c] + b, c) == seq![a] + parts(b, c),
        parts(a, c) == seq![a],
        split_at_char(a + seq![c] + b, c) == Some((a, b)),
        split_at_char(a, c) is None,
{
    let s = a + seq![c] + b;
    let k = a.len() as int;
    assert forall|i: int| 0 <= i < k implies s[i] != c by {
        assert(s[i] == a[i]);
    }
    lemma_find_char_unique(s, c, k);
    lemma_find_char_unique(a, c, k);
    assert(s.take(k) =~= a);
    assert(s.skip(k + 1) =~= b);
    assert(parts(s, c) =~= seq![a] + parts(b, c));
}

/// A line feed ends a line, with the carriage return before it if there is one; what follows
/// the last is a line unless it is empty.
pub proof fn line_feeds_end_lines(a: Seq<char>, b: Seq<char>)
    requires
        forall|k: int| 0 <= k < a.len() ==> #[trigger] a[k] != '\n',
    ensures
        a.len() == 0 || a.last() != '\r' ==> lines_of(a + seq!['\n'] + b) == seq![a] + lines_of(b),
        lines_of(a + seq!['\r', '\n'] + b) == seq![a] + lines_of(b),
        lines_of(a) == (if a.len() > 0 {
            seq![a]
        } else {
            Seq::empty()
        }),
{
    let s = a + seq!['\n'] + b;
    let k = a.len() as int;
    assert forall|i: int| 0 <= i < k implies s[i] != '\n' by {
        assert(s[i] == a[i]);
    }
    lemma_find_char_unique(s, '\n', k);
    lemma_find_char_unique(a, '\n', k);
    assert(s.take(k) =~= a);
    assert(s.skip(k + 1) =~= b);
    let t = a + seq!['\r', '\n'] + b;
    assert forall|i: int| 0 <= i < k + 1 implies t[i] != '\n' by {
        if i < k {
            assert(t[i] == a[i]);
        }
    }
    assert(t[k + 1] == '\n');
    lemma_find_char_unique(t, '\n', k + 1);
    assert(t.take(k + 1) =~= a.push('\r'));
    assert(a.push('\r').drop_last() =~= a);
    assert(t.skip(k + 2) =~= b);
    if a.len() == 0 {
        assert(lines_of(a) =~= Seq::<Seq<char>>::empty());
    }
}

/// The first occurrence of a text is found.
pub proof fn first_occurrences_are_found(s: Seq<char>, p: Seq<char>, k: int)
    requires
        0 <= k,
        k + p.len() <= s.len(),
        s.subrange(k, k + p.len()) == p,
        forall|i: int| 0 <= i < k ==> #[trigger] s.subrange(i, i + p.len()) != p,
    ensures
        find_text(s, p) == Some(k),
    decreases k,
{
    assert(s.subrange(0, p.len() as int) =~= s.take(p.len() as int));
    if k > 0 {
        let t = s.drop_first();
        assert(s.subrange(0, 0int + p.len()) != p);
        assert(!begins(s, p));
        assert(t.subrange(k - 1, k - 1 + p.len()) =~= s.subrange(k, k + p.len()));
        assert forall|i: int| 0 <= i < k - 1 implies #[trigger] t.subrange(i, i + p.len()) != p by {
            assert(t.subrange(i, i + p.len()) =~= s.subrange(i + 1, i + 1 + p.len()));
        }
        first_occurrences_are_found(t, p, k - 1);
    }
}

/// A text that occurs nowhere is not found.
pub proof fn missing_texts_are_not_found(s: Seq<char>, p: Seq<char>)
    requires
        forall|i: int| 0 <= i <= s.len() - p.len() ==> #[trigger] s.subrange(i, i + p.len()) != p,
    ensures
        find_text(s, p) is None,
        !has_text(s, p),
{
    lemma_find_text(s, p);
    if let Some(k) = find_text(s, p) {
        assert(s.subrange(k, k + p.len()) == p);
    }
}

/// A text is split at the first occurrence of a separator.
pub proof fn texts_are_split_at_the_first(a: Seq<char>, p: Seq<char>, b: Seq<char>)
    requires
        forall|i: int| 0 <= i < a.len() ==> #[trigger] (a + p + b).subrange(i, i + p.len()) != p,
    ensures
        split_at_text(a + p + b, p) == Some((a, b)),
        has_text(a + p + b, p),
{
    let s = a + p + b;
    let k = a.len() as int;
    assert(s.subrange(k, k + p.len()) =~= p);
    first_occurrences_are_found(s, p, k);
    assert(s.take(k) =~= a);
    assert(s.skip(k + p.len()) =~= b);
}

/// A replacement replaces the first occurrence and goes on behind it; a text without an
/// occurrence stays as it is. So every occurrence is replaced.
pub proof fn replacements_go_on(a: Seq<char>, p: Seq<char>, b: Seq<char>, w: Seq<char>)
    requires
        p.len() > 0,
        forall|i: int| 0 <= i < a.len() ==> #[trigger] (a + p + b).subrange(i, i + p.len()) != p,
    ensures
        replaced(a + p + b, p, w) == a + w + replaced(b, p, w),
        (forall|i: int| 0 <= i <= b.len() - p.len() ==> #[trigger] b.subrange(i, i + p.len()) != p)
            ==> replaced(b, p, w) == b,
{
    let s = a + p + b;
    let k = a.len() as int;
    assert(s.subrange(k, k + p.len()) =~= p);
    first_occurrences_are_found(s, p, k);
    assert(s.take(k) =~= a);
    assert(s.skip(k + p.len()) =~= b);
    if forall|i: int| 0 <= i <= b.len() - p.len() ==> #[trigger] b.subrange(i, i + p.len()) != p {
        missing_texts_are_not_found(b, p);
    }
}

/// A text begins with another exactly when it is that one with something behind it, and
/// holds it exactly when there is something around it.
pub proof fn texts_begin_and_hold(s: Seq<char>, p: Seq<char>)
    ensures
        begins(s, p) <==> exists|r: Seq<char>| s == #[trigger] (p + r),
        has_text(s, p) <==> exists|a: Seq<char>, b: Seq<char>| s == #[trigger] (a + p + b),
{
    if begins(s, p) {
        assert(s =~= p + s.skip(p.len() as int));
    }
    if exists|r: Seq<char>| s == #[trigger] (p + r) {
        let r = choose|r: Seq<char>| s == #[trigger] (p + r);
        assert(s.take(p.len() as int) =~= p);
    }
    lemma_find_text(s, p);
    if let Some(k) = find_text(s, p) {
        let a = s.take(k);
        let b = s.skip(k + p.len());
        assert(s =~= a + p + b) by {
            assert forall|i: int| k <= i < k + p.len() implies s[i] == p[i - k] by {
                assert(s.subrange(k, k + p.len())[i - k] == s[i]);
            }
        }
    }
    if exists|a: Seq<char>, b: Seq<char>| s == #[trigger] (a + p + b) {
        let (a, b) = choose|a: Seq<char>, b: Seq<char>| s == #[trigger] (a + p + b);
        let t = s.skip(a.len() as int);
        assert(t.take(p.len() as int) =~= p);
        lemma_found(s, p, a.len() as int);
    }
}

/// What is stripped from the front is a run of the character, and all of it.
pub proof fn leading_runs_are_stripped(s: Seq<char>, c: char, n: nat)
    requires
        s.len() > 0 ==> s[0] != c,
    ensures
        strip_leading(Seq::new(n, |i: int| c) + s, c) == s,
    decreases n,
{
    let t = Seq::new(n, |i: int| c) + s;
    if n == 0 {
        assert(t =~= s);
    } else {
        let m = (n - 1) as nat;
        assert(t.drop_first() =~= Seq::new(m, |i: int| c) + s);
        leading_runs_are_stripped(s, c, m);
        assert(t[0] == c);
    }
}

/// What is stripped from the end is a run of the character, and all of it.
pub proof fn trailing_runs_are_stripped(s: Seq<char>, c: char, n: nat)
    requires
        s.len() > 0 ==> s.last() != c,
    ensures
        strip_trailing(s + Seq::new(n, |i: int| c), c) == s,
    decreases n,
{
    let t = s + Seq::new(n, |i: int| c);
    if n == 0 {
        assert(t =~= s);
    } else {
        let m = (n - 1) as nat;
        assert(t.drop_last() =~= s + Seq::new(m, |i: int| c));
        trailing_runs_are_stripped(s, c, m);
        assert(t.last() == c);
    }
}

/// Texts are joined one after the other, with the separator between each two.
pub proof fn texts_are_joined_in_order(v: Seq<Seq<char>>, x: Seq<char>, sep: Seq<char>)
    ensures
        joined(Seq::empty(), sep) == Seq::<char>::empty(),
        joined(seq![x], sep) == x,
        v.len() > 0 ==> joined(v.push(x), sep) == joined(v, sep) + sep + x,
{
    assert(v.push(x).drop_last() =~= v);
}

/// A digit behind a number makes it ten times as large and adds the digit; and the decimal
/// text of a number is read back as the number.
pub proof fn numbers_are_decimal(s: Seq<char>, d: int, n: nat, max: nat)
    requires
        0 <= d <= 9,
        n <= max,
    ensures
        digits_value(Seq::empty()) == 0,
        digits_value(s.push((48 + d) as u8 as char)) == 10 * digits_value(s) + d,
        unsigned(decimal(n), max) == Some(n),
        n < 10 ==> decimal(n) == seq![(48 + n) as u8 as char],
        n >= 10 ==> decimal(n) == decimal(n / 10).push((48 + n % 10) as u8 as char),
{
    let c = (48 + d) as u8 as char;
    assert(c as u32 == 48 + d);
    assert(s.push(c).drop_last() =~= s);
    lemma_decimal(n);
    assert(decimal(n)[0] != '+') by {
        assert(digit(decimal(n)[0]));
    }
    assert((48 + n % 10) as u8 as char == (('0' as u32) + n % 10) as u32 as char);
}

/// A number is digits, with a plus sign in front or not, and no more than the bound.
pub proof fn numbers_are_digits(s: Seq<char>, max: nat)
    ensures
        unsigned(s, max) is Some ==> {
            &&& s.len() > 0
            &&& forall|i: int| 1 <= i < s.len() ==> '0' <= #[trigger] s[i] && s[i] <= '9'
            &&& s[0] == '+' || ('0' <= s[0] && s[0] <= '9')
            &&& unsigned(s, max)->Some_0 <= max
        },
        s.len() > 0 && (forall|i: int| 0 <= i < s.len() ==> '0' <= #[trigger] s[i] && s[i] <= '9')
            && digits_value(s) <= max ==> unsigned(s, max) == Some(digits_value(s)) && unsigned(
            seq!['+'] + s,
            max,
        ) == Some(digits_value(s)),
{
    let d = without_plus(s);
    if unsigned(s, max) is Some {
        assert forall|i: int| 1 <= i < s.len() implies '0' <= #[trigger] s[i] && s[i] <= '9' by {
            if s[0] == '+' {
                assert(digit(d[i - 1]));
            } else {
                assert(digit(d[i]));
            }
        }
        if s[0] != '+' {
            assert(digit(d[0]));
        }
    }
    if s.len() > 0 && (forall|i: int| 0 <= i < s.len() ==> '0' <= #[trigger] s[i] && s[i] <= '9') {
        assert('0' <= s[0]);
        assert((seq!['+'] + s).drop_first() =~= s);
        assert(all_digits(s)) by {
            assert forall|i: int| 0 <= i < s.len() implies digit(#[trigger] s[i]) by {
                assert('0' <= s[i] && s[i] <= '9');
            }
        }
    }
}

/// A text of characters of file names without two underscores in a row is its own escape.
pub proof fn lemma_escaped_same(s: Seq<char>)
    requires
        forall|i: int| 0 <= i < s.len() ==> in_file_names(#[trigger] s[i]),
        forall|i: int| 0 < i < s.len() ==> !(s[i - 1] == '_' && #[trigger] s[i] == '_'),
    ensures
        escaped(s) == s,
    decreases s.len(),
{
    if s.len() > 0 {
        let rest = s.drop_first();
        assert forall|i: int| 0 <= i < rest.len() implies in_file_names(#[trigger] rest[i]) by {
            assert(rest[i] == s[i + 1]);
        }
        assert forall|i: int| 0 < i < rest.len() implies !(rest[i - 1] == '_' && #[trigger] rest[i]
            == '_') by {
            assert(rest[i] == s[i + 1]);
        }
        lemma_escaped_same(rest);
        if rest.len() > 0 {
            assert(rest[0] == s[1]);
            assert(in_file_names(s[1]));
        }
        assert(in_file_names(s[0]));
        assert(seq![s[0]] + rest =~= s);
    }
}

/// The view of an optional text is that of the text, if there is one; and that of a list is
/// that of each of its texts.
pub proof fn texts_are_viewed_one_by_one(s: String, t: &str, v: Seq<String>, i: int)
    ensures
        opt_view(Some(s)) == Some(s@),
        opt_view(None) is None,
        opt_str_view(Some(t)) == Some(t@),
        opt_str_view(None) is None,
        views(v).len() == v.len(),
        0 <= i < v.len() ==> views(v)[i] == v[i]@,
{
}

/// What is left of a text without its white space has none at its ends, and the text is that
/// with white space around it.
pub proof fn trimmed_texts_have_solid_ends(s: Seq<char>)
    ensures
        trimmed(s).len() > 0 ==> !white(trimmed(s)[0]) && !white(trimmed(s).last()),
        exists|a: Seq<char>, b: Seq<char>|
            {
                &&& s == #[trigger] (a + trimmed(s) + b)
                &&& forall|k: int| 0 <= k < a.len() ==> white(#[trigger] a[k])
                &&& forall|k: int| 0 <= k < b.len() ==> white(#[trigger] b[k])
            },
{
    let i = lemma_white_front(s);
    lemma_trim_start_is(s, i);
    let u = s.skip(i);
    let j = lemma_white_back(u);
    lemma_trim_end_is(u, j);
    let a = s.take(i);
    let b = u.skip(j);
    assert(trimmed(s) == u.take(j));
    assert forall|k: int| 0 <= k < a.len() implies white(#[trigger] a[k]) by {
        assert(a[k] == s[k]);
    }
    assert forall|k: int| 0 <= k < b.len() implies white(#[trigger] b[k]) by {
        assert(b[k] == u[j + k]);
    }
    assert(s =~= a + trimmed(s) + b);
    if j > 0 {
        assert(u.take(j).last() == u[j - 1]);
        assert(u.take(j)[0] == u[0]);
        assert(u[0] == s[i]);
    }
}

/// How long the white space at the front is.
proof fn lemma_white_front(s: Seq<char>) -> (i: int)
    ensures
        0 <= i <= s.len(),
        forall|k: int| 0 <= k < i ==> white(#[trigger] s[k]),
        i < s.len() ==> !white(s[i]),
    decreases s.len(),
{
    if s.len() == 0 || !white(s[0]) {
        0
    } else {
        let t = s.drop_first();
        let i = lemma_white_front(t);
        assert forall|k: int| 0 <= k < i + 1 implies white(#[trigger] s[k]) by {
            if k > 0 {
                assert(s[k] == t[k - 1]);
            }
        }
        if i < t.len() {
            assert(t[i] == s[i + 1]);
        }
        i + 1
    }
}

/// Where the white space at the end begins.
proof fn lemma_white_back(s: Seq<char>) -> (j: int)
    ensures
        0 <= j <= s.len(),
        forall|k: int| j <= k < s.len() ==> white(#[trigger] s[k]),
        j > 0 ==> !white(s[j - 1]),
    decreases s.len(),
{
    if s.len() == 0 || !white(s.last()) {
        s.len() as int
    } else {
        let t = s.drop_last();
        let j = lemma_white_back(t);
        assert forall|k: int| j <= k < s.len() implies white(#[trigger] s[k]) by {
            if k < t.len() {
                assert(s[k] == t[k]);
            }
        }
        j
    }
}

/// The first word of a text is what stands between the white space at its front, if any, and
/// the next white space or the end.
pub proof fn first_words_stand_in_front(s: Seq<char>, w: Seq<char>)
    requires
        w.len() > 0,
        forall|k: int| 0 <= k < w.len() ==> !white(#[trigger] w[k]),
    ensures
        words(s).len() > 0 && words(s)[0] == w <==> exists|a: Seq<char>, b: Seq<char>|
            {
                &&& s == #[trigger] (a + w + b)
                &&& forall|k: int| 0 <= k < a.len() ==> white(#[trigger] a[k])
                &&& b.len() > 0 ==> white(b[0])
            },
{
    let i = lemma_white_front(s);
    lemma_trim_start_is(s, i);
    let t = s.skip(i);
    lemma_word_len(t);
    let k = word_len(t);
    if words(s).len() > 0 && words(s)[0] == w {
        assert(t.len() > 0);
        let a = s.take(i);
        let b = t.skip(k);
        assert(words(s)[0] == t.take(k));
        assert(s =~= a + w + b);
        assert forall|k: int| 0 <= k < a.len() implies white(#[trigger] a[k]) by {
            assert(a[k] == s[k]);
        }
    }
    if exists|a: Seq<char>, b: Seq<char>|
        {
            &&& s == #[trigger] (a + w + b)
            &&& forall|k: int| 0 <= k < a.len() ==> white(#[trigger] a[k])
            &&& b.len() > 0 ==> white(b[0])
        } {
        let (a, b) = choose|a: Seq<char>, b: Seq<char>|
            {
                &&& s == #[trigger] (a + w + b)
                &&& forall|k: int| 0 <= k < a.len() ==> white(#[trigger] a[k])
                &&& b.len() > 0 ==> white(b[0])
            };
        let n = a.len() as int;
        assert(s[n] == w[0]);
        if i < n {
            assert(s[i] == a[i]);
        }
        if n < i {
            assert(white(s[n]));
        }
        assert(i == n);
        assert(t =~= w + b);
        if k < w.len() {
            assert(t[k] == w[k]);
        }
        if w.len() < k {
            assert(t[w.len() as int] == b[0]);
        }
        assert(k == w.len());
        assert(t.take(k) =~= w);
    }
}

/// A text whose letters are those of an ASCII text in some case is ASCII.
pub proof fn lemma_ascii_by_letters(s: Seq<char>, t: Seq<char>)
    requires
        ascii_lowered(s) == t,
        all_ascii(t),
    ensures
        all_ascii(s),
        lower(s) == t,
{
    assert forall|i: int| 0 <= i < s.len() implies ascii(#[trigger] s[i]) by {
        assert(ascii(t[i]));
        assert(t[i] == ascii_lower(s[i]));
        lemma_ascii_by_letter(s[i]);
    }
}

proof fn lemma_ascii_by_letter(c: char)
    requires
        ascii(ascii_lower(c)),
    ensures
        ascii(c),
{
}

/// One character is put in the place of another, and every other character stays.
pub proof fn characters_are_replaced_one_by_one(s: Seq<char>, a: char, b: char, i: int)
    ensures
        with_char(s, a, b).len() == s.len(),
        0 <= i < s.len() && s[i] == a ==> with_char(s, a, b)[i] == b,
        0 <= i < s.len() && s[i] != a ==> with_char(s, a, b)[i] == s[i],
{
}

/// Marks stand for the characters that a name cannot hold, one by one: letters and numbers, `-`,
/// `_`, `.` and, where it is let in, `:` stay; any other is its code between percent signs.
pub proof fn characters_are_marked_one_by_one(c: char, s: Seq<char>, k: Kept)
    ensures
        marked(Seq::empty(), k) == Seq::<char>::empty(),
        marked(seq![c] + s, k) == (if alnum(c) || c == '-' || c == '_' || c == '.' || (k
            == Kept::SafeAndColon && c == ':') {
            seq![c]
        } else {
            seq!['%'] + decimal(c as nat) + seq!['%']
        }) + marked(s, k),
{
    assert((seq![c] + s).drop_first() =~= s);
}

/// Characters that a file name cannot hold are escaped one by one: ASCII letters and digits, `-`
/// and `.` stay, and so does a `_` unless what follows it begins with another `_` or is escaped;
/// any other is its code between underscores.
pub proof fn characters_are_escaped_one_by_one(c: char, s: Seq<char>)
    ensures
        escaped(Seq::empty()) == Seq::<char>::empty(),
        ({
            let plain = |x: char|
                ('0' <= x && x <= '9') || ('a' <= x && x <= 'z') || ('A' <= x && x <= 'Z') || x == '-'
                    || x == '.';
            let stays = plain(c) || (c == '_' && (s.len() == 0 || plain(s[0])));
            escaped(seq![c] + s) == (if stays {
                seq![c]
            } else {
                seq!['_', '_'] + decimal(c as nat) + seq!['_']
            }) + escaped(s)
        }),
{
    assert((seq![c] + s).drop_first() =~= s);
}

} // verus!
