use vstd::prelude::*;

verus! {

/// Whether `c` has the Unicode `White_Space` property, as `char::is_whitespace` tests.
pub open spec fn is_white(c: char) -> bool {
    let u = c as u32;
    ||| 9 <= u <= 13
    ||| u == 32
    ||| u == 0x85
    ||| u == 0xA0
    ||| u == 0x1680
    ||| 0x2000 <= u <= 0x200A
    ||| u == 0x2028
    ||| u == 0x2029
    ||| u == 0x202F
    ||| u == 0x205F
    ||| u == 0x3000
}

/// Whether `c` has the Unicode `White_Space` property.
pub fn char_is_whitespace(c: char) -> (r: bool)
    ensures
        r == is_white(c),
{
    let u = c as u32;
    (9 <= u && u <= 13) || u == 32 || u == 0x85 || u == 0xA0 || u == 0x1680 || (0x2000 <= u && u <= 0x200A)
        || u == 0x2028 || u == 0x2029 || u == 0x202F || u == 0x205F || u == 0x3000
}

/// The first index at or after `i` that does not hold whitespace.
pub open spec fn skip_ws(s: Seq<char>, i: int) -> int
    decreases s.len() - i,
{
    if 0 <= i < s.len() && is_white(s[i]) {
        skip_ws(s, i + 1)
    } else {
        i
    }
}

/// The first index at or after `i` that holds whitespace, or the end.
pub open spec fn token_end(s: Seq<char>, i: int) -> int
    decreases s.len() - i,
{
    if 0 <= i < s.len() && !is_white(s[i]) {
        token_end(s, i + 1)
    } else {
        i
    }
}

/// `s` with its leading whitespace removed.
pub open spec fn trim_start(s: Seq<char>) -> Seq<char> {
    s.subrange(skip_ws(s, 0), s.len() as int)
}

pub proof fn lemma_skip_ws_bounds(s: Seq<char>, i: int)
    requires
        0 <= i <= s.len(),
    ensures
        i <= skip_ws(s, i) <= s.len(),
        skip_ws(s, i) < s.len() ==> !is_white(s[skip_ws(s, i)]),
        forall|k: int| i <= k < skip_ws(s, i) ==> is_white(#[trigger] s[k]),
    decreases s.len() - i,
{
    if i < s.len() && is_white(s[i]) {
        lemma_skip_ws_bounds(s, i + 1);
    }
}

pub proof fn lemma_token_end_bounds(s: Seq<char>, i: int)
    requires
        0 <= i <= s.len(),
    ensures
        i <= token_end(s, i) <= s.len(),
        i < s.len() && !is_white(s[i]) ==> i < token_end(s, i),
    decreases s.len() - i,
{
    if i < s.len() && !is_white(s[i]) {
        lemma_token_end_bounds(s, i + 1);
    }
}

/// A run of non-whitespace from `i` to `j`, ended by whitespace or the end,
/// is one token.
pub proof fn lemma_token_end_run(s: Seq<char>, i: int, j: int)
    requires
        0 <= i <= j <= s.len(),
        forall|k: int| i <= k < j ==> !is_white(#[trigger] s[k]),
        j == s.len() || is_white(s[j]),
    ensures
        token_end(s, i) == j,
    decreases j - i,
{
    if i < j {
        lemma_token_end_run(s, i + 1, j);
    }
}

/// Texts of the same length with whitespace at the same places.
pub open spec fn same_shape(s1: Seq<char>, s2: Seq<char>) -> bool {
    s1.len() == s2.len() && forall|k: int| 0 <= k < s1.len() ==> is_white(#[trigger] s1[k]) == is_white(s2[k])
}

/// Letters that differ only in case are never whitespace, so texts equal up
/// to ASCII case have whitespace at the same places.
pub proof fn lemma_same_lower_same_shape(s1: Seq<char>, s2: Seq<char>)
    requires
        same_lower(s1, s2),
    ensures
        same_shape(s1, s2),
{
    assert forall|k: int| 0 <= k < s1.len() implies is_white(#[trigger] s1[k]) == is_white(s2[k]) by {
        assert(lower_code(s1[k]) == lower_code(s2[k]));
    }
}

/// A run of whitespace from `i` to `j`, ended by a non-whitespace character
/// or the end, is skipped to `j`.
pub proof fn lemma_skip_ws_run(s: Seq<char>, i: int, j: int)
    requires
        0 <= i <= j <= s.len(),
        forall|k: int| i <= k < j ==> is_white(#[trigger] s[k]),
        j == s.len() || !is_white(s[j]),
    ensures
        skip_ws(s, i) == j,
    decreases j - i,
{
    if i < j {
        lemma_skip_ws_run(s, i + 1, j);
    }
}

pub proof fn lemma_same_shape_bounds(s1: Seq<char>, s2: Seq<char>, i: int)
    requires
        same_shape(s1, s2),
    ensures
        skip_ws(s1, i) == skip_ws(s2, i),
        token_end(s1, i) == token_end(s2, i),
    decreases s1.len() - i,
{
    if 0 <= i < s1.len() {
        lemma_same_shape_bounds(s1, s2, i + 1);
    }
}

/// Relies on `uwl::Stream::take_while_char` with `char::is_whitespace`, then
/// `Stream::rest`: what is left once the leading whitespace is consumed.
#[verifier::external_body]
pub fn stream_skip_whitespace(s: &str) -> (r: &str)
    ensures
        r@ == trim_start(s@),
{
    let mut stream = uwl::Stream::new(s);
    stream.take_while_char(char::is_whitespace);
    stream.rest()
}

/// Relies on `FromIterator<char>` for `String`: the characters in order.
#[verifier::external_body]
pub fn string_from_chars(v: &[char]) -> (r: String)
    ensures
        r@ == v@,
{
    v.iter().collect()
}

/// The characters of `s`, in order.
pub fn chars_of(s: &str) -> (r: Vec<char>)
    ensures
        r@ == s@,
{
    let n = s.unicode_len();
    let mut r: Vec<char> = Vec::new();
    let mut i: usize = 0;
    while i < n
        invariant
            n == s@.len(),
            i <= n,
            r@ == s@.subrange(0, i as int),
        decreases n - i,
    {
        r.push(s.get_char(i));
        i = i + 1;
    }
    assert(r@ =~= s@);
    r
}

/// The code of `c` after ASCII lower-casing (as `char::to_ascii_lowercase`).
pub open spec fn lower_code(c: char) -> u32 {
    if 65 <= (c as u32) <= 90 {
        (c as u32 + 32) as u32
    } else {
        c as u32
    }
}

/// `a` lower-cased by ASCII rules is exactly `b`.
pub open spec fn lowers_to(a: Seq<char>, b: Seq<char>) -> bool {
    a.len() == b.len() && forall|k: int| 0 <= k < a.len() ==> lower_code(#[trigger] a[k]) == b[k] as u32
}

/// Whether `a` and `b` are equal up to ASCII case.
pub open spec fn same_lower(a: Seq<char>, b: Seq<char>) -> bool {
    a.len() == b.len() && forall|k: int| 0 <= k < a.len() ==> lower_code(#[trigger] a[k]) == lower_code(b[k])
}

/// The first index at or after `i` in `s` that does not hold whitespace.
pub fn skip_whitespace_from(s: &[char], i: usize) -> (r: usize)
    requires
        i <= s@.len(),
    ensures
        r as int == skip_ws(s@, i as int),
        i <= r <= s@.len(),
{
    let mut a: usize = i;
    while a < s.len() && char_is_whitespace(s[a])
        invariant
            i <= a <= s@.len(),
            skip_ws(s@, i as int) == skip_ws(s@, a as int),
        decreases s.len() - a,
    {
        a = a + 1;
    }
    a
}

/// The characters of `s` from index `start` on.
pub fn tail(s: &[char], start: usize) -> (r: Vec<char>)
    requires
        start <= s@.len(),
    ensures
        r@ == s@.subrange(start as int, s@.len() as int),
{
    let mut r: Vec<char> = Vec::new();
    let mut i: usize = start;
    while i < s.len()
        invariant
            start <= i <= s@.len(),
            r@ == s@.subrange(start as int, i as int),
        decreases s.len() - i,
    {
        r.push(s[i]);
        i = i + 1;
    }
    r
}

/// Whether `a`, lower-cased by ASCII rules, equals `b`.
pub fn lowercase_equals(a: &[char], b: &[char]) -> (r: bool)
    ensures
        r == lowers_to(a@, b@),
{
    if a.len() != b.len() {
        return false;
    }
    let mut i: usize = 0;
    while i < a.len()
        invariant
            a@.len() == b@.len(),
            i <= a@.len(),
            forall|k: int| 0 <= k < i ==> lower_code(#[trigger] a@[k]) == b@[k] as u32,
        decreases a.len() - i,
    {
        let c = a[i] as u32;
        let l: u32 = if 65 <= c && c <= 90 { c + 32 } else { c };
        if l != b[i] as u32 {
            return false;
        }
        i = i + 1;
    }
    true
}

/// Whether `a` and `b` are equal up to ASCII case.
pub fn equal_ignoring_case(a: &[char], b: &[char]) -> (r: bool)
    ensures
        r == same_lower(a@, b@),
{
    if a.len() != b.len() {
        return false;
    }
    let mut i: usize = 0;
    while i < a.len()
        invariant
            a@.len() == b@.len(),
            i <= a@.len(),
            forall|k: int| 0 <= k < i ==> lower_code(#[trigger] a@[k]) == lower_code(b@[k]),
        decreases a.len() - i,
    {
        let c = a[i] as u32;
        let d = b[i] as u32;
        let lc: u32 = if 65 <= c && c <= 90 { c + 32 } else { c };
        let ld: u32 = if 65 <= d && d <= 90 { d + 32 } else { d };
        if lc != ld {
            return false;
        }
        i = i + 1;
    }
    true
}

/// Whether `a` and `b` hold the same characters.
pub fn chars_equal(a: &[char], b: &[char]) -> (r: bool)
    ensures
        r == (a@ == b@),
{
    if a.len() != b.len() {
        return false;
    }
    let mut i: usize = 0;
    while i < a.len()
        invariant
            a@.len() == b@.len(),
            i <= a@.len(),
            forall|k: int| 0 <= k < i ==> a@[k] == b@[k],
        decreases a.len() - i,
    {
        if a[i] != b[i] {
            return false;
        }
        i = i + 1;
    }
    assert(a@ =~= b@);
    true
}

/// Whether `s` begins with `p`.
pub fn starts_with(s: &[char], p: &[char]) -> (r: bool)
    ensures
        r == (p@.len() <= s@.len() && s@.subrange(0, p@.len() as int) == p@),
{
    if p.len() > s.len() {
        return false;
    }
    let mut i: usize = 0;
    while i < p.len()
        invariant
            p@.len() <= s@.len(),
            i <= p@.len(),
            forall|k: int| 0 <= k < i ==> s@[k] == p@[k],
        decreases p.len() - i,
    {
        if s[i] != p[i] {
            assert(s@.subrange(0, p@.len() as int)[i as int] != p@[i as int]);
            return false;
        }
        i = i + 1;
    }
    assert(s@.subrange(0, p@.len() as int) =~= p@);
    true
}

} // verus!
