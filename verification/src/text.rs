//! Character-level helpers shared by the path and lookup logic.

use vstd::prelude::*;
use vstd::utf8::{decode_utf8, encode_utf8, valid_utf8};

verus! {

/// The characters of `s`, in order.
pub fn chars_of(s: &str) -> (chars: Vec<char>)
    ensures
        chars@ == s@,
{
    let mut chars: Vec<char> = Vec::new();
    for c in it: s.chars()
        invariant
            chars@ == it.seq().take(it.index() as int),
            it.seq() == s@,
    {
        chars.push(c);
    }
    chars
}

/// Whether `a` and `b` are the same text.
pub fn same_text(a: &str, b: &str) -> (same: bool)
    ensures
        same == (a@ == b@),
{
    let x = chars_of(a);
    let y = chars_of(b);
    if x.len() != y.len() {
        return false;
    }
    let n = x.len();
    let mut i: usize = 0;
    while i < n
        invariant
            i <= n == x.len() == y.len(),
            x@ == a@,
            y@ == b@,
            x@.take(i as int) == y@.take(i as int),
        decreases n - i,
    {
        if x[i] != y[i] {
            return false;
        }
        assert(x@.take(i + 1) == x@.take(i as int).push(x@[i as int]));
        assert(y@.take(i + 1) == y@.take(i as int).push(y@[i as int]));
        i = i + 1;
    }
    assert(x@.take(n as int) == x@);
    assert(y@.take(n as int) == y@);
    true
}

/// Whether `c` is white space: the characters that Unicode gives the
/// property `White_Space`.
pub open spec fn is_whitespace(c: char) -> bool {
    let n = c as u32;
    ||| 0x09 <= n <= 0x0d
    ||| n == 0x20
    ||| n == 0x85
    ||| n == 0xa0
    ||| n == 0x1680
    ||| 0x2000 <= n <= 0x200a
    ||| n == 0x2028
    ||| n == 0x2029
    ||| n == 0x202f
    ||| n == 0x205f
    ||| n == 0x3000
}

/// Whether `c` is white space.
pub fn is_whitespace_char(c: char) -> (b: bool)
    ensures
        b == is_whitespace(c),
{
    let n: u32 = c as u32;
    (0x09 <= n && n <= 0x0d) || n == 0x20 || n == 0x85 || n == 0xa0 || n == 0x1680 || (0x2000 <= n
        && n <= 0x200a) || n == 0x2028 || n == 0x2029 || n == 0x202f || n == 0x205f || n == 0x3000
}

/// The first index at or after `i` whose character is not white space, or
/// the length of `s` if there is none.
pub open spec fn skip_whitespace(s: Seq<char>, i: int) -> int
    decreases s.len() - i,
{
    if 0 <= i < s.len() && is_whitespace(s[i]) {
        skip_whitespace(s, i + 1)
    } else {
        i
    }
}

/// The least end `j'` between `lo` and `j` such that everything from `j'`
/// to `j` is white space.
pub open spec fn skip_whitespace_back(s: Seq<char>, lo: int, j: int) -> int
    decreases j,
{
    if lo < j <= s.len() && 0 < j && is_whitespace(s[j - 1]) {
        skip_whitespace_back(s, lo, j - 1)
    } else {
        j
    }
}

/// Where the text of `s` without its leading white space begins.
pub open spec fn trim_start_index(s: Seq<char>) -> int {
    skip_whitespace(s, 0)
}

/// Where the text of `s` without its trailing white space ends.
pub open spec fn trim_end_index(s: Seq<char>) -> int {
    skip_whitespace_back(s, trim_start_index(s), s.len() as int)
}

/// `s` without its leading and trailing white space.
pub open spec fn trimmed(s: Seq<char>) -> Seq<char> {
    s.subrange(trim_start_index(s), trim_end_index(s))
}

/// `skip_whitespace` stays inside the text and stops at a character that is
/// not white space; everything it passed is white space.
pub proof fn lemma_skip_whitespace(s: Seq<char>, i: int)
    requires
        0 <= i <= s.len(),
    ensures
        i <= skip_whitespace(s, i) <= s.len(),
        skip_whitespace(s, i) < s.len() ==> !is_whitespace(s[skip_whitespace(s, i)]),
        forall|k: int| i <= k < skip_whitespace(s, i) ==> is_whitespace(#[trigger] s[k]),
    decreases s.len() - i,
{
    if i < s.len() && is_whitespace(s[i]) {
        lemma_skip_whitespace(s, i + 1);
    }
}

/// `skip_whitespace_back` stays between `lo` and `j` and stops behind a
/// character that is not white space; everything it passed is white space.
pub proof fn lemma_skip_whitespace_back(s: Seq<char>, lo: int, j: int)
    requires
        0 <= lo <= j <= s.len(),
    ensures
        lo <= skip_whitespace_back(s, lo, j) <= j,
        lo < skip_whitespace_back(s, lo, j) ==> !is_whitespace(
            s[skip_whitespace_back(s, lo, j) - 1],
        ),
        forall|k: int|
            skip_whitespace_back(s, lo, j) <= k < j ==> is_whitespace(#[trigger] s[k]),
    decreases j,
{
    if lo < j && is_whitespace(s[j - 1]) {
        lemma_skip_whitespace_back(s, lo, j - 1);
    }
}

/// The trimmed text is a piece of `s` with white space, and nothing else, on
/// both sides of it, and it neither starts nor ends with white space.
pub proof fn lemma_trimmed(s: Seq<char>)
    ensures
        0 <= trim_start_index(s) <= trim_end_index(s) <= s.len(),
        forall|k: int| 0 <= k < trim_start_index(s) ==> is_whitespace(#[trigger] s[k]),
        forall|k: int| trim_end_index(s) <= k < s.len() ==> is_whitespace(#[trigger] s[k]),
        trimmed(s).len() > 0 ==> !is_whitespace(trimmed(s).first()) && !is_whitespace(
            trimmed(s).last(),
        ),
{
    lemma_skip_whitespace(s, 0);
    lemma_skip_whitespace_back(s, trim_start_index(s), s.len() as int);
}

/// Trimming what is trimmed changes nothing.
pub proof fn lemma_trimmed_twice(s: Seq<char>)
    ensures
        trimmed(trimmed(s)) == trimmed(s),
{
    let t = trimmed(s);
    lemma_trimmed(s);
    if t.len() > 0 {
        assert(skip_whitespace(t, 0) == 0);
        assert(skip_whitespace_back(t, 0, t.len() as int) == t.len());
    }
    assert(trimmed(t) =~= t);
}

/// The bounds of the trimmed text within `chars`.
pub fn trim_bounds(chars: &Vec<char>) -> (bounds: (usize, usize))
    ensures
        bounds.0 == trim_start_index(chars@),
        bounds.1 == trim_end_index(chars@),
        bounds.0 <= bounds.1 <= chars.len(),
{
    let n = chars.len();
    let mut start: usize = 0;
    while start < n && is_whitespace_char(chars[start])
        invariant
            start <= n == chars.len(),
            skip_whitespace(chars@, 0) == skip_whitespace(chars@, start as int),
        decreases n - start,
    {
        start = start + 1;
    }
    let mut end: usize = n;
    while start < end && is_whitespace_char(chars[end - 1])
        invariant
            start <= end <= n == chars.len(),
            skip_whitespace_back(chars@, start as int, n as int) == skip_whitespace_back(
                chars@,
                start as int,
                end as int,
            ),
        decreases end,
    {
        end = end - 1;
    }
    (start, end)
}

/// `s` without its leading and trailing white space.
pub fn trim(s: &str) -> (text: String)
    ensures
        text@ == trimmed(s@),
{
    let chars = chars_of(s);
    let (start, end) = trim_bounds(&chars);
    String::from_str(s.substring_char(start, end))
}

/// The first index at or after `i` that holds a line feed, or the length of
/// `s` if there is none.
pub open spec fn line_end(s: Seq<char>, i: int) -> int
    decreases s.len() - i,
{
    if 0 <= i < s.len() && s[i] != '\n' {
        line_end(s, i + 1)
    } else {
        i
    }
}

/// The first line of `s`, without its line ending: a line ends with a line
/// feed, before which one carriage return may stand, or with the text.
pub open spec fn first_line_of(s: Seq<char>) -> Seq<char> {
    let end = line_end(s, 0);
    if 0 < end < s.len() && s[end - 1] == '\r' {
        s.subrange(0, end - 1)
    } else {
        s.subrange(0, end)
    }
}

/// `line_end` stays inside the text, stops at a line feed, and passes none.
pub proof fn lemma_line_end(s: Seq<char>, i: int)
    requires
        0 <= i <= s.len(),
    ensures
        i <= line_end(s, i) <= s.len(),
        line_end(s, i) < s.len() ==> s[line_end(s, i)] == '\n',
        forall|k: int| i <= k < line_end(s, i) ==> #[trigger] s[k] != '\n',
    decreases s.len() - i,
{
    if i < s.len() && s[i] != '\n' {
        lemma_line_end(s, i + 1);
    }
}

/// The first line holds no line feed, and the text goes on with one behind
/// it, or ends there.
pub proof fn lemma_first_line(s: Seq<char>)
    ensures
        forall|k: int| 0 <= k < first_line_of(s).len() ==> #[trigger] first_line_of(s)[k] != '\n',
        first_line_of(s).len() <= line_end(s, 0) <= s.len(),
        line_end(s, 0) < s.len() ==> s[line_end(s, 0)] == '\n',
        line_end(s, 0) - first_line_of(s).len() <= 1,
{
    lemma_line_end(s, 0);
}

/// The first line of `s`, without its line ending.
pub fn first_line(s: &str) -> (line: String)
    ensures
        line@ == first_line_of(s@),
{
    let chars = chars_of(s);
    let n = chars.len();
    let mut end: usize = 0;
    while end < n && chars[end] != '\n'
        invariant
            end <= n == chars.len(),
            line_end(chars@, 0) == line_end(chars@, end as int),
        decreases n - end,
    {
        end = end + 1;
    }
    if 0 < end && end < n && chars[end - 1] == '\r' {
        String::from_str(s.substring_char(0, end - 1))
    } else {
        String::from_str(s.substring_char(0, end))
    }
}

/// How many line feeds stand in the first `i` characters of `s`.
pub open spec fn line_feeds(s: Seq<char>, i: int) -> nat
    decreases i,
{
    if i <= 0 || i > s.len() {
        0
    } else if s[i - 1] == '\n' {
        line_feeds(s, i - 1) + 1
    } else {
        line_feeds(s, i - 1)
    }
}

/// How many lines `s` has: one for each line feed, and one more for text
/// behind the last of them.
pub open spec fn line_count(s: Seq<char>) -> nat {
    if s.len() > 0 && s.last() != '\n' {
        line_feeds(s, s.len() as int) + 1
    } else {
        line_feeds(s, s.len() as int)
    }
}

/// No more line feeds than characters.
pub proof fn lemma_line_feeds_bound(s: Seq<char>, i: int)
    requires
        0 <= i <= s.len(),
    ensures
        line_feeds(s, i) <= i,
    decreases i,
{
    if i > 0 {
        lemma_line_feeds_bound(s, i - 1);
    }
}

/// How many lines `s` has.
pub fn count_lines(s: &str) -> (count: usize)
    ensures
        count == line_count(s@),
{
    let chars = chars_of(s);
    let n = chars.len();
    let mut feeds: usize = 0;
    let mut i: usize = 0;
    while i < n
        invariant
            i <= n == chars.len(),
            feeds == line_feeds(chars@, i as int),
            feeds <= i,
        decreases n - i,
    {
        if chars[i] == '\n' {
            feeds = feeds + 1;
        }
        i = i + 1;
    }
    if n > 0 && chars[n - 1] != '\n' {
        proof {
            lemma_line_feeds_bound(chars@, n - 1);
        }
        feeds + 1
    } else {
        feeds
    }
}

/// How the error prints with which `std::str::from_utf8` refuses `bytes`.
pub uninterp spec fn utf8_error_text(bytes: Seq<u8>) -> Seq<char>;

/// `std::str::from_utf8`: it succeeds on valid UTF-8 and on nothing else,
/// and the text it then gives has exactly the bytes it was given. Where it
/// fails, the error is handed back as it prints.
#[verifier::external_body]
fn from_utf8(bytes: &[u8]) -> (text: Result<String, String>)
    ensures
        text is Ok <==> valid_utf8(bytes@),
        text matches Ok(s) ==> encode_utf8(s@) == bytes@,
        text matches Err(reason) ==> reason@ == utf8_error_text(bytes@),
{
    match std::str::from_utf8(bytes) {
        Ok(s) => Ok(s.to_string()),
        Err(e) => Err(format!("{:?}", e)),
    }
}

/// What decoding `bytes` gives: the text they encode, or, where they are no
/// valid UTF-8, how the decoder's error prints.
pub open spec fn decoded(bytes: Seq<u8>) -> Result<Seq<char>, Seq<char>> {
    if valid_utf8(bytes) {
        Ok(decode_utf8(bytes))
    } else {
        Err(utf8_error_text(bytes))
    }
}

/// The text that `bytes` encode, or why they encode none.
pub fn decode(bytes: &[u8]) -> (text: Result<String, String>)
    ensures
        text is Ok == decoded(bytes@) is Ok,
        text matches Ok(s) ==> Ok::<Seq<char>, Seq<char>>(s@) == decoded(bytes@),
        text matches Err(reason) ==> Err::<Seq<char>, Seq<char>>(reason@) == decoded(bytes@),
{
    let text = from_utf8(bytes);
    proof {
        if let Ok(s) = &text {
            vstd::utf8::encode_utf8_decode_utf8(s@);
        }
    }
    text
}

/// The decimal digit for `d`, which is less than 10.
pub open spec fn digit_char(d: nat) -> char {
    if d == 0 {
        '0'
    } else if d == 1 {
        '1'
    } else if d == 2 {
        '2'
    } else if d == 3 {
        '3'
    } else if d == 4 {
        '4'
    } else if d == 5 {
        '5'
    } else if d == 6 {
        '6'
    } else if d == 7 {
        '7'
    } else if d == 8 {
        '8'
    } else {
        '9'
    }
}

/// `n` written in decimal digits, without leading zeros.
pub open spec fn decimal_of(n: nat) -> Seq<char>
    decreases n,
{
    if n < 10 {
        seq![digit_char(n)]
    } else {
        decimal_of(n / 10).push(digit_char(n % 10))
    }
}

fn digit(d: usize) -> (text: &'static str)
    requires
        d < 10,
    ensures
        text@ == seq![digit_char(d as nat)],
{
    proof {
        reveal_strlit("0");
        reveal_strlit("1");
        reveal_strlit("2");
        reveal_strlit("3");
        reveal_strlit("4");
        reveal_strlit("5");
        reveal_strlit("6");
        reveal_strlit("7");
        reveal_strlit("8");
        reveal_strlit("9");
    }
    let text = if d == 0 {
        "0"
    } else if d == 1 {
        "1"
    } else if d == 2 {
        "2"
    } else if d == 3 {
        "3"
    } else if d == 4 {
        "4"
    } else if d == 5 {
        "5"
    } else if d == 6 {
        "6"
    } else if d == 7 {
        "7"
    } else if d == 8 {
        "8"
    } else {
        "9"
    };
    assert(text@ =~= seq![digit_char(d as nat)]);
    text
}

/// `n` written in decimal digits.
pub fn decimal(n: usize) -> (text: String)
    ensures
        text@ == decimal_of(n as nat),
    decreases n,
{
    if n < 10 {
        String::from_str(digit(n))
    } else {
        let mut text = decimal(n / 10);
        text.append(digit(n % 10));
        assert(text@ =~= decimal_of(n as nat));
        text
    }
}

} // verus!
