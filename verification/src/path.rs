//! Paths as text: segments, parents and joins, by the rules of a path style.
//!
//! A path is an optional drive (`C:`, Windows only), an optional root (one
//! separator), and a body of segments between separators. Empty segments and
//! segments `.` in the body do not count; a `.` at the very start of a path
//! without a root stands for the current directory. On Windows a path that
//! starts with two separators is absolute, and what follows them is read as
//! segments like any other. Nothing here looks at a file system.

use vstd::prelude::*;
use crate::platform::PathStyle;
use crate::text::chars_of;

verus! {

/// Whether `c` separates segments.
pub open spec fn is_separator(style: PathStyle, c: char) -> bool {
    c == '/' || (style == PathStyle::Windows && c == '\\')
}

/// Whether `c` separates segments.
pub fn is_separator_char(style: PathStyle, c: char) -> (b: bool)
    ensures
        b == is_separator(style, c),
{
    c == '/' || (style == PathStyle::Windows && c == '\\')
}

/// The separator that a join writes.
pub open spec fn main_separator(style: PathStyle) -> char {
    if style == PathStyle::Windows {
        '\\'
    } else {
        '/'
    }
}

/// Whether `c` can name a drive: an ASCII letter.
pub open spec fn is_drive_letter(c: char) -> bool {
    let n = c as u32;
    (0x41 <= n <= 0x5a) || (0x61 <= n <= 0x7a)
}

/// Whether `c` can name a drive.
pub fn is_drive_letter_char(c: char) -> (b: bool)
    ensures
        b == is_drive_letter(c),
{
    let n: u32 = c as u32;
    (0x41 <= n && n <= 0x5a) || (0x61 <= n && n <= 0x7a)
}

/// The length of the drive at the start of `p`: 2 or 0.
pub open spec fn prefix_len(style: PathStyle, p: Seq<char>) -> int {
    if style == PathStyle::Windows && p.len() >= 2 && is_drive_letter(p[0]) && p[1] == ':' {
        2
    } else {
        0
    }
}

/// Whether a separator follows the drive, or starts the path.
pub open spec fn has_root(style: PathStyle, p: Seq<char>) -> bool {
    let k = prefix_len(style, p);
    k < p.len() && is_separator(style, p[k])
}

/// Whether `p`, which has no root, starts with the segment `.`.
pub open spec fn starts_in_current_dir(style: PathStyle, p: Seq<char>) -> bool {
    let k = prefix_len(style, p);
    &&& !has_root(style, p)
    &&& k < p.len()
    &&& p[k] == '.'
    &&& (k + 1 == p.len() || is_separator(style, p[k + 1]))
}

/// Where the body of `p` begins: behind the drive, the root and a leading `.`.
pub open spec fn head_len(style: PathStyle, p: Seq<char>) -> int {
    if has_root(style, p) || starts_in_current_dir(style, p) {
        prefix_len(style, p) + 1
    } else {
        prefix_len(style, p)
    }
}

/// Whether `p` names a place by itself, whatever the current directory is.
/// On Windows that takes a drive and a root, or two separators at the start.
pub open spec fn is_absolute(style: PathStyle, p: Seq<char>) -> bool {
    if style == PathStyle::Windows {
        ||| (prefix_len(style, p) == 2 && has_root(style, p))
        ||| (p.len() >= 2 && is_separator(style, p[0]) && is_separator(style, p[1]))
    } else {
        has_root(style, p)
    }
}

/// Whether the character before index `n` ends a part of the body that does
/// not count: a separator, or a segment `.`.
pub open spec fn ends_blank(style: PathStyle, p: Seq<char>, lo: int, n: int) -> bool {
    &&& 0 <= lo < n <= p.len()
    &&& (is_separator(style, p[n - 1]) || (p[n - 1] == '.' && (n - 1 == lo || is_separator(
        style,
        p[n - 2],
    ))))
}

/// The end of the last segment that counts in `p[lo..n]`, or `lo` if there is
/// none: `n` moved back over separators and segments `.`.
pub open spec fn body_end(style: PathStyle, p: Seq<char>, lo: int, n: int) -> int
    decreases n,
{
    if ends_blank(style, p, lo, n) {
        body_end(style, p, lo, n - 1)
    } else {
        n
    }
}

/// The start of the segment that ends at `n`: `n` moved back over
/// characters that are no separators, not further than `lo`.
pub open spec fn segment_start(style: PathStyle, p: Seq<char>, lo: int, n: int) -> int
    decreases n,
{
    if 0 <= lo < n <= p.len() && !is_separator(style, p[n - 1]) {
        segment_start(style, p, lo, n - 1)
    } else {
        n
    }
}

/// Where the last segment that counts ends, or the start of the body.
pub open spec fn last_segment_end(style: PathStyle, p: Seq<char>) -> int {
    body_end(style, p, head_len(style, p), p.len() as int)
}

/// Where the last segment that counts starts.
pub open spec fn last_segment_start(style: PathStyle, p: Seq<char>) -> int {
    segment_start(style, p, head_len(style, p), last_segment_end(style, p))
}

/// Whether the body of `p` has a segment that counts.
pub open spec fn has_segment(style: PathStyle, p: Seq<char>) -> bool {
    last_segment_end(style, p) > head_len(style, p)
}

/// The length of the parent of `p`, if `p` has one. With a last segment, the
/// parent is what stands before it, without the separators and segments `.`
/// that end it. A path that is only `.` (behind a drive or not) has the drive
/// as its parent. A root, a drive and the empty path have none.
pub open spec fn parent_len(style: PathStyle, p: Seq<char>) -> Option<int> {
    if has_segment(style, p) {
        Some(body_end(style, p, head_len(style, p), last_segment_start(style, p)))
    } else if starts_in_current_dir(style, p) {
        Some(prefix_len(style, p))
    } else {
        None
    }
}

/// The parent of `p`, if it has one.
pub open spec fn parent_of(style: PathStyle, p: Seq<char>) -> Option<Seq<char>> {
    match parent_len(style, p) {
        Some(k) => Some(p.subrange(0, k)),
        None => None,
    }
}

/// `p` without its last segment: its parent, or `p` itself where it has none.
pub open spec fn popped(style: PathStyle, p: Seq<char>) -> Seq<char> {
    match parent_len(style, p) {
        Some(k) => p.subrange(0, k),
        None => p,
    }
}

/// The last segment of `p`, unless it is `..` or there is none.
pub open spec fn file_name_of(style: PathStyle, p: Seq<char>) -> Option<Seq<char>> {
    let name = p.subrange(last_segment_start(style, p), last_segment_end(style, p));
    if has_segment(style, p) && name != seq!['.', '.'] {
        Some(name)
    } else {
        None
    }
}

/// Whether a join puts a separator behind `base`: not behind nothing, a
/// separator or a bare drive.
pub open spec fn needs_separator(style: PathStyle, base: Seq<char>) -> bool {
    &&& base.len() > 0
    &&& !is_separator(style, base.last())
    &&& !(prefix_len(style, base) == base.len())
}

/// `base` extended by `p`. An absolute `p`, or one with a drive, replaces
/// `base`. One with a root and no drive keeps the drive of `base`. Any other
/// is put behind `base`, with a separator between them where one is needed.
pub open spec fn joined(style: PathStyle, base: Seq<char>, p: Seq<char>) -> Seq<char> {
    if is_absolute(style, p) || prefix_len(style, p) > 0 {
        p
    } else if has_root(style, p) {
        base.subrange(0, prefix_len(style, base)) + p
    } else if needs_separator(style, base) {
        base.push(main_separator(style)) + p
    } else {
        base + p
    }
}

/// `body_end` moves back and not beyond `lo`.
pub proof fn lemma_body_end_bounds(style: PathStyle, p: Seq<char>, lo: int, n: int)
    requires
        0 <= lo <= n <= p.len(),
    ensures
        lo <= body_end(style, p, lo, n) <= n,
    decreases n,
{
    if ends_blank(style, p, lo, n) {
        lemma_body_end_bounds(style, p, lo, n - 1);
    }
}

/// `segment_start` moves back and not beyond `lo`.
pub proof fn lemma_segment_start_bounds(style: PathStyle, p: Seq<char>, lo: int, n: int)
    requires
        0 <= lo <= n <= p.len(),
    ensures
        lo <= segment_start(style, p, lo, n) <= n,
    decreases n,
{
    if lo < n && !is_separator(style, p[n - 1]) {
        lemma_segment_start_bounds(style, p, lo, n - 1);
    }
}

/// The head of a path lies within it, and so do its last segment and the
/// length of its parent.
pub proof fn lemma_path_bounds(style: PathStyle, p: Seq<char>)
    ensures
        0 <= prefix_len(style, p) <= head_len(style, p) <= p.len(),
        head_len(style, p) <= last_segment_start(style, p) <= last_segment_end(style, p)
            <= p.len(),
        parent_len(style, p) matches Some(k) ==> 0 <= k <= p.len(),
        has_segment(style, p) ==> parent_len(style, p).unwrap() <= last_segment_start(style, p)
            < last_segment_end(style, p),
{
    let h = head_len(style, p);
    lemma_body_end_bounds(style, p, h, p.len() as int);
    let e = last_segment_end(style, p);
    lemma_segment_start_bounds(style, p, h, e);
    let s = last_segment_start(style, p);
    lemma_body_end_bounds(style, p, h, s);
    if e > h {
        // the character before `e` belongs to a segment, so the segment is not empty
        assert(!ends_blank(style, p, h, e)) by {
            lemma_body_end_stops(style, p, h, p.len() as int);
        }
        assert(!is_separator(style, p[e - 1]));
        lemma_segment_start_bounds(style, p, h, e - 1);
    }
}

/// Where `body_end` stops above `lo`, the part before it does not end blank.
pub proof fn lemma_body_end_stops(style: PathStyle, p: Seq<char>, lo: int, n: int)
    requires
        0 <= lo <= n <= p.len(),
    ensures
        !ends_blank(style, p, lo, body_end(style, p, lo, n)),
    decreases n,
{
    if ends_blank(style, p, lo, n) {
        lemma_body_end_stops(style, p, lo, n - 1);
    }
}

/// `segment_start` passes no separator, and stops behind one or at `lo`.
pub proof fn lemma_segment_start_stops(style: PathStyle, p: Seq<char>, lo: int, n: int)
    requires
        0 <= lo <= n <= p.len(),
    ensures
        forall|i: int|
            segment_start(style, p, lo, n) <= i < n ==> !is_separator(style, #[trigger] p[i]),
        segment_start(style, p, lo, n) == lo || is_separator(
            style,
            p[segment_start(style, p, lo, n) - 1],
        ),
    decreases n,
{
    if lo < n && !is_separator(style, p[n - 1]) {
        lemma_segment_start_stops(style, p, lo, n - 1);
    }
}

/// The last segment of a path that has one is not empty and holds no
/// separator; before it stands a separator, or the head of the path. It is
/// not `.`, which does not count.
pub proof fn lemma_last_segment(style: PathStyle, p: Seq<char>)
    requires
        has_segment(style, p),
    ensures
        head_len(style, p) <= last_segment_start(style, p) < last_segment_end(style, p)
            <= p.len(),
        forall|i: int|
            last_segment_start(style, p) <= i < last_segment_end(style, p) ==> !is_separator(
                style,
                #[trigger] p[i],
            ),
        last_segment_start(style, p) == head_len(style, p) || is_separator(
            style,
            p[last_segment_start(style, p) - 1],
        ),
        p.subrange(last_segment_start(style, p), last_segment_end(style, p)) != seq!['.'],
{
    let h = head_len(style, p);
    let e = last_segment_end(style, p);
    let s = last_segment_start(style, p);
    lemma_path_bounds(style, p);
    lemma_segment_start_stops(style, p, h, e);
    lemma_body_end_stops(style, p, h, p.len() as int);
    let name = p.subrange(s, e);
    if name == seq!['.'] {
        assert(name.len() == 1);
        assert(name[0] == '.');
        assert(p[e - 1] == '.');
        assert(ends_blank(style, p, h, e));
    }
}

/// A parent is a proper start of its path: shorter, and equal to the path as
/// far as it goes.
pub proof fn lemma_parent_is_proper_prefix(style: PathStyle, p: Seq<char>)
    ensures
        parent_of(style, p) matches Some(dir) ==> dir.len() < p.len() && dir == p.subrange(
            0,
            dir.len() as int,
        ),
        popped(style, p).len() <= p.len(),
        popped(style, p) == p.subrange(0, popped(style, p).len() as int),
{
    lemma_path_bounds(style, p);
    assert(p.subrange(0, p.len() as int) =~= p);
}

/// `body_end` reads nothing behind `n`: two paths that agree before `n`
/// have the same one.
pub proof fn lemma_body_end_reads_prefix(
    style: PathStyle,
    p: Seq<char>,
    q: Seq<char>,
    lo: int,
    n: int,
)
    requires
        0 <= lo <= n,
        n <= p.len(),
        n <= q.len(),
        forall|i: int| 0 <= i < n ==> p[i] == q[i],
    ensures
        body_end(style, p, lo, n) == body_end(style, q, lo, n),
    decreases n,
{
    if ends_blank(style, p, lo, n) {
        lemma_body_end_reads_prefix(style, p, q, lo, n - 1);
    }
}

/// A run of characters that are no separators, with a separator or the start
/// of the body before it, is one segment.
pub proof fn lemma_segment_start_of_run(style: PathStyle, p: Seq<char>, lo: int, s: int, n: int)
    requires
        0 <= lo <= s <= n <= p.len(),
        forall|i: int| s <= i < n ==> !is_separator(style, #[trigger] p[i]),
        s == lo || is_separator(style, p[s - 1]),
    ensures
        segment_start(style, p, lo, n) == s,
    decreases n - s,
{
    if s < n {
        assert(!is_separator(style, p[n - 1]));
        lemma_segment_start_of_run(style, p, lo, s, n - 1);
    }
}

/// Whether `name` is one segment that counts: not empty, without a
/// separator, not `.`, and not the start of a drive.
pub open spec fn is_segment(style: PathStyle, name: Seq<char>) -> bool {
    &&& name.len() > 0
    &&& forall|i: int| 0 <= i < name.len() ==> !is_separator(style, #[trigger] name[i])
    &&& name != seq!['.']
    &&& prefix_len(style, name) == 0
}

/// Whether `dir` ends with its last segment, or is only a drive, a root or
/// empty: nothing stands at its end that does not count.
pub open spec fn is_trimmed(style: PathStyle, dir: Seq<char>) -> bool {
    last_segment_end(style, dir) == dir.len()
}

/// A segment put behind a directory is the last segment of the result, and
/// the directory is its parent: `pop` undoes `join`.
pub proof fn lemma_pop_undoes_join(style: PathStyle, dir: Seq<char>, name: Seq<char>)
    requires
        is_trimmed(style, dir),
        is_segment(style, name),
    ensures
        popped(style, joined(style, dir, name)) == dir,
        parent_of(style, joined(style, dir, name)) == Some(dir),
        name != seq!['.', '.'] ==> file_name_of(style, joined(style, dir, name)) == Some(name),
        is_trimmed(style, joined(style, dir, name)),
{
    let whole = joined(style, dir, name);
    let k = prefix_len(style, dir);
    let n = whole.len() as int;
    let start = n - name.len();
    lemma_path_bounds(style, dir);
    assert(!is_separator(style, name[0]));
    assert(!has_root(style, name));
    assert(!is_absolute(style, name));
    // the join puts the name behind the directory, with or without a separator
    if needs_separator(style, dir) {
        assert(whole =~= dir.push(main_separator(style)) + name);
        assert(start == dir.len() + 1);
        assert(is_separator(style, whole[start - 1]));
    } else {
        assert(whole =~= dir + name);
        assert(start == dir.len());
    }
    assert forall|i: int| 0 <= i < dir.len() implies whole[i] == dir[i] by {}
    assert forall|i: int| start <= i < n implies !is_separator(style, #[trigger] whole[i]) by {
        assert(whole[i] == name[i - start]);
    }
    // the head of the result is the head of the directory
    assert(prefix_len(style, whole) == k) by {
        if dir.len() == 0 {
            assert(whole =~= name);
        } else if dir.len() == 1 {
            if style == PathStyle::Windows && is_drive_letter(dir[0]) {
                assert(whole[1] == main_separator(style));
            }
        }
    }
    if dir.len() > k {
        assert(whole[k] == dir[k]);
        if dir.len() > k + 1 {
            assert(whole[k + 1] == dir[k + 1]);
        } else if !is_separator(style, dir[k]) {
            assert(needs_separator(style, dir));
            assert(is_separator(style, whole[k + 1]));
        }
    } else {
        assert(whole[k] == name[0]);
        if name.len() > 1 {
            assert(whole[k + 1] == name[1]);
        } else {
            assert(name =~= seq![name[0]]);
        }
    }
    assert(has_root(style, whole) == has_root(style, dir));
    assert(starts_in_current_dir(style, whole) == starts_in_current_dir(style, dir));
    let h = head_len(style, dir);
    assert(head_len(style, whole) == h);
    // the name is the last segment of the result
    assert(!ends_blank(style, whole, h, n)) by {
        assert(whole[n - 1] == name[name.len() - 1]);
        if name.len() == 1 {
            assert(name =~= seq![name[0]]);
        } else {
            assert(whole[n - 2] == name[name.len() - 2]);
        }
    }
    assert(last_segment_end(style, whole) == n);
    assert(start == h || is_separator(style, whole[start - 1])) by {
        if !needs_separator(style, dir) && dir.len() > 0 && !is_separator(style, dir.last()) {
            assert(k == dir.len());
        }
    }
    lemma_segment_start_of_run(style, whole, h, start, n);
    assert(last_segment_start(style, whole) == start);
    assert(whole.subrange(start, n) =~= name);
    // what stands before the name is the directory, and at most one separator
    lemma_body_end_reads_prefix(style, whole, dir, h, dir.len() as int);
    if needs_separator(style, dir) {
        assert(ends_blank(style, whole, h, start));
    }
    assert(body_end(style, whole, h, start) == dir.len());
    assert(whole.subrange(0, dir.len() as int) =~= dir);
}

fn drive_len(style: PathStyle, chars: &Vec<char>) -> (k: usize)
    ensures
        k == prefix_len(style, chars@),
        k <= chars.len(),
{
    if style == PathStyle::Windows && chars.len() >= 2 && is_drive_letter_char(chars[0])
        && chars[1] == ':' {
        2
    } else {
        0
    }
}

fn rooted(style: PathStyle, chars: &Vec<char>) -> (b: bool)
    ensures
        b == has_root(style, chars@),
{
    let k = drive_len(style, chars);
    k < chars.len() && is_separator_char(style, chars[k])
}

fn body_start(style: PathStyle, chars: &Vec<char>) -> (h: usize)
    ensures
        h == head_len(style, chars@),
        h <= chars.len(),
{
    let k = drive_len(style, chars);
    if k < chars.len() && (is_separator_char(style, chars[k]) || (chars[k] == '.' && (k + 1
        == chars.len() || is_separator_char(style, chars[k + 1])))) {
        k + 1
    } else {
        k
    }
}

fn scan_body_end(style: PathStyle, chars: &Vec<char>, lo: usize, n: usize) -> (e: usize)
    requires
        lo <= n <= chars.len(),
    ensures
        e == body_end(style, chars@, lo as int, n as int),
        lo <= e <= n,
{
    let mut e: usize = n;
    while e > lo && (is_separator_char(style, chars[e - 1]) || (chars[e - 1] == '.' && (e - 1
        == lo || is_separator_char(style, chars[e - 2]))))
        invariant
            lo <= e <= n <= chars.len(),
            body_end(style, chars@, lo as int, n as int) == body_end(
                style,
                chars@,
                lo as int,
                e as int,
            ),
        decreases e,
    {
        e = e - 1;
    }
    e
}

fn scan_segment_start(style: PathStyle, chars: &Vec<char>, lo: usize, n: usize) -> (s: usize)
    requires
        lo <= n <= chars.len(),
    ensures
        s == segment_start(style, chars@, lo as int, n as int),
        lo <= s <= n,
{
    let mut s: usize = n;
    while s > lo && !is_separator_char(style, chars[s - 1])
        invariant
            lo <= s <= n <= chars.len(),
            segment_start(style, chars@, lo as int, n as int) == segment_start(
                style,
                chars@,
                lo as int,
                s as int,
            ),
        decreases s,
    {
        s = s - 1;
    }
    s
}

fn parent_end(style: PathStyle, chars: &Vec<char>) -> (k: Option<usize>)
    ensures
        k is Some == parent_len(style, chars@) is Some,
        k matches Some(n) ==> n == parent_len(style, chars@).unwrap() && n <= chars.len(),
{
    let h = body_start(style, chars);
    let e = scan_body_end(style, chars, h, chars.len());
    if e > h {
        let s = scan_segment_start(style, chars, h, e);
        Some(scan_body_end(style, chars, h, s))
    } else {
        let k = drive_len(style, chars);
        if h > k && !is_separator_char(style, chars[k]) {
            Some(k)
        } else {
            None
        }
    }
}

/// Whether `path` names a place by itself, whatever the current directory is.
pub fn is_absolute_path(style: PathStyle, path: &str) -> (b: bool)
    ensures
        b == is_absolute(style, path@),
{
    let chars = chars_of(path);
    if style == PathStyle::Windows {
        (drive_len(style, &chars) == 2 && rooted(style, &chars)) || (chars.len() >= 2
            && is_separator_char(style, chars[0]) && is_separator_char(style, chars[1]))
    } else {
        rooted(style, &chars)
    }
}

/// The parent of `path`, if it has one.
pub fn parent(style: PathStyle, path: &str) -> (dir: Option<String>)
    ensures
        dir is Some == parent_of(style, path@) is Some,
        dir matches Some(d) ==> Some(d@) == parent_of(style, path@),
{
    let chars = chars_of(path);
    match parent_end(style, &chars) {
        Some(k) => Some(String::from_str(path.substring_char(0, k))),
        None => None,
    }
}

/// `path` without its last segment: its parent, or `path` itself where it
/// has none.
pub fn pop(style: PathStyle, path: &str) -> (rest: String)
    ensures
        rest@ == popped(style, path@),
{
    let chars = chars_of(path);
    match parent_end(style, &chars) {
        Some(k) => String::from_str(path.substring_char(0, k)),
        None => String::from_str(path),
    }
}

/// The last segment of `path`, unless it is `..` or there is none.
pub fn file_name(style: PathStyle, path: &str) -> (name: Option<String>)
    ensures
        name is Some == file_name_of(style, path@) is Some,
        name matches Some(n) ==> Some(n@) == file_name_of(style, path@),
{
    let chars = chars_of(path);
    let h = body_start(style, &chars);
    let e = scan_body_end(style, &chars, h, chars.len());
    if e > h {
        let s = scan_segment_start(style, &chars, h, e);
        let ghost name = chars@.subrange(s as int, e as int);
        if e - s == 2 && chars[s] == '.' && chars[s + 1] == '.' {
            assert(name =~= seq!['.', '.']);
            None
        } else {
            assert(name != seq!['.', '.']) by {
                if name == seq!['.', '.'] {
                    assert(name.len() == 2);
                    assert(name[0] == '.' && name[1] == '.');
                }
            }
            Some(String::from_str(path.substring_char(s, e)))
        }
    } else {
        None
    }
}

/// `base` extended by `path`: see [`joined`].
pub fn join(style: PathStyle, base: &str, path: &str) -> (whole: String)
    ensures
        whole@ == joined(style, base@, path@),
{
    let chars = chars_of(path);
    if is_absolute_path(style, path) || drive_len(style, &chars) > 0 {
        String::from_str(path)
    } else if rooted(style, &chars) {
        let base_chars = chars_of(base);
        let k = drive_len(style, &base_chars);
        let mut whole = String::from_str(base.substring_char(0, k));
        whole.append(path);
        whole
    } else {
        let base_chars = chars_of(base);
        let n = base_chars.len();
        let mut whole = String::from_str(base);
        if n > 0 && !is_separator_char(style, base_chars[n - 1]) && drive_len(style, &base_chars)
            != n {
            proof {
                reveal_strlit("\\");
                reveal_strlit("/");
                assert("\\"@ =~= seq!['\\']);
                assert("/"@ =~= seq!['/']);
                assert(base@.push(main_separator(style)) =~= base@ + seq![main_separator(style)]);
            }
            if style == PathStyle::Windows {
                whole.append("\\");
            } else {
                whole.append("/");
            }
        }
        whole.append(path);
        whole
    }
}

} // verus!
