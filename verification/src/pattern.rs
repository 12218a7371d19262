//! Search patterns: escaping a directory, and building the query that finds a
//! file anywhere below it.

use vstd::prelude::*;
use crate::errors::{invalid_pattern, ErrorView, JavaLocatorError};

verus! {

/// The error with which `glob` refuses a malformed pattern: the position
/// near which it is malformed, and a message.
#[verifier::external_type_specification]
pub struct ExPatternError(glob::PatternError);

/// Whether `c` has a special meaning in a pattern.
pub open spec fn is_meta(c: char) -> bool {
    c == '?' || c == '*' || c == '[' || c == ']'
}

/// `c` as a pattern that matches `c` and nothing else.
pub open spec fn escaped_char(c: char) -> Seq<char> {
    if is_meta(c) {
        seq!['[', c, ']']
    } else {
        seq![c]
    }
}

/// `s` as a pattern that matches `s` and nothing else: each character with a
/// special meaning stands in brackets of its own.
pub open spec fn escaped(s: Seq<char>) -> Seq<char>
    decreases s.len(),
{
    if s.len() == 0 {
        Seq::empty()
    } else {
        escaped(s.drop_last()) + escaped_char(s.last())
    }
}

/// `glob::Pattern::escape`: the result is `s` with each of `?`, `*`, `[`, `]`
/// put between `[` and `]`, and every other character as it is.
#[verifier::external_body]
fn escape(s: &str) -> (pattern: String)
    ensures
        pattern@ == escaped(s@),
{
    glob::Pattern::escape(s)
}

/// The error with which `glob::Pattern::new` refuses `pattern`, as its
/// position and its message, if it refuses it.
pub uninterp spec fn compile_fault(pattern: Seq<char>) -> Option<(usize, Seq<char>)>;

/// `glob::Pattern::new`, without the compiled pattern: whether `pattern`
/// compiles, and if not, the error.
#[verifier::external_body]
fn compile(pattern: &str) -> (compiled: Result<(), glob::PatternError>)
    ensures
        compiled is Ok <==> compile_fault(pattern@) is None,
        compiled matches Err(err) ==> compile_fault(pattern@) == Some((err.pos, err.msg@)),
{
    match glob::Pattern::new(pattern) {
        Ok(_) => Ok(()),
        Err(err) => Err(err),
    }
}

/// How a pattern error with this position and this message prints with `{:?}`.
pub uninterp spec fn fault_text(pos: usize, msg: Seq<char>) -> Seq<char>;

/// The `Debug` form of `glob::PatternError`, which is made of its two fields.
#[verifier::external_body]
fn print_fault(err: &glob::PatternError) -> (text: String)
    ensures
        text@ == fault_text(err.pos, err.msg@),
{
    format!("{:?}", err)
}

impl JavaLocatorError {
    /// The error of the locator for a pattern that `glob` refused: a
    /// `PatternError` whose message is the refusal as it prints.
    pub fn from_pattern_error(err: glob::PatternError) -> (error: JavaLocatorError)
        ensures
            error@ == invalid_pattern(fault_text(err.pos, err.msg@)),
    {
        JavaLocatorError::invalid_pattern(print_fault(&err))
    }
}

/// The query that finds `file_name` anywhere below `java_home`: the home
/// with its special characters escaped, then `/**/`, then the file name as it
/// is, so that its wildcards work.
pub open spec fn glob_query(java_home: Seq<char>, file_name: Seq<char>) -> Seq<char> {
    escaped(java_home) + "/**/"@ + file_name
}

/// The query that finds `file_name` anywhere below `java_home`.
pub fn build_query(java_home: &str, file_name: &str) -> (query: String)
    ensures
        query@ == glob_query(java_home@, file_name@),
{
    let mut query = escape(java_home);
    query.append("/**/");
    query.append(file_name);
    query
}

/// What is wrong with `query`, if `glob` cannot compile it.
pub open spec fn query_fault(query: Seq<char>) -> Option<ErrorView> {
    match compile_fault(query) {
        Some(fault) => Some(invalid_pattern(fault_text(fault.0, fault.1))),
        None => None,
    }
}

/// Makes sure that `glob` can compile `query`.
pub fn validate_query(query: &str) -> (valid: Result<(), JavaLocatorError>)
    ensures
        valid is Ok <==> query_fault(query@) is None,
        valid matches Err(err) ==> Some(err@) == query_fault(query@),
{
    match compile(query) {
        Ok(_) => Ok(()),
        Err(err) => Err(JavaLocatorError::from_pattern_error(err)),
    }
}

/// Escaping goes character by character: the escaped form of two texts in
/// a row is the escaped forms in a row.
pub proof fn lemma_escaped_concat(a: Seq<char>, b: Seq<char>)
    ensures
        escaped(a + b) == escaped(a) + escaped(b),
    decreases b.len(),
{
    if b.len() == 0 {
        assert(a + b =~= a);
        assert(escaped(a) + escaped(b) =~= escaped(a));
    } else {
        assert((a + b).drop_last() =~= a + b.drop_last());
        assert((a + b).last() == b.last());
        lemma_escaped_concat(a, b.drop_last());
        assert(escaped(a + b) =~= escaped(a) + escaped(b));
    }
}

/// A text without special characters is its own escaped form.
pub proof fn lemma_escaped_plain(s: Seq<char>)
    requires
        forall|i: int| 0 <= i < s.len() ==> !is_meta(#[trigger] s[i]),
    ensures
        escaped(s) == s,
    decreases s.len(),
{
    if s.len() > 0 {
        lemma_escaped_plain(s.drop_last());
        assert(escaped(s) =~= s);
    }
}

/// Whether `pattern` is made of plain characters and of groups `[c]` with one
/// special character `c`: the form that matches one text and nothing else.
pub open spec fn is_literal_pattern(pattern: Seq<char>) -> bool
    decreases pattern.len(),
{
    if pattern.len() == 0 {
        true
    } else if !is_meta(pattern.last()) {
        is_literal_pattern(pattern.drop_last())
    } else {
        &&& pattern.len() >= 3
        &&& pattern.last() == ']'
        &&& is_meta(pattern[pattern.len() - 2])
        &&& pattern[pattern.len() - 3] == '['
        &&& is_literal_pattern(pattern.subrange(0, pattern.len() - 3))
    }
}

/// The text that a literal pattern matches: its plain characters, and from
/// each group the character inside.
pub open spec fn literal_text(pattern: Seq<char>) -> Seq<char>
    decreases pattern.len(),
{
    if pattern.len() == 0 {
        Seq::empty()
    } else if !is_meta(pattern.last()) || pattern.len() < 3 {
        literal_text(pattern.drop_last()).push(pattern.last())
    } else {
        literal_text(pattern.subrange(0, pattern.len() - 3)).push(pattern[pattern.len() - 2])
    }
}

/// The escaped form of a text is a literal pattern, and the text it stands
/// for is that text: no character of it is left to act as a wildcard or to
/// open a class.
pub proof fn lemma_escaped_is_literal(s: Seq<char>)
    ensures
        is_literal_pattern(escaped(s)),
        literal_text(escaped(s)) == s,
    decreases s.len(),
{
    if s.len() > 0 {
        let rest = s.drop_last();
        let c = s.last();
        let e = escaped(s);
        lemma_escaped_is_literal(rest);
        if is_meta(c) {
            assert(e.len() == escaped(rest).len() + 3);
            assert(e.last() == ']');
            assert(e[e.len() - 2] == c);
            assert(e[e.len() - 3] == '[');
            assert(e.subrange(0, e.len() - 3) =~= escaped(rest));
        } else {
            assert(e.last() == c);
            assert(e.drop_last() =~= escaped(rest));
        }
        assert(literal_text(e) =~= s);
    }
}

/// A query is the escaped home, then `/**/`, then the file name, unchanged.
pub proof fn lemma_query_parts(java_home: Seq<char>, file_name: Seq<char>)
    ensures
        glob_query(java_home, file_name).len() == escaped(java_home).len() + 4 + file_name.len(),
        glob_query(java_home, file_name).subrange(0, escaped(java_home).len() as int) == escaped(
            java_home,
        ),
        glob_query(java_home, file_name).subrange(
            (escaped(java_home).len() + 4) as int,
            glob_query(java_home, file_name).len() as int,
        ) == file_name,
{
    reveal_strlit("/**/");
    let q = glob_query(java_home, file_name);
    assert(q.subrange(0, escaped(java_home).len() as int) =~= escaped(java_home));
    assert(q.subrange((escaped(java_home).len() + 4) as int, q.len() as int) =~= file_name);
}

} // verus!
