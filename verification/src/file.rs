//! Finding a file below the Java home: the first match of the traversal
//! counts, and the directory that holds it is the answer.

use vstd::prelude::*;
use crate::errors::{file_not_found, invalid_path, invalid_pattern, JavaLocatorError};
use crate::home::{
    java_home,
    lemma_empty_override_is_unset,
    lemma_home_asks_what_is_unknown,
    locate_java_home,
    with_java_home_var,
};
use crate::host::{steps_recorded, GlobAnswer, Host, Progress, ProgressView, Query, QueryView};
use crate::path::{pop, popped};
use crate::pattern::{build_query, glob_query, query_fault, validate_query};
use crate::platform::{get_jvm_dyn_lib_pattern, jvm_dyn_lib_pattern, PathStyle};
use crate::text::same_text;

verus! {

/// What the steps `entries[from..]` say of the traversal for `query`, of
/// which `seen` steps came before `from`. Steps of other traversals and
/// directories that could not be read are passed over. The first step that
/// is left decides: a match gives the directory that holds it; the end of
/// the traversal gives `FileNotFound`. Where no step is left, the next one is
/// asked for.
pub open spec fn scanned(
    style: PathStyle,
    entries: Seq<(String, GlobAnswer)>,
    query: Seq<char>,
    java_home: Seq<char>,
    file_name: Seq<char>,
    from: int,
    seen: nat,
) -> ProgressView
    decreases entries.len() - from,
{
    if from < 0 || from >= entries.len() {
        ProgressView::Need(QueryView::GlobEntry { pattern: query, index: seen })
    } else if entries[from].0@ != query {
        scanned(style, entries, query, java_home, file_name, from + 1, seen)
    } else {
        match entries[from].1 {
            GlobAnswer::Unreadable => scanned(
                style,
                entries,
                query,
                java_home,
                file_name,
                from + 1,
                seen + 1,
            ),
            GlobAnswer::Match(path) => ProgressView::Done(Ok(popped(style, path@))),
            GlobAnswer::Unrepresentable(shown) => ProgressView::Done(Err(invalid_path(shown@))),
            GlobAnswer::Refused(reason) => ProgressView::Done(Err(invalid_pattern(reason@))),
            GlobAnswer::End => ProgressView::Done(Err(file_not_found(file_name, java_home))),
        }
    }
}

/// What the traversal for `query` on `host` gives for `file_name` below
/// `java_home`.
pub open spec fn selected(host: Host, query: Seq<char>, java_home: Seq<char>, file_name: Seq<char>)
    -> ProgressView {
    scanned(host.platform.path_style(), host.glob_entries@, query, java_home, file_name, 0, 0)
}

/// Reads the traversal for `query` off `host`: see [`scanned`].
pub fn select_match(host: &Host, query: &str, java_home: &str, file_name: &str) -> (progress:
    Progress)
    ensures
        progress@ == selected(*host, query@, java_home@, file_name@),
{
    let style = host.platform.path_style();
    let n = host.glob_entries.len();
    let mut seen: usize = 0;
    let mut i: usize = 0;
    while i < n
        invariant
            i <= n == host.glob_entries@.len(),
            seen <= i,
            style == host.platform.path_style(),
            selected(*host, query@, java_home@, file_name@) == scanned(
                style,
                host.glob_entries@,
                query@,
                java_home@,
                file_name@,
                i as int,
                seen as nat,
            ),
        decreases n - i,
    {
        if same_text(host.glob_entries[i].0.as_str(), query) {
            match &host.glob_entries[i].1 {
                GlobAnswer::Unreadable => {
                    seen = seen + 1;
                },
                GlobAnswer::Match(path) => {
                    return Progress::Done(Ok(pop(style, path.as_str())));
                },
                GlobAnswer::Unrepresentable(shown) => {
                    return Progress::Done(Err(JavaLocatorError::invalid_path(shown.as_str())));
                },
                GlobAnswer::Refused(reason) => {
                    return Progress::Done(Err(JavaLocatorError::invalid_pattern(reason.clone())));
                },
                GlobAnswer::End => {
                    return Progress::Done(
                        Err(JavaLocatorError::file_not_found(file_name, java_home)),
                    );
                },
            }
        }
        i = i + 1;
    }
    Progress::Need(Query::GlobEntry { pattern: String::from_str(query), index: seen })
}

/// The directory that holds the first match of `file_name` below
/// `java_home` on `host`; `PatternError` where the query does not compile.
pub open spec fn found_below(host: Host, java_home: Seq<char>, file_name: Seq<char>) -> ProgressView {
    let query = glob_query(java_home, file_name);
    match query_fault(query) {
        Some(err) => ProgressView::Done(Err(err)),
        None => selected(host, query, java_home, file_name),
    }
}

/// Looks for `file_name` below `java_home`: see [`found_below`].
pub fn locate_file_below(host: &Host, java_home: &str, file_name: &str) -> (progress: Progress)
    ensures
        progress@ == found_below(*host, java_home@, file_name@),
{
    let query = build_query(java_home, file_name);
    match validate_query(query.as_str()) {
        Err(err) => Progress::Done(Err(err)),
        Ok(_) => select_match(host, query.as_str(), java_home, file_name),
    }
}

/// The directory that holds the first match of `file_name` below the Java
/// home of `host`.
pub open spec fn located_file(host: Host, file_name: Seq<char>) -> ProgressView {
    match java_home(host) {
        ProgressView::Done(Ok(home)) => found_below(host, home, file_name),
        other => other,
    }
}

/// Returns the path that contains the file with the provided name.
///
/// The name can hold wildcards.
pub fn locate_file(host: &Host, file_name: &str) -> (progress: Progress)
    ensures
        progress@ == located_file(*host, file_name@),
{
    match locate_java_home(host) {
        Progress::Done(Ok(home)) => locate_file_below(host, home.as_str(), file_name),
        other => other,
    }
}

/// Returns the path that contains the JVM's dynamic library: `jvm.dll` on
/// Windows, `libjvm.*` elsewhere.
pub fn locate_jvm_dyn_library(host: &Host) -> (progress: Progress)
    ensures
        progress@ == located_file(*host, jvm_dyn_lib_pattern(host.platform)),
{
    locate_file(host, get_jvm_dyn_lib_pattern(host.platform))
}

/// Whether nothing among `entries[from..to]` decides the traversal for
/// `query`: each step there belongs to another traversal, or is a directory
/// that could not be read.
pub open spec fn passed_over(entries: Seq<(String, GlobAnswer)>, query: Seq<char>, from: int, to: int)
    -> bool {
    forall|i: int|
        from <= i < to ==> (#[trigger] entries[i]).0@ != query || entries[i].1
            == GlobAnswer::Unreadable
}

/// The first step that is not passed over decides, whatever came before it
/// and however many directories could not be read.
pub proof fn lemma_scan_reaches(
    style: PathStyle,
    entries: Seq<(String, GlobAnswer)>,
    query: Seq<char>,
    java_home: Seq<char>,
    file_name: Seq<char>,
    from: int,
    seen: nat,
    at: int,
)
    requires
        0 <= from <= at < entries.len(),
        passed_over(entries, query, from, at),
        entries[at].0@ == query,
        entries[at].1 != GlobAnswer::Unreadable,
    ensures
        scanned(style, entries, query, java_home, file_name, from, seen) == scanned(
            style,
            entries,
            query,
            java_home,
            file_name,
            at,
            0,
        ),
    decreases at - from,
{
    if from < at {
        assert(entries[from].0@ != query || entries[from].1 == GlobAnswer::Unreadable);
        if entries[from].0@ != query {
            lemma_scan_reaches(style, entries, query, java_home, file_name, from + 1, seen, at);
        } else {
            lemma_scan_reaches(
                style,
                entries,
                query,
                java_home,
                file_name,
                from + 1,
                seen + 1,
                at,
            );
        }
    }
}

/// The first match of the traversal gives the directory that holds it:
/// directories that could not be read before it do not end the search.
pub proof fn lemma_first_match_counts(
    host: Host,
    query: Seq<char>,
    java_home: Seq<char>,
    file_name: Seq<char>,
    at: int,
)
    requires
        0 <= at < host.glob_entries@.len(),
        passed_over(host.glob_entries@, query, 0, at),
        host.glob_entries@[at].0@ == query,
        host.glob_entries@[at].1 is Match,
    ensures
        selected(host, query, java_home, file_name) == ProgressView::Done(
            Ok(popped(host.platform.path_style(), host.glob_entries@[at].1->Match_0@)),
        ),
{
    lemma_scan_reaches(
        host.platform.path_style(),
        host.glob_entries@,
        query,
        java_home,
        file_name,
        0,
        0,
        at,
    );
}

/// A traversal that ends before anything matched fails with `FileNotFound`,
/// which names the file and the home.
pub proof fn lemma_no_match_fails(
    host: Host,
    query: Seq<char>,
    java_home: Seq<char>,
    file_name: Seq<char>,
    at: int,
)
    requires
        0 <= at < host.glob_entries@.len(),
        passed_over(host.glob_entries@, query, 0, at),
        host.glob_entries@[at].0@ == query,
        host.glob_entries@[at].1 == GlobAnswer::End,
    ensures
        selected(host, query, java_home, file_name) == ProgressView::Done(
            Err(file_not_found(file_name, java_home)),
        ),
{
    lemma_scan_reaches(
        host.platform.path_style(),
        host.glob_entries@,
        query,
        java_home,
        file_name,
        0,
        0,
        at,
    );
}

/// A search fails with each error of the search for the home, and asks each
/// question of it: nothing is looked for before the home is known.
pub proof fn lemma_search_waits_for_home(host: Host, file_name: Seq<char>)
    ensures
        !(java_home(host) matches ProgressView::Done(Ok(_))) ==> located_file(host, file_name)
            == java_home(host),
{
}

/// Where reading a traversal stops with a question, the question is for
/// the step behind those on record.
pub proof fn lemma_scan_asks_next_step(
    style: PathStyle,
    entries: Seq<(String, GlobAnswer)>,
    query: Seq<char>,
    java_home: Seq<char>,
    file_name: Seq<char>,
    from: int,
    seen: nat,
)
    requires
        0 <= from <= entries.len(),
    ensures
        scanned(style, entries, query, java_home, file_name, from, seen) matches ProgressView::Need(
            asked,
        ) ==> asked == (QueryView::GlobEntry {
            pattern: query,
            index: seen + steps_recorded(entries, query, from),
        }),
    decreases entries.len() - from,
{
    if from < entries.len() {
        if entries[from].0@ != query {
            lemma_scan_asks_next_step(style, entries, query, java_home, file_name, from + 1, seen);
        } else if entries[from].1 == GlobAnswer::Unreadable {
            lemma_scan_asks_next_step(
                style,
                entries,
                query,
                java_home,
                file_name,
                from + 1,
                seen + 1,
            );
        }
    }
}

/// A search asks only what the host has not answered: once the answer is
/// recorded, the same question does not come again.
pub proof fn lemma_search_asks_what_is_unknown(host: Host, file_name: Seq<char>)
    ensures
        located_file(host, file_name) matches ProgressView::Need(query) ==> host.is_unanswered(
            query,
        ),
{
    lemma_home_asks_what_is_unknown(host);
    if let ProgressView::Done(Ok(home)) = java_home(host) {
        lemma_scan_asks_next_step(
            host.platform.path_style(),
            host.glob_entries@,
            glob_query(home, file_name),
            home,
            file_name,
            0,
            0,
        );
    }
}

/// A question that the host has answered is not asked again, whatever else
/// the host has answered since.
pub proof fn lemma_answered_is_not_asked_again(host: Host, file_name: Seq<char>, query: QueryView)
    requires
        !host.is_unanswered(query),
    ensures
        located_file(host, file_name) != ProgressView::Need(query),
        java_home(host) != ProgressView::Need(query),
{
    lemma_search_asks_what_is_unknown(host, file_name);
    lemma_home_asks_what_is_unknown(host);
}

/// An empty `JAVA_HOME` counts as none for a search too: with the one as
/// with the other, the same file is found in the same way.
pub proof fn lemma_search_with_empty_override(host: Host, empty: String, file_name: Seq<char>)
    requires
        empty@.len() == 0,
    ensures
        located_file(with_java_home_var(host, Some(empty)), file_name) == located_file(
            with_java_home_var(host, None),
            file_name,
        ),
{
    lemma_empty_override_is_unset(host, empty);
}

} // verus!
