//! Finding the Java home: the override, the lookup command, the links behind
//! the executable it names, and the directory that holds `bin/java`.

use vstd::prelude::*;
use crate::errors::{invalid_output, java_not_found, launch_failure, ErrorView, JavaLocatorError};
use crate::host::{CommandOutcome, Host, Progress, ProgressView, Query, QueryView};
use crate::links::{
    follow_symlinks,
    followed,
    lemma_followed_asks_unknown_link,
    lemma_followed_reads_links,
    MAX_LINK_HOPS,
};
use crate::path::{
    file_name,
    file_name_of,
    is_segment,
    is_trimmed,
    joined,
    lemma_pop_undoes_join,
    pop,
    popped,
};
use crate::platform::{Lookup, PathStyle};
use crate::text::{
    count_lines,
    decimal,
    decimal_of,
    decode,
    decoded,
    first_line,
    first_line_of,
    line_count,
    same_text,
    trim,
    trimmed,
};

verus! {

/// Makes sure that a lookup named an executable: an empty path means that
/// Java is not installed.
pub fn java_exec_path_validation(path: &str) -> (valid: Result<(), JavaLocatorError>)
    ensures
        valid is Ok <==> path@.len() > 0,
        valid matches Err(err) ==> err@ == java_not_found(),
{
    if path.unicode_len() == 0 {
        return Err(JavaLocatorError::java_not_found());
    }
    Ok(())
}

/// The path that the text printed by `lookup` names: the text, or its first
/// line where the command lists candidates, without the white space around it.
pub open spec fn named_path(lookup: Lookup, text: Seq<char>) -> Seq<char> {
    if lookup.lists_candidates() {
        trimmed(first_line_of(text))
    } else {
        trimmed(text)
    }
}

/// What the text printed by `lookup` says: the path it names, or
/// `JavaNotFound` where it names nothing.
pub open spec fn text_path(lookup: Lookup, text: Seq<char>) -> Result<Seq<char>, ErrorView> {
    if named_path(lookup, text).len() == 0 {
        Err(java_not_found())
    } else {
        Ok(named_path(lookup, text))
    }
}

/// Reads the text printed by `lookup`: see [`text_path`].
pub fn read_lookup_text(lookup: Lookup, text: &str) -> (path: Result<String, JavaLocatorError>)
    ensures
        path is Ok <==> named_path(lookup, text@).len() > 0,
        path matches Ok(p) ==> p@ == named_path(lookup, text@),
        path matches Err(err) ==> err@ == java_not_found(),
{
    let named = if lookup.lists_candidates() {
        let line = first_line(text);
        trim(line.as_str())
    } else {
        trim(text)
    };
    match java_exec_path_validation(named.as_str()) {
        Err(err) => Err(err),
        Ok(_) => Ok(named),
    }
}

/// What the output of `lookup` says: the path it names; `InvalidEncoding`
/// where the bytes are no text; `JavaNotFound` where they name nothing.
pub open spec fn output_path(lookup: Lookup, bytes: Seq<u8>) -> Result<Seq<char>, ErrorView> {
    match decoded(bytes) {
        Err(reason) => Err(invalid_output(reason)),
        Ok(text) => text_path(lookup, text),
    }
}

/// Reads the output of `lookup`: see [`output_path`].
pub fn read_lookup_output(lookup: Lookup, bytes: &[u8]) -> (path: Result<String, JavaLocatorError>)
    ensures
        path is Ok == output_path(lookup, bytes@) is Ok,
        path matches Ok(p) ==> Ok::<Seq<char>, ErrorView>(p@) == output_path(lookup, bytes@),
        path matches Err(err) ==> Err::<Seq<char>, ErrorView>(err@) == output_path(
            lookup,
            bytes@,
        ),
{
    match decode(bytes) {
        Err(reason) => Err(JavaLocatorError::invalid_output(reason)),
        Ok(text) => read_lookup_text(lookup, text.as_str()),
    }
}

/// The home that the executable at `executable` belongs to: the directory
/// two segments up (`<home>/bin/java`), or three where `legacy` is set and
/// the second is named `jre` (`<home>/jre/bin/java`).
pub open spec fn home_of_executable(style: PathStyle, legacy: bool, executable: Seq<char>) -> Seq<
    char,
> {
    let home = popped(style, popped(style, executable));
    if legacy && file_name_of(style, home) == Some("jre"@) {
        popped(style, home)
    } else {
        home
    }
}

/// The home that the executable at `executable` belongs to.
pub fn java_home_of_executable(style: PathStyle, legacy: bool, executable: &str) -> (home: String)
    ensures
        home@ == home_of_executable(style, legacy, executable@),
{
    let bin = pop(style, executable);
    let home = pop(style, bin.as_str());
    if legacy {
        match file_name(style, home.as_str()) {
            Some(name) => {
                if same_text(name.as_str(), "jre") {
                    return pop(style, home.as_str());
                }
            },
            None => {},
        }
    }
    home
}

/// The home that `resolved` stands for, which is where the path that
/// `lookup` named really lies.
pub open spec fn home_of(style: PathStyle, lookup: Lookup, legacy: bool, resolved: Seq<char>) -> Seq<
    char,
> {
    if lookup.names_executable() {
        home_of_executable(style, legacy, resolved)
    } else {
        resolved
    }
}

/// The home that `path`, which `lookup` named, leads to on `host`: the
/// links are followed from `path`, and the home is read off where they end.
pub open spec fn home_from_path(host: Host, lookup: Lookup, path: Seq<char>) -> ProgressView {
    match followed(host, path, MAX_LINK_HOPS as nat) {
        ProgressView::Done(Ok(resolved)) => ProgressView::Done(
            Ok(home_of(host.platform.path_style(), lookup, host.legacy_java_compat, resolved)),
        ),
        other => other,
    }
}

/// The home that `path`, which `lookup` named, leads to on `host`.
pub fn locate_from_path(host: &Host, lookup: Lookup, path: &str) -> (progress: Progress)
    ensures
        progress@ == home_from_path(*host, lookup, path@),
{
    match follow_symlinks(host, path) {
        Progress::Done(Ok(resolved)) => {
            if lookup.names_executable() {
                Progress::Done(
                    Ok(
                        java_home_of_executable(
                            host.platform.path_style(),
                            host.legacy_java_compat,
                            resolved.as_str(),
                        ),
                    ),
                )
            } else {
                Progress::Done(Ok(resolved))
            }
        },
        other => other,
    }
}

/// The home that the output `bytes` of `lookup` leads to on `host`.
pub open spec fn home_from_output(host: Host, lookup: Lookup, bytes: Seq<u8>) -> ProgressView {
    match output_path(lookup, bytes) {
        Err(err) => ProgressView::Done(Err(err)),
        Ok(path) => home_from_path(host, lookup, path),
    }
}

/// The home that the output `bytes` of `lookup` leads to on `host`.
pub fn locate_from_output(host: &Host, lookup: Lookup, bytes: &[u8]) -> (progress: Progress)
    ensures
        progress@ == home_from_output(*host, lookup, bytes@),
{
    match read_lookup_output(lookup, bytes) {
        Err(err) => Progress::Done(Err(err)),
        Ok(path) => locate_from_path(host, lookup, path.as_str()),
    }
}

/// The home that the lookup commands of `host` lead to. The command of the
/// platform is asked first; where it cannot be started and has a fallback,
/// the fallback is asked. A command that cannot be started and has no
/// fallback is a `SubprocessLaunchFailure`.
pub open spec fn discovered_home(host: Host) -> ProgressView {
    let first = host.platform.lookup();
    match host.command_outcome(first) {
        None => ProgressView::Need(QueryView::Command(first)),
        Some(CommandOutcome::Output(bytes)) => home_from_output(host, first, bytes@),
        Some(CommandOutcome::LaunchFailed(reason)) => match first.fallback() {
            None => ProgressView::Done(Err(launch_failure(first, reason@))),
            Some(second) => match host.command_outcome(second) {
                None => ProgressView::Need(QueryView::Command(second)),
                Some(CommandOutcome::Output(bytes)) => home_from_output(host, second, bytes@),
                Some(CommandOutcome::LaunchFailed(reason)) => ProgressView::Done(
                    Err(launch_failure(second, reason@)),
                ),
            },
        },
    }
}

/// Locates the Java home through the lookup command of the platform: see
/// [`discovered_home`].
pub fn do_locate_java_home(host: &Host) -> (progress: Progress)
    ensures
        progress@ == discovered_home(*host),
{
    let first = host.platform.lookup();
    match host.outcome(first) {
        None => Progress::Need(Query::Command(first)),
        Some(CommandOutcome::Output(bytes)) => locate_from_output(host, first, bytes.as_slice()),
        Some(CommandOutcome::LaunchFailed(reason)) => match first.fallback() {
            None => Progress::Done(Err(JavaLocatorError::launch_failure(first, reason.as_str()))),
            Some(second) => match host.outcome(second) {
                None => Progress::Need(Query::Command(second)),
                Some(CommandOutcome::Output(bytes)) => locate_from_output(
                    host,
                    second,
                    bytes.as_slice(),
                ),
                Some(CommandOutcome::LaunchFailed(reason)) => Progress::Done(
                    Err(JavaLocatorError::launch_failure(second, reason.as_str())),
                ),
            },
        },
    }
}

/// The value of `JAVA_HOME` on `host`, where it is known, set and not empty:
/// it is the home, as it stands.
pub open spec fn home_override(host: Host) -> Option<Seq<char>> {
    match host.java_home_var {
        Some(Some(value)) => if value@.len() > 0 {
            Some(value@)
        } else {
            None
        },
        _ => None,
    }
}

/// The Java home of `host`: the value of `JAVA_HOME` where it is set and not
/// empty, as it is; else the home that the lookup commands lead to.
pub open spec fn java_home(host: Host) -> ProgressView {
    if host.java_home_var is None {
        ProgressView::Need(QueryView::JavaHomeVar)
    } else {
        match home_override(host) {
            Some(home) => ProgressView::Done(Ok(home)),
            None => discovered_home(host),
        }
    }
}

/// Returns the Java home path.
///
/// If `JAVA_HOME` is set and not empty, its value is the answer, whether or
/// not it names a directory. Else the `java` executable is looked for.
pub fn locate_java_home(host: &Host) -> (progress: Progress)
    ensures
        progress@ == java_home(*host),
        host.java_home_var matches Some(Some(value)) ==> (value@.len() > 0 ==> progress@
            == ProgressView::Done(Ok(value@))),
{
    match &host.java_home_var {
        None => Progress::Need(Query::JavaHomeVar),
        Some(Some(value)) => {
            if value.as_str().unicode_len() > 0 {
                Progress::Done(Ok(value.clone()))
            } else {
                do_locate_java_home(host)
            }
        },
        Some(None) => do_locate_java_home(host),
    }
}

/// How many places of `java` the lookup command listed of which only the
/// first is used: the number of lines that a command which lists candidates
/// printed, where `JAVA_HOME` is known not to answer and the first line
/// names a path. Else 0.
pub open spec fn listed_candidates(host: Host) -> nat {
    let lookup = host.platform.lookup();
    if !lookup.lists_candidates() || host.java_home_var is None || home_override(host) is Some {
        0
    } else {
        match host.command_outcome(lookup) {
            Some(CommandOutcome::Output(bytes)) => match decoded(bytes@) {
                Ok(text) => if named_path(lookup, text).len() > 0 {
                    line_count(text)
                } else {
                    0
                },
                Err(_) => 0,
            },
            _ => 0,
        }
    }
}

/// What to tell the user where the lookup listed `count` places.
pub open spec fn ambiguity_warning(count: nat) -> Seq<char> {
    "WARNING: java_locator found "@ + decimal_of(count)
        + " possible java locations. Using the first one. To silence this warning set JAVA_HOME env var."@
}

/// The warning that goes with the home found on `host`, if there is one: the
/// lookup listed more than one place, and the first one was used.
pub fn lookup_warning(host: &Host) -> (warning: Option<String>)
    ensures
        warning is Some <==> listed_candidates(*host) > 1,
        warning matches Some(text) ==> text@ == ambiguity_warning(listed_candidates(*host)),
{
    let lookup = host.platform.lookup();
    if !lookup.lists_candidates() {
        return None;
    }
    match &host.java_home_var {
        None => {
            return None;
        },
        Some(Some(value)) => {
            if value.as_str().unicode_len() > 0 {
                return None;
            }
        },
        Some(None) => {},
    }
    match host.outcome(lookup) {
        Some(CommandOutcome::Output(bytes)) => match decode(bytes.as_slice()) {
            Err(_) => None,
            Ok(text) => match read_lookup_text(lookup, text.as_str()) {
                Err(_) => None,
                Ok(_) => {
                    let count = count_lines(text.as_str());
                    if count > 1 {
                        let mut warning = String::from_str("WARNING: java_locator found ");
                        warning.append(decimal(count).as_str());
                        warning.append(
                            " possible java locations. Using the first one. To silence this warning set JAVA_HOME env var.",
                        );
                        Some(warning)
                    } else {
                        None
                    }
                },
            },
        },
        _ => None,
    }
}

/// `host` with this value of `JAVA_HOME`, and nothing else changed.
pub open spec fn with_java_home_var(host: Host, value: Option<String>) -> Host {
    Host { java_home_var: Some(value), ..host }
}

/// A `JAVA_HOME` that is set and not empty is the home, whatever else is or
/// is not known of the host: no command is asked for and no link is read.
pub proof fn lemma_override_wins(host: Host, value: String)
    requires
        value@.len() > 0,
    ensures
        java_home(with_java_home_var(host, Some(value))) == ProgressView::Done(Ok(value@)),
{
}

/// The home that the lookup commands lead to does not depend on `JAVA_HOME`.
pub proof fn lemma_discovery_ignores_override(a: Host, b: Host)
    requires
        a.platform == b.platform,
        a.legacy_java_compat == b.legacy_java_compat,
        a.where_java == b.where_java,
        a.java_home_utility == b.java_home_utility,
        a.which_java == b.which_java,
        a.links@ == b.links@,
    ensures
        discovered_home(a) == discovered_home(b),
{
    assert forall|lookup: Lookup, path: Seq<char>|
        home_from_path(a, lookup, path) == home_from_path(b, lookup, path) by {
        lemma_followed_reads_links(a, b, path, MAX_LINK_HOPS as nat);
    }
    assert forall|lookup: Lookup| a.command_outcome(lookup) == b.command_outcome(lookup) by {}
}

/// An empty `JAVA_HOME` counts as none: with the one as with the other, the
/// home is the one that the lookup commands lead to.
pub proof fn lemma_empty_override_is_unset(host: Host, empty: String)
    requires
        empty@.len() == 0,
    ensures
        java_home(with_java_home_var(host, Some(empty))) == java_home(
            with_java_home_var(host, None),
        ),
        java_home(with_java_home_var(host, Some(empty))) == discovered_home(host),
{
    lemma_discovery_ignores_override(with_java_home_var(host, Some(empty)), host);
    lemma_discovery_ignores_override(with_java_home_var(host, None), host);
}

/// An executable two segments below a home belongs to that home. With
/// `legacy` set this takes that the home itself is not named `jre`.
pub proof fn lemma_home_is_two_segments_up(
    style: PathStyle,
    legacy: bool,
    home: Seq<char>,
    bin: Seq<char>,
    java: Seq<char>,
)
    requires
        is_trimmed(style, home),
        is_segment(style, bin),
        is_segment(style, java),
        legacy ==> file_name_of(style, home) != Some("jre"@),
    ensures
        home_of_executable(style, legacy, joined(style, joined(style, home, bin), java)) == home,
{
    lemma_pop_undoes_join(style, home, bin);
    lemma_pop_undoes_join(style, joined(style, home, bin), java);
}

/// In the layout of old development kits, where the executable lies two
/// segments below a directory `jre`, the home is the directory above `jre`.
pub proof fn lemma_legacy_home_is_above_jre(
    style: PathStyle,
    home: Seq<char>,
    bin: Seq<char>,
    java: Seq<char>,
)
    requires
        is_trimmed(style, home),
        is_segment(style, bin),
        is_segment(style, java),
    ensures
        home_of_executable(
            style,
            true,
            joined(style, joined(style, joined(style, home, "jre"@), bin), java),
        ) == home,
        home_of_executable(
            style,
            false,
            joined(style, joined(style, joined(style, home, "jre"@), bin), java),
        ) == joined(style, home, "jre"@),
{
    let jre = "jre"@;
    reveal_strlit("jre");
    assert(jre =~= seq!['j', 'r', 'e']);
    assert(jre != seq!['.']) by {
        assert(jre.len() == 3);
    }
    assert(jre != seq!['.', '.']) by {
        assert(jre.len() == 3);
    }
    assert(is_segment(style, jre));
    lemma_pop_undoes_join(style, home, jre);
    let inner = joined(style, home, jre);
    lemma_pop_undoes_join(style, inner, bin);
    lemma_pop_undoes_join(style, joined(style, inner, bin), java);
}

/// The search for the home asks only what the host has not answered: once
/// the answer is recorded, the same question does not come again.
pub proof fn lemma_home_asks_what_is_unknown(host: Host)
    ensures
        java_home(host) matches ProgressView::Need(query) ==> host.is_unanswered(query),
        discovered_home(host) matches ProgressView::Need(query) ==> host.is_unanswered(query)
            && !(query is JavaHomeVar),
{
    assert forall|lookup: Lookup, path: Seq<char>|
        (#[trigger] home_from_path(host, lookup, path) matches ProgressView::Need(query)
            ==> query is Link && host.is_unanswered(query)) by {
        lemma_followed_asks_unknown_link(host, path, MAX_LINK_HOPS as nat);
    }
}

} // verus!
