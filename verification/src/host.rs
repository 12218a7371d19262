//! What is known of the host: the answers it gave so far.
//!
//! The locator never touches the host. It works on a [`Host`], a record of
//! answers, and where an answer is missing it says which one it needs. The
//! caller gets that answer from the real system, or makes it up, records it,
//! and asks again.

use vstd::prelude::*;
use crate::errors::{ErrorView, JavaLocatorError};
use crate::platform::{Lookup, Platform};
use crate::text::same_text;

verus! {

/// How running a lookup command ended.
#[derive(Debug)]
pub enum CommandOutcome {
    /// The command ran; these bytes are what it printed.
    Output(Vec<u8>),
    /// The command could not be started, for this reason.
    LaunchFailed(String),
}

/// What reading the link at a path gave.
#[derive(Debug)]
pub enum LinkAnswer {
    /// The path is no symbolic link, or cannot be read as one.
    NotALink,
    /// The path is a symbolic link to this target.
    Target(String),
    /// The path is a symbolic link whose target is no text; this is how the
    /// target prints.
    Unrepresentable(String),
}

/// One step of the traversal that a search pattern starts.
#[derive(Debug)]
pub enum GlobAnswer {
    /// The next path that matches.
    Match(String),
    /// A directory that could not be read.
    Unreadable,
    /// The next path that matches lies in a directory whose path is no text;
    /// this is how that directory prints.
    Unrepresentable(String),
    /// The traversal refused the pattern, for this reason.
    Refused(String),
    /// Nothing more matches.
    End,
}

/// A question to the host.
#[derive(Debug)]
pub enum Query {
    /// What is the value of the environment variable `JAVA_HOME`?
    JavaHomeVar,
    /// How does this lookup command end?
    Command(Lookup),
    /// What does reading the link at this path give?
    Link(String),
    /// What is step number `index`, from 0, of the traversal for `pattern`?
    GlobEntry { pattern: String, index: usize },
}

/// The mathematical value of a [`Query`].
pub enum QueryView {
    JavaHomeVar,
    Command(Lookup),
    Link(Seq<char>),
    GlobEntry { pattern: Seq<char>, index: nat },
}

impl View for Query {
    type V = QueryView;

    open spec fn view(&self) -> QueryView {
        match self {
            Query::JavaHomeVar => QueryView::JavaHomeVar,
            Query::Command(lookup) => QueryView::Command(*lookup),
            Query::Link(path) => QueryView::Link(path@),
            Query::GlobEntry { pattern, index } => QueryView::GlobEntry {
                pattern: pattern@,
                index: *index as nat,
            },
        }
    }
}

/// How far a lookup came with the answers at hand.
#[derive(Debug)]
pub enum Progress {
    /// The lookup is over: here is the path it found, or why it failed.
    Done(Result<String, JavaLocatorError>),
    /// The lookup cannot go on before the host has answered this.
    Need(Query),
}

/// The mathematical value of a [`Progress`].
pub enum ProgressView {
    Done(Result<Seq<char>, ErrorView>),
    Need(QueryView),
}

impl View for Progress {
    type V = ProgressView;

    open spec fn view(&self) -> ProgressView {
        match self {
            Progress::Done(Ok(path)) => ProgressView::Done(Ok(path@)),
            Progress::Done(Err(err)) => ProgressView::Done(Err(err@)),
            Progress::Need(query) => ProgressView::Need(query@),
        }
    }
}

/// The answers of one host, and how it is to be read.
#[derive(Debug)]
pub struct Host {
    /// The kind of system the host is.
    pub platform: Platform,
    /// Whether a home that ends in `jre` stands for the directory above it,
    /// as in the layout of old development kits.
    pub legacy_java_compat: bool,
    /// The value of `JAVA_HOME`, once asked: `Some(None)` where it is not set.
    pub java_home_var: Option<Option<String>>,
    /// How `where java` ended, once run.
    pub where_java: Option<CommandOutcome>,
    /// How `/usr/libexec/java_home` ended, once run.
    pub java_home_utility: Option<CommandOutcome>,
    /// How `which java` ended, once run.
    pub which_java: Option<CommandOutcome>,
    /// The links read so far, by path. The first answer for a path counts.
    pub links: Vec<(String, LinkAnswer)>,
    /// The steps of traversals so far, each with its pattern, in the order
    /// in which they came.
    pub glob_entries: Vec<(String, GlobAnswer)>,
}

/// The first answer for `path` among `links[from..]`.
pub open spec fn first_link_answer(
    links: Seq<(String, LinkAnswer)>,
    path: Seq<char>,
    from: int,
) -> Option<LinkAnswer>
    decreases links.len() - from,
{
    if from < 0 || from >= links.len() {
        None
    } else if links[from].0@ == path {
        Some(links[from].1)
    } else {
        first_link_answer(links, path, from + 1)
    }
}

/// How many steps of the traversal for `pattern` stand among
/// `entries[from..]`.
pub open spec fn steps_recorded(
    entries: Seq<(String, GlobAnswer)>,
    pattern: Seq<char>,
    from: int,
) -> nat
    decreases entries.len() - from,
{
    if from < 0 || from >= entries.len() {
        0
    } else if entries[from].0@ == pattern {
        steps_recorded(entries, pattern, from + 1) + 1
    } else {
        steps_recorded(entries, pattern, from + 1)
    }
}

/// One more link at the end changes no answer that was there, and gives
/// its own answer to a path that had none.
pub proof fn lemma_link_added(
    links: Seq<(String, LinkAnswer)>,
    added: (String, LinkAnswer),
    path: Seq<char>,
    from: int,
)
    requires
        0 <= from <= links.len(),
    ensures
        first_link_answer(links.push(added), path, from) == match first_link_answer(
            links,
            path,
            from,
        ) {
            Some(answer) => Some(answer),
            None => if added.0@ == path {
                Some(added.1)
            } else {
                None
            },
        },
    decreases links.len() - from,
{
    let more = links.push(added);
    if from < links.len() {
        assert(more[from] == links[from]);
        if links[from].0@ != path {
            lemma_link_added(links, added, path, from + 1);
        }
    } else {
        assert(more[from] == added);
        assert(first_link_answer(more, path, from + 1) is None);
    }
}

/// One more step at the end counts for its own pattern and for no other.
pub proof fn lemma_step_added(
    entries: Seq<(String, GlobAnswer)>,
    added: (String, GlobAnswer),
    pattern: Seq<char>,
    from: int,
)
    requires
        0 <= from <= entries.len(),
    ensures
        steps_recorded(entries.push(added), pattern, from) == if added.0@ == pattern {
            steps_recorded(entries, pattern, from) + 1
        } else {
            steps_recorded(entries, pattern, from)
        },
    decreases entries.len() - from,
{
    let more = entries.push(added);
    if from < entries.len() {
        assert(more[from] == entries[from]);
        lemma_step_added(entries, added, pattern, from + 1);
    } else {
        assert(more[from] == added);
        assert(steps_recorded(more, pattern, from + 1) == 0);
    }
}

impl Host {
    /// A host of which nothing is known yet.
    pub fn new(platform: Platform) -> (host: Host)
        ensures
            host.platform == platform,
            !host.legacy_java_compat,
            host.java_home_var is None,
            host.where_java is None,
            host.java_home_utility is None,
            host.which_java is None,
            host.links@.len() == 0,
            host.glob_entries@.len() == 0,
    {
        Host {
            platform,
            legacy_java_compat: false,
            java_home_var: None,
            where_java: None,
            java_home_utility: None,
            which_java: None,
            links: Vec::new(),
            glob_entries: Vec::new(),
        }
    }

    /// How `lookup` ended on this host, if that is known.
    pub open spec fn command_outcome(&self, lookup: Lookup) -> Option<CommandOutcome> {
        match lookup {
            Lookup::Where => self.where_java,
            Lookup::JavaHomeUtility => self.java_home_utility,
            Lookup::Which => self.which_java,
        }
    }

    /// How `lookup` ended on this host, if that is known.
    pub fn outcome(&self, lookup: Lookup) -> (outcome: &Option<CommandOutcome>)
        ensures
            *outcome == self.command_outcome(lookup),
    {
        match lookup {
            Lookup::Where => &self.where_java,
            Lookup::JavaHomeUtility => &self.java_home_utility,
            Lookup::Which => &self.which_java,
        }
    }

    /// What reading the link at `path` gave on this host, if that is known.
    pub open spec fn link_answer(&self, path: Seq<char>) -> Option<LinkAnswer> {
        first_link_answer(self.links@, path, 0)
    }

    /// What reading the link at `path` gave on this host, if that is known.
    pub fn link(&self, path: &str) -> (answer: Option<&LinkAnswer>)
        ensures
            answer is Some == self.link_answer(path@) is Some,
            answer matches Some(a) ==> Some(*a) == self.link_answer(path@),
    {
        let n = self.links.len();
        let mut i: usize = 0;
        while i < n
            invariant
                i <= n == self.links@.len(),
                first_link_answer(self.links@, path@, 0) == first_link_answer(
                    self.links@,
                    path@,
                    i as int,
                ),
            decreases n - i,
        {
            if same_text(self.links[i].0.as_str(), path) {
                return Some(&self.links[i].1);
            }
            i = i + 1;
        }
        None
    }

    /// How many steps of the traversal for `pattern` this host has given.
    pub open spec fn steps_taken(&self, pattern: Seq<char>) -> nat {
        steps_recorded(self.glob_entries@, pattern, 0)
    }

    /// Whether this host has not answered `query` yet. Of a traversal, the
    /// step that is not answered yet is the one behind those on record.
    pub open spec fn is_unanswered(&self, query: QueryView) -> bool {
        match query {
            QueryView::JavaHomeVar => self.java_home_var is None,
            QueryView::Command(lookup) => self.command_outcome(lookup) is None,
            QueryView::Link(path) => self.link_answer(path) is None,
            QueryView::GlobEntry { pattern, index } => self.steps_taken(pattern) == index,
        }
    }

    /// Records the value of `JAVA_HOME`: `None` where it is not set.
    pub fn record_java_home_var(&mut self, value: Option<String>)
        ensures
            final(self).java_home_var == Some(value),
            !final(self).is_unanswered(QueryView::JavaHomeVar),
            final(self).platform == old(self).platform,
            final(self).legacy_java_compat == old(self).legacy_java_compat,
            final(self).where_java == old(self).where_java,
            final(self).java_home_utility == old(self).java_home_utility,
            final(self).which_java == old(self).which_java,
            final(self).links == old(self).links,
            final(self).glob_entries == old(self).glob_entries,
    {
        self.java_home_var = Some(value);
    }

    /// Records how `lookup` ended.
    pub fn record_command(&mut self, lookup: Lookup, outcome: CommandOutcome)
        ensures
            final(self).command_outcome(lookup) == Some(outcome),
            !final(self).is_unanswered(QueryView::Command(lookup)),
            forall|other: Lookup|
                other != lookup ==> final(self).command_outcome(other) == old(
                    self,
                ).command_outcome(other),
            final(self).platform == old(self).platform,
            final(self).legacy_java_compat == old(self).legacy_java_compat,
            final(self).java_home_var == old(self).java_home_var,
            final(self).links == old(self).links,
            final(self).glob_entries == old(self).glob_entries,
    {
        match lookup {
            Lookup::Where => {
                self.where_java = Some(outcome);
            },
            Lookup::JavaHomeUtility => {
                self.java_home_utility = Some(outcome);
            },
            Lookup::Which => {
                self.which_java = Some(outcome);
            },
        }
    }

    /// Records what reading the link at `path` gave. An answer that is
    /// already there for the same path stays the one that counts.
    pub fn record_link(&mut self, path: String, answer: LinkAnswer)
        ensures
            final(self).links@ == old(self).links@.push((path, answer)),
            !final(self).is_unanswered(QueryView::Link(path@)),
            old(self).is_unanswered(QueryView::Link(path@)) ==> final(self).link_answer(path@)
                == Some(answer),
            forall|other: Seq<char>|
                other != path@ ==> final(self).link_answer(other) == old(self).link_answer(other),
            final(self).platform == old(self).platform,
            final(self).legacy_java_compat == old(self).legacy_java_compat,
            final(self).java_home_var == old(self).java_home_var,
            final(self).where_java == old(self).where_java,
            final(self).java_home_utility == old(self).java_home_utility,
            final(self).which_java == old(self).which_java,
            final(self).glob_entries == old(self).glob_entries,
    {
        proof {
            lemma_link_added(self.links@, (path, answer), path@, 0);
            assert forall|other: Seq<char>| other != path@ implies first_link_answer(
                self.links@.push((path, answer)),
                other,
                0,
            ) == first_link_answer(self.links@, other, 0) by {
                lemma_link_added(self.links@, (path, answer), other, 0);
            }
        }
        self.links.push((path, answer));
    }

    /// Records the next step of the traversal for `pattern`.
    pub fn record_glob_entry(&mut self, pattern: String, answer: GlobAnswer)
        ensures
            final(self).glob_entries@ == old(self).glob_entries@.push((pattern, answer)),
            final(self).steps_taken(pattern@) == old(self).steps_taken(pattern@) + 1,
            forall|other: Seq<char>|
                other != pattern@ ==> final(self).steps_taken(other) == old(self).steps_taken(
                    other,
                ),
            final(self).platform == old(self).platform,
            final(self).legacy_java_compat == old(self).legacy_java_compat,
            final(self).java_home_var == old(self).java_home_var,
            final(self).where_java == old(self).where_java,
            final(self).java_home_utility == old(self).java_home_utility,
            final(self).which_java == old(self).which_java,
            final(self).links == old(self).links,
    {
        proof {
            lemma_step_added(self.glob_entries@, (pattern, answer), pattern@, 0);
            assert forall|other: Seq<char>| other != pattern@ implies steps_recorded(
                self.glob_entries@.push((pattern, answer)),
                other,
                0,
            ) == steps_recorded(self.glob_entries@, other, 0) by {
                lemma_step_added(self.glob_entries@, (pattern, answer), other, 0);
            }
        }
        self.glob_entries.push((pattern, answer));
    }
}

} // verus!
