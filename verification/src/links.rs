//! Symbolic links: where one leads, and where a chain of them ends.

use vstd::prelude::*;
use crate::errors::{invalid_path, too_many_links, JavaLocatorError};
use crate::host::{Host, LinkAnswer, Progress, ProgressView, Query, QueryView};
use crate::path::{
    is_absolute,
    is_segment,
    is_trimmed,
    join,
    joined,
    lemma_pop_undoes_join,
    pop,
    popped,
};
use crate::platform::PathStyle;

verus! {

/// How many links the locator follows from one path before it gives up.
pub const MAX_LINK_HOPS: usize = 40;

/// Where the link at `link` leads, if its target is `target`: a relative
/// target counts from the directory that holds the link.
pub open spec fn link_destination(style: PathStyle, link: Seq<char>, target: Seq<char>) -> Seq<
    char,
> {
    joined(style, popped(style, link), target)
}

/// Where the link at `link` leads, if its target is `target`.
pub fn resolve_link(style: PathStyle, link: &str, target: &str) -> (destination: String)
    ensures
        destination@ == link_destination(style, link@, target@),
{
    let dir = pop(style, link);
    join(style, dir.as_str(), target)
}

/// Following links from `path`, at most `hops` of them, by the answers of
/// `host`: the first path on the way that is no link; the question for the
/// first path of which `host` does not know; or an error, for a target that
/// is no text or for one link too many.
pub open spec fn followed(host: Host, path: Seq<char>, hops: nat) -> ProgressView
    decreases hops,
{
    match host.link_answer(path) {
        None => ProgressView::Need(QueryView::Link(path)),
        Some(LinkAnswer::NotALink) => ProgressView::Done(Ok(path)),
        Some(LinkAnswer::Unrepresentable(shown)) => ProgressView::Done(Err(invalid_path(shown@))),
        Some(LinkAnswer::Target(target)) => if hops == 0 {
            ProgressView::Done(Err(too_many_links(path)))
        } else {
            followed(
                host,
                link_destination(host.platform.path_style(), path, target@),
                (hops - 1) as nat,
            )
        },
    }
}

/// Follows symbolic links from `path` until a path that is no link.
pub fn follow_symlinks(host: &Host, path: &str) -> (progress: Progress)
    ensures
        progress@ == followed(*host, path@, MAX_LINK_HOPS as nat),
{
    let style = host.platform.path_style();
    let mut current = String::from_str(path);
    let mut hops: usize = MAX_LINK_HOPS;
    loop
        invariant
            style == host.platform.path_style(),
            followed(*host, path@, MAX_LINK_HOPS as nat) == followed(*host, current@, hops as nat),
        decreases hops,
    {
        match host.link(current.as_str()) {
            None => {
                return Progress::Need(Query::Link(current));
            },
            Some(LinkAnswer::NotALink) => {
                return Progress::Done(Ok(current));
            },
            Some(LinkAnswer::Unrepresentable(shown)) => {
                return Progress::Done(Err(JavaLocatorError::invalid_path(shown.as_str())));
            },
            Some(LinkAnswer::Target(target)) => {
                if hops == 0 {
                    return Progress::Done(
                        Err(JavaLocatorError::too_many_links(current.as_str())),
                    );
                }
                current = resolve_link(style, current.as_str(), target.as_str());
                hops = hops - 1;
            },
        }
    }
}

/// An absolute target is where the link leads, wherever the link lies.
pub proof fn lemma_absolute_target_replaces(style: PathStyle, link: Seq<char>, target: Seq<char>)
    requires
        is_absolute(style, target),
    ensures
        link_destination(style, link, target) == target,
{
}

/// A relative target of one segment names a path beside the link: it counts
/// from the directory that holds the link, not from anywhere else.
pub proof fn lemma_relative_target_is_beside_link(
    style: PathStyle,
    dir: Seq<char>,
    link: Seq<char>,
    target: Seq<char>,
)
    requires
        is_trimmed(style, dir),
        is_segment(style, link),
        is_segment(style, target),
    ensures
        link_destination(style, joined(style, dir, link), target) == joined(style, dir, target),
{
    lemma_pop_undoes_join(style, dir, link);
}

/// Where following links ends with a path, the host has said of that path
/// that it is no link.
pub proof fn lemma_followed_ends_at_real_file(host: Host, path: Seq<char>, hops: nat)
    ensures
        followed(host, path, hops) matches ProgressView::Done(Ok(resolved)) ==> host.link_answer(
            resolved,
        ) == Some(LinkAnswer::NotALink),
    decreases hops,
{
    if let Some(LinkAnswer::Target(target)) = host.link_answer(path) {
        if hops > 0 {
            lemma_followed_ends_at_real_file(
                host,
                link_destination(host.platform.path_style(), path, target@),
                (hops - 1) as nat,
            );
        }
    }
}

/// Whether `chain` is a chain of links on `host`: each of its paths but the
/// last is a link that leads to the next, and the last is no link.
pub open spec fn is_link_chain(host: Host, chain: Seq<Seq<char>>) -> bool {
    &&& chain.len() > 0
    &&& host.link_answer(chain.last()) == Some(LinkAnswer::NotALink)
    &&& forall|i: int|
        0 <= i < chain.len() - 1 ==> (#[trigger] host.link_answer(chain[i])
            matches Some(LinkAnswer::Target(target)) && link_destination(
            host.platform.path_style(),
            chain[i],
            target@,
        ) == chain[i + 1])
}

/// Following a chain of links from its first path ends at its last path,
/// where the chain has no more links than are followed.
pub proof fn lemma_chain_is_followed_to_its_end(host: Host, chain: Seq<Seq<char>>, hops: nat)
    requires
        is_link_chain(host, chain),
        chain.len() - 1 <= hops,
    ensures
        followed(host, chain[0], hops) == ProgressView::Done(Ok(chain.last())),
    decreases chain.len(),
{
    if chain.len() > 1 {
        let rest = chain.drop_first();
        assert(rest.last() == chain.last());
        assert forall|i: int| 0 <= i < rest.len() - 1 implies (#[trigger] host.link_answer(rest[i])
            matches Some(LinkAnswer::Target(target)) && link_destination(
            host.platform.path_style(),
            rest[i],
            target@,
        ) == rest[i + 1]) by {
            assert(rest[i] == chain[i + 1]);
            assert(rest[i + 1] == chain[i + 2]);
        }
        lemma_chain_is_followed_to_its_end(host, rest, (hops - 1) as nat);
        assert(rest[0] == chain[1]);
    }
}

/// Following links reads nothing of a host but its platform and its links.
pub proof fn lemma_followed_reads_links(a: Host, b: Host, path: Seq<char>, hops: nat)
    requires
        a.platform == b.platform,
        a.links@ == b.links@,
    ensures
        followed(a, path, hops) == followed(b, path, hops),
    decreases hops,
{
    if let Some(LinkAnswer::Target(target)) = a.link_answer(path) {
        if hops > 0 {
            lemma_followed_reads_links(
                a,
                b,
                link_destination(a.platform.path_style(), path, target@),
                (hops - 1) as nat,
            );
        }
    }
}

/// Where following links stops with a question, the question is for a
/// link of which the host does not know.
pub proof fn lemma_followed_asks_unknown_link(host: Host, path: Seq<char>, hops: nat)
    ensures
        followed(host, path, hops) matches ProgressView::Need(query) ==> query is Link
            && host.is_unanswered(query),
    decreases hops,
{
    if let Some(LinkAnswer::Target(target)) = host.link_answer(path) {
        if hops > 0 {
            lemma_followed_asks_unknown_link(
                host,
                link_destination(host.platform.path_style(), path, target@),
                (hops - 1) as nat,
            );
        }
    }
}

} // verus!
