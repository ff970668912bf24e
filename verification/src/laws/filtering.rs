//! What a commit publishes, reply by reply: which files are asked about, which are kept, and what
//! the hooks get to see.

use vstd::prelude::*;
use vstd::string::*;
use crate::config::ResolvedSubrepoView;
use crate::filter::{
    has_committed_files_step, name_subtree_step, write_subtree_step, FilterErrorView,
    TreeContentView, filtered_subtree_step,
};
use crate::git::TreeEntryView;
use crate::list::lemma_filter_contains;
use crate::talk::{
    commit_at, entries_at, excluded_at, hook_at, materialized_at, path_at, rehashed_at, text_at,
    ReplyView, RequestView, Step,
};
use crate::text::Text;

verus! {

/// Can a subrepo be published as it was committed?
pub open spec fn published_as_committed(subrepo: ResolvedSubrepoView) -> bool {
    subrepo.exclude.len() == 0 && subrepo.scan is None && subrepo.transform is None
}

/// Are these the files of the listing at `at` that the reply after it leaves, in their order?
pub open spec fn are_kept(log: Seq<ReplyView>, at: int, kept: Seq<TreeEntryView>) -> bool {
    &&& entries_at(log, at) matches Some(Ok(entries))
    &&& excluded_at(log, at + 1) matches Some(Ok(excluded))
    &&& kept == entries.filter(|entry: TreeEntryView| !excluded.contains(entry.path))
}

/// Everything that is asked for to resolve a subtree. All of the configured patterns are tried on
/// all of the listed files. The hooks see the files that are left, the commit's own message and
/// its sha. What is named at the end is what was kept, or what the `transform` left together with
/// what never was on disk.
pub proof fn law_a_subtree_is_resolved_from_the_whole_listing(
    mono_commit: Text,
    subrepo: ResolvedSubrepoView,
    log: Seq<ReplyView>,
    at: int,
)
    ensures
        name_subtree_step(mono_commit, subrepo, log, at) matches Step::Ask(request) ==> match (
        request) {
            RequestView::Git { args, input } => {
                &&& published_as_committed(subrepo)
                &&& args == seq![
                    "ls-tree"@,
                    "-d"@,
                    "--format=%(objectname)"@,
                    mono_commit,
                    "--"@,
                    subrepo.path,
                ]
                &&& input is None
            },
            RequestView::LsTree { treeish } => !published_as_committed(subrepo) && treeish
                == mono_commit + ":"@ + subrepo.path,
            RequestView::Exclude { patterns, paths } => {
                &&& entries_at(log, at) matches Some(Ok(entries))
                &&& patterns == subrepo.exclude
                &&& paths.len() == entries.len()
                &&& forall|i: int|
                    0 <= i < entries.len() ==> (#[trigger] paths[i]) == entries[i].path
            },
            RequestView::ReadCommit { rev } => rev == mono_commit,
            RequestView::Materialize { entries } => are_kept(log, at, entries),
            RequestView::MessageFile { message } => commit_at(log, at + 2) matches Some(Ok(meta))
                && message == meta.message,
            RequestView::TreeHook { hook, command, dir, subrepo: name, mono_sha, message_file } => {
                &&& commit_at(log, at + 2) matches Some(Ok(meta))
                &&& materialized_at(log, at + 3) matches Some(Ok(tree))
                &&& path_at(log, at + 4) matches Some(Ok(path))
                &&& name == subrepo.name
                &&& mono_sha == meta.sha
                &&& dir == tree.dir
                &&& message_file == path
                &&& hook == "scan"@ && subrepo.scan == Some(command) || hook == "transform"@
                    && subrepo.transform == Some(command)
            },
            RequestView::NameFiles { dir } => {
                &&& subrepo.transform is Some
                &&& materialized_at(log, at + 3) matches Some(Ok(tree))
                &&& dir == tree.dir
            },
            RequestView::NameTree { entries } => if subrepo.transform is None {
                are_kept(log, at, entries)
            } else {
                &&& materialized_at(log, at + 3) matches Some(Ok(tree))
                &&& rehashed_at(
                    log,
                    at + 6 + if subrepo.scan is Some {
                        1int
                    } else {
                        0int
                    },
                ) matches Some(Ok(files))
                &&& entries == tree.passthrough + files
            },
            _ => false,
        },
        at >= log.len() ==> (name_subtree_step(mono_commit, subrepo, log, at) matches Step::Ask(
            request,
        ) && (request is Git || request is LsTree)),
{
}

/// The last reply decides what a subtree is. It is the tree that git named; it is none where git
/// has no such directory; and whatever failed is the error.
pub proof fn law_the_last_reply_decides_a_subtree(
    mono_commit: Text,
    subrepo: ResolvedSubrepoView,
    log: Seq<ReplyView>,
    at: int,
)
    requires
        0 <= at,
    ensures
        name_subtree_step(mono_commit, subrepo, log, at) matches Step::Done(result, end) ==> {
            &&& at < end <= log.len()
            &&& match (log[end - 1], result) {
                (ReplyView::Text(Ok(tree)), Ok(Some(subtree))) => tree == subtree.tree,
                (ReplyView::Text(Ok(tree)), Ok(None)) => published_as_committed(subrepo)
                    && tree.len() == 0,
                (ReplyView::Text(Err(_)), Ok(None)) => published_as_committed(subrepo),
                (ReplyView::Text(Err(err)), Err(refused)) => !published_as_committed(subrepo)
                    && refused == FilterErrorView::Git(err),
                (ReplyView::Entries(Err(_)), Ok(None)) => true,
                (ReplyView::Excluded(Err(detail)), Err(refused)) => refused
                    == FilterErrorView::Other(detail),
                (ReplyView::Commit(Err(err)), Err(refused)) => refused == FilterErrorView::Git(err),
                (ReplyView::Materialized(Err(detail)), Err(refused)) => refused
                    == FilterErrorView::Other(detail),
                (ReplyView::Path(Err(detail)), Err(refused)) => refused == FilterErrorView::Other(
                    detail,
                ),
                (ReplyView::Hook(Err(err)), Err(refused)) => refused == FilterErrorView::Hook(err),
                (ReplyView::Rehashed(Err(detail)), Err(refused)) => refused
                    == FilterErrorView::Other(detail),
                _ => false,
            }
            &&& published_as_committed(subrepo) ==> end == at + 1
            &&& result matches Ok(Some(subtree)) ==> match subtree.content {
                TreeContentView::Committed => published_as_committed(subrepo) && subtree.tree.len()
                    > 0,
                TreeContentView::Files { entries } => !published_as_committed(subrepo)
                    && subrepo.transform is None && are_kept(log, at, entries),
                TreeContentView::Directory { dir, passthrough } => {
                    &&& subrepo.transform is Some
                    &&& materialized_at(log, at + 3) matches Some(Ok(tree))
                    &&& dir == tree.dir
                    &&& passthrough == tree.passthrough
                },
            }
        },
{
}

/// A configured hook is never skipped: where a subtree comes out, every hook that is configured
/// was asked for, in that order, and let it pass.
pub proof fn law_no_hook_is_skipped(
    mono_commit: Text,
    subrepo: ResolvedSubrepoView,
    log: Seq<ReplyView>,
    at: int,
)
    ensures
        name_subtree_step(mono_commit, subrepo, log, at) matches Step::Done(Ok(Some(_)), end) ==> {
            &&& subrepo.scan is Some ==> (hook_at(log, at + 5) matches Some(Ok(_)))
            &&& subrepo.transform is Some ==> (hook_at(
                log,
                at + 5 + if subrepo.scan is Some {
                    1int
                } else {
                    0int
                },
            ) matches Some(Ok(_)))
        },
{
}

/// An honest matcher was asked: the excluded paths are those, among the ones asked about, that
/// one of the patterns asked about matches.
pub open spec fn matched_by(
    matches_path: spec_fn(Text, Text) -> bool,
    patterns: Seq<Text>,
    paths: Seq<Text>,
    excluded: Seq<Text>,
) -> bool {
    forall|path: Text| #[trigger]
        excluded.contains(path) <==> paths.contains(path) && exists|i: int|
            0 <= i < patterns.len() && matches_path(#[trigger] patterns[i], path)
}

/// Excluded files are never published, and nothing else is held back. Whatever a pattern means,
/// if the matcher is honest about what it was asked, the files that are published are exactly
/// those of the listing that none of the configured patterns matches.
pub proof fn law_what_is_published_matches_no_pattern(
    matches_path: spec_fn(Text, Text) -> bool,
    mono_commit: Text,
    subrepo: ResolvedSubrepoView,
    log: Seq<ReplyView>,
    at: int,
    entry: TreeEntryView,
)
    requires
        0 <= at,
        at + 1 < log.len(),
        name_subtree_step(mono_commit, subrepo, log.take(at + 1), at) matches Step::Ask(
            RequestView::Exclude { patterns, paths },
        ) ==> (excluded_at(log, at + 1) matches Some(Ok(excluded)) ==> matched_by(
            matches_path,
            patterns,
            paths,
            excluded,
        )),
    ensures
        name_subtree_step(mono_commit, subrepo, log, at) matches Step::Done(Ok(Some(subtree)), _)
            ==> (subtree.content matches TreeContentView::Files { entries } ==> (entries_at(
            log,
            at,
        ) matches Some(Ok(listed)) && (entries.contains(entry) <==> listed.contains(entry)
            && forall|i: int|
            0 <= i < subrepo.exclude.len() ==> !matches_path(
                #[trigger] subrepo.exclude[i],
                entry.path,
            )))),
        name_subtree_step(mono_commit, subrepo, log, at) matches Step::Ask(
            RequestView::Materialize { entries },
        ) ==> (entries_at(log, at) matches Some(Ok(listed)) && (entries.contains(entry)
            <==> listed.contains(entry) && forall|i: int|
            0 <= i < subrepo.exclude.len() ==> !matches_path(
                #[trigger] subrepo.exclude[i],
                entry.path,
            ))),
{
    law_a_subtree_is_resolved_from_the_whole_listing(mono_commit, subrepo, log, at);
    law_the_last_reply_decides_a_subtree(mono_commit, subrepo, log, at);
    let before = log.take(at + 1);
    assert(before[at] == log[at]);
    law_a_subtree_is_resolved_from_the_whole_listing(mono_commit, subrepo, before, at);
    match (entries_at(log, at), excluded_at(log, at + 1)) {
        (Some(Ok(listed)), Some(Ok(excluded))) => {
            lemma_filter_contains(
                listed,
                |entry: TreeEntryView| !excluded.contains(entry.path),
                entry,
            );
            match name_subtree_step(mono_commit, subrepo, before, at) {
                Step::Ask(RequestView::Exclude { patterns, paths }) => {
                    if listed.contains(entry) {
                        let i = choose|i: int| 0 <= i < listed.len() && listed[i] == entry;
                        assert(paths[i] == entry.path);
                        assert(paths.contains(entry.path));
                    }
                    assert(excluded.contains(entry.path) <==> paths.contains(entry.path)
                        && exists|i: int|
                        0 <= i < patterns.len() && matches_path(
                            #[trigger] patterns[i],
                            entry.path,
                        ));
                },
                _ => {},
            }
        },
        _ => {},
    }
}

/// Writing a subtree writes what it is made of: nothing where it was committed as it is, the tree
/// over its files, or the files of a directory and then the tree over them and over what never
/// was on disk. The last reply decides whether that worked.
pub proof fn law_a_subtree_is_written_as_it_is(
    content: TreeContentView,
    log: Seq<ReplyView>,
    at: int,
)
    ensures
        match content {
            TreeContentView::Committed => write_subtree_step(content, log, at) matches Step::Done(
                Ok(_),
                end,
            ) && end == at,
            TreeContentView::Files { entries } => match text_at(log, at) {
                None => write_subtree_step(content, log, at) matches Step::Ask(
                    RequestView::BuildTree { entries: written },
                ) && written == entries,
                Some(Ok(_)) => write_subtree_step(content, log, at) matches Step::Done(Ok(_), end)
                    && end == at + 1,
                Some(Err(err)) => write_subtree_step(content, log, at) matches Step::Done(
                    Err(refused),
                    _,
                ) && refused == FilterErrorView::Git(err),
            },
            TreeContentView::Directory { dir, passthrough } => match rehashed_at(log, at) {
                None => write_subtree_step(content, log, at) matches Step::Ask(
                    RequestView::Rehash { dir: hashed },
                ) && hashed == dir,
                Some(Err(detail)) => write_subtree_step(content, log, at) matches Step::Done(
                    Err(refused),
                    _,
                ) && refused == FilterErrorView::Other(detail),
                Some(Ok(files)) => match text_at(log, at + 1) {
                    None => write_subtree_step(content, log, at) matches Step::Ask(
                        RequestView::BuildTree { entries: written },
                    ) && written == passthrough + files,
                    Some(Ok(_)) => write_subtree_step(content, log, at) matches Step::Done(
                        Ok(_),
                        end,
                    ) && end == at + 2,
                    Some(Err(err)) => write_subtree_step(content, log, at) matches Step::Done(
                        Err(refused),
                        _,
                    ) && refused == FilterErrorView::Git(err),
                },
            },
        },
{
}

/// A filtered subtree is named first and written then, and the tree that comes out is the one that
/// was named; where there is none, nothing is written.
pub proof fn law_a_filtered_subtree_is_written(
    mono_commit: Text,
    subrepo: ResolvedSubrepoView,
    log: Seq<ReplyView>,
    at: int,
)
    ensures
        match name_subtree_step(mono_commit, subrepo, log, at) {
            Step::Ask(request) => filtered_subtree_step(mono_commit, subrepo, log, at) == Step::<
                Result<Option<Text>, FilterErrorView>,
            >::Ask(request),
            Step::Done(Err(err), end) => filtered_subtree_step(mono_commit, subrepo, log, at)
                == Step::<Result<Option<Text>, FilterErrorView>>::Done(Err(err), end),
            Step::Done(Ok(None), end) => filtered_subtree_step(mono_commit, subrepo, log, at)
                == Step::<Result<Option<Text>, FilterErrorView>>::Done(Ok(None), end),
            Step::Done(Ok(Some(subtree)), next) => match write_subtree_step(
                subtree.content,
                log,
                next,
            ) {
                Step::Ask(request) => filtered_subtree_step(mono_commit, subrepo, log, at)
                    == Step::<Result<Option<Text>, FilterErrorView>>::Ask(request),
                Step::Done(Err(err), end) => filtered_subtree_step(mono_commit, subrepo, log, at)
                    == Step::<Result<Option<Text>, FilterErrorView>>::Done(Err(err), end),
                Step::Done(Ok(_), end) => filtered_subtree_step(mono_commit, subrepo, log, at)
                    == Step::<Result<Option<Text>, FilterErrorView>>::Done(
                    Ok(Some(subtree.tree)),
                    end,
                ),
            },
        },
{
}

/// A path has committed files where git lists any below it, before any exclude has a say; a
/// listing that fails counts as none.
pub proof fn law_committed_files_are_listed_files(
    rev: Text,
    subrepo: ResolvedSubrepoView,
    log: Seq<ReplyView>,
    at: int,
)
    ensures
        match text_at(log, at) {
            None => has_committed_files_step(rev, subrepo, log, at) == Step::<bool>::Ask(
                RequestView::Git {
                    args: seq![
                        "ls-tree"@,
                        "-r"@,
                        "--name-only"@,
                        "-z"@,
                        rev + ":"@ + subrepo.path,
                    ],
                    input: None,
                },
            ),
            Some(listed) => has_committed_files_step(rev, subrepo, log, at) == Step::<bool>::Done(
                listed matches Ok(names) && names.len() > 0,
                at + 1,
            ),
        },
{
}

} // verus!
