//! What the messages say: whom they name, what they count, and which way out they show.

use vstd::prelude::*;
use vstd::string::*;
use crate::config::ResolvedSubrepoView;
use crate::exporter::{broken_mapping_text, rewritten_text, AnchorRecoveryView, ExportErrorView};
use crate::filter::FilterErrorView;
use crate::git::GitErrorView;
use crate::hooks::HookErrorView;
use crate::importer::ImportErrorView;
use crate::laws::vocabulary::pulled_from;
use crate::ops::{
    cancelled_text, export_failure_text, first_publish_question, import_failure, indented,
    no_commits_text, no_terminal_text, no_upstream_branch_text, not_imported_text,
    not_published_text, nothing_exists_text, nothing_left_text, publish_failure_text,
    pull_in_progress_text, resolve_or_abort_text, short_text, stderr_text, unreachable_text,
    unrelated_text, view_failure_text,
};
use crate::sync_view::SyncViewErrorView;
use crate::text::{decimal_text, join_text, Text};

verus! {

/// Does `part` stand somewhere in `text`?
pub open spec fn mentions(text: Text, part: Text) -> bool {
    exists|i: int|
        0 <= i && i + part.len() <= text.len() && #[trigger] text.subrange(
            i,
            i + part.len() as int,
        ) == part
}

/// A text that is made of three parts mentions the one in the middle.
pub proof fn lemma_mentions(text: Text, before: Text, part: Text, after: Text)
    requires
        text =~= before + part + after,
    ensures
        mentions(text, part),
{
    let i = before.len() as int;
    assert(text.subrange(i, i + part.len() as int) =~= part);
}

/// An unreachable source is named as what it is, upstream or remote, and what git said follows.
pub proof fn law_an_unreachable_source_is_named(subrepo: ResolvedSubrepoView, err: GitErrorView)
    ensures
        mentions(
            unreachable_text(subrepo, err),
            subrepo.name + ": cannot reach "@
                + (if subrepo.upstream is None {
                "remote"@
            } else {
                "upstream"@
            })
                + " "@ + pulled_from(subrepo),
        ),
        mentions(
            unreachable_text(subrepo, err),
            stderr_text(err),
        ),
{
    let text = unreachable_text(subrepo, err);
    lemma_mentions(
        text,
        Seq::<char>::empty(),
        subrepo.name + ": cannot reach "@
                + (if subrepo.upstream is None {
                "remote"@
            } else {
                "upstream"@
            })
                + " "@ + pulled_from(subrepo),
        "\n"@ + stderr_text(err),
    );
    lemma_mentions(
        text,
        subrepo.name + ": cannot reach "@
                + (if subrepo.upstream is None {
                "remote"@
            } else {
                "upstream"@
            })
                + " "@ + pulled_from(subrepo) + "\n"@,
        stderr_text(err),
        Seq::<char>::empty(),
    );
}

/// Where nothing exists yet, both ends are named, with the path that has no files and the branch
/// that is not there, and both ways out: a push by name, an attach by path.
pub proof fn law_what_does_not_exist_is_named(subrepo: ResolvedSubrepoView)
    ensures
        mentions(
            nothing_exists_text(subrepo),
            subrepo.name,
        ),
        mentions(
            nothing_exists_text(subrepo),
            subrepo.path + "/ has no committed files at HEAD, and "@,
        ),
        mentions(
            nothing_exists_text(subrepo),
            pulled_from(subrepo) + " has no "@ + subrepo.branch
                + " branch.\nCommit something under "@,
        ),
        mentions(
            nothing_exists_text(subrepo),
            subrepo.path + "/ and run `monosplice push "@ + subrepo.name,
        ),
        mentions(
            nothing_exists_text(subrepo),
            " --yes` to publish it, or run `monosplice attach "@ + subrepo.path
                + "` once the remote has content."@,
        ),
{
    let text = nothing_exists_text(subrepo);
    lemma_mentions(
        text,
        Seq::<char>::empty(),
        subrepo.name,
        ": nothing exists yet — "@ + subrepo.path
                + "/ has no committed files at HEAD, and "@ + pulled_from(subrepo)
                + " has no "@ + subrepo.branch + " branch.\nCommit something under "@
                + subrepo.path + "/ and run `monosplice push "@ + subrepo.name
                + " --yes` to publish it, or run `monosplice attach "@ + subrepo.path
                + "` once the remote has content."@,
    );
    lemma_mentions(
        text,
        subrepo.name + ": nothing exists yet — "@,
        subrepo.path + "/ has no committed files at HEAD, and "@,
        pulled_from(subrepo) + " has no "@ + subrepo.branch
                + " branch.\nCommit something under "@ + subrepo.path
                + "/ and run `monosplice push "@ + subrepo.name
                + " --yes` to publish it, or run `monosplice attach "@ + subrepo.path
                + "` once the remote has content."@,
    );
    lemma_mentions(
        text,
        subrepo.name + ": nothing exists yet — "@ + subrepo.path
                + "/ has no committed files at HEAD, and "@,
        pulled_from(subrepo) + " has no "@ + subrepo.branch
                + " branch.\nCommit something under "@,
        subrepo.path + "/ and run `monosplice push "@ + subrepo.name
                + " --yes` to publish it, or run `monosplice attach "@ + subrepo.path
                + "` once the remote has content."@,
    );
    lemma_mentions(
        text,
        subrepo.name + ": nothing exists yet — "@ + subrepo.path
                + "/ has no committed files at HEAD, and "@ + pulled_from(subrepo)
                + " has no "@ + subrepo.branch + " branch.\nCommit something under "@,
        subrepo.path + "/ and run `monosplice push "@ + subrepo.name,
        " --yes` to publish it, or run `monosplice attach "@ + subrepo.path
                + "` once the remote has content."@,
    );
    lemma_mentions(
        text,
        subrepo.name + ": nothing exists yet — "@ + subrepo.path
                + "/ has no committed files at HEAD, and "@ + pulled_from(subrepo)
                + " has no "@ + subrepo.branch + " branch.\nCommit something under "@
                + subrepo.path + "/ and run `monosplice push "@ + subrepo.name,
        " --yes` to publish it, or run `monosplice attach "@ + subrepo.path
                + "` once the remote has content."@,
        Seq::<char>::empty(),
    );
}

/// An unrelated branch is named with the repository that it is pulled from, the consequence is
/// said, and the way out is an attach by path.
pub proof fn law_an_unrelated_source_is_named(subrepo: ResolvedSubrepoView, consequence: Text)
    ensures
        mentions(
            unrelated_text(subrepo, consequence),
            subrepo.name + ": "@ + pulled_from(subrepo) + " ("@ + subrepo.branch,
        ),
        mentions(
            unrelated_text(subrepo, consequence),
            consequence
                + " To connect the two repositories, run:\n  monosplice attach "@
                + subrepo.path,
        ),
{
    let text = unrelated_text(subrepo, consequence);
    lemma_mentions(
        text,
        Seq::<char>::empty(),
        subrepo.name + ": "@ + pulled_from(subrepo) + " ("@ + subrepo.branch,
        ") has history that is unrelated to this monorepo — no commit on either side references the other.\n"@
                + consequence
                + " To connect the two repositories, run:\n  monosplice attach "@
                + subrepo.path,
    );
    lemma_mentions(
        text,
        subrepo.name + ": "@ + pulled_from(subrepo) + " ("@ + subrepo.branch
                + ") has history that is unrelated to this monorepo — no commit on either side references the other.\n"@,
        consequence
                + " To connect the two repositories, run:\n  monosplice attach "@
                + subrepo.path,
        Seq::<char>::empty(),
    );
}

/// A missing upstream branch is named with its upstream, and so is the remote that the path could
/// be published to instead.
pub proof fn law_a_missing_upstream_branch_is_named(subrepo: ResolvedSubrepoView)
    requires
        subrepo.upstream is Some,
    ensures
        mentions(
            no_upstream_branch_text(subrepo),
            subrepo.name + ": upstream "@ + pulled_from(subrepo) + " has no "@
                + subrepo.branch,
        ),
        mentions(
            no_upstream_branch_text(subrepo),
            subrepo.path + "/ to "@ + subrepo.remote,
        ),
        mentions(
            no_upstream_branch_text(subrepo),
            " directly:\n  monosplice push "@ + subrepo.name + " --yes"@,
        ),
{
    let text = no_upstream_branch_text(subrepo);
    lemma_mentions(
        text,
        Seq::<char>::empty(),
        subrepo.name + ": upstream "@ + pulled_from(subrepo) + " has no "@
                + subrepo.branch,
        " branch, so monosplice has nothing to base the fork branch on.\nNothing was changed. Fix `upstream` or `branch` in your config, or drop `upstream` to publish "@
                + subrepo.path + "/ to "@ + subrepo.remote
                + " directly:\n  monosplice push "@ + subrepo.name + " --yes"@,
    );
    lemma_mentions(
        text,
        subrepo.name + ": upstream "@ + pulled_from(subrepo) + " has no "@
                + subrepo.branch
                + " branch, so monosplice has nothing to base the fork branch on.\nNothing was changed. Fix `upstream` or `branch` in your config, or drop `upstream` to publish "@,
        subrepo.path + "/ to "@ + subrepo.remote,
        " directly:\n  monosplice push "@ + subrepo.name + " --yes"@,
    );
    lemma_mentions(
        text,
        subrepo.name + ": upstream "@ + pulled_from(subrepo) + " has no "@
                + subrepo.branch
                + " branch, so monosplice has nothing to base the fork branch on.\nNothing was changed. Fix `upstream` or `branch` in your config, or drop `upstream` to publish "@
                + subrepo.path + "/ to "@ + subrepo.remote,
        " directly:\n  monosplice push "@ + subrepo.name + " --yes"@,
        Seq::<char>::empty(),
    );
}

/// A subrepo that is not published is named with its remote and its branch, and the way out is a
/// push by name.
pub proof fn law_an_unpublished_subrepo_is_named(subrepo: ResolvedSubrepoView)
    ensures
        mentions(
            not_published_text(subrepo),
            subrepo.name + ": "@ + subrepo.remote + " has no "@ + subrepo.branch,
        ),
        mentions(
            not_published_text(subrepo),
            " branch — this subrepo has not been published yet.\nRun `monosplice push "@
                + subrepo.name + " --yes` to publish "@ + subrepo.path
                + "/ for the first time."@,
        ),
{
    let text = not_published_text(subrepo);
    lemma_mentions(
        text,
        Seq::<char>::empty(),
        subrepo.name + ": "@ + subrepo.remote + " has no "@ + subrepo.branch,
        " branch — this subrepo has not been published yet.\nRun `monosplice push "@
                + subrepo.name + " --yes` to publish "@ + subrepo.path
                + "/ for the first time."@,
    );
    lemma_mentions(
        text,
        subrepo.name + ": "@ + subrepo.remote + " has no "@ + subrepo.branch,
        " branch — this subrepo has not been published yet.\nRun `monosplice push "@
                + subrepo.name + " --yes` to publish "@ + subrepo.path
                + "/ for the first time."@,
        Seq::<char>::empty(),
    );
}

/// An unfinished pull is named, and both ways out of it.
pub proof fn law_an_unfinished_pull_is_named(subrepo: Text, continue_command: Text)
    ensures
        mentions(
            pull_in_progress_text(subrepo, Some(continue_command)),
            "A pull of "@ + subrepo,
        ),
        mentions(
            pull_in_progress_text(subrepo, Some(continue_command)),
            "  "@ + continue_command,
        ),
{
    let text = pull_in_progress_text(subrepo, Some(continue_command));
    lemma_mentions(
        text,
        Seq::<char>::empty(),
        "A pull of "@ + subrepo,
        " is already in progress.\nNothing was changed. Resolve the conflict, `git add` the files, then run:\n"@
                + "  "@ + continue_command
                + "\nTo abandon the import instead, restoring the monorepo to its pre-pull state:\n  monosplice pull --abort"@,
    );
    lemma_mentions(
        text,
        "A pull of "@ + subrepo
                + " is already in progress.\nNothing was changed. Resolve the conflict, `git add` the files, then run:\n"@,
        "  "@ + continue_command,
        "\nTo abandon the import instead, restoring the monorepo to its pre-pull state:\n  monosplice pull --abort"@,
    );
}

/// What is left to import is counted, with the repository that it is on, and the way out is a pull
/// by name.
pub proof fn law_what_is_left_to_import_is_counted(subrepo: ResolvedSubrepoView, pending: nat)
    ensures
        mentions(
            not_imported_text(subrepo, pending),
            subrepo.name + ": "@ + decimal_text(pending) + " commit(s) on "@
                + pulled_from(subrepo),
        ),
        mentions(
            not_imported_text(subrepo, pending),
            " have not been imported yet.\nNothing was pushed. Run `monosplice pull "@
                + subrepo.name + "` first, then push again."@,
        ),
{
    let text = not_imported_text(subrepo, pending);
    lemma_mentions(
        text,
        Seq::<char>::empty(),
        subrepo.name + ": "@ + decimal_text(pending) + " commit(s) on "@
                + pulled_from(subrepo),
        " have not been imported yet.\nNothing was pushed. Run `monosplice pull "@
                + subrepo.name + "` first, then push again."@,
    );
    lemma_mentions(
        text,
        subrepo.name + ": "@ + decimal_text(pending) + " commit(s) on "@
                + pulled_from(subrepo),
        " have not been imported yet.\nNothing was pushed. Run `monosplice pull "@
                + subrepo.name + "` first, then push again."@,
        Seq::<char>::empty(),
    );
}

/// The first-publish question names where it would publish, and what.
pub proof fn law_a_first_publish_question_names_its_target(subrepo: ResolvedSubrepoView)
    ensures
        mentions(
            first_publish_question(subrepo),
            subrepo.remote + " ("@ + subrepo.branch + ") is empty. Publish "@,
        ),
        mentions(
            first_publish_question(subrepo),
            ") is empty. Publish "@ + subrepo.name
                + "'s current tree as its first commit there? [y/N] "@,
        ),
{
    let text = first_publish_question(subrepo);
    lemma_mentions(
        text,
        Seq::<char>::empty(),
        subrepo.remote + " ("@ + subrepo.branch + ") is empty. Publish "@,
        subrepo.name + "'s current tree as its first commit there? [y/N] "@,
    );
    lemma_mentions(
        text,
        subrepo.remote + " ("@ + subrepo.branch,
        ") is empty. Publish "@ + subrepo.name
                + "'s current tree as its first commit there? [y/N] "@,
        Seq::<char>::empty(),
    );
}

/// A cancelled publish names what was not published and where, and ends with the note that it was
/// given.
pub proof fn law_a_cancelled_publish_names_its_target(subrepo: ResolvedSubrepoView, note: Text)
    ensures
        mentions(
            cancelled_text(subrepo, Some(note)),
            subrepo.name + ": cancelled — nothing was pushed to "@ + subrepo.remote,
        ),
        mentions(
            cancelled_text(subrepo, Some(note)),
            note,
        ),
{
    let text = cancelled_text(subrepo, Some(note));
    lemma_mentions(
        text,
        Seq::<char>::empty(),
        subrepo.name + ": cancelled — nothing was pushed to "@ + subrepo.remote,
        "."@ + note,
    );
    lemma_mentions(
        text,
        subrepo.name + ": cancelled — nothing was pushed to "@ + subrepo.remote
                + "."@,
        note,
        Seq::<char>::empty(),
    );
}

/// Without a terminal the refusal names what would be published and where, the state that it was
/// given, and the exact command.
pub proof fn law_a_publish_without_a_terminal_names_the_command(
    subrepo: ResolvedSubrepoView,
    note: Text,
)
    ensures
        mentions(
            no_terminal_text(subrepo, Some(note)),
            subrepo.name + ": "@ + subrepo.remote + " has no "@ + subrepo.branch,
        ),
        mentions(
            no_terminal_text(subrepo, Some(note)),
            " branch — this would be the first publish of "@ + subrepo.path,
        ),
        mentions(
            no_terminal_text(subrepo, Some(note)),
            note,
        ),
        mentions(
            no_terminal_text(subrepo, Some(note)),
            " Publishing to a standalone remote cannot be undone, so monosplice asks first; there is no terminal here to ask at. Run:\n  monosplice push "@
                + subrepo.name
                + " --yes\nAdd --export-history to replay every monorepo commit that touched "@
                + subrepo.path,
        ),
{
    let text = no_terminal_text(subrepo, Some(note));
    lemma_mentions(
        text,
        Seq::<char>::empty(),
        subrepo.name + ": "@ + subrepo.remote + " has no "@ + subrepo.branch,
        " branch — this would be the first publish of "@ + subrepo.path + "/.\n"@
                + note
                + " Publishing to a standalone remote cannot be undone, so monosplice asks first; there is no terminal here to ask at. Run:\n  monosplice push "@
                + subrepo.name
                + " --yes\nAdd --export-history to replay every monorepo commit that touched "@
                + subrepo.path + "/ instead of publishing one baseline commit."@,
    );
    lemma_mentions(
        text,
        subrepo.name + ": "@ + subrepo.remote + " has no "@ + subrepo.branch,
        " branch — this would be the first publish of "@ + subrepo.path,
        "/.\n"@ + note
                + " Publishing to a standalone remote cannot be undone, so monosplice asks first; there is no terminal here to ask at. Run:\n  monosplice push "@
                + subrepo.name
                + " --yes\nAdd --export-history to replay every monorepo commit that touched "@
                + subrepo.path + "/ instead of publishing one baseline commit."@,
    );
    lemma_mentions(
        text,
        subrepo.name + ": "@ + subrepo.remote + " has no "@ + subrepo.branch
                + " branch — this would be the first publish of "@ + subrepo.path + "/.\n"@,
        note,
        " Publishing to a standalone remote cannot be undone, so monosplice asks first; there is no terminal here to ask at. Run:\n  monosplice push "@
                + subrepo.name
                + " --yes\nAdd --export-history to replay every monorepo commit that touched "@
                + subrepo.path + "/ instead of publishing one baseline commit."@,
    );
    lemma_mentions(
        text,
        subrepo.name + ": "@ + subrepo.remote + " has no "@ + subrepo.branch
                + " branch — this would be the first publish of "@ + subrepo.path + "/.\n"@
                + note,
        " Publishing to a standalone remote cannot be undone, so monosplice asks first; there is no terminal here to ask at. Run:\n  monosplice push "@
                + subrepo.name
                + " --yes\nAdd --export-history to replay every monorepo commit that touched "@
                + subrepo.path,
        "/ instead of publishing one baseline commit."@,
    );
}

/// A repository without a commit is named, and what is to be committed before what is published.
pub proof fn law_a_repository_without_commits_is_named(root: Text, subrepo: ResolvedSubrepoView)
    ensures
        mentions(
            no_commits_text(root, subrepo),
            root + " has no commits yet — commit something under "@ + subrepo.path,
        ),
        mentions(
            no_commits_text(root, subrepo),
            "/ before publishing "@ + subrepo.name,
        ),
{
    let text = no_commits_text(root, subrepo);
    lemma_mentions(
        text,
        Seq::<char>::empty(),
        root + " has no commits yet — commit something under "@ + subrepo.path,
        "/ before publishing "@ + subrepo.name + "."@,
    );
    lemma_mentions(
        text,
        root + " has no commits yet — commit something under "@ + subrepo.path,
        "/ before publishing "@ + subrepo.name,
        "."@,
    );
}

/// Where the excludes leave nothing, the subrepo and its path are named.
pub proof fn law_an_empty_publish_is_named(subrepo: ResolvedSubrepoView)
    ensures
        mentions(
            nothing_left_text(subrepo),
            subrepo.name + ": nothing to publish from "@ + subrepo.path,
        ),
{
    let text = nothing_left_text(subrepo);
    lemma_mentions(
        text,
        Seq::<char>::empty(),
        subrepo.name + ": nothing to publish from "@ + subrepo.path,
        "/ after applying exclude patterns — nothing was pushed."@,
    );
}

/// A broken mapping is named: the public commit, the monorepo commit that it claims, and the remote
/// that nothing was pushed to.
pub proof fn law_a_broken_mapping_is_named(
    subrepo: ResolvedSubrepoView,
    pub_sha: Text,
    mono_sha: Text,
)
    ensures
        mentions(
            broken_mapping_text(subrepo, pub_sha, mono_sha),
            subrepo.name + ": standalone commit "@ + pub_sha + " carries "@
                + "Monosplice-Source"@ + ": "@ + mono_sha,
        ),
        mentions(
            broken_mapping_text(subrepo, pub_sha, mono_sha),
            ", but that monorepo commit does not exist in this clone.\nThe commit mapping is broken, so monosplice cannot tell what is already published and will not export on top of it. Nothing was pushed to "@
                + subrepo.remote,
        ),
{
    let text = broken_mapping_text(subrepo, pub_sha, mono_sha);
    lemma_mentions(
        text,
        Seq::<char>::empty(),
        subrepo.name + ": standalone commit "@ + pub_sha + " carries "@
                + "Monosplice-Source"@ + ": "@ + mono_sha,
        ", but that monorepo commit does not exist in this clone.\nThe commit mapping is broken, so monosplice cannot tell what is already published and will not export on top of it. Nothing was pushed to "@
                + subrepo.remote + ".\nRun `monosplice doctor` to see the full picture."@,
    );
    lemma_mentions(
        text,
        subrepo.name + ": standalone commit "@ + pub_sha + " carries "@
                + "Monosplice-Source"@ + ": "@ + mono_sha,
        ", but that monorepo commit does not exist in this clone.\nThe commit mapping is broken, so monosplice cannot tell what is already published and will not export on top of it. Nothing was pushed to "@
                + subrepo.remote,
        ".\nRun `monosplice doctor` to see the full picture."@,
    );
}

/// A rewritten anchor is named, and the remote that nothing was pushed to.
pub proof fn law_a_rewritten_anchor_is_named(subrepo: ResolvedSubrepoView, last: Text)
    ensures
        mentions(
            rewritten_text(subrepo, Some(last)),
            subrepo.name + ": the last exported monorepo commit "@ + last
                + " is no longer an ancestor of HEAD.\nMonorepo history was rewritten (rebase, amend or force-push) underneath it, so monosplice cannot tell which commits are new. Nothing was pushed to "@,
        ),
        mentions(
            rewritten_text(subrepo, Some(last)),
            " is no longer an ancestor of HEAD.\nMonorepo history was rewritten (rebase, amend or force-push) underneath it, so monosplice cannot tell which commits are new. Nothing was pushed to "@
                + subrepo.remote,
        ),
{
    let text = rewritten_text(subrepo, Some(last));
    lemma_mentions(
        text,
        Seq::<char>::empty(),
        subrepo.name + ": the last exported monorepo commit "@ + last
                + " is no longer an ancestor of HEAD.\nMonorepo history was rewritten (rebase, amend or force-push) underneath it, so monosplice cannot tell which commits are new. Nothing was pushed to "@,
        subrepo.remote
                + ".\nRun `monosplice doctor` for details, then restore that commit (`git reflog`) before pushing again."@,
    );
    lemma_mentions(
        text,
        subrepo.name + ": the last exported monorepo commit "@ + last,
        " is no longer an ancestor of HEAD.\nMonorepo history was rewritten (rebase, amend or force-push) underneath it, so monosplice cannot tell which commits are new. Nothing was pushed to "@
                + subrepo.remote,
        ".\nRun `monosplice doctor` for details, then restore that commit (`git reflog`) before pushing again."@,
    );
}

/// A recovery names the commit that was lost and the one that takes its place, in that order, and
/// counts the commits that would do as well.
pub proof fn law_a_recovered_anchor_is_named(recovery: AnchorRecoveryView, name: Text)
    requires
        recovery.also_matching > 0,
    ensures
        mentions(
            recovery.message(name),
            name + ": recovered anchor: "@ + recovery.missing + " → "@
                + recovery.recovered + " (identical subrepo tree after history rewrite)"@,
        ),
        mentions(
            recovery.message(name),
            " — newest of "@ + decimal_text((recovery.also_matching + 1) as nat)
                + " adjacent commits publishing that tree"@,
        ),
{
    let text = recovery.message(name);
    lemma_mentions(
        text,
        Seq::<char>::empty(),
        name + ": recovered anchor: "@ + recovery.missing + " → "@
                + recovery.recovered + " (identical subrepo tree after history rewrite)"@,
        " — newest of "@ + decimal_text((recovery.also_matching + 1) as nat)
                + " adjacent commits publishing that tree"@,
    );
    lemma_mentions(
        text,
        name + ": recovered anchor: "@ + recovery.missing + " → "@
                + recovery.recovered + " (identical subrepo tree after history rewrite)"@,
        " — newest of "@ + decimal_text((recovery.also_matching + 1) as nat)
                + " adjacent commits publishing that tree"@,
        Seq::<char>::empty(),
    );
}

/// A git error names the command, all of it, and how it ended, and what git said.
pub proof fn law_a_git_error_is_told(err: GitErrorView, stderr: Text)
    ensures
        mentions(
            err.message_with(stderr),
            "git "@ + join_text(err.git_args, " "@) + " failed (exit "@
                + err.code_text(),
        ),
        mentions(
            err.message_with(stderr),
            stderr,
        ),
{
    let text = err.message_with(stderr);
    lemma_mentions(
        text,
        Seq::<char>::empty(),
        "git "@ + join_text(err.git_args, " "@) + " failed (exit "@
                + err.code_text(),
        ")\n"@ + stderr,
    );
    lemma_mentions(
        text,
        "git "@ + join_text(err.git_args, " "@) + " failed (exit "@
                + err.code_text() + ")\n"@,
        stderr,
        Seq::<char>::empty(),
    );
}

/// A rejection names the hook, the subrepo, the commit and what the hook said.
pub proof fn law_a_rejection_is_told(err: HookErrorView)
    ensures
        mentions(
            err.text(),
            err.hook + " hook rejected "@ + err.subrepo + " commit "@ + err.mono_sha
                + ": "@ + err.detail,
        ),
{
    let text = err.text();
    lemma_mentions(
        text,
        Seq::<char>::empty(),
        err.hook + " hook rejected "@ + err.subrepo + " commit "@ + err.mono_sha
                + ": "@ + err.detail,
        Seq::<char>::empty(),
    );
}

/// A failed import keeps to its own kind: a conflict halts everything, names the commit, shortened,
/// and every file that conflicts, and shows the way on that it was given; any other failure is told
/// under the subrepo's name and halts nothing.
pub proof fn law_an_import_failure_is_told(
    subrepo: ResolvedSubrepoView,
    err: ImportErrorView,
    continue_command: Option<Text>,
)
    ensures
        import_failure(subrepo, err, continue_command).halt <==> err is Conflict,
        err matches ImportErrorView::Conflict(conflict) ==> {
            let message = import_failure(subrepo, err, continue_command).message;
            &&& mentions(message, subrepo.name + ": importing "@ + short_text(conflict.pub_sha))
            &&& mentions(message, join_text(indented(conflict.conflicts), "\n"@))
            &&& mentions(message, resolve_or_abort_text(continue_command))
        },
        err matches ImportErrorView::Git(cause) ==> import_failure(
            subrepo,
            err,
            continue_command,
        ).message == subrepo.name + ": "@ + cause.message_with(stderr_text(cause)),
        err matches ImportErrorView::Other(detail) ==> import_failure(
            subrepo,
            err,
            continue_command,
        ).message == subrepo.name + ": "@ + detail,
{
    match err {
        ImportErrorView::Conflict(conflict) => {
            let message = import_failure(subrepo, err, continue_command).message;
            let head = subrepo.name + ": importing "@ + short_text(conflict.pub_sha);
            let mid = " conflicts with local changes.\nConflicted files:\n"@;
            let files = join_text(indented(conflict.conflicts), "\n"@);
            let tail = "\nEdit each file to resolve the markers, `git add` it, then run:\n"@;
            let way = resolve_or_abort_text(continue_command);
            lemma_mentions(message, Seq::empty(), head, mid + files + tail + way);
            lemma_mentions(message, head + mid, files, tail + way);
            lemma_mentions(message, head + mid + files + tail, way, Seq::empty());
        },
        _ => {},
    }
}

/// A failed export is told under the subrepo's name. A git failure in triangular mode is the
/// fork's, and the fork and its push branch are named; elsewhere it is git's own message; and
/// whatever else failed is told with the remote that nothing was pushed to.
pub proof fn law_a_failed_export_is_told(
    subrepo: ResolvedSubrepoView,
    err: ExportErrorView,
    cause: GitErrorView,
)
    ensures
        err == ExportErrorView::Git(cause) || err == ExportErrorView::Filter(
            FilterErrorView::Git(cause),
        ) ==> {
            &&& publish_failure_text(subrepo, err) == subrepo.name + ": "@ + cause.message_with(
                stderr_text(cause),
            )
            &&& subrepo.upstream is None ==> export_failure_text(subrepo, err)
                == publish_failure_text(subrepo, err)
            &&& subrepo.upstream is Some ==> mentions(
                export_failure_text(subrepo, err),
                subrepo.name + ": cannot push to fork remote "@ + subrepo.remote + " ("@
                    + subrepo.push_branch + ")\n"@,
            )
        },
        !(err is Git) && !(err matches ExportErrorView::Filter(FilterErrorView::Git(_))) ==> {
            &&& publish_failure_text(subrepo, err) == subrepo.name + ": "@ + err.text() + "\n"@ + (
            "Nothing was pushed to "@ + subrepo.remote + "."@)
            &&& export_failure_text(subrepo, err) == publish_failure_text(subrepo, err)
        },
{
    if err == ExportErrorView::Git(cause) || err == ExportErrorView::Filter(
        FilterErrorView::Git(cause),
    ) {
        if subrepo.upstream is Some {
            let head = subrepo.name + ": cannot push to fork remote "@ + subrepo.remote + " ("@
                + subrepo.push_branch + ")\n"@;
            let said = if stderr_text(cause).len() == 0 {
                cause.message_with(stderr_text(cause))
            } else {
                stderr_text(cause)
            };
            let tail =
                "\nNothing was pushed. Fix `remote` in your config or your network/credentials, then run `monosplice push "@
                + subrepo.name + "` again."@;
            lemma_mentions(export_failure_text(subrepo, err), Seq::empty(), head, said + tail);
        }
    }
}

/// An error that wraps another one reads like it.
pub proof fn law_a_wrapped_error_reads_like_the_one_inside(
    subrepo: ResolvedSubrepoView,
    hook: HookErrorView,
    git: GitErrorView,
    detail: Text,
)
    ensures
        FilterErrorView::Hook(hook).text() == hook.text(),
        FilterErrorView::Git(git).text() == git.text(),
        FilterErrorView::Other(detail).text() == detail,
        ExportErrorView::Hook(hook).text() == hook.text(),
        ExportErrorView::Git(git).text() == git.text(),
        ExportErrorView::Filter(FilterErrorView::Hook(hook)).text() == hook.text(),
        ExportErrorView::Filter(FilterErrorView::Git(git)).text() == git.text(),
        ExportErrorView::Filter(FilterErrorView::Other(detail)).text() == detail,
        ExportErrorView::Other(detail).text() == detail,
        SyncViewErrorView::Git(git).text() == git.text(),
        git.text() == git.message_with(git.stderr),
        view_failure_text(subrepo, SyncViewErrorView::Git(git)) == unreachable_text(subrepo, git),
        forall|name: Text| #[trigger]
            view_failure_text(subrepo, SyncViewErrorView::NoFetchYet { subrepo: name }) == name
                + ": no fetch yet — run without --offline first"@,
{
}

} // verus!
