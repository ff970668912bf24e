//! The per-subrepo operations `push`, `pull`, `sync`, `status` and `tag` share, and the wording
//! they all speak with.
//!
//! Nothing here prints: a refusal is a [`SubrepoFailure`], which the single-subrepo commands
//! turn into a [`crate::report::Failure`] and the multi-subrepo walks collect.

use vstd::prelude::*;
use vstd::string::*;
use crate::config::{ResolvedSubrepo, ResolvedSubrepoView};
use crate::exporter::{
    ask_touching, broken_refusal, check_export_preconditions, check_export_preconditions_step,
    check_mapping, plan_export, plan_export_step, publish_baseline, publish_baseline_step,
    publish_full_history, publish_full_history_step, recover_export_anchor,
    recover_export_anchor_step, run_export, run_export_step, touching_request, ExportCandidate,
    ExportCandidateView, ExportError, ExportErrorView,
};
use crate::filter::{has_committed_files, has_committed_files_step, FilterError, FilterErrorView};
use crate::git::{clone_texts, GitError, GitErrorView};
use crate::importer::{ImportError, ImportErrorView, PullSequencer};
use crate::index::{find, index_of, indexes, lookup};
use crate::list::{lemma_take_next, push};
use crate::report::{SubrepoFailure, SubrepoFailureView};
use crate::sync_view::{
    load_sync_view, load_sync_view_step, preview_sync_view, preview_sync_view_step, pull_source,
    SyncView, SyncViewError, SyncViewErrorView, SyncViewOptions, SyncViewValue,
};
use crate::talk::{
    answer_at, confirmed_at, flag_at, imported_at, noted_at, refusal_at, rev_at, shas_at, step,
    step_result, subjects_at, ReplyView, Request, RequestView, Step, Talk, Turn,
};
use crate::text::{
    chars_of, decimal, decimal_text, join, join_text, opt_text, strip_last, strip_last_text, trim,
    trim_end_text, trim_start_text, Text,
};

verus! {

/// The first ten characters.
pub open spec fn short_text(sha: Text) -> Text {
    if sha.len() > 10 {
        sha.take(10)
    } else {
        sha
    }
}

/// The first ten characters of a sha, the length every message abbreviates to.
pub fn short(sha: &str) -> (out: &str)
    ensures
        out@ == short_text(sha@),
{
    // Characters, not bytes: `ls-remote` output reaches here and must never panic.
    let cs = chars_of(sha);
    if cs.len() > 10 {
        let out = sha.substring_char(0, 10);
        assert(out@ =~= sha@.take(10));
        out
    } else {
        sha
    }
}

/// git's stderr as a message shows it.
pub open spec fn stderr_text(err: GitErrorView) -> Text {
    strip_last_text(strip_last_text(err.stderr, '\n'), '\r')
}

/// git's stderr as every message shows it: without the one newline at its end, so that a
/// message does not end in a blank line.
pub fn git_stderr(err: &GitError) -> (out: String)
    ensures
        out@ == stderr_text(err.deep_view()),
{
    strip_last(strip_last(err.stderr.as_str(), '\n'), '\r').to_string()
}

/// A [`GitError`] in words, with the same strip as [`git_stderr`].
pub fn git_message(err: &GitError) -> (out: String)
    ensures
        out@ == err.deep_view().message_with(stderr_text(err.deep_view())),
{
    err.message_with(git_stderr(err).as_str())
}

/// An error that becomes the whole message, unadorned.
pub fn raw_failure(message: String) -> (out: SubrepoFailure)
    ensures
        out.deep_view() == SubrepoFailureView::of(message@),
{
    SubrepoFailure::new(message)
}

impl ExportErrorView {
    /// The git error underneath an export failure, if that is what it is.
    pub open spec fn git_cause(self) -> Option<GitErrorView> {
        match self {
            ExportErrorView::Git(err) => Some(err),
            ExportErrorView::Filter(FilterErrorView::Git(err)) => Some(err),
            _ => None,
        }
    }
}

/// The git error underneath an export failure, if that is what it is. Resolving a subtree wraps
/// git errors in [`FilterError`]; for reporting the two are the same case.
pub fn export_git_cause(err: &ExportError) -> (out: Option<&GitError>)
    ensures
        match out {
            Some(cause) => err.deep_view().git_cause() == Some(cause.deep_view()),
            None => err.deep_view().git_cause() is None,
        },
{
    match err {
        ExportError::Git(err) => Some(err),
        ExportError::Filter(FilterError::Git(err)) => Some(err),
        _ => None,
    }
}

/// [`unreachable_source`] in words.
pub open spec fn unreachable_text(subrepo: ResolvedSubrepoView, err: GitErrorView) -> Text {
    subrepo.name + ": cannot reach "@ + (if subrepo.upstream is None {
        "remote"@
    } else {
        "upstream"@
    }) + " "@ + subrepo.source() + "\n"@ + stderr_text(err)
}

/// "cannot reach ...": the source repository is the one every sync decision is made against,
/// so in triangular mode this names upstream, never the fork.
pub fn unreachable_source(subrepo: &ResolvedSubrepo, err: &GitError) -> (out: SubrepoFailure)
    ensures
        out.deep_view() == SubrepoFailureView::of(
            unreachable_text(subrepo.deep_view(), err.deep_view()),
        ),
{
    let what = if subrepo.upstream.is_none() {
        "remote"
    } else {
        "upstream"
    };
    SubrepoFailure::new(
        subrepo.name.clone().concat(": cannot reach ").concat(what).concat(" ").concat(
            pull_source(subrepo),
        ).concat("\n").concat(git_stderr(err).as_str()),
    )
}

/// What a view that could not be derived reads like.
pub open spec fn view_failure_text(subrepo: ResolvedSubrepoView, err: SyncViewErrorView) -> Text {
    match err {
        SyncViewErrorView::Git(err) => unreachable_text(subrepo, err),
        _ => err.text(),
    }
}

fn view_failure(subrepo: &ResolvedSubrepo, err: &SyncViewError) -> (out: SubrepoFailure)
    ensures
        out.deep_view() == SubrepoFailureView::of(
            view_failure_text(subrepo.deep_view(), err.deep_view()),
        ),
{
    match err {
        SyncViewError::Git(err) => unreachable_source(subrepo, err),
        // Only `status --offline` can produce this, and it handles the case itself before it
        // ever reaches here.
        _ => SubrepoFailure::new(err.to_string()),
    }
}

/// [`load_view`] as a dialogue.
pub open spec fn load_view_step(
    subrepo: ResolvedSubrepoView,
    offline: bool,
    log: Seq<ReplyView>,
    at: int,
) -> Step<Result<SyncViewValue, SubrepoFailureView>> {
    match load_sync_view_step(subrepo, offline, log, at) {
        Step::Ask(request) => Step::Ask(request),
        Step::Done(Ok(view), at) => Step::Done(Ok(view), at),
        Step::Done(Err(err), at) => Step::Done(
            Err(SubrepoFailureView::of(view_failure_text(subrepo, err))),
            at,
        ),
    }
}

/// Derive the sync view, turning an unreachable source repository into a user-facing error.
pub fn load_view<'a>(
    talk: &mut Talk<'a>,
    subrepo: &ResolvedSubrepo,
    opts: SyncViewOptions,
) -> (turn: Turn<Result<SyncView, SubrepoFailure>>)
    ensures
        final(talk).replies == old(talk).replies,
        step_result(turn, final(talk).at) == load_view_step(
            subrepo.deep_view(),
            opts.offline,
            old(talk).log(),
            old(talk).at as int,
        ),
{
    match load_sync_view(talk, subrepo, &opts)? {
        Ok(view) => Ok(Ok(view)),
        Err(err) => Ok(Err(view_failure(subrepo, &err))),
    }
}

/// [`nothing_exists_yet`] in words.
pub open spec fn nothing_exists_text(subrepo: ResolvedSubrepoView) -> Text {
    subrepo.name + ": nothing exists yet — "@ + subrepo.path
        + "/ has no committed files at HEAD, and "@ + subrepo.source() + " has no "@
        + subrepo.branch + " branch.\nCommit something under "@ + subrepo.path
        + "/ and run `monosplice push "@ + subrepo.name
        + " --yes` to publish it, or run `monosplice attach "@ + subrepo.path
        + "` once the remote has content."@
}

/// Neither side has anything: the one matrix cell where no command can help.
pub fn nothing_exists_yet(subrepo: &ResolvedSubrepo) -> (out: String)
    ensures
        out@ == nothing_exists_text(subrepo.deep_view()),
{
    subrepo.name.clone().concat(": nothing exists yet — ").concat(subrepo.path.as_str()).concat(
        "/ has no committed files at HEAD, and ",
    ).concat(pull_source(subrepo)).concat(" has no ").concat(subrepo.branch.as_str()).concat(
        " branch.\nCommit something under ",
    ).concat(subrepo.path.as_str()).concat("/ and run `monosplice push ").concat(
        subrepo.name.as_str(),
    ).concat(" --yes` to publish it, or run `monosplice attach ").concat(
        subrepo.path.as_str(),
    ).concat("` once the remote has content.")
}

/// [`unrelated_remote`] in words.
pub open spec fn unrelated_text(subrepo: ResolvedSubrepoView, consequence: Text) -> Text {
    subrepo.name + ": "@ + subrepo.source() + " ("@ + subrepo.branch
        + ") has history that is unrelated to this monorepo — no commit on either side references the other.\n"@
        + consequence + " To connect the two repositories, run:\n  monosplice attach "@
        + subrepo.path
}

/// The standalone branch has history, but nothing on either side references the other.
pub fn unrelated_remote(subrepo: &ResolvedSubrepo, consequence: &str) -> (out: String)
    ensures
        out@ == unrelated_text(subrepo.deep_view(), consequence@),
{
    subrepo.name.clone().concat(": ").concat(pull_source(subrepo)).concat(" (").concat(
        subrepo.branch.as_str(),
    ).concat(
        ") has history that is unrelated to this monorepo — no commit on either side references the other.\n",
    ).concat(consequence).concat(
        " To connect the two repositories, run:\n  monosplice attach ",
    ).concat(subrepo.path.as_str())
}

/// [`upstream_has_no_branch`] in words.
pub open spec fn no_upstream_branch_text(subrepo: ResolvedSubrepoView) -> Text {
    subrepo.name + ": upstream "@ + (match subrepo.upstream {
        Some(upstream) => upstream,
        None => ""@,
    }) + " has no "@ + subrepo.branch
        + " branch, so monosplice has nothing to base the fork branch on.\nNothing was changed. Fix `upstream` or `branch` in your config, or drop `upstream` to publish "@
        + subrepo.path + "/ to "@ + subrepo.remote + " directly:\n  monosplice push "@
        + subrepo.name + " --yes"@
}

/// Triangular first contact has no sensible answer: the fork branch is built *on* the upstream
/// head, so with no upstream branch there is nothing to base it on and publishing a fork from
/// scratch would defeat the point of the triangle.
pub fn upstream_has_no_branch(subrepo: &ResolvedSubrepo) -> (out: String)
    ensures
        out@ == no_upstream_branch_text(subrepo.deep_view()),
{
    let upstream = match &subrepo.upstream {
        Some(upstream) => upstream.as_str(),
        None => "",
    };
    subrepo.name.clone().concat(": upstream ").concat(upstream).concat(" has no ").concat(
        subrepo.branch.as_str(),
    ).concat(
        " branch, so monosplice has nothing to base the fork branch on.\nNothing was changed. Fix `upstream` or `branch` in your config, or drop `upstream` to publish ",
    ).concat(subrepo.path.as_str()).concat("/ to ").concat(subrepo.remote.as_str()).concat(
        " directly:\n  monosplice push ",
    ).concat(subrepo.name.as_str()).concat(" --yes")
}

/// HEAD, if it exists and has a committed file below the subrepo's path.
pub open spec fn head_with_files_step(
    subrepo: ResolvedSubrepoView,
    log: Seq<ReplyView>,
    at: int,
) -> Step<Option<Text>> {
    match rev_at(log, at) {
        None => Step::Ask(RequestView::RevParse { rev: "HEAD"@ }),
        Some(None) => Step::Done(None, at + 1),
        Some(Some(head)) => match has_committed_files_step(head, subrepo, log, at + 1) {
            Step::Ask(request) => Step::Ask(request),
            Step::Done(true, at) => Step::Done(Some(head), at),
            Step::Done(false, at) => Step::Done(None, at),
        },
    }
}

fn head_with_files<'a>(talk: &mut Talk<'a>, subrepo: &ResolvedSubrepo) -> (turn: Turn<
    Option<String>,
>)
    ensures
        final(talk).replies == old(talk).replies,
        step(turn, final(talk).at) == head_with_files_step(
            subrepo.deep_view(),
            old(talk).log(),
            old(talk).at as int,
        ),
{
    let head = match talk.rev() {
        None => return Err(Request::RevParse { rev: "HEAD".to_string() }),
        Some(None) => return Ok(None),
        Some(Some(head)) => head,
    };
    if has_committed_files(talk, head.as_str(), subrepo)? {
        Ok(Some(head.clone()))
    } else {
        Ok(None)
    }
}

/// Why nothing can be done with a subrepo that is not published yet.
pub open spec fn not_published_text(subrepo: ResolvedSubrepoView) -> Text {
    subrepo.name + ": "@ + subrepo.remote + " has no "@ + subrepo.branch
        + " branch — this subrepo has not been published yet.\nRun `monosplice push "@
        + subrepo.name + " --yes` to publish "@ + subrepo.path + "/ for the first time."@
}

/// [`require_published`] as a dialogue.
pub open spec fn require_published_step(
    subrepo: ResolvedSubrepoView,
    pub_head: Option<Text>,
    log: Seq<ReplyView>,
    at: int,
) -> Step<Result<(), SubrepoFailureView>> {
    if pub_head is Some {
        Step::Done(Ok(()), at)
    } else if subrepo.upstream is Some {
        Step::Done(Err(SubrepoFailureView::of(no_upstream_branch_text(subrepo))), at)
    } else {
        match head_with_files_step(subrepo, log, at) {
            Step::Ask(request) => Step::Ask(request),
            Step::Done(None, at) => Step::Done(
                Err(SubrepoFailureView::of(nothing_exists_text(subrepo))),
                at,
            ),
            Step::Done(Some(_), at) => Step::Done(
                Err(SubrepoFailureView::of(not_published_text(subrepo))),
                at,
            ),
        }
    }
}

/// Stop unless the standalone branch exists, distinguishing "not published" from "nothing at
/// all".
pub fn require_published<'a>(
    talk: &mut Talk<'a>,
    subrepo: &ResolvedSubrepo,
    view: &SyncView,
) -> (turn: Turn<Result<(), SubrepoFailure>>)
    ensures
        final(talk).replies == old(talk).replies,
        step_result(turn, final(talk).at) == require_published_step(
            subrepo.deep_view(),
            view.deep_view().pub_head,
            old(talk).log(),
            old(talk).at as int,
        ),
{
    if view.pub_head.is_some() {
        return Ok(Ok(()));
    }
    if subrepo.upstream.is_some() {
        return Ok(Err(SubrepoFailure::new(upstream_has_no_branch(subrepo))));
    }
    if head_with_files(talk, subrepo)?.is_none() {
        return Ok(Err(SubrepoFailure::new(nothing_exists_yet(subrepo))));
    }
    Ok(
        Err(
            SubrepoFailure::new(
                subrepo.name.clone().concat(": ").concat(subrepo.remote.as_str()).concat(
                    " has no ",
                ).concat(subrepo.branch.as_str()).concat(
                    " branch — this subrepo has not been published yet.\nRun `monosplice push ",
                ).concat(subrepo.name.as_str()).concat(" --yes` to publish ").concat(
                    subrepo.path.as_str(),
                ).concat("/ for the first time."),
            ),
        ),
    )
}

/// What `pull` calls itself when it offers to finish an interrupted import.
pub const PULL_CONTINUE: &'static str = "monosplice pull --continue";

/// [`resolve_or_abort`] in words.
pub open spec fn resolve_or_abort_text(continue_command: Option<Text>) -> Text {
    "  "@ + (match continue_command {
        Some(command) => command,
        None => PULL_CONTINUE@,
    })
        + "\nTo abandon the import instead, restoring the monorepo to its pre-pull state:\n  monosplice pull --abort"@
}

/// The two ways out of a conflicted import, named the same way everywhere. `sync` finishes its
/// own interrupted run, so it substitutes its own verb, but abort is always `pull --abort`:
/// there is one sequencer, and throwing it away is the same act whichever command wrote it.
pub fn resolve_or_abort(continue_command: Option<&str>) -> (out: String)
    ensures
        out@ == resolve_or_abort_text(opt_text(continue_command)),
{
    let command = match continue_command {
        Some(command) => command,
        None => PULL_CONTINUE,
    };
    "  ".to_string().concat(command).concat(
        "\nTo abandon the import instead, restoring the monorepo to its pre-pull state:\n  monosplice pull --abort",
    )
}

/// The two ways out, with `pull`'s wording: what every command but `sync` says.
pub fn resolve_or_abort_pull() -> (out: String)
    ensures
        out@ == resolve_or_abort_text(None),
{
    resolve_or_abort(None)
}

/// `--continue` with nothing to continue, worded identically wherever it is offered.
pub const NO_PULL_IN_PROGRESS: &'static str =
    "No pull is in progress — nothing to continue.\nRun `monosplice pull` to import new standalone-repo commits.";

/// [`pull_in_progress_message`] in words.
pub open spec fn pull_in_progress_text(subrepo: Text, continue_command: Option<Text>) -> Text {
    "A pull of "@ + subrepo
        + " is already in progress.\nNothing was changed. Resolve the conflict, `git add` the files, then run:\n"@
        + resolve_or_abort_text(continue_command)
}

/// Shared by `pull` and `sync`: neither may start while a sequencer sits on disk.
pub fn pull_in_progress_message(
    state: &PullSequencer,
    continue_command: Option<&str>,
) -> (out: String)
    ensures
        out@ == pull_in_progress_text(state.deep_view().subrepo, opt_text(continue_command)),
{
    "A pull of ".to_string().concat(state.subrepo.as_str()).concat(
        " is already in progress.\nNothing was changed. Resolve the conflict, `git add` the files, then run:\n",
    ).concat(resolve_or_abort(continue_command).as_str())
}

/// Lines, each set in by two spaces.
pub open spec fn indented(lines: Seq<Text>) -> Seq<Text> {
    lines.map_values(|line: Text| "  "@ + line)
}

fn indent(lines: &Vec<String>) -> (out: Vec<String>)
    ensures
        out.deep_view() == indented(lines.deep_view()),
{
    let mut out: Vec<String> = Vec::new();
    let ghost all = lines.deep_view();
    assert(out.deep_view() =~= indented(all.take(0)));
    let mut i: usize = 0;
    while i < lines.len()
        invariant
            all == lines.deep_view(),
            i <= lines.len(),
            out.deep_view() == indented(all.take(i as int)),
        decreases lines.len() - i,
    {
        push(&mut out, "  ".to_string().concat(lines[i].as_str()));
        proof {
            lemma_take_next(all, i as int);
            assert(out.deep_view() =~= indented(all.take(i + 1)));
        }
        i = i + 1;
    }
    assert(all.take(i as int) =~= all);
    out
}

/// The refusal that an import failure becomes.
pub open spec fn import_failure(
    subrepo: ResolvedSubrepoView,
    err: ImportErrorView,
    continue_command: Option<Text>,
) -> SubrepoFailureView {
    match err {
        ImportErrorView::Conflict(conflict) => SubrepoFailureView {
            message: subrepo.name + ": importing "@ + short_text(conflict.pub_sha)
                + " conflicts with local changes.\nConflicted files:\n"@ + join_text(
                indented(conflict.conflicts),
                "\n"@,
            ) + "\nEdit each file to resolve the markers, `git add` it, then run:\n"@
                + resolve_or_abort_text(continue_command),
            halt: true,
        },
        ImportErrorView::Git(err) => SubrepoFailureView::of(
            subrepo.name + ": "@ + err.message_with(stderr_text(err)),
        ),
        ImportErrorView::Other(detail) => SubrepoFailureView::of(subrepo.name + ": "@ + detail),
    }
}

/// Turn an import failure into the refusal the user reads. A conflict wrote the sequencer, and
/// only one of those can exist, so that one halts the whole run.
pub fn report_import_failure(
    subrepo: &ResolvedSubrepo,
    err: ImportError,
    continue_command: Option<&str>,
) -> (out: SubrepoFailure)
    ensures
        out.deep_view() == import_failure(
            subrepo.deep_view(),
            err.deep_view(),
            opt_text(continue_command),
        ),
{
    match err {
        ImportError::Conflict(conflict) => {
            let files = join(&indent(&conflict.conflicts), "\n");
            SubrepoFailure::halting(
                subrepo.name.clone().concat(": importing ").concat(
                    short(conflict.pub_sha.as_str()),
                ).concat(" conflicts with local changes.\nConflicted files:\n").concat(
                    files.as_str(),
                ).concat(
                    "\nEdit each file to resolve the markers, `git add` it, then run:\n",
                ).concat(resolve_or_abort(continue_command).as_str()),
            )
        },
        ImportError::Git(err) => SubrepoFailure::new(
            subrepo.name.clone().concat(": ").concat(git_message(&err).as_str()),
        ),
        ImportError::Other(detail) => SubrepoFailure::new(
            subrepo.name.clone().concat(": ").concat(detail.as_str()),
        ),
    }
}

/// A view of a subrepo that is published and related to the monorepo.
pub open spec fn related_view_step(
    subrepo: ResolvedSubrepoView,
    view: SyncViewValue,
    consequence: Text,
    log: Seq<ReplyView>,
    at: int,
) -> Step<Result<(), SubrepoFailureView>> {
    match require_published_step(subrepo, view.pub_head, log, at) {
        Step::Ask(request) => Step::Ask(request),
        Step::Done(Err(failure), at) => Step::Done(Err(failure), at),
        Step::Done(Ok(_), at) => if view.related {
            Step::Done(Ok(()), at)
        } else {
            Step::Done(Err(SubrepoFailureView::of(unrelated_text(subrepo, consequence))), at)
        },
    }
}

fn require_related<'a>(
    talk: &mut Talk<'a>,
    subrepo: &ResolvedSubrepo,
    view: &SyncView,
    consequence: &str,
) -> (turn: Turn<Result<(), SubrepoFailure>>)
    ensures
        final(talk).replies == old(talk).replies,
        step_result(turn, final(talk).at) == related_view_step(
            subrepo.deep_view(),
            view.deep_view(),
            consequence@,
            old(talk).log(),
            old(talk).at as int,
        ),
{
    match require_published(talk, subrepo, view)? {
        Ok(_) => {},
        Err(failure) => return Ok(Err(failure)),
    }
    if !view.related {
        return Ok(Err(SubrepoFailure::new(unrelated_remote(subrepo, consequence))));
    }
    Ok(Ok(()))
}

/// The import itself, once nothing stands against it but the work tree.
pub open spec fn import_commits_step(
    subrepo: ResolvedSubrepoView,
    shas: Seq<Text>,
    continue_command: Option<Text>,
    log: Seq<ReplyView>,
    at: int,
) -> Step<Result<usize, SubrepoFailureView>> {
    match refusal_at(log, at) {
        None => Step::Ask(
            RequestView::CheckImport { target: subrepo, retry: "monosplice pull "@ + subrepo.name },
        ),
        Some(Some(problem)) => Step::Done(Err(SubrepoFailureView::of(problem)), at + 1),
        Some(None) => match imported_at(log, at + 1) {
            None => Step::Ask(RequestView::RunImport { target: subrepo, shas }),
            Some(Err(err)) => Step::Done(
                Err(import_failure(subrepo, err, continue_command)),
                at + 2,
            ),
            Some(Ok(imported)) => Step::Done(Ok(imported.len() as usize), at + 2),
        },
    }
}

/// [`import_subrepo`] as a dialogue.
pub open spec fn import_subrepo_step(
    subrepo: ResolvedSubrepoView,
    continue_command: Option<Text>,
    log: Seq<ReplyView>,
    at: int,
) -> Step<Result<usize, SubrepoFailureView>> {
    match load_view_step(subrepo, false, log, at) {
        Step::Ask(request) => Step::Ask(request),
        Step::Done(Err(failure), at) => Step::Done(Err(failure), at),
        Step::Done(Ok(view), at) => match related_view_step(
            subrepo,
            view,
            "Nothing was imported."@,
            log,
            at,
        ) {
            Step::Ask(request) => Step::Ask(request),
            Step::Done(Err(failure), at) => Step::Done(Err(failure), at),
            Step::Done(Ok(_), at) => import_commits_step(
                subrepo,
                view.unreflected_pub,
                continue_command,
                log,
                at,
            ),
        },
    }
}

/// Import every unreflected standalone-repo commit. Returns how many landed.
pub fn import_subrepo<'a>(
    talk: &mut Talk<'a>,
    subrepo: &ResolvedSubrepo,
    continue_command: Option<&str>,
) -> (turn: Turn<Result<usize, SubrepoFailure>>)
    ensures
        final(talk).replies == old(talk).replies,
        step_result(turn, final(talk).at) == import_subrepo_step(
            subrepo.deep_view(),
            opt_text(continue_command),
            old(talk).log(),
            old(talk).at as int,
        ),
{
    let view = match load_view(talk, subrepo, SyncViewOptions { offline: false })? {
        Ok(view) => view,
        Err(failure) => return Ok(Err(failure)),
    };
    match require_related(talk, subrepo, &view, "Nothing was imported.")? {
        Ok(_) => {},
        Err(failure) => return Ok(Err(failure)),
    }
    match talk.refusal() {
        None => return Err(
            Request::CheckImport {
                target: subrepo.clone(),
                retry: "monosplice pull ".to_string().concat(subrepo.name.as_str()),
            },
        ),
        Some(Some(problem)) => return Ok(Err(SubrepoFailure::new(problem.clone()))),
        Some(None) => {},
    }
    match talk.imported() {
        None => Err(Request::RunImport { target: subrepo.clone(), shas: view.unreflected_pub }),
        Some(Err(err)) => Ok(Err(report_import_failure(subrepo, err.clone(), continue_command))),
        Some(Ok(imported)) => Ok(Ok(imported.len())),
    }
}

/// What one export run did, from the caller's point of view.
#[derive(Debug, Clone, Copy, PartialEq, Eq)]
pub struct ExportSummary {
    /// Commits written to the remote by this run.
    pub pushed: usize,
    /// Triangular only: commits the fork branch already carries byte-for-byte, so nothing was
    /// written. They stay "to push" until upstream merges them.
    pub awaiting: usize,
}

impl DeepView for ExportSummary {
    type V = ExportSummary;

    open spec fn deep_view(&self) -> ExportSummary {
        *self
    }
}

/// [`recover_anchor`] as a dialogue: its result, and the view that it leaves.
pub open spec fn recover_anchor_step(
    subrepo: ResolvedSubrepoView,
    view: SyncViewValue,
    log: Seq<ReplyView>,
    at: int,
) -> Step<Result<SyncViewValue, SubrepoFailureView>> {
    match recover_export_anchor_step(subrepo, view, log, at) {
        Step::Ask(request) => Step::Ask(request),
        Step::Done((Err(err), _), at) => Step::Done(Err(SubrepoFailureView::of(err.text())), at),
        Step::Done((Ok(None), view), at) => Step::Done(Ok(view), at),
        Step::Done((Ok(Some(recovery)), view), at) => if noted_at(log, at) {
            Step::Done(Ok(view), at + 1)
        } else {
            Step::Ask(RequestView::Warn { message: recovery.message(subrepo.name) })
        },
    }
}

/// Derive again an anchor that a history rewrite moved, and say so. A rebase that left the
/// subrepo tree byte-identical published exactly the right content under a sha that no longer
/// exists; adopting the commit that carries that tree today is bookkeeping, not a new decision,
/// so it is a notice rather than a question. When nothing matches, the view is untouched and
/// the caller's precondition check refuses exactly as it always did.
pub fn recover_anchor<'a>(
    talk: &mut Talk<'a>,
    subrepo: &ResolvedSubrepo,
    view: SyncView,
) -> (turn: Turn<Result<SyncView, SubrepoFailure>>)
    ensures
        final(talk).replies == old(talk).replies,
        step_result(turn, final(talk).at) == recover_anchor_step(
            subrepo.deep_view(),
            view.deep_view(),
            old(talk).log(),
            old(talk).at as int,
        ),
{
    let mut view = view;
    match recover_export_anchor(talk, subrepo, &mut view)? {
        Err(err) => Ok(Err(raw_failure(err.to_string()))),
        Ok(None) => Ok(Ok(view)),
        Ok(Some(recovery)) => if talk.noted() {
            Ok(Ok(view))
        } else {
            Err(Request::Warn { message: recovery.message(subrepo.name.as_str()) })
        },
    }
}

/// Why unimported standalone commits stop a push.
pub open spec fn not_imported_text(subrepo: ResolvedSubrepoView, pending: nat) -> Text {
    subrepo.name + ": "@ + decimal_text(pending) + " commit(s) on "@ + subrepo.source()
        + " have not been imported yet.\nNothing was pushed. Run `monosplice pull "@ + subrepo.name
        + "` first, then push again."@
}

/// From a view that an export may build on to its candidates, with nothing left to import.
pub open spec fn ready_candidates_step(
    subrepo: ResolvedSubrepoView,
    view: SyncViewValue,
    log: Seq<ReplyView>,
    at: int,
) -> Step<Result<Seq<ExportCandidateView>, SubrepoFailureView>> {
    if view.unreflected_pub.len() > 0 {
        Step::Done(
            Err(
                SubrepoFailureView::of(not_imported_text(subrepo, view.unreflected_pub.len())),
            ),
            at,
        )
    } else {
        match plan_export_step(subrepo, view, log, at) {
            Step::Ask(request) => Step::Ask(request),
            Step::Done(Err(err), at) => Step::Done(Err(SubrepoFailureView::of(err.text())), at),
            Step::Done(Ok(candidates), at) => Step::Done(Ok(candidates), at),
        }
    }
}

fn ready_candidates<'a>(talk: &mut Talk<'a>, subrepo: &ResolvedSubrepo, view: &SyncView) -> (turn:
    Turn<Result<Vec<ExportCandidate>, SubrepoFailure>>)
    ensures
        final(talk).replies == old(talk).replies,
        step_result(turn, final(talk).at) == ready_candidates_step(
            subrepo.deep_view(),
            view.deep_view(),
            old(talk).log(),
            old(talk).at as int,
        ),
{
    if view.unreflected_pub.len() > 0 {
        let pending = decimal(view.unreflected_pub.len() as u64);
        return Ok(
            Err(
                SubrepoFailure::new(
                    subrepo.name.clone().concat(": ").concat(pending.as_str()).concat(
                        " commit(s) on ",
                    ).concat(pull_source(subrepo)).concat(
                        " have not been imported yet.\nNothing was pushed. Run `monosplice pull ",
                    ).concat(subrepo.name.as_str()).concat("` first, then push again."),
                ),
            ),
        );
    }
    match plan_export(talk, subrepo, view)? {
        Ok(candidates) => Ok(Ok(candidates)),
        Err(err) => Ok(Err(raw_failure(err.to_string()))),
    }
}

/// From a related view to the candidates of a push: the anchor recovered, the mapping
/// trustworthy and nothing left to import.
pub open spec fn push_candidates_step(
    subrepo: ResolvedSubrepoView,
    view: SyncViewValue,
    log: Seq<ReplyView>,
    at: int,
) -> Step<Result<(SyncViewValue, Seq<ExportCandidateView>), SubrepoFailureView>> {
    match recover_anchor_step(subrepo, view, log, at) {
        Step::Ask(request) => Step::Ask(request),
        Step::Done(Err(failure), at) => Step::Done(Err(failure), at),
        Step::Done(Ok(view), at) => match check_export_preconditions_step(
            subrepo,
            view,
            log,
            at,
        ) {
            Step::Ask(request) => Step::Ask(request),
            Step::Done(Some(problem), at) => Step::Done(Err(SubrepoFailureView::of(problem)), at),
            Step::Done(None, at) => match ready_candidates_step(subrepo, view, log, at) {
                Step::Ask(request) => Step::Ask(request),
                Step::Done(Err(failure), at) => Step::Done(Err(failure), at),
                Step::Done(Ok(candidates), at) => Step::Done(Ok((view, candidates)), at),
            },
        },
    }
}

fn push_candidates<'a>(talk: &mut Talk<'a>, subrepo: &ResolvedSubrepo, view: SyncView) -> (turn:
    Turn<Result<(SyncView, Vec<ExportCandidate>), SubrepoFailure>>)
    ensures
        final(talk).replies == old(talk).replies,
        step_result(turn, final(talk).at) == push_candidates_step(
            subrepo.deep_view(),
            view.deep_view(),
            old(talk).log(),
            old(talk).at as int,
        ),
{
    let view = match recover_anchor(talk, subrepo, view)? {
        Ok(view) => view,
        Err(failure) => return Ok(Err(failure)),
    };
    match check_export_preconditions(talk, subrepo, &view)? {
        Some(problem) => return Ok(Err(SubrepoFailure::new(problem))),
        None => {},
    }
    match ready_candidates(talk, subrepo, &view)? {
        Ok(candidates) => Ok(Ok((view, candidates))),
        Err(failure) => Ok(Err(failure)),
    }
}

/// The consequence that a refused push names.
pub open spec fn nothing_pushed_text(subrepo: ResolvedSubrepoView) -> Text {
    "Nothing was pushed to "@ + subrepo.remote + "."@
}

fn nothing_pushed(subrepo: &ResolvedSubrepo) -> (out: String)
    ensures
        out@ == nothing_pushed_text(subrepo.deep_view()),
{
    "Nothing was pushed to ".to_string().concat(subrepo.remote.as_str()).concat(".")
}

/// What a failed export reads like. Everything up to the push is local, so in triangular mode
/// a git failure here is the fork's, never upstream's, which an export does not write to at all.
pub open spec fn export_failure_text(subrepo: ResolvedSubrepoView, err: ExportErrorView) -> Text {
    match err.git_cause() {
        Some(cause) => if subrepo.upstream is Some {
            subrepo.name + ": cannot push to fork remote "@ + subrepo.remote + " ("@
                + subrepo.push_branch + ")\n"@ + (if stderr_text(cause).len() == 0 {
                cause.message_with(stderr_text(cause))
            } else {
                stderr_text(cause)
            })
                + "\nNothing was pushed. Fix `remote` in your config or your network/credentials, then run `monosplice push "@
                + subrepo.name + "` again."@
        } else {
            subrepo.name + ": "@ + cause.message_with(stderr_text(cause))
        },
        None => subrepo.name + ": "@ + err.text() + "\n"@ + nothing_pushed_text(subrepo),
    }
}

fn export_failure(subrepo: &ResolvedSubrepo, err: &ExportError) -> (out: SubrepoFailure)
    ensures
        out.deep_view() == SubrepoFailureView::of(
            export_failure_text(subrepo.deep_view(), err.deep_view()),
        ),
{
    match export_git_cause(err) {
        Some(git_err) => if subrepo.upstream.is_some() {
            let stderr = git_stderr(git_err);
            let detail = if stderr.as_str().is_empty() {
                git_message(git_err)
            } else {
                stderr
            };
            SubrepoFailure::new(
                subrepo.name.clone().concat(": cannot push to fork remote ").concat(
                    subrepo.remote.as_str(),
                ).concat(" (").concat(subrepo.push_branch.as_str()).concat(")\n").concat(
                    detail.as_str(),
                ).concat(
                    "\nNothing was pushed. Fix `remote` in your config or your network/credentials, then run `monosplice push ",
                ).concat(subrepo.name.as_str()).concat("` again."),
            )
        } else {
            SubrepoFailure::new(
                subrepo.name.clone().concat(": ").concat(git_message(git_err).as_str()),
            )
        },
        None => SubrepoFailure::new(
            subrepo.name.clone().concat(": ").concat(err.to_string().as_str()).concat(
                "\n",
            ).concat(nothing_pushed(subrepo).as_str()),
        ),
    }
}

/// The summary of an export that wrote, or had no need to write, `exported` commits.
pub open spec fn export_summary(exported: nat, pushed: bool) -> ExportSummary {
    if pushed {
        ExportSummary { pushed: exported as usize, awaiting: 0 }
    } else {
        ExportSummary { pushed: 0, awaiting: exported as usize }
    }
}

/// [`export_subrepo`] as a dialogue, from the view on.
pub open spec fn export_view_step(
    subrepo: ResolvedSubrepoView,
    view: SyncViewValue,
    log: Seq<ReplyView>,
    at: int,
) -> Step<Result<ExportSummary, SubrepoFailureView>> {
    match related_view_step(subrepo, view, nothing_pushed_text(subrepo), log, at) {
        Step::Ask(request) => Step::Ask(request),
        Step::Done(Err(failure), at) => Step::Done(Err(failure), at),
        Step::Done(Ok(_), at) => match push_candidates_step(subrepo, view, log, at) {
            Step::Ask(request) => Step::Ask(request),
            Step::Done(Err(failure), at) => Step::Done(Err(failure), at),
            Step::Done(Ok((view, candidates)), at) => match run_export_step(
                subrepo,
                view.pub_head,
                view.tracking_ref,
                candidates,
                log,
                at,
            ) {
                Step::Ask(request) => Step::Ask(request),
                Step::Done(Err(err), at) => Step::Done(
                    Err(SubrepoFailureView::of(export_failure_text(subrepo, err))),
                    at,
                ),
                Step::Done(Ok(result), at) => Step::Done(
                    Ok(export_summary(result.exported.len(), result.pushed)),
                    at,
                ),
            },
        },
    }
}

/// [`export_subrepo`] as a dialogue.
pub open spec fn export_subrepo_step(
    subrepo: ResolvedSubrepoView,
    loaded: Option<SyncViewValue>,
    log: Seq<ReplyView>,
    at: int,
) -> Step<Result<ExportSummary, SubrepoFailureView>> {
    match loaded {
        Some(view) => export_view_step(subrepo, view, log, at),
        None => match load_view_step(subrepo, false, log, at) {
            Step::Ask(request) => Step::Ask(request),
            Step::Done(Err(failure), at) => Step::Done(Err(failure), at),
            Step::Done(Ok(view), at) => export_view_step(subrepo, view, log, at),
        },
    }
}

/// Export every pending monorepo commit.
pub fn export_subrepo<'a>(
    talk: &mut Talk<'a>,
    subrepo: &ResolvedSubrepo,
    loaded: Option<SyncView>,
) -> (turn: Turn<Result<ExportSummary, SubrepoFailure>>)
    ensures
        final(talk).replies == old(talk).replies,
        step_result(turn, final(talk).at) == export_subrepo_step(
            subrepo.deep_view(),
            loaded.deep_view(),
            old(talk).log(),
            old(talk).at as int,
        ),
{
    let view = match loaded {
        Some(view) => view,
        None => match load_view(talk, subrepo, SyncViewOptions { offline: false })? {
            Ok(view) => view,
            Err(failure) => return Ok(Err(failure)),
        },
    };
    match require_related(talk, subrepo, &view, nothing_pushed(subrepo).as_str())? {
        Ok(_) => {},
        Err(failure) => return Ok(Err(failure)),
    }
    let (view, candidates) = match push_candidates(talk, subrepo, view)? {
        Ok(ready) => ready,
        Err(failure) => return Ok(Err(failure)),
    };
    match run_export(talk, subrepo, &view, &candidates)? {
        Err(err) => Ok(Err(export_failure(subrepo, &err))),
        Ok(result) => if result.pushed {
            Ok(Ok(ExportSummary { pushed: result.exported.len(), awaiting: 0 }))
        } else {
            Ok(Ok(ExportSummary { pushed: 0, awaiting: result.exported.len() }))
        },
    }
}

// ---------------------------------------------------------------------------------------
// Dry runs. Everything below reads: but for mirroring the source branch, as every view does,
// nothing below writes an object, a ref or a file, and no hook runs.
// ---------------------------------------------------------------------------------------

/// One line of a dry run: the two fields a human scans a plan for.
#[derive(Debug, PartialEq, Eq)]
pub struct PendingCommit {
    pub sha: String,
    pub subject: String,
}

/// The value of a [`PendingCommit`].
#[verifier::ext_equal]
pub struct PendingCommitView {
    pub sha: Text,
    pub subject: Text,
}

impl DeepView for PendingCommit {
    type V = PendingCommitView;

    open spec fn deep_view(&self) -> PendingCommitView {
        PendingCommitView {
            sha: self.sha.deep_view(),
            subject: self.subject.deep_view(),
        }
    }
}

impl Clone for PendingCommit {
    fn clone(&self) -> (out: Self)
        ensures
            out.deep_view() == self.deep_view(),
    {
        PendingCommit {
            sha: self.sha.clone(),
            subject: self.subject.clone(),
        }
    }
}

/// The marker that keeps a dry run from being mistaken for a real one.
pub const DRY_RUN_NOTE: &'static str = "dry run — nothing written";

/// What a `--dry-run` found for one subrepo.
#[derive(Debug, PartialEq, Eq)]
pub enum DryRunPlan {
    Export { commits: Vec<PendingCommit> },
    Import { commits: Vec<PendingCommit> },
    /// The remote branch does not exist: the real push would publish it for the first time.
    FirstPublish { export_history: bool, commits: Vec<PendingCommit> },
}

/// The value of a [`DryRunPlan`].
#[verifier::ext_equal]
pub enum DryRunPlanView {
    Export { commits: Seq<PendingCommitView> },
    Import { commits: Seq<PendingCommitView> },
    FirstPublish { export_history: bool, commits: Seq<PendingCommitView> },
}

impl DeepView for DryRunPlan {
    type V = DryRunPlanView;

    open spec fn deep_view(&self) -> DryRunPlanView {
        match self {
            DryRunPlan::Export { commits } => DryRunPlanView::Export {
                commits: commits.deep_view(),
            },
            DryRunPlan::Import { commits } => DryRunPlanView::Import {
                commits: commits.deep_view(),
            },
            DryRunPlan::FirstPublish { export_history, commits } => DryRunPlanView::FirstPublish {
                export_history: *export_history,
                commits: commits.deep_view(),
            },
        }
    }
}

/// Clone each of the commits.
fn clone_pending(items: &Vec<PendingCommit>) -> (out: Vec<PendingCommit>)
    ensures
        out.deep_view() == items.deep_view(),
{
    let mut out: Vec<PendingCommit> = Vec::new();
    let mut i: usize = 0;
    while i < items.len()
        invariant
            i <= items.len(),
            out.deep_view() == items.deep_view().take(i as int),
        decreases items.len() - i,
    {
        proof {
            lemma_take_next(items.deep_view(), i as int);
        }
        push(&mut out, items[i].clone());
        i = i + 1;
    }
    assert(items.deep_view().take(i as int) =~= items.deep_view());
    out
}

impl Clone for DryRunPlan {
    fn clone(&self) -> (out: Self)
        ensures
            out.deep_view() == self.deep_view(),
    {
        match self {
            DryRunPlan::Export { commits } => DryRunPlan::Export {
                commits: clone_pending(commits),
            },
            DryRunPlan::Import { commits } => DryRunPlan::Import {
                commits: clone_pending(commits),
            },
            DryRunPlan::FirstPublish { export_history, commits } => DryRunPlan::FirstPublish {
                export_history: *export_history,
                commits: clone_pending(commits),
            },
        }
    }
}

impl DryRunPlan {
    /// The commits of the plan, whatever would become of them.
    pub fn commits(&self) -> (out: &Vec<PendingCommit>)
        ensures
            out.deep_view() == match self.deep_view() {
                DryRunPlanView::Export { commits } => commits,
                DryRunPlanView::Import { commits } => commits,
                DryRunPlanView::FirstPublish { commits, .. } => commits,
            },
    {
        match self {
            DryRunPlan::Export { commits } => commits,
            DryRunPlan::Import { commits } => commits,
            DryRunPlan::FirstPublish { commits, .. } => commits,
        }
    }
}

/// Commits with the subjects that were found for them.
pub open spec fn with_subjects(shas: Seq<Text>, subjects: Seq<(Text, Text)>) -> Seq<
    PendingCommitView,
> {
    shas.map_values(
        |sha: Text|
            PendingCommitView {
                sha,
                subject: match lookup(subjects, sha) {
                    Some(subject) => subject,
                    None => ""@,
                },
            },
    )
}

/// [`pending`] as a dialogue.
pub open spec fn pending_step(
    shas: Seq<Text>,
    log: Seq<ReplyView>,
    at: int,
) -> Step<Result<Seq<PendingCommitView>, SubrepoFailureView>> {
    match subjects_at(log, at) {
        None => Step::Ask(RequestView::CommitSubjects { shas }),
        Some(Err(err)) => Step::Done(
            Err(SubrepoFailureView::of(err.message_with(stderr_text(err)))),
            at + 1,
        ),
        Some(Ok(subjects)) => Step::Done(Ok(with_subjects(shas, subjects)), at + 1),
    }
}

/// Commits as a dry run shows them.
pub fn pending<'a>(talk: &mut Talk<'a>, shas: &Vec<String>) -> (turn: Turn<
    Result<Vec<PendingCommit>, SubrepoFailure>,
>)
    ensures
        final(talk).replies == old(talk).replies,
        step_result(turn, final(talk).at) == pending_step(
            shas.deep_view(),
            old(talk).log(),
            old(talk).at as int,
        ),
{
    let subjects = match talk.subjects() {
        None => return Err(Request::CommitSubjects { shas: clone_texts(shas) }),
        Some(Err(err)) => return Ok(Err(raw_failure(git_message(err)))),
        Some(Ok(subjects)) => subjects,
    };
    let index = index_of(subjects);
    let mut out: Vec<PendingCommit> = Vec::new();
    let ghost all = shas.deep_view();
    let ghost found = subjects.deep_view();
    assert(out.deep_view() =~= with_subjects(all.take(0), found));
    let mut i: usize = 0;
    while i < shas.len()
        invariant
            all == shas.deep_view(),
            found == subjects.deep_view(),
            indexes(index, subjects),
            i <= shas.len(),
            out.deep_view() == with_subjects(all.take(i as int), found),
        decreases shas.len() - i,
    {
        let subject = match find(&index, subjects, shas[i].as_str()) {
            Some(subject) => subject.clone(),
            None => "".to_string(),
        };
        push(&mut out, PendingCommit { sha: shas[i].clone(), subject });
        proof {
            lemma_take_next(all, i as int);
            assert(out.deep_view() =~= with_subjects(all.take(i + 1), found));
        }
        i = i + 1;
    }
    assert(all.take(i as int) =~= all);
    Ok(Ok(out))
}

/// The commits that candidates are.
pub open spec fn candidate_shas(candidates: Seq<ExportCandidateView>) -> Seq<Text> {
    candidates.map_values(|candidate: ExportCandidateView| candidate.mono_sha)
}

fn clone_candidate_shas(candidates: &Vec<ExportCandidate>) -> (out: Vec<String>)
    ensures
        out.deep_view() == candidate_shas(candidates.deep_view()),
{
    let mut out: Vec<String> = Vec::new();
    let ghost all = candidates.deep_view();
    assert(out.deep_view() =~= candidate_shas(all.take(0)));
    let mut i: usize = 0;
    while i < candidates.len()
        invariant
            all == candidates.deep_view(),
            i <= candidates.len(),
            out.deep_view() == candidate_shas(all.take(i as int)),
        decreases candidates.len() - i,
    {
        push(&mut out, candidates[i].mono_sha.clone());
        proof {
            lemma_take_next(all, i as int);
            assert(out.deep_view() =~= candidate_shas(all.take(i + 1)));
        }
        i = i + 1;
    }
    assert(all.take(i as int) =~= all);
    out
}

/// A dry run of a first publish: there is no public branch yet.
pub open spec fn first_publish_plan_step(
    subrepo: ResolvedSubrepoView,
    export_history: bool,
    log: Seq<ReplyView>,
    at: int,
) -> Step<Result<DryRunPlanView, SubrepoFailureView>> {
    if subrepo.upstream is Some {
        Step::Done(Err(SubrepoFailureView::of(no_upstream_branch_text(subrepo))), at)
    } else {
        match head_with_files_step(subrepo, log, at) {
            Step::Ask(request) => Step::Ask(request),
            Step::Done(None, at) => Step::Done(
                Err(SubrepoFailureView::of(nothing_exists_text(subrepo))),
                at,
            ),
            Step::Done(Some(head), at) => if export_history {
                match shas_at(log, at) {
                    None => Step::Ask(touching_request(head, subrepo.path)),
                    Some(Err(err)) => Step::Done(
                        Err(SubrepoFailureView::of(err.message_with(stderr_text(err)))),
                        at + 1,
                    ),
                    Some(Ok(shas)) => match pending_step(shas, log, at + 1) {
                        Step::Ask(request) => Step::Ask(request),
                        Step::Done(Err(failure), at) => Step::Done(Err(failure), at),
                        Step::Done(Ok(commits), at) => Step::Done(
                            Ok(DryRunPlanView::FirstPublish { export_history, commits }),
                            at,
                        ),
                    },
                }
            } else {
                Step::Done(
                    Ok(DryRunPlanView::FirstPublish { export_history, commits: Seq::empty() }),
                    at,
                )
            },
        }
    }
}

/// The view of a dry run: derived without running a hook.
pub open spec fn preview_view_step(
    subrepo: ResolvedSubrepoView,
    log: Seq<ReplyView>,
    at: int,
) -> Step<Result<SyncViewValue, SubrepoFailureView>> {
    match preview_sync_view_step(subrepo, log, at) {
        Step::Ask(request) => Step::Ask(request),
        Step::Done(Ok(view), at) => Step::Done(Ok(view), at),
        Step::Done(Err(err), at) => Step::Done(
            Err(SubrepoFailureView::of(view_failure_text(subrepo, err))),
            at,
        ),
    }
}

fn preview_view<'a>(talk: &mut Talk<'a>, subrepo: &ResolvedSubrepo) -> (turn: Turn<
    Result<SyncView, SubrepoFailure>,
>)
    ensures
        final(talk).replies == old(talk).replies,
        step_result(turn, final(talk).at) == preview_view_step(
            subrepo.deep_view(),
            old(talk).log(),
            old(talk).at as int,
        ),
{
    match preview_sync_view(talk, subrepo)? {
        Ok(view) => Ok(Ok(view)),
        Err(err) => Ok(Err(view_failure(subrepo, &err))),
    }
}

/// The candidates of a dry run. Without a `transform` they are those of the push. With one,
/// whether a moved anchor can be recovered is not known, so the view is taken as it is, and only
/// a broken mapping and commits that are left to import are refused.
pub open spec fn preview_candidates_step(
    subrepo: ResolvedSubrepoView,
    view: SyncViewValue,
    log: Seq<ReplyView>,
    at: int,
) -> Step<Result<Seq<ExportCandidateView>, SubrepoFailureView>> {
    if subrepo.transform is None {
        match push_candidates_step(subrepo, view, log, at) {
            Step::Ask(request) => Step::Ask(request),
            Step::Done(Err(failure), at) => Step::Done(Err(failure), at),
            Step::Done(Ok((_, candidates)), at) => Step::Done(Ok(candidates), at),
        }
    } else {
        match broken_refusal(subrepo, view) {
            Some(problem) => Step::Done(Err(SubrepoFailureView::of(problem)), at),
            None => ready_candidates_step(subrepo, view, log, at),
        }
    }
}

fn preview_candidates<'a>(talk: &mut Talk<'a>, subrepo: &ResolvedSubrepo, view: SyncView) -> (turn:
    Turn<Result<Vec<ExportCandidate>, SubrepoFailure>>)
    ensures
        final(talk).replies == old(talk).replies,
        step_result(turn, final(talk).at) == preview_candidates_step(
            subrepo.deep_view(),
            view.deep_view(),
            old(talk).log(),
            old(talk).at as int,
        ),
{
    if subrepo.transform.is_none() {
        return match push_candidates(talk, subrepo, view)? {
            Ok((_, candidates)) => Ok(Ok(candidates)),
            Err(failure) => Ok(Err(failure)),
        };
    }
    if let Some(problem) = check_mapping(subrepo, &view) {
        return Ok(Err(SubrepoFailure::new(problem)));
    }
    ready_candidates(talk, subrepo, &view)
}

/// [`plan_push_dry_run`] as a dialogue.
pub open spec fn plan_push_dry_run_step(
    subrepo: ResolvedSubrepoView,
    export_history: bool,
    log: Seq<ReplyView>,
    at: int,
) -> Step<Result<DryRunPlanView, SubrepoFailureView>> {
    match preview_view_step(subrepo, log, at) {
        Step::Ask(request) => Step::Ask(request),
        Step::Done(Err(failure), at) => Step::Done(Err(failure), at),
        Step::Done(Ok(view), at) => if view.pub_head is None {
            first_publish_plan_step(subrepo, export_history, log, at)
        } else if !view.related {
            Step::Done(
                Err(
                    SubrepoFailureView::of(
                        unrelated_text(subrepo, nothing_pushed_text(subrepo)),
                    ),
                ),
                at,
            )
        } else {
            match preview_candidates_step(subrepo, view, log, at) {
                Step::Ask(request) => Step::Ask(request),
                Step::Done(Err(failure), at) => Step::Done(Err(failure), at),
                Step::Done(Ok(candidates), at) => match pending_step(
                    candidate_shas(candidates),
                    log,
                    at,
                ) {
                    Step::Ask(request) => Step::Ask(request),
                    Step::Done(Err(failure), at) => Step::Done(Err(failure), at),
                    Step::Done(Ok(commits), at) => Step::Done(
                        Ok(DryRunPlanView::Export { commits }),
                        at,
                    ),
                },
            }
        },
    }
}

fn first_publish_plan<'a>(
    talk: &mut Talk<'a>,
    subrepo: &ResolvedSubrepo,
    export_history: bool,
) -> (turn: Turn<Result<DryRunPlan, SubrepoFailure>>)
    ensures
        final(talk).replies == old(talk).replies,
        step_result(turn, final(talk).at) == first_publish_plan_step(
            subrepo.deep_view(),
            export_history,
            old(talk).log(),
            old(talk).at as int,
        ),
{
    if subrepo.upstream.is_some() {
        return Ok(Err(SubrepoFailure::new(upstream_has_no_branch(subrepo))));
    }
    let head = match head_with_files(talk, subrepo)? {
        Some(head) => head,
        None => return Ok(Err(SubrepoFailure::new(nothing_exists_yet(subrepo)))),
    };
    if !export_history {
        let commits: Vec<PendingCommit> = Vec::new();
        assert(commits.deep_view() =~= Seq::<PendingCommitView>::empty());
        return Ok(Ok(DryRunPlan::FirstPublish { export_history, commits }));
    }
    let shas = match talk.shas() {
        None => return Err(ask_touching(head, &subrepo.path)),
        Some(Err(err)) => return Ok(Err(raw_failure(git_message(err)))),
        Some(Ok(shas)) => shas,
    };
    match pending(talk, shas)? {
        Ok(commits) => Ok(Ok(DryRunPlan::FirstPublish { export_history, commits })),
        Err(failure) => Ok(Err(failure)),
    }
}

/// What `push` would attempt, from the same [`plan_export`] candidate scan `push` and `status`
/// already share.
///
/// Scan and transform hooks are deliberately NOT run: they stand guard over a write to a
/// remote, and a dry run does not write, so this reports what would be *attempted*. The
/// consequence (a candidate the tree-equality check or an exclude pattern would later drop
/// still appears) is the honest direction to err in for a preview. What only a `transform` could
/// tell, which import reproduces its public commit or where a moved anchor is now, counts as
/// unknown, and the list is the longer for it.
pub fn plan_push_dry_run<'a>(
    talk: &mut Talk<'a>,
    subrepo: &ResolvedSubrepo,
    export_history: bool,
) -> (turn: Turn<Result<DryRunPlan, SubrepoFailure>>)
    ensures
        final(talk).replies == old(talk).replies,
        step_result(turn, final(talk).at) == plan_push_dry_run_step(
            subrepo.deep_view(),
            export_history,
            old(talk).log(),
            old(talk).at as int,
        ),
{
    let view = match preview_view(talk, subrepo)? {
        Ok(view) => view,
        Err(failure) => return Ok(Err(failure)),
    };
    if view.pub_head.is_none() {
        return first_publish_plan(talk, subrepo, export_history);
    }
    if !view.related {
        return Ok(
            Err(
                SubrepoFailure::new(
                    unrelated_remote(subrepo, nothing_pushed(subrepo).as_str()),
                ),
            ),
        );
    }
    // The preview has to see what the push will see, anchor recovery included, or a dry run
    // would refuse where the real command succeeds. Where a `transform` shapes the trees that is
    // out of reach, since it must not run: then the preview does not refuse over a moved anchor,
    // and lists from the last anchor that it can tell without the hook.
    let candidates = match preview_candidates(talk, subrepo, view)? {
        Ok(candidates) => candidates,
        Err(failure) => return Ok(Err(failure)),
    };
    let shas = clone_candidate_shas(&candidates);
    match pending(talk, &shas)? {
        Ok(commits) => Ok(Ok(DryRunPlan::Export { commits })),
        Err(failure) => Ok(Err(failure)),
    }
}

/// [`plan_pull_dry_run`] as a dialogue.
pub open spec fn plan_pull_dry_run_step(
    subrepo: ResolvedSubrepoView,
    log: Seq<ReplyView>,
    at: int,
) -> Step<Result<DryRunPlanView, SubrepoFailureView>> {
    match preview_view_step(subrepo, log, at) {
        Step::Ask(request) => Step::Ask(request),
        Step::Done(Err(failure), at) => Step::Done(Err(failure), at),
        Step::Done(Ok(view), at) => match related_view_step(
            subrepo,
            view,
            "Nothing was imported."@,
            log,
            at,
        ) {
            Step::Ask(request) => Step::Ask(request),
            Step::Done(Err(failure), at) => Step::Done(Err(failure), at),
            Step::Done(Ok(_), at) => match pending_step(view.unreflected_pub, log, at) {
                Step::Ask(request) => Step::Ask(request),
                Step::Done(Err(failure), at) => Step::Done(Err(failure), at),
                Step::Done(Ok(commits), at) => Step::Done(
                    Ok(DryRunPlanView::Import { commits }),
                    at,
                ),
            },
        },
    }
}

/// What `pull` would import. The work-tree preconditions a real pull insists on are skipped
/// on purpose: they exist to protect a write, and there is none. Refusing to *show* the
/// incoming commits because a file is edited would make the flag useless exactly when it helps.
/// No hook runs for it either.
pub fn plan_pull_dry_run<'a>(talk: &mut Talk<'a>, subrepo: &ResolvedSubrepo) -> (turn: Turn<
    Result<DryRunPlan, SubrepoFailure>,
>)
    ensures
        final(talk).replies == old(talk).replies,
        step_result(turn, final(talk).at) == plan_pull_dry_run_step(
            subrepo.deep_view(),
            old(talk).log(),
            old(talk).at as int,
        ),
{
    let view = match preview_view(talk, subrepo)? {
        Ok(view) => view,
        Err(failure) => return Ok(Err(failure)),
    };
    match require_related(talk, subrepo, &view, "Nothing was imported.")? {
        Ok(_) => {},
        Err(failure) => return Ok(Err(failure)),
    }
    match pending(talk, &view.unreflected_pub)? {
        Ok(commits) => Ok(Ok(DryRunPlan::Import { commits })),
        Err(failure) => Ok(Err(failure)),
    }
}

/// Wording that differs between the commands that can trigger a first publish.
#[derive(Debug)]
pub struct ConfirmFirstPublishOptions {
    /// Skip the question entirely (`--yes`).
    pub yes: bool,
    /// Sentence describing what already happened, used in place of "Nothing was pushed.":
    /// `attach` has committed the config entry by the time it asks, and must say so.
    pub state_note: Option<String>,
    /// Extra sentence appended when the user answers no at a terminal.
    pub cancel_note: Option<String>,
}

/// The value of a [`ConfirmFirstPublishOptions`].
#[verifier::ext_equal]
pub struct ConfirmFirstPublishOptionsView {
    pub yes: bool,
    pub state_note: Option<Text>,
    pub cancel_note: Option<Text>,
}

impl DeepView for ConfirmFirstPublishOptions {
    type V = ConfirmFirstPublishOptionsView;

    open spec fn deep_view(&self) -> ConfirmFirstPublishOptionsView {
        ConfirmFirstPublishOptionsView {
            yes: self.yes,
            state_note: self.state_note.deep_view(),
            cancel_note: self.cancel_note.deep_view(),
        }
    }
}

impl Clone for ConfirmFirstPublishOptions {
    fn clone(&self) -> (out: Self)
        ensures
            out.deep_view() == self.deep_view(),
    {
        ConfirmFirstPublishOptions {
            yes: self.yes,
            state_note: self.state_note.clone(),
            cancel_note: self.cancel_note.clone(),
        }
    }
}

impl Default for ConfirmFirstPublishOptions {
    fn default() -> (out: Self)
        ensures
            !out.yes,
            out.state_note is None,
            out.cancel_note is None,
    {
        ConfirmFirstPublishOptions { yes: false, state_note: None, cancel_note: None }
    }
}

/// An ASCII letter in lower case; any other character as it is.
pub open spec fn lower_char(c: char) -> char {
    if 'A' <= c <= 'Z' {
        (c as int + 32) as char
    } else {
        c
    }
}

/// A text in lower case, as far as ASCII goes.
pub open spec fn lower_text(t: Text) -> Text {
    t.map_values(|c: char| lower_char(c))
}

/// Is this answer a yes?
pub open spec fn says_yes(answer: Text) -> bool {
    let word = lower_text(trim_start_text(trim_end_text(answer)));
    word == "y"@ || word == "yes"@
}

fn is_yes(answer: &str) -> (out: bool)
    ensures
        out == says_yes(answer@),
{
    let cs = chars_of(trim(answer));
    let ghost word = lower_text(cs@);
    proof {
        reveal_strlit("y");
        reveal_strlit("yes");
        assert(word.len() == cs@.len());
        assert("y"@.len() == 1 && "yes"@.len() == 3);
        assert("y"@[0] == 'y');
        assert("yes"@[0] == 'y' && "yes"@[1] == 'e' && "yes"@[2] == 's');
    }
    if cs.len() == 1 {
        let out = cs[0] == 'y' || cs[0] == 'Y';
        assert(out == (lower_char(cs@[0]) == 'y'));
        assert(out ==> word =~= "y"@);
        assert(word == "y"@ ==> word[0] == 'y');
        out
    } else if cs.len() == 3 {
        let out = (cs[0] == 'y' || cs[0] == 'Y') && (cs[1] == 'e' || cs[1] == 'E') && (cs[2] == 's'
            || cs[2] == 'S');
        assert(out == (lower_char(cs@[0]) == 'y' && lower_char(cs@[1]) == 'e' && lower_char(cs@[2])
            == 's'));
        assert(out ==> word =~= "yes"@);
        assert(word == "yes"@ ==> word[0] == 'y' && word[1] == 'e' && word[2] == 's');
        out
    } else {
        false
    }
}

/// The first-publish question.
pub open spec fn first_publish_question(subrepo: ResolvedSubrepoView) -> Text {
    subrepo.remote + " ("@ + subrepo.branch + ") is empty. Publish "@ + subrepo.name
        + "'s current tree as its first commit there? [y/N] "@
}

/// What a declined first publish reads like.
pub open spec fn cancelled_text(subrepo: ResolvedSubrepoView, cancel_note: Option<Text>) -> Text {
    subrepo.name + ": cancelled — nothing was pushed to "@ + subrepo.remote + "."@ + (
    match cancel_note {
        Some(note) => note,
        None => ""@,
    })
}

/// What a first publish without a terminal reads like.
pub open spec fn no_terminal_text(subrepo: ResolvedSubrepoView, state_note: Option<Text>) -> Text {
    subrepo.name + ": "@ + subrepo.remote + " has no "@ + subrepo.branch
        + " branch — this would be the first publish of "@ + subrepo.path + "/.\n"@ + (
    match state_note {
        Some(note) => note,
        None => "Nothing was pushed."@,
    })
        + " Publishing to a standalone remote cannot be undone, so monosplice asks first; there is no terminal here to ask at. Run:\n  monosplice push "@
        + subrepo.name + " --yes\nAdd --export-history to replay every monorepo commit that touched "@
        + subrepo.path + "/ instead of publishing one baseline commit."@
}

/// [`confirm_first_publish`] as a dialogue.
pub open spec fn confirm_first_publish_step(
    subrepo: ResolvedSubrepoView,
    opts: ConfirmFirstPublishOptionsView,
    log: Seq<ReplyView>,
    at: int,
) -> Step<Result<(), SubrepoFailureView>> {
    if opts.yes {
        Step::Done(Ok(()), at)
    } else {
        match flag_at(log, at) {
            None => Step::Ask(RequestView::IsTerminal),
            Some(false) => Step::Done(
                Err(SubrepoFailureView::of(no_terminal_text(subrepo, opts.state_note))),
                at + 1,
            ),
            Some(true) => match answer_at(log, at + 1) {
                None => Step::Ask(
                    RequestView::Prompt { question: first_publish_question(subrepo) },
                ),
                Some(answer) => Step::Done(
                    if says_yes(answer) {
                        Ok(())
                    } else {
                        Err(SubrepoFailureView::of(cancelled_text(subrepo, opts.cancel_note)))
                    },
                    at + 2,
                ),
            },
        }
    }
}

/// Publishing to a standalone remote is irreversible, so the very first push asks. At a
/// terminal that is a prompt; anywhere else it is a refusal naming the exact command, because a
/// CI job must never publish a repository by accident.
pub fn confirm_first_publish<'a>(
    talk: &mut Talk<'a>,
    subrepo: &ResolvedSubrepo,
    opts: &ConfirmFirstPublishOptions,
) -> (turn: Turn<Result<(), SubrepoFailure>>)
    ensures
        final(talk).replies == old(talk).replies,
        step_result(turn, final(talk).at) == confirm_first_publish_step(
            subrepo.deep_view(),
            opts.deep_view(),
            old(talk).log(),
            old(talk).at as int,
        ),
{
    if opts.yes {
        return Ok(Ok(()));
    }
    let terminal = match talk.flag() {
        None => return Err(Request::IsTerminal),
        Some(terminal) => terminal,
    };
    if terminal {
        let answer = match talk.answer() {
            None => return Err(
                Request::Prompt {
                    question: subrepo.remote.clone().concat(" (").concat(
                        subrepo.branch.as_str(),
                    ).concat(") is empty. Publish ").concat(subrepo.name.as_str()).concat(
                        "'s current tree as its first commit there? [y/N] ",
                    ),
                },
            ),
            Some(answer) => answer,
        };
        if is_yes(answer.as_str()) {
            return Ok(Ok(()));
        }
        let cancel_note = match &opts.cancel_note {
            Some(note) => note.as_str(),
            None => "",
        };
        return Ok(
            Err(
                SubrepoFailure::new(
                    subrepo.name.clone().concat(": cancelled — nothing was pushed to ").concat(
                        subrepo.remote.as_str(),
                    ).concat(".").concat(cancel_note),
                ),
            ),
        );
    }
    let state_note = match &opts.state_note {
        Some(note) => note.as_str(),
        None => "Nothing was pushed.",
    };
    Ok(
        Err(
            SubrepoFailure::new(
                subrepo.name.clone().concat(": ").concat(subrepo.remote.as_str()).concat(
                    " has no ",
                ).concat(subrepo.branch.as_str()).concat(
                    " branch — this would be the first publish of ",
                ).concat(subrepo.path.as_str()).concat("/.\n").concat(state_note).concat(
                    " Publishing to a standalone remote cannot be undone, so monosplice asks first; there is no terminal here to ask at. Run:\n  monosplice push ",
                ).concat(subrepo.name.as_str()).concat(
                    " --yes\nAdd --export-history to replay every monorepo commit that touched ",
                ).concat(subrepo.path.as_str()).concat(
                    "/ instead of publishing one baseline commit.",
                ),
            ),
        ),
    )
}

/// What a first publish did.
#[derive(Debug, Clone, Copy, PartialEq, Eq)]
pub struct FirstPublishResult {
    pub commits: usize,
    pub export_history: bool,
}

impl DeepView for FirstPublishResult {
    type V = FirstPublishResult;

    open spec fn deep_view(&self) -> FirstPublishResult {
        *self
    }
}

/// What a failed first publish reads like.
pub open spec fn publish_failure_text(subrepo: ResolvedSubrepoView, err: ExportErrorView) -> Text {
    match err.git_cause() {
        Some(cause) => subrepo.name + ": "@ + cause.message_with(stderr_text(cause)),
        None => subrepo.name + ": "@ + err.text() + "\n"@ + nothing_pushed_text(subrepo),
    }
}

/// Both first-publish paths report a failure the same way.
pub fn publish_failure(subrepo: &ResolvedSubrepo, err: &ExportError) -> (out: SubrepoFailure)
    ensures
        out.deep_view() == SubrepoFailureView::of(
            publish_failure_text(subrepo.deep_view(), err.deep_view()),
        ),
{
    match export_git_cause(err) {
        Some(git_err) => SubrepoFailure::new(
            subrepo.name.clone().concat(": ").concat(git_message(git_err).as_str()),
        ),
        None => SubrepoFailure::new(
            subrepo.name.clone().concat(": ").concat(err.to_string().as_str()).concat(
                "\n",
            ).concat(nothing_pushed(subrepo).as_str()),
        ),
    }
}

/// What a first publish reads like in a repository without a commit.
pub open spec fn no_commits_text(root: Text, subrepo: ResolvedSubrepoView) -> Text {
    root + " has no commits yet — commit something under "@ + subrepo.path
        + "/ before publishing "@ + subrepo.name + "."@
}

/// What a first publish reads like when the excludes leave nothing.
pub open spec fn nothing_left_text(subrepo: ResolvedSubrepoView) -> Text {
    subrepo.name + ": nothing to publish from "@ + subrepo.path
        + "/ after applying exclude patterns — nothing was pushed."@
}

/// The publishing part of [`first_publish`].
pub open spec fn publish_head_step(
    subrepo: ResolvedSubrepoView,
    head: Text,
    export_history: bool,
    log: Seq<ReplyView>,
    at: int,
) -> Step<Result<FirstPublishResult, SubrepoFailureView>> {
    if export_history {
        match publish_full_history_step(subrepo, head, log, at) {
            Step::Ask(request) => Step::Ask(request),
            Step::Done(Err(err), at) => Step::Done(
                Err(SubrepoFailureView::of(publish_failure_text(subrepo, err))),
                at,
            ),
            Step::Done(Ok(result), at) => if result.exported.len() == 0 {
                Step::Done(Err(SubrepoFailureView::of(nothing_left_text(subrepo))), at)
            } else {
                Step::Done(
                    Ok(
                        FirstPublishResult {
                            commits: result.exported.len() as usize,
                            export_history: true,
                        },
                    ),
                    at,
                )
            },
        }
    } else {
        match publish_baseline_step(subrepo, head, log, at) {
            Step::Ask(request) => Step::Ask(request),
            Step::Done(Err(err), at) => Step::Done(
                Err(SubrepoFailureView::of(publish_failure_text(subrepo, err))),
                at,
            ),
            Step::Done(Ok(None), at) => Step::Done(
                Err(SubrepoFailureView::of(nothing_left_text(subrepo))),
                at,
            ),
            Step::Done(Ok(Some(_)), at) => Step::Done(
                Ok(FirstPublishResult { commits: 1, export_history: false }),
                at,
            ),
        }
    }
}

/// [`first_publish`] as a dialogue.
pub open spec fn first_publish_step(
    root: Text,
    subrepo: ResolvedSubrepoView,
    export_history: bool,
    log: Seq<ReplyView>,
    at: int,
) -> Step<Result<FirstPublishResult, SubrepoFailureView>> {
    match rev_at(log, at) {
        None => Step::Ask(RequestView::RevParse { rev: "HEAD"@ }),
        Some(None) => Step::Done(
            Err(SubrepoFailureView::of(no_commits_text(root, subrepo))),
            at + 1,
        ),
        Some(Some(head)) => match has_committed_files_step(head, subrepo, log, at + 1) {
            Step::Ask(request) => Step::Ask(request),
            Step::Done(false, at) => Step::Done(
                Err(SubrepoFailureView::of(nothing_exists_text(subrepo))),
                at,
            ),
            Step::Done(true, at) => match confirmed_at(log, at) {
                None => Step::Ask(RequestView::Confirm),
                Some(Err(failure)) => Step::Done(Err(failure), at + 1),
                Some(Ok(_)) => publish_head_step(subrepo, head, export_history, log, at + 1),
            },
        },
    }
}

/// Outbound first contact, reachable only through `push` so the default path for a new subrepo
/// is one command with one question.
///
/// The question ([`Request::Confirm`]) is put once the preflight checks pass and only then: a
/// subrepo with nothing in it must report that, not prompt about publishing nothing.
pub fn first_publish<'a>(
    talk: &mut Talk<'a>,
    root: &str,
    subrepo: &ResolvedSubrepo,
    export_history: bool,
) -> (turn: Turn<Result<FirstPublishResult, SubrepoFailure>>)
    ensures
        final(talk).replies == old(talk).replies,
        step_result(turn, final(talk).at) == first_publish_step(
            root@,
            subrepo.deep_view(),
            export_history,
            old(talk).log(),
            old(talk).at as int,
        ),
{
    let head = match talk.rev() {
        None => return Err(Request::RevParse { rev: "HEAD".to_string() }),
        Some(None) => return Ok(
            Err(
                SubrepoFailure::new(
                    root.to_string().concat(
                        " has no commits yet — commit something under ",
                    ).concat(subrepo.path.as_str()).concat("/ before publishing ").concat(
                        subrepo.name.as_str(),
                    ).concat("."),
                ),
            ),
        ),
        Some(Some(head)) => head,
    };
    if !has_committed_files(talk, head.as_str(), subrepo)? {
        return Ok(Err(SubrepoFailure::new(nothing_exists_yet(subrepo))));
    }
    match talk.confirmed() {
        None => return Err(Request::Confirm),
        Some(Err(failure)) => return Ok(Err(failure.clone())),
        Some(Ok(_)) => {},
    }
    let nothing_left = subrepo.name.clone().concat(": nothing to publish from ").concat(
        subrepo.path.as_str(),
    ).concat("/ after applying exclude patterns — nothing was pushed.");
    if export_history {
        return match publish_full_history(talk, subrepo, head.as_str())? {
            Err(err) => Ok(Err(publish_failure(subrepo, &err))),
            Ok(result) => if result.exported.len() == 0 {
                Ok(Err(SubrepoFailure::new(nothing_left)))
            } else {
                Ok(
                    Ok(
                        FirstPublishResult {
                            commits: result.exported.len(),
                            export_history: true,
                        },
                    ),
                )
            },
        };
    }
    match publish_baseline(talk, subrepo, head.as_str())? {
        Err(err) => Ok(Err(publish_failure(subrepo, &err))),
        Ok(None) => Ok(Err(SubrepoFailure::new(nothing_left))),
        Ok(Some(_)) => Ok(Ok(FirstPublishResult { commits: 1, export_history: false })),
    }
}

} // verus!
