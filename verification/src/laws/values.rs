//! What is said of values holds of the data: every field of a value is that field of the data.

use vstd::prelude::*;
use vstd::string::*;
use crate::config::ResolvedSubrepo;
use crate::doctor::DoctorSubrepo;
use crate::exporter::{AnchorRecovery, ExportResult, ExportedCommit, PlannedExport};
use crate::git::{CommitMeta, CommitTreeInput, TreeEntry};
use crate::hooks::HookError;
use crate::ops::PendingCommit;
use crate::sync_view::{BrokenSourceRef, SyncView};
use crate::talk::{Request, RequestView};

verus! {

/// A commit that was read, and one that is to be written, keep author and committer apart.
pub proof fn law_author_and_committer_stay_apart(meta: CommitMeta, input: CommitTreeInput)
    ensures
        meta.deep_view().sha == meta.sha@,
        meta.deep_view().message == meta.message@,
        meta.deep_view().author_name == meta.author_name@,
        meta.deep_view().author_email == meta.author_email@,
        meta.deep_view().author_date == meta.author_date@,
        meta.deep_view().committer_name == meta.committer_name@,
        meta.deep_view().committer_email == meta.committer_email@,
        meta.deep_view().committer_date == meta.committer_date@,
        input.deep_view().tree == input.tree@,
        input.deep_view().parents == input.parents.deep_view(),
        input.deep_view().message == input.message@,
        input.deep_view().author_name == input.author_name@,
        input.deep_view().author_email == input.author_email@,
        input.deep_view().author_date == input.author_date@,
        input.deep_view().committer_name == input.committer_name@,
        input.deep_view().committer_email == input.committer_email@,
        input.deep_view().committer_date == input.committer_date@,
{
}

/// What is configured for a subrepo is told apart: its name from its path, its remote from its
/// upstream, its branch from its push branch, and its hooks from one another.
pub proof fn law_what_is_configured_is_told_apart(s: ResolvedSubrepo)
    ensures
        s.deep_view().name == s.name@,
        s.deep_view().path == s.path@,
        s.deep_view().remote == s.remote@,
        s.deep_view().upstream == s.upstream.deep_view(),
        s.deep_view().branch == s.branch@,
        s.deep_view().push_branch == s.push_branch@,
        s.deep_view().exclude == s.exclude.deep_view(),
        s.deep_view().rewrite_message == s.rewrite_message.deep_view(),
        s.deep_view().transform == s.transform.deep_view(),
        s.deep_view().scan == s.scan.deep_view(),
{
}

/// What a view says is told apart.
pub proof fn law_what_a_view_says_is_told_apart(view: SyncView, dead: BrokenSourceRef)
    ensures
        view.deep_view().tracking_ref == view.tracking_ref@,
        view.deep_view().pub_head == view.pub_head.deep_view(),
        view.deep_view().exported_mono_to_pub == view.exported_mono_to_pub@,
        view.deep_view().imported_pub_shas == view.imported_pub_shas.deep_view(),
        view.deep_view().origin_by_mono == view.origin_by_mono.deep_view(),
        view.deep_view().export_base == view.export_base.deep_view(),
        view.deep_view().last_exported_mono == view.last_exported_mono.deep_view(),
        view.deep_view().unreflected_pub == view.unreflected_pub.deep_view(),
        view.deep_view().broken_source_refs == view.broken_source_refs.deep_view(),
        view.deep_view().superseded_source_refs == view.superseded_source_refs.deep_view(),
        view.deep_view().related == view.related,
        dead.deep_view().pub_sha == dead.pub_sha@,
        dead.deep_view().mono_sha == dead.mono_sha@,
{
}

/// What an export plans and what it comes to is told apart.
pub proof fn law_what_an_export_says_is_told_apart(
    plan: PlannedExport,
    exported: ExportedCommit,
    result: ExportResult,
    recovery: AnchorRecovery,
    entry: TreeEntry,
    pending: PendingCommit,
    err: HookError,
)
    ensures
        plan.deep_view().mono_sha == plan.mono_sha@,
        plan.deep_view().tree == plan.tree@,
        plan.deep_view().message == plan.message@,
        plan.deep_view().meta == plan.meta.deep_view(),
        plan.deep_view().content == plan.content.deep_view(),
        exported.deep_view().mono_sha == exported.mono_sha@,
        exported.deep_view().pub_sha == exported.pub_sha@,
        result.deep_view().exported == result.exported.deep_view(),
        result.deep_view().new_head == result.new_head.deep_view(),
        result.deep_view().pushed == result.pushed,
        recovery.deep_view().missing == recovery.missing@,
        recovery.deep_view().recovered == recovery.recovered@,
        recovery.deep_view().pub_sha == recovery.pub_sha@,
        recovery.deep_view().also_matching == recovery.also_matching,
        entry.deep_view().mode == entry.mode@,
        entry.deep_view().kind == entry.kind@,
        entry.deep_view().sha == entry.sha@,
        entry.deep_view().path == entry.path@,
        pending.deep_view().sha == pending.sha@,
        pending.deep_view().subject == pending.subject@,
        err.deep_view().hook == err.hook@,
        err.deep_view().mono_sha == err.mono_sha@,
        err.deep_view().subrepo == err.subrepo@,
        err.deep_view().detail == err.detail@,
{
}

/// What a row says is told apart.
pub proof fn law_what_a_row_says_is_told_apart(row: DoctorSubrepo)
    ensures
        row.deep_view().name == row.name@,
        row.deep_view().path == row.path@,
        row.deep_view().remote == row.remote@,
        row.deep_view().branch == row.branch@,
        row.deep_view().upstream == row.upstream.deep_view(),
        row.deep_view().push_branch == row.push_branch.deep_view(),
        row.deep_view().reachable == row.reachable,
        row.deep_view().seeded == row.seeded,
        row.deep_view().pub_head == row.pub_head.deep_view(),
        row.deep_view().fork_head == row.fork_head.deep_view(),
        row.deep_view().last_exported_mono == row.last_exported_mono.deep_view(),
        row.deep_view().last_exported_pub == row.last_exported_pub.deep_view(),
        row.deep_view().ahead == row.ahead,
        row.deep_view().behind == row.behind,
        row.deep_view().problems == row.problems.deep_view(),
        row.deep_view().notes == row.notes.deep_view(),
{
}

/// What a request asks for is told apart: whom it talks to, about which branch, with which commit
/// and under which ref; which command it runs, where and for whom; and what it is to look at.
pub proof fn law_what_a_request_asks_is_told_apart(request: Request)
    ensures
        match (request, request.deep_view()) {
            (Request::Git { args, input }, RequestView::Git { args: said, input: text }) => said
                == args.deep_view() && text == input.deep_view(),
            (Request::RevList { args }, RequestView::RevList { args: said }) => said
                == args.deep_view(),
            (
                Request::LsRemoteBranch { remote, branch },
                RequestView::LsRemoteBranch { remote: at, branch: of },
            ) => at == remote@ && of == branch@,
            (
                Request::FetchBranch { remote, branch, dst },
                RequestView::FetchBranch { remote: at, branch: of, dst: to },
            ) => at == remote@ && of == branch@ && to == dst@,
            (
                Request::PushRef { remote, sha, dst },
                RequestView::PushRef { remote: at, sha: what, dst: to },
            ) => at == remote@ && what == sha@ && to == dst@,
            (
                Request::PushRefWithLease { remote, sha, dst, expect },
                RequestView::PushRefWithLease { remote: at, sha: what, dst: to, expect: seen },
            ) => at == remote@ && what == sha@ && to == dst@ && seen == expect@,
            (
                Request::Exclude { patterns, paths },
                RequestView::Exclude { patterns: by, paths: of },
            ) => by == patterns.deep_view() && of == paths.deep_view(),
            (
                Request::TreeHook { hook, command, dir, subrepo, mono_sha, message_file },
                RequestView::TreeHook {
                    hook: which,
                    command: run,
                    dir: inside,
                    subrepo: whose,
                    mono_sha: commit,
                    message_file: file,
                },
            ) => which == hook@ && run == command@ && inside == dir@ && whose == subrepo@ && commit
                == mono_sha@ && file == message_file@,
            (
                Request::RewriteMessage { command, subrepo, mono_sha, message },
                RequestView::RewriteMessage {
                    command: run,
                    subrepo: whose,
                    mono_sha: commit,
                    message: text,
                },
            ) => run == command@ && whose == subrepo@ && commit == mono_sha@ && text == message@,
            (
                Request::RunImport { target, shas },
                RequestView::RunImport { target: whose, shas: which },
            ) => whose == target.deep_view() && which == shas.deep_view(),
            (Request::CommitTree(input), RequestView::CommitTree(commit)) => commit
                == input.deep_view(),
            (Request::Git { .. }, _) => false,
            (Request::RevList { .. }, _) => false,
            (Request::LsRemoteBranch { .. }, _) => false,
            (Request::FetchBranch { .. }, _) => false,
            (Request::PushRef { .. }, _) => false,
            (Request::PushRefWithLease { .. }, _) => false,
            (Request::Exclude { .. }, _) => false,
            (Request::TreeHook { .. }, _) => false,
            (Request::RewriteMessage { .. }, _) => false,
            (Request::RunImport { .. }, _) => false,
            (Request::CommitTree(_), _) => false,
            _ => true,
        },
{
}

} // verus!
