//! Laws of the operations that the commands share: when they may write at all.

use vstd::prelude::*;
use vstd::string::*;
use crate::config::ResolvedSubrepoView;
use crate::exporter::{
    broken_refusal, candidates_of, check_export_preconditions_step, compute_exports_step,
    export_base_rewritten_step, plan_export_step, publish_baseline_step, rewritten_text,
    run_export_step, unexported, ExportCandidateView, ExportErrorView, ExportedCommitView,
};
use crate::filter::{name_subtree_step, has_committed_files_step};
use crate::git::GitErrorView;
use crate::laws::export::{
    law_an_export_writes_only_to_its_remote, law_nothing_to_export_writes_nothing,
    law_what_is_exported_is_not_exported_again,
};
use crate::laws::requests::{
    changes, lemma_compute_exports_asks, lemma_name_subtree_asks, lemma_recover_export_anchor_asks,
    lemma_verbs, lemma_view_asks, local, prepares_hook, runs_hook, scans, stays_local, view_request,
    without_hooks,
};
use crate::laws::view::{
    law_only_the_anchor_moves, law_only_the_base_rests_on_comparisons,
    law_what_was_exported_is_recorded, told_the_same, law_without_a_transform_a_preview_sees_all,
};
use crate::ops::{
    candidate_shas, confirm_first_publish_step, export_failure_text, export_subrepo_step,
    export_summary, export_view_step, first_publish_step, import_subrepo_step, load_view_step,
    nothing_pushed_text, not_imported_text, pending_step, plan_pull_dry_run_step,
    plan_push_dry_run_step, preview_candidates_step, preview_view_step, push_candidates_step,
    recover_anchor_step, related_view_step, says_yes, short_text, unrelated_text,
    ConfirmFirstPublishOptionsView, DryRunPlanView, ExportSummary, PendingCommitView,
};
use crate::list::lemma_filter_contains;
use crate::report::SubrepoFailureView;
use crate::sync_view::{claims, exported_map, values_of, SyncViewValue};
use crate::talk::{answer_at, confirmed_at, flag_at, rev_at, shas_at, ReplyView, RequestView, Step};
use crate::text::Text;

verus! {

proof fn lemma_related_view_asks(
    subrepo: ResolvedSubrepoView,
    view: SyncViewValue,
    consequence: Text,
    log: Seq<ReplyView>,
    at: int,
)
    ensures
        stays_local(related_view_step(subrepo, view, consequence, log, at)),
        without_hooks(related_view_step(subrepo, view, consequence, log, at)),
{
    lemma_verbs();
}

proof fn lemma_recover_anchor_asks(
    subrepo: ResolvedSubrepoView,
    view: SyncViewValue,
    log: Seq<ReplyView>,
    at: int,
)
    ensures
        stays_local(recover_anchor_step(subrepo, view, log, at)),
        subrepo.transform is None ==> without_hooks(recover_anchor_step(subrepo, view, log, at)),
{
    lemma_recover_export_anchor_asks(subrepo, view, log, at);
}

proof fn lemma_push_candidates_asks(
    subrepo: ResolvedSubrepoView,
    view: SyncViewValue,
    log: Seq<ReplyView>,
    at: int,
)
    ensures
        stays_local(push_candidates_step(subrepo, view, log, at)),
        subrepo.transform is None ==> without_hooks(push_candidates_step(subrepo, view, log, at)),
{
    lemma_recover_anchor_asks(subrepo, view, log, at);
}

proof fn lemma_preview_candidates_asks(
    subrepo: ResolvedSubrepoView,
    view: SyncViewValue,
    log: Seq<ReplyView>,
    at: int,
)
    ensures
        stays_local(preview_candidates_step(subrepo, view, log, at)),
        without_hooks(preview_candidates_step(subrepo, view, log, at)),
{
    lemma_push_candidates_asks(subrepo, view, log, at);
}

proof fn lemma_push_candidates_keep(
    subrepo: ResolvedSubrepoView,
    view: SyncViewValue,
    log: Seq<ReplyView>,
    at: int,
)
    ensures
        push_candidates_step(subrepo, view, log, at) matches Step::Done(Ok((after, _)), _) ==> {
            &&& view.broken_source_refs.len() == 0
            &&& view.unreflected_pub.len() == 0
            &&& after.pub_head == view.pub_head
            &&& after.tracking_ref == view.tracking_ref
        },
{
    law_only_the_anchor_moves(subrepo, view, log, at);
}

proof fn lemma_unexported(shas: Seq<Text>, exported: Map<Text, Text>)
    ensures
        forall|i: int|
            0 <= i < candidates_of(unexported(shas, exported)).len() ==> !exported.contains_key(
                (#[trigger] candidates_of(unexported(shas, exported))[i]).mono_sha,
            ),
{
    let left = unexported(shas, exported);
    assert forall|i: int| 0 <= i < candidates_of(left).len() implies !exported.contains_key(
        (#[trigger] candidates_of(left)[i]).mono_sha,
    ) by {
        assert(left.contains(left[i]));
        lemma_filter_contains(shas, |sha: Text| !exported.contains_key(sha), left[i]);
    }
}

proof fn lemma_candidates_are_unexported(
    subrepo: ResolvedSubrepoView,
    view: SyncViewValue,
    log: Seq<ReplyView>,
    at: int,
)
    ensures
        push_candidates_step(subrepo, view, log, at) matches Step::Done(Ok((after, candidates)), _)
            ==> forall|i: int|
            0 <= i < candidates.len() ==> !after.exported_mono_to_pub.contains_key(
                (#[trigger] candidates[i]).mono_sha,
            ),
{
    match recover_anchor_step(subrepo, view, log, at) {
        Step::Done(Ok(after), at) => match check_export_preconditions_step(
            subrepo,
            after,
            log,
            at,
        ) {
            Step::Done(None, at) => match shas_at(log, at) {
                Some(Ok(shas)) => {
                    lemma_unexported(shas, after.exported_mono_to_pub);
                },
                _ => {},
            },
            _ => {},
        },
        _ => {},
    }
}

/// A push happens only on a sound view: the standalone branch exists, the two repositories are
/// related, no reference above the anchor is broken, and nothing is left to import. A recovered
/// anchor excuses none of these. Nothing else is written before that is settled either, and what
/// is pushed goes to the subrepo's own remote.
pub proof fn law_a_push_needs_a_sound_view(
    subrepo: ResolvedSubrepoView,
    view: SyncViewValue,
    log: Seq<ReplyView>,
    at: int,
)
    ensures
        export_view_step(subrepo, view, log, at) matches Step::Ask(request) ==> {
            &&& changes(request) || scans(request) ==> {
                &&& view.pub_head is Some
                &&& view.related
                &&& view.broken_source_refs.len() == 0
                &&& view.unreflected_pub.len() == 0
            }
            &&& !(request is RunImport)
            &&& request matches RequestView::PushRef { remote, .. } ==> remote == subrepo.remote
            &&& request matches RequestView::PushRefWithLease { remote, .. } ==> remote
                == subrepo.remote && subrepo.upstream is Some
        },
{
    let consequence = nothing_pushed_text(subrepo);
    lemma_related_view_asks(subrepo, view, consequence, log, at);
    match related_view_step(subrepo, view, consequence, log, at) {
        Step::Done(Ok(_), at) => {
            lemma_push_candidates_asks(subrepo, view, log, at);
            lemma_push_candidates_keep(subrepo, view, log, at);
            match push_candidates_step(subrepo, view, log, at) {
                Step::Done(Ok((after, candidates)), at) => {
                    law_an_export_writes_only_to_its_remote(
                        subrepo,
                        after.pub_head,
                        after.tracking_ref,
                        candidates,
                        log,
                        at,
                    );
                },
                _ => {},
            }
        },
        _ => {},
    }
}

/// The same of a push that derives its view itself: it is asked for only once such a view was
/// derived, and it is a sound one.
pub proof fn law_an_unsound_view_is_never_pushed(
    subrepo: ResolvedSubrepoView,
    log: Seq<ReplyView>,
    at: int,
)
    ensures
        export_subrepo_step(subrepo, None, log, at) matches Step::Ask(request) ==> changes(request)
            ==> {
            &&& load_view_step(subrepo, false, log, at) matches Step::Done(Ok(view), _)
            &&& view.pub_head is Some
            &&& view.related
            &&& view.broken_source_refs.len() == 0
            &&& view.unreflected_pub.len() == 0
        },
{
    lemma_view_asks(subrepo, true, false, log, at);
    match load_view_step(subrepo, false, log, at) {
        Step::Done(Ok(view), at) => {
            law_a_push_needs_a_sound_view(subrepo, view, log, at);
        },
        _ => {},
    }
}

/// What a broken mapping is answered: nothing is pushed over it, and the refusal says so. A
/// preview refuses there too.
pub proof fn law_a_broken_mapping_is_refused(
    subrepo: ResolvedSubrepoView,
    view: SyncViewValue,
    log: Seq<ReplyView>,
    at: int,
)
    requires
        view.broken_source_refs.len() > 0,
    ensures
        check_export_preconditions_step(subrepo, view, log, at) == Step::<Option<Text>>::Done(
            Some(
                crate::exporter::broken_mapping_text(
                    subrepo,
                    view.broken_source_refs[0].pub_sha,
                    view.broken_source_refs[0].mono_sha,
                ),
            ),
            at,
        ),
        push_candidates_step(subrepo, view, log, at) matches Step::Done(result, _) ==> result
            is Err,
        preview_candidates_step(subrepo, view, log, at) matches Step::Done(result, _) ==> result
            is Err,
{
    law_only_the_anchor_moves(subrepo, view, log, at);
}

/// Unimported standalone commits stop a push, recovered anchor or not: a push of such a view
/// ends in a refusal, and so does its preview.
pub proof fn law_unimported_commits_stop_a_push(
    subrepo: ResolvedSubrepoView,
    view: SyncViewValue,
    log: Seq<ReplyView>,
    at: int,
)
    requires
        view.unreflected_pub.len() > 0,
    ensures
        push_candidates_step(subrepo, view, log, at) matches Step::Done(result, _) ==> result
            is Err,
        preview_candidates_step(subrepo, view, log, at) matches Step::Done(result, _) ==> result
            is Err,
        export_view_step(subrepo, view, log, at) matches Step::Done(result, _) ==> result is Err,
{
    law_only_the_anchor_moves(subrepo, view, log, at);
    match related_view_step(
        subrepo,
        view,
        nothing_pushed_text(subrepo),
        log,
        at,
    ) {
        Step::Done(Ok(_), at) => {
            law_only_the_anchor_moves(subrepo, view, log, at);
        },
        _ => {},
    }
}

/// A push changes something only for the sake of something new: there are candidates, the
/// mapping names none of them, and the plan has a commit to write for them. With no candidate, a
/// push that succeeds counts nothing as pushed and nothing as awaiting.
pub proof fn law_a_push_needs_something_new(
    subrepo: ResolvedSubrepoView,
    view: SyncViewValue,
    log: Seq<ReplyView>,
    at: int,
)
    ensures
        match related_view_step(subrepo, view, nothing_pushed_text(subrepo), log, at) {
            Step::Done(Ok(_), next) => match push_candidates_step(subrepo, view, log, next) {
                Step::Done(Ok((after, candidates)), next) => {
                    &&& forall|i: int|
                        0 <= i < candidates.len() ==> !after.exported_mono_to_pub.contains_key(
                            (#[trigger] candidates[i]).mono_sha,
                        )
                    &&& export_view_step(subrepo, view, log, at) matches Step::Ask(request)
                        ==> changes(request) ==> {
                        &&& candidates.len() > 0
                        &&& compute_exports_step(
                            subrepo,
                            after.pub_head,
                            candidates,
                            log,
                            next,
                        ) matches Step::Done(Ok(planned), _)
                        &&& planned.len() > 0
                    }
                    &&& candidates.len() == 0 ==> (export_view_step(
                        subrepo,
                        view,
                        log,
                        at,
                    ) matches Step::Done(Ok(summary), _) ==> summary.pushed == 0 && summary.awaiting
                        == 0)
                },
                _ => export_view_step(subrepo, view, log, at) matches Step::Ask(request)
                    ==> !changes(request),
            },
            _ => export_view_step(subrepo, view, log, at) matches Step::Ask(request) ==> !changes(
                request,
            ),
        },
{
    lemma_verbs();
    let consequence = nothing_pushed_text(subrepo);
    lemma_related_view_asks(subrepo, view, consequence, log, at);
    match related_view_step(subrepo, view, consequence, log, at) {
        Step::Done(Ok(_), next) => {
            lemma_push_candidates_asks(subrepo, view, log, next);
            lemma_candidates_are_unexported(subrepo, view, log, next);
            match push_candidates_step(subrepo, view, log, next) {
                Step::Done(Ok((after, candidates)), next) => {
                    lemma_compute_exports_asks(subrepo, after.pub_head, candidates, log, next);
                    law_nothing_to_export_writes_nothing(
                        subrepo,
                        after.pub_head,
                        after.tracking_ref,
                        log,
                        next,
                    );
                    if candidates.len() == 0 {
                        assert(candidates =~= Seq::empty());
                    }
                },
                _ => {},
            }
        },
        _ => {},
    }
}

/// A push and then another: the second sends nothing. The first exported `exported`; git then
/// lists those public commits and reads their trailers back, and the commits that it lists of the
/// monorepo are among those that were exported. The second push has no candidate, and its export
/// changes nothing and succeeds with nothing pushed.
pub proof fn law_a_second_push_sends_nothing(
    subrepo: ResolvedSubrepoView,
    exported: Seq<ExportedCommitView>,
    walk: Seq<Text>,
    source_by_pub: Seq<(Text, Seq<Text>)>,
    view: SyncViewValue,
    shas: Seq<Text>,
    log: Seq<ReplyView>,
    at: int,
)
    requires
        view.exported_mono_to_pub == exported_map(claims(walk, source_by_pub)),
        forall|k: int|
            0 <= k < exported.len() ==> walk.contains((#[trigger] exported[k]).pub_sha)
                && values_of(source_by_pub, exported[k].pub_sha).contains(exported[k].mono_sha),
        shas_at(log, at) == Some(Ok::<Seq<Text>, GitErrorView>(shas)),
        forall|i: int|
            0 <= i < shas.len() ==> exists|k: int|
                0 <= k < exported.len() && (#[trigger] exported[k]).mono_sha == #[trigger] shas[i],
    ensures
        plan_export_step(subrepo, view, log, at) == Step::<
            Result<Seq<ExportCandidateView>, ExportErrorView>,
        >::Done(Ok(Seq::empty()), at + 1),
        match run_export_step(
            subrepo,
            view.pub_head,
            view.tracking_ref,
            Seq::empty(),
            log,
            at + 1,
        ) {
            Step::Ask(request) => !changes(request),
            Step::Done(Err(_), _) => true,
            Step::Done(Ok(result), _) => {
                &&& result.exported.len() == 0
                &&& result.new_head == view.pub_head
                &&& export_summary(result.exported.len(), result.pushed) == (ExportSummary {
                    pushed: 0,
                    awaiting: 0,
                })
            },
        },
{
    assert forall|i: int| 0 <= i < shas.len() implies view.exported_mono_to_pub.contains_key(
        #[trigger] shas[i],
    ) by {
        let k = choose|k: int|
            0 <= k < exported.len() && (#[trigger] exported[k]).mono_sha == shas[i];
        law_what_was_exported_is_recorded(
            walk,
            source_by_pub,
            exported[k].pub_sha,
            exported[k].mono_sha,
        );
    }
    law_what_is_exported_is_not_exported_again(subrepo, view, shas, log, at);
}

/// A dry run of a push writes nothing, runs no hook, prepares nothing for one, and talks to the
/// source alone.
pub proof fn law_a_push_dry_run_writes_nothing(
    subrepo: ResolvedSubrepoView,
    export_history: bool,
    log: Seq<ReplyView>,
    at: int,
)
    ensures
        plan_push_dry_run_step(subrepo, export_history, log, at) matches Step::Ask(request) ==> {
            &&& view_request(subrepo, false, request)
            &&& !(request is TreeHook)
            &&& !runs_hook(request)
            &&& !prepares_hook(request)
        },
{
    lemma_verbs();
    lemma_view_asks(subrepo, false, false, log, at);
    match preview_view_step(subrepo, log, at) {
        Step::Done(Ok(view), at) => {
            lemma_preview_candidates_asks(subrepo, view, log, at);
        },
        _ => {},
    }
}

/// A dry run of a pull writes nothing, runs no hook, prepares nothing for one, and talks to the
/// source alone.
pub proof fn law_a_pull_dry_run_writes_nothing(
    subrepo: ResolvedSubrepoView,
    log: Seq<ReplyView>,
    at: int,
)
    ensures
        plan_pull_dry_run_step(subrepo, log, at) matches Step::Ask(request) ==> {
            &&& view_request(subrepo, false, request)
            &&& !(request is TreeHook)
            &&& !runs_hook(request)
            &&& !prepares_hook(request)
        },
{
    lemma_verbs();
    lemma_view_asks(subrepo, false, false, log, at);
    match preview_view_step(subrepo, log, at) {
        Step::Done(Ok(view), at) => {
            lemma_related_view_asks(subrepo, view, "Nothing was imported."@, log, at);
        },
        _ => {},
    }
}

/// Does an operation end in this refusal?
pub open spec fn refuses<T>(
    step: Step<Result<T, SubrepoFailureView>>,
    refusal: SubrepoFailureView,
) -> bool {
    step matches Step::Done(Err(failure), _) && failure == refusal
}

/// Does an operation stop at this request?
pub open spec fn asks<T>(step: Step<T>, request: RequestView) -> bool {
    step matches Step::Ask(asked) && asked == request
}

/// Does a dry run end in this list of exports?
pub open spec fn lists(
    plan: Step<Result<DryRunPlanView, SubrepoFailureView>>,
    commits: Seq<PendingCommitView>,
) -> bool {
    plan matches Step::Done(Ok(plan), _) && plan == (DryRunPlanView::Export { commits })
}

/// The commits that a dry run lists.
pub open spec fn listed_shas(commits: Seq<PendingCommitView>) -> Seq<Text> {
    commits.map_values(|commit: PendingCommitView| commit.sha)
}

/// A dry run lists each commit that it is about, in their order.
pub proof fn law_a_dry_run_lists_each_commit(shas: Seq<Text>, log: Seq<ReplyView>, at: int)
    ensures
        pending_step(shas, log, at) matches Step::Done(Ok(commits), _) ==> listed_shas(commits)
            == shas,
{
    match pending_step(shas, log, at) {
        Step::Done(Ok(commits), _) => {
            assert(listed_shas(commits) =~= shas);
        },
        _ => {},
    }
}

/// Does a push go on to export these candidates, and end as that export does?
pub open spec fn exports(
    subrepo: ResolvedSubrepoView,
    view: SyncViewValue,
    candidates: Seq<ExportCandidateView>,
    push: Step<Result<ExportSummary, SubrepoFailureView>>,
    log: Seq<ReplyView>,
    at: int,
) -> bool {
    match run_export_step(subrepo, view.pub_head, view.tracking_ref, candidates, log, at) {
        Step::Ask(request) => asks(push, request),
        Step::Done(Ok(result), _) => push matches Step::Done(Ok(summary), _) && summary
            == export_summary(result.exported.len(), result.pushed),
        Step::Done(Err(err), _) => refuses(
            push,
            SubrepoFailureView::of(export_failure_text(subrepo, err)),
        ),
    }
}

/// What a dry run and a push have in common, from the candidates on: the dry run lists the
/// commits that the push goes on to export, and both refuse in the same words.
pub open spec fn agree_from_candidates(
    subrepo: ResolvedSubrepoView,
    view: SyncViewValue,
    plan: Step<Result<DryRunPlanView, SubrepoFailureView>>,
    push: Step<Result<ExportSummary, SubrepoFailureView>>,
    log: Seq<ReplyView>,
    at: int,
) -> bool {
    match push_candidates_step(subrepo, view, log, at) {
        Step::Ask(request) => {
            &&& asks(plan, request)
            &&& asks(push, request)
        },
        Step::Done(Err(failure), _) => {
            &&& refuses(plan, failure)
            &&& refuses(push, failure)
        },
        Step::Done(Ok((after, candidates)), next) => {
            &&& match pending_step(candidate_shas(candidates), log, next) {
                Step::Ask(request) => asks(plan, request),
                Step::Done(Err(failure), _) => refuses(plan, failure),
                Step::Done(Ok(commits), _) => lists(plan, commits) && listed_shas(commits)
                    == candidate_shas(candidates),
            }
            &&& exports(subrepo, after, candidates, push, log, next)
        },
    }
}

/// The preview agrees with the push: on the same replies, what a dry run lists are the commits
/// that the push goes on to export, and where the push refuses before it starts, so does the dry
/// run, in the same words. With a `transform`, which a dry run leaves alone, the two part ways.
pub proof fn law_the_preview_agrees_with_the_push(
    subrepo: ResolvedSubrepoView,
    export_history: bool,
    log: Seq<ReplyView>,
    at: int,
)
    requires
        subrepo.transform is None,
    ensures
        ({
            let plan = plan_push_dry_run_step(subrepo, export_history, log, at);
            let push = export_subrepo_step(subrepo, None, log, at);
            match load_view_step(subrepo, false, log, at) {
                Step::Ask(request) => {
                    &&& asks(plan, request)
                    &&& asks(push, request)
                },
                Step::Done(Err(failure), _) => {
                    &&& refuses(plan, failure)
                    &&& refuses(push, failure)
                },
                Step::Done(Ok(view), next) => view.pub_head is Some ==> if view.related {
                    agree_from_candidates(subrepo, view, plan, push, log, next)
                } else {
                    let refusal = SubrepoFailureView::of(
                        unrelated_text(subrepo, nothing_pushed_text(subrepo)),
                    );
                    &&& refuses(plan, refusal)
                    &&& refuses(push, refusal)
                },
            }
        }),
{
    law_without_a_transform_a_preview_sees_all(subrepo, log, at);
    match load_view_step(subrepo, false, log, at) {
        Step::Done(Ok(view), next) => match push_candidates_step(subrepo, view, log, next) {
            Step::Done(Ok((_, candidates)), next) => {
                law_a_dry_run_lists_each_commit(candidate_shas(candidates), log, next);
            },
            _ => {},
        },
        _ => {},
    }
}

/// With a `transform` too, a preview refuses what the push refuses, in the same words, wherever
/// the hook has no say: over an unrelated branch, a broken mapping and commits that are left to
/// import. The two views were told the same but for how the trees compare. What the hook decides
/// is the push's own: where a moved anchor is now comes before the last two of these, and a push
/// that fails over it says so. Where there is nothing of the sort neither refuses for it: the
/// preview lists what the scan of its own view gives, in that order, and the push exports what
/// the scan of its own gives.
pub proof fn law_with_a_transform_the_preview_refuses_as_the_push_does(
    subrepo: ResolvedSubrepoView,
    export_history: bool,
    preview_log: Seq<ReplyView>,
    push_log: Seq<ReplyView>,
    at: int,
)
    requires
        0 <= at,
        subrepo.transform is Some,
        (
            preview_view_step(subrepo, preview_log, at),
            load_view_step(subrepo, false, push_log, at),
        ) matches (Step::Done(Ok(_), preview_end), Step::Done(Ok(_), push_end)) && told_the_same(
            subrepo,
            false,
            push_log,
            push_end,
            preview_log,
            preview_end,
            at,
        ),
    ensures
        (
            preview_view_step(subrepo, preview_log, at),
            load_view_step(subrepo, false, push_log, at),
        ) matches (Step::Done(Ok(shown), preview_end), Step::Done(Ok(view), push_end)) && {
            let plan = plan_push_dry_run_step(subrepo, export_history, preview_log, at);
            let push = export_subrepo_step(subrepo, None, push_log, at);
            &&& shown == (SyncViewValue { export_base: shown.export_base, ..view })
            &&& view.pub_head is Some ==> if !view.related {
                let refusal = SubrepoFailureView::of(
                    unrelated_text(subrepo, nothing_pushed_text(subrepo)),
                );
                refuses(plan, refusal) && refuses(push, refusal)
            } else if let Some(problem) = broken_refusal(subrepo, view) {
                &&& refuses(plan, SubrepoFailureView::of(problem))
                &&& match recover_anchor_step(subrepo, view, push_log, push_end) {
                    Step::Ask(request) => asks(push, request),
                    Step::Done(Err(failure), _) => refuses(push, failure),
                    Step::Done(Ok(_), _) => refuses(push, SubrepoFailureView::of(problem)),
                }
            } else if view.unreflected_pub.len() > 0 {
                let refusal = SubrepoFailureView::of(
                    not_imported_text(subrepo, view.unreflected_pub.len()),
                );
                &&& refuses(plan, refusal)
                &&& match recover_anchor_step(subrepo, view, push_log, push_end) {
                    Step::Ask(request) => asks(push, request),
                    Step::Done(Err(failure), _) => refuses(push, failure),
                    Step::Done(Ok(after), next) => match export_base_rewritten_step(
                        after.last_exported_mono,
                        push_log,
                        next,
                    ) {
                        Step::Ask(request) => asks(push, request),
                        Step::Done(true, _) => refuses(
                            push,
                            SubrepoFailureView::of(
                                rewritten_text(subrepo, after.last_exported_mono),
                            ),
                        ),
                        Step::Done(false, _) => refuses(push, refusal),
                    },
                }
            } else {
                &&& match plan_export_step(subrepo, shown, preview_log, preview_end) {
                    Step::Ask(request) => asks(plan, request),
                    Step::Done(Err(err), _) => refuses(plan, SubrepoFailureView::of(err.text())),
                    Step::Done(Ok(candidates), next) => match pending_step(
                        candidate_shas(candidates),
                        preview_log,
                        next,
                    ) {
                        Step::Ask(request) => asks(plan, request),
                        Step::Done(Err(failure), _) => refuses(plan, failure),
                        Step::Done(Ok(commits), _) => lists(plan, commits) && listed_shas(commits)
                            == candidate_shas(candidates),
                    },
                }
                &&& match recover_anchor_step(subrepo, view, push_log, push_end) {
                    Step::Ask(request) => asks(push, request),
                    Step::Done(Err(failure), _) => refuses(push, failure),
                    Step::Done(Ok(after), next) => match export_base_rewritten_step(
                        after.last_exported_mono,
                        push_log,
                        next,
                    ) {
                        Step::Ask(request) => asks(push, request),
                        Step::Done(true, _) => refuses(
                            push,
                            SubrepoFailureView::of(
                                rewritten_text(subrepo, after.last_exported_mono),
                            ),
                        ),
                        Step::Done(false, next) => match plan_export_step(
                            subrepo,
                            after,
                            push_log,
                            next,
                        ) {
                            Step::Ask(request) => asks(push, request),
                            Step::Done(Err(err), _) => refuses(
                                push,
                                SubrepoFailureView::of(err.text()),
                            ),
                            Step::Done(Ok(candidates), next) => exports(
                                subrepo,
                                after,
                                candidates,
                                push,
                                push_log,
                                next,
                            ),
                        },
                    },
                }
            }
        },
{
    law_only_the_base_rests_on_comparisons(
        subrepo,
        true,
        false,
        false,
        push_log,
        preview_log,
        at,
    );
    match (
        preview_view_step(subrepo, preview_log, at),
        load_view_step(subrepo, false, push_log, at),
    ) {
        (Step::Done(Ok(shown), preview_end), Step::Done(Ok(view), push_end)) => {
            law_only_the_anchor_moves(subrepo, view, push_log, push_end);
            match plan_export_step(subrepo, shown, preview_log, preview_end) {
                Step::Done(Ok(candidates), next) => {
                    law_a_dry_run_lists_each_commit(candidate_shas(candidates), preview_log, next);
                },
                _ => {},
            }
        },
        _ => {},
    }
}

/// An import happens only where there is something to import from: the standalone branch exists,
/// the two repositories are related, and nothing stands against it in the work tree. It imports
/// exactly the commits that the monorepo has not seen, and writes nothing else.
pub proof fn law_an_import_needs_a_related_branch(
    subrepo: ResolvedSubrepoView,
    continue_command: Option<Text>,
    log: Seq<ReplyView>,
    at: int,
)
    ensures
        import_subrepo_step(subrepo, continue_command, log, at) matches Step::Ask(request)
            ==> changes(request) ==> {
            &&& load_view_step(subrepo, false, log, at) matches Step::Done(Ok(view), _)
            &&& view.pub_head is Some
            &&& view.related
            &&& request == (RequestView::RunImport {
                target: subrepo,
                shas: view.unreflected_pub,
            })
        },
{
    lemma_view_asks(subrepo, true, false, log, at);
    match load_view_step(subrepo, false, log, at) {
        Step::Done(Ok(view), at) => {
            lemma_related_view_asks(subrepo, view, "Nothing was imported."@, log, at);
        },
        _ => {},
    }
}

// --- first publish ---

/// A baseline is pushed to the subrepo's branch, never by force, and only after its tree was
/// resolved, hooks and all, and is not empty; nor is anything written before that.
pub proof fn law_a_baseline_is_resolved_before_it_is_pushed(
    subrepo: ResolvedSubrepoView,
    head: Text,
    log: Seq<ReplyView>,
    at: int,
)
    ensures
        publish_baseline_step(subrepo, head, log, at) matches Step::Ask(request) ==> changes(
            request,
        ) ==> {
            &&& name_subtree_step(head, subrepo, log, at) matches Step::Done(Ok(Some(subtree)), _)
            &&& subtree.tree != crate::git::EMPTY_TREE@
            &&& !(request is PushRefWithLease)
            &&& request matches RequestView::PushRef { remote, dst, .. } ==> remote
                == subrepo.remote && dst == crate::exporter::branch_ref_text(subrepo.branch)
        },
{
    lemma_verbs();
    lemma_name_subtree_asks(head, subrepo, log, at);
}

/// Publishing is asked about first: until the question was answered with a yes, a first publish
/// writes nothing, runs no hook and talks to nobody; and the question is put only where there is
/// something to publish.
pub proof fn law_a_first_publish_asks_first(
    root: Text,
    subrepo: ResolvedSubrepoView,
    export_history: bool,
    log: Seq<ReplyView>,
    at: int,
)
    ensures
        first_publish_step(root, subrepo, export_history, log, at) matches Step::Ask(request) ==> {
            let asked = rev_at(log, at) matches Some(Some(head)) && has_committed_files_step(
                head,
                subrepo,
                log,
                at + 1,
            ) matches Step::Done(true, next);
            &&& request is Confirm ==> asked
            &&& !local(request) || request is TreeHook || request is RewriteMessage ==> {
                &&& rev_at(log, at) matches Some(Some(head))
                &&& has_committed_files_step(head, subrepo, log, at + 1) matches Step::Done(
                    true,
                    next,
                )
                &&& confirmed_at(log, next) matches Some(Ok(_))
            }
        },
{
    lemma_verbs();
}

/// A declined first publish ends there, with the refusal of the question.
pub proof fn law_a_declined_first_publish_publishes_nothing(
    root: Text,
    subrepo: ResolvedSubrepoView,
    export_history: bool,
    log: Seq<ReplyView>,
    at: int,
)
    requires
        rev_at(log, at) matches Some(Some(head)) && has_committed_files_step(
            head,
            subrepo,
            log,
            at + 1,
        ) matches Step::Done(true, next) && confirmed_at(log, next) matches Some(Err(_)),
    ensures
        rev_at(log, at) matches Some(Some(head)) && has_committed_files_step(
            head,
            subrepo,
            log,
            at + 1,
        ) matches Step::Done(true, next) && confirmed_at(log, next) matches Some(Err(failure))
            && first_publish_step(root, subrepo, export_history, log, at) matches Step::Done(
            Err(refused),
            _,
        ) && refused == failure,
{
}

/// `--yes` asks nothing; without it and without a terminal there is no prompt but a refusal; and
/// at a terminal only a yes lets the publish go on.
pub proof fn law_publishing_is_never_an_accident(
    subrepo: ResolvedSubrepoView,
    opts: ConfirmFirstPublishOptionsView,
    log: Seq<ReplyView>,
    at: int,
)
    ensures
        opts.yes ==> (confirm_first_publish_step(subrepo, opts, log, at) matches Step::Done(
            Ok(_),
            end,
        ) && end == at),
        !opts.yes && flag_at(log, at) == Some(false) ==> (confirm_first_publish_step(
            subrepo,
            opts,
            log,
            at,
        ) matches Step::Done(Err(_), _)),
        !opts.yes ==> (confirm_first_publish_step(subrepo, opts, log, at) matches Step::Done(
            Ok(_),
            _,
        ) ==> flag_at(log, at) == Some(true) && (answer_at(log, at + 1) matches Some(answer)
            && says_yes(answer))),
{
}

// --- small print ---

/// A summary counts each exported commit once: as pushed, or as awaiting upstream.
pub proof fn law_a_summary_counts_each_commit_once(exported: nat, pushed: bool)
    requires
        exported <= usize::MAX,
    ensures
        export_summary(exported, pushed).pushed + export_summary(exported, pushed).awaiting
            == exported,
        pushed ==> export_summary(exported, pushed).awaiting == 0,
        !pushed ==> export_summary(exported, pushed).pushed == 0,
{
}

/// A shortened sha is where the sha begins, at most ten characters, and short already.
pub proof fn law_short_is_a_prefix(sha: Text)
    ensures
        short_text(sha).is_prefix_of(sha),
        short_text(sha).len() <= 10,
        short_text(short_text(sha)) == short_text(sha),
        sha.len() <= 10 ==> short_text(sha) == sha,
{
    assert(sha.subrange(0, sha.len() as int) =~= sha);
    if sha.len() > 10 {
        assert(sha.take(10) =~= sha.subrange(0, 10));
    }
}

} // verus!
