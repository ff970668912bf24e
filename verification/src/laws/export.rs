//! Laws of exporting: what reaches a remote, when, and in which shape.

use vstd::prelude::*;
use vstd::string::*;
use crate::config::ResolvedSubrepoView;
use crate::exporter::{
    branch_ref_text, build_export_chain_step, candidates_of, unexported, plan_export_step,
    chain_rest_step, compute_exports_step, export_commit, fork_push_request, message_step,
    plan_one_step, plan_rest_step, planned_export, published_import_step, push_chain_step,
    run_export_step, tip_tree_step, write_trees_step, ExportCandidateView, ExportErrorView,
    ExportResultView, ExportedCommitView, PlannedExportView,
};
use crate::filter::{
    anchor_subtree_step, filtered_subtree_step, kept_entries, name_subtree_step, without_scan,
    SubtreeView, TreeContentView,
};
use crate::git::{CommitTreeInputView, GitErrorView, TreeEntryView};
use crate::laws::frames::{
    agree, lemma_build_chain_extends, lemma_compute_exports_extends, lemma_name_subtree_extends,
    lemma_load_fork_state_extends, lemma_plan_one_extends, lemma_prefix, lemma_taken,
};
use crate::laws::requests::{
    changes, contacts, lemma_build_chain_asks, lemma_chain_rest_asks, lemma_name_subtree_asks,
    lemma_write_trees_asks, writes_object, lemma_compute_exports_asks, lemma_load_fork_state_asks,
    lemma_verbs, moves_ref, publishes, scans,
};
use crate::list::lemma_filter_contains;
use crate::sync_view::{load_fork_state_step, SyncViewValue};
use crate::talk::{
    commit_at, entries_at, excluded_at, flag_at, hook_at, materialized_at, path_at, rehashed_at,
    shas_at, text_at, ReplyView, RequestView, Step,
};
use crate::text::Text;
use crate::trailers::{
    is_key, law_appended_trailer_reads_back, trailer_text, with_trailer, ORIGIN_TRAILER,
    SOURCE_TRAILER,
};

verus! {

// --- what an export may write, and when ---

/// The one push of an export, where everything that it publishes is known.
pub open spec fn is_the_push(
    subrepo: ResolvedSubrepoView,
    tip: Text,
    request: RequestView,
) -> bool {
    if subrepo.upstream is Some {
        exists|fork_head: Option<Text>|
            fork_head != Some(tip) && request == #[trigger] fork_push_request(
                subrepo,
                tip,
                fork_head,
            )
    } else {
        request == RequestView::PushRef {
            remote: subrepo.remote,
            sha: tip,
            dst: branch_ref_text(subrepo.branch),
        }
    }
}

/// A push is asked for only after every candidate was resolved, hooks and all, and after every
/// tree and every commit of the chain was written; and what it pushes is the tip of that chain.
pub proof fn law_push_comes_last(
    subrepo: ResolvedSubrepoView,
    pub_head: Option<Text>,
    tracking_ref: Text,
    candidates: Seq<ExportCandidateView>,
    log: Seq<ReplyView>,
    at: int,
)
    ensures
        run_export_step(subrepo, pub_head, tracking_ref, candidates, log, at) matches Step::Ask(
            request,
        ) ==> publishes(request) ==> {
            &&& compute_exports_step(subrepo, pub_head, candidates, log, at) matches Step::Done(
                Ok(planned),
                at,
            )
            &&& build_export_chain_step(planned, pub_head, log, at) matches Step::Done(
                Ok((exported, Some(tip))),
                _,
            )
            &&& exported.len() > 0
            &&& is_the_push(subrepo, tip, request)
        },
{
    lemma_verbs();
    lemma_compute_exports_asks(subrepo, pub_head, candidates, log, at);
    match compute_exports_step(subrepo, pub_head, candidates, log, at) {
        Step::Done(Ok(planned), at) => {
            lemma_build_chain_asks(planned, pub_head, log, at);
            match build_export_chain_step(planned, pub_head, log, at) {
                Step::Done(Ok((exported, Some(tip))), at) => {
                    lemma_load_fork_state_asks(subrepo, false, log, at);
                    match load_fork_state_step(subrepo, false, log, at) {
                        Step::Done(Ok(fork), _) => {
                            assert(fork.head != Some(tip) ==> is_the_push(
                                subrepo,
                                tip,
                                fork_push_request(subrepo, tip, fork.head),
                            ) || subrepo.upstream is None);
                        },
                        _ => {},
                    }
                },
                _ => {},
            }
        },
        _ => {},
    }
}

/// A remote is written at most once. When an export has asked for its push, then whatever is
/// replied, it asks for that same push, for the local ref that mirrors it, or for nothing more.
pub proof fn law_a_remote_is_written_once(
    subrepo: ResolvedSubrepoView,
    pub_head: Option<Text>,
    tracking_ref: Text,
    candidates: Seq<ExportCandidateView>,
    log: Seq<ReplyView>,
    longer: Seq<ReplyView>,
    at: int,
)
    requires
        0 <= at <= log.len(),
        log.is_prefix_of(longer),
        run_export_step(subrepo, pub_head, tracking_ref, candidates, log, at) matches Step::Ask(
            request,
        ) && publishes(request),
    ensures
        run_export_step(subrepo, pub_head, tracking_ref, candidates, longer, at) matches Step::Ask(
            next,
        ) ==> next == run_export_step(subrepo, pub_head, tracking_ref, candidates, log, at)->Ask_0
            || moves_ref(next),
{
    lemma_verbs();
    lemma_prefix(log, longer);
    law_push_comes_last(subrepo, pub_head, tracking_ref, candidates, log, at);
    lemma_compute_exports_extends(subrepo, pub_head, candidates, log, longer, at);
    match compute_exports_step(subrepo, pub_head, candidates, log, at) {
        Step::Done(Ok(planned), at) => {
            lemma_build_chain_extends(planned, pub_head, log, longer, at);
            match build_export_chain_step(planned, pub_head, log, at) {
                Step::Done(Ok((exported, Some(tip))), at) => {
                    lemma_load_fork_state_extends(subrepo, false, log, longer, at);
                    lemma_load_fork_state_asks(subrepo, false, log, at);
                },
                _ => {},
            }
        },
        _ => {},
    }
}

/// A rejection publishes nothing: once a candidate could not be resolved (a hook that exits
/// non-zero, say), the export is over with that error, whatever else is replied.
pub proof fn law_a_rejection_publishes_nothing(
    subrepo: ResolvedSubrepoView,
    pub_head: Option<Text>,
    tracking_ref: Text,
    candidates: Seq<ExportCandidateView>,
    log: Seq<ReplyView>,
    longer: Seq<ReplyView>,
    at: int,
)
    requires
        0 <= at <= log.len(),
        log.is_prefix_of(longer),
        compute_exports_step(subrepo, pub_head, candidates, log, at) matches Step::Done(Err(_), _),
    ensures
        compute_exports_step(subrepo, pub_head, candidates, log, at) matches Step::Done(
            Err(err),
            end,
        ) && run_export_step(subrepo, pub_head, tracking_ref, candidates, longer, at)
            == Step::<Result<ExportResultView, ExportErrorView>>::Done(Err(err), end),
{
    lemma_compute_exports_extends(subrepo, pub_head, candidates, log, longer, at);
}

/// Where every candidate is exported already, there is none: whatever git lists, a commit that
/// the mapping names is not exported again, and the export that follows writes nothing.
pub proof fn law_what_is_exported_is_not_exported_again(
    subrepo: ResolvedSubrepoView,
    view: SyncViewValue,
    shas: Seq<Text>,
    log: Seq<ReplyView>,
    at: int,
)
    requires
        shas_at(log, at) == Some(Ok::<Seq<Text>, GitErrorView>(shas)),
        forall|i: int|
            0 <= i < shas.len() ==> view.exported_mono_to_pub.contains_key(#[trigger] shas[i]),
    ensures
        plan_export_step(subrepo, view, log, at) == Step::<
            Result<Seq<ExportCandidateView>, ExportErrorView>,
        >::Done(Ok(Seq::empty()), at + 1),
        match run_export_step(
            subrepo,
            view.pub_head,
            view.tracking_ref,
            Seq::empty(),
            log,
            at + 1,
        ) {
            Step::Ask(request) => !changes(request),
            Step::Done(Err(_), _) => true,
            Step::Done(Ok(result), _) => result.exported.len() == 0 && result.new_head
                == view.pub_head && !result.pushed,
        },
{
    let left = unexported(shas, view.exported_mono_to_pub);
    if left.len() > 0 {
        lemma_filter_contains(
            shas,
            |sha: Text| !view.exported_mono_to_pub.contains_key(sha),
            left[0],
        );
        assert(left.contains(left[0]));
        let i = choose|i: int| 0 <= i < shas.len() && shas[i] == left[0];
        assert(view.exported_mono_to_pub.contains_key(shas[i]));
    }
    assert(candidates_of(left) =~= Seq::empty());
    law_nothing_to_export_writes_nothing(
        subrepo,
        view.pub_head,
        view.tracking_ref,
        log,
        at + 1,
    );
}

proof fn lemma_nothing_new_from(
    subrepo: ResolvedSubrepoView,
    pub_head: Option<Text>,
    candidates: Seq<ExportCandidateView>,
    i: int,
    tip_tree: Text,
    looks: Seq<int>,
    log: Seq<ReplyView>,
)
    requires
        0 <= i <= candidates.len(),
        looks.len() == candidates.len() + 1,
        forall|k: int|
            0 <= k < candidates.len() ==> publishes_nothing_new(
                subrepo,
                (#[trigger] candidates[k]).mono_sha,
                tip_tree,
                log,
                looks[k],
                looks[k + 1],
            ),
    ensures
        plan_rest_step(
            subrepo,
            pub_head,
            candidates,
            i,
            tip_tree,
            Seq::empty(),
            log,
            looks[i],
        ) == Step::<Result<Seq<PlannedExportView>, ExportErrorView>>::Done(
            Ok(Seq::empty()),
            looks.last(),
        ),
    decreases candidates.len() - i,
{
    if i < candidates.len() {
        let _ = candidates[i];
        lemma_nothing_new_from(subrepo, pub_head, candidates, i + 1, tip_tree, looks, log);
    }
}

/// Does a commit publish no content, or nothing but `tree`, as the replies from `p` to `next`
/// have it?
pub open spec fn publishes_nothing_new(
    subrepo: ResolvedSubrepoView,
    mono_sha: Text,
    tree: Text,
    log: Seq<ReplyView>,
    p: int,
    next: int,
) -> bool {
    name_subtree_step(mono_sha, subrepo, log, p) matches Step::Done(Ok(published), end) && end
        == next && (published matches Some(subtree) ==> subtree.tree == tree)
}

/// A candidate that changes nothing publishable costs a look and no more: where each of them
/// publishes the tree that the branch has at its tip, or nothing at all, the export asks for
/// nothing further and leaves the branch as it is. `looks` tells from which replies each
/// candidate was judged, and where the last one ended.
pub proof fn law_what_is_at_the_tip_is_not_exported_again(
    subrepo: ResolvedSubrepoView,
    pub_head: Option<Text>,
    tracking_ref: Text,
    candidates: Seq<ExportCandidateView>,
    tip_tree: Text,
    looks: Seq<int>,
    log: Seq<ReplyView>,
    at: int,
)
    requires
        looks.len() == candidates.len() + 1,
        tip_tree_step(pub_head, log, at) == Step::<Result<Text, GitErrorView>>::Done(
            Ok(tip_tree),
            looks[0],
        ),
        forall|k: int|
            0 <= k < candidates.len() ==> publishes_nothing_new(
                subrepo,
                (#[trigger] candidates[k]).mono_sha,
                tip_tree,
                log,
                looks[k],
                looks[k + 1],
            ),
    ensures
        run_export_step(subrepo, pub_head, tracking_ref, candidates, log, at) == Step::<
            Result<ExportResultView, ExportErrorView>,
        >::Done(
            Ok(ExportResultView { exported: Seq::empty(), new_head: pub_head, pushed: false }),
            looks.last(),
        ),
{
    lemma_nothing_new_from(subrepo, pub_head, candidates, 0, tip_tree, looks, log);
}

/// Everything that an export writes: objects, the one push to the subrepo's own remote, and the
/// local ref that mirrors it. In triangular mode that remote is the fork and the branch is the
/// push branch, so upstream is never written to; without an upstream the push is never forced.
pub proof fn law_an_export_writes_only_to_its_remote(
    subrepo: ResolvedSubrepoView,
    pub_head: Option<Text>,
    tracking_ref: Text,
    candidates: Seq<ExportCandidateView>,
    log: Seq<ReplyView>,
    at: int,
)
    ensures
        run_export_step(subrepo, pub_head, tracking_ref, candidates, log, at) matches Step::Ask(
            request,
        ) ==> {
            &&& !(request is RunImport)
            &&& request matches RequestView::PushRef { remote, dst, .. } ==> remote
                == subrepo.remote && dst == branch_ref_text(
                if subrepo.upstream is Some {
                    subrepo.push_branch
                } else {
                    subrepo.branch
                },
            )
            &&& request matches RequestView::PushRefWithLease { remote, dst, .. }
                ==> subrepo.upstream is Some && remote == subrepo.remote && dst == branch_ref_text(
                subrepo.push_branch,
            )
            &&& contacts(request) && !publishes(request) ==> subrepo.upstream is Some
            &&& request matches RequestView::LsRemoteBranch { remote, .. } ==> remote
                == subrepo.remote
            &&& request matches RequestView::FetchBranch { remote, .. } ==> remote
                == subrepo.remote
        },
{
    law_push_comes_last(subrepo, pub_head, tracking_ref, candidates, log, at);
    lemma_verbs();
    lemma_compute_exports_asks(subrepo, pub_head, candidates, log, at);
    match compute_exports_step(subrepo, pub_head, candidates, log, at) {
        Step::Done(Ok(planned), at) => {
            lemma_build_chain_asks(planned, pub_head, log, at);
            match build_export_chain_step(planned, pub_head, log, at) {
                Step::Done(Ok((exported, Some(tip))), at) => {
                    lemma_load_fork_state_asks(subrepo, false, log, at);
                },
                _ => {},
            }
        },
        _ => {},
    }
}

/// With nothing to export, an export writes nothing: it looks at the public tip at most, and
/// leaves the head where it is.
pub proof fn law_nothing_to_export_writes_nothing(
    subrepo: ResolvedSubrepoView,
    pub_head: Option<Text>,
    tracking_ref: Text,
    log: Seq<ReplyView>,
    at: int,
)
    ensures
        match run_export_step(subrepo, pub_head, tracking_ref, Seq::empty(), log, at) {
            Step::Ask(request) => !changes(request),
            Step::Done(Err(_), _) => true,
            Step::Done(Ok(result), _) => result.exported.len() == 0 && result.new_head == pub_head
                && !result.pushed,
        },
{
    lemma_verbs();
    lemma_compute_exports_asks(subrepo, pub_head, Seq::empty(), log, at);
}

/// A fork branch that already carries the chain is left alone: the export finishes without a
/// push, and says so.
pub proof fn law_an_identical_chain_is_not_pushed_again(
    subrepo: ResolvedSubrepoView,
    tracking_ref: Text,
    tip: Text,
    log: Seq<ReplyView>,
    at: int,
)
    requires
        subrepo.upstream is Some,
        load_fork_state_step(subrepo, false, log, at) matches Step::Done(Ok(fork), _) && fork.head
            == Some(tip),
    ensures
        push_chain_step(subrepo, tracking_ref, tip, log, at) matches Step::Done(Ok(false), _),
{
}

// --- the shape of what is exported ---

/// The trees of a plan, with the tree of the public tip in front.
pub open spec fn trees(tip_tree: Text, planned: Seq<PlannedExportView>) -> Seq<Text> {
    seq![tip_tree] + planned.map_values(|plan: PlannedExportView| plan.tree)
}

/// Each of the trees differs from the one before it.
pub open spec fn each_changes(trees: Seq<Text>) -> bool {
    forall|k: int| 0 < k < trees.len() ==> #[trigger] trees[k] != trees[k - 1]
}

/// The plan says of each export what its commit says, and records where it comes from.
pub open spec fn well_planned(plan: PlannedExportView) -> bool {
    &&& plan.mono_sha == plan.meta.sha
    &&& exists|message: Text|
        plan.message == #[trigger] with_trailer(message, SOURCE_TRAILER@, plan.mono_sha)
}

proof fn lemma_trees_push(tip_tree: Text, planned: Seq<PlannedExportView>, plan: PlannedExportView)
    ensures
        trees(tip_tree, planned.push(plan)) == trees(tip_tree, planned).push(plan.tree),
{
    assert(trees(tip_tree, planned.push(plan)) =~= trees(tip_tree, planned).push(plan.tree));
}

proof fn lemma_plan_one_differs(
    subrepo: ResolvedSubrepoView,
    pub_head: Option<Text>,
    mono_sha: Text,
    tip_tree: Text,
    log: Seq<ReplyView>,
    at: int,
)
    ensures
        plan_one_step(subrepo, pub_head, mono_sha, tip_tree, log, at) matches Step::Done(
            Ok(Some(plan)),
            _,
        ) ==> plan.tree != tip_tree && well_planned(plan),
{
    match name_subtree_step(mono_sha, subrepo, log, at) {
        Step::Done(Ok(Some(subtree)), at) => match commit_at(log, at) {
            Some(Ok(meta)) => match published_import_step(
                pub_head,
                meta.message,
                subtree.tree,
                log,
                at + 1,
            ) {
                Step::Done(false, at) => match message_step(subrepo, meta, log, at) {
                    Step::Done(Ok(message), _) => {
                        let plan = planned_export(meta, subtree, message);
                        assert(plan.message == with_trailer(
                            message,
                            SOURCE_TRAILER@,
                            plan.mono_sha,
                        ));
                    },
                    _ => {},
                },
                _ => {},
            },
            _ => {},
        },
        _ => {},
    }
}

proof fn lemma_plan_rest_differs(
    subrepo: ResolvedSubrepoView,
    pub_head: Option<Text>,
    candidates: Seq<ExportCandidateView>,
    i: int,
    first_tree: Text,
    tip_tree: Text,
    planned: Seq<PlannedExportView>,
    log: Seq<ReplyView>,
    at: int,
)
    requires
        each_changes(trees(first_tree, planned)),
        tip_tree == trees(first_tree, planned).last(),
        forall|k: int| 0 <= k < planned.len() ==> well_planned(#[trigger] planned[k]),
    ensures
        plan_rest_step(
            subrepo,
            pub_head,
            candidates,
            i,
            tip_tree,
            planned,
            log,
            at,
        ) matches Step::Done(Ok(all), _) ==> each_changes(trees(first_tree, all)) && forall|k: int|
            0 <= k < all.len() ==> well_planned(#[trigger] all[k]),
    decreases candidates.len() - i,
{
    if i < candidates.len() {
        let mono_sha = candidates[i].mono_sha;
        lemma_plan_one_differs(subrepo, pub_head, mono_sha, tip_tree, log, at);
        match plan_one_step(subrepo, pub_head, mono_sha, tip_tree, log, at) {
            Step::Done(Ok(None), at) => {
                lemma_plan_rest_differs(
                    subrepo,
                    pub_head,
                    candidates,
                    i + 1,
                    first_tree,
                    tip_tree,
                    planned,
                    log,
                    at,
                );
            },
            Step::Done(Ok(Some(plan)), at) => {
                lemma_trees_push(first_tree, planned, plan);
                lemma_plan_rest_differs(
                    subrepo,
                    pub_head,
                    candidates,
                    i + 1,
                    first_tree,
                    plan.tree,
                    planned.push(plan),
                    log,
                    at,
                );
            },
            _ => {},
        }
    }
}

/// No export is empty: the tree of each planned commit differs from the one that the public
/// branch has before it, beginning with the public tip.
pub proof fn law_no_empty_export(
    subrepo: ResolvedSubrepoView,
    pub_head: Option<Text>,
    candidates: Seq<ExportCandidateView>,
    log: Seq<ReplyView>,
    at: int,
)
    ensures
        compute_exports_step(subrepo, pub_head, candidates, log, at) matches Step::Done(
            Ok(planned),
            _,
        ) ==> {
            &&& tip_tree_step(pub_head, log, at) matches Step::Done(Ok(tip_tree), _)
            &&& each_changes(trees(tip_tree, planned))
        },
{
    match tip_tree_step(pub_head, log, at) {
        Step::Done(Ok(tip_tree), at) => {
            assert(trees(tip_tree, Seq::empty()) =~= seq![tip_tree]);
            lemma_plan_rest_differs(
                subrepo,
                pub_head,
                candidates,
                0,
                tip_tree,
                tip_tree,
                Seq::empty(),
                log,
                at,
            );
        },
        _ => {},
    }
}

/// A commit whose publishable tree is that of the public commit that it was imported from, which
/// the public branch contains: `at` is where the commit was read, and git's two answers follow.
pub open spec fn pure_import(
    pub_head: Option<Text>,
    tree: Text,
    log: Seq<ReplyView>,
    at: int,
) -> bool {
    &&& pub_head is Some
    &&& commit_at(log, at) matches Some(Ok(meta))
    &&& trailer_text(meta.message, ORIGIN_TRAILER@) matches Some(origin)
    &&& origin.len() > 0
    &&& flag_at(log, at + 1) == Some(true)
    &&& text_at(log, at + 2) == Some(Ok::<Text, GitErrorView>(tree))
}

/// An import is dropped by its tree and never by its trailer: a candidate is dropped exactly
/// when it has no content, when the public branch has its tree at the tip already, or when it is
/// a pure import; every other one is planned, with the tree that it publishes, so a conflicted
/// import keeps its resolution.
pub proof fn law_only_what_is_public_is_dropped(
    subrepo: ResolvedSubrepoView,
    pub_head: Option<Text>,
    mono_sha: Text,
    tip_tree: Text,
    log: Seq<ReplyView>,
    at: int,
)
    ensures
        plan_one_step(subrepo, pub_head, mono_sha, tip_tree, log, at) matches Step::Done(
            Ok(plan),
            _,
        ) ==> {
            &&& name_subtree_step(mono_sha, subrepo, log, at) matches Step::Done(
                Ok(subtree),
                then,
            )
            &&& match plan {
                None => subtree matches Some(subtree) ==> subtree.tree == tip_tree || pure_import(
                    pub_head,
                    subtree.tree,
                    log,
                    then,
                ),
                Some(plan) => {
                    &&& subtree == Some(SubtreeView { tree: plan.tree, content: plan.content })
                    &&& plan.tree != tip_tree
                    &&& !pure_import(pub_head, plan.tree, log, then)
                },
            }
        },
{
}

proof fn lemma_last_candidate_from(
    subrepo: ResolvedSubrepoView,
    pub_head: Option<Text>,
    candidates: Seq<ExportCandidateView>,
    i: int,
    first_tree: Text,
    tip_tree: Text,
    planned: Seq<PlannedExportView>,
    log: Seq<ReplyView>,
    at: int,
) -> (p: int)
    requires
        0 <= i < candidates.len(),
        0 <= at <= log.len(),
        tip_tree == trees(first_tree, planned).last(),
    ensures
        plan_rest_step(
            subrepo,
            pub_head,
            candidates,
            i,
            tip_tree,
            planned,
            log,
            at,
        ) matches Step::Done(Ok(all), _) ==> at <= p && ends_at(
            subrepo,
            pub_head,
            candidates.last().mono_sha,
            trees(first_tree, all).last(),
            log,
            p,
        ),
    decreases candidates.len() - i,
{
    let mono_sha = candidates[i].mono_sha;
    law_only_what_is_public_is_dropped(subrepo, pub_head, mono_sha, tip_tree, log, at);
    lemma_plan_one_extends(subrepo, pub_head, mono_sha, tip_tree, log, log, at);
    match plan_one_step(subrepo, pub_head, mono_sha, tip_tree, log, at) {
        Step::Done(Ok(plan), rest_at) => {
            let (next_tip, more) = match plan {
                Some(plan) => (plan.tree, planned.push(plan)),
                None => (tip_tree, planned),
            };
            if let Some(plan) = plan {
                lemma_trees_push(first_tree, planned, plan);
            }
            assert(plan_rest_step(subrepo, pub_head, candidates, i, tip_tree, planned, log, at)
                == plan_rest_step(
                subrepo,
                pub_head,
                candidates,
                i + 1,
                next_tip,
                more,
                log,
                rest_at,
            ));
            if i + 1 == candidates.len() {
                assert(ends_at(subrepo, pub_head, mono_sha, next_tip, log, at));
                at
            } else {
                let p = lemma_last_candidate_from(
                    subrepo,
                    pub_head,
                    candidates,
                    i + 1,
                    first_tree,
                    next_tip,
                    more,
                    log,
                    rest_at,
                );
                assert(at <= rest_at);
                p
            }
        },
        _ => at,
    }
}

/// Does the public branch, with `tree` at its tip, publish what a commit publishes? `p` is where
/// the commit's subtree was resolved. A commit without content has nothing to publish, and the
/// tree of a pure import is on the branch already, if not at its tip.
pub open spec fn ends_at(
    subrepo: ResolvedSubrepoView,
    pub_head: Option<Text>,
    mono_sha: Text,
    tree: Text,
    log: Seq<ReplyView>,
    p: int,
) -> bool {
    &&& name_subtree_step(mono_sha, subrepo, log, p) matches Step::Done(Ok(published), then)
    &&& published matches Some(published) ==> published.tree == tree || pure_import(
        pub_head,
        published.tree,
        log,
        then,
    )
}

/// The public tree is the filtered monorepo tree: once a plan is made, the branch ends with the
/// tree that the newest candidate publishes, unless that candidate has no content or is a pure
/// import.
pub proof fn law_the_branch_ends_with_the_newest_candidate(
    subrepo: ResolvedSubrepoView,
    pub_head: Option<Text>,
    candidates: Seq<ExportCandidateView>,
    log: Seq<ReplyView>,
    at: int,
)
    requires
        0 <= at <= log.len(),
        candidates.len() > 0,
    ensures
        compute_exports_step(subrepo, pub_head, candidates, log, at) matches Step::Done(
            Ok(planned),
            _,
        ) ==> {
            &&& tip_tree_step(pub_head, log, at) matches Step::Done(Ok(tip_tree), _)
            &&& exists|p: int|
                at <= p && #[trigger] ends_at(
                    subrepo,
                    pub_head,
                    candidates.last().mono_sha,
                    trees(tip_tree, planned).last(),
                    log,
                    p,
                )
        },
{
    match tip_tree_step(pub_head, log, at) {
        Step::Done(Ok(tip_tree), then) => {
            assert(trees(tip_tree, Seq::empty()) =~= seq![tip_tree]);
            let p = lemma_last_candidate_from(
                subrepo,
                pub_head,
                candidates,
                0,
                tip_tree,
                tip_tree,
                Seq::empty(),
                log,
                then,
            );
            assert(at <= then);
        },
        _ => {},
    }
}

proof fn lemma_plan_only_grows(
    subrepo: ResolvedSubrepoView,
    pub_head: Option<Text>,
    candidates: Seq<ExportCandidateView>,
    i: int,
    tip_tree: Text,
    planned: Seq<PlannedExportView>,
    log: Seq<ReplyView>,
    at: int,
)
    ensures
        plan_rest_step(
            subrepo,
            pub_head,
            candidates,
            i,
            tip_tree,
            planned,
            log,
            at,
        ) matches Step::Done(Ok(all), _) ==> planned.is_prefix_of(all),
    decreases candidates.len() - i,
{
    if i < candidates.len() {
        let mono_sha = candidates[i].mono_sha;
        match plan_one_step(subrepo, pub_head, mono_sha, tip_tree, log, at) {
            Step::Done(Ok(None), next) => {
                lemma_plan_only_grows(
                    subrepo,
                    pub_head,
                    candidates,
                    i + 1,
                    tip_tree,
                    planned,
                    log,
                    next,
                );
            },
            Step::Done(Ok(Some(plan)), next) => {
                let more = planned.push(plan);
                lemma_plan_only_grows(
                    subrepo,
                    pub_head,
                    candidates,
                    i + 1,
                    plan.tree,
                    more,
                    log,
                    next,
                );
                assert(more.subrange(0, planned.len() as int) =~= planned);
                match plan_rest_step(
                    subrepo,
                    pub_head,
                    candidates,
                    i + 1,
                    plan.tree,
                    more,
                    log,
                    next,
                ) {
                    Step::Done(Ok(all), _) => {
                        assert(all.subrange(0, more.len() as int).subrange(0, planned.len() as int)
                            =~= all.subrange(0, planned.len() as int));
                    },
                    _ => {},
                }
            },
            _ => {},
        }
    } else {
        assert(planned.subrange(0, planned.len() as int) =~= planned);
    }
}

proof fn lemma_plan_of_a_prefix(
    subrepo: ResolvedSubrepoView,
    pub_head: Option<Text>,
    candidates: Seq<ExportCandidateView>,
    n: int,
    i: int,
    tip_tree: Text,
    planned: Seq<PlannedExportView>,
    log: Seq<ReplyView>,
    at: int,
)
    requires
        0 <= i <= n <= candidates.len(),
    ensures
        plan_rest_step(
            subrepo,
            pub_head,
            candidates,
            i,
            tip_tree,
            planned,
            log,
            at,
        ) matches Step::Done(Ok(all), _) ==> (plan_rest_step(
            subrepo,
            pub_head,
            candidates.take(n),
            i,
            tip_tree,
            planned,
            log,
            at,
        ) matches Step::Done(Ok(begun), _) && begun.is_prefix_of(all)),
    decreases n - i,
{
    if i == n {
        lemma_plan_only_grows(subrepo, pub_head, candidates, i, tip_tree, planned, log, at);
    } else {
        let mono_sha = candidates[i].mono_sha;
        match plan_one_step(subrepo, pub_head, mono_sha, tip_tree, log, at) {
            Step::Done(Ok(plan), next) => {
                let (next_tip, more) = match plan {
                    Some(plan) => (plan.tree, planned.push(plan)),
                    None => (tip_tree, planned),
                };
                lemma_plan_of_a_prefix(
                    subrepo,
                    pub_head,
                    candidates,
                    n,
                    i + 1,
                    next_tip,
                    more,
                    log,
                    next,
                );
            },
            _ => {},
        }
    }
}

/// What comes later changes nothing of what comes before: on the same replies, the plan of the
/// first candidates is where the plan of all of them begins.
pub proof fn law_the_plan_of_a_prefix_is_a_prefix(
    subrepo: ResolvedSubrepoView,
    pub_head: Option<Text>,
    candidates: Seq<ExportCandidateView>,
    n: int,
    log: Seq<ReplyView>,
    at: int,
)
    requires
        0 <= n <= candidates.len(),
    ensures
        compute_exports_step(subrepo, pub_head, candidates, log, at) matches Step::Done(
            Ok(planned),
            _,
        ) ==> (compute_exports_step(
            subrepo,
            pub_head,
            candidates.take(n),
            log,
            at,
        ) matches Step::Done(Ok(begun), _) && begun.is_prefix_of(planned)),
{
    match tip_tree_step(pub_head, log, at) {
        Step::Done(Ok(tip_tree), next) => {
            lemma_plan_of_a_prefix(
                subrepo,
                pub_head,
                candidates,
                n,
                0,
                tip_tree,
                Seq::empty(),
                log,
                next,
            );
        },
        _ => {},
    }
}

/// Every exported commit names the monorepo commit that it comes from, whatever the
/// `rewrite-message` hook made of the message: the trailer is appended last.
pub proof fn law_every_export_names_its_source(
    subrepo: ResolvedSubrepoView,
    pub_head: Option<Text>,
    candidates: Seq<ExportCandidateView>,
    log: Seq<ReplyView>,
    at: int,
)
    ensures
        compute_exports_step(subrepo, pub_head, candidates, log, at) matches Step::Done(
            Ok(planned),
            _,
        ) ==> forall|k: int|
            0 <= k < planned.len() && !planned[k].mono_sha.contains('\n') ==> trailer_text(
                (#[trigger] planned[k]).message,
                SOURCE_TRAILER@,
            ) == Some(planned[k].mono_sha),
{
    match tip_tree_step(pub_head, log, at) {
        Step::Done(Ok(tip_tree), rest) => {
            assert(trees(tip_tree, Seq::empty()) =~= seq![tip_tree]);
            lemma_plan_rest_differs(
                subrepo,
                pub_head,
                candidates,
                0,
                tip_tree,
                tip_tree,
                Seq::empty(),
                log,
                rest,
            );
            match compute_exports_step(subrepo, pub_head, candidates, log, at) {
                Step::Done(Ok(planned), _) => {
                    assert forall|k: int|
                        0 <= k < planned.len() && !planned[k].mono_sha.contains(
                            '\n',
                        ) implies trailer_text((#[trigger] planned[k]).message, SOURCE_TRAILER@)
                        == Some(planned[k].mono_sha) by {
                        let plan = planned[k];
                        assert(well_planned(plan));
                        let message = choose|message: Text|
                            plan.message == #[trigger] with_trailer(
                                message,
                                SOURCE_TRAILER@,
                                plan.mono_sha,
                            );
                        lemma_source_trailer_is_a_key();
                        law_appended_trailer_reads_back(message, SOURCE_TRAILER@, plan.mono_sha);
                    }
                },
                _ => {},
            }
        },
        _ => {},
    }
}

proof fn lemma_source_trailer_is_a_key()
    ensures
        is_key(SOURCE_TRAILER@),
{
    reveal_strlit("Monosplice-Source");
}

/// The chain that a plan becomes when a commit's sha is a function of what it records.
pub open spec fn chain_of(
    planned: Seq<PlannedExportView>,
    base: Option<Text>,
    sha_of: spec_fn(CommitTreeInputView) -> Text,
) -> Seq<ExportedCommitView>
    decreases planned.len(),
{
    if planned.len() == 0 {
        Seq::empty()
    } else {
        let before = chain_of(planned.drop_last(), base, sha_of);
        before.push(
            ExportedCommitView {
                mono_sha: planned.last().mono_sha,
                pub_sha: sha_of(export_commit(planned.last(), tip_of(before, base))),
            },
        )
    }
}

/// The tip of a chain on top of `base`.
pub open spec fn tip_of(exported: Seq<ExportedCommitView>, base: Option<Text>) -> Option<Text> {
    if exported.len() == 0 {
        base
    } else {
        Some(exported.last().pub_sha)
    }
}

/// Do the replies give every commit of the chain the sha that its contents determine?
pub open spec fn hashed_by(
    planned: Seq<PlannedExportView>,
    base: Option<Text>,
    sha_of: spec_fn(CommitTreeInputView) -> Text,
    log: Seq<ReplyView>,
    at: int,
) -> bool {
    forall|k: int|
        0 <= k < planned.len() ==> #[trigger] text_at(log, at + k) == Some(
            Ok::<Text, crate::git::GitErrorView>(
                chain_of(planned.take(k + 1), base, sha_of)[k].pub_sha,
            ),
        )
}

proof fn lemma_chain_len(
    planned: Seq<PlannedExportView>,
    base: Option<Text>,
    sha_of: spec_fn(CommitTreeInputView) -> Text,
)
    ensures
        chain_of(planned, base, sha_of).len() == planned.len(),
    decreases planned.len(),
{
    if planned.len() > 0 {
        lemma_chain_len(planned.drop_last(), base, sha_of);
    }
}

proof fn lemma_chain_from(
    planned: Seq<PlannedExportView>,
    base: Option<Text>,
    sha_of: spec_fn(CommitTreeInputView) -> Text,
    i: int,
    log: Seq<ReplyView>,
    at: int,
)
    requires
        0 <= i <= planned.len(),
        hashed_by(planned, base, sha_of, log, at),
    ensures
        ({
            let before = chain_of(planned.take(i), base, sha_of);
            let all = chain_of(planned, base, sha_of);
            chain_rest_step(planned, i, tip_of(before, base), before, log, at + i) == Step::<
                Result<(Seq<ExportedCommitView>, Option<Text>), ExportErrorView>,
            >::Done(Ok((all, tip_of(all, base))), at + planned.len())
        }),
    decreases planned.len() - i,
{
    let before = chain_of(planned.take(i), base, sha_of);
    lemma_chain_len(planned.take(i), base, sha_of);
    if i < planned.len() {
        let next = chain_of(planned.take(i + 1), base, sha_of);
        assert(planned.take(i + 1).drop_last() =~= planned.take(i));
        assert(planned.take(i + 1).last() == planned[i]);
        lemma_chain_len(planned.take(i + 1), base, sha_of);
        assert(text_at(log, at + i) == Some(
            Ok::<Text, crate::git::GitErrorView>(next[i].pub_sha),
        ));
        assert(next =~= before.push(
            ExportedCommitView { mono_sha: planned[i].mono_sha, pub_sha: next[i].pub_sha },
        ));
        lemma_chain_from(planned, base, sha_of, i + 1, log, at);
    } else {
        assert(planned.take(i) =~= planned);
    }
}

/// Exports are sha-deterministic: where a commit's sha is determined by what the commit records,
/// replaying the same plan on the same base gives the same chain, whenever and wherever it is
/// done. `then` is where the trees are written.
pub proof fn law_a_chain_is_deterministic(
    planned: Seq<PlannedExportView>,
    base: Option<Text>,
    sha_of: spec_fn(CommitTreeInputView) -> Text,
    log: Seq<ReplyView>,
    at: int,
    then: int,
)
    requires
        write_trees_step(planned, 0, log, at) == Step::<Result<(), ExportErrorView>>::Done(
            Ok(()),
            then,
        ),
        hashed_by(planned, base, sha_of, log, then),
    ensures
        ({
            let chain = chain_of(planned, base, sha_of);
            build_export_chain_step(planned, base, log, at) == Step::<
                Result<(Seq<ExportedCommitView>, Option<Text>), ExportErrorView>,
            >::Done(Ok((chain, tip_of(chain, base))), then + planned.len())
        }),
{
    assert(chain_of(planned.take(0), base, sha_of) =~= Seq::empty());
    lemma_chain_from(planned, base, sha_of, 0, log, then);
}

proof fn lemma_chain_is_linear_from(
    planned: Seq<PlannedExportView>,
    i: int,
    tip: Option<Text>,
    exported: Seq<ExportedCommitView>,
    base: Option<Text>,
    log: Seq<ReplyView>,
    at: int,
)
    requires
        0 <= i <= planned.len(),
        exported.len() == i,
        tip == tip_of(exported, base),
        forall|k: int|
            0 <= k < i ==> (#[trigger] exported[k]).mono_sha == planned[k].mono_sha,
    ensures
        match chain_rest_step(planned, i, tip, exported, log, at) {
            Step::Ask(request) => exists|k: int, parent: Option<Text>|
                0 <= k < planned.len() && request == RequestView::CommitTree(
                    #[trigger] export_commit(planned[k], parent),
                ),
            Step::Done(Err(_), _) => true,
            Step::Done(Ok((all, last)), end) => {
                &&& all.len() == planned.len()
                &&& last == tip_of(all, base)
                &&& end == at + planned.len() - i
                &&& forall|k: int|
                    0 <= k < all.len() ==> (#[trigger] all[k]).mono_sha == planned[k].mono_sha
                &&& forall|k: int|
                    i <= k < all.len() ==> text_at(log, at + k - i) == Some(
                        Ok::<Text, crate::git::GitErrorView>((#[trigger] all[k]).pub_sha),
                    )
                &&& all.take(i) == exported
            },
        },
    decreases planned.len() - i,
{
    if i < planned.len() {
        match text_at(log, at) {
            Some(Ok(pub_sha)) => {
                let more = exported.push(
                    ExportedCommitView { mono_sha: planned[i].mono_sha, pub_sha },
                );
                lemma_chain_is_linear_from(
                    planned,
                    i + 1,
                    Some(pub_sha),
                    more,
                    base,
                    log,
                    at + 1,
                );
                match chain_rest_step(planned, i + 1, Some(pub_sha), more, log, at + 1) {
                    Step::Done(Ok((all, _)), _) => {
                        assert(all.take(i + 1)[i] == all[i]);
                        assert(all.take(i) =~= all.take(i + 1).take(i));
                        assert(more.take(i) =~= exported);
                        assert forall|k: int| i <= k < all.len() implies text_at(log, at + k - i)
                            == Some(
                            Ok::<Text, crate::git::GitErrorView>((#[trigger] all[k]).pub_sha),
                        ) by {
                            if k > i {
                                assert(at + 1 + k - (i + 1) == at + k - i);
                            }
                        }
                    },
                    _ => {},
                }
            },
            _ => {
                assert(chain_rest_step(planned, i, tip, exported, log, at) is Ask ==> exists|
                    k: int,
                    parent: Option<Text>,
                |
                    0 <= k < planned.len() && RequestView::CommitTree(
                        export_commit(planned[i], tip),
                    ) == RequestView::CommitTree(#[trigger] export_commit(planned[k], parent)));
            },
        }
    } else {
        assert(exported.take(i) =~= exported);
    }
}

/// A chain has one commit for each planned export, in their order; it ends at its last commit;
/// and once its trees are written it takes nothing but one reply for each commit.
pub proof fn law_a_chain_follows_its_plan(
    planned: Seq<PlannedExportView>,
    base: Option<Text>,
    log: Seq<ReplyView>,
    at: int,
)
    ensures
        build_export_chain_step(planned, base, log, at) matches Step::Done(
            Ok((exported, tip)),
            end,
        ) ==> {
            &&& write_trees_step(planned, 0, log, at) matches Step::Done(Ok(_), then)
            &&& exported.len() == planned.len()
            &&& tip == tip_of(exported, base)
            &&& end == then + planned.len()
            &&& forall|k: int|
                0 <= k < exported.len() ==> (#[trigger] exported[k]).mono_sha
                    == planned[k].mono_sha
        },
{
    match write_trees_step(planned, 0, log, at) {
        Step::Done(Ok(_), then) => {
            lemma_chain_is_linear_from(planned, 0, base, Seq::empty(), base, log, then);
        },
        _ => {},
    }
}

/// A chain is linear: after the replies for its first commits, the commit that is asked for next
/// has the last of them as its only parent, or the base where there is none yet; and author and
/// committer are those of the monorepo commit. `then` is where the trees are written.
pub proof fn law_a_chain_is_linear(
    planned: Seq<PlannedExportView>,
    base: Option<Text>,
    shas: Seq<Text>,
    log: Seq<ReplyView>,
    at: int,
    then: int,
)
    requires
        shas.len() < planned.len(),
        write_trees_step(planned, 0, log, at) == Step::<Result<(), ExportErrorView>>::Done(
            Ok(()),
            then,
        ),
        then + shas.len() == log.len(),
        forall|k: int|
            0 <= k < shas.len() ==> text_at(log, then + k) == Some(
                Ok::<Text, crate::git::GitErrorView>(#[trigger] shas[k]),
            ),
    ensures
        ({
            let parent = if shas.len() == 0 {
                base
            } else {
                Some(shas.last())
            };
            build_export_chain_step(planned, base, log, at) == Step::<
                Result<(Seq<ExportedCommitView>, Option<Text>), ExportErrorView>,
            >::Ask(RequestView::CommitTree(export_commit(planned[shas.len() as int], parent)))
        }),
{
    lemma_chain_asks_next(planned, 0, base, Seq::empty(), shas, log, then);
    assert(shas.skip(0) =~= shas);
}

proof fn lemma_chain_asks_next(
    planned: Seq<PlannedExportView>,
    i: int,
    tip: Option<Text>,
    exported: Seq<ExportedCommitView>,
    shas: Seq<Text>,
    log: Seq<ReplyView>,
    at: int,
)
    requires
        0 <= i <= shas.len() < planned.len(),
        at + shas.len() - i == log.len(),
        forall|k: int|
            i <= k < shas.len() ==> text_at(log, at + k - i) == Some(
                Ok::<Text, crate::git::GitErrorView>(#[trigger] shas[k]),
            ),
    ensures
        chain_rest_step(planned, i, tip, exported, log, at) == Step::<
            Result<(Seq<ExportedCommitView>, Option<Text>), ExportErrorView>,
        >::Ask(
            RequestView::CommitTree(
                export_commit(
                    planned[shas.len() as int],
                    if shas.len() == i {
                        tip
                    } else {
                        Some(shas.last())
                    },
                ),
            ),
        ),
    decreases shas.len() - i,
{
    if i < shas.len() {
        assert(text_at(log, at + i - i) == Some(
            Ok::<Text, crate::git::GitErrorView>(shas[i]),
        ));
        let more = exported.push(
            ExportedCommitView { mono_sha: planned[i].mono_sha, pub_sha: shas[i] },
        );
        assert forall|k: int| i + 1 <= k < shas.len() implies text_at(log, at + 1 + k - (i + 1))
            == Some(Ok::<Text, crate::git::GitErrorView>(#[trigger] shas[k])) by {
            assert(at + 1 + k - (i + 1) == at + k - i);
        }
        lemma_chain_asks_next(planned, i + 1, Some(shas[i]), more, shas, log, at + 1);
    }
}

// --- planning and writing ---

/// Planning creates nothing: no request of it writes an object, moves a ref, here or elsewhere,
/// or talks to another repository. The same holds of naming a subtree.
pub proof fn law_planning_creates_nothing(
    subrepo: ResolvedSubrepoView,
    pub_head: Option<Text>,
    candidates: Seq<ExportCandidateView>,
    mono_commit: Text,
    log: Seq<ReplyView>,
    at: int,
)
    ensures
        compute_exports_step(subrepo, pub_head, candidates, log, at) matches Step::Ask(request)
            ==> {
            &&& !writes_object(request)
            &&& !moves_ref(request)
            &&& !publishes(request)
            &&& !contacts(request)
            &&& !(request is RunImport)
        },
        name_subtree_step(mono_commit, subrepo, log, at) matches Step::Ask(request)
            ==> !writes_object(request),
{
    lemma_compute_exports_asks(subrepo, pub_head, candidates, log, at);
    lemma_name_subtree_asks(mono_commit, subrepo, log, at);
}

/// No commit is written before its tree: a chain asks for a commit only once every tree of the
/// plan is written.
pub proof fn law_trees_come_before_commits(
    planned: Seq<PlannedExportView>,
    base: Option<Text>,
    log: Seq<ReplyView>,
    at: int,
)
    ensures
        build_export_chain_step(planned, base, log, at) matches Step::Ask(request) ==> {
            &&& writes_object(request)
            &&& request is CommitTree <==> write_trees_step(planned, 0, log, at) matches Step::Done(
                Ok(_),
                _,
            )
        },
{
    lemma_build_chain_asks(planned, base, log, at);
    lemma_write_trees_asks(planned, 0, log, at);
    match write_trees_step(planned, 0, log, at) {
        Step::Done(Ok(_), at) => {
            lemma_chain_rest_asks(planned, 0, base, Seq::empty(), log, at);
        },
        _ => {},
    }
}

/// What was named is what gets written. A subtree was named by asking for the name of a tree, as
/// the last reply: over the very files that are written, or, where a `transform` ran, over what
/// its directory held and the entries that never were in it.
pub proof fn law_what_is_named_is_written(
    mono_commit: Text,
    subrepo: ResolvedSubrepoView,
    log: Seq<ReplyView>,
    at: int,
)
    requires
        0 <= at <= log.len(),
    ensures
        name_subtree_step(mono_commit, subrepo, log, at) matches Step::Done(
            Ok(Some(subtree)),
            end,
        ) ==> match subtree.content {
            TreeContentView::Committed => subrepo.exclude.len() == 0 && subrepo.scan is None
                && subrepo.transform is None,
            TreeContentView::Files { entries } => {
                &&& subrepo.transform is None
                &&& name_subtree_step(mono_commit, subrepo, log.take(end - 1), at) == Step::<
                    Result<Option<SubtreeView>, crate::filter::FilterErrorView>,
                >::Ask(RequestView::NameTree { entries })
                &&& text_at(log, end - 1) == Some(Ok::<Text, GitErrorView>(subtree.tree))
            },
            TreeContentView::Directory { dir, passthrough } => {
                &&& rehashed_at(log, end - 2) matches Some(Ok(named))
                &&& name_subtree_step(mono_commit, subrepo, log.take(end - 2), at) == Step::<
                    Result<Option<SubtreeView>, crate::filter::FilterErrorView>,
                >::Ask(RequestView::NameFiles { dir })
                &&& name_subtree_step(mono_commit, subrepo, log.take(end - 1), at) == Step::<
                    Result<Option<SubtreeView>, crate::filter::FilterErrorView>,
                >::Ask(RequestView::NameTree { entries: passthrough + named })
                &&& text_at(log, end - 1) == Some(Ok::<Text, GitErrorView>(subtree.tree))
            },
        },
{
    match name_subtree_step(mono_commit, subrepo, log, at) {
        Step::Done(Ok(Some(subtree)), end) => {
            lemma_name_subtree_extends(mono_commit, subrepo, log, log, at);
            lemma_taken(log, end - 1);
            if end >= 2 {
                lemma_taken(log, end - 2);
            }
        },
        _ => {},
    }
}

// --- hooks and excludes ---

/// An excluded file is not published: the entries that are kept are those of the listing whose
/// path is not excluded, in the order of the listing.
pub proof fn law_an_excluded_file_is_not_kept(
    entries: Seq<TreeEntryView>,
    excluded: Seq<Text>,
    entry: TreeEntryView,
)
    ensures
        kept_entries(entries, excluded).contains(entry) <==> entries.contains(entry)
            && !excluded.contains(entry.path),
{
    lemma_filter_contains(
        entries,
        |entry: TreeEntryView| !excluded.contains(entry.path),
        entry,
    );
}

/// Where a scan is configured, no subtree comes out of a commit, and no other hook runs and no
/// tree is even named, before the scan has been asked about that very commit and has passed it.
pub proof fn law_a_scan_comes_first(
    mono_commit: Text,
    subrepo: ResolvedSubrepoView,
    log: Seq<ReplyView>,
    at: int,
)
    requires
        0 <= at <= log.len(),
        subrepo.scan is Some,
        match name_subtree_step(mono_commit, subrepo, log, at) {
            Step::Ask(request) => request is TreeHook && !scans(request) || request is NameTree
                || request is NameFiles,
            Step::Done(result, _) => result matches Ok(Some(_)),
        },
    ensures
        at + 5 < log.len(),
        log[at + 5] matches ReplyView::Hook(Ok(_)),
        commit_at(log, at + 2) matches Some(Ok(meta)) && materialized_at(
            log,
            at + 3,
        ) matches Some(Ok(tree)) && path_at(log, at + 4) matches Some(Ok(message_file))
            && name_subtree_step(mono_commit, subrepo, log.take(at + 5), at) == Step::<
            Result<Option<SubtreeView>, crate::filter::FilterErrorView>,
        >::Ask(
            RequestView::TreeHook {
                hook: "scan"@,
                command: subrepo.scan->0,
                dir: tree.dir,
                subrepo: subrepo.name,
                mono_sha: meta.sha,
                message_file,
            },
        ),
{
    lemma_verbs();
    let short = log.take(at + 5);
    assert(entries_at(log, at) matches Some(Ok(_)));
    assert(excluded_at(log, at + 1) matches Some(Ok(_)));
    assert(commit_at(log, at + 2) matches Some(Ok(_)));
    assert(materialized_at(log, at + 3) matches Some(Ok(_)));
    assert(path_at(log, at + 4) matches Some(Ok(_)));
    assert(hook_at(log, at + 5) matches Some(Ok(_)));
    assert(entries_at(short, at) == entries_at(log, at));
    assert(excluded_at(short, at + 1) == excluded_at(log, at + 1));
    assert(commit_at(short, at + 2) == commit_at(log, at + 2));
    assert(materialized_at(short, at + 3) == materialized_at(log, at + 3));
    assert(path_at(short, at + 4) == path_at(log, at + 4));
    assert(hook_at(short, at + 5) is None);
}

/// A rejecting scan is the end of it: the subtree is refused with what the scan said, whatever
/// else is replied.
pub proof fn law_a_rejecting_scan_refuses(
    mono_commit: Text,
    subrepo: ResolvedSubrepoView,
    log: Seq<ReplyView>,
    at: int,
)
    requires
        0 <= at,
        at + 5 < log.len(),
        subrepo.scan is Some,
        entries_at(log, at) matches Some(Ok(_)),
        excluded_at(log, at + 1) matches Some(Ok(_)),
        commit_at(log, at + 2) matches Some(Ok(_)),
        materialized_at(log, at + 3) matches Some(Ok(_)),
        path_at(log, at + 4) matches Some(Ok(_)),
        hook_at(log, at + 5) matches Some(Err(_)),
    ensures
        hook_at(log, at + 5) matches Some(Err(err)) && name_subtree_step(
            mono_commit,
            subrepo,
            log,
            at,
        ) == Step::<Result<Option<SubtreeView>, crate::filter::FilterErrorView>>::Done(
            Err(crate::filter::FilterErrorView::Hook(err)),
            at + 6,
        ),
{
}

/// Was a scan asked for, as the reply at `p`, and did it pass?
pub open spec fn passed_scan<T>(asked: Step<T>, log: Seq<ReplyView>, p: int) -> bool {
    &&& asked matches Step::Ask(request)
    &&& scans(request)
    &&& log[p] matches ReplyView::Hook(Ok(_))
}

proof fn lemma_planned_were_scanned(
    subrepo: ResolvedSubrepoView,
    pub_head: Option<Text>,
    candidates: Seq<ExportCandidateView>,
    i: int,
    tip_tree: Text,
    planned: Seq<PlannedExportView>,
    log: Seq<ReplyView>,
    at: int,
) -> (scans_at: Seq<int>)
    requires
        0 <= at <= log.len(),
        subrepo.scan is Some,
        plan_rest_step(
            subrepo,
            pub_head,
            candidates,
            i,
            tip_tree,
            planned,
            log,
            at,
        ) matches Step::Done(Ok(_), _),
    ensures
        plan_rest_step(
            subrepo,
            pub_head,
            candidates,
            i,
            tip_tree,
            planned,
            log,
            at,
        ) matches Step::Done(Ok(all), _) && scans_at.len() == all.len() - planned.len(),
        forall|k: int|
            0 <= k < scans_at.len() ==> at <= #[trigger] scans_at[k] < log.len() && passed_scan(
                plan_rest_step(
                    subrepo,
                    pub_head,
                    candidates,
                    i,
                    tip_tree,
                    planned,
                    log.take(scans_at[k]),
                    at,
                ),
                log,
                scans_at[k],
            ),
        forall|j: int, k: int|
            0 <= j < k < scans_at.len() ==> #[trigger] scans_at[j] < #[trigger] scans_at[k],
    decreases candidates.len() - i,
{
    if i >= candidates.len() {
        Seq::empty()
    } else {
        let mono_sha = candidates[i].mono_sha;
        let one = plan_one_step(subrepo, pub_head, mono_sha, tip_tree, log, at);
        lemma_plan_one_extends(subrepo, pub_head, mono_sha, tip_tree, log, log, at);
        let rest_at = one->Done_1;
        let (next_tip, more) = match one->Done_0 {
            Ok(Some(plan)) => (plan.tree, planned.push(plan)),
            _ => (tip_tree, planned),
        };
        let rest = lemma_planned_were_scanned(
            subrepo,
            pub_head,
            candidates,
            i + 1,
            next_tip,
            more,
            log,
            rest_at,
        );
        assert forall|k: int| 0 <= k < rest.len() implies passed_scan(
            plan_rest_step(
                subrepo,
                pub_head,
                candidates,
                i,
                tip_tree,
                planned,
                log.take(#[trigger] rest[k]),
                at,
            ),
            log,
            rest[k],
        ) by {
            let short = log.take(rest[k]);
            lemma_taken(log, rest[k]);
            lemma_plan_one_extends(subrepo, pub_head, mono_sha, tip_tree, log, short, at);
            assert(agree(log, short, rest_at));
            assert(plan_one_step(subrepo, pub_head, mono_sha, tip_tree, short, at) == one);
        }
        if one->Done_0 matches Ok(Some(_)) {
            law_a_scan_comes_first(mono_sha, subrepo, log, at);
            lemma_name_subtree_extends(mono_sha, subrepo, log, log, at);
            assert(at + 5 < rest_at);
            assert(passed_scan(
                plan_rest_step(
                    subrepo,
                    pub_head,
                    candidates,
                    i,
                    tip_tree,
                    planned,
                    log.take(at + 5),
                    at,
                ),
                log,
                at + 5,
            ));
            seq![at + 5] + rest
        } else {
            rest
        }
    }
}

/// The scan runs against every exported commit, not just the last one: for each planned export
/// the plan was stopped, at a place of its own, to ask for a scan, and went on because the scan
/// passed.
pub proof fn law_every_export_was_scanned(
    subrepo: ResolvedSubrepoView,
    pub_head: Option<Text>,
    candidates: Seq<ExportCandidateView>,
    log: Seq<ReplyView>,
    at: int,
) -> (scans_at: Seq<int>)
    requires
        0 <= at <= log.len(),
        subrepo.scan is Some,
        compute_exports_step(subrepo, pub_head, candidates, log, at) matches Step::Done(Ok(_), _),
    ensures
        compute_exports_step(subrepo, pub_head, candidates, log, at) matches Step::Done(
            Ok(planned),
            _,
        ) && scans_at.len() == planned.len(),
        forall|k: int|
            0 <= k < scans_at.len() ==> at <= #[trigger] scans_at[k] < log.len() && passed_scan(
                compute_exports_step(subrepo, pub_head, candidates, log.take(scans_at[k]), at),
                log,
                scans_at[k],
            ),
        forall|j: int, k: int|
            0 <= j < k < scans_at.len() ==> #[trigger] scans_at[j] < #[trigger] scans_at[k],
{
    let tip = tip_tree_step(pub_head, log, at);
    let rest_at = tip->Done_1;
    let scans_at = lemma_planned_were_scanned(
        subrepo,
        pub_head,
        candidates,
        0,
        tip->Done_0->Ok_0,
        Seq::empty(),
        log,
        rest_at,
    );
    assert forall|k: int| 0 <= k < scans_at.len() implies at <= #[trigger] scans_at[k]
        < log.len() && passed_scan(
        compute_exports_step(subrepo, pub_head, candidates, log.take(scans_at[k]), at),
        log,
        scans_at[k],
    ) by {
        assert(tip_tree_step(pub_head, log.take(scans_at[k]), at) == tip);
    }
    scans_at
}

/// As an identity, a commit's subtree does not depend on the scan: it is what would be published
/// if no scan were configured.
pub proof fn law_an_anchor_ignores_the_scan(
    mono_commit: Text,
    subrepo: ResolvedSubrepoView,
    scan: Option<Text>,
    log: Seq<ReplyView>,
    at: int,
)
    ensures
        anchor_subtree_step(mono_commit, ResolvedSubrepoView { scan, ..subrepo }, log, at)
            == anchor_subtree_step(mono_commit, subrepo, log, at),
        match (
            anchor_subtree_step(mono_commit, subrepo, log, at),
            name_subtree_step(mono_commit, without_scan(subrepo), log, at),
        ) {
            (Step::Ask(asked), Step::Ask(request)) => asked == request,
            (Step::Done(Ok(Some(tree)), end), Step::Done(Ok(Some(subtree)), then)) => tree
                == subtree.tree && end == then,
            (Step::Done(Ok(None), end), Step::Done(Ok(None), then)) => end == then,
            (Step::Done(Err(err), end), Step::Done(Err(refused), then)) => err == refused && end
                == then,
            _ => false,
        },
        filtered_subtree_step(mono_commit, without_scan(subrepo), log, at) matches Step::Done(
            Ok(published),
            _,
        ) ==> (anchor_subtree_step(mono_commit, subrepo, log, at) matches Step::Done(Ok(tree), _)
            && tree == published),
{
    assert(without_scan(ResolvedSubrepoView { scan, ..subrepo }) == without_scan(subrepo));
}

} // verus!
