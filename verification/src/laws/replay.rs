//! What an export replays, reply by reply: which commits, in which order, under whose name, and
//! where they go.

use vstd::prelude::*;
use vstd::string::*;
use crate::config::ResolvedSubrepoView;
use crate::exporter::{
    build_export_chain_step, candidates_of, chain_rest_step, check_export_preconditions_step,
    compute_exports_step, export_base_rewritten_step, find_anchor_recovery_step,
    live_export_anchor_step, plan_export_step, plan_one_step, plan_rest_step, publish_baseline_step,
    publish_full_history_step, push_chain_step, recover_export_anchor_step, recovery_walk_step,
    run_export_step, tip_tree_step, unexported, write_trees_step, AnchorRecoveryView,
    ExportCandidateView, ExportErrorView, ExportedCommitView, PlannedExportView,
};
use crate::filter::{name_subtree_step, write_subtree_step, FilterErrorView};
use crate::git::{CommitTreeInputView, GitErrorView};
use crate::laws::filtering::{
    law_a_subtree_is_written_as_it_is, law_the_last_reply_decides_a_subtree,
};
use crate::laws::requests::lemma_write_trees_asks;
use crate::laws::vocabulary::{fork_mirror_ref, mirror_ref};
use crate::sync_view::{load_fork_state_step, SyncViewValue};
use crate::talk::{
    acted_at, commit_at, flag_at, rewritten_at, shas_at, text_at, ReplyView, RequestView, Step,
};
use crate::text::{decimal_text, Text};
use crate::trailers::{strip_newlines, trailer_text};

verus! {

// --- which commits ---

/// The candidates of an export are the commits that git lists as touching the subrepo's path, on
/// top of the scan base, oldest first: all of them that the mapping does not name, in that order.
pub proof fn law_the_candidates_touch_the_path(
    subrepo: ResolvedSubrepoView,
    view: SyncViewValue,
    log: Seq<ReplyView>,
    at: int,
)
    ensures
        match shas_at(log, at) {
            None => plan_export_step(subrepo, view, log, at) matches Step::Ask(
                RequestView::RevList { args },
            ) && args == seq![
                "--reverse"@,
                "--topo-order"@,
                if view.export_base is Some {
                    view.export_base->0 + "..HEAD"@
                } else {
                    "HEAD"@
                },
                "--"@,
                subrepo.path,
            ],
            Some(Err(err)) => plan_export_step(subrepo, view, log, at) matches Step::Done(
                Err(failed),
                _,
            ) && failed == ExportErrorView::Git(err),
            Some(Ok(shas)) => plan_export_step(subrepo, view, log, at) matches Step::Done(
                Ok(candidates),
                end,
            ) && end == at + 1 && candidates.map_values(
                |candidate: ExportCandidateView| candidate.mono_sha,
            ) == shas.filter(|sha: Text| !view.exported_mono_to_pub.contains_key(sha)),
        },
{
    match shas_at(log, at) {
        Some(Ok(shas)) => {
            let left = unexported(shas, view.exported_mono_to_pub);
            assert(candidates_of(left).map_values(
                |candidate: ExportCandidateView| candidate.mono_sha,
            ) =~= left);
        },
        _ => {},
    }
}

/// A first publish with its history replays every commit up to `mono_head` that git lists as
/// touching the subrepo's path, whatever its name, oldest first, onto nothing.
pub proof fn law_the_full_history_touches_the_path(
    subrepo: ResolvedSubrepoView,
    mono_head: Text,
    log: Seq<ReplyView>,
    at: int,
)
    ensures
        match shas_at(log, at) {
            None => publish_full_history_step(subrepo, mono_head, log, at) matches Step::Ask(
                RequestView::RevList { args },
            ) && args == seq!["--reverse"@, "--topo-order"@, mono_head, "--"@, subrepo.path],
            Some(Err(err)) => publish_full_history_step(
                subrepo,
                mono_head,
                log,
                at,
            ) matches Step::Done(Err(failed), _) && failed == ExportErrorView::Git(err),
            Some(Ok(shas)) => forall|candidates: Seq<ExportCandidateView>|
                candidates.len() == shas.len() && (forall|i: int|
                    0 <= i < shas.len() ==> (#[trigger] candidates[i]).mono_sha == shas[i])
                    ==> publish_full_history_step(subrepo, mono_head, log, at)
                    == #[trigger] run_export_step(
                    subrepo,
                    None,
                    mirror_ref(subrepo),
                    candidates,
                    log,
                    at + 1,
                ),
        },
{
    match shas_at(log, at) {
        Some(Ok(shas)) => {
            assert forall|candidates: Seq<ExportCandidateView>|
                candidates.len() == shas.len() && (forall|i: int|
                    0 <= i < shas.len() ==> (#[trigger] candidates[i]).mono_sha
                        == shas[i]) implies publish_full_history_step(subrepo, mono_head, log, at)
                == #[trigger] run_export_step(
                subrepo,
                None,
                mirror_ref(subrepo),
                candidates,
                log,
                at + 1,
            ) by {
                assert(candidates =~= candidates_of(shas));
            }
        },
        _ => {},
    }
}

// --- what each of them becomes ---

/// What is asked to plan one candidate, besides what resolves its subtree: the candidate itself;
/// whether the public head contains the commit that its message says it was imported from, and
/// the tree of that commit; and the message hook, with the commit's own message and sha.
pub proof fn law_a_candidate_is_judged_by_its_own_commit(
    subrepo: ResolvedSubrepoView,
    pub_head: Option<Text>,
    mono_sha: Text,
    tip_tree: Text,
    log: Seq<ReplyView>,
    at: int,
)
    ensures
        plan_one_step(subrepo, pub_head, mono_sha, tip_tree, log, at) matches Step::Ask(request)
            ==> match name_subtree_step(mono_sha, subrepo, log, at) {
            Step::Ask(asked) => request == asked,
            Step::Done(subtree, next) => {
                &&& subtree matches Ok(Some(found)) && found.tree != tip_tree
                &&& match commit_at(log, next) {
                    None => request == (RequestView::ReadCommit { rev: mono_sha }),
                    Some(Ok(meta)) => match request {
                        RequestView::GitOk { args } => {
                            &&& pub_head matches Some(head)
                            &&& trailer_text(meta.message, "Monosplice-Origin"@) matches Some(
                                origin,
                            )
                            &&& args == seq!["merge-base"@, "--is-ancestor"@, origin, head]
                        },
                        RequestView::Git { args, input } => {
                            &&& trailer_text(meta.message, "Monosplice-Origin"@) matches Some(
                                origin,
                            )
                            &&& flag_at(log, next + 1) == Some(true)
                            &&& args == seq!["rev-parse"@, origin + "^{tree}"@]
                            &&& input is None
                        },
                        RequestView::RewriteMessage {
                            command,
                            subrepo: name,
                            mono_sha,
                            message,
                        } => {
                            &&& subrepo.rewrite_message == Some(command)
                            &&& name == subrepo.name
                            &&& mono_sha == meta.sha
                            &&& message == meta.message
                        },
                        _ => false,
                    },
                    _ => false,
                }
            },
        },
{
}

/// Is `message` the text `body`, with a `Monosplice-Source` trailer for `mono_sha` appended, as a
/// paragraph of its own or to the trailers that are there?
pub open spec fn says_where_it_comes_from(message: Text, body: Text, mono_sha: Text) -> bool {
    exists|gap: Text|
        (gap == "\n"@ || gap == "\n\n"@) && message == #[trigger] (strip_newlines(body) + gap)
            + "Monosplice-Source"@ + ": "@ + mono_sha + "\n"@
}

/// A planned export is the commit that it replays: its tree is what that commit publishes, its
/// message is that commit's, or what the message hook made of it, and says where it comes from;
/// and everything else that git recorded is carried along.
pub proof fn law_a_plan_is_the_commit_that_it_replays(
    subrepo: ResolvedSubrepoView,
    pub_head: Option<Text>,
    mono_sha: Text,
    tip_tree: Text,
    log: Seq<ReplyView>,
    at: int,
)
    ensures
        plan_one_step(subrepo, pub_head, mono_sha, tip_tree, log, at) matches Step::Done(
            Ok(Some(plan)),
            end,
        ) ==> {
            &&& name_subtree_step(mono_sha, subrepo, log, at) matches Step::Done(
                Ok(Some(subtree)),
                next,
            )
            &&& plan.tree == subtree.tree
            &&& plan.content == subtree.content
            &&& commit_at(log, next) matches Some(Ok(meta))
            &&& plan.meta == meta
            &&& plan.mono_sha == meta.sha
            &&& if subrepo.rewrite_message is None {
                says_where_it_comes_from(plan.message, meta.message, meta.sha)
            } else {
                rewritten_at(log, end - 1) matches Some(Ok(rewritten)) && says_where_it_comes_from(
                    plan.message,
                    rewritten,
                    meta.sha,
                )
            }
        },
{
    match plan_one_step(subrepo, pub_head, mono_sha, tip_tree, log, at) {
        Step::Done(Ok(Some(plan)), end) => {
            match name_subtree_step(mono_sha, subrepo, log, at) {
                Step::Done(Ok(Some(_)), next) => match commit_at(log, next) {
                    Some(Ok(meta)) => {
                        let body = if subrepo.rewrite_message is None {
                            meta.message
                        } else {
                            (rewritten_at(log, end - 1)->0)->Ok_0
                        };
                        let kept = strip_newlines(body);
                        let one = (kept + "\n"@) + "Monosplice-Source"@ + ": "@ + meta.sha + "\n"@;
                        let two = (kept + "\n\n"@) + "Monosplice-Source"@ + ": "@ + meta.sha
                            + "\n"@;
                        assert(plan.message =~= one || plan.message =~= two);
                    },
                    _ => {},
                },
                _ => {},
            }
        },
        _ => {},
    }
}

/// The plans among what the candidates came to, in their order.
pub open spec fn plans_among(outcomes: Seq<Option<PlannedExportView>>) -> Seq<PlannedExportView>
    decreases outcomes.len(),
{
    if outcomes.len() == 0 {
        Seq::empty()
    } else {
        match outcomes.last() {
            Some(plan) => plans_among(outcomes.drop_last()).push(plan),
            None => plans_among(outcomes.drop_last()),
        }
    }
}

/// The tree that the branch ends with once these outcomes are on top of `tip_tree`.
pub open spec fn tree_after(
    tip_tree: Text,
    outcomes: Seq<Option<PlannedExportView>>,
) -> Text {
    if plans_among(outcomes).len() == 0 {
        tip_tree
    } else {
        plans_among(outcomes).last().tree
    }
}

/// Does a candidate come to this outcome on top of `tip_tree`, as the replies from `p` on have it?
pub open spec fn comes_to(
    subrepo: ResolvedSubrepoView,
    pub_head: Option<Text>,
    mono_sha: Text,
    tip_tree: Text,
    log: Seq<ReplyView>,
    p: int,
    outcome: Option<PlannedExportView>,
) -> bool {
    plan_one_step(subrepo, pub_head, mono_sha, tip_tree, log, p) matches Step::Done(Ok(plan), _)
        && plan == outcome
}

proof fn lemma_each_is_planned(
    subrepo: ResolvedSubrepoView,
    pub_head: Option<Text>,
    candidates: Seq<ExportCandidateView>,
    first_tree: Text,
    outcomes: Seq<Option<PlannedExportView>>,
    looks: Seq<int>,
    log: Seq<ReplyView>,
    at: int,
) -> (all: (Seq<Option<PlannedExportView>>, Seq<int>))
    requires
        outcomes.len() <= candidates.len(),
        looks.len() == outcomes.len(),
        forall|i: int|
            0 <= i < outcomes.len() ==> #[trigger] comes_to(
                subrepo,
                pub_head,
                candidates[i].mono_sha,
                tree_after(first_tree, outcomes.take(i)),
                log,
                looks[i],
                outcomes[i],
            ),
    ensures
        plan_rest_step(
            subrepo,
            pub_head,
            candidates,
            outcomes.len() as int,
            tree_after(first_tree, outcomes),
            plans_among(outcomes),
            log,
            at,
        ) matches Step::Done(Ok(planned), _) ==> {
            let (results, seen) = all;
            &&& results.len() == candidates.len()
            &&& seen.len() == candidates.len()
            &&& planned == plans_among(results)
            &&& forall|i: int|
                0 <= i < candidates.len() ==> #[trigger] comes_to(
                subrepo,
                pub_head,
                candidates[i].mono_sha,
                tree_after(first_tree, results.take(i)),
                log,
                seen[i],
                results[i],
            )
        },
    decreases candidates.len() - outcomes.len(),
{
    let n = outcomes.len() as int;
    if n >= candidates.len() {
        (outcomes, looks)
    } else {
        let tip = tree_after(first_tree, outcomes);
        match plan_one_step(subrepo, pub_head, candidates[n].mono_sha, tip, log, at) {
            Step::Done(Ok(plan), next) => {
                let more = outcomes.push(plan);
                let seen = looks.push(at);
                assert(more.drop_last() =~= outcomes);
                assert forall|i: int| 0 <= i < more.len() implies #[trigger] comes_to(
                subrepo,
                pub_head,
                candidates[i].mono_sha,
                tree_after(first_tree, more.take(i)),
                log,
                seen[i],
                more[i],
            ) by {
                    if i < n {
                        assert(more.take(i) =~= outcomes.take(i));
                        assert(comes_to(
                            subrepo,
                            pub_head,
                            candidates[i].mono_sha,
                            tree_after(first_tree, outcomes.take(i)),
                            log,
                            looks[i],
                            outcomes[i],
                        ));
                    } else {
                        assert(more.take(i) =~= outcomes);
                    }
                }
                lemma_each_is_planned(
                    subrepo,
                    pub_head,
                    candidates,
                    first_tree,
                    more,
                    seen,
                    log,
                    next,
                )
            },
            _ => (outcomes, looks),
        }
    }
}

/// Every candidate is considered, in its order, and on top of what the ones before it leave at
/// the tip of the branch; the plan is what they come to. The first of them stands on the tree of
/// the public head, or on the empty tree. `looks` tells from which replies each was judged.
pub proof fn law_every_candidate_is_planned(
    subrepo: ResolvedSubrepoView,
    pub_head: Option<Text>,
    candidates: Seq<ExportCandidateView>,
    log: Seq<ReplyView>,
    at: int,
) -> (all: (Seq<Option<PlannedExportView>>, Seq<int>))
    ensures
        compute_exports_step(subrepo, pub_head, candidates, log, at) matches Step::Done(
            Ok(planned),
            _,
        ) ==> {
            let (outcomes, looks) = all;
            let tip_tree = if pub_head is Some {
                (text_at(log, at)->0)->Ok_0
            } else {
                "4b825dc642cb6eb9a060e54bf8d69288fbee4904"@
            };
            &&& pub_head is Some ==> (text_at(log, at) matches Some(Ok(_)))
            &&& outcomes.len() == candidates.len()
            &&& looks.len() == candidates.len()
            &&& planned == plans_among(outcomes)
            &&& forall|i: int|
                0 <= i < candidates.len() ==> #[trigger] comes_to(
                subrepo,
                pub_head,
                candidates[i].mono_sha,
                tree_after(tip_tree, outcomes.take(i)),
                log,
                looks[i],
                outcomes[i],
            )
        },
        pub_head matches Some(head) ==> text_at(log, at) is None ==> (compute_exports_step(
            subrepo,
            pub_head,
            candidates,
            log,
            at,
        ) matches Step::Ask(RequestView::Git { args, input }) && args == seq![
            "rev-parse"@,
            head + "^{tree}"@,
        ] && input is None),
{
    match tip_tree_step(pub_head, log, at) {
        Step::Done(Ok(tip_tree), next) => lemma_each_is_planned(
            subrepo,
            pub_head,
            candidates,
            tip_tree,
            Seq::empty(),
            Seq::empty(),
            log,
            next,
        ),
        _ => (Seq::empty(), Seq::empty()),
    }
}

// --- the commits that are written ---

/// Is `input` the commit that replays `plan`? Its author and its committer, their addresses and
/// their dates are those of the monorepo commit, each in its own place.
pub open spec fn replays(input: CommitTreeInputView, plan: PlannedExportView) -> bool {
    &&& input.author_name == plan.meta.author_name
    &&& input.author_email == plan.meta.author_email
    &&& input.author_date == plan.meta.author_date
    &&& input.committer_name == plan.meta.committer_name
    &&& input.committer_email == plan.meta.committer_email
    &&& input.committer_date == plan.meta.committer_date
    &&& input.tree == plan.tree
    &&& input.message == plan.message
}

proof fn lemma_chain_replays(
    planned: Seq<PlannedExportView>,
    i: int,
    tip: Option<Text>,
    exported: Seq<ExportedCommitView>,
    log: Seq<ReplyView>,
    at: int,
)
    requires
        0 <= i <= planned.len(),
        exported.len() == i,
    ensures
        match chain_rest_step(planned, i, tip, exported, log, at) {
            Step::Ask(request) => request matches RequestView::CommitTree(input) && exists|k: int|
                #![trigger planned[k]]
                i <= k < planned.len() && replays(input, planned[k]) && text_at(log, at + (k - i))
                    is None && if k == i {
                    input.parents == match tip {
                        Some(tip) => seq![tip],
                        None => Seq::empty(),
                    }
                } else {
                    text_at(log, at + (k - i) - 1) matches Some(Ok(parent)) && input.parents
                        == seq![parent]
                },
            Step::Done(Err(failed), end) => text_at(log, end - 1) matches Some(Err(err)) && failed
                == ExportErrorView::Git(err),
            Step::Done(Ok((all, last)), end) => {
                &&& end == at + (planned.len() - i)
                &&& all.len() == planned.len()
                &&& exported.is_prefix_of(all)
                &&& forall|k: int|
                    i <= k < planned.len() ==> (#[trigger] all[k]).mono_sha == planned[k].mono_sha
                        && text_at(log, at + (k - i)) == Some(
                        Ok::<Text, GitErrorView>(all[k].pub_sha),
                    )
                &&& last == if planned.len() == i {
                    tip
                } else {
                    Some(all.last().pub_sha)
                }
            },
        },
    decreases planned.len() - i,
{
    if i < planned.len() {
        match text_at(log, at) {
            None => {
                assert(replays(
                    chain_rest_step(planned, i, tip, exported, log, at)->Ask_0->CommitTree_0,
                    planned[i],
                ));
            },
            Some(Ok(pub_sha)) => {
                let more = exported.push(
                    ExportedCommitView { mono_sha: planned[i].mono_sha, pub_sha },
                );
                lemma_chain_replays(planned, i + 1, Some(pub_sha), more, log, at + 1);
                match chain_rest_step(planned, i + 1, Some(pub_sha), more, log, at + 1) {
                    Step::Done(Ok((all, _)), _) => {
                        assert(all[i] == more[i]);
                        assert(exported =~= all.subrange(0, exported.len() as int)) by {
                            assert(more =~= all.subrange(0, more.len() as int));
                            assert forall|k: int| 0 <= k < exported.len() implies exported[k]
                                == all[k] by {
                                assert(more[k] == all.subrange(0, more.len() as int)[k]);
                            }
                        }
                        assert forall|k: int| i <= k < planned.len() implies (
                        #[trigger] all[k]).mono_sha == planned[k].mono_sha && text_at(
                            log,
                            at + (k - i),
                        ) == Some(Ok::<Text, GitErrorView>(all[k].pub_sha)) by {
                            if k > i {
                                assert(at + 1 + (k - (i + 1)) == at + (k - i));
                            }
                        }
                    },
                    Step::Ask(request) => {
                        let input = request->CommitTree_0;
                        let k = choose|k: int|
                            #![trigger planned[k]]
                            i + 1 <= k < planned.len() && replays(input, planned[k]) && text_at(
                                log,
                                at + 1 + (k - (i + 1)),
                            ) is None && if k == i + 1 {
                                input.parents == seq![pub_sha]
                            } else {
                                text_at(log, at + 1 + (k - (i + 1)) - 1) matches Some(Ok(parent))
                                    && input.parents == seq![parent]
                            };
                        assert(at + 1 + (k - (i + 1)) == at + (k - i));
                        assert(replays(input, planned[k]));
                    },
                    _ => {},
                }
            },
            _ => {},
        }
    } else {
        assert(exported.subrange(0, exported.len() as int) =~= exported);
    }
}

/// A chain replays its plan, commit by commit: every commit that is asked for has the tree, the
/// message, the author and the committer of one planned export, dates and all, and as its only
/// parent the commit that was written before it, or the base where there is none before it. Once
/// it is built, there is one commit for each planned export, paired with the monorepo commit that
/// it replays, and the chain ends at the last of them. `then` is where the trees are written.
pub proof fn law_a_chain_keeps_author_and_committer(
    planned: Seq<PlannedExportView>,
    base: Option<Text>,
    log: Seq<ReplyView>,
    at: int,
)
    ensures
        match write_trees_step(planned, 0, log, at) {
            Step::Done(Ok(_), then) => match build_export_chain_step(planned, base, log, at) {
                Step::Ask(request) => request matches RequestView::CommitTree(input) && exists|
                    k: int,
                |
                    #![trigger planned[k]]
                    0 <= k < planned.len() && replays(input, planned[k]) && text_at(log, then + k)
                        is None && if k == 0 {
                        input.parents == match base {
                            Some(base) => seq![base],
                            None => Seq::empty(),
                        }
                    } else {
                        text_at(log, then + k - 1) matches Some(Ok(parent)) && input.parents
                            == seq![parent]
                    },
                Step::Done(Err(failed), end) => text_at(log, end - 1) matches Some(Err(err))
                    && failed == ExportErrorView::Git(err),
                Step::Done(Ok((exported, tip)), end) => {
                    &&& end == then + planned.len()
                    &&& exported.len() == planned.len()
                    &&& forall|k: int|
                        0 <= k < planned.len() ==> (#[trigger] exported[k]).mono_sha
                            == planned[k].mono_sha && text_at(log, then + k) == Some(
                            Ok::<Text, GitErrorView>(exported[k].pub_sha),
                        )
                    &&& tip == if planned.len() == 0 {
                        base
                    } else {
                        Some(exported.last().pub_sha)
                    }
                },
            },
            _ => build_export_chain_step(planned, base, log, at) matches Step::Ask(request)
                ==> request is Rehash || request is BuildTree,
        },
{
    lemma_write_trees_asks(planned, 0, log, at);
    match write_trees_step(planned, 0, log, at) {
        Step::Done(Ok(_), then) => {
            lemma_chain_replays(planned, 0, base, Seq::empty(), log, then);
            match build_export_chain_step(planned, base, log, at) {
                Step::Done(Ok((exported, _)), _) => {
                    assert forall|k: int| 0 <= k < planned.len() implies (
                    #[trigger] exported[k]).mono_sha == planned[k].mono_sha && text_at(
                        log,
                        then + k,
                    ) == Some(Ok::<Text, GitErrorView>(exported[k].pub_sha)) by {
                        assert(then + (k - 0) == then + k);
                    }
                },
                Step::Ask(request) => {
                    let input = request->CommitTree_0;
                    let k = choose|k: int|
                        #![trigger planned[k]]
                        0 <= k < planned.len() && replays(input, planned[k]) && text_at(
                            log,
                            then + (k - 0),
                        ) is None && if k == 0 {
                            input.parents == match base {
                                Some(base) => seq![base],
                                None => Seq::empty(),
                            }
                        } else {
                            text_at(log, then + (k - 0) - 1) matches Some(Ok(parent))
                                && input.parents == seq![parent]
                        };
                    assert(then + (k - 0) == then + k);
                    assert(replays(input, planned[k]));
                },
                _ => {},
            }
        },
        _ => {},
    }
}

proof fn lemma_write_trees_from(
    planned: Seq<PlannedExportView>,
    i: int,
    log: Seq<ReplyView>,
    at: int,
)
    requires
        0 <= i,
    ensures
        write_trees_step(planned, i, log, at) matches Step::Ask(request) ==> exists|k: int, p: int|
            i <= k < planned.len() && #[trigger] write_subtree_step(planned[k].content, log, p)
                == Step::<Result<(), FilterErrorView>>::Ask(request),
    decreases planned.len() - i,
{
    if i < planned.len() {
        match write_subtree_step(planned[i].content, log, at) {
            Step::Done(Ok(_), next) => {
                lemma_write_trees_from(planned, i + 1, log, next);
            },
            _ => {},
        }
    }
}

/// Whatever is written before the commits is part of what some planned export is made of.
pub proof fn law_only_planned_trees_are_written(
    planned: Seq<PlannedExportView>,
    log: Seq<ReplyView>,
    at: int,
)
    ensures
        write_trees_step(planned, 0, log, at) matches Step::Ask(request) ==> exists|k: int, p: int|
            0 <= k < planned.len() && #[trigger] write_subtree_step(planned[k].content, log, p)
                == Step::<Result<(), FilterErrorView>>::Ask(request),
        planned.len() == 0 ==> write_trees_step(planned, 0, log, at) == Step::<
            Result<(), ExportErrorView>,
        >::Done(Ok(()), at),
{
    lemma_write_trees_from(planned, 0, log, at);
}

proof fn lemma_all_trees_are_written(
    planned: Seq<PlannedExportView>,
    i: int,
    log: Seq<ReplyView>,
    at: int,
) -> (looks: Seq<int>)
    requires
        0 <= i <= planned.len(),
    ensures
        write_trees_step(planned, i, log, at) matches Step::Done(Ok(_), _) ==> looks.len()
            == planned.len() - i && forall|k: int|
            0 <= k < looks.len() ==> is_written(planned[i + k], log, #[trigger] looks[k]),
    decreases planned.len() - i,
{
    if i >= planned.len() {
        Seq::empty()
    } else {
        match write_subtree_step(planned[i].content, log, at) {
            Step::Done(Ok(_), next) => {
                let rest = lemma_all_trees_are_written(planned, i + 1, log, next);
                let looks = seq![at] + rest;
                if let Step::Done(Ok(_), _) = write_trees_step(planned, i, log, at) {
                    assert forall|k: int| 0 <= k < looks.len() implies is_written(
                        planned[i + k],
                        log,
                        #[trigger] looks[k],
                    ) by {
                        if k > 0 {
                            assert(looks[k] == rest[k - 1]);
                            assert(planned[i + 1 + (k - 1)] == planned[i + k]);
                        }
                    }
                }
                looks
            },
            _ => Seq::empty(),
        }
    }
}

/// Was what a planned export is made of written, as the replies from `p` on have it?
pub open spec fn is_written(plan: PlannedExportView, log: Seq<ReplyView>, p: int) -> bool {
    write_subtree_step(plan.content, log, p) matches Step::Done(Ok(_), _)
}

/// No tree is left out: before the first commit is asked for, every planned export was written.
/// `looks` tells from which replies each was.
pub proof fn law_every_planned_tree_is_written(
    planned: Seq<PlannedExportView>,
    base: Option<Text>,
    log: Seq<ReplyView>,
    at: int,
) -> (looks: Seq<int>)
    ensures
        (build_export_chain_step(planned, base, log, at) matches Step::Ask(request) && request
            is CommitTree) || (build_export_chain_step(planned, base, log, at) matches Step::Done(
            Ok(_),
            _,
        )) ==> looks.len() == planned.len() && forall|k: int|
            0 <= k < looks.len() ==> is_written(planned[k], log, #[trigger] looks[k]),
{
    lemma_write_trees_asks(planned, 0, log, at);
    let looks = lemma_all_trees_are_written(planned, 0, log, at);
    if let Step::Done(Ok(_), _) = write_trees_step(planned, 0, log, at) {
        assert forall|k: int| 0 <= k < looks.len() implies is_written(
            planned[k],
            log,
            #[trigger] looks[k],
        ) by {
            assert(planned[0 + k] == planned[k]);
        }
    }
    looks
}

// --- where they go ---

/// A chain lands as it is: what is pushed is its tip, on the subrepo's own branch, or in
/// triangular mode on the push branch of the fork, where the push insists on the head that was
/// seen, if there was one. Only then the local mirror of that branch is moved, to the same
/// commit. A fork that is at the tip already is left alone.
pub proof fn law_a_chain_lands_on_its_branch(
    subrepo: ResolvedSubrepoView,
    tracking_ref: Text,
    tip: Text,
    log: Seq<ReplyView>,
    at: int,
)
    ensures
        if subrepo.upstream is None {
            match (acted_at(log, at), text_at(log, at + 1)) {
                (None, _) => push_chain_step(subrepo, tracking_ref, tip, log, at) == Step::<
                    Result<bool, GitErrorView>,
                >::Ask(
                    RequestView::PushRef {
                        remote: subrepo.remote,
                        sha: tip,
                        dst: "refs/heads/"@ + subrepo.branch,
                    },
                ),
                (Some(Err(err)), _) => push_chain_step(
                    subrepo,
                    tracking_ref,
                    tip,
                    log,
                    at,
                ) matches Step::Done(Err(failed), _) && failed == err,
                (Some(Ok(_)), None) => push_chain_step(subrepo, tracking_ref, tip, log, at)
                    == Step::<Result<bool, GitErrorView>>::Ask(
                    RequestView::Git { args: seq!["update-ref"@, tracking_ref, tip], input: None },
                ),
                (Some(Ok(_)), Some(Err(err))) => push_chain_step(
                    subrepo,
                    tracking_ref,
                    tip,
                    log,
                    at,
                ) matches Step::Done(Err(failed), _) && failed == err,
                (Some(Ok(_)), Some(Ok(_))) => push_chain_step(subrepo, tracking_ref, tip, log, at)
                    == Step::<Result<bool, GitErrorView>>::Done(Ok(true), at + 2),
            }
        } else {
            match load_fork_state_step(subrepo, false, log, at) {
                Step::Ask(request) => push_chain_step(subrepo, tracking_ref, tip, log, at)
                    == Step::<Result<bool, GitErrorView>>::Ask(request),
                Step::Done(Err(err), _) => push_chain_step(
                    subrepo,
                    tracking_ref,
                    tip,
                    log,
                    at,
                ) matches Step::Done(Err(failed), _) && failed == err,
                Step::Done(Ok(fork), next) => if fork.head == Some(tip) {
                    push_chain_step(subrepo, tracking_ref, tip, log, at) == Step::<
                        Result<bool, GitErrorView>,
                    >::Done(Ok(false), next)
                } else {
                    match (acted_at(log, next), text_at(log, next + 1)) {
                        (None, _) => push_chain_step(subrepo, tracking_ref, tip, log, at)
                            == Step::<Result<bool, GitErrorView>>::Ask(
                            match fork.head {
                                None => RequestView::PushRef {
                                    remote: subrepo.remote,
                                    sha: tip,
                                    dst: "refs/heads/"@ + subrepo.push_branch,
                                },
                                Some(seen) => RequestView::PushRefWithLease {
                                    remote: subrepo.remote,
                                    sha: tip,
                                    dst: "refs/heads/"@ + subrepo.push_branch,
                                    expect: seen,
                                },
                            },
                        ),
                        (Some(Err(err)), _) => push_chain_step(
                            subrepo,
                            tracking_ref,
                            tip,
                            log,
                            at,
                        ) matches Step::Done(Err(failed), _) && failed == err,
                        (Some(Ok(_)), None) => push_chain_step(subrepo, tracking_ref, tip, log, at)
                            == Step::<Result<bool, GitErrorView>>::Ask(
                            RequestView::Git {
                                args: seq!["update-ref"@, fork_mirror_ref(subrepo), tip],
                                input: None,
                            },
                        ),
                        (Some(Ok(_)), Some(Err(err))) => push_chain_step(
                            subrepo,
                            tracking_ref,
                            tip,
                            log,
                            at,
                        ) matches Step::Done(Err(failed), _) && failed == err,
                        (Some(Ok(_)), Some(Ok(_))) => push_chain_step(
                            subrepo,
                            tracking_ref,
                            tip,
                            log,
                            at,
                        ) == Step::<Result<bool, GitErrorView>>::Done(Ok(true), next + 2),
                    }
                },
            }
        },
{
}

/// An export comes to its chain: where the plan has anything in it, the chain stands on the
/// public head, its tip is the new head and is what lands, and what is reported as exported is
/// the chain; where it has nothing, nothing is exported and the head stays.
pub proof fn law_an_export_comes_to_its_chain(
    subrepo: ResolvedSubrepoView,
    pub_head: Option<Text>,
    tracking_ref: Text,
    candidates: Seq<ExportCandidateView>,
    log: Seq<ReplyView>,
    at: int,
)
    ensures
        run_export_step(subrepo, pub_head, tracking_ref, candidates, log, at) matches Step::Done(
            Ok(result),
            end,
        ) ==> {
            &&& compute_exports_step(subrepo, pub_head, candidates, log, at) matches Step::Done(
                Ok(planned),
                p,
            )
            &&& build_export_chain_step(planned, pub_head, log, p) matches Step::Done(
                Ok((exported, tip)),
                q,
            )
            &&& result.exported.len() == planned.len()
            &&& result.new_head == tip
            &&& if planned.len() == 0 {
                result.new_head == pub_head && !result.pushed && end == q
            } else {
                &&& result.exported == exported
                &&& result.new_head == Some(exported.last().pub_sha)
                &&& push_chain_step(subrepo, tracking_ref, exported.last().pub_sha, log, q)
                    == Step::<Result<bool, GitErrorView>>::Done(Ok(result.pushed), end)
            }
        },
        run_export_step(subrepo, pub_head, tracking_ref, candidates, log, at) matches Step::Ask(
            request,
        ) ==> match compute_exports_step(subrepo, pub_head, candidates, log, at) {
            Step::Ask(asked) => request == asked,
            Step::Done(Err(_), _) => false,
            Step::Done(Ok(planned), p) => planned.len() > 0 && match build_export_chain_step(
                planned,
                pub_head,
                log,
                p,
            ) {
                Step::Ask(asked) => request == asked,
                Step::Done(Err(_), _) => false,
                Step::Done(Ok((exported, _)), q) => exported.len() == planned.len()
                    && push_chain_step(subrepo, tracking_ref, exported.last().pub_sha, log, q)
                    == Step::<Result<bool, GitErrorView>>::Ask(request),
            },
        },
{
    match compute_exports_step(subrepo, pub_head, candidates, log, at) {
        Step::Done(Ok(planned), p) => {
            law_a_chain_keeps_author_and_committer(planned, pub_head, log, p);
            law_only_planned_trees_are_written(planned, log, p);
        },
        _ => {},
    }
}

// --- what failed ---

/// Does the error tell what this reply failed at?
pub open spec fn tells(err: ExportErrorView, reply: ReplyView) -> bool {
    match reply {
        ReplyView::Text(Err(cause)) => err == ExportErrorView::Git(cause) || err
            == ExportErrorView::Filter(FilterErrorView::Git(cause)),
        ReplyView::Commit(Err(cause)) => err == ExportErrorView::Git(cause) || err
            == ExportErrorView::Filter(FilterErrorView::Git(cause)),
        ReplyView::Acted(Err(cause)) => err == ExportErrorView::Git(cause),
        ReplyView::Branch(Err(cause)) => err == ExportErrorView::Git(cause),
        ReplyView::Shas(Err(cause)) => err == ExportErrorView::Git(cause),
        ReplyView::Hook(Err(cause)) => err == ExportErrorView::Filter(FilterErrorView::Hook(cause)),
        ReplyView::Rewritten(Err(cause)) => err == ExportErrorView::Hook(cause),
        ReplyView::Excluded(Err(detail)) => err == ExportErrorView::Filter(
            FilterErrorView::Other(detail),
        ),
        ReplyView::Materialized(Err(detail)) => err == ExportErrorView::Filter(
            FilterErrorView::Other(detail),
        ),
        ReplyView::Path(Err(detail)) => err == ExportErrorView::Filter(
            FilterErrorView::Other(detail),
        ),
        ReplyView::Rehashed(Err(detail)) => err == ExportErrorView::Filter(
            FilterErrorView::Other(detail),
        ),
        _ => false,
    }
}

/// A procedure that failed, failed at its last reply.
pub open spec fn fails_at_its_last_reply<T>(
    step: Step<Result<T, ExportErrorView>>,
    log: Seq<ReplyView>,
) -> bool {
    step matches Step::Done(Err(err), end) ==> 0 < end <= log.len() && tells(err, log[end - 1])
}

/// Has a finished procedure not gone back?
pub open spec fn goes_on<T>(step: Step<T>, at: int) -> bool {
    step matches Step::Done(_, end) ==> at <= end
}

proof fn lemma_plan_one_fails(
    subrepo: ResolvedSubrepoView,
    pub_head: Option<Text>,
    mono_sha: Text,
    tip_tree: Text,
    log: Seq<ReplyView>,
    at: int,
)
    requires
        0 <= at,
    ensures
        fails_at_its_last_reply(
            plan_one_step(subrepo, pub_head, mono_sha, tip_tree, log, at),
            log,
        ),
        goes_on(plan_one_step(subrepo, pub_head, mono_sha, tip_tree, log, at), at),
{
    law_the_last_reply_decides_a_subtree(mono_sha, subrepo, log, at);
}

proof fn lemma_plan_rest_fails(
    subrepo: ResolvedSubrepoView,
    pub_head: Option<Text>,
    candidates: Seq<ExportCandidateView>,
    i: int,
    tip_tree: Text,
    planned: Seq<PlannedExportView>,
    log: Seq<ReplyView>,
    at: int,
)
    requires
        0 <= at,
    ensures
        fails_at_its_last_reply(
            plan_rest_step(subrepo, pub_head, candidates, i, tip_tree, planned, log, at),
            log,
        ),
        goes_on(plan_rest_step(subrepo, pub_head, candidates, i, tip_tree, planned, log, at), at),
    decreases candidates.len() - i,
{
    if i < candidates.len() {
        let mono_sha = candidates[i].mono_sha;
        lemma_plan_one_fails(subrepo, pub_head, mono_sha, tip_tree, log, at);
        match plan_one_step(subrepo, pub_head, mono_sha, tip_tree, log, at) {
            Step::Done(Ok(plan), next) => {
                let (next_tip, more) = match plan {
                    Some(plan) => (plan.tree, planned.push(plan)),
                    None => (tip_tree, planned),
                };
                lemma_plan_rest_fails(
                    subrepo,
                    pub_head,
                    candidates,
                    i + 1,
                    next_tip,
                    more,
                    log,
                    next,
                );
            },
            _ => {},
        }
    }
}

proof fn lemma_write_trees_fails(
    planned: Seq<PlannedExportView>,
    i: int,
    log: Seq<ReplyView>,
    at: int,
)
    requires
        0 <= at,
    ensures
        fails_at_its_last_reply(write_trees_step(planned, i, log, at), log),
        goes_on(write_trees_step(planned, i, log, at), at),
    decreases planned.len() - i,
{
    if i < planned.len() {
        law_a_subtree_is_written_as_it_is(planned[i].content, log, at);
        match write_subtree_step(planned[i].content, log, at) {
            Step::Done(Ok(_), next) => {
                lemma_write_trees_fails(planned, i + 1, log, next);
            },
            _ => {},
        }
    }
}

/// An export that fails tells what failed: its error is that of the last reply it read, and no
/// other.
pub proof fn law_an_export_tells_what_failed(
    subrepo: ResolvedSubrepoView,
    pub_head: Option<Text>,
    tracking_ref: Text,
    candidates: Seq<ExportCandidateView>,
    mono_head: Text,
    log: Seq<ReplyView>,
    at: int,
)
    requires
        0 <= at,
    ensures
        fails_at_its_last_reply(
            compute_exports_step(subrepo, pub_head, candidates, log, at),
            log,
        ),
        fails_at_its_last_reply(
            run_export_step(subrepo, pub_head, tracking_ref, candidates, log, at),
            log,
        ),
        fails_at_its_last_reply(publish_baseline_step(subrepo, mono_head, log, at), log),
        fails_at_its_last_reply(publish_full_history_step(subrepo, mono_head, log, at), log),
{
    lemma_run_export_fails(subrepo, pub_head, tracking_ref, candidates, log, at);
    law_the_last_reply_decides_a_subtree(mono_head, subrepo, log, at);
    match name_subtree_step(mono_head, subrepo, log, at) {
        Step::Done(Ok(Some(subtree)), p) => {
            law_a_subtree_is_written_as_it_is(subtree.content, log, p + 1);
        },
        _ => {},
    }
    if let Some(Ok(shas)) = shas_at(log, at) {
        lemma_run_export_fails(
            subrepo,
            None,
            mirror_ref(subrepo),
            candidates_of(shas),
            log,
            at + 1,
        );
    }
}

proof fn lemma_run_export_fails(
    subrepo: ResolvedSubrepoView,
    pub_head: Option<Text>,
    tracking_ref: Text,
    candidates: Seq<ExportCandidateView>,
    log: Seq<ReplyView>,
    at: int,
)
    requires
        0 <= at,
    ensures
        fails_at_its_last_reply(
            compute_exports_step(subrepo, pub_head, candidates, log, at),
            log,
        ),
        fails_at_its_last_reply(
            run_export_step(subrepo, pub_head, tracking_ref, candidates, log, at),
            log,
        ),
{
    if let Step::Done(Ok(tip_tree), next) = tip_tree_step(pub_head, log, at) {
        lemma_plan_rest_fails(
            subrepo,
            pub_head,
            candidates,
            0,
            tip_tree,
            Seq::empty(),
            log,
            next,
        );
    }
    match compute_exports_step(subrepo, pub_head, candidates, log, at) {
        Step::Done(Ok(planned), p) => {
            lemma_write_trees_fails(planned, 0, log, p);
            law_a_chain_keeps_author_and_committer(planned, pub_head, log, p);
            match build_export_chain_step(planned, pub_head, log, p) {
                Step::Done(Ok((_, Some(tip))), q) => {
                    law_a_chain_lands_on_its_branch(subrepo, tracking_ref, tip, log, q);
                },
                _ => {},
            }
        },
        _ => {},
    }
}

// --- a baseline ---

/// A baseline is one commit without a parent, of the tree that `mono_head` publishes, in the name
/// of whoever committed `mono_head`, at that time, and it says where it comes from. It goes to
/// the subrepo's branch, and then the local mirror of that branch moves to it.
pub proof fn law_a_baseline_is_one_parentless_commit(
    subrepo: ResolvedSubrepoView,
    mono_head: Text,
    log: Seq<ReplyView>,
    at: int,
)
    ensures
        publish_baseline_step(subrepo, mono_head, log, at) matches Step::Ask(request) ==> match (
        name_subtree_step(mono_head, subrepo, log, at)) {
            Step::Ask(asked) => request == asked,
            Step::Done(subtree, next) => {
                &&& subtree matches Ok(Some(found))
                &&& found.tree != "4b825dc642cb6eb9a060e54bf8d69288fbee4904"@
                &&& match commit_at(log, next) {
                    None => request == (RequestView::ReadCommit { rev: mono_head }),
                    Some(Err(_)) => false,
                    Some(Ok(meta)) => match write_subtree_step(found.content, log, next + 1) {
                        Step::Ask(asked) => request == asked,
                        Step::Done(_, p) => match request {
                            RequestView::CommitTree(input) => {
                                &&& input.tree == found.tree
                                &&& input.parents.len() == 0
                                &&& input.author_name == meta.committer_name
                                &&& input.author_email == meta.committer_email
                                &&& input.author_date == meta.committer_date
                                &&& input.committer_name == meta.committer_name
                                &&& input.committer_email == meta.committer_email
                                &&& input.committer_date == meta.committer_date
                                &&& says_where_it_comes_from(
                                    input.message,
                                    "Initial import of "@ + subrepo.name + "\n"@,
                                    meta.sha,
                                )
                            },
                            RequestView::PushRef { remote, sha, dst } => {
                                &&& text_at(log, p) == Some(Ok::<Text, GitErrorView>(sha))
                                &&& remote == subrepo.remote
                                &&& dst == "refs/heads/"@ + subrepo.branch
                            },
                            RequestView::Git { args, input } => {
                                &&& text_at(log, p) matches Some(Ok(sha))
                                &&& acted_at(log, p + 1) matches Some(Ok(_))
                                &&& args == seq!["update-ref"@, mirror_ref(subrepo), sha]
                                &&& input is None
                            },
                            _ => false,
                        },
                    },
                }
            },
        },
        publish_baseline_step(subrepo, mono_head, log, at) matches Step::Done(Ok(published), end)
            ==> match published {
            None => name_subtree_step(mono_head, subrepo, log, at) matches Step::Done(
                Ok(subtree),
                _,
            ) && (subtree matches Some(found) ==> found.tree
                == "4b825dc642cb6eb9a060e54bf8d69288fbee4904"@),
            Some(sha) => text_at(log, end - 3) == Some(Ok::<Text, GitErrorView>(sha)) && (acted_at(
                log,
                end - 2,
            ) matches Some(Ok(_))) && (text_at(log, end - 1) matches Some(Ok(_))),
        },
{
    match name_subtree_step(mono_head, subrepo, log, at) {
        Step::Done(Ok(Some(found)), next) => match commit_at(log, next) {
            Some(Ok(meta)) => {
                let body = "Initial import of "@ + subrepo.name + "\n"@;
                let kept = strip_newlines(body);
                let one = (kept + "\n"@) + "Monosplice-Source"@ + ": "@ + meta.sha + "\n"@;
                let two = (kept + "\n\n"@) + "Monosplice-Source"@ + ": "@ + meta.sha + "\n"@;
                let message = crate::trailers::with_trailer(
                    body,
                    "Monosplice-Source"@,
                    meta.sha,
                );
                assert(message =~= one || message =~= two);
            },
            _ => {},
        },
        _ => {},
    }
}

// --- a moved anchor ---

/// An anchor is rewritten exactly when git says that the last exported commit is no ancestor of
/// HEAD; without one there is nothing to ask.
pub proof fn law_a_rewritten_anchor_left_the_history(
    last_exported_mono: Option<Text>,
    log: Seq<ReplyView>,
    at: int,
)
    ensures
        match last_exported_mono {
            None => export_base_rewritten_step(None, log, at) == Step::Done(false, at),
            Some(last) => match flag_at(log, at) {
                None => export_base_rewritten_step(Some(last), log, at) == Step::<bool>::Ask(
                    RequestView::GitOk {
                        args: seq!["merge-base"@, "--is-ancestor"@, last, "HEAD"@],
                    },
                ),
                Some(reachable) => export_base_rewritten_step(Some(last), log, at) == Step::Done(
                    !reachable,
                    at + 1,
                ),
            },
        },
{
}

/// A recovery looks for what the lost export published: it asks git for the tree of the public
/// commit that the mapping records for it, and then goes down HEAD's own line, at most a thousand
/// commits. What it finds names the lost commit, that public commit, and the commit that it
/// found; where nothing was lost, or the mapping does not say, it finds nothing.
pub proof fn law_a_recovery_looks_for_what_was_published(
    subrepo: ResolvedSubrepoView,
    view: SyncViewValue,
    log: Seq<ReplyView>,
    at: int,
)
    ensures
        match (view.last_exported_mono, flag_at(log, at)) {
            (None, _) => find_anchor_recovery_step(subrepo, view, log, at) == Step::<
                Result<Option<AnchorRecoveryView>, ExportErrorView>,
            >::Done(Ok(None), at),
            (Some(last), None) => find_anchor_recovery_step(
                subrepo,
                view,
                log,
                at,
            ) matches Step::Ask(
                RequestView::GitOk { args },
            ) && args == seq!["merge-base"@, "--is-ancestor"@, last, "HEAD"@],
            (Some(_), Some(true)) => find_anchor_recovery_step(
                subrepo,
                view,
                log,
                at,
            ) matches Step::Done(Ok(None), _),
            (Some(last), Some(false)) => if !view.exported_mono_to_pub.contains_key(last) {
                find_anchor_recovery_step(subrepo, view, log, at) matches Step::Done(Ok(None), _)
            } else {
                let pub_sha = view.exported_mono_to_pub[last];
                match (text_at(log, at + 1), shas_at(log, at + 2)) {
                    (None, _) => find_anchor_recovery_step(
                        subrepo,
                        view,
                        log,
                        at,
                    ) matches Step::Ask(RequestView::Git { args, input }) && args == seq![
                        "rev-parse"@,
                        pub_sha + "^{tree}"@,
                    ] && input is None,
                    (Some(Err(err)), _) => find_anchor_recovery_step(
                        subrepo,
                        view,
                        log,
                        at,
                    ) matches Step::Done(Err(failed), _) && failed == ExportErrorView::Git(err),
                    (Some(Ok(_)), None) => find_anchor_recovery_step(
                        subrepo,
                        view,
                        log,
                        at,
                    ) matches Step::Ask(RequestView::RevList { args }) && args == seq![
                        "--first-parent"@,
                        "-n"@,
                        decimal_text(1000),
                        "HEAD"@,
                    ],
                    (Some(Ok(_)), Some(Err(err))) => find_anchor_recovery_step(
                        subrepo,
                        view,
                        log,
                        at,
                    ) matches Step::Done(Err(failed), _) && failed == ExportErrorView::Git(err),
                    (Some(Ok(target)), Some(Ok(walk))) => match recovery_walk_step(
                        subrepo,
                        target,
                        walk,
                        0,
                        None,
                        0,
                        log,
                        at + 3,
                    ) {
                        Step::Ask(request) => find_anchor_recovery_step(
                            subrepo,
                            view,
                            log,
                            at,
                        ) matches Step::Ask(asked) && asked == request,
                        Step::Done((found, also), _) => find_anchor_recovery_step(
                            subrepo,
                            view,
                            log,
                            at,
                        ) matches Step::Done(Ok(recovery), _) && match (found, recovery) {
                            (None, None) => true,
                            (Some(found), Some(recovery)) => {
                                &&& recovery.missing == last
                                &&& recovery.pub_sha == pub_sha
                                &&& recovery.recovered == found
                                &&& recovery.also_matching == also
                            },
                            _ => false,
                        },
                    },
                }
            },
        },
{
}

/// The live anchor is the last export while HEAD descends from it, and what a recovery finds in
/// its place otherwise; a recovery that fails finds none.
pub proof fn law_the_live_anchor_is_reachable_or_recovered(
    subrepo: ResolvedSubrepoView,
    view: SyncViewValue,
    log: Seq<ReplyView>,
    at: int,
)
    ensures
        match (view.last_exported_mono, flag_at(log, at)) {
            (None, _) => live_export_anchor_step(subrepo, view, log, at) == Step::Done(
                None::<Text>,
                at,
            ),
            (Some(last), None) => live_export_anchor_step(subrepo, view, log, at) matches Step::Ask(
                RequestView::GitOk { args },
            ) && args == seq!["merge-base"@, "--is-ancestor"@, last, "HEAD"@],
            (Some(last), Some(true)) => live_export_anchor_step(subrepo, view, log, at)
                == Step::Done(Some(last), at + 1),
            (Some(_), Some(false)) => match find_anchor_recovery_step(subrepo, view, log, at + 1) {
                Step::Ask(request) => live_export_anchor_step(
                    subrepo,
                    view,
                    log,
                    at,
                ) matches Step::Ask(asked) && asked == request,
                Step::Done(found, end) => live_export_anchor_step(subrepo, view, log, at)
                    == Step::Done(
                    match found {
                        Ok(Some(recovery)) => Some(recovery.recovered),
                        _ => None,
                    },
                    end,
                ),
            },
        },
{
}

/// Whether the scan base stays is asked of the recovered commit and the base: it stays where the
/// recovered commit is an ancestor of it.
pub proof fn law_the_newer_base_stays(
    subrepo: ResolvedSubrepoView,
    view: SyncViewValue,
    log: Seq<ReplyView>,
    at: int,
)
    ensures
        find_anchor_recovery_step(subrepo, view, log, at) matches Step::Done(
            Ok(Some(recovery)),
            next,
        ) ==> match (view.export_base, flag_at(log, next)) {
            (None, _) => recover_export_anchor_step(subrepo, view, log, at) matches Step::Done(
                (Ok(Some(adopted)), after),
                end,
            ) && adopted == recovery && end == next && after.export_base == Some(
                recovery.recovered,
            ),
            (Some(base), None) => recover_export_anchor_step(
                subrepo,
                view,
                log,
                at,
            ) matches Step::Ask(RequestView::GitOk { args }) && args == seq![
                "merge-base"@,
                "--is-ancestor"@,
                recovery.recovered,
                base,
            ],
            (Some(base), Some(newer)) => recover_export_anchor_step(
                subrepo,
                view,
                log,
                at,
            ) matches Step::Done((Ok(Some(adopted)), after), _) && adopted == recovery
                && after.export_base == Some(
                if newer {
                    base
                } else {
                    recovery.recovered
                },
            ),
        },
{
}

/// An export is refused over its mapping first and over a rewritten anchor second, and for
/// nothing else.
pub proof fn law_what_refuses_an_export(
    subrepo: ResolvedSubrepoView,
    view: SyncViewValue,
    log: Seq<ReplyView>,
    at: int,
)
    ensures
        check_export_preconditions_step(subrepo, view, log, at) matches Step::Done(refusal, _) ==> (
        refusal is None <==> view.broken_source_refs.len() == 0 && (view.last_exported_mono is None
            || flag_at(log, at) == Some(true))),
        view.broken_source_refs.len() == 0 && view.last_exported_mono is Some && flag_at(log, at)
            is None ==> (check_export_preconditions_step(subrepo, view, log, at) matches Step::Ask(
            RequestView::GitOk { args },
        ) && args == seq![
            "merge-base"@,
            "--is-ancestor"@,
            view.last_exported_mono->0,
            "HEAD"@,
        ]),
{
}

} // verus!
