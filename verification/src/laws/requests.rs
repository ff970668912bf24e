//! What the procedures can ask for.
//!
//! Each lemma here looks at one procedure, on any replies, and says of which sort the request
//! is that it stops at.

use vstd::prelude::*;
use vstd::string::*;
use crate::config::ResolvedSubrepoView;
use crate::exporter::{
    build_export_chain_step, chain_rest_step, compute_exports_step, export_base_rewritten_step,
    find_anchor_recovery_step, live_export_anchor_step, plan_one_step, plan_rest_step,
    recover_export_anchor_step, recovery_walk_step, tip_tree_step, write_trees_step,
    ExportCandidateView, ExportedCommitView, PlannedExportView,
};
use crate::filter::{anchor_subtree_step, name_subtree_step, write_subtree_step, TreeContentView};
use crate::sync_view::{
    anchor_walk_step, claims, exported_map, fetch_step, find_export_anchor_step,
    load_fork_state_step, origins_anchor_step, origins_step, pub_head_step, reflects_exactly_step,
    remote_ref_text, values_of, view_step, SyncViewValue,
};
use crate::talk::{shas_at, text_at, trailers_at, ReplyView, RequestView, Step};
use crate::text::Text;

verus! {

/// Does this write a ref of another repository?
pub open spec fn publishes(request: RequestView) -> bool {
    request is PushRef || request is PushRefWithLease
}

/// Does this move a local ref?
pub open spec fn moves_ref(request: RequestView) -> bool {
    request matches RequestView::Git { args, .. } && args.len() > 0 && args[0] == "update-ref"@
}

/// Does this write an object?
pub open spec fn writes_object(request: RequestView) -> bool {
    request is Rehash || request is BuildTree || request is CommitTree
}

/// Does this write an object, a ref or the work tree, here or elsewhere? Mirroring a branch of
/// another repository does not count.
pub open spec fn changes(request: RequestView) -> bool {
    ||| publishes(request)
    ||| moves_ref(request)
    ||| writes_object(request)
    ||| request is RunImport
}

/// Does this run a hook?
pub open spec fn runs_hook(request: RequestView) -> bool {
    request is TreeHook || request is RewriteMessage
}

/// Does this write a file for a hook?
pub open spec fn prepares_hook(request: RequestView) -> bool {
    request is Materialize || request is MessageFile
}

/// Does this talk to another repository?
pub open spec fn contacts(request: RequestView) -> bool {
    publishes(request) || request is LsRemoteBranch || request is FetchBranch
}

/// Does this run the `scan` hook?
pub open spec fn scans(request: RequestView) -> bool {
    request matches RequestView::TreeHook { hook, .. } && hook == "scan"@
}

/// Does this only look at what is here?
pub open spec fn local(request: RequestView) -> bool {
    !changes(request) && !contacts(request) && !scans(request)
}

/// Whatever the procedure stops at is local.
pub open spec fn stays_local<T>(step: Step<T>) -> bool {
    step matches Step::Ask(request) ==> local(request)
}

/// Whatever the procedure stops at changes nothing and talks to nobody.
pub open spec fn only_reads<T>(step: Step<T>) -> bool {
    step matches Step::Ask(request) ==> !changes(request) && !contacts(request)
}

/// Whatever the procedure stops at neither runs a hook nor prepares for one.
pub open spec fn without_hooks<T>(step: Step<T>) -> bool {
    step matches Step::Ask(request) ==> !runs_hook(request) && !prepares_hook(request)
}

/// The git commands that are asked for are told apart by their first word.
pub proof fn lemma_verbs()
    ensures
        "ls-tree"@ != "update-ref"@,
        "rev-parse"@ != "update-ref"@,
        "rev-list"@ != "update-ref"@,
        "transform"@ != "scan"@,
{
    reveal_strlit("ls-tree");
    reveal_strlit("rev-parse");
    reveal_strlit("rev-list");
    reveal_strlit("update-ref");
    reveal_strlit("transform");
    reveal_strlit("scan");
    assert("ls-tree"@.len() != "update-ref"@.len());
    assert("rev-parse"@.len() != "update-ref"@.len());
    assert("rev-list"@.len() != "update-ref"@.len());
    assert("transform"@.len() != "scan"@.len());
}

/// Resolving a subtree only reads, scans only where a scan is configured, and runs no hook where
/// none is.
pub proof fn lemma_name_subtree_asks(
    mono_commit: Text,
    subrepo: ResolvedSubrepoView,
    log: Seq<ReplyView>,
    at: int,
)
    ensures
        only_reads(name_subtree_step(mono_commit, subrepo, log, at)),
        name_subtree_step(mono_commit, subrepo, log, at) matches Step::Ask(request) ==> scans(
            request,
        ) ==> subrepo.scan is Some,
        subrepo.scan is None && subrepo.transform is None ==> without_hooks(
            name_subtree_step(mono_commit, subrepo, log, at),
        ),
{
    lemma_verbs();
}

/// Writing a subtree asks for objects, and that is what it changes.
pub proof fn lemma_write_subtree_asks(content: TreeContentView, log: Seq<ReplyView>, at: int)
    ensures
        write_subtree_step(content, log, at) matches Step::Ask(request) ==> writes_object(request)
            && !(request is CommitTree),
{
}

/// Resolving a subtree as an identity never scans.
pub proof fn lemma_anchor_subtree_asks(
    mono_commit: Text,
    subrepo: ResolvedSubrepoView,
    log: Seq<ReplyView>,
    at: int,
)
    ensures
        stays_local(anchor_subtree_step(mono_commit, subrepo, log, at)),
        subrepo.transform is None ==> without_hooks(
            anchor_subtree_step(mono_commit, subrepo, log, at),
        ),
{
    lemma_name_subtree_asks(
        mono_commit,
        crate::filter::without_scan(subrepo),
        log,
        at,
    );
}

/// Comparing trees stays local.
pub proof fn lemma_reflects_exactly_asks(
    s: ResolvedSubrepoView,
    hooks: bool,
    mono_sha: Text,
    pub_sha: Text,
    log: Seq<ReplyView>,
    at: int,
)
    ensures
        stays_local(reflects_exactly_step(s, hooks, mono_sha, pub_sha, log, at)),
        !hooks || s.transform is None ==> without_hooks(
            reflects_exactly_step(s, hooks, mono_sha, pub_sha, log, at),
        ),
{
    lemma_verbs();
    lemma_anchor_subtree_asks(mono_sha, s, log, at);
}

/// Looking through one commit's imports stays local.
pub proof fn lemma_origins_anchor_asks(
    s: ResolvedSubrepoView,
    hooks: bool,
    mono_sha: Text,
    origins: Seq<Text>,
    pub_ancestors: Seq<Text>,
    j: int,
    related: bool,
    log: Seq<ReplyView>,
    at: int,
)
    ensures
        stays_local(
            origins_anchor_step(s, hooks, mono_sha, origins, pub_ancestors, j, related, log, at),
        ),
        !hooks || s.transform is None ==> without_hooks(
            origins_anchor_step(s, hooks, mono_sha, origins, pub_ancestors, j, related, log, at),
        ),
    decreases origins.len() - j,
{
    if j < origins.len() {
        if pub_ancestors.contains(origins[j]) {
            lemma_reflects_exactly_asks(s, hooks, mono_sha, origins[j], log, at);
            match reflects_exactly_step(s, hooks, mono_sha, origins[j], log, at) {
                Step::Done(false, at) => {
                    lemma_origins_anchor_asks(
                        s,
                        hooks,
                        mono_sha,
                        origins,
                        pub_ancestors,
                        j + 1,
                        true,
                        log,
                        at,
                    );
                },
                _ => {},
            }
        } else {
            lemma_origins_anchor_asks(
                s,
                hooks,
                mono_sha,
                origins,
                pub_ancestors,
                j + 1,
                related,
                log,
                at,
            );
        }
    }
}

/// The walk to an export anchor stays local.
pub proof fn lemma_anchor_walk_asks(
    s: ResolvedSubrepoView,
    hooks: bool,
    exported: Map<Text, Text>,
    origin_by_mono: Seq<(Text, Seq<Text>)>,
    pub_ancestors: Seq<Text>,
    walk: Seq<Text>,
    i: int,
    related: bool,
    log: Seq<ReplyView>,
    at: int,
)
    ensures
        stays_local(
            anchor_walk_step(
                s,
                hooks,
                exported,
                origin_by_mono,
                pub_ancestors,
                walk,
                i,
                related,
                log,
                at,
            ),
        ),
        !hooks || s.transform is None ==> without_hooks(
            anchor_walk_step(
                s,
                hooks,
                exported,
                origin_by_mono,
                pub_ancestors,
                walk,
                i,
                related,
                log,
                at,
            ),
        ),
    decreases walk.len() - i,
{
    if i < walk.len() && !exported.contains_key(walk[i]) {
        let origins = values_of(origin_by_mono, walk[i]);
        lemma_origins_anchor_asks(s, hooks, walk[i], origins, pub_ancestors, 0, related, log, at);
        match origins_anchor_step(s, hooks, walk[i], origins, pub_ancestors, 0, related, log, at) {
            Step::Done((false, related), at) => {
                lemma_anchor_walk_asks(
                    s,
                    hooks,
                    exported,
                    origin_by_mono,
                    pub_ancestors,
                    walk,
                    i + 1,
                    related,
                    log,
                    at,
                );
            },
            _ => {},
        }
    }
}

/// Finding the export anchor stays local.
pub proof fn lemma_find_export_anchor_asks(
    s: ResolvedSubrepoView,
    hooks: bool,
    exported: Map<Text, Text>,
    origin_by_mono: Seq<(Text, Seq<Text>)>,
    pub_ancestors: Seq<Text>,
    log: Seq<ReplyView>,
    at: int,
)
    ensures
        stays_local(
            find_export_anchor_step(s, hooks, exported, origin_by_mono, pub_ancestors, log, at),
        ),
        !hooks || s.transform is None ==> without_hooks(
            find_export_anchor_step(s, hooks, exported, origin_by_mono, pub_ancestors, log, at),
        ),
{
    match shas_at(log, at) {
        Some(Ok(walk)) => {
            lemma_anchor_walk_asks(
                s,
                hooks,
                exported,
                origin_by_mono,
                pub_ancestors,
                walk,
                0,
                !exported.is_empty(),
                log,
                at + 1,
            );
        },
        _ => {},
    }
}

/// Deriving a view talks to the source repository and to no other, to nobody when offline, and
/// changes nothing.
pub open spec fn view_request(s: ResolvedSubrepoView, offline: bool, request: RequestView) -> bool {
    &&& !changes(request)
    &&& !scans(request)
    &&& contacts(request) ==> !offline && (request == RequestView::LsRemoteBranch {
        remote: s.source(),
        branch: s.branch,
    } || request == RequestView::FetchBranch {
        remote: s.source(),
        branch: s.branch,
        dst: remote_ref_text(s.name),
    })
}

/// What deriving a view asks for.
pub proof fn lemma_view_asks(
    s: ResolvedSubrepoView,
    hooks: bool,
    offline: bool,
    log: Seq<ReplyView>,
    at: int,
)
    ensures
        view_step(s, hooks, offline, log, at) matches Step::Ask(request) ==> view_request(
            s,
            offline,
            request,
        ),
        !hooks || s.transform is None ==> without_hooks(view_step(s, hooks, offline, log, at)),
{
    lemma_verbs();
    match pub_head_step(s, offline, log, at) {
        Step::Done(Ok(Some(_)), at) => match origins_step(log, at) {
            Step::Done(Ok(origins), at) => match fetch_step(s, offline, log, at) {
                Step::Done(Ok(_), at) => match (
                    trailers_at(log, at),
                    shas_at(log, at + 1),
                    shas_at(log, at + 2),
                ) {
                    (Some(Ok(source)), Some(Ok(walk)), Some(Ok(_))) => {
                        lemma_find_export_anchor_asks(
                            s,
                            hooks,
                            exported_map(claims(walk, source)),
                            origins,
                            walk,
                            log,
                            at + 3,
                        );
                    },
                    _ => {},
                },
                _ => {},
            },
            _ => {},
        },
        _ => {},
    }
}

/// Looking at the fork changes nothing, and talks to the fork alone.
pub proof fn lemma_load_fork_state_asks(
    s: ResolvedSubrepoView,
    offline: bool,
    log: Seq<ReplyView>,
    at: int,
)
    ensures
        load_fork_state_step(s, offline, log, at) matches Step::Ask(request) ==> {
            &&& !changes(request)
            &&& !scans(request)
            &&& contacts(request) ==> !offline
            &&& request matches RequestView::LsRemoteBranch { remote, .. } ==> remote == s.remote
            &&& request matches RequestView::FetchBranch { remote, .. } ==> remote == s.remote
        },
{
}

/// Planning one candidate only reads.
pub proof fn lemma_plan_one_asks(
    subrepo: ResolvedSubrepoView,
    pub_head: Option<Text>,
    mono_sha: Text,
    tip_tree: Text,
    log: Seq<ReplyView>,
    at: int,
)
    ensures
        only_reads(plan_one_step(subrepo, pub_head, mono_sha, tip_tree, log, at)),
{
    lemma_verbs();
    lemma_name_subtree_asks(mono_sha, subrepo, log, at);
}

/// Planning the candidates from one on only reads.
pub proof fn lemma_plan_rest_asks(
    subrepo: ResolvedSubrepoView,
    pub_head: Option<Text>,
    candidates: Seq<ExportCandidateView>,
    i: int,
    tip_tree: Text,
    planned: Seq<PlannedExportView>,
    log: Seq<ReplyView>,
    at: int,
)
    ensures
        only_reads(
            plan_rest_step(subrepo, pub_head, candidates, i, tip_tree, planned, log, at),
        ),
    decreases candidates.len() - i,
{
    if i < candidates.len() {
        lemma_plan_one_asks(subrepo, pub_head, candidates[i].mono_sha, tip_tree, log, at);
        match plan_one_step(subrepo, pub_head, candidates[i].mono_sha, tip_tree, log, at) {
            Step::Done(Ok(None), at) => {
                lemma_plan_rest_asks(
                    subrepo,
                    pub_head,
                    candidates,
                    i + 1,
                    tip_tree,
                    planned,
                    log,
                    at,
                );
            },
            Step::Done(Ok(Some(plan)), at) => {
                lemma_plan_rest_asks(
                    subrepo,
                    pub_head,
                    candidates,
                    i + 1,
                    plan.tree,
                    planned.push(plan),
                    log,
                    at,
                );
            },
            _ => {},
        }
    }
}

/// Planning an export only reads.
pub proof fn lemma_compute_exports_asks(
    subrepo: ResolvedSubrepoView,
    pub_head: Option<Text>,
    candidates: Seq<ExportCandidateView>,
    log: Seq<ReplyView>,
    at: int,
)
    ensures
        only_reads(compute_exports_step(subrepo, pub_head, candidates, log, at)),
{
    lemma_verbs();
    match tip_tree_step(pub_head, log, at) {
        Step::Done(Ok(tip_tree), at) => {
            lemma_plan_rest_asks(
                subrepo,
                pub_head,
                candidates,
                0,
                tip_tree,
                Seq::empty(),
                log,
                at,
            );
        },
        _ => {},
    }
}

/// Writing the trees of a plan only asks for objects.
pub proof fn lemma_write_trees_asks(
    planned: Seq<PlannedExportView>,
    i: int,
    log: Seq<ReplyView>,
    at: int,
)
    ensures
        write_trees_step(planned, i, log, at) matches Step::Ask(request) ==> writes_object(request)
            && !(request is CommitTree),
    decreases planned.len() - i,
{
    if i < planned.len() {
        lemma_write_subtree_asks(planned[i].content, log, at);
        match write_subtree_step(planned[i].content, log, at) {
            Step::Done(Ok(_), at) => {
                lemma_write_trees_asks(planned, i + 1, log, at);
            },
            _ => {},
        }
    }
}

/// A chain only asks for commits.
pub proof fn lemma_chain_rest_asks(
    planned: Seq<PlannedExportView>,
    i: int,
    tip: Option<Text>,
    exported: Seq<ExportedCommitView>,
    log: Seq<ReplyView>,
    at: int,
)
    ensures
        chain_rest_step(planned, i, tip, exported, log, at) matches Step::Ask(request)
            ==> request is CommitTree,
    decreases planned.len() - i,
{
    if i < planned.len() {
        match text_at(log, at) {
            Some(Ok(pub_sha)) => {
                lemma_chain_rest_asks(
                    planned,
                    i + 1,
                    Some(pub_sha),
                    exported.push(ExportedCommitView { mono_sha: planned[i].mono_sha, pub_sha }),
                    log,
                    at + 1,
                );
            },
            _ => {},
        }
    }
}

/// Building a chain only asks for objects.
pub proof fn lemma_build_chain_asks(
    planned: Seq<PlannedExportView>,
    base: Option<Text>,
    log: Seq<ReplyView>,
    at: int,
)
    ensures
        build_export_chain_step(planned, base, log, at) matches Step::Ask(request)
            ==> writes_object(request),
{
    lemma_write_trees_asks(planned, 0, log, at);
    match write_trees_step(planned, 0, log, at) {
        Step::Done(Ok(_), at) => {
            lemma_chain_rest_asks(planned, 0, base, Seq::empty(), log, at);
        },
        _ => {},
    }
}

/// The walk of a recovery stays local.
pub proof fn lemma_recovery_walk_asks(
    subrepo: ResolvedSubrepoView,
    target: Text,
    walk: Seq<Text>,
    i: int,
    recovered: Option<Text>,
    also_matching: int,
    log: Seq<ReplyView>,
    at: int,
)
    ensures
        stays_local(
            recovery_walk_step(subrepo, target, walk, i, recovered, also_matching, log, at),
        ),
        subrepo.transform is None ==> without_hooks(
            recovery_walk_step(subrepo, target, walk, i, recovered, also_matching, log, at),
        ),
    decreases walk.len() - i,
{
    if i < walk.len() {
        lemma_anchor_subtree_asks(walk[i], subrepo, log, at);
        match anchor_subtree_step(walk[i], subrepo, log, at) {
            Step::Done(tree, at) => {
                let matching = tree == Ok::<Option<Text>, crate::filter::FilterErrorView>(
                    Some(target),
                );
                if !(recovered is Some && !matching) {
                    lemma_recovery_walk_asks(
                        subrepo,
                        target,
                        walk,
                        i + 1,
                        if recovered is None && matching {
                            Some(walk[i])
                        } else {
                            recovered
                        },
                        if recovered is Some {
                            also_matching + 1
                        } else {
                            also_matching
                        },
                        log,
                        at,
                    );
                }
            },
            _ => {},
        }
    }
}

/// Looking for a recovery stays local.
pub proof fn lemma_find_anchor_recovery_asks(
    subrepo: ResolvedSubrepoView,
    view: SyncViewValue,
    log: Seq<ReplyView>,
    at: int,
)
    ensures
        stays_local(find_anchor_recovery_step(subrepo, view, log, at)),
        subrepo.transform is None ==> without_hooks(
            find_anchor_recovery_step(subrepo, view, log, at),
        ),
{
    lemma_verbs();
    match export_base_rewritten_step(view.last_exported_mono, log, at) {
        Step::Done(true, at) => match (text_at(log, at), shas_at(log, at + 1)) {
            (Some(Ok(target)), Some(Ok(walk))) => {
                lemma_recovery_walk_asks(subrepo, target, walk, 0, None, 0, log, at + 2);
            },
            _ => {},
        },
        _ => {},
    }
}

/// Finding the live anchor stays local.
pub proof fn lemma_live_export_anchor_asks(
    subrepo: ResolvedSubrepoView,
    view: SyncViewValue,
    log: Seq<ReplyView>,
    at: int,
)
    ensures
        stays_local(live_export_anchor_step(subrepo, view, log, at)),
        subrepo.transform is None ==> without_hooks(
            live_export_anchor_step(subrepo, view, log, at),
        ),
{
    lemma_find_anchor_recovery_asks(subrepo, view, log, at + 1);
}

/// Adopting a recovered anchor stays local.
pub proof fn lemma_recover_export_anchor_asks(
    subrepo: ResolvedSubrepoView,
    view: SyncViewValue,
    log: Seq<ReplyView>,
    at: int,
)
    ensures
        stays_local(recover_export_anchor_step(subrepo, view, log, at)),
        subrepo.transform is None ==> without_hooks(
            recover_export_anchor_step(subrepo, view, log, at),
        ),
{
    lemma_find_anchor_recovery_asks(subrepo, view, log, at);
}

} // verus!
