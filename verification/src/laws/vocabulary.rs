//! What an operation says about its subrepo when it asks for something: which path it looks at,
//! which repository and branch it talks to, which refs it keeps, and which commands it runs.

use vstd::prelude::*;
use vstd::string::*;
use crate::config::ResolvedSubrepoView;
use crate::doctor::{
    SectionView, blank_section, broken_section, check_anchor_step, check_fork_step,
    check_published_step, check_subrepo_step, last_exported_section, report_counts_step,
    report_rewritten_anchor_step, seeded_section, superseded_section, verify_mapping_step,
};
use crate::exporter::{
    ExportCandidateView, PlannedExportView, build_export_chain_step, candidates_of,
    compute_exports_step, export_base_rewritten_step, find_anchor_recovery_step,
    live_export_anchor_step, plan_export_step, plan_one_step, plan_rest_step, publish_baseline_step,
    publish_full_history_step, push_chain_step, recover_export_anchor_step, recovery_walk_step,
    run_export_step, tip_tree_step,
};
use crate::filter::{
    FilterErrorView, anchor_subtree_step, has_committed_files_step, name_subtree_step, without_scan,
};
use crate::laws::requests::{lemma_build_chain_asks, lemma_write_subtree_asks};
use crate::ops::{
    export_subrepo_step, export_view_step, first_publish_step, import_subrepo_step, load_view_step,
    nothing_pushed_text, plan_pull_dry_run_step, plan_push_dry_run_step, preview_candidates_step,
    preview_view_step, push_candidates_step, related_view_step,
};
use crate::sync_view::{
    SyncViewValue, anchor_walk_step, claims, exported_map, fetch_step, find_export_anchor_step,
    load_fork_state_step, load_sync_view_step, origins_anchor_step, origins_step, pub_head_step,
    reflects_exactly_step, values_of, view_step,
};
use crate::talk::{rev_at, shas_at, text_at, trailers_at};
use crate::text::decimal_text;
use crate::talk::{ReplyView, RequestView, Step};
use crate::text::Text;

verus! {

/// The repository that a subrepo is pulled from.
pub open spec fn pulled_from(subrepo: ResolvedSubrepoView) -> Text {
    if subrepo.upstream is Some {
        subrepo.upstream->0
    } else {
        subrepo.remote
    }
}

/// The local ref that mirrors the public branch of a subrepo.
pub open spec fn mirror_ref(subrepo: ResolvedSubrepoView) -> Text {
    "refs/monosplice/"@ + subrepo.name + "/remote"@
}

/// The local ref that mirrors the fork branch of a subrepo.
pub open spec fn fork_mirror_ref(subrepo: ResolvedSubrepoView) -> Text {
    "refs/monosplice/"@ + subrepo.name + "/fork"@
}

/// Is this a git command that an operation on the subrepo may run? It lists the subrepo's path
/// at some commit, looks up the tree of some commit, walks the mirrored branch, oldest first, or
/// moves one of the subrepo's own refs.
pub open spec fn git_about(
    subrepo: ResolvedSubrepoView,
    args: Seq<Text>,
    input: Option<Text>,
) -> bool {
    ||| input is None && exists|rev: Text|
        args == #[trigger] seq![
            "ls-tree"@,
            "-d"@,
            "--format=%(objectname)"@,
            rev,
            "--"@,
            subrepo.path,
        ]
    ||| input is None && exists|rev: Text|
        args == seq![
            "ls-tree"@,
            "-r"@,
            "--name-only"@,
            "-z"@,
            #[trigger] (rev + ":"@) + subrepo.path,
        ]
    ||| input is None && exists|rev: Text|
        args == seq!["rev-parse"@, #[trigger] (rev + "^{tree}"@)]
    ||| input is None && args == seq!["rev-list"@, "--reverse"@, mirror_ref(subrepo)]
    ||| input is Some && args == seq![
        "rev-list"@,
        "--reverse"@,
        mirror_ref(subrepo),
        "--stdin"@,
    ]
    ||| input is None && args.len() == 3 && args[0] == "update-ref"@ && (args[1] == mirror_ref(
        subrepo,
    ) || subrepo.upstream is Some && args[1] == fork_mirror_ref(subrepo))
}

/// Does a request keep to the subrepo that it is made for? Whatever it names of the subrepo is
/// what the configuration says: the path that is listed and walked, the excludes, the commands of
/// the hooks, the repository and the branch at either end, and the refs.
pub open spec fn is_about(subrepo: ResolvedSubrepoView, request: RequestView) -> bool {
    match request {
        RequestView::Git { args, input } => git_about(subrepo, args, input),
        RequestView::GitOk { args } => args.len() == 4 && args[0] == "merge-base"@ && args[1]
            == "--is-ancestor"@,
        RequestView::RevList { args } => {
            ||| args == seq!["HEAD"@]
            ||| args == seq![mirror_ref(subrepo)]
            ||| exists|range: Text|
                args == #[trigger] seq!["--reverse"@, "--topo-order"@, range, "--"@, subrepo.path]
            ||| args == seq!["--first-parent"@, "-n"@, decimal_text(1000), "HEAD"@]
        },
        RequestView::RevParse { rev } => rev == "HEAD"@ || rev == mirror_ref(subrepo) || rev
            == fork_mirror_ref(subrepo),
        RequestView::LsRemoteBranch { remote, branch } => {
            ||| remote == pulled_from(subrepo) && branch == subrepo.branch
            ||| subrepo.upstream is Some && remote == subrepo.remote && branch
                == subrepo.push_branch
        },
        RequestView::FetchBranch { remote, branch, dst } => {
            ||| remote == pulled_from(subrepo) && branch == subrepo.branch && dst == mirror_ref(
                subrepo,
            )
            ||| subrepo.upstream is Some && remote == subrepo.remote && branch
                == subrepo.push_branch && dst == fork_mirror_ref(subrepo)
        },
        RequestView::TrailerValues { key, args } => {
            ||| key == "Monosplice-Origin"@ && args == seq!["HEAD"@]
            ||| key == "Monosplice-Source"@ && args == seq![mirror_ref(subrepo)]
        },
        RequestView::LsTree { treeish } => exists|rev: Text|
            treeish == #[trigger] (rev + ":"@) + subrepo.path,
        RequestView::Exclude { patterns, .. } => patterns == subrepo.exclude,
        RequestView::TreeHook { hook, command, subrepo: name, .. } => {
            &&& name == subrepo.name
            &&& hook == "scan"@ && subrepo.scan == Some(command) || hook == "transform"@
                && subrepo.transform == Some(command)
        },
        RequestView::RewriteMessage { command, subrepo: name, .. } => name == subrepo.name
            && subrepo.rewrite_message == Some(command),
        RequestView::PushRef { remote, dst, .. } => {
            &&& remote == subrepo.remote
            &&& dst == "refs/heads/"@ + subrepo.branch || subrepo.upstream is Some && dst
                == "refs/heads/"@ + subrepo.push_branch
        },
        RequestView::PushRefWithLease { remote, dst, .. } => subrepo.upstream is Some && remote
            == subrepo.remote && dst == "refs/heads/"@ + subrepo.push_branch,
        RequestView::CheckImport { target, retry } => target == subrepo && retry
            == "monosplice pull "@ + subrepo.name,
        RequestView::RunImport { target, .. } => target == subrepo,
        RequestView::OpenProject => false,
        RequestView::ReadSequencer => false,
        RequestView::SequencerPath => false,
        RequestView::SelectSubrepos { .. } => false,
        _ => true,
    }
}

/// Whatever the procedure stops at is about the subrepo.
pub open spec fn keeps_to<T>(subrepo: ResolvedSubrepoView, step: Step<T>) -> bool {
    step matches Step::Ask(request) ==> is_about(subrepo, request)
}

proof fn lemma_name_subtree_keeps(
    mono_commit: Text,
    subrepo: ResolvedSubrepoView,
    log: Seq<ReplyView>,
    at: int,
)
    ensures
        keeps_to(subrepo, name_subtree_step(mono_commit, subrepo, log, at)),
{
}

proof fn lemma_anchor_subtree_keeps(
    mono_commit: Text,
    subrepo: ResolvedSubrepoView,
    log: Seq<ReplyView>,
    at: int,
)
    ensures
        keeps_to(subrepo, anchor_subtree_step(mono_commit, subrepo, log, at)),
{
    lemma_name_subtree_keeps(
        mono_commit,
        without_scan(subrepo),
        log,
        at,
    );
}

proof fn lemma_reflects_exactly_keeps(
    s: ResolvedSubrepoView,
    hooks: bool,
    mono_sha: Text,
    pub_sha: Text,
    log: Seq<ReplyView>,
    at: int,
)
    ensures
        keeps_to(s, reflects_exactly_step(s, hooks, mono_sha, pub_sha, log, at)),
{
    lemma_anchor_subtree_keeps(mono_sha, s, log, at);
}

proof fn lemma_origins_anchor_keeps(
    s: ResolvedSubrepoView,
    hooks: bool,
    mono_sha: Text,
    origins: Seq<Text>,
    pub_ancestors: Seq<Text>,
    j: int,
    related: bool,
    log: Seq<ReplyView>,
    at: int,
)
    ensures
        keeps_to(
            s,
            origins_anchor_step(s, hooks, mono_sha, origins, pub_ancestors, j, related, log, at),
        ),
    decreases origins.len() - j,
{
    if j < origins.len() {
        if pub_ancestors.contains(origins[j]) {
            lemma_reflects_exactly_keeps(s, hooks, mono_sha, origins[j], log, at);
            match reflects_exactly_step(s, hooks, mono_sha, origins[j], log, at) {
                Step::Done(false, at) => {
                    lemma_origins_anchor_keeps(
                        s,
                        hooks,
                        mono_sha,
                        origins,
                        pub_ancestors,
                        j + 1,
                        true,
                        log,
                        at,
                    );
                },
                _ => {},
            }
        } else {
            lemma_origins_anchor_keeps(
                s,
                hooks,
                mono_sha,
                origins,
                pub_ancestors,
                j + 1,
                related,
                log,
                at,
            );
        }
    }
}

proof fn lemma_anchor_walk_keeps(
    s: ResolvedSubrepoView,
    hooks: bool,
    exported: Map<Text, Text>,
    origin_by_mono: Seq<(Text, Seq<Text>)>,
    pub_ancestors: Seq<Text>,
    walk: Seq<Text>,
    i: int,
    related: bool,
    log: Seq<ReplyView>,
    at: int,
)
    ensures
        keeps_to(
            s,
            anchor_walk_step(
                s,
                hooks,
                exported,
                origin_by_mono,
                pub_ancestors,
                walk,
                i,
                related,
                log,
                at,
            ),
        ),
    decreases walk.len() - i,
{
    if i < walk.len() && !exported.contains_key(walk[i]) {
        let origins = values_of(origin_by_mono, walk[i]);
        lemma_origins_anchor_keeps(s, hooks, walk[i], origins, pub_ancestors, 0, related, log, at);
        match origins_anchor_step(s, hooks, walk[i], origins, pub_ancestors, 0, related, log, at) {
            Step::Done((false, related), at) => {
                lemma_anchor_walk_keeps(
                    s,
                    hooks,
                    exported,
                    origin_by_mono,
                    pub_ancestors,
                    walk,
                    i + 1,
                    related,
                    log,
                    at,
                );
            },
            _ => {},
        }
    }
}

proof fn lemma_find_export_anchor_keeps(
    s: ResolvedSubrepoView,
    hooks: bool,
    exported: Map<Text, Text>,
    origin_by_mono: Seq<(Text, Seq<Text>)>,
    pub_ancestors: Seq<Text>,
    log: Seq<ReplyView>,
    at: int,
)
    ensures
        keeps_to(
            s,
            find_export_anchor_step(s, hooks, exported, origin_by_mono, pub_ancestors, log, at),
        ),
{
    match shas_at(log, at) {
        Some(Ok(walk)) => {
            lemma_anchor_walk_keeps(
                s,
                hooks,
                exported,
                origin_by_mono,
                pub_ancestors,
                walk,
                0,
                !exported.is_empty(),
                log,
                at + 1,
            );
        },
        _ => {},
    }
}

proof fn lemma_view_keeps(
    s: ResolvedSubrepoView,
    hooks: bool,
    offline: bool,
    log: Seq<ReplyView>,
    at: int,
)
    ensures
        keeps_to(s, view_step(s, hooks, offline, log, at)),
        view_step(s, hooks, offline, log, at) matches Step::Done(Ok(view), _)
            ==> view.tracking_ref == mirror_ref(s),
{
    match pub_head_step(s, offline, log, at) {
        Step::Done(Ok(Some(_)), at) => match origins_step(log, at) {
            Step::Done(Ok(origins), at) => match fetch_step(s, offline, log, at) {
                Step::Done(Ok(_), at) => match (
                    trailers_at(log, at),
                    shas_at(log, at + 1),
                    shas_at(log, at + 2),
                ) {
                    (Some(Ok(source)), Some(Ok(walk)), Some(Ok(_))) => {
                        lemma_find_export_anchor_keeps(
                            s,
                            hooks,
                            exported_map(claims(walk, source)),
                            origins,
                            walk,
                            log,
                            at + 3,
                        );
                    },
                    _ => {},
                },
                _ => {},
            },
            _ => {},
        },
        _ => {},
    }
}

proof fn lemma_load_fork_state_keeps(
    s: ResolvedSubrepoView,
    offline: bool,
    log: Seq<ReplyView>,
    at: int,
)
    requires
        s.upstream is Some,
    ensures
        keeps_to(s, load_fork_state_step(s, offline, log, at)),
{
}

proof fn lemma_plan_one_keeps(
    subrepo: ResolvedSubrepoView,
    pub_head: Option<Text>,
    mono_sha: Text,
    tip_tree: Text,
    log: Seq<ReplyView>,
    at: int,
)
    ensures
        keeps_to(subrepo, plan_one_step(subrepo, pub_head, mono_sha, tip_tree, log, at)),
{
    lemma_name_subtree_keeps(mono_sha, subrepo, log, at);
}

proof fn lemma_plan_rest_keeps(
    subrepo: ResolvedSubrepoView,
    pub_head: Option<Text>,
    candidates: Seq<ExportCandidateView>,
    i: int,
    tip_tree: Text,
    planned: Seq<PlannedExportView>,
    log: Seq<ReplyView>,
    at: int,
)
    ensures
        keeps_to(
            subrepo,
            plan_rest_step(subrepo, pub_head, candidates, i, tip_tree, planned, log, at),
        ),
    decreases candidates.len() - i,
{
    if i < candidates.len() {
        lemma_plan_one_keeps(subrepo, pub_head, candidates[i].mono_sha, tip_tree, log, at);
        match plan_one_step(subrepo, pub_head, candidates[i].mono_sha, tip_tree, log, at) {
            Step::Done(Ok(None), at) => {
                lemma_plan_rest_keeps(
                    subrepo,
                    pub_head,
                    candidates,
                    i + 1,
                    tip_tree,
                    planned,
                    log,
                    at,
                );
            },
            Step::Done(Ok(Some(plan)), at) => {
                lemma_plan_rest_keeps(
                    subrepo,
                    pub_head,
                    candidates,
                    i + 1,
                    plan.tree,
                    planned.push(plan),
                    log,
                    at,
                );
            },
            _ => {},
        }
    }
}

proof fn lemma_compute_exports_keeps(
    subrepo: ResolvedSubrepoView,
    pub_head: Option<Text>,
    candidates: Seq<ExportCandidateView>,
    log: Seq<ReplyView>,
    at: int,
)
    ensures
        keeps_to(subrepo, compute_exports_step(subrepo, pub_head, candidates, log, at)),
{
    match tip_tree_step(pub_head, log, at) {
        Step::Done(Ok(tip_tree), at) => {
            lemma_plan_rest_keeps(
                subrepo,
                pub_head,
                candidates,
                0,
                tip_tree,
                Seq::empty(),
                log,
                at,
            );
        },
        _ => {},
    }
}

proof fn lemma_recovery_walk_keeps(
    subrepo: ResolvedSubrepoView,
    target: Text,
    walk: Seq<Text>,
    i: int,
    recovered: Option<Text>,
    also_matching: int,
    log: Seq<ReplyView>,
    at: int,
)
    ensures
        keeps_to(
            subrepo,
            recovery_walk_step(subrepo, target, walk, i, recovered, also_matching, log, at),
        ),
    decreases walk.len() - i,
{
    if i < walk.len() {
        lemma_anchor_subtree_keeps(walk[i], subrepo, log, at);
        match anchor_subtree_step(walk[i], subrepo, log, at) {
            Step::Done(tree, at) => {
                let matching = tree == Ok::<Option<Text>, FilterErrorView>(
                    Some(target),
                );
                if !(recovered is Some && !matching) {
                    lemma_recovery_walk_keeps(
                        subrepo,
                        target,
                        walk,
                        i + 1,
                        if recovered is None && matching {
                            Some(walk[i])
                        } else {
                            recovered
                        },
                        if recovered is Some {
                            also_matching + 1
                        } else {
                            also_matching
                        },
                        log,
                        at,
                    );
                }
            },
            _ => {},
        }
    }
}

proof fn lemma_find_anchor_recovery_keeps(
    subrepo: ResolvedSubrepoView,
    view: SyncViewValue,
    log: Seq<ReplyView>,
    at: int,
)
    ensures
        keeps_to(subrepo, find_anchor_recovery_step(subrepo, view, log, at)),
{
    match export_base_rewritten_step(view.last_exported_mono, log, at) {
        Step::Done(true, at) => match (text_at(log, at), shas_at(log, at + 1)) {
            (Some(Ok(target)), Some(Ok(walk))) => {
                lemma_recovery_walk_keeps(subrepo, target, walk, 0, None, 0, log, at + 2);
            },
            _ => {},
        },
        _ => {},
    }
}

proof fn lemma_live_export_anchor_keeps(
    subrepo: ResolvedSubrepoView,
    view: SyncViewValue,
    log: Seq<ReplyView>,
    at: int,
)
    ensures
        keeps_to(subrepo, live_export_anchor_step(subrepo, view, log, at)),
{
    lemma_find_anchor_recovery_keeps(subrepo, view, log, at + 1);
}

proof fn lemma_recover_export_anchor_keeps(
    subrepo: ResolvedSubrepoView,
    view: SyncViewValue,
    log: Seq<ReplyView>,
    at: int,
)
    ensures
        keeps_to(subrepo, recover_export_anchor_step(subrepo, view, log, at)),
{
    lemma_find_anchor_recovery_keeps(subrepo, view, log, at);
}


proof fn lemma_push_chain_keeps(
    subrepo: ResolvedSubrepoView,
    tracking_ref: Text,
    tip: Text,
    log: Seq<ReplyView>,
    at: int,
)
    requires
        tracking_ref == mirror_ref(subrepo),
    ensures
        keeps_to(subrepo, push_chain_step(subrepo, tracking_ref, tip, log, at)),
{
    if subrepo.upstream is Some {
        lemma_load_fork_state_keeps(subrepo, false, log, at);
    }
}

/// Whatever an export asks for is about its subrepo.
pub proof fn law_an_export_keeps_to_its_subrepo(
    subrepo: ResolvedSubrepoView,
    pub_head: Option<Text>,
    tracking_ref: Text,
    candidates: Seq<ExportCandidateView>,
    log: Seq<ReplyView>,
    at: int,
)
    requires
        tracking_ref == mirror_ref(subrepo),
    ensures
        keeps_to(subrepo, compute_exports_step(subrepo, pub_head, candidates, log, at)),
        keeps_to(
            subrepo,
            run_export_step(subrepo, pub_head, tracking_ref, candidates, log, at),
        ),
{
    lemma_compute_exports_keeps(subrepo, pub_head, candidates, log, at);
    match compute_exports_step(subrepo, pub_head, candidates, log, at) {
        Step::Done(Ok(planned), at) => {
            lemma_build_chain_asks(planned, pub_head, log, at);
            match build_export_chain_step(planned, pub_head, log, at) {
                Step::Done(Ok((_, Some(tip))), at) => {
                    lemma_push_chain_keeps(subrepo, tracking_ref, tip, log, at);
                },
                _ => {},
            }
        },
        _ => {},
    }
}

/// Whatever a first publish asks for is about its subrepo: as a baseline, with its history, and
/// as the command runs it.
pub proof fn law_a_first_publish_keeps_to_its_subrepo(
    root: Text,
    subrepo: ResolvedSubrepoView,
    head: Text,
    export_history: bool,
    log: Seq<ReplyView>,
    at: int,
)
    ensures
        keeps_to(subrepo, publish_baseline_step(subrepo, head, log, at)),
        keeps_to(subrepo, publish_full_history_step(subrepo, head, log, at)),
        keeps_to(subrepo, first_publish_step(root, subrepo, export_history, log, at)),
{
    lemma_publish_keeps(subrepo, head, log, at);
    match rev_at(log, at) {
        Some(Some(head)) => {
            lemma_has_committed_files_keeps(head, subrepo, log, at + 1);
            match has_committed_files_step(head, subrepo, log, at + 1) {
                Step::Done(true, at) => {
                    lemma_publish_keeps(subrepo, head, log, at + 1);
                },
                _ => {},
            }
        },
        _ => {},
    }
}

proof fn lemma_has_committed_files_keeps(
    rev: Text,
    subrepo: ResolvedSubrepoView,
    log: Seq<ReplyView>,
    at: int,
)
    ensures
        keeps_to(subrepo, has_committed_files_step(rev, subrepo, log, at)),
{
}

proof fn lemma_publish_keeps(
    subrepo: ResolvedSubrepoView,
    head: Text,
    log: Seq<ReplyView>,
    at: int,
)
    ensures
        keeps_to(subrepo, publish_baseline_step(subrepo, head, log, at)),
        keeps_to(subrepo, publish_full_history_step(subrepo, head, log, at)),
{
    lemma_name_subtree_keeps(head, subrepo, log, at);
    match name_subtree_step(head, subrepo, log, at) {
        Step::Done(Ok(Some(subtree)), at) => {
            lemma_write_subtree_asks(subtree.content, log, at + 1);
        },
        _ => {},
    }
    match shas_at(log, at) {
        Some(Ok(shas)) => {
            law_an_export_keeps_to_its_subrepo(
                subrepo,
                None,
                mirror_ref(subrepo),
                candidates_of(shas),
                log,
                at + 1,
            );
        },
        _ => {},
    }
}

proof fn lemma_related_view_keeps(
    subrepo: ResolvedSubrepoView,
    view: SyncViewValue,
    consequence: Text,
    log: Seq<ReplyView>,
    at: int,
)
    ensures
        keeps_to(subrepo, related_view_step(subrepo, view, consequence, log, at)),
{
    match rev_at(log, at) {
        Some(Some(head)) => {
            lemma_has_committed_files_keeps(head, subrepo, log, at + 1);
        },
        _ => {},
    }
}

proof fn lemma_push_candidates_keeps(
    subrepo: ResolvedSubrepoView,
    view: SyncViewValue,
    log: Seq<ReplyView>,
    at: int,
)
    ensures
        keeps_to(subrepo, push_candidates_step(subrepo, view, log, at)),
        keeps_to(subrepo, preview_candidates_step(subrepo, view, log, at)),
{
    lemma_recover_export_anchor_keeps(subrepo, view, log, at);
}

/// Whatever a push asks for is about its subrepo.
pub proof fn law_a_push_keeps_to_its_subrepo(
    subrepo: ResolvedSubrepoView,
    loaded: Option<SyncViewValue>,
    log: Seq<ReplyView>,
    at: int,
)
    requires
        loaded matches Some(view) ==> view.tracking_ref == mirror_ref(subrepo),
    ensures
        keeps_to(subrepo, export_subrepo_step(subrepo, loaded, log, at)),
{
    match loaded {
        Some(view) => {
            lemma_export_view_keeps(subrepo, view, log, at);
        },
        None => {
            lemma_view_keeps(subrepo, true, false, log, at);
            match load_view_step(subrepo, false, log, at) {
                Step::Done(Ok(view), at) => {
                    lemma_export_view_keeps(subrepo, view, log, at);
                },
                _ => {},
            }
        },
    }
}

proof fn lemma_export_view_keeps(
    subrepo: ResolvedSubrepoView,
    view: SyncViewValue,
    log: Seq<ReplyView>,
    at: int,
)
    requires
        view.tracking_ref == mirror_ref(subrepo),
    ensures
        keeps_to(subrepo, export_view_step(subrepo, view, log, at)),
{
    let consequence = nothing_pushed_text(subrepo);
    lemma_related_view_keeps(subrepo, view, consequence, log, at);
    match related_view_step(subrepo, view, consequence, log, at) {
        Step::Done(Ok(_), at) => {
            lemma_push_candidates_keeps(subrepo, view, log, at);
            match push_candidates_step(subrepo, view, log, at) {
                Step::Done(Ok((after, candidates)), at) => {
                    law_an_export_keeps_to_its_subrepo(
                        subrepo,
                        after.pub_head,
                        after.tracking_ref,
                        candidates,
                        log,
                        at,
                    );
                },
                _ => {},
            }
        },
        _ => {},
    }
}

/// Whatever a view, a pull or a dry run asks for is about its subrepo.
pub proof fn law_a_look_keeps_to_its_subrepo(
    subrepo: ResolvedSubrepoView,
    offline: bool,
    export_history: bool,
    continue_command: Option<Text>,
    log: Seq<ReplyView>,
    at: int,
)
    ensures
        keeps_to(subrepo, load_view_step(subrepo, offline, log, at)),
        keeps_to(subrepo, import_subrepo_step(subrepo, continue_command, log, at)),
        keeps_to(subrepo, plan_push_dry_run_step(subrepo, export_history, log, at)),
        keeps_to(subrepo, plan_pull_dry_run_step(subrepo, log, at)),
{
    lemma_view_keeps(subrepo, true, offline, log, at);
    lemma_view_keeps(subrepo, true, false, log, at);
    lemma_view_keeps(subrepo, false, false, log, at);
    match load_view_step(subrepo, false, log, at) {
        Step::Done(Ok(view), at) => {
            lemma_related_view_keeps(subrepo, view, "Nothing was imported."@, log, at);
        },
        _ => {},
    }
    match preview_view_step(subrepo, log, at) {
        Step::Done(Ok(view), at) => {
            lemma_related_view_keeps(subrepo, view, "Nothing was imported."@, log, at);
            lemma_push_candidates_keeps(subrepo, view, log, at);
            match rev_at(log, at) {
                Some(Some(head)) => {
                    lemma_has_committed_files_keeps(head, subrepo, log, at + 1);
                },
                _ => {},
            }
        },
        _ => {},
    }
}

/// A view names the mirror of its own subrepo.
pub proof fn law_a_view_names_its_mirror(
    subrepo: ResolvedSubrepoView,
    log: Seq<ReplyView>,
    at: int,
)
    ensures
        load_sync_view_step(subrepo, false, log, at) matches Step::Done(Ok(view), _)
            ==> view.tracking_ref == mirror_ref(subrepo),
{
    lemma_view_keeps(subrepo, true, false, log, at);
}

/// Whatever a doctor asks for while it checks a subrepo is about that subrepo.
pub proof fn law_a_check_keeps_to_its_subrepo(
    subrepo: ResolvedSubrepoView,
    log: Seq<ReplyView>,
    at: int,
)
    ensures
        keeps_to(subrepo, check_subrepo_step(subrepo, log, at)),
{
    lemma_view_keeps(subrepo, true, false, log, at);
    match load_sync_view_step(subrepo, false, log, at) {
        Step::Done(Ok(view), at) => match view.pub_head {
            Some(pub_head) => {
                if subrepo.upstream is Some {
                    lemma_load_fork_state_keeps(subrepo, false, log, at);
                }
                let seeded = seeded_section(blank_section(subrepo), subrepo, pub_head);
                match check_fork_step(seeded, subrepo, log, at) {
                    Step::Done(section, at) => {
                        lemma_check_published_keeps(section, subrepo, view, log, at);
                    },
                    _ => {},
                }
            },
            None => {},
        },
        _ => {},
    }
}

proof fn lemma_verify_mapping_keeps(
    section: SectionView,
    subrepo: ResolvedSubrepoView,
    view: SyncViewValue,
    log: Seq<ReplyView>,
    at: int,
)
    ensures
        keeps_to(subrepo, verify_mapping_step(section, subrepo, view, log, at)),
{
    match view.last_exported_mono {
        Some(last) => {
            lemma_name_subtree_keeps(last, subrepo, log, at);
        },
        None => {},
    }
}

proof fn lemma_check_published_keeps(
    section: SectionView,
    subrepo: ResolvedSubrepoView,
    view: SyncViewValue,
    log: Seq<ReplyView>,
    at: int,
)
    ensures
        keeps_to(subrepo, check_published_step(section, subrepo, view, log, at)),
{
    let shown = last_exported_section(section, view);
    match plan_export_step(subrepo, view, log, at) {
        Step::Done(Ok(candidates), at) => {
            lemma_compute_exports_keeps(subrepo, view.pub_head, candidates, log, at);
        },
        _ => {},
    }
    match report_counts_step(shown, subrepo, view, log, at) {
        Step::Done(Ok(section), at) => {
            let reported = superseded_section(
                broken_section(section, view.broken_source_refs),
                view,
            );
            match export_base_rewritten_step(view.last_exported_mono, log, at) {
                Step::Done(false, at) => {
                    lemma_verify_mapping_keeps(reported, subrepo, view, log, at);
                },
                Step::Done(true, at) => {
                    lemma_find_anchor_recovery_keeps(subrepo, view, log, at);
                    match report_rewritten_anchor_step(reported, subrepo, view, log, at) {
                        Step::Done(section, at) => {
                            lemma_verify_mapping_keeps(section, subrepo, view, log, at);
                        },
                        _ => {},
                    }
                },
                _ => {},
            }
            match check_anchor_step(reported, subrepo, view, log, at) {
                Step::Done(_, at) => {
                    lemma_live_export_anchor_keeps(subrepo, view, log, at);
                },
                _ => {},
            }
        },
        _ => {},
    }
}

} // verus!
