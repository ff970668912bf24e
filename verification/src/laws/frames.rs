//! What more replies cannot change.
//!
//! A procedure reads its replies in order and nothing else, so once it has finished, what it
//! has not read makes no difference: the same value comes out, at the same position.

use vstd::prelude::*;
use vstd::string::*;
use crate::config::ResolvedSubrepoView;
use crate::exporter::{
    already_published_step, build_export_chain_step, chain_rest_step, compute_exports_step,
    plan_one_step, plan_rest_step, tip_tree_step, write_trees_step, ExportCandidateView,
    ExportedCommitView, PlannedExportView,
};
use crate::filter::{
    name_tree_step, write_subtree_step, TreeContentView, name_subtree_step, hooks_step,
    kept_entries, tree_hook_step,
};
use crate::git::TreeEntryView;
use crate::sync_view::load_fork_state_step;
use crate::talk::{
    commit_at, entries_at, excluded_at, materialized_at, path_at, rehashed_at, text_at, ReplyView,
    Step,
};
use crate::text::Text;

verus! {

/// Has a finished procedure read between `at` and the end of the replies?
pub open spec fn within<T>(step: Step<T>, log: Seq<ReplyView>, at: int) -> bool {
    step matches Step::Done(_, end) ==> at <= end <= log.len()
}

/// Are the first `end` replies the same?
pub open spec fn agree(log: Seq<ReplyView>, other: Seq<ReplyView>, end: int) -> bool {
    &&& end <= log.len()
    &&& end <= other.len()
    &&& forall|i: int|
        #![trigger log[i]]
        #![trigger other[i]]
        0 <= i < end ==> other[i] == log[i]
}

/// Does a procedure that is finished come out as `on_other` on every list of replies that
/// agrees with these as far as it has read?
pub open spec fn fixed_by_what_it_read<T>(
    step: Step<T>,
    on_other: Step<T>,
    log: Seq<ReplyView>,
    other: Seq<ReplyView>,
) -> bool {
    step matches Step::Done(_, end) ==> agree(log, other, end) ==> on_other == step
}

/// Longer replies begin with the shorter ones.
pub proof fn lemma_prefix(log: Seq<ReplyView>, longer: Seq<ReplyView>)
    requires
        log.is_prefix_of(longer),
    ensures
        forall|end: int| 0 <= end <= log.len() ==> #[trigger] agree(log, longer, end),
        log.len() <= longer.len(),
{
    assert forall|i: int| 0 <= i < log.len() implies longer[i] == log[i] by {
        assert(longer.subrange(0, log.len() as int)[i] == longer[i]);
    }
}

/// Shorter replies are where the longer ones begin.
pub proof fn lemma_taken(log: Seq<ReplyView>, n: int)
    requires
        0 <= n <= log.len(),
    ensures
        forall|end: int| 0 <= end <= n ==> #[trigger] agree(log, log.take(n), end),
{
}

/// Naming a tree, once finished, is fixed by what it read.
pub proof fn lemma_name_tree_extends(
    entries: Seq<TreeEntryView>,
    content: TreeContentView,
    log: Seq<ReplyView>,
    other: Seq<ReplyView>,
    at: int,
)
    requires
        0 <= at <= log.len(),
    ensures
        within(name_tree_step(entries, content, log, at), log, at),
        fixed_by_what_it_read(
            name_tree_step(entries, content, log, at),
            name_tree_step(entries, content, other, at),
            log,
            other,
        ),
{
}

/// A tree hook, once finished, is fixed by what it read.
pub proof fn lemma_tree_hook_extends(
    hook: Text,
    command: Option<Text>,
    dir: Text,
    subrepo: Text,
    mono_sha: Text,
    message_file: Text,
    log: Seq<ReplyView>,
    other: Seq<ReplyView>,
    at: int,
)
    requires
        0 <= at <= log.len(),
    ensures
        within(
            tree_hook_step(hook, command, dir, subrepo, mono_sha, message_file, log, at),
            log,
            at,
        ),
        fixed_by_what_it_read(
            tree_hook_step(hook, command, dir, subrepo, mono_sha, message_file, log, at),
            tree_hook_step(hook, command, dir, subrepo, mono_sha, message_file, other, at),
            log,
            other,
        ),
{
}

/// The hooks of a subtree, once finished, is fixed by what it read.
pub proof fn lemma_hooks_extends(
    subrepo: ResolvedSubrepoView,
    kept: Seq<TreeEntryView>,
    mono_sha: Text,
    dir: Text,
    passthrough: Seq<TreeEntryView>,
    message_file: Text,
    log: Seq<ReplyView>,
    other: Seq<ReplyView>,
    at: int,
)
    requires
        0 <= at <= log.len(),
    ensures
        within(
            hooks_step(subrepo, kept, mono_sha, dir, passthrough, message_file, log, at),
            log,
            at,
        ),
        fixed_by_what_it_read(
            hooks_step(subrepo, kept, mono_sha, dir, passthrough, message_file, log, at),
            hooks_step(subrepo, kept, mono_sha, dir, passthrough, message_file, other, at),
            log,
            other,
        ),
{
    lemma_tree_hook_extends(
        "scan"@,
        subrepo.scan,
        dir,
        subrepo.name,
        mono_sha,
        message_file,
        log,
        other,
        at,
    );
    match tree_hook_step(
        "scan"@,
        subrepo.scan,
        dir,
        subrepo.name,
        mono_sha,
        message_file,
        log,
        at,
    ) {
        Step::Done(Ok(_), at) => {
            lemma_name_tree_extends(kept, TreeContentView::Files { entries: kept }, log, other, at);
            lemma_tree_hook_extends(
                "transform"@,
                subrepo.transform,
                dir,
                subrepo.name,
                mono_sha,
                message_file,
                log,
                other,
                at,
            );
            match tree_hook_step(
                "transform"@,
                subrepo.transform,
                dir,
                subrepo.name,
                mono_sha,
                message_file,
                log,
                at,
            ) {
                Step::Done(Ok(_), at) => match rehashed_at(log, at) {
                    Some(Ok(rehashed)) => {
                        lemma_name_tree_extends(
                            passthrough + rehashed,
                            TreeContentView::Directory { dir, passthrough },
                            log,
                            other,
                            at + 1,
                        );
                    },
                    _ => {},
                },
                _ => {},
            }
        },
        _ => {},
    }
}

/// Resolving a subtree, once finished, is fixed by what it read.
pub proof fn lemma_name_subtree_extends(
    mono_commit: Text,
    subrepo: ResolvedSubrepoView,
    log: Seq<ReplyView>,
    other: Seq<ReplyView>,
    at: int,
)
    requires
        0 <= at <= log.len(),
    ensures
        within(name_subtree_step(mono_commit, subrepo, log, at), log, at),
        fixed_by_what_it_read(
            name_subtree_step(mono_commit, subrepo, log, at),
            name_subtree_step(mono_commit, subrepo, other, at),
            log,
            other,
        ),
{
    match entries_at(log, at) {
        Some(Ok(entries)) => match excluded_at(log, at + 1) {
            Some(Ok(excluded)) => {
                let kept = kept_entries(entries, excluded);
                lemma_name_tree_extends(
                    kept,
                    TreeContentView::Files { entries: kept },
                    log,
                    other,
                    at + 2,
                );
                match (commit_at(log, at + 2), materialized_at(log, at + 3), path_at(log, at + 4)) {
                    (Some(Ok(meta)), Some(Ok(tree)), Some(Ok(message_file))) => {
                        lemma_hooks_extends(
                            subrepo,
                            kept,
                            meta.sha,
                            tree.dir,
                            tree.passthrough,
                            message_file,
                            log,
                            other,
                            at + 5,
                        );
                    },
                    _ => {},
                }
            },
            _ => {},
        },
        _ => {},
    }
}

/// The look for a pure import, once finished, is fixed by what it read.
pub proof fn lemma_already_published_extends(
    message: Text,
    tree: Text,
    pub_head: Text,
    log: Seq<ReplyView>,
    other: Seq<ReplyView>,
    at: int,
)
    requires
        0 <= at <= log.len(),
    ensures
        within(already_published_step(message, tree, pub_head, log, at), log, at),
        fixed_by_what_it_read(
            already_published_step(message, tree, pub_head, log, at),
            already_published_step(message, tree, pub_head, other, at),
            log,
            other,
        ),
{
}

/// Planning one candidate, once finished, is fixed by what it read.
pub proof fn lemma_plan_one_extends(
    subrepo: ResolvedSubrepoView,
    pub_head: Option<Text>,
    mono_sha: Text,
    tip_tree: Text,
    log: Seq<ReplyView>,
    other: Seq<ReplyView>,
    at: int,
)
    requires
        0 <= at <= log.len(),
    ensures
        within(plan_one_step(subrepo, pub_head, mono_sha, tip_tree, log, at), log, at),
        fixed_by_what_it_read(
            plan_one_step(subrepo, pub_head, mono_sha, tip_tree, log, at),
            plan_one_step(subrepo, pub_head, mono_sha, tip_tree, other, at),
            log,
            other,
        ),
{
    lemma_name_subtree_extends(mono_sha, subrepo, log, other, at);
    match name_subtree_step(mono_sha, subrepo, log, at) {
        Step::Done(Ok(Some(subtree)), at) => match commit_at(log, at) {
            Some(Ok(meta)) => {
                if let Some(head) = pub_head {
                    lemma_already_published_extends(
                        meta.message,
                        subtree.tree,
                        head,
                        log,
                        other,
                        at + 1,
                    );
                }
            },
            _ => {},
        },
        _ => {},
    }
}

/// Planning the candidates from one on, once finished, is fixed by what it read.
pub proof fn lemma_plan_rest_extends(
    subrepo: ResolvedSubrepoView,
    pub_head: Option<Text>,
    candidates: Seq<ExportCandidateView>,
    i: int,
    tip_tree: Text,
    planned: Seq<PlannedExportView>,
    log: Seq<ReplyView>,
    other: Seq<ReplyView>,
    at: int,
)
    requires
        0 <= at <= log.len(),
    ensures
        within(
            plan_rest_step(subrepo, pub_head, candidates, i, tip_tree, planned, log, at),
            log,
            at,
        ),
        fixed_by_what_it_read(
            plan_rest_step(subrepo, pub_head, candidates, i, tip_tree, planned, log, at),
            plan_rest_step(subrepo, pub_head, candidates, i, tip_tree, planned, other, at),
            log,
            other,
        ),
    decreases candidates.len() - i,
{
    if i < candidates.len() {
        lemma_plan_one_extends(subrepo, pub_head, candidates[i].mono_sha, tip_tree, log, other, at);
        match plan_one_step(subrepo, pub_head, candidates[i].mono_sha, tip_tree, log, at) {
            Step::Done(Ok(None), at) => {
                lemma_plan_rest_extends(
                    subrepo,
                    pub_head,
                    candidates,
                    i + 1,
                    tip_tree,
                    planned,
                    log,
                    other,
                    at,
                );
            },
            Step::Done(Ok(Some(plan)), at) => {
                lemma_plan_rest_extends(
                    subrepo,
                    pub_head,
                    candidates,
                    i + 1,
                    plan.tree,
                    planned.push(plan),
                    log,
                    other,
                    at,
                );
            },
            _ => {},
        }
    }
}

/// Planning every candidate, once finished, is fixed by what it read.
pub proof fn lemma_compute_exports_extends(
    subrepo: ResolvedSubrepoView,
    pub_head: Option<Text>,
    candidates: Seq<ExportCandidateView>,
    log: Seq<ReplyView>,
    other: Seq<ReplyView>,
    at: int,
)
    requires
        0 <= at <= log.len(),
    ensures
        within(compute_exports_step(subrepo, pub_head, candidates, log, at), log, at),
        fixed_by_what_it_read(
            compute_exports_step(subrepo, pub_head, candidates, log, at),
            compute_exports_step(subrepo, pub_head, candidates, other, at),
            log,
            other,
        ),
{
    match tip_tree_step(pub_head, log, at) {
        Step::Done(Ok(tip_tree), at) => {
            lemma_plan_rest_extends(
                subrepo,
                pub_head,
                candidates,
                0,
                tip_tree,
                Seq::empty(),
                log,
                other,
                at,
            );
        },
        _ => {},
    }
}

/// Writing a subtree, once finished, is fixed by what it read.
pub proof fn lemma_write_subtree_extends(
    content: TreeContentView,
    log: Seq<ReplyView>,
    other: Seq<ReplyView>,
    at: int,
)
    requires
        0 <= at <= log.len(),
    ensures
        within(write_subtree_step(content, log, at), log, at),
        fixed_by_what_it_read(
            write_subtree_step(content, log, at),
            write_subtree_step(content, other, at),
            log,
            other,
        ),
{
}

/// Writing the trees of the plans from one on, once finished, is fixed by what it read.
pub proof fn lemma_write_trees_extends(
    planned: Seq<PlannedExportView>,
    i: int,
    log: Seq<ReplyView>,
    other: Seq<ReplyView>,
    at: int,
)
    requires
        0 <= at <= log.len(),
    ensures
        within(write_trees_step(planned, i, log, at), log, at),
        fixed_by_what_it_read(
            write_trees_step(planned, i, log, at),
            write_trees_step(planned, i, other, at),
            log,
            other,
        ),
    decreases planned.len() - i,
{
    if i < planned.len() {
        lemma_write_subtree_extends(planned[i].content, log, other, at);
        match write_subtree_step(planned[i].content, log, at) {
            Step::Done(Ok(_), at) => {
                lemma_write_trees_extends(planned, i + 1, log, other, at);
            },
            _ => {},
        }
    }
}

/// Committing the plans from one on, once finished, is fixed by what it read.
pub proof fn lemma_chain_rest_extends(
    planned: Seq<PlannedExportView>,
    i: int,
    tip: Option<Text>,
    exported: Seq<ExportedCommitView>,
    log: Seq<ReplyView>,
    other: Seq<ReplyView>,
    at: int,
)
    requires
        0 <= at <= log.len(),
    ensures
        within(chain_rest_step(planned, i, tip, exported, log, at), log, at),
        fixed_by_what_it_read(
            chain_rest_step(planned, i, tip, exported, log, at),
            chain_rest_step(planned, i, tip, exported, other, at),
            log,
            other,
        ),
    decreases planned.len() - i,
{
    if i < planned.len() {
        match text_at(log, at) {
            Some(Ok(pub_sha)) => {
                lemma_chain_rest_extends(
                    planned,
                    i + 1,
                    Some(pub_sha),
                    exported.push(ExportedCommitView { mono_sha: planned[i].mono_sha, pub_sha }),
                    log,
                    other,
                    at + 1,
                );
            },
            _ => {},
        }
    }
}

/// Building a chain, once finished, is fixed by what it read.
pub proof fn lemma_build_chain_extends(
    planned: Seq<PlannedExportView>,
    base: Option<Text>,
    log: Seq<ReplyView>,
    other: Seq<ReplyView>,
    at: int,
)
    requires
        0 <= at <= log.len(),
    ensures
        within(build_export_chain_step(planned, base, log, at), log, at),
        fixed_by_what_it_read(
            build_export_chain_step(planned, base, log, at),
            build_export_chain_step(planned, base, other, at),
            log,
            other,
        ),
{
    lemma_write_trees_extends(planned, 0, log, other, at);
    match write_trees_step(planned, 0, log, at) {
        Step::Done(Ok(_), at) => {
            lemma_chain_rest_extends(planned, 0, base, Seq::empty(), log, other, at);
        },
        _ => {},
    }
}

/// Looking at the fork, once finished, is fixed by what it read.
pub proof fn lemma_load_fork_state_extends(
    s: ResolvedSubrepoView,
    offline: bool,
    log: Seq<ReplyView>,
    other: Seq<ReplyView>,
    at: int,
)
    requires
        0 <= at <= log.len(),
    ensures
        within(load_fork_state_step(s, offline, log, at), log, at),
        fixed_by_what_it_read(
            load_fork_state_step(s, offline, log, at),
            load_fork_state_step(s, offline, other, at),
            log,
            other,
        ),
{
}

} // verus!
