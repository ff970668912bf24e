//! What was said before makes no difference.
//!
//! A procedure reads its replies from its own position on, so it comes out the same wherever
//! those replies stand. That is how an offline view and an online one are held together.

use vstd::prelude::*;
use vstd::string::*;
use crate::config::ResolvedSubrepoView;
use crate::filter::{
    hooks_step, kept_entries, name_subtree_step, name_tree_step, tree_hook_step, without_scan,
    TreeContentView,
};
use crate::git::{GitErrorView, TreeEntryView};
use crate::sync_view::{
    anchor_walk_step, claims, exported_map, find_export_anchor_step, origins_anchor_step,
    origins_step, published_view_step, reflects_exactly_step, values_of, view_step,
};
use crate::talk::{
    acted_at, branch_at, commit_at, entries_at, excluded_at, materialized_at, path_at, rehashed_at,
    rev_at, shas_at, trailers_at, ReplyView, Step,
};
use crate::text::Text;

verus! {

/// Are the replies of `other` from `at + by` on those of `log` from `at` on?
pub open spec fn moved(log: Seq<ReplyView>, other: Seq<ReplyView>, at: int, by: int) -> bool {
    &&& 0 <= at
    &&& 0 <= at + by
    &&& other.len() == log.len() + by
    &&& forall|i: int| at <= i < log.len() ==> other[i + by] == #[trigger] log[i]
}

/// Does a procedure come out the same on replies that stand elsewhere, having read on from `at`?
pub open spec fn moves_along<T>(step: Step<T>, on_other: Step<T>, at: int, by: int) -> bool {
    match (step, on_other) {
        (Step::Ask(request), Step::Ask(asked)) => asked == request,
        (Step::Done(value, end), Step::Done(other, then)) => other == value && then == end + by
            && at <= end,
        _ => false,
    }
}

proof fn lemma_name_tree_moves(
    entries: Seq<TreeEntryView>,
    content: TreeContentView,
    log: Seq<ReplyView>,
    other: Seq<ReplyView>,
    at: int,
    by: int,
)
    requires
        moved(log, other, at, by),
    ensures
        moves_along(
            name_tree_step(entries, content, log, at),
            name_tree_step(entries, content, other, at + by),
            at,
            by,
        ),
{
    lemma_reads_move(log, other, at, by, at);
}

/// Every reply reads the same where it stands now.
proof fn lemma_reads_move(
    log: Seq<ReplyView>,
    other: Seq<ReplyView>,
    at: int,
    by: int,
    p: int,
)
    requires
        moved(log, other, at, by),
        at <= p,
    ensures
        p < log.len() ==> other[p + by] == log[p],
        p < log.len() <==> p + by < other.len(),
        moved(log, other, p, by),
{
}

proof fn lemma_tree_hook_moves(
    hook: Text,
    command: Option<Text>,
    dir: Text,
    subrepo: Text,
    mono_sha: Text,
    message_file: Text,
    log: Seq<ReplyView>,
    other: Seq<ReplyView>,
    at: int,
    by: int,
)
    requires
        moved(log, other, at, by),
    ensures
        moves_along(
            tree_hook_step(hook, command, dir, subrepo, mono_sha, message_file, log, at),
            tree_hook_step(hook, command, dir, subrepo, mono_sha, message_file, other, at + by),
            at,
            by,
        ),
{
    lemma_reads_move(log, other, at, by, at);
}

proof fn lemma_hooks_move(
    subrepo: ResolvedSubrepoView,
    kept: Seq<TreeEntryView>,
    mono_sha: Text,
    dir: Text,
    passthrough: Seq<TreeEntryView>,
    message_file: Text,
    log: Seq<ReplyView>,
    other: Seq<ReplyView>,
    at: int,
    by: int,
)
    requires
        moved(log, other, at, by),
    ensures
        moves_along(
            hooks_step(subrepo, kept, mono_sha, dir, passthrough, message_file, log, at),
            hooks_step(subrepo, kept, mono_sha, dir, passthrough, message_file, other, at + by),
            at,
            by,
        ),
{
    lemma_tree_hook_moves(
        "scan"@,
        subrepo.scan,
        dir,
        subrepo.name,
        mono_sha,
        message_file,
        log,
        other,
        at,
        by,
    );
    match tree_hook_step(
        "scan"@,
        subrepo.scan,
        dir,
        subrepo.name,
        mono_sha,
        message_file,
        log,
        at,
    ) {
        Step::Done(Ok(_), at) => {
            let files = TreeContentView::Files { entries: kept };
            lemma_name_tree_moves(kept, files, log, other, at, by);
            lemma_tree_hook_moves(
                "transform"@,
                subrepo.transform,
                dir,
                subrepo.name,
                mono_sha,
                message_file,
                log,
                other,
                at,
                by,
            );
            match tree_hook_step(
                "transform"@,
                subrepo.transform,
                dir,
                subrepo.name,
                mono_sha,
                message_file,
                log,
                at,
            ) {
                Step::Done(Ok(_), at) => {
                    lemma_reads_move(log, other, at, by, at);
                    match rehashed_at(log, at) {
                        Some(Ok(named)) => {
                            lemma_name_tree_moves(
                                passthrough + named,
                                TreeContentView::Directory { dir, passthrough },
                                log,
                                other,
                                at + 1,
                                by,
                            );
                        },
                        _ => {},
                    }
                },
                _ => {},
            }
        },
        _ => {},
    }
}

proof fn lemma_name_subtree_moves(
    mono_commit: Text,
    subrepo: ResolvedSubrepoView,
    log: Seq<ReplyView>,
    other: Seq<ReplyView>,
    at: int,
    by: int,
)
    requires
        moved(log, other, at, by),
    ensures
        moves_along(
            name_subtree_step(mono_commit, subrepo, log, at),
            name_subtree_step(mono_commit, subrepo, other, at + by),
            at,
            by,
        ),
{
    lemma_reads_move(log, other, at, by, at);
    lemma_reads_move(log, other, at, by, at + 1);
    lemma_reads_move(log, other, at, by, at + 2);
    lemma_reads_move(log, other, at, by, at + 3);
    lemma_reads_move(log, other, at, by, at + 4);
    match (entries_at(log, at), excluded_at(log, at + 1)) {
        (Some(Ok(entries)), Some(Ok(excluded))) => {
            let kept = kept_entries(entries, excluded);
            let files = TreeContentView::Files { entries: kept };
            lemma_name_tree_moves(kept, files, log, other, at + 2, by);
            match (commit_at(log, at + 2), materialized_at(log, at + 3), path_at(log, at + 4)) {
                (Some(Ok(meta)), Some(Ok(tree)), Some(Ok(message_file))) => {
                    lemma_hooks_move(
                        subrepo,
                        kept,
                        meta.sha,
                        tree.dir,
                        tree.passthrough,
                        message_file,
                        log,
                        other,
                        at + 5,
                        by,
                    );
                },
                _ => {},
            }
        },
        _ => {},
    }
}

proof fn lemma_reflects_exactly_moves(
    s: ResolvedSubrepoView,
    hooks: bool,
    mono_sha: Text,
    pub_sha: Text,
    log: Seq<ReplyView>,
    other: Seq<ReplyView>,
    at: int,
    by: int,
)
    requires
        moved(log, other, at, by),
    ensures
        moves_along(
            reflects_exactly_step(s, hooks, mono_sha, pub_sha, log, at),
            reflects_exactly_step(s, hooks, mono_sha, pub_sha, other, at + by),
            at,
            by,
        ),
{
    lemma_name_subtree_moves(mono_sha, without_scan(s), log, other, at, by);
    match name_subtree_step(mono_sha, without_scan(s), log, at) {
        Step::Done(_, end) => {
            lemma_reads_move(log, other, at, by, end);
        },
        _ => {},
    }
}

proof fn lemma_origins_anchor_moves(
    s: ResolvedSubrepoView,
    hooks: bool,
    mono_sha: Text,
    origins: Seq<Text>,
    pub_ancestors: Seq<Text>,
    j: int,
    related: bool,
    log: Seq<ReplyView>,
    other: Seq<ReplyView>,
    at: int,
    by: int,
)
    requires
        moved(log, other, at, by),
    ensures
        moves_along(
            origins_anchor_step(s, hooks, mono_sha, origins, pub_ancestors, j, related, log, at),
            origins_anchor_step(
                s,
                hooks,
                mono_sha,
                origins,
                pub_ancestors,
                j,
                related,
                other,
                at + by,
            ),
            at,
            by,
        ),
    decreases origins.len() - j,
{
    if j < origins.len() {
        if pub_ancestors.contains(origins[j]) {
            lemma_reflects_exactly_moves(s, hooks, mono_sha, origins[j], log, other, at, by);
            match reflects_exactly_step(s, hooks, mono_sha, origins[j], log, at) {
                Step::Done(false, next) => {
                    lemma_origins_anchor_moves(
                        s,
                        hooks,
                        mono_sha,
                        origins,
                        pub_ancestors,
                        j + 1,
                        true,
                        log,
                        other,
                        next,
                        by,
                    );
                },
                _ => {},
            }
        } else {
            lemma_origins_anchor_moves(
                s,
                hooks,
                mono_sha,
                origins,
                pub_ancestors,
                j + 1,
                related,
                log,
                other,
                at,
                by,
            );
        }
    }
}

proof fn lemma_anchor_walk_moves(
    s: ResolvedSubrepoView,
    hooks: bool,
    exported: Map<Text, Text>,
    origin_by_mono: Seq<(Text, Seq<Text>)>,
    pub_ancestors: Seq<Text>,
    walk: Seq<Text>,
    i: int,
    related: bool,
    log: Seq<ReplyView>,
    other: Seq<ReplyView>,
    at: int,
    by: int,
)
    requires
        moved(log, other, at, by),
    ensures
        moves_along(
            anchor_walk_step(
                s,
                hooks,
                exported,
                origin_by_mono,
                pub_ancestors,
                walk,
                i,
                related,
                log,
                at,
            ),
            anchor_walk_step(
                s,
                hooks,
                exported,
                origin_by_mono,
                pub_ancestors,
                walk,
                i,
                related,
                other,
                at + by,
            ),
            at,
            by,
        ),
    decreases walk.len() - i,
{
    if i < walk.len() && !exported.contains_key(walk[i]) {
        let origins = values_of(origin_by_mono, walk[i]);
        lemma_origins_anchor_moves(
            s,
            hooks,
            walk[i],
            origins,
            pub_ancestors,
            0,
            related,
            log,
            other,
            at,
            by,
        );
        match origins_anchor_step(s, hooks, walk[i], origins, pub_ancestors, 0, related, log, at) {
            Step::Done((false, now_related), next) => {
                lemma_anchor_walk_moves(
                    s,
                    hooks,
                    exported,
                    origin_by_mono,
                    pub_ancestors,
                    walk,
                    i + 1,
                    now_related,
                    log,
                    other,
                    next,
                    by,
                );
            },
            _ => {},
        }
    }
}

proof fn lemma_published_view_moves(
    s: ResolvedSubrepoView,
    hooks: bool,
    pub_head: Text,
    origins: Seq<(Text, Seq<Text>)>,
    log: Seq<ReplyView>,
    other: Seq<ReplyView>,
    at: int,
    by: int,
)
    requires
        moved(log, other, at, by),
    ensures
        moves_along(
            published_view_step(s, hooks, pub_head, origins, log, at),
            published_view_step(s, hooks, pub_head, origins, other, at + by),
            at,
            by,
        ),
{
    lemma_reads_move(log, other, at, by, at);
    lemma_reads_move(log, other, at, by, at + 1);
    lemma_reads_move(log, other, at, by, at + 2);
    lemma_reads_move(log, other, at, by, at + 3);
    match (trailers_at(log, at), shas_at(log, at + 1), shas_at(log, at + 2)) {
        (Some(Ok(source)), Some(Ok(walk)), Some(Ok(_))) => {
            let exported = exported_map(claims(walk, source));
            if let Some(Ok(mono_walk)) = shas_at(log, at + 3) {
                lemma_anchor_walk_moves(
                    s,
                    hooks,
                    exported,
                    origins,
                    walk,
                    mono_walk,
                    0,
                    !exported.is_empty(),
                    log,
                    other,
                    at + 4,
                    by,
                );
            }
            match find_export_anchor_step(s, hooks, exported, origins, walk, log, at + 3) {
                Step::Done(Ok(_), end) => {
                    lemma_reads_move(log, other, at, by, end);
                    lemma_reads_move(log, other, at, by, end + 1);
                },
                _ => {},
            }
        },
        _ => {},
    }
}

/// Offline trusts the mirror: where the mirrored branch is at the head that the source would
/// name, an offline view asks and comes out as an online one does, once that one has fetched.
/// `log` is what the online derivation was told, `mirrored` is the same without the fetch and
/// with the mirror's head in place of the source's, and `fetch` is where the fetch stands.
pub proof fn law_an_up_to_date_mirror_gives_the_same_view(
    s: ResolvedSubrepoView,
    hooks: bool,
    head: Text,
    log: Seq<ReplyView>,
    mirrored: Seq<ReplyView>,
    at: int,
    fetch: int,
)
    requires
        0 <= at,
        branch_at(log, at) == Some(Ok::<Option<Text>, GitErrorView>(Some(head))),
        rev_at(mirrored, at) == Some(Some(head)),
        origins_step(log, at + 1) matches Step::Done(Ok(_), end) && end == fetch,
        acted_at(log, fetch) == Some(Ok::<(), GitErrorView>(())),
        mirrored.len() == log.len() - 1,
        forall|i: int| at < i < fetch ==> mirrored[i] == #[trigger] log[i],
        forall|i: int| fetch < i < log.len() ==> mirrored[i - 1] == #[trigger] log[i],
    ensures
        match (view_step(s, hooks, false, log, at), view_step(s, hooks, true, mirrored, at)) {
            (Step::Ask(request), Step::Ask(asked)) => asked == request,
            (Step::Done(online, end), Step::Done(offline, then)) => offline == online && then == end
                - 1,
            _ => false,
        },
{
    assert(mirrored[at + 1] == log[at + 1]);
    if fetch == at + 3 {
        assert(mirrored[at + 2] == log[at + 2]);
    }
    assert(moved(log, mirrored, fetch + 1, -1));
    match origins_step(log, at + 1) {
        Step::Done(Ok(origins), _) => {
            assert(origins_step(mirrored, at + 1) == origins_step(log, at + 1));
            lemma_published_view_moves(s, hooks, head, origins, log, mirrored, fetch + 1, -1);
        },
        _ => {},
    }
}

} // verus!
