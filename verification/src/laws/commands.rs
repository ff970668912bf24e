//! What the commands come to, reply by reply.

use vstd::prelude::*;
use vstd::string::*;
use crate::config::ResolvedSubrepoView;
use crate::exporter::{
    publish_baseline_step, publish_full_history_step, recover_export_anchor_step, run_export_step,
    broken_mapping_text, rewritten_text, export_base_rewritten_step, plan_export_step,
    ExportCandidateView,
};
use crate::filter::has_committed_files_step;
use crate::index::lookup;
use crate::laws::operations::{asks, listed_shas, refuses};
use crate::ops::{
    export_view_step, first_publish_step, import_subrepo_step, load_view_step, lower_char,
    lower_text, no_commits_text, no_upstream_branch_text, not_published_text, nothing_exists_text,
    nothing_left_text, pending_step, plan_pull_dry_run_step, plan_push_dry_run_step,
    preview_view_step, publish_failure_text, push_candidates_step, recover_anchor_step,
    related_view_step, require_published_step, says_yes, view_failure_text, DryRunPlanView,
    not_imported_text, no_terminal_text, first_publish_question, cancelled_text,
    ConfirmFirstPublishOptionsView, confirm_first_publish_step, export_subrepo_step, unrelated_text,
};
use crate::report::SubrepoFailureView;
use crate::sync_view::{load_sync_view_step, preview_sync_view_step, SyncViewValue};
use crate::talk::{
    confirmed_at, imported_at, noted_at, refusal_at, rev_at, shas_at, subjects_at, ReplyView,
    RequestView, Step, flag_at, answer_at,
};
use crate::text::{is_white, trim_end_text, trim_start_text, Text};

verus! {

/// A pull imports exactly what is left to import, of its own subrepo, once nothing stands against
/// it in the work tree, and counts what was imported. `view` is what it derived, and `p` is where
/// the branch was found to be published and related.
pub proof fn law_a_pull_imports_what_is_left(
    subrepo: ResolvedSubrepoView,
    continue_command: Option<Text>,
    view: SyncViewValue,
    log: Seq<ReplyView>,
    at: int,
    viewed: int,
    p: int,
)
    requires
        load_view_step(subrepo, false, log, at) == Step::<
            Result<SyncViewValue, SubrepoFailureView>,
        >::Done(Ok(view), viewed),
        related_view_step(subrepo, view, "Nothing was imported."@, log, viewed) == Step::<
            Result<(), SubrepoFailureView>,
        >::Done(Ok(()), p),
    ensures
        ({
            let pull = import_subrepo_step(subrepo, continue_command, log, at);
            match (refusal_at(log, p), imported_at(log, p + 1)) {
                (None, _) => asks(
                    pull,
                    RequestView::CheckImport {
                        target: subrepo,
                        retry: "monosplice pull "@ + subrepo.name,
                    },
                ),
                (Some(Some(problem)), _) => refuses(
                    pull,
                    SubrepoFailureView { message: problem, halt: false },
                ),
                (Some(None), None) => asks(
                    pull,
                    RequestView::RunImport { target: subrepo, shas: view.unreflected_pub },
                ),
                (Some(None), Some(Ok(imported))) => pull matches Step::Done(Ok(count), _) && count
                    == imported.len() as usize,
                (Some(None), Some(Err(err))) => pull matches Step::Done(Err(failure), _) && (
                failure.halt <==> err is Conflict),
            }
        }),
{
}

/// Which refusal a subrepo without a public branch gets: with an upstream the missing branch of
/// the upstream, whatever is here; otherwise that nothing exists, or, where HEAD has files below
/// the path, that nothing is published. With a public branch there is none.
pub proof fn law_what_is_missing_is_said(
    subrepo: ResolvedSubrepoView,
    pub_head: Option<Text>,
    log: Seq<ReplyView>,
    at: int,
)
    ensures
        ({
            let step = require_published_step(subrepo, pub_head, log, at);
            if pub_head is Some {
                step matches Step::Done(Ok(_), end) && end == at
            } else if subrepo.upstream is Some {
                refuses(step, SubrepoFailureView::of(no_upstream_branch_text(subrepo)))
            } else {
                match rev_at(log, at) {
                    None => asks(step, RequestView::RevParse { rev: "HEAD"@ }),
                    Some(None) => refuses(
                        step,
                        SubrepoFailureView::of(nothing_exists_text(subrepo)),
                    ),
                    Some(Some(head)) => match has_committed_files_step(
                        head,
                        subrepo,
                        log,
                        at + 1,
                    ) {
                        Step::Ask(request) => asks(step, request),
                        Step::Done(false, _) => refuses(
                            step,
                            SubrepoFailureView::of(nothing_exists_text(subrepo)),
                        ),
                        Step::Done(true, _) => refuses(
                            step,
                            SubrepoFailureView::of(not_published_text(subrepo)),
                        ),
                    },
                }
            }
        }),
{
}

/// A view that cannot be derived for a command fails it, in words; a view that can is handed on.
pub proof fn law_a_view_is_handed_on(
    subrepo: ResolvedSubrepoView,
    offline: bool,
    log: Seq<ReplyView>,
    at: int,
)
    ensures
        match load_sync_view_step(subrepo, offline, log, at) {
            Step::Ask(request) => asks(load_view_step(subrepo, offline, log, at), request),
            Step::Done(Ok(view), end) => load_view_step(subrepo, offline, log, at) == Step::<
                Result<SyncViewValue, SubrepoFailureView>,
            >::Done(Ok(view), end),
            Step::Done(Err(err), _) => refuses(
                load_view_step(subrepo, offline, log, at),
                SubrepoFailureView { message: view_failure_text(subrepo, err), halt: false },
            ),
        },
        match preview_sync_view_step(subrepo, log, at) {
            Step::Ask(request) => asks(preview_view_step(subrepo, log, at), request),
            Step::Done(Ok(view), end) => preview_view_step(subrepo, log, at) == Step::<
                Result<SyncViewValue, SubrepoFailureView>,
            >::Done(Ok(view), end),
            Step::Done(Err(err), _) => refuses(
                preview_view_step(subrepo, log, at),
                SubrepoFailureView { message: view_failure_text(subrepo, err), halt: false },
            ),
        },
{
}

/// An unrelated branch is refused, with what did not happen for it: a pull imported nothing, and a
/// push wrote nothing to the remote. A preview of either says the same.
pub proof fn law_an_unrelated_branch_is_refused(
    subrepo: ResolvedSubrepoView,
    view: SyncViewValue,
    continue_command: Option<Text>,
    log: Seq<ReplyView>,
    at: int,
    p: int,
)
    requires
        view.pub_head is Some,
        !view.related,
    ensures
        refuses(
            export_view_step(subrepo, view, log, at),
            SubrepoFailureView {
                message: unrelated_text(
                    subrepo,
                    "Nothing was pushed to "@ + subrepo.remote + "."@,
                ),
                halt: false,
            },
        ),
        load_view_step(subrepo, false, log, at) == Step::<
            Result<SyncViewValue, SubrepoFailureView>,
        >::Done(Ok(view), p) ==> refuses(
            import_subrepo_step(subrepo, continue_command, log, at),
            SubrepoFailureView {
                message: unrelated_text(subrepo, "Nothing was imported."@),
                halt: false,
            },
        ),
        preview_view_step(subrepo, log, at) == Step::<
            Result<SyncViewValue, SubrepoFailureView>,
        >::Done(Ok(view), p) ==> refuses(
            plan_pull_dry_run_step(subrepo, log, at),
            SubrepoFailureView {
                message: unrelated_text(subrepo, "Nothing was imported."@),
                halt: false,
            },
        ),
{
}

/// A push goes by the view that it was handed, and derives one only where it was handed none.
pub proof fn law_a_push_goes_by_the_view_it_was_handed(
    subrepo: ResolvedSubrepoView,
    view: SyncViewValue,
    log: Seq<ReplyView>,
    at: int,
    p: int,
)
    ensures
        export_subrepo_step(subrepo, Some(view), log, at) == export_view_step(
            subrepo,
            view,
            log,
            at,
        ),
        load_view_step(subrepo, false, log, at) == Step::<
            Result<SyncViewValue, SubrepoFailureView>,
        >::Done(Ok(view), p) ==> export_subrepo_step(subrepo, None, log, at) == export_view_step(
            subrepo,
            view,
            log,
            p,
        ),
        load_view_step(subrepo, false, log, at) matches Step::Done(Err(failure), _) ==> refuses(
            export_subrepo_step(subrepo, None, log, at),
            failure,
        ) && refuses(import_subrepo_step(subrepo, None, log, at), failure),
        load_view_step(subrepo, false, log, at) matches Step::Ask(request) ==> asks(
            export_subrepo_step(subrepo, None, log, at),
            request,
        ) && asks(import_subrepo_step(subrepo, None, log, at), request),
{
}

/// A recovered anchor is told about, once, and only then is it worked with.
pub proof fn law_a_recovery_is_told(
    subrepo: ResolvedSubrepoView,
    view: SyncViewValue,
    log: Seq<ReplyView>,
    at: int,
)
    ensures
        match recover_export_anchor_step(subrepo, view, log, at) {
            Step::Ask(request) => asks(recover_anchor_step(subrepo, view, log, at), request),
            Step::Done((Err(err), _), _) => refuses(
                recover_anchor_step(subrepo, view, log, at),
                SubrepoFailureView { message: err.text(), halt: false },
            ),
            Step::Done((Ok(None), after), end) => recover_anchor_step(subrepo, view, log, at)
                == Step::<Result<SyncViewValue, SubrepoFailureView>>::Done(Ok(after), end),
            Step::Done((Ok(Some(recovery)), after), end) => if noted_at(log, end) {
                recover_anchor_step(subrepo, view, log, at) == Step::<
                    Result<SyncViewValue, SubrepoFailureView>,
                >::Done(Ok(after), end + 1)
            } else {
                asks(
                    recover_anchor_step(subrepo, view, log, at),
                    RequestView::Warn { message: recovery.message(subrepo.name) },
                )
            },
        },
{
}

/// What stops a push, in this order: a recovery that fails, a broken mapping, an anchor that is
/// still rewritten, and commits that are left to import, which are counted. Whatever follows goes
/// by the view that the recovery left.
pub proof fn law_a_push_goes_by_the_recovered_view(
    subrepo: ResolvedSubrepoView,
    view: SyncViewValue,
    log: Seq<ReplyView>,
    at: int,
)
    ensures
        ({
            let step = push_candidates_step(subrepo, view, log, at);
            match recover_anchor_step(subrepo, view, log, at) {
                Step::Ask(request) => asks(step, request),
                Step::Done(Err(failure), _) => refuses(step, failure),
                Step::Done(Ok(after), p) => if after.broken_source_refs.len() > 0 {
                    refuses(
                        step,
                        SubrepoFailureView {
                            message: broken_mapping_text(
                                subrepo,
                                after.broken_source_refs[0].pub_sha,
                                after.broken_source_refs[0].mono_sha,
                            ),
                            halt: false,
                        },
                    )
                } else {
                    match export_base_rewritten_step(after.last_exported_mono, log, p) {
                        Step::Ask(request) => asks(step, request),
                        Step::Done(true, _) => refuses(
                            step,
                            SubrepoFailureView {
                                message: rewritten_text(subrepo, after.last_exported_mono),
                                halt: false,
                            },
                        ),
                        Step::Done(false, q) => if after.unreflected_pub.len() > 0 {
                            refuses(
                                step,
                                SubrepoFailureView {
                                    message: not_imported_text(
                                        subrepo,
                                        after.unreflected_pub.len(),
                                    ),
                                    halt: false,
                                },
                            )
                        } else {
                            match plan_export_step(subrepo, after, log, q) {
                                Step::Ask(request) => asks(step, request),
                                Step::Done(Err(err), _) => refuses(
                                    step,
                                    SubrepoFailureView { message: err.text(), halt: false },
                                ),
                                Step::Done(Ok(candidates), end) => step == Step::<
                                    Result<
                                        (SyncViewValue, Seq<ExportCandidateView>),
                                        SubrepoFailureView,
                                    >,
                                >::Done(Ok((after, candidates)), end),
                            }
                        },
                    }
                },
            }
        }),
{
}

/// A push counts what its export wrote: what was written as pushed, and what the fork had
/// already as awaiting.
pub proof fn law_a_push_counts_what_was_written(
    subrepo: ResolvedSubrepoView,
    view: SyncViewValue,
    log: Seq<ReplyView>,
    at: int,
)
    ensures
        export_view_step(subrepo, view, log, at) matches Step::Done(Ok(summary), end) ==> {
            &&& related_view_step(
                subrepo,
                view,
                "Nothing was pushed to "@ + subrepo.remote + "."@,
                log,
                at,
            ) matches Step::Done(Ok(_), p)
            &&& push_candidates_step(subrepo, view, log, p) matches Step::Done(
                Ok((after, candidates)),
                q,
            )
            &&& run_export_step(
                subrepo,
                after.pub_head,
                after.tracking_ref,
                candidates,
                log,
                q,
            ) matches Step::Done(Ok(result), last)
            &&& last == end
            &&& if result.pushed {
                summary.pushed == result.exported.len() as usize && summary.awaiting == 0
            } else {
                summary.pushed == 0 && summary.awaiting == result.exported.len() as usize
            }
        },
{
}

// --- previews ---

/// A preview shows each commit with its own subject, and with none where git gave none.
pub proof fn law_each_commit_is_shown_with_its_subject(
    shas: Seq<Text>,
    log: Seq<ReplyView>,
    at: int,
    i: int,
)
    ensures
        match subjects_at(log, at) {
            None => pending_step(shas, log, at) matches Step::Ask(
                RequestView::CommitSubjects { shas: asked },
            ) && asked == shas,
            Some(Err(_)) => pending_step(shas, log, at) matches Step::Done(Err(failure), _)
                && !failure.halt,
            Some(Ok(subjects)) => pending_step(shas, log, at) matches Step::Done(Ok(commits), _)
                && commits.len() == shas.len() && (0 <= i < shas.len() ==> commits[i].sha == shas[i]
                && match lookup(subjects, shas[i]) {
                Some(subject) => commits[i].subject == subject,
                None => commits[i].subject.len() == 0,
            }),
        },
{
    reveal_strlit("");
}

/// A preview of a pull lists what the pull would import: everything that is left, oldest first.
pub proof fn law_a_pull_preview_lists_what_is_left(
    subrepo: ResolvedSubrepoView,
    log: Seq<ReplyView>,
    at: int,
)
    ensures
        plan_pull_dry_run_step(subrepo, log, at) matches Step::Done(Ok(plan), _) ==> {
            &&& preview_view_step(subrepo, log, at) matches Step::Done(Ok(view), _)
            &&& view.pub_head is Some
            &&& view.related
            &&& plan matches DryRunPlanView::Import { commits }
            &&& listed_shas(commits) == view.unreflected_pub
        },
        plan_pull_dry_run_step(subrepo, log, at) matches Step::Ask(
            RequestView::CommitSubjects { shas },
        ) ==> (preview_view_step(subrepo, log, at) matches Step::Done(Ok(view), _) ==> shas
            == view.unreflected_pub),
{
    match plan_pull_dry_run_step(subrepo, log, at) {
        Step::Done(Ok(DryRunPlanView::Import { commits }), _) => match preview_view_step(
            subrepo,
            log,
            at,
        ) {
            Step::Done(Ok(view), _) => {
                assert(listed_shas(commits) =~= view.unreflected_pub);
            },
            _ => {},
        },
        _ => {},
    }
}

/// A preview of a first publish says what that publish would do. It refuses where the upstream
/// has no branch, or nothing is committed below the path; as a baseline it lists no commit; and
/// with the history it lists every commit up to HEAD that touches the path, oldest first.
pub proof fn law_a_first_publish_preview_lists_the_history(
    subrepo: ResolvedSubrepoView,
    export_history: bool,
    view: SyncViewValue,
    log: Seq<ReplyView>,
    at: int,
    p: int,
)
    requires
        preview_view_step(subrepo, log, at) == Step::<
            Result<SyncViewValue, SubrepoFailureView>,
        >::Done(Ok(view), p),
        view.pub_head is None,
    ensures
        ({
            let plan = plan_push_dry_run_step(subrepo, export_history, log, at);
            if subrepo.upstream is Some {
                refuses(plan, SubrepoFailureView::of(no_upstream_branch_text(subrepo)))
            } else {
                match rev_at(log, p) {
                    None => asks(plan, RequestView::RevParse { rev: "HEAD"@ }),
                    Some(None) => refuses(
                        plan,
                        SubrepoFailureView::of(nothing_exists_text(subrepo)),
                    ),
                    Some(Some(head)) => match has_committed_files_step(head, subrepo, log, p + 1) {
                        Step::Ask(request) => asks(plan, request),
                        Step::Done(false, _) => refuses(
                            plan,
                            SubrepoFailureView::of(nothing_exists_text(subrepo)),
                        ),
                        Step::Done(true, q) => if !export_history {
                            plan matches Step::Done(
                                Ok(DryRunPlanView::FirstPublish { export_history: with, commits }),
                                _,
                            ) && !with && commits.len() == 0
                        } else {
                            match shas_at(log, q) {
                                None => asks(
                                    plan,
                                    RequestView::RevList {
                                        args: seq![
                                            "--reverse"@,
                                            "--topo-order"@,
                                            head,
                                            "--"@,
                                            subrepo.path,
                                        ],
                                    },
                                ),
                                Some(Err(_)) => plan matches Step::Done(Err(_), _),
                                Some(Ok(shas)) => plan matches Step::Done(Ok(plan), _) ==> (
                                plan matches DryRunPlanView::FirstPublish {
                                    export_history: with,
                                    commits,
                                } && with && listed_shas(commits) == shas),
                            }
                        },
                    },
                }
            }
        }),
{
    match plan_push_dry_run_step(subrepo, export_history, log, at) {
        Step::Done(Ok(DryRunPlanView::FirstPublish { export_history: _, commits }), _) => {
            if let Some(Some(head)) = rev_at(log, p) {
                if let Step::Done(true, q) = has_committed_files_step(head, subrepo, log, p + 1) {
                    if let Some(Ok(shas)) = shas_at(log, q) {
                        if export_history {
                            assert(listed_shas(commits) =~= shas);
                        }
                    }
                }
            }
        },
        _ => {},
    }
}

// --- first publishes ---

/// What a first publish comes to. Without a commit, or with nothing committed below the path, it
/// is refused before anything is asked of anyone. Once confirmed it publishes HEAD, as one commit
/// or with its history as told, counts the commits that it published, and is refused where the
/// excludes left nothing.
pub proof fn law_a_first_publish_publishes_head(
    root: Text,
    subrepo: ResolvedSubrepoView,
    export_history: bool,
    log: Seq<ReplyView>,
    at: int,
)
    ensures
        ({
            let step = first_publish_step(root, subrepo, export_history, log, at);
            match rev_at(log, at) {
                None => asks(step, RequestView::RevParse { rev: "HEAD"@ }),
                Some(None) => refuses(
                    step,
                    SubrepoFailureView::of(no_commits_text(root, subrepo)),
                ),
                Some(Some(head)) => match has_committed_files_step(head, subrepo, log, at + 1) {
                    Step::Ask(request) => asks(step, request),
                    Step::Done(false, _) => refuses(
                        step,
                        SubrepoFailureView::of(nothing_exists_text(subrepo)),
                    ),
                    Step::Done(true, p) => match confirmed_at(log, p) {
                        None => asks(step, RequestView::Confirm),
                        Some(Err(failure)) => refuses(step, failure),
                        Some(Ok(_)) => if export_history {
                            match publish_full_history_step(subrepo, head, log, p + 1) {
                                Step::Ask(request) => asks(step, request),
                                Step::Done(Err(err), _) => refuses(
                                    step,
                                    SubrepoFailureView::of(publish_failure_text(subrepo, err)),
                                ),
                                Step::Done(Ok(result), _) => if result.exported.len() == 0 {
                                    refuses(
                                        step,
                                        SubrepoFailureView::of(nothing_left_text(subrepo)),
                                    )
                                } else {
                                    step matches Step::Done(Ok(published), _) && published.commits
                                        == result.exported.len() as usize
                                        && published.export_history
                                },
                            }
                        } else {
                            match publish_baseline_step(subrepo, head, log, p + 1) {
                                Step::Ask(request) => asks(step, request),
                                Step::Done(Err(err), _) => refuses(
                                    step,
                                    SubrepoFailureView::of(publish_failure_text(subrepo, err)),
                                ),
                                Step::Done(Ok(None), _) => refuses(
                                    step,
                                    SubrepoFailureView::of(nothing_left_text(subrepo)),
                                ),
                                Step::Done(Ok(Some(_)), _) => step matches Step::Done(
                                    Ok(published),
                                    _,
                                ) && published.commits == 1 && !published.export_history,
                            }
                        },
                    },
                },
            }
        }),
{
}

/// A first publish is confirmed at a terminal or by `--yes`: off a terminal it is refused, with the
/// state that it was told; at one the question about this very subrepo is put; and whatever is not
/// a yes cancels it, with the note that it was given.
pub proof fn law_a_first_publish_is_confirmed(
    subrepo: ResolvedSubrepoView,
    opts: ConfirmFirstPublishOptionsView,
    log: Seq<ReplyView>,
    at: int,
)
    ensures
        ({
            let step = confirm_first_publish_step(subrepo, opts, log, at);
            if opts.yes {
                step matches Step::Done(Ok(_), end) && end == at
            } else {
                match (flag_at(log, at), answer_at(log, at + 1)) {
                    (None, _) => step matches Step::Ask(request) && request is IsTerminal,
                    (Some(false), _) => refuses(
                        step,
                        SubrepoFailureView {
                            message: no_terminal_text(subrepo, opts.state_note),
                            halt: false,
                        },
                    ),
                    (Some(true), None) => asks(
                        step,
                        RequestView::Prompt { question: first_publish_question(subrepo) },
                    ),
                    (Some(true), Some(answer)) => if says_yes(answer) {
                        step matches Step::Done(Ok(_), _)
                    } else {
                        refuses(
                            step,
                            SubrepoFailureView {
                                message: cancelled_text(subrepo, opts.cancel_note),
                                halt: false,
                            },
                        )
                    },
                }
            }
        }),
{
}

/// Is every character of the text whitespace?
pub open spec fn blank(t: Text) -> bool {
    forall|i: int| 0 <= i < t.len() ==> is_white(#[trigger] t[i])
}

proof fn lemma_trim_end(word: Text, after: Text)
    requires
        blank(after),
        word.len() > 0 ==> !is_white(word.last()),
    ensures
        trim_end_text(word + after) == word,
    decreases after.len(),
{
    if after.len() == 0 {
        assert(word + after =~= word);
    } else {
        let rest = after.drop_last();
        assert(after[after.len() - 1] == after.last());
        assert forall|i: int| 0 <= i < rest.len() implies is_white(#[trigger] rest[i]) by {
            assert(after[i] == rest[i]);
        }
        assert((word + after).drop_last() =~= word + rest);
        lemma_trim_end(word, rest);
    }
}

proof fn lemma_trim_start(before: Text, word: Text)
    requires
        blank(before),
        word.len() > 0 ==> !is_white(word[0]),
    ensures
        trim_start_text(before + word) == word,
    decreases before.len(),
{
    if before.len() == 0 {
        assert(before + word =~= word);
    } else {
        let rest = before.drop_first();
        assert forall|i: int| 0 <= i < rest.len() implies is_white(#[trigger] rest[i]) by {
            assert(before[i + 1] == rest[i]);
        }
        assert((before + word).drop_first() =~= rest + word);
        lemma_trim_start(rest, word);
    }
}

/// Only a yes is a yes: one of the letters y and Y, or the word yes in whatever case, with nothing
/// but whitespace around it.
pub proof fn law_only_a_yes_is_a_yes(before: Text, word: Text, after: Text)
    requires
        blank(before),
        blank(after),
        word.len() > 0,
        !is_white(word[0]),
        !is_white(word.last()),
    ensures
        says_yes(before + word + after) <==> (word.len() == 1 || word.len() == 3) && (word[0] == 'y'
            || word[0] == 'Y') && (word.len() == 3 ==> (word[1] == 'e' || word[1] == 'E') && (
        word[2] == 's' || word[2] == 'S')),
{
    let all = before + word + after;
    assert((before + word).last() == word.last());
    lemma_trim_end(before + word, after);
    lemma_trim_start(before, word);
    reveal_strlit("y");
    reveal_strlit("yes");
    let low = lower_text(word);
    assert(low.len() == word.len());
    assert forall|i: int| 0 <= i < word.len() implies #[trigger] low[i] == lower_char(
        word[i],
    ) by {}
    if low == "y"@ {
        assert(low[0] == 'y');
    }
    if low == "yes"@ {
        assert(low[0] == 'y');
        assert(low[1] == 'e');
        assert(low[2] == 's');
    }
    if word.len() == 1 && (word[0] == 'y' || word[0] == 'Y') {
        assert(low =~= "y"@);
    }
    if word.len() == 3 && (word[0] == 'y' || word[0] == 'Y') && (word[1] == 'e' || word[1] == 'E')
        && (word[2] == 's' || word[2] == 'S') {
        assert(low =~= "yes"@);
    }
}

} // verus!
