//! What a doctor reports, reply by reply: every field of a row, every problem and every note.

use vstd::prelude::*;
use vstd::string::*;
use crate::laws::vocabulary::{mirror_ref, law_a_view_names_its_mirror};
use crate::laws::doctor::law_every_orphan_is_a_problem_or_settled;
use crate::index::distinct;
use crate::list::lemma_filter_contains;
use crate::laws::wording::{mentions, lemma_mentions};
use crate::config::ResolvedSubrepoView;
use crate::doctor::{
    below_all_step, blank_section, broken_section, carries, check_anchor_step, check_fork_step,
    check_published_step, check_subrepo_step, examine_origins_step, last_exported_section,
    oldest_anchor_step, oldest_rest_step, origin_findings, orphans, report_counts_step,
    report_rewritten_anchor_step, run_step, seeded_section, settle_rest_step, settled_step,
    superseded_section, survey_rest_step, verify_mapping_step, DoctorArgsView, DoctorSubrepoView,
    SectionView, SurveyView, CheckedView, pull_in_progress_step, orphan_finding, is_fossil,
    origin_fossils, verdicts_by, PullInProgressView, OriginFindingsView, finish, examine_step,
    DoctorRunView,
};
use crate::exporter::{
    compute_exports_step, export_base_rewritten_step, find_anchor_recovery_step, plan_export_step,
};
use crate::filter::name_subtree_step;
use crate::report::FailureView;
use crate::sync_view::{load_fork_state_step, load_sync_view_step, SourceRefView, SyncViewValue};
use crate::talk::{
    flag_at, path_at, selected_at, sequencer_at, shas_at, text_at, ReplyView, RequestView, Step,
    project_at,
};
use crate::text::{decimal_text, Text, sorted_texts, lemma_in_order};

verus! {

/// Is the second row the first one, but for what a doctor goes on to find?
pub open spec fn same_but_for_findings(row: DoctorSubrepoView, after: DoctorSubrepoView) -> bool {
    after == (DoctorSubrepoView { problems: after.problems, notes: after.notes, ..row })
}

/// Does a section only grow? The lines that it has stay, and so do its problems and its notes.
pub open spec fn grows(section: SectionView, after: SectionView) -> bool {
    &&& same_but_for_findings(section.row, after.row)
    &&& section.lines.len() <= after.lines.len()
    &&& forall|i: int|
        0 <= i < section.lines.len() ==> after.lines[i] == #[trigger] section.lines[i]
    &&& section.row.problems.len() <= after.row.problems.len()
    &&& forall|i: int|
        0 <= i < section.row.problems.len() ==> after.row.problems[i]
            == #[trigger] section.row.problems[i]
    &&& section.row.notes.len() <= after.row.notes.len()
}

proof fn lemma_broken_section(section: SectionView, broken: Seq<SourceRefView>)
    ensures
        grows(section, broken_section(section, broken)),
        broken_section(section, broken).row.problems.len() == section.row.problems.len()
            + broken.len(),
        broken_section(section, broken).row.notes == section.row.notes,
        forall|k: int|
            0 <= k < broken.len() ==> broken_section(
                section,
                broken,
            ).row.problems[section.row.problems.len()
                + k] == "standalone commit "@ + (#[trigger] broken[k]).pub_sha + " carries "@
                + "Monosplice-Source"@ + ": "@ + broken[k].mono_sha
                + ", but that monorepo commit does not exist in this clone."@,
    decreases broken.len(),
{
    if broken.len() > 0 {
        let before = broken.drop_last();
        lemma_broken_section(section, before);
        assert forall|k: int| 0 <= k < broken.len() implies broken_section(
            section,
            broken,
        ).row.problems[section.row.problems.len() + k] == "standalone commit "@ + (
        #[trigger] broken[k]).pub_sha + " carries "@ + "Monosplice-Source"@ + ": "@
            + broken[k].mono_sha + ", but that monorepo commit does not exist in this clone."@ by {
            if k < before.len() {
                assert(before[k] == broken[k]);
            }
        }
    }
}

/// Every broken reference is a problem that names it: the public commit and the monorepo commit
/// that it claims, in the order in which they were found.
pub proof fn law_each_broken_reference_is_named(
    section: SectionView,
    broken: Seq<SourceRefView>,
    k: int,
)
    requires
        0 <= k < broken.len(),
    ensures
        ({
            let after = broken_section(section, broken);
            let n = section.row.problems.len() + k;
            &&& n < after.row.problems.len()
            &&& mentions(after.row.problems[n], "standalone commit "@ + broken[k].pub_sha)
            &&& mentions(
                after.row.problems[n],
                "Monosplice-Source"@ + ": "@ + broken[k].mono_sha,
            )
        }),
{
    lemma_broken_section(section, broken);
    let text = broken_section(section, broken).row.problems[section.row.problems.len() + k];
    let head = "standalone commit "@ + broken[k].pub_sha;
    let claim = "Monosplice-Source"@ + ": "@ + broken[k].mono_sha;
    let end = ", but that monorepo commit does not exist in this clone."@;
    let _ = broken[k];
    lemma_mentions(text, Seq::empty(), head, " carries "@ + claim + end);
    lemma_mentions(text, head + " carries "@, claim, end);
}

/// Where the fork of a subrepo has been looked at.
pub open spec fn after_fork(
    subrepo: ResolvedSubrepoView,
    log: Seq<ReplyView>,
    at: int,
) -> int {
    if subrepo.upstream is None {
        at
    } else {
        match load_fork_state_step(subrepo, false, log, at) {
            Step::Done(_, end) => end,
            _ => at,
        }
    }
}

/// What is counted as left to push: the commits of the plan; where no plan can be made, the
/// candidates.
pub open spec fn left_to_push(
    subrepo: ResolvedSubrepoView,
    view: SyncViewValue,
    log: Seq<ReplyView>,
    at: int,
) -> nat {
    match plan_export_step(subrepo, view, log, at) {
        Step::Done(Ok(candidates), p) => match compute_exports_step(
            subrepo,
            view.pub_head,
            candidates,
            log,
            p,
        ) {
            Step::Done(Ok(planned), _) => planned.len(),
            _ => candidates.len(),
        },
        _ => 0,
    }
}

/// What a row says of a subrepo: what is configured, and nothing else.
pub open spec fn is_row_of(row: DoctorSubrepoView, subrepo: ResolvedSubrepoView) -> bool {
    &&& row.name == subrepo.name
    &&& row.path == subrepo.path
    &&& row.remote == subrepo.remote
    &&& row.branch == subrepo.branch
    &&& row.upstream == subrepo.upstream
    &&& row.push_branch == if subrepo.upstream is Some {
        Some(subrepo.push_branch)
    } else {
        None
    }
}

/// A row says what is so. What is configured stands in it as it is. A source that cannot be
/// reached, and a branch that is not published, is one problem, and nothing is counted. Otherwise
/// the heads are those that were found, the last export is the view's, what is left to pull is
/// what the view has not seen, what is left to push is what an export would write, and the line
/// that counts them shows these two numbers.
pub proof fn law_a_row_says_what_is_so(subrepo: ResolvedSubrepoView, log: Seq<ReplyView>, at: int)
    ensures
        check_subrepo_step(subrepo, log, at) matches Step::Done(Ok((section, checked)), _) ==> {
            let row = section.row;
            &&& is_row_of(row, subrepo)
            &&& match load_sync_view_step(subrepo, false, log, at) {
                Step::Ask(_) => false,
                Step::Done(Err(_), _) => {
                    &&& !row.reachable && !row.seeded && row.pub_head is None && row.fork_head
                        is None
                    &&& row.last_exported_mono is None && row.last_exported_pub is None
                    &&& row.ahead is None && row.behind is None
                    &&& row.problems.len() == 1 && row.notes.len() == 0
                    &&& checked is None
                },
                Step::Done(Ok(view), viewed) => match view.pub_head {
                    None => {
                        &&& row.reachable && !row.seeded && row.pub_head is None && row.fork_head
                            is None
                        &&& row.last_exported_mono is None && row.last_exported_pub is None
                        &&& row.ahead is None && row.behind is None
                        &&& row.problems.len() == 1 && row.notes.len() == 0
                        &&& checked is None
                    },
                    Some(head) => {
                        let p = after_fork(subrepo, log, viewed);
                        let ahead = left_to_push(subrepo, view, log, p);
                        &&& row.reachable && row.seeded
                        &&& row.pub_head == Some(head)
                        &&& row.fork_head == if subrepo.upstream is None {
                            None
                        } else {
                            match load_fork_state_step(subrepo, false, log, viewed) {
                                Step::Done(Ok(state), _) => state.head,
                                _ => None,
                            }
                        }
                        &&& row.last_exported_mono == view.last_exported_mono
                        &&& row.last_exported_pub == match view.last_exported_mono {
                            Some(last) => if view.exported_mono_to_pub.contains_key(last) {
                                Some(view.exported_mono_to_pub[last])
                            } else {
                                None
                            },
                            None => None,
                        }
                        &&& row.behind == Some(view.unreflected_pub.len() as usize)
                        &&& row.ahead == Some(ahead as usize)
                        &&& section.lines.contains(
                            "  to push: "@ + decimal_text(ahead) + ", to pull: "@ + decimal_text(
                                view.unreflected_pub.len(),
                            ),
                        )
                        &&& checked matches Some(found) && found.view == view
                    },
                },
            }
        },
{
    match load_sync_view_step(subrepo, false, log, at) {
        Step::Done(Ok(view), viewed) => match view.pub_head {
            Some(head) => {
                let seeded = seeded_section(blank_section(subrepo), subrepo, head);
                match check_fork_step(seeded, subrepo, log, viewed) {
                    Step::Done(section, p) => {
                        lemma_check_published(section, subrepo, view, log, p);
                    },
                    _ => {},
                }
            },
            None => {},
        },
        _ => {},
    }
}

proof fn lemma_check_published(
    section: SectionView,
    subrepo: ResolvedSubrepoView,
    view: SyncViewValue,
    log: Seq<ReplyView>,
    at: int,
)
    ensures
        check_published_step(section, subrepo, view, log, at) matches Step::Done(
            Ok((after, checked)),
            _,
        ) ==> {
            let ahead = left_to_push(subrepo, view, log, at);
            &&& checked matches Some(found) && found.view == view
            &&& after.lines.contains(
                "  to push: "@ + decimal_text(ahead) + ", to pull: "@ + decimal_text(
                    view.unreflected_pub.len(),
                ),
            )
            &&& same_but_for_findings(
                DoctorSubrepoView {
                    last_exported_mono: view.last_exported_mono,
                    last_exported_pub: match view.last_exported_mono {
                        Some(last) => if view.exported_mono_to_pub.contains_key(last) {
                            Some(view.exported_mono_to_pub[last])
                        } else {
                            None
                        },
                        None => section.row.last_exported_pub,
                    },
                    ahead: Some(ahead as usize),
                    behind: Some(view.unreflected_pub.len() as usize),
                    ..section.row
                },
                after.row,
            )
        },
{
    let shown = last_exported_section(section, view);
    match report_counts_step(shown, subrepo, view, log, at) {
        Step::Done(Ok(counted), p) => {
            let line = "  to push: "@ + decimal_text(left_to_push(subrepo, view, log, at))
                + ", to pull: "@ + decimal_text(view.unreflected_pub.len());
            assert(counted.lines[shown.lines.len() as int] == line);
            let broken = broken_section(counted, view.broken_source_refs);
            lemma_broken_section(counted, view.broken_source_refs);
            assert(counted.lines[shown.lines.len() as int] == line);
            let reported = superseded_section(broken, view);
            assert(grows(broken, reported));
            match check_anchor_step(reported, subrepo, view, log, p) {
                Step::Done(after, q) => {
                    lemma_check_anchor_grows(reported, subrepo, view, log, p);
                    assert(reported.lines[shown.lines.len() as int] == line) by {
                        assert(broken.lines[shown.lines.len() as int] == line);
                    }
                    assert(after.lines[shown.lines.len() as int] == line);
                },
                _ => {},
            }
        },
        _ => {},
    }
}

proof fn lemma_verify_mapping_grows(
    section: SectionView,
    subrepo: ResolvedSubrepoView,
    view: SyncViewValue,
    log: Seq<ReplyView>,
    at: int,
)
    ensures
        verify_mapping_step(section, subrepo, view, log, at) matches Step::Done(after, _) ==> grows(
            section,
            after,
        ) && after.row.problems == section.row.problems,
{
}

proof fn lemma_check_anchor_grows(
    section: SectionView,
    subrepo: ResolvedSubrepoView,
    view: SyncViewValue,
    log: Seq<ReplyView>,
    at: int,
)
    ensures
        check_anchor_step(section, subrepo, view, log, at) matches Step::Done(after, _) ==> grows(
            section,
            after,
        ),
{
    match export_base_rewritten_step(view.last_exported_mono, log, at) {
        Step::Done(false, p) => {
            lemma_verify_mapping_grows(section, subrepo, view, log, p);
        },
        Step::Done(true, p) => match report_rewritten_anchor_step(section, subrepo, view, log, p) {
            Step::Done(between, q) => {
                assert(grows(section, between));
                lemma_verify_mapping_grows(between, subrepo, view, log, q);
            },
            _ => {},
        },
        _ => {},
    }
}

/// What a published branch is found to have: how many problems and how many notes. A hook that
/// rejects a pending commit is a problem, and so is every broken reference, and an anchor that
/// left the history and that nothing can take the place of. The superseded references together
/// are a note, and so is an anchor that can be recovered, and a last export whose tree is not what
/// its commit publishes today.
pub proof fn law_each_finding_is_reported_once(
    section: SectionView,
    subrepo: ResolvedSubrepoView,
    view: SyncViewValue,
    log: Seq<ReplyView>,
    at: int,
)
    ensures
        check_published_step(section, subrepo, view, log, at) matches Step::Done(
            Ok((after, _)),
            _,
        ) ==> {
            &&& plan_export_step(subrepo, view, log, at) matches Step::Done(Ok(candidates), p)
            &&& compute_exports_step(
                subrepo,
                view.pub_head,
                candidates,
                log,
                p,
            ) matches Step::Done(plan, q)
            &&& export_base_rewritten_step(view.last_exported_mono, log, q) matches Step::Done(
                rewritten,
                r,
            )
            &&& rewritten ==> find_anchor_recovery_step(subrepo, view, log, r) is Done
            &&& {
                let recovered = rewritten && (find_anchor_recovery_step(
                    subrepo,
                    view,
                    log,
                    r,
                ) matches Step::Done(Ok(Some(_)), _));
                &&& after.row.problems.len() == section.row.problems.len()
                    + view.broken_source_refs.len() + (if plan is Err {
                    1int
                } else {
                    0int
                }) + (if rewritten && !recovered {
                    1int
                } else {
                    0int
                })
                &&& section.row.notes.len() + (if view.superseded_source_refs.len() > 0 {
                    1int
                } else {
                    0int
                }) + (if recovered {
                    1int
                } else {
                    0int
                }) <= after.row.notes.len() <= section.row.notes.len() + (
                if view.superseded_source_refs.len() > 0 {
                    1int
                } else {
                    0int
                }) + (if recovered {
                    1int
                } else {
                    0int
                }) + 1
            }
        },
{
    let shown = last_exported_section(section, view);
    match report_counts_step(shown, subrepo, view, log, at) {
        Step::Done(Ok(counted), q) => {
            lemma_broken_section(counted, view.broken_source_refs);
        },
        _ => {},
    }
}

/// A last export is held against what its commit publishes today: git is asked for the tree of
/// the public commit that the mapping records for it, and there is a note exactly when both trees
/// are known and are not the same. No problem comes of it.
pub proof fn law_a_changed_export_is_a_note(
    section: SectionView,
    subrepo: ResolvedSubrepoView,
    view: SyncViewValue,
    log: Seq<ReplyView>,
    at: int,
)
    ensures
        match view.last_exported_mono {
            None => verify_mapping_step(section, subrepo, view, log, at) == Step::Done(section, at),
            Some(last) => view.exported_mono_to_pub.contains_key(last) ==> match name_subtree_step(
                last,
                subrepo,
                log,
                at,
            ) {
                Step::Ask(request) => verify_mapping_step(
                    section,
                    subrepo,
                    view,
                    log,
                    at,
                ) matches Step::Ask(asked) && asked == request,
                Step::Done(expected, p) => match text_at(log, p) {
                    None => verify_mapping_step(
                        section,
                        subrepo,
                        view,
                        log,
                        at,
                    ) matches Step::Ask(RequestView::Git { args, input }) && args == seq![
                        "rev-parse"@,
                        view.exported_mono_to_pub[last] + "^{tree}"@,
                    ] && input is None,
                    Some(actual) => verify_mapping_step(
                        section,
                        subrepo,
                        view,
                        log,
                        at,
                    ) matches Step::Done(
                        after,
                        _,
                    ) && after.row.problems == section.row.problems && (
                    if expected matches Ok(Some(subtree)) && actual matches Ok(tree) && subtree.tree
                        != tree {
                        after.row.notes.len() == section.row.notes.len() + 1
                    } else {
                        after == section
                    }),
                },
            },
        },
{
}

/// A fork is reported apart from its upstream: its head where its push branch exists, a line
/// where it does not, and a problem where the fork cannot be reached.
pub proof fn law_a_fork_is_reported(
    section: SectionView,
    subrepo: ResolvedSubrepoView,
    log: Seq<ReplyView>,
    at: int,
)
    requires
        subrepo.upstream is Some,
    ensures
        match load_fork_state_step(subrepo, false, log, at) {
            Step::Ask(request) => check_fork_step(section, subrepo, log, at) == Step::<
                SectionView,
            >::Ask(request),
            Step::Done(state, end) => check_fork_step(section, subrepo, log, at) matches Step::Done(
                after,
                p,
            ) && p == end && after.row.notes == section.row.notes && match state {
                Err(_) => after.row.problems.len() == section.row.problems.len() + 1
                    && after.row.fork_head == section.row.fork_head,
                Ok(state) => after.row.problems == section.row.problems && (state.head is Some
                    ==> after.row.fork_head == state.head) && after.lines.len()
                    == section.lines.len() + 1,
            },
        },
{
}

// --- the survey ---

/// Every subrepo gets its section, in the order of the configuration, and each is checked on its
/// own. `looks` tells from which replies.
pub proof fn law_every_subrepo_is_checked(
    subrepos: Seq<ResolvedSubrepoView>,
    log: Seq<ReplyView>,
    at: int,
) -> (looks: Seq<int>)
    ensures
        survey_rest_step(subrepos, 0, SurveyView::blank(), log, at) matches Step::Done(
            Ok(survey),
            _,
        ) ==> surveyed(subrepos, SurveyView::blank(), survey, looks, 0, log),
{
    reveal(survey_result);
    lemma_survey(subrepos, 0, SurveyView::blank(), log, at)
}

/// What the public branch of a checked subrepo holds is listed from the mirror that its view read.
pub proof fn law_the_mirror_is_listed(
    subrepos: Seq<ResolvedSubrepoView>,
    i: int,
    survey: SurveyView,
    log: Seq<ReplyView>,
    at: int,
)
    requires
        0 <= i < subrepos.len(),
    ensures
        check_subrepo_step(subrepos[i], log, at) matches Step::Done(Ok((_, Some(_))), p)
            ==> shas_at(log, p) is None ==> (survey_rest_step(
            subrepos,
            i,
            survey,
            log,
            at,
        ) matches Step::Ask(request) && request == (RequestView::RevList {
            args: seq![mirror_ref(subrepos[i])],
        })),
{
    law_a_row_says_what_is_so(subrepos[i], log, at);
    match load_sync_view_step(subrepos[i], false, log, at) {
        Step::Done(Ok(_), _) => {
            law_a_view_names_its_mirror(subrepos[i], log, at);
        },
        _ => {},
    }
}

/// What a survey of the subrepos from `i` on adds to what was there before.
pub open spec fn surveyed(
    subrepos: Seq<ResolvedSubrepoView>,
    before: SurveyView,
    after: SurveyView,
    looks: Seq<int>,
    i: int,
    log: Seq<ReplyView>,
) -> bool {
    let n = before.sections.len();
    &&& looks.len() == subrepos.len() - i
    &&& after.sections.len() == n + looks.len()
    &&& forall|k: int|
        0 <= k < n ==> after.sections[k] == #[trigger] before.sections[k]
    &&& forall|k: int|
        0 <= k < looks.len() ==> checked_as(
            subrepos[i + k],
            after.sections[n + k],
            log,
            #[trigger] looks[k],
        )
    &&& anchored(subrepos, before, after, looks, i, log)
    &&& listed(subrepos, before, after, looks, i, log)
}

/// Are the anchors, and whether every subrepo has one, what the checks found, and is what was
/// fetched what was listed after them?
pub open spec fn anchored(
    subrepos: Seq<ResolvedSubrepoView>,
    before: SurveyView,
    after: SurveyView,
    looks: Seq<int>,
    i: int,
    log: Seq<ReplyView>,
) -> bool {
    &&& after.every_subrepo_anchored <==> before.every_subrepo_anchored && forall|k: int|
        0 <= k < looks.len() ==> anchor_found(subrepos[i + k], log, #[trigger] looks[k]) is Some
    &&& forall|anchor: Text| #[trigger]
        after.live_anchors.contains(anchor) <==> before.live_anchors.contains(anchor) || exists|
            k: int,
        |
            0 <= k < looks.len() && anchor_found(subrepos[i + k], log, #[trigger] looks[k]) == Some(
                anchor,
            )
    &&& forall|sha: Text| #[trigger]
        after.fetched_pub_shas.contains(sha) <==> before.fetched_pub_shas.contains(sha) || exists|
            k: int,
        |
            0 <= k < looks.len() && fetched(subrepos[i + k], log, #[trigger] looks[k]).contains(sha)
}

/// The last view that a check of the subrepos from `i` on went by.
pub open spec fn last_view(
    subrepos: Seq<ResolvedSubrepoView>,
    looks: Seq<int>,
    i: int,
    log: Seq<ReplyView>,
) -> Option<SyncViewValue>
    decreases looks.len(),
{
    if looks.len() == 0 {
        None
    } else {
        match last_view(subrepos, looks.drop_first(), i + 1, log) {
            Some(view) => Some(view),
            None => view_found(subrepos[i], log, looks[0]),
        }
    }
}

/// Are the imports those of the last view that a check went by?
pub open spec fn listed(
    subrepos: Seq<ResolvedSubrepoView>,
    before: SurveyView,
    after: SurveyView,
    looks: Seq<int>,
    i: int,
    log: Seq<ReplyView>,
) -> bool {
    match last_view(subrepos, looks, i, log) {
        Some(view) => after.imported_pub_shas == view.imported_pub_shas && after.origin_by_mono
            == view.origin_by_mono,
        None => after.imported_pub_shas == before.imported_pub_shas && after.origin_by_mono
            == before.origin_by_mono,
    }
}

/// The view that the check of a subrepo went by, where it could be checked.
pub open spec fn view_found(
    subrepo: ResolvedSubrepoView,
    log: Seq<ReplyView>,
    p: int,
) -> Option<SyncViewValue> {
    match check_result(subrepo, log, p) {
        Step::Done(Ok((_, Some(checked))), _) => Some(checked.view),
        _ => None,
    }
}

/// What the check of a subrepo comes to, as the replies from `p` on have it.
#[verifier::opaque]
pub open spec fn check_result(
    subrepo: ResolvedSubrepoView,
    log: Seq<ReplyView>,
    p: int,
) -> Step<Result<(SectionView, Option<CheckedView>), FailureView>> {
    check_subrepo_step(subrepo, log, p)
}

/// Did the check of a subrepo, as the replies from `p` on have it, end in this section?
pub open spec fn checked_as(
    subrepo: ResolvedSubrepoView,
    section: SectionView,
    log: Seq<ReplyView>,
    p: int,
) -> bool {
    check_result(subrepo, log, p) matches Step::Done(Ok((found, _)), _) && found == section
}

/// The live anchor that the check of a subrepo found.
pub open spec fn anchor_found(
    subrepo: ResolvedSubrepoView,
    log: Seq<ReplyView>,
    p: int,
) -> Option<Text> {
    match check_result(subrepo, log, p) {
        Step::Done(Ok((_, Some(checked))), _) => checked.live_anchor,
        _ => None,
    }
}

/// The commits of the public branch of a subrepo, as they were listed after its check.
pub open spec fn fetched(
    subrepo: ResolvedSubrepoView,
    log: Seq<ReplyView>,
    p: int,
) -> Seq<Text> {
    match check_result(subrepo, log, p) {
        Step::Done(Ok((_, Some(_))), end) => match shas_at(log, end) {
            Some(Ok(shas)) => shas,
            _ => Seq::empty(),
        },
        _ => Seq::empty(),
    }
}

#[verifier::opaque]
spec fn survey_result(
    subrepos: Seq<ResolvedSubrepoView>,
    i: int,
    survey: SurveyView,
    log: Seq<ReplyView>,
    at: int,
) -> Step<Result<SurveyView, FailureView>> {
    survey_rest_step(subrepos, i, survey, log, at)
}

proof fn lemma_survey_next(
    subrepos: Seq<ResolvedSubrepoView>,
    i: int,
    survey: SurveyView,
    log: Seq<ReplyView>,
    at: int,
)
    ensures
        i >= subrepos.len() ==> survey_result(subrepos, i, survey, log, at) == Step::<
            Result<SurveyView, FailureView>,
        >::Done(Ok(survey), at),
        i < subrepos.len() ==> (survey_result(subrepos, i, survey, log, at) matches Step::Done(
            Ok(_),
            _,
        ) ==> match check_result(subrepos[i], log, at) {
            Step::Done(Ok((section, None)), p) => survey_result(subrepos, i, survey, log, at)
                == survey_result(subrepos, i + 1, survey.unchecked(section), log, p),
            Step::Done(Ok((section, Some(checked))), p) => shas_at(log, p) matches Some(Ok(shas))
                && survey_result(subrepos, i, survey, log, at) == survey_result(
                subrepos,
                i + 1,
                survey.checked(section, checked, shas),
                log,
                p + 1,
            ),
            _ => false,
        }),
{
    reveal(survey_result);
    reveal(check_result);
}

proof fn lemma_survey(
    subrepos: Seq<ResolvedSubrepoView>,
    i: int,
    survey: SurveyView,
    log: Seq<ReplyView>,
    at: int,
) -> (looks: Seq<int>)
    requires
        0 <= i <= subrepos.len(),
    ensures
        survey_result(subrepos, i, survey, log, at) matches Step::Done(Ok(after), _)
            ==> surveyed(subrepos, survey, after, looks, i, log),
    decreases subrepos.len() - i,
{
    lemma_survey_next(subrepos, i, survey, log, at);
    if i >= subrepos.len() {
        Seq::empty()
    } else {
        let (next_survey, next_at) = match check_result(subrepos[i], log, at) {
            Step::Done(Ok((section, None)), p) => (survey.unchecked(section), p),
            Step::Done(Ok((section, Some(checked))), p) => (
                survey.checked(section, checked, fetched(subrepos[i], log, at)),
                p + 1,
            ),
            _ => (survey, at),
        };
        let rest = lemma_survey(subrepos, i + 1, next_survey, log, next_at);
        let looks = seq![at] + rest;
        match survey_result(subrepos, i, survey, log, at) {
            Step::Done(Ok(after), _) => {
                let n = survey.sections.len();
                assert(survey_result(subrepos, i + 1, next_survey, log, next_at)
                    == survey_result(subrepos, i, survey, log, at));
                assert(next_survey.sections.len() == n + 1);
                assert forall|k: int| 0 <= k < looks.len() implies checked_as(
                    subrepos[i + k],
                    after.sections[n + k],
                    log,
                    #[trigger] looks[k],
                ) by {
                    if k > 0 {
                        assert(looks[k] == rest[k - 1]);
                        assert(subrepos[i + 1 + (k - 1)] == subrepos[i + k]);
                    } else {
                        assert(after.sections[n as int] == next_survey.sections[n as int]);
                    }
                }
                assert forall|k: int| 0 <= k < n implies after.sections[k]
                    == #[trigger] survey.sections[k] by {
                    assert(next_survey.sections[k] == survey.sections[k]);
                }
                lemma_survey_anchors(subrepos, i, survey, next_survey, after, at, rest, log);
                lemma_survey_views(subrepos, i, survey, next_survey, after, at, rest, log);
            },
            _ => {},
        }
        looks
    }
}

proof fn lemma_survey_anchors(
    subrepos: Seq<ResolvedSubrepoView>,
    i: int,
    survey: SurveyView,
    next_survey: SurveyView,
    after: SurveyView,
    at: int,
    rest: Seq<int>,
    log: Seq<ReplyView>,
)
    requires
        0 <= i < subrepos.len(),
        rest.len() == subrepos.len() - (i + 1),
        anchored(subrepos, next_survey, after, rest, i + 1, log),
        next_survey.every_subrepo_anchored <==> survey.every_subrepo_anchored && anchor_found(
            subrepos[i],
            log,
            at,
        ) is Some,
        next_survey.live_anchors == match anchor_found(subrepos[i], log, at) {
            Some(anchor) => survey.live_anchors.push(anchor),
            None => survey.live_anchors,
        },
        next_survey.fetched_pub_shas =~= survey.fetched_pub_shas + fetched(subrepos[i], log, at),
    ensures
        anchored(subrepos, survey, after, seq![at] + rest, i, log),
{
    let looks = seq![at] + rest;
    assert(looks[0] == at);
    assert forall|k: int| 0 <= k < rest.len() implies #[trigger] rest[k] == looks[k + 1]
        && subrepos[i + 1 + k] == subrepos[i + (k + 1)] by {}
    let all_next = forall|k: int|
        0 <= k < rest.len() ==> anchor_found(subrepos[i + 1 + k], log, #[trigger] rest[k]) is Some;
    let all = forall|k: int|
        0 <= k < looks.len() ==> anchor_found(subrepos[i + k], log, #[trigger] looks[k]) is Some;
    if all {
        assert forall|k: int| 0 <= k < rest.len() implies anchor_found(
            subrepos[i + 1 + k],
            log,
            #[trigger] rest[k],
        ) is Some by {
            assert(anchor_found(subrepos[i + (k + 1)], log, looks[k + 1]) is Some);
        }
        assert(anchor_found(subrepos[i + 0], log, looks[0]) is Some);
    }
    if all_next && anchor_found(subrepos[i], log, at) is Some {
        assert forall|k: int| 0 <= k < looks.len() implies anchor_found(
            subrepos[i + k],
            log,
            #[trigger] looks[k],
        ) is Some by {
            if k > 0 {
                assert(rest[k - 1] == looks[k]);
                assert(anchor_found(subrepos[i + 1 + (k - 1)], log, rest[k - 1]) is Some);
            }
        }
    }
    assert forall|anchor: Text| #[trigger]
        after.live_anchors.contains(anchor) <==> survey.live_anchors.contains(anchor) || exists|
            k: int,
        |
            0 <= k < looks.len() && anchor_found(subrepos[i + k], log, #[trigger] looks[k]) == Some(
                anchor,
            ) by {
        crate::index::lemma_contains_push(survey.live_anchors, anchor);
        if let Some(found) = anchor_found(subrepos[i], log, at) {
            crate::index::lemma_contains_push(survey.live_anchors, found);
        }
        if after.live_anchors.contains(anchor) && !survey.live_anchors.contains(anchor) {
            if next_survey.live_anchors.contains(anchor) {
                assert(anchor_found(subrepos[i + 0], log, looks[0]) == Some(anchor));
            } else {
                let k = choose|k: int|
                    0 <= k < rest.len() && anchor_found(
                        subrepos[i + 1 + k],
                        log,
                        #[trigger] rest[k],
                    ) == Some(anchor);
                assert(anchor_found(subrepos[i + (k + 1)], log, looks[k + 1]) == Some(anchor));
            }
        }
        if exists|k: int|
            0 <= k < looks.len() && anchor_found(subrepos[i + k], log, #[trigger] looks[k]) == Some(
                anchor,
            ) {
            let k = choose|k: int|
                0 <= k < looks.len() && anchor_found(subrepos[i + k], log, #[trigger] looks[k])
                    == Some(anchor);
            if k > 0 {
                assert(rest[k - 1] == looks[k]);
                assert(anchor_found(subrepos[i + 1 + (k - 1)], log, rest[k - 1]) == Some(anchor));
            }
        }
    }
    assert forall|sha: Text| #[trigger]
        after.fetched_pub_shas.contains(sha) <==> survey.fetched_pub_shas.contains(sha) || exists|
            k: int,
        |
            0 <= k < looks.len() && fetched(subrepos[i + k], log, #[trigger] looks[k]).contains(
                sha,
            ) by {
        let own = fetched(subrepos[i], log, at);
        lemma_contains_add(survey.fetched_pub_shas, own, sha);
        if after.fetched_pub_shas.contains(sha) && !survey.fetched_pub_shas.contains(sha) {
            if own.contains(sha) {
                assert(fetched(subrepos[i + 0], log, looks[0]).contains(sha));
            } else {
                let k = choose|k: int|
                    0 <= k < rest.len() && fetched(
                        subrepos[i + 1 + k],
                        log,
                        #[trigger] rest[k],
                    ).contains(sha);
                assert(fetched(subrepos[i + (k + 1)], log, looks[k + 1]).contains(sha));
            }
        }
        if exists|k: int|
            0 <= k < looks.len() && fetched(subrepos[i + k], log, #[trigger] looks[k]).contains(
                sha,
            ) {
            let k = choose|k: int|
                0 <= k < looks.len() && fetched(
                    subrepos[i + k],
                    log,
                    #[trigger] looks[k],
                ).contains(sha);
            if k > 0 {
                assert(rest[k - 1] == looks[k]);
                assert(fetched(subrepos[i + 1 + (k - 1)], log, rest[k - 1]).contains(sha));
            }
        }
    }
}

proof fn lemma_survey_views(
    subrepos: Seq<ResolvedSubrepoView>,
    i: int,
    survey: SurveyView,
    next_survey: SurveyView,
    after: SurveyView,
    at: int,
    rest: Seq<int>,
    log: Seq<ReplyView>,
)
    requires
        0 <= i < subrepos.len(),
        rest.len() == subrepos.len() - (i + 1),
        listed(subrepos, next_survey, after, rest, i + 1, log),
        match view_found(subrepos[i], log, at) {
            Some(view) => next_survey.imported_pub_shas == view.imported_pub_shas
                && next_survey.origin_by_mono == view.origin_by_mono,
            None => next_survey.imported_pub_shas == survey.imported_pub_shas
                && next_survey.origin_by_mono == survey.origin_by_mono,
        },
    ensures
        listed(subrepos, survey, after, seq![at] + rest, i, log),
{
    let looks = seq![at] + rest;
    assert(looks.drop_first() =~= rest);
    assert(looks[0] == at);
}

proof fn lemma_contains_add(a: Seq<Text>, b: Seq<Text>, sha: Text)
    ensures
        (a + b).contains(sha) <==> a.contains(sha) || b.contains(sha),
{
    if a.contains(sha) {
        let i = choose|i: int| 0 <= i < a.len() && a[i] == sha;
        assert((a + b)[i] == sha);
    }
    if b.contains(sha) {
        let i = choose|i: int| 0 <= i < b.len() && b[i] == sha;
        assert((a + b)[a.len() + i] == sha);
    }
    if (a + b).contains(sha) {
        let i = choose|i: int| 0 <= i < (a + b).len() && (a + b)[i] == sha;
        if i < a.len() {
            assert(a[i] == sha);
        } else {
            assert(b[i - a.len()] == sha);
        }
    }
}

// --- settled imports ---

/// Is there a commit that carries the import, and is every one that does among the settled ones?
pub open spec fn explained(
    sha: Text,
    origin_by_mono: Seq<(Text, Seq<Text>)>,
    settled: Seq<Text>,
) -> bool {
    &&& exists|i: int|
        0 <= i < origin_by_mono.len() && (#[trigger] origin_by_mono[i]).1.contains(sha)
    &&& forall|i: int|
        0 <= i < origin_by_mono.len() && (#[trigger] origin_by_mono[i]).1.contains(sha)
            ==> settled.contains(origin_by_mono[i].0)
}

/// An import that no remote has is a problem exactly when it is not explained: one commit that
/// carries it and is not settled is enough, and so is none that carries it. Explained ones make
/// one note between them, and without any there is none.
pub proof fn law_what_is_not_explained_is_a_problem(
    survey: SurveyView,
    settled: Seq<Text>,
    live_anchor: Option<Text>,
    sha: Text,
)
    ensures
        survey.imported_pub_shas.contains(sha) && !survey.fetched_pub_shas.contains(sha)
            && !explained(sha, survey.origin_by_mono, settled) ==> origin_findings(
            survey,
            settled,
            live_anchor,
        ).orphans.contains(orphan_finding(sha)),
        survey.imported_pub_shas.contains(sha) && !survey.fetched_pub_shas.contains(sha)
            && explained(sha, survey.origin_by_mono, settled) ==> origin_findings(
            survey,
            settled,
            live_anchor,
        ).fossils.len() == 1,
        origin_findings(survey, settled, live_anchor).fossils.len() <= 1,
        origin_findings(survey, settled, live_anchor).fossils.len() == 1 ==> exists|other: Text|
            survey.imported_pub_shas.contains(other) && !survey.fetched_pub_shas.contains(other)
                && #[trigger] explained(other, survey.origin_by_mono, settled),
{
    let lost = orphans(survey.imported_pub_shas, survey.fetched_pub_shas);
    let verdicts = verdicts_by(survey.origin_by_mono, settled);
    let findings = origin_findings(survey, settled, live_anchor);
    let left = lost.filter(|sha: Text| !is_fossil(sha, survey.origin_by_mono, verdicts));
    let fossils = origin_fossils(lost, survey.origin_by_mono, verdicts);
    assert forall|other: Text|
        #[trigger] is_fossil(other, survey.origin_by_mono, verdicts) == explained(
            other,
            survey.origin_by_mono,
            settled,
        ) by {
        lemma_explained(other, survey.origin_by_mono, settled);
    }
    law_every_orphan_is_a_problem_or_settled(
        survey.imported_pub_shas,
        survey.fetched_pub_shas,
        survey.origin_by_mono,
        verdicts,
        sha,
    );
    assert(is_fossil(sha, survey.origin_by_mono, verdicts) == explained(
        sha,
        survey.origin_by_mono,
        settled,
    ));
    lemma_filter_contains(
        lost,
        |sha: Text| !is_fossil(sha, survey.origin_by_mono, verdicts),
        sha,
    );
    lemma_filter_contains(
        lost,
        |sha: Text| is_fossil(sha, survey.origin_by_mono, verdicts),
        sha,
    );
    if left.contains(sha) {
        let i = choose|i: int| 0 <= i < left.len() && left[i] == sha;
        assert(findings.orphans[i] == orphan_finding(sha));
        assert(findings.orphans.contains(orphan_finding(sha)));
    }
    let missing = survey.imported_pub_shas.contains(sha) && !survey.fetched_pub_shas.contains(sha);
    assert(missing && !explained(sha, survey.origin_by_mono, settled) ==> left.contains(sha));
    assert(missing && explained(sha, survey.origin_by_mono, settled) ==> fossils.contains(sha));
    if fossils.len() > 0 {
        let other = fossils[0];
        assert(fossils.contains(other));
        law_every_orphan_is_a_problem_or_settled(
            survey.imported_pub_shas,
            survey.fetched_pub_shas,
            survey.origin_by_mono,
            verdicts,
            other,
        );
        assert(explained(other, survey.origin_by_mono, settled));
    }
}

/// Every problem of monorepo history is an import that no remote has and that is not explained:
/// the one that it names.
pub proof fn law_every_problem_is_a_lost_import(
    survey: SurveyView,
    settled: Seq<Text>,
    live_anchor: Option<Text>,
    i: int,
) -> (sha: Text)
    requires
        0 <= i < origin_findings(survey, settled, live_anchor).orphans.len(),
    ensures
        origin_findings(survey, settled, live_anchor).orphans[i] == orphan_finding(sha),
        survey.imported_pub_shas.contains(sha),
        !survey.fetched_pub_shas.contains(sha),
        !explained(sha, survey.origin_by_mono, settled),
{
    let lost = orphans(survey.imported_pub_shas, survey.fetched_pub_shas);
    let verdicts = verdicts_by(survey.origin_by_mono, settled);
    let left = lost.filter(|sha: Text| !is_fossil(sha, survey.origin_by_mono, verdicts));
    let sha = left[i];
    assert(left.contains(sha));
    lemma_filter_contains(
        lost,
        |sha: Text| !is_fossil(sha, survey.origin_by_mono, verdicts),
        sha,
    );
    law_every_orphan_is_a_problem_or_settled(
        survey.imported_pub_shas,
        survey.fetched_pub_shas,
        survey.origin_by_mono,
        verdicts,
        sha,
    );
    lemma_explained(sha, survey.origin_by_mono, settled);
    sha
}

proof fn lemma_explained(
    sha: Text,
    origin_by_mono: Seq<(Text, Seq<Text>)>,
    settled: Seq<Text>,
)
    ensures
        is_fossil(sha, origin_by_mono, verdicts_by(origin_by_mono, settled)) == explained(
            sha,
            origin_by_mono,
            settled,
        ),
{
    let verdicts = verdicts_by(origin_by_mono, settled);
    assert forall|i: int| 0 <= i < origin_by_mono.len() implies #[trigger] verdicts[i]
        == settled.contains(origin_by_mono[i].0) by {}
    if explained(sha, origin_by_mono, settled) {
        assert forall|i: int|
            0 <= i < origin_by_mono.len() && (#[trigger] origin_by_mono[i]).1.contains(
                sha,
            ) implies verdicts[i] by {}
    }
    if is_fossil(sha, origin_by_mono, verdicts) {
        assert forall|i: int|
            0 <= i < origin_by_mono.len() && (#[trigger] origin_by_mono[i]).1.contains(
                sha,
            ) implies settled.contains(origin_by_mono[i].0) by {
            assert(verdicts[i]);
        }
    }
}

/// The imports that no remote has are reported in order.
pub proof fn law_lost_imports_are_in_order(imported: Seq<Text>, fetched: Seq<Text>)
    ensures
        sorted_texts(orphans(imported, fetched)),
{
    let lost = distinct(imported.filter(|sha: Text| !fetched.contains(sha)));
    lemma_in_order(lost, lost);
}

/// Every problem counts once: an unfinished pull, each import that nothing explains, and each
/// problem of each section.
pub proof fn law_every_problem_counts_once(
    json: bool,
    pull_in_progress: Option<PullInProgressView>,
    sections: Seq<SectionView>,
    section: SectionView,
    findings: OriginFindingsView,
)
    ensures
        finish(json, pull_in_progress, Seq::empty(), findings).report.problems == (
        if pull_in_progress is Some {
            1int
        } else {
            0int
        }) + findings.orphans.len(),
        finish(json, pull_in_progress, sections.push(section), findings).report.problems == finish(
            json,
            pull_in_progress,
            sections,
            findings,
        ).report.problems + section.row.problems.len(),
{
    assert(sections.push(section).drop_last() =~= sections);
}

/// The anchor that stands for all is the oldest one: going through them in their order, git is
/// asked of each whether it is an ancestor of the oldest so far, and it takes that place where it
/// is.
pub proof fn law_the_oldest_anchor_stands_for_all(
    anchors: Seq<Text>,
    log: Seq<ReplyView>,
    at: int,
)
    ensures
        anchors.len() == 0 ==> oldest_anchor_step(anchors, log, at) == Step::Done(None::<Text>, at),
        anchors.len() > 0 ==> match oldest_anchor_step(anchors, log, at) {
            Step::Ask(request) => exists|i: int, j: int|
                0 <= j < i < anchors.len() && #[trigger] oldest_before(i, j, log, at) && flag_at(
                    log,
                    at + i - 1,
                ) is None && request == (RequestView::GitOk {
                    args: seq!["merge-base"@, "--is-ancestor"@, anchors[i], anchors[j]],
                }),
            Step::Done(oldest, _) => exists|j: int|
                0 <= j < anchors.len() && #[trigger] oldest_before(
                    anchors.len() as int,
                    j,
                    log,
                    at,
                ) && oldest == Some(anchors[j]),
        },
{
    if anchors.len() > 0 {
        assert(oldest_before(1, 0, log, at));
        lemma_oldest_rest(anchors, 1, 0, log, at);
    }
}

/// Is the anchor at `j` the oldest of those before `i`, as git's answers from `at` on have it?
pub open spec fn oldest_before(i: int, j: int, log: Seq<ReplyView>, at: int) -> bool {
    &&& 0 <= j < i
    &&& j > 0 ==> flag_at(log, at + j - 1) == Some(true)
    &&& forall|k: int| j < k < i ==> #[trigger] flag_at(log, at + k - 1) == Some(false)
}

proof fn lemma_oldest_rest(
    anchors: Seq<Text>,
    i: int,
    j: int,
    log: Seq<ReplyView>,
    at: int,
)
    requires
        0 <= j < i <= anchors.len(),
        oldest_before(i, j, log, at),
    ensures
        match oldest_rest_step(anchors, i, anchors[j], log, at + i - 1) {
            Step::Ask(request) => exists|i: int, j: int|
                0 <= j < i < anchors.len() && #[trigger] oldest_before(i, j, log, at) && flag_at(
                    log,
                    at + i - 1,
                ) is None && request == (RequestView::GitOk {
                    args: seq!["merge-base"@, "--is-ancestor"@, anchors[i], anchors[j]],
                }),
            Step::Done(oldest, _) => exists|j: int|
                0 <= j < anchors.len() && #[trigger] oldest_before(
                    anchors.len() as int,
                    j,
                    log,
                    at,
                ) && oldest == anchors[j],
        },
    decreases anchors.len() - i,
{
    if i < anchors.len() {
        match flag_at(log, at + i - 1) {
            Some(true) => {
                assert(oldest_before(i + 1, i, log, at));
                lemma_oldest_rest(anchors, i + 1, i, log, at);
            },
            Some(false) => {
                assert(oldest_before(i + 1, j, log, at)) by {
                    assert forall|k: int| j < k < i + 1 implies #[trigger] flag_at(
                        log,
                        at + k - 1,
                    ) == Some(false) by {}
                }
                lemma_oldest_rest(anchors, i + 1, j, log, at);
            },
            None => {},
        }
    }
}

proof fn lemma_below_all_asks(
    mono_sha: Text,
    anchors: Seq<Text>,
    j: int,
    log: Seq<ReplyView>,
    at: int,
)
    requires
        0 <= j,
    ensures
        match below_all_step(mono_sha, anchors, j, log, at) {
            Step::Ask(request) => exists|k: int|
                j <= k < anchors.len() && request == (RequestView::GitOk {
                    args: seq!["merge-base"@, "--is-ancestor"@, mono_sha, #[trigger] anchors[k]],
                }),
            Step::Done(below, end) => !below ==> flag_at(log, end - 1) == Some(false),
        },
    decreases anchors.len() - j,
{
    if j < anchors.len() {
        lemma_below_all_asks(mono_sha, anchors, j + 1, log, at + 1);
    }
}

/// Whether a commit is below every anchor is asked of that commit and of each anchor, and one no
/// is enough.
pub proof fn law_one_no_unsettles_a_commit(
    mono_sha: Text,
    anchors: Seq<Text>,
    log: Seq<ReplyView>,
    at: int,
)
    ensures
        match below_all_step(mono_sha, anchors, 0, log, at) {
            Step::Ask(request) => exists|k: int|
                0 <= k < anchors.len() && request == (RequestView::GitOk {
                    args: seq!["merge-base"@, "--is-ancestor"@, mono_sha, #[trigger] anchors[k]],
                }),
            Step::Done(below, end) => !below ==> flag_at(log, end - 1) == Some(false),
        },
{
    lemma_below_all_asks(mono_sha, anchors, 0, log, at);
}

/// Was it asked whether the commit is below every anchor, as the replies from `p` on have it?
pub open spec fn judged(
    mono_sha: Text,
    anchors: Seq<Text>,
    log: Seq<ReplyView>,
    p: int,
    below: bool,
) -> bool {
    below_all_step(mono_sha, anchors, 0, log, p) matches Step::Done(found, _) && found == below
}

proof fn lemma_carriers_are_judged(
    origin_by_mono: Seq<(Text, Seq<Text>)>,
    lost: Seq<Text>,
    anchors: Seq<Text>,
    i: int,
    settled: Seq<Text>,
    log: Seq<ReplyView>,
    at: int,
    k: int,
)
    requires
        0 <= i,
        k < origin_by_mono.len(),
    ensures
        settle_rest_step(origin_by_mono, lost, anchors, i, settled, log, at) matches Step::Done(
            all,
            _,
        ) ==> {
            &&& forall|sha: Text| settled.contains(sha) ==> #[trigger] all.contains(sha)
            &&& i <= k && carries(origin_by_mono[k].1, lost) ==> exists|p: int, below: bool|
                #[trigger] judged(origin_by_mono[k].0, anchors, log, p, below) && (below
                    ==> all.contains(origin_by_mono[k].0))
        },
    decreases origin_by_mono.len() - i,
{
    if i < origin_by_mono.len() {
        if carries(origin_by_mono[i].1, lost) {
            match below_all_step(origin_by_mono[i].0, anchors, 0, log, at) {
                Step::Done(below, next) => {
                    let more = if below {
                        settled.push(origin_by_mono[i].0)
                    } else {
                        settled
                    };
                    assert(judged(origin_by_mono[i].0, anchors, log, at, below));
                    crate::index::lemma_contains_push(settled, origin_by_mono[i].0);
                    lemma_carriers_are_judged(
                        origin_by_mono,
                        lost,
                        anchors,
                        i + 1,
                        more,
                        log,
                        next,
                        k,
                    );
                    assert(below ==> more.contains(origin_by_mono[i].0));
                },
                _ => {},
            }
        } else {
            lemma_carriers_are_judged(
                origin_by_mono,
                lost,
                anchors,
                i + 1,
                settled,
                log,
                at,
                k,
            );
        }
    }
}

/// Every commit that carries an import which no remote has is judged, where every subrepo has a
/// live anchor; and one that is below all of them is settled.
pub proof fn law_every_carrier_is_judged(
    survey: SurveyView,
    log: Seq<ReplyView>,
    at: int,
    k: int,
)
    requires
        survey.every_subrepo_anchored,
        survey.live_anchors.len() > 0,
        0 <= k < survey.origin_by_mono.len(),
        carries(
            survey.origin_by_mono[k].1,
            orphans(survey.imported_pub_shas, survey.fetched_pub_shas),
        ),
    ensures
        settled_step(survey, log, at) matches Step::Done(settled, _) ==> exists|p: int, below: bool|
            #[trigger] judged(
                survey.origin_by_mono[k].0,
                survey.live_anchors,
                log,
                p,
                below,
            ) && (below ==> settled.contains(survey.origin_by_mono[k].0)),
{
    lemma_carriers_are_judged(
        survey.origin_by_mono,
        orphans(survey.imported_pub_shas, survey.fetched_pub_shas),
        survey.live_anchors,
        0,
        Seq::empty(),
        log,
        at,
        k,
    );
}

// --- the run ---

/// A run checks the subrepos that it was told to check: it asks for the project, for the record of
/// an unfinished pull, and then for them.
pub proof fn law_a_run_checks_what_it_was_told_to(
    args: DoctorArgsView,
    log: Seq<ReplyView>,
    at: int,
)
    ensures
        match project_at(log, at) {
            None => run_step(args, log, at) matches Step::Ask(request) && request is OpenProject,
            Some(Err(failure)) => run_step(args, log, at) matches Step::Done(Err(failed), _)
                && failed == failure,
            Some(Ok(_)) => match pull_in_progress_step(log, at + 1) {
                Step::Ask(request) => run_step(args, log, at) matches Step::Ask(asked) && asked
                    == request,
                Step::Done(Err(failure), _) => run_step(args, log, at) matches Step::Done(
                    Err(failed),
                    _,
                ) && failed == failure,
                Step::Done(Ok(_), p) => match selected_at(log, p) {
                    None => run_step(args, log, at) matches Step::Ask(
                        RequestView::SelectSubrepos { name },
                    ) && name == args.subrepo,
                    Some(Err(failure)) => run_step(args, log, at) matches Step::Done(
                        Err(failed),
                        _,
                    ) && failed == failure,
                    Some(Ok(subrepos)) => pull_in_progress_step(log, at + 1) matches Step::Done(
                        Ok(pull),
                        _,
                    ) && run_step(args, log, at) == examine_step(args, pull, subrepos, log, p + 1),
                },
            },
        },
{
}

/// The record of an unfinished pull is reported as it was read, with where it is kept.
pub proof fn law_an_unfinished_pull_is_reported(log: Seq<ReplyView>, at: int)
    ensures
        match (sequencer_at(log, at), path_at(log, at + 1)) {
            (None, _) => pull_in_progress_step(log, at) matches Step::Ask(request) && request
                is ReadSequencer,
            (Some(None), _) => pull_in_progress_step(log, at) matches Step::Done(Ok(None), p) && p
                == at + 1,
            (Some(Some(_)), None) => pull_in_progress_step(log, at) matches Step::Ask(request)
                && request is SequencerPath,
            (Some(Some(_)), Some(Err(detail))) => pull_in_progress_step(log, at) matches Step::Done(
                Err(failure),
                _,
            ) && failure.message == detail && failure.exit_code == 2,
            (Some(Some(state)), Some(Ok(path))) => pull_in_progress_step(
                log,
                at,
            ) matches Step::Done(Ok(Some(pull)), p) && p == at + 2 && pull.subrepo == state.subrepo
                && pull.state_path == path,
        },
{
}

/// A report has one row for each section, in their order, the headlines of what was found in
/// monorepo history, problems and notes apart, and the unfinished pull.
pub proof fn law_a_report_has_a_row_for_each_section(
    json: bool,
    pull_in_progress: Option<PullInProgressView>,
    sections: Seq<SectionView>,
    findings: OriginFindingsView,
    i: int,
)
    ensures
        ({
            let report = finish(json, pull_in_progress, sections, findings).report;
            &&& report.pull_in_progress == pull_in_progress
            &&& report.subrepos.len() == sections.len()
            &&& 0 <= i < sections.len() ==> report.subrepos[i] == sections[i].row
            &&& report.monorepo.problems.len() == findings.orphans.len()
            &&& 0 <= i < findings.orphans.len() ==> report.monorepo.problems[i]
                == findings.orphans[i].headline
            &&& report.monorepo.notes.len() == findings.fossils.len()
            &&& 0 <= i < findings.fossils.len() ==> report.monorepo.notes[i]
                == findings.fossils[i].headline
        }),
{
}

/// A run ends in the report on what it surveyed and on what it found in monorepo history; where
/// one subrepo was asked for, nothing is said of that history.
pub proof fn law_a_run_reports_what_it_found(
    args: DoctorArgsView,
    pull_in_progress: Option<PullInProgressView>,
    subrepos: Seq<ResolvedSubrepoView>,
    survey: SurveyView,
    findings: OriginFindingsView,
    log: Seq<ReplyView>,
    at: int,
    p: int,
    end: int,
)
    requires
        survey_rest_step(subrepos, 0, SurveyView::blank(), log, at) == Step::<
            Result<SurveyView, FailureView>,
        >::Done(Ok(survey), p),
        examine_origins_step(survey, args.subrepo, log, p) == Step::Done(findings, end),
    ensures
        examine_step(args, pull_in_progress, subrepos, log, at) == Step::<
            Result<DoctorRunView, FailureView>,
        >::Done(Ok(finish(args.json, pull_in_progress, survey.sections, findings)), end),
        args.subrepo is Some ==> findings.orphans.len() == 0 && findings.fossils.len() == 0,
{
}

/// The findings about monorepo history come from the settled commits and the oldest anchor: first
/// that anchor is found, then the commits are judged.
pub proof fn law_the_findings_name_the_oldest_anchor(
    survey: SurveyView,
    log: Seq<ReplyView>,
    at: int,
)
    ensures
        examine_origins_step(survey, None, log, at) matches Step::Done(findings, _) ==> {
            &&& oldest_anchor_step(survey.live_anchors, log, at) matches Step::Done(oldest, p)
            &&& settled_step(survey, log, p) matches Step::Done(settled, _)
            &&& findings == origin_findings(survey, settled, oldest)
        },
{
}

} // verus!
