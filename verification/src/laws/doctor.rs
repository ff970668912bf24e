//! Laws of `doctor`: what fails a run, what does not, and that looking changes nothing.

use vstd::prelude::*;
use vstd::string::*;
use crate::config::ResolvedSubrepoView;
use crate::doctor::{
    below_all_step, broken_section, carries, check_anchor_step, check_fork_step,
    check_published_step, check_subrepo_step, examine_origins_step, finish, is_fossil,
    last_exported_section, oldest_anchor_step, oldest_rest_step, origin_findings, origin_fossils,
    origin_problems, orphan_finding, orphans, pull_in_progress_step, report_counts_step,
    report_rewritten_anchor_step, rewritten_section, run_step, section_problems, seeded_section,
    blank_section, settle_rest_step, settled_step, superseded_section, survey_rest_step,
    verdicts_by, verify_mapping_step, DoctorArgsView, OriginFindingsView, PullInProgressView,
    SectionView, SurveyView,
};
use crate::exporter::{export_base_rewritten_step, plan_export_step, AnchorRecoveryView};
use crate::index::{distinct, lemma_distinct};
use crate::laws::requests::{
    changes, lemma_compute_exports_asks, lemma_name_subtree_asks, lemma_find_anchor_recovery_asks,
    lemma_live_export_anchor_asks, lemma_load_fork_state_asks, lemma_verbs, lemma_view_asks,
};
use crate::list::lemma_filter_contains;
use crate::sync_view::{load_sync_view_step, SourceRefView, SyncViewValue};
use crate::talk::{flag_at, project_at, selected_at, shas_at, ReplyView, Step};
use crate::text::{in_order, lemma_in_order, Text};

verus! {

// --- looking changes nothing ---

/// Whatever the procedure stops at changes nothing.
pub open spec fn changes_nothing<T>(step: Step<T>) -> bool {
    step matches Step::Ask(request) ==> !changes(request)
}

proof fn lemma_report_counts_asks(
    section: SectionView,
    subrepo: ResolvedSubrepoView,
    view: SyncViewValue,
    log: Seq<ReplyView>,
    at: int,
)
    ensures
        changes_nothing(report_counts_step(section, subrepo, view, log, at)),
{
    match plan_export_step(subrepo, view, log, at) {
        Step::Done(Ok(candidates), at) => {
            lemma_compute_exports_asks(subrepo, view.pub_head, candidates, log, at);
        },
        _ => {},
    }
}

proof fn lemma_check_anchor_asks(
    section: SectionView,
    subrepo: ResolvedSubrepoView,
    view: SyncViewValue,
    log: Seq<ReplyView>,
    at: int,
)
    ensures
        changes_nothing(check_anchor_step(section, subrepo, view, log, at)),
{
    match export_base_rewritten_step(view.last_exported_mono, log, at) {
        Step::Done(false, at) => {
            lemma_verify_mapping_asks(section, subrepo, view, log, at);
        },
        Step::Done(true, at) => {
            lemma_find_anchor_recovery_asks(subrepo, view, log, at);
            match report_rewritten_anchor_step(section, subrepo, view, log, at) {
                Step::Done(section, at) => {
                    lemma_verify_mapping_asks(section, subrepo, view, log, at);
                },
                _ => {},
            }
        },
        _ => {},
    }
}

proof fn lemma_verify_mapping_asks(
    section: SectionView,
    subrepo: ResolvedSubrepoView,
    view: SyncViewValue,
    log: Seq<ReplyView>,
    at: int,
)
    ensures
        changes_nothing(verify_mapping_step(section, subrepo, view, log, at)),
{
    lemma_verbs();
    match view.last_exported_mono {
        Some(last) => {
            lemma_name_subtree_asks(last, subrepo, log, at);
        },
        None => {},
    }
}

proof fn lemma_check_published_asks(
    section: SectionView,
    subrepo: ResolvedSubrepoView,
    view: SyncViewValue,
    log: Seq<ReplyView>,
    at: int,
)
    ensures
        changes_nothing(check_published_step(section, subrepo, view, log, at)),
{
    let shown = last_exported_section(section, view);
    lemma_report_counts_asks(shown, subrepo, view, log, at);
    match report_counts_step(shown, subrepo, view, log, at) {
        Step::Done(Ok(section), at) => {
            let reported = superseded_section(
                broken_section(section, view.broken_source_refs),
                view,
            );
            lemma_check_anchor_asks(reported, subrepo, view, log, at);
            match check_anchor_step(reported, subrepo, view, log, at) {
                Step::Done(_, at) => {
                    lemma_live_export_anchor_asks(subrepo, view, log, at);
                },
                _ => {},
            }
        },
        _ => {},
    }
}

proof fn lemma_check_subrepo_asks(
    subrepo: ResolvedSubrepoView,
    log: Seq<ReplyView>,
    at: int,
)
    ensures
        changes_nothing(check_subrepo_step(subrepo, log, at)),
{
    lemma_view_asks(subrepo, true, false, log, at);
    match load_sync_view_step(subrepo, false, log, at) {
        Step::Done(Ok(view), at) => match view.pub_head {
            Some(pub_head) => {
                let seeded = seeded_section(blank_section(subrepo), subrepo, pub_head);
                lemma_load_fork_state_asks(subrepo, false, log, at);
                match check_fork_step(seeded, subrepo, log, at) {
                    Step::Done(section, at) => {
                        lemma_check_published_asks(section, subrepo, view, log, at);
                    },
                    _ => {},
                }
            },
            None => {},
        },
        _ => {},
    }
}

proof fn lemma_survey_rest_asks(
    subrepos: Seq<ResolvedSubrepoView>,
    i: int,
    survey: SurveyView,
    log: Seq<ReplyView>,
    at: int,
)
    ensures
        changes_nothing(survey_rest_step(subrepos, i, survey, log, at)),
    decreases subrepos.len() - i,
{
    if i < subrepos.len() {
        lemma_check_subrepo_asks(subrepos[i], log, at);
        match check_subrepo_step(subrepos[i], log, at) {
            Step::Done(Ok((section, None)), at) => {
                lemma_survey_rest_asks(subrepos, i + 1, survey.unchecked(section), log, at);
            },
            Step::Done(Ok((section, Some(checked))), at) => match shas_at(log, at) {
                Some(Ok(fetched)) => {
                    lemma_survey_rest_asks(
                        subrepos,
                        i + 1,
                        survey.checked(section, checked, fetched),
                        log,
                        at + 1,
                    );
                },
                _ => {},
            },
            _ => {},
        }
    }
}

proof fn lemma_oldest_rest_asks(
    anchors: Seq<Text>,
    i: int,
    oldest: Text,
    log: Seq<ReplyView>,
    at: int,
)
    ensures
        changes_nothing(oldest_rest_step(anchors, i, oldest, log, at)),
    decreases anchors.len() - i,
{
    if i < anchors.len() {
        match flag_at(log, at) {
            Some(older) => {
                lemma_oldest_rest_asks(
                    anchors,
                    i + 1,
                    if older {
                        anchors[i]
                    } else {
                        oldest
                    },
                    log,
                    at + 1,
                );
            },
            None => {},
        }
    }
}

proof fn lemma_below_all_asks(
    mono_sha: Text,
    anchors: Seq<Text>,
    j: int,
    log: Seq<ReplyView>,
    at: int,
)
    ensures
        changes_nothing(below_all_step(mono_sha, anchors, j, log, at)),
    decreases anchors.len() - j,
{
    if j < anchors.len() {
        lemma_below_all_asks(mono_sha, anchors, j + 1, log, at + 1);
    }
}

proof fn lemma_settle_rest_asks(
    origin_by_mono: Seq<(Text, Seq<Text>)>,
    lost: Seq<Text>,
    anchors: Seq<Text>,
    i: int,
    settled: Seq<Text>,
    log: Seq<ReplyView>,
    at: int,
)
    ensures
        changes_nothing(
            settle_rest_step(origin_by_mono, lost, anchors, i, settled, log, at),
        ),
    decreases origin_by_mono.len() - i,
{
    if i < origin_by_mono.len() {
        if carries(origin_by_mono[i].1, lost) {
            lemma_below_all_asks(origin_by_mono[i].0, anchors, 0, log, at);
            match below_all_step(origin_by_mono[i].0, anchors, 0, log, at) {
                Step::Done(below, at) => {
                    lemma_settle_rest_asks(
                        origin_by_mono,
                        lost,
                        anchors,
                        i + 1,
                        if below {
                            settled.push(origin_by_mono[i].0)
                        } else {
                            settled
                        },
                        log,
                        at,
                    );
                },
                _ => {},
            }
        } else {
            lemma_settle_rest_asks(origin_by_mono, lost, anchors, i + 1, settled, log, at);
        }
    }
}

/// A doctor only looks: no run of it pushes, writes an object, moves a ref or imports.
pub proof fn law_doctor_changes_nothing(args: DoctorArgsView, log: Seq<ReplyView>, at: int)
    ensures
        changes_nothing(run_step(args, log, at)),
{
    match (project_at(log, at), pull_in_progress_step(log, at + 1)) {
        (Some(Ok(_)), Step::Done(Ok(_), at)) => match selected_at(log, at) {
            Some(Ok(subrepos)) => {
                lemma_survey_rest_asks(subrepos, 0, SurveyView::blank(), log, at + 1);
                match survey_rest_step(subrepos, 0, SurveyView::blank(), log, at + 1) {
                    Step::Done(Ok(survey), at) => {
                        if survey.live_anchors.len() > 0 {
                            lemma_oldest_rest_asks(
                                survey.live_anchors,
                                1,
                                survey.live_anchors[0],
                                log,
                                at,
                            );
                        }
                        match oldest_anchor_step(survey.live_anchors, log, at) {
                            Step::Done(_, at) => {
                                lemma_settle_rest_asks(
                                    survey.origin_by_mono,
                                    orphans(survey.imported_pub_shas, survey.fetched_pub_shas),
                                    survey.live_anchors,
                                    0,
                                    Seq::empty(),
                                    log,
                                    at,
                                );
                            },
                            _ => {},
                        }
                    },
                    _ => {},
                }
            },
            _ => {},
        },
        _ => {},
    }
}

// --- what fails a run ---

proof fn lemma_section_problems(sections: Seq<SectionView>)
    ensures
        section_problems(sections) == 0 <==> forall|i: int|
            0 <= i < sections.len() ==> (#[trigger] sections[i]).row.problems.len() == 0,
    decreases sections.len(),
{
    if sections.len() > 0 {
        let before = sections.drop_last();
        lemma_section_problems(before);
        if section_problems(sections) == 0 {
            assert forall|i: int| 0 <= i < sections.len() implies (
            #[trigger] sections[i]).row.problems.len() == 0 by {
                if i < before.len() {
                    assert(before[i] == sections[i]);
                }
            }
        } else if forall|i: int|
            0 <= i < sections.len() ==> (#[trigger] sections[i]).row.problems.len() == 0 {
            assert forall|i: int| 0 <= i < before.len() implies (
            #[trigger] before[i]).row.problems.len() == 0 by {
                assert(before[i] == sections[i]);
            }
            assert(sections[sections.len() - 1].row.problems.len() == 0);
        }
    }
}

/// A run succeeds exactly when there is no problem of any sort: no unfinished pull, nothing
/// wrong with a subrepo, no import that nothing explains. Otherwise it exits with code 1. Notes
/// never change the outcome.
pub proof fn law_only_problems_fail_a_run(
    json: bool,
    pull_in_progress: Option<PullInProgressView>,
    sections: Seq<SectionView>,
    findings: OriginFindingsView,
)
    ensures
        ({
            let run = finish(json, pull_in_progress, sections, findings);
            let clean = pull_in_progress is None && findings.orphans.len() == 0 && forall|i: int|
                0 <= i < sections.len() ==> (#[trigger] sections[i]).row.problems.len() == 0;
            &&& run.report.ok <==> clean
            &&& run.report.ok <==> run.report.problems == 0
            &&& run.failure is None <==> clean
            &&& run.failure matches Some(failure) ==> failure.exit_code == 1
            &&& run.report.monorepo.problems.len() == findings.orphans.len()
        }),
{
    lemma_section_problems(sections);
}

/// `--json` changes what is printed and nothing else: report and outcome are the same, and no
/// line of the human report comes with it.
pub proof fn law_json_changes_only_the_printing(
    pull_in_progress: Option<PullInProgressView>,
    sections: Seq<SectionView>,
    findings: OriginFindingsView,
)
    ensures
        ({
            let human = finish(false, pull_in_progress, sections, findings);
            let machine = finish(true, pull_in_progress, sections, findings);
            &&& machine.report == human.report
            &&& machine.failure == human.failure
            &&& machine.lines.len() == 0
        }),
{
}

/// A superseded anchor is a note: reporting it adds no problem.
pub proof fn law_a_superseded_anchor_is_no_problem(section: SectionView, view: SyncViewValue)
    ensures
        superseded_section(section, view).row.problems == section.row.problems,
        view.superseded_source_refs.len() > 0 ==> superseded_section(section, view).row.notes.len()
            == section.row.notes.len() + 1,
{
}

/// Every broken reference is a problem of its own.
pub proof fn law_each_broken_reference_is_a_problem(
    section: SectionView,
    broken: Seq<SourceRefView>,
)
    ensures
        broken_section(section, broken).row.problems.len() == section.row.problems.len()
            + broken.len(),
        broken_section(section, broken).row.notes == section.row.notes,
    decreases broken.len(),
{
    if broken.len() > 0 {
        law_each_broken_reference_is_a_problem(section, broken.drop_last());
    }
}

/// A rewritten anchor is a note where content can derive it again, and a problem where it
/// cannot.
pub proof fn law_a_recoverable_anchor_is_a_note(
    section: SectionView,
    subrepo: ResolvedSubrepoView,
    missing: Text,
    recovery: Option<AnchorRecoveryView>,
)
    ensures
        ({
            let after = rewritten_section(section, subrepo, missing, recovery);
            &&& recovery is Some ==> after.row.problems == section.row.problems
                && after.row.notes.len() == section.row.notes.len() + 1
            &&& recovery is None ==> after.row.notes == section.row.notes
                && after.row.problems.len() == section.row.problems.len() + 1
        }),
{
}

// --- imports that no remote has ---

proof fn lemma_orphans(imported: Seq<Text>, fetched: Seq<Text>, sha: Text)
    ensures
        orphans(imported, fetched).contains(sha) <==> imported.contains(sha) && !fetched.contains(
            sha,
        ),
        orphans(imported, fetched).no_duplicates(),
{
    let kept = imported.filter(|sha: Text| !fetched.contains(sha));
    let lost = distinct(kept);
    lemma_filter_contains(imported, |sha: Text| !fetched.contains(sha), sha);
    lemma_distinct(kept);
    lemma_in_order(lost, lost);
    broadcast use vstd::seq_lib::group_to_multiset_ensures;

    assert(in_order(lost).contains(sha) <==> in_order(lost).to_multiset().count(sha) > 0);
    assert(lost.contains(sha) <==> lost.to_multiset().count(sha) > 0);
    lost.lemma_multiset_has_no_duplicates();
    in_order(lost).lemma_multiset_has_no_duplicates_conv();
}

/// Every import that no remote has is reported, once, as an unexplained one or as a settled one
/// and never as both; an import that some remote has is not reported at all.
pub proof fn law_every_orphan_is_a_problem_or_settled(
    imported: Seq<Text>,
    fetched: Seq<Text>,
    origin_by_mono: Seq<(Text, Seq<Text>)>,
    verdicts: Seq<bool>,
    sha: Text,
)
    ensures
        ({
            let lost = orphans(imported, fetched);
            let orphaned = imported.contains(sha) && !fetched.contains(sha);
            let fossils = origin_fossils(lost, origin_by_mono, verdicts);
            let unexplained = lost.filter(|sha: Text| !is_fossil(sha, origin_by_mono, verdicts));
            &&& origin_problems(lost, origin_by_mono, verdicts) == unexplained.map_values(
                |sha: Text| orphan_finding(sha),
            )
            &&& fossils.contains(sha) || unexplained.contains(sha) <==> orphaned
            &&& !(fossils.contains(sha) && unexplained.contains(sha))
            &&& fossils.contains(sha) <==> orphaned && is_fossil(sha, origin_by_mono, verdicts)
            &&& lost.no_duplicates()
            &&& fossils.len() + unexplained.len() == lost.len()
        }),
{
    let lost = orphans(imported, fetched);
    lemma_orphans(imported, fetched, sha);
    lemma_filter_contains(lost, |sha: Text| is_fossil(sha, origin_by_mono, verdicts), sha);
    lemma_filter_contains(lost, |sha: Text| !is_fossil(sha, origin_by_mono, verdicts), sha);
    lemma_filter_parts(
        lost,
        |sha: Text| is_fossil(sha, origin_by_mono, verdicts),
        |sha: Text| !is_fossil(sha, origin_by_mono, verdicts),
    );
}

proof fn lemma_filter_parts<T>(s: Seq<T>, keep: spec_fn(T) -> bool, drop: spec_fn(T) -> bool)
    requires
        forall|x: T| #[trigger] keep(x) == !drop(x),
    ensures
        s.filter(keep).len() + s.filter(drop).len() == s.len(),
    decreases s.len(),
{
    reveal(Seq::filter);
    if s.len() > 0 {
        lemma_filter_parts(s.drop_last(), keep, drop);
        assert(keep(s.last()) == !drop(s.last()));
    }
}

proof fn lemma_filter_less<T>(s: Seq<T>, fewer: spec_fn(T) -> bool, more: spec_fn(T) -> bool)
    requires
        forall|x: T| #[trigger] fewer(x) ==> more(x),
    ensures
        s.filter(fewer).len() <= s.filter(more).len(),
    decreases s.len(),
{
    reveal(Seq::filter);
    if s.len() > 0 {
        lemma_filter_less(s.drop_last(), fewer, more);
        assert(fewer(s.last()) ==> more(s.last()));
    }
}

/// Settling more adds no problem: an import that is settled stays so when further monorepo
/// commits are settled, and no more imports are left unexplained.
pub proof fn law_settling_more_adds_no_problem(
    survey: SurveyView,
    settled: Seq<Text>,
    more: Seq<Text>,
    live_anchor: Option<Text>,
    sha: Text,
)
    requires
        forall|mono_sha: Text| #[trigger] settled.contains(mono_sha) ==> more.contains(mono_sha),
    ensures
        is_fossil(sha, survey.origin_by_mono, verdicts_by(survey.origin_by_mono, settled))
            ==> is_fossil(sha, survey.origin_by_mono, verdicts_by(survey.origin_by_mono, more)),
        origin_findings(survey, more, live_anchor).orphans.len() <= origin_findings(
            survey,
            settled,
            live_anchor,
        ).orphans.len(),
{
    let carriers = survey.origin_by_mono;
    let before = verdicts_by(carriers, settled);
    let after = verdicts_by(carriers, more);
    assert forall|sha: Text| #[trigger] is_fossil(sha, carriers, before) implies is_fossil(
        sha,
        carriers,
        after,
    ) by {
        assert forall|i: int|
            0 <= i < carriers.len() && (#[trigger] carriers[i]).1.contains(
                sha,
            ) implies after[i] by {
            assert(before[i]);
            assert(settled.contains(carriers[i].0));
        }
    }
    lemma_filter_less(
        orphans(survey.imported_pub_shas, survey.fetched_pub_shas),
        |sha: Text| !is_fossil(sha, carriers, after),
        |sha: Text| !is_fossil(sha, carriers, before),
    );
}

/// An import that no commit of the walk carries can never be settled: there is nothing to place.
pub proof fn law_an_unplaced_orphan_is_never_settled(
    sha: Text,
    origin_by_mono: Seq<(Text, Seq<Text>)>,
    verdicts: Seq<bool>,
)
    requires
        forall|i: int|
            0 <= i < origin_by_mono.len() ==> !(#[trigger] origin_by_mono[i]).1.contains(sha),
    ensures
        !is_fossil(sha, origin_by_mono, verdicts),
{
}

/// Where a subrepo has no live anchor, or none has, nothing is settled: every import that no
/// remote has is a problem. That is what pointing at the wrong remote looks like.
pub proof fn law_without_anchors_every_orphan_is_a_problem(
    survey: SurveyView,
    live_anchor: Option<Text>,
    log: Seq<ReplyView>,
    at: int,
)
    requires
        !survey.every_subrepo_anchored || survey.live_anchors.len() == 0,
    ensures
        settled_step(survey, log, at) == Step::<Seq<Text>>::Done(Seq::empty(), at),
        ({
            let lost = orphans(survey.imported_pub_shas, survey.fetched_pub_shas);
            let findings = origin_findings(survey, Seq::empty(), live_anchor);
            &&& findings.fossils.len() == 0
            &&& findings.orphans.len() == lost.len()
        }),
{
    let lost = orphans(survey.imported_pub_shas, survey.fetched_pub_shas);
    let verdicts = verdicts_by(survey.origin_by_mono, Seq::empty());
    assert forall|sha: Text| !#[trigger] is_fossil(sha, survey.origin_by_mono, verdicts) by {
        if is_fossil(sha, survey.origin_by_mono, verdicts) {
            let i = choose|i: int|
                0 <= i < survey.origin_by_mono.len() && (
                #[trigger] survey.origin_by_mono[i]).1.contains(sha);
            assert(verdicts[i] == Seq::<Text>::empty().contains(survey.origin_by_mono[i].0));
        }
    }
    lemma_filter_none(lost, |sha: Text| is_fossil(sha, survey.origin_by_mono, verdicts));
    lemma_filter_every(lost, |sha: Text| !is_fossil(sha, survey.origin_by_mono, verdicts));
}

proof fn lemma_filter_none<T>(s: Seq<T>, keep: spec_fn(T) -> bool)
    requires
        forall|x: T| !#[trigger] keep(x),
    ensures
        s.filter(keep).len() == 0,
    decreases s.len(),
{
    reveal(Seq::filter);
    if s.len() > 0 {
        lemma_filter_none(s.drop_last(), keep);
    }
}

proof fn lemma_filter_every<T>(s: Seq<T>, keep: spec_fn(T) -> bool)
    requires
        forall|x: T| #[trigger] keep(x),
    ensures
        s.filter(keep).len() == s.len(),
    decreases s.len(),
{
    reveal(Seq::filter);
    if s.len() > 0 {
        lemma_filter_every(s.drop_last(), keep);
    }
}

proof fn lemma_below_all(
    mono_sha: Text,
    anchors: Seq<Text>,
    j: int,
    log: Seq<ReplyView>,
    at: int,
)
    requires
        0 <= j,
    ensures
        below_all_step(mono_sha, anchors, j, log, at) matches Step::Done(true, end) ==> end == at
            + (if j < anchors.len() {
            anchors.len() - j
        } else {
            0
        }) && forall|k: int|
            j <= k < anchors.len() ==> #[trigger] flag_at(log, at + k - j) == Some(true),
    decreases anchors.len() - j,
{
    if j < anchors.len() {
        lemma_below_all(mono_sha, anchors, j + 1, log, at + 1);
        match below_all_step(mono_sha, anchors, j, log, at) {
            Step::Done(true, end) => {
                assert forall|k: int| j <= k < anchors.len() implies #[trigger] flag_at(
                    log,
                    at + k - j,
                ) == Some(true) by {
                    if k > j {
                        assert(at + 1 + k - (j + 1) == at + k - j);
                        assert(flag_at(log, at + 1 + k - (j + 1)) == Some(true));
                    }
                }
            },
            _ => {},
        }
    }
}

proof fn lemma_settled_are_carriers(
    origin_by_mono: Seq<(Text, Seq<Text>)>,
    lost: Seq<Text>,
    anchors: Seq<Text>,
    i: int,
    settled: Seq<Text>,
    log: Seq<ReplyView>,
    at: int,
    sha: Text,
)
    requires
        0 <= i,
    ensures
        settle_rest_step(
            origin_by_mono,
            lost,
            anchors,
            i,
            settled,
            log,
            at,
        ) matches Step::Done(all, _) ==> all.contains(sha) && !settled.contains(sha) ==> exists|
            k: int,
            p: int,
        |
            i <= k < origin_by_mono.len() && origin_by_mono[k].0 == sha && (
            #[trigger] below_all_step(
                origin_by_mono[k].0,
                anchors,
                0,
                log,
                p,
            )) matches Step::Done(true, _),
    decreases origin_by_mono.len() - i,
{
    if i < origin_by_mono.len() {
        if carries(origin_by_mono[i].1, lost) {
            match below_all_step(origin_by_mono[i].0, anchors, 0, log, at) {
                Step::Done(below, next) => {
                    let more = if below {
                        settled.push(origin_by_mono[i].0)
                    } else {
                        settled
                    };
                    lemma_settled_are_carriers(
                        origin_by_mono,
                        lost,
                        anchors,
                        i + 1,
                        more,
                        log,
                        next,
                        sha,
                    );
                    crate::index::lemma_contains_push(settled, origin_by_mono[i].0);
                },
                _ => {},
            }
        } else {
            lemma_settled_are_carriers(
                origin_by_mono,
                lost,
                anchors,
                i + 1,
                settled,
                log,
                at,
                sha,
            );
        }
    }
}

/// A commit is settled only below every live anchor: git was asked about it and each of the
/// anchors, and said yes every time. `p` is where those replies begin.
pub proof fn law_settled_means_below_every_anchor(
    survey: SurveyView,
    log: Seq<ReplyView>,
    at: int,
    mono_sha: Text,
) -> (p: int)
    requires
        settled_step(survey, log, at) matches Step::Done(settled, _) && settled.contains(mono_sha),
    ensures
        survey.every_subrepo_anchored,
        survey.live_anchors.len() > 0,
        forall|k: int|
            0 <= k < survey.live_anchors.len() ==> #[trigger] flag_at(log, p + k) == Some(true),
        below_all_step(mono_sha, survey.live_anchors, 0, log, p) matches Step::Done(true, _),
{
    let lost = orphans(survey.imported_pub_shas, survey.fetched_pub_shas);
    lemma_settled_are_carriers(
        survey.origin_by_mono,
        lost,
        survey.live_anchors,
        0,
        Seq::empty(),
        log,
        at,
        mono_sha,
    );
    let (k, p) = choose|k: int, p: int|
        0 <= k < survey.origin_by_mono.len() && survey.origin_by_mono[k].0 == mono_sha && (
        #[trigger] below_all_step(
            survey.origin_by_mono[k].0,
            survey.live_anchors,
            0,
            log,
            p,
        )) matches Step::Done(true, _);
    lemma_below_all(mono_sha, survey.live_anchors, 0, log, p);
    assert forall|k: int| 0 <= k < survey.live_anchors.len() implies #[trigger] flag_at(
        log,
        p + k,
    ) == Some(true) by {
        assert(p + k - 0 == p + k);
        assert(flag_at(log, p + k - 0) == Some(true));
    }
    p
}

/// With one subrepo named, nothing is said of monorepo history: its imports may belong to any of
/// the others.
pub proof fn law_a_single_subrepo_says_nothing_of_the_monorepo(
    survey: SurveyView,
    only: Text,
    log: Seq<ReplyView>,
    at: int,
)
    ensures
        examine_origins_step(survey, Some(only), log, at) matches Step::Done(findings, _)
            && findings.orphans.len() == 0 && findings.fossils.len() == 0,
{
}

} // verus!
