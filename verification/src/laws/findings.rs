//! How findings read: every finding is shown and counted, and names what it is about.

use vstd::prelude::*;
use vstd::string::*;
use crate::config::ResolvedSubrepoView;
use crate::doctor::{
    counted_section, finish, fossil_finding, header_lines, last_exported_section, orphan_finding,
    pull_lines, report_counts_step, report_fork_step, rewritten_section, sections_lines,
    seeded_section, superseded_section, unpublished_section, unreachable_section,
    verify_mapping_step, OriginFindingsView, PullInProgressView, SectionView,
    report_rewritten_anchor_step, findings_lines, FindingView,
};
use crate::exporter::{
    compute_exports_step, plan_export_step, AnchorRecoveryView, find_anchor_recovery_step,
};
use crate::laws::vocabulary::pulled_from;
use crate::laws::wording::{lemma_mentions, mentions};
use crate::sync_view::{try_load_fork_state_step, SyncViewValue};
use crate::talk::{ReplyView, Step};
use crate::text::{decimal_text, Text};

verus! {

/// A problem is shown and counted: its headline joins the row's problems and, behind its mark,
/// the lines, with every detail under it, set in. A note is too, among the notes and behind
/// another mark. Nothing else of the row changes.
pub proof fn law_a_finding_is_shown_and_counted(
    section: SectionView,
    headline: Text,
    detail: Seq<Text>,
    i: int,
)
    ensures
        ({
            let n = section.lines.len() as int;
            let problem = section.problem(headline, detail);
            let note = section.note(headline, detail);
            &&& problem.row.problems == section.row.problems.push(headline)
            &&& problem.row.notes == section.row.notes
            &&& note.row.notes == section.row.notes.push(headline)
            &&& note.row.problems == section.row.problems
            &&& problem.lines.len() == n + 1 + detail.len()
            &&& note.lines.len() == n + 1 + detail.len()
            &&& problem.lines[n] == "  "@ + "✗"@ + " "@ + headline
            &&& note.lines[n] == "  "@ + "!"@ + " "@ + headline
            &&& 0 <= i < detail.len() ==> problem.lines[n + 1 + i] == "    "@ + detail[i]
                && note.lines[n + 1 + i] == "    "@ + detail[i]
            &&& 0 <= i < n ==> problem.lines[i] == section.lines[i] && note.lines[i]
                == section.lines[i]
        }),
{
}

/// A subrepo is introduced by its name and its path, and by the repository and the branch that it
/// is pulled from; a fork with its own repository and branch.
pub proof fn law_a_header_names_both_ends(subrepo: ResolvedSubrepoView)
    ensures
        ({
            let lines = header_lines(subrepo);
            &&& lines[0] == subrepo.name
            &&& mentions(lines[1], subrepo.path + "/"@)
            &&& mentions(lines[2], pulled_from(subrepo) + " ("@ + subrepo.branch + ")"@)
            &&& subrepo.upstream is None ==> lines.len() == 3
            &&& subrepo.upstream is Some ==> lines.len() == 4 && mentions(
                lines[3],
                subrepo.remote + " ("@ + subrepo.push_branch + ")"@,
            )
        }),
{
    let lines = header_lines(subrepo);
    let none = Seq::<char>::empty();
    lemma_mentions(lines[1], "  path:          "@, subrepo.path + "/"@, none);
    let source = pulled_from(subrepo) + " ("@ + subrepo.branch + ")"@;
    if subrepo.upstream is Some {
        lemma_mentions(lines[2], "  upstream:      "@, source, none);
        let fork = subrepo.remote + " ("@ + subrepo.push_branch + ")"@;
        lemma_mentions(lines[3], "  fork:          "@, fork, none);
    } else {
        lemma_mentions(lines[2], "  remote:        "@, source, none);
    }
}

/// A source that cannot be reached, or that has no such branch, is named in the problem.
pub proof fn law_a_missing_source_is_named(
    section: SectionView,
    subrepo: ResolvedSubrepoView,
    message: Text,
)
    ensures
        mentions(
            unreachable_section(section, subrepo, message).row.problems.last(),
            pulled_from(subrepo),
        ),
        !unreachable_section(section, subrepo, message).row.reachable,
        mentions(
            unpublished_section(section, subrepo).row.problems.last(),
            pulled_from(subrepo) + " has no "@ + subrepo.branch + " branch."@,
        ),
        unreachable_section(section, subrepo, message).row.problems.len()
            == section.row.problems.len() + 1,
        unpublished_section(section, subrepo).row.problems.len() == section.row.problems.len() + 1,
{
    let kind = if subrepo.upstream is Some {
        "upstream "@
    } else {
        ""@
    };
    lemma_mentions(
        unreachable_section(section, subrepo, message).row.problems.last(),
        "cannot reach "@ + kind,
        pulled_from(subrepo),
        Seq::empty(),
    );
    lemma_mentions(
        unpublished_section(section, subrepo).row.problems.last(),
        "not published yet — "@,
        pulled_from(subrepo) + " has no "@ + subrepo.branch + " branch."@,
        Seq::empty(),
    );
}

/// What was found is shown: the head of the public branch, the last export with the public commit
/// that stands for it, and the counts.
pub proof fn law_what_was_found_is_shown(
    section: SectionView,
    subrepo: ResolvedSubrepoView,
    view: SyncViewValue,
    head: Text,
    ahead: nat,
    behind: nat,
)
    ensures
        mentions(seeded_section(section, subrepo, head).lines.last(), " "@ + head),
        ({
            let shown = last_exported_section(section, view);
            match view.last_exported_mono {
                Some(last) => shown.lines.len() == section.lines.len() + 2 && mentions(
                    shown.lines[section.lines.len() as int],
                    "mono "@ + last,
                ) && (view.exported_mono_to_pub.contains_key(last) ==> mentions(
                    shown.lines.last(),
                    view.exported_mono_to_pub[last],
                )),
                None => shown.lines.len() == section.lines.len() + 1,
            }
        }),
        ({
            let counted = counted_section(section, ahead, behind);
            &&& counted.row.ahead == Some(ahead as usize)
            &&& counted.row.behind == Some(behind as usize)
            &&& counted.lines.last() == "  to push: "@ + decimal_text(ahead) + ", to pull: "@
                + decimal_text(behind)
            &&& counted.row.problems == section.row.problems
            &&& counted.row.notes == section.row.notes
        }),
{
    let none = Seq::<char>::empty();
    let kind = if subrepo.upstream is Some {
        "upstream head:"@
    } else {
        "pub head:     "@
    };
    lemma_mentions(
        seeded_section(section, subrepo, head).lines.last(),
        "  "@ + kind,
        " "@ + head,
        none,
    );
    if let Some(last) = view.last_exported_mono {
        let shown = last_exported_section(section, view);
        let line = shown.lines[section.lines.len() as int];
        reveal_strlit("  last exported: mono ");
        reveal_strlit("  last exported: ");
        reveal_strlit("mono ");
        assert("  last exported: mono "@ =~= "  last exported: "@ + "mono "@);
        lemma_mentions(line, "  last exported: "@, "mono "@ + last, none);
        if view.exported_mono_to_pub.contains_key(last) {
            lemma_mentions(
                shown.lines.last(),
                "                 pub  "@,
                view.exported_mono_to_pub[last],
                none,
            );
        }
    }
}

/// A fork that cannot be reached is named in the problem, and a fork head is shown.
pub proof fn law_a_fork_is_named(
    section: SectionView,
    subrepo: ResolvedSubrepoView,
    log: Seq<ReplyView>,
    at: int,
)
    ensures
        match try_load_fork_state_step(subrepo, false, log, at) {
            Step::Done((_, Some(_)), _) => report_fork_step(
                section,
                subrepo,
                log,
                at,
            ) matches Step::Done(after, _) && mentions(after.row.problems.last(), subrepo.remote),
            Step::Done((Some(state), None), _) => report_fork_step(
                section,
                subrepo,
                log,
                at,
            ) matches Step::Done(after, _) && match state.head {
                Some(head) => mentions(after.lines.last(), head) && after.row.fork_head == Some(
                    head,
                ),
                None => mentions(after.lines.last(), "(no "@ + subrepo.push_branch) && after.row
                    == section.row,
            },
            _ => true,
        },
{
    match try_load_fork_state_step(subrepo, false, log, at) {
        Step::Done((state, failed), _) => match report_fork_step(section, subrepo, log, at) {
            Step::Done(after, _) => {
                let none = Seq::<char>::empty();
                if failed is Some {
                    lemma_mentions(
                        after.row.problems.last(),
                        "cannot reach fork remote "@,
                        subrepo.remote,
                        none,
                    );
                } else if let Some(state) = state {
                    match state.head {
                        Some(head) => {
                            lemma_mentions(after.lines.last(), "  fork head:     "@, head, none);
                        },
                        None => {
                            reveal_strlit("  fork head:     (no ");
                            reveal_strlit("  fork head:     ");
                            reveal_strlit("(no ");
                            assert("  fork head:     (no "@ =~= "  fork head:     "@ + "(no "@);
                            lemma_mentions(
                                after.lines.last(),
                                "  fork head:     "@,
                                "(no "@ + subrepo.push_branch,
                                " branch yet)"@,
                            );
                        },
                    }
                }
            },
            _ => {},
        },
        _ => {},
    }
}

/// A hook that rejects a pending commit is told as it is, and the candidates are counted in place
/// of the plan that cannot be made.
pub proof fn law_a_rejected_commit_is_reported(
    section: SectionView,
    subrepo: ResolvedSubrepoView,
    view: SyncViewValue,
    log: Seq<ReplyView>,
    at: int,
)
    ensures
        plan_export_step(subrepo, view, log, at) matches Step::Done(Ok(candidates), p) ==> (
        compute_exports_step(subrepo, view.pub_head, candidates, log, p) matches Step::Done(
            Err(err),
            _,
        ) ==> (report_counts_step(section, subrepo, view, log, at) matches Step::Done(Ok(after), _)
            && {
            &&& after.row.ahead == Some(candidates.len() as usize)
            &&& after.row.behind == Some(view.unreflected_pub.len() as usize)
            &&& after.row.problems.len() == section.row.problems.len() + 1
            &&& mentions(after.row.problems.last(), err.text())
        })),
        plan_export_step(subrepo, view, log, at) matches Step::Done(Err(err), _) ==> (
        report_counts_step(section, subrepo, view, log, at) matches Step::Done(Err(failure), _)
            && failure.message == err.text() && failure.exit_code == 2),
{
    match plan_export_step(subrepo, view, log, at) {
        Step::Done(Ok(candidates), p) => match compute_exports_step(
            subrepo,
            view.pub_head,
            candidates,
            log,
            p,
        ) {
            Step::Done(Err(err), _) => match report_counts_step(section, subrepo, view, log, at) {
                Step::Done(Ok(after), _) => {
                    lemma_mentions(
                        after.row.problems.last(),
                        "a configured hook rejects a pending commit: "@,
                        err.text(),
                        Seq::empty(),
                    );
                },
                _ => {},
            },
            _ => {},
        },
        _ => {},
    }
}

/// Superseded references are one note, which counts them and names the anchor that settled them;
/// and each of them has its line, oldest first.
pub proof fn law_superseded_references_are_counted(
    section: SectionView,
    view: SyncViewValue,
    i: int,
)
    requires
        view.superseded_source_refs.len() > 0,
        0 <= i < view.superseded_source_refs.len(),
    ensures
        ({
            let after = superseded_section(section, view);
            let n = section.lines.len() as int;
            let refs = view.superseded_source_refs;
            let dead = refs[refs.len() - 1 - i];
            &&& after.row.problems == section.row.problems
            &&& after.row.notes.len() == section.row.notes.len() + 1
            &&& mentions(after.row.notes.last(), decimal_text(refs.len()))
            &&& view.last_exported_mono matches Some(live) ==> mentions(
                after.row.notes.last(),
                live,
            )
            &&& after.lines.len() > n + 1 + i
            &&& mentions(
                after.lines[n + 1 + i],
                "standalone commit "@ + dead.pub_sha + " names "@ + dead.mono_sha,
            )
        }),
{
    let after = superseded_section(section, view);
    let n = section.lines.len() as int;
    let refs = view.superseded_source_refs;
    let dead = refs[refs.len() - 1 - i];
    let note = after.row.notes.last();
    let live = match view.last_exported_mono {
        Some(live) => live,
        None => "undefined"@,
    };
    let words = " historical anchor(s) unresolvable — superseded by live anchor at "@;
    lemma_mentions(note, "informational: "@, decimal_text(refs.len()), words + live + "."@);
    lemma_mentions(note, "informational: "@ + decimal_text(refs.len()) + words, live, "."@);
    let line = "standalone commit "@ + dead.pub_sha + " names "@ + dead.mono_sha;
    assert(refs.reverse()[i] == dead);
    lemma_mentions(
        after.lines[n + 1 + i],
        "    "@,
        line,
        " ("@ + "Monosplice-Source"@ + "), which this clone does not have."@,
    );
}

/// A rewritten anchor is named, and where content can derive it again, so is the commit that takes
/// its place.
pub proof fn law_a_rewritten_anchor_is_reported(
    section: SectionView,
    subrepo: ResolvedSubrepoView,
    missing: Text,
    recovery: AnchorRecoveryView,
)
    ensures
        mentions(
            rewritten_section(section, subrepo, missing, None).row.problems.last(),
            "the last exported monorepo commit "@ + missing
                + " is no longer an ancestor of HEAD"@,
        ),
        mentions(
            rewritten_section(section, subrepo, missing, Some(recovery)).row.notes.last(),
            "the last exported monorepo commit "@ + missing
                + " is no longer an ancestor of HEAD"@,
        ),
        mentions(
            rewritten_section(section, subrepo, missing, Some(recovery)).row.notes.last(),
            "recoverable via identical tree at "@ + recovery.recovered,
        ),
{
    let said = "the last exported monorepo commit "@ + missing
        + " is no longer an ancestor of HEAD"@;
    reveal_strlit(" is no longer an ancestor of HEAD.");
    reveal_strlit(" is no longer an ancestor of HEAD");
    reveal_strlit(".");
    assert(" is no longer an ancestor of HEAD."@ =~= " is no longer an ancestor of HEAD"@ + "."@);
    lemma_mentions(
        rewritten_section(section, subrepo, missing, None).row.problems.last(),
        Seq::empty(),
        said,
        "."@,
    );
    let note = rewritten_section(section, subrepo, missing, Some(recovery)).row.notes.last();
    let way = "recoverable via identical tree at "@;
    let whole =
        " is no longer an ancestor of HEAD — anchor missing; recoverable via identical tree at "@;
    let mid = " — anchor missing; "@;
    reveal_strlit("recoverable via identical tree at ");
    reveal_strlit(
        " is no longer an ancestor of HEAD — anchor missing; recoverable via identical tree at ",
    );
    reveal_strlit(" — anchor missing; ");
    assert(whole =~= " is no longer an ancestor of HEAD"@ + mid + way);
    lemma_mentions(note, Seq::empty(), said, mid + way + recovery.recovered + "."@);
    lemma_mentions(note, said + mid, way + recovery.recovered, "."@);
}

/// The anchor that is reported is the view's last export: as a note where a recovery finds a commit
/// to take its place, and as a problem where none does or the recovery fails.
pub proof fn law_the_lost_anchor_is_the_last_export(
    section: SectionView,
    subrepo: ResolvedSubrepoView,
    view: SyncViewValue,
    log: Seq<ReplyView>,
    at: int,
)
    ensures
        view.last_exported_mono matches Some(last) ==> match find_anchor_recovery_step(
            subrepo,
            view,
            log,
            at,
        ) {
            Step::Ask(request) => report_rewritten_anchor_step(
                section,
                subrepo,
                view,
                log,
                at,
            ) matches Step::Ask(asked) && asked == request,
            Step::Done(Ok(Some(recovery)), end) => report_rewritten_anchor_step(
                section,
                subrepo,
                view,
                log,
                at,
            ) matches Step::Done(after, p) && p == end && after.row.problems
                == section.row.problems && mentions(
                after.row.notes.last(),
                "the last exported monorepo commit "@ + last
                    + " is no longer an ancestor of HEAD"@,
            ) && mentions(
                after.row.notes.last(),
                "recoverable via identical tree at "@ + recovery.recovered,
            ),
            Step::Done(_, end) => report_rewritten_anchor_step(
                section,
                subrepo,
                view,
                log,
                at,
            ) matches Step::Done(after, p) && p == end && after.row.notes == section.row.notes
                && after.row.problems.len() == section.row.problems.len() + 1 && mentions(
                after.row.problems.last(),
                "the last exported monorepo commit "@ + last
                    + " is no longer an ancestor of HEAD"@,
            ),
        },
{
    match (view.last_exported_mono, find_anchor_recovery_step(subrepo, view, log, at)) {
        (Some(last), Step::Done(Ok(Some(recovery)), _)) => {
            law_a_rewritten_anchor_is_reported(section, subrepo, last, recovery);
        },
        (Some(last), Step::Done(_, _)) => {
            let none = AnchorRecoveryView {
                missing: last,
                recovered: last,
                pub_sha: last,
                also_matching: 0,
            };
            law_a_rewritten_anchor_is_reported(section, subrepo, last, none);
        },
        _ => {},
    }
}

/// A last export whose tree is not what its commit publishes today is named, both commits.
pub proof fn law_a_changed_export_is_named(
    section: SectionView,
    subrepo: ResolvedSubrepoView,
    view: SyncViewValue,
    log: Seq<ReplyView>,
    at: int,
)
    ensures
        verify_mapping_step(section, subrepo, view, log, at) matches Step::Done(after, _)
            ==> after.row.notes.len() > section.row.notes.len() ==> {
            &&& view.last_exported_mono matches Some(last)
            &&& mentions(after.row.notes.last(), "commit "@ + view.exported_mono_to_pub[last])
            &&& mentions(after.row.notes.last(), "would export from "@ + last)
        },
{
    match verify_mapping_step(section, subrepo, view, log, at) {
        Step::Done(after, _) => {
            if after.row.notes.len() > section.row.notes.len() {
                let last = view.last_exported_mono->0;
                let pub_sha = view.exported_mono_to_pub[last];
                let note = after.row.notes.last();
                let whole = " does not match the subtree monosplice would export from "@;
                let mid = " does not match the subtree monosplice "@;
                let way = "would export from "@;
                reveal_strlit(" does not match the subtree monosplice would export from ");
                reveal_strlit(" does not match the subtree monosplice ");
                reveal_strlit("would export from ");
                assert(whole =~= mid + way);
                lemma_mentions(
                    note,
                    Seq::empty(),
                    "commit "@ + pub_sha,
                    mid + way + last + " today."@,
                );
                lemma_mentions(note, "commit "@ + pub_sha + mid, way + last, " today."@);
            }
        },
        _ => {},
    }
}

// --- monorepo history ---

/// An import that nothing explains is named; settled imports are counted together, each of them
/// has its line, and the anchor that settled them is named.
pub proof fn law_an_import_is_named(
    sha: Text,
    fossils: Seq<Text>,
    live_anchor: Text,
    i: int,
)
    ensures
        mentions(orphan_finding(sha).headline, "imported commit "@ + sha),
        mentions(
            fossil_finding(fossils, Some(live_anchor)).headline,
            decimal_text(fossils.len()),
        ),
        mentions(fossil_finding(fossils, Some(live_anchor)).headline, live_anchor),
        0 <= i < fossils.len() ==> mentions(
            fossil_finding(fossils, Some(live_anchor)).detail[i],
            fossils[i],
        ),
{
    let whole = "monorepo history claims to have imported commit "@;
    let head = "monorepo history claims to have "@;
    let way = "imported commit "@;
    reveal_strlit("monorepo history claims to have imported commit ");
    reveal_strlit("monorepo history claims to have ");
    reveal_strlit("imported commit ");
    assert(whole =~= head + way);
    lemma_mentions(
        orphan_finding(sha).headline,
        head,
        way + sha,
        " ("@ + "Monosplice-Origin"@ + "), but no configured remote has it."@,
    );
    let line = fossil_finding(fossils, Some(live_anchor)).headline;
    let words = " historical import trailer(s) unresolvable — superseded by live anchor at "@;
    let count = decimal_text(fossils.len());
    lemma_mentions(line, "informational: "@, count, words + live_anchor + "."@);
    lemma_mentions(line, "informational: "@ + count + words, live_anchor, "."@);
    if 0 <= i < fossils.len() {
        lemma_mentions(
            fossil_finding(fossils, Some(live_anchor)).detail[i],
            way,
            fossils[i],
            " ("@ + "Monosplice-Origin"@ + ") resolves nowhere."@,
        );
    }
}

// --- the printed report ---

proof fn lemma_sections_lines(sections: Seq<SectionView>, i: int, j: int)
    requires
        0 <= i < sections.len(),
        0 <= j < sections[i].lines.len(),
    ensures
        sections_lines(sections).contains(sections[i].lines[j]),
    decreases sections.len(),
{
    let before = sections.drop_last();
    let all = sections_lines(sections);
    if i < before.len() {
        lemma_sections_lines(before, i, j);
        assert(before[i] == sections[i]);
        let k = choose|k: int|
            0 <= k < sections_lines(before).len() && sections_lines(before)[k]
                == sections[i].lines[j];
        assert(all[k] == sections[i].lines[j]);
    } else {
        assert(all[sections_lines(before).len() + j] == sections[i].lines[j]);
    }
}

proof fn lemma_findings_lines(mark: Text, findings: Seq<FindingView>, i: int)
    requires
        0 <= i < findings.len(),
    ensures
        findings_lines(mark, findings).contains("  "@ + mark + " "@ + findings[i].headline),
    decreases findings.len(),
{
    let before = findings.drop_last();
    let all = findings_lines(mark, findings);
    let line = "  "@ + mark + " "@ + findings[i].headline;
    if i < before.len() {
        lemma_findings_lines(mark, before, i);
        assert(before[i] == findings[i]);
        let k = choose|k: int|
            0 <= k < findings_lines(mark, before).len() && findings_lines(mark, before)[k] == line;
        assert(all[k] == line);
    } else {
        assert(all[findings_lines(mark, before).len() as int] == line);
    }
}

/// Every finding about monorepo history is printed, a problem and a note each behind its own mark.
pub proof fn law_every_finding_is_printed(
    pull_in_progress: Option<PullInProgressView>,
    sections: Seq<SectionView>,
    findings: OriginFindingsView,
    i: int,
)
    ensures
        ({
            let run = finish(false, pull_in_progress, sections, findings);
            &&& 0 <= i < findings.orphans.len() ==> run.lines.contains(
                "  "@ + "✗"@ + " "@ + findings.orphans[i].headline,
            )
            &&& 0 <= i < findings.fossils.len() ==> run.lines.contains(
                "  "@ + "!"@ + " "@ + findings.fossils[i].headline,
            )
        }),
{
    let run = finish(false, pull_in_progress, sections, findings);
    let n = pull_lines(pull_in_progress).len() + sections_lines(sections).len() + 1;
    let problems = findings_lines("✗"@, findings.orphans);
    let notes = findings_lines("!"@, findings.fossils);
    if 0 <= i < findings.orphans.len() {
        lemma_findings_lines("✗"@, findings.orphans, i);
        let line = "  "@ + "✗"@ + " "@ + findings.orphans[i].headline;
        let k = choose|k: int| 0 <= k < problems.len() && problems[k] == line;
        assert(run.lines[n + k] == line);
    }
    if 0 <= i < findings.fossils.len() {
        lemma_findings_lines("!"@, findings.fossils, i);
        let line = "  "@ + "!"@ + " "@ + findings.fossils[i].headline;
        let k = choose|k: int| 0 <= k < notes.len() && notes[k] == line;
        assert(run.lines[n + problems.len() + k] == line);
    }
}

/// Every line of every section is printed; an unfinished pull is named first; and a run says that
/// all is well exactly when it is. A run that is not well says how many problems there are.
pub proof fn law_every_section_is_printed(
    pull_in_progress: Option<PullInProgressView>,
    sections: Seq<SectionView>,
    findings: OriginFindingsView,
    i: int,
    j: int,
)
    requires
        0 <= i < sections.len(),
        0 <= j < sections[i].lines.len(),
    ensures
        ({
            let run = finish(false, pull_in_progress, sections, findings);
            &&& run.lines.contains(sections[i].lines[j])
            &&& run.report.ok ==> run.lines.last() == "✓ all checks passed"@
            &&& run.failure is None <==> run.report.ok
            &&& run.failure matches Some(failure) ==> mentions(
                failure.message,
                decimal_text(run.report.problems),
            ) && failure.exit_code == 1
            &&& pull_in_progress matches Some(pull) ==> mentions(
                run.lines[0],
                "an unfinished pull of "@ + pull.subrepo + " is recorded in "@ + pull.state_path,
            )
        }),
{
    let run = finish(false, pull_in_progress, sections, findings);
    lemma_sections_lines(sections, i, j);
    let k = choose|k: int|
        0 <= k < sections_lines(sections).len() && sections_lines(sections)[k]
            == sections[i].lines[j];
    let pulls = pull_lines(pull_in_progress);
    assert(run.lines[pulls.len() + k] == sections[i].lines[j]);
    if let Some(failure) = run.failure {
        lemma_mentions(
            failure.message,
            Seq::empty(),
            decimal_text(run.report.problems),
            " problem(s) found — see the report above."@,
        );
    }
    if let Some(pull) = pull_in_progress {
        assert(run.lines[0] == pulls[0]);
        let whole = "✗ an unfinished pull of "@;
        reveal_strlit("✗ an unfinished pull of ");
        reveal_strlit("✗ ");
        reveal_strlit("an unfinished pull of ");
        assert(whole =~= "✗ "@ + "an unfinished pull of "@);
        lemma_mentions(
            run.lines[0],
            "✗ "@,
            "an unfinished pull of "@ + pull.subrepo + " is recorded in "@ + pull.state_path,
            Seq::empty(),
        );
    }
}

} // verus!
