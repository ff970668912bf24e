//! `doctor`: what is wrong between the monorepo and its standalone repositories.
//!
//! Everything here builds a model and the lines that show it; printing is the caller's. The
//! `--json` report is that model verbatim: every key always present, `null` standing in for
//! "does not apply here", and `problems`/`notes` carrying only the headline of each finding. The
//! detail lines are advice for a terminal, not data.

use vstd::hash_set::StringHashSet;
use vstd::prelude::*;
use vstd::string::*;
use crate::config::{ResolvedSubrepo, ResolvedSubrepoView};
use crate::exporter::{
    ask_is_ancestor, compute_exports, compute_exports_step, export_base_rewritten,
    export_base_rewritten_step, find_anchor_recovery, find_anchor_recovery_step,
    is_ancestor_request, live_export_anchor, live_export_anchor_step, plan_export, plan_export_step,
    AnchorRecoveryView,
};
use crate::filter::{name_subtree, name_subtree_step};
use crate::git::clone_texts;
use crate::index::{distinct, push_distinct, set_of};
use crate::list::{contains_text, extend, lemma_filter_next, lemma_take_next, push};
use crate::report::{Failure, FailureView};
use crate::sync_view::{
    ask_commit_tree, commit_tree_request, is_triangular, load_sync_view, load_sync_view_step,
    pull_source, try_load_fork_state, try_load_fork_state_step, SourceRefView, SyncView,
    SyncViewOptions, SyncViewValue,
};
use crate::talk::{
    flag_at, path_at, project_at, selected_at, sequencer_at, shas_at, step, step_result, text_at,
    ReplyView, Request, RequestView, Step, Talk, Turn,
};
use crate::text::{
    decimal, decimal_text, in_order, lines_of, sort_texts, split_lines, trim_end, trim_end_text,
    Text,
};
use crate::trailers::{ORIGIN_TRAILER, SOURCE_TRAILER};

verus! {

/// What `doctor` was asked.
#[derive(Debug)]
pub struct DoctorArgs {
    /// Only check this subrepo (defaults to all).
    pub subrepo: Option<String>,
    /// Print machine-readable JSON and nothing else.
    pub json: bool,
}

/// The value of a [`DoctorArgs`].
#[verifier::ext_equal]
pub struct DoctorArgsView {
    pub subrepo: Option<Text>,
    pub json: bool,
}

impl DeepView for DoctorArgs {
    type V = DoctorArgsView;

    open spec fn deep_view(&self) -> DoctorArgsView {
        DoctorArgsView {
            subrepo: self.subrepo.deep_view(),
            json: self.json,
        }
    }
}

/// A problem or a note: one headline, plus prose only a human needs.
#[derive(Debug)]
pub struct Finding {
    pub headline: String,
    pub detail: Vec<String>,
}

/// The value of a [`Finding`].
#[verifier::ext_equal]
pub struct FindingView {
    pub headline: Text,
    pub detail: Seq<Text>,
}

impl DeepView for Finding {
    type V = FindingView;

    open spec fn deep_view(&self) -> FindingView {
        FindingView {
            headline: self.headline.deep_view(),
            detail: self.detail.deep_view(),
        }
    }
}

impl Clone for Finding {
    fn clone(&self) -> (out: Self)
        ensures
            out.deep_view() == self.deep_view(),
    {
        Finding {
            headline: self.headline.clone(),
            detail: clone_texts(&self.detail),
        }
    }
}

/// One row of the `--json` report. Field order *is* the contract: the keys are written in
/// declaration order.
#[derive(Debug)]
pub struct DoctorSubrepo {
    pub name: String,
    pub path: String,
    pub remote: String,
    pub branch: String,
    pub upstream: Option<String>,
    pub push_branch: Option<String>,
    /// Could the pull source be reached at all? Everything below is null when it could not.
    pub reachable: bool,
    pub seeded: bool,
    pub pub_head: Option<String>,
    /// Triangular only: head of the branch rebuilt on the fork.
    pub fork_head: Option<String>,
    pub last_exported_mono: Option<String>,
    pub last_exported_pub: Option<String>,
    pub ahead: Option<usize>,
    pub behind: Option<usize>,
    pub problems: Vec<String>,
    pub notes: Vec<String>,
}

/// The value of a [`DoctorSubrepo`].
#[verifier::ext_equal]
pub struct DoctorSubrepoView {
    pub name: Text,
    pub path: Text,
    pub remote: Text,
    pub branch: Text,
    pub upstream: Option<Text>,
    pub push_branch: Option<Text>,
    pub reachable: bool,
    pub seeded: bool,
    pub pub_head: Option<Text>,
    pub fork_head: Option<Text>,
    pub last_exported_mono: Option<Text>,
    pub last_exported_pub: Option<Text>,
    pub ahead: Option<usize>,
    pub behind: Option<usize>,
    pub problems: Seq<Text>,
    pub notes: Seq<Text>,
}

impl DeepView for DoctorSubrepo {
    type V = DoctorSubrepoView;

    open spec fn deep_view(&self) -> DoctorSubrepoView {
        DoctorSubrepoView {
            name: self.name.deep_view(),
            path: self.path.deep_view(),
            remote: self.remote.deep_view(),
            branch: self.branch.deep_view(),
            upstream: self.upstream.deep_view(),
            push_branch: self.push_branch.deep_view(),
            reachable: self.reachable,
            seeded: self.seeded,
            pub_head: self.pub_head.deep_view(),
            fork_head: self.fork_head.deep_view(),
            last_exported_mono: self.last_exported_mono.deep_view(),
            last_exported_pub: self.last_exported_pub.deep_view(),
            ahead: self.ahead,
            behind: self.behind,
            problems: self.problems.deep_view(),
            notes: self.notes.deep_view(),
        }
    }
}

impl Clone for DoctorSubrepo {
    fn clone(&self) -> (out: Self)
        ensures
            out.deep_view() == self.deep_view(),
    {
        DoctorSubrepo {
            name: self.name.clone(),
            path: self.path.clone(),
            remote: self.remote.clone(),
            branch: self.branch.clone(),
            upstream: self.upstream.clone(),
            push_branch: self.push_branch.clone(),
            reachable: self.reachable,
            seeded: self.seeded,
            pub_head: self.pub_head.clone(),
            fork_head: self.fork_head.clone(),
            last_exported_mono: self.last_exported_mono.clone(),
            last_exported_pub: self.last_exported_pub.clone(),
            ahead: self.ahead,
            behind: self.behind,
            problems: clone_texts(&self.problems),
            notes: clone_texts(&self.notes),
        }
    }
}

/// A pull that was interrupted and not finished.
#[derive(Debug)]
pub struct PullInProgress {
    pub subrepo: String,
    pub state_path: String,
}

/// The value of a [`PullInProgress`].
#[verifier::ext_equal]
pub struct PullInProgressView {
    pub subrepo: Text,
    pub state_path: Text,
}

impl DeepView for PullInProgress {
    type V = PullInProgressView;

    open spec fn deep_view(&self) -> PullInProgressView {
        PullInProgressView {
            subrepo: self.subrepo.deep_view(),
            state_path: self.state_path.deep_view(),
        }
    }
}

impl Clone for PullInProgress {
    fn clone(&self) -> (out: Self)
        ensures
            out.deep_view() == self.deep_view(),
    {
        PullInProgress {
            subrepo: self.subrepo.clone(),
            state_path: self.state_path.clone(),
        }
    }
}

/// Findings about monorepo history itself, which belong to no single subrepo.
#[derive(Debug)]
pub struct MonorepoFindings {
    pub problems: Vec<String>,
    /// Findings that do not fail the run: unresolvable import provenance a live anchor has
    /// already settled.
    pub notes: Vec<String>,
}

/// The value of a [`MonorepoFindings`].
#[verifier::ext_equal]
pub struct MonorepoFindingsView {
    pub problems: Seq<Text>,
    pub notes: Seq<Text>,
}

impl DeepView for MonorepoFindings {
    type V = MonorepoFindingsView;

    open spec fn deep_view(&self) -> MonorepoFindingsView {
        MonorepoFindingsView {
            problems: self.problems.deep_view(),
            notes: self.notes.deep_view(),
        }
    }
}

impl Clone for MonorepoFindings {
    fn clone(&self) -> (out: Self)
        ensures
            out.deep_view() == self.deep_view(),
    {
        MonorepoFindings {
            problems: clone_texts(&self.problems),
            notes: clone_texts(&self.notes),
        }
    }
}

/// The whole `--json` report.
#[derive(Debug)]
pub struct DoctorReport {
    pub ok: bool,
    pub problems: usize,
    pub pull_in_progress: Option<PullInProgress>,
    pub subrepos: Vec<DoctorSubrepo>,
    pub monorepo: MonorepoFindings,
}

/// The value of a [`DoctorReport`].
#[verifier::ext_equal]
pub struct DoctorReportView {
    pub ok: bool,
    pub problems: nat,
    pub pull_in_progress: Option<PullInProgressView>,
    pub subrepos: Seq<DoctorSubrepoView>,
    pub monorepo: MonorepoFindingsView,
}

impl DeepView for DoctorReport {
    type V = DoctorReportView;

    open spec fn deep_view(&self) -> DoctorReportView {
        DoctorReportView {
            ok: self.ok,
            problems: self.problems as nat,
            pull_in_progress: self.pull_in_progress.deep_view(),
            subrepos: self.subrepos.deep_view(),
            monorepo: self.monorepo.deep_view(),
        }
    }
}

/// Accumulator for one subrepo while it is being checked. The human report lines are built
/// alongside the row so they keep their interleaved order; the row's own `problems` list is the
/// count of findings, so no second copy is kept.
#[derive(Debug)]
pub struct Section {
    pub row: DoctorSubrepo,
    pub lines: Vec<String>,
}

/// The value of a [`Section`].
#[verifier::ext_equal]
pub struct SectionView {
    pub row: DoctorSubrepoView,
    pub lines: Seq<Text>,
}

impl DeepView for Section {
    type V = SectionView;

    open spec fn deep_view(&self) -> SectionView {
        SectionView {
            row: self.row.deep_view(),
            lines: self.lines.deep_view(),
        }
    }
}

/// Doctor never works offline: a report that guessed would be worse than no report.
fn online() -> (out: SyncViewOptions)
    ensures
        !out.offline,
{
    SyncViewOptions { offline: false }
}

// ---------------------------------------------------------------------------------------
// Findings, and how they are shown.
// ---------------------------------------------------------------------------------------

/// Detail lines, each set in below its headline.
pub open spec fn detail_lines(detail: Seq<Text>) -> Seq<Text> {
    detail.map_values(|line: Text| "    "@ + line)
}

/// A finding as a terminal shows it.
pub open spec fn finding_lines(mark: Text, finding: FindingView) -> Seq<Text> {
    seq!["  "@ + mark + " "@ + finding.headline] + detail_lines(finding.detail)
}

/// A finding as a terminal shows it: the headline with its mark, and the detail below.
pub fn render_finding(mark: &str, finding: &Finding) -> (out: Vec<String>)
    ensures
        out.deep_view() == finding_lines(mark@, finding.deep_view()),
{
    let headline = "  ".to_string().concat(mark).concat(" ").concat(finding.headline.as_str());
    let mut out: Vec<String> = vec![headline];
    let ghost all = finding.detail.deep_view();
    let ghost first = seq![headline@];
    assert(out.deep_view() =~= first + detail_lines(all.take(0)));
    let mut i: usize = 0;
    while i < finding.detail.len()
        invariant
            all == finding.detail.deep_view(),
            i <= finding.detail.len(),
            out.deep_view() == first + detail_lines(all.take(i as int)),
        decreases finding.detail.len() - i,
    {
        push(&mut out, "    ".to_string().concat(finding.detail[i].as_str()));
        proof {
            lemma_take_next(all, i as int);
            assert(out.deep_view() =~= first + detail_lines(all.take(i + 1)));
        }
        i = i + 1;
    }
    assert(all.take(i as int) =~= all);
    out
}

impl SectionView {
    /// The section with one more line.
    pub open spec fn line(self, line: Text) -> SectionView {
        SectionView { lines: self.lines.push(line), ..self }
    }

    /// The section with one more problem.
    pub open spec fn problem(self, headline: Text, detail: Seq<Text>) -> SectionView {
        SectionView {
            row: DoctorSubrepoView { problems: self.row.problems.push(headline), ..self.row },
            lines: self.lines + finding_lines("✗"@, FindingView { headline, detail }),
        }
    }

    /// The section with one more note.
    pub open spec fn note(self, headline: Text, detail: Seq<Text>) -> SectionView {
        SectionView {
            row: DoctorSubrepoView { notes: self.row.notes.push(headline), ..self.row },
            lines: self.lines + finding_lines("!"@, FindingView { headline, detail }),
        }
    }
}

/// Record a problem.
pub fn problem(section: &mut Section, headline: String, detail: Vec<String>)
    ensures
        final(section).deep_view() == old(section).deep_view().problem(
            headline@,
            detail.deep_view(),
        ),
{
    let finding = Finding { headline: headline.clone(), detail };
    push(&mut section.row.problems, headline);
    extend(&mut section.lines, render_finding("✗", &finding));
}

/// Record a note.
pub fn note(section: &mut Section, headline: String, detail: Vec<String>)
    ensures
        final(section).deep_view() == old(section).deep_view().note(headline@, detail.deep_view()),
{
    let finding = Finding { headline: headline.clone(), detail };
    push(&mut section.row.notes, headline);
    extend(&mut section.lines, render_finding("!", &finding));
}

// ---------------------------------------------------------------------------------------
// Checks. Each one appends to the section's model; `lines` is built alongside so the human
// report keeps its interleaved order.
// ---------------------------------------------------------------------------------------

/// What one subrepo contributed to the monorepo-wide checks: the view it derived, and the
/// commit that currently vouches for everything below it (`None` when nothing does).
pub struct Checked {
    pub view: SyncView,
    pub live_anchor: Option<String>,
}

/// The value of a [`Checked`].
#[verifier::ext_equal]
pub struct CheckedView {
    pub view: SyncViewValue,
    pub live_anchor: Option<Text>,
}

impl DeepView for Checked {
    type V = CheckedView;

    open spec fn deep_view(&self) -> CheckedView {
        CheckedView { view: self.view.deep_view(), live_anchor: self.live_anchor.deep_view() }
    }
}

/// The row of a subrepo of which nothing is known yet.
pub open spec fn blank_row(subrepo: ResolvedSubrepoView) -> DoctorSubrepoView {
    DoctorSubrepoView {
        name: subrepo.name,
        path: subrepo.path,
        remote: subrepo.remote,
        branch: subrepo.branch,
        upstream: subrepo.upstream,
        push_branch: if subrepo.upstream is Some {
            Some(subrepo.push_branch)
        } else {
            None
        },
        reachable: true,
        seeded: false,
        pub_head: None,
        fork_head: None,
        last_exported_mono: None,
        last_exported_pub: None,
        ahead: None,
        behind: None,
        problems: Seq::empty(),
        notes: Seq::empty(),
    }
}

/// The lines that introduce a subrepo.
pub open spec fn header_lines(subrepo: ResolvedSubrepoView) -> Seq<Text> {
    let head = seq![subrepo.name, "  path:          "@ + subrepo.path + "/"@];
    if subrepo.upstream is Some {
        head + seq![
            "  upstream:      "@ + subrepo.source() + " ("@ + subrepo.branch + ")"@,
            "  fork:          "@ + subrepo.remote + " ("@ + subrepo.push_branch + ")"@,
        ]
    } else {
        head + seq!["  remote:        "@ + subrepo.remote + " ("@ + subrepo.branch + ")"@]
    }
}

/// The section of a subrepo before it is checked.
pub open spec fn blank_section(subrepo: ResolvedSubrepoView) -> SectionView {
    SectionView { row: blank_row(subrepo), lines: header_lines(subrepo) }
}

fn new_section(subrepo: &ResolvedSubrepo) -> (out: Section)
    ensures
        out.deep_view() == blank_section(subrepo.deep_view()),
{
    let triangular = is_triangular(subrepo);
    let row = DoctorSubrepo {
        name: subrepo.name.clone(),
        path: subrepo.path.clone(),
        remote: subrepo.remote.clone(),
        branch: subrepo.branch.clone(),
        upstream: subrepo.upstream.clone(),
        push_branch: if triangular {
            Some(subrepo.push_branch.clone())
        } else {
            None
        },
        reachable: true,
        seeded: false,
        pub_head: None,
        fork_head: None,
        last_exported_mono: None,
        last_exported_pub: None,
        ahead: None,
        behind: None,
        problems: Vec::new(),
        notes: Vec::new(),
    };
    let mut lines: Vec<String> = vec![
        subrepo.name.clone(),
        "  path:          ".to_string().concat(subrepo.path.as_str()).concat("/"),
    ];
    let ghost head = lines.deep_view();
    if triangular {
        push(
            &mut lines,
            "  upstream:      ".to_string().concat(pull_source(subrepo)).concat(" (").concat(
                subrepo.branch.as_str(),
            ).concat(")"),
        );
        push(
            &mut lines,
            "  fork:          ".to_string().concat(subrepo.remote.as_str()).concat(" (").concat(
                subrepo.push_branch.as_str(),
            ).concat(")"),
        );
    } else {
        push(
            &mut lines,
            "  remote:        ".to_string().concat(subrepo.remote.as_str()).concat(" (").concat(
                subrepo.branch.as_str(),
            ).concat(")"),
        );
    }
    assert(lines.deep_view() =~= header_lines(subrepo.deep_view()));
    assert(row.problems.deep_view() =~= Seq::<Text>::empty());
    assert(row.notes.deep_view() =~= Seq::<Text>::empty());
    Section { row, lines }
}

/// A source repository that cannot be reached.
pub open spec fn unreachable_section(
    section: SectionView,
    subrepo: ResolvedSubrepoView,
    message: Text,
) -> SectionView {
    SectionView {
        row: DoctorSubrepoView { reachable: false, ..section.row },
        ..section
    }.problem(
        "cannot reach "@ + (if subrepo.upstream is Some {
            "upstream "@
        } else {
            ""@
        }) + subrepo.source(),
        lines_of(trim_end_text(message)).push(
            "Fix the URL in your config or your network/credentials, then run `monosplice doctor` again."@,
        ),
    )
}

fn report_unreachable(section: &mut Section, subrepo: &ResolvedSubrepo, message: &String)
    ensures
        final(section).deep_view() == unreachable_section(
            old(section).deep_view(),
            subrepo.deep_view(),
            message@,
        ),
{
    section.row.reachable = false;
    // Trimmed before it is split: git's stderr keeps its trailing newline, and an empty tail
    // would print a bare indent.
    let mut detail = split_lines(trim_end(message.as_str()));
    push(
        &mut detail,
        "Fix the URL in your config or your network/credentials, then run `monosplice doctor` again.".to_string(),
    );
    let which = if is_triangular(subrepo) {
        "upstream "
    } else {
        ""
    };
    problem(
        section,
        "cannot reach ".to_string().concat(which).concat(pull_source(subrepo)),
        detail,
    );
}

/// A public branch that does not exist yet.
pub open spec fn unpublished_section(
    section: SectionView,
    subrepo: ResolvedSubrepoView,
) -> SectionView {
    section.problem(
        "not published yet — "@ + subrepo.source() + " has no "@ + subrepo.branch + " branch."@,
        seq![
            if subrepo.upstream is Some {
                "Fix `upstream` or `branch` in your config: monosplice builds the fork branch on the upstream head."@
            } else {
                "Run `monosplice push "@ + subrepo.name
                    + " --yes` to publish it for the first time."@
            },
        ],
    )
}

fn report_unpublished(section: &mut Section, subrepo: &ResolvedSubrepo)
    ensures
        final(section).deep_view() == unpublished_section(
            old(section).deep_view(),
            subrepo.deep_view(),
        ),
{
    let advice = if is_triangular(subrepo) {
        "Fix `upstream` or `branch` in your config: monosplice builds the fork branch on the upstream head.".to_string()
    } else {
        "Run `monosplice push ".to_string().concat(subrepo.name.as_str()).concat(
            " --yes` to publish it for the first time.",
        )
    };
    let detail: Vec<String> = vec![advice];
    assert(detail.deep_view() =~= seq![advice@]);
    problem(
        section,
        "not published yet — ".to_string().concat(pull_source(subrepo)).concat(
            " has no ",
        ).concat(subrepo.branch.as_str()).concat(" branch."),
        detail,
    );
}

/// A public branch that exists.
pub open spec fn seeded_section(
    section: SectionView,
    subrepo: ResolvedSubrepoView,
    pub_head: Text,
) -> SectionView {
    SectionView {
        row: DoctorSubrepoView { seeded: true, pub_head: Some(pub_head), ..section.row },
        ..section
    }.line(
        "  "@ + (if subrepo.upstream is Some {
            "upstream head:"@
        } else {
            "pub head:     "@
        }) + " "@ + pub_head,
    )
}

fn report_seeded(section: &mut Section, subrepo: &ResolvedSubrepo, pub_head: &String)
    ensures
        final(section).deep_view() == seeded_section(
            old(section).deep_view(),
            subrepo.deep_view(),
            pub_head@,
        ),
{
    section.row.seeded = true;
    section.row.pub_head = Some(pub_head.clone());
    let label = if is_triangular(subrepo) {
        "upstream head:"
    } else {
        "pub head:     "
    };
    push(
        &mut section.lines,
        "  ".to_string().concat(label).concat(" ").concat(pub_head.as_str()),
    );
}

/// [`report_fork`] as a dialogue.
pub open spec fn report_fork_step(
    section: SectionView,
    subrepo: ResolvedSubrepoView,
    log: Seq<ReplyView>,
    at: int,
) -> Step<SectionView> {
    match try_load_fork_state_step(subrepo, false, log, at) {
        Step::Ask(request) => Step::Ask(request),
        Step::Done((_, Some(err)), at) => Step::Done(
            section.problem(
                "cannot reach fork remote "@ + subrepo.remote,
                lines_of(trim_end_text(err.text())) + seq![
                    "Pulling still works — it only talks to "@ + (match subrepo.upstream {
                        Some(upstream) => upstream,
                        None => ""@,
                    }) + " — but `monosplice push "@ + subrepo.name + "` will fail."@,
                    "Fix `remote` in your config or your network/credentials, then run `monosplice doctor` again."@,
                ],
            ),
            at,
        ),
        Step::Done((state, None), at) => Step::Done(
            match state {
                Some(state) => match state.head {
                    Some(head) => SectionView {
                        row: DoctorSubrepoView { fork_head: Some(head), ..section.row },
                        ..section
                    }.line("  fork head:     "@ + head),
                    None => section.line(
                        "  fork head:     (no "@ + subrepo.push_branch + " branch yet)"@,
                    ),
                },
                None => section.line(
                    "  fork head:     (no "@ + subrepo.push_branch + " branch yet)"@,
                ),
            },
            at,
        ),
    }
}

/// The fork is reported separately from upstream and never conflated with it: an unreachable
/// fork blocks `push` and nothing else, so it must not read like the sync source is broken.
pub fn report_fork<'a>(
    talk: &mut Talk<'a>,
    section: &mut Section,
    subrepo: &ResolvedSubrepo,
) -> (turn: Turn<()>)
    ensures
        final(talk).replies == old(talk).replies,
        match turn {
            Err(request) => Step::Ask(request.deep_view()),
            Ok(_) => Step::Done(final(section).deep_view(), final(talk).at as int),
        } == report_fork_step(
            old(section).deep_view(),
            subrepo.deep_view(),
            old(talk).log(),
            old(talk).at as int,
        ),
        turn is Err ==> final(section).deep_view() == old(section).deep_view(),
{
    let (state, error) = try_load_fork_state(talk, subrepo, &online())?;
    if let Some(error) = error {
        let message = error.to_string();
        let mut detail = split_lines(trim_end(message.as_str()));
        let ghost lines = detail.deep_view();
        let upstream = match &subrepo.upstream {
            Some(upstream) => upstream.as_str(),
            None => "",
        };
        let pulling = "Pulling still works — it only talks to ".to_string().concat(
            upstream,
        ).concat(" — but `monosplice push ").concat(subrepo.name.as_str()).concat("` will fail.");
        push(&mut detail, pulling);
        push(
            &mut detail,
            "Fix `remote` in your config or your network/credentials, then run `monosplice doctor` again.".to_string(),
        );
        assert(detail.deep_view() =~= lines + seq![
            pulling@,
            "Fix `remote` in your config or your network/credentials, then run `monosplice doctor` again."@,
        ]);
        problem(
            section,
            "cannot reach fork remote ".to_string().concat(subrepo.remote.as_str()),
            detail,
        );
        return Ok(());
    }
    let head = match state {
        Some(state) => state.head,
        None => None,
    };
    match head {
        None => push(
            &mut section.lines,
            "  fork head:     (no ".to_string().concat(subrepo.push_branch.as_str()).concat(
                " branch yet)",
            ),
        ),
        Some(head) => {
            push(
                &mut section.lines,
                "  fork head:     ".to_string().concat(head.as_str()),
            );
            section.row.fork_head = Some(head);
        },
    }
    Ok(())
}

/// The export that the mapping records last.
pub open spec fn last_exported_section(section: SectionView, view: SyncViewValue) -> SectionView {
    match view.last_exported_mono {
        None => SectionView {
            row: DoctorSubrepoView { last_exported_mono: None, ..section.row },
            ..section
        }.line("  last exported: (nothing yet)"@),
        Some(last) => {
            let pub_sha = if view.exported_mono_to_pub.contains_key(last) {
                Some(view.exported_mono_to_pub[last])
            } else {
                None
            };
            SectionView {
                row: DoctorSubrepoView {
                    last_exported_mono: Some(last),
                    last_exported_pub: pub_sha,
                    ..section.row
                },
                ..section
            }.line("  last exported: mono "@ + last).line(
                "                 pub  "@ + (match pub_sha {
                    Some(pub_sha) => pub_sha,
                    None => "(unknown)"@,
                }),
            )
        },
    }
}

fn report_last_exported(section: &mut Section, view: &SyncView)
    ensures
        final(section).deep_view() == last_exported_section(
            old(section).deep_view(),
            view.deep_view(),
        ),
{
    section.row.last_exported_mono = view.last_exported_mono.clone();
    match &view.last_exported_mono {
        None => push(&mut section.lines, "  last exported: (nothing yet)".to_string()),
        Some(last) => {
            let pub_sha = match view.exported_mono_to_pub.get(last.as_str()) {
                Some(pub_sha) => Some(pub_sha.clone()),
                None => None,
            };
            push(&mut section.lines, "  last exported: mono ".to_string().concat(last.as_str()));
            let shown = match &pub_sha {
                Some(pub_sha) => pub_sha.as_str(),
                None => "(unknown)",
            };
            push(&mut section.lines, "                 pub  ".to_string().concat(shown));
            section.row.last_exported_pub = pub_sha;
        },
    }
}

/// A section with its counts.
pub open spec fn counted_section(section: SectionView, ahead: nat, behind: nat) -> SectionView {
    SectionView {
        row: DoctorSubrepoView {
            ahead: Some(ahead as usize),
            behind: Some(behind as usize),
            ..section.row
        },
        ..section
    }.line("  to push: "@ + decimal_text(ahead) + ", to pull: "@ + decimal_text(behind))
}

/// [`report_counts`] as a dialogue.
pub open spec fn report_counts_step(
    section: SectionView,
    subrepo: ResolvedSubrepoView,
    view: SyncViewValue,
    log: Seq<ReplyView>,
    at: int,
) -> Step<Result<SectionView, FailureView>> {
    match plan_export_step(subrepo, view, log, at) {
        Step::Ask(request) => Step::Ask(request),
        Step::Done(Err(err), at) => Step::Done(
            Err(FailureView { message: err.text(), exit_code: 2 }),
            at,
        ),
        Step::Done(Ok(candidates), at) => match compute_exports_step(
            subrepo,
            view.pub_head,
            candidates,
            log,
            at,
        ) {
            Step::Ask(request) => Step::Ask(request),
            Step::Done(Ok(planned), at) => Step::Done(
                Ok(counted_section(section, planned.len(), view.unreflected_pub.len())),
                at,
            ),
            Step::Done(Err(err), at) => Step::Done(
                Ok(
                    counted_section(
                        section,
                        candidates.len(),
                        view.unreflected_pub.len(),
                    ).problem(
                        "a configured hook rejects a pending commit: "@ + err.text(),
                        seq![
                            "`monosplice push "@ + subrepo.name
                                + "` will fail until that commit is fixed or the hook is changed."@,
                        ],
                    ),
                ),
                at,
            ),
        },
    }
}

/// How many commits there are to push and to pull.
pub fn report_counts<'a>(
    talk: &mut Talk<'a>,
    section: &mut Section,
    subrepo: &ResolvedSubrepo,
    view: &SyncView,
) -> (turn: Turn<Result<(), Failure>>)
    ensures
        final(talk).replies == old(talk).replies,
        match turn {
            Err(request) => Step::Ask(request.deep_view()),
            Ok(Err(failure)) => Step::Done(Err(failure.deep_view()), final(talk).at as int),
            Ok(Ok(_)) => Step::Done(Ok(final(section).deep_view()), final(talk).at as int),
        } == report_counts_step(
            old(section).deep_view(),
            subrepo.deep_view(),
            view.deep_view(),
            old(talk).log(),
            old(talk).at as int,
        ),
        !(turn matches Ok(Ok(_))) ==> final(section).deep_view() == old(section).deep_view(),
{
    let candidates = match plan_export(talk, subrepo, view)? {
        Ok(candidates) => candidates,
        Err(err) => return Ok(Err(Failure::error(err.to_string()))),
    };
    let (ahead, hook_error) = match compute_exports(talk, subrepo, view, &candidates)? {
        Ok(planned) => (planned.len(), None),
        Err(err) => (candidates.len(), Some(err.to_string())),
    };
    let behind: usize = view.unreflected_pub.len();
    section.row.ahead = Some(ahead);
    section.row.behind = Some(behind);
    push(
        &mut section.lines,
        "  to push: ".to_string().concat(decimal(ahead as u64).as_str()).concat(
            ", to pull: ",
        ).concat(decimal(behind as u64).as_str()),
    );
    if let Some(hook_error) = hook_error {
        let advice = "`monosplice push ".to_string().concat(subrepo.name.as_str()).concat(
            "` will fail until that commit is fixed or the hook is changed.",
        );
        let detail: Vec<String> = vec![advice];
        assert(detail.deep_view() =~= seq![advice@]);
        problem(
            section,
            "a configured hook rejects a pending commit: ".to_string().concat(
                hook_error.as_str(),
            ),
            detail,
        );
    }
    Ok(Ok(()))
}

/// The section with a problem for each broken reference.
pub open spec fn broken_section(section: SectionView, broken: Seq<SourceRefView>) -> SectionView
    decreases broken.len(),
{
    if broken.len() == 0 {
        section
    } else {
        broken_section(section, broken.drop_last()).problem(
            "standalone commit "@ + broken.last().pub_sha + " carries "@ + SOURCE_TRAILER@ + ": "@
                + broken.last().mono_sha
                + ", but that monorepo commit does not exist in this clone."@,
            seq![
                "Usually the monorepo clone is missing history (a shallow or partial clone), or `remote` points"@,
                "at a repository that was published from a different monorepo."@,
                "Run `git fetch --unshallow` (or fix `remote` in your config); monosplice refuses to export until"@,
                "the mapping resolves, so nothing can be published on top of a history it cannot see."@,
            ],
        )
    }
}

fn report_broken(section: &mut Section, view: &SyncView)
    ensures
        final(section).deep_view() == broken_section(
            old(section).deep_view(),
            view.deep_view().broken_source_refs,
        ),
{
    let ghost all = view.deep_view().broken_source_refs;
    let ghost before = section.deep_view();
    let mut i: usize = 0;
    while i < view.broken_source_refs.len()
        invariant
            all == view.deep_view().broken_source_refs,
            before == old(section).deep_view(),
            i <= view.broken_source_refs.len(),
            section.deep_view() == broken_section(before, all.take(i as int)),
        decreases view.broken_source_refs.len() - i,
    {
        let broken = &view.broken_source_refs[i];
        proof {
            lemma_take_next(all, i as int);
            assert(all[i as int] == broken.deep_view());
            assert(all.take(i + 1).drop_last() =~= all.take(i as int));
        }
        let detail: Vec<String> = vec![
            "Usually the monorepo clone is missing history (a shallow or partial clone), or `remote` points".to_string(),
            "at a repository that was published from a different monorepo.".to_string(),
            "Run `git fetch --unshallow` (or fix `remote` in your config); monosplice refuses to export until".to_string(),
            "the mapping resolves, so nothing can be published on top of a history it cannot see.".to_string(),
        ];
        assert(detail.deep_view() =~= seq![
            "Usually the monorepo clone is missing history (a shallow or partial clone), or `remote` points"@,
            "at a repository that was published from a different monorepo."@,
            "Run `git fetch --unshallow` (or fix `remote` in your config); monosplice refuses to export until"@,
            "the mapping resolves, so nothing can be published on top of a history it cannot see."@,
        ]);
        problem(
            section,
            "standalone commit ".to_string().concat(broken.pub_sha.as_str()).concat(
                " carries ",
            ).concat(SOURCE_TRAILER).concat(": ").concat(broken.mono_sha.as_str()).concat(
                ", but that monorepo commit does not exist in this clone.",
            ),
            detail,
        );
        i = i + 1;
    }
    assert(all.take(i as int) =~= all);
}

/// The dead references, oldest first, one line each.
pub open spec fn superseded_lines(refs: Seq<SourceRefView>) -> Seq<Text> {
    refs.reverse().map_values(
        |dead: SourceRefView|
            "standalone commit "@ + dead.pub_sha + " names "@ + dead.mono_sha + " ("@
                + SOURCE_TRAILER@ + "), which this clone does not have."@,
    )
}

/// [`report_superseded_anchors`] on values.
pub open spec fn superseded_section(section: SectionView, view: SyncViewValue) -> SectionView {
    if view.superseded_source_refs.len() == 0 {
        section
    } else {
        section.note(
            "informational: "@ + decimal_text(view.superseded_source_refs.len())
                + " historical anchor(s) unresolvable — superseded by live anchor at "@ + (
            match view.last_exported_mono {
                Some(live) => live,
                None => "undefined"@,
            }) + "."@,
            superseded_lines(view.superseded_source_refs) + seq![
                "Monorepo history was rewritten after that export, so the sha it recorded exists nowhere any"@,
                "more. A newer standalone commit names a commit this clone has, and that anchor is what push"@,
                "and pull are measured from; nothing below it can change the answer."@,
            ],
        )
    }
}

/// Dead `Monosplice-Source` trailers *behind* the newest resolvable anchor. One machine rebased
/// after an export, so every clone made since is missing the sha that export recorded, and no
/// clone will ever have it again. It is a fact about history, not a fault to fix: the live
/// anchor above it decides what is published, so this is a note and `doctor` still exits 0.
pub fn report_superseded_anchors(section: &mut Section, view: &SyncView)
    ensures
        final(section).deep_view() == superseded_section(
            old(section).deep_view(),
            view.deep_view(),
        ),
{
    let refs = &view.superseded_source_refs;
    if refs.len() == 0 {
        return;
    }
    let live = match &view.last_exported_mono {
        Some(live) => live.as_str(),
        None => "undefined",
    };
    let mut detail: Vec<String> = Vec::new();
    let ghost all = superseded_lines(refs.deep_view());
    assert(detail.deep_view() =~= all.take(0));
    let mut i: usize = 0;
    while i < refs.len()
        invariant
            i <= refs.len(),
            all == superseded_lines(refs.deep_view()),
            detail.deep_view() == all.take(i as int),
        decreases refs.len() - i,
    {
        let dead = &refs[refs.len() - 1 - i];
        assert(refs.deep_view().reverse()[i as int] == dead.deep_view());
        push(
            &mut detail,
            "standalone commit ".to_string().concat(dead.pub_sha.as_str()).concat(
                " names ",
            ).concat(dead.mono_sha.as_str()).concat(" (").concat(SOURCE_TRAILER).concat(
                "), which this clone does not have.",
            ),
        );
        proof {
            lemma_take_next(all, i as int);
        }
        i = i + 1;
    }
    assert(all.take(i as int) =~= all);
    push(
        &mut detail,
        "Monorepo history was rewritten after that export, so the sha it recorded exists nowhere any".to_string(),
    );
    push(
        &mut detail,
        "more. A newer standalone commit names a commit this clone has, and that anchor is what push".to_string(),
    );
    push(
        &mut detail,
        "and pull are measured from; nothing below it can change the answer.".to_string(),
    );
    assert(detail.deep_view() =~= all + seq![
        "Monorepo history was rewritten after that export, so the sha it recorded exists nowhere any"@,
        "more. A newer standalone commit names a commit this clone has, and that anchor is what push"@,
        "and pull are measured from; nothing below it can change the answer."@,
    ]);
    note(
        section,
        "informational: ".to_string().concat(decimal(refs.len() as u64).as_str()).concat(
            " historical anchor(s) unresolvable — superseded by live anchor at ",
        ).concat(live).concat("."),
        detail,
    );
}

/// An anchor that left HEAD's history, without or with a commit to take its place.
pub open spec fn rewritten_section(
    section: SectionView,
    subrepo: ResolvedSubrepoView,
    missing: Text,
    recovery: Option<AnchorRecoveryView>,
) -> SectionView {
    match recovery {
        None => section.problem(
            "the last exported monorepo commit "@ + missing + " is no longer an ancestor of HEAD."@,
            seq![
                "Monorepo history was rewritten (rebase, amend or force-push) underneath it, so the export range"@,
                "is meaningless and `monosplice push` will refuse."@,
                "Restore that commit (see `git reflog`) or re-point the branch at history that contains it."@,
            ],
        ),
        Some(recovery) => {
            let detail = seq![
                "Monorepo history was rewritten (rebase, amend or force-push), but that commit's content is still here:"@,
                "the rewrite left the published subrepo tree byte-identical, so nothing was lost — only the recorded sha."@,
                "`monosplice push "@ + subrepo.name + "` adopts "@ + recovery.recovered
                    + " as the anchor and exports only the work after it."@,
            ];
            section.note(
                "the last exported monorepo commit "@ + missing
                    + " is no longer an ancestor of HEAD — anchor missing; recoverable via identical tree at "@
                    + recovery.recovered + "."@,
                if recovery.also_matching > 0 {
                    detail.push(
                        decimal_text((recovery.also_matching + 1) as nat)
                            + " adjacent commits publish that same tree; the newest is the one adopted."@,
                    )
                } else {
                    detail
                },
            )
        },
    }
}

/// [`report_rewritten_anchor`] as a dialogue.
pub open spec fn report_rewritten_anchor_step(
    section: SectionView,
    subrepo: ResolvedSubrepoView,
    view: SyncViewValue,
    log: Seq<ReplyView>,
    at: int,
) -> Step<SectionView> {
    let missing = match view.last_exported_mono {
        Some(missing) => missing,
        None => "undefined"@,
    };
    match find_anchor_recovery_step(subrepo, view, log, at) {
        Step::Ask(request) => Step::Ask(request),
        Step::Done(Ok(recovery), at) => Step::Done(
            rewritten_section(section, subrepo, missing, recovery),
            at,
        ),
        Step::Done(Err(_), at) => Step::Done(
            rewritten_section(section, subrepo, missing, None),
            at,
        ),
    }
}

/// The anchor sha left HEAD's history. Whether that is a problem depends entirely on content:
/// if some commit still on the walk publishes exactly the tree the standalone repo carries, the
/// export was correct and `push` derives the anchor again by itself: a note, not a problem, and
/// nothing for the user to restore. Otherwise the refusal stands, `git reflog` and all.
pub fn report_rewritten_anchor<'a>(
    talk: &mut Talk<'a>,
    section: &mut Section,
    subrepo: &ResolvedSubrepo,
    view: &SyncView,
) -> (turn: Turn<()>)
    ensures
        final(talk).replies == old(talk).replies,
        match turn {
            Err(request) => Step::Ask(request.deep_view()),
            Ok(_) => Step::Done(final(section).deep_view(), final(talk).at as int),
        } == report_rewritten_anchor_step(
            old(section).deep_view(),
            subrepo.deep_view(),
            view.deep_view(),
            old(talk).log(),
            old(talk).at as int,
        ),
        turn is Err ==> final(section).deep_view() == old(section).deep_view(),
{
    let missing = match &view.last_exported_mono {
        Some(missing) => missing.as_str(),
        None => "undefined",
    };
    let recovery = match find_anchor_recovery(talk, subrepo, view)? {
        Ok(recovery) => recovery,
        Err(_) => None,
    };
    match recovery {
        None => {
            let detail: Vec<String> = vec![
                "Monorepo history was rewritten (rebase, amend or force-push) underneath it, so the export range".to_string(),
                "is meaningless and `monosplice push` will refuse.".to_string(),
                "Restore that commit (see `git reflog`) or re-point the branch at history that contains it.".to_string(),
            ];
            assert(detail.deep_view() =~= seq![
                "Monorepo history was rewritten (rebase, amend or force-push) underneath it, so the export range"@,
                "is meaningless and `monosplice push` will refuse."@,
                "Restore that commit (see `git reflog`) or re-point the branch at history that contains it."@,
            ]);
            problem(
                section,
                "the last exported monorepo commit ".to_string().concat(missing).concat(
                    " is no longer an ancestor of HEAD.",
                ),
                detail,
            );
        },
        Some(recovery) => {
            let adopt = "`monosplice push ".to_string().concat(subrepo.name.as_str()).concat(
                "` adopts ",
            ).concat(recovery.recovered.as_str()).concat(
                " as the anchor and exports only the work after it.",
            );
            let mut detail: Vec<String> = vec![
                "Monorepo history was rewritten (rebase, amend or force-push), but that commit's content is still here:".to_string(),
                "the rewrite left the published subrepo tree byte-identical, so nothing was lost — only the recorded sha.".to_string(),
                adopt,
            ];
            assert(detail.deep_view() =~= seq![
                "Monorepo history was rewritten (rebase, amend or force-push), but that commit's content is still here:"@,
                "the rewrite left the published subrepo tree byte-identical, so nothing was lost — only the recorded sha."@,
                adopt@,
            ]);
            if recovery.also_matching > 0 {
                push(
                    &mut detail,
                    decimal((recovery.also_matching + 1) as u64).concat(
                        " adjacent commits publish that same tree; the newest is the one adopted.",
                    ),
                );
            }
            note(
                section,
                "the last exported monorepo commit ".to_string().concat(missing).concat(
                    " is no longer an ancestor of HEAD — anchor missing; recoverable via identical tree at ",
                ).concat(recovery.recovered.as_str()).concat("."),
                detail,
            );
        },
    }
    Ok(())
}

/// [`verify_mapping`] as a dialogue.
pub open spec fn verify_mapping_step(
    section: SectionView,
    subrepo: ResolvedSubrepoView,
    view: SyncViewValue,
    log: Seq<ReplyView>,
    at: int,
) -> Step<SectionView> {
    match view.last_exported_mono {
        None => Step::Done(section, at),
        Some(last) => if !view.exported_mono_to_pub.contains_key(last) {
            Step::Done(section, at)
        } else {
            let pub_sha = view.exported_mono_to_pub[last];
            match name_subtree_step(last, subrepo, log, at) {
                Step::Ask(request) => Step::Ask(request),
                Step::Done(expected, at) => match text_at(log, at) {
                    None => Step::Ask(commit_tree_request(pub_sha)),
                    Some(actual) => Step::Done(
                        match (expected, actual) {
                            (Ok(Some(expected)), Ok(actual)) => if expected.tree == actual {
                                section
                            } else {
                                section.note(
                                    "commit "@ + pub_sha
                                        + " does not match the subtree monosplice would export from "@
                                        + last + " today."@,
                                    seq![
                                        "That is expected if `exclude`, `transform` or `rewrite-message` changed since that export — the next"@,
                                        "`monosplice push "@ + subrepo.name
                                            + "` republishes with the current config. If nothing changed, the"@,
                                        "standalone branch was probably rewritten."@,
                                    ],
                                )
                            },
                            _ => section,
                        },
                        at + 1,
                    ),
                },
            }
        },
    }
}

/// The cursor claims a standalone commit X exported mono commit Y; check the trees agree.
pub fn verify_mapping<'a>(
    talk: &mut Talk<'a>,
    section: &mut Section,
    subrepo: &ResolvedSubrepo,
    view: &SyncView,
) -> (turn: Turn<()>)
    ensures
        final(talk).replies == old(talk).replies,
        match turn {
            Err(request) => Step::Ask(request.deep_view()),
            Ok(_) => Step::Done(final(section).deep_view(), final(talk).at as int),
        } == verify_mapping_step(
            old(section).deep_view(),
            subrepo.deep_view(),
            view.deep_view(),
            old(talk).log(),
            old(talk).at as int,
        ),
        turn is Err ==> final(section).deep_view() == old(section).deep_view(),
{
    let last = match &view.last_exported_mono {
        None => return Ok(()),
        Some(last) => last,
    };
    let pub_sha = match view.exported_mono_to_pub.get(last.as_str()) {
        None => return Ok(()),
        Some(pub_sha) => pub_sha,
    };
    let expected = name_subtree(talk, last.as_str(), subrepo)?;
    let actual = match talk.text() {
        None => return Err(ask_commit_tree(pub_sha.as_str())),
        Some(actual) => actual,
    };
    let (expected, actual) = match (expected, actual) {
        (Ok(Some(expected)), Ok(actual)) => (expected, actual),
        _ => return Ok(()),
    };
    if expected.tree == *actual {
        return Ok(());
    }
    let advice = "`monosplice push ".to_string().concat(subrepo.name.as_str()).concat(
        "` republishes with the current config. If nothing changed, the",
    );
    let detail: Vec<String> = vec![
        "That is expected if `exclude`, `transform` or `rewrite-message` changed since that export — the next".to_string(),
        advice,
        "standalone branch was probably rewritten.".to_string(),
    ];
    assert(detail.deep_view() =~= seq![
        "That is expected if `exclude`, `transform` or `rewrite-message` changed since that export — the next"@,
        advice@,
        "standalone branch was probably rewritten."@,
    ]);
    note(
        section,
        "commit ".to_string().concat(pub_sha.as_str()).concat(
            " does not match the subtree monosplice would export from ",
        ).concat(last.as_str()).concat(" today."),
        detail,
    );
    Ok(())
}

/// The part of [`check_subrepo`] that depends on the state of the anchor.
pub open spec fn check_anchor_step(
    section: SectionView,
    subrepo: ResolvedSubrepoView,
    view: SyncViewValue,
    log: Seq<ReplyView>,
    at: int,
) -> Step<SectionView> {
    match export_base_rewritten_step(view.last_exported_mono, log, at) {
        Step::Ask(request) => Step::Ask(request),
        Step::Done(false, at) => verify_mapping_step(section, subrepo, view, log, at),
        Step::Done(true, at) => match report_rewritten_anchor_step(
            section,
            subrepo,
            view,
            log,
            at,
        ) {
            Step::Ask(request) => Step::Ask(request),
            Step::Done(section, at) => verify_mapping_step(section, subrepo, view, log, at),
        },
    }
}

/// The part of [`check_subrepo`] that needs a public branch.
pub open spec fn check_published_step(
    section: SectionView,
    subrepo: ResolvedSubrepoView,
    view: SyncViewValue,
    log: Seq<ReplyView>,
    at: int,
) -> Step<Result<(SectionView, Option<CheckedView>), FailureView>> {
    match report_counts_step(last_exported_section(section, view), subrepo, view, log, at) {
        Step::Ask(request) => Step::Ask(request),
        Step::Done(Err(failure), at) => Step::Done(Err(failure), at),
        Step::Done(Ok(section), at) => match check_anchor_step(
            superseded_section(broken_section(section, view.broken_source_refs), view),
            subrepo,
            view,
            log,
            at,
        ) {
            Step::Ask(request) => Step::Ask(request),
            Step::Done(section, at) => match live_export_anchor_step(subrepo, view, log, at) {
                Step::Ask(request) => Step::Ask(request),
                Step::Done(live_anchor, at) => Step::Done(
                    Ok((section, Some(CheckedView { view, live_anchor }))),
                    at,
                ),
            },
        },
    }
}

/// The fork of a subrepo that has one.
pub open spec fn check_fork_step(
    section: SectionView,
    subrepo: ResolvedSubrepoView,
    log: Seq<ReplyView>,
    at: int,
) -> Step<SectionView> {
    if subrepo.upstream is Some {
        report_fork_step(section, subrepo, log, at)
    } else {
        Step::Done(section, at)
    }
}

/// [`check_subrepo`] as a dialogue.
pub open spec fn check_subrepo_step(
    subrepo: ResolvedSubrepoView,
    log: Seq<ReplyView>,
    at: int,
) -> Step<Result<(SectionView, Option<CheckedView>), FailureView>> {
    match load_sync_view_step(subrepo, false, log, at) {
        Step::Ask(request) => Step::Ask(request),
        Step::Done(Err(err), at) => Step::Done(
            Ok((unreachable_section(blank_section(subrepo), subrepo, err.text()), None)),
            at,
        ),
        Step::Done(Ok(view), at) => match view.pub_head {
            None => Step::Done(
                Ok((unpublished_section(blank_section(subrepo), subrepo), None)),
                at,
            ),
            Some(pub_head) => match check_fork_step(
                seeded_section(blank_section(subrepo), subrepo, pub_head),
                subrepo,
                log,
                at,
            ) {
                Step::Ask(request) => Step::Ask(request),
                Step::Done(section, at) => check_published_step(section, subrepo, view, log, at),
            },
        },
    }
}

/// Everything there is to say about one subrepo.
pub fn check_subrepo<'a>(talk: &mut Talk<'a>, subrepo: &ResolvedSubrepo) -> (turn: Turn<
    Result<(Section, Option<Checked>), Failure>,
>)
    ensures
        final(talk).replies == old(talk).replies,
        step_result(turn, final(talk).at) == check_subrepo_step(
            subrepo.deep_view(),
            old(talk).log(),
            old(talk).at as int,
        ),
{
    let mut section = new_section(subrepo);
    let view = match load_sync_view(talk, subrepo, &online())? {
        Ok(view) => view,
        Err(err) => {
            report_unreachable(&mut section, subrepo, &err.to_string());
            return Ok(Ok((section, None)));
        },
    };
    match &view.pub_head {
        None => {
            report_unpublished(&mut section, subrepo);
            return Ok(Ok((section, None)));
        },
        Some(pub_head) => report_seeded(&mut section, subrepo, pub_head),
    }
    if is_triangular(subrepo) {
        report_fork(talk, &mut section, subrepo)?;
    }
    report_last_exported(&mut section, &view);
    match report_counts(talk, &mut section, subrepo, &view)? {
        Ok(_) => {},
        Err(failure) => return Ok(Err(failure)),
    }
    report_broken(&mut section, &view);
    report_superseded_anchors(&mut section, &view);
    if export_base_rewritten(talk, &view)? {
        report_rewritten_anchor(talk, &mut section, subrepo, &view)?;
    }
    verify_mapping(talk, &mut section, subrepo, &view)?;
    let live_anchor = live_export_anchor(talk, subrepo, &view)?;
    Ok(Ok((section, Some(Checked { view, live_anchor }))))
}

/// [`oldest_anchor`] as a dialogue, with `oldest` found among the first `i` anchors.
pub open spec fn oldest_rest_step(
    anchors: Seq<Text>,
    i: int,
    oldest: Text,
    log: Seq<ReplyView>,
    at: int,
) -> Step<Text>
    decreases anchors.len() - i,
{
    if i >= anchors.len() {
        Step::Done(oldest, at)
    } else {
        match flag_at(log, at) {
            None => Step::Ask(is_ancestor_request(anchors[i], oldest)),
            Some(older) => oldest_rest_step(
                anchors,
                i + 1,
                if older {
                    anchors[i]
                } else {
                    oldest
                },
                log,
                at + 1,
            ),
        }
    }
}

/// [`oldest_anchor`] as a dialogue.
pub open spec fn oldest_anchor_step(
    anchors: Seq<Text>,
    log: Seq<ReplyView>,
    at: int,
) -> Step<Option<Text>> {
    if anchors.len() == 0 {
        Step::Done(None, at)
    } else {
        match oldest_rest_step(anchors, 1, anchors[0], log, at) {
            Step::Ask(request) => Step::Ask(request),
            Step::Done(oldest, at) => Step::Done(Some(oldest), at),
        }
    }
}

/// The oldest of the live anchors, which is the one every settled fossil sits below and so the
/// weakest, and therefore the honest, claim the note can make. Ancestry in one repository is a
/// total order along a line of history; anything it cannot compare keeps the first anchor.
pub fn oldest_anchor<'a>(talk: &mut Talk<'a>, live_anchors: &Vec<String>) -> (turn: Turn<
    Option<String>,
>)
    ensures
        final(talk).replies == old(talk).replies,
        step(turn, final(talk).at) == oldest_anchor_step(
            live_anchors.deep_view(),
            old(talk).log(),
            old(talk).at as int,
        ),
{
    if live_anchors.len() == 0 {
        return Ok(None);
    }
    let ghost all = live_anchors.deep_view();
    let ghost log = talk.log();
    let ghost start = talk.at as int;
    let mut oldest = &live_anchors[0];
    assert(all[0] == oldest@);
    let mut i: usize = 1;
    while i < live_anchors.len()
        invariant
            1 <= i <= live_anchors.len(),
            all == live_anchors.deep_view(),
            talk.replies == old(talk).replies,
            log == old(talk).log(),
            start == old(talk).at,
            oldest_rest_step(all, 1, all[0], log, start) == oldest_rest_step(
                all,
                i as int,
                oldest@,
                log,
                talk.at as int,
            ),
        decreases live_anchors.len() - i,
    {
        assert(all[i as int] == live_anchors[i as int]@);
        match talk.flag() {
            None => return Err(ask_is_ancestor(live_anchors[i].as_str(), oldest.as_str())),
            Some(older) => if older {
                oldest = &live_anchors[i];
            },
        }
        i = i + 1;
    }
    Ok(Some(oldest.clone()))
}

/// The commits that were imported and that no configured remote has, each of them once, in
/// order.
pub open spec fn orphans(imported: Seq<Text>, fetched: Seq<Text>) -> Seq<Text> {
    in_order(distinct(imported.filter(|sha: Text| !fetched.contains(sha))))
}

/// Does some monorepo commit carry the import of `sha`, and is every one that does settled?
/// `verdicts` says of each monorepo commit whether it is.
pub open spec fn is_fossil(
    sha: Text,
    origin_by_mono: Seq<(Text, Seq<Text>)>,
    verdicts: Seq<bool>,
) -> bool {
    &&& exists|i: int|
        0 <= i < origin_by_mono.len() && (#[trigger] origin_by_mono[i]).1.contains(sha)
    &&& forall|i: int|
        0 <= i < origin_by_mono.len() && (#[trigger] origin_by_mono[i]).1.contains(sha)
            ==> verdicts[i]
}

/// An import that nothing explains.
pub open spec fn orphan_finding(sha: Text) -> FindingView {
    FindingView {
        headline: "monorepo history claims to have imported commit "@ + sha + " ("@
            + ORIGIN_TRAILER@ + "), but no configured remote has it."@,
        detail: seq![
            "The standalone branch was probably rewritten (force-push) after that import, or the commit came"@,
            "from a subrepo that is no longer in your config."@,
        ],
    }
}

/// A line for each settled import.
pub open spec fn fossil_lines(fossils: Seq<Text>) -> Seq<Text> {
    fossils.map_values(
        |sha: Text| "imported commit "@ + sha + " ("@ + ORIGIN_TRAILER@ + ") resolves nowhere."@,
    )
}

/// The imports that a live anchor has settled.
pub open spec fn fossil_finding(fossils: Seq<Text>, live_anchor: Option<Text>) -> FindingView {
    FindingView {
        headline: "informational: "@ + decimal_text(fossils.len())
            + " historical import trailer(s) unresolvable — superseded by live anchor at "@ + (
        match live_anchor {
            Some(live) => live,
            None => "undefined"@,
        }) + "."@,
        detail: fossil_lines(fossils) + seq![
            "Those imports came from a repository this subrepo no longer tracks — a re-baseline onto a new"@,
            "remote, or a standalone branch rewritten since. The live anchor above them proves the monorepo and"@,
            "the current remote agree, so nothing below it can change what push or pull do."@,
        ],
    }
}

/// The problems of [`classify_origins`]: one for each orphan that is not settled.
pub open spec fn origin_problems(
    orphans: Seq<Text>,
    origin_by_mono: Seq<(Text, Seq<Text>)>,
    verdicts: Seq<bool>,
) -> Seq<FindingView> {
    orphans.filter(|sha: Text| !is_fossil(sha, origin_by_mono, verdicts)).map_values(
        |sha: Text| orphan_finding(sha),
    )
}

/// The settled orphans.
pub open spec fn origin_fossils(
    orphans: Seq<Text>,
    origin_by_mono: Seq<(Text, Seq<Text>)>,
    verdicts: Seq<bool>,
) -> Seq<Text> {
    orphans.filter(|sha: Text| is_fossil(sha, origin_by_mono, verdicts))
}

/// The notes of [`classify_origins`]: one for all settled orphans together.
pub open spec fn origin_notes(fossils: Seq<Text>, live_anchor: Option<Text>) -> Seq<FindingView> {
    if fossils.len() == 0 {
        Seq::empty()
    } else {
        seq![fossil_finding(fossils, live_anchor)]
    }
}

/// Can `settled` say `verdict` about the commit named `mono_sha`?
pub open spec fn rules<F: Fn(&str) -> bool>(settled: F, mono_sha: Text, verdict: bool) -> bool {
    exists|name: &str| name@ == mono_sha && #[trigger] call_ensures(settled, (name,), verdict)
}

/// Are these the verdicts of `settled` on the monorepo commits of `origin_by_mono`?
pub open spec fn ruled<F: Fn(&str) -> bool>(
    settled: F,
    origin_by_mono: Seq<(Text, Seq<Text>)>,
    verdicts: Seq<bool>,
) -> bool {
    &&& verdicts.len() == origin_by_mono.len()
    &&& forall|i: int|
        0 <= i < verdicts.len() ==> rules(settled, origin_by_mono[i].0, #[trigger] verdicts[i])
}

fn collect_orphans(imported_pub_shas: &Vec<String>, fetched_pub_shas: &Vec<String>) -> (out: Vec<
    String,
>)
    ensures
        out.deep_view() == orphans(imported_pub_shas.deep_view(), fetched_pub_shas.deep_view()),
{
    let fetched_set = set_of(fetched_pub_shas);
    let ghost all = imported_pub_shas.deep_view();
    let ghost fetched = fetched_pub_shas.deep_view();
    let ghost lost = |sha: Text| !fetched.contains(sha);
    let mut out: Vec<String> = Vec::new();
    let mut seen = StringHashSet::new();
    assert(all.take(0).filter(lost) =~= Seq::empty()) by {
        reveal(Seq::filter);
    }
    assert(out.deep_view() =~= Seq::<Text>::empty());
    let mut i: usize = 0;
    while i < imported_pub_shas.len()
        invariant
            all == imported_pub_shas.deep_view(),
            lost == (|sha: Text| !fetched.contains(sha)),
            forall|t: Text| #[trigger] fetched_set@.contains(t) == fetched.contains(t),
            forall|t: Text| #[trigger] seen@.contains(t) == out.deep_view().contains(t),
            i <= imported_pub_shas.len(),
            out.deep_view() == distinct(all.take(i as int).filter(lost)),
        decreases imported_pub_shas.len() - i,
    {
        let ghost before = all.take(i as int).filter(lost);
        proof {
            lemma_filter_next(all, lost, i as int);
            assert(before.push(all[i as int]).drop_last() =~= before);
        }
        if !fetched_set.contains(imported_pub_shas[i].as_str()) {
            push_distinct(&mut out, &mut seen, &imported_pub_shas[i]);
        }
        i = i + 1;
    }
    assert(all.take(i as int) =~= all);
    sort_texts(out)
}

fn check_fossil(
    sha: &String,
    origin_by_mono: &Vec<(String, Vec<String>)>,
    verdicts: &Vec<bool>,
) -> (out: bool)
    requires
        verdicts.len() == origin_by_mono.len(),
    ensures
        out == is_fossil(sha@, origin_by_mono.deep_view(), verdicts@),
{
    let ghost all = origin_by_mono.deep_view();
    let mut carried = false;
    let mut i: usize = 0;
    while i < origin_by_mono.len()
        invariant
            verdicts.len() == origin_by_mono.len(),
            all == origin_by_mono.deep_view(),
            i <= origin_by_mono.len(),
            carried == exists|k: int| 0 <= k < i && (#[trigger] all[k]).1.contains(sha@),
            forall|k: int| 0 <= k < i && (#[trigger] all[k]).1.contains(sha@) ==> verdicts@[k],
        decreases origin_by_mono.len() - i,
    {
        assert(all[i as int] == origin_by_mono[i as int].deep_view());
        if contains_text(&origin_by_mono[i].1, sha) {
            if !verdicts[i] {
                return false;
            }
            carried = true;
        }
        i = i + 1;
    }
    carried
}

fn new_orphan_finding(sha: &String) -> (out: Finding)
    ensures
        out.deep_view() == orphan_finding(sha@),
{
    let detail: Vec<String> = vec![
        "The standalone branch was probably rewritten (force-push) after that import, or the commit came".to_string(),
        "from a subrepo that is no longer in your config.".to_string(),
    ];
    assert(detail.deep_view() =~= orphan_finding(sha@).detail);
    Finding {
        headline: "monorepo history claims to have imported commit ".to_string().concat(
            sha.as_str(),
        ).concat(" (").concat(ORIGIN_TRAILER).concat("), but no configured remote has it."),
        detail,
    }
}

fn new_fossil_finding(fossils: &Vec<String>, live_anchor: &Option<String>) -> (out: Finding)
    ensures
        out.deep_view() == fossil_finding(fossils.deep_view(), live_anchor.deep_view()),
{
    let live = match live_anchor {
        Some(live) => live.as_str(),
        None => "undefined",
    };
    let mut detail: Vec<String> = Vec::new();
    let ghost all = fossils.deep_view();
    assert(detail.deep_view() =~= fossil_lines(all.take(0)));
    let mut i: usize = 0;
    while i < fossils.len()
        invariant
            all == fossils.deep_view(),
            i <= fossils.len(),
            detail.deep_view() == fossil_lines(all.take(i as int)),
        decreases fossils.len() - i,
    {
        push(
            &mut detail,
            "imported commit ".to_string().concat(fossils[i].as_str()).concat(" (").concat(
                ORIGIN_TRAILER,
            ).concat(") resolves nowhere."),
        );
        proof {
            lemma_take_next(all, i as int);
            assert(detail.deep_view() =~= fossil_lines(all.take(i + 1)));
        }
        i = i + 1;
    }
    assert(all.take(i as int) =~= all);
    push(
        &mut detail,
        "Those imports came from a repository this subrepo no longer tracks — a re-baseline onto a new".to_string(),
    );
    push(
        &mut detail,
        "remote, or a standalone branch rewritten since. The live anchor above them proves the monorepo and".to_string(),
    );
    push(
        &mut detail,
        "the current remote agree, so nothing below it can change what push or pull do.".to_string(),
    );
    assert(detail.deep_view() =~= fossil_finding(all, live_anchor.deep_view()).detail);
    Finding {
        headline: "informational: ".to_string().concat(
            decimal(fossils.len() as u64).as_str(),
        ).concat(
            " historical import trailer(s) unresolvable — superseded by live anchor at ",
        ).concat(live).concat("."),
        detail,
    }
}

/// `Monosplice-Origin` trailers naming commits no configured remote has, split by *where* they
/// sit: problems, then settled fossils.
///
/// Setting a subrepo up anew onto a freshly created repository leaves every clone's history
/// claiming imports from the repository it used to track: shas the new remote never had and
/// never will. Below a live export anchor that is settled: the anchor proves the monorepo and
/// the current remote already agree on a state, so provenance underneath it cannot change what
/// push or pull do. Above it, or with nothing anchored at all, which is what pointing at the
/// wrong remote looks like, the claim is still unexplained and still fails the run.
///
/// `settled` decides that placement; it is injected so the rule stays testable without a repo.
/// A fossil no commit on the HEAD walk carries can never be settled: there is nothing to place.
///
/// Sorted, so that the report is stable run to run.
pub fn classify_origins<F: Fn(&str) -> bool>(
    imported_pub_shas: &Vec<String>,
    fetched_pub_shas: &Vec<String>,
    origin_by_mono: &Vec<(String, Vec<String>)>,
    live_anchor: Option<String>,
    settled: F,
) -> (out: (Vec<Finding>, Vec<Finding>))
    requires
        forall|name: &str| #[trigger] call_requires(settled, (name,)),
    ensures
        exists|verdicts: Seq<bool>|
            {
                let lost = orphans(imported_pub_shas.deep_view(), fetched_pub_shas.deep_view());
                &&& #[trigger] ruled(settled, origin_by_mono.deep_view(), verdicts)
                &&& out.0.deep_view() == origin_problems(
                    lost,
                    origin_by_mono.deep_view(),
                    verdicts,
                )
                &&& out.1.deep_view() == origin_notes(
                    origin_fossils(lost, origin_by_mono.deep_view(), verdicts),
                    live_anchor.deep_view(),
                )
            },
{
    let ghost origins = origin_by_mono.deep_view();
    let mut verdicts: Vec<bool> = Vec::new();
    let mut i: usize = 0;
    while i < origin_by_mono.len()
        invariant
            forall|name: &str| #[trigger] call_requires(settled, (name,)),
            origins == origin_by_mono.deep_view(),
            i <= origin_by_mono.len(),
            verdicts.len() == i,
            forall|k: int| 0 <= k < i ==> rules(settled, origins[k].0, #[trigger] verdicts@[k]),
        decreases origin_by_mono.len() - i,
    {
        let name = origin_by_mono[i].0.as_str();
        let verdict = settled(name);
        assert(origins[i as int] == origin_by_mono[i as int].deep_view());
        assert(rules(settled, origins[i as int].0, verdict));
        verdicts.push(verdict);
        i = i + 1;
    }
    assert(ruled(settled, origins, verdicts@));
    let lost = collect_orphans(imported_pub_shas, fetched_pub_shas);
    let ghost all = lost.deep_view();
    let ghost fossil = |sha: Text| is_fossil(sha, origins, verdicts@);
    let ghost unsettled = |sha: Text| !is_fossil(sha, origins, verdicts@);
    let ghost finding = |sha: Text| orphan_finding(sha);
    let mut problems: Vec<Finding> = Vec::new();
    let mut fossils: Vec<String> = Vec::new();
    proof {
        reveal(Seq::filter);
        assert(all.take(0).filter(fossil) =~= Seq::empty());
        assert(all.take(0).filter(unsettled).map_values(finding) =~= Seq::empty());
        assert(fossils.deep_view() =~= Seq::<Text>::empty());
        assert(problems.deep_view() =~= Seq::<FindingView>::empty());
    }
    let mut k: usize = 0;
    while k < lost.len()
        invariant
            all == lost.deep_view(),
            origins == origin_by_mono.deep_view(),
            verdicts.len() == origin_by_mono.len(),
            fossil == (|sha: Text| is_fossil(sha, origins, verdicts@)),
            unsettled == (|sha: Text| !is_fossil(sha, origins, verdicts@)),
            finding == (|sha: Text| orphan_finding(sha)),
            k <= lost.len(),
            fossils.deep_view() == all.take(k as int).filter(fossil),
            problems.deep_view() == all.take(k as int).filter(unsettled).map_values(finding),
        decreases lost.len() - k,
    {
        proof {
            lemma_filter_next(all, fossil, k as int);
            lemma_filter_next(all, unsettled, k as int);
            assert(all[k as int] == lost[k as int]@);
        }
        let ghost shown = all.take(k as int).filter(unsettled);
        if check_fossil(&lost[k], origin_by_mono, &verdicts) {
            push(&mut fossils, lost[k].clone());
        } else {
            push(&mut problems, new_orphan_finding(&lost[k]));
            assert(shown.push(all[k as int]).map_values(finding) =~= shown.map_values(
                finding,
            ).push(finding(all[k as int])));
        }
        k = k + 1;
    }
    assert(all.take(k as int) =~= all);
    let mut notes: Vec<Finding> = Vec::new();
    if fossils.len() > 0 {
        notes.push(new_fossil_finding(&fossils, &live_anchor));
    }
    assert(notes.deep_view() =~= origin_notes(
        origin_fossils(all, origins, verdicts@),
        live_anchor.deep_view(),
    ));
    (problems, notes)
}

// ---------------------------------------------------------------------------------------
// The whole run.
// ---------------------------------------------------------------------------------------

/// What the subrepos that were checked add up to.
#[derive(Debug)]
pub struct Survey {
    pub sections: Vec<Section>,
    /// Every commit of a public branch that was fetched.
    pub fetched_pub_shas: Vec<String>,
    pub imported_pub_shas: Vec<String>,
    pub origin_by_mono: Vec<(String, Vec<String>)>,
    pub live_anchors: Vec<String>,
    /// Does something vouch for every subrepo?
    pub every_subrepo_anchored: bool,
}

/// The value of a [`Survey`].
#[verifier::ext_equal]
pub struct SurveyView {
    pub sections: Seq<SectionView>,
    pub fetched_pub_shas: Seq<Text>,
    pub imported_pub_shas: Seq<Text>,
    pub origin_by_mono: Seq<(Text, Seq<Text>)>,
    pub live_anchors: Seq<Text>,
    pub every_subrepo_anchored: bool,
}

impl DeepView for Survey {
    type V = SurveyView;

    open spec fn deep_view(&self) -> SurveyView {
        SurveyView {
            sections: self.sections.deep_view(),
            fetched_pub_shas: self.fetched_pub_shas.deep_view(),
            imported_pub_shas: self.imported_pub_shas.deep_view(),
            origin_by_mono: self.origin_by_mono.deep_view(),
            live_anchors: self.live_anchors.deep_view(),
            every_subrepo_anchored: self.every_subrepo_anchored,
        }
    }
}

impl SurveyView {
    /// Nothing checked yet.
    pub open spec fn blank() -> SurveyView {
        SurveyView {
            sections: Seq::empty(),
            fetched_pub_shas: Seq::empty(),
            imported_pub_shas: Seq::empty(),
            origin_by_mono: Seq::empty(),
            live_anchors: Seq::empty(),
            every_subrepo_anchored: true,
        }
    }

    /// One more subrepo, of which there is nothing to say beyond its section.
    pub open spec fn unchecked(self, section: SectionView) -> SurveyView {
        SurveyView {
            sections: self.sections.push(section),
            every_subrepo_anchored: false,
            ..self
        }
    }

    /// One more subrepo, with what was fetched of its public branch. Every view derives its
    /// imports from the same HEAD walk, so the last one wins and they are all equal.
    pub open spec fn checked(
        self,
        section: SectionView,
        checked: CheckedView,
        fetched: Seq<Text>,
    ) -> SurveyView {
        SurveyView {
            sections: self.sections.push(section),
            fetched_pub_shas: self.fetched_pub_shas + fetched,
            imported_pub_shas: checked.view.imported_pub_shas,
            origin_by_mono: checked.view.origin_by_mono,
            live_anchors: match checked.live_anchor {
                Some(anchor) => self.live_anchors.push(anchor),
                None => self.live_anchors,
            },
            every_subrepo_anchored: self.every_subrepo_anchored && checked.live_anchor is Some,
        }
    }
}

/// The subrepos from `i` on.
pub open spec fn survey_rest_step(
    subrepos: Seq<ResolvedSubrepoView>,
    i: int,
    survey: SurveyView,
    log: Seq<ReplyView>,
    at: int,
) -> Step<Result<SurveyView, FailureView>>
    decreases subrepos.len() - i,
{
    if i >= subrepos.len() {
        Step::Done(Ok(survey), at)
    } else {
        match check_subrepo_step(subrepos[i], log, at) {
            Step::Ask(request) => Step::Ask(request),
            Step::Done(Err(failure), at) => Step::Done(Err(failure), at),
            Step::Done(Ok((section, None)), at) => survey_rest_step(
                subrepos,
                i + 1,
                survey.unchecked(section),
                log,
                at,
            ),
            Step::Done(Ok((section, Some(checked))), at) => match shas_at(log, at) {
                None => Step::Ask(RequestView::RevList { args: seq![checked.view.tracking_ref] }),
                Some(Err(err)) => Step::Done(
                    Err(FailureView { message: err.text(), exit_code: 2 }),
                    at + 1,
                ),
                Some(Ok(fetched)) => survey_rest_step(
                    subrepos,
                    i + 1,
                    survey.checked(section, checked, fetched),
                    log,
                    at + 1,
                ),
            },
        }
    }
}

fn survey_subrepos<'a>(talk: &mut Talk<'a>, subrepos: &Vec<ResolvedSubrepo>) -> (turn: Turn<
    Result<Survey, Failure>,
>)
    ensures
        final(talk).replies == old(talk).replies,
        step_result(turn, final(talk).at) == survey_rest_step(
            subrepos.deep_view(),
            0,
            SurveyView::blank(),
            old(talk).log(),
            old(talk).at as int,
        ),
{
    let ghost all = subrepos.deep_view();
    let ghost log = talk.log();
    let ghost start = talk.at as int;
    let mut survey = Survey {
        sections: Vec::new(),
        fetched_pub_shas: Vec::new(),
        imported_pub_shas: Vec::new(),
        origin_by_mono: Vec::new(),
        live_anchors: Vec::new(),
        every_subrepo_anchored: true,
    };
    assert(survey.deep_view() =~= SurveyView::blank());
    let mut i: usize = 0;
    while i < subrepos.len()
        invariant
            all == subrepos.deep_view(),
            i <= subrepos.len(),
            talk.replies == old(talk).replies,
            log == old(talk).log(),
            start == old(talk).at,
            survey_rest_step(all, 0, SurveyView::blank(), log, start) == survey_rest_step(
                all,
                i as int,
                survey.deep_view(),
                log,
                talk.at as int,
            ),
        decreases subrepos.len() - i,
    {
        assert(all[i as int] == subrepos[i as int].deep_view());
        let ghost before = survey.deep_view();
        let (section, checked) = match check_subrepo(talk, &subrepos[i])? {
            Ok(checked) => checked,
            Err(failure) => return Ok(Err(failure)),
        };
        match checked {
            None => {
                push(&mut survey.sections, section);
                survey.every_subrepo_anchored = false;
                assert(survey.deep_view() =~= before.unchecked(section.deep_view()));
            },
            Some(checked) => {
                let ghost seen = checked.deep_view();
                let fetched = match talk.shas() {
                    None => return Err(
                        Request::RevList { args: vec![checked.view.tracking_ref] },
                    ),
                    Some(Err(err)) => return Ok(Err(Failure::error(err.to_string()))),
                    Some(Ok(fetched)) => fetched,
                };
                push(&mut survey.sections, section);
                extend(&mut survey.fetched_pub_shas, clone_texts(fetched));
                survey.imported_pub_shas = checked.view.imported_pub_shas;
                survey.origin_by_mono = checked.view.origin_by_mono;
                match checked.live_anchor {
                    Some(anchor) => push(&mut survey.live_anchors, anchor),
                    None => survey.every_subrepo_anchored = false,
                }
                assert(survey.deep_view() =~= before.checked(
                    section.deep_view(),
                    seen,
                    fetched.deep_view(),
                ));
            },
        }
        i = i + 1;
    }
    Ok(Ok(survey))
}

/// Is a commit below every anchor from `j` on?
pub open spec fn below_all_step(
    mono_sha: Text,
    anchors: Seq<Text>,
    j: int,
    log: Seq<ReplyView>,
    at: int,
) -> Step<bool>
    decreases anchors.len() - j,
{
    if j >= anchors.len() {
        Step::Done(true, at)
    } else {
        match flag_at(log, at) {
            None => Step::Ask(is_ancestor_request(mono_sha, anchors[j])),
            Some(false) => Step::Done(false, at + 1),
            Some(true) => below_all_step(mono_sha, anchors, j + 1, log, at + 1),
        }
    }
}

fn below_all<'a>(talk: &mut Talk<'a>, mono_sha: &String, anchors: &Vec<String>) -> (turn: Turn<
    bool,
>)
    ensures
        final(talk).replies == old(talk).replies,
        step(turn, final(talk).at) == below_all_step(
            mono_sha@,
            anchors.deep_view(),
            0,
            old(talk).log(),
            old(talk).at as int,
        ),
{
    let ghost log = talk.log();
    let ghost start = talk.at as int;
    let mut j: usize = 0;
    while j < anchors.len()
        invariant
            j <= anchors.len(),
            talk.replies == old(talk).replies,
            log == old(talk).log(),
            start == old(talk).at,
            below_all_step(mono_sha@, anchors.deep_view(), 0, log, start) == below_all_step(
                mono_sha@,
                anchors.deep_view(),
                j as int,
                log,
                talk.at as int,
            ),
        decreases anchors.len() - j,
    {
        assert(anchors.deep_view()[j as int] == anchors[j as int]@);
        match talk.flag() {
            None => return Err(ask_is_ancestor(mono_sha.as_str(), anchors[j].as_str())),
            Some(false) => return Ok(false),
            Some(true) => {},
        }
        j = j + 1;
    }
    Ok(true)
}

/// Does a commit carry one of these imports?
pub open spec fn carries(values: Seq<Text>, lost: Seq<Text>) -> bool {
    exists|k: int| 0 <= k < values.len() && lost.contains(#[trigger] values[k])
}

fn carries_any(values: &Vec<String>, lost: &Vec<String>) -> (out: bool)
    ensures
        out == carries(values.deep_view(), lost.deep_view()),
{
    let mut k: usize = 0;
    while k < values.len()
        invariant
            k <= values.len(),
            forall|j: int|
                0 <= j < k ==> !lost.deep_view().contains(#[trigger] values.deep_view()[j]),
        decreases values.len() - k,
    {
        assert(values.deep_view()[k as int] == values[k as int]@);
        if contains_text(lost, &values[k]) {
            return true;
        }
        k = k + 1;
    }
    false
}

/// Which of the monorepo commits from `i` on that carry an orphaned import are below every
/// live anchor, after those in `settled`.
pub open spec fn settle_rest_step(
    origin_by_mono: Seq<(Text, Seq<Text>)>,
    lost: Seq<Text>,
    anchors: Seq<Text>,
    i: int,
    settled: Seq<Text>,
    log: Seq<ReplyView>,
    at: int,
) -> Step<Seq<Text>>
    decreases origin_by_mono.len() - i,
{
    if i >= origin_by_mono.len() {
        Step::Done(settled, at)
    } else if !carries(origin_by_mono[i].1, lost) {
        settle_rest_step(origin_by_mono, lost, anchors, i + 1, settled, log, at)
    } else {
        match below_all_step(origin_by_mono[i].0, anchors, 0, log, at) {
            Step::Ask(request) => Step::Ask(request),
            Step::Done(below, at) => settle_rest_step(
                origin_by_mono,
                lost,
                anchors,
                i + 1,
                if below {
                    settled.push(origin_by_mono[i].0)
                } else {
                    settled
                },
                log,
                at,
            ),
        }
    }
}

/// The monorepo commits whose imports are settled.
///
/// A live anchor proves *its* subrepo agrees with *its* remote at that commit; it says nothing
/// about another subrepo's remote. An import trailer cannot be attributed to a subrepo once its
/// sha resolves nowhere, so a fossil counts as settled only when every configured subrepo has a
/// live anchor and the commit carrying it is below all of them.
pub open spec fn settled_step(survey: SurveyView, log: Seq<ReplyView>, at: int) -> Step<Seq<Text>> {
    if survey.every_subrepo_anchored && survey.live_anchors.len() > 0 {
        settle_rest_step(
            survey.origin_by_mono,
            orphans(survey.imported_pub_shas, survey.fetched_pub_shas),
            survey.live_anchors,
            0,
            Seq::empty(),
            log,
            at,
        )
    } else {
        Step::Done(Seq::empty(), at)
    }
}

fn settle<'a>(talk: &mut Talk<'a>, survey: &Survey) -> (turn: Turn<Vec<String>>)
    ensures
        final(talk).replies == old(talk).replies,
        step(turn, final(talk).at) == settled_step(
            survey.deep_view(),
            old(talk).log(),
            old(talk).at as int,
        ),
{
    let mut settled: Vec<String> = Vec::new();
    assert(settled.deep_view() =~= Seq::<Text>::empty());
    if !survey.every_subrepo_anchored || survey.live_anchors.len() == 0 {
        return Ok(settled);
    }
    let lost = collect_orphans(&survey.imported_pub_shas, &survey.fetched_pub_shas);
    let ghost origins = survey.origin_by_mono.deep_view();
    let ghost anchors = survey.live_anchors.deep_view();
    let ghost log = talk.log();
    let ghost start = talk.at as int;
    let mut i: usize = 0;
    while i < survey.origin_by_mono.len()
        invariant
            survey.every_subrepo_anchored,
            survey.live_anchors.len() > 0,
            origins == survey.origin_by_mono.deep_view(),
            anchors == survey.live_anchors.deep_view(),
            lost.deep_view() == orphans(
                survey.imported_pub_shas.deep_view(),
                survey.fetched_pub_shas.deep_view(),
            ),
            i <= survey.origin_by_mono.len(),
            talk.replies == old(talk).replies,
            log == old(talk).log(),
            start == old(talk).at,
            settle_rest_step(origins, lost.deep_view(), anchors, 0, Seq::empty(), log, start)
                == settle_rest_step(
                origins,
                lost.deep_view(),
                anchors,
                i as int,
                settled.deep_view(),
                log,
                talk.at as int,
            ),
        decreases survey.origin_by_mono.len() - i,
    {
        assert(origins[i as int] == survey.origin_by_mono[i as int].deep_view());
        if carries_any(&survey.origin_by_mono[i].1, &lost) {
            if below_all(talk, &survey.origin_by_mono[i].0, &survey.live_anchors)? {
                push(&mut settled, survey.origin_by_mono[i].0.clone());
            }
        }
        i = i + 1;
    }
    Ok(settled)
}

/// The findings about monorepo history: unexplained imports, and settled ones.
#[verifier::ext_equal]
pub struct OriginFindingsView {
    pub orphans: Seq<FindingView>,
    pub fossils: Seq<FindingView>,
}

/// The verdicts that a list of settled commits gives.
pub open spec fn verdicts_by(
    origin_by_mono: Seq<(Text, Seq<Text>)>,
    settled: Seq<Text>,
) -> Seq<bool> {
    origin_by_mono.map_values(|carrier: (Text, Seq<Text>)| settled.contains(carrier.0))
}

/// The findings about monorepo history, given which commits are settled.
pub open spec fn origin_findings(
    survey: SurveyView,
    settled: Seq<Text>,
    live_anchor: Option<Text>,
) -> OriginFindingsView {
    let lost = orphans(survey.imported_pub_shas, survey.fetched_pub_shas);
    let verdicts = verdicts_by(survey.origin_by_mono, settled);
    OriginFindingsView {
        orphans: origin_problems(lost, survey.origin_by_mono, verdicts),
        fossils: origin_notes(origin_fossils(lost, survey.origin_by_mono, verdicts), live_anchor),
    }
}

/// The findings about monorepo history. Only meaningful with every subrepo in view: a
/// `Monosplice-Origin` trailer in monorepo history may belong to any of the configured remotes.
pub open spec fn examine_origins_step(
    survey: SurveyView,
    only: Option<Text>,
    log: Seq<ReplyView>,
    at: int,
) -> Step<OriginFindingsView> {
    if only is Some {
        Step::Done(OriginFindingsView { orphans: Seq::empty(), fossils: Seq::empty() }, at)
    } else {
        match oldest_anchor_step(survey.live_anchors, log, at) {
            Step::Ask(request) => Step::Ask(request),
            Step::Done(live_anchor, at) => match settled_step(survey, log, at) {
                Step::Ask(request) => Step::Ask(request),
                Step::Done(settled, at) => Step::Done(
                    origin_findings(survey, settled, live_anchor),
                    at,
                ),
            },
        }
    }
}

fn examine_origins<'a>(talk: &mut Talk<'a>, survey: &Survey, only: &Option<String>) -> (turn: Turn<
    (Vec<Finding>, Vec<Finding>),
>)
    ensures
        final(talk).replies == old(talk).replies,
        match turn {
            Err(request) => Step::Ask(request.deep_view()),
            Ok((orphans, fossils)) => Step::Done(
                OriginFindingsView {
                    orphans: orphans.deep_view(),
                    fossils: fossils.deep_view(),
                },
                final(talk).at as int,
            ),
        } == examine_origins_step(
            survey.deep_view(),
            only.deep_view(),
            old(talk).log(),
            old(talk).at as int,
        ),
{
    if only.is_some() {
        let none: Vec<Finding> = Vec::new();
        assert(none.deep_view() =~= Seq::<FindingView>::empty());
        let also_none: Vec<Finding> = Vec::new();
        assert(also_none.deep_view() =~= Seq::<FindingView>::empty());
        return Ok((none, also_none));
    }
    let live_anchor = oldest_anchor(talk, &survey.live_anchors)?;
    let settled = settle(talk, survey)?;
    let ghost below = settled.deep_view();
    let is_settled = |mono_sha: &str| -> (out: bool)
        ensures
            out == settled.deep_view().contains(mono_sha@),
        {
            let name = mono_sha.to_string();
            contains_text(&settled, &name)
        };
    let out = classify_origins(
        &survey.imported_pub_shas,
        &survey.fetched_pub_shas,
        &survey.origin_by_mono,
        live_anchor,
        is_settled,
    );
    proof {
        let origins = survey.origin_by_mono.deep_view();
        let lost = orphans(
            survey.imported_pub_shas.deep_view(),
            survey.fetched_pub_shas.deep_view(),
        );
        let verdicts = choose|verdicts: Seq<bool>|
            {
                &&& #[trigger] ruled(is_settled, origins, verdicts)
                &&& out.0.deep_view() == origin_problems(lost, origins, verdicts)
                &&& out.1.deep_view() == origin_notes(
                    origin_fossils(lost, origins, verdicts),
                    live_anchor.deep_view(),
                )
            };
        assert forall|i: int| 0 <= i < verdicts.len() implies #[trigger] verdicts[i]
            == below.contains(origins[i].0) by {
            assert(rules(is_settled, origins[i].0, verdicts[i]));
        }
        assert(verdicts =~= verdicts_by(origins, below));
    }
    Ok(out)
}

/// How many problems the sections hold.
pub open spec fn section_problems(sections: Seq<SectionView>) -> nat
    decreases sections.len(),
{
    if sections.len() == 0 {
        0
    } else {
        section_problems(sections.drop_last()) + sections.last().row.problems.len()
    }
}

/// How many problems there are in all: an unfinished pull, what is wrong with each subrepo, and
/// the imports that nothing explains.
pub open spec fn problem_count(
    pull_in_progress: Option<PullInProgressView>,
    sections: Seq<SectionView>,
    orphans: Seq<FindingView>,
) -> nat {
    (if pull_in_progress is Some {
        1nat
    } else {
        0nat
    }) + section_problems(sections) + orphans.len()
}

/// The headlines of findings.
pub open spec fn headlines(findings: Seq<FindingView>) -> Seq<Text> {
    findings.map_values(|finding: FindingView| finding.headline)
}

/// The rows of sections.
pub open spec fn rows(sections: Seq<SectionView>) -> Seq<DoctorSubrepoView> {
    sections.map_values(|section: SectionView| section.row)
}

/// The report on what was found.
pub open spec fn report_on(
    pull_in_progress: Option<PullInProgressView>,
    sections: Seq<SectionView>,
    findings: OriginFindingsView,
) -> DoctorReportView {
    let problems = problem_count(pull_in_progress, sections, findings.orphans);
    DoctorReportView {
        ok: problems == 0,
        problems,
        pull_in_progress,
        subrepos: rows(sections),
        monorepo: MonorepoFindingsView {
            problems: headlines(findings.orphans),
            notes: headlines(findings.fossils),
        },
    }
}

fn collect_headlines(findings: &Vec<Finding>) -> (out: Vec<String>)
    ensures
        out.deep_view() == headlines(findings.deep_view()),
{
    let mut out: Vec<String> = Vec::new();
    let ghost all = findings.deep_view();
    assert(out.deep_view() =~= headlines(all.take(0)));
    let mut i: usize = 0;
    while i < findings.len()
        invariant
            all == findings.deep_view(),
            i <= findings.len(),
            out.deep_view() == headlines(all.take(i as int)),
        decreases findings.len() - i,
    {
        push(&mut out, findings[i].headline.clone());
        proof {
            lemma_take_next(all, i as int);
            assert(out.deep_view() =~= headlines(all.take(i + 1)));
        }
        i = i + 1;
    }
    assert(all.take(i as int) =~= all);
    out
}

fn collect_rows(sections: &Vec<Section>) -> (out: Vec<DoctorSubrepo>)
    ensures
        out.deep_view() == rows(sections.deep_view()),
{
    let mut out: Vec<DoctorSubrepo> = Vec::new();
    let ghost all = sections.deep_view();
    assert(out.deep_view() =~= rows(all.take(0)));
    let mut i: usize = 0;
    while i < sections.len()
        invariant
            all == sections.deep_view(),
            i <= sections.len(),
            out.deep_view() == rows(all.take(i as int)),
        decreases sections.len() - i,
    {
        push(&mut out, sections[i].row.clone());
        proof {
            lemma_take_next(all, i as int);
            assert(out.deep_view() =~= rows(all.take(i + 1)));
        }
        i = i + 1;
    }
    assert(all.take(i as int) =~= all);
    out
}

/// Every problem there is, by its headline.
fn collect_problems(
    pull_in_progress: &Option<PullInProgress>,
    sections: &Vec<Section>,
    orphans: &Vec<Finding>,
) -> (out: Vec<String>)
    ensures
        out.len() == problem_count(
            pull_in_progress.deep_view(),
            sections.deep_view(),
            orphans.deep_view(),
        ),
{
    let mut out: Vec<String> = Vec::new();
    if let Some(pull) = pull_in_progress {
        out.push(pull.subrepo.clone());
    }
    let ghost first = out.len();
    let ghost all = sections.deep_view();
    let mut i: usize = 0;
    while i < sections.len()
        invariant
            all == sections.deep_view(),
            i <= sections.len(),
            out.len() == first + section_problems(all.take(i as int)),
        decreases sections.len() - i,
    {
        proof {
            lemma_take_next(all, i as int);
            assert(all.take(i + 1).drop_last() =~= all.take(i as int));
            assert(all[i as int] == sections[i as int].deep_view());
        }
        let mut more = clone_texts(&sections[i].row.problems);
        assert(more.len() == more.deep_view().len());
        out.append(&mut more);
        i = i + 1;
    }
    assert(all.take(i as int) =~= all);
    let mut more = collect_headlines(orphans);
    assert(more.len() == more.deep_view().len());
    out.append(&mut more);
    out
}

fn new_report(
    pull_in_progress: Option<PullInProgress>,
    sections: &Vec<Section>,
    orphans: &Vec<Finding>,
    fossils: &Vec<Finding>,
) -> (out: DoctorReport)
    ensures
        out.deep_view() == report_on(
            pull_in_progress.deep_view(),
            sections.deep_view(),
            (OriginFindingsView { orphans: orphans.deep_view(), fossils: fossils.deep_view() }),
        ),
{
    let problems: usize = collect_problems(&pull_in_progress, sections, orphans).len();
    DoctorReport {
        ok: problems == 0,
        problems,
        pull_in_progress,
        subrepos: collect_rows(sections),
        monorepo: MonorepoFindings {
            problems: collect_headlines(orphans),
            notes: collect_headlines(fossils),
        },
    }
}

/// The lines of an unfinished pull.
pub open spec fn pull_lines(pull_in_progress: Option<PullInProgressView>) -> Seq<Text> {
    match pull_in_progress {
        None => Seq::empty(),
        Some(pull) => seq![
            "✗ an unfinished pull of "@ + pull.subrepo + " is recorded in "@ + pull.state_path,
            "  Resolve the conflict, `git add` the files, then run `monosplice pull --continue`."@,
            "  To abandon that import instead, run `monosplice pull --abort`."@,
            ""@,
        ],
    }
}

/// The lines of sections, a blank one after each.
pub open spec fn sections_lines(sections: Seq<SectionView>) -> Seq<Text>
    decreases sections.len(),
{
    if sections.len() == 0 {
        Seq::empty()
    } else {
        sections_lines(sections.drop_last()) + sections.last().lines.push(""@)
    }
}

/// The lines of findings, under one mark.
pub open spec fn findings_lines(mark: Text, findings: Seq<FindingView>) -> Seq<Text>
    decreases findings.len(),
{
    if findings.len() == 0 {
        Seq::empty()
    } else {
        findings_lines(mark, findings.drop_last()) + finding_lines(mark, findings.last())
    }
}

/// The lines about monorepo history, if there is anything to say.
pub open spec fn monorepo_lines(findings: OriginFindingsView) -> Seq<Text> {
    if findings.orphans.len() == 0 && findings.fossils.len() == 0 {
        Seq::empty()
    } else {
        seq!["monorepo"@] + findings_lines("✗"@, findings.orphans) + findings_lines(
            "!"@,
            findings.fossils,
        ) + seq![""@]
    }
}

/// The whole report as a terminal shows it.
pub open spec fn report_lines(
    report: DoctorReportView,
    sections: Seq<SectionView>,
    findings: OriginFindingsView,
) -> Seq<Text> {
    pull_lines(report.pull_in_progress) + sections_lines(sections) + monorepo_lines(findings) + (
    if report.ok {
        seq!["✓ all checks passed"@]
    } else {
        Seq::empty()
    })
}

fn render_findings(out: &mut Vec<String>, mark: &str, findings: &Vec<Finding>)
    ensures
        final(out).deep_view() == old(out).deep_view() + findings_lines(
            mark@,
            findings.deep_view(),
        ),
{
    let ghost before = out.deep_view();
    let ghost all = findings.deep_view();
    let mut i: usize = 0;
    assert(before + findings_lines(mark@, all.take(0)) =~= before);
    while i < findings.len()
        invariant
            before == old(out).deep_view(),
            all == findings.deep_view(),
            i <= findings.len(),
            out.deep_view() == before + findings_lines(mark@, all.take(i as int)),
        decreases findings.len() - i,
    {
        proof {
            lemma_take_next(all, i as int);
            assert(all.take(i + 1).drop_last() =~= all.take(i as int));
            assert(all[i as int] == findings[i as int].deep_view());
        }
        extend(out, render_finding(mark, &findings[i]));
        assert(out.deep_view() =~= before + findings_lines(mark@, all.take(i + 1)));
        i = i + 1;
    }
    assert(all.take(i as int) =~= all);
}

fn render_sections(out: &mut Vec<String>, sections: &Vec<Section>)
    ensures
        final(out).deep_view() == old(out).deep_view() + sections_lines(sections.deep_view()),
{
    let ghost before = out.deep_view();
    let ghost all = sections.deep_view();
    let mut i: usize = 0;
    assert(before + sections_lines(all.take(0)) =~= before);
    while i < sections.len()
        invariant
            before == old(out).deep_view(),
            all == sections.deep_view(),
            i <= sections.len(),
            out.deep_view() == before + sections_lines(all.take(i as int)),
        decreases sections.len() - i,
    {
        proof {
            lemma_take_next(all, i as int);
            assert(all.take(i + 1).drop_last() =~= all.take(i as int));
            assert(all[i as int] == sections[i as int].deep_view());
        }
        extend(out, clone_texts(&sections[i].lines));
        push(out, "".to_string());
        assert(out.deep_view() =~= before + sections_lines(all.take(i + 1)));
        i = i + 1;
    }
    assert(all.take(i as int) =~= all);
}

/// The report as a terminal shows it, line by line.
pub fn render(
    report: &DoctorReport,
    sections: &Vec<Section>,
    orphans: &Vec<Finding>,
    fossils: &Vec<Finding>,
) -> (out: Vec<String>)
    ensures
        out.deep_view() == report_lines(
            report.deep_view(),
            sections.deep_view(),
            (OriginFindingsView { orphans: orphans.deep_view(), fossils: fossils.deep_view() }),
        ),
{
    let ghost findings = OriginFindingsView {
        orphans: orphans.deep_view(),
        fossils: fossils.deep_view(),
    };
    let mut out: Vec<String> = Vec::new();
    if let Some(pull) = &report.pull_in_progress {
        out.push(
            "✗ an unfinished pull of ".to_string().concat(pull.subrepo.as_str()).concat(
                " is recorded in ",
            ).concat(pull.state_path.as_str()),
        );
        out.push(
            "  Resolve the conflict, `git add` the files, then run `monosplice pull --continue`.".to_string(),
        );
        out.push("  To abandon that import instead, run `monosplice pull --abort`.".to_string());
        out.push("".to_string());
    }
    assert(out.deep_view() =~= pull_lines(report.deep_view().pull_in_progress));
    render_sections(&mut out, sections);
    let ghost above = out.deep_view();
    if orphans.len() > 0 || fossils.len() > 0 {
        push(&mut out, "monorepo".to_string());
        render_findings(&mut out, "✗", orphans);
        render_findings(&mut out, "!", fossils);
        push(&mut out, "".to_string());
    }
    assert(out.deep_view() =~= above + monorepo_lines(findings));
    if report.ok {
        push(&mut out, "✓ all checks passed".to_string());
    }
    assert(out.deep_view() =~= report_lines(report.deep_view(), sections.deep_view(), findings));
    out
}

/// What a run of `doctor` ends in.
#[derive(Debug)]
pub struct DoctorRun {
    pub report: DoctorReport,
    /// The report as a terminal shows it; nothing with `--json`.
    pub lines: Vec<String>,
    /// Why the run exits non-zero, if it does.
    pub failure: Option<Failure>,
}

/// The value of a [`DoctorRun`].
#[verifier::ext_equal]
pub struct DoctorRunView {
    pub report: DoctorReportView,
    pub lines: Seq<Text>,
    pub failure: Option<FailureView>,
}

impl DeepView for DoctorRun {
    type V = DoctorRunView;

    open spec fn deep_view(&self) -> DoctorRunView {
        DoctorRunView {
            report: self.report.deep_view(),
            lines: self.lines.deep_view(),
            failure: self.failure.deep_view(),
        }
    }
}

/// What a run ends in: the report, its lines, and the verdict.
pub open spec fn finish(
    json: bool,
    pull_in_progress: Option<PullInProgressView>,
    sections: Seq<SectionView>,
    findings: OriginFindingsView,
) -> DoctorRunView {
    let report = report_on(pull_in_progress, sections, findings);
    DoctorRunView {
        report,
        lines: if json {
            Seq::empty()
        } else {
            report_lines(report, sections, findings)
        },
        failure: if report.ok {
            None
        } else {
            Some(
                FailureView {
                    message: decimal_text(report.problems)
                        + " problem(s) found — see the report above."@,
                    exit_code: 1,
                },
            )
        },
    }
}

/// The record of an interrupted pull, and where it is kept.
pub open spec fn pull_in_progress_step(log: Seq<ReplyView>, at: int) -> Step<
    Result<Option<PullInProgressView>, FailureView>,
> {
    match sequencer_at(log, at) {
        None => Step::Ask(RequestView::ReadSequencer),
        Some(None) => Step::Done(Ok(None), at + 1),
        Some(Some(state)) => match path_at(log, at + 1) {
            None => Step::Ask(RequestView::SequencerPath),
            Some(Err(detail)) => Step::Done(
                Err(FailureView { message: detail, exit_code: 2 }),
                at + 2,
            ),
            Some(Ok(state_path)) => Step::Done(
                Ok(Some(PullInProgressView { subrepo: state.subrepo, state_path })),
                at + 2,
            ),
        },
    }
}

fn load_pull_in_progress<'a>(talk: &mut Talk<'a>) -> (turn: Turn<
    Result<Option<PullInProgress>, Failure>,
>)
    ensures
        final(talk).replies == old(talk).replies,
        step_result(turn, final(talk).at) == pull_in_progress_step(
            old(talk).log(),
            old(talk).at as int,
        ),
{
    let state = match talk.sequencer() {
        None => return Err(Request::ReadSequencer),
        Some(None) => return Ok(Ok(None)),
        Some(Some(state)) => state,
    };
    match talk.path() {
        None => Err(Request::SequencerPath),
        Some(Err(detail)) => Ok(Err(Failure::error(detail.clone()))),
        Some(Ok(path)) => Ok(
            Ok(
                Some(
                    PullInProgress { subrepo: state.subrepo.clone(), state_path: path.clone() },
                ),
            ),
        ),
    }
}

/// The run on a given set of subrepos.
pub open spec fn examine_step(
    args: DoctorArgsView,
    pull_in_progress: Option<PullInProgressView>,
    subrepos: Seq<ResolvedSubrepoView>,
    log: Seq<ReplyView>,
    at: int,
) -> Step<Result<DoctorRunView, FailureView>> {
    match survey_rest_step(subrepos, 0, SurveyView::blank(), log, at) {
        Step::Ask(request) => Step::Ask(request),
        Step::Done(Err(failure), at) => Step::Done(Err(failure), at),
        Step::Done(Ok(survey), at) => match examine_origins_step(survey, args.subrepo, log, at) {
            Step::Ask(request) => Step::Ask(request),
            Step::Done(findings, at) => Step::Done(
                Ok(finish(args.json, pull_in_progress, survey.sections, findings)),
                at,
            ),
        },
    }
}

/// [`run`] as a dialogue.
pub open spec fn run_step(args: DoctorArgsView, log: Seq<ReplyView>, at: int) -> Step<
    Result<DoctorRunView, FailureView>,
> {
    match project_at(log, at) {
        None => Step::Ask(RequestView::OpenProject),
        Some(Err(failure)) => Step::Done(Err(failure), at + 1),
        Some(Ok(_)) => match pull_in_progress_step(log, at + 1) {
            Step::Ask(request) => Step::Ask(request),
            Step::Done(Err(failure), at) => Step::Done(Err(failure), at),
            Step::Done(Ok(pull_in_progress), at) => match selected_at(log, at) {
                None => Step::Ask(RequestView::SelectSubrepos { name: args.subrepo }),
                Some(Err(failure)) => Step::Done(Err(failure), at + 1),
                Some(Ok(subrepos)) => examine_step(
                    args,
                    pull_in_progress,
                    subrepos,
                    log,
                    at + 1,
                ),
            },
        },
    }
}

/// Check every configured subrepo, or the one that was named, and monorepo history with them.
pub fn run<'a>(talk: &mut Talk<'a>, args: &DoctorArgs) -> (turn: Turn<Result<DoctorRun, Failure>>)
    ensures
        final(talk).replies == old(talk).replies,
        step_result(turn, final(talk).at) == run_step(
            args.deep_view(),
            old(talk).log(),
            old(talk).at as int,
        ),
{
    match talk.project() {
        None => return Err(Request::OpenProject),
        Some(Err(failure)) => return Ok(Err(failure.clone())),
        Some(Ok(_)) => {},
    }
    let pull_in_progress = match load_pull_in_progress(talk)? {
        Ok(pull_in_progress) => pull_in_progress,
        Err(failure) => return Ok(Err(failure)),
    };
    let subrepos = match talk.selected() {
        None => return Err(Request::SelectSubrepos { name: args.subrepo.clone() }),
        Some(Err(failure)) => return Ok(Err(failure.clone())),
        Some(Ok(subrepos)) => subrepos,
    };
    let survey = match survey_subrepos(talk, subrepos)? {
        Ok(survey) => survey,
        Err(failure) => return Ok(Err(failure)),
    };
    let (orphans, fossils) = examine_origins(talk, &survey, &args.subrepo)?;
    let report = new_report(pull_in_progress, &survey.sections, &orphans, &fossils);
    let lines = if args.json {
        let none: Vec<String> = Vec::new();
        assert(none.deep_view() =~= Seq::<Text>::empty());
        none
    } else {
        render(&report, &survey.sections, &orphans, &fossils)
    };
    let failure = if report.ok {
        None
    } else {
        Some(
            Failure::exit1(
                decimal(report.problems as u64).concat(" problem(s) found — see the report above."),
            ),
        )
    };
    Ok(Ok(DoctorRun { report, lines, failure }))
}

} // verus!
