//! What the library says, word by word.

use monosplice::config::ResolvedSubrepo;
use monosplice::doctor::{classify_origins, render_finding, Finding};
use monosplice::exporter::{AnchorRecovery, ExportError};
use monosplice::git::GitError;
use monosplice::hooks::HookError;
use monosplice::importer::{ImportConflict, ImportError};
use monosplice::ops::{
    confirm_first_publish, nothing_exists_yet, report_import_failure, resolve_or_abort,
    resolve_or_abort_pull, short, unreachable_source, ConfirmFirstPublishOptions,
};
use monosplice::report::SubrepoFailure;
use monosplice::sync_view::{
    fork_tracking_ref, is_triangular, pull_source, remote_tracking_ref, unpublished_view,
    SyncViewError,
};
use monosplice::talk::{Reply, Request, Talk};

fn subrepo() -> ResolvedSubrepo {
    ResolvedSubrepo {
        name: "core".to_string(),
        path: "core".to_string(),
        remote: "git@example.test:core.git".to_string(),
        upstream: None,
        branch: "main".to_string(),
        push_branch: "main".to_string(),
        exclude: Vec::new(),
        rewrite_message: None,
        transform: None,
        scan: None,
    }
}

fn triangular() -> ResolvedSubrepo {
    ResolvedSubrepo {
        upstream: Some("git@example.test:them/core.git".to_string()),
        remote: "git@example.test:me/core.git".to_string(),
        push_branch: "patches".to_string(),
        ..subrepo()
    }
}

// --- refs, sources, views ---

fn forked(upstream: Option<&str>) -> ResolvedSubrepo {
    ResolvedSubrepo {
        remote: "fork".to_string(),
        upstream: upstream.map(str::to_string),
        ..subrepo()
    }
}

#[test]
fn tracking_refs_are_namespaced_per_subrepo() {
    assert_eq!(remote_tracking_ref("core"), "refs/monosplice/core/remote");
    assert_eq!(fork_tracking_ref("core"), "refs/monosplice/core/fork");
}

#[test]
fn upstream_decides_where_the_tree_comes_from() {
    assert_eq!(pull_source(&forked(None)), "fork");
    assert!(!is_triangular(&forked(None)));
    assert_eq!(pull_source(&forked(Some("up"))), "up");
    assert!(is_triangular(&forked(Some("up"))));
}

#[test]
fn an_unpublished_view_knows_nothing_and_is_unrelated() {
    let view = unpublished_view("core");
    assert_eq!(view.tracking_ref, "refs/monosplice/core/remote");
    assert_eq!(view.pub_head, None);
    assert!(view.exported_mono_to_pub.is_empty());
    assert!(view.imported_pub_shas.is_empty());
    assert_eq!(view.export_base, None);
    assert_eq!(view.last_exported_mono, None);
    assert!(view.unreflected_pub.is_empty());
    assert!(view.broken_source_refs.is_empty());
    assert!(!view.related);
}

#[test]
fn no_fetch_yet_reads_like_the_ts_error() {
    let err = SyncViewError::NoFetchYet {
        subrepo: "core".to_string(),
    };
    assert_eq!(
        err.to_string(),
        "core: no fetch yet — run without --offline first"
    );
}

// --- refusals ---

#[test]
fn the_two_ways_out_name_the_command_that_wrote_the_sequencer() {
    assert_eq!(
        resolve_or_abort_pull(),
        "  monosplice pull --continue\nTo abandon the import instead, restoring the monorepo to its pre-pull state:\n  monosplice pull --abort"
    );
    assert!(resolve_or_abort(Some("monosplice sync --continue"))
        .starts_with("  monosplice sync --continue\n"));
    // Abort is always pull's, whichever command wrote the sequencer.
    assert!(resolve_or_abort(Some("monosplice sync --continue"))
        .ends_with("  monosplice pull --abort"));
}

#[test]
fn unreachable_names_upstream_in_triangular_mode_and_the_remote_otherwise() {
    let err = GitError {
        git_args: vec!["ls-remote".to_string()],
        exit_code: Some(128),
        stderr: "fatal: nope\n".to_string(),
    };
    assert_eq!(
        unreachable_source(&subrepo(), &err).message,
        "core: cannot reach remote git@example.test:core.git\nfatal: nope"
    );
    assert_eq!(
        unreachable_source(&triangular(), &err).message,
        "core: cannot reach upstream git@example.test:them/core.git\nfatal: nope"
    );
}

#[test]
fn nothing_exists_yet_points_at_both_ways_out_of_the_empty_cell() {
    let message = nothing_exists_yet(&subrepo());
    assert!(message.contains("core: nothing exists yet — core/ has no committed files at HEAD, and git@example.test:core.git has no main branch."));
    assert!(message.contains("`monosplice push core --yes`"));
    assert!(message.contains("`monosplice attach core`"));
}

/// Ask the first-publish question with given replies, which must be all that it needs.
fn confirm(opts: &ConfirmFirstPublishOptions, replies: Vec<Reply>) -> Result<(), SubrepoFailure> {
    let mut talk = Talk::new(&replies);
    match confirm_first_publish(&mut talk, &subrepo(), opts) {
        Ok(result) => {
            assert_eq!(talk.at, replies.len());
            result
        }
        Err(request) => panic!("still asking {request:?}"),
    }
}

#[test]
fn a_first_publish_refusal_off_a_terminal_names_the_exact_command() {
    let failure = confirm(
        &ConfirmFirstPublishOptions::default(),
        vec![Reply::Flag(false)],
    )
    .expect_err("no terminal, so no prompt");
    assert!(failure.message.starts_with(
        "core: git@example.test:core.git has no main branch — this would be the first publish of core/.\nNothing was pushed."
    ));
    assert!(failure.message.contains("  monosplice push core --yes\n"));
    assert!(!failure.halt);
}

#[test]
fn a_state_note_replaces_the_nothing_was_pushed_sentence() {
    let failure = confirm(
        &ConfirmFirstPublishOptions {
            yes: false,
            state_note: Some("The config entry was committed.".to_string()),
            cancel_note: None,
        },
        vec![Reply::Flag(false)],
    )
    .expect_err("no terminal, so no prompt");
    assert!(failure.message.contains(
        "The config entry was committed. Publishing to a standalone remote cannot be undone"
    ));
}

#[test]
fn yes_skips_the_question_entirely() {
    assert!(confirm(
        &ConfirmFirstPublishOptions {
            yes: true,
            ..Default::default()
        },
        Vec::new(),
    )
    .is_ok());
}

#[test]
fn at_a_terminal_the_answer_decides() {
    let opts = ConfirmFirstPublishOptions {
        yes: false,
        state_note: None,
        cancel_note: Some(" The entry stays.".to_string()),
    };
    for answer in ["y\n", "  YES \r\n", "Yes", "Y"] {
        let replies = vec![Reply::Flag(true), Reply::Answer(answer.to_string())];
        assert!(confirm(&opts, replies).is_ok(), "{answer:?}");
    }
    for answer in ["", "\n", "n\n", "yess", "y e s", "no"] {
        let replies = vec![Reply::Flag(true), Reply::Answer(answer.to_string())];
        let failure = confirm(&opts, replies).expect_err("not a yes");
        assert_eq!(
            failure.message,
            "core: cancelled — nothing was pushed to git@example.test:core.git. The entry stays."
        );
    }

    let replies = vec![Reply::Flag(true)];
    let mut talk = Talk::new(&replies);
    let request = confirm_first_publish(&mut talk, &subrepo(), &opts).expect_err("a prompt");
    assert!(matches!(
        request,
        Request::Prompt { question } if question
            == "git@example.test:core.git (main) is empty. Publish core's current tree as its first commit there? [y/N] "
    ));
}

#[test]
fn an_import_conflict_halts_the_walk_and_lists_the_files() {
    let failure = report_import_failure(
        &subrepo(),
        ImportError::Conflict(ImportConflict {
            subrepo_name: "core".to_string(),
            pub_sha: "0123456789abcdef0123456789abcdef01234567".to_string(),
            conflicts: vec!["core/a.ts".to_string(), "core/b.ts".to_string()],
            state_path: "/repo/.git/monosplice/pull-state.json".to_string(),
        }),
        None,
    );
    assert!(failure.halt, "a written sequencer stops the whole run");
    assert_eq!(
        failure.message,
        "core: importing 0123456789 conflicts with local changes.\nConflicted files:\n  core/a.ts\n  core/b.ts\nEdit each file to resolve the markers, `git add` it, then run:\n  monosplice pull --continue\nTo abandon the import instead, restoring the monorepo to its pre-pull state:\n  monosplice pull --abort"
    );
}

#[test]
fn short_shas_are_ten_characters() {
    assert_eq!(short("0123456789abcdef"), "0123456789");
    assert_eq!(short("abc"), "abc");
}

#[test]
fn export_error_display_forwards_to_the_inner_error() {
    let hook = ExportError::Hook(HookError {
        hook: "scan",
        mono_sha: "abc".to_string(),
        subrepo: "core".to_string(),
        detail: "nope".to_string(),
    });
    assert_eq!(hook.to_string(), "scan hook rejected core commit abc: nope");
    assert_eq!(ExportError::Other("boom".to_string()).to_string(), "boom");
}

#[test]
fn one_matching_commit_needs_no_word_about_which_one_was_chosen() {
    let recovery = AnchorRecovery {
        missing: "aaa".to_string(),
        recovered: "bbb".to_string(),
        pub_sha: "ccc".to_string(),
        also_matching: 0,
    };
    assert_eq!(
        recovery.message("core"),
        "core: recovered anchor: aaa → bbb (identical subrepo tree after history rewrite)"
    );
}

// --- doctor's findings ---

#[test]
fn findings_carry_a_two_space_mark_and_four_space_detail() {
    let finding = Finding {
        headline: "it broke".to_string(),
        detail: vec!["why".to_string(), "what next".to_string()],
    };
    assert_eq!(
        render_finding("✗", &finding),
        vec!["  ✗ it broke", "    why", "    what next"]
    );
    assert_eq!(render_finding("!", &finding)[0], "  ! it broke");
}

fn texts(items: &[&str]) -> Vec<String> {
    items.iter().map(|item| item.to_string()).collect()
}

fn imports(pairs: &[(&str, &str)]) -> Vec<(String, Vec<String>)> {
    let mut list: Vec<(String, Vec<String>)> = Vec::new();
    for (mono_sha, pub_sha) in pairs {
        match list.iter_mut().find(|(mono, _)| mono == mono_sha) {
            Some((_, values)) => values.push(pub_sha.to_string()),
            None => list.push((mono_sha.to_string(), vec![pub_sha.to_string()])),
        }
    }
    list
}

#[test]
fn an_origin_no_remote_has_is_an_orphan_and_a_fetched_one_is_not() {
    let imported = texts(&["bbb", "aaa"]);
    let fetched = texts(&["bbb"]);
    let carriers = imports(&[("mono1", "aaa"), ("mono2", "bbb")]);
    // Nothing is anchored, so nothing is settled.
    let (problems, notes) =
        classify_origins(&imported, &fetched, &carriers, None, |_: &str| false);
    assert_eq!(problems.len(), 1);
    assert_eq!(
        problems[0].headline,
        "monorepo history claims to have imported commit aaa (Monosplice-Origin), but no configured remote has it."
    );
    assert!(notes.is_empty());

    let (problems, notes) = classify_origins(
        &fetched,
        &fetched,
        &carriers,
        Some("anchor".to_string()),
        |_: &str| true,
    );
    assert!(
        problems.is_empty() && notes.is_empty(),
        "nothing is orphaned"
    );
}

/// Below a live anchor an unresolvable import is history, above it the claim is still
/// unexplained. Placement is the whole decision.
#[test]
fn an_orphan_below_the_live_anchor_is_a_note_and_one_above_it_is_a_problem() {
    let imported = texts(&["old", "newer"]);
    let carriers = imports(&[("below", "old"), ("above", "newer")]);

    let (problems, notes) = classify_origins(
        &imported,
        &Vec::new(),
        &carriers,
        Some("anchor".to_string()),
        |mono_sha: &str| mono_sha == "below",
    );
    assert_eq!(problems.len(), 1);
    assert!(
        problems[0].headline.contains("imported commit newer"),
        "{}",
        problems[0].headline
    );
    assert_eq!(notes.len(), 1);
    assert_eq!(
        notes[0].headline,
        "informational: 1 historical import trailer(s) unresolvable — superseded by live anchor at anchor."
    );
    assert!(notes[0].detail[0].contains("imported commit old"));
}

/// A sha no commit on the HEAD walk carries cannot be placed, so it can never be settled:
/// otherwise "below every anchor" would be vacuously true and excuse an unattributable claim.
#[test]
fn an_orphan_nothing_carries_is_never_settled() {
    let imported = texts(&["ghost"]);
    let (problems, notes) = classify_origins(
        &imported,
        &Vec::new(),
        &Vec::new(),
        Some("anchor".to_string()),
        |_: &str| true,
    );
    assert_eq!(problems.len(), 1);
    assert!(notes.is_empty());
}
