//! Texts, trailers and messages, value by value.

use monosplice::config::ResolvedSubrepo;
use monosplice::exporter::{AnchorRecovery, ExportError};
use monosplice::filter::FilterError;
use monosplice::git::GitError;
use monosplice::hooks::HookError;
use monosplice::importer::{ImportError, PullSequencer};
use monosplice::index::TextMap;
use monosplice::ops::{
    export_git_cause, git_message, git_stderr, publish_failure, pull_in_progress_message,
    report_import_failure, short, unrelated_remote, upstream_has_no_branch, NO_PULL_IN_PROGRESS,
    PULL_CONTINUE,
};
use monosplice::report::{Failure, SubrepoFailure};
use monosplice::sync_view::SyncViewError;
use monosplice::text::{
    decimal, join, signed_decimal, sort_texts, split_lines, strip_last, trim, trim_end,
};
use monosplice::trailers::{append_trailer, get_trailer, ORIGIN_TRAILER, SOURCE_TRAILER};

fn texts(items: &[&str]) -> Vec<String> {
    items.iter().map(|item| item.to_string()).collect()
}

fn subrepo() -> ResolvedSubrepo {
    ResolvedSubrepo {
        name: "core".to_string(),
        path: "packages/core".to_string(),
        remote: "git@example.test:core.git".to_string(),
        upstream: None,
        branch: "main".to_string(),
        push_branch: "main".to_string(),
        exclude: Vec::new(),
        rewrite_message: None,
        transform: None,
        scan: None,
    }
}

fn git_error(exit_code: Option<i32>, stderr: &str) -> GitError {
    GitError {
        git_args: texts(&["push", "origin"]),
        exit_code,
        stderr: stderr.to_string(),
    }
}

// --- texts ---

#[test]
fn numbers_read_as_std_writes_them() {
    for n in [0u64, 7, 10, 99, 1000, 18_446_744_073_709_551_615] {
        assert_eq!(decimal(n), n.to_string());
    }
    for n in [0i32, 5, -1, 128, -128, i32::MAX, i32::MIN] {
        assert_eq!(signed_decimal(n), n.to_string());
    }
}

#[test]
fn lines_join_and_split() {
    assert_eq!(join(&Vec::new(), ", "), "");
    assert_eq!(join(&texts(&["a"]), ", "), "a");
    assert_eq!(join(&texts(&["a", "", "c"]), ", "), "a, , c");
    assert_eq!(split_lines(""), texts(&[""]));
    assert_eq!(split_lines("a"), texts(&["a"]));
    assert_eq!(split_lines("a\n\nb\n"), texts(&["a", "", "b", ""]));
}

#[test]
fn only_whitespace_is_trimmed() {
    assert_eq!(trim_end("  a b \t\r\n"), "  a b");
    assert_eq!(trim(" \u{3000}a b\u{a0}\n"), "a b");
    assert_eq!(trim(" \n\t"), "");
    assert_eq!(strip_last("a\n\n", '\n'), "a\n");
    assert_eq!(strip_last("a", '\n'), "a");
    assert_eq!(strip_last("", '\n'), "");
}

#[test]
fn sorting_orders_texts_as_std_does() {
    let items = texts(&["b", "", "ab", "a", "é", "z", "aé", "b", "Ä", "10", "9"]);
    let mut expected = items.clone();
    expected.sort();
    assert_eq!(sort_texts(items), expected);
    assert!(sort_texts(Vec::new()).is_empty());
}

#[test]
fn a_map_keeps_the_last_value_of_a_key() {
    let mut map = TextMap::new();
    assert!(map.is_empty());
    map.insert("a".to_string(), "1".to_string());
    map.insert("b".to_string(), "2".to_string());
    map.insert("a".to_string(), "3".to_string());
    let copy = map.clone();
    assert_eq!(copy.get("a").map(String::as_str), Some("3"));
    assert_eq!(copy.get("b").map(String::as_str), Some("2"));
    assert_eq!(copy.get("c"), None);
    assert!(copy.contains_key("b") && !copy.contains_key("c"));
    assert!(!copy.is_empty());
}

// --- trailers ---

#[test]
fn a_trailer_starts_a_paragraph_or_joins_one() {
    assert_eq!(
        append_trailer("subject\n", SOURCE_TRAILER, "abc"),
        "subject\n\nMonosplice-Source: abc\n"
    );
    assert_eq!(
        append_trailer("subject\n\nbody\n\n\n", SOURCE_TRAILER, "abc"),
        "subject\n\nbody\n\nMonosplice-Source: abc\n"
    );
    assert_eq!(
        append_trailer(
            "subject\n\nSigned-off-by: Me\n",
            SOURCE_TRAILER,
            "abc"
        ),
        "subject\n\nSigned-off-by: Me\nMonosplice-Source: abc\n"
    );
    // A subject of trailer shape is no paragraph of trailers.
    assert_eq!(
        append_trailer("fix: it\n", SOURCE_TRAILER, "abc"),
        "fix: it\n\nMonosplice-Source: abc\n"
    );
}

#[test]
fn an_appended_trailer_reads_back() {
    for message in [
        "subject\n",
        "fix: it",
        "",
        "s\n\nbody\n",
        "s\n\nMonosplice-Source: old\n",
        "s\n\nSigned-off-by: Me\nnot a trailer\n",
    ] {
        let appended = append_trailer(message, SOURCE_TRAILER, "abc def");
        assert_eq!(
            get_trailer(&appended, SOURCE_TRAILER).as_deref(),
            Some("abc def"),
            "{message:?}"
        );
    }
}

#[test]
fn only_the_last_paragraph_holds_trailers() {
    assert_eq!(get_trailer("subject\n", ORIGIN_TRAILER), None);
    assert_eq!(
        get_trailer("s\n\nMonosplice-Origin: abc\n\nbody\n", ORIGIN_TRAILER),
        None
    );
    assert_eq!(
        get_trailer("s\n\nMonosplice-Origin: abc\n", SOURCE_TRAILER),
        None
    );
    assert_eq!(
        get_trailer("Monosplice-Origin: abc\n", ORIGIN_TRAILER),
        None
    );
    assert_eq!(
        get_trailer(
            "s\n\nMonosplice-Origin: abc\nMonosplice-Origin: def\n\n",
            ORIGIN_TRAILER
        )
        .as_deref(),
        Some("def")
    );
}

// --- errors in words ---

#[test]
fn a_git_error_names_its_command_and_its_exit_code() {
    let err = git_error(Some(-1), "fatal: no\n");
    assert_eq!(err.to_string(), "git push origin failed (exit -1)\nfatal: no\n");
    // In a message of the tool the last newline goes, and only that one.
    assert_eq!(git_message(&err), "git push origin failed (exit -1)\nfatal: no");
    assert_eq!(git_stderr(&git_error(None, "a\r\n")), "a");
    assert_eq!(git_stderr(&git_error(None, "a\n\n")), "a\n");
    assert_eq!(git_stderr(&git_error(None, "a\r")), "a");
    assert_eq!(
        git_message(&git_error(None, "")),
        "git push origin failed (exit undefined)\n"
    );
}

#[test]
fn every_error_reads_like_the_one_inside_it() {
    let words = "git push origin failed (exit 1)\nno";
    let hook = || HookError {
        hook: "transform",
        mono_sha: "abc".to_string(),
        subrepo: "core".to_string(),
        detail: "nope".to_string(),
    };
    let git = || git_error(Some(1), "no");
    assert_eq!(FilterError::Git(git()).to_string(), words);
    assert_eq!(FilterError::Other("x".to_string()).to_string(), "x");
    assert_eq!(ExportError::Git(git()).to_string(), words);
    assert_eq!(ExportError::Filter(FilterError::Git(git())).to_string(), words);
    assert_eq!(SyncViewError::Git(git()).to_string(), words);
    let text = hook().to_string();
    assert_eq!(FilterError::Hook(hook()).to_string(), text);
    assert_eq!(ExportError::Filter(FilterError::Hook(hook())).to_string(), text);
}

#[test]
fn a_git_failure_is_found_wherever_it_is_wrapped() {
    let git = || git_error(Some(1), "no\n");
    assert!(export_git_cause(&ExportError::Git(git())).is_some());
    assert!(export_git_cause(&ExportError::Filter(FilterError::Git(git()))).is_some());
    assert!(export_git_cause(&ExportError::Other("x".to_string())).is_none());
    assert!(export_git_cause(&ExportError::Filter(FilterError::Other("x".to_string()))).is_none());
    assert_eq!(
        publish_failure(&subrepo(), &ExportError::Git(git())).message,
        "core: git push origin failed (exit 1)\nno"
    );
    assert_eq!(
        publish_failure(&subrepo(), &ExportError::Other("x".to_string())).message,
        "core: x\nNothing was pushed to git@example.test:core.git."
    );
}

#[test]
fn import_failures_name_the_subrepo() {
    let failure = report_import_failure(
        &subrepo(),
        ImportError::Git(git_error(Some(1), "no\n")),
        None,
    );
    assert_eq!(
        failure.message,
        "core: git push origin failed (exit 1)\nno"
    );
    assert!(!failure.halt);
    let failure = report_import_failure(
        &subrepo(),
        ImportError::Other("lost".to_string()),
        Some("monosplice sync --continue"),
    );
    assert_eq!(failure.message, "core: lost");
}

#[test]
fn a_pull_in_progress_names_the_way_out() {
    let state = PullSequencer {
        subrepo: "core".to_string(),
    };
    assert_eq!(
        pull_in_progress_message(&state, None),
        "A pull of core is already in progress.\nNothing was changed. Resolve the conflict, `git add` the files, then run:\n  monosplice pull --continue\nTo abandon the import instead, restoring the monorepo to its pre-pull state:\n  monosplice pull --abort"
    );
    assert!(
        pull_in_progress_message(&state, Some("monosplice sync --continue"))
            .contains("then run:\n  monosplice sync --continue\n")
    );
    assert_eq!(PULL_CONTINUE, "monosplice pull --continue");
    assert_eq!(
        NO_PULL_IN_PROGRESS,
        "No pull is in progress — nothing to continue.\nRun `monosplice pull` to import new standalone-repo commits."
    );
}

#[test]
fn refusals_name_the_path_and_not_the_name_to_attach() {
    assert_eq!(
        unrelated_remote(&subrepo(), "Nothing was imported."),
        "core: git@example.test:core.git (main) has history that is unrelated to this monorepo — no commit on either side references the other.\nNothing was imported. To connect the two repositories, run:\n  monosplice attach packages/core"
    );
    // Without an upstream the sentence has a gap where its name would be.
    assert!(upstream_has_no_branch(&subrepo()).starts_with("core: upstream  has no main branch"));
}

#[test]
fn failures_carry_their_exit_code() {
    assert!(!SubrepoFailure::new("a".to_string()).halt);
    assert!(SubrepoFailure::halting("a".to_string()).halt);
    assert_eq!(Failure::exit1("a".to_string()).exit_code, 1);
    assert_eq!(Failure::error("a".to_string()).exit_code, 2);
}

#[test]
fn a_short_sha_is_a_prefix_and_stays_short() {
    for sha in ["", "0123456789", "0123456789a", "ééééééééééé", "日本語のとても長い文字列です"] {
        let cut = short(sha);
        assert!(sha.starts_with(cut));
        assert_eq!(cut.chars().count(), sha.chars().count().min(10));
        assert_eq!(short(cut), cut);
    }
}

#[test]
fn a_recovery_counts_the_adjacent_matches() {
    let recovery = AnchorRecovery {
        missing: "aaa".to_string(),
        recovered: "bbb".to_string(),
        pub_sha: "ccc".to_string(),
        also_matching: 11,
    };
    assert_eq!(
        recovery.message("core"),
        "core: recovered anchor: aaa → bbb (identical subrepo tree after history rewrite) — newest of 12 adjacent commits publishing that tree"
    );
}
