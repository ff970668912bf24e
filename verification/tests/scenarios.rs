//! Whole runs of the library against repositories that live in memory.

use std::collections::{BTreeMap, BTreeSet};

use monosplice::config::ResolvedSubrepo;
use monosplice::doctor::{run as run_doctor, DoctorArgs, DoctorRun};
use monosplice::exporter::{
    build_export_chain, check_export_preconditions, compute_exports, export_base_rewritten,
    find_anchor_recovery, live_export_anchor, plan_export, publish_baseline, publish_full_history,
    recover_export_anchor, run_export, AnchorRecovery, ExportCandidate, ExportError, ExportResult,
    PlannedExport,
};
use monosplice::filter::{anchor_subtree, filtered_subtree, has_committed_files, FilterError};
use monosplice::git::{CommitMeta, CommitTreeInput, GitError, TreeEntry, EMPTY_TREE};
use monosplice::hooks::{HookError, OutgoingTree};
use monosplice::importer::{ImportError, PullSequencer};
use monosplice::ops::{
    export_subrepo, first_publish, import_subrepo, load_view, plan_pull_dry_run,
    plan_push_dry_run, require_published, DryRunPlan, ExportSummary, FirstPublishResult,
    PendingCommit,
};
use monosplice::report::{Failure, SubrepoFailure};
use monosplice::sync_view::{
    load_fork_state, load_sync_view, preview_sync_view, try_load_fork_state, unpublished_view, SyncView,
    SyncViewError, SyncViewOptions,
};
use monosplice::talk::{Reply, Request, Talk, Turn};
use monosplice::trailers::append_trailer;

const REMOTE: &str = "/sandbox/pub.git";
const FORK: &str = "/sandbox/fork.git";
const DEAD_SHA: &str = "0000000000000000000000000000000000000000";

// ---------------------------------------------------------------------------------------
// Repositories in memory: a store of objects that all of them share, the monorepo clone with
// its refs and the commits it has, and bare remotes that are nothing but branches.
// ---------------------------------------------------------------------------------------

#[derive(Clone, Debug, PartialEq)]
struct File {
    mode: String,
    /// A blob's text, or the commit that a gitlink names.
    content: String,
}

type Files = BTreeMap<String, File>;

#[derive(Clone, Debug)]
struct Commit {
    tree: String,
    parents: Vec<String>,
    message: String,
    author: (String, String, String),
    committer: (String, String, String),
    /// When the store learnt of it; orders a walk.
    serial: usize,
}

fn hash(kind: &str, text: &str) -> String {
    let mut out = String::new();
    for seed in 0..3u64 {
        let mut state: u64 = 0xcbf2_9ce4_8422_2325 ^ (seed * 0x9e37_79b9_7f4a_7c15);
        for byte in kind.bytes().chain([0u8]).chain(text.bytes()) {
            state = (state ^ u64::from(byte)).wrapping_mul(0x0000_0100_0000_01b3);
            state ^= state >> 29;
        }
        out.push_str(&format!("{state:016x}"));
    }
    out.truncate(40);
    out
}

fn file(content: &str) -> File {
    File {
        mode: "100644".to_string(),
        content: content.to_string(),
    }
}

fn files(list: &[(&str, &str)]) -> Files {
    list.iter()
        .map(|(path, content)| (path.to_string(), file(content)))
        .collect()
}

fn below(files: &Files, dir: &str) -> Files {
    let prefix = format!("{dir}/");
    files
        .iter()
        .filter_map(|(path, file)| {
            path.strip_prefix(&prefix)
                .map(|rest| (rest.to_string(), file.clone()))
        })
        .collect()
}

fn glob(pattern: &str, path: &str) -> bool {
    if pattern == "**/*" {
        return true;
    }
    if let Some(dir) = pattern.strip_suffix("/**") {
        return path.starts_with(&format!("{dir}/"));
    }
    if let Some(suffix) = pattern.strip_prefix('*') {
        return !path.contains('/') && path.ends_with(suffix);
    }
    pattern == path
}

/// The entries of these files, and nothing written.
fn named_entries(files: &Files) -> Vec<TreeEntry> {
    let mut out = Vec::new();
    for (path, file) in files {
        let gitlink = file.mode == "160000";
        let sha = if gitlink {
            file.content.clone()
        } else {
            hash("blob", &file.content)
        };
        out.push(TreeEntry {
            mode: file.mode.clone(),
            kind: if gitlink { "commit" } else { "blob" }.to_string(),
            sha,
            path: path.clone(),
        });
    }
    out
}

/// The sha of the tree with these entries, whether the store has it or not.
fn tree_name(entries: &[TreeEntry]) -> String {
    let mut lines: Vec<String> = Vec::new();
    for entry in entries {
        lines.push(format!("{} {} {}\n", entry.path, entry.mode, entry.sha));
    }
    if lines.is_empty() {
        return EMPTY_TREE.to_string();
    }
    lines.sort();
    hash("tree", &lines.concat())
}

/// What the sub-process of a hook sees besides its directory.
struct HookEnv<'a> {
    subrepo: &'a str,
    mono_sha: &'a str,
    message: &'a str,
}

/// The few commands that the scenarios configure as tree hooks.
fn shell(command: &str, dir: &mut Files, env: &HookEnv) -> Result<(), String> {
    match command {
        "true" => Ok(()),
        "exit 1" => Err("exit code 1".to_string()),
        "echo 'secret!' 1>&2; exit 1" => Err("secret!".to_string()),
        "echo 'formatter blew up' 1>&2; exit 4" => Err("formatter blew up".to_string()),
        "if grep -rq SECRET .; then echo 'secret found in core' 1>&2; exit 1; fi" => {
            if dir.values().any(|file| file.content.contains("SECRET")) {
                Err("secret found in core".to_string())
            } else {
                Ok(())
            }
        }
        "printf 'rewritten\n' > README.md" => {
            dir.insert("README.md".to_string(), file("rewritten\n"));
            Ok(())
        }
        "printf 'changed\n' > README.md" => {
            dir.insert("README.md".to_string(), file("changed\n"));
            Ok(())
        }
        "printf 'ok\n' > .added && mkdir -p deep && printf 'd\n' > deep/.also" => {
            dir.insert(".added".to_string(), file("ok\n"));
            dir.insert("deep/.also".to_string(), file("d\n"));
            Ok(())
        }
        "printf '%s\n%s\n' \"$MONOSPLICE_SUBREPO\" \"$MONOSPLICE_MONO_SHA\" > seen.txt; ls > listing.txt; test -f README.md || exit 9; head -1 \"$MONOSPLICE_MESSAGE_FILE\" > message.txt" => {
            let mut names: Vec<String> = Vec::new();
            for path in dir.keys() {
                names.push(path.split('/').next().unwrap_or("").to_string());
            }
            names.dedup();
            if !dir.contains_key("README.md") {
                return Err("exit code 9".to_string());
            }
            let seen = format!("{}\n{}\n", env.subrepo, env.mono_sha);
            let first = env.message.split('\n').next().unwrap_or("");
            dir.insert("seen.txt".to_string(), file(&seen));
            dir.insert("listing.txt".to_string(), file(&names.join("\n")));
            dir.insert("message.txt".to_string(), file(&format!("{first}\n")));
            Ok(())
        }
        other => panic!("no such command: {other}"),
    }
}

struct World {
    trees: BTreeMap<String, Files>,
    blobs: BTreeMap<String, String>,
    commits: BTreeMap<String, Commit>,
    /// Commits that the monorepo clone has.
    has: BTreeSet<String>,
    refs: BTreeMap<String, String>,
    branch: String,
    work: Files,
    remotes: BTreeMap<String, BTreeMap<String, String>>,
    dirs: BTreeMap<String, Files>,
    message_files: BTreeMap<String, String>,
    clock: u64,
    project: Vec<ResolvedSubrepo>,
    sequencer: Option<String>,
    /// What the first-publish question is answered with.
    confirmed: Result<(), SubrepoFailure>,
    import_refusal: Option<String>,
    import_conflict: Option<ImportError>,
    asked: Vec<Request>,
    warnings: Vec<String>,
}

fn git_error(args: &[&str], stderr: &str) -> GitError {
    GitError {
        git_args: args.iter().map(|arg| arg.to_string()).collect(),
        exit_code: Some(128),
        stderr: stderr.to_string(),
    }
}

impl World {
    /// A monorepo with `core/`, plus an empty "public" remote for it and an empty fork.
    fn new() -> World {
        let mut world = World::empty();
        world.write("core/README.md", "hello\n");
        world.write("top.txt", "top\n");
        world.commit("first commit");
        world
    }

    fn empty() -> World {
        World {
            trees: BTreeMap::from([(EMPTY_TREE.to_string(), Files::new())]),
            blobs: BTreeMap::new(),
            commits: BTreeMap::new(),
            has: BTreeSet::new(),
            refs: BTreeMap::new(),
            branch: "main".to_string(),
            work: Files::new(),
            remotes: BTreeMap::from([
                (REMOTE.to_string(), BTreeMap::new()),
                (FORK.to_string(), BTreeMap::new()),
            ]),
            dirs: BTreeMap::new(),
            message_files: BTreeMap::new(),
            clock: 1_767_225_600,
            project: Vec::new(),
            sequencer: None,
            confirmed: Ok(()),
            import_refusal: None,
            import_conflict: None,
            asked: Vec::new(),
            warnings: Vec::new(),
        }
    }

    // --- the monorepo clone ---

    fn date(&mut self) -> String {
        self.clock += 61;
        format!("{} +0000", self.clock)
    }

    fn write(&mut self, path: &str, content: &str) {
        self.work.insert(path.to_string(), file(content));
    }

    fn commit(&mut self, message: &str) -> String {
        let files = self.work.clone();
        let tree = self.tree(files);
        let parents: Vec<String> = self.head().into_iter().collect();
        let message = format!("{}\n", message.trim_end_matches('\n'));
        let sha = self.record(&tree, parents, &message, "Mono Author", "mono@example.test");
        self.refs
            .insert(format!("refs/heads/{}", self.branch), sha.clone());
        sha
    }

    fn head(&self) -> Option<String> {
        self.refs
            .get(&format!("refs/heads/{}", self.branch))
            .cloned()
    }

    fn head_sha(&self) -> String {
        self.head().expect("a commit")
    }

    fn checkout(&mut self, branch: &str) {
        self.branch = branch.to_string();
        let head = self.head_sha();
        self.work = self.trees[&self.commits[&head].tree].clone();
    }

    fn branch_at(&mut self, branch: &str, sha: &str) {
        self.refs
            .insert(format!("refs/heads/{branch}"), sha.to_string());
        self.checkout(branch);
    }

    fn reset_hard(&mut self, sha: &str) {
        let branch = self.branch.clone();
        self.branch_at(&branch, sha);
    }

    /// Replay the commits of the current branch that are above `fork_point` onto `onto`.
    fn rebase(&mut self, fork_point: &str, onto: &str) {
        let mut moved = self.walk(&self.head_sha());
        moved.retain(|sha| !self.walk(fork_point).contains(sha));
        moved.reverse();
        self.reset_hard(onto);
        for sha in moved {
            let commit = self.commits[&sha].clone();
            let before = self.trees[&self.commits[&commit.parents[0]].tree].clone();
            let after = self.trees[&commit.tree].clone();
            for path in before.keys() {
                if !after.contains_key(path) {
                    self.work.remove(path);
                }
            }
            for (path, file) in &after {
                if before.get(path) != Some(file) {
                    self.work.insert(path.clone(), file.clone());
                }
            }
            self.commit(&commit.message);
        }
    }

    /// A clone of the monorepo that has only what is reachable, and no tracking ref.
    fn clone_afresh(&mut self) {
        let head = self.head_sha();
        self.has = self.walk(&head).into_iter().collect();
        self.refs = BTreeMap::from([("refs/heads/main".to_string(), head)]);
        self.branch = "main".to_string();
    }

    // --- objects ---

    fn tree(&mut self, files: Files) -> String {
        let entries = self.entries(&files);
        let sha = tree_name(&entries);
        self.trees.insert(sha.clone(), files);
        sha
    }

    fn object(
        &mut self,
        tree: &str,
        parents: Vec<String>,
        message: &str,
        author: (String, String, String),
        committer: (String, String, String),
    ) -> String {
        let sha = hash(
            "commit",
            &format!("{tree}\n{parents:?}\n{author:?}\n{committer:?}\n{message}"),
        );
        let serial = self.commits.len();
        self.commits.entry(sha.clone()).or_insert(Commit {
            tree: tree.to_string(),
            parents,
            message: message.to_string(),
            author,
            committer,
            serial,
        });
        self.has.insert(sha.clone());
        sha
    }

    fn record(
        &mut self,
        tree: &str,
        parents: Vec<String>,
        message: &str,
        name: &str,
        email: &str,
    ) -> String {
        let who = (name.to_string(), email.to_string(), self.date());
        self.object(tree, parents, message, who.clone(), who)
    }

    /// A commit made outside the monorepo and pushed to a remote.
    fn push_pub(
        &mut self,
        remote: &str,
        tree: &str,
        parent: Option<&str>,
        message: &str,
    ) -> String {
        let parents = parent.map(str::to_string).into_iter().collect();
        let sha = self.record(tree, parents, message, "Ext Contributor", "ext@example.test");
        self.remotes
            .get_mut(remote)
            .expect("a remote")
            .insert("main".to_string(), sha.clone());
        sha
    }

    /// The same, in a clone that is not this one: the monorepo has not seen it.
    fn push_elsewhere(
        &mut self,
        remote: &str,
        tree: &str,
        parent: Option<&str>,
        message: &str,
    ) -> String {
        let sha = self.push_pub(remote, tree, parent, message);
        self.has.remove(&sha);
        sha
    }

    fn remote_head(&self, remote: &str, branch: &str) -> Option<String> {
        self.remotes[remote].get(branch).cloned()
    }

    fn files_of(&self, commit: &str) -> &Files {
        &self.trees[&self.commits[commit].tree]
    }

    fn core_tree(&mut self, commit: &str) -> String {
        let core = below(self.files_of(commit), "core");
        self.tree(core)
    }

    /// Every commit from `sha` down, newest first.
    fn walk(&self, sha: &str) -> Vec<String> {
        let mut seen: BTreeMap<usize, String> = BTreeMap::new();
        let mut todo = vec![sha.to_string()];
        while let Some(next) = todo.pop() {
            let commit = &self.commits[&next];
            if seen.insert(commit.serial, next).is_none() {
                todo.extend(commit.parents.iter().cloned());
            }
        }
        seen.into_values().rev().collect()
    }

    fn subjects(&self, sha: &str) -> Vec<String> {
        let mut walk = self.walk(sha);
        walk.reverse();
        walk.iter().map(|sha| self.subject(sha)).collect()
    }

    fn subject(&self, sha: &str) -> String {
        let message = &self.commits[sha].message;
        message.split('\n').next().unwrap_or("").to_string()
    }

    fn resolve(&self, rev: &str) -> Option<String> {
        if rev == "HEAD" {
            return self.head();
        }
        if let Some(sha) = self.refs.get(rev) {
            return Some(sha.clone());
        }
        self.has.get(rev).cloned()
    }

    /// The tree at a `rev:path`, if the path is a directory there.
    fn tree_at(&self, rev: &str, path: &str) -> Option<Files> {
        let found = below(self.files_of(&self.resolve(rev)?), path);
        if found.is_empty() {
            None
        } else {
            Some(found)
        }
    }

    fn is_ancestor(&self, ancestor: &str, descendant: &str) -> bool {
        match (self.resolve(ancestor), self.resolve(descendant)) {
            (Some(ancestor), Some(descendant)) => self.walk(&descendant).contains(&ancestor),
            _ => false,
        }
    }

    /// The entries of these files, with their blobs in the store.
    fn entries(&mut self, files: &Files) -> Vec<TreeEntry> {
        for file in files.values() {
            if file.mode != "160000" {
                self.blobs
                    .insert(hash("blob", &file.content), file.content.clone());
            }
        }
        named_entries(files)
    }

    fn files_from(&self, entries: &[TreeEntry]) -> Files {
        entries
            .iter()
            .map(|entry| {
                let content = if entry.kind == "commit" {
                    entry.sha.clone()
                } else {
                    self.blobs[&entry.sha].clone()
                };
                (
                    entry.path.clone(),
                    File {
                        mode: entry.mode.clone(),
                        content,
                    },
                )
            })
            .collect()
    }

    // --- requests ---

    fn git(&mut self, args: &[&str], input: Option<&str>) -> Result<String, GitError> {
        match args {
            ["ls-tree", "-r", "--name-only", "-z", treeish] => {
                let (rev, path) = treeish.split_once(':').expect("rev:path");
                match self.tree_at(rev, path) {
                    Some(files) => Ok(files.keys().map(|path| format!("{path}\0")).collect()),
                    None => Err(git_error(args, "fatal: not a tree object\n")),
                }
            }
            ["ls-tree", "-d", "--format=%(objectname)", rev, "--", path] => {
                match self.tree_at(rev, path) {
                    Some(files) => Ok(self.tree(files)),
                    None => Ok(String::new()),
                }
            }
            ["rev-parse", rev] => {
                let commit = rev.strip_suffix("^{tree}").expect("a tree");
                match self.resolve(commit) {
                    Some(sha) => Ok(self.commits[&sha].tree.clone()),
                    None => Err(git_error(args, "fatal: bad revision\n")),
                }
            }
            ["rev-list", "--reverse", name, rest @ ..] => {
                let mut walk = self.walk(&self.resolve(name).expect("a ref"));
                if let (["--stdin"], Some(input)) = (rest, input) {
                    for line in input.split_terminator('\n') {
                        let gone = self.walk(line.strip_prefix('^').expect("a negation"));
                        walk.retain(|sha| !gone.contains(sha));
                    }
                } else {
                    assert!(rest.is_empty() && input.is_none());
                }
                walk.reverse();
                Ok(walk.join("\n"))
            }
            ["update-ref", name, sha] => {
                self.refs.insert(name.to_string(), sha.to_string());
                Ok(String::new())
            }
            other => panic!("no such git command: {other:?}"),
        }
    }

    fn rev_list(&mut self, args: &[&str]) -> Result<Vec<String>, GitError> {
        match args {
            ["--reverse", "--topo-order", range, "--", path] => {
                let (gone, tip) = match range.split_once("..") {
                    Some((base, tip)) => (self.walk(&self.resolve(base).expect("a base")), tip),
                    None => (Vec::new(), *range),
                };
                let mut walk = self.walk(&self.resolve(tip).expect("a tip"));
                walk.retain(|sha| {
                    let here = below(self.files_of(sha), path);
                    let before = match self.commits[sha].parents.first() {
                        Some(parent) => below(self.files_of(parent), path),
                        None => Files::new(),
                    };
                    !gone.contains(sha) && here != before
                });
                walk.reverse();
                Ok(walk)
            }
            ["--first-parent", "-n", limit, "HEAD"] => {
                let limit: usize = limit.parse().expect("a number");
                let mut out = Vec::new();
                let mut next = self.head();
                while let Some(sha) = next {
                    if out.len() == limit {
                        break;
                    }
                    next = self.commits[&sha].parents.first().cloned();
                    out.push(sha);
                }
                Ok(out)
            }
            [rev] => match self.resolve(rev) {
                Some(sha) => Ok(self.walk(&sha)),
                None => Err(git_error(&["rev-list", rev], "fatal: bad revision\n")),
            },
            other => panic!("no such walk: {other:?}"),
        }
    }

    fn push(
        &mut self,
        remote: &str,
        sha: &str,
        dst: &str,
        expect: Option<&str>,
    ) -> Result<(), GitError> {
        let branch = dst.strip_prefix("refs/heads/").expect("a branch").to_string();
        let old = match self.remotes.get(remote) {
            Some(branches) => branches.get(&branch).cloned(),
            None => return Err(git_error(&["push", remote], "fatal: no such remote\n")),
        };
        let allowed = match (expect, &old) {
            (Some(expect), _) => old.as_deref() == Some(expect),
            (None, Some(old)) => self.walk(sha).contains(old),
            (None, None) => true,
        };
        if !allowed {
            return Err(git_error(&["push", remote, dst], "! [rejected]\n"));
        }
        let branches = self.remotes.get_mut(remote).expect("a remote");
        branches.insert(branch, sha.to_string());
        Ok(())
    }

    fn import(&mut self, target: &ResolvedSubrepo, shas: &[String]) -> Vec<String> {
        let mut imported = Vec::new();
        for sha in shas {
            let commit = self.commits[sha].clone();
            let prefix = format!("{}/", target.path);
            self.work.retain(|path, _| !path.starts_with(&prefix));
            for (path, file) in self.trees[&commit.tree].clone() {
                self.work.insert(format!("{prefix}{path}"), file);
            }
            imported.push(self.commit(&append_trailer(
                &commit.message,
                "Monosplice-Origin",
                sha,
            )));
        }
        imported
    }

    fn perform(&mut self, request: &Request) -> Reply {
        match request {
            Request::Git { args, input } => {
                let args: Vec<&str> = args.iter().map(String::as_str).collect();
                Reply::Text(self.git(&args, input.as_deref()))
            }
            Request::GitOk { args } => {
                let args: Vec<&str> = args.iter().map(String::as_str).collect();
                match args.as_slice() {
                    ["merge-base", "--is-ancestor", a, b] => Reply::Flag(self.is_ancestor(a, b)),
                    other => panic!("no such git command: {other:?}"),
                }
            }
            Request::RevList { args } => {
                let args: Vec<&str> = args.iter().map(String::as_str).collect();
                Reply::Shas(self.rev_list(&args))
            }
            Request::RevParse { rev } => Reply::Rev(self.resolve(rev)),
            Request::LsRemoteBranch { remote, branch } => {
                Reply::Branch(match self.remotes.get(remote) {
                    Some(branches) => Ok(branches.get(branch).cloned()),
                    None => Err(git_error(
                        &["ls-remote", remote],
                        "fatal: could not read from remote\n",
                    )),
                })
            }
            Request::FetchBranch {
                remote,
                branch,
                dst,
            } => {
                let head = self.remotes[remote][branch].clone();
                self.has.extend(self.walk(&head));
                self.refs.insert(dst.clone(), head);
                Reply::Acted(Ok(()))
            }
            Request::TrailerValues { key, args } => {
                let head = self.resolve(&args[0]).expect("a walk");
                let mut out: Vec<(String, Vec<String>)> = Vec::new();
                for sha in self.walk(&head) {
                    let message = self.commits[&sha].message.trim_end_matches('\n').to_string();
                    let last = message.rsplit("\n\n").next().unwrap_or("").to_string();
                    let values: Vec<String> = last
                        .split('\n')
                        .filter_map(|line| line.strip_prefix(&format!("{key}: ")))
                        .map(str::to_string)
                        .collect();
                    if !values.is_empty() {
                        out.push((sha, values));
                    }
                }
                Reply::Trailers(Ok(out))
            }
            Request::LsTree { treeish } => {
                let (rev, path) = treeish.split_once(':').expect("rev:path");
                Reply::Entries(match self.tree_at(rev, path) {
                    Some(files) => Ok(self.entries(&files)),
                    None => Err(git_error(&["ls-tree", "-r", treeish], "fatal: not a tree\n")),
                })
            }
            Request::ReadCommit { rev } => Reply::Commit(match self.resolve(rev) {
                Some(sha) => {
                    let commit = &self.commits[&sha];
                    Ok(CommitMeta {
                        sha: sha.clone(),
                        message: commit.message.clone(),
                        author_name: commit.author.0.clone(),
                        author_email: commit.author.1.clone(),
                        author_date: commit.author.2.clone(),
                        committer_name: commit.committer.0.clone(),
                        committer_email: commit.committer.1.clone(),
                        committer_date: commit.committer.2.clone(),
                    })
                }
                None => Err(git_error(&["cat-file", rev], "fatal: bad object\n")),
            }),
            Request::CommitTree(input) => Reply::Text(Ok(self.commit_tree(input))),
            Request::BuildTree { entries } => {
                let files = self.files_from(entries);
                Reply::Text(Ok(self.tree(files)))
            }
            Request::NameTree { entries } => Reply::Text(Ok(tree_name(entries))),
            Request::PushRef { remote, sha, dst } => Reply::Acted(self.push(remote, sha, dst, None)),
            Request::PushRefWithLease {
                remote,
                sha,
                dst,
                expect,
            } => Reply::Acted(self.push(remote, sha, dst, Some(expect))),
            Request::ExistingCommits { shas } => {
                let mut known = shas.clone();
                known.retain(|sha| self.has.contains(sha));
                Reply::Shas(Ok(known))
            }
            Request::MissingObjects { shas } => {
                let mut missing = shas.clone();
                missing.retain(|sha| !self.has.contains(sha));
                Reply::Shas(Ok(missing))
            }
            Request::CommitSubjects { shas } => Reply::Subjects(Ok(shas
                .iter()
                .map(|sha| (sha.clone(), self.subject(sha)))
                .collect())),
            Request::Exclude { patterns, paths } => {
                let mut excluded = paths.clone();
                excluded.retain(|path| patterns.iter().any(|pattern| glob(pattern, path)));
                Reply::Excluded(Ok(excluded))
            }
            Request::Materialize { entries } => {
                let all = self.files_from(entries);
                let dir = format!("/sandbox/tree-{}", self.dirs.len());
                let on_disk: Files = all
                    .into_iter()
                    .filter(|(_, file)| file.mode != "160000")
                    .collect();
                self.dirs.insert(dir.clone(), on_disk);
                let mut passthrough: Vec<TreeEntry> = entries.clone();
                passthrough.retain(|entry| entry.kind == "commit");
                Reply::Materialized(Ok(OutgoingTree { dir, passthrough }))
            }
            Request::MessageFile { message } => {
                let path = format!("/sandbox/message-{}", self.message_files.len());
                self.message_files.insert(path.clone(), message.clone());
                Reply::Path(Ok(path))
            }
            Request::TreeHook {
                hook,
                command,
                dir,
                subrepo,
                mono_sha,
                message_file,
            } => {
                let message = self.message_files[message_file].clone();
                let env = HookEnv {
                    subrepo,
                    mono_sha,
                    message: &message,
                };
                let files = self.dirs.get_mut(dir).expect("a materialized tree");
                Reply::Hook(shell(command, files, &env).map_err(|detail| HookError {
                    hook,
                    mono_sha: mono_sha.clone(),
                    subrepo: subrepo.clone(),
                    detail,
                }))
            }
            Request::NameFiles { dir } => Reply::Rehashed(Ok(named_entries(&self.dirs[dir]))),
            Request::Rehash { dir } => {
                let files = self.dirs[dir].clone();
                Reply::Rehashed(Ok(self.entries(&files)))
            }
            Request::RewriteMessage {
                command, message, ..
            } => {
                assert_eq!(command, "sed 's/^/[core] /'");
                Reply::Rewritten(Ok(message
                    .split_terminator('\n')
                    .map(|line| format!("[core] {line}\n"))
                    .collect()))
            }
            Request::CheckImport { .. } => Reply::Refusal(self.import_refusal.clone()),
            Request::RunImport { target, shas } => Reply::Imported(match &self.import_conflict {
                Some(err) => Err(err.clone()),
                None => Ok(self.import(target, shas)),
            }),
            Request::Warn { message } => {
                self.warnings.push(message.clone());
                Reply::Noted
            }
            Request::Confirm => Reply::Confirmed(self.confirmed.clone()),
            Request::OpenProject => Reply::Project(Ok(())),
            Request::ReadSequencer => Reply::Sequencer(
                self.sequencer
                    .clone()
                    .map(|subrepo| PullSequencer { subrepo }),
            ),
            Request::SequencerPath => {
                Reply::Path(Ok("/repo/.git/monosplice/pull-state.json".to_string()))
            }
            Request::SelectSubrepos { name } => {
                let mut selected = self.project.clone();
                if let Some(name) = name {
                    selected.retain(|subrepo| subrepo.name == *name);
                    if selected.is_empty() {
                        return Reply::Selected(Err(Failure::error(format!(
                            "no subrepo named {name}"
                        ))));
                    }
                }
                Reply::Selected(Ok(selected))
            }
            Request::IsTerminal | Request::Prompt { .. } => panic!("no terminal here"),
        }
    }

    fn commit_tree(&mut self, input: &CommitTreeInput) -> String {
        assert!(
            self.trees.contains_key(&input.tree),
            "a commit of a tree that was never written"
        );
        self.object(
            &input.tree,
            input.parents.clone(),
            &input.message,
            (
                input.author_name.clone(),
                input.author_email.clone(),
                input.author_date.clone(),
            ),
            (
                input.committer_name.clone(),
                input.committer_email.clone(),
                input.committer_date.clone(),
            ),
        )
    }

    /// Run a decision to its end.
    fn drive<T>(&mut self, mut decide: impl for<'a> FnMut(&mut Talk<'a>) -> Turn<T>) -> T {
        let mut replies: Vec<Reply> = Vec::new();
        loop {
            let mut talk = Talk::new(&replies);
            match decide(&mut talk) {
                Ok(value) => {
                    assert_eq!(talk.at, replies.len(), "every reply was read");
                    return value;
                }
                Err(request) => {
                    let reply = self.perform(&request);
                    self.asked.push(request);
                    replies.push(reply);
                }
            }
        }
    }

    // --- the operations, driven ---

    fn subtree(
        &mut self,
        rev: &str,
        s: &ResolvedSubrepo,
    ) -> Result<Option<String>, FilterError> {
        self.drive(|talk| filtered_subtree(talk, rev, s))
    }

    fn view(&mut self, s: &ResolvedSubrepo) -> SyncView {
        match self.try_view(s, false) {
            Ok(view) => view,
            Err(err) => panic!("view: {}", err.to_string()),
        }
    }

    fn try_view(&mut self, s: &ResolvedSubrepo, offline: bool) -> Result<SyncView, SyncViewError> {
        self.drive(|talk| load_sync_view(talk, s, &SyncViewOptions { offline }))
    }

    fn plan(&mut self, s: &ResolvedSubrepo, view: &SyncView) -> Vec<ExportCandidate> {
        self.drive(|talk| plan_export(talk, s, view)).expect("plan")
    }

    fn compute(
        &mut self,
        s: &ResolvedSubrepo,
        view: &SyncView,
        candidates: &Vec<ExportCandidate>,
    ) -> Result<Vec<PlannedExport>, ExportError> {
        self.drive(|talk| compute_exports(talk, s, view, candidates))
    }

    fn export(
        &mut self,
        s: &ResolvedSubrepo,
        view: &SyncView,
        candidates: &Vec<ExportCandidate>,
    ) -> Result<ExportResult, ExportError> {
        self.drive(|talk| run_export(talk, s, view, candidates))
    }

    fn rewritten(&mut self, view: &SyncView) -> bool {
        self.drive(|talk| export_base_rewritten(talk, view))
    }

    fn preconditions(&mut self, s: &ResolvedSubrepo, view: &SyncView) -> Option<String> {
        self.drive(|talk| check_export_preconditions(talk, s, view))
    }

    fn find_recovery(&mut self, s: &ResolvedSubrepo, view: &SyncView) -> Option<AnchorRecovery> {
        self.drive(|talk| find_anchor_recovery(talk, s, view))
            .expect("probe")
    }

    fn recover(&mut self, s: &ResolvedSubrepo, view: &mut SyncView) -> Option<AnchorRecovery> {
        let before = view.clone();
        let (after, recovery) = self.drive(|talk| {
            let mut trial = before.clone();
            let recovery = recover_export_anchor(talk, s, &mut trial)?;
            Ok((trial, recovery))
        });
        *view = after;
        recovery.expect("recover")
    }

    fn baseline(
        &mut self,
        s: &ResolvedSubrepo,
        rev: &str,
    ) -> Result<Option<String>, ExportError> {
        self.drive(|talk| publish_baseline(talk, s, rev))
    }

    fn publish_first(
        &mut self,
        s: &ResolvedSubrepo,
        export_history: bool,
    ) -> Result<FirstPublishResult, SubrepoFailure> {
        self.drive(|talk| first_publish(talk, "/repo", s, export_history))
    }

    fn push_subrepo(&mut self, s: &ResolvedSubrepo) -> Result<ExportSummary, SubrepoFailure> {
        self.drive(|talk| export_subrepo(talk, s, None))
    }

    fn push_dry_run(
        &mut self,
        s: &ResolvedSubrepo,
        export_history: bool,
    ) -> Result<DryRunPlan, SubrepoFailure> {
        self.drive(|talk| plan_push_dry_run(talk, s, export_history))
    }

    fn pull(&mut self, s: &ResolvedSubrepo) -> Result<usize, SubrepoFailure> {
        self.drive(|talk| import_subrepo(talk, s, None))
    }

    fn doctor(&mut self, name: Option<&str>, json: bool) -> DoctorRun {
        let args = DoctorArgs {
            subrepo: name.map(str::to_string),
            json,
        };
        match self.drive(|talk| run_doctor(talk, &args)) {
            Ok(run) => run,
            Err(failure) => panic!("doctor: {}", failure.message),
        }
    }

    /// How often an object was asked for.
    fn objects_written(&self) -> usize {
        self.asked
            .iter()
            .filter(|request| {
                matches!(
                    request,
                    Request::BuildTree { .. } | Request::Rehash { .. } | Request::CommitTree(_)
                )
            })
            .count()
    }

    /// How often a hook was run or something was prepared for one.
    fn hook_work(&self) -> usize {
        self.asked
            .iter()
            .filter(|request| {
                matches!(
                    request,
                    Request::TreeHook { .. }
                        | Request::RewriteMessage { .. }
                        | Request::Materialize { .. }
                        | Request::MessageFile { .. }
                )
            })
            .count()
    }

    /// What was asked of remotes and refs, in words.
    fn writes(&self) -> Vec<String> {
        let mut out = Vec::new();
        for request in &self.asked {
            match request {
                Request::PushRef { remote, dst, .. } => out.push(format!("push {remote} {dst}")),
                Request::PushRefWithLease {
                    remote,
                    dst,
                    expect,
                    ..
                } => out.push(format!("force {remote} {dst} {expect}")),
                Request::Git { args, .. } if args[0] == "update-ref" => {
                    out.push(format!("ref {}", args[1]));
                }
                Request::RunImport { .. } => out.push("import".to_string()),
                _ => {}
            }
        }
        out
    }
}

fn subrepo() -> ResolvedSubrepo {
    ResolvedSubrepo {
        name: "core".to_string(),
        path: "core".to_string(),
        remote: REMOTE.to_string(),
        upstream: None,
        branch: "main".to_string(),
        push_branch: "main".to_string(),
        exclude: Vec::new(),
        rewrite_message: None,
        transform: None,
        scan: None,
    }
}

fn triangular() -> ResolvedSubrepo {
    ResolvedSubrepo {
        upstream: Some(REMOTE.to_string()),
        remote: FORK.to_string(),
        push_branch: "patches".to_string(),
        ..subrepo()
    }
}

fn text(lines: &[String]) -> String {
    lines.join("\n")
}

// ---------------------------------------------------------------------------------------
// What a monorepo commit publishes.
// ---------------------------------------------------------------------------------------

/// core/{README.md, .env, bin/run.sh (exec), link -> README.md} plus a top-level file outside
/// the subrepo.
fn fixture() -> World {
    let mut world = World::empty();
    world.write("core/README.md", "hello\n");
    world.write("core/.env", "SECRET=1\n");
    let script = File {
        mode: "100755".to_string(),
        content: "run\n".to_string(),
    };
    world.work.insert("core/bin/run.sh".to_string(), script);
    let link = File {
        mode: "120000".to_string(),
        content: "README.md".to_string(),
    };
    world.work.insert("core/link".to_string(), link);
    world.write("outside.txt", "top\n");
    world.commit("first commit");
    world
}

#[test]
fn has_committed_files_answers_before_excludes_get_a_say() {
    let mut world = fixture();
    let mut s = subrepo();
    assert!(world.drive(|talk| has_committed_files(talk, "HEAD", &s)));
    // Even excluding everything, the raw question still says "yes, content is there".
    s.exclude = vec!["**/*".to_string()];
    assert!(world.drive(|talk| has_committed_files(talk, "HEAD", &s)));
    s.path = "nope".to_string();
    assert!(!world.drive(|talk| has_committed_files(talk, "HEAD", &s)));
}

#[test]
fn the_fast_path_and_the_exclude_path_agree_when_nothing_matches() {
    let mut world = fixture();
    let fast = world
        .subtree("HEAD", &subrepo())
        .expect("fast path")
        .expect("a tree");
    let mut s = subrepo();
    s.exclude = vec!["nothing-matches-this/**".to_string()];
    let slow = world
        .subtree("HEAD", &s)
        .expect("exclude path")
        .expect("a tree");
    assert_eq!(fast, slow);
    let head = world.head_sha();
    assert_eq!(fast, world.core_tree(&head));
}

#[test]
fn an_exclude_drops_a_file_from_the_published_tree() {
    let mut world = fixture();
    let mut s = subrepo();
    s.exclude = vec![".env".to_string()];
    let tree = world
        .subtree("HEAD", &s)
        .expect("exclude path")
        .expect("a tree");
    let listing: Vec<&String> = world.trees[&tree].keys().collect();
    assert_eq!(listing, vec!["README.md", "bin/run.sh", "link"]);
    let head = world.head_sha();
    assert_ne!(tree, world.core_tree(&head));
}

/// The identity question ("which public tree does this commit stand for?") must survive a
/// scan hook that rejects the content, because a scan judges content and never shapes it.
#[test]
fn an_anchor_subtree_ignores_a_rejecting_scan_but_still_honours_excludes() {
    let mut world = fixture();
    let mut s = subrepo();
    s.exclude = vec![".env".to_string()];
    let published = world
        .subtree("HEAD", &s)
        .expect("exclude path")
        .expect("a tree");

    s.scan = Some("exit 1".to_string());
    assert!(
        world.subtree("HEAD", &s).is_err(),
        "publishing still runs the scan"
    );
    assert_eq!(
        world
            .drive(|talk| anchor_subtree(talk, "HEAD", &s))
            .expect("no scan, no rejection"),
        Some(published),
        "...and the exclude still applies"
    );
}

#[test]
fn a_missing_path_is_none_on_both_paths() {
    let mut world = fixture();
    let mut s = subrepo();
    s.path = "does-not-exist".to_string();
    assert_eq!(world.subtree("HEAD", &s).expect("ok"), None);
    s.exclude = vec!["x".to_string()];
    assert_eq!(world.subtree("HEAD", &s).expect("ok"), None);
}

#[test]
fn a_path_that_is_a_file_is_none_on_both_paths() {
    let mut world = fixture();
    let mut s = subrepo();
    s.path = "outside.txt".to_string();
    assert_eq!(world.subtree("HEAD", &s).expect("ok"), None);
    s.exclude = vec!["x".to_string()];
    assert_eq!(world.subtree("HEAD", &s).expect("ok"), None);
}

#[test]
fn a_rejecting_scan_hook_surfaces_a_hook_error_with_its_stderr() {
    let mut world = fixture();
    let mut s = subrepo();
    s.scan = Some(
        "if grep -rq SECRET .; then echo 'secret found in core' 1>&2; exit 1; fi".to_string(),
    );
    let err = world.subtree("HEAD", &s).expect_err("scan rejects");
    assert_eq!(
        err.to_string(),
        format!(
            "scan hook rejected core commit {}: secret found in core",
            world.head_sha()
        )
    );
    let FilterError::Hook(hook) = err else {
        panic!("expected a hook error")
    };
    assert_eq!(hook.hook, "scan");
    assert_eq!(hook.subrepo, "core");
    assert_eq!(hook.detail, "secret found in core");
    assert_eq!(hook.mono_sha, world.head_sha());

    // ...and the same scan passes once the offending file is excluded, proving the hook
    // sees the post-exclude tree.
    s.exclude = vec![".env".to_string()];
    assert!(world.subtree("HEAD", &s).is_ok());
}

#[test]
fn a_transform_that_rewrites_a_file_changes_the_exported_tree() {
    let mut world = fixture();
    let mut s = subrepo();
    s.transform = Some("printf 'rewritten\n' > README.md".to_string());
    let tree = world
        .subtree("HEAD", &s)
        .expect("transform runs")
        .expect("a tree");
    let head = world.head_sha();
    assert_ne!(tree, world.core_tree(&head));
    assert_eq!(world.trees[&tree]["README.md"].content, "rewritten\n");
    // Untouched neighbours survive, exec bit and all.
    assert_eq!(world.trees[&tree]["bin/run.sh"].content, "run\n");
    assert_eq!(world.trees[&tree]["bin/run.sh"].mode, "100755");
}

#[test]
fn a_transform_may_add_a_dotfile_and_it_is_kept() {
    let mut world = fixture();
    let mut s = subrepo();
    s.transform =
        Some("printf 'ok\n' > .added && mkdir -p deep && printf 'd\n' > deep/.also".to_string());
    let tree = world
        .subtree("HEAD", &s)
        .expect("transform runs")
        .expect("a tree");
    assert_eq!(world.trees[&tree][".added"].content, "ok\n");
    assert_eq!(world.trees[&tree]["deep/.also"].content, "d\n");
}

#[test]
fn a_symlink_round_trips_through_materialize_and_rehash() {
    let mut world = fixture();
    let mut s = subrepo();
    // A transform that changes nothing must reproduce the committed tree exactly.
    s.transform = Some("true".to_string());
    let tree = world
        .subtree("HEAD", &s)
        .expect("transform runs")
        .expect("a tree");
    let head = world.head_sha();
    assert_eq!(tree, world.core_tree(&head));
    assert_eq!(world.trees[&tree]["link"].mode, "120000");
}

#[test]
fn a_failing_transform_hook_aborts_with_its_stderr() {
    let mut world = fixture();
    let mut s = subrepo();
    s.transform = Some("echo 'formatter blew up' 1>&2; exit 4".to_string());
    let err = world.subtree("HEAD", &s).expect_err("transform fails");
    let FilterError::Hook(hook) = err else {
        panic!("expected a hook error")
    };
    assert_eq!(hook.hook, "transform");
    assert_eq!(hook.detail, "formatter blew up");
}

#[test]
fn hooks_run_in_the_materialized_dir_with_the_monosplice_env_visible() {
    let mut world = fixture();
    let mono_sha = world.head_sha();
    let mut s = subrepo();
    // The hook writes what it sees; the assertions read it back out of the exported tree.
    s.transform = Some(
        "printf '%s\n%s\n' \"$MONOSPLICE_SUBREPO\" \"$MONOSPLICE_MONO_SHA\" > seen.txt; ls > listing.txt; test -f README.md || exit 9; head -1 \"$MONOSPLICE_MESSAGE_FILE\" > message.txt"
            .to_string(),
    );
    let tree = world
        .subtree("HEAD", &s)
        .expect("transform runs")
        .expect("a tree");
    assert_eq!(
        world.trees[&tree]["seen.txt"].content,
        format!("core\n{mono_sha}\n")
    );
    // The directory is the materialized tree, not the monorepo root: `outside.txt` is not there.
    let listing = &world.trees[&tree]["listing.txt"].content;
    assert!(listing.contains("README.md"), "{listing}");
    assert!(!listing.contains("outside.txt"), "{listing}");
    assert_eq!(world.trees[&tree]["message.txt"].content, "first commit\n");
}

#[test]
fn a_gitlink_survives_a_transform_untouched() {
    let mut world = fixture();
    let gitlink_sha = world.head_sha();
    let link = File {
        mode: "160000".to_string(),
        content: gitlink_sha.clone(),
    };
    world.work.insert("core/vendor".to_string(), link.clone());
    let mono = world.commit("with submodule");

    let mut s = subrepo();
    s.transform = Some("printf 'changed\n' > README.md".to_string());
    let tree = world
        .subtree(&mono, &s)
        .expect("transform runs")
        .expect("a tree");
    assert_eq!(world.trees[&tree]["vendor"], link);
    assert_eq!(world.trees[&tree]["README.md"].content, "changed\n");
}

/// A scan runs before a transform gets to rewrite anything, on the files that the excludes left.
#[test]
fn scan_and_transform_run_in_that_order() {
    let mut world = fixture();
    let mut s = subrepo();
    s.scan = Some("true".to_string());
    s.transform = Some("printf 'rewritten\n' > README.md".to_string());
    world.subtree("HEAD", &s).expect("both run");
    let hooks: Vec<&str> = world
        .asked
        .iter()
        .filter_map(|request| match request {
            Request::TreeHook { hook, .. } => Some(*hook),
            _ => None,
        })
        .collect();
    assert_eq!(hooks, vec!["scan", "transform"]);

    // A rejection is the end of it: the transform never runs and no tree is named or written.
    s.scan = Some("exit 1".to_string());
    world.asked.clear();
    assert!(world.subtree("HEAD", &s).is_err());
    assert_eq!(world.objects_written(), 0);
    assert!(!world.asked.iter().any(|request| matches!(
        request,
        Request::NameTree { .. } | Request::NameFiles { .. }
    )));
}

#[test]
fn what_cannot_be_prepared_for_a_hook_is_reported_as_it_is() {
    let mut s = subrepo();
    s.scan = Some("true".to_string());
    let meta = CommitMeta {
        sha: "abc".to_string(),
        message: "m\n".to_string(),
        author_name: "a".to_string(),
        author_email: "a".to_string(),
        author_date: "a".to_string(),
        committer_name: "c".to_string(),
        committer_email: "c".to_string(),
        committer_date: "c".to_string(),
    };

    let replies = vec![
        Reply::Entries(Ok(Vec::new())),
        Reply::Excluded(Err("bad pattern".to_string())),
    ];
    let err = filtered_subtree(&mut Talk::new(&replies), "HEAD", &s)
        .expect("finished")
        .expect_err("no excluder");
    assert!(matches!(&err, FilterError::Other(detail) if detail == "bad pattern"));
    assert_eq!(err.to_string(), "bad pattern");

    let replies = vec![
        Reply::Entries(Ok(Vec::new())),
        Reply::Excluded(Ok(Vec::new())),
        Reply::Commit(Err(git_error(&["cat-file"], "gone"))),
    ];
    let err = filtered_subtree(&mut Talk::new(&replies), "HEAD", &s)
        .expect("finished")
        .expect_err("no commit");
    assert_eq!(err.to_string(), "git cat-file failed (exit 128)\ngone");

    let replies = vec![
        Reply::Entries(Ok(Vec::new())),
        Reply::Excluded(Ok(Vec::new())),
        Reply::Commit(Ok(meta)),
        Reply::Materialized(Err("disk full".to_string())),
    ];
    let err = filtered_subtree(&mut Talk::new(&replies), "HEAD", &s)
        .expect("finished")
        .expect_err("no tree");
    assert_eq!(err.to_string(), "disk full");
}

// ---------------------------------------------------------------------------------------
// Sync views.
// ---------------------------------------------------------------------------------------

#[test]
fn an_unpublished_remote_yields_the_unpublished_view() {
    let mut world = World::new();
    let view = world.view(&subrepo());
    assert_eq!(view.pub_head, None);
    assert!(!view.related);
    assert_eq!(view.export_base, None);
    assert!(view.unreflected_pub.is_empty());
}

#[test]
fn offline_without_a_tracking_ref_refuses_to_guess() {
    let mut world = World::new();
    let Err(err) = world.try_view(&subrepo(), true) else {
        panic!("no fetch yet")
    };
    assert!(matches!(err, SyncViewError::NoFetchYet { .. }));
    assert_eq!(
        err.to_string(),
        "core: no fetch yet — run without --offline first"
    );
}

#[test]
fn a_source_trailer_derives_the_map_the_base_and_the_last_export() {
    let mut world = World::new();
    let mono = world.head_sha();
    let tree = world.core_tree(&mono);
    let pub_sha = world.push_pub(
        REMOTE,
        &tree,
        None,
        &format!("first commit\n\nMonosplice-Source: {mono}\n"),
    );

    let view = world.view(&subrepo());
    assert_eq!(view.pub_head.as_deref(), Some(pub_sha.as_str()));
    assert_eq!(
        view.exported_mono_to_pub.get(&mono).map(String::as_str),
        Some(pub_sha.as_str())
    );
    assert_eq!(view.export_base.as_deref(), Some(mono.as_str()));
    assert_eq!(view.last_exported_mono.as_deref(), Some(mono.as_str()));
    assert!(view.related);
    // Our own export is not something to pull back in.
    assert!(view.unreflected_pub.is_empty());
    assert!(view.broken_source_refs.is_empty());

    // The tracking ref is now on disk, so the offline view agrees.
    let Ok(offline) = world.try_view(&subrepo(), true) else {
        panic!("offline view")
    };
    assert_eq!(offline.pub_head, view.pub_head);
    assert_eq!(offline.export_base, view.export_base);
}

#[test]
fn an_origin_trailer_anchors_only_when_the_tree_matches() {
    let mut world = World::new();
    // A public commit with content the monorepo will import.
    let pub_tree = world.tree(files(&[("README.md", "from pub\n")]));
    let pub_sha = world.push_pub(REMOTE, &pub_tree, None, "public work\n");

    // A *clean* import: core/ ends up byte-identical to the pub tree.
    world.write("core/README.md", "from pub\n");
    let mono = world.commit(&format!("import\n\nMonosplice-Origin: {pub_sha}\n"));
    assert_eq!(world.core_tree(&mono), pub_tree);

    let view = world.view(&subrepo());
    assert!(view.related);
    assert_eq!(view.export_base.as_deref(), Some(mono.as_str()));
    assert!(view.imported_pub_shas.contains(&pub_sha));
    // Reflected by ancestry, so nothing is pending.
    assert!(view.unreflected_pub.is_empty());
    // No Source trailer anywhere: nothing was ever exported.
    assert_eq!(view.last_exported_mono, None);

    // Now break the tree equality: a *conflicted* import carries work pub has never
    // seen, so it must not become the export boundary.
    world.write("core/README.md", "resolved differently\n");
    let conflicted = world.commit(&format!(
        "conflicted import\n\nMonosplice-Origin: {pub_sha}\n"
    ));
    let view = world.view(&subrepo());
    assert!(view.related);
    // The walk skips the conflicted commit and lands on the clean one below it.
    assert_eq!(view.export_base.as_deref(), Some(mono.as_str()));
    assert_ne!(view.export_base.as_deref(), Some(conflicted.as_str()));
}

#[test]
fn an_origin_trailer_that_never_matches_leaves_no_base_but_still_relates() {
    let mut world = World::new();
    let pub_tree = world.tree(files(&[("README.md", "from pub\n")]));
    let pub_sha = world.push_pub(REMOTE, &pub_tree, None, "public work\n");

    world.write("core/README.md", "never matches\n");
    world.commit(&format!("bad import\n\nMonosplice-Origin: {pub_sha}\n"));

    let view = world.view(&subrepo());
    // Named a real pub ancestor, so the repos know about each other...
    assert!(view.related);
    // ...but no commit reproduces pub, so there is no boundary to append after.
    assert_eq!(view.export_base, None);
}

#[test]
fn a_pub_commit_naming_an_unknown_mono_sha_is_a_broken_source_ref() {
    let mut world = World::new();
    let head = world.head_sha();
    let tree = world.core_tree(&head);
    let bogus = "0".repeat(40);
    let pub_sha = world.push_pub(
        REMOTE,
        &tree,
        None,
        &format!("export\n\nMonosplice-Source: {bogus}\n"),
    );

    let view = world.view(&subrepo());
    assert_eq!(view.broken_source_refs.len(), 1);
    assert_eq!(view.broken_source_refs[0].pub_sha, pub_sha);
    assert_eq!(view.broken_source_refs[0].mono_sha, bogus);
    // A broken claim never becomes the rewrite-detection cursor.
    assert_eq!(view.last_exported_mono, None);
    // ...and it still counts as "related": pub is talking about us.
    assert!(view.related);
    // Nothing resolves anywhere, so nothing supersedes it either.
    assert!(view.superseded_source_refs.is_empty());
}

/// Validation stops at the newest trailer that resolves. Below that point a dead sha is a
/// fossil of somebody's rebase: no clone will ever have it, and it cannot change what is
/// published. Above it, the mapping is unreadable and the refusal stands.
#[test]
fn a_dead_source_ref_is_superseded_below_the_live_anchor_and_broken_above_it() {
    let mut world = World::new();
    let mono = world.head_sha();
    let tree = world.core_tree(&mono);
    let rebased_away = "0".repeat(40);
    let elsewhere = "1".repeat(40);

    let old = world.push_pub(
        REMOTE,
        &tree,
        None,
        &format!("export from before a rebase\n\nMonosplice-Source: {rebased_away}\n"),
    );
    let live = world.push_pub(
        REMOTE,
        &tree,
        Some(&old),
        &format!("export that healed it\n\nMonosplice-Source: {mono}\n"),
    );

    let view = world.view(&subrepo());
    assert!(
        view.broken_source_refs.is_empty(),
        "{:?}",
        view.broken_source_refs
    );
    assert_eq!(view.superseded_source_refs.len(), 1);
    assert_eq!(view.superseded_source_refs[0].pub_sha, old);
    assert_eq!(view.superseded_source_refs[0].mono_sha, rebased_away);
    assert_eq!(view.last_exported_mono.as_deref(), Some(mono.as_str()));
    assert_eq!(view.export_base.as_deref(), Some(mono.as_str()));

    // Now a public commit above the live anchor names a commit nobody here has: that
    // stretch of public history cannot be checked, and the refusal comes back.
    world.push_pub(
        REMOTE,
        &tree,
        Some(&live),
        &format!("published from somewhere else\n\nMonosplice-Source: {elsewhere}\n"),
    );
    let view = world.view(&subrepo());
    assert_eq!(view.broken_source_refs.len(), 1);
    assert_eq!(view.broken_source_refs[0].mono_sha, elsewhere);
    assert_eq!(
        view.superseded_source_refs.len(),
        1,
        "still just the fossil"
    );
    assert_eq!(view.last_exported_mono.as_deref(), Some(mono.as_str()));
}

/// A public commit is settled as a whole: a dead trailer next to the live one that names the
/// anchor makes its commit unreadable, and the export is refused.
#[test]
fn a_dead_trailer_on_the_commit_of_the_live_anchor_is_broken() {
    let mut world = World::new();
    let s = subrepo();
    let live = world.head_sha();
    let tree = world.core_tree(&live);
    let dead = "2".repeat(40);
    let fossil = "3".repeat(40);
    let old = world.push_pub(
        REMOTE,
        &tree,
        None,
        &format!("older\n\nMonosplice-Source: {fossil}\n"),
    );
    let both = world.push_pub(
        REMOTE,
        &tree,
        Some(&old),
        &format!("two in one\n\nMonosplice-Source: {live}\nMonosplice-Source: {dead}\n"),
    );

    let view = world.view(&s);
    assert_eq!(view.last_exported_mono.as_deref(), Some(live.as_str()));
    assert_eq!(view.broken_source_refs.len(), 1);
    assert_eq!(view.broken_source_refs[0].pub_sha, both);
    assert_eq!(view.broken_source_refs[0].mono_sha, dead);
    assert_eq!(view.superseded_source_refs.len(), 1);
    assert_eq!(view.superseded_source_refs[0].pub_sha, old);
    assert_eq!(view.superseded_source_refs[0].mono_sha, fossil);
    let refusal = world.preconditions(&s, &view).expect("a refusal");
    assert!(refusal.contains(&dead), "got: {refusal}");

    // Without the older commit, the dead trailer of that one commit is all there is.
    let alone = world.push_pub(
        REMOTE,
        &tree,
        None,
        &format!("alone\n\nMonosplice-Source: {live}\nMonosplice-Source: {dead}\n"),
    );
    let view = world.view(&s);
    assert_eq!(view.last_exported_mono.as_deref(), Some(live.as_str()));
    assert_eq!(view.broken_source_refs.len(), 1);
    assert_eq!(view.broken_source_refs[0].pub_sha, alone);
    assert_eq!(view.broken_source_refs[0].mono_sha, dead);
    assert!(view.superseded_source_refs.is_empty());

    // The order of the two trailers changes nothing.
    world.push_pub(
        REMOTE,
        &tree,
        None,
        &format!("turned\n\nMonosplice-Source: {dead}\nMonosplice-Source: {live}\n"),
    );
    let view = world.view(&s);
    assert_eq!(view.last_exported_mono.as_deref(), Some(live.as_str()));
    assert_eq!(view.broken_source_refs.len(), 1);
    assert_eq!(view.broken_source_refs[0].mono_sha, dead);
    assert!(view.superseded_source_refs.is_empty());
}

/// Of two public commits that claim one monorepo commit, the mapping records the newest.
#[test]
fn the_newest_claim_on_a_commit_is_the_one_recorded() {
    let mut world = World::new();
    let mono = world.head_sha();
    let tree = world.core_tree(&mono);
    let message = format!("export\n\nMonosplice-Source: {mono}\n");
    let old = world.push_pub(REMOTE, &tree, None, &message);
    let new = world.push_pub(REMOTE, &tree, Some(&old), &message);
    let view = world.view(&subrepo());
    assert_eq!(
        view.exported_mono_to_pub.get(&mono).map(String::as_str),
        Some(new.as_str())
    );
}

#[test]
fn unreflected_pub_is_ancestry_based_not_per_commit() {
    let mut world = World::new();
    let t1 = world.tree(files(&[("a.txt", "one\n")]));
    let p1 = world.push_pub(REMOTE, &t1, None, "pub one\n");
    let t2 = world.tree(files(&[("a.txt", "one\n"), ("b.txt", "two\n")]));
    let p2 = world.push_pub(REMOTE, &t2, Some(&p1), "pub two\n");
    let t3 = world.tree(files(&[
        ("a.txt", "one\n"),
        ("b.txt", "two\n"),
        ("c.txt", "three\n"),
    ]));
    let p3 = world.push_pub(REMOTE, &t3, Some(&p2), "pub three\n");

    // Nothing imported yet: all three are pending, oldest first.
    let view = world.view(&subrepo());
    assert_eq!(
        view.unreflected_pub,
        vec![p1.clone(), p2.clone(), p3.clone()]
    );

    // Import only the middle one. Its ancestor p1 is reflected by construction.
    world.commit(&format!("import\n\nMonosplice-Origin: {p2}\n"));
    let view = world.view(&subrepo());
    assert_eq!(view.unreflected_pub, vec![p3.clone()]);
}

#[test]
fn a_forged_origin_value_cannot_abort_the_pending_walk() {
    let mut world = World::new();
    let t1 = world.tree(files(&[("a.txt", "one\n")]));
    let p1 = world.push_pub(REMOTE, &t1, None, "pub one\n");
    world.commit(&format!(
        "import\n\nMonosplice-Origin: {}\n",
        "0".repeat(40)
    ));

    let view = world.view(&subrepo());
    assert_eq!(view.unreflected_pub, vec![p1]);
}

#[test]
fn our_own_exports_never_read_as_pending_imports() {
    let mut world = World::new();
    let mono = world.head_sha();
    let tree = world.core_tree(&mono);
    world.push_pub(
        REMOTE,
        &tree,
        None,
        &format!("first commit\n\nMonosplice-Source: {mono}\n"),
    );
    let view = world.view(&subrepo());
    assert!(view.unreflected_pub.is_empty());
}

/// With an up-to-date mirror an offline view is the online one, whatever the hooks compare.
#[test]
fn an_up_to_date_mirror_gives_the_same_view() {
    let mut world = World::new();
    let mut s = subrepo();
    s.transform = Some("printf 'rewritten\n' > README.md".to_string());
    let tree = world.tree(files(&[("README.md", "rewritten\n")]));
    let public = world.push_pub(REMOTE, &tree, None, "public work\n");
    let attached = world.commit(&format!("attach\n\nMonosplice-Origin: {public}\n"));
    let message = format!("export\n\nMonosplice-Source: {DEAD_SHA}\n");
    let claimed = world.push_pub(REMOTE, &tree, Some(&public), &message);
    let pending = world.push_pub(REMOTE, &tree, Some(&claimed), "more\n");

    let online = world.view(&s);
    let Ok(offline) = world.try_view(&s, true) else {
        panic!("offline view")
    };
    assert_eq!(online.export_base.as_deref(), Some(attached.as_str()));
    assert_eq!(online.unreflected_pub, vec![pending]);
    assert_eq!(online.broken_source_refs.len(), 1);
    assert_eq!(offline.tracking_ref, online.tracking_ref);
    assert_eq!(offline.pub_head, online.pub_head);
    assert_eq!(offline.export_base, online.export_base);
    assert_eq!(offline.last_exported_mono, online.last_exported_mono);
    assert_eq!(offline.unreflected_pub, online.unreflected_pub);
    assert_eq!(offline.imported_pub_shas, online.imported_pub_shas);
    assert_eq!(offline.origin_by_mono, online.origin_by_mono);
    assert_eq!(offline.related, online.related);
    assert_eq!(
        offline.broken_source_refs[0].pub_sha,
        online.broken_source_refs[0].pub_sha
    );
}

#[test]
fn two_trailers_that_name_one_import_list_it_once() {
    let mut world = World::new();
    let tree = world.tree(files(&[("a.txt", "one\n")]));
    let p1 = world.push_pub(REMOTE, &tree, None, "pub one\n");
    let first = world.commit(&format!("import\n\nMonosplice-Origin: {p1}\n"));
    let second = world.commit(&format!("import again\n\nMonosplice-Origin: {p1}\n"));
    let view = world.view(&subrepo());
    assert_eq!(view.imported_pub_shas, vec![p1.clone()]);
    assert_eq!(
        view.origin_by_mono,
        vec![(second, vec![p1.clone()]), (first, vec![p1])]
    );
}

// --- fork state ---

#[test]
fn fork_state_is_none_until_the_push_branch_exists_and_then_mirrors_it() {
    let mut world = World::new();
    let mut s = subrepo();
    s.upstream = Some("upstream-does-not-matter-here".to_string());
    s.push_branch = "patches".to_string();
    let online = SyncViewOptions { offline: false };

    let state = world.drive(|talk| load_fork_state(talk, &s, &online));
    assert_eq!(state.unwrap().head, None);

    let head = world.head_sha();
    let branches = world.remotes.get_mut(REMOTE).unwrap();
    branches.insert("patches".to_string(), head.clone());
    let state = world
        .drive(|talk| load_fork_state(talk, &s, &online))
        .expect("fork state");
    assert_eq!(state.head.as_deref(), Some(head.as_str()));
    // The fetch really mirrored it into the fork tracking ref, so offline agrees.
    let offline = world
        .drive(|talk| load_fork_state(talk, &s, &SyncViewOptions { offline: true }))
        .unwrap();
    assert_eq!(offline.head.as_deref(), Some(head.as_str()));
}

#[test]
fn an_unreachable_fork_is_a_note_not_a_crash() {
    let mut world = World::new();
    let mut s = subrepo();
    s.remote = "/sandbox/nope.git".to_string();
    let online = SyncViewOptions { offline: false };
    let (state, error) = world.drive(|talk| try_load_fork_state(talk, &s, &online));
    assert!(state.is_none());
    assert!(error.is_some(), "expected a GitError");
    assert!(world
        .drive(|talk| load_fork_state(talk, &s, &online))
        .is_err());
}

// ---------------------------------------------------------------------------------------
// Exports.
// ---------------------------------------------------------------------------------------

#[test]
fn a_first_export_replays_one_commit_with_its_identity_and_trailer() {
    let mut world = World::new();
    let s = subrepo();
    let mono = world.head_sha();
    let view = world.view(&s);
    assert_eq!(view.pub_head, None);

    let candidates = world.plan(&s, &view);
    assert_eq!(candidates.len(), 1);
    assert_eq!(candidates[0].mono_sha, mono);

    let planned = world.compute(&s, &view, &candidates).expect("compute");
    assert_eq!(planned.len(), 1);
    assert_eq!(planned[0].tree, world.core_tree(&mono));
    assert_eq!(
        planned[0].message,
        format!("first commit\n\nMonosplice-Source: {mono}\n")
    );

    let result = world.export(&s, &view, &candidates).expect("export");
    assert!(result.pushed);
    assert_eq!(result.exported.len(), 1);
    let pub_sha = result.new_head.clone().expect("a new head");
    assert_eq!(result.exported[0].pub_sha, pub_sha);

    // The remote really moved, and the local tracking ref followed.
    assert_eq!(world.remote_head(REMOTE, "main"), Some(pub_sha.clone()));
    assert_eq!(world.refs["refs/monosplice/core/remote"], pub_sha);
    // Author and committer are copied verbatim from the monorepo commit.
    let exported = &world.commits[&pub_sha];
    assert_eq!(exported.author, world.commits[&mono].author);
    assert_eq!(exported.committer, world.commits[&mono].committer);
    assert_eq!(exported.author.0, "Mono Author");
    assert_eq!(exported.author.1, "mono@example.test");
    assert_eq!(
        exported.message,
        format!("first commit\n\nMonosplice-Source: {mono}\n")
    );
    // Only the subrepo content is published.
    assert_eq!(
        *world.files_of(&pub_sha),
        files(&[("README.md", "hello\n")])
    );
}

#[test]
fn a_commit_that_changes_nothing_publishable_is_skipped() {
    let mut world = World::new();
    let mut s = subrepo();
    s.exclude = vec!["*.secret".to_string()];
    let view = world.view(&s);
    let candidates = world.plan(&s, &view);
    world.export(&s, &view, &candidates).expect("export");

    // A commit that only touches files outside the subrepo is not even a candidate...
    world.write("top.txt", "more\n");
    world.commit("outside only");
    let view = world.view(&s);
    assert!(world.plan(&s, &view).is_empty());

    // ...and a commit inside the path that only adds excluded content plans to nothing:
    // an empty public commit would be noise.
    world.write("core/keys.secret", "shh\n");
    world.commit("add a secret");
    let view = world.view(&s);
    let candidates = world.plan(&s, &view);
    assert_eq!(candidates.len(), 1, "it is a candidate...");
    assert!(
        world
            .compute(&s, &view, &candidates)
            .expect("compute")
            .is_empty(),
        "...but tree equality drops it"
    );
    world.asked.clear();
    let result = world.export(&s, &view, &candidates).expect("export");
    assert!(!result.pushed);
    assert_eq!(result.new_head, view.pub_head);
    assert!(world.writes().is_empty());
}

/// The already-published rule, built by hand so the origin is a strict *ancestor* of the public
/// tip: comparing against the tip instead would republish a long-settled import on top of newer
/// public work.
#[test]
fn a_pure_import_is_dropped_but_a_conflicted_one_keeps_its_resolution() {
    let mut world = World::new();
    let s = subrepo();

    // Public history: pub_a, then pub_b on top, so the tip has moved on.
    let pub_tree = world.tree(files(&[("README.md", "from pub\n")]));
    let pub_a = world.push_pub(REMOTE, &pub_tree, None, "pub a\n");
    let pub_tree2 = world.tree(files(&[
        ("README.md", "from pub\n"),
        ("LATER.md", "later\n"),
    ]));
    let pub_b = world.push_pub(REMOTE, &pub_tree2, Some(&pub_a), "pub b\n");

    // A clean import of pub_a: core/ reproduces its tree byte for byte.
    world.write("core/README.md", "from pub\n");
    let clean = world.commit(&format!("import a\n\nMonosplice-Origin: {pub_a}\n"));
    assert_eq!(world.core_tree(&clean), pub_tree);
    // A conflicted import of the same pub commit, carrying a resolution pub never saw.
    world.write("core/README.md", "merged by hand\n");
    let conflicted = world.commit(&format!("resolve\n\nMonosplice-Origin: {pub_a}\n"));

    let view = SyncView {
        pub_head: Some(pub_b),
        ..unpublished_view(&s.name)
    };

    // Both are candidates: export never skips by trailer.
    let candidates = world.plan(&s, &view);
    let shas: Vec<&str> = candidates.iter().map(|c| c.mono_sha.as_str()).collect();
    assert!(shas.contains(&clean.as_str()), "{shas:?}");
    assert!(shas.contains(&conflicted.as_str()), "{shas:?}");

    // The clean one reproduces its origin's tree, which pub already contains.
    let planned = world
        .compute(&s, &view, &vec![ExportCandidate { mono_sha: clean }])
        .expect("compute");
    assert!(planned.is_empty(), "a pure import is a no-op: {planned:?}");

    // The conflicted one does not, and must export or the resolution would be lost.
    let candidate = ExportCandidate {
        mono_sha: conflicted.clone(),
    };
    let planned = world
        .compute(&s, &view, &vec![candidate])
        .expect("compute");
    assert_eq!(planned.len(), 1);
    assert_eq!(planned[0].mono_sha, conflicted);
}

#[test]
fn the_rewrite_message_hook_runs_before_the_trailer_is_appended() {
    let mut world = World::new();
    let mut s = subrepo();
    s.rewrite_message = Some("sed 's/^/[core] /'".to_string());
    let mono = world.head_sha();
    let view = world.view(&s);
    let candidates = world.plan(&s, &view);
    let planned = world.compute(&s, &view, &candidates).expect("compute");
    assert_eq!(
        planned[0].message,
        format!("[core] first commit\n\nMonosplice-Source: {mono}\n")
    );
}

#[test]
fn a_rejecting_scan_hook_aborts_before_anything_is_pushed() {
    let mut world = World::new();
    let mut s = subrepo();
    s.scan = Some("echo 'secret!' 1>&2; exit 1".to_string());
    let view = world.view(&s);
    let candidates = world.plan(&s, &view);
    let err = world
        .export(&s, &view, &candidates)
        .expect_err("scan rejects")
        .to_string();
    assert!(err.starts_with("scan hook rejected core commit"), "{err}");
    assert!(err.ends_with(": secret!"), "{err}");
    // Nothing reached the remote.
    assert!(world.remotes[REMOTE].is_empty());
    assert!(world.writes().is_empty());
}

#[test]
fn build_export_chain_is_deterministic_and_linear() {
    let mut world = World::new();
    let s = subrepo();
    world.write("core/b.txt", "two\n");
    world.commit("second");
    let view = world.view(&s);
    let candidates = world.plan(&s, &view);
    let planned = world.compute(&s, &view, &candidates).expect("compute");
    assert_eq!(planned.len(), 2);

    let (first, tip1) = world
        .drive(|talk| build_export_chain(talk, &planned, None))
        .expect("chain");
    let (second, tip2) = world
        .drive(|talk| build_export_chain(talk, &planned, None))
        .expect("chain again");
    assert_eq!(tip1, tip2, "same plan, same base, same shas");
    assert_eq!(
        first.iter().map(|e| e.pub_sha.clone()).collect::<Vec<_>>(),
        second.iter().map(|e| e.pub_sha.clone()).collect::<Vec<_>>()
    );
    let tip = tip1.expect("a tip");
    assert_eq!(
        world.walk(&tip).len(),
        2,
        "one parentless root plus one child"
    );
    assert_eq!(world.commits[&tip].parents, vec![first[0].pub_sha.clone()]);
}

/// A plan names the trees that it would publish and creates nothing; the objects come with the
/// chain, trees before commits.
#[test]
fn a_plan_creates_no_object_and_the_export_creates_them_all() {
    let mut world = World::new();
    let mut s = subrepo();
    s.exclude = vec!["*.tmp".to_string()];
    s.transform = Some("printf 'rewritten\n' > README.md".to_string());
    world.write("core/b.txt", "two\n");
    world.write("core/c.tmp", "scratch\n");
    world.commit("second");
    let view = world.view(&s);
    let candidates = world.plan(&s, &view);
    let trees = world.trees.len();
    let blobs = world.blobs.len();
    let commits = world.commits.len();
    world.asked.clear();

    let planned = world.compute(&s, &view, &candidates).expect("compute");
    assert_eq!(planned.len(), 2);
    assert_eq!(world.objects_written(), 0);
    assert_eq!(world.trees.len(), trees);
    assert_eq!(world.blobs.len(), blobs);
    assert_eq!(world.commits.len(), commits);
    for plan in &planned {
        assert!(!world.trees.contains_key(&plan.tree), "only named");
    }

    world.asked.clear();
    let result = world.export(&s, &view, &candidates).expect("an export");
    assert_eq!(result.exported.len(), 2);
    let written: Vec<&str> = world
        .asked
        .iter()
        .filter_map(|request| match request {
            Request::Rehash { .. } => Some("files"),
            Request::BuildTree { .. } => Some("tree"),
            Request::CommitTree(_) => Some("commit"),
            _ => None,
        })
        .collect();
    assert_eq!(
        written,
        vec!["files", "tree", "files", "tree", "commit", "commit"]
    );
    let head = world.remote_head(REMOTE, "main").expect("published");
    assert_eq!(world.commits[&head].tree, planned[1].tree);
    assert_eq!(
        world.files_of(&head),
        &files(&[("README.md", "rewritten\n"), ("b.txt", "two\n")])
    );

    // With excludes alone the named files are what is written, and nothing where git has the
    // tree already.
    s.transform = None;
    world.remotes.insert(REMOTE.to_string(), BTreeMap::new());
    let view = world.view(&s);
    let candidates = world.plan(&s, &view);
    world.asked.clear();
    let planned = world.compute(&s, &view, &candidates).expect("compute");
    assert_eq!(world.objects_written(), 0);
    let (chain, _) = world
        .drive(|talk| build_export_chain(talk, &planned, None))
        .expect("chain");
    assert_eq!(world.objects_written(), 4);
    assert_eq!(
        world.files_of(&chain[1].pub_sha),
        &files(&[("README.md", "hello\n"), ("b.txt", "two\n")])
    );

    s.exclude = Vec::new();
    let view = world.view(&s);
    world.asked.clear();
    let planned = world.compute(&s, &view, &candidates).expect("compute");
    world
        .drive(|talk| build_export_chain(talk, &planned, None))
        .expect("chain");
    assert_eq!(world.objects_written(), 2, "the two commits");
}

#[test]
fn the_plan_of_the_first_candidates_begins_the_plan() {
    let mut world = World::new();
    let s = subrepo();
    world.write("core/b.txt", "two\n");
    world.commit("second");
    world.write("core/c.txt", "three\n");
    world.commit("third");
    let view = world.view(&s);
    let mut candidates = world.plan(&s, &view);
    let all = world.compute(&s, &view, &candidates).expect("compute");
    assert_eq!(all.len(), 3);
    candidates.truncate(2);
    let begun = world.compute(&s, &view, &candidates).expect("compute");
    assert_eq!(begun.len(), 2);
    for (plan, first) in all.iter().zip(&begun) {
        assert_eq!(plan.mono_sha, first.mono_sha);
        assert_eq!(plan.tree, first.tree);
        assert_eq!(plan.message, first.message);
    }
}

#[test]
fn every_commit_is_scanned_and_a_late_rejection_publishes_none_of_them() {
    let mut world = World::new();
    let mut s = subrepo();
    s.scan = Some(
        "if grep -rq SECRET .; then echo 'secret found in core' 1>&2; exit 1; fi".to_string(),
    );
    world.write("core/b.txt", "two\n");
    world.commit("second");
    world.write("core/c.txt", "SECRET\n");
    let bad = world.commit("third");
    let view = world.view(&s);
    let candidates = world.plan(&s, &view);
    world.asked.clear();
    let err = world
        .export(&s, &view, &candidates)
        .expect_err("the third is rejected");
    assert_eq!(
        err.to_string(),
        format!("scan hook rejected core commit {bad}: secret found in core")
    );
    let scans = world
        .asked
        .iter()
        .filter(|request| matches!(request, Request::TreeHook { .. }))
        .count();
    assert_eq!(scans, 3, "one for each commit");
    assert!(world.writes().is_empty());
    assert!(!world
        .asked
        .iter()
        .any(|request| matches!(request, Request::CommitTree(_))));
}

// --- rewrite detection & preconditions ---

#[test]
fn a_broken_source_ref_refuses_the_export_with_the_ts_wording() {
    let mut world = World::new();
    let s = subrepo();
    let head = world.head_sha();
    let tree = world.core_tree(&head);
    let bogus = "0".repeat(40);
    let pub_sha = world.push_pub(
        REMOTE,
        &tree,
        None,
        &format!("export\n\nMonosplice-Source: {bogus}\n"),
    );

    let view = world.view(&s);
    let message = world.preconditions(&s, &view).expect("a refusal");
    assert_eq!(
        message,
        format!(
            "core: standalone commit {pub_sha} carries Monosplice-Source: {bogus}, but that monorepo commit does not exist in this clone.\nThe commit mapping is broken, so monosplice cannot tell what is already published and will not export on top of it. Nothing was pushed to {REMOTE}.\nRun `monosplice doctor` to see the full picture."
        )
    );
}

#[test]
fn rewritten_history_under_the_last_export_is_detected_and_refused() {
    let mut world = World::new();
    let s = subrepo();
    let first = world.head_sha();
    // Export a second commit, then throw it away with a reset.
    world.write("core/b.txt", "two\n");
    world.commit("second");
    let view = world.view(&s);
    let candidates = world.plan(&s, &view);
    world.export(&s, &view, &candidates).expect("export");

    let view = world.view(&s);
    assert!(!world.rewritten(&view));
    assert_eq!(world.preconditions(&s, &view), None);
    assert_eq!(
        world.find_recovery(&s, &view),
        None,
        "an intact anchor is never 'recovered'"
    );

    let last = view.last_exported_mono.clone().expect("a last export");
    world.reset_hard(&first);
    let view = world.view(&s);
    assert_eq!(view.last_exported_mono.as_deref(), Some(last.as_str()));
    assert!(world.rewritten(&view));
    assert_eq!(
        world.find_recovery(&s, &view),
        None,
        "nothing on the HEAD walk publishes the exported tree any more"
    );
    let message = world.preconditions(&s, &view).expect("a refusal");
    assert_eq!(
        message,
        format!(
            "core: the last exported monorepo commit {last} is no longer an ancestor of HEAD.\nMonorepo history was rewritten (rebase, amend or force-push) underneath it, so monosplice cannot tell which commits are new. Nothing was pushed to {REMOTE}.\nRun `monosplice doctor` for details, then restore that commit (`git reflog`) before pushing again."
        )
    );
}

/// History was rewritten *above* the anchor without touching what the anchor publishes, so the
/// sha is stale and the export it named is still correct.
#[test]
fn a_rewrite_that_keeps_the_subrepo_tree_recovers_the_anchor_and_prefers_the_newest() {
    let mut world = World::new();
    let s = subrepo();
    let root_commit = world.head_sha();

    // The ordinary first export of the root commit.
    let view = world.view(&s);
    let candidates = world.plan(&s, &view);
    world.export(&s, &view, &candidates).expect("export");
    let pub_head = world.refs["refs/monosplice/core/remote"].clone();

    // A second export, from a commit that changes nothing under core/ and then leaves the
    // main line: the rebased-away sha. Pub still records it.
    world.branch_at("rewritten-away", &root_commit);
    world.write("top.txt", "moved on\n");
    let away = world.commit("work outside core");
    let tree = world.core_tree(&away);
    let p1 = world.push_pub(
        REMOTE,
        &tree,
        Some(&pub_head),
        &format!("export\n\nMonosplice-Source: {away}\n"),
    );

    // Back on main: two more commits, each publishing that same core tree.
    world.checkout("main");
    let b = world.commit("nothing to do with core");
    let c = world.commit("also nothing to do with core");

    let mut view = world.view(&s);
    assert_eq!(view.last_exported_mono.as_deref(), Some(away.as_str()));
    assert!(world.rewritten(&view));

    let recovery = world
        .find_recovery(&s, &view)
        .expect("the tree is still on the walk");
    assert_eq!(recovery.missing, away);
    assert_eq!(recovery.recovered, c, "the newest match wins");
    assert_eq!(recovery.pub_sha, p1);
    assert_eq!(
        recovery.also_matching, 2,
        "{b} and {root_commit} publish it too"
    );
    let line = recovery.message("core");
    assert_eq!(
        line,
        format!("core: recovered anchor: {away} → {c} (identical subrepo tree after history rewrite) — newest of 3 adjacent commits publishing that tree")
    );
    assert_eq!(
        world.drive(|talk| live_export_anchor(talk, &s, &view)),
        Some(c.clone())
    );

    // Adopting it clears the refusal and tightens the range to "after the anchor".
    let applied = world.recover(&s, &mut view).expect("recovered");
    assert_eq!(applied, recovery);
    assert_eq!(world.recover(&s, &mut view), None, "and it is made once");
    assert_eq!(view.export_base.as_deref(), Some(c.as_str()));
    assert_eq!(view.last_exported_mono.as_deref(), Some(c.as_str()));
    assert!(!world.rewritten(&view));
    assert_eq!(world.preconditions(&s, &view), None);
    assert!(
        world.plan(&s, &view).is_empty(),
        "everything up to the recovered anchor is already published"
    );
}

/// The scan base only ever moves forward: a surviving anchor above the recovered commit keeps it.
#[test]
fn a_newer_scan_base_survives_a_recovery() {
    let mut world = World::new();
    let s = subrepo();
    let first = world.head_sha();
    world.write("core/b.txt", "two\n");
    let second = world.commit("second");
    let tree = world.core_tree(&first);
    let lost = world.record(&tree, Vec::new(), "lost\n", "A", "a@example.test");
    let p1 = world.push_pub(REMOTE, &tree, None, "export\n");

    let mut view = unpublished_view("core");
    view.pub_head = Some(p1.clone());
    view.export_base = Some(second.clone());
    view.last_exported_mono = Some(lost.clone());
    view.exported_mono_to_pub.insert(lost.clone(), p1.clone());

    let recovery = world.recover(&s, &mut view).expect("recovered");
    assert_eq!(recovery.recovered, first);
    assert_eq!(view.export_base, Some(second));
    assert_eq!(view.last_exported_mono, Some(first.clone()));
    assert_eq!(view.exported_mono_to_pub.get(&first), Some(&p1));
}

// --- first publish ---

#[test]
fn publish_baseline_pushes_one_parentless_snapshot() {
    let mut world = World::new();
    let s = subrepo();
    world.write("core/b.txt", "two\n");
    let mono = world.commit("second");

    let pub_sha = world
        .baseline(&s, "HEAD")
        .expect("baseline")
        .expect("something publishable");
    assert_eq!(world.remote_head(REMOTE, "main"), Some(pub_sha.clone()));
    assert_eq!(world.refs["refs/monosplice/core/remote"], pub_sha);
    assert_eq!(world.walk(&pub_sha).len(), 1);
    assert_eq!(
        world.commits[&pub_sha].message,
        format!("Initial import of core\n\nMonosplice-Source: {mono}\n")
    );
    let tree = world.core_tree(&mono);
    assert_eq!(world.commits[&pub_sha].tree, tree);
    // Author is the committer of the monorepo head: a snapshot is nobody's authorship.
    let published = &world.commits[&pub_sha];
    assert_eq!(published.author, published.committer);
    assert_eq!(published.committer, world.commits[&mono].committer);
}

#[test]
fn publish_baseline_is_none_when_everything_is_excluded() {
    let mut world = World::new();
    let mut s = subrepo();
    s.exclude = vec!["**/*".to_string()];
    assert_eq!(world.baseline(&s, "HEAD").expect("baseline"), None);
    assert!(world.remotes[REMOTE].is_empty());

    let mut missing = subrepo();
    missing.path = "nowhere".to_string();
    assert_eq!(world.baseline(&missing, "HEAD").expect("baseline"), None);
}

#[test]
fn publish_full_history_replays_every_commit_touching_the_path() {
    let mut world = World::new();
    let s = subrepo();
    world.write("core/b.txt", "two\n");
    world.commit("second");
    world.write("top.txt", "more\n");
    world.commit("outside the subrepo");
    world.write("core/c.txt", "three\n");
    world.commit("third");

    let result = world
        .drive(|talk| publish_full_history(talk, &s, "HEAD"))
        .expect("publish");
    assert!(result.pushed);
    assert_eq!(result.exported.len(), 3);
    let tip = result.new_head.clone().expect("a head");
    assert_eq!(world.remote_head(REMOTE, "main"), Some(tip.clone()));
    assert_eq!(world.walk(&tip).len(), 3);
    assert_eq!(world.subjects(&tip), vec!["first commit", "second", "third"]);
}

// --- triangular ---

#[test]
fn triangular_export_lands_on_the_fork_push_branch_and_reuses_an_identical_chain() {
    let mut world = World::new();
    let s = triangular();

    // Upstream publishes a baseline the monorepo already reflects.
    let mono = world.head_sha();
    let tree = world.core_tree(&mono);
    let upstream_head = world.push_pub(
        REMOTE,
        &tree,
        None,
        &format!("base\n\nMonosplice-Source: {mono}\n"),
    );

    world.write("core/p.txt", "patch\n");
    world.commit("a patch for upstream");

    let view = world.view(&s);
    assert_eq!(view.pub_head.as_deref(), Some(upstream_head.as_str()));
    let candidates = world.plan(&s, &view);
    let result = world.export(&s, &view, &candidates).expect("export");
    assert!(result.pushed);
    let tip = result.new_head.clone().expect("a tip");

    // The fork carries the patch branch; upstream was never written to.
    assert_eq!(world.remote_head(FORK, "patches"), Some(tip.clone()));
    assert_eq!(world.remote_head(REMOTE, "main"), Some(upstream_head.clone()));
    assert_eq!(world.refs["refs/monosplice/core/fork"], tip);
    // Parented on upstream's head, not on the fork.
    assert_eq!(world.commits[&tip].parents, vec![upstream_head]);

    // Running again rebuilds the identical chain, so nothing is pushed a second time.
    let view = world.view(&s);
    let candidates = world.plan(&s, &view);
    world.asked.clear();
    let again = world.export(&s, &view, &candidates).expect("export");
    assert!(!again.pushed, "the fork already carries this chain");
    assert_eq!(again.new_head.as_deref(), Some(tip.as_str()));
    assert_eq!(again.exported.len(), 1);
    assert!(world.writes().is_empty());

    // A further patch replaces the branch, provided that it still is what was fetched.
    world.write("core/q.txt", "another\n");
    world.commit("another patch");
    world.asked.clear();
    let summary = world.push_subrepo(&s).expect("push");
    assert_eq!(
        summary,
        ExportSummary {
            pushed: 2,
            awaiting: 0
        }
    );
    assert_eq!(
        world.writes(),
        vec![
            format!("force {FORK} refs/heads/patches {tip}"),
            "ref refs/monosplice/core/fork".to_string()
        ]
    );
    let waiting = world.push_subrepo(&s).expect("push again");
    assert_eq!(
        waiting,
        ExportSummary {
            pushed: 0,
            awaiting: 2
        }
    );
}

// ---------------------------------------------------------------------------------------
// Anchor recovery: a rebase that leaves the subrepo tree untouched must not strand a push.
// ---------------------------------------------------------------------------------------

struct Exported {
    world: World,
    /// Monorepo commit the baseline publish recorded.
    base: String,
    /// Monorepo commit the second push exported: the sha a rebase will rewrite away.
    exported: String,
    /// Standalone head after that push.
    pub_head: String,
}

/// A published subrepo with one exported commit on top of the baseline.
fn exported_once() -> Exported {
    let mut world = World::new();
    let s = subrepo();
    world.project = vec![s.clone()];
    world.publish_first(&s, false).expect("a baseline");
    let base = world.head_sha();

    world.write("core/one.ts", "export const one = 1\n");
    let exported = world.commit("feat: exported before the rewrite");
    world.push_subrepo(&s).expect("a push");
    let pub_head = world.remote_head(REMOTE, "main").expect("published");
    Exported {
        world,
        base,
        exported,
        pub_head,
    }
}

/// Rebase `main` over one commit that touches nothing under `core/`: the ordinary "rebase onto
/// updated main" that rewrites every sha above `base` and no subrepo tree at all.
fn rebase_over_unrelated(world: &mut World, base: &str) {
    world.branch_at("unrelated", base);
    world.write("app/main.ts", "export const app = true\n");
    let unrelated = world.commit("chore: unrelated top-level work");
    world.checkout("main");
    world.rebase(base, &unrelated);
}

#[test]
fn a_rebase_that_keeps_the_subrepo_tree_recovers_the_anchor_and_exports_only_new_work() {
    let mut ex = exported_once();
    let s = subrepo();
    let before = ex.world.head_sha();
    let core_tree = ex.world.core_tree(&before);

    rebase_over_unrelated(&mut ex.world, &ex.base);
    let rewritten = ex.world.head_sha();
    assert_ne!(rewritten, ex.exported, "the rebase must rewrite the sha");
    assert_eq!(
        ex.world.core_tree(&rewritten),
        core_tree,
        "...and must leave the subrepo tree byte-identical"
    );

    ex.world.write("core/two.ts", "export const two = 2\n");
    let newest = ex.world.commit("feat: after the rebase");

    // The preview agrees with the push: exactly one commit, no refusal.
    let dry = ex.world.push_dry_run(&s, false).expect("a preview");
    assert_eq!(
        dry,
        DryRunPlan::Export {
            commits: vec![PendingCommit {
                sha: newest.clone(),
                subject: "feat: after the rebase".to_string()
            }]
        }
    );
    assert_eq!(
        ex.world.remote_head(REMOTE, "main").as_ref(),
        Some(&ex.pub_head),
        "a dry run must not write to the remote"
    );

    ex.world.warnings.clear();
    let push = ex.world.push_subrepo(&s).expect("a push");
    assert_eq!(
        ex.world.warnings,
        vec![format!(
            "core: recovered anchor: {} → {rewritten} (identical subrepo tree after history rewrite)",
            ex.exported
        )]
    );
    assert_eq!(push.pushed, 1);

    // Exactly one new public commit, on top of the one the pre-rebase push created.
    let head = ex.world.remote_head(REMOTE, "main").expect("published");
    assert_eq!(ex.world.commits[&head].parents, vec![ex.pub_head.clone()]);
    assert_eq!(
        ex.world.subjects(&head).last().map(String::as_str),
        Some("feat: after the rebase")
    );
    let filtered = ex.world.core_tree(&newest);
    assert_eq!(
        ex.world.commits[&head].tree, filtered,
        "pub tree == filtered(mono HEAD) still holds"
    );

    // Self-healing: the export just recorded a live sha, so the next run is ordinary.
    ex.world.warnings.clear();
    let again = ex.world.push_subrepo(&s).expect("nothing to push");
    assert!(ex.world.warnings.is_empty(), "{:?}", ex.world.warnings);
    assert_eq!(
        again,
        ExportSummary {
            pushed: 0,
            awaiting: 0
        }
    );
}

#[test]
fn doctor_reports_the_anchor_recovery_it_would_do_instead_of_only_the_error() {
    let mut ex = exported_once();
    rebase_over_unrelated(&mut ex.world, &ex.base);
    let rewritten = ex.world.head_sha();

    let doc = ex.world.doctor(None, false);
    let stdout = text(&doc.lines);
    assert!(
        stdout.contains(&format!("recoverable via identical tree at {rewritten}")),
        "got:\n{stdout}"
    );
    assert!(
        stdout.contains(&ex.exported),
        "the stale sha is still named:\n{stdout}"
    );
    assert!(
        doc.failure.is_none() && doc.report.ok,
        "a recoverable anchor is a note, not a problem:\n{stdout}"
    );
    assert!(
        !stdout.contains("git reflog"),
        "nothing needs restoring:\n{stdout}"
    );
}

#[test]
fn a_rewrite_that_changed_the_subrepo_tree_is_still_refused() {
    let mut ex = exported_once();
    let s = subrepo();

    // Same shape of rewrite, but the replacement publishes different content: nothing on the
    // HEAD walk reproduces what the standalone repo carries, so there is no anchor to recover.
    ex.world.reset_hard(&ex.base);
    ex.world.write("core/one.ts", "export const one = 999\n");
    ex.world.commit("feat: rewritten with different content");

    ex.world.warnings.clear();
    let refused = ex.world.push_subrepo(&s).expect_err("a refusal");
    assert!(
        refused.message.contains(&ex.exported)
            && refused
                .message
                .contains("is no longer an ancestor of HEAD"),
        "got:\n{}",
        refused.message
    );
    assert!(ex.world.warnings.is_empty(), "{:?}", ex.world.warnings);
    assert_eq!(
        ex.world.remote_head(REMOTE, "main").as_ref(),
        Some(&ex.pub_head),
        "nothing was pushed"
    );

    let doc = ex.world.doctor(None, false);
    let stdout = text(&doc.lines);
    assert_eq!(doc.failure.expect("a problem").exit_code, 1);
    assert!(
        !stdout.contains("recoverable via identical tree"),
        "got:\n{stdout}"
    );
    assert!(stdout.contains("git reflog"), "got:\n{stdout}");
}

#[test]
fn a_recovered_anchor_does_not_excuse_unimported_standalone_commits() {
    let mut ex = exported_once();
    let s = subrepo();

    rebase_over_unrelated(&mut ex.world, &ex.base);
    ex.world.write("core/two.ts", "export const two = 2\n");
    ex.world.commit("feat: after the rebase");

    // Meanwhile someone commits directly on the standalone repo.
    let mut contrib = ex.world.files_of(&ex.pub_head).clone();
    contrib.insert("CONTRIB.md".to_string(), file("outside work\n"));
    let tree = ex.world.tree(contrib);
    let pub_head = ex.world.push_elsewhere(
        REMOTE,
        &tree,
        Some(&ex.pub_head.clone()),
        "feat: from a contributor\n",
    );

    let refused = ex.world.push_subrepo(&s).expect_err("a refusal");
    assert!(
        refused.message.contains("have not been imported yet"),
        "recovery re-derives the anchor and nothing else:\n{}",
        refused.message
    );
    assert_eq!(
        refused.message,
        format!("core: 1 commit(s) on {REMOTE} have not been imported yet.\nNothing was pushed. Run `monosplice pull core` first, then push again.")
    );
    assert_eq!(
        ex.world.remote_head(REMOTE, "main"),
        Some(pub_head),
        "nothing was pushed"
    );
    // The preview refuses in the same words.
    assert_eq!(
        ex.world.push_dry_run(&s, false).expect_err("a refusal").message,
        refused.message
    );
}

// ---------------------------------------------------------------------------------------
// Re-baselining a subrepo onto a brand-new public remote.
// ---------------------------------------------------------------------------------------

const NEW_PUB: &str = "/sandbox/core-pub-v2.git";

struct Rebaselined {
    world: World,
    /// The subrepo as the config has it now: published from scratch to the new remote.
    s: ResolvedSubrepo,
    /// A commit on the *old* remote that monorepo history still claims to have imported.
    fossil: String,
    /// The monorepo commit the new baseline recorded: the live export anchor.
    live_anchor: String,
}

/// Publish to one remote, import a commit from it (leaving a `Monosplice-Origin` trailer), then
/// re-baseline: point the config at a brand-new empty repository and first-publish into it.
fn rebaselined_onto_a_new_remote() -> Rebaselined {
    let mut world = World::new();
    let old = subrepo();
    world.publish_first(&old, false).expect("a baseline");

    // Someone commits on the old remote; the monorepo imports it, recording the provenance.
    let old_head = world.remote_head(REMOTE, "main").expect("published");
    let mut contrib = world.files_of(&old_head).clone();
    contrib.insert("OLD.md".to_string(), file("published elsewhere\n"));
    let tree = world.tree(contrib);
    let fossil = world.push_elsewhere(
        REMOTE,
        &tree,
        Some(&old_head),
        "feat: work on the old remote\n",
    );
    assert_eq!(world.pull(&old).expect("an import"), 1);
    let imported = world.head_sha();
    assert!(
        world.commits[&imported]
            .message
            .contains(&format!("Monosplice-Origin: {fossil}")),
        "the import must record where it came from"
    );

    // Re-baseline: a brand-new empty repository, published from this clone.
    world.remotes.insert(NEW_PUB.to_string(), BTreeMap::new());
    let s = ResolvedSubrepo {
        remote: NEW_PUB.to_string(),
        ..subrepo()
    };
    world.project = vec![s.clone()];
    let live_anchor = world.commit("chore: re-baseline core onto a new remote");
    world.publish_first(&s, false).expect("a new baseline");
    let new_head = world.remote_head(NEW_PUB, "main").expect("published");
    assert_eq!(
        world.subjects(&new_head),
        vec!["Initial import of core"],
        "the new remote starts from one baseline commit"
    );
    Rebaselined {
        world,
        s,
        fossil,
        live_anchor,
    }
}

#[test]
fn a_clone_with_import_trailers_from_the_old_remote_is_healthy_after_a_re_baseline() {
    let mut rb = rebaselined_onto_a_new_remote();

    // The clone gets only reachable objects: no tracking refs, and nothing from the old remote.
    rb.world.clone_afresh();
    assert!(
        !rb.world.has.contains(&rb.fossil),
        "the fresh clone has never seen the old remote's commit"
    );
    let head = rb.world.head_sha();
    assert!(
        rb.world.walk(&head).iter().any(|sha| rb.world.commits[sha]
            .message
            .contains(&format!("Monosplice-Origin: {}", rb.fossil))),
        "...but its history still claims to have imported it"
    );

    let doc = rb.world.doctor(None, false);
    let stdout = text(&doc.lines);
    assert!(
        doc.failure.is_none(),
        "settled provenance is not a problem:\n{stdout}"
    );
    assert!(
        stdout.contains("historical import trailer")
            && stdout.contains(&format!("superseded by live anchor at {}", rb.live_anchor)),
        "got:\n{stdout}"
    );
    assert!(
        stdout.contains(&rb.fossil),
        "the fossil sha is still named:\n{stdout}"
    );

    let dry = rb.world.push_dry_run(&rb.s, false).expect("a preview");
    assert_eq!(
        dry,
        DryRunPlan::Export {
            commits: Vec::new()
        }
    );

    // Real work from that clone reaches the new remote.
    let pub_head = rb.world.remote_head(NEW_PUB, "main").expect("published");
    rb.world.write("core/next.ts", "export const next = true\n");
    let next = rb.world.commit("feat: after the re-baseline");
    let push = rb.world.push_subrepo(&rb.s).expect("a push");
    assert_eq!(push.pushed, 1);
    let new_head = rb.world.remote_head(NEW_PUB, "main").expect("published");
    assert_eq!(rb.world.commits[&new_head].parents, vec![pub_head]);
    let tree = rb.world.core_tree(&next);
    assert_eq!(rb.world.commits[&new_head].tree, tree);
}

#[test]
fn an_import_trailer_above_the_live_anchor_is_still_a_problem() {
    let mut rb = rebaselined_onto_a_new_remote();

    // A commit *above* the live anchor claiming an import nothing can resolve: this one is not
    // settled by anything, so the mapping really is in question.
    rb.world.commit(&format!(
        "chore: claims an import\n\nMonosplice-Origin: {DEAD_SHA}\n"
    ));

    let doc = rb.world.doctor(None, false);
    let stdout = text(&doc.lines);
    assert_eq!(doc.failure.expect("a problem").exit_code, 1, "{stdout}");
    assert!(
        stdout.contains(&format!(
            "✗ monorepo history claims to have imported commit {DEAD_SHA}"
        )),
        "got:\n{stdout}"
    );
    // The settled one below the anchor is still only a note.
    assert!(
        stdout.contains("historical import trailer"),
        "got:\n{stdout}"
    );
}

#[test]
fn a_config_pointed_at_an_unrelated_remote_still_refuses() {
    let mut rb = rebaselined_onto_a_new_remote();

    // A repository with history of its own that was never published from here: no anchor of
    // either kind resolves, so nothing vouches for the import trailers.
    let stranger = "/sandbox/stranger.git";
    rb.world.remotes.insert(stranger.to_string(), BTreeMap::new());
    let tree = rb.world.tree(files(&[("README.md", "nope\n")]));
    rb.world
        .push_elsewhere(stranger, &tree, None, "chore: someone else's repo\n");
    rb.world.project = vec![ResolvedSubrepo {
        remote: stranger.to_string(),
        ..subrepo()
    }];
    rb.world.commit("chore: point core at an unrelated remote");
    let new_head = rb.world.remote_head(NEW_PUB, "main");

    let doc = rb.world.doctor(None, false);
    let stdout = text(&doc.lines);
    assert_eq!(doc.failure.expect("a problem").exit_code, 1, "{stdout}");
    assert!(
        stdout.contains(&format!(
            "✗ monorepo history claims to have imported commit {}",
            rb.fossil
        )),
        "got:\n{stdout}"
    );
    assert!(
        !stdout.contains("historical import trailer"),
        "nothing supersedes anything here:\n{stdout}"
    );

    // ...and the previous remote is untouched by any of this.
    assert!(new_head.is_some());
    assert_eq!(rb.world.remote_head(NEW_PUB, "main"), new_head);
}

// ---------------------------------------------------------------------------------------
// Pulls, pushes and first publishes, as the commands see them.
// ---------------------------------------------------------------------------------------

/// A published subrepo: the baseline of one commit.
fn published() -> World {
    let mut world = World::new();
    world.project = vec![subrepo()];
    world.publish_first(&subrepo(), false).expect("a baseline");
    world.asked.clear();
    world
}

/// Someone commits on the standalone repository, in a clone of their own.
fn contribute(world: &mut World, path: &str, content: &str, subject: &str) -> String {
    let head = world.remote_head(REMOTE, "main").expect("published");
    let mut all = world.files_of(&head).clone();
    all.insert(path.to_string(), file(content));
    let tree = world.tree(all);
    world.push_elsewhere(REMOTE, &tree, Some(&head), &format!("{subject}\n"))
}

#[test]
fn a_pull_imports_what_the_monorepo_has_not_seen_and_a_push_does_not_send_it_back() {
    let mut world = published();
    let s = subrepo();
    assert_eq!(world.pull(&s).expect("nothing new"), 0);

    let contributed = contribute(&mut world, "CONTRIB.md", "hi\n", "feat: outside work");
    let dry = world
        .drive(|talk| plan_pull_dry_run(talk, &s))
        .expect("a preview");
    assert_eq!(
        dry,
        DryRunPlan::Import {
            commits: vec![PendingCommit {
                sha: contributed.clone(),
                subject: "feat: outside work".to_string()
            }]
        }
    );
    assert_eq!(dry.commits().len(), 1);

    assert_eq!(world.pull(&s).expect("an import"), 1);
    assert_eq!(world.pull(&s).expect("nothing left"), 0);
    // A pure import reproduces the public tip, so there is nothing to publish.
    assert_eq!(world.push_subrepo(&s).expect("nothing to push").pushed, 0);
    assert_eq!(world.remote_head(REMOTE, "main"), Some(contributed));

    // And what is pushed is not pulled back.
    world.write("core/mine.md", "mine\n");
    world.commit("feat: inside work");
    assert_eq!(world.push_subrepo(&s).expect("a push").pushed, 1);
    assert_eq!(world.pull(&s).expect("nothing to pull"), 0);
}

#[test]
fn an_import_that_may_not_start_or_conflicts_says_why() {
    let mut world = published();
    let s = subrepo();
    contribute(&mut world, "CONTRIB.md", "hi\n", "feat: outside work");

    world.import_refusal = Some("core: the work tree is dirty".to_string());
    let refused = world.pull(&s).expect_err("a refusal");
    assert_eq!(refused.message, "core: the work tree is dirty");
    assert!(!refused.halt);
    assert!(world.asked.iter().any(|request| matches!(
        request,
        Request::CheckImport { retry, .. } if retry == "monosplice pull core"
    )));
    assert!(world.writes().is_empty());

    world.import_refusal = None;
    world.import_conflict = Some(ImportError::Git(git_error(&["am"], "boom\n")));
    let failed = world.pull(&s).expect_err("a failure");
    assert_eq!(failed.message, "core: git am failed (exit 128)\nboom");
    assert!(!failed.halt);

    world.import_conflict = Some(ImportError::Other("no state".to_string()));
    let failed = world.pull(&s).expect_err("a failure");
    assert_eq!(failed.message, "core: no state");
}

#[test]
fn a_subrepo_that_is_not_published_is_told_what_to_do() {
    let mut world = World::new();
    let s = subrepo();
    let refused = world.pull(&s).expect_err("not published");
    assert_eq!(
        refused.message,
        format!("core: {REMOTE} has no main branch — this subrepo has not been published yet.\nRun `monosplice push core --yes` to publish core/ for the first time.")
    );

    // Nothing on either side.
    let mut empty = s.clone();
    empty.path = "nowhere".to_string();
    let refused = world.push_subrepo(&empty).expect_err("nothing exists");
    assert!(
        refused.message.starts_with("core: nothing exists yet — nowhere/ has no committed files"),
        "{}",
        refused.message
    );

    // With an upstream there is nothing to base the fork branch on.
    let refused = world.push_subrepo(&triangular()).expect_err("no upstream");
    assert_eq!(
        refused.message,
        format!("core: upstream {REMOTE} has no main branch, so monosplice has nothing to base the fork branch on.\nNothing was changed. Fix `upstream` or `branch` in your config, or drop `upstream` to publish core/ to {FORK} directly:\n  monosplice push core --yes")
    );

    let view = unpublished_view("core");
    assert!(world
        .drive(|talk| require_published(talk, &s, &view))
        .is_err());
}

#[test]
fn an_unreachable_source_and_an_unrelated_one_are_told_apart() {
    let mut world = published();
    let mut s = subrepo();
    s.remote = "/sandbox/nope.git".to_string();
    let failed = match world.drive(|talk| load_view(talk, &s, SyncViewOptions::default())) {
        Err(failed) => failed,
        Ok(_) => panic!("there is no such remote"),
    };
    assert_eq!(
        failed.message,
        "core: cannot reach remote /sandbox/nope.git\nfatal: could not read from remote"
    );

    let stranger = "/sandbox/stranger.git";
    world.remotes.insert(stranger.to_string(), BTreeMap::new());
    let tree = world.tree(files(&[("README.md", "nope\n")]));
    world.push_elsewhere(stranger, &tree, None, "chore: someone else's repo\n");
    s.remote = stranger.to_string();
    let refused = world.push_subrepo(&s).expect_err("unrelated");
    assert_eq!(
        refused.message,
        format!("core: {stranger} (main) has history that is unrelated to this monorepo — no commit on either side references the other.\nNothing was pushed to {stranger}. To connect the two repositories, run:\n  monosplice attach core")
    );
    assert_eq!(
        world.push_dry_run(&s, false).expect_err("unrelated").message,
        refused.message
    );
    let refused = world.pull(&s).expect_err("unrelated");
    assert!(refused.message.contains("\nNothing was imported. To connect"));
    assert!(world.writes().is_empty());
}

#[test]
fn a_push_over_a_broken_mapping_is_refused() {
    let mut world = published();
    let head = world.remote_head(REMOTE, "main").expect("published");
    let tree = world.commits[&head].tree.clone();
    let message = format!("elsewhere\n\nMonosplice-Source: {DEAD_SHA}\n");
    let broken = world.push_elsewhere(REMOTE, &tree, Some(&head), &message);
    world.write("core/new.md", "new\n");
    world.commit("feat: new");
    let refused = world.push_subrepo(&subrepo()).expect_err("a refusal");
    assert!(refused.message.starts_with(&format!(
        "core: standalone commit {broken} carries Monosplice-Source: {DEAD_SHA}, but"
    )));
    assert!(world.writes().is_empty());

    let doc = world.doctor(None, false);
    assert_eq!(doc.report.problems, 1);
    assert_eq!(
        doc.report.subrepos[0].problems,
        vec![format!("standalone commit {broken} carries Monosplice-Source: {DEAD_SHA}, but that monorepo commit does not exist in this clone.")]
    );
}

#[test]
fn an_export_that_fails_says_what_failed() {
    let mut world = published();
    world.write("core/new.md", "new\n");
    let new = world.commit("feat: new");

    let mut scanned = subrepo();
    scanned.scan = Some("echo 'secret!' 1>&2; exit 1".to_string());
    let failed = world.push_subrepo(&scanned).expect_err("rejected");
    assert_eq!(
        failed.message,
        format!("core: scan hook rejected core commit {new}: secret!\nNothing was pushed to {REMOTE}.")
    );

    // In triangular mode a git failure is the fork's, never upstream's.
    let mut forked = triangular();
    forked.remote = "/sandbox/nope.git".to_string();
    let failed = world.push_subrepo(&forked).expect_err("no fork");
    assert_eq!(
        failed.message,
        "core: cannot push to fork remote /sandbox/nope.git (patches)\nfatal: could not read from remote\nNothing was pushed. Fix `remote` in your config or your network/credentials, then run `monosplice push core` again."
    );

    // A standalone branch that moved in the meantime rejects the push.
    let view = world.view(&subrepo());
    contribute(&mut world, "CONTRIB.md", "hi\n", "feat: outside work");
    let failed = world
        .drive(|talk| export_subrepo(talk, &subrepo(), Some(view.clone())))
        .expect_err("rejected");
    assert_eq!(
        failed.message,
        format!("core: git push {REMOTE} refs/heads/main failed (exit 128)\n! [rejected]")
    );
}

#[test]
fn a_first_publish_asks_once_everything_else_is_settled() {
    let s = subrepo();

    let mut world = World::empty();
    let refused = world.publish_first(&s, false).expect_err("no commits");
    assert_eq!(
        refused.message,
        "/repo has no commits yet — commit something under core/ before publishing core."
    );

    world.write("top.txt", "top\n");
    world.commit("top");
    let refused = world.publish_first(&s, false).expect_err("no files");
    assert!(refused.message.starts_with("core: nothing exists yet"));
    assert!(
        !world
            .asked
            .iter()
            .any(|request| matches!(request, Request::Confirm)),
        "a subrepo with nothing in it is not asked about"
    );

    world.write("core/a.md", "a\n");
    world.commit("first");
    world.confirmed = Err(SubrepoFailure::new("core: cancelled".to_string()));
    let declined = world.publish_first(&s, false).expect_err("declined");
    assert_eq!(declined.message, "core: cancelled");
    assert!(world.writes().is_empty());

    world.confirmed = Ok(());
    let mut excluded = s.clone();
    excluded.exclude = vec!["**/*".to_string()];
    for export_history in [false, true] {
        let refused = world
            .publish_first(&excluded, export_history)
            .expect_err("nothing left");
        assert_eq!(
            refused.message,
            "core: nothing to publish from core/ after applying exclude patterns — nothing was pushed."
        );
    }
    assert!(world.writes().is_empty());

    world.write("core/b.md", "b\n");
    world.commit("second");
    assert_eq!(
        world.publish_first(&s, true).expect("published"),
        FirstPublishResult {
            commits: 2,
            export_history: true
        }
    );
    assert_eq!(
        world.writes(),
        vec![
            format!("push {REMOTE} refs/heads/main"),
            "ref refs/monosplice/core/remote".to_string()
        ]
    );

    let mut scanned = s.clone();
    scanned.scan = Some("echo 'secret!' 1>&2; exit 1".to_string());
    let head = world.head_sha();
    let failed = world.publish_first(&scanned, false).expect_err("rejected");
    assert_eq!(
        failed.message,
        format!("core: scan hook rejected core commit {head}: secret!\nNothing was pushed to {REMOTE}.")
    );

    let mut lost = s.clone();
    lost.remote = "/sandbox/nope.git".to_string();
    let failed = world.publish_first(&lost, false).expect_err("no remote");
    assert_eq!(
        failed.message,
        "core: git push /sandbox/nope.git failed (exit 128)\nfatal: no such remote"
    );
}

#[test]
fn a_dry_run_of_a_first_publish_lists_the_history_it_would_replay() {
    let mut world = World::new();
    let s = subrepo();
    let first = world.head_sha();
    assert_eq!(
        world.push_dry_run(&s, false).expect("a preview"),
        DryRunPlan::FirstPublish {
            export_history: false,
            commits: Vec::new()
        }
    );
    assert_eq!(
        world.push_dry_run(&s, true).expect("a preview"),
        DryRunPlan::FirstPublish {
            export_history: true,
            commits: vec![PendingCommit {
                sha: first,
                subject: "first commit".to_string()
            }]
        }
    );
    assert!(world.writes().is_empty());

    let mut missing = s.clone();
    missing.path = "nowhere".to_string();
    assert!(world
        .push_dry_run(&missing, false)
        .expect_err("nothing there")
        .message
        .starts_with("core: nothing exists yet"));
    assert!(world
        .push_dry_run(&triangular(), false)
        .expect_err("no upstream")
        .message
        .starts_with("core: upstream"));
}

/// What the dry run lists is what the push exports, on the same repositories.
#[test]
fn the_preview_lists_what_the_push_exports() {
    let mut world = published();
    let s = subrepo();
    world.write("core/a.md", "a\n");
    let a = world.commit("feat: a");
    world.write("top.txt", "outside\n");
    world.commit("chore: outside");
    world.write("core/b.md", "b\n");
    let b = world.commit("feat: b");

    let dry = world.push_dry_run(&s, false).expect("a preview");
    let listed: Vec<String> = dry.commits().iter().map(|c| c.sha.clone()).collect();
    assert_eq!(listed, vec![a, b]);
    let summary = world.push_subrepo(&s).expect("a push");
    assert_eq!(summary.pushed, listed.len());
    let head = world.remote_head(REMOTE, "main").expect("published");
    assert_eq!(
        world.subjects(&head),
        vec!["Initial import of core", "feat: a", "feat: b"]
    );
}

/// A dry run runs no hook, push or pull. An import that only the `transform` could show to be
/// reproduced counts for nothing, so the preview lists more than the push sends.
#[test]
fn a_dry_run_runs_no_hook_and_errs_towards_listing_more() {
    let mut world = World::new();
    let mut s = subrepo();
    s.transform = Some("printf 'rewritten\n' > README.md".to_string());
    s.scan = Some("true".to_string());
    s.rewrite_message = Some("sed 's/^/[core] /'".to_string());
    let first = world.head_sha();
    let tree = world.tree(files(&[("README.md", "rewritten\n")]));
    let public = world.push_pub(REMOTE, &tree, None, "public work\n");
    let attached = world.commit(&format!("attach\n\nMonosplice-Origin: {public}\n"));
    world.write("core/b.md", "b\n");
    let newest = world.commit("feat: b");

    // Deriving a view for a sync does run it, and finds the base.
    let view = world.view(&s);
    assert_eq!(view.export_base.as_deref(), Some(attached.as_str()));
    assert!(world.hook_work() > 0);

    world.asked.clear();
    let dry = world.push_dry_run(&s, false).expect("a preview");
    assert_eq!(world.hook_work(), 0);
    assert_eq!(world.objects_written(), 0);
    assert!(world.writes().is_empty());
    let listed: Vec<String> = dry.commits().iter().map(|c| c.sha.clone()).collect();
    assert_eq!(listed, vec![first, newest.clone()]);

    world.asked.clear();
    let pulled = world
        .drive(|talk| plan_pull_dry_run(talk, &s))
        .expect("a preview");
    assert_eq!(world.hook_work(), 0);
    assert!(pulled.commits().is_empty());

    let shown = world
        .drive(|talk| preview_sync_view(talk, &s))
        .expect("a view");
    assert_eq!(shown.export_base, None);

    // Only the base rests on the hook.
    assert!(shown.related);
    assert_eq!(shown.related, view.related);
    assert_eq!(shown.pub_head, view.pub_head);
    assert_eq!(shown.last_exported_mono, view.last_exported_mono);
    assert_eq!(shown.unreflected_pub, view.unreflected_pub);
    assert_eq!(shown.imported_pub_shas, view.imported_pub_shas);
    assert_eq!(shown.origin_by_mono, view.origin_by_mono);
    assert!(shown.broken_source_refs.is_empty() && view.broken_source_refs.is_empty());

    let summary = world.push_subrepo(&s).expect("a push");
    assert_eq!(summary.pushed, 1);
    let head = world.remote_head(REMOTE, "main").expect("published");
    assert_eq!(
        world.subjects(&head).last().map(String::as_str),
        Some("[core] feat: b")
    );

    // An export needs no hook to be known for one.
    world.write("core/c.md", "c\n");
    let next = world.commit("feat: c");
    world.asked.clear();
    let dry = world.push_dry_run(&s, false).expect("a preview");
    assert_eq!(world.hook_work(), 0);
    let listed: Vec<String> = dry.commits().iter().map(|c| c.sha.clone()).collect();
    assert_eq!(listed, vec![next]);
}

/// With a `transform`, a preview over a rewritten anchor lists the commits and leaves recovery
/// to the push; without one it recovers, as the push does, and still runs no hook.
#[test]
fn a_dry_run_over_a_rewritten_anchor_runs_no_hook() {
    let mut s = subrepo();
    s.transform = Some("printf 'rewritten\n' > README.md".to_string());
    let mut world = World::new();
    world.publish_first(&s, false).expect("a baseline");
    let base = world.head_sha();
    world.write("core/one.ts", "one\n");
    world.commit("feat: exported");
    world.push_subrepo(&s).expect("a push");
    rebase_over_unrelated(&mut world, &base);
    let again = world.head_sha();
    world.write("core/two.ts", "two\n");
    let newest = world.commit("feat: after the rebase");

    world.asked.clear();
    world.warnings.clear();
    let dry = world.push_dry_run(&s, false).expect("a preview");
    assert_eq!(world.hook_work(), 0);
    assert!(world.warnings.is_empty());
    let listed: Vec<String> = dry.commits().iter().map(|c| c.sha.clone()).collect();
    assert_eq!(listed, vec![again, newest]);
    let summary = world.push_subrepo(&s).expect("a push");
    assert_eq!(summary.pushed, 1);
    assert_eq!(world.warnings.len(), 1);

    let mut ex = exported_once();
    let mut scanned = subrepo();
    scanned.scan = Some("true".to_string());
    rebase_over_unrelated(&mut ex.world, &ex.base);
    ex.world.write("core/two.ts", "two\n");
    let newest = ex.world.commit("feat: after the rebase");
    ex.world.asked.clear();
    let dry = ex.world.push_dry_run(&scanned, false).expect("a preview");
    assert_eq!(ex.world.hook_work(), 0);
    let listed: Vec<String> = dry.commits().iter().map(|c| c.sha.clone()).collect();
    assert_eq!(listed, vec![newest]);
}

/// With a `transform`, a preview still refuses what the push refuses whatever the hook says.
#[test]
fn a_dry_run_with_a_transform_refuses_what_no_hook_can_mend() {
    let mut s = subrepo();
    s.transform = Some("true".to_string());
    let mut world = published();
    contribute(&mut world, "x.md", "x\n", "feat: elsewhere");
    world.asked.clear();
    let refusal = world.push_dry_run(&s, false).expect_err("left to import");
    assert_eq!(world.hook_work(), 0);
    let pushed = world.push_subrepo(&s).expect_err("left to import");
    assert_eq!(refusal.message, pushed.message);

    let mut world = published();
    let head = world.remote_head(REMOTE, "main").expect("published");
    let tree = world.commits[&head].tree.clone();
    let message = format!("elsewhere\n\nMonosplice-Source: {DEAD_SHA}\n");
    world.push_pub(REMOTE, &tree, Some(&head), &message);
    world.asked.clear();
    let refusal = world.push_dry_run(&s, false).expect_err("a broken mapping");
    assert_eq!(world.hook_work(), 0);
    let pushed = world.push_subrepo(&s).expect_err("a broken mapping");
    assert_eq!(refusal.message, pushed.message);
}

/// A second push sends nothing: neither what was exported, nor a commit that touched only what
/// is excluded, nor what the branch has at its tip already.
#[test]
fn a_second_push_sends_nothing() {
    let mut world = published();
    let mut s = subrepo();
    s.exclude = vec!["*.tmp".to_string()];
    world.write("core/a.md", "a\n");
    world.commit("feat: a");
    assert_eq!(world.push_subrepo(&s).expect("a push").pushed, 1);
    let head = world.remote_head(REMOTE, "main");
    let nothing = ExportSummary {
        pushed: 0,
        awaiting: 0,
    };

    world.asked.clear();
    assert_eq!(world.push_subrepo(&s).expect("up to date"), nothing);
    assert_eq!(world.objects_written(), 0);
    assert!(world.writes().is_empty());

    world.write("core/scratch.tmp", "scratch\n");
    world.commit("chore: scratch");
    let view = world.view(&s);
    assert_eq!(world.plan(&s, &view).len(), 1, "it does touch the path");
    world.asked.clear();
    assert_eq!(world.push_subrepo(&s).expect("up to date"), nothing);
    assert_eq!(world.objects_written(), 0);
    assert!(world.writes().is_empty());
    assert_eq!(world.remote_head(REMOTE, "main"), head);
}

/// A preview and a push refuse an unrelated branch in the same words.
#[test]
fn the_preview_refuses_an_unrelated_branch_as_the_push_does() {
    let mut world = World::new();
    let tree = world.tree(files(&[("a.txt", "one\n")]));
    world.push_pub(REMOTE, &tree, None, "somebody else\n");
    for export_history in [false, true] {
        let preview = world
            .push_dry_run(&subrepo(), export_history)
            .expect_err("unrelated");
        let push = world.push_subrepo(&subrepo()).expect_err("unrelated");
        assert_eq!(preview.message, push.message);
        assert!(preview.message.contains("unrelated to this monorepo"));
    }

    // A `transform` has no say in it.
    let mut s = subrepo();
    s.transform = Some("true".to_string());
    world.asked.clear();
    let preview = world.push_dry_run(&s, false).expect_err("unrelated");
    assert_eq!(world.hook_work(), 0);
    let push = world.push_subrepo(&s).expect_err("unrelated");
    assert_eq!(preview.message, push.message);
}

// ---------------------------------------------------------------------------------------
// Doctor.
// ---------------------------------------------------------------------------------------

#[test]
fn a_healthy_project_passes_every_check() {
    let mut world = published();
    let mono = world.head_sha();
    let head = world.remote_head(REMOTE, "main").expect("published");
    let doc = world.doctor(None, false);
    assert!(doc.failure.is_none());
    assert!(doc.report.ok);
    assert_eq!(
        doc.lines,
        vec![
            "core".to_string(),
            "  path:          core/".to_string(),
            format!("  remote:        {REMOTE} (main)"),
            format!("  pub head:      {head}"),
            format!("  last exported: mono {mono}"),
            format!("                 pub  {head}"),
            "  to push: 0, to pull: 0".to_string(),
            String::new(),
            "✓ all checks passed".to_string(),
        ]
    );
    let row = &doc.report.subrepos[0];
    assert_eq!(row.push_branch, None);
    assert!(row.reachable && row.seeded);
    assert_eq!(row.pub_head.as_ref(), Some(&head));
    assert_eq!(row.last_exported_mono.as_ref(), Some(&mono));
    assert_eq!(row.last_exported_pub.as_ref(), Some(&head));
    assert_eq!((row.ahead, row.behind), (Some(0), Some(0)));
    assert!(world.writes().is_empty(), "doctor only looks");
}

#[test]
fn json_changes_what_is_printed_and_nothing_else() {
    let mut world = published();
    world.sequencer = Some("core".to_string());
    let human = world.doctor(None, false);
    let json = world.doctor(None, true);
    assert!(json.lines.is_empty());
    assert_eq!(format!("{:?}", json.report), format!("{:?}", human.report));
    assert_eq!(
        json.failure.expect("a problem").message,
        human.failure.expect("a problem").message
    );
}

#[test]
fn an_unfinished_pull_is_a_problem_of_its_own() {
    let mut world = published();
    world.sequencer = Some("core".to_string());
    let doc = world.doctor(None, false);
    assert_eq!(
        doc.lines[..4],
        [
            "✗ an unfinished pull of core is recorded in /repo/.git/monosplice/pull-state.json",
            "  Resolve the conflict, `git add` the files, then run `monosplice pull --continue`.",
            "  To abandon that import instead, run `monosplice pull --abort`.",
            "",
        ]
    );
    assert_eq!(doc.report.problems, 1);
    let failure = doc.failure.expect("a problem");
    assert_eq!(failure.exit_code, 1);
    assert_eq!(
        failure.message,
        "1 problem(s) found — see the report above."
    );
    assert_eq!(doc.lines.last().map(String::as_str), Some(""));
}

#[test]
fn what_cannot_be_reached_or_is_not_published_is_a_problem() {
    let mut world = World::new();
    let mut lost = subrepo();
    lost.name = "lost".to_string();
    lost.remote = "/sandbox/nope.git".to_string();
    world.project = vec![subrepo(), lost, triangular()];
    let doc = world.doctor(None, false);
    assert_eq!(doc.report.problems, 3);
    assert_eq!(
        doc.lines,
        vec![
            "core".to_string(),
            "  path:          core/".to_string(),
            format!("  remote:        {REMOTE} (main)"),
            format!("  ✗ not published yet — {REMOTE} has no main branch."),
            "    Run `monosplice push core --yes` to publish it for the first time.".to_string(),
            String::new(),
            "lost".to_string(),
            "  path:          core/".to_string(),
            "  remote:        /sandbox/nope.git (main)".to_string(),
            "  ✗ cannot reach /sandbox/nope.git".to_string(),
            "    git ls-remote /sandbox/nope.git failed (exit 128)".to_string(),
            "    fatal: could not read from remote".to_string(),
            "    Fix the URL in your config or your network/credentials, then run `monosplice doctor` again.".to_string(),
            String::new(),
            "core".to_string(),
            "  path:          core/".to_string(),
            format!("  upstream:      {REMOTE} (main)"),
            format!("  fork:          {FORK} (patches)"),
            format!("  ✗ not published yet — {REMOTE} has no main branch."),
            "    Fix `upstream` or `branch` in your config: monosplice builds the fork branch on the upstream head.".to_string(),
            String::new(),
        ]
    );
    assert!(!doc.report.subrepos[1].reachable);
    assert!(doc.report.subrepos[0].reachable);
    assert_eq!(doc.report.subrepos[0].ahead, None);

    // With one subrepo named, only that one is checked.
    let doc = world.doctor(Some("lost"), true);
    assert_eq!(doc.report.subrepos.len(), 1);
    assert_eq!(doc.report.problems, 1);

    let args = DoctorArgs {
        subrepo: Some("nobody".to_string()),
        json: false,
    };
    let failure = world
        .drive(|talk| run_doctor(talk, &args))
        .expect_err("no such subrepo");
    assert_eq!(failure.message, "no subrepo named nobody");
}

#[test]
fn the_fork_is_reported_apart_from_upstream() {
    let mut world = published();
    let head = world.remote_head(REMOTE, "main").expect("published");
    world.project = vec![triangular()];
    let doc = world.doctor(None, false);
    assert!(doc.failure.is_none());
    assert_eq!(doc.lines[4], format!("  upstream head: {head}"));
    assert_eq!(doc.lines[5], "  fork head:     (no patches branch yet)");

    world.write("core/p.txt", "patch\n");
    world.commit("a patch");
    world.push_subrepo(&triangular()).expect("a push");
    let tip = world.remote_head(FORK, "patches").expect("pushed");
    let doc = world.doctor(None, false);
    assert_eq!(doc.lines[5], format!("  fork head:     {tip}"));
    assert_eq!(doc.report.subrepos[0].fork_head.as_ref(), Some(&tip));
    assert_eq!(
        doc.report.subrepos[0].ahead,
        Some(1),
        "until upstream merges it"
    );

    let mut lost = triangular();
    lost.remote = "/sandbox/nope.git".to_string();
    world.project = vec![lost];
    let doc = world.doctor(None, false);
    assert_eq!(doc.report.problems, 1);
    assert_eq!(
        doc.lines[5..10],
        [
            "  ✗ cannot reach fork remote /sandbox/nope.git".to_string(),
            "    git ls-remote /sandbox/nope.git failed (exit 128)".to_string(),
            "    fatal: could not read from remote".to_string(),
            format!("    Pulling still works — it only talks to {REMOTE} — but `monosplice push core` will fail."),
            "    Fix `remote` in your config or your network/credentials, then run `monosplice doctor` again.".to_string(),
        ]
    );
}

#[test]
fn a_superseded_anchor_and_a_changed_config_are_notes() {
    let mut world = World::new();
    let mono = world.head_sha();
    let tree = world.core_tree(&mono);
    let old = world.push_pub(
        REMOTE,
        &tree,
        None,
        &format!("before a rebase\n\nMonosplice-Source: {DEAD_SHA}\n"),
    );
    let live = world.push_pub(
        REMOTE,
        &tree,
        Some(&old),
        &format!("healed\n\nMonosplice-Source: {mono}\n"),
    );
    let mut s = subrepo();
    s.exclude = vec!["README.md".to_string()];
    world.project = vec![s];
    let doc = world.doctor(None, false);
    assert!(doc.failure.is_none());
    assert_eq!(
        doc.report.subrepos[0].notes,
        vec![
            format!("informational: 1 historical anchor(s) unresolvable — superseded by live anchor at {mono}."),
            format!("commit {live} does not match the subtree monosplice would export from {mono} today."),
        ]
    );
    assert!(text(&doc.lines).contains(&format!(
        "    standalone commit {old} names {DEAD_SHA} (Monosplice-Source), which this clone does not have."
    )));
}

#[test]
fn a_hook_that_rejects_a_pending_commit_is_a_problem() {
    let mut world = published();
    world.write("core/new.md", "SECRET\n");
    let new = world.commit("feat: new");
    let mut s = subrepo();
    s.scan = Some(
        "if grep -rq SECRET .; then echo 'secret found in core' 1>&2; exit 1; fi".to_string(),
    );
    world.project = vec![s];
    let doc = world.doctor(None, false);
    assert_eq!(
        doc.report.subrepos[0].problems,
        vec![format!("a configured hook rejects a pending commit: scan hook rejected core commit {new}: secret found in core")]
    );
    assert_eq!(
        doc.report.subrepos[0].ahead,
        Some(1),
        "the candidates are counted instead"
    );
}

/// An import that no remote has is reported once, however often history names it.
#[test]
fn an_import_that_no_remote_has_is_reported_once() {
    let mut world = published();
    world.commit(&format!("import\n\nMonosplice-Origin: {DEAD_SHA}\n"));
    world.commit(&format!("again\n\nMonosplice-Origin: {DEAD_SHA}\n"));
    let doc = world.doctor(None, false);
    assert_eq!(doc.report.monorepo.problems.len(), 1);
    assert!(text(&doc.lines).contains(DEAD_SHA));
    assert_eq!(world.objects_written(), 0, "a doctor only looks");
}

/// A live anchor vouches for its own subrepo only: with a second subrepo that has none, nothing
/// is settled.
#[test]
fn an_import_is_settled_only_below_the_anchors_of_every_subrepo() {
    let mut rb = rebaselined_onto_a_new_remote();
    rb.world.write("web/index.md", "web\n");
    rb.world.commit("feat: web");
    let web_remote = "/sandbox/web.git";
    rb.world.remotes.insert(web_remote.to_string(), BTreeMap::new());
    let web = ResolvedSubrepo {
        name: "web".to_string(),
        path: "web".to_string(),
        remote: web_remote.to_string(),
        ..subrepo()
    };
    rb.world.project = vec![rb.s.clone(), web.clone()];
    let doc = rb.world.doctor(None, false);
    assert_eq!(doc.report.monorepo.problems.len(), 1);
    assert!(doc.report.monorepo.notes.is_empty());

    // Once it is published too, the older of the two anchors is the one that is named.
    rb.world.publish_first(&web, false).expect("a baseline");
    let doc = rb.world.doctor(None, false);
    assert!(doc.report.ok, "{}", text(&doc.lines));
    assert_eq!(
        doc.report.monorepo.notes,
        vec![format!("informational: 1 historical import trailer(s) unresolvable — superseded by live anchor at {}.", rb.live_anchor)]
    );

    // With one subrepo named, nothing is said of monorepo history.
    let doc = rb.world.doctor(Some("core"), false);
    assert!(doc.report.monorepo.problems.is_empty());
    assert!(doc.report.monorepo.notes.is_empty());
}
