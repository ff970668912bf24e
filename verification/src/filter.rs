//! What a monorepo commit actually publishes.
//!
//! Everything happens in the object database: the working tree and the index are never touched.

use vstd::prelude::*;
use vstd::string::*;
use crate::config::{ResolvedSubrepo, ResolvedSubrepoView};
use crate::git::{clone_entries, clone_texts, GitError, GitErrorView, TreeEntry, TreeEntryView};
pub use crate::hooks::HookError;
use crate::hooks::HookErrorView;
use crate::list::{contains_text, extend, lemma_filter_next, push};
use crate::talk::{
    commit_at, entries_at, excluded_at, hook_at, materialized_at, path_at, rehashed_at, step,
    step_result, text_at, ReplyView, Request, RequestView, Step, Talk, Turn,
};
use crate::text::Text;

verus! {

/// Why a subtree could not be resolved. `Hook` is the one a caller reports on its own terms:
/// a rejected `scan` means the export stops before anything reaches a remote.
#[derive(Debug)]
pub enum FilterError {
    Hook(HookError),
    Git(GitError),
    Other(String),
}

/// The value of a [`FilterError`].
#[verifier::ext_equal]
pub enum FilterErrorView {
    Hook(HookErrorView),
    Git(GitErrorView),
    Other(Text),
}

impl DeepView for FilterError {
    type V = FilterErrorView;

    open spec fn deep_view(&self) -> FilterErrorView {
        match self {
            FilterError::Hook(err) => FilterErrorView::Hook(err.deep_view()),
            FilterError::Git(err) => FilterErrorView::Git(err.deep_view()),
            FilterError::Other(detail) => FilterErrorView::Other(detail.deep_view()),
        }
    }
}

impl FilterErrorView {
    /// The error in words.
    pub open spec fn text(self) -> Text {
        match self {
            FilterErrorView::Hook(err) => err.text(),
            FilterErrorView::Git(err) => err.text(),
            FilterErrorView::Other(detail) => detail,
        }
    }
}

impl FilterError {
    /// The error in words.
    pub fn to_string(&self) -> (out: String)
        ensures
            out@ == self.deep_view().text(),
    {
        match self {
            FilterError::Hook(err) => err.to_string(),
            FilterError::Git(err) => err.to_string(),
            FilterError::Other(detail) => detail.clone(),
        }
    }
}

impl From<HookError> for FilterError {
    fn from(err: HookError) -> (out: Self) {
        FilterError::Hook(err)
    }
}

impl vstd::std_specs::convert::FromSpecImpl<HookError> for FilterError {
    open spec fn obeys_from_spec() -> bool {
        true
    }

    open spec fn from_spec(err: HookError) -> Self {
        FilterError::Hook(err)
    }
}

impl From<GitError> for FilterError {
    fn from(err: GitError) -> (out: Self) {
        FilterError::Git(err)
    }
}

impl vstd::std_specs::convert::FromSpecImpl<GitError> for FilterError {
    open spec fn obeys_from_spec() -> bool {
        true
    }

    open spec fn from_spec(err: GitError) -> Self {
        FilterError::Git(err)
    }
}

/// What a subtree is made of, for when its objects have to be written.
#[derive(Debug)]
pub enum TreeContent {
    /// A directory of the commit as it is: its objects exist.
    Committed,
    /// Files of the commit. Their contents exist as objects, the tree over them may not.
    Files { entries: Vec<TreeEntry> },
    /// The directory that a hook has worked on, and the entries that never were in it.
    Directory { dir: String, passthrough: Vec<TreeEntry> },
}

/// The value of a [`TreeContent`].
#[verifier::ext_equal]
pub enum TreeContentView {
    Committed,
    Files { entries: Seq<TreeEntryView> },
    Directory { dir: Text, passthrough: Seq<TreeEntryView> },
}

impl DeepView for TreeContent {
    type V = TreeContentView;

    open spec fn deep_view(&self) -> TreeContentView {
        match self {
            TreeContent::Committed => TreeContentView::Committed,
            TreeContent::Files { entries } => TreeContentView::Files {
                entries: entries.deep_view(),
            },
            TreeContent::Directory { dir, passthrough } => TreeContentView::Directory {
                dir: dir.deep_view(),
                passthrough: passthrough.deep_view(),
            },
        }
    }
}

impl Clone for TreeContent {
    fn clone(&self) -> (out: Self)
        ensures
            out.deep_view() == self.deep_view(),
    {
        match self {
            TreeContent::Committed => TreeContent::Committed,
            TreeContent::Files { entries } => TreeContent::Files {
                entries: clone_entries(entries),
            },
            TreeContent::Directory { dir, passthrough } => TreeContent::Directory {
                dir: dir.clone(),
                passthrough: clone_entries(passthrough),
            },
        }
    }
}

/// The tree that a monorepo commit publishes, by name. Its objects need not exist yet.
#[derive(Debug)]
pub struct Subtree {
    pub tree: String,
    pub content: TreeContent,
}

/// The value of a [`Subtree`].
#[verifier::ext_equal]
pub struct SubtreeView {
    pub tree: Text,
    pub content: TreeContentView,
}

impl DeepView for Subtree {
    type V = SubtreeView;

    open spec fn deep_view(&self) -> SubtreeView {
        SubtreeView { tree: self.tree.deep_view(), content: self.content.deep_view() }
    }
}

/// The subrepo's directory at a revision, as git names it.
pub open spec fn treeish_text(rev: Text, path: Text) -> Text {
    rev + ":"@ + path
}

/// [`has_committed_files`] as a dialogue.
pub open spec fn has_committed_files_step(
    rev: Text,
    subrepo: ResolvedSubrepoView,
    log: Seq<ReplyView>,
    at: int,
) -> Step<bool> {
    match text_at(log, at) {
        None => Step::Ask(
            RequestView::Git {
                args: seq![
                    "ls-tree"@,
                    "-r"@,
                    "--name-only"@,
                    "-z"@,
                    treeish_text(rev, subrepo.path),
                ],
                input: None,
            },
        ),
        Some(Ok(out)) => Step::Done(out.len() > 0, at + 1),
        Some(Err(_)) => Step::Done(false, at + 1),
    }
}

/// Does the subrepo path hold any committed file at this revision? Deliberately unfiltered:
/// "is there anything here at all" must be answerable before excludes or hooks get a say,
/// so a broken hook can never masquerade as an empty directory.
pub fn has_committed_files<'a>(
    talk: &mut Talk<'a>,
    rev: &str,
    subrepo: &ResolvedSubrepo,
) -> (turn: Turn<bool>)
    ensures
        final(talk).replies == old(talk).replies,
        step(turn, final(talk).at) == has_committed_files_step(
            rev@,
            subrepo.deep_view(),
            old(talk).log(),
            old(talk).at as int,
        ),
{
    let treeish = rev.to_string().concat(":").concat(subrepo.path.as_str());
    let out = match talk.text() {
        Some(out) => out,
        None => return Err(
            Request::Git {
                args: vec![
                    "ls-tree".to_string(),
                    "-r".to_string(),
                    "--name-only".to_string(),
                    "-z".to_string(),
                    treeish,
                ],
                input: None,
            },
        ),
    };
    Ok(
        match out {
            Ok(out) => !out.as_str().is_empty(),
            Err(_) => false,
        },
    )
}

/// The subrepo with its `scan` hook left out.
pub open spec fn without_scan(subrepo: ResolvedSubrepoView) -> ResolvedSubrepoView {
    ResolvedSubrepoView { scan: None, ..subrepo }
}

/// [`anchor_subtree`] as a dialogue.
pub open spec fn anchor_subtree_step(
    mono_commit: Text,
    subrepo: ResolvedSubrepoView,
    log: Seq<ReplyView>,
    at: int,
) -> Step<Result<Option<Text>, FilterErrorView>> {
    match name_subtree_step(mono_commit, without_scan(subrepo), log, at) {
        Step::Ask(request) => Step::Ask(request),
        Step::Done(Err(err), at) => Step::Done(Err(err), at),
        Step::Done(Ok(None), at) => Step::Done(Ok(None), at),
        Step::Done(Ok(Some(subtree)), at) => Step::Done(Ok(Some(subtree.tree)), at),
    }
}

/// [`filtered_subtree`] used as an *identity* rather than as a publication: what tree does this
/// monorepo commit stand for on the public side? The tree is only named; nothing is written.
///
/// The `scan` hook is deliberately dropped. It inspects a tree, it never shapes one, so whether
/// content passes a secret scan says nothing about which public tree the commit reproduces,
/// and a scan tightened after an export (a legacy secret, say) would otherwise veto every
/// answer, turning a comparison into a refusal. `transform` still runs, because it does shape
/// the tree. Callers that publish still go through [`name_subtree`], scan and all.
pub fn anchor_subtree<'a>(
    talk: &mut Talk<'a>,
    mono_commit: &str,
    subrepo: &ResolvedSubrepo,
) -> (turn: Turn<Result<Option<String>, FilterError>>)
    ensures
        final(talk).replies == old(talk).replies,
        step_result(turn, final(talk).at) == anchor_subtree_step(
            mono_commit@,
            subrepo.deep_view(),
            old(talk).log(),
            old(talk).at as int,
        ),
{
    let mut for_anchor = subrepo.clone();
    for_anchor.scan = None;
    assert(for_anchor.deep_view() == without_scan(subrepo.deep_view()));
    match name_subtree(talk, mono_commit, &for_anchor)? {
        Ok(Some(subtree)) => Ok(Ok(Some(subtree.tree))),
        Ok(None) => Ok(Ok(None)),
        Err(err) => Ok(Err(err)),
    }
}

/// The entries whose path is not excluded.
pub open spec fn kept_entries(entries: Seq<TreeEntryView>, excluded: Seq<Text>) -> Seq<
    TreeEntryView,
> {
    entries.filter(|entry: TreeEntryView| !excluded.contains(entry.path))
}

/// The paths of a listing.
pub open spec fn paths_of(entries: Seq<TreeEntryView>) -> Seq<Text> {
    entries.map_values(|entry: TreeEntryView| entry.path)
}

/// Naming the tree over `entries`, which `content` makes up.
pub open spec fn name_tree_step(
    entries: Seq<TreeEntryView>,
    content: TreeContentView,
    log: Seq<ReplyView>,
    at: int,
) -> Step<Result<Option<SubtreeView>, FilterErrorView>> {
    match text_at(log, at) {
        None => Step::Ask(RequestView::NameTree { entries }),
        Some(Ok(tree)) => Step::Done(Ok(Some(SubtreeView { tree, content })), at + 1),
        Some(Err(err)) => Step::Done(Err(FilterErrorView::Git(err)), at + 1),
    }
}

/// Running one tree hook, if there is a command for it.
pub open spec fn tree_hook_step(
    hook: Text,
    command: Option<Text>,
    dir: Text,
    subrepo: Text,
    mono_sha: Text,
    message_file: Text,
    log: Seq<ReplyView>,
    at: int,
) -> Step<Result<(), HookErrorView>> {
    match command {
        None => Step::Done(Ok(()), at),
        Some(command) => match hook_at(log, at) {
            None => Step::Ask(
                RequestView::TreeHook { hook, command, dir, subrepo, mono_sha, message_file },
            ),
            Some(result) => Step::Done(result, at + 1),
        },
    }
}

/// The part of [`name_subtree`] that works on files, with `tree` written out: scan,
/// transform, and the name of what is left.
pub open spec fn hooks_step(
    subrepo: ResolvedSubrepoView,
    kept: Seq<TreeEntryView>,
    mono_sha: Text,
    dir: Text,
    passthrough: Seq<TreeEntryView>,
    message_file: Text,
    log: Seq<ReplyView>,
    at: int,
) -> Step<Result<Option<SubtreeView>, FilterErrorView>> {
    match tree_hook_step(
        "scan"@,
        subrepo.scan,
        dir,
        subrepo.name,
        mono_sha,
        message_file,
        log,
        at,
    ) {
        Step::Ask(request) => Step::Ask(request),
        Step::Done(Err(err), at) => Step::Done(Err(FilterErrorView::Hook(err)), at),
        Step::Done(Ok(_), at) => if subrepo.transform is None {
            name_tree_step(kept, TreeContentView::Files { entries: kept }, log, at)
        } else {
            match tree_hook_step(
                "transform"@,
                subrepo.transform,
                dir,
                subrepo.name,
                mono_sha,
                message_file,
                log,
                at,
            ) {
                Step::Ask(request) => Step::Ask(request),
                Step::Done(Err(err), at) => Step::Done(Err(FilterErrorView::Hook(err)), at),
                Step::Done(Ok(_), at) => match rehashed_at(log, at) {
                    None => Step::Ask(RequestView::NameFiles { dir }),
                    Some(Err(detail)) => Step::Done(Err(FilterErrorView::Other(detail)), at + 1),
                    Some(Ok(named)) => name_tree_step(
                        passthrough + named,
                        TreeContentView::Directory { dir, passthrough },
                        log,
                        at + 1,
                    ),
                },
            }
        },
    }
}

/// The part of [`name_subtree`] that a hook makes necessary: read the commit, write its
/// files and its message out, and run the hooks.
pub open spec fn hooked_subtree_step(
    mono_commit: Text,
    subrepo: ResolvedSubrepoView,
    kept: Seq<TreeEntryView>,
    log: Seq<ReplyView>,
    at: int,
) -> Step<Result<Option<SubtreeView>, FilterErrorView>> {
    match commit_at(log, at) {
        None => Step::Ask(RequestView::ReadCommit { rev: mono_commit }),
        Some(Err(err)) => Step::Done(Err(FilterErrorView::Git(err)), at + 1),
        Some(Ok(meta)) => match materialized_at(log, at + 1) {
            None => Step::Ask(RequestView::Materialize { entries: kept }),
            Some(Err(detail)) => Step::Done(Err(FilterErrorView::Other(detail)), at + 2),
            Some(Ok(tree)) => match path_at(log, at + 2) {
                None => Step::Ask(RequestView::MessageFile { message: meta.message }),
                Some(Err(detail)) => Step::Done(Err(FilterErrorView::Other(detail)), at + 3),
                Some(Ok(message_file)) => hooks_step(
                    subrepo,
                    kept,
                    meta.sha,
                    tree.dir,
                    tree.passthrough,
                    message_file,
                    log,
                    at + 3,
                ),
            },
        },
    }
}

/// [`name_subtree`] as a dialogue.
pub open spec fn name_subtree_step(
    mono_commit: Text,
    subrepo: ResolvedSubrepoView,
    log: Seq<ReplyView>,
    at: int,
) -> Step<Result<Option<SubtreeView>, FilterErrorView>> {
    let has_hooks = subrepo.transform is Some || subrepo.scan is Some;
    if subrepo.exclude.len() == 0 && !has_hooks {
        match text_at(log, at) {
            None => Step::Ask(
                RequestView::Git {
                    args: seq![
                        "ls-tree"@,
                        "-d"@,
                        "--format=%(objectname)"@,
                        mono_commit,
                        "--"@,
                        subrepo.path,
                    ],
                    input: None,
                },
            ),
            Some(Ok(out)) => Step::Done(
                Ok(
                    if out.len() == 0 {
                        None
                    } else {
                        Some(SubtreeView { tree: out, content: TreeContentView::Committed })
                    },
                ),
                at + 1,
            ),
            Some(Err(_)) => Step::Done(Ok(None), at + 1),
        }
    } else {
        match entries_at(log, at) {
            None => Step::Ask(
                RequestView::LsTree { treeish: treeish_text(mono_commit, subrepo.path) },
            ),
            Some(Err(_)) => Step::Done(Ok(None), at + 1),
            Some(Ok(entries)) => match excluded_at(log, at + 1) {
                None => Step::Ask(
                    RequestView::Exclude { patterns: subrepo.exclude, paths: paths_of(entries) },
                ),
                Some(Err(detail)) => Step::Done(Err(FilterErrorView::Other(detail)), at + 2),
                Some(Ok(excluded)) => if has_hooks {
                    hooked_subtree_step(
                        mono_commit,
                        subrepo,
                        kept_entries(entries, excluded),
                        log,
                        at + 2,
                    )
                } else {
                    name_tree_step(
                        kept_entries(entries, excluded),
                        TreeContentView::Files { entries: kept_entries(entries, excluded) },
                        log,
                        at + 2,
                    )
                },
            },
        }
    }
}

/// Writing the tree objects for `entries`.
pub open spec fn write_tree_step(
    entries: Seq<TreeEntryView>,
    log: Seq<ReplyView>,
    at: int,
) -> Step<Result<(), FilterErrorView>> {
    match text_at(log, at) {
        None => Step::Ask(RequestView::BuildTree { entries }),
        Some(Ok(_)) => Step::Done(Ok(()), at + 1),
        Some(Err(err)) => Step::Done(Err(FilterErrorView::Git(err)), at + 1),
    }
}

/// [`write_subtree`] as a dialogue.
pub open spec fn write_subtree_step(
    content: TreeContentView,
    log: Seq<ReplyView>,
    at: int,
) -> Step<Result<(), FilterErrorView>> {
    match content {
        TreeContentView::Committed => Step::Done(Ok(()), at),
        TreeContentView::Files { entries } => write_tree_step(entries, log, at),
        TreeContentView::Directory { dir, passthrough } => match rehashed_at(log, at) {
            None => Step::Ask(RequestView::Rehash { dir }),
            Some(Err(detail)) => Step::Done(Err(FilterErrorView::Other(detail)), at + 1),
            Some(Ok(rehashed)) => write_tree_step(passthrough + rehashed, log, at + 1),
        },
    }
}

/// [`filtered_subtree`] as a dialogue.
pub open spec fn filtered_subtree_step(
    mono_commit: Text,
    subrepo: ResolvedSubrepoView,
    log: Seq<ReplyView>,
    at: int,
) -> Step<Result<Option<Text>, FilterErrorView>> {
    match name_subtree_step(mono_commit, subrepo, log, at) {
        Step::Ask(request) => Step::Ask(request),
        Step::Done(Err(err), at) => Step::Done(Err(err), at),
        Step::Done(Ok(None), at) => Step::Done(Ok(None), at),
        Step::Done(Ok(Some(subtree)), at) => match write_subtree_step(subtree.content, log, at) {
            Step::Ask(request) => Step::Ask(request),
            Step::Done(Err(err), at) => Step::Done(Err(err), at),
            Step::Done(Ok(_), at) => Step::Done(Ok(Some(subtree.tree)), at),
        },
    }
}

fn clone_paths(entries: &Vec<TreeEntry>) -> (out: Vec<String>)
    ensures
        out.deep_view() == paths_of(entries.deep_view()),
{
    let mut out: Vec<String> = Vec::new();
    let mut i: usize = 0;
    while i < entries.len()
        invariant
            i <= entries.len(),
            out.deep_view() == paths_of(entries.deep_view().take(i as int)),
        decreases entries.len() - i,
    {
        push(&mut out, entries[i].path.clone());
        i = i + 1;
    }
    assert(entries.deep_view().take(i as int) =~= entries.deep_view());
    out
}

fn clone_kept(entries: &Vec<TreeEntry>, excluded: &Vec<String>) -> (out: Vec<TreeEntry>)
    ensures
        out.deep_view() == kept_entries(entries.deep_view(), excluded.deep_view()),
{
    let ghost keep = |entry: TreeEntryView| !excluded.deep_view().contains(entry.path);
    let mut out: Vec<TreeEntry> = Vec::new();
    let mut i: usize = 0;
    assert(entries.deep_view().take(0).filter(keep) =~= Seq::empty()) by {
        reveal(Seq::filter);
    }
    while i < entries.len()
        invariant
            i <= entries.len(),
            keep == (|entry: TreeEntryView| !excluded.deep_view().contains(entry.path)),
            out.deep_view() == entries.deep_view().take(i as int).filter(keep),
        decreases entries.len() - i,
    {
        proof {
            lemma_filter_next(entries.deep_view(), keep, i as int);
        }
        if !contains_text(excluded, &entries[i].path) {
            push(&mut out, entries[i].clone());
        }
        i = i + 1;
    }
    assert(entries.deep_view().take(i as int) =~= entries.deep_view());
    out
}

fn name_tree<'a>(
    talk: &mut Talk<'a>,
    entries: Vec<TreeEntry>,
    content: TreeContent,
) -> (turn: Turn<Result<Option<Subtree>, FilterError>>)
    ensures
        final(talk).replies == old(talk).replies,
        step_result(turn, final(talk).at) == name_tree_step(
            entries.deep_view(),
            content.deep_view(),
            old(talk).log(),
            old(talk).at as int,
        ),
{
    match talk.text() {
        None => Err(Request::NameTree { entries }),
        Some(Ok(tree)) => Ok(Ok(Some(Subtree { tree: tree.clone(), content }))),
        Some(Err(err)) => Ok(Err(FilterError::Git(err.clone()))),
    }
}

fn write_tree<'a>(talk: &mut Talk<'a>, entries: Vec<TreeEntry>) -> (turn: Turn<
    Result<(), FilterError>,
>)
    ensures
        final(talk).replies == old(talk).replies,
        step_result(turn, final(talk).at) == write_tree_step(
            entries.deep_view(),
            old(talk).log(),
            old(talk).at as int,
        ),
{
    match talk.text() {
        None => Err(Request::BuildTree { entries }),
        Some(Ok(_)) => Ok(Ok(())),
        Some(Err(err)) => Ok(Err(FilterError::Git(err.clone()))),
    }
}

/// Write the objects of a subtree that was named. Git names an object by what it holds, so what
/// is written has the name that it was given.
pub fn write_subtree<'a>(talk: &mut Talk<'a>, content: &TreeContent) -> (turn: Turn<
    Result<(), FilterError>,
>)
    ensures
        final(talk).replies == old(talk).replies,
        step_result(turn, final(talk).at) == write_subtree_step(
            content.deep_view(),
            old(talk).log(),
            old(talk).at as int,
        ),
{
    match content {
        TreeContent::Committed => Ok(Ok(())),
        TreeContent::Files { entries } => write_tree(talk, clone_entries(entries)),
        TreeContent::Directory { dir, passthrough } => {
            let rehashed = match talk.rehashed() {
                None => return Err(Request::Rehash { dir: dir.clone() }),
                Some(Err(detail)) => return Ok(Err(FilterError::Other(detail.clone()))),
                Some(Ok(rehashed)) => rehashed,
            };
            let mut rebuilt = clone_entries(passthrough);
            extend(&mut rebuilt, clone_entries(rehashed));
            write_tree(talk, rebuilt)
        },
    }
}

fn run_tree_hook<'a>(
    talk: &mut Talk<'a>,
    hook: &'static str,
    command: &Option<String>,
    dir: &String,
    subrepo: &String,
    mono_sha: &String,
    message_file: &String,
) -> (turn: Turn<Result<(), HookError>>)
    ensures
        final(talk).replies == old(talk).replies,
        step_result(turn, final(talk).at) == tree_hook_step(
            hook@,
            command.deep_view(),
            dir@,
            subrepo@,
            mono_sha@,
            message_file@,
            old(talk).log(),
            old(talk).at as int,
        ),
{
    let command = match command {
        Some(command) => command,
        None => return Ok(Ok(())),
    };
    match talk.hook() {
        None => Err(
            Request::TreeHook {
                hook,
                command: command.clone(),
                dir: dir.clone(),
                subrepo: subrepo.clone(),
                mono_sha: mono_sha.clone(),
                message_file: message_file.clone(),
            },
        ),
        Some(Ok(_)) => Ok(Ok(())),
        Some(Err(err)) => Ok(Err(err.clone())),
    }
}

/// The tree of `subrepo.path` at `mono_commit` after excludes and transform hooks, by name, or
/// `None` when the path does not exist at that commit. No object is written for it.
///
/// `rewrite-message` is deliberately not run here; it shapes the commit, not the tree, and
/// belongs to the exporter.
pub fn name_subtree<'a>(
    talk: &mut Talk<'a>,
    mono_commit: &str,
    subrepo: &ResolvedSubrepo,
) -> (turn: Turn<Result<Option<Subtree>, FilterError>>)
    ensures
        final(talk).replies == old(talk).replies,
        step_result(turn, final(talk).at) == name_subtree_step(
            mono_commit@,
            subrepo.deep_view(),
            old(talk).log(),
            old(talk).at as int,
        ),
{
    let treeish = mono_commit.to_string().concat(":").concat(subrepo.path.as_str());
    let has_hooks = subrepo.transform.is_some() || subrepo.scan.is_some();

    if subrepo.exclude.len() == 0 && !has_hooks {
        // `-d` keeps this a tree lookup: a missing path (or a path that is a file) yields
        // empty output rather than something we would splice into a commit as a tree.
        return match talk.text() {
            None => Err(
                Request::Git {
                    args: vec![
                        "ls-tree".to_string(),
                        "-d".to_string(),
                        "--format=%(objectname)".to_string(),
                        mono_commit.to_string(),
                        "--".to_string(),
                        subrepo.path.clone(),
                    ],
                    input: None,
                },
            ),
            Some(Ok(out)) => Ok(
                Ok(
                    if out.as_str().is_empty() {
                        None
                    } else {
                        Some(Subtree { tree: out.clone(), content: TreeContent::Committed })
                    },
                ),
            ),
            Some(Err(_)) => Ok(Ok(None)),
        };
    }
    let entries = match talk.entries() {
        None => return Err(Request::LsTree { treeish }),
        Some(Err(_)) => return Ok(Ok(None)),
        Some(Ok(entries)) => entries,
    };
    let excluded = match talk.excluded() {
        None => return Err(
            Request::Exclude {
                patterns: clone_texts(&subrepo.exclude),
                paths: clone_paths(entries),
            },
        ),
        Some(Err(detail)) => return Ok(Err(FilterError::Other(detail.clone()))),
        Some(Ok(excluded)) => excluded,
    };
    let kept = clone_kept(entries, excluded);
    if !has_hooks {
        let content = TreeContent::Files { entries: clone_entries(&kept) };
        return name_tree(talk, kept, content);
    }
    let meta = match talk.commit() {
        None => return Err(Request::ReadCommit { rev: mono_commit.to_string() }),
        Some(Err(err)) => return Ok(Err(FilterError::Git(err.clone()))),
        Some(Ok(meta)) => meta,
    };

    // The hooks work on real files. The message file lives *outside* the materialized tree,
    // so a transform that sweeps up its whole working directory cannot publish it.
    let tree = match talk.materialized() {
        None => return Err(Request::Materialize { entries: kept }),
        Some(Err(detail)) => return Ok(Err(FilterError::Other(detail.clone()))),
        Some(Ok(tree)) => tree,
    };
    let message_file = match talk.path() {
        None => return Err(Request::MessageFile { message: meta.message.clone() }),
        Some(Err(detail)) => return Ok(Err(FilterError::Other(detail.clone()))),
        Some(Ok(path)) => path,
    };

    // scan first: a rejection must stop the export before a transform gets to rewrite
    // anything, and before a single object is created.
    match run_tree_hook(
        talk,
        "scan",
        &subrepo.scan,
        &tree.dir,
        &subrepo.name,
        &meta.sha,
        message_file,
    )? {
        Ok(_) => {},
        Err(err) => return Ok(Err(FilterError::Hook(err))),
    }
    if subrepo.transform.is_none() {
        // scan-only: the tree is exactly what the excludes left behind.
        let content = TreeContent::Files { entries: clone_entries(&kept) };
        return name_tree(talk, kept, content);
    }
    match run_tree_hook(
        talk,
        "transform",
        &subrepo.transform,
        &tree.dir,
        &subrepo.name,
        &meta.sha,
        message_file,
    )? {
        Ok(_) => {},
        Err(err) => return Ok(Err(FilterError::Hook(err))),
    }
    // Gitlinks were never on disk, so they are not among the files; they come back untouched.
    let named = match talk.rehashed() {
        None => return Err(Request::NameFiles { dir: tree.dir.clone() }),
        Some(Err(detail)) => return Ok(Err(FilterError::Other(detail.clone()))),
        Some(Ok(named)) => named,
    };
    let mut rebuilt = clone_entries(&tree.passthrough);
    extend(&mut rebuilt, clone_entries(named));
    let content = TreeContent::Directory {
        dir: tree.dir.clone(),
        passthrough: clone_entries(&tree.passthrough),
    };
    name_tree(talk, rebuilt, content)
}

/// Tree sha of `subrepo.path` at `mono_commit` after excludes and transform hooks, with its
/// objects written, or `None` when the path does not exist at that commit.
pub fn filtered_subtree<'a>(
    talk: &mut Talk<'a>,
    mono_commit: &str,
    subrepo: &ResolvedSubrepo,
) -> (turn: Turn<Result<Option<String>, FilterError>>)
    ensures
        final(talk).replies == old(talk).replies,
        step_result(turn, final(talk).at) == filtered_subtree_step(
            mono_commit@,
            subrepo.deep_view(),
            old(talk).log(),
            old(talk).at as int,
        ),
{
    let subtree = match name_subtree(talk, mono_commit, subrepo)? {
        Ok(Some(subtree)) => subtree,
        Ok(None) => return Ok(Ok(None)),
        Err(err) => return Ok(Err(err)),
    };
    match write_subtree(talk, &subtree.content)? {
        Ok(_) => Ok(Ok(Some(subtree.tree))),
        Err(err) => Ok(Err(err)),
    }
}

} // verus!
