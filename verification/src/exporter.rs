//! Replaying monorepo commits onto a public branch.
//!
//! A run resolves *every* commit (filters, scan hooks, rewritten messages) before it writes to
//! a remote, and then writes exactly once: a hook that rejects must never leave a partially
//! published branch behind.

use vstd::prelude::*;
use vstd::string::*;
use crate::config::{ResolvedSubrepo, ResolvedSubrepoView};
use crate::filter::{
    anchor_subtree, anchor_subtree_step, name_subtree, name_subtree_step, write_subtree,
    write_subtree_step, FilterError, SubtreeView, TreeContent, TreeContentView, FilterErrorView,
};
use crate::git::{
    CommitMeta, CommitMetaView, CommitTreeInput, CommitTreeInputView, GitError, GitErrorView,
    EMPTY_TREE,
};
use crate::hooks::{HookError, HookErrorView};
use crate::list::{lemma_filter_next, lemma_take_next, push, result_view};
use crate::sync_view::{
    ask_commit_tree, commit_tree_request, fork_ref_text, fork_tracking_ref, load_fork_state,
    load_fork_state_step, remote_ref_text, remote_tracking_ref, unpublished_view, SyncView,
    SyncViewOptions, SyncViewValue,
};
use crate::talk::{
    acted_at, commit_at, flag_at, rewritten_at, shas_at, step, step_result, text_at, ReplyView,
    Request, RequestView, Step, Talk, Turn,
};
use crate::text::{decimal, decimal_text, opt_text, Text};
use crate::trailers::{
    append_trailer, get_trailer, trailer_text, with_trailer, ORIGIN_TRAILER, SOURCE_TRAILER,
};

verus! {

/// A monorepo commit that may become a public commit.
#[derive(Debug)]
pub struct ExportCandidate {
    pub mono_sha: String,
}

/// The value of a [`ExportCandidate`].
#[verifier::ext_equal]
pub struct ExportCandidateView {
    pub mono_sha: Text,
}

impl DeepView for ExportCandidate {
    type V = ExportCandidateView;

    open spec fn deep_view(&self) -> ExportCandidateView {
        ExportCandidateView {
            mono_sha: self.mono_sha.deep_view(),
        }
    }
}

impl Clone for ExportCandidate {
    fn clone(&self) -> (out: Self)
        ensures
            out.deep_view() == self.deep_view(),
    {
        ExportCandidate {
            mono_sha: self.mono_sha.clone(),
        }
    }
}

/// A monorepo commit that really would become a public commit, fully resolved but uncommitted.
#[derive(Debug)]
pub struct PlannedExport {
    pub mono_sha: String,
    /// Filtered subtree sha (excludes and hooks already applied).
    pub tree: String,
    /// What that tree is made of. A plan only names it.
    pub content: TreeContent,
    /// Final public commit message, trailer included.
    pub message: String,
    pub meta: CommitMeta,
}

/// The value of a [`PlannedExport`].
#[verifier::ext_equal]
pub struct PlannedExportView {
    pub mono_sha: Text,
    pub tree: Text,
    pub content: TreeContentView,
    pub message: Text,
    pub meta: CommitMetaView,
}

impl DeepView for PlannedExport {
    type V = PlannedExportView;

    open spec fn deep_view(&self) -> PlannedExportView {
        PlannedExportView {
            mono_sha: self.mono_sha.deep_view(),
            tree: self.tree.deep_view(),
            content: self.content.deep_view(),
            message: self.message.deep_view(),
            meta: self.meta.deep_view(),
        }
    }
}

impl Clone for PlannedExport {
    fn clone(&self) -> (out: Self)
        ensures
            out.deep_view() == self.deep_view(),
    {
        PlannedExport {
            mono_sha: self.mono_sha.clone(),
            tree: self.tree.clone(),
            content: self.content.clone(),
            message: self.message.clone(),
            meta: self.meta.clone(),
        }
    }
}

/// A monorepo commit and the public commit made from it.
#[derive(Debug)]
pub struct ExportedCommit {
    pub mono_sha: String,
    pub pub_sha: String,
}

/// The value of a [`ExportedCommit`].
#[verifier::ext_equal]
pub struct ExportedCommitView {
    pub mono_sha: Text,
    pub pub_sha: Text,
}

impl DeepView for ExportedCommit {
    type V = ExportedCommitView;

    open spec fn deep_view(&self) -> ExportedCommitView {
        ExportedCommitView {
            mono_sha: self.mono_sha.deep_view(),
            pub_sha: self.pub_sha.deep_view(),
        }
    }
}

impl Clone for ExportedCommit {
    fn clone(&self) -> (out: Self)
        ensures
            out.deep_view() == self.deep_view(),
    {
        ExportedCommit {
            mono_sha: self.mono_sha.clone(),
            pub_sha: self.pub_sha.clone(),
        }
    }
}

/// What an export did.
#[derive(Debug)]
pub struct ExportResult {
    pub exported: Vec<ExportedCommit>,
    /// Public head after the run (unchanged when nothing was exported).
    pub new_head: Option<String>,
    /// Did this run write to a remote? False in triangular mode when the fork branch already
    /// carries exactly these commits: the export is built, byte-identical, and simply waiting
    /// for upstream to merge it.
    pub pushed: bool,
}

/// The value of a [`ExportResult`].
#[verifier::ext_equal]
pub struct ExportResultView {
    pub exported: Seq<ExportedCommitView>,
    pub new_head: Option<Text>,
    pub pushed: bool,
}

impl DeepView for ExportResult {
    type V = ExportResultView;

    open spec fn deep_view(&self) -> ExportResultView {
        ExportResultView {
            exported: self.exported.deep_view(),
            new_head: self.new_head.deep_view(),
            pushed: self.pushed,
        }
    }
}

/// Clone each of the commits.
fn clone_exported(items: &Vec<ExportedCommit>) -> (out: Vec<ExportedCommit>)
    ensures
        out.deep_view() == items.deep_view(),
{
    let mut out: Vec<ExportedCommit> = Vec::new();
    let mut i: usize = 0;
    while i < items.len()
        invariant
            i <= items.len(),
            out.deep_view() == items.deep_view().take(i as int),
        decreases items.len() - i,
    {
        proof {
            lemma_take_next(items.deep_view(), i as int);
        }
        push(&mut out, items[i].clone());
        i = i + 1;
    }
    assert(items.deep_view().take(i as int) =~= items.deep_view());
    out
}

impl Clone for ExportResult {
    fn clone(&self) -> (out: Self)
        ensures
            out.deep_view() == self.deep_view(),
    {
        ExportResult {
            exported: clone_exported(&self.exported),
            new_head: self.new_head.clone(),
            pushed: self.pushed,
        }
    }
}

/// Why an export did not go through.
#[derive(Debug)]
pub enum ExportError {
    Hook(HookError),
    Git(GitError),
    Filter(FilterError),
    Other(String),
}

/// The value of an [`ExportError`].
#[verifier::ext_equal]
pub enum ExportErrorView {
    Hook(HookErrorView),
    Git(GitErrorView),
    Filter(FilterErrorView),
    Other(Text),
}

impl DeepView for ExportError {
    type V = ExportErrorView;

    open spec fn deep_view(&self) -> ExportErrorView {
        match self {
            ExportError::Hook(err) => ExportErrorView::Hook(err.deep_view()),
            ExportError::Git(err) => ExportErrorView::Git(err.deep_view()),
            ExportError::Filter(err) => ExportErrorView::Filter(err.deep_view()),
            ExportError::Other(detail) => ExportErrorView::Other(detail.deep_view()),
        }
    }
}

impl ExportErrorView {
    /// The error in words.
    pub open spec fn text(self) -> Text {
        match self {
            ExportErrorView::Hook(err) => err.text(),
            ExportErrorView::Git(err) => err.text(),
            ExportErrorView::Filter(err) => err.text(),
            ExportErrorView::Other(detail) => detail,
        }
    }
}

impl ExportError {
    /// The error in words.
    pub fn to_string(&self) -> (out: String)
        ensures
            out@ == self.deep_view().text(),
    {
        match self {
            ExportError::Hook(err) => err.to_string(),
            ExportError::Git(err) => err.to_string(),
            ExportError::Filter(err) => err.to_string(),
            ExportError::Other(detail) => detail.clone(),
        }
    }
}

impl From<HookError> for ExportError {
    fn from(err: HookError) -> (out: Self) {
        ExportError::Hook(err)
    }
}

impl vstd::std_specs::convert::FromSpecImpl<HookError> for ExportError {
    open spec fn obeys_from_spec() -> bool {
        true
    }

    open spec fn from_spec(err: HookError) -> Self {
        ExportError::Hook(err)
    }
}

impl From<GitError> for ExportError {
    fn from(err: GitError) -> (out: Self) {
        ExportError::Git(err)
    }
}

impl vstd::std_specs::convert::FromSpecImpl<GitError> for ExportError {
    open spec fn obeys_from_spec() -> bool {
        true
    }

    open spec fn from_spec(err: GitError) -> Self {
        ExportError::Git(err)
    }
}

impl From<FilterError> for ExportError {
    fn from(err: FilterError) -> (out: Self) {
        ExportError::Filter(err)
    }
}

impl vstd::std_specs::convert::FromSpecImpl<FilterError> for ExportError {
    open spec fn obeys_from_spec() -> bool {
        true
    }

    open spec fn from_spec(err: FilterError) -> Self {
        ExportError::Filter(err)
    }
}

/// The commits that an export looks at.
pub open spec fn range_text(export_base: Option<Text>) -> Text {
    match export_base {
        Some(base) => base + "..HEAD"@,
        None => "HEAD"@,
    }
}

/// A walk over the commits that touch a path, oldest first.
pub open spec fn touching_request(range: Text, path: Text) -> RequestView {
    RequestView::RevList { args: seq!["--reverse"@, "--topo-order"@, range, "--"@, path] }
}

/// The request for the commits of `range` that touch `path`, oldest first.
pub fn ask_touching(range: String, path: &String) -> (out: Request)
    ensures
        out.deep_view() == touching_request(range@, path@),
{
    Request::RevList {
        args: vec![
            "--reverse".to_string(),
            "--topo-order".to_string(),
            range,
            "--".to_string(),
            path.clone(),
        ],
    }
}

/// Commits as candidates.
pub open spec fn candidates_of(shas: Seq<Text>) -> Seq<ExportCandidateView> {
    shas.map_values(|mono_sha: Text| ExportCandidateView { mono_sha })
}

/// The commits that the mapping does not name.
pub open spec fn unexported(shas: Seq<Text>, exported: Map<Text, Text>) -> Seq<Text> {
    shas.filter(|sha: Text| !exported.contains_key(sha))
}

/// [`plan_export`] as a dialogue.
pub open spec fn plan_export_step(
    subrepo: ResolvedSubrepoView,
    view: SyncViewValue,
    log: Seq<ReplyView>,
    at: int,
) -> Step<Result<Seq<ExportCandidateView>, ExportErrorView>> {
    match shas_at(log, at) {
        None => Step::Ask(touching_request(range_text(view.export_base), subrepo.path)),
        Some(Err(err)) => Step::Done(Err(ExportErrorView::Git(err)), at + 1),
        Some(Ok(shas)) => Step::Done(
            Ok(candidates_of(unexported(shas, view.exported_mono_to_pub))),
            at + 1,
        ),
    }
}

/// Monorepo commits eligible for export: everything touching the subrepo path since the
/// derived base, minus commits already exported.
///
/// Imported commits (`Monosplice-Origin`) are deliberately NOT filtered here. A pure import
/// reproduces the public tip's tree, so the tree-equality check of [`run_export`] drops it; a
/// *conflicted* import carries the user's merge resolution and must be exported, or the public
/// tree would stop being the filtered tree of the monorepo's HEAD.
pub fn plan_export<'a>(
    talk: &mut Talk<'a>,
    subrepo: &ResolvedSubrepo,
    view: &SyncView,
) -> (turn: Turn<Result<Vec<ExportCandidate>, ExportError>>)
    ensures
        final(talk).replies == old(talk).replies,
        step_result(turn, final(talk).at) == plan_export_step(
            subrepo.deep_view(),
            view.deep_view(),
            old(talk).log(),
            old(talk).at as int,
        ),
{
    let range = match &view.export_base {
        Some(base) => base.clone().concat("..HEAD"),
        None => "HEAD".to_string(),
    };
    let shas = match talk.shas() {
        None => return Err(ask_touching(range, &subrepo.path)),
        Some(Err(err)) => return Ok(Err(ExportError::Git(err.clone()))),
        Some(Ok(shas)) => shas,
    };
    let ghost all = shas.deep_view();
    let ghost keep = |sha: Text| !view.deep_view().exported_mono_to_pub.contains_key(sha);
    let mut out: Vec<ExportCandidate> = Vec::new();
    assert(candidates_of(all.take(0).filter(keep)) =~= Seq::empty()) by {
        reveal(Seq::filter);
    }
    let mut i: usize = 0;
    while i < shas.len()
        invariant
            i <= shas.len(),
            all == shas.deep_view(),
            keep == (|sha: Text| !view.deep_view().exported_mono_to_pub.contains_key(sha)),
            out.deep_view() == candidates_of(all.take(i as int).filter(keep)),
        decreases shas.len() - i,
    {
        proof {
            lemma_filter_next(all, keep, i as int);
            assert(all[i as int] == shas[i as int]@);
        }
        if !view.exported_mono_to_pub.contains_key(shas[i].as_str()) {
            push(&mut out, ExportCandidate { mono_sha: shas[i].clone() });
            assert(out.deep_view() =~= candidates_of(all.take(i + 1).filter(keep)));
        }
        i = i + 1;
    }
    assert(all.take(i as int) =~= all);
    Ok(Ok(out))
}

/// Asking whether one commit is an ancestor of another.
pub open spec fn is_ancestor_request(ancestor: Text, descendant: Text) -> RequestView {
    RequestView::GitOk { args: seq!["merge-base"@, "--is-ancestor"@, ancestor, descendant] }
}

/// The request that tells whether one commit is an ancestor of another.
pub fn ask_is_ancestor(ancestor: &str, descendant: &str) -> (out: Request)
    ensures
        out.deep_view() == is_ancestor_request(ancestor@, descendant@),
{
    Request::GitOk {
        args: vec![
            "merge-base".to_string(),
            "--is-ancestor".to_string(),
            ancestor.to_string(),
            descendant.to_string(),
        ],
    }
}

/// [`already_published`] as a dialogue.
pub open spec fn already_published_step(
    message: Text,
    tree: Text,
    pub_head: Text,
    log: Seq<ReplyView>,
    at: int,
) -> Step<bool> {
    match trailer_text(message, ORIGIN_TRAILER@) {
        None => Step::Done(false, at),
        Some(origin) => if origin.len() == 0 {
            Step::Done(false, at)
        } else {
            match flag_at(log, at) {
                None => Step::Ask(is_ancestor_request(origin, pub_head)),
                Some(false) => Step::Done(false, at + 1),
                Some(true) => match text_at(log, at + 1) {
                    None => Step::Ask(commit_tree_request(origin)),
                    Some(Ok(origin_tree)) => Step::Done(origin_tree == tree, at + 2),
                    Some(Err(_)) => Step::Done(false, at + 2),
                },
            }
        },
    }
}

/// Is this commit a *pure* import, one whose publishable subtree is byte-identical to the
/// public commit it was replayed from, which the public branch therefore already contains?
///
/// Still not a trailer test: the trailer only says where to look, tree equality decides. A
/// conflicted import carries the user's resolution, differs from its origin, and must be
/// exported. Comparing against the origin rather than the current pub tip matters once the
/// tip has moved on: otherwise a long-settled import becomes a candidate again and republishes
/// an old state on top of newer public work.
pub fn already_published<'a>(
    talk: &mut Talk<'a>,
    message: &str,
    tree: &String,
    pub_head: &str,
) -> (turn: Turn<bool>)
    ensures
        final(talk).replies == old(talk).replies,
        step(turn, final(talk).at) == already_published_step(
            message@,
            tree@,
            pub_head@,
            old(talk).log(),
            old(talk).at as int,
        ),
{
    let origin = match get_trailer(message, ORIGIN_TRAILER) {
        Some(origin) => origin,
        None => return Ok(false),
    };
    if origin.as_str().is_empty() {
        return Ok(false);
    }
    match talk.flag() {
        None => return Err(ask_is_ancestor(origin.as_str(), pub_head)),
        Some(false) => return Ok(false),
        Some(true) => {},
    }
    match talk.text() {
        None => Err(ask_commit_tree(origin.as_str())),
        Some(Ok(origin_tree)) => Ok(*origin_tree == *tree),
        Some(Err(_)) => Ok(false),
    }
}

/// The tree that the public branch has before anything is exported.
pub open spec fn tip_tree_step(
    pub_head: Option<Text>,
    log: Seq<ReplyView>,
    at: int,
) -> Step<Result<Text, GitErrorView>> {
    match pub_head {
        None => Step::Done(Ok(EMPTY_TREE@), at),
        Some(head) => match text_at(log, at) {
            None => Step::Ask(commit_tree_request(head)),
            Some(tree) => Step::Done(tree, at + 1),
        },
    }
}

/// The message of a commit, as the `rewrite-message` hook leaves it.
pub open spec fn message_step(
    subrepo: ResolvedSubrepoView,
    meta: CommitMetaView,
    log: Seq<ReplyView>,
    at: int,
) -> Step<Result<Text, HookErrorView>> {
    match subrepo.rewrite_message {
        None => Step::Done(Ok(meta.message), at),
        Some(command) => match rewritten_at(log, at) {
            None => Step::Ask(
                RequestView::RewriteMessage {
                    command,
                    subrepo: subrepo.name,
                    mono_sha: meta.sha,
                    message: meta.message,
                },
            ),
            Some(message) => Step::Done(message, at + 1),
        },
    }
}

/// Is a commit with this message and tree one that the public branch already contains?
pub open spec fn published_import_step(
    pub_head: Option<Text>,
    message: Text,
    tree: Text,
    log: Seq<ReplyView>,
    at: int,
) -> Step<bool> {
    match pub_head {
        None => Step::Done(false, at),
        Some(pub_head) => already_published_step(message, tree, pub_head, log, at),
    }
}

/// The public commit that a monorepo commit becomes.
pub open spec fn planned_export(
    meta: CommitMetaView,
    subtree: SubtreeView,
    message: Text,
) -> PlannedExportView {
    PlannedExportView {
        mono_sha: meta.sha,
        tree: subtree.tree,
        content: subtree.content,
        message: with_trailer(message, SOURCE_TRAILER@, meta.sha),
        meta,
    }
}

/// What one candidate publishes on top of `tip_tree`; `None` when it publishes nothing new.
pub open spec fn plan_one_step(
    subrepo: ResolvedSubrepoView,
    pub_head: Option<Text>,
    mono_sha: Text,
    tip_tree: Text,
    log: Seq<ReplyView>,
    at: int,
) -> Step<Result<Option<PlannedExportView>, ExportErrorView>> {
    match name_subtree_step(mono_sha, subrepo, log, at) {
        Step::Ask(request) => Step::Ask(request),
        Step::Done(Err(err), at) => Step::Done(Err(ExportErrorView::Filter(err)), at),
        Step::Done(Ok(None), at) => Step::Done(Ok(None), at),
        Step::Done(Ok(Some(subtree)), at) => if subtree.tree == tip_tree {
            Step::Done(Ok(None), at)
        } else {
            match commit_at(log, at) {
                None => Step::Ask(RequestView::ReadCommit { rev: mono_sha }),
                Some(Err(err)) => Step::Done(Err(ExportErrorView::Git(err)), at + 1),
                Some(Ok(meta)) => match published_import_step(
                    pub_head,
                    meta.message,
                    subtree.tree,
                    log,
                    at + 1,
                ) {
                    Step::Ask(request) => Step::Ask(request),
                    Step::Done(true, at) => Step::Done(Ok(None), at),
                    Step::Done(false, at) => match message_step(subrepo, meta, log, at) {
                        Step::Ask(request) => Step::Ask(request),
                        Step::Done(Err(err), at) => Step::Done(Err(ExportErrorView::Hook(err)), at),
                        Step::Done(Ok(message), at) => Step::Done(
                            Ok(Some(planned_export(meta, subtree, message))),
                            at,
                        ),
                    },
                },
            }
        },
    }
}

/// The candidates from `i` on, on top of what is planned already.
pub open spec fn plan_rest_step(
    subrepo: ResolvedSubrepoView,
    pub_head: Option<Text>,
    candidates: Seq<ExportCandidateView>,
    i: int,
    tip_tree: Text,
    planned: Seq<PlannedExportView>,
    log: Seq<ReplyView>,
    at: int,
) -> Step<Result<Seq<PlannedExportView>, ExportErrorView>>
    decreases candidates.len() - i,
{
    if i >= candidates.len() {
        Step::Done(Ok(planned), at)
    } else {
        match plan_one_step(subrepo, pub_head, candidates[i].mono_sha, tip_tree, log, at) {
            Step::Ask(request) => Step::Ask(request),
            Step::Done(Err(err), at) => Step::Done(Err(err), at),
            Step::Done(Ok(None), at) => plan_rest_step(
                subrepo,
                pub_head,
                candidates,
                i + 1,
                tip_tree,
                planned,
                log,
                at,
            ),
            Step::Done(Ok(Some(plan)), at) => plan_rest_step(
                subrepo,
                pub_head,
                candidates,
                i + 1,
                plan.tree,
                planned.push(plan),
                log,
                at,
            ),
        }
    }
}

/// [`compute_exports`] as a dialogue.
pub open spec fn compute_exports_step(
    subrepo: ResolvedSubrepoView,
    pub_head: Option<Text>,
    candidates: Seq<ExportCandidateView>,
    log: Seq<ReplyView>,
    at: int,
) -> Step<Result<Seq<PlannedExportView>, ExportErrorView>> {
    match tip_tree_step(pub_head, log, at) {
        Step::Ask(request) => Step::Ask(request),
        Step::Done(Err(err), at) => Step::Done(Err(ExportErrorView::Git(err)), at),
        Step::Done(Ok(tip_tree), at) => plan_rest_step(
            subrepo,
            pub_head,
            candidates,
            0,
            tip_tree,
            Seq::empty(),
            log,
            at,
        ),
    }
}

fn load_tip_tree<'a>(talk: &mut Talk<'a>, pub_head: &Option<String>) -> (turn: Turn<
    Result<String, GitError>,
>)
    ensures
        final(talk).replies == old(talk).replies,
        step_result(turn, final(talk).at) == tip_tree_step(
            pub_head.deep_view(),
            old(talk).log(),
            old(talk).at as int,
        ),
{
    let head = match pub_head {
        None => return Ok(Ok(EMPTY_TREE.to_string())),
        Some(head) => head,
    };
    match talk.text() {
        None => Err(ask_commit_tree(head.as_str())),
        Some(Ok(tree)) => Ok(Ok(tree.clone())),
        Some(Err(err)) => Ok(Err(err.clone())),
    }
}

fn rewrite_message<'a>(talk: &mut Talk<'a>, subrepo: &ResolvedSubrepo, meta: &CommitMeta) -> (turn:
    Turn<Result<String, HookError>>)
    ensures
        final(talk).replies == old(talk).replies,
        step_result(turn, final(talk).at) == message_step(
            subrepo.deep_view(),
            meta.deep_view(),
            old(talk).log(),
            old(talk).at as int,
        ),
{
    let command = match &subrepo.rewrite_message {
        None => return Ok(Ok(meta.message.clone())),
        Some(command) => command,
    };
    match talk.rewritten() {
        None => Err(
            Request::RewriteMessage {
                command: command.clone(),
                subrepo: subrepo.name.clone(),
                mono_sha: meta.sha.clone(),
                message: meta.message.clone(),
            },
        ),
        Some(Ok(message)) => Ok(Ok(message.clone())),
        Some(Err(err)) => Ok(Err(err.clone())),
    }
}

fn plan_one<'a>(
    talk: &mut Talk<'a>,
    subrepo: &ResolvedSubrepo,
    pub_head: &Option<String>,
    mono_sha: &String,
    tip_tree: &String,
) -> (turn: Turn<Result<Option<PlannedExport>, ExportError>>)
    ensures
        final(talk).replies == old(talk).replies,
        step_result(turn, final(talk).at) == plan_one_step(
            subrepo.deep_view(),
            pub_head.deep_view(),
            mono_sha@,
            tip_tree@,
            old(talk).log(),
            old(talk).at as int,
        ),
{
    // No subrepo content at this commit, or nothing publishable changed (e.g. only excluded
    // files): an empty pub commit would be noise.
    let subtree = match name_subtree(talk, mono_sha.as_str(), subrepo)? {
        Ok(Some(subtree)) => subtree,
        Ok(None) => return Ok(Ok(None)),
        Err(err) => return Ok(Err(ExportError::Filter(err))),
    };
    if subtree.tree == *tip_tree {
        return Ok(Ok(None));
    }
    let meta = match talk.commit() {
        None => return Err(Request::ReadCommit { rev: mono_sha.clone() }),
        Some(Err(err)) => return Ok(Err(ExportError::Git(err.clone()))),
        Some(Ok(meta)) => meta,
    };
    if let Some(pub_head) = pub_head {
        if already_published(talk, meta.message.as_str(), &subtree.tree, pub_head.as_str())? {
            return Ok(Ok(None));
        }
    }
    let message = match rewrite_message(talk, subrepo, meta)? {
        Ok(message) => message,
        Err(err) => return Ok(Err(ExportError::Hook(err))),
    };
    let message = append_trailer(message.as_str(), SOURCE_TRAILER, meta.sha.as_str());
    Ok(
        Ok(
            Some(
                PlannedExport {
                    mono_sha: meta.sha.clone(),
                    tree: subtree.tree,
                    content: subtree.content,
                    message,
                    meta: meta.clone(),
                },
            ),
        ),
    )
}

fn plan_all<'a>(
    talk: &mut Talk<'a>,
    subrepo: &ResolvedSubrepo,
    pub_head: &Option<String>,
    candidates: &Vec<ExportCandidate>,
    base_tree: &String,
) -> (turn: Turn<Result<Vec<PlannedExport>, ExportError>>)
    ensures
        final(talk).replies == old(talk).replies,
        step_result(turn, final(talk).at) == plan_rest_step(
            subrepo.deep_view(),
            pub_head.deep_view(),
            candidates.deep_view(),
            0,
            base_tree@,
            Seq::empty(),
            old(talk).log(),
            old(talk).at as int,
        ),
{
    let ghost log = talk.log();
    let ghost start = talk.at as int;
    let mut tip_tree = base_tree.clone();
    let mut planned: Vec<PlannedExport> = Vec::new();
    assert(planned.deep_view() =~= Seq::<PlannedExportView>::empty());
    let mut i: usize = 0;
    while i < candidates.len()
        invariant
            i <= candidates.len(),
            talk.replies == old(talk).replies,
            log == old(talk).log(),
            start == old(talk).at,
            plan_rest_step(
                subrepo.deep_view(),
                pub_head.deep_view(),
                candidates.deep_view(),
                0,
                base_tree@,
                Seq::empty(),
                log,
                start,
            ) == plan_rest_step(
                subrepo.deep_view(),
                pub_head.deep_view(),
                candidates.deep_view(),
                i as int,
                tip_tree@,
                planned.deep_view(),
                log,
                talk.at as int,
            ),
        decreases candidates.len() - i,
    {
        assert(candidates.deep_view()[i as int] == candidates[i as int].deep_view());
        match plan_one(talk, subrepo, pub_head, &candidates[i].mono_sha, &tip_tree)? {
            Err(err) => return Ok(Err(err)),
            Ok(None) => {},
            Ok(Some(plan)) => {
                tip_tree = plan.tree.clone();
                push(&mut planned, plan);
            },
        }
        i = i + 1;
    }
    Ok(Ok(planned))
}

/// Resolve what the candidates would publish (filtered trees, hooks, rewritten messages,
/// tree-equality skips) without creating a single object or touching a remote. [`run_export`]
/// builds on this; `status` and `doctor` use it to answer "how many commits would push create?"
/// accurately, which a raw candidate count cannot do.
pub fn compute_exports<'a>(
    talk: &mut Talk<'a>,
    subrepo: &ResolvedSubrepo,
    view: &SyncView,
    candidates: &Vec<ExportCandidate>,
) -> (turn: Turn<Result<Vec<PlannedExport>, ExportError>>)
    ensures
        final(talk).replies == old(talk).replies,
        step_result(turn, final(talk).at) == compute_exports_step(
            subrepo.deep_view(),
            view.deep_view().pub_head,
            candidates.deep_view(),
            old(talk).log(),
            old(talk).at as int,
        ),
{
    let tip_tree = match load_tip_tree(talk, &view.pub_head)? {
        Ok(tip_tree) => tip_tree,
        Err(err) => return Ok(Err(ExportError::Git(err))),
    };
    plan_all(talk, subrepo, &view.pub_head, candidates, &tip_tree)
}

/// At most one parent.
pub open spec fn parents_of(tip: Option<Text>) -> Seq<Text> {
    match tip {
        Some(tip) => seq![tip],
        None => Seq::empty(),
    }
}

/// The commit object of a planned export on top of `tip`: everything but the tree, the message
/// and the parent is copied from the monorepo commit.
pub open spec fn export_commit(planned: PlannedExportView, tip: Option<Text>) -> CommitTreeInputView {
    CommitTreeInputView {
        tree: planned.tree,
        parents: parents_of(tip),
        message: planned.message,
        author_name: planned.meta.author_name,
        author_email: planned.meta.author_email,
        author_date: planned.meta.author_date,
        committer_name: planned.meta.committer_name,
        committer_email: planned.meta.committer_email,
        committer_date: planned.meta.committer_date,
    }
}

/// The planned exports from `i` on, on top of `tip`.
pub open spec fn chain_rest_step(
    planned: Seq<PlannedExportView>,
    i: int,
    tip: Option<Text>,
    exported: Seq<ExportedCommitView>,
    log: Seq<ReplyView>,
    at: int,
) -> Step<Result<(Seq<ExportedCommitView>, Option<Text>), ExportErrorView>>
    decreases planned.len() - i,
{
    if i >= planned.len() {
        Step::Done(Ok((exported, tip)), at)
    } else {
        match text_at(log, at) {
            None => Step::Ask(RequestView::CommitTree(export_commit(planned[i], tip))),
            Some(Err(err)) => Step::Done(Err(ExportErrorView::Git(err)), at + 1),
            Some(Ok(pub_sha)) => chain_rest_step(
                planned,
                i + 1,
                Some(pub_sha),
                exported.push(ExportedCommitView { mono_sha: planned[i].mono_sha, pub_sha }),
                log,
                at + 1,
            ),
        }
    }
}

/// Writing the trees of the planned exports from `i` on.
pub open spec fn write_trees_step(
    planned: Seq<PlannedExportView>,
    i: int,
    log: Seq<ReplyView>,
    at: int,
) -> Step<Result<(), ExportErrorView>>
    decreases planned.len() - i,
{
    if i >= planned.len() {
        Step::Done(Ok(()), at)
    } else {
        match write_subtree_step(planned[i].content, log, at) {
            Step::Ask(request) => Step::Ask(request),
            Step::Done(Err(err), at) => Step::Done(Err(ExportErrorView::Filter(err)), at),
            Step::Done(Ok(_), at) => write_trees_step(planned, i + 1, log, at),
        }
    }
}

/// [`build_export_chain`] as a dialogue: first the trees, then the commits.
pub open spec fn build_export_chain_step(
    planned: Seq<PlannedExportView>,
    base: Option<Text>,
    log: Seq<ReplyView>,
    at: int,
) -> Step<Result<(Seq<ExportedCommitView>, Option<Text>), ExportErrorView>> {
    match write_trees_step(planned, 0, log, at) {
        Step::Ask(request) => Step::Ask(request),
        Step::Done(Err(err), at) => Step::Done(Err(err), at),
        Step::Done(Ok(_), at) => chain_rest_step(planned, 0, base, Seq::empty(), log, at),
    }
}

fn write_trees<'a>(talk: &mut Talk<'a>, planned: &Vec<PlannedExport>) -> (turn: Turn<
    Result<(), ExportError>,
>)
    ensures
        final(talk).replies == old(talk).replies,
        step_result(turn, final(talk).at) == write_trees_step(
            planned.deep_view(),
            0,
            old(talk).log(),
            old(talk).at as int,
        ),
{
    let ghost log = talk.log();
    let ghost start = talk.at as int;
    let mut i: usize = 0;
    while i < planned.len()
        invariant
            i <= planned.len(),
            talk.replies == old(talk).replies,
            log == old(talk).log(),
            start == old(talk).at,
            write_trees_step(planned.deep_view(), 0, log, start) == write_trees_step(
                planned.deep_view(),
                i as int,
                log,
                talk.at as int,
            ),
        decreases planned.len() - i,
    {
        assert(planned.deep_view()[i as int] == planned[i as int].deep_view());
        match write_subtree(talk, &planned[i].content)? {
            Ok(_) => {},
            Err(err) => return Ok(Err(ExportError::Filter(err))),
        }
        i = i + 1;
    }
    Ok(Ok(()))
}

/// Turn planned exports into objects, trees and then commits on top of `base`, without touching
/// any remote.
///
/// Every input is fixed (tree, message, author *and* committer are copied from the monorepo
/// commit), so replaying the same plan on the same base always asks for the same commits. That
/// determinism is what lets triangular mode recognise a fork branch it built earlier instead
/// of force-pushing an identical chain on every run.
pub fn build_export_chain<'a>(
    talk: &mut Talk<'a>,
    planned: &Vec<PlannedExport>,
    base: Option<&str>,
) -> (turn: Turn<Result<(Vec<ExportedCommit>, Option<String>), ExportError>>)
    ensures
        final(talk).replies == old(talk).replies,
        step_result(turn, final(talk).at) == build_export_chain_step(
            planned.deep_view(),
            opt_text(base),
            old(talk).log(),
            old(talk).at as int,
        ),
{
    match write_trees(talk, planned)? {
        Ok(_) => {},
        Err(err) => return Ok(Err(err)),
    }
    let mut tip: Option<String> = match base {
        Some(base) => Some(base.to_string()),
        None => None,
    };
    let ghost first_tip = tip.deep_view();
    let ghost log = talk.log();
    let ghost start = talk.at as int;
    assert(build_export_chain_step(
        planned.deep_view(),
        first_tip,
        log,
        old(talk).at as int,
    ) == chain_rest_step(planned.deep_view(), 0, first_tip, Seq::empty(), log, start));
    let mut exported: Vec<ExportedCommit> = Vec::new();
    assert(exported.deep_view() =~= Seq::<ExportedCommitView>::empty());
    let mut i: usize = 0;
    while i < planned.len()
        invariant
            i <= planned.len(),
            talk.replies == old(talk).replies,
            log == old(talk).log(),
            first_tip == opt_text(base),
            build_export_chain_step(planned.deep_view(), first_tip, log, old(talk).at as int)
                == chain_rest_step(planned.deep_view(), 0, first_tip, Seq::empty(), log, start),
            chain_rest_step(planned.deep_view(), 0, first_tip, Seq::empty(), log, start)
                == chain_rest_step(
                planned.deep_view(),
                i as int,
                tip.deep_view(),
                exported.deep_view(),
                log,
                talk.at as int,
            ),
        decreases planned.len() - i,
    {
        let p = &planned[i];
        assert(planned.deep_view()[i as int] == p.deep_view());
        let pub_sha = match talk.text() {
            None => {
                let mut parents: Vec<String> = Vec::new();
                assert(parents.deep_view() =~= Seq::<Text>::empty());
                if let Some(tip) = &tip {
                    push(&mut parents, tip.clone());
                }
                assert(parents.deep_view() =~= parents_of(tip.deep_view()));
                return Err(
                    Request::CommitTree(
                        CommitTreeInput {
                            tree: p.tree.clone(),
                            parents,
                            message: p.message.clone(),
                            author_name: p.meta.author_name.clone(),
                            author_email: p.meta.author_email.clone(),
                            author_date: p.meta.author_date.clone(),
                            committer_name: p.meta.committer_name.clone(),
                            committer_email: p.meta.committer_email.clone(),
                            committer_date: p.meta.committer_date.clone(),
                        },
                    ),
                );
            },
            Some(Err(err)) => return Ok(Err(ExportError::Git(err.clone()))),
            Some(Ok(pub_sha)) => pub_sha,
        };
        push(
            &mut exported,
            ExportedCommit { mono_sha: p.mono_sha.clone(), pub_sha: pub_sha.clone() },
        );
        tip = Some(pub_sha.clone());
        i = i + 1;
    }
    Ok(Ok((exported, tip)))
}

/// Writing a ref of another repository, and then the local ref that mirrors it.
pub open spec fn publish_step(
    request: RequestView,
    tracking_ref: Text,
    sha: Text,
    log: Seq<ReplyView>,
    at: int,
) -> Step<Result<(), GitErrorView>> {
    match acted_at(log, at) {
        None => Step::Ask(request),
        Some(Err(err)) => Step::Done(Err(err), at + 1),
        Some(Ok(_)) => match text_at(log, at + 1) {
            None => Step::Ask(
                RequestView::Git { args: seq!["update-ref"@, tracking_ref, sha], input: None },
            ),
            Some(Err(err)) => Step::Done(Err(err), at + 2),
            Some(Ok(_)) => Step::Done(Ok(()), at + 2),
        },
    }
}

fn publish<'a>(
    talk: &mut Talk<'a>,
    request: Request,
    tracking_ref: &str,
    sha: &str,
) -> (turn: Turn<Result<(), GitError>>)
    ensures
        final(talk).replies == old(talk).replies,
        step_result(turn, final(talk).at) == publish_step(
            request.deep_view(),
            tracking_ref@,
            sha@,
            old(talk).log(),
            old(talk).at as int,
        ),
{
    match talk.acted() {
        None => return Err(request),
        Some(Err(err)) => return Ok(Err(err.clone())),
        Some(Ok(_)) => {},
    }
    match talk.text() {
        None => Err(
            Request::Git {
                args: vec!["update-ref".to_string(), tracking_ref.to_string(), sha.to_string()],
                input: None,
            },
        ),
        Some(Err(err)) => Ok(Err(err.clone())),
        Some(Ok(_)) => Ok(Ok(())),
    }
}

/// The full name of a branch.
pub open spec fn branch_ref_text(branch: Text) -> Text {
    "refs/heads/"@ + branch
}

fn branch_ref(branch: &str) -> (out: String)
    ensures
        out@ == branch_ref_text(branch@),
{
    "refs/heads/".to_string().concat(branch)
}

/// The push that rebuilds the fork branch: a plain one where the branch is new, one that
/// insists on what was seen where it is not.
pub open spec fn fork_push_request(
    subrepo: ResolvedSubrepoView,
    tip: Text,
    fork_head: Option<Text>,
) -> RequestView {
    match fork_head {
        None => RequestView::PushRef {
            remote: subrepo.remote,
            sha: tip,
            dst: branch_ref_text(subrepo.push_branch),
        },
        Some(expect) => RequestView::PushRefWithLease {
            remote: subrepo.remote,
            sha: tip,
            dst: branch_ref_text(subrepo.push_branch),
            expect,
        },
    }
}

/// Landing a chain on the fork; whether anything had to be written for that.
pub open spec fn push_fork_step(
    subrepo: ResolvedSubrepoView,
    tip: Text,
    log: Seq<ReplyView>,
    at: int,
) -> Step<Result<bool, GitErrorView>> {
    match load_fork_state_step(subrepo, false, log, at) {
        Step::Ask(request) => Step::Ask(request),
        Step::Done(Err(err), at) => Step::Done(Err(err), at),
        Step::Done(Ok(fork), at) => if fork.head == Some(tip) {
            Step::Done(Ok(false), at)
        } else {
            match publish_step(
                fork_push_request(subrepo, tip, fork.head),
                fork_ref_text(subrepo.name),
                tip,
                log,
                at,
            ) {
                Step::Ask(request) => Step::Ask(request),
                Step::Done(Err(err), at) => Step::Done(Err(err), at),
                Step::Done(Ok(_), at) => Step::Done(Ok(true), at),
            }
        },
    }
}

/// Landing a chain where it belongs: on the fork in triangular mode, on the public branch
/// otherwise. Whether anything had to be written for that.
pub open spec fn push_chain_step(
    subrepo: ResolvedSubrepoView,
    tracking_ref: Text,
    tip: Text,
    log: Seq<ReplyView>,
    at: int,
) -> Step<Result<bool, GitErrorView>> {
    if subrepo.upstream is Some {
        push_fork_step(subrepo, tip, log, at)
    } else {
        match publish_step(
            RequestView::PushRef {
                remote: subrepo.remote,
                sha: tip,
                dst: branch_ref_text(subrepo.branch),
            },
            tracking_ref,
            tip,
            log,
            at,
        ) {
            Step::Ask(request) => Step::Ask(request),
            Step::Done(Err(err), at) => Step::Done(Err(err), at),
            Step::Done(Ok(_), at) => Step::Done(Ok(true), at),
        }
    }
}

/// [`run_export`] as a dialogue.
pub open spec fn run_export_step(
    subrepo: ResolvedSubrepoView,
    pub_head: Option<Text>,
    tracking_ref: Text,
    candidates: Seq<ExportCandidateView>,
    log: Seq<ReplyView>,
    at: int,
) -> Step<Result<ExportResultView, ExportErrorView>> {
    match compute_exports_step(subrepo, pub_head, candidates, log, at) {
        Step::Ask(request) => Step::Ask(request),
        Step::Done(Err(err), at) => Step::Done(Err(err), at),
        Step::Done(Ok(planned), at) => match build_export_chain_step(planned, pub_head, log, at) {
            Step::Ask(request) => Step::Ask(request),
            Step::Done(Err(err), at) => Step::Done(Err(err), at),
            Step::Done(Ok((exported, tip)), at) => if exported.len() == 0 || tip is None {
                Step::Done(
                    Ok(
                        ExportResultView {
                            exported: Seq::empty(),
                            new_head: pub_head,
                            pushed: false,
                        },
                    ),
                    at,
                )
            } else {
                match push_chain_step(subrepo, tracking_ref, tip->0, log, at) {
                    Step::Ask(request) => Step::Ask(request),
                    Step::Done(Err(err), at) => Step::Done(Err(ExportErrorView::Git(err)), at),
                    Step::Done(Ok(pushed), at) => Step::Done(
                        Ok(ExportResultView { exported, new_head: tip, pushed }),
                        at,
                    ),
                }
            },
        },
    }
}

fn push_fork<'a>(talk: &mut Talk<'a>, subrepo: &ResolvedSubrepo, tip: &String) -> (turn: Turn<
    Result<bool, GitError>,
>)
    ensures
        final(talk).replies == old(talk).replies,
        step_result(turn, final(talk).at) == push_fork_step(
            subrepo.deep_view(),
            tip@,
            old(talk).log(),
            old(talk).at as int,
        ),
{
    let fork = match load_fork_state(talk, subrepo, &SyncViewOptions { offline: false })? {
        Ok(fork) => fork,
        Err(err) => return Ok(Err(err)),
    };
    let dst = branch_ref(subrepo.push_branch.as_str());
    let request = match fork.head {
        None => Request::PushRef { remote: subrepo.remote.clone(), sha: tip.clone(), dst },
        Some(expect) => {
            if expect == *tip {
                return Ok(Ok(false));
            }
            Request::PushRefWithLease {
                remote: subrepo.remote.clone(),
                sha: tip.clone(),
                dst,
                expect,
            }
        },
    };
    match publish(talk, request, fork_tracking_ref(subrepo.name.as_str()).as_str(), tip.as_str())? {
        Ok(_) => Ok(Ok(true)),
        Err(err) => Ok(Err(err)),
    }
}

fn push_chain<'a>(
    talk: &mut Talk<'a>,
    subrepo: &ResolvedSubrepo,
    tracking_ref: &str,
    tip: &String,
) -> (turn: Turn<Result<bool, GitError>>)
    ensures
        final(talk).replies == old(talk).replies,
        step_result(turn, final(talk).at) == push_chain_step(
            subrepo.deep_view(),
            tracking_ref@,
            tip@,
            old(talk).log(),
            old(talk).at as int,
        ),
{
    if subrepo.upstream.is_some() {
        return push_fork(talk, subrepo, tip);
    }
    let request = Request::PushRef {
        remote: subrepo.remote.clone(),
        sha: tip.clone(),
        dst: branch_ref(subrepo.branch.as_str()),
    };
    match publish(talk, request, tracking_ref, tip.as_str())? {
        Ok(_) => Ok(Ok(true)),
        Err(err) => Ok(Err(err)),
    }
}

/// Replay candidates onto the public branch. Every commit (and therefore every scan hook)
/// is resolved first; the remote is written exactly once, at the end. A hook that rejects must
/// never leave a partially published branch behind.
///
/// In triangular mode the chain is parented on the UPSTREAM head and lands on the fork's
/// `push_branch`: a linear, PR-ready branch that is owned and rebuilt here. Upstream is never
/// written to, and the upstream tracking ref is never moved to something upstream does not
/// have.
pub fn run_export<'a>(
    talk: &mut Talk<'a>,
    subrepo: &ResolvedSubrepo,
    view: &SyncView,
    candidates: &Vec<ExportCandidate>,
) -> (turn: Turn<Result<ExportResult, ExportError>>)
    ensures
        final(talk).replies == old(talk).replies,
        step_result(turn, final(talk).at) == run_export_step(
            subrepo.deep_view(),
            view.deep_view().pub_head,
            view.deep_view().tracking_ref,
            candidates.deep_view(),
            old(talk).log(),
            old(talk).at as int,
        ),
{
    let planned = match compute_exports(talk, subrepo, view, candidates)? {
        Ok(planned) => planned,
        Err(err) => return Ok(Err(err)),
    };
    let base = match &view.pub_head {
        Some(head) => Some(head.as_str()),
        None => None,
    };
    let (exported, tip) = match build_export_chain(talk, &planned, base)? {
        Ok(built) => built,
        Err(err) => return Ok(Err(err)),
    };
    let tip = match tip {
        Some(tip) => tip,
        None => {
            let none: Vec<ExportedCommit> = Vec::new();
            assert(none.deep_view() =~= Seq::<ExportedCommitView>::empty());
            return Ok(
                Ok(ExportResult { exported: none, new_head: view.pub_head.clone(), pushed: false }),
            );
        },
    };
    if exported.len() == 0 {
        assert(exported.deep_view() =~= Seq::<ExportedCommitView>::empty());
        return Ok(Ok(ExportResult { exported, new_head: view.pub_head.clone(), pushed: false }));
    }
    match push_chain(talk, subrepo, view.tracking_ref.as_str(), &tip)? {
        Ok(pushed) => Ok(Ok(ExportResult { exported, new_head: Some(tip), pushed })),
        Err(err) => Ok(Err(ExportError::Git(err))),
    }
}

/// [`export_base_rewritten`] as a dialogue.
pub open spec fn export_base_rewritten_step(
    last_exported_mono: Option<Text>,
    log: Seq<ReplyView>,
    at: int,
) -> Step<bool> {
    match last_exported_mono {
        None => Step::Done(false, at),
        Some(last) => match flag_at(log, at) {
            None => Step::Ask(is_ancestor_request(last, "HEAD"@)),
            Some(reachable) => Step::Done(!reachable, at + 1),
        },
    }
}

/// Has monorepo history been rewritten under the last exported commit? Export appends to pub
/// assuming everything after the scan base is new; if the commit pub says it last exported is
/// no longer reachable from HEAD, the monorepo was rebased underneath the mapping. This has to
/// consult `last_exported_mono` rather than `export_base`: a rewritten-away commit is exactly
/// the one the HEAD walk cannot see.
pub fn export_base_rewritten<'a>(talk: &mut Talk<'a>, view: &SyncView) -> (turn: Turn<bool>)
    ensures
        final(talk).replies == old(talk).replies,
        step(turn, final(talk).at) == export_base_rewritten_step(
            view.deep_view().last_exported_mono,
            old(talk).log(),
            old(talk).at as int,
        ),
{
    let last = match &view.last_exported_mono {
        None => return Ok(false),
        Some(last) => last,
    };
    match talk.flag() {
        None => Err(ask_is_ancestor(last.as_str(), "HEAD")),
        Some(reachable) => Ok(!reachable),
    }
}

/// How far back a content-anchored recovery looks. A rewrite that moved the anchor further
/// than this is not the "rebased over unrelated commits" case this recovers, and an unbounded
/// walk would turn one stale sha into a scan of the whole monorepo.
pub const ANCHOR_RECOVERY_LIMIT: usize = 1000;

/// A stale anchor that content proves is *only* stale.
///
/// The anchor is recorded as a sha, but what it stands for is a tree: "the standalone repo
/// already carries everything this commit publishes". A rebase over commits that touched other
/// paths rewrites the sha and keeps the tree, so the recorded commit leaves HEAD's history
/// while the export it names stays correct. Deriving the sha from the tree again is not a
/// weakening of the rewrite check: it is the same check, asked about the thing that matters.
#[derive(Debug, PartialEq, Eq)]
pub struct AnchorRecovery {
    /// The sha pub records, no longer reachable from HEAD.
    pub missing: String,
    /// The commit adopted in its place: the newest one on the HEAD walk publishing that tree.
    pub recovered: String,
    /// The public commit whose tree both of them export.
    pub pub_sha: String,
    /// How many further commits directly below `recovered` publish the same tree. Identical
    /// trees mean identical exports, so which one is chosen cannot change what gets pushed, but
    /// the report says that the newest was taken.
    pub also_matching: usize,
}

/// The value of a [`AnchorRecovery`].
#[verifier::ext_equal]
pub struct AnchorRecoveryView {
    pub missing: Text,
    pub recovered: Text,
    pub pub_sha: Text,
    pub also_matching: int,
}

impl DeepView for AnchorRecovery {
    type V = AnchorRecoveryView;

    open spec fn deep_view(&self) -> AnchorRecoveryView {
        AnchorRecoveryView {
            missing: self.missing.deep_view(),
            recovered: self.recovered.deep_view(),
            pub_sha: self.pub_sha.deep_view(),
            also_matching: self.also_matching as int,
        }
    }
}

impl Clone for AnchorRecovery {
    fn clone(&self) -> (out: Self)
        ensures
            out.deep_view() == self.deep_view(),
    {
        AnchorRecovery {
            missing: self.missing.clone(),
            recovered: self.recovered.clone(),
            pub_sha: self.pub_sha.clone(),
            also_matching: self.also_matching,
        }
    }
}

impl AnchorRecoveryView {
    /// The one line a `push` prints about it.
    pub open spec fn message(self, subrepo: Text) -> Text {
        let line = subrepo + ": recovered anchor: "@ + self.missing + " → "@ + self.recovered
            + " (identical subrepo tree after history rewrite)"@;
        if self.also_matching > 0 {
            line + " — newest of "@ + decimal_text((self.also_matching + 1) as nat)
                + " adjacent commits publishing that tree"@
        } else {
            line
        }
    }
}

impl AnchorRecovery {
    /// The one line a `push` prints about it.
    pub fn message(&self, subrepo: &str) -> (out: String)
        requires
            self.also_matching < usize::MAX,
        ensures
            out@ == self.deep_view().message(subrepo@),
    {
        let line = subrepo.to_string().concat(": recovered anchor: ").concat(
            self.missing.as_str(),
        ).concat(" → ").concat(self.recovered.as_str()).concat(
            " (identical subrepo tree after history rewrite)",
        );
        if self.also_matching > 0 {
            let matching = decimal((self.also_matching + 1) as u64);
            line.concat(" — newest of ").concat(matching.as_str()).concat(
                " adjacent commits publishing that tree",
            )
        } else {
            line
        }
    }
}

/// The walk of [`find_anchor_recovery`], from its commit `i` on: the first commit that
/// publishes `target`, and how many directly after it do so too.
pub open spec fn recovery_walk_step(
    subrepo: ResolvedSubrepoView,
    target: Text,
    walk: Seq<Text>,
    i: int,
    recovered: Option<Text>,
    also_matching: int,
    log: Seq<ReplyView>,
    at: int,
) -> Step<(Option<Text>, int)>
    decreases walk.len() - i,
{
    if i >= walk.len() {
        Step::Done((recovered, also_matching), at)
    } else {
        match anchor_subtree_step(walk[i], subrepo, log, at) {
            Step::Ask(request) => Step::Ask(request),
            Step::Done(tree, at) => {
                let matching = tree == Ok::<Option<Text>, FilterErrorView>(Some(target));
                if recovered is Some && !matching {
                    Step::Done((recovered, also_matching), at)
                } else {
                    recovery_walk_step(
                        subrepo,
                        target,
                        walk,
                        i + 1,
                        if recovered is None && matching {
                            Some(walk[i])
                        } else {
                            recovered
                        },
                        if recovered is Some {
                            also_matching + 1
                        } else {
                            also_matching
                        },
                        log,
                        at,
                    )
                }
            },
        }
    }
}

/// The newest commits of HEAD's own line, as far as a recovery looks.
pub open spec fn recovery_walk_request() -> RequestView {
    RequestView::RevList {
        args: seq!["--first-parent"@, "-n"@, decimal_text(ANCHOR_RECOVERY_LIMIT as nat), "HEAD"@],
    }
}

/// Looking for the commit that publishes what `missing` published as `pub_sha`.
pub open spec fn recovery_step(
    subrepo: ResolvedSubrepoView,
    missing: Text,
    pub_sha: Text,
    log: Seq<ReplyView>,
    at: int,
) -> Step<Result<Option<AnchorRecoveryView>, ExportErrorView>> {
    match text_at(log, at) {
        None => Step::Ask(commit_tree_request(pub_sha)),
        Some(Err(err)) => Step::Done(Err(ExportErrorView::Git(err)), at + 1),
        Some(Ok(target)) => match shas_at(log, at + 1) {
            None => Step::Ask(recovery_walk_request()),
            Some(Err(err)) => Step::Done(Err(ExportErrorView::Git(err)), at + 2),
            Some(Ok(walk)) => match recovery_walk_step(
                subrepo,
                target,
                walk,
                0,
                None,
                0,
                log,
                at + 2,
            ) {
                Step::Ask(request) => Step::Ask(request),
                Step::Done((None, _), at) => Step::Done(Ok(None), at),
                Step::Done((Some(recovered), also_matching), at) => Step::Done(
                    Ok(Some(AnchorRecoveryView { missing, recovered, pub_sha, also_matching })),
                    at,
                ),
            },
        },
    }
}

/// [`find_anchor_recovery`] as a dialogue.
pub open spec fn find_anchor_recovery_step(
    subrepo: ResolvedSubrepoView,
    view: SyncViewValue,
    log: Seq<ReplyView>,
    at: int,
) -> Step<Result<Option<AnchorRecoveryView>, ExportErrorView>> {
    match export_base_rewritten_step(view.last_exported_mono, log, at) {
        Step::Ask(request) => Step::Ask(request),
        Step::Done(false, at) => Step::Done(Ok(None), at),
        Step::Done(true, at) => match view.last_exported_mono {
            None => Step::Done(Ok(None), at),
            Some(missing) => if view.exported_mono_to_pub.contains_key(missing) {
                recovery_step(subrepo, missing, view.exported_mono_to_pub[missing], log, at)
            } else {
                Step::Done(Ok(None), at)
            },
        },
    }
}

fn recovery_walk<'a>(
    talk: &mut Talk<'a>,
    subrepo: &ResolvedSubrepo,
    target: &String,
    walk: &Vec<String>,
) -> (turn: Turn<(Option<String>, usize)>)
    ensures
        final(talk).replies == old(talk).replies,
        match turn {
            Err(request) => Step::Ask(request.deep_view()),
            Ok((recovered, also_matching)) => Step::Done(
                (recovered.deep_view(), also_matching as int),
                final(talk).at as int,
            ),
        } == recovery_walk_step(
            subrepo.deep_view(),
            target@,
            walk.deep_view(),
            0,
            None,
            0,
            old(talk).log(),
            old(talk).at as int,
        ),
        turn matches Ok((recovered, also_matching)) ==> also_matching < usize::MAX,
{
    let ghost log = talk.log();
    let ghost start = talk.at as int;
    let mut recovered: Option<String> = None;
    let mut also_matching: usize = 0;
    let mut i: usize = 0;
    while i < walk.len()
        invariant
            i <= walk.len(),
            talk.replies == old(talk).replies,
            log == old(talk).log(),
            start == old(talk).at,
            recovered is None ==> also_matching == 0,
            recovered is Some ==> also_matching < i,
            recovery_walk_step(
                subrepo.deep_view(),
                target@,
                walk.deep_view(),
                0,
                None,
                0,
                log,
                start,
            ) == recovery_walk_step(
                subrepo.deep_view(),
                target@,
                walk.deep_view(),
                i as int,
                recovered.deep_view(),
                also_matching as int,
                log,
                talk.at as int,
            ),
        decreases walk.len() - i,
    {
        assert(walk.deep_view()[i as int] == walk[i as int]@);
        let matching = match anchor_subtree(talk, walk[i].as_str(), subrepo)? {
            Ok(Some(tree)) => tree == *target,
            _ => false,
        };
        if recovered.is_none() {
            if matching {
                recovered = Some(walk[i].clone());
            }
        } else if matching {
            also_matching = also_matching + 1;
        } else {
            return Ok((recovered, also_matching));
        }
        i = i + 1;
    }
    Ok((recovered, also_matching))
}

/// Look for a commit on HEAD's history that publishes exactly what the missing anchor
/// published. Read-only: `doctor` calls this to report the recovery `push` would do.
///
/// Comparison goes through [`anchor_subtree`], the same tree mapping the exporter publishes
/// with (excludes, `transform`) minus the `scan` hook, which judges content rather than
/// shaping it. First-parent, newest first, bounded by [`ANCHOR_RECOVERY_LIMIT`]: the first
/// match is the newest, and stopping there is what keeps the range as tight as it was.
///
/// A commit whose subtree cannot be resolved (a `transform` that fails on old content) is not a
/// match rather than an error: recovery must never invent a new way for `push` to fail.
pub fn find_anchor_recovery<'a>(
    talk: &mut Talk<'a>,
    subrepo: &ResolvedSubrepo,
    view: &SyncView,
) -> (turn: Turn<Result<Option<AnchorRecovery>, ExportError>>)
    ensures
        final(talk).replies == old(talk).replies,
        step_result(turn, final(talk).at) == find_anchor_recovery_step(
            subrepo.deep_view(),
            view.deep_view(),
            old(talk).log(),
            old(talk).at as int,
        ),
        turn matches Ok(Ok(Some(recovery))) ==> recovery.also_matching < usize::MAX,
{
    if !export_base_rewritten(talk, view)? {
        return Ok(Ok(None));
    }
    let missing = match &view.last_exported_mono {
        None => return Ok(Ok(None)),
        Some(missing) => missing,
    };
    let pub_sha = match view.exported_mono_to_pub.get(missing.as_str()) {
        None => return Ok(Ok(None)),
        Some(pub_sha) => pub_sha,
    };
    let target = match talk.text() {
        None => return Err(ask_commit_tree(pub_sha.as_str())),
        Some(Err(err)) => return Ok(Err(ExportError::Git(err.clone()))),
        Some(Ok(target)) => target,
    };
    let walk = match talk.shas() {
        None => return Err(
            Request::RevList {
                args: vec![
                    "--first-parent".to_string(),
                    "-n".to_string(),
                    decimal(ANCHOR_RECOVERY_LIMIT as u64),
                    "HEAD".to_string(),
                ],
            },
        ),
        Some(Err(err)) => return Ok(Err(ExportError::Git(err.clone()))),
        Some(Ok(walk)) => walk,
    };
    let (recovered, also_matching) = recovery_walk(talk, subrepo, target, walk)?;
    match recovered {
        None => Ok(Ok(None)),
        Some(recovered) => Ok(
            Ok(
                Some(
                    AnchorRecovery {
                        missing: missing.clone(),
                        recovered,
                        pub_sha: pub_sha.clone(),
                        also_matching,
                    },
                ),
            ),
        ),
    }
}

/// [`live_export_anchor`] as a dialogue.
pub open spec fn live_export_anchor_step(
    subrepo: ResolvedSubrepoView,
    view: SyncViewValue,
    log: Seq<ReplyView>,
    at: int,
) -> Step<Option<Text>> {
    match view.last_exported_mono {
        None => Step::Done(None, at),
        Some(last) => match flag_at(log, at) {
            None => Step::Ask(is_ancestor_request(last, "HEAD"@)),
            Some(true) => Step::Done(Some(last), at + 1),
            Some(false) => match find_anchor_recovery_step(subrepo, view, log, at + 1) {
                Step::Ask(request) => Step::Ask(request),
                Step::Done(Ok(Some(recovery)), at) => Step::Done(Some(recovery.recovered), at),
                Step::Done(_, at) => Step::Done(None, at),
            },
        },
    }
}

/// The monorepo commit that currently proves the two repositories agree on a state: the newest
/// `Monosplice-Source` the public branch records that this clone has *and* that HEAD descends
/// from, or, when a rewrite moved it, the commit that publishes the same tree today.
///
/// It is the one fact that settles history below it. Everything up to a live anchor is
/// published by construction, whatever the trailers down there happen to say, which is what lets
/// `doctor` tell a fossil from a broken mapping. `None` means nothing vouches for anything:
/// never published, the wrong remote, or a mapping that cannot be read.
pub fn live_export_anchor<'a>(
    talk: &mut Talk<'a>,
    subrepo: &ResolvedSubrepo,
    view: &SyncView,
) -> (turn: Turn<Option<String>>)
    ensures
        final(talk).replies == old(talk).replies,
        step(turn, final(talk).at) == live_export_anchor_step(
            subrepo.deep_view(),
            view.deep_view(),
            old(talk).log(),
            old(talk).at as int,
        ),
{
    let last = match &view.last_exported_mono {
        None => return Ok(None),
        Some(last) => last,
    };
    match talk.flag() {
        None => return Err(ask_is_ancestor(last.as_str(), "HEAD")),
        Some(true) => return Ok(Some(last.clone())),
        Some(false) => {},
    }
    match find_anchor_recovery(talk, subrepo, view)? {
        Ok(Some(recovery)) => Ok(Some(recovery.recovered)),
        _ => Ok(None),
    }
}

/// A view that has adopted a recovered anchor. Only the anchor moves; `keep_base` tells that
/// the scan base stays where it is.
pub open spec fn adopt(
    view: SyncViewValue,
    recovery: AnchorRecoveryView,
    keep_base: bool,
) -> SyncViewValue {
    SyncViewValue {
        export_base: if keep_base {
            view.export_base
        } else {
            Some(recovery.recovered)
        },
        last_exported_mono: Some(recovery.recovered),
        exported_mono_to_pub: view.exported_mono_to_pub.insert(
            recovery.recovered,
            recovery.pub_sha,
        ),
        ..view
    }
}

/// Is the scan base newer than a recovered anchor, and does it stay for that reason?
pub open spec fn keep_base_step(
    recovered: Text,
    export_base: Option<Text>,
    log: Seq<ReplyView>,
    at: int,
) -> Step<bool> {
    match export_base {
        None => Step::Done(false, at),
        Some(base) => match flag_at(log, at) {
            None => Step::Ask(is_ancestor_request(recovered, base)),
            Some(newer) => Step::Done(newer, at + 1),
        },
    }
}

/// [`recover_export_anchor`] as a dialogue: its result, and the view that it leaves.
pub open spec fn recover_export_anchor_step(
    subrepo: ResolvedSubrepoView,
    view: SyncViewValue,
    log: Seq<ReplyView>,
    at: int,
) -> Step<(Result<Option<AnchorRecoveryView>, ExportErrorView>, SyncViewValue)> {
    match find_anchor_recovery_step(subrepo, view, log, at) {
        Step::Ask(request) => Step::Ask(request),
        Step::Done(Err(err), at) => Step::Done((Err(err), view), at),
        Step::Done(Ok(None), at) => Step::Done((Ok(None), view), at),
        Step::Done(Ok(Some(recovery)), at) => match keep_base_step(
            recovery.recovered,
            view.export_base,
            log,
            at,
        ) {
            Step::Ask(request) => Step::Ask(request),
            Step::Done(keep_base, at) => Step::Done(
                (Ok(Some(recovery)), adopt(view, recovery, keep_base)),
                at,
            ),
        },
    }
}

/// Adopt a recovered anchor into the view, so the export range is derived from it. Returns
/// `None` when the anchor is intact or nothing on the HEAD walk reproduces the published tree,
/// in which case [`check_export_preconditions`] still refuses, exactly as before.
///
/// Only the anchor moves. Divergence (unimported public commits) is decided elsewhere, from
/// data this does not touch.
pub fn recover_export_anchor<'a>(
    talk: &mut Talk<'a>,
    subrepo: &ResolvedSubrepo,
    view: &mut SyncView,
) -> (turn: Turn<Result<Option<AnchorRecovery>, ExportError>>)
    ensures
        final(talk).replies == old(talk).replies,
        match turn {
            Err(request) => Step::Ask(request.deep_view()),
            Ok(result) => Step::Done(
                (result_view(result), final(view).deep_view()),
                final(talk).at as int,
            ),
        } == recover_export_anchor_step(
            subrepo.deep_view(),
            old(view).deep_view(),
            old(talk).log(),
            old(talk).at as int,
        ),
        turn is Err ==> final(view).deep_view() == old(view).deep_view(),
        turn matches Ok(Ok(Some(recovery))) ==> recovery.also_matching < usize::MAX,
{
    let recovery = match find_anchor_recovery(talk, subrepo, view)? {
        Ok(Some(recovery)) => recovery,
        Ok(None) => return Ok(Ok(None)),
        Err(err) => return Ok(Err(err)),
    };
    // The scan base only ever moves forward: a surviving anchor newer than the recovered one
    // already proves pub carries everything up to it, and widening the range would replay
    // commits pub has.
    let keep_base = match &view.export_base {
        None => false,
        Some(base) => match talk.flag() {
            None => return Err(ask_is_ancestor(recovery.recovered.as_str(), base.as_str())),
            Some(newer) => newer,
        },
    };
    if !keep_base {
        view.export_base = Some(recovery.recovered.clone());
    }
    view.last_exported_mono = Some(recovery.recovered.clone());
    view.exported_mono_to_pub.insert(recovery.recovered.clone(), recovery.pub_sha.clone());
    Ok(Ok(Some(recovery)))
}

/// Why a broken mapping stops an export.
pub open spec fn broken_mapping_text(
    subrepo: ResolvedSubrepoView,
    pub_sha: Text,
    mono_sha: Text,
) -> Text {
    subrepo.name + ": standalone commit "@ + pub_sha + " carries "@ + SOURCE_TRAILER@ + ": "@
        + mono_sha
        + ", but that monorepo commit does not exist in this clone.\nThe commit mapping is broken, so monosplice cannot tell what is already published and will not export on top of it. Nothing was pushed to "@
        + subrepo.remote + ".\nRun `monosplice doctor` to see the full picture."@
}

/// The refusal of a view whose mapping is broken: the first broken reference is the one named.
pub open spec fn broken_refusal(subrepo: ResolvedSubrepoView, view: SyncViewValue) -> Option<Text> {
    if view.broken_source_refs.len() > 0 {
        let broken = view.broken_source_refs[0];
        Some(broken_mapping_text(subrepo, broken.pub_sha, broken.mono_sha))
    } else {
        None
    }
}

/// Why a broken mapping stops an export, if it is broken.
pub fn check_mapping(subrepo: &ResolvedSubrepo, view: &SyncView) -> (out: Option<String>)
    ensures
        out.deep_view() == broken_refusal(subrepo.deep_view(), view.deep_view()),
{
    if view.broken_source_refs.len() == 0 {
        return None;
    }
    let broken = &view.broken_source_refs[0];
    assert(view.deep_view().broken_source_refs[0] == broken.deep_view());
    Some(
        subrepo.name.clone().concat(": standalone commit ").concat(broken.pub_sha.as_str()).concat(
            " carries ",
        ).concat(SOURCE_TRAILER).concat(": ").concat(broken.mono_sha.as_str()).concat(
            ", but that monorepo commit does not exist in this clone.\nThe commit mapping is broken, so monosplice cannot tell what is already published and will not export on top of it. Nothing was pushed to ",
        ).concat(subrepo.remote.as_str()).concat(
            ".\nRun `monosplice doctor` to see the full picture.",
        ),
    )
}

/// Why a rewritten history stops an export.
pub open spec fn rewritten_text(subrepo: ResolvedSubrepoView, last: Option<Text>) -> Text {
    subrepo.name + ": the last exported monorepo commit "@ + (match last {
        Some(last) => last,
        None => ""@,
    })
        + " is no longer an ancestor of HEAD.\nMonorepo history was rewritten (rebase, amend or force-push) underneath it, so monosplice cannot tell which commits are new. Nothing was pushed to "@
        + subrepo.remote
        + ".\nRun `monosplice doctor` for details, then restore that commit (`git reflog`) before pushing again."@
}

/// [`check_export_preconditions`] as a dialogue.
pub open spec fn check_export_preconditions_step(
    subrepo: ResolvedSubrepoView,
    view: SyncViewValue,
    log: Seq<ReplyView>,
    at: int,
) -> Step<Option<Text>> {
    match broken_refusal(subrepo, view) {
        Some(problem) => Step::Done(Some(problem), at),
        None => match export_base_rewritten_step(view.last_exported_mono, log, at) {
            Step::Ask(request) => Step::Ask(request),
            Step::Done(true, at) => Step::Done(
                Some(rewritten_text(subrepo, view.last_exported_mono)),
                at,
            ),
            Step::Done(false, at) => Step::Done(None, at),
        },
    }
}

/// Why export must not run, or `None` when the derived mapping is trustworthy. Callers run
/// [`recover_export_anchor`] first: a stale anchor that content can derive again is not a
/// reason to stop, and this refuses only what is left.
pub fn check_export_preconditions<'a>(
    talk: &mut Talk<'a>,
    subrepo: &ResolvedSubrepo,
    view: &SyncView,
) -> (turn: Turn<Option<String>>)
    ensures
        final(talk).replies == old(talk).replies,
        step(turn, final(talk).at) == check_export_preconditions_step(
            subrepo.deep_view(),
            view.deep_view(),
            old(talk).log(),
            old(talk).at as int,
        ),
{
    if let Some(problem) = check_mapping(subrepo, view) {
        return Ok(Some(problem));
    }
    if export_base_rewritten(talk, view)? {
        let last = match &view.last_exported_mono {
            Some(last) => last.as_str(),
            None => "",
        };
        return Ok(
            Some(
                subrepo.name.clone().concat(": the last exported monorepo commit ").concat(
                    last,
                ).concat(
                    " is no longer an ancestor of HEAD.\nMonorepo history was rewritten (rebase, amend or force-push) underneath it, so monosplice cannot tell which commits are new. Nothing was pushed to ",
                ).concat(subrepo.remote.as_str()).concat(
                    ".\nRun `monosplice doctor` for details, then restore that commit (`git reflog`) before pushing again.",
                ),
            ),
        );
    }
    Ok(None)
}

/// The commit object of a baseline: one parentless snapshot, on which the committer identity
/// stands in for the author too.
pub open spec fn baseline_commit(name: Text, tree: Text, meta: CommitMetaView) -> CommitTreeInputView {
    CommitTreeInputView {
        tree,
        parents: Seq::empty(),
        message: with_trailer("Initial import of "@ + name + "\n"@, SOURCE_TRAILER@, meta.sha),
        author_name: meta.committer_name,
        author_email: meta.committer_email,
        author_date: meta.committer_date,
        committer_name: meta.committer_name,
        committer_email: meta.committer_email,
        committer_date: meta.committer_date,
    }
}

/// [`publish_baseline`] as a dialogue.
pub open spec fn publish_baseline_step(
    subrepo: ResolvedSubrepoView,
    mono_head: Text,
    log: Seq<ReplyView>,
    at: int,
) -> Step<Result<Option<Text>, ExportErrorView>> {
    match name_subtree_step(mono_head, subrepo, log, at) {
        Step::Ask(request) => Step::Ask(request),
        Step::Done(Err(err), at) => Step::Done(Err(ExportErrorView::Filter(err)), at),
        Step::Done(Ok(None), at) => Step::Done(Ok(None), at),
        Step::Done(Ok(Some(subtree)), at) => if subtree.tree == EMPTY_TREE@ {
            Step::Done(Ok(None), at)
        } else {
            match commit_at(log, at) {
                None => Step::Ask(RequestView::ReadCommit { rev: mono_head }),
                Some(Err(err)) => Step::Done(Err(ExportErrorView::Git(err)), at + 1),
                Some(Ok(meta)) => match write_subtree_step(subtree.content, log, at + 1) {
                    Step::Ask(request) => Step::Ask(request),
                    Step::Done(Err(err), at) => Step::Done(Err(ExportErrorView::Filter(err)), at),
                    Step::Done(Ok(_), at) => push_baseline_step(
                        subrepo,
                        baseline_commit(subrepo.name, subtree.tree, meta),
                        log,
                        at,
                    ),
                },
            }
        },
    }
}

/// Committing a baseline and pushing it.
pub open spec fn push_baseline_step(
    subrepo: ResolvedSubrepoView,
    commit: CommitTreeInputView,
    log: Seq<ReplyView>,
    at: int,
) -> Step<Result<Option<Text>, ExportErrorView>> {
    match text_at(log, at) {
        None => Step::Ask(RequestView::CommitTree(commit)),
        Some(Err(err)) => Step::Done(Err(ExportErrorView::Git(err)), at + 1),
        Some(Ok(pub_sha)) => match publish_step(
            RequestView::PushRef {
                remote: subrepo.remote,
                sha: pub_sha,
                dst: branch_ref_text(subrepo.branch),
            },
            remote_ref_text(subrepo.name),
            pub_sha,
            log,
            at + 1,
        ) {
            Step::Ask(request) => Step::Ask(request),
            Step::Done(Err(err), at) => Step::Done(Err(ExportErrorView::Git(err)), at),
            Step::Done(Ok(_), at) => Step::Done(Ok(Some(pub_sha)), at),
        },
    }
}

/// The first public commit: the subrepo's current tree as one parentless commit. Returns
/// `None` when there is nothing publishable left after excludes and hooks.
pub fn publish_baseline<'a>(
    talk: &mut Talk<'a>,
    subrepo: &ResolvedSubrepo,
    mono_head: &str,
) -> (turn: Turn<Result<Option<String>, ExportError>>)
    ensures
        final(talk).replies == old(talk).replies,
        step_result(turn, final(talk).at) == publish_baseline_step(
            subrepo.deep_view(),
            mono_head@,
            old(talk).log(),
            old(talk).at as int,
        ),
{
    let subtree = match name_subtree(talk, mono_head, subrepo)? {
        Ok(Some(subtree)) => subtree,
        Ok(None) => return Ok(Ok(None)),
        Err(err) => return Ok(Err(ExportError::Filter(err))),
    };
    if subtree.tree == EMPTY_TREE.to_string() {
        return Ok(Ok(None));
    }
    let meta = match talk.commit() {
        None => return Err(Request::ReadCommit { rev: mono_head.to_string() }),
        Some(Err(err)) => return Ok(Err(ExportError::Git(err.clone()))),
        Some(Ok(meta)) => meta,
    };
    match write_subtree(talk, &subtree.content)? {
        Ok(_) => {},
        Err(err) => return Ok(Err(ExportError::Filter(err))),
    }
    let pub_sha = match talk.text() {
        None => {
            // A squashed baseline is not any one person's commit, so the committer identity
            // stands in for the author too: the monorepo author of HEAD did not write this
            // snapshot.
            let subject = "Initial import of ".to_string().concat(subrepo.name.as_str()).concat(
                "\n",
            );
            let parents: Vec<String> = Vec::new();
            assert(parents.deep_view() =~= Seq::<Text>::empty());
            return Err(
                Request::CommitTree(
                    CommitTreeInput {
                        tree: subtree.tree,
                        parents,
                        message: append_trailer(
                            subject.as_str(),
                            SOURCE_TRAILER,
                            meta.sha.as_str(),
                        ),
                        author_name: meta.committer_name.clone(),
                        author_email: meta.committer_email.clone(),
                        author_date: meta.committer_date.clone(),
                        committer_name: meta.committer_name.clone(),
                        committer_email: meta.committer_email.clone(),
                        committer_date: meta.committer_date.clone(),
                    },
                ),
            );
        },
        Some(Err(err)) => return Ok(Err(ExportError::Git(err.clone()))),
        Some(Ok(pub_sha)) => pub_sha,
    };
    let request = Request::PushRef {
        remote: subrepo.remote.clone(),
        sha: pub_sha.clone(),
        dst: branch_ref(subrepo.branch.as_str()),
    };
    match publish(
        talk,
        request,
        remote_tracking_ref(subrepo.name.as_str()).as_str(),
        pub_sha.as_str(),
    )? {
        Ok(_) => Ok(Ok(Some(pub_sha.clone()))),
        Err(err) => Ok(Err(ExportError::Git(err))),
    }
}

/// [`publish_full_history`] as a dialogue.
pub open spec fn publish_full_history_step(
    subrepo: ResolvedSubrepoView,
    mono_head: Text,
    log: Seq<ReplyView>,
    at: int,
) -> Step<Result<ExportResultView, ExportErrorView>> {
    match shas_at(log, at) {
        None => Step::Ask(touching_request(mono_head, subrepo.path)),
        Some(Err(err)) => Step::Done(Err(ExportErrorView::Git(err)), at + 1),
        Some(Ok(shas)) => run_export_step(
            subrepo,
            None,
            remote_ref_text(subrepo.name),
            candidates_of(shas),
            log,
            at + 1,
        ),
    }
}

/// First publish that replays every monorepo commit touching the path instead of squashing.
/// Goes through [`run_export`], so scan hooks run per replayed commit and a rejecting one aborts
/// before the single ref update: nothing partial ever reaches the remote.
pub fn publish_full_history<'a>(
    talk: &mut Talk<'a>,
    subrepo: &ResolvedSubrepo,
    mono_head: &str,
) -> (turn: Turn<Result<ExportResult, ExportError>>)
    ensures
        final(talk).replies == old(talk).replies,
        step_result(turn, final(talk).at) == publish_full_history_step(
            subrepo.deep_view(),
            mono_head@,
            old(talk).log(),
            old(talk).at as int,
        ),
{
    let shas = match talk.shas() {
        None => return Err(ask_touching(mono_head.to_string(), &subrepo.path)),
        Some(Err(err)) => return Ok(Err(ExportError::Git(err.clone()))),
        Some(Ok(shas)) => shas,
    };
    let mut candidates: Vec<ExportCandidate> = Vec::new();
    let ghost all = shas.deep_view();
    assert(candidates.deep_view() =~= candidates_of(all.take(0)));
    let mut i: usize = 0;
    while i < shas.len()
        invariant
            all == shas.deep_view(),
            i <= shas.len(),
            candidates.deep_view() == candidates_of(all.take(i as int)),
        decreases shas.len() - i,
    {
        push(&mut candidates, ExportCandidate { mono_sha: shas[i].clone() });
        proof {
            lemma_take_next(all, i as int);
            assert(candidates.deep_view() =~= candidates_of(all.take(i + 1)));
        }
        i = i + 1;
    }
    assert(all.take(i as int) =~= all);
    run_export(talk, subrepo, &unpublished_view(subrepo.name.as_str()), &candidates)
}

} // verus!
