//! Every sync cursor, derived from trailers on each run.
//!
//! There is no authoritative state file: the mapping between the monorepo and a public
//! repository lives entirely in `Monosplice-Source` / `Monosplice-Origin` trailers, and this
//! module derives it from scratch every time.

use vstd::hash_set::StringHashSet;
use vstd::prelude::*;
use vstd::string::*;
use crate::config::{ResolvedSubrepo, ResolvedSubrepoView};
use crate::filter::{anchor_subtree, anchor_subtree_step};
use crate::git::{clone_texts, GitError, GitErrorView};
use crate::index::{
    distinct, find, index_of, indexes, keyed, lemma_distinct, lemma_lookup_found,
    lemma_lookup_present, lemma_lookup_push, lookup, push_distinct, set_of, TextMap,
};
use crate::list::{lemma_filter_next, lemma_take_next, push};
use crate::talk::{
    acted_at, branch_at, rev_at, shas_at, step, step_result, text_at, trailers_at, ReplyView,
    Request, RequestView, Step, Talk, Turn,
};
use crate::text::{lines_of, split_lines, Text};
use crate::trailers::{ORIGIN_TRAILER, SOURCE_TRAILER};

verus! {

/// The name of [`remote_tracking_ref`].
pub open spec fn remote_ref_text(name: Text) -> Text {
    "refs/monosplice/"@ + name + "/remote"@
}

/// The name of [`fork_tracking_ref`].
pub open spec fn fork_ref_text(name: Text) -> Text {
    "refs/monosplice/"@ + name + "/fork"@
}

/// Where a subrepo's public branch is mirrored inside the monorepo's object db.
pub fn remote_tracking_ref(name: &str) -> (out: String)
    ensures
        out@ == remote_ref_text(name@),
{
    "refs/monosplice/".to_string().concat(name).concat("/remote")
}

/// Where the fork's push branch is mirrored (triangular mode only).
pub fn fork_tracking_ref(name: &str) -> (out: String)
    ensures
        out@ == fork_ref_text(name@),
{
    "refs/monosplice/".to_string().concat(name).concat("/fork")
}

impl ResolvedSubrepoView {
    /// The repository that updates come from.
    pub open spec fn source(self) -> Text {
        match self.upstream {
            Some(upstream) => upstream,
            None => self.remote,
        }
    }
}

/// The repository every sync decision is made against. With `upstream` configured that is
/// upstream and only upstream: the fork is a derived artifact that gets rebuilt, so consulting
/// it for imports or anchors would let our own exports masquerade as public history.
pub fn pull_source(s: &ResolvedSubrepo) -> (out: &str)
    ensures
        out@ == s.deep_view().source(),
{
    match &s.upstream {
        Some(upstream) => upstream.as_str(),
        None => s.remote.as_str(),
    }
}

/// Is this subrepo pulled from one repository and pushed to another?
pub fn is_triangular(s: &ResolvedSubrepo) -> (out: bool)
    ensures
        out == (s.deep_view().upstream is Some),
{
    s.upstream.is_some()
}

/// How much of the network a view may use.
#[derive(Debug, Clone, Copy)]
pub struct SyncViewOptions {
    /// Skip every fetch and derive the view from the remote-tracking refs already on disk.
    pub offline: bool,
}

impl Default for SyncViewOptions {
    fn default() -> (out: Self)
        ensures
            !out.offline,
    {
        SyncViewOptions { offline: false }
    }
}

/// Why a view could not be derived.
#[derive(Debug)]
pub enum SyncViewError {
    /// Offline, and this subrepo has never been fetched. There is no honest answer: an absent
    /// tracking ref is indistinguishable from a remote with no branch, so the caller reports
    /// the gap instead of guessing at counts.
    NoFetchYet { subrepo: String },
    Git(GitError),
}

/// The value of a [`SyncViewError`].
#[verifier::ext_equal]
pub enum SyncViewErrorView {
    NoFetchYet { subrepo: Text },
    Git(GitErrorView),
}

impl DeepView for SyncViewError {
    type V = SyncViewErrorView;

    open spec fn deep_view(&self) -> SyncViewErrorView {
        match self {
            SyncViewError::NoFetchYet { subrepo } => SyncViewErrorView::NoFetchYet {
                subrepo: subrepo.deep_view(),
            },
            SyncViewError::Git(err) => SyncViewErrorView::Git(err.deep_view()),
        }
    }
}

impl SyncViewErrorView {
    /// The error in words.
    pub open spec fn text(self) -> Text {
        match self {
            SyncViewErrorView::NoFetchYet { subrepo } => subrepo
                + ": no fetch yet — run without --offline first"@,
            SyncViewErrorView::Git(err) => err.text(),
        }
    }
}

impl SyncViewError {
    /// The error in words.
    pub fn to_string(&self) -> (out: String)
        ensures
            out@ == self.deep_view().text(),
    {
        match self {
            SyncViewError::NoFetchYet { subrepo } => subrepo.clone().concat(
                ": no fetch yet — run without --offline first",
            ),
            SyncViewError::Git(err) => err.to_string(),
        }
    }
}

impl From<GitError> for SyncViewError {
    fn from(err: GitError) -> (out: Self) {
        SyncViewError::Git(err)
    }
}

impl vstd::std_specs::convert::FromSpecImpl<GitError> for SyncViewError {
    open spec fn obeys_from_spec() -> bool {
        true
    }

    open spec fn from_spec(err: GitError) -> Self {
        SyncViewError::Git(err)
    }
}

/// What the fork's push branch looks like right now. Triangular mode only.
#[derive(Debug)]
pub struct ForkState {
    /// Fork branch head, or `None` when the fork does not have that branch yet.
    pub head: Option<String>,
}

/// The value of a [`ForkState`].
#[verifier::ext_equal]
pub struct ForkStateView {
    pub head: Option<Text>,
}

impl DeepView for ForkState {
    type V = ForkStateView;

    open spec fn deep_view(&self) -> ForkStateView {
        ForkStateView {
            head: self.head.deep_view(),
        }
    }
}

impl Clone for ForkState {
    fn clone(&self) -> (out: Self)
        ensures
            out.deep_view() == self.deep_view(),
    {
        ForkState {
            head: self.head.clone(),
        }
    }
}

/// A public commit claiming to export a monorepo commit that this clone does not have.
#[derive(Debug)]
pub struct BrokenSourceRef {
    pub pub_sha: String,
    pub mono_sha: String,
}

/// A public commit, and a monorepo commit that it claims to export.
#[verifier::ext_equal]
pub struct SourceRefView {
    pub pub_sha: Text,
    pub mono_sha: Text,
}

impl DeepView for BrokenSourceRef {
    type V = SourceRefView;

    open spec fn deep_view(&self) -> SourceRefView {
        SourceRefView {
            pub_sha: self.pub_sha.deep_view(),
            mono_sha: self.mono_sha.deep_view(),
        }
    }
}

impl Clone for BrokenSourceRef {
    fn clone(&self) -> (out: Self)
        ensures
            out.deep_view() == self.deep_view(),
    {
        BrokenSourceRef {
            pub_sha: self.pub_sha.clone(),
            mono_sha: self.mono_sha.clone(),
        }
    }
}

/// Everything that the two repositories say about each other.
pub struct SyncView {
    /// Local ref mirroring the public branch.
    pub tracking_ref: String,
    /// Public branch head, or `None` when the remote branch does not exist yet.
    pub pub_head: Option<String>,
    /// monorepo sha -> public sha, derived from `Monosplice-Source` trailers in pub history.
    pub exported_mono_to_pub: TextMap,
    /// Public shas already imported into the monorepo, from `Monosplice-Origin` trailers on
    /// HEAD. Each of them once.
    pub imported_pub_shas: Vec<String>,
    /// Monorepo sha, and the public shas that its `Monosplice-Origin` trailers name. Each
    /// monorepo sha once.
    pub origin_by_mono: Vec<(String, Vec<String>)>,
    /// Where the export scan starts: the newest commit on the HEAD walk that is either already
    /// exported (`Monosplice-Source` names it) or anchors the monorepo to the public branch
    /// (`Monosplice-Origin` naming pub head or one of its ancestors). Export scans
    /// `export_base..HEAD`; `None` means "scan all of HEAD" (nothing published yet).
    pub export_base: Option<String>,
    /// Newest monorepo commit that pub history claims to have exported and that still exists
    /// locally. Not the scan base: its job is rewrite detection. A commit that was rebased
    /// away lives on in the reflog but is absent from the HEAD walk, so `export_base` cannot
    /// see it.
    pub last_exported_mono: Option<String>,
    /// Public commits that are neither our exports nor already reflected (oldest first).
    pub unreflected_pub: Vec<String>,
    /// `Monosplice-Source` trailers naming monorepo commits this clone does not have, found on
    /// or above the newest public commit whose trailer *does* resolve. Nothing above the
    /// mapping's newest readable point can be checked, so export refuses while any exist.
    pub broken_source_refs: Vec<BrokenSourceRef>,
    /// The same, but *behind* the newest resolvable anchor: history, not the mapping.
    ///
    /// A rebase on one machine rewrites the sha an earlier export recorded, and every clone made
    /// afterwards is missing it forever. Once a newer public commit names a commit this clone
    /// has, that anchor decides what is published and the dead trailers below it can no longer
    /// change the answer: they are reported and never refused.
    pub superseded_source_refs: Vec<BrokenSourceRef>,
    /// Do the two repos know about each other at all? False means first contact: the public
    /// branch has history, but nothing on either side references the other, so the only safe
    /// move is `monosplice attach`.
    pub related: bool,
}

/// The value of a [`SyncView`].
#[verifier::ext_equal]
pub struct SyncViewValue {
    pub tracking_ref: Text,
    pub pub_head: Option<Text>,
    pub exported_mono_to_pub: Map<Text, Text>,
    pub imported_pub_shas: Seq<Text>,
    pub origin_by_mono: Seq<(Text, Seq<Text>)>,
    pub export_base: Option<Text>,
    pub last_exported_mono: Option<Text>,
    pub unreflected_pub: Seq<Text>,
    pub broken_source_refs: Seq<SourceRefView>,
    pub superseded_source_refs: Seq<SourceRefView>,
    pub related: bool,
}

impl DeepView for SyncView {
    type V = SyncViewValue;

    open spec fn deep_view(&self) -> SyncViewValue {
        SyncViewValue {
            tracking_ref: self.tracking_ref.deep_view(),
            pub_head: self.pub_head.deep_view(),
            exported_mono_to_pub: self.exported_mono_to_pub@,
            imported_pub_shas: self.imported_pub_shas.deep_view(),
            origin_by_mono: self.origin_by_mono.deep_view(),
            export_base: self.export_base.deep_view(),
            last_exported_mono: self.last_exported_mono.deep_view(),
            unreflected_pub: self.unreflected_pub.deep_view(),
            broken_source_refs: self.broken_source_refs.deep_view(),
            superseded_source_refs: self.superseded_source_refs.deep_view(),
            related: self.related,
        }
    }
}

impl Clone for SyncView {
    fn clone(&self) -> (out: Self)
        ensures
            out.deep_view() == self.deep_view(),
    {
        SyncView {
            tracking_ref: self.tracking_ref.clone(),
            pub_head: self.pub_head.clone(),
            exported_mono_to_pub: self.exported_mono_to_pub.clone(),
            imported_pub_shas: clone_texts(&self.imported_pub_shas),
            origin_by_mono: clone_trailers(&self.origin_by_mono),
            export_base: self.export_base.clone(),
            last_exported_mono: self.last_exported_mono.clone(),
            unreflected_pub: clone_texts(&self.unreflected_pub),
            broken_source_refs: clone_refs(&self.broken_source_refs),
            superseded_source_refs: clone_refs(&self.superseded_source_refs),
            related: self.related,
        }
    }
}

impl SyncViewValue {
    /// The view of a subrepo whose public branch does not exist yet.
    pub open spec fn unpublished(name: Text) -> SyncViewValue {
        SyncViewValue {
            tracking_ref: remote_ref_text(name),
            pub_head: None,
            exported_mono_to_pub: Map::empty(),
            imported_pub_shas: Seq::empty(),
            origin_by_mono: Seq::empty(),
            export_base: None,
            last_exported_mono: None,
            unreflected_pub: Seq::empty(),
            broken_source_refs: Seq::empty(),
            superseded_source_refs: Seq::empty(),
            related: false,
        }
    }
}

/// The view of a subrepo whose public branch does not exist yet.
pub fn unpublished_view(name: &str) -> (out: SyncView)
    ensures
        out.deep_view() == SyncViewValue::unpublished(name@),
{
    let out = SyncView {
        tracking_ref: remote_tracking_ref(name),
        pub_head: None,
        exported_mono_to_pub: TextMap::new(),
        imported_pub_shas: Vec::new(),
        origin_by_mono: Vec::new(),
        export_base: None,
        last_exported_mono: None,
        unreflected_pub: Vec::new(),
        broken_source_refs: Vec::new(),
        superseded_source_refs: Vec::new(),
        related: false,
    };
    out
}

/// [`load_fork_state`] as a dialogue.
pub open spec fn load_fork_state_step(
    s: ResolvedSubrepoView,
    offline: bool,
    log: Seq<ReplyView>,
    at: int,
) -> Step<Result<ForkStateView, GitErrorView>> {
    if offline {
        match rev_at(log, at) {
            None => Step::Ask(RequestView::RevParse { rev: fork_ref_text(s.name) }),
            Some(head) => Step::Done(Ok(ForkStateView { head }), at + 1),
        }
    } else {
        match branch_at(log, at) {
            None => Step::Ask(
                RequestView::LsRemoteBranch { remote: s.remote, branch: s.push_branch },
            ),
            Some(Err(err)) => Step::Done(Err(err), at + 1),
            Some(Ok(None)) => Step::Done(Ok(ForkStateView { head: None }), at + 1),
            Some(Ok(Some(head))) => match acted_at(log, at + 1) {
                None => Step::Ask(
                    RequestView::FetchBranch {
                        remote: s.remote,
                        branch: s.push_branch,
                        dst: fork_ref_text(s.name),
                    },
                ),
                Some(Err(err)) => Step::Done(Err(err), at + 2),
                Some(Ok(_)) => Step::Done(Ok(ForkStateView { head: Some(head) }), at + 2),
            },
        }
    }
}

/// Mirror the fork's push branch locally. The branch is looked up first, exactly as
/// [`load_sync_view`] does, so an unreachable fork raises a [`GitError`] the caller can
/// attribute to the fork rather than a fetch failure that reads like the branch is missing.
pub fn load_fork_state<'a>(
    talk: &mut Talk<'a>,
    s: &ResolvedSubrepo,
    opts: &SyncViewOptions,
) -> (turn: Turn<Result<ForkState, GitError>>)
    ensures
        final(talk).replies == old(talk).replies,
        step_result(turn, final(talk).at) == load_fork_state_step(
            s.deep_view(),
            opts.offline,
            old(talk).log(),
            old(talk).at as int,
        ),
{
    if opts.offline {
        return match talk.rev() {
            None => Err(Request::RevParse { rev: fork_tracking_ref(s.name.as_str()) }),
            Some(head) => Ok(Ok(ForkState { head: head.clone() })),
        };
    }
    let head = match talk.branch() {
        None => return Err(
            Request::LsRemoteBranch { remote: s.remote.clone(), branch: s.push_branch.clone() },
        ),
        Some(Err(err)) => return Ok(Err(err.clone())),
        Some(Ok(None)) => return Ok(Ok(ForkState { head: None })),
        Some(Ok(Some(head))) => head,
    };
    match talk.acted() {
        None => Err(
            Request::FetchBranch {
                remote: s.remote.clone(),
                branch: s.push_branch.clone(),
                dst: fork_tracking_ref(s.name.as_str()),
            },
        ),
        Some(Err(err)) => Ok(Err(err.clone())),
        Some(Ok(_)) => Ok(Ok(ForkState { head: Some(head.clone()) })),
    }
}

/// [`try_load_fork_state`] as a dialogue.
pub open spec fn try_load_fork_state_step(
    s: ResolvedSubrepoView,
    offline: bool,
    log: Seq<ReplyView>,
    at: int,
) -> Step<(Option<ForkStateView>, Option<GitErrorView>)> {
    match load_fork_state_step(s, offline, log, at) {
        Step::Ask(request) => Step::Ask(request),
        Step::Done(Ok(state), at) => Step::Done((Some(state), None), at),
        Step::Done(Err(err), at) => Step::Done((None, Some(err)), at),
    }
}

/// Fork state for reporting: an unreachable fork is a note, not a crash.
pub fn try_load_fork_state<'a>(
    talk: &mut Talk<'a>,
    s: &ResolvedSubrepo,
    opts: &SyncViewOptions,
) -> (turn: Turn<(Option<ForkState>, Option<GitError>)>)
    ensures
        final(talk).replies == old(talk).replies,
        step(turn, final(talk).at) == try_load_fork_state_step(
            s.deep_view(),
            opts.offline,
            old(talk).log(),
            old(talk).at as int,
        ),
{
    match load_fork_state(talk, s, opts)? {
        Ok(state) => Ok((Some(state), None)),
        Err(err) => Ok((None, Some(err))),
    }
}

/// A commit's tree, as git names it.
pub open spec fn tree_of_text(commit: Text) -> Text {
    commit + "^{tree}"@
}

/// Looking up the tree of a commit.
pub open spec fn commit_tree_request(commit: Text) -> RequestView {
    RequestView::Git { args: seq!["rev-parse"@, tree_of_text(commit)], input: None }
}

/// The request for the tree of a commit.
pub fn ask_commit_tree(commit: &str) -> (out: Request)
    ensures
        out.deep_view() == commit_tree_request(commit@),
{
    let tree_of = commit.to_string().concat("^{tree}");
    Request::Git { args: vec!["rev-parse".to_string(), tree_of], input: None }
}

/// [`reflects_exactly`] as a dialogue.
pub open spec fn reflects_exactly_step(
    s: ResolvedSubrepoView,
    hooks: bool,
    mono_sha: Text,
    pub_sha: Text,
    log: Seq<ReplyView>,
    at: int,
) -> Step<bool> {
    if !hooks && s.transform is Some {
        Step::Done(false, at)
    } else {
        match anchor_subtree_step(mono_sha, s, log, at) {
            Step::Ask(request) => Step::Ask(request),
            Step::Done(Ok(Some(mono_tree)), at) => match text_at(log, at) {
                None => Step::Ask(commit_tree_request(pub_sha)),
                Some(Ok(pub_tree)) => Step::Done(mono_tree == pub_tree, at + 1),
                Some(Err(_)) => Step::Done(false, at + 1),
            },
            Step::Done(_, at) => Step::Done(false, at),
        }
    }
}

/// Does this monorepo commit reproduce, exactly, the public commit it claims to reflect?
/// An attach anchor commit and a clean import do; a *conflicted* import and an import of a file
/// the config excludes do not: they carry work the public branch has never seen, so they
/// cannot be an export boundary.
///
/// The comparison runs through [`anchor_subtree`], so the `scan` hook is dropped: a scan that
/// rejects already-published content (a legacy secret, a hook tightened after the attach) must
/// not veto anchor detection. A vetoed anchor collapses `export_base` to "scan all of HEAD",
/// which exports every ancestor of the anchor again. If a `transform` cannot run, the commit
/// genuinely is not a boundary and `push` reports the failure on its own terms.
///
/// Where hooks must not run, a commit that a `transform` shapes cannot be compared, and what is
/// not known to match does not.
pub fn reflects_exactly<'a>(
    talk: &mut Talk<'a>,
    s: &ResolvedSubrepo,
    hooks: bool,
    mono_sha: &str,
    pub_sha: &str,
) -> (turn: Turn<bool>)
    ensures
        final(talk).replies == old(talk).replies,
        step(turn, final(talk).at) == reflects_exactly_step(
            s.deep_view(),
            hooks,
            mono_sha@,
            pub_sha@,
            old(talk).log(),
            old(talk).at as int,
        ),
{
    if !hooks && s.transform.is_some() {
        return Ok(false);
    }
    let mono_tree = match anchor_subtree(talk, mono_sha, s)? {
        Ok(Some(mono_tree)) => mono_tree,
        _ => return Ok(false),
    };
    match talk.text() {
        None => Err(ask_commit_tree(pub_sha)),
        Some(Ok(pub_tree)) => Ok(mono_tree == *pub_tree),
        Some(Err(_)) => Ok(false),
    }
}

/// What a commit's trailers name.
pub open spec fn values_of(pairs: Seq<(Text, Seq<Text>)>, sha: Text) -> Seq<Text> {
    match lookup(pairs, sha) {
        Some(values) => values,
        None => Seq::empty(),
    }
}

/// The public commits that one monorepo commit says it imported, from `j` on: does it
/// reproduce one of those that the public branch contains, and is there such a one at all?
pub open spec fn origins_anchor_step(
    s: ResolvedSubrepoView,
    hooks: bool,
    mono_sha: Text,
    origins: Seq<Text>,
    pub_ancestors: Seq<Text>,
    j: int,
    related: bool,
    log: Seq<ReplyView>,
    at: int,
) -> Step<(bool, bool)>
    decreases origins.len() - j,
{
    if j >= origins.len() {
        Step::Done((false, related), at)
    } else if !pub_ancestors.contains(origins[j]) {
        origins_anchor_step(s, hooks, mono_sha, origins, pub_ancestors, j + 1, related, log, at)
    } else {
        match reflects_exactly_step(s, hooks, mono_sha, origins[j], log, at) {
            Step::Ask(request) => Step::Ask(request),
            Step::Done(true, at) => Step::Done((true, true), at),
            Step::Done(false, at) => origins_anchor_step(
                s,
                hooks,
                mono_sha,
                origins,
                pub_ancestors,
                j + 1,
                true,
                log,
                at,
            ),
        }
    }
}

/// The walk of [`find_export_anchor`], from its commit `i` on.
pub open spec fn anchor_walk_step(
    s: ResolvedSubrepoView,
    hooks: bool,
    exported: Map<Text, Text>,
    origin_by_mono: Seq<(Text, Seq<Text>)>,
    pub_ancestors: Seq<Text>,
    walk: Seq<Text>,
    i: int,
    related: bool,
    log: Seq<ReplyView>,
    at: int,
) -> Step<(Option<Text>, bool)>
    decreases walk.len() - i,
{
    if i >= walk.len() {
        Step::Done((None, related), at)
    } else if exported.contains_key(walk[i]) {
        Step::Done((Some(walk[i]), true), at)
    } else {
        match origins_anchor_step(
            s,
            hooks,
            walk[i],
            values_of(origin_by_mono, walk[i]),
            pub_ancestors,
            0,
            related,
            log,
            at,
        ) {
            Step::Ask(request) => Step::Ask(request),
            Step::Done((true, _), at) => Step::Done((Some(walk[i]), true), at),
            Step::Done((false, related), at) => anchor_walk_step(
                s,
                hooks,
                exported,
                origin_by_mono,
                pub_ancestors,
                walk,
                i + 1,
                related,
                log,
                at,
            ),
        }
    }
}

/// [`find_export_anchor`] as a dialogue.
pub open spec fn find_export_anchor_step(
    s: ResolvedSubrepoView,
    hooks: bool,
    exported: Map<Text, Text>,
    origin_by_mono: Seq<(Text, Seq<Text>)>,
    pub_ancestors: Seq<Text>,
    log: Seq<ReplyView>,
    at: int,
) -> Step<Result<(Option<Text>, bool), GitErrorView>> {
    if exported.is_empty() && origin_by_mono.len() == 0 {
        Step::Done(Ok((None, false)), at)
    } else {
        match shas_at(log, at) {
            None => Step::Ask(RequestView::RevList { args: seq!["HEAD"@] }),
            Some(Err(err)) => Step::Done(Err(err), at + 1),
            Some(Ok(walk)) => match anchor_walk_step(
                s,
                hooks,
                exported,
                origin_by_mono,
                pub_ancestors,
                walk,
                0,
                !exported.is_empty(),
                log,
                at + 1,
            ) {
                Step::Ask(request) => Step::Ask(request),
                Step::Done(found, at) => Step::Done(Ok(found), at),
            },
        }
    }
}

fn origins_anchor<'a>(
    talk: &mut Talk<'a>,
    s: &ResolvedSubrepo,
    hooks: bool,
    mono_sha: &String,
    origins: &Vec<String>,
    pub_ancestors: &Vec<String>,
    ancestor_set: &StringHashSet,
    related: bool,
) -> (turn: Turn<(bool, bool)>)
    requires
        forall|t: Text| #[trigger]
            ancestor_set@.contains(t) == pub_ancestors.deep_view().contains(t),
    ensures
        final(talk).replies == old(talk).replies,
        step(turn, final(talk).at) == origins_anchor_step(
            s.deep_view(),
            hooks,
            mono_sha@,
            origins.deep_view(),
            pub_ancestors.deep_view(),
            0,
            related,
            old(talk).log(),
            old(talk).at as int,
        ),
{
    let ghost log = talk.log();
    let ghost start = talk.at as int;
    let mut found_related = related;
    let mut j: usize = 0;
    while j < origins.len()
        invariant
            j <= origins.len(),
            forall|t: Text| #[trigger]
                ancestor_set@.contains(t) == pub_ancestors.deep_view().contains(t),
            talk.replies == old(talk).replies,
            log == old(talk).log(),
            start == old(talk).at,
            origins_anchor_step(
                s.deep_view(),
                hooks,
                mono_sha@,
                origins.deep_view(),
                pub_ancestors.deep_view(),
                0,
                related,
                log,
                start,
            ) == origins_anchor_step(
                s.deep_view(),
                hooks,
                mono_sha@,
                origins.deep_view(),
                pub_ancestors.deep_view(),
                j as int,
                found_related,
                log,
                talk.at as int,
            ),
        decreases origins.len() - j,
    {
        assert(origins.deep_view()[j as int] == origins[j as int]@);
        if ancestor_set.contains(origins[j].as_str()) {
            if reflects_exactly(talk, s, hooks, mono_sha.as_str(), origins[j].as_str())? {
                return Ok((true, true));
            }
            found_related = true;
        }
        j = j + 1;
    }
    Ok((false, found_related))
}

fn anchor_walk<'a>(
    talk: &mut Talk<'a>,
    s: &ResolvedSubrepo,
    hooks: bool,
    exported_mono_to_pub: &TextMap,
    origin_by_mono: &Vec<(String, Vec<String>)>,
    pub_ancestors: &Vec<String>,
    walk: &Vec<String>,
    related: bool,
) -> (turn: Turn<(Option<String>, bool)>)
    ensures
        final(talk).replies == old(talk).replies,
        step(turn, final(talk).at) == anchor_walk_step(
            s.deep_view(),
            hooks,
            exported_mono_to_pub@,
            origin_by_mono.deep_view(),
            pub_ancestors.deep_view(),
            walk.deep_view(),
            0,
            related,
            old(talk).log(),
            old(talk).at as int,
        ),
{
    let ancestor_set = set_of(pub_ancestors);
    let index = index_of(origin_by_mono);
    let none: Vec<String> = Vec::new();
    assert(none.deep_view() =~= Seq::<Text>::empty());
    let ghost log = talk.log();
    let ghost start = talk.at as int;
    let mut found_related = related;
    let mut i: usize = 0;
    while i < walk.len()
        invariant
            i <= walk.len(),
            forall|t: Text| #[trigger]
                ancestor_set@.contains(t) == pub_ancestors.deep_view().contains(t),
            indexes(index, origin_by_mono),
            none.deep_view() == Seq::<Text>::empty(),
            talk.replies == old(talk).replies,
            log == old(talk).log(),
            start == old(talk).at,
            anchor_walk_step(
                s.deep_view(),
                hooks,
                exported_mono_to_pub@,
                origin_by_mono.deep_view(),
                pub_ancestors.deep_view(),
                walk.deep_view(),
                0,
                related,
                log,
                start,
            ) == anchor_walk_step(
                s.deep_view(),
                hooks,
                exported_mono_to_pub@,
                origin_by_mono.deep_view(),
                pub_ancestors.deep_view(),
                walk.deep_view(),
                i as int,
                found_related,
                log,
                talk.at as int,
            ),
        decreases walk.len() - i,
    {
        assert(walk.deep_view()[i as int] == walk[i as int]@);
        let mono_sha = &walk[i];
        if exported_mono_to_pub.contains_key(mono_sha.as_str()) {
            return Ok((Some(mono_sha.clone()), true));
        }
        let origins = match find(&index, origin_by_mono, mono_sha.as_str()) {
            Some(values) => values,
            None => &none,
        };
        let (found, now_related) = origins_anchor(
            talk,
            s,
            hooks,
            mono_sha,
            origins,
            pub_ancestors,
            &ancestor_set,
            found_related,
        )?;
        if found {
            return Ok((Some(mono_sha.clone()), true));
        }
        found_related = now_related;
        i = i + 1;
    }
    Ok((None, found_related))
}

/// Walk monorepo history from HEAD and stop at the first commit whose publishable subtree the
/// public branch already contains. Two ways to qualify: pub says it exported this commit
/// (`Monosplice-Source`), or the commit imported public work and reproduces it exactly
/// (`Monosplice-Origin`). The second is what stops a `push` right after an `attach` from
/// replaying the monorepo's entire pre-attach history onto the newly connected repo.
///
/// The second part of the result tells whether the two repositories refer to each other at all.
pub fn find_export_anchor<'a>(
    talk: &mut Talk<'a>,
    s: &ResolvedSubrepo,
    hooks: bool,
    exported_mono_to_pub: &TextMap,
    origin_by_mono: &Vec<(String, Vec<String>)>,
    pub_ancestors: &Vec<String>,
) -> (turn: Turn<Result<(Option<String>, bool), GitError>>)
    ensures
        final(talk).replies == old(talk).replies,
        step_result(turn, final(talk).at) == find_export_anchor_step(
            s.deep_view(),
            hooks,
            exported_mono_to_pub@,
            origin_by_mono.deep_view(),
            pub_ancestors.deep_view(),
            old(talk).log(),
            old(talk).at as int,
        ),
{
    if exported_mono_to_pub.is_empty() && origin_by_mono.len() == 0 {
        return Ok(Ok((None, false)));
    }
    let walk = match talk.shas() {
        None => return Err(Request::RevList { args: vec!["HEAD".to_string()] }),
        Some(Err(err)) => return Ok(Err(err.clone())),
        Some(Ok(walk)) => walk,
    };
    let related = !exported_mono_to_pub.is_empty();
    let found = anchor_walk(
        talk,
        s,
        hooks,
        exported_mono_to_pub,
        origin_by_mono,
        pub_ancestors,
        walk,
        related,
    )?;
    Ok(Ok(found))
}

/// The lines that leave commits, and everything below them, out of a walk.
pub open spec fn negations(shas: Seq<Text>) -> Text
    decreases shas.len(),
{
    if shas.len() == 0 {
        Seq::empty()
    } else {
        negations(shas.drop_last()) + "^"@ + shas.last() + "\n"@
    }
}

fn negation_lines(shas: &Vec<String>) -> (out: String)
    ensures
        out@ == negations(shas.deep_view()),
{
    let mut out = "".to_string();
    proof {
        reveal_strlit("");
        assert(out@ =~= Seq::empty());
    }
    let ghost all = shas.deep_view();
    let mut i: usize = 0;
    while i < shas.len()
        invariant
            all == shas.deep_view(),
            i <= shas.len(),
            out@ == negations(all.take(i as int)),
        decreases shas.len() - i,
    {
        proof {
            lemma_take_next(all, i as int);
            assert(all.take(i + 1).drop_last() =~= all.take(i as int));
        }
        out = out.concat("^").concat(shas[i].as_str()).concat("\n");
        i = i + 1;
    }
    assert(all.take(i as int) =~= all);
    out
}

/// The walk over the public commits that `reflected` does not cover, oldest first.
pub open spec fn pending_walk_request(tracking_ref: Text, reflected: Seq<Text>) -> RequestView {
    if reflected.len() == 0 {
        RequestView::Git { args: seq!["rev-list"@, "--reverse"@, tracking_ref], input: None }
    } else {
        RequestView::Git {
            args: seq!["rev-list"@, "--reverse"@, tracking_ref, "--stdin"@],
            input: Some(negations(reflected)),
        }
    }
}

/// The commits of a printed walk that carry no `Monosplice-Source` trailer.
pub open spec fn foreign_commits(out: Text, source_by_pub: Seq<(Text, Seq<Text>)>) -> Seq<Text> {
    if out.len() == 0 {
        Seq::empty()
    } else {
        lines_of(out).filter(|sha: Text| lookup(source_by_pub, sha) is None)
    }
}

/// [`find_unreflected_pub`] as a dialogue.
pub open spec fn find_unreflected_pub_step(
    tracking_ref: Text,
    imported_pub_shas: Seq<Text>,
    source_by_pub: Seq<(Text, Seq<Text>)>,
    log: Seq<ReplyView>,
    at: int,
) -> Step<Result<Seq<Text>, GitErrorView>> {
    match shas_at(log, at) {
        None => Step::Ask(RequestView::ExistingCommits { shas: imported_pub_shas }),
        Some(Err(err)) => Step::Done(Err(err), at + 1),
        Some(Ok(reflected)) => match text_at(log, at + 1) {
            None => Step::Ask(pending_walk_request(tracking_ref, reflected)),
            Some(Err(err)) => Step::Done(Err(err), at + 2),
            Some(Ok(out)) => Step::Done(Ok(foreign_commits(out, source_by_pub)), at + 2),
        },
    }
}

/// Public commits the monorepo has not seen. Ancestry, not per-commit bookkeeping: a shallow
/// snapshot `attach` records only the pub head as imported, and every ancestor of a reflected
/// commit is reflected by construction. Our own exports drop out by trailer.
pub fn find_unreflected_pub<'a>(
    talk: &mut Talk<'a>,
    tracking_ref: &str,
    imported_pub_shas: &Vec<String>,
    source_by_pub: &Vec<(String, Vec<String>)>,
) -> (turn: Turn<Result<Vec<String>, GitError>>)
    ensures
        final(talk).replies == old(talk).replies,
        step_result(turn, final(talk).at) == find_unreflected_pub_step(
            tracking_ref@,
            imported_pub_shas.deep_view(),
            source_by_pub.deep_view(),
            old(talk).log(),
            old(talk).at as int,
        ),
{
    // A forged or force-pushed-away Origin value would abort the whole walk, so only values
    // that resolve to a commit here are allowed to negate anything.
    let reflected = match talk.shas() {
        None => return Err(
            Request::ExistingCommits { shas: clone_texts(imported_pub_shas) },
        ),
        Some(Err(err)) => return Ok(Err(err.clone())),
        Some(Ok(reflected)) => reflected,
    };
    let out = match talk.text() {
        None => return Err(
            if reflected.len() == 0 {
                Request::Git {
                    args: vec![
                        "rev-list".to_string(),
                        "--reverse".to_string(),
                        tracking_ref.to_string(),
                    ],
                    input: None,
                }
            } else {
                // --stdin instead of argv: pub histories can carry thousands of reflected
                // commits.
                Request::Git {
                    args: vec![
                        "rev-list".to_string(),
                        "--reverse".to_string(),
                        tracking_ref.to_string(),
                        "--stdin".to_string(),
                    ],
                    input: Some(negation_lines(reflected)),
                }
            },
        ),
        Some(Err(err)) => return Ok(Err(err.clone())),
        Some(Ok(out)) => out,
    };
    if out.as_str().is_empty() {
        let none: Vec<String> = Vec::new();
        assert(none.deep_view() =~= Seq::<Text>::empty());
        return Ok(Ok(none));
    }
    let index = index_of(source_by_pub);
    let lines = split_lines(out.as_str());
    let ghost all = lines.deep_view();
    let ghost keep = |sha: Text| lookup(source_by_pub.deep_view(), sha) is None;
    let mut kept: Vec<String> = Vec::new();
    assert(all.take(0).filter(keep) =~= Seq::empty()) by {
        reveal(Seq::filter);
    }
    let mut i: usize = 0;
    while i < lines.len()
        invariant
            i <= lines.len(),
            all == lines.deep_view(),
            indexes(index, source_by_pub),
            keep == (|sha: Text| lookup(source_by_pub.deep_view(), sha) is None),
            kept.deep_view() == all.take(i as int).filter(keep),
        decreases lines.len() - i,
    {
        proof {
            lemma_filter_next(all, keep, i as int);
        }
        if find(&index, source_by_pub, lines[i].as_str()).is_none() {
            push(&mut kept, lines[i].clone());
        }
        i = i + 1;
    }
    assert(all.take(i as int) =~= all);
    Ok(Ok(kept))
}

/// Every claim on a walk to export a monorepo commit, in the order of the walk.
pub open spec fn claims(walk: Seq<Text>, source_by_pub: Seq<(Text, Seq<Text>)>) -> Seq<
    SourceRefView,
>
    decreases walk.len(),
{
    if walk.len() == 0 {
        Seq::empty()
    } else {
        claims(walk.drop_last(), source_by_pub) + claims_of(
            walk.last(),
            values_of(source_by_pub, walk.last()),
        )
    }
}

/// The claims of one public commit.
pub open spec fn claims_of(pub_sha: Text, mono_shas: Seq<Text>) -> Seq<SourceRefView> {
    mono_shas.map_values(|mono_sha: Text| SourceRefView { pub_sha, mono_sha })
}

/// The monorepo commits that are claimed.
pub open spec fn claimed(claims: Seq<SourceRefView>) -> Seq<Text> {
    claims.map_values(|claim: SourceRefView| claim.mono_sha)
}

/// Which public commit exports a monorepo commit: the first one on the walk that says so.
pub open spec fn exporter_of(claims: Seq<SourceRefView>, mono_sha: Text) -> Option<Text> {
    lookup(claims.map_values(|claim: SourceRefView| (claim.mono_sha, claim.pub_sha)), mono_sha)
}

/// The mapping that the claims add up to.
pub open spec fn exported_map(claims: Seq<SourceRefView>) -> Map<Text, Text> {
    Map::new(
        |mono_sha: Text| exporter_of(claims, mono_sha) is Some,
        |mono_sha: Text| exporter_of(claims, mono_sha)->0,
    )
}

/// Where the first claim stands that names a commit this clone has; past the end if none does.
pub open spec fn newest_live(claims: Seq<SourceRefView>, missing: Seq<Text>) -> int
    decreases claims.len(),
{
    if claims.len() == 0 || !missing.contains(claims[0].mono_sha) {
        0
    } else {
        newest_live(claims.drop_first(), missing) + 1
    }
}

/// The public commits on or above the newest one with a live claim; without one, all of them.
pub open spec fn unsettled_commits(claims: Seq<SourceRefView>, missing: Seq<Text>) -> Seq<Text> {
    let top = if newest_live(claims, missing) < claims.len() {
        claims.take(newest_live(claims, missing) + 1)
    } else {
        claims
    };
    top.map_values(|claim: SourceRefView| claim.pub_sha)
}

/// The dead claims of those commits.
pub open spec fn broken_refs(claims: Seq<SourceRefView>, missing: Seq<Text>) -> Seq<
    SourceRefView,
> {
    let unsettled = unsettled_commits(claims, missing);
    claims.filter(
        |claim: SourceRefView|
            missing.contains(claim.mono_sha) && unsettled.contains(claim.pub_sha),
    )
}

/// The commit that the first live claim names.
pub open spec fn last_exported(claims: Seq<SourceRefView>, missing: Seq<Text>) -> Option<Text> {
    if newest_live(claims, missing) < claims.len() {
        Some(claims[newest_live(claims, missing)].mono_sha)
    } else {
        None
    }
}

/// The dead claims of the commits behind them.
pub open spec fn superseded_refs(claims: Seq<SourceRefView>, missing: Seq<Text>) -> Seq<
    SourceRefView,
> {
    let unsettled = unsettled_commits(claims, missing);
    claims.filter(
        |claim: SourceRefView|
            missing.contains(claim.mono_sha) && !unsettled.contains(claim.pub_sha),
    )
}

/// The public commits that monorepo history says it imported, in the order of the walk.
pub open spec fn origin_values(origin_by_mono: Seq<(Text, Seq<Text>)>) -> Seq<Text>
    decreases origin_by_mono.len(),
{
    if origin_by_mono.len() == 0 {
        Seq::empty()
    } else {
        origin_values(origin_by_mono.drop_last()) + origin_by_mono.last().1
    }
}

/// The head of the public branch: on disk when offline, at its repository otherwise.
pub open spec fn pub_head_step(
    s: ResolvedSubrepoView,
    offline: bool,
    log: Seq<ReplyView>,
    at: int,
) -> Step<Result<Option<Text>, GitErrorView>> {
    if offline {
        match rev_at(log, at) {
            None => Step::Ask(RequestView::RevParse { rev: remote_ref_text(s.name) }),
            Some(head) => Step::Done(Ok(head), at + 1),
        }
    } else {
        match branch_at(log, at) {
            None => Step::Ask(
                RequestView::LsRemoteBranch { remote: s.source(), branch: s.branch },
            ),
            Some(head) => Step::Done(head, at + 1),
        }
    }
}

/// The imports that monorepo history records; none while there is no commit.
pub open spec fn origins_step(log: Seq<ReplyView>, at: int) -> Step<
    Result<Seq<(Text, Seq<Text>)>, GitErrorView>,
> {
    match rev_at(log, at) {
        None => Step::Ask(RequestView::RevParse { rev: "HEAD"@ }),
        Some(None) => Step::Done(Ok(Seq::empty()), at + 1),
        Some(Some(_)) => match trailers_at(log, at + 1) {
            None => Step::Ask(
                RequestView::TrailerValues { key: ORIGIN_TRAILER@, args: seq!["HEAD"@] },
            ),
            Some(Ok(origins)) => Step::Done(Ok(keyed(origins)), at + 2),
            Some(Err(err)) => Step::Done(Err(err), at + 2),
        },
    }
}

/// Mirroring the public branch, unless offline.
pub open spec fn fetch_step(
    s: ResolvedSubrepoView,
    offline: bool,
    log: Seq<ReplyView>,
    at: int,
) -> Step<Result<(), GitErrorView>> {
    if offline {
        Step::Done(Ok(()), at)
    } else {
        match acted_at(log, at) {
            None => Step::Ask(
                RequestView::FetchBranch {
                    remote: s.source(),
                    branch: s.branch,
                    dst: remote_ref_text(s.name),
                },
            ),
            Some(result) => Step::Done(result, at + 1),
        }
    }
}

/// The view of a public branch that is mirrored locally.
pub open spec fn published_view_step(
    s: ResolvedSubrepoView,
    hooks: bool,
    pub_head: Text,
    origins: Seq<(Text, Seq<Text>)>,
    log: Seq<ReplyView>,
    at: int,
) -> Step<Result<SyncViewValue, GitErrorView>> {
    let tracking_ref = remote_ref_text(s.name);
    let imported = distinct(origin_values(origins));
    match trailers_at(log, at) {
        None => Step::Ask(
            RequestView::TrailerValues { key: SOURCE_TRAILER@, args: seq![tracking_ref] },
        ),
        Some(Err(err)) => Step::Done(Err(err), at + 1),
        Some(Ok(source_by_pub)) => match shas_at(log, at + 1) {
            None => Step::Ask(RequestView::RevList { args: seq![tracking_ref] }),
            Some(Err(err)) => Step::Done(Err(err), at + 2),
            Some(Ok(walk)) => {
                let claims = claims(walk, source_by_pub);
                match shas_at(log, at + 2) {
                    None => Step::Ask(
                        RequestView::MissingObjects { shas: distinct(claimed(claims)) },
                    ),
                    Some(Err(err)) => Step::Done(Err(err), at + 3),
                    Some(Ok(missing)) => match find_export_anchor_step(
                        s,
                        hooks,
                        exported_map(claims),
                        origins,
                        walk,
                        log,
                        at + 3,
                    ) {
                        Step::Ask(request) => Step::Ask(request),
                        Step::Done(Err(err), at) => Step::Done(Err(err), at),
                        Step::Done(Ok((export_base, related)), at) => {
                            match find_unreflected_pub_step(
                                tracking_ref,
                                imported,
                                source_by_pub,
                                log,
                                at,
                            ) {
                                Step::Ask(request) => Step::Ask(request),
                                Step::Done(Err(err), at) => Step::Done(Err(err), at),
                                Step::Done(Ok(unreflected_pub), at) => Step::Done(
                                    Ok(
                                        SyncViewValue {
                                            tracking_ref,
                                            pub_head: Some(pub_head),
                                            exported_mono_to_pub: exported_map(claims),
                                            imported_pub_shas: imported,
                                            origin_by_mono: origins,
                                            export_base,
                                            last_exported_mono: last_exported(claims, missing),
                                            unreflected_pub,
                                            broken_source_refs: broken_refs(claims, missing),
                                            superseded_source_refs: superseded_refs(
                                                claims,
                                                missing,
                                            ),
                                            related,
                                        },
                                    ),
                                    at,
                                ),
                            }
                        },
                    },
                }
            },
        },
    }
}

/// [`load_sync_view`] as a dialogue.
pub open spec fn load_sync_view_step(
    s: ResolvedSubrepoView,
    offline: bool,
    log: Seq<ReplyView>,
    at: int,
) -> Step<Result<SyncViewValue, SyncViewErrorView>> {
    view_step(s, true, offline, log, at)
}

/// [`preview_sync_view`] as a dialogue.
pub open spec fn preview_sync_view_step(
    s: ResolvedSubrepoView,
    log: Seq<ReplyView>,
    at: int,
) -> Step<Result<SyncViewValue, SyncViewErrorView>> {
    view_step(s, false, false, log, at)
}

/// Deriving a view, with or without the `transform` hook to compare trees by.
pub open spec fn view_step(
    s: ResolvedSubrepoView,
    hooks: bool,
    offline: bool,
    log: Seq<ReplyView>,
    at: int,
) -> Step<Result<SyncViewValue, SyncViewErrorView>> {
    match pub_head_step(s, offline, log, at) {
        Step::Ask(request) => Step::Ask(request),
        Step::Done(Err(err), at) => Step::Done(Err(SyncViewErrorView::Git(err)), at),
        Step::Done(Ok(pub_head), at) => match origins_step(log, at) {
            Step::Ask(request) => Step::Ask(request),
            Step::Done(Err(err), at) => Step::Done(Err(SyncViewErrorView::Git(err)), at),
            Step::Done(Ok(origins), at) => match pub_head {
                None => if offline {
                    Step::Done(Err(SyncViewErrorView::NoFetchYet { subrepo: s.name }), at)
                } else {
                    Step::Done(
                        Ok(
                            SyncViewValue {
                                imported_pub_shas: distinct(origin_values(origins)),
                                origin_by_mono: origins,
                                ..SyncViewValue::unpublished(s.name)
                            },
                        ),
                        at,
                    )
                },
                Some(pub_head) => match fetch_step(s, offline, log, at) {
                    Step::Ask(request) => Step::Ask(request),
                    Step::Done(Err(err), at) => Step::Done(Err(SyncViewErrorView::Git(err)), at),
                    Step::Done(Ok(_), at) => match published_view_step(
                        s,
                        hooks,
                        pub_head,
                        origins,
                        log,
                        at,
                    ) {
                        Step::Ask(request) => Step::Ask(request),
                        Step::Done(Err(err), at) => Step::Done(
                            Err(SyncViewErrorView::Git(err)),
                            at,
                        ),
                        Step::Done(Ok(view), at) => Step::Done(Ok(view), at),
                    },
                },
            },
        },
    }
}

fn clone_trailers(pairs: &Vec<(String, Vec<String>)>) -> (out: Vec<(String, Vec<String>)>)
    ensures
        out.deep_view() == pairs.deep_view(),
{
    let mut out: Vec<(String, Vec<String>)> = Vec::new();
    let mut i: usize = 0;
    while i < pairs.len()
        invariant
            i <= pairs.len(),
            out.deep_view() == pairs.deep_view().take(i as int),
        decreases pairs.len() - i,
    {
        push(&mut out, (pairs[i].0.clone(), clone_texts(&pairs[i].1)));
        proof {
            lemma_take_next(pairs.deep_view(), i as int);
        }
        i = i + 1;
    }
    assert(pairs.deep_view().take(i as int) =~= pairs.deep_view());
    out
}

/// A copy of the pairs that decide, one for each key.
fn clone_keyed(pairs: &Vec<(String, Vec<String>)>) -> (out: Vec<(String, Vec<String>)>)
    ensures
        out.deep_view() == keyed(pairs.deep_view()),
{
    let mut out: Vec<(String, Vec<String>)> = Vec::new();
    let mut seen = StringHashSet::new();
    let ghost all = pairs.deep_view();
    let mut i: usize = 0;
    assert(out.deep_view() =~= keyed(all.take(0)));
    while i < pairs.len()
        invariant
            all == pairs.deep_view(),
            i <= pairs.len(),
            forall|key: Text| #[trigger]
                seen@.contains(key) == (lookup(out.deep_view(), key) is Some),
            out.deep_view() == keyed(all.take(i as int)),
        decreases pairs.len() - i,
    {
        let ghost before = out.deep_view();
        let ghost pair = pairs[i as int].deep_view();
        proof {
            lemma_take_next(all, i as int);
            assert(all.take(i + 1).drop_last() =~= all.take(i as int));
            assert(all[i as int] == pair);
        }
        if !seen.contains(pairs[i].0.as_str()) {
            seen.insert(pairs[i].0.clone());
            push(&mut out, (pairs[i].0.clone(), clone_texts(&pairs[i].1)));
            assert forall|key: Text| #[trigger]
                seen@.contains(key) == (lookup(out.deep_view(), key) is Some) by {
                lemma_lookup_push(before, pair, key);
            }
        }
        i = i + 1;
    }
    assert(all.take(i as int) =~= all);
    out
}

fn clone_refs(refs: &Vec<BrokenSourceRef>) -> (out: Vec<BrokenSourceRef>)
    ensures
        out.deep_view() == refs.deep_view(),
{
    let mut out: Vec<BrokenSourceRef> = Vec::new();
    let mut i: usize = 0;
    while i < refs.len()
        invariant
            i <= refs.len(),
            out.deep_view() == refs.deep_view().take(i as int),
        decreases refs.len() - i,
    {
        push(&mut out, refs[i].clone());
        proof {
            lemma_take_next(refs.deep_view(), i as int);
        }
        i = i + 1;
    }
    assert(refs.deep_view().take(i as int) =~= refs.deep_view());
    out
}

fn distinct_origins(origin_by_mono: &Vec<(String, Vec<String>)>) -> (out: Vec<String>)
    ensures
        out.deep_view() == distinct(origin_values(origin_by_mono.deep_view())),
{
    let mut out: Vec<String> = Vec::new();
    let mut seen = StringHashSet::new();
    let ghost all = origin_by_mono.deep_view();
    let mut i: usize = 0;
    assert(out.deep_view() =~= Seq::<Text>::empty());
    while i < origin_by_mono.len()
        invariant
            all == origin_by_mono.deep_view(),
            i <= origin_by_mono.len(),
            forall|t: Text| #[trigger] seen@.contains(t) == out.deep_view().contains(t),
            out.deep_view() == distinct(origin_values(all.take(i as int))),
        decreases origin_by_mono.len() - i,
    {
        let values = &origin_by_mono[i].1;
        let ghost before = origin_values(all.take(i as int));
        let ghost added = values.deep_view();
        let mut j: usize = 0;
        assert(before + added.take(0) =~= before);
        while j < values.len()
            invariant
                added == values.deep_view(),
                j <= values.len(),
                forall|t: Text| #[trigger] seen@.contains(t) == out.deep_view().contains(t),
                out.deep_view() == distinct(before + added.take(j as int)),
            decreases values.len() - j,
        {
            proof {
                lemma_take_next(added, j as int);
                let next = before + added.take(j + 1);
                assert(next.drop_last() =~= before + added.take(j as int));
                assert(next.last() == added[j as int]);
            }
            push_distinct(&mut out, &mut seen, &values[j]);
            j = j + 1;
        }
        proof {
            assert(added.take(j as int) =~= added);
            lemma_take_next(all, i as int);
            assert(all.take(i + 1).drop_last() =~= all.take(i as int));
            assert(all[i as int] == origin_by_mono[i as int].deep_view());
        }
        i = i + 1;
    }
    assert(all.take(i as int) =~= all);
    out
}

fn collect_claims(walk: &Vec<String>, source_by_pub: &Vec<(String, Vec<String>)>) -> (out: Vec<
    BrokenSourceRef,
>)
    ensures
        out.deep_view() == claims(walk.deep_view(), source_by_pub.deep_view()),
{
    let index = index_of(source_by_pub);
    let mut out: Vec<BrokenSourceRef> = Vec::new();
    let ghost all = walk.deep_view();
    let ghost source = source_by_pub.deep_view();
    let mut i: usize = 0;
    assert(out.deep_view() =~= Seq::<SourceRefView>::empty());
    while i < walk.len()
        invariant
            all == walk.deep_view(),
            source == source_by_pub.deep_view(),
            indexes(index, source_by_pub),
            i <= walk.len(),
            out.deep_view() == claims(all.take(i as int), source),
        decreases walk.len() - i,
    {
        let ghost before = out.deep_view();
        proof {
            lemma_take_next(all, i as int);
            assert(all.take(i + 1).drop_last() =~= all.take(i as int));
        }
        match find(&index, source_by_pub, walk[i].as_str()) {
            None => {
                assert(claims_of(all[i as int], Seq::empty()) =~= Seq::empty());
                assert(before + Seq::<SourceRefView>::empty() =~= before);
            },
            Some(values) => {
                let ghost added = values.deep_view();
                let mut j: usize = 0;
                assert(before + claims_of(all[i as int], added.take(0)) =~= before);
                while j < values.len()
                    invariant
                        all == walk.deep_view(),
                        i < walk.len(),
                        added == values.deep_view(),
                        j <= values.len(),
                        out.deep_view() == before + claims_of(
                            all[i as int],
                            added.take(j as int),
                        ),
                    decreases values.len() - j,
                {
                    push(
                        &mut out,
                        BrokenSourceRef { pub_sha: walk[i].clone(), mono_sha: values[j].clone() },
                    );
                    proof {
                        lemma_take_next(added, j as int);
                        assert(claims_of(all[i as int], added.take(j + 1)) =~= claims_of(
                            all[i as int],
                            added.take(j as int),
                        ).push(
                            SourceRefView { pub_sha: all[i as int], mono_sha: added[j as int] },
                        ));
                    }
                    j = j + 1;
                }
                assert(added.take(j as int) =~= added);
            },
        }
        i = i + 1;
    }
    assert(all.take(i as int) =~= all);
    out
}

/// A commit is in the mapping exactly when it is claimed.
pub proof fn lemma_mapped_iff_claimed(claims: Seq<SourceRefView>, mono_sha: Text)
    ensures
        exported_map(claims).contains_key(mono_sha) == claimed(claims).contains(mono_sha),
{
    let pairs = claims.map_values(|claim: SourceRefView| (claim.mono_sha, claim.pub_sha));
    if lookup(pairs, mono_sha) is Some {
        let i = lemma_lookup_found(pairs, mono_sha);
        assert(claimed(claims)[i] == mono_sha);
    }
    if claimed(claims).contains(mono_sha) {
        let i = choose|i: int| 0 <= i < claims.len() && claimed(claims)[i] == mono_sha;
        assert(pairs[i].0 == mono_sha);
        lemma_lookup_present(pairs, i);
    }
}

fn map_claims(claims: &Vec<BrokenSourceRef>) -> (out: (TextMap, Vec<String>))
    ensures
        out.0@ == exported_map(claims.deep_view()),
        out.1.deep_view() == distinct(claimed(claims.deep_view())),
{
    let mut map = TextMap::new();
    let mut order: Vec<String> = Vec::new();
    let ghost all = claims.deep_view();
    let mut i: usize = 0;
    assert(map@ =~= exported_map(all.take(0)));
    assert(order.deep_view() =~= distinct(claimed(all.take(0))));
    while i < claims.len()
        invariant
            all == claims.deep_view(),
            i <= claims.len(),
            map@ == exported_map(all.take(i as int)),
            order.deep_view() == distinct(claimed(all.take(i as int))),
        decreases claims.len() - i,
    {
        let claim = &claims[i];
        let ghost before = all.take(i as int);
        proof {
            lemma_take_next(all, i as int);
            assert(all[i as int] == claim.deep_view());
            lemma_claims_push(before, claim.deep_view());
            lemma_mapped_iff_claimed(before, claim.mono_sha@);
            lemma_distinct(claimed(before));
            assert(claimed(before.push(claim.deep_view())).drop_last() =~= claimed(before));
        }
        if !map.contains_key(claim.mono_sha.as_str()) {
            map.insert(claim.mono_sha.clone(), claim.pub_sha.clone());
            push(&mut order, claim.mono_sha.clone());
        }
        i = i + 1;
    }
    assert(all.take(i as int) =~= all);
    (map, order)
}

/// A later claim maps only what no earlier one does.
pub proof fn lemma_claims_push(claims: Seq<SourceRefView>, last: SourceRefView)
    ensures
        exported_map(claims.push(last)) == if exported_map(claims).contains_key(last.mono_sha) {
            exported_map(claims)
        } else {
            exported_map(claims).insert(last.mono_sha, last.pub_sha)
        },
{
    let pair = |claim: SourceRefView| (claim.mono_sha, claim.pub_sha);
    let pairs = claims.map_values(pair);
    assert(claims.push(last).map_values(pair) =~= pairs.push(pair(last)));
    assert forall|mono_sha: Text| #[trigger]
        exporter_of(claims.push(last), mono_sha) == match exporter_of(claims, mono_sha) {
            Some(pub_sha) => Some(pub_sha),
            None => if last.mono_sha == mono_sha {
                Some(last.pub_sha)
            } else {
                None
            },
        } by {
        lemma_lookup_push(pairs, pair(last), mono_sha);
    }
    let mapped = if exported_map(claims).contains_key(last.mono_sha) {
        exported_map(claims)
    } else {
        exported_map(claims).insert(last.mono_sha, last.pub_sha)
    };
    assert forall|mono_sha: Text|
        #![auto]
        exported_map(claims.push(last)).contains_key(mono_sha) == mapped.contains_key(mono_sha)
            && (mapped.contains_key(mono_sha) ==> exported_map(claims.push(last))[mono_sha]
            == mapped[mono_sha]) by {
        assert(exporter_of(claims.push(last), mono_sha) is Some == (exporter_of(claims, mono_sha)
            is Some || last.mono_sha == mono_sha));
    }
    assert(exported_map(claims.push(last)) =~= mapped);
}

/// Before the first live claim every claim is dead, and that one is live.
pub proof fn lemma_newest_live(claims: Seq<SourceRefView>, missing: Seq<Text>)
    ensures
        0 <= newest_live(claims, missing) <= claims.len(),
        forall|i: int|
            0 <= i < newest_live(claims, missing) ==> missing.contains(
                (#[trigger] claims[i]).mono_sha,
            ),
        newest_live(claims, missing) < claims.len() ==> !missing.contains(
            claims[newest_live(claims, missing)].mono_sha,
        ),
    decreases claims.len(),
{
    if claims.len() > 0 && missing.contains(claims[0].mono_sha) {
        let rest = claims.drop_first();
        lemma_newest_live(rest, missing);
        assert forall|i: int| 0 <= i < newest_live(claims, missing) implies missing.contains(
            (#[trigger] claims[i]).mono_sha,
        ) by {
            if i > 0 {
                assert(rest[i - 1] == claims[i]);
            }
        }
    }
}

fn split_claims(claims: &Vec<BrokenSourceRef>, missing: &Vec<String>) -> (out: (
    Vec<BrokenSourceRef>,
    Option<String>,
    Vec<BrokenSourceRef>,
))
    ensures
        out.0.deep_view() == broken_refs(claims.deep_view(), missing.deep_view()),
        out.1.deep_view() == last_exported(claims.deep_view(), missing.deep_view()),
        out.2.deep_view() == superseded_refs(claims.deep_view(), missing.deep_view()),
{
    let missing_set = set_of(missing);
    let ghost all = claims.deep_view();
    let ghost gone = missing.deep_view();
    let ghost pub_of = |claim: SourceRefView| claim.pub_sha;

    // Newest first, down to the newest trailer that resolves: its commit is where the mapping is
    // still readable, and everything below it is already published by construction.
    let mut unsettled: Vec<String> = Vec::new();
    let mut i: usize = 0;
    assert(all.skip(0) =~= all);
    assert(unsettled.deep_view() =~= all.take(0).map_values(pub_of));
    while i < claims.len() && missing_set.contains(claims[i].mono_sha.as_str())
        invariant
            all == claims.deep_view(),
            gone == missing.deep_view(),
            pub_of == (|claim: SourceRefView| claim.pub_sha),
            forall|t: Text| #[trigger] missing_set@.contains(t) == gone.contains(t),
            i <= claims.len(),
            newest_live(all, gone) == i + newest_live(all.skip(i as int), gone),
            unsettled.deep_view() == all.take(i as int).map_values(pub_of),
        decreases claims.len() - i,
    {
        proof {
            assert(all[i as int] == claims[i as int].deep_view());
            assert(all.skip(i as int).drop_first() =~= all.skip(i + 1));
            lemma_take_next(all, i as int);
        }
        push(&mut unsettled, claims[i].pub_sha.clone());
        assert(unsettled.deep_view() =~= all.take(i + 1).map_values(pub_of));
        i = i + 1;
    }
    proof {
        if i < claims.len() {
            assert(all[i as int] == claims[i as int].deep_view());
            assert(all.skip(i as int)[0] == all[i as int]);
            lemma_take_next(all, i as int);
        } else {
            assert(all.take(i as int) =~= all);
        }
        assert(newest_live(all.skip(i as int), gone) == 0);
    }
    let last = if i < claims.len() {
        push(&mut unsettled, claims[i].pub_sha.clone());
        assert(unsettled.deep_view() =~= all.take(i + 1).map_values(pub_of));
        Some(claims[i].mono_sha.clone())
    } else {
        None
    };
    assert(unsettled.deep_view() == unsettled_commits(all, gone));

    // A dead trailer on one of these commits leaves public history whose provenance cannot be
    // checked at all: that is the broken mapping. A dead trailer behind them is the fossil of a
    // rewrite that a later export already superseded.
    let unsettled_set = set_of(&unsettled);
    let ghost top = unsettled.deep_view();
    let ghost is_broken = |claim: SourceRefView|
        gone.contains(claim.mono_sha) && top.contains(claim.pub_sha);
    let ghost is_superseded = |claim: SourceRefView|
        gone.contains(claim.mono_sha) && !top.contains(claim.pub_sha);
    let mut broken: Vec<BrokenSourceRef> = Vec::new();
    let mut superseded: Vec<BrokenSourceRef> = Vec::new();
    assert(all.take(0).filter(is_broken) =~= Seq::empty() && all.take(0).filter(is_superseded)
        =~= Seq::empty()) by {
        reveal(Seq::filter);
    }
    let mut j: usize = 0;
    while j < claims.len()
        invariant
            all == claims.deep_view(),
            forall|t: Text| #[trigger] missing_set@.contains(t) == gone.contains(t),
            forall|t: Text| #[trigger] unsettled_set@.contains(t) == top.contains(t),
            is_broken == (|claim: SourceRefView|
                gone.contains(claim.mono_sha) && top.contains(claim.pub_sha)),
            is_superseded == (|claim: SourceRefView|
                gone.contains(claim.mono_sha) && !top.contains(claim.pub_sha)),
            j <= claims.len(),
            broken.deep_view() == all.take(j as int).filter(is_broken),
            superseded.deep_view() == all.take(j as int).filter(is_superseded),
        decreases claims.len() - j,
    {
        proof {
            lemma_filter_next(all, is_broken, j as int);
            lemma_filter_next(all, is_superseded, j as int);
            assert(all[j as int] == claims[j as int].deep_view());
        }
        if missing_set.contains(claims[j].mono_sha.as_str()) {
            if unsettled_set.contains(claims[j].pub_sha.as_str()) {
                push(&mut broken, claims[j].clone());
            } else {
                push(&mut superseded, claims[j].clone());
            }
        }
        j = j + 1;
    }
    assert(all.take(j as int) =~= all);
    (broken, last, superseded)
}

fn load_pub_head<'a>(talk: &mut Talk<'a>, s: &ResolvedSubrepo, offline: bool) -> (turn: Turn<
    Result<Option<String>, GitError>,
>)
    ensures
        final(talk).replies == old(talk).replies,
        step_result(turn, final(talk).at) == pub_head_step(
            s.deep_view(),
            offline,
            old(talk).log(),
            old(talk).at as int,
        ),
{
    if offline {
        return match talk.rev() {
            None => Err(Request::RevParse { rev: remote_tracking_ref(s.name.as_str()) }),
            Some(head) => Ok(Ok(head.clone())),
        };
    }
    match talk.branch() {
        None => Err(
            Request::LsRemoteBranch {
                remote: pull_source(s).to_string(),
                branch: s.branch.clone(),
            },
        ),
        Some(Ok(head)) => Ok(Ok(head.clone())),
        Some(Err(err)) => Ok(Err(err.clone())),
    }
}

fn load_origins<'a>(talk: &mut Talk<'a>) -> (turn: Turn<
    Result<Vec<(String, Vec<String>)>, GitError>,
>)
    ensures
        final(talk).replies == old(talk).replies,
        step_result(turn, final(talk).at) == origins_step(old(talk).log(), old(talk).at as int),
{
    match talk.rev() {
        None => return Err(Request::RevParse { rev: "HEAD".to_string() }),
        Some(None) => {
            let none: Vec<(String, Vec<String>)> = Vec::new();
            assert(none.deep_view() =~= Seq::<(Text, Seq<Text>)>::empty());
            return Ok(Ok(none));
        },
        Some(Some(_)) => {},
    }
    match talk.trailers() {
        None => Err(
            Request::TrailerValues {
                key: ORIGIN_TRAILER.to_string(),
                args: vec!["HEAD".to_string()],
            },
        ),
        Some(Ok(origins)) => Ok(Ok(clone_keyed(origins))),
        Some(Err(err)) => Ok(Err(err.clone())),
    }
}

fn fetch<'a>(talk: &mut Talk<'a>, s: &ResolvedSubrepo, offline: bool) -> (turn: Turn<
    Result<(), GitError>,
>)
    ensures
        final(talk).replies == old(talk).replies,
        step_result(turn, final(talk).at) == fetch_step(
            s.deep_view(),
            offline,
            old(talk).log(),
            old(talk).at as int,
        ),
{
    if offline {
        return Ok(Ok(()));
    }
    match talk.acted() {
        None => Err(
            Request::FetchBranch {
                remote: pull_source(s).to_string(),
                branch: s.branch.clone(),
                dst: remote_tracking_ref(s.name.as_str()),
            },
        ),
        Some(Ok(_)) => Ok(Ok(())),
        Some(Err(err)) => Ok(Err(err.clone())),
    }
}

fn published_view<'a>(
    talk: &mut Talk<'a>,
    s: &ResolvedSubrepo,
    hooks: bool,
    pub_head: String,
    origin_by_mono: Vec<(String, Vec<String>)>,
) -> (turn: Turn<Result<SyncView, GitError>>)
    ensures
        final(talk).replies == old(talk).replies,
        step_result(turn, final(talk).at) == published_view_step(
            s.deep_view(),
            hooks,
            pub_head@,
            origin_by_mono.deep_view(),
            old(talk).log(),
            old(talk).at as int,
        ),
{
    let tracking_ref = remote_tracking_ref(s.name.as_str());
    let imported_pub_shas = distinct_origins(&origin_by_mono);
    let source_by_pub = match talk.trailers() {
        None => return Err(
            Request::TrailerValues { key: SOURCE_TRAILER.to_string(), args: vec![tracking_ref] },
        ),
        Some(Err(err)) => return Ok(Err(err.clone())),
        Some(Ok(source_by_pub)) => source_by_pub,
    };

    // The pub walk drives both the mapping and the broken-ref scan. Newest first, so the
    // newest public commit claiming a monorepo commit is the one the mapping records.
    let pub_walk = match talk.shas() {
        None => return Err(Request::RevList { args: vec![tracking_ref] }),
        Some(Err(err)) => return Ok(Err(err.clone())),
        Some(Ok(walk)) => walk,
    };
    let claims = collect_claims(pub_walk, source_by_pub);
    let (exported_mono_to_pub, exported_mono_order) = map_claims(&claims);
    let missing = match talk.shas() {
        None => return Err(Request::MissingObjects { shas: exported_mono_order }),
        Some(Err(err)) => return Ok(Err(err.clone())),
        Some(Ok(missing)) => missing,
    };
    let (broken_source_refs, last_exported_mono, superseded_source_refs) = split_claims(
        &claims,
        missing,
    );
    let (export_base, related) = match find_export_anchor(
        talk,
        s,
        hooks,
        &exported_mono_to_pub,
        &origin_by_mono,
        pub_walk,
    )? {
        Ok(found) => found,
        Err(err) => return Ok(Err(err)),
    };
    let unreflected_pub = match find_unreflected_pub(
        talk,
        tracking_ref.as_str(),
        &imported_pub_shas,
        source_by_pub,
    )? {
        Ok(unreflected_pub) => unreflected_pub,
        Err(err) => return Ok(Err(err)),
    };
    Ok(
        Ok(
            SyncView {
                tracking_ref,
                pub_head: Some(pub_head),
                exported_mono_to_pub,
                imported_pub_shas,
                origin_by_mono,
                export_base,
                last_exported_mono,
                unreflected_pub,
                broken_source_refs,
                superseded_source_refs,
                related,
            },
        ),
    )
}

fn derive_view<'a>(
    talk: &mut Talk<'a>,
    s: &ResolvedSubrepo,
    hooks: bool,
    offline: bool,
) -> (turn: Turn<Result<SyncView, SyncViewError>>)
    ensures
        final(talk).replies == old(talk).replies,
        step_result(turn, final(talk).at) == view_step(
            s.deep_view(),
            hooks,
            offline,
            old(talk).log(),
            old(talk).at as int,
        ),
{
    let pub_head = match load_pub_head(talk, s, offline)? {
        Ok(pub_head) => pub_head,
        Err(err) => return Ok(Err(SyncViewError::Git(err))),
    };
    let origin_by_mono = match load_origins(talk)? {
        Ok(origin_by_mono) => origin_by_mono,
        Err(err) => return Ok(Err(SyncViewError::Git(err))),
    };
    let pub_head = match pub_head {
        Some(pub_head) => pub_head,
        None => {
            if offline {
                return Ok(Err(SyncViewError::NoFetchYet { subrepo: s.name.clone() }));
            }
            let mut view = unpublished_view(s.name.as_str());
            view.imported_pub_shas = distinct_origins(&origin_by_mono);
            view.origin_by_mono = origin_by_mono;
            return Ok(Ok(view));
        },
    };
    match fetch(talk, s, offline)? {
        Ok(_) => {},
        Err(err) => return Ok(Err(SyncViewError::Git(err))),
    }
    match published_view(talk, s, hooks, pub_head, origin_by_mono)? {
        Ok(view) => Ok(Ok(view)),
        Err(err) => Ok(Err(SyncViewError::Git(err))),
    }
}

/// Derive every sync cursor from trailers. There is no state file: this runs on each
/// invocation. The remote branch is looked up first so an unreachable remote fails with a
/// [`GitError`] carrying git's own stderr, and a missing branch is reported as "not published
/// yet" rather than as a confusing fetch failure.
pub fn load_sync_view<'a>(
    talk: &mut Talk<'a>,
    s: &ResolvedSubrepo,
    opts: &SyncViewOptions,
) -> (turn: Turn<Result<SyncView, SyncViewError>>)
    ensures
        final(talk).replies == old(talk).replies,
        step_result(turn, final(talk).at) == load_sync_view_step(
            s.deep_view(),
            opts.offline,
            old(talk).log(),
            old(talk).at as int,
        ),
{
    derive_view(talk, s, true, opts.offline)
}

/// The view as a preview can have it: no hook runs, so where a `transform` is configured an
/// import is never seen to reproduce what it imported, and the export scan starts no later than
/// it would otherwise.
pub fn preview_sync_view<'a>(talk: &mut Talk<'a>, s: &ResolvedSubrepo) -> (turn: Turn<
    Result<SyncView, SyncViewError>,
>)
    ensures
        final(talk).replies == old(talk).replies,
        step_result(turn, final(talk).at) == preview_sync_view_step(
            s.deep_view(),
            old(talk).log(),
            old(talk).at as int,
        ),
{
    derive_view(talk, s, false, false)
}

} // verus!
