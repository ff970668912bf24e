//! How a decision talks to the outside.
//!
//! A decision that needs git, a hook or a terminal is written as a function of the replies that
//! it has received so far. It reads them in order, and where it needs one more it stops and
//! hands out the [`Request`] for it. Whoever runs it performs the request, appends the reply to
//! the list and calls the function again, until it finishes:
//!
//! ```text
//! let mut replies = Vec::new();
//! loop {
//!     let mut talk = Talk::new(&replies);
//!     match decide(&mut talk, ..) {
//!         Ok(value) => return value,
//!         Err(request) => replies.push(perform(request)),
//!     }
//! }
//! ```
//!
//! So nothing in here does any work of its own: which request comes next, and what the replies
//! add up to, is fixed by the replies alone, and that is what the contracts state. Each
//! procedure has a specification whose name ends in `_step`: from the replies and the position
//! of the first unread one to the next [`Step`].

use vstd::prelude::*;
use vstd::string::*;
use crate::config::{ResolvedSubrepo, ResolvedSubrepoView};
use crate::git::{
    CommitMeta, CommitMetaView, CommitTreeInput, CommitTreeInputView, GitError, GitErrorView,
    TreeEntry, TreeEntryView,
};
use crate::hooks::{HookError, HookErrorView, OutgoingTree, OutgoingTreeView};
use crate::importer::{ImportError, ImportErrorView, PullSequencer, PullSequencerView};
use crate::list::result_view;
use crate::report::{Failure, FailureView, SubrepoFailure, SubrepoFailureView};
use crate::text::Text;

verus! {

/// What a decision asks for.
#[derive(Debug)]
pub enum Request {
    /// Run git and hand back its standard output, without the newline at its end.
    Git { args: Vec<String>, input: Option<String> },
    /// Run git and tell whether it exited with success.
    GitOk { args: Vec<String> },
    /// The commits that `git rev-list` names.
    RevList { args: Vec<String> },
    /// The commit that `rev` names, if it names one.
    RevParse { rev: String },
    /// The head of a branch of another repository.
    LsRemoteBranch { remote: String, branch: String },
    /// Mirror a branch of another repository at the local ref `dst`.
    FetchBranch { remote: String, branch: String, dst: String },
    /// The values of one trailer, by commit, over a walk.
    TrailerValues { key: String, args: Vec<String> },
    /// The files below a tree, with their paths.
    LsTree { treeish: String },
    /// Message and identities of a commit.
    ReadCommit { rev: String },
    /// Write a commit object.
    CommitTree(CommitTreeInput),
    /// The sha that the tree over a list of files has. Nothing is written.
    NameTree { entries: Vec<TreeEntry> },
    /// Write the tree objects for a list of files.
    BuildTree { entries: Vec<TreeEntry> },
    /// Set the ref `dst` of another repository, forwards only.
    PushRef { remote: String, sha: String, dst: String },
    /// Replace the ref `dst` of another repository, provided that it still is `expect`.
    PushRefWithLease { remote: String, sha: String, dst: String, expect: String },
    /// Those of the named commits that this clone has.
    ExistingCommits { shas: Vec<String> },
    /// Those of the named objects that this clone does not have.
    MissingObjects { shas: Vec<String> },
    /// The first message lines of the named commits.
    CommitSubjects { shas: Vec<String> },
    /// Those of the paths that one of the exclude patterns matches.
    Exclude { patterns: Vec<String>, paths: Vec<String> },
    /// Write files out, for hooks to work on.
    Materialize { entries: Vec<TreeEntry> },
    /// Write a commit message to a file outside every materialized tree.
    MessageFile { message: String },
    /// Run a hook in a materialized tree.
    TreeHook { hook: &'static str, command: String, dir: String, subrepo: String, mono_sha: String, message_file: String },
    /// The files of a materialized tree, with the shas that they have. Nothing is written.
    NameFiles { dir: String },
    /// Turn a materialized tree back into objects.
    Rehash { dir: String },
    /// Run the `rewrite-message` hook on a commit message.
    RewriteMessage { command: String, subrepo: String, mono_sha: String, message: String },
    /// Why an import into `target` must not start, if there is a reason; `retry` is the command to name.
    CheckImport { target: ResolvedSubrepo, retry: String },
    /// Import the named standalone commits into `target`.
    RunImport { target: ResolvedSubrepo, shas: Vec<String> },
    /// Show a notice.
    Warn { message: String },
    /// Put the first-publish question of the calling command.
    Confirm,
    /// Is there a terminal to ask at?
    IsTerminal,
    /// Show a question and read one line.
    Prompt { question: String },
    /// Find the project that the command was started in.
    OpenProject,
    /// The record of an interrupted pull, if there is one.
    ReadSequencer,
    /// Where that record is kept.
    SequencerPath,
    /// The configured subrepos, or the one that `name` names.
    SelectSubrepos { name: Option<String> },
}

/// The value of a [`Request`].
#[verifier::ext_equal]
pub enum RequestView {
    Git { args: Seq<Text>, input: Option<Text> },
    GitOk { args: Seq<Text> },
    RevList { args: Seq<Text> },
    RevParse { rev: Text },
    LsRemoteBranch { remote: Text, branch: Text },
    FetchBranch { remote: Text, branch: Text, dst: Text },
    TrailerValues { key: Text, args: Seq<Text> },
    LsTree { treeish: Text },
    ReadCommit { rev: Text },
    CommitTree(CommitTreeInputView),
    NameTree { entries: Seq<TreeEntryView> },
    BuildTree { entries: Seq<TreeEntryView> },
    PushRef { remote: Text, sha: Text, dst: Text },
    PushRefWithLease { remote: Text, sha: Text, dst: Text, expect: Text },
    ExistingCommits { shas: Seq<Text> },
    MissingObjects { shas: Seq<Text> },
    CommitSubjects { shas: Seq<Text> },
    Exclude { patterns: Seq<Text>, paths: Seq<Text> },
    Materialize { entries: Seq<TreeEntryView> },
    MessageFile { message: Text },
    TreeHook { hook: Text, command: Text, dir: Text, subrepo: Text, mono_sha: Text, message_file: Text },
    NameFiles { dir: Text },
    Rehash { dir: Text },
    RewriteMessage { command: Text, subrepo: Text, mono_sha: Text, message: Text },
    CheckImport { target: ResolvedSubrepoView, retry: Text },
    RunImport { target: ResolvedSubrepoView, shas: Seq<Text> },
    Warn { message: Text },
    Confirm,
    IsTerminal,
    Prompt { question: Text },
    OpenProject,
    ReadSequencer,
    SequencerPath,
    SelectSubrepos { name: Option<Text> },
}

impl DeepView for Request {
    type V = RequestView;

    open spec fn deep_view(&self) -> RequestView {
        match self {
            Request::Git { args, input } => RequestView::Git {
                args: args.deep_view(),
                input: input.deep_view(),
            },
            Request::GitOk { args } => RequestView::GitOk {
                args: args.deep_view(),
            },
            Request::RevList { args } => RequestView::RevList {
                args: args.deep_view(),
            },
            Request::RevParse { rev } => RequestView::RevParse {
                rev: rev.deep_view(),
            },
            Request::LsRemoteBranch { remote, branch } => RequestView::LsRemoteBranch {
                remote: remote.deep_view(),
                branch: branch.deep_view(),
            },
            Request::FetchBranch { remote, branch, dst } => RequestView::FetchBranch {
                remote: remote.deep_view(),
                branch: branch.deep_view(),
                dst: dst.deep_view(),
            },
            Request::TrailerValues { key, args } => RequestView::TrailerValues {
                key: key.deep_view(),
                args: args.deep_view(),
            },
            Request::LsTree { treeish } => RequestView::LsTree {
                treeish: treeish.deep_view(),
            },
            Request::ReadCommit { rev } => RequestView::ReadCommit {
                rev: rev.deep_view(),
            },
            Request::CommitTree(input) => RequestView::CommitTree(input.deep_view()),
            Request::NameTree { entries } => RequestView::NameTree {
                entries: entries.deep_view(),
            },
            Request::BuildTree { entries } => RequestView::BuildTree {
                entries: entries.deep_view(),
            },
            Request::PushRef { remote, sha, dst } => RequestView::PushRef {
                remote: remote.deep_view(),
                sha: sha.deep_view(),
                dst: dst.deep_view(),
            },
            Request::PushRefWithLease { remote, sha, dst, expect } => RequestView::PushRefWithLease {
                remote: remote.deep_view(),
                sha: sha.deep_view(),
                dst: dst.deep_view(),
                expect: expect.deep_view(),
            },
            Request::ExistingCommits { shas } => RequestView::ExistingCommits {
                shas: shas.deep_view(),
            },
            Request::MissingObjects { shas } => RequestView::MissingObjects {
                shas: shas.deep_view(),
            },
            Request::CommitSubjects { shas } => RequestView::CommitSubjects {
                shas: shas.deep_view(),
            },
            Request::Exclude { patterns, paths } => RequestView::Exclude {
                patterns: patterns.deep_view(),
                paths: paths.deep_view(),
            },
            Request::Materialize { entries } => RequestView::Materialize {
                entries: entries.deep_view(),
            },
            Request::MessageFile { message } => RequestView::MessageFile {
                message: message.deep_view(),
            },
            Request::TreeHook { hook, command, dir, subrepo, mono_sha, message_file } => RequestView::TreeHook {
                hook: hook.deep_view(),
                command: command.deep_view(),
                dir: dir.deep_view(),
                subrepo: subrepo.deep_view(),
                mono_sha: mono_sha.deep_view(),
                message_file: message_file.deep_view(),
            },
            Request::NameFiles { dir } => RequestView::NameFiles {
                dir: dir.deep_view(),
            },
            Request::Rehash { dir } => RequestView::Rehash {
                dir: dir.deep_view(),
            },
            Request::RewriteMessage { command, subrepo, mono_sha, message } => RequestView::RewriteMessage {
                command: command.deep_view(),
                subrepo: subrepo.deep_view(),
                mono_sha: mono_sha.deep_view(),
                message: message.deep_view(),
            },
            Request::CheckImport { target, retry } => RequestView::CheckImport {
                target: target.deep_view(),
                retry: retry.deep_view(),
            },
            Request::RunImport { target, shas } => RequestView::RunImport {
                target: target.deep_view(),
                shas: shas.deep_view(),
            },
            Request::Warn { message } => RequestView::Warn {
                message: message.deep_view(),
            },
            Request::Confirm => RequestView::Confirm,
            Request::IsTerminal => RequestView::IsTerminal,
            Request::Prompt { question } => RequestView::Prompt {
                question: question.deep_view(),
            },
            Request::OpenProject => RequestView::OpenProject,
            Request::ReadSequencer => RequestView::ReadSequencer,
            Request::SequencerPath => RequestView::SequencerPath,
            Request::SelectSubrepos { name } => RequestView::SelectSubrepos {
                name: name.deep_view(),
            },
        }
    }
}

/// The reply to a request.
#[derive(Debug)]
pub enum Reply {
    /// What git printed, or the sha that was named or written.
    Text(Result<String, GitError>),
    /// Yes or no.
    Flag(bool),
    /// A list of commits.
    Shas(Result<Vec<String>, GitError>),
    /// What a revision resolved to.
    Rev(Option<String>),
    /// The head of a remote branch, `None` when there is no such branch.
    Branch(Result<Option<String>, GitError>),
    /// A fetch or a push ran.
    Acted(Result<(), GitError>),
    /// Trailer values by commit, in the order of the walk.
    Trailers(Result<Vec<(String, Vec<String>)>, GitError>),
    /// A tree listing.
    Entries(Result<Vec<TreeEntry>, GitError>),
    /// A commit.
    Commit(Result<CommitMeta, GitError>),
    /// First message lines by commit.
    Subjects(Result<Vec<(String, String)>, GitError>),
    /// The paths that are excluded, or why the patterns cannot be read.
    Excluded(Result<Vec<String>, String>),
    /// A tree written out as files.
    Materialized(Result<OutgoingTree, String>),
    /// A path, or why there is none.
    Path(Result<String, String>),
    /// A tree hook ran.
    Hook(Result<(), HookError>),
    /// The files of a materialized tree, with their shas.
    Rehashed(Result<Vec<TreeEntry>, String>),
    /// A rewritten message.
    Rewritten(Result<String, HookError>),
    /// A reason not to go on, if there is one.
    Refusal(Option<String>),
    /// The monorepo commits that an import made.
    Imported(Result<Vec<String>, ImportError>),
    /// A notice was shown.
    Noted,
    /// The answer to a question.
    Confirmed(Result<(), SubrepoFailure>),
    /// A line that was typed.
    Answer(String),
    /// The project was found, or why not.
    Project(Result<(), Failure>),
    /// The record of an interrupted pull.
    Sequencer(Option<PullSequencer>),
    /// Configured subrepos.
    Selected(Result<Vec<ResolvedSubrepo>, Failure>),
}

/// The value of a [`Reply`].
#[verifier::ext_equal]
pub enum ReplyView {
    Text(Result<Text, GitErrorView>),
    Flag(bool),
    Shas(Result<Seq<Text>, GitErrorView>),
    Rev(Option<Text>),
    Branch(Result<Option<Text>, GitErrorView>),
    Acted(Result<(), GitErrorView>),
    Trailers(Result<Seq<(Text, Seq<Text>)>, GitErrorView>),
    Entries(Result<Seq<TreeEntryView>, GitErrorView>),
    Commit(Result<CommitMetaView, GitErrorView>),
    Subjects(Result<Seq<(Text, Text)>, GitErrorView>),
    Excluded(Result<Seq<Text>, Text>),
    Materialized(Result<OutgoingTreeView, Text>),
    Path(Result<Text, Text>),
    Hook(Result<(), HookErrorView>),
    Rehashed(Result<Seq<TreeEntryView>, Text>),
    Rewritten(Result<Text, HookErrorView>),
    Refusal(Option<Text>),
    Imported(Result<Seq<Text>, ImportErrorView>),
    Noted,
    Confirmed(Result<(), SubrepoFailureView>),
    Answer(Text),
    Project(Result<(), FailureView>),
    Sequencer(Option<PullSequencerView>),
    Selected(Result<Seq<ResolvedSubrepoView>, FailureView>),
}

impl DeepView for Reply {
    type V = ReplyView;

    open spec fn deep_view(&self) -> ReplyView {
        match self {
            Reply::Text(reply) => ReplyView::Text(result_view(*reply)),
            Reply::Flag(reply) => ReplyView::Flag(*reply),
            Reply::Shas(reply) => ReplyView::Shas(result_view(*reply)),
            Reply::Rev(reply) => ReplyView::Rev(reply.deep_view()),
            Reply::Branch(reply) => ReplyView::Branch(result_view(*reply)),
            Reply::Acted(reply) => ReplyView::Acted(result_view(*reply)),
            Reply::Trailers(reply) => ReplyView::Trailers(result_view(*reply)),
            Reply::Entries(reply) => ReplyView::Entries(result_view(*reply)),
            Reply::Commit(reply) => ReplyView::Commit(result_view(*reply)),
            Reply::Subjects(reply) => ReplyView::Subjects(result_view(*reply)),
            Reply::Excluded(reply) => ReplyView::Excluded(result_view(*reply)),
            Reply::Materialized(reply) => ReplyView::Materialized(result_view(*reply)),
            Reply::Path(reply) => ReplyView::Path(result_view(*reply)),
            Reply::Hook(reply) => ReplyView::Hook(result_view(*reply)),
            Reply::Rehashed(reply) => ReplyView::Rehashed(result_view(*reply)),
            Reply::Rewritten(reply) => ReplyView::Rewritten(result_view(*reply)),
            Reply::Refusal(reply) => ReplyView::Refusal(reply.deep_view()),
            Reply::Imported(reply) => ReplyView::Imported(result_view(*reply)),
            Reply::Noted => ReplyView::Noted,
            Reply::Confirmed(reply) => ReplyView::Confirmed(result_view(*reply)),
            Reply::Answer(reply) => ReplyView::Answer(reply.deep_view()),
            Reply::Project(reply) => ReplyView::Project(result_view(*reply)),
            Reply::Sequencer(reply) => ReplyView::Sequencer(reply.deep_view()),
            Reply::Selected(reply) => ReplyView::Selected(result_view(*reply)),
        }
    }
}

/// A finished value, or the request that has to be answered first.
pub type Turn<T> = Result<T, Request>;

/// Where a procedure stands on given replies.
#[verifier::ext_equal]
pub enum Step<T> {
    /// It needs the reply to this request.
    Ask(RequestView),
    /// It is finished with this value, and has read the replies up to this position.
    Done(T, int),
}

/// The step that a turn is, with the replies read up to `at`.
pub open spec fn step<T: DeepView>(turn: Turn<T>, at: usize) -> Step<T::V> {
    match turn {
        Ok(value) => Step::Done(value.deep_view(), at as int),
        Err(request) => Step::Ask(request.deep_view()),
    }
}

/// [`step`] for a procedure that can fail.
pub open spec fn step_result<T: DeepView, E: DeepView>(
    turn: Turn<Result<T, E>>,
    at: usize,
) -> Step<Result<T::V, E::V>> {
    match turn {
        Ok(result) => Step::Done(result_view(result), at as int),
        Err(request) => Step::Ask(request.deep_view()),
    }
}

/// The reply at `at`, if it is there and is a [`Reply::Text`].
pub open spec fn text_at(log: Seq<ReplyView>, at: int) -> Option<Result<Text, GitErrorView>> {
    if 0 <= at < log.len() {
        match log[at] {
            ReplyView::Text(reply) => Some(reply),
            _ => None,
        }
    } else {
        None
    }
}

/// The reply at `at`, if it is there and is a [`Reply::Flag`].
pub open spec fn flag_at(log: Seq<ReplyView>, at: int) -> Option<bool> {
    if 0 <= at < log.len() {
        match log[at] {
            ReplyView::Flag(reply) => Some(reply),
            _ => None,
        }
    } else {
        None
    }
}

/// The reply at `at`, if it is there and is a [`Reply::Shas`].
pub open spec fn shas_at(log: Seq<ReplyView>, at: int) -> Option<Result<Seq<Text>, GitErrorView>> {
    if 0 <= at < log.len() {
        match log[at] {
            ReplyView::Shas(reply) => Some(reply),
            _ => None,
        }
    } else {
        None
    }
}

/// The reply at `at`, if it is there and is a [`Reply::Rev`].
pub open spec fn rev_at(log: Seq<ReplyView>, at: int) -> Option<Option<Text>> {
    if 0 <= at < log.len() {
        match log[at] {
            ReplyView::Rev(reply) => Some(reply),
            _ => None,
        }
    } else {
        None
    }
}

/// The reply at `at`, if it is there and is a [`Reply::Branch`].
pub open spec fn branch_at(log: Seq<ReplyView>, at: int) -> Option<Result<Option<Text>, GitErrorView>> {
    if 0 <= at < log.len() {
        match log[at] {
            ReplyView::Branch(reply) => Some(reply),
            _ => None,
        }
    } else {
        None
    }
}

/// The reply at `at`, if it is there and is a [`Reply::Acted`].
pub open spec fn acted_at(log: Seq<ReplyView>, at: int) -> Option<Result<(), GitErrorView>> {
    if 0 <= at < log.len() {
        match log[at] {
            ReplyView::Acted(reply) => Some(reply),
            _ => None,
        }
    } else {
        None
    }
}

/// The reply at `at`, if it is there and is a [`Reply::Trailers`].
pub open spec fn trailers_at(log: Seq<ReplyView>, at: int) -> Option<Result<Seq<(Text, Seq<Text>)>, GitErrorView>> {
    if 0 <= at < log.len() {
        match log[at] {
            ReplyView::Trailers(reply) => Some(reply),
            _ => None,
        }
    } else {
        None
    }
}

/// The reply at `at`, if it is there and is a [`Reply::Entries`].
pub open spec fn entries_at(log: Seq<ReplyView>, at: int) -> Option<Result<Seq<TreeEntryView>, GitErrorView>> {
    if 0 <= at < log.len() {
        match log[at] {
            ReplyView::Entries(reply) => Some(reply),
            _ => None,
        }
    } else {
        None
    }
}

/// The reply at `at`, if it is there and is a [`Reply::Commit`].
pub open spec fn commit_at(log: Seq<ReplyView>, at: int) -> Option<Result<CommitMetaView, GitErrorView>> {
    if 0 <= at < log.len() {
        match log[at] {
            ReplyView::Commit(reply) => Some(reply),
            _ => None,
        }
    } else {
        None
    }
}

/// The reply at `at`, if it is there and is a [`Reply::Subjects`].
pub open spec fn subjects_at(log: Seq<ReplyView>, at: int) -> Option<Result<Seq<(Text, Text)>, GitErrorView>> {
    if 0 <= at < log.len() {
        match log[at] {
            ReplyView::Subjects(reply) => Some(reply),
            _ => None,
        }
    } else {
        None
    }
}

/// The reply at `at`, if it is there and is a [`Reply::Excluded`].
pub open spec fn excluded_at(log: Seq<ReplyView>, at: int) -> Option<Result<Seq<Text>, Text>> {
    if 0 <= at < log.len() {
        match log[at] {
            ReplyView::Excluded(reply) => Some(reply),
            _ => None,
        }
    } else {
        None
    }
}

/// The reply at `at`, if it is there and is a [`Reply::Materialized`].
pub open spec fn materialized_at(log: Seq<ReplyView>, at: int) -> Option<Result<OutgoingTreeView, Text>> {
    if 0 <= at < log.len() {
        match log[at] {
            ReplyView::Materialized(reply) => Some(reply),
            _ => None,
        }
    } else {
        None
    }
}

/// The reply at `at`, if it is there and is a [`Reply::Path`].
pub open spec fn path_at(log: Seq<ReplyView>, at: int) -> Option<Result<Text, Text>> {
    if 0 <= at < log.len() {
        match log[at] {
            ReplyView::Path(reply) => Some(reply),
            _ => None,
        }
    } else {
        None
    }
}

/// The reply at `at`, if it is there and is a [`Reply::Hook`].
pub open spec fn hook_at(log: Seq<ReplyView>, at: int) -> Option<Result<(), HookErrorView>> {
    if 0 <= at < log.len() {
        match log[at] {
            ReplyView::Hook(reply) => Some(reply),
            _ => None,
        }
    } else {
        None
    }
}

/// The reply at `at`, if it is there and is a [`Reply::Rehashed`].
pub open spec fn rehashed_at(log: Seq<ReplyView>, at: int) -> Option<Result<Seq<TreeEntryView>, Text>> {
    if 0 <= at < log.len() {
        match log[at] {
            ReplyView::Rehashed(reply) => Some(reply),
            _ => None,
        }
    } else {
        None
    }
}

/// The reply at `at`, if it is there and is a [`Reply::Rewritten`].
pub open spec fn rewritten_at(log: Seq<ReplyView>, at: int) -> Option<Result<Text, HookErrorView>> {
    if 0 <= at < log.len() {
        match log[at] {
            ReplyView::Rewritten(reply) => Some(reply),
            _ => None,
        }
    } else {
        None
    }
}

/// The reply at `at`, if it is there and is a [`Reply::Refusal`].
pub open spec fn refusal_at(log: Seq<ReplyView>, at: int) -> Option<Option<Text>> {
    if 0 <= at < log.len() {
        match log[at] {
            ReplyView::Refusal(reply) => Some(reply),
            _ => None,
        }
    } else {
        None
    }
}

/// The reply at `at`, if it is there and is a [`Reply::Imported`].
pub open spec fn imported_at(log: Seq<ReplyView>, at: int) -> Option<Result<Seq<Text>, ImportErrorView>> {
    if 0 <= at < log.len() {
        match log[at] {
            ReplyView::Imported(reply) => Some(reply),
            _ => None,
        }
    } else {
        None
    }
}

/// Is the reply at `at` [`Reply::Noted`]?
pub open spec fn noted_at(log: Seq<ReplyView>, at: int) -> bool {
    0 <= at < log.len() && log[at] is Noted
}

/// The reply at `at`, if it is there and is a [`Reply::Confirmed`].
pub open spec fn confirmed_at(log: Seq<ReplyView>, at: int) -> Option<Result<(), SubrepoFailureView>> {
    if 0 <= at < log.len() {
        match log[at] {
            ReplyView::Confirmed(reply) => Some(reply),
            _ => None,
        }
    } else {
        None
    }
}

/// The reply at `at`, if it is there and is a [`Reply::Answer`].
pub open spec fn answer_at(log: Seq<ReplyView>, at: int) -> Option<Text> {
    if 0 <= at < log.len() {
        match log[at] {
            ReplyView::Answer(reply) => Some(reply),
            _ => None,
        }
    } else {
        None
    }
}

/// The reply at `at`, if it is there and is a [`Reply::Project`].
pub open spec fn project_at(log: Seq<ReplyView>, at: int) -> Option<Result<(), FailureView>> {
    if 0 <= at < log.len() {
        match log[at] {
            ReplyView::Project(reply) => Some(reply),
            _ => None,
        }
    } else {
        None
    }
}

/// The reply at `at`, if it is there and is a [`Reply::Sequencer`].
pub open spec fn sequencer_at(log: Seq<ReplyView>, at: int) -> Option<Option<PullSequencerView>> {
    if 0 <= at < log.len() {
        match log[at] {
            ReplyView::Sequencer(reply) => Some(reply),
            _ => None,
        }
    } else {
        None
    }
}

/// The reply at `at`, if it is there and is a [`Reply::Selected`].
pub open spec fn selected_at(log: Seq<ReplyView>, at: int) -> Option<Result<Seq<ResolvedSubrepoView>, FailureView>> {
    if 0 <= at < log.len() {
        match log[at] {
            ReplyView::Selected(reply) => Some(reply),
            _ => None,
        }
    } else {
        None
    }
}

/// The replies so far, and how many of them are read.
pub struct Talk<'a> {
    pub replies: &'a Vec<Reply>,
    pub at: usize,
}

impl<'a> Talk<'a> {
    /// Start at the first reply.
    pub fn new(replies: &'a Vec<Reply>) -> (out: Talk<'a>)
        ensures
            out.replies == replies,
            out.at == 0,
    {
        Talk { replies, at: 0 }
    }

    /// The values of the replies.
    pub open spec fn log(self) -> Seq<ReplyView> {
        self.replies.deep_view()
    }

    /// Read a [`Reply::Text`], if that is the next one.
    pub fn text(&mut self) -> (out: Option<&'a Result<String, GitError>>)
        ensures
            final(self).replies == old(self).replies,
            match out {
                Some(reply) => text_at(old(self).log(), old(self).at as int) == Some(result_view(*reply))
                    && final(self).at == old(self).at + 1,
                None => text_at(old(self).log(), old(self).at as int) is None && final(self).at
                    == old(self).at,
            },
    {
        if self.at < self.replies.len() {
            if let Reply::Text(reply) = &self.replies[self.at] {
                self.at = self.at + 1;
                return Some(reply);
            }
        }
        None
    }

    /// Read a [`Reply::Flag`], if that is the next one.
    pub fn flag(&mut self) -> (out: Option<bool>)
        ensures
            final(self).replies == old(self).replies,
            match out {
                Some(reply) => flag_at(old(self).log(), old(self).at as int) == Some(reply)
                    && final(self).at == old(self).at + 1,
                None => flag_at(old(self).log(), old(self).at as int) is None && final(self).at
                    == old(self).at,
            },
    {
        if self.at < self.replies.len() {
            if let Reply::Flag(reply) = &self.replies[self.at] {
                self.at = self.at + 1;
                return Some(*reply);
            }
        }
        None
    }

    /// Read a [`Reply::Shas`], if that is the next one.
    pub fn shas(&mut self) -> (out: Option<&'a Result<Vec<String>, GitError>>)
        ensures
            final(self).replies == old(self).replies,
            match out {
                Some(reply) => shas_at(old(self).log(), old(self).at as int) == Some(result_view(*reply))
                    && final(self).at == old(self).at + 1,
                None => shas_at(old(self).log(), old(self).at as int) is None && final(self).at
                    == old(self).at,
            },
    {
        if self.at < self.replies.len() {
            if let Reply::Shas(reply) = &self.replies[self.at] {
                self.at = self.at + 1;
                return Some(reply);
            }
        }
        None
    }

    /// Read a [`Reply::Rev`], if that is the next one.
    pub fn rev(&mut self) -> (out: Option<&'a Option<String>>)
        ensures
            final(self).replies == old(self).replies,
            match out {
                Some(reply) => rev_at(old(self).log(), old(self).at as int) == Some(reply.deep_view())
                    && final(self).at == old(self).at + 1,
                None => rev_at(old(self).log(), old(self).at as int) is None && final(self).at
                    == old(self).at,
            },
    {
        if self.at < self.replies.len() {
            if let Reply::Rev(reply) = &self.replies[self.at] {
                self.at = self.at + 1;
                return Some(reply);
            }
        }
        None
    }

    /// Read a [`Reply::Branch`], if that is the next one.
    pub fn branch(&mut self) -> (out: Option<&'a Result<Option<String>, GitError>>)
        ensures
            final(self).replies == old(self).replies,
            match out {
                Some(reply) => branch_at(old(self).log(), old(self).at as int) == Some(result_view(*reply))
                    && final(self).at == old(self).at + 1,
                None => branch_at(old(self).log(), old(self).at as int) is None && final(self).at
                    == old(self).at,
            },
    {
        if self.at < self.replies.len() {
            if let Reply::Branch(reply) = &self.replies[self.at] {
                self.at = self.at + 1;
                return Some(reply);
            }
        }
        None
    }

    /// Read a [`Reply::Acted`], if that is the next one.
    pub fn acted(&mut self) -> (out: Option<&'a Result<(), GitError>>)
        ensures
            final(self).replies == old(self).replies,
            match out {
                Some(reply) => acted_at(old(self).log(), old(self).at as int) == Some(result_view(*reply))
                    && final(self).at == old(self).at + 1,
                None => acted_at(old(self).log(), old(self).at as int) is None && final(self).at
                    == old(self).at,
            },
    {
        if self.at < self.replies.len() {
            if let Reply::Acted(reply) = &self.replies[self.at] {
                self.at = self.at + 1;
                return Some(reply);
            }
        }
        None
    }

    /// Read a [`Reply::Trailers`], if that is the next one.
    pub fn trailers(&mut self) -> (out: Option<&'a Result<Vec<(String, Vec<String>)>, GitError>>)
        ensures
            final(self).replies == old(self).replies,
            match out {
                Some(reply) => trailers_at(old(self).log(), old(self).at as int) == Some(result_view(*reply))
                    && final(self).at == old(self).at + 1,
                None => trailers_at(old(self).log(), old(self).at as int) is None && final(self).at
                    == old(self).at,
            },
    {
        if self.at < self.replies.len() {
            if let Reply::Trailers(reply) = &self.replies[self.at] {
                self.at = self.at + 1;
                return Some(reply);
            }
        }
        None
    }

    /// Read a [`Reply::Entries`], if that is the next one.
    pub fn entries(&mut self) -> (out: Option<&'a Result<Vec<TreeEntry>, GitError>>)
        ensures
            final(self).replies == old(self).replies,
            match out {
                Some(reply) => entries_at(old(self).log(), old(self).at as int) == Some(result_view(*reply))
                    && final(self).at == old(self).at + 1,
                None => entries_at(old(self).log(), old(self).at as int) is None && final(self).at
                    == old(self).at,
            },
    {
        if self.at < self.replies.len() {
            if let Reply::Entries(reply) = &self.replies[self.at] {
                self.at = self.at + 1;
                return Some(reply);
            }
        }
        None
    }

    /// Read a [`Reply::Commit`], if that is the next one.
    pub fn commit(&mut self) -> (out: Option<&'a Result<CommitMeta, GitError>>)
        ensures
            final(self).replies == old(self).replies,
            match out {
                Some(reply) => commit_at(old(self).log(), old(self).at as int) == Some(result_view(*reply))
                    && final(self).at == old(self).at + 1,
                None => commit_at(old(self).log(), old(self).at as int) is None && final(self).at
                    == old(self).at,
            },
    {
        if self.at < self.replies.len() {
            if let Reply::Commit(reply) = &self.replies[self.at] {
                self.at = self.at + 1;
                return Some(reply);
            }
        }
        None
    }

    /// Read a [`Reply::Subjects`], if that is the next one.
    pub fn subjects(&mut self) -> (out: Option<&'a Result<Vec<(String, String)>, GitError>>)
        ensures
            final(self).replies == old(self).replies,
            match out {
                Some(reply) => subjects_at(old(self).log(), old(self).at as int) == Some(result_view(*reply))
                    && final(self).at == old(self).at + 1,
                None => subjects_at(old(self).log(), old(self).at as int) is None && final(self).at
                    == old(self).at,
            },
    {
        if self.at < self.replies.len() {
            if let Reply::Subjects(reply) = &self.replies[self.at] {
                self.at = self.at + 1;
                return Some(reply);
            }
        }
        None
    }

    /// Read a [`Reply::Excluded`], if that is the next one.
    pub fn excluded(&mut self) -> (out: Option<&'a Result<Vec<String>, String>>)
        ensures
            final(self).replies == old(self).replies,
            match out {
                Some(reply) => excluded_at(old(self).log(), old(self).at as int) == Some(result_view(*reply))
                    && final(self).at == old(self).at + 1,
                None => excluded_at(old(self).log(), old(self).at as int) is None && final(self).at
                    == old(self).at,
            },
    {
        if self.at < self.replies.len() {
            if let Reply::Excluded(reply) = &self.replies[self.at] {
                self.at = self.at + 1;
                return Some(reply);
            }
        }
        None
    }

    /// Read a [`Reply::Materialized`], if that is the next one.
    pub fn materialized(&mut self) -> (out: Option<&'a Result<OutgoingTree, String>>)
        ensures
            final(self).replies == old(self).replies,
            match out {
                Some(reply) => materialized_at(old(self).log(), old(self).at as int) == Some(result_view(*reply))
                    && final(self).at == old(self).at + 1,
                None => materialized_at(old(self).log(), old(self).at as int) is None && final(self).at
                    == old(self).at,
            },
    {
        if self.at < self.replies.len() {
            if let Reply::Materialized(reply) = &self.replies[self.at] {
                self.at = self.at + 1;
                return Some(reply);
            }
        }
        None
    }

    /// Read a [`Reply::Path`], if that is the next one.
    pub fn path(&mut self) -> (out: Option<&'a Result<String, String>>)
        ensures
            final(self).replies == old(self).replies,
            match out {
                Some(reply) => path_at(old(self).log(), old(self).at as int) == Some(result_view(*reply))
                    && final(self).at == old(self).at + 1,
                None => path_at(old(self).log(), old(self).at as int) is None && final(self).at
                    == old(self).at,
            },
    {
        if self.at < self.replies.len() {
            if let Reply::Path(reply) = &self.replies[self.at] {
                self.at = self.at + 1;
                return Some(reply);
            }
        }
        None
    }

    /// Read a [`Reply::Hook`], if that is the next one.
    pub fn hook(&mut self) -> (out: Option<&'a Result<(), HookError>>)
        ensures
            final(self).replies == old(self).replies,
            match out {
                Some(reply) => hook_at(old(self).log(), old(self).at as int) == Some(result_view(*reply))
                    && final(self).at == old(self).at + 1,
                None => hook_at(old(self).log(), old(self).at as int) is None && final(self).at
                    == old(self).at,
            },
    {
        if self.at < self.replies.len() {
            if let Reply::Hook(reply) = &self.replies[self.at] {
                self.at = self.at + 1;
                return Some(reply);
            }
        }
        None
    }

    /// Read a [`Reply::Rehashed`], if that is the next one.
    pub fn rehashed(&mut self) -> (out: Option<&'a Result<Vec<TreeEntry>, String>>)
        ensures
            final(self).replies == old(self).replies,
            match out {
                Some(reply) => rehashed_at(old(self).log(), old(self).at as int) == Some(result_view(*reply))
                    && final(self).at == old(self).at + 1,
                None => rehashed_at(old(self).log(), old(self).at as int) is None && final(self).at
                    == old(self).at,
            },
    {
        if self.at < self.replies.len() {
            if let Reply::Rehashed(reply) = &self.replies[self.at] {
                self.at = self.at + 1;
                return Some(reply);
            }
        }
        None
    }

    /// Read a [`Reply::Rewritten`], if that is the next one.
    pub fn rewritten(&mut self) -> (out: Option<&'a Result<String, HookError>>)
        ensures
            final(self).replies == old(self).replies,
            match out {
                Some(reply) => rewritten_at(old(self).log(), old(self).at as int) == Some(result_view(*reply))
                    && final(self).at == old(self).at + 1,
                None => rewritten_at(old(self).log(), old(self).at as int) is None && final(self).at
                    == old(self).at,
            },
    {
        if self.at < self.replies.len() {
            if let Reply::Rewritten(reply) = &self.replies[self.at] {
                self.at = self.at + 1;
                return Some(reply);
            }
        }
        None
    }

    /// Read a [`Reply::Refusal`], if that is the next one.
    pub fn refusal(&mut self) -> (out: Option<&'a Option<String>>)
        ensures
            final(self).replies == old(self).replies,
            match out {
                Some(reply) => refusal_at(old(self).log(), old(self).at as int) == Some(reply.deep_view())
                    && final(self).at == old(self).at + 1,
                None => refusal_at(old(self).log(), old(self).at as int) is None && final(self).at
                    == old(self).at,
            },
    {
        if self.at < self.replies.len() {
            if let Reply::Refusal(reply) = &self.replies[self.at] {
                self.at = self.at + 1;
                return Some(reply);
            }
        }
        None
    }

    /// Read a [`Reply::Imported`], if that is the next one.
    pub fn imported(&mut self) -> (out: Option<&'a Result<Vec<String>, ImportError>>)
        ensures
            final(self).replies == old(self).replies,
            match out {
                Some(reply) => imported_at(old(self).log(), old(self).at as int) == Some(result_view(*reply))
                    && final(self).at == old(self).at + 1,
                None => imported_at(old(self).log(), old(self).at as int) is None && final(self).at
                    == old(self).at,
            },
    {
        if self.at < self.replies.len() {
            if let Reply::Imported(reply) = &self.replies[self.at] {
                self.at = self.at + 1;
                return Some(reply);
            }
        }
        None
    }

    /// Read a [`Reply::Noted`], if that is the next one.
    pub fn noted(&mut self) -> (out: bool)
        ensures
            final(self).replies == old(self).replies,
            out == noted_at(old(self).log(), old(self).at as int),
            final(self).at == if out {
                old(self).at + 1
            } else {
                old(self).at as int
            },
    {
        if self.at < self.replies.len() {
            if let Reply::Noted = &self.replies[self.at] {
                self.at = self.at + 1;
                return true;
            }
        }
        false
    }

    /// Read a [`Reply::Confirmed`], if that is the next one.
    pub fn confirmed(&mut self) -> (out: Option<&'a Result<(), SubrepoFailure>>)
        ensures
            final(self).replies == old(self).replies,
            match out {
                Some(reply) => confirmed_at(old(self).log(), old(self).at as int) == Some(result_view(*reply))
                    && final(self).at == old(self).at + 1,
                None => confirmed_at(old(self).log(), old(self).at as int) is None && final(self).at
                    == old(self).at,
            },
    {
        if self.at < self.replies.len() {
            if let Reply::Confirmed(reply) = &self.replies[self.at] {
                self.at = self.at + 1;
                return Some(reply);
            }
        }
        None
    }

    /// Read a [`Reply::Answer`], if that is the next one.
    pub fn answer(&mut self) -> (out: Option<&'a String>)
        ensures
            final(self).replies == old(self).replies,
            match out {
                Some(reply) => answer_at(old(self).log(), old(self).at as int) == Some(reply.deep_view())
                    && final(self).at == old(self).at + 1,
                None => answer_at(old(self).log(), old(self).at as int) is None && final(self).at
                    == old(self).at,
            },
    {
        if self.at < self.replies.len() {
            if let Reply::Answer(reply) = &self.replies[self.at] {
                self.at = self.at + 1;
                return Some(reply);
            }
        }
        None
    }

    /// Read a [`Reply::Project`], if that is the next one.
    pub fn project(&mut self) -> (out: Option<&'a Result<(), Failure>>)
        ensures
            final(self).replies == old(self).replies,
            match out {
                Some(reply) => project_at(old(self).log(), old(self).at as int) == Some(result_view(*reply))
                    && final(self).at == old(self).at + 1,
                None => project_at(old(self).log(), old(self).at as int) is None && final(self).at
                    == old(self).at,
            },
    {
        if self.at < self.replies.len() {
            if let Reply::Project(reply) = &self.replies[self.at] {
                self.at = self.at + 1;
                return Some(reply);
            }
        }
        None
    }

    /// Read a [`Reply::Sequencer`], if that is the next one.
    pub fn sequencer(&mut self) -> (out: Option<&'a Option<PullSequencer>>)
        ensures
            final(self).replies == old(self).replies,
            match out {
                Some(reply) => sequencer_at(old(self).log(), old(self).at as int) == Some(reply.deep_view())
                    && final(self).at == old(self).at + 1,
                None => sequencer_at(old(self).log(), old(self).at as int) is None && final(self).at
                    == old(self).at,
            },
    {
        if self.at < self.replies.len() {
            if let Reply::Sequencer(reply) = &self.replies[self.at] {
                self.at = self.at + 1;
                return Some(reply);
            }
        }
        None
    }

    /// Read a [`Reply::Selected`], if that is the next one.
    pub fn selected(&mut self) -> (out: Option<&'a Result<Vec<ResolvedSubrepo>, Failure>>)
        ensures
            final(self).replies == old(self).replies,
            match out {
                Some(reply) => selected_at(old(self).log(), old(self).at as int) == Some(result_view(*reply))
                    && final(self).at == old(self).at + 1,
                None => selected_at(old(self).log(), old(self).at as int) is None && final(self).at
                    == old(self).at,
            },
    {
        if self.at < self.replies.len() {
            if let Reply::Selected(reply) = &self.replies[self.at] {
                self.at = self.at + 1;
                return Some(reply);
            }
        }
        None
    }
}

} // verus!
