//! The git values that travel between the decisions and the process that runs git.

use vstd::prelude::*;
use vstd::string::*;
use crate::list::{lemma_take_next, push};
use crate::text::{join, join_text, signed_decimal, signed_text, Text};

verus! {

/// The tree that holds nothing.
pub const EMPTY_TREE: &'static str = "4b825dc642cb6eb9a060e54bf8d69288fbee4904";

/// A git invocation that failed.
#[derive(Debug)]
pub struct GitError {
    pub git_args: Vec<String>,
    /// `None` when a signal killed git.
    pub exit_code: Option<i32>,
    pub stderr: String,
}

/// The value of a [`GitError`].
#[verifier::ext_equal]
pub struct GitErrorView {
    pub git_args: Seq<Text>,
    pub exit_code: Option<i32>,
    pub stderr: Text,
}

impl DeepView for GitError {
    type V = GitErrorView;

    open spec fn deep_view(&self) -> GitErrorView {
        GitErrorView {
            git_args: self.git_args.deep_view(),
            exit_code: self.exit_code,
            stderr: self.stderr.deep_view(),
        }
    }
}

impl Clone for GitError {
    fn clone(&self) -> (out: Self)
        ensures
            out.deep_view() == self.deep_view(),
    {
        GitError {
            git_args: clone_texts(&self.git_args),
            exit_code: self.exit_code,
            stderr: self.stderr.clone(),
        }
    }
}

impl GitErrorView {
    /// The exit code as a message shows it.
    pub open spec fn code_text(self) -> Text {
        match self.exit_code {
            Some(code) => signed_text(code as int),
            None => "undefined"@,
        }
    }

    /// The error with `stderr` in place of its own standard error.
    pub open spec fn message_with(self, stderr: Text) -> Text {
        "git "@ + join_text(self.git_args, " "@) + " failed (exit "@ + self.code_text() + ")\n"@
            + stderr
    }

    /// The error in words, standard error verbatim.
    pub open spec fn text(self) -> Text {
        self.message_with(self.stderr)
    }
}

impl GitError {
    /// The error in words, with `stderr` in place of the recorded standard error.
    pub fn message_with(&self, stderr: &str) -> (out: String)
        ensures
            out@ == self.deep_view().message_with(stderr@),
    {
        let code = match self.exit_code {
            Some(code) => signed_decimal(code),
            None => "undefined".to_string(),
        };
        let args = join(&self.git_args, " ");
        "git ".to_string().concat(args.as_str()).concat(" failed (exit ").concat(
            code.as_str(),
        ).concat(")\n").concat(stderr)
    }

    /// The error in words.
    pub fn to_string(&self) -> (out: String)
        ensures
            out@ == self.deep_view().text(),
    {
        self.message_with(self.stderr.as_str())
    }
}

/// One line of a recursive tree listing.
#[derive(Debug)]
pub struct TreeEntry {
    pub mode: String,
    pub kind: String,
    pub sha: String,
    pub path: String,
}

/// The value of a [`TreeEntry`].
#[verifier::ext_equal]
pub struct TreeEntryView {
    pub mode: Text,
    pub kind: Text,
    pub sha: Text,
    pub path: Text,
}

impl DeepView for TreeEntry {
    type V = TreeEntryView;

    open spec fn deep_view(&self) -> TreeEntryView {
        TreeEntryView {
            mode: self.mode.deep_view(),
            kind: self.kind.deep_view(),
            sha: self.sha.deep_view(),
            path: self.path.deep_view(),
        }
    }
}

impl Clone for TreeEntry {
    fn clone(&self) -> (out: Self)
        ensures
            out.deep_view() == self.deep_view(),
    {
        TreeEntry {
            mode: self.mode.clone(),
            kind: self.kind.clone(),
            sha: self.sha.clone(),
            path: self.path.clone(),
        }
    }
}

/// What a commit object records besides its tree.
#[derive(Debug)]
pub struct CommitMeta {
    pub sha: String,
    pub message: String,
    pub author_name: String,
    pub author_email: String,
    pub author_date: String,
    pub committer_name: String,
    pub committer_email: String,
    pub committer_date: String,
}

/// The value of a [`CommitMeta`].
#[verifier::ext_equal]
pub struct CommitMetaView {
    pub sha: Text,
    pub message: Text,
    pub author_name: Text,
    pub author_email: Text,
    pub author_date: Text,
    pub committer_name: Text,
    pub committer_email: Text,
    pub committer_date: Text,
}

impl DeepView for CommitMeta {
    type V = CommitMetaView;

    open spec fn deep_view(&self) -> CommitMetaView {
        CommitMetaView {
            sha: self.sha.deep_view(),
            message: self.message.deep_view(),
            author_name: self.author_name.deep_view(),
            author_email: self.author_email.deep_view(),
            author_date: self.author_date.deep_view(),
            committer_name: self.committer_name.deep_view(),
            committer_email: self.committer_email.deep_view(),
            committer_date: self.committer_date.deep_view(),
        }
    }
}

impl Clone for CommitMeta {
    fn clone(&self) -> (out: Self)
        ensures
            out.deep_view() == self.deep_view(),
    {
        CommitMeta {
            sha: self.sha.clone(),
            message: self.message.clone(),
            author_name: self.author_name.clone(),
            author_email: self.author_email.clone(),
            author_date: self.author_date.clone(),
            committer_name: self.committer_name.clone(),
            committer_email: self.committer_email.clone(),
            committer_date: self.committer_date.clone(),
        }
    }
}

/// Everything that determines a commit object.
#[derive(Debug)]
pub struct CommitTreeInput {
    pub tree: String,
    pub parents: Vec<String>,
    pub message: String,
    pub author_name: String,
    pub author_email: String,
    pub author_date: String,
    pub committer_name: String,
    pub committer_email: String,
    pub committer_date: String,
}

/// The value of a [`CommitTreeInput`].
#[verifier::ext_equal]
pub struct CommitTreeInputView {
    pub tree: Text,
    pub parents: Seq<Text>,
    pub message: Text,
    pub author_name: Text,
    pub author_email: Text,
    pub author_date: Text,
    pub committer_name: Text,
    pub committer_email: Text,
    pub committer_date: Text,
}

impl DeepView for CommitTreeInput {
    type V = CommitTreeInputView;

    open spec fn deep_view(&self) -> CommitTreeInputView {
        CommitTreeInputView {
            tree: self.tree.deep_view(),
            parents: self.parents.deep_view(),
            message: self.message.deep_view(),
            author_name: self.author_name.deep_view(),
            author_email: self.author_email.deep_view(),
            author_date: self.author_date.deep_view(),
            committer_name: self.committer_name.deep_view(),
            committer_email: self.committer_email.deep_view(),
            committer_date: self.committer_date.deep_view(),
        }
    }
}

/// A copy of a list of texts.
pub fn clone_texts(items: &Vec<String>) -> (out: Vec<String>)
    ensures
        out.deep_view() == items.deep_view(),
{
    let mut out: Vec<String> = Vec::new();
    let mut i: usize = 0;
    while i < items.len()
        invariant
            i <= items.len(),
            out.deep_view() == items.deep_view().take(i as int),
        decreases items.len() - i,
    {
        push(&mut out, items[i].clone());
        proof {
            lemma_take_next(items.deep_view(), i as int);
        }
        i = i + 1;
    }
    assert(items.deep_view().take(i as int) =~= items.deep_view());
    out
}

/// A copy of a tree listing.
pub fn clone_entries(items: &Vec<TreeEntry>) -> (out: Vec<TreeEntry>)
    ensures
        out.deep_view() == items.deep_view(),
{
    let mut out: Vec<TreeEntry> = Vec::new();
    let mut i: usize = 0;
    while i < items.len()
        invariant
            i <= items.len(),
            out.deep_view() == items.deep_view().take(i as int),
        decreases items.len() - i,
    {
        push(&mut out, items[i].clone());
        proof {
            lemma_take_next(items.deep_view(), i as int);
        }
        i = i + 1;
    }
    assert(items.deep_view().take(i as int) =~= items.deep_view());
    out
}

} // verus!
