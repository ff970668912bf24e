//! Values of the import side: conflicts and the record of an interrupted pull.

use vstd::prelude::*;
use vstd::string::*;
use crate::git::{clone_texts, GitError, GitErrorView};
use crate::text::Text;

verus! {

/// An import that left conflict markers behind.
#[derive(Debug)]
pub struct ImportConflict {
    pub subrepo_name: String,
    pub pub_sha: String,
    pub conflicts: Vec<String>,
    pub state_path: String,
}

/// The value of a [`ImportConflict`].
#[verifier::ext_equal]
pub struct ImportConflictView {
    pub subrepo_name: Text,
    pub pub_sha: Text,
    pub conflicts: Seq<Text>,
    pub state_path: Text,
}

impl DeepView for ImportConflict {
    type V = ImportConflictView;

    open spec fn deep_view(&self) -> ImportConflictView {
        ImportConflictView {
            subrepo_name: self.subrepo_name.deep_view(),
            pub_sha: self.pub_sha.deep_view(),
            conflicts: self.conflicts.deep_view(),
            state_path: self.state_path.deep_view(),
        }
    }
}

impl Clone for ImportConflict {
    fn clone(&self) -> (out: Self)
        ensures
            out.deep_view() == self.deep_view(),
    {
        ImportConflict {
            subrepo_name: self.subrepo_name.clone(),
            pub_sha: self.pub_sha.clone(),
            conflicts: clone_texts(&self.conflicts),
            state_path: self.state_path.clone(),
        }
    }
}

/// Why an import did not land.
#[derive(Debug)]
pub enum ImportError {
    Conflict(ImportConflict),
    Git(GitError),
    Other(String),
}

/// The value of an [`ImportError`].
#[verifier::ext_equal]
pub enum ImportErrorView {
    Conflict(ImportConflictView),
    Git(GitErrorView),
    Other(Text),
}

impl DeepView for ImportError {
    type V = ImportErrorView;

    open spec fn deep_view(&self) -> ImportErrorView {
        match self {
            ImportError::Conflict(conflict) => ImportErrorView::Conflict(conflict.deep_view()),
            ImportError::Git(err) => ImportErrorView::Git(err.deep_view()),
            ImportError::Other(detail) => ImportErrorView::Other(detail.deep_view()),
        }
    }
}

impl Clone for ImportError {
    fn clone(&self) -> (out: Self)
        ensures
            out.deep_view() == self.deep_view(),
    {
        match self {
            ImportError::Conflict(conflict) => ImportError::Conflict(conflict.clone()),
            ImportError::Git(err) => ImportError::Git(err.clone()),
            ImportError::Other(detail) => ImportError::Other(detail.clone()),
        }
    }
}

/// The record of an interrupted pull.
#[derive(Debug)]
pub struct PullSequencer {
    /// Whose pull was interrupted.
    pub subrepo: String,
}

/// The value of a [`PullSequencer`].
#[verifier::ext_equal]
pub struct PullSequencerView {
    pub subrepo: Text,
}

impl DeepView for PullSequencer {
    type V = PullSequencerView;

    open spec fn deep_view(&self) -> PullSequencerView {
        PullSequencerView {
            subrepo: self.subrepo.deep_view(),
        }
    }
}

impl Clone for PullSequencer {
    fn clone(&self) -> (out: Self)
        ensures
            out.deep_view() == self.deep_view(),
    {
        PullSequencer {
            subrepo: self.subrepo.clone(),
        }
    }
}

} // verus!
