//! Values of the shell hooks that run before anything leaves.

use vstd::prelude::*;
use vstd::string::*;
use crate::git::{TreeEntry, TreeEntryView};
use crate::text::Text;

verus! {

/// A configured hook that exited non-zero.
#[derive(Debug)]
pub struct HookError {
    /// Which hook: `scan`, `transform` or `rewrite-message`.
    pub hook: &'static str,
    pub mono_sha: String,
    pub subrepo: String,
    /// What the hook wrote to its standard error.
    pub detail: String,
}

/// The value of a [`HookError`].
#[verifier::ext_equal]
pub struct HookErrorView {
    pub hook: Text,
    pub mono_sha: Text,
    pub subrepo: Text,
    pub detail: Text,
}

impl DeepView for HookError {
    type V = HookErrorView;

    open spec fn deep_view(&self) -> HookErrorView {
        HookErrorView {
            hook: self.hook.deep_view(),
            mono_sha: self.mono_sha.deep_view(),
            subrepo: self.subrepo.deep_view(),
            detail: self.detail.deep_view(),
        }
    }
}

impl Clone for HookError {
    fn clone(&self) -> (out: Self)
        ensures
            out.deep_view() == self.deep_view(),
    {
        HookError {
            hook: self.hook,
            mono_sha: self.mono_sha.clone(),
            subrepo: self.subrepo.clone(),
            detail: self.detail.clone(),
        }
    }
}

impl HookErrorView {
    /// The rejection in words.
    pub open spec fn text(self) -> Text {
        self.hook + " hook rejected "@ + self.subrepo + " commit "@ + self.mono_sha + ": "@
            + self.detail
    }
}

impl HookError {
    /// The rejection in words.
    pub fn to_string(&self) -> (out: String)
        ensures
            out@ == self.deep_view().text(),
    {
        self.hook.to_string().concat(" hook rejected ").concat(self.subrepo.as_str()).concat(
            " commit ",
        ).concat(self.mono_sha.as_str()).concat(": ").concat(self.detail.as_str())
    }
}

/// An outgoing tree written out as files, where hooks can see it.
#[derive(Debug)]
pub struct OutgoingTree {
    /// The directory that holds the files.
    pub dir: String,
    /// Entries that have no content to write (gitlinks).
    pub passthrough: Vec<TreeEntry>,
}

/// The value of a [`OutgoingTree`].
#[verifier::ext_equal]
pub struct OutgoingTreeView {
    pub dir: Text,
    pub passthrough: Seq<TreeEntryView>,
}

impl DeepView for OutgoingTree {
    type V = OutgoingTreeView;

    open spec fn deep_view(&self) -> OutgoingTreeView {
        OutgoingTreeView {
            dir: self.dir.deep_view(),
            passthrough: self.passthrough.deep_view(),
        }
    }
}

} // verus!
