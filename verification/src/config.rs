//! The configuration of a subrepo, as every decision reads it.

use vstd::prelude::*;
use vstd::string::*;
use crate::git::clone_texts;
use crate::text::Text;

verus! {

/// One configured subrepo, defaults filled in.
#[derive(Debug)]
pub struct ResolvedSubrepo {
    pub name: String,
    /// Directory in the monorepo.
    pub path: String,
    /// The standalone repository; the fork when `upstream` is set.
    pub remote: String,
    /// Where updates come from when that is not `remote`.
    pub upstream: Option<String>,
    pub branch: String,
    /// The branch rebuilt on the fork.
    pub push_branch: String,
    pub exclude: Vec<String>,
    pub rewrite_message: Option<String>,
    pub transform: Option<String>,
    pub scan: Option<String>,
}

/// The value of a [`ResolvedSubrepo`].
#[verifier::ext_equal]
pub struct ResolvedSubrepoView {
    pub name: Text,
    pub path: Text,
    pub remote: Text,
    pub upstream: Option<Text>,
    pub branch: Text,
    pub push_branch: Text,
    pub exclude: Seq<Text>,
    pub rewrite_message: Option<Text>,
    pub transform: Option<Text>,
    pub scan: Option<Text>,
}

impl DeepView for ResolvedSubrepo {
    type V = ResolvedSubrepoView;

    open spec fn deep_view(&self) -> ResolvedSubrepoView {
        ResolvedSubrepoView {
            name: self.name.deep_view(),
            path: self.path.deep_view(),
            remote: self.remote.deep_view(),
            upstream: self.upstream.deep_view(),
            branch: self.branch.deep_view(),
            push_branch: self.push_branch.deep_view(),
            exclude: self.exclude.deep_view(),
            rewrite_message: self.rewrite_message.deep_view(),
            transform: self.transform.deep_view(),
            scan: self.scan.deep_view(),
        }
    }
}

impl Clone for ResolvedSubrepo {
    fn clone(&self) -> (out: Self)
        ensures
            out.deep_view() == self.deep_view(),
    {
        ResolvedSubrepo {
            name: self.name.clone(),
            path: self.path.clone(),
            remote: self.remote.clone(),
            upstream: self.upstream.clone(),
            branch: self.branch.clone(),
            push_branch: self.push_branch.clone(),
            exclude: clone_texts(&self.exclude),
            rewrite_message: self.rewrite_message.clone(),
            transform: self.transform.clone(),
            scan: self.scan.clone(),
        }
    }
}

} // verus!
