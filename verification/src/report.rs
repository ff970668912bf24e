//! Refusals, and the exit codes they end in.

use vstd::prelude::*;
use vstd::string::*;
use crate::text::Text;

verus! {

/// A refusal about one subrepo.
#[derive(Debug)]
pub struct SubrepoFailure {
    pub message: String,
    /// Must the whole run stop here?
    pub halt: bool,
}

/// The value of a [`SubrepoFailure`].
#[verifier::ext_equal]
pub struct SubrepoFailureView {
    pub message: Text,
    pub halt: bool,
}

impl DeepView for SubrepoFailure {
    type V = SubrepoFailureView;

    open spec fn deep_view(&self) -> SubrepoFailureView {
        SubrepoFailureView {
            message: self.message.deep_view(),
            halt: self.halt,
        }
    }
}

impl Clone for SubrepoFailure {
    fn clone(&self) -> (out: Self)
        ensures
            out.deep_view() == self.deep_view(),
    {
        SubrepoFailure {
            message: self.message.clone(),
            halt: self.halt,
        }
    }
}

impl SubrepoFailureView {
    /// A refusal that lets the other subrepos go on.
    pub open spec fn of(message: Text) -> SubrepoFailureView {
        SubrepoFailureView { message, halt: false }
    }
}

impl SubrepoFailure {
    /// A refusal that lets the other subrepos go on.
    pub fn new(message: String) -> (out: SubrepoFailure)
        ensures
            out.deep_view() == SubrepoFailureView::of(message@),
    {
        SubrepoFailure { message, halt: false }
    }

    /// A refusal that stops the whole run.
    pub fn halting(message: String) -> (out: SubrepoFailure)
        ensures
            out.deep_view() == (SubrepoFailureView { message: message@, halt: true }),
    {
        SubrepoFailure { message, halt: true }
    }
}

/// Why a command exits non-zero.
#[derive(Debug)]
pub struct Failure {
    pub message: String,
    pub exit_code: i32,
}

/// The value of a [`Failure`].
#[verifier::ext_equal]
pub struct FailureView {
    pub message: Text,
    pub exit_code: i32,
}

impl DeepView for Failure {
    type V = FailureView;

    open spec fn deep_view(&self) -> FailureView {
        FailureView {
            message: self.message.deep_view(),
            exit_code: self.exit_code,
        }
    }
}

impl Clone for Failure {
    fn clone(&self) -> (out: Self)
        ensures
            out.deep_view() == self.deep_view(),
    {
        Failure {
            message: self.message.clone(),
            exit_code: self.exit_code,
        }
    }
}

impl Failure {
    /// A refusal: exit code 2.
    pub fn error(message: String) -> (out: Failure)
        ensures
            out.deep_view() == (FailureView { message: message@, exit_code: 2 }),
    {
        Failure { message, exit_code: 2 }
    }

    /// The work ran and the answer is no: exit code 1.
    pub fn exit1(message: String) -> (out: Failure)
        ensures
            out.deep_view() == (FailureView { message: message@, exit_code: 1 }),
    {
        Failure { message, exit_code: 1 }
    }
}

} // verus!
