//! The errors a binding answers with.

use vstd::prelude::*;
use vstd::string::*;

verus! {

/// Why a call, a registration or a completion was refused.
#[derive(Debug, PartialEq, Eq)]
pub enum BackendError {
    /// No profile is registered under the name.
    ProfileNotFound { backend_name: String },
    /// A configuration, a payload or a template that cannot be used.
    InvalidSpec { message: String },
    /// The upstream did not answer in time.
    Timeout { message: String },
    /// The upstream could not be reached or its answer could not be read.
    Transport { message: String },
}

/// What an error says.
pub enum BackendErrorView {
    ProfileNotFound(Seq<char>),
    InvalidSpec(Seq<char>),
    Timeout(Seq<char>),
    Transport(Seq<char>),
}

impl View for BackendError {
    type V = BackendErrorView;

    open spec fn view(&self) -> BackendErrorView {
        match *self {
            BackendError::ProfileNotFound { backend_name } => BackendErrorView::ProfileNotFound(
                backend_name@,
            ),
            BackendError::InvalidSpec { message } => BackendErrorView::InvalidSpec(message@),
            BackendError::Timeout { message } => BackendErrorView::Timeout(message@),
            BackendError::Transport { message } => BackendErrorView::Transport(message@),
        }
    }
}

/// The refusal of a name that has no profile.
pub fn profile_not_found(backend_name: &str) -> (error: BackendError)
    ensures
        error@ == BackendErrorView::ProfileNotFound(backend_name@),
{
    BackendError::ProfileNotFound { backend_name: backend_name.to_owned() }
}

/// The refusal of a configuration for the reason `before` + `detail`.
pub fn invalid_spec(before: &str, detail: &str) -> (error: BackendError)
    ensures
        error@ == BackendErrorView::InvalidSpec(before@ + detail@),
{
    BackendError::InvalidSpec { message: joined(before, detail) }
}

/// The transport failure for the reason `before` + `detail`.
pub fn transport(before: &str, detail: &str) -> (error: BackendError)
    ensures
        error@ == BackendErrorView::Transport(before@ + detail@),
{
    BackendError::Transport { message: joined(before, detail) }
}

/// Two texts, one after the other.
pub fn joined(first: &str, second: &str) -> (text: String)
    ensures
        text@ == first@ + second@,
{
    let mut text: String = first.to_owned();
    text.append(second);
    text
}

/// An error is told as its kind with what it says.
pub proof fn law_error_is_told_whole(error: BackendError)
    ensures
        error matches BackendError::ProfileNotFound { backend_name } ==> error@
            == BackendErrorView::ProfileNotFound(backend_name@),
        error matches BackendError::InvalidSpec { message } ==> error@
            == BackendErrorView::InvalidSpec(message@),
        error matches BackendError::Timeout { message } ==> error@ == BackendErrorView::Timeout(
            message@,
        ),
        error matches BackendError::Transport { message } ==> error@ == BackendErrorView::Transport(
            message@,
        ),
{
}

} // verus!
