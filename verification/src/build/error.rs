//! What can end a build.

use vstd::prelude::*;

verus! {

/// A fatal error of a build, with the stage it came from. No error is
/// retried and none is passed over: the first one ends the build.
#[derive(Clone, Debug)]
pub enum BuildError {
    /// A template did not render.
    Render { template: String, cause: String },
    /// Declared scripts could not be read; `paths` names them in the order
    /// they were declared, and `causes` says of each, in the same order, why
    /// it could not be read.
    ScriptCollection { paths: Vec<String>, causes: Vec<String> },
    /// No header could be made for the entry at `path`.
    Archive { path: String, cause: String },
    /// The backend cannot be reached or invoked at all.
    BackendUnavailable { cause: String },
    /// The backend itself reported that the build failed.
    BuildStepFailure { message: String },
    /// Reading or writing failed around the backend or the archive file.
    Io { cause: String },
}

/// Model of a [`BuildError`].
pub enum BuildErrorView {
    Render { template: Seq<char>, cause: Seq<char> },
    ScriptCollection { paths: Seq<Seq<char>>, causes: Seq<Seq<char>> },
    Archive { path: Seq<char>, cause: Seq<char> },
    BackendUnavailable { cause: Seq<char> },
    BuildStepFailure { message: Seq<char> },
    Io { cause: Seq<char> },
}

impl View for BuildError {
    type V = BuildErrorView;

    open spec fn view(&self) -> BuildErrorView {
        match *self {
            BuildError::Render { template, cause } => BuildErrorView::Render {
                template: template@,
                cause: cause@,
            },
            BuildError::ScriptCollection { paths, causes } => BuildErrorView::ScriptCollection {
                paths: paths.deep_view(),
                causes: causes.deep_view(),
            },
            BuildError::Archive { path, cause } => BuildErrorView::Archive {
                path: path@,
                cause: cause@,
            },
            BuildError::BackendUnavailable { cause } => BuildErrorView::BackendUnavailable {
                cause: cause@,
            },
            BuildError::BuildStepFailure { message } => BuildErrorView::BuildStepFailure {
                message: message@,
            },
            BuildError::Io { cause } => BuildErrorView::Io { cause: cause@ },
        }
    }
}

impl DeepView for BuildError {
    type V = BuildErrorView;

    open spec fn deep_view(&self) -> BuildErrorView {
        self.view()
    }
}

impl BuildError {
    /// A copy of the error.
    pub fn duplicate(&self) -> (copy: BuildError)
        ensures
            copy@ == self@,
    {
        match self {
            BuildError::Render { template, cause } => BuildError::Render {
                template: template.clone(),
                cause: cause.clone(),
            },
            BuildError::ScriptCollection { paths, causes } => BuildError::ScriptCollection {
                paths: crate::text::copy_texts(paths),
                causes: crate::text::copy_texts(causes),
            },
            BuildError::Archive { path, cause } => BuildError::Archive {
                path: path.clone(),
                cause: cause.clone(),
            },
            BuildError::BackendUnavailable { cause } => BuildError::BackendUnavailable {
                cause: cause.clone(),
            },
            BuildError::BuildStepFailure { message } => BuildError::BuildStepFailure {
                message: message.clone(),
            },
            BuildError::Io { cause } => BuildError::Io { cause: cause.clone() },
        }
    }
}

} // verus!
