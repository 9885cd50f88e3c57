//! The ways in which a bundling task fails.

use vstd::prelude::*;

verus! {

/// The feature that a dynamic bundle would need.
pub const DYNAMIC_CODE_SPLITTING: &'static str = "dynamic code splitting";

/// The words that come before the feature in the message of an unsupported
/// feature.
pub const UNIMPLEMENTED: &'static str = "unimplemented: ";

/// A failure of the output renderer, with the printing service's own words.
#[derive(Clone, Debug, PartialEq, Eq)]
pub struct RenderError {
    pub cause: String,
}

/// The failure of a whole task. Every failure is fatal: a task that fails
/// returns no output at all.
#[derive(Clone, Debug, PartialEq, Eq)]
pub enum BundleError {
    /// The engine could not link the bundles; a module that could not be loaded
    /// or resolved ends here too.
    Engine(String),
    /// The engine handed back a bundle of a kind that is not supported.
    Unsupported(String),
    /// The printing service failed on a linked module.
    Render(String),
}

/// A failure as a value of the model.
pub enum Failure {
    Engine(Seq<char>),
    Unsupported(Seq<char>),
    Render(Seq<char>),
}

impl Failure {
    /// The one message that the caller is given.
    pub open spec fn message(self) -> Seq<char> {
        match self {
            Failure::Engine(cause) => cause,
            Failure::Unsupported(feature) => UNIMPLEMENTED@ + feature,
            Failure::Render(cause) => cause,
        }
    }
}

impl View for BundleError {
    type V = Failure;

    open spec fn view(&self) -> Failure {
        match self {
            BundleError::Engine(cause) => Failure::Engine(cause@),
            BundleError::Unsupported(feature) => Failure::Unsupported(feature@),
            BundleError::Render(cause) => Failure::Render(cause@),
        }
    }
}

impl BundleError {
    /// The failure that a dynamic bundle ends the task with.
    pub fn dynamic_code_splitting() -> (error: BundleError)
        ensures
            error@ == Failure::Unsupported(DYNAMIC_CODE_SPLITTING@),
    {
        BundleError::Unsupported(String::from_str(DYNAMIC_CODE_SPLITTING))
    }

    /// The description that is handed to the caller in place of the failure.
    pub fn message(&self) -> (text: String)
        ensures
            text@ == self@.message(),
    {
        match self {
            BundleError::Engine(cause) => cause.clone(),
            BundleError::Unsupported(feature) => String::from_str(UNIMPLEMENTED).concat(
                feature.as_str(),
            ),
            BundleError::Render(cause) => cause.clone(),
        }
    }
}

/// The message of an unsupported feature ends with the feature's name, so the
/// caller can read off it what was not supported.
pub proof fn lemma_unsupported_is_named(feature: Seq<char>)
    ensures
        Failure::Unsupported(feature).message().len() >= feature.len(),
        Failure::Unsupported(feature).message().subrange(
            Failure::Unsupported(feature).message().len() - feature.len(),
            Failure::Unsupported(feature).message().len() as int,
        ) == feature,
{
    let message = Failure::Unsupported(feature).message();
    assert(message.subrange(message.len() - feature.len(), message.len() as int) =~= feature);
}

} // verus!
