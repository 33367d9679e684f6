//! Notifications to the editor beyond the standard protocol.

use crate::enforcer::dependency::Dependency;
use crate::utils::progress::ProgressNote;
use vstd::prelude::*;

verus! {

/// The notification that the dependencies of a manifest were read anew.
pub struct UpdatedDependencies;

impl UpdatedDependencies {
    /// The method name of the notification.
    pub const METHOD: &'static str = "enforcer/updatedDependencies";
}

/// What [`UpdatedDependencies`] carries.
#[derive(Debug, PartialEq, Eq)]
pub struct UpdatedDependenciesParameters {
    /// The manifest, as a `file:` URL.
    pub root: String,
    /// The dependencies that the manifest declares now.
    pub dependencies: Vec<Dependency>,
}

/// The notification that an operation started.
pub struct StartOperation;

impl StartOperation {
    /// The method name of the notification.
    pub const METHOD: &'static str = "enforcer/startOperation";
}

/// What [`StartOperation`] carries.
#[derive(Debug, PartialEq, Eq)]
pub struct StartOperationParameters {
    pub token: String,
    pub title: String,
    pub total: usize,
}

/// The notification that an operation went on.
pub struct UpdateOperation;

impl UpdateOperation {
    /// The method name of the notification.
    pub const METHOD: &'static str = "enforcer/updateOperation";
}

/// What [`UpdateOperation`] carries.
#[derive(Debug, PartialEq, Eq)]
pub struct UpdateOperationParameters {
    pub token: String,
    pub message: Option<String>,
    pub increment: Option<usize>,
}

/// The notification that an operation ended.
pub struct FinishOperation;

impl FinishOperation {
    /// The method name of the notification.
    pub const METHOD: &'static str = "enforcer/finishOperation";
}

/// What [`FinishOperation`] carries.
#[derive(Debug, PartialEq, Eq)]
pub struct FinishOperationParameters {
    pub token: String,
}

/// A notification about an operation, ready to be sent.
#[derive(Debug, PartialEq, Eq)]
pub enum OperationMessage {
    Start(StartOperationParameters),
    Update(UpdateOperationParameters),
}

/// The notification that tells the editor of `note`, for the operation known by `token`.
pub fn operation_message(token: &str, note: ProgressNote) -> (message: OperationMessage)
    ensures
        match note {
            ProgressNote::Start { title, total } => message matches OperationMessage::Start(sent) && sent.token@
                == token@
                && sent.title == title && sent.total == total,
            ProgressNote::Update { message: text, increment } => message matches OperationMessage::Update(sent)
                && sent.token@ == token@ && sent.message == text && sent.increment == increment,
        },
{
    match note {
        ProgressNote::Start { title, total } => OperationMessage::Start(
            StartOperationParameters { token: String::from_str(token), title, total },
        ),
        ProgressNote::Update { message, increment } => OperationMessage::Update(
            UpdateOperationParameters { token: String::from_str(token), message, increment },
        ),
    }
}

} // verus!
