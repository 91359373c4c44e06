//! The error taxonomy of the shell: every failure a command can end with,
//! together with a spec-level view that contracts are stated over.

use vstd::prelude::*;

verus! {

/// Which piece of session state a command demands before it may run.
#[derive(Clone, Copy, Debug, PartialEq, Eq, Structural)]
pub enum ContextRequirement {
    /// A wallet must be open in the session.
    OpenedWallet,
    /// A pool must be connected in the session.
    ConnectedPool,
    /// The wallet named by the command must not be the open one.
    WalletClosed,
}

/// Error codes of the identity/ledger service the commands drive.
#[derive(Clone, Copy, Debug, PartialEq, Eq, Structural)]
pub enum SdkError {
    /// The named resource already exists.
    AlreadyExists,
    /// The named resource does not exist.
    NotFound,
    /// The resource is already open, so the operation is refused.
    AlreadyOpen,
    /// The handle does not name an open resource.
    InvalidHandle,
    /// An input/output failure; the pool listing reports it when no
    /// configuration exists at all.
    IoError,
    /// No fresh handle can be issued any more.
    Exhausted,
}

/// The structured errors a command invocation can end with.  Reporting is a
/// separate step: see `report::error_message`.
#[derive(Clone, Debug, PartialEq, Eq)]
pub enum CliError {
    /// A required parameter was absent from the invocation.
    MissingParameter(String),
    /// A parameter was present but malformed.
    InvalidParameterFormat(String),
    /// The command path did not resolve against the registry.
    UnknownCommand(String),
    /// A declared context requirement was not met.
    PreconditionViolated(ContextRequirement),
    /// A pool configuration with this name already exists.
    AlreadyExists(String),
    /// The command needs prior state (e.g. a connected pool) and none is there.
    NothingToOperateOn,
    /// An opaque failure of the identity/ledger service, passed through.
    ExternalSdkError(SdkError),
}

/// Spec-level image of `CliError`: strings appear as character sequences.
pub enum ErrView {
    MissingParameter(Seq<char>),
    InvalidParameterFormat(Seq<char>),
    UnknownCommand(Seq<char>),
    PreconditionViolated(ContextRequirement),
    AlreadyExists(Seq<char>),
    NothingToOperateOn,
    ExternalSdkError(SdkError),
}

impl View for CliError {
    type V = ErrView;

    open spec fn view(&self) -> ErrView {
        match self {
            CliError::MissingParameter(n) => ErrView::MissingParameter(n@),
            CliError::InvalidParameterFormat(n) => ErrView::InvalidParameterFormat(n@),
            CliError::UnknownCommand(n) => ErrView::UnknownCommand(n@),
            CliError::PreconditionViolated(r) => ErrView::PreconditionViolated(*r),
            CliError::AlreadyExists(n) => ErrView::AlreadyExists(n@),
            CliError::NothingToOperateOn => ErrView::NothingToOperateOn,
            CliError::ExternalSdkError(e) => ErrView::ExternalSdkError(*e),
        }
    }
}

} // verus!
