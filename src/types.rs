//! Values exchanged between the credential pool, the admin service and its callers.
use vstd::prelude::*;

verus! {

/// One credential as the pool reports it.
#[derive(Clone, Debug)]
pub struct CredentialEntry {
    pub index: usize,
    pub priority: u32,
    pub disabled: bool,
    pub failure_count: u32,
    pub expires_at: Option<String>,
    pub auth_method: Option<String>,
    pub has_profile_arn: bool,
}

/// A point-in-time copy of the pool's state.
#[derive(Clone, Debug)]
pub struct CredentialSnapshot {
    pub total: usize,
    pub available: usize,
    pub current_index: usize,
    pub entries: Vec<CredentialEntry>,
}

/// A credential as shown to an operator, with whether it is the active one.
#[derive(Clone, Debug, PartialEq, Eq)]
pub struct CredentialStatusItem {
    pub index: usize,
    pub priority: u32,
    pub disabled: bool,
    pub failure_count: u32,
    pub is_current: bool,
    pub expires_at: Option<String>,
    pub auth_method: Option<String>,
    pub has_profile_arn: bool,
}

/// The state of the whole pool as shown to an operator.
#[derive(Clone, Debug, PartialEq, Eq)]
pub struct CredentialsStatusResponse {
    pub total: usize,
    pub available: usize,
    pub current_index: usize,
    pub credentials: Vec<CredentialStatusItem>,
}

/// What a failed admin operation reports to its caller.
#[derive(Clone, Debug, PartialEq, Eq)]
pub enum AdminServiceError {
    /// The credential index does not exist in the pool.
    NotFound { index: usize, total: usize },
    /// The upstream provider or the network failed; the message is kept verbatim.
    UpstreamError(String),
    /// Validation, configuration or another internal failure; the message is kept verbatim.
    InternalError(String),
}

/// The mathematical content of an [`AdminServiceError`].
pub enum ErrorView {
    NotFound { index: usize, total: usize },
    Upstream(Seq<char>),
    Internal(Seq<char>),
}

impl View for AdminServiceError {
    type V = ErrorView;

    open spec fn view(&self) -> ErrorView {
        match self {
            AdminServiceError::NotFound { index, total } => ErrorView::NotFound {
                index: *index,
                total: *total,
            },
            AdminServiceError::UpstreamError(m) => ErrorView::Upstream(m@),
            AdminServiceError::InternalError(m) => ErrorView::Internal(m@),
        }
    }
}

/// The status item that shows `e` in a pool whose active credential is `current`.
pub open spec fn status_item_of(e: CredentialEntry, current: usize) -> CredentialStatusItem {
    CredentialStatusItem {
        index: e.index,
        priority: e.priority,
        disabled: e.disabled,
        failure_count: e.failure_count,
        is_current: e.index == current,
        expires_at: e.expires_at,
        auth_method: e.auth_method,
        has_profile_arn: e.has_profile_arn,
    }
}

} // verus!
