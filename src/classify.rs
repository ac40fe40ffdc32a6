//! Classification of the pool's error messages into the caller-facing error kinds.
use vstd::prelude::*;
use crate::text::{contains, has_substring};
use crate::types::{AdminServiceError, ErrorView};

verus! {

/// The phrase with which the pool reports an index that does not exist.
pub open spec fn out_of_range_signal(m: Seq<char>) -> bool {
    has_substring(m, "索引超出范围"@)
}

/// A phrase that marks a failure of the upstream provider or of the network.
pub open spec fn upstream_signal(m: Seq<char>) -> bool {
    ||| has_substring(m, "凭证已过期或无效"@)
    ||| has_substring(m, "权限不足"@)
    ||| has_substring(m, "已被限流"@)
    ||| has_substring(m, "服务器错误"@)
    ||| has_substring(m, "Token 刷新失败"@)
    ||| has_substring(m, "暂时不可用"@)
    ||| has_substring(m, "error trying to connect"@)
    ||| has_substring(m, "connection"@)
    ||| has_substring(m, "timeout"@)
    ||| has_substring(m, "timed out"@)
}

/// How a failure of an operation that stays inside the pool is reported.
pub open spec fn simple_error_of(m: Seq<char>, index: usize, total: usize) -> ErrorView {
    if out_of_range_signal(m) {
        ErrorView::NotFound { index, total }
    } else {
        ErrorView::Internal(m)
    }
}

/// How a failure of a balance query, which may reach upstream, is reported.
pub open spec fn balance_error_of(m: Seq<char>, index: usize, total: usize) -> ErrorView {
    if out_of_range_signal(m) {
        ErrorView::NotFound { index, total }
    } else if upstream_signal(m) {
        ErrorView::Upstream(m)
    } else {
        ErrorView::Internal(m)
    }
}

fn has_upstream_signal(msg: &str) -> (r: bool)
    ensures
        r == upstream_signal(msg@),
{
    contains(msg, "凭证已过期或无效") || contains(msg, "权限不足") || contains(msg, "已被限流")
        || contains(msg, "服务器错误") || contains(msg, "Token 刷新失败") || contains(
        msg,
        "暂时不可用",
    ) || contains(msg, "error trying to connect") || contains(msg, "connection") || contains(
        msg,
        "timeout",
    ) || contains(msg, "timed out")
}

/// Classifies the message of a failed in-pool operation on credential `index`
/// of a pool of `total` credentials.
pub fn classify_message(msg: String, index: usize, total: usize) -> (r: AdminServiceError)
    ensures
        r@ == simple_error_of(msg@, index, total),
{
    if contains(msg.as_str(), "索引超出范围") {
        AdminServiceError::NotFound { index, total }
    } else {
        AdminServiceError::InternalError(msg)
    }
}

/// Classifies the message of a failed balance query on credential `index`
/// of a pool of `total` credentials.
pub fn classify_balance_message(msg: String, index: usize, total: usize) -> (r: AdminServiceError)
    ensures
        r@ == balance_error_of(msg@, index, total),
{
    if contains(msg.as_str(), "索引超出范围") {
        return AdminServiceError::NotFound { index, total };
    }
    if has_upstream_signal(msg.as_str()) {
        AdminServiceError::UpstreamError(msg)
    } else {
        AdminServiceError::InternalError(msg)
    }
}

/// Every message is classified as exactly one of the three kinds, and a message
/// that reports an index out of range is classified as not found, whatever else
/// it holds. The classifier of in-pool operations never reports an upstream failure.
pub proof fn lemma_classification_total(m: Seq<char>, index: usize, total: usize)
    ensures
        balance_error_of(m, index, total) is NotFound || balance_error_of(m, index, total) is Upstream
            || balance_error_of(m, index, total) is Internal,
        out_of_range_signal(m) ==> balance_error_of(m, index, total) == (ErrorView::NotFound {
            index,
            total,
        }),
        out_of_range_signal(m) ==> simple_error_of(m, index, total) == (ErrorView::NotFound {
            index,
            total,
        }),
        !(simple_error_of(m, index, total) is Upstream),
        !out_of_range_signal(m) ==> simple_error_of(m, index, total) == ErrorView::Internal(m),
{
}

} // verus!
