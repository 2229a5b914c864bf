//! The node's JSON-RPC replies, once received and decoded: a result, an
//! error the node reports, or a reply without a result.

use vstd::prelude::*;

verus! {

/// An error reported by the node.
#[derive(Debug, Clone)]
pub struct RpcError {
    pub code: i32,
    pub message: String,
}

/// What a call to the node comes to.
#[derive(Debug)]
pub enum RpcOutcome<T> {
    /// The call's result.
    Value(T),
    /// The node reported an error.
    NodeError(RpcError),
    /// The reply carried neither a result nor an error.
    MissingResult,
}

/// Reads a decoded reply: an error the node reports wins over a result,
/// and a reply with neither has no result.
pub fn rpc_outcome<T>(error: Option<RpcError>, result: Option<T>) -> (res: RpcOutcome<T>)
    ensures
        match error {
            Some(e) => res == RpcOutcome::<T>::NodeError(e),
            None => match result {
                Some(v) => res == RpcOutcome::Value(v),
                None => res == RpcOutcome::<T>::MissingResult,
            },
        },
{
    match error {
        Some(e) => RpcOutcome::NodeError(e),
        None => match result {
            Some(v) => RpcOutcome::Value(v),
            None => RpcOutcome::MissingResult,
        },
    }
}

} // verus!
