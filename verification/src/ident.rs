//! Request identifiers: one per action, unique within the process.

use vstd::prelude::*;

verus! {

/// `snowflake::ProcessUniqueId`, carried as an opaque value.
#[verifier::external_type_specification]
#[verifier::external_body]
pub struct ExProcessUniqueId(snowflake::ProcessUniqueId);

/// The identifier attached to an action when it is built. Two actions are the
/// same request only if their identifiers are equal.
#[derive(Clone, Copy, Debug)]
pub struct RequestId {
    raw: snowflake::ProcessUniqueId,
}

/// `snowflake::ProcessUniqueId::new`: takes the next identifier of the calling
/// thread. Nothing is claimed of the value returned; that it differs from every
/// identifier handed out before in this process is the outside crate's promise
/// and is not stated here. The outside function panics once a process has
/// used up its identifiers.
#[verifier::external_body]
fn next_raw_id() -> (raw: snowflake::ProcessUniqueId) {
    snowflake::ProcessUniqueId::new()
}

/// The `==` that `snowflake::ProcessUniqueId` derives: it compares the two
/// fields of the identifier, so it holds exactly when the identifiers are the
/// same value.
#[verifier::external_body]
fn raw_ids_equal(a: &snowflake::ProcessUniqueId, b: &snowflake::ProcessUniqueId) -> (same: bool)
    ensures
        same == (*a == *b),
{
    a == b
}

impl RequestId {
    /// Takes a fresh identifier from the process-wide source.
    pub fn fresh() -> (id: RequestId) {
        RequestId { raw: next_raw_id() }
    }

    /// Whether two identifiers name the same request.
    pub fn same(&self, other: &RequestId) -> (same: bool)
        ensures
            same == (*self == *other),
    {
        raw_ids_equal(&self.raw, &other.raw)
    }
}

} // verus!
