//! The tagged error of the storage boundary.
//!
//! The data layer itself never fails: its operations are total on the
//! inputs their contracts admit.  The shell, which owns the connection to
//! the persistent store, maps each storage-level failure into this type and
//! renders it as descriptive text only at the outermost boundary.

use vstd::prelude::*;

verus! {

/// The two failure kinds callers must be able to tell apart: the local
/// store could not be reached at all, or one specific statement failed.
pub enum DbError {
    ConnectionFailure { detail: String },
    StatementFailure { detail: String },
}

impl DbError {
    /// The diagnostic text carried by either kind.
    pub open spec fn detail_view(self) -> Seq<char> {
        match self {
            DbError::ConnectionFailure { detail } => detail@,
            DbError::StatementFailure { detail } => detail@,
        }
    }

    /// Renders the error as the human-readable line the shell surfaces:
    /// the failed action, a separator, and the carried diagnostic.
    pub fn message(&self, context: &str) -> (r: String)
        ensures
            r@ == context@ + ": "@ + self.detail_view(),
    {
        match self {
            DbError::ConnectionFailure { detail } => join3(context, ": ", detail.as_str()),
            DbError::StatementFailure { detail } => join3(context, ": ", detail.as_str()),
        }
    }
}

/// Relies on std's `format!`: the output is the three parts, in order,
/// with nothing added.
#[verifier::external_body]
fn join3(a: &str, b: &str, c: &str) -> (r: String)
    ensures
        r@ == a@ + b@ + c@,
{
    format!("{}{}{}", a, b, c)
}

} // verus!
