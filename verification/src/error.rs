//! The failures that the agent store reports to its callers.

use vstd::prelude::*;

verus! {

/// What the store, or the driver that talks to it, said of a statement that
/// failed.
#[derive(Debug, PartialEq, Eq)]
pub struct Detail {
    /// The five-character SQLSTATE code, where the store gave one.
    pub sqlstate: Option<String>,
    /// The failure in the words of the store or of the driver.
    pub message: String,
}

/// Why an operation on the agent store did not give a result.
#[derive(Debug, PartialEq, Eq)]
pub enum StoreError {
    /// The pool could not supply a connection within its timeout.
    PoolExhausted,
    /// The pool could not supply a connection at all. The field holds the
    /// driver's words where it could not connect, and nothing where the
    /// connection that the pool had was broken.
    StoreUnavailable(Option<String>),
    /// An agent with this `unique_id` exists already. The field is what the
    /// store said.
    DuplicateKey(Detail),
    /// No agent has this `id`.
    NotFound,
    /// The store failed a statement. The field is what the store said.
    Query(Detail),
    /// The store answered a statement with a number of rows that the
    /// statement cannot give.
    RowCount,
    /// A row came back that is no agent record.
    BadRow,
    /// The address of the store is not one that the driver accepts. The field
    /// holds the driver's words.
    BadAddress(String),
}

/// What went wrong between the caller and the store, as the caller saw it.
#[derive(Debug, PartialEq, Eq)]
pub enum Failure {
    /// The wait for a pooled connection ran into the pool's timeout.
    PoolTimeout,
    /// The pool handed out a connection that turned out to be broken.
    BadConnection,
    /// The pool tried to connect to the store and could not. The field holds
    /// the driver's words.
    Connect(String),
    /// The store, or the connection to it, failed the statement.
    Statement(Detail),
}

/// The SQLSTATE code with which the store refuses a row whose `unique_id` is
/// already taken.
pub open spec fn unique_violation() -> Seq<char> {
    "23505"@
}

impl Detail {
    /// Whether the store refused the statement because a value that has to be
    /// unique is already there.
    pub open spec fn is_unique_violation(self) -> bool {
        self.sqlstate matches Some(code) && code@ == unique_violation()
    }
}

impl Failure {
    /// The error that this failure is to the caller of the store.
    pub open spec fn spec_error(self) -> StoreError {
        match self {
            Failure::PoolTimeout => StoreError::PoolExhausted,
            Failure::BadConnection => StoreError::StoreUnavailable(None),
            Failure::Connect(words) => StoreError::StoreUnavailable(Some(words)),
            Failure::Statement(detail) => if detail.is_unique_violation() {
                StoreError::DuplicateKey(detail)
            } else {
                StoreError::Query(detail)
            },
        }
    }

    /// Turns what went wrong into the error that the caller of the store gets:
    /// a timeout of the pool is `PoolExhausted`, any other trouble with the
    /// connection `StoreUnavailable`, a violated uniqueness `DuplicateKey`,
    /// and every other failed statement `Query`. What the store or the driver
    /// said goes along unchanged.
    pub fn error(self) -> (error: StoreError)
        ensures
            error == self.spec_error(),
    {
        match self {
            Failure::PoolTimeout => StoreError::PoolExhausted,
            Failure::BadConnection => StoreError::StoreUnavailable(None),
            Failure::Connect(words) => StoreError::StoreUnavailable(Some(words)),
            Failure::Statement(detail) => {
                let taken = String::from_str("23505");
                let unique = match &detail.sqlstate {
                    Some(code) => *code == taken,
                    None => false,
                };
                if unique {
                    StoreError::DuplicateKey(detail)
                } else {
                    StoreError::Query(detail)
                }
            },
        }
    }
}

} // verus!
