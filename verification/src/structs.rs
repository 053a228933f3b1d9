//! The durable record of an agent, and the requests that create and update it.

use crate::db::FromDataBase;
use crate::error::StoreError;
use vstd::prelude::*;

verus! {

/// A point in time, in microseconds since the Unix epoch.
pub type Timestamp = i64;

/// An agent as the store knows it.
#[derive(Debug, PartialEq, Eq)]
pub struct Agent {
    /// The handle that the store assigned; never reused.
    pub id: usize,
    /// The name that the agent gave itself; unique in the store.
    pub unique_id: String,
    /// When the record was inserted.
    pub created_at: Timestamp,
    /// When the agent last signed in.
    pub last_signin: Timestamp,
}

/// One row of the table `agents` as it comes from the store, column by column.
/// A column is `None` where the row has no value for it, or one of another
/// type than the column is meant to have.
#[derive(Debug, PartialEq, Eq)]
pub struct Row {
    pub id: Option<i64>,
    pub unique_id: Option<String>,
    pub created_at: Option<Timestamp>,
    pub last_signin: Option<Timestamp>,
}

impl Row {
    /// Whether the row is an agent record: every column has its value, and
    /// the `id` is one that an agent can have.
    pub open spec fn decodes(self) -> bool {
        &&& self.id matches Some(id) && 0 <= id <= usize::MAX
        &&& self.unique_id is Some
        &&& self.created_at is Some
        &&& self.last_signin is Some
    }

    /// The agent that the row records.
    pub open spec fn agent(self) -> Agent
        recommends
            self.decodes(),
    {
        Agent {
            id: self.id.unwrap() as usize,
            unique_id: self.unique_id.unwrap(),
            created_at: self.created_at.unwrap(),
            last_signin: self.last_signin.unwrap(),
        }
    }
}

impl FromDataBase for Agent {
    type Error = StoreError;

    /// Reads an agent from `data`. A row that is no agent record gives
    /// `BadRow`.
    fn from_database(data: &Row) -> (agent: Result<Agent, StoreError>)
        ensures
            match agent {
                Ok(agent) => data.decodes() && agent == data.agent(),
                Err(error) => !data.decodes() && error == StoreError::BadRow,
            },
    {
        match (data.id, &data.unique_id, data.created_at, data.last_signin) {
            (Some(id), Some(unique_id), Some(created_at), Some(last_signin)) => {
                if id < 0 || id as u64 > usize::MAX as u64 {
                    Err(StoreError::BadRow)
                } else {
                    Ok(
                        Agent {
                            id: id as usize,
                            unique_id: unique_id.clone(),
                            created_at,
                            last_signin,
                        },
                    )
                }
            },
            _ => Err(StoreError::BadRow),
        }
    }
}

/// The request to record a new agent.
#[derive(Debug, PartialEq, Eq)]
pub struct AgentRequest {
    unique_id: String,
}

impl View for AgentRequest {
    type V = Seq<char>;

    closed spec fn view(&self) -> Seq<char> {
        self.unique_id@
    }
}

impl AgentRequest {
    /// The request to record an agent under `unique_id`.
    pub fn new(unique_id: String) -> (request: Self)
        ensures
            request@ == unique_id@,
    {
        AgentRequest { unique_id }
    }

    /// The name under which the agent is to be recorded.
    pub fn unique_id(&self) -> (unique_id: String)
        ensures
            unique_id@ == self@,
    {
        self.unique_id.clone()
    }
}

/// The request to record a sign-in of an agent.
#[derive(Debug, Clone, Copy, PartialEq, Eq)]
pub struct AgentUpdateRequest {
    last_signin: Timestamp,
}

impl View for AgentUpdateRequest {
    type V = Timestamp;

    closed spec fn view(&self) -> Timestamp {
        self.last_signin
    }
}

impl AgentUpdateRequest {
    /// The request to record that the agent signed in at `last_signin`.
    pub fn new(last_signin: Timestamp) -> (request: Self)
        ensures
            request@ == last_signin,
    {
        AgentUpdateRequest { last_signin }
    }

    /// When the agent signed in.
    pub fn last_signin(&self) -> (last_signin: Timestamp)
        ensures
            last_signin == self@,
    {
        self.last_signin
    }
}

} // verus!
