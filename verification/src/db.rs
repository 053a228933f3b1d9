//! The agent store: the statements that are sent to it and what its answers
//! mean. The statements are run elsewhere, over a pooled connection; this
//! module says what to run and reads what came back.

use crate::error::{Failure, StoreError};
use crate::structs::{Agent, AgentRequest, AgentUpdateRequest, Row, Timestamp};
use crate::text::{decimal, push_decimal};
use vstd::prelude::*;

verus! {

/// Maximum number of open connections to the store.
pub const DB_POOL_MAX_OPEN: u64 = 32;

/// Maximum number of idle connections to the store.
pub const DB_POOL_MAX_IDLE: u64 = 8;

/// How long a caller waits for a connection before it gives up, in seconds.
pub const DB_POOL_TIMEOUT_SECONDS: u64 = 15;

/// A value can be read from a row of the store if it has this trait
/// implemented.
pub trait FromDataBase: Sized {
    type Error;

    fn from_database(data: &Row) -> Result<Self, Self::Error>;
}

/// Where the store listens.
#[derive(Debug, PartialEq, Eq)]
pub struct StoreAddress {
    pub database_ip: String,
    pub database_port: u16,
}

/// Makes `tokio_postgres::Config`, the driver's own record of where and how
/// to connect, known as a type. Nothing is said of what a value of it holds.
#[verifier::external_type_specification]
#[verifier::external_body]
pub struct ExDriverConfig(tokio_postgres::Config);

/// Makes `tokio_postgres::Error`, the driver's error, known as a type.
/// Nothing is said of what a value of it holds.
#[verifier::external_type_specification]
#[verifier::external_body]
pub struct ExDriverError(tokio_postgres::Error);

/// What the connection pool is built from: the address of the store as the
/// driver understood it, and the limits of the pool.
pub struct PoolSettings {
    pub config: tokio_postgres::Config,
    pub max_open: u64,
    pub max_idle: u64,
    pub get_timeout_seconds: u64,
}

/// What the driver makes of a connection string: its configuration, or the
/// reason why the string is none.
pub uninterp spec fn driver_reading(address: Seq<char>) -> Result<
    tokio_postgres::Config,
    tokio_postgres::Error,
>;

/// Hands `address` to `<tokio_postgres::Config as std::str::FromStr>::from_str`, the
/// driver's parser of connection strings. The parser reads nothing but the
/// string, so what it returns is named by `driver_reading` of the characters;
/// the contract claims no more than that.
#[verifier::external_body]
fn read_address(address: &str) -> (reading: Result<tokio_postgres::Config, tokio_postgres::Error>)
    ensures
        reading == driver_reading(address@),
{
    <tokio_postgres::Config as std::str::FromStr>::from_str(address)
}

/// The connection string for the store at `cfg`: user `postgres`, database
/// `postgres`, the address and the port in decimal notation.
pub open spec fn spec_connection_url(cfg: StoreAddress) -> Seq<char> {
    "postgres://postgres@"@ + cfg.database_ip@ + ":"@ + decimal(cfg.database_port as nat)
        + "/postgres"@
}

/// Builds the connection string for the store at `cfg`.
pub fn connection_url(cfg: &StoreAddress) -> (url: String)
    ensures
        url@ == spec_connection_url(*cfg),
{
    let mut url = String::from_str("postgres://postgres@");
    url.append(cfg.database_ip.as_str());
    url.append(":");
    push_decimal(&mut url, cfg.database_port as u64);
    url.append("/postgres");
    url
}

/// Asks `<tokio_postgres::Error as std::fmt::Display>`, through
/// `ToString::to_string`, for the driver's words on `error`. Nothing is
/// claimed of the text that comes back.
#[verifier::external_body]
fn driver_words(error: &tokio_postgres::Error) -> (words: String) {
    error.to_string()
}

/// Joins what the driver read from the connection string with the limits of
/// the pool: at most `DB_POOL_MAX_OPEN` connections, at most
/// `DB_POOL_MAX_IDLE` of them idle, and `DB_POOL_TIMEOUT_SECONDS` to wait for
/// one. A string that the driver refused gives `BadAddress` with the driver's
/// words.
pub fn pool_settings(reading: Result<tokio_postgres::Config, tokio_postgres::Error>) -> (settings:
    Result<PoolSettings, StoreError>)
    ensures
        match settings {
            Ok(settings) => {
                &&& reading == Ok::<tokio_postgres::Config, tokio_postgres::Error>(settings.config)
                &&& settings.max_open == DB_POOL_MAX_OPEN
                &&& settings.max_idle == DB_POOL_MAX_IDLE
                &&& settings.get_timeout_seconds == DB_POOL_TIMEOUT_SECONDS
            },
            Err(error) => reading is Err && error is BadAddress,
        },
{
    match reading {
        Ok(config) => Ok(
            PoolSettings {
                config,
                max_open: DB_POOL_MAX_OPEN,
                max_idle: DB_POOL_MAX_IDLE,
                get_timeout_seconds: DB_POOL_TIMEOUT_SECONDS,
            },
        ),
        Err(error) => Err(StoreError::BadAddress(driver_words(&error))),
    }
}

/// Works out what the pool of connections to the store at `cfg` is built
/// from. The connection string of `cfg` goes to the driver; where the driver
/// accepts it the result holds the driver's configuration and the limits of
/// the pool, and where it does not the result is `BadAddress`.
pub fn create_pool(cfg: &StoreAddress) -> (settings: Result<PoolSettings, StoreError>)
    ensures
        match settings {
            Ok(settings) => {
                &&& driver_reading(spec_connection_url(*cfg)) == Ok::<
                    tokio_postgres::Config,
                    tokio_postgres::Error,
                >(settings.config)
                &&& settings.max_open == DB_POOL_MAX_OPEN
                &&& settings.max_idle == DB_POOL_MAX_IDLE
                &&& settings.get_timeout_seconds == DB_POOL_TIMEOUT_SECONDS
            },
            Err(error) => driver_reading(spec_connection_url(*cfg)) is Err && error is BadAddress,
        },
{
    let url = connection_url(cfg);
    pool_settings(read_address(url.as_str()))
}

/// One value bound to a placeholder of a statement.
#[derive(Debug, PartialEq, Eq)]
pub enum Param {
    Text(String),
    BigInt(i64),
    Timestamp(Timestamp),
}

/// A bound value, as a value.
pub enum ParamView {
    Text(Seq<char>),
    BigInt(i64),
    Timestamp(Timestamp),
}

impl View for Param {
    type V = ParamView;

    open spec fn view(&self) -> ParamView {
        match self {
            Param::Text(text) => ParamView::Text(text@),
            Param::BigInt(number) => ParamView::BigInt(*number),
            Param::Timestamp(at) => ParamView::Timestamp(*at),
        }
    }
}

/// A statement for the store: its text, and the values for `$1`, `$2`, and so
/// on, in that order.
#[derive(Debug, PartialEq, Eq)]
pub struct Statement {
    pub text: String,
    pub params: Vec<Param>,
}

/// A statement, as a value.
pub struct StatementView {
    pub text: Seq<char>,
    pub params: Seq<ParamView>,
}

impl View for Statement {
    type V = StatementView;

    open spec fn view(&self) -> StatementView {
        StatementView { text: self.text@, params: self.params@.map_values(|p: Param| p@) }
    }
}

/// What is to be done about a request to the store: a statement to send, or
/// the answer itself where it is known without asking.
#[derive(Debug, PartialEq, Eq)]
pub enum Plan<T> {
    Ask(Statement),
    Answer(T),
}

/// Whether `id` is a handle that the store can have given out: the `id`
/// column is a signed 64-bit number.
pub fn in_store_range(id: usize) -> (fits: bool)
    ensures
        fits == (id <= i64::MAX),
{
    id as u64 <= i64::MAX as u64
}

/// Whether `c` can stand inside a quoted literal as it is: it is neither the
/// single quote, which would end the literal, nor the backslash, which some
/// settings of the store read as the start of an escape.
pub open spec fn is_plain_char(c: char) -> bool {
    c != '\'' && c != '\\'
}

/// Whether `name` can stand between single quotes as it is: every character
/// of it can.
pub open spec fn is_plain(name: Seq<char>) -> bool {
    forall|i: int| 0 <= i < name.len() ==> is_plain_char(#[trigger] name[i])
}

/// Tells whether `name` can stand between single quotes as it is.
pub fn plain(name: &str) -> (plain: bool)
    ensures
        plain == is_plain(name@),
{
    let mut plain = true;
    for c in it: name.chars()
        invariant
            it.seq() == name@,
            plain == (forall|j: int| 0 <= j < it.index() ==> is_plain_char(#[trigger] name@[j])),
    {
        if c == '\'' || c == '\\' {
            plain = false;
        }
    }
    plain
}

fn quoted_term(name: &str) -> (term: String)
    ensures
        term@ == "unique_id = '"@ + name@ + "'"@,
{
    let mut term = String::from_str("unique_id = '");
    term.append(name);
    term.append("'");
    term
}

/// What is looked for in the store.
#[derive(Debug, PartialEq, Eq)]
pub enum Search {
    Id(usize),
    UniqueId(String),
}

impl Search {
    /// The condition that selects what is looked for.
    ///
    /// A handle is written out: `id = ` and the handle in decimal notation. A
    /// name that can stand between single quotes as it is stands there:
    /// `unique_id = '`, the name, and `'`. The store is never given any other
    /// name to read as part of a query: the condition is then
    /// `unique_id = $1`, and the name is the value bound to `$1`.
    pub open spec fn spec_search_term(self) -> Seq<char> {
        match self {
            Search::Id(id) => "id = "@ + decimal(id as nat),
            Search::UniqueId(unique_id) => if is_plain(unique_id@) {
                "unique_id = '"@ + unique_id@ + "'"@
            } else {
                "unique_id = $1"@
            },
        }
    }

    /// The values that the condition refers to: the name, for a search by a
    /// name that cannot stand between quotes as it is, and none otherwise.
    pub open spec fn spec_search_params(self) -> Seq<ParamView> {
        match self {
            Search::Id(_) => Seq::empty(),
            Search::UniqueId(unique_id) => if is_plain(unique_id@) {
                Seq::empty()
            } else {
                seq![ParamView::Text(unique_id@)]
            },
        }
    }

    /// The text of the query that looks for `self`, newest record first.
    pub open spec fn spec_query(self) -> Seq<char> {
        "SELECT * from agents WHERE "@ + self.spec_search_term() + " ORDER BY created_at DESC"@
    }

    /// Builds the condition that selects what is looked for. Where the
    /// condition refers to `$1`, `statement` binds the name to it.
    pub fn get_search_term(self) -> (term: String)
        ensures
            term@ == self.spec_search_term(),
    {
        match self {
            Search::Id(id) => {
                let mut term = String::from_str("id = ");
                push_decimal(&mut term, id as u64);
                term
            },
            Search::UniqueId(unique_id) => {
                if plain(unique_id.as_str()) {
                    quoted_term(unique_id.as_str())
                } else {
                    String::from_str("unique_id = $1")
                }
            },
        }
    }

    /// Builds the query that looks for `self`. It asks for the matching
    /// records newest first. A name with a quote or a backslash in it is
    /// bound as a value and stands nowhere in the text.
    pub fn statement(self) -> (statement: Statement)
        ensures
            statement@ == (StatementView {
                text: self.spec_query(),
                params: self.spec_search_params(),
            }),
    {
        let mut params: Vec<Param> = Vec::new();
        let term = match self {
            Search::Id(id) => Search::Id(id).get_search_term(),
            Search::UniqueId(unique_id) => {
                if plain(unique_id.as_str()) {
                    quoted_term(unique_id.as_str())
                } else {
                    params.push(Param::Text(unique_id));
                    String::from_str("unique_id = $1")
                }
            },
        };
        let mut text = String::from_str("SELECT * from agents WHERE ");
        text.append(term.as_str());
        text.append(" ORDER BY created_at DESC");
        let statement = Statement { text, params };
        assert(statement@.params =~= self.spec_search_params());
        statement
    }

    /// Reads the answer to the query of a search: the first record of the
    /// answer, which is the newest that matched, or `None` where nothing
    /// matched. A failure of the store and a row that is no agent record are
    /// errors, as in `search_database`.
    pub fn find(reply: Result<Vec<Row>, Failure>) -> (found: Result<Option<Agent>, StoreError>)
        ensures
            found == spec_find(reply),
    {
        match search_database(reply) {
            Ok(mut agents) => {
                if agents.len() == 0 {
                    Ok(None)
                } else {
                    Ok(Some(agents.remove(0)))
                }
            },
            Err(error) => Err(error),
        }
    }
}

/// A name is never read as part of the query.
///
/// Where a name stands in the text, it stands between two single quotes and
/// holds no character that could end the literal or start an escape in it.
/// The text of a search by any other name is the same for every such name,
/// and the name is the one value bound to it.
pub proof fn lemma_name_is_never_read_as_query(first: String, second: String)
    ensures
        is_plain(first@) ==> {
            &&& Search::UniqueId(first).spec_search_term() == "unique_id = '"@ + first@ + "'"@
            &&& Search::UniqueId(first).spec_search_params() == Seq::<ParamView>::empty()
            &&& forall|i: int| 0 <= i < first@.len() ==> is_plain_char(#[trigger] first@[i])
        },
        !is_plain(first@) ==> Search::UniqueId(first).spec_search_params() == seq![
            ParamView::Text(first@),
        ],
        !is_plain(first@) && !is_plain(second@) ==> Search::UniqueId(first).spec_query()
            == Search::UniqueId(second).spec_query(),
{
}

/// Every row is an agent record.
pub open spec fn all_decode(rows: Seq<Row>) -> bool {
    forall|i: int| 0 <= i < rows.len() ==> (#[trigger] rows[i]).decodes()
}

/// The agents that the rows record, in the order of the rows.
pub open spec fn agents_of(rows: Seq<Row>) -> Seq<Agent> {
    rows.map_values(|row: Row| row.agent())
}

/// What the answer to a query means: the store's failure as an error, `BadRow`
/// where some row is no agent record, and otherwise the agents in the order in
/// which the store gave them.
pub open spec fn spec_search_database(reply: Result<Vec<Row>, Failure>) -> Result<
    Seq<Agent>,
    StoreError,
> {
    match reply {
        Err(failure) => Err(failure.spec_error()),
        Ok(rows) => if all_decode(rows@) {
            Ok(agents_of(rows@))
        } else {
            Err(StoreError::BadRow)
        },
    }
}

/// What the answer to the query of a search means for the one who looks for
/// one agent: the first of the agents that matched, if any did.
pub open spec fn spec_find(reply: Result<Vec<Row>, Failure>) -> Result<Option<Agent>, StoreError> {
    match spec_search_database(reply) {
        Ok(agents) => if agents.len() > 0 {
            Ok(Some(agents[0]))
        } else {
            Ok(None)
        },
        Err(error) => Err(error),
    }
}

/// Reads every row as an agent, in order. The first row that is no agent
/// record ends the reading with `BadRow`.
pub fn decode_rows(rows: &Vec<Row>) -> (agents: Result<Vec<Agent>, StoreError>)
    ensures
        match agents {
            Ok(agents) => all_decode(rows@) && agents@ == agents_of(rows@),
            Err(error) => !all_decode(rows@) && error == StoreError::BadRow,
        },
{
    let mut agents: Vec<Agent> = Vec::new();
    let mut i: usize = 0;
    while i < rows.len()
        invariant
            i <= rows.len(),
            agents@.len() == i,
            forall|j: int| 0 <= j < i ==> (#[trigger] rows@[j]).decodes(),
            forall|j: int| 0 <= j < i ==> agents@[j] == (#[trigger] rows@[j]).agent(),
        decreases rows.len() - i,
    {
        match Agent::from_database(&rows[i]) {
            Ok(agent) => {
                agents.push(agent);
            },
            Err(_) => {
                return Err(StoreError::BadRow);
            },
        }
        i = i + 1;
    }
    assert(agents@ =~= agents_of(rows@));
    Ok(agents)
}

/// Reads the answer to the query of a search: all agents that matched, newest
/// first as the query asked.
pub fn search_database(reply: Result<Vec<Row>, Failure>) -> (agents: Result<
    Vec<Agent>,
    StoreError,
>)
    ensures
        match agents {
            Ok(agents) => spec_search_database(reply) == Ok::<Seq<Agent>, StoreError>(agents@),
            Err(error) => spec_search_database(reply) == Err::<Seq<Agent>, StoreError>(error),
        },
{
    match reply {
        Err(failure) => Err(failure.error()),
        Ok(rows) => decode_rows(&rows),
    }
}

/// Builds the statement that records a new agent under the name in `body`
/// and asks for the record back.
pub fn insert_statement(body: &AgentRequest) -> (statement: Statement)
    ensures
        statement@ == (StatementView {
            text: "INSERT INTO agents (unique_id) VALUES ($1) RETURNING *"@,
            params: seq![ParamView::Text(body@)],
        }),
{
    let mut params: Vec<Param> = Vec::new();
    params.push(Param::Text(body.unique_id()));
    let statement = Statement {
        text: String::from_str("INSERT INTO agents (unique_id) VALUES ($1) RETURNING *"),
        params,
    };
    assert(statement@.params =~= seq![ParamView::Text(body@)]);
    statement
}

/// The statement that records the sign-in at `last_signin` for the agent
/// whose handle is `id`.
pub open spec fn spec_update_statement(id: i64, last_signin: Timestamp) -> StatementView {
    StatementView {
        text: "UPDATE agents SET last_signin = $1 WHERE id = $2 RETURNING *"@,
        params: seq![ParamView::Timestamp(last_signin), ParamView::BigInt(id)],
    }
}

/// The statement that removes the agent whose handle is `id`.
pub open spec fn spec_delete_statement(id: i64) -> StatementView {
    StatementView {
        text: "DELETE FROM agents WHERE id = $1"@,
        params: seq![ParamView::BigInt(id)],
    }
}

/// Plans the recording of the sign-in in `body` for the agent `id`. For a
/// handle that the store can have given out the plan is the statement that
/// updates the record and asks for it back. No agent has any other handle:
/// the answer is `NotFound`, and nothing is sent.
pub fn plan_update(id: usize, body: &AgentUpdateRequest) -> (plan: Plan<Result<Agent, StoreError>>)
    ensures
        match plan {
            Plan::Ask(statement) => id <= i64::MAX && statement@ == spec_update_statement(
                id as i64,
                body@,
            ),
            Plan::Answer(answer) => id > i64::MAX && answer == Err::<Agent, StoreError>(
                StoreError::NotFound,
            ),
        },
{
    if in_store_range(id) {
        let mut params: Vec<Param> = Vec::new();
        params.push(Param::Timestamp(body.last_signin()));
        params.push(Param::BigInt(id as i64));
        let statement = Statement {
            text: String::from_str("UPDATE agents SET last_signin = $1 WHERE id = $2 RETURNING *"),
            params,
        };
        assert(statement@.params =~= spec_update_statement(id as i64, body@).params);
        Plan::Ask(statement)
    } else {
        Plan::Answer(Err(StoreError::NotFound))
    }
}

/// Plans the removal of the agent `id`. For a handle that the store can have
/// given out the plan is the statement that removes the record. No agent has
/// any other handle: the answer is that nothing was removed, and nothing is
/// sent.
pub fn plan_delete(id: usize) -> (plan: Plan<Result<u64, StoreError>>)
    ensures
        match plan {
            Plan::Ask(statement) => id <= i64::MAX && statement@ == spec_delete_statement(
                id as i64,
            ),
            Plan::Answer(answer) => id > i64::MAX && answer == Ok::<u64, StoreError>(0),
        },
{
    if in_store_range(id) {
        let mut params: Vec<Param> = Vec::new();
        params.push(Param::BigInt(id as i64));
        let statement = Statement {
            text: String::from_str("DELETE FROM agents WHERE id = $1"),
            params,
        };
        assert(statement@.params =~= spec_delete_statement(id as i64).params);
        Plan::Ask(statement)
    } else {
        Plan::Answer(Ok(0))
    }
}

/// What the answer to a statement that returns the one record it wrote means.
/// `missing` is the error for an answer without any row.
pub open spec fn spec_one_agent(reply: Result<Vec<Row>, Failure>, missing: StoreError) -> Result<
    Agent,
    StoreError,
> {
    match reply {
        Err(failure) => Err(failure.spec_error()),
        Ok(rows) => if rows@.len() == 0 {
            Err(missing)
        } else if rows@.len() > 1 {
            Err(StoreError::RowCount)
        } else if rows@[0].decodes() {
            Ok(rows@[0].agent())
        } else {
            Err(StoreError::BadRow)
        },
    }
}

fn one_agent(reply: Result<Vec<Row>, Failure>, missing: StoreError) -> (agent: Result<
    Agent,
    StoreError,
>)
    ensures
        agent == spec_one_agent(reply, missing),
{
    match reply {
        Err(failure) => Err(failure.error()),
        Ok(rows) => {
            if rows.len() == 0 {
                Err(missing)
            } else if rows.len() > 1 {
                Err(StoreError::RowCount)
            } else {
                Agent::from_database(&rows[0])
            }
        },
    }
}

/// Reads the answer to the statement that records a new agent.
///
/// The one row of the answer is the new record. A name that is already taken
/// comes back from the store as a violated uniqueness and gives
/// `DuplicateKey`; any other failure gives the error that `Failure::error`
/// assigns to it. An answer with no row or with several gives `RowCount`, and
/// a row that is no agent record `BadRow`.
pub fn add_agent(reply: Result<Vec<Row>, Failure>) -> (agent: Result<Agent, StoreError>)
    ensures
        agent == spec_one_agent(reply, StoreError::RowCount),
{
    one_agent(reply, StoreError::RowCount)
}

/// Reads the answer to the statement that records a sign-in.
///
/// The one row of the answer is the updated record. An answer without a row
/// says that no agent has the handle and gives `NotFound`. A failure of the
/// store gives the error that `Failure::error` assigns to it, an answer with
/// several rows `RowCount`, and a row that is no agent record `BadRow`.
pub fn update_agent(reply: Result<Vec<Row>, Failure>) -> (agent: Result<Agent, StoreError>)
    ensures
        agent == spec_one_agent(reply, StoreError::NotFound),
{
    one_agent(reply, StoreError::NotFound)
}

/// Reads the answer to the statement that removes an agent: the number of
/// records that were removed, or the error that `Failure::error` assigns to
/// the store's failure.
pub fn delete_agent(reply: Result<u64, Failure>) -> (removed: Result<u64, StoreError>)
    ensures
        match reply {
            Ok(count) => removed == Ok::<u64, StoreError>(count),
            Err(failure) => removed == Err::<u64, StoreError>(failure.spec_error()),
        },
{
    match reply {
        Ok(count) => Ok(count),
        Err(failure) => Err(failure.error()),
    }
}

/// What is added is what is found.
///
/// Let the store answer the insert with one row, and a later search with an
/// answer that has this row first. Then `add_agent` and `Search::find` give
/// the same agent, or the same `BadRow`. An agent only comes from a row whose
/// columns are all there, and it has the row's name and the row's time of
/// insertion.
pub proof fn lemma_added_is_found(added: Vec<Row>, found: Vec<Row>)
    requires
        added@.len() == 1,
        found@.len() >= 1,
        found@[0] == added@[0],
        forall|i: int| 1 <= i < found@.len() ==> (#[trigger] found@[i]).decodes(),
    ensures
        match spec_one_agent(Ok(added), StoreError::RowCount) {
            Ok(agent) => {
                &&& spec_find(Ok(found)) == Ok::<Option<Agent>, StoreError>(Some(agent))
                &&& added@[0].unique_id == Some(agent.unique_id)
                &&& added@[0].created_at == Some(agent.created_at)
                &&& added@[0].last_signin == Some(agent.last_signin)
                &&& added@[0].id == Some(agent.id as i64)
            },
            Err(error) => {
                &&& error == StoreError::BadRow
                &&& spec_find(Ok(found)) == Err::<Option<Agent>, StoreError>(StoreError::BadRow)
            },
        },
{
    if added@[0].decodes() {
        assert(all_decode(found@));
        assert(agents_of(found@)[0] == found@[0].agent());
    } else {
        assert(!found@[0].decodes());
    }
}

} // verus!
