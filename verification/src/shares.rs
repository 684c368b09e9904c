//! The shares service: requests that reach it, the share accounting it
//! keeps, the rows it writes, and the settings of its database.

use vstd::prelude::*;
use crate::decimal::{decimal, decimal_string, parse_u16, u16_from_text};

verus! {

/// A request to the shares service.
pub enum SharesRequest {
    /// A block was produced: `(height, block hash, workername, apikey)`.
    NewBlock(u32, String, String, String),
    /// A worker came or went: `(workername, apikey, is_connected)`.
    Connect(String, String, bool),
}

/// The reward recorded with every block.
pub const BLOCK_REWARD: i32 = 82;

/// The share recorded for the worker of every block.
pub const SHARE_PER_BLOCK: i64 = 1;

/// The row written to the `block` table.
pub struct BlockRow {
    pub height: i64,
    pub block_hash: String,
    pub reward: i32,
}

/// The row written to the `share` table.
#[derive(Debug, PartialEq, Eq, Structural)]
pub struct ShareRow {
    pub block_id: i32,
    pub worker_id: i32,
    pub share: i64,
}

/// The row written to the `worker` table.
pub struct WorkerRow {
    pub name: String,
    pub status: String,
    pub api_key: String,
}

/// What the database is asked to do for a request.
pub enum ShareAction {
    /// Record a block, and a share of it for the worker `(workername, apikey)`.
    SaveBlock(BlockRow, String, String),
    /// Record a worker's status.
    SaveWorker(WorkerRow),
}

/// What the database answered; the id of the written row when it succeeded.
pub enum ShareOutcome {
    BlockSaved(Option<i32>),
    WorkerSaved(Option<i32>),
}

/// The status word of a worker.
pub open spec fn worker_status_text(is_connect: bool) -> Seq<char> {
    if is_connect {
        "online"@
    } else {
        "offline"@
    }
}

/// An id the database gave, or zero when it gave none.
pub open spec fn id_or_zero(id: Option<i32>) -> i32 {
    match id {
        Some(i) => i,
        None => 0,
    }
}

/// The database recorded a block.
pub open spec fn saves_block(outcome: ShareOutcome) -> bool {
    outcome matches ShareOutcome::BlockSaved(Some(_))
}

/// The block count after one answer of the database, from `count`.
pub open spec fn count_step(count: nat, outcome: ShareOutcome) -> nat {
    if saves_block(outcome) {
        count + 1
    } else {
        count
    }
}

/// The block count after the answers `outcomes`, taken in order, from `count`.
pub open spec fn count_after(count: nat, outcomes: Seq<ShareOutcome>) -> nat
    decreases outcomes.len(),
{
    if outcomes.len() == 0 {
        count
    } else {
        count_step(count_after(count, outcomes.drop_last()), outcomes.last())
    }
}

/// After any run of answers, the block count has grown by the number of
/// answers that recorded a block: worker answers and failed saves never
/// change it.
pub proof fn law_block_count(count: nat, outcomes: Seq<ShareOutcome>)
    ensures
        count_after(count, outcomes) == count + outcomes.filter(|o: ShareOutcome| saves_block(o)).len(),
    decreases outcomes.len(),
{
    reveal_with_fuel(Seq::filter, 1);
    if outcomes.len() > 0 {
        law_block_count(count, outcomes.drop_last());
    }
}

/// The shares service's accounting: how many blocks it recorded.
#[derive(Clone, Copy, Debug)]
pub struct Shares {
    block_count: usize,
}

impl Shares {
    /// The number of blocks recorded so far.
    pub closed spec fn count(&self) -> nat {
        self.block_count as nat
    }

    /// A service that recorded nothing.
    pub fn new() -> (r: Shares)
        ensures
            r.count() == 0,
    {
        Shares { block_count: 0 }
    }

    /// The number of blocks recorded so far.
    pub fn block_count(&self) -> (n: usize)
        ensures
            n == self.count(),
    {
        self.block_count
    }

    /// The status line: `block count <n>`.
    pub fn status(&self) -> (r: String)
        ensures
            r@ == "block count "@ + decimal(self.count()),
    {
        let mut r = String::from_str("block count ");
        let d = decimal_string(self.block_count as u64);
        r.append(d.as_str());
        r
    }

    /// What the database is asked to do for `request`: a new block is
    /// recorded with its worker's share, a worker's coming or going is
    /// recorded with its status.
    pub fn update(&self, request: SharesRequest) -> (a: ShareAction)
        ensures
            match request {
                SharesRequest::NewBlock(height, hash, w, k) => match a {
                    ShareAction::SaveBlock(row, aw, ak) => row.height == height as i64
                        && row.block_hash@ == hash@ && row.reward == BLOCK_REWARD && aw@ == w@
                        && ak@ == k@,
                    _ => false,
                },
                SharesRequest::Connect(w, k, up) => match a {
                    ShareAction::SaveWorker(row) => row.name@ == w@ && row.api_key@ == k@
                        && row.status@ == worker_status_text(up),
                    _ => false,
                },
            },
    {
        match request {
            SharesRequest::NewBlock(height, block_hash, workername, apikey) => {
                ShareAction::SaveBlock(Shares::block_row(height, block_hash), workername, apikey)
            },
            SharesRequest::Connect(workername, apikey, is_connect) => {
                ShareAction::SaveWorker(Shares::worker_row(workername, is_connect, apikey))
            },
        }
    }

    /// Takes the database's answer: a block that was recorded is counted.
    pub fn record_outcome(&mut self, outcome: ShareOutcome)
        requires
            saves_block(outcome) ==> old(self).count() < usize::MAX,
        ensures
            final(self).count() == count_step(old(self).count(), outcome),
    {
        match outcome {
            ShareOutcome::BlockSaved(Some(_)) => {
                self.block_count = self.block_count + 1;
            },
            _ => {},
        }
    }

    /// The block row for a block at `height` with hash `block_hash`.
    pub fn block_row(height: u32, block_hash: String) -> (r: BlockRow)
        ensures
            r.height == height as i64,
            r.block_hash@ == block_hash@,
            r.reward == BLOCK_REWARD,
    {
        BlockRow { height: height as i64, block_hash, reward: BLOCK_REWARD }
    }

    /// The share row of a recorded block, with the ids the database gave or
    /// zero for each it did not give.
    pub fn share_row(block_id: Option<i32>, worker_id: Option<i32>) -> (r: ShareRow)
        ensures
            r == (ShareRow {
                block_id: id_or_zero(block_id),
                worker_id: id_or_zero(worker_id),
                share: SHARE_PER_BLOCK,
            }),
    {
        let b = match block_id {
            Some(i) => i,
            None => 0,
        };
        let w = match worker_id {
            Some(i) => i,
            None => 0,
        };
        ShareRow { block_id: b, worker_id: w, share: SHARE_PER_BLOCK }
    }

    /// The status word of a worker: `online` or `offline`.
    pub fn worker_status(is_connect: bool) -> (r: &'static str)
        ensures
            r@ == worker_status_text(is_connect),
    {
        if is_connect {
            "online"
        } else {
            "offline"
        }
    }

    /// The worker row for `name` with `apikey`, online when `is_connect`.
    pub fn worker_row(name: String, is_connect: bool, apikey: String) -> (r: WorkerRow)
        ensures
            r.name@ == name@,
            r.api_key@ == apikey@,
            r.status@ == worker_status_text(is_connect),
    {
        WorkerRow {
            name,
            status: String::from_str(Shares::worker_status(is_connect)),
            api_key: apikey,
        }
    }
}

/// Why the database settings could not be made.
#[derive(Debug, PartialEq, Eq, Structural)]
pub enum DbConfigError {
    NoHost,
    InvalidPort,
    NoDatabase,
    NoUser,
    NoPassword,
}

impl DbConfigError {
    /// The message the service stops with.
    pub fn message(&self) -> (r: &'static str)
        ensures
            r@ == db_error_text(*self),
    {
        match self {
            DbConfigError::NoHost => "No database host defined",
            DbConfigError::InvalidPort => "Invalid database port",
            DbConfigError::NoDatabase => "No database name defined",
            DbConfigError::NoUser => "No database user defined",
            DbConfigError::NoPassword => "No database password defined",
        }
    }
}

/// The message of each settings error.
pub open spec fn db_error_text(e: DbConfigError) -> Seq<char> {
    match e {
        DbConfigError::NoHost => "No database host defined"@,
        DbConfigError::InvalidPort => "Invalid database port"@,
        DbConfigError::NoDatabase => "No database name defined"@,
        DbConfigError::NoUser => "No database user defined"@,
        DbConfigError::NoPassword => "No database password defined"@,
    }
}

/// The port used when none is configured.
pub open spec fn default_db_port() -> Seq<char> {
    "5432"@
}

/// The schema used when none is configured.
pub open spec fn default_db_schema() -> Seq<char> {
    "public"@
}

/// The settings of the database connection.
pub struct DbSettings {
    pub host: String,
    pub port: u16,
    pub dbname: String,
    pub user: String,
    pub password: String,
    pub schema: String,
}

impl DbSettings {
    /// Settings from the configured values. Host, database name, user and
    /// password are required, checked in that order after the host with the
    /// port in between; the port, when not configured, is `5432`, and must
    /// read as a 16-bit number; the schema, when not configured, is `public`.
    pub fn from_values(
        host: Option<String>,
        port: Option<String>,
        dbname: Option<String>,
        user: Option<String>,
        password: Option<String>,
        schema: Option<String>,
    ) -> (r: Result<DbSettings, DbConfigError>)
        ensures
            host is None ==> r == Err::<DbSettings, DbConfigError>(DbConfigError::NoHost),
            host is Some && u16_from_text(
                match port {
                    Some(p) => p@,
                    None => default_db_port(),
                },
            ) is None ==> r == Err::<DbSettings, DbConfigError>(DbConfigError::InvalidPort),
            host is Some && u16_from_text(
                match port {
                    Some(p) => p@,
                    None => default_db_port(),
                },
            ) is Some ==> {
                if dbname is None {
                    r == Err::<DbSettings, DbConfigError>(DbConfigError::NoDatabase)
                } else if user is None {
                    r == Err::<DbSettings, DbConfigError>(DbConfigError::NoUser)
                } else if password is None {
                    r == Err::<DbSettings, DbConfigError>(DbConfigError::NoPassword)
                } else {
                    r is Ok && r->Ok_0.host@ == host->Some_0@ && Some(r->Ok_0.port)
                        == u16_from_text(
                        match port {
                            Some(p) => p@,
                            None => default_db_port(),
                        },
                    ) && r->Ok_0.dbname@ == dbname->Some_0@ && r->Ok_0.user@ == user->Some_0@
                        && r->Ok_0.password@ == password->Some_0@ && r->Ok_0.schema@ == match schema {
                        Some(s) => s@,
                        None => default_db_schema(),
                    }
                }
            },
    {
        let host = match host {
            Some(h) => h,
            None => return Err(DbConfigError::NoHost),
        };
        let port_text = match port {
            Some(p) => p,
            None => String::from_str("5432"),
        };
        let port = match parse_u16(port_text.as_str()) {
            Some(p) => p,
            None => return Err(DbConfigError::InvalidPort),
        };
        let dbname = match dbname {
            Some(d) => d,
            None => return Err(DbConfigError::NoDatabase),
        };
        let user = match user {
            Some(u) => u,
            None => return Err(DbConfigError::NoUser),
        };
        let password = match password {
            Some(p) => p,
            None => return Err(DbConfigError::NoPassword),
        };
        let schema = match schema {
            Some(s) => s,
            None => String::from_str("public"),
        };
        Ok(DbSettings { host, port, dbname, user, password, schema })
    }

    /// The statement each new connection runs: `set search_path = <schema>`.
    pub fn search_path_statement(&self) -> (r: String)
        ensures
            r@ == "set search_path = "@ + self.schema@,
    {
        let mut r = String::from_str("set search_path = ");
        r.append(self.schema.as_str());
        r
    }
}


/// Every answer that saved a block counts one, whatever id the database
/// gave; a failed save and every worker answer count nothing.
pub proof fn law_count_step(count: nat, id: i32, worker: Option<i32>)
    ensures
        count_step(count, ShareOutcome::BlockSaved(Some(id))) == count + 1,
        count_step(count, ShareOutcome::BlockSaved(None)) == count,
        count_step(count, ShareOutcome::WorkerSaved(worker)) == count,
{
}

/// The share row carries the ids the database gave unchanged, and zero for
/// an id it did not give.
pub proof fn law_id_or_zero(id: i32)
    ensures
        id_or_zero(Some(id)) == id,
        id_or_zero(None) == 0,
{
}

} // verus!
