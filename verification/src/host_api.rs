//! Host operations used by FastDL services.
//!
//! The services reach the panel and the node daemons only through [`HostApi`].
//! Stored settings and uploaded configuration documents cross this interface as
//! typed values; their JSON encoding belongs to the implementation.
use vstd::prelude::*;

use crate::domain::node::{NodeConfigView, NodeSetupStatusView};
use crate::domain::server::{ServerDropInView, ServerStateView};
use crate::domain::{DaemonConfig, NodeConfig, NodeOs, NodeSetupStatus, ServerDropIn, ServerState};
use crate::services::sync::DaemonConfigView;

verus! {

#[derive(Debug, Clone, PartialEq, Eq)]
pub enum HostApiError {
    /// ABI/transport failure of the host call itself.
    Call(String),
    /// The daemon/panel reported a failed operation (`success: false` / `error`).
    Op(String),
}

pub open spec fn host_error_message(e: HostApiError) -> Seq<char> {
    match e {
        HostApiError::Call(m) => m@,
        HostApiError::Op(m) => m@,
    }
}

impl HostApiError {
    pub fn message(&self) -> (r: &str)
        ensures
            r@ == host_error_message(*self),
    {
        match self {
            HostApiError::Call(message) => message.as_str(),
            HostApiError::Op(message) => message.as_str(),
        }
    }

    pub fn into_message(self) -> (r: String)
        ensures
            r@ == host_error_message(self),
    {
        match self {
            HostApiError::Call(message) => message,
            HostApiError::Op(message) => message,
        }
    }
}

pub type HostResult<T> = Result<T, HostApiError>;

/// Storage entity scope (mirrors `gameap.EntityType` + entity id).
#[derive(Debug, Clone, Copy, PartialEq, Eq, Structural)]
pub struct StorageEntity {
    pub entity_type: i32,
    pub entity_id: u64,
}

/// `gameap.EntityType::Node`.
pub const ENTITY_NODE: i32 = 2;

/// `gameap.EntityType::Server`.
pub const ENTITY_SERVER: i32 = 6;

impl StorageEntity {
    pub fn node(id: u64) -> (r: Self)
        ensures
            r == (StorageEntity { entity_type: ENTITY_NODE, entity_id: id }),
    {
        Self { entity_type: ENTITY_NODE, entity_id: id }
    }

    pub fn server(id: u64) -> (r: Self)
        ensures
            r == (StorageEntity { entity_type: ENTITY_SERVER, entity_id: id }),
    {
        Self { entity_type: ENTITY_SERVER, entity_id: id }
    }
}

#[derive(Debug, Clone, PartialEq, Eq)]
pub struct ServerInfo {
    pub id: u64,
    pub node_id: u64,
    pub name: String,
    pub game_id: String,
    pub dir: String,
    pub enabled: bool,
}

#[derive(Debug, Clone, PartialEq, Eq)]
pub struct NodeInfo {
    pub id: u64,
    pub name: String,
    pub ips: Vec<String>,
    pub work_path: String,
    /// `linux`, `windows`, `macos` or `other` as normalized by the panel;
    /// empty on hosts predating the field.
    pub os: String,
}

impl NodeInfo {
    pub fn os_kind(&self) -> (r: NodeOs)
        ensures
            r == crate::domain::node::spec_parse_os(self.os@),
    {
        NodeOs::parse(self.os.as_str())
    }
}

/// A daemon command outcome; both the exit status and transport error are checked.
#[derive(Debug, Clone, PartialEq, Eq)]
pub struct CommandOutput {
    pub output: String,
    pub exit_code: i32,
    pub error: Option<String>,
}

/// `gameap.DaemonTaskStatus`, narrowed to what this plugin branches on.
#[derive(Debug, Clone, Copy, PartialEq, Eq, Structural)]
pub enum TaskStatus {
    Waiting,
    Working,
    Error,
    Success,
    Canceled,
    Unknown,
}

pub open spec fn spec_task_status(value: i32) -> TaskStatus {
    if value == 1 {
        TaskStatus::Waiting
    } else if value == 2 {
        TaskStatus::Working
    } else if value == 3 {
        TaskStatus::Error
    } else if value == 4 {
        TaskStatus::Success
    } else if value == 5 {
        TaskStatus::Canceled
    } else {
        TaskStatus::Unknown
    }
}

impl TaskStatus {
    pub fn from_i32(value: i32) -> (r: Self)
        ensures
            r == spec_task_status(value),
    {
        match value {
            1 => TaskStatus::Waiting,
            2 => TaskStatus::Working,
            3 => TaskStatus::Error,
            4 => TaskStatus::Success,
            5 => TaskStatus::Canceled,
            _ => TaskStatus::Unknown,
        }
    }
}

#[derive(Debug, Clone, PartialEq, Eq)]
pub struct DaemonTaskInfo {
    pub id: u64,
    pub node_id: u64,
    pub status: TaskStatus,
    pub output: String,
}

/// A stored record: absent, present but unreadable, or decoded.
#[derive(Debug, Clone)]
pub enum Stored<T> {
    Missing,
    Invalid,
    Present(T),
}

/// The panel and daemon operations the plugin needs.
///
/// Implementations perform I/O: results depend on the panel, the node and the
/// network, so the library states nothing of them and checks what comes back.
pub trait HostApi {
    fn get_server(&mut self, id: u64) -> HostResult<Option<ServerInfo>>;

    /// Returns all matching, non-deleted servers without pagination or ordering.
    /// An empty filter list leaves that field unrestricted.
    fn find_servers(&mut self, ids: &[u64], node_ids: &[u64]) -> HostResult<Vec<ServerInfo>>;

    fn get_node(&mut self, id: u64) -> HostResult<Option<NodeInfo>>;

    /// Returns all non-deleted nodes without pagination or ordering.
    fn find_nodes(&mut self) -> HostResult<Vec<NodeInfo>>;

    /// The engine name the panel records for a game code, if the game exists.
    fn get_game_engine(&mut self, game_code: &str) -> HostResult<Option<String>>;

    fn execute_command(&mut self, node_id: u64, command: &str) -> HostResult<CommandOutput>;

    fn upload(&mut self, node_id: u64, path: &str, content: &[u8], permissions: u32) -> HostResult<
        (),
    >;

    /// Uploads the daemon's main configuration as a JSON document (mode 0600).
    fn upload_daemon_config(&mut self, node_id: u64, path: &str, config: &DaemonConfig)
        -> HostResult<()>;

    /// Uploads one server definition as a JSON document (mode 0600).
    fn upload_server_definition(
        &mut self,
        node_id: u64,
        path: &str,
        definition: &ServerDropIn,
    ) -> HostResult<()>;

    /// Creates a CMD_EXEC daemon task; returns the task id.
    fn create_daemon_task(&mut self, node_id: u64, command: &str, run_after_id: Option<u64>)
        -> HostResult<u64>;

    fn find_daemon_task(&mut self, task_id: u64) -> HostResult<Option<DaemonTaskInfo>>;

    fn load_node_config(&mut self, key: &str, entity: StorageEntity) -> HostResult<
        Stored<NodeConfig>,
    >;

    fn load_setup_status(&mut self, key: &str, entity: StorageEntity) -> HostResult<
        Stored<NodeSetupStatus>,
    >;

    fn load_server_state(&mut self, key: &str, entity: StorageEntity) -> HostResult<
        Stored<ServerState>,
    >;

    /// Entries matching a key prefix within one entity scope: (key, record).
    fn list_server_states(&mut self, key_prefix: &str, entity: StorageEntity) -> HostResult<
        Vec<(String, Stored<ServerState>)>,
    >;

    fn save_node_config(&mut self, key: &str, entity: StorageEntity, config: &NodeConfig)
        -> HostResult<()>;

    fn save_setup_status(&mut self, key: &str, entity: StorageEntity, status: &NodeSetupStatus)
        -> HostResult<()>;

    fn save_server_state(&mut self, key: &str, entity: StorageEntity, state: &ServerState)
        -> HostResult<()>;

    fn storage_delete(&mut self, key: &str, entity: StorageEntity) -> HostResult<()>;

    fn authz_can(&mut self, user_id: u64, abilities: &[&str]) -> HostResult<bool>;

    fn authz_can_any_for_entity(
        &mut self,
        user_id: u64,
        entity: StorageEntity,
        abilities: &[&str],
    ) -> HostResult<bool>;

    fn random_string(&mut self, length: i32, charset: Option<&str>) -> HostResult<String>;

    /// Wall-clock seconds since the Unix epoch.
    fn now_unix(&mut self) -> i64;

    fn log_error(&mut self, message: &str);
}


/// An operation that changes something: an upload, a daemon task, a command run,
/// a storage write or deletion.
pub open spec fn is_write(call: HostCall) -> bool {
    ||| call is ExecuteCommand
    ||| call is Upload
    ||| call is UploadDaemonConfig
    ||| call is UploadServerDefinition
    ||| call is CreateDaemonTask
    ||| call is SaveNodeConfig
    ||| call is SaveSetupStatus
    ||| call is SaveServerState
    ||| call is StorageDelete
}

/// Only reads were made from position `from` on.
pub open spec fn reads_only(log: Seq<HostCall>, from: int) -> bool {
    forall|i: int| from <= i < log.len() ==> !is_write(#[trigger] log[i])
}

/// Nothing was stored, deleted or uploaded from position `from` on: every call
/// made is a read, a log line or a command run on a node.
pub open spec fn commands_only(log: Seq<HostCall>, from: int) -> bool {
    forall|i: int| from <= i < log.len() ==> !is_write(#[trigger] log[i]) || log[i] is ExecuteCommand
}

/// The storage scope of a node.
pub open spec fn node_scope(id: u64) -> StorageEntity {
    StorageEntity { entity_type: ENTITY_NODE, entity_id: id }
}

/// The storage scope of a game server.
pub open spec fn server_scope(id: u64) -> StorageEntity {
    StorageEntity { entity_type: ENTITY_SERVER, entity_id: id }
}

/// One host operation as the plugin made it: what was asked, and what came back.
pub enum HostCall {
    GetServer { id: u64, answer: HostResult<Option<ServerInfo>> },
    FindServers { ids: Seq<u64>, node_ids: Seq<u64>, answer: HostResult<Vec<ServerInfo>> },
    GetNode { id: u64, answer: HostResult<Option<NodeInfo>> },
    FindNodes { answer: HostResult<Vec<NodeInfo>> },
    GetGameEngine { game_code: Seq<char>, answer: HostResult<Option<String>> },
    ExecuteCommand { node_id: u64, command: Seq<char>, answer: HostResult<CommandOutput> },
    Upload {
        node_id: u64,
        path: Seq<char>,
        content: Seq<u8>,
        permissions: u32,
        answer: HostResult<()>,
    },
    UploadDaemonConfig {
        node_id: u64,
        path: Seq<char>,
        config: DaemonConfigView,
        answer: HostResult<()>,
    },
    UploadServerDefinition {
        node_id: u64,
        path: Seq<char>,
        definition: ServerDropInView,
        answer: HostResult<()>,
    },
    CreateDaemonTask {
        node_id: u64,
        command: Seq<char>,
        run_after_id: Option<u64>,
        answer: HostResult<u64>,
    },
    FindDaemonTask { task_id: u64, answer: HostResult<Option<DaemonTaskInfo>> },
    LoadNodeConfig { key: Seq<char>, entity: StorageEntity, answer: HostResult<Stored<NodeConfig>> },
    LoadSetupStatus {
        key: Seq<char>,
        entity: StorageEntity,
        answer: HostResult<Stored<NodeSetupStatus>>,
    },
    LoadServerState {
        key: Seq<char>,
        entity: StorageEntity,
        answer: HostResult<Stored<ServerState>>,
    },
    ListServerStates {
        key_prefix: Seq<char>,
        entity: StorageEntity,
        answer: HostResult<Vec<(String, Stored<ServerState>)>>,
    },
    SaveNodeConfig {
        key: Seq<char>,
        entity: StorageEntity,
        config: NodeConfigView,
        answer: HostResult<()>,
    },
    SaveSetupStatus {
        key: Seq<char>,
        entity: StorageEntity,
        status: NodeSetupStatusView,
        answer: HostResult<()>,
    },
    SaveServerState {
        key: Seq<char>,
        entity: StorageEntity,
        state: ServerStateView,
        answer: HostResult<()>,
    },
    StorageDelete { key: Seq<char>, entity: StorageEntity, answer: HostResult<()> },
    AuthzCan { user_id: u64, abilities: Seq<Seq<char>>, answer: HostResult<bool> },
    AuthzCanAnyForEntity {
        user_id: u64,
        entity: StorageEntity,
        abilities: Seq<Seq<char>>,
        answer: HostResult<bool>,
    },
    RandomString { length: i32, charset: Option<Seq<char>>, answer: HostResult<String> },
    NowUnix { answer: i64 },
    LogError { message: Seq<char> },
}

/// The answer to an upload, a storage write or a deletion.
pub open spec fn write_answer(call: HostCall) -> HostResult<()> {
    match call {
        HostCall::Upload { answer, .. } => answer,
        HostCall::UploadDaemonConfig { answer, .. } => answer,
        HostCall::UploadServerDefinition { answer, .. } => answer,
        HostCall::SaveNodeConfig { answer, .. } => answer,
        HostCall::SaveSetupStatus { answer, .. } => answer,
        HostCall::SaveServerState { answer, .. } => answer,
        HostCall::StorageDelete { answer, .. } => answer,
        _ => Ok(()),
    }
}

pub open spec fn str_views(s: Seq<&str>) -> Seq<Seq<char>> {
    s.map_values(|x: &str| x@)
}

pub open spec fn opt_str(s: Option<&str>) -> Option<Seq<char>> {
    match s {
        Some(v) => Some(v@),
        None => None,
    }
}

/// A host connection together with the record of every operation made through it.
///
/// The record is what the services' contracts speak of: which calls they make, in
/// which order, with which arguments, and what they do with each answer.
pub struct Host<H> {
    pub api: H,
    log: Ghost<Seq<HostCall>>,
}

impl<H> Host<H> {
    /// The host connection itself.
    pub closed spec fn connection(self) -> H {
        self.api
    }
}

impl<H> View for Host<H> {
    type V = Seq<HostCall>;

    closed spec fn view(&self) -> Seq<HostCall> {
        self.log@
    }
}

/// The operations made between two points of a host's record.
pub open spec fn made(before: Seq<HostCall>, after: Seq<HostCall>) -> Seq<HostCall> {
    after.subrange(before.len() as int, after.len() as int)
}

/// `after` continues the record `before`.
pub open spec fn extends(before: Seq<HostCall>, after: Seq<HostCall>) -> bool {
    &&& before.len() <= after.len()
    &&& forall|i: int| 0 <= i < before.len() ==> #[trigger] after[i] == before[i]
}

/// `after` is `before` followed by the one operation `call`.
pub open spec fn appended(before: Seq<HostCall>, after: Seq<HostCall>, call: HostCall) -> bool {
    &&& after == before.push(call)
    &&& extends(before, after)
    &&& made(before, after) == seq![call]
}

proof fn lemma_appended(before: Seq<HostCall>, call: HostCall)
    ensures
        appended(before, before.push(call), call),
{
    assert(made(before, before.push(call)) =~= seq![call]);
}

/// The operations a step made, between `before` and `after`, start the
/// operations made from `start` to `fin`, shifted by what came before the step.
pub proof fn lemma_stage(start: Seq<HostCall>, before: Seq<HostCall>, after: Seq<HostCall>, fin: Seq<HostCall>)
    requires
        extends(start, before),
        extends(before, after),
        extends(after, fin),
    ensures
        extends(made(before, after), made(start, fin).skip(before.len() - start.len())),
{
}

/// What a first step made starts what the whole made, and the rest is what came
/// after the step.
pub proof fn lemma_prefix_made(start: Seq<HostCall>, mid: Seq<HostCall>, fin: Seq<HostCall>)
    requires
        extends(start, mid),
        extends(mid, fin),
    ensures
        extends(made(start, mid), made(start, fin)),
        made(start, fin).skip(made(start, mid).len() as int) == made(mid, fin),
{
    assert(made(start, fin).skip(made(start, mid).len() as int) =~= made(mid, fin));
}

/// Records made one after the other compose.
pub proof fn lemma_made_compose(a: Seq<HostCall>, b: Seq<HostCall>, c: Seq<HostCall>)
    requires
        extends(a, b),
        extends(b, c),
    ensures
        extends(a, c),
        made(a, c) == made(a, b) + made(b, c),
{
    assert(made(a, c) =~= made(a, b) + made(b, c));
}

impl<H: HostApi> Host<H> {
    pub fn new(api: H) -> (r: Self)
        ensures
            r.connection() == api,
            r@ == Seq::<HostCall>::empty(),
    {
        Host { api, log: Ghost(Seq::empty()) }
    }

    pub fn get_server(&mut self, id: u64) -> (r: HostResult<Option<ServerInfo>>)
        ensures
            appended(old(self)@, final(self)@, HostCall::GetServer { id, answer: r }),
    {
        let r = self.api.get_server(id);
        proof {
            let ghost call = HostCall::GetServer { id, answer: r };
            lemma_appended(self.log@, call);
            self.log@ = self.log@.push(call);
        }
        r
    }

    pub fn find_servers(&mut self, ids: &[u64], node_ids: &[u64]) -> (r: HostResult<Vec<ServerInfo>>)
        ensures
            appended(old(self)@, final(self)@, 
                HostCall::FindServers { ids: ids@, node_ids: node_ids@, answer: r },
            ),
    {
        let r = self.api.find_servers(ids, node_ids);
        proof {
            let ghost call = HostCall::FindServers { ids: ids@, node_ids: node_ids@, answer: r };
            lemma_appended(self.log@, call);
            self.log@ = self.log@.push(call);
        }
        r
    }

    pub fn get_node(&mut self, id: u64) -> (r: HostResult<Option<NodeInfo>>)
        ensures
            appended(old(self)@, final(self)@, HostCall::GetNode { id, answer: r }),
    {
        let r = self.api.get_node(id);
        proof {
            let ghost call = HostCall::GetNode { id, answer: r };
            lemma_appended(self.log@, call);
            self.log@ = self.log@.push(call);
        }
        r
    }

    pub fn find_nodes(&mut self) -> (r: HostResult<Vec<NodeInfo>>)
        ensures
            appended(old(self)@, final(self)@, HostCall::FindNodes { answer: r }),
    {
        let r = self.api.find_nodes();
        proof {
            let ghost call = HostCall::FindNodes { answer: r };
            lemma_appended(self.log@, call);
            self.log@ = self.log@.push(call);
        }
        r
    }

    pub fn get_game_engine(&mut self, game_code: &str) -> (r: HostResult<Option<String>>)
        ensures
            appended(old(self)@, final(self)@, 
                HostCall::GetGameEngine { game_code: game_code@, answer: r },
            ),
    {
        let r = self.api.get_game_engine(game_code);
        proof {
            let ghost call = HostCall::GetGameEngine { game_code: game_code@, answer: r };
            lemma_appended(self.log@, call);
            self.log@ = self.log@.push(call);
        }
        r
    }

    pub fn execute_command(&mut self, node_id: u64, command: &str) -> (r: HostResult<CommandOutput>)
        ensures
            appended(old(self)@, final(self)@, 
                HostCall::ExecuteCommand { node_id, command: command@, answer: r },
            ),
    {
        let r = self.api.execute_command(node_id, command);
        proof {
            let ghost call = HostCall::ExecuteCommand { node_id, command: command@, answer: r };
            lemma_appended(self.log@, call);
            self.log@ = self.log@.push(call);
        }
        r
    }

    pub fn upload(&mut self, node_id: u64, path: &str, content: &[u8], permissions: u32) -> (r:
        HostResult<()>)
        ensures
            appended(old(self)@, final(self)@, 
                HostCall::Upload { node_id, path: path@, content: content@, permissions, answer: r },
            ),
    {
        let r = self.api.upload(node_id, path, content, permissions);
        proof {
            let ghost call = HostCall::Upload { node_id, path: path@, content: content@, permissions, answer: r };
            lemma_appended(self.log@, call);
            self.log@ = self.log@.push(call);
        }
        r
    }

    pub fn upload_daemon_config(&mut self, node_id: u64, path: &str, config: &DaemonConfig) -> (r:
        HostResult<()>)
        ensures
            appended(old(self)@, final(self)@, 
                HostCall::UploadDaemonConfig { node_id, path: path@, config: config@, answer: r },
            ),
    {
        let r = self.api.upload_daemon_config(node_id, path, config);
        proof {
            let ghost call = HostCall::UploadDaemonConfig { node_id, path: path@, config: config@, answer: r };
            lemma_appended(self.log@, call);
            self.log@ = self.log@.push(call);
        }
        r
    }

    pub fn upload_server_definition(&mut self, node_id: u64, path: &str, definition: &ServerDropIn)
        -> (r: HostResult<()>)
        ensures
            appended(old(self)@, final(self)@, 
                HostCall::UploadServerDefinition {
                    node_id,
                    path: path@,
                    definition: definition@,
                    answer: r,
                },
            ),
    {
        let r = self.api.upload_server_definition(node_id, path, definition);
        proof {
            let ghost call = HostCall::UploadServerDefinition {
                    node_id,
                    path: path@,
                    definition: definition@,
                    answer: r,
                };
            lemma_appended(self.log@, call);
            self.log@ = self.log@.push(call);
        }
        r
    }

    pub fn create_daemon_task(&mut self, node_id: u64, command: &str, run_after_id: Option<u64>) -> (r:
        HostResult<u64>)
        ensures
            appended(old(self)@, final(self)@, 
                HostCall::CreateDaemonTask { node_id, command: command@, run_after_id, answer: r },
            ),
    {
        let r = self.api.create_daemon_task(node_id, command, run_after_id);
        proof {
            let ghost call = HostCall::CreateDaemonTask { node_id, command: command@, run_after_id, answer: r };
            lemma_appended(self.log@, call);
            self.log@ = self.log@.push(call);
        }
        r
    }

    pub fn find_daemon_task(&mut self, task_id: u64) -> (r: HostResult<Option<DaemonTaskInfo>>)
        ensures
            appended(old(self)@, final(self)@, HostCall::FindDaemonTask { task_id, answer: r }),
    {
        let r = self.api.find_daemon_task(task_id);
        proof {
            let ghost call = HostCall::FindDaemonTask { task_id, answer: r };
            lemma_appended(self.log@, call);
            self.log@ = self.log@.push(call);
        }
        r
    }

    pub fn load_node_config(&mut self, key: &str, entity: StorageEntity) -> (r: HostResult<
        Stored<NodeConfig>,
    >)
        ensures
            appended(old(self)@, final(self)@, HostCall::LoadNodeConfig { key: key@, entity, answer: r }),
    {
        let r = self.api.load_node_config(key, entity);
        proof {
            let ghost call = HostCall::LoadNodeConfig { key: key@, entity, answer: r };
            lemma_appended(self.log@, call);
            self.log@ = self.log@.push(call);
        }
        r
    }

    pub fn load_setup_status(&mut self, key: &str, entity: StorageEntity) -> (r: HostResult<
        Stored<NodeSetupStatus>,
    >)
        ensures
            appended(old(self)@, final(self)@, HostCall::LoadSetupStatus { key: key@, entity, answer: r }),
    {
        let r = self.api.load_setup_status(key, entity);
        proof {
            let ghost call = HostCall::LoadSetupStatus { key: key@, entity, answer: r };
            lemma_appended(self.log@, call);
            self.log@ = self.log@.push(call);
        }
        r
    }

    pub fn load_server_state(&mut self, key: &str, entity: StorageEntity) -> (r: HostResult<
        Stored<ServerState>,
    >)
        ensures
            appended(old(self)@, final(self)@, HostCall::LoadServerState { key: key@, entity, answer: r }),
    {
        let r = self.api.load_server_state(key, entity);
        proof {
            let ghost call = HostCall::LoadServerState { key: key@, entity, answer: r };
            lemma_appended(self.log@, call);
            self.log@ = self.log@.push(call);
        }
        r
    }

    pub fn list_server_states(&mut self, key_prefix: &str, entity: StorageEntity) -> (r: HostResult<
        Vec<(String, Stored<ServerState>)>,
    >)
        ensures
            appended(old(self)@, final(self)@, 
                HostCall::ListServerStates { key_prefix: key_prefix@, entity, answer: r },
            ),
    {
        let r = self.api.list_server_states(key_prefix, entity);
        proof {
            let ghost call = HostCall::ListServerStates { key_prefix: key_prefix@, entity, answer: r };
            lemma_appended(self.log@, call);
            self.log@ = self.log@.push(call);
        }
        r
    }

    pub fn save_node_config(&mut self, key: &str, entity: StorageEntity, config: &NodeConfig) -> (r:
        HostResult<()>)
        ensures
            appended(old(self)@, final(self)@, 
                HostCall::SaveNodeConfig { key: key@, entity, config: config@, answer: r },
            ),
    {
        let r = self.api.save_node_config(key, entity, config);
        proof {
            let ghost call = HostCall::SaveNodeConfig { key: key@, entity, config: config@, answer: r };
            lemma_appended(self.log@, call);
            self.log@ = self.log@.push(call);
        }
        r
    }

    pub fn save_setup_status(&mut self, key: &str, entity: StorageEntity, status: &NodeSetupStatus)
        -> (r: HostResult<()>)
        ensures
            appended(old(self)@, final(self)@, 
                HostCall::SaveSetupStatus { key: key@, entity, status: status@, answer: r },
            ),
    {
        let r = self.api.save_setup_status(key, entity, status);
        proof {
            let ghost call = HostCall::SaveSetupStatus { key: key@, entity, status: status@, answer: r };
            lemma_appended(self.log@, call);
            self.log@ = self.log@.push(call);
        }
        r
    }

    pub fn save_server_state(&mut self, key: &str, entity: StorageEntity, state: &ServerState) -> (r:
        HostResult<()>)
        ensures
            appended(old(self)@, final(self)@, 
                HostCall::SaveServerState { key: key@, entity, state: state@, answer: r },
            ),
    {
        let r = self.api.save_server_state(key, entity, state);
        proof {
            let ghost call = HostCall::SaveServerState { key: key@, entity, state: state@, answer: r };
            lemma_appended(self.log@, call);
            self.log@ = self.log@.push(call);
        }
        r
    }

    pub fn storage_delete(&mut self, key: &str, entity: StorageEntity) -> (r: HostResult<()>)
        ensures
            appended(old(self)@, final(self)@, HostCall::StorageDelete { key: key@, entity, answer: r }),
    {
        let r = self.api.storage_delete(key, entity);
        proof {
            let ghost call = HostCall::StorageDelete { key: key@, entity, answer: r };
            lemma_appended(self.log@, call);
            self.log@ = self.log@.push(call);
        }
        r
    }

    pub fn authz_can(&mut self, user_id: u64, abilities: &[&str]) -> (r: HostResult<bool>)
        ensures
            appended(old(self)@, final(self)@, 
                HostCall::AuthzCan { user_id, abilities: str_views(abilities@), answer: r },
            ),
    {
        let r = self.api.authz_can(user_id, abilities);
        proof {
            let ghost call = HostCall::AuthzCan { user_id, abilities: str_views(abilities@), answer: r };
            lemma_appended(self.log@, call);
            self.log@ = self.log@.push(call);
        }
        r
    }

    pub fn authz_can_any_for_entity(
        &mut self,
        user_id: u64,
        entity: StorageEntity,
        abilities: &[&str],
    ) -> (r: HostResult<bool>)
        ensures
            appended(old(self)@, final(self)@, 
                HostCall::AuthzCanAnyForEntity {
                    user_id,
                    entity,
                    abilities: str_views(abilities@),
                    answer: r,
                },
            ),
    {
        let r = self.api.authz_can_any_for_entity(user_id, entity, abilities);
        proof {
            let ghost call = HostCall::AuthzCanAnyForEntity {
                    user_id,
                    entity,
                    abilities: str_views(abilities@),
                    answer: r,
                };
            lemma_appended(self.log@, call);
            self.log@ = self.log@.push(call);
        }
        r
    }

    pub fn random_string(&mut self, length: i32, charset: Option<&str>) -> (r: HostResult<String>)
        ensures
            appended(old(self)@, final(self)@, 
                HostCall::RandomString { length, charset: opt_str(charset), answer: r },
            ),
    {
        let r = self.api.random_string(length, charset);
        proof {
            let ghost call = HostCall::RandomString { length, charset: opt_str(charset), answer: r };
            lemma_appended(self.log@, call);
            self.log@ = self.log@.push(call);
        }
        r
    }

    pub fn now_unix(&mut self) -> (r: i64)
        ensures
            appended(old(self)@, final(self)@, HostCall::NowUnix { answer: r }),
    {
        let r = self.api.now_unix();
        proof {
            let ghost call = HostCall::NowUnix { answer: r };
            lemma_appended(self.log@, call);
            self.log@ = self.log@.push(call);
        }
        r
    }

    pub fn log_error(&mut self, message: &str)
        ensures
            appended(old(self)@, final(self)@, HostCall::LogError { message: message@ }),
    {
        self.api.log_error(message);
        proof {
            let ghost call = HostCall::LogError { message: message@ };
            lemma_appended(self.log@, call);
            self.log@ = self.log@.push(call);
        }
    }
}

} // verus!
