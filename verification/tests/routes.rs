use std::collections::{BTreeMap, VecDeque};

use fastdl::domain::{
    DaemonConfig, Engine, NodeConfig, NodeSetupStatus, ServerDropIn, ServerInput, ServerState,
    SetupInput, SetupStatus,
};
use fastdl::handlers::events::HostEvent;
use fastdl::handlers::handle;
use fastdl::host_api::{
    CommandOutput, DaemonTaskInfo, Host, HostApi, HostApiError, HostResult, NodeInfo, ServerInfo,
    StorageEntity, Stored, TaskStatus,
};
use fastdl::http::{invalid_body, ApiError, Reply, ReplyBody};
use fastdl::router::{route_request, RequestBody, RequestParts};
use fastdl::services::node_setup::{self, InstallerScripts};
use fastdl::services::{admin, store, sync};
use fastdl::FastdlPlugin;

const LINUX_INSTALLER: &[u8] = b"#!/bin/bash\n# installer for tests\n";
const WINDOWS_INSTALLER: &[u8] = b"param([string]$DownloadUrl)\n";

fn installers() -> InstallerScripts<'static> {
    InstallerScripts { linux: LINUX_INSTALLER, windows: WINDOWS_INSTALLER }
}

#[derive(Debug, Clone, PartialEq)]
enum Record {
    Config(NodeConfig),
    Status(NodeSetupStatus),
    Server(ServerState),
}

type StorageKey = (String, (i32, u64));

struct Mock {
    servers: BTreeMap<u64, ServerInfo>,
    nodes: BTreeMap<u64, NodeInfo>,
    game_engines: BTreeMap<String, String>,
    storage: BTreeMap<StorageKey, Record>,
    files: BTreeMap<(u64, String), Vec<u8>>,
    definitions: BTreeMap<(u64, String), ServerDropIn>,
    daemon_configs: BTreeMap<(u64, String), DaemonConfig>,
    uploads: Vec<(u64, String, u32)>,
    commands: Vec<String>,
    command_results: VecDeque<CommandOutput>,
    command_error: Option<HostApiError>,
    fail_on: Vec<(String, CommandOutput)>,
    created_tasks: Vec<(u64, u64, String, Option<u64>)>,
    task_states: BTreeMap<u64, DaemonTaskInfo>,
    next_task_id: u64,
    random_calls: usize,
    grants: Vec<(u64, u64, String)>,
    authz_down: bool,
    now: i64,
    logs: Vec<String>,
}

impl Mock {
    /// Node 1 ("node-1", linux, /srv/gameap) with server 3 ("cs", cstrike).
    fn standard() -> Self {
        let mut host = Mock {
            servers: BTreeMap::new(),
            nodes: BTreeMap::new(),
            game_engines: BTreeMap::new(),
            storage: BTreeMap::new(),
            files: BTreeMap::new(),
            definitions: BTreeMap::new(),
            daemon_configs: BTreeMap::new(),
            uploads: Vec::new(),
            commands: Vec::new(),
            command_results: VecDeque::new(),
            command_error: None,
            fail_on: Vec::new(),
            created_tasks: Vec::new(),
            task_states: BTreeMap::new(),
            next_task_id: 101,
            random_calls: 0,
            grants: Vec::new(),
            authz_down: false,
            now: 1_700_000_000,
            logs: Vec::new(),
        };
        host.nodes.insert(
            1,
            NodeInfo {
                id: 1,
                name: "node-1".into(),
                ips: vec!["203.0.113.1".into()],
                work_path: "/srv/gameap".into(),
                os: "linux".into(),
            },
        );
        host.servers.insert(
            3,
            ServerInfo {
                id: 3,
                node_id: 1,
                name: "cs".into(),
                game_id: "cstrike".into(),
                dir: "servers/cs".into(),
                enabled: true,
            },
        );
        host.game_engines.insert("cstrike".into(), "GoldSource".into());
        host.game_engines.insert("valve".into(), "GoldSource".into());
        host
    }

    fn key(key: &str, entity: StorageEntity) -> StorageKey {
        (key.to_string(), (entity.entity_type, entity.entity_id))
    }

    fn definition(&self, node_id: u64, server_id: u64) -> &ServerDropIn {
        let path = format!(".plugins/i3z7ix336msd4/servers.d/server-{server_id}.json");
        self.definitions.get(&(node_id, path)).expect("server definition is uploaded")
    }

    fn record_upload(&mut self, node_id: u64, path: &str, permissions: u32) {
        self.uploads.push((node_id, path.to_string(), permissions));
    }
}

impl HostApi for Mock {
    fn get_server(&mut self, id: u64) -> HostResult<Option<ServerInfo>> {
        Ok(self.servers.get(&id).cloned())
    }

    fn find_servers(&mut self, ids: &[u64], node_ids: &[u64]) -> HostResult<Vec<ServerInfo>> {
        Ok(self
            .servers
            .values()
            .filter(|server| ids.is_empty() || ids.contains(&server.id))
            .filter(|server| node_ids.is_empty() || node_ids.contains(&server.node_id))
            .cloned()
            .collect())
    }

    fn get_node(&mut self, id: u64) -> HostResult<Option<NodeInfo>> {
        Ok(self.nodes.get(&id).cloned())
    }

    fn find_nodes(&mut self) -> HostResult<Vec<NodeInfo>> {
        Ok(self.nodes.values().cloned().collect())
    }

    fn get_game_engine(&mut self, game_code: &str) -> HostResult<Option<String>> {
        Ok(self.game_engines.get(game_code).cloned())
    }

    fn execute_command(&mut self, _node_id: u64, command: &str) -> HostResult<CommandOutput> {
        self.commands.push(command.to_string());
        if let Some(error) = self.command_error.take() {
            return Err(error);
        }
        for (needle, output) in &self.fail_on {
            if command.contains(needle.as_str()) {
                return Ok(output.clone());
            }
        }
        Ok(self.command_results.pop_front().unwrap_or(CommandOutput {
            output: String::new(),
            exit_code: 0,
            error: None,
        }))
    }

    fn upload(&mut self, node_id: u64, path: &str, content: &[u8], permissions: u32) -> HostResult<()> {
        self.files.insert((node_id, path.to_string()), content.to_vec());
        self.record_upload(node_id, path, permissions);
        Ok(())
    }

    fn upload_daemon_config(&mut self, node_id: u64, path: &str, config: &DaemonConfig) -> HostResult<()> {
        self.daemon_configs.insert((node_id, path.to_string()), config.clone());
        self.record_upload(node_id, path, 0o600);
        Ok(())
    }

    fn upload_server_definition(
        &mut self,
        node_id: u64,
        path: &str,
        definition: &ServerDropIn,
    ) -> HostResult<()> {
        self.definitions.insert((node_id, path.to_string()), definition.clone());
        self.record_upload(node_id, path, 0o600);
        Ok(())
    }

    fn create_daemon_task(&mut self, node_id: u64, command: &str, run_after_id: Option<u64>) -> HostResult<u64> {
        let id = self.next_task_id;
        self.next_task_id += 1;
        self.created_tasks.push((id, node_id, command.to_string(), run_after_id));
        self.task_states.insert(
            id,
            DaemonTaskInfo { id, node_id, status: TaskStatus::Waiting, output: String::new() },
        );
        Ok(id)
    }

    fn find_daemon_task(&mut self, task_id: u64) -> HostResult<Option<DaemonTaskInfo>> {
        Ok(self.task_states.get(&task_id).cloned())
    }

    fn load_node_config(&mut self, key: &str, entity: StorageEntity) -> HostResult<Stored<NodeConfig>> {
        Ok(match self.storage.get(&Self::key(key, entity)) {
            None => Stored::Missing,
            Some(Record::Config(config)) => Stored::Present(config.clone()),
            Some(_) => Stored::Invalid,
        })
    }

    fn load_setup_status(&mut self, key: &str, entity: StorageEntity) -> HostResult<Stored<NodeSetupStatus>> {
        Ok(match self.storage.get(&Self::key(key, entity)) {
            None => Stored::Missing,
            Some(Record::Status(status)) => Stored::Present(status.clone()),
            Some(_) => Stored::Invalid,
        })
    }

    fn load_server_state(&mut self, key: &str, entity: StorageEntity) -> HostResult<Stored<ServerState>> {
        Ok(match self.storage.get(&Self::key(key, entity)) {
            None => Stored::Missing,
            Some(Record::Server(state)) => Stored::Present(state.clone()),
            Some(_) => Stored::Invalid,
        })
    }

    fn list_server_states(
        &mut self,
        key_prefix: &str,
        entity: StorageEntity,
    ) -> HostResult<Vec<(String, Stored<ServerState>)>> {
        let scope = (entity.entity_type, entity.entity_id);
        Ok(self
            .storage
            .iter()
            .filter(|((key, e), _)| *e == scope && key.starts_with(key_prefix))
            .map(|((key, _), record)| {
                let stored = match record {
                    Record::Server(state) => Stored::Present(state.clone()),
                    _ => Stored::Invalid,
                };
                (key.clone(), stored)
            })
            .collect())
    }

    fn save_node_config(&mut self, key: &str, entity: StorageEntity, config: &NodeConfig) -> HostResult<()> {
        self.storage.insert(Self::key(key, entity), Record::Config(config.clone()));
        Ok(())
    }

    fn save_setup_status(&mut self, key: &str, entity: StorageEntity, status: &NodeSetupStatus) -> HostResult<()> {
        self.storage.insert(Self::key(key, entity), Record::Status(status.clone()));
        Ok(())
    }

    fn save_server_state(&mut self, key: &str, entity: StorageEntity, state: &ServerState) -> HostResult<()> {
        self.storage.insert(Self::key(key, entity), Record::Server(state.clone()));
        Ok(())
    }

    fn storage_delete(&mut self, key: &str, entity: StorageEntity) -> HostResult<()> {
        self.storage.remove(&Self::key(key, entity));
        Ok(())
    }

    fn authz_can(&mut self, user_id: u64, _abilities: &[&str]) -> HostResult<bool> {
        if self.authz_down {
            return Err(HostApiError::Op("authorization unavailable".into()));
        }
        Ok(user_id == 1)
    }

    fn authz_can_any_for_entity(
        &mut self,
        user_id: u64,
        entity: StorageEntity,
        abilities: &[&str],
    ) -> HostResult<bool> {
        if self.authz_down {
            return Err(HostApiError::Op("authorization unavailable".into()));
        }
        Ok(self.grants.iter().any(|(granted_user, granted_entity, ability)| {
            *granted_user == user_id
                && *granted_entity == entity.entity_id
                && abilities.contains(&ability.as_str())
        }))
    }

    fn random_string(&mut self, _length: i32, _charset: Option<&str>) -> HostResult<String> {
        self.random_calls += 1;
        Ok(format!("{:032x}", self.random_calls))
    }

    fn now_unix(&mut self) -> i64 {
        self.now
    }

    fn log_error(&mut self, message: &str) {
        self.logs.push(format!("ERROR {message}"));
    }
}

type MockHost = Host<Mock>;

fn standard_host() -> MockHost {
    Host::new(Mock::standard())
}

fn dispatch(host: &mut MockHost, user: u64, method: &str, path: &str, body: RequestBody) -> Result<Reply, ApiError> {
    let (route, params, user_id) = route_request(method, path, Some(user))?;
    let parts = RequestParts { params, body, user_id: Some(user_id) };
    handle(host, &installers(), route, parts)
}

fn status_of(result: &Result<Reply, ApiError>) -> i32 {
    match result {
        Ok(reply) => reply.status,
        Err(error) => error.status,
    }
}

fn server_body(result: &Result<Reply, ApiError>) -> &fastdl::domain::ServerResponse {
    match result {
        Ok(Reply { body: ReplyBody::Server(response), .. }) => response,
        other => panic!("expected server settings, got {other:?}"),
    }
}

fn server_settings() -> ServerInput {
    ServerInput {
        enabled: true,
        autoindex: true,
        engine: Engine::Goldsource,
        game_dir: "cstrike".into(),
        manage_game_config: true,
        generate_bz2: true,
    }
}

fn half_life_settings() -> ServerInput {
    ServerInput {
        enabled: true,
        autoindex: false,
        engine: Engine::Goldsource,
        game_dir: "valve".into(),
        manage_game_config: true,
        generate_bz2: true,
    }
}

fn put_server(host: &mut MockHost, user: u64, settings: ServerInput) -> Result<Reply, ApiError> {
    dispatch(host, user, "PUT", "/servers/3/fastdl", RequestBody::Server(Ok(settings)))
}

fn get_server(host: &mut MockHost, user: u64) -> Result<Reply, ApiError> {
    dispatch(host, user, "GET", "/servers/3/fastdl", RequestBody::Empty)
}

fn configure(host: &mut MockHost, user: u64) -> Result<Reply, ApiError> {
    dispatch(host, user, "POST", "/servers/3/fastdl/configure", RequestBody::Empty)
}

fn installed_host() -> MockHost {
    let mut host = standard_host();
    store::save_status(
        &mut host,
        1,
        &NodeSetupStatus { status: SetupStatus::Installed, ..Default::default() },
    )
    .expect("installed status is stored");
    store::save_config(
        &mut host,
        1,
        &NodeConfig { listen: "0.0.0.0:8080".into(), public_base_url: "http://cdn.example".into() },
    )
    .expect("node configuration is stored");
    host.api.fail_on.push((
        " configure ".into(),
        CommandOutput { exit_code: 0, error: None, output: "{\"configured\":true}".into() },
    ));
    host
}

fn half_life_host() -> MockHost {
    let mut host = installed_host();
    let server = host.api.servers.get_mut(&3).unwrap();
    server.name = "Half-Life".into();
    server.game_id = "valve".into();
    server.dir = "servers/half-life".into();
    host.api.fail_on.clear();
    host
}

fn configured_half_life_host(os: &str, work_path: &str) -> MockHost {
    let mut host = half_life_host();
    let node = host.api.nodes.get_mut(&1).unwrap();
    node.os = os.into();
    node.work_path = work_path.into();
    store::save_config(
        &mut host,
        1,
        &NodeConfig { listen: "127.0.0.1:9090".into(), public_base_url: "http://cdn.example".into() },
    )
    .unwrap();
    host.api.command_results.push_back(CommandOutput {
        output: "{\"configured\":true}".into(),
        exit_code: 0,
        error: None,
    });
    assert_eq!(status_of(&put_server(&mut host, 1, half_life_settings())), 200);
    host.api.commands.clear();
    host.api.uploads.clear();
    host
}

fn stored_server(host: &mut MockHost, server_id: u64) -> ServerState {
    store::get_server_state(host, server_id)
        .expect("server settings can be loaded")
        .expect("server settings are stored")
}

fn enable_server(host: &mut MockHost) {
    assert_eq!(status_of(&put_server(host, 1, server_settings())), 200);
}

fn start_installation(host: &mut MockHost) -> u64 {
    let response = dispatch(
        host,
        1,
        "POST",
        "/nodes/1/setup",
        RequestBody::Setup(Ok(SetupInput { download_url: String::new(), sha256: String::new() })),
    );
    assert_eq!(status_of(&response), 202);
    host.api.created_tasks.last().expect("installation task exists").0
}

fn setup_status(result: &Result<Reply, ApiError>) -> &NodeSetupStatus {
    match result {
        Ok(Reply { body: ReplyBody::SetupStatus(status), .. }) => status,
        other => panic!("expected an installation status, got {other:?}"),
    }
}

#[test]
fn explicit_configuration_uses_saved_settings_for_both_engines_and_manual_mode() {
    for engine in ["GoldSource", "Source"] {
        for manage_game_config in [true, false] {
            let mut host = installed_host();
            host.api.game_engines.insert("cstrike".into(), engine.into());
            let mut settings = server_settings();
            settings.manage_game_config = manage_game_config;
            let saved = put_server(&mut host, 1, settings);
            assert_eq!(status_of(&saved), 200);
            let saved = server_body(&saved);
            host.api.commands.clear();
            host.api.uploads.clear();
            let storage = host.api.storage.clone();
            host.api.grants.push((7, 3, "plugin:i3z7ix336msd4:fastdl-manage".into()));

            let response = configure(&mut host, 7);
            assert_eq!(status_of(&response), 200);
            match response {
                Ok(Reply { body: ReplyBody::Configured(configuration), .. }) => {
                    assert_eq!(configuration, saved.configuration);
                }
                other => panic!("unexpected {other:?}"),
            }
            assert_eq!(host.api.commands.len(), 1);
            assert!(host.api.commands[0].contains("configure --root /srv/gameap/servers/cs --game-dir cstrike"));
            assert!(host.api.commands[0].contains(&format!("--engine {}", engine.to_lowercase())));
            assert!(host.api.commands[0].contains(saved.download_url.as_str()));
            assert!(!host.api.commands[0].contains("untrusted"));
            assert!(host.api.uploads.is_empty());
            assert_eq!(host.api.storage, storage);
        }
    }
}

#[test]
fn explicit_configuration_requires_manage_access_to_this_server() {
    for grant in [
        None,
        Some((3, "plugin:i3z7ix336msd4:fastdl-view")),
        Some((4, "plugin:i3z7ix336msd4:fastdl-manage")),
    ] {
        let mut host = installed_host();
        enable_server(&mut host);
        host.api.commands.clear();
        host.api.uploads.clear();
        if let Some((server_id, ability)) = grant {
            host.api.grants.push((7, server_id, ability.into()));
        }
        let response = configure(&mut host, 7);
        assert_eq!(status_of(&response), 403);
        assert!(host.api.commands.is_empty());
        assert!(host.api.uploads.is_empty());
    }

    let mut host = installed_host();
    host.api.authz_down = true;
    let anonymous = route_request("POST", "/servers/3/fastdl/configure", Some(0));
    assert_eq!(anonymous.unwrap_err().status, 401);
    let response = configure(&mut host, 1);
    assert_eq!(status_of(&response), 502);
    assert!(host.api.commands.is_empty());
}

#[test]
fn explicit_configuration_rejects_disabled_unsaved_and_stale_settings() {
    for scenario in [
        "unsaved",
        "disabled",
        "unsynced",
        "moved-node",
        "moved-directory",
        "changed-engine",
        "disabled-server",
    ] {
        let mut host = installed_host();
        if scenario != "unsaved" {
            enable_server(&mut host);
            let mut state = stored_server(&mut host, 3);
            match scenario {
                "disabled" => state.settings.enabled = false,
                "unsynced" => state.synced = false,
                "moved-node" => host.api.servers.get_mut(&3).unwrap().node_id = 2,
                "moved-directory" => host.api.servers.get_mut(&3).unwrap().dir = "servers/other".into(),
                "changed-engine" => {
                    host.api.game_engines.insert("cstrike".into(), "Source".into());
                }
                "disabled-server" => host.api.servers.get_mut(&3).unwrap().enabled = false,
                _ => unreachable!(),
            }
            store::save_server_state(&mut host, 3, &state).unwrap();
        }
        host.api.commands.clear();
        host.api.uploads.clear();

        let response = configure(&mut host, 1);
        assert_eq!(status_of(&response), 409, "{scenario}");
        assert_eq!(response.unwrap_err().code, "CONFIGURATION_NOT_READY", "{scenario}");
        assert!(host.api.commands.is_empty(), "{scenario}");
        assert!(host.api.uploads.is_empty(), "{scenario}");
    }
}

#[test]
fn explicit_configuration_requires_an_installed_node_public_address_and_supported_game() {
    for scenario in ["not-installed", "no-address", "unsupported", "missing-server"] {
        let mut host = installed_host();
        enable_server(&mut host);
        host.api.commands.clear();
        let expected_status = match scenario {
            "not-installed" => {
                store::save_status(&mut host, 1, &NodeSetupStatus::default()).unwrap();
                409
            }
            "no-address" => {
                store::save_config(&mut host, 1, &NodeConfig::default()).unwrap();
                409
            }
            "unsupported" => {
                host.api.game_engines.insert("cstrike".into(), "Source2".into());
                400
            }
            "missing-server" => {
                host.api.servers.remove(&3);
                404
            }
            _ => unreachable!(),
        };
        let response = configure(&mut host, 1);
        assert_eq!(status_of(&response), expected_status, "{scenario}");
        assert!(host.api.commands.is_empty(), "{scenario}");
    }
}

#[test]
fn explicit_configuration_reports_helper_failure_without_returning_rcon_commands() {
    for (output, exit_code, status, code) in [
        ("permission denied", 1, 409, "GAME_CONFIG_UPDATE_FAILED"),
        ("", 0, 502, "CONFIGURE_FAILED"),
    ] {
        let mut host = installed_host();
        enable_server(&mut host);
        host.api.commands.clear();
        host.api.uploads.clear();
        host.api.fail_on.clear();
        let storage = host.api.storage.clone();
        host.api.command_results.push_back(CommandOutput { output: output.into(), exit_code, error: None });

        let response = configure(&mut host, 1);
        assert_eq!(status_of(&response), status);
        assert_eq!(response.unwrap_err().code, code);
        assert_eq!(host.api.commands.len(), 1);
        assert!(host.api.uploads.is_empty());
        assert_eq!(host.api.storage, storage);
    }
}

#[test]
fn game_entity_determines_the_engine_without_a_client_selection() {
    for (game_code, game_engine, expected_engine, directory) in [
        ("cstrike", "Source", Engine::Source, "cstrike"),
        ("custom-goldsource", "GoldSource", Engine::Goldsource, ""),
        ("custom-source", "source", Engine::Source, ""),
    ] {
        let mut host = installed_host();
        host.api.servers.get_mut(&3).unwrap().game_id = game_code.into();
        host.api.game_engines.insert(game_code.into(), game_engine.into());

        let response = get_server(&mut host, 1);
        assert_eq!(status_of(&response), 200);
        let body = server_body(&response);
        assert_eq!(body.settings.engine, expected_engine);
        assert!(body.supported);
        assert_eq!(body.settings.game_dir, directory);

        // A client that sends the other engine is overruled by the game's engine.
        let mut input = server_settings();
        input.engine = if expected_engine == Engine::Source { Engine::Goldsource } else { Engine::Source };
        let response = put_server(&mut host, 1, input);
        assert_eq!(status_of(&response), 200);
        let body = server_body(&response);
        assert_eq!(body.settings.engine, expected_engine);
        assert!(body.synced);
        assert_eq!(host.api.definition(1, 3).engine, expected_engine);
        assert_eq!(host.api.definition(1, 3).generate_bz2, expected_engine == Engine::Source);
        assert!(host.api.commands[0].contains(&format!("--engine {}", expected_engine.as_str())));
    }
}

#[test]
fn game_engine_overrides_legacy_client_and_stored_selections() {
    let mut host = installed_host();
    let mut input = server_settings();
    input.engine = Engine::Source;

    let response = put_server(&mut host, 1, input);
    assert_eq!(status_of(&response), 200);
    assert_eq!(host.api.definition(1, 3).engine, Engine::Goldsource);

    host.api.game_engines.insert("cstrike".into(), "Source".into());
    let response = get_server(&mut host, 1);
    assert_eq!(status_of(&response), 200);
    let body = server_body(&response);
    assert_eq!(body.settings.engine, Engine::Source);
    assert!(!body.synced);

    let response = put_server(&mut host, 1, server_settings());
    assert_eq!(status_of(&response), 200);
    assert_eq!(host.api.definition(1, 3).engine, Engine::Source);
    assert_eq!(stored_server(&mut host, 3).settings.engine.as_str(), "source");
}

#[test]
fn unsupported_or_missing_game_cannot_enable_fastdl() {
    for engine in [Some("Source2"), None] {
        let mut host = installed_host();
        match engine {
            Some(engine) => {
                host.api.game_engines.insert("cstrike".into(), engine.into());
            }
            None => {
                host.api.game_engines.remove("cstrike");
            }
        }

        let response = get_server(&mut host, 1);
        assert_eq!(status_of(&response), 200);
        assert!(!server_body(&response).supported);

        let response = put_server(&mut host, 1, server_settings());
        assert_eq!(status_of(&response), 400);
        assert!(host.api.commands.is_empty());
        assert!(host.api.uploads.is_empty());
        assert!(store::get_server_state(&mut host, 3).unwrap().is_none());
    }
}

#[test]
fn changing_to_an_unsupported_game_revokes_the_existing_publication() {
    for engine in [Some("Source2"), None] {
        for operation in ["server_updated", "node_sync", "save"] {
            let mut host = installed_host();
            enable_server(&mut host);
            host.api.commands.clear();
            host.api.servers.get_mut(&3).unwrap().game_id = "another-game".into();
            if let Some(engine) = engine {
                host.api.game_engines.insert("another-game".into(), engine.into());
            }

            match operation {
                "server_updated" => assert!(sync::on_updated(&mut host, 3).is_err()),
                "node_sync" => assert!(sync::sync_node(&mut host, 1).is_err()),
                _ => {
                    let response = put_server(&mut host, 1, server_settings());
                    assert_eq!(status_of(&response), 400);
                }
            }

            assert!(!host.api.definition(1, 3).enabled);
            assert!(!stored_server(&mut host, 3).synced);
            assert!(host.api.commands.is_empty());

            let response = get_server(&mut host, 1);
            assert_eq!(status_of(&response), 200);
            let body = server_body(&response);
            assert!(!body.supported);
            assert!(!body.synced);
        }
    }
}

#[test]
fn denies_cross_server_access_before_read_or_write() {
    let mut host = installed_host();
    host.api.grants.push((7, 4, "plugin:i3z7ix336msd4:fastdl-manage".into()));
    assert_eq!(status_of(&get_server(&mut host, 7)), 403);
    assert_eq!(status_of(&put_server(&mut host, 7, server_settings())), 403);
    assert!(host.api.uploads.is_empty());
}

#[test]
fn denies_anonymous_and_nonadmin_node_operations() {
    let error = route_request("GET", "/admin/nodes", None).unwrap_err();
    assert_eq!(error.status, 401);
    let mut host = installed_host();
    let response = dispatch(
        &mut host,
        7,
        "POST",
        "/nodes/1/setup",
        RequestBody::Setup(Ok(SetupInput { download_url: String::new(), sha256: String::new() })),
    );
    assert_eq!(status_of(&response), 403);
    assert_eq!(status_of(&dispatch(&mut host, 7, "GET", "/admin/nodes", RequestBody::Empty)), 403);
}

#[test]
fn authz_unavailable_fails_closed() {
    let mut host = installed_host();
    host.api.authz_down = true;
    let response = put_server(&mut host, 1, server_settings());
    assert_eq!(status_of(&response), 502);
    assert_eq!(response.unwrap_err().code, "AUTHZ_UNAVAILABLE");
    assert!(host.api.uploads.is_empty());
}

#[test]
fn view_ability_does_not_allow_mutation() {
    let mut host = installed_host();
    host.api.grants.push((7, 3, "plugin:i3z7ix336msd4:fastdl-view".into()));
    let response = get_server(&mut host, 7);
    assert_eq!(status_of(&response), 200);
    assert!(!server_body(&response).can_manage);
    assert_eq!(status_of(&put_server(&mut host, 7, server_settings())), 403);
}

#[test]
fn enable_disable_uses_scoped_helper_and_opaque_public_url() {
    let mut host = installed_host();
    let response = put_server(&mut host, 1, server_settings());
    assert_eq!(status_of(&response), 200);
    let body = server_body(&response);
    assert!(!body.download_url.contains("/srv/gameap"));
    let state = stored_server(&mut host, 3);
    assert_eq!(state.token.len(), 32);
    assert_eq!(body.download_url, format!("http://cdn.example/{}/", state.token));

    let command = host.api.commands.last().expect("configuration command executed");
    assert!(command.contains("configure --root /srv/gameap/servers/cs --game-dir cstrike --engine goldsource --url http://cdn.example/"));
    assert!(!host.api.uploads.iter().any(|(_, path, _)| path.ends_with("server.cfg")));
    let mut disabled = server_settings();
    disabled.enabled = false;
    assert_eq!(status_of(&put_server(&mut host, 1, disabled)), 200);
    let command = host.api.commands.last().expect("configuration command executed");
    assert!(!command.contains("--url"));
    assert!(!host.api.definition(1, state.server_id).enabled);
}

#[test]
fn rejects_traversal_and_arbitrary_roots() {
    for value in [
        "../other",
        "/etc",
        "cstrike/../../private",
        "cstrike\\..\\private",
        "C:/games",
        "cstrike/%2e%2e",
        "cstrike//maps",
        ".git",
        "cstrike/.",
        "cfg",
        "cstrike/addons",
        "plugins",
    ] {
        let mut host = installed_host();
        let mut body = server_settings();
        body.game_dir = value.into();
        assert_eq!(status_of(&put_server(&mut host, 1, body)), 400, "{value}");
        assert!(host.api.uploads.is_empty());
    }
    // A body with fields beyond the settings (such as a root) does not decode.
    let mut host = installed_host();
    let response = dispatch(&mut host, 1, "PUT", "/servers/3/fastdl", RequestBody::Server(Err(invalid_body())));
    assert_eq!(status_of(&response), 400);
    assert!(host.api.uploads.is_empty());
}

#[test]
fn configuration_helper_failure_keeps_route_disabled_and_unsynced() {
    let mut host = installed_host();
    host.api.fail_on.clear();
    host.api.command_results.push_back(CommandOutput {
        exit_code: 1,
        error: None,
        output: "rejected symbolic link".into(),
    });
    let response = put_server(&mut host, 1, server_settings());
    assert_eq!(status_of(&response), 409);
    let state = stored_server(&mut host, 3);
    assert!(!state.synced);
    assert!(!host.api.definition(1, 3).enabled);
}

#[test]
fn half_life_configuration_accepts_plain_and_decorated_confirmation() {
    for (os, work_path, output, expected_root) in [
        ("linux", "/srv/gameap", "{\"configured\":true}", "/srv/gameap/servers/half-life/valve"),
        ("linux", "/srv/gameap", "{\n  \"configured\": true\n}\n", "/srv/gameap/servers/half-life/valve"),
        (
            "linux",
            "/srv/gameap",
            "/srv/gameap# /srv/gameap/.plugins/i3z7ix336msd4/gameap-fastdl configure --root /srv/gameap/servers/half-life --game-dir valve --engine goldsource\n\n{\"configured\":true}\n\nExited with 0\n",
            "/srv/gameap/servers/half-life/valve",
        ),
        (
            "windows",
            r"C:\GameAP Data",
            "C:\\GameAP Data# \"C:\\GameAP Data\\.plugins\\i3z7ix336msd4\\gameap-fastdl.exe\" configure --root \"C:\\GameAP Data\\servers\\half-life\" --game-dir valve --engine goldsource\r\n\r\n  {\"configured\":true} \r\n\r\nExited with 0\r\n",
            r"C:\GameAP Data\servers\half-life\valve",
        ),
    ] {
        let mut host = half_life_host();
        let node = host.api.nodes.get_mut(&1).unwrap();
        node.os = os.into();
        node.work_path = work_path.into();
        host.api.command_results.push_back(CommandOutput { output: output.into(), exit_code: 0, error: None });

        let response = put_server(&mut host, 1, half_life_settings());
        assert_eq!(status_of(&response), 200, "{output}");
        let body = server_body(&response);
        assert!(body.synced);
        assert!(body.settings.enabled);
        assert_eq!(body.server_name, "Half-Life");
        assert_eq!(body.settings.engine, Engine::Goldsource);
        assert_eq!(body.settings.game_dir, "valve");

        let state = stored_server(&mut host, 3);
        assert!(state.synced);
        assert_eq!(state.settings, half_life_settings());
        let dropin = host.api.definition(1, 3);
        assert!(dropin.enabled);
        assert_eq!(dropin.root, expected_root);
        assert_eq!(dropin.engine, Engine::Goldsource);
        assert!(!dropin.generate_bz2);
        assert_eq!(host.api.commands.len(), 1);
        assert!(host.api.commands[0].contains("--game-dir valve --engine goldsource --url"));
        assert!(host.api.logs.is_empty());
    }
}

#[test]
fn unverified_configuration_keeps_half_life_disabled_without_exposing_diagnostics() {
    for confirmation in [
        "",
        "confirmation missing",
        "{invalid JSON}",
        "{\"configured\":false}",
        "{\"configured\":\"true\"}",
        "{\"configured\":true}\n{\"configured\":true}",
        "{\"configured\":true}\n{\"configured\":false}",
        "status: {\"configured\":true}",
    ] {
        let mut host = half_life_host();
        let token = format!("{:032x}", 1);
        let output = if confirmation.is_empty() {
            String::new()
        } else {
            format!("/srv/private/configure --url http://cdn.example/{token}/\n\n{confirmation}\n\nExited with 0\n")
        };
        host.api.command_results.push_back(CommandOutput { output, exit_code: 0, error: None });

        let response = put_server(&mut host, 1, half_life_settings());
        assert_eq!(status_of(&response), 502, "{confirmation}");
        let error = response.unwrap_err();
        assert_eq!(error.code, "CONFIGURE_FAILED", "{confirmation}");
        assert!(error.server_name.is_none());
        assert!(!error.message.contains("/srv/private"));
        assert!(!error.message.contains(&token));
        assert!(!error.message.contains("Exited with"));
        assert!(!error.message.contains("configured"));

        let state = stored_server(&mut host, 3);
        assert!(!state.synced);
        assert!(state.settings.enabled);
        assert_eq!(state.token, token);
        assert!(!host.api.definition(1, 3).enabled);
        assert_eq!(host.api.logs.len(), 1);
        assert!(!host.api.logs[0].contains(&token));
        assert!(host.api.logs[0].contains("exit_code=0"));
    }
}

#[test]
fn failed_configuration_command_cannot_be_overridden_by_a_success_confirmation() {
    for (exit_code, error) in [(7, None), (0, Some("private daemon error".to_string()))] {
        let mut host = half_life_host();
        host.api.command_results.push_back(CommandOutput {
            output: "{\"configured\":true}".into(),
            exit_code,
            error,
        });

        let response = put_server(&mut host, 1, half_life_settings());
        assert_eq!(status_of(&response), 409);
        let error = response.unwrap_err();
        assert_eq!(error.code, "GAME_CONFIG_UPDATE_FAILED");
        assert!(!error.message.contains("private daemon error"));
        assert!(!stored_server(&mut host, 3).synced);
        assert!(!host.api.definition(1, 3).enabled);
        assert_eq!(host.api.logs.len(), 1);
        assert!(host.api.logs[0].contains(&format!("exit_code={exit_code}")));
    }
}

#[test]
fn configuration_diagnostics_are_bounded_and_redact_the_download_token() {
    let mut host = half_life_host();
    let token = format!("{:032x}", 1);
    host.api.command_results.push_back(CommandOutput {
        output: format!(
            "/srv/private/configure --url http://cdn.example/{token}/\n\u{1b}[31m{}",
            "ж".repeat(10_000),
        ),
        exit_code: 0,
        error: None,
    });

    let response = put_server(&mut host, 1, half_life_settings());
    assert_eq!(status_of(&response), 502);
    assert_eq!(host.api.logs.len(), 1);
    let log = &host.api.logs[0];
    assert!(!log.contains(&token));
    assert!(!log.contains('\u{1b}'));
    assert_eq!(log.lines().count(), 1);
    assert!(log.chars().count() < 6000);
}

#[test]
fn retrying_unverified_half_life_configuration_applies_the_same_settings() {
    let mut host = half_life_host();
    host.api.command_results.extend([
        CommandOutput { output: "confirmation missing".into(), exit_code: 0, error: None },
        CommandOutput {
            output: "/srv/gameap# configure\n\n{\"configured\":true}\n\nExited with 0\n".into(),
            exit_code: 0,
            error: None,
        },
    ]);

    let failed = put_server(&mut host, 1, half_life_settings());
    assert_eq!(status_of(&failed), 502);
    let pending = stored_server(&mut host, 3);
    assert!(!pending.synced);
    assert!(!host.api.definition(1, 3).enabled);

    let retried = put_server(&mut host, 1, half_life_settings());
    assert_eq!(status_of(&retried), 200);
    let state = stored_server(&mut host, 3);
    assert!(state.synced);
    assert_eq!(state.settings, pending.settings);
    assert_eq!(state.token, pending.token);
    assert!(host.api.definition(1, 3).enabled);
    assert_eq!(host.api.commands.len(), 2);
    assert!(host.api.command_results.is_empty());
    assert_eq!(host.api.logs.len(), 1);
}

#[test]
fn admin_node_routes_apply_half_life_configuration_before_restarting() {
    for (os, work_path, newline, restart) in [
        ("linux", "/srv/gameap", "\n", "systemctl restart gameap-fastdl"),
        ("windows", r"C:\GameAP Data", "\r\n", "Restart-Service -Name gameap-fastdl"),
    ] {
        for (method, path) in [("PUT", "/nodes/1/config"), ("POST", "/nodes/1/sync")] {
            let mut host = configured_half_life_host(os, work_path);
            let config = NodeConfig {
                listen: "0.0.0.0:8080".into(),
                public_base_url: "http://192.0.2.10:8080".into(),
            };
            let body = if method == "PUT" {
                RequestBody::NodeConfig(Ok(config.clone()))
            } else {
                store::save_config(&mut host, 1, &config).unwrap();
                RequestBody::Empty
            };
            host.api.command_results.push_back(CommandOutput {
                output: format!(
                    "{work_path}# gameap-fastdl configure{newline}{newline}{{\"configured\":true}}{newline}{newline}Exited with 0{newline}"
                ),
                exit_code: 0,
                error: None,
            });

            let response = dispatch(&mut host, 1, method, path, body);
            assert_eq!(status_of(&response), 200, "{os} {method} {path}");
            match response.unwrap().body {
                ReplyBody::NodeConfig(answered) => {
                    assert_eq!(method, "PUT");
                    assert_eq!(answered, config);
                }
                ReplyBody::Synced => assert_eq!(method, "POST"),
                other => panic!("unexpected {other:?}"),
            }
            let saved = store::get_config(&mut host, 1).unwrap();
            assert_eq!(saved, config);
            let daemon_config = host
                .api
                .daemon_configs
                .get(&(1, ".plugins/i3z7ix336msd4/config.json".to_string()))
                .unwrap();
            assert_eq!(daemon_config.listen, config.listen);

            let state = stored_server(&mut host, 3);
            assert!(state.synced);
            assert!(state.settings.enabled);
            assert!(host.api.definition(1, 3).enabled);
            assert_eq!(host.api.commands.len(), 2, "{:?}", host.api.commands);
            assert!(host.api.commands[0].contains("--game-dir valve --engine goldsource"));
            assert!(host.api.commands[0].contains(&format!("--url {}/{}/", config.public_base_url, state.token)));
            assert!(host.api.commands[1].contains(restart), "{:?}", host.api.commands);
            assert!(host.api.logs.is_empty());
        }
    }
}

#[test]
fn admin_node_routes_skip_restart_after_unverified_configuration_and_allow_retry() {
    for (method, path) in [("PUT", "/nodes/1/config"), ("POST", "/nodes/1/sync")] {
        let mut host = configured_half_life_host("linux", "/srv/gameap");
        let config = NodeConfig {
            listen: "0.0.0.0:8080".into(),
            public_base_url: "http://192.0.2.10:8080".into(),
        };
        let body = |config: &NodeConfig| {
            if method == "PUT" {
                RequestBody::NodeConfig(Ok(config.clone()))
            } else {
                RequestBody::Empty
            }
        };
        if method == "POST" {
            store::save_config(&mut host, 1, &config).unwrap();
        }
        host.api.command_results.push_back(CommandOutput {
            output: "/srv/private# configure\n\n{invalid}\n\nExited with 0\n".into(),
            exit_code: 0,
            error: None,
        });

        let response = dispatch(&mut host, 1, method, path, body(&config));
        assert_eq!(status_of(&response), 502, "{method} {path}");
        let error = response.unwrap_err();
        assert_eq!(error.code, "CONFIGURE_FAILED");
        assert_eq!(error.server_name.as_deref(), Some("Half-Life"));
        assert!(error.message.contains("Half-Life"));
        assert!(!error.message.contains("/srv/private"));
        assert!(!error.message.contains("{invalid}"));
        let pending = stored_server(&mut host, 3);
        assert!(!error.message.contains(&pending.token));
        assert!(!pending.synced);
        assert!(pending.settings.enabled);
        assert!(!host.api.definition(1, 3).enabled);
        assert_eq!(host.api.commands.len(), 1);
        assert!(host.api.commands[0].contains(" configure "));
        assert_eq!(store::get_config(&mut host, 1).unwrap().public_base_url, config.public_base_url);

        host.api.commands.clear();
        host.api.command_results.push_back(CommandOutput {
            output: "/srv/gameap# configure\n\n{\"configured\":true}\n\nExited with 0\n".into(),
            exit_code: 0,
            error: None,
        });
        let retried = dispatch(&mut host, 1, method, path, body(&config));
        assert_eq!(status_of(&retried), 200, "{method} {path}");
        let state = stored_server(&mut host, 3);
        assert!(state.synced);
        assert_eq!(state.settings, pending.settings);
        assert_eq!(state.token, pending.token);
        assert!(host.api.definition(1, 3).enabled);
        assert_eq!(host.api.commands.len(), 2);
        assert!(host.api.commands[0].contains(" configure "));
        assert_eq!(host.api.commands[1], "systemctl restart gameap-fastdl");
        assert_eq!(host.api.logs.len(), 1);
    }
}

#[test]
fn delete_disables_dropin_even_after_server_is_gone() {
    let mut host = installed_host();
    assert_eq!(status_of(&put_server(&mut host, 1, server_settings())), 200);
    let state = stored_server(&mut host, 3);
    host.api.servers.clear();
    sync::on_deleted(&mut host, 3, 1).unwrap();
    assert!(!host.api.definition(1, state.server_id).enabled);
    assert!(store::get_server_state(&mut host, 3).unwrap().is_none());
}

#[test]
fn deletion_uses_node_registration_after_server_storage_is_removed() {
    let mut host = installed_host();
    assert_eq!(status_of(&put_server(&mut host, 1, server_settings())), 200);
    host.api.servers.clear();
    host.storage_delete("fastdl:server", StorageEntity::server(3)).unwrap();
    sync::on_deleted(&mut host, 3, 1).unwrap();
    assert!(!host.api.definition(1, 3).enabled);
}

#[test]
fn repeated_initial_setup_uses_one_private_registration_filename() {
    let mut host = installed_host();
    assert_eq!(status_of(&put_server(&mut host, 1, server_settings())), 200);
    host.storage_delete("fastdl:server", StorageEntity::server(3)).unwrap();
    assert_eq!(status_of(&put_server(&mut host, 1, server_settings())), 200);
    assert_eq!(
        host.api.definitions
            .keys()
            .filter(|(_, path)| path.starts_with(".plugins/i3z7ix336msd4/servers.d/"))
            .count(),
        1
    );
}

#[test]
fn moving_to_unconfigured_node_revokes_original_route_first() {
    let mut host = installed_host();
    assert_eq!(status_of(&put_server(&mut host, 1, server_settings())), 200);
    let mut target = host.api.nodes.get(&1).unwrap().clone();
    target.id = 2;
    host.api.nodes.insert(2, target);
    host.api.servers.get_mut(&3).unwrap().node_id = 2;
    assert!(sync::on_updated(&mut host, 3).is_err());
    assert!(!host.api.definition(1, 3).enabled);
    assert!(!stored_server(&mut host, 3).synced);
}

#[test]
fn failed_disable_remains_visibly_unsynchronized() {
    let mut host = installed_host();
    assert_eq!(status_of(&put_server(&mut host, 1, server_settings())), 200);
    host.api.fail_on.clear();
    host.api.command_results.push_back(CommandOutput { exit_code: 1, error: None, output: String::new() });
    let mut value = server_settings();
    value.enabled = false;
    assert_eq!(status_of(&put_server(&mut host, 1, value)), 409);
    let response = get_server(&mut host, 1);
    assert!(!server_body(&response).synced);
}

#[test]
fn cannot_clear_public_url_while_any_server_is_enabled() {
    let mut host = installed_host();
    assert_eq!(status_of(&put_server(&mut host, 1, server_settings())), 200);
    let cleared = NodeConfig { listen: "0.0.0.0:8080".into(), public_base_url: String::new() };
    let response = dispatch(&mut host, 1, "PUT", "/nodes/1/config", RequestBody::NodeConfig(Ok(cleared)));
    assert_eq!(status_of(&response), 409);
    assert_eq!(store::get_config(&mut host, 1).unwrap().public_base_url, "http://cdn.example");
}

#[test]
fn automatic_installation_replaces_stale_scripts_and_keeps_saved_configuration() {
    for os in ["linux", " Windows ", ""] {
        let mut host = installed_host();
        let windows = os == " Windows ";
        let node = host.api.nodes.get_mut(&1).unwrap();
        node.os = os.into();
        node.work_path = if windows { r"C:\GameAP Data".into() } else { "/srv/gameap data".into() };
        let (script_name, script) = if windows {
            ("install-windows.ps1", WINDOWS_INSTALLER)
        } else {
            ("install-linux.sh", LINUX_INSTALLER)
        };
        let private_path = format!(".plugins/i3z7ix336msd4/{script_name}");
        let tools_path = format!("tools/{script_name}");
        let stale = b"Error: --download-url, --sha256, --install-dir and --config are required";
        host.api.files.insert((1, private_path.clone()), stale.to_vec());
        host.api.files.insert((1, tools_path.clone()), stale.to_vec());

        let id = start_installation(&mut host);
        assert_eq!(host.api.created_tasks.len(), 1);
        let install = &host.api.created_tasks[0];
        assert_eq!(install.0, id);
        assert_eq!(install.3, None);
        let expected = if windows {
            "powershell -NoProfile -NonInteractive -ExecutionPolicy Bypass -File \"C:\\GameAP Data\\.plugins\\i3z7ix336msd4\\install-windows.ps1\" -InstallDir \"C:\\GameAP Data\\.plugins\\i3z7ix336msd4\" -ConfigPath \"C:\\GameAP Data\\.plugins\\i3z7ix336msd4\\config.json\""
        } else {
            "/bin/bash '/srv/gameap data/.plugins/i3z7ix336msd4/install-linux.sh' '--install-dir=/srv/gameap data/.plugins/i3z7ix336msd4' '--config=/srv/gameap data/.plugins/i3z7ix336msd4/config.json'"
        };
        assert_eq!(install.2, expected);
        let status = store::get_status(&mut host, 1).unwrap();
        assert_eq!(status.task_id, id);
        assert_eq!(status.download_task_id, 0);
        assert_eq!(status.status, SetupStatus::Installing);
        assert_eq!(store::get_config(&mut host, 1).unwrap().public_base_url, "http://cdn.example");
        assert_eq!(host.api.files.get(&(1, private_path.clone())).unwrap(), script);
        assert_eq!(host.api.files.get(&(1, tools_path)).unwrap(), stale);
        assert!(host.api.uploads.contains(&(1, private_path, 0o700)));
        assert!(host.api.uploads.iter().any(|(_, path, _)| path.ends_with("config.json")));
    }
}

#[test]
fn setup_rejects_invalid_requests_and_unsupported_nodes_before_side_effects() {
    for body in [
        RequestBody::Setup(Ok(SetupInput { download_url: "https://example.com/file".into(), sha256: String::new() })),
        RequestBody::Setup(Ok(SetupInput { download_url: String::new(), sha256: "a".repeat(64) })),
        RequestBody::Setup(Err(invalid_body())),
    ] {
        let mut host = installed_host();
        let response = dispatch(&mut host, 1, "POST", "/nodes/1/setup", body);
        assert_eq!(status_of(&response), 400);
        assert!(host.api.uploads.is_empty());
        assert!(host.api.created_tasks.is_empty());
    }
    let mut host = installed_host();
    host.api.nodes.get_mut(&1).unwrap().os = "macos".into();
    let response = dispatch(
        &mut host,
        1,
        "POST",
        "/nodes/1/setup",
        RequestBody::Setup(Ok(SetupInput { download_url: String::new(), sha256: String::new() })),
    );
    assert_eq!(status_of(&response), 400);
    assert!(host.api.uploads.is_empty());
    assert!(host.api.created_tasks.is_empty());
}

#[test]
fn automatic_installation_rejects_duplicate_setup() {
    let mut host = installed_host();
    start_installation(&mut host);
    let uploads = host.api.uploads.len();
    let response = dispatch(
        &mut host,
        1,
        "POST",
        "/nodes/1/setup",
        RequestBody::Setup(Ok(SetupInput { download_url: String::new(), sha256: String::new() })),
    );
    assert_eq!(status_of(&response), 409);
    assert_eq!(host.api.created_tasks.len(), 1);
    assert_eq!(host.api.uploads.len(), uploads);
    assert!(host.api.commands.is_empty());
}

fn legacy_installation(host: &mut MockHost) -> (u64, u64) {
    let download_id = host
        .create_daemon_task(1, "get-tool https://example.com/install-linux.sh", None)
        .unwrap();
    let install_id = host
        .create_daemon_task(1, "/bin/bash /srv/gameap/tools/install-linux.sh", Some(download_id))
        .unwrap();
    let started_at = host.api.now;
    store::save_status(
        host,
        1,
        &NodeSetupStatus {
            status: SetupStatus::Installing,
            task_id: install_id,
            download_task_id: download_id,
            started_at,
            ..Default::default()
        },
    )
    .unwrap();
    (download_id, install_id)
}

#[test]
fn legacy_installation_still_waits_for_download() {
    let mut host = installed_host();
    let (download_id, install_id) = legacy_installation(&mut host);
    host.api.task_states.get_mut(&install_id).unwrap().status = TaskStatus::Success;
    assert_eq!(node_setup::get_status(&mut host, 1).unwrap().status, SetupStatus::Installing);
    assert!(host.api.commands.is_empty());
    host.api.task_states.get_mut(&download_id).unwrap().status = TaskStatus::Success;
    host.api.command_results.push_back(CommandOutput {
        output: "gameap-fastdl 0.2.3\n".into(),
        exit_code: 0,
        error: None,
    });
    assert_eq!(node_setup::get_status(&mut host, 1).unwrap().status, SetupStatus::Installed);
}

#[test]
fn failed_legacy_installer_download_fails_setup_without_probing_the_binary() {
    for failure in [TaskStatus::Error, TaskStatus::Canceled] {
        let mut host = installed_host();
        let (download_id, _) = legacy_installation(&mut host);
        host.api.task_states.get_mut(&download_id).unwrap().status = failure;
        let status = node_setup::get_status(&mut host, 1).unwrap();
        assert_eq!(status.status, SetupStatus::Failed);
        assert!(status.error_message.starts_with("Installer download failed"));
        assert_eq!(status.task_id, download_id);
        assert!(host.api.commands.is_empty());
    }
}

#[test]
fn missing_legacy_installer_download_task_expires() {
    let mut host = installed_host();
    let (download_id, _) = legacy_installation(&mut host);
    host.api.task_states.remove(&download_id);
    host.api.now += 1801;
    let status = node_setup::get_status(&mut host, 1).unwrap();
    assert_eq!(status.status, SetupStatus::Failed);
    assert_eq!(status.error_message, "Installation timed out");
}

#[test]
fn retrying_failed_legacy_installation_uses_the_bundled_script() {
    let mut host = installed_host();
    let (download_id, install_id) = legacy_installation(&mut host);
    host.api.task_states.get_mut(&download_id).unwrap().status = TaskStatus::Success;
    let failed_install = host.api.task_states.get_mut(&install_id).unwrap();
    failed_install.status = TaskStatus::Error;
    failed_install.output = "Error: --download-url, --sha256, --install-dir and --config are required".into();

    let response = dispatch(
        &mut host,
        1,
        "POST",
        "/nodes/1/setup",
        RequestBody::Setup(Ok(SetupInput { download_url: String::new(), sha256: String::new() })),
    );
    assert_eq!(status_of(&response), 202);
    assert_eq!(host.api.created_tasks.len(), 3);
    let retry = host.api.created_tasks.last().unwrap().clone();
    assert_eq!(retry.3, None);
    assert!(retry.2.starts_with("/bin/bash /srv/gameap/.plugins/i3z7ix336msd4/install-linux.sh "));
    let status = setup_status(&response);
    assert_eq!(status.status, SetupStatus::Installing);
    assert_eq!(status.task_id, retry.0);
    assert_eq!(status.download_task_id, 0);
    assert!(status.error_message.is_empty());
}

#[test]
fn linux_and_windows_install_tasks_preserve_custom_verified_downloads() {
    for os in ["linux", "windows"] {
        let mut host = installed_host();
        host.api.nodes.get_mut(&1).unwrap().os = os.into();
        if os == "windows" {
            host.api.nodes.get_mut(&1).unwrap().work_path = r"C:\GameAP Data".into();
        }
        let digest = "a".repeat(64);
        let response = dispatch(
            &mut host,
            1,
            "POST",
            "/nodes/1/setup",
            RequestBody::Setup(Ok(SetupInput {
                download_url: "https://releases.example/gameap-fastdl".into(),
                sha256: digest.clone(),
            })),
        );
        assert_eq!(status_of(&response), 202);
        assert_eq!(host.api.created_tasks.len(), 1);
        assert_eq!(host.api.created_tasks[0].3, None);

        let expected = if os == "windows" {
            format!(
                "powershell -NoProfile -NonInteractive -ExecutionPolicy Bypass -File \"C:\\GameAP Data\\.plugins\\i3z7ix336msd4\\install-windows.ps1\" -DownloadUrl https://releases.example/gameap-fastdl -Sha256 {digest} -InstallDir \"C:\\GameAP Data\\.plugins\\i3z7ix336msd4\" -ConfigPath \"C:\\GameAP Data\\.plugins\\i3z7ix336msd4\\config.json\"",
                digest = digest,
            )
        } else {
            format!(
                "/bin/bash /srv/gameap/.plugins/i3z7ix336msd4/install-linux.sh --download-url=https://releases.example/gameap-fastdl --sha256={digest} --install-dir=/srv/gameap/.plugins/i3z7ix336msd4 --config=/srv/gameap/.plugins/i3z7ix336msd4/config.json",
                digest = digest,
            )
        };
        assert_eq!(host.api.created_tasks[0].2, expected);

        let installer_name = if os == "windows" { "install-windows.ps1" } else { "install-linux.sh" };
        assert!(host
            .api
            .uploads
            .iter()
            .any(|(_, path, mode)| path.ends_with(installer_name) && *mode == 0o700));
    }
}

#[test]
fn failed_setup_task_is_not_reported_as_installed() {
    let mut host = installed_host();
    let response = dispatch(
        &mut host,
        1,
        "POST",
        "/nodes/1/setup",
        RequestBody::Setup(Ok(SetupInput {
            download_url: "https://releases.example/gameap-fastdl".into(),
            sha256: "a".repeat(64),
        })),
    );
    assert_eq!(status_of(&response), 202);
    let task_id = host.api.created_tasks[0].0;
    host.api.task_states.get_mut(&task_id).unwrap().status = TaskStatus::Error;
    assert_eq!(node_setup::get_status(&mut host, 1).unwrap().status, SetupStatus::Failed);
}

#[test]
fn windows_helper_preserves_spaces_and_never_invokes_a_shell_for_paths() {
    let mut host = installed_host();
    let node = host.api.nodes.get_mut(&1).unwrap();
    node.os = "windows".into();
    node.work_path = r"C:\GameAP Data".into();
    let response = put_server(&mut host, 1, server_settings());
    assert_eq!(status_of(&response), 200);
    assert!(host.api.commands[0].starts_with("\"C:\\GameAP Data\\.plugins\\i3z7ix336msd4\\gameap-fastdl.exe\" configure --root \"C:\\GameAP Data\\servers\\cs\""));
}

#[test]
fn changing_managed_configuration_removes_the_previous_block() {
    for field in ["game_dir", "manage_game_config"] {
        let mut host = installed_host();
        enable_server(&mut host);
        host.api.commands.clear();

        let mut settings = server_settings();
        if field == "game_dir" {
            settings.game_dir = "valve".into();
        } else {
            settings.manage_game_config = false;
        }
        let response = put_server(&mut host, 1, settings);
        assert_eq!(status_of(&response), 200, "{field}");

        let cleanup = host.api.commands.first().expect("old configuration is cleaned");
        assert!(cleanup.contains("--game-dir cstrike --engine goldsource"));
        assert!(!cleanup.contains("--url"));

        let state = stored_server(&mut host, 3);
        let dropin = host.api.definition(1, 3).clone();
        assert!(state.synced);
        assert!(dropin.enabled);

        if field == "game_dir" {
            assert_eq!(host.api.commands.len(), 2);
            assert!(host.api.commands[1].contains("--game-dir valve --engine goldsource --url"));
            assert_eq!(state.settings.game_dir, "valve");
            assert_eq!(dropin.root, "/srv/gameap/servers/cs/valve");
        } else {
            assert_eq!(host.api.commands.len(), 1);
            assert!(!state.settings.manage_game_config);
            assert_eq!(dropin.root, "/srv/gameap/servers/cs/cstrike");
        }
    }
}

#[test]
fn cleanup_failure_keeps_the_previous_route_disabled() {
    for field in ["game_dir", "manage_game_config"] {
        let mut host = installed_host();
        enable_server(&mut host);
        host.api.commands.clear();
        host.api.fail_on.clear();
        host.api.command_results.push_back(CommandOutput {
            output: "configuration is not writable".into(),
            exit_code: 1,
            error: None,
        });

        let mut settings = server_settings();
        if field == "game_dir" {
            settings.game_dir = "valve".into();
        } else {
            settings.manage_game_config = false;
        }
        let response = put_server(&mut host, 1, settings);
        assert_eq!(status_of(&response), 409, "{field}");

        assert_eq!(host.api.commands.len(), 1);
        assert!(host.api.commands[0].contains("--game-dir cstrike --engine goldsource"));
        assert!(!host.api.commands[0].contains("--url"));
        assert!(!host.api.definition(1, 3).enabled);

        let state = stored_server(&mut host, 3);
        assert!(!state.synced);
        assert_eq!(state.settings.game_dir, "cstrike");
        assert!(state.settings.manage_game_config);
    }
}

#[test]
fn successful_installation_task_requires_a_verified_binary() {
    for (os, work_path, version_output, expected_version) in [
        ("linux", "/srv/gameap", "gameap-fastdl 0.2.3\n", "0.2.3"),
        (
            "linux",
            "/srv/gameap",
            "/srv/gameap# /srv/gameap/.plugins/i3z7ix336msd4/gameap-fastdl version\n\ngameap-fastdl v0.0.1\n\nExited with 0\n",
            "v0.0.1",
        ),
        (
            "windows",
            r"C:\GameAP",
            "C:\\GameAP# C:\\GameAP\\.plugins\\i3z7ix336msd4\\gameap-fastdl.exe version\r\n\r\n  gameap-fastdl v0.0.1 \r\n\r\nExited with 0\r\n",
            "v0.0.1",
        ),
    ] {
        let mut host = installed_host();
        let node = host.api.nodes.get_mut(&1).unwrap();
        node.os = os.into();
        node.work_path = work_path.into();
        let task_id = start_installation(&mut host);
        host.api.task_states.get_mut(&task_id).unwrap().status = TaskStatus::Success;
        host.api.command_results.push_back(CommandOutput {
            output: version_output.into(),
            exit_code: 0,
            error: None,
        });

        let response = dispatch(&mut host, 1, "GET", "/nodes/1/status", RequestBody::Empty);
        assert_eq!(status_of(&response), 200);
        let status = setup_status(&response);
        assert_eq!(status.status, SetupStatus::Installed, "{version_output}");
        assert_eq!(status.task_id, task_id);
        assert_eq!(&store::get_status(&mut host, 1).unwrap(), status);
        assert_eq!(status.version, expected_version);
        assert!(status.error_message.is_empty());
        assert!(host.api.logs.is_empty());
    }
}

#[test]
fn installation_verification_rejects_invalid_versions_and_failed_commands() {
    for (output, exit_code, error) in [
        ("another-service 0.2.3\n".to_string(), 0, None),
        ("gameap-fastdl \n".to_string(), 0, None),
        ("gameap-fastdl v0.2.3 unexpected\n".to_string(), 0, None),
        (format!("gameap-fastdl {}\n", "v".repeat(65)), 0, None),
        (
            "/srv/gameap# /srv/gameap/.plugins/i3z7ix336msd4/gameap-fastdl version\n\nExited with 0\n".to_string(),
            0,
            None,
        ),
        ("gameap-fastdl v0.2.3\n".to_string(), 9, None),
        ("gameap-fastdl v0.2.3\n".to_string(), 0, Some("private daemon error".to_string())),
    ] {
        let mut host = installed_host();
        let task_id = start_installation(&mut host);
        host.api.task_states.get_mut(&task_id).unwrap().status = TaskStatus::Success;
        host.api.command_results.push_back(CommandOutput { output, exit_code, error });

        let status = node_setup::get_status(&mut host, 1).unwrap();
        assert_eq!(status.status, SetupStatus::Failed);
        assert!(status.version.is_empty());
        assert!(status.error_message.starts_with("Installed binary could not be verified:"));
        assert!(status.error_message.contains("Check the GameAP plugin logs."));
        if exit_code != 0 {
            assert!(status.error_message.contains(&format!("code {exit_code}")));
        }
        assert!(!status.error_message.contains("private daemon error"));
        assert!(!status.error_message.contains("/srv/gameap"));
        assert_eq!(store::get_status(&mut host, 1).unwrap(), status);
        assert_eq!(host.api.logs.len(), 1);
        let log = &host.api.logs[0];
        assert!(log.starts_with("ERROR [fastdl] Installation verification failed:"), "{log}");
        assert!(log.contains("node_id=1"), "{log}");
        assert!(log.contains(&format!("task_id={task_id}")), "{log}");
        assert!(log.contains(&format!("exit_code={exit_code}")), "{log}");
        assert!(log.contains("/srv/gameap/.plugins/i3z7ix336msd4/gameap-fastdl version"), "{log}");

        assert_eq!(node_setup::get_status(&mut host, 1).unwrap(), status);
        assert_eq!(host.api.commands.len(), 1);
        assert_eq!(host.api.logs.len(), 1);
    }
}

#[test]
fn installation_verification_details_are_escaped_bounded_and_private() {
    let mut host = installed_host();
    let task_id = start_installation(&mut host);
    host.api.task_states.get_mut(&task_id).unwrap().status = TaskStatus::Success;
    host.api.command_results.push_back(CommandOutput {
        output: format!("private output\n\r\t{}private tail", "я".repeat(5000)),
        exit_code: 7,
        error: Some("private daemon error\nforged log line".into()),
    });

    let response = dispatch(&mut host, 1, "GET", "/nodes/1/status", RequestBody::Empty);
    assert_eq!(status_of(&response), 200);
    let answered = setup_status(&response);
    assert!(!answered.error_message.contains("private"));
    assert!(!answered.error_message.contains("/srv/gameap"));
    assert!(!answered.error_message.contains("gameap-fastdl version"));
    let status = store::get_status(&mut host, 1).unwrap();
    assert!(status.error_message.contains("node could not execute"));

    assert_eq!(host.api.logs.len(), 1);
    let log = &host.api.logs[0];
    assert!(log.contains("private output\\n\\r\\t"), "{log}");
    assert!(log.contains("private daemon error\\nforged log line"), "{log}");
    assert!(log.contains(" [truncated]"));
    assert!(!log.contains("private tail"));
    assert_eq!(log.lines().count(), 1);
    assert!(log.chars().count() < 4600);
}

#[test]
fn installation_verification_transport_failure_is_logged_and_retryable() {
    let mut host = installed_host();
    let task_id = start_installation(&mut host);
    host.api.task_states.get_mut(&task_id).unwrap().status = TaskStatus::Success;
    host.api.command_error = Some(HostApiError::Call("private connection detail\nfailed".into()));

    let response = dispatch(&mut host, 1, "GET", "/nodes/1/status", RequestBody::Empty);
    assert_eq!(status_of(&response), 502);
    assert!(!response.unwrap_err().message.contains("private connection detail"));
    assert_eq!(store::get_status(&mut host, 1).unwrap().status, SetupStatus::Installing);
    assert!(host.api.logs.iter().any(|log| {
        log.starts_with("ERROR [fastdl] Installation verification failed:")
            && log.contains("node_id=1")
            && log.contains(&format!("task_id={task_id}"))
            && log.contains("private connection detail\\nfailed")
    }));

    host.api.command_results.push_back(CommandOutput {
        output: "gameap-fastdl v0.0.1\n".into(),
        exit_code: 0,
        error: None,
    });
    assert_eq!(node_setup::get_status(&mut host, 1).unwrap().status, SetupStatus::Installed);
    assert_eq!(host.api.commands.len(), 2);
}

#[test]
fn legacy_verification_failure_is_rechecked_without_reinstalling() {
    for path in ["/nodes/1/status", "/admin/nodes"] {
        let mut host = installed_host();
        let task_id = start_installation(&mut host);
        host.api.task_states.get_mut(&task_id).unwrap().status = TaskStatus::Success;
        let mut status = store::get_status(&mut host, 1).unwrap();
        status.status = SetupStatus::Failed;
        status.error_message = "Installed binary could not be verified".into();
        store::save_status(&mut host, 1, &status).unwrap();
        host.api.uploads.clear();
        host.api.command_results.push_back(CommandOutput {
            output: "/srv/gameap# gameap-fastdl version\n\ngameap-fastdl v0.0.1\n\nExited with 0\n".into(),
            exit_code: 0,
            error: None,
        });

        let response = dispatch(&mut host, 1, "GET", path, RequestBody::Empty);
        assert_eq!(status_of(&response), 200, "{path}");
        let status = store::get_status(&mut host, 1).unwrap();
        assert_eq!(status.status, SetupStatus::Installed, "{path}");
        assert_eq!(status.version, "v0.0.1");
        assert!(status.error_message.is_empty());
        assert!(host.api.uploads.is_empty());
        assert_eq!(host.api.created_tasks.len(), 1);
        assert_eq!(host.api.commands.len(), 1);
    }
}

#[test]
fn unrelated_installation_failures_are_not_rechecked() {
    for (task_status, error_message) in [
        (TaskStatus::Success, "Installation timed out"),
        (TaskStatus::Error, "Installed binary could not be verified"),
    ] {
        let mut host = installed_host();
        let task_id = start_installation(&mut host);
        host.api.task_states.get_mut(&task_id).unwrap().status = task_status;
        let mut status = store::get_status(&mut host, 1).unwrap();
        status.status = SetupStatus::Failed;
        status.error_message = error_message.into();
        store::save_status(&mut host, 1, &status).unwrap();

        let refreshed = node_setup::get_status(&mut host, 1).unwrap();
        assert_eq!(refreshed.status, SetupStatus::Failed);
        if task_status == TaskStatus::Success {
            assert_eq!(refreshed, status);
        }
        assert!(host.api.commands.is_empty());
        assert!(host.api.logs.is_empty());
    }
}

#[test]
fn missing_installation_task_expires_after_the_timeout() {
    let mut host = installed_host();
    let task_id = start_installation(&mut host);
    host.api.task_states.remove(&task_id);
    host.api.now += 1800;

    let status = node_setup::get_status(&mut host, 1).unwrap();
    assert_eq!(status.status, SetupStatus::Installing);

    host.api.now += 1;
    let response = dispatch(&mut host, 1, "GET", "/nodes/1/status", RequestBody::Empty);
    assert_eq!(status_of(&response), 200);
    let status = setup_status(&response);
    assert_eq!(status.status, SetupStatus::Failed);
    assert_eq!(status.error_message, "Installation timed out");
    assert_eq!(&store::get_status(&mut host, 1).unwrap(), status);
    assert!(host.api.commands.is_empty());
}

#[test]
fn node_sync_revokes_routes_for_deleted_and_moved_servers() {
    for server_moved in [false, true] {
        let mut host = installed_host();
        enable_server(&mut host);
        host.api.commands.clear();

        if server_moved {
            let mut destination = host.api.nodes.get(&1).unwrap().clone();
            destination.id = 2;
            host.api.nodes.insert(2, destination);
            host.api.servers.get_mut(&3).unwrap().node_id = 2;
        } else {
            host.api.servers.remove(&3);
            host.storage_delete("fastdl:server", StorageEntity::server(3)).unwrap();
        }

        let response = dispatch(&mut host, 1, "POST", "/nodes/1/sync", RequestBody::Empty);
        assert_eq!(status_of(&response), 200);
        assert!(!host.api.definition(1, 3).enabled);
        assert!(store::get_registration(&mut host, 1, 3).unwrap().is_none());
        assert_eq!(store::get_server_state(&mut host, 3).unwrap().is_some(), server_moved);
        assert!(host.api.commands.iter().all(|command| !command.contains("configure")));
    }
}

#[test]
fn node_overview_counts_enabled_servers() {
    let mut host = installed_host();
    enable_server(&mut host);
    let overview = admin::list_nodes(&mut host).unwrap();
    assert_eq!(overview.nodes.len(), 1);
    let node = &overview.nodes[0];
    assert_eq!(node.id, 1);
    assert_eq!(node.name, "node-1");
    assert_eq!(node.status, SetupStatus::Installed);
    assert_eq!(node.enabled_servers, 1);
    assert_eq!(node.config.public_base_url, "http://cdn.example");
    let response = dispatch(&mut host, 1, "GET", "/admin/nodes", RequestBody::Empty);
    assert!(matches!(response, Ok(Reply { status: 200, body: ReplyBody::Nodes(_) })));
}

#[test]
fn events_refresh_installations_and_revoke_deleted_servers() {
    let mut host = installed_host();
    enable_server(&mut host);
    let mut plugin = FastdlPlugin::new(host.api, installers());
    assert!(plugin.handle_event(&HostEvent::ServerDeleted { server_id: 3, node_id: 1 }));
    assert!(plugin.handle_event(&HostEvent::ServerUpdated { server_id: 3 }));
    assert!(plugin.handle_event(&HostEvent::TaskFinished { task_type: "cmdexec".into(), node_id: 1 }));
    assert!(!plugin.handle_event(&HostEvent::TaskFinished { task_type: "gdaemon".into(), node_id: 1 }));
    assert!(!plugin.handle_event(&HostEvent::Other));
}

#[test]
fn failed_event_synchronization_is_logged() {
    let mut host = installed_host();
    enable_server(&mut host);
    host.api.servers.get_mut(&3).unwrap().game_id = "another-game".into();
    let handled = fastdl::handlers::events::handle(&mut host, &HostEvent::ServerUpdated { server_id: 3 });
    assert!(handled);
    assert_eq!(host.api.logs.len(), 1);
    assert!(host.api.logs[0].starts_with("ERROR FastDL event synchronization failed: "));
}

#[test]
fn server_abilities_have_translated_titles() {
    let abilities = fastdl::server_abilities();
    assert_eq!(
        abilities,
        vec![
            ("fastdl-view".to_string(), "plugins.i3z7ix336msd4.abilities.fastdl-view".to_string()),
            ("fastdl-manage".to_string(), "plugins.i3z7ix336msd4.abilities.fastdl-manage".to_string()),
        ]
    );
    assert_eq!(fastdl::PLUGIN_ID, "i3z7ix336msd4");
    assert_eq!(fastdl::REQUIRED_PERMISSIONS, ["files", "listen_events", "manage_servers", "node_commands"]);
}

#[test]
fn unpublishable_definitions_fail_before_any_upload() {
    let mut host = installed_host();
    enable_server(&mut host);
    let node = host.api.nodes.get(&1).unwrap().clone();
    let mut state = stored_server(&mut host, 3);
    host.api.uploads.clear();

    state.server_dir = "../outside".into();
    let error = sync::publish_server(&mut host, &node, &state, false).unwrap_err();
    assert_eq!(error.status, 400);
    assert_eq!(error.message, "Game directory must be a relative path inside the game server");

    let mut state = stored_server(&mut host, 3);
    state.token = "not-a-token".into();
    let error = sync::publish_server(&mut host, &node, &state, false).unwrap_err();
    assert_eq!(error.status, 500);
    assert_eq!(error.message, "Invalid stored public token");

    let mut relative_node = node.clone();
    relative_node.work_path = "relative/path".into();
    let state = stored_server(&mut host, 3);
    let error = sync::publish_server(&mut host, &relative_node, &state, false).unwrap_err();
    assert_eq!(error.message, "Node work directory is invalid");
    assert!(host.api.uploads.is_empty());
}

#[test]
fn disabled_game_servers_are_never_configured() {
    let mut host = installed_host();
    enable_server(&mut host);
    host.api.commands.clear();
    host.api.servers.get_mut(&3).unwrap().enabled = false;
    let server = host.api.servers.get(&3).unwrap().clone();
    let error = fastdl::services::servers::configure_server(&mut host, &server).unwrap_err();
    assert_eq!(error.status, 409);
    assert_eq!(error.code, "CONFIGURATION_NOT_READY");
    assert!(host.api.commands.is_empty());
}

#[test]
fn refused_node_settings_change_nothing() {
    let mut host = installed_host();
    host.api.uploads.clear();
    let cases = [
        ("localhost", "", "Listen address must be an IP address and port"),
        ("0.0.0.0:0", "", "Listen port must not be zero"),
        ("0.0.0.0:8080", "ftp://cdn.example", "A valid HTTP URL is required (HTTPS for downloads)"),
        ("0.0.0.0:8080", "http://user@cdn.example", "Invalid public or download URL"),
    ];
    for (listen, url, message) in cases {
        let config = NodeConfig { listen: listen.into(), public_base_url: url.into() };
        let error = node_setup::update_config(&mut host, 1, config).unwrap_err();
        assert_eq!(error.status, 400);
        assert_eq!(error.message, message);
    }
    assert!(host.api.uploads.is_empty());
    assert_eq!(store::get_config(&mut host, 1).unwrap().public_base_url, "http://cdn.example");
}

#[test]
fn refused_installation_options_start_nothing() {
    let mut host = standard_host();
    let sha = "a".repeat(64);
    let cases = [
        ("https://example.com/fastdl", "", "Custom downloads require both an HTTPS URL and SHA256"),
        ("http://example.com/fastdl", sha.as_str(), "A valid HTTP URL is required (HTTPS for downloads)"),
        ("https://example.com/fastdl", "abc", "SHA256 must contain exactly 64 hexadecimal characters"),
    ];
    for (url, sha256, message) in cases {
        let input = SetupInput { download_url: url.into(), sha256: sha256.into() };
        let error = node_setup::setup_node(&mut host, 1, input, &installers()).unwrap_err();
        assert_eq!(error.status, 400);
        assert_eq!(error.message, message);
    }
    assert!(host.api.created_tasks.is_empty());
    assert!(host.api.uploads.is_empty());
}
