use fastdl::domain::{
    Engine, NodeConfig, NodeOs, NodeSetupStatus, ServerInput, ServerState, SetupInput, SetupStatus,
};
use fastdl::handlers::auth::{ability_granted, server_access};
use fastdl::host_api::{CommandOutput, DaemonTaskInfo, HostApiError, NodeInfo, ServerInfo, Stored, TaskStatus};
use fastdl::services::admin::{count_enabled, node_response};
use fastdl::services::game_config::{
    commands, configuration_confirmation, configure_command, confirmation_from, diagnostic_detail,
    failure_line, host_failure_line,
};
use fastdl::services::node_setup::{
    apply_probe, download_step, found_node, installation_command, legacy_recheck, restart_command, timed_out,
    verification_error, verification_host_log, verification_log, version_from_output, DownloadStep,
};
use fastdl::services::paths::{absolute, binary, download_url, game_config, relative_game_root, server_definition};
use fastdl::services::servers::{
    configuration_ready, found_engine, found_server, needs_config_cleanup, node_readiness,
};
use fastdl::services::store::{
    config_from, decode_registrations, host_done, registration_key, status_from, stored_value,
};
use fastdl::services::sync::{
    daemon_config, deletion_candidates, normalize_dir, orphaned, publication_stale, server_drop_in,
};

fn node(os: &str, work_path: &str) -> NodeInfo {
    NodeInfo { id: 1, name: "node-1".into(), ips: Vec::new(), work_path: work_path.into(), os: os.into() }
}

fn state() -> ServerState {
    ServerState {
        server_id: 3,
        settings: ServerInput {
            enabled: true,
            autoindex: false,
            engine: Engine::Goldsource,
            game_dir: "valve".into(),
            manage_game_config: true,
            generate_bz2: true,
        },
        token: format!("{:032x}", 1),
        node_id: 1,
        server_dir: "servers/half-life".into(),
        synced: true,
    }
}

fn output(text: &str, exit_code: i32, error: Option<&str>) -> CommandOutput {
    CommandOutput { output: text.into(), exit_code, error: error.map(str::to_string) }
}

#[test]
fn rcon_commands_set_the_download_url_and_allow_downloads() {
    let url = "http://cdn.example/00000000000000000000000000000001/";
    for engine in [Engine::Goldsource, Engine::Source] {
        assert_eq!(
            commands(engine, url),
            vec![format!("sv_downloadurl \"{url}\""), "sv_allowdownload 1".to_string()]
        );
    }
}

#[test]
fn helper_commands_are_scoped_to_the_server_root() {
    let linux = configure_command(&node("linux", "/srv/gameap"), &state(), Some("http://cdn.example/t/")).unwrap();
    assert_eq!(
        linux,
        "/srv/gameap/.plugins/i3z7ix336msd4/gameap-fastdl configure --root /srv/gameap/servers/half-life --game-dir valve --engine goldsource --url http://cdn.example/t/"
    );
    let removal = configure_command(&node("linux", "/srv/gameap"), &state(), None).unwrap();
    assert!(removal.ends_with("--engine goldsource"));
    let windows = configure_command(&node("windows", r"C:\GameAP Data"), &state(), None).unwrap();
    assert_eq!(
        windows,
        r#""C:\GameAP Data\.plugins\i3z7ix336msd4\gameap-fastdl.exe" configure --root "C:\GameAP Data\servers\half-life" --game-dir valve --engine goldsource"#
    );
    let mut outside = state();
    outside.server_dir = "../other".into();
    assert_eq!(configure_command(&node("linux", "/srv/gameap"), &outside, None).unwrap_err().status, 400);
    assert_eq!(
        configure_command(&node("linux", "srv"), &state(), None).unwrap_err().message,
        "Node work directory is invalid"
    );
}

#[test]
fn confirmation_decisions_from_parsed_replies() {
    assert!(confirmation_from(Some(true), &Vec::new()).is_ok());
    assert_eq!(
        confirmation_from(Some(false), &vec![true]).unwrap_err(),
        "the helper did not confirm the configuration update"
    );
    assert!(confirmation_from(None, &vec![true]).is_ok());
    assert_eq!(
        confirmation_from(None, &Vec::new()).unwrap_err(),
        "the command output has no valid configuration confirmation"
    );
    assert_eq!(
        confirmation_from(None, &vec![true, true]).unwrap_err(),
        "the command output has multiple configuration confirmations"
    );
    assert_eq!(
        confirmation_from(None, &vec![false]).unwrap_err(),
        "the helper did not confirm the configuration update"
    );
}

#[test]
fn helper_replies_are_read_as_json() {
    assert!(configuration_confirmation("{\"configured\":true}").is_ok());
    assert!(configuration_confirmation("  {\n  \"configured\": true\n} \n").is_ok());
    assert!(configuration_confirmation("/srv# helper\n\n{\"configured\":true}\n\nExited with 0\n").is_ok());
    assert_eq!(
        configuration_confirmation("{\"configured\":false}").unwrap_err(),
        "the helper did not confirm the configuration update"
    );
    assert_eq!(
        configuration_confirmation("{\"configured\":\"true\"}").unwrap_err(),
        "the command output has no valid configuration confirmation"
    );
    assert_eq!(
        configuration_confirmation("{\"configured\":true}\n{\"configured\":true}").unwrap_err(),
        "the command output has multiple configuration confirmations"
    );
    assert!(configuration_confirmation("").is_err());
}

#[test]
fn diagnostics_redact_the_token_and_are_bounded() {
    let token = format!("{:032x}", 7);
    assert_eq!(
        diagnostic_detail(&format!("url /{token}/ done"), &token).into_iter().collect::<String>(),
        "url /[redacted]/ done"
    );
    assert_eq!(diagnostic_detail("plain", "").into_iter().collect::<String>(), "plain");
    let long: String = diagnostic_detail(&"x".repeat(3000), &token).into_iter().collect();
    assert_eq!(long.chars().count(), 2048 + " [truncated]".len());
    assert!(long.ends_with(" [truncated]"));
}

#[test]
fn helper_failures_are_logged_on_one_line() {
    let line = failure_line(&state(), &output("line one\nline two", 3, Some("daemon\terror")), "the configuration command failed");
    assert_eq!(
        line,
        "[fastdl] Game configuration failed: node_id=1 server_id=3 exit_code=3 error=Some(\"daemon\\terror\") output=\"line one\\nline two\" reason=the configuration command failed"
    );
    let line = host_failure_line(&state(), None, "connection\nrefused");
    assert_eq!(
        line,
        "[fastdl] Game configuration failed: node_id=1 server_id=3 operation=remove host_error=\"connection\\nrefused\""
    );
    let with_url = host_failure_line(&state(), Some("http://x/"), "down");
    assert!(with_url.contains("operation=apply"));
}

#[test]
fn restart_commands_per_platform() {
    assert_eq!(restart_command(NodeOs::Linux), Some("systemctl restart gameap-fastdl"));
    assert_eq!(
        restart_command(NodeOs::Windows),
        Some("powershell -NoProfile -NonInteractive -Command \"$ErrorActionPreference='Stop'; Restart-Service -Name gameap-fastdl\"")
    );
    assert_eq!(restart_command(NodeOs::Unsupported), None);
}

#[test]
fn installation_commands_name_the_interpreter_and_paths() {
    let automatic = SetupInput { download_url: String::new(), sha256: String::new() };
    let linux = installation_command(
        &node("linux", "/srv/gameap"),
        &automatic,
        "/srv/gameap/.plugins/i3z7ix336msd4/install-linux.sh",
    )
    .unwrap();
    assert_eq!(
        linux,
        "/bin/bash /srv/gameap/.plugins/i3z7ix336msd4/install-linux.sh --install-dir=/srv/gameap/.plugins/i3z7ix336msd4 --config=/srv/gameap/.plugins/i3z7ix336msd4/config.json"
    );
    assert_eq!(
        installation_command(&node("linux", "relative"), &automatic, "x").unwrap_err().message,
        "Node work directory is invalid"
    );
}

#[test]
fn timeout_is_strictly_after_thirty_minutes() {
    let status = NodeSetupStatus { status: SetupStatus::Installing, started_at: 100, ..Default::default() };
    assert!(!timed_out(&status, 1900));
    assert!(timed_out(&status, 1901));
    let installed = NodeSetupStatus { status: SetupStatus::Installed, started_at: 100, ..Default::default() };
    assert!(!timed_out(&installed, 100_000));
    let extreme = NodeSetupStatus { status: SetupStatus::Installing, started_at: i64::MIN, ..Default::default() };
    assert!(timed_out(&extreme, i64::MAX));
}

#[test]
fn version_lines_are_found_in_decorated_output() {
    assert_eq!(version_from_output("gameap-fastdl 0.2.3\n").as_deref(), Some("0.2.3"));
    assert_eq!(
        version_from_output("/srv# gameap-fastdl version\n\ngameap-fastdl v0.0.1\n\nExited with 0\n").as_deref(),
        Some("v0.0.1")
    );
    assert_eq!(version_from_output("  gameap-fastdl v1 \r\n").as_deref(), Some("v1"));
    assert_eq!(version_from_output("gameap-fastdl v1 extra"), None);
    assert_eq!(version_from_output("gameap-fastdl 1\ngameap-fastdl 2\n"), None);
    assert_eq!(version_from_output(&format!("gameap-fastdl {}", "v".repeat(64))).map(|v| v.len()), Some(64));
    assert_eq!(version_from_output(&format!("gameap-fastdl {}", "v".repeat(65))), None);
    assert_eq!(version_from_output(""), None);
}

#[test]
fn version_probe_results() {
    let mut status = NodeSetupStatus { status: SetupStatus::Installing, task_id: 9, started_at: 5, ..Default::default() };
    assert!(!apply_probe(&mut status, &output("gameap-fastdl 1.2.3\n", 0, None)));
    assert_eq!(status.status, SetupStatus::Installed);
    assert_eq!(status.version, "1.2.3");
    assert!(status.error_message.is_empty());
    assert_eq!(status.task_id, 9);
    assert_eq!(status.started_at, 5);

    let mut status = NodeSetupStatus { status: SetupStatus::Installing, ..Default::default() };
    assert!(apply_probe(&mut status, &output("gameap-fastdl 1.2.3\n", -2, None)));
    assert_eq!(status.status, SetupStatus::Failed);
    assert_eq!(
        status.error_message,
        "Installed binary could not be verified: the version command exited with code -2. Check the GameAP plugin logs."
    );
}

#[test]
fn verification_errors_never_quote_the_node() {
    assert_eq!(
        verification_error(&output("secret", 0, Some("secret"))),
        "Installed binary could not be verified: the node could not execute the version command. Check the GameAP plugin logs."
    );
    assert_eq!(
        verification_error(&output("secret", 0, None)),
        "Installed binary could not be verified: the version command did not report a FastDL version. Check the GameAP plugin logs."
    );
    assert_eq!(
        verification_log(1, 2, "/bin/x version", &output("out\n", 4, None)),
        "[fastdl] Installation verification failed: node_id=1 task_id=2 command=\"/bin/x version\" exit_code=4 error=None output=\"out\\n\""
    );
    assert_eq!(
        verification_host_log(1, 2, "x", "a\"b"),
        "[fastdl] Installation verification failed: node_id=1 task_id=2 command=\"x\" host_error=\"a\\\"b\""
    );
}

#[test]
fn legacy_download_steps() {
    let task = |node_id, status| Some(DaemonTaskInfo { id: 1, node_id, status, output: String::new() });
    assert_eq!(download_step(1, &None), DownloadStep::Wait);
    assert_eq!(download_step(1, &task(2, TaskStatus::Success)), DownloadStep::WrongNode);
    assert_eq!(download_step(1, &task(1, TaskStatus::Error)), DownloadStep::Failed);
    assert_eq!(download_step(1, &task(1, TaskStatus::Canceled)), DownloadStep::Failed);
    assert_eq!(download_step(1, &task(1, TaskStatus::Success)), DownloadStep::Proceed);
    assert_eq!(download_step(1, &task(1, TaskStatus::Working)), DownloadStep::Wait);
    assert_eq!(TaskStatus::from_i32(4), TaskStatus::Success);
    assert_eq!(TaskStatus::from_i32(42), TaskStatus::Unknown);
}

#[test]
fn only_the_bare_legacy_message_is_rechecked() {
    let failed = |message: &str| NodeSetupStatus {
        status: SetupStatus::Failed,
        error_message: message.into(),
        ..Default::default()
    };
    assert!(legacy_recheck(&failed("Installed binary could not be verified")));
    assert!(!legacy_recheck(&failed("Installed binary could not be verified: code 1")));
    assert!(!legacy_recheck(&failed("Installation timed out")));
    let mut installing = failed("Installed binary could not be verified");
    installing.status = SetupStatus::Installing;
    assert!(!legacy_recheck(&installing));
}

#[test]
fn paths_below_the_work_directory() {
    assert_eq!(absolute(&node("linux", "/srv/gameap/"), "servers/cs").unwrap(), "/srv/gameap/servers/cs");
    assert_eq!(absolute(&node("windows", r"C:\GameAP\"), "servers/cs").unwrap(), r"C:\GameAP\servers\cs");
    assert!(absolute(&node("linux", "srv"), "x").is_err());
    assert!(absolute(&node("windows", "/srv"), "x").is_err());
    assert_eq!(binary(&node("linux", "/srv")).unwrap(), "/srv/.plugins/i3z7ix336msd4/gameap-fastdl");
    assert_eq!(binary(&node("windows", r"D:\g")).unwrap(), r"D:\g\.plugins\i3z7ix336msd4\gameap-fastdl.exe");
    assert_eq!(relative_game_root("servers/cs", "").unwrap(), "servers/cs");
    assert_eq!(relative_game_root("servers/cs", "cstrike").unwrap(), "servers/cs/cstrike");
    assert!(relative_game_root("servers/cs", "../x").is_err());
    assert_eq!(game_config(&state()).unwrap(), "servers/half-life/valve/server.cfg");
    let mut source = state();
    source.settings.engine = Engine::Source;
    assert_eq!(game_config(&source).unwrap(), "servers/half-life/valve/cfg/server.cfg");
}

#[test]
fn public_urls_and_private_file_names() {
    let config = NodeConfig { listen: "0.0.0.0:8080".into(), public_base_url: "https://cdn.example//".into() };
    assert_eq!(download_url(&config, "abc"), "https://cdn.example/abc/");
    assert_eq!(download_url(&config, ""), "");
    assert_eq!(download_url(&NodeConfig::default(), "abc"), "");
    let token = format!("{:032x}", 5);
    assert_eq!(
        server_definition(42, &token).unwrap(),
        ".plugins/i3z7ix336msd4/servers.d/server-42.json"
    );
    assert_eq!(server_definition(42, "short").unwrap_err().message, "Invalid stored public token");
    assert!(server_definition(0, &token).is_err());
    assert!(server_definition(42, &token.to_uppercase().replace('0', "A")).is_err());
    assert_eq!(registration_key(42), "fastdl:registration:42");
}

#[test]
fn readiness_requires_installation_and_address() {
    let installed = NodeSetupStatus { status: SetupStatus::Installed, ..Default::default() };
    let with_url = NodeConfig { listen: "0.0.0.0:8080".into(), public_base_url: "http://x".into() };
    assert!(node_readiness(&installed, &with_url).is_ok());
    assert_eq!(
        node_readiness(&NodeSetupStatus::default(), &with_url).unwrap_err().message,
        "Install FastDL on this node first"
    );
    assert_eq!(
        node_readiness(&installed, &NodeConfig::default()).unwrap_err().message,
        "Configure the public FastDL address first"
    );
}

#[test]
fn saved_settings_are_ready_only_while_they_describe_the_server() {
    let server = ServerInfo {
        id: 3,
        node_id: 1,
        name: "hl".into(),
        game_id: "valve".into(),
        dir: r"servers\half-life".into(),
        enabled: true,
    };
    assert!(configuration_ready(&state(), &server, Engine::Goldsource));
    assert!(!configuration_ready(&state(), &server, Engine::Source));
    let mut moved = server.clone();
    moved.node_id = 2;
    assert!(!configuration_ready(&state(), &moved, Engine::Goldsource));
    let mut unsynced = state();
    unsynced.synced = false;
    assert!(!configuration_ready(&unsynced, &server, Engine::Goldsource));
    assert_eq!(normalize_dir(r"servers\half-life"), "servers/half-life");
    assert!(!publication_stale(&state(), &server));
    let mut disabled = server.clone();
    disabled.enabled = false;
    assert!(publication_stale(&state(), &disabled));
}

#[test]
fn cleanup_only_where_the_previous_file_was_managed() {
    let previous = state();
    let mut next = state();
    assert!(!needs_config_cleanup(&previous, &next).unwrap());
    next.settings.game_dir = "cstrike".into();
    assert!(needs_config_cleanup(&previous, &next).unwrap());
    next = state();
    next.settings.enabled = false;
    assert!(needs_config_cleanup(&previous, &next).unwrap());
    next = state();
    next.node_id = 2;
    next.settings.game_dir = "cstrike".into();
    assert!(!needs_config_cleanup(&previous, &next).unwrap());
    let mut unmanaged = state();
    unmanaged.settings.manage_game_config = false;
    assert!(!needs_config_cleanup(&unmanaged, &state()).unwrap());
}

#[test]
fn published_definitions_and_daemon_configuration() {
    let (path, definition) = server_drop_in(&node("linux", "/srv/gameap"), &state(), true).unwrap();
    assert_eq!(path, ".plugins/i3z7ix336msd4/servers.d/server-3.json");
    assert_eq!(definition.root, "/srv/gameap/servers/half-life/valve");
    assert_eq!(definition.token, state().token);
    assert!(definition.enabled);
    assert!(!definition.generate_bz2);
    let mut source = state();
    source.settings.engine = Engine::Source;
    let (_, definition) = server_drop_in(&node("linux", "/srv/gameap"), &source, false).unwrap();
    assert!(definition.generate_bz2);
    assert!(!definition.enabled);
    let config = daemon_config(&NodeConfig { listen: "0.0.0.0:9000".into(), public_base_url: "http://x".into() });
    assert_eq!(config.version, 1);
    assert_eq!(config.listen, "0.0.0.0:9000");
    assert_eq!(config.servers_dir, "servers.d");
    assert_eq!(config.cache_dir, "cache");
}

#[test]
fn deleted_servers_are_revoked_on_every_registered_node() {
    let stored = state();
    let mut elsewhere = state();
    elsewhere.node_id = 2;
    assert_eq!(deletion_candidates(Some(stored.clone()), Some(stored.clone())).len(), 1);
    assert_eq!(deletion_candidates(Some(stored.clone()), Some(elsewhere.clone())).len(), 2);
    assert_eq!(deletion_candidates(None, Some(elsewhere.clone())), vec![elsewhere]);
    assert!(deletion_candidates(None, None).is_empty());
    let servers = vec![ServerInfo {
        id: 3,
        node_id: 1,
        name: "x".into(),
        game_id: "valve".into(),
        dir: "d".into(),
        enabled: true,
    }];
    assert!(!orphaned(&servers, 3));
    assert!(orphaned(&servers, 4));
}

#[test]
fn stored_records_and_host_results() {
    assert_eq!(stored_value::<u8>(Ok(Stored::Present(4)), "bad").unwrap(), Some(4));
    assert_eq!(stored_value::<u8>(Ok(Stored::Missing), "bad").unwrap(), None);
    assert_eq!(stored_value::<u8>(Ok(Stored::Invalid), "bad").unwrap_err().message, "bad");
    assert_eq!(stored_value::<u8>(Err(HostApiError::Call("x".into())), "bad").unwrap_err().status, 502);
    assert!(host_done(Ok(())).is_ok());
    assert_eq!(host_done(Err(HostApiError::Op("x".into()))).unwrap_err().code, "NODE_UNAVAILABLE");
    let decoded = decode_registrations(vec![("fastdl:registration:3".into(), Stored::Present(state()))]).unwrap();
    assert_eq!(decoded, vec![("fastdl:registration:3".to_string(), state())]);
    let error = decode_registrations(vec![("k".into(), Stored::Invalid)]).unwrap_err();
    assert_eq!(error.message, "Stored FastDL registration is invalid");
}

#[test]
fn access_levels_from_ability_answers() {
    assert!(server_access(true, false, false).unwrap().can_manage);
    assert!(server_access(false, true, false).unwrap().can_manage);
    assert!(!server_access(false, false, true).unwrap().can_manage);
    let denied = server_access(false, false, false).unwrap_err();
    assert_eq!(denied.status, 403);
    assert_eq!(denied.message, "You do not have access to these FastDL settings");
}

#[test]
fn node_overview_rows() {
    let enabled = state();
    let mut disabled = state();
    disabled.settings.enabled = false;
    assert_eq!(count_enabled(&vec![Some(enabled.clone()), None, Some(disabled), Some(enabled)]), 2);
    let row = node_response(
        node("linux", "/srv"),
        NodeSetupStatus { status: SetupStatus::Installed, version: "1.0".into(), task_id: 5, ..Default::default() },
        NodeConfig::default(),
        3,
    );
    assert_eq!(row.id, 1);
    assert_eq!(row.os, "linux");
    assert_eq!(row.version, "1.0");
    assert_eq!(row.task_id, 5);
    assert_eq!(row.enabled_servers, 3);
}

#[test]
fn host_lookups_are_interpreted() {
    let node = node("linux", "/srv/gameap");
    assert_eq!(found_node(Ok(Some(node.clone()))).unwrap(), node);
    assert_eq!(found_node(Ok(None)).unwrap_err().message, "Node not found");
    assert_eq!(found_node(Err(HostApiError::Call("down".into()))).unwrap_err().code, "NODE_UNAVAILABLE");

    let server = ServerInfo {
        id: 3,
        node_id: 1,
        name: "cs".into(),
        game_id: "cstrike".into(),
        dir: "servers/cs".into(),
        enabled: true,
    };
    assert_eq!(found_server(Ok(Some(server.clone()))).unwrap(), server);
    let missing = found_server(Ok(None)).unwrap_err();
    assert_eq!((missing.status, missing.message.as_str()), (404, "Game server not found"));
    assert_eq!(found_server(Err(HostApiError::Op("x".into()))).unwrap_err().status, 502);

    assert_eq!(found_engine(Ok(Some(" GoldSource ".into()))).unwrap(), Some(Engine::Goldsource));
    assert_eq!(found_engine(Ok(Some("source".into()))).unwrap(), Some(Engine::Source));
    assert_eq!(found_engine(Ok(Some("Unreal".into()))).unwrap(), None);
    assert_eq!(found_engine(Ok(None)).unwrap(), None);
    assert_eq!(found_engine(Err(HostApiError::Call("x".into()))).unwrap_err().status, 502);

    assert!(ability_granted(Ok(true)).unwrap());
    assert!(!ability_granted(Ok(false)).unwrap());
    let error = ability_granted(Err(HostApiError::Op("x".into()))).unwrap_err();
    assert_eq!((error.status, error.code), (502, "AUTHZ_UNAVAILABLE"));
}

#[test]
fn stored_settings_fall_back_to_defaults() {
    let defaults = config_from(Ok(Stored::Missing)).unwrap();
    assert_eq!(defaults.listen, "0.0.0.0:8080");
    assert_eq!(defaults.public_base_url, "");
    let stored = NodeConfig { listen: "127.0.0.1:9090".into(), public_base_url: "http://cdn.example".into() };
    let loaded = config_from(Ok(Stored::Present(stored.clone()))).unwrap();
    assert_eq!((loaded.listen, loaded.public_base_url), (stored.listen, stored.public_base_url));
    assert_eq!(config_from(Ok(Stored::Invalid)).unwrap_err().message, "Stored FastDL settings are invalid");
    assert_eq!(config_from(Err(HostApiError::Call("x".into()))).unwrap_err().status, 502);

    let absent = status_from(Ok(Stored::Missing)).unwrap();
    assert_eq!(absent.status, SetupStatus::NotInstalled);
    assert_eq!((absent.task_id, absent.started_at), (0, 0));
    let installed = NodeSetupStatus { status: SetupStatus::Installed, task_id: 7, ..Default::default() };
    let loaded = status_from(Ok(Stored::Present(installed))).unwrap();
    assert_eq!((loaded.status, loaded.task_id), (SetupStatus::Installed, 7));
    assert_eq!(status_from(Ok(Stored::Invalid)).unwrap_err().status, 500);
}

#[test]
fn quoted_log_values_escape_as_debug_does() {
    let mut line = String::from("value=");
    let value: Vec<char> = "a\"b\\c\n\0\u{ad}é".chars().collect();
    fastdl::text::push_quoted(&mut line, &value);
    assert_eq!(line, "value=\"a\\\"b\\\\c\\n\\0\\u{ad}é\"");
    assert_eq!(line["value=".len()..], format!("{:?}", "a\"b\\c\n\0\u{ad}é"));
}
