//! Node configuration and installation through daemon tasks.
//!
//! Installation becomes complete only after a successful task and a version
//! probe of the installed binary. Polling also expires abandoned tasks.
use vstd::prelude::*;

use crate::domain::node::{
    node_config_refusal, setup_input_refusal, spec_parse_os, NodeConfigView, NodeSetupStatusView,
};
use crate::domain::{NodeConfig, NodeOs, NodeSetupStatus, SetupInput, SetupStatus};
use crate::host_api::{
    appended, extends, host_error_message, made, CommandOutput, DaemonTaskInfo, Host, HostApi, HostCall, HostResult,
    NodeInfo, ServerInfo, TaskStatus,
};
use crate::http::{
    bad_request_view, conflict_view, error_view, fails_with, node_unavailable_view,
    not_found_view, ok_string, ApiError, ApiErrorView,
};
use crate::shell::{shell_join, shell_join_windows, spec_shell_join, spec_shell_join_windows, views};
use crate::text::{
    chars_of, decimal, decimal_string, push_quoted, quoted_value, signed_decimal,
    signed_decimal_string, split, split_vec, string_of, trim, trim_vec,
};

use super::game_config::{output_lines, spec_diagnostic_detail, diagnostic_detail, opt_string_view};
use super::paths::{
    absolute, binary, spec_absolute, spec_binary_relative, work_path_ok, CONFIG_PATH, PLUGIN_DIR,
};
use super::{store, sync};

verus! {

/// An installation task that reports nothing for this long has failed.
pub const INSTALLING_TIMEOUT_SECS: i64 = 1800;

/// The version probe prints `gameap-fastdl <version>`.
pub const VERSION_PREFIX: &'static str = "gameap-fastdl ";

pub const LINUX_RESTART_COMMAND: &'static str = "systemctl restart gameap-fastdl";

pub const WINDOWS_RESTART_COMMAND: &'static str = "powershell -NoProfile -NonInteractive -Command \"$ErrorActionPreference='Stop'; Restart-Service -Name gameap-fastdl\"";

/// The error message stored by releases that did not yet explain verification failures.
pub const LEGACY_VERIFICATION_ERROR: &'static str = "Installed binary could not be verified";

/// The installers shipped with the plugin, uploaded to a node before each installation.
pub struct InstallerScripts<'a> {
    pub linux: &'a [u8],
    pub windows: &'a [u8],
}

/// What a node lookup answers: the node, a missing node, or a failed host call.
pub open spec fn node_lookup(found: HostResult<Option<NodeInfo>>) -> Result<NodeInfo, ApiErrorView> {
    match found {
        Ok(Some(node)) => Ok(node),
        Ok(None) => Err(not_found_view("Node not found"@)),
        Err(_) => Err(node_unavailable_view()),
    }
}

/// Interprets the host's answer to a node lookup.
pub fn found_node(found: HostResult<Option<NodeInfo>>) -> (r: Result<NodeInfo, ApiError>)
    ensures
        store::result_view(r) == node_lookup(found),
{
    match found {
        Ok(Some(node)) => Ok(node),
        Ok(None) => Err(ApiError::not_found("Node not found")),
        Err(e) => Err(ApiError::from_host(e)),
    }
}

/// A node lookup was made for `node_id`; `node_lookup` of its answer is what it gives.
pub open spec fn node_read(call: HostCall, node_id: u64) -> bool {
    call matches HostCall::GetNode { id, .. } && id == node_id
}

pub open spec fn node_answer(call: HostCall) -> Result<NodeInfo, ApiErrorView> {
    match call {
        HostCall::GetNode { answer, .. } => node_lookup(answer),
        _ => Err(node_unavailable_view()),
    }
}

pub fn get_node<H: HostApi>(host: &mut Host<H>, node_id: u64) -> (r: Result<NodeInfo, ApiError>)
    ensures
        extends(old(host)@, final(host)@),
        made(old(host)@, final(host)@).len() == 1,
        node_read(made(old(host)@, final(host)@)[0], node_id),
        store::result_view(r) == node_answer(made(old(host)@, final(host)@)[0]),
        store::nothing_synced(final(host)@, old(host)@.len() as int),
        crate::host_api::reads_only(final(host)@, old(host)@.len() as int),
        r matches Err(e) ==> e@ == node_unavailable_view() || e@ == not_found_view(
            "Node not found"@,
        ),
{
    found_node(host.get_node(node_id))
}

pub fn get_config<H: HostApi>(host: &mut Host<H>, node_id: u64) -> (r: Result<NodeConfig, ApiError>)
    ensures
        r matches Err(e) ==> store::load_failure(e@),
        store::one_call(old(host)@, final(host)@),
        store::config_read(made(old(host)@, final(host)@)[0], node_id, r),
        crate::host_api::reads_only(final(host)@, old(host)@.len() as int),
{
    store::get_config(host, node_id)
}

pub open spec fn unsupported_node_view() -> ApiErrorView {
    bad_request_view("Only Linux and Windows nodes are supported"@)
}

/// The command that restarts the FastDL service on a node of the given OS.
pub open spec fn spec_restart_command(os: NodeOs) -> Option<Seq<char>> {
    match os {
        NodeOs::Linux => Some(LINUX_RESTART_COMMAND@),
        NodeOs::Windows => Some(WINDOWS_RESTART_COMMAND@),
        NodeOs::Unsupported => None,
    }
}

pub fn restart_command(os: NodeOs) -> (r: Option<&'static str>)
    ensures
        match r {
            Some(c) => spec_restart_command(os) == Some(c@),
            None => spec_restart_command(os) is None,
        },
{
    match os {
        NodeOs::Linux => Some(LINUX_RESTART_COMMAND),
        NodeOs::Windows => Some(WINDOWS_RESTART_COMMAND),
        NodeOs::Unsupported => None,
    }
}

pub open spec fn restart_failed_view() -> ApiErrorView {
    error_view(502, "RESTART_FAILED"@, "FastDL service could not be restarted"@)
}

/// What a restart command's answer means: success needs a zero exit status and no
/// daemon error.
pub open spec fn restart_outcome(answer: HostResult<CommandOutput>) -> Result<(), ApiErrorView> {
    match answer {
        Err(_) => Err(node_unavailable_view()),
        Ok(output) => if output.exit_code != 0 || output.error is Some {
            Err(restart_failed_view())
        } else {
            Ok(())
        },
    }
}

/// Interprets the answer to a restart command.
pub fn restart_result(answer: HostResult<CommandOutput>) -> (r: Result<(), ApiError>)
    ensures
        store::result_view(r) == restart_outcome(answer),
{
    match answer {
        Err(e) => Err(ApiError::from_host(e)),
        Ok(output) => {
            if output.exit_code != 0 || output.error.is_some() {
                Err(ApiError::new(502, "RESTART_FAILED", "FastDL service could not be restarted"))
            } else {
                Ok(())
            }
        },
    }
}

/// The restart of a node's service: the OS's restart command run once on the node,
/// or, on another OS, nothing at all.
pub open spec fn restart_record(node: NodeInfo, calls: Seq<HostCall>, r: Result<(), ApiError>) -> bool {
    match spec_restart_command(spec_parse_os(node.os@)) {
        None => calls.len() == 0 && fails_with(r, unsupported_node_view()),
        Some(c) => calls.len() == 1 && (calls[0] matches HostCall::ExecuteCommand {
            node_id,
            command,
            answer,
        } && node_id == node.id && command == c && store::result_view(r) == restart_outcome(answer)),
    }
}

/// Restarting the service, read from its calls: an unsupported node makes no
/// call; otherwise the restart command runs on the node and decides the result.
pub open spec fn restart_effect(node: NodeInfo, calls: Seq<HostCall>) -> (int, Result<(), ApiErrorView>, bool) {
    match spec_restart_command(spec_parse_os(node.os@)) {
        None => (0, Err(unsupported_node_view()), true),
        Some(c) => match calls[0] {
            HostCall::ExecuteCommand { node_id, command, answer } => (
                1,
                restart_outcome(answer),
                node_id == node.id && command == c,
            ),
            _ => (1, Err(node_unavailable_view()), false),
        },
    }
}

/// Restarts the FastDL service; fails unless the command exits with status zero.
pub fn restart<H: HostApi>(host: &mut Host<H>, node: &NodeInfo) -> (r: Result<(), ApiError>)
    ensures
        extends(old(host)@, final(host)@),
        restart_record(*node, made(old(host)@, final(host)@), r),
        made(old(host)@, final(host)@).len() == restart_effect(*node, made(old(host)@, final(host)@)).0,
        restart_effect(*node, made(old(host)@, final(host)@)).2,
        store::result_view(r) == restart_effect(*node, made(old(host)@, final(host)@)).1,
        spec_parse_os(node.os@) == NodeOs::Unsupported ==> fails_with(r, unsupported_node_view()),
        r matches Err(e) ==> e@ == unsupported_node_view() || e@ == node_unavailable_view()
            || e@ == restart_failed_view(),
{
    let command = match restart_command(node.os_kind()) {
        Some(command) => command,
        None => {
            assert(old(host)@.subrange(0, old(host)@.len() as int) =~= old(host)@);
            assert(made(old(host)@, final(host)@) =~= Seq::<HostCall>::empty());
            return Err(ApiError::bad_request("Only Linux and Windows nodes are supported"));
        },
    };
    restart_result(host.execute_command(node.id, command))
}

/// The errors refused node settings are answered with.
pub open spec fn settings_refusal(e: ApiErrorView) -> bool {
    ||| e == bad_request_view("Listen address must be an IP address and port"@)
    ||| e == bad_request_view("Listen port must not be zero"@)
    ||| e == bad_request_view("A valid HTTP URL is required (HTTPS for downloads)"@)
    ||| e == bad_request_view("Invalid public or download URL"@)
}

pub open spec fn address_in_use_view() -> ApiErrorView {
    conflict_view("Disable FastDL on this node's game servers before clearing its public address"@)
}

/// Errors saving node settings can answer.
pub open spec fn config_update_failure(e: ApiErrorView) -> bool {
    ||| settings_refusal(e)
    ||| e == address_in_use_view()
    ||| sync::node_sync_failure(e)
}

/// Scanning a node's servers before its public address is cleared: each server's
/// stored state is read in turn; a failed read, or a server with FastDL enabled,
/// stops the scan.
pub open spec fn scan_effect(servers: Seq<ServerInfo>, calls: Seq<HostCall>) -> (nat, Result<
    (),
    ApiErrorView,
>)
    decreases servers.len(),
{
    if servers.len() == 0 {
        (0, Ok(()))
    } else {
        match store::state_answer(calls[0]) {
            Err(e) => (1, Err(e)),
            Ok(state) => if super::admin::state_enabled(state) {
                (1, Err(address_in_use_view()))
            } else {
                let rest = scan_effect(servers.skip(1), calls.skip(1));
                (1 + rest.0, rest.1)
            },
        }
    }
}

/// The reads of a scan: each server's own stored state, in order.
pub open spec fn scan_calls(servers: Seq<ServerInfo>, calls: Seq<HostCall>) -> bool
    decreases servers.len(),
{
    servers.len() > 0 ==> {
        &&& store::state_key(calls[0], store::KEY_SERVER_STATE@, crate::host_api::server_scope(servers[0].id))
        &&& match store::state_answer(calls[0]) {
            Ok(state) => !super::admin::state_enabled(state) ==> scan_calls(servers.skip(1), calls.skip(1)),
            Err(_) => true,
        }
    }
}

proof fn lemma_scan_prefix(servers: Seq<ServerInfo>, a: Seq<HostCall>, b: Seq<HostCall>)
    requires
        a.len() <= b.len(),
        a == b.subrange(0, a.len() as int),
        a.len() >= scan_effect(servers, a).0,
        scan_calls(servers, a),
    ensures
        scan_effect(servers, b) == scan_effect(servers, a),
        scan_calls(servers, b),
    decreases servers.len(),
{
    if servers.len() > 0 {
        assert(scan_effect(servers, a).0 >= 1);
        assert(b[0] == a[0]);
        match store::state_answer(a[0]) {
            Ok(state) => if !super::admin::state_enabled(state) {
                assert(a.skip(1) =~= b.skip(1).subrange(0, a.skip(1).len() as int));
                lemma_scan_prefix(servers.skip(1), a.skip(1), b.skip(1));
            },
            Err(_) => {},
        }
    }
}

/// Scans the servers from position `i` on for one with FastDL enabled.
fn scan_enabled<H: HostApi>(host: &mut Host<H>, servers: &Vec<ServerInfo>, i: usize) -> (r: Result<
    (),
    ApiError,
>)
    requires
        i <= servers.len(),
    ensures
        extends(old(host)@, final(host)@),
        crate::host_api::reads_only(final(host)@, old(host)@.len() as int),
        made(old(host)@, final(host)@).len() == scan_effect(servers@.skip(i as int), made(old(host)@, final(host)@)).0,
        scan_calls(servers@.skip(i as int), made(old(host)@, final(host)@)),
        store::result_view(r) == scan_effect(servers@.skip(i as int), made(old(host)@, final(host)@)).1,
        r matches Err(e) ==> store::load_failure(e@) || e@ == address_in_use_view(),
    decreases servers.len() - i,
{
    if i == servers.len() {
        assert(made(old(host)@, host@) =~= Seq::<HostCall>::empty());
        return Ok(());
    }
    let ghost rest = servers@.skip(i as int);
    assert(rest[0] == servers@[i as int]);
    assert(rest.skip(1) =~= servers@.skip(i + 1));
    let state = match store::get_server_state(host, servers[i].id) {
        Ok(state) => state,
        Err(e) => return Err(e),
    };
    let ghost after_read = host@;
    let enabled = match &state {
        Some(s) => s.settings.enabled,
        None => false,
    };
    if enabled {
        return Err(
            ApiError::conflict(
                "Disable FastDL on this node's game servers before clearing its public address",
            ),
        );
    }
    let r = scan_enabled(host, servers, i + 1);
    proof {
        assert(made(old(host)@, host@).skip(1) =~= made(after_read, host@));
    }
    r
}

/// Saving and applying accepted settings on a node: the settings saved, then
/// uploaded as the daemon configuration, then the installation status read. A
/// node that is not installed is done; an installed node is republished and its
/// service restarted last. Each step runs only after the previous one succeeded,
/// so a saved configuration stays saved whatever fails later.
pub open spec fn settings_applied(
    node_id: u64,
    node: NodeInfo,
    config: NodeConfigView,
    calls: Seq<HostCall>,
    r: Result<(), ApiError>,
) -> bool {
    &&& calls.len() >= 1
    &&& store::config_write(calls[0], node_id, config)
    &&& match store::write_result(calls[0]) {
        Err(e) => calls.len() == 1 && fails_with(r, e),
        Ok(()) => {
            &&& calls.len() >= 2
            &&& daemon_upload(calls[1], node_id, config)
            &&& match store::write_result(calls[1]) {
                Err(e) => calls.len() == 2 && fails_with(r, e),
                Ok(()) => {
                    &&& calls.len() >= 3
                    &&& store::status_key(calls[2], node_id)
                    &&& match store::status_answer(calls[2]) {
                        Err(e) => calls.len() == 3 && fails_with(r, e),
                        Ok(status) => if status.status != SetupStatus::Installed {
                            calls.len() == 3 && r is Ok
                        } else {
                            exists|n: int, applied: Result<(), ApiErrorView>|
                                #![trigger sync::node_applied(node_id, calls.subrange(3, n), applied)]
                                3 <= n <= calls.len() && sync::node_applied(node_id, calls.subrange(3, n), applied)
                                    && match applied {
                                    Err(e) => n == calls.len() && fails_with(r, e),
                                    Ok(()) => {
                                        let restarted = restart_effect(node, calls.skip(n));
                                        &&& calls.len() == n + restarted.0
                                        &&& restarted.2
                                        &&& store::result_view(r) == restarted.1
                                    },
                                }
                        },
                    }
                },
            }
        },
    }
}

/// What saving node settings does, read from its calls: refused settings make no
/// call; the node is looked up; clearing the public address first scans the
/// node's servers and is refused (409) exactly when one has FastDL enabled; then
/// the settings are saved and applied.
pub open spec fn config_update_record(
    node_id: u64,
    config: NodeConfigView,
    calls: Seq<HostCall>,
    r: Result<(), ApiError>,
) -> bool {
    match node_config_refusal(config) {
        Some(v) => calls.len() == 0 && fails_with(r, v),
        None => {
            &&& calls.len() >= 1
            &&& node_read(calls[0], node_id)
            &&& match node_answer(calls[0]) {
                Err(e) => calls.len() == 1 && fails_with(r, e),
                Ok(node) => if config.public_base_url.len() == 0 {
                    &&& calls.len() >= 2
                    &&& calls[1] matches HostCall::FindServers { ids, node_ids, answer }
                    &&& ids.len() == 0 && node_ids == seq![node_id]
                    &&& match answer {
                        Err(_) => calls.len() == 2 && fails_with(r, node_unavailable_view()),
                        Ok(servers) => {
                            let scan = scan_effect(servers@, calls.skip(2));
                            &&& scan_calls(servers@, calls.skip(2))
                            &&& match scan.1 {
                                Err(e) => calls.len() == 2 + scan.0 && fails_with(r, e),
                                Ok(()) => settings_applied(node_id, node, config, calls.skip(2 + scan.0 as int), r),
                            }
                        },
                    }
                } else {
                    settings_applied(node_id, node, config, calls.skip(1), r)
                },
            }
        },
    }
}

/// Saves and applies node settings: an installed node's servers are republished and
/// its service restarted. The public address cannot be cleared while a server on the
/// node has FastDL enabled. Refused settings fail with their reason before the host
/// is asked anything.
pub fn update_config<H: HostApi>(host: &mut Host<H>, node_id: u64, config: NodeConfig) -> (r: Result<
    (),
    ApiError,
>)
    ensures
        !crate::domain::node::node_config_ok(config@) ==> r is Err,
        node_config_refusal(config@) matches Some(v) ==> fails_with(r, v) && final(host)@ == old(host)@,
        r matches Err(e) ==> config_update_failure(e@),
        extends(old(host)@, final(host)@),
        config_update_record(node_id, config@, made(old(host)@, final(host)@), r),
{
    match config.validate() {
        Ok(()) => {},
        Err(e) => {
            assert(host@ == old(host)@);
            return Err(e);
        },
    }
    let node = match get_node(host, node_id) {
        Ok(node) => node,
        Err(e) => return Err(e),
    };
    let ghost after_node = host@;
    let ghost mut k: int = 1;
    let ghost mut listed = host@;
    let ghost mut scanned_to = host@;
    if config.public_base_url.as_str().unicode_len() == 0 {
        let no_ids: Vec<u64> = Vec::new();
        let node_ids: Vec<u64> = vec![node_id];
        assert(node_ids@ == seq![node_id]);
        let servers = match host.find_servers(no_ids.as_slice(), node_ids.as_slice()) {
            Ok(servers) => servers,
            Err(e) => return Err(ApiError::from_host(e)),
        };
        proof {
            listed = host@;
        }
        let scanned = scan_enabled(host, &servers, 0);
        proof {
            assert(servers@.skip(0) =~= servers@);
            let calls = made(old(host)@, host@);
            assert(calls.skip(2) =~= made(listed, host@));
        }
        match scanned {
            Ok(()) => {},
            Err(e) => return Err(e),
        }
        proof {
            k = 2 + made(listed, host@).len() as int;
            scanned_to = host@;
        }
    }
    let ghost before_save = host@;
    let r = save_and_apply(host, node_id, &node, &config);
    proof {
        let calls = made(old(host)@, host@);
        assert(calls.skip(k) =~= made(before_save, host@));
        if config.public_base_url@.len() == 0 {
            let servers = match calls[1] {
                HostCall::FindServers { answer: Ok(servers), .. } => servers,
                _ => arbitrary(),
            };
            assert(made(listed, scanned_to) =~= calls.skip(2).subrange(0, made(listed, scanned_to).len() as int));
            lemma_scan_prefix(servers@, made(listed, scanned_to), calls.skip(2));
        }
    }
    r
}

/// Saves the accepted settings, uploads the daemon configuration and, on an
/// installed node, republishes it and restarts its service.
fn save_and_apply<H: HostApi>(host: &mut Host<H>, node_id: u64, node: &NodeInfo, config: &NodeConfig) -> (r:
    Result<(), ApiError>)
    ensures
        extends(old(host)@, final(host)@),
        settings_applied(node_id, *node, config@, made(old(host)@, final(host)@), r),
        r matches Err(e) ==> sync::node_sync_failure(e@),
{
    match store::save_config(host, node_id, config) {
        Ok(()) => {},
        Err(e) => return Err(e),
    }
    match sync::write_node_config(host, node_id, config) {
        Ok(()) => {},
        Err(e) => return Err(e),
    }
    let status = match store::get_status(host, node_id) {
        Ok(status) => status,
        Err(e) => return Err(e),
    };
    let ghost before_apply = host@;
    if status.status == SetupStatus::Installed {
        let applied = sync::apply_node(host, node_id);
        let ghost before_restart = host@;
        let ghost n: int = 3 + made(before_apply, before_restart).len() as int;
        proof {
            crate::host_api::lemma_made_compose(old(host)@, before_apply, before_restart);
            assert(made(old(host)@, before_restart).subrange(3, n) =~= made(before_apply, before_restart));
        }
        match applied {
            Ok(()) => {},
            Err(e) => return Err(e),
        }
        let restarted = restart(host, node);
        proof {
            crate::host_api::lemma_made_compose(old(host)@, before_restart, host@);
            crate::host_api::lemma_made_compose(before_apply, before_restart, host@);
            assert(made(old(host)@, host@).subrange(3, n) =~= made(before_apply, before_restart));
            assert(made(old(host)@, host@).skip(n) =~= made(before_restart, host@));
            assert(made(old(host)@, host@)[0] == made(old(host)@, before_apply)[0]);
            assert(made(old(host)@, host@)[1] == made(old(host)@, before_apply)[1]);
            assert(made(old(host)@, host@)[2] == made(old(host)@, before_apply)[2]);
        }
        return restarted;
    }
    Ok(())
}

/// Installer arguments for a node: the script, the optional verified custom download,
/// and the private installation directory and configuration file.
pub open spec fn spec_installation_args(
    windows: bool,
    script_path: Seq<char>,
    download_url: Seq<char>,
    sha256: Seq<char>,
    install_dir: Seq<char>,
    config_path: Seq<char>,
) -> Seq<Seq<char>> {
    if windows {
        seq![
            "powershell"@,
            "-NoProfile"@,
            "-NonInteractive"@,
            "-ExecutionPolicy"@,
            "Bypass"@,
            "-File"@,
            script_path,
        ] + (if download_url.len() > 0 {
            seq!["-DownloadUrl"@, download_url, "-Sha256"@, sha256]
        } else {
            Seq::empty()
        }) + seq!["-InstallDir"@, install_dir, "-ConfigPath"@, config_path]
    } else {
        seq!["/bin/bash"@, script_path] + (if download_url.len() > 0 {
            seq!["--download-url="@ + download_url, "--sha256="@ + sha256]
        } else {
            Seq::empty()
        }) + seq!["--install-dir="@ + install_dir, "--config="@ + config_path]
    }
}

/// The daemon task command that installs FastDL on a node.
pub open spec fn spec_installation_command(
    node_os: Seq<char>,
    work_path: Seq<char>,
    download_url: Seq<char>,
    sha256: Seq<char>,
    script_path: Seq<char>,
) -> Seq<char> {
    let windows = spec_parse_os(node_os) == NodeOs::Windows;
    let args = spec_installation_args(
        windows,
        script_path,
        download_url,
        sha256,
        spec_absolute(node_os, work_path, PLUGIN_DIR@),
        spec_absolute(node_os, work_path, CONFIG_PATH@),
    );
    if windows {
        spec_shell_join_windows(args)
    } else {
        spec_shell_join(args)
    }
}

fn prefixed(prefix: &str, value: &str) -> (r: String)
    ensures
        r@ == prefix@ + value@,
{
    let mut s = prefix.to_owned();
    s.append(value);
    s
}

pub fn installation_command(node: &NodeInfo, input: &SetupInput, script_path: &str) -> (r: Result<
    String,
    ApiError,
>)
    ensures
        work_path_ok(node.os@, node.work_path@) ==> ok_string(
            r,
            spec_installation_command(
                node.os@,
                node.work_path@,
                input.download_url@,
                input.sha256@,
                script_path@,
            ),
        ),
        !work_path_ok(node.os@, node.work_path@) ==> fails_with(
            r,
            bad_request_view("Node work directory is invalid"@),
        ),
{
    let config_path = match absolute(node, CONFIG_PATH) {
        Ok(path) => path,
        Err(e) => return Err(e),
    };
    let install_dir = match absolute(node, PLUGIN_DIR) {
        Ok(path) => path,
        Err(e) => return Err(e),
    };
    let custom = input.download_url.as_str().unicode_len() > 0;
    if node.os_kind() == NodeOs::Windows {
        let mut args: Vec<&str> = vec![
            "powershell",
            "-NoProfile",
            "-NonInteractive",
            "-ExecutionPolicy",
            "Bypass",
            "-File",
            script_path,
        ];
        if custom {
            args.push("-DownloadUrl");
            args.push(input.download_url.as_str());
            args.push("-Sha256");
            args.push(input.sha256.as_str());
        }
        args.push("-InstallDir");
        args.push(install_dir.as_str());
        args.push("-ConfigPath");
        args.push(config_path.as_str());
        assert(views(args@) =~= spec_installation_args(
            true,
            script_path@,
            input.download_url@,
            input.sha256@,
            install_dir@,
            config_path@,
        ));
        return Ok(shell_join_windows(args.as_slice()));
    }
    // The daemon splits the command itself and never runs a shell, so the
    // interpreter is named rather than relying on the shebang: a work path
    // mounted noexec would otherwise defeat the uploaded script's mode.
    let download_url = prefixed("--download-url=", input.download_url.as_str());
    let sha256 = prefixed("--sha256=", input.sha256.as_str());
    let install_dir = prefixed("--install-dir=", install_dir.as_str());
    let config_path = prefixed("--config=", config_path.as_str());
    let mut args: Vec<&str> = vec!["/bin/bash", script_path];
    if custom {
        args.push(download_url.as_str());
        args.push(sha256.as_str());
    }
    args.push(install_dir.as_str());
    args.push(config_path.as_str());
    assert(views(args@) =~= spec_installation_args(
        false,
        script_path@,
        input.download_url@,
        input.sha256@,
        spec_absolute(node.os@, node.work_path@, PLUGIN_DIR@),
        spec_absolute(node.os@, node.work_path@, CONFIG_PATH@),
    ));
    Ok(shell_join(args.as_slice()))
}

/// The errors refused installation options are answered with.
pub open spec fn setup_refusal(e: ApiErrorView) -> bool {
    ||| e == bad_request_view("Custom downloads require both an HTTPS URL and SHA256"@)
    ||| e == bad_request_view("A valid HTTP URL is required (HTTPS for downloads)"@)
    ||| e == bad_request_view("Invalid public or download URL"@)
    ||| e == bad_request_view("SHA256 must contain exactly 64 hexadecimal characters"@)
}

pub open spec fn installation_running_view() -> ApiErrorView {
    conflict_view("Installation is already in progress"@)
}

/// Errors starting an installation can answer.
pub open spec fn setup_failure(e: ApiErrorView) -> bool {
    ||| setup_refusal(e)
    ||| settings_refusal(e)
    ||| status_failure(e)
    ||| e == unsupported_node_view()
    ||| e == installation_running_view()
}

pub open spec fn installer_name(os: NodeOs) -> Seq<char> {
    match os {
        NodeOs::Windows => "install-windows.ps1"@,
        _ => "install-linux.sh"@,
    }
}

/// Where a node's installer is uploaded, relative to its work directory.
pub open spec fn installer_path(os: NodeOs) -> Seq<char> {
    PLUGIN_DIR@ + "/"@ + installer_name(os)
}

pub open spec fn installer_bytes(scripts: &InstallerScripts, os: NodeOs) -> Seq<u8> {
    match os {
        NodeOs::Windows => scripts.windows@,
        _ => scripts.linux@,
    }
}

/// The status of an installation that was just started.
pub open spec fn started(task_id: u64, at: i64) -> NodeSetupStatusView {
    NodeSetupStatusView {
        status: SetupStatus::Installing,
        version: Seq::empty(),
        task_id,
        download_task_id: 0,
        error_message: Seq::empty(),
        started_at: at,
    }
}

/// Launching an installation: the installer uploaded to `path` with mode 0700;
/// once that succeeded, one daemon task created for `command`; once that
/// succeeded, the clock read and the new status saved. It succeeds exactly when
/// every call did, and then answers the saved status.
pub open spec fn launch_record(
    node_id: u64,
    path: Seq<char>,
    content: Seq<u8>,
    command: Seq<char>,
    calls: Seq<HostCall>,
    r: Result<NodeSetupStatus, ApiError>,
) -> bool {
    &&& calls.len() >= 1
    &&& calls[0] matches HostCall::Upload { node_id: a, path: p, content: c, permissions, .. }
    &&& a == node_id && p == path && c == content && permissions == 0o700u32
    &&& match store::write_result(calls[0]) {
        Err(e) => calls.len() == 1 && fails_with(r, e),
        Ok(()) => {
            &&& calls.len() >= 2
            &&& calls[1] matches HostCall::CreateDaemonTask { node_id: b, command: cmd, run_after_id, answer }
            &&& b == node_id && cmd == command && run_after_id is None
            &&& match answer {
                Err(_) => calls.len() == 2 && fails_with(r, node_unavailable_view()),
                Ok(task_id) => {
                    let status = started(task_id, clock(calls[2]));
                    &&& calls.len() == 4
                    &&& calls[2] is NowUnix
                    &&& store::status_write(calls[3], node_id, status)
                    &&& match store::write_result(calls[3]) {
                        Err(e) => fails_with(r, e),
                        Ok(()) => r matches Ok(saved) && saved@ == status,
                    }
                },
            }
        },
    }
}

/// The daemon configuration for `config` uploaded to a node.
pub open spec fn daemon_upload(call: HostCall, node_id: u64, config: NodeConfigView) -> bool {
    call matches HostCall::UploadDaemonConfig { node_id: n, path, config: uploaded, .. } && n == node_id
        && path == CONFIG_PATH@ && uploaded == sync::spec_daemon_config(config)
}

/// What an installation does once the node may be installed: the node's stored
/// settings are read and validated and uploaded as the daemon configuration, then
/// the installation is launched. Each step runs only after the previous one
/// succeeded.
pub open spec fn prepare_record(
    node_id: u64,
    path: Seq<char>,
    content: Seq<u8>,
    command: Seq<char>,
    calls: Seq<HostCall>,
    r: Result<NodeSetupStatus, ApiError>,
) -> bool {
    &&& calls.len() >= 1
    &&& store::config_key(calls[0], node_id)
    &&& match store::config_answer(calls[0]) {
        Err(e) => calls.len() == 1 && fails_with(r, e),
        Ok(config) => match node_config_refusal(config) {
            Some(v) => calls.len() == 1 && fails_with(r, v),
            None => {
                &&& calls.len() >= 2
                &&& daemon_upload(calls[1], node_id, config)
                &&& match store::write_result(calls[1]) {
                    Err(e) => calls.len() == 2 && fails_with(r, e),
                    Ok(()) => launch_record(node_id, path, content, command, calls.skip(2), r),
                }
            },
        },
    }
}

/// Uploads the installer, creates the installation task, and saves the new status.
fn launch<H: HostApi>(host: &mut Host<H>, node_id: u64, path: &str, script: &[u8], command: &str) -> (r:
    Result<NodeSetupStatus, ApiError>)
    ensures
        extends(old(host)@, final(host)@),
        launch_record(node_id, path@, script@, command@, made(old(host)@, final(host)@), r),
        r matches Ok(status) ==> status.status == SetupStatus::Installing && status@.download_task_id
            == 0 && status@.version.len() == 0 && status@.error_message.len() == 0,
        r matches Err(e) ==> e@ == node_unavailable_view(),
{
    // Ship the script with the plugin so its options cannot lag behind the
    // caller or depend on a previously downloaded tool on the node.
    match host.upload(node_id, path, script, 0o700) {
        Ok(()) => {},
        Err(e) => return Err(ApiError::from_host(e)),
    }
    let task_id = match host.create_daemon_task(node_id, command, None) {
        Ok(task_id) => task_id,
        Err(e) => return Err(ApiError::from_host(e)),
    };
    let started_at = host.now_unix();
    let status = NodeSetupStatus {
        status: SetupStatus::Installing,
        version: String::new(),
        task_id,
        download_task_id: 0,
        error_message: String::new(),
        started_at,
    };
    assert(status@ == started(task_id, started_at));
    match store::save_status(host, node_id, &status) {
        Ok(()) => {},
        Err(e) => return Err(e),
    }
    Ok(status)
}

/// Reads, checks and uploads the node's settings, then launches the installation.
fn prepare_and_launch<H: HostApi>(host: &mut Host<H>, node_id: u64, path: &str, script: &[u8], command: &str) -> (r:
    Result<NodeSetupStatus, ApiError>)
    ensures
        extends(old(host)@, final(host)@),
        prepare_record(node_id, path@, script@, command@, made(old(host)@, final(host)@), r),
        r matches Ok(status) ==> status.status == SetupStatus::Installing && status@.download_task_id
            == 0 && status@.version.len() == 0 && status@.error_message.len() == 0,
        r matches Err(e) ==> store::load_failure(e@) || settings_refusal(e@),
{
    let config = match get_config(host, node_id) {
        Ok(config) => config,
        Err(e) => return Err(e),
    };
    match config.validate() {
        Ok(()) => {},
        Err(e) => return Err(e),
    }
    let ghost before_upload = host@;
    match sync::write_node_config(host, node_id, &config) {
        Ok(()) => {},
        Err(e) => return Err(e),
    }
    let ghost before_launch = host@;
    let r = launch(host, node_id, path, script, command);
    proof {
        assert(made(old(host)@, host@).skip(2) =~= made(before_launch, host@));
    }
    r
}

/// What starting an installation does before it uploads anything: refused options
/// make no call; then the node is looked up, an unsupported OS or unusable work
/// directory is refused, and the status is polled. A failed poll, or an
/// installation already pending, ends it there with no further call.
pub open spec fn setup_record(
    node_id: u64,
    input: SetupInput,
    scripts: &InstallerScripts,
    calls: Seq<HostCall>,
    r: Result<NodeSetupStatus, ApiError>,
) -> bool {
    match setup_input_refusal(input.download_url@, input.sha256@) {
        Some(v) => calls.len() == 0 && fails_with(r, v),
        None => {
            &&& calls.len() >= 1
            &&& node_read(calls[0], node_id)
            &&& match node_answer(calls[0]) {
                Err(e) => calls.len() == 1 && fails_with(r, e),
                Ok(node) => if spec_parse_os(node.os@) == NodeOs::Unsupported {
                    calls.len() == 1 && fails_with(r, unsupported_node_view())
                } else if !work_path_ok(node.os@, node.work_path@) {
                    calls.len() == 1 && fails_with(r, bad_request_view("Node work directory is invalid"@))
                } else {
                    exists|k: int|
                        #![trigger calls.subrange(1, k)]
                        1 < k <= calls.len() && poll_calls(node_id, calls.subrange(1, k)) && match poll_effect(
                            node_id,
                            calls.subrange(1, k),
                        ).1 {
                            Err(e) => calls.len() == k && fails_with(r, e),
                            Ok(current) => if current.status == SetupStatus::Installing {
                                calls.len() == k && fails_with(r, installation_running_view())
                            } else {
                                let os = spec_parse_os(node.os@);
                                prepare_record(
                                    node_id,
                                    installer_path(os),
                                    installer_bytes(scripts, os),
                                    spec_installation_command(
                                        node.os@,
                                        node.work_path@,
                                        input.download_url@,
                                        input.sha256@,
                                        spec_absolute(node.os@, node.work_path@, installer_path(os)),
                                    ),
                                    calls.skip(k),
                                    r,
                                )
                            },
                        }
                },
            }
        },
    }
}

/// Starts an installation: uploads the bundled installer for the node's OS into the
/// private directory and creates one daemon task that runs it.
pub fn setup_node<H: HostApi>(
    host: &mut Host<H>,
    node_id: u64,
    input: SetupInput,
    scripts: &InstallerScripts,
) -> (r: Result<NodeSetupStatus, ApiError>)
    ensures
        crate::domain::node::setup_input_ok(input.download_url@, input.sha256@) == false ==> r is Err,
        setup_input_refusal(input.download_url@, input.sha256@) matches Some(v) ==> fails_with(r, v),
        r matches Err(e) ==> setup_failure(e@),
        r matches Ok(status) ==> status.status == SetupStatus::Installing && status@.download_task_id
            == 0 && status@.version.len() == 0 && status@.error_message.len() == 0,
        extends(old(host)@, final(host)@),
        setup_record(node_id, input, scripts, made(old(host)@, final(host)@), r),
{
    let ghost start = host@;
    match input.validate() {
        Ok(()) => {},
        Err(e) => {
            assert(start.subrange(0, start.len() as int) =~= start);
            assert(made(start, host@) =~= Seq::<HostCall>::empty());
            return Err(e);
        },
    }
    let node = match get_node(host, node_id) {
        Ok(node) => node,
        Err(e) => return Err(e),
    };
    let ghost after_node = host@;
    let (script_name, script): (&str, &[u8]) = match node.os_kind() {
        NodeOs::Linux => ("install-linux.sh", scripts.linux),
        NodeOs::Windows => ("install-windows.ps1", scripts.windows),
        NodeOs::Unsupported => {
            return Err(ApiError::bad_request("Only Linux and Windows nodes are supported"));
        },
    };
    let mut script_path = PLUGIN_DIR.to_owned();
    script_path.append("/");
    script_path.append(script_name);
    assert(script_path@ == installer_path(spec_parse_os(node.os@)));
    assert(script@ == installer_bytes(scripts, spec_parse_os(node.os@)));
    let absolute_script = match absolute(&node, script_path.as_str()) {
        Ok(path) => path,
        Err(e) => return Err(e),
    };
    let command = match installation_command(&node, &input, absolute_script.as_str()) {
        Ok(command) => command,
        Err(e) => return Err(e),
    };
    let polled_status = get_status(host, node_id);
    let ghost after_poll = host@;
    let ghost k: int = 1 + made(after_node, after_poll).len() as int;
    proof {
        crate::host_api::lemma_made_compose(start, after_node, after_poll);
        assert(made(start, after_poll).subrange(1, k) =~= made(after_node, after_poll));
    }
    match polled_status {
        Ok(status) => {
            if status.status == SetupStatus::Installing {
                return Err(ApiError::conflict("Installation is already in progress"));
            }
        },
        Err(e) => return Err(e),
    }
    let r = prepare_and_launch(host, node_id, script_path.as_str(), script, command.as_str());
    proof {
        crate::host_api::lemma_made_compose(start, after_poll, host@);
        let calls = made(start, host@);
        assert(calls.subrange(1, k) =~= made(after_node, after_poll));
        assert(calls.skip(k) =~= made(after_poll, host@));
    }
    r
}

/// An installation still pending after the timeout has expired.
pub open spec fn spec_timed_out(status: SetupStatus, started_at: i64, now: i64) -> bool {
    status == SetupStatus::Installing && now as int - started_at as int > INSTALLING_TIMEOUT_SECS
}

/// Once an installation has timed out it stays timed out as time passes.
pub proof fn timeout_is_permanent(status: SetupStatus, started_at: i64, now: i64, later: i64)
    requires
        now <= later,
    ensures
        spec_timed_out(status, started_at, now) ==> spec_timed_out(status, started_at, later),
{
}

pub fn timed_out(status: &NodeSetupStatus, now: i64) -> (r: bool)
    ensures
        r == spec_timed_out(status.status, status.started_at, now),
{
    // The elapsed time is compared exactly; a saturating difference compares the same.
    status.status == SetupStatus::Installing && (now as i128) - (status.started_at as i128)
        > INSTALLING_TIMEOUT_SECS as i128
}

/// Characters a reported version may contain: printable ASCII without space.
pub open spec fn version_char(c: char) -> bool {
    '!' <= c && c <= '~'
}

pub open spec fn version_ok(v: Seq<char>) -> bool {
    0 < v.len() <= 64 && forall|i: int| 0 <= i < v.len() ==> version_char(#[trigger] v[i])
}

/// What follows the version prefix on each (trimmed) output line that starts with it.
pub open spec fn version_candidates(lines: Seq<Seq<char>>) -> Seq<Seq<char>>
    decreases lines.len(),
{
    if lines.len() == 0 {
        Seq::empty()
    } else {
        let line = trim(lines.last());
        let rest = version_candidates(lines.drop_last());
        if crate::domain::validation::has_prefix(line, VERSION_PREFIX@) {
            rest.push(line.skip(VERSION_PREFIX@.len() as int))
        } else {
            rest
        }
    }
}

/// The installed version: the output, possibly wrapped in a daemon prompt and exit
/// status, has exactly one `gameap-fastdl <version>` line with a plain version.
pub open spec fn spec_version(output: Seq<char>) -> Option<Seq<char>> {
    let candidates = version_candidates(output_lines(output));
    if candidates.len() == 1 && version_ok(candidates[0]) {
        Some(candidates[0])
    } else {
        None
    }
}

fn skip_from(v: &Vec<char>, n: usize) -> (r: Vec<char>)
    requires
        n <= v.len(),
    ensures
        r@ == v@.skip(n as int),
{
    let mut r: Vec<char> = Vec::new();
    let mut i: usize = n;
    while i < v.len()
        invariant
            n <= i <= v.len(),
            r@ == v@.subrange(n as int, i as int),
        decreases v.len() - i,
    {
        r.push(v[i]);
        i = i + 1;
        assert(v@.subrange(n as int, i as int) == v@.subrange(n as int, i - 1).push(v@[i - 1]));
    }
    r
}

pub fn version_from_output(output: &str) -> (r: Option<String>)
    ensures
        match r {
            Some(v) => spec_version(output@) == Some(v@),
            None => spec_version(output@) is None,
        },
{
    let mut pieces = split_vec(&chars_of(output), '\n');
    let ghost all = split(output@, '\n');
    proof {
        crate::text::lemma_split_nonempty(output@, '\n');
    }
    if pieces[pieces.len() - 1].len() == 0 {
        assert(pieces@.map_values(|p: Vec<char>| p@).last() == pieces@.last()@);
        pieces.pop();
        assert(pieces@.map_values(|p: Vec<char>| p@) =~= all.drop_last());
    }
    let ghost lines = pieces@.map_values(|p: Vec<char>| p@);
    assert(lines == output_lines(output@));
    let prefix_len = VERSION_PREFIX.unicode_len();
    let mut found: Vec<char> = Vec::new();
    let mut count: usize = 0;
    let mut i: usize = 0;
    while i < pieces.len()
        invariant
            i <= pieces.len(),
            lines == pieces@.map_values(|p: Vec<char>| p@),
            prefix_len == VERSION_PREFIX@.len(),
            count <= i,
            count as nat == version_candidates(lines.subrange(0, i as int)).len(),
            count > 0 ==> found@ == version_candidates(lines.subrange(0, i as int))[0],
        decreases pieces.len() - i,
    {
        assert(lines[i as int] == pieces@[i as int]@);
        assert(lines.subrange(0, i + 1).drop_last() == lines.subrange(0, i as int));
        assert(lines.subrange(0, i + 1).last() == lines[i as int]);
        let line = trim_vec(&pieces[i]);
        if crate::domain::validation::starts_with_chars(&line, VERSION_PREFIX) {
            if count == 0 {
                found = skip_from(&line, prefix_len);
            }
            count = count + 1;
        }
        i = i + 1;
    }
    assert(lines.subrange(0, i as int) == lines);
    let ghost candidates = version_candidates(lines);
    assert(count as nat == candidates.len());
    if count != 1 || found.len() == 0 || found.len() > 64 {
        assert(count == 1 ==> found@ == candidates[0]);
        assert(!(candidates.len() == 1 && version_ok(candidates[0])));
        return None;
    }
    let mut k: usize = 0;
    while k < found.len()
        invariant
            k <= found.len(),
            candidates.len() == 1,
            found@ == candidates[0],
            candidates == version_candidates(output_lines(output@)),
            forall|j: int| 0 <= j < k ==> version_char(#[trigger] found@[j]),
        decreases found.len() - k,
    {
        if !('!' <= found[k] && found[k] <= '~') {
            return None;
        }
        k = k + 1;
    }
    Some(string_of(&found))
}

pub open spec fn verification_prefix() -> Seq<char> {
    "Installed binary could not be verified: "@
}

pub open spec fn verification_suffix() -> Seq<char> {
    ". Check the GameAP plugin logs."@
}

/// The public reason for a failed version probe; it never quotes the node's output.
pub open spec fn spec_verification_error(exit_code: i32, error: bool) -> Seq<char> {
    verification_prefix() + (if error {
        "the node could not execute the version command"@
    } else if exit_code != 0 {
        "the version command exited with code "@ + signed_decimal(exit_code as int)
    } else {
        "the version command did not report a FastDL version"@
    }) + verification_suffix()
}

pub fn verification_error(output: &CommandOutput) -> (r: String)
    ensures
        r@ == spec_verification_error(output.exit_code, output.error is Some),
{
    let mut message = "Installed binary could not be verified: ".to_owned();
    if output.error.is_some() {
        message.append("the node could not execute the version command");
    } else if output.exit_code != 0 {
        message.append("the version command exited with code ");
        message.append(signed_decimal_string(output.exit_code as i64).as_str());
    } else {
        message.append("the version command did not report a FastDL version");
    }
    message.append(". Check the GameAP plugin logs.");
    assert(message@ =~= spec_verification_error(output.exit_code, output.error is Some));
    message
}

pub open spec fn verification_log_prefix(node_id: u64, task_id: u64, command: Seq<char>) -> Seq<char> {
    "[fastdl] Installation verification failed: node_id="@ + decimal(node_id as nat)
        + " task_id="@ + decimal(task_id as nat) + " command="@ + quoted_value(command)
}

/// The log line of a failed version probe: bounded, escaped details on one line.
pub open spec fn spec_verification_log(
    node_id: u64,
    task_id: u64,
    command: Seq<char>,
    exit_code: i32,
    error: Option<Seq<char>>,
    output: Seq<char>,
) -> Seq<char> {
    verification_log_prefix(node_id, task_id, command) + " exit_code="@ + signed_decimal(
        exit_code as int,
    ) + " error="@ + super::game_config::error_field(error, Seq::empty()) + " output="@
        + quoted_value(spec_diagnostic_detail(output, Seq::empty()))
}

/// The log line of a version probe the host could not run.
pub open spec fn spec_verification_host_log(
    node_id: u64,
    task_id: u64,
    command: Seq<char>,
    host_message: Seq<char>,
) -> Seq<char> {
    verification_log_prefix(node_id, task_id, command) + " host_error="@ + quoted_value(
        spec_diagnostic_detail(host_message, Seq::empty()),
    )
}

fn push_verification_prefix(line: &mut String, node_id: u64, task_id: u64, command: &str)
    ensures
        final(line)@ == old(line)@ + verification_log_prefix(node_id, task_id, command@),
{
    let ghost before = line@;
    line.append("[fastdl] Installation verification failed: node_id=");
    line.append(decimal_string(node_id).as_str());
    line.append(" task_id=");
    line.append(decimal_string(task_id).as_str());
    line.append(" command=");
    push_quoted(line, &chars_of(command));
    assert(line@ =~= before + verification_log_prefix(node_id, task_id, command@));
}

pub fn verification_log(node_id: u64, task_id: u64, command: &str, output: &CommandOutput) -> (r:
    String)
    ensures
        r@ == spec_verification_log(
            node_id,
            task_id,
            command@,
            output.exit_code,
            opt_string_view(output.error),
            output.output@,
        ),
{
    let mut line = String::new();
    push_verification_prefix(&mut line, node_id, task_id, command);
    line.append(" exit_code=");
    line.append(signed_decimal_string(output.exit_code as i64).as_str());
    line.append(" error=");
    match &output.error {
        Some(error) => {
            line.append("Some(");
            push_quoted(&mut line, &diagnostic_detail(error.as_str(), ""));
            line.append(")");
        },
        None => {
            line.append("None");
        },
    }
    line.append(" output=");
    push_quoted(&mut line, &diagnostic_detail(output.output.as_str(), ""));
    proof {
        reveal_strlit("");
    }
    assert(line@ =~= spec_verification_log(
        node_id,
        task_id,
        command@,
        output.exit_code,
        opt_string_view(output.error),
        output.output@,
    ));
    line
}

pub fn verification_host_log(node_id: u64, task_id: u64, command: &str, host_message: &str) -> (r:
    String)
    ensures
        r@ == spec_verification_host_log(node_id, task_id, command@, host_message@),
{
    let mut line = String::new();
    push_verification_prefix(&mut line, node_id, task_id, command);
    line.append(" host_error=");
    push_quoted(&mut line, &diagnostic_detail(host_message, ""));
    proof {
        reveal_strlit("");
    }
    assert(line@ =~= spec_verification_host_log(node_id, task_id, command@, host_message@));
    line
}

/// The status after a completed version probe: installed with the reported version,
/// or failed with a public reason.
pub open spec fn spec_probe_result(
    status: NodeSetupStatusView,
    exit_code: i32,
    error: bool,
    output: Seq<char>,
) -> NodeSetupStatusView {
    if exit_code != 0 || error || spec_version(output) is None {
        NodeSetupStatusView {
            status: SetupStatus::Failed,
            version: Seq::empty(),
            error_message: spec_verification_error(exit_code, error),
            ..status
        }
    } else {
        NodeSetupStatusView {
            status: SetupStatus::Installed,
            version: spec_version(output)->0,
            error_message: Seq::empty(),
            ..status
        }
    }
}

/// A probe marks an installation installed only when the version command
/// succeeded and reported a well-formed version, and then records that version.
pub proof fn installed_only_when_verified(
    status: NodeSetupStatusView,
    exit_code: i32,
    error: bool,
    output: Seq<char>,
)
    ensures
        spec_probe_result(status, exit_code, error, output).status == SetupStatus::Installed
            <==> (exit_code == 0 && !error && spec_version(output) is Some),
        spec_version(output) matches Some(v) ==> version_ok(v),
        spec_probe_result(status, exit_code, error, output).status == SetupStatus::Installed
            ==> Some(spec_probe_result(status, exit_code, error, output).version) == spec_version(
            output,
        ),
{
}

pub fn apply_probe(status: &mut NodeSetupStatus, output: &CommandOutput) -> (failed: bool)
    ensures
        final(status)@ == spec_probe_result(
            old(status)@,
            output.exit_code,
            output.error is Some,
            output.output@,
        ),
        failed == (final(status).status == SetupStatus::Failed),
{
    let version = version_from_output(output.output.as_str());
    if output.exit_code != 0 || output.error.is_some() || version.is_none() {
        status.status = SetupStatus::Failed;
        status.version = String::new();
        status.error_message = verification_error(output);
        return true;
    }
    status.status = SetupStatus::Installed;
    status.version = version.unwrap();
    status.error_message = String::new();
    false
}

/// The errors a status refresh can answer: storage or host failures, a missing
/// node, an unusable node work directory, or a task of another node.
pub open spec fn status_failure(e: ApiErrorView) -> bool {
    ||| store::load_failure(e)
    ||| e == not_found_view("Node not found"@)
    ||| e == bad_request_view("Node work directory is invalid"@)
    ||| e == wrong_node_view()
}

/// The command that prints the installed binary's version.
pub open spec fn version_command(node: NodeInfo) -> Seq<char> {
    let args = seq![
        spec_absolute(node.os@, node.work_path@, spec_binary_relative(node.os@)),
        "version"@,
    ];
    if spec_parse_os(node.os@) == NodeOs::Windows {
        spec_shell_join_windows(args)
    } else {
        spec_shell_join(args)
    }
}

/// The answer a command run got, if the call is one.
pub open spec fn command_answer(call: HostCall) -> Option<HostResult<CommandOutput>> {
    match call {
        HostCall::ExecuteCommand { answer, .. } => Some(answer),
        _ => None,
    }
}

/// What a version probe does, read from the calls it made: how many calls it made,
/// the status it leaves and its result. It looks the node up, refuses an unusable
/// work directory, runs the version command once, and records the probe's result;
/// a command that cannot be run leaves the status as it was.
pub open spec fn probe_effect(node_id: u64, before: NodeSetupStatusView, calls: Seq<HostCall>) -> (
    int,
    NodeSetupStatusView,
    Result<(), ApiErrorView>,
) {
    match node_answer(calls[0]) {
        Err(e) => (1, before, Err(e)),
        Ok(node) => if !work_path_ok(node.os@, node.work_path@) {
            (1, before, Err(bad_request_view("Node work directory is invalid"@)))
        } else {
            match command_answer(calls[1]) {
                Some(Ok(output)) => {
                    let after = spec_probe_result(
                        before,
                        output.exit_code,
                        output.error is Some,
                        output.output@,
                    );
                    (if after.status == SetupStatus::Failed { 3 } else { 2 }, after, Ok(()))
                },
                _ => (3, before, Err(node_unavailable_view())),
            }
        },
    }
}

/// The calls a version probe makes: the node lookup, the version command on that
/// node, and one log line when the command cannot be run or the probe fails.
pub open spec fn probe_calls(node_id: u64, before: NodeSetupStatusView, calls: Seq<HostCall>) -> bool {
    &&& calls.len() == probe_effect(node_id, before, calls).0
    &&& node_read(calls[0], node_id)
    &&& match node_answer(calls[0]) {
        Err(_) => true,
        Ok(node) => work_path_ok(node.os@, node.work_path@) ==> {
        &&& calls[1] matches HostCall::ExecuteCommand { node_id: n, command, answer }
        &&& n == node_id
        &&& command == version_command(node)
        &&& match answer {
            Err(h) => calls[2] == HostCall::LogError {
                message: spec_verification_host_log(node_id, before.task_id, command, host_error_message(h)),
            },
            Ok(output) => probe_effect(node_id, before, calls).1.status == SetupStatus::Failed
                ==> calls[2] == HostCall::LogError {
                message: spec_verification_log(
                    node_id,
                    before.task_id,
                    command,
                    output.exit_code,
                    opt_string_view(output.error),
                    output.output@,
                ),
            },
        }
    },
    }
}

/// Runs the version probe of the installed binary and records its result.
fn verify_installation<H: HostApi>(host: &mut Host<H>, node_id: u64, status: &mut NodeSetupStatus) -> (r:
    Result<(), ApiError>)
    ensures
        r is Ok ==> final(status).status == SetupStatus::Installed || final(status).status
            == SetupStatus::Failed,
        r is Ok ==> exists|exit_code: i32, error: bool, output: Seq<char>|
            final(status)@ == #[trigger] spec_probe_result(old(status)@, exit_code, error, output),
        r is Err ==> final(status)@ == old(status)@,
        r matches Err(e) ==> status_failure(e@),
        extends(old(host)@, final(host)@),
        probe_calls(node_id, old(status)@, made(old(host)@, final(host)@)),
        final(status)@ == probe_effect(node_id, old(status)@, made(old(host)@, final(host)@)).1,
        store::result_view(r) == probe_effect(node_id, old(status)@, made(old(host)@, final(host)@)).2,
{
    let ghost start = host@;
    let node = match get_node(host, node_id) {
        Ok(node) => node,
        Err(e) => return Err(e),
    };
    let ghost after_node = host@;
    let binary_path = match binary(&node) {
        Ok(path) => path,
        Err(e) => return Err(e),
    };
    let args: Vec<&str> = vec![binary_path.as_str(), "version"];
    assert(views(args@) =~= seq![
        spec_absolute(node.os@, node.work_path@, spec_binary_relative(node.os@)),
        "version"@,
    ]);
    let command = if node.os_kind() == NodeOs::Windows {
        shell_join_windows(args.as_slice())
    } else {
        shell_join(args.as_slice())
    };
    let answer = host.execute_command(node_id, command.as_str());
    let ghost after_run = host@;
    proof {
        crate::host_api::lemma_made_compose(start, after_node, after_run);
    }
    let output = match answer {
        Ok(output) => output,
        Err(error) => {
            let line = verification_host_log(
                node_id,
                status.task_id,
                command.as_str(),
                error.message(),
            );
            host.log_error(line.as_str());
            proof {
                crate::host_api::lemma_made_compose(start, after_run, host@);
            }
            return Err(ApiError::from_host(error));
        },
    };
    let task_id = status.task_id;
    if apply_probe(status, &output) {
        let line = verification_log(node_id, task_id, command.as_str(), &output);
        host.log_error(line.as_str());
        proof {
            crate::host_api::lemma_made_compose(start, after_run, host@);
        }
    }
    Ok(())
}

pub open spec fn wrong_node_view() -> ApiErrorView {
    crate::http::internal_view("Unexpected installation task node"@)
}

/// How a legacy installer download task affects the installation.
#[derive(Debug, Clone, Copy, PartialEq, Eq, Structural)]
pub enum DownloadStep {
    /// The download finished; the installation task decides.
    Proceed,
    /// Not finished (or not found): keep waiting.
    Wait,
    /// The download failed: the installation failed.
    Failed,
    /// The task belongs to another node.
    WrongNode,
}

pub open spec fn spec_download_step(node_id: u64, task: Option<DaemonTaskInfo>) -> DownloadStep {
    match task {
        None => DownloadStep::Wait,
        Some(t) => if t.node_id != node_id {
            DownloadStep::WrongNode
        } else if t.status == TaskStatus::Error || t.status == TaskStatus::Canceled {
            DownloadStep::Failed
        } else if t.status == TaskStatus::Success {
            DownloadStep::Proceed
        } else {
            DownloadStep::Wait
        },
    }
}

pub fn download_step(node_id: u64, task: &Option<DaemonTaskInfo>) -> (r: DownloadStep)
    ensures
        r == spec_download_step(node_id, *task),
{
    match task {
        None => DownloadStep::Wait,
        Some(t) => if t.node_id != node_id {
            DownloadStep::WrongNode
        } else if t.status == TaskStatus::Error || t.status == TaskStatus::Canceled {
            DownloadStep::Failed
        } else if t.status == TaskStatus::Success {
            DownloadStep::Proceed
        } else {
            DownloadStep::Wait
        },
    }
}

pub open spec fn download_failed_message() -> Seq<char> {
    "Installer download failed. Review the daemon task output."@
}

pub open spec fn installation_failed_message() -> Seq<char> {
    "Installation failed. Review the daemon task output."@
}

/// The answer a daemon task lookup got, if the call is one.
pub open spec fn task_answer(call: HostCall) -> Option<HostResult<Option<DaemonTaskInfo>>> {
    match call {
        HostCall::FindDaemonTask { answer, .. } => Some(answer),
        _ => None,
    }
}

/// A lookup of the daemon task `task_id`.
pub open spec fn task_read(call: HostCall, task_id: u64) -> bool {
    call matches HostCall::FindDaemonTask { task_id: t, .. } && t == task_id
}

/// What following the installation task does, read from its calls: a task of
/// another node is refused; a successful task is verified by the version probe; a
/// failed or canceled task fails the installation; anything else (pending, not
/// found) leaves the status as it was.
pub open spec fn task_phase_effect(node_id: u64, before: NodeSetupStatusView, calls: Seq<HostCall>) -> (
    int,
    NodeSetupStatusView,
    Result<(), ApiErrorView>,
) {
    match task_answer(calls[0]) {
        Some(Ok(Some(task))) => if task.node_id != node_id {
            (1, before, Err(wrong_node_view()))
        } else if task.status == TaskStatus::Success {
            let probe = probe_effect(node_id, before, calls.skip(1));
            (1 + probe.0, probe.1, probe.2)
        } else if task.status == TaskStatus::Error || task.status == TaskStatus::Canceled {
            (
                1,
                NodeSetupStatusView {
                    status: SetupStatus::Failed,
                    error_message: installation_failed_message(),
                    ..before
                },
                Ok(()),
            )
        } else {
            (1, before, Ok(()))
        },
        Some(Ok(None)) => (1, before, Ok(())),
        _ => (1, before, Err(node_unavailable_view())),
    }
}

pub open spec fn task_phase_calls(node_id: u64, before: NodeSetupStatusView, calls: Seq<HostCall>) -> bool {
    &&& calls.len() == task_phase_effect(node_id, before, calls).0
    &&& task_read(calls[0], before.task_id)
    &&& match task_answer(calls[0]) {
        Some(Ok(Some(task))) => task.node_id == node_id && task.status == TaskStatus::Success
            ==> probe_calls(node_id, before, calls.skip(1)),
        _ => true,
    }
}

/// What one refresh of a pending installation does, read from its calls. An
/// installation started by the legacy release first follows its download task: a
/// failed download fails the installation (pointing at the download task), an
/// unfinished one waits, a task of another node is refused, and a finished one
/// goes on to the installation task.
pub open spec fn refresh_effect(node_id: u64, before: NodeSetupStatusView, calls: Seq<HostCall>) -> (
    int,
    NodeSetupStatusView,
    Result<(), ApiErrorView>,
) {
    if before.download_task_id != 0 {
        match task_answer(calls[0]) {
            Some(Ok(download)) => match spec_download_step(node_id, download) {
                DownloadStep::WrongNode => (1, before, Err(wrong_node_view())),
                DownloadStep::Failed => (
                    1,
                    NodeSetupStatusView {
                        status: SetupStatus::Failed,
                        task_id: before.download_task_id,
                        error_message: download_failed_message(),
                        ..before
                    },
                    Ok(()),
                ),
                DownloadStep::Wait => (1, before, Ok(())),
                DownloadStep::Proceed => {
                    let phase = task_phase_effect(node_id, before, calls.skip(1));
                    (1 + phase.0, phase.1, phase.2)
                },
            },
            _ => (1, before, Err(node_unavailable_view())),
        }
    } else {
        task_phase_effect(node_id, before, calls)
    }
}

pub open spec fn refresh_calls(node_id: u64, before: NodeSetupStatusView, calls: Seq<HostCall>) -> bool {
    if before.download_task_id != 0 {
        &&& calls.len() == refresh_effect(node_id, before, calls).0
        &&& task_read(calls[0], before.download_task_id)
        &&& match task_answer(calls[0]) {
            Some(Ok(download)) => spec_download_step(node_id, download) == DownloadStep::Proceed
                ==> task_phase_calls(node_id, before, calls.skip(1)),
            _ => true,
        }
    } else {
        task_phase_calls(node_id, before, calls)
    }
}

/// Follows the installation task itself.
fn follow_installation_task<H: HostApi>(host: &mut Host<H>, node_id: u64, status: &mut NodeSetupStatus) -> (r:
    Result<(), ApiError>)
    ensures
        r is Err ==> final(status)@ == old(status)@,
        r matches Err(e) ==> status_failure(e@),
        extends(old(host)@, final(host)@),
        task_phase_calls(node_id, old(status)@, made(old(host)@, final(host)@)),
        final(status)@ == task_phase_effect(node_id, old(status)@, made(old(host)@, final(host)@)).1,
        store::result_view(r) == task_phase_effect(
            node_id,
            old(status)@,
            made(old(host)@, final(host)@),
        ).2,
{
    let ghost start = host@;
    let answer = host.find_daemon_task(status.task_id);
    let ghost after_lookup = host@;
    let task = match answer {
        Ok(Some(task)) => task,
        Ok(None) => return Ok(()),
        Err(e) => return Err(ApiError::from_host(e)),
    };
    if task.node_id != node_id {
        return Err(ApiError::internal("Unexpected installation task node"));
    }
    match task.status {
        TaskStatus::Success => {
            let r = verify_installation(host, node_id, status);
            proof {
                crate::host_api::lemma_made_compose(start, after_lookup, host@);
                assert(made(start, host@).skip(1) =~= made(after_lookup, host@));
            }
            r
        },
        TaskStatus::Error | TaskStatus::Canceled => {
            status.status = SetupStatus::Failed;
            status.error_message = "Installation failed. Review the daemon task output.".to_owned();
            Ok(())
        },
        TaskStatus::Waiting | TaskStatus::Working | TaskStatus::Unknown => Ok(()),
    }
}

/// Follows the installation task (and, for installations started by the legacy
/// release, its download task first).
fn refresh_installation_task<H: HostApi>(host: &mut Host<H>, node_id: u64, status: &mut NodeSetupStatus) -> (r:
    Result<(), ApiError>)
    requires
        old(status).status == SetupStatus::Installing,
    ensures
        r is Err ==> final(status)@ == old(status)@,
        r matches Err(e) ==> status_failure(e@),
        extends(old(host)@, final(host)@),
        refresh_calls(node_id, old(status)@, made(old(host)@, final(host)@)),
        final(status)@ == refresh_effect(node_id, old(status)@, made(old(host)@, final(host)@)).1,
        store::result_view(r) == refresh_effect(node_id, old(status)@, made(old(host)@, final(host)@)).2,
{
    if status.download_task_id != 0 {
        let ghost start = host@;
        let download = match host.find_daemon_task(status.download_task_id) {
            Ok(task) => task,
            Err(e) => return Err(ApiError::from_host(e)),
        };
        let ghost after_lookup = host@;
        match download_step(node_id, &download) {
            DownloadStep::WrongNode => {
                return Err(ApiError::internal("Unexpected installation task node"));
            },
            DownloadStep::Failed => {
                status.status = SetupStatus::Failed;
                status.task_id = status.download_task_id;
                status.error_message = "Installer download failed. Review the daemon task output.".to_owned();
                return Ok(());
            },
            DownloadStep::Wait => {
                return Ok(());
            },
            DownloadStep::Proceed => {},
        }
        let r = follow_installation_task(host, node_id, status);
        proof {
            crate::host_api::lemma_made_compose(start, after_lookup, host@);
            assert(made(start, host@).skip(1) =~= made(after_lookup, host@));
        }
        return r;
    }
    follow_installation_task(host, node_id, status)
}

/// A failure recorded by releases that stored only the bare verification message:
/// such installations are probed again without reinstalling.
pub open spec fn spec_legacy_recheck(status: NodeSetupStatusView) -> bool {
    status.status == SetupStatus::Failed && status.error_message == LEGACY_VERIFICATION_ERROR@
}

pub fn legacy_recheck(status: &NodeSetupStatus) -> (r: bool)
    ensures
        r == spec_legacy_recheck(status@),
{
    status.status == SetupStatus::Failed && crate::text::eq_chars(
        &chars_of(status.error_message.as_str()),
        &chars_of(LEGACY_VERIFICATION_ERROR),
    )
}

/// The stored status a status read found.
pub open spec fn stored_status(call: HostCall) -> Result<NodeSetupStatusView, ApiErrorView> {
    match call {
        HostCall::LoadSetupStatus { answer, .. } => store::status_outcome(answer),
        _ => Err(node_unavailable_view()),
    }
}

/// A read of a node's installation status.
pub open spec fn status_loaded(call: HostCall, node_id: u64) -> bool {
    call matches HostCall::LoadSetupStatus { key, entity, .. } && key == store::KEY_NODE_STATUS@
        && entity == crate::host_api::node_scope(node_id)
}

/// The clock reading a call got.
pub open spec fn clock(call: HostCall) -> i64 {
    match call {
        HostCall::NowUnix { answer } => answer,
        _ => 0,
    }
}

pub open spec fn timeout_message() -> Seq<char> {
    "Installation timed out"@
}

/// A pending installation after the clock is read: failed if it timed out.
pub open spec fn after_timeout(status: NodeSetupStatusView, now: i64) -> NodeSetupStatusView {
    if spec_timed_out(status.status, status.started_at, now) {
        NodeSetupStatusView {
            status: SetupStatus::Failed,
            error_message: timeout_message(),
            ..status
        }
    } else {
        status
    }
}

/// The saved status, if the write of it succeeded.
pub open spec fn saved(call: HostCall, status: NodeSetupStatusView) -> Result<
    NodeSetupStatusView,
    ApiErrorView,
> {
    if crate::host_api::write_answer(call) is Ok {
        Ok(status)
    } else {
        Err(node_unavailable_view())
    }
}

/// A legacy verification failure, polled: its installation task is looked up and,
/// when it succeeded on this node, the binary is probed again and the result saved.
pub open spec fn recheck_effect(node_id: u64, s: NodeSetupStatusView, calls: Seq<HostCall>) -> (int, Result<
    NodeSetupStatusView,
    ApiErrorView,
>) {
    match task_answer(calls[0]) {
        Some(Ok(Some(task))) => if task.node_id == node_id && task.status == TaskStatus::Success {
            let probe = probe_effect(node_id, s, calls.skip(1));
            match probe.2 {
                Err(e) => (1 + probe.0, Err(e)),
                Ok(()) => (2 + probe.0, saved(calls[1 + probe.0], probe.1)),
            }
        } else {
            (1, Ok(s))
        },
        Some(Ok(None)) => (1, Ok(s)),
        _ => (1, Err(node_unavailable_view())),
    }
}

pub open spec fn recheck_calls(node_id: u64, s: NodeSetupStatusView, calls: Seq<HostCall>) -> bool {
    &&& calls.len() == recheck_effect(node_id, s, calls).0
    &&& task_read(calls[0], s.task_id)
    &&& match task_answer(calls[0]) {
        Some(Ok(Some(task))) => task.node_id == node_id && task.status == TaskStatus::Success ==> {
            let probe = probe_effect(node_id, s, calls.skip(1));
            &&& probe_calls(node_id, s, calls.subrange(1, 1 + probe.0))
            &&& probe.2 is Ok ==> store::status_write(calls[1 + probe.0], node_id, probe.1)
        },
        _ => true,
    }
}

/// A pending installation, polled: it is refreshed from its tasks, the clock is
/// read, a timed-out installation fails, and the result is saved. A refresh that
/// fails saves nothing, so the installation stays pending.
pub open spec fn pending_effect(node_id: u64, s: NodeSetupStatusView, calls: Seq<HostCall>) -> (int, Result<
    NodeSetupStatusView,
    ApiErrorView,
>) {
    let refresh = refresh_effect(node_id, s, calls);
    match refresh.2 {
        Err(e) => (refresh.0, Err(e)),
        Ok(()) => (
            2 + refresh.0,
            saved(calls[1 + refresh.0], after_timeout(refresh.1, clock(calls[refresh.0]))),
        ),
    }
}

pub open spec fn pending_calls(node_id: u64, s: NodeSetupStatusView, calls: Seq<HostCall>) -> bool {
    let refresh = refresh_effect(node_id, s, calls);
    &&& calls.len() == pending_effect(node_id, s, calls).0
    &&& refresh_calls(node_id, s, calls.subrange(0, refresh.0))
    &&& refresh.2 is Ok ==> {
        &&& calls[refresh.0] is NowUnix
        &&& store::status_write(
            calls[1 + refresh.0],
            node_id,
            after_timeout(refresh.1, clock(calls[refresh.0])),
        )
    }
}

/// What a status poll does, read from its calls: how many it made and what it
/// answers. A stored status that is not pending, and not a legacy verification
/// failure, is answered as it is, with no other call.
pub open spec fn poll_effect(node_id: u64, calls: Seq<HostCall>) -> (int, Result<
    NodeSetupStatusView,
    ApiErrorView,
>) {
    match stored_status(calls[0]) {
        Err(e) => (1, Err(e)),
        Ok(s) => if spec_legacy_recheck(s) {
            let rest = recheck_effect(node_id, s, calls.skip(1));
            (1 + rest.0, rest.1)
        } else if s.status != SetupStatus::Installing {
            (1, Ok(s))
        } else {
            let rest = pending_effect(node_id, s, calls.skip(1));
            (1 + rest.0, rest.1)
        },
    }
}

/// The calls a status poll makes: the status read, then those of the recheck or
/// of the pending installation.
pub open spec fn poll_calls(node_id: u64, calls: Seq<HostCall>) -> bool {
    &&& calls.len() == poll_effect(node_id, calls).0
    &&& status_loaded(calls[0], node_id)
    &&& match stored_status(calls[0]) {
        Err(_) => true,
        Ok(s) => if spec_legacy_recheck(s) {
            recheck_calls(node_id, s, calls.skip(1))
        } else if s.status != SetupStatus::Installing {
            true
        } else {
            pending_calls(node_id, s, calls.skip(1))
        },
    }
}

pub open spec fn polled(effect: Result<NodeSetupStatusView, ApiErrorView>, r: Result<NodeSetupStatus, ApiError>) -> bool {
    match effect {
        Ok(v) => r matches Ok(status) && status@ == v,
        Err(e) => fails_with(r, e),
    }
}

fn recheck_legacy<H: HostApi>(host: &mut Host<H>, node_id: u64, status: NodeSetupStatus) -> (r: Result<
    NodeSetupStatus,
    ApiError,
>)
    ensures
        r matches Err(e) ==> status_failure(e@),
        extends(old(host)@, final(host)@),
        recheck_calls(node_id, status@, made(old(host)@, final(host)@)),
        polled(recheck_effect(node_id, status@, made(old(host)@, final(host)@)).1, r),
{
    let ghost start = host@;
    let mut status = status;
    let ghost s = status@;
    let task = match host.find_daemon_task(status.task_id) {
        Ok(task) => task,
        Err(e) => return Err(ApiError::from_host(e)),
    };
    let ghost looked = host@;
    match task {
        Some(task) => {
            if task.node_id == node_id && task.status == TaskStatus::Success {
                let probed = verify_installation(host, node_id, &mut status);
                let ghost after_probe = host@;
                proof {
                    crate::host_api::lemma_made_compose(start, looked, after_probe);
                    assert(made(start, after_probe).skip(1) =~= made(looked, after_probe));
                    assert(made(start, after_probe).subrange(1, made(start, after_probe).len() as int)
                        =~= made(looked, after_probe));
                }
                match probed {
                    Ok(()) => {},
                    Err(e) => return Err(e),
                }
                let written = store::save_status(host, node_id, &status);
                proof {
                    crate::host_api::lemma_made_compose(start, after_probe, host@);
                    let probe_made = made(looked, after_probe);
                    let all = made(start, host@);
                    assert(all.skip(1) =~= probe_made.push(made(after_probe, host@)[0]));
                    assert(all.subrange(1, 1 + probe_made.len() as int) =~= probe_made);
                    assert(probe_effect(node_id, s, all.skip(1)) == probe_effect(node_id, s, probe_made));
                }
                match written {
                    Ok(()) => {},
                    Err(e) => return Err(e),
                }
            }
        },
        None => {},
    }
    Ok(status)
}

fn poll_pending<H: HostApi>(host: &mut Host<H>, node_id: u64, status: NodeSetupStatus) -> (r: Result<
    NodeSetupStatus,
    ApiError,
>)
    requires
        status.status == SetupStatus::Installing,
    ensures
        r matches Err(e) ==> status_failure(e@),
        extends(old(host)@, final(host)@),
        pending_calls(node_id, status@, made(old(host)@, final(host)@)),
        polled(pending_effect(node_id, status@, made(old(host)@, final(host)@)).1, r),
{
    let ghost start = host@;
    let mut status = status;
    let refreshed = refresh_installation_task(host, node_id, &mut status);
    let ghost after_refresh = host@;
    match refreshed {
        Ok(()) => {},
        Err(e) => {
            assert(made(start, after_refresh).subrange(0, made(start, after_refresh).len() as int)
                =~= made(start, after_refresh));
            return Err(e);
        },
    }
    let now = host.now_unix();
    let ghost after_clock = host@;
    if timed_out(&status, now) {
        status.status = SetupStatus::Failed;
        status.error_message = "Installation timed out".to_owned();
    }
    let written = store::save_status(host, node_id, &status);
    proof {
        crate::host_api::lemma_made_compose(start, after_refresh, after_clock);
        crate::host_api::lemma_made_compose(start, after_clock, host@);
        let all = made(start, host@);
        let first = made(start, after_refresh);
        assert(all =~= first.push(made(after_refresh, after_clock)[0]).push(made(after_clock, host@)[0]));
        assert(all.subrange(0, first.len() as int) =~= first);
    }
    match written {
        Ok(()) => {},
        Err(e) => return Err(e),
    }
    Ok(status)
}

/// The installation status, refreshed from its daemon task while installing.
/// Installations pending longer than the timeout fail.
pub fn get_status<H: HostApi>(host: &mut Host<H>, node_id: u64) -> (r: Result<NodeSetupStatus, ApiError>)
    ensures
        r matches Err(e) ==> status_failure(e@),
        extends(old(host)@, final(host)@),
        poll_calls(node_id, made(old(host)@, final(host)@)),
        polled(poll_effect(node_id, made(old(host)@, final(host)@)).1, r),
{
    let ghost start = host@;
    let status = match store::get_status(host, node_id) {
        Ok(status) => status,
        Err(e) => return Err(e),
    };
    let ghost loaded = host@;
    if legacy_recheck(&status) {
        let r = recheck_legacy(host, node_id, status);
        proof {
            crate::host_api::lemma_made_compose(start, loaded, host@);
            assert(made(start, host@).skip(1) =~= made(loaded, host@));
        }
        return r;
    }
    if status.status != SetupStatus::Installing {
        return Ok(status);
    }
    let r = poll_pending(host, node_id, status);
    proof {
        crate::host_api::lemma_made_compose(start, loaded, host@);
        assert(made(start, host@).skip(1) =~= made(loaded, host@));
    }
    r
}

} // verus!

verus! {

/// The call at `i` ran a command that exited with status zero, without a daemon
/// error, and printed a well-formed FastDL version.
pub open spec fn verified_run(calls: Seq<HostCall>, i: int) -> bool {
    match command_answer(calls[i]) {
        Some(Ok(output)) => output.exit_code == 0 && output.error is None && spec_version(
            output.output@,
        ) is Some,
        _ => false,
    }
}

proof fn lemma_probe_installed(node_id: u64, before: NodeSetupStatusView, calls: Seq<HostCall>) -> (i: int)
    requires
        before.status != SetupStatus::Installed,
        probe_effect(node_id, before, calls).1.status == SetupStatus::Installed,
        calls.len() >= probe_effect(node_id, before, calls).0,
    ensures
        0 <= i < probe_effect(node_id, before, calls).0,
        verified_run(calls, i),
{
    1
}

proof fn lemma_phase_installed(node_id: u64, before: NodeSetupStatusView, calls: Seq<HostCall>) -> (i: int)
    requires
        before.status != SetupStatus::Installed,
        task_phase_effect(node_id, before, calls).1.status == SetupStatus::Installed,
        calls.len() >= task_phase_effect(node_id, before, calls).0,
    ensures
        0 <= i < task_phase_effect(node_id, before, calls).0,
        verified_run(calls, i),
{
    let j = lemma_probe_installed(node_id, before, calls.skip(1));
    assert(calls.skip(1)[j] == calls[j + 1]);
    j + 1
}

proof fn lemma_refresh_installed(node_id: u64, before: NodeSetupStatusView, calls: Seq<HostCall>) -> (i: int)
    requires
        before.status != SetupStatus::Installed,
        refresh_effect(node_id, before, calls).1.status == SetupStatus::Installed,
        calls.len() >= refresh_effect(node_id, before, calls).0,
    ensures
        0 <= i < refresh_effect(node_id, before, calls).0,
        verified_run(calls, i),
{
    if before.download_task_id != 0 {
        let j = lemma_phase_installed(node_id, before, calls.skip(1));
        assert(calls.skip(1)[j] == calls[j + 1]);
        j + 1
    } else {
        lemma_phase_installed(node_id, before, calls)
    }
}

/// An installation is reported installed only after a version probe succeeded:
/// a status poll that finds an installation not yet installed answers
/// `Installed` only if one of its calls ran the version command with status
/// zero, no daemon error and a well-formed version in its output.
pub proof fn installed_only_after_verification(node_id: u64, calls: Seq<HostCall>)
    requires
        poll_calls(node_id, calls),
        stored_status(calls[0]) matches Ok(stored) && stored.status != SetupStatus::Installed,
        poll_effect(node_id, calls).1 matches Ok(answered) && answered.status == SetupStatus::Installed,
    ensures
        exists|i: int| 0 <= i < calls.len() && #[trigger] verified_run(calls, i),
{
    let s = stored_status(calls[0])->Ok_0;
    let rest = calls.skip(1);
    if spec_legacy_recheck(s) {
        let probe = probe_effect(node_id, s, rest.skip(1));
        let j = lemma_probe_installed(node_id, s, rest.skip(1));
        assert(rest.skip(1)[j] == calls[j + 2]);
        assert(verified_run(calls, j + 2));
    } else {
        let j = lemma_refresh_installed(node_id, s, rest);
        assert(rest[j] == calls[j + 1]);
        assert(verified_run(calls, j + 1));
    }
}

} // verus!
