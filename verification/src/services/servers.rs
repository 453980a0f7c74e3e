//! Game server settings and the transition between published configurations.
use vstd::prelude::*;

use crate::domain::node::{NodeConfigView, NodeSetupStatusView};
use crate::domain::server::{
    server_input_ok, spec_game_defaults, spec_parse_engine, ServerInputView, ServerResponseView,
    ServerStateView,
};
use crate::domain::validation::{relative_ok, url_ok};
use crate::domain::{
    validate_url, Engine, NodeConfig, NodeSetupStatus, ServerInput, ServerResponse, ServerState,
    SetupStatus,
};
use crate::host_api::{extends, made, Host, HostApi, HostCall, HostResult, NodeInfo, ServerInfo, Stored};
use crate::http::{
    bad_request_view, conflict_view, error_view, fails_with, not_found_view,
    node_unavailable_view, ApiError, ApiErrorView,
};

use super::game_config::{commands, spec_commands};
use super::paths::{download_url, game_config, relative_game_root, server_definition, spec_download_url};
use super::sync::{
    lemma_publish_prefix, normalize_dir, normalized_dir, publish_effect, publish_failure, publish_server,
};
use super::{game_config as helper, node_setup, store};

verus! {

/// What a game server lookup answers: the server, a missing server, or a failed host call.
pub open spec fn server_lookup(found: HostResult<Option<ServerInfo>>) -> Result<
    ServerInfo,
    ApiErrorView,
> {
    match found {
        Ok(Some(server)) => Ok(server),
        Ok(None) => Err(not_found_view("Game server not found"@)),
        Err(_) => Err(node_unavailable_view()),
    }
}

/// Interprets the host's answer to a game server lookup.
pub fn found_server(found: HostResult<Option<ServerInfo>>) -> (r: Result<ServerInfo, ApiError>)
    ensures
        store::result_view(r) == server_lookup(found),
{
    match found {
        Ok(Some(server)) => Ok(server),
        Ok(None) => Err(ApiError::not_found("Game server not found")),
        Err(e) => Err(ApiError::from_host(e)),
    }
}

pub fn get_server<H: HostApi>(host: &mut Host<H>, server_id: u64) -> (r: Result<ServerInfo, ApiError>)
    ensures
        store::one_call(old(host)@, final(host)@),
        made(old(host)@, final(host)@)[0] matches HostCall::GetServer { id, answer } && id == server_id
            && store::result_view(r) == server_lookup(answer),
        r matches Err(e) ==> e@ == node_unavailable_view() || e@ == not_found_view(
            "Game server not found"@,
        ),
{
    found_server(host.get_server(server_id))
}

/// The engine of a game as the panel records it: a supported engine, `None` for an
/// unknown game or another engine, or a failed host call.
pub open spec fn engine_lookup(found: HostResult<Option<String>>) -> Result<
    Option<Engine>,
    ApiErrorView,
> {
    match found {
        Ok(Some(name)) => Ok(spec_parse_engine(name@)),
        Ok(None) => Ok(None),
        Err(_) => Err(node_unavailable_view()),
    }
}

/// Interprets the host's answer to a game engine lookup.
pub fn found_engine(found: HostResult<Option<String>>) -> (r: Result<Option<Engine>, ApiError>)
    ensures
        store::result_view(r) == engine_lookup(found),
{
    match found {
        Ok(Some(name)) => Ok(Engine::parse(name.as_str())),
        Ok(None) => Ok(None),
        Err(e) => Err(ApiError::from_host(e)),
    }
}

/// The engine the panel records for the server's game; `None` for other engines.
pub fn game_engine<H: HostApi>(host: &mut Host<H>, server: &ServerInfo) -> (r: Result<
    Option<Engine>,
    ApiError,
>)
    ensures
        r matches Err(e) ==> e@ == node_unavailable_view(),
        store::one_call(old(host)@, final(host)@),
        made(old(host)@, final(host)@)[0] matches HostCall::GetGameEngine { game_code, answer }
            && game_code == server.game_id@ && store::result_view(r) == engine_lookup(answer),
        store::nothing_synced(final(host)@, old(host)@.len() as int),
        crate::host_api::reads_only(final(host)@, old(host)@.len() as int),
{
    found_engine(host.get_game_engine(server.game_id.as_str()))
}

pub open spec fn not_installed_warning() -> Seq<char> {
    "FastDL is not installed on this node"@
}

pub open spec fn no_address_warning() -> Seq<char> {
    "A public FastDL address must be configured by an administrator"@
}

pub open spec fn unsynced_warning() -> Seq<char> {
    "Changes have not been applied successfully. Save again or ask an administrator to synchronize the node."@
}

/// The settings shown for a server: the stored ones, or the game's defaults, with
/// the engine always taken from the panel's game when it is supported.
pub open spec fn shown_settings(game_id: Seq<char>, stored: Option<ServerStateView>, engine: Option<Engine>) -> ServerInputView {
    let base = match stored {
        Some(state) => state.settings,
        None => ServerInputView {
            enabled: false,
            autoindex: false,
            engine: spec_game_defaults(game_id).0,
            game_dir: spec_game_defaults(game_id).1,
            manage_game_config: true,
            generate_bz2: true,
        },
    };
    match engine {
        Some(e) => ServerInputView { engine: e, ..base },
        None => base,
    }
}

/// Stored settings are synchronized when the last save completed and the game's engine
/// has not changed since.
pub open spec fn shown_synced(stored: Option<ServerStateView>, engine: Option<Engine>) -> bool {
    match stored {
        None => true,
        Some(state) => state.synced && engine == Some(state.settings.engine),
    }
}

pub open spec fn shown_warnings(node_ready: bool, base_url: Seq<char>, synced: bool) -> Seq<Seq<char>> {
    (if node_ready {
        Seq::empty()
    } else {
        seq![not_installed_warning()]
    }) + (if base_url.len() == 0 {
        seq![no_address_warning()]
    } else {
        Seq::empty()
    }) + (if synced {
        Seq::empty()
    } else {
        seq![unsynced_warning()]
    })
}

/// The public view of a server's FastDL settings. It carries no IDs, paths or token
/// other than inside the public download URL.
pub open spec fn spec_server_view(
    server_name: Seq<char>,
    game_id: Seq<char>,
    stored: Option<ServerStateView>,
    engine: Option<Engine>,
    config: NodeConfigView,
    status: NodeSetupStatusView,
    can_manage: bool,
) -> ServerResponseView {
    let settings = shown_settings(game_id, stored, engine);
    let token = match stored {
        Some(state) => state.token,
        None => Seq::empty(),
    };
    let url = spec_download_url(config.public_base_url, token);
    let node_ready = status.status == SetupStatus::Installed;
    let synced = shown_synced(stored, engine);
    ServerResponseView {
        server_name,
        settings,
        download_url: url,
        configuration: if url.len() == 0 || !settings.enabled {
            Seq::empty()
        } else {
            spec_commands(url)
        },
        can_manage,
        synced,
        supported: engine is Some,
        node_ready,
        warnings: shown_warnings(node_ready, config.public_base_url, synced),
    }
}

/// A server's view reports its node ready exactly when the node's installation
/// status is Installed, and warns that FastDL is not installed exactly when it
/// is not.
pub proof fn view_readiness_follows_installation(
    server_name: Seq<char>,
    game_id: Seq<char>,
    stored: Option<ServerStateView>,
    engine: Option<Engine>,
    config: NodeConfigView,
    status: NodeSetupStatusView,
    can_manage: bool,
)
    ensures
        spec_server_view(server_name, game_id, stored, engine, config, status, can_manage).node_ready
            <==> status.status == SetupStatus::Installed,
        spec_server_view(server_name, game_id, stored, engine, config, status, can_manage).warnings.contains(
            "FastDL is not installed on this node"@,
        ) <==> status.status != SetupStatus::Installed,
        spec_server_view(server_name, game_id, stored, engine, config, status, can_manage).supported
            <==> engine is Some,
{
    reveal_strlit("FastDL is not installed on this node");
    reveal_strlit("A public FastDL address must be configured by an administrator");
    reveal_strlit(
        "Changes have not been applied successfully. Save again or ask an administrator to synchronize the node.",
    );
    let v = spec_server_view(server_name, game_id, stored, engine, config, status, can_manage);
    let w = "FastDL is not installed on this node"@;
    assert(w.len() == 36);
    assert(no_address_warning().len() == 62);
    assert(unsynced_warning().len() != 36);
    if status.status != SetupStatus::Installed {
        assert(v.warnings[0] == w);
    } else {
        assert forall|i: int| 0 <= i < v.warnings.len() implies v.warnings[i] != w by {
            assert(v.warnings[i] == no_address_warning() || v.warnings[i] == unsynced_warning());
        }
    }
}

/// A server's view: the stored settings (with the panel's engine when it is
/// supported), or disabled defaults; synchronized when nothing is stored, or
/// when the last save completed for the panel's current engine; a warning for a
/// missing public address exactly when there is none, and one for unapplied
/// changes exactly when not synchronized; no configuration commands for
/// disabled settings; and the caller's right to manage as given.
pub proof fn view_shows_saved_state(
    server_name: Seq<char>,
    game_id: Seq<char>,
    stored: Option<ServerStateView>,
    engine: Option<Engine>,
    config: NodeConfigView,
    status: NodeSetupStatusView,
    can_manage: bool,
)
    ensures
        ({
            let v = spec_server_view(server_name, game_id, stored, engine, config, status, can_manage);
            &&& v.can_manage == can_manage
            &&& v.server_name == server_name
            &&& stored is None ==> v.synced && !v.settings.enabled
            &&& stored matches Some(st) ==> (v.synced <==> st.synced && engine == Some(st.settings.engine))
            &&& stored matches Some(st) ==> v.settings.enabled == st.settings.enabled && v.settings.game_dir
                == st.settings.game_dir && v.settings.autoindex == st.settings.autoindex
            &&& engine matches Some(e) ==> v.settings.engine == e
            &&& !v.settings.enabled ==> v.configuration.len() == 0
            &&& v.warnings.contains("A public FastDL address must be configured by an administrator"@)
                <==> config.public_base_url.len() == 0
            &&& v.warnings.contains(
                "Changes have not been applied successfully. Save again or ask an administrator to synchronize the node."@,
            ) <==> !v.synced
        }),
{
    reveal_strlit("FastDL is not installed on this node");
    reveal_strlit("A public FastDL address must be configured by an administrator");
    reveal_strlit(
        "Changes have not been applied successfully. Save again or ask an administrator to synchronize the node.",
    );
    let v = spec_server_view(server_name, game_id, stored, engine, config, status, can_manage);
    let a = no_address_warning();
    let u = unsynced_warning();
    let n = not_installed_warning();
    assert(n.len() == 36 && a.len() == 62 && u.len() == 103);
    let w = v.warnings;
    if config.public_base_url.len() == 0 {
        assert(w.contains(a)) by {
            if status.status == SetupStatus::Installed {
                assert(w[0] == a);
            } else {
                assert(w[1] == a);
            }
        }
    } else {
        assert forall|i: int| 0 <= i < w.len() implies w[i] != a by {
            assert(w[i] == n || w[i] == u);
        }
    }
    if !v.synced {
        assert(w[w.len() - 1] == u);
    } else {
        assert forall|i: int| 0 <= i < w.len() implies w[i] != u by {
            assert(w[i] == n || w[i] == a);
        }
    }
}

pub fn server_view(
    server: &ServerInfo,
    stored: &Option<ServerState>,
    engine: Option<Engine>,
    config: &NodeConfig,
    status: &NodeSetupStatus,
    can_manage: bool,
) -> (r: ServerResponse)
    ensures
        r@ == spec_server_view(
            server.name@,
            server.game_id@,
            super::sync::opt_state_view(*stored),
            engine,
            config@,
            status@,
            can_manage,
        ),
{
    let mut settings = match stored {
        Some(state) => state.settings.duplicate(),
        None => ServerInput::for_game(server.game_id.as_str()).0,
    };
    match engine {
        Some(e) => {
            settings.engine = e;
        },
        None => {},
    }
    let token: &str = match stored {
        Some(state) => state.token.as_str(),
        None => "",
    };
    proof {
        if stored is None {
            reveal_strlit("");
        }
    }
    let url = download_url(config, token);
    let node_ready = status.status == SetupStatus::Installed;
    let synced = match stored {
        None => true,
        Some(state) => state.synced && match engine {
            Some(e) => e == state.settings.engine,
            None => false,
        },
    };
    let mut warnings: Vec<String> = Vec::new();
    if !node_ready {
        warnings.push("FastDL is not installed on this node".to_owned());
    }
    if config.public_base_url.as_str().unicode_len() == 0 {
        warnings.push("A public FastDL address must be configured by an administrator".to_owned());
    }
    if !synced {
        warnings.push(
            "Changes have not been applied successfully. Save again or ask an administrator to synchronize the node.".to_owned(),
        );
    }
    let configuration = if url.as_str().unicode_len() == 0 || !settings.enabled {
        Vec::new()
    } else {
        commands(settings.engine, url.as_str())
    };
    let response = ServerResponse {
        server_name: server.name.clone(),
        settings,
        download_url: url,
        configuration,
        can_manage,
        synced,
        supported: engine.is_some(),
        node_ready,
        warnings,
    };
    assert(response@.warnings =~= shown_warnings(node_ready, config@.public_base_url, synced));
    assert(response@.configuration =~= spec_server_view(
        server.name@,
        server.game_id@,
        super::sync::opt_state_view(*stored),
        engine,
        config@,
        status@,
        can_manage,
    ).configuration);
    response
}

/// What an engine lookup gives the plugin.
pub open spec fn engine_answer(call: HostCall) -> Result<Option<Engine>, ApiErrorView> {
    match call {
        HostCall::GetGameEngine { answer, .. } => engine_lookup(answer),
        _ => Err(node_unavailable_view()),
    }
}

/// An engine lookup for the game `game_code`.
pub open spec fn engine_key(call: HostCall, game_code: Seq<char>) -> bool {
    call matches HostCall::GetGameEngine { game_code: g, .. } && g == game_code
}

/// What building a server's public view does, read from its calls: the server's
/// stored state, its game's engine, and its node's settings and installation
/// status are read in that order, each only after the previous read succeeded;
/// the view is built from all four.
pub open spec fn view_effect(server: ServerInfo, can_manage: bool, calls: Seq<HostCall>) -> (int, Result<
    ServerResponseView,
    ApiErrorView,
>) {
    match store::state_answer(calls[0]) {
        Err(e) => (1, Err(e)),
        Ok(stored) => match engine_answer(calls[1]) {
            Err(e) => (2, Err(e)),
            Ok(engine) => match store::config_answer(calls[2]) {
                Err(e) => (3, Err(e)),
                Ok(config) => match store::status_answer(calls[3]) {
                    Err(e) => (4, Err(e)),
                    Ok(status) => (
                        4,
                        Ok(
                            spec_server_view(
                                server.name@,
                                server.game_id@,
                                super::sync::opt_state_view(stored),
                                engine,
                                config,
                                status,
                                can_manage,
                            ),
                        ),
                    ),
                },
            },
        },
    }
}

/// The reads a view makes: this server's state, this game's engine, and this
/// server's node's settings and status.
pub open spec fn view_calls(server: ServerInfo, calls: Seq<HostCall>) -> bool {
    let n = view_effect(server, true, calls).0;
    &&& calls.len() == n
    &&& store::state_key(calls[0], store::KEY_SERVER_STATE@, crate::host_api::server_scope(server.id))
    &&& n > 1 ==> engine_key(calls[1], server.game_id@)
    &&& n > 2 ==> store::config_key(calls[2], server.node_id)
    &&& n > 3 ==> store::status_key(calls[3], server.node_id)
}

/// A view's result as the response type.
pub open spec fn viewed(effect: Result<ServerResponseView, ApiErrorView>, r: Result<ServerResponse, ApiError>) -> bool {
    match effect {
        Ok(v) => r matches Ok(response) && response@ == v,
        Err(e) => fails_with(r, e),
    }
}

/// Reads everything the public view needs and builds it.
pub fn view<H: HostApi>(host: &mut Host<H>, server: &ServerInfo, can_manage: bool) -> (r: Result<
    ServerResponse,
    ApiError,
>)
    ensures
        r matches Err(e) ==> store::load_failure(e@),
        r matches Ok(response) ==> response.can_manage == can_manage,
        extends(old(host)@, final(host)@),
        crate::host_api::reads_only(final(host)@, old(host)@.len() as int),
        view_calls(*server, made(old(host)@, final(host)@)),
        viewed(view_effect(*server, can_manage, made(old(host)@, final(host)@)).1, r),
{
    let stored = match store::get_server_state(host, server.id) {
        Ok(stored) => stored,
        Err(e) => return Err(e),
    };
    let engine = match game_engine(host, server) {
        Ok(engine) => engine,
        Err(e) => return Err(e),
    };
    let config = match store::get_config(host, server.node_id) {
        Ok(config) => config,
        Err(e) => return Err(e),
    };
    let status = match store::get_status(host, server.node_id) {
        Ok(status) => status,
        Err(e) => return Err(e),
    };
    Ok(server_view(server, &stored, engine, &config, &status, can_manage))
}

pub open spec fn not_ready_view() -> ApiErrorView {
    error_view(
        409,
        "CONFIGURATION_NOT_READY"@,
        "Enable FastDL and save its settings successfully before applying the game configuration"@,
    )
}

pub fn configuration_not_ready() -> (e: ApiError)
    ensures
        e@ == not_ready_view(),
{
    ApiError::new(
        409,
        "CONFIGURATION_NOT_READY",
        "Enable FastDL and save its settings successfully before applying the game configuration",
    )
}

/// Saved settings may be applied to server.cfg only when they are enabled, were
/// published successfully, and still describe the server: same node, directory,
/// engine, and the server itself enabled.
pub open spec fn spec_configuration_ready(
    state: ServerStateView,
    node_id: u64,
    dir: Seq<char>,
    enabled: bool,
    engine: Engine,
) -> bool {
    &&& state.settings.enabled
    &&& state.synced
    &&& enabled
    &&& state.node_id == node_id
    &&& state.server_dir == normalized_dir(dir)
    &&& state.settings.engine == engine
}

pub fn configuration_ready(state: &ServerState, server: &ServerInfo, engine: Engine) -> (r: bool)
    ensures
        r == spec_configuration_ready(state@, server.node_id, server.dir@, server.enabled, engine),
{
    let dir = normalize_dir(server.dir.as_str());
    state.settings.enabled && state.synced && server.enabled && state.node_id == server.node_id
        && crate::text::eq_chars(
        &crate::text::chars_of(state.server_dir.as_str()),
        &crate::text::chars_of(dir.as_str()),
    ) && state.settings.engine == engine
}

pub open spec fn readiness(status: SetupStatus, base_url: Seq<char>) -> Result<(), ApiErrorView> {
    if status != SetupStatus::Installed {
        Err(conflict_view("Install FastDL on this node first"@))
    } else if base_url.len() == 0 {
        Err(conflict_view("Configure the public FastDL address first"@))
    } else {
        Ok(())
    }
}

pub fn node_readiness(status: &NodeSetupStatus, config: &NodeConfig) -> (r: Result<(), ApiError>)
    ensures
        store::result_view(r) == readiness(status.status, config.public_base_url@),
{
    if status.status != SetupStatus::Installed {
        return Err(ApiError::conflict("Install FastDL on this node first"));
    }
    if config.public_base_url.as_str().unicode_len() == 0 {
        return Err(ApiError::conflict("Configure the public FastDL address first"));
    }
    Ok(())
}

/// Errors saving a server's settings can answer.
pub open spec fn update_failure(e: ApiErrorView) -> bool {
    ||| store::load_failure(e)
    ||| e == not_found_view("Node not found"@)
    ||| publish_failure(e)
    ||| helper::apply_failure(e)
    ||| e == bad_request_view("Internal server directories cannot be used as a game directory"@)
    ||| e == bad_request_view("FastDL only supports GoldSource and Source games"@)
    ||| e == conflict_view("Install FastDL on this node first"@)
    ||| e == conflict_view("Configure the public FastDL address first"@)
}

/// The node must be installed and have a public address; without an address
/// this always fails.
fn ensure_node_ready<H: HostApi>(host: &mut Host<H>, node_id: u64, config: &NodeConfig) -> (r: Result<
    (),
    ApiError,
>)
    ensures
        r is Ok ==> config.public_base_url@.len() > 0,
        r matches Err(e) ==> store::load_failure(e@) || e@ == conflict_view(
            "Install FastDL on this node first"@,
        ) || (e@ == conflict_view("Configure the public FastDL address first"@)
            && config.public_base_url@.len() == 0),
        extends(old(host)@, final(host)@),
        store::nothing_synced(final(host)@, old(host)@.len() as int),
        crate::host_api::reads_only(final(host)@, old(host)@.len() as int),
        store::one_call(old(host)@, final(host)@),
        store::status_key(made(old(host)@, final(host)@)[0], node_id),
        store::result_view(r) == match store::status_answer(made(old(host)@, final(host)@)[0]) {
            Err(e) => Err(e),
            Ok(status) => readiness(status.status, config.public_base_url@),
        },
{
    let status = match store::get_status(host, node_id) {
        Ok(status) => status,
        Err(e) => return Err(e),
    };
    node_readiness(&status, config)
}

/// Errors applying the saved settings to server.cfg can answer.
pub open spec fn configure_failure(e: ApiErrorView) -> bool {
    ||| update_failure(e)
    ||| e == not_ready_view()
    ||| e == bad_request_view("A valid HTTP URL is required (HTTPS for downloads)"@)
    ||| e == bad_request_view("Invalid public or download URL"@)
}

/// Why saved settings whose game directory is unusable are refused.
pub open spec fn input_refusal(game_dir: Seq<char>) -> ApiErrorView {
    if !relative_ok(game_dir, true) {
        bad_request_view("Game directory must be a relative path inside the game server"@)
    } else {
        bad_request_view("Internal server directories cannot be used as a game directory"@)
    }
}

/// Why an unusable public URL is refused.
pub open spec fn url_refusal(url: Seq<char>) -> ApiErrorView {
    if crate::domain::validation::url_rest(url, false) is None {
        bad_request_view("A valid HTTP URL is required (HTTPS for downloads)"@)
    } else {
        bad_request_view("Invalid public or download URL"@)
    }
}

/// The URL the saved settings are configured with: the node's public address and
/// the server's token, as the public view shows it.
pub open spec fn configured_url(config: NodeConfigView, state: ServerStateView) -> Seq<char> {
    spec_download_url(config.public_base_url, state.token)
}

/// Applying the saved settings answers exactly the configuration commands that
/// the server's view shows for the same stored state and node settings.
pub proof fn configuration_matches_view(
    server_name: Seq<char>,
    game_id: Seq<char>,
    state: ServerStateView,
    engine: Engine,
    config: NodeConfigView,
    status: NodeSetupStatusView,
    can_manage: bool,
)
    requires
        state.settings.enabled,
        configured_url(config, state).len() > 0,
    ensures
        spec_server_view(server_name, game_id, Some(state), Some(engine), config, status, can_manage).configuration
            == spec_commands(configured_url(config, state)),
{
}

/// What applying the saved settings to server.cfg does, read from its calls. The
/// game's engine is looked up (an unsupported game is refused); the server's stored
/// state is read and must be ready for this server and that engine; its settings
/// and token must be usable; the node's settings and status are read and the node
/// must be installed with a public address; then the helper runs once with the
/// public URL, and its outcome decides. Each step runs only after the previous one
/// succeeded, every step before the helper only reads, and on success the answer
/// is the RCON commands for that URL, which the public view shows too.
pub open spec fn configure_record(server: ServerInfo, calls: Seq<HostCall>, r: Result<Vec<String>, ApiError>) -> bool {
    &&& calls.len() >= 1
    &&& engine_key(calls[0], server.game_id@)
    &&& match engine_answer(calls[0]) {
        Err(e) => calls.len() == 1 && fails_with(r, e),
        Ok(None) => calls.len() == 1 && fails_with(r, unsupported_game_view()),
        Ok(Some(engine)) => {
            &&& calls.len() >= 2
            &&& store::state_key(calls[1], store::KEY_SERVER_STATE@, crate::host_api::server_scope(server.id))
            &&& match store::state_answer(calls[1]) {
                Err(e) => calls.len() == 2 && fails_with(r, e),
                Ok(None) => calls.len() == 2 && fails_with(r, not_ready_view()),
                Ok(Some(state)) => if !spec_configuration_ready(
                    state@,
                    server.node_id,
                    server.dir@,
                    server.enabled,
                    engine,
                ) {
                    calls.len() == 2 && fails_with(r, not_ready_view())
                } else if !server_input_ok(state.settings.game_dir@) {
                    calls.len() == 2 && fails_with(r, input_refusal(state.settings.game_dir@))
                } else if !(server.id != 0 && super::paths::token_ok(state.token@)) {
                    calls.len() == 2 && fails_with(r, crate::http::internal_view("Invalid stored public token"@))
                } else {
                    &&& calls.len() >= 3
                    &&& store::config_key(calls[2], server.node_id)
                    &&& match store::config_answer(calls[2]) {
                        Err(e) => calls.len() == 3 && fails_with(r, e),
                        Ok(config) => {
                            &&& calls.len() >= 4
                            &&& store::status_key(calls[3], server.node_id)
                            &&& match store::status_answer(calls[3]) {
                                Err(e) => calls.len() == 4 && fails_with(r, e),
                                Ok(status) => match readiness(status.status, config.public_base_url) {
                                    Err(e) => calls.len() == 4 && fails_with(r, e),
                                    Ok(()) => {
                                        let url = configured_url(config, state@);
                                        if !url_ok(url, false) {
                                            calls.len() == 4 && fails_with(r, url_refusal(url))
                                        } else {
                                            exists|ran: Result<(), ApiError>|
                                                #[trigger] helper::apply_record(state@, Some(url), calls.skip(4), ran)
                                                    && match ran {
                                                    Ok(()) => r matches Ok(cmds) && cmds@.map_values(
                                                        |c: String| c@,
                                                    ) == spec_commands(url),
                                                    Err(e) => fails_with(r, e@),
                                                }
                                        }
                                    },
                                },
                            }
                        },
                    }
                },
            }
        },
    }
}

/// Applies the saved settings to server.cfg through the helper and returns the RCON
/// commands for them. Nothing but the saved, published settings is used, and a
/// server the panel has disabled is never configured.
pub fn configure_server<H: HostApi>(host: &mut Host<H>, server: &ServerInfo) -> (r: Result<
    Vec<String>,
    ApiError,
>)
    ensures
        !server.enabled ==> r is Err,
        !server.enabled ==> crate::host_api::reads_only(final(host)@, old(host)@.len() as int),
        fails_with(r, not_ready_view()) ==> crate::host_api::reads_only(
            final(host)@,
            old(host)@.len() as int,
        ),
        r matches Err(e) ==> configure_failure(e@),
        extends(old(host)@, final(host)@),
        crate::host_api::commands_only(final(host)@, old(host)@.len() as int),
        configure_record(*server, made(old(host)@, final(host)@), r),
        r matches Ok(cmds) ==> exists|url: Seq<char>|
            url_ok(url, false) && cmds@.map_values(|c: String| c@) == #[trigger] spec_commands(url),
{
    let engine = match game_engine(host, server) {
        Ok(Some(engine)) => engine,
        Ok(None) => {
            return Err(ApiError::bad_request("FastDL only supports GoldSource and Source games"))
        },
        Err(e) => return Err(e),
    };
    let state = match store::get_server_state(host, server.id) {
        Ok(Some(state)) => state,
        Ok(None) => return Err(configuration_not_ready()),
        Err(e) => return Err(e),
    };
    if !configuration_ready(&state, server, engine) {
        return Err(configuration_not_ready());
    }
    match state.settings.validate() {
        Ok(()) => {},
        Err(e) => return Err(e),
    }
    match server_definition(server.id, state.token.as_str()) {
        Ok(_) => {},
        Err(e) => return Err(e),
    }
    let config = match store::get_config(host, server.node_id) {
        Ok(config) => config,
        Err(e) => return Err(e),
    };
    match ensure_node_ready(host, server.node_id, &config) {
        Ok(()) => {},
        Err(e) => return Err(e),
    }
    let url = download_url(&config, state.token.as_str());
    match validate_url(url.as_str(), false) {
        Ok(()) => {},
        Err(e) => return Err(e),
    }
    let ghost before_apply = host@;
    let ran = helper::apply(host, &state, Some(url.as_str()));
    proof {
        assert(made(old(host)@, host@).skip(4) =~= made(before_apply, host@));
    }
    match ran {
        Ok(()) => {},
        Err(e) => {
            proof {
                reveal_strlit("GAME_CONFIG_UPDATE_FAILED");
                reveal_strlit("CONFIGURATION_NOT_READY");
                assert("GAME_CONFIG_UPDATE_FAILED"@.len() == 25);
                assert("CONFIGURATION_NOT_READY"@.len() == 23);
                assert(helper::update_failed_view() != not_ready_view());
            }
            return Err(e);
        },
    }
    let cmds = commands(engine, url.as_str());
    assert(cmds@.map_values(|c: String| c@) == spec_commands(url@));
    Ok(cmds)
}

pub open spec fn config_file_path(state: ServerStateView) -> Seq<char> {
    super::paths::spec_game_root(state.server_dir, state.settings.game_dir) + seq!['/']
        + super::paths::spec_config_file(state.settings.engine)
}

pub open spec fn paths_ok(state: ServerStateView) -> bool {
    relative_ok(state.server_dir, false) && relative_ok(state.settings.game_dir, true)
}

/// Whether replacing `previous` by `next` must first remove the managed settings
/// from the previous server.cfg: only on the same node and directory, when the
/// previous settings were managed and possibly applied, and when the file,
/// management or enablement changes.
pub open spec fn spec_needs_cleanup(previous: ServerStateView, next: ServerStateView) -> Result<
    bool,
    ApiErrorView,
> {
    if previous.node_id != next.node_id || previous.server_dir != next.server_dir {
        Ok(false)
    } else if !previous.settings.manage_game_config || (!previous.settings.enabled
        && previous.synced) {
        Ok(false)
    } else if !paths_ok(previous) || !paths_ok(next) {
        Err(bad_request_view("Game directory must be a relative path inside the game server"@))
    } else {
        Ok(config_file_path(previous) != config_file_path(next)
            || !next.settings.manage_game_config || !next.settings.enabled)
    }
}

pub fn needs_config_cleanup(previous: &ServerState, next: &ServerState) -> (r: Result<bool, ApiError>)
    ensures
        store::result_view(r) == spec_needs_cleanup(previous@, next@),
{
    // After a move, the former directory may belong to another server.
    if previous.node_id != next.node_id || !crate::text::eq_chars(
        &crate::text::chars_of(previous.server_dir.as_str()),
        &crate::text::chars_of(next.server_dir.as_str()),
    ) {
        return Ok(false);
    }
    if !previous.settings.manage_game_config || (!previous.settings.enabled && previous.synced) {
        return Ok(false);
    }
    let before = match game_config(previous) {
        Ok(path) => path,
        Err(e) => return Err(e),
    };
    let after = match game_config(next) {
        Ok(path) => path,
        Err(e) => return Err(e),
    };
    let changed = !crate::text::eq_chars(
        &crate::text::chars_of(before.as_str()),
        &crate::text::chars_of(after.as_str()),
    );
    Ok(changed || !next.settings.manage_game_config || !next.settings.enabled)
}

/// Revoking previous settings, read from its calls: the previous state saved
/// unsynchronized; its node looked up; its definition published disabled; then,
/// when `spec_needs_cleanup` asks for it, the helper run without a URL to remove
/// the managed settings. Each step runs only after the previous one succeeded.
pub open spec fn revoke_effect(previous: ServerStateView, next: ServerStateView, calls: Seq<HostCall>) -> (
    int,
    Result<(), ApiErrorView>,
    bool,
) {
    let pending = ServerStateView { synced: false, ..previous };
    let saving = store::save_effect(next.server_id, pending, calls);
    match saving.1 {
        Err(e) => (saving.0, Err(e), saving.2),
        Ok(()) => {
            let looked = saving.2 && node_setup::node_read(calls[saving.0], previous.node_id);
            match node_setup::node_answer(calls[saving.0]) {
                Err(e) => (saving.0 + 1, Err(e), looked),
                Ok(node) => {
                    let publishing = publish_effect(node, previous, false, calls.skip(saving.0 + 1));
                    let o = saving.0 + 1 + publishing.0;
                    let shaped = looked && publishing.2;
                    match publishing.1 {
                        Err(e) => (o, Err(e), shaped),
                        Ok(()) => match spec_needs_cleanup(previous, next) {
                            Err(v) => (o, Err(v), shaped),
                            Ok(false) => (o, Ok(()), shaped),
                            Ok(true) => {
                                let cleaning = helper::apply_effect(previous, None, calls.skip(o));
                                (o + cleaning.0, cleaning.1, shaped && cleaning.2)
                            },
                        },
                    }
                },
            }
        },
    }
}

/// Marks the previous settings unsynchronized, revokes their publication and, when
/// needed, removes their managed settings from server.cfg. Previous settings whose
/// paths cannot be published, or a cleanup that cannot be decided, always fail.
fn revoke_previous<H: HostApi>(host: &mut Host<H>, previous: &ServerState, next: &ServerState) -> (r:
    Result<(), ApiError>)
    ensures
        !paths_ok(previous@) ==> r is Err,
        spec_needs_cleanup(previous@, next@) is Err ==> r is Err,
        r matches Err(e) ==> update_failure(e@),
        saves_carry(final(host)@, old(host)@.len() as int, previous.token@),
        uploads_disabled(final(host)@, old(host)@.len() as int),
        r matches Err(e) ==> publish_failure(e@) || helper::apply_failure(e@) || e@ == not_found_view(
            "Node not found"@,
        ),
        made(old(host)@, final(host)@).len() == revoke_effect(previous@, next@, made(old(host)@, final(host)@)).0,
        revoke_effect(previous@, next@, made(old(host)@, final(host)@)).2,
        store::result_view(r) == revoke_effect(previous@, next@, made(old(host)@, final(host)@)).1,
        extends(old(host)@, final(host)@),
        store::nothing_synced(final(host)@, old(host)@.len() as int),
{
    let ghost start = host@;
    let mut pending = previous.duplicate();
    pending.synced = false;
    assert(pending@ == ServerStateView { synced: false, ..previous@ });
    let saved = store::save_server_state(host, next.server_id, &pending);
    let ghost after_save = host@;
    match saved {
        Ok(()) => {},
        Err(e) => return Err(e),
    }
    let node = match node_setup::get_node(host, previous.node_id) {
        Ok(node) => node,
        Err(e) => return Err(e),
    };
    let ghost after_node = host@;
    let published = publish_server(host, &node, previous, false);
    let ghost after_publish = host@;
    proof {
        crate::host_api::lemma_stage(start, after_node, after_publish, after_publish);
        lemma_publish_prefix(
            node,
            previous@,
            false,
            made(after_node, after_publish),
            made(start, after_publish).skip(after_node.len() - start.len()),
        );
    }
    match published {
        Ok(()) => {},
        Err(e) => return Err(e),
    }
    let cleanup = match needs_config_cleanup(previous, next) {
        Ok(cleanup) => cleanup,
        Err(e) => return Err(e),
    };
    if cleanup {
        let cleaned = helper::apply(host, previous, None);
        proof {
            crate::host_api::lemma_stage(start, after_publish, host@, host@);
            helper::lemma_apply_prefix(
                previous@,
                None,
                made(after_publish, host@),
                made(start, host@).skip(after_publish.len() - start.len()),
            );
            crate::host_api::lemma_stage(start, after_node, after_publish, host@);
            lemma_publish_prefix(
                node,
                previous@,
                false,
                made(after_node, after_publish),
                made(start, host@).skip(after_node.len() - start.len()),
            );
        }
        match cleaned {
            Ok(()) => {},
            Err(e) => return Err(e),
        }
    }
    Ok(())
}

pub open spec fn unsupported_game_view() -> ApiErrorView {
    bad_request_view("FastDL only supports GoldSource and Source games"@)
}

/// Every server definition published successfully from position `from` on had
/// its route disabled.
pub open spec fn uploads_disabled(log: Seq<HostCall>, from: int) -> bool {
    forall|i: int|
        #![trigger log[i]]
        from <= i < log.len() ==> match log[i] {
            HostCall::UploadServerDefinition { definition, answer, .. } => answer is Ok ==> !definition.enabled,
            _ => true,
        }
}

/// Every server state saved from position `from` on carries the public token
/// `token`.
pub open spec fn saves_carry(log: Seq<HostCall>, from: int, token: Seq<char>) -> bool {
    forall|i: int|
        #![trigger log[i]]
        from <= i < log.len() ==> match log[i] {
            HostCall::SaveServerState { state, .. } => state.token == token,
            _ => true,
        }
}

/// The record grew from position `from` on and its last call writes a server
/// state: a failure there is a failed save.
pub open spec fn ends_with_save(log: Seq<HostCall>, from: int) -> bool {
    log.len() > from && log.last() is SaveServerState
}

/// One step's record, read from its calls: how many calls it made, its result,
/// and whether each call had the expected shape.
pub open spec fn carried_out(
    effect: (int, Result<(), ApiErrorView>, bool),
    calls: Seq<HostCall>,
    r: Result<(), ApiError>,
) -> bool {
    &&& calls.len() == effect.0
    &&& effect.2
    &&& store::result_view(r) == effect.1
}

/// `first`, then, once it succeeded, `rest` on the calls that follow it.
pub open spec fn chain(
    first: (int, Result<(), ApiErrorView>, bool),
    rest: (int, Result<(), ApiErrorView>, bool),
) -> (int, Result<(), ApiErrorView>, bool) {
    match first.1 {
        Err(_) => first,
        Ok(()) => (first.0 + rest.0, rest.1, first.2 && rest.2),
    }
}

/// A revocation's effect depends only on the calls it made.
proof fn lemma_revoke_prefix(previous: ServerStateView, next: ServerStateView, a: Seq<HostCall>, b: Seq<HostCall>)
    requires
        extends(a, b),
        a.len() >= revoke_effect(previous, next, a).0,
    ensures
        revoke_effect(previous, next, b) == revoke_effect(previous, next, a),
{
    let pending = ServerStateView { synced: false, ..previous };
    store::lemma_save_prefix(next.server_id, pending, a, b);
    let saving = store::save_effect(next.server_id, pending, a);
    if saving.1 is Ok {
        assert(b[saving.0] == a[saving.0]);
        if node_setup::node_answer(a[saving.0]) is Ok {
            let node = node_setup::node_answer(a[saving.0])->Ok_0;
            let k = saving.0 + 1;
            assert(extends(a.skip(k), b.skip(k)));
            lemma_publish_prefix(node, previous, false, a.skip(k), b.skip(k));
            let o = k + publish_effect(node, previous, false, a.skip(k)).0;
            if publish_effect(node, previous, false, a.skip(k)).1 is Ok && spec_needs_cleanup(previous, next)
                == Ok::<bool, ApiErrorView>(true) {
                assert(extends(a.skip(o), b.skip(o)));
                helper::lemma_apply_prefix(previous, None, a.skip(o), b.skip(o));
            }
        }
    }
}

/// The state to be saved for a server: the input settings, the token, the
/// server's node and normalized directory, not yet synchronized.
pub open spec fn next_state(server: ServerInfo, input: ServerInputView, token: Seq<char>) -> ServerStateView {
    ServerStateView {
        server_id: server.id,
        settings: input,
        token,
        node_id: server.node_id,
        server_dir: normalized_dir(server.dir@),
        synced: false,
    }
}

/// The last step of a save: the definition published with the route enabled
/// exactly when the settings and the panel's server are, then the state saved
/// marked synchronized.
pub open spec fn finish_effect(server: ServerInfo, node: NodeInfo, next: ServerStateView, calls: Seq<HostCall>) -> (
    int,
    Result<(), ApiErrorView>,
    bool,
) {
    let published = publish_effect(node, next, next.settings.enabled && server.enabled, calls);
    chain(
        published,
        store::save_effect(server.id, ServerStateView { synced: true, ..next }, calls.skip(published.0)),
    )
}

fn finish_settings<H: HostApi>(host: &mut Host<H>, server: &ServerInfo, node: &NodeInfo, next: &ServerState) -> (r:
    Result<(), ApiError>)
    ensures
        extends(old(host)@, final(host)@),
        carried_out(finish_effect(*server, *node, next@, made(old(host)@, final(host)@)), made(old(host)@, final(host)@), r),
        r matches Err(e) ==> update_failure(e@),
        saves_carry(final(host)@, old(host)@.len() as int, next.token@),
        r is Err && !ends_with_save(final(host)@, old(host)@.len() as int) ==> uploads_disabled(final(host)@, old(host)@.len() as int),
        r is Err ==> store::nothing_synced(final(host)@, old(host)@.len() as int),
{
    let ghost start = host@;
    let published = publish_server(host, node, next, next.settings.enabled && server.enabled);
    let ghost mid = host@;
    match published {
        Ok(()) => {},
        Err(e) => return Err(e),
    }
    let mut done = next.duplicate();
    done.synced = true;
    assert(done@ == ServerStateView { synced: true, ..next@ });
    let r = store::save_server_state(host, server.id, &done);
    proof {
        crate::host_api::lemma_prefix_made(start, mid, host@);
        lemma_publish_prefix(*node, next@, next.settings.enabled && server.enabled, made(start, mid), made(start, host@));
        crate::host_api::lemma_made_compose(start, mid, host@);
    }
    r
}

/// The game configuration applied when it is managed and enabled, then the save
/// finished.
pub open spec fn configure_effect(
    server: ServerInfo,
    node: NodeInfo,
    url: Seq<char>,
    next: ServerStateView,
    calls: Seq<HostCall>,
) -> (int, Result<(), ApiErrorView>, bool) {
    if next.settings.manage_game_config && next.settings.enabled {
        let applied = helper::apply_effect(next, Some(url), calls);
        chain(applied, finish_effect(server, node, next, calls.skip(applied.0)))
    } else {
        finish_effect(server, node, next, calls)
    }
}

fn configure_and_finish<H: HostApi>(
    host: &mut Host<H>,
    server: &ServerInfo,
    node: &NodeInfo,
    url: &str,
    next: &ServerState,
) -> (r: Result<(), ApiError>)
    ensures
        extends(old(host)@, final(host)@),
        carried_out(configure_effect(*server, *node, url@, next@, made(old(host)@, final(host)@)), made(old(host)@, final(host)@), r),
        r matches Err(e) ==> update_failure(e@),
        saves_carry(final(host)@, old(host)@.len() as int, next.token@),
        r is Err && !ends_with_save(final(host)@, old(host)@.len() as int) ==> uploads_disabled(final(host)@, old(host)@.len() as int),
        r is Err ==> store::nothing_synced(final(host)@, old(host)@.len() as int),
{
    if next.settings.manage_game_config && next.settings.enabled {
        let ghost start = host@;
        let applied = helper::apply(host, next, Some(url));
        let ghost mid = host@;
        match applied {
            Ok(()) => {},
            Err(e) => return Err(e),
        }
        let r = finish_settings(host, server, node, next);
        proof {
            crate::host_api::lemma_prefix_made(start, mid, host@);
            helper::lemma_apply_prefix(next@, Some(url@), made(start, mid), made(start, host@));
            crate::host_api::lemma_made_compose(start, mid, host@);
        }
        r
    } else {
        finish_settings(host, server, node, next)
    }
}

/// The definition published with its route disabled, then the game
/// configuration and the rest of the save.
pub open spec fn disabled_effect(
    server: ServerInfo,
    node: NodeInfo,
    url: Seq<char>,
    next: ServerStateView,
    calls: Seq<HostCall>,
) -> (int, Result<(), ApiErrorView>, bool) {
    let published = publish_effect(node, next, false, calls);
    chain(published, configure_effect(server, node, url, next, calls.skip(published.0)))
}

fn publish_disabled<H: HostApi>(
    host: &mut Host<H>,
    server: &ServerInfo,
    node: &NodeInfo,
    url: &str,
    next: &ServerState,
) -> (r: Result<(), ApiError>)
    ensures
        extends(old(host)@, final(host)@),
        carried_out(disabled_effect(*server, *node, url@, next@, made(old(host)@, final(host)@)), made(old(host)@, final(host)@), r),
        r matches Err(e) ==> update_failure(e@),
        saves_carry(final(host)@, old(host)@.len() as int, next.token@),
        r is Err && !ends_with_save(final(host)@, old(host)@.len() as int) ==> uploads_disabled(final(host)@, old(host)@.len() as int),
        r is Err ==> store::nothing_synced(final(host)@, old(host)@.len() as int),
{
    let ghost start = host@;
    let published = publish_server(host, node, next, false);
    let ghost mid = host@;
    match published {
        Ok(()) => {},
        Err(e) => return Err(e),
    }
    let r = configure_and_finish(host, server, node, url, next);
    proof {
        crate::host_api::lemma_prefix_made(start, mid, host@);
        lemma_publish_prefix(*node, next@, false, made(start, mid), made(start, host@));
        crate::host_api::lemma_made_compose(start, mid, host@);
    }
    r
}

/// The new state saved unsynchronized, then published disabled, configured and
/// finished.
pub open spec fn pending_effect(
    server: ServerInfo,
    node: NodeInfo,
    url: Seq<char>,
    next: ServerStateView,
    calls: Seq<HostCall>,
) -> (int, Result<(), ApiErrorView>, bool) {
    let saved = store::save_effect(server.id, next, calls);
    chain(saved, disabled_effect(server, node, url, next, calls.skip(saved.0)))
}

fn save_pending<H: HostApi>(
    host: &mut Host<H>,
    server: &ServerInfo,
    node: &NodeInfo,
    url: &str,
    next: &ServerState,
) -> (r: Result<(), ApiError>)
    requires
        !next.synced,
    ensures
        extends(old(host)@, final(host)@),
        carried_out(pending_effect(*server, *node, url@, next@, made(old(host)@, final(host)@)), made(old(host)@, final(host)@), r),
        r matches Err(e) ==> update_failure(e@),
        saves_carry(final(host)@, old(host)@.len() as int, next.token@),
        r is Err && !ends_with_save(final(host)@, old(host)@.len() as int) ==> uploads_disabled(final(host)@, old(host)@.len() as int),
        r is Err ==> store::nothing_synced(final(host)@, old(host)@.len() as int),
{
    let ghost start = host@;
    let saved = store::save_server_state(host, server.id, next);
    let ghost mid = host@;
    match saved {
        Ok(()) => {},
        Err(e) => return Err(e),
    }
    let r = publish_disabled(host, server, node, url, next);
    proof {
        crate::host_api::lemma_prefix_made(start, mid, host@);
        store::lemma_save_prefix(server.id, next@, made(start, mid), made(start, host@));
        crate::host_api::lemma_made_compose(start, mid, host@);
    }
    r
}

/// Applying settings once they are checked: the previous settings, if any,
/// revoked first, then the new ones saved, published and configured.
pub open spec fn settings_effect(
    server: ServerInfo,
    node: NodeInfo,
    url: Seq<char>,
    previous: Option<ServerStateView>,
    next: ServerStateView,
    calls: Seq<HostCall>,
) -> (int, Result<(), ApiErrorView>, bool) {
    match previous {
        Some(p) => {
            let revoked = revoke_effect(p, next, calls);
            chain(revoked, pending_effect(server, node, url, next, calls.skip(revoked.0)))
        },
        None => pending_effect(server, node, url, next, calls),
    }
}

fn apply_settings<H: HostApi>(
    host: &mut Host<H>,
    server: &ServerInfo,
    node: &NodeInfo,
    url: &str,
    previous: &Option<ServerState>,
    next: &ServerState,
) -> (r: Result<(), ApiError>)
    requires
        !next.synced,
        previous matches Some(p) ==> p.token@ == next.token@,
    ensures
        extends(old(host)@, final(host)@),
        carried_out(
            settings_effect(*server, *node, url@, super::sync::opt_state_view(*previous), next@, made(old(host)@, final(host)@)),
            made(old(host)@, final(host)@),
            r,
        ),
        r matches Err(e) ==> update_failure(e@),
        saves_carry(final(host)@, old(host)@.len() as int, next.token@),
        r is Err && !ends_with_save(final(host)@, old(host)@.len() as int) ==> uploads_disabled(final(host)@, old(host)@.len() as int),
        r is Err ==> store::nothing_synced(final(host)@, old(host)@.len() as int),
{
    match previous {
        Some(p) => {
            let ghost start = host@;
            let revoked = revoke_previous(host, p, next);
            let ghost mid = host@;
            match revoked {
                Ok(()) => {},
                Err(e) => return Err(e),
            }
            let r = save_pending(host, server, node, url, next);
            proof {
                crate::host_api::lemma_prefix_made(start, mid, host@);
                lemma_revoke_prefix(p@, next@, made(start, mid), made(start, host@));
                crate::host_api::lemma_made_compose(start, mid, host@);
            }
            r
        },
        None => save_pending(host, server, node, url, next),
    }
}

/// The checks on the state to be saved: a well-formed public token (for a
/// non-zero server id) and publishable paths.
pub open spec fn checked_effect(
    server: ServerInfo,
    node: NodeInfo,
    config: NodeConfigView,
    input: ServerInputView,
    previous: Option<ServerStateView>,
    token: Seq<char>,
    calls: Seq<HostCall>,
) -> (int, Result<(), ApiErrorView>, bool) {
    let next = next_state(server, input, token);
    if !(server.id != 0 && super::paths::token_ok(token)) {
        (0, Err(crate::http::internal_view("Invalid stored public token"@)), true)
    } else if !paths_ok(next) {
        (0, Err(bad_request_view("Game directory must be a relative path inside the game server"@)), true)
    } else {
        settings_effect(server, node, spec_download_url(config.public_base_url, token), previous, next, calls)
    }
}

fn check_and_apply<H: HostApi>(
    host: &mut Host<H>,
    server: &ServerInfo,
    node: &NodeInfo,
    config: &NodeConfig,
    input: ServerInput,
    previous: &Option<ServerState>,
    token: String,
) -> (r: Result<(), ApiError>)
    requires
        previous matches Some(p) ==> p.token@ == token@,
    ensures
        extends(old(host)@, final(host)@),
        carried_out(
            checked_effect(*server, *node, config@, input@, super::sync::opt_state_view(*previous), token@, made(old(host)@, final(host)@)),
            made(old(host)@, final(host)@),
            r,
        ),
        r matches Err(e) ==> update_failure(e@),
        saves_carry(final(host)@, old(host)@.len() as int, token@),
        r is Err && !ends_with_save(final(host)@, old(host)@.len() as int) ==> uploads_disabled(final(host)@, old(host)@.len() as int),
        r is Err ==> store::nothing_synced(final(host)@, old(host)@.len() as int),
{
    match server_definition(server.id, token.as_str()) {
        Ok(_) => {},
        Err(e) => return Err(e),
    }
    let next = ServerState {
        server_id: server.id,
        settings: input,
        token,
        node_id: server.node_id,
        server_dir: normalize_dir(server.dir.as_str()),
        synced: false,
    };
    assert(next@ == next_state(*server, input@, token@));
    match relative_game_root(next.server_dir.as_str(), next.settings.game_dir.as_str()) {
        Ok(_) => {},
        Err(e) => return Err(e),
    }
    let url = download_url(config, next.token.as_str());
    apply_settings(host, server, node, url.as_str(), previous, &next)
}

/// The public token: the previous one kept, or 32 lowercase hexadecimal
/// characters drawn from the host's random source; then the checks and the rest.
pub open spec fn drawn_effect(
    server: ServerInfo,
    node: NodeInfo,
    config: NodeConfigView,
    input: ServerInputView,
    previous: Option<ServerStateView>,
    calls: Seq<HostCall>,
) -> (int, Result<(), ApiErrorView>, bool) {
    match previous {
        Some(p) => checked_effect(server, node, config, input, previous, p.token, calls),
        None => match calls[0] {
            HostCall::RandomString { length, charset, answer } => {
                let asked = length == 32 && charset == Some("0123456789abcdef"@);
                match answer {
                    Ok(token) => chain(
                        (1, Ok(()), asked),
                        checked_effect(server, node, config, input, previous, token@, calls.skip(1)),
                    ),
                    Err(_) => (1, Err(node_unavailable_view()), asked),
                }
            },
            _ => (1, Err(node_unavailable_view()), false),
        },
    }
}

fn draw_and_apply<H: HostApi>(
    host: &mut Host<H>,
    server: &ServerInfo,
    node: &NodeInfo,
    config: &NodeConfig,
    input: ServerInput,
    previous: &Option<ServerState>,
) -> (r: Result<(), ApiError>)
    ensures
        extends(old(host)@, final(host)@),
        carried_out(
            drawn_effect(*server, *node, config@, input@, super::sync::opt_state_view(*previous), made(old(host)@, final(host)@)),
            made(old(host)@, final(host)@),
            r,
        ),
        r matches Err(e) ==> update_failure(e@),
        previous matches Some(p) ==> saves_carry(final(host)@, old(host)@.len() as int, p.token@),
        r is Err && !ends_with_save(final(host)@, old(host)@.len() as int) ==> uploads_disabled(final(host)@, old(host)@.len() as int),
        r is Err ==> store::nothing_synced(final(host)@, old(host)@.len() as int),
{
    match previous {
        Some(state) => check_and_apply(host, server, node, config, input, previous, state.token.clone()),
        None => {
            let ghost start = host@;
            let drawn = host.random_string(32, Some("0123456789abcdef"));
            let ghost mid = host@;
            match drawn {
                Ok(token) => {
                    let r = check_and_apply(host, server, node, config, input, previous, token);
                    proof {
                        crate::host_api::lemma_prefix_made(start, mid, host@);
                        crate::host_api::lemma_made_compose(start, mid, host@);
                        assert(made(start, host@)[0] == made(start, mid)[0]);
                    }
                    r
                },
                Err(e) => Err(ApiError::from_host(e)),
            }
        },
    }
}

/// The node's readiness checked when the settings are enabled, then the token
/// and the rest.
pub open spec fn ready_effect(
    server: ServerInfo,
    node: NodeInfo,
    config: NodeConfigView,
    input: ServerInputView,
    previous: Option<ServerStateView>,
    calls: Seq<HostCall>,
) -> (int, Result<(), ApiErrorView>, bool) {
    if input.enabled {
        let read = store::status_key(calls[0], server.node_id);
        match store::status_answer(calls[0]) {
            Err(e) => (1, Err(e), read),
            Ok(status) => chain(
                (1, readiness(status.status, config.public_base_url), read),
                drawn_effect(server, node, config, input, previous, calls.skip(1)),
            ),
        }
    } else {
        drawn_effect(server, node, config, input, previous, calls)
    }
}

fn ready_and_apply<H: HostApi>(
    host: &mut Host<H>,
    server: &ServerInfo,
    node: &NodeInfo,
    config: &NodeConfig,
    input: ServerInput,
    previous: &Option<ServerState>,
) -> (r: Result<(), ApiError>)
    ensures
        extends(old(host)@, final(host)@),
        carried_out(
            ready_effect(*server, *node, config@, input@, super::sync::opt_state_view(*previous), made(old(host)@, final(host)@)),
            made(old(host)@, final(host)@),
            r,
        ),
        r matches Err(e) ==> update_failure(e@),
        previous matches Some(p) ==> saves_carry(final(host)@, old(host)@.len() as int, p.token@),
        r is Err && !ends_with_save(final(host)@, old(host)@.len() as int) ==> uploads_disabled(final(host)@, old(host)@.len() as int),
        r is Err ==> store::nothing_synced(final(host)@, old(host)@.len() as int),
{
    if input.enabled {
        let ghost start = host@;
        let ready = ensure_node_ready(host, server.node_id, config);
        let ghost mid = host@;
        match ready {
            Ok(()) => {},
            Err(e) => return Err(e),
        }
        let r = draw_and_apply(host, server, node, config, input, previous);
        proof {
            crate::host_api::lemma_prefix_made(start, mid, host@);
            crate::host_api::lemma_made_compose(start, mid, host@);
            assert(made(start, host@)[0] == made(start, mid)[0]);
        }
        r
    } else {
        draw_and_apply(host, server, node, config, input, previous)
    }
}

/// An unsupported game: a stored previous state is saved unsynchronized and its
/// definition published disabled, then the game is refused; without a previous
/// state nothing is written.
pub open spec fn unsupported_effect(server: ServerInfo, previous: Option<ServerStateView>, calls: Seq<HostCall>) -> (
    int,
    Result<(), ApiErrorView>,
    bool,
) {
    match previous {
        None => (0, Err(unsupported_game_view()), true),
        Some(p) => {
            let pending = ServerStateView { synced: false, ..p };
            let saved = store::save_effect(server.id, pending, calls);
            match saved.1 {
                Err(e) => saved,
                Ok(()) => {
                    let looked = saved.2 && node_setup::node_read(calls[saved.0], p.node_id);
                    match node_setup::node_answer(calls[saved.0]) {
                        Err(e) => (saved.0 + 1, Err(e), looked),
                        Ok(node) => {
                            let published = publish_effect(node, pending, false, calls.skip(saved.0 + 1));
                            let n = saved.0 + 1 + published.0;
                            match published.1 {
                                Err(e) => (n, Err(e), looked && published.2),
                                Ok(()) => (n, Err(unsupported_game_view()), looked && published.2),
                            }
                        },
                    }
                },
            }
        },
    }
}

fn refuse_unsupported<H: HostApi>(host: &mut Host<H>, server: &ServerInfo, previous: Option<ServerState>) -> (r:
    Result<(), ApiError>)
    ensures
        extends(old(host)@, final(host)@),
        carried_out(
            unsupported_effect(*server, super::sync::opt_state_view(previous), made(old(host)@, final(host)@)),
            made(old(host)@, final(host)@),
            r,
        ),
        r matches Err(e) ==> update_failure(e@),
        previous matches Some(p) ==> saves_carry(final(host)@, old(host)@.len() as int, p.token@),
        uploads_disabled(final(host)@, old(host)@.len() as int),
        r is Err ==> store::nothing_synced(final(host)@, old(host)@.len() as int),
{
    match previous {
        Some(previous) => {
            let ghost start = host@;
            let ghost p = previous@;
            let mut previous = previous;
            previous.synced = false;
            assert(previous@ == ServerStateView { synced: false, ..p });
            let saved = store::save_server_state(host, server.id, &previous);
            let ghost s1 = host@;
            match saved {
                Ok(()) => {},
                Err(e) => return Err(e),
            }
            let node = node_setup::get_node(host, previous.node_id);
            let ghost s2 = host@;
            proof {
                crate::host_api::lemma_prefix_made(start, s1, s2);
                store::lemma_save_prefix(server.id, previous@, made(start, s1), made(start, s2));
                crate::host_api::lemma_made_compose(start, s1, s2);
                assert(made(start, s2)[made(start, s1).len() as int] == made(s1, s2)[0]);
            }
            let node = match node {
                Ok(node) => node,
                Err(e) => return Err(e),
            };
            let published = publish_server(host, &node, &previous, false);
            proof {
                crate::host_api::lemma_prefix_made(start, s2, host@);
                crate::host_api::lemma_made_compose(start, s2, host@);
                crate::host_api::lemma_prefix_made(start, s1, host@);
                crate::host_api::lemma_made_compose(s1, s2, host@);
                crate::host_api::lemma_made_compose(start, s1, host@);
                store::lemma_save_prefix(server.id, previous@, made(start, s1), made(start, host@));
                assert(made(start, host@)[made(start, s1).len() as int] == made(s1, s2)[0]);
                assert(made(start, host@).skip(made(start, s2).len() as int) == made(s2, host@));
            }
            match published {
                Ok(()) => {},
                Err(e) => return Err(e),
            }
            Err(ApiError::bad_request("FastDL only supports GoldSource and Source games"))
        },
        None => Err(ApiError::bad_request("FastDL only supports GoldSource and Source games")),
    }
}

/// What saving a server's settings does, read from its calls. Input that fails
/// validation is refused before any call. Otherwise the server's stored state and
/// its game's engine are read; an unsupported game revokes a stored previous
/// state and is refused. For a supported game the node and its settings are
/// read, the node's readiness checked when the settings are enabled, the token
/// kept or drawn, and the settings applied: each step only after the previous
/// one succeeded.
pub open spec fn update_effect(server: ServerInfo, input: ServerInputView, calls: Seq<HostCall>) -> (
    int,
    Result<(), ApiErrorView>,
    bool,
) {
    if !server_input_ok(input.game_dir) {
        (0, Err(input_refusal(input.game_dir)), true)
    } else {
        let read = store::state_key(calls[0], store::KEY_SERVER_STATE@, crate::host_api::server_scope(server.id));
        match store::state_answer(calls[0]) {
            Err(e) => (1, Err(e), read),
            Ok(stored) => {
                let previous = super::sync::opt_state_view(stored);
                let asked = read && engine_key(calls[1], server.game_id@);
                match engine_answer(calls[1]) {
                    Err(e) => (2, Err(e), asked),
                    Ok(None) => {
                        let refused = unsupported_effect(server, previous, calls.skip(2));
                        (2 + refused.0, refused.1, asked && refused.2)
                    },
                    Ok(Some(engine)) => {
                        let looked = asked && node_setup::node_read(calls[2], server.node_id);
                        match node_setup::node_answer(calls[2]) {
                            Err(e) => (3, Err(e), looked),
                            Ok(node) => {
                                let loaded = looked && store::config_key(calls[3], server.node_id);
                                match store::config_answer(calls[3]) {
                                    Err(e) => (4, Err(e), loaded),
                                    Ok(config) => {
                                        let rest = ready_effect(
                                            server,
                                            node,
                                            config,
                                            ServerInputView { engine, ..input },
                                            previous,
                                            calls.skip(4),
                                        );
                                        (4 + rest.0, rest.1, loaded && rest.2)
                                    },
                                }
                            },
                        }
                    },
                }
            },
        }
    }
}

/// Saves and publishes a server's settings. The route stays disabled until the
/// game configuration and publication both succeed; only then is it marked
/// synchronized and enabled (when the panel's server is enabled). A failure
/// saves nothing as synchronized; unless the failing step was that last save,
/// every definition it published has its route disabled; and every state it
/// saves keeps the public token of the state stored before.
pub fn update_server<H: HostApi>(host: &mut Host<H>, server: &ServerInfo, input: ServerInput) -> (r:
    Result<(), ApiError>)
    ensures
        !relative_ok(input.game_dir@, true) ==> fails_with(
            r,
            bad_request_view("Game directory must be a relative path inside the game server"@),
        ),
        relative_ok(input.game_dir@, true) && !server_input_ok(input.game_dir@) ==> fails_with(
            r,
            bad_request_view("Internal server directories cannot be used as a game directory"@),
        ),
        r matches Err(e) ==> update_failure(e@),
        r is Err ==> store::nothing_synced(final(host)@, old(host)@.len() as int),
        r is Err && !ends_with_save(final(host)@, old(host)@.len() as int) ==> uploads_disabled(
            final(host)@,
            old(host)@.len() as int,
        ),
        made(old(host)@, final(host)@).len() >= 1 ==> (store::state_answer(made(old(host)@, final(host)@)[0]) matches Ok(
            Some(previous),
        ) ==> saves_carry(final(host)@, old(host)@.len() as int, previous.token@)),
        extends(old(host)@, final(host)@),
        carried_out(update_effect(*server, input@, made(old(host)@, final(host)@)), made(old(host)@, final(host)@), r),
{
    let ghost start = host@;
    let mut input = input;
    match input.validate() {
        Ok(()) => {},
        Err(e) => return Err(e),
    }
    let previous = match store::get_server_state(host, server.id) {
        Ok(previous) => previous,
        Err(e) => return Err(e),
    };
    let ghost s1 = host@;
    let engine = match game_engine(host, server) {
        Ok(Some(engine)) => engine,
        Ok(None) => {
            let ghost s2 = host@;
            let r = refuse_unsupported(host, server, previous);
            proof {
                crate::host_api::lemma_made_compose(start, s1, s2);
                crate::host_api::lemma_made_compose(s1, s2, host@);
                crate::host_api::lemma_made_compose(start, s2, host@);
                assert(made(start, host@)[0] == made(start, s1)[0]);
                assert(made(start, host@)[1] == made(s1, s2)[0]);
                assert(made(start, host@).skip(2) =~= made(s2, host@));
            }
            return r;
        },
        Err(e) => return Err(e),
    };
    let ghost s2 = host@;
    input.engine = engine;
    let node = match node_setup::get_node(host, server.node_id) {
        Ok(node) => node,
        Err(e) => return Err(e),
    };
    let ghost s3 = host@;
    let config = match store::get_config(host, server.node_id) {
        Ok(config) => config,
        Err(e) => return Err(e),
    };
    let ghost s4 = host@;
    let r = ready_and_apply(host, server, &node, &config, input, &previous);
    proof {
        crate::host_api::lemma_made_compose(start, s1, s2);
        crate::host_api::lemma_made_compose(start, s2, s3);
        crate::host_api::lemma_made_compose(start, s3, s4);
        crate::host_api::lemma_made_compose(start, s4, host@);
        crate::host_api::lemma_made_compose(s1, s2, host@);
        crate::host_api::lemma_made_compose(s2, s3, host@);
        crate::host_api::lemma_made_compose(s3, s4, host@);
        assert(made(start, host@)[0] == made(start, s1)[0]);
        assert(made(start, host@)[1] == made(s1, s2)[0]);
        assert(made(start, host@)[2] == made(s2, s3)[0]);
        assert(made(start, host@)[3] == made(s3, s4)[0]);
        assert(made(start, host@).skip(4) =~= made(s4, host@));
    }
    r
}

/// The server's own state saved marked synchronized as `next`, successfully.
pub open spec fn synced_save(call: HostCall, server: ServerInfo, next: ServerStateView) -> bool {
    &&& call matches HostCall::SaveServerState { key, entity, state, answer }
    &&& key == store::KEY_SERVER_STATE@
    &&& entity == crate::host_api::server_scope(server.id)
    &&& state == ServerStateView { synced: true, ..next }
    &&& answer is Ok
}

/// What follows a successful first step ends as the whole does.
proof fn lemma_chain_last(first: (int, Result<(), ApiErrorView>, bool), calls: Seq<HostCall>)
    requires
        first.1 is Ok,
        0 <= first.0 < calls.len(),
    ensures
        calls.skip(first.0).last() == calls.last(),
        calls.skip(first.0).len() == calls.len() - first.0,
{
}

proof fn lemma_finish_last(server: ServerInfo, node: NodeInfo, next: ServerStateView, calls: Seq<HostCall>)
    requires
        finish_effect(server, node, next, calls).1 is Ok,
        finish_effect(server, node, next, calls).2,
        calls.len() == finish_effect(server, node, next, calls).0,
    ensures
        calls.len() >= 1,
        synced_save(calls.last(), server, next),
{
    let p = publish_effect(node, next, next.settings.enabled && server.enabled, calls);
    lemma_publish_count(node, next, next.settings.enabled && server.enabled, calls);
    let rest = calls.skip(p.0);
    assert(rest[1] == calls.last());
    assert(crate::host_api::write_answer(rest[1]) is Ok);
}

proof fn lemma_publish_count(node: NodeInfo, state: ServerStateView, enabled: bool, calls: Seq<HostCall>)
    ensures
        0 <= publish_effect(node, state, enabled, calls).0 <= 1,
{
}

proof fn lemma_configure_last(server: ServerInfo, node: NodeInfo, url: Seq<char>, next: ServerStateView, calls: Seq<HostCall>)
    requires
        configure_effect(server, node, url, next, calls).1 is Ok,
        configure_effect(server, node, url, next, calls).2,
        calls.len() == configure_effect(server, node, url, next, calls).0,
    ensures
        calls.len() >= 1,
        synced_save(calls.last(), server, next),
{
    if next.settings.manage_game_config && next.settings.enabled {
        let a = helper::apply_effect(next, Some(url), calls);
        helper::lemma_apply_count(next, Some(url), calls);
        lemma_finish_last(server, node, next, calls.skip(a.0));
        lemma_chain_last(a, calls);
    } else {
        lemma_finish_last(server, node, next, calls);
    }
}

proof fn lemma_disabled_last(server: ServerInfo, node: NodeInfo, url: Seq<char>, next: ServerStateView, calls: Seq<HostCall>)
    requires
        disabled_effect(server, node, url, next, calls).1 is Ok,
        disabled_effect(server, node, url, next, calls).2,
        calls.len() == disabled_effect(server, node, url, next, calls).0,
    ensures
        calls.len() >= 1,
        synced_save(calls.last(), server, next),
{
    let p = publish_effect(node, next, false, calls);
    lemma_publish_count(node, next, false, calls);
    lemma_configure_last(server, node, url, next, calls.skip(p.0));
    lemma_chain_last(p, calls);
}

proof fn lemma_pending_last(server: ServerInfo, node: NodeInfo, url: Seq<char>, next: ServerStateView, calls: Seq<HostCall>)
    requires
        pending_effect(server, node, url, next, calls).1 is Ok,
        pending_effect(server, node, url, next, calls).2,
        calls.len() == pending_effect(server, node, url, next, calls).0,
    ensures
        calls.len() >= 1,
        synced_save(calls.last(), server, next),
{
    let s = store::save_effect(server.id, next, calls);
    lemma_disabled_last(server, node, url, next, calls.skip(s.0));
    lemma_chain_last(s, calls);
}

proof fn lemma_settings_last(
    server: ServerInfo,
    node: NodeInfo,
    url: Seq<char>,
    previous: Option<ServerStateView>,
    next: ServerStateView,
    calls: Seq<HostCall>,
)
    requires
        settings_effect(server, node, url, previous, next, calls).1 is Ok,
        settings_effect(server, node, url, previous, next, calls).2,
        calls.len() == settings_effect(server, node, url, previous, next, calls).0,
    ensures
        calls.len() >= 1,
        synced_save(calls.last(), server, next),
{
    match previous {
        Some(p) => {
            let v = revoke_effect(p, next, calls);
            lemma_revoke_count(p, next, calls);
            lemma_pending_last(server, node, url, next, calls.skip(v.0));
            lemma_chain_last(v, calls);
        },
        None => lemma_pending_last(server, node, url, next, calls),
    }
}

proof fn lemma_revoke_count(previous: ServerStateView, next: ServerStateView, calls: Seq<HostCall>)
    ensures
        revoke_effect(previous, next, calls).0 >= 0,
{
    let pending = ServerStateView { synced: false, ..previous };
    let saving = store::save_effect(next.server_id, pending, calls);
    if saving.1 is Ok {
        if node_setup::node_answer(calls[saving.0]) is Ok {
            let node = node_setup::node_answer(calls[saving.0])->Ok_0;
            lemma_publish_count(node, previous, false, calls.skip(saving.0 + 1));
            let o = saving.0 + 1 + publish_effect(node, previous, false, calls.skip(saving.0 + 1)).0;
            helper::lemma_apply_count(previous, None, calls.skip(o));
        }
    }
}

proof fn lemma_ready_last(
    server: ServerInfo,
    node: NodeInfo,
    config: NodeConfigView,
    input: ServerInputView,
    previous: Option<ServerStateView>,
    calls: Seq<HostCall>,
) -> (token: Seq<char>)
    requires
        ready_effect(server, node, config, input, previous, calls).1 is Ok,
        ready_effect(server, node, config, input, previous, calls).2,
        calls.len() == ready_effect(server, node, config, input, previous, calls).0,
    ensures
        calls.len() >= 1,
        synced_save(calls.last(), server, next_state(server, input, token)),
        previous matches Some(p) ==> token == p.token,
{
    let rest = if input.enabled { calls.skip(1) } else { calls };
    if input.enabled {
        lemma_chain_last((1, Ok(()), true), calls);
    }
    let token = match previous {
        Some(p) => p.token,
        None => match rest[0] {
            HostCall::RandomString { answer: Ok(t), .. } => t@,
            _ => arbitrary(),
        },
    };
    if previous is None {
        lemma_chain_last((1, Ok(()), true), rest);
        if input.enabled {
            assert(rest.skip(1).last() == calls.last());
        }
    }
    let checked = if previous is None { rest.skip(1) } else { rest };
    let next = next_state(server, input, token);
    lemma_settings_last(server, node, spec_download_url(config.public_base_url, token), previous, next, checked);
    token
}

/// When saving a server's settings succeeds, its last call saved the server's
/// state marked synchronized: the input settings with the engine the panel
/// reports, the server's node and normalized directory, and, when a state was
/// stored before, that state's public token.
#[verifier::rlimit(60)]
pub proof fn success_saves_synced_settings(server: ServerInfo, input: ServerInputView, calls: Seq<HostCall>)
    requires
        update_effect(server, input, calls).1 is Ok,
        update_effect(server, input, calls).2,
        calls.len() == update_effect(server, input, calls).0,
    ensures
        calls.len() >= 5,
        calls.last() matches HostCall::SaveServerState { key, entity, state, answer } && {
            &&& key == store::KEY_SERVER_STATE@ && entity == crate::host_api::server_scope(server.id)
            &&& answer is Ok && state.synced
            &&& state.server_id == server.id && state.node_id == server.node_id
            &&& state.server_dir == normalized_dir(server.dir@)
            &&& engine_answer(calls[1]) == Ok::<Option<Engine>, ApiErrorView>(Some(state.settings.engine))
            &&& state.settings == ServerInputView { engine: state.settings.engine, ..input }
            &&& store::state_answer(calls[0]) matches Ok(Some(previous)) ==> state.token == previous@.token
        },
{
    let stored = store::state_answer(calls[0])->Ok_0;
    let previous = super::sync::opt_state_view(stored);
    let engine = engine_answer(calls[1])->Ok_0->Some_0;
    let node = node_setup::node_answer(calls[2])->Ok_0;
    let config = store::config_answer(calls[3])->Ok_0;
    let shown = ServerInputView { engine, ..input };
    lemma_chain_last((4, Ok(()), true), calls);
    let token = lemma_ready_last(server, node, config, shown, previous, calls.skip(4));
}

} // verus!
