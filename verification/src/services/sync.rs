//! Publish daemon configuration and reconcile server lifecycle changes.
use vstd::prelude::*;

use crate::domain::node::NodeConfigView;
use crate::domain::server::{ServerDropInView, ServerStateView};
use crate::domain::validation::relative_ok;
use crate::domain::{DaemonConfig, Engine, NodeConfig, ServerDropIn, ServerState, SetupStatus};
use crate::host_api::{extends, made, Host, HostApi, HostCall, NodeInfo, ServerInfo, Stored};
use crate::http::{
    bad_request_view, fails_with, internal_view, node_unavailable_view, not_found_view,
    server_error_view, ApiError, ApiErrorView,
};

use super::paths::{
    absolute, relative_game_root, server_definition, spec_absolute, spec_game_root,
    spec_server_definition, token_ok, work_path_ok, CONFIG_PATH,
};
use super::{node_setup, servers, store};

verus! {

/// Everything a server definition needs to be written.
pub open spec fn drop_in_ok(node_os: Seq<char>, work_path: Seq<char>, state: ServerStateView) -> bool {
    &&& relative_ok(state.server_dir, false)
    &&& relative_ok(state.settings.game_dir, true)
    &&& work_path_ok(node_os, work_path)
    &&& state.server_id != 0
    &&& token_ok(state.token)
}

/// The definition published for a server: its token, its absolute game root, and
/// whether it is served. Compressed copies are generated only for Source games.
pub open spec fn spec_drop_in(
    node_os: Seq<char>,
    work_path: Seq<char>,
    state: ServerStateView,
    enabled: bool,
) -> ServerDropInView {
    ServerDropInView {
        token: state.token,
        root: spec_absolute(
            node_os,
            work_path,
            spec_game_root(state.server_dir, state.settings.game_dir),
        ),
        engine: state.settings.engine,
        enabled,
        autoindex: state.settings.autoindex,
        generate_bz2: state.settings.generate_bz2 && state.settings.engine == Engine::Source,
    }
}

/// A published definition carries the saved settings as they are: the token,
/// engine and directory listing of the state, the route state asked for, and
/// bz2 generation only for Source servers that asked for it.
pub proof fn definition_copies_settings(node_os: Seq<char>, work_path: Seq<char>, state: ServerStateView, enabled: bool)
    ensures
        spec_drop_in(node_os, work_path, state, enabled).autoindex == state.settings.autoindex,
        spec_drop_in(node_os, work_path, state, enabled).enabled == enabled,
        spec_drop_in(node_os, work_path, state, enabled).token == state.token,
        spec_drop_in(node_os, work_path, state, enabled).engine == state.settings.engine,
        spec_drop_in(node_os, work_path, state, enabled).generate_bz2 <==> state.settings.generate_bz2
            && state.settings.engine == Engine::Source,
{
}

/// The path and content of a server definition.
pub fn server_drop_in(node: &NodeInfo, state: &ServerState, enabled: bool) -> (r: Result<
    (String, ServerDropIn),
    ApiError,
>)
    ensures
        drop_in_ok(node.os@, node.work_path@, state@) ==> (r matches Ok(published)
            && published.0@ == spec_server_definition(state.server_id) && published.1@
            == spec_drop_in(node.os@, node.work_path@, state@, enabled)),
        !(relative_ok(state.server_dir@, false) && relative_ok(state.settings.game_dir@, true))
            ==> fails_with(
            r,
            bad_request_view("Game directory must be a relative path inside the game server"@),
        ),
        relative_ok(state.server_dir@, false) && relative_ok(state.settings.game_dir@, true)
            && !work_path_ok(node.os@, node.work_path@) ==> fails_with(
            r,
            bad_request_view("Node work directory is invalid"@),
        ),
        relative_ok(state.server_dir@, false) && relative_ok(state.settings.game_dir@, true)
            && work_path_ok(node.os@, node.work_path@) && !(state.server_id != 0 && token_ok(
            state.token@,
        )) ==> fails_with(r, internal_view("Invalid stored public token"@)),
{
    let game_root = match relative_game_root(state.server_dir.as_str(), state.settings.game_dir.as_str()) {
        Ok(root) => root,
        Err(e) => return Err(e),
    };
    let root = match absolute(node, game_root.as_str()) {
        Ok(root) => root,
        Err(e) => return Err(e),
    };
    let definition = ServerDropIn {
        token: state.token.clone(),
        root,
        engine: state.settings.engine,
        enabled,
        autoindex: state.settings.autoindex,
        generate_bz2: state.settings.generate_bz2 && state.settings.engine == Engine::Source,
    };
    let path = match server_definition(state.server_id, state.token.as_str()) {
        Ok(path) => path,
        Err(e) => return Err(e),
    };
    Ok((path, definition))
}

/// Why a server definition cannot be written, checked in the order the paths,
/// the node's work directory and the stored token are used.
pub open spec fn drop_in_outcome(node_os: Seq<char>, work_path: Seq<char>, state: ServerStateView) -> Result<
    (),
    ApiErrorView,
> {
    if !(relative_ok(state.server_dir, false) && relative_ok(state.settings.game_dir, true)) {
        Err(bad_request_view("Game directory must be a relative path inside the game server"@))
    } else if !work_path_ok(node_os, work_path) {
        Err(bad_request_view("Node work directory is invalid"@))
    } else if !(state.server_id != 0 && token_ok(state.token)) {
        Err(internal_view("Invalid stored public token"@))
    } else {
        Ok(())
    }
}

/// Errors a publication can answer: an unpublishable definition or a failed upload.
pub open spec fn publish_failure(e: ApiErrorView) -> bool {
    ||| e == bad_request_view("Game directory must be a relative path inside the game server"@)
    ||| e == bad_request_view("Node work directory is invalid"@)
    ||| e == internal_view("Invalid stored public token"@)
    ||| e == node_unavailable_view()
}

/// A publication: an unpublishable definition uploads nothing; otherwise the
/// definition is uploaded once to the server's definition file on the node.
pub open spec fn publication(
    node: NodeInfo,
    state: ServerStateView,
    enabled: bool,
    calls: Seq<HostCall>,
    r: Result<(), ApiError>,
) -> bool {
    match drop_in_outcome(node.os@, node.work_path@, state) {
        Err(v) => calls.len() == 0 && fails_with(r, v),
        Ok(()) => calls.len() == 1 && (calls[0] matches HostCall::UploadServerDefinition {
            node_id,
            path,
            definition,
            answer,
        } && node_id == node.id && path == spec_server_definition(state.server_id) && definition
            == spec_drop_in(node.os@, node.work_path@, state, enabled) && store::written(answer, r)),
    }
}

/// A publication, read from its calls (see [`publication`]).
pub open spec fn publish_effect(node: NodeInfo, state: ServerStateView, enabled: bool, calls: Seq<HostCall>) -> (
    int,
    Result<(), ApiErrorView>,
    bool,
) {
    match drop_in_outcome(node.os@, node.work_path@, state) {
        Err(v) => (0, Err(v), true),
        Ok(()) => (
            1,
            store::write_result(calls[0]),
            calls[0] matches HostCall::UploadServerDefinition { node_id, path, definition, .. }
                && node_id == node.id && path == spec_server_definition(state.server_id)
                && definition == spec_drop_in(node.os@, node.work_path@, state, enabled),
        ),
    }
}

/// A publication's effect depends only on the calls it made.
pub proof fn lemma_publish_prefix(node: NodeInfo, state: ServerStateView, enabled: bool, a: Seq<HostCall>, b: Seq<HostCall>)
    requires
        extends(a, b),
        a.len() >= publish_effect(node, state, enabled, a).0,
    ensures
        publish_effect(node, state, enabled, b) == publish_effect(node, state, enabled, a),
{
    if drop_in_outcome(node.os@, node.work_path@, state) is Ok {
        assert(b[0] == a[0]);
    }
}

/// Publishes a server definition; `enabled == false` revokes the public route.
/// A definition that cannot be written fails with its reason before anything is
/// uploaded; otherwise only the upload can fail.
pub fn publish_server<H: HostApi>(host: &mut Host<H>, node: &NodeInfo, state: &ServerState, enabled: bool) -> (r:
    Result<(), ApiError>)
    ensures
        !drop_in_ok(node.os@, node.work_path@, state@) ==> r is Err,
        drop_in_outcome(node.os@, node.work_path@, state@) matches Err(v) ==> fails_with(r, v),
        drop_in_outcome(node.os@, node.work_path@, state@) is Ok && r is Err ==> fails_with(
            r,
            node_unavailable_view(),
        ),
        r matches Err(e) ==> publish_failure(e@),
        extends(old(host)@, final(host)@),
        publication(*node, state@, enabled, made(old(host)@, final(host)@), r),
        made(old(host)@, final(host)@).len() == publish_effect(*node, state@, enabled, made(old(host)@, final(host)@)).0,
        publish_effect(*node, state@, enabled, made(old(host)@, final(host)@)).2,
        store::result_view(r) == publish_effect(*node, state@, enabled, made(old(host)@, final(host)@)).1,
        store::nothing_synced(final(host)@, old(host)@.len() as int),
{
    let (path, definition) = match server_drop_in(node, state, enabled) {
        Ok(published) => published,
        Err(e) => {
            assert(old(host)@.subrange(0, old(host)@.len() as int) =~= old(host)@);
            assert(made(old(host)@, final(host)@) =~= Seq::<HostCall>::empty());
            return Err(e);
        },
    };
    store::host_done(host.upload_server_definition(node.id, path.as_str(), &definition))
}

pub struct DaemonConfigView {
    pub version: u32,
    pub listen: Seq<char>,
    pub servers_dir: Seq<char>,
    pub cache_dir: Seq<char>,
}

impl View for DaemonConfig {
    type V = DaemonConfigView;

    open spec fn view(&self) -> DaemonConfigView {
        DaemonConfigView {
            version: self.version,
            listen: self.listen@,
            servers_dir: self.servers_dir@,
            cache_dir: self.cache_dir@,
        }
    }
}

/// The daemon's main configuration: the listen address and the relative
/// definition and cache directories. The public URL stays in the panel.
pub open spec fn spec_daemon_config(config: NodeConfigView) -> DaemonConfigView {
    DaemonConfigView {
        version: 1,
        listen: config.listen,
        servers_dir: "servers.d"@,
        cache_dir: "cache"@,
    }
}

pub fn daemon_config(config: &NodeConfig) -> (r: DaemonConfig)
    ensures
        r@ == spec_daemon_config(config@),
{
    DaemonConfig {
        version: 1,
        listen: config.listen.clone(),
        servers_dir: "servers.d".to_owned(),
        cache_dir: "cache".to_owned(),
    }
}

pub fn write_node_config<H: HostApi>(host: &mut Host<H>, node_id: u64, config: &NodeConfig) -> (r: Result<
    (),
    ApiError,
>)
    ensures
        r matches Err(e) ==> e@ == crate::http::node_unavailable_view(),
        store::one_call(old(host)@, final(host)@),
        made(old(host)@, final(host)@)[0] matches HostCall::UploadDaemonConfig {
            node_id: n,
            path,
            config: uploaded,
            answer,
        } && n == node_id && path == CONFIG_PATH@ && uploaded == spec_daemon_config(config@)
            && store::written(answer, r),
{
    let daemon = daemon_config(config);
    store::host_done(host.upload_daemon_config(node_id, CONFIG_PATH, &daemon))
}

/// Servers whose publication a deletion revokes: the stored state, and the node
/// registration when it names another node than the stored state.
pub open spec fn spec_deletion_candidates(
    stored: Option<ServerStateView>,
    registered: Option<ServerStateView>,
) -> Seq<ServerStateView> {
    let base = match stored {
        Some(s) => seq![s],
        None => Seq::empty(),
    };
    match registered {
        Some(r) => if stored matches Some(s) && s.node_id == r.node_id {
            base
        } else {
            base.push(r)
        },
        None => base,
    }
}

pub open spec fn opt_state_view(s: Option<ServerState>) -> Option<ServerStateView> {
    match s {
        Some(v) => Some(v@),
        None => None,
    }
}

pub open spec fn states_view(v: Seq<ServerState>) -> Seq<ServerStateView> {
    v.map_values(|s: ServerState| s@)
}

pub fn deletion_candidates(stored: Option<ServerState>, registered: Option<ServerState>) -> (r: Vec<
    ServerState,
>)
    ensures
        states_view(r@) == spec_deletion_candidates(
            opt_state_view(stored),
            opt_state_view(registered),
        ),
{
    let stored_node: Option<u64> = match &stored {
        Some(s) => Some(s.node_id),
        None => None,
    };
    let mut candidates: Vec<ServerState> = Vec::new();
    match stored {
        Some(s) => candidates.push(s),
        None => {},
    }
    match registered {
        Some(registration) => {
            let same_node = match stored_node {
                Some(node_id) => node_id == registration.node_id,
                None => false,
            };
            if !same_node {
                candidates.push(registration);
            }
        },
        None => {},
    }
    assert(states_view(candidates@) =~= spec_deletion_candidates(
        opt_state_view(stored),
        opt_state_view(registered),
    ));
    candidates
}

/// Revoking one publication of a deleted server, read from its calls: its node
/// looked up, its definition published disabled on that node, then its
/// registration on that node deleted.
pub open spec fn revocation_effect(server_id: u64, target: ServerStateView, calls: Seq<HostCall>) -> (
    int,
    Result<(), ApiErrorView>,
    bool,
) {
    let looked = node_setup::node_read(calls[0], target.node_id);
    match node_setup::node_answer(calls[0]) {
        Err(e) => (1, Err(e), looked),
        Ok(node) => {
            let published = publish_effect(node, target, false, calls.skip(1));
            let n = 1 + published.0;
            match published.1 {
                Err(e) => (n, Err(e), looked && published.2),
                Ok(()) => (
                    n + 1,
                    store::write_result(calls[n]),
                    looked && published.2 && store::record_delete(
                        calls[n],
                        store::spec_registration_key(server_id),
                        crate::host_api::node_scope(target.node_id),
                    ),
                ),
            }
        },
    }
}

/// A revocation's effect depends only on the calls it made.
proof fn lemma_revocation_prefix(server_id: u64, target: ServerStateView, a: Seq<HostCall>, b: Seq<HostCall>)
    requires
        extends(a, b),
        a.len() >= revocation_effect(server_id, target, a).0,
    ensures
        revocation_effect(server_id, target, b) == revocation_effect(server_id, target, a),
{
    assert(b[0] == a[0]);
    if node_setup::node_answer(a[0]) is Ok {
        let node = node_setup::node_answer(a[0])->Ok_0;
        assert(extends(a.skip(1), b.skip(1)));
        lemma_publish_prefix(node, target, false, a.skip(1), b.skip(1));
        let n = 1 + publish_effect(node, target, false, a.skip(1)).0;
        if publish_effect(node, target, false, a.skip(1)).1 is Ok {
            assert(b[n] == a[n]);
        }
    }
}

/// Revoking the given publications in order, then deleting the server's stored
/// state, each step only after the previous one succeeded.
pub open spec fn revocations_effect(server_id: u64, targets: Seq<ServerStateView>, calls: Seq<HostCall>) -> (
    int,
    Result<(), ApiErrorView>,
    bool,
)
    decreases targets.len(),
{
    if targets.len() == 0 {
        (
            1,
            store::write_result(calls[0]),
            store::record_delete(calls[0], store::KEY_SERVER_STATE@, crate::host_api::server_scope(server_id)),
        )
    } else {
        let first = revocation_effect(server_id, targets[0], calls);
        servers::chain(first, revocations_effect(server_id, targets.skip(1), calls.skip(first.0)))
    }
}

fn revoke_one<H: HostApi>(host: &mut Host<H>, server_id: u64, target: &ServerState) -> (r: Result<(), ApiError>)
    ensures
        extends(old(host)@, final(host)@),
        servers::carried_out(revocation_effect(server_id, target@, made(old(host)@, final(host)@)), made(old(host)@, final(host)@), r),
        r matches Err(e) ==> servers::update_failure(e@),
{
    let ghost start = host@;
    let node = match node_setup::get_node(host, target.node_id) {
        Ok(node) => node,
        Err(e) => return Err(e),
    };
    let ghost s1 = host@;
    let published = publish_server(host, &node, target, false);
    let ghost s2 = host@;
    proof {
        crate::host_api::lemma_made_compose(start, s1, s2);
        assert(made(start, s2)[0] == made(start, s1)[0]);
        assert(made(start, s2).skip(1) =~= made(s1, s2));
    }
    match published {
        Ok(()) => {},
        Err(e) => return Err(e),
    }
    let r = store::delete_registration(host, target.node_id, server_id);
    proof {
        crate::host_api::lemma_made_compose(start, s2, host@);
        crate::host_api::lemma_made_compose(s1, s2, host@);
        assert(made(start, host@)[0] == made(start, s1)[0]);
        assert(made(start, host@).skip(1).subrange(0, made(s1, s2).len() as int) =~= made(s1, s2));
        lemma_publish_prefix(node, target@, false, made(s1, s2), made(start, host@).skip(1));
        assert(made(start, host@)[1 + made(s1, s2).len() as int] == made(s2, host@)[0]);
    }
    r
}

fn revoke_from<H: HostApi>(host: &mut Host<H>, server_id: u64, targets: &Vec<ServerState>, i: usize) -> (r: Result<
    (),
    ApiError,
>)
    requires
        i <= targets.len(),
    ensures
        extends(old(host)@, final(host)@),
        servers::carried_out(
            revocations_effect(server_id, states_view(targets@).skip(i as int), made(old(host)@, final(host)@)),
            made(old(host)@, final(host)@),
            r,
        ),
        r matches Err(e) ==> servers::update_failure(e@),
    decreases targets.len() - i,
{
    let ghost rest = states_view(targets@).skip(i as int);
    if i == targets.len() {
        assert(rest.len() == 0);
        return store::delete_server_state(host, server_id);
    }
    let ghost start = host@;
    let revoked = revoke_one(host, server_id, &targets[i]);
    let ghost mid = host@;
    assert(rest[0] == targets[i as int]@);
    assert(rest.skip(1) =~= states_view(targets@).skip(i + 1));
    match revoked {
        Ok(()) => {},
        Err(e) => return Err(e),
    }
    let r = revoke_from(host, server_id, targets, i + 1);
    proof {
        crate::host_api::lemma_prefix_made(start, mid, host@);
        lemma_revocation_prefix(server_id, targets[i as int]@, made(start, mid), made(start, host@));
        crate::host_api::lemma_made_compose(start, mid, host@);
    }
    r
}

/// What deleting a server does, read from its calls: its stored state is read
/// and, when the event names a node, its registration there; then the
/// publication of each state found is revoked on its node, and only after all of
/// them the server's stored state is deleted. Nothing is run on a node.
pub open spec fn deleted_effect(server_id: u64, event_node_id: u64, calls: Seq<HostCall>) -> (
    int,
    Result<(), ApiErrorView>,
    bool,
) {
    let read = store::state_key(calls[0], store::KEY_SERVER_STATE@, crate::host_api::server_scope(server_id));
    match store::state_answer(calls[0]) {
        Err(e) => (1, Err(e), read),
        Ok(stored) => if event_node_id == 0 {
            let rest = revocations_effect(
                server_id,
                spec_deletion_candidates(opt_state_view(stored), None),
                calls.skip(1),
            );
            (1 + rest.0, rest.1, read && rest.2)
        } else {
            let asked = read && store::state_key(
                calls[1],
                store::spec_registration_key(server_id),
                crate::host_api::node_scope(event_node_id),
            );
            match store::state_answer(calls[1]) {
                Err(e) => (2, Err(e), asked),
                Ok(registered) => {
                    let rest = revocations_effect(
                        server_id,
                        spec_deletion_candidates(opt_state_view(stored), opt_state_view(registered)),
                        calls.skip(2),
                    );
                    (2 + rest.0, rest.1, asked && rest.2)
                },
            }
        },
    }
}

proof fn lemma_revocation_count(server_id: u64, target: ServerStateView, calls: Seq<HostCall>)
    ensures
        revocation_effect(server_id, target, calls).0 >= 1,
{
    if node_setup::node_answer(calls[0]) is Ok {
        let node = node_setup::node_answer(calls[0])->Ok_0;
        assert(publish_effect(node, target, false, calls.skip(1)).0 >= 0);
    }
}

proof fn lemma_revocations_count(server_id: u64, targets: Seq<ServerStateView>, calls: Seq<HostCall>)
    ensures
        revocations_effect(server_id, targets, calls).0 >= 1,
    decreases targets.len(),
{
    if targets.len() > 0 {
        let first = revocation_effect(server_id, targets[0], calls);
        lemma_revocation_count(server_id, targets[0], calls);
        lemma_revocations_count(server_id, targets.skip(1), calls.skip(first.0));
    }
}

proof fn lemma_revocations_last(server_id: u64, targets: Seq<ServerStateView>, calls: Seq<HostCall>)
    requires
        revocations_effect(server_id, targets, calls).1 is Ok,
        revocations_effect(server_id, targets, calls).2,
        calls.len() == revocations_effect(server_id, targets, calls).0,
    ensures
        calls.len() >= 1,
        store::record_delete(calls.last(), store::KEY_SERVER_STATE@, crate::host_api::server_scope(server_id)),
        crate::host_api::write_answer(calls.last()) is Ok,
    decreases targets.len(),
{
    if targets.len() > 0 {
        let first = revocation_effect(server_id, targets[0], calls);
        lemma_revocation_count(server_id, targets[0], calls);
        lemma_revocations_count(server_id, targets.skip(1), calls.skip(first.0));
        lemma_revocations_last(server_id, targets.skip(1), calls.skip(first.0));
        assert(calls.skip(first.0).last() == calls.last());
    }
}

/// A server's deletion that succeeds ends by deleting the server's stored state,
/// after the publications it found were revoked.
pub proof fn deletion_ends_with_state_removal(server_id: u64, event_node_id: u64, calls: Seq<HostCall>)
    requires
        deleted_effect(server_id, event_node_id, calls).1 is Ok,
        deleted_effect(server_id, event_node_id, calls).2,
        calls.len() == deleted_effect(server_id, event_node_id, calls).0,
    ensures
        calls.len() >= 2,
        store::record_delete(calls.last(), store::KEY_SERVER_STATE@, crate::host_api::server_scope(server_id)),
        crate::host_api::write_answer(calls.last()) is Ok,
{
    let stored = store::state_answer(calls[0])->Ok_0;
    if event_node_id == 0 {
        let targets = spec_deletion_candidates(opt_state_view(stored), None);
        lemma_revocations_count(server_id, targets, calls.skip(1));
        lemma_revocations_last(server_id, targets, calls.skip(1));
        assert(calls.skip(1).last() == calls.last());
    } else {
        let registered = store::state_answer(calls[1])->Ok_0;
        let targets = spec_deletion_candidates(opt_state_view(stored), opt_state_view(registered));
        lemma_revocations_count(server_id, targets, calls.skip(2));
        lemma_revocations_last(server_id, targets, calls.skip(2));
        assert(calls.skip(2).last() == calls.last());
    }
}

/// Revokes a deleted server's publication on every node it was registered on,
/// then removes its registrations and stored state.
pub fn on_deleted<H: HostApi>(host: &mut Host<H>, server_id: u64, event_node_id: u64) -> (r: Result<
    (),
    ApiError,
>)
    ensures
        r matches Err(e) ==> servers::update_failure(e@),
        extends(old(host)@, final(host)@),
        servers::carried_out(deleted_effect(server_id, event_node_id, made(old(host)@, final(host)@)), made(old(host)@, final(host)@), r),
{
    let ghost start = host@;
    let stored = match store::get_server_state(host, server_id) {
        Ok(stored) => stored,
        Err(e) => return Err(e),
    };
    let ghost s1 = host@;
    let registered = if event_node_id == 0 {
        None
    } else {
        match store::get_registration(host, event_node_id, server_id) {
            Ok(registered) => registered,
            Err(e) => {
                proof {
                    crate::host_api::lemma_made_compose(start, s1, host@);
                    assert(made(start, host@)[0] == made(start, s1)[0]);
                    assert(made(start, host@)[1] == made(s1, host@)[0]);
                }
                return Err(e);
            },
        }
    };
    let ghost s2 = host@;
    let candidates = deletion_candidates(stored, registered);
    assert(states_view(candidates@).skip(0) =~= states_view(candidates@));
    let r = revoke_from(host, server_id, &candidates, 0);
    proof {
        crate::host_api::lemma_made_compose(start, s1, s2);
        crate::host_api::lemma_made_compose(start, s2, host@);
        crate::host_api::lemma_made_compose(s1, s2, host@);
        assert(made(start, host@)[0] == made(start, s1)[0]);
        if event_node_id != 0 {
            assert(made(start, host@)[1] == made(s1, s2)[0]);
            assert(made(start, host@).skip(2) =~= made(s2, host@));
        } else {
            assert(made(start, host@).skip(1) =~= made(s2, host@));
        }
    }
    r
}

/// The panel's server directory with `/` separators.
pub open spec fn normalized_dir(dir: Seq<char>) -> Seq<char> {
    dir.map_values(|c: char| if c == '\\' { '/' } else { c })
}

pub fn normalize_dir(dir: &str) -> (r: String)
    ensures
        r@ == normalized_dir(dir@),
{
    let chars = crate::text::chars_of(dir);
    let mut out = String::new();
    let mut i: usize = 0;
    while i < chars.len()
        invariant
            i <= chars.len(),
            out@ == normalized_dir(chars@.subrange(0, i as int)),
        decreases chars.len() - i,
    {
        let c = chars[i];
        crate::text::push_char(&mut out, if c == '\\' { '/' } else { c });
        i = i + 1;
        assert(normalized_dir(chars@.subrange(0, i as int)) =~= normalized_dir(
            chars@.subrange(0, i - 1),
        ).push(if c == '\\' { '/' } else { c }));
    }
    assert(chars@.subrange(0, chars@.len() as int) == chars@);
    out
}

/// The stored publication no longer describes the server: it moved to another
/// node or directory, or the panel disabled it.
pub open spec fn spec_publication_stale(state: ServerStateView, node_id: u64, dir: Seq<char>, enabled: bool) -> bool {
    state.node_id != node_id || state.server_dir != normalized_dir(dir) || !enabled
}

pub fn publication_stale(state: &ServerState, server: &ServerInfo) -> (r: bool)
    ensures
        r == spec_publication_stale(state@, server.node_id, server.dir@, server.enabled),
{
    let dir = normalize_dir(server.dir.as_str());
    state.node_id != server.node_id || !crate::text::eq_chars(
        &crate::text::chars_of(state.server_dir.as_str()),
        &crate::text::chars_of(dir.as_str()),
    ) || !server.enabled
}

/// Revoking a stale publication, read from its calls: the state's node looked
/// up, its definition published disabled, then the state saved unsynchronized.
pub open spec fn stale_effect(server_id: u64, state: ServerStateView, calls: Seq<HostCall>) -> (
    int,
    Result<(), ApiErrorView>,
    bool,
) {
    let looked = node_setup::node_read(calls[0], state.node_id);
    match node_setup::node_answer(calls[0]) {
        Err(e) => (1, Err(e), looked),
        Ok(node) => {
            let published = publish_effect(node, state, false, calls.skip(1));
            match published.1 {
                Err(e) => (1 + published.0, Err(e), looked && published.2),
                Ok(()) => {
                    let saved = store::save_effect(
                        server_id,
                        ServerStateView { synced: false, ..state },
                        calls.skip(1 + published.0),
                    );
                    (1 + published.0 + saved.0, saved.1, looked && published.2 && saved.2)
                },
            }
        },
    }
}

fn revoke_stale<H: HostApi>(host: &mut Host<H>, server_id: u64, state: &ServerState) -> (r: Result<
    (),
    ApiError,
>)
    ensures
        extends(old(host)@, final(host)@),
        servers::carried_out(stale_effect(server_id, state@, made(old(host)@, final(host)@)), made(old(host)@, final(host)@), r),
        r matches Err(e) ==> servers::update_failure(e@),
{
    let ghost start = host@;
    let node = match node_setup::get_node(host, state.node_id) {
        Ok(node) => node,
        Err(e) => return Err(e),
    };
    let ghost s1 = host@;
    let published = publish_server(host, &node, state, false);
    let ghost s2 = host@;
    proof {
        crate::host_api::lemma_made_compose(start, s1, s2);
        assert(made(start, s2)[0] == made(start, s1)[0]);
        assert(made(start, s2).skip(1) =~= made(s1, s2));
    }
    match published {
        Ok(()) => {},
        Err(e) => return Err(e),
    }
    let mut pending = state.duplicate();
    pending.synced = false;
    assert(pending@ == ServerStateView { synced: false, ..state@ });
    let r = store::save_server_state(host, server_id, &pending);
    proof {
        crate::host_api::lemma_made_compose(start, s2, host@);
        crate::host_api::lemma_made_compose(s1, s2, host@);
        assert(made(start, host@)[0] == made(start, s1)[0]);
        assert(made(start, host@).skip(1).subrange(0, made(s1, s2).len() as int) =~= made(s1, s2));
        lemma_publish_prefix(node, state@, false, made(s1, s2), made(start, host@).skip(1));
        assert(made(start, host@).skip(1 + made(s1, s2).len() as int) =~= made(s2, host@));
    }
    r
}

/// Re-applying a changed server's settings, read from its calls: a stale
/// publication is revoked first, then the stored settings are saved again.
pub open spec fn refreshed_effect(server_id: u64, state: ServerStateView, server: ServerInfo, calls: Seq<HostCall>) -> (
    int,
    Result<(), ApiErrorView>,
    bool,
) {
    if spec_publication_stale(state, server.node_id, server.dir@, server.enabled) {
        let revoked = stale_effect(server_id, state, calls);
        servers::chain(revoked, servers::update_effect(server, state.settings, calls.skip(revoked.0)))
    } else {
        servers::update_effect(server, state.settings, calls)
    }
}

/// What an update event does, read from its calls: the server's stored state is
/// read; without one nothing else is done. Otherwise the panel's server is looked
/// up and its settings re-applied; the result is that of the re-application.
pub open spec fn updated_effect(server_id: u64, calls: Seq<HostCall>) -> (int, Result<(), ApiErrorView>, bool) {
    let read = store::state_key(calls[0], store::KEY_SERVER_STATE@, crate::host_api::server_scope(server_id));
    match store::state_answer(calls[0]) {
        Err(e) => (1, Err(e), read),
        Ok(None) => (1, Ok(()), read),
        Ok(Some(state)) => match calls[1] {
            HostCall::GetServer { id, answer } => {
                let asked = read && id == server_id;
                match servers::server_lookup(answer) {
                    Err(e) => (2, Err(e), asked),
                    Ok(server) => {
                        let rest = refreshed_effect(server_id, state@, server, calls.skip(2));
                        (2 + rest.0, rest.1, asked && rest.2)
                    },
                }
            },
            _ => (2, Err(node_unavailable_view()), false),
        },
    }
}

/// Re-applies a changed server's settings; a stale publication is revoked and
/// marked unsynchronized first.
pub fn on_updated<H: HostApi>(host: &mut Host<H>, server_id: u64) -> (r: Result<(), ApiError>)
    ensures
        r matches Err(e) ==> servers::update_failure(e@) || e@ == not_found_view(
            "Game server not found"@,
        ),
        extends(old(host)@, final(host)@),
        servers::carried_out(updated_effect(server_id, made(old(host)@, final(host)@)), made(old(host)@, final(host)@), r),
{
    let ghost start = host@;
    let state = match store::get_server_state(host, server_id) {
        Ok(Some(state)) => state,
        Ok(None) => return Ok(()),
        Err(e) => return Err(e),
    };
    let ghost s1 = host@;
    let server = match servers::get_server(host, server_id) {
        Ok(server) => server,
        Err(e) => {
            proof {
                crate::host_api::lemma_made_compose(start, s1, host@);
                assert(made(start, host@)[0] == made(start, s1)[0]);
                assert(made(start, host@)[1] == made(s1, host@)[0]);
            }
            return Err(e);
        },
    };
    let ghost s2 = host@;
    proof {
        crate::host_api::lemma_made_compose(start, s1, s2);
        assert(made(start, s2)[0] == made(start, s1)[0]);
        assert(made(start, s2)[1] == made(s1, s2)[0]);
    }
    let r = refresh(host, server_id, &server, state);
    proof {
        crate::host_api::lemma_made_compose(start, s2, host@);
        assert(made(start, host@)[0] == made(start, s2)[0]);
        assert(made(start, host@)[1] == made(start, s2)[1]);
        assert(made(start, host@).skip(2) =~= made(s2, host@));
    }
    r
}

fn refresh<H: HostApi>(host: &mut Host<H>, server_id: u64, server: &ServerInfo, state: ServerState) -> (r: Result<
    (),
    ApiError,
>)
    ensures
        extends(old(host)@, final(host)@),
        servers::carried_out(refreshed_effect(server_id, state@, *server, made(old(host)@, final(host)@)), made(old(host)@, final(host)@), r),
        r matches Err(e) ==> servers::update_failure(e@),
{
    if publication_stale(&state, server) {
        let ghost start = host@;
        let revoked = revoke_stale(host, server_id, &state);
        let ghost mid = host@;
        match revoked {
            Ok(()) => {},
            Err(e) => return Err(e),
        }
        let r = servers::update_server(host, server, state.settings);
        proof {
            crate::host_api::lemma_prefix_made(start, mid, host@);
            lemma_stale_prefix(server_id, state@, made(start, mid), made(start, host@));
            crate::host_api::lemma_made_compose(start, mid, host@);
        }
        r
    } else {
        servers::update_server(host, server, state.settings)
    }
}

/// A stale revocation's effect depends only on the calls it made.
proof fn lemma_stale_prefix(server_id: u64, state: ServerStateView, a: Seq<HostCall>, b: Seq<HostCall>)
    requires
        extends(a, b),
        a.len() >= stale_effect(server_id, state, a).0,
    ensures
        stale_effect(server_id, state, b) == stale_effect(server_id, state, a),
{
    assert(b[0] == a[0]);
    if node_setup::node_answer(a[0]) is Ok {
        let node = node_setup::node_answer(a[0])->Ok_0;
        assert(extends(a.skip(1), b.skip(1)));
        lemma_publish_prefix(node, state, false, a.skip(1), b.skip(1));
        let k = 1 + publish_effect(node, state, false, a.skip(1)).0;
        if publish_effect(node, state, false, a.skip(1)).1 is Ok {
            assert(extends(a.skip(k), b.skip(k)));
            store::lemma_save_prefix(server_id, ServerStateView { synced: false, ..state }, a.skip(k), b.skip(k));
        }
    }
}

/// A registration whose server no longer runs on the node.
pub open spec fn spec_orphaned(server_ids: Seq<u64>, state_server_id: u64) -> bool {
    !server_ids.contains(state_server_id)
}

pub fn orphaned(servers: &Vec<ServerInfo>, server_id: u64) -> (r: bool)
    ensures
        r == spec_orphaned(servers@.map_values(|s: ServerInfo| s.id), server_id),
{
    let ghost ids = servers@.map_values(|s: ServerInfo| s.id);
    let mut i: usize = 0;
    while i < servers.len()
        invariant
            i <= servers.len(),
            ids == servers@.map_values(|s: ServerInfo| s.id),
            forall|j: int| 0 <= j < i ==> ids[j] != server_id,
        decreases servers.len() - i,
    {
        if servers[i].id == server_id {
            assert(ids[i as int] == server_id);
            return false;
        }
        i = i + 1;
    }
    assert(!ids.contains(server_id));
    true
}

/// Errors republishing a node can answer; a failed server update is attributed to
/// the server it concerns.
pub open spec fn node_apply_failure(e: ApiErrorView) -> bool {
    ||| servers::update_failure(e)
    ||| e == store::invalid_registration_view()
    ||| exists|v: ApiErrorView, name: Seq<char>|
        servers::update_failure(v) && e == #[trigger] server_error_view(v, name)
}

/// Errors synchronizing a node can answer: those of republishing it, and a
/// failed service restart.
pub open spec fn node_sync_failure(e: ApiErrorView) -> bool {
    ||| node_apply_failure(e)
    ||| e == node_setup::unsupported_node_view()
    ||| e == node_setup::restart_failed_view()
}

/// The ids of the servers the panel listed.
pub open spec fn server_ids(servers: Seq<ServerInfo>) -> Seq<u64> {
    servers.map_values(|s: ServerInfo| s.id)
}

/// Re-applying the stored settings of each listed server in order, read from the
/// calls: the server's stored state is read; a server without one is skipped;
/// otherwise the calls that follow are one complete save of its settings, and a
/// failure of that save ends the work, attributed to the server by name.
pub open spec fn servers_refreshed(servers: Seq<ServerInfo>, calls: Seq<HostCall>, r: Result<(), ApiErrorView>) -> bool
    decreases servers.len(), 1int,
{
    if servers.len() == 0 {
        calls.len() == 0 && r is Ok
    } else {
        &&& calls.len() >= 1
        &&& store::state_key(calls[0], store::KEY_SERVER_STATE@, crate::host_api::server_scope(servers[0].id))
        &&& match store::state_answer(calls[0]) {
            Err(e) => calls.len() == 1 && r == Err::<(), ApiErrorView>(e),
            Ok(None) => servers_refreshed(servers.skip(1), calls.skip(1), r),
            Ok(Some(state)) => {
                exists|n: int|
                    #![trigger calls.subrange(1, n)]
                    1 <= n <= calls.len() && server_saved(servers, state@, calls, n, r)
            },
        }
    }
}

/// The calls from 1 to `n` are one complete save of the first server's stored
/// settings, and the rest follows from its result.
pub open spec fn server_saved(
    servers: Seq<ServerInfo>,
    state: ServerStateView,
    calls: Seq<HostCall>,
    n: int,
    r: Result<(), ApiErrorView>,
) -> bool
    decreases servers.len(), 0int,
{
    let server = servers[0];
    let saved = servers::update_effect(server, state.settings, calls.subrange(1, n));
    &&& servers.len() > 0
    &&& saved.0 == n - 1
    &&& saved.2
    &&& match saved.1 {
        Err(v) => n == calls.len() && r == Err::<(), ApiErrorView>(server_error_view(v, server.name@)),
        Ok(()) => servers_refreshed(servers.skip(1), calls.skip(n), r),
    }
}

/// Cleaning up a node's registrations in order, then re-applying its servers:
/// a registration whose server still runs on the node is kept untouched; for
/// another one, its definition is first published with the route disabled and
/// only then its registration deleted; no helper runs for it.
pub open spec fn registrations_cleaned(
    node_id: u64,
    node: NodeInfo,
    servers: Seq<ServerInfo>,
    regs: Seq<(String, ServerState)>,
    calls: Seq<HostCall>,
    r: Result<(), ApiErrorView>,
) -> bool
    decreases regs.len(),
{
    if regs.len() == 0 {
        servers_refreshed(servers, calls, r)
    } else {
        let reg = regs[0];
        if !spec_orphaned(server_ids(servers), reg.1.server_id) {
            registrations_cleaned(node_id, node, servers, regs.skip(1), calls, r)
        } else {
            let published = publish_effect(node, reg.1@, false, calls);
            let n = published.0;
            &&& calls.len() >= n
            &&& published.2
            &&& match published.1 {
                Err(e) => calls.len() == n && r == Err::<(), ApiErrorView>(e),
                Ok(()) => {
                    &&& calls.len() >= n + 1
                    &&& store::record_delete(calls[n], reg.0@, crate::host_api::node_scope(node_id))
                    &&& match store::write_result(calls[n]) {
                        Err(e) => calls.len() == n + 1 && r == Err::<(), ApiErrorView>(e),
                        Ok(()) => registrations_cleaned(node_id, node, servers, regs.skip(1), calls.skip(n + 1), r),
                    }
                },
            }
        }
    }
}

/// What a registration listing gives the plugin.
pub open spec fn registrations_answer(call: HostCall) -> Result<Seq<(String, ServerState)>, ApiErrorView> {
    match call {
        HostCall::ListServerStates { answer: Ok(entries), .. } => store::registrations_outcome(entries@),
        _ => Err(node_unavailable_view()),
    }
}

/// What republishing a node does, read from its calls: the node and its settings
/// are read, the settings uploaded as the daemon configuration, the node's
/// servers listed and its registrations read; then the registrations are cleaned
/// up and the servers re-applied. Each step runs only after the previous one
/// succeeded, and `r` is the first failure or success.
pub open spec fn node_applied(node_id: u64, calls: Seq<HostCall>, r: Result<(), ApiErrorView>) -> bool {
    &&& calls.len() >= 1
    &&& node_setup::node_read(calls[0], node_id)
    &&& match node_setup::node_answer(calls[0]) {
        Err(e) => calls.len() == 1 && r == Err::<(), ApiErrorView>(e),
        Ok(node) => {
            &&& calls.len() >= 2
            &&& store::config_key(calls[1], node_id)
            &&& match store::config_answer(calls[1]) {
                Err(e) => calls.len() == 2 && r == Err::<(), ApiErrorView>(e),
                Ok(config) => {
                    &&& calls.len() >= 3
                    &&& calls[2] matches HostCall::UploadDaemonConfig { node_id: n, path, config: uploaded, .. }
                    &&& n == node_id && path == CONFIG_PATH@ && uploaded == spec_daemon_config(config)
                    &&& match store::write_result(calls[2]) {
                        Err(e) => calls.len() == 3 && r == Err::<(), ApiErrorView>(e),
                        Ok(()) => {
                            &&& calls.len() >= 4
                            &&& calls[3] matches HostCall::FindServers { ids, node_ids, answer }
                            &&& ids.len() == 0 && node_ids == seq![node_id]
                            &&& match answer {
                                Err(_) => calls.len() == 4 && r == Err::<(), ApiErrorView>(node_unavailable_view()),
                                Ok(servers) => {
                                    &&& calls.len() >= 5
                                    &&& calls[4] matches HostCall::ListServerStates { key_prefix, entity, .. }
                                    &&& key_prefix == store::KEY_REGISTRATION_PREFIX@
                                    &&& entity == crate::host_api::node_scope(node_id)
                                    &&& match registrations_answer(calls[4]) {
                                        Err(e) => calls.len() == 5 && r == Err::<(), ApiErrorView>(e),
                                        Ok(regs) => registrations_cleaned(node_id, node, servers@, regs, calls.skip(5), r),
                                    }
                                },
                            }
                        },
                    }
                },
            }
        },
    }
}

/// At position `p` the registration `key` on the node was deleted successfully,
/// right after a definition for `token` was published with its route disabled.
pub open spec fn revoked_at(calls: Seq<HostCall>, p: int, node_id: u64, key: Seq<char>, token: Seq<char>) -> bool {
    &&& 1 <= p < calls.len()
    &&& store::record_delete(calls[p], key, crate::host_api::node_scope(node_id))
    &&& crate::host_api::write_answer(calls[p]) is Ok
    &&& calls[p - 1] matches HostCall::UploadServerDefinition { definition, answer, .. }
    &&& answer is Ok && !definition.enabled && definition.token == token
}

proof fn lemma_cleaned_revokes(
    node_id: u64,
    node: NodeInfo,
    servers: Seq<ServerInfo>,
    regs: Seq<(String, ServerState)>,
    calls: Seq<HostCall>,
    r: Result<(), ApiErrorView>,
)
    requires
        registrations_cleaned(node_id, node, servers, regs, calls, r),
        r is Ok,
    ensures
        forall|j: int|
            0 <= j < regs.len() && spec_orphaned(server_ids(servers), #[trigger] regs[j].1.server_id) ==> exists|p: int|
                revoked_at(calls, p, node_id, regs[j].0@, regs[j].1@.token),
    decreases regs.len(),
{
    if regs.len() > 0 {
        let reg = regs[0];
        if !spec_orphaned(server_ids(servers), reg.1.server_id) {
            lemma_cleaned_revokes(node_id, node, servers, regs.skip(1), calls, r);
            assert forall|j: int|
                0 <= j < regs.len() && spec_orphaned(server_ids(servers), #[trigger] regs[j].1.server_id) implies exists|p: int|
                    revoked_at(calls, p, node_id, regs[j].0@, regs[j].1@.token) by {
                assert(regs.skip(1)[j - 1] == regs[j]);
            }
        } else {
            let published = publish_effect(node, reg.1@, false, calls);
            let n = published.0;
            assert(n == 1);
            let rest = calls.skip(n + 1);
            lemma_cleaned_revokes(node_id, node, servers, regs.skip(1), rest, r);
            assert forall|j: int|
                0 <= j < regs.len() && spec_orphaned(server_ids(servers), #[trigger] regs[j].1.server_id) implies exists|p: int|
                    revoked_at(calls, p, node_id, regs[j].0@, regs[j].1@.token) by {
                if j == 0 {
                    assert(revoked_at(calls, 1, node_id, regs[j].0@, regs[j].1@.token));
                } else {
                    assert(regs.skip(1)[j - 1] == regs[j]);
                    let q = choose|q: int| revoked_at(rest, q, node_id, regs[j].0@, regs[j].1@.token);
                    assert(calls[q + 2] == rest[q]);
                    assert(calls[q + 1] == rest[q - 1]);
                    assert(revoked_at(calls, q + 2, node_id, regs[j].0@, regs[j].1@.token));
                }
            }
        }
    }
}

/// Every registration listed for the node (the fifth call) whose server the
/// panel did not list on it (the fourth call) was revoked.
pub open spec fn orphans_revoked(node_id: u64, calls: Seq<HostCall>) -> bool {
    &&& calls.len() >= 5
    &&& calls[3] matches HostCall::FindServers { answer: Ok(servers), .. }
    &&& registrations_answer(calls[4]) matches Ok(regs)
    &&& forall|j: int|
        0 <= j < regs.len() && spec_orphaned(server_ids(servers@), #[trigger] regs[j].1.server_id) ==> exists|p: int|
            revoked_at(calls, p, node_id, regs[j].0@, regs[j].1@.token)
}

/// A successful republish of a node revoked every registration it listed whose
/// server the panel no longer lists on that node: the registration was deleted
/// right after its definition was published with the route disabled.
pub proof fn republish_revokes_orphans(node_id: u64, calls: Seq<HostCall>, r: Result<(), ApiErrorView>)
    requires
        node_applied(node_id, calls, r),
        r is Ok,
    ensures
        orphans_revoked(node_id, calls),
{
    let node = node_setup::node_answer(calls[0])->Ok_0;
    let servers = match calls[3] {
        HostCall::FindServers { answer: Ok(servers), .. } => servers,
        _ => arbitrary(),
    };
    let regs = registrations_answer(calls[4])->Ok_0;
    let rest = calls.skip(5);
    lemma_cleaned_revokes(node_id, node, servers@, regs, rest, r);
    assert forall|j: int|
        0 <= j < regs.len() && spec_orphaned(server_ids(servers@), #[trigger] regs[j].1.server_id) implies exists|p: int|
            revoked_at(calls, p, node_id, regs[j].0@, regs[j].1@.token) by {
        let q = choose|q: int| revoked_at(rest, q, node_id, regs[j].0@, regs[j].1@.token);
        assert(calls[q + 5] == rest[q]);
        assert(calls[q + 4] == rest[q - 1]);
        assert(revoked_at(calls, q + 5, node_id, regs[j].0@, regs[j].1@.token));
    }
}

/// A successful synchronization of a node starts with a successful republish of
/// it, which revoked every registration whose server left the node.
pub proof fn sync_revokes_orphans(node_id: u64, calls: Seq<HostCall>, r: Result<(), ApiErrorView>)
    requires
        node_synced(node_id, calls, r),
        r is Ok,
    ensures
        exists|n: int, applied: Result<(), ApiErrorView>|
            #![trigger node_applied(node_id, calls.subrange(0, n), applied)]
            0 <= n <= calls.len() && applied is Ok && node_applied(node_id, calls.subrange(0, n), applied)
                && orphans_revoked(node_id, calls.subrange(0, n)),
{
    let (n, applied) = choose|n: int, applied: Result<(), ApiErrorView>| synced_after(node_id, calls, n, applied, r);
    assert(synced_after(node_id, calls, n, applied, r));
    assert(applied is Ok);
    republish_revokes_orphans(node_id, calls.subrange(0, n), applied);
}

fn refresh_servers<H: HostApi>(host: &mut Host<H>, servers: &Vec<ServerInfo>, i: usize) -> (r: Result<(), ApiError>)
    requires
        i <= servers.len(),
    ensures
        extends(old(host)@, final(host)@),
        servers_refreshed(servers@.skip(i as int), made(old(host)@, final(host)@), store::result_view(r)),
        r matches Err(e) ==> node_apply_failure(e@),
    decreases servers.len() - i,
{
    let ghost rest = servers@.skip(i as int);
    if i == servers.len() {
        assert(rest.len() == 0);
        assert(made(old(host)@, host@) =~= Seq::<HostCall>::empty());
        return Ok(());
    }
    assert(rest[0] == servers[i as int]);
    assert(rest.skip(1) =~= servers@.skip(i + 1));
    let ghost start = host@;
    let server = &servers[i];
    let stored = store::get_server_state(host, server.id);
    let ghost s1 = host@;
    match stored {
        Ok(Some(state)) => {
            let saved = servers::update_server(host, server, state.settings);
            let ghost s2 = host@;
            proof {
                crate::host_api::lemma_made_compose(start, s1, s2);
                assert(made(start, s2)[0] == made(start, s1)[0]);
                assert(made(start, s2).subrange(1, made(start, s2).len() as int) =~= made(s1, s2));
            }
            match saved {
                Ok(()) => {},
                Err(e) => {
                    let e = e.for_server(server.name.as_str());
                    proof {
                        let n = made(start, s2).len() as int;
                        assert(made(start, s2).subrange(1, n) == made(s1, s2));
                        assert(server_saved(rest, state@, made(start, s2), n, store::result_view(Err::<(), ApiError>(e))));
                    }
                    return Err(e);
                },
            }
            let r = refresh_servers(host, servers, i + 1);
            proof {
                crate::host_api::lemma_made_compose(start, s2, host@);
                crate::host_api::lemma_made_compose(s1, s2, host@);
                let n = made(start, s2).len() as int;
                assert(made(start, host@)[0] == made(start, s1)[0]);
                assert(made(start, host@).subrange(1, n) =~= made(s1, s2));
                assert(made(start, host@).skip(n) =~= made(s2, host@));
                assert(server_saved(rest, state@, made(start, host@), n, store::result_view(r)));
            }
            r
        },
        Ok(None) => {
            let r = refresh_servers(host, servers, i + 1);
            proof {
                crate::host_api::lemma_made_compose(start, s1, host@);
                assert(made(start, host@)[0] == made(start, s1)[0]);
                assert(made(start, host@).skip(1) =~= made(s1, host@));
            }
            r
        },
        Err(e) => Err(e),
    }
}

fn clean_registrations<H: HostApi>(
    host: &mut Host<H>,
    node_id: u64,
    node: &NodeInfo,
    servers: &Vec<ServerInfo>,
    regs: &Vec<(String, ServerState)>,
    i: usize,
) -> (r: Result<(), ApiError>)
    requires
        i <= regs.len(),
    ensures
        extends(old(host)@, final(host)@),
        registrations_cleaned(node_id, *node, servers@, regs@.skip(i as int), made(old(host)@, final(host)@), store::result_view(r)),
        r matches Err(e) ==> node_apply_failure(e@),
    decreases regs.len() - i,
{
    let ghost rest = regs@.skip(i as int);
    if i == regs.len() {
        assert(rest.len() == 0);
        assert(servers@.skip(0) =~= servers@);
        return refresh_servers(host, servers, 0);
    }
    assert(rest[0] == regs[i as int]);
    assert(rest.skip(1) =~= regs@.skip(i + 1));
    let (key, state) = (&regs[i].0, &regs[i].1);
    if !orphaned(servers, state.server_id) {
        return clean_registrations(host, node_id, node, servers, regs, i + 1);
    }
    let ghost start = host@;
    let published = publish_server(host, node, state, false);
    let ghost s1 = host@;
    match published {
        Ok(()) => {},
        Err(e) => return Err(e),
    }
    let deleted = store::delete_registration_key(host, node_id, key.as_str());
    let ghost s2 = host@;
    proof {
        crate::host_api::lemma_prefix_made(start, s1, s2);
        lemma_publish_prefix(*node, state@, false, made(start, s1), made(start, s2));
        crate::host_api::lemma_made_compose(start, s1, s2);
        assert(made(start, s2)[made(start, s1).len() as int] == made(s1, s2)[0]);
    }
    match deleted {
        Ok(()) => {},
        Err(e) => return Err(e),
    }
    let r = clean_registrations(host, node_id, node, servers, regs, i + 1);
    proof {
        crate::host_api::lemma_prefix_made(start, s1, host@);
        lemma_publish_prefix(*node, state@, false, made(start, s1), made(start, host@));
        crate::host_api::lemma_made_compose(start, s2, host@);
        crate::host_api::lemma_made_compose(s1, s2, host@);
        let n = made(start, s1).len() as int;
        assert(made(start, host@)[n] == made(s1, s2)[0]);
        assert(made(start, host@).skip(n + 1) =~= made(s2, host@));
    }
    r
}

/// Republishes a node: its daemon configuration, revocation of registrations whose
/// server left the node, and every stored server's settings.
pub fn apply_node<H: HostApi>(host: &mut Host<H>, node_id: u64) -> (r: Result<(), ApiError>)
    ensures
        r matches Err(e) ==> node_apply_failure(e@),
        extends(old(host)@, final(host)@),
        node_applied(node_id, made(old(host)@, final(host)@), store::result_view(r)),
{
    let ghost start = host@;
    let node = match node_setup::get_node(host, node_id) {
        Ok(node) => node,
        Err(e) => return Err(e),
    };
    let ghost s1 = host@;
    let config = get_config_after(host, node_id);
    let ghost s2 = host@;
    proof {
        crate::host_api::lemma_made_compose(start, s1, s2);
        assert(made(start, s2)[0] == made(start, s1)[0]);
        assert(made(start, s2)[1] == made(s1, s2)[0]);
    }
    let config = match config {
        Ok(config) => config,
        Err(e) => return Err(e),
    };
    let written = write_node_config(host, node_id, &config);
    let ghost s3 = host@;
    proof {
        crate::host_api::lemma_made_compose(start, s2, s3);
        assert(made(start, s3)[0] == made(start, s2)[0]);
        assert(made(start, s3)[1] == made(start, s2)[1]);
        assert(made(start, s3)[2] == made(s2, s3)[0]);
    }
    match written {
        Ok(()) => {},
        Err(e) => return Err(e),
    }
    let no_ids: Vec<u64> = Vec::new();
    let node_ids: Vec<u64> = vec![node_id];
    assert(node_ids@ == seq![node_id]);
    let found = host.find_servers(no_ids.as_slice(), node_ids.as_slice());
    let ghost s4 = host@;
    proof {
        crate::host_api::lemma_made_compose(start, s3, s4);
        assert(made(start, s4)[0] == made(start, s3)[0]);
        assert(made(start, s4)[1] == made(start, s3)[1]);
        assert(made(start, s4)[2] == made(start, s3)[2]);
        assert(made(start, s4)[3] == made(s3, s4)[0]);
    }
    let servers = match found {
        Ok(servers) => servers,
        Err(e) => return Err(ApiError::from_host(e)),
    };
    let listed = store::list_registrations(host, node_id);
    let ghost s5 = host@;
    proof {
        crate::host_api::lemma_made_compose(start, s4, s5);
        assert(made(start, s5)[0] == made(start, s4)[0]);
        assert(made(start, s5)[1] == made(start, s4)[1]);
        assert(made(start, s5)[2] == made(start, s4)[2]);
        assert(made(start, s5)[3] == made(start, s4)[3]);
        assert(made(start, s5)[4] == made(s4, s5)[0]);
    }
    let regs = match listed {
        Ok(regs) => regs,
        Err(e) => return Err(e),
    };
    assert(regs@.skip(0) =~= regs@);
    let r = clean_registrations(host, node_id, &node, &servers, &regs, 0);
    proof {
        crate::host_api::lemma_made_compose(start, s5, host@);
        assert(made(start, host@)[0] == made(start, s5)[0]);
        assert(made(start, host@)[1] == made(start, s5)[1]);
        assert(made(start, host@)[2] == made(start, s5)[2]);
        assert(made(start, host@)[3] == made(start, s5)[3]);
        assert(made(start, host@)[4] == made(start, s5)[4]);
        assert(made(start, host@).skip(5) =~= made(s5, host@));
    }
    r
}

fn get_config_after<H: HostApi>(host: &mut Host<H>, node_id: u64) -> (r: Result<NodeConfig, ApiError>)
    ensures
        store::one_call(old(host)@, final(host)@),
        store::config_key(made(old(host)@, final(host)@)[0], node_id),
        match store::config_answer(made(old(host)@, final(host)@)[0]) {
            Ok(v) => r matches Ok(config) && config@ == v,
            Err(v) => fails_with(r, v),
        },
        r matches Err(e) ==> store::load_failure(e@),
{
    store::get_config(host, node_id)
}

/// What synchronizing a node does, read from its calls: the calls of republishing
/// it first; once that succeeded, its installation status is read and, for an
/// installed node, the node looked up and its service restarted.
pub open spec fn node_synced(node_id: u64, calls: Seq<HostCall>, r: Result<(), ApiErrorView>) -> bool {
    exists|n: int, applied: Result<(), ApiErrorView>| #[trigger] synced_after(node_id, calls, n, applied, r)
}

/// The first `n` calls republished the node with result `applied`, and the rest
/// follows from it.
pub open spec fn synced_after(
    node_id: u64,
    calls: Seq<HostCall>,
    n: int,
    applied: Result<(), ApiErrorView>,
    r: Result<(), ApiErrorView>,
) -> bool {
    &&& 0 <= n <= calls.len()
    &&& node_applied(node_id, calls.subrange(0, n), applied)
    &&& match applied {
        Err(e) => n == calls.len() && r == Err::<(), ApiErrorView>(e),
        Ok(()) => {
            &&& calls.len() >= n + 1
            &&& store::status_key(calls[n], node_id)
            &&& match store::status_answer(calls[n]) {
                Err(e) => calls.len() == n + 1 && r == Err::<(), ApiErrorView>(e),
                Ok(status) => if status.status != SetupStatus::Installed {
                    calls.len() == n + 1 && r is Ok
                } else {
                    &&& calls.len() >= n + 2
                    &&& node_setup::node_read(calls[n + 1], node_id)
                    &&& match node_setup::node_answer(calls[n + 1]) {
                        Err(e) => calls.len() == n + 2 && r == Err::<(), ApiErrorView>(e),
                        Ok(node) => {
                            let restarted = node_setup::restart_effect(node, calls.skip(n + 2));
                            &&& calls.len() == n + 2 + restarted.0
                            &&& restarted.2
                            &&& r == restarted.1
                        },
                    }
                },
            }
        },
    }
}

/// Reapplies a node's desired state and restarts an installed service.
pub fn sync_node<H: HostApi>(host: &mut Host<H>, node_id: u64) -> (r: Result<(), ApiError>)
    ensures
        r matches Err(e) ==> node_sync_failure(e@),
        extends(old(host)@, final(host)@),
        node_synced(node_id, made(old(host)@, final(host)@), store::result_view(r)),
{
    let ghost start = host@;
    let applied = apply_node(host, node_id);
    let ghost s1 = host@;
    let ghost n = made(start, s1).len() as int;
    match applied {
        Ok(()) => {},
        Err(e) => {
            assert(made(start, s1).subrange(0, n) =~= made(start, s1));
            assert(node_applied(node_id, made(start, s1).subrange(0, n), store::result_view(Err::<(), ApiError>(e))));
            assert(synced_after(node_id, made(start, s1), n, store::result_view(Err::<(), ApiError>(e)), store::result_view(Err::<(), ApiError>(e))));
            return Err(e);
        },
    }
    let status = store::get_status(host, node_id);
    let ghost s2 = host@;
    proof {
        crate::host_api::lemma_made_compose(start, s1, s2);
        assert(made(start, s2).subrange(0, n) =~= made(start, s1));
        assert(made(start, s2)[n] == made(s1, s2)[0]);
        assert(node_applied(node_id, made(start, s2).subrange(0, n), Ok::<(), ApiErrorView>(())));
    }
    let status = match status {
        Ok(status) => status,
        Err(e) => {
            assert(synced_after(node_id, made(start, s2), n, Ok::<(), ApiErrorView>(()), store::result_view(Err::<(), ApiError>(e))));
            return Err(e);
        },
    };
    if status.status == SetupStatus::Installed {
        let node = node_setup::get_node(host, node_id);
        let ghost s3 = host@;
        proof {
            crate::host_api::lemma_made_compose(start, s2, s3);
            assert(made(start, s3).subrange(0, n) =~= made(start, s1));
            assert(made(start, s3)[n] == made(start, s2)[n]);
            assert(made(start, s3)[n + 1] == made(s2, s3)[0]);
            assert(node_applied(node_id, made(start, s3).subrange(0, n), Ok::<(), ApiErrorView>(())));
        }
        let node = match node {
            Ok(node) => node,
            Err(e) => {
                assert(synced_after(node_id, made(start, s3), n, Ok::<(), ApiErrorView>(()), store::result_view(Err::<(), ApiError>(e))));
                return Err(e);
            },
        };
        let restarted = node_setup::restart(host, &node);
        proof {
            crate::host_api::lemma_made_compose(start, s3, host@);
            assert(made(start, host@).subrange(0, n) =~= made(start, s1));
            assert(made(start, host@)[n] == made(start, s2)[n]);
            assert(made(start, host@)[n + 1] == made(start, s3)[n + 1]);
            assert(made(start, host@).skip(n + 2) =~= made(s3, host@));
            assert(node_applied(node_id, made(start, host@).subrange(0, n), Ok::<(), ApiErrorView>(())));
            assert(synced_after(node_id, made(start, host@), n, Ok::<(), ApiErrorView>(()), store::result_view(restarted)));
        }
        return restarted;
    }
    proof {
        assert(made(start, s2).subrange(0, n) =~= made(start, s1));
        assert(node_applied(node_id, made(start, s2).subrange(0, n), Ok::<(), ApiErrorView>(())));
        assert(synced_after(node_id, made(start, s2), n, Ok::<(), ApiErrorView>(()), Ok::<(), ApiErrorView>(())));
    }
    Ok(())
}

} // verus!
