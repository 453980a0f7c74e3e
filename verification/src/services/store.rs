//! Typed access to persistent settings and node registrations.
//!
//! Node registrations outlive server-scoped storage so deletion events can
//! still revoke published content after GameAP removes the server entity.
use vstd::prelude::*;

use crate::domain::node::{absent_status, NodeConfigView, NodeSetupStatusView};
use crate::domain::server::ServerStateView;
use crate::domain::{NodeConfig, NodeSetupStatus, ServerState};
use crate::host_api::{
    extends, made, node_scope, server_scope, write_answer, Host, HostApi, HostCall, HostResult,
    StorageEntity, Stored,
};
use crate::http::{fails_with, internal_view, node_unavailable_view, ApiError, ApiErrorView};
use crate::text::{decimal, decimal_string};

verus! {

pub const KEY_SERVER_STATE: &'static str = "fastdl:server";

pub const KEY_NODE_CONFIG: &'static str = "fastdl:config";

pub const KEY_NODE_STATUS: &'static str = "fastdl:status";

pub const KEY_REGISTRATION_PREFIX: &'static str = "fastdl:registration:";

pub open spec fn invalid_settings_view() -> ApiErrorView {
    internal_view("Stored FastDL settings are invalid"@)
}

pub open spec fn invalid_registration_view() -> ApiErrorView {
    internal_view("Stored FastDL registration is invalid"@)
}

/// What a storage read means to the plugin: host failures and unreadable
/// records become errors, an absent record is `None`.
pub open spec fn stored_outcome<T>(loaded: HostResult<Stored<T>>, invalid: ApiErrorView) -> Result<
    Option<T>,
    ApiErrorView,
> {
    match loaded {
        Err(_) => Err(node_unavailable_view()),
        Ok(Stored::Missing) => Ok(None),
        Ok(Stored::Invalid) => Err(invalid),
        Ok(Stored::Present(value)) => Ok(Some(value)),
    }
}

pub open spec fn result_view<T>(r: Result<T, ApiError>) -> Result<T, ApiErrorView> {
    match r {
        Ok(v) => Ok(v),
        Err(e) => Err(e@),
    }
}

/// Interprets a storage read.
pub fn stored_value<T>(loaded: HostResult<Stored<T>>, invalid_message: &str) -> (r: Result<
    Option<T>,
    ApiError,
>)
    ensures
        result_view(r) == stored_outcome(loaded, internal_view(invalid_message@)),
{
    match loaded {
        Err(e) => Err(ApiError::from_host(e)),
        Ok(Stored::Missing) => Ok(None),
        Ok(Stored::Invalid) => Err(ApiError::internal(invalid_message)),
        Ok(Stored::Present(value)) => Ok(Some(value)),
    }
}

/// Interprets a storage write or deletion.
pub fn host_done(done: HostResult<()>) -> (r: Result<(), ApiError>)
    ensures
        done is Ok ==> r is Ok,
        done is Err ==> fails_with(r, node_unavailable_view()),
{
    match done {
        Ok(()) => Ok(()),
        Err(e) => Err(ApiError::from_host(e)),
    }
}

/// What a write's answer means: done, or the node is unavailable.
pub open spec fn written(answer: HostResult<()>, r: Result<(), ApiError>) -> bool {
    &&& answer is Ok ==> r is Ok
    &&& answer is Err ==> fails_with(r, node_unavailable_view())
}

/// What a read of a server-scoped record gives the plugin.
pub open spec fn state_answer(call: HostCall) -> Result<Option<ServerState>, ApiErrorView> {
    match call {
        HostCall::LoadServerState { answer, .. } => stored_outcome(answer, invalid_settings_view()),
        _ => Err(node_unavailable_view()),
    }
}

/// A read of the record `key` in `entity`.
pub open spec fn state_key(call: HostCall, key: Seq<char>, entity: StorageEntity) -> bool {
    call matches HostCall::LoadServerState { key: k, entity: e, .. } && k == key && e == entity
}

/// What a read of a node's settings gives the plugin.
pub open spec fn config_answer(call: HostCall) -> Result<NodeConfigView, ApiErrorView> {
    match call {
        HostCall::LoadNodeConfig { answer, .. } => config_outcome(answer),
        _ => Err(node_unavailable_view()),
    }
}

/// A read of a node's settings.
pub open spec fn config_key(call: HostCall, node_id: u64) -> bool {
    call matches HostCall::LoadNodeConfig { key, entity, .. } && key == KEY_NODE_CONFIG@ && entity
        == node_scope(node_id)
}

/// What a read of a node's installation status gives the plugin.
pub open spec fn status_answer(call: HostCall) -> Result<NodeSetupStatusView, ApiErrorView> {
    match call {
        HostCall::LoadSetupStatus { answer, .. } => status_outcome(answer),
        _ => Err(node_unavailable_view()),
    }
}

/// A read of a node's installation status.
pub open spec fn status_key(call: HostCall, node_id: u64) -> bool {
    call matches HostCall::LoadSetupStatus { key, entity, .. } && key == KEY_NODE_STATUS@ && entity
        == node_scope(node_id)
}

/// What a write's answer gives the plugin.
pub open spec fn write_result(call: HostCall) -> Result<(), ApiErrorView> {
    if write_answer(call) is Ok {
        Ok(())
    } else {
        Err(node_unavailable_view())
    }
}

/// A successful save of a server's own state marked synchronized.
pub open spec fn synced_saved(call: HostCall) -> bool {
    match call {
        HostCall::SaveServerState { key, entity, state, answer } => key == KEY_SERVER_STATE@
            && entity.entity_type == crate::host_api::ENTITY_SERVER && state.synced && answer is Ok,
        _ => false,
    }
}

/// No server state marked synchronized was saved from position `from` on.
pub open spec fn nothing_synced(log: Seq<HostCall>, from: int) -> bool {
    forall|i: int| from <= i < log.len() ==> !synced_saved(#[trigger] log[i])
}

/// Exactly one operation, `call`-shaped, was made between the two records.
pub open spec fn one_call(before: Seq<HostCall>, after: Seq<HostCall>) -> bool {
    extends(before, after) && made(before, after).len() == 1
}

pub open spec fn load_failure(e: ApiErrorView) -> bool {
    e == node_unavailable_view() || e == invalid_settings_view()
}

/// The settings of a node that has none stored: listen on every address at port
/// 8080, without a public address.
pub open spec fn default_config() -> NodeConfigView {
    NodeConfigView { listen: "0.0.0.0:8080"@, public_base_url: Seq::empty() }
}

/// Node settings from a storage read: the stored ones, or the defaults.
pub open spec fn config_outcome(loaded: HostResult<Stored<NodeConfig>>) -> Result<
    NodeConfigView,
    ApiErrorView,
> {
    match stored_outcome(loaded, invalid_settings_view()) {
        Err(e) => Err(e),
        Ok(Some(config)) => Ok(config@),
        Ok(None) => Ok(default_config()),
    }
}

/// Interprets a read of a node's settings.
pub fn config_from(loaded: HostResult<Stored<NodeConfig>>) -> (r: Result<NodeConfig, ApiError>)
    ensures
        match config_outcome(loaded) {
            Ok(v) => r matches Ok(config) && config@ == v,
            Err(v) => fails_with(r, v),
        },
{
    match stored_value(loaded, "Stored FastDL settings are invalid") {
        Ok(Some(config)) => Ok(config),
        Ok(None) => {
            let config = NodeConfig::default();
            assert(config@.public_base_url =~= Seq::<char>::empty());
            Ok(config)
        },
        Err(e) => Err(e),
    }
}

/// A read of a node's settings.
pub open spec fn config_read(call: HostCall, node_id: u64, r: Result<NodeConfig, ApiError>) -> bool {
    call matches HostCall::LoadNodeConfig { key, entity, answer } && key == KEY_NODE_CONFIG@ && entity
        == node_scope(node_id) && match config_outcome(answer) {
        Ok(v) => r matches Ok(config) && config@ == v,
        Err(v) => fails_with(r, v),
    }
}

pub fn get_config<H: HostApi>(host: &mut Host<H>, node_id: u64) -> (r: Result<NodeConfig, ApiError>)
    ensures
        one_call(old(host)@, final(host)@),
        config_read(made(old(host)@, final(host)@)[0], node_id, r),
        nothing_synced(final(host)@, old(host)@.len() as int),
        crate::host_api::reads_only(final(host)@, old(host)@.len() as int),
        r matches Err(e) ==> load_failure(e@),
{
    config_from(host.load_node_config(KEY_NODE_CONFIG, StorageEntity::node(node_id)))
}

/// A write of a node's settings.
pub open spec fn config_write(call: HostCall, node_id: u64, config: NodeConfigView) -> bool {
    call matches HostCall::SaveNodeConfig { key, entity, config: saved, .. } && key == KEY_NODE_CONFIG@
        && entity == node_scope(node_id) && saved == config
}

pub fn save_config<H: HostApi>(host: &mut Host<H>, node_id: u64, config: &NodeConfig) -> (r: Result<
    (),
    ApiError,
>)
    ensures
        one_call(old(host)@, final(host)@),
        config_write(made(old(host)@, final(host)@)[0], node_id, config@),
        written(write_answer(made(old(host)@, final(host)@)[0]), r),
        r matches Err(e) ==> e@ == node_unavailable_view(),
{
    host_done(host.save_node_config(KEY_NODE_CONFIG, StorageEntity::node(node_id), config))
}

/// A node's installation status from a storage read: the stored one, or not installed.
pub open spec fn status_outcome(loaded: HostResult<Stored<NodeSetupStatus>>) -> Result<
    NodeSetupStatusView,
    ApiErrorView,
> {
    match stored_outcome(loaded, invalid_settings_view()) {
        Err(e) => Err(e),
        Ok(Some(status)) => Ok(status@),
        Ok(None) => Ok(absent_status()),
    }
}

/// Interprets a read of a node's installation status.
pub fn status_from(loaded: HostResult<Stored<NodeSetupStatus>>) -> (r: Result<
    NodeSetupStatus,
    ApiError,
>)
    ensures
        match status_outcome(loaded) {
            Ok(v) => r matches Ok(status) && status@ == v,
            Err(v) => fails_with(r, v),
        },
{
    match stored_value(loaded, "Stored FastDL settings are invalid") {
        Ok(Some(status)) => Ok(status),
        Ok(None) => Ok(NodeSetupStatus::default()),
        Err(e) => Err(e),
    }
}

/// A read of a node's installation status.
pub open spec fn status_read(call: HostCall, node_id: u64, r: Result<NodeSetupStatus, ApiError>) -> bool {
    call matches HostCall::LoadSetupStatus { key, entity, answer } && key == KEY_NODE_STATUS@ && entity
        == node_scope(node_id) && match status_outcome(answer) {
        Ok(v) => r matches Ok(status) && status@ == v,
        Err(v) => fails_with(r, v),
    }
}

pub fn get_status<H: HostApi>(host: &mut Host<H>, node_id: u64) -> (r: Result<NodeSetupStatus, ApiError>)
    ensures
        one_call(old(host)@, final(host)@),
        status_read(made(old(host)@, final(host)@)[0], node_id, r),
        nothing_synced(final(host)@, old(host)@.len() as int),
        crate::host_api::reads_only(final(host)@, old(host)@.len() as int),
        r matches Err(e) ==> load_failure(e@),
{
    status_from(host.load_setup_status(KEY_NODE_STATUS, StorageEntity::node(node_id)))
}

/// A write of a node's installation status.
pub open spec fn status_write(call: HostCall, node_id: u64, status: NodeSetupStatusView) -> bool {
    call matches HostCall::SaveSetupStatus { key, entity, status: saved, .. } && key == KEY_NODE_STATUS@
        && entity == node_scope(node_id) && saved == status
}

pub fn save_status<H: HostApi>(host: &mut Host<H>, node_id: u64, status: &NodeSetupStatus) -> (r: Result<
    (),
    ApiError,
>)
    ensures
        one_call(old(host)@, final(host)@),
        status_write(made(old(host)@, final(host)@)[0], node_id, status@),
        written(write_answer(made(old(host)@, final(host)@)[0]), r),
        r matches Err(e) ==> e@ == node_unavailable_view(),
{
    host_done(host.save_setup_status(KEY_NODE_STATUS, StorageEntity::node(node_id), status))
}

/// A read of a server-scoped record under `key`.
pub open spec fn state_read(
    call: HostCall,
    key: Seq<char>,
    entity: StorageEntity,
    r: Result<Option<ServerState>, ApiError>,
) -> bool {
    call matches HostCall::LoadServerState { key: k, entity: e, answer } && k == key && e == entity
        && result_view(r) == stored_outcome(answer, invalid_settings_view())
}

pub fn get_server_state<H: HostApi>(host: &mut Host<H>, server_id: u64) -> (r: Result<
    Option<ServerState>,
    ApiError,
>)
    ensures
        one_call(old(host)@, final(host)@),
        state_read(made(old(host)@, final(host)@)[0], KEY_SERVER_STATE@, server_scope(server_id), r),
        nothing_synced(final(host)@, old(host)@.len() as int),
        crate::host_api::reads_only(final(host)@, old(host)@.len() as int),
        r matches Err(e) ==> load_failure(e@),
{
    stored_value(
        host.load_server_state(KEY_SERVER_STATE, StorageEntity::server(server_id)),
        "Stored FastDL settings are invalid",
    )
}

/// The node-scoped key of a server's registration.
pub open spec fn spec_registration_key(server_id: u64) -> Seq<char> {
    KEY_REGISTRATION_PREFIX@ + decimal(server_id as nat)
}

pub fn registration_key(server_id: u64) -> (r: String)
    ensures
        r@ == spec_registration_key(server_id),
{
    let mut key = String::new();
    key.append(KEY_REGISTRATION_PREFIX);
    key.append(decimal_string(server_id).as_str());
    key
}

/// A write of a server's state under `key`.
pub open spec fn state_write(call: HostCall, key: Seq<char>, entity: StorageEntity, state: ServerStateView) -> bool {
    call matches HostCall::SaveServerState { key: k, entity: e, state: saved, .. } && k == key && e
        == entity && saved == state
}

/// Saving a server's state: its registration on its node, then, if that was
/// written, its server-scoped state.
pub open spec fn state_saved(server_id: u64, state: ServerStateView, calls: Seq<HostCall>, r: Result<(), ApiError>) -> bool {
    &&& calls.len() >= 1
    &&& state_write(calls[0], spec_registration_key(server_id), node_scope(state.node_id), state)
    &&& if write_answer(calls[0]) is Err {
        calls.len() == 1 && fails_with(r, node_unavailable_view())
    } else {
        &&& calls.len() == 2
        &&& state_write(calls[1], KEY_SERVER_STATE@, server_scope(server_id), state)
        &&& written(write_answer(calls[1]), r)
    }
}

/// Saving a server's state, read from its calls: how many it makes, what it
/// answers, and whether each call has the expected form.
pub open spec fn save_effect(server_id: u64, state: ServerStateView, calls: Seq<HostCall>) -> (
    int,
    Result<(), ApiErrorView>,
    bool,
) {
    let first = state_write(calls[0], spec_registration_key(server_id), node_scope(state.node_id), state);
    match write_result(calls[0]) {
        Err(e) => (1, Err(e), first),
        Ok(()) => (
            2,
            write_result(calls[1]),
            first && state_write(calls[1], KEY_SERVER_STATE@, server_scope(server_id), state),
        ),
    }
}

/// A save's effect depends only on the calls it made.
pub proof fn lemma_save_prefix(server_id: u64, state: ServerStateView, a: Seq<HostCall>, b: Seq<HostCall>)
    requires
        extends(a, b),
        a.len() >= save_effect(server_id, state, a).0,
    ensures
        save_effect(server_id, state, b) == save_effect(server_id, state, a),
{
    assert(b[0] == a[0]);
    if write_result(a[0]) is Ok {
        assert(b[1] == a[1]);
    }
}

/// Stores the node registration first, then the server-scoped state.
pub fn save_server_state<H: HostApi>(host: &mut Host<H>, server_id: u64, state: &ServerState) -> (r: Result<
    (),
    ApiError,
>)
    ensures
        extends(old(host)@, final(host)@),
        state_saved(server_id, state@, made(old(host)@, final(host)@), r),
        made(old(host)@, final(host)@).len() == save_effect(server_id, state@, made(old(host)@, final(host)@)).0,
        save_effect(server_id, state@, made(old(host)@, final(host)@)).2,
        result_view(r) == save_effect(server_id, state@, made(old(host)@, final(host)@)).1,
        !state.synced || r is Err ==> nothing_synced(final(host)@, old(host)@.len() as int),
        r matches Err(e) ==> e@ == node_unavailable_view(),
{
    let ghost start = host@;
    let key = registration_key(server_id);
    match host_done(host.save_server_state(key.as_str(), StorageEntity::node(state.node_id), state)) {
        Ok(()) => {},
        Err(e) => return Err(e),
    }
    let ghost middle = host@;
    let r = host_done(host.save_server_state(KEY_SERVER_STATE, StorageEntity::server(server_id), state));
    proof {
        crate::host_api::lemma_made_compose(start, middle, host@);
    }
    r
}

/// A deletion of the record `key` in `entity`.
pub open spec fn record_delete(call: HostCall, key: Seq<char>, entity: StorageEntity) -> bool {
    call matches HostCall::StorageDelete { key: k, entity: e, .. } && k == key && e == entity
}

pub fn delete_server_state<H: HostApi>(host: &mut Host<H>, server_id: u64) -> (r: Result<(), ApiError>)
    ensures
        one_call(old(host)@, final(host)@),
        record_delete(made(old(host)@, final(host)@)[0], KEY_SERVER_STATE@, server_scope(server_id)),
        written(write_answer(made(old(host)@, final(host)@)[0]), r),
        r matches Err(e) ==> e@ == node_unavailable_view(),
{
    host_done(host.storage_delete(KEY_SERVER_STATE, StorageEntity::server(server_id)))
}

pub fn get_registration<H: HostApi>(host: &mut Host<H>, node_id: u64, server_id: u64) -> (r: Result<
    Option<ServerState>,
    ApiError,
>)
    ensures
        one_call(old(host)@, final(host)@),
        state_read(
            made(old(host)@, final(host)@)[0],
            spec_registration_key(server_id),
            node_scope(node_id),
            r,
        ),
        r matches Err(e) ==> load_failure(e@),
{
    let key = registration_key(server_id);
    stored_value(
        host.load_server_state(key.as_str(), StorageEntity::node(node_id)),
        "Stored FastDL settings are invalid",
    )
}

/// Decoded registrations, or the first failure among them.
pub open spec fn registrations_outcome(entries: Seq<(String, Stored<ServerState>)>) -> Result<
    Seq<(String, ServerState)>,
    ApiErrorView,
>
    decreases entries.len(),
{
    if entries.len() == 0 {
        Ok(Seq::empty())
    } else {
        match registrations_outcome(entries.drop_last()) {
            Err(e) => Err(e),
            Ok(done) => match entries.last().1 {
                Stored::Present(state) => Ok(done.push((entries.last().0, state))),
                _ => Err(invalid_registration_view()),
            },
        }
    }
}

/// Decodes listed registrations; any unreadable entry fails the whole list.
pub fn decode_registrations(entries: Vec<(String, Stored<ServerState>)>) -> (r: Result<
    Vec<(String, ServerState)>,
    ApiError,
>)
    ensures
        match registrations_outcome(entries@) {
            Ok(v) => r matches Ok(out) && out@ == v,
            Err(e) => r matches Err(err) && err@ == e,
        },
        r matches Err(e) ==> e@ == invalid_registration_view(),
{
    let ghost all = entries@;
    proof {
        lemma_registrations_error(all);
    }
    let mut decoded: Vec<(String, ServerState)> = Vec::new();
    let mut rest = entries;
    let total = rest.len();
    assert(all.len() == total);
    let mut i: usize = 0;
    while rest.len() > 0
        invariant
            i + rest.len() == all.len(),
            all.len() == total,
            all == entries@,
            registrations_outcome(all) matches Err(e) ==> e == invalid_registration_view(),
            rest@ =~= all.subrange(i as int, all.len() as int),
            registrations_outcome(all.subrange(0, i as int)) == Ok::<
                Seq<(String, ServerState)>,
                ApiErrorView,
            >(decoded@),
        decreases rest.len(),
    {
        let entry = rest.remove(0);
        assert(entry == all[i as int]);
        assert(all.subrange(0, i + 1).drop_last() == all.subrange(0, i as int));
        i = i + 1;
        let ghost last = all[i - 1];
        assert(all.subrange(0, i as int).last() == last);
        let (key, stored) = entry;
        assert(stored == last.1);
        match stored {
            Stored::Present(state) => {
                decoded.push((key, state));
            },
            _ => {
                proof {
                    lemma_registrations_fail(all, i as int);
                }
                return Err(ApiError::internal("Stored FastDL registration is invalid"));
            },
        }
    }
    assert(all.subrange(0, i as int) == all);
    Ok(decoded)
}

proof fn lemma_registrations_error(entries: Seq<(String, Stored<ServerState>)>)
    ensures
        registrations_outcome(entries) matches Err(e) ==> e == invalid_registration_view(),
    decreases entries.len(),
{
    if entries.len() > 0 {
        lemma_registrations_error(entries.drop_last());
    }
}

proof fn lemma_registrations_fail(entries: Seq<(String, Stored<ServerState>)>, k: int)
    requires
        1 <= k <= entries.len(),
        registrations_outcome(entries.subrange(0, k)) == Err::<
            Seq<(String, ServerState)>,
            ApiErrorView,
        >(invalid_registration_view()),
    ensures
        registrations_outcome(entries) == Err::<Seq<(String, ServerState)>, ApiErrorView>(
            invalid_registration_view(),
        ),
    decreases entries.len() - k,
{
    if k < entries.len() {
        assert(entries.subrange(0, k + 1).drop_last() == entries.subrange(0, k));
        lemma_registrations_fail(entries, k + 1);
    } else {
        assert(entries.subrange(0, k) == entries);
    }
}

/// The listing of a node's registrations, decoded.
pub open spec fn registrations_read(call: HostCall, node_id: u64, r: Result<Vec<(String, ServerState)>, ApiError>) -> bool {
    call matches HostCall::ListServerStates { key_prefix, entity, answer } && key_prefix
        == KEY_REGISTRATION_PREFIX@ && entity == node_scope(node_id) && match answer {
        Err(_) => fails_with(r, node_unavailable_view()),
        Ok(entries) => match registrations_outcome(entries@) {
            Ok(v) => r matches Ok(out) && out@ == v,
            Err(e) => fails_with(r, e),
        },
    }
}

pub fn list_registrations<H: HostApi>(host: &mut Host<H>, node_id: u64) -> (r: Result<
    Vec<(String, ServerState)>,
    ApiError,
>)
    ensures
        one_call(old(host)@, final(host)@),
        registrations_read(made(old(host)@, final(host)@)[0], node_id, r),
        r matches Err(e) ==> e@ == node_unavailable_view() || e@ == invalid_registration_view(),
{
    match host.list_server_states(KEY_REGISTRATION_PREFIX, StorageEntity::node(node_id)) {
        Ok(entries) => decode_registrations(entries),
        Err(e) => Err(ApiError::from_host(e)),
    }
}

pub fn delete_registration<H: HostApi>(host: &mut Host<H>, node_id: u64, server_id: u64) -> (r: Result<
    (),
    ApiError,
>)
    ensures
        one_call(old(host)@, final(host)@),
        record_delete(
            made(old(host)@, final(host)@)[0],
            spec_registration_key(server_id),
            node_scope(node_id),
        ),
        written(write_answer(made(old(host)@, final(host)@)[0]), r),
        r matches Err(e) ==> e@ == node_unavailable_view(),
{
    let key = registration_key(server_id);
    delete_registration_key(host, node_id, key.as_str())
}

pub fn delete_registration_key<H: HostApi>(host: &mut Host<H>, node_id: u64, key: &str) -> (r: Result<
    (),
    ApiError,
>)
    ensures
        one_call(old(host)@, final(host)@),
        record_delete(made(old(host)@, final(host)@)[0], key@, node_scope(node_id)),
        written(write_answer(made(old(host)@, final(host)@)[0]), r),
        r matches Err(e) ==> e@ == node_unavailable_view(),
{
    host_done(host.storage_delete(key, StorageEntity::node(node_id)))
}

} // verus!

verus! {

/// Each server has its own registration record on a node.
pub proof fn registration_keys_are_distinct(a: u64, b: u64)
    ensures
        spec_registration_key(a) == spec_registration_key(b) ==> a == b,
{
    if spec_registration_key(a) == spec_registration_key(b) {
        assert(KEY_REGISTRATION_PREFIX@ + decimal(a as nat) =~= KEY_REGISTRATION_PREFIX@ + decimal(
            a as nat,
        ) + Seq::<char>::empty());
        assert(KEY_REGISTRATION_PREFIX@ + decimal(b as nat) =~= KEY_REGISTRATION_PREFIX@ + decimal(
            b as nat,
        ) + Seq::<char>::empty());
        crate::text::lemma_framed_decimal_injective(
            KEY_REGISTRATION_PREFIX@,
            a as nat,
            b as nat,
            Seq::empty(),
        );
    }
}

} // verus!
