//! Administrator routes for one node: settings, installation and synchronization.
use vstd::prelude::*;

use crate::domain::{NodeConfig, NodeSetupStatus, SetupInput, SetupStatus};
use crate::http::{
    bad_request_view, fails_with, invalid_body, invalid_body_view, params_view, parse_u64_param,
    entity_param, ApiError, ApiErrorView, ApiResult, Reply, ReplyBody,
};
use crate::router::{unauthenticated_view, RequestBody, RequestParts};
use crate::host_api::{extends, made, Host, HostApi, HostCall};
use crate::services::node_setup::InstallerScripts;
use crate::services::{node_setup, store, sync};

use super::auth::{self, spec_user};

verus! {

/// The node a request addresses, once the caller is known to be an administrator.
pub open spec fn node_route_checks(parts: RequestParts, r: ApiResult) -> bool {
    &&& entity_param(params_view(parts.params@), "nodeId"@) is None ==> fails_with(
        r,
        bad_request_view("Invalid entity reference"@),
    )
    &&& entity_param(params_view(parts.params@), "nodeId"@) is Some && spec_user(parts.user_id)
        is None ==> fails_with(r, unauthenticated_view())
}

/// A node route's record: a request without a valid node asks nothing; otherwise
/// the administrator gate comes first.
pub open spec fn node_route_record(parts: RequestParts, calls: Seq<HostCall>) -> bool {
    match entity_param(params_view(parts.params@), "nodeId"@) {
        None => calls.len() == 0,
        Some(_) => auth::admin_first(parts.user_id, calls),
    }
}

/// The request names a node and a signed-in administrator, as the check at the
/// start of `calls` found.
pub open spec fn node_admitted(parts: RequestParts, calls: Seq<HostCall>) -> bool {
    &&& entity_param(params_view(parts.params@), "nodeId"@) is Some
    &&& spec_user(parts.user_id) is Some
    &&& auth::admin_gate(auth::check_answer(calls[0])) is Ok
}

/// The node a request names.
pub open spec fn named_node(parts: RequestParts) -> u64 {
    entity_param(params_view(parts.params@), "nodeId"@)->Some_0
}

/// The lookup of the node, the only call, failed with the error `e`.
pub open spec fn node_lookup_failed_with(node_id: u64, calls: Seq<HostCall>, e: ApiErrorView) -> bool {
    &&& calls.len() == 1
    &&& node_setup::node_read(calls[0], node_id)
    &&& node_setup::node_answer(calls[0]) == Err::<crate::host_api::NodeInfo, ApiErrorView>(e)
}

/// The lookup of the node, the only call, failed with the error `r` carries.
pub open spec fn node_lookup_failed(node_id: u64, calls: Seq<HostCall>, r: ApiResult) -> bool {
    r matches Err(e) && node_lookup_failed_with(node_id, calls, e@)
}

/// The node was found by the first call.
pub open spec fn node_looked_up(node_id: u64, calls: Seq<HostCall>) -> bool {
    &&& calls.len() >= 1
    &&& node_setup::node_read(calls[0], node_id)
    &&& node_setup::node_answer(calls[0]) is Ok
}

/// A node route once an administrator was admitted: the node is looked up, a
/// failed lookup answers its error, and `served` holds of the calls after it.
pub open spec fn node_route(node_id: u64, calls: Seq<HostCall>, r: ApiResult, served: bool) -> bool {
    node_lookup_failed(node_id, calls, r) || (node_looked_up(node_id, calls) && served)
}

fn admin_node<H: HostApi>(host: &mut Host<H>, parts: &RequestParts) -> (r: Result<u64, ApiError>)
    ensures
        extends(old(host)@, final(host)@),
        node_route_record(*parts, made(old(host)@, final(host)@)),
        r is Ok ==> spec_user(parts.user_id) is Some && auth::admin_gate(
            auth::check_answer(made(old(host)@, final(host)@)[0]),
        ) is Ok,
        entity_param(params_view(parts.params@), "nodeId"@) is None ==> fails_with(
            r,
            bad_request_view("Invalid entity reference"@),
        ),
        entity_param(params_view(parts.params@), "nodeId"@) is Some && spec_user(parts.user_id)
            is None ==> fails_with(r, unauthenticated_view()),
        r matches Ok(id) ==> entity_param(params_view(parts.params@), "nodeId"@) == Some(id),
        r matches Ok(id) ==> made(old(host)@, final(host)@).len() == 2 && node_looked_up(
            id,
            made(old(host)@, final(host)@).skip(1),
        ),
        node_admitted(*parts, made(old(host)@, final(host)@)) ==> match r {
            Ok(_) => true,
            Err(e) => node_lookup_failed_with(named_node(*parts), made(old(host)@, final(host)@).skip(1), e@),
        },
{
    let ghost start = host@;
    let node_id = match parse_u64_param(&parts.params, "nodeId") {
        Ok(id) => id,
        Err(e) => {
            assert(made(old(host)@, host@) =~= Seq::<HostCall>::empty());
            return Err(e);
        },
    };
    match auth::require_admin(host, parts) {
        Ok(()) => {},
        Err(e) => return Err(e),
    }
    let ghost s1 = host@;
    let found = node_setup::get_node(host, node_id);
    proof {
        crate::host_api::lemma_made_compose(start, s1, host@);
        assert(made(start, host@).skip(1) =~= made(s1, host@));
        assert(made(start, host@)[0] == made(start, s1)[0]);
    }
    match found {
        Ok(_) => Ok(node_id),
        Err(e) => Err(e),
    }
}

/// The settings of a setup request body, or the error that refuses it.
pub open spec fn setup_body(body: RequestBody) -> Result<SetupInput, ApiErrorView> {
    match body {
        RequestBody::Setup(Ok(input)) => Ok(input),
        RequestBody::Setup(Err(e)) => Err(e@),
        _ => Err(invalid_body_view()),
    }
}

/// The settings of a node settings request body, or the error that refuses it.
pub open spec fn config_body(body: RequestBody) -> Result<NodeConfig, ApiErrorView> {
    match body {
        RequestBody::NodeConfig(Ok(input)) => Ok(input),
        RequestBody::NodeConfig(Err(e)) => Err(e@),
        _ => Err(invalid_body_view()),
    }
}

/// What `setup` does once the node was found: a refused body answers its error;
/// otherwise the installation is started and its status answered (202).
pub open spec fn set_up(node_id: u64, body: RequestBody, scripts: &InstallerScripts, calls: Seq<HostCall>, r: ApiResult) -> bool {
    match setup_body(body) {
        Err(e) => calls.len() == 0 && fails_with(r, e),
        Ok(input) => {
            &&& node_setup::setup_record(node_id, input, scripts, calls, started(r))
            &&& r matches Ok(reply) ==> reply.status == 202 && reply.body is SetupStatus
        },
    }
}

/// The installation status a reply carries, or its error.
pub open spec fn started(r: ApiResult) -> Result<NodeSetupStatus, ApiError> {
    match r {
        Ok(reply) => match reply.body {
            ReplyBody::SetupStatus(status) => Ok(status),
            _ => arbitrary(),
        },
        Err(e) => Err(e),
    }
}

/// The reply to a status poll made by `calls`.
pub open spec fn polled_reply(node_id: u64, calls: Seq<HostCall>, r: ApiResult) -> bool {
    &&& node_setup::poll_calls(node_id, calls)
    &&& match node_setup::poll_effect(node_id, calls).1 {
        Ok(v) => r matches Ok(reply) && reply.status == 200 && (reply.body matches ReplyBody::SetupStatus(
            status,
        ) && status@ == v),
        Err(e) => fails_with(r, e),
    }
}

/// The reply to a read of the node's settings, the only call.
pub open spec fn config_reply(node_id: u64, calls: Seq<HostCall>, r: ApiResult) -> bool {
    &&& calls.len() == 1
    &&& store::config_key(calls[0], node_id)
    &&& match store::config_answer(calls[0]) {
        Ok(v) => r matches Ok(reply) && reply.status == 200 && (reply.body matches ReplyBody::NodeConfig(
            config,
        ) && config@ == v),
        Err(e) => fails_with(r, e),
    }
}

/// What `update_config` does once the node was found: a refused body answers its
/// error; otherwise the settings are saved and applied and, once that succeeded,
/// read back and answered.
pub open spec fn config_updated(node_id: u64, body: RequestBody, calls: Seq<HostCall>, r: ApiResult) -> bool {
    match config_body(body) {
        Err(e) => calls.len() == 0 && fails_with(r, e),
        Ok(config) => exists|n: int|
            #![trigger calls.subrange(0, n)]
            0 <= n <= calls.len() && saved_then_read(node_id, config, calls, n, r),
    }
}

/// The first `n` calls saved the settings; a failure answers its error, success
/// the settings read by the call after them.
pub open spec fn saved_then_read(node_id: u64, config: NodeConfig, calls: Seq<HostCall>, n: int, r: ApiResult) -> bool {
    exists|out: Result<(), ApiError>|
        #[trigger] node_setup::config_update_record(node_id, config@, calls.subrange(0, n), out) && match out {
            Err(e) => n == calls.len() && fails_with(r, e@),
            Ok(()) => config_reply(node_id, calls.skip(n), r),
        }
}

/// What `sync` does once the node was found: the node is synchronized and the
/// reply says so, or carries the failure.
pub open spec fn synced_reply(node_id: u64, calls: Seq<HostCall>, r: ApiResult) -> bool {
    exists|out: Result<(), ApiErrorView>|
        #[trigger] sync::node_synced(node_id, calls, out) && match out {
            Ok(()) => r matches Ok(reply) && reply.status == 200 && reply.body is Synced,
            Err(e) => fails_with(r, e),
        }
}

/// `POST /nodes/{nodeId}/setup`: starts an installation (202).
pub fn setup<H: HostApi>(host: &mut Host<H>, parts: RequestParts, scripts: &InstallerScripts) -> (r:
    ApiResult)
    ensures
        node_route_checks(parts, r),
        extends(old(host)@, final(host)@),
        node_route_record(parts, made(old(host)@, final(host)@)),
        r matches Ok(reply) ==> reply.status == 202 && (reply.body matches ReplyBody::SetupStatus(
            status,
        ) && status.status == SetupStatus::Installing),
        node_admitted(parts, made(old(host)@, final(host)@)) ==> node_route(
            named_node(parts),
            made(old(host)@, final(host)@).skip(1),
            r,
            set_up(named_node(parts), parts.body, scripts, made(old(host)@, final(host)@).skip(2), r),
        ),
{
    let ghost start = host@;
    let node_id = match admin_node(host, &parts) {
        Ok(id) => id,
        Err(e) => return Err(e),
    };
    let ghost s1 = host@;
    proof {
        lemma_node_rest(start, s1, host@);
        assert(made(s1, host@) =~= Seq::<HostCall>::empty());
    }
    let input: SetupInput = match parts.body {
        RequestBody::Setup(Ok(input)) => input,
        RequestBody::Setup(Err(e)) => return Err(e),
        _ => return Err(invalid_body()),
    };
    let out = node_setup::setup_node(host, node_id, input, scripts);
    proof {
        lemma_node_rest(start, s1, host@);
        assert(node_setup::setup_record(node_id, input, scripts, made(s1, host@), out));
        assert(setup_body(parts.body) == Ok::<SetupInput, ApiErrorView>(input));
    }
    let r = match out {
        Ok(status) => Ok(Reply { status: 202, body: ReplyBody::SetupStatus(status) }),
        Err(e) => Err(e),
    };
    proof {
        assert(made(start, host@).skip(2) == made(s1, host@));
        assert(started(r) == out);
        assert(set_up(node_id, parts.body, scripts, made(s1, host@), r));
    }
    r
}

/// The admin check and node lookup stay the start of the record; what follows is
/// the rest.
proof fn lemma_node_rest(start: Seq<HostCall>, checked: Seq<HostCall>, fin: Seq<HostCall>)
    requires
        extends(start, checked),
        extends(checked, fin),
        made(start, checked).len() == 2,
    ensures
        extends(start, fin),
        made(start, fin)[0] == made(start, checked)[0],
        made(start, fin)[1] == made(start, checked)[1],
        made(start, fin).skip(1)[0] == made(start, checked).skip(1)[0],
        made(start, fin).skip(2) == made(checked, fin),
{
    crate::host_api::lemma_made_compose(start, checked, fin);
    assert(made(start, fin).skip(2) =~= made(checked, fin));
}

/// `GET /nodes/{nodeId}/status`: the installation state, refreshed from its task.
pub fn status<H: HostApi>(host: &mut Host<H>, parts: RequestParts) -> (r: ApiResult)
    ensures
        node_route_checks(parts, r),
        extends(old(host)@, final(host)@),
        node_route_record(parts, made(old(host)@, final(host)@)),
        r matches Ok(reply) ==> reply.status == 200 && reply.body is SetupStatus,
        node_admitted(parts, made(old(host)@, final(host)@)) ==> node_route(
            named_node(parts),
            made(old(host)@, final(host)@).skip(1),
            r,
            polled_reply(named_node(parts), made(old(host)@, final(host)@).skip(2), r),
        ),
{
    let ghost start = host@;
    let node_id = match admin_node(host, &parts) {
        Ok(id) => id,
        Err(e) => return Err(e),
    };
    let ghost s1 = host@;
    let r = match node_setup::get_status(host, node_id) {
        Ok(status) => Ok(Reply { status: 200, body: ReplyBody::SetupStatus(status) }),
        Err(e) => Err(e),
    };
    proof {
        lemma_node_rest(start, s1, host@);
    }
    r
}

/// `GET /nodes/{nodeId}/config`: the saved node settings.
pub fn get_config<H: HostApi>(host: &mut Host<H>, parts: RequestParts) -> (r: ApiResult)
    ensures
        node_route_checks(parts, r),
        extends(old(host)@, final(host)@),
        node_route_record(parts, made(old(host)@, final(host)@)),
        r matches Ok(reply) ==> reply.status == 200 && reply.body is NodeConfig,
        node_admitted(parts, made(old(host)@, final(host)@)) ==> node_route(
            named_node(parts),
            made(old(host)@, final(host)@).skip(1),
            r,
            config_reply(named_node(parts), made(old(host)@, final(host)@).skip(2), r),
        ),
{
    let ghost start = host@;
    let node_id = match admin_node(host, &parts) {
        Ok(id) => id,
        Err(e) => return Err(e),
    };
    let ghost s1 = host@;
    let r = match node_setup::get_config(host, node_id) {
        Ok(config) => Ok(Reply { status: 200, body: ReplyBody::NodeConfig(config) }),
        Err(e) => Err(e),
    };
    proof {
        lemma_node_rest(start, s1, host@);
    }
    r
}

/// `PUT /nodes/{nodeId}/config`: saves and applies the node settings, then
/// answers them as stored.
pub fn update_config<H: HostApi>(host: &mut Host<H>, parts: RequestParts) -> (r: ApiResult)
    ensures
        node_route_checks(parts, r),
        extends(old(host)@, final(host)@),
        node_route_record(parts, made(old(host)@, final(host)@)),
        parts.body matches RequestBody::NodeConfig(Ok(config)) && !crate::domain::node::node_config_ok(
            config@,
        ) ==> r is Err,
        r matches Ok(reply) ==> reply.status == 200 && reply.body is NodeConfig,
        node_admitted(parts, made(old(host)@, final(host)@)) ==> node_route(
            named_node(parts),
            made(old(host)@, final(host)@).skip(1),
            r,
            config_updated(named_node(parts), parts.body, made(old(host)@, final(host)@).skip(2), r),
        ),
{
    let ghost start = host@;
    let node_id = match admin_node(host, &parts) {
        Ok(id) => id,
        Err(e) => return Err(e),
    };
    let ghost s1 = host@;
    proof {
        lemma_node_rest(start, s1, host@);
        assert(made(s1, host@) =~= Seq::<HostCall>::empty());
    }
    let input: NodeConfig = match parts.body {
        RequestBody::NodeConfig(Ok(input)) => input,
        RequestBody::NodeConfig(Err(e)) => return Err(e),
        _ => return Err(invalid_body()),
    };
    let ghost sent = input@;
    let saved = node_setup::update_config(host, node_id, input);
    let ghost s2 = host@;
    let ghost n: int = made(s1, s2).len() as int;
    proof {
        lemma_node_rest(start, s1, s2);
        assert(made(s1, s2).subrange(0, n) =~= made(s1, s2));
    }
    match saved {
        Ok(()) => {},
        Err(e) => {
            assert(node_setup::config_update_record(node_id, sent, made(s1, s2).subrange(0, n), saved));
            assert(saved_then_read(node_id, config_body(parts.body)->Ok_0, made(s1, s2), n, Err::<Reply, ApiError>(e)));
            return Err(e);
        },
    }
    let r = match node_setup::get_config(host, node_id) {
        Ok(config) => Ok(Reply { status: 200, body: ReplyBody::NodeConfig(config) }),
        Err(e) => Err(e),
    };
    proof {
        lemma_node_rest(start, s1, host@);
        crate::host_api::lemma_made_compose(s1, s2, host@);
        assert(made(s1, host@).subrange(0, n) =~= made(s1, s2));
        assert(made(s1, host@).skip(n) =~= made(s2, host@));
        assert(node_setup::config_update_record(node_id, sent, made(s1, host@).subrange(0, n), saved));
        assert(saved_then_read(node_id, config_body(parts.body)->Ok_0, made(s1, host@), n, r));
    }
    r
}

/// `POST /nodes/{nodeId}/sync`: republishes the node's desired state.
pub fn sync<H: HostApi>(host: &mut Host<H>, parts: RequestParts) -> (r: ApiResult)
    ensures
        node_route_checks(parts, r),
        extends(old(host)@, final(host)@),
        node_route_record(parts, made(old(host)@, final(host)@)),
        r matches Ok(reply) ==> reply.status == 200 && reply.body is Synced,
        node_admitted(parts, made(old(host)@, final(host)@)) ==> node_route(
            named_node(parts),
            made(old(host)@, final(host)@).skip(1),
            r,
            synced_reply(named_node(parts), made(old(host)@, final(host)@).skip(2), r),
        ),
{
    let ghost start = host@;
    let node_id = match admin_node(host, &parts) {
        Ok(id) => id,
        Err(e) => return Err(e),
    };
    let ghost s1 = host@;
    let out = sync::sync_node(host, node_id);
    proof {
        lemma_node_rest(start, s1, host@);
        assert(sync::node_synced(node_id, made(s1, host@), store::result_view(out)));
    }
    match out {
        Ok(()) => Ok(Reply { status: 200, body: ReplyBody::Synced }),
        Err(e) => Err(e),
    }
}

} // verus!
