//! Route handlers keep parsing, authorization and replies separate from services.
pub mod admin;
pub mod auth;
pub mod events;
pub mod nodes;
pub mod servers;

use vstd::prelude::*;

use crate::domain::SetupStatus;
use crate::host_api::{extends, made, Host, HostApi, HostCall};
use crate::http::{fails_with, ApiResult, ReplyBody};
use crate::router::{unauthenticated_view, RequestBody, RequestParts, RouteId};
use crate::services::node_setup::InstallerScripts;

verus! {

/// A node route's answer: its checks and record, and, for an admitted
/// administrator, the node lookup followed by what `served` says of the rest.
pub open spec fn node_answered(parts: RequestParts, calls: Seq<HostCall>, r: ApiResult, served: bool) -> bool {
    &&& nodes::node_route_checks(parts, r)
    &&& nodes::node_route_record(parts, calls)
    &&& nodes::node_admitted(parts, calls) ==> nodes::node_route(nodes::named_node(parts), calls.skip(1), r, served)
}

/// A server route's answer: its checks and record, and, for an admitted
/// caller, what `served` says of the calls after the checks.
pub open spec fn server_answered(parts: RequestParts, calls: Seq<HostCall>, r: ApiResult, served: bool) -> bool {
    &&& servers::server_route_checks(parts, r)
    &&& servers::server_route_record(parts, calls)
    &&& servers::admitted(parts, calls) ==> served
}

/// What serving a matched route answers, read from the calls it made: each route
/// is served by its own handler, with that handler's contract.
pub open spec fn routed(route: RouteId, scripts: &InstallerScripts, parts: RequestParts, calls: Seq<HostCall>, r: ApiResult) -> bool {
    let node_id = nodes::named_node(parts);
    let server_id = servers::named_server(parts);
    let can_manage = servers::granted_manage(calls);
    let after = servers::after_checks(calls);
    match route {
        RouteId::AdminNodes => {
            &&& auth::spec_user(parts.user_id) is None ==> fails_with(r, unauthenticated_view())
            &&& (r matches Ok(reply) ==> reply.status == 200 && reply.body is Nodes)
            &&& auth::admin_first(parts.user_id, calls)
            &&& (auth::spec_user(parts.user_id) is Some && auth::admin_gate(auth::check_answer(calls[0])) is Ok
                ==> crate::services::admin::overview(calls.skip(1), admin::listed(r)))
        },
        RouteId::NodeConfigGet => {
            &&& (r matches Ok(reply) ==> reply.status == 200 && reply.body is NodeConfig)
            &&& node_answered(parts, calls, r, nodes::config_reply(node_id, calls.skip(2), r))
        },
        RouteId::NodeConfigUpdate => {
            &&& (parts.body matches RequestBody::NodeConfig(Ok(config)) && !crate::domain::node::node_config_ok(
                config@,
            ) ==> r is Err)
            &&& (r matches Ok(reply) ==> reply.status == 200 && reply.body is NodeConfig)
            &&& node_answered(parts, calls, r, nodes::config_updated(node_id, parts.body, calls.skip(2), r))
        },
        RouteId::NodeStatus => {
            &&& (r matches Ok(reply) ==> reply.status == 200 && reply.body is SetupStatus)
            &&& node_answered(parts, calls, r, nodes::polled_reply(node_id, calls.skip(2), r))
        },
        RouteId::NodeSetup => {
            &&& (r matches Ok(reply) ==> reply.status == 202 && (reply.body matches ReplyBody::SetupStatus(status)
                && status.status == SetupStatus::Installing))
            &&& node_answered(parts, calls, r, nodes::set_up(node_id, parts.body, scripts, calls.skip(2), r))
        },
        RouteId::NodeSync => {
            &&& (r matches Ok(reply) ==> reply.status == 200 && reply.body is Synced)
            &&& node_answered(parts, calls, r, nodes::synced_reply(node_id, calls.skip(2), r))
        },
        RouteId::ServerFastdlGet => {
            &&& (r matches Ok(reply) ==> reply.status == 200 && reply.body is Server)
            &&& server_answered(parts, calls, r, servers::got(server_id, can_manage, after, r))
        },
        RouteId::ServerFastdlUpdate => {
            &&& (r matches Ok(reply) ==> reply.status == 200 && (reply.body matches ReplyBody::Server(response)
                && response.can_manage))
            &&& server_answered(parts, calls, r, servers::updated(server_id, can_manage, parts.body, after, r))
        },
        RouteId::ServerFastdlConfigure => {
            &&& (r matches Ok(reply) ==> reply.status == 200 && reply.body is Configured)
            &&& server_answered(parts, calls, r, servers::configured(server_id, can_manage, after, r))
        },
    }
}

/// Serves a matched route by its own handler. Every route checks its caller
/// before any other host call: administrators for the overview and node routes,
/// per-server access for server routes.
pub fn handle<H: HostApi>(host: &mut Host<H>, scripts: &InstallerScripts, route: RouteId, parts: RequestParts)
    -> (r: ApiResult)
    ensures
        extends(old(host)@, final(host)@),
        routed(route, scripts, parts, made(old(host)@, final(host)@), r),
{
    match route {
        RouteId::AdminNodes => admin::list_nodes(host, &parts),
        RouteId::NodeConfigGet => nodes::get_config(host, parts),
        RouteId::NodeConfigUpdate => nodes::update_config(host, parts),
        RouteId::NodeStatus => nodes::status(host, parts),
        RouteId::NodeSetup => nodes::setup(host, parts, scripts),
        RouteId::NodeSync => nodes::sync(host, parts),
        RouteId::ServerFastdlGet => servers::get(host, parts),
        RouteId::ServerFastdlUpdate => servers::update(host, parts),
        RouteId::ServerFastdlConfigure => servers::configure(host, parts),
    }
}

} // verus!
