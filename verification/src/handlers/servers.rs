//! Game server routes: read, save and apply one server's FastDL settings.
use vstd::prelude::*;

use crate::domain::ServerInput;
use crate::host_api::{extends, made, Host, HostApi, HostApiError, HostCall, ServerInfo};
use crate::http::{
    bad_request_view, entity_param, fails_with, invalid_body, invalid_body_view, params_view,
    parse_u64_param, ApiError, ApiErrorView, ApiResult, Reply, ReplyBody,
};
use crate::router::{unauthenticated_view, RequestBody, RequestParts};
use crate::domain::validation::url_ok;
use crate::services::game_config::spec_commands;
use crate::services::servers;

use super::auth::{self, spec_user};

verus! {

/// The checks every server route makes before anything else: a valid server
/// reference, then a signed-in user.
pub open spec fn server_route_checks(parts: RequestParts, r: ApiResult) -> bool {
    &&& entity_param(params_view(parts.params@), "serverId"@) is None ==> fails_with(
        r,
        bad_request_view("Invalid entity reference"@),
    )
    &&& entity_param(params_view(parts.params@), "serverId"@) is Some && spec_user(parts.user_id)
        is None ==> fails_with(r, unauthenticated_view())
}

/// A server route's record: a request without a valid server asks nothing;
/// otherwise the access checks for that server come first.
pub open spec fn server_route_record(parts: RequestParts, calls: Seq<HostCall>) -> bool {
    match entity_param(params_view(parts.params@), "serverId"@) {
        None => calls.len() == 0,
        Some(server_id) => auth::server_checks_first(parts.user_id, server_id, calls),
    }
}

/// Whether the checks that admitted the caller found an administrator or granted
/// the manage ability.
pub open spec fn granted_manage(calls: Seq<HostCall>) -> bool {
    auth::check_answer(calls[0]) == Ok::<bool, HostApiError>(true) || auth::check_answer(calls[1]) == Ok::<
        bool,
        HostApiError,
    >(true)
}

/// The request names a server and a signed-in user whom the checks made at the
/// start of `calls` admitted.
pub open spec fn admitted(parts: RequestParts, calls: Seq<HostCall>) -> bool {
    &&& entity_param(params_view(parts.params@), "serverId"@) is Some
    &&& spec_user(parts.user_id) is Some
    &&& auth::checks_granted(calls)
}

/// The server a request names.
pub open spec fn named_server(parts: RequestParts) -> u64 {
    entity_param(params_view(parts.params@), "serverId"@)->Some_0
}

/// The calls a server route makes once the caller was admitted.
pub open spec fn after_checks(calls: Seq<HostCall>) -> Seq<HostCall> {
    calls.skip(auth::checks_len(calls))
}

/// The server a lookup of `server_id` found.
pub open spec fn server_found(server_id: u64, call: HostCall) -> Option<ServerInfo> {
    match call {
        HostCall::GetServer { id, answer } => if id == server_id {
            match servers::server_lookup(answer) {
                Ok(server) => Some(server),
                Err(_) => None,
            }
        } else {
            None
        },
        _ => None,
    }
}

/// The lookup of `server_id`, the only call, failed with the error `r` carries.
pub open spec fn lookup_failed(server_id: u64, calls: Seq<HostCall>, r: ApiResult) -> bool {
    &&& calls.len() == 1
    &&& calls[0] matches HostCall::GetServer { id, answer }
    &&& id == server_id
    &&& servers::server_lookup(answer) matches Err(e) && fails_with(r, e)
}

/// The reply to a view: the view with status 200, or the view's error.
pub open spec fn replied_view(server: ServerInfo, can_manage: bool, calls: Seq<HostCall>, r: ApiResult) -> bool {
    &&& servers::view_calls(server, calls)
    &&& match servers::view_effect(server, can_manage, calls).1 {
        Ok(v) => r matches Ok(reply) && reply.status == 200 && (reply.body matches ReplyBody::Server(response)
            && response@ == v),
        Err(e) => fails_with(r, e),
    }
}

/// What `get` does once the caller was admitted: the server is looked up and its
/// view answered.
pub open spec fn got(server_id: u64, can_manage: bool, calls: Seq<HostCall>, r: ApiResult) -> bool {
    &&& calls.len() >= 1
    &&& match server_found(server_id, calls[0]) {
        None => lookup_failed(server_id, calls, r),
        Some(server) => replied_view(server, can_manage, calls.skip(1), r),
    }
}

/// The input a request body carries, or the error that refuses it.
pub open spec fn body_input(body: RequestBody) -> Result<ServerInput, ApiErrorView> {
    match body {
        RequestBody::Server(Ok(input)) => Ok(input),
        RequestBody::Server(Err(e)) => Err(e@),
        _ => Err(invalid_body_view()),
    }
}

/// What `update` does once the caller was admitted: a caller who may not manage
/// the server is refused; otherwise the server is looked up, the body's settings
/// saved and, once saved, the view answered.
pub open spec fn updated(server_id: u64, can_manage: bool, body: RequestBody, calls: Seq<HostCall>, r: ApiResult) -> bool {
    if !can_manage {
        calls.len() == 0 && fails_with(r, auth::access_denied_view())
    } else {
        &&& calls.len() >= 1
        &&& match server_found(server_id, calls[0]) {
            None => lookup_failed(server_id, calls, r),
            Some(server) => match body_input(body) {
                Err(e) => calls.len() == 1 && fails_with(r, e),
                Ok(input) => exists|n: int|
                    #![trigger calls.subrange(1, n)]
                    1 <= n <= calls.len() && saved_then_viewed(server, input, calls, n, r),
            },
        }
    }
}

/// The calls from 1 to `n` saved the settings; a failed save answers its error,
/// a successful one the view read by the calls after it.
pub open spec fn saved_then_viewed(server: ServerInfo, input: ServerInput, calls: Seq<HostCall>, n: int, r: ApiResult) -> bool {
    let saved = servers::update_effect(server, input@, calls.subrange(1, n));
    &&& saved.0 == n - 1
    &&& saved.2
    &&& match saved.1 {
        Err(e) => n == calls.len() && fails_with(r, e),
        Ok(()) => replied_view(server, true, calls.skip(n), r),
    }
}

/// What `configure` does once the caller was admitted: a caller who may not
/// manage the server is refused; otherwise the server is looked up and its saved
/// settings applied; the reply carries the commands.
pub open spec fn configured(server_id: u64, can_manage: bool, calls: Seq<HostCall>, r: ApiResult) -> bool {
    if !can_manage {
        calls.len() == 0 && fails_with(r, auth::access_denied_view())
    } else {
        &&& calls.len() >= 1
        &&& match server_found(server_id, calls[0]) {
            None => lookup_failed(server_id, calls, r),
            Some(server) => exists|out: Result<Vec<String>, ApiError>|
                #[trigger] servers::configure_record(server, calls.skip(1), out) && match out {
                    Ok(cmds) => r matches Ok(reply) && reply.status == 200 && reply.body
                        == ReplyBody::Configured(cmds),
                    Err(e) => fails_with(r, e@),
                },
        }
    }
}

/// The server a request addresses and whether the caller may change its settings.
fn authorized_server<H: HostApi>(host: &mut Host<H>, parts: &RequestParts) -> (r: Result<
    (u64, bool),
    ApiError,
>)
    ensures
        extends(old(host)@, final(host)@),
        server_route_record(*parts, made(old(host)@, final(host)@)),
        r is Ok ==> spec_user(parts.user_id) is Some && auth::checks_granted(
            made(old(host)@, final(host)@),
        ),
        r matches Ok((id, can_manage)) ==> entity_param(params_view(parts.params@), "serverId"@) == Some(id)
            && made(old(host)@, final(host)@).len() == auth::checks_len(made(old(host)@, final(host)@))
            && can_manage == granted_manage(made(old(host)@, final(host)@)),
        admitted(*parts, made(old(host)@, final(host)@)) ==> r is Ok,
        entity_param(params_view(parts.params@), "serverId"@) is None ==> fails_with(
            r,
            bad_request_view("Invalid entity reference"@),
        ),
        entity_param(params_view(parts.params@), "serverId"@) is Some && spec_user(parts.user_id)
            is None ==> fails_with(r, unauthenticated_view()),
{
    let server_id = match parse_u64_param(&parts.params, "serverId") {
        Ok(id) => id,
        Err(e) => {
            assert(made(old(host)@, host@) =~= Seq::<HostCall>::empty());
            return Err(e);
        },
    };
    match auth::authorize_server(host, parts, server_id) {
        Ok(access) => Ok((server_id, access.can_manage)),
        Err(e) => Err(e),
    }
}

/// `GET /servers/{serverId}/fastdl`: the settings and public download address.
pub fn get<H: HostApi>(host: &mut Host<H>, parts: RequestParts) -> (r: ApiResult)
    ensures
        server_route_checks(parts, r),
        extends(old(host)@, final(host)@),
        server_route_record(parts, made(old(host)@, final(host)@)),
        r matches Ok(reply) ==> reply.status == 200 && reply.body is Server,
        admitted(parts, made(old(host)@, final(host)@)) ==> got(
            named_server(parts),
            granted_manage(made(old(host)@, final(host)@)),
            after_checks(made(old(host)@, final(host)@)),
            r,
        ),
{
    let ghost start = host@;
    let (server_id, can_manage) = match authorized_server(host, &parts) {
        Ok(found) => found,
        Err(e) => return Err(e),
    };
    let ghost s1 = host@;
    let server = match servers::get_server(host, server_id) {
        Ok(server) => server,
        Err(e) => {
            proof { lemma_after_checks(start, s1, host@); }
            return Err(e);
        },
    };
    let ghost s2 = host@;
    let r = match servers::view(host, &server, can_manage) {
        Ok(response) => Ok(Reply { status: 200, body: ReplyBody::Server(response) }),
        Err(e) => Err(e),
    };
    proof {
        crate::host_api::lemma_made_compose(s1, s2, host@);
        lemma_after_checks(start, s1, host@);
        assert(made(s1, host@)[0] == made(s1, s2)[0]);
        assert(made(s1, host@).skip(1) =~= made(s2, host@));
    }
    r
}

/// What the checks made stays the start of the record, and what follows is the
/// rest.
proof fn lemma_after_checks(start: Seq<HostCall>, checked: Seq<HostCall>, fin: Seq<HostCall>)
    requires
        extends(start, checked),
        extends(checked, fin),
        made(start, checked).len() == auth::checks_len(made(start, checked)),
        made(start, checked).len() >= 1,
    ensures
        extends(start, fin),
        auth::checks_len(made(start, fin)) == auth::checks_len(made(start, checked)),
        auth::checks_granted(made(start, fin)) == auth::checks_granted(made(start, checked)),
        auth::checks_granted(made(start, checked)) ==> granted_manage(made(start, fin)) == granted_manage(
            made(start, checked),
        ),
        after_checks(made(start, fin)) == made(checked, fin),
{
    crate::host_api::lemma_made_compose(start, checked, fin);
    let a = made(start, checked);
    let b = made(start, fin);
    assert(b[0] == a[0]);
    if a.len() >= 2 {
        assert(b[1] == a[1]);
    }
    if a.len() >= 3 {
        assert(b[2] == a[2]);
    }
    assert(b.skip(a.len() as int) =~= made(checked, fin));
}

/// `PUT /servers/{serverId}/fastdl`: saves and publishes the settings; managers only.
pub fn update<H: HostApi>(host: &mut Host<H>, parts: RequestParts) -> (r: ApiResult)
    ensures
        server_route_checks(parts, r),
        extends(old(host)@, final(host)@),
        server_route_record(parts, made(old(host)@, final(host)@)),
        r matches Ok(reply) ==> reply.status == 200 && (reply.body matches ReplyBody::Server(
            response,
        ) && response.can_manage),
        admitted(parts, made(old(host)@, final(host)@)) ==> updated(
            named_server(parts),
            granted_manage(made(old(host)@, final(host)@)),
            parts.body,
            after_checks(made(old(host)@, final(host)@)),
            r,
        ),
{
    let ghost start = host@;
    let (server_id, can_manage) = match authorized_server(host, &parts) {
        Ok(found) => found,
        Err(e) => return Err(e),
    };
    let ghost s1 = host@;
    if !can_manage {
        proof { lemma_after_checks(start, s1, host@); }
        return Err(auth::forbidden());
    }
    let server = match servers::get_server(host, server_id) {
        Ok(server) => server,
        Err(e) => {
            proof { lemma_after_checks(start, s1, host@); }
            return Err(e);
        },
    };
    let ghost s2 = host@;
    proof {
        lemma_after_checks(start, s1, s2);
    }
    let input: ServerInput = match parts.body {
        RequestBody::Server(Ok(input)) => input,
        RequestBody::Server(Err(e)) => return Err(e),
        _ => return Err(invalid_body()),
    };
    let ghost sent = input@;
    let saved = servers::update_server(host, &server, input);
    let ghost s3 = host@;
    let ghost n: int = 1 + made(s2, s3).len() as int;
    proof {
        crate::host_api::lemma_made_compose(s1, s2, s3);
        lemma_after_checks(start, s1, s3);
        assert(made(s1, s3)[0] == made(s1, s2)[0]);
        assert(made(s1, s3).subrange(1, n) =~= made(s2, s3));
    }
    match saved {
        Ok(()) => {},
        Err(e) => {
            assert(saved_then_viewed(server, input_of(parts.body), made(s1, s3), n, Err::<Reply, ApiError>(e)));
            return Err(e);
        },
    }
    let r = match servers::view(host, &server, can_manage) {
        Ok(response) => Ok(Reply { status: 200, body: ReplyBody::Server(response) }),
        Err(e) => Err(e),
    };
    proof {
        crate::host_api::lemma_made_compose(s1, s3, host@);
        crate::host_api::lemma_made_compose(s2, s3, host@);
        lemma_after_checks(start, s1, host@);
        assert(made(s1, host@)[0] == made(s1, s2)[0]);
        assert(made(s1, host@).subrange(1, n) =~= made(s2, s3));
        assert(made(s1, host@).skip(n) =~= made(s3, host@));
        assert(saved_then_viewed(server, input_of(parts.body), made(s1, host@), n, r));
    }
    r
}

/// The settings a body that was accepted carries.
pub open spec fn input_of(body: RequestBody) -> ServerInput {
    body_input(body)->Ok_0
}

/// `POST /servers/{serverId}/fastdl/configure`: writes the saved settings to
/// server.cfg and answers the RCON commands for them; managers only.
pub fn configure<H: HostApi>(host: &mut Host<H>, parts: RequestParts) -> (r: ApiResult)
    ensures
        server_route_checks(parts, r),
        extends(old(host)@, final(host)@),
        server_route_record(parts, made(old(host)@, final(host)@)),
        r matches Ok(reply) ==> reply.status == 200 && (reply.body matches ReplyBody::Configured(
            cmds,
        ) && exists|url: Seq<char>|
            url_ok(url, false) && cmds@.map_values(|c: String| c@) == #[trigger] spec_commands(url)),
        admitted(parts, made(old(host)@, final(host)@)) ==> configured(
            named_server(parts),
            granted_manage(made(old(host)@, final(host)@)),
            after_checks(made(old(host)@, final(host)@)),
            r,
        ),
{
    let ghost start = host@;
    let (server_id, can_manage) = match authorized_server(host, &parts) {
        Ok(found) => found,
        Err(e) => return Err(e),
    };
    let ghost s1 = host@;
    if !can_manage {
        proof { lemma_after_checks(start, s1, host@); }
        return Err(auth::forbidden());
    }
    let server = match servers::get_server(host, server_id) {
        Ok(server) => server,
        Err(e) => {
            proof { lemma_after_checks(start, s1, host@); }
            return Err(e);
        },
    };
    let ghost s2 = host@;
    let out = servers::configure_server(host, &server);
    let ghost s3 = host@;
    proof {
        crate::host_api::lemma_made_compose(s1, s2, s3);
        lemma_after_checks(start, s1, s3);
        assert(made(s1, s3)[0] == made(s1, s2)[0]);
        assert(made(s1, s3).skip(1) =~= made(s2, s3));
        assert(servers::configure_record(server, made(s1, s3).skip(1), out));
    }
    match out {
        Ok(configuration) => Ok(Reply { status: 200, body: ReplyBody::Configured(configuration) }),
        Err(e) => Err(e),
    }
}

} // verus!
