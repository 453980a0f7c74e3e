//! The administrators' node overview route.
use vstd::prelude::*;

use crate::host_api::{extends, made, Host, HostApi};
use crate::domain::NodesResponse;
use crate::http::{fails_with, ApiError, ApiResult, Reply, ReplyBody};
use crate::router::{unauthenticated_view, RequestParts};
use crate::services::admin;

use super::auth::{self, spec_user};

verus! {

/// The overview a reply carries, or its error.
pub open spec fn listed(r: ApiResult) -> Result<NodesResponse, ApiError> {
    match r {
        Ok(reply) => match reply.body {
            ReplyBody::Nodes(nodes) => Ok(nodes),
            _ => arbitrary(),
        },
        Err(e) => Err(e),
    }
}

/// `GET /admin/nodes`: every node with its installation state.
pub fn list_nodes<H: HostApi>(host: &mut Host<H>, parts: &RequestParts) -> (r: ApiResult)
    ensures
        spec_user(parts.user_id) is None ==> fails_with(r, unauthenticated_view()),
        r matches Ok(reply) ==> reply.status == 200 && reply.body is Nodes,
        extends(old(host)@, final(host)@),
        auth::admin_first(parts.user_id, made(old(host)@, final(host)@)),
        spec_user(parts.user_id) is Some && auth::admin_gate(
            auth::check_answer(made(old(host)@, final(host)@)[0]),
        ) is Ok ==> admin::overview(made(old(host)@, final(host)@).skip(1), listed(r)),
{
    let ghost start = host@;
    match auth::require_admin(host, parts) {
        Ok(()) => {},
        Err(e) => return Err(e),
    }
    let ghost s1 = host@;
    let out = admin::list_nodes(host);
    proof {
        crate::host_api::lemma_made_compose(start, s1, host@);
        assert(made(start, host@)[0] == made(start, s1)[0]);
        assert(made(start, host@).skip(1) =~= made(s1, host@));
    }
    match out {
        Ok(nodes) => Ok(Reply { status: 200, body: ReplyBody::Nodes(nodes) }),
        Err(e) => Err(e),
    }
}

} // verus!
