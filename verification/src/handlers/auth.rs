//! Access checks: administrators for node routes, per-server abilities for
//! server routes. A failed permission check denies access.
use vstd::prelude::*;

use crate::host_api::{extends, made, Host, HostApi, HostApiError, HostCall, HostResult, StorageEntity};
use crate::services::store::result_view;
use crate::http::{error_view, fails_with, forbidden_view, ApiError, ApiErrorView};
use crate::router::{unauthenticated_view, RequestParts};

verus! {

pub const ADMIN_ABILITY: &'static str = "admin roles & permissions";

pub const VIEW_ABILITY: &'static str = "plugin:i3z7ix336msd4:fastdl-view";

pub const MANAGE_ABILITY: &'static str = "plugin:i3z7ix336msd4:fastdl-manage";

/// What a user may do with one game server's FastDL settings.
#[derive(Debug, Clone, Copy, PartialEq, Eq, Structural)]
pub struct ServerAccess {
    pub can_manage: bool,
}

pub open spec fn access_denied_view() -> ApiErrorView {
    forbidden_view("You do not have access to these FastDL settings"@)
}

pub open spec fn authz_unavailable_view() -> ApiErrorView {
    error_view(502, "AUTHZ_UNAVAILABLE"@, "Permission checks are temporarily unavailable"@)
}

/// The errors an access check can answer.
pub open spec fn access_error(e: ApiErrorView) -> bool {
    e == unauthenticated_view() || e == access_denied_view() || e == authz_unavailable_view()
}

pub fn forbidden() -> (e: ApiError)
    ensures
        e@ == access_denied_view(),
{
    ApiError::forbidden("You do not have access to these FastDL settings")
}

/// The signed-in user; ID 0 is no user.
pub open spec fn spec_user(user_id: Option<u64>) -> Option<u64> {
    match user_id {
        Some(id) if id != 0 => Some(id),
        _ => None,
    }
}

fn authenticated_user_id(parts: &RequestParts) -> (r: Result<u64, ApiError>)
    ensures
        match spec_user(parts.user_id) {
            Some(id) => r == Ok::<u64, ApiError>(id),
            None => fails_with(r, unauthenticated_view()),
        },
{
    match parts.user_id {
        Some(id) => if id != 0 {
            Ok(id)
        } else {
            Err(ApiError::new(401, "UNAUTHENTICATED", "Authentication required"))
        },
        None => Err(ApiError::new(401, "UNAUTHENTICATED", "Authentication required")),
    }
}

fn authorization_unavailable(error: HostApiError) -> (e: ApiError)
    ensures
        e@ == authz_unavailable_view(),
{
    ApiError::new(502, "AUTHZ_UNAVAILABLE", "Permission checks are temporarily unavailable")
}

/// What an ability check answers: the host's decision, or unavailable checks.
pub open spec fn ability_answer(answer: HostResult<bool>) -> Result<bool, ApiErrorView> {
    match answer {
        Ok(allowed) => Ok(allowed),
        Err(_) => Err(authz_unavailable_view()),
    }
}

/// Interprets the host's answer to an ability check; a failed check never grants access.
pub fn ability_granted(answer: HostResult<bool>) -> (r: Result<bool, ApiError>)
    ensures
        crate::services::store::result_view(r) == ability_answer(answer),
{
    match answer {
        Ok(allowed) => Ok(allowed),
        Err(e) => Err(authorization_unavailable(e)),
    }
}

/// The administrator check of a user: the admin ability, asked globally.
pub open spec fn admin_check(call: HostCall, user: u64) -> bool {
    call matches HostCall::AuthzCan { user_id, abilities, .. } && user_id == user && abilities
        == seq![ADMIN_ABILITY@]
}

/// A per-server ability check: one ability, asked for this server only.
pub open spec fn grant_check(call: HostCall, user: u64, server_id: u64, ability: Seq<char>) -> bool {
    call matches HostCall::AuthzCanAnyForEntity { user_id, entity, abilities, .. } && user_id == user
        && entity == (StorageEntity { entity_type: crate::host_api::ENTITY_SERVER, entity_id: server_id })
        && abilities == seq![ability]
}

/// The answer an ability check got.
pub open spec fn check_answer(call: HostCall) -> HostResult<bool> {
    match call {
        HostCall::AuthzCan { answer, .. } => answer,
        HostCall::AuthzCanAnyForEntity { answer, .. } => answer,
        _ => Ok(false),
    }
}

fn is_admin<H: HostApi>(host: &mut Host<H>, user_id: u64) -> (r: Result<bool, ApiError>)
    ensures
        extends(old(host)@, final(host)@),
        made(old(host)@, final(host)@).len() == 1,
        admin_check(made(old(host)@, final(host)@)[0], user_id),
        result_view(r) == ability_answer(check_answer(made(old(host)@, final(host)@)[0])),
        r matches Err(e) ==> e@ == authz_unavailable_view(),
{
    let abilities: Vec<&str> = vec![ADMIN_ABILITY];
    assert(crate::host_api::str_views(abilities@) =~= seq![ADMIN_ABILITY@]);
    ability_granted(host.authz_can(user_id, abilities.as_slice()))
}

/// What the administrator gate answers to the admin check.
pub open spec fn admin_gate(answer: HostResult<bool>) -> Result<(), ApiErrorView> {
    match answer {
        Ok(true) => Ok(()),
        Ok(false) => Err(access_denied_view()),
        Err(_) => Err(authz_unavailable_view()),
    }
}

/// Node routes are for administrators only. Without a user nothing is asked;
/// otherwise exactly the admin check is made and decides.
pub fn require_admin<H: HostApi>(host: &mut Host<H>, parts: &RequestParts) -> (r: Result<(), ApiError>)
    ensures
        extends(old(host)@, final(host)@),
        spec_user(parts.user_id) is None ==> fails_with(r, unauthenticated_view()) && final(host)@
            == old(host)@,
        spec_user(parts.user_id) matches Some(user) ==> {
            let calls = made(old(host)@, final(host)@);
            &&& calls.len() == 1
            &&& admin_check(calls[0], user)
            &&& result_view(r) == admin_gate(check_answer(calls[0]))
        },
        r matches Err(e) ==> access_error(e@),
{
    let user_id = match authenticated_user_id(parts) {
        Ok(id) => id,
        Err(e) => {
            assert(old(host)@.subrange(0, old(host)@.len() as int) =~= old(host)@);
            return Err(e);
        },
    };
    match is_admin(host, user_id) {
        Ok(true) => Ok(()),
        Ok(false) => Err(forbidden()),
        Err(e) => Err(e),
    }
}

/// The access decision from the three ability answers: administrators and
/// managers may change the settings, viewers may only read them.
pub open spec fn spec_server_access(admin: bool, manage: bool, view: bool) -> Option<bool> {
    if admin || manage {
        Some(true)
    } else if view {
        Some(false)
    } else {
        None
    }
}

/// Managing includes viewing; viewing alone never allows changes; without an
/// ability (or administrator rights) there is no access at all.
pub proof fn access_levels(admin: bool, manage: bool, view: bool)
    ensures
        spec_server_access(admin, manage, view) == Some(true) <==> (admin || manage),
        spec_server_access(admin, manage, view) == Some(false) <==> (!admin && !manage && view),
        spec_server_access(admin, manage, view) is None <==> !(admin || manage || view),
{
}

pub fn server_access(admin: bool, manage: bool, view: bool) -> (r: Result<ServerAccess, ApiError>)
    ensures
        match spec_server_access(admin, manage, view) {
            Some(can_manage) => r matches Ok(a) && a.can_manage == can_manage,
            None => fails_with(r, access_denied_view()),
        },
{
    let can_manage = admin || manage;
    if !(can_manage || view) {
        return Err(forbidden());
    }
    Ok(ServerAccess { can_manage })
}

/// The checks a signed-in user's access to one server makes, and what they answer:
/// the admin check, then, unless it granted access, the manage ability for this
/// server, then, unless that granted it, the view ability for this server. The
/// first failed check denies access; otherwise `server_access` decides.
pub open spec fn server_authorization(
    user: u64,
    server_id: u64,
    calls: Seq<HostCall>,
    r: Result<ServerAccess, ApiError>,
) -> bool {
    &&& calls.len() >= 1
    &&& admin_check(calls[0], user)
    &&& match check_answer(calls[0]) {
        Err(_) => calls.len() == 1 && fails_with(r, authz_unavailable_view()),
        Ok(true) => calls.len() == 1 && (r matches Ok(a) && a.can_manage),
        Ok(false) => {
            &&& calls.len() >= 2
            &&& grant_check(calls[1], user, server_id, MANAGE_ABILITY@)
            &&& match check_answer(calls[1]) {
                Err(_) => calls.len() == 2 && fails_with(r, authz_unavailable_view()),
                Ok(true) => calls.len() == 2 && (r matches Ok(a) && a.can_manage),
                Ok(false) => {
                    &&& calls.len() == 3
                    &&& grant_check(calls[2], user, server_id, VIEW_ABILITY@)
                    &&& match check_answer(calls[2]) {
                        Err(_) => fails_with(r, authz_unavailable_view()),
                        Ok(true) => r matches Ok(a) && !a.can_manage,
                        Ok(false) => fails_with(r, access_denied_view()),
                    }
                },
            }
        },
    }
}

/// An administrator route's record: without a user nothing is asked; otherwise the
/// admin check comes first, and a caller it does not admit gets nothing more.
pub open spec fn admin_first(user_id: Option<u64>, calls: Seq<HostCall>) -> bool {
    match spec_user(user_id) {
        None => calls.len() == 0,
        Some(user) => {
            &&& calls.len() >= 1
            &&& admin_check(calls[0], user)
            &&& admin_gate(check_answer(calls[0])) is Err ==> calls.len() == 1
        },
    }
}

/// How many ability checks a server access decision makes.
pub open spec fn checks_len(calls: Seq<HostCall>) -> int {
    match check_answer(calls[0]) {
        Ok(false) => match check_answer(calls[1]) {
            Ok(false) => 3,
            _ => 2,
        },
        _ => 1,
    }
}

/// Whether the ability checks granted access.
pub open spec fn checks_granted(calls: Seq<HostCall>) -> bool {
    match check_answer(calls[0]) {
        Ok(true) => true,
        Ok(false) => match check_answer(calls[1]) {
            Ok(true) => true,
            Ok(false) => check_answer(calls[2]) == Ok::<bool, HostApiError>(true),
            Err(_) => false,
        },
        Err(_) => false,
    }
}

/// A server route's record: without a user nothing is asked; otherwise the
/// checks for this server come first, and a caller they do not admit gets
/// nothing more.
pub open spec fn server_checks_first(user_id: Option<u64>, server_id: u64, calls: Seq<HostCall>) -> bool {
    match spec_user(user_id) {
        None => calls.len() == 0,
        Some(user) => {
            &&& calls.len() >= checks_len(calls)
            &&& admin_check(calls[0], user)
            &&& check_answer(calls[0]) == Ok::<bool, HostApiError>(false) ==> grant_check(
                calls[1],
                user,
                server_id,
                MANAGE_ABILITY@,
            )
            &&& checks_len(calls) == 3 ==> grant_check(calls[2], user, server_id, VIEW_ABILITY@)
            &&& !checks_granted(calls) ==> calls.len() == checks_len(calls)
        },
    }
}

/// Checks a user's access to one game server. The administrator check comes
/// first; the manage and view abilities are asked for this server only, and
/// only as far as needed. Any failed check denies access.
pub fn authorize_server<H: HostApi>(host: &mut Host<H>, parts: &RequestParts, server_id: u64) -> (r:
    Result<ServerAccess, ApiError>)
    ensures
        extends(old(host)@, final(host)@),
        spec_user(parts.user_id) is None ==> fails_with(r, unauthenticated_view()) && final(host)@
            == old(host)@,
        spec_user(parts.user_id) matches Some(user) ==> server_authorization(
            user,
            server_id,
            made(old(host)@, final(host)@),
            r,
        ),
        r matches Err(e) ==> access_error(e@),
{
    let ghost start = host@;
    let user_id = match authenticated_user_id(parts) {
        Ok(id) => id,
        Err(e) => {
            assert(start.subrange(0, start.len() as int) =~= start);
            return Err(e);
        },
    };
    let admin = match is_admin(host, user_id) {
        Ok(admin) => admin,
        Err(e) => return Err(e),
    };
    let entity = StorageEntity::server(server_id);
    if admin {
        return server_access(true, true, true);
    }
    let ghost after_admin = host@;
    let abilities: Vec<&str> = vec![MANAGE_ABILITY];
    assert(crate::host_api::str_views(abilities@) =~= seq![MANAGE_ABILITY@]);
    let manage = match ability_granted(host.authz_can_any_for_entity(user_id, entity, abilities.as_slice())) {
        Ok(manage) => manage,
        Err(e) => {
            proof {
                crate::host_api::lemma_made_compose(start, after_admin, host@);
            }
            return Err(e);
        },
    };
    proof {
        crate::host_api::lemma_made_compose(start, after_admin, host@);
    }
    if manage {
        return server_access(false, true, true);
    }
    let ghost after_manage = host@;
    let abilities: Vec<&str> = vec![VIEW_ABILITY];
    assert(crate::host_api::str_views(abilities@) =~= seq![VIEW_ABILITY@]);
    let view = match ability_granted(host.authz_can_any_for_entity(user_id, entity, abilities.as_slice())) {
        Ok(view) => view,
        Err(e) => {
            proof {
                crate::host_api::lemma_made_compose(start, after_manage, host@);
            }
            return Err(e);
        },
    };
    proof {
        crate::host_api::lemma_made_compose(start, after_manage, host@);
    }
    server_access(false, false, view)
}

} // verus!
