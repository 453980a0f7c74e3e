//! Panel events keep published content in step with server changes and
//! installation tasks.
use vstd::prelude::*;

use crate::host_api::{extends, made, Host, HostApi, HostCall};
use crate::http::ApiError;
use crate::services::{node_setup, store, sync};

verus! {

/// The panel events the plugin subscribes to, as far as it reads them.
pub enum HostEvent {
    /// A game server was deleted; `node_id` is the node it was on (0 if unknown).
    ServerDeleted { server_id: u64, node_id: u64 },
    /// A game server's settings changed.
    ServerUpdated { server_id: u64 },
    /// A daemon task completed or failed.
    TaskFinished { task_type: String, node_id: u64 },
    /// Anything else, including server events without a server.
    Other,
}

/// The task type of daemon command tasks, which installations run as.
pub const COMMAND_TASK_TYPE: &'static str = "cmdexec";

/// Events the plugin acts on: server deletions and updates, and finished command tasks.
pub open spec fn spec_handled(event: HostEvent) -> bool {
    match event {
        HostEvent::ServerDeleted { .. } => true,
        HostEvent::ServerUpdated { .. } => true,
        HostEvent::TaskFinished { task_type, .. } => task_type@ == COMMAND_TASK_TYPE@,
        HostEvent::Other => false,
    }
}

pub open spec fn event_failure_line(e: ApiError) -> Seq<char> {
    "FastDL event synchronization failed: "@ + e@.message
}

/// After a service ran with the first `k` calls and result `r`: success ends the
/// handling there, a failure adds exactly one log line naming it.
pub open spec fn event_tail(calls: Seq<HostCall>, k: int, r: Result<(), ApiError>) -> bool {
    &&& 0 <= k <= calls.len()
    &&& r is Ok ==> calls.len() == k
    &&& r matches Err(e) ==> calls.len() == k + 1 && calls[k] == HostCall::LogError {
        message: event_failure_line(e),
    }
}

/// What the service an event runs did, read from its calls and result: a
/// deletion deletes the server's publication and state, an update re-applies its
/// settings, a finished command task polls the node's installation status.
#[verifier::opaque]
pub open spec fn serviced(event: HostEvent, calls: Seq<HostCall>, r: Result<(), ApiError>) -> bool {
    match event {
        HostEvent::ServerDeleted { server_id, node_id } => crate::services::servers::carried_out(
            sync::deleted_effect(server_id, node_id, calls),
            calls,
            r,
        ),
        HostEvent::ServerUpdated { server_id } => crate::services::servers::carried_out(
            sync::updated_effect(server_id, calls),
            calls,
            r,
        ),
        HostEvent::TaskFinished { node_id, .. } => node_setup::poll_calls(node_id, calls) && (r is Ok
            <==> node_setup::poll_effect(node_id, calls).1 is Ok),
        HostEvent::Other => calls.len() == 0,
    }
}

/// What handling an event does: an event the plugin acts on runs its service,
/// and a failure of the service is logged; other events make no call.
pub open spec fn event_record(event: HostEvent, before: Seq<HostCall>, after: Seq<HostCall>) -> bool {
    let calls = made(before, after);
    if spec_handled(event) {
        exists|k: int, r: Result<(), ApiError>|
            #![trigger event_tail(calls, k, r)]
            event_tail(calls, k, r) && serviced(event, calls.subrange(0, k), r)
    } else {
        calls.len() == 0
    }
}

/// Runs the service of an event the plugin acts on.
fn run<H: HostApi>(host: &mut Host<H>, event: &HostEvent) -> (r: Result<(), ApiError>)
    requires
        spec_handled(*event),
    ensures
        extends(old(host)@, final(host)@),
        serviced(*event, made(old(host)@, final(host)@), r),
{
    reveal(serviced);
    let ghost start = host@;
    match event {
        HostEvent::ServerDeleted { server_id, node_id } => {
            let r = sync::on_deleted(host, *server_id, *node_id);
            r
        },
        HostEvent::ServerUpdated { server_id } => sync::on_updated(host, *server_id),
        HostEvent::TaskFinished { node_id, .. } => match node_setup::get_status(host, *node_id) {
            Ok(_) => Ok(()),
            Err(e) => Err(e),
        },
        HostEvent::Other => Ok(()),
    }
}

/// Handles one event and reports whether it was one the plugin acts on. A
/// failure is logged; the event still counts as handled.
pub fn handle<H: HostApi>(host: &mut Host<H>, event: &HostEvent) -> (handled: bool)
    ensures
        handled == spec_handled(*event),
        extends(old(host)@, final(host)@),
        event_record(*event, old(host)@, final(host)@),
{
    let ghost start = host@;
    let acted = match event {
        HostEvent::TaskFinished { task_type, .. } => crate::text::eq_str(
            &crate::text::chars_of(task_type.as_str()),
            COMMAND_TASK_TYPE,
        ),
        HostEvent::Other => false,
        _ => true,
    };
    if !acted {
        assert(made(start, host@) =~= Seq::<HostCall>::empty());
        return false;
    }
    let result = run(host, event);
    let ghost mid = host@;
    let ghost k: int = mid.len() - start.len();
    match &result {
        Ok(()) => {},
        Err(error) => {
            let mut line = "FastDL event synchronization failed: ".to_owned();
            line.append(error.message.as_str());
            host.log_error(line.as_str());
        },
    }
    proof {
        let calls = made(start, host@);
        assert(calls.subrange(0, k) =~= made(start, mid));
        assert(event_tail(calls, k, result));
    }
    true
}

} // verus!
