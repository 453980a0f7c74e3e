//! Administrative overview of FastDL installations.
use vstd::prelude::*;

use crate::domain::{NodeConfig, NodeResponse, NodeSetupStatus, NodesResponse, ServerState};
use crate::domain::node::{NodeConfigView, NodeSetupStatusView};
use crate::host_api::{extends, made, Host, HostApi, HostCall, NodeInfo, ServerInfo};
use crate::http::{fails_with, node_unavailable_view, ApiError, ApiErrorView};

use super::{node_setup, store};

verus! {

/// Whether a server's stored settings have FastDL enabled.
pub open spec fn state_enabled(state: Option<ServerState>) -> bool {
    state matches Some(s) && s.settings.enabled
}

/// How many of the stored server states have FastDL enabled.
pub open spec fn enabled_count(states: Seq<Option<ServerState>>) -> nat
    decreases states.len(),
{
    if states.len() == 0 {
        0
    } else {
        enabled_count(states.drop_last()) + if state_enabled(states.last()) {
            1nat
        } else {
            0nat
        }
    }
}

proof fn lemma_enabled_count_bound(states: Seq<Option<ServerState>>)
    ensures
        enabled_count(states) <= states.len(),
    decreases states.len(),
{
    if states.len() > 0 {
        lemma_enabled_count_bound(states.drop_last());
    }
}

pub fn count_enabled(states: &Vec<Option<ServerState>>) -> (r: usize)
    ensures
        r as nat == enabled_count(states@),
{
    let mut count: usize = 0;
    let mut i: usize = 0;
    while i < states.len()
        invariant
            i <= states.len(),
            count as nat == enabled_count(states@.subrange(0, i as int)),
        decreases states.len() - i,
    {
        proof {
            let next = states@.subrange(0, i + 1);
            assert(next.drop_last() == states@.subrange(0, i as int));
            assert(next.last() == states@[i as int]);
            lemma_enabled_count_bound(next);
        }
        let enabled = match &states[i] {
            Some(state) => state.settings.enabled,
            None => false,
        };
        if enabled {
            count = count + 1;
        }
        i = i + 1;
    }
    assert(states@.subrange(0, i as int) == states@);
    count
}

/// One row of the overview: the node, its refreshed installation state and settings.
pub fn node_response(
    node: NodeInfo,
    status: NodeSetupStatus,
    config: NodeConfig,
    enabled_servers: usize,
) -> (r: NodeResponse)
    ensures
        r.id == node.id,
        r.name@ == node.name@,
        r.os@ == node.os@,
        r.status == status.status,
        r.version@ == status.version@,
        r.error_message@ == status.error_message@,
        r.task_id == status.task_id,
        r.enabled_servers == enabled_servers,
        r.config@ == config@,
{
    NodeResponse {
        id: node.id,
        name: node.name,
        os: node.os,
        status: status.status,
        version: status.version,
        error_message: status.error_message,
        task_id: status.task_id,
        enabled_servers,
        config,
    }
}

/// One overview row: the node, its refreshed installation state, its settings
/// and its number of servers with FastDL enabled.
pub open spec fn row_is(
    row: NodeResponse,
    node: NodeInfo,
    status: NodeSetupStatusView,
    config: NodeConfigView,
    enabled: nat,
) -> bool {
    &&& row.id == node.id && row.name@ == node.name@ && row.os@ == node.os@
    &&& row.status == status.status && row.version@ == status.version
    &&& row.error_message@ == status.error_message && row.task_id == status.task_id
    &&& row.config@ == config && row.enabled_servers == enabled
}

/// The stored states of the listed servers, read in order, one call each; the
/// first failed read ends the reading.
pub open spec fn states_effect(servers: Seq<ServerInfo>, calls: Seq<HostCall>) -> (
    int,
    Result<Seq<Option<ServerState>>, ApiErrorView>,
    bool,
)
    decreases servers.len(),
{
    if servers.len() == 0 {
        (0, Ok(Seq::empty()), true)
    } else {
        let read = store::state_key(calls[0], store::KEY_SERVER_STATE@, crate::host_api::server_scope(servers[0].id));
        match store::state_answer(calls[0]) {
            Err(e) => (1, Err(e), read),
            Ok(state) => {
                let rest = states_effect(servers.skip(1), calls.skip(1));
                (
                    1 + rest.0,
                    match rest.1 {
                        Ok(v) => Ok(seq![state] + v),
                        Err(e) => Err(e),
                    },
                    read && rest.2,
                )
            },
        }
    }
}

/// Reading the states makes at least one call when there is a server.
proof fn lemma_states_count(servers: Seq<ServerInfo>, calls: Seq<HostCall>)
    ensures
        states_effect(servers, calls).0 >= 0,
        servers.len() > 0 ==> states_effect(servers, calls).0 >= 1,
    decreases servers.len(),
{
    if servers.len() > 0 {
        lemma_states_count(servers.skip(1), calls.skip(1));
    }
}

/// Reading the states depends only on the calls it made.
proof fn lemma_states_prefix(servers: Seq<ServerInfo>, a: Seq<HostCall>, b: Seq<HostCall>)
    requires
        extends(a, b),
        a.len() >= states_effect(servers, a).0,
    ensures
        states_effect(servers, b) == states_effect(servers, a),
    decreases servers.len(),
{
    lemma_states_count(servers, a);
    if servers.len() > 0 {
        assert(b[0] == a[0]);
        if store::state_answer(a[0]) is Ok {
            lemma_states_count(servers.skip(1), a.skip(1));
            assert(extends(a.skip(1), b.skip(1)));
            lemma_states_prefix(servers.skip(1), a.skip(1), b.skip(1));
        }
    }
}

fn read_states<H: HostApi>(host: &mut Host<H>, servers: &Vec<ServerInfo>, i: usize) -> (r: Result<
    Vec<Option<ServerState>>,
    ApiError,
>)
    requires
        i <= servers.len(),
    ensures
        extends(old(host)@, final(host)@),
        made(old(host)@, final(host)@).len() == states_effect(servers@.skip(i as int), made(old(host)@, final(host)@)).0,
        states_effect(servers@.skip(i as int), made(old(host)@, final(host)@)).2,
        match states_effect(servers@.skip(i as int), made(old(host)@, final(host)@)).1 {
            Ok(v) => r matches Ok(out) && out@ == v,
            Err(e) => fails_with(r, e),
        },
        r matches Err(e) ==> store::load_failure(e@),
    decreases servers.len() - i,
{
    let ghost rest = servers@.skip(i as int);
    if i == servers.len() {
        assert(rest.len() == 0);
        assert(made(old(host)@, host@) =~= Seq::<HostCall>::empty());
        return Ok(Vec::new());
    }
    assert(rest[0] == servers[i as int]);
    assert(rest.skip(1) =~= servers@.skip(i + 1));
    let ghost start = host@;
    let state = match store::get_server_state(host, servers[i].id) {
        Ok(state) => state,
        Err(e) => return Err(e),
    };
    let ghost s1 = host@;
    let more = read_states(host, servers, i + 1);
    proof {
        crate::host_api::lemma_made_compose(start, s1, host@);
        assert(made(start, host@)[0] == made(start, s1)[0]);
        assert(made(start, host@).skip(1) =~= made(s1, host@));
    }
    let mut states = match more {
        Ok(states) => states,
        Err(e) => return Err(e),
    };
    let ghost tail = states@;
    states.insert(0, state);
    assert(states@ =~= seq![state] + tail);
    Ok(states)
}

/// The overview rows of the given nodes, read from the calls: for each node in
/// order, its installation status is polled, its settings read, its servers
/// listed and their stored states read; its row is built from these. `failed` is
/// the first failure, which ends the listing.
pub open spec fn nodes_listed(
    nodes: Seq<NodeInfo>,
    calls: Seq<HostCall>,
    rows: Seq<NodeResponse>,
    failed: Option<ApiErrorView>,
) -> bool
    decreases nodes.len(), 1int,
{
    if nodes.len() == 0 {
        calls.len() == 0 && rows.len() == 0 && failed is None
    } else {
        exists|n: int| #![trigger calls.subrange(0, n)] node_listed_at(nodes, calls, n, rows, failed)
    }
}

/// The first node's calls: a status poll of `n` calls, then its settings, its
/// servers and their states.
pub open spec fn node_listed_at(
    nodes: Seq<NodeInfo>,
    calls: Seq<HostCall>,
    n: int,
    rows: Seq<NodeResponse>,
    failed: Option<ApiErrorView>,
) -> bool
    decreases nodes.len(), 0int,
{
    let node = nodes[0];
    let polled = calls.subrange(0, n);
    &&& nodes.len() > 0
    &&& 0 <= n <= calls.len()
    &&& node_setup::poll_calls(node.id, polled)
    &&& match node_setup::poll_effect(node.id, polled).1 {
        Err(e) => n == calls.len() && failed == Some(e),
        Ok(status) => {
            &&& calls.len() >= n + 1
            &&& store::config_key(calls[n], node.id)
            &&& match store::config_answer(calls[n]) {
                Err(e) => calls.len() == n + 1 && failed == Some(e),
                Ok(config) => {
                    &&& calls.len() >= n + 2
                    &&& calls[n + 1] matches HostCall::FindServers { ids, node_ids, answer }
                    &&& ids.len() == 0 && node_ids == seq![node.id]
                    &&& match answer {
                        Err(_) => calls.len() == n + 2 && failed == Some(node_unavailable_view()),
                        Ok(servers) => {
                            let read = states_effect(servers@, calls.skip(n + 2));
                            let m = n + 2 + read.0;
                            &&& calls.len() >= m
                            &&& read.2
                            &&& match read.1 {
                                Err(e) => calls.len() == m && failed == Some(e),
                                Ok(states) => match failed {
                                    None => {
                                        &&& rows.len() >= 1
                                        &&& row_is(rows[0], node, status, config, enabled_count(states))
                                        &&& nodes_listed(nodes.skip(1), calls.skip(m), rows.skip(1), None)
                                    },
                                    Some(_) => nodes_listed(nodes.skip(1), calls.skip(m), rows, failed),
                                },
                            }
                        },
                    }
                },
            }
        },
    }
}

/// The first node's calls make the listing.
proof fn lemma_listed_at(
    nodes: Seq<NodeInfo>,
    calls: Seq<HostCall>,
    n: int,
    rows: Seq<NodeResponse>,
    failed: Option<ApiErrorView>,
)
    requires
        node_listed_at(nodes, calls, n, rows, failed),
    ensures
        nodes_listed(nodes, calls, rows, failed),
{
    assert(calls.subrange(0, n) == calls.subrange(0, n));
}

#[verifier::rlimit(60)]
fn list_rest<H: HostApi>(host: &mut Host<H>, nodes: Vec<NodeInfo>) -> (r: Result<Vec<NodeResponse>, ApiError>)
    ensures
        extends(old(host)@, final(host)@),
        match r {
            Ok(rows) => nodes_listed(nodes@, made(old(host)@, final(host)@), rows@, None),
            Err(e) => nodes_listed(nodes@, made(old(host)@, final(host)@), Seq::empty(), Some(e@)),
        },
        r matches Err(e) ==> node_setup::status_failure(e@),
    decreases nodes.len(),
{
    let ghost all = nodes@;
    if nodes.len() == 0 {
        assert(made(old(host)@, host@) =~= Seq::<HostCall>::empty());
        return Ok(Vec::new());
    }
    let mut nodes = nodes;
    let node = nodes.remove(0);
    assert(nodes@ =~= all.skip(1));
    let ghost start = host@;
    let status = node_setup::get_status(host, node.id);
    let ghost s1 = host@;
    let ghost n = made(start, s1).len() as int;
    let status = match status {
        Ok(status) => status,
        Err(e) => {
            assert(made(start, s1).subrange(0, n) =~= made(start, s1));
            assert(node_listed_at(all, made(start, s1), n, Seq::empty(), Some(e@)));
            proof {
                lemma_listed_at(all, made(start, s1), n, Seq::empty(), Some(e@));
            }
            return Err(e);
        },
    };
    let config = store::get_config(host, node.id);
    let ghost s2 = host@;
    proof {
        crate::host_api::lemma_made_compose(start, s1, s2);
        assert(made(start, s2).subrange(0, n) =~= made(start, s1));
        assert(made(start, s2)[n] == made(s1, s2)[0]);
    }
    let config = match config {
        Ok(config) => config,
        Err(e) => {
            assert(node_listed_at(all, made(start, s2), n, Seq::empty(), Some(e@)));
            proof {
                lemma_listed_at(all, made(start, s2), n, Seq::empty(), Some(e@));
            }
            return Err(e);
        },
    };
    let node_ids: Vec<u64> = vec![node.id];
    let none: Vec<u64> = Vec::new();
    assert(node_ids@ == seq![node.id]);
    let found = host.find_servers(none.as_slice(), node_ids.as_slice());
    let ghost s3 = host@;
    proof {
        crate::host_api::lemma_made_compose(start, s2, s3);
        assert(made(start, s3).subrange(0, n) =~= made(start, s1));
        assert(made(start, s3)[n] == made(start, s2)[n]);
        assert(made(start, s3)[n + 1] == made(s2, s3)[0]);
    }
    let servers = match found {
        Ok(servers) => servers,
        Err(e) => {
            let e = ApiError::from_host(e);
            assert(node_listed_at(all, made(start, s3), n, Seq::empty(), Some(e@)));
            proof {
                lemma_listed_at(all, made(start, s3), n, Seq::empty(), Some(e@));
            }
            return Err(e);
        },
    };
    assert(servers@.skip(0) =~= servers@);
    let read = read_states(host, &servers, 0);
    let ghost s4 = host@;
    let ghost m = n + 2 + made(s3, s4).len();
    proof {
        crate::host_api::lemma_made_compose(start, s3, s4);
        assert(made(start, s4).subrange(0, n) =~= made(start, s1));
        assert(made(start, s4)[n] == made(start, s2)[n]);
        assert(made(start, s4)[n + 1] == made(start, s3)[n + 1]);
        assert(made(start, s4).skip(n + 2) =~= made(s3, s4));
    }
    let states = match read {
        Ok(states) => states,
        Err(e) => {
            assert(node_listed_at(all, made(start, s4), n, Seq::empty(), Some(e@)));
            proof {
                lemma_listed_at(all, made(start, s4), n, Seq::empty(), Some(e@));
            }
            return Err(e);
        },
    };
    let enabled_servers = count_enabled(&states);
    let row = node_response(node, status, config, enabled_servers);
    let more = list_rest(host, nodes);
    proof {
        crate::host_api::lemma_made_compose(start, s4, host@);
        crate::host_api::lemma_made_compose(s3, s4, host@);
        assert(made(start, host@).subrange(0, n) =~= made(start, s1));
        assert(made(start, host@)[n] == made(start, s2)[n]);
        assert(made(start, host@)[n + 1] == made(start, s3)[n + 1]);
        assert(made(start, host@).skip(n + 2).subrange(0, made(s3, s4).len() as int) =~= made(s3, s4));
        lemma_states_prefix(servers@, made(s3, s4), made(start, host@).skip(n + 2));
        assert(made(start, host@).skip(m) =~= made(s4, host@));
    }
    match more {
        Ok(rows) => {
            let ghost tail = rows@;
            let mut rows = rows;
            rows.insert(0, row);
            proof {
                assert(rows@.skip(1) =~= tail);
                assert(node_listed_at(all, made(start, host@), n, rows@, None));
                lemma_listed_at(all, made(start, host@), n, rows@, None);
            }
            Ok(rows)
        },
        Err(e) => {
            proof {
                assert(node_listed_at(all, made(start, host@), n, Seq::empty(), Some(e@)));
                lemma_listed_at(all, made(start, host@), n, Seq::empty(), Some(e@));
            }
            Err(e)
        },
    }
}

/// The overview, read from its calls: the panel's nodes are listed, then each is
/// read in turn; the result lists one row per node, in the panel's order.
pub open spec fn overview(calls: Seq<HostCall>, r: Result<NodesResponse, ApiError>) -> bool {
    &&& calls.len() >= 1
    &&& calls[0] matches HostCall::FindNodes { answer }
    &&& match answer {
        Err(_) => calls.len() == 1 && fails_with(r, node_unavailable_view()),
        Ok(nodes) => match r {
            Ok(response) => nodes_listed(nodes@, calls.skip(1), response.nodes@, None),
            Err(e) => nodes_listed(nodes@, calls.skip(1), Seq::empty(), Some(e@)),
        },
    }
}

/// Lists every node with its installation state (refreshed as a status poll
/// would), its settings and how many of its game servers have FastDL enabled.
pub fn list_nodes<H: HostApi>(host: &mut Host<H>) -> (r: Result<NodesResponse, ApiError>)
    ensures
        r matches Err(e) ==> node_setup::status_failure(e@),
        extends(old(host)@, final(host)@),
        overview(made(old(host)@, final(host)@), r),
{
    let ghost start = host@;
    let found = host.find_nodes();
    let ghost s1 = host@;
    let nodes = match found {
        Ok(nodes) => nodes,
        Err(e) => return Err(ApiError::from_host(e)),
    };
    let rows = list_rest(host, nodes);
    proof {
        crate::host_api::lemma_made_compose(start, s1, host@);
        assert(made(start, host@)[0] == made(start, s1)[0]);
        assert(made(start, host@).skip(1) =~= made(s1, host@));
    }
    match rows {
        Ok(rows) => Ok(NodesResponse { nodes: rows }),
        Err(e) => Err(e),
    }
}

} // verus!
