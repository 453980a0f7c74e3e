//! The route table supplies both the host registration and local dispatch.
use vstd::prelude::*;

use crate::domain::{NodeConfig, ServerInput, SetupInput};
use crate::http::{error_view, fails_with, not_found_view, params_view, ApiError, ApiErrorView, Params};
use crate::domain::validation::has_prefix;
use crate::text::{chars_of, eq_chars, split, split_vec, string_of};

verus! {

#[derive(Clone, Copy, PartialEq, Eq, Debug, Structural)]
pub enum RouteId {
    AdminNodes,
    NodeConfigGet,
    NodeConfigUpdate,
    NodeStatus,
    NodeSetup,
    NodeSync,
    ServerFastdlGet,
    ServerFastdlUpdate,
    ServerFastdlConfigure,
}

#[derive(Debug)]
pub struct RouteDef {
    pub id: RouteId,
    pub method: &'static str,
    pub pattern: &'static str,
    pub admin_only: bool,
    pub description: &'static str,
}

/// A route as the matcher sees it: identity, method, pattern and administrator scope.
pub struct RouteView {
    pub id: RouteId,
    pub method: Seq<char>,
    pub pattern: Seq<char>,
    pub admin_only: bool,
}

impl View for RouteDef {
    type V = RouteView;

    open spec fn view(&self) -> RouteView {
        RouteView {
            id: self.id,
            method: self.method@,
            pattern: self.pattern@,
            admin_only: self.admin_only,
        }
    }
}

pub open spec fn route(id: RouteId, method: Seq<char>, pattern: Seq<char>, admin_only: bool) -> RouteView {
    RouteView { id, method, pattern, admin_only }
}

/// The plugin's routes, in matching order.
pub open spec fn spec_routes() -> Seq<RouteView> {
    seq![
        route(RouteId::AdminNodes, "GET"@, "/admin/nodes"@, true),
        route(RouteId::NodeConfigGet, "GET"@, "/nodes/{nodeId}/config"@, true),
        route(RouteId::NodeConfigUpdate, "PUT"@, "/nodes/{nodeId}/config"@, true),
        route(RouteId::NodeStatus, "GET"@, "/nodes/{nodeId}/status"@, true),
        route(RouteId::NodeSetup, "POST"@, "/nodes/{nodeId}/setup"@, true),
        route(RouteId::NodeSync, "POST"@, "/nodes/{nodeId}/sync"@, true),
        route(RouteId::ServerFastdlGet, "GET"@, "/servers/{serverId}/fastdl"@, false),
        route(RouteId::ServerFastdlUpdate, "PUT"@, "/servers/{serverId}/fastdl"@, false),
        route(
            RouteId::ServerFastdlConfigure,
            "POST"@,
            "/servers/{serverId}/fastdl/configure"@,
            false,
        ),
    ]
}

/// The descriptions the panel shows for the routes, in the same order.
pub open spec fn spec_route_descriptions() -> Seq<Seq<char>> {
    seq![
        "List FastDL nodes"@,
        "Read FastDL node settings"@,
        "Update FastDL node settings"@,
        "Read FastDL installation status"@,
        "Install or update FastDL"@,
        "Synchronize FastDL settings"@,
        "Read game server FastDL settings"@,
        "Update game server FastDL settings"@,
        "Apply FastDL settings to the game configuration"@,
    ]
}

fn def(
    id: RouteId,
    method: &'static str,
    pattern: &'static str,
    admin_only: bool,
    description: &'static str,
) -> (r: RouteDef)
    ensures
        r@ == route(id, method@, pattern@, admin_only),
        r.description@ == description@,
{
    RouteDef { id, method, pattern, admin_only, description }
}

/// The route table: administrator routes manage nodes, server routes check per-server access.
pub fn routes() -> (r: Vec<RouteDef>)
    ensures
        r@.map_values(|d: RouteDef| d@) == spec_routes(),
        r@.map_values(|d: RouteDef| d.description@) == spec_route_descriptions(),
{
    let r = vec![
        def(RouteId::AdminNodes, "GET", "/admin/nodes", true, "List FastDL nodes"),
        def(RouteId::NodeConfigGet, "GET", "/nodes/{nodeId}/config", true, "Read FastDL node settings"),
        def(
            RouteId::NodeConfigUpdate,
            "PUT",
            "/nodes/{nodeId}/config",
            true,
            "Update FastDL node settings",
        ),
        def(
            RouteId::NodeStatus,
            "GET",
            "/nodes/{nodeId}/status",
            true,
            "Read FastDL installation status",
        ),
        def(RouteId::NodeSetup, "POST", "/nodes/{nodeId}/setup", true, "Install or update FastDL"),
        def(RouteId::NodeSync, "POST", "/nodes/{nodeId}/sync", true, "Synchronize FastDL settings"),
        def(
            RouteId::ServerFastdlGet,
            "GET",
            "/servers/{serverId}/fastdl",
            false,
            "Read game server FastDL settings",
        ),
        def(
            RouteId::ServerFastdlUpdate,
            "PUT",
            "/servers/{serverId}/fastdl",
            false,
            "Update game server FastDL settings",
        ),
        def(
            RouteId::ServerFastdlConfigure,
            "POST",
            "/servers/{serverId}/fastdl/configure",
            false,
            "Apply FastDL settings to the game configuration",
        ),
    ];
    assert(r@.map_values(|d: RouteDef| d@) =~= spec_routes());
    assert(r@.map_values(|d: RouteDef| d.description@) =~= spec_route_descriptions());
    r
}

/// Trailing `/` removed (`trim_end_matches('/')`).
pub open spec fn trim_trailing_slashes(s: Seq<char>) -> Seq<char>
    decreases s.len(),
{
    if s.len() > 0 && s.last() == '/' {
        trim_trailing_slashes(s.drop_last())
    } else {
        s
    }
}

/// A `{name}` segment.
pub open spec fn is_placeholder(segment: Seq<char>) -> bool {
    segment.len() >= 2 && segment[0] == '{' && segment.last() == '}'
}

pub open spec fn placeholder_name(segment: Seq<char>) -> Seq<char> {
    segment.subrange(1, segment.len() - 1)
}

/// Matches equally long segment lists; placeholders capture the path segment.
pub open spec fn match_segments(pattern: Seq<Seq<char>>, path: Seq<Seq<char>>) -> Option<
    Seq<(Seq<char>, Seq<char>)>,
>
    decreases pattern.len(),
{
    if pattern.len() == 0 || path.len() == 0 {
        Some(Seq::empty())
    } else {
        match match_segments(pattern.drop_last(), path.drop_last()) {
            None => None,
            Some(captured) => if is_placeholder(pattern.last()) {
                Some(captured.push((placeholder_name(pattern.last()), path.last())))
            } else if pattern.last() == path.last() {
                Some(captured)
            } else {
                None
            },
        }
    }
}

pub open spec fn spec_match_pattern(pattern: Seq<char>, path: Seq<char>) -> Option<
    Seq<(Seq<char>, Seq<char>)>,
> {
    let p = split(trim_trailing_slashes(pattern), '/');
    let x = split(trim_trailing_slashes(path), '/');
    if p.len() != x.len() {
        None
    } else {
        match_segments(p, x)
    }
}

/// The first route, from index `k` on, whose method and pattern accept the request.
pub open spec fn match_route_from(routes: Seq<RouteView>, method: Seq<char>, path: Seq<char>, k: int) -> Option<
    (RouteId, Seq<(Seq<char>, Seq<char>)>),
>
    decreases routes.len() - k,
{
    if k < 0 || k >= routes.len() {
        None
    } else if routes[k].method == method && spec_match_pattern(routes[k].pattern, path) is Some {
        Some((routes[k].id, spec_match_pattern(routes[k].pattern, path)->0))
    } else {
        match_route_from(routes, method, path, k + 1)
    }
}

pub open spec fn spec_match_route(method: Seq<char>, path: Seq<char>) -> Option<
    (RouteId, Seq<(Seq<char>, Seq<char>)>),
> {
    match_route_from(spec_routes(), method, path, 0)
}

/// Once a prefix fails to match, every longer prefix fails too.
proof fn lemma_match_segments_fails(pattern: Seq<Seq<char>>, path: Seq<Seq<char>>, j: int)
    requires
        1 <= j <= pattern.len(),
        pattern.len() == path.len(),
        match_segments(pattern.subrange(0, j), path.subrange(0, j)) is None,
    ensures
        match_segments(pattern, path) is None,
    decreases pattern.len() - j,
{
    if j < pattern.len() {
        assert(pattern.subrange(0, j + 1).drop_last() == pattern.subrange(0, j));
        assert(path.subrange(0, j + 1).drop_last() == path.subrange(0, j));
        lemma_match_segments_fails(pattern, path, j + 1);
    } else {
        assert(pattern.subrange(0, j) == pattern);
        assert(path.subrange(0, j) == path);
    }
}

fn trim_trailing_slashes_vec(s: &Vec<char>) -> (r: Vec<char>)
    ensures
        r@ == trim_trailing_slashes(s@),
{
    let mut end: usize = s.len();
    assert(s@.subrange(0, end as int) == s@);
    while end > 0 && s[end - 1] == '/'
        invariant
            end <= s.len(),
            trim_trailing_slashes(s@) == trim_trailing_slashes(s@.subrange(0, end as int)),
        decreases end,
    {
        assert(s@.subrange(0, end as int).drop_last() == s@.subrange(0, end - 1));
        end = end - 1;
    }
    let mut r: Vec<char> = Vec::new();
    let mut i: usize = 0;
    while i < end
        invariant
            i <= end <= s.len(),
            r@ == s@.subrange(0, i as int),
        decreases end - i,
    {
        r.push(s[i]);
        i = i + 1;
        assert(s@.subrange(0, i as int) == s@.subrange(0, i - 1).push(s@[i - 1]));
    }
    r
}

fn inner_chars(s: &Vec<char>) -> (r: Vec<char>)
    requires
        s.len() >= 2,
    ensures
        r@ == s@.subrange(1, s@.len() - 1),
{
    let mut r: Vec<char> = Vec::new();
    let mut i: usize = 1;
    while i < s.len() - 1
        invariant
            s.len() >= 2,
            1 <= i <= s.len() - 1,
            r@ == s@.subrange(1, i as int),
        decreases s.len() - i,
    {
        r.push(s[i]);
        i = i + 1;
        assert(s@.subrange(1, i as int) == s@.subrange(1, i - 1).push(s@[i - 1]));
    }
    r
}

fn match_pattern(pattern: &str, path: &str) -> (r: Option<Params>)
    ensures
        r is Some <==> spec_match_pattern(pattern@, path@) is Some,
        r matches Some(p) ==> params_view(p@) == spec_match_pattern(pattern@, path@)->0,
{
    let pattern_segments = split_vec(&trim_trailing_slashes_vec(&chars_of(pattern)), '/');
    let path_segments = split_vec(&trim_trailing_slashes_vec(&chars_of(path)), '/');
    let ghost ps = pattern_segments@.map_values(|p: Vec<char>| p@);
    let ghost xs = path_segments@.map_values(|p: Vec<char>| p@);
    if pattern_segments.len() != path_segments.len() {
        return None;
    }
    let mut params: Params = Vec::new();
    let mut i: usize = 0;
    assert(ps.subrange(0, 0) =~= Seq::<Seq<char>>::empty());
    while i < pattern_segments.len()
        invariant
            i <= pattern_segments.len() == path_segments.len(),
            ps == pattern_segments@.map_values(|p: Vec<char>| p@),
            xs == path_segments@.map_values(|p: Vec<char>| p@),
            ps.len() == xs.len(),
            spec_match_pattern(pattern@, path@) == match_segments(ps, xs),
            match_segments(ps.subrange(0, i as int), xs.subrange(0, i as int)) == Some(
                params_view(params@),
            ),
        decreases pattern_segments.len() - i,
    {
        let pat = &pattern_segments[i];
        let seg = &path_segments[i];
        assert(ps[i as int] == pat@ && xs[i as int] == seg@);
        let ghost before = params_view(params@);
        assert(ps.subrange(0, i + 1).drop_last() == ps.subrange(0, i as int));
        assert(xs.subrange(0, i + 1).drop_last() == xs.subrange(0, i as int));
        if pat.len() >= 2 && pat[0] == '{' && pat[pat.len() - 1] == '}' {
            let name = string_of(&inner_chars(pat));
            let value = string_of(seg);
            params.push((name, value));
            assert(params_view(params@) =~= before.push((placeholder_name(pat@), seg@)));
        } else if !eq_chars(pat, seg) {
            proof {
                lemma_match_segments_fails(ps, xs, i + 1);
            }
            return None;
        }
        i = i + 1;
    }
    assert(ps.subrange(0, i as int) == ps);
    assert(xs.subrange(0, i as int) == xs);
    Some(params)
}

/// The first route whose method and pattern accept the request, with its captured parameters.
pub fn match_route(method: &str, path: &str) -> (r: Option<(RouteId, Params)>)
    ensures
        r is Some <==> spec_match_route(method@, path@) is Some,
        r matches Some(found) ==> spec_match_route(method@, path@) == Some(
            (found.0, params_view(found.1@)),
        ),
{
    let table = routes();
    let ghost views = table@.map_values(|d: RouteDef| d@);
    let method_chars = chars_of(method);
    let mut k: usize = 0;
    while k < table.len()
        invariant
            k <= table.len(),
            views == table@.map_values(|d: RouteDef| d@),
            views == spec_routes(),
            method_chars@ == method@,
            spec_match_route(method@, path@) == match_route_from(views, method@, path@, k as int),
        decreases table.len() - k,
    {
        let candidate = &table[k];
        assert(views[k as int] == candidate@);
        if eq_chars(&chars_of(candidate.method), &method_chars) {
            match match_pattern(candidate.pattern, path) {
                Some(params) => return Some((candidate.id, params)),
                None => {},
            }
        }
        k = k + 1;
    }
    None
}

/// Which decoded body a route takes.
#[derive(Clone, Copy, PartialEq, Eq, Debug, Structural)]
pub enum BodyKind {
    /// The route reads no body.
    Empty,
    Setup,
    NodeConfig,
    Server,
}

pub open spec fn spec_body_kind(route: RouteId) -> BodyKind {
    match route {
        RouteId::NodeSetup => BodyKind::Setup,
        RouteId::NodeConfigUpdate => BodyKind::NodeConfig,
        RouteId::ServerFastdlUpdate => BodyKind::Server,
        _ => BodyKind::Empty,
    }
}

pub fn body_kind(route: RouteId) -> (r: BodyKind)
    ensures
        r == spec_body_kind(route),
{
    match route {
        RouteId::NodeSetup => BodyKind::Setup,
        RouteId::NodeConfigUpdate => BodyKind::NodeConfig,
        RouteId::ServerFastdlUpdate => BodyKind::Server,
        _ => BodyKind::Empty,
    }
}

/// A request body, decoded for its route before the handler runs. Decoding has
/// no effects, so a decoding error is reported only where the handler reads
/// the body: after the entity and access checks.
pub enum RequestBody {
    Empty,
    Setup(Result<SetupInput, ApiError>),
    NodeConfig(Result<NodeConfig, ApiError>),
    Server(Result<ServerInput, ApiError>),
}

/// The parts of a request the handlers use.
pub struct RequestParts {
    pub params: Params,
    pub body: RequestBody,
    pub user_id: Option<u64>,
}

pub open spec fn unauthenticated_view() -> ApiErrorView {
    error_view(401, "UNAUTHENTICATED"@, "Authentication required"@)
}

pub open spec fn route_not_found_view() -> ApiErrorView {
    not_found_view("Route not found"@)
}

/// A request is served only for a signed-in user (a non-zero ID) and a known route.
pub open spec fn spec_route_request(method: Seq<char>, path: Seq<char>, user_id: Option<u64>) -> Result<
    (RouteId, Seq<(Seq<char>, Seq<char>)>, u64),
    ApiErrorView,
> {
    match user_id {
        Some(id) if id != 0 => match spec_match_route(method, path) {
            Some(found) => Ok((found.0, found.1, id)),
            None => Err(route_not_found_view()),
        },
        _ => Err(unauthenticated_view()),
    }
}

/// Authenticates and routes a request: the user, then the route table.
pub fn route_request(method: &str, path: &str, user_id: Option<u64>) -> (r: Result<
    (RouteId, Params, u64),
    ApiError,
>)
    ensures
        match spec_route_request(method@, path@, user_id) {
            Ok(found) => r matches Ok(got) && got.0 == found.0 && params_view(got.1@) == found.1
                && got.2 == found.2,
            Err(e) => fails_with(r, e),
        },
{
    let id = match user_id {
        Some(id) => if id != 0 {
            id
        } else {
            return Err(ApiError::new(401, "UNAUTHENTICATED", "Authentication required"));
        },
        None => return Err(ApiError::new(401, "UNAUTHENTICATED", "Authentication required")),
    };
    match match_route(method, path) {
        Some((route, params)) => Ok((route, params, id)),
        None => Err(ApiError::not_found("Route not found")),
    }
}

} // verus!

verus! {

/// Exactly the overview and node routes are for administrators: those under
/// `/admin/` and `/nodes/`.
pub proof fn admin_scope_follows_the_path()
    ensures
        forall|i: int|
            0 <= i < spec_routes().len() ==> ((#[trigger] spec_routes()[i]).admin_only <==> (
            has_prefix(spec_routes()[i].pattern, "/admin/"@) || has_prefix(
                spec_routes()[i].pattern,
                "/nodes/"@,
            ))),
{
    reveal_strlit("/admin/");
    reveal_strlit("/nodes/");
    reveal_strlit("/admin/nodes");
    reveal_strlit("/nodes/{nodeId}/config");
    reveal_strlit("/nodes/{nodeId}/status");
    reveal_strlit("/nodes/{nodeId}/setup");
    reveal_strlit("/nodes/{nodeId}/sync");
    reveal_strlit("/servers/{serverId}/fastdl");
    reveal_strlit("/servers/{serverId}/fastdl/configure");
    let routes = spec_routes();
    assert forall|i: int| 0 <= i < routes.len() implies ((#[trigger] routes[i]).admin_only <==> (
    has_prefix(routes[i].pattern, "/admin/"@) || has_prefix(routes[i].pattern, "/nodes/"@))) by {
        if i >= 6 {
            assert(routes[i].pattern[1] == 's');
            assert(routes[i].pattern.subrange(0, 7)[1] == 's');
            assert(("/admin/"@)[1] == 'a');
            assert(("/nodes/"@)[1] == 'n');
            assert(routes[i].pattern.subrange(0, 7) != "/admin/"@);
            assert(routes[i].pattern.subrange(0, 7) != "/nodes/"@);
        } else if i == 0 {
            assert(routes[i].pattern.subrange(0, 7) =~= "/admin/"@);
        } else {
            assert(routes[i].pattern.subrange(0, 7) =~= "/nodes/"@);
        }
    }
}

} // verus!

verus! {

/// A trailing `/` on a request path selects the same route with the same parameters.
pub proof fn trailing_slash_is_ignored(method: Seq<char>, path: Seq<char>)
    ensures
        spec_match_route(method, path.push('/')) == spec_match_route(method, path),
{
    assert(path.push('/').drop_last() =~= path);
    assert(trim_trailing_slashes(path.push('/')) == trim_trailing_slashes(path));
    assert forall|k: int| 0 <= k <= spec_routes().len() implies #[trigger] match_route_from(
        spec_routes(),
        method,
        path.push('/'),
        k,
    ) == match_route_from(spec_routes(), method, path, k) by {
        lemma_route_from_trailing(method, path, k);
    }
}

proof fn lemma_route_from_trailing(method: Seq<char>, path: Seq<char>, k: int)
    requires
        0 <= k <= spec_routes().len(),
        trim_trailing_slashes(path.push('/')) == trim_trailing_slashes(path),
    ensures
        match_route_from(spec_routes(), method, path.push('/'), k) == match_route_from(
            spec_routes(),
            method,
            path,
            k,
        ),
    decreases spec_routes().len() - k,
{
    if k < spec_routes().len() {
        lemma_route_from_trailing(method, path, k + 1);
    }
}

} // verus!

verus! {

/// A path segment: no `/` inside.
pub open spec fn plain_segment(s: Seq<char>) -> bool {
    forall|j: int| 0 <= j < s.len() ==> s[j] != '/'
}

/// `/a/b/c` for the segments `a`, `b`, `c`.
pub open spec fn rooted(segments: Seq<Seq<char>>) -> Seq<char>
    decreases segments.len(),
{
    if segments.len() == 0 {
        Seq::empty()
    } else {
        rooted(segments.drop_last()) + seq!['/'] + segments.last()
    }
}

proof fn lemma_split_plain(s: Seq<char>)
    requires
        plain_segment(s),
    ensures
        split(s, '/') == seq![s],
    decreases s.len(),
{
    if s.len() == 0 {
        assert(s =~= Seq::<char>::empty());
    } else {
        let prefix = s.drop_last();
        lemma_split_plain(prefix);
        assert(s[s.len() - 1] != '/');
        assert(prefix.push(s.last()) =~= s);
        assert(seq![prefix].update(0, prefix.push(s.last())) =~= seq![s]);
    }
}

proof fn lemma_split_rooted(segments: Seq<Seq<char>>)
    requires
        forall|i: int| 0 <= i < segments.len() ==> plain_segment(#[trigger] segments[i]),
    ensures
        split(rooted(segments), '/') == seq![Seq::<char>::empty()] + segments,
    decreases segments.len(),
{
    if segments.len() == 0 {
        assert(seq![Seq::<char>::empty()] + segments =~= seq![Seq::<char>::empty()]);
    } else {
        let prefix = segments.drop_last();
        assert forall|i: int| 0 <= i < prefix.len() implies plain_segment(#[trigger] prefix[i]) by {
            assert(prefix[i] == segments[i]);
        }
        lemma_split_rooted(prefix);
        assert(plain_segment(segments[segments.len() - 1]));
        crate::text::lemma_split_join(rooted(prefix), segments.last(), '/');
        lemma_split_plain(segments.last());
        assert(seq![Seq::<char>::empty()] + prefix + seq![segments.last()] =~= seq![
            Seq::<char>::empty(),
        ] + segments);
    }
}

proof fn lemma_rooted_ends(segments: Seq<Seq<char>>)
    requires
        segments.len() > 0,
        segments.last().len() > 0,
        plain_segment(segments.last()),
    ensures
        trim_trailing_slashes(rooted(segments)) == rooted(segments),
{
    let r = rooted(segments);
    let last = segments.last();
    assert(r.last() == last.last());
    assert(last[last.len() - 1] != '/');
}

/// A request path for the segments matches a pattern of as many segments
/// segment by segment, after the leading empty segment.
proof fn lemma_pattern_rooted(pattern: Seq<Seq<char>>, path: Seq<Seq<char>>)
    requires
        pattern.len() > 0,
        path.len() > 0,
        pattern.last().len() > 0,
        path.last().len() > 0,
        forall|i: int| 0 <= i < pattern.len() ==> plain_segment(#[trigger] pattern[i]),
        forall|i: int| 0 <= i < path.len() ==> plain_segment(#[trigger] path[i]),
    ensures
        spec_match_pattern(rooted(pattern), rooted(path)) == (if pattern.len() != path.len() {
            None
        } else {
            match_segments(
                seq![Seq::<char>::empty()] + pattern,
                seq![Seq::<char>::empty()] + path,
            )
        }),
{
    assert(plain_segment(pattern[pattern.len() - 1]));
    assert(plain_segment(path[path.len() - 1]));
    lemma_rooted_ends(pattern);
    lemma_rooted_ends(path);
    lemma_split_rooted(pattern);
    lemma_split_rooted(path);
}

/// The path `/nodes/<id>/<action>`.
pub open spec fn node_path(id: Seq<char>, action: Seq<char>) -> Seq<char> {
    rooted(seq!["nodes"@, id, action])
}

/// The path `/servers/<id>/fastdl`, and with `/configure` after it.
pub open spec fn server_path(id: Seq<char>, configure: bool) -> Seq<char> {
    if configure {
        rooted(seq!["servers"@, id, "fastdl"@, "configure"@])
    } else {
        rooted(seq!["servers"@, id, "fastdl"@])
    }
}

proof fn lemma_rooted_push(segments: Seq<Seq<char>>, last: Seq<char>)
    ensures
        rooted(segments.push(last)) == rooted(segments) + seq!['/'] + last,
        rooted(Seq::<Seq<char>>::empty()) == Seq::<char>::empty(),
{
    assert(segments.push(last).drop_last() =~= segments);
}

proof fn lemma_route_patterns()
    ensures
        spec_routes()[0].pattern == rooted(seq!["admin"@, "nodes"@]),
        spec_routes()[1].pattern == rooted(seq!["nodes"@, "{nodeId}"@, "config"@]),
        spec_routes()[2].pattern == rooted(seq!["nodes"@, "{nodeId}"@, "config"@]),
        spec_routes()[3].pattern == rooted(seq!["nodes"@, "{nodeId}"@, "status"@]),
        spec_routes()[4].pattern == rooted(seq!["nodes"@, "{nodeId}"@, "setup"@]),
        spec_routes()[5].pattern == rooted(seq!["nodes"@, "{nodeId}"@, "sync"@]),
        spec_routes()[6].pattern == rooted(seq!["servers"@, "{serverId}"@, "fastdl"@]),
        spec_routes()[7].pattern == rooted(seq!["servers"@, "{serverId}"@, "fastdl"@]),
        spec_routes()[8].pattern == rooted(
            seq!["servers"@, "{serverId}"@, "fastdl"@, "configure"@],
        ),
{
    reveal_strlit("admin");
    reveal_strlit("nodes");
    reveal_strlit("servers");
    reveal_strlit("{nodeId}");
    reveal_strlit("{serverId}");
    reveal_strlit("config");
    reveal_strlit("status");
    reveal_strlit("setup");
    reveal_strlit("sync");
    reveal_strlit("fastdl");
    reveal_strlit("configure");
    reveal_strlit("/admin/nodes");
    reveal_strlit("/nodes/{nodeId}/config");
    reveal_strlit("/nodes/{nodeId}/status");
    reveal_strlit("/nodes/{nodeId}/setup");
    reveal_strlit("/nodes/{nodeId}/sync");
    reveal_strlit("/servers/{serverId}/fastdl");
    reveal_strlit("/servers/{serverId}/fastdl/configure");
    let none = Seq::<Seq<char>>::empty();
    lemma_rooted_push(none, "admin"@);
    lemma_rooted_push(none.push("admin"@), "nodes"@);
    assert(none.push("admin"@).push("nodes"@) =~= seq!["admin"@, "nodes"@]);
    assert(rooted(seq!["admin"@, "nodes"@]) =~= "/admin/nodes"@);
    let nodes = none.push("nodes"@).push("{nodeId}"@);
    lemma_rooted_push(none, "nodes"@);
    lemma_rooted_push(none.push("nodes"@), "{nodeId}"@);
    lemma_rooted_push(nodes, "config"@);
    lemma_rooted_push(nodes, "status"@);
    lemma_rooted_push(nodes, "setup"@);
    lemma_rooted_push(nodes, "sync"@);
    assert(nodes.push("config"@) =~= seq!["nodes"@, "{nodeId}"@, "config"@]);
    assert(nodes.push("status"@) =~= seq!["nodes"@, "{nodeId}"@, "status"@]);
    assert(nodes.push("setup"@) =~= seq!["nodes"@, "{nodeId}"@, "setup"@]);
    assert(nodes.push("sync"@) =~= seq!["nodes"@, "{nodeId}"@, "sync"@]);
    assert(rooted(seq!["nodes"@, "{nodeId}"@, "config"@]) =~= "/nodes/{nodeId}/config"@);
    assert(rooted(seq!["nodes"@, "{nodeId}"@, "status"@]) =~= "/nodes/{nodeId}/status"@);
    assert(rooted(seq!["nodes"@, "{nodeId}"@, "setup"@]) =~= "/nodes/{nodeId}/setup"@);
    assert(rooted(seq!["nodes"@, "{nodeId}"@, "sync"@]) =~= "/nodes/{nodeId}/sync"@);
    let servers = none.push("servers"@).push("{serverId}"@);
    lemma_rooted_push(none, "servers"@);
    lemma_rooted_push(none.push("servers"@), "{serverId}"@);
    lemma_rooted_push(servers, "fastdl"@);
    lemma_rooted_push(servers.push("fastdl"@), "configure"@);
    assert(servers.push("fastdl"@) =~= seq!["servers"@, "{serverId}"@, "fastdl"@]);
    assert(servers.push("fastdl"@).push("configure"@) =~= seq![
        "servers"@,
        "{serverId}"@,
        "fastdl"@,
        "configure"@,
    ]);
    assert(rooted(seq!["servers"@, "{serverId}"@, "fastdl"@]) =~= "/servers/{serverId}/fastdl"@);
    assert(rooted(seq!["servers"@, "{serverId}"@, "fastdl"@, "configure"@])
        =~= "/servers/{serverId}/fastdl/configure"@);
}


/// One segment of a match: placeholders capture, other segments must be equal.
pub open spec fn segment_step(
    captured: Option<Seq<(Seq<char>, Seq<char>)>>,
    p: Seq<char>,
    x: Seq<char>,
) -> Option<Seq<(Seq<char>, Seq<char>)>> {
    match captured {
        None => None,
        Some(c) => if is_placeholder(p) {
            Some(c.push((placeholder_name(p), x)))
        } else if p == x {
            Some(c)
        } else {
            None
        },
    }
}

proof fn lemma_match_steps(ps: Seq<Seq<char>>, xs: Seq<Seq<char>>)
    requires
        ps.len() == xs.len(),
    ensures
        ps.len() >= 1 ==> match_segments(ps, xs) == segment_step(
            match_segments(ps.drop_last(), xs.drop_last()),
            ps.last(),
            xs.last(),
        ),
        ps.len() == 0 ==> match_segments(ps, xs) == Some(Seq::<(Seq<char>, Seq<char>)>::empty()),
{
}

/// An entity ID: a non-empty path segment.
pub open spec fn entity_segment(id: Seq<char>) -> bool {
    id.len() > 0 && plain_segment(id)
}

/// Matching a three-segment pattern with a placeholder in the middle.
proof fn lemma_match_three(a: Seq<char>, p: Seq<char>, b: Seq<char>, x: Seq<char>, y: Seq<char>, z: Seq<char>)
    ensures
        match_segments(seq![Seq::<char>::empty(), a, p, b], seq![Seq::<char>::empty(), x, y, z])
            == segment_step(
            segment_step(
                segment_step(Some(Seq::<(Seq<char>, Seq<char>)>::empty()), a, x),
                p,
                y,
            ),
            b,
            z,
        ),
{
    let e = Seq::<char>::empty();
    let ps = seq![e, a, p, b];
    let xs = seq![e, x, y, z];
    lemma_match_steps(ps, xs);
    lemma_match_steps(ps.drop_last(), xs.drop_last());
    lemma_match_steps(ps.drop_last().drop_last(), xs.drop_last().drop_last());
    lemma_match_steps(ps.drop_last().drop_last().drop_last(), xs.drop_last().drop_last().drop_last());
    lemma_match_steps(
        ps.drop_last().drop_last().drop_last().drop_last(),
        xs.drop_last().drop_last().drop_last().drop_last(),
    );
    assert(ps.drop_last() =~= seq![e, a, p]);
    assert(xs.drop_last() =~= seq![e, x, y]);
    assert(ps.drop_last().drop_last() =~= seq![e, a]);
    assert(xs.drop_last().drop_last() =~= seq![e, x]);
    assert(ps.drop_last().drop_last().drop_last() =~= seq![e]);
    assert(xs.drop_last().drop_last().drop_last() =~= seq![e]);
    assert(ps.drop_last().drop_last().drop_last().drop_last() =~= Seq::<Seq<char>>::empty());
    assert(xs.drop_last().drop_last().drop_last().drop_last() =~= Seq::<Seq<char>>::empty());
    assert(!is_placeholder(e));
}

/// Matching a four-segment pattern with a placeholder second.
proof fn lemma_match_four(
    a: Seq<char>,
    p: Seq<char>,
    b: Seq<char>,
    c: Seq<char>,
    x: Seq<char>,
    y: Seq<char>,
    z: Seq<char>,
    w: Seq<char>,
)
    ensures
        match_segments(
            seq![Seq::<char>::empty(), a, p, b, c],
            seq![Seq::<char>::empty(), x, y, z, w],
        ) == segment_step(
            match_segments(seq![Seq::<char>::empty(), a, p, b], seq![Seq::<char>::empty(), x, y, z]),
            c,
            w,
        ),
{
    let e = Seq::<char>::empty();
    lemma_match_steps(seq![e, a, p, b, c], seq![e, x, y, z, w]);
    assert(seq![e, a, p, b, c].drop_last() =~= seq![e, a, p, b]);
    assert(seq![e, x, y, z, w].drop_last() =~= seq![e, x, y, z]);
}

proof fn lemma_plain_literals()
    ensures
        plain_segment("admin"@),
        plain_segment("nodes"@),
        plain_segment("servers"@),
        plain_segment("{nodeId}"@),
        plain_segment("{serverId}"@),
        plain_segment("config"@),
        plain_segment("status"@),
        plain_segment("setup"@),
        plain_segment("sync"@),
        plain_segment("fastdl"@),
        plain_segment("configure"@),
        is_placeholder("{nodeId}"@),
        placeholder_name("{nodeId}"@) == "nodeId"@,
        is_placeholder("{serverId}"@),
        placeholder_name("{serverId}"@) == "serverId"@,
        !is_placeholder("admin"@),
        !is_placeholder("nodes"@),
        !is_placeholder("servers"@),
        !is_placeholder("config"@),
        !is_placeholder("status"@),
        !is_placeholder("setup"@),
        !is_placeholder("sync"@),
        !is_placeholder("fastdl"@),
        !is_placeholder("configure"@),
        "nodes"@ != "servers"@,
        "nodes"@ != "admin"@,
        "config"@ != "status"@,
        "setup"@ != "sync"@,
        "admin"@ != "servers"@,
        "GET"@ != "PUT"@,
        "GET"@ != "POST"@,
        "PUT"@ != "POST"@,
{
    reveal_strlit("admin");
    reveal_strlit("nodes");
    reveal_strlit("servers");
    reveal_strlit("{nodeId}");
    reveal_strlit("{serverId}");
    reveal_strlit("nodeId");
    reveal_strlit("serverId");
    reveal_strlit("config");
    reveal_strlit("status");
    reveal_strlit("setup");
    reveal_strlit("sync");
    reveal_strlit("fastdl");
    reveal_strlit("configure");
    reveal_strlit("GET");
    reveal_strlit("PUT");
    reveal_strlit("POST");
    assert(placeholder_name("{nodeId}"@) =~= "nodeId"@);
    assert(placeholder_name("{serverId}"@) =~= "serverId"@);
    assert(("nodes"@)[0] != ("servers"@)[0]);
    assert(("nodes"@)[0] != ("admin"@)[0]);
    assert(("config"@)[0] != ("status"@)[0]);
    assert(("setup"@).len() != ("sync"@).len());
    assert(("admin"@)[0] != ("servers"@)[0]);
    assert(("GET"@)[0] != ("PUT"@)[0]);
    assert(("GET"@).len() != ("POST"@).len());
    assert(("PUT"@).len() != ("POST"@).len());
}


/// Patterns of as many segments as the path, compared segment by segment.
proof fn lemma_match_rooted(pattern: Seq<Seq<char>>, path: Seq<Seq<char>>)
    requires
        pattern.len() > 0,
        path.len() > 0,
        pattern.last().len() > 0,
        path.last().len() > 0,
        forall|i: int| 0 <= i < pattern.len() ==> plain_segment(#[trigger] pattern[i]),
        forall|i: int| 0 <= i < path.len() ==> plain_segment(#[trigger] path[i]),
    ensures
        pattern.len() != path.len() ==> spec_match_pattern(rooted(pattern), rooted(path)) is None,
        pattern.len() == path.len() ==> spec_match_pattern(rooted(pattern), rooted(path))
            == match_segments(
            seq![Seq::<char>::empty()] + pattern,
            seq![Seq::<char>::empty()] + path,
        ),
{
    lemma_pattern_rooted(pattern, path);
}

/// Every route is reached by its own paths: the administrators' overview, and
/// each node and server route with any entity ID in place of its placeholder;
/// the ID is captured under the placeholder's name.
pub proof fn routes_reach_their_handlers(id: Seq<char>)
    requires
        entity_segment(id),
    ensures
        spec_match_route("GET"@, rooted(seq!["admin"@, "nodes"@])) == Some(
            (RouteId::AdminNodes, Seq::<(Seq<char>, Seq<char>)>::empty()),
        ),
        spec_match_route("GET"@, node_path(id, "config"@)) == Some(
            (RouteId::NodeConfigGet, seq![("nodeId"@, id)]),
        ),
        spec_match_route("PUT"@, node_path(id, "config"@)) == Some(
            (RouteId::NodeConfigUpdate, seq![("nodeId"@, id)]),
        ),
        spec_match_route("GET"@, node_path(id, "status"@)) == Some(
            (RouteId::NodeStatus, seq![("nodeId"@, id)]),
        ),
        spec_match_route("POST"@, node_path(id, "setup"@)) == Some(
            (RouteId::NodeSetup, seq![("nodeId"@, id)]),
        ),
        spec_match_route("POST"@, node_path(id, "sync"@)) == Some(
            (RouteId::NodeSync, seq![("nodeId"@, id)]),
        ),
        spec_match_route("GET"@, server_path(id, false)) == Some(
            (RouteId::ServerFastdlGet, seq![("serverId"@, id)]),
        ),
        spec_match_route("PUT"@, server_path(id, false)) == Some(
            (RouteId::ServerFastdlUpdate, seq![("serverId"@, id)]),
        ),
        spec_match_route("POST"@, server_path(id, true)) == Some(
            (RouteId::ServerFastdlConfigure, seq![("serverId"@, id)]),
        ),
{
    reveal_strlit("admin");
    reveal_strlit("nodes");
    reveal_strlit("servers");
    reveal_strlit("config");
    reveal_strlit("status");
    reveal_strlit("setup");
    reveal_strlit("sync");
    reveal_strlit("fastdl");
    reveal_strlit("configure");
    lemma_route_patterns();
    lemma_plain_literals();
    let none = Seq::<(Seq<char>, Seq<char>)>::empty();
    let e = Seq::<char>::empty();
    let routes = spec_routes();
    let admin = seq!["admin"@, "nodes"@];
    let nodes_pattern = |action: Seq<char>| seq!["nodes"@, "{nodeId}"@, action];
    let node_segments = |action: Seq<char>| seq!["nodes"@, id, action];
    let server_pattern = seq!["servers"@, "{serverId}"@, "fastdl"@];
    let server_segments = seq!["servers"@, id, "fastdl"@];
    let configure_pattern = seq!["servers"@, "{serverId}"@, "fastdl"@, "configure"@];
    let configure_segments = seq!["servers"@, id, "fastdl"@, "configure"@];

    // the overview
    lemma_match_rooted(admin, admin);
    lemma_match_steps(seq![e, "admin"@, "nodes"@], seq![e, "admin"@, "nodes"@]);
    assert(seq![e, "admin"@, "nodes"@].drop_last() =~= seq![e, "admin"@]);
    lemma_match_steps(seq![e, "admin"@], seq![e, "admin"@]);
    assert(seq![e, "admin"@].drop_last() =~= seq![e]);
    lemma_match_steps(seq![e], seq![e]);
    assert(seq![e].drop_last() =~= Seq::<Seq<char>>::empty());
    lemma_match_steps(Seq::<Seq<char>>::empty(), Seq::<Seq<char>>::empty());
    assert(seq![e] + admin =~= seq![e, "admin"@, "nodes"@]);
    assert(spec_match_pattern(routes[0].pattern, rooted(admin)) == Some(none));
    assert(match_route_from(routes, "GET"@, rooted(admin), 0) == Some((RouteId::AdminNodes, none)));

    // node routes
    let captured_node = Some(seq![("nodeId"@, id)]);
    assert(none.push(("nodeId"@, id)) =~= seq![("nodeId"@, id)]);
    assert forall|pa: Seq<char>, xa: Seq<char>|
        pa.len() > 0 && xa.len() > 0 && plain_segment(pa) && plain_segment(xa) && !is_placeholder(pa)
            implies #[trigger] spec_match_pattern(
            rooted(nodes_pattern(pa)),
            rooted(node_segments(xa)),
        ) == (if pa == xa {
            captured_node
        } else {
            None::<Seq<(Seq<char>, Seq<char>)>>
        }) by {
        let ps = nodes_pattern(pa);
        let xs = node_segments(xa);
        assert forall|i: int| 0 <= i < ps.len() implies plain_segment(#[trigger] ps[i]) by {}
        assert forall|i: int| 0 <= i < xs.len() implies plain_segment(#[trigger] xs[i]) by {}
        lemma_match_rooted(ps, xs);
        assert(seq![e] + ps =~= seq![e, "nodes"@, "{nodeId}"@, pa]);
        assert(seq![e] + xs =~= seq![e, "nodes"@, id, xa]);
        lemma_match_three("nodes"@, "{nodeId}"@, pa, "nodes"@, id, xa);
    }
    // server routes
    let captured_server = Some(seq![("serverId"@, id)]);
    assert(none.push(("serverId"@, id)) =~= seq![("serverId"@, id)]);
    assert forall|i: int| 0 <= i < server_pattern.len() implies plain_segment(
        #[trigger] server_pattern[i],
    ) by {}
    assert forall|i: int| 0 <= i < server_segments.len() implies plain_segment(
        #[trigger] server_segments[i],
    ) by {}
    assert forall|i: int| 0 <= i < configure_pattern.len() implies plain_segment(
        #[trigger] configure_pattern[i],
    ) by {}
    assert forall|i: int| 0 <= i < configure_segments.len() implies plain_segment(
        #[trigger] configure_segments[i],
    ) by {}
    lemma_match_rooted(server_pattern, server_segments);
    assert(seq![e] + server_pattern =~= seq![e, "servers"@, "{serverId}"@, "fastdl"@]);
    assert(seq![e] + server_segments =~= seq![e, "servers"@, id, "fastdl"@]);
    lemma_match_three("servers"@, "{serverId}"@, "fastdl"@, "servers"@, id, "fastdl"@);
    assert(spec_match_pattern(rooted(server_pattern), rooted(server_segments)) == captured_server);
    lemma_match_rooted(configure_pattern, configure_segments);
    assert(seq![e] + configure_pattern =~= seq![e, "servers"@, "{serverId}"@, "fastdl"@, "configure"@]);
    assert(seq![e] + configure_segments =~= seq![e, "servers"@, id, "fastdl"@, "configure"@]);
    lemma_match_four("servers"@, "{serverId}"@, "fastdl"@, "configure"@, "servers"@, id, "fastdl"@, "configure"@);
    lemma_match_three("servers"@, "{serverId}"@, "fastdl"@, "servers"@, id, "fastdl"@);
    assert(spec_match_pattern(rooted(configure_pattern), rooted(configure_segments)) == captured_server);
    // node patterns never match server paths, and patterns of other lengths never match
    assert forall|pa: Seq<char>|
        pa.len() > 0 && plain_segment(pa) && !is_placeholder(pa) implies #[trigger] spec_match_pattern(
        rooted(nodes_pattern(pa)),
        rooted(server_segments),
    ) is None by {
        let ps = nodes_pattern(pa);
        assert forall|i: int| 0 <= i < ps.len() implies plain_segment(#[trigger] ps[i]) by {}
        lemma_match_rooted(ps, server_segments);
        assert(seq![e] + ps =~= seq![e, "nodes"@, "{nodeId}"@, pa]);
        lemma_match_three("nodes"@, "{nodeId}"@, pa, "servers"@, id, "fastdl"@);
    }
    assert forall|pa: Seq<char>|
        pa.len() > 0 && plain_segment(pa) && !is_placeholder(pa) implies #[trigger] spec_match_pattern(
        rooted(nodes_pattern(pa)),
        rooted(configure_segments),
    ) is None by {
        let ps = nodes_pattern(pa);
        assert forall|i: int| 0 <= i < ps.len() implies plain_segment(#[trigger] ps[i]) by {}
        lemma_match_rooted(ps, configure_segments);
    }
    assert forall|xa: Seq<char>|
        xa.len() > 0 && plain_segment(xa) implies #[trigger] spec_match_pattern(
        rooted(admin),
        rooted(node_segments(xa)),
    ) is None by {
        let xs = node_segments(xa);
        assert forall|i: int| 0 <= i < xs.len() implies plain_segment(#[trigger] xs[i]) by {}
        lemma_match_rooted(admin, xs);
    }
    lemma_match_rooted(admin, server_segments);
    reveal_with_fuel(match_route_from, 10);
    assert(node_path(id, "config"@) == rooted(node_segments("config"@)));
    assert(node_path(id, "status"@) == rooted(node_segments("status"@)));
    assert(node_path(id, "setup"@) == rooted(node_segments("setup"@)));
    assert(node_path(id, "sync"@) == rooted(node_segments("sync"@)));
    assert(spec_match_pattern(rooted(nodes_pattern("config"@)), rooted(node_segments("config"@)))
        == captured_node);
    assert(spec_match_pattern(rooted(nodes_pattern("config"@)), rooted(node_segments("status"@)))
        is None);
    assert(spec_match_pattern(rooted(nodes_pattern("status"@)), rooted(node_segments("status"@)))
        == captured_node);
    assert(spec_match_pattern(rooted(nodes_pattern("setup"@)), rooted(node_segments("setup"@)))
        == captured_node);
    assert(spec_match_pattern(rooted(nodes_pattern("setup"@)), rooted(node_segments("sync"@)))
        is None);
    assert(spec_match_pattern(rooted(nodes_pattern("sync"@)), rooted(node_segments("sync"@)))
        == captured_node);
    assert(spec_match_pattern(rooted(nodes_pattern("config"@)), rooted(server_segments)) is None);
    assert(spec_match_pattern(rooted(nodes_pattern("status"@)), rooted(server_segments)) is None);
    assert(spec_match_pattern(rooted(nodes_pattern("setup"@)), rooted(configure_segments)) is None);
    assert(spec_match_pattern(rooted(nodes_pattern("sync"@)), rooted(configure_segments)) is None);
    assert(spec_match_pattern(rooted(admin), rooted(node_segments("config"@))) is None);
    assert(spec_match_pattern(rooted(admin), rooted(node_segments("status"@))) is None);
}

} // verus!
