//! Paths passed to the daemon or to the scoped game-configuration helper.
use vstd::prelude::*;

use crate::domain::node::spec_parse_os;
use crate::domain::validation::relative_ok;
use crate::domain::{validate_relative, Engine, NodeConfig, NodeOs, ServerState};
use crate::host_api::NodeInfo;
use crate::http::{bad_request_view, fails_with, internal_view, ok_string, ApiError};
use crate::text::{chars_of, decimal, decimal_string, push_all, push_char};

verus! {

/// The plugin's private directory below the daemon work path.
pub const PLUGIN_DIR: &'static str = ".plugins/i3z7ix336msd4";

/// The daemon configuration file read by the FastDL service.
pub const CONFIG_PATH: &'static str = ".plugins/i3z7ix336msd4/config.json";

/// 32 lower-case hexadecimal digits, as generated for public tokens.
pub open spec fn token_ok(token: Seq<char>) -> bool {
    token.len() == 32 && forall|i: int|
        0 <= i < token.len() ==> ('0' <= #[trigger] token[i] && token[i] <= '9') || ('a'
            <= token[i] && token[i] <= 'f')
}

/// The drop-in file of a server: one fixed name per server, independent of its token.
pub open spec fn spec_server_definition(server_id: u64) -> Seq<char> {
    PLUGIN_DIR@ + "/servers.d/server-"@ + decimal(server_id as nat) + ".json"@
}

pub fn server_definition(server_id: u64, token: &str) -> (r: Result<String, ApiError>)
    ensures
        server_id != 0 && token_ok(token@) ==> ok_string(r, spec_server_definition(server_id)),
        !(server_id != 0 && token_ok(token@)) ==> fails_with(
            r,
            internal_view("Invalid stored public token"@),
        ),
{
    let chars = chars_of(token);
    let mut valid_token = chars.len() == 32;
    let mut i: usize = 0;
    while i < chars.len()
        invariant
            i <= chars.len(),
            chars@ == token@,
            valid_token == (chars@.len() == 32 && forall|j: int|
                0 <= j < i ==> ('0' <= #[trigger] chars@[j] && chars@[j] <= '9') || ('a'
                    <= chars@[j] && chars@[j] <= 'f')),
        decreases chars.len() - i,
    {
        let c = chars[i];
        if !(('0' <= c && c <= '9') || ('a' <= c && c <= 'f')) {
            valid_token = false;
        }
        i = i + 1;
    }
    if server_id == 0 || !valid_token {
        return Err(ApiError::internal("Invalid stored public token"));
    }
    let mut path = String::new();
    path.append(PLUGIN_DIR);
    path.append("/servers.d/server-");
    path.append(decimal_string(server_id).as_str());
    path.append(".json");
    Ok(path)
}

/// A game directory below a server directory; the server directory itself when empty.
pub open spec fn spec_game_root(server_dir: Seq<char>, game_dir: Seq<char>) -> Seq<char> {
    if game_dir.len() == 0 {
        server_dir
    } else {
        server_dir + seq!['/'] + game_dir
    }
}

pub fn relative_game_root(server_dir: &str, game_dir: &str) -> (r: Result<String, ApiError>)
    ensures
        relative_ok(server_dir@, false) && relative_ok(game_dir@, true) ==> ok_string(r, spec_game_root(server_dir@, game_dir@)),
        !(relative_ok(server_dir@, false) && relative_ok(game_dir@, true)) ==> fails_with(
            r,
            bad_request_view("Game directory must be a relative path inside the game server"@),
        ),
{
    match validate_relative(server_dir, false) {
        Ok(()) => {},
        Err(e) => return Err(e),
    }
    match validate_relative(game_dir, true) {
        Ok(()) => {},
        Err(e) => return Err(e),
    }
    if game_dir.unicode_len() == 0 {
        return Ok(server_dir.to_owned());
    }
    let mut root = server_dir.to_owned();
    push_char(&mut root, '/');
    root.append(game_dir);
    assert(root@ =~= spec_game_root(server_dir@, game_dir@));
    Ok(root)
}

/// Trailing `/` and `\` removed.
pub open spec fn trim_end_separators(s: Seq<char>) -> Seq<char>
    decreases s.len(),
{
    if s.len() > 0 && (s.last() == '/' || s.last() == '\\') {
        trim_end_separators(s.drop_last())
    } else {
        s
    }
}

/// `/` written as `\`.
pub open spec fn to_backslashes(s: Seq<char>) -> Seq<char> {
    s.map_values(|c: char| if c == '/' { '\\' } else { c })
}

/// A work path is rooted: `X:\`-style (the drive letter ASCII) on Windows, `/` elsewhere.
pub open spec fn work_path_rooted(w: Seq<char>, windows: bool) -> bool {
    if windows {
        w.len() >= 3 && w[0] <= '\u{7f}' && w[1] == ':' && (w[2] == '/' || w[2] == '\\')
    } else {
        w.len() > 0 && w[0] == '/'
    }
}

pub open spec fn work_path_char_invalid(c: char) -> bool {
    crate::domain::validation::is_control(c) || c == '"' || c == '\'' || c == '{' || c == '}'
}

pub open spec fn work_path_ok(node_os: Seq<char>, work_path: Seq<char>) -> bool {
    let w = trim_end_separators(work_path);
    work_path_rooted(w, spec_parse_os(node_os) == NodeOs::Windows) && forall|i: int|
        0 <= i < w.len() ==> !work_path_char_invalid(#[trigger] w[i])
}

/// A path below the node's work directory, written in the node's own separator style.
pub open spec fn spec_absolute(node_os: Seq<char>, work_path: Seq<char>, relative: Seq<char>) -> Seq<
    char,
> {
    let w = trim_end_separators(work_path);
    if spec_parse_os(node_os) == NodeOs::Windows {
        to_backslashes(w) + seq!['\\'] + to_backslashes(relative)
    } else {
        w + seq!['/'] + relative
    }
}

fn trim_end_separators_vec(s: &Vec<char>) -> (r: Vec<char>)
    ensures
        r@ == trim_end_separators(s@),
{
    let mut end: usize = s.len();
    assert(s@.subrange(0, end as int) == s@);
    while end > 0 && (s[end - 1] == '/' || s[end - 1] == '\\')
        invariant
            end <= s.len(),
            trim_end_separators(s@) == trim_end_separators(s@.subrange(0, end as int)),
        decreases end,
    {
        assert(s@.subrange(0, end as int).drop_last() == s@.subrange(0, end - 1));
        end = end - 1;
    }
    let mut r: Vec<char> = Vec::new();
    let mut i: usize = 0;
    while i < end
        invariant
            i <= end <= s.len(),
            r@ == s@.subrange(0, i as int),
        decreases end - i,
    {
        r.push(s[i]);
        i = i + 1;
        assert(s@.subrange(0, i as int) == s@.subrange(0, i - 1).push(s@[i - 1]));
    }
    r
}

fn push_backslashed(out: &mut String, s: &Vec<char>)
    ensures
        final(out)@ == old(out)@ + to_backslashes(s@),
{
    let mut i: usize = 0;
    while i < s.len()
        invariant
            i <= s.len(),
            out@ == old(out)@ + to_backslashes(s@.subrange(0, i as int)),
        decreases s.len() - i,
    {
        let c = s[i];
        push_char(out, if c == '/' { '\\' } else { c });
        i = i + 1;
        assert(to_backslashes(s@.subrange(0, i as int)) =~= to_backslashes(
            s@.subrange(0, i - 1),
        ).push(if c == '/' { '\\' } else { c }));
    }
    assert(s@.subrange(0, s@.len() as int) == s@);
}

pub fn absolute(node: &NodeInfo, relative: &str) -> (r: Result<String, ApiError>)
    ensures
        work_path_ok(node.os@, node.work_path@) ==> ok_string(r, spec_absolute(node.os@, node.work_path@, relative@)),
        !work_path_ok(node.os@, node.work_path@) ==> fails_with(
            r,
            bad_request_view("Node work directory is invalid"@),
        ),
{
    let work_path = trim_end_separators_vec(&chars_of(node.work_path.as_str()));
    let windows = node.os_kind() == NodeOs::Windows;
    let rooted = if windows {
        work_path.len() >= 3 && work_path[0] <= '\u{7f}' && work_path[1] == ':' && (work_path[2]
            == '/' || work_path[2] == '\\')
    } else {
        work_path.len() > 0 && work_path[0] == '/'
    };
    let mut invalid_character = false;
    let mut i: usize = 0;
    while i < work_path.len()
        invariant
            i <= work_path.len(),
            invalid_character == exists|j: int|
                0 <= j < i && work_path_char_invalid(#[trigger] work_path@[j]),
        decreases work_path.len() - i,
    {
        let c = work_path[i];
        if c <= '\u{1f}' || ('\u{7f}' <= c && c <= '\u{9f}') || c == '"' || c == '\'' || c == '{'
            || c == '}' {
            invalid_character = true;
        }
        i = i + 1;
    }
    if !rooted || invalid_character {
        return Err(ApiError::bad_request("Node work directory is invalid"));
    }
    let mut path = String::new();
    if windows {
        push_backslashed(&mut path, &work_path);
        push_char(&mut path, '\\');
        push_backslashed(&mut path, &chars_of(relative));
    } else {
        push_all(&mut path, &work_path);
        push_char(&mut path, '/');
        path.append(relative);
    }
    assert(path@ =~= spec_absolute(node.os@, node.work_path@, relative@));
    Ok(path)
}

pub open spec fn spec_binary_name(windows: bool) -> Seq<char> {
    if windows {
        "gameap-fastdl.exe"@
    } else {
        "gameap-fastdl"@
    }
}

/// Relative path of the FastDL executable below the work directory.
pub open spec fn spec_binary_relative(node_os: Seq<char>) -> Seq<char> {
    PLUGIN_DIR@ + seq!['/'] + spec_binary_name(spec_parse_os(node_os) == NodeOs::Windows)
}

pub fn binary(node: &NodeInfo) -> (r: Result<String, ApiError>)
    ensures
        work_path_ok(node.os@, node.work_path@) ==> ok_string(r, spec_absolute(node.os@, node.work_path@, spec_binary_relative(node.os@))),
        !work_path_ok(node.os@, node.work_path@) ==> fails_with(
            r,
            bad_request_view("Node work directory is invalid"@),
        ),
{
    let filename = match node.os_kind() {
        NodeOs::Windows => "gameap-fastdl.exe",
        NodeOs::Linux | NodeOs::Unsupported => "gameap-fastdl",
    };
    let mut relative = String::new();
    relative.append(PLUGIN_DIR);
    push_char(&mut relative, '/');
    relative.append(filename);
    assert(relative@ =~= spec_binary_relative(node.os@));
    absolute(node, relative.as_str())
}

/// Engine-specific location of `server.cfg` below the game directory.
pub open spec fn spec_config_file(engine: Engine) -> Seq<char> {
    match engine {
        Engine::Source => "cfg/server.cfg"@,
        Engine::Goldsource => "server.cfg"@,
    }
}

pub fn game_config(state: &ServerState) -> (r: Result<String, ApiError>)
    ensures
        relative_ok(state.server_dir@, false) && relative_ok(state.settings.game_dir@, true)
            ==> ok_string(r, spec_game_root(state.server_dir@, state.settings.game_dir@) + seq!['/']
            + spec_config_file(state.settings.engine)),
        !(relative_ok(state.server_dir@, false) && relative_ok(state.settings.game_dir@, true))
            ==> fails_with(
            r,
            bad_request_view("Game directory must be a relative path inside the game server"@),
        ),
{
    let mut path = match relative_game_root(state.server_dir.as_str(), state.settings.game_dir.as_str()) {
        Ok(root) => root,
        Err(e) => return Err(e),
    };
    let filename = match state.settings.engine {
        Engine::Source => "cfg/server.cfg",
        Engine::Goldsource => "server.cfg",
    };
    push_char(&mut path, '/');
    path.append(filename);
    assert(path@ =~= spec_game_root(state.server_dir@, state.settings.game_dir@) + seq!['/']
        + spec_config_file(state.settings.engine));
    Ok(path)
}

/// Trailing `/` removed.
pub open spec fn trim_end_slashes(s: Seq<char>) -> Seq<char>
    decreases s.len(),
{
    if s.len() > 0 && s.last() == '/' {
        trim_end_slashes(s.drop_last())
    } else {
        s
    }
}

/// The public address of a server's content: empty until both the base URL and token exist.
pub open spec fn spec_download_url(base: Seq<char>, token: Seq<char>) -> Seq<char> {
    if base.len() == 0 || token.len() == 0 {
        Seq::empty()
    } else {
        trim_end_slashes(base) + seq!['/'] + token + seq!['/']
    }
}

pub fn download_url(config: &NodeConfig, token: &str) -> (r: String)
    ensures
        r@ == spec_download_url(config.public_base_url@, token@),
{
    let base = chars_of(config.public_base_url.as_str());
    if base.len() == 0 || token.unicode_len() == 0 {
        return String::new();
    }
    let mut end: usize = base.len();
    assert(base@.subrange(0, end as int) == base@);
    while end > 0 && base[end - 1] == '/'
        invariant
            end <= base.len(),
            trim_end_slashes(base@) == trim_end_slashes(base@.subrange(0, end as int)),
        decreases end,
    {
        assert(base@.subrange(0, end as int).drop_last() == base@.subrange(0, end - 1));
        end = end - 1;
    }
    let mut url = String::new();
    let mut i: usize = 0;
    while i < end
        invariant
            i <= end <= base.len(),
            url@ == base@.subrange(0, i as int),
        decreases end - i,
    {
        push_char(&mut url, base[i]);
        i = i + 1;
        assert(base@.subrange(0, i as int) == base@.subrange(0, i - 1).push(base@[i - 1]));
    }
    push_char(&mut url, '/');
    url.append(token);
    push_char(&mut url, '/');
    assert(url@ =~= spec_download_url(config.public_base_url@, token@));
    url
}

} // verus!

verus! {

/// Each server has its own drop-in file: different servers never share one.
pub proof fn server_definitions_are_distinct(a: u64, b: u64)
    ensures
        spec_server_definition(a) == spec_server_definition(b) ==> a == b,
{
    if spec_server_definition(a) == spec_server_definition(b) {
        crate::text::lemma_framed_decimal_injective(
            PLUGIN_DIR@ + "/servers.d/server-"@,
            a as nat,
            b as nat,
            ".json"@,
        );
    }
}

} // verus!

verus! {

/// A published game root is the server directory followed by the game
/// directory: every component is an ordinary name, never empty, `.` or `..`,
/// so the root cannot leave the server directory.
pub proof fn game_root_stays_inside(server_dir: Seq<char>, game_dir: Seq<char>)
    requires
        relative_ok(server_dir, false),
        relative_ok(game_dir, true),
    ensures
        crate::text::split(spec_game_root(server_dir, game_dir), '/') == crate::text::split(
            server_dir,
            '/',
        ) + (if game_dir.len() == 0 {
            Seq::<Seq<char>>::empty()
        } else {
            crate::text::split(game_dir, '/')
        }),
        forall|k: int|
            0 <= k < crate::text::split(spec_game_root(server_dir, game_dir), '/').len()
                ==> !crate::domain::validation::relative_component_invalid(
                #[trigger] crate::text::split(spec_game_root(server_dir, game_dir), '/')[k],
            ),
{
    let root = spec_game_root(server_dir, game_dir);
    let head = crate::text::split(server_dir, '/');
    if game_dir.len() == 0 {
        assert(head + Seq::<Seq<char>>::empty() =~= head);
    } else {
        crate::text::lemma_split_join(server_dir, game_dir, '/');
        let tail = crate::text::split(game_dir, '/');
        assert forall|k: int| 0 <= k < (head + tail).len() implies
            !crate::domain::validation::relative_component_invalid(#[trigger] (head + tail)[k]) by {
            if k < head.len() {
                assert((head + tail)[k] == head[k]);
            } else {
                assert((head + tail)[k] == tail[k - head.len()]);
            }
        }
    }
}

} // verus!
