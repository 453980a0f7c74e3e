//! Game server settings and the restricted configuration sent to FastDL.
use vstd::prelude::*;

use crate::http::{bad_request_view, fails_with, ApiError};
use crate::text::{chars_of, eq_str, lower, lower_vec, split, split_vec, trim, trim_vec};

use super::validation::{relative_ok, validate_relative};

verus! {

#[derive(Debug, Clone, Copy, PartialEq, Eq, Structural)]
pub enum Engine {
    Goldsource,
    Source,
}

pub open spec fn spec_engine_name(engine: Engine) -> Seq<char> {
    match engine {
        Engine::Goldsource => "goldsource"@,
        Engine::Source => "source"@,
    }
}

/// The engine named by the panel for a game; other engines are not supported.
pub open spec fn spec_parse_engine(name: Seq<char>) -> Option<Engine> {
    let n = lower(trim(name));
    if n == "goldsource"@ {
        Some(Engine::Goldsource)
    } else if n == "source"@ {
        Some(Engine::Source)
    } else {
        None
    }
}

/// The engine names the plugin writes are read back as the same engines.
pub proof fn engine_names_round_trip(engine: Engine)
    ensures
        spec_parse_engine(spec_engine_name(engine)) == Some(engine),
{
    reveal_strlit("goldsource");
    reveal_strlit("source");
    let name = spec_engine_name(engine);
    assert(!crate::text::is_whitespace(name[0]));
    assert(!crate::text::is_whitespace(name.last()));
    assert(crate::text::trim_start(name) == name);
    assert(crate::text::trim_end(name) == name);
    assert forall|i: int| 0 <= i < name.len() implies crate::text::lower_char(#[trigger] name[i])
        == name[i] by {
        assert('a' <= name[i] && name[i] <= 'z');
    }
    assert(lower(name) =~= name);
}

impl Engine {
    pub fn as_str(self) -> (r: &'static str)
        ensures
            r@ == spec_engine_name(self),
    {
        match self {
            Engine::Goldsource => "goldsource",
            Engine::Source => "source",
        }
    }

    /// Reads the engine the panel records for a game, ignoring case and surrounding space.
    pub fn parse(name: &str) -> (r: Option<Engine>)
        ensures
            r == spec_parse_engine(name@),
    {
        let n = lower_vec(&trim_vec(&chars_of(name)));
        if eq_str(&n, "goldsource") {
            Some(Engine::Goldsource)
        } else if eq_str(&n, "source") {
            Some(Engine::Source)
        } else {
            None
        }
    }
}

#[derive(Debug, Clone, PartialEq, Eq)]
pub struct ServerInput {
    pub enabled: bool,
    pub autoindex: bool,
    pub engine: Engine,
    pub game_dir: String,
    pub manage_game_config: bool,
    pub generate_bz2: bool,
}

pub struct ServerInputView {
    pub enabled: bool,
    pub autoindex: bool,
    pub engine: Engine,
    pub game_dir: Seq<char>,
    pub manage_game_config: bool,
    pub generate_bz2: bool,
}

impl View for ServerInput {
    type V = ServerInputView;

    open spec fn view(&self) -> ServerInputView {
        ServerInputView {
            enabled: self.enabled,
            autoindex: self.autoindex,
            engine: self.engine,
            game_dir: self.game_dir@,
            manage_game_config: self.manage_game_config,
            generate_bz2: self.generate_bz2,
        }
    }
}

/// Omitted automatic settings stay enabled when stored settings are read.
pub fn default_true() -> (r: bool)
    ensures
        r,
{
    true
}

/// Directories that hold server internals and must never be published.
pub open spec fn spec_internal_directory(directory: Seq<char>) -> bool {
    let d = lower(directory);
    ||| d == "cfg"@ || d == "config"@ || d == "configs"@ || d == "logs"@ || d == "log"@
    ||| d == "addons"@ || d == "plugins"@ || d == "bin"@ || d == "cache"@ || d == "data"@
    ||| d == "download"@ || d == "downloads"@ || d == "backup"@ || d == "backups"@
}

pub open spec fn has_internal_component(game_dir: Seq<char>) -> bool {
    exists|k: int|
        0 <= k < split(game_dir, '/').len() && spec_internal_directory(
            #[trigger] split(game_dir, '/')[k],
        )
}

pub open spec fn server_input_ok(game_dir: Seq<char>) -> bool {
    relative_ok(game_dir, true) && !has_internal_component(game_dir)
}

fn is_internal_directory(directory: &Vec<char>) -> (r: bool)
    ensures
        r == spec_internal_directory(directory@),
{
    let d = lower_vec(directory);
    eq_str(&d, "cfg") || eq_str(&d, "config") || eq_str(&d, "configs") || eq_str(&d, "logs")
        || eq_str(&d, "log") || eq_str(&d, "addons") || eq_str(&d, "plugins") || eq_str(&d, "bin")
        || eq_str(&d, "cache") || eq_str(&d, "data") || eq_str(&d, "download") || eq_str(
        &d,
        "downloads",
    ) || eq_str(&d, "backup") || eq_str(&d, "backups")
}

/// Engine, game directory and support for a game code (matched without case).
pub open spec fn spec_game_defaults(game: Seq<char>) -> (Engine, Seq<char>, bool) {
    let g = lower(game);
    if g == "cstrike"@ || g == "cs16"@ || g == "cs"@ {
        (Engine::Goldsource, "cstrike"@, true)
    } else if g == "valve"@ || g == "hldm"@ || g == "hl"@ {
        (Engine::Goldsource, "valve"@, true)
    } else if g == "czero"@ {
        (Engine::Goldsource, "czero"@, true)
    } else if g == "dod"@ {
        (Engine::Goldsource, "dod"@, true)
    } else if g == "tfc"@ {
        (Engine::Goldsource, "tfc"@, true)
    } else if g == "css"@ || g == "cstrike_source"@ || g == "cs-source"@ {
        (Engine::Source, "cstrike"@, true)
    } else if g == "csgo"@ {
        (Engine::Source, "csgo"@, true)
    } else if g == "tf2"@ || g == "tf"@ {
        (Engine::Source, "tf"@, true)
    } else if g == "gmod"@ || g == "garrysmod"@ {
        (Engine::Source, "garrysmod"@, true)
    } else if g == "hl2dm"@ || g == "hl2mp"@ {
        (Engine::Source, "hl2mp"@, true)
    } else if g == "l4d"@ || g == "left4dead"@ {
        (Engine::Source, "left4dead"@, true)
    } else if g == "l4d2"@ || g == "left4dead2"@ {
        (Engine::Source, "left4dead2"@, true)
    } else if g == "dods"@ || g == "dod_source"@ {
        (Engine::Source, "dod"@, true)
    } else {
        (Engine::Source, Seq::empty(), false)
    }
}

impl ServerInput {
    pub fn validate(&self) -> (r: Result<(), ApiError>)
        ensures
            r is Ok <==> server_input_ok(self.game_dir@),
            !relative_ok(self.game_dir@, true) ==> fails_with(
                r,
                bad_request_view("Game directory must be a relative path inside the game server"@),
            ),
            relative_ok(self.game_dir@, true) && has_internal_component(self.game_dir@)
                ==> fails_with(
                r,
                bad_request_view(
                    "Internal server directories cannot be used as a game directory"@,
                ),
            ),
    {
        match validate_relative(self.game_dir.as_str(), true) {
            Ok(()) => {},
            Err(e) => return Err(e),
        }
        let parts = split_vec(&chars_of(self.game_dir.as_str()), '/');
        let ghost views = parts@.map_values(|p: Vec<char>| p@);
        let mut k: usize = 0;
        while k < parts.len()
            invariant
                k <= parts.len(),
                views == parts@.map_values(|p: Vec<char>| p@),
                views == split(self.game_dir@, '/'),
                relative_ok(self.game_dir@, true),
                forall|j: int| 0 <= j < k ==> !spec_internal_directory(#[trigger] views[j]),
            decreases parts.len() - k,
        {
            assert(views[k as int] == parts@[k as int]@);
            if is_internal_directory(&parts[k]) {
                return Err(
                    ApiError::bad_request(
                        "Internal server directories cannot be used as a game directory",
                    ),
                );
            }
            k = k + 1;
        }
        Ok(())
    }

    /// A copy with the same settings.
    pub fn duplicate(&self) -> (r: Self)
        ensures
            r@ == self@,
    {
        ServerInput {
            enabled: self.enabled,
            autoindex: self.autoindex,
            engine: self.engine,
            game_dir: self.game_dir.clone(),
            manage_game_config: self.manage_game_config,
            generate_bz2: self.generate_bz2,
        }
    }

    /// Default settings for a game code, and whether the code is a known game.
    pub fn for_game(game: &str) -> (r: (Self, bool))
        ensures
            r.0@ == (ServerInputView {
                enabled: false,
                autoindex: false,
                engine: spec_game_defaults(game@).0,
                game_dir: spec_game_defaults(game@).1,
                manage_game_config: true,
                generate_bz2: true,
            }),
            r.1 == spec_game_defaults(game@).2,
    {
        let g = lower_vec(&chars_of(game));
        let (engine, game_dir, supported) = if eq_str(&g, "cstrike") || eq_str(&g, "cs16")
            || eq_str(&g, "cs") {
            (Engine::Goldsource, "cstrike", true)
        } else if eq_str(&g, "valve") || eq_str(&g, "hldm") || eq_str(&g, "hl") {
            (Engine::Goldsource, "valve", true)
        } else if eq_str(&g, "czero") {
            (Engine::Goldsource, "czero", true)
        } else if eq_str(&g, "dod") {
            (Engine::Goldsource, "dod", true)
        } else if eq_str(&g, "tfc") {
            (Engine::Goldsource, "tfc", true)
        } else if eq_str(&g, "css") || eq_str(&g, "cstrike_source") || eq_str(&g, "cs-source") {
            (Engine::Source, "cstrike", true)
        } else if eq_str(&g, "csgo") {
            (Engine::Source, "csgo", true)
        } else if eq_str(&g, "tf2") || eq_str(&g, "tf") {
            (Engine::Source, "tf", true)
        } else if eq_str(&g, "gmod") || eq_str(&g, "garrysmod") {
            (Engine::Source, "garrysmod", true)
        } else if eq_str(&g, "hl2dm") || eq_str(&g, "hl2mp") {
            (Engine::Source, "hl2mp", true)
        } else if eq_str(&g, "l4d") || eq_str(&g, "left4dead") {
            (Engine::Source, "left4dead", true)
        } else if eq_str(&g, "l4d2") || eq_str(&g, "left4dead2") {
            (Engine::Source, "left4dead2", true)
        } else if eq_str(&g, "dods") || eq_str(&g, "dod_source") {
            (Engine::Source, "dod", true)
        } else {
            (Engine::Source, "", false)
        };
        proof {
            if !supported {
                assert(game_dir@ == Seq::<char>::empty()) by {
                    reveal_strlit("");
                }
            }
        }
        let settings = ServerInput {
            enabled: false,
            autoindex: false,
            engine,
            game_dir: game_dir.to_owned(),
            manage_game_config: true,
            generate_bz2: true,
        };
        (settings, supported)
    }
}

#[derive(Debug, Clone, PartialEq, Eq)]
pub struct ServerState {
    pub server_id: u64,
    pub settings: ServerInput,
    pub token: String,
    pub node_id: u64,
    pub server_dir: String,
    pub synced: bool,
}

pub struct ServerStateView {
    pub server_id: u64,
    pub settings: ServerInputView,
    pub token: Seq<char>,
    pub node_id: u64,
    pub server_dir: Seq<char>,
    pub synced: bool,
}

impl View for ServerState {
    type V = ServerStateView;

    open spec fn view(&self) -> ServerStateView {
        ServerStateView {
            server_id: self.server_id,
            settings: self.settings@,
            token: self.token@,
            node_id: self.node_id,
            server_dir: self.server_dir@,
            synced: self.synced,
        }
    }
}

impl ServerState {
    /// A copy with the same state.
    pub fn duplicate(&self) -> (r: Self)
        ensures
            r@ == self@,
    {
        ServerState {
            server_id: self.server_id,
            settings: self.settings.duplicate(),
            token: self.token.clone(),
            node_id: self.node_id,
            server_dir: self.server_dir.clone(),
            synced: self.synced,
        }
    }
}

/// Public settings omit internal IDs, filesystem roots, and the stored token.
#[derive(Debug, PartialEq, Eq)]
pub struct ServerResponse {
    pub server_name: String,
    pub settings: ServerInput,
    pub download_url: String,
    pub configuration: Vec<String>,
    pub can_manage: bool,
    pub synced: bool,
    pub supported: bool,
    pub node_ready: bool,
    pub warnings: Vec<String>,
}

pub struct ServerResponseView {
    pub server_name: Seq<char>,
    pub settings: ServerInputView,
    pub download_url: Seq<char>,
    pub configuration: Seq<Seq<char>>,
    pub can_manage: bool,
    pub synced: bool,
    pub supported: bool,
    pub node_ready: bool,
    pub warnings: Seq<Seq<char>>,
}

pub open spec fn strings_view(v: Seq<String>) -> Seq<Seq<char>> {
    v.map_values(|s: String| s@)
}

impl View for ServerResponse {
    type V = ServerResponseView;

    open spec fn view(&self) -> ServerResponseView {
        ServerResponseView {
            server_name: self.server_name@,
            settings: self.settings@,
            download_url: self.download_url@,
            configuration: strings_view(self.configuration@),
            can_manage: self.can_manage,
            synced: self.synced,
            supported: self.supported,
            node_ready: self.node_ready,
            warnings: strings_view(self.warnings@),
        }
    }
}

#[derive(Debug, Clone, PartialEq, Eq)]
pub struct ServerDropIn {
    pub token: String,
    pub root: String,
    pub engine: Engine,
    pub enabled: bool,
    pub autoindex: bool,
    pub generate_bz2: bool,
}

/// The published definition of one server, as the FastDL service reads it.
pub struct ServerDropInView {
    pub token: Seq<char>,
    pub root: Seq<char>,
    pub engine: Engine,
    pub enabled: bool,
    pub autoindex: bool,
    pub generate_bz2: bool,
}

impl View for ServerDropIn {
    type V = ServerDropInView;

    open spec fn view(&self) -> ServerDropInView {
        ServerDropInView {
            token: self.token@,
            root: self.root@,
            engine: self.engine,
            enabled: self.enabled,
            autoindex: self.autoindex,
            generate_bz2: self.generate_bz2,
        }
    }
}

#[derive(Debug)]
pub struct ConfigureResponse {
    pub configured: bool,
}

} // verus!

verus! {

/// Game codes are matched in any letter case: a code and its lower-case form get
/// the same defaults.
pub proof fn game_codes_match_in_any_case(game: Seq<char>)
    ensures
        spec_game_defaults(game) == spec_game_defaults(lower(game)),
{
    assert forall|i: int| 0 <= i < game.len() implies #[trigger] lower(lower(game))[i] == lower(game)[i] by {
        let c = game[i];
        if 'A' <= c && c <= 'Z' {
            assert(((c as u32) + 32) as char as u32 == (c as u32) + 32);
        }
    }
    assert(lower(lower(game)) =~= lower(game));
}

} // verus!

verus! {

/// A plain directory name: lower-case ASCII letters and digits only.
pub open spec fn plain_dir(s: Seq<char>) -> bool {
    &&& 0 < s.len() <= 512
    &&& forall|i: int| 0 <= i < s.len() ==> ('a' <= #[trigger] s[i] <= 'z') || ('0' <= s[i] <= '9')
}

proof fn lemma_split_plain(s: Seq<char>)
    requires
        forall|i: int| 0 <= i < s.len() ==> #[trigger] s[i] != '/',
    ensures
        split(s, '/') == seq![s],
    decreases s.len(),
{
    if s.len() == 0 {
        assert(s =~= Seq::<char>::empty());
    } else {
        let d = s.drop_last();
        assert forall|i: int| 0 <= i < d.len() implies #[trigger] d[i] != '/' by {
            assert(d[i] == s[i]);
        }
        lemma_split_plain(d);
        assert(d.push(s.last()) =~= s);
        assert(seq![d].update(0, d.push(s.last())) =~= seq![s]);
    }
}

proof fn lemma_utf8_ascii(s: Seq<char>)
    requires
        forall|i: int| 0 <= i < s.len() ==> #[trigger] s[i] <= '\u{7f}',
    ensures
        super::validation::utf8_len(s) == s.len(),
    decreases s.len(),
{
    if s.len() > 0 {
        let d = s.drop_last();
        assert forall|i: int| 0 <= i < d.len() implies #[trigger] d[i] <= '\u{7f}' by {
            assert(d[i] == s[i]);
        }
        lemma_utf8_ascii(d);
    }
}

proof fn lemma_plain_dir_ok(s: Seq<char>)
    requires
        plain_dir(s),
        !spec_internal_directory(s),
    ensures
        server_input_ok(s),
{
    lemma_split_plain(s);
    lemma_utf8_ascii(s);
    assert(split(s, '/')[0] == s);
    assert(!has_internal_component(s));
}

/// The defaults of every game code, known or not, pass the settings validation.
pub proof fn game_defaults_always_validate(game: Seq<char>)
    ensures
        server_input_ok(spec_game_defaults(game).1),
{
    reveal_strlit("cstrike");
    reveal_strlit("valve");
    reveal_strlit("czero");
    reveal_strlit("dod");
    reveal_strlit("tfc");
    reveal_strlit("csgo");
    reveal_strlit("tf");
    reveal_strlit("garrysmod");
    reveal_strlit("hl2mp");
    reveal_strlit("left4dead");
    reveal_strlit("left4dead2");
    reveal_strlit("cfg");
    reveal_strlit("config");
    reveal_strlit("configs");
    reveal_strlit("logs");
    reveal_strlit("log");
    reveal_strlit("addons");
    reveal_strlit("plugins");
    reveal_strlit("bin");
    reveal_strlit("cache");
    reveal_strlit("data");
    reveal_strlit("download");
    reveal_strlit("downloads");
    reveal_strlit("backup");
    reveal_strlit("backups");
    let dir = spec_game_defaults(game).1;
    if dir.len() == 0 {
        assert(relative_ok(dir, true));
        assert(split(dir, '/') == seq![Seq::<char>::empty()]);
        assert(lower(dir) =~= dir);
        assert(!spec_internal_directory(split(dir, '/')[0]));
        assert(!has_internal_component(dir));
    } else {
        assert(plain_dir(dir));
        assert(lower(dir) =~= dir);
        assert(!spec_internal_directory("cstrike"@)) by {
            assert(lower("cstrike"@) =~= "cstrike"@);
            assert("cstrike"@[1] != "configs"@[1]);
            assert("cstrike"@[0] != "plugins"@[0]);
            assert("cstrike"@[0] != "backups"@[0]);
        }
        assert(!spec_internal_directory("valve"@)) by {
            assert(lower("valve"@) =~= "valve"@);
            assert("valve"@[0] != "cache"@[0]);
        }
        assert(!spec_internal_directory("czero"@)) by {
            assert(lower("czero"@) =~= "czero"@);
            assert("czero"@[1] != "cache"@[1]);
        }
        assert(!spec_internal_directory("dod"@)) by {
            assert(lower("dod"@) =~= "dod"@);
            assert("dod"@[0] != "cfg"@[0]);
            assert("dod"@[0] != "log"@[0]);
            assert("dod"@[0] != "bin"@[0]);
        }
        assert(!spec_internal_directory("tfc"@)) by {
            assert(lower("tfc"@) =~= "tfc"@);
            assert("tfc"@[0] != "cfg"@[0]);
            assert("tfc"@[0] != "log"@[0]);
            assert("tfc"@[0] != "bin"@[0]);
        }
        assert(!spec_internal_directory("csgo"@)) by {
            assert(lower("csgo"@) =~= "csgo"@);
            assert("csgo"@[0] != "logs"@[0]);
            assert("csgo"@[0] != "data"@[0]);
        }
        assert(!spec_internal_directory("tf"@)) by {
            assert(lower("tf"@) =~= "tf"@);
        }
        assert(!spec_internal_directory("garrysmod"@)) by {
            assert(lower("garrysmod"@) =~= "garrysmod"@);
            assert("garrysmod"@[0] != "downloads"@[0]);
        }
        assert(!spec_internal_directory("hl2mp"@)) by {
            assert(lower("hl2mp"@) =~= "hl2mp"@);
            assert("hl2mp"@[0] != "cache"@[0]);
        }
        assert(!spec_internal_directory("left4dead"@)) by {
            assert(lower("left4dead"@) =~= "left4dead"@);
            assert("left4dead"@[0] != "downloads"@[0]);
        }
        assert(!spec_internal_directory("left4dead2"@)) by {
            assert(lower("left4dead2"@) =~= "left4dead2"@);
        }
        assert(!spec_internal_directory(dir));
        lemma_plain_dir_ok(dir);
    }
}

} // verus!

verus! {

/// The internal directory names are plain names, and internal.
proof fn lemma_internal_name(dir: Seq<char>)
    requires
        lower(dir) == "cfg"@ || lower(dir) == "config"@ || lower(dir) == "configs"@ || lower(dir) == "logs"@
            || lower(dir) == "log"@ || lower(dir) == "addons"@ || lower(dir) == "plugins"@ || lower(dir)
            == "bin"@ || lower(dir) == "cache"@ || lower(dir) == "data"@ || lower(dir) == "download"@
            || lower(dir) == "downloads"@ || lower(dir) == "backup"@ || lower(dir) == "backups"@,
    ensures
        forall|i: int| 0 <= i < dir.len() ==> #[trigger] dir[i] != '/',
        dir.len() > 0,
        spec_internal_directory(dir),
{
    reveal_strlit("cfg");
    reveal_strlit("config");
    reveal_strlit("configs");
    reveal_strlit("logs");
    reveal_strlit("log");
    reveal_strlit("addons");
    reveal_strlit("plugins");
    reveal_strlit("bin");
    reveal_strlit("cache");
    reveal_strlit("data");
    reveal_strlit("download");
    reveal_strlit("downloads");
    reveal_strlit("backup");
    reveal_strlit("backups");
    let l = lower(dir);
    assert forall|i: int| 0 <= i < dir.len() implies #[trigger] dir[i] != '/' by {
        assert(l[i] == crate::text::lower_char(dir[i]));
        if l == "cfg"@ {
            assert("cfg"@ =~= seq!['c', 'f', 'g']);
        } else if l == "config"@ {
            assert("config"@ =~= seq!['c', 'o', 'n', 'f', 'i', 'g']);
        } else if l == "configs"@ {
            assert("configs"@ =~= seq!['c', 'o', 'n', 'f', 'i', 'g', 's']);
        } else if l == "logs"@ {
            assert("logs"@ =~= seq!['l', 'o', 'g', 's']);
        } else if l == "log"@ {
            assert("log"@ =~= seq!['l', 'o', 'g']);
        } else if l == "addons"@ {
            assert("addons"@ =~= seq!['a', 'd', 'd', 'o', 'n', 's']);
        } else if l == "plugins"@ {
            assert("plugins"@ =~= seq!['p', 'l', 'u', 'g', 'i', 'n', 's']);
        } else if l == "bin"@ {
            assert("bin"@ =~= seq!['b', 'i', 'n']);
        } else if l == "cache"@ {
            assert("cache"@ =~= seq!['c', 'a', 'c', 'h', 'e']);
        } else if l == "data"@ {
            assert("data"@ =~= seq!['d', 'a', 't', 'a']);
        } else if l == "download"@ {
            assert("download"@ =~= seq!['d', 'o', 'w', 'n', 'l', 'o', 'a', 'd']);
        } else if l == "downloads"@ {
            assert("downloads"@ =~= seq!['d', 'o', 'w', 'n', 'l', 'o', 'a', 'd', 's']);
        } else if l == "backup"@ {
            assert("backup"@ =~= seq!['b', 'a', 'c', 'k', 'u', 'p']);
        } else if l == "backups"@ {
            assert("backups"@ =~= seq!['b', 'a', 'c', 'k', 'u', 'p', 's']);
        }
    }
    assert(dir.len() == l.len());
}

/// A game directory naming a server-internal directory (configuration, logs,
/// add-ons, plugins, binaries, caches, data, downloads or backups), in any
/// letter case, is refused.
pub proof fn internal_directories_are_refused(dir: Seq<char>)
    requires
        lower(dir) == "cfg"@ || lower(dir) == "config"@ || lower(dir) == "configs"@ || lower(dir) == "logs"@
            || lower(dir) == "log"@ || lower(dir) == "addons"@ || lower(dir) == "plugins"@ || lower(dir)
            == "bin"@ || lower(dir) == "cache"@ || lower(dir) == "data"@ || lower(dir) == "download"@
            || lower(dir) == "downloads"@ || lower(dir) == "backup"@ || lower(dir) == "backups"@,
    ensures
        !server_input_ok(dir),
{
    lemma_internal_name(dir);
    lemma_split_plain(dir);
    assert(split(dir, '/')[0] == dir);
}

/// A game directory whose last component names a server-internal directory, in
/// any letter case, is refused, whatever comes before it.
pub proof fn nested_internal_directories_are_refused(parent: Seq<char>, dir: Seq<char>)
    requires
        lower(dir) == "cfg"@ || lower(dir) == "config"@ || lower(dir) == "configs"@ || lower(dir) == "logs"@
            || lower(dir) == "log"@ || lower(dir) == "addons"@ || lower(dir) == "plugins"@ || lower(dir)
            == "bin"@ || lower(dir) == "cache"@ || lower(dir) == "data"@ || lower(dir) == "download"@
            || lower(dir) == "downloads"@ || lower(dir) == "backup"@ || lower(dir) == "backups"@,
    ensures
        !server_input_ok(parent.push('/') + dir),
{
    lemma_internal_name(dir);
    lemma_split_last(parent, dir);
    let pieces = split(parent.push('/') + dir, '/');
    assert(spec_internal_directory(pieces[pieces.len() - 1]));
}

/// After a separator, the last piece of a split is the text that follows it.
proof fn lemma_split_last(s: Seq<char>, t: Seq<char>)
    requires
        forall|i: int| 0 <= i < t.len() ==> #[trigger] t[i] != '/',
    ensures
        split(s.push('/') + t, '/').len() >= 1,
        split(s.push('/') + t, '/').last() == t,
    decreases t.len(),
{
    let u = s.push('/') + t;
    if t.len() == 0 {
        assert(u =~= s.push('/'));
        assert(u.drop_last() =~= s);
        crate::text::lemma_split_nonempty(s, '/');
    } else {
        let d = t.drop_last();
        assert forall|i: int| 0 <= i < d.len() implies #[trigger] d[i] != '/' by {
            assert(d[i] == t[i]);
        }
        lemma_split_last(s, d);
        assert(u.drop_last() =~= s.push('/') + d);
        assert(u.last() == t.last());
        assert(d.push(t.last()) =~= t);
    }
}

/// The defaults of every known game code: its engine, its own game directory,
/// and support.
pub proof fn known_game_defaults()
    ensures
        spec_game_defaults("cstrike"@).0 == Engine::Goldsource && spec_game_defaults("cstrike"@).1 == "cstrike"@ && spec_game_defaults("cstrike"@).2,
        spec_game_defaults("cs16"@).0 == Engine::Goldsource && spec_game_defaults("cs16"@).1 == "cstrike"@ && spec_game_defaults("cs16"@).2,
        spec_game_defaults("cs"@).0 == Engine::Goldsource && spec_game_defaults("cs"@).1 == "cstrike"@ && spec_game_defaults("cs"@).2,
        spec_game_defaults("valve"@).0 == Engine::Goldsource && spec_game_defaults("valve"@).1 == "valve"@ && spec_game_defaults("valve"@).2,
        spec_game_defaults("hldm"@).0 == Engine::Goldsource && spec_game_defaults("hldm"@).1 == "valve"@ && spec_game_defaults("hldm"@).2,
        spec_game_defaults("hl"@).0 == Engine::Goldsource && spec_game_defaults("hl"@).1 == "valve"@ && spec_game_defaults("hl"@).2,
        spec_game_defaults("czero"@).0 == Engine::Goldsource && spec_game_defaults("czero"@).1 == "czero"@ && spec_game_defaults("czero"@).2,
        spec_game_defaults("dod"@).0 == Engine::Goldsource && spec_game_defaults("dod"@).1 == "dod"@ && spec_game_defaults("dod"@).2,
        spec_game_defaults("tfc"@).0 == Engine::Goldsource && spec_game_defaults("tfc"@).1 == "tfc"@ && spec_game_defaults("tfc"@).2,
        spec_game_defaults("css"@).0 == Engine::Source && spec_game_defaults("css"@).1 == "cstrike"@ && spec_game_defaults("css"@).2,
        spec_game_defaults("cstrike_source"@).0 == Engine::Source && spec_game_defaults("cstrike_source"@).1 == "cstrike"@ && spec_game_defaults("cstrike_source"@).2,
        spec_game_defaults("cs-source"@).0 == Engine::Source && spec_game_defaults("cs-source"@).1 == "cstrike"@ && spec_game_defaults("cs-source"@).2,
        spec_game_defaults("csgo"@).0 == Engine::Source && spec_game_defaults("csgo"@).1 == "csgo"@ && spec_game_defaults("csgo"@).2,
        spec_game_defaults("tf2"@).0 == Engine::Source && spec_game_defaults("tf2"@).1 == "tf"@ && spec_game_defaults("tf2"@).2,
        spec_game_defaults("tf"@).0 == Engine::Source && spec_game_defaults("tf"@).1 == "tf"@ && spec_game_defaults("tf"@).2,
        spec_game_defaults("gmod"@).0 == Engine::Source && spec_game_defaults("gmod"@).1 == "garrysmod"@ && spec_game_defaults("gmod"@).2,
        spec_game_defaults("garrysmod"@).0 == Engine::Source && spec_game_defaults("garrysmod"@).1 == "garrysmod"@ && spec_game_defaults("garrysmod"@).2,
        spec_game_defaults("hl2dm"@).0 == Engine::Source && spec_game_defaults("hl2dm"@).1 == "hl2mp"@ && spec_game_defaults("hl2dm"@).2,
        spec_game_defaults("hl2mp"@).0 == Engine::Source && spec_game_defaults("hl2mp"@).1 == "hl2mp"@ && spec_game_defaults("hl2mp"@).2,
        spec_game_defaults("l4d"@).0 == Engine::Source && spec_game_defaults("l4d"@).1 == "left4dead"@ && spec_game_defaults("l4d"@).2,
        spec_game_defaults("left4dead"@).0 == Engine::Source && spec_game_defaults("left4dead"@).1 == "left4dead"@ && spec_game_defaults("left4dead"@).2,
        spec_game_defaults("l4d2"@).0 == Engine::Source && spec_game_defaults("l4d2"@).1 == "left4dead2"@ && spec_game_defaults("l4d2"@).2,
        spec_game_defaults("left4dead2"@).0 == Engine::Source && spec_game_defaults("left4dead2"@).1 == "left4dead2"@ && spec_game_defaults("left4dead2"@).2,
        spec_game_defaults("dods"@).0 == Engine::Source && spec_game_defaults("dods"@).1 == "dod"@ && spec_game_defaults("dods"@).2,
        spec_game_defaults("dod_source"@).0 == Engine::Source && spec_game_defaults("dod_source"@).1 == "dod"@ && spec_game_defaults("dod_source"@).2,
{
    reveal_strlit("cstrike");
    reveal_strlit("cs16");
    reveal_strlit("cs");
    reveal_strlit("valve");
    reveal_strlit("hldm");
    reveal_strlit("hl");
    reveal_strlit("czero");
    reveal_strlit("dod");
    reveal_strlit("tfc");
    reveal_strlit("css");
    reveal_strlit("cstrike_source");
    reveal_strlit("cs-source");
    reveal_strlit("csgo");
    reveal_strlit("tf2");
    reveal_strlit("tf");
    reveal_strlit("gmod");
    reveal_strlit("garrysmod");
    reveal_strlit("hl2dm");
    reveal_strlit("hl2mp");
    reveal_strlit("l4d");
    reveal_strlit("left4dead");
    reveal_strlit("l4d2");
    reveal_strlit("left4dead2");
    reveal_strlit("dods");
    reveal_strlit("dod_source");
    assert(lower("cstrike"@) =~= "cstrike"@);
    assert(lower("cs16"@) =~= "cs16"@);
    assert(lower("cs"@) =~= "cs"@);
    assert(lower("valve"@) =~= "valve"@);
    assert(lower("hldm"@) =~= "hldm"@);
    assert(lower("hl"@) =~= "hl"@);
    assert(lower("czero"@) =~= "czero"@);
    assert(lower("dod"@) =~= "dod"@);
    assert(lower("tfc"@) =~= "tfc"@);
    assert(lower("css"@) =~= "css"@);
    assert(lower("cstrike_source"@) =~= "cstrike_source"@);
    assert(lower("cs-source"@) =~= "cs-source"@);
    assert(lower("csgo"@) =~= "csgo"@);
    assert(lower("tf2"@) =~= "tf2"@);
    assert(lower("tf"@) =~= "tf"@);
    assert(lower("gmod"@) =~= "gmod"@);
    assert(lower("garrysmod"@) =~= "garrysmod"@);
    assert(lower("hl2dm"@) =~= "hl2dm"@);
    assert(lower("hl2mp"@) =~= "hl2mp"@);
    assert(lower("l4d"@) =~= "l4d"@);
    assert(lower("left4dead"@) =~= "left4dead"@);
    assert(lower("l4d2"@) =~= "l4d2"@);
    assert(lower("left4dead2"@) =~= "left4dead2"@);
    assert(lower("dods"@) =~= "dods"@);
    assert(lower("dod_source"@) =~= "dod_source"@);
    assert("hldm"@[0] != "cs16"@[0]);
    assert("hl"@[0] != "cs"@[0]);
    assert("czero"@[0] != "valve"@[0]);
    assert("tfc"@[0] != "dod"@[0]);
    assert("css"@[0] != "dod"@[0]);
    assert("css"@[0] != "tfc"@[0]);
    assert("csgo"@[2] != "cs16"@[2]);
    assert("csgo"@[0] != "hldm"@[0]);
    assert("tf2"@[0] != "dod"@[0]);
    assert("tf2"@[2] != "tfc"@[2]);
    assert("tf2"@[0] != "css"@[0]);
    assert("tf"@[0] != "cs"@[0]);
    assert("tf"@[0] != "hl"@[0]);
    assert("gmod"@[0] != "cs16"@[0]);
    assert("gmod"@[0] != "hldm"@[0]);
    assert("gmod"@[0] != "csgo"@[0]);
    assert("garrysmod"@[0] != "cs-source"@[0]);
    assert("hl2dm"@[0] != "valve"@[0]);
    assert("hl2dm"@[0] != "czero"@[0]);
    assert("hl2mp"@[0] != "valve"@[0]);
    assert("hl2mp"@[0] != "czero"@[0]);
    assert("hl2mp"@[3] != "hl2dm"@[3]);
    assert("l4d"@[0] != "dod"@[0]);
    assert("l4d"@[0] != "tfc"@[0]);
    assert("l4d"@[0] != "css"@[0]);
    assert("l4d"@[0] != "tf2"@[0]);
    assert("left4dead"@[0] != "cs-source"@[0]);
    assert("left4dead"@[0] != "garrysmod"@[0]);
    assert("l4d2"@[0] != "cs16"@[0]);
    assert("l4d2"@[0] != "hldm"@[0]);
    assert("l4d2"@[0] != "csgo"@[0]);
    assert("l4d2"@[0] != "gmod"@[0]);
    assert("dods"@[0] != "cs16"@[0]);
    assert("dods"@[0] != "hldm"@[0]);
    assert("dods"@[0] != "csgo"@[0]);
    assert("dods"@[0] != "gmod"@[0]);
    assert("dods"@[0] != "l4d2"@[0]);
    assert("dod_source"@[0] != "left4dead2"@[0]);
}

} // verus!
