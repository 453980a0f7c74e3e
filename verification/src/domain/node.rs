//! Per-node configuration, installation state, and daemon configuration.
use vstd::prelude::*;

use crate::http::{bad_request_view, fails_with, ApiError, ApiErrorView};
use crate::text::{chars_of, eq_str, lower, lower_vec, trim, trim_vec};

use super::net::{listen_port, spec_listen_port};
use super::validation::{url_ok, url_rest, validate_url};

verus! {

#[derive(Debug, Clone, Copy, PartialEq, Eq, Structural)]
pub enum NodeOs {
    Linux,
    Windows,
    Unsupported,
}

/// The installer family for a reported OS name; older hosts report none and use Linux.
pub open spec fn spec_parse_os(os: Seq<char>) -> NodeOs {
    let name = lower(trim(os));
    if name.len() == 0 || name == "linux"@ {
        NodeOs::Linux
    } else if name == "windows"@ {
        NodeOs::Windows
    } else {
        NodeOs::Unsupported
    }
}

impl NodeOs {
    /// Older hosts do not report an OS; those nodes use the Linux installer.
    pub fn parse(os: &str) -> (r: Self)
        ensures
            r == spec_parse_os(os@),
    {
        let name = lower_vec(&trim_vec(&chars_of(os)));
        if name.len() == 0 || eq_str(&name, "linux") {
            NodeOs::Linux
        } else if eq_str(&name, "windows") {
            NodeOs::Windows
        } else {
            NodeOs::Unsupported
        }
    }
}

#[derive(Debug, Clone, PartialEq, Eq)]
pub struct NodeConfig {
    pub listen: String,
    pub public_base_url: String,
}

pub struct NodeConfigView {
    pub listen: Seq<char>,
    pub public_base_url: Seq<char>,
}

impl View for NodeConfig {
    type V = NodeConfigView;

    open spec fn view(&self) -> NodeConfigView {
        NodeConfigView { listen: self.listen@, public_base_url: self.public_base_url@ }
    }
}

impl Default for NodeConfig {
    fn default() -> (r: Self)
        ensures
            r@.listen == "0.0.0.0:8080"@,
            r@.public_base_url.len() == 0,
    {
        NodeConfig { listen: "0.0.0.0:8080".to_owned(), public_base_url: String::new() }
    }
}

/// Node settings are valid: the listen address is an IP address with a non-zero
/// port, and the public address is empty or a valid HTTP(S) URL.
pub open spec fn node_config_ok(config: NodeConfigView) -> bool {
    &&& spec_listen_port(config.listen) matches Some(port) && port != 0
    &&& config.public_base_url.len() == 0 || url_ok(config.public_base_url, false)
}

/// Why node settings are refused: the listen address is checked first, then a
/// non-empty public address.
pub open spec fn node_config_refusal(config: NodeConfigView) -> Option<ApiErrorView> {
    match spec_listen_port(config.listen) {
        None => Some(bad_request_view("Listen address must be an IP address and port"@)),
        Some(port) => if port == 0 {
            Some(bad_request_view("Listen port must not be zero"@))
        } else if config.public_base_url.len() > 0 && url_rest(config.public_base_url, false) is None {
            Some(bad_request_view("A valid HTTP URL is required (HTTPS for downloads)"@))
        } else if config.public_base_url.len() > 0 && !url_ok(config.public_base_url, false) {
            Some(bad_request_view("Invalid public or download URL"@))
        } else {
            None
        },
    }
}

impl NodeConfig {
    pub fn validate(&self) -> (r: Result<(), ApiError>)
        ensures
            r is Ok <==> node_config_ok(self@),
            node_config_refusal(self@) matches Some(v) ==> fails_with(r, v),
            node_config_refusal(self@) is None <==> node_config_ok(self@),
            spec_listen_port(self@.listen) is None ==> fails_with(
                r,
                bad_request_view("Listen address must be an IP address and port"@),
            ),
            spec_listen_port(self@.listen) == Some(0u16) ==> fails_with(
                r,
                bad_request_view("Listen port must not be zero"@),
            ),
    {
        match listen_port(self.listen.as_str()) {
            None => {
                return Err(ApiError::bad_request("Listen address must be an IP address and port"));
            },
            Some(port) => {
                if port == 0 {
                    return Err(ApiError::bad_request("Listen port must not be zero"));
                }
            },
        }
        if self.public_base_url.as_str().unicode_len() > 0 {
            match validate_url(self.public_base_url.as_str(), false) {
                Ok(()) => {},
                Err(e) => return Err(e),
            }
        }
        Ok(())
    }
}

#[derive(Debug, Clone, Copy, PartialEq, Eq, Structural)]
pub enum SetupStatus {
    NotInstalled,
    Installing,
    Installed,
    Failed,
}

impl Default for SetupStatus {
    fn default() -> (r: Self)
        ensures
            r == SetupStatus::NotInstalled,
    {
        SetupStatus::NotInstalled
    }
}

#[derive(Debug, Clone, PartialEq, Eq)]
pub struct NodeSetupStatus {
    pub status: SetupStatus,
    pub version: String,
    pub task_id: u64,
    /// Retained to finish installations started by the get-tool-based release.
    pub download_task_id: u64,
    pub error_message: String,
    pub started_at: i64,
}

pub struct NodeSetupStatusView {
    pub status: SetupStatus,
    pub version: Seq<char>,
    pub task_id: u64,
    pub download_task_id: u64,
    pub error_message: Seq<char>,
    pub started_at: i64,
}

impl View for NodeSetupStatus {
    type V = NodeSetupStatusView;

    open spec fn view(&self) -> NodeSetupStatusView {
        NodeSetupStatusView {
            status: self.status,
            version: self.version@,
            task_id: self.task_id,
            download_task_id: self.download_task_id,
            error_message: self.error_message@,
            started_at: self.started_at,
        }
    }
}

/// The status of a node on which nothing was ever installed.
pub open spec fn absent_status() -> NodeSetupStatusView {
    NodeSetupStatusView {
        status: SetupStatus::NotInstalled,
        version: Seq::empty(),
        task_id: 0,
        download_task_id: 0,
        error_message: Seq::empty(),
        started_at: 0,
    }
}

impl Default for NodeSetupStatus {
    fn default() -> (r: Self)
        ensures
            r@ == absent_status(),
    {
        NodeSetupStatus {
            status: SetupStatus::NotInstalled,
            version: String::new(),
            task_id: 0,
            download_task_id: 0,
            error_message: String::new(),
            started_at: 0,
        }
    }
}

/// Serialization guard: a zero legacy download task is left out of stored JSON.
pub fn is_zero(value: &u64) -> (r: bool)
    ensures
        r == (*value == 0),
{
    *value == 0
}

#[derive(Debug, Clone, PartialEq, Eq)]
pub struct SetupInput {
    pub download_url: String,
    pub sha256: String,
}

impl Default for SetupInput {
    fn default() -> (r: Self)
        ensures
            r.download_url@.len() == 0,
            r.sha256@.len() == 0,
    {
        SetupInput { download_url: String::new(), sha256: String::new() }
    }
}

pub open spec fn is_hex_digit(c: char) -> bool {
    ('0' <= c && c <= '9') || ('a' <= c && c <= 'f') || ('A' <= c && c <= 'F')
}

pub open spec fn is_sha256_hex(s: Seq<char>) -> bool {
    s.len() == 64 && forall|i: int| 0 <= i < s.len() ==> is_hex_digit(#[trigger] s[i])
}

/// Custom downloads need both fields, an HTTPS URL and a 64-digit hexadecimal digest.
pub open spec fn setup_input_ok(url: Seq<char>, sha256: Seq<char>) -> bool {
    (url.len() == 0 && sha256.len() == 0) || (url.len() > 0 && sha256.len() > 0 && url_ok(url, true)
        && is_sha256_hex(sha256))
}

/// Why installation options are refused: a custom download needs both its URL and
/// its checksum, an HTTPS URL, then a well-formed checksum.
pub open spec fn setup_input_refusal(url: Seq<char>, sha256: Seq<char>) -> Option<ApiErrorView> {
    if url.len() == 0 && sha256.len() == 0 {
        None
    } else if url.len() == 0 || sha256.len() == 0 {
        Some(bad_request_view("Custom downloads require both an HTTPS URL and SHA256"@))
    } else if url_rest(url, true) is None {
        Some(bad_request_view("A valid HTTP URL is required (HTTPS for downloads)"@))
    } else if !url_ok(url, true) {
        Some(bad_request_view("Invalid public or download URL"@))
    } else if !is_sha256_hex(sha256) {
        Some(bad_request_view("SHA256 must contain exactly 64 hexadecimal characters"@))
    } else {
        None
    }
}

impl SetupInput {
    pub fn validate(&self) -> (r: Result<(), ApiError>)
        ensures
            r is Ok <==> setup_input_ok(self.download_url@, self.sha256@),
            setup_input_refusal(self.download_url@, self.sha256@) matches Some(v) ==> fails_with(r, v),
            setup_input_refusal(self.download_url@, self.sha256@) is None <==> setup_input_ok(
                self.download_url@,
                self.sha256@,
            ),
            (self.download_url@.len() == 0) != (self.sha256@.len() == 0) ==> fails_with(
                r,
                bad_request_view("Custom downloads require both an HTTPS URL and SHA256"@),
            ),
            self.download_url@.len() > 0 && self.sha256@.len() > 0 && url_rest(
                self.download_url@,
                true,
            ) is None ==> fails_with(
                r,
                bad_request_view("A valid HTTP URL is required (HTTPS for downloads)"@),
            ),
            self.download_url@.len() > 0 && self.sha256@.len() > 0 && url_rest(
                self.download_url@,
                true,
            ) is Some && !url_ok(self.download_url@, true) ==> fails_with(
                r,
                bad_request_view("Invalid public or download URL"@),
            ),
            self.download_url@.len() > 0 && self.sha256@.len() > 0 && url_ok(
                self.download_url@,
                true,
            ) && !is_sha256_hex(self.sha256@) ==> fails_with(
                r,
                bad_request_view("SHA256 must contain exactly 64 hexadecimal characters"@),
            ),
    {
        let url_empty = self.download_url.as_str().unicode_len() == 0;
        let sha_empty = self.sha256.as_str().unicode_len() == 0;
        if url_empty && sha_empty {
            return Ok(());
        }
        if url_empty || sha_empty {
            return Err(ApiError::bad_request("Custom downloads require both an HTTPS URL and SHA256"));
        }
        match validate_url(self.download_url.as_str(), true) {
            Ok(()) => {},
            Err(e) => return Err(e),
        }
        let digest = chars_of(self.sha256.as_str());
        let mut all_hex = digest.len() == 64;
        let mut i: usize = 0;
        while i < digest.len()
            invariant
                i <= digest.len(),
                all_hex == (digest@.len() == 64 && forall|j: int|
                    0 <= j < i ==> is_hex_digit(#[trigger] digest@[j])),
            decreases digest.len() - i,
        {
            let c = digest[i];
            if !(('0' <= c && c <= '9') || ('a' <= c && c <= 'f') || ('A' <= c && c <= 'F')) {
                all_hex = false;
            }
            i = i + 1;
        }
        if !all_hex {
            return Err(ApiError::bad_request("SHA256 must contain exactly 64 hexadecimal characters"));
        }
        Ok(())
    }
}

#[derive(Debug, PartialEq, Eq)]
pub struct NodesResponse {
    pub nodes: Vec<NodeResponse>,
}

#[derive(Debug, PartialEq, Eq)]
pub struct NodeResponse {
    pub id: u64,
    pub name: String,
    pub os: String,
    pub status: SetupStatus,
    pub version: String,
    pub error_message: String,
    pub task_id: u64,
    pub enabled_servers: usize,
    pub config: NodeConfig,
}

/// Written to the daemon's config.json; the public URL is panel-only state.
#[derive(Debug, Clone, PartialEq, Eq)]
pub struct DaemonConfig {
    pub version: u32,
    pub listen: String,
    pub servers_dir: String,
    pub cache_dir: String,
}

} // verus!
