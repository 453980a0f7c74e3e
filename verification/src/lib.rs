//! GameAP plugin for configuring the FastDL service and publishing game content.
//!
//! The library holds the plugin's rules: input validation, daemon command
//! quoting, path derivation, route matching, authorization decisions and the
//! services that publish configuration through the host interface.
pub mod shell;
pub mod command_line;
pub mod text;
pub mod domain;
pub mod host_api;
pub mod http;
pub mod services;
pub mod router;
pub mod handlers;

use vstd::prelude::*;

use crate::handlers::events::HostEvent;
use crate::host_api::{Host, HostApi};
use crate::http::ApiResult;
use crate::router::{RequestParts, RouteId};
use crate::services::node_setup::InstallerScripts;

verus! {

pub const PLUGIN_ID: &'static str = "i3z7ix336msd4";

pub const REQUIRED_PERMISSIONS: [&'static str; 4] = [
    "files",
    "listen_events",
    "manage_servers",
    "node_commands",
];

/// The translation key of an ability's title.
pub open spec fn ability_title(name: Seq<char>) -> Seq<char> {
    "plugins.i3z7ix336msd4.abilities."@ + name
}

/// The per-server abilities the plugin registers, with their title keys.
pub fn server_abilities() -> (r: Vec<(String, String)>)
    ensures
        r@.len() == 2,
        r@[0].0@ == "fastdl-view"@ && r@[0].1@ == ability_title("fastdl-view"@),
        r@[1].0@ == "fastdl-manage"@ && r@[1].1@ == ability_title("fastdl-manage"@),
{
    let mut r: Vec<(String, String)> = Vec::new();
    let mut view_title = "plugins.i3z7ix336msd4.abilities.".to_owned();
    view_title.append("fastdl-view");
    r.push(("fastdl-view".to_owned(), view_title));
    let mut manage_title = "plugins.i3z7ix336msd4.abilities.".to_owned();
    manage_title.append("fastdl-manage");
    r.push(("fastdl-manage".to_owned(), manage_title));
    r
}

/// The plugin: a host connection and the installers it ships to nodes.
pub struct FastdlPlugin<H> {
    host: Host<H>,
    installers: InstallerScripts<'static>,
}

impl<H> FastdlPlugin<H> {
    /// The host connection the plugin holds.
    pub closed spec fn host_state(self) -> H {
        self.host.connection()
    }

    /// The record of the operations made through the plugin's host connection.
    pub closed spec fn host_record(self) -> Seq<crate::host_api::HostCall> {
        self.host@
    }

    /// The installers the plugin ships.
    pub closed spec fn shipped_installers(self) -> InstallerScripts<'static> {
        self.installers
    }
}

impl<H: HostApi> FastdlPlugin<H> {
    pub fn new(host: H, installers: InstallerScripts<'static>) -> (r: Self)
        ensures
            r.host_state() == host,
            r.host_record() == Seq::<crate::host_api::HostCall>::empty(),
            r.shipped_installers() == installers,
    {
        FastdlPlugin { host: Host::new(host), installers }
    }

    /// Serves a request for a matched route by that route's handler.
    pub fn handle_route(&mut self, route: RouteId, parts: RequestParts) -> (r: ApiResult)
        ensures
            crate::host_api::extends(old(self).host_record(), final(self).host_record()),
            final(self).shipped_installers() == old(self).shipped_installers(),
            handlers::routed(
                route,
                &old(self).shipped_installers(),
                parts,
                crate::host_api::made(old(self).host_record(), final(self).host_record()),
                r,
            ),
    {
        handlers::handle(&mut self.host, &self.installers, route, parts)
    }

    /// Handles a panel event; reports whether the plugin acts on it.
    pub fn handle_event(&mut self, event: &HostEvent) -> (handled: bool)
        ensures
            handled == handlers::events::spec_handled(*event),
            handlers::events::event_record(*event, old(self).host_record(), final(self).host_record()),
    {
        handlers::events::handle(&mut self.host, event)
    }
}

} // verus!
