//! Invokes the Go helper so game files are never accessed through the broader
//! node file API. The helper opens every path component without following links.
use vstd::prelude::*;

use crate::domain::node::spec_parse_os;
use crate::domain::server::{spec_engine_name, ServerStateView};
use crate::domain::validation::relative_ok;
use crate::domain::{validate_relative, Engine, NodeOs, ServerState};
use crate::host_api::{
    extends, host_error_message, made, CommandOutput, Host, HostApi, HostCall, NodeInfo,
};
use crate::http::{bad_request_view, error_view, fails_with, ok_string, ApiError, ApiErrorView};
use crate::shell::{shell_join, shell_join_windows, spec_shell_join, spec_shell_join_windows, views};
use crate::text::{
    chars_of, decimal, push_quoted, quoted_value, replace_all, replace_chars,
    signed_decimal, signed_decimal_string, decimal_string, split, split_vec, string_of, trim,
    trim_vec,
};

use super::node_setup;
use super::paths::{
    absolute, binary, spec_absolute, spec_binary_relative, work_path_ok,
};

verus! {

/// Longest diagnostic excerpt, in characters, written to the panel log.
pub const MAX_DIAGNOSTIC_CHARS: usize = 2048;

/// The RCON commands that apply the saved settings to a running game server.
pub open spec fn spec_commands(download_url: Seq<char>) -> Seq<Seq<char>> {
    seq!["sv_downloadurl \""@ + download_url + "\""@, "sv_allowdownload 1"@]
}

/// GoldSource and Source use the same two commands.
pub fn commands(engine: Engine, download_url: &str) -> (r: Vec<String>)
    ensures
        r@.map_values(|c: String| c@) == spec_commands(download_url@),
{
    let mut url_command = String::new();
    url_command.append("sv_downloadurl \"");
    url_command.append(download_url);
    url_command.append("\"");
    let allow = "sv_allowdownload 1".to_owned();
    let r = vec![url_command, allow];
    assert(r@.map_values(|c: String| c@) =~= spec_commands(download_url@));
    r
}

pub open spec fn url_args(download_url: Option<Seq<char>>) -> Seq<Seq<char>> {
    match download_url {
        Some(url) => seq!["--url"@, url],
        None => Seq::empty(),
    }
}

/// Arguments of the helper: the scoped root, game directory and engine, and the URL to apply
/// (absent to remove the managed settings).
pub open spec fn spec_configure_args(
    node_os: Seq<char>,
    work_path: Seq<char>,
    state: ServerStateView,
    download_url: Option<Seq<char>>,
) -> Seq<Seq<char>> {
    seq![
        spec_absolute(node_os, work_path, spec_binary_relative(node_os)),
        "configure"@,
        "--root"@,
        spec_absolute(node_os, work_path, state.server_dir),
        "--game-dir"@,
        state.settings.game_dir,
        "--engine"@,
        spec_engine_name(state.settings.engine),
    ] + url_args(download_url)
}

/// The helper command line, quoted for the node's daemon.
pub open spec fn spec_configure_command(
    node_os: Seq<char>,
    work_path: Seq<char>,
    state: ServerStateView,
    download_url: Option<Seq<char>>,
) -> Seq<char> {
    let args = spec_configure_args(node_os, work_path, state, download_url);
    if spec_parse_os(node_os) == NodeOs::Windows {
        spec_shell_join_windows(args)
    } else {
        spec_shell_join(args)
    }
}

pub open spec fn opt_str_view(s: Option<&str>) -> Option<Seq<char>> {
    match s {
        Some(v) => Some(v@),
        None => None,
    }
}

pub fn configure_command(node: &NodeInfo, state: &ServerState, download_url: Option<&str>) -> (r:
    Result<String, ApiError>)
    ensures
        !relative_ok(state.server_dir@, false) ==> fails_with(
            r,
            bad_request_view("Game directory must be a relative path inside the game server"@),
        ),
        relative_ok(state.server_dir@, false) && !work_path_ok(node.os@, node.work_path@)
            ==> fails_with(r, bad_request_view("Node work directory is invalid"@)),
        relative_ok(state.server_dir@, false) && work_path_ok(node.os@, node.work_path@)
            ==> ok_string(
            r,
            spec_configure_command(node.os@, node.work_path@, state@, opt_str_view(download_url)),
        ),
{
    match validate_relative(state.server_dir.as_str(), false) {
        Ok(()) => {},
        Err(e) => return Err(e),
    }
    let root = match absolute(node, state.server_dir.as_str()) {
        Ok(root) => root,
        Err(e) => return Err(e),
    };
    let binary = match binary(node) {
        Ok(binary) => binary,
        Err(e) => return Err(e),
    };
    let mut args: Vec<&str> = vec![
        binary.as_str(),
        "configure",
        "--root",
        root.as_str(),
        "--game-dir",
        state.settings.game_dir.as_str(),
        "--engine",
        state.settings.engine.as_str(),
    ];
    match download_url {
        Some(url) => {
            args.push("--url");
            args.push(url);
        },
        None => {},
    }
    assert(views(args@) =~= spec_configure_args(
        node.os@,
        node.work_path@,
        state@,
        opt_str_view(download_url),
    ));
    let command = match node.os_kind() {
        NodeOs::Windows => shell_join_windows(args.as_slice()),
        NodeOs::Linux | NodeOs::Unsupported => shell_join(args.as_slice()),
    };
    Ok(command)
}

/// The `configured` flag of the helper's JSON reply, as serde_json reads the text:
/// `Some(b)` when the text is a JSON object whose `configured` member is the boolean `b`.
pub uninterp spec fn json_configured_flag(text: Seq<char>) -> Option<bool>;

/// Reads the `configured` flag of a JSON reply with `serde_json::from_str`.
///
/// Trusted: the result is `json_configured_flag` of the text; only a JSON object with a
/// boolean `configured` member gives `Some`. Nothing else about JSON is stated.
///
/// The reply is read as a generic JSON value, not decoded into a record type: a
/// one-element array such as `[true]` gives `None`, and in an object that repeats
/// the `configured` member the last one counts.
#[verifier::external_body]
fn configured_flag(text: &str) -> (r: Option<bool>)
    ensures
        r == json_configured_flag(text@),
{
    match serde_json::from_str::<serde_json::Value>(text) {
        Ok(value) => value.get("configured").and_then(serde_json::Value::as_bool),
        Err(_) => None,
    }
}

/// Lines of the output (`str::lines`: no final empty line after a trailing newline).
pub open spec fn output_lines(s: Seq<char>) -> Seq<Seq<char>> {
    let pieces = split(s, '\n');
    if pieces.last().len() == 0 {
        pieces.drop_last()
    } else {
        pieces
    }
}

/// The confirmation flags found on individual (trimmed) lines, in order.
pub open spec fn line_flags(lines: Seq<Seq<char>>) -> Seq<bool>
    decreases lines.len(),
{
    if lines.len() == 0 {
        Seq::empty()
    } else {
        match json_configured_flag(trim(lines.last())) {
            Some(flag) => line_flags(lines.drop_last()).push(flag),
            None => line_flags(lines.drop_last()),
        }
    }
}

pub open spec fn not_confirmed_reason() -> Seq<char> {
    "the helper did not confirm the configuration update"@
}

pub open spec fn missing_confirmation_reason() -> Seq<char> {
    "the command output has no valid configuration confirmation"@
}

pub open spec fn multiple_confirmations_reason() -> Seq<char> {
    "the command output has multiple configuration confirmations"@
}

/// The decision from the parsed replies: the whole output's flag when the whole
/// output is a reply, otherwise the one flag found among its lines.
pub open spec fn spec_confirmation_from(whole: Option<bool>, flags: Seq<bool>) -> Result<
    (),
    Seq<char>,
> {
    let flag = match whole {
        Some(flag) => Ok(flag),
        None => if flags.len() == 0 {
            Err(missing_confirmation_reason())
        } else if flags.len() > 1 {
            Err(multiple_confirmations_reason())
        } else {
            Ok(flags[0])
        },
    };
    match flag {
        Ok(true) => Ok(()),
        Ok(false) => Err(not_confirmed_reason()),
        Err(reason) => Err(reason),
    }
}

/// The helper confirmed: its whole output, or exactly one line of it (the daemon may
/// surround the helper's reply with a prompt and an exit status), is `{"configured":true}`.
pub open spec fn spec_confirmation(output: Seq<char>) -> Result<(), Seq<char>> {
    spec_confirmation_from(
        json_configured_flag(trim(output)),
        line_flags(output_lines(output)),
    )
}

pub open spec fn reason_view(r: Result<(), &'static str>) -> Result<(), Seq<char>> {
    match r {
        Ok(()) => Ok(()),
        Err(reason) => Err(reason@),
    }
}

/// Decides a helper run from its parsed replies (see [`spec_confirmation_from`]).
pub fn confirmation_from(whole: Option<bool>, line_flags: &Vec<bool>) -> (r: Result<
    (),
    &'static str,
>)
    ensures
        reason_view(r) == spec_confirmation_from(whole, line_flags@),
{
    let flag = match whole {
        Some(flag) => flag,
        None => {
            if line_flags.len() == 0 {
                return Err("the command output has no valid configuration confirmation");
            }
            if line_flags.len() > 1 {
                return Err("the command output has multiple configuration confirmations");
            }
            line_flags[0]
        },
    };
    if !flag {
        return Err("the helper did not confirm the configuration update");
    }
    Ok(())
}

pub fn configuration_confirmation(output: &str) -> (r: Result<(), &'static str>)
    ensures
        reason_view(r) == spec_confirmation(output@),
{
    let whole = string_of(&trim_vec(&chars_of(output)));
    let whole_flag = configured_flag(whole.as_str());
    let mut flags: Vec<bool> = Vec::new();
    if whole_flag.is_none() {
        let mut pieces = split_vec(&chars_of(output), '\n');
        let ghost all = split(output@, '\n');
        proof {
            crate::text::lemma_split_nonempty(output@, '\n');
        }
        if pieces[pieces.len() - 1].len() == 0 {
            assert(pieces@.map_values(|p: Vec<char>| p@).last() == pieces@.last()@);
            pieces.pop();
            assert(pieces@.map_values(|p: Vec<char>| p@) =~= all.drop_last());
        }
        let ghost lines = pieces@.map_values(|p: Vec<char>| p@);
        assert(lines == output_lines(output@));
        let mut i: usize = 0;
        while i < pieces.len()
            invariant
                i <= pieces.len(),
                lines == pieces@.map_values(|p: Vec<char>| p@),
                flags@ == line_flags(lines.subrange(0, i as int)),
            decreases pieces.len() - i,
        {
            assert(lines[i as int] == pieces@[i as int]@);
            let line = string_of(&trim_vec(&pieces[i]));
            let parsed = configured_flag(line.as_str());
            assert(lines.subrange(0, i + 1).drop_last() == lines.subrange(0, i as int));
            assert(lines.subrange(0, i + 1).last() == lines[i as int]);
            match parsed {
                Some(flag) => flags.push(flag),
                None => {},
            }
            i = i + 1;
        }
        assert(lines.subrange(0, i as int) == lines);
    }
    confirmation_from(whole_flag, &flags)
}

/// Text that may be logged: the token redacted, at most the first
/// `MAX_DIAGNOSTIC_CHARS` characters, and a marker when more followed.
pub open spec fn spec_diagnostic_detail(value: Seq<char>, token: Seq<char>) -> Seq<char> {
    let redacted = if token.len() == 0 {
        value
    } else {
        replace_all(value, token, "[redacted]"@)
    };
    if redacted.len() > MAX_DIAGNOSTIC_CHARS {
        redacted.take(MAX_DIAGNOSTIC_CHARS as int) + " [truncated]"@
    } else {
        redacted
    }
}

pub fn diagnostic_detail(value: &str, token: &str) -> (r: Vec<char>)
    ensures
        r@ == spec_diagnostic_detail(value@, token@),
{
    let chars = chars_of(value);
    let token_chars = chars_of(token);
    let redacted = if token_chars.len() == 0 {
        chars
    } else {
        replace_chars(&chars, &token_chars, &chars_of("[redacted]"))
    };
    if redacted.len() <= MAX_DIAGNOSTIC_CHARS {
        return redacted;
    }
    let mut detail: Vec<char> = Vec::new();
    let mut i: usize = 0;
    while i < MAX_DIAGNOSTIC_CHARS
        invariant
            i <= MAX_DIAGNOSTIC_CHARS < redacted.len(),
            detail@ == redacted@.take(i as int),
        decreases MAX_DIAGNOSTIC_CHARS - i,
    {
        detail.push(redacted[i]);
        i = i + 1;
        assert(redacted@.take(i as int) == redacted@.take(i - 1).push(redacted@[i - 1]));
    }
    let marker = chars_of(" [truncated]");
    let mut k: usize = 0;
    let ghost prefix = detail@;
    while k < marker.len()
        invariant
            k <= marker.len(),
            detail@ == prefix + marker@.subrange(0, k as int),
        decreases marker.len() - k,
    {
        detail.push(marker[k]);
        k = k + 1;
        assert(marker@.subrange(0, k as int) == marker@.subrange(0, k - 1).push(marker@[k - 1]));
    }
    assert(marker@.subrange(0, marker@.len() as int) == marker@);
    detail
}

pub open spec fn operation_name(download_url: Option<Seq<char>>) -> Seq<char> {
    if download_url is Some {
        "apply"@
    } else {
        "remove"@
    }
}

pub open spec fn log_prefix(state: ServerStateView) -> Seq<char> {
    "[fastdl] Game configuration failed: node_id="@ + decimal(state.node_id as nat)
        + " server_id="@ + decimal(state.server_id as nat)
}

/// The log line for a helper invocation the host could not perform.
pub open spec fn spec_host_failure_line(
    state: ServerStateView,
    download_url: Option<Seq<char>>,
    host_message: Seq<char>,
) -> Seq<char> {
    log_prefix(state) + " operation="@ + operation_name(download_url) + " host_error="@
        + quoted_value(spec_diagnostic_detail(host_message, state.token))
}

pub open spec fn error_field(error: Option<Seq<char>>, token: Seq<char>) -> Seq<char> {
    match error {
        Some(e) => "Some("@ + quoted_value(spec_diagnostic_detail(e, token)) + ")"@,
        None => "None"@,
    }
}

/// The log line for a helper invocation that failed or was not confirmed.
pub open spec fn spec_failure_line(
    state: ServerStateView,
    output: Seq<char>,
    exit_code: i32,
    error: Option<Seq<char>>,
    reason: Seq<char>,
) -> Seq<char> {
    log_prefix(state) + " exit_code="@ + signed_decimal(exit_code as int) + " error="@
        + error_field(error, state.token) + " output="@ + quoted_value(
        spec_diagnostic_detail(output, state.token),
    ) + " reason="@ + reason
}

fn push_log_prefix(line: &mut String, state: &ServerState)
    ensures
        final(line)@ == old(line)@ + log_prefix(state@),
{
    let ghost before = line@;
    line.append("[fastdl] Game configuration failed: node_id=");
    line.append(decimal_string(state.node_id).as_str());
    line.append(" server_id=");
    line.append(decimal_string(state.server_id).as_str());
    assert(line@ =~= before + log_prefix(state@));
}

pub fn host_failure_line(state: &ServerState, download_url: Option<&str>, host_message: &str) -> (r:
    String)
    ensures
        r@ == spec_host_failure_line(state@, opt_str_view(download_url), host_message@),
{
    let mut line = String::new();
    push_log_prefix(&mut line, state);
    line.append(" operation=");
    line.append(
        match download_url {
            Some(_) => "apply",
            None => "remove",
        },
    );
    line.append(" host_error=");
    push_quoted(&mut line, &diagnostic_detail(host_message, state.token.as_str()));
    assert(line@ =~= spec_host_failure_line(state@, opt_str_view(download_url), host_message@));
    line
}

pub open spec fn opt_string_view(s: Option<String>) -> Option<Seq<char>> {
    match s {
        Some(v) => Some(v@),
        None => None,
    }
}

pub fn failure_line(state: &ServerState, output: &CommandOutput, reason: &str) -> (r: String)
    ensures
        r@ == spec_failure_line(
            state@,
            output.output@,
            output.exit_code,
            opt_string_view(output.error),
            reason@,
        ),
{
    let mut line = String::new();
    push_log_prefix(&mut line, state);
    line.append(" exit_code=");
    line.append(signed_decimal_string(output.exit_code as i64).as_str());
    line.append(" error=");
    match &output.error {
        Some(error) => {
            line.append("Some(");
            push_quoted(&mut line, &diagnostic_detail(error.as_str(), state.token.as_str()));
            line.append(")");
        },
        None => {
            line.append("None");
        },
    }
    line.append(" output=");
    push_quoted(&mut line, &diagnostic_detail(output.output.as_str(), state.token.as_str()));
    line.append(" reason=");
    line.append(reason);
    assert(line@ =~= spec_failure_line(
        state@,
        output.output@,
        output.exit_code,
        opt_string_view(output.error),
        reason@,
    ));
    line
}

/// Writes one log line describing a failed helper run.
fn log_failure<H: HostApi>(host: &mut Host<H>, state: &ServerState, output: &CommandOutput, reason: &str)
    ensures
        crate::host_api::appended(
            old(host)@,
            final(host)@,
            HostCall::LogError {
                message: spec_failure_line(
                    state@,
                    output.output@,
                    output.exit_code,
                    opt_string_view(output.error),
                    reason@,
                ),
            },
        ),
{
    let line = failure_line(state, output, reason);
    host.log_error(line.as_str());
}

pub open spec fn command_failed_reason() -> Seq<char> {
    "the configuration command failed"@
}

/// Why a finished helper run is not taken as applied, if it is not.
pub open spec fn helper_failure_reason(exit_code: i32, error: Option<Seq<char>>, output: Seq<char>) -> Option<
    Seq<char>,
> {
    if exit_code != 0 || error is Some {
        Some(command_failed_reason())
    } else {
        match spec_confirmation(output) {
            Err(reason) => Some(reason),
            Ok(()) => None,
        }
    }
}

/// What is logged for a finished helper run: nothing when it applied, otherwise one
/// line with its exit status, error, redacted output and the reason.
pub open spec fn helper_log(state: ServerStateView, output: CommandOutput) -> Seq<HostCall> {
    match helper_failure_reason(output.exit_code, opt_string_view(output.error), output.output@) {
        None => Seq::empty(),
        Some(reason) => seq![
            HostCall::LogError {
                message: spec_failure_line(
                    state,
                    output.output@,
                    output.exit_code,
                    opt_string_view(output.error),
                    reason,
                ),
            },
        ],
    }
}

pub open spec fn update_failed_view() -> ApiErrorView {
    error_view(
        409,
        "GAME_CONFIG_UPDATE_FAILED"@,
        "FastDL changes were not applied because server.cfg could not be updated. Check the game directory and file permissions, then review the GameAP panel log and save again."@,
    )
}

pub open spec fn unverified_view() -> ApiErrorView {
    error_view(
        502,
        "CONFIGURE_FAILED"@,
        "FastDL changes were not applied because the update to server.cfg could not be confirmed. The file may already have changed. Check the GameAP panel log before saving again."@,
    )
}

pub fn unverified_configuration() -> (e: ApiError)
    ensures
        e@ == unverified_view(),
{
    ApiError::new(
        502,
        "CONFIGURE_FAILED",
        "FastDL changes were not applied because the update to server.cfg could not be confirmed. The file may already have changed. Check the GameAP panel log before saving again.",
    )
}

/// What a finished helper invocation means: a failed command, an unconfirmed
/// update, or success.
pub open spec fn spec_helper_outcome(exit_code: i32, error: Option<Seq<char>>, output: Seq<char>) -> Result<
    (),
    ApiErrorView,
> {
    if exit_code != 0 || error is Some {
        Err(update_failed_view())
    } else if spec_confirmation(output) is Err {
        Err(unverified_view())
    } else {
        Ok(())
    }
}

/// A helper run that failed is never taken as applied, whatever its output says.
pub proof fn failed_command_is_never_confirmed(
    exit_code: i32,
    error: Option<Seq<char>>,
    output: Seq<char>,
)
    ensures
        exit_code != 0 || error is Some ==> spec_helper_outcome(exit_code, error, output) == Err::<
            (),
            ApiErrorView,
        >(update_failed_view()),
        spec_helper_outcome(exit_code, error, output) is Ok ==> spec_confirmation(output) is Ok,
{
}

/// Errors `apply` can answer.
pub open spec fn apply_failure(e: ApiErrorView) -> bool {
    ||| e == crate::http::node_unavailable_view()
    ||| e == crate::http::not_found_view("Node not found"@)
    ||| e == bad_request_view("Game directory must be a relative path inside the game server"@)
    ||| e == bad_request_view("Node work directory is invalid"@)
    ||| e == update_failed_view()
    ||| e == unverified_view()
}

/// What running the helper for a saved server does: look the node up; refuse an
/// invalid server directory or node work directory; otherwise run the configure
/// command once on the server's node and, if the command cannot be run, log the
/// host failure. A finished run is classified by `spec_helper_outcome` and logged
/// by `helper_log`. Nothing else is asked of the host: no upload, storage write or
/// daemon task.
pub open spec fn apply_record(
    state: ServerStateView,
    download_url: Option<Seq<char>>,
    calls: Seq<HostCall>,
    r: Result<(), ApiError>,
) -> bool {
    &&& calls.len() >= 1
    &&& node_setup::node_read(calls[0], state.node_id)
    &&& match node_setup::node_answer(calls[0]) {
        Err(e) => calls.len() == 1 && fails_with(r, e),
        Ok(node) => if !relative_ok(state.server_dir, false) {
            calls.len() == 1 && fails_with(
                r,
                bad_request_view("Game directory must be a relative path inside the game server"@),
            )
        } else if !work_path_ok(node.os@, node.work_path@) {
            calls.len() == 1 && fails_with(r, bad_request_view("Node work directory is invalid"@))
        } else {
            &&& calls.len() >= 2
            &&& calls[1] matches HostCall::ExecuteCommand { node_id, command, answer }
            &&& node_id == state.node_id
            &&& command == spec_configure_command(node.os@, node.work_path@, state, download_url)
            &&& match answer {
                Err(h) => {
                    &&& calls.len() == 3
                    &&& calls[2] == HostCall::LogError {
                        message: spec_host_failure_line(state, download_url, host_error_message(h)),
                    }
                    &&& fails_with(r, crate::http::node_unavailable_view())
                },
                Ok(output) => {
                    &&& calls.subrange(2, calls.len() as int) == helper_log(state, output)
                    &&& crate::services::store::result_view(r) == spec_helper_outcome(
                        output.exit_code,
                        opt_string_view(output.error),
                        output.output@,
                    )
                },
            }
        },
    }
}

/// Running the helper, read from its calls (see [`apply_record`]).
pub open spec fn apply_effect(state: ServerStateView, download_url: Option<Seq<char>>, calls: Seq<HostCall>) -> (
    int,
    Result<(), ApiErrorView>,
    bool,
) {
    let looked = node_setup::node_read(calls[0], state.node_id);
    match node_setup::node_answer(calls[0]) {
        Err(e) => (1, Err(e), looked),
        Ok(node) => if !relative_ok(state.server_dir, false) {
            (1, Err(bad_request_view("Game directory must be a relative path inside the game server"@)), looked)
        } else if !work_path_ok(node.os@, node.work_path@) {
            (1, Err(bad_request_view("Node work directory is invalid"@)), looked)
        } else {
            match calls[1] {
                HostCall::ExecuteCommand { node_id, command, answer } => {
                    let ran = looked && node_id == state.node_id && command == spec_configure_command(
                        node.os@,
                        node.work_path@,
                        state,
                        download_url,
                    );
                    match answer {
                        Err(h) => (
                            3,
                            Err(crate::http::node_unavailable_view()),
                            ran && calls[2] == HostCall::LogError {
                                message: spec_host_failure_line(state, download_url, host_error_message(h)),
                            },
                        ),
                        Ok(output) => {
                            let log = helper_log(state, output);
                            (
                                2 + log.len() as int,
                                spec_helper_outcome(output.exit_code, opt_string_view(output.error), output.output@),
                                ran && calls.subrange(2, 2 + log.len() as int) == log,
                            )
                        },
                    }
                },
                _ => (2, Err(crate::http::node_unavailable_view()), false),
            }
        },
    }
}

/// Applying settings makes at least one call.
pub proof fn lemma_apply_count(state: ServerStateView, download_url: Option<Seq<char>>, calls: Seq<HostCall>)
    ensures
        apply_effect(state, download_url, calls).0 >= 1,
{
}

/// A helper run's effect depends only on the calls it made.
pub proof fn lemma_apply_prefix(state: ServerStateView, download_url: Option<Seq<char>>, a: Seq<HostCall>, b: Seq<HostCall>)
    requires
        extends(a, b),
        a.len() >= apply_effect(state, download_url, a).0,
    ensures
        apply_effect(state, download_url, b) == apply_effect(state, download_url, a),
{
    assert(b[0] == a[0]);
    let n = apply_effect(state, download_url, a).0;
    if n >= 2 {
        assert(b[1] == a[1]);
    }
    if n >= 3 {
        assert(b[2] == a[2]);
        assert(b.subrange(2, n) =~= a.subrange(2, n));
    }
}

/// Runs the helper for a saved server: with a URL it writes the managed settings,
/// without one it removes them. Success needs a zero exit status, no daemon error,
/// and a confirmation from the helper.
pub fn apply<H: HostApi>(host: &mut Host<H>, state: &ServerState, download_url: Option<&str>) -> (r:
    Result<(), ApiError>)
    ensures
        extends(old(host)@, final(host)@),
        apply_record(state@, opt_str_view(download_url), made(old(host)@, final(host)@), r),
        made(old(host)@, final(host)@).len() == apply_effect(state@, opt_str_view(download_url), made(old(host)@, final(host)@)).0,
        apply_effect(state@, opt_str_view(download_url), made(old(host)@, final(host)@)).2,
        crate::services::store::result_view(r) == apply_effect(state@, opt_str_view(download_url), made(old(host)@, final(host)@)).1,
        crate::services::store::nothing_synced(final(host)@, old(host)@.len() as int),
        crate::host_api::commands_only(final(host)@, old(host)@.len() as int),
        !relative_ok(state.server_dir@, false) ==> r is Err,
        r matches Err(e) ==> apply_failure(e@),
{
    let ghost start = host@;
    let node = match node_setup::get_node(host, state.node_id) {
        Ok(node) => node,
        Err(e) => return Err(e),
    };
    let ghost after_node = host@;
    let command = match configure_command(&node, state, download_url) {
        Ok(command) => command,
        Err(e) => return Err(e),
    };
    let answer = host.execute_command(state.node_id, command.as_str());
    let ghost after_run = host@;
    proof {
        crate::host_api::lemma_made_compose(start, after_node, after_run);
    }
    let output = match answer {
        Ok(output) => output,
        Err(error) => {
            let line = host_failure_line(state, download_url, error.message());
            host.log_error(line.as_str());
            proof {
                crate::host_api::lemma_made_compose(start, after_run, host@);
                assert(made(start, host@) =~= made(start, after_run).push(made(after_run, host@)[0]));
            }
            return Err(ApiError::from_host(error));
        },
    };
    let r = helper_outcome(host, state, &output);
    proof {
        crate::host_api::lemma_made_compose(start, after_run, host@);
        assert(made(start, host@).subrange(2, made(start, host@).len() as int) =~= made(after_run, host@));
    }
    r
}

/// Classifies a finished helper invocation and logs failures.
pub fn helper_outcome<H: HostApi>(host: &mut Host<H>, state: &ServerState, output: &CommandOutput) -> (r:
    Result<(), ApiError>)
    ensures
        crate::services::store::result_view(r) == spec_helper_outcome(
            output.exit_code,
            opt_string_view(output.error),
            output.output@,
        ),
        extends(old(host)@, final(host)@),
        made(old(host)@, final(host)@) == helper_log(state@, *output),
{
    if output.exit_code != 0 || output.error.is_some() {
        log_failure(host, state, output, "the configuration command failed");
        return Err(
            ApiError::new(
                409,
                "GAME_CONFIG_UPDATE_FAILED",
                "FastDL changes were not applied because server.cfg could not be updated. Check the game directory and file permissions, then review the GameAP panel log and save again.",
            ),
        );
    }
    match configuration_confirmation(output.output.as_str()) {
        Ok(()) => {
            assert(old(host)@.subrange(0, old(host)@.len() as int) =~= old(host)@);
            assert(made(old(host)@, final(host)@) =~= Seq::<HostCall>::empty());
            Ok(())
        },
        Err(reason) => {
            log_failure(host, state, output, reason);
            Err(unverified_configuration())
        },
    }
}

} // verus!
