//! The native client's dashboard calls to the server — logging in, listing,
//! deleting and inspecting hosts, and fetching the agent token: the
//! requests they make and the event each outcome leaves for the dashboard.

use crate::agent::{hex_upper, trim_slashes, trim_trailing_slashes};
use crate::client_bridge::{PendingDashboardEvent, SavedSettings};
use crate::common::AuthResponse;
use crate::text::{chars_of, push_all, replace_all, replace_str, string_from_chars};
use vstd::prelude::*;
use vstd::string::StringSliceAdditionalSpecFns;

verus! {

broadcast use vstd::string::group_string_axioms;

/// The text of `a` followed by `b`.
fn join(a: &str, b: &str) -> (res: String)
    ensures
        res@ == a@ + b@,
{
    let mut v = chars_of(a);
    push_all(&mut v, chars_of(b).as_slice());
    string_from_chars(v.as_slice())
}

/// The `Authorization` header for a login token.
pub fn bearer_header(token: &str) -> (res: String)
    ensures
        res@ == "Bearer "@ + token@,
{
    join("Bearer ", token)
}

/// Where the client logs in.
pub fn login_url(server: &str) -> (res: String)
    ensures
        res@ == server@ + "/api/auth/login"@,
{
    join(server, "/api/auth/login")
}

/// Where the client lists the hosts.
pub fn hosts_url(server: &str) -> (res: String)
    ensures
        res@ == server@ + "/api/hosts"@,
{
    join(server, "/api/hosts")
}

/// Where the client deletes a host.
pub fn host_url(server: &str, host_id: &str) -> (res: String)
    ensures
        res@ == server@ + "/api/hosts/"@ + host_id@,
{
    let a = join(server, "/api/hosts/");
    join(a.as_str(), host_id)
}

/// Where the client fetches the agent token: the server without trailing
/// slashes.
pub fn agent_token_url(server: &str) -> (res: String)
    ensures
        res@ == trim_trailing_slashes(server@) + "/api/agent/token"@,
{
    let c = chars_of(server);
    let n = trim_slashes(c.as_slice());
    let mut v: Vec<char> = Vec::new();
    push_all(&mut v, vstd::slice::slice_subrange(c.as_slice(), 0, n));
    push_all(&mut v, chars_of("/api/agent/token").as_slice());
    string_from_chars(v.as_slice())
}

/// How a login call went: no answer (with the connection error's text), or
/// an answer whose status was a success or not, with the account when the
/// body read as one, and the `error` field when the body held one.
#[derive(Debug, Clone, PartialEq)]
pub enum LoginOutcome {
    Unreachable { error: String },
    Answered { success: bool, auth: Option<AuthResponse>, error_field: Option<String> },
}

/// A failed login's event.
pub open spec fn login_failure(e: PendingDashboardEvent, msg: Seq<char>) -> bool {
    e matches PendingDashboardEvent::LoginResult { success, error_msg, token, username, server }
        && !success && error_msg@ == msg && token@.len() == 0 && username@.len() == 0
        && server@.len() == 0
}

fn login_failed(msg: String) -> (e: PendingDashboardEvent)
    ensures
        login_failure(e, msg@),
{
    PendingDashboardEvent::LoginResult {
        success: false,
        error_msg: msg,
        token: String::new(),
        username: String::new(),
        server: String::new(),
    }
}

/// The event a login leaves, and the credentials to save: a successful
/// answer that holds the account logs in (its token and name are saved with
/// the server); any other answer fails with its `error` field, else "Login
/// failed"; no answer fails with "Connection failed: " and the error.
pub fn login_result(server: String, outcome: LoginOutcome) -> (res: (
    PendingDashboardEvent,
    Option<SavedSettings>,
))
    ensures
        match outcome {
            LoginOutcome::Answered { success: true, auth: Some(a), .. } => res.1 == Some(
                SavedSettings { server_url: server, token: a.token, username: a.username },
            ) && res.0 == (PendingDashboardEvent::LoginResult {
                success: true,
                error_msg: res.0->LoginResult_error_msg,
                token: a.token,
                username: a.username,
                server,
            }) && res.0->LoginResult_error_msg@.len() == 0,
            LoginOutcome::Answered { error_field, .. } => res.1 is None && login_failure(
                res.0,
                match error_field {
                    Some(m) => m@,
                    None => "Login failed"@,
                },
            ),
            LoginOutcome::Unreachable { error } => res.1 is None && login_failure(
                res.0,
                "Connection failed: "@ + error@,
            ),
        },
{
    match outcome {
        LoginOutcome::Answered { success, auth, error_field } => {
            if success {
                if let Some(a) = auth {
                    let saved = SavedSettings {
                        server_url: server.clone(),
                        token: a.token.clone(),
                        username: a.username.clone(),
                    };
                    return (
                        PendingDashboardEvent::LoginResult {
                            success: true,
                            error_msg: String::new(),
                            token: a.token,
                            username: a.username,
                            server,
                        },
                        Some(saved),
                    );
                }
            }
            let msg = match error_field {
                Some(m) => m,
                None => "Login failed".to_owned(),
            };
            (login_failed(msg), None)
        },
        LoginOutcome::Unreachable { error } => {
            (login_failed(join("Connection failed: ", error.as_str())), None)
        },
    }
}

/// How a call for the host list went: no answer (with the error's text), or
/// the answer's status with the list when the body read as one (encoded
/// again as JSON).
#[derive(Debug, Clone, PartialEq)]
pub enum HostsOutcome {
    Unreachable { error: String },
    Answered { status: u16, hosts_json: Option<String> },
}

/// A host-list event.
pub open spec fn hosts_event(e: PendingDashboardEvent, ok: bool, msg: Seq<char>, json: Seq<char>) -> bool {
    e matches PendingDashboardEvent::HostsResult { success, error_msg, hosts_json } && success == ok
        && error_msg@ == msg && hosts_json@ == json
}

fn hosts_failed(msg: String) -> (e: PendingDashboardEvent)
    ensures
        hosts_event(e, false, msg@, Seq::empty()),
{
    PendingDashboardEvent::HostsResult { success: false, error_msg: msg, hosts_json: String::new() }
}

/// An HTTP status in the success range.
pub open spec fn is_success(status: u16) -> bool {
    200 <= status <= 299
}

/// The event a call that needs the saved login leaves when there is none.
pub fn not_authenticated_hosts() -> (e: PendingDashboardEvent)
    ensures
        hosts_event(e, false, "Not authenticated"@, Seq::empty()),
{
    hosts_failed("Not authenticated".to_owned())
}

/// The event the host list leaves: the list on a successful answer that
/// holds it; "Unauthorized" on status 401; "Failed to fetch host list" on
/// any other answer; "Connection failed: " and the error without one.
pub fn hosts_result(outcome: HostsOutcome) -> (e: PendingDashboardEvent)
    ensures
        match outcome {
            HostsOutcome::Answered { status, hosts_json } => if is_success(status)
                && hosts_json is Some {
                hosts_event(e, true, Seq::empty(), hosts_json->0@)
            } else if status == 401 {
                hosts_event(e, false, "Unauthorized"@, Seq::empty())
            } else {
                hosts_event(e, false, "Failed to fetch host list"@, Seq::empty())
            },
            HostsOutcome::Unreachable { error } => hosts_event(
                e,
                false,
                "Connection failed: "@ + error@,
                Seq::empty(),
            ),
        },
{
    match outcome {
        HostsOutcome::Answered { status, hosts_json } => {
            if 200 <= status && status <= 299 {
                if let Some(j) = hosts_json {
                    return PendingDashboardEvent::HostsResult {
                        success: true,
                        error_msg: String::new(),
                        hosts_json: j,
                    };
                }
                hosts_failed("Failed to fetch host list".to_owned())
            } else if status == 401 {
                hosts_failed("Unauthorized".to_owned())
            } else {
                hosts_failed("Failed to fetch host list".to_owned())
            }
        },
        HostsOutcome::Unreachable { error } => hosts_failed(
            join("Connection failed: ", error.as_str()),
        ),
    }
}

/// What follows a host's deletion: the host list is fetched again after a
/// successful answer (`None`); otherwise the event left: "Unauthorized" on
/// status 401, "Failed to delete host" on any other answer, "Connection
/// failed: " and the error without one.
pub fn after_host_deletion(outcome: HostsOutcome) -> (res: Option<PendingDashboardEvent>)
    ensures
        match outcome {
            HostsOutcome::Answered { status, .. } => if is_success(status) {
                res is None
            } else if status == 401 {
                res matches Some(e) && hosts_event(e, false, "Unauthorized"@, Seq::empty())
            } else {
                res matches Some(e) && hosts_event(e, false, "Failed to delete host"@, Seq::empty())
            },
            HostsOutcome::Unreachable { error } => res matches Some(e) && hosts_event(
                e,
                false,
                "Connection failed: "@ + error@,
                Seq::empty(),
            ),
        },
{
    match outcome {
        HostsOutcome::Answered { status, .. } => {
            if 200 <= status && status <= 299 {
                None
            } else if status == 401 {
                Some(hosts_failed("Unauthorized".to_owned()))
            } else {
                Some(hosts_failed("Failed to delete host".to_owned()))
            }
        },
        HostsOutcome::Unreachable { error } => Some(
            hosts_failed(join("Connection failed: ", error.as_str())),
        ),
    }
}

/// The event the host list fetched after a deletion leaves: the list on a
/// successful answer that holds it; "Unauthorized" on status 401; "Host
/// deleted, but failed to refresh host list" on any other answer; "Host
/// deleted, refresh failed: " and the error without one.
pub fn hosts_after_deletion(outcome: HostsOutcome) -> (e: PendingDashboardEvent)
    ensures
        match outcome {
            HostsOutcome::Answered { status, hosts_json } => if is_success(status)
                && hosts_json is Some {
                hosts_event(e, true, Seq::empty(), hosts_json->0@)
            } else if status == 401 && !is_success(status) {
                hosts_event(e, false, "Unauthorized"@, Seq::empty())
            } else {
                hosts_event(
                    e,
                    false,
                    "Host deleted, but failed to refresh host list"@,
                    Seq::empty(),
                )
            },
            HostsOutcome::Unreachable { error } => hosts_event(
                e,
                false,
                "Host deleted, refresh failed: "@ + error@,
                Seq::empty(),
            ),
        },
{
    match outcome {
        HostsOutcome::Answered { status, hosts_json } => {
            if 200 <= status && status <= 299 {
                if let Some(j) = hosts_json {
                    return PendingDashboardEvent::HostsResult {
                        success: true,
                        error_msg: String::new(),
                        hosts_json: j,
                    };
                }
                hosts_failed("Host deleted, but failed to refresh host list".to_owned())
            } else if status == 401 {
                hosts_failed("Unauthorized".to_owned())
            } else {
                hosts_failed("Host deleted, but failed to refresh host list".to_owned())
            }
        },
        HostsOutcome::Unreachable { error } => hosts_failed(
            join("Host deleted, refresh failed: ", error.as_str()),
        ),
    }
}

/// How a call for the agent token went: no answer (with the error's text),
/// or an answer whose status was a success or not, with the body's `token`
/// and `error` fields when it held them.
#[derive(Debug, Clone, PartialEq)]
pub enum TokenOutcome {
    Unreachable { error: String },
    Answered { success: bool, token_field: Option<String>, error_field: Option<String> },
}

/// An agent-token event.
pub open spec fn token_event(e: PendingDashboardEvent, ok: bool, msg: Seq<char>, token: Seq<char>) -> bool {
    e matches PendingDashboardEvent::AgentTokenResult { success, error_msg, token: t } && success
        == ok && error_msg@ == msg && t@ == token
}

/// The event the agent-token call leaves: the token from a successful answer
/// that holds one; otherwise the answer's `error` field, else "Failed to
/// fetch agent token"; "Connection failed: " and the error without an
/// answer.
pub fn agent_token_result(outcome: TokenOutcome) -> (e: PendingDashboardEvent)
    ensures
        match outcome {
            TokenOutcome::Answered { success, token_field, error_field } => if success
                && token_field is Some {
                token_event(e, true, Seq::empty(), token_field->0@)
            } else {
                token_event(
                    e,
                    false,
                    match error_field {
                        Some(m) => m@,
                        None => "Failed to fetch agent token"@,
                    },
                    Seq::empty(),
                )
            },
            TokenOutcome::Unreachable { error } => token_event(
                e,
                false,
                "Connection failed: "@ + error@,
                Seq::empty(),
            ),
        },
{
    match outcome {
        TokenOutcome::Answered { success, token_field, error_field } => {
            if success {
                if let Some(t) = token_field {
                    return PendingDashboardEvent::AgentTokenResult {
                        success: true,
                        error_msg: String::new(),
                        token: t,
                    };
                }
            }
            let msg = match error_field {
                Some(m) => m,
                None => "Failed to fetch agent token".to_owned(),
            };
            PendingDashboardEvent::AgentTokenResult { success: false, error_msg: msg, token: String::new() }
        },
        TokenOutcome::Unreachable { error } => PendingDashboardEvent::AgentTokenResult {
            success: false,
            error_msg: join("Connection failed: ", error.as_str()),
            token: String::new(),
        },
    }
}

/// How the request for a host's applications went over the signaling
/// socket.
#[derive(Debug, Clone, PartialEq)]
pub enum AppsOutcome {
    /// The socket did not open.
    ConnectFailed { error: String },
    /// The request could not be sent.
    SendFailed { error: String },
    /// The list arrived; `None` when it could not be encoded as JSON again.
    Listed { apps_json: Option<String> },
    /// The server answered with an error, or the socket failed or closed
    /// first (the message says which).
    Refused { message: String },
    /// Nothing arrived within five seconds.
    TimedOut,
}

/// An application-list event.
pub open spec fn apps_event(e: PendingDashboardEvent, ok: bool, msg: Seq<char>, host: Seq<char>, json: Seq<char>) -> bool {
    e matches PendingDashboardEvent::AppsResult { success, error_msg, host_id, apps_json }
        && success == ok && error_msg@ == msg && host_id@ == host && apps_json@ == json
}

/// The event a host's application list leaves.
pub fn apps_result(host_id: String, outcome: Option<AppsOutcome>) -> (e: PendingDashboardEvent)
    ensures
        match outcome {
            None => apps_event(e, false, "Not authenticated"@, host_id@, Seq::empty()),
            Some(AppsOutcome::ConnectFailed { error }) => apps_event(
                e,
                false,
                "WebSocket connection failed: "@ + error@,
                host_id@,
                Seq::empty(),
            ),
            Some(AppsOutcome::SendFailed { error }) => apps_event(
                e,
                false,
                "Failed to send GetAppList request: "@ + error@,
                host_id@,
                Seq::empty(),
            ),
            Some(AppsOutcome::Listed { apps_json: Some(j) }) => apps_event(
                e,
                true,
                Seq::empty(),
                host_id@,
                j@,
            ),
            Some(AppsOutcome::Listed { apps_json: None }) => apps_event(
                e,
                false,
                "Failed to serialize apps"@,
                host_id@,
                Seq::empty(),
            ),
            Some(AppsOutcome::Refused { message }) => apps_event(
                e,
                false,
                message@,
                host_id@,
                Seq::empty(),
            ),
            Some(AppsOutcome::TimedOut) => apps_event(
                e,
                false,
                "Timed out waiting for application list"@,
                host_id@,
                Seq::empty(),
            ),
        },
{
    let (success, error_msg, apps_json) = match outcome {
        None => (false, "Not authenticated".to_owned(), String::new()),
        Some(AppsOutcome::ConnectFailed { error }) => (
            false,
            join("WebSocket connection failed: ", error.as_str()),
            String::new(),
        ),
        Some(AppsOutcome::SendFailed { error }) => (
            false,
            join("Failed to send GetAppList request: ", error.as_str()),
            String::new(),
        ),
        Some(AppsOutcome::Listed { apps_json: Some(j) }) => (true, String::new(), j),
        Some(AppsOutcome::Listed { apps_json: None }) => (
            false,
            "Failed to serialize apps".to_owned(),
            String::new(),
        ),
        Some(AppsOutcome::Refused { message }) => (false, message, String::new()),
        Some(AppsOutcome::TimedOut) => (
            false,
            "Timed out waiting for application list".to_owned(),
            String::new(),
        ),
    };
    PendingDashboardEvent::AppsResult { success, error_msg, host_id, apps_json }
}

/// Bytes that form encoding leaves as they are: ASCII letters and digits,
/// `*`, `-`, `.` and `_`.
pub open spec fn form_unchanged(b: u8) -> bool {
    (48 <= b && b <= 57) || (65 <= b && b <= 90) || (97 <= b && b <= 122) || b == 42 || b == 45
        || b == 46 || b == 95
}

/// The `application/x-www-form-urlencoded` byte serialisation: the bytes
/// of `form_unchanged` as they are, a space as `+`, every other byte as
/// `%XX` with upper-case hex digits.
pub open spec fn form_urlencoded(bytes: Seq<u8>) -> Seq<char>
    decreases bytes.len(),
{
    if bytes.len() == 0 {
        Seq::empty()
    } else {
        let b = bytes[0];
        (if form_unchanged(b) {
            seq![b as char]
        } else if b == 32 {
            seq!['+']
        } else {
            seq!['%', hex_upper(b / 16), hex_upper(b % 16)]
        }) + form_urlencoded(bytes.drop_first())
    }
}

/// `url::form_urlencoded::byte_serialize`, collected into a string: the
/// pieces it yields are the unchanged runs, `+` for a space and
/// `percent_encoding::percent_encode_byte` (upper-case `%XX`) for any other
/// byte, in input order.
#[verifier::external_body]
fn form_urlencode(s: &str) -> (res: String)
    ensures
        res@ == form_urlencoded(s.spec_bytes()),
{
    url::form_urlencoded::byte_serialize(s.as_bytes()).collect()
}

/// The signaling socket the dashboard asks for a host's applications on:
/// the server with each `http` made `ws`, then `/ws/client?token=` and the
/// token form-encoded.
pub fn apps_socket_url(server: &str, token: &str) -> (res: String)
    ensures
        res@ == replace_all(server@, "http"@, "ws"@) + "/ws/client?token="@ + form_urlencoded(
            token.spec_bytes(),
        ),
{
    proof {
        reveal_strlit("http");
    }
    let base = replace_str(server, "http", "ws");
    let with_path = join(base.as_str(), "/ws/client?token=");
    let encoded = form_urlencode(token);
    join(with_path.as_str(), encoded.as_str())
}

/// The arguments a local agent is started with.
pub fn local_agent_args(config_path: &str, name: &str, server: &str) -> (res: Vec<String>)
    ensures
        res@.len() == 7,
        res@[0]@ == "--config"@,
        res@[1]@ == config_path@,
        res@[2]@ == "--name"@,
        res@[3]@ == name@,
        res@[4]@ == "--server"@,
        res@[5]@ == server@,
        res@[6]@ == "--cli"@,
{
    let mut v: Vec<String> = Vec::new();
    v.push("--config".to_owned());
    v.push(config_path.to_owned());
    v.push("--name".to_owned());
    v.push(name.to_owned());
    v.push("--server".to_owned());
    v.push(server.to_owned());
    v.push("--cli".to_owned());
    v
}

} // verus!
