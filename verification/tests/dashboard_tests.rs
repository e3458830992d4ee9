use lunaris::client_bridge::PendingDashboardEvent;
use lunaris::common::AuthResponse;
use lunaris::text::replace_str;
use lunaris::dashboard::{
    after_host_deletion, agent_token_result, agent_token_url, apps_result, apps_socket_url,
    bearer_header, host_url, hosts_after_deletion, hosts_result, hosts_url, local_agent_args,
    login_result, login_url, not_authenticated_hosts, AppsOutcome,
    HostsOutcome, LoginOutcome, TokenOutcome,
};

fn hosts(success: bool, error_msg: &str, hosts_json: &str) -> PendingDashboardEvent {
    PendingDashboardEvent::HostsResult {
        success,
        error_msg: error_msg.to_string(),
        hosts_json: hosts_json.to_string(),
    }
}

#[test]
fn request_addresses() {
    assert_eq!(login_url("http://s:8080"), "http://s:8080/api/auth/login");
    assert_eq!(hosts_url("http://s"), "http://s/api/hosts");
    assert_eq!(host_url("http://s", "h1"), "http://s/api/hosts/h1");
    assert_eq!(agent_token_url("http://s//"), "http://s/api/agent/token");
    assert_eq!(bearer_header("abc"), "Bearer abc");
    assert_eq!(replace_str("https://x/http", "http", "ws"), "wss://x/ws");
    assert_eq!(replace_str("htt", "http", "ws"), "htt");
    assert_eq!(replace_str("aaa", "aa", "b"), "ba");
    assert_eq!(apps_socket_url("http://s:8080", "a b&c"), "ws://s:8080/ws/client?token=a+b%26c");
    assert_eq!(apps_socket_url("http://s", "*-._~/\u{e9}"), "ws://s/ws/client?token=*-._%7E%2F%C3%A9");
    assert_eq!(local_agent_args("cfg.json", "PC", "ws://s"), vec!["--config", "cfg.json", "--name", "PC", "--server", "ws://s", "--cli"]);
}

#[test]
fn login_outcomes() {
    let auth = AuthResponse { token: "t".to_string(), username: "ann".to_string(), role: "user".to_string() };
    let (e, saved) = login_result(
        "http://s".to_string(),
        LoginOutcome::Answered { success: true, auth: Some(auth), error_field: None },
    );
    assert_eq!(
        e,
        PendingDashboardEvent::LoginResult {
            success: true,
            error_msg: String::new(),
            token: "t".to_string(),
            username: "ann".to_string(),
            server: "http://s".to_string(),
        }
    );
    let saved = saved.unwrap();
    assert_eq!((saved.server_url.as_str(), saved.token.as_str(), saved.username.as_str()), ("http://s", "t", "ann"));
    let (e, saved) = login_result(
        "http://s".to_string(),
        LoginOutcome::Answered { success: false, auth: None, error_field: Some("Invalid username or password".to_string()) },
    );
    assert!(saved.is_none());
    assert!(matches!(e, PendingDashboardEvent::LoginResult { success: false, ref error_msg, .. } if error_msg == "Invalid username or password"));
    let (e, _) = login_result("s".to_string(), LoginOutcome::Answered { success: true, auth: None, error_field: None });
    assert!(matches!(e, PendingDashboardEvent::LoginResult { ref error_msg, .. } if error_msg == "Login failed"));
    let (e, _) = login_result("s".to_string(), LoginOutcome::Unreachable { error: "refused".to_string() });
    assert!(matches!(e, PendingDashboardEvent::LoginResult { ref error_msg, ref server, .. } if error_msg == "Connection failed: refused" && server.is_empty()));
}

#[test]
fn host_list_outcomes() {
    assert_eq!(not_authenticated_hosts(), hosts(false, "Not authenticated", ""));
    assert_eq!(hosts_result(HostsOutcome::Answered { status: 200, hosts_json: Some("[]".to_string()) }), hosts(true, "", "[]"));
    assert_eq!(hosts_result(HostsOutcome::Answered { status: 200, hosts_json: None }), hosts(false, "Failed to fetch host list", ""));
    assert_eq!(hosts_result(HostsOutcome::Answered { status: 401, hosts_json: None }), hosts(false, "Unauthorized", ""));
    assert_eq!(hosts_result(HostsOutcome::Answered { status: 500, hosts_json: Some("x".to_string()) }), hosts(false, "Failed to fetch host list", ""));
    assert_eq!(hosts_result(HostsOutcome::Unreachable { error: "dns".to_string() }), hosts(false, "Connection failed: dns", ""));
}

#[test]
fn host_deletion_outcomes() {
    assert_eq!(after_host_deletion(HostsOutcome::Answered { status: 204, hosts_json: None }), None);
    assert_eq!(after_host_deletion(HostsOutcome::Answered { status: 401, hosts_json: None }), Some(hosts(false, "Unauthorized", "")));
    assert_eq!(after_host_deletion(HostsOutcome::Answered { status: 404, hosts_json: None }), Some(hosts(false, "Failed to delete host", "")));
    assert_eq!(after_host_deletion(HostsOutcome::Unreachable { error: "e".to_string() }), Some(hosts(false, "Connection failed: e", "")));
    assert_eq!(hosts_after_deletion(HostsOutcome::Answered { status: 200, hosts_json: Some("[1]".to_string()) }), hosts(true, "", "[1]"));
    assert_eq!(hosts_after_deletion(HostsOutcome::Answered { status: 503, hosts_json: None }), hosts(false, "Host deleted, but failed to refresh host list", ""));
    assert_eq!(hosts_after_deletion(HostsOutcome::Unreachable { error: "e".to_string() }), hosts(false, "Host deleted, refresh failed: e", ""));
}

#[test]
fn agent_token_outcomes() {
    let ok = agent_token_result(TokenOutcome::Answered { success: true, token_field: Some("abc".to_string()), error_field: None });
    assert_eq!(ok, PendingDashboardEvent::AgentTokenResult { success: true, error_msg: String::new(), token: "abc".to_string() });
    let bad = agent_token_result(TokenOutcome::Answered { success: false, token_field: Some("abc".to_string()), error_field: None });
    assert_eq!(bad, PendingDashboardEvent::AgentTokenResult { success: false, error_msg: "Failed to fetch agent token".to_string(), token: String::new() });
    let down = agent_token_result(TokenOutcome::Unreachable { error: "timeout".to_string() });
    assert_eq!(down, PendingDashboardEvent::AgentTokenResult { success: false, error_msg: "Connection failed: timeout".to_string(), token: String::new() });
}

#[test]
fn application_list_outcomes() {
    let e = apps_result("h".to_string(), Some(AppsOutcome::Listed { apps_json: Some("[]".to_string()) }));
    assert_eq!(e, PendingDashboardEvent::AppsResult { success: true, error_msg: String::new(), host_id: "h".to_string(), apps_json: "[]".to_string() });
    let e = apps_result("h".to_string(), Some(AppsOutcome::TimedOut));
    assert!(matches!(e, PendingDashboardEvent::AppsResult { success: false, ref error_msg, .. } if error_msg == "Timed out waiting for application list"));
    let e = apps_result("h".to_string(), None);
    assert!(matches!(e, PendingDashboardEvent::AppsResult { ref error_msg, .. } if error_msg == "Not authenticated"));
    let e = apps_result("h".to_string(), Some(AppsOutcome::ConnectFailed { error: "x".to_string() }));
    assert!(matches!(e, PendingDashboardEvent::AppsResult { ref error_msg, .. } if error_msg == "WebSocket connection failed: x"));
}
