use lunaris::admin::check_user_creation;
use lunaris::auth::admit_verified;
use lunaris::admin::{
    check_group_update, check_new_group, check_new_turn_server, check_new_user,
    check_user_deletion, plan_user_update, AdminError,
};
use lunaris::auth::{admit_user, bearer_token, session_claims, AuthRejection, Claims};
use lunaris::common::{
    CreateGroupRequest, CreateTurnServerRequest, CreateUserRequest, HostStatus,
    UpdateGroupRequest, UpdateUserRequest,
};
use lunaris::hosts::{
    agent_token, agent_token_accepted, check_pairing_credentials, configured_agent_token,
    host_credentials, host_status, ice_servers_from_rows, split_urls, status_changed,
    status_label, HostRow, PairingError,
};
use lunaris::signaling::{
    decide_agent_signal, decide_client_signal, AgentSignal, ClientRoute, ClientSignal,
    SignalingRouter,
};

#[test]
fn a_stale_agent_disconnect_keeps_the_new_connection() {
    let mut r = SignalingRouter::new();
    r.agent_connected("host".to_string(), 1);
    r.agent_connected("host".to_string(), 2);
    assert!(r.agent_disconnected("host", 1).is_none());
    assert_eq!(r.agents.get("host"), Some(&2));
    assert_eq!(r.agent_disconnected("host", 2), Some(vec![]));
    assert!(r.agents.get("host").is_none());
}

#[test]
fn agent_departure_ends_its_sessions() {
    let mut r = SignalingRouter::new();
    r.agent_connected("host".to_string(), 1);
    r.client_connected("alice".to_string(), 10);
    r.client_connected("bob".to_string(), 11);
    assert_eq!(r.session_started("alice".to_string(), "host".to_string(), false), HostStatus::Busy);
    r.session_started("bob".to_string(), "host".to_string(), false);
    r.session_started("carol".to_string(), "host".to_string(), false);
    r.session_started("dave".to_string(), "other".to_string(), false);
    let mut told = r.agent_disconnected("host", 1).unwrap();
    told.sort();
    assert_eq!(told, vec!["alice".to_string(), "bob".to_string()]);
    assert_eq!(r.session_host("alice"), None);
    assert_eq!(r.session_host("carol"), None);
    assert_eq!(r.session_host("dave"), Some("other".to_string()));
}

#[test]
fn client_departure_frees_its_host() {
    let mut r = SignalingRouter::new();
    r.client_connected("alice".to_string(), 10);
    r.session_started("alice".to_string(), "host".to_string(), true);
    assert!(r.client_disconnected("alice", 9).is_none());
    let gone = r.client_disconnected("alice", 10).unwrap();
    assert_eq!(gone.host_id, Some("host".to_string()));
    assert!(!gone.notify_agent);
    assert!(gone.close_local_session);
    assert!(!r.local_sessions.contains_key("host"));
    assert_eq!(r.session_host("alice"), None);
}

#[test]
fn client_messages_go_to_the_agent_or_the_server() {
    let mut r = SignalingRouter::new();
    r.client_connected("alice".to_string(), 10);
    let d = r.route_client_signal("alice", ClientSignal::RequestSession, "host");
    assert_eq!(d.route, ClientRoute::Agentless);
    r.session_started("alice".to_string(), "host".to_string(), true);
    assert_eq!(r.route_client_signal("alice", ClientSignal::Sdp, "host").route, ClientRoute::ToLocalSession);
    assert_eq!(r.route_client_signal("alice", ClientSignal::GetSunshineConfig, "host").route, ClientRoute::Nowhere);
    let again = r.route_client_signal("alice", ClientSignal::RequestSession, "host");
    assert!(again.close_local_session);
    r.agent_connected("host".to_string(), 1);
    assert_eq!(r.route_client_signal("alice", ClientSignal::IceCandidate, "host").route, ClientRoute::ToAgent);
    let end = r.route_client_signal("alice", ClientSignal::EndSession, "host");
    assert_eq!(end.route, ClientRoute::ToAgent);
    assert_eq!(end.host_status, Some(HostStatus::Online));
    assert_eq!(r.session_host("alice"), None);
    assert_eq!(decide_client_signal(ClientSignal::GetAppList, false, false).route, ClientRoute::Agentless);
    assert_eq!(decide_client_signal(ClientSignal::Other, true, true).route, ClientRoute::Nowhere);
}

#[test]
fn agent_messages_reach_connected_clients() {
    let mut r = SignalingRouter::new();
    r.client_connected("alice".to_string(), 10);
    r.session_started("alice".to_string(), "host".to_string(), false);
    let d = r.route_agent_signal(AgentSignal::Sdp, "alice");
    assert!(d.deliver && d.attach_ice_servers);
    assert!(!r.route_agent_signal(AgentSignal::AppListResponse, "bob").deliver);
    let end = r.route_agent_signal(AgentSignal::EndSession, "alice");
    assert!(end.deliver);
    assert_eq!(end.host_status, Some(HostStatus::Online));
    assert_eq!(r.session_host("alice"), None);
    assert!(!decide_agent_signal(AgentSignal::Other, true).deliver);
}

#[test]
fn new_user_rules() {
    let req = |u: &str, p: &str, r: Option<&str>| CreateUserRequest {
        username: u.to_string(),
        password: p.to_string(),
        role: r.map(|s| s.to_string()),
    };
    assert_eq!(check_new_user(&req("  ", "secret1", None)), Err(AdminError::EmptyUsername));
    assert_eq!(check_new_user(&req("ann", "12345", None)), Err(AdminError::ShortPassword));
    assert_eq!(check_new_user(&req("ann", "ééé", None)), Ok("user".to_string()));
    assert_eq!(check_new_user(&req("ann", "123456", Some("root"))), Err(AdminError::InvalidRole));
    assert_eq!(check_new_user(&req("ann", "123456", Some("admin"))), Ok("admin".to_string()));
    assert_eq!(AdminError::ShortPassword.message(), "Password must be at least 6 characters");
    assert_eq!(AdminError::UsernameTaken.status(), 409);
    assert_eq!(AdminError::UserNotFound.status(), 404);
    assert_eq!(AdminError::InvalidRole.status(), 400);
}

#[test]
fn user_updates_apply_in_order() {
    let p = plan_user_update(UpdateUserRequest {
        role: Some("user".to_string()),
        is_active: Some(false),
        password: Some("abc".to_string()),
        group_ids: Some(vec!["g".to_string()]),
    });
    assert_eq!(p.set_role, Some("user".to_string()));
    assert_eq!(p.set_active, Some(false));
    assert_eq!(p.set_password, None);
    assert_eq!(p.replace_groups, None);
    assert_eq!(p.error, Some(AdminError::ShortPassword));
    let bad = plan_user_update(UpdateUserRequest {
        role: Some("owner".to_string()),
        is_active: Some(true),
        password: None,
        group_ids: None,
    });
    assert_eq!(bad.error, Some(AdminError::InvalidRole));
    assert_eq!(bad.set_active, None);
    let ok = plan_user_update(UpdateUserRequest {
        role: None,
        is_active: None,
        password: Some("longer!".to_string()),
        group_ids: Some(vec![]),
    });
    assert_eq!(ok.error, None);
    assert_eq!(ok.set_password, Some("longer!".to_string()));
    assert_eq!(ok.replace_groups, Some(vec![]));
}

#[test]
fn the_last_admin_stays() {
    assert_eq!(check_user_deletion(None, 3), Err(AdminError::UserNotFound));
    assert_eq!(check_user_deletion(Some("admin"), 1), Err(AdminError::LastAdmin));
    assert_eq!(check_user_deletion(Some("admin"), 2), Ok(()));
    assert_eq!(check_user_deletion(Some("user"), 0), Ok(()));
    assert_eq!(AdminError::LastAdmin.message(), "Cannot delete the last admin user");
}

#[test]
fn group_and_turn_rules() {
    assert_eq!(
        check_new_group(&CreateGroupRequest { name: "\t".to_string(), note: None }),
        Err(AdminError::EmptyGroupName)
    );
    assert_eq!(
        check_new_group(&CreateGroupRequest { name: "ops".to_string(), note: None }),
        Ok(String::new())
    );
    assert_eq!(
        check_group_update(&UpdateGroupRequest { name: Some(" ".to_string()), note: None, user_ids: None, host_ids: None }),
        Err(AdminError::EmptyGroupName)
    );
    assert_eq!(
        check_group_update(&UpdateGroupRequest { name: None, note: Some(String::new()), user_ids: None, host_ids: None }),
        Ok(())
    );
    assert_eq!(
        check_new_turn_server(&CreateTurnServerRequest { urls: " ".to_string(), username: None, credential: None }),
        Err(AdminError::EmptyTurnUrl)
    );
}

#[test]
fn bearer_header_parsing() {
    assert_eq!(bearer_token(None), Err(AuthRejection::MissingHeader));
    assert_eq!(bearer_token(Some("Basic abc")), Err(AuthRejection::BadHeaderFormat));
    assert_eq!(bearer_token(Some("Bearer abc.def")), Ok("abc.def".to_string()));
    assert_eq!(bearer_token(Some("Bearer ")), Ok(String::new()));
    assert_eq!(AuthRejection::DatabaseError.status(), 500);
    assert_eq!(AuthRejection::UnknownUser.message(), "User does not exist in database");
    let claims = Claims { sub: "u1".to_string(), username: "ann".to_string(), exp: 1 };
    assert_eq!(admit_user(claims.clone(), Some(false)), Err(AuthRejection::UnknownUser));
    assert_eq!(admit_user(claims.clone(), None), Err(AuthRejection::DatabaseError));
    let u = admit_user(claims, Some(true)).unwrap();
    assert_eq!((u.user_id.as_str(), u.username.as_str()), ("u1", "ann"));
}

#[test]
fn host_credentials_need_every_field() {
    let row = HostRow {
        ip_address: Some("10.0.0.2".to_string()),
        client_unique_id: Some("id".to_string()),
        client_private_key: Some("key".to_string()),
        client_certificate: Some("cert".to_string()),
        server_certificate: Some("srv".to_string()),
        server_codec_mode_support: None,
    };
    let (ip, cfg) = host_credentials(Some(row.clone())).unwrap();
    assert_eq!(ip, "10.0.0.2");
    assert_eq!(cfg.server_codec_mode_support, 0);
    let mut with_support = row.clone();
    with_support.server_codec_mode_support = Some(0x1_0000_0003);
    assert_eq!(host_credentials(Some(with_support)).unwrap().1.server_codec_mode_support, 3);
    let mut missing = row;
    missing.client_certificate = None;
    assert!(host_credentials(Some(missing)).is_none());
    assert!(host_credentials(None).is_none());
}

#[test]
fn host_status_order() {
    assert_eq!(host_status(true, true, true, true), HostStatus::Busy);
    assert_eq!(host_status(false, true, false, false), HostStatus::Online);
    assert_eq!(host_status(false, false, true, true), HostStatus::Online);
    assert_eq!(host_status(false, false, false, true), HostStatus::Offline);
    assert_eq!(status_label(HostStatus::Busy), "Busy");
    assert!(status_changed("Online", HostStatus::Offline));
    assert!(!status_changed("Offline", HostStatus::Offline));
}

#[test]
fn ice_servers_from_configuration() {
    let rows = vec![(
        " turn:a.example:3478 , ,turns:b.example:5349".to_string(),
        Some("u".to_string()),
        Some("p".to_string()),
    )];
    let s = ice_servers_from_rows(Some(rows));
    assert_eq!(s.len(), 1);
    assert_eq!(s[0].urls, vec!["turn:a.example:3478".to_string(), "turns:b.example:5349".to_string()]);
    assert_eq!(s[0].username, Some("u".to_string()));
    let d = ice_servers_from_rows(Some(vec![]));
    assert_eq!(d.len(), 2);
    assert_eq!(d[0].urls, vec!["stun:stun.l.google.com:19302".to_string()]);
    assert_eq!(d[1].urls, vec!["stun:stun1.l.google.com:19302".to_string()]);
    assert_eq!(ice_servers_from_rows(None), d);
    assert_eq!(split_urls(""), Vec::<String>::new());
}

#[test]
fn agent_tokens() {
    assert!(agent_token_accepted(Some(" abc \n"), "abc"));
    assert!(!agent_token_accepted(None, "abc"));
    assert!(agent_token_accepted(None, "  "));
    assert_eq!(configured_agent_token(Some("  "), Some(" file ")), Some("file".to_string()));
    assert_eq!(configured_agent_token(Some(" env"), Some("file")), Some("env".to_string()));
    assert_eq!(configured_agent_token(None, None), None);
    assert_eq!(agent_token(Some("x"), None), ("x".to_string(), false));
    let (fresh, write) = agent_token(None, Some(""));
    assert!(write);
    assert_eq!(fresh.len(), 16);
    assert!(fresh.chars().all(|c| c.is_ascii_hexdigit() && !c.is_ascii_uppercase()));
}

#[test]
fn pairing_requires_credentials() {
    assert_eq!(check_pairing_credentials(Some(" "), Some("pw")), Err(PairingError::MissingUsername));
    assert_eq!(check_pairing_credentials(Some("admin"), Some("")), Err(PairingError::MissingPassword));
    assert_eq!(check_pairing_credentials(Some("admin"), Some("pw")), Ok(()));
    assert_eq!(PairingError::MissingPassword.message(), "Sunshine Web UI password is required");
}

#[test]
fn session_claims_expire_after_a_week() {
    let c = session_claims("u-1", "alice", 1_700_000_000);
    assert_eq!(c.sub, "u-1");
    assert_eq!(c.username, "alice");
    assert_eq!(c.exp, 1_700_604_800);
}

#[test]
fn server_settings_defaults() {
    assert_eq!(lunaris::server_config::find_database_url(None), "sqlite://lunaris.db");
    assert_eq!(
        lunaris::server_config::find_database_url(Some("sqlite://x.db".to_string())),
        "sqlite://x.db"
    );
    assert_eq!(lunaris::server_config::listen_address(None), "0.0.0.0:8080");
    assert_eq!(lunaris::server_config::listen_address(Some("9000".to_string())), "0.0.0.0:9000");
    assert_eq!(lunaris::server_config::log_filter(None), "info,server=debug");
    assert_eq!(lunaris::server_config::log_filter(Some("warn".to_string())), "warn");
}

#[test]
fn pairing_pins() {
    assert_eq!(lunaris::hosts::pairing_pin(0x12, 0x34), 4660);
    assert_eq!(lunaris::hosts::pairing_pin(0xFF, 0xFF), 5535);
    assert_eq!(lunaris::hosts::pairing_pin(0, 42), 42);
    assert_eq!(lunaris::hosts::pin_text(42), "0042");
    assert_eq!(lunaris::hosts::pin_text(9876), "9876");
    assert_eq!(lunaris::hosts::pin_digits(42), (0, 0, 4, 2));
    let fresh = lunaris::hosts::fresh_pairing_pin();
    assert!(fresh < 10000);
    assert_eq!(lunaris::hosts::pin_text(fresh).len(), 4);
    assert_eq!(
        lunaris::hosts::sunshine_pin_url("192.168.1.5"),
        "https://192.168.1.5:47990/api/pin"
    );
}

#[test]
fn schema_upgrades_add_missing_columns() {
    let cols = vec!["id".to_string(), "name".to_string(), "client_certificate".to_string()];
    assert_eq!(
        lunaris::schema::host_migrations(&cols),
        vec![
            "ALTER TABLE hosts ADD COLUMN client_unique_id TEXT;",
            "ALTER TABLE hosts ADD COLUMN client_private_key TEXT;",
            "ALTER TABLE hosts ADD COLUMN server_certificate TEXT;",
            "ALTER TABLE hosts ADD COLUMN server_codec_mode_support INTEGER DEFAULT 0;",
        ]
    );
    let users = vec!["id".to_string(), "role".to_string(), "is_active".to_string(), "created_at".to_string()];
    assert!(lunaris::schema::user_migrations(&users).is_empty());
    assert_eq!(
        lunaris::schema::user_migrations(&vec![]),
        vec![
            "ALTER TABLE users ADD COLUMN role TEXT NOT NULL DEFAULT 'user';",
            "ALTER TABLE users ADD COLUMN is_active INTEGER NOT NULL DEFAULT 1;",
            "ALTER TABLE users ADD COLUMN created_at TEXT;",
        ]
    );
    assert_eq!(lunaris::schema::default_admin(0), Some(("admin", "admin123", "admin")));
    assert_eq!(lunaris::schema::default_admin(3), None);
}

#[test]
fn user_rows_become_user_info() {
    let u = lunaris::admin::user_info_from_row(
        "u1".to_string(),
        "ann".to_string(),
        "user".to_string(),
        0,
        None,
        vec![("g1".to_string(), "Staff".to_string())],
    );
    assert!(!u.is_active);
    assert_eq!(u.groups.len(), 1);
    assert_eq!(u.groups[0].name, "Staff");
    let v = lunaris::admin::user_info_from_row("u2".to_string(), "bo".to_string(), "admin".to_string(), 5, Some("2024".to_string()), vec![]);
    assert!(v.is_active);
    assert_eq!(v.created_at, Some("2024".to_string()));
}

#[test]
fn taken_username_is_refused_after_validation() {
    let r = |u: &str, p: &str, role: Option<&str>| lunaris::common::CreateUserRequest {
        username: u.to_string(),
        password: p.to_string(),
        role: role.map(|s| s.to_string()),
    };
    assert_eq!(check_user_creation(&r("ann", "123456", None), true), Err(AdminError::UsernameTaken));
    assert_eq!(AdminError::UsernameTaken.status(), 409);
    assert_eq!(AdminError::UsernameTaken.message(), "Username already taken");
    assert_eq!(check_user_creation(&r(" ", "123456", None), true), Err(AdminError::EmptyUsername));
    assert_eq!(check_user_creation(&r("ann", "123456", Some("root")), true), Err(AdminError::InvalidRole));
    assert_eq!(check_user_creation(&r("ann", "123456", Some("admin")), false), Ok("admin".to_string()));
    assert_eq!(check_user_creation(&r("ann", "123456", None), false), Ok("user".to_string()));
}

#[test]
fn refused_token_is_invalid_token() {
    let claims = Claims { sub: "u1".to_string(), username: "ann".to_string(), exp: 10 };
    assert_eq!(admit_verified(None, Some(true)), Err(AuthRejection::InvalidToken));
    assert_eq!(AuthRejection::InvalidToken.status(), 401);
    assert_eq!(AuthRejection::InvalidToken.message(), "Invalid Token");
    assert_eq!(admit_verified(Some(claims.clone()), Some(false)), Err(AuthRejection::UnknownUser));
    assert_eq!(admit_verified(Some(claims.clone()), None), Err(AuthRejection::DatabaseError));
    let u = admit_verified(Some(claims), Some(true)).unwrap();
    assert_eq!((u.user_id.as_str(), u.username.as_str()), ("u1", "ann"));
}
