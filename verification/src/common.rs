//! Types shared by the server, the agent and the clients: REST bodies, admin
//! records and WebRTC signaling values.

use vstd::prelude::*;

verus! {

#[derive(Debug, Clone, PartialEq)]
pub struct RegisterRequest {
    pub username: String,
    pub password: String,
}

#[derive(Debug, Clone, PartialEq)]
pub struct LoginRequest {
    pub username: String,
    pub password: String,
}

#[derive(Debug, Clone, PartialEq)]
pub struct AuthResponse {
    pub token: String,
    pub username: String,
    pub role: String,
}

#[derive(Debug, Clone, Copy, PartialEq, Eq, Structural)]
pub enum HostStatus {
    Online,
    Offline,
    Busy,
}

#[derive(Debug, Clone, PartialEq)]
pub struct HostInfo {
    pub id: String,
    pub name: String,
    pub status: HostStatus,
    pub ip_address: Option<String>,
    pub server_codec_mode_support: Option<u32>,
    pub agent_connected: bool,
}

#[derive(Debug, Clone, PartialEq)]
pub struct GroupBrief {
    pub id: String,
    pub name: String,
}

#[derive(Debug, Clone, PartialEq)]
pub struct UserInfo {
    pub id: String,
    pub username: String,
    pub role: String,
    pub is_active: bool,
    pub groups: Vec<GroupBrief>,
    pub created_at: Option<String>,
}

#[derive(Debug, Clone, PartialEq)]
pub struct GroupInfo {
    pub id: String,
    pub name: String,
    pub note: String,
    pub user_count: i64,
    pub host_count: i64,
}

#[derive(Debug, Clone, PartialEq)]
pub struct UserBrief {
    pub id: String,
    pub username: String,
}

#[derive(Debug, Clone, PartialEq)]
pub struct HostBrief {
    pub id: String,
    pub name: String,
}

#[derive(Debug, Clone, PartialEq)]
pub struct GroupDetail {
    pub id: String,
    pub name: String,
    pub note: String,
    pub users: Vec<UserBrief>,
    pub hosts: Vec<HostBrief>,
}

#[derive(Debug, Clone, PartialEq)]
pub struct CreateUserRequest {
    pub username: String,
    pub password: String,
    pub role: Option<String>,
}

#[derive(Debug, Clone, PartialEq)]
pub struct UpdateUserRequest {
    pub role: Option<String>,
    pub is_active: Option<bool>,
    pub password: Option<String>,
    pub group_ids: Option<Vec<String>>,
}

#[derive(Debug, Clone, PartialEq)]
pub struct CreateGroupRequest {
    pub name: String,
    pub note: Option<String>,
}

#[derive(Debug, Clone, PartialEq)]
pub struct UpdateGroupRequest {
    pub name: Option<String>,
    pub note: Option<String>,
    pub user_ids: Option<Vec<String>>,
    pub host_ids: Option<Vec<String>>,
}

#[derive(Debug, Clone, PartialEq)]
pub struct RtcIceServer {
    pub urls: Vec<String>,
    pub username: Option<String>,
    pub credential: Option<String>,
}

#[derive(Debug, Clone, PartialEq)]
pub struct TurnServer {
    pub id: String,
    pub urls: String,
    pub username: Option<String>,
    pub credential: Option<String>,
    pub created_at: Option<String>,
}

#[derive(Debug, Clone, PartialEq)]
pub struct CreateTurnServerRequest {
    pub urls: String,
    pub username: Option<String>,
    pub credential: Option<String>,
}

#[derive(Debug, Clone, Copy, PartialEq, Eq, Structural)]
pub enum RtcSdpType {
    Offer,
    Answer,
    Pranswer,
    Rollback,
    Unspecified,
}

#[derive(Debug, Clone, PartialEq)]
pub struct RtcSessionDescription {
    pub ty: RtcSdpType,
    pub sdp: String,
}

#[derive(Debug, Clone, PartialEq)]
pub struct RtcIceCandidate {
    pub candidate: String,
    pub sdp_mid: Option<String>,
    pub sdp_mline_index: Option<u16>,
    pub username_fragment: Option<String>,
}

#[derive(Debug, Clone, PartialEq)]
pub struct AppInfo {
    pub id: u32,
    pub title: String,
    pub icon_base64: Option<String>,
}

} // verus!
