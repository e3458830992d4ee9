//! Lunaris remote-desktop core: the wire formats, input handling, signaling
//! decisions and configuration rules shared by the agent, the server and the
//! native clients, each stated and proved with Verus.

use vstd::prelude::*;

pub mod admin;
pub mod agent;
pub mod agent_session;
pub mod agent_ui;
pub mod assoc;
pub mod auth;
pub mod client_bridge;
pub mod client_input;
pub mod common;
pub mod dashboard;
pub mod decoder;
pub mod dispatch;
pub mod hosts;
pub mod integration;
pub mod ids;
pub mod launch;
pub mod obu;
pub mod overlay;
pub mod passwords;
pub mod protocol;
pub mod receiver;
pub mod rtp;
pub mod schema;
pub mod sdl_input;
pub mod server_config;
pub mod signaling;
pub mod stream;
pub mod text;
pub mod version;
