//! The native client's session state behind its Qt window: the connection
//! arguments, the active stream configuration, events waiting for the
//! dashboard, and what each input call sends.

use crate::client_input::{
    absolute_packet, button_packet, handle_key_event, handle_mouse_click, handle_mouse_move,
    handle_mouse_wheel, key_event_packet, relative_packet, spec_qt_key_to_vk, spec_qt_modifiers,
    wheel_packet, InputChannel, MouseChannel,
};
use crate::launch::{optional_value, parse_resolution, spec_parse_resolution, unset_or};
use crate::text::{
    chars_of, contains_chars, contains_seq, decimal_chars, push_all, spec_to_lowercase,
    str_eq, string_from_chars, to_lowercase, u64_decimal,
};
use vstd::prelude::*;

verus! {

broadcast use vstd::string::group_string_axioms;

/// The connection and stream settings of a session.
#[derive(Debug, Clone, PartialEq)]
pub struct AppArgs {
    pub host_id: String,
    pub server_url: String,
    pub token: String,
    pub width: u32,
    pub height: u32,
    pub fps: u32,
    pub bitrate: u32,
    pub codec: String,
    pub app_id: Option<u32>,
    pub mouse_queue_limit: u32,
    pub host_name: String,
    pub disable_cuda: bool,
    pub input_protocol: String,
    pub encoder: Option<String>,
    pub display_id: Option<String>,
    pub virtual_display: bool,
}

/// The settings of a session as plain values.
pub struct ArgsModel {
    pub host_id: Seq<char>,
    pub server_url: Seq<char>,
    pub token: Seq<char>,
    pub width: u32,
    pub height: u32,
    pub fps: u32,
    pub bitrate: u32,
    pub codec: Seq<char>,
    pub app_id: Option<u32>,
    pub mouse_queue_limit: u32,
    pub host_name: Seq<char>,
    pub disable_cuda: bool,
    pub input_protocol: Seq<char>,
    pub encoder: Option<Seq<char>>,
    pub display_id: Option<Seq<char>>,
    pub virtual_display: bool,
}

/// The characters of an optional string.
pub open spec fn opt_chars(s: Option<String>) -> Option<Seq<char>> {
    match s {
        Some(v) => Some(v@),
        None => None,
    }
}

impl View for AppArgs {
    type V = ArgsModel;

    open spec fn view(&self) -> ArgsModel {
        ArgsModel {
            host_id: self.host_id@,
            server_url: self.server_url@,
            token: self.token@,
            width: self.width,
            height: self.height,
            fps: self.fps,
            bitrate: self.bitrate,
            codec: self.codec@,
            app_id: self.app_id,
            mouse_queue_limit: self.mouse_queue_limit,
            host_name: self.host_name@,
            disable_cuda: self.disable_cuda,
            input_protocol: self.input_protocol@,
            encoder: opt_chars(self.encoder),
            display_id: opt_chars(self.display_id),
            virtual_display: self.virtual_display,
        }
    }
}

fn copy_opt_string(s: &Option<String>) -> (res: Option<String>)
    ensures
        res == *s,
{
    match s {
        Some(v) => Some(v.clone()),
        None => None,
    }
}

impl AppArgs {
    /// A field-by-field copy.
    pub fn copy(&self) -> (res: AppArgs)
        ensures
            res == *self,
    {
        AppArgs {
            host_id: self.host_id.clone(),
            server_url: self.server_url.clone(),
            token: self.token.clone(),
            width: self.width,
            height: self.height,
            fps: self.fps,
            bitrate: self.bitrate,
            codec: self.codec.clone(),
            app_id: self.app_id,
            mouse_queue_limit: self.mouse_queue_limit,
            host_name: self.host_name.clone(),
            disable_cuda: self.disable_cuda,
            input_protocol: self.input_protocol.clone(),
            encoder: copy_opt_string(&self.encoder),
            display_id: copy_opt_string(&self.display_id),
            virtual_display: self.virtual_display,
        }
    }
}

/// What the dashboard is told on its next poll.
#[derive(Debug, Clone, PartialEq)]
pub enum PendingDashboardEvent {
    LoginResult { success: bool, error_msg: String, token: String, username: String, server: String },
    HostsResult { success: bool, error_msg: String, hosts_json: String },
    AppsResult { success: bool, error_msg: String, host_id: String, apps_json: String },
    CredentialsLoaded { success: bool, server: String, token: String, username: String },
    AgentTokenResult { success: bool, error_msg: String, token: String },
    DeepLinkReceived { url: String },
    UpdateAvailable { latest_version: String, release_url: String },
}

/// The host cursor as last reported by the host.
#[derive(Debug, Clone, PartialEq)]
pub struct PendingHostCursor {
    pub x: i32,
    pub y: i32,
    pub visible: bool,
    pub kind: String,
    pub in_window_move_size: bool,
}

/// An encoded video frame with its RTP timestamp.
#[derive(Debug, Clone, PartialEq)]
pub struct VideoFramePayload {
    pub full_frame: Vec<u8>,
    pub timestamp: u32,
}

/// The credentials the client keeps between runs.
#[derive(Debug, Clone, PartialEq)]
pub struct SavedSettings {
    pub server_url: String,
    pub token: String,
    pub username: String,
}

/// The client window's session state.
pub struct StreamBridge {
    /// The connection arguments the client was started with.
    pub app_args: Option<AppArgs>,
    /// The configuration of the current or next stream.
    pub active_config: Option<AppArgs>,
    /// Input channels to the host are open.
    pub input_connected: bool,
    pub pending_events: Vec<PendingDashboardEvent>,
    /// A local agent process started by the client is held.
    pub local_agent_running: bool,
    pub pending_cursor: Option<PendingHostCursor>,
    pub pending_host_os: Option<String>,
}

/// What a pointer movement does: the local cursor delta reported to the
/// window, and the packet sent to the host.
#[derive(Debug, Clone, PartialEq)]
pub struct MouseMoveOutput {
    pub local_cursor_delta: Option<(i32, i32)>,
    pub packet: Option<(MouseChannel, Vec<u8>)>,
}

/// The settings the window shows for the active configuration.
#[derive(Debug, Clone, PartialEq)]
pub struct SettingsView {
    pub res: String,
    pub fps: i32,
    pub codec: String,
    pub bitrate: i32,
    pub mouse_queue_limit: i32,
    pub host_name: String,
    pub disable_cuda: bool,
    pub input_protocol: String,
}

/// `WIDTHxHEIGHT` in decimal.
pub open spec fn resolution_chars(width: u32, height: u32) -> Seq<char> {
    decimal_chars(width as nat) + seq!['x'] + decimal_chars(height as nat)
}

/// The resolution the settings page asks for: `WIDTHxHEIGHT` when the text
/// holds an `x` (1280x720 when that does not read), else the preset whose
/// height it names, else 1280x720.
pub open spec fn settings_resolution(s: Seq<char>) -> (u32, u32) {
    if contains_seq(s, seq!['x']) {
        match spec_parse_resolution(s) {
            Some(p) => p,
            None => (1280u32, 720u32),
        }
    } else if contains_seq(s, "1080"@) {
        (1920u32, 1080u32)
    } else if contains_seq(s, "720"@) {
        (1280u32, 720u32)
    } else if contains_seq(s, "540"@) {
        (960u32, 540u32)
    } else {
        (1280u32, 720u32)
    }
}

/// The resolution the dashboard asks for: `WIDTHxHEIGHT`, else 1280x720.
pub open spec fn dashboard_resolution(s: Seq<char>) -> (u32, u32) {
    match spec_parse_resolution(s) {
        Some(p) => p,
        None => (1280u32, 720u32),
    }
}

/// A session's settings with the stream settings of the settings page.
pub open spec fn with_stream_settings(
    m: ArgsModel,
    res: (u32, u32),
    fps: i32,
    codec: Seq<char>,
    bitrate: i32,
    mouse_queue_limit: i32,
    disable_cuda: bool,
    input_protocol: Seq<char>,
) -> ArgsModel {
    ArgsModel {
        width: res.0,
        height: res.1,
        fps: fps as u32,
        codec: spec_to_lowercase(codec),
        bitrate: bitrate as u32,
        mouse_queue_limit: mouse_queue_limit as u32,
        disable_cuda,
        input_protocol: spec_to_lowercase(input_protocol),
        ..m
    }
}

fn settings_resolution_of(s: &str) -> (res: (u32, u32))
    ensures
        res == settings_resolution(s@),
{
    let c = chars_of(s);
    let x_arr = ['x'];
    let x: &[char] = &x_arr;
    assert(x@ =~= seq!['x']);
    if contains_chars(c.as_slice(), x) {
        match parse_resolution(s) {
            Some(p) => p,
            None => (1280, 720),
        }
    } else if contains_chars(c.as_slice(), chars_of("1080").as_slice()) {
        (1920, 1080)
    } else if contains_chars(c.as_slice(), chars_of("720").as_slice()) {
        (1280, 720)
    } else if contains_chars(c.as_slice(), chars_of("540").as_slice()) {
        (960, 540)
    } else {
        (1280, 720)
    }
}

fn apply_stream_settings(
    c: &mut AppArgs,
    res: (u32, u32),
    fps: i32,
    codec: &str,
    bitrate: i32,
    mouse_queue_limit: i32,
    disable_cuda: bool,
    input_protocol: &str,
)
    ensures
        final(c)@ == with_stream_settings(
            old(c)@,
            res,
            fps,
            codec@,
            bitrate,
            mouse_queue_limit,
            disable_cuda,
            input_protocol@,
        ),
{
    c.width = res.0;
    c.height = res.1;
    c.fps = fps as u32;
    c.codec = to_lowercase(codec);
    c.bitrate = bitrate as u32;
    c.mouse_queue_limit = mouse_queue_limit as u32;
    c.disable_cuda = disable_cuda;
    c.input_protocol = to_lowercase(input_protocol);
}

/// The cursor shapes the window can show.
pub open spec fn known_cursor_kind(k: Seq<char>) -> bool {
    k == "arrow"@ || k == "ibeam"@ || k == "hand"@ || k == "cross"@ || k == "move"@ || k
        == "resize_ns"@ || k == "resize_ew"@ || k == "resize_nesw"@ || k == "resize_nwse"@ || k
        == "unavailable"@ || k == "unknown"@
}

/// A cursor shape the host reports, with the ones the window does not know
/// shown as the arrow.
pub fn normalize_host_cursor_kind(kind: &str) -> (res: &str)
    ensures
        res@ == (if known_cursor_kind(kind@) {
            kind@
        } else {
            "arrow"@
        }),
{
    if str_eq(kind, "arrow") || str_eq(kind, "ibeam") || str_eq(kind, "hand") || str_eq(
        kind,
        "cross",
    ) || str_eq(kind, "move") || str_eq(kind, "resize_ns") || str_eq(kind, "resize_ew")
        || str_eq(kind, "resize_nesw") || str_eq(kind, "resize_nwse") || str_eq(
        kind,
        "unavailable",
    ) || str_eq(kind, "unknown") {
        kind
    } else {
        "arrow"
    }
}

/// The name the dashboard shows for this machine: its host name when it
/// could be read as valid Unicode, else `Local Host`.
pub fn local_hostname_from(host: Option<(String, bool)>) -> (res: String)
    ensures
        res@ == match host {
            Some(h) => if h.1 {
                h.0@
            } else {
                "Local Host"@
            },
            None => "Local Host"@,
        },
{
    match host {
        Some(h) => if h.1 {
            h.0
        } else {
            "Local Host".to_owned()
        },
        None => "Local Host".to_owned(),
    }
}

/// The name the dashboard shows for this machine, reading its host name.
pub fn get_local_hostname() -> (res: String) {
    local_hostname_from(crate::agent::machine_hostname())
}

impl StreamBridge {
    /// A window started with these connection arguments (if any), with no
    /// stream, no events and no local agent.
    pub fn new(app_args: Option<AppArgs>) -> (res: StreamBridge)
        ensures
            res.app_args == app_args,
            res.active_config is None,
            !res.input_connected,
            res.pending_events@.len() == 0,
            !res.local_agent_running,
            res.pending_cursor is None,
            res.pending_host_os is None,
    {
        StreamBridge {
            app_args,
            active_config: None,
            input_connected: false,
            pending_events: Vec::new(),
            local_agent_running: false,
            pending_cursor: None,
            pending_host_os: None,
        }
    }

    /// A pointer movement: while the pointer is locked, a non-zero relative
    /// motion is reported to the window as the local cursor delta; the
    /// movement's packet goes to the host when the input channels are open.
    pub fn send_mouse_move(
        &self,
        x: i32,
        y: i32,
        width: i32,
        height: i32,
        rx: i32,
        ry: i32,
        pointer_locked: bool,
    ) -> (res: MouseMoveOutput)
        ensures
            res.local_cursor_delta == (if pointer_locked && (rx != 0 || ry != 0) {
                Some((rx, ry))
            } else {
                None
            }),
            !self.input_connected ==> res.packet is None,
            self.input_connected && !pointer_locked ==> (res.packet matches Some(p) && p.0
                == MouseChannel::Absolute && p.1@ == absolute_packet(
                x as int,
                y as int,
                width as int,
                height as int,
            )),
            self.input_connected && pointer_locked ==> (res.packet matches Some(p) && p.0
                == MouseChannel::Relative && p.1@ == relative_packet(rx as int, ry as int)),
    {
        let local_cursor_delta = if pointer_locked && (rx != 0 || ry != 0) {
            Some((rx, ry))
        } else {
            None
        };
        let packet = if self.input_connected {
            Some(handle_mouse_move(x, y, width, height, rx, ry, pointer_locked))
        } else {
            None
        };
        MouseMoveOutput { local_cursor_delta, packet }
    }

    /// The packet for a mouse button and its channel (the relative-mouse
    /// one), when the input channels are open.
    pub fn send_mouse_click(&self, button: i32, is_down: bool) -> (res: Option<
        (InputChannel, Vec<u8>),
    >)
        ensures
            !(self.input_connected && button > 0) ==> res is None,
            self.input_connected && button > 0 ==> (res matches Some(p) && p.0
                == InputChannel::MouseRelative && p.1@ == button_packet(button as int, is_down)),
    {
        if self.input_connected {
            match handle_mouse_click(button, is_down) {
                Some(p) => Some((InputChannel::MouseRelative, p)),
                None => None,
            }
        } else {
            None
        }
    }

    /// The packet for a wheel movement and its channel (the relative-mouse
    /// one), when the input channels are open.
    pub fn send_mouse_wheel(&self, delta: i32) -> (res: Option<(InputChannel, Vec<u8>)>)
        ensures
            !self.input_connected ==> res is None,
            self.input_connected ==> (res matches Some(p) && p.0 == InputChannel::MouseRelative
                && p.1@ == wheel_packet(delta as int)),
    {
        if self.input_connected {
            Some((InputChannel::MouseRelative, handle_mouse_wheel(delta)))
        } else {
            None
        }
    }

    /// The packet for a key and its channel (the keyboard one), when the
    /// input channels are open and the key has a virtual-key code.
    pub fn send_key_event(&self, key: i32, modifiers: i32, is_down: bool) -> (res: Option<
        (InputChannel, Vec<u8>),
    >)
        ensures
            !(self.input_connected && spec_qt_key_to_vk(key) > 0) ==> res is None,
            self.input_connected && spec_qt_key_to_vk(key) > 0 ==> (res matches Some(p) && p.0
                == InputChannel::Keyboard && p.1@ == key_event_packet(
                spec_qt_key_to_vk(key),
                spec_qt_modifiers(modifiers),
                is_down,
            )),
    {
        if self.input_connected {
            match handle_key_event(key, modifiers, is_down) {
                Some(p) => Some((InputChannel::Keyboard, p)),
                None => None,
            }
        } else {
            None
        }
    }

    /// Whether the client was started with connection arguments.
    pub fn has_connection_args(&self) -> (res: bool)
        ensures
            res == self.app_args is Some,
    {
        self.app_args.is_some()
    }

    /// Queues the saved credentials (or their absence) for the dashboard.
    pub fn load_saved_credentials(&mut self, saved: Option<SavedSettings>)
        ensures
            final(self).pending_events@.len() == old(self).pending_events@.len() + 1,
            final(self).pending_events@.drop_last() == old(self).pending_events@,
            match saved {
                Some(s) => final(self).pending_events@.last() == PendingDashboardEvent::CredentialsLoaded {
                    success: true,
                    server: s.server_url,
                    token: s.token,
                    username: s.username,
                },
                None => final(self).pending_events@.last() matches PendingDashboardEvent::CredentialsLoaded {
                    success,
                    server,
                    token,
                    username,
                } && !success && server@.len() == 0 && token@.len() == 0 && username@.len() == 0,
            },
            final(self).app_args == old(self).app_args,
            final(self).active_config == old(self).active_config,
            final(self).input_connected == old(self).input_connected,
            final(self).local_agent_running == old(self).local_agent_running,
    {
        let ghost before = self.pending_events@;
        let event = match saved {
            Some(s) => PendingDashboardEvent::CredentialsLoaded {
                success: true,
                server: s.server_url,
                token: s.token,
                username: s.username,
            },
            None => {
                proof {
                    reveal_strlit("");
                }
                PendingDashboardEvent::CredentialsLoaded {
                    success: false,
                    server: "".to_owned(),
                    token: "".to_owned(),
                    username: "".to_owned(),
                }
            },
        };
        self.pending_events.push(event);
        assert(self.pending_events@.drop_last() =~= before);
    }

    /// Takes the events waiting for the dashboard, oldest first.
    pub fn poll_events(&mut self) -> (res: Vec<PendingDashboardEvent>)
        ensures
            res@ == old(self).pending_events@,
            final(self).pending_events@.len() == 0,
            final(self).app_args == old(self).app_args,
            final(self).active_config == old(self).active_config,
            final(self).input_connected == old(self).input_connected,
            final(self).local_agent_running == old(self).local_agent_running,
    {
        let mut events: Vec<PendingDashboardEvent> = Vec::new();
        std::mem::swap(&mut events, &mut self.pending_events);
        events
    }

    /// Forgets the local agent process; true when one was held and is to be
    /// killed.
    pub fn stop_local_agent(&mut self) -> (kill: bool)
        ensures
            kill == old(self).local_agent_running,
            !final(self).local_agent_running,
            final(self).app_args == old(self).app_args,
            final(self).active_config == old(self).active_config,
            final(self).input_connected == old(self).input_connected,
            final(self).pending_events@ == old(self).pending_events@,
    {
        let kill = self.local_agent_running;
        self.local_agent_running = false;
        kill
    }

    /// Whether the local agent still runs, given whether its process has not
    /// exited; an exited process is forgotten.
    pub fn is_local_agent_running(&mut self, process_alive: bool) -> (res: bool)
        ensures
            res == (old(self).local_agent_running && process_alive),
            final(self).local_agent_running == res,
            final(self).app_args == old(self).app_args,
            final(self).active_config == old(self).active_config,
            final(self).input_connected == old(self).input_connected,
            final(self).pending_events@ == old(self).pending_events@,
    {
        if self.local_agent_running {
            if process_alive {
                true
            } else {
                self.local_agent_running = false;
                false
            }
        } else {
            false
        }
    }

    /// Takes the host cursor and host OS last reported.
    pub fn poll_cursor(&mut self) -> (res: (Option<PendingHostCursor>, Option<String>))
        ensures
            res.0 == old(self).pending_cursor,
            res.1 == old(self).pending_host_os,
            final(self).pending_cursor is None,
            final(self).pending_host_os is None,
            final(self).active_config == old(self).active_config,
            final(self).pending_events@ == old(self).pending_events@,
    {
        (self.pending_cursor.take(), self.pending_host_os.take())
    }

    /// The settings of the active configuration, which starts as the
    /// connection arguments when no stream configured it yet.
    pub fn request_settings(&mut self) -> (res: Option<SettingsView>)
        ensures
            final(self).active_config == (if old(self).active_config is None {
                old(self).app_args
            } else {
                old(self).active_config
            }),
            final(self).active_config is None ==> res is None,
            final(self).active_config matches Some(c) ==> (res matches Some(v) && v.res@
                == resolution_chars(c.width, c.height) && v.fps == c.fps as i32 && v.codec
                == c.codec && v.bitrate == c.bitrate as i32 && v.mouse_queue_limit
                == c.mouse_queue_limit as i32 && v.host_name == c.host_name && v.disable_cuda
                == c.disable_cuda && v.input_protocol == c.input_protocol),
            final(self).app_args == old(self).app_args,
            final(self).pending_events@ == old(self).pending_events@,
    {
        if self.active_config.is_none() {
            self.active_config = match &self.app_args {
                Some(a) => Some(a.copy()),
                None => None,
            };
        }
        match &self.active_config {
            Some(c) => {
                let mut res_chars = u64_decimal(c.width as u64);
                res_chars.push('x');
                let h = u64_decimal(c.height as u64);
                push_all(&mut res_chars, h.as_slice());
                Some(
                    SettingsView {
                        res: string_from_chars(res_chars.as_slice()),
                        fps: c.fps as i32,
                        codec: c.codec.clone(),
                        bitrate: c.bitrate as i32,
                        mouse_queue_limit: c.mouse_queue_limit as i32,
                        host_name: c.host_name.clone(),
                        disable_cuda: c.disable_cuda,
                        input_protocol: c.input_protocol.clone(),
                    },
                )
            },
            None => None,
        }
    }
    /// The settings page changes the stream settings of the active
    /// configuration; with none yet, of a copy of the connection arguments,
    /// which becomes the active configuration. The stream then restarts.
    pub fn update_stream_config(
        &mut self,
        res: &str,
        fps: i32,
        codec: &str,
        bitrate: i32,
        mouse_queue_limit: i32,
        disable_cuda: bool,
        input_protocol: &str,
    )
        ensures
            old(self).active_config matches Some(c) ==> (final(self).active_config matches Some(
                n,
            ) && n@ == with_stream_settings(
                c@,
                settings_resolution(res@),
                fps,
                codec@,
                bitrate,
                mouse_queue_limit,
                disable_cuda,
                input_protocol@,
            )),
            old(self).active_config is None ==> match old(self).app_args {
                Some(a) => final(self).active_config matches Some(n) && n@ == with_stream_settings(
                    a@,
                    settings_resolution(res@),
                    fps,
                    codec@,
                    bitrate,
                    mouse_queue_limit,
                    disable_cuda,
                    input_protocol@,
                ),
                None => final(self).active_config is None,
            },
            final(self).app_args == old(self).app_args,
            final(self).input_connected == old(self).input_connected,
            final(self).pending_events@ == old(self).pending_events@,
            final(self).local_agent_running == old(self).local_agent_running,
    {
        let r = settings_resolution_of(res);
        match self.active_config.take() {
            Some(mut c) => {
                apply_stream_settings(
                    &mut c,
                    r,
                    fps,
                    codec,
                    bitrate,
                    mouse_queue_limit,
                    disable_cuda,
                    input_protocol,
                );
                self.active_config = Some(c);
            },
            None => {
                match &self.app_args {
                    Some(a) => {
                        let mut c = a.copy();
                        apply_stream_settings(
                            &mut c,
                            r,
                            fps,
                            codec,
                            bitrate,
                            mouse_queue_limit,
                            disable_cuda,
                            input_protocol,
                        );
                        self.active_config = Some(c);
                    },
                    None => {},
                }
            },
        }
    }

    /// The dashboard starts a session with these settings; they become the
    /// active configuration, and the stream starts.
    pub fn start_game_session(
        &mut self,
        server: &str,
        token: &str,
        host_id: &str,
        host_name: &str,
        app_id: i32,
        res: &str,
        fps: i32,
        codec: &str,
        bitrate: i32,
        mouse_queue_limit: i32,
        disable_cuda: bool,
        input_protocol: &str,
        encoder: &str,
        display_id: &str,
        virtual_display: bool,
    )
        ensures
            final(self).active_config matches Some(c) && c@ == (ArgsModel {
                host_id: host_id@,
                server_url: server@,
                token: token@,
                width: dashboard_resolution(res@).0,
                height: dashboard_resolution(res@).1,
                fps: fps as u32,
                bitrate: bitrate as u32,
                codec: spec_to_lowercase(codec@),
                app_id: if app_id < 0 {
                    None
                } else {
                    Some(app_id as u32)
                },
                mouse_queue_limit: mouse_queue_limit as u32,
                host_name: host_name@,
                disable_cuda,
                input_protocol: spec_to_lowercase(input_protocol@),
                encoder: unset_or(spec_to_lowercase(encoder@), "auto"@),
                display_id: unset_or(display_id@, "default"@),
                virtual_display,
            }),
            final(self).app_args == old(self).app_args,
            final(self).input_connected == old(self).input_connected,
            final(self).pending_events@ == old(self).pending_events@,
            final(self).local_agent_running == old(self).local_agent_running,
    {
        let (width, height) = match parse_resolution(res) {
            Some(p) => p,
            None => (1280, 720),
        };
        let app_id_opt = if app_id < 0 {
            None
        } else {
            Some(app_id as u32)
        };
        let args = AppArgs {
            host_id: host_id.to_owned(),
            server_url: server.to_owned(),
            token: token.to_owned(),
            width,
            height,
            fps: fps as u32,
            bitrate: bitrate as u32,
            codec: to_lowercase(codec),
            app_id: app_id_opt,
            mouse_queue_limit: mouse_queue_limit as u32,
            host_name: host_name.to_owned(),
            disable_cuda,
            input_protocol: to_lowercase(input_protocol),
            encoder: optional_value(to_lowercase(encoder), "auto"),
            display_id: optional_value(display_id.to_owned(), "default"),
            virtual_display,
        };
        self.active_config = Some(args);
    }
}

/// The host of a URL as `url::Url::parse` reads it and `Url::host_str`
/// gives it; `None` when the text does not parse or names no host.
pub uninterp spec fn url_host(url: Seq<char>) -> Option<Seq<char>>;

/// `url::Url::parse` and `Url::host_str`: the host of the URL, a function
/// of the text, named `url_host`.
#[verifier::external_body]
fn parse_url_host(s: &str) -> (res: Option<String>)
    ensures
        match url_host(s@) {
            None => res is None,
            Some(h) => res matches Some(r) && r@ == h,
        },
{
    match url::Url::parse(s) {
        Ok(u) => u.host_str().map(|h| h.to_string()),
        Err(_) => None,
    }
}

/// Where the client opens its WebTransport input channel, given the
/// server's host: with the `webtransport` input protocol, a port offered by
/// the host and a server host, that host at that port over HTTPS.
pub open spec fn webtransport_target(protocol: Seq<char>, host: Option<Seq<char>>, port: Option<u16>) -> Option<Seq<char>> {
    if protocol == "webtransport"@ && port is Some && host is Some {
        Some("https://"@ + host->Some_0 + ":"@ + decimal_chars(port->Some_0 as nat))
    } else {
        None
    }
}

/// Where the client opens its WebTransport input channel, given the
/// server's host.
pub fn webtransport_url(protocol: &str, host: Option<String>, port: Option<u16>) -> (res: Option<String>)
    ensures
        match webtransport_target(
            protocol@,
            match host {
                Some(h) => Some(h@),
                None => None,
            },
            port,
        ) {
            None => res is None,
            Some(t) => res matches Some(r) && r@ == t,
        },
{
    if !str_eq(protocol, "webtransport") {
        return None;
    }
    let p = match port {
        Some(p) => p,
        None => return None,
    };
    match host {
        None => None,
        Some(h) => {
            let mut v = chars_of("https://");
            let hc = chars_of(h.as_str());
            push_all(&mut v, hc.as_slice());
            let colon = chars_of(":");
            push_all(&mut v, colon.as_slice());
            let digits = u64_decimal(p as u64);
            push_all(&mut v, digits.as_slice());
            Some(string_from_chars(v.as_slice()))
        },
    }
}

/// Where the client opens its WebTransport input channel, if anywhere: the
/// server URL's host is read only when the protocol and port call for it.
pub fn webtransport_endpoint(protocol: &str, server_url: &str, port: Option<u16>) -> (res: Option<String>)
    ensures
        match webtransport_target(protocol@, url_host(server_url@), port) {
            None => res is None,
            Some(t) => res matches Some(r) && r@ == t,
        },
{
    if !str_eq(protocol, "webtransport") || port.is_none() {
        return None;
    }
    let host = parse_url_host(server_url);
    webtransport_url(protocol, host, port)
}

/// How the stream reaches the client: through a TURN relay when either end
/// of the nominated candidate pair is a relay candidate, else directly.
pub fn connection_type(local_relay: bool, remote_relay: bool) -> (res: &'static str)
    ensures
        res@ == (if local_relay || remote_relay {
            "TURN Relay"@
        } else {
            "P2P (Direct)"@
        }),
{
    if local_relay || remote_relay {
        "TURN Relay"
    } else {
        "P2P (Direct)"
    }
}

/// The host cursor from the fields of a `host_cursor` message, its position
/// already rounded: shown unless `visible` says otherwise, an unknown or
/// missing shape shown as the arrow, and not in a window move or resize
/// unless the message says so.
pub fn host_cursor(
    x: i32,
    y: i32,
    visible: Option<bool>,
    kind: Option<&str>,
    in_window_move_size: Option<bool>,
) -> (c: PendingHostCursor)
    ensures
        c.x == x,
        c.y == y,
        c.visible == match visible {
            Some(v) => v,
            None => true,
        },
        c.kind@ == match kind {
            Some(k) => if known_cursor_kind(k@) {
                k@
            } else {
                "arrow"@
            },
            None => "arrow"@,
        },
        c.in_window_move_size == match in_window_move_size {
            Some(v) => v,
            None => false,
        },
{
    let shape = match kind {
        Some(k) => normalize_host_cursor_kind(k),
        None => "arrow",
    };
    PendingHostCursor {
        x,
        y,
        visible: match visible {
            Some(v) => v,
            None => true,
        },
        kind: shape.to_string(),
        in_window_move_size: match in_window_move_size {
            Some(v) => v,
            None => false,
        },
    }
}

impl StreamBridge {
    /// Keeps the host cursor last reported, for the window to poll.
    pub fn set_host_cursor(&mut self, c: PendingHostCursor)
        ensures
            final(self).pending_cursor == Some(c),
            final(self).pending_host_os == old(self).pending_host_os,
            final(self).app_args == old(self).app_args,
            final(self).active_config == old(self).active_config,
            final(self).input_connected == old(self).input_connected,
            final(self).pending_events@ == old(self).pending_events@,
            final(self).local_agent_running == old(self).local_agent_running,
    {
        self.pending_cursor = Some(c);
    }
}

} // verus!
