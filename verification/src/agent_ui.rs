//! The state behind the agent's desktop window (Qt and Tauri front ends):
//! whether the agent loop runs, whether it is connected, the last error and
//! the log lines waiting to be shown.

use crate::agent::{default_server_url, default_server_url_chars, AgentConfig};
use crate::ids::{fresh_unique_id, upper_id, uuid_text};
use crate::text::{trim_end, trim_end_str};
use crate::version::{is_newer_version, spec_version_newer, trim_start_char};
use vstd::prelude::*;

verus! {

broadcast use vstd::string::group_string_axioms;

/// The most log lines the window keeps.
pub const MAX_LOG_LINES: usize = 500;

/// The agent window's state.
pub struct AgentBridge {
    pub agent_active: bool,
    pub connected_to_server: bool,
    /// A shutdown signal for the running agent loop is held.
    pub shutdown_armed: bool,
    pub last_error: Option<String>,
    pub pending_logs: Vec<String>,
}

/// The configuration as the window shows it.
#[derive(Debug, Clone, PartialEq)]
pub struct ConfigResponse {
    pub client_unique_id: String,
    pub server_url: String,
    pub agent_name: String,
    pub server_token: String,
    pub autostart: bool,
    pub close_to_tray: bool,
}

/// A newer release.
#[derive(Debug, Clone, PartialEq)]
pub struct UpdateResponse {
    pub latest_version: String,
    pub release_url: String,
}

/// The agent's status as the window shows it.
#[derive(Debug, Clone, PartialEq)]
pub struct StatusResponse {
    pub agent_active: bool,
    pub connected_to_server: bool,
    pub last_error: Option<String>,
}

/// The log lines after one more arrives: appended, the oldest dropped when
/// more than the maximum would be kept.
pub open spec fn spec_push_log(logs: Seq<Seq<char>>, line: Seq<char>) -> Seq<Seq<char>> {
    if logs.len() + 1 > MAX_LOG_LINES {
        logs.push(trim_end(line)).drop_first()
    } else {
        logs.push(trim_end(line))
    }
}

/// The text of each log line.
pub open spec fn log_view(v: Seq<String>) -> Seq<Seq<char>> {
    v.map_values(|s: String| s@)
}

/// The last `n` entries of `s` (all of them when there are fewer).
pub open spec fn keep_last(s: Seq<Seq<char>>, n: int) -> Seq<Seq<char>> {
    if s.len() <= n {
        s
    } else {
        s.skip(s.len() - n)
    }
}

/// The log after a series of lines was pushed, one by one.
pub open spec fn push_logs(logs: Seq<Seq<char>>, lines: Seq<Seq<char>>) -> Seq<Seq<char>>
    decreases lines.len(),
{
    if lines.len() == 0 {
        logs
    } else {
        spec_push_log(push_logs(logs, lines.drop_last()), lines.last())
    }
}

impl AgentBridge {
    /// A stopped, disconnected agent with no error and no logs.
    pub fn new() -> (res: AgentBridge)
        ensures
            !res.agent_active,
            !res.connected_to_server,
            !res.shutdown_armed,
            res.last_error is None,
            res.pending_logs@.len() == 0,
    {
        AgentBridge {
            agent_active: false,
            connected_to_server: false,
            shutdown_armed: false,
            last_error: None,
            pending_logs: Vec::new(),
        }
    }

    /// Starts the agent loop unless it runs already or the configuration
    /// could not be loaded; true when the loop is to be spawned.
    pub fn start_agent(&mut self, config_loaded: bool) -> (res: bool)
        ensures
            res == (!old(self).agent_active && config_loaded),
            res ==> final(self).agent_active && final(self).shutdown_armed
                && final(self).connected_to_server == old(self).connected_to_server
                && final(self).last_error == old(self).last_error
                && final(self).pending_logs@ == old(self).pending_logs@,
            !res ==> *final(self) == *old(self),
    {
        if self.agent_active || !config_loaded {
            return false;
        }
        self.shutdown_armed = true;
        self.agent_active = true;
        true
    }

    /// Stops the agent loop when it runs: the shutdown signal is sent (true
    /// when one was held) and the agent is marked stopped and disconnected.
    pub fn stop_agent(&mut self) -> (send_shutdown: bool)
        ensures
            !old(self).agent_active ==> *final(self) == *old(self) && !send_shutdown,
            old(self).agent_active ==> send_shutdown == old(self).shutdown_armed
                && !final(self).agent_active && !final(self).connected_to_server
                && !final(self).shutdown_armed && final(self).last_error == old(self).last_error
                && final(self).pending_logs@ == old(self).pending_logs@,
    {
        if !self.agent_active {
            return false;
        }
        let send = self.shutdown_armed;
        self.shutdown_armed = false;
        self.agent_active = false;
        self.connected_to_server = false;
        send
    }

    /// The agent loop has ended, by a stop or by itself; an error it ended
    /// with is kept for the window.
    pub fn agent_loop_finished(&mut self, error: Option<String>)
        ensures
            !final(self).agent_active,
            !final(self).connected_to_server,
            final(self).shutdown_armed == old(self).shutdown_armed,
            final(self).last_error == (match error {
                Some(e) => Some(e),
                None => old(self).last_error,
            }),
            final(self).pending_logs@ == old(self).pending_logs@,
    {
        if let Some(e) = error {
            self.last_error = Some(e);
        }
        self.agent_active = false;
        self.connected_to_server = false;
    }

    /// Whether the agent loop runs.
    pub fn is_agent_active(&self) -> (res: bool)
        ensures
            res == self.agent_active,
    {
        self.agent_active
    }

    /// Drops the log lines waiting to be shown.
    pub fn clear_logs(&mut self)
        ensures
            final(self).pending_logs@.len() == 0,
            final(self).agent_active == old(self).agent_active,
            final(self).connected_to_server == old(self).connected_to_server,
            final(self).shutdown_armed == old(self).shutdown_armed,
            final(self).last_error == old(self).last_error,
    {
        self.pending_logs.clear();
    }

    /// Keeps a log line for the window without its trailing whitespace,
    /// dropping the oldest beyond the maximum.
    pub fn push_log(&mut self, line: String)
        ensures
            log_view(final(self).pending_logs@) == spec_push_log(
                log_view(old(self).pending_logs@),
                line@,
            ),
            final(self).agent_active == old(self).agent_active,
            final(self).connected_to_server == old(self).connected_to_server,
            final(self).shutdown_armed == old(self).shutdown_armed,
            final(self).last_error == old(self).last_error,
    {
        let ghost old_logs = log_view(self.pending_logs@);
        let trimmed = trim_end_str(line.as_str());
        self.pending_logs.push(trimmed);
        assert(log_view(self.pending_logs@) =~= old_logs.push(trim_end(line@)));
        if self.pending_logs.len() > MAX_LOG_LINES {
            let ghost before = self.pending_logs@;
            self.pending_logs.remove(0);
            assert(self.pending_logs@ =~= before.drop_first());
            assert(log_view(self.pending_logs@) =~= log_view(before).drop_first());
        }
    }

    /// Takes the log lines waiting to be shown, oldest first.
    pub fn take_logs(&mut self) -> (res: Vec<String>)
        ensures
            res@ == old(self).pending_logs@,
            final(self).pending_logs@.len() == 0,
            final(self).agent_active == old(self).agent_active,
            final(self).connected_to_server == old(self).connected_to_server,
            final(self).shutdown_armed == old(self).shutdown_armed,
            final(self).last_error == old(self).last_error,
    {
        let mut logs: Vec<String> = Vec::new();
        std::mem::swap(&mut logs, &mut self.pending_logs);
        logs
    }

    /// The status for the window; the last error is handed over once.
    pub fn get_status(&mut self) -> (res: StatusResponse)
        ensures
            res.agent_active == old(self).agent_active,
            res.connected_to_server == old(self).connected_to_server,
            res.last_error == old(self).last_error,
            final(self).last_error is None,
            final(self).agent_active == old(self).agent_active,
            final(self).connected_to_server == old(self).connected_to_server,
            final(self).shutdown_armed == old(self).shutdown_armed,
            final(self).pending_logs@ == old(self).pending_logs@,
    {
        let last_error = self.last_error.take();
        StatusResponse {
            agent_active: self.agent_active,
            connected_to_server: self.connected_to_server,
            last_error,
        }
    }

    /// Forgets the last error.
    pub fn clear_last_error(&mut self)
        ensures
            final(self).last_error is None,
            final(self).agent_active == old(self).agent_active,
            final(self).connected_to_server == old(self).connected_to_server,
            final(self).shutdown_armed == old(self).shutdown_armed,
            final(self).pending_logs@ == old(self).pending_logs@,
    {
        self.last_error = None;
    }
}

/// The window never holds more than the maximum number of log lines, and
/// the line just pushed is the newest, trimmed.
pub proof fn law_log_bounded(logs: Seq<Seq<char>>, line: Seq<char>)
    requires
        logs.len() <= MAX_LOG_LINES,
    ensures
        spec_push_log(logs, line).len() <= MAX_LOG_LINES,
        spec_push_log(logs, line).last() == trim_end(line),
{
}

/// Over a series of pushes, the log holds the last 500 of its lines and the
/// new ones (each trimmed), oldest first.
pub proof fn law_log_keeps_newest(logs: Seq<Seq<char>>, lines: Seq<Seq<char>>)
    requires
        logs.len() <= MAX_LOG_LINES,
    ensures
        push_logs(logs, lines) == keep_last(
            logs + lines.map_values(|l: Seq<char>| trim_end(l)),
            MAX_LOG_LINES as int,
        ),
    decreases lines.len(),
{
    let f = |l: Seq<char>| trim_end(l);
    if lines.len() == 0 {
        assert(logs + lines.map_values(f) =~= logs);
    } else {
        let init = lines.drop_last();
        law_log_keeps_newest(logs, init);
        let x = logs + init.map_values(f);
        let t = trim_end(lines.last());
        assert(logs + lines.map_values(f) =~= x.push(t));
        let p = keep_last(x, MAX_LOG_LINES as int);
        let n = MAX_LOG_LINES as int;
        if x.len() <= n {
            if x.len() + 1 > n {
                assert(x.push(t).drop_first() =~= x.push(t).skip(x.len() + 1 - n));
            }
        } else {
            assert(p =~= x.skip(x.len() - n));
            assert(p.push(t).drop_first() =~= x.push(t).skip(x.len() + 1 - n));
        }
    }
}

pub open spec fn not_available_chars() -> Seq<char> {
    seq!['N', '/', 'A']
}

fn owned(s: &str) -> (res: String)
    ensures
        res@ == s@,
{
    s.to_owned()
}

/// The configuration the window shows: the saved one, or, when none could be
/// loaded, an id of "N/A", the default server URL, no token, autostart and
/// close-to-tray off.
pub fn get_config(config: Option<AgentConfig>, agent_name: String) -> (res: ConfigResponse)
    ensures
        res.agent_name == agent_name,
        match config {
            Some(c) => res.client_unique_id == c.client_unique_id && res.server_url
                == c.server_url && res.server_token == c.server_token && res.autostart
                == c.autostart && res.close_to_tray == c.close_to_tray,
            None => res.client_unique_id@ == not_available_chars() && res.server_url@
                == default_server_url_chars() && res.server_token@.len() == 0 && !res.autostart
                && !res.close_to_tray,
        },
{
    match config {
        Some(c) => ConfigResponse {
            client_unique_id: c.client_unique_id,
            server_url: c.server_url,
            agent_name,
            server_token: c.server_token,
            autostart: c.autostart,
            close_to_tray: c.close_to_tray,
        },
        None => {
            proof {
                reveal_strlit("N/A");
                reveal_strlit("");
            }
            let id = owned("N/A");
            assert(id@ =~= not_available_chars());
            ConfigResponse {
                client_unique_id: id,
                server_url: default_server_url(),
                agent_name,
                server_token: owned(""),
                autostart: false,
                close_to_tray: false,
            }
        },
    }
}

/// A fresh configuration with the given unique id and the defaults: the
/// default server URL, no keys or token, WebTransport on 55200.
pub fn make_default_config(client_unique_id: String) -> (res: AgentConfig)
    ensures
        res.client_unique_id == client_unique_id,
        res.client_private_key@.len() == 0,
        res.client_certificate@.len() == 0,
        res.server_certificate@.len() == 0,
        res.server_url@ == default_server_url_chars(),
        res.server_token@.len() == 0,
        res.webtransport_port == 55200,
        !res.autostart,
        !res.close_to_tray,
{
    proof {
        reveal_strlit("");
    }
    AgentConfig {
        client_unique_id,
        client_private_key: owned(""),
        client_certificate: owned(""),
        server_certificate: owned(""),
        server_url: default_server_url(),
        server_token: owned(""),
        webtransport_port: 55200,
        autostart: false,
        close_to_tray: false,
    }
}

/// A fresh configuration with the defaults and a new random unique id: a
/// UUID's text in upper case.
pub fn new_default_config() -> (res: AgentConfig)
    ensures
        exists|u: Seq<char>| uuid_text(u) && res.client_unique_id@ == #[trigger] upper_id(u),
        res.client_private_key@.len() == 0,
        res.client_certificate@.len() == 0,
        res.server_certificate@.len() == 0,
        res.server_url@ == default_server_url_chars(),
        res.server_token@.len() == 0,
        res.webtransport_port == 55200,
        !res.autostart,
        !res.close_to_tray,
{
    make_default_config(fresh_unique_id())
}

/// The configuration saved from the window: the connection and startup
/// settings replaced, the identity kept.
pub fn apply_settings(
    config: AgentConfig,
    server_url: String,
    server_token: String,
    autostart: bool,
    close_to_tray: bool,
) -> (res: AgentConfig)
    ensures
        res == (AgentConfig { server_url, server_token, autostart, close_to_tray, ..config }),
{
    AgentConfig { server_url, server_token, autostart, close_to_tray, ..config }
}

/// The update to offer for a release tag, when it is newer than the running
/// version (leading `v`s ignored).
pub fn check_for_updates(current_version: &str, tag_name: String, html_url: String) -> (res: Option<
    UpdateResponse,
>)
    ensures
        spec_version_newer(trim_start_char(tag_name@, 'v'), trim_start_char(current_version@, 'v'))
            ==> res == Some(UpdateResponse { latest_version: tag_name, release_url: html_url }),
        !spec_version_newer(trim_start_char(tag_name@, 'v'), trim_start_char(current_version@, 'v'))
            ==> res is None,
{
    if is_newer_version(current_version, tag_name.as_str()) {
        Some(UpdateResponse { latest_version: tag_name, release_url: html_url })
    } else {
        None
    }
}

} // verus!
