//! The agent's side of a streaming session: what each signaling message
//! from the server does to the one session it runs.

use crate::agent::{restart_delay, stream_restart_delay_ms};
use crate::common::AppInfo;
use crate::text::{replace_all, replace_str};
use vstd::prelude::*;

verus! {

broadcast use vstd::string::group_string_axioms;

/// The agent's session state: whether a session runs, and when the last
/// one stopped (0 when none has).
pub struct AgentSession {
    pub active: bool,
    pub last_stop_ms: u64,
}

/// What to do for a session request.
#[derive(Debug, Clone, Copy, PartialEq, Eq, Structural)]
pub struct IncomingPlan {
    /// Close the session that runs now.
    pub close_previous: bool,
    /// Wait this long before setting the new one up.
    pub wait_ms: u64,
}

impl AgentSession {
    /// No session yet.
    pub fn new() -> (s: AgentSession)
        ensures
            !s.active,
            s.last_stop_ms == 0,
    {
        AgentSession { active: false, last_stop_ms: 0 }
    }

    /// A client asks for a session: any running one is closed first, and the
    /// new one waits until 1200 ms have passed since the last stop.
    pub fn on_incoming_session(&mut self, now_ms: u64) -> (p: IncomingPlan)
        ensures
            p.close_previous == old(self).active,
            p.wait_ms == restart_delay(old(self).last_stop_ms, now_ms),
            !final(self).active,
            final(self).last_stop_ms == old(self).last_stop_ms,
    {
        let close_previous = self.active;
        self.active = false;
        IncomingPlan { close_previous, wait_ms: stream_restart_delay_ms(self.last_stop_ms, now_ms) }
    }

    /// The new session is set up; it is recorded before its offer goes out,
    /// so that the client's answer finds it.
    pub fn session_ready(&mut self)
        ensures
            final(self).active,
            final(self).last_stop_ms == old(self).last_stop_ms,
    {
        self.active = true;
    }

    /// Whether an answer or a candidate from the client has a session to go
    /// to (otherwise it is dropped).
    pub fn accepts_signaling(&self) -> (res: bool)
        ensures
            res == self.active,
    {
        self.active
    }

    /// The client ends the session: a running one is closed (true) and the
    /// stop time recorded.
    pub fn on_end_session(&mut self, now_ms: u64) -> (closed: bool)
        ensures
            closed == old(self).active,
            !final(self).active,
            final(self).last_stop_ms == (if old(self).active {
                now_ms
            } else {
                old(self).last_stop_ms
            }),
    {
        if self.active {
            self.active = false;
            self.last_stop_ms = now_ms;
            true
        } else {
            false
        }
    }
}

/// The client's answer with the H.264 level forced to 4.2: every
/// `profile-level-id=42001f` becomes `profile-level-id=42002a`, so that the
/// browser keeps decoding hardware-encoded streams.
pub fn force_answer_level(sdp: &str) -> (res: String)
    ensures
        res@ == replace_all(sdp@, "profile-level-id=42001f"@, "profile-level-id=42002a"@),
{
    proof {
        reveal_strlit("profile-level-id=42001f");
    }
    replace_str(sdp, "profile-level-id=42001f", "profile-level-id=42002a")
}

/// The applications an agent offers: the desktop, with id 0, which is also
/// the one running.
pub fn desktop_app_list() -> (res: (Vec<AppInfo>, u32))
    ensures
        res.0@.len() == 1,
        res.0@[0].id == 0,
        res.0@[0].title@ == "Desktop"@,
        res.0@[0].icon_base64 is None,
        res.1 == 0,
{
    let mut apps: Vec<AppInfo> = Vec::new();
    apps.push(AppInfo { id: 0, title: "Desktop".to_owned(), icon_base64: None });
    (apps, 0)
}

} // verus!
