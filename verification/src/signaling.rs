//! The server's signaling switchboard: which agents and clients are
//! connected, which client streams from which host, and where each
//! signaling message goes. The server's socket tasks report connections,
//! disconnections and messages; the router answers with what to send,
//! close and record.

use crate::assoc::{
    assoc_get, assoc_insert, assoc_remove, assoc_remove_value, assoc_view, unique_keys,
};
use crate::common::HostStatus;
use vstd::hash_map::StringHashMap;
use vstd::prelude::*;

verus! {

broadcast use vstd::string::group_string_axioms;

/// What an agent gives when it connects: its id and name, the codec modes
/// it supports, and the server's token.
#[derive(Debug, Clone, PartialEq)]
pub struct AgentParams {
    pub id: String,
    pub name: String,
    pub codec_support: Option<u32>,
    pub token: Option<String>,
}

/// What a client gives when it connects: its login token.
#[derive(Debug, Clone, PartialEq)]
pub struct ClientParams {
    pub token: String,
}

/// The kinds of signaling message a client sends.
#[derive(Debug, Clone, Copy, PartialEq, Eq, Structural)]
pub enum ClientSignal {
    RequestSession,
    Sdp,
    IceCandidate,
    EndSession,
    GetSunshineConfig,
    UpdateSunshineConfig,
    GetAppList,
    StopActiveStream,
    GetCapabilities,
    Other,
}

/// The kinds of signaling message an agent sends.
#[derive(Debug, Clone, Copy, PartialEq, Eq, Structural)]
pub enum AgentSignal {
    Sdp,
    IceCandidate,
    EndSession,
    SunshineConfigResponse,
    UpdateSunshineConfigResponse,
    AppListResponse,
    StopActiveStreamResponse,
    CapabilitiesResponse,
    Other,
}

/// Where a client's message goes.
#[derive(Debug, Clone, Copy, PartialEq, Eq, Structural)]
pub enum ClientRoute {
    /// To the agent of the target host, with the client named as its target.
    ToAgent,
    /// To the server's own bridge session for the target host.
    ToLocalSession,
    /// Served by the server from the host directly, without an agent.
    Agentless,
    /// Nowhere.
    Nowhere,
}

/// What to do with a client's message.
#[derive(Debug, Clone, Copy, PartialEq, Eq, Structural)]
pub struct ClientDecision {
    pub route: ClientRoute,
    /// The target host's bridge session is closed; the router has forgotten it.
    pub close_local_session: bool,
    /// The status to record for the target host.
    pub host_status: Option<HostStatus>,
}

/// What to do with an agent's message.
#[derive(Debug, Clone, Copy, PartialEq, Eq, Structural)]
pub struct AgentDecision {
    /// Deliver it to the client it names, with the agent named as its target.
    pub deliver: bool,
    /// Attach the ICE servers to it.
    pub attach_ice_servers: bool,
    /// The status to record for the agent's host.
    pub host_status: Option<HostStatus>,
}

/// What a client's disconnection ends.
#[derive(Debug, Clone, PartialEq)]
pub struct ClientGone {
    /// The host the client streamed from; it is to be marked online.
    pub host_id: Option<String>,
    /// Tell the host's agent that the session ended.
    pub notify_agent: bool,
    /// Close the server's bridge session for the host.
    pub close_local_session: bool,
}

/// The signaling state: connected agents and clients with the identity of
/// their current connection, client-to-host sessions, and the hosts with a
/// bridge session run by the server.
pub struct SignalingRouter {
    pub agents: StringHashMap<u128>,
    pub clients: StringHashMap<u128>,
    pub client_to_agent: Vec<(String, String)>,
    pub local_sessions: StringHashMap<()>,
}

/// Whether `conn` is the connection registered for `id`.
pub open spec fn current_in(m: Map<Seq<char>, u128>, id: Seq<char>, conn: u128) -> bool {
    m.contains_key(id) && m[id] == conn
}

/// A reconnect is not undone by the old connection closing: once a new
/// connection is registered for an id, the old one is no longer current,
/// so its close changes nothing (see `agent_disconnected` and
/// `client_disconnected`), while the new one stays current.
pub proof fn law_replaced_connection_is_stale(
    m: Map<Seq<char>, u128>,
    id: Seq<char>,
    old_conn: u128,
    new_conn: u128,
)
    requires
        old_conn != new_conn,
    ensures
        !current_in(m.insert(id, new_conn), id, old_conn),
        current_in(m.insert(id, new_conn), id, new_conn),
{
}

/// Once a host's agent has gone, no session is left on that host, and every
/// other session is kept.
pub proof fn law_no_session_on_departed_host(sessions: Map<Seq<char>, Seq<char>>, host: Seq<char>)
    ensures
        forall|c: Seq<char>| #[trigger]
            without_host(sessions, host).contains_key(c) ==> without_host(sessions, host)[c]
                != host,
        forall|c: Seq<char>|
            sessions.contains_key(c) && sessions[c] != host ==> #[trigger] without_host(
                sessions,
                host,
            ).contains_key(c) && without_host(sessions, host)[c] == sessions[c],
{
}

/// The sessions left once those on the given host are gone.
pub open spec fn without_host(sessions: Map<Seq<char>, Seq<char>>, host: Seq<char>) -> Map<Seq<char>, Seq<char>> {
    sessions.restrict(sessions.dom().filter(|c: Seq<char>| sessions[c] != host))
}

/// `notify` lists exactly the connected clients whose session was on the
/// host.
pub open spec fn told_of_host(
    notify: Seq<String>,
    sessions: Map<Seq<char>, Seq<char>>,
    clients: Map<Seq<char>, u128>,
    host: Seq<char>,
) -> bool {
    &&& forall|i: int|
        0 <= i < notify.len() ==> sessions.contains_key((#[trigger] notify[i])@) && sessions[notify[i]@]
            == host && clients.contains_key(notify[i]@)
    &&& forall|c: Seq<char>|
        #![trigger sessions.contains_key(c)]
        sessions.contains_key(c) && sessions[c] == host && clients.contains_key(c) ==> exists|i: int|
            0 <= i < notify.len() && (#[trigger] notify[i])@ == c
}

/// What a client's departure ends: its session's host, whether that host's
/// agent is connected, and whether the server runs a bridge session for it.
pub open spec fn client_gone(g: ClientGone, r: SignalingRouter, client: Seq<char>) -> bool {
    match r.sessions().get(client) {
        None => g.host_id is None && !g.notify_agent && !g.close_local_session,
        Some(h) => g.host_id matches Some(x) && x@ == h && g.notify_agent == r.agents@.contains_key(h)
            && g.close_local_session == r.local_sessions@.contains_key(h),
    }
}

impl SignalingRouter {
    /// The session list names each client once.
    pub open spec fn wf(&self) -> bool {
        unique_keys(self.client_to_agent@)
    }

    /// Client to host, for the sessions in progress.
    pub open spec fn sessions(&self) -> Map<Seq<char>, Seq<char>> {
        assoc_view(self.client_to_agent@)
    }

    /// Whether `conn` is the current connection of the agent `id`.
    pub open spec fn is_current_agent(&self, id: Seq<char>, conn: u128) -> bool {
        current_in(self.agents@, id, conn)
    }

    /// Whether `conn` is the current connection of the client `id`.
    pub open spec fn is_current_client(&self, id: Seq<char>, conn: u128) -> bool {
        current_in(self.clients@, id, conn)
    }

    /// Nobody connected, no session.
    pub fn new() -> (res: SignalingRouter)
        ensures
            res.wf(),
            res.agents@ == Map::<Seq<char>, u128>::empty(),
            res.clients@ == Map::<Seq<char>, u128>::empty(),
            res.sessions() == Map::<Seq<char>, Seq<char>>::empty(),
            res.local_sessions@ == Map::<Seq<char>, ()>::empty(),
    {
        let r = SignalingRouter {
            agents: StringHashMap::new(),
            clients: StringHashMap::new(),
            client_to_agent: Vec::new(),
            local_sessions: StringHashMap::new(),
        };
        assert(r.sessions() =~= Map::<Seq<char>, Seq<char>>::empty());
        r
    }

    /// An agent connected; its new connection replaces any earlier one.
    pub fn agent_connected(&mut self, agent_id: String, conn: u128)
        requires
            old(self).wf(),
        ensures
            final(self).wf(),
            final(self).agents@ == old(self).agents@.insert(agent_id@, conn),
            final(self).clients@ == old(self).clients@,
            final(self).sessions() == old(self).sessions(),
            final(self).local_sessions@ == old(self).local_sessions@,
    {
        self.agents.insert(agent_id, conn);
    }

    /// A client connected; its new connection replaces any earlier one.
    pub fn client_connected(&mut self, client_id: String, conn: u128)
        requires
            old(self).wf(),
        ensures
            final(self).wf(),
            final(self).clients@ == old(self).clients@.insert(client_id@, conn),
            final(self).agents@ == old(self).agents@,
            final(self).sessions() == old(self).sessions(),
            final(self).local_sessions@ == old(self).local_sessions@,
    {
        self.clients.insert(client_id, conn);
    }

    /// An agent's connection closed. When it is the agent's current
    /// connection, the agent is forgotten with every session on its host
    /// (the host goes offline), and the result lists the connected clients
    /// of those sessions, to be told that the host disconnected. A connection
    /// that was replaced changes nothing.
    pub fn agent_disconnected(&mut self, agent_id: &str, conn: u128) -> (res: Option<Vec<String>>)
        requires
            old(self).wf(),
        ensures
            final(self).wf(),
            final(self).clients@ == old(self).clients@,
            final(self).local_sessions@ == old(self).local_sessions@,
            !old(self).is_current_agent(agent_id@, conn) ==> res is None,
            !old(self).is_current_agent(agent_id@, conn) ==> final(self).agents@ == old(self).agents@,
            !old(self).is_current_agent(agent_id@, conn) ==> final(self).sessions() == old(self).sessions(),
            old(self).is_current_agent(agent_id@, conn) ==> final(self).agents@ == old(self).agents@.remove(agent_id@),
            old(self).is_current_agent(agent_id@, conn) ==> final(self).sessions() == without_host(old(self).sessions(), agent_id@),
            old(self).is_current_agent(agent_id@, conn) ==> (res matches Some(n) && told_of_host(n@, old(self).sessions(), old(self).clients@, agent_id@)),
    {
        let current = match self.agents.get(agent_id) {
            Some(c) => *c == conn,
            None => false,
        };
        if !current {
            return None;
        }
        self.agents.remove(agent_id);
        let ghost before = self.sessions();
        let gone = assoc_remove_value(&mut self.client_to_agent, agent_id);
        let mut notify: Vec<String> = Vec::new();
        let ghost mut from: Seq<int> = Seq::empty();
        let mut i: usize = 0;
        while i < gone.len()
            invariant
                i <= gone@.len(),
                from.len() == notify@.len(),
                forall|a: int|
                    0 <= a < notify@.len() ==> 0 <= #[trigger] from[a] < i && gone@[from[a]]
                        == notify@[a] && self.clients@.contains_key(notify@[a]@),
                forall|j: int|
                    0 <= j < i && self.clients@.contains_key((#[trigger] gone@[j])@) ==> exists|
                        a: int,
                    | 0 <= a < notify@.len() && from[a] == j,
            decreases gone@.len() - i,
        {
            if self.clients.contains_key(gone[i].as_str()) {
                notify.push(gone[i].clone());
                proof {
                    let f0 = from;
                    from = from.push(i as int);
                    assert forall|j: int|
                        0 <= j < i + 1 && self.clients@.contains_key(
                            (#[trigger] gone@[j])@,
                        ) implies exists|a: int| 0 <= a < notify@.len() && from[a] == j by {
                        if j < i {
                            let a = choose|a: int| 0 <= a < f0.len() && f0[a] == j;
                            assert(from[a] == j);
                        } else {
                            assert(from[f0.len() as int] == j);
                        }
                    }
                }
            }
            i = i + 1;
        }
        assert forall|a: int| 0 <= a < notify@.len() implies before.contains_key(
            (#[trigger] notify@[a])@,
        ) && before[notify@[a]@] == agent_id@ && self.clients@.contains_key(notify@[a]@) by {
            assert(gone@[from[a]] == notify@[a]);
        }
        assert forall|c: Seq<char>|
            #![trigger before.contains_key(c)]
            before.contains_key(c) && before[c] == agent_id@ && self.clients@.contains_key(
                c,
            ) implies exists|a: int| 0 <= a < notify@.len() && (#[trigger] notify@[a])@ == c by {
            let j = choose|j: int| 0 <= j < gone@.len() && (#[trigger] gone@[j])@ == c;
            let a = choose|a: int| 0 <= a < notify@.len() && from[a] == j;
            assert(gone@[from[a]] == notify@[a]);
        }
        Some(notify)
    }

    /// A client's connection closed. When it is the client's current
    /// connection, the client is forgotten with its session: the result names
    /// the session's host (to be marked online), whether its agent is to be
    /// told, and whether the server's bridge session for it is to be closed
    /// (the router forgets it). A connection that was replaced changes
    /// nothing.
    pub fn client_disconnected(&mut self, client_id: &str, conn: u128) -> (res: Option<ClientGone>)
        requires
            old(self).wf(),
        ensures
            final(self).wf(),
            final(self).agents@ == old(self).agents@,
            !old(self).is_current_client(client_id@, conn) ==> res is None,
            !old(self).is_current_client(client_id@, conn) ==> final(self).clients@ == old(self).clients@,
            !old(self).is_current_client(client_id@, conn) ==> final(self).sessions() == old(self).sessions(),
            !old(self).is_current_client(client_id@, conn) ==> final(self).local_sessions@ == old(self).local_sessions@,
            old(self).is_current_client(client_id@, conn) ==> final(self).clients@ == old(self).clients@.remove(client_id@),
            old(self).is_current_client(client_id@, conn) ==> final(self).sessions() == old(self).sessions().remove(client_id@),
            old(self).is_current_client(client_id@, conn) ==> (res matches Some(g) && client_gone(g, *old(self), client_id@)),
            old(self).is_current_client(client_id@, conn) ==> final(self).local_sessions@ == match old(self).sessions().get(client_id@) {
                Some(h) => old(self).local_sessions@.remove(h),
                None => old(self).local_sessions@,
            },
    {
        let current = match self.clients.get(client_id) {
            Some(c) => *c == conn,
            None => false,
        };
        if !current {
            return None;
        }
        self.clients.remove(client_id);
        match assoc_remove(&mut self.client_to_agent, client_id) {
            Some(h) => {
                let notify_agent = self.agents.contains_key(h.as_str());
                let close_local_session = self.local_sessions.contains_key(h.as_str());
                self.local_sessions.remove(h.as_str());
                Some(ClientGone { host_id: Some(h), notify_agent, close_local_session })
            },
            None => Some(ClientGone { host_id: None, notify_agent: false, close_local_session: false }),
        }
    }

    /// Where a client's message for host `target` goes, and what it changes:
    /// a session request first closes the host's bridge session; a session's
    /// end forgets the client's session, closes the host's bridge session
    /// when no agent serves the host, and marks the host online. Requests an
    /// agent would answer go to it when it is connected, else are served
    /// without it (the app list, stopping the stream, a new session) or
    /// dropped; offers and candidates go to the agent, else to the server's
    /// bridge session.
    pub fn route_client_signal(&mut self, client_id: &str, kind: ClientSignal, target: &str) -> (d:
        ClientDecision)
        requires
            old(self).wf(),
        ensures
            final(self).wf(),
            final(self).agents@ == old(self).agents@,
            final(self).clients@ == old(self).clients@,
            d == client_decision(
                kind,
                old(self).agents@.contains_key(target@),
                old(self).local_sessions@.contains_key(target@),
            ),
            final(self).local_sessions@ == (if d.close_local_session {
                old(self).local_sessions@.remove(target@)
            } else {
                old(self).local_sessions@
            }),
            final(self).sessions() == (if kind == ClientSignal::EndSession {
                old(self).sessions().remove(client_id@)
            } else {
                old(self).sessions()
            }),
    {
        let has_agent = self.agents.contains_key(target);
        let has_local = self.local_sessions.contains_key(target);
        let d = decide_client_signal(kind, has_agent, has_local);
        if d.close_local_session {
            self.local_sessions.remove(target);
        }
        if kind == ClientSignal::EndSession {
            assoc_remove(&mut self.client_to_agent, client_id);
        }
        d
    }

    /// A session between the client and the host started, through the
    /// host's agent or through a bridge session of the server's; the host is
    /// now busy.
    pub fn session_started(&mut self, client_id: String, host_id: String, local: bool) -> (status:
        HostStatus)
        requires
            old(self).wf(),
        ensures
            final(self).wf(),
            status == HostStatus::Busy,
            final(self).sessions() == old(self).sessions().insert(client_id@, host_id@),
            final(self).local_sessions@ == (if local {
                old(self).local_sessions@.insert(host_id@, ())
            } else {
                old(self).local_sessions@
            }),
            final(self).agents@ == old(self).agents@,
            final(self).clients@ == old(self).clients@,
    {
        if local {
            self.local_sessions.insert(host_id.clone(), ());
        }
        assoc_insert(&mut self.client_to_agent, client_id, host_id);
        HostStatus::Busy
    }

    /// Where an agent's message for client `target` goes, and what it
    /// changes: each known kind is delivered to the client when it is
    /// connected, an offer with the ICE servers; a session's end forgets the
    /// client's session and marks the agent's host online.
    pub fn route_agent_signal(&mut self, kind: AgentSignal, target: &str) -> (d: AgentDecision)
        requires
            old(self).wf(),
        ensures
            final(self).wf(),
            final(self).agents@ == old(self).agents@,
            final(self).clients@ == old(self).clients@,
            final(self).local_sessions@ == old(self).local_sessions@,
            d == agent_decision(kind, old(self).clients@.contains_key(target@)),
            final(self).sessions() == (if kind == AgentSignal::EndSession {
                old(self).sessions().remove(target@)
            } else {
                old(self).sessions()
            }),
    {
        let connected = self.clients.contains_key(target);
        if kind == AgentSignal::EndSession {
            assoc_remove(&mut self.client_to_agent, target);
        }
        decide_agent_signal(kind, connected)
    }

    /// The host of the client's session, if it has one.
    pub fn session_host(&self, client_id: &str) -> (res: Option<String>)
        requires
            self.wf(),
        ensures
            match res {
                Some(h) => self.sessions().contains_key(client_id@) && h@
                    == self.sessions()[client_id@],
                None => !self.sessions().contains_key(client_id@),
            },
    {
        assoc_get(&self.client_to_agent, client_id)
    }
}

/// What a client's message does, given whether the target host's agent is
/// connected and whether the server runs a bridge session for it.
pub open spec fn client_decision(kind: ClientSignal, has_agent: bool, has_local: bool) -> ClientDecision {
    let to_agent_or = |other: ClientRoute|
        if has_agent {
            ClientRoute::ToAgent
        } else {
            other
        };
    match kind {
        ClientSignal::RequestSession => ClientDecision {
            route: to_agent_or(ClientRoute::Agentless),
            close_local_session: has_local,
            host_status: None,
        },
        ClientSignal::Sdp | ClientSignal::IceCandidate => ClientDecision {
            route: to_agent_or(
                if has_local {
                    ClientRoute::ToLocalSession
                } else {
                    ClientRoute::Nowhere
                },
            ),
            close_local_session: false,
            host_status: None,
        },
        ClientSignal::EndSession => ClientDecision {
            route: to_agent_or(ClientRoute::Nowhere),
            close_local_session: !has_agent && has_local,
            host_status: Some(HostStatus::Online),
        },
        ClientSignal::GetAppList | ClientSignal::StopActiveStream => ClientDecision {
            route: to_agent_or(ClientRoute::Agentless),
            close_local_session: false,
            host_status: None,
        },
        ClientSignal::GetSunshineConfig | ClientSignal::UpdateSunshineConfig
        | ClientSignal::GetCapabilities => ClientDecision {
            route: to_agent_or(ClientRoute::Nowhere),
            close_local_session: false,
            host_status: None,
        },
        ClientSignal::Other => ClientDecision {
            route: ClientRoute::Nowhere,
            close_local_session: false,
            host_status: None,
        },
    }
}

/// What an agent's message does, given whether the client it names is
/// connected.
pub open spec fn agent_decision(kind: AgentSignal, connected: bool) -> AgentDecision {
    match kind {
        AgentSignal::Other => AgentDecision {
            deliver: false,
            attach_ice_servers: false,
            host_status: None,
        },
        AgentSignal::EndSession => AgentDecision {
            deliver: connected,
            attach_ice_servers: false,
            host_status: Some(HostStatus::Online),
        },
        AgentSignal::Sdp => AgentDecision {
            deliver: connected,
            attach_ice_servers: true,
            host_status: None,
        },
        _ => AgentDecision { deliver: connected, attach_ice_servers: false, host_status: None },
    }
}

fn route_to_agent_or(has_agent: bool, other: ClientRoute) -> (r: ClientRoute)
    ensures
        r == (if has_agent {
            ClientRoute::ToAgent
        } else {
            other
        }),
{
    if has_agent {
        ClientRoute::ToAgent
    } else {
        other
    }
}

/// What a client's message does, given whether the target host's agent is
/// connected and whether the server runs a bridge session for it.
pub fn decide_client_signal(kind: ClientSignal, has_agent: bool, has_local: bool) -> (d:
    ClientDecision)
    ensures
        d == client_decision(kind, has_agent, has_local),
{
    match kind {
        ClientSignal::RequestSession => ClientDecision {
            route: route_to_agent_or(has_agent, ClientRoute::Agentless),
            close_local_session: has_local,
            host_status: None,
        },
        ClientSignal::Sdp | ClientSignal::IceCandidate => ClientDecision {
            route: route_to_agent_or(
                has_agent,
                if has_local {
                    ClientRoute::ToLocalSession
                } else {
                    ClientRoute::Nowhere
                },
            ),
            close_local_session: false,
            host_status: None,
        },
        ClientSignal::EndSession => ClientDecision {
            route: route_to_agent_or(has_agent, ClientRoute::Nowhere),
            close_local_session: !has_agent && has_local,
            host_status: Some(HostStatus::Online),
        },
        ClientSignal::GetAppList | ClientSignal::StopActiveStream => ClientDecision {
            route: route_to_agent_or(has_agent, ClientRoute::Agentless),
            close_local_session: false,
            host_status: None,
        },
        ClientSignal::GetSunshineConfig | ClientSignal::UpdateSunshineConfig
        | ClientSignal::GetCapabilities => ClientDecision {
            route: route_to_agent_or(has_agent, ClientRoute::Nowhere),
            close_local_session: false,
            host_status: None,
        },
        ClientSignal::Other => ClientDecision {
            route: ClientRoute::Nowhere,
            close_local_session: false,
            host_status: None,
        },
    }
}

/// What an agent's message does, given whether the client it names is
/// connected.
pub fn decide_agent_signal(kind: AgentSignal, connected: bool) -> (d: AgentDecision)
    ensures
        d == agent_decision(kind, connected),
{
    match kind {
        AgentSignal::Other => AgentDecision {
            deliver: false,
            attach_ice_servers: false,
            host_status: None,
        },
        AgentSignal::EndSession => AgentDecision {
            deliver: connected,
            attach_ice_servers: false,
            host_status: Some(HostStatus::Online),
        },
        AgentSignal::Sdp => AgentDecision {
            deliver: connected,
            attach_ice_servers: true,
            host_status: None,
        },
        _ => AgentDecision { deliver: connected, attach_ice_servers: false, host_status: None },
    }
}


/// A client that ends its session: the message goes to the host's agent
/// when one is connected, else nowhere; the server's bridge session for the
/// host is closed exactly when no agent is connected and the server holds
/// one; the host is marked online.
pub proof fn law_end_session_closes_bridge(has_agent: bool, has_local: bool)
    ensures
        client_decision(ClientSignal::EndSession, has_agent, has_local).close_local_session == (
        !has_agent && has_local),
        client_decision(ClientSignal::EndSession, has_agent, has_local).route == (if has_agent {
            ClientRoute::ToAgent
        } else {
            ClientRoute::Nowhere
        }),
        client_decision(ClientSignal::EndSession, has_agent, has_local).host_status == Some(
            HostStatus::Online,
        ),
{
}

/// Whatever a client sends, a bridge session is closed only when the server
/// holds one, and a message that is not `Other` goes to the host's agent
/// whenever one is connected.
pub proof fn law_client_routing(kind: ClientSignal, has_agent: bool, has_local: bool)
    ensures
        client_decision(kind, has_agent, has_local).close_local_session ==> has_local,
        has_agent && kind != ClientSignal::Other ==> client_decision(kind, has_agent, has_local).route
            == ClientRoute::ToAgent,
        !has_agent ==> client_decision(kind, has_agent, has_local).route != ClientRoute::ToAgent,
{
}

} // verus!
