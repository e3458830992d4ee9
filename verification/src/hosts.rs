//! The server's rules for hosts: the credentials a paired host needs for a
//! server-run session, the status shown for a host, the ICE servers handed
//! to peers, and the checks on agents and pairing requests.

use crate::common::{HostStatus, RtcIceServer};
use crate::ids::{fresh_token, is_lower_hex, new_uuid_text, token_from_uuid, uuid_text};
use crate::text::{blank, chars_of, is_blank, str_eq, string_from_chars, trim, trim_str};
use crate::version::{split_chars, split_on};
use vstd::prelude::*;

verus! {

broadcast use vstd::string::group_string_axioms;

/// The credentials the server keeps for a host paired without an agent.
#[derive(Debug, Clone, PartialEq)]
pub struct AgentConfig {
    pub client_unique_id: String,
    pub client_private_key: String,
    pub client_certificate: String,
    pub server_certificate: String,
    pub server_codec_mode_support: u32,
}

/// A host's row as the database gives it: address, credentials and codec
/// support, each possibly missing.
#[derive(Debug, Clone, PartialEq)]
pub struct HostRow {
    pub ip_address: Option<String>,
    pub client_unique_id: Option<String>,
    pub client_private_key: Option<String>,
    pub client_certificate: Option<String>,
    pub server_certificate: Option<String>,
    pub server_codec_mode_support: Option<i64>,
}

/// The message a client gets when the host's credentials are missing.
pub fn missing_credentials_message() -> (m: &'static str)
    ensures
        m@ == "Host credentials not found or incomplete. Please pair the host again."@,
{
    "Host credentials not found or incomplete. Please pair the host again."
}

/// The address and credentials of a host, when its row has all of them; a
/// missing codec support counts as none.
pub fn host_credentials(row: Option<HostRow>) -> (res: Option<(String, AgentConfig)>)
    ensures
        match row {
            Some(r) => match (
                r.ip_address,
                r.client_unique_id,
                r.client_private_key,
                r.client_certificate,
                r.server_certificate,
            ) {
                (Some(ip), Some(id), Some(key), Some(cert), Some(srv)) => res matches Some(p)
                    && p.0 == ip && p.1.client_unique_id == id && p.1.client_private_key == key
                    && p.1.client_certificate == cert && p.1.server_certificate == srv
                    && p.1.server_codec_mode_support == (match r.server_codec_mode_support {
                    Some(v) => v as u32,
                    None => 0u32,
                }),
                _ => res is None,
            },
            None => res is None,
        },
{
    match row {
        Some(r) => {
            let support: u32 = match r.server_codec_mode_support {
                Some(v) => v as u32,
                None => 0,
            };
            match (
                r.ip_address,
                r.client_unique_id,
                r.client_private_key,
                r.client_certificate,
                r.server_certificate,
            ) {
                (Some(ip), Some(id), Some(key), Some(cert), Some(srv)) => Some(
                    (
                        ip,
                        AgentConfig {
                            client_unique_id: id,
                            client_private_key: key,
                            client_certificate: cert,
                            server_certificate: srv,
                            server_codec_mode_support: support,
                        },
                    ),
                ),
                _ => None,
            }
        },
        None => None,
    }
}

/// Whether a host without a session or an agent must be probed on its
/// address to learn its status.
pub open spec fn needs_probe(busy: bool, agent_online: bool, has_address: bool) -> bool {
    !busy && !agent_online && has_address
}

/// The status shown for a host: busy while the server runs a session for
/// it, online while its agent is connected, else online when its address
/// answers (`reachable`, probed only when `needs_probe` holds), else offline.
pub fn host_status(busy: bool, agent_online: bool, has_address: bool, reachable: bool) -> (s:
    HostStatus)
    ensures
        s == (if busy {
            HostStatus::Busy
        } else if agent_online {
            HostStatus::Online
        } else if has_address && reachable {
            HostStatus::Online
        } else {
            HostStatus::Offline
        }),
{
    if busy {
        HostStatus::Busy
    } else if agent_online {
        HostStatus::Online
    } else if has_address && reachable {
        HostStatus::Online
    } else {
        HostStatus::Offline
    }
}

/// The name a status is stored under.
pub open spec fn status_text(s: HostStatus) -> Seq<char> {
    match s {
        HostStatus::Online => "Online"@,
        HostStatus::Offline => "Offline"@,
        HostStatus::Busy => "Busy"@,
    }
}

/// The name a status is stored under.
pub fn status_label(s: HostStatus) -> (t: &'static str)
    ensures
        t@ == status_text(s),
{
    match s {
        HostStatus::Online => "Online",
        HostStatus::Offline => "Offline",
        HostStatus::Busy => "Busy",
    }
}

/// Whether the stored status must be rewritten: it differs from the one
/// shown.
pub fn status_changed(stored: &str, shown: HostStatus) -> (res: bool)
    ensures
        res == (stored@ != status_text(shown)),
{
    !str_eq(stored, status_label(shown))
}

/// The URLs of a TURN server's entry: split at commas, each trimmed, the
/// empty ones dropped.
pub open spec fn url_list(urls: Seq<char>) -> Seq<Seq<char>> {
    split_on(urls, ',').map_values(|u: Seq<char>| trim(u)).filter(|u: Seq<char>| u.len() > 0)
}

/// The public STUN servers used when none is configured.
pub open spec fn default_stun_urls() -> Seq<Seq<char>> {
    seq!["stun:stun.l.google.com:19302"@, "stun:stun1.l.google.com:19302"@]
}

/// The characters of each string.
pub open spec fn strings_view(v: Seq<String>) -> Seq<Seq<char>> {
    v.map_values(|s: String| s@)
}

/// Splits a TURN server's URL list.
pub fn split_urls(urls: &str) -> (res: Vec<String>)
    ensures
        strings_view(res@) == url_list(urls@),
{
    let c = crate::text::chars_of(urls);
    let parts = split_chars(c.as_slice(), ',');
    let ghost trimmed = split_on(urls@, ',').map_values(|u: Seq<char>| trim(u));
    let mut out: Vec<String> = Vec::new();
    let mut i: usize = 0;
    while i < parts.len()
        invariant
            c@ == urls@,
            parts@.len() == split_on(urls@, ',').len(),
            forall|k: int| 0 <= k < parts@.len() ==> #[trigger] parts@[k]@ == split_on(urls@, ',')[k],
            trimmed == split_on(urls@, ',').map_values(|u: Seq<char>| trim(u)),
            i <= parts@.len(),
            strings_view(out@) == trimmed.subrange(0, i as int).filter(|u: Seq<char>| u.len() > 0),
        decreases parts@.len() - i,
    {
        let piece = crate::text::string_from_chars(parts[i].as_slice());
        let t = trim_str(piece.as_str());
        proof {
            assert(trimmed.subrange(0, i + 1).drop_last() =~= trimmed.subrange(0, i as int));
            assert(trimmed.subrange(0, i + 1).last() == t@);
            trimmed.subrange(0, i as int).lemma_filter_push(t@, |u: Seq<char>| u.len() > 0);
        }
        if !t.as_str().is_empty() {
            out.push(t);
            assert(strings_view(out@) =~= strings_view(out@).drop_last().push(out@.last()@));
        }
        i = i + 1;
        proof {
            assert(trimmed.subrange(0, i as int) =~= trimmed.subrange(0, i - 1).push(
                trimmed[i - 1],
            ));
        }
    }
    assert(trimmed.subrange(0, i as int) =~= trimmed);
    out
}

/// A configured TURN server as the database gives it: its comma-separated
/// URLs, user name and credential.
pub type TurnRow = (String, Option<String>, Option<String>);

fn stun_server(url: &str) -> (s: RtcIceServer)
    ensures
        strings_view(s.urls@) == seq![url@],
        s.username is None,
        s.credential is None,
{
    let mut urls: Vec<String> = Vec::new();
    urls.push(url.to_owned());
    assert(strings_view(urls@) =~= seq![url@]);
    RtcIceServer { urls, username: None, credential: None }
}

/// The ICE servers handed to peers: the configured TURN servers, in order,
/// each with its URL list split; when none is configured or the list could
/// not be read (`None`), Google's two public STUN servers.
pub fn ice_servers_from_rows(rows: Option<Vec<TurnRow>>) -> (res: Vec<RtcIceServer>)
    ensures
        (rows matches Some(r) && r@.len() > 0) ==> (rows matches Some(r) && res@.len() == r@.len()
            && forall|i: int|
            0 <= i < r@.len() ==> strings_view((#[trigger] res@[i]).urls@) == url_list(r@[i].0@)
                && res@[i].username == r@[i].1 && res@[i].credential == r@[i].2),
        !(rows matches Some(r) && r@.len() > 0) ==> res@.len() == 2 && forall|i: int|
            0 <= i < 2 ==> strings_view((#[trigger] res@[i]).urls@) == seq![default_stun_urls()[i]]
                && res@[i].username is None && res@[i].credential is None,
{
    match rows {
        Some(r) => {
            if r.len() > 0 {
                let mut out: Vec<RtcIceServer> = Vec::new();
                let mut i: usize = 0;
                while i < r.len()
                    invariant
                        i <= r@.len(),
                        out@.len() == i,
                        forall|k: int|
                            0 <= k < i ==> strings_view((#[trigger] out@[k]).urls@) == url_list(
                                r@[k].0@,
                            ) && out@[k].username == r@[k].1 && out@[k].credential == r@[k].2,
                    decreases r@.len() - i,
                {
                    let urls = split_urls(r[i].0.as_str());
                    let username = match &r[i].1 {
                        Some(u) => Some(u.clone()),
                        None => None,
                    };
                    let credential = match &r[i].2 {
                        Some(c) => Some(c.clone()),
                        None => None,
                    };
                    out.push(RtcIceServer { urls, username, credential });
                    i = i + 1;
                }
                return out;
            }
        },
        None => {},
    }
    let mut out: Vec<RtcIceServer> = Vec::new();
    out.push(stun_server("stun:stun.l.google.com:19302"));
    out.push(stun_server("stun:stun1.l.google.com:19302"));
    out
}

/// Whether an agent presents the server's token: both sides compared once
/// trimmed, a missing token counting as empty.
pub fn agent_token_accepted(incoming: Option<&str>, expected: &str) -> (res: bool)
    ensures
        res == (trim(match incoming {
            Some(t) => t@,
            None => Seq::<char>::empty(),
        }) == trim(expected@)),
{
    let given = match incoming {
        Some(t) => trim_str(t),
        None => String::new(),
    };
    proof {
        if incoming is None {
            crate::text::lemma_trim_empty(Seq::<char>::empty());
            assert(trim(Seq::<char>::empty()) =~= Seq::<char>::empty());
        }
    }
    let wanted = trim_str(expected);
    str_eq(given.as_str(), wanted.as_str())
}

/// Why a pairing request is refused before any pairing starts.
#[derive(Debug, Clone, Copy, PartialEq, Eq, Structural)]
pub enum PairingError {
    MissingUsername,
    MissingPassword,
}

impl PairingError {
    /// The message of the refusal.
    pub fn message(&self) -> (m: &'static str)
        ensures
            m@ == match *self {
                PairingError::MissingUsername => "Sunshine Web UI username is required"@,
                PairingError::MissingPassword => "Sunshine Web UI password is required"@,
            },
    {
        match self {
            PairingError::MissingUsername => "Sunshine Web UI username is required",
            PairingError::MissingPassword => "Sunshine Web UI password is required",
        }
    }
}

/// What pairing a host asks of the request: a Sunshine user name that is
/// not blank, then a password that is not empty.
pub fn check_pairing_credentials(username: Option<&str>, password: Option<&str>) -> (res: Result<
    (),
    PairingError,
>)
    ensures
        !(username matches Some(u) && !blank(u@)) ==> res == Err::<(), PairingError>(
            PairingError::MissingUsername,
        ),
        (username matches Some(u) && !blank(u@)) && !(password matches Some(p) && p@.len() > 0)
            ==> res == Err::<(), PairingError>(PairingError::MissingPassword),
        (username matches Some(u) && !blank(u@)) && (password matches Some(p) && p@.len() > 0)
            ==> res is Ok,
{
    let user_ok = match username {
        Some(u) => !is_blank(u),
        None => false,
    };
    if !user_ok {
        return Err(PairingError::MissingUsername);
    }
    match password {
        Some(p) => {
            if p.is_empty() {
                Err(PairingError::MissingPassword)
            } else {
                Ok(())
            }
        },
        None => Err(PairingError::MissingPassword),
    }
}

/// The token agents must present: the trimmed token from the environment
/// when it is not blank, else the trimmed token from the token file when
/// that is not blank, else `None` (a fresh one is to be made).
pub fn configured_agent_token(env_token: Option<&str>, file_token: Option<&str>) -> (res: Option<
    String,
>)
    ensures
        (env_token matches Some(t) && trim(t@).len() > 0) ==> (env_token matches Some(t) && res matches Some(r) && r@ == trim(t@)),
        !(env_token matches Some(t) && trim(t@).len() > 0) && (file_token matches Some(t) && trim(t@).len() > 0) ==> (file_token matches Some(t) && res matches Some(r) && r@ == trim(t@)),
        !(env_token matches Some(t) && trim(t@).len() > 0) && !(file_token matches Some(t) && trim(t@).len() > 0) ==> res is None,
{
    match env_token {
        Some(t) => {
            let tt = trim_str(t);
            if !tt.as_str().is_empty() {
                return Some(tt);
            }
        },
        None => {},
    }
    match file_token {
        Some(t) => {
            let tt = trim_str(t);
            if !tt.as_str().is_empty() {
                return Some(tt);
            }
        },
        None => {},
    }
    None
}

/// The token agents must present, as `configured_agent_token` picks it, or
/// else the first sixteen digits of a fresh random UUID; the flag says that
/// the fresh token is to be written to the token file.
pub fn agent_token(env_token: Option<&str>, file_token: Option<&str>) -> (res: (String, bool))
    ensures
        match configured_agent_token_spec(env_token, file_token) {
            Some(t) => res.0@ == t && !res.1,
            None => res.1 && exists|u: Seq<char>| uuid_text(u) && res.0@ == #[trigger] token_from_uuid(u),
        },
{
    match configured_agent_token(env_token, file_token) {
        Some(t) => (t, false),
        None => (fresh_token(), true),
    }
}

/// The token `configured_agent_token` picks.
pub open spec fn configured_agent_token_spec(env_token: Option<&str>, file_token: Option<&str>) -> Option<Seq<char>> {
    if env_token matches Some(t) && trim(t@).len() > 0 {
        Some(trim(env_token->0@))
    } else if file_token matches Some(t) && trim(t@).len() > 0 {
        Some(trim(file_token->0@))
    } else {
        None
    }
}

/// The pairing PIN made from two bytes: their big-endian value modulo
/// 10000.
pub open spec fn pin_from_bytes(b0: u8, b1: u8) -> u32 {
    ((b0 as int * 256 + b1 as int) % 10000) as u32
}

/// The decimal digit `d` (0 to 9) as a character.
pub open spec fn digit_char(d: int) -> char {
    ('0' as int + d) as char
}

/// A PIN below 10000 as four digits, with leading zeros.
pub open spec fn pin_chars(pin: u32) -> Seq<char> {
    seq![
        digit_char(pin as int / 1000),
        digit_char((pin as int / 100) % 10),
        digit_char((pin as int / 10) % 10),
        digit_char(pin as int % 10),
    ]
}

/// The PIN the server shows the host for the client it pairs, from two
/// bytes of a random UUID.
pub fn pairing_pin(b0: u8, b1: u8) -> (pin: u32)
    ensures
        pin == pin_from_bytes(b0, b1),
        pin < 10000,
{
    ((b0 as u32) * 256 + (b1 as u32)) % 10000
}

/// The PIN as four digits, as it is submitted to Sunshine.
pub fn pin_text(pin: u32) -> (res: String)
    requires
        pin < 10000,
    ensures
        res@ == pin_chars(pin),
{
    let d = pin_digits(pin);
    let mut v: Vec<char> = Vec::new();
    v.push((d.0 + 48u8) as char);
    v.push((d.1 + 48u8) as char);
    v.push((d.2 + 48u8) as char);
    v.push((d.3 + 48u8) as char);
    assert(v@ =~= pin_chars(pin));
    string_from_chars(v.as_slice())
}

/// The PIN's four digits, most significant first.
pub fn pin_digits(pin: u32) -> (d: (u8, u8, u8, u8))
    requires
        pin < 10000,
    ensures
        d == ((pin / 1000) as u8, ((pin / 100) % 10) as u8, ((pin / 10) % 10) as u8, (pin % 10) as u8),
{
    ((pin / 1000) as u8, ((pin / 100) % 10) as u8, ((pin / 10) % 10) as u8, (pin % 10) as u8)
}

/// The value of a lower-case hexadecimal digit.
pub open spec fn hex_value(c: char) -> int {
    if '0' <= c && c <= '9' {
        c as int - '0' as int
    } else {
        c as int - 'a' as int + 10
    }
}

/// The pairing PIN made from a UUID's text: its first two bytes (the first
/// four hexadecimal digits), big-endian, modulo 10000.
pub open spec fn pin_from_uuid(u: Seq<char>) -> u32 {
    pin_from_bytes(
        (hex_value(u[0]) * 16 + hex_value(u[1])) as u8,
        (hex_value(u[2]) * 16 + hex_value(u[3])) as u8,
    )
}

fn hex_digit(c: char) -> (v: u8)
    requires
        is_lower_hex(c),
    ensures
        v == hex_value(c),
        v < 16,
{
    if '0' <= c && c <= '9' {
        ((c as u32) - 48) as u8
    } else {
        ((c as u32) - 87) as u8
    }
}

/// A fresh pairing PIN, from the first two bytes of a random UUID.
pub fn fresh_pairing_pin() -> (pin: u32)
    ensures
        pin < 10000,
        exists|u: Seq<char>| uuid_text(u) && pin == #[trigger] pin_from_uuid(u),
{
    let t = new_uuid_text();
    let c = chars_of(t.as_str());
    assert(is_lower_hex(c@[0]) && is_lower_hex(c@[1]) && is_lower_hex(c@[2]) && is_lower_hex(c@[3]));
    let b0 = hex_digit(c[0]) * 16 + hex_digit(c[1]);
    let b1 = hex_digit(c[2]) * 16 + hex_digit(c[3]);
    let pin = pairing_pin(b0, b1);
    assert(uuid_text(t@) && pin == pin_from_uuid(t@));
    pin
}

/// Where the server submits a PIN to the Sunshine host at `ip`.
pub fn sunshine_pin_url(ip: &str) -> (res: String)
    ensures
        res@ == "https://"@ + ip@ + ":47990/api/pin"@,
{
    let mut v = chars_of("https://");
    let a = chars_of(ip);
    let b = chars_of(":47990/api/pin");
    crate::text::push_all(&mut v, a.as_slice());
    crate::text::push_all(&mut v, b.as_slice());
    string_from_chars(v.as_slice())
}

} // verus!
