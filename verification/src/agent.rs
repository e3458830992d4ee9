//! The host agent's configuration and connection rules: its saved
//! configuration and the import that merges into it, the signaling URL it
//! dials, the codec support it announces, the encoder list it reports, and
//! the deep link it opens to launch the native client.

use crate::text::{
    bool_chars, bool_text, chars_of, concat_chars, decimal_chars, i64_decimal, push_all,
    signed_decimal_chars, starts_with, starts_with_chars, string_from_chars, u64_decimal,
};
use vstd::prelude::*;
use vstd::string::StringSliceAdditionalSpecFns;

verus! {

broadcast use vstd::string::group_string_axioms;

/// The agent's saved configuration (`agent_config.json`).
#[derive(Debug, Clone, PartialEq)]
pub struct AgentConfig {
    pub client_unique_id: String,
    pub client_private_key: String,
    pub client_certificate: String,
    pub server_certificate: String,
    pub server_url: String,
    pub server_token: String,
    pub webtransport_port: u16,
    pub autostart: bool,
    pub close_to_tray: bool,
}

pub open spec fn default_server_url_chars() -> Seq<char> {
    seq!['w', 's', ':', '/', '/', '1', '2', '7', '.', '0', '.', '0', '.', '1', ':', '8', '0', '8', '0']
}

/// The server URL used when the configuration names none.
pub fn default_server_url() -> (res: String)
    ensures
        res@ == default_server_url_chars(),
{
    let s = "ws://127.0.0.1:8080".to_string();
    proof {
        reveal_strlit("ws://127.0.0.1:8080");
    }
    assert(s@ =~= default_server_url_chars());
    s
}

/// The WebTransport port used when the configuration names none.
pub fn default_webtransport_port() -> (res: u16)
    ensures
        res == 55200,
{
    55200
}

/// The field of an imported configuration, or the existing one's when the
/// imported one is empty.
pub open spec fn keep_existing(imported: Seq<char>, existing: Seq<char>) -> Seq<char> {
    if imported.len() == 0 {
        existing
    } else {
        imported
    }
}

fn fill_if_empty(imported: String, existing: String) -> (res: String)
    ensures
        res@ == keep_existing(imported@, existing@),
{
    if imported.as_str().is_empty() {
        existing
    } else {
        imported
    }
}

/// The configuration an import saves: the imported one, with the identity
/// (unique id, private key, client and server certificates) taken from the
/// existing configuration wherever the imported one leaves it empty.
pub fn merge_imported_config(imported: AgentConfig, existing: Option<AgentConfig>) -> (res: AgentConfig)
    ensures
        match existing {
            None => res == imported,
            Some(e) => {
                &&& res.client_unique_id@ == keep_existing(
                    imported.client_unique_id@,
                    e.client_unique_id@,
                )
                &&& res.client_private_key@ == keep_existing(
                    imported.client_private_key@,
                    e.client_private_key@,
                )
                &&& res.client_certificate@ == keep_existing(
                    imported.client_certificate@,
                    e.client_certificate@,
                )
                &&& res.server_certificate@ == keep_existing(
                    imported.server_certificate@,
                    e.server_certificate@,
                )
                &&& res.server_url == imported.server_url
                &&& res.server_token == imported.server_token
                &&& res.webtransport_port == imported.webtransport_port
                &&& res.autostart == imported.autostart
                &&& res.close_to_tray == imported.close_to_tray
            },
        },
{
    match existing {
        None => imported,
        Some(e) => AgentConfig {
            client_unique_id: fill_if_empty(imported.client_unique_id, e.client_unique_id),
            client_private_key: fill_if_empty(imported.client_private_key, e.client_private_key),
            client_certificate: fill_if_empty(imported.client_certificate, e.client_certificate),
            server_certificate: fill_if_empty(imported.server_certificate, e.server_certificate),
            server_url: imported.server_url,
            server_token: imported.server_token,
            webtransport_port: imported.webtransport_port,
            autostart: imported.autostart,
            close_to_tray: imported.close_to_tray,
        },
    }
}

/// Importing never loses an identity that the existing configuration holds:
/// each identity field of the result is non-empty when either side's is.
pub proof fn law_import_keeps_identity(imported: Seq<char>, existing: Seq<char>)
    ensures
        (imported.len() > 0 || existing.len() > 0) ==> keep_existing(imported, existing).len() > 0,
        imported.len() > 0 ==> keep_existing(imported, existing) == imported,
{
}

// ---------------------------------------------------------------------------
// Signaling URL
// ---------------------------------------------------------------------------
pub open spec fn http_prefix() -> Seq<char> {
    seq!['h', 't', 't', 'p', ':', '/', '/']
}

pub open spec fn https_prefix() -> Seq<char> {
    seq!['h', 't', 't', 'p', 's', ':', '/', '/']
}

pub open spec fn ws_prefix() -> Seq<char> {
    seq!['w', 's', ':', '/', '/']
}

pub open spec fn wss_prefix() -> Seq<char> {
    seq!['w', 's', 's', ':', '/', '/']
}

/// The WebSocket form of a server URL: `http://` becomes `ws://`, `https://`
/// becomes `wss://`, a URL with neither a WebSocket nor an HTTP scheme gets
/// `ws://` in front.
pub open spec fn spec_websocket_url(url: Seq<char>) -> Seq<char> {
    if starts_with(url, http_prefix()) {
        ws_prefix() + url.subrange(7, url.len() as int)
    } else if starts_with(url, https_prefix()) {
        wss_prefix() + url.subrange(8, url.len() as int)
    } else if !starts_with(url, ws_prefix()) && !starts_with(url, wss_prefix()) {
        ws_prefix() + url
    } else {
        url
    }
}

/// The WebSocket form of a server URL.
pub fn websocket_url(url: &str) -> (res: Vec<char>)
    ensures
        res@ == spec_websocket_url(url@),
{
    let u = chars_of(url);
    let http: [char; 7] = ['h', 't', 't', 'p', ':', '/', '/'];
    let https: [char; 8] = ['h', 't', 't', 'p', 's', ':', '/', '/'];
    let ws: [char; 5] = ['w', 's', ':', '/', '/'];
    let wss: [char; 6] = ['w', 's', 's', ':', '/', '/'];
    assert(http@ =~= http_prefix());
    assert(https@ =~= https_prefix());
    assert(ws@ =~= ws_prefix());
    assert(wss@ =~= wss_prefix());
    if starts_with_chars(u.as_slice(), &http) {
        let rest = vstd::slice::slice_subrange(u.as_slice(), 7, u.len());
        concat_chars(&ws, rest)
    } else if starts_with_chars(u.as_slice(), &https) {
        let rest = vstd::slice::slice_subrange(u.as_slice(), 8, u.len());
        concat_chars(&wss, rest)
    } else if !starts_with_chars(u.as_slice(), &ws) && !starts_with_chars(u.as_slice(), &wss) {
        concat_chars(&ws, u.as_slice())
    } else {
        u
    }
}

/// `s` without its trailing `/` characters (`trim_end_matches('/')`).
pub open spec fn trim_trailing_slashes(s: Seq<char>) -> Seq<char>
    decreases s.len(),
{
    if s.len() > 0 && s.last() == '/' {
        trim_trailing_slashes(s.drop_last())
    } else {
        s
    }
}

pub(crate) fn trim_slashes(s: &[char]) -> (res: usize)
    ensures
        res <= s@.len(),
        s@.subrange(0, res as int) == trim_trailing_slashes(s@),
{
    let mut n = s.len();
    assert(s@.subrange(0, n as int) =~= s@);
    while n > 0 && s[n - 1] == '/'
        invariant
            n <= s@.len(),
            trim_trailing_slashes(s@) == trim_trailing_slashes(s@.subrange(0, n as int)),
        decreases n,
    {
        assert(s@.subrange(0, n as int).drop_last() =~= s@.subrange(0, n - 1));
        n = n - 1;
    }
    n
}

// ---------------------------------------------------------------------------
// Percent-encoding (urlencoding)
// ---------------------------------------------------------------------------
/// Bytes that percent-encoding leaves as they are: ASCII letters and digits,
/// `-`, `.`, `_` and `~`.
pub open spec fn is_unreserved(b: u8) -> bool {
    (48 <= b && b <= 57) || (65 <= b && b <= 90) || (97 <= b && b <= 122) || b == 45 || b == 46
        || b == 95 || b == 126
}

/// An upper-case hexadecimal digit.
pub open spec fn hex_upper(d: u8) -> char {
    if d < 10 {
        (48 + d) as char
    } else {
        (55 + d) as char
    }
}

/// Every byte percent-encoded (`%XX`, upper case) except the unreserved ones.
pub open spec fn percent_encode(bytes: Seq<u8>) -> Seq<char>
    decreases bytes.len(),
{
    if bytes.len() == 0 {
        Seq::empty()
    } else {
        let b = bytes[0];
        (if is_unreserved(b) {
            seq![b as char]
        } else {
            seq!['%', hex_upper(b / 16), hex_upper(b % 16)]
        }) + percent_encode(bytes.drop_first())
    }
}

/// `urlencoding::encode`: every byte of the UTF-8 encoding percent-encoded
/// except ASCII letters, digits, `-`, `.`, `_` and `~`, with upper-case hex
/// digits.
#[verifier::external_body]
fn url_encode(s: &str) -> (res: String)
    ensures
        res@ == percent_encode(s.spec_bytes()),
{
    urlencoding::encode(s).into_owned()
}

/// `/ws/agent?id=`.
pub open spec fn agent_path() -> Seq<char> {
    seq!['/', 'w', 's', '/', 'a', 'g', 'e', 'n', 't', '?', 'i', 'd', '=']
}

/// The signaling URL the agent dials: the WebSocket form of the server URL
/// without trailing slashes, `/ws/agent?id=` and the agent's id, `&name=`
/// and the percent-encoded name, `&codec_support=` and the codec bits when
/// known, `&token=` and the percent-encoded token.
pub open spec fn spec_agent_ws_url(
    server_url: Seq<char>,
    id: Seq<char>,
    name_bytes: Seq<u8>,
    codec_support: Option<u32>,
    token_bytes: Seq<u8>,
) -> Seq<char> {
    trim_trailing_slashes(spec_websocket_url(server_url)) + agent_path() + id + seq![
        '&',
        'n',
        'a',
        'm',
        'e',
        '=',
    ] + percent_encode(name_bytes) + match codec_support {
        Some(bits) => seq![
            '&',
            'c',
            'o',
            'd',
            'e',
            'c',
            '_',
            's',
            'u',
            'p',
            'p',
            'o',
            'r',
            't',
            '=',
        ] + decimal_chars(bits as nat),
        None => Seq::empty(),
    } + seq!['&', 't', 'o', 'k', 'e', 'n', '='] + percent_encode(token_bytes)
}

/// The agent's signaling URL.
pub fn agent_ws_url(
    server_url: &str,
    client_unique_id: &str,
    name: &str,
    codec_support: Option<u32>,
    server_token: &str,
) -> (res: String)
    ensures
        res@ == spec_agent_ws_url(
            server_url@,
            client_unique_id@,
            name.spec_bytes(),
            codec_support,
            server_token.spec_bytes(),
        ),
{
    let base = websocket_url(server_url);
    let n = trim_slashes(base.as_slice());
    let mut out: Vec<char> = Vec::new();
    push_all(&mut out, vstd::slice::slice_subrange(base.as_slice(), 0, n));
    let path: [char; 13] = ['/', 'w', 's', '/', 'a', 'g', 'e', 'n', 't', '?', 'i', 'd', '='];
    assert(path@ =~= agent_path());
    push_all(&mut out, &path);
    let id = chars_of(client_unique_id);
    push_all(&mut out, id.as_slice());
    let name_key: [char; 6] = ['&', 'n', 'a', 'm', 'e', '='];
    push_all(&mut out, &name_key);
    let encoded_name = url_encode(name);
    let name_chars = chars_of(encoded_name.as_str());
    push_all(&mut out, name_chars.as_slice());
    let ghost before_codec = out@;
    match codec_support {
        Some(bits) => {
            let codec_key: [char; 15] = [
                '&',
                'c',
                'o',
                'd',
                'e',
                'c',
                '_',
                's',
                'u',
                'p',
                'p',
                'o',
                'r',
                't',
                '=',
            ];
            push_all(&mut out, &codec_key);
            let digits = u64_decimal(bits as u64);
            push_all(&mut out, digits.as_slice());
        },
        None => {},
    }
    let token_key: [char; 7] = ['&', 't', 'o', 'k', 'e', 'n', '='];
    push_all(&mut out, &token_key);
    let encoded_token = url_encode(server_token);
    let token_chars = chars_of(encoded_token.as_str());
    push_all(&mut out, token_chars.as_slice());
    assert(out@ =~= spec_agent_ws_url(
        server_url@,
        client_unique_id@,
        name.spec_bytes(),
        codec_support,
        server_token.spec_bytes(),
    ));
    string_from_chars(out.as_slice())
}

/// The codec bits the agent announces: 262145 for H.264 and 1573632 for
/// H.265, or-ed together when both encode.
pub fn codec_support_bits(h264: bool, h265: bool) -> (res: u32)
    ensures
        res == (if h264 && h265 {
            1835777u32
        } else if h264 {
            262145u32
        } else if h265 {
            1573632u32
        } else {
            0u32
        }),
{
    let mut bits: u32 = 0;
    if h264 {
        bits = bits | 262145;
    }
    if h265 {
        bits = bits | 1573632;
    }
    assert((0u32 | 262145u32) == 262145u32) by (bit_vector);
    assert((0u32 | 1573632u32) == 1573632u32) by (bit_vector);
    assert((262145u32 | 1573632u32) == 1835777u32) by (bit_vector);
    bits
}

/// The wait before a new stream: 1200 ms less the time since the last stop
/// (the whole 1200 when the clock reads earlier than the stop), none when
/// no stream has stopped yet or 1200 ms have passed.
pub open spec fn restart_delay(last_stop_ms: u64, now_ms: u64) -> u64 {
    if last_stop_ms > 0 && now_ms - last_stop_ms < 1200 {
        if now_ms >= last_stop_ms {
            (1200 - (now_ms - last_stop_ms)) as u64
        } else {
            1200
        }
    } else {
        0
    }
}

/// How long to wait before setting up a new stream so that the encoder can
/// release the previous one: up to 1200 ms after the last stop (none when no
/// stream has stopped yet).
pub fn stream_restart_delay_ms(last_stop_ms: u64, now_ms: u64) -> (res: u64)
    ensures
        res == restart_delay(last_stop_ms, now_ms),
{
    if last_stop_ms > 0 {
        let elapsed = now_ms.saturating_sub(last_stop_ms);
        if elapsed < 1200 {
            return 1200 - elapsed;
        }
    }
    0
}

} // verus!

verus! {

// ---------------------------------------------------------------------------
// Encoder list reported to clients
// ---------------------------------------------------------------------------
/// `list` with `x` appended unless it already holds it.
pub open spec fn add_unique(list: Seq<Seq<char>>, x: Seq<char>) -> Seq<Seq<char>> {
    if list.contains(x) {
        list
    } else {
        list.push(x)
    }
}

pub open spec fn native_chars() -> Seq<char> {
    seq!['n', 'a', 't', 'i', 'v', 'e']
}

pub open spec fn ffmpeg_chars() -> Seq<char> {
    seq!['f', 'f', 'm', 'p', 'e', 'g']
}

pub open spec fn software_chars() -> Seq<char> {
    seq!['s', 'o', 'f', 't', 'w', 'a', 'r', 'e']
}

/// The encoder names after the first `n` available encoders: the generic
/// `native` and `ffmpeg` entries, then each encoder's name and its hardware
/// family, each once.
pub open spec fn encoders_after(available: Seq<(Seq<char>, Seq<char>)>, n: int) -> Seq<Seq<char>>
    decreases n,
{
    if n <= 0 {
        seq![native_chars(), ffmpeg_chars()]
    } else {
        add_unique(
            add_unique(encoders_after(available, n - 1), available[n - 1].0),
            available[n - 1].1,
        )
    }
}

/// The encoder list of a capabilities response: the generic entries, the
/// available encoders' names and hardware families, and `software` as the
/// fallback, each once, in order of first appearance.
pub open spec fn spec_capability_encoders(available: Seq<(Seq<char>, Seq<char>)>) -> Seq<Seq<char>> {
    add_unique(encoders_after(available, available.len() as int), software_chars())
}

pub open spec fn string_views(v: Seq<String>) -> Seq<Seq<char>> {
    v.map_values(|s: String| s@)
}

fn push_unique(list: &mut Vec<String>, x: String)
    ensures
        string_views(final(list)@) == add_unique(string_views(old(list)@), x@),
{
    let mut i: usize = 0;
    while i < list.len()
        invariant
            i <= list@.len(),
            forall|k: int| 0 <= k < i ==> list@[k]@ != x@,
        decreases list@.len() - i,
    {
        if list[i] == x {
            assert(string_views(list@)[i as int] == x@);
            assert(string_views(list@).contains(x@));
            return;
        }
        i = i + 1;
    }
    assert(!string_views(list@).contains(x@)) by {
        if string_views(list@).contains(x@) {
            let k = choose|k: int| 0 <= k < string_views(list@).len() && string_views(list@)[k] == x@;
            assert(list@[k]@ == x@);
        }
    }
    let ghost before = list@;
    list.push(x);
    assert(string_views(list@) =~= string_views(before).push(x@));
}

fn owned(s: &str) -> (res: String)
    ensures
        res@ == s@,
{
    s.to_owned()
}

/// The encoder list the agent reports for its available encoders, given as
/// (name, lower-case hardware family).
pub fn capability_encoders(available: Vec<(String, String)>) -> (res: Vec<String>)
    ensures
        string_views(res@) == spec_capability_encoders(
            available@.map_values(|p: (String, String)| (p.0@, p.1@)),
        ),
{
    let ghost avail = available@.map_values(|p: (String, String)| (p.0@, p.1@));
    let mut list: Vec<String> = Vec::new();
    proof {
        reveal_strlit("native");
        reveal_strlit("ffmpeg");
        reveal_strlit("software");
    }
    assert("native"@ =~= native_chars());
    assert("ffmpeg"@ =~= ffmpeg_chars());
    assert("software"@ =~= software_chars());
    list.push(owned("native"));
    list.push(owned("ffmpeg"));
    assert(string_views(list@) =~= encoders_after(avail, 0));
    let mut i: usize = 0;
    while i < available.len()
        invariant
            i <= available@.len(),
            avail == available@.map_values(|p: (String, String)| (p.0@, p.1@)),
            string_views(list@) == encoders_after(avail, i as int),
        decreases available@.len() - i,
    {
        let name = available[i].0.clone();
        let hw = available[i].1.clone();
        push_unique(&mut list, name);
        push_unique(&mut list, hw);
        i = i + 1;
    }
    push_unique(&mut list, owned("software"));
    list
}

proof fn lemma_add_unique_distinct(list: Seq<Seq<char>>, x: Seq<char>)
    requires
        list.no_duplicates(),
    ensures
        add_unique(list, x).no_duplicates(),
{
    if !list.contains(x) {
        assert forall|i: int, j: int|
            0 <= i < list.push(x).len() && 0 <= j < list.push(x).len() && i != j implies list.push(
            x,
        )[i] != list.push(x)[j] by {
            if i == list.len() as int {
                assert(list.push(x)[j] == list[j]);
            } else if j == list.len() as int {
                assert(list.push(x)[i] == list[i]);
            }
        }
    }
}

proof fn lemma_encoders_after_distinct(available: Seq<(Seq<char>, Seq<char>)>, n: int)
    ensures
        encoders_after(available, n).no_duplicates(),
    decreases n,
{
    if n <= 0 {
        assert(native_chars()[0] != ffmpeg_chars()[0]);
    } else {
        lemma_encoders_after_distinct(available, n - 1);
        lemma_add_unique_distinct(encoders_after(available, n - 1), available[n - 1].0);
        lemma_add_unique_distinct(
            add_unique(encoders_after(available, n - 1), available[n - 1].0),
            available[n - 1].1,
        );
    }
}

/// The reported encoder list names no encoder twice, always offers the
/// software fallback, and starts with the two generic entries.
pub proof fn law_capability_encoders_distinct(available: Seq<(Seq<char>, Seq<char>)>)
    ensures
        spec_capability_encoders(available).no_duplicates(),
        spec_capability_encoders(available).contains(software_chars()),
        spec_capability_encoders(available)[0] == native_chars(),
        spec_capability_encoders(available)[1] == ffmpeg_chars(),
{
    lemma_encoders_after_distinct(available, available.len() as int);
    lemma_add_unique_distinct(encoders_after(available, available.len() as int), software_chars());
    let l = encoders_after(available, available.len() as int);
    if !l.contains(software_chars()) {
        assert(l.push(software_chars())[l.len() as int] == software_chars());
    }
    lemma_encoders_prefix(available, available.len() as int);
}

proof fn lemma_encoders_prefix(available: Seq<(Seq<char>, Seq<char>)>, n: int)
    ensures
        encoders_after(available, n).len() >= 2,
        encoders_after(available, n)[0] == native_chars(),
        encoders_after(available, n)[1] == ffmpeg_chars(),
    decreases n,
{
    if n > 0 {
        lemma_encoders_prefix(available, n - 1);
    }
}

// ---------------------------------------------------------------------------
// Stopping a stream on request
// ---------------------------------------------------------------------------
pub open spec fn no_active_session_chars() -> Seq<char> {
    seq!['N', 'o', ' ', 'a', 'c', 't', 'i', 'v', 'e', ' ', 's', 'e', 's', 's', 'i', 'o', 'n']
}

/// The answer to a request to stop the active stream: success when a session
/// was running (and was closed), otherwise the error "No active session".
pub fn stop_stream_response(had_session: bool) -> (res: (bool, Option<String>))
    ensures
        res.0 == had_session,
        had_session ==> res.1 is None,
        !had_session ==> (res.1 matches Some(e) && e@ == no_active_session_chars()),
{
    if had_session {
        (true, None)
    } else {
        proof {
            reveal_strlit("No active session");
        }
        let e = owned("No active session");
        assert(e@ =~= no_active_session_chars());
        (false, Some(e))
    }
}

} // verus!

verus! {

// ---------------------------------------------------------------------------
// Launching the native client through its deep link
// ---------------------------------------------------------------------------
/// The server URL as the native client dials it: `https://` becomes
/// `wss://`, `http://` becomes `ws://`, anything else stays.
pub open spec fn spec_ws_scheme(url: Seq<char>) -> Seq<char> {
    if starts_with(url, https_prefix()) {
        wss_prefix() + url.subrange(8, url.len() as int)
    } else if starts_with(url, http_prefix()) {
        ws_prefix() + url.subrange(7, url.len() as int)
    } else {
        url
    }
}

/// `value`, or `fallback` when it is empty.
pub open spec fn or_default(value: Seq<char>, fallback: Seq<char>) -> Seq<char> {
    if value.len() == 0 {
        fallback
    } else {
        value
    }
}

/// `k1=v1&k2=v2...` for the given keys and (already encoded) values.
pub open spec fn query_string(pairs: Seq<(Seq<char>, Seq<char>)>) -> Seq<char>
    decreases pairs.len(),
{
    if pairs.len() == 0 {
        Seq::empty()
    } else if pairs.len() == 1 {
        pairs[0].0 + seq!['='] + pairs[0].1
    } else {
        query_string(pairs.drop_last()) + seq!['&'] + pairs.last().0 + seq!['='] + pairs.last().1
    }
}

fn append_query(out: &mut Vec<char>, pairs: &Vec<(Vec<char>, Vec<char>)>)
    ensures
        final(out)@ == old(out)@ + query_string(
            pairs@.map_values(|p: (Vec<char>, Vec<char>)| (p.0@, p.1@)),
        ),
{
    let ghost start = out@;
    let ghost views = pairs@.map_values(|p: (Vec<char>, Vec<char>)| (p.0@, p.1@));
    let mut i: usize = 0;
    while i < pairs.len()
        invariant
            i <= pairs@.len(),
            views == pairs@.map_values(|p: (Vec<char>, Vec<char>)| (p.0@, p.1@)),
            out@ == start + query_string(views.subrange(0, i as int)),
        decreases pairs@.len() - i,
    {
        let ghost before = out@;
        if i > 0 {
            out.push('&');
        }
        push_all(out, pairs[i].0.as_slice());
        out.push('=');
        push_all(out, pairs[i].1.as_slice());
        i = i + 1;
        let ghost sub = views.subrange(0, i as int);
        assert(sub.drop_last() =~= views.subrange(0, i - 1));
        if i == 1 {
            assert(out@ =~= start + query_string(sub));
        } else {
            assert(out@ =~= start + query_string(sub));
        }
    }
    assert(views.subrange(0, pairs@.len() as int) =~= views);
}

fn lit(s: &str) -> (res: Vec<char>)
    ensures
        res@ == s@,
{
    chars_of(s)
}

fn encoded(s: &str) -> (res: Vec<char>)
    ensures
        res@ == percent_encode(s.spec_bytes()),
{
    let e = url_encode(s);
    chars_of(e.as_str())
}

/// `lunaris://connect?`.
pub open spec fn connect_prefix() -> Seq<char> {
    seq!['l', 'u', 'n', 'a', 'r', 'i', 's', ':', '/', '/', 'c', 'o', 'n', 'n', 'e', 'c', 't', '?']
}

/// The query values of the launch link, in order.
pub open spec fn launch_pairs(
    host_id: Seq<char>,
    server_url: Seq<char>,
    token: Seq<char>,
    res: Seq<char>,
    fps: Seq<char>,
    bitrate: Seq<char>,
    codec: Seq<char>,
    app_id: i32,
    mouse_queue_limit: Seq<char>,
    host_name: Seq<char>,
    encoder: Seq<char>,
    display_id: Seq<char>,
    virtual_display: bool,
    input_protocol: Seq<char>,
) -> Seq<(Seq<char>, Seq<char>)> {
    let enc = |s: Seq<char>| percent_encode(vstd::utf8::encode_utf8(s));
    seq![
        ("host_id"@, enc(host_id)),
        ("server"@, enc(spec_ws_scheme(server_url))),
        ("token"@, enc(token)),
        ("res"@, enc(res)),
        ("fps"@, enc(fps)),
        ("bitrate"@, enc(bitrate)),
        ("codec"@, enc(codec)),
        ("mouse_queue_limit"@, enc(mouse_queue_limit)),
        ("host_name"@, enc(host_name)),
        ("app_id"@, signed_decimal_chars(app_id as int)),
        ("encoder"@, enc(or_default(encoder, "auto"@))),
        ("display"@, enc(or_default(display_id, "default"@))),
        ("virtual_display"@, bool_chars(virtual_display)),
        ("input_protocol"@, enc(or_default(input_protocol, "webrtc"@))),
    ]
}

fn ws_scheme(url: &str) -> (res: String)
    ensures
        res@ == spec_ws_scheme(url@),
{
    let u = chars_of(url);
    let http: [char; 7] = ['h', 't', 't', 'p', ':', '/', '/'];
    let https: [char; 8] = ['h', 't', 't', 'p', 's', ':', '/', '/'];
    let ws: [char; 5] = ['w', 's', ':', '/', '/'];
    let wss: [char; 6] = ['w', 's', 's', ':', '/', '/'];
    assert(http@ =~= http_prefix());
    assert(https@ =~= https_prefix());
    assert(ws@ =~= ws_prefix());
    assert(wss@ =~= wss_prefix());
    let v = if starts_with_chars(u.as_slice(), &https) {
        let rest = vstd::slice::slice_subrange(u.as_slice(), 8, u.len());
        concat_chars(&wss, rest)
    } else if starts_with_chars(u.as_slice(), &http) {
        let rest = vstd::slice::slice_subrange(u.as_slice(), 7, u.len());
        concat_chars(&ws, rest)
    } else {
        u
    };
    string_from_chars(v.as_slice())
}

fn or_default_str<'a>(value: &'a str, fallback: &'a str) -> (res: &'a str)
    ensures
        res@ == or_default(value@, fallback@),
{
    if value.is_empty() {
        fallback
    } else {
        value
    }
}

/// The deep link that opens the native client on a host's stream: the
/// server URL in its WebSocket scheme, every text value percent-encoded, an
/// empty encoder given as `auto`, an empty display as `default`, an empty
/// input protocol as `webrtc`.
pub fn native_client_link(
    host_id: &str,
    server_url: &str,
    token: &str,
    res: &str,
    fps: &str,
    bitrate: &str,
    codec: &str,
    app_id: i32,
    mouse_queue_limit: &str,
    host_name: &str,
    encoder: &str,
    display_id: &str,
    virtual_display: bool,
    input_protocol: &str,
) -> (link: String)
    ensures
        link@ == connect_prefix() + query_string(
            launch_pairs(
                host_id@,
                server_url@,
                token@,
                res@,
                fps@,
                bitrate@,
                codec@,
                app_id,
                mouse_queue_limit@,
                host_name@,
                encoder@,
                display_id@,
                virtual_display,
                input_protocol@,
            ),
        ),
{
    let ws_server = ws_scheme(server_url);
    let encoder_val = or_default_str(encoder, "auto");
    let display_val = or_default_str(display_id, "default");
    let input_val = or_default_str(input_protocol, "webrtc");
    let mut pairs: Vec<(Vec<char>, Vec<char>)> = Vec::new();
    pairs.push((lit("host_id"), encoded(host_id)));
    pairs.push((lit("server"), encoded(ws_server.as_str())));
    pairs.push((lit("token"), encoded(token)));
    pairs.push((lit("res"), encoded(res)));
    pairs.push((lit("fps"), encoded(fps)));
    pairs.push((lit("bitrate"), encoded(bitrate)));
    pairs.push((lit("codec"), encoded(codec)));
    pairs.push((lit("mouse_queue_limit"), encoded(mouse_queue_limit)));
    pairs.push((lit("host_name"), encoded(host_name)));
    pairs.push((lit("app_id"), i64_decimal(app_id as i64)));
    pairs.push((lit("encoder"), encoded(encoder_val)));
    pairs.push((lit("display"), encoded(display_val)));
    pairs.push((lit("virtual_display"), bool_text(virtual_display)));
    pairs.push((lit("input_protocol"), encoded(input_val)));
    let mut out = lit("lunaris://connect?");
    proof {
        reveal_strlit("lunaris://connect?");
    }
    assert(out@ =~= connect_prefix());
    append_query(&mut out, &pairs);
    assert(pairs@.map_values(|p: (Vec<char>, Vec<char>)| (p.0@, p.1@)) =~= launch_pairs(
        host_id@,
        server_url@,
        token@,
        res@,
        fps@,
        bitrate@,
        codec@,
        app_id,
        mouse_queue_limit@,
        host_name@,
        encoder@,
        display_id@,
        virtual_display,
        input_protocol@,
    ));
    string_from_chars(out.as_slice())
}

} // verus!

verus! {

/// `hostname::get()`: the machine's host name as text (invalid Unicode
/// replaced, as `to_string_lossy` does) and whether it was valid Unicode;
/// `None` when it cannot be read. Nothing is stated of the name itself: it
/// depends on the machine.
#[verifier::external_body]
pub(crate) fn machine_hostname() -> (res: Option<(String, bool)>)
{
    match hostname::get() {
        Ok(h) => Some((h.to_string_lossy().into_owned(), h.to_str().is_some())),
        Err(_) => None,
    }
}

/// The name an agent registers under: the one given, else the machine's
/// host name, else `LunarisHost`.
pub fn agent_name_from(given: Option<String>, host: Option<(String, bool)>) -> (res: String)
    ensures
        res@ == match given {
            Some(n) => n@,
            None => match host {
                Some(h) => h.0@,
                None => "LunarisHost"@,
            },
        },
{
    match given {
        Some(n) => n,
        None => match host {
            Some(h) => h.0,
            None => "LunarisHost".to_owned(),
        },
    }
}

/// The name an agent registers under, reading the machine's host name when
/// none is given.
pub fn agent_name(given: Option<String>) -> (res: String)
    ensures
        given matches Some(n) ==> res == n,
{
    match given {
        Some(n) => n,
        None => agent_name_from(None, machine_hostname()),
    }
}

} // verus!
