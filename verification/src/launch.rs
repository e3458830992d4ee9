//! How the native client reads its session settings: from a
//! `lunaris://connect?...` deep link, and from command-line flags.

use crate::agent::{connect_prefix, is_unreserved, launch_pairs, or_default, percent_encode, query_string, spec_ws_scheme};
use crate::client_bridge::{AppArgs, ArgsModel};
use crate::text::{
    chars_of, concat_chars, decimal_chars, eq_ignore_ascii_case, is_whitespace, parse_u32,
    parse_u32_chars, parse_u32_str, push_all, spec_to_lowercase, starts_with, starts_with_chars,
    bool_chars, signed_decimal_chars, str_eq, str_eq_ignore_ascii_case, string_from_chars, to_lowercase, trailing_run, trim,
    trim_str, u64_decimal, utf8_lossy, whitespace_run,
};
use crate::version::{split_chars, split_on};
use vstd::prelude::*;

verus! {

broadcast use vstd::string::group_string_axioms;

/// A resolution written `WIDTHxHEIGHT`: exactly two parts around `x`, each a
/// `u32`.
pub open spec fn spec_parse_resolution(s: Seq<char>) -> Option<(u32, u32)> {
    let parts = split_on(s, 'x');
    if parts.len() == 2 && parse_u32(parts[0]) is Some && parse_u32(parts[1]) is Some {
        Some((parse_u32(parts[0])->0, parse_u32(parts[1])->0))
    } else {
        None
    }
}

/// Reads a resolution written `WIDTHxHEIGHT`.
pub fn parse_resolution(s: &str) -> (res: Option<(u32, u32)>)
    ensures
        res == spec_parse_resolution(s@),
{
    let c = chars_of(s);
    let parts = split_chars(c.as_slice(), 'x');
    if parts.len() != 2 {
        return None;
    }
    let w = &parts[0];
    let h = &parts[1];
    assert(w@.subrange(0, w@.len() as int) =~= w@);
    assert(h@.subrange(0, h@.len() as int) =~= h@);
    match (parse_u32_chars(w.as_slice(), 0, w.len()), parse_u32_chars(h.as_slice(), 0, h.len())) {
        (Some(a), Some(b)) => Some((a, b)),
        _ => None,
    }
}

/// A value that stands for "no choice": empty, or the given word.
pub open spec fn unset_or(value: Seq<char>, word: Seq<char>) -> Option<Seq<char>> {
    if value.len() == 0 || value == word {
        None
    } else {
        Some(value)
    }
}

/// `value`, unless it is empty or the given word.
pub fn optional_value(value: String, word: &str) -> (res: Option<String>)
    ensures
        opt_view(res) == unset_or(value@, word@),
{
    if value.as_str().is_empty() || str_eq(value.as_str(), word) {
        None
    } else {
        Some(value)
    }
}

/// The characters of an optional string.
pub open spec fn opt_view(s: Option<String>) -> Option<Seq<char>> {
    match s {
        Some(v) => Some(v@),
        None => None,
    }
}

/// What a value that `str::parse::<bool>` reads, or `1`, makes of the CUDA
/// switch; any other value leaves it as it was.
pub open spec fn cuda_switch(v: Seq<char>, before: bool) -> bool {
    if v == "true"@ || v == "1"@ {
        true
    } else if v == "false"@ {
        false
    } else {
        before
    }
}

/// The settings a deep link starts from.
pub open spec fn link_defaults() -> ArgsModel {
    ArgsModel {
        host_id: Seq::empty(),
        server_url: Seq::empty(),
        token: Seq::empty(),
        width: 1920,
        height: 1080,
        fps: 60,
        bitrate: 8000,
        codec: "h264"@,
        app_id: None,
        mouse_queue_limit: 256,
        host_name: "Desktop • Host"@,
        disable_cuda: false,
        input_protocol: "webrtc"@,
        encoder: None,
        display_id: None,
        virtual_display: false,
    }
}

/// The settings the command line starts from.
pub open spec fn cli_defaults() -> ArgsModel {
    ArgsModel { width: 1280, height: 720, ..link_defaults() }
}

/// What one query pair of a deep link does to the settings. Keys it does
/// not know, and numbers that do not parse, change nothing.
pub open spec fn link_step(m: ArgsModel, k: Seq<char>, v: Seq<char>) -> ArgsModel {
    if k == "host_id"@ {
        ArgsModel { host_id: v, ..m }
    } else if k == "server"@ {
        ArgsModel { server_url: v, ..m }
    } else if k == "token"@ {
        ArgsModel { token: v, ..m }
    } else if k == "host_name"@ {
        ArgsModel { host_name: v, ..m }
    } else if k == "input_protocol"@ {
        ArgsModel { input_protocol: spec_to_lowercase(v), ..m }
    } else if k == "encoder"@ {
        match unset_or(spec_to_lowercase(v), "auto"@) {
            Some(e) => ArgsModel { encoder: Some(e), ..m },
            None => m,
        }
    } else if k == "display"@ || k == "display_id"@ {
        match unset_or(v, "default"@) {
            Some(d) => ArgsModel { display_id: Some(d), ..m },
            None => m,
        }
    } else if k == "virtual_display"@ {
        ArgsModel { virtual_display: v == "1"@ || eq_ignore_ascii_case(v, "true"@), ..m }
    } else if k == "app_id"@ {
        match parse_u32(v) {
            Some(id) => ArgsModel { app_id: Some(id), ..m },
            None => m,
        }
    } else if k == "res"@ {
        match spec_parse_resolution(v) {
            Some((w, h)) => ArgsModel { width: w, height: h, ..m },
            None => m,
        }
    } else if k == "fps"@ {
        match parse_u32(v) {
            Some(f) => ArgsModel { fps: f, ..m },
            None => m,
        }
    } else if k == "bitrate"@ {
        match parse_u32(v) {
            Some(b) => ArgsModel { bitrate: b, ..m },
            None => m,
        }
    } else if k == "codec"@ {
        ArgsModel { codec: spec_to_lowercase(v), ..m }
    } else if k == "mouse_queue_limit"@ {
        match parse_u32(v) {
            Some(l) => ArgsModel { mouse_queue_limit: l, ..m },
            None => m,
        }
    } else if k == "disable_cuda"@ {
        ArgsModel { disable_cuda: cuda_switch(v, m.disable_cuda), ..m }
    } else {
        m
    }
}

/// The settings after the query pairs, applied in order.
pub open spec fn link_settings(pairs: Seq<(Seq<char>, Seq<char>)>) -> ArgsModel
    decreases pairs.len(),
{
    if pairs.len() == 0 {
        link_defaults()
    } else {
        let last = pairs.last();
        link_step(link_settings(pairs.drop_last()), last.0, last.1)
    }
}

/// A session needs a host, a server and a token.
pub open spec fn complete(m: ArgsModel) -> bool {
    m.host_id.len() > 0 && m.server_url.len() > 0 && m.token.len() > 0
}

/// The session a deep link's query describes, when it names a host, a
/// server and a token.
pub open spec fn link_args(pairs: Seq<(Seq<char>, Seq<char>)>) -> Option<ArgsModel> {
    if complete(link_settings(pairs)) {
        Some(link_settings(pairs))
    } else {
        None
    }
}

/// The decoded query pairs `url::Url::parse` and `Url::query_pairs` give for
/// a URL, or `None` when the text is not a URL.
pub uninterp spec fn url_query(url: Seq<char>) -> Option<Seq<(Seq<char>, Seq<char>)>>;

/// A character that percent-encoding leaves as it is: an ASCII letter or
/// digit, `-`, `.`, `_` or `~`.
pub open spec fn unreserved_char(c: char) -> bool {
    ('0' <= c && c <= '9') || ('A' <= c && c <= 'Z') || ('a' <= c && c <= 'z') || c == '-' || c
        == '.' || c == '_' || c == '~'
}

/// A query key that needs no escaping: not empty, unreserved characters only.
pub open spec fn plain_key(k: Seq<char>) -> bool {
    k.len() > 0 && forall|i: int| 0 <= i < k.len() ==> unreserved_char(#[trigger] k[i])
}

/// Query pairs (a key and the bytes of a value) whose keys need no escaping
/// and whose values are UTF-8.
pub open spec fn form_safe(ps: Seq<(Seq<char>, Seq<u8>)>) -> bool {
    forall|i: int|
        0 <= i < ps.len() ==> plain_key((#[trigger] ps[i]).0) && vstd::utf8::valid_utf8(ps[i].1)
}

/// The pairs as a query writes them: each value's bytes percent-encoded.
pub open spec fn escaped_pairs(ps: Seq<(Seq<char>, Seq<u8>)>) -> Seq<(Seq<char>, Seq<char>)> {
    ps.map_values(|p: (Seq<char>, Seq<u8>)| (p.0, percent_encode(p.1)))
}

/// The pairs as a parsed query gives them: each value's bytes read as UTF-8.
pub open spec fn decoded_pairs(ps: Seq<(Seq<char>, Seq<u8>)>) -> Seq<(Seq<char>, Seq<char>)> {
    ps.map_values(|p: (Seq<char>, Seq<u8>)| (p.0, vstd::utf8::decode_utf8(p.1)))
}

/// Parses `s` with `url::Url::parse` and hands out `Url::query_pairs`, each
/// name and value decoded and owned; `None` when the parse fails. What the
/// parse and the decoding give is named `url_query`, a function of the text.
/// One case is stated in full: a `lunaris://connect?` link whose query is
/// `key=value` pairs joined by `&`, each key unreserved characters and each
/// value percent-encoded bytes. The parser keeps such a query as written
/// (it holds no character the parser escapes in a query, and no `#`), and
/// `query_pairs` (`form_urlencoded::parse`) splits it at each `&` and the
/// first `=`, and percent-decodes each part, which holds no `+`: the pairs
/// come back as the keys and the values' bytes read as UTF-8.
#[verifier::external_body]
fn parse_url_query(s: &str) -> (res: Option<Vec<(String, String)>>)
    ensures
        match url_query(s@) {
            None => res is None,
            Some(q) => res matches Some(v) && v@.len() == q.len() && forall|i: int|
                0 <= i < q.len() ==> (#[trigger] v@[i]).0@ == q[i].0 && v@[i].1@ == q[i].1,
        },
        forall|ps: Seq<(Seq<char>, Seq<u8>)>|
            #![trigger escaped_pairs(ps)]
            form_safe(ps) && s@ == connect_prefix() + query_string(escaped_pairs(ps)) ==> res is Some
                && pairs_view(res->0@) == decoded_pairs(ps),
{
    match url::Url::parse(s) {
        Ok(u) => Some(u.query_pairs().map(|(k, v)| (k.into_owned(), v.into_owned())).collect()),
        Err(_) => None,
    }
}

/// The name and value of each query pair, as characters.
pub open spec fn pairs_view(v: Seq<(String, String)>) -> Seq<(Seq<char>, Seq<char>)> {
    v.map_values(|p: (String, String)| (p.0@, p.1@))
}

fn link_defaults_args() -> (res: AppArgs)
    ensures
        res@ == link_defaults(),
{
    AppArgs {
        host_id: String::new(),
        server_url: String::new(),
        token: String::new(),
        width: 1920,
        height: 1080,
        fps: 60,
        bitrate: 8000,
        codec: "h264".to_owned(),
        app_id: None,
        mouse_queue_limit: 256,
        host_name: "Desktop • Host".to_owned(),
        disable_cuda: false,
        input_protocol: "webrtc".to_owned(),
        encoder: None,
        display_id: None,
        virtual_display: false,
    }
}

/// Applies one query pair of a deep link.
fn apply_link_pair(cur: &mut AppArgs, k: &str, v: &str)
    ensures
        final(cur)@ == link_step(old(cur)@, k@, v@),
{
    if str_eq(k, "host_id") {
        cur.host_id = v.to_owned();
    } else if str_eq(k, "server") {
        cur.server_url = v.to_owned();
    } else if str_eq(k, "token") {
        cur.token = v.to_owned();
    } else if str_eq(k, "host_name") {
        cur.host_name = v.to_owned();
    } else if str_eq(k, "input_protocol") {
        cur.input_protocol = to_lowercase(v);
    } else if str_eq(k, "encoder") {
        if let Some(e) = optional_value(to_lowercase(v), "auto") {
            cur.encoder = Some(e);
        }
    } else if str_eq(k, "display") || str_eq(k, "display_id") {
        if let Some(d) = optional_value(v.to_owned(), "default") {
            cur.display_id = Some(d);
        }
    } else if str_eq(k, "virtual_display") {
        cur.virtual_display = str_eq(v, "1") || str_eq_ignore_ascii_case(v, "true");
    } else if str_eq(k, "app_id") {
        if let Some(id) = parse_u32_str(v) {
            cur.app_id = Some(id);
        }
    } else if str_eq(k, "res") {
        if let Some((w, h)) = parse_resolution(v) {
            cur.width = w;
            cur.height = h;
        }
    } else if str_eq(k, "fps") {
        if let Some(f) = parse_u32_str(v) {
            cur.fps = f;
        }
    } else if str_eq(k, "bitrate") {
        if let Some(b) = parse_u32_str(v) {
            cur.bitrate = b;
        }
    } else if str_eq(k, "codec") {
        cur.codec = to_lowercase(v);
    } else if str_eq(k, "mouse_queue_limit") {
        if let Some(l) = parse_u32_str(v) {
            cur.mouse_queue_limit = l;
        }
    } else if str_eq(k, "disable_cuda") {
        if str_eq(v, "true") || str_eq(v, "1") {
            cur.disable_cuda = true;
        } else if str_eq(v, "false") {
            cur.disable_cuda = false;
        }
    }
}

/// The session a deep link's decoded query pairs describe: each known key
/// sets its setting, later pairs over earlier ones; `None` unless a host, a
/// server and a token are named.
pub fn apply_link_query(pairs: &Vec<(String, String)>) -> (res: Option<AppArgs>)
    ensures
        match link_args(pairs_view(pairs@)) {
            Some(m) => res matches Some(a) && a@ == m,
            None => res is None,
        },
{
    let mut cur = link_defaults_args();
    let mut i: usize = 0;
    while i < pairs.len()
        invariant
            i <= pairs@.len(),
            cur@ == link_settings(pairs_view(pairs@).take(i as int)),
        decreases pairs@.len() - i,
    {
        let ghost before = cur@;
        apply_link_pair(&mut cur, pairs[i].0.as_str(), pairs[i].1.as_str());
        assert(pairs_view(pairs@).take(i + 1).drop_last() =~= pairs_view(pairs@).take(i as int));
        i = i + 1;
    }
    assert(pairs_view(pairs@).take(i as int) =~= pairs_view(pairs@));
    if !cur.host_id.as_str().is_empty() && !cur.server_url.as_str().is_empty()
        && !cur.token.as_str().is_empty() {
        Some(cur)
    } else {
        None
    }
}

/// The session a `lunaris://` deep link describes: `None` for any other
/// text, for text that is not a URL, and for a link that does not name a
/// host, a server and a token.
pub fn parse_deeplink_url(url_str: &str) -> (res: Option<AppArgs>)
    ensures
        !starts_with(url_str@, "lunaris://"@) ==> res is None,
        starts_with(url_str@, "lunaris://"@) && url_query(url_str@) is None ==> res is None,
        starts_with(url_str@, "lunaris://"@) ==> (url_query(url_str@) matches Some(q) ==> match link_args(q) {
            Some(m) => res matches Some(a) && a@ == m,
            None => res is None,
        }),
        forall|ps: Seq<(Seq<char>, Seq<u8>)>|
            #![trigger escaped_pairs(ps)]
            form_safe(ps) && url_str@ == connect_prefix() + query_string(escaped_pairs(ps))
                ==> opt_args_view(res) == link_args(decoded_pairs(ps)),
{
    proof {
        reveal_strlit("lunaris://");
        assert forall|ps: Seq<(Seq<char>, Seq<u8>)>|
            #![trigger escaped_pairs(ps)]
            url_str@ == connect_prefix() + query_string(escaped_pairs(ps)) implies starts_with(
            url_str@,
            "lunaris://"@,
        ) by {
            assert(url_str@.subrange(0, 10) =~= "lunaris://"@);
        }
    }
    let c = chars_of(url_str);
    let p = chars_of("lunaris://");
    if !starts_with_chars(c.as_slice(), p.as_slice()) {
        return None;
    }
    match parse_url_query(url_str) {
        Some(pairs) => {
            proof {
                let q = url_query(url_str@)->0;
                assert(pairs_view(pairs@) =~= q);
            }
            apply_link_query(&pairs)
        },
        None => None,
    }
}

/// The command-line options that take a value; every other argument is
/// passed over on its own.
pub open spec fn takes_value(flag: Seq<char>) -> bool {
    flag == "--host-id"@ || flag == "--server"@ || flag == "--token"@ || flag == "--host-name"@
        || flag == "--input-protocol"@ || flag == "--render-backend"@ || flag == "--gpu-backend"@
        || flag == "--decode-backend"@ || flag == "--encoder"@ || flag == "--display"@ || flag
        == "--display-id"@ || flag == "--app-id"@ || flag == "--res"@ || flag == "--fps"@ || flag
        == "--bitrate"@ || flag == "--codec"@ || flag == "--mouse-queue-limit"@
}

/// How many arguments an option and its value take.
pub open spec fn cli_step(flag: Seq<char>) -> int {
    if takes_value(flag) {
        2
    } else {
        1
    }
}

/// What an option and the argument after it do to the settings. A render
/// backend is read and passed over; numbers that do not parse change nothing.
pub open spec fn cli_option(m: ArgsModel, flag: Seq<char>, value: Seq<char>) -> ArgsModel {
    if flag == "--host-id"@ {
        ArgsModel { host_id: value, ..m }
    } else if flag == "--server"@ {
        ArgsModel { server_url: value, ..m }
    } else if flag == "--token"@ {
        ArgsModel { token: value, ..m }
    } else if flag == "--host-name"@ {
        ArgsModel { host_name: value, ..m }
    } else if flag == "--input-protocol"@ {
        ArgsModel { input_protocol: spec_to_lowercase(value), ..m }
    } else if flag == "--render-backend"@ || flag == "--gpu-backend"@ || flag == "--decode-backend"@ {
        m
    } else if flag == "--encoder"@ {
        ArgsModel { encoder: unset_or(spec_to_lowercase(value), "auto"@), ..m }
    } else if flag == "--display"@ || flag == "--display-id"@ {
        ArgsModel { display_id: unset_or(value, "default"@), ..m }
    } else if flag == "--app-id"@ {
        match parse_u32(value) {
            Some(id) => ArgsModel { app_id: Some(id), ..m },
            None => m,
        }
    } else if flag == "--res"@ {
        match spec_parse_resolution(value) {
            Some((w, h)) => ArgsModel { width: w, height: h, ..m },
            None => m,
        }
    } else if flag == "--fps"@ {
        match parse_u32(value) {
            Some(f) => ArgsModel { fps: f, ..m },
            None => m,
        }
    } else if flag == "--bitrate"@ {
        match parse_u32(value) {
            Some(b) => ArgsModel { bitrate: b, ..m },
            None => m,
        }
    } else if flag == "--codec"@ {
        ArgsModel { codec: spec_to_lowercase(value), ..m }
    } else if flag == "--mouse-queue-limit"@ {
        match parse_u32(value) {
            Some(l) => ArgsModel { mouse_queue_limit: l, ..m },
            None => m,
        }
    } else {
        m
    }
}

/// The settings after reading the arguments from position `i` on: the two
/// switches stand alone, an option takes the argument after it, and a last
/// argument without a value ends the reading.
pub open spec fn cli_scan(args: Seq<Seq<char>>, i: int, m: ArgsModel) -> ArgsModel
    decreases args.len() - i,
{
    if i < 0 || i >= args.len() {
        m
    } else if args[i] == "--disable-cuda"@ {
        cli_scan(args, i + 1, ArgsModel { disable_cuda: true, ..m })
    } else if args[i] == "--virtual-display"@ {
        cli_scan(args, i + 1, ArgsModel { virtual_display: true, ..m })
    } else if i + 1 >= args.len() {
        m
    } else {
        cli_scan(args, i + cli_step(args[i]), cli_option(m, args[i], args[i + 1]))
    }
}

/// The session the program's arguments describe (the program's name first):
/// a `lunaris://` deep link as the first argument, else the options; `None`
/// unless a host, a server and a token are given.
pub open spec fn spec_parse_args(args: Seq<Seq<char>>) -> Option<ArgsModel> {
    if args.len() < 2 {
        None
    } else if starts_with(args[1], "lunaris://"@) {
        match url_query(args[1]) {
            Some(q) => link_args(q),
            None => None,
        }
    } else {
        let m = cli_scan(args, 1, cli_defaults());
        if complete(m) {
            Some(m)
        } else {
            None
        }
    }
}

/// The settings of an optional session.
pub open spec fn opt_args_view(a: Option<AppArgs>) -> Option<ArgsModel> {
    match a {
        Some(v) => Some(v@),
        None => None,
    }
}

/// The characters of each argument.
pub open spec fn strings_view(v: Seq<String>) -> Seq<Seq<char>> {
    v.map_values(|s: String| s@)
}

/// Applies an option and the argument after it; gives how many arguments
/// were read.
fn apply_cli_option(cur: &mut AppArgs, flag: &str, value: &str) -> (step: usize)
    ensures
        final(cur)@ == cli_option(old(cur)@, flag@, value@),
        step == cli_step(flag@),
{
    if str_eq(flag, "--host-id") {
        cur.host_id = value.to_owned();
        2
    } else if str_eq(flag, "--server") {
        cur.server_url = value.to_owned();
        2
    } else if str_eq(flag, "--token") {
        cur.token = value.to_owned();
        2
    } else if str_eq(flag, "--host-name") {
        cur.host_name = value.to_owned();
        2
    } else if str_eq(flag, "--input-protocol") {
        cur.input_protocol = to_lowercase(value);
        2
    } else if str_eq(flag, "--render-backend") || str_eq(flag, "--gpu-backend") || str_eq(
        flag,
        "--decode-backend",
    ) {
        2
    } else if str_eq(flag, "--encoder") {
        cur.encoder = optional_value(to_lowercase(value), "auto");
        2
    } else if str_eq(flag, "--display") || str_eq(flag, "--display-id") {
        cur.display_id = optional_value(value.to_owned(), "default");
        2
    } else if str_eq(flag, "--app-id") {
        if let Some(id) = parse_u32_str(value) {
            cur.app_id = Some(id);
        }
        2
    } else if str_eq(flag, "--res") {
        if let Some((w, h)) = parse_resolution(value) {
            cur.width = w;
            cur.height = h;
        }
        2
    } else if str_eq(flag, "--fps") {
        if let Some(f) = parse_u32_str(value) {
            cur.fps = f;
        }
        2
    } else if str_eq(flag, "--bitrate") {
        if let Some(b) = parse_u32_str(value) {
            cur.bitrate = b;
        }
        2
    } else if str_eq(flag, "--codec") {
        cur.codec = to_lowercase(value);
        2
    } else if str_eq(flag, "--mouse-queue-limit") {
        if let Some(l) = parse_u32_str(value) {
            cur.mouse_queue_limit = l;
        }
        2
    } else {
        1
    }
}

/// Reads the session from the program's arguments, the program's name
/// first.
pub fn parse_args(args: &Vec<String>) -> (res: Option<AppArgs>)
    ensures
        opt_args_view(res) == spec_parse_args(strings_view(args@)),
{
    let ghost av = strings_view(args@);
    if args.len() < 2 {
        return None;
    }
    let first = chars_of(args[1].as_str());
    let prefix = chars_of("lunaris://");
    if starts_with_chars(first.as_slice(), prefix.as_slice()) {
        let r = parse_deeplink_url(args[1].as_str());
        assert(av[1] == args@[1]@);
        return r;
    }
    let mut cur = link_defaults_args();
    cur.width = 1280;
    cur.height = 720;
    let mut i: usize = 1;
    let mut stop = false;
    while i < args.len() && !stop
        invariant
            av == strings_view(args@),
            1 <= i <= args@.len(),
            cli_scan(av, i as int, cur@) == cli_scan(av, 1, cli_defaults()),
            stop ==> cli_scan(av, i as int, cur@) == cur@,
        decreases args@.len() - i, (if stop { 0int } else { 1int }),
    {
        let a = args[i].as_str();
        assert(av[i as int] == a@);
        if str_eq(a, "--disable-cuda") {
            cur.disable_cuda = true;
            i = i + 1;
        } else if str_eq(a, "--virtual-display") {
            cur.virtual_display = true;
            i = i + 1;
        } else if i + 1 >= args.len() {
            stop = true;
        } else {
            assert(av[i + 1] == args@[i + 1]@);
            let step = apply_cli_option(&mut cur, a, args[i + 1].as_str());
            i = i + step;
        }
    }
    if !cur.host_id.as_str().is_empty() && !cur.server_url.as_str().is_empty()
        && !cur.token.as_str().is_empty() {
        Some(cur)
    } else {
        None
    }
}

} // verus!

verus! {

/// The session settings of the desktop client.
#[derive(Debug, Clone, PartialEq)]
pub struct DesktopArgs {
    pub host_id: String,
    pub server_url: String,
    pub token: String,
    pub width: u32,
    pub height: u32,
    pub fps: u32,
    pub bitrate: u32,
    pub codec: String,
    pub app_id: Option<u32>,
}

/// Whether the desktop client's settings are those of the model.
pub open spec fn desktop_matches(d: DesktopArgs, m: ArgsModel) -> bool {
    &&& d.host_id@ == m.host_id
    &&& d.server_url@ == m.server_url
    &&& d.token@ == m.token
    &&& d.width == m.width
    &&& d.height == m.height
    &&& d.fps == m.fps
    &&& d.bitrate == m.bitrate
    &&& d.codec@ == m.codec
    &&& d.app_id == m.app_id
}

/// The link keys the desktop client reads.
pub open spec fn desktop_key(k: Seq<char>) -> bool {
    k == "host_id"@ || k == "server"@ || k == "token"@ || k == "app_id"@ || k == "res"@ || k
        == "fps"@ || k == "bitrate"@ || k == "codec"@
}

/// What one query pair of a deep link does to the desktop client's settings.
pub open spec fn desktop_link_step(m: ArgsModel, k: Seq<char>, v: Seq<char>) -> ArgsModel {
    if desktop_key(k) {
        link_step(m, k, v)
    } else {
        m
    }
}

/// The desktop client's settings after the query pairs, in order.
pub open spec fn desktop_link_settings(pairs: Seq<(Seq<char>, Seq<char>)>) -> ArgsModel
    decreases pairs.len(),
{
    if pairs.len() == 0 {
        link_defaults()
    } else {
        let last = pairs.last();
        desktop_link_step(desktop_link_settings(pairs.drop_last()), last.0, last.1)
    }
}

/// The options the desktop client reads; each takes the argument after it.
pub open spec fn desktop_flag(f: Seq<char>) -> bool {
    f == "--host-id"@ || f == "--server"@ || f == "--token"@ || f == "--app-id"@ || f == "--res"@
        || f == "--fps"@ || f == "--bitrate"@ || f == "--codec"@
}

/// The desktop client's settings after reading the arguments from position
/// `i` on: a known option takes the argument after it, anything else is
/// passed over; the last argument is never read as an option.
pub open spec fn desktop_scan(args: Seq<Seq<char>>, i: int, m: ArgsModel) -> ArgsModel
    decreases args.len() - i,
{
    if i < 0 || i >= args.len() - 1 {
        m
    } else if desktop_flag(args[i]) {
        desktop_scan(args, i + 2, cli_option(m, args[i], args[i + 1]))
    } else {
        desktop_scan(args, i + 1, m)
    }
}

/// The desktop client's session from its arguments (the program's name
/// first): a complete `lunaris://` deep link as the first argument, else
/// the options (1920x1080 by default); `None` unless a host, a server and a
/// token are given.
pub open spec fn spec_desktop_args(args: Seq<Seq<char>>) -> Option<ArgsModel> {
    if args.len() < 2 {
        None
    } else if starts_with(args[1], "lunaris://"@) && url_query(args[1]) is Some && complete(
        desktop_link_settings(url_query(args[1])->0),
    ) {
        Some(desktop_link_settings(url_query(args[1])->0))
    } else if complete(desktop_scan(args, 1, link_defaults())) {
        Some(desktop_scan(args, 1, link_defaults()))
    } else {
        None
    }
}

fn desktop_from(cur: AppArgs) -> (d: DesktopArgs)
    ensures
        desktop_matches(d, cur@),
{
    DesktopArgs {
        host_id: cur.host_id,
        server_url: cur.server_url,
        token: cur.token,
        width: cur.width,
        height: cur.height,
        fps: cur.fps,
        bitrate: cur.bitrate,
        codec: cur.codec,
        app_id: cur.app_id,
    }
}

/// Reads the desktop client's session from its arguments, the program's
/// name first.
pub fn parse_desktop_args(args: &Vec<String>) -> (res: Option<DesktopArgs>)
    ensures
        match spec_desktop_args(strings_view(args@)) {
            Some(m) => res matches Some(d) && desktop_matches(d, m),
            None => res is None,
        },
{
    let ghost av = strings_view(args@);
    if args.len() < 2 {
        return None;
    }
    assert(av[1] == args@[1]@);
    let first = chars_of(args[1].as_str());
    let prefix = chars_of("lunaris://");
    if starts_with_chars(first.as_slice(), prefix.as_slice()) {
        if let Some(pairs) = parse_url_query(args[1].as_str()) {
            let mut cur = link_defaults_args();
            let mut i: usize = 0;
            while i < pairs.len()
                invariant
                    i <= pairs@.len(),
                    cur@ == desktop_link_settings(pairs_view(pairs@).take(i as int)),
                decreases pairs@.len() - i,
            {
                let k = pairs[i].0.as_str();
                if str_eq(k, "host_id") || str_eq(k, "server") || str_eq(k, "token") || str_eq(
                    k,
                    "app_id",
                ) || str_eq(k, "res") || str_eq(k, "fps") || str_eq(k, "bitrate") || str_eq(
                    k,
                    "codec",
                ) {
                    apply_link_pair(&mut cur, k, pairs[i].1.as_str());
                }
                assert(pairs_view(pairs@).take(i + 1).drop_last() =~= pairs_view(pairs@).take(
                    i as int,
                ));
                i = i + 1;
            }
            proof {
                assert(pairs_view(pairs@).take(i as int) =~= pairs_view(pairs@));
                assert(pairs_view(pairs@) =~= url_query(args@[1]@)->0);
            }
            if !cur.host_id.as_str().is_empty() && !cur.server_url.as_str().is_empty()
                && !cur.token.as_str().is_empty() {
                return Some(desktop_from(cur));
            }
        }
    }
    let mut cur = link_defaults_args();
    let mut i: usize = 1;
    while i < args.len() - 1
        invariant
            av == strings_view(args@),
            args@.len() >= 2,
            1 <= i <= args@.len(),
            desktop_scan(av, i as int, cur@) == desktop_scan(av, 1, link_defaults()),
        decreases args@.len() - i,
    {
        let a = args[i].as_str();
        assert(av[i as int] == a@);
        assert(av[i + 1] == args@[i + 1]@);
        if str_eq(a, "--host-id") || str_eq(a, "--server") || str_eq(a, "--token") || str_eq(
            a,
            "--app-id",
        ) || str_eq(a, "--res") || str_eq(a, "--fps") || str_eq(a, "--bitrate") || str_eq(
            a,
            "--codec",
        ) {
            apply_cli_option(&mut cur, a, args[i + 1].as_str());
            i = i + 2;
        } else {
            i = i + 1;
        }
    }
    if !cur.host_id.as_str().is_empty() && !cur.server_url.as_str().is_empty()
        && !cur.token.as_str().is_empty() {
        Some(desktop_from(cur))
    } else {
        None
    }
}

} // verus!

verus! {

/// What a second start of the client tells the running one: `CONNECT `, the
/// link and a newline when the first argument is a `lunaris://` link, else
/// `FOCUS` and a newline.
pub open spec fn activation_text(args: Seq<Seq<char>>) -> Seq<char> {
    if args.len() >= 2 && starts_with(args[1], "lunaris://"@) {
        "CONNECT "@ + args[1] + "\n"@
    } else {
        "FOCUS\n"@
    }
}

/// The message a second start of the client sends to the running one, from
/// its arguments (the program's name first).
pub fn activation_message(args: &Vec<String>) -> (res: String)
    ensures
        res@ == activation_text(strings_view(args@)),
{
    let ghost av = strings_view(args@);
    if args.len() >= 2 {
        let first = chars_of(args[1].as_str());
        let prefix = chars_of("lunaris://");
        assert(av[1] == args@[1]@);
        if starts_with_chars(first.as_slice(), prefix.as_slice()) {
            let head = chars_of("CONNECT ");
            let newline = chars_of("\n");
            let mut v = concat_chars(head.as_slice(), first.as_slice());
            push_all(&mut v, newline.as_slice());
            return string_from_chars(v.as_slice());
        }
    }
    let focus = chars_of("FOCUS\n");
    string_from_chars(focus.as_slice())
}

/// A message the running client receives from a second start.
#[derive(Debug, Clone, PartialEq)]
pub enum InstanceCommand {
    /// Bring the window forward.
    Focus,
    /// Open this deep link.
    Connect(String),
    /// Anything else, which is ignored.
    Unrecognised,
}

/// How the running client reads a message once it is trimmed: `FOCUS`, or
/// `CONNECT ` followed by the link.
pub open spec fn command_matches(text: Seq<char>, cmd: InstanceCommand) -> bool {
    match cmd {
        InstanceCommand::Focus => text == "FOCUS"@,
        InstanceCommand::Connect(url) => text != "FOCUS"@ && starts_with(text, "CONNECT "@)
            && url@ == text.skip(8),
        InstanceCommand::Unrecognised => text != "FOCUS"@ && !starts_with(text, "CONNECT "@),
    }
}

/// Reads a message received from a second start (its bytes read as UTF-8,
/// with invalid sequences replaced).
pub fn read_instance_command(bytes: &[u8]) -> (res: InstanceCommand)
    ensures
        vstd::utf8::valid_utf8(bytes@) ==> command_matches(
            trim(vstd::utf8::decode_utf8(bytes@)),
            res,
        ),
{
    let text = utf8_lossy(bytes);
    let res = instance_command(text.as_str());
    assert(command_matches(trim(text@), res));
    res
}

/// Reads a message received from a second start.
pub fn instance_command(msg: &str) -> (res: InstanceCommand)
    ensures
        command_matches(trim(msg@), res),
{
    let t = trim_str(msg);
    let c = chars_of(t.as_str());
    let focus = chars_of("FOCUS");
    let connect = chars_of("CONNECT ");
    if c.len() == focus.len() && starts_with_chars(c.as_slice(), focus.as_slice()) {
        assert(c@ =~= c@.subrange(0, focus@.len() as int));
        return InstanceCommand::Focus;
    }
    assert(c@ != focus@) by {
        if c@ == focus@ {
            assert(c@.subrange(0, focus@.len() as int) =~= focus@);
        }
    }
    if starts_with_chars(c.as_slice(), connect.as_slice()) {
        proof {
            reveal_strlit("CONNECT ");
        }
        let mut rest: Vec<char> = Vec::new();
        let mut i: usize = 8;
        while i < c.len()
            invariant
                8 <= i <= c@.len(),
                rest@ == c@.subrange(8, i as int),
            decreases c@.len() - i,
        {
            rest.push(c[i]);
            i = i + 1;
            assert(rest@ =~= c@.subrange(8, i as int));
        }
        assert(rest@ =~= c@.skip(8));
        return InstanceCommand::Connect(string_from_chars(rest.as_slice()));
    }
    InstanceCommand::Unrecognised
}

/// What a second start sends is read back by the running client: `FOCUS`
/// without a link, and with a `lunaris://` link that does not end in
/// whitespace, `CONNECT` with that link.
pub proof fn law_activation_round_trip(args: Seq<Seq<char>>, link: String)
    requires
        args.len() >= 2 && starts_with(args[1], "lunaris://"@) ==> link@ == args[1] && !is_whitespace(
            args[1].last(),
        ),
    ensures
        args.len() >= 2 && starts_with(args[1], "lunaris://"@) ==> command_matches(
            trim(activation_text(args)),
            InstanceCommand::Connect(link),
        ),
        !(args.len() >= 2 && starts_with(args[1], "lunaris://"@)) ==> command_matches(
            trim(activation_text(args)),
            InstanceCommand::Focus,
        ),
{
    reveal_strlit("CONNECT ");
    reveal_strlit("FOCUS");
    reveal_strlit("FOCUS\n");
    reveal_strlit("\n");
    reveal_strlit("lunaris://");
    let t = activation_text(args);
    if args.len() >= 2 && starts_with(args[1], "lunaris://"@) {
        let l = args[1];
        assert(l[0] == l.subrange(0, 10)[0]);
        let n = t.len() as int;
        assert(t[0] == 'C');
        assert(whitespace_run(t, 0) == 0);
        assert(t[n - 1] == '\n');
        assert(t[n - 2] == l.last());
        assert(trailing_run(t, n - 1) == n - 1);
        assert(trailing_run(t, n) == n - 1);
        assert(trim(t) =~= "CONNECT "@ + l);
        assert(trim(t).len() != 5);
        assert(trim(t).subrange(0, 8) =~= "CONNECT "@);
        assert(trim(t).skip(8) =~= l);
    } else {
        assert(t[0] == 'F');
        assert(whitespace_run(t, 0) == 0);
        assert(trailing_run(t, 5) == 5);
        assert(trailing_run(t, 6) == 5);
        assert(trim(t) =~= "FOCUS"@);
    }
}

/// Whether the program was asked to start minimized: some argument is
/// `--minimized`.
pub fn should_start_minimized(args: &Vec<String>) -> (res: bool)
    ensures
        res == strings_view(args@).contains("--minimized"@),
{
    let ghost av = strings_view(args@);
    let mut i: usize = 0;
    while i < args.len()
        invariant
            i <= args@.len(),
            av == strings_view(args@),
            forall|j: int| 0 <= j < i ==> av[j] != "--minimized"@,
        decreases args@.len() - i,
    {
        if str_eq(args[i].as_str(), "--minimized") {
            assert(av[i as int] == "--minimized"@);
            return true;
        }
        i = i + 1;
    }
    false
}

/// The arguments the web dashboard's desktop wrapper starts the native
/// client with: each setting behind its option, the app id last when given.
pub open spec fn launcher_args(
    host_id: Seq<char>,
    server_url: Seq<char>,
    token: Seq<char>,
    res: Seq<char>,
    fps: Seq<char>,
    bitrate: Seq<char>,
    codec: Seq<char>,
    app_id: Option<u32>,
) -> Seq<Seq<char>> {
    seq![
        "--host-id"@, host_id, "--server"@, server_url, "--token"@, token, "--res"@, res,
        "--fps"@, fps, "--bitrate"@, bitrate, "--codec"@, codec,
    ] + match app_id {
        Some(id) => seq!["--app-id"@, decimal_chars(id as nat)],
        None => Seq::empty(),
    }
}

/// The arguments the desktop wrapper starts the native client with.
pub fn native_client_args(
    host_id: &str,
    server_url: &str,
    token: &str,
    res: &str,
    fps: &str,
    bitrate: &str,
    codec: &str,
    app_id: Option<u32>,
) -> (args: Vec<String>)
    ensures
        strings_view(args@) == launcher_args(
            host_id@,
            server_url@,
            token@,
            res@,
            fps@,
            bitrate@,
            codec@,
            app_id,
        ),
{
    let mut v: Vec<String> = Vec::new();
    v.push("--host-id".to_string());
    v.push(host_id.to_string());
    v.push("--server".to_string());
    v.push(server_url.to_string());
    v.push("--token".to_string());
    v.push(token.to_string());
    v.push("--res".to_string());
    v.push(res.to_string());
    v.push("--fps".to_string());
    v.push(fps.to_string());
    v.push("--bitrate".to_string());
    v.push(bitrate.to_string());
    v.push("--codec".to_string());
    v.push(codec.to_string());
    if let Some(id) = app_id {
        v.push("--app-id".to_string());
        let digits = u64_decimal(id as u64);
        v.push(string_from_chars(digits.as_slice()));
    }
    assert(strings_view(v@) =~= launcher_args(
        host_id@,
        server_url@,
        token@,
        res@,
        fps@,
        bitrate@,
        codec@,
        app_id,
    ));
    v
}

/// The native client reads the desktop wrapper's arguments back option by
/// option: each value reaches its own option, whatever it holds (none is
/// mistaken for an option).
pub proof fn law_launcher_args_read_back(
    program: Seq<char>,
    host_id: Seq<char>,
    server_url: Seq<char>,
    token: Seq<char>,
    res: Seq<char>,
    fps: Seq<char>,
    bitrate: Seq<char>,
    codec: Seq<char>,
    app_id: Option<u32>,
)
    ensures
        ({
            let args = seq![program] + launcher_args(
                host_id,
                server_url,
                token,
                res,
                fps,
                bitrate,
                codec,
                app_id,
            );
            let m = cli_option(
                cli_option(
                    cli_option(
                        cli_option(
                            cli_option(
                                cli_option(
                                    cli_option(link_defaults(), "--host-id"@, host_id),
                                    "--server"@,
                                    server_url,
                                ),
                                "--token"@,
                                token,
                            ),
                            "--res"@,
                            res,
                        ),
                        "--fps"@,
                        fps,
                    ),
                    "--bitrate"@,
                    bitrate,
                ),
                "--codec"@,
                codec,
            );
            desktop_scan(args, 1, link_defaults()) == match app_id {
                Some(id) => cli_option(m, "--app-id"@, decimal_chars(id as nat)),
                None => m,
            }
        }),
{
    let args = seq![program] + launcher_args(
        host_id,
        server_url,
        token,
        res,
        fps,
        bitrate,
        codec,
        app_id,
    );
    reveal_with_fuel(desktop_scan, 10);
    assert(args[1] == "--host-id"@ && args[3] == "--server"@ && args[5] == "--token"@ && args[7]
        == "--res"@ && args[9] == "--fps"@ && args[11] == "--bitrate"@ && args[13] == "--codec"@);
    assert(args[2] == host_id && args[4] == server_url && args[6] == token && args[8] == res
        && args[10] == fps && args[12] == bitrate && args[14] == codec);
    if let Some(id) = app_id {
        assert(args.len() == 17);
        assert(args[15] == "--app-id"@ && args[16] == decimal_chars(id as nat));
    } else {
        assert(args.len() == 15);
    }
}

/// The query pairs of a native-client link before its text values are
/// percent-encoded.
pub open spec fn launch_values(
    host_id: Seq<char>,
    server_url: Seq<char>,
    token: Seq<char>,
    res: Seq<char>,
    fps: Seq<char>,
    bitrate: Seq<char>,
    codec: Seq<char>,
    app_id: i32,
    mouse_queue_limit: Seq<char>,
    host_name: Seq<char>,
    encoder: Seq<char>,
    display_id: Seq<char>,
    virtual_display: bool,
    input_protocol: Seq<char>,
) -> Seq<(Seq<char>, Seq<char>)> {
    seq![
        ("host_id"@, host_id),
        ("server"@, spec_ws_scheme(server_url)),
        ("token"@, token),
        ("res"@, res),
        ("fps"@, fps),
        ("bitrate"@, bitrate),
        ("codec"@, codec),
        ("mouse_queue_limit"@, mouse_queue_limit),
        ("host_name"@, host_name),
        ("app_id"@, signed_decimal_chars(app_id as int)),
        ("encoder"@, or_default(encoder, "auto"@)),
        ("display"@, or_default(display_id, "default"@)),
        ("virtual_display"@, bool_chars(virtual_display)),
        ("input_protocol"@, or_default(input_protocol, "webrtc"@)),
    ]
}

/// Every character is unreserved.
pub open spec fn all_unreserved(s: Seq<char>) -> bool {
    forall|i: int| 0 <= i < s.len() ==> unreserved_char(#[trigger] s[i])
}

proof fn lemma_percent_encode_unreserved(b: Seq<u8>)
    requires
        forall|i: int| 0 <= i < b.len() ==> is_unreserved(#[trigger] b[i]),
    ensures
        percent_encode(b) == b.map_values(|x: u8| x as char),
    decreases b.len(),
{
    if b.len() > 0 {
        let rest = b.drop_first();
        assert forall|i: int| 0 <= i < rest.len() implies is_unreserved(#[trigger] rest[i]) by {
            assert(rest[i] == b[i + 1]);
        }
        lemma_percent_encode_unreserved(rest);
        assert(is_unreserved(b[0]));
        assert(b.map_values(|x: u8| x as char) =~= seq![b[0] as char] + rest.map_values(
            |x: u8| x as char,
        ));
    }
}

/// Text of unreserved characters is its own percent-encoding.
proof fn lemma_unreserved_text_encodes_to_itself(s: Seq<char>)
    requires
        all_unreserved(s),
    ensures
        percent_encode(vstd::utf8::encode_utf8(s)) == s,
{
    assert(vstd::utf8::is_ascii_chars(s)) by {
        assert forall|i: int| 0 <= i < s.len() implies (#[trigger] s[i] as nat) < 128 by {
            assert(unreserved_char(s[i]));
        }
    }
    vstd::utf8::is_ascii_chars_encode_utf8(s);
    let b = vstd::utf8::encode_utf8(s);
    assert forall|i: int| 0 <= i < b.len() implies is_unreserved(#[trigger] b[i]) by {
        assert(s[i] as u8 == b[i]);
        assert(unreserved_char(s[i]));
    }
    lemma_percent_encode_unreserved(b);
    assert forall|i: int| 0 <= i < s.len() implies b.map_values(|x: u8| x as char)[i] == s[i] by {
        assert(s[i] as u8 == b[i]);
        assert(unreserved_char(s[i]));
    }
    assert(b.map_values(|x: u8| x as char) =~= s);
}

proof fn lemma_decimal_unreserved(n: nat)
    ensures
        all_unreserved(decimal_chars(n)),
    decreases n,
{
    if n >= 10 {
        lemma_decimal_unreserved(n / 10);
        let d = seq![('0' as u32 + n % 10) as char];
        assert(unreserved_char(d[0]));
        assert forall|i: int| 0 <= i < decimal_chars(n).len() implies unreserved_char(
            #[trigger] decimal_chars(n)[i],
        ) by {
            if i < decimal_chars(n / 10).len() {
                assert(decimal_chars(n)[i] == decimal_chars(n / 10)[i]);
            } else {
                assert(decimal_chars(n)[i] == d[0]);
            }
        }
    } else {
        assert(unreserved_char(decimal_chars(n)[0]));
    }
}

proof fn lemma_signed_decimal_unreserved(n: int)
    ensures
        all_unreserved(signed_decimal_chars(n)),
{
    if n < 0 {
        let m = (-n) as nat;
        lemma_decimal_unreserved(m);
        assert forall|i: int| 0 <= i < signed_decimal_chars(n).len() implies unreserved_char(
            #[trigger] signed_decimal_chars(n)[i],
        ) by {
            if i > 0 {
                assert(signed_decimal_chars(n)[i] == decimal_chars(m)[i - 1]);
            }
        }
    } else {
        lemma_decimal_unreserved(n as nat);
    }
}

/// The query pairs of a native-client link as keys and the UTF-8 bytes of
/// each value.
pub open spec fn launch_bytes(
    host_id: Seq<char>,
    server_url: Seq<char>,
    token: Seq<char>,
    res: Seq<char>,
    fps: Seq<char>,
    bitrate: Seq<char>,
    codec: Seq<char>,
    app_id: i32,
    mouse_queue_limit: Seq<char>,
    host_name: Seq<char>,
    encoder: Seq<char>,
    display_id: Seq<char>,
    virtual_display: bool,
    input_protocol: Seq<char>,
) -> Seq<(Seq<char>, Seq<u8>)> {
    launch_values(
        host_id,
        server_url,
        token,
        res,
        fps,
        bitrate,
        codec,
        app_id,
        mouse_queue_limit,
        host_name,
        encoder,
        display_id,
        virtual_display,
        input_protocol,
    ).map_values(|p: (Seq<char>, Seq<char>)| (p.0, vstd::utf8::encode_utf8(p.1)))
}

#[verifier::spinoff_prover]
#[verifier::rlimit(60)]
proof fn lemma_launch_bytes(
    host_id: Seq<char>,
    server_url: Seq<char>,
    token: Seq<char>,
    res: Seq<char>,
    fps: Seq<char>,
    bitrate: Seq<char>,
    codec: Seq<char>,
    app_id: i32,
    mouse_queue_limit: Seq<char>,
    host_name: Seq<char>,
    encoder: Seq<char>,
    display_id: Seq<char>,
    virtual_display: bool,
    input_protocol: Seq<char>,
)
    ensures
        form_safe(launch_bytes(
            host_id,
            server_url,
            token,
            res,
            fps,
            bitrate,
            codec,
            app_id,
            mouse_queue_limit,
            host_name,
            encoder,
            display_id,
            virtual_display,
            input_protocol,
        )),
        escaped_pairs(launch_bytes(
            host_id,
            server_url,
            token,
            res,
            fps,
            bitrate,
            codec,
            app_id,
            mouse_queue_limit,
            host_name,
            encoder,
            display_id,
            virtual_display,
            input_protocol,
        )) == launch_pairs(
            host_id,
            server_url,
            token,
            res,
            fps,
            bitrate,
            codec,
            app_id,
            mouse_queue_limit,
            host_name,
            encoder,
            display_id,
            virtual_display,
            input_protocol,
        ),
        decoded_pairs(launch_bytes(
            host_id,
            server_url,
            token,
            res,
            fps,
            bitrate,
            codec,
            app_id,
            mouse_queue_limit,
            host_name,
            encoder,
            display_id,
            virtual_display,
            input_protocol,
        )) == launch_values(
            host_id,
            server_url,
            token,
            res,
            fps,
            bitrate,
            codec,
            app_id,
            mouse_queue_limit,
            host_name,
            encoder,
            display_id,
            virtual_display,
            input_protocol,
        ),
{
    broadcast use vstd::utf8::encode_utf8_valid_utf8, vstd::utf8::encode_utf8_decode_utf8;

    let plain = launch_values(
        host_id,
        server_url,
        token,
        res,
        fps,
        bitrate,
        codec,
        app_id,
        mouse_queue_limit,
        host_name,
        encoder,
        display_id,
        virtual_display,
        input_protocol,
    );
    let b = launch_bytes(
        host_id,
        server_url,
        token,
        res,
        fps,
        bitrate,
        codec,
        app_id,
        mouse_queue_limit,
        host_name,
        encoder,
        display_id,
        virtual_display,
        input_protocol,
    );
    assert(plain_key("host_id"@)) by {
        reveal_strlit("host_id");
        assert("host_id"@ =~= seq!['h', 'o', 's', 't', '_', 'i', 'd']);
    }
    assert(plain_key("server"@)) by {
        reveal_strlit("server");
        assert("server"@ =~= seq!['s', 'e', 'r', 'v', 'e', 'r']);
    }
    assert(plain_key("token"@)) by {
        reveal_strlit("token");
        assert("token"@ =~= seq!['t', 'o', 'k', 'e', 'n']);
    }
    assert(plain_key("res"@)) by {
        reveal_strlit("res");
        assert("res"@ =~= seq!['r', 'e', 's']);
    }
    assert(plain_key("fps"@)) by {
        reveal_strlit("fps");
        assert("fps"@ =~= seq!['f', 'p', 's']);
    }
    assert(plain_key("bitrate"@)) by {
        reveal_strlit("bitrate");
        assert("bitrate"@ =~= seq!['b', 'i', 't', 'r', 'a', 't', 'e']);
    }
    assert(plain_key("codec"@)) by {
        reveal_strlit("codec");
        assert("codec"@ =~= seq!['c', 'o', 'd', 'e', 'c']);
    }
    assert(plain_key("mouse_queue_limit"@)) by {
        reveal_strlit("mouse_queue_limit");
        assert("mouse_queue_limit"@ =~= seq!['m', 'o', 'u', 's', 'e', '_', 'q', 'u', 'e', 'u', 'e', '_', 'l', 'i', 'm', 'i', 't']);
    }
    assert(plain_key("host_name"@)) by {
        reveal_strlit("host_name");
        assert("host_name"@ =~= seq!['h', 'o', 's', 't', '_', 'n', 'a', 'm', 'e']);
    }
    assert(plain_key("app_id"@)) by {
        reveal_strlit("app_id");
        assert("app_id"@ =~= seq!['a', 'p', 'p', '_', 'i', 'd']);
    }
    assert(plain_key("encoder"@)) by {
        reveal_strlit("encoder");
        assert("encoder"@ =~= seq!['e', 'n', 'c', 'o', 'd', 'e', 'r']);
    }
    assert(plain_key("display"@)) by {
        reveal_strlit("display");
        assert("display"@ =~= seq!['d', 'i', 's', 'p', 'l', 'a', 'y']);
    }
    assert(plain_key("virtual_display"@)) by {
        reveal_strlit("virtual_display");
        assert("virtual_display"@ =~= seq!['v', 'i', 'r', 't', 'u', 'a', 'l', '_', 'd', 'i', 's', 'p', 'l', 'a', 'y']);
    }
    assert(plain_key("input_protocol"@)) by {
        reveal_strlit("input_protocol");
        assert("input_protocol"@ =~= seq!['i', 'n', 'p', 'u', 't', '_', 'p', 'r', 'o', 't', 'o', 'c', 'o', 'l']);
    }
    assert(form_safe(b));
    lemma_signed_decimal_unreserved(app_id as int);
    lemma_unreserved_text_encodes_to_itself(signed_decimal_chars(app_id as int));
    assert(all_unreserved(bool_chars(virtual_display)));
    lemma_unreserved_text_encodes_to_itself(bool_chars(virtual_display));
    assert(escaped_pairs(b) =~= launch_pairs(
        host_id,
        server_url,
        token,
        res,
        fps,
        bitrate,
        codec,
        app_id,
        mouse_queue_limit,
        host_name,
        encoder,
        display_id,
        virtual_display,
        input_protocol,
    ));
    assert(decoded_pairs(b) =~= plain);
}

proof fn lemma_settings_step(pairs: Seq<(Seq<char>, Seq<char>)>, i: int)
    requires
        0 < i <= pairs.len(),
    ensures
        link_settings(pairs.take(i)) == link_step(
            link_settings(pairs.take(i - 1)),
            pairs[i - 1].0,
            pairs[i - 1].1,
        ),
{
    assert(pairs.take(i).drop_last() =~= pairs.take(i - 1));
    assert(pairs.take(i).last() == pairs[i - 1]);
}

proof fn lemma_link_step_host_id(m: ArgsModel, v: Seq<char>)
    ensures
        link_step(m, "host_id"@, v) == (ArgsModel { host_id: v, ..m }),
{
    reveal_strlit("host_id");
    assert("host_id"@.len() == 7 && "host_id"@[0] == 'h');
    reveal_strlit("server");
    assert("server"@.len() == 6 && "server"@[0] == 's');
    reveal_strlit("token");
    assert("token"@.len() == 5 && "token"@[0] == 't');
    reveal_strlit("res");
    assert("res"@.len() == 3 && "res"@[0] == 'r');
    reveal_strlit("fps");
    assert("fps"@.len() == 3 && "fps"@[0] == 'f');
    reveal_strlit("bitrate");
    assert("bitrate"@.len() == 7 && "bitrate"@[0] == 'b');
    reveal_strlit("codec");
    assert("codec"@.len() == 5 && "codec"@[0] == 'c');
    reveal_strlit("mouse_queue_limit");
    assert("mouse_queue_limit"@.len() == 17 && "mouse_queue_limit"@[0] == 'm');
    reveal_strlit("host_name");
    assert("host_name"@.len() == 9 && "host_name"@[0] == 'h');
    reveal_strlit("app_id");
    assert("app_id"@.len() == 6 && "app_id"@[0] == 'a');
    reveal_strlit("encoder");
    assert("encoder"@.len() == 7 && "encoder"@[0] == 'e');
    reveal_strlit("display");
    assert("display"@.len() == 7 && "display"@[0] == 'd');
    reveal_strlit("display_id");
    assert("display_id"@.len() == 10 && "display_id"@[0] == 'd');
    reveal_strlit("virtual_display");
    assert("virtual_display"@.len() == 15 && "virtual_display"@[0] == 'v');
    reveal_strlit("input_protocol");
    assert("input_protocol"@.len() == 14 && "input_protocol"@[0] == 'i');
    reveal_strlit("disable_cuda");
    assert("disable_cuda"@.len() == 12 && "disable_cuda"@[0] == 'd');
}

proof fn lemma_link_step_server(m: ArgsModel, v: Seq<char>)
    ensures
        link_step(m, "server"@, v) == (ArgsModel { server_url: v, ..m }),
{
    reveal_strlit("host_id");
    assert("host_id"@.len() == 7 && "host_id"@[0] == 'h');
    reveal_strlit("server");
    assert("server"@.len() == 6 && "server"@[0] == 's');
    reveal_strlit("token");
    assert("token"@.len() == 5 && "token"@[0] == 't');
    reveal_strlit("res");
    assert("res"@.len() == 3 && "res"@[0] == 'r');
    reveal_strlit("fps");
    assert("fps"@.len() == 3 && "fps"@[0] == 'f');
    reveal_strlit("bitrate");
    assert("bitrate"@.len() == 7 && "bitrate"@[0] == 'b');
    reveal_strlit("codec");
    assert("codec"@.len() == 5 && "codec"@[0] == 'c');
    reveal_strlit("mouse_queue_limit");
    assert("mouse_queue_limit"@.len() == 17 && "mouse_queue_limit"@[0] == 'm');
    reveal_strlit("host_name");
    assert("host_name"@.len() == 9 && "host_name"@[0] == 'h');
    reveal_strlit("app_id");
    assert("app_id"@.len() == 6 && "app_id"@[0] == 'a');
    reveal_strlit("encoder");
    assert("encoder"@.len() == 7 && "encoder"@[0] == 'e');
    reveal_strlit("display");
    assert("display"@.len() == 7 && "display"@[0] == 'd');
    reveal_strlit("display_id");
    assert("display_id"@.len() == 10 && "display_id"@[0] == 'd');
    reveal_strlit("virtual_display");
    assert("virtual_display"@.len() == 15 && "virtual_display"@[0] == 'v');
    reveal_strlit("input_protocol");
    assert("input_protocol"@.len() == 14 && "input_protocol"@[0] == 'i');
    reveal_strlit("disable_cuda");
    assert("disable_cuda"@.len() == 12 && "disable_cuda"@[0] == 'd');
}

proof fn lemma_link_step_token(m: ArgsModel, v: Seq<char>)
    ensures
        link_step(m, "token"@, v) == (ArgsModel { token: v, ..m }),
{
    reveal_strlit("host_id");
    assert("host_id"@.len() == 7 && "host_id"@[0] == 'h');
    reveal_strlit("server");
    assert("server"@.len() == 6 && "server"@[0] == 's');
    reveal_strlit("token");
    assert("token"@.len() == 5 && "token"@[0] == 't');
    reveal_strlit("res");
    assert("res"@.len() == 3 && "res"@[0] == 'r');
    reveal_strlit("fps");
    assert("fps"@.len() == 3 && "fps"@[0] == 'f');
    reveal_strlit("bitrate");
    assert("bitrate"@.len() == 7 && "bitrate"@[0] == 'b');
    reveal_strlit("codec");
    assert("codec"@.len() == 5 && "codec"@[0] == 'c');
    reveal_strlit("mouse_queue_limit");
    assert("mouse_queue_limit"@.len() == 17 && "mouse_queue_limit"@[0] == 'm');
    reveal_strlit("host_name");
    assert("host_name"@.len() == 9 && "host_name"@[0] == 'h');
    reveal_strlit("app_id");
    assert("app_id"@.len() == 6 && "app_id"@[0] == 'a');
    reveal_strlit("encoder");
    assert("encoder"@.len() == 7 && "encoder"@[0] == 'e');
    reveal_strlit("display");
    assert("display"@.len() == 7 && "display"@[0] == 'd');
    reveal_strlit("display_id");
    assert("display_id"@.len() == 10 && "display_id"@[0] == 'd');
    reveal_strlit("virtual_display");
    assert("virtual_display"@.len() == 15 && "virtual_display"@[0] == 'v');
    reveal_strlit("input_protocol");
    assert("input_protocol"@.len() == 14 && "input_protocol"@[0] == 'i');
    reveal_strlit("disable_cuda");
    assert("disable_cuda"@.len() == 12 && "disable_cuda"@[0] == 'd');
}

proof fn lemma_link_step_res(m: ArgsModel, v: Seq<char>)
    ensures
        link_step(m, "res"@, v) == (ArgsModel {
            width: match spec_parse_resolution(v) {
                Some((w, _)) => w,
                None => m.width,
            },
            height: match spec_parse_resolution(v) {
                Some((_, h)) => h,
                None => m.height,
            },
            ..m
        }),
{
    reveal_strlit("host_id");
    assert("host_id"@.len() == 7 && "host_id"@[0] == 'h');
    reveal_strlit("server");
    assert("server"@.len() == 6 && "server"@[0] == 's');
    reveal_strlit("token");
    assert("token"@.len() == 5 && "token"@[0] == 't');
    reveal_strlit("res");
    assert("res"@.len() == 3 && "res"@[0] == 'r');
    reveal_strlit("fps");
    assert("fps"@.len() == 3 && "fps"@[0] == 'f');
    reveal_strlit("bitrate");
    assert("bitrate"@.len() == 7 && "bitrate"@[0] == 'b');
    reveal_strlit("codec");
    assert("codec"@.len() == 5 && "codec"@[0] == 'c');
    reveal_strlit("mouse_queue_limit");
    assert("mouse_queue_limit"@.len() == 17 && "mouse_queue_limit"@[0] == 'm');
    reveal_strlit("host_name");
    assert("host_name"@.len() == 9 && "host_name"@[0] == 'h');
    reveal_strlit("app_id");
    assert("app_id"@.len() == 6 && "app_id"@[0] == 'a');
    reveal_strlit("encoder");
    assert("encoder"@.len() == 7 && "encoder"@[0] == 'e');
    reveal_strlit("display");
    assert("display"@.len() == 7 && "display"@[0] == 'd');
    reveal_strlit("display_id");
    assert("display_id"@.len() == 10 && "display_id"@[0] == 'd');
    reveal_strlit("virtual_display");
    assert("virtual_display"@.len() == 15 && "virtual_display"@[0] == 'v');
    reveal_strlit("input_protocol");
    assert("input_protocol"@.len() == 14 && "input_protocol"@[0] == 'i');
    reveal_strlit("disable_cuda");
    assert("disable_cuda"@.len() == 12 && "disable_cuda"@[0] == 'd');
}

proof fn lemma_link_step_fps(m: ArgsModel, v: Seq<char>)
    ensures
        link_step(m, "fps"@, v) == (ArgsModel {
            fps: match parse_u32(v) {
                Some(f) => f,
                None => m.fps,
            },
            ..m
        }),
{
    reveal_strlit("host_id");
    assert("host_id"@.len() == 7 && "host_id"@[0] == 'h');
    reveal_strlit("server");
    assert("server"@.len() == 6 && "server"@[0] == 's');
    reveal_strlit("token");
    assert("token"@.len() == 5 && "token"@[0] == 't');
    reveal_strlit("res");
    assert("res"@.len() == 3 && "res"@[0] == 'r');
    reveal_strlit("fps");
    assert("fps"@.len() == 3 && "fps"@[0] == 'f');
    reveal_strlit("bitrate");
    assert("bitrate"@.len() == 7 && "bitrate"@[0] == 'b');
    reveal_strlit("codec");
    assert("codec"@.len() == 5 && "codec"@[0] == 'c');
    reveal_strlit("mouse_queue_limit");
    assert("mouse_queue_limit"@.len() == 17 && "mouse_queue_limit"@[0] == 'm');
    reveal_strlit("host_name");
    assert("host_name"@.len() == 9 && "host_name"@[0] == 'h');
    reveal_strlit("app_id");
    assert("app_id"@.len() == 6 && "app_id"@[0] == 'a');
    reveal_strlit("encoder");
    assert("encoder"@.len() == 7 && "encoder"@[0] == 'e');
    reveal_strlit("display");
    assert("display"@.len() == 7 && "display"@[0] == 'd');
    reveal_strlit("display_id");
    assert("display_id"@.len() == 10 && "display_id"@[0] == 'd');
    reveal_strlit("virtual_display");
    assert("virtual_display"@.len() == 15 && "virtual_display"@[0] == 'v');
    reveal_strlit("input_protocol");
    assert("input_protocol"@.len() == 14 && "input_protocol"@[0] == 'i');
    reveal_strlit("disable_cuda");
    assert("disable_cuda"@.len() == 12 && "disable_cuda"@[0] == 'd');
}

proof fn lemma_link_step_bitrate(m: ArgsModel, v: Seq<char>)
    ensures
        link_step(m, "bitrate"@, v) == (ArgsModel {
            bitrate: match parse_u32(v) {
                Some(b) => b,
                None => m.bitrate,
            },
            ..m
        }),
{
    reveal_strlit("host_id");
    assert("host_id"@.len() == 7 && "host_id"@[0] == 'h');
    reveal_strlit("server");
    assert("server"@.len() == 6 && "server"@[0] == 's');
    reveal_strlit("token");
    assert("token"@.len() == 5 && "token"@[0] == 't');
    reveal_strlit("res");
    assert("res"@.len() == 3 && "res"@[0] == 'r');
    reveal_strlit("fps");
    assert("fps"@.len() == 3 && "fps"@[0] == 'f');
    reveal_strlit("bitrate");
    assert("bitrate"@.len() == 7 && "bitrate"@[0] == 'b');
    reveal_strlit("codec");
    assert("codec"@.len() == 5 && "codec"@[0] == 'c');
    reveal_strlit("mouse_queue_limit");
    assert("mouse_queue_limit"@.len() == 17 && "mouse_queue_limit"@[0] == 'm');
    reveal_strlit("host_name");
    assert("host_name"@.len() == 9 && "host_name"@[0] == 'h');
    reveal_strlit("app_id");
    assert("app_id"@.len() == 6 && "app_id"@[0] == 'a');
    reveal_strlit("encoder");
    assert("encoder"@.len() == 7 && "encoder"@[0] == 'e');
    reveal_strlit("display");
    assert("display"@.len() == 7 && "display"@[0] == 'd');
    reveal_strlit("display_id");
    assert("display_id"@.len() == 10 && "display_id"@[0] == 'd');
    reveal_strlit("virtual_display");
    assert("virtual_display"@.len() == 15 && "virtual_display"@[0] == 'v');
    reveal_strlit("input_protocol");
    assert("input_protocol"@.len() == 14 && "input_protocol"@[0] == 'i');
    reveal_strlit("disable_cuda");
    assert("disable_cuda"@.len() == 12 && "disable_cuda"@[0] == 'd');
}

proof fn lemma_link_step_codec(m: ArgsModel, v: Seq<char>)
    ensures
        link_step(m, "codec"@, v) == (ArgsModel { codec: spec_to_lowercase(v), ..m }),
{
    reveal_strlit("host_id");
    assert("host_id"@.len() == 7 && "host_id"@[0] == 'h');
    reveal_strlit("server");
    assert("server"@.len() == 6 && "server"@[0] == 's');
    reveal_strlit("token");
    assert("token"@.len() == 5 && "token"@[0] == 't');
    reveal_strlit("res");
    assert("res"@.len() == 3 && "res"@[0] == 'r');
    reveal_strlit("fps");
    assert("fps"@.len() == 3 && "fps"@[0] == 'f');
    reveal_strlit("bitrate");
    assert("bitrate"@.len() == 7 && "bitrate"@[0] == 'b');
    reveal_strlit("codec");
    assert("codec"@.len() == 5 && "codec"@[0] == 'c');
    reveal_strlit("mouse_queue_limit");
    assert("mouse_queue_limit"@.len() == 17 && "mouse_queue_limit"@[0] == 'm');
    reveal_strlit("host_name");
    assert("host_name"@.len() == 9 && "host_name"@[0] == 'h');
    reveal_strlit("app_id");
    assert("app_id"@.len() == 6 && "app_id"@[0] == 'a');
    reveal_strlit("encoder");
    assert("encoder"@.len() == 7 && "encoder"@[0] == 'e');
    reveal_strlit("display");
    assert("display"@.len() == 7 && "display"@[0] == 'd');
    reveal_strlit("display_id");
    assert("display_id"@.len() == 10 && "display_id"@[0] == 'd');
    reveal_strlit("virtual_display");
    assert("virtual_display"@.len() == 15 && "virtual_display"@[0] == 'v');
    reveal_strlit("input_protocol");
    assert("input_protocol"@.len() == 14 && "input_protocol"@[0] == 'i');
    reveal_strlit("disable_cuda");
    assert("disable_cuda"@.len() == 12 && "disable_cuda"@[0] == 'd');
}

proof fn lemma_link_step_mouse_queue_limit(m: ArgsModel, v: Seq<char>)
    ensures
        link_step(m, "mouse_queue_limit"@, v) == (ArgsModel {
            mouse_queue_limit: match parse_u32(v) {
                Some(l) => l,
                None => m.mouse_queue_limit,
            },
            ..m
        }),
{
    reveal_strlit("host_id");
    assert("host_id"@.len() == 7 && "host_id"@[0] == 'h');
    reveal_strlit("server");
    assert("server"@.len() == 6 && "server"@[0] == 's');
    reveal_strlit("token");
    assert("token"@.len() == 5 && "token"@[0] == 't');
    reveal_strlit("res");
    assert("res"@.len() == 3 && "res"@[0] == 'r');
    reveal_strlit("fps");
    assert("fps"@.len() == 3 && "fps"@[0] == 'f');
    reveal_strlit("bitrate");
    assert("bitrate"@.len() == 7 && "bitrate"@[0] == 'b');
    reveal_strlit("codec");
    assert("codec"@.len() == 5 && "codec"@[0] == 'c');
    reveal_strlit("mouse_queue_limit");
    assert("mouse_queue_limit"@.len() == 17 && "mouse_queue_limit"@[0] == 'm');
    reveal_strlit("host_name");
    assert("host_name"@.len() == 9 && "host_name"@[0] == 'h');
    reveal_strlit("app_id");
    assert("app_id"@.len() == 6 && "app_id"@[0] == 'a');
    reveal_strlit("encoder");
    assert("encoder"@.len() == 7 && "encoder"@[0] == 'e');
    reveal_strlit("display");
    assert("display"@.len() == 7 && "display"@[0] == 'd');
    reveal_strlit("display_id");
    assert("display_id"@.len() == 10 && "display_id"@[0] == 'd');
    reveal_strlit("virtual_display");
    assert("virtual_display"@.len() == 15 && "virtual_display"@[0] == 'v');
    reveal_strlit("input_protocol");
    assert("input_protocol"@.len() == 14 && "input_protocol"@[0] == 'i');
    reveal_strlit("disable_cuda");
    assert("disable_cuda"@.len() == 12 && "disable_cuda"@[0] == 'd');
}

proof fn lemma_link_step_host_name(m: ArgsModel, v: Seq<char>)
    ensures
        link_step(m, "host_name"@, v) == (ArgsModel { host_name: v, ..m }),
{
    reveal_strlit("host_id");
    assert("host_id"@.len() == 7 && "host_id"@[0] == 'h');
    reveal_strlit("server");
    assert("server"@.len() == 6 && "server"@[0] == 's');
    reveal_strlit("token");
    assert("token"@.len() == 5 && "token"@[0] == 't');
    reveal_strlit("res");
    assert("res"@.len() == 3 && "res"@[0] == 'r');
    reveal_strlit("fps");
    assert("fps"@.len() == 3 && "fps"@[0] == 'f');
    reveal_strlit("bitrate");
    assert("bitrate"@.len() == 7 && "bitrate"@[0] == 'b');
    reveal_strlit("codec");
    assert("codec"@.len() == 5 && "codec"@[0] == 'c');
    reveal_strlit("mouse_queue_limit");
    assert("mouse_queue_limit"@.len() == 17 && "mouse_queue_limit"@[0] == 'm');
    reveal_strlit("host_name");
    assert("host_name"@.len() == 9 && "host_name"@[0] == 'h');
    reveal_strlit("app_id");
    assert("app_id"@.len() == 6 && "app_id"@[0] == 'a');
    reveal_strlit("encoder");
    assert("encoder"@.len() == 7 && "encoder"@[0] == 'e');
    reveal_strlit("display");
    assert("display"@.len() == 7 && "display"@[0] == 'd');
    reveal_strlit("display_id");
    assert("display_id"@.len() == 10 && "display_id"@[0] == 'd');
    reveal_strlit("virtual_display");
    assert("virtual_display"@.len() == 15 && "virtual_display"@[0] == 'v');
    reveal_strlit("input_protocol");
    assert("input_protocol"@.len() == 14 && "input_protocol"@[0] == 'i');
    reveal_strlit("disable_cuda");
    assert("disable_cuda"@.len() == 12 && "disable_cuda"@[0] == 'd');
}

proof fn lemma_link_step_app_id(m: ArgsModel, v: Seq<char>)
    ensures
        link_step(m, "app_id"@, v) == (ArgsModel {
            app_id: match parse_u32(v) {
                Some(id) => Some(id),
                None => m.app_id,
            },
            ..m
        }),
{
    reveal_strlit("host_id");
    assert("host_id"@.len() == 7 && "host_id"@[0] == 'h');
    reveal_strlit("server");
    assert("server"@.len() == 6 && "server"@[0] == 's');
    reveal_strlit("token");
    assert("token"@.len() == 5 && "token"@[0] == 't');
    reveal_strlit("res");
    assert("res"@.len() == 3 && "res"@[0] == 'r');
    reveal_strlit("fps");
    assert("fps"@.len() == 3 && "fps"@[0] == 'f');
    reveal_strlit("bitrate");
    assert("bitrate"@.len() == 7 && "bitrate"@[0] == 'b');
    reveal_strlit("codec");
    assert("codec"@.len() == 5 && "codec"@[0] == 'c');
    reveal_strlit("mouse_queue_limit");
    assert("mouse_queue_limit"@.len() == 17 && "mouse_queue_limit"@[0] == 'm');
    reveal_strlit("host_name");
    assert("host_name"@.len() == 9 && "host_name"@[0] == 'h');
    reveal_strlit("app_id");
    assert("app_id"@.len() == 6 && "app_id"@[0] == 'a');
    reveal_strlit("encoder");
    assert("encoder"@.len() == 7 && "encoder"@[0] == 'e');
    reveal_strlit("display");
    assert("display"@.len() == 7 && "display"@[0] == 'd');
    reveal_strlit("display_id");
    assert("display_id"@.len() == 10 && "display_id"@[0] == 'd');
    reveal_strlit("virtual_display");
    assert("virtual_display"@.len() == 15 && "virtual_display"@[0] == 'v');
    reveal_strlit("input_protocol");
    assert("input_protocol"@.len() == 14 && "input_protocol"@[0] == 'i');
    reveal_strlit("disable_cuda");
    assert("disable_cuda"@.len() == 12 && "disable_cuda"@[0] == 'd');
}

proof fn lemma_link_step_encoder(m: ArgsModel, v: Seq<char>)
    ensures
        link_step(m, "encoder"@, v) == (ArgsModel {
            encoder: match unset_or(spec_to_lowercase(v), "auto"@) {
                Some(e) => Some(e),
                None => m.encoder,
            },
            ..m
        }),
{
    reveal_strlit("host_id");
    assert("host_id"@.len() == 7 && "host_id"@[0] == 'h');
    reveal_strlit("server");
    assert("server"@.len() == 6 && "server"@[0] == 's');
    reveal_strlit("token");
    assert("token"@.len() == 5 && "token"@[0] == 't');
    reveal_strlit("res");
    assert("res"@.len() == 3 && "res"@[0] == 'r');
    reveal_strlit("fps");
    assert("fps"@.len() == 3 && "fps"@[0] == 'f');
    reveal_strlit("bitrate");
    assert("bitrate"@.len() == 7 && "bitrate"@[0] == 'b');
    reveal_strlit("codec");
    assert("codec"@.len() == 5 && "codec"@[0] == 'c');
    reveal_strlit("mouse_queue_limit");
    assert("mouse_queue_limit"@.len() == 17 && "mouse_queue_limit"@[0] == 'm');
    reveal_strlit("host_name");
    assert("host_name"@.len() == 9 && "host_name"@[0] == 'h');
    reveal_strlit("app_id");
    assert("app_id"@.len() == 6 && "app_id"@[0] == 'a');
    reveal_strlit("encoder");
    assert("encoder"@.len() == 7 && "encoder"@[0] == 'e');
    reveal_strlit("display");
    assert("display"@.len() == 7 && "display"@[0] == 'd');
    reveal_strlit("display_id");
    assert("display_id"@.len() == 10 && "display_id"@[0] == 'd');
    reveal_strlit("virtual_display");
    assert("virtual_display"@.len() == 15 && "virtual_display"@[0] == 'v');
    reveal_strlit("input_protocol");
    assert("input_protocol"@.len() == 14 && "input_protocol"@[0] == 'i');
    reveal_strlit("disable_cuda");
    assert("disable_cuda"@.len() == 12 && "disable_cuda"@[0] == 'd');
}

proof fn lemma_link_step_display(m: ArgsModel, v: Seq<char>)
    ensures
        link_step(m, "display"@, v) == (ArgsModel {
            display_id: match unset_or(v, "default"@) {
                Some(d) => Some(d),
                None => m.display_id,
            },
            ..m
        }),
{
    reveal_strlit("host_id");
    assert("host_id"@.len() == 7 && "host_id"@[0] == 'h');
    reveal_strlit("server");
    assert("server"@.len() == 6 && "server"@[0] == 's');
    reveal_strlit("token");
    assert("token"@.len() == 5 && "token"@[0] == 't');
    reveal_strlit("res");
    assert("res"@.len() == 3 && "res"@[0] == 'r');
    reveal_strlit("fps");
    assert("fps"@.len() == 3 && "fps"@[0] == 'f');
    reveal_strlit("bitrate");
    assert("bitrate"@.len() == 7 && "bitrate"@[0] == 'b');
    reveal_strlit("codec");
    assert("codec"@.len() == 5 && "codec"@[0] == 'c');
    reveal_strlit("mouse_queue_limit");
    assert("mouse_queue_limit"@.len() == 17 && "mouse_queue_limit"@[0] == 'm');
    reveal_strlit("host_name");
    assert("host_name"@.len() == 9 && "host_name"@[0] == 'h');
    reveal_strlit("app_id");
    assert("app_id"@.len() == 6 && "app_id"@[0] == 'a');
    reveal_strlit("encoder");
    assert("encoder"@.len() == 7 && "encoder"@[0] == 'e');
    reveal_strlit("display");
    assert("display"@.len() == 7 && "display"@[0] == 'd');
    reveal_strlit("display_id");
    assert("display_id"@.len() == 10 && "display_id"@[0] == 'd');
    reveal_strlit("virtual_display");
    assert("virtual_display"@.len() == 15 && "virtual_display"@[0] == 'v');
    reveal_strlit("input_protocol");
    assert("input_protocol"@.len() == 14 && "input_protocol"@[0] == 'i');
    reveal_strlit("disable_cuda");
    assert("disable_cuda"@.len() == 12 && "disable_cuda"@[0] == 'd');
}

proof fn lemma_link_step_virtual_display(m: ArgsModel, v: Seq<char>)
    ensures
        link_step(m, "virtual_display"@, v) == (ArgsModel { virtual_display: v == "1"@ || eq_ignore_ascii_case(v, "true"@), ..m }),
{
    reveal_strlit("host_id");
    assert("host_id"@.len() == 7 && "host_id"@[0] == 'h');
    reveal_strlit("server");
    assert("server"@.len() == 6 && "server"@[0] == 's');
    reveal_strlit("token");
    assert("token"@.len() == 5 && "token"@[0] == 't');
    reveal_strlit("res");
    assert("res"@.len() == 3 && "res"@[0] == 'r');
    reveal_strlit("fps");
    assert("fps"@.len() == 3 && "fps"@[0] == 'f');
    reveal_strlit("bitrate");
    assert("bitrate"@.len() == 7 && "bitrate"@[0] == 'b');
    reveal_strlit("codec");
    assert("codec"@.len() == 5 && "codec"@[0] == 'c');
    reveal_strlit("mouse_queue_limit");
    assert("mouse_queue_limit"@.len() == 17 && "mouse_queue_limit"@[0] == 'm');
    reveal_strlit("host_name");
    assert("host_name"@.len() == 9 && "host_name"@[0] == 'h');
    reveal_strlit("app_id");
    assert("app_id"@.len() == 6 && "app_id"@[0] == 'a');
    reveal_strlit("encoder");
    assert("encoder"@.len() == 7 && "encoder"@[0] == 'e');
    reveal_strlit("display");
    assert("display"@.len() == 7 && "display"@[0] == 'd');
    reveal_strlit("display_id");
    assert("display_id"@.len() == 10 && "display_id"@[0] == 'd');
    reveal_strlit("virtual_display");
    assert("virtual_display"@.len() == 15 && "virtual_display"@[0] == 'v');
    reveal_strlit("input_protocol");
    assert("input_protocol"@.len() == 14 && "input_protocol"@[0] == 'i');
    reveal_strlit("disable_cuda");
    assert("disable_cuda"@.len() == 12 && "disable_cuda"@[0] == 'd');
}

proof fn lemma_link_step_input_protocol(m: ArgsModel, v: Seq<char>)
    ensures
        link_step(m, "input_protocol"@, v) == (ArgsModel { input_protocol: spec_to_lowercase(v), ..m }),
{
    reveal_strlit("host_id");
    assert("host_id"@.len() == 7 && "host_id"@[0] == 'h');
    reveal_strlit("server");
    assert("server"@.len() == 6 && "server"@[0] == 's');
    reveal_strlit("token");
    assert("token"@.len() == 5 && "token"@[0] == 't');
    reveal_strlit("res");
    assert("res"@.len() == 3 && "res"@[0] == 'r');
    reveal_strlit("fps");
    assert("fps"@.len() == 3 && "fps"@[0] == 'f');
    reveal_strlit("bitrate");
    assert("bitrate"@.len() == 7 && "bitrate"@[0] == 'b');
    reveal_strlit("codec");
    assert("codec"@.len() == 5 && "codec"@[0] == 'c');
    reveal_strlit("mouse_queue_limit");
    assert("mouse_queue_limit"@.len() == 17 && "mouse_queue_limit"@[0] == 'm');
    reveal_strlit("host_name");
    assert("host_name"@.len() == 9 && "host_name"@[0] == 'h');
    reveal_strlit("app_id");
    assert("app_id"@.len() == 6 && "app_id"@[0] == 'a');
    reveal_strlit("encoder");
    assert("encoder"@.len() == 7 && "encoder"@[0] == 'e');
    reveal_strlit("display");
    assert("display"@.len() == 7 && "display"@[0] == 'd');
    reveal_strlit("display_id");
    assert("display_id"@.len() == 10 && "display_id"@[0] == 'd');
    reveal_strlit("virtual_display");
    assert("virtual_display"@.len() == 15 && "virtual_display"@[0] == 'v');
    reveal_strlit("input_protocol");
    assert("input_protocol"@.len() == 14 && "input_protocol"@[0] == 'i');
    reveal_strlit("disable_cuda");
    assert("disable_cuda"@.len() == 12 && "disable_cuda"@[0] == 'd');
}

#[verifier::spinoff_prover]
#[verifier::rlimit(60)]
proof fn lemma_launch_session(
    host_id: Seq<char>,
    server_url: Seq<char>,
    token: Seq<char>,
    res: Seq<char>,
    fps: Seq<char>,
    bitrate: Seq<char>,
    codec: Seq<char>,
    app_id: i32,
    mouse_queue_limit: Seq<char>,
    host_name: Seq<char>,
    encoder: Seq<char>,
    display_id: Seq<char>,
    virtual_display: bool,
    input_protocol: Seq<char>,
)
    requires
        host_id.len() > 0,
        server_url.len() > 0,
        token.len() > 0,
    ensures
        link_args(
            launch_values(
                host_id,
                server_url,
                token,
                res,
                fps,
                bitrate,
                codec,
                app_id,
                mouse_queue_limit,
                host_name,
                encoder,
                display_id,
                virtual_display,
                input_protocol,
            ),
        ) == Some(
            ArgsModel {
                host_id,
                server_url: spec_ws_scheme(server_url),
                token,
                width: match spec_parse_resolution(res) {
                    Some((w, _)) => w,
                    None => 1920u32,
                },
                height: match spec_parse_resolution(res) {
                    Some((_, h)) => h,
                    None => 1080u32,
                },
                fps: match parse_u32(fps) {
                    Some(f) => f,
                    None => 60u32,
                },
                bitrate: match parse_u32(bitrate) {
                    Some(b) => b,
                    None => 8000u32,
                },
                codec: spec_to_lowercase(codec),
                app_id: parse_u32(signed_decimal_chars(app_id as int)),
                mouse_queue_limit: match parse_u32(mouse_queue_limit) {
                    Some(l) => l,
                    None => 256u32,
                },
                host_name,
                disable_cuda: false,
                input_protocol: spec_to_lowercase(or_default(input_protocol, "webrtc"@)),
                encoder: unset_or(spec_to_lowercase(or_default(encoder, "auto"@)), "auto"@),
                display_id: unset_or(or_default(display_id, "default"@), "default"@),
                virtual_display,
            },
        ),
{
    let plain = launch_values(
        host_id,
        server_url,
        token,
        res,
        fps,
        bitrate,
        codec,
        app_id,
        mouse_queue_limit,
        host_name,
        encoder,
        display_id,
        virtual_display,
        input_protocol,
    );
    let m0 = link_defaults();
    assert(link_settings(plain.take(0)) == m0) by {
        assert(plain.take(0) =~= Seq::<(Seq<char>, Seq<char>)>::empty());
    }
    let m1 = {
        let m = m0;
        let v = host_id;
        ArgsModel { host_id: v, ..m }
    };
    lemma_settings_step(plain, 1);
    assert(plain[0] == ("host_id"@, host_id)) by {
        reveal_strlit("host_id");
    }
    lemma_link_step_host_id(m0, host_id);
    assert(link_settings(plain.take(1)) == m1);
    let m2 = {
        let m = m1;
        let v = spec_ws_scheme(server_url);
        ArgsModel { server_url: v, ..m }
    };
    lemma_settings_step(plain, 2);
    assert(plain[1] == ("server"@, spec_ws_scheme(server_url))) by {
        reveal_strlit("server");
    }
    lemma_link_step_server(m1, spec_ws_scheme(server_url));
    assert(link_settings(plain.take(2)) == m2);
    let m3 = {
        let m = m2;
        let v = token;
        ArgsModel { token: v, ..m }
    };
    lemma_settings_step(plain, 3);
    assert(plain[2] == ("token"@, token)) by {
        reveal_strlit("token");
    }
    lemma_link_step_token(m2, token);
    assert(link_settings(plain.take(3)) == m3);
    let m4 = {
        let m = m3;
        let v = res;
        ArgsModel {
            width: match spec_parse_resolution(v) {
                Some((w, _)) => w,
                None => m.width,
            },
            height: match spec_parse_resolution(v) {
                Some((_, h)) => h,
                None => m.height,
            },
            ..m
        }
    };
    lemma_settings_step(plain, 4);
    assert(plain[3] == ("res"@, res)) by {
        reveal_strlit("res");
    }
    lemma_link_step_res(m3, res);
    assert(link_settings(plain.take(4)) == m4);
    let m5 = {
        let m = m4;
        let v = fps;
        ArgsModel {
            fps: match parse_u32(v) {
                Some(f) => f,
                None => m.fps,
            },
            ..m
        }
    };
    lemma_settings_step(plain, 5);
    assert(plain[4] == ("fps"@, fps)) by {
        reveal_strlit("fps");
    }
    lemma_link_step_fps(m4, fps);
    assert(link_settings(plain.take(5)) == m5);
    let m6 = {
        let m = m5;
        let v = bitrate;
        ArgsModel {
            bitrate: match parse_u32(v) {
                Some(b) => b,
                None => m.bitrate,
            },
            ..m
        }
    };
    lemma_settings_step(plain, 6);
    assert(plain[5] == ("bitrate"@, bitrate)) by {
        reveal_strlit("bitrate");
    }
    lemma_link_step_bitrate(m5, bitrate);
    assert(link_settings(plain.take(6)) == m6);
    let m7 = {
        let m = m6;
        let v = codec;
        ArgsModel { codec: spec_to_lowercase(v), ..m }
    };
    lemma_settings_step(plain, 7);
    assert(plain[6] == ("codec"@, codec)) by {
        reveal_strlit("codec");
    }
    lemma_link_step_codec(m6, codec);
    assert(link_settings(plain.take(7)) == m7);
    let m8 = {
        let m = m7;
        let v = mouse_queue_limit;
        ArgsModel {
            mouse_queue_limit: match parse_u32(v) {
                Some(l) => l,
                None => m.mouse_queue_limit,
            },
            ..m
        }
    };
    lemma_settings_step(plain, 8);
    assert(plain[7] == ("mouse_queue_limit"@, mouse_queue_limit)) by {
        reveal_strlit("mouse_queue_limit");
    }
    lemma_link_step_mouse_queue_limit(m7, mouse_queue_limit);
    assert(link_settings(plain.take(8)) == m8);
    let m9 = {
        let m = m8;
        let v = host_name;
        ArgsModel { host_name: v, ..m }
    };
    lemma_settings_step(plain, 9);
    assert(plain[8] == ("host_name"@, host_name)) by {
        reveal_strlit("host_name");
    }
    lemma_link_step_host_name(m8, host_name);
    assert(link_settings(plain.take(9)) == m9);
    let m10 = {
        let m = m9;
        let v = signed_decimal_chars(app_id as int);
        ArgsModel {
            app_id: match parse_u32(v) {
                Some(id) => Some(id),
                None => m.app_id,
            },
            ..m
        }
    };
    lemma_settings_step(plain, 10);
    assert(plain[9] == ("app_id"@, signed_decimal_chars(app_id as int))) by {
        reveal_strlit("app_id");
    }
    lemma_link_step_app_id(m9, signed_decimal_chars(app_id as int));
    assert(link_settings(plain.take(10)) == m10);
    let m11 = {
        let m = m10;
        let v = or_default(encoder, "auto"@);
        ArgsModel {
            encoder: match unset_or(spec_to_lowercase(v), "auto"@) {
                Some(e) => Some(e),
                None => m.encoder,
            },
            ..m
        }
    };
    lemma_settings_step(plain, 11);
    assert(plain[10] == ("encoder"@, or_default(encoder, "auto"@))) by {
        reveal_strlit("encoder");
    }
    lemma_link_step_encoder(m10, or_default(encoder, "auto"@));
    assert(link_settings(plain.take(11)) == m11);
    let m12 = {
        let m = m11;
        let v = or_default(display_id, "default"@);
        ArgsModel {
            display_id: match unset_or(v, "default"@) {
                Some(d) => Some(d),
                None => m.display_id,
            },
            ..m
        }
    };
    lemma_settings_step(plain, 12);
    assert(plain[11] == ("display"@, or_default(display_id, "default"@))) by {
        reveal_strlit("display");
    }
    lemma_link_step_display(m11, or_default(display_id, "default"@));
    assert(link_settings(plain.take(12)) == m12);
    let m13 = {
        let m = m12;
        let v = bool_chars(virtual_display);
        ArgsModel { virtual_display: v == "1"@ || eq_ignore_ascii_case(v, "true"@), ..m }
    };
    lemma_settings_step(plain, 13);
    assert(plain[12] == ("virtual_display"@, bool_chars(virtual_display))) by {
        reveal_strlit("virtual_display");
    }
    lemma_link_step_virtual_display(m12, bool_chars(virtual_display));
    assert(link_settings(plain.take(13)) == m13);
    let m14 = {
        let m = m13;
        let v = or_default(input_protocol, "webrtc"@);
        ArgsModel { input_protocol: spec_to_lowercase(v), ..m }
    };
    lemma_settings_step(plain, 14);
    assert(plain[13] == ("input_protocol"@, or_default(input_protocol, "webrtc"@))) by {
        reveal_strlit("input_protocol");
    }
    lemma_link_step_input_protocol(m13, or_default(input_protocol, "webrtc"@));
    assert(link_settings(plain.take(14)) == m14);
    assert(plain.take(14) =~= plain);
    assert(m13.virtual_display == virtual_display) by {
        reveal_strlit("true");
        reveal_strlit("1");
        if virtual_display {
            assert(bool_chars(virtual_display) =~= "true"@);
        } else {
            assert(bool_chars(virtual_display).len() == 5);
            assert("1"@.len() == 1);
            assert("true"@.len() == 4);
        }
    }
}

/// A native-client link reads back as the session it was built for: its
/// query is `escaped_pairs` of `launch_bytes` (keys that need no escaping,
/// each value's UTF-8 bytes percent-encoded), whose decoded pairs are
/// `launch_values`; and those, applied as a link's query, set each setting
/// from its own value, none overwritten by a later pair. With the contracts
/// of `native_client_link` and `parse_deeplink_url`, the link that the first
/// builds is parsed by the second into exactly this session.
pub proof fn law_launch_link_settings(
    host_id: Seq<char>,
    server_url: Seq<char>,
    token: Seq<char>,
    res: Seq<char>,
    fps: Seq<char>,
    bitrate: Seq<char>,
    codec: Seq<char>,
    app_id: i32,
    mouse_queue_limit: Seq<char>,
    host_name: Seq<char>,
    encoder: Seq<char>,
    display_id: Seq<char>,
    virtual_display: bool,
    input_protocol: Seq<char>,
)
    requires
        host_id.len() > 0,
        server_url.len() > 0,
        token.len() > 0,
    ensures
        ({
            let bytes = launch_bytes(
                host_id,
                server_url,
                token,
                res,
                fps,
                bitrate,
                codec,
                app_id,
                mouse_queue_limit,
                host_name,
                encoder,
                display_id,
                virtual_display,
                input_protocol,
            );
            &&& form_safe(bytes)
            &&& escaped_pairs(bytes) == launch_pairs(
                host_id,
                server_url,
                token,
                res,
                fps,
                bitrate,
                codec,
                app_id,
                mouse_queue_limit,
                host_name,
                encoder,
                display_id,
                virtual_display,
                input_protocol,
            )
            &&& decoded_pairs(bytes) == launch_values(
                host_id,
                server_url,
                token,
                res,
                fps,
                bitrate,
                codec,
                app_id,
                mouse_queue_limit,
                host_name,
                encoder,
                display_id,
                virtual_display,
                input_protocol,
            )
        }),
        link_args(
            launch_values(
                host_id,
                server_url,
                token,
                res,
                fps,
                bitrate,
                codec,
                app_id,
                mouse_queue_limit,
                host_name,
                encoder,
                display_id,
                virtual_display,
                input_protocol,
            ),
        ) == Some(
            ArgsModel {
                host_id,
                server_url: spec_ws_scheme(server_url),
                token,
                width: match spec_parse_resolution(res) {
                    Some((w, _)) => w,
                    None => 1920u32,
                },
                height: match spec_parse_resolution(res) {
                    Some((_, h)) => h,
                    None => 1080u32,
                },
                fps: match parse_u32(fps) {
                    Some(f) => f,
                    None => 60u32,
                },
                bitrate: match parse_u32(bitrate) {
                    Some(b) => b,
                    None => 8000u32,
                },
                codec: spec_to_lowercase(codec),
                app_id: parse_u32(signed_decimal_chars(app_id as int)),
                mouse_queue_limit: match parse_u32(mouse_queue_limit) {
                    Some(l) => l,
                    None => 256u32,
                },
                host_name,
                disable_cuda: false,
                input_protocol: spec_to_lowercase(or_default(input_protocol, "webrtc"@)),
                encoder: unset_or(spec_to_lowercase(or_default(encoder, "auto"@)), "auto"@),
                display_id: unset_or(or_default(display_id, "default"@), "default"@),
                virtual_display,
            },
        ),
{
    lemma_launch_bytes(
        host_id,
        server_url,
        token,
        res,
        fps,
        bitrate,
        codec,
        app_id,
        mouse_queue_limit,
        host_name,
        encoder,
        display_id,
        virtual_display,
        input_protocol,
    );
    lemma_launch_session(
        host_id,
        server_url,
        token,
        res,
        fps,
        bitrate,
        codec,
        app_id,
        mouse_queue_limit,
        host_name,
        encoder,
        display_id,
        virtual_display,
        input_protocol,
    );
}

} // verus!
