# lunaris

The core of the Lunaris remote-desktop system — the agent that runs on a
host, the signaling server, and the native clients — written in Verus, with
each rule stated as a contract and proved.

`src/` is the verified library:

- `protocol`, `dispatch`: the host's input channels — packet decoding, mouse
  coalescing, and what each input does.
- `client_input`, `client_bridge`, `launch`: the native client — the packets
  its input sends, its session state, its deep links, command line and
  single-instance messages.
- `sdl_input`, `overlay`: the SDL desktop client — its input events, and its
  notch menu and settings dialog as a state machine.
- `rtp`, `receiver`, `obu`, `decoder`: video — RTP depacketizing, the
  reorder buffer and keyframe gating of the receive path, AV1 OBU framing,
  and the decoder and presentation policy.
- `stream`, `agent_session`: the agent's streaming session — codec
  negotiation, bitrate control, keyframe requests and RTP framing.
- `signaling`, `assoc`, `hosts`, `auth`, `passwords`, `admin`, `schema`,
  `server_config`: the server — the signaling switchboard, host status,
  credentials and pairing PINs, ICE servers, bearer tokens and logins, the
  administration rules, schema upgrades and settings.
- `dashboard`, `integration`: the client's dashboard calls, and the files
  that register the programs with the desktop.
- `agent`, `agent_ui`, `ids`, `version`, `text`, `common`: configuration,
  identifiers, update checks, text helpers and the shared data types.

`tests/` runs the library on concrete values; `app/` is the agent's
command-line front end (files, JSON, arguments) and the server's login
tokens (`app/server_auth.rs`: JSON Web Tokens signed and checked with
`jsonwebtoken`, over claims that `auth::session_claims` decides; the
claims need serde's derives, so their serialisable copy lives there).

What the library leaves out: the clients' windows and media plumbing (Qt,
SDL, WebRTC, ffmpeg) and the server's HTTP and database layer. Each of
them feeds decisions that are in the library: `auth::bearer_token` and
`auth::admit_verified` answer a request's credentials, `admin::check_user_creation`
a new user once its name has been looked up. Results that rest on outside
code are named rather than computed, and the contracts say what holds of
them: what bcrypt accepts, what the URL parser gives for text in general
(one link shape is stated in full), a machine's host name, random
identifiers.
