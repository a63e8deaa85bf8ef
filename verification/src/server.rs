//! The decisions behind the two local processes: the main API server and
//! the SDK bridge it talks to. Which port each uses, what each is told
//! through its environment, what is reported of them, and the plain part of
//! their shared state. Starting and stopping the processes is left to the
//! caller.

use vstd::prelude::*;
use crate::text::{chars_of, copy_range, decimal, decimal_string, has_prefix, starts_with, string_from_chars};

verus! {

/// The main HTTP server sidecar (`/v1/*`).
pub const SERVER_SIDECAR_NAME: &'static str = "api-for-cursor-server";

/// The runtime that runs the bridge (Node: Bun's HTTP/2 client breaks the
/// SDK's gRPC calls).
pub const BRIDGE_RUNTIME_EXE: &'static str = "node.exe";

/// The bridge script.
pub const BRIDGE_SCRIPT: &'static str = "cursor-sdk-local-agent-bridge.mjs";

/// The first port tried for the bridge.
pub const DEFAULT_BRIDGE_PORT: u16 = 8792;

/// How many ports above the default are tried before giving up.
pub const BRIDGE_PORT_SCAN: u16 = 100;

/// The bridge's per-run timeout in milliseconds.
pub const BRIDGE_RUN_TIMEOUT_MS: u32 = 120000;

/// The loopback address both processes use.
pub const LOOPBACK: &'static str = "127.0.0.1";

/// What is reported of the server.
#[derive(Clone, Copy, Debug, PartialEq, Eq, Structural)]
pub struct ServerStatus {
    pub running: bool,
    pub port: u16,
}

/// The plain part of the server's shared state: the port it was started on
/// (0 before the first start) and whether it runs. The process handles are
/// kept beside it by the caller.
#[derive(Clone, Copy, Debug, PartialEq, Eq, Structural)]
pub struct ServerState {
    pub port: u16,
    pub running: bool,
}

impl ServerState {
    /// The state before anything was started.
    pub fn new() -> (s: ServerState)
        ensures
            s.port == 0,
            !s.running,
    {
        ServerState { port: 0, running: false }
    }

    /// Records that both processes were stopped; the port is kept.
    pub fn mark_stopped(&mut self)
        ensures
            final(self).port == old(self).port,
            !final(self).running,
    {
        self.running = false;
    }

    /// Records that the server was started on `port`.
    pub fn mark_started(&mut self, port: u16)
        ensures
            final(self).port == port,
            final(self).running,
    {
        self.port = port;
        self.running = true;
    }

    /// When the server already runs, what starting it again reports (its
    /// status, unchanged); `None` when it must be started.
    pub fn already_running(&self) -> (r: Option<ServerStatus>)
        ensures
            r is Some <==> self.running,
            r matches Some(st) ==> st == snapshot_view(*self),
    {
        if self.running {
            Some(snapshot(self))
        } else {
            None
        }
    }
}

/// The status reported for a state.
pub open spec fn snapshot_view(state: ServerState) -> ServerStatus {
    ServerStatus { running: state.running, port: state.port }
}

/// The status reported for a state.
pub fn snapshot(state: &ServerState) -> (s: ServerStatus)
    ensures
        s == snapshot_view(*state),
{
    ServerStatus { running: state.running, port: state.port }
}

/// A stopped server reports itself as not running, on the port it had.
pub proof fn law_stop_reports_stopped(before: ServerState, after: ServerState)
    requires
        after.port == before.port,
        !after.running,
    ensures
        snapshot_view(after) == (ServerStatus { running: false, port: before.port }),
{
}

// ---------------------------------------------------------------------------
// Base URL
// ---------------------------------------------------------------------------

/// `http://127.0.0.1:<port>/v1`.
pub open spec fn base_url_view(port: u16) -> Seq<char> {
    "http://127.0.0.1:"@ + decimal(port as nat) + "/v1"@
}

/// The port the base URL names: the one the server was started on, or the
/// configured one before the first start.
pub open spec fn url_port(state_port: u16, settings_port: u16) -> u16 {
    if state_port != 0 {
        state_port
    } else {
        settings_port
    }
}

/// The OpenAI-compatible base URL that clients are pointed at.
pub fn get_base_url(state_port: u16, settings_port: u16) -> (r: String)
    ensures
        r@ == base_url_view(url_port(state_port, settings_port)),
{
    let port = if state_port != 0 {
        state_port
    } else {
        settings_port
    };
    let mut url = "http://127.0.0.1:".to_string();
    let digits = decimal_string(port as u128);
    url.append(digits.as_str());
    url.append("/v1");
    url
}

// ---------------------------------------------------------------------------
// Verbatim paths
// ---------------------------------------------------------------------------

/// The Windows verbatim prefix for UNC paths.
pub const VERBATIM_UNC: &'static str = "\\\\?\\UNC\\";

/// The Windows verbatim prefix.
pub const VERBATIM: &'static str = "\\\\?\\";

/// `p` without a Windows verbatim prefix: `\\?\UNC\server\share` becomes
/// `\\server\share`, `\\?\C:\dir` becomes `C:\dir`, anything else stays.
pub open spec fn strip_verbatim_view(p: Seq<char>) -> Seq<char> {
    if has_prefix(p, VERBATIM_UNC@) {
        "\\\\"@ + p.skip(VERBATIM_UNC@.len() as int)
    } else if has_prefix(p, VERBATIM@) {
        p.skip(VERBATIM@.len() as int)
    } else {
        p
    }
}

/// Strips the Windows verbatim (`\\?\`) prefix from a path, which Node's
/// module resolver cannot handle (see [`strip_verbatim_view`]).
pub fn strip_verbatim(p: &str) -> (r: String)
    ensures
        r@ == strip_verbatim_view(p@),
{
    let pc = chars_of(p);
    let unc = chars_of(VERBATIM_UNC);
    let plain = chars_of(VERBATIM);
    if starts_with(pc.as_slice(), unc.as_slice()) {
        let rest = copy_range(pc.as_slice(), unc.len(), pc.len());
        let mut r = "\\\\".to_string();
        let rest_text = string_from_chars(rest.as_slice());
        r.append(rest_text.as_str());
        assert(rest@ =~= p@.skip(VERBATIM_UNC@.len() as int));
        r
    } else if starts_with(pc.as_slice(), plain.as_slice()) {
        let rest = copy_range(pc.as_slice(), plain.len(), pc.len());
        assert(rest@ =~= p@.skip(VERBATIM@.len() as int));
        string_from_chars(rest.as_slice())
    } else {
        p.to_string()
    }
}

// ---------------------------------------------------------------------------
// Bridge port
// ---------------------------------------------------------------------------

/// The port tried at step `offset`, while steps remain.
pub open spec fn bridge_candidate_view(offset: u16) -> Option<u16> {
    if offset <= BRIDGE_PORT_SCAN {
        Some((DEFAULT_BRIDGE_PORT + offset) as u16)
    } else {
        None
    }
}

/// The port to try at step `offset` (the default port plus the offset), or
/// `None` once all `BRIDGE_PORT_SCAN + 1` steps are used.
pub fn bridge_candidate(offset: u16) -> (r: Option<u16>)
    ensures
        r == bridge_candidate_view(offset),
{
    if offset <= BRIDGE_PORT_SCAN {
        Some(DEFAULT_BRIDGE_PORT + offset)
    } else {
        None
    }
}

/// Whether `p` is the bridge port chosen after trying candidates in order
/// (`bound[i]` says whether candidate `i` could be bound): the first one that
/// could, or the default port when none could.
pub open spec fn picks_port(bound: Seq<bool>, p: u16) -> bool {
    &&& (exists|i: int| 0 <= i < bound.len() && bound[i]) ==> exists|i: int|
        0 <= i < bound.len() && bound[i] && (forall|j: int| 0 <= j < i ==> !#[trigger] bound[j])
            && p == DEFAULT_BRIDGE_PORT + i
    &&& !(exists|i: int| 0 <= i < bound.len() && bound[i]) ==> p == DEFAULT_BRIDGE_PORT
}

/// The bridge port after trying candidates in order: `bound[i]` says whether
/// candidate `i` could be bound. The first one that could is used; when none
/// could (or nothing was tried) the default port is used.
pub fn pick_bridge_port(bound: &Vec<bool>) -> (p: u16)
    requires
        bound@.len() <= BRIDGE_PORT_SCAN + 1,
    ensures
        picks_port(bound@, p),
{
    let mut i: usize = 0;
    while i < bound.len()
        invariant
            bound@.len() <= BRIDGE_PORT_SCAN + 1,
            i <= bound@.len(),
            forall|j: int| 0 <= j < i ==> !#[trigger] bound@[j],
        decreases bound.len() - i,
    {
        if bound[i] {
            return DEFAULT_BRIDGE_PORT + (i as u16);
        }
        i = i + 1;
    }
    DEFAULT_BRIDGE_PORT
}

// ---------------------------------------------------------------------------
// Environments
// ---------------------------------------------------------------------------

/// The meaning of environment entries.
pub open spec fn env_view(env: Seq<(String, String)>) -> Seq<(Seq<char>, Seq<char>)> {
    env.map_values(|e: (String, String)| (e.0@, e.1@))
}

/// The bridge's environment.
pub open spec fn bridge_env_view(port: u16, token: Seq<char>) -> Seq<(Seq<char>, Seq<char>)> {
    seq![
        ("CURSOR_SDK_BRIDGE_HOST"@, LOOPBACK@),
        ("CURSOR_SDK_BRIDGE_PORT"@, decimal(port as nat)),
        ("CURSOR_SDK_BRIDGE_TOKEN"@, token),
        ("CURSOR_SDK_BRIDGE_RUN_TIMEOUT_MS"@, decimal(BRIDGE_RUN_TIMEOUT_MS as nat)),
    ]
}

/// The bridge URL the server is given: `http://127.0.0.1:<port>/sdk`.
pub open spec fn bridge_url_view(port: u16) -> Seq<char> {
    "http://127.0.0.1:"@ + decimal(port as nat) + "/sdk"@
}

/// The server's environment: its port and the user's key, and, when the
/// bridge started, the bridge's URL and token.
pub open spec fn server_env_view(port: u16, api_key: Seq<char>, bridge: Option<(u16, Seq<char>)>) -> Seq<
    (Seq<char>, Seq<char>),
> {
    let base = seq![("PORT"@, decimal(port as nat)), ("CURSOR_API_KEY"@, api_key)];
    match bridge {
        Some((bp, token)) => base + seq![
            ("CURSOR_SDK_BRIDGE_URL"@, bridge_url_view(bp)),
            ("CURSOR_SDK_BRIDGE_TOKEN"@, token),
        ],
        None => base,
    }
}

fn push_env(env: &mut Vec<(String, String)>, key: &str, value: String)
    ensures
        env_view(final(env)@) == env_view(old(env)@).push((key@, value@)),
{
    let ghost before = env@;
    env.push((key.to_string(), value));
    assert(env_view(env@) =~= env_view(before).push((key@, value@)));
}

/// The bridge's environment: where to listen, the shared token, and the
/// per-run timeout.
pub fn bridge_env(port: u16, token: &str) -> (env: Vec<(String, String)>)
    ensures
        env_view(env@) == bridge_env_view(port, token@),
{
    let mut env: Vec<(String, String)> = Vec::new();
    assert(env_view(env@) =~= seq![]);
    push_env(&mut env, "CURSOR_SDK_BRIDGE_HOST", LOOPBACK.to_string());
    push_env(&mut env, "CURSOR_SDK_BRIDGE_PORT", decimal_string(port as u128));
    push_env(&mut env, "CURSOR_SDK_BRIDGE_TOKEN", token.to_string());
    push_env(
        &mut env,
        "CURSOR_SDK_BRIDGE_RUN_TIMEOUT_MS",
        decimal_string(BRIDGE_RUN_TIMEOUT_MS as u128),
    );
    assert(env_view(env@) =~= bridge_env_view(port, token@));
    env
}

/// The server's environment (see [`server_env_view`]); `bridge` holds the
/// bridge's port and token when the bridge started.
pub fn server_env(port: u16, api_key: &str, bridge: Option<(u16, &str)>) -> (env: Vec<
    (String, String),
>)
    ensures
        env_view(env@) == server_env_view(
            port,
            api_key@,
            match bridge {
                Some((bp, t)) => Some((bp, t@)),
                None => None,
            },
        ),
{
    let mut env: Vec<(String, String)> = Vec::new();
    assert(env_view(env@) =~= seq![]);
    push_env(&mut env, "PORT", decimal_string(port as u128));
    push_env(&mut env, "CURSOR_API_KEY", api_key.to_string());
    match bridge {
        Some((bp, token)) => {
            let mut url = "http://127.0.0.1:".to_string();
            let digits = decimal_string(bp as u128);
            url.append(digits.as_str());
            url.append("/sdk");
            push_env(&mut env, "CURSOR_SDK_BRIDGE_URL", url);
            push_env(&mut env, "CURSOR_SDK_BRIDGE_TOKEN", token.to_string());
            assert(env_view(env@) =~= server_env_view(port, api_key@, Some((bp, token@))));
        },
        None => {
            assert(env_view(env@) =~= server_env_view(port, api_key@, None));
        },
    }
    env
}

/// The server learns the bridge's token exactly when the bridge started, and
/// then it is the token the bridge was given.
pub proof fn law_shared_token(port: u16, api_key: Seq<char>, bp: u16, token: Seq<char>)
    ensures
        server_env_view(port, api_key, Some((bp, token))).contains(
            ("CURSOR_SDK_BRIDGE_TOKEN"@, token),
        ),
        bridge_env_view(bp, token).contains(("CURSOR_SDK_BRIDGE_TOKEN"@, token)),
        bridge_env_view(bp, token).contains(("CURSOR_SDK_BRIDGE_PORT"@, decimal(bp as nat))),
        server_env_view(port, api_key, Some((bp, token))).contains(
            ("CURSOR_SDK_BRIDGE_URL"@, bridge_url_view(bp)),
        ),
{
    let s = server_env_view(port, api_key, Some((bp, token)));
    assert(s[3] == ("CURSOR_SDK_BRIDGE_TOKEN"@, token));
    assert(s[2] == ("CURSOR_SDK_BRIDGE_URL"@, bridge_url_view(bp)));
    let b = bridge_env_view(bp, token);
    assert(b[2] == ("CURSOR_SDK_BRIDGE_TOKEN"@, token));
    assert(b[1] == ("CURSOR_SDK_BRIDGE_PORT"@, decimal(bp as nat)));
}

// ---------------------------------------------------------------------------
// Token and log lines
// ---------------------------------------------------------------------------

/// A lowercase hexadecimal digit.
pub open spec fn is_lower_hex(c: char) -> bool {
    ('0' <= c && c <= '9') || ('a' <= c && c <= 'f')
}

/// Calls `uuid::Uuid::new_v4` and formats it with `simple()`: 32 lowercase
/// hexadecimal digits of a random version-4 UUID. The value depends on
/// chance; only its form is promised. (`new_v4` panics when the operating
/// system's random source fails.)
#[verifier::external_body]
fn new_bridge_token() -> (t: String)
    ensures
        is_token(t@),
{
    uuid::Uuid::new_v4().simple().to_string()
}

/// The form of the bridge token: 32 lowercase hexadecimal digits.
pub open spec fn is_token(t: Seq<char>) -> bool {
    &&& t.len() == 32
    &&& forall|i: int| 0 <= i < 32 ==> is_lower_hex(#[trigger] t[i])
}

/// How the two processes are to be started.
pub struct LaunchPlan {
    /// The main server's port: the configured one.
    pub port: u16,
    /// The user's key handed to the main server (empty when it could not be
    /// read).
    pub api_key: String,
    /// The random token shared by the bridge and the main server.
    pub token: String,
    /// The bridge's port.
    pub bridge_port: u16,
    /// The bridge's environment.
    pub bridge_env: Vec<(String, String)>,
}

/// What a request to start the server comes to.
pub enum Launch {
    /// The server already runs; its status is reported unchanged.
    Running(ServerStatus),
    /// Both processes are to be started, the bridge first.
    Start(LaunchPlan),
}

/// Decides how to start the server: nothing is started while it runs;
/// otherwise the main server gets the configured port and the key that was
/// read (empty when reading failed), and the bridge gets a fresh random
/// token and the first port that could be bound (`bound[i]` for candidate
/// `i`, see [`pick_bridge_port`]).
pub fn plan_launch(
    state: &ServerState,
    settings_port: u16,
    api_key: Result<String, String>,
    bound: &Vec<bool>,
) -> (r: Launch)
    requires
        bound@.len() <= BRIDGE_PORT_SCAN + 1,
    ensures
        r is Running <==> state.running,
        r matches Launch::Running(st) ==> st == snapshot_view(*state),
        r matches Launch::Start(plan) ==> {
            &&& plan.port == settings_port
            &&& plan.api_key@ == match api_key {
                Ok(k) => k@,
                Err(_) => Seq::<char>::empty(),
            }
            &&& is_token(plan.token@)
            &&& picks_port(bound@, plan.bridge_port)
            &&& env_view(plan.bridge_env@) == bridge_env_view(plan.bridge_port, plan.token@)
        },
{
    if let Some(st) = state.already_running() {
        return Launch::Running(st);
    }
    let key = match api_key {
        Ok(k) => k,
        Err(_) => String::new(),
    };
    let token = new_bridge_token();
    let bridge_port = pick_bridge_port(bound);
    let bridge_env = bridge_env(bridge_port, token.as_str());
    Launch::Start(LaunchPlan { port: settings_port, api_key: key, token, bridge_port, bridge_env })
}

impl LaunchPlan {
    /// The main server's environment once the bridge was (or was not)
    /// started: the bridge's URL and token are passed only when it started.
    pub fn server_env(&self, bridge_started: bool) -> (env: Vec<(String, String)>)
        ensures
            env_view(env@) == server_env_view(
                self.port,
                self.api_key@,
                if bridge_started {
                    Some((self.bridge_port, self.token@))
                } else {
                    None
                },
            ),
    {
        if bridge_started {
            server_env(self.port, self.api_key.as_str(), Some((self.bridge_port, self.token.as_str())))
        } else {
            server_env(self.port, self.api_key.as_str(), None)
        }
    }
}

/// A line for the server log: `[<label>] <text>`.
pub fn log_line(label: &str, text: &str) -> (r: String)
    ensures
        r@ == "["@ + label@ + "] "@ + text@,
{
    let mut r = "[".to_string();
    r.append(label);
    r.append("] ");
    r.append(text);
    r
}

/// What the main server process reported.
pub enum ServerEvent {
    /// A piece of its output (standard output or standard error).
    Output(String),
    /// It ended.
    Terminated,
    /// Anything else.
    Other,
}

/// How to answer a report of the main server: the line to log, if any, and
/// whether both processes are to be stopped (when it ended).
pub fn server_event_action(event: ServerEvent) -> (r: (Option<String>, bool))
    ensures
        event matches ServerEvent::Output(t) ==> (r.0 matches Some(l) && l@ == "[server] "@
            + t@ && !r.1),
        event is Terminated ==> (r.0 matches Some(l) && l@ == "[server] process terminated"@
            && r.1),
        event is Other ==> r.0 is None && !r.1,
{
    proof {
        reveal_strlit("[");
        reveal_strlit("server");
        reveal_strlit("] ");
        reveal_strlit("[server] ");
        reveal_strlit("process terminated");
        reveal_strlit("[server] process terminated");
        assert("["@ + "server"@ + "] "@ =~= "[server] "@);
        assert("["@ + "server"@ + "] "@ + "process terminated"@ =~= "[server] process terminated"@);
    }
    match event {
        ServerEvent::Output(t) => {
            let line = log_line("server", t.as_str());
            assert(line@ =~= "[server] "@ + t@);
            (Some(line), false)
        },
        ServerEvent::Terminated => (Some(log_line("server", "process terminated")), true),
        ServerEvent::Other => (None, false),
    }
}

/// What starting the main server came to, once the bridge was (or was not)
/// started: when it started, the state records it on the planned port and
/// its status is reported; when it failed, the state is unchanged, its
/// error is reported, and the bridge, if it was started, is to be stopped
/// (`true`) so that no process is left behind.
pub fn finish_launch(
    state: &mut ServerState,
    plan: &LaunchPlan,
    bridge_started: bool,
    server: Result<(), String>,
) -> (r: (Result<ServerStatus, String>, bool))
    ensures
        server is Ok ==> {
            &&& final(state).port == plan.port
            &&& final(state).running
            &&& r.0 == Ok::<ServerStatus, String>(snapshot_view(*final(state)))
            &&& !r.1
        },
        server matches Err(m) ==> {
            &&& *final(state) == *old(state)
            &&& r.0 == Err::<ServerStatus, String>(m)
            &&& r.1 == bridge_started
        },
{
    match server {
        Ok(()) => {
            state.mark_started(plan.port);
            (Ok(snapshot(state)), false)
        },
        Err(m) => (Err(m), bridge_started),
    }
}

} // verus!
