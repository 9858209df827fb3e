//! The `ssh` process that provides the SOCKS5 proxy: its command line, the
//! decision taken at each readiness poll, and, for the standalone proxy,
//! the tunnel's command line and restart rule.

use vstd::prelude::*;
use crate::config::Config;
use crate::proxy_config::SshTunnelConfig;
use crate::text::{chars_of, extend_chars, push_decimal, spec_decimal, string_from_chars};

verus! {

/// The SSH-backed SOCKS5 proxy of the pipeline.
pub struct Proxy;

/// What a readiness poll of the SOCKS port leads to.
#[derive(PartialEq, Eq, Structural, Clone, Copy, Debug)]
pub enum ReadyStep {
    /// The port accepts connections: the proxy is up.
    Ready,
    /// Not yet: wait one poll interval and try again.
    Retry,
    /// ssh exited before the port came up.
    SshExited,
    /// The deadline passed without the port coming up.
    TimedOut,
}

/// Seconds to wait for ssh to bring the SOCKS port up.
pub const READY_TIMEOUT_SECS: u64 = 15;

/// Milliseconds between two readiness polls.
pub const READY_POLL_INTERVAL_MS: u64 = 200;

/// The arguments of the ssh command: a dynamic (SOCKS) forward on the
/// configured port, no remote command, no prompts, and failure when the
/// forward cannot be set up.
pub open spec fn spec_ssh_args(port: u16, target: Seq<char>) -> Seq<Seq<char>> {
    seq![
        "-D"@,
        spec_decimal(port as nat),
        "-N"@,
        "-o"@,
        "BatchMode=yes"@,
        "-o"@,
        "StrictHostKeyChecking=no"@,
        "-o"@,
        "ExitOnForwardFailure=yes"@,
        target,
    ]
}

/// The next step of the readiness wait, from the outcome of one connection
/// attempt, whether the deadline is still ahead, and whether ssh still runs.
pub open spec fn spec_ready_step(connected: bool, before_deadline: bool, ssh_running: bool) -> ReadyStep {
    if connected {
        ReadyStep::Ready
    } else if !before_deadline {
        ReadyStep::TimedOut
    } else if !ssh_running {
        ReadyStep::SshExited
    } else {
        ReadyStep::Retry
    }
}

fn owned(s: &str) -> (res: String)
    ensures
        res@ == s@,
{
    s.to_owned()
}

impl Proxy {
    /// The arguments ssh is started with for `cfg`.
    pub fn ssh_args(cfg: &Config) -> (res: Vec<String>)
        ensures
            res@.map_values(|s: String| s@) == spec_ssh_args(cfg.socks.port, cfg.ssh.target@),
    {
        let mut port: Vec<char> = Vec::new();
        push_decimal(&mut port, cfg.socks.port as u64);
        let mut v: Vec<String> = Vec::new();
        v.push(owned("-D"));
        v.push(string_from_chars(&port));
        v.push(owned("-N"));
        v.push(owned("-o"));
        v.push(owned("BatchMode=yes"));
        v.push(owned("-o"));
        v.push(owned("StrictHostKeyChecking=no"));
        v.push(owned("-o"));
        v.push(owned("ExitOnForwardFailure=yes"));
        v.push(cfg.ssh.target.clone());
        assert(v@.map_values(|s: String| s@) =~= spec_ssh_args(cfg.socks.port, cfg.ssh.target@));
        v
    }

    /// Decides what follows one readiness poll of the SOCKS port.
    pub fn ready_step(connected: bool, before_deadline: bool, ssh_running: bool) -> (res: ReadyStep)
        ensures
            res == spec_ready_step(connected, before_deadline, ssh_running),
    {
        if connected {
            ReadyStep::Ready
        } else if !before_deadline {
            ReadyStep::TimedOut
        } else if !ssh_running {
            ReadyStep::SshExited
        } else {
            ReadyStep::Retry
        }
    }
}

/// What happened to the standalone proxy's SSH tunnel.
#[derive(PartialEq, Eq, Structural, Clone, Copy, Debug)]
pub enum TunnelEvent {
    /// ssh could not be started.
    SpawnFailed,
    /// ssh started but the local port did not come up in time.
    PortTimeout,
    /// The tunnel was up and ssh exited.
    Exited,
}

/// Seconds the standalone tunnel waits before it tries again.
pub const TUNNEL_RETRY_SECS: u64 = 5;

/// Connection attempts made while waiting for the tunnel port.
pub const PORT_WAIT_ATTEMPTS: u32 = 30;

/// Whether the tunnel is started again after `event`: always, unless a
/// shutdown was requested.
pub open spec fn spec_restarts(event: TunnelEvent, shutdown: bool) -> bool {
    !shutdown
}

/// Decides whether the tunnel is started again after `event`.
pub fn restarts(event: TunnelEvent, shutdown: bool) -> (res: bool)
    ensures
        res == spec_restarts(event, shutdown),
{
    !shutdown
}

/// `user@host`.
pub open spec fn spec_login(t: SshTunnelConfig) -> Seq<char> {
    t.user@ + "@"@ + t.host@
}

/// The arguments of the standalone tunnel's ssh command: a dynamic forward
/// on the loopback tunnel port, keep-alives, a connect timeout, new host
/// keys accepted, the SSH port and login; with no password, prompts are
/// disabled as well (with one, it is supplied through the askpass helper).
pub open spec fn spec_tunnel_args(t: SshTunnelConfig) -> Seq<Seq<char>> {
    let base = seq![
        "-D"@,
        "127.0.0.1:"@ + spec_decimal(t.local_port as nat),
        "-N"@,
        "-o"@,
        "ExitOnForwardFailure=yes"@,
        "-o"@,
        "ServerAliveInterval=30"@,
        "-o"@,
        "ServerAliveCountMax=3"@,
        "-o"@,
        "ConnectTimeout=10"@,
        "-o"@,
        "StrictHostKeyChecking=accept-new"@,
        "-p"@,
        spec_decimal(t.ssh_port as nat),
        spec_login(t),
    ];
    if t.password is Some {
        base
    } else {
        base + seq!["-o"@, "BatchMode=yes"@]
    }
}

/// The arguments the standalone tunnel starts ssh with.
pub fn tunnel_args(t: &SshTunnelConfig) -> (res: Vec<String>)
    ensures
        res@.map_values(|s: String| s@) == spec_tunnel_args(*t),
{
    let mut fwd = chars_of("127.0.0.1:");
    push_decimal(&mut fwd, t.local_port as u64);
    let mut port: Vec<char> = Vec::new();
    push_decimal(&mut port, t.ssh_port as u64);
    let mut login = chars_of(t.user.as_str());
    extend_chars(&mut login, &chars_of("@"));
    extend_chars(&mut login, &chars_of(t.host.as_str()));
    let mut v: Vec<String> = Vec::new();
    v.push(owned("-D"));
    v.push(string_from_chars(&fwd));
    v.push(owned("-N"));
    v.push(owned("-o"));
    v.push(owned("ExitOnForwardFailure=yes"));
    v.push(owned("-o"));
    v.push(owned("ServerAliveInterval=30"));
    v.push(owned("-o"));
    v.push(owned("ServerAliveCountMax=3"));
    v.push(owned("-o"));
    v.push(owned("ConnectTimeout=10"));
    v.push(owned("-o"));
    v.push(owned("StrictHostKeyChecking=accept-new"));
    v.push(owned("-p"));
    v.push(string_from_chars(&port));
    v.push(string_from_chars(&login));
    if t.password.is_none() {
        v.push(owned("-o"));
        v.push(owned("BatchMode=yes"));
    }
    assert(v@.map_values(|s: String| s@) =~= spec_tunnel_args(*t));
    v
}

} // verus!
