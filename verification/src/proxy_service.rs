//! Lifecycle decisions of the standalone proxy service: the shared state
//! flags, what the tray shows for them, and how the command loop reacts to
//! each command, during startup and afterwards.

use vstd::prelude::*;
use std::sync::Arc;
use crate::proxy_config::Config;

verus! {

/// Commands sent from the UI to the service thread.
pub enum Cmd {
    Start,
    Stop,
    Quit,
    Reload(Arc<Config>),
}

/// The flags the service publishes and the UI reads.
#[derive(Clone, Copy)]
pub struct ProxyState {
    pub running: bool,
    pub connecting: bool,
    pub tunnel_up: bool,
    pub tunnel_required: bool,
}

impl ProxyState {
    /// Everything off: nothing running, connecting or required.
    pub fn new() -> (res: Self)
        ensures
            !res.running && !res.connecting && !res.tunnel_up && !res.tunnel_required,
    {
        ProxyState { running: false, connecting: false, tunnel_up: false, tunnel_required: false }
    }
}

/// The tray's status code: 3 running, 2 running with the required tunnel
/// down, 1 connecting, 0 stopped.
pub open spec fn spec_status_code(s: ProxyState) -> u8 {
    if s.running {
        if s.tunnel_required && !s.tunnel_up {
            2
        } else {
            3
        }
    } else if s.connecting {
        1
    } else {
        0
    }
}

/// The tray's status code for the published flags.
pub fn status_code(s: ProxyState) -> (res: u8)
    ensures
        res == spec_status_code(s),
{
    if s.running {
        if s.tunnel_required && !s.tunnel_up {
            2
        } else {
            3
        }
    } else if s.connecting {
        1
    } else {
        0
    }
}

/// How the tray shows a status code: label, toggle item text, dot color.
pub open spec fn spec_indicator(code: u8) -> (Seq<char>, Seq<char>, (u8, u8, u8)) {
    if code == 3 {
        ("● Proxy: Running"@, "Stop"@, (52, 199, 89))
    } else if code == 2 {
        ("● Proxy: Tunnel down"@, "Stop"@, (255, 149, 0))
    } else if code == 1 {
        ("◌ Proxy: Connecting…"@, "Stop"@, (0, 122, 255))
    } else {
        ("○ Proxy: Stopped"@, "Start"@, (142, 142, 147))
    }
}

/// How the tray shows a status code.
pub fn indicator(code: u8) -> (res: (&'static str, &'static str, (u8, u8, u8)))
    ensures
        (res.0@, res.1@, res.2) == spec_indicator(code),
{
    if code == 3 {
        ("● Proxy: Running", "Stop", (52, 199, 89))
    } else if code == 2 {
        ("● Proxy: Tunnel down", "Stop", (255, 149, 0))
    } else if code == 1 {
        ("◌ Proxy: Connecting…", "Stop", (0, 122, 255))
    } else {
        ("○ Proxy: Stopped", "Start", (142, 142, 147))
    }
}

/// Whether toggling sends `Stop` (the service is running or connecting)
/// rather than `Start`.
pub open spec fn spec_toggle_stops(s: ProxyState) -> bool {
    s.running || s.connecting
}

/// The command the toggle item sends.
pub fn toggle_command(s: ProxyState) -> (res: Cmd)
    ensures
        spec_toggle_stops(s) ==> res is Stop,
        !spec_toggle_stops(s) ==> res is Start,
{
    if s.running || s.connecting {
        Cmd::Stop
    } else {
        Cmd::Start
    }
}

/// The toggle item reads "Stop" exactly when clicking it sends `Stop`.
pub proof fn lemma_toggle_label_matches_command(s: ProxyState)
    ensures
        (spec_indicator(spec_status_code(s)).1 == "Stop"@) == spec_toggle_stops(s),
{
    reveal_strlit("Stop");
    reveal_strlit("Start");
    assert("Stop"@ != "Start"@) by {
        assert("Stop"@.len() != "Start"@.len());
    }
}

/// What the service does after taking a command outside startup.
pub enum Next {
    /// Nothing more.
    Idle,
    /// Start with the current config.
    Start,
    /// Adopt this config (and its matcher) and start with it.
    StartWith(Arc<Config>),
    /// Leave the command loop.
    Exit,
}

/// The reaction to a command: whether to stop the running service first,
/// then what to do.
pub struct Step {
    pub stop_running: bool,
    pub next: Next,
}

/// Reacts to a command. `Start` is ignored while a service runs; `Stop`
/// stops it; `Reload` stops it and starts with the new config; `Quit` stops
/// it and leaves the loop.
pub fn loop_step(running: bool, cmd: Cmd) -> (res: Step)
    ensures
        match cmd {
            Cmd::Start => !res.stop_running && if running {
                res.next is Idle
            } else {
                res.next is Start
            },
            Cmd::Stop => res.stop_running == running && res.next is Idle,
            Cmd::Reload(c) => res.stop_running == running && res.next == Next::StartWith(c),
            Cmd::Quit => res.stop_running == running && res.next is Exit,
        },
{
    match cmd {
        Cmd::Start => if running {
            Step { stop_running: false, next: Next::Idle }
        } else {
            Step { stop_running: false, next: Next::Start }
        },
        Cmd::Stop => Step { stop_running: running, next: Next::Idle },
        Cmd::Reload(c) => Step { stop_running: running, next: Next::StartWith(c) },
        Cmd::Quit => Step { stop_running: running, next: Next::Exit },
    }
}

/// The reaction to a command that arrives while a start is in progress.
pub struct StartupStep {
    /// Signal the starting service to give up.
    pub send_cancel: bool,
    /// The start has been cancelled (now or before).
    pub cancelled: bool,
    /// Wait for the start to unwind, then leave the command loop.
    pub quit: bool,
}

/// The reaction to a startup command as (send the cancel, cancelled,
/// quit): `Stop` cancels; `Quit` or a closed channel cancel and quit (the
/// cancel is sent only once); `Start` and `Reload` change nothing.
pub open spec fn spec_startup_step(cancelled: bool, cmd: Option<Cmd>) -> (bool, bool, bool) {
    match cmd {
        Some(Cmd::Stop) => (!cancelled, true, false),
        Some(Cmd::Quit) | None => (!cancelled, true, true),
        _ => (false, cancelled, false),
    }
}

/// Reacts to a command during startup (`None`: the channel closed). `Stop`
/// cancels once; `Quit` or a closed channel cancel (unless already done) and
/// quit; `Start` and `Reload` are ignored.
pub fn startup_step(cancelled: bool, cmd: &Option<Cmd>) -> (res: StartupStep)
    ensures
        (res.send_cancel, res.cancelled, res.quit) == spec_startup_step(cancelled, *cmd),
        match cmd {
            Some(Cmd::Stop) => res.send_cancel == !cancelled && res.cancelled && !res.quit,
            Some(Cmd::Quit) | None => res.send_cancel == !cancelled && res.quit,
            _ => !res.send_cancel && res.cancelled == cancelled && !res.quit,
        },
{
    match cmd {
        Some(Cmd::Stop) => StartupStep { send_cancel: !cancelled, cancelled: true, quit: false },
        Some(Cmd::Quit) | None => StartupStep { send_cancel: !cancelled, cancelled: true, quit: true },
        _ => StartupStep { send_cancel: false, cancelled, quit: false },
    }
}

/// Whether the start is cancelled once the commands `cmds` have been taken,
/// starting from `cancelled`.
pub open spec fn cancelled_after(cancelled: bool, cmds: Seq<Option<Cmd>>) -> bool
    decreases cmds.len(),
{
    if cmds.len() == 0 {
        cancelled
    } else {
        cancelled_after(spec_startup_step(cancelled, cmds[0]).1, cmds.drop_first())
    }
}

/// How a startup ends once the starting service has finished.
pub struct StartupEnd {
    /// Keep the started service as the running one.
    pub keep: bool,
    /// The service came up although the start was cancelled: stop it again.
    pub tear_down: bool,
    /// The published flags afterwards.
    pub state: ProxyState,
}

/// How a startup ends, as (keep the service, stop it again, flags after):
/// a service that came up without a cancel is kept with its flags; anything
/// else ends with every flag off, and a service that came up after a cancel
/// is stopped again.
pub open spec fn spec_settle(s: ProxyState, cancelled: bool, started: bool) -> (bool, bool, ProxyState) {
    if started && !cancelled {
        (true, false, s)
    } else {
        (false, started, ProxyState { running: false, connecting: false, tunnel_up: false, tunnel_required: false })
    }
}

/// Settles a startup once the starting service has finished (`started`:
/// it came up).
pub fn settle_startup(s: ProxyState, cancelled: bool, started: bool) -> (res: StartupEnd)
    ensures
        (res.keep, res.tear_down, res.state) == spec_settle(s, cancelled, started),
{
    if started && !cancelled {
        StartupEnd { keep: true, tear_down: false, state: s }
    } else {
        StartupEnd { keep: false, tear_down: started, state: ProxyState::new() }
    }
}

proof fn lemma_cancel_stays(cmds: Seq<Option<Cmd>>)
    ensures
        cancelled_after(true, cmds),
    decreases cmds.len(),
{
    if cmds.len() > 0 {
        lemma_cancel_stays(cmds.drop_first());
    }
}

/// A `Stop` while the service is connecting cancels the start whatever
/// commands follow, and the startup then ends with the service not kept,
/// not running and not connecting (one that came up meanwhile is stopped).
pub proof fn lemma_stop_while_connecting_cancels(
    cancelled: bool,
    later: Seq<Option<Cmd>>,
    s: ProxyState,
    started: bool,
)
    ensures
        ({
            let c = cancelled_after(cancelled, seq![Some(Cmd::Stop)] + later);
            let e = spec_settle(s, c, started);
            &&& c
            &&& !e.0
            &&& e.1 == started
            &&& !e.2.running
            &&& !e.2.connecting
        }),
{
    let cmds = seq![Some(Cmd::Stop)] + later;
    assert(cmds[0] == Some(Cmd::Stop));
    assert(cmds.drop_first() =~= later);
    lemma_cancel_stays(later);
}

/// A cancel is sent at most once over any run of startup commands.
pub proof fn lemma_cancel_sent_once(cancelled: bool, send: bool, now_cancelled: bool, send_again: bool)
    requires
        cancelled ==> !send,
        send ==> now_cancelled,
        now_cancelled ==> !send_again,
    ensures
        !(send && send_again),
{
}

/// Whether the service manages the system proxy: only when the section is
/// present and enabled.
pub fn manages_system_proxy(c: &Config) -> (res: bool)
    ensures
        res == (c.system_proxy matches Some(s) && s.enabled),
{
    match c.system_proxy {
        Some(s) => s.enabled,
        None => false,
    }
}

/// Which parts a starting service brings up; the SOCKS5 server always runs.
#[derive(PartialEq, Eq, Structural, Clone, Copy, Debug)]
pub struct StartPlan {
    /// The SSH tunnel (and the wait for its port).
    pub tunnel: bool,
    /// The system proxy, launchctl variables, `~/.zshrc` and tool settings.
    pub system_proxy: bool,
    /// The DNS proxy.
    pub dns: bool,
}

/// What a service started with `c` brings up.
pub fn start_plan(c: &Config) -> (res: StartPlan)
    ensures
        res.tunnel == c.ssh_tunnel is Some,
        res.system_proxy == (c.system_proxy matches Some(s) && s.enabled),
        res.dns == c.dns is Some,
{
    StartPlan {
        tunnel: c.ssh_tunnel.is_some(),
        system_proxy: manages_system_proxy(c),
        dns: c.dns.is_some(),
    }
}

/// Connection attempts made while a starting service waits for the tunnel
/// port (half a second apart).
pub const TUNNEL_WAIT_ATTEMPTS: u32 = 20;

/// What follows one attempt to reach the tunnel port during startup.
#[derive(PartialEq, Eq, Structural, Clone, Copy, Debug)]
pub enum WaitStep {
    /// The start was cancelled: shut the tunnel down and give up.
    Cancelled,
    /// The port answered: the tunnel is up, go on.
    Up,
    /// Wait and try again.
    Retry,
    /// Out of attempts: go on without the tunnel being up.
    GaveUp,
}

/// The step after attempt number `attempt` (from 0), given whether a cancel
/// arrived and whether the port answered.
pub open spec fn spec_wait_step(attempt: u32, cancelled: bool, connected: bool) -> WaitStep {
    if cancelled {
        WaitStep::Cancelled
    } else if connected {
        WaitStep::Up
    } else if attempt + 1 >= TUNNEL_WAIT_ATTEMPTS {
        WaitStep::GaveUp
    } else {
        WaitStep::Retry
    }
}

/// Decides what follows one attempt to reach the tunnel port.
pub fn wait_step(attempt: u32, cancelled: bool, connected: bool) -> (res: WaitStep)
    ensures
        res == spec_wait_step(attempt, cancelled, connected),
{
    if cancelled {
        WaitStep::Cancelled
    } else if connected {
        WaitStep::Up
    } else if attempt >= TUNNEL_WAIT_ATTEMPTS - 1 {
        WaitStep::GaveUp
    } else {
        WaitStep::Retry
    }
}

/// The flags once the tunnel requirement of a starting service is known.
pub fn on_starting(s: ProxyState, tunnel_required: bool) -> (res: ProxyState)
    ensures
        res == (ProxyState { tunnel_required, ..s }),
{
    ProxyState { tunnel_required, ..s }
}

/// The flags once a start was cancelled while waiting for the tunnel.
pub fn on_start_cancelled(s: ProxyState) -> (res: ProxyState)
    ensures
        res == (ProxyState { connecting: false, tunnel_required: false, ..s }),
{
    ProxyState { connecting: false, tunnel_required: false, ..s }
}

/// The flags once the service is up.
pub fn on_started(s: ProxyState) -> (res: ProxyState)
    ensures
        res == (ProxyState { running: true, connecting: false, ..s }),
        spec_status_code(res) >= 2,
{
    ProxyState { running: true, connecting: false, ..s }
}

/// The flags once the service is stopped: everything off.
pub fn on_stopped(s: ProxyState) -> (res: ProxyState)
    ensures
        !res.running && !res.connecting && !res.tunnel_up && !res.tunnel_required,
        spec_status_code(res) == 0,
{
    ProxyState { running: false, connecting: false, tunnel_up: false, tunnel_required: false }
}

} // verus!
