//! The pipeline controller's state machine: what a start, stop, reload or
//! shutdown request does to the pipeline status, and when a running
//! pipeline's cancellation token is handed out.
//!
//! The token type is a parameter: the application keeps a clone of the token
//! it passes in and cancels it when this state machine hands it back.

use vstd::prelude::*;

verus! {

/// Pipeline state, mirrored by the tray icon.
#[derive(Clone, Copy, PartialEq, Eq, Debug, Structural)]
pub enum Status {
    Stopped,
    /// A start or stop is running; the result is awaited.
    Processing,
    Running,
    /// The last start failed; the pipeline was torn back down.
    Error,
}

/// The controller's state: the status, the token of the running pipeline
/// (if any) and the config file path.
pub struct Controller<T> {
    shutdown: Option<T>,
    config_path: String,
    status: Status,
}

/// What a reload found before re-reading the config: whether the pipeline was
/// running, and the token of the pipeline that must be torn down first.
pub struct ReloadPlan<T> {
    pub was_running: bool,
    pub teardown: Option<T>,
}

/// State after a start request, and whether the caller must spawn the
/// bring-up.
pub open spec fn start_step<T>(status: Status, shutdown: Option<T>, token: T) -> (Status, Option<T>, bool) {
    if status == Status::Processing || status == Status::Running {
        (status, shutdown, false)
    } else {
        (Status::Processing, Some(token), true)
    }
}

/// State after a stop request, and the token handed back for teardown.
pub open spec fn stop_step<T>(status: Status, shutdown: Option<T>) -> (Status, Option<T>, Option<T>) {
    if status == Status::Processing {
        (status, shutdown, None)
    } else {
        match shutdown {
            None => (Status::Stopped, None, None),
            Some(t) => (Status::Processing, None, Some(t)),
        }
    }
}

/// State once a spawned start has finished.
pub open spec fn started_step<T>(status: Status, shutdown: Option<T>, ok: bool) -> (Status, Option<T>) {
    if ok {
        (Status::Running, shutdown)
    } else {
        (Status::Error, None)
    }
}

/// State once a spawned stop has finished.
pub open spec fn stopped_step<T>(status: Status, shutdown: Option<T>) -> (Status, Option<T>) {
    (Status::Stopped, shutdown)
}

/// State after the first half of a reload, and the plan it hands back.
pub open spec fn begin_reload_step<T>(status: Status, shutdown: Option<T>) -> (Status, Option<T>, Option<(bool, Option<T>)>) {
    if status == Status::Processing {
        (status, shutdown, None)
    } else {
        (status, None, Some((status == Status::Running, shutdown)))
    }
}

/// State after the second half of a reload.
pub open spec fn finish_reload_step<T>(
    status: Status,
    shutdown: Option<T>,
    was_running: bool,
    restarted: Option<T>,
) -> (Status, Option<T>) {
    if !was_running {
        (Status::Stopped, shutdown)
    } else {
        match restarted {
            Some(t) => (Status::Running, Some(t)),
            None => (Status::Error, shutdown),
        }
    }
}

impl<T> Controller<T> {
    /// The current status.
    pub closed spec fn spec_status(&self) -> Status {
        self.status
    }

    /// The token of the pipeline in flight or running, if any.
    pub closed spec fn spec_shutdown(&self) -> Option<T> {
        self.shutdown
    }

    /// The config file path.
    pub closed spec fn spec_config_path(&self) -> Seq<char> {
        self.config_path@
    }

    /// A stopped controller for the config at `config_path`.
    pub fn new(config_path: String) -> (res: Self)
        ensures
            res.spec_status() == Status::Stopped,
            res.spec_shutdown() is None,
            res.spec_config_path() == config_path@,
    {
        Controller { shutdown: None, config_path, status: Status::Stopped }
    }

    /// The current status.
    pub fn status(&self) -> (res: Status)
        ensures
            res == self.spec_status(),
    {
        self.status
    }

    /// Whether the pipeline is running.
    pub fn is_running(&self) -> (res: bool)
        ensures
            res == (self.spec_status() == Status::Running),
    {
        self.status == Status::Running
    }

    /// The config file path.
    pub fn config_path(&self) -> (res: &str)
        ensures
            res@ == self.spec_config_path(),
    {
        self.config_path.as_str()
    }

    /// Asks to bring the pipeline up under `token`. Ignored (returns `false`)
    /// while a start/stop is in flight or the pipeline runs; otherwise the
    /// status becomes `Processing`, the token is kept, and the caller spawns
    /// the bring-up (returns `true`), settled later by [`Self::on_started`].
    pub fn start(&mut self, token: T) -> (res: bool)
        ensures
            (final(self).spec_status(), final(self).spec_shutdown(), res) == start_step(
                old(self).spec_status(),
                old(self).spec_shutdown(),
                token,
            ),
            final(self).spec_config_path() == old(self).spec_config_path(),
    {
        if self.status == Status::Processing || self.status == Status::Running {
            return false;
        }
        self.status = Status::Processing;
        self.shutdown = Some(token);
        true
    }

    /// Asks to tear the pipeline down. Ignored while a start/stop is in
    /// flight. With no token held the status simply becomes `Stopped` (this
    /// also clears an `Error`). Otherwise the status becomes `Processing` and
    /// the token is handed back for the caller to cancel and tear down,
    /// settled later by [`Self::on_stopped`].
    pub fn stop(&mut self) -> (res: Option<T>)
        ensures
            (final(self).spec_status(), final(self).spec_shutdown(), res) == stop_step(
                old(self).spec_status(),
                old(self).spec_shutdown(),
            ),
            final(self).spec_config_path() == old(self).spec_config_path(),
    {
        if self.status == Status::Processing {
            return None;
        }
        match self.shutdown.take() {
            None => {
                self.status = Status::Stopped;
                None
            },
            Some(token) => {
                self.status = Status::Processing;
                Some(token)
            },
        }
    }

    /// Settles the state once a spawned start has finished: running on
    /// success; on failure the token is dropped and the status is `Error`.
    pub fn on_started(&mut self, ok: bool)
        ensures
            (final(self).spec_status(), final(self).spec_shutdown()) == started_step(
                old(self).spec_status(),
                old(self).spec_shutdown(),
                ok,
            ),
            final(self).spec_config_path() == old(self).spec_config_path(),
    {
        if ok {
            self.status = Status::Running;
        } else {
            self.shutdown = None;
            self.status = Status::Error;
        }
    }

    /// Settles the state once a spawned stop has finished.
    pub fn on_stopped(&mut self)
        ensures
            (final(self).spec_status(), final(self).spec_shutdown()) == stopped_step(
                old(self).spec_status(),
                old(self).spec_shutdown(),
            ),
            final(self).spec_config_path() == old(self).spec_config_path(),
    {
        self.status = Status::Stopped;
    }

    /// First half of a reload. Ignored (`None`) while a start/stop is in
    /// flight. Otherwise records whether the pipeline was running and hands
    /// back the token of the pipeline to tear down before the config is read.
    pub fn begin_reload(&mut self) -> (res: Option<ReloadPlan<T>>)
        ensures
            ({
                let step = begin_reload_step(old(self).spec_status(), old(self).spec_shutdown());
                &&& final(self).spec_status() == step.0
                &&& final(self).spec_shutdown() == step.1
                &&& match (res, step.2) {
                    (None, None) => true,
                    (Some(plan), Some(p)) => plan.was_running == p.0 && plan.teardown == p.1,
                    _ => false,
                }
            }),
            final(self).spec_config_path() == old(self).spec_config_path(),
    {
        if self.status == Status::Processing {
            return None;
        }
        let was_running = self.status == Status::Running;
        let teardown = self.shutdown.take();
        Some(ReloadPlan { was_running, teardown })
    }

    /// Second half of a reload, after the config was re-read. If the pipeline
    /// was not running it is now stopped. If it was, `restarted` is the token
    /// of the new pipeline when its bring-up succeeded (running), or `None`
    /// when it failed (error).
    pub fn finish_reload(&mut self, was_running: bool, restarted: Option<T>)
        ensures
            (final(self).spec_status(), final(self).spec_shutdown()) == finish_reload_step(
                old(self).spec_status(),
                old(self).spec_shutdown(),
                was_running,
                restarted,
            ),
            final(self).spec_config_path() == old(self).spec_config_path(),
    {
        if was_running {
            match restarted {
                Some(t) => {
                    self.shutdown = Some(t);
                    self.status = Status::Running;
                },
                None => {
                    self.status = Status::Error;
                },
            }
        } else {
            self.status = Status::Stopped;
        }
    }

    /// Takes the token of the running pipeline for a blocking teardown before
    /// the process exits; the status is left as it is.
    pub fn shutdown(&mut self) -> (res: Option<T>)
        ensures
            res == old(self).spec_shutdown(),
            final(self).spec_shutdown() is None,
            final(self).spec_status() == old(self).spec_status(),
            final(self).spec_config_path() == old(self).spec_config_path(),
    {
        self.shutdown.take()
    }
}

/// The controller's invariant: a running pipeline holds its token, and a
/// stopped or failed one holds none.
pub open spec fn settled<T>(status: Status, shutdown: Option<T>) -> bool {
    &&& status == Status::Running ==> shutdown is Some
    &&& (status == Status::Stopped || status == Status::Error) ==> shutdown is None
}

/// A start is ignored while a start/stop is in flight or the pipeline runs;
/// from a settled state an accepted start keeps the token, and whatever the
/// bring-up reports, the state it settles into is settled again.
pub proof fn lemma_start_cycle<T>(status: Status, shutdown: Option<T>, token: T, ok: bool)
    requires
        settled(status, shutdown),
    ensures
        (status == Status::Processing || status == Status::Running) ==> start_step(
            status,
            shutdown,
            token,
        ) == (status, shutdown, false),
        start_step(status, shutdown, token).2 ==> {
            let s = start_step(status, shutdown, token);
            let e = started_step(s.0, s.1, ok);
            &&& s.1 == Some(token)
            &&& settled(e.0, e.1)
            &&& ok ==> e == (Status::Running, Some(token))
        },
{
}

/// From a settled state a stop that is not ignored either settles at once
/// (nothing was running) or hands back the running pipeline's token, and the
/// state it settles into once the teardown is done is stopped with no token.
pub proof fn lemma_stop_cycle<T>(status: Status, shutdown: Option<T>)
    requires
        settled(status, shutdown),
        status != Status::Processing,
    ensures
        ({
            let s = stop_step(status, shutdown);
            &&& s.2 == shutdown
            &&& s.1 is None
            &&& s.2 is None ==> s.0 == Status::Stopped && settled(s.0, s.1)
            &&& stopped_step(s.0, s.1) == (Status::Stopped, None::<T>)
        }),
{
}

/// A reload from a settled state tears down whatever ran, and ends settled
/// whether or not the restart succeeds; a stopped pipeline stays stopped.
pub proof fn lemma_reload_cycle<T>(status: Status, shutdown: Option<T>, restarted: Option<T>)
    requires
        settled(status, shutdown),
        status != Status::Processing,
    ensures
        ({
            let b = begin_reload_step(status, shutdown);
            let plan = b.2.unwrap();
            let f = finish_reload_step(b.0, b.1, plan.0, restarted);
            &&& plan.1 == shutdown
            &&& b.1 is None
            &&& settled(f.0, f.1)
            &&& !plan.0 ==> f.0 == Status::Stopped
            &&& plan.0 && restarted is Some ==> f == (Status::Running, restarted)
        }),
{
}

} // verus!
