//! The singleton server lifecycle: a two-state machine (`Stopped`,
//! `Running`) owned by the host application. Starting replaces any running
//! instance; stopping is a hard stop and a no-op when already stopped. The
//! actual binding, spawning and aborting is the unverified shell's work: the
//! transitions here decide which instance is live and which instance the
//! shell must cancel, and the shell must hold the whole read-then-replace
//! step under one lock.

use vstd::prelude::*;
use crate::counters::UsageCounters;
use crate::text::{dec_digits, u64_to_string};
use vstd::string::*;

verus! {

/// Identifies one spawned server instance. The `id` is unique across all
/// instances of one lifecycle, so the shell can tell the task to abort from
/// the task that replaced it.
pub struct ServerHandle {
    pub id: u64,
    pub port: u16,
}

/// Whether a server instance is live, and which.
pub enum LifecycleState {
    Stopped,
    Running(ServerHandle),
}

/// The singleton controller. At most one handle is ever live: the state
/// holds either none or exactly one.
pub struct ServerLifecycle {
    pub state: LifecycleState,
    pub next_id: u64,
}

/// What a status query reports, whatever the running state.
pub struct StatusInfo {
    pub received_count: u64,
    pub total_size: u64,
    pub upload_dir: String,
}

/// What a successful start hands the host: the URL nearby devices open, the
/// QR encoding of that URL as a data URL, and the bare address and port.
pub struct AccessInfo {
    pub url: String,
    pub qr_code: String,
    pub address: String,
    pub port: u16,
}

/// One start transition: `post` runs a fresh handle on `port`, the fresh
/// handle carries `pre`'s next id, and `cancelled` is exactly the handle
/// that was live before, for the shell to abort.
pub open spec fn start_step(
    pre: ServerLifecycle,
    post: ServerLifecycle,
    port: u16,
    cancelled: Option<ServerHandle>,
) -> bool {
    &&& post.state == LifecycleState::Running(ServerHandle { id: pre.next_id, port })
    &&& post.next_id == pre.next_id + 1
    &&& cancelled == (match pre.state {
        LifecycleState::Stopped => None::<ServerHandle>,
        LifecycleState::Running(h) => Some(h),
    })
}

/// One stop transition: `post` is stopped and `cancelled` is exactly the
/// handle that was live before, if any.
pub open spec fn stop_step(
    pre: ServerLifecycle,
    post: ServerLifecycle,
    cancelled: Option<ServerHandle>,
) -> bool {
    &&& post.state == LifecycleState::Stopped
    &&& post.next_id == pre.next_id
    &&& cancelled == (match pre.state {
        LifecycleState::Stopped => None::<ServerHandle>,
        LifecycleState::Running(h) => Some(h),
    })
}

impl ServerLifecycle {
    /// A fresh controller: stopped, no instance ever started.
    pub fn new() -> (l: ServerLifecycle)
        ensures
            l.state is Stopped,
            l.next_id == 0,
    {
        ServerLifecycle { state: LifecycleState::Stopped, next_id: 0 }
    }

    /// Makes a fresh instance on `port` the only live one. Any previously
    /// live handle is returned and must be aborted by the caller; replacing
    /// it is allowed and is no error. The caller performs the fallible
    /// outside work (directory creation, binding) before this transition, so
    /// a failed start leaves the lifecycle stopped or running as it was.
    pub fn start_transition(&mut self, port: u16) -> (cancelled: Option<ServerHandle>)
        requires
            old(self).next_id < u64::MAX,
        ensures
            start_step(*old(self), *final(self), port, cancelled),
    {
        let prev = match &self.state {
            LifecycleState::Stopped => None,
            LifecycleState::Running(h) => Some(ServerHandle { id: h.id, port: h.port }),
        };
        self.state = LifecycleState::Running(ServerHandle { id: self.next_id, port });
        self.next_id = self.next_id + 1;
        prev
    }

    /// Stops the live instance, handing its handle back for the caller to
    /// abort (a hard stop: in-flight requests are not drained). When already
    /// stopped this is a no-op that still succeeds: nothing to cancel, no
    /// state change.
    pub fn stop_transition(&mut self) -> (cancelled: Option<ServerHandle>)
        ensures
            stop_step(*old(self), *final(self), cancelled),
            old(self).state is Stopped ==> cancelled is None && *final(self) == *old(self),
    {
        let prev = match &self.state {
            LifecycleState::Stopped => None,
            LifecycleState::Running(h) => Some(ServerHandle { id: h.id, port: h.port }),
        };
        self.state = LifecycleState::Stopped;
        prev
    }

    /// Whether an instance is live.
    pub fn is_running(&self) -> (r: bool)
        ensures
            r == (self.state is Running),
    {
        match &self.state {
            LifecycleState::Stopped => false,
            LifecycleState::Running(_) => true,
        }
    }

    /// The port of the live instance, if one is live.
    pub fn current_port(&self) -> (r: Option<u16>)
        ensures
            match self.state {
                LifecycleState::Stopped => r is None,
                LifecycleState::Running(h) => r == Some(h.port),
            },
    {
        match &self.state {
            LifecycleState::Stopped => None,
            LifecycleState::Running(h) => Some(h.port),
        }
    }
}

/// Starting twice in a row leaves exactly one live instance, on the port of
/// the second start; the first start's handle is exactly what the second
/// start hands back for cancellation, and it is a different instance than
/// the live one. The old instance, once aborted, no longer accepts
/// connections; only the new port does.
pub proof fn lemma_restart_replaces(
    l0: ServerLifecycle,
    l1: ServerLifecycle,
    l2: ServerLifecycle,
    p1: u16,
    p2: u16,
    c1: Option<ServerHandle>,
    c2: Option<ServerHandle>,
)
    requires
        l0.next_id < u64::MAX,
        start_step(l0, l1, p1, c1),
        start_step(l1, l2, p2, c2),
    ensures
        l2.state == LifecycleState::Running(
            ServerHandle { id: (l0.next_id + 1) as u64, port: p2 },
        ),
        c2 == Some(ServerHandle { id: l0.next_id, port: p1 }),
        c2 != Some(ServerHandle { id: (l0.next_id + 1) as u64, port: p2 }),
{
}

/// A status query answers whatever the counters hold and where uploads land,
/// running or stopped: the counters are process-wide and outlive instances.
pub fn status(counters: &UsageCounters, upload_dir: &String) -> (r: StatusInfo)
    ensures
        r.received_count == counters.received_count,
        r.total_size == counters.total_bytes,
        r.upload_dir@ == upload_dir@,
{
    StatusInfo {
        received_count: counters.get_received_count(),
        total_size: counters.get_total_size(),
        upload_dir: upload_dir.clone(),
    }
}

/// The URL nearby devices open: `http://<ip>:<port>`.
pub open spec fn access_url_spec(ip: Seq<char>, port: u16) -> Seq<char> {
    "http://"@ + ip + ":"@ + dec_digits(port as nat)
}

/// Builds the access URL for an address and port.
pub fn make_access_url(ip: &str, port: u16) -> (r: String)
    ensures
        r@ == access_url_spec(ip@, port),
{
    let mut out = "http://".to_owned();
    out.append(ip);
    crate::text::push_char(&mut out, ':');
    let num = u64_to_string(port as u64);
    out.append(num.as_str());
    proof {
        reveal_strlit(":");
        assert(out@ =~= access_url_spec(ip@, port));
    }
    out
}

/// Bundles what a successful start reports to the host.
pub fn access_info(ip: &str, port: u16, qr_code: String) -> (r: AccessInfo)
    ensures
        r.url@ == access_url_spec(ip@, port),
        r.address@ == ip@,
        r.port == port,
        r.qr_code == qr_code,
{
    AccessInfo { url: make_access_url(ip, port), qr_code, address: ip.to_owned(), port }
}

} // verus!
