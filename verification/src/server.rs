//! The server lifecycle: one listener at most, started and stopped
//! through this state machine. The caller owns the socket, the worker
//! and the shutdown channel; it binds only when told to and reports how
//! the bind went. Stopping is total: from `Running` it signals shutdown,
//! from `Stopped` it asks the caller for a best-effort sweep of stray
//! processes on the port, and succeeds either way.

use vstd::prelude::*;
use crate::errors::LifecycleError;
use crate::text::has_prefix;

verus! {

/// What a start reports.
#[derive(Debug, PartialEq, Eq, Structural, Clone, Copy)]
pub enum StartOutcome {
    /// A fresh listener is up.
    Started,
    /// A listener was already up; starting again is a no-op.
    AlreadyRunning,
}

/// What a stop asks of the caller.
#[derive(Debug, PartialEq, Eq, Structural, Clone, Copy)]
pub enum StopOutcome {
    /// A listener was up: its shutdown channel has been signalled.
    SignalledShutdown,
    /// No listener was up: sweep the port for strays, best effort.
    ReapStrays,
}

/// A start step, as a value: the state it leaves, whether it succeeds,
/// and whether it binds a fresh listener.
pub struct StartStep {
    pub running: bool,
    pub ok: bool,
    pub binds: bool,
}

/// The start transition: from `Running` a success that binds nothing;
/// from `Stopped` a bind, kept on success and released on failure.
pub open spec fn start_spec(running: bool, bind_ok: bool) -> StartStep {
    if running {
        StartStep { running: true, ok: true, binds: false }
    } else if bind_ok {
        StartStep { running: true, ok: true, binds: true }
    } else {
        StartStep { running: false, ok: false, binds: false }
    }
}

/// Starting twice in a row succeeds both times, and only the first
/// start binds a listener: however the second bind would have gone, the
/// machine never asks for it.
pub proof fn lemma_start_twice_one_listener(second_bind_ok: bool)
    ensures
        ({
            let s1 = start_spec(false, true);
            let s2 = start_spec(s1.running, second_bind_ok);
            s1.ok && s2.ok && s1.binds && !s2.binds
        }),
{
}

/// The one permitted listener, as a state machine.
pub struct ServerLifecycle {
    running: bool,
    port: u16,
}

impl ServerLifecycle {
    /// Whether a listener is up.
    pub closed spec fn spec_running(&self) -> bool {
        self.running
    }

    /// The configured port.
    pub closed spec fn spec_port(&self) -> int {
        self.port as int
    }

    /// A stopped lifecycle on the given port.
    pub fn new(port: u16) -> (r: ServerLifecycle)
        ensures
            !r.spec_running(),
            r.spec_port() == port as int,
    {
        ServerLifecycle { running: false, port: port }
    }

    /// The configured port.
    pub fn port(&self) -> (p: u16)
        ensures
            p as int == self.spec_port(),
    {
        self.port
    }

    /// Whether the caller must bind before calling `start`: only a
    /// stopped lifecycle needs a fresh listener.
    pub fn needs_bind(&self) -> (b: bool)
        ensures
            b == !self.spec_running(),
    {
        !self.running
    }

    /// Takes the start step: already running is a success that changes
    /// nothing; otherwise the caller's bind outcome decides, and a
    /// failed bind leaves the machine stopped.
    pub fn start(&mut self, bind_ok: bool) -> (r: Result<StartOutcome, LifecycleError>)
        ensures
            final(self).spec_port() == old(self).spec_port(),
            final(self).spec_running() == start_spec(old(self).spec_running(), bind_ok).running,
            (r is Ok) == start_spec(old(self).spec_running(), bind_ok).ok,
            old(self).spec_running() ==> r == Ok::<StartOutcome, LifecycleError>(
                StartOutcome::AlreadyRunning,
            ),
            !old(self).spec_running() && bind_ok ==> r == Ok::<StartOutcome, LifecycleError>(
                StartOutcome::Started,
            ),
            !old(self).spec_running() && !bind_ok ==> r == Err::<StartOutcome, LifecycleError>(
                LifecycleError::BindFailure,
            ),
    {
        if self.running {
            Ok(StartOutcome::AlreadyRunning)
        } else if bind_ok {
            self.running = true;
            Ok(StartOutcome::Started)
        } else {
            Err(LifecycleError::BindFailure)
        }
    }

    /// Takes the stop step: always a success, and the machine is
    /// stopped afterwards. From `Running` the caller signals the
    /// shutdown channel; from `Stopped` it may sweep the port for a
    /// stray process left by a crash, and succeeds whether or not it
    /// finds one.
    pub fn stop(&mut self) -> (r: StopOutcome)
        ensures
            !final(self).spec_running(),
            final(self).spec_port() == old(self).spec_port(),
            old(self).spec_running() ==> r == StopOutcome::SignalledShutdown,
            !old(self).spec_running() ==> r == StopOutcome::ReapStrays,
    {
        if self.running {
            self.running = false;
            StopOutcome::SignalledShutdown
        } else {
            StopOutcome::ReapStrays
        }
    }

    /// True exactly when a listener is up.
    pub fn status(&self) -> (b: bool)
        ensures
            b == self.spec_running(),
    {
        self.running
    }
}

/// Whether a listener is up; the shape callers poll.
pub fn get_server_status(life: &ServerLifecycle) -> (r: Result<bool, String>)
    ensures
        r matches Ok(b) && b == life.spec_running(),
{
    Ok(life.status())
}

/// An address worth advertising: not loopback, not link-local.
pub open spec fn is_routable(a: Seq<char>) -> bool {
    !"127."@.is_prefix_of(a) && !"fe80:"@.is_prefix_of(a)
}

/// The first routable address, or -1 when none is.
pub open spec fn first_routable(addrs: Seq<String>) -> int
    decreases addrs.len(),
{
    if addrs.len() == 0 {
        -1
    } else if is_routable(addrs[0]@) {
        0
    } else {
        let rest = first_routable(addrs.drop_first());
        if rest == -1 {
            -1
        } else {
            rest + 1
        }
    }
}

/// The address to advertise: the first routable one, else the first of
/// the list, else the local host's own name.
pub open spec fn pick_local_ip(addrs: Seq<String>) -> Seq<char> {
    if addrs.len() == 0 {
        "localhost"@
    } else if first_routable(addrs) >= 0 {
        addrs[first_routable(addrs)]@
    } else {
        addrs[0]@
    }
}

/// What `first_routable` yields: -1 and nothing is routable, or the
/// least routable index.
pub proof fn lemma_first_routable(addrs: Seq<String>)
    ensures
        -1 <= first_routable(addrs) < addrs.len(),
        first_routable(addrs) == -1 ==> forall|i: int|
            0 <= i < addrs.len() ==> !is_routable((#[trigger] addrs[i])@),
        first_routable(addrs) >= 0 ==> is_routable(addrs[first_routable(addrs)]@),
        forall|i: int| 0 <= i < first_routable(addrs) ==> !is_routable((#[trigger] addrs[i])@),
    decreases addrs.len(),
{
    if addrs.len() > 0 && !is_routable(addrs[0]@) {
        lemma_first_routable(addrs.drop_first());
        let rest = first_routable(addrs.drop_first());
        if rest == -1 {
            assert forall|i: int| 0 <= i < addrs.len() implies !is_routable(
                (#[trigger] addrs[i])@,
            ) by {
                if i >= 1 {
                    assert(!is_routable((addrs.drop_first()[i - 1])@));
                }
            }
        } else {
            assert(addrs[rest + 1] == addrs.drop_first()[rest]);
            assert forall|i: int| 0 <= i < first_routable(addrs) implies !is_routable(
                (#[trigger] addrs[i])@,
            ) by {
                if i >= 1 {
                    assert(!is_routable((addrs.drop_first()[i - 1])@));
                }
            }
        }
    }
}

/// Picks the address to advertise from the caller's gathered list.
pub fn get_local_ip(addresses: &Vec<String>) -> (r: String)
    ensures
        r@ == pick_local_ip(addresses@),
{
    proof {
        lemma_first_routable(addresses@);
    }
    let n = addresses.len();
    if n == 0 {
        let r = String::from_str("localhost");
        return r;
    }
    let mut i: usize = 0;
    while i < n
        invariant
            n == addresses@.len(),
            0 < n,
            0 <= i <= n,
            forall|t: int| 0 <= t < i ==> !is_routable((#[trigger] addresses@[t])@),
            -1 <= first_routable(addresses@) < addresses@.len(),
            first_routable(addresses@) == -1 ==> forall|t: int|
                0 <= t < addresses@.len() ==> !is_routable((#[trigger] addresses@[t])@),
            first_routable(addresses@) >= 0 ==> is_routable(
                addresses@[first_routable(addresses@)]@,
            ),
            forall|t: int|
                0 <= t < first_routable(addresses@) ==> !is_routable((#[trigger] addresses@[t])@),
        decreases n - i,
    {
        let a = &addresses[i];
        if !has_prefix(a.as_str(), "127.") && !has_prefix(a.as_str(), "fe80:") {
            assert(is_routable(addresses@[i as int]@));
            assert(first_routable(addresses@) == i as int) by {
                let fr = first_routable(addresses@);
                if fr < i as int {
                    if fr >= 0 {
                        assert(!is_routable((addresses@[fr])@));
                    }
                }
            }
            return a.clone();
        }
        i = i + 1;
    }
    assert(first_routable(addresses@) == -1) by {
        let fr = first_routable(addresses@);
        if fr >= 0 {
            assert(!is_routable((addresses@[fr])@));
        }
    }
    addresses[0].clone()
}

} // verus!
