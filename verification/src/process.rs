use vstd::prelude::*;

verus! {

/// An order to terminate one process group: send it the graceful signal,
/// wait a short grace period, then send the forceful one.  Carrying the
/// order out (and doing so on a separate thread, so the caller never
/// blocks on subprocess teardown) is the runtime's job; the registry only
/// decides whether an order is due.
#[derive(Debug, Clone, Copy, PartialEq, Eq, Structural)]
pub struct KillOrder {
    /// The process-group id to signal.
    pub pgid: u32,
}

/// The record of the currently running external preview subprocess.  At
/// most one id is ever recorded, process-wide: a new preview request must
/// kill the previous entry before recording its own.
#[derive(Debug)]
pub struct ProcRegistry {
    pid: Option<u32>,
}

impl ProcRegistry {
    /// The recorded process-group id, if a subprocess is running.
    pub closed spec fn spec_pid(&self) -> Option<u32> {
        self.pid
    }

    /// What `kill_proc` does: the order for the recorded group, if any,
    /// and the cleared registry.
    pub closed spec fn spec_kill(self) -> (Option<KillOrder>, ProcRegistry) {
        match self.spec_pid() {
            Some(pid) => (Some(KillOrder { pgid: pid }), ProcRegistry { pid: None }),
            None => (None, self),
        }
    }

    pub fn new() -> (r: ProcRegistry)
        ensures
            r.spec_pid() is None,
    {
        ProcRegistry { pid: None }
    }

    /// Record the process-group id of a freshly spawned external
    /// previewer.
    pub fn record(&mut self, pid: u32)
        ensures
            final(self).spec_pid() == Some(pid),
    {
        self.pid = Some(pid);
    }

    /// Forget the recorded subprocess after it has exited on its own.
    pub fn clear(&mut self)
        ensures
            final(self).spec_pid() is None,
    {
        self.pid = None;
    }

    pub fn current(&self) -> (r: Option<u32>)
        ensures
            r == self.spec_pid(),
    {
        self.pid
    }

    /// Decide the kill for the recorded subprocess, if one is recorded,
    /// and clear the record before anything is signalled.  Because the
    /// record is cleared synchronously, a second call issued immediately
    /// after returns no order: the group is never signalled twice.
    pub fn kill_proc(&mut self) -> (o: Option<KillOrder>)
        ensures
            (o, *final(self)) == old(self).spec_kill(),
            final(self).spec_pid() is None,
            o matches Some(k) ==> old(self).spec_pid() == Some(k.pgid),
            o is None <==> old(self).spec_pid() is None,
    {
        match self.pid {
            Some(pid) => {
                self.pid = None;
                Some(KillOrder { pgid: pid })
            }
            None => None,
        }
    }
}

/// Law (no double signal): of two `kill_proc` calls in a row, at most the
/// first carries an order, whatever was recorded to begin with — the
/// registry is cleared before the first call returns.
pub proof fn lemma_kill_proc_at_most_once(reg: ProcRegistry)
    ensures
        ({
            let (first, mid) = reg.spec_kill();
            let (second, _) = mid.spec_kill();
            second is None
        }),
{
}

} // verus!
