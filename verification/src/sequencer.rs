//! The startup sequence of the watcher, as an explicit ordered plan.
//!
//! The one ordering hazard in the whole system is the transport handle around
//! the fork: a probe connection left open in the daemonized child is a
//! resource and protocol-correctness hazard. The plan makes the order a
//! proved fact: the probe handle is closed before any fork, and the post-fork
//! handle is opened only after it.

use crate::dispatch::WatcherOptions;
use vstd::prelude::*;

verus! {

/// One step of the watcher's startup, in the order the process performs them.
#[derive(Clone, Copy, PartialEq, Eq, Debug, Structural)]
pub enum StartupStep {
    /// Open a transport connection and probe for the input extension;
    /// fatal if the transport cannot be opened or the extension is absent.
    ProbeExtension,
    /// Drop the probe connection, before any fork can inherit it.
    CloseProbeHandle,
    /// Detach from the controlling terminal: fork, parent exits.
    Daemonize,
    /// Persist a process-id record; a failure is logged, not fatal.
    WritePidRecord,
    /// Open the post-fork transport connection; fatal on failure.
    Reconnect,
    /// Synthesize invocations for the devices already present.
    BootstrapReplay,
    /// Register for hierarchy-change notifications on the root, all devices.
    Subscribe,
    /// Block for notifications from here on; never returns on its own.
    EnterEventLoop,
}

/// The steps between closing the probe handle and reconnecting: the fork and
/// the pid record, when the configuration asks for them, and nothing else.
pub open spec fn fork_steps(opt: WatcherOptions) -> Seq<StartupStep> {
    if opt.foreground {
        Seq::empty()
    } else if opt.pidfile is Some {
        seq![StartupStep::Daemonize, StartupStep::WritePidRecord]
    } else {
        seq![StartupStep::Daemonize]
    }
}

/// The steps after the post-fork connection is open: the optional bootstrap
/// replay, then the subscription, then the event loop.
pub open spec fn post_fork_steps(opt: WatcherOptions) -> Seq<StartupStep> {
    if opt.bootstrap {
        seq![StartupStep::BootstrapReplay, StartupStep::Subscribe, StartupStep::EnterEventLoop]
    } else {
        seq![StartupStep::Subscribe, StartupStep::EnterEventLoop]
    }
}

/// The whole startup plan for one configuration: probe, close the probe
/// handle, fork if asked, reconnect, and only then bootstrap, subscribe and
/// enter the loop.
pub open spec fn spec_startup_steps(opt: WatcherOptions) -> Seq<StartupStep> {
    seq![StartupStep::ProbeExtension, StartupStep::CloseProbeHandle] + fork_steps(opt) + seq![
        StartupStep::Reconnect,
    ] + post_fork_steps(opt)
}

/// Build the startup plan for one configuration.
pub fn startup_steps(opt: &WatcherOptions) -> (steps: Vec<StartupStep>)
    ensures
        steps@ == spec_startup_steps(*opt),
{
    let mut steps: Vec<StartupStep> = Vec::new();
    steps.push(StartupStep::ProbeExtension);
    steps.push(StartupStep::CloseProbeHandle);
    if !opt.foreground {
        steps.push(StartupStep::Daemonize);
        if opt.pidfile.is_some() {
            steps.push(StartupStep::WritePidRecord);
        }
    }
    steps.push(StartupStep::Reconnect);
    if opt.bootstrap {
        steps.push(StartupStep::BootstrapReplay);
    }
    steps.push(StartupStep::Subscribe);
    steps.push(StartupStep::EnterEventLoop);
    proof {
        assert(steps@ =~= spec_startup_steps(*opt));
    }
    steps
}

/// Law: no transport handle crosses the fork. The probe handle is closed
/// immediately after probing and before every step of the fork segment, the
/// fork segment holds nothing but the fork and the pid record (neither
/// touches the transport), and the post-fork handle is opened only after the
/// whole segment; every step that uses the transport again comes later.
pub proof fn lemma_no_handle_crosses_fork(opt: WatcherOptions)
    ensures
        spec_startup_steps(opt) == seq![
            StartupStep::ProbeExtension,
            StartupStep::CloseProbeHandle,
        ] + fork_steps(opt) + seq![StartupStep::Reconnect] + post_fork_steps(opt),
        forall|i: int|
            0 <= i < fork_steps(opt).len() ==> #[trigger] fork_steps(opt)[i]
                == StartupStep::Daemonize || fork_steps(opt)[i] == StartupStep::WritePidRecord,
        forall|i: int|
            0 <= i < post_fork_steps(opt).len() ==> #[trigger] post_fork_steps(opt)[i]
                != StartupStep::Daemonize && post_fork_steps(opt)[i] != StartupStep::ProbeExtension,
{
}

} // verus!
