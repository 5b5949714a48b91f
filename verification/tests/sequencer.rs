use inputplug::dispatch::WatcherOptions;
use inputplug::sequencer::startup_steps;
use inputplug::sequencer::StartupStep;

fn seq_options(foreground: bool, bootstrap: bool, pidfile: Option<&str>) -> WatcherOptions {
    WatcherOptions {
        command: "on-change".to_owned(),
        verbose: false,
        no_act: false,
        foreground,
        bootstrap,
        debug: false,
        pidfile: pidfile.map(|p| p.to_owned()),
    }
}

#[test]
fn daemonized_startup_closes_probe_before_fork_and_reconnects_after() {
    let steps = startup_steps(&seq_options(false, true, Some("/run/watcher.pid")));
    assert_eq!(
        steps,
        vec![
            StartupStep::ProbeExtension,
            StartupStep::CloseProbeHandle,
            StartupStep::Daemonize,
            StartupStep::WritePidRecord,
            StartupStep::Reconnect,
            StartupStep::BootstrapReplay,
            StartupStep::Subscribe,
            StartupStep::EnterEventLoop,
        ]
    );
}

#[test]
fn foreground_startup_never_forks() {
    let steps = startup_steps(&seq_options(true, false, None));
    assert_eq!(
        steps,
        vec![
            StartupStep::ProbeExtension,
            StartupStep::CloseProbeHandle,
            StartupStep::Reconnect,
            StartupStep::Subscribe,
            StartupStep::EnterEventLoop,
        ]
    );
    assert!(!steps.contains(&StartupStep::Daemonize));
}

#[test]
fn pid_record_is_written_only_when_daemonizing() {
    let steps = startup_steps(&seq_options(true, false, Some("/run/watcher.pid")));
    assert!(!steps.contains(&StartupStep::WritePidRecord));
    let steps = startup_steps(&seq_options(false, false, None));
    assert_eq!(
        steps,
        vec![
            StartupStep::ProbeExtension,
            StartupStep::CloseProbeHandle,
            StartupStep::Daemonize,
            StartupStep::Reconnect,
            StartupStep::Subscribe,
            StartupStep::EnterEventLoop,
        ]
    );
}
