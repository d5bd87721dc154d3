use celld_tcp::dial::{classify, Attempt, Dial, DialError, DialEvent, RemoteFailure, RemoteRoute};
use celld_tcp::local::{
    hook_request, AbortGuard, HookAnswer, LocalError, LocalEvent, LocalOpen, RETRY_DELAY_MS,
};
use celld_tcp::relay::{relay_result, Cancellation, CopyError, RelayEnd, SignalEvent};
use celld_tcp::serve::{Serve, ServeEvent, ACCEPT_RETRY_MS};
use celld_tcp::target::Target;

fn route(epoch: u64, protocol: u64) -> RemoteRoute {
    RemoteRoute { node: "owner".to_string(), addr: "10.0.0.1:1".to_string(), epoch, protocol }
}

fn dial(events: Vec<DialEvent>) -> Dial {
    let mut dial = Dial::new();
    for event in events {
        dial = dial.advance(event, 3);
    }
    dial
}

fn failure(stale_route: bool, never_connected: bool) -> RemoteFailure {
    RemoteFailure { stale_route, never_connected }
}

#[test]
fn local_owners_are_opened() {
    assert_eq!(dial(vec![DialEvent::Local(4)]), Dial::OpenLocal(4));
    assert_eq!(dial(vec![DialEvent::Local(4), DialEvent::Opened]), Dial::Connected);
    assert_eq!(dial(vec![DialEvent::Local(4), DialEvent::LocalFailed]), Dial::Failed(DialError::Local));
    assert_eq!(dial(vec![DialEvent::NotRouted]), Dial::Failed(DialError::NotRouted));
}

#[test]
fn incompatible_peers_are_not_asked() {
    assert_eq!(dial(vec![DialEvent::Remote(route(1, 2))]), Dial::Failed(DialError::Protocol));
    assert_eq!(DialError::Protocol.message(), Some("incompatible TCP peer protocol".to_string()));
    assert_eq!(DialError::TimedOut.message(), Some("TCP establishment timed out".to_string()));
    assert_eq!(DialError::Remote.message(), None);
}

#[test]
fn handoff_is_asked_for_without_an_epoch() {
    assert!(route(0, 3).capacity_handoff());
    assert!(!route(1, 3).capacity_handoff());
}

#[test]
fn failures_are_classified() {
    assert_eq!(classify(&failure(true, true)), Attempt::NotOwner);
    assert_eq!(classify(&failure(true, false)), Attempt::NotOwner);
    assert_eq!(classify(&failure(false, true)), Attempt::NeverConnected);
    assert_eq!(classify(&failure(false, false)), Attempt::Ambiguous);
}

#[test]
fn stale_routes_are_forgotten_and_asked_for_again() {
    let failed = || vec![DialEvent::Remote(route(5, 3)), DialEvent::RemoteFailed(failure(true, false))];
    assert_eq!(dial(failed()), Dial::AskAgain(route(5, 3), Attempt::NotOwner));
    let mut refused = failed();
    refused.push(DialEvent::Redispatch(false));
    assert_eq!(dial(refused), Dial::Failed(DialError::Remote));
    let mut allowed = failed();
    allowed.push(DialEvent::Redispatch(true));
    assert_eq!(dial(allowed), Dial::Forget(route(5, 3)));
    let mut again = failed();
    again.push(DialEvent::Redispatch(true));
    again.push(DialEvent::Forgotten);
    assert_eq!(dial(again), Dial::Route);
    let mut connected = failed();
    connected.push(DialEvent::Redispatch(true));
    connected.push(DialEvent::Forgotten);
    connected.push(DialEvent::Remote(route(6, 3)));
    connected.push(DialEvent::Opened);
    connected.push(DialEvent::TimedOut);
    assert_eq!(dial(connected), Dial::Connected);
}

#[test]
fn establishing_takes_no_longer_than_allowed() {
    assert_eq!(dial(vec![DialEvent::TimedOut]), Dial::Failed(DialError::TimedOut));
    assert_eq!(
        dial(vec![DialEvent::Remote(route(1, 3)), DialEvent::TimedOut]),
        Dial::Failed(DialError::TimedOut)
    );
    assert_eq!(
        dial(vec![DialEvent::Redispatch(true), DialEvent::Local(1), DialEvent::Forgotten]),
        Dial::OpenLocal(1)
    );
}

fn answer(status: u16, body_is_empty: bool, websocket: bool, stream: bool) -> LocalEvent {
    LocalEvent::Answered(HookAnswer { status, body_is_empty, websocket, stream })
}

fn open(events: &[LocalEvent]) -> LocalOpen {
    let mut open = LocalOpen::new();
    for event in events {
        open = open.advance(*event);
    }
    open
}

fn invoked() -> Vec<LocalEvent> {
    vec![LocalEvent::Slot(true), LocalEvent::Runtime(true)]
}

fn found(run: u64) -> Vec<LocalEvent> {
    let mut events = invoked();
    events.push(answer(204, true, false, false));
    events.push(LocalEvent::Engine(true));
    events.push(LocalEvent::Container(Some(run)));
    events
}

fn then(mut events: Vec<LocalEvent>, more: &[LocalEvent]) -> LocalOpen {
    events.extend_from_slice(more);
    open(&events)
}

#[test]
fn the_hook_is_posted_to_the_object() {
    let target = Target {
        script: "tcp-container".to_string(),
        class_name: "EchoContainer".to_string(),
        object_name: "primary".to_string(),
        port: 7000,
        startup_path: "/start-tcp".to_string(),
    };
    let request = hook_request(&target);
    assert_eq!(request.object_name, "primary");
    assert_eq!(request.url, "http://celld.internal/start-tcp");
    assert_eq!(request.method, "POST");
    assert!(request.body.is_empty());
    assert!(request.headers.is_empty());
}

#[test]
fn the_owners_limit_comes_before_the_hook() {
    assert_eq!(open(&[LocalEvent::Slot(false)]), LocalOpen::Failed(LocalError::OwnerLimit));
    assert_eq!(
        open(&[LocalEvent::Slot(true), LocalEvent::Runtime(false)]),
        LocalOpen::Failed(LocalError::NoRuntime)
    );
    assert_eq!(open(&invoked()), LocalOpen::Hook);
}

#[test]
fn only_an_empty_204_counts() {
    assert_eq!(then(invoked(), &[answer(204, true, false, false)]), LocalOpen::Engine);
    for (event, status) in [
        (answer(200, true, false, false), 200),
        (answer(204, false, false, false), 204),
        (answer(204, true, true, false), 204),
        (answer(204, true, false, true), 204),
        (answer(404, true, false, false), 404),
    ] {
        assert_eq!(then(invoked(), &[event]), LocalOpen::Failed(LocalError::HookRejected(status)));
    }
    assert_eq!(then(invoked(), &[LocalEvent::HookFailed]), LocalOpen::Failed(LocalError::HookFailed));
    assert_eq!(then(invoked(), &[LocalEvent::Cancelled]), LocalOpen::Failed(LocalError::StartupCancelled));
}

#[test]
fn readiness_retries_only_dialing() {
    let retry = [
        LocalEvent::Inspected(true, 8),
        LocalEvent::Dialed(false),
        LocalEvent::Paused,
        LocalEvent::Inspected(true, 8),
        LocalEvent::Dialed(false),
        LocalEvent::Paused,
    ];
    assert_eq!(then(found(8), &retry), LocalOpen::Inspect(8));
    assert_eq!(
        then(found(8), &[LocalEvent::Inspected(true, 8), LocalEvent::Dialed(false)]),
        LocalOpen::Pause(8)
    );
    assert_eq!(RETRY_DELAY_MS, 50);
    let mut events = retry.to_vec();
    events.push(LocalEvent::Inspected(true, 8));
    events.push(LocalEvent::Dialed(true));
    events.push(LocalEvent::Inspected(true, 8));
    assert_eq!(then(found(8), &events), LocalOpen::Connected(8));
}

#[test]
fn the_container_has_to_stay_in_its_run() {
    assert_eq!(
        then(found(8), &[LocalEvent::Inspected(false, 8)]),
        LocalOpen::Failed(LocalError::Stopped)
    );
    assert_eq!(then(found(8), &[LocalEvent::Inspected(true, 9)]), LocalOpen::Failed(LocalError::Stopped));
    let dialed = [LocalEvent::Inspected(true, 8), LocalEvent::Dialed(true)];
    assert_eq!(then(found(8), &dialed), LocalOpen::Confirm(8));
    let mut restarted = dialed.to_vec();
    restarted.push(LocalEvent::Inspected(true, 9));
    assert_eq!(then(found(8), &restarted), LocalOpen::Failed(LocalError::Restarted));
    let mut stopped = dialed.to_vec();
    stopped.push(LocalEvent::Inspected(false, 8));
    assert_eq!(then(found(8), &stopped), LocalOpen::Failed(LocalError::Restarted));
}

#[test]
fn cancelling_ends_the_wait_for_the_port() {
    assert_eq!(
        then(found(8), &[LocalEvent::Inspected(true, 8), LocalEvent::Cancelled]),
        LocalOpen::Failed(LocalError::ReadinessCancelled)
    );
    assert_eq!(
        then(found(8), &[LocalEvent::Inspected(true, 8), LocalEvent::Dialed(false), LocalEvent::Cancelled]),
        LocalOpen::Failed(LocalError::ReadinessCancelled)
    );
}

#[test]
fn missing_engines_and_containers_are_told_apart() {
    let mut answered = invoked();
    answered.push(answer(204, true, false, false));
    assert_eq!(then(answered.clone(), &[LocalEvent::Engine(false)]), LocalOpen::Failed(LocalError::NoEngine));
    assert_eq!(
        then(answered, &[LocalEvent::Engine(true), LocalEvent::Container(None)]),
        LocalOpen::Failed(LocalError::NoContainer)
    );
}

#[test]
fn the_guard_follows_the_hook() {
    assert_eq!(open(&[]).guard(), AbortGuard::Unset);
    assert_eq!(open(&[LocalEvent::Slot(false)]).guard(), AbortGuard::Unset);
    assert_eq!(open(&invoked()).guard(), AbortGuard::Armed);
    assert_eq!(then(invoked(), &[LocalEvent::Cancelled]).guard(), AbortGuard::Armed);
    assert_eq!(then(invoked(), &[LocalEvent::HookFailed]).guard(), AbortGuard::Answered);
    assert_eq!(then(invoked(), &[answer(500, true, false, false)]).guard(), AbortGuard::Answered);
    assert_eq!(open(&found(1)).guard(), AbortGuard::Disarmed);
}

#[test]
fn failures_are_reported_in_words() {
    for (error, words) in [
        (LocalError::OwnerLimit, Some("TCP owner connection limit reached")),
        (LocalError::NoRuntime, Some("no cell runtime")),
        (LocalError::StartupCancelled, Some("TCP startup cancelled")),
        (LocalError::HookFailed, None),
        (
            LocalError::HookRejected(404),
            Some("TCP startup hook must return an empty 204 response (received 404)"),
        ),
        (LocalError::NoEngine, None),
        (LocalError::NoContainer, Some("TCP target has no container")),
        (LocalError::Stopped, Some("container stopped during TCP establishment")),
        (LocalError::ReadinessCancelled, Some("TCP readiness cancelled")),
        (LocalError::Restarted, Some("container restarted during TCP establishment")),
    ] {
        assert_eq!(error.message(), words.map(|words| words.to_string()));
    }
}

#[test]
fn cancellation_observes_an_already_published_stop() {
    let wait = Cancellation::new().advance(SignalEvent::Seen(true));
    assert_eq!(wait, Cancellation::Over);
    let wait = Cancellation::new().advance(SignalEvent::Seen(false)).advance(SignalEvent::Closed);
    assert_eq!(wait, Cancellation::Over);
}

#[test]
fn waiting_goes_on_until_a_stop() {
    let mut wait = Cancellation::new();
    for _ in 0..3 {
        wait = wait.advance(SignalEvent::Seen(false));
        assert_eq!(wait, Cancellation::Wait);
        wait = wait.advance(SignalEvent::Changed);
        assert_eq!(wait, Cancellation::Look);
    }
    wait = wait.advance(SignalEvent::Seen(true));
    assert_eq!(wait, Cancellation::Over);
    assert_eq!(wait.advance(SignalEvent::Changed), Cancellation::Over);
}

#[test]
fn streams_end_well_unless_copying_fails() {
    assert_eq!(relay_result(&RelayEnd::Copied(1, 2)), Ok(()));
    assert_eq!(relay_result(&RelayEnd::Cancelled), Ok(()));
    assert_eq!(relay_result(&RelayEnd::ContainerExited), Ok(()));
    assert_eq!(relay_result(&RelayEnd::CopyFailed), Err(CopyError));
}

fn serve(events: &[ServeEvent]) -> Serve {
    let mut serve = Serve::new();
    for event in events {
        serve = serve.advance(*event);
    }
    serve
}

#[test]
fn clients_need_admission_and_a_connection() {
    assert_eq!(serve(&[ServeEvent::Accepted]), Serve::Admit);
    assert_eq!(serve(&[ServeEvent::Accepted, ServeEvent::Admitted(false)]), Serve::Accept);
    assert_eq!(serve(&[ServeEvent::Accepted, ServeEvent::Admitted(true)]), Serve::TakeSlot);
    assert_eq!(serve(&[ServeEvent::Accepted, ServeEvent::Admitted(true), ServeEvent::Slot(false)]), Serve::Accept);
    assert_eq!(serve(&[ServeEvent::Accepted, ServeEvent::Admitted(true), ServeEvent::Slot(true)]), Serve::Start);
    assert_eq!(serve(&[ServeEvent::Accepted, ServeEvent::Admitted(true), ServeEvent::Slot(true), ServeEvent::Started]), Serve::Accept);
    assert_eq!(serve(&[ServeEvent::Ended]), Serve::Accept);
    assert_eq!(serve(&[ServeEvent::Slot(true)]), Serve::Accept);
}

#[test]
fn listeners_pause_after_a_failure() {
    assert_eq!(serve(&[ServeEvent::AcceptFailed]), Serve::Pause);
    assert_eq!(serve(&[ServeEvent::AcceptFailed, ServeEvent::Paused]), Serve::Accept);
    assert_eq!(ACCEPT_RETRY_MS, 100);
}

#[test]
fn stopped_listeners_take_nobody() {
    assert_eq!(serve(&[ServeEvent::Stop]), Serve::Drain);
    assert_eq!(serve(&[ServeEvent::Stop, ServeEvent::Accepted]), Serve::Drain);
    assert_eq!(serve(&[ServeEvent::Stop, ServeEvent::Drained]), Serve::Over);
    assert_eq!(serve(&[ServeEvent::Stop, ServeEvent::Drained, ServeEvent::Accepted]), Serve::Over);
}
