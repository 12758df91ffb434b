use skycurrent::backing::combined::{
    gateway_step, handle_gateway_message, is_transient_init_error, recv_stream_step, send_stream,
    set_global_project_dir, set_global_should_collect, try_recv_stream, Backing, CombinedState, GlobalConfig,
    InitError, IpcError, RecvStep, BACKING_COUNT, PRECEDENCE_WINDOW_US,
};
use skycurrent::backing::common::{self, TryRecvStreamResult};
use skycurrent::backing::wait_inbox::{WaitInbox, WaitPoll};
use skycurrent::backing::ws_gateway::{self, GatewayBroadcast, GatewayInbox, GatewayOutbox};

fn open_wait_inbox() -> (tokio::sync::mpsc::Sender<Result<Backing, IpcError>>, WaitInbox) {
    let (tx, rx) = tokio::sync::mpsc::channel(100);
    let mut inbox = WaitInbox::new();
    inbox.set_receiver(rx);
    (tx, inbox)
}

#[test]
fn backing_numbers_and_names() {
    assert_eq!(Backing::from(0), Backing::Iox2);
    assert_eq!(Backing::from(1), Backing::WsGateway);
    assert_eq!(Backing::Iox2.index(), 0);
    assert_eq!(Backing::WsGateway.index(), 1);
    assert_eq!(Backing::_Count.index(), BACKING_COUNT);
    assert_eq!(Backing::Iox2.name(), "iox2");
    assert_eq!(Backing::WsGateway.name(), "ws-gateway");
    assert_eq!(Backing::_Count.name(), "<INVALID>");
    assert_eq!(Backing::Iox2.next_in_turn(), Backing::WsGateway);
    assert_eq!(Backing::WsGateway.next_in_turn(), Backing::Iox2);
    assert!(Backing::WsGateway.is_built());
    assert!(!Backing::Iox2.is_built());
}

fn collect_a(header: &[u8]) -> bool {
    header.first() == Some(&b'a')
}

#[test]
fn global_config_setters() {
    let mut config: GlobalConfig<fn(&[u8]) -> bool> = GlobalConfig::new();
    assert!(config.project_dir().is_none());
    assert!(config.should_collect().is_none());
    set_global_project_dir(&mut config, std::path::PathBuf::from("/tmp/project"));
    assert_eq!(config.project_dir().as_deref(), Some(std::path::Path::new("/tmp/project")));
    set_global_should_collect(&mut config, collect_a as fn(&[u8]) -> bool);
    let cb = config.should_collect().expect("callback set");
    assert!(cb(b"abc"));
    assert!(!cb(b"xyz"));
    assert_eq!(config.project_dir().as_deref(), Some(std::path::Path::new("/tmp/project")));
}

#[test]
fn precedence_starts_with_first_backing_and_rotates_after_window() {
    let mut state = CombinedState::new();
    assert_eq!(state.current(), Backing::_Count);
    state.begin_try_recv(100);
    assert_eq!(state.current(), Backing::Iox2);
    state.begin_try_recv(100 + PRECEDENCE_WINDOW_US);
    assert_eq!(state.current(), Backing::Iox2);
    state.begin_try_recv(100 + PRECEDENCE_WINDOW_US + 1);
    assert_eq!(state.current(), Backing::WsGateway);
    state.begin_try_recv(50);
    assert_eq!(state.current(), Backing::WsGateway);
    state.pass_precedence(Backing::WsGateway, 500);
    assert_eq!(state.current(), Backing::Iox2);
}

#[test]
fn wait_stream_flags() {
    let mut state = CombinedState::new();
    assert!(!state.is_blocked(Backing::Iox2));
    assert!(!state.is_blocked(Backing::WsGateway));
    // Only the iceoryx2 backing blocks in its own wait, and it is not built.
    assert_eq!(state.begin_wait_stream(), Vec::<Backing>::new());
    assert!(!state.is_blocked(Backing::WsGateway));
    assert!(!state.is_blocked(Backing::Iox2));
    assert!(state.handle_wait_stream_return(Ok(Backing::Iox2)).is_ok());
    assert!(!state.is_blocked(Backing::Iox2));
    assert!(matches!(
        state.handle_wait_stream_return(Err(IpcError::NotInitialized)),
        Err(IpcError::NotInitialized)
    ));
    state.begin_try_recv(5);
    assert_eq!(state.current(), Backing::Iox2);
    state.reset(9);
    assert!(!state.is_blocked(Backing::WsGateway));
    assert_eq!(state.current(), Backing::_Count);
}

#[test]
fn drain_before_init_is_not_initialized() {
    let mut state = CombinedState::new();
    let mut inbox = WaitInbox::new();
    assert!(matches!(state.wait_stream_drain(&mut inbox), Err(IpcError::NotInitialized)));
    assert!(!inbox.is_open());
}

#[test]
fn drain_takes_in_returns() {
    let mut state = CombinedState::new();
    let (tx, mut inbox) = open_wait_inbox();
    assert!(state.wait_stream_drain(&mut inbox).is_ok());
    tx.try_send(Ok(Backing::Iox2)).unwrap();
    tx.try_send(Ok(Backing::WsGateway)).unwrap();
    assert!(state.wait_stream_drain(&mut inbox).is_ok());
    assert!(!state.is_blocked(Backing::WsGateway));
    assert!(!state.is_blocked(Backing::Iox2));
    tx.try_send(Err(IpcError::BackingCrashedOrNotStarted("iox2"))).unwrap();
    assert!(matches!(state.wait_stream_drain(&mut inbox), Err(IpcError::BackingCrashedOrNotStarted("iox2"))));
    assert!(inbox.is_open());
}

#[test]
fn drain_stops_at_first_error_and_leaves_the_rest() {
    let mut state = CombinedState::new();
    let (tx, mut inbox) = open_wait_inbox();
    tx.try_send(Err(IpcError::NotInitialized)).unwrap();
    tx.try_send(Ok(Backing::Iox2)).unwrap();
    assert!(matches!(state.wait_stream_drain(&mut inbox), Err(IpcError::NotInitialized)));
    // The return after the error stays queued for the next drain.
    assert!(state.wait_stream_drain(&mut inbox).is_ok());
    assert!(matches!(state.wait_stream_drain(&mut inbox), Ok(())));
}

#[test]
fn drain_step_on_each_look() {
    let mut state = CombinedState::new();
    assert!(state.drain_step(WaitPoll::Returned(Ok(Backing::Iox2))).is_none());
    assert!(!state.is_blocked(Backing::Iox2));
    assert!(matches!(
        state.drain_step(WaitPoll::Returned(Err(IpcError::NotInitialized))),
        Some(Err(IpcError::NotInitialized))
    ));
    assert!(matches!(state.drain_step(WaitPoll::Nothing), Some(Ok(()))));
}

#[test]
fn wait_inbox_take_and_set() {
    let (_tx, mut inbox) = open_wait_inbox();
    assert!(inbox.is_open());
    let rx = inbox.take_receiver();
    assert!(rx.is_some());
    assert!(!inbox.is_open());
    assert!(inbox.take_receiver().is_none());
    inbox.set_receiver(rx.unwrap());
    assert!(inbox.is_open());
    assert!(matches!(inbox.poll(), WaitPoll::Nothing));
}

#[test]
fn gateway_message_outcomes() {
    let frame = ws_gateway::frame_payload(b"hi", 1);
    let (echo, result) = handle_gateway_message(frame.clone());
    assert_eq!(echo, Some(frame));
    match result {
        TryRecvStreamResult::NewCompleted(p) => assert_eq!(p, b"hi".to_vec()),
        _ => panic!("expected the payload"),
    }
    let (echo, result) = handle_gateway_message(vec![1, 2, 3]);
    assert_eq!(echo, None);
    assert!(matches!(result, TryRecvStreamResult::PotentiallyAvailable));
}

fn gateway_channels() -> (
    GatewayOutbox,
    GatewayInbox,
    GatewayBroadcast,
    postage::broadcast::Receiver<Vec<u8>>,
) {
    let (tx, rx) = tokio::sync::mpsc::unbounded_channel::<Vec<u8>>();
    let (broadcast, _) = postage::broadcast::channel::<Vec<u8>>(8);
    let mut broadcast = broadcast;
    let client = broadcast.subscribe();
    (GatewayOutbox::open(tx), GatewayInbox::open(rx), GatewayBroadcast::new(broadcast), client)
}

#[test]
fn send_then_receive_through_gateway() {
    let mut state = CombinedState::new();
    let (_wait_tx, mut wait) = open_wait_inbox();
    let (mut outbox, mut inbox, mut broadcast, mut client) = gateway_channels();

    let r = try_recv_stream(&mut state, Some(&mut wait), &mut inbox, &mut broadcast, 1000);
    assert!(matches!(r, Ok(TryRecvStreamResult::OutOfAccessible)));
    assert_eq!(state.current(), Backing::Iox2);

    assert!(send_stream(&mut outbox, b"abcdef", 1).is_ok());
    let r = try_recv_stream(&mut state, Some(&mut wait), &mut inbox, &mut broadcast, 1001);
    match r {
        Ok(TryRecvStreamResult::NewCompleted(p)) => assert_eq!(p, b"abcdef".to_vec()),
        _ => panic!("expected the sent payload"),
    }
    let echoed = postage::stream::Stream::try_recv(&mut client).ok();
    assert_eq!(echoed, Some(ws_gateway::frame_payload(b"abcdef", 1)));
}

#[test]
fn gateway_keeps_precedence_while_it_answers() {
    let mut state = CombinedState::new();
    let (mut outbox, mut inbox, mut broadcast, _client) = gateway_channels();
    state.begin_try_recv(0);
    state.pass_precedence(Backing::Iox2, 0);
    assert_eq!(state.current(), Backing::WsGateway);
    assert!(send_stream(&mut outbox, b"m", 0).is_ok());
    let r = try_recv_stream(&mut state, None, &mut inbox, &mut broadcast, 5);
    assert!(matches!(r, Ok(TryRecvStreamResult::NewCompleted(_))));
    assert_eq!(state.current(), Backing::WsGateway);
    let r = try_recv_stream(&mut state, None, &mut inbox, &mut broadcast, 6);
    assert!(matches!(r, Ok(TryRecvStreamResult::OutOfAccessible)));
    assert_eq!(state.current(), Backing::Iox2);
}

#[test]
fn malformed_gateway_frame_is_dropped() {
    let mut state = CombinedState::new();
    let (_wait_tx, mut wait) = open_wait_inbox();
    let (tx, rx) = tokio::sync::mpsc::unbounded_channel::<Vec<u8>>();
    let mut inbox = GatewayInbox::open(rx);
    let (mut raw, _) = postage::broadcast::channel::<Vec<u8>>(8);
    let mut client = raw.subscribe();
    let mut broadcast = GatewayBroadcast::new(raw);
    tx.send(vec![1, 2]).unwrap();
    let r = try_recv_stream(&mut state, Some(&mut wait), &mut inbox, &mut broadcast, 0);
    assert!(matches!(r, Ok(TryRecvStreamResult::PotentiallyAvailable)));
    assert!(postage::stream::Stream::try_recv(&mut client).is_err());
    let r = try_recv_stream(&mut state, Some(&mut wait), &mut inbox, &mut broadcast, 0);
    assert!(matches!(r, Ok(TryRecvStreamResult::OutOfAccessible)));
}

#[test]
fn try_recv_stream_before_init() {
    let mut state = CombinedState::new();
    let mut wait = WaitInbox::new();
    let mut inbox = GatewayInbox::new();
    let (raw, _) = postage::broadcast::channel::<Vec<u8>>(8);
    let mut broadcast = GatewayBroadcast::new(raw);
    let r = try_recv_stream(&mut state, Some(&mut wait), &mut inbox, &mut broadcast, 0);
    assert!(matches!(r, Err(IpcError::NotInitialized)));
    let r = try_recv_stream(&mut state, None, &mut inbox, &mut broadcast, 0);
    assert!(matches!(r, Err(IpcError::WsGatewayIpcError(ws_gateway::IpcError::NotInitialized))));
}

#[test]
fn try_recv_stream_after_close_touches_no_channel() {
    let mut state = CombinedState::new();
    let (_wait_tx, mut wait) = open_wait_inbox();
    let (mut outbox, mut inbox, mut broadcast, _client) = gateway_channels();
    assert!(send_stream(&mut outbox, b"kept", 0).is_ok());
    // `close` takes the wait-stream channel away.
    drop(wait.take_receiver());
    state.reset(3);
    let r = try_recv_stream(&mut state, Some(&mut wait), &mut inbox, &mut broadcast, 4);
    assert!(matches!(r, Err(IpcError::NotInitialized)));
    // The message is still waiting in the gateway's channel.
    match try_recv_stream(&mut state, None, &mut inbox, &mut broadcast, 5) {
        Ok(TryRecvStreamResult::NewCompleted(p)) => assert_eq!(p, b"kept".to_vec()),
        _ => panic!("expected the message"),
    }
}

#[test]
fn gateway_step_on_each_answer() {
    let (_outbox, _inbox, mut broadcast, mut client) = gateway_channels();
    let mut state = CombinedState::new();
    state.begin_try_recv(0);
    let frame = ws_gateway::frame_payload(b"ok", 2);
    match gateway_step(&mut state, Ok(TryRecvStreamResult::NewCompleted(frame.clone())), &mut broadcast, 1) {
        Some(Ok(TryRecvStreamResult::NewCompleted(p))) => assert_eq!(p, b"ok".to_vec()),
        _ => panic!("expected the payload"),
    }
    assert_eq!(postage::stream::Stream::try_recv(&mut client).ok(), Some(frame));
    assert!(matches!(
        gateway_step(&mut state, Ok(TryRecvStreamResult::PotentiallyAvailable), &mut broadcast, 1),
        Some(Ok(TryRecvStreamResult::PotentiallyAvailable))
    ));
    assert!(matches!(
        gateway_step(&mut state, Err(ws_gateway::IpcError::NotInitialized), &mut broadcast, 1),
        Some(Err(IpcError::WsGatewayIpcError(ws_gateway::IpcError::NotInitialized)))
    ));
    state.pass_precedence(Backing::Iox2, 1);
    assert_eq!(state.current(), Backing::WsGateway);
    assert!(gateway_step(&mut state, Ok(TryRecvStreamResult::OutOfAccessible), &mut broadcast, 7).is_none());
    assert_eq!(state.current(), Backing::Iox2);
    assert!(postage::stream::Stream::try_recv(&mut client).is_err());
}

#[test]
fn recv_stream_steps() {
    assert!(matches!(recv_stream_step(TryRecvStreamResult::NewCompleted(vec![7])), RecvStep::Deliver(p) if p == vec![7]));
    assert!(matches!(recv_stream_step(TryRecvStreamResult::PotentiallyAvailable), RecvStep::Yield));
    assert!(matches!(recv_stream_step(TryRecvStreamResult::OutOfAccessible), RecvStep::Wait));
}

#[test]
fn send_stream_before_init() {
    let mut outbox = GatewayOutbox::new();
    assert!(matches!(
        send_stream(&mut outbox, b"x", 0),
        Err(IpcError::WsGatewayIpcError(ws_gateway::IpcError::NotInitialized))
    ));
}

#[test]
fn transient_init_errors() {
    let bind = || common::InitError::TcpListenerBindError(std::io::Error::new(std::io::ErrorKind::AddrInUse, "busy"));
    assert!(is_transient_init_error(&InitError::BackingCrashed(Backing::Iox2)));
    assert!(is_transient_init_error(&InitError::CommonInitError(bind())));
    assert!(is_transient_init_error(&InitError::WsGatewayInitError(ws_gateway::InitError::CommonInitError(bind()))));
    assert!(!is_transient_init_error(&InitError::MissingGlobalProjectDirectory(String::from("iox2"))));
    assert!(!is_transient_init_error(&InitError::CommonInitError(common::InitError::NotAFolder(
        std::path::PathBuf::from("/nope")
    ))));
    assert!(!is_transient_init_error(&InitError::WsGatewayInitError(ws_gateway::InitError::CommonInitError(
        common::InitError::CreateDirError(std::path::PathBuf::from("/x"), std::io::Error::new(std::io::ErrorKind::Other, "e"))
    ))));
}
