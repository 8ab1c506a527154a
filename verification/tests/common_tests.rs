use fast_mic::common::{Communicator, GuiStatus, LoopMessage, TryReceiveError, UserAction};

#[test]
fn can_connect_table() {
    assert!(GuiStatus::Ready.can_connect());
    assert!(GuiStatus::Failed.can_connect());
    assert!(!GuiStatus::Connecting.can_connect());
    assert!(!GuiStatus::Reconnecting.can_connect());
    assert!(!GuiStatus::Connected.can_connect());
    assert!(!GuiStatus::Disconnecting.can_connect());
}

#[test]
fn default_status_is_ready() {
    assert_eq!(GuiStatus::default(), GuiStatus::Ready);
}

#[test]
fn pair_carries_messages_both_ways() {
    let (ui, mut worker) = Communicator::<UserAction, LoopMessage>::create_pair();
    let mut ui = ui;
    ui.send(UserAction::Connect("1.2.3.4:5".to_string())).unwrap();
    assert_eq!(
        worker.try_receive(),
        Ok(UserAction::Connect("1.2.3.4:5".to_string()))
    );
    worker.send(LoopMessage::SocketConnected).unwrap();
    assert_eq!(ui.try_receive(), Ok(LoopMessage::SocketConnected));
}

#[test]
fn try_receive_distinguishes_empty_from_gone() {
    let (ui, worker) = Communicator::<UserAction, LoopMessage>::create_pair();
    let mut ui = ui;
    assert_eq!(ui.try_receive(), Err(TryReceiveError::Empty));
    drop(worker);
    assert_eq!(ui.try_receive(), Err(TryReceiveError::Disconnected));
}

#[test]
fn send_to_gone_peer_returns_the_message() {
    let (ui, worker) = Communicator::<UserAction, LoopMessage>::create_pair();
    drop(worker);
    match ui.send(UserAction::Exit) {
        Err(m) => assert_eq!(m, UserAction::Exit),
        Ok(()) => panic!("send should fail once the peer is gone"),
    }
}

#[test]
fn blocking_receive_yields_the_queued_message() {
    let (ui, worker) = Communicator::<UserAction, LoopMessage>::create_pair();
    let mut worker = worker;
    ui.send(UserAction::UserDisconnect).unwrap();
    assert_eq!(worker.receive(), Ok(UserAction::UserDisconnect));
    drop(ui);
    assert_eq!(worker.receive(), Err(TryReceiveError::Disconnected));
}

#[test]
fn split_releases_working_capabilities() {
    let (ui, worker) = Communicator::<UserAction, LoopMessage>::create_pair();
    let (to_worker, from_worker) = ui.split();
    worker.send(LoopMessage::Ready).unwrap();
    assert_eq!(from_worker.recv(), Ok(LoopMessage::Ready));
    to_worker.send(UserAction::Exit).unwrap();
    let mut worker = worker;
    assert_eq!(worker.try_receive(), Ok(UserAction::Exit));
}
