use fast_mic::common::{Communicator, GuiStatus, LoopMessage, UserAction};
use fast_mic::gui::{get_button_text, get_status_text, MyApp};

fn fresh_app(address: &str) -> (MyApp, Communicator<LoopMessage, UserAction>) {
    let (ui, worker) = Communicator::<UserAction, LoopMessage>::create_pair();
    (MyApp::new(address.to_string(), ui), worker)
}

#[test]
fn new_app_is_ready() {
    let (app, _worker) = fresh_app("1.2.3.4:5");
    assert_eq!(app.status, GuiStatus::Ready);
    assert_eq!(app.address, "1.2.3.4:5");
    assert_eq!(app.error_message, None);
}

#[test]
fn apply_message_moves_the_status() {
    let (mut app, _worker) = fresh_app("1.2.3.4:5");
    app.apply_message(LoopMessage::SocketConnected);
    assert_eq!(app.status, GuiStatus::Connected);
    app.apply_message(LoopMessage::SocketReconnecting);
    assert_eq!(app.status, GuiStatus::Reconnecting);
    app.apply_message(LoopMessage::SocketClosed);
    assert_eq!(app.status, GuiStatus::Ready);
    app.apply_message(LoopMessage::Ready);
    assert_eq!(app.status, GuiStatus::Ready);
}

#[test]
fn apply_message_records_error_texts() {
    let (mut app, _worker) = fresh_app("1.2.3.4:5");
    app.apply_message(LoopMessage::AudioStreamError("Lost connection".to_string()));
    assert_eq!(app.status, GuiStatus::Failed);
    assert_eq!(app.error_message, Some("Lost connection".to_string()));
    app.apply_message(LoopMessage::SocketCannotConnect);
    assert_eq!(app.status, GuiStatus::Ready);
    assert_eq!(app.error_message, Some("Error connecting".to_string()));
    // a plain status message keeps the last error text
    app.apply_message(LoopMessage::SocketConnected);
    assert_eq!(app.error_message, Some("Error connecting".to_string()));
}

#[test]
fn click_sends_connect_when_not_connected() {
    let (mut app, mut worker) = fresh_app("1.2.3.4:5");
    app.on_button_click();
    assert_eq!(app.status, GuiStatus::Connecting);
    assert_eq!(app.error_message, None);
    assert_eq!(
        worker.try_receive(),
        Ok(UserAction::Connect("1.2.3.4:5".to_string()))
    );
}

#[test]
fn click_sends_disconnect_when_connected() {
    let (mut app, mut worker) = fresh_app("1.2.3.4:5");
    app.apply_message(LoopMessage::SocketConnected);
    app.on_button_click();
    assert_eq!(app.status, GuiStatus::Disconnecting);
    assert_eq!(worker.try_receive(), Ok(UserAction::UserDisconnect));
}

#[test]
fn click_with_gone_worker_fails() {
    let (mut app, worker) = fresh_app("1.2.3.4:5");
    drop(worker);
    app.on_button_click();
    assert_eq!(app.status, GuiStatus::Failed);
    assert_eq!(app.error_message, Some("Communicator error".to_string()));
}

#[test]
fn button_text_table() {
    assert_eq!(get_button_text(&GuiStatus::Ready), "Connect");
    assert_eq!(get_button_text(&GuiStatus::Failed), "Connect");
    assert_eq!(get_button_text(&GuiStatus::Connecting), "Connect");
    assert_eq!(get_button_text(&GuiStatus::Connected), "Disconnect");
    assert_eq!(get_button_text(&GuiStatus::Disconnecting), "Disconnect");
    assert_eq!(get_button_text(&GuiStatus::Reconnecting), "Disconnect");
}

#[test]
fn status_text_table() {
    assert_eq!(get_status_text(&GuiStatus::Ready), "Waiting for connection");
    assert_eq!(get_status_text(&GuiStatus::Connecting), "Connecting...");
    assert_eq!(get_status_text(&GuiStatus::Connected), "Connected");
    assert_eq!(get_status_text(&GuiStatus::Failed), "Connection failed");
    assert_eq!(get_status_text(&GuiStatus::Disconnecting), "Disconnecting...");
    assert_eq!(get_status_text(&GuiStatus::Reconnecting), "Reconnecting...");
}
