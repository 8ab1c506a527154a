//! UI-side state over the control channel: how each worker status message
//! moves the displayed status, what the connect/disconnect button sends, and
//! the status texts. Rendering itself is the window layer's work.

use vstd::prelude::*;

use crate::common::{Communicator, GuiStatus, LoopMessage, UserAction};

verus! {

/// The status one received worker message moves the UI to.
pub open spec fn applied_status(message: LoopMessage) -> GuiStatus {
    match message {
        LoopMessage::Ready => GuiStatus::Ready,
        LoopMessage::SocketConnected => GuiStatus::Connected,
        LoopMessage::SocketCannotConnect => GuiStatus::Ready,
        LoopMessage::SocketClosed => GuiStatus::Ready,
        LoopMessage::SocketReconnecting => GuiStatus::Reconnecting,
        LoopMessage::AudioStreamError(_) => GuiStatus::Failed,
    }
}

/// The UI context's state: the endpoint address being edited, the displayed
/// status, its endpoint of the control channel, and the error text shown
/// after a failure.
pub struct MyApp {
    pub address: String,
    pub status: GuiStatus,
    pub comm: Communicator<UserAction, LoopMessage>,
    pub error_message: Option<String>,
}

impl MyApp {
    /// Fresh UI state, Ready, over its endpoint of the control channel.
    pub fn new(address: String, comm: Communicator<UserAction, LoopMessage>) -> (app: MyApp)
        ensures
            app.status is Ready,
            app.error_message is None,
            app.address == address,
    {
        MyApp { address, status: GuiStatus::Ready, comm, error_message: None }
    }

    /// Applies one status message from the worker: moves the displayed
    /// status, records the error text an error message carries, and keeps
    /// everything else.
    pub fn apply_message(&mut self, message: LoopMessage)
        ensures
            final(self).status == applied_status(message),
            final(self).address == old(self).address,
            message matches LoopMessage::AudioStreamError(e) ==> final(self).error_message
                == Some(e),
            message is SocketCannotConnect ==> (final(self).error_message matches Some(s) && s@
                == "Error connecting"@),
            !(message is AudioStreamError || message is SocketCannotConnect)
                ==> final(self).error_message == old(self).error_message,
    {
        match message {
            LoopMessage::Ready => {
                self.status = GuiStatus::Ready;
            },
            LoopMessage::SocketConnected => {
                self.status = GuiStatus::Connected;
            },
            LoopMessage::SocketCannotConnect => {
                self.status = GuiStatus::Ready;
                self.error_message = Some("Error connecting".to_owned());
            },
            LoopMessage::SocketClosed => {
                self.status = GuiStatus::Ready;
            },
            LoopMessage::SocketReconnecting => {
                self.status = GuiStatus::Reconnecting;
            },
            LoopMessage::AudioStreamError(e) => {
                self.status = GuiStatus::Failed;
                self.error_message = Some(e);
            },
        }
    }

    /// The command the connect/disconnect button sends: a disconnect while
    /// connected, else a connect to the edited address.
    pub fn click_action(&self) -> (a: UserAction)
        ensures
            self.status is Connected ==> a == UserAction::UserDisconnect,
            !(self.status is Connected) ==> (a matches UserAction::Connect(s) && s
                == self.address),
    {
        match self.status {
            GuiStatus::Connected => UserAction::UserDisconnect,
            _ => UserAction::Connect(self.address.clone()),
        }
    }

    /// One click of the connect/disconnect button: clears the error text,
    /// sends the command, and moves the status — to Disconnecting or
    /// Connecting when the send went through, to Failed with an error text
    /// when the worker's endpoint is gone.
    pub fn on_button_click(&mut self)
        ensures
            final(self).address == old(self).address,
            final(self).error_message is None ==> {
                &&& old(self).status is Connected ==> final(self).status is Disconnecting
                &&& !(old(self).status is Connected) ==> final(self).status is Connecting
            },
            !(final(self).error_message is None) ==> final(self).status is Failed
                && (final(self).error_message matches Some(s) && s@ == "Communicator error"@),
    {
        self.error_message = None;
        let was_connected = match self.status {
            GuiStatus::Connected => true,
            _ => false,
        };
        let action = self.click_action();
        match self.comm.send(action) {
            Ok(_) => {
                if was_connected {
                    self.status = GuiStatus::Disconnecting;
                } else {
                    self.status = GuiStatus::Connecting;
                }
            },
            Err(_) => {
                self.status = GuiStatus::Failed;
                self.error_message = Some("Communicator error".to_owned());
            },
        }
    }
}

/// Label of the connect/disconnect button for each status.
pub fn get_button_text(status: &GuiStatus) -> (r: &'static str)
    ensures
        (status is Ready || status is Failed || status is Connecting) ==> r@ == "Connect"@,
        !(status is Ready || status is Failed || status is Connecting) ==> r@ == "Disconnect"@,
{
    if let GuiStatus::Connecting = status {
        return "Connect";
    }
    if status.can_connect() {
        return "Connect";
    }
    "Disconnect"
}

/// Headline text for each status.
pub fn get_status_text(status: &GuiStatus) -> (r: &'static str)
    ensures
        status is Ready ==> r@ == "Waiting for connection"@,
        status is Connecting ==> r@ == "Connecting..."@,
        status is Connected ==> r@ == "Connected"@,
        status is Failed ==> r@ == "Connection failed"@,
        status is Disconnecting ==> r@ == "Disconnecting..."@,
        status is Reconnecting ==> r@ == "Reconnecting..."@,
{
    match status {
        GuiStatus::Ready => "Waiting for connection",
        GuiStatus::Connecting => "Connecting...",
        GuiStatus::Connected => "Connected",
        GuiStatus::Failed => "Connection failed",
        GuiStatus::Disconnecting => "Disconnecting...",
        GuiStatus::Reconnecting => "Reconnecting...",
    }
}

} // verus!
