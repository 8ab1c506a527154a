//! Statuses and control messages exchanged between the UI context and the
//! worker, and the `Communicator` mailbox pair connecting the two.

use vstd::prelude::*;

verus! {

/// Connection status as the UI context tracks it.
#[derive(Debug, Clone, Eq, PartialEq, Structural)]
pub enum GuiStatus {
    Ready,
    Connecting,
    Reconnecting,
    Connected,
    Failed,
    Disconnecting,
}

impl GuiStatus {
    /// A new connection may be requested only from a settled, unconnected
    /// status.
    pub fn can_connect(&self) -> (r: bool)
        ensures
            r == (self is Ready || self is Failed),
    {
        match self {
            GuiStatus::Ready | GuiStatus::Failed => true,
            GuiStatus::Connecting
            | GuiStatus::Reconnecting
            | GuiStatus::Connected
            | GuiStatus::Disconnecting => false,
        }
    }
}

impl Default for GuiStatus {
    fn default() -> (r: Self)
        ensures
            r is Ready,
    {
        GuiStatus::Ready
    }
}

/// Coarse status of the worker itself: idle, or owning a live session.
#[derive(Debug, Clone, Copy, Eq, PartialEq, Structural)]
pub enum LoopStatus {
    Ready,
    Connected,
}

/// Status events the worker reports back to the UI context.
#[derive(Debug, Clone, PartialEq)]
pub enum LoopMessage {
    Ready,
    SocketConnected,
    SocketCannotConnect,
    SocketClosed,
    SocketReconnecting,
    AudioStreamError(String),
}

/// Commands the UI context issues to the worker.
#[derive(Debug, Clone, PartialEq)]
pub enum UserAction {
    Connect(String),
    UserDisconnect,
    Exit,
}

/// Why a receive yielded no message: nothing is queued right now, or the
/// peer endpoint is gone for good. Callers must be able to tell the two
/// apart.
#[derive(Debug, Clone, Copy, Eq, PartialEq, Structural)]
pub enum TryReceiveError {
    Empty,
    Disconnected,
}

/// Declares std::sync::mpsc::Sender so it can stand in fields and
/// signatures; the channel's inside stays opaque.
#[verifier::external_type_specification]
#[verifier::external_body]
#[verifier::reject_recursive_types(T)]
pub struct ExSender<T>(std::sync::mpsc::Sender<T>);

/// Declares std::sync::mpsc::Receiver, the channel's receiving end.
#[verifier::external_type_specification]
#[verifier::external_body]
#[verifier::reject_recursive_types(T)]
pub struct ExReceiver<T>(std::sync::mpsc::Receiver<T>);

/// Relies on std::sync::mpsc::channel: creates a connected
/// sender/receiver pair for one message direction.
#[verifier::external_body]
fn channel_create<T>() -> (std::sync::mpsc::Sender<T>, std::sync::mpsc::Receiver<T>) {
    std::sync::mpsc::channel()
}

/// Relies on std::sync::mpsc::Sender::send: never blocks; it fails only
/// when the receiving end is gone, handing the unsent message back.
#[verifier::external_body]
fn channel_send<T>(sender: &std::sync::mpsc::Sender<T>, message: T) -> (r: Result<(), T>)
    ensures
        r matches Err(m) ==> m == message,
{
    sender.send(message).map_err(|e| e.0)
}

/// Relies on std::sync::mpsc::Receiver::try_recv: returns at once, with a
/// message or with which of the two failure cases holds.
#[verifier::external_body]
fn channel_try_recv<T>(receiver: &std::sync::mpsc::Receiver<T>) -> Result<T, TryReceiveError> {
    match receiver.try_recv() {
        Ok(m) => Ok(m),
        Err(std::sync::mpsc::TryRecvError::Empty) => Err(TryReceiveError::Empty),
        Err(std::sync::mpsc::TryRecvError::Disconnected) => Err(TryReceiveError::Disconnected),
    }
}

/// Relies on std::sync::mpsc::Receiver::recv: blocks until a message
/// arrives; it fails only when every sender is gone.
#[verifier::external_body]
fn channel_recv<T>(receiver: &std::sync::mpsc::Receiver<T>) -> (r: Result<T, TryReceiveError>)
    ensures
        r matches Err(e) ==> e is Disconnected,
{
    receiver.recv().map_err(|_| TryReceiveError::Disconnected)
}

/// One endpoint of the control channel: it owns the send capability for its
/// outbound message type and the receive capability for its inbound type.
#[verifier::reject_recursive_types(S)]
#[verifier::reject_recursive_types(T)]
pub struct Communicator<S, T> {
    sender: std::sync::mpsc::Sender<S>,
    receiver: std::sync::mpsc::Receiver<T>,
}

impl<S, T> Communicator<S, T> {
    /// Non-blocking send; fails only if the peer endpoint has been dropped,
    /// in which case the message comes back unsent.
    pub fn send(&self, message: S) -> (r: Result<(), S>)
        ensures
            r matches Err(m) ==> m == message,
    {
        channel_send(&self.sender, message)
    }

    /// Non-blocking receive: a message, an empty-queue signal, or a
    /// peer-gone signal.
    pub fn try_receive(&mut self) -> Result<T, TryReceiveError> {
        channel_try_recv(&self.receiver)
    }

    /// Blocking receive; fails only if the peer endpoint is gone.
    pub fn receive(&mut self) -> (r: Result<T, TryReceiveError>)
        ensures
            r matches Err(e) ==> e is Disconnected,
    {
        channel_recv(&self.receiver)
    }

    /// Builds the two complementary endpoints with swapped message
    /// directions; each direction has exactly one sender and one receiver.
    pub fn create_pair() -> (Communicator<S, T>, Communicator<T, S>) {
        let (sender_1, receiver_2) = channel_create::<S>();
        let (sender_2, receiver_1) = channel_create::<T>();
        (
            Communicator { sender: sender_1, receiver: receiver_1 },
            Communicator { sender: sender_2, receiver: receiver_2 },
        )
    }

    /// The endpoint's two capabilities, for specification.
    pub closed spec fn parts(self) -> (std::sync::mpsc::Sender<S>, std::sync::mpsc::Receiver<T>) {
        (self.sender, self.receiver)
    }

    /// Releases exactly the endpoint's own sender and receiver to the
    /// caller.
    pub fn split(self) -> (r: (std::sync::mpsc::Sender<S>, std::sync::mpsc::Receiver<T>))
        ensures
            r == self.parts(),
    {
        (self.sender, self.receiver)
    }
}

} // verus!
