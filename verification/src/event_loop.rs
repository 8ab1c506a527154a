//! The worker state machine: it owns the connect/disconnect/reconnect
//! lifecycle. Every decision is a pure transition from the current state and
//! an observed input to the next state, the status event to emit (if any),
//! and — through [`Worker::next_effect`] — the outside operation the driver
//! performs next. The driver performs that operation (a blocking receive, a
//! poll, a session build, a seek cycle, a teardown, a sleep) and feeds the
//! outcome back in as the next input.

use vstd::prelude::*;

use crate::common::{LoopMessage, LoopStatus, UserAction};

verus! {

/// How many times a lost connection is redialled before giving up.
pub const RECONNECT_ATTEMPTS: u8 = 5;

/// Least pause, in seconds, between two reconnect attempts.
pub const RECONNECT_DELAY_SECS: u64 = 2;

/// Where the worker stands in its connection lifecycle. `Ready` and
/// `Connected` are the settled states; the others record that one outside
/// operation (a session build, a seek cycle, a teardown) is in flight, so
/// that the next input can be interpreted. After the reconnect budget is
/// exhausted the worker returns to `Ready`, never to a connected state
/// without live sessions.
#[derive(Debug, Clone, Copy, Eq, PartialEq, Structural)]
pub enum WorkerState {
    Ready,
    Connecting,
    Connected,
    Seeking,
    Disconnecting,
    Reconnecting { attempts_left: u8 },
    Stopped,
}

/// What the worker observes between two transitions: a control message (or
/// the lack of one), or the outcome of the outside operation it asked for.
#[derive(Debug, Clone, PartialEq)]
pub enum WorkerInput {
    Control(UserAction),
    ChannelEmpty,
    ChannelClosed,
    SessionsBuilt,
    BuildFailed(String),
    SeekOk,
    SeekFailed,
    TeardownOk,
    TeardownFailed(String),
}

/// The outside operation the driver must perform next. `BuildSessions`
/// means: release any sessions still held, then construct the sample
/// buffer, the audio output session and the network session, in that order.
/// `SleepThenBuild` is the same after a pause of at least
/// [`RECONNECT_DELAY_SECS`] seconds.
#[derive(Debug, Clone, Copy, Eq, PartialEq, Structural)]
pub enum Effect {
    AwaitControl,
    PollControl,
    BuildSessions,
    Seek,
    Teardown,
    SleepThenBuild,
    Stop,
}

/// Ghost description of the event a single transition emits: one of the
/// worker's status messages, or nothing.
pub enum Emit {
    Nothing,
    Ready,
    Connected,
    CannotConnect,
    Closed,
    Reconnecting,
    StreamError(Seq<char>),
}

/// Ghost view of an emitted message.
pub open spec fn emit_view(emit: Option<LoopMessage>) -> Emit {
    match emit {
        None => Emit::Nothing,
        Some(LoopMessage::Ready) => Emit::Ready,
        Some(LoopMessage::SocketConnected) => Emit::Connected,
        Some(LoopMessage::SocketCannotConnect) => Emit::CannotConnect,
        Some(LoopMessage::SocketClosed) => Emit::Closed,
        Some(LoopMessage::SocketReconnecting) => Emit::Reconnecting,
        Some(LoopMessage::AudioStreamError(m)) => Emit::StreamError(m@),
    }
}

/// The transition relation of the worker, as one total function: from the
/// current state, the stored address and the observed input to the next
/// state, the next stored address and the emitted event. Inputs that cannot
/// follow from the state's own effect change nothing.
pub open spec fn spec_step(s: WorkerState, address: Seq<char>, input: WorkerInput) -> (
    WorkerState,
    Seq<char>,
    Emit,
) {
    match (s, input) {
        (WorkerState::Stopped, _) => (s, address, Emit::Nothing),
        (_, WorkerInput::ChannelClosed) => (WorkerState::Stopped, address, Emit::Nothing),
        (WorkerState::Ready, WorkerInput::Control(UserAction::Connect(a))) => (
            WorkerState::Connecting,
            a@,
            Emit::Nothing,
        ),
        (WorkerState::Ready, WorkerInput::Control(UserAction::UserDisconnect)) => (
            s,
            address,
            Emit::Nothing,
        ),
        (WorkerState::Ready, WorkerInput::Control(UserAction::Exit)) => (
            WorkerState::Stopped,
            address,
            Emit::Nothing,
        ),
        (WorkerState::Connecting, WorkerInput::SessionsBuilt) => (
            WorkerState::Connected,
            address,
            Emit::Connected,
        ),
        (WorkerState::Connecting, WorkerInput::BuildFailed(m)) => (
            WorkerState::Ready,
            address,
            Emit::StreamError(m@),
        ),
        (WorkerState::Connected, WorkerInput::Control(UserAction::Connect(_))) => (
            s,
            address,
            Emit::Nothing,
        ),
        (WorkerState::Connected, WorkerInput::Control(UserAction::UserDisconnect)) => (
            WorkerState::Disconnecting,
            address,
            Emit::Nothing,
        ),
        (WorkerState::Connected, WorkerInput::Control(UserAction::Exit)) => (
            WorkerState::Stopped,
            address,
            Emit::Nothing,
        ),
        (WorkerState::Connected, WorkerInput::ChannelEmpty) => (
            WorkerState::Seeking,
            address,
            Emit::Nothing,
        ),
        (WorkerState::Seeking, WorkerInput::SeekOk) => (
            WorkerState::Connected,
            address,
            Emit::Nothing,
        ),
        (WorkerState::Seeking, WorkerInput::SeekFailed) => (
            WorkerState::Reconnecting { attempts_left: RECONNECT_ATTEMPTS },
            address,
            Emit::Reconnecting,
        ),
        (WorkerState::Reconnecting { .. }, WorkerInput::SessionsBuilt) => (
            WorkerState::Connected,
            address,
            Emit::Connected,
        ),
        (WorkerState::Reconnecting { attempts_left }, WorkerInput::BuildFailed(_)) => if attempts_left
            > 1 {
            (
                WorkerState::Reconnecting { attempts_left: (attempts_left - 1) as u8 },
                address,
                Emit::Nothing,
            )
        } else {
            (WorkerState::Ready, address, Emit::StreamError("Lost connection"@))
        },
        (WorkerState::Disconnecting, WorkerInput::TeardownOk) => (
            WorkerState::Ready,
            address,
            Emit::Closed,
        ),
        (WorkerState::Disconnecting, WorkerInput::TeardownFailed(m)) => (
            WorkerState::Ready,
            address,
            Emit::StreamError(m@),
        ),
        (_, _) => (s, address, Emit::Nothing),
    }
}

/// The outside operation each state asks its driver for.
pub open spec fn effect_of(s: WorkerState) -> Effect {
    match s {
        WorkerState::Ready => Effect::AwaitControl,
        WorkerState::Connecting => Effect::BuildSessions,
        WorkerState::Connected => Effect::PollControl,
        WorkerState::Seeking => Effect::Seek,
        WorkerState::Disconnecting => Effect::Teardown,
        WorkerState::Reconnecting { attempts_left } => if attempts_left == RECONNECT_ATTEMPTS {
            Effect::BuildSessions
        } else {
            Effect::SleepThenBuild
        },
        WorkerState::Stopped => Effect::Stop,
    }
}

/// The coarse status a state maps to.
pub open spec fn status_of(s: WorkerState) -> LoopStatus {
    match s {
        WorkerState::Connected
        | WorkerState::Seeking
        | WorkerState::Disconnecting
        | WorkerState::Reconnecting { .. } => LoopStatus::Connected,
        WorkerState::Ready | WorkerState::Connecting | WorkerState::Stopped => LoopStatus::Ready,
    }
}

/// The worker's whole decision state: its lifecycle position and the address
/// it connects (and reconnects) to.
pub struct Worker {
    pub state: WorkerState,
    pub address: String,
}

impl Worker {
    /// A fresh worker: ready, with no address stored yet.
    pub fn new() -> (w: Worker)
        ensures
            w.state is Ready,
            w.address@ == ""@,
    {
        Worker { state: WorkerState::Ready, address: "".to_owned() }
    }

    /// One transition of the state machine. Returns the status event to
    /// relay to the UI context, if the transition emits one.
    pub fn step(&mut self, input: WorkerInput) -> (emit: Option<LoopMessage>)
        ensures
            final(self).state == spec_step(old(self).state, old(self).address@, input).0,
            final(self).address@ == spec_step(old(self).state, old(self).address@, input).1,
            emit_view(emit) == spec_step(old(self).state, old(self).address@, input).2,
    {
        match (self.state, input) {
            (WorkerState::Stopped, _) => None,
            (_, WorkerInput::ChannelClosed) => {
                self.state = WorkerState::Stopped;
                None
            },
            (WorkerState::Ready, WorkerInput::Control(UserAction::Connect(a))) => {
                self.address = a;
                self.state = WorkerState::Connecting;
                None
            },
            (WorkerState::Ready, WorkerInput::Control(UserAction::UserDisconnect)) => None,
            (WorkerState::Ready, WorkerInput::Control(UserAction::Exit)) => {
                self.state = WorkerState::Stopped;
                None
            },
            (WorkerState::Connecting, WorkerInput::SessionsBuilt) => {
                self.state = WorkerState::Connected;
                Some(LoopMessage::SocketConnected)
            },
            (WorkerState::Connecting, WorkerInput::BuildFailed(m)) => {
                self.state = WorkerState::Ready;
                Some(LoopMessage::AudioStreamError(m))
            },
            (WorkerState::Connected, WorkerInput::Control(UserAction::Connect(_))) => None,
            (WorkerState::Connected, WorkerInput::Control(UserAction::UserDisconnect)) => {
                self.state = WorkerState::Disconnecting;
                None
            },
            (WorkerState::Connected, WorkerInput::Control(UserAction::Exit)) => {
                self.state = WorkerState::Stopped;
                None
            },
            (WorkerState::Connected, WorkerInput::ChannelEmpty) => {
                self.state = WorkerState::Seeking;
                None
            },
            (WorkerState::Seeking, WorkerInput::SeekOk) => {
                self.state = WorkerState::Connected;
                None
            },
            (WorkerState::Seeking, WorkerInput::SeekFailed) => {
                self.state = WorkerState::Reconnecting { attempts_left: RECONNECT_ATTEMPTS };
                Some(LoopMessage::SocketReconnecting)
            },
            (WorkerState::Reconnecting { .. }, WorkerInput::SessionsBuilt) => {
                self.state = WorkerState::Connected;
                Some(LoopMessage::SocketConnected)
            },
            (WorkerState::Reconnecting { attempts_left }, WorkerInput::BuildFailed(_)) => {
                if attempts_left > 1 {
                    self.state = WorkerState::Reconnecting { attempts_left: attempts_left - 1 };
                    None
                } else {
                    self.state = WorkerState::Ready;
                    Some(LoopMessage::AudioStreamError("Lost connection".to_owned()))
                }
            },
            (WorkerState::Disconnecting, WorkerInput::TeardownOk) => {
                self.state = WorkerState::Ready;
                Some(LoopMessage::SocketClosed)
            },
            (WorkerState::Disconnecting, WorkerInput::TeardownFailed(m)) => {
                self.state = WorkerState::Ready;
                Some(LoopMessage::AudioStreamError(m))
            },
            (_, _) => None,
        }
    }

    /// The outside operation the driver must perform next.
    pub fn next_effect(&self) -> (e: Effect)
        ensures
            e == effect_of(self.state),
    {
        match self.state {
            WorkerState::Ready => Effect::AwaitControl,
            WorkerState::Connecting => Effect::BuildSessions,
            WorkerState::Connected => Effect::PollControl,
            WorkerState::Seeking => Effect::Seek,
            WorkerState::Disconnecting => Effect::Teardown,
            WorkerState::Reconnecting { attempts_left } => {
                if attempts_left == RECONNECT_ATTEMPTS {
                    Effect::BuildSessions
                } else {
                    Effect::SleepThenBuild
                }
            },
            WorkerState::Stopped => Effect::Stop,
        }
    }

    /// The coarse worker status.
    pub fn status(&self) -> (s: LoopStatus)
        ensures
            s == status_of(self.state),
    {
        match self.state {
            WorkerState::Connected
            | WorkerState::Seeking
            | WorkerState::Disconnecting
            | WorkerState::Reconnecting { .. } => LoopStatus::Connected,
            WorkerState::Ready | WorkerState::Connecting | WorkerState::Stopped => {
                LoopStatus::Ready
            },
        }
    }
}

/// Folds a whole sequence of inputs through the transition relation,
/// collecting the emitted events in order.
pub open spec fn run_steps(s: WorkerState, address: Seq<char>, inputs: Seq<WorkerInput>) -> (
    WorkerState,
    Seq<char>,
    Seq<Emit>,
)
    decreases inputs.len(),
{
    if inputs.len() == 0 {
        (s, address, Seq::empty())
    } else {
        let first = spec_step(s, address, inputs.first());
        let rest = run_steps(first.0, first.1, inputs.drop_first());
        (rest.0, rest.1, seq![first.2] + rest.2)
    }
}

/// Law: a Disconnect command while the worker is Ready changes nothing and
/// emits nothing.
pub proof fn lemma_disconnect_while_ready(address: Seq<char>)
    ensures
        spec_step(WorkerState::Ready, address, WorkerInput::Control(UserAction::UserDisconnect))
            == (WorkerState::Ready, address, Emit::Nothing),
{
}

/// Law: a Connect command while connected emits nothing, keeps state and
/// address, and triggers no session construction — the next effect is still
/// the non-blocking poll.
pub proof fn lemma_connect_while_connected(address: Seq<char>, requested: String)
    ensures
        spec_step(
            WorkerState::Connected,
            address,
            WorkerInput::Control(UserAction::Connect(requested)),
        ) == (WorkerState::Connected, address, Emit::Nothing),
        effect_of(WorkerState::Connected) == Effect::PollControl,
{
}

/// Law: one failed reconnect attempt with tries in hand schedules a sleep
/// before the next attempt and emits nothing; the last one gives up with a
/// single "Lost connection" error and returns the worker to Ready, where no
/// attempt is scheduled. A successful attempt reconnects and announces it.
pub proof fn lemma_reconnect_attempt(address: Seq<char>, left: u8, reason: String)
    requires
        1 <= left <= RECONNECT_ATTEMPTS,
    ensures
        left > 1 ==> spec_step(
            WorkerState::Reconnecting { attempts_left: left },
            address,
            WorkerInput::BuildFailed(reason),
        ) == (
            WorkerState::Reconnecting { attempts_left: (left - 1) as u8 },
            address,
            Emit::Nothing,
        ),
        left > 1 ==> effect_of(WorkerState::Reconnecting { attempts_left: (left - 1) as u8 })
            == Effect::SleepThenBuild,
        left == 1 ==> spec_step(
            WorkerState::Reconnecting { attempts_left: left },
            address,
            WorkerInput::BuildFailed(reason),
        ) == (WorkerState::Ready, address, Emit::StreamError("Lost connection"@)),
        effect_of(WorkerState::Ready) == Effect::AwaitControl,
        spec_step(
            WorkerState::Reconnecting { attempts_left: left },
            address,
            WorkerInput::SessionsBuilt,
        ) == (WorkerState::Connected, address, Emit::Connected),
{
}

/// Helper for the exhaustion law: from `attempts_left == left`, a run of
/// `left` failed attempts ends Ready, emits nothing until the last attempt,
/// and gives up with exactly one "Lost connection" error.
proof fn lemma_reconnect_failures(address: Seq<char>, failures: Seq<WorkerInput>, left: u8)
    requires
        1 <= left <= RECONNECT_ATTEMPTS,
        failures.len() == left as int,
        forall|i: int|
            0 <= i < failures.len() ==> (#[trigger] failures[i]) matches WorkerInput::BuildFailed(_),
    ensures
        ({
            let run = run_steps(
                WorkerState::Reconnecting { attempts_left: left },
                address,
                failures,
            );
            &&& run.0 is Ready
            &&& run.1 == address
            &&& run.2.len() == left as int
            &&& forall|i: int| 0 <= i < run.2.len() - 1 ==> run.2[i] == Emit::Nothing
            &&& run.2.last() == Emit::StreamError("Lost connection"@)
        }),
    decreases left,
{
    let run = run_steps(WorkerState::Reconnecting { attempts_left: left }, address, failures);
    assert(failures.first() == failures[0]);
    assert(failures[0] matches WorkerInput::BuildFailed(_));
    let first = spec_step(
        WorkerState::Reconnecting { attempts_left: left },
        address,
        failures.first(),
    );
    let rest = run_steps(first.0, first.1, failures.drop_first());
    assert(run.2 == seq![first.2] + rest.2);
    if left == 1 {
        assert(first == (
            WorkerState::Ready,
            address,
            Emit::StreamError("Lost connection"@),
        ));
        assert(failures.drop_first().len() == 0);
        assert(rest == (first.0, first.1, Seq::<Emit>::empty()));
        assert(run.2.len() == 1);
        assert(run.2.last() == first.2);
    } else {
        assert(first == (
            WorkerState::Reconnecting { attempts_left: (left - 1) as u8 },
            address,
            Emit::Nothing,
        ));
        assert(forall|i: int|
            0 <= i < failures.drop_first().len() ==> (#[trigger] failures.drop_first()[i])
                matches WorkerInput::BuildFailed(_));
        lemma_reconnect_failures(address, failures.drop_first(), (left - 1) as u8);
        assert(run.2.len() == left as int);
        assert(run.2.last() == rest.2.last());
        assert(forall|i: int| 0 <= i < run.2.len() - 1 ==> #[trigger] run.2[i] == Emit::Nothing)
            by {
            assert(forall|i: int|
                1 <= i < run.2.len() - 1 ==> #[trigger] run.2[i] == rest.2[i - 1]);
        };
    }
}

/// Law: once a seek cycle fails, the worker emits one reconnecting notice;
/// if every reconnect attempt fails, it makes exactly RECONNECT_ATTEMPTS
/// attempts, emits exactly one "Lost connection" error — on the last attempt
/// and none before — and returns to Ready, where the next effect awaits user
/// input rather than scheduling a further attempt.
pub proof fn lemma_reconnect_exhaustion(address: Seq<char>, failures: Seq<WorkerInput>)
    requires
        failures.len() == RECONNECT_ATTEMPTS as int,
        forall|i: int|
            0 <= i < failures.len() ==> (#[trigger] failures[i]) matches WorkerInput::BuildFailed(_),
    ensures
        ({
            let start = spec_step(WorkerState::Seeking, address, WorkerInput::SeekFailed);
            let run = run_steps(start.0, start.1, failures);
            &&& start.0 == WorkerState::Reconnecting { attempts_left: RECONNECT_ATTEMPTS }
            &&& start.2 == Emit::Reconnecting
            &&& run.0 is Ready
            &&& run.1 == address
            &&& run.2.len() == RECONNECT_ATTEMPTS as int
            &&& forall|i: int| 0 <= i < run.2.len() - 1 ==> run.2[i] == Emit::Nothing
            &&& run.2.last() == Emit::StreamError("Lost connection"@)
            &&& effect_of(run.0) == Effect::AwaitControl
        }),
{
    lemma_reconnect_failures(address, failures, RECONNECT_ATTEMPTS);
}

} // verus!

