//! The runner's main loop, as a state machine.
//!
//! The loop holds a session, polls for messages and handles one message at a time. Each
//! step names one action for the driver to perform; the driver performs it and hands back
//! what came of it.
use vstd::prelude::*;

use crate::broker_message_listener::BrokerMessageType;
use crate::constants::return_code;
use crate::error_throttler;
use crate::error_throttler::ErrorThrottler;
use crate::message_listener::MessageType;

verus! {

/// The pause between two polls when there was no message, in milliseconds.
pub const MESSAGE_POLL_DELAY: u64 = 1_000;

/// A message, by the service that it came from.
#[derive(Debug, Clone, Copy, PartialEq, Eq, Structural)]
pub enum LoopMessage {
    /// From the Actions service.
    V1(MessageType),
    /// From the broker.
    V2(BrokerMessageType),
}

/// What the driver does next.
#[derive(Debug, Clone, Copy, PartialEq, Eq, Structural)]
pub enum LoopAction {
    /// Create the session.
    CreateSession,
    /// Find out whether a shutdown was requested.
    CheckShutdown,
    /// Poll for a message.
    Poll,
    /// Wait this many milliseconds, or until a shutdown is requested.
    Pause(u64),
    /// Wait this many milliseconds after an error.
    Backoff(u64),
    /// Read the message's body as a job request.
    ReadJobRequest,
    /// Hand the job to the dispatcher.
    DispatchJob,
    /// Read the message's body as a reference to a job.
    ReadJobReference,
    /// Acknowledge the referenced job.
    Acknowledge,
    /// Acquire the referenced job from the run service.
    AcquireJob,
    /// Hand the acquired job to the dispatcher.
    DispatchAcquiredJob,
    /// Read the message's body as a cancellation.
    ReadCancel,
    /// Cancel the job.
    CancelJob,
    /// Read the message's body as an update order.
    ReadUpdate,
    /// Prepare the update.
    ApplyUpdate,
    /// Read the message's body as a configuration refresh.
    ReadConfigRefresh,
    /// Apply the configuration refresh.
    ApplyConfigRefresh,
    /// Request a shutdown of the runner.
    RequestShutdown,
    /// Delete the message from the service.
    DeleteMessage,
    /// Find out whether a run-once job has completed.
    CheckRunOnce,
    /// Delete the session; the exit code follows.
    DeleteSession(i32),
    /// Leave with this exit code.
    Exit(i32),
    /// Give up: there is no session.
    Abort,
}

/// What came of an action.
#[derive(Debug, Clone, Copy, PartialEq, Eq, Structural)]
pub enum LoopEvent {
    /// It was done; or the question has a positive answer.
    Yes,
    /// The question has a negative answer.
    No,
    /// It failed; of a wait: it was cut short.
    Failed,
    /// The poll brought a message.
    Message(LoopMessage),
}

/// The first action on a message.
pub open spec fn first_action(message: LoopMessage) -> LoopAction {
    match message {
        LoopMessage::V1(MessageType::JobRequest) => LoopAction::ReadJobRequest,
        LoopMessage::V1(MessageType::RunnerJobRequest) => LoopAction::ReadJobReference,
        LoopMessage::V1(MessageType::JobCancel) => LoopAction::ReadCancel,
        LoopMessage::V1(MessageType::AgentRefresh) => LoopAction::ReadUpdate,
        LoopMessage::V1(_) => LoopAction::DeleteMessage,
        LoopMessage::V2(BrokerMessageType::RunnerJobRequest) => LoopAction::ReadJobRequest,
        LoopMessage::V2(BrokerMessageType::JobCancel) => LoopAction::ReadCancel,
        LoopMessage::V2(BrokerMessageType::RunnerRefresh) => LoopAction::ReadUpdate,
        LoopMessage::V2(BrokerMessageType::RunnerRefreshConfig) => LoopAction::ReadConfigRefresh,
        LoopMessage::V2(BrokerMessageType::HostedRunnerShutdown) => LoopAction::RequestShutdown,
        LoopMessage::V2(_) => LoopAction::DeleteMessage,
    }
}

/// The action that begins the next turn: a run-once loop first asks whether its job is done.
pub open spec fn turn_end(run_once: bool) -> LoopAction {
    if run_once {
        LoopAction::CheckRunOnce
    } else {
        LoopAction::CheckShutdown
    }
}

/// The action that follows `action`, given what came of it. `delay` is the delay that the
/// next backoff takes.
pub open spec fn next_action(
    action: LoopAction,
    event: LoopEvent,
    run_once: bool,
    delay: u64,
) -> LoopAction {
    match action {
        LoopAction::CreateSession => if event == LoopEvent::Yes {
            LoopAction::CheckShutdown
        } else {
            LoopAction::Abort
        },
        LoopAction::CheckShutdown => if event == LoopEvent::Yes {
            LoopAction::DeleteSession(return_code::SUCCESS)
        } else {
            LoopAction::Poll
        },
        LoopAction::Poll => match event {
            LoopEvent::Message(message) => first_action(message),
            LoopEvent::Failed => LoopAction::Backoff(delay),
            _ => LoopAction::Pause(MESSAGE_POLL_DELAY),
        },
        LoopAction::Pause(_) => turn_end(run_once),
        LoopAction::Backoff(_) => if event == LoopEvent::Failed {
            LoopAction::DeleteSession(return_code::SUCCESS)
        } else {
            turn_end(run_once)
        },
        LoopAction::ReadJobRequest => if event == LoopEvent::Failed {
            LoopAction::DeleteMessage
        } else {
            LoopAction::DispatchJob
        },
        LoopAction::DispatchJob => LoopAction::DeleteMessage,
        LoopAction::ReadJobReference => match event {
            LoopEvent::Failed => turn_end(run_once),
            LoopEvent::Yes => LoopAction::Acknowledge,
            _ => LoopAction::AcquireJob,
        },
        LoopAction::Acknowledge => LoopAction::AcquireJob,
        LoopAction::AcquireJob => if event == LoopEvent::Failed {
            turn_end(run_once)
        } else {
            LoopAction::DispatchAcquiredJob
        },
        LoopAction::DispatchAcquiredJob => turn_end(run_once),
        LoopAction::ReadCancel => if event == LoopEvent::Failed {
            LoopAction::DeleteMessage
        } else {
            LoopAction::CancelJob
        },
        LoopAction::CancelJob => LoopAction::DeleteMessage,
        LoopAction::ReadUpdate => if event == LoopEvent::Failed {
            LoopAction::DeleteMessage
        } else {
            LoopAction::ApplyUpdate
        },
        LoopAction::ApplyUpdate => if event == LoopEvent::Failed {
            LoopAction::DeleteMessage
        } else {
            LoopAction::DeleteSession(return_code::RUNNER_UPDATING)
        },
        LoopAction::ReadConfigRefresh => if event == LoopEvent::Failed {
            LoopAction::DeleteMessage
        } else {
            LoopAction::ApplyConfigRefresh
        },
        LoopAction::ApplyConfigRefresh => if event == LoopEvent::Yes {
            LoopAction::DeleteSession(return_code::RUNNER_CONFIGURATION_REFRESHED)
        } else {
            LoopAction::DeleteMessage
        },
        LoopAction::RequestShutdown => LoopAction::DeleteMessage,
        LoopAction::DeleteMessage => turn_end(run_once),
        LoopAction::CheckRunOnce => if event == LoopEvent::Yes {
            LoopAction::DeleteSession(return_code::SUCCESS)
        } else {
            LoopAction::CheckShutdown
        },
        LoopAction::DeleteSession(code) => LoopAction::Exit(code),
        LoopAction::Exit(code) => LoopAction::Exit(code),
        LoopAction::Abort => LoopAction::Abort,
    }
}

/// The backoff delay once `event` came of `action`: a message resets it, a backoff
/// doubles it, whether it ran to its end or not.
pub open spec fn delay_afterwards(action: LoopAction, event: LoopEvent, delay: int) -> int {
    match action {
        LoopAction::Poll => if event is Message {
            error_throttler::MIN_BACKOFF as int
        } else {
            delay
        },
        LoopAction::Backoff(_) => error_throttler::next_delay(delay),
        _ => delay,
    }
}

/// The state of the loop: what the driver is doing, and how long the next backoff is.
#[derive(Debug)]
pub struct MessageLoop {
    action: LoopAction,
    run_once: bool,
    throttler: ErrorThrottler,
}

fn begin(message: LoopMessage) -> (r: LoopAction)
    ensures
        r == first_action(message),
{
    match message {
        LoopMessage::V1(kind) => match kind {
            MessageType::JobRequest => LoopAction::ReadJobRequest,
            MessageType::RunnerJobRequest => LoopAction::ReadJobReference,
            MessageType::JobCancel => LoopAction::ReadCancel,
            MessageType::AgentRefresh => LoopAction::ReadUpdate,
            _ => LoopAction::DeleteMessage,
        },
        LoopMessage::V2(kind) => match kind {
            BrokerMessageType::RunnerJobRequest => LoopAction::ReadJobRequest,
            BrokerMessageType::JobCancel => LoopAction::ReadCancel,
            BrokerMessageType::RunnerRefresh => LoopAction::ReadUpdate,
            BrokerMessageType::RunnerRefreshConfig => LoopAction::ReadConfigRefresh,
            BrokerMessageType::HostedRunnerShutdown => LoopAction::RequestShutdown,
            _ => LoopAction::DeleteMessage,
        },
    }
}

impl MessageLoop {
    /// What the driver is to do, or is doing.
    pub closed spec fn pending(self) -> LoopAction {
        self.action
    }

    /// Whether the loop ends with the first completed job.
    pub closed spec fn runs_once(self) -> bool {
        self.run_once
    }

    /// The delay of the next backoff, in milliseconds.
    pub closed spec fn delay(self) -> int {
        self.throttler.delay()
    }

    /// A loop whose first action is to create the session.
    pub fn new(run_once: bool) -> (r: Self)
        ensures
            r.pending() == LoopAction::CreateSession,
            r.runs_once() == run_once,
            r.delay() == error_throttler::MIN_BACKOFF,
    {
        MessageLoop { action: LoopAction::CreateSession, run_once, throttler: ErrorThrottler::new() }
    }

    /// The action that the driver is to perform.
    pub fn action(&self) -> (r: LoopAction)
        ensures
            r == self.pending(),
    {
        self.action
    }

    fn end_turn(&self) -> (r: LoopAction)
        ensures
            r == turn_end(self.runs_once()),
    {
        if self.run_once {
            LoopAction::CheckRunOnce
        } else {
            LoopAction::CheckShutdown
        }
    }

    /// Takes what came of the pending action and goes on to the next one.
    pub fn step(&mut self, event: LoopEvent) -> (r: LoopAction)
        ensures
            r == final(self).pending(),
            r == next_action(
                old(self).pending(),
                event,
                old(self).runs_once(),
                old(self).delay() as u64,
            ),
            final(self).runs_once() == old(self).runs_once(),
            final(self).delay() == delay_afterwards(
                old(self).pending(),
                event,
                old(self).delay(),
            ),
    {
        let failed = match event {
            LoopEvent::Failed => true,
            _ => false,
        };
        let yes = match event {
            LoopEvent::Yes => true,
            _ => false,
        };
        let next = match self.action {
            LoopAction::CreateSession => if yes {
                LoopAction::CheckShutdown
            } else {
                LoopAction::Abort
            },
            LoopAction::CheckShutdown => if yes {
                LoopAction::DeleteSession(return_code::SUCCESS)
            } else {
                LoopAction::Poll
            },
            LoopAction::Poll => match event {
                LoopEvent::Message(message) => {
                    self.throttler.reset();
                    begin(message)
                },
                LoopEvent::Failed => LoopAction::Backoff(self.throttler.current_delay()),
                _ => LoopAction::Pause(MESSAGE_POLL_DELAY),
            },
            LoopAction::Backoff(_) => {
                self.throttler.increment();
                if failed {
                    LoopAction::DeleteSession(return_code::SUCCESS)
                } else {
                    self.end_turn()
                }
            },
            LoopAction::ReadJobRequest => if failed {
                LoopAction::DeleteMessage
            } else {
                LoopAction::DispatchJob
            },
            LoopAction::ReadJobReference => if failed {
                self.end_turn()
            } else if yes {
                LoopAction::Acknowledge
            } else {
                LoopAction::AcquireJob
            },
            LoopAction::Acknowledge => LoopAction::AcquireJob,
            LoopAction::AcquireJob => if failed {
                self.end_turn()
            } else {
                LoopAction::DispatchAcquiredJob
            },
            LoopAction::ReadCancel => if failed {
                LoopAction::DeleteMessage
            } else {
                LoopAction::CancelJob
            },
            LoopAction::ReadUpdate => if failed {
                LoopAction::DeleteMessage
            } else {
                LoopAction::ApplyUpdate
            },
            LoopAction::ApplyUpdate => if failed {
                LoopAction::DeleteMessage
            } else {
                LoopAction::DeleteSession(return_code::RUNNER_UPDATING)
            },
            LoopAction::ReadConfigRefresh => if failed {
                LoopAction::DeleteMessage
            } else {
                LoopAction::ApplyConfigRefresh
            },
            LoopAction::ApplyConfigRefresh => if yes {
                LoopAction::DeleteSession(return_code::RUNNER_CONFIGURATION_REFRESHED)
            } else {
                LoopAction::DeleteMessage
            },
            LoopAction::CheckRunOnce => if yes {
                LoopAction::DeleteSession(return_code::SUCCESS)
            } else {
                LoopAction::CheckShutdown
            },
            LoopAction::DispatchJob | LoopAction::CancelJob | LoopAction::RequestShutdown =>
                LoopAction::DeleteMessage,
            LoopAction::Pause(_) | LoopAction::DispatchAcquiredJob | LoopAction::DeleteMessage =>
                self.end_turn(),
            LoopAction::DeleteSession(code) => LoopAction::Exit(code),
            LoopAction::Exit(code) => LoopAction::Exit(code),
            LoopAction::Abort => LoopAction::Abort,
        };
        self.action = next;
        next
    }
}

// ---------------------------------------------------------------------------
// Laws
// ---------------------------------------------------------------------------

/// The loop leaves only through the deletion of its session, with the code that was
/// decided then.
pub proof fn law_exit_deletes_session(
    action: LoopAction,
    event: LoopEvent,
    run_once: bool,
    delay: u64,
)
    requires
        !(action is Exit),
    ensures
        next_action(action, event, run_once, delay) is Exit <==> action is DeleteSession,
        next_action(action, event, run_once, delay) matches LoopAction::Exit(code) ==> action
            == LoopAction::DeleteSession(code),
{
}

/// A session is given up for one of four reasons, and the exit code tells which: a shutdown
/// (also during a backoff) or a completed run-once job, a prepared update, a changed
/// configuration.
pub proof fn law_exit_codes(action: LoopAction, event: LoopEvent, run_once: bool, delay: u64)
    ensures
        next_action(action, event, run_once, delay) matches LoopAction::DeleteSession(code) ==> {
            ||| code == return_code::SUCCESS && event == LoopEvent::Yes && (action
                == LoopAction::CheckShutdown || action == LoopAction::CheckRunOnce)
            ||| code == return_code::SUCCESS && event == LoopEvent::Failed && action is Backoff
            ||| code == return_code::RUNNER_UPDATING && action == LoopAction::ApplyUpdate && event
                != LoopEvent::Failed
            ||| code == return_code::RUNNER_CONFIGURATION_REFRESHED && action
                == LoopAction::ApplyConfigRefresh && event == LoopEvent::Yes
        },
{
}

/// The driver holds a message that has to be deleted.
pub open spec fn holds_message(action: LoopAction) -> bool {
    ||| action == LoopAction::ReadJobRequest
    ||| action == LoopAction::DispatchJob
    ||| action == LoopAction::ReadCancel
    ||| action == LoopAction::CancelJob
    ||| action == LoopAction::ReadUpdate
    ||| action == LoopAction::ApplyUpdate
    ||| action == LoopAction::ReadConfigRefresh
    ||| action == LoopAction::ApplyConfigRefresh
    ||| action == LoopAction::RequestShutdown
}

/// A message is deleted whatever becomes of it, unless the whole session is.
pub proof fn law_message_is_deleted(
    action: LoopAction,
    event: LoopEvent,
    run_once: bool,
    delay: u64,
)
    requires
        holds_message(action),
    ensures
        ({
            let next = next_action(action, event, run_once, delay);
            holds_message(next) || next == LoopAction::DeleteMessage || next is DeleteSession
        }),
{
}

/// Every message but a job reference is one to be deleted.
pub proof fn law_message_is_held(message: LoopMessage)
    requires
        message != LoopMessage::V1(MessageType::RunnerJobRequest),
    ensures
        holds_message(first_action(message)) || first_action(message) == LoopAction::DeleteMessage,
{
}

/// How many actions the turn can still take.
pub open spec fn actions_left(action: LoopAction) -> nat {
    match action {
        LoopAction::CreateSession => 9,
        LoopAction::CheckShutdown => 8,
        LoopAction::Poll => 7,
        LoopAction::ReadJobReference => 6,
        LoopAction::Acknowledge => 5,
        LoopAction::AcquireJob => 4,
        LoopAction::ReadJobRequest | LoopAction::ReadCancel => 5,
        LoopAction::ReadUpdate | LoopAction::ReadConfigRefresh => 5,
        LoopAction::DispatchJob | LoopAction::CancelJob => 4,
        LoopAction::ApplyUpdate | LoopAction::ApplyConfigRefresh => 4,
        LoopAction::RequestShutdown => 4,
        LoopAction::DispatchAcquiredJob => 3,
        LoopAction::DeleteMessage => 3,
        LoopAction::Pause(_) | LoopAction::Backoff(_) => 3,
        LoopAction::CheckRunOnce => 2,
        LoopAction::DeleteSession(_) => 1,
        LoopAction::Exit(_) | LoopAction::Abort => 0,
    }
}

/// No turn goes on for ever: the actions run out until the next shutdown check, or the
/// loop is over.
pub proof fn law_turn_ends(action: LoopAction, event: LoopEvent, run_once: bool, delay: u64)
    ensures
        ({
            let next = next_action(action, event, run_once, delay);
            ||| next == LoopAction::CheckShutdown
            ||| actions_left(next) < actions_left(action)
            ||| action is Exit || action is Abort
        }),
{
}

/// A shutdown that is seen at the start of a turn ends the loop in two actions, with
/// success.
pub proof fn law_shutdown_ends_loop(event: LoopEvent, run_once: bool, delay: u64)
    ensures
        next_action(
            next_action(LoopAction::CheckShutdown, LoopEvent::Yes, run_once, delay),
            event,
            run_once,
            delay,
        ) == LoopAction::Exit(return_code::SUCCESS),
{
}

/// A run-once loop asks after every turn whether its job is done; another never asks.
pub proof fn law_run_once_is_asked(
    action: LoopAction,
    event: LoopEvent,
    run_once: bool,
    delay: u64,
)
    requires
        action != LoopAction::CheckRunOnce,
        action != LoopAction::CreateSession,
    ensures
        run_once ==> next_action(action, event, run_once, delay) != LoopAction::CheckShutdown,
        !run_once ==> next_action(action, event, run_once, delay) != LoopAction::CheckRunOnce,
{
}

/// A job request, from either service, is dispatched and only then deleted; one that
/// cannot be read is deleted at once.
pub proof fn law_job_request_is_dispatched(
    message: LoopMessage,
    read: LoopEvent,
    event: LoopEvent,
    run_once: bool,
    delay: u64,
)
    requires
        message == LoopMessage::V1(MessageType::JobRequest) || message == LoopMessage::V2(
            BrokerMessageType::RunnerJobRequest,
        ),
    ensures
        ({
            let first = next_action(
                LoopAction::Poll,
                LoopEvent::Message(message),
                run_once,
                delay,
            );
            let second = next_action(first, read, run_once, delay);
            let third = next_action(second, event, run_once, delay);
            &&& first == LoopAction::ReadJobRequest
            &&& read == LoopEvent::Failed ==> second == LoopAction::DeleteMessage
            &&& read != LoopEvent::Failed ==> second == LoopAction::DispatchJob && third
                == LoopAction::DeleteMessage
        }),
{
}

/// A job that is only referred to is acquired and what was acquired is dispatched; it is
/// acknowledged before, if and only if that is asked for, and a failure to acknowledge does
/// not stop it. A reference that cannot be read, or a job that cannot be acquired, ends the
/// turn with nothing dispatched.
pub proof fn law_job_reference_is_acquired(
    read: LoopEvent,
    acknowledged: LoopEvent,
    acquired: LoopEvent,
    event: LoopEvent,
    run_once: bool,
    delay: u64,
)
    ensures
        ({
            let first = next_action(
                LoopAction::Poll,
                LoopEvent::Message(LoopMessage::V1(MessageType::RunnerJobRequest)),
                run_once,
                delay,
            );
            let second = next_action(first, read, run_once, delay);
            let acquire = if read == LoopEvent::Yes {
                next_action(second, acknowledged, run_once, delay)
            } else {
                second
            };
            let dispatch = next_action(acquire, acquired, run_once, delay);
            let last = next_action(dispatch, event, run_once, delay);
            let end = if run_once {
                LoopAction::CheckRunOnce
            } else {
                LoopAction::CheckShutdown
            };
            &&& first == LoopAction::ReadJobReference
            &&& read == LoopEvent::Yes <==> second == LoopAction::Acknowledge
            &&& read == LoopEvent::Failed ==> second == end
            &&& read != LoopEvent::Failed ==> acquire == LoopAction::AcquireJob
            &&& read != LoopEvent::Failed && acquired == LoopEvent::Failed ==> dispatch == end
            &&& read != LoopEvent::Failed && acquired != LoopEvent::Failed ==> dispatch
                == LoopAction::DispatchAcquiredJob && last == end
        }),
{
}

/// A cancellation, from either service, cancels the job before it is deleted; one that
/// cannot be read is deleted at once.
pub proof fn law_cancellation_cancels(
    message: LoopMessage,
    read: LoopEvent,
    event: LoopEvent,
    run_once: bool,
    delay: u64,
)
    requires
        message == LoopMessage::V1(MessageType::JobCancel) || message == LoopMessage::V2(
            BrokerMessageType::JobCancel,
        ),
    ensures
        ({
            let first = next_action(
                LoopAction::Poll,
                LoopEvent::Message(message),
                run_once,
                delay,
            );
            let second = next_action(first, read, run_once, delay);
            let third = next_action(second, event, run_once, delay);
            &&& first == LoopAction::ReadCancel
            &&& read == LoopEvent::Failed ==> second == LoopAction::DeleteMessage
            &&& read != LoopEvent::Failed ==> second == LoopAction::CancelJob && third
                == LoopAction::DeleteMessage
        }),
{
}

/// An update order, from either service, is applied; once it is, the session is given up
/// for the update, and if that fails the message is deleted and the runner goes on. An order
/// that cannot be read is deleted at once.
pub proof fn law_update_is_applied(
    message: LoopMessage,
    read: LoopEvent,
    applied: LoopEvent,
    run_once: bool,
    delay: u64,
)
    requires
        message == LoopMessage::V1(MessageType::AgentRefresh) || message == LoopMessage::V2(
            BrokerMessageType::RunnerRefresh,
        ),
    ensures
        ({
            let first = next_action(
                LoopAction::Poll,
                LoopEvent::Message(message),
                run_once,
                delay,
            );
            let second = next_action(first, read, run_once, delay);
            let third = next_action(second, applied, run_once, delay);
            &&& first == LoopAction::ReadUpdate
            &&& read == LoopEvent::Failed ==> second == LoopAction::DeleteMessage
            &&& read != LoopEvent::Failed ==> second == LoopAction::ApplyUpdate
            &&& read != LoopEvent::Failed && applied != LoopEvent::Failed ==> third
                == LoopAction::DeleteSession(return_code::RUNNER_UPDATING)
            &&& read != LoopEvent::Failed && applied == LoopEvent::Failed ==> third
                == LoopAction::DeleteMessage
        }),
{
}

/// A configuration refresh is applied; if it changed the configuration the session is given
/// up for a restart, else the message is deleted and the runner goes on. A refresh that
/// cannot be read is deleted at once.
pub proof fn law_config_refresh_is_applied(
    read: LoopEvent,
    applied: LoopEvent,
    run_once: bool,
    delay: u64,
)
    ensures
        ({
            let first = next_action(
                LoopAction::Poll,
                LoopEvent::Message(LoopMessage::V2(BrokerMessageType::RunnerRefreshConfig)),
                run_once,
                delay,
            );
            let second = next_action(first, read, run_once, delay);
            let third = next_action(second, applied, run_once, delay);
            &&& first == LoopAction::ReadConfigRefresh
            &&& read == LoopEvent::Failed ==> second == LoopAction::DeleteMessage
            &&& read != LoopEvent::Failed ==> second == LoopAction::ApplyConfigRefresh
            &&& read != LoopEvent::Failed && applied == LoopEvent::Yes ==> third
                == LoopAction::DeleteSession(return_code::RUNNER_CONFIGURATION_REFRESHED)
            &&& read != LoopEvent::Failed && applied != LoopEvent::Yes ==> third
                == LoopAction::DeleteMessage
        }),
{
}

/// The service's order to shut down requests a shutdown and is then deleted; the shutdown
/// takes effect in the next turn.
pub proof fn law_shutdown_order_is_obeyed(
    requested: LoopEvent,
    deleted: LoopEvent,
    run_once: bool,
    delay: u64,
)
    ensures
        ({
            let first = next_action(
                LoopAction::Poll,
                LoopEvent::Message(LoopMessage::V2(BrokerMessageType::HostedRunnerShutdown)),
                run_once,
                delay,
            );
            let second = next_action(first, requested, run_once, delay);
            let third = next_action(second, deleted, run_once, delay);
            &&& first == LoopAction::RequestShutdown
            &&& second == LoopAction::DeleteMessage
            &&& third == if run_once {
                LoopAction::CheckRunOnce
            } else {
                LoopAction::CheckShutdown
            }
        }),
{
}

/// A message that the loop has no use for is deleted at once, and no other is.
pub proof fn law_other_messages_are_deleted(message: LoopMessage, run_once: bool, delay: u64)
    ensures
        next_action(LoopAction::Poll, LoopEvent::Message(message), run_once, delay)
            == LoopAction::DeleteMessage <==> {
            ||| message == LoopMessage::V1(MessageType::RunnerRefresh)
            ||| message == LoopMessage::V1(MessageType::JobMetadata)
            ||| message == LoopMessage::V1(MessageType::BrokerMigration)
            ||| message == LoopMessage::V1(MessageType::Unknown)
            ||| message == LoopMessage::V2(BrokerMessageType::ForceTokenRefresh)
            ||| message == LoopMessage::V2(BrokerMessageType::Unknown)
        },
{
}

/// Nothing is done for a message but what its kind asks for: each effect has one action
/// before it, the reading of the body that orders it, and that did not fail.
pub proof fn law_effects_are_ordered(
    action: LoopAction,
    event: LoopEvent,
    run_once: bool,
    delay: u64,
)
    ensures
        ({
            let next = next_action(action, event, run_once, delay);
            let read = event != LoopEvent::Failed;
            &&& next == LoopAction::DispatchJob <==> action == LoopAction::ReadJobRequest && read
            &&& next == LoopAction::DispatchAcquiredJob <==> action == LoopAction::AcquireJob
                && read
            &&& next == LoopAction::AcquireJob <==> action == LoopAction::Acknowledge || action
                == LoopAction::ReadJobReference && read && event != LoopEvent::Yes
            &&& next == LoopAction::Acknowledge <==> action == LoopAction::ReadJobReference
                && event == LoopEvent::Yes
            &&& next == LoopAction::CancelJob <==> action == LoopAction::ReadCancel && read
            &&& next == LoopAction::ApplyUpdate <==> action == LoopAction::ReadUpdate && read
            &&& next == LoopAction::ApplyConfigRefresh <==> action
                == LoopAction::ReadConfigRefresh && read
            &&& next == LoopAction::RequestShutdown <==> action == LoopAction::Poll && event
                == LoopEvent::Message(LoopMessage::V2(BrokerMessageType::HostedRunnerShutdown))
        }),
{
}

/// The loop polls only while it has a session and no shutdown is requested; without a
/// session it gives up.
pub proof fn law_polls_unless_shut_down(
    action: LoopAction,
    event: LoopEvent,
    run_once: bool,
    delay: u64,
)
    ensures
        next_action(action, event, run_once, delay) == LoopAction::Poll <==> action
            == LoopAction::CheckShutdown && event != LoopEvent::Yes,
        next_action(LoopAction::CreateSession, event, run_once, delay) == if event
            == LoopEvent::Yes {
            LoopAction::CheckShutdown
        } else {
            LoopAction::Abort
        },
        action != LoopAction::CreateSession && !(action is Abort) ==> !(next_action(
            action,
            event,
            run_once,
            delay,
        ) is Abort),
{
}

/// A poll without a message is followed by the pause between polls, a failed one by the
/// backoff that is due; both end the turn, and nothing else waits.
pub proof fn law_polls_are_spaced(
    action: LoopAction,
    event: LoopEvent,
    run_once: bool,
    delay: u64,
    wait: u64,
)
    ensures
        next_action(action, event, run_once, delay) == LoopAction::Pause(wait) <==> action
            == LoopAction::Poll && (event == LoopEvent::Yes || event == LoopEvent::No) && wait
            == 1_000,
        next_action(action, event, run_once, delay) == LoopAction::Backoff(wait) <==> action
            == LoopAction::Poll && event == LoopEvent::Failed && wait == delay,
        next_action(LoopAction::Pause(wait), event, run_once, delay) == if run_once {
            LoopAction::CheckRunOnce
        } else {
            LoopAction::CheckShutdown
        },
        event != LoopEvent::Failed ==> next_action(
            LoopAction::Backoff(wait),
            event,
            run_once,
            delay,
        ) == next_action(LoopAction::Pause(wait), event, run_once, delay),
{
}

/// The backoff starts at one second, doubles from one failure to the next up to a minute,
/// and starts over with a message; nothing else changes it.
pub proof fn law_backoff_doubles(action: LoopAction, event: LoopEvent, delay: int)
    requires
        1_000 <= delay <= 60_000,
    ensures
        action is Backoff && 2 * delay <= 60_000 ==> delay_afterwards(action, event, delay) == 2
            * delay,
        action is Backoff && 2 * delay > 60_000 ==> delay_afterwards(action, event, delay)
            == 60_000,
        action == LoopAction::Poll && event is Message ==> delay_afterwards(action, event, delay)
            == 1_000,
        !(action is Backoff) && !(action == LoopAction::Poll && event is Message)
            ==> delay_afterwards(action, event, delay) == delay,
{
}

/// A deleted message ends the turn, whether the deletion worked or not.
pub proof fn law_deletion_ends_turn(event: LoopEvent, run_once: bool, delay: u64)
    ensures
        next_action(LoopAction::DeleteMessage, event, run_once, delay) == if run_once {
            LoopAction::CheckRunOnce
        } else {
            LoopAction::CheckShutdown
        },
        next_action(LoopAction::CheckRunOnce, event, run_once, delay) == if event
            == LoopEvent::Yes {
            LoopAction::DeleteSession(return_code::SUCCESS)
        } else {
            LoopAction::CheckShutdown
        },
{
}

} // verus!
