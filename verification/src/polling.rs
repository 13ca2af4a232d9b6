//! One round of polling for a message, as state machines: the driver performs the named
//! action and hands back what came of it.
use vstd::prelude::*;

use crate::message_listener::MessageType;

verus! {

/// How many stale cancellations are skipped in one visit to the broker.
pub const MAX_SKIP_ITERATIONS: u32 = 30;

/// What the driver does next.
#[derive(Debug, Clone, Copy, PartialEq, Eq, Structural)]
pub enum PollAction {
    /// Find out whether the poll was cancelled.
    CheckCancelled,
    /// Send the request.
    Send,
    /// Obtain a new access token.
    RefreshToken,
    /// Read the response's body as a message.
    ReadMessage,
    /// Read the message's body as a migration to the broker.
    ReadMigration,
    /// Get the message from the broker.
    AskBroker,
    /// Find out whether the cancelled job is running.
    CheckRunning,
    /// The round is over.
    Done(PollResult),
}

/// What came of an action.
#[derive(Debug, Clone, Copy, PartialEq, Eq, Structural)]
pub enum PollEvent {
    /// It was done; or the question has a positive answer.
    Yes,
    /// There is nothing; or the question has a negative answer.
    No,
    /// It failed.
    Failed,
    /// The request timed out.
    TimedOut,
    /// The request was cancelled.
    Cancelled,
    /// The response has this status.
    Status(u16),
    /// There is a message of this type.
    Message(MessageType),
}

/// How a round ends.
#[derive(Debug, Clone, Copy, PartialEq, Eq, Structural)]
pub enum PollResult {
    /// There is no message.
    NoMessage,
    /// There is a message.
    Message,
    /// The request could not be sent.
    TransportError,
    /// The service answered with this status.
    HttpError(u16),
    /// The response is not a message.
    BadMessage,
    /// The migration names no broker.
    BadMigration,
}

/// A status that says that the request succeeded.
pub open spec fn success_status(status: u16) -> bool {
    200 <= status < 300
}

/// Whether a status says that the request succeeded.
pub fn is_success(status: u16) -> (r: bool)
    ensures
        r == success_status(status),
{
    200 <= status && status < 300
}

/// The action after `action` on the Actions service.
pub open spec fn next_poll(action: PollAction, event: PollEvent) -> PollAction {
    match action {
        PollAction::CheckCancelled | PollAction::CheckRunning => PollAction::Send,
        PollAction::Send => match event {
            PollEvent::TimedOut | PollEvent::Cancelled => PollAction::Done(PollResult::NoMessage),
            PollEvent::Status(status) => if status == 202 {
                PollAction::Done(PollResult::NoMessage)
            } else if status == 401 {
                PollAction::RefreshToken
            } else if !success_status(status) {
                PollAction::Done(PollResult::HttpError(status))
            } else {
                PollAction::ReadMessage
            },
            _ => PollAction::Done(PollResult::TransportError),
        },
        PollAction::RefreshToken => PollAction::Done(PollResult::NoMessage),
        PollAction::ReadMessage => match event {
            PollEvent::Message(MessageType::BrokerMigration) => PollAction::ReadMigration,
            PollEvent::Message(_) => PollAction::Done(PollResult::Message),
            _ => PollAction::Done(PollResult::BadMessage),
        },
        PollAction::ReadMigration => if event == PollEvent::Failed {
            PollAction::Done(PollResult::BadMigration)
        } else {
            PollAction::AskBroker
        },
        PollAction::AskBroker => if event is Message {
            PollAction::Done(PollResult::Message)
        } else {
            PollAction::Done(PollResult::NoMessage)
        },
        PollAction::Done(result) => PollAction::Done(result),
    }
}

/// The action after `action` on the broker, for a runner that has migrated to it.
pub open spec fn next_broker_poll(action: PollAction, event: PollEvent) -> PollAction {
    match action {
        PollAction::Send => match event {
            PollEvent::Cancelled => PollAction::Done(PollResult::NoMessage),
            PollEvent::Status(status) => if status == 202 || status == 204 {
                PollAction::Done(PollResult::NoMessage)
            } else if status == 401 || status == 403 {
                PollAction::RefreshToken
            } else if !success_status(status) {
                PollAction::Done(PollResult::HttpError(status))
            } else {
                PollAction::ReadMessage
            },
            _ => PollAction::Done(PollResult::TransportError),
        },
        PollAction::RefreshToken => PollAction::Done(PollResult::NoMessage),
        PollAction::ReadMessage => if event is Message {
            PollAction::Done(PollResult::Message)
        } else {
            PollAction::Done(PollResult::BadMessage)
        },
        PollAction::Done(result) => PollAction::Done(result),
        _ => PollAction::Send,
    }
}

/// The action after `action` when a migration is followed to the broker, once `skipped`
/// stale cancellations were skipped.
pub open spec fn next_drain(action: PollAction, event: PollEvent, skipped: int) -> PollAction {
    match action {
        PollAction::CheckCancelled => if event == PollEvent::Yes {
            PollAction::Done(PollResult::NoMessage)
        } else {
            PollAction::Send
        },
        PollAction::Send => match event {
            PollEvent::TimedOut | PollEvent::Cancelled => PollAction::Done(PollResult::NoMessage),
            PollEvent::Status(status) => if status == 202 || status == 204 {
                PollAction::Done(PollResult::NoMessage)
            } else if !success_status(status) {
                PollAction::Done(PollResult::HttpError(status))
            } else {
                PollAction::ReadMessage
            },
            _ => PollAction::Done(PollResult::TransportError),
        },
        PollAction::ReadMessage => match event {
            PollEvent::Message(MessageType::JobCancel) => PollAction::CheckRunning,
            PollEvent::Message(_) => PollAction::Done(PollResult::Message),
            _ => PollAction::Done(PollResult::BadMessage),
        },
        PollAction::CheckRunning => if event == PollEvent::Yes {
            PollAction::Done(PollResult::Message)
        } else if skipped + 1 >= MAX_SKIP_ITERATIONS {
            PollAction::Done(PollResult::NoMessage)
        } else {
            PollAction::CheckCancelled
        },
        PollAction::Done(result) => PollAction::Done(result),
        _ => PollAction::CheckCancelled,
    }
}

/// How many stale cancellations are skipped once `event` came of `action`.
pub open spec fn skipped_afterwards(action: PollAction, event: PollEvent, skipped: int) -> int {
    if action == PollAction::CheckRunning && event != PollEvent::Yes && skipped
        < MAX_SKIP_ITERATIONS {
        skipped + 1
    } else {
        skipped
    }
}

/// Takes what came of an action on the Actions service and names the next one.
pub fn poll_step(action: PollAction, event: PollEvent) -> (r: PollAction)
    ensures
        r == next_poll(action, event),
{
    match action {
        PollAction::CheckCancelled | PollAction::CheckRunning => PollAction::Send,
        PollAction::Send => match event {
            PollEvent::TimedOut | PollEvent::Cancelled => PollAction::Done(PollResult::NoMessage),
            PollEvent::Status(status) => if status == 202 {
                PollAction::Done(PollResult::NoMessage)
            } else if status == 401 {
                PollAction::RefreshToken
            } else if !is_success(status) {
                PollAction::Done(PollResult::HttpError(status))
            } else {
                PollAction::ReadMessage
            },
            _ => PollAction::Done(PollResult::TransportError),
        },
        PollAction::RefreshToken => PollAction::Done(PollResult::NoMessage),
        PollAction::ReadMessage => match event {
            PollEvent::Message(kind) => match kind {
                MessageType::BrokerMigration => PollAction::ReadMigration,
                _ => PollAction::Done(PollResult::Message),
            },
            _ => PollAction::Done(PollResult::BadMessage),
        },
        PollAction::ReadMigration => match event {
            PollEvent::Failed => PollAction::Done(PollResult::BadMigration),
            _ => PollAction::AskBroker,
        },
        PollAction::AskBroker => match event {
            PollEvent::Message(_) => PollAction::Done(PollResult::Message),
            _ => PollAction::Done(PollResult::NoMessage),
        },
        PollAction::Done(result) => PollAction::Done(result),
    }
}

/// Takes what came of an action on the broker and names the next one.
pub fn broker_poll_step(action: PollAction, event: PollEvent) -> (r: PollAction)
    ensures
        r == next_broker_poll(action, event),
{
    match action {
        PollAction::Send => match event {
            PollEvent::Cancelled => PollAction::Done(PollResult::NoMessage),
            PollEvent::Status(status) => if status == 202 || status == 204 {
                PollAction::Done(PollResult::NoMessage)
            } else if status == 401 || status == 403 {
                PollAction::RefreshToken
            } else if !is_success(status) {
                PollAction::Done(PollResult::HttpError(status))
            } else {
                PollAction::ReadMessage
            },
            _ => PollAction::Done(PollResult::TransportError),
        },
        PollAction::RefreshToken => PollAction::Done(PollResult::NoMessage),
        PollAction::ReadMessage => match event {
            PollEvent::Message(_) => PollAction::Done(PollResult::Message),
            _ => PollAction::Done(PollResult::BadMessage),
        },
        PollAction::Done(result) => PollAction::Done(result),
        _ => PollAction::Send,
    }
}

/// A visit to the broker that a migration asked for. Cancellations of jobs that are not
/// running are skipped, so that they do not block real messages.
#[derive(Debug)]
pub struct BrokerDrain {
    action: PollAction,
    skipped: u32,
}

impl BrokerDrain {
    #[verifier::type_invariant]
    spec fn inv(self) -> bool {
        self.skipped <= MAX_SKIP_ITERATIONS
    }

    /// What the driver is to do, or is doing.
    pub closed spec fn pending(self) -> PollAction {
        self.action
    }

    /// How many cancellations were skipped.
    pub closed spec fn skips(self) -> int {
        self.skipped as int
    }

    /// The start of a visit.
    pub fn new() -> (r: Self)
        ensures
            r.pending() == PollAction::CheckCancelled,
            r.skips() == 0,
    {
        BrokerDrain { action: PollAction::CheckCancelled, skipped: 0 }
    }

    /// The action that the driver is to perform.
    pub fn action(&self) -> (r: PollAction)
        ensures
            r == self.pending(),
    {
        self.action
    }

    /// How many cancellations were skipped.
    pub fn skipped(&self) -> (r: u32)
        ensures
            r == self.skips(),
            r <= MAX_SKIP_ITERATIONS,
    {
        proof {
            use_type_invariant(self);
        }
        self.skipped
    }

    /// Takes what came of the pending action and goes on to the next one.
    pub fn step(&mut self, event: PollEvent) -> (r: PollAction)
        ensures
            r == final(self).pending(),
            r == next_drain(old(self).pending(), event, old(self).skips()),
            final(self).skips() == skipped_afterwards(
                old(self).pending(),
                event,
                old(self).skips(),
            ),
            final(self).skips() <= MAX_SKIP_ITERATIONS,
    {
        proof {
            use_type_invariant(&*self);
        }
        let yes = match event {
            PollEvent::Yes => true,
            _ => false,
        };
        let next = match self.action {
            PollAction::CheckCancelled => if yes {
                PollAction::Done(PollResult::NoMessage)
            } else {
                PollAction::Send
            },
            PollAction::Send => match event {
                PollEvent::TimedOut | PollEvent::Cancelled => PollAction::Done(
                    PollResult::NoMessage,
                ),
                PollEvent::Status(status) => if status == 202 || status == 204 {
                    PollAction::Done(PollResult::NoMessage)
                } else if !is_success(status) {
                    PollAction::Done(PollResult::HttpError(status))
                } else {
                    PollAction::ReadMessage
                },
                _ => PollAction::Done(PollResult::TransportError),
            },
            PollAction::ReadMessage => match event {
                PollEvent::Message(kind) => match kind {
                    MessageType::JobCancel => PollAction::CheckRunning,
                    _ => PollAction::Done(PollResult::Message),
                },
                _ => PollAction::Done(PollResult::BadMessage),
            },
            PollAction::CheckRunning => if yes {
                PollAction::Done(PollResult::Message)
            } else {
                if self.skipped < MAX_SKIP_ITERATIONS {
                    self.skipped = self.skipped + 1;
                }
                if self.skipped >= MAX_SKIP_ITERATIONS {
                    PollAction::Done(PollResult::NoMessage)
                } else {
                    PollAction::CheckCancelled
                }
            },
            PollAction::Done(result) => PollAction::Done(result),
            _ => PollAction::CheckCancelled,
        };
        self.action = next;
        next
    }
}

// ---------------------------------------------------------------------------
// Laws
// ---------------------------------------------------------------------------

/// The actions that a visit to the broker goes through.
pub open spec fn drains(action: PollAction) -> bool {
    ||| action == PollAction::CheckCancelled
    ||| action == PollAction::Send
    ||| action == PollAction::ReadMessage
    ||| action == PollAction::CheckRunning
    ||| action is Done
}

/// How many actions a visit to the broker can still take.
pub open spec fn drain_left(action: PollAction, skipped: int) -> int {
    let turns = 4 * (MAX_SKIP_ITERATIONS - skipped);
    match action {
        PollAction::CheckCancelled => turns + 3,
        PollAction::Send => turns + 2,
        PollAction::ReadMessage => turns + 1,
        PollAction::CheckRunning => turns,
        _ => 0,
    }
}

/// A visit to the broker comes to an end: with every action fewer are left, and skips are
/// limited.
pub proof fn law_drain_ends(action: PollAction, event: PollEvent, skipped: int)
    requires
        drains(action),
        !(action is Done),
        0 <= skipped < MAX_SKIP_ITERATIONS,
    ensures
        drains(next_drain(action, event, skipped)),
        0 <= drain_left(
            next_drain(action, event, skipped),
            skipped_afterwards(action, event, skipped),
        ) < drain_left(action, skipped),
        !(next_drain(action, event, skipped) is Done) ==> skipped_afterwards(action, event, skipped)
            < MAX_SKIP_ITERATIONS,
{
}

/// A visit to the broker hands on a message exactly where it is no cancellation, or cancels
/// a job that is running.
pub proof fn law_drain_skips_stale(action: PollAction, event: PollEvent, skipped: int)
    requires
        drains(action),
        !(action is Done),
    ensures
        next_drain(action, event, skipped) == PollAction::Done(PollResult::Message) <==> {
            ||| action == PollAction::ReadMessage && event is Message && event
                != PollEvent::Message(MessageType::JobCancel)
            ||| action == PollAction::CheckRunning && event == PollEvent::Yes
        },
{
}

/// A round on the Actions service takes at most four actions.
pub open spec fn poll_left(action: PollAction) -> nat {
    match action {
        PollAction::Send => 4,
        PollAction::ReadMessage => 3,
        PollAction::ReadMigration => 2,
        PollAction::AskBroker | PollAction::RefreshToken => 1,
        _ => 0,
    }
}

/// A round that begins with the request comes to an end, on either service.
pub proof fn law_poll_ends(action: PollAction, event: PollEvent)
    requires
        poll_left(action) > 0,
    ensures
        poll_left(next_poll(action, event)) < poll_left(action),
        next_poll(action, event) is Done <==> poll_left(next_poll(action, event)) == 0,
        action == PollAction::Send || action == PollAction::ReadMessage || action
            == PollAction::RefreshToken ==> poll_left(next_broker_poll(action, event)) < poll_left(
            action,
        ),
{
}

/// An unauthorized answer is never an error: the token is renewed and the next round
/// tries again.
pub proof fn law_unauthorized_refreshes(event: PollEvent)
    ensures
        next_poll(
            next_poll(PollAction::Send, PollEvent::Status(401)),
            event,
        ) == PollAction::Done(PollResult::NoMessage),
        next_broker_poll(
            next_broker_poll(PollAction::Send, PollEvent::Status(401)),
            event,
        ) == PollAction::Done(PollResult::NoMessage),
        next_broker_poll(
            next_broker_poll(PollAction::Send, PollEvent::Status(403)),
            event,
        ) == PollAction::Done(PollResult::NoMessage),
{
}

/// The Actions service says by a status of 202 that there is no message and by one of 401
/// that the token is no longer good; any other success brings a message, and any other
/// status is an error that is passed on.
pub proof fn law_poll_statuses(status: u16)
    ensures
        ({
            let next = next_poll(PollAction::Send, PollEvent::Status(status));
            &&& next == PollAction::Done(PollResult::NoMessage) <==> status == 202
            &&& next == PollAction::RefreshToken <==> status == 401
            &&& next == PollAction::ReadMessage <==> 200 <= status < 300 && status != 202
            &&& next == PollAction::Done(PollResult::HttpError(status)) <==> (status < 200
                || status >= 300) && status != 401
        }),
{
}

/// On the broker a status of 204 says the same as one of 202, and one of 403 the same as one
/// of 401.
pub proof fn law_broker_poll_statuses(status: u16)
    ensures
        ({
            let next = next_broker_poll(PollAction::Send, PollEvent::Status(status));
            &&& next == PollAction::Done(PollResult::NoMessage) <==> status == 202 || status == 204
            &&& next == PollAction::RefreshToken <==> status == 401 || status == 403
            &&& next == PollAction::ReadMessage <==> 200 <= status < 300 && status != 202 && status
                != 204
            &&& next == PollAction::Done(PollResult::HttpError(status)) <==> (status < 200
                || status >= 300) && status != 401 && status != 403
        }),
{
}

/// On a visit to the broker no status asks for a new token: what is no success is an error
/// that is passed on.
pub proof fn law_drain_statuses(status: u16, skipped: int)
    ensures
        ({
            let next = next_drain(PollAction::Send, PollEvent::Status(status), skipped);
            &&& next == PollAction::Done(PollResult::NoMessage) <==> status == 202 || status == 204
            &&& next == PollAction::ReadMessage <==> 200 <= status < 300 && status != 202 && status
                != 204
            &&& next == PollAction::Done(PollResult::HttpError(status)) <==> status < 200 || status
                >= 300
        }),
{
}

/// A request that got no answer: a cancelled one ends the round quietly everywhere, one that
/// timed out does so but on the broker of a migrated runner, and any other failure is an
/// error.
pub proof fn law_unanswered_polls(skipped: int)
    ensures
        ({
            let quiet = PollAction::Done(PollResult::NoMessage);
            let error = PollAction::Done(PollResult::TransportError);
            &&& next_poll(PollAction::Send, PollEvent::Cancelled) == quiet
            &&& next_poll(PollAction::Send, PollEvent::TimedOut) == quiet
            &&& next_poll(PollAction::Send, PollEvent::Failed) == error
            &&& next_broker_poll(PollAction::Send, PollEvent::Cancelled) == quiet
            &&& next_broker_poll(PollAction::Send, PollEvent::TimedOut) == error
            &&& next_broker_poll(PollAction::Send, PollEvent::Failed) == error
            &&& next_drain(PollAction::Send, PollEvent::Cancelled, skipped) == quiet
            &&& next_drain(PollAction::Send, PollEvent::TimedOut, skipped) == quiet
            &&& next_drain(PollAction::Send, PollEvent::Failed, skipped) == error
        }),
{
}

/// Every message that the Actions service brings is handed on, but for a migration: that is
/// followed to the broker, whose message is handed on in its place. A body that is no
/// message is an error.
pub proof fn law_messages_are_handed_on(kind: MessageType, read: PollEvent, asked: PollEvent)
    ensures
        ({
            let next = next_poll(PollAction::ReadMessage, PollEvent::Message(kind));
            let ask = next_poll(PollAction::ReadMigration, read);
            &&& kind != MessageType::BrokerMigration ==> next == PollAction::Done(
                PollResult::Message,
            )
            &&& kind == MessageType::BrokerMigration ==> next == PollAction::ReadMigration
            &&& read == PollEvent::Failed ==> ask == PollAction::Done(PollResult::BadMigration)
            &&& read != PollEvent::Failed ==> ask == PollAction::AskBroker
            &&& asked is Message ==> next_poll(PollAction::AskBroker, asked) == PollAction::Done(
                PollResult::Message,
            )
            &&& !(asked is Message) ==> next_poll(PollAction::AskBroker, asked) == PollAction::Done(
                PollResult::NoMessage,
            )
            &&& next_poll(PollAction::ReadMessage, PollEvent::Failed) == PollAction::Done(
                PollResult::BadMessage,
            )
            &&& next_broker_poll(PollAction::ReadMessage, PollEvent::Message(kind))
                == PollAction::Done(PollResult::Message)
            &&& next_broker_poll(PollAction::ReadMessage, PollEvent::Failed) == PollAction::Done(
                PollResult::BadMessage,
            )
        }),
{
}

/// On a visit to the broker a cancellation is held against the running jobs: that of a
/// running one is handed on, another is skipped and the next message fetched, up to the
/// limit. A visit that was cancelled ends before the next request.
pub proof fn law_drain_checks_cancellations(event: PollEvent, skipped: int)
    requires
        0 <= skipped,
    ensures
        next_drain(
            PollAction::ReadMessage,
            PollEvent::Message(MessageType::JobCancel),
            skipped,
        ) == PollAction::CheckRunning,
        next_drain(PollAction::CheckRunning, PollEvent::Yes, skipped) == PollAction::Done(
            PollResult::Message,
        ),
        event != PollEvent::Yes && skipped < 29 ==> next_drain(
            PollAction::CheckRunning,
            event,
            skipped,
        ) == PollAction::CheckCancelled && skipped_afterwards(
            PollAction::CheckRunning,
            event,
            skipped,
        ) == skipped + 1,
        event != PollEvent::Yes && skipped >= 29 ==> next_drain(
            PollAction::CheckRunning,
            event,
            skipped,
        ) == PollAction::Done(PollResult::NoMessage),
        next_drain(PollAction::CheckCancelled, PollEvent::Yes, skipped) == PollAction::Done(
            PollResult::NoMessage,
        ),
        event != PollEvent::Yes ==> next_drain(PollAction::CheckCancelled, event, skipped)
            == PollAction::Send,
        next_drain(PollAction::ReadMessage, PollEvent::Failed, skipped) == PollAction::Done(
            PollResult::BadMessage,
        ),
{
}

/// Nothing but a stale cancellation counts as skipped.
pub proof fn law_only_stale_cancellations_count(
    action: PollAction,
    event: PollEvent,
    skipped: int,
)
    requires
        action != PollAction::CheckRunning || event == PollEvent::Yes,
    ensures
        skipped_afterwards(action, event, skipped) == skipped,
{
}

} // verus!
