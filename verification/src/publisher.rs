//! The publisher's way through the broker protocol, as a state machine.
//!
//! A publisher connects, opens a channel, sets the prefetch count, declares
//! its queue and may then publish any number of batches. Each of these is
//! one operation on the broker, run by the caller under a time limit. The
//! caller reports how the operation ended; this module says which operation
//! is due, which state follows, and which error an ending stands for.

use vstd::prelude::*;
use vstd::string::*;

verus! {

/// The queue that batches are published to.
pub const CC_QUEUE_NAME: &'static str = "batches";

/// How many unacknowledged messages the broker may have out on the channel.
pub const PREFETCH_COUNT: u16 = 1;

/// The seconds that any one operation on the broker may take.
pub const OPERATION_TIMEOUT_SECS: u64 = 20;

/// How far a publisher has come.
#[derive(Debug, Clone, Copy, PartialEq, Eq, Structural)]
pub enum PublisherState {
    Disconnected,
    Connected,
    ChannelReady,
    Configured,
    Ready,
}

/// An operation on the broker.
#[derive(Debug, Clone, Copy, PartialEq, Eq, Structural)]
pub enum BrokerOp {
    Connect,
    OpenChannel,
    SetQos,
    DeclareQueue,
    Publish,
}

/// How an operation ended.
#[derive(Debug, Clone, Copy, PartialEq, Eq, Structural)]
pub enum OpOutcome {
    /// The broker did what was asked.
    Completed,
    /// The broker, or the connection to it, answered with a failure.
    Rejected,
    /// No answer came within the time limit.
    TimedOut,
}

/// Which step of the protocol failed.
#[derive(Debug, Clone, Copy, PartialEq, Eq, Structural)]
pub enum BrokerFailure {
    ConnectError,
    ChannelError,
    QosError,
    DeclareError,
    PublishError,
}

/// An operation that did not complete. A timeout keeps apart from a failure
/// that the broker reported, and both say which step they belong to.
#[derive(Debug, Clone, Copy, PartialEq, Eq, Structural)]
pub enum QueueError {
    Failed(BrokerFailure),
    TimeoutError(BrokerFailure),
}

impl PublisherState {
    /// The operation that is due in this state.
    pub open spec fn due(self) -> BrokerOp {
        match self {
            PublisherState::Disconnected => BrokerOp::Connect,
            PublisherState::Connected => BrokerOp::OpenChannel,
            PublisherState::ChannelReady => BrokerOp::SetQos,
            PublisherState::Configured => BrokerOp::DeclareQueue,
            PublisherState::Ready => BrokerOp::Publish,
        }
    }

    /// The state that follows once the operation due has completed. A
    /// publisher that is ready stays ready.
    pub open spec fn following(self) -> PublisherState {
        match self {
            PublisherState::Disconnected => PublisherState::Connected,
            PublisherState::Connected => PublisherState::ChannelReady,
            PublisherState::ChannelReady => PublisherState::Configured,
            PublisherState::Configured => PublisherState::Ready,
            PublisherState::Ready => PublisherState::Ready,
        }
    }

    /// The operation that is due in this state.
    pub fn next_op(self) -> (r: BrokerOp)
        ensures
            r == self.due(),
    {
        match self {
            PublisherState::Disconnected => BrokerOp::Connect,
            PublisherState::Connected => BrokerOp::OpenChannel,
            PublisherState::ChannelReady => BrokerOp::SetQos,
            PublisherState::Configured => BrokerOp::DeclareQueue,
            PublisherState::Ready => BrokerOp::Publish,
        }
    }
}

impl BrokerOp {
    /// The failure that belongs to this operation.
    pub open spec fn failure(self) -> BrokerFailure {
        match self {
            BrokerOp::Connect => BrokerFailure::ConnectError,
            BrokerOp::OpenChannel => BrokerFailure::ChannelError,
            BrokerOp::SetQos => BrokerFailure::QosError,
            BrokerOp::DeclareQueue => BrokerFailure::DeclareError,
            BrokerOp::Publish => BrokerFailure::PublishError,
        }
    }
}

/// What an ending means for an operation: nothing where it completed, else
/// the operation's failure, as a timeout where the time limit ran out.
pub open spec fn verdict(op: BrokerOp, outcome: OpOutcome) -> Result<(), QueueError> {
    match outcome {
        OpOutcome::Completed => Ok(()),
        OpOutcome::Rejected => Err(QueueError::Failed(op.failure())),
        OpOutcome::TimedOut => Err(QueueError::TimeoutError(op.failure())),
    }
}

/// The state after the operation due in `state` has ended with `outcome`.
/// An operation that did not complete is final: it gives an error and no
/// state to go on from.
pub open spec fn step(state: PublisherState, outcome: OpOutcome) -> Result<
    PublisherState,
    QueueError,
> {
    match verdict(state.due(), outcome) {
        Ok(_) => Ok(state.following()),
        Err(e) => Err(e),
    }
}

/// The words that tell an error.
pub open spec fn message_text(error: QueueError) -> Seq<char> {
    match error {
        QueueError::Failed(BrokerFailure::ConnectError) => "Failed to connect to RabbitMQ"@,
        QueueError::Failed(BrokerFailure::ChannelError) => "Failed to create RabbitMQ channel"@,
        QueueError::Failed(BrokerFailure::QosError) => "Failed to set QoS on the channel"@,
        QueueError::Failed(BrokerFailure::DeclareError) => "Failed to declare RabbitMQ queue"@,
        QueueError::Failed(BrokerFailure::PublishError) => "Failed to publish to RabbitMQ"@,
        QueueError::TimeoutError(BrokerFailure::ConnectError) => {
            "Timed out while trying to connect to RabbitMQ"@
        },
        QueueError::TimeoutError(BrokerFailure::ChannelError) => {
            "Timed out while trying to create a RabbitMQ channel"@
        },
        QueueError::TimeoutError(BrokerFailure::QosError) => {
            "Timed out while trying to set QoS on the channel"@
        },
        QueueError::TimeoutError(BrokerFailure::DeclareError) => {
            "Timed out while trying to declare a RabbitMQ queue"@
        },
        QueueError::TimeoutError(BrokerFailure::PublishError) => {
            "Timed out while trying to publish to RabbitMQ"@
        },
    }
}

/// Says what the ending of an operation means.
pub fn settle(op: BrokerOp, outcome: OpOutcome) -> (r: Result<(), QueueError>)
    ensures
        r == verdict(op, outcome),
{
    let failure = match op {
        BrokerOp::Connect => BrokerFailure::ConnectError,
        BrokerOp::OpenChannel => BrokerFailure::ChannelError,
        BrokerOp::SetQos => BrokerFailure::QosError,
        BrokerOp::DeclareQueue => BrokerFailure::DeclareError,
        BrokerOp::Publish => BrokerFailure::PublishError,
    };
    match outcome {
        OpOutcome::Completed => Ok(()),
        OpOutcome::Rejected => Err(QueueError::Failed(failure)),
        OpOutcome::TimedOut => Err(QueueError::TimeoutError(failure)),
    }
}

/// Moves a publisher on by the ending of the operation that was due.
pub fn advance(state: PublisherState, outcome: OpOutcome) -> (r: Result<PublisherState, QueueError>)
    ensures
        r == step(state, outcome),
{
    match settle(state.next_op(), outcome) {
        Err(e) => Err(e),
        Ok(_) => Ok(
            match state {
                PublisherState::Disconnected => PublisherState::Connected,
                PublisherState::Connected => PublisherState::ChannelReady,
                PublisherState::ChannelReady => PublisherState::Configured,
                PublisherState::Configured => PublisherState::Ready,
                PublisherState::Ready => PublisherState::Ready,
            },
        ),
    }
}

impl QueueError {
    /// The words that tell this error.
    pub fn message(&self) -> (r: String)
        ensures
            r@ == message_text(*self),
    {
        let words = match self {
            QueueError::Failed(BrokerFailure::ConnectError) => "Failed to connect to RabbitMQ",
            QueueError::Failed(BrokerFailure::ChannelError) => "Failed to create RabbitMQ channel",
            QueueError::Failed(BrokerFailure::QosError) => "Failed to set QoS on the channel",
            QueueError::Failed(BrokerFailure::DeclareError) => "Failed to declare RabbitMQ queue",
            QueueError::Failed(BrokerFailure::PublishError) => "Failed to publish to RabbitMQ",
            QueueError::TimeoutError(BrokerFailure::ConnectError) => {
                "Timed out while trying to connect to RabbitMQ"
            },
            QueueError::TimeoutError(BrokerFailure::ChannelError) => {
                "Timed out while trying to create a RabbitMQ channel"
            },
            QueueError::TimeoutError(BrokerFailure::QosError) => {
                "Timed out while trying to set QoS on the channel"
            },
            QueueError::TimeoutError(BrokerFailure::DeclareError) => {
                "Timed out while trying to declare a RabbitMQ queue"
            },
            QueueError::TimeoutError(BrokerFailure::PublishError) => {
                "Timed out while trying to publish to RabbitMQ"
            },
        };
        String::from_str(words)
    }
}

/// An operation that ran out of time gives a timeout of its own step, and a
/// timeout is never the error that a refusal gives, whatever the operations:
/// a publish that timed out cannot be taken for a publish that the broker
/// refused.
pub proof fn lemma_timeout_is_told_apart(op: BrokerOp, other: BrokerOp)
    ensures
        verdict(op, OpOutcome::TimedOut) == Err::<(), QueueError>(
            QueueError::TimeoutError(op.failure()),
        ),
        verdict(op, OpOutcome::TimedOut) != verdict(other, OpOutcome::Rejected),
        verdict(op, OpOutcome::TimedOut) != Err::<(), QueueError>(
            QueueError::Failed(BrokerFailure::PublishError),
        ),
{
}

} // verus!
