//! The queue to the thread that owns the Aeron publications.
//!
//! Nobody but this module reaches the sending end of the queue, so what the worker was
//! handed is exactly what the log says.
use vstd::prelude::*;
use crate::collections::models;
use crate::protocol::AeronConfigModel;
use crate::routes::StreamKey;

verus! {

/// `std::sync::mpsc::SyncSender`: the sending end of a bounded channel.
#[verifier::external_type_specification]
#[verifier::external_body]
#[verifier::reject_recursive_types(T)]
pub struct ExSyncSender<T>(std::sync::mpsc::SyncSender<T>);

/// `std::sync::mpsc::Sender`: the sending end of a channel.
#[verifier::external_type_specification]
#[verifier::external_body]
#[verifier::reject_recursive_types(T)]
pub struct ExSender<T>(std::sync::mpsc::Sender<T>);

/// `std::sync::mpsc::Receiver`: the receiving end of a channel.
#[verifier::external_type_specification]
#[verifier::external_body]
#[verifier::reject_recursive_types(T)]
pub struct ExReceiver<T>(std::sync::mpsc::Receiver<T>);

/// What the worker is asked to do.
pub enum WorkerCommand {
    /// Have a publication for a stream, and say whether there is one.
    Join { key: StreamKey, reply: std::sync::mpsc::Sender<Result<(), String>> },
    /// Give up the publication of a stream.
    Leave { key: StreamKey },
    /// Offer a frame to several streams.
    Publish { groups: Vec<StreamKey>, bytes: Vec<u8> },
}

/// What a command asks for.
#[verifier::ext_equal]
pub enum CommandModel {
    Join { key: AeronConfigModel },
    Leave { key: AeronConfigModel },
    /// `count` streams are listed, which are these.
    Publish { groups: Set<AeronConfigModel>, count: nat, bytes: Seq<u8> },
}

impl View for WorkerCommand {
    type V = CommandModel;

    open spec fn view(&self) -> CommandModel {
        match self {
            WorkerCommand::Join { key, .. } => CommandModel::Join { key: key@ },
            WorkerCommand::Leave { key } => CommandModel::Leave { key: key@ },
            WorkerCommand::Publish { groups, bytes } => CommandModel::Publish {
                groups: models(groups@),
                count: groups@.len(),
                bytes: bytes@,
            },
        }
    }
}

/// What became of a command.
#[derive(Debug, Clone, Copy, PartialEq, Eq, Structural)]
pub enum SendOutcome {
    Sent,
    Full,
    Stopped,
}

/// `std::sync::mpsc::SyncSender::try_send`: hands a command to the worker unless the queue
/// is full or the worker is gone. Which of these holds is up to the worker, so nothing is
/// stated of the outcome.
#[verifier::external_body]
fn try_send_command(
    worker: &std::sync::mpsc::SyncSender<WorkerCommand>,
    command: WorkerCommand,
) -> (outcome: SendOutcome) {
    match worker.try_send(command) {
        Ok(()) => SendOutcome::Sent,
        Err(std::sync::mpsc::TrySendError::Full(_)) => SendOutcome::Full,
        Err(std::sync::mpsc::TrySendError::Disconnected(_)) => SendOutcome::Stopped,
    }
}

/// `std::sync::mpsc::SyncSender::send`: hands a command to the worker, and waits for room in
/// its queue. It is false where the worker is gone; whether it is, is up to the worker, so
/// nothing is stated of the outcome.
#[verifier::external_body]
fn send_command(
    worker: &std::sync::mpsc::SyncSender<WorkerCommand>,
    command: WorkerCommand,
) -> (sent: bool) {
    worker.send(command).is_ok()
}

/// `std::sync::mpsc::channel`: the two ends of a channel for one reply. Nothing is stated of
/// them: what comes out is up to the worker.
#[verifier::external_body]
fn reply_channel() -> (ends: (
    std::sync::mpsc::Sender<Result<(), String>>,
    std::sync::mpsc::Receiver<Result<(), String>>,
)) {
    std::sync::mpsc::channel()
}

/// `std::sync::mpsc::Receiver::recv`: waits for the worker's reply. `None` where the worker
/// has dropped its end. The reply is the worker's, so nothing is stated of it.
#[verifier::external_body]
fn receive_reply(reply: &std::sync::mpsc::Receiver<Result<(), String>>) -> (received: Option<
    Result<(), String>,
>) {
    reply.recv().ok()
}

/// Handing this command to the worker may come to this outcome.
pub closed spec fn may_send(
    worker: std::sync::mpsc::SyncSender<WorkerCommand>,
    command: WorkerCommand,
    outcome: SendOutcome,
) -> bool {
    call_ensures(try_send_command, (&worker, command), outcome)
}

/// Waiting for room for this command may end this way.
pub closed spec fn may_wait(
    worker: std::sync::mpsc::SyncSender<WorkerCommand>,
    command: WorkerCommand,
    sent: bool,
) -> bool {
    call_ensures(send_command, (&worker, command), sent)
}

/// The worker may answer this at the other end of this channel.
pub closed spec fn may_answer(
    reply: std::sync::mpsc::Sender<Result<(), String>>,
    received: Option<Result<(), String>>,
) -> bool {
    exists|answer: std::sync::mpsc::Receiver<Result<(), String>>|
        call_ensures(reply_channel, (), (reply, answer)) && #[trigger] call_ensures(
            receive_reply,
            (&answer,),
            received,
        )
}

/// Asking the worker for a publication of a stream may end this way: `sent` says whether
/// the worker was there to be asked, and `received` is its answer.
pub open spec fn may_join(
    worker: std::sync::mpsc::SyncSender<WorkerCommand>,
    key: AeronConfigModel,
    sent: bool,
    received: Option<Result<(), String>>,
) -> bool {
    exists|stream: StreamKey, reply: std::sync::mpsc::Sender<Result<(), String>>|
        {
            &&& stream@ == key
            &&& #[trigger] may_wait(worker, WorkerCommand::Join { key: stream, reply }, sent)
            &&& sent ==> may_answer(reply, received)
        }
}

/// The sending end of the worker's queue.
pub struct WorkerLink {
    sender: std::sync::mpsc::SyncSender<WorkerCommand>,
    log: Ghost<Seq<(CommandModel, SendOutcome)>>,
}

impl WorkerLink {
    /// The channel to the worker.
    pub closed spec fn end(self) -> std::sync::mpsc::SyncSender<WorkerCommand> {
        self.sender
    }

    /// Every command that was handed to the worker, in order, and what became of it.
    pub closed spec fn commands(self) -> Seq<(CommandModel, SendOutcome)> {
        self.log@
    }

    /// A link over which nothing was sent.
    pub fn new(sender: std::sync::mpsc::SyncSender<WorkerCommand>) -> (link: WorkerLink)
        ensures
            link.end() == sender,
            link.commands() == Seq::<(CommandModel, SendOutcome)>::empty(),
    {
        WorkerLink { sender, log: Ghost(Seq::empty()) }
    }

    /// Hands a command to the worker once, without waiting.
    pub fn try_send(&mut self, command: WorkerCommand) -> (outcome: SendOutcome)
        ensures
            final(self).end() == old(self).end(),
            final(self).commands() == old(self).commands().push((command@, outcome)),
            may_send(old(self).end(), command, outcome),
    {
        let ghost model = command@;
        let outcome: SendOutcome = try_send_command(&self.sender, command);
        proof {
            self.log@ = self.log@.push((model, outcome));
        }
        outcome
    }

    /// Asks the worker once for a publication of a stream and waits for its answer; there
    /// is none where the worker is gone.
    pub fn join(&mut self, key: StreamKey) -> (answer: (bool, Option<Result<(), String>>))
        ensures
            final(self).end() == old(self).end(),
            final(self).commands() == old(self).commands().push(
                (
                    CommandModel::Join { key: key@ },
                    if answer.0 {
                        SendOutcome::Sent
                    } else {
                        SendOutcome::Stopped
                    },
                ),
            ),
            may_join(old(self).end(), key@, answer.0, answer.1),
            !answer.0 ==> answer.1 is None,
    {
        let (reply, answer) = reply_channel();
        let ghost stream = key;
        let ghost asked = reply;
        let sent: bool = send_command(&self.sender, WorkerCommand::Join { key, reply });
        proof {
            let outcome = if sent {
                SendOutcome::Sent
            } else {
                SendOutcome::Stopped
            };
            self.log@ = self.log@.push((CommandModel::Join { key: stream@ }, outcome));
            assert(may_wait(
                self.sender,
                WorkerCommand::Join { key: stream, reply: asked },
                sent,
            ));
        }
        if !sent {
            return (false, None);
        }
        let received: Option<Result<(), String>> = receive_reply(&answer);
        proof {
            assert(call_ensures(receive_reply, (&answer,), received));
            assert(may_answer(asked, received));
        }
        (true, received)
    }
}

} // verus!
