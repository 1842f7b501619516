use vstd::prelude::*;

use crate::Message;

verus! {

#[verifier::external_type_specification]
#[verifier::external_body]
#[verifier::reject_recursive_types(T)]
pub struct ExSender<T>(std::sync::mpsc::Sender<T>);

#[verifier::external_type_specification]
#[verifier::external_body]
#[verifier::reject_recursive_types(T)]
pub struct ExReceiver<T>(std::sync::mpsc::Receiver<T>);

/// Why a non-blocking receive handed nothing back: no message was pending,
/// or the far end of the queue has been dropped.
#[derive(Clone, Copy, Debug, PartialEq, Eq, Structural)]
pub enum TryRecvKind {
    Empty,
    Disconnected,
}

/// One endpoint of the duplex bus: an outgoing queue and an incoming queue.
/// What travels on it depends on the other thread, so nothing is promised of
/// the messages themselves.
pub struct Channel {
    sender: std::sync::mpsc::Sender<Message>,
    receiver: std::sync::mpsc::Receiver<Message>,
}

/// Relies on std::sync::mpsc::channel: a fresh unbounded queue, returned as
/// its sending and receiving halves.
#[verifier::external_body]
fn mpsc_pair() -> (std::sync::mpsc::Sender<Message>, std::sync::mpsc::Receiver<Message>) {
    std::sync::mpsc::channel()
}

impl Channel {
    /// Two cross-connected endpoints: what one sends, the other receives.
    pub fn new() -> (Channel, Channel) {
        let (tx1, rx1) = mpsc_pair();
        let (tx2, rx2) = mpsc_pair();

        (Channel { sender: tx1, receiver: rx2 }, Channel { sender: tx2, receiver: rx1 })
    }

    /// Relies on std::sync::mpsc::Sender::send: enqueues the message; if the
    /// receiving end is gone the message is dropped, which this endpoint
    /// ignores as the original recipient no longer exists.
    #[verifier::external_body]
    pub fn send(&self, msg: Message) {
        let _ = self.sender.send(msg);
    }

    /// Relies on std::sync::mpsc::Receiver::try_recv: never blocks; hands
    /// back a pending message if one is queued, else says whether the queue
    /// was merely empty or disconnected. Which message arrives depends on the
    /// other thread, so nothing is promised of the value.
    #[verifier::external_body]
    pub fn try_recv(&self) -> Result<Message, TryRecvKind> {
        match self.receiver.try_recv() {
            Ok(msg) => Ok(msg),
            Err(std::sync::mpsc::TryRecvError::Empty) => Err(TryRecvKind::Empty),
            Err(std::sync::mpsc::TryRecvError::Disconnected) => Err(TryRecvKind::Disconnected),
        }
    }
}

} // verus!
