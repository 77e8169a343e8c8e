//! The control-to-render message channel, built on `crossbeam_channel`.
//!
//! The channel crosses threads, so nothing useful can be promised about
//! which messages a receiver will see at any moment; the render loop is
//! verified for every sequence of messages the drain hands it.

use vstd::prelude::*;

verus! {

use crate::message::ControlMessage;

/// The sending half of a crossbeam channel, declared so that it can stand
/// in fields and signatures.
#[verifier::external_type_specification]
#[verifier::external_body]
#[verifier::reject_recursive_types(T)]
pub struct ExSender<T>(crossbeam_channel::Sender<T>);

/// The receiving half of a crossbeam channel.
#[verifier::external_type_specification]
#[verifier::external_body]
#[verifier::reject_recursive_types(T)]
pub struct ExReceiver<T>(crossbeam_channel::Receiver<T>);

/// Relies on `crossbeam_channel::unbounded`: creates a connected
/// sender/receiver pair.  What the receiver yields depends on the sending
/// thread, so no contract relates the two halves.
#[verifier::external_body]
pub fn control_channel() -> (crossbeam_channel::Sender<ControlMessage>, crossbeam_channel::Receiver<
    ControlMessage,
>) {
    crossbeam_channel::unbounded()
}

/// Relies on `crossbeam_channel::Sender::send`: delivers the message unless
/// the receiver is gone.  Returns whether the message was accepted.
#[verifier::external_body]
pub fn send_control(tx: &crossbeam_channel::Sender<ControlMessage>, m: ControlMessage) -> bool {
    tx.send(m).is_ok()
}

/// Relies on `crossbeam_channel::Receiver::try_recv`: takes one pending
/// message without blocking, if any is pending.
#[verifier::external_body]
pub fn try_recv_control(rx: &crossbeam_channel::Receiver<ControlMessage>) -> Option<
    ControlMessage,
> {
    rx.try_recv().ok()
}

/// Relies on `crossbeam_channel::Sender::clone`: a clone sends into the
/// same channel.
#[verifier::external_body]
pub fn clone_sender(tx: &crossbeam_channel::Sender<ControlMessage>) -> crossbeam_channel::Sender<
    ControlMessage,
> {
    tx.clone()
}

} // verus!
