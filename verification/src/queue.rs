//! Bounded message queues.
use tokio::sync::mpsc;
use vstd::prelude::*;

verus! {

/// The sending half of tokio's bounded queue.
#[verifier::external_type_specification]
#[verifier::external_body]
#[verifier::reject_recursive_types(T)]
pub struct ExMpscSender<T>(mpsc::Sender<T>);

/// The receiving half of tokio's bounded queue.
#[verifier::external_type_specification]
#[verifier::external_body]
#[verifier::reject_recursive_types(T)]
pub struct ExMpscReceiver<T>(mpsc::Receiver<T>);

/// A queue can be made with this capacity.
pub open spec fn queue_capacity_ok(buffer: usize) -> bool {
    0 < buffer <= usize::MAX / 8
}

} // verus!
