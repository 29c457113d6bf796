//! Requests for background work, and the channel that carries them.

use crossbeam_channel::{Receiver, Sender};
use vstd::prelude::*;

verus! {

/// The kinds of background work that a root advance can ask for.
#[derive(Clone, Copy, Debug, PartialEq, Eq, Structural)]
pub enum SnapshotRequestKind {
    /// Write the newly rooted snapshot out.
    Snapshot,
    /// Compute the epoch accounts hash as of the newly rooted snapshot.
    EpochAccountsHash,
}

/// A request for background work on the snapshot at `root_slot`.
#[derive(Clone, Copy, Debug, PartialEq, Eq, Structural)]
pub struct SnapshotRequest {
    /// What is asked for.
    pub kind: SnapshotRequestKind,
    /// The slot of the snapshot whose rooting raised the request.
    pub root_slot: u64,
}

/// `crossbeam_channel::Sender`, the sending end of a channel, carried as an
/// opaque value.
#[verifier::external_type_specification]
#[verifier::external_body]
#[verifier::reject_recursive_types(T)]
pub struct ExSender<T>(Sender<T>);

/// `crossbeam_channel::Receiver`, the receiving end of a channel, carried as
/// an opaque value.
#[verifier::external_type_specification]
#[verifier::external_body]
#[verifier::reject_recursive_types(T)]
pub struct ExReceiver<T>(Receiver<T>);

/// The requests that wait at the receiving end of a channel, oldest first.
pub uninterp spec fn waiting(receiver: Receiver<SnapshotRequest>) -> Seq<SnapshotRequest>;

/// An unbounded first-in, first-out channel of snapshot requests, with both
/// of its ends.
pub struct RequestChannel {
    sender: Sender<SnapshotRequest>,
    receiver: Receiver<SnapshotRequest>,
}

impl View for RequestChannel {
    type V = Seq<SnapshotRequest>;

    closed spec fn view(&self) -> Seq<SnapshotRequest> {
        waiting(self.receiver)
    }
}

/// `crossbeam_channel::unbounded`: a new channel. Trusted: nothing waits in
/// it.
#[verifier::external_body]
fn open_channel() -> (channel: RequestChannel)
    ensures
        waiting(channel.receiver) == Seq::<SnapshotRequest>::empty(),
{
    let (sender, receiver) = crossbeam_channel::unbounded();
    RequestChannel { sender, receiver }
}

/// `Sender::send` on an unbounded channel whose receiver is alive. Trusted:
/// the request joins the end of the queue; the call neither blocks nor
/// fails.
#[verifier::external_body]
fn send_request(channel: &mut RequestChannel, request: SnapshotRequest)
    ensures
        waiting(final(channel).receiver) == waiting(old(channel).receiver).push(request),
{
    let _ = channel.sender.send(request);
}

/// `Receiver::try_iter`, run to its end. Trusted: it hands out every request
/// that waits, oldest first, and leaves none.
#[verifier::external_body]
fn take_waiting(channel: &mut RequestChannel) -> (requests: Vec<SnapshotRequest>)
    ensures
        requests@ == waiting(old(channel).receiver),
        waiting(final(channel).receiver) == Seq::<SnapshotRequest>::empty(),
{
    channel.receiver.try_iter().collect()
}

impl RequestChannel {
    /// A new, empty channel.
    pub fn new() -> (channel: RequestChannel)
        ensures
            channel@ == Seq::<SnapshotRequest>::empty(),
    {
        open_channel()
    }

    /// Sends `request`.
    pub fn send(&mut self, request: SnapshotRequest)
        ensures
            final(self)@ == old(self)@.push(request),
    {
        send_request(self, request)
    }

    /// Takes every request that waits, oldest first.
    pub fn drain(&mut self) -> (requests: Vec<SnapshotRequest>)
        ensures
            requests@ == old(self)@,
            final(self)@ == Seq::<SnapshotRequest>::empty(),
    {
        take_waiting(self)
    }
}

} // verus!
