//! Notification bridge: subscribe, acknowledge, then forward chunks.

use vstd::prelude::*;
use vstd::seq_lib::lemma_flatten_concat;

use crate::chunk::{
    all_delivered, all_read, in_turn, left_over, reads_keep_the_byte_stream, ReaderEvent,
};
use crate::error::{io_failure, outcome, TransportError, TransportFault};

verus! {

/// Depth of the channel between the bridge and the transport.
pub const BRIDGE_CHANNEL_CAPACITY: usize = 32;

/// Decides what follows the attempt to subscribe to notifications: the answer
/// to send to whoever waits for the subscription, and the notifications to
/// forward, if there are any.
pub fn notify_bridge<N>(subscribed: Result<N, String>) -> (next: (
    Result<(), TransportError>,
    Option<N>,
))
    ensures
        match subscribed {
            Ok(notifications) => next.0 == Ok::<(), TransportError>(()) && next.1 == Some(
                notifications,
            ),
            Err(text) => outcome(next.0) == Err::<(), TransportFault>(TransportFault::Io(text@))
                && next.1 is None,
        },
{
    match io_failure(subscribed) {
        Ok(notifications) => (Ok(()), Some(notifications)),
        Err(error) => (Err(error), None),
    }
}

/// What the bridge does next.
pub enum Forwarding {
    /// Wait for the next notification.
    Listen,
    /// Send this chunk into the transport's channel.
    Deliver(Vec<u8>),
    /// End, which closes the channel.
    Stopped,
}

/// What a [`Forwarding`] means, its chunk as bytes.
pub enum ForwardingStep {
    Listen,
    Deliver(Seq<u8>),
    Stopped,
}

impl View for Forwarding {
    type V = ForwardingStep;

    open spec fn view(&self) -> ForwardingStep {
        match *self {
            Forwarding::Listen => ForwardingStep::Listen,
            Forwarding::Deliver(chunk) => ForwardingStep::Deliver(chunk@),
            Forwarding::Stopped => ForwardingStep::Stopped,
        }
    }
}

/// The step after the stream gave `item`; `None` is its end.
pub open spec fn after_item<E>(item: Option<Result<Seq<u8>, E>>) -> ForwardingStep {
    match item {
        Some(Ok(chunk)) => ForwardingStep::Deliver(chunk),
        _ => ForwardingStep::Stopped,
    }
}

/// The step after a chunk was sent; a send is refused once the transport is
/// gone.
pub open spec fn after_send(accepted: bool) -> ForwardingStep {
    if accepted {
        ForwardingStep::Listen
    } else {
        ForwardingStep::Stopped
    }
}

/// A stream item, its chunk as bytes.
pub open spec fn item_bytes<E>(item: Option<Result<Vec<u8>, E>>) -> Option<Result<Seq<u8>, E>> {
    match item {
        Some(Ok(chunk)) => Some(Ok(chunk@)),
        Some(Err(error)) => Some(Err(error)),
        None => None,
    }
}

/// The step after the bridge listened.
pub fn forward_notifications<E>(item: Option<Result<Vec<u8>, E>>) -> (next: Forwarding)
    ensures
        next@ == after_item(item_bytes(item)),
{
    match item {
        Some(Ok(chunk)) => Forwarding::Deliver(chunk),
        Some(Err(_)) => Forwarding::Stopped,
        None => Forwarding::Stopped,
    }
}

/// The step after the bridge sent a chunk.
pub fn chunk_forwarded(accepted: bool) -> (next: Forwarding)
    ensures
        next@ == after_send(accepted),
{
    if accepted {
        Forwarding::Listen
    } else {
        Forwarding::Stopped
    }
}

/// One item of the stream, whole and unchanged: a chunk is handed on with every
/// byte, however long it is; an error or the end stops the bridge; and the
/// bridge listens again exactly if the transport took the chunk.
pub proof fn chunks_are_handed_on_whole<E>(
    chunk: Vec<u8>,
    error: E,
    taken: Forwarding,
    failed: Forwarding,
    ended: Forwarding,
    accepted: bool,
    sent: Forwarding,
)
    requires
        call_ensures(forward_notifications::<E>, (Some(Ok(chunk)),), taken),
        call_ensures(forward_notifications::<E>, (Some(Err(error)),), failed),
        call_ensures(forward_notifications::<E>, (None,), ended),
        call_ensures(chunk_forwarded, (accepted,), sent),
    ensures
        taken matches Forwarding::Deliver(bytes) && bytes@ == chunk@,
        failed is Stopped,
        ended is Stopped,
        accepted ==> sent is Listen,
        !accepted ==> sent is Stopped,
{
}

/// Whoever waits for the subscription learns how it went, and notifications are
/// forwarded exactly if it went well.
pub proof fn subscription_is_answered_as_it_went<N>(
    subscribed: Result<N, String>,
    next: (Result<(), TransportError>, Option<N>),
)
    requires
        call_ensures(notify_bridge::<N>, (subscribed,), next),
    ensures
        next.0 is Ok <==> subscribed is Ok,
        next.1 is Some <==> subscribed is Ok,
        subscribed is Ok ==> next.1->0 == subscribed->Ok_0,
        subscribed is Err ==> next.0->Err_0@ == TransportFault::Io(subscribed->Err_0@),
{
}

/// The chunks that reach the transport when the stream holds `items` and the
/// transport is gone after it accepted `room` of them.
pub open spec fn all_forwarded<E>(items: Seq<Result<Seq<u8>, E>>, room: nat) -> Seq<Seq<u8>>
    decreases items.len(),
{
    let item = if items.len() == 0 {
        None
    } else {
        Some(items[0])
    };
    match after_item(item) {
        ForwardingStep::Deliver(chunk) if items.len() > 0 => match after_send(room > 0) {
            ForwardingStep::Listen => seq![chunk] + all_forwarded(
                items.drop_first(),
                (room - 1) as nat,
            ),
            _ => Seq::empty(),
        },
        _ => Seq::empty(),
    }
}

/// The transport gets the chunks of the stream in order, each once, up to the
/// first stream error, the end of the stream, or the loss of the transport,
/// whichever comes first; nothing behind that point is forwarded.
pub proof fn chunks_are_forwarded_until_the_first_stop<E>(
    items: Seq<Result<Seq<u8>, E>>,
    good: nat,
    room: nat,
)
    requires
        good <= items.len(),
        forall|j: int| 0 <= j < good ==> (#[trigger] items[j]) is Ok,
        good < items.len() ==> items[good as int] is Err,
    ensures
        all_forwarded(items, room).len() == if good < room {
            good
        } else {
            room
        },
        forall|j: int|
            0 <= j < all_forwarded(items, room).len() ==> #[trigger] all_forwarded(items, room)[j]
                == items[j]->Ok_0,
    decreases items.len(),
{
    if good > 0 && room > 0 {
        let rest = items.drop_first();
        assert(items[0] is Ok);
        assert(forall|j: int| 0 <= j < rest.len() ==> #[trigger] rest[j] == items[j + 1]);
        chunks_are_forwarded_until_the_first_stop(rest, (good - 1) as nat, (room - 1) as nat);
    }
}

/// The chunks among what happens to a reader, in order.
pub open spec fn chunks_among(events: Seq<ReaderEvent>) -> Seq<Seq<u8>>
    decreases events.len(),
{
    if events.len() == 0 {
        Seq::empty()
    } else {
        match events[0] {
            ReaderEvent::Chunk(bytes) => seq![bytes] + chunks_among(events.drop_first()),
            ReaderEvent::Read(_) => chunks_among(events.drop_first()),
        }
    }
}

proof fn chunks_carry_what_is_delivered(events: Seq<ReaderEvent>)
    ensures
        chunks_among(events).flatten() == all_delivered(events),
    decreases events.len(),
{
    if events.len() > 0 {
        let rest = events.drop_first();
        chunks_carry_what_is_delivered(rest);
        if let ReaderEvent::Chunk(bytes) = events[0] {
            assert(chunks_among(events).drop_first() =~= chunks_among(rest));
            assert(chunks_among(events).first() == bytes);
        } else {
            assert(all_delivered(events) =~= all_delivered(rest));
        }
    }
}

/// From the radio to the client: when a fresh reader is given chunks in the
/// order in which the bridge forwarded them, what the client reads is, byte for
/// byte and in order, the beginning of what the notifications carried.
pub proof fn client_reads_what_was_notified<E>(
    items: Seq<Result<Seq<u8>, E>>,
    room: nat,
    events: Seq<ReaderEvent>,
)
    requires
        in_turn(Seq::empty(), events),
        chunks_among(events).is_prefix_of(all_forwarded(items, room)),
    ensures
        all_read(Seq::empty(), events).is_prefix_of(all_forwarded(items, room).flatten()),
{
    let taken = chunks_among(events);
    let sent = all_forwarded(items, room);
    let behind = sent.skip(taken.len() as int);
    chunks_carry_what_is_delivered(events);
    reads_keep_the_byte_stream(Seq::empty(), events);
    assert(sent =~= taken + behind);
    lemma_flatten_concat(taken, behind);
    let read = all_read(Seq::empty(), events);
    let left = left_over(Seq::empty(), events);
    assert(read + left =~= taken.flatten());
    assert(sent.flatten().take(read.len() as int) =~= read);
}

} // verus!
