//! GATT side of the BLE transport: finding the Rynk characteristics, and
//! cutting what is written to the size that one write may have.

use vstd::prelude::*;

use crate::error::{io_failure, outcome, BleIoError, TransportError, TransportFault};
use crate::protocol::{
    ble_chunk_size, input_char_uuid, output_char_uuid, rynk_ble_chunk_size, rynk_input_char_uuid,
    rynk_output_char_uuid,
};

verus! {

/// What every BLE link can carry in one write.
pub const BLE_SAFE_WRITE: usize = 20;

/// Picks the service to use out of those that the device offers under the Rynk
/// service UUID: the first one.
pub fn discover_service<S>(found: Result<Vec<S>, String>) -> (service: Result<S, TransportError>)
    ensures
        outcome(service) == (match found {
            Ok(services) => if services@.len() > 0 {
                Ok(services@[0])
            } else {
                Err(TransportFault::DeviceNotFound("Rynk GATT service not found"@))
            },
            Err(text) => Err(TransportFault::Io(text@)),
        }),
{
    match io_failure(found) {
        Ok(services) => {
            let mut services = services;
            if services.len() > 0 {
                Ok(services.remove(0))
            } else {
                Err(TransportError::DeviceNotFound("Rynk GATT service not found".to_owned()))
            }
        },
        Err(error) => Err(error),
    }
}

/// The last characteristic listed under `uuid`.
pub open spec fn last_with<C>(characteristics: Seq<(u128, C)>, uuid: u128) -> Option<C>
    decreases characteristics.len(),
{
    if characteristics.len() == 0 {
        None
    } else if characteristics.last().0 == uuid {
        Some(characteristics.last().1)
    } else {
        last_with(characteristics.drop_last(), uuid)
    }
}

/// What [`last_with`] finds is listed under the UUID, and nothing behind it is;
/// it finds nothing only where nothing is listed under the UUID.
pub proof fn last_with_is_the_last<C>(characteristics: Seq<(u128, C)>, uuid: u128)
    ensures
        match last_with(characteristics, uuid) {
            Some(found) => exists|at: int|
                0 <= at < characteristics.len() && #[trigger] characteristics[at] == (uuid, found)
                    && forall|behind: int|
                    at < behind < characteristics.len() ==> (
                    #[trigger] characteristics[behind]).0 != uuid,
            None => forall|at: int|
                0 <= at < characteristics.len() ==> (#[trigger] characteristics[at]).0 != uuid,
        },
    decreases characteristics.len(),
{
    if characteristics.len() > 0 {
        let front = characteristics.drop_last();
        let end = characteristics.len() - 1;
        assert(characteristics[end] == characteristics.last());
        assert(forall|at: int| 0 <= at < end ==> front[at] == #[trigger] characteristics[at]);
        if characteristics.last().0 != uuid {
            last_with_is_the_last(front, uuid);
            if let Some(found) = last_with(front, uuid) {
                let at = choose|at: int|
                    0 <= at < front.len() && #[trigger] front[at] == (uuid, found) && forall|
                        behind: int,
                    |
                        at < behind < front.len() ==> (#[trigger] front[behind]).0 != uuid;
                assert(characteristics[at] == (uuid, found));
                assert forall|behind: int| at < behind < characteristics.len() implies (
                #[trigger] characteristics[behind]).0 != uuid by {
                    if behind < end {
                        assert(front[behind] == characteristics[behind]);
                    }
                }
            } else {
                assert forall|at: int| 0 <= at < characteristics.len() implies (
                #[trigger] characteristics[at]).0 != uuid by {
                    if at < end {
                        assert(front[at] == characteristics[at]);
                    }
                }
            }
        }
    }
}

/// Picks the input and the output characteristic, in this order, out of those
/// that the service offers, each with its UUID. Where one UUID occurs more than
/// once the last one counts.
pub fn discover_chars<C>(found: Result<Vec<(u128, C)>, String>) -> (pair: Result<
    (C, C),
    TransportError,
>)
    ensures
        outcome(pair) == (match found {
            Ok(characteristics) => match (
                last_with(characteristics@, input_char_uuid()),
                last_with(characteristics@, output_char_uuid()),
            ) {
                (Some(input), Some(output)) => Ok((input, output)),
                (None, _) => Err(TransportFault::DeviceNotFound("input characteristic missing"@)),
                (_, None) => Err(TransportFault::DeviceNotFound("output characteristic missing"@)),
            },
            Err(text) => Err(TransportFault::Io(text@)),
        }),
{
    let characteristics = match io_failure(found) {
        Ok(characteristics) => characteristics,
        Err(error) => return Err(error),
    };
    let input_uuid: u128 = rynk_input_char_uuid();
    let output_uuid: u128 = rynk_output_char_uuid();
    let mut input_char: Option<C> = None;
    let mut output_char: Option<C> = None;
    let ghost all = characteristics@;
    for entry in it: characteristics
        invariant
            it.seq() == all,
            input_uuid == input_char_uuid(),
            output_uuid == output_char_uuid(),
            input_char == last_with(all.take(it.index() as int), input_uuid),
            output_char == last_with(all.take(it.index() as int), output_uuid),
    {
        assert(all.take(it.index() + 1).drop_last() =~= all.take(it.index() as int));
        let (uuid, characteristic) = entry;
        if uuid == input_uuid {
            input_char = Some(characteristic);
        } else if uuid == output_uuid {
            output_char = Some(characteristic);
        }
    }
    assert(all.take(all.len() as int) =~= all);
    match input_char {
        Some(input) => match output_char {
            Some(output) => Ok((input, output)),
            None => Err(
                TransportError::DeviceNotFound("output characteristic missing".to_owned()),
            ),
        },
        None => Err(TransportError::DeviceNotFound("input characteristic missing".to_owned())),
    }
}

/// The service used is the one that the device lists first, whatever it lists
/// behind it. A device that lists none has no Rynk service; a listing that
/// failed is told in its own words.
pub proof fn first_service_counts<S>(
    services: Vec<S>,
    first: S,
    behind: Seq<S>,
    service: Result<S, TransportError>,
    empty: Vec<S>,
    none: Result<S, TransportError>,
    text: String,
    failed: Result<S, TransportError>,
    failed_chars: Result<(S, S), TransportError>,
)
    requires
        services@ == seq![first] + behind,
        call_ensures(discover_service::<S>, (Ok(services),), service),
        empty@.len() == 0,
        call_ensures(discover_service::<S>, (Ok(empty),), none),
        call_ensures(discover_service::<S>, (Err(text),), failed),
        call_ensures(discover_chars::<S>, (Err(text),), failed_chars),
    ensures
        service == Ok::<S, TransportError>(first),
        none is Err && none->Err_0@ == TransportFault::DeviceNotFound(
            "Rynk GATT service not found"@,
        ),
        failed is Err && failed->Err_0@ == TransportFault::Io(text@),
        failed_chars is Err && failed_chars->Err_0@ == TransportFault::Io(text@),
{
    assert(services@[0] == first);
}

/// The input characteristic is listed under the one UUID and the output
/// characteristic under the other, and nothing behind them is. Discovery
/// succeeds exactly if both UUIDs are listed; else it names what is missing,
/// the input first.
pub proof fn characteristics_stand_under_their_uuids<C>(
    listed: Vec<(u128, C)>,
    pair: Result<(C, C), TransportError>,
)
    requires
        call_ensures(discover_chars::<C>, (Ok(listed),), pair),
    ensures
        match pair {
            Ok((input, output)) => {
                &&& exists|at: int|
                    0 <= at < listed@.len() && #[trigger] listed@[at] == (input_char_uuid(), input)
                        && forall|behind: int|
                        at < behind < listed@.len() ==> (#[trigger] listed@[behind]).0
                            != input_char_uuid()
                &&& exists|at: int|
                    0 <= at < listed@.len() && #[trigger] listed@[at] == (
                        output_char_uuid(),
                        output,
                    ) && forall|behind: int|
                        at < behind < listed@.len() ==> (#[trigger] listed@[behind]).0
                            != output_char_uuid()
            },
            Err(TransportError::DeviceNotFound(text)) => if exists|at: int|
                0 <= at < listed@.len() && (#[trigger] listed@[at]).0 == input_char_uuid() {
                &&& text@ == "output characteristic missing"@
                &&& forall|at: int|
                    0 <= at < listed@.len() ==> (#[trigger] listed@[at]).0 != output_char_uuid()
            } else {
                text@ == "input characteristic missing"@
            },
            Err(_) => false,
        },
{
    last_with_is_the_last(listed@, input_char_uuid());
    last_with_is_the_last(listed@, output_char_uuid());
}

/// The write size to use when the stack reports `max_write_len`, or fails to:
/// never under what every link carries, never over what the firmware takes.
pub open spec fn write_size<E>(max_write_len: Result<usize, E>) -> nat {
    let reported = match max_write_len {
        Ok(size) => size as nat,
        Err(_) => BLE_SAFE_WRITE as nat,
    };
    if reported < BLE_SAFE_WRITE {
        BLE_SAFE_WRITE as nat
    } else if reported > ble_chunk_size() {
        ble_chunk_size()
    } else {
        reported
    }
}

/// Clamps the write size to the firmware's characteristic capacity.
pub fn write_chunk<E>(max_write_len: Result<usize, E>) -> (size: usize)
    ensures
        size == write_size(max_write_len),
        BLE_SAFE_WRITE <= size <= ble_chunk_size(),
{
    let reported: usize = match max_write_len {
        Ok(size) => size,
        Err(_) => BLE_SAFE_WRITE,
    };
    let capacity: usize = rynk_ble_chunk_size();
    if reported < BLE_SAFE_WRITE {
        BLE_SAFE_WRITE
    } else if reported > capacity {
        capacity
    } else {
        reported
    }
}

/// The front of `bytes`, no longer than `size`.
pub open spec fn front(bytes: Seq<u8>, size: nat) -> Seq<u8> {
    if size < bytes.len() {
        bytes.take(size as int)
    } else {
        bytes
    }
}

/// The host's half of an attached link: where writes go, and how long one may
/// be.
pub struct GattWriter<C> {
    output_char: C,
    write_chunk: usize,
}

impl<C> GattWriter<C> {
    #[verifier::type_invariant]
    spec fn within_capacity(self) -> bool {
        BLE_SAFE_WRITE <= self.write_chunk <= ble_chunk_size()
    }

    /// The characteristic to write to.
    pub closed spec fn target(self) -> C {
        self.output_char
    }

    /// The longest write.
    pub closed spec fn size(self) -> nat {
        self.write_chunk as nat
    }

    /// A writer to `output_char`, whose stack reports `max_write_len`.
    pub fn new<E>(output_char: C, max_write_len: Result<usize, E>) -> (writer: Self)
        ensures
            writer.target() == output_char,
            writer.size() == write_size(max_write_len),
    {
        let size: usize = write_chunk(max_write_len);
        GattWriter { output_char, write_chunk: size }
    }

    /// The characteristic to write to.
    pub fn output_char(&self) -> (target: &C)
        ensures
            *target == self.target(),
    {
        &self.output_char
    }

    /// Starts one write of the front of `buf`. It is at most as long as the
    /// characteristic takes and never empty unless `buf` is.
    pub fn write<'a>(&self, buf: &'a [u8]) -> (write: GattWrite<'a>)
        ensures
            write@ == front(buf@, self.size()),
            BLE_SAFE_WRITE <= self.size() <= ble_chunk_size(),
            write@.len() <= ble_chunk_size(),
            buf@.len() > 0 ==> write@.len() > 0,
    {
        proof {
            use_type_invariant(self);
        }
        let n: usize = if buf.len() < self.write_chunk {
            buf.len()
        } else {
            self.write_chunk
        };
        GattWrite { bytes: vstd::slice::slice_subrange(buf, 0, n) }
    }
}

/// One write under way; its view is the bytes to send in a single acknowledged
/// GATT write.
pub struct GattWrite<'a> {
    bytes: &'a [u8],
}

impl<'a> View for GattWrite<'a> {
    type V = Seq<u8>;

    closed spec fn view(&self) -> Seq<u8> {
        self.bytes@
    }
}

impl<'a> GattWrite<'a> {
    /// The bytes to send.
    pub fn bytes(&self) -> (bytes: &'a [u8])
        ensures
            bytes@ == self@,
    {
        self.bytes
    }

    /// Ends the write: all of its bytes are committed, or none count as
    /// written.
    pub fn finish(self, sent: Result<(), String>) -> (written: Result<usize, BleIoError>)
        ensures
            match sent {
                Ok(_) => written matches Ok(n) && n == self@.len(),
                Err(text) => written matches Err(error) && error@ == "gatt write: "@ + text@,
            },
    {
        match sent {
            Ok(_) => Ok(self.bytes.len()),
            Err(text) => {
                let mut message = "gatt write: ".to_owned();
                message.append(text.as_str());
                Err(BleIoError::new(message))
            },
        }
    }
}

/// The write size is what the stack reports, wherever that is at least what
/// every link carries and at most what the firmware takes. It never exceeds
/// what is reported but to reach what every link carries, and a stack that
/// reports more never gets less.
pub proof fn write_size_follows_the_stack<E>(reported: usize, larger: usize, failure: E)
    requires
        reported <= larger,
    ensures
        BLE_SAFE_WRITE <= reported <= ble_chunk_size() ==> write_size(Ok::<usize, E>(reported))
            == reported,
        reported <= BLE_SAFE_WRITE ==> write_size(Ok::<usize, E>(reported)) == BLE_SAFE_WRITE,
        reported >= ble_chunk_size() ==> write_size(Ok::<usize, E>(reported)) == ble_chunk_size(),
        write_size(Ok::<usize, E>(reported)) <= write_size(Ok::<usize, E>(larger)),
        write_size(Err::<usize, E>(failure)) == BLE_SAFE_WRITE,
{
}

/// One write, from the report of the stack to the answer to the client: it goes
/// to the characteristic that the writer was made for and sends the beginning
/// of the buffer, no more than the link carries and no less than it can. Once
/// sent, it counts as written in full; a failure is told with its reason.
pub proof fn one_write_sends_what_the_link_carries<'a, C, E>(
    output: C,
    max_write_len: Result<usize, E>,
    writer: GattWriter<C>,
    target: &'a C,
    buf: &'a [u8],
    write: GattWrite<'a>,
    bytes: &'a [u8],
    sent: Result<(), String>,
    written: Result<usize, BleIoError>,
)
    requires
        call_ensures(GattWriter::<C>::new::<E>, (output, max_write_len), writer),
        call_ensures(GattWriter::<C>::output_char, (&writer,), target),
        call_ensures(GattWriter::<C>::write, (&writer, buf), write),
        call_ensures(GattWrite::bytes, (&write,), bytes),
        call_ensures(GattWrite::finish, (write, sent), written),
    ensures
        *target == output,
        bytes@ == write@,
        write@ == buf@.take(write@.len() as int),
        write@.len() <= buf@.len(),
        write@.len() <= ble_chunk_size(),
        max_write_len matches Ok(reported) ==> write@.len() <= reported || write@.len()
            <= BLE_SAFE_WRITE,
        max_write_len is Err ==> write@.len() <= BLE_SAFE_WRITE,
        write@.len() < buf@.len() ==> write@.len() >= BLE_SAFE_WRITE,
        max_write_len matches Ok(reported) ==> write@.len() == buf@.len() || write@.len()
            >= reported || write@.len() == ble_chunk_size(),
        sent is Ok ==> written == Ok::<usize, BleIoError>(write@.len() as usize),
        sent matches Err(text) ==> (written matches Err(error) && error@ == "gatt write: "@
            + text@),
{
}

/// The writes that send all of `bytes` when each sends the front of what is
/// left.
pub open spec fn all_writes(bytes: Seq<u8>, size: nat) -> Seq<Seq<u8>>
    decreases bytes.len(),
{
    if bytes.len() == 0 || size == 0 {
        Seq::empty()
    } else {
        seq![front(bytes, size)] + all_writes(bytes.skip(front(bytes, size).len() as int), size)
    }
}

/// Repeated writes send every byte once and in order, none of them empty or
/// over the size; only the last may fall short of it.
pub proof fn writes_send_everything(bytes: Seq<u8>, size: nat)
    requires
        size > 0,
    ensures
        all_writes(bytes, size).flatten() == bytes,
        forall|i: int|
            0 <= i < all_writes(bytes, size).len() ==> 0 < (#[trigger] all_writes(
                bytes,
                size,
            )[i]).len() <= size,
        forall|i: int|
            0 <= i < all_writes(bytes, size).len() - 1 ==> (#[trigger] all_writes(
                bytes,
                size,
            )[i]).len() == size,
    decreases bytes.len(),
{
    if bytes.len() > 0 {
        let first = front(bytes, size);
        let rest = bytes.skip(first.len() as int);
        writes_send_everything(rest, size);
        assert(all_writes(bytes, size).drop_first() =~= all_writes(rest, size));
        assert(first + rest =~= bytes);
        assert forall|i: int| 0 < i < all_writes(bytes, size).len() implies #[trigger] all_writes(
            bytes,
            size,
        )[i] == all_writes(rest, size)[i - 1] by {}
        if first.len() < size {
            assert(rest.len() == 0);
        }
    }
}

} // verus!
