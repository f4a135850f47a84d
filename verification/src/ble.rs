//! BLE transport: devices, attached links and discovery.

use vstd::prelude::*;

use crate::attach::{attach, Attach, AttachStage};
use crate::chunk::{handed_out, ChunkReader, ReadStep};
use crate::error::{io_failure, outcome, TransportError, TransportFault};
use crate::gatt::{front, GattWrite, GattWriter, BLE_SAFE_WRITE};
use crate::protocol::{ble_chunk_size, rynk_service_uuid, service_uuid};
use crate::text::text_of;

verus! {

/// What an attached link is: the device it leads to, where it writes and how
/// much at once, which bytes of the last notification are still unread, and the
/// device's name.
pub struct LinkState<D, C> {
    pub device: D,
    pub output: C,
    pub write_size: nat,
    pub unread: Seq<u8>,
    pub name: Option<Seq<char>>,
}

/// Attached Rynk GATT link to `device`, over characteristics of type `C`.
pub struct BleTransport<D, C> {
    device: D,
    writer: GattWriter<C>,
    reader: ChunkReader,
    name: Option<String>,
}

impl<D, C> View for BleTransport<D, C> {
    type V = LinkState<D, C>;

    closed spec fn view(&self) -> LinkState<D, C> {
        LinkState {
            device: self.device,
            output: self.writer.target(),
            write_size: self.writer.size(),
            unread: self.reader@,
            name: text_of(self.name),
        }
    }
}

impl<D, C> BleTransport<D, C> {
    /// A fresh link.
    pub(crate) fn new(device: D, writer: GattWriter<C>, name: Option<String>) -> (transport: Self)
        ensures
            transport@ == (LinkState {
                device,
                output: writer.target(),
                write_size: writer.size(),
                unread: Seq::empty(),
                name: text_of(name),
            }),
    {
        BleTransport { device, writer, reader: ChunkReader::new(), name }
    }

    /// The connected keyboard's BLE name, if any.
    pub fn device_name(&self) -> (name: Option<&str>)
        ensures
            match name {
                Some(text) => self@.name == Some(text@),
                None => self@.name is None,
            },
    {
        match &self.name {
            Some(text) => Some(text.as_str()),
            None => None,
        }
    }

    /// The device at the other end.
    pub fn device(&self) -> (device: &D)
        ensures
            *device == self@.device,
    {
        &self.device
    }

    /// Hands out received bytes, or asks for the next notification chunk.
    pub fn read(&mut self, buf: &mut [u8]) -> (step: ReadStep)
        ensures
            match step {
                ReadStep::Read(n) => {
                    let out = handed_out(old(self)@.unread, old(buf)@.len());
                    &&& old(self)@.unread.len() > 0
                    &&& n == out.len()
                    &&& n <= old(self)@.unread.len() && n <= old(buf)@.len()
                    &&& n == old(self)@.unread.len() || n == old(buf)@.len()
                    &&& final(buf)@ == out + old(buf)@.skip(n as int)
                    &&& final(buf)@ == old(self)@.unread.take(n as int) + old(buf)@.skip(n as int)
                    &&& final(self)@ == (LinkState {
                        unread: old(self)@.unread.skip(n as int),
                        ..old(self)@
                    })
                },
                ReadStep::NeedChunk => {
                    &&& old(self)@.unread.len() == 0
                    &&& final(buf)@ == old(buf)@
                    &&& final(self)@ == old(self)@
                },
            },
    {
        self.reader.read(buf)
    }

    /// Takes what the bridge's channel gave after a read asked for a chunk; see
    /// [`ChunkReader::receive`].
    pub fn receive(&mut self, chunk: Option<Vec<u8>>) -> (ended: Option<usize>)
        requires
            old(self)@.unread.len() == 0,
        ensures
            match chunk {
                Some(bytes) => ended is None && final(self)@ == (LinkState {
                    unread: bytes@,
                    ..old(self)@
                }),
                None => ended == Some(0usize) && final(self)@ == old(self)@,
            },
    {
        self.reader.receive(chunk)
    }

    /// Starts one GATT write of the front of `buf`; see [`GattWriter::write`].
    pub fn write<'a>(&self, buf: &'a [u8]) -> (write: GattWrite<'a>)
        ensures
            write@ == front(buf@, self@.write_size),
            BLE_SAFE_WRITE <= self@.write_size <= ble_chunk_size(),
            write@.len() <= ble_chunk_size(),
            buf@.len() > 0 ==> write@.len() > 0,
    {
        self.writer.write(buf)
    }

    /// Parts the link into its two halves, so that both can work at once.
    pub fn split(self) -> (halves: (GattWriter<C>, ChunkReader))
        ensures
            halves.0.target() == self@.output,
            halves.0.size() == self@.write_size,
            halves.1@ == self@.unread,
    {
        (self.writer, self.reader)
    }
}

/// Reading a link moves bytes from the front of what is unread to the front of
/// the buffer, until the buffer is full or nothing is unread, and leaves the
/// link as it is in all else.
pub proof fn link_reads_move_bytes_into_the_buffer<D, C>(
    link: &mut BleTransport<D, C>,
    buf: &mut [u8],
    step: ReadStep,
)
    requires
        call_ensures(BleTransport::<D, C>::read, (link, buf), step),
    ensures
        step is NeedChunk <==> old(link)@.unread.len() == 0,
        step is NeedChunk ==> final(link)@.unread == old(link)@.unread && final(buf)@ == old(buf)@,
        step matches ReadStep::Read(n) ==> final(buf)@.take(n as int) + final(link)@.unread == old(
            link,
        )@.unread,
        step matches ReadStep::Read(n) ==> final(buf)@.len() == old(buf)@.len() && final(buf)@.skip(
            n as int,
        ) == old(buf)@.skip(n as int),
        step matches ReadStep::Read(n) ==> n == old(buf)@.len() || final(link)@.unread.len() == 0,
        final(link)@.device == old(link)@.device && final(link)@.output == old(link)@.output,
        final(link)@.write_size == old(link)@.write_size && final(link)@.name == old(link)@.name,
{
    if let ReadStep::Read(n) = step {
        let taken = old(link)@.unread.take(n as int);
        assert(final(buf)@.take(n as int) =~= taken);
        assert(taken + old(link)@.unread.skip(n as int) =~= old(link)@.unread);
        assert(final(buf)@.skip(n as int) =~= old(buf)@.skip(n as int));
    }
}

/// A notification chunk becomes what is unread, with every byte it has, and the
/// link stays as it is in all else; only a closed channel ends a read.
pub proof fn link_takes_chunks_over_whole<D, C>(
    link: &mut BleTransport<D, C>,
    chunk: Option<Vec<u8>>,
    ended: Option<usize>,
)
    requires
        old(link)@.unread.len() == 0,
        call_ensures(BleTransport::<D, C>::receive, (link, chunk), ended),
    ensures
        ended is Some <==> chunk is None,
        ended is Some ==> ended->0 == 0 && final(link)@.unread.len() == 0,
        chunk is Some ==> final(link)@.unread == chunk->0@,
        final(link)@.device == old(link)@.device && final(link)@.output == old(link)@.output,
        final(link)@.write_size == old(link)@.write_size && final(link)@.name == old(link)@.name,
{
}

/// A device that the operating system reports as connected and offering the
/// Rynk service: `id` identifies it, `device` stands for whatever is needed to
/// attach to it.
pub struct FoundDevice<I, D> {
    pub name: Result<String, String>,
    pub id: I,
    pub device: D,
}

/// A Rynk keyboard, for building a device picker.
pub struct BleDevice<I, D> {
    /// The keyboard's BLE name, if it advertised one.
    pub name: Option<String>,
    /// What identifies the keyboard to the operating system.
    pub id: I,
    /// What is needed to attach to the keyboard.
    pub device: D,
}

/// What a [`BleDevice`] is.
pub struct DeviceEntry<I, D> {
    pub name: Option<Seq<char>>,
    pub id: I,
    pub device: D,
}

impl<I, D> View for BleDevice<I, D> {
    type V = DeviceEntry<I, D>;

    open spec fn view(&self) -> DeviceEntry<I, D> {
        DeviceEntry { name: text_of(self.name), id: self.id, device: self.device }
    }
}

impl<I, D> BleDevice<I, D> {
    /// A stable identifier for this device, usable as a picker key: the name
    /// may be absent or shared between keyboards.
    pub fn id(&self) -> (id: &I)
        ensures
            *id == self@.id,
    {
        &self.id
    }

    /// Starts to attach to this device. Once attached, the handshake follows.
    pub fn connect<C>(&self) -> (first: Attach<&D, C>)
        ensures
            first@ == (AttachStage::Connect::<&D, C> { device: &self@.device, attempt: 0 }),
    {
        attach(&self.device)
    }
}

/// The picker entry for a device that was found. A name that cannot be read is
/// no name.
pub open spec fn entry_for<I, D>(found: FoundDevice<I, D>) -> DeviceEntry<I, D> {
    DeviceEntry {
        name: match found.name {
            Ok(name) => Some(name@),
            Err(_) => None,
        },
        id: found.id,
        device: found.device,
    }
}

/// The picker shows the devices that were found and no others, in the order
/// found, each with its own identifier and handle. A name is shown exactly as
/// it was reported whenever it could be read, and left out only where it could
/// not.
pub proof fn picker_shows_what_was_found<A, I, D>(
    query: DeviceQuery<A>,
    found: Vec<FoundDevice<I, D>>,
    devices: Result<Vec<BleDevice<I, D>>, TransportError>,
)
    requires
        call_ensures(DeviceQuery::<A>::connected::<I, D>, (query, Ok(found)), devices),
    ensures
        devices is Ok,
        devices->Ok_0@.len() == found@.len(),
        forall|i: int|
            0 <= i < found@.len() ==> (#[trigger] devices->Ok_0@[i]).id == found@[i].id
                && devices->Ok_0@[i].device == found@[i].device,
        forall|i: int|
            0 <= i < found@.len() && found@[i].name is Ok ==> (
            #[trigger] devices->Ok_0@[i]).name is Some && devices->Ok_0@[i].name->0@
                == found@[i].name->Ok_0@,
        forall|i: int|
            0 <= i < found@.len() && found@[i].name is Err ==> (
            #[trigger] devices->Ok_0@[i]).name is None,
{
    let listed = devices->Ok_0@;
    let shown = listed.map_values(|device: BleDevice<I, D>| device@);
    let expected = found@.map_values(|found: FoundDevice<I, D>| entry_for(found));
    assert(shown.len() == listed.len());
    assert(expected.len() == found@.len());
    assert forall|i: int| 0 <= i < found@.len() implies (#[trigger] listed[i])@ == entry_for(
        found@[i],
    ) by {
        assert(shown[i] == listed[i]@);
        assert(expected[i] == entry_for(found@[i]));
    }
}

/// Discovery asks the adapter that it was given, for the devices with the Rynk
/// service; without an adapter, or when the adapter or the question fails, it
/// tells why.
pub proof fn discovery_asks_the_adapter_it_has<'a, A, I, D>(
    adapter: A,
    wait: Result<AdapterWait<A>, TransportError>,
    none: Result<AdapterWait<A>, TransportError>,
    query: Result<DeviceQuery<A>, TransportError>,
    asked: &'a A,
    text: String,
    off: Result<DeviceQuery<A>, TransportError>,
    denied: Result<Vec<BleDevice<I, D>>, TransportError>,
)
    requires
        call_ensures(discover::<A>, (Some(adapter),), wait),
        call_ensures(discover::<A>, (None,), none),
        call_ensures(AdapterWait::<A>::available, (wait->Ok_0, Ok(())), query),
        call_ensures(DeviceQuery::<A>::adapter, (&query->Ok_0,), asked),
        call_ensures(AdapterWait::<A>::available, (wait->Ok_0, Err(text)), off),
        call_ensures(DeviceQuery::<A>::connected::<I, D>, (query->Ok_0, Err(text)), denied),
    ensures
        wait is Ok && query is Ok && *asked == adapter,
        none is Err && none->Err_0@ == TransportFault::DeviceNotFound("no BLE adapter"@),
        off is Err && off->Err_0@ == TransportFault::Io(text@),
        denied is Err && denied->Err_0@ == TransportFault::Io(text@),
{
}

/// Attaching starts at once, with the first attempt, on the very device that
/// was chosen from the picker, which goes by its own identifier.
pub proof fn attach_starts_on_the_chosen_device<'a, I, D, C>(
    chosen: BleDevice<I, D>,
    id: &'a I,
    first: Attach<&'a D, C>,
)
    requires
        call_ensures(BleDevice::<I, D>::id, (&chosen,), id),
        call_ensures(BleDevice::<I, D>::connect::<C>, (&chosen,), first),
    ensures
        *id == chosen.id,
        first is Connect,
        *first->Connect_0.on() == chosen.device,
        first->Connect_0.number() == 0,
{
}

/// Discovery that waits for the adapter to become available.
pub struct AdapterWait<A> {
    adapter: A,
}

/// Discovery that asks the operating system for connected devices.
pub struct DeviceQuery<A> {
    adapter: A,
}

/// Starts discovery on the default adapter, if there is one.
pub fn discover<A>(adapter: Option<A>) -> (next: Result<AdapterWait<A>, TransportError>)
    ensures
        match adapter {
            Some(adapter) => next matches Ok(wait) && wait.on() == adapter,
            None => outcome(next) == Err::<AdapterWait<A>, TransportFault>(
                TransportFault::DeviceNotFound("no BLE adapter"@),
            ),
        },
{
    match adapter {
        Some(adapter) => Ok(AdapterWait { adapter }),
        None => Err(TransportError::DeviceNotFound("no BLE adapter".to_owned())),
    }
}

impl<A> AdapterWait<A> {
    pub closed spec fn on(self) -> A {
        self.adapter
    }

    /// The adapter to wait for.
    pub fn adapter(&self) -> (adapter: &A)
        ensures
            *adapter == self.on(),
    {
        &self.adapter
    }

    /// The wait is over.
    pub fn available(self, answer: Result<(), String>) -> (next: Result<
        DeviceQuery<A>,
        TransportError,
    >)
        ensures
            match answer {
                Ok(_) => next matches Ok(query) && query.on() == self.on(),
                Err(text) => outcome(next) == Err::<DeviceQuery<A>, TransportFault>(
                    TransportFault::Io(text@),
                ),
            },
    {
        match io_failure(answer) {
            Ok(_) => Ok(DeviceQuery { adapter: self.adapter }),
            Err(error) => Err(error),
        }
    }
}

impl<A> DeviceQuery<A> {
    pub closed spec fn on(self) -> A {
        self.adapter
    }

    /// The adapter to ask.
    pub fn adapter(&self) -> (adapter: &A)
        ensures
            *adapter == self.on(),
    {
        &self.adapter
    }

    /// The service that the devices to list have to offer.
    pub fn service(&self) -> (uuid: u128)
        ensures
            uuid == service_uuid(),
    {
        rynk_service_uuid()
    }

    /// Lists one keyboard per device found, in the order found.
    pub fn connected<I, D>(self, answer: Result<Vec<FoundDevice<I, D>>, String>) -> (devices: Result<
        Vec<BleDevice<I, D>>,
        TransportError,
    >)
        ensures
            match answer {
                Ok(found) => devices matches Ok(devices) && devices@.map_values(
                    |device: BleDevice<I, D>| device@,
                ) == found@.map_values(|found: FoundDevice<I, D>| entry_for(found)),
                Err(text) => outcome(devices) == Err::<Vec<BleDevice<I, D>>, TransportFault>(
                    TransportFault::Io(text@),
                ),
            },
    {
        let found = match io_failure(answer) {
            Ok(found) => found,
            Err(error) => return Err(error),
        };
        let ghost all = found@;
        let mut devices: Vec<BleDevice<I, D>> = Vec::new();
        for entry in it: found
            invariant
                it.seq() == all,
                devices@.len() == it.index(),
                forall|i: int|
                    0 <= i < devices@.len() ==> (#[trigger] devices@[i])@ == entry_for(all[i]),
        {
            devices.push(
                BleDevice { name: entry.name.ok(), id: entry.id, device: entry.device },
            );
        }
        Ok(devices)
    }
}

} // verus!
