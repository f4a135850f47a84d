//! USB CDC-ACM serial transport.
//!
//! A Rynk keyboard is recognized by the marker in its USB serial number. The
//! operating system knows that number without opening the port, so discovery
//! opens none: opening a CDC port toggles DTR, which resets some controllers.
//! Only the chosen device is opened, once.
//!
//! One keyboard can show up as several ports, all under its serial number: a
//! logger port beside the Rynk port, for one. Discovery lists it once, with all
//! of its ports: which of them speaks Rynk shows only when one is opened.

use vstd::prelude::*;

use crate::error::{
    io_failure, outcome, ConnectError, ConnectFault, TransportError, TransportFault,
};
use crate::handshake::opened;
use crate::protocol::{rynk_serial_magic, serial_magic};
use crate::text::{
    ascii_lower, ascii_lowercase, contains, contains_text, same_text, stands_at, text_of, to_ascii_lowercase,
};

verus! {

/// Required by serial APIs; ignored by USB CDC-ACM devices.
pub const CDC_BAUD_RATE: u32 = 115_200;

/// How a serial port is attached to the host.
pub enum PortType {
    /// Over USB: vendor, product and serial number of the USB device, and the
    /// place where it is plugged in; see [`usb_place`].
    UsbPort { vid: u16, pid: u16, serial_number: Option<String>, place: String },
    PciPort,
    BluetoothPort,
    Unknown,
}

/// A serial port as the operating system lists it.
pub struct PortInfo {
    pub port_name: String,
    pub port_type: PortType,
}

/// The port belongs to a Rynk keyboard: it is a USB port whose serial number
/// holds the marker, in upper or lower case.
pub open spec fn is_rynk_port(port: PortInfo) -> bool {
    match port.port_type {
        PortType::UsbPort { serial_number: Some(serial), .. } => contains_text(
            ascii_lowercase(serial@),
            serial_magic(),
        ),
        _ => false,
    }
}

/// The place of a USB device that shows up as the port `port_name`. Where the
/// operating system does not tell the location, the port counts as a place of
/// its own: it cannot be shown to belong to another port's keyboard, and no
/// keyboard may be passed over on a guess.
pub fn usb_place(location: Option<String>, port_name: &str) -> (place: String)
    ensures
        place@ == (match location {
            Some(location) => location@,
            None => port_name@,
        }),
{
    match location {
        Some(location) => location,
        None => port_name.to_owned(),
    }
}

/// The names of the ports that are to be kept, in order.
pub open spec fn names_where(ports: Seq<PortInfo>, keep: spec_fn(PortInfo) -> bool) -> Seq<
    Seq<char>,
> {
    ports.filter(keep).map_values(|port: PortInfo| port.port_name@)
}

/// Keeps Rynk ports.
pub open spec fn marked() -> spec_fn(PortInfo) -> bool {
    |port: PortInfo| is_rynk_port(port)
}

/// The names of the Rynk ports among `ports`, in order.
pub open spec fn rynk_port_names(ports: Seq<PortInfo>) -> Seq<Seq<char>> {
    names_where(ports, marked())
}

proof fn names_with_one_more(
    ports: Seq<PortInfo>,
    port: PortInfo,
    keep: spec_fn(PortInfo) -> bool,
)
    ensures
        names_where(ports.push(port), keep) == if keep(port) {
            names_where(ports, keep).push(port.port_name@)
        } else {
            names_where(ports, keep)
        },
{
    reveal(Seq::filter);
    let more = ports.push(port);
    assert(more.drop_last() =~= ports);
    assert(names_where(more, keep) =~= if keep(port) {
        names_where(ports, keep).push(port.port_name@)
    } else {
        names_where(ports, keep)
    });
}

proof fn names_where_holds_what_is_kept(
    ports: Seq<PortInfo>,
    keep: spec_fn(PortInfo) -> bool,
    name: Seq<char>,
)
    ensures
        names_where(ports, keep).contains(name) <==> exists|i: int|
            0 <= i < ports.len() && keep(#[trigger] ports[i]) && ports[i].port_name@ == name,
    decreases ports.len(),
{
    if ports.len() == 0 {
        reveal(Seq::filter);
    } else {
        let front = ports.drop_last();
        let last = ports.last();
        assert(ports =~= front.push(last));
        names_with_one_more(front, last, keep);
        names_where_holds_what_is_kept(front, keep, name);
        let listed = names_where(front, keep);
        if keep(last) {
            let longer = listed.push(last.port_name@);
            if listed.contains(name) {
                let at = choose|at: int| 0 <= at < listed.len() && listed[at] == name;
                assert(longer[at] == name);
            }
            if last.port_name@ == name {
                assert(longer[listed.len() as int] == name);
            }
        }
        if exists|i: int|
            0 <= i < ports.len() && keep(#[trigger] ports[i]) && ports[i].port_name@ == name {
            let i = choose|i: int|
                0 <= i < ports.len() && keep(#[trigger] ports[i]) && ports[i].port_name@ == name;
            if i < front.len() {
                assert(front[i] == ports[i]);
            }
        }
        if exists|i: int|
            0 <= i < front.len() && keep(#[trigger] front[i]) && front[i].port_name@ == name {
            let i = choose|i: int|
                0 <= i < front.len() && keep(#[trigger] front[i]) && front[i].port_name@ == name;
            assert(ports[i] == front[i]);
        }
        if keep(last) && last.port_name@ == name {
            assert(ports[ports.len() - 1] == last);
        }
    }
}

fn has_marker(port: &PortInfo) -> (marked: bool)
    ensures
        marked == is_rynk_port(*port),
{
    match &port.port_type {
        PortType::UsbPort { serial_number: Some(serial), .. } => contains(
            &to_ascii_lowercase(serial.as_str()),
            rynk_serial_magic(),
        ),
        _ => false,
    }
}

/// Texts as characters.
pub open spec fn texts(strings: Seq<String>) -> Seq<Seq<char>> {
    strings.map_values(|string: String| string@)
}

/// Open CDC-ACM serial port, held by the byte stream `S`.
pub struct SerialTransport<S> {
    stream: S,
    path: String,
}

impl<S> SerialTransport<S> {
    pub closed spec fn on(self) -> S {
        self.stream
    }

    pub closed spec fn port(self) -> Seq<char> {
        self.path@
    }

    /// Ends the opening of the port at `path`.
    pub fn open(path: &str, stream: Result<S, String>) -> (transport: Result<Self, TransportError>)
        ensures
            match stream {
                Ok(stream) => transport matches Ok(transport) && transport.on() == stream
                    && transport.port() == path@,
                Err(text) => outcome(transport) == Err::<Self, TransportFault>(
                    TransportFault::Io("open "@ + path@ + ": "@ + text@),
                ),
            },
    {
        match stream {
            Ok(stream) => Ok(SerialTransport { stream, path: path.to_owned() }),
            Err(text) => {
                let mut message = "open ".to_owned();
                message.append(path);
                message.append(": ");
                message.append(text.as_str());
                Err(TransportError::Io(message))
            },
        }
    }

    /// The port path this transport is connected to.
    pub fn path(&self) -> (path: &str)
        ensures
            path@ == self.port(),
    {
        self.path.as_str()
    }

    /// The byte stream of the port.
    pub fn into_stream(self) -> (stream: S)
        ensures
            stream == self.on(),
    {
        self.stream
    }
}

/// Picks the ports of Rynk keyboards out of those that the operating system
/// lists.
pub fn rynk_serial_ports(listed: Result<Vec<PortInfo>, String>) -> (paths: Result<
    Vec<String>,
    TransportError,
>)
    ensures
        match listed {
            Ok(ports) => paths matches Ok(paths) && texts(paths@) == rynk_port_names(ports@),
            Err(text) => outcome(paths) == Err::<Vec<String>, TransportFault>(
                TransportFault::Io(text@),
            ),
        },
{
    let ports = match io_failure(listed) {
        Ok(ports) => ports,
        Err(error) => return Err(error),
    };
    let ghost all = ports@;
    let mut paths: Vec<String> = Vec::new();
    for port in it: ports
        invariant
            it.seq() == all,
            texts(paths@) == rynk_port_names(all.take(it.index() as int)),
    {
        proof {
            names_with_one_more(all.take(it.index() as int), port, marked());
            assert(all.take(it.index() + 1) =~= all.take(it.index() as int).push(port));
        }
        let ghost before = paths@;
        if has_marker(&port) {
            paths.push(port.port_name);
            assert(texts(paths@) =~= texts(before).push(port.port_name@));
        }
    }
    assert(all.take(all.len() as int) =~= all);
    Ok(paths)
}

/// Ends the enumeration, which runs apart because it can block for long. The
/// outer failure is that of the task itself.
pub fn candidates_blocking(
    enumerated: Result<Result<Vec<PortInfo>, String>, String>,
) -> (paths: Result<Vec<String>, TransportError>)
    ensures
        match enumerated {
            Ok(Ok(ports)) => paths matches Ok(paths) && texts(paths@) == rynk_port_names(ports@),
            Ok(Err(text)) => outcome(paths) == Err::<Vec<String>, TransportFault>(
                TransportFault::Io(text@),
            ),
            Err(text) => outcome(paths) == Err::<Vec<String>, TransportFault>(
                TransportFault::Io(text@),
            ),
        },
{
    match io_failure(enumerated) {
        Ok(listed) => rynk_serial_ports(listed),
        Err(error) => Err(error),
    }
}

/// A Rynk keyboard found by [`discover`], for building a device picker. It
/// carries only port paths: version and capabilities are read by the handshake,
/// after the port is opened for the first time.
#[derive(Debug)]
pub struct SerialDevice {
    /// The port to open.
    pub path: String,
    /// The other marked ports of the same keyboard.
    pub other_paths: Vec<String>,
}

/// The paths of devices, in order.
pub open spec fn device_paths(devices: Seq<SerialDevice>) -> Seq<Seq<char>> {
    devices.map_values(|device: SerialDevice| device.path@)
}

/// Two ports are interfaces of one USB device: vendor, product, serial number
/// and place are the same. Keyboards of one serial number are told apart by
/// their places. Ports whose location the operating system does not tell have
/// places of their own, so they never count as the same keyboard.
pub open spec fn same_keyboard(one: PortInfo, other: PortInfo) -> bool {
    match (one.port_type, other.port_type) {
        (
            PortType::UsbPort { vid, pid, serial_number, place },
            PortType::UsbPort {
                vid: other_vid,
                pid: other_pid,
                serial_number: other_serial,
                place: other_place,
            },
        ) => {
            &&& vid == other_vid
            &&& pid == other_pid
            &&& text_of(serial_number) == text_of(other_serial)
            &&& place@ == other_place@
        },
        _ => false,
    }
}

/// The port at `at` is marked, and no marked port of the same keyboard stands
/// before it.
pub open spec fn leads(ports: Seq<PortInfo>, at: int) -> bool {
    &&& is_rynk_port(ports[at])
    &&& forall|before: int|
        0 <= before < at && is_rynk_port(ports[before]) ==> !same_keyboard(
            #[trigger] ports[before],
            ports[at],
        )
}

/// Where the keyboards stand among the first `count` ports: the position of the
/// first marked port of each, in order.
pub open spec fn keyboards(ports: Seq<PortInfo>, count: nat) -> Seq<int>
    decreases count,
{
    if count == 0 {
        Seq::empty()
    } else {
        let earlier = keyboards(ports, (count - 1) as nat);
        if leads(ports, count - 1) {
            earlier.push(count - 1)
        } else {
            earlier
        }
    }
}

/// The names of the marked ports before which no marked port of the same
/// keyboard stands, in order.
pub open spec fn keyboard_port_names(ports: Seq<PortInfo>) -> Seq<Seq<char>> {
    keyboards(ports, ports.len()).map_values(|at: int| ports[at].port_name@)
}

/// Keeps ports of the keyboard that `port` belongs to.
pub open spec fn of_keyboard(port: PortInfo) -> spec_fn(PortInfo) -> bool {
    |other: PortInfo| same_keyboard(port, other)
}

/// The names of the ports behind the one at `at` that belong to its keyboard, in
/// order.
pub open spec fn other_port_names(ports: Seq<PortInfo>, at: int) -> Seq<Seq<char>> {
    names_where(ports.skip(at + 1), of_keyboard(ports[at]))
}

/// The devices are the keyboards among `ports`, in order, each with its first
/// marked port as the one to open and its further ports beside it.
pub open spec fn lists_keyboards(devices: Seq<SerialDevice>, ports: Seq<PortInfo>) -> bool {
    &&& device_paths(devices) == keyboard_port_names(ports)
    &&& forall|k: int|
        0 <= k < devices.len() ==> texts((#[trigger] devices[k]).other_paths@) == other_port_names(
            ports,
            keyboards(ports, ports.len())[k],
        )
}

fn is_same_keyboard(one: &PortInfo, other: &PortInfo) -> (same: bool)
    ensures
        same == same_keyboard(*one, *other),
{
    match (&one.port_type, &other.port_type) {
        (
            PortType::UsbPort { vid, pid, serial_number, place },
            PortType::UsbPort {
                vid: other_vid,
                pid: other_pid,
                serial_number: other_serial,
                place: other_place,
            },
        ) => *vid == *other_vid && *pid == *other_pid && same_text(serial_number, other_serial)
            && *place == *other_place,
        _ => false,
    }
}

fn other_ports(ports: &Vec<PortInfo>, at: usize) -> (paths: Vec<String>)
    requires
        at < ports@.len(),
    ensures
        texts(paths@) == other_port_names(ports@, at as int),
{
    let ghost keep = of_keyboard(ports@[at as int]);
    let ghost behind = ports@.skip(at + 1);
    let count: usize = ports.len();
    let mut paths: Vec<String> = Vec::new();
    let mut next: usize = at + 1;
    proof {
        reveal(Seq::filter);
        assert(texts(paths@) =~= names_where(behind.take(0), keep));
    }
    while next < count
        invariant
            count == ports@.len(),
            at < next <= count,
            behind == ports@.skip(at + 1),
            keep == of_keyboard(ports@[at as int]),
            texts(paths@) == names_where(behind.take(next - at - 1), keep),
        decreases count - next,
    {
        let ghost before = paths@;
        proof {
            let seen = behind.take(next - at - 1);
            names_with_one_more(seen, ports@[next as int], keep);
            assert(behind.take(next - at) =~= seen.push(ports@[next as int]));
        }
        if is_same_keyboard(&ports[at], &ports[next]) {
            paths.push(ports[next].port_name.clone());
            assert(texts(paths@) =~= texts(before).push(ports@[next as int].port_name@));
        }
        next = next + 1;
    }
    assert(behind.take(next - at - 1) =~= behind);
    paths
}

fn is_leading(ports: &Vec<PortInfo>, at: usize) -> (leading: bool)
    requires
        at < ports@.len(),
    ensures
        leading == leads(ports@, at as int),
{
    if !has_marker(&ports[at]) {
        return false;
    }
    let mut before: usize = 0;
    while before < at
        invariant
            before <= at < ports@.len(),
            is_rynk_port(ports@[at as int]),
            forall|k: int|
                0 <= k < before && is_rynk_port(ports@[k]) ==> !same_keyboard(
                    #[trigger] ports@[k],
                    ports@[at as int],
                ),
        decreases at - before,
    {
        if is_same_keyboard(&ports[before], &ports[at]) {
            assert(is_rynk_port(ports@[before as int]));
            return false;
        }
        before = before + 1;
    }
    true
}

/// Lists one device per Rynk keyboard among the ports that the operating
/// system reported, in its order, without opening any. A keyboard with several
/// marked ports is listed once, with the first of them as the port to open and
/// the others beside it, so no marked port is lost. Where the operating system
/// does not tell the location of a port, that port is listed as a keyboard of
/// its own.
pub fn discover(enumerated: Result<Result<Vec<PortInfo>, String>, String>) -> (devices: Result<
    Vec<SerialDevice>,
    TransportError,
>)
    ensures
        match enumerated {
            Ok(Ok(ports)) => devices matches Ok(devices) && lists_keyboards(devices@, ports@),
            Ok(Err(text)) => outcome(devices) == Err::<Vec<SerialDevice>, TransportFault>(
                TransportFault::Io(text@),
            ),
            Err(text) => outcome(devices) == Err::<Vec<SerialDevice>, TransportFault>(
                TransportFault::Io(text@),
            ),
        },
{
    let listed = match io_failure(enumerated) {
        Ok(listed) => listed,
        Err(error) => return Err(error),
    };
    let ports = match io_failure(listed) {
        Ok(ports) => ports,
        Err(error) => return Err(error),
    };
    let ghost name = |at: int| ports@[at].port_name@;
    let mut devices: Vec<SerialDevice> = Vec::new();
    let mut at: usize = 0;
    while at < ports.len()
        invariant
            at <= ports@.len(),
            name == (|at: int| ports@[at].port_name@),
            device_paths(devices@) == keyboards(ports@, at as nat).map_values(name),
            devices@.len() == keyboards(ports@, at as nat).len(),
            forall|k: int|
                0 <= k < devices@.len() ==> texts((#[trigger] devices@[k]).other_paths@)
                    == other_port_names(ports@, keyboards(ports@, at as nat)[k]),
        decreases ports@.len() - at,
    {
        let ghost before = devices@;
        let ghost earlier = keyboards(ports@, at as nat);
        if is_leading(&ports, at) {
            devices.push(
                SerialDevice {
                    path: ports[at].port_name.clone(),
                    other_paths: other_ports(&ports, at),
                },
            );
            proof {
                assert(device_paths(devices@) =~= device_paths(before).push(name(at as int)));
                assert(earlier.push(at as int).map_values(name) =~= earlier.map_values(name).push(
                    name(at as int),
                ));
            }
        }
        at = at + 1;
    }
    Ok(devices)
}

impl SerialDevice {
    /// Goes on once the port at [`SerialDevice::path`] was opened, or could not
    /// be. Once open, the handshake follows.
    pub fn connect<S, E>(&self, stream: Result<S, String>) -> (next: Result<
        SerialTransport<S>,
        ConnectError<E>,
    >)
        ensures
            match stream {
                Ok(stream) => next matches Ok(transport) && transport.on() == stream
                    && transport.port() == self.path@,
                Err(text) => outcome(next) == Err::<SerialTransport<S>, ConnectFault<E>>(
                    ConnectFault::Transport(
                        TransportFault::Io("open "@ + self.path@ + ": "@ + text@),
                    ),
                ),
            },
    {
        opened(SerialTransport::open(self.path.as_str(), stream))
    }

    /// The same keyboard, to be opened at the first of its other ports, as when
    /// the one to open stays silent. A device without other ports has none left
    /// to try.
    pub fn at_next_port(self) -> (next: Option<Self>)
        ensures
            match next {
                Some(next) => {
                    &&& self.other_paths@.len() > 0
                    &&& next.path == self.other_paths@[0]
                    &&& next.other_paths@ == self.other_paths@.skip(1)
                },
                None => self.other_paths@.len() == 0,
            },
    {
        let mut other_paths = self.other_paths;
        if other_paths.len() == 0 {
            return None;
        }
        let path = other_paths.remove(0);
        Some(SerialDevice { path, other_paths })
    }
}

/// A port that answered the handshake, with the protocol version it speaks.
#[derive(Debug)]
pub struct ProbedDevice<V> {
    pub path: String,
    pub version: V,
}

/// Judges a port by an attempt to connect to it: one that stays silent, cannot
/// be opened, or speaks an incompatible version is none to connect to.
pub fn probe_device<V, E>(path: String, version: Result<V, ConnectError<E>>) -> (device: Option<
    ProbedDevice<V>,
>)
    ensures
        device == (match version {
            Ok(version) => Some(ProbedDevice { path, version }),
            Err(_) => None,
        }),
{
    match version {
        Ok(version) => Some(ProbedDevice { path, version }),
        Err(_) => None,
    }
}

/// A port is a candidate exactly if it is one that the operating system
/// reported and its serial number holds the marker.
pub proof fn exactly_the_marked_ports_are_listed(ports: Seq<PortInfo>, name: Seq<char>)
    ensures
        rynk_port_names(ports).contains(name) <==> exists|i: int|
            0 <= i < ports.len() && is_rynk_port(#[trigger] ports[i]) && ports[i].port_name@
                == name,
{
    names_where_holds_what_is_kept(ports, marked(), name);
    if exists|i: int|
        0 <= i < ports.len() && is_rynk_port(#[trigger] ports[i]) && ports[i].port_name@ == name {
        let i = choose|i: int|
            0 <= i < ports.len() && is_rynk_port(#[trigger] ports[i]) && ports[i].port_name@
                == name;
        assert(marked()(ports[i]));
    }
}

proof fn keyboards_are_the_leading_ports(ports: Seq<PortInfo>, count: nat)
    requires
        count <= ports.len(),
    ensures
        forall|k: int|
            0 <= k < keyboards(ports, count).len() ==> 0 <= #[trigger] keyboards(ports, count)[k]
                < count && leads(ports, keyboards(ports, count)[k]),
        forall|k: int, l: int|
            0 <= k < l < keyboards(ports, count).len() ==> #[trigger] keyboards(ports, count)[k]
                < #[trigger] keyboards(ports, count)[l],
        forall|at: int|
            0 <= at < count && #[trigger] leads(ports, at) ==> keyboards(ports, count).contains(at),
    decreases count,
{
    if count > 0 {
        let earlier = keyboards(ports, (count - 1) as nat);
        let all = keyboards(ports, count);
        keyboards_are_the_leading_ports(ports, (count - 1) as nat);
        assert forall|at: int| 0 <= at < count && #[trigger] leads(
            ports,
            at,
        ) implies all.contains(at) by {
            if at < count - 1 {
                assert(earlier.contains(at));
                let k = choose|k: int| 0 <= k < earlier.len() && earlier[k] == at;
                assert(all[k] == at);
            } else {
                assert(all[earlier.len() as int] == at);
            }
        }
    }
}

/// The first marked port of the keyboard that the marked port at `at` belongs
/// to.
proof fn first_port_of_keyboard(ports: Seq<PortInfo>, at: int) -> (first: int)
    requires
        0 <= at < ports.len(),
        is_rynk_port(ports[at]),
    ensures
        0 <= first <= at,
        leads(ports, first),
        same_keyboard(ports[first], ports[at]),
    decreases at,
{
    if leads(ports, at) {
        at
    } else {
        let before = choose|before: int|
            0 <= before < at && is_rynk_port(ports[before]) && same_keyboard(
                #[trigger] ports[before],
                ports[at],
            );
        first_port_of_keyboard(ports, before)
    }
}

/// Two USB ports with serial numbers are ports of one keyboard exactly if all
/// four agree: vendor, product, serial number and place.
pub proof fn keyboards_agree_in_all_four(
    one: PortInfo,
    other: PortInfo,
    serial: String,
    other_serial: String,
)
    requires
        one.port_type is UsbPort && one.port_type->serial_number == Some(serial),
        other.port_type is UsbPort && other.port_type->serial_number == Some(other_serial),
    ensures
        same_keyboard(one, other) <==> one.port_type->vid == other.port_type->vid
            && one.port_type->pid == other.port_type->pid && serial@ == other_serial@
            && one.port_type->place@ == other.port_type->place@,
{
}

/// Discovery lists one device per Rynk keyboard: no two of those listed are the
/// same keyboard, and every marked port belongs to one that is listed, by a
/// port that stands no later.
pub proof fn one_device_per_keyboard(ports: Seq<PortInfo>)
    ensures
        forall|k: int, l: int|
            0 <= k < l < keyboards(ports, ports.len()).len() ==> !same_keyboard(
                ports[#[trigger] keyboards(ports, ports.len())[k]],
                ports[#[trigger] keyboards(ports, ports.len())[l]],
            ),
        forall|at: int|
            0 <= at < ports.len() && is_rynk_port(#[trigger] ports[at]) ==> exists|k: int|
                0 <= k < keyboards(ports, ports.len()).len() && 0 <= #[trigger] keyboards(
                    ports,
                    ports.len(),
                )[k] <= at && same_keyboard(ports[keyboards(ports, ports.len())[k]], ports[at]),
{
    let listed = keyboards(ports, ports.len());
    keyboards_are_the_leading_ports(ports, ports.len());
    assert forall|k: int, l: int| 0 <= k < l < listed.len() implies !same_keyboard(
        ports[#[trigger] listed[k]],
        ports[#[trigger] listed[l]],
    ) by {
        assert(leads(ports, listed[k]));
        assert(leads(ports, listed[l]));
    }
    assert forall|at: int| 0 <= at < ports.len() && is_rynk_port(#[trigger] ports[at]) implies exists|
        k: int,
    |
        0 <= k < listed.len() && 0 <= #[trigger] listed[k] <= at && same_keyboard(
            ports[listed[k]],
            ports[at],
        ) by {
        let first = first_port_of_keyboard(ports, at);
        assert(listed.contains(first));
        let k = choose|k: int| 0 <= k < listed.len() && listed[k] == first;
        assert(0 <= listed[k] <= at);
    }
}

/// Discovery hides no port: every marked port is the one to open of a device
/// that is listed, or one of the others beside it.
pub proof fn every_marked_port_is_offered(
    devices: Seq<SerialDevice>,
    ports: Seq<PortInfo>,
    at: int,
)
    requires
        lists_keyboards(devices, ports),
        0 <= at < ports.len(),
        is_rynk_port(ports[at]),
    ensures
        exists|k: int|
            0 <= k < devices.len() && ((#[trigger] devices[k]).path@ == ports[at].port_name@
                || texts(devices[k].other_paths@).contains(ports[at].port_name@)),
{
    let name = ports[at].port_name@;
    let listed = keyboards(ports, ports.len());
    keyboards_are_the_leading_ports(ports, ports.len());
    let first = first_port_of_keyboard(ports, at);
    assert(listed.contains(first));
    let k = choose|k: int| 0 <= k < listed.len() && listed[k] == first;
    assert(device_paths(devices).len() == devices.len());
    assert(device_paths(devices)[k] == devices[k].path@);
    assert(keyboard_port_names(ports)[k] == ports[first].port_name@);
    if first < at {
        let behind = ports.skip(first + 1);
        names_where_holds_what_is_kept(behind, of_keyboard(ports[first]), name);
        assert(behind[at - first - 1] == ports[at]);
        assert(of_keyboard(ports[first])(behind[at - first - 1]));
    }
}

/// Every device that discovery lists is one of the marked ports.
pub proof fn devices_are_marked_ports(ports: Seq<PortInfo>, name: Seq<char>)
    requires
        keyboard_port_names(ports).contains(name),
    ensures
        rynk_port_names(ports).contains(name),
{
    let listed = keyboards(ports, ports.len());
    keyboards_are_the_leading_ports(ports, ports.len());
    let k = choose|k: int| 0 <= k < listed.len() && keyboard_port_names(ports)[k] == name;
    assert(leads(ports, listed[k]));
    assert(is_rynk_port(ports[listed[k]]) && ports[listed[k]].port_name@ == name);
    exactly_the_marked_ports_are_listed(ports, name);
}

/// When every marked port belongs to a keyboard of its own, discovery lists
/// them all; when they all belong to one keyboard, it lists just one.
pub proof fn devices_follow_the_keyboards(ports: Seq<PortInfo>)
    ensures
        (forall|k: int, l: int|
            0 <= k < l < ports.len() && is_rynk_port(ports[k]) && is_rynk_port(ports[l])
                ==> !same_keyboard(#[trigger] ports[k], #[trigger] ports[l]))
            ==> keyboard_port_names(ports) == rynk_port_names(ports),
        (forall|k: int, l: int|
            0 <= k < l < ports.len() && is_rynk_port(ports[k]) && is_rynk_port(ports[l])
                ==> same_keyboard(#[trigger] ports[k], #[trigger] ports[l]))
            ==> keyboard_port_names(ports).len() <= 1,
{
    if forall|k: int, l: int|
        0 <= k < l < ports.len() && is_rynk_port(ports[k]) && is_rynk_port(ports[l])
            ==> !same_keyboard(#[trigger] ports[k], #[trigger] ports[l]) {
        all_ports_lead(ports, ports.len());
        assert(ports.take(ports.len() as int) =~= ports);
    }
    if forall|k: int, l: int|
        0 <= k < l < ports.len() && is_rynk_port(ports[k]) && is_rynk_port(ports[l])
            ==> same_keyboard(#[trigger] ports[k], #[trigger] ports[l]) {
        let listed = keyboards(ports, ports.len());
        keyboards_are_the_leading_ports(ports, ports.len());
        if listed.len() > 1 {
            assert(leads(ports, listed[0]) && leads(ports, listed[1]));
            assert(listed[0] < listed[1]);
            assert(same_keyboard(ports[listed[0]], ports[listed[1]]));
        }
    }
}

proof fn all_ports_lead(ports: Seq<PortInfo>, count: nat)
    requires
        count <= ports.len(),
        forall|k: int, l: int|
            0 <= k < l < ports.len() && is_rynk_port(ports[k]) && is_rynk_port(ports[l])
                ==> !same_keyboard(#[trigger] ports[k], #[trigger] ports[l]),
    ensures
        keyboards(ports, count).map_values(|at: int| ports[at].port_name@) == rynk_port_names(
            ports.take(count as int),
        ),
    decreases count,
{
    let name = |at: int| ports[at].port_name@;
    if count == 0 {
        reveal(Seq::filter);
        assert(keyboards(ports, count).map_values(name) =~= rynk_port_names(ports.take(0)));
    } else {
        let last = count - 1;
        all_ports_lead(ports, last as nat);
        names_with_one_more(ports.take(last), ports[last], marked());
        assert(ports.take(count as int) =~= ports.take(last).push(ports[last]));
        assert(is_rynk_port(ports[last]) ==> leads(ports, last));
        assert(keyboards(ports, last as nat).push(last).map_values(name) =~= keyboards(
            ports,
            last as nat,
        ).map_values(name).push(name(last)));
    }
}

/// Where the ports stand that are kept, in order.
proof fn names_where_come_from(ports: Seq<PortInfo>, keep: spec_fn(PortInfo) -> bool) -> (at: Seq<
    int,
>)
    ensures
        at.len() == names_where(ports, keep).len(),
        forall|k: int|
            0 <= k < at.len() ==> 0 <= #[trigger] at[k] < ports.len() && keep(ports[at[k]])
                && names_where(ports, keep)[k] == ports[at[k]].port_name@,
        forall|k: int, l: int| 0 <= k < l < at.len() ==> #[trigger] at[k] < #[trigger] at[l],
        forall|i: int| 0 <= i < ports.len() && keep(#[trigger] ports[i]) ==> at.contains(i),
    decreases ports.len(),
{
    if ports.len() == 0 {
        reveal(Seq::filter);
        Seq::empty()
    } else {
        let front = ports.drop_last();
        let end = ports.len() - 1;
        assert(ports =~= front.push(ports.last()));
        names_with_one_more(front, ports.last(), keep);
        let earlier = names_where_come_from(front, keep);
        assert forall|k: int| 0 <= k < earlier.len() implies ports[#[trigger] earlier[k]]
            == front[earlier[k]] by {}
        let at = if keep(ports.last()) {
            earlier.push(end)
        } else {
            earlier
        };
        assert forall|i: int| 0 <= i < ports.len() && keep(#[trigger] ports[i]) implies at.contains(
            i,
        ) by {
            if i < end {
                assert(front[i] == ports[i]);
                assert(earlier.contains(i));
                let k = choose|k: int| 0 <= k < earlier.len() && earlier[k] == i;
                assert(at[k] == i);
            } else {
                assert(at[earlier.len() as int] == i);
            }
        }
        at
    }
}

/// The candidates are the names of the marked ports, each once, in the order in
/// which the operating system reported them, and of no others. `at` tells where
/// each stands.
pub proof fn candidates_are_the_marked_ports_in_order(
    ports: Vec<PortInfo>,
    paths: Result<Vec<String>, TransportError>,
) -> (at: Seq<int>)
    requires
        call_ensures(rynk_serial_ports, (Ok(ports),), paths) || call_ensures(
            candidates_blocking,
            (Ok(Ok(ports)),),
            paths,
        ),
    ensures
        paths is Ok,
        at.len() == paths->Ok_0@.len(),
        forall|k: int|
            0 <= k < at.len() ==> 0 <= #[trigger] at[k] < ports@.len() && is_rynk_port(
                ports@[at[k]],
            ) && paths->Ok_0@[k]@ == ports@[at[k]].port_name@,
        forall|k: int, l: int| 0 <= k < l < at.len() ==> #[trigger] at[k] < #[trigger] at[l],
        forall|i: int|
            0 <= i < ports@.len() && is_rynk_port(#[trigger] ports@[i]) ==> at.contains(i),
{
    let at = names_where_come_from(ports@, marked());
    let listed = paths->Ok_0@;
    assert(texts(listed).len() == listed.len());
    assert forall|k: int| 0 <= k < at.len() implies is_rynk_port(ports@[#[trigger] at[k]])
        && listed[k]@ == ports@[at[k]].port_name@ by {
        assert(marked()(ports@[at[k]]));
        assert(texts(listed)[k] == listed[k]@);
    }
    assert forall|i: int| 0 <= i < ports@.len() && is_rynk_port(
        #[trigger] ports@[i],
    ) implies at.contains(i) by {
        assert(marked()(ports@[i]));
    }
    at
}

/// The device offers the ports at these positions, the first to be opened, and
/// they are all those of one keyboard from there on.
spec fn offers(ports: Seq<PortInfo>, device: SerialDevice, at: Seq<int>) -> bool {
    &&& at.len() == device.other_paths@.len() + 1
    &&& device.path@ == ports[at[0]].port_name@
    &&& forall|m: int|
        0 <= m < device.other_paths@.len() ==> (#[trigger] device.other_paths@[m])@ == ports[at[m
            + 1]].port_name@
    &&& forall|m: int|
        0 <= m < at.len() ==> 0 <= #[trigger] at[m] < ports.len() && is_rynk_port(ports[at[m]])
            && same_keyboard(ports[at[0]], ports[at[m]])
    &&& forall|m: int, n: int| 0 <= m < n < at.len() ==> #[trigger] at[m] < #[trigger] at[n]
    &&& forall|i: int|
        at[0] <= i < ports.len() && same_keyboard(ports[at[0]], #[trigger] ports[i])
            ==> at.contains(i)
}

proof fn ports_of_a_device(ports: Seq<PortInfo>, device: SerialDevice, lead: int) -> (at: Seq<int>)
    requires
        0 <= lead < ports.len(),
        is_rynk_port(ports[lead]),
        device.path@ == ports[lead].port_name@,
        texts(device.other_paths@) == other_port_names(ports, lead),
    ensures
        at[0] == lead,
        offers(ports, device, at),
{
    let behind = ports.skip(lead + 1);
    let keep = of_keyboard(ports[lead]);
    let found = names_where_come_from(behind, keep);
    let at = seq![lead] + found.map_values(|k: int| lead + 1 + k);
    assert(texts(device.other_paths@).len() == device.other_paths@.len());
    assert forall|m: int| 1 <= m < at.len() implies #[trigger] at[m] == lead + 1 + found[m - 1]
        && ports[at[m]] == behind[found[m - 1]] by {}
    assert forall|m: int| 0 <= m < device.other_paths@.len() implies (
    #[trigger] device.other_paths@[m])@ == ports[at[m + 1]].port_name@ by {
        assert(texts(device.other_paths@)[m] == device.other_paths@[m]@);
        assert(at[m + 1] == lead + 1 + found[m]);
    }
    assert forall|m: int| 0 <= m < at.len() implies 0 <= #[trigger] at[m] < ports.len()
        && is_rynk_port(ports[at[m]]) && same_keyboard(ports[lead], ports[at[m]]) by {
        if m > 0 {
            assert(keep(behind[found[m - 1]]));
        }
    }
    assert forall|m: int, n: int| 0 <= m < n < at.len() implies #[trigger] at[m]
        < #[trigger] at[n] by {
        if m > 0 {
            assert(found[m - 1] < found[n - 1]);
        }
    }
    assert forall|i: int| lead <= i < ports.len() && same_keyboard(
        ports[lead],
        #[trigger] ports[i],
    ) implies at.contains(i) by {
        if i == lead {
            assert(at[0] == i);
        } else {
            assert(behind[i - lead - 1] == ports[i]);
            assert(keep(behind[i - lead - 1]));
            let k = choose|k: int| 0 <= k < found.len() && found[k] == i - lead - 1;
            assert(at[k + 1] == i);
        }
    }
    at
}

proof fn ports_of_the_devices(
    ports: Seq<PortInfo>,
    devices: Seq<SerialDevice>,
    count: nat,
) -> (at: Seq<Seq<int>>)
    requires
        lists_keyboards(devices, ports),
        count <= devices.len(),
    ensures
        at.len() == count,
        forall|k: int|
            0 <= k < count ==> offers(ports, devices[k], #[trigger] at[k]) && at[k][0] == keyboards(
                ports,
                ports.len(),
            )[k],
    decreases count,
{
    if count == 0 {
        Seq::empty()
    } else {
        let last = count - 1;
        let earlier = ports_of_the_devices(ports, devices, last as nat);
        let listed = keyboards(ports, ports.len());
        keyboards_are_the_leading_ports(ports, ports.len());
        assert(device_paths(devices).len() == devices.len());
        assert(device_paths(devices)[last] == devices[last].path@);
        assert(keyboard_port_names(ports)[last] == ports[listed[last]].port_name@);
        assert(leads(ports, listed[last]));
        let one = ports_of_a_device(ports, devices[last], listed[last]);
        earlier.push(one)
    }
}

proof fn devices_tell_keyboards_apart(
    ports: Seq<PortInfo>,
    devices: Seq<SerialDevice>,
    one: Seq<int>,
    other: Seq<int>,
    k: int,
    m: int,
    l: int,
    n: int,
)
    requires
        0 <= k < keyboards(ports, ports.len()).len(),
        0 <= l < keyboards(ports, ports.len()).len(),
        offers(ports, devices[k], one),
        offers(ports, devices[l], other),
        one[0] == keyboards(ports, ports.len())[k],
        other[0] == keyboards(ports, ports.len())[l],
        0 <= m < one.len(),
        0 <= n < other.len(),
    ensures
        k == l <==> ports[one[m]].port_type->vid == ports[other[n]].port_type->vid
            && ports[one[m]].port_type->pid == ports[other[n]].port_type->pid
            && ports[one[m]].port_type->serial_number->0@
            == ports[other[n]].port_type->serial_number->0@ && ports[one[m]].port_type->place@
            == ports[other[n]].port_type->place@,
{
    one_device_per_keyboard(ports);
    let listed = keyboards(ports, ports.len());
    assert(is_rynk_port(ports[one[m]]) && is_rynk_port(ports[other[n]]));
    assert(same_keyboard(ports[listed[k]], ports[one[m]]));
    assert(same_keyboard(ports[listed[l]], ports[other[n]]));
    if k < l {
        assert(!same_keyboard(ports[listed[k]], ports[listed[l]]));
    } else if l < k {
        assert(!same_keyboard(ports[listed[l]], ports[listed[k]]));
    }
}

/// Discovery parts the marked ports among the devices: `at` tells where the
/// ports of each device stand, the one to open first. Every marked port belongs
/// to a device, no other port does, and the order is that of the operating
/// system. Two ports belong to one device exactly if vendor, product, serial
/// number and place are the same: keyboards that differ in any of these are
/// different devices, and one keyboard is never listed twice.
#[verifier::rlimit(30)]
pub proof fn devices_part_the_marked_ports(
    ports: Vec<PortInfo>,
    devices: Result<Vec<SerialDevice>, TransportError>,
) -> (at: Seq<Seq<int>>)
    requires
        call_ensures(discover, (Ok(Ok(ports)),), devices),
    ensures
        devices is Ok,
        at.len() == devices->Ok_0@.len(),
        forall|k: int|
            0 <= k < at.len() ==> (#[trigger] at[k]).len() == devices->Ok_0@[k].other_paths@.len()
                + 1 && devices->Ok_0@[k].path@ == ports@[at[k][0]].port_name@,
        forall|k: int, m: int|
            0 <= k < at.len() && 0 <= m < devices->Ok_0@[k].other_paths@.len() ==> (
            #[trigger] devices->Ok_0@[k].other_paths@[m])@ == ports@[at[k][m + 1]].port_name@,
        forall|k: int, m: int|
            0 <= k < at.len() && 0 <= m < at[k].len() ==> 0 <= #[trigger] at[k][m] < ports@.len()
                && is_rynk_port(ports@[at[k][m]]),
        forall|k: int, m: int, n: int|
            0 <= k < at.len() && 0 <= m < n < at[k].len() ==> #[trigger] at[k][m]
                < #[trigger] at[k][n],
        forall|k: int, l: int|
            0 <= k < l < at.len() ==> (#[trigger] at[k])[0] < (#[trigger] at[l])[0],
        forall|i: int|
            0 <= i < ports@.len() && is_rynk_port(#[trigger] ports@[i]) ==> exists|k: int|
                0 <= k < at.len() && (#[trigger] at[k]).contains(i),
        forall|k: int, m: int, l: int, n: int|
            0 <= k < at.len() && 0 <= m < at[k].len() && 0 <= l < at.len() && 0 <= n < at[l].len()
                ==> (k == l <==> ports@[#[trigger] at[k][m]].port_type->vid
                == ports@[#[trigger] at[l][n]].port_type->vid && ports@[at[k][m]].port_type->pid
                == ports@[at[l][n]].port_type->pid
                && ports@[at[k][m]].port_type->serial_number->0@
                == ports@[at[l][n]].port_type->serial_number->0@
                && ports@[at[k][m]].port_type->place@ == ports@[at[l][n]].port_type->place@),
{
    let listed = keyboards(ports@, ports@.len());
    let found = devices->Ok_0@;
    keyboards_are_the_leading_ports(ports@, ports@.len());
    assert(device_paths(found).len() == found.len());
    let at = ports_of_the_devices(ports@, found, found.len());
    assert forall|i: int| 0 <= i < ports@.len() && is_rynk_port(#[trigger] ports@[i]) implies exists|
        k: int,
    |
        0 <= k < at.len() && (#[trigger] at[k]).contains(i) by {
        let first = first_port_of_keyboard(ports@, i);
        let k = choose|k: int| 0 <= k < listed.len() && listed[k] == first;
        assert(offers(ports@, found[k], at[k]));
        assert(at[k].contains(i));
    }
    assert forall|k: int, m: int, l: int, n: int|
        0 <= k < at.len() && 0 <= m < at[k].len() && 0 <= l < at.len() && 0 <= n
            < at[l].len() implies (k == l <==> ports@[#[trigger] at[k][m]].port_type->vid
        == ports@[#[trigger] at[l][n]].port_type->vid && ports@[at[k][m]].port_type->pid
        == ports@[at[l][n]].port_type->pid && ports@[at[k][m]].port_type->serial_number->0@
        == ports@[at[l][n]].port_type->serial_number->0@ && ports@[at[k][m]].port_type->place@
        == ports@[at[l][n]].port_type->place@) by {
        assert(offers(ports@, found[k], at[k]));
        assert(offers(ports@, found[l], at[l]));
        devices_tell_keyboards_apart(ports@, found, at[k], at[l], k, m, l, n);
    }
    at
}

/// Where the operating system does not tell the location, ports of different
/// names are never taken for one keyboard; where it does, that is the place.
pub proof fn untold_places_are_kept_apart(
    location: String,
    told: String,
    one: PortInfo,
    one_name: &str,
    one_place: String,
    other: PortInfo,
    other_name: &str,
    other_place: String,
)
    requires
        call_ensures(usb_place, (Some(location), one_name), told),
        call_ensures(usb_place, (None, one_name), one_place),
        call_ensures(usb_place, (None, other_name), other_place),
        one.port_type is UsbPort && one.port_type->place == one_place,
        other.port_type is UsbPort && other.port_type->place == other_place,
        one_name@ != other_name@,
    ensures
        told@ == location@,
        !same_keyboard(one, other),
{
}

/// The port that is opened is the one of the device, and what answers there is
/// what the link holds. A port that cannot be opened is named in the failure,
/// with the reason.
pub proof fn device_is_opened_at_its_path<'a, S, E>(
    device: SerialDevice,
    stream: Result<S, String>,
    next: Result<SerialTransport<S>, ConnectError<E>>,
    path: &'a str,
    held: S,
)
    requires
        call_ensures(SerialDevice::connect::<S, E>, (&device, stream), next),
        call_ensures(SerialTransport::<S>::path, (&next->Ok_0,), path),
        call_ensures(SerialTransport::<S>::into_stream, (next->Ok_0,), held),
    ensures
        next is Ok <==> stream is Ok,
        stream is Ok ==> path@ == device.path@ && held == stream->Ok_0,
        stream matches Err(text) ==> (next matches Err(ConnectError::Transport(error)) && error@
            == TransportFault::Io("open "@ + device.path@ + ": "@ + text@)),
{
}

/// A port counts as one to connect to exactly if the attempt to connect brought
/// a version, and then under its own path and with that version.
pub proof fn only_answering_ports_are_probed_well<V, E>(
    path: String,
    version: Result<V, ConnectError<E>>,
    device: Option<ProbedDevice<V>>,
)
    requires
        call_ensures(probe_device::<V, E>, (path, version), device),
    ensures
        device is Some <==> version is Ok,
        device is Some ==> device->0.path@ == path@ && device->0.version == version->Ok_0,
{
}

/// Going from port to port takes the ports of a device one by one, in their
/// order, and ends behind the last.
pub proof fn ports_take_their_turns(device: SerialDevice, next: Option<SerialDevice>)
    requires
        call_ensures(SerialDevice::at_next_port, (device,), next),
    ensures
        next is None <==> device.other_paths@.len() == 0,
        next is Some ==> seq![device.path] + (seq![next->0.path] + next->0.other_paths@) == seq![
            device.path,
        ] + device.other_paths@,
{
    if next is Some {
        assert(seq![next->0.path] + next->0.other_paths@ =~= device.other_paths@);
    }
}

/// When the ports cannot be listed, the failure is told in its own words,
/// whether the listing failed or the task that ran it.
pub proof fn enumeration_failures_are_told(
    text: String,
    listed: Result<Vec<String>, TransportError>,
    candidates: Result<Vec<String>, TransportError>,
    devices: Result<Vec<SerialDevice>, TransportError>,
)
    requires
        call_ensures(rynk_serial_ports, (Err(text),), listed),
        call_ensures(candidates_blocking, (Ok(Err(text)),), candidates) || call_ensures(
            candidates_blocking,
            (Err(text),),
            candidates,
        ),
        call_ensures(discover, (Ok(Err(text)),), devices) || call_ensures(
            discover,
            (Err(text),),
            devices,
        ),
    ensures
        listed is Err && listed->Err_0@ == TransportFault::Io(text@),
        candidates is Err && candidates->Err_0@ == TransportFault::Io(text@),
        devices is Err && devices->Err_0@ == TransportFault::Io(text@),
{
}

/// The marker is found whatever stands around it, so a keyboard whose firmware
/// prepends it is recognized whatever serial number its user configured, and
/// in whichever case the host reports it.
pub proof fn prepended_marker_is_recognized(
    port: PortInfo,
    serial: String,
    before: Seq<char>,
    marker: Seq<char>,
    after: Seq<char>,
)
    requires
        port.port_type matches PortType::UsbPort { serial_number, .. } && serial_number == Some(
            serial,
        ),
        serial@ == before + marker + after,
        ascii_lowercase(marker) == serial_magic(),
    ensures
        is_rynk_port(port),
{
    let lower = ascii_lowercase(serial@);
    let at = before.len() as int;
    assert(lower.subrange(at, at + serial_magic().len()) =~= serial_magic());
    assert(stands_at(lower, serial_magic(), at));
}

/// A USB port is recognized exactly if the five characters of the marker stand
/// somewhere in its serial number, one behind the other, each letter in either
/// case; no other serial number will do, however long.
pub proof fn marker_stands_in_every_recognized_serial(
    port: PortInfo,
    vid: u16,
    pid: u16,
    serial: String,
    place: String,
)
    requires
        port.port_type == (PortType::UsbPort { vid, pid, serial_number: Some(serial), place }),
    ensures
        is_rynk_port(port) <==> exists|at: int|
            0 <= at && at + 5 <= serial@.len() && (#[trigger] serial@[at] == 'r' || serial@[at]
                == 'R') && (serial@[at + 1] == 'y' || serial@[at + 1] == 'Y') && (serial@[at + 2]
                == 'n' || serial@[at + 2] == 'N') && (serial@[at + 3] == 'k' || serial@[at + 3]
                == 'K') && serial@[at + 4] == ':',
{
    reveal_strlit("rynk:");
    let lower = ascii_lowercase(serial@);
    let magic = serial_magic();
    assert(magic.len() == 5);
    if is_rynk_port(port) {
        let at = choose|at: int| #[trigger] stands_at(lower, magic, at);
        let window = lower.subrange(at, at + 5);
        assert(window[0] == 'r' && window[1] == 'y' && window[2] == 'n' && window[3] == 'k'
            && window[4] == ':');
        assert(lower[at] == 'r' && lower[at + 1] == 'y' && lower[at + 2] == 'n' && lower[at + 3]
            == 'k' && lower[at + 4] == ':');
        lower_case_comes_from_either(serial@[at]);
        lower_case_comes_from_either(serial@[at + 1]);
        lower_case_comes_from_either(serial@[at + 2]);
        lower_case_comes_from_either(serial@[at + 3]);
        lower_case_comes_from_either(serial@[at + 4]);
    }
    if exists|at: int|
        0 <= at && at + 5 <= serial@.len() && (#[trigger] serial@[at] == 'r' || serial@[at] == 'R')
            && (serial@[at + 1] == 'y' || serial@[at + 1] == 'Y') && (serial@[at + 2] == 'n'
            || serial@[at + 2] == 'N') && (serial@[at + 3] == 'k' || serial@[at + 3] == 'K')
            && serial@[at + 4] == ':' {
        let at = choose|at: int|
            0 <= at && at + 5 <= serial@.len() && (#[trigger] serial@[at] == 'r' || serial@[at]
                == 'R') && (serial@[at + 1] == 'y' || serial@[at + 1] == 'Y') && (serial@[at + 2]
                == 'n' || serial@[at + 2] == 'N') && (serial@[at + 3] == 'k' || serial@[at + 3]
                == 'K') && serial@[at + 4] == ':';
        assert(lower.subrange(at, at + 5) =~= magic);
        assert(stands_at(lower, magic, at));
    }
}

/// What a character in lower case can come from.
proof fn lower_case_comes_from_either(c: char)
    ensures
        ascii_lower(c) == 'r' ==> c == 'r' || c == 'R',
        ascii_lower(c) == 'y' ==> c == 'y' || c == 'Y',
        ascii_lower(c) == 'n' ==> c == 'n' || c == 'N',
        ascii_lower(c) == 'k' ==> c == 'k' || c == 'K',
        ascii_lower(c) == ':' ==> c == ':',
{
}

/// A serial number that is recognized comes apart into the marker, in whichever
/// case, and what stands before and behind it.
pub proof fn recognized_serial_holds_the_marker(port: PortInfo, serial: String) -> (parts: (
    Seq<char>,
    Seq<char>,
    Seq<char>,
))
    requires
        port.port_type matches PortType::UsbPort { serial_number, .. } && serial_number == Some(
            serial,
        ),
        is_rynk_port(port),
    ensures
        serial@ == parts.0 + parts.1 + parts.2,
        ascii_lowercase(parts.1) == "rynk:"@,
{
    let lower = ascii_lowercase(serial@);
    let at = choose|at: int| #[trigger] stands_at(lower, serial_magic(), at);
    let end = at + serial_magic().len();
    let marker = serial@.subrange(at, end);
    assert(ascii_lowercase(marker) =~= lower.subrange(at, end));
    assert(serial@ =~= serial@.take(at) + marker + serial@.skip(end));
    (serial@.take(at), marker, serial@.skip(end))
}

/// A port that is not on USB, or whose USB device has no serial number, is
/// never taken for a Rynk keyboard.
pub proof fn other_ports_are_not_recognized(port: PortInfo)
    requires
        !(port.port_type matches PortType::UsbPort { serial_number: Some(_), .. }),
    ensures
        !is_rynk_port(port),
{
}

} // verus!
