use std::future::Future;
use std::time::Duration;

use rynk_transport::attach::{
    attach, Attach, RynkChars, Subscription, ATTACH_ATTEMPTS, CONNECT_TIMEOUT_MS,
    DISCOVER_TIMEOUT_MS, RETRY_PAUSE_MS,
};
use rynk_transport::ble::{discover, BleDevice, BleTransport, FoundDevice};
use rynk_transport::bridge::{
    chunk_forwarded, forward_notifications, notify_bridge, Forwarding, BRIDGE_CHANNEL_CAPACITY,
};
use rynk_transport::chunk::{ChunkReader, ReadStep};
use rynk_transport::error::{ConnectError, TransportError};
use rynk_transport::gatt::{discover_chars, discover_service, write_chunk, GattWriter};
use rynk_transport::handshake::opened;
use tokio::sync::mpsc;

const SERVICE: u128 = 0x10900067_537f_4f0a_9b55_929e271f61ab;
const INPUT: u128 = 0x80f9319b_0c74_43a5_9738_c59d6dda3db9;
const OUTPUT: u128 = 0x19802524_6f90_4346_93c2_63dbc509ab55;

fn text(s: &str) -> String {
    s.to_string()
}

fn block_on<T>(work: impl Future<Output = T>) -> T {
    tokio::runtime::Builder::new_current_thread().enable_time().build().unwrap().block_on(work)
}

/// Runs the bridge over `items` until it stops.
async fn forward_all<E>(items: impl IntoIterator<Item = Result<Vec<u8>, E>>, chunks: mpsc::Sender<Vec<u8>>) {
    let mut items = items.into_iter();
    let mut next = Forwarding::Listen;
    loop {
        next = match next {
            Forwarding::Listen => forward_notifications(items.next()),
            Forwarding::Deliver(chunk) => chunk_forwarded(chunks.send(chunk).await.is_ok()),
            Forwarding::Stopped => return,
        };
    }
}

/// One read against the channel; `None` if it would have to wait.
fn read(reader: &mut ChunkReader, chunks: &mut mpsc::Receiver<Vec<u8>>, buf: &mut [u8]) -> Option<usize> {
    loop {
        match reader.read(buf) {
            ReadStep::Read(n) => return Some(n),
            ReadStep::NeedChunk => {}
        }
        let chunk = match chunks.try_recv() {
            Ok(chunk) => Some(chunk),
            Err(mpsc::error::TryRecvError::Disconnected) => None,
            Err(mpsc::error::TryRecvError::Empty) => return None,
        };
        if let Some(n) = reader.receive(chunk) {
            return Some(n);
        }
    }
}

#[test]
fn forwards_chunks_until_stream_ends() {
    let (tx, mut rx) = mpsc::channel(4);
    let items: Vec<Result<Vec<u8>, ()>> = vec![Ok(vec![1, 2]), Ok(vec![3])];
    block_on(forward_all(items, tx));
    assert_eq!(rx.blocking_recv(), Some(vec![1, 2]));
    assert_eq!(rx.blocking_recv(), Some(vec![3]));
    // The sender is gone, so the transport reads the end of the stream.
    assert_eq!(rx.blocking_recv(), None);
}

#[test]
fn stops_at_first_stream_error() {
    let (tx, mut rx) = mpsc::channel(4);
    let items: Vec<Result<Vec<u8>, ()>> = vec![Ok(vec![1]), Err(()), Ok(vec![2])];
    block_on(forward_all(items, tx));
    assert_eq!(rx.blocking_recv(), Some(vec![1]));
    assert_eq!(rx.blocking_recv(), None, "chunks after the error must not be forwarded");
}

#[test]
fn stops_when_transport_is_dropped() {
    let (tx, rx) = mpsc::channel(1);
    drop(rx);
    // Endless stream: returns only because the receiver is gone. The timeout
    // turns a bridge that goes on for good into a failure.
    let endless = std::iter::repeat_with(|| Ok::<_, ()>(vec![0u8]));
    block_on(async { tokio::time::timeout(Duration::from_secs(1), forward_all(endless, tx)).await })
        .expect("forward_notifications must return when the receiver is dropped");
}

#[test]
fn chunk_reader_doles_chunk_across_reads() {
    let (tx, mut rx) = mpsc::channel(2);
    let mut r = ChunkReader::new();
    tx.blocking_send(vec![1, 2, 3, 4, 5]).unwrap();
    drop(tx);

    let mut buf = [0u8; 2];
    assert_eq!(read(&mut r, &mut rx, &mut buf).unwrap(), 2);
    assert_eq!(buf, [1, 2]);
    assert_eq!(read(&mut r, &mut rx, &mut buf).unwrap(), 2);
    assert_eq!(buf, [3, 4]);
    assert_eq!(read(&mut r, &mut rx, &mut buf).unwrap(), 1);
    assert_eq!(buf[0], 5);
    // Channel closed and drained: the end of the stream.
    assert_eq!(read(&mut r, &mut rx, &mut buf).unwrap(), 0);
}

#[test]
fn chunk_reader_skips_empty_chunks() {
    let (tx, mut rx) = mpsc::channel(2);
    let mut r = ChunkReader::new();
    tx.blocking_send(Vec::new()).unwrap();
    tx.blocking_send(vec![7]).unwrap();
    drop(tx);

    let mut buf = [0u8; 4];
    assert_eq!(read(&mut r, &mut rx, &mut buf).unwrap(), 1, "empty chunk must not read as EOF");
    assert_eq!(buf[0], 7);
}

#[test]
fn chunk_reader_read_is_cancel_safe() {
    let (tx, mut rx) = mpsc::channel(2);
    let mut r = ChunkReader::new();
    let mut buf = [0u8; 4];
    // A read with nothing buffered has to wait for the channel, and is given up.
    assert!(
        matches!(read(&mut r, &mut rx, &mut buf), None),
        "read must park on an empty channel, not resolve"
    );
    // Bytes sent after the cancelled read are still delivered intact.
    tx.blocking_send(vec![1, 2, 3]).unwrap();
    drop(tx);
    assert_eq!(read(&mut r, &mut rx, &mut buf).unwrap(), 3);
    assert_eq!(&buf[..3], &[1, 2, 3]);
}

#[test]
fn rest_of_the_buffer_stays_untouched() {
    let mut r = ChunkReader::new();
    assert!(r.receive(Some(vec![1, 2])).is_none());
    let mut buf = [9u8; 5];
    assert!(matches!(r.read(&mut buf), ReadStep::Read(2)));
    assert_eq!(buf, [1, 2, 9, 9, 9]);
    assert!(matches!(r.read(&mut buf), ReadStep::NeedChunk));
    assert_eq!(buf, [1, 2, 9, 9, 9]);
}

#[test]
fn read_without_room_takes_nothing() {
    let mut r = ChunkReader::new();
    assert!(r.receive(Some(vec![4])).is_none());
    let mut none: [u8; 0] = [];
    assert!(matches!(r.read(&mut none), ReadStep::Read(0)));
    let mut one = [0u8; 1];
    assert!(matches!(r.read(&mut one), ReadStep::Read(1)));
    assert_eq!(one, [4]);
}

#[test]
fn closed_channel_ends_the_stream() {
    let mut r = ChunkReader::new();
    assert_eq!(r.receive(None), Some(0));
    assert_eq!(r.receive(None), Some(0));
}

#[test]
fn client_reads_the_notified_bytes() {
    let (tx, mut rx) = mpsc::channel(BRIDGE_CHANNEL_CAPACITY);
    let items: Vec<Result<Vec<u8>, ()>> = vec![Ok(vec![1, 2, 3]), Ok(vec![]), Ok(vec![4]), Err(()), Ok(vec![5])];
    block_on(forward_all(items, tx));
    let mut r = ChunkReader::new();
    let mut all = Vec::new();
    let mut buf = [0u8; 2];
    loop {
        let n = read(&mut r, &mut rx, &mut buf).unwrap();
        if n == 0 {
            break;
        }
        all.extend_from_slice(&buf[..n]);
    }
    assert_eq!(all, vec![1, 2, 3, 4]);
    assert_eq!(BRIDGE_CHANNEL_CAPACITY, 32);
}

#[test]
fn bridge_answers_the_subscription() {
    let (ack, notifications) = notify_bridge(Ok::<u32, String>(7));
    assert!(ack.is_ok());
    assert_eq!(notifications, Some(7));

    let (ack, notifications) = notify_bridge::<u32>(Err(text("not permitted")));
    assert!(matches!(ack, Err(TransportError::Io(m)) if m == "not permitted"));
    assert_eq!(notifications, None);
}

#[test]
fn first_service_is_used() {
    assert!(matches!(discover_service(Ok(vec!["a", "b"])), Ok("a")));
    assert!(matches!(
        discover_service::<&str>(Ok(vec![])),
        Err(TransportError::DeviceNotFound(m)) if m == "Rynk GATT service not found"
    ));
    assert!(matches!(discover_service::<&str>(Err(text("gone"))), Err(TransportError::Io(m)) if m == "gone"));
}

#[test]
fn characteristics_are_found_by_uuid() {
    let pair = discover_chars(Ok(vec![(OUTPUT, 'o'), (1, 'x'), (INPUT, 'i')]));
    assert!(matches!(pair, Ok(('i', 'o'))));
    // The last one listed under a UUID counts.
    let pair = discover_chars(Ok(vec![(INPUT, 'a'), (OUTPUT, 'b'), (INPUT, 'c'), (OUTPUT, 'd'), (2, 'e')]));
    assert!(matches!(pair, Ok(('c', 'd'))));
}

#[test]
fn missing_characteristics_are_reported() {
    let missing = |found: Vec<(u128, char)>| match discover_chars(Ok(found)) {
        Err(TransportError::DeviceNotFound(m)) => m,
        _ => panic!("expected a missing characteristic"),
    };
    assert_eq!(missing(vec![(OUTPUT, 'o')]), "input characteristic missing");
    assert_eq!(missing(vec![]), "input characteristic missing");
    assert_eq!(missing(vec![(INPUT, 'i')]), "output characteristic missing");
    assert!(matches!(
        discover_chars::<char>(Err(text("link lost"))),
        Err(TransportError::Io(m)) if m == "link lost"
    ));
}

#[test]
fn write_size_is_clamped() {
    assert_eq!(write_chunk(Err::<usize, ()>(())), 20);
    assert_eq!(write_chunk(Ok::<usize, ()>(0)), 20);
    assert_eq!(write_chunk(Ok::<usize, ()>(19)), 20);
    assert_eq!(write_chunk(Ok::<usize, ()>(20)), 20);
    assert_eq!(write_chunk(Ok::<usize, ()>(100)), 100);
    assert_eq!(write_chunk(Ok::<usize, ()>(244)), 244);
    assert_eq!(write_chunk(Ok::<usize, ()>(512)), 244);
}

#[test]
fn repeated_writes_send_everything() {
    let writer = GattWriter::new("out", Ok::<usize, ()>(30));
    assert_eq!(*writer.output_char(), "out");
    let data: Vec<u8> = (0..75u8).collect();
    let mut sent: Vec<Vec<u8>> = Vec::new();
    let mut rest: &[u8] = &data;
    while !rest.is_empty() {
        let write = writer.write(rest);
        sent.push(write.bytes().to_vec());
        let n = write.finish(Ok(())).unwrap();
        rest = &rest[n..];
    }
    assert_eq!(sent.iter().map(|w| w.len()).collect::<Vec<_>>(), vec![30, 30, 15]);
    assert_eq!(sent.concat(), data);
    // No write is cut below what every link carries.
    let slow = GattWriter::new("out", Ok::<usize, ()>(1));
    assert_eq!(slow.write(&data).bytes().len(), 20);
    assert_eq!(writer.write(&[]).finish(Ok(())).unwrap(), 0);
}

#[test]
fn failed_write_names_its_reason() {
    let writer = GattWriter::new((), Err::<usize, ()>(()));
    let error = writer.write(&[1, 2]).finish(Err(text("not connected"))).unwrap_err();
    assert_eq!(error.message(), "gatt write: not connected");
}

fn chars(max_write_len: Result<usize, String>) -> RynkChars<char> {
    RynkChars {
        input: 'i',
        output: 'o',
        max_write_len,
    }
}

/// Takes an attach from connecting to subscribing.
fn up_to_subscribe(step: Attach<&'static str, char>) -> Attach<&'static str, char> {
    let Attach::Connect(connecting) = step else {
        panic!("expected to connect")
    };
    assert_eq!(*connecting.device(), "board");
    let Attach::Discover(discovering) = connecting.connected::<char>(Some(Ok(()))) else {
        panic!("expected to discover")
    };
    assert_eq!(*discovering.device(), "board");
    assert_eq!(discovering.service(), SERVICE);
    discovering.discovered(Some(Ok(chars(Ok(185)))))
}

fn attached(step: Attach<&'static str, char>) -> BleTransport<&'static str, char> {
    match step {
        Attach::Attached(transport) => transport,
        _ => panic!("expected an attached link"),
    }
}

fn failure(step: Attach<&'static str, char>) -> TransportError {
    match step {
        Attach::Failed(error) => error,
        _ => panic!("expected a failed attach"),
    }
}

#[test]
fn attach_succeeds_at_once() {
    let Attach::Subscribe(input, subscribing) = up_to_subscribe(attach("board")) else {
        panic!("expected to subscribe")
    };
    assert_eq!(input, 'i');
    assert_eq!(*subscribing.device(), "board");
    let mut transport = attached(subscribing.subscribed(Subscription::Active { name: Ok(text("Board")) }));
    assert_eq!(*transport.device(), "board");
    assert_eq!(transport.device_name(), Some("Board"));
    assert_eq!(transport.write(&[0; 300]).bytes().len(), 185);

    let mut buf = [0u8; 2];
    assert!(matches!(transport.read(&mut buf), ReadStep::NeedChunk));
    assert!(transport.receive(Some(vec![8, 9, 10])).is_none());
    assert!(matches!(transport.read(&mut buf), ReadStep::Read(2)));
    assert_eq!(buf, [8, 9]);

    let (writer, mut reader) = transport.split();
    assert_eq!(*writer.output_char(), 'o');
    assert!(matches!(reader.read(&mut buf), ReadStep::Read(1)));
    assert_eq!(buf[0], 10);
}

#[test]
fn unreadable_name_is_no_name() {
    let Attach::Subscribe(_, subscribing) = up_to_subscribe(attach("board")) else {
        panic!("expected to subscribe")
    };
    let transport = attached(subscribing.subscribed(Subscription::Active { name: Err(text("no name")) }));
    assert_eq!(transport.device_name(), None);
}

#[test]
fn timeouts_end_the_attach() {
    let Attach::Connect(connecting) = attach::<_, char>("board") else {
        panic!("expected to connect")
    };
    assert!(matches!(
        failure(connecting.connected(None)),
        TransportError::Io(m) if m == "connect_device timed out"
    ));

    let Attach::Connect(connecting) = attach::<_, char>("board") else {
        panic!("expected to connect")
    };
    let Attach::Discover(discovering) = connecting.connected::<char>(Some(Ok(()))) else {
        panic!("expected to discover")
    };
    assert!(matches!(
        failure(discovering.discovered(None)),
        TransportError::Io(m) if m == "service discovery timed out"
    ));
}

#[test]
fn foreign_device_ends_the_attach() {
    let Attach::Connect(connecting) = attach::<_, char>("board") else {
        panic!("expected to connect")
    };
    let Attach::Discover(discovering) = connecting.connected::<char>(Some(Ok(()))) else {
        panic!("expected to discover")
    };
    let error = TransportError::DeviceNotFound(text("input characteristic missing"));
    assert!(matches!(
        failure(discovering.discovered(Some(Err(error)))),
        TransportError::DeviceNotFound(m) if m == "input characteristic missing"
    ));
}

#[test]
fn every_passing_failure_is_retried_until_the_last() {
    let mut step = attach::<_, char>("board");
    let mut connects = 0;
    let mut pauses = 0;
    loop {
        step = match step {
            Attach::Pause(pausing) => {
                pauses += 1;
                assert_eq!(pausing.attempt(), pauses);
                assert!(matches!(pausing.last_error(), TransportError::Io(m)
                    if *m == format!("connect_device: try {}", pauses - 1)));
                pausing.resume()
            }
            Attach::Connect(connecting) => {
                let answer = Some(Err(format!("try {connects}")));
                connects += 1;
                connecting.connected(answer)
            }
            ended => {
                assert!(matches!(failure(ended), TransportError::Io(m) if m == "connect_device: try 5"));
                break;
            }
        };
    }
    assert_eq!((connects, pauses), (6, 5));
    assert_eq!(ATTACH_ATTEMPTS, 6);
    assert_eq!((RETRY_PAUSE_MS, CONNECT_TIMEOUT_MS, DISCOVER_TIMEOUT_MS), (500, 5000, 5000));
}

#[test]
fn lost_keyboard_is_a_connect_error() {
    let mut step = attach::<_, char>("board");
    let error = loop {
        step = match step {
            Attach::Pause(pausing) => pausing.resume(),
            Attach::Connect(connecting) => connecting.connected(Some(Err(text("host is down")))),
            ended => break failure(ended),
        };
    };
    let connect: Result<BleTransport<&'static str, char>, ConnectError<()>> = opened(Err(error));
    assert!(matches!(
        connect,
        Err(ConnectError::Transport(TransportError::Io(m))) if m == "connect_device: host is down"
    ));
}

#[test]
fn attach_recovers_from_passing_failures() {
    // Discovery fails once, the subscription is refused, then the bridge dies.
    let Attach::Connect(connecting) = attach::<_, char>("board") else {
        panic!("expected to connect")
    };
    let Attach::Discover(discovering) = connecting.connected::<char>(Some(Ok(()))) else {
        panic!("expected to discover")
    };
    let lost = TransportError::Io(text("link lost"));
    let Attach::Pause(pausing) = discovering.discovered::<char>(Some(Err(lost))) else {
        panic!("expected a pause")
    };
    assert!(matches!(pausing.last_error(), TransportError::Io(m) if m == "link lost"));

    let Attach::Subscribe(_, subscribing) = up_to_subscribe(pausing.resume()) else {
        panic!("expected to subscribe")
    };
    let refused = TransportError::Io(text("busy"));
    let Attach::Pause(pausing) = subscribing.subscribed(Subscription::Refused(refused)) else {
        panic!("expected a pause")
    };
    assert!(matches!(pausing.last_error(), TransportError::Io(m) if m == "busy"));

    let Attach::Subscribe(_, subscribing) = up_to_subscribe(pausing.resume()) else {
        panic!("expected to subscribe")
    };
    let Attach::Pause(pausing) = subscribing.subscribed(Subscription::NoAnswer) else {
        panic!("expected a pause")
    };
    assert!(matches!(pausing.last_error(), TransportError::Disconnected));
    assert_eq!(pausing.attempt(), 3);

    let Attach::Subscribe(_, subscribing) = up_to_subscribe(pausing.resume()) else {
        panic!("expected to subscribe")
    };
    attached(subscribing.subscribed(Subscription::Active { name: Ok(text("Board")) }));
}

#[test]
fn discovery_lists_connected_keyboards() {
    let wait = discover(Some("hci0")).unwrap_or_else(|_| panic!("adapter is there"));
    assert_eq!(*wait.adapter(), "hci0");
    let query = wait.available(Ok(())).unwrap_or_else(|_| panic!("adapter is available"));
    assert_eq!(*query.adapter(), "hci0");
    assert_eq!(query.service(), SERVICE);
    let found = vec![
        FoundDevice { name: Ok(text("Board")), id: text("aa"), device: 1 },
        FoundDevice { name: Err(text("no name")), id: text("bb"), device: 2 },
        FoundDevice { name: Ok(text("Board")), id: text("cc"), device: 3 },
    ];
    let devices: Vec<BleDevice<String, i32>> = query.connected(Ok(found)).unwrap();
    let listed: Vec<(Option<&str>, &str, i32)> =
        devices.iter().map(|d| (d.name.as_deref(), d.id().as_str(), d.device)).collect();
    assert_eq!(listed, vec![(Some("Board"), "aa", 1), (None, "bb", 2), (Some("Board"), "cc", 3)]);
}

#[test]
fn connecting_goes_to_the_chosen_device() {
    let query = discover(Some(())).ok().and_then(|wait| wait.available(Ok(())).ok());
    let found = vec![
        FoundDevice { name: Ok(text("Board")), id: 'a', device: 1 },
        FoundDevice { name: Ok(text("Board")), id: 'b', device: 2 },
    ];
    let devices: Vec<BleDevice<char, i32>> = query.expect("adapter is available").connected(Ok(found)).unwrap();
    let mut step = devices[1].connect::<char>();
    // Every attempt, up to the last, is one to connect to the second device.
    let mut targets = Vec::new();
    loop {
        step = match step {
            Attach::Connect(connecting) => {
                targets.push(**connecting.device());
                connecting.connected(Some(Err(text("busy"))))
            }
            Attach::Pause(pausing) => pausing.resume(),
            _ => break,
        };
    }
    assert_eq!(targets, vec![2; 6]);
}

#[test]
fn discovery_failures_are_reported() {
    assert!(matches!(
        discover::<()>(None),
        Err(TransportError::DeviceNotFound(m)) if m == "no BLE adapter"
    ));
    let wait = discover(Some(())).unwrap_or_else(|_| panic!("adapter is there"));
    assert!(matches!(wait.available(Err(text("off"))), Err(TransportError::Io(m)) if m == "off"));
    let wait = discover(Some(())).unwrap_or_else(|_| panic!("adapter is there"));
    let query = wait.available(Ok(())).unwrap_or_else(|_| panic!("adapter is available"));
    assert!(matches!(query.connected::<(), ()>(Err(text("denied"))), Err(TransportError::Io(m)) if m == "denied"));
}
