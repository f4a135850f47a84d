//! Attaching to a BLE keyboard: connect, discover, subscribe, with retries.
//!
//! GATT can briefly fail after a reconnect, so an attempt that fails fast is
//! made again, a few times. A step that times out means that the device is out
//! of reach, and discovery that finds no Rynk service means that it is no Rynk
//! device: neither is tried again.

use vstd::prelude::*;

use crate::ble::{BleTransport, LinkState};
use crate::chunk::ChunkReader;
use crate::error::{ConnectFault, TransportError, TransportFault};
use crate::gatt::{write_size, GattWrite, GattWriter, BLE_SAFE_WRITE};
use crate::handshake::connect_end;
use crate::protocol::{ble_chunk_size, rynk_service_uuid, service_uuid};

verus! {

/// How often the link is tried in all.
pub const ATTACH_ATTEMPTS: u8 = 6;

/// Pause before every attempt but the first, in milliseconds.
pub const RETRY_PAUSE_MS: u64 = 500;

/// Bound on connecting to the device, in milliseconds.
pub const CONNECT_TIMEOUT_MS: u64 = 5_000;

/// Bound on discovering its services and characteristics, in milliseconds.
pub const DISCOVER_TIMEOUT_MS: u64 = 5_000;

/// What an attach does next. Each variant that waits for something outside
/// holds a value that turns the answer into the next step.
pub enum Attach<D, C> {
    /// Wait [`RETRY_PAUSE_MS`].
    Pause(Pausing<D>),
    /// Connect to the device, within [`CONNECT_TIMEOUT_MS`].
    Connect(Connecting<D>),
    /// Discover the characteristics, within [`DISCOVER_TIMEOUT_MS`].
    Discover(Discovering<D>),
    /// Start the notification bridge on this input characteristic and wait for
    /// its answer. Unless the link is attached then, the bridge has to go.
    Subscribe(C, Subscribing<D, C>),
    /// The link is up.
    Attached(BleTransport<D, C>),
    /// The device is given up.
    Failed(TransportError),
}

/// Before another attempt.
pub struct Pausing<D> {
    device: D,
    attempt: u8,
    after: TransportError,
}

/// An attempt that connects.
pub struct Connecting<D> {
    device: D,
    attempt: u8,
}

/// An attempt that is connected and discovers.
pub struct Discovering<D> {
    device: D,
    attempt: u8,
}

/// An attempt that subscribes, all but the input characteristic.
pub struct Subscribing<D, C> {
    device: D,
    attempt: u8,
    writer: GattWriter<C>,
}

/// The characteristics of a Rynk device, and what its stack reports as the
/// longest write to the output characteristic.
pub struct RynkChars<C> {
    pub input: C,
    pub output: C,
    pub max_write_len: Result<usize, String>,
}

/// What the notification bridge answered.
pub enum Subscription {
    /// Notifications flow; the device goes by this name, if it has one.
    Active { name: Result<String, String> },
    /// The subscription failed.
    Refused(TransportError),
    /// The bridge ended without an answer.
    NoAnswer,
}

/// What an [`Attach`] means. Attempts count from zero.
pub enum AttachStage<D, C> {
    Pause { device: D, attempt: nat, after: TransportFault },
    Connect { device: D, attempt: nat },
    Discover { device: D, attempt: nat },
    Subscribe { device: D, attempt: nat, input: C, output: C, write_size: nat },
    Attached(LinkState<D, C>),
    Failed(TransportFault),
}

impl<D, C> View for Attach<D, C> {
    type V = AttachStage<D, C>;

    open spec fn view(&self) -> AttachStage<D, C> {
        match *self {
            Attach::Pause(pausing) => AttachStage::Pause {
                device: pausing.on(),
                attempt: pausing.number(),
                after: pausing.reason(),
            },
            Attach::Connect(connecting) => AttachStage::Connect {
                device: connecting.on(),
                attempt: connecting.number(),
            },
            Attach::Discover(discovering) => AttachStage::Discover {
                device: discovering.on(),
                attempt: discovering.number(),
            },
            Attach::Subscribe(input, subscribing) => AttachStage::Subscribe {
                device: subscribing.on(),
                attempt: subscribing.number(),
                input,
                output: subscribing.output(),
                write_size: subscribing.size(),
            },
            Attach::Attached(transport) => AttachStage::Attached(transport@),
            Attach::Failed(error) => AttachStage::Failed(error@),
        }
    }
}

/// The step after attempt number `attempt` failed for a passing reason.
pub open spec fn retry<D, C>(device: D, attempt: nat, fault: TransportFault) -> AttachStage<
    D,
    C,
> {
    if attempt + 1 < ATTACH_ATTEMPTS {
        AttachStage::Pause { device, attempt: attempt + 1, after: fault }
    } else {
        AttachStage::Failed(fault)
    }
}

/// The step after connecting; `None` is a timeout.
pub open spec fn after_connect<D, C>(
    device: D,
    attempt: nat,
    answer: Option<Result<(), Seq<char>>>,
) -> AttachStage<D, C> {
    match answer {
        Some(Ok(_)) => AttachStage::Discover { device, attempt },
        Some(Err(text)) => retry(device, attempt, TransportFault::Io("connect_device: "@ + text)),
        None => AttachStage::Failed(TransportFault::Io("connect_device timed out"@)),
    }
}

/// The step after discovery; `None` is a timeout.
pub open spec fn after_discover<D, C>(
    device: D,
    attempt: nat,
    answer: Option<Result<(C, C, nat), TransportFault>>,
) -> AttachStage<D, C> {
    match answer {
        Some(Ok((input, output, write_size))) => AttachStage::Subscribe {
            device,
            attempt,
            input,
            output,
            write_size,
        },
        Some(Err(TransportFault::DeviceNotFound(text))) => AttachStage::Failed(
            TransportFault::DeviceNotFound(text),
        ),
        Some(Err(fault)) => retry(device, attempt, fault),
        None => AttachStage::Failed(TransportFault::Io("service discovery timed out"@)),
    }
}

/// The step after subscribing; `None` is a bridge that gave no answer.
pub open spec fn after_subscribe<D, C>(
    device: D,
    attempt: nat,
    output: C,
    write_size: nat,
    answer: Option<Result<Option<Seq<char>>, TransportFault>>,
) -> AttachStage<D, C> {
    match answer {
        Some(Ok(name)) => AttachStage::Attached(
            LinkState { device, output, write_size, unread: Seq::empty(), name },
        ),
        Some(Err(fault)) => retry(device, attempt, fault),
        None => retry(device, attempt, TransportFault::Disconnected),
    }
}

/// A connect answer, its text as characters.
pub open spec fn connect_answer(answer: Option<Result<(), String>>) -> Option<
    Result<(), Seq<char>>,
> {
    match answer {
        Some(Ok(_)) => Some(Ok(())),
        Some(Err(text)) => Some(Err(text@)),
        None => None,
    }
}

/// A discovery answer, with the write size that follows from it.
pub open spec fn discover_answer<C>(
    answer: Option<Result<RynkChars<C>, TransportError>>,
) -> Option<Result<(C, C, nat), TransportFault>> {
    match answer {
        Some(Ok(found)) => Some(Ok((found.input, found.output, write_size(found.max_write_len)))),
        Some(Err(error)) => Some(Err(error@)),
        None => None,
    }
}

/// A bridge answer; a name that cannot be read is no name.
pub open spec fn subscribe_answer(answer: Subscription) -> Option<
    Result<Option<Seq<char>>, TransportFault>,
> {
    match answer {
        Subscription::Active { name: Ok(name) } => Some(Ok(Some(name@))),
        Subscription::Active { name: Err(_) } => Some(Ok(None)),
        Subscription::Refused(error) => Some(Err(error@)),
        Subscription::NoAnswer => None,
    }
}

/// Starts with the first attempt to attach to `device`, without a pause.
pub fn attach<D, C>(device: D) -> (first: Attach<D, C>)
    ensures
        first@ == (AttachStage::Connect::<D, C> { device, attempt: 0 }),
{
    Attach::Connect(Connecting { device, attempt: 0 })
}

fn try_again<D, C>(device: D, attempt: u8, error: TransportError) -> (next: Attach<D, C>)
    ensures
        next@ == retry::<D, C>(device, attempt as nat, error@),
{
    if attempt < ATTACH_ATTEMPTS - 1 {
        Attach::Pause(Pausing { device, attempt: attempt + 1, after: error })
    } else {
        Attach::Failed(error)
    }
}

impl<D> Pausing<D> {
    /// The device to attach to.
    pub closed spec fn on(self) -> D {
        self.device
    }

    /// The number of the attempt that follows.
    pub closed spec fn number(self) -> nat {
        self.attempt as nat
    }

    /// Why the attempt before failed.
    pub closed spec fn reason(self) -> TransportFault {
        self.after@
    }

    /// The number of the attempt that follows.
    pub fn attempt(&self) -> (attempt: u8)
        ensures
            attempt == self.number(),
    {
        self.attempt
    }

    /// Why the attempt before failed.
    pub fn last_error(&self) -> (error: &TransportError)
        ensures
            error@ == self.reason(),
    {
        &self.after
    }

    /// The pause is over.
    pub fn resume<C>(self) -> (next: Attach<D, C>)
        ensures
            next@ == (AttachStage::Connect::<D, C> {
                device: self.on(),
                attempt: self.number(),
            }),
    {
        Attach::Connect(Connecting { device: self.device, attempt: self.attempt })
    }
}

impl<D> Connecting<D> {
    /// The device to attach to.
    pub closed spec fn on(self) -> D {
        self.device
    }

    pub closed spec fn number(self) -> nat {
        self.attempt as nat
    }

    /// The device to connect to.
    pub fn device(&self) -> (device: &D)
        ensures
            *device == self.on(),
    {
        &self.device
    }

    /// Connecting ended, `None` if it took too long.
    pub fn connected<C>(self, answer: Option<Result<(), String>>) -> (next: Attach<D, C>)
        ensures
            next@ == after_connect::<D, C>(
                self.on(),
                self.number(),
                connect_answer(answer),
            ),
    {
        match answer {
            Some(Ok(_)) => Attach::Discover(Discovering { device: self.device, attempt: self.attempt }),
            Some(Err(text)) => {
                let mut message = "connect_device: ".to_owned();
                message.append(text.as_str());
                try_again(self.device, self.attempt, TransportError::Io(message))
            },
            None => Attach::Failed(TransportError::Io("connect_device timed out".to_owned())),
        }
    }
}

impl<D> Discovering<D> {
    /// The device to attach to.
    pub closed spec fn on(self) -> D {
        self.device
    }

    pub closed spec fn number(self) -> nat {
        self.attempt as nat
    }

    /// The device to discover on.
    pub fn device(&self) -> (device: &D)
        ensures
            *device == self.on(),
    {
        &self.device
    }

    /// The service whose characteristics are needed.
    pub fn service(&self) -> (uuid: u128)
        ensures
            uuid == service_uuid(),
    {
        rynk_service_uuid()
    }

    /// Discovery ended, `None` if it took too long.
    pub fn discovered<C>(self, answer: Option<Result<RynkChars<C>, TransportError>>) -> (next:
        Attach<D, C>)
        ensures
            next@ == after_discover(self.on(), self.number(), discover_answer(answer)),
    {
        match answer {
            Some(Ok(found)) => {
                let writer = GattWriter::new(found.output, found.max_write_len);
                Attach::Subscribe(
                    found.input,
                    Subscribing { device: self.device, attempt: self.attempt, writer },
                )
            },
            Some(Err(error)) => match error {
                TransportError::DeviceNotFound(text) => Attach::Failed(
                    TransportError::DeviceNotFound(text),
                ),
                error => try_again(self.device, self.attempt, error),
            },
            None => Attach::Failed(TransportError::Io("service discovery timed out".to_owned())),
        }
    }
}

impl<D, C> Subscribing<D, C> {
    /// The device to attach to.
    pub closed spec fn on(self) -> D {
        self.device
    }

    pub closed spec fn number(self) -> nat {
        self.attempt as nat
    }

    pub closed spec fn output(self) -> C {
        self.writer.target()
    }

    pub closed spec fn size(self) -> nat {
        self.writer.size()
    }

    /// The device to ask for its name.
    pub fn device(&self) -> (device: &D)
        ensures
            *device == self.on(),
    {
        &self.device
    }

    /// The bridge answered.
    pub fn subscribed(self, answer: Subscription) -> (next: Attach<D, C>)
        ensures
            next@ == after_subscribe(
                self.on(),
                self.number(),
                self.output(),
                self.size(),
                subscribe_answer(answer),
            ),
    {
        match answer {
            Subscription::Active { name } => {
                Attach::Attached(BleTransport::new(self.device, self.writer, name.ok()))
            },
            Subscription::Refused(error) => try_again(self.device, self.attempt, error),
            Subscription::NoAnswer => try_again(self.device, self.attempt, TransportError::Disconnected),
        }
    }
}

/// Everything that the outside can answer during one attempt. An answer behind
/// the step at which the attempt ends is never asked for.
pub struct AttemptAnswers<C> {
    pub connect: Option<Result<(), Seq<char>>>,
    pub discover: Option<Result<(C, C, nat), TransportFault>>,
    pub subscribe: Option<Result<Option<Seq<char>>, TransportFault>>,
}

/// The step to which one attempt leads.
pub open spec fn attempt_end<D, C>(
    device: D,
    attempt: nat,
    answers: AttemptAnswers<C>,
) -> AttachStage<D, C> {
    match after_connect::<D, C>(device, attempt, answers.connect) {
        AttachStage::Discover { device, attempt } => match after_discover(
            device,
            attempt,
            answers.discover,
        ) {
            AttachStage::Subscribe { device, attempt, output, write_size, .. } => after_subscribe(
                device,
                attempt,
                output,
                write_size,
                answers.subscribe,
            ),
            ended => ended,
        },
        ended => ended,
    }
}

/// The step to which the attempts lead that these answers are given to.
pub open spec fn attach_end<D, C>(
    stage: AttachStage<D, C>,
    answers: Seq<AttemptAnswers<C>>,
) -> AttachStage<D, C>
    decreases answers.len(),
{
    if answers.len() == 0 {
        stage
    } else {
        match stage {
            AttachStage::Pause { device, attempt, .. } => attach_end(
                attempt_end(device, attempt, answers[0]),
                answers.drop_first(),
            ),
            AttachStage::Connect { device, attempt } => attach_end(
                attempt_end(device, attempt, answers[0]),
                answers.drop_first(),
            ),
            ended => ended,
        }
    }
}

/// The passing reason for which an attempt fails, if it fails for one: a
/// refused connection, failed discovery, or a failed subscription.
pub open spec fn passing_failure<C>(answers: AttemptAnswers<C>) -> Option<TransportFault> {
    match (answers.connect, answers.discover, answers.subscribe) {
        (Some(Err(text)), _, _) => Some(TransportFault::Io("connect_device: "@ + text)),
        (None, _, _) => None,
        (_, Some(Err(TransportFault::DeviceNotFound(_))), _) => None,
        (_, Some(Err(fault)), _) => Some(fault),
        (_, None, _) => None,
        (_, _, Some(Err(fault))) => Some(fault),
        (_, _, None) => Some(TransportFault::Disconnected),
        _ => None,
    }
}

proof fn attach_end_from<D, C>(
    stage: AttachStage<D, C>,
    device: D,
    attempt: nat,
    answers: Seq<AttemptAnswers<C>>,
    count: nat,
)
    requires
        (stage matches AttachStage::Pause { device: d, attempt: n, .. } && d == device && n
            == attempt) || stage == (AttachStage::Connect::<D, C> { device, attempt }),
        0 < count <= answers.len(),
        attempt + count <= ATTACH_ATTEMPTS,
        forall|j: int| 0 <= j < count - 1 ==> passing_failure(#[trigger] answers[j]) is Some,
    ensures
        passing_failure(answers[count - 1]) is None ==> attach_end(stage, answers) == attempt_end(
            device,
            (attempt + count - 1) as nat,
            answers[count - 1],
        ),
        (attempt + count == ATTACH_ATTEMPTS && passing_failure(answers[count - 1]) is Some)
            ==> attach_end(stage, answers) == AttachStage::Failed::<D, C>(
            passing_failure(answers[count - 1])->0,
        ),
    decreases count,
{
    let rest = answers.drop_first();
    assert(forall|j: int| 0 <= j < rest.len() ==> rest[j] == #[trigger] answers[j + 1]);
    let next = attempt_end(device, attempt, answers[0]);
    if count > 1 {
        assert(passing_failure(answers[0]) is Some);
        assert(rest[count - 2] == answers[count - 1]);
        assert forall|j: int| 0 <= j < count - 2 implies passing_failure(
            #[trigger] rest[j],
        ) is Some by {
            assert(rest[j] == answers[j + 1]);
        }
        attach_end_from(next, device, attempt + 1, rest, (count - 1) as nat);
    } else {
        reveal_with_fuel(attach_end, 2);
    }
}

/// The first attempt that does not fail for a passing reason decides: attach
/// ends with what that attempt came to, a link or a definite failure, and makes
/// no further attempt.
pub proof fn first_definite_attempt_decides<D, C>(
    device: D,
    answers: Seq<AttemptAnswers<C>>,
    decisive: nat,
)
    requires
        decisive < ATTACH_ATTEMPTS,
        decisive < answers.len(),
        passing_failure(answers[decisive as int]) is None,
        forall|j: int| 0 <= j < decisive ==> passing_failure(#[trigger] answers[j]) is Some,
    ensures
        attach_end(AttachStage::Connect { device, attempt: 0 }, answers) == attempt_end(
            device,
            decisive,
            answers[decisive as int],
        ),
        attempt_end(device, decisive, answers[decisive as int]) is Attached || attempt_end(
            device,
            decisive,
            answers[decisive as int],
        ) is Failed,
{
    attach_end_from(AttachStage::Connect { device, attempt: 0 }, device, 0, answers, decisive + 1);
}

/// When every attempt fails for a passing reason, attach gives up after the
/// last one and reports its failure.
pub proof fn last_failure_is_reported<D, C>(device: D, answers: Seq<AttemptAnswers<C>>)
    requires
        answers.len() >= ATTACH_ATTEMPTS,
        forall|j: int|
            0 <= j < ATTACH_ATTEMPTS ==> passing_failure(#[trigger] answers[j]) is Some,
    ensures
        attach_end(AttachStage::Connect { device, attempt: 0 }, answers) == AttachStage::Failed::<D, C>(
            passing_failure(answers[ATTACH_ATTEMPTS - 1])->0,
        ),
{
    attach_end_from(AttachStage::Connect { device, attempt: 0 }, device, 0, answers, ATTACH_ATTEMPTS as nat);
}

/// The link that an attach ended with, or why it gave up; meant for a stage at
/// which it did end.
pub open spec fn attached_link<D, C>(stage: AttachStage<D, C>) -> Result<
    LinkState<D, C>,
    TransportFault,
>
    recommends
        stage is Attached || stage is Failed,
{
    match stage {
        AttachStage::Attached(link) => Ok(link),
        AttachStage::Failed(fault) => Err(fault),
        _ => arbitrary(),
    }
}

/// The device that a stage is about, if it still is about one.
pub open spec fn stage_device<D, C>(stage: AttachStage<D, C>) -> Option<D> {
    match stage {
        AttachStage::Pause { device, .. } => Some(device),
        AttachStage::Connect { device, .. } => Some(device),
        AttachStage::Discover { device, .. } => Some(device),
        AttachStage::Subscribe { device, .. } => Some(device),
        AttachStage::Attached(link) => Some(link.device),
        AttachStage::Failed(_) => None,
    }
}

/// An attach never changes over to another device: every attempt is made on the
/// device that was chosen, and the link that comes up is a link to it.
pub proof fn attach_keeps_to_its_device<D, C>(
    stage: AttachStage<D, C>,
    answers: Seq<AttemptAnswers<C>>,
)
    ensures
        attach_end(stage, answers) is Failed || stage_device(attach_end(stage, answers))
            == stage_device(stage),
    decreases answers.len(),
{
    if answers.len() > 0 {
        match stage {
            AttachStage::Pause { device, attempt, .. } => {
                attach_keeps_to_its_device(
                    attempt_end(device, attempt, answers[0]),
                    answers.drop_first(),
                );
            },
            AttachStage::Connect { device, attempt } => {
                attach_keeps_to_its_device(
                    attempt_end(device, attempt, answers[0]),
                    answers.drop_first(),
                );
            },
            _ => {},
        }
    }
}

/// A keyboard that is gone since it was listed fails the connect with the
/// failure of the last attempt, and no handshake changes that.
pub proof fn lost_keyboard_fails_the_connect<D, C, S, E>(
    device: D,
    answers: Seq<AttemptAnswers<C>>,
    handshake: Option<Result<S, E>>,
)
    requires
        answers.len() >= ATTACH_ATTEMPTS,
        forall|j: int|
            0 <= j < ATTACH_ATTEMPTS ==> passing_failure(#[trigger] answers[j]) is Some,
    ensures
        connect_end(
            attached_link(attach_end(AttachStage::Connect { device, attempt: 0 }, answers)),
            handshake,
        ) == Err::<S, ConnectFault<E>>(
            ConnectFault::Transport(passing_failure(answers[ATTACH_ATTEMPTS - 1])->0),
        ),
{
    last_failure_is_reported(device, answers);
}

/// A step that times out, and a device without the Rynk service or one of its
/// characteristics, end the attach at once, whichever attempt it is.
pub proof fn definite_failures_are_not_retried<D, C>(
    device: D,
    attempt: nat,
    answers: AttemptAnswers<C>,
)
    ensures
        answers.connect is None ==> attempt_end(device, attempt, answers) == AttachStage::Failed::<D, C>(
            TransportFault::Io("connect_device timed out"@),
        ),
        answers.connect matches Some(Ok(_)) ==> answers.discover is None ==> attempt_end(
            device,
            attempt,
            answers,
        ) == AttachStage::Failed::<D, C>(TransportFault::Io("service discovery timed out"@)),
        answers.connect matches Some(Ok(_)) ==> answers.discover matches Some(
            Err(TransportFault::DeviceNotFound(text)),
        ) ==> attempt_end(device, attempt, answers) == AttachStage::Failed::<D, C>(
            TransportFault::DeviceNotFound(text),
        ),
{
}

/// Whatever the number of the attempt: once it connects, discovers the
/// characteristics and subscribes, the subscription is made on the input
/// characteristic that was found, and the link that comes up leads to the device
/// that was chosen, writes to the output characteristic that was found, in
/// writes of the size that its stack reports as far as that is allowed, starts
/// with nothing to read, and goes by the device's name.
pub proof fn link_is_wired_as_discovered<'a, D, C>(
    connecting: Connecting<D>,
    connected: Attach<D, C>,
    found: RynkChars<C>,
    discovered: Attach<D, C>,
    name: Result<String, String>,
    subscribed: Attach<D, C>,
    device_name: Option<&'a str>,
    buf: &'a [u8],
    write: GattWrite<'a>,
    halves: (GattWriter<C>, ChunkReader),
    target: &'a C,
)
    requires
        call_ensures(Connecting::<D>::connected::<C>, (connecting, Some(Ok(()))), connected),
        call_ensures(
            Discovering::<D>::discovered::<C>,
            (connected->Discover_0, Some(Ok(found))),
            discovered,
        ),
        call_ensures(
            Subscribing::<D, C>::subscribed,
            (discovered->Subscribe_1, Subscription::Active { name }),
            subscribed,
        ),
        call_ensures(
            BleTransport::<D, C>::device_name,
            (&subscribed->Attached_0,),
            device_name,
        ),
        call_ensures(BleTransport::<D, C>::write, (&subscribed->Attached_0, buf), write),
        call_ensures(BleTransport::<D, C>::split, (subscribed->Attached_0,), halves),
        call_ensures(GattWriter::<C>::output_char, (&halves.0,), target),
    ensures
        connected is Discover,
        connected->Discover_0.on() == connecting.on(),
        connected->Discover_0.number() == connecting.number(),
        discovered is Subscribe,
        discovered->Subscribe_0 == found.input,
        discovered->Subscribe_1.on() == connecting.on(),
        discovered->Subscribe_1.number() == connecting.number(),
        subscribed is Attached,
        subscribed->Attached_0@.device == connecting.on(),
        *target == found.output,
        write@ == buf@.take(write@.len() as int),
        write@.len() == buf@.len() || write@.len() == halves.0.size(),
        write@.len() <= buf@.len() && write@.len() <= halves.0.size(),
        match found.max_write_len {
            Ok(reported) => {
                &&& BLE_SAFE_WRITE <= reported <= ble_chunk_size() ==> halves.0.size() == reported
                &&& reported <= BLE_SAFE_WRITE ==> halves.0.size() == BLE_SAFE_WRITE
                &&& reported >= ble_chunk_size() ==> halves.0.size() == ble_chunk_size()
            },
            Err(_) => halves.0.size() == BLE_SAFE_WRITE,
        },
        halves.1@.len() == 0,
        match name {
            Ok(text) => device_name matches Some(told) && told@ == text@,
            Err(_) => device_name is None,
        },
{
}

/// Whatever the number of the attempt and whatever the text of the failure: a
/// refused connection, a discovery that fails other than by finding nothing,
/// and a subscription that is refused or not answered lead to a pause and then
/// to the next attempt on the same device. Behind the last attempt they are
/// reported instead, just as they are.
pub proof fn passing_failures_lead_to_the_next_attempt<'a, D, C>(
    connecting: Connecting<D>,
    discovering: Discovering<D>,
    subscribing: Subscribing<D, C>,
    text: String,
    error: TransportError,
    device: D,
    number: nat,
    fault: TransportFault,
    next: Attach<D, C>,
    count: u8,
    told: &'a TransportError,
    resumed: Attach<D, C>,
    target: &'a D,
)
    requires
        (call_ensures(Connecting::<D>::connected::<C>, (connecting, Some(Err(text))), next)
            && device == connecting.on() && number == connecting.number() && fault
            == TransportFault::Io("connect_device: "@ + text@)) || (call_ensures(
            Discovering::<D>::discovered::<C>,
            (discovering, Some(Err(error))),
            next,
        ) && device == discovering.on() && number == discovering.number() && !(
        error is DeviceNotFound) && fault == error@) || (call_ensures(
            Subscribing::<D, C>::subscribed,
            (subscribing, Subscription::Refused(error)),
            next,
        ) && device == subscribing.on() && number == subscribing.number() && fault == error@) || (
        call_ensures(
            Subscribing::<D, C>::subscribed,
            (subscribing, Subscription::NoAnswer),
            next,
        ) && device == subscribing.on() && number == subscribing.number() && fault
            == TransportFault::Disconnected),
        call_ensures(Pausing::<D>::attempt, (&next->Pause_0,), count),
        call_ensures(Pausing::<D>::last_error, (&next->Pause_0,), told),
        call_ensures(Pausing::<D>::resume::<C>, (next->Pause_0,), resumed),
        call_ensures(Connecting::<D>::device, (&resumed->Connect_0,), target),
    ensures
        number + 1 < ATTACH_ATTEMPTS ==> next is Pause && count == number + 1 && told@ == fault,
        number + 1 < ATTACH_ATTEMPTS ==> resumed is Connect && *target == device
            && resumed->Connect_0.number() == number + 1,
        number + 1 >= ATTACH_ATTEMPTS ==> next is Failed && next->Failed_0@ == fault,
{
}

/// Whatever the number of the attempt: a step that takes too long, and a
/// discovery that finds something missing, give the device up at once; what is
/// missing is reported in the words of the discovery.
pub proof fn definite_failures_give_the_device_up<D, C>(
    connecting: Connecting<D>,
    connected: Attach<D, C>,
    discovering: Discovering<D>,
    discovered: Attach<D, C>,
    missing: String,
    not_found: Attach<D, C>,
)
    requires
        call_ensures(Connecting::<D>::connected::<C>, (connecting, None), connected),
        call_ensures(Discovering::<D>::discovered::<C>, (discovering, None), discovered),
        call_ensures(
            Discovering::<D>::discovered::<C>,
            (discovering, Some(Err(TransportError::DeviceNotFound(missing)))),
            not_found,
        ),
    ensures
        connected is Failed,
        connected->Failed_0@ == TransportFault::Io("connect_device timed out"@),
        discovered is Failed,
        discovered->Failed_0@ == TransportFault::Io("service discovery timed out"@),
        not_found is Failed,
        not_found->Failed_0@ == TransportFault::DeviceNotFound(missing@),
{
}

/// The attempt that connects, discovers and subscribes brings up the link, to
/// the device that was chosen and over the characteristics that this attempt
/// found, however many attempts before it were refused a connection, failed to
/// discover or failed to subscribe.
pub proof fn link_comes_from_the_attempt_that_succeeds<D, C>(
    device: D,
    answers: Seq<AttemptAnswers<C>>,
    last: nat,
    input: C,
    output: C,
    size: nat,
    name: Option<Seq<char>>,
)
    requires
        last < ATTACH_ATTEMPTS,
        last < answers.len(),
        forall|j: int|
            0 <= j < last ==> (#[trigger] answers[j]).connect is Some && (answers[j].connect->0 is Err
                || (answers[j].discover is Some && !(answers[j].discover->0 is Err
                && answers[j].discover->0->Err_0 is DeviceNotFound) && (
            answers[j].discover->0 is Err || answers[j].subscribe is None
                || answers[j].subscribe->0 is Err))),
        answers[last as int].connect == Some(Ok::<(), Seq<char>>(())),
        answers[last as int].discover == Some(
            Ok::<(C, C, nat), TransportFault>((input, output, size)),
        ),
        answers[last as int].subscribe == Some(Ok::<Option<Seq<char>>, TransportFault>(name)),
    ensures
        attach_end(AttachStage::Connect { device, attempt: 0 }, answers) == AttachStage::Attached(
            LinkState { device, output, write_size: size, unread: Seq::empty(), name },
        ),
{
    assert forall|j: int| 0 <= j < last implies passing_failure(#[trigger] answers[j]) is Some by {}
    first_definite_attempt_decides(device, answers, last);
}

/// When the last attempt is refused a connection, and every attempt before it
/// was refused one too, the attach fails with what the last refusal said,
/// whatever the texts are.
pub proof fn last_refusal_is_told<D, C>(device: D, answers: Seq<AttemptAnswers<C>>)
    requires
        answers.len() == ATTACH_ATTEMPTS,
        forall|j: int|
            0 <= j < ATTACH_ATTEMPTS ==> (#[trigger] answers[j]).connect is Some
                && answers[j].connect->0 is Err,
    ensures
        attach_end(AttachStage::Connect { device, attempt: 0 }, answers) == AttachStage::Failed::<
            D,
            C,
        >(
            TransportFault::Io(
                "connect_device: "@ + answers[ATTACH_ATTEMPTS - 1].connect->0->Err_0,
            ),
        ),
        forall|made: int|
            0 < made < ATTACH_ATTEMPTS ==> attach_end(
                AttachStage::Connect::<D, C> { device, attempt: 0 },
                #[trigger] answers.take(made),
            ) is Pause,
{
    assert forall|j: int| 0 <= j < ATTACH_ATTEMPTS implies passing_failure(
        #[trigger] answers[j],
    ) is Some by {}
    last_failure_is_reported(device, answers);
    assert forall|made: int| 0 < made < ATTACH_ATTEMPTS implies attach_end(
        AttachStage::Connect::<D, C> { device, attempt: 0 },
        #[trigger] answers.take(made),
    ) is Pause by {
        refusals_lead_to_a_pause(
            AttachStage::Connect { device, attempt: 0 },
            device,
            0,
            answers.take(made),
        );
    }
}

proof fn refusals_lead_to_a_pause<D, C>(
    stage: AttachStage<D, C>,
    device: D,
    attempt: nat,
    answers: Seq<AttemptAnswers<C>>,
)
    requires
        (stage matches AttachStage::Pause { device: d, attempt: n, .. } && d == device && n
            == attempt) || stage == (AttachStage::Connect::<D, C> { device, attempt }),
        0 < answers.len(),
        attempt + answers.len() < ATTACH_ATTEMPTS,
        forall|j: int|
            0 <= j < answers.len() ==> (#[trigger] answers[j]).connect is Some
                && answers[j].connect->0 is Err,
    ensures
        attach_end(stage, answers) is Pause,
    decreases answers.len(),
{
    let rest = answers.drop_first();
    let next = attempt_end(device, attempt, answers[0]);
    if rest.len() > 0 {
        assert(forall|j: int| 0 <= j < rest.len() ==> #[trigger] rest[j] == answers[j + 1]);
        refusals_lead_to_a_pause(next, device, attempt + 1, rest);
    } else {
        reveal_with_fuel(attach_end, 2);
    }
}

/// How many steps an attach can still take, at most.
pub open spec fn steps_left<D, C>(stage: AttachStage<D, C>) -> nat {
    match stage {
        AttachStage::Pause { attempt, .. } => (4 * (ATTACH_ATTEMPTS - attempt)) as nat,
        AttachStage::Connect { attempt, .. } => (4 * (ATTACH_ATTEMPTS - attempt) - 1) as nat,
        AttachStage::Discover { attempt, .. } => (4 * (ATTACH_ATTEMPTS - attempt) - 2) as nat,
        AttachStage::Subscribe { attempt, .. } => (4 * (ATTACH_ATTEMPTS - attempt) - 3) as nat,
        _ => 0,
    }
}

/// The attempt that a stage belongs to is one of those allowed.
pub open spec fn within_attempts<D, C>(stage: AttachStage<D, C>) -> bool {
    match stage {
        AttachStage::Pause { attempt, .. } => 0 < attempt < ATTACH_ATTEMPTS,
        AttachStage::Connect { attempt, .. } => attempt < ATTACH_ATTEMPTS,
        AttachStage::Discover { attempt, .. } => attempt < ATTACH_ATTEMPTS,
        AttachStage::Subscribe { attempt, .. } => attempt < ATTACH_ATTEMPTS,
        _ => true,
    }
}

/// Whatever the outside answers, every step brings the attach closer to its
/// end, so it never goes on for good, and none leads past the last attempt.
pub proof fn every_step_makes_progress<D, C>(
    device: D,
    attempt: nat,
    after: TransportFault,
    input: C,
    output: C,
    write_size: nat,
    answers: AttemptAnswers<C>,
)
    requires
        attempt < ATTACH_ATTEMPTS,
    ensures
        steps_left(AttachStage::Connect::<D, C> { device, attempt }) < steps_left(
            AttachStage::Pause::<D, C> { device, attempt, after },
        ),
        steps_left(after_connect::<D, C>(device, attempt, answers.connect)) < steps_left(
            AttachStage::Connect::<D, C> { device, attempt },
        ),
        steps_left(after_discover::<D, C>(device, attempt, answers.discover)) < steps_left(
            AttachStage::Discover::<D, C> { device, attempt },
        ),
        steps_left(after_subscribe(device, attempt, output, write_size, answers.subscribe)) < steps_left(
            AttachStage::Subscribe { device, attempt, input, output, write_size },
        ),
        within_attempts(after_connect::<D, C>(device, attempt, answers.connect)),
        within_attempts(after_discover::<D, C>(device, attempt, answers.discover)),
        within_attempts(after_subscribe(device, attempt, output, write_size, answers.subscribe)),
{
}

} // verus!
