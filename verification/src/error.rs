//! Failures that the transports report.

use vstd::prelude::*;

verus! {

/// A transport could not be found, opened or kept alive.
#[derive(Debug)]
pub enum TransportError {
    /// The link is gone.
    Disconnected,
    /// An operation of the operating system or of the radio failed.
    Io(String),
    /// Nothing there speaks Rynk.
    DeviceNotFound(String),
}

/// What a [`TransportError`] says, its text as characters.
pub enum TransportFault {
    Disconnected,
    Io(Seq<char>),
    DeviceNotFound(Seq<char>),
}

impl View for TransportError {
    type V = TransportFault;

    open spec fn view(&self) -> TransportFault {
        match *self {
            TransportError::Disconnected => TransportFault::Disconnected,
            TransportError::Io(text) => TransportFault::Io(text@),
            TransportError::DeviceNotFound(text) => TransportFault::DeviceNotFound(text@),
        }
    }
}

/// A session could not be established: either the transport failed, or the
/// protocol client refused the peer with an error of its own kind `E`.
#[derive(Debug)]
pub enum ConnectError<E> {
    Transport(TransportError),
    Handshake(E),
}

/// What a [`ConnectError`] says.
pub enum ConnectFault<E> {
    Transport(TransportFault),
    Handshake(E),
}

impl<E> View for ConnectError<E> {
    type V = ConnectFault<E>;

    open spec fn view(&self) -> ConnectFault<E> {
        match *self {
            ConnectError::Transport(fault) => ConnectFault::Transport(fault@),
            ConnectError::Handshake(reason) => ConnectFault::Handshake(reason),
        }
    }
}

/// GATT-level I/O failure.
#[derive(Debug)]
pub struct BleIoError(String);

impl View for BleIoError {
    type V = Seq<char>;

    closed spec fn view(&self) -> Seq<char> {
        self.0@
    }
}

impl BleIoError {
    pub fn new(text: String) -> (error: Self)
        ensures
            error@ == text@,
    {
        BleIoError(text)
    }

    /// The failure in words.
    pub fn message(&self) -> (text: &str)
        ensures
            text@ == self@,
    {
        self.0.as_str()
    }
}

/// A fallible outcome whose error counts only by what it says.
pub open spec fn outcome<T, E: View>(result: Result<T, E>) -> Result<T, E::V> {
    match result {
        Ok(value) => Ok(value),
        Err(error) => Err(error@),
    }
}

/// What an error says tells it apart: its kind and its text are read off from
/// what it says, whatever the text is.
pub proof fn errors_say_all_they_hold(error: TransportError)
    ensures
        error is Disconnected <==> error@ is Disconnected,
        error is Io <==> error@ is Io,
        error is DeviceNotFound <==> error@ is DeviceNotFound,
        error matches TransportError::Io(text) ==> error@->Io_0 == text@,
        error matches TransportError::DeviceNotFound(text) ==> error@->DeviceNotFound_0 == text@,
{
}

/// A failure keeps its words: any text of the operating system comes out
/// unchanged, as an I/O failure, and a success comes out as it went in.
pub proof fn failure_texts_are_kept<'a, T>(
    result: Result<T, String>,
    mapped: Result<T, TransportError>,
    words: String,
    error: BleIoError,
    message: &'a str,
)
    requires
        call_ensures(io_failure::<T>, (result,), mapped),
        call_ensures(BleIoError::new, (words,), error),
        call_ensures(BleIoError::message, (&error,), message),
    ensures
        result matches Ok(value) ==> mapped == Ok::<T, TransportError>(value),
        result matches Err(text) ==> (mapped matches Err(TransportError::Io(told)) && told@
            == text@),
        message@ == words@,
{
}

/// Any failure text of the operating system becomes an I/O failure.
pub fn io_failure<T>(result: Result<T, String>) -> (mapped: Result<T, TransportError>)
    ensures
        outcome(mapped) == (match result {
            Ok(value) => Ok::<T, TransportFault>(value),
            Err(text) => Err(TransportFault::Io(text@)),
        }),
{
    match result {
        Ok(value) => Ok(value),
        Err(text) => Err(TransportError::Io(text)),
    }
}

} // verus!
