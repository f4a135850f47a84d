//! From an opened link to a session.

use vstd::prelude::*;

use crate::error::{outcome, ConnectError, ConnectFault, TransportError, TransportFault};

verus! {

/// Bound on the protocol handshake once the link is open, in milliseconds.
pub const HANDSHAKE_TIMEOUT_MS: u64 = 1_000;

/// How a connect goes on after the link was opened: with the link, or not at
/// all.
pub open spec fn link_end<T, E>(link: Result<T, TransportFault>) -> Result<T, ConnectFault<E>> {
    match link {
        Ok(link) => Ok(link),
        Err(fault) => Err(ConnectFault::Transport(fault)),
    }
}

/// How a connect ends after the handshake; `None` is a peer that stayed silent.
pub open spec fn handshake_end<S, E>(handshake: Option<Result<S, E>>) -> Result<
    S,
    ConnectFault<E>,
> {
    match handshake {
        Some(Ok(session)) => Ok(session),
        Some(Err(reason)) => Err(ConnectFault::Handshake(reason)),
        None => Err(
            ConnectFault::Transport(TransportFault::DeviceNotFound("handshake timed out"@)),
        ),
    }
}

/// How a connect ends that is given this link and, if it gets so far, this
/// handshake.
pub open spec fn connect_end<T, S, E>(
    link: Result<T, TransportFault>,
    handshake: Option<Result<S, E>>,
) -> Result<S, ConnectFault<E>> {
    match link_end::<T, E>(link) {
        Ok(_) => handshake_end(handshake),
        Err(fault) => Err(fault),
    }
}

/// A link that could not be opened fails the whole connect.
pub fn opened<T, E>(link: Result<T, TransportError>) -> (next: Result<T, ConnectError<E>>)
    ensures
        outcome(next) == link_end::<T, E>(outcome(link)),
{
    match link {
        Ok(link) => Ok(link),
        Err(error) => Err(ConnectError::Transport(error)),
    }
}

/// Ends a connect with what the handshake came to, `None` if the peer stayed
/// silent for [`HANDSHAKE_TIMEOUT_MS`]. A peer that the client refuses is
/// reported with the client's own reason.
pub fn connect_transport<S, E>(handshake: Option<Result<S, E>>) -> (session: Result<
    S,
    ConnectError<E>,
>)
    ensures
        outcome(session) == handshake_end(handshake),
{
    match handshake {
        Some(Ok(session)) => Ok(session),
        Some(Err(reason)) => Err(ConnectError::Handshake(reason)),
        None => Err(
            ConnectError::Transport(
                TransportError::DeviceNotFound("handshake timed out".to_owned()),
            ),
        ),
    }
}

/// A link that opens is handed on as it is and one that does not fails with its
/// own reason; the session is the one that the client made, a refusal is the
/// client's own, and only silence is called a timeout.
pub proof fn links_and_sessions_pass_unchanged<T, S, E>(
    link: Result<T, TransportError>,
    next: Result<T, ConnectError<E>>,
    handshake: Option<Result<S, E>>,
    session: Result<S, ConnectError<E>>,
)
    requires
        call_ensures(opened::<T, E>, (link,), next),
        call_ensures(connect_transport::<S, E>, (handshake,), session),
    ensures
        link matches Ok(held) ==> next == Ok::<T, ConnectError<E>>(held),
        link matches Err(error) ==> (next matches Err(ConnectError::Transport(told)) && told@
            == error@),
        handshake is Some && handshake->0 is Ok ==> session == Ok::<S, ConnectError<E>>(
            handshake->0->Ok_0,
        ),
        handshake is Some && handshake->0 is Err ==> session == Err::<S, ConnectError<E>>(
            ConnectError::Handshake(handshake->0->Err_0),
        ),
        handshake is None ==> (session matches Err(
            ConnectError::Transport(TransportError::DeviceNotFound(text)),
        ) && text@ == "handshake timed out"@),
{
}

/// The handshake is the authoritative confirmation: a session comes about
/// exactly if the link opens and the peer completes the handshake in time. A
/// device that is gone surfaces as the failure of its link, a silent one as not
/// found, a refused one with the client's reason.
pub proof fn only_a_confirmed_peer_gets_a_session<T, S, E>(
    link: Result<T, TransportFault>,
    handshake: Option<Result<S, E>>,
)
    ensures
        connect_end(link, handshake) is Ok <==> link is Ok && handshake is Some
            && handshake->0 is Ok,
        connect_end(link, handshake) is Ok ==> connect_end(link, handshake)->Ok_0
            == handshake->0->Ok_0,
        link is Err ==> connect_end(link, handshake) == Err::<S, ConnectFault<E>>(
            ConnectFault::Transport(link->Err_0),
        ),
        link is Ok && handshake is None ==> connect_end(link, handshake) == Err::<
            S,
            ConnectFault<E>,
        >(ConnectFault::Transport(TransportFault::DeviceNotFound("handshake timed out"@))),
        link is Ok && handshake is Some && handshake->0 is Err ==> connect_end(link, handshake)
            == Err::<S, ConnectFault<E>>(ConnectFault::Handshake(handshake->0->Err_0)),
{
}

} // verus!
